//! The abstract syntax tree shared by the parser, the type checker and
//! the evaluator, together with its mathematical view (`TypeInfoV`,
//! `ExprV`, ...) in which names are `Seq<char>` and lists are `Seq`.

use vstd::prelude::*;

verus! {

broadcast use vstd::std_specs::vec::group_vec_axioms, vstd::seq::group_seq_axioms;

/// Phantom tag for a module that has not been type-checked yet.
pub struct Unverified;

/// Phantom tag for a module whose every definition carries its checked type.
pub struct Verified;

/// States a module can be in: parsed but unchecked, or checked.
pub trait AstState {
}

impl AstState for Unverified {
}

impl AstState for Verified {
}

// ------------------------------------------------------------------
// Types
// ------------------------------------------------------------------

/// The structural shape of a value: a nominal type referred to by name,
/// a tuple, a function, or not yet known.
pub enum TypeInfo {
    Struct(String),
    Tuple(Vec<TypeInfo>),
    Function(FuncType),
    Unknown,
}

/// Parameter types and return type of a function.
pub struct FuncType {
    pub params: Vec<VariableType>,
    pub return_type: Box<VariableType>,
}

/// A binding's type: mutability is a property of the binding, not of the
/// underlying `TypeInfo`.
pub struct VariableType {
    pub mutable: bool,
    pub info: TypeInfo,
}

/// View of `TypeInfo`.
pub enum TypeInfoV {
    Struct(Seq<char>),
    Tuple(Seq<TypeInfoV>),
    Function(FuncTypeV),
    Unknown,
}

/// View of `FuncType`.
pub struct FuncTypeV {
    pub params: Seq<VariableTypeV>,
    pub return_type: Box<VariableTypeV>,
}

/// View of `VariableType`.
pub struct VariableTypeV {
    pub mutable: bool,
    pub info: TypeInfoV,
}

pub open spec fn view_type_info(t: TypeInfo) -> TypeInfoV
    decreases t,
{
    match t {
        TypeInfo::Struct(name) => TypeInfoV::Struct(name@),
        TypeInfo::Tuple(items) => TypeInfoV::Tuple(view_type_info_seq(items@)),
        TypeInfo::Function(f) => TypeInfoV::Function(view_func_type(f)),
        TypeInfo::Unknown => TypeInfoV::Unknown,
    }
}

pub open spec fn view_type_info_seq(items: Seq<TypeInfo>) -> Seq<TypeInfoV>
    decreases items,
{
    if items.len() == 0 {
        Seq::empty()
    } else {
        view_type_info_seq(items.drop_last()).push(view_type_info(items.last()))
    }
}

pub open spec fn view_func_type(f: FuncType) -> FuncTypeV
    decreases f,
{
    FuncTypeV {
        params: view_variable_type_seq(f.params@),
        return_type: Box::new(view_variable_type(*f.return_type)),
    }
}

pub open spec fn view_variable_type_seq(params: Seq<VariableType>) -> Seq<VariableTypeV>
    decreases params,
{
    if params.len() == 0 {
        Seq::empty()
    } else {
        view_variable_type_seq(params.drop_last()).push(view_variable_type(params.last()))
    }
}

pub open spec fn view_variable_type(t: VariableType) -> VariableTypeV
    decreases t,
{
    VariableTypeV { mutable: t.mutable, info: view_type_info(t.info) }
}

impl View for TypeInfo {
    type V = TypeInfoV;

    open spec fn view(&self) -> TypeInfoV {
        view_type_info(*self)
    }
}

impl View for FuncType {
    type V = FuncTypeV;

    open spec fn view(&self) -> FuncTypeV {
        view_func_type(*self)
    }
}

impl View for VariableType {
    type V = VariableTypeV;

    open spec fn view(&self) -> VariableTypeV {
        view_variable_type(*self)
    }
}

pub proof fn lemma_view_type_info_seq(items: Seq<TypeInfo>)
    ensures
        view_type_info_seq(items).len() == items.len(),
        forall|i: int|
            0 <= i < items.len() ==> view_type_info_seq(items)[i] == view_type_info(items[i]),
    decreases items.len(),
{
    if items.len() > 0 {
        lemma_view_type_info_seq(items.drop_last());
    }
}

pub proof fn lemma_view_variable_type_seq(params: Seq<VariableType>)
    ensures
        view_variable_type_seq(params).len() == params.len(),
        forall|i: int|
            0 <= i < params.len() ==> view_variable_type_seq(params)[i] == view_variable_type(
                params[i],
            ),
    decreases params.len(),
{
    if params.len() > 0 {
        lemma_view_variable_type_seq(params.drop_last());
    }
}

// ------------------------------------------------------------------
// Expressions
// ------------------------------------------------------------------

/// The operators that may join the partial expressions of an `Expr`.
/// They are left-associative and share one precedence level.
#[derive(Clone, Copy, PartialEq, Eq, Structural)]
pub enum Operand {
    Plus,
    Minus,
    Lt,
}

/// A chain `p0 o1 p1 o2 p2 ...`: one more partial expression than
/// operators, folded left to right.
pub struct Expr {
    pub exprs: Vec<PartialExpr>,
    pub operands: Vec<Operand>,
}

/// One operand of an operator chain.
pub enum PartialExpr {
    Block(BlockExpr),
    If(IfExpr),
    FunctionCall(FunctionCallExpr),
    Variable(VariableExpr),
    Lambda(FunctionDef),
    Tuple(TupleDef),
}

/// Reserved shape for a block expression; not implemented yet.
pub struct BlockExpr {}

/// `if cond main` with an optional `else` branch.
pub struct IfExpr {
    pub cond_expr: Expr,
    pub main_branch: Expr,
    pub else_branch: Option<Expr>,
}

/// A call, by name, of a function value in scope.
pub struct FunctionCallExpr {
    pub name: String,
    pub params: Vec<Expr>,
}

/// A name reference or a literal constant.
pub enum VariableExpr {
    Variable(String),
    Constant(ConstantValue),
}

/// A literal: an integer, a decimal number, or a string.
pub enum ConstantValue {
    Integer(i32),
    Float(FloatConst),
    String(String),
}

/// A decimal literal, kept as its parts: sign, whole part, and the
/// digits after the point.
pub struct FloatConst {
    pub negative: bool,
    pub whole: i32,
    pub fraction: String,
}

/// An anonymous function: parameters, explicit captures with their
/// requested mutability, declared return type, and the body.
pub struct FunctionDef {
    pub parameters: Vec<(String, VariableType)>,
    pub closure: Vec<(String, bool)>,
    pub return_type: VariableType,
    pub expr: Expr,
}

/// A tuple construction; parsed, but not evaluated yet.
pub struct TupleDef {
    pub items: Vec<Expr>,
}

/// View of `Expr`.
pub struct ExprV {
    pub exprs: Seq<PartialExprV>,
    pub operands: Seq<Operand>,
}

/// View of `PartialExpr`.
pub enum PartialExprV {
    Block,
    If(IfExprV),
    FunctionCall(FunctionCallExprV),
    Variable(VariableExprV),
    Lambda(FunctionDefV),
    Tuple(TupleDefV),
}

/// View of `IfExpr`.
pub struct IfExprV {
    pub cond_expr: Box<ExprV>,
    pub main_branch: Box<ExprV>,
    pub else_branch: Option<Box<ExprV>>,
}

/// View of `FunctionCallExpr`.
pub struct FunctionCallExprV {
    pub name: Seq<char>,
    pub params: Seq<ExprV>,
}

/// View of `VariableExpr`.
pub enum VariableExprV {
    Variable(Seq<char>),
    Constant(ConstantValueV),
}

/// View of `ConstantValue`.
pub enum ConstantValueV {
    Integer(i32),
    Float(FloatConstV),
    String(Seq<char>),
}

/// View of `FloatConst`.
pub struct FloatConstV {
    pub negative: bool,
    pub whole: i32,
    pub fraction: Seq<char>,
}

/// View of `FunctionDef`.
pub struct FunctionDefV {
    pub parameters: Seq<(Seq<char>, VariableTypeV)>,
    pub closure: Seq<(Seq<char>, bool)>,
    pub return_type: VariableTypeV,
    pub expr: Box<ExprV>,
}

/// View of `TupleDef`.
pub struct TupleDefV {
    pub items: Seq<ExprV>,
}

pub open spec fn view_expr(e: Expr) -> ExprV
    decreases e,
{
    ExprV { exprs: view_partial_expr_seq(e.exprs@), operands: e.operands@ }
}

pub open spec fn view_partial_expr_seq(es: Seq<PartialExpr>) -> Seq<PartialExprV>
    decreases es,
{
    if es.len() == 0 {
        Seq::empty()
    } else {
        view_partial_expr_seq(es.drop_last()).push(view_partial_expr(es.last()))
    }
}

pub open spec fn view_partial_expr(p: PartialExpr) -> PartialExprV
    decreases p,
{
    match p {
        PartialExpr::Block(_) => PartialExprV::Block,
        PartialExpr::If(e) => PartialExprV::If(view_if_expr(e)),
        PartialExpr::FunctionCall(e) => PartialExprV::FunctionCall(view_function_call_expr(e)),
        PartialExpr::Variable(e) => PartialExprV::Variable(view_variable_expr(e)),
        PartialExpr::Lambda(d) => PartialExprV::Lambda(view_function_def(d)),
        PartialExpr::Tuple(t) => PartialExprV::Tuple(view_tuple_def(t)),
    }
}

pub open spec fn view_if_expr(e: IfExpr) -> IfExprV
    decreases e,
{
    IfExprV {
        cond_expr: Box::new(view_expr(e.cond_expr)),
        main_branch: Box::new(view_expr(e.main_branch)),
        else_branch: match e.else_branch {
            Some(eb) => Some(Box::new(view_expr(eb))),
            None => None,
        },
    }
}

pub open spec fn view_function_call_expr(e: FunctionCallExpr) -> FunctionCallExprV
    decreases e,
{
    FunctionCallExprV { name: e.name@, params: view_expr_seq(e.params@) }
}

pub open spec fn view_expr_seq(es: Seq<Expr>) -> Seq<ExprV>
    decreases es,
{
    if es.len() == 0 {
        Seq::empty()
    } else {
        view_expr_seq(es.drop_last()).push(view_expr(es.last()))
    }
}

pub open spec fn view_variable_expr(e: VariableExpr) -> VariableExprV {
    match e {
        VariableExpr::Variable(name) => VariableExprV::Variable(name@),
        VariableExpr::Constant(c) => VariableExprV::Constant(view_constant_value(c)),
    }
}

pub open spec fn view_constant_value(c: ConstantValue) -> ConstantValueV {
    match c {
        ConstantValue::Integer(v) => ConstantValueV::Integer(v),
        ConstantValue::Float(f) => ConstantValueV::Float(
            FloatConstV { negative: f.negative, whole: f.whole, fraction: f.fraction@ },
        ),
        ConstantValue::String(s) => ConstantValueV::String(s@),
    }
}

pub open spec fn view_function_def(d: FunctionDef) -> FunctionDefV
    decreases d,
{
    FunctionDefV {
        parameters: view_parameter_seq(d.parameters@),
        closure: Seq::new(d.closure@.len(), |i: int| (d.closure@[i].0@, d.closure@[i].1)),
        return_type: view_variable_type(d.return_type),
        expr: Box::new(view_expr(d.expr)),
    }
}

pub open spec fn view_parameter_seq(ps: Seq<(String, VariableType)>) -> Seq<
    (Seq<char>, VariableTypeV),
>
    decreases ps,
{
    if ps.len() == 0 {
        Seq::empty()
    } else {
        view_parameter_seq(ps.drop_last()).push((ps.last().0@, view_variable_type(ps.last().1)))
    }
}

pub open spec fn view_tuple_def(t: TupleDef) -> TupleDefV
    decreases t,
{
    TupleDefV { items: view_expr_seq(t.items@) }
}

impl View for Expr {
    type V = ExprV;

    open spec fn view(&self) -> ExprV {
        view_expr(*self)
    }
}

impl View for PartialExpr {
    type V = PartialExprV;

    open spec fn view(&self) -> PartialExprV {
        view_partial_expr(*self)
    }
}

impl View for IfExpr {
    type V = IfExprV;

    open spec fn view(&self) -> IfExprV {
        view_if_expr(*self)
    }
}

impl View for FunctionCallExpr {
    type V = FunctionCallExprV;

    open spec fn view(&self) -> FunctionCallExprV {
        view_function_call_expr(*self)
    }
}

impl View for VariableExpr {
    type V = VariableExprV;

    open spec fn view(&self) -> VariableExprV {
        view_variable_expr(*self)
    }
}

impl View for ConstantValue {
    type V = ConstantValueV;

    open spec fn view(&self) -> ConstantValueV {
        view_constant_value(*self)
    }
}

impl View for FunctionDef {
    type V = FunctionDefV;

    open spec fn view(&self) -> FunctionDefV {
        view_function_def(*self)
    }
}

impl View for TupleDef {
    type V = TupleDefV;

    open spec fn view(&self) -> TupleDefV {
        view_tuple_def(*self)
    }
}

pub proof fn lemma_view_partial_expr_seq(es: Seq<PartialExpr>)
    ensures
        view_partial_expr_seq(es).len() == es.len(),
        forall|i: int|
            0 <= i < es.len() ==> view_partial_expr_seq(es)[i] == view_partial_expr(es[i]),
    decreases es.len(),
{
    if es.len() > 0 {
        lemma_view_partial_expr_seq(es.drop_last());
    }
}

pub proof fn lemma_view_expr_seq(es: Seq<Expr>)
    ensures
        view_expr_seq(es).len() == es.len(),
        forall|i: int| 0 <= i < es.len() ==> view_expr_seq(es)[i] == view_expr(es[i]),
    decreases es.len(),
{
    if es.len() > 0 {
        lemma_view_expr_seq(es.drop_last());
    }
}

pub proof fn lemma_view_parameter_seq(ps: Seq<(String, VariableType)>)
    ensures
        view_parameter_seq(ps).len() == ps.len(),
        forall|i: int|
            0 <= i < ps.len() ==> view_parameter_seq(ps)[i] == (
            ps[i].0@,
            view_variable_type(ps[i].1),
            ),
    decreases ps.len(),
{
    if ps.len() > 0 {
        lemma_view_parameter_seq(ps.drop_last());
    }
}

// ------------------------------------------------------------------
// Modules
// ------------------------------------------------------------------

/// A binding's initializing expression and its declared or checked type.
pub struct VariableDef {
    pub value: Expr,
    pub v_type: VariableType,
}

/// A named binding of a module.
pub struct VariableName {
    pub name: String,
    pub variable: VariableDef,
}

/// Reserved shape for a named struct declaration; the parser does not
/// produce one yet.
pub struct StructDef {
    pub name: String,
    pub members: Vec<(String, TypeInfo)>,
}

/// An ordered sequence of named variable definitions, tagged by whether
/// it has been checked.
pub struct Module<S: AstState> {
    pub variables: Vec<VariableName>,
    pub structs: Vec<StructDef>,
    pub _state: core::marker::PhantomData<S>,
}

/// View of `VariableDef`.
pub struct VariableDefV {
    pub value: ExprV,
    pub v_type: VariableTypeV,
}

/// View of `VariableName`.
pub struct VariableNameV {
    pub name: Seq<char>,
    pub variable: VariableDefV,
}

/// View of `Module`.
pub struct ModuleV {
    pub variables: Seq<VariableNameV>,
}

pub open spec fn view_variable_name(v: VariableName) -> VariableNameV {
    VariableNameV {
        name: v.name@,
        variable: VariableDefV {
            value: view_expr(v.variable.value),
            v_type: view_variable_type(v.variable.v_type),
        },
    }
}

pub open spec fn view_variable_name_seq(vs: Seq<VariableName>) -> Seq<VariableNameV>
    decreases vs,
{
    if vs.len() == 0 {
        Seq::empty()
    } else {
        view_variable_name_seq(vs.drop_last()).push(view_variable_name(vs.last()))
    }
}

pub proof fn lemma_view_variable_name_seq(vs: Seq<VariableName>)
    ensures
        view_variable_name_seq(vs).len() == vs.len(),
        forall|i: int|
            0 <= i < vs.len() ==> view_variable_name_seq(vs)[i] == view_variable_name(vs[i]),
    decreases vs.len(),
{
    if vs.len() > 0 {
        lemma_view_variable_name_seq(vs.drop_last());
    }
}

impl View for VariableName {
    type V = VariableNameV;

    open spec fn view(&self) -> VariableNameV {
        view_variable_name(*self)
    }
}

impl<S: AstState> View for Module<S> {
    type V = ModuleV;

    open spec fn view(&self) -> ModuleV {
        ModuleV { variables: view_variable_name_seq(self.variables@) }
    }
}

// ------------------------------------------------------------------
// Well-formedness: what the parser always produces
// ------------------------------------------------------------------

/// A chain is well-formed when it has one more partial expression than
/// operators — so at least one — and its parts are well-formed too.
pub open spec fn expr_wf(e: ExprV) -> bool
    decreases e, 1int,
{
    e.exprs.len() == e.operands.len() + 1 && partials_wf(e.exprs)
}

/// Every partial expression of the sequence is well-formed.
pub open spec fn partials_wf(ps: Seq<PartialExprV>) -> bool
    decreases ps, 0int,
{
    if ps.len() == 0 {
        true
    } else {
        partials_wf(ps.drop_last()) && partial_wf(ps.last())
    }
}

/// The expressions a partial expression holds are well-formed.
pub open spec fn partial_wf(p: PartialExprV) -> bool
    decreases p, 1int,
{
    match p {
        PartialExprV::Block => true,
        PartialExprV::If(ie) => expr_wf(*ie.cond_expr) && expr_wf(*ie.main_branch) && match ie
            .else_branch {
            Some(eb) => expr_wf(*eb),
            None => true,
        },
        PartialExprV::FunctionCall(fc) => exprs_wf(fc.params),
        PartialExprV::Variable(_) => true,
        PartialExprV::Lambda(fd) => expr_wf(*fd.expr),
        PartialExprV::Tuple(td) => exprs_wf(td.items),
    }
}

/// Every expression of the sequence is well-formed.
pub open spec fn exprs_wf(es: Seq<ExprV>) -> bool
    decreases es, 0int,
{
    if es.len() == 0 {
        true
    } else {
        exprs_wf(es.drop_last()) && expr_wf(es.last())
    }
}

/// Every definition of the module holds a well-formed expression.
pub open spec fn module_wf(m: ModuleV) -> bool {
    forall|i: int| 0 <= i < m.variables.len() ==> expr_wf(#[trigger] m.variables[i].variable.value)
}

pub proof fn lemma_partials_wf(ps: Seq<PartialExprV>)
    ensures
        partials_wf(ps) <==> (forall|i: int| 0 <= i < ps.len() ==> partial_wf(#[trigger] ps[i])),
    decreases ps.len(),
{
    if ps.len() > 0 {
        lemma_partials_wf(ps.drop_last());
        if partials_wf(ps.drop_last()) && partial_wf(ps.last()) {
            assert forall|i: int| 0 <= i < ps.len() implies partial_wf(#[trigger] ps[i]) by {
                if i < ps.len() - 1 {
                    assert(ps[i] == ps.drop_last()[i]);
                }
            }
        }
        if (forall|i: int| 0 <= i < ps.len() ==> partial_wf(#[trigger] ps[i])) {
            assert forall|i: int| 0 <= i < ps.drop_last().len() implies partial_wf(
                #[trigger] ps.drop_last()[i],
            ) by {
                assert(ps.drop_last()[i] == ps[i]);
            }
        }
    }
}

pub proof fn lemma_exprs_wf(es: Seq<ExprV>)
    ensures
        exprs_wf(es) <==> (forall|i: int| 0 <= i < es.len() ==> expr_wf(#[trigger] es[i])),
    decreases es.len(),
{
    if es.len() > 0 {
        lemma_exprs_wf(es.drop_last());
        if exprs_wf(es.drop_last()) && expr_wf(es.last()) {
            assert forall|i: int| 0 <= i < es.len() implies expr_wf(#[trigger] es[i]) by {
                if i < es.len() - 1 {
                    assert(es[i] == es.drop_last()[i]);
                }
            }
        }
        if (forall|i: int| 0 <= i < es.len() ==> expr_wf(#[trigger] es[i])) {
            assert forall|i: int| 0 <= i < es.drop_last().len() implies expr_wf(
                #[trigger] es.drop_last()[i],
            ) by {
                assert(es.drop_last()[i] == es[i]);
            }
        }
    }
}

impl TypeInfo {
    /// The empty (unit) type: the empty tuple.
    pub fn empty() -> (r: Self)
        ensures
            r@ == TypeInfoV::Tuple(Seq::<TypeInfoV>::empty()),
    {
        let r = TypeInfo::Tuple(Vec::new());
        proof {
            assert(view_type_info_seq(Seq::<TypeInfo>::empty()) =~= Seq::<TypeInfoV>::empty());
        }
        r
    }
}

// ------------------------------------------------------------------
// Cloning (view-preserving)
// ------------------------------------------------------------------

#[verifier::loop_isolation(false)]
fn clone_type_info(t: &TypeInfo) -> (r: TypeInfo)
    ensures
        r@ == t@,
    decreases *t,
{
    match t {
        TypeInfo::Struct(name) => TypeInfo::Struct(name.clone()),
        TypeInfo::Tuple(items) => {
            let mut out: Vec<TypeInfo> = Vec::new();
            let mut i: usize = 0;
            while i < items.len()
                invariant
                    i <= items@.len(),
                    out@.len() == i,
                    forall|j: int| 0 <= j < i ==> out@[j]@ == items@[j]@,
                decreases items@.len() - i,
            {
                proof {
                    assert(decreases_to!(*t => *items));
                    assert(decreases_to!(*items => items@[i as int]));
                }
                out.push(clone_type_info(&items[i]));
                i += 1;
            }
            proof {
                lemma_view_type_info_seq(out@);
                lemma_view_type_info_seq(items@);
                assert(view_type_info_seq(out@) =~= view_type_info_seq(items@));
            }
            TypeInfo::Tuple(out)
        },
        TypeInfo::Function(f) => TypeInfo::Function(clone_func_type(f)),
        TypeInfo::Unknown => TypeInfo::Unknown,
    }
}

fn clone_func_type(f: &FuncType) -> (r: FuncType)
    ensures
        r@ == f@,
    decreases *f,
{
    let mut params: Vec<VariableType> = Vec::new();
    let mut i: usize = 0;
    while i < f.params.len()
        invariant
            i <= f.params@.len(),
            params@.len() == i,
            forall|j: int| 0 <= j < i ==> params@[j]@ == f.params@[j]@,
        decreases f.params@.len() - i,
    {
        params.push(clone_variable_type(&f.params[i]));
        i += 1;
    }
    proof {
        lemma_view_variable_type_seq(params@);
        lemma_view_variable_type_seq(f.params@);
        assert(view_variable_type_seq(params@) =~= view_variable_type_seq(f.params@));
    }
    FuncType { params, return_type: Box::new(clone_variable_type(&*f.return_type)) }
}

fn clone_variable_type(t: &VariableType) -> (r: VariableType)
    ensures
        r@ == t@,
    decreases *t,
{
    VariableType { mutable: t.mutable, info: clone_type_info(&t.info) }
}

impl Clone for TypeInfo {
    fn clone(&self) -> (r: Self)
        ensures
            r@ == self@,
    {
        clone_type_info(self)
    }
}

impl Clone for FuncType {
    fn clone(&self) -> (r: Self)
        ensures
            r@ == self@,
    {
        clone_func_type(self)
    }
}

impl Clone for VariableType {
    fn clone(&self) -> (r: Self)
        ensures
            r@ == self@,
    {
        clone_variable_type(self)
    }
}

fn clone_expr(e: &Expr) -> (r: Expr)
    ensures
        r@ == e@,
    decreases *e,
{
    let mut exprs: Vec<PartialExpr> = Vec::new();
    let mut i: usize = 0;
    while i < e.exprs.len()
        invariant
            i <= e.exprs@.len(),
            exprs@.len() == i,
            forall|j: int| 0 <= j < i ==> exprs@[j]@ == e.exprs@[j]@,
        decreases e.exprs@.len() - i,
    {
        exprs.push(clone_partial_expr(&e.exprs[i]));
        i += 1;
    }
    let mut operands: Vec<Operand> = Vec::new();
    let mut k: usize = 0;
    while k < e.operands.len()
        invariant
            k <= e.operands@.len(),
            operands@ == e.operands@.take(k as int),
        decreases e.operands@.len() - k,
    {
        operands.push(e.operands[k]);
        k += 1;
    }
    proof {
        lemma_view_partial_expr_seq(exprs@);
        lemma_view_partial_expr_seq(e.exprs@);
        assert(view_partial_expr_seq(exprs@) =~= view_partial_expr_seq(e.exprs@));
        assert(operands@ =~= e.operands@);
    }
    Expr { exprs, operands }
}

fn clone_partial_expr(p: &PartialExpr) -> (r: PartialExpr)
    ensures
        r@ == p@,
    decreases *p,
{
    match p {
        PartialExpr::Block(_) => PartialExpr::Block(BlockExpr {  }),
        PartialExpr::If(e) => PartialExpr::If(clone_if_expr(e)),
        PartialExpr::FunctionCall(e) => PartialExpr::FunctionCall(clone_function_call_expr(e)),
        PartialExpr::Variable(e) => PartialExpr::Variable(clone_variable_expr(e)),
        PartialExpr::Lambda(d) => PartialExpr::Lambda(clone_function_def(d)),
        PartialExpr::Tuple(t) => PartialExpr::Tuple(clone_tuple_def(t)),
    }
}

fn clone_if_expr(e: &IfExpr) -> (r: IfExpr)
    ensures
        r@ == e@,
    decreases *e,
{
    IfExpr {
        cond_expr: clone_expr(&e.cond_expr),
        main_branch: clone_expr(&e.main_branch),
        else_branch: match &e.else_branch {
            Some(eb) => Some(clone_expr(eb)),
            None => None,
        },
    }
}

fn clone_expr_vec(es: &Vec<Expr>) -> (r: Vec<Expr>)
    ensures
        view_expr_seq(r@) == view_expr_seq(es@),
    decreases *es,
{
    let mut out: Vec<Expr> = Vec::new();
    let mut i: usize = 0;
    while i < es.len()
        invariant
            i <= es@.len(),
            out@.len() == i,
            forall|j: int| 0 <= j < i ==> out@[j]@ == es@[j]@,
        decreases es@.len() - i,
    {
        out.push(clone_expr(&es[i]));
        i += 1;
    }
    proof {
        lemma_view_expr_seq(out@);
        lemma_view_expr_seq(es@);
        assert(view_expr_seq(out@) =~= view_expr_seq(es@));
    }
    out
}

fn clone_function_call_expr(e: &FunctionCallExpr) -> (r: FunctionCallExpr)
    ensures
        r@ == e@,
    decreases *e,
{
    FunctionCallExpr { name: e.name.clone(), params: clone_expr_vec(&e.params) }
}

fn clone_variable_expr(e: &VariableExpr) -> (r: VariableExpr)
    ensures
        r@ == e@,
{
    match e {
        VariableExpr::Variable(name) => VariableExpr::Variable(name.clone()),
        VariableExpr::Constant(c) => VariableExpr::Constant(clone_constant_value(c)),
    }
}

fn clone_constant_value(c: &ConstantValue) -> (r: ConstantValue)
    ensures
        r@ == c@,
{
    match c {
        ConstantValue::Integer(v) => ConstantValue::Integer(*v),
        ConstantValue::Float(f) => ConstantValue::Float(
            FloatConst { negative: f.negative, whole: f.whole, fraction: f.fraction.clone() },
        ),
        ConstantValue::String(s) => ConstantValue::String(s.clone()),
    }
}

fn clone_function_def(d: &FunctionDef) -> (r: FunctionDef)
    ensures
        r@ == d@,
    decreases *d,
{
    let mut parameters: Vec<(String, VariableType)> = Vec::new();
    let mut i: usize = 0;
    while i < d.parameters.len()
        invariant
            i <= d.parameters@.len(),
            parameters@.len() == i,
            forall|j: int|
                0 <= j < i ==> parameters@[j].0@ == d.parameters@[j].0@ && parameters@[j].1@
                    == d.parameters@[j].1@,
        decreases d.parameters@.len() - i,
    {
        let (name, vt) = &d.parameters[i];
        parameters.push((name.clone(), clone_variable_type(vt)));
        i += 1;
    }
    let mut closure: Vec<(String, bool)> = Vec::new();
    let mut k: usize = 0;
    while k < d.closure.len()
        invariant
            k <= d.closure@.len(),
            closure@.len() == k,
            forall|j: int|
                0 <= j < k ==> closure@[j].0@ == d.closure@[j].0@ && closure@[j].1
                    == d.closure@[j].1,
        decreases d.closure@.len() - k,
    {
        let (name, m) = &d.closure[k];
        closure.push((name.clone(), *m));
        k += 1;
    }
    proof {
        lemma_view_parameter_seq(parameters@);
        lemma_view_parameter_seq(d.parameters@);
        assert(view_parameter_seq(parameters@) =~= view_parameter_seq(d.parameters@));
        assert(Seq::new(closure@.len(), |i: int| (closure@[i].0@, closure@[i].1)) =~= Seq::new(
            d.closure@.len(),
            |i: int| (d.closure@[i].0@, d.closure@[i].1),
        ));
    }
    FunctionDef {
        parameters,
        closure,
        return_type: clone_variable_type(&d.return_type),
        expr: clone_expr(&d.expr),
    }
}

fn clone_tuple_def(t: &TupleDef) -> (r: TupleDef)
    ensures
        r@ == t@,
    decreases *t,
{
    TupleDef { items: clone_expr_vec(&t.items) }
}

impl Clone for Expr {
    fn clone(&self) -> (r: Self)
        ensures
            r@ == self@,
    {
        clone_expr(self)
    }
}

impl Clone for PartialExpr {
    fn clone(&self) -> (r: Self)
        ensures
            r@ == self@,
    {
        clone_partial_expr(self)
    }
}

impl Clone for IfExpr {
    fn clone(&self) -> (r: Self)
        ensures
            r@ == self@,
    {
        clone_if_expr(self)
    }
}

impl Clone for FunctionCallExpr {
    fn clone(&self) -> (r: Self)
        ensures
            r@ == self@,
    {
        clone_function_call_expr(self)
    }
}

impl Clone for VariableExpr {
    fn clone(&self) -> (r: Self)
        ensures
            r@ == self@,
    {
        clone_variable_expr(self)
    }
}

impl Clone for ConstantValue {
    fn clone(&self) -> (r: Self)
        ensures
            r@ == self@,
    {
        clone_constant_value(self)
    }
}

impl Clone for FunctionDef {
    fn clone(&self) -> (r: Self)
        ensures
            r@ == self@,
    {
        clone_function_def(self)
    }
}

impl Clone for TupleDef {
    fn clone(&self) -> (r: Self)
        ensures
            r@ == self@,
    {
        clone_tuple_def(self)
    }
}

// ------------------------------------------------------------------
// Structural type equality (names compare as strings)
// ------------------------------------------------------------------

/// Whether two type shapes are structurally equal; struct names compare
/// as strings and mutability plays no part.
#[verifier::loop_isolation(false)]
pub fn type_info_eq(a: &TypeInfo, b: &TypeInfo) -> (r: bool)
    ensures
        r == (a@ == b@),
    decreases *a,
{
    match (a, b) {
        (TypeInfo::Struct(n1), TypeInfo::Struct(n2)) => *n1 == *n2,
        (TypeInfo::Tuple(v1), TypeInfo::Tuple(v2)) => {
            proof {
                lemma_view_type_info_seq(v1@);
                lemma_view_type_info_seq(v2@);
            }
            if v1.len() != v2.len() {
                proof {
                    assert(view_type_info_seq(v1@).len() != view_type_info_seq(v2@).len());
                }
                false
            } else {
                let mut i: usize = 0;
                let mut same = true;
                while i < v1.len()
                    invariant
                        i <= v1@.len(),
                        v1@.len() == v2@.len(),
                        same == (forall|j: int| 0 <= j < i ==> v1@[j]@ == v2@[j]@),
                    decreases v1@.len() - i,
                {
                    proof {
                        assert(decreases_to!(*a => *v1));
                        assert(decreases_to!(*v1 => v1@[i as int]));
                    }
                    if !type_info_eq(&v1[i], &v2[i]) {
                        same = false;
                    }
                    i += 1;
                }
                proof {
                    lemma_view_type_info_seq(v1@);
                    lemma_view_type_info_seq(v2@);
                    if same {
                        assert(view_type_info_seq(v1@) =~= view_type_info_seq(v2@));
                    } else {
                        assert(view_type_info_seq(v1@) != view_type_info_seq(v2@)) by {
                            let j = choose|j: int|
                                0 <= j < v1@.len() && view_type_info(v1@[j]) != view_type_info(
                                    v2@[j],
                                );
                            assert(view_type_info_seq(v1@)[j] != view_type_info_seq(v2@)[j]);
                        }
                    }
                }
                same
            }
        },
        (TypeInfo::Function(f1), TypeInfo::Function(f2)) => func_type_eq(f1, f2),
        (TypeInfo::Unknown, TypeInfo::Unknown) => true,
        _ => false,
    }
}

/// Whether two function types agree on every parameter type (mutability
/// included) and on the return type.
pub fn func_type_eq(a: &FuncType, b: &FuncType) -> (r: bool)
    ensures
        r == (a@ == b@),
    decreases *a,
{
    proof {
        lemma_view_variable_type_seq(a.params@);
        lemma_view_variable_type_seq(b.params@);
    }
    if a.params.len() != b.params.len() {
        proof {
            assert(view_variable_type_seq(a.params@).len() != view_variable_type_seq(
                b.params@,
            ).len());
        }
        return false;
    }
    let mut i: usize = 0;
    let mut same = true;
    while i < a.params.len()
        invariant
            i <= a.params@.len(),
            a.params@.len() == b.params@.len(),
            same == (forall|j: int| 0 <= j < i ==> a.params@[j]@ == b.params@[j]@),
        decreases a.params@.len() - i,
    {
        if !variable_type_eq(&a.params[i], &b.params[i]) {
            same = false;
        }
        i += 1;
    }
    proof {
        lemma_view_variable_type_seq(a.params@);
        lemma_view_variable_type_seq(b.params@);
        if same {
            assert(view_variable_type_seq(a.params@) =~= view_variable_type_seq(b.params@));
        } else {
            assert(view_variable_type_seq(a.params@) != view_variable_type_seq(b.params@)) by {
                let j = choose|j: int|
                    0 <= j < a.params@.len() && view_variable_type(a.params@[j])
                        != view_variable_type(b.params@[j]);
                assert(view_variable_type_seq(a.params@)[j] != view_variable_type_seq(
                    b.params@,
                )[j]);
            }
        }
    }
    let ret_same = variable_type_eq(&*a.return_type, &*b.return_type);
    same && ret_same
}

/// Whether two binding types agree on both mutability and shape.
pub fn variable_type_eq(a: &VariableType, b: &VariableType) -> (r: bool)
    ensures
        r == (a@ == b@),
    decreases *a,
{
    let r = a.mutable == b.mutable && type_info_eq(&a.info, &b.info);
    r
}

} // verus!
