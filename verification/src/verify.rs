//! The type checker: walks the tree bottom-up, returns the type of every
//! expression, reconciles inferred types with declared ones, and turns an
//! unchecked module into a checked one. The rules are stated once as spec
//! functions (`spec_check_*`) and the executable checker is proved to
//! follow them exactly, error messages included.

use vstd::prelude::*;

use crate::ast::Expr;
use crate::ast::ExprV;
use crate::ast::FuncType;
use crate::ast::FuncTypeV;
use crate::ast::FunctionCallExpr;
use crate::ast::FunctionCallExprV;
use crate::ast::FunctionDef;
use crate::ast::FunctionDefV;
use crate::ast::IfExpr;
use crate::ast::IfExprV;
use crate::ast::Module;
use crate::ast::ModuleV;
use crate::ast::Operand;
use crate::ast::PartialExpr;
use crate::ast::PartialExprV;
use crate::ast::TupleDef;
use crate::ast::TupleDefV;
use crate::ast::TypeInfo;
use crate::ast::TypeInfoV;
use crate::ast::Unverified;
use crate::ast::VariableDef;
use crate::ast::VariableDefV;
use crate::ast::VariableExpr;
use crate::ast::VariableExprV;
use crate::ast::VariableName;
use crate::ast::VariableNameV;
use crate::ast::VariableType;
use crate::ast::VariableTypeV;
use crate::ast::Verified;
use crate::ast::ConstantValue;
use crate::ast::ConstantValueV;
use crate::ast::lemma_view_expr_seq;
use crate::ast::lemma_view_parameter_seq;
use crate::ast::lemma_view_partial_expr_seq;
use crate::ast::lemma_view_variable_name_seq;
use crate::ast::lemma_view_variable_type_seq;
use crate::ast::type_info_eq;
use crate::ast::view_variable_name;
use crate::displays::operand_str;
use crate::displays::operand_text;
use crate::displays::type_info_str;
use crate::displays::type_info_text;
use crate::displays::variable_type_str;
use crate::displays::variable_type_text;
use crate::ast::BlockExpr;
use crate::text::nat_text;
use crate::text::str_eq;
use crate::variable_mng::EnvV;
use crate::variable_mng::LayerV;
use crate::variable_mng::VariableManager;
use crate::variable_mng::lookup_env;

verus! {

broadcast use vstd::std_specs::vec::group_vec_axioms, vstd::seq::group_seq_axioms;

// ------------------------------------------------------------------
// What can go wrong, and the exact message each failure carries
// ------------------------------------------------------------------

/// The ways checking can fail, each holding what the message reports.
pub enum CheckErrV {
    Unimplemented,
    IncorrectMutability,
    WrongType { expected: TypeInfoV, found: TypeInfoV },
    CannotFindVariable { name: Seq<char> },
    NotDefinedOperand { lhs: VariableTypeV, op: Operand, rhs: VariableTypeV },
    WrongParamCount { expected_count: int, found_count: int },
    NotFunction { name: Seq<char>, found: VariableTypeV },
    IfNotEmpty { found: VariableTypeV },
    IfBranchMismatch { main: VariableTypeV, els: VariableTypeV },
    CondNotBool { found: VariableTypeV },
}

/// The message text of each checking failure.
pub open spec fn check_err_text(e: CheckErrV) -> Seq<char> {
    match e {
        CheckErrV::Unimplemented => "Unimplemented"@,
        CheckErrV::IncorrectMutability => "Incorrect mutability."@,
        CheckErrV::WrongType { expected, found } => "Wrong type. expected:"@.add(
            type_info_text(expected),
        ).add(", found:"@).add(type_info_text(found)),
        CheckErrV::CannotFindVariable { name } => "Cannot find variable: "@.add(name),
        CheckErrV::NotDefinedOperand { lhs, op, rhs } => "not defined: "@.add(
            variable_type_text(lhs),
        ).add(" "@).add(operand_text(op)).add(" "@).add(variable_type_text(rhs)),
        CheckErrV::WrongParamCount { expected_count, found_count } => "Wrong number of params. expected:"@.add(
            nat_text(expected_count),
        ).add(", found:"@).add(nat_text(found_count)),
        CheckErrV::NotFunction { name, found } => "Variable "@.add(name).add(
            " is not function: found type:"@,
        ).add(variable_type_text(found)),
        CheckErrV::IfNotEmpty { found } => "If without else, must return empty. found:"@.add(
            variable_type_text(found),
        ),
        CheckErrV::IfBranchMismatch { main, els } => "Both if branches must return same type. found: main:"@.add(
            variable_type_text(main),
        ).add(", else:"@).add(variable_type_text(els)),
        CheckErrV::CondNotBool { found } => "Conditional expression must return Bool. found:"@.add(
            variable_type_text(found),
        ),
    }
}

// ------------------------------------------------------------------
// The checking rules, as spec functions
// ------------------------------------------------------------------

/// The type of a literal constant: mutably usable, named by its tag.
pub open spec fn spec_constant_type(c: ConstantValueV) -> TypeInfoV {
    match c {
        ConstantValueV::Integer(_) => TypeInfoV::Struct("Int"@),
        ConstantValueV::Float(_) => TypeInfoV::Struct("Float"@),
        ConstantValueV::String(_) => TypeInfoV::Struct("String"@),
    }
}

/// The empty (unit) type: the empty tuple.
pub open spec fn empty_type() -> TypeInfoV {
    TypeInfoV::Tuple(Seq::empty())
}

/// The type an `if` condition must have.
pub open spec fn condition_type() -> TypeInfoV {
    TypeInfoV::Struct("Bool"@)
}

/// Whether a binding of this type satisfies a request for the given
/// mutability: a mutable value may be consumed as non-mutable, never the
/// other way round.
pub open spec fn spec_check_mutability(t: VariableTypeV, expected_mutability: bool) -> bool {
    t.mutable || !expected_mutability
}

/// Reconciles an inferred type with a requested one. An unknown request
/// accepts any shape; otherwise the shapes must be structurally equal; in
/// both cases the request's mutability must be satisfiable and is what
/// the result carries.
pub open spec fn spec_check_expected(found: VariableTypeV, expected: VariableTypeV) -> Result<
    VariableTypeV,
    CheckErrV,
> {
    if expected.info is Unknown {
        if spec_check_mutability(found, expected.mutable) {
            Ok(VariableTypeV { mutable: expected.mutable, info: found.info })
        } else {
            Err(CheckErrV::IncorrectMutability)
        }
    } else if expected.info != found.info {
        Err(CheckErrV::WrongType { expected: expected.info, found: found.info })
    } else if spec_check_mutability(found, expected.mutable) {
        Ok(VariableTypeV { mutable: expected.mutable, info: found.info })
    } else {
        Err(CheckErrV::IncorrectMutability)
    }
}

/// The result type of applying an operator: `+` and `-` need two equal
/// numeric structs and return that struct; `<` needs the same and returns
/// `Bool`; anything else is an error. Results are mutably usable.
pub open spec fn spec_check_valid_operand(
    lhs: VariableTypeV,
    op: Operand,
    rhs: VariableTypeV,
) -> Result<VariableTypeV, CheckErrV> {
    match (lhs.info, rhs.info) {
        (TypeInfoV::Struct(l), TypeInfoV::Struct(r)) => {
            if l == r && (l == "Int"@ || l == "Float"@) {
                match op {
                    Operand::Plus => Ok(VariableTypeV { mutable: true, info: lhs.info }),
                    Operand::Minus => Ok(VariableTypeV { mutable: true, info: lhs.info }),
                    Operand::Lt => Ok(VariableTypeV { mutable: true, info: condition_type() }),
                }
            } else {
                Err(CheckErrV::NotDefinedOperand { lhs, op, rhs })
            }
        },
        _ => Err(CheckErrV::NotDefinedOperand { lhs, op, rhs }),
    }
}

/// Whether an inferred type equals the expected one, where an absent
/// expectation accepts anything.
pub open spec fn spec_is_correct_type(expected: Option<TypeInfoV>, correct: TypeInfoV) -> Result<
    TypeInfoV,
    CheckErrV,
> {
    match expected {
        None => Ok(correct),
        Some(et) => if et == correct {
            Ok(correct)
        } else {
            Err(CheckErrV::WrongType { expected: et, found: correct })
        },
    }
}

/// The function type a lambda declares: its parameter types in order and
/// its declared return type.
pub open spec fn spec_func_type_of(fd: FunctionDefV) -> FuncTypeV {
    FuncTypeV {
        params: Seq::new(fd.parameters.len(), |i: int| fd.parameters[i].1),
        return_type: Box::new(fd.return_type),
    }
}

/// Binds a lambda's declared captures in a fresh scope: a missing name
/// and a binding that cannot satisfy the requested mutability are both
/// errors.
pub open spec fn spec_bind_closure(
    closure: Seq<(Seq<char>, bool)>,
    env: EnvV,
    i: nat,
    acc: LayerV,
) -> Result<LayerV, CheckErrV>
    decreases closure.len() - i,
{
    if i >= closure.len() {
        Ok(acc)
    } else {
        let (name, mutable) = closure[i as int];
        match lookup_env(env, name) {
            None => Err(CheckErrV::CannotFindVariable { name }),
            Some(vt) => {
                if spec_check_mutability(vt, mutable) {
                    spec_bind_closure(
                        closure,
                        env,
                        i + 1,
                        acc.push((name, VariableTypeV { mutable, info: vt.info })),
                    )
                } else {
                    Err(CheckErrV::IncorrectMutability)
                }
            },
        }
    }
}

/// The type of an operator chain: the first operand's type folded through
/// the operators, left to right.
pub open spec fn spec_check_expr(e: ExprV, env: EnvV) -> Result<VariableTypeV, CheckErrV>
    decreases e, e.exprs.len() + 2,
{
    if e.exprs.len() == 0 {
        arbitrary()
    } else {
        match spec_check_partial(e.exprs[0], env) {
            Err(er) => Err(er),
            Ok(t0) => spec_check_chain(e, env, 1, t0),
        }
    }
}

/// Folds the remaining `(operator, operand)` pairs of a chain onto the
/// type accumulated so far.
pub open spec fn spec_check_chain(e: ExprV, env: EnvV, i: nat, acc: VariableTypeV) -> Result<
    VariableTypeV,
    CheckErrV,
>
    decreases e, e.exprs.len() - i + 1,
{
    if i >= e.exprs.len() {
        Ok(acc)
    } else {
        match spec_check_partial(e.exprs[i as int], env) {
            Err(er) => Err(er),
            Ok(t) => match spec_check_valid_operand(acc, e.operands[i - 1], t) {
                Err(er) => Err(er),
                Ok(t2) => spec_check_chain(e, env, i + 1, t2),
            },
        }
    }
}

/// The type of one partial expression.
pub open spec fn spec_check_partial(p: PartialExprV, env: EnvV) -> Result<
    VariableTypeV,
    CheckErrV,
>
    decreases p, 0int,
{
    match p {
        PartialExprV::Block => Err(CheckErrV::Unimplemented),
        PartialExprV::If(ie) => spec_check_if(ie, env),
        PartialExprV::FunctionCall(fc) => spec_check_call(fc, env),
        PartialExprV::Variable(ve) => spec_check_variable(ve, env),
        PartialExprV::Lambda(fd) => spec_check_lambda(fd, env),
        PartialExprV::Tuple(td) => spec_check_tuple(td, env),
    }
}

/// A name yields its innermost binding; a constant yields its tag's type.
pub open spec fn spec_check_variable(ve: VariableExprV, env: EnvV) -> Result<
    VariableTypeV,
    CheckErrV,
> {
    match ve {
        VariableExprV::Variable(name) => match lookup_env(env, name) {
            Some(t) => Ok(t),
            None => Err(CheckErrV::CannotFindVariable { name }),
        },
        VariableExprV::Constant(c) => Ok(
            VariableTypeV { mutable: true, info: spec_constant_type(c) },
        ),
    }
}

/// The condition must be `Bool`. Without an `else`, the branch must have
/// the empty type; with one, the branches must agree on shape and the
/// result is mutable only when both branches are.
pub open spec fn spec_check_if(ie: IfExprV, env: EnvV) -> Result<VariableTypeV, CheckErrV>
    decreases ie, 0int,
{
    match spec_check_expr(*ie.cond_expr, env) {
        Err(er) => Err(er),
        Ok(cond) => {
            if cond.info == condition_type() {
                match spec_check_expr(*ie.main_branch, env) {
                    Err(er) => Err(er),
                    Ok(bt) => match ie.else_branch {
                        None => {
                            if bt.info != empty_type() {
                                Err(CheckErrV::IfNotEmpty { found: bt })
                            } else {
                                Ok(bt)
                            }
                        },
                        Some(eb) => match spec_check_expr(*eb, env) {
                            Err(er) => Err(er),
                            Ok(et) => {
                                if et.info != bt.info {
                                    Err(CheckErrV::IfBranchMismatch { main: bt, els: et })
                                } else {
                                    Ok(
                                        VariableTypeV {
                                            mutable: et.mutable && bt.mutable,
                                            info: bt.info,
                                        },
                                    )
                                }
                            },
                        },
                    },
                }
            } else {
                Err(CheckErrV::CondNotBool { found: cond })
            }
        },
    }
}

/// The callee must be bound to a function type with as many parameters as
/// there are arguments; each argument must reconcile with its parameter's
/// declared type; the call has the declared return type.
pub open spec fn spec_check_call(fc: FunctionCallExprV, env: EnvV) -> Result<
    VariableTypeV,
    CheckErrV,
>
    decreases fc, 1int,
{
    match lookup_env(env, fc.name) {
        None => Err(CheckErrV::CannotFindVariable { name: fc.name }),
        Some(vt) => match vt.info {
            TypeInfoV::Function(ft) => {
                if ft.params.len() != fc.params.len() {
                    Err(
                        CheckErrV::WrongParamCount {
                            expected_count: ft.params.len() as int,
                            found_count: fc.params.len() as int,
                        },
                    )
                } else {
                    match spec_check_args(fc.params, ft.params, env, 0) {
                        Err(er) => Err(er),
                        Ok(_) => Ok(*ft.return_type),
                    }
                }
            },
            _ => Err(CheckErrV::NotFunction { name: fc.name, found: vt }),
        },
    }
}

/// Checks each argument against its parameter's declared type, in order.
pub open spec fn spec_check_args(
    args: Seq<ExprV>,
    ptypes: Seq<VariableTypeV>,
    env: EnvV,
    i: nat,
) -> Result<bool, CheckErrV>
    decreases args, args.len() - i,
{
    if i >= args.len() {
        Ok(true)
    } else {
        match spec_check_expr(args[i as int], env) {
            Err(er) => Err(er),
            Ok(t) => match spec_check_expected(t, ptypes[i as int]) {
                Err(er) => Err(er),
                Ok(_) => spec_check_args(args, ptypes, env, i + 1),
            },
        }
    }
}

/// A lambda checks its body in a fresh scope holding its captures, its
/// parameters, and `self_fn` bound to its own function type; the body
/// must reconcile with the declared return type. The lambda's own type is
/// its function type, mutably usable.
pub open spec fn spec_check_lambda(fd: FunctionDefV, env: EnvV) -> Result<
    VariableTypeV,
    CheckErrV,
>
    decreases fd, 1int,
{
    match spec_bind_closure(fd.closure, env, 0, Seq::empty()) {
        Err(er) => Err(er),
        Ok(layer) => {
            let layer2 = layer.add(fd.parameters).push(
                (
                    "self_fn"@,
                    VariableTypeV {
                        mutable: false,
                        info: TypeInfoV::Function(spec_func_type_of(fd)),
                    },
                ),
            );
            match spec_check_expr(*fd.expr, seq![layer2]) {
                Err(er) => Err(er),
                Ok(ret) => match spec_check_expected(ret, fd.return_type) {
                    Err(er) => Err(er),
                    Ok(_) => Ok(
                        VariableTypeV {
                            mutable: true,
                            info: TypeInfoV::Function(spec_func_type_of(fd)),
                        },
                    ),
                },
            }
        },
    }
}

/// A tuple's type is the tuple of its items' shapes, not mutably usable.
pub open spec fn spec_check_tuple(td: TupleDefV, env: EnvV) -> Result<VariableTypeV, CheckErrV>
    decreases td, 1int,
{
    match spec_check_items(td.items, env, 0, Seq::empty()) {
        Err(er) => Err(er),
        Ok(infos) => Ok(VariableTypeV { mutable: false, info: TypeInfoV::Tuple(infos) }),
    }
}

/// Checks each tuple item and collects their shapes, in order.
pub open spec fn spec_check_items(
    items: Seq<ExprV>,
    env: EnvV,
    i: nat,
    acc: Seq<TypeInfoV>,
) -> Result<Seq<TypeInfoV>, CheckErrV>
    decreases items, items.len() - i,
{
    if i >= items.len() {
        Ok(acc)
    } else {
        match spec_check_expr(items[i as int], env) {
            Err(er) => Err(er),
            Ok(t) => spec_check_items(items, env, i + 1, acc.push(t.info)),
        }
    }
}

/// Checks a module's definitions in source order: each definition's
/// inferred type is reconciled with its declared one, written back, and
/// bound in the single outer scope for later definitions to see.
pub open spec fn spec_verify_vars(
    vars: Seq<VariableNameV>,
    i: nat,
    env: EnvV,
    out: Seq<VariableNameV>,
) -> Result<Seq<VariableNameV>, CheckErrV>
    decreases vars.len() - i,
{
    if i >= vars.len() {
        Ok(out)
    } else {
        let v = vars[i as int];
        match spec_check_expr(v.variable.value, env) {
            Err(er) => Err(er),
            Ok(found) => match spec_check_expected(found, v.variable.v_type) {
                Err(er) => Err(er),
                Ok(checked) => spec_verify_vars(
                    vars,
                    i + 1,
                    env.update(env.len() - 1, env.last().push((v.name, checked))),
                    out.push(
                        VariableNameV {
                            name: v.name,
                            variable: VariableDefV { value: v.variable.value, v_type: checked },
                        },
                    ),
                ),
            },
        }
    }
}

/// What verifying a module yields: the same variables in order, each with
/// its reconciled type, or the first failure.
pub open spec fn spec_verify_module(m: ModuleV) -> Result<ModuleV, CheckErrV> {
    match spec_verify_vars(m.variables, 0, seq![Seq::empty()], Seq::empty()) {
        Ok(vars) => Ok(ModuleV { variables: vars }),
        Err(er) => Err(er),
    }
}

// ------------------------------------------------------------------
// The executable checker
// ------------------------------------------------------------------

fn msg_cannot_find(name: &str) -> (r: String)
    ensures
        r@ == check_err_text(CheckErrV::CannotFindVariable { name: name@ }),
{
    "Cannot find variable: ".to_owned().concat(name)
}

fn msg_not_defined_operand(lhs: &VariableType, op: &Operand, rhs: &VariableType) -> (r: String)
    ensures
        r@ == check_err_text(CheckErrV::NotDefinedOperand { lhs: lhs@, op: *op, rhs: rhs@ }),
{
    "not defined: ".to_owned().concat(variable_type_str(lhs).as_str()).concat(" ").concat(
        operand_str(op).as_str(),
    ).concat(" ").concat(variable_type_str(rhs).as_str())
}

fn msg_wrong_type(expected: &TypeInfo, found: &TypeInfo) -> (r: String)
    ensures
        r@ == check_err_text(CheckErrV::WrongType { expected: expected@, found: found@ }),
{
    "Wrong type. expected:".to_owned().concat(type_info_str(expected).as_str()).concat(
        ", found:",
    ).concat(type_info_str(found).as_str())
}

impl VariableType {
    /// Whether this binding satisfies a request for the given mutability:
    /// a mutable value may be consumed as non-mutable, never the other way
    /// round.
    pub fn check_mutability(&self, expected_mutability: bool) -> (r: bool)
        ensures
            r == spec_check_mutability(self@, expected_mutability),
    {
        self.mutable || !expected_mutability
    }

    /// Reconciles this inferred type with the requested one; see
    /// `spec_check_expected` for the rule, which this follows exactly,
    /// message included.
    pub fn check_expected(self, expected: &VariableType) -> (r: Result<VariableType, String>)
        ensures
            spec_check_expected(self@, expected@) matches Ok(t) ==> r matches Ok(rt) && rt@ == t,
            spec_check_expected(self@, expected@) matches Err(e) ==> r matches Err(m) && m@
                == check_err_text(e),
    {
        let is_unknown = matches!(&expected.info, TypeInfo::Unknown);
        if is_unknown {
            if self.check_mutability(expected.mutable) {
                Ok(VariableType { mutable: expected.mutable, info: self.info })
            } else {
                Err("Incorrect mutability.".to_owned())
            }
        } else if !type_info_eq(&expected.info, &self.info) {
            Err(msg_wrong_type(&expected.info, &self.info))
        } else if self.check_mutability(expected.mutable) {
            Ok(VariableType { mutable: expected.mutable, info: self.info })
        } else {
            Err("Incorrect mutability.".to_owned())
        }
    }
}

/// The result type of joining two checked operands with an operator; see
/// `spec_check_valid_operand` for the rule, which this follows exactly.
pub fn check_valid_operand(lhs: &VariableType, op: &Operand, rhs: &VariableType) -> (r: Result<
    VariableType,
    String,
>)
    ensures
        spec_check_valid_operand(lhs@, *op, rhs@) matches Ok(t) ==> r matches Ok(rt) && rt@ == t,
        spec_check_valid_operand(lhs@, *op, rhs@) matches Err(e) ==> r matches Err(m) && m@
            == check_err_text(e),
{
    match (&lhs.info, &rhs.info) {
        (TypeInfo::Struct(l), TypeInfo::Struct(r)) => {
            if *l == *r && (str_eq(l.as_str(), "Int") || str_eq(l.as_str(), "Float")) {
                match op {
                    Operand::Plus => Ok(VariableType { mutable: true, info: lhs.info.clone() }),
                    Operand::Minus => Ok(VariableType { mutable: true, info: lhs.info.clone() }),
                    Operand::Lt => Ok(
                        VariableType { mutable: true, info: TypeInfo::Struct("Bool".to_owned()) },
                    ),
                }
            } else {
                Err(msg_not_defined_operand(lhs, op, rhs))
            }
        },
        _ => Err(msg_not_defined_operand(lhs, op, rhs)),
    }
}

/// Whether an inferred type equals the expected one, where an absent
/// expectation accepts anything; see `spec_is_correct_type`.
pub fn is_correct_type(expected: &Option<TypeInfo>, correct: TypeInfo) -> (r: Result<
    TypeInfo,
    String,
>)
    ensures
        ({
            let ev = match expected {
                Some(et) => Some(et@),
                None => None,
            };
            &&& spec_is_correct_type(ev, correct@) matches Ok(t) ==> r matches Ok(rt) && rt@ == t
            &&& spec_is_correct_type(ev, correct@) matches Err(e) ==> r matches Err(m) && m@
                == check_err_text(e)
        }),
{
    match expected {
        None => Ok(correct),
        Some(et) => {
            if type_info_eq(et, &correct) {
                Ok(correct)
            } else {
                Err(msg_wrong_type(et, &correct))
            }
        },
    }
}

impl FuncType {
    /// The function type a lambda declares: its parameter types in order
    /// and its declared return type.
    pub fn from_def(fd: &FunctionDef) -> (r: FuncType)
        ensures
            r@ == TypeInfoV::Function(spec_func_type_of(fd@))->Function_0,
            r@ == spec_func_type_of(fd@),
    {
        let mut params: Vec<VariableType> = Vec::new();
        let mut i: usize = 0;
        while i < fd.parameters.len()
            invariant
                i <= fd.parameters@.len(),
                params@.len() == i,
                forall|j: int| 0 <= j < i ==> params@[j]@ == fd.parameters@[j].1@,
            decreases fd.parameters@.len() - i,
        {
            params.push(fd.parameters[i].1.clone());
            i += 1;
        }
        let r = FuncType {
            params,
            return_type: Box::new(fd.return_type.clone()),
        };
        proof {
            lemma_view_variable_type_seq(params@);
            lemma_view_parameter_seq(fd.parameters@);
            assert(crate::ast::view_variable_type_seq(params@) =~= spec_func_type_of(fd@).params);
        }
        r
    }
}

impl BlockExpr {
    fn check_type(&self, _variable_mng: &VariableManager) -> (r: Result<VariableType, String>)
        ensures
            r matches Err(m) && m@ == check_err_text(CheckErrV::Unimplemented),
    {
        Err("Unimplemented".to_owned())
    }
}

impl Expr {
    /// The type of this operator chain in the given scopes; follows
    /// `spec_check_expr` exactly, message included.
    #[verifier::loop_isolation(false)]
    pub fn check_type(&self, variable_mng: &VariableManager) -> (r: Result<VariableType, String>)
        requires
            crate::ast::expr_wf(self@),
        ensures
            spec_check_expr(self@, variable_mng@) matches Ok(t) ==> r matches Ok(rt) && rt@ == t,
            spec_check_expr(self@, variable_mng@) matches Err(e) ==> r matches Err(m) && m@
                == check_err_text(e),
        decreases *self,
    {
        let ghost env = variable_mng@;
        proof {
            lemma_view_partial_expr_seq(self.exprs@);
            crate::ast::lemma_partials_wf(self@.exprs);
        }
        let first = &self.exprs[0];
        proof {
            assert(decreases_to!(*self => self.exprs@[0]));
        }
        let mut acc = match first.check_type(variable_mng) {
            Ok(t) => t,
            Err(m) => {
                return Err(m);
            },
        };
        let mut i: usize = 1;
        while i < self.exprs.len()
            invariant
                1 <= i <= self.exprs@.len(),
                spec_check_chain(self@, env, i as nat, acc@) == spec_check_expr(self@, env),
            decreases self.exprs@.len() - i,
        {
            proof {
                assert(decreases_to!(*self => self.exprs@[i as int]));
            }
            let t = match self.exprs[i].check_type(variable_mng) {
                Ok(t) => t,
                Err(m) => {
                    return Err(m);
                },
            };
            let t2 = match check_valid_operand(&acc, &self.operands[i - 1], &t) {
                Ok(t2) => t2,
                Err(m) => {
                    return Err(m);
                },
            };
            acc = t2;
            i += 1;
        }
        Ok(acc)
    }
}

impl PartialExpr {
    fn check_type(&self, variable_mng: &VariableManager) -> (r: Result<VariableType, String>)
        requires
            crate::ast::partial_wf(self@),
        ensures
            spec_check_partial(self@, variable_mng@) matches Ok(t) ==> r matches Ok(rt) && rt@
                == t,
            spec_check_partial(self@, variable_mng@) matches Err(e) ==> r matches Err(m) && m@
                == check_err_text(e),
        decreases *self,
    {
        match self {
            PartialExpr::Block(e) => e.check_type(variable_mng),
            PartialExpr::If(e) => e.check_type(variable_mng),
            PartialExpr::Variable(e) => e.check_type(variable_mng),
            PartialExpr::FunctionCall(e) => e.check_type(variable_mng),
            PartialExpr::Lambda(e) => e.check_type(variable_mng),
            PartialExpr::Tuple(e) => e.check_type(variable_mng),
        }
    }
}

impl VariableExpr {
    fn check_type(&self, variable_mng: &VariableManager) -> (r: Result<VariableType, String>)
        ensures
            spec_check_variable(self@, variable_mng@) matches Ok(t) ==> r matches Ok(rt) && rt@
                == t,
            spec_check_variable(self@, variable_mng@) matches Err(e) ==> r matches Err(m) && m@
                == check_err_text(e),
    {
        match self {
            VariableExpr::Variable(name) => match variable_mng.find_variable(name.as_str()) {
                Some(t) => Ok(t),
                None => Err(msg_cannot_find(name.as_str())),
            },
            VariableExpr::Constant(cv) => {
                let tag = match cv {
                    ConstantValue::Integer(_) => "Int",
                    ConstantValue::Float(_) => "Float",
                    ConstantValue::String(_) => "String",
                };
                Ok(VariableType { mutable: true, info: TypeInfo::Struct(tag.to_owned()) })
            },
        }
    }
}

impl IfExpr {
    #[verifier::loop_isolation(false)]
    fn check_type(&self, variable_mng: &VariableManager) -> (r: Result<VariableType, String>)
        requires
            crate::ast::expr_wf(self.cond_expr@),
            crate::ast::expr_wf(self.main_branch@),
            self.else_branch matches Some(eb) ==> crate::ast::expr_wf(eb@),
        ensures
            spec_check_if(self@, variable_mng@) matches Ok(t) ==> r matches Ok(rt) && rt@ == t,
            spec_check_if(self@, variable_mng@) matches Err(e) ==> r matches Err(m) && m@
                == check_err_text(e),
        decreases *self,
    {
        let cond_type = match self.cond_expr.check_type(variable_mng) {
            Ok(t) => t,
            Err(m) => {
                return Err(m);
            },
        };
        let cond_is_bool = match &cond_type.info {
            TypeInfo::Struct(n) => str_eq(n.as_str(), "Bool"),
            _ => false,
        };
        if cond_is_bool {
            let branch_type = match self.main_branch.check_type(variable_mng) {
                Ok(t) => t,
                Err(m) => {
                    return Err(m);
                },
            };
            match &self.else_branch {
                None => {
                    let empty_info = TypeInfo::empty();
                    if !type_info_eq(&branch_type.info, &empty_info) {
                        Err(
                            "If without else, must return empty. found:".to_owned().concat(
                                variable_type_str(&branch_type).as_str(),
                            ),
                        )
                    } else {
                        Ok(branch_type)
                    }
                },
                Some(eb) => {
                    let else_type = match eb.check_type(variable_mng) {
                        Ok(t) => t,
                        Err(m) => {
                            return Err(m);
                        },
                    };
                    if !type_info_eq(&else_type.info, &branch_type.info) {
                        Err(
                            "Both if branches must return same type. found: main:".to_owned()
                                .concat(variable_type_str(&branch_type).as_str()).concat(", else:")
                                .concat(variable_type_str(&else_type).as_str()),
                        )
                    } else {
                        Ok(
                            VariableType {
                                mutable: else_type.mutable && branch_type.mutable,
                                info: branch_type.info,
                            },
                        )
                    }
                },
            }
        } else {
            Err(
                "Conditional expression must return Bool. found:".to_owned().concat(
                    variable_type_str(&cond_type).as_str(),
                ),
            )
        }
    }
}

impl FunctionCallExpr {
    #[verifier::loop_isolation(false)]
    fn check_type(&self, variable_mng: &VariableManager) -> (r: Result<VariableType, String>)
        requires
            crate::ast::exprs_wf(self@.params),
        ensures
            spec_check_call(self@, variable_mng@) matches Ok(t) ==> r matches Ok(rt) && rt@ == t,
            spec_check_call(self@, variable_mng@) matches Err(e) ==> r matches Err(m) && m@
                == check_err_text(e),
        decreases *self,
    {
        let ghost env = variable_mng@;
        proof {
            lemma_view_expr_seq(self.params@);
            crate::ast::lemma_exprs_wf(self@.params);
        }
        match variable_mng.find_variable(self.name.as_str()) {
            None => Err(msg_cannot_find(self.name.as_str())),
            Some(vt) => {
                match &vt.info {
                    TypeInfo::Function(ft) => {
                        if ft.params.len() != self.params.len() {
                            proof {
                                lemma_view_variable_type_seq(ft.params@);
                            }
                            Err(
                                "Wrong number of params. expected:".to_owned().concat(
                                    crate::text::usize_to_string(ft.params.len()).as_str(),
                                ).concat(", found:").concat(
                                    crate::text::usize_to_string(self.params.len()).as_str(),
                                ),
                            )
                        } else {
                            proof {
                                lemma_view_variable_type_seq(ft.params@);
                            }
                            let ghost ptypes = vt@.info->Function_0.params;
                            let mut i: usize = 0;
                            while i < self.params.len()
                                invariant
                                    i <= self.params@.len(),
                                    spec_check_args(self@.params, ptypes, env, i as nat)
                                        == spec_check_args(self@.params, ptypes, env, 0),
                                decreases self.params@.len() - i,
                            {
                                proof {
                                    assert(decreases_to!(*self => self.params@[i as int]));
                                }
                                let t = match self.params[i].check_type(variable_mng) {
                                    Ok(t) => t,
                                    Err(m) => {
                                        return Err(m);
                                    },
                                };
                                match t.check_expected(&ft.params[i]) {
                                    Ok(_) => (),
                                    Err(m) => {
                                        return Err(m);
                                    },
                                };
                                i += 1;
                            }
                            Ok((*ft.return_type).clone())
                        }
                    },
                    _ => Err(
                        "Variable ".to_owned().concat(self.name.as_str()).concat(
                            " is not function: found type:",
                        ).concat(variable_type_str(&vt).as_str()),
                    ),
                }
            },
        }
    }
}

impl FunctionDef {
    #[verifier::loop_isolation(false)]
    fn check_type(&self, variable_mng: &VariableManager) -> (r: Result<VariableType, String>)
        requires
            crate::ast::expr_wf(self.expr@),
        ensures
            spec_check_lambda(self@, variable_mng@) matches Ok(t) ==> r matches Ok(rt) && rt@ == t,
            spec_check_lambda(self@, variable_mng@) matches Err(e) ==> r matches Err(m) && m@
                == check_err_text(e),
        decreases *self,
    {
        let ghost env = variable_mng@;
        let ghost closure_v = self@.closure;
        let mut local_variables = VariableManager::new();
        let mut k: usize = 0;
        while k < self.closure.len()
            invariant
                k <= self.closure@.len(),
                local_variables@.len() == 1,
                spec_bind_closure(closure_v, env, k as nat, local_variables@[0])
                    == spec_bind_closure(closure_v, env, 0, Seq::empty()),
            decreases self.closure@.len() - k,
        {
            let (name, mutable) = &self.closure[k];
            match variable_mng.find_variable(name.as_str()) {
                Some(vt) => {
                    if vt.check_mutability(*mutable) {
                        local_variables.add_variable(
                            name.clone(),
                            VariableType { mutable: *mutable, info: vt.info },
                        );
                    } else {
                        return Err("Incorrect mutability.".to_owned());
                    }
                },
                None => {
                    return Err(msg_cannot_find(name.as_str()));
                },
            }
            k += 1;
        }
        let ghost layer = local_variables@[0];
        let mut i: usize = 0;
        while i < self.parameters.len()
            invariant
                i <= self.parameters@.len(),
                local_variables@.len() == 1,
                local_variables@[0] =~= layer.add(self@.parameters.take(i as int)),
            decreases self.parameters@.len() - i,
        {
            proof {
                lemma_view_parameter_seq(self.parameters@);
                assert(layer.add(self@.parameters.take(i + 1)) =~= layer.add(
                    self@.parameters.take(i as int),
                ).push(self@.parameters[i as int]));
            }
            let (name, param_type) = &self.parameters[i];
            local_variables.add_variable(name.clone(), param_type.clone());
            i += 1;
        }
        proof {
            lemma_view_parameter_seq(self.parameters@);
            assert(self@.parameters.take(self@.parameters.len() as int) =~= self@.parameters);
        }
        local_variables.add_variable(
            "self_fn".to_owned(),
            VariableType { mutable: false, info: TypeInfo::Function(FuncType::from_def(self)) },
        );
        proof {
            assert(local_variables@[0] =~= layer.add(self@.parameters).push(
                (
                    "self_fn"@,
                    VariableTypeV {
                        mutable: false,
                        info: TypeInfoV::Function(spec_func_type_of(self@)),
                    },
                ),
            ));
            assert(local_variables@ =~~= seq![
                layer.add(self@.parameters).push(
                    (
                        "self_fn"@,
                        VariableTypeV {
                            mutable: false,
                            info: TypeInfoV::Function(spec_func_type_of(self@)),
                        },
                    ),
                ),
            ]);
        }
        let ret_type = match self.expr.check_type(&local_variables) {
            Ok(t) => t,
            Err(m) => {
                return Err(m);
            },
        };
        match ret_type.check_expected(&self.return_type) {
            Ok(_) => (),
            Err(m) => {
                return Err(m);
            },
        };
        Ok(VariableType { mutable: true, info: TypeInfo::Function(FuncType::from_def(self)) })
    }
}

impl TupleDef {
    #[verifier::loop_isolation(false)]
    fn check_type(&self, variable_mng: &VariableManager) -> (r: Result<VariableType, String>)
        requires
            crate::ast::exprs_wf(self@.items),
        ensures
            spec_check_tuple(self@, variable_mng@) matches Ok(t) ==> r matches Ok(rt) && rt@ == t,
            spec_check_tuple(self@, variable_mng@) matches Err(e) ==> r matches Err(m) && m@
                == check_err_text(e),
        decreases *self,
    {
        let ghost env = variable_mng@;
        proof {
            lemma_view_expr_seq(self.items@);
            crate::ast::lemma_exprs_wf(self@.items);
        }
        let mut types: Vec<TypeInfo> = Vec::new();
        let mut i: usize = 0;
        while i < self.items.len()
            invariant
                i <= self.items@.len(),
                spec_check_items(
                    self@.items,
                    env,
                    i as nat,
                    crate::ast::view_type_info_seq(types@),
                ) == spec_check_items(self@.items, env, 0, Seq::empty()),
            decreases self.items@.len() - i,
        {
            proof {
                assert(decreases_to!(*self => self.items@[i as int]));
            }
            let t = match self.items[i].check_type(variable_mng) {
                Ok(t) => t,
                Err(m) => {
                    return Err(m);
                },
            };
            proof {
                let s2 = types@.push(t.info);
                assert(s2.drop_last() =~= types@);
                assert(s2.last() == t.info);
                assert(crate::ast::view_type_info_seq(s2) == crate::ast::view_type_info_seq(
                    types@,
                ).push(t.info@));
            }
            types.push(t.info);
            i += 1;
        }
        Ok(VariableType { mutable: false, info: TypeInfo::Tuple(types) })
    }
}

impl Module<Unverified> {
    /// Checks every definition in source order, writes the reconciled type
    /// back into each, and yields the checked module; follows
    /// `spec_verify_module` exactly, message included.
    #[verifier::loop_isolation(false)]
    pub fn verify(self) -> (r: Result<Module<Verified>, String>)
        requires
            crate::ast::module_wf(self@),
        ensures
            spec_verify_module(self@) matches Ok(mv) ==> r matches Ok(m2) && m2@ == mv,
            spec_verify_module(self@) matches Err(e) ==> r matches Err(m) && m@ == check_err_text(
                e,
            ),
            r matches Ok(m2) ==> crate::ast::module_wf(m2@),
    {
        let ghost m_v = self@;
        proof {
            lemma_view_variable_name_seq(self.variables@);
        }
        let mut variable_mng = VariableManager::new();
        proof {
            assert(variable_mng@ =~= seq![Seq::<(Seq<char>, VariableTypeV)>::empty()]);
        }
        let mut out: Vec<VariableName> = Vec::new();
        let mut i: usize = 0;
        while i < self.variables.len()
            invariant
                i <= self.variables@.len(),
                variable_mng@.len() == 1,
                spec_verify_vars(
                    m_v.variables,
                    i as nat,
                    variable_mng@,
                    crate::ast::view_variable_name_seq(out@),
                ) == spec_verify_vars(
                    m_v.variables,
                    0,
                    seq![Seq::<(Seq<char>, VariableTypeV)>::empty()],
                    Seq::empty(),
                ),
                crate::ast::module_wf(ModuleV { variables: crate::ast::view_variable_name_seq(out@) }),
            decreases self.variables@.len() - i,
        {
            let v = &self.variables[i];
            let found = match v.variable.value.check_type(&variable_mng) {
                Ok(t) => t,
                Err(m) => {
                    return Err(m);
                },
            };
            let checked = match found.check_expected(&v.variable.v_type) {
                Ok(t) => t,
                Err(m) => {
                    return Err(m);
                },
            };
            variable_mng.add_variable(v.name.clone(), checked.clone());
            let new_name = VariableName {
                name: v.name.clone(),
                variable: VariableDef { value: v.variable.value.clone(), v_type: checked },
            };
            proof {
                let s2 = out@.push(new_name);
                assert(s2.drop_last() =~= out@);
                assert(s2.last() == new_name);
                assert(crate::ast::view_variable_name_seq(s2)
                    == crate::ast::view_variable_name_seq(out@).push(
                    crate::ast::view_variable_name(new_name),
                ));
            }
            out.push(new_name);
            i += 1;
        }
        Ok(Module { variables: out, structs: self.structs, _state: core::marker::PhantomData })
    }
}

} // verus!
