//! Text renderings of types and operators, used in diagnostics. Each
//! rendering has a mathematical text (`..._text`) and an executable
//! builder proved to produce exactly that text.

use vstd::prelude::*;

use crate::ast::Operand;
use crate::ast::TypeInfo;
use crate::ast::TypeInfoV;
use crate::ast::VariableType;
use crate::ast::VariableTypeV;
use crate::ast::lemma_view_type_info_seq;
use crate::ast::lemma_view_variable_type_seq;
use crate::ast::view_type_info_seq;
use crate::ast::view_variable_type_seq;
use crate::text::int_text;
use crate::text::join_texts;
use crate::text::str_from_iter;

verus! {

broadcast use vstd::std_specs::vec::group_vec_axioms, vstd::seq::group_seq_axioms;

/// The name of an operator, as its diagnostic text.
pub open spec fn operand_text(op: Operand) -> Seq<char> {
    match op {
        Operand::Plus => "Plus"@,
        Operand::Minus => "Minus"@,
        Operand::Lt => "Lt"@,
    }
}

/// Renders an operator for a diagnostic.
pub fn operand_str(op: &Operand) -> (r: String)
    ensures
        r@ == operand_text(*op),
{
    match op {
        Operand::Plus => "Plus".to_owned(),
        Operand::Minus => "Minus".to_owned(),
        Operand::Lt => "Lt".to_owned(),
    }
}

/// The text of a type shape: a struct by its name, a tuple as its
/// comma-joined items in parentheses, a function as
/// `<params>:return`, and the unknown type as `#UNKNOWN`.
pub open spec fn type_info_text(t: TypeInfoV) -> Seq<char>
    decreases t, 1int,
{
    match t {
        TypeInfoV::Struct(name) => name,
        TypeInfoV::Tuple(items) => "("@.add(join_texts(type_info_texts(items), ","@)).add(")"@),
        TypeInfoV::Function(f) => "<"@.add(join_texts(variable_type_texts(f.params), ","@)).add(
            ">:"@,
        ).add(variable_type_text(*f.return_type)),
        TypeInfoV::Unknown => "#UNKNOWN"@,
    }
}

/// The texts of a sequence of type shapes, in order.
pub open spec fn type_info_texts(items: Seq<TypeInfoV>) -> Seq<Seq<char>>
    decreases items, 0int,
{
    if items.len() == 0 {
        Seq::empty()
    } else {
        type_info_texts(items.drop_last()).push(type_info_text(items.last()))
    }
}

/// The text of a binding type: `mut ` when mutable, then the shape.
pub open spec fn variable_type_text(t: VariableTypeV) -> Seq<char>
    decreases t, 1int,
{
    if t.mutable {
        "mut "@.add(type_info_text(t.info))
    } else {
        type_info_text(t.info)
    }
}

/// The texts of a sequence of binding types, in order.
pub open spec fn variable_type_texts(params: Seq<VariableTypeV>) -> Seq<Seq<char>>
    decreases params, 0int,
{
    if params.len() == 0 {
        Seq::empty()
    } else {
        variable_type_texts(params.drop_last()).push(variable_type_text(params.last()))
    }
}

pub proof fn lemma_type_info_texts(items: Seq<TypeInfoV>)
    ensures
        type_info_texts(items).len() == items.len(),
        forall|i: int| 0 <= i < items.len() ==> type_info_texts(items)[i] == type_info_text(
            items[i],
        ),
    decreases items.len(),
{
    if items.len() > 0 {
        lemma_type_info_texts(items.drop_last());
    }
}

pub proof fn lemma_variable_type_texts(params: Seq<VariableTypeV>)
    ensures
        variable_type_texts(params).len() == params.len(),
        forall|i: int|
            0 <= i < params.len() ==> variable_type_texts(params)[i] == variable_type_text(
                params[i],
            ),
    decreases params.len(),
{
    if params.len() > 0 {
        lemma_variable_type_texts(params.drop_last());
    }
}

/// Renders a type shape.
#[verifier::loop_isolation(false)]
pub fn type_info_str(t: &TypeInfo) -> (r: String)
    ensures
        r@ == type_info_text(t@),
    decreases *t, 1int,
{
    match t {
        TypeInfo::Struct(name) => name.clone(),
        TypeInfo::Tuple(items) => {
            let mut texts: Vec<String> = Vec::new();
            let mut i: usize = 0;
            while i < items.len()
                invariant
                    i <= items@.len(),
                    texts@.len() == i,
                    forall|j: int| 0 <= j < i ==> texts@[j]@ == type_info_text(items@[j]@),
                decreases items@.len() - i,
            {
                proof {
                    assert(decreases_to!(*t => *items));
                    assert(decreases_to!(*items => items@[i as int]));
                }
                texts.push(type_info_str(&items[i]));
                i += 1;
            }
            let joined = str_from_iter(&texts, ",");
            proof {
                lemma_type_info_texts(view_type_info_seq(items@));
                lemma_view_type_info_seq(items@);
                assert(Seq::new(texts@.len(), |i: int| texts@[i]@) =~= type_info_texts(
                    view_type_info_seq(items@),
                ));
            }
            let r = "(".to_owned().concat(joined.as_str()).concat(")");
            r
        },
        TypeInfo::Function(f) => {
            let mut texts: Vec<String> = Vec::new();
            let mut i: usize = 0;
            while i < f.params.len()
                invariant
                    i <= f.params@.len(),
                    texts@.len() == i,
                    forall|j: int| 0 <= j < i ==> texts@[j]@ == variable_type_text(f.params@[j]@),
                decreases f.params@.len() - i,
            {
                proof {
                    assert(decreases_to!(*t => *f));
                    assert(decreases_to!(*f => f.params@[i as int]));
                }
                texts.push(variable_type_str(&f.params[i]));
                i += 1;
            }
            let joined = str_from_iter(&texts, ",");
            proof {
                lemma_variable_type_texts(view_variable_type_seq(f.params@));
                lemma_view_variable_type_seq(f.params@);
                assert(Seq::new(texts@.len(), |i: int| texts@[i]@) =~= variable_type_texts(
                    view_variable_type_seq(f.params@),
                ));
            }
            let ret = variable_type_str(&*f.return_type);
            let r = "<".to_owned().concat(joined.as_str()).concat(">:").concat(ret.as_str());
            r
        },
        TypeInfo::Unknown => "#UNKNOWN".to_owned(),
    }
}

/// Renders a binding type.
pub fn variable_type_str(t: &VariableType) -> (r: String)
    ensures
        r@ == variable_type_text(t@),
    decreases *t, 2int,
{
    let info = type_info_str(&t.info);
    if t.mutable {
        "mut ".to_owned().concat(info.as_str())
    } else {
        info
    }
}

// ------------------------------------------------------------------
// Rendering expressions and modules (lossy, for the reader's eye)
// ------------------------------------------------------------------

/// The text of a literal, tagged by its kind.
pub open spec fn constant_text(c: crate::ast::ConstantValueV) -> Seq<char> {
    match c {
        crate::ast::ConstantValueV::Integer(v) => "Integer("@.add(int_text(v as int)).add(")"@),
        crate::ast::ConstantValueV::Float(f) => "Float("@.add(float_const_text(f)).add(")"@),
        crate::ast::ConstantValueV::String(s) => "String(\""@.add(s).add("\")"@),
    }
}

/// The text of a decimal literal, rebuilt from its parts.
pub open spec fn float_const_text(f: crate::ast::FloatConstV) -> Seq<char> {
    let sign: Seq<char> = if f.negative && f.whole == 0 {
        "-"@
    } else {
        ""@
    };
    sign.add(int_text(f.whole as int)).add("."@).add(f.fraction)
}

/// The text of a name reference or literal.
pub open spec fn variable_expr_text(ve: crate::ast::VariableExprV) -> Seq<char> {
    match ve {
        crate::ast::VariableExprV::Variable(name) => name,
        crate::ast::VariableExprV::Constant(c) => constant_text(c),
    }
}

/// The text of an operator chain: each operand followed by its operator,
/// then the last operand and a semicolon.
pub open spec fn expr_text(e: crate::ast::ExprV) -> Seq<char>
    decreases e, e.operands.len() + 2,
{
    if e.exprs.len() == 0 {
        Seq::empty()
    } else {
        expr_pairs_text(e, 0).add(partial_expr_text(e.exprs.last())).add(";"@)
    }
}

/// The leading `operand operator ` pairs of a chain's text.
pub open spec fn expr_pairs_text(e: crate::ast::ExprV, i: nat) -> Seq<char>
    decreases e, e.operands.len() - i + 1,
{
    if i >= e.operands.len() || i >= e.exprs.len() {
        Seq::empty()
    } else {
        partial_expr_text(e.exprs[i as int]).add(" "@).add(operand_text(e.operands[i as int])).add(
            " "@,
        ).add(expr_pairs_text(e, i + 1))
    }
}

/// The text of one partial expression.
pub open spec fn partial_expr_text(p: crate::ast::PartialExprV) -> Seq<char>
    decreases p, 3int,
{
    match p {
        crate::ast::PartialExprV::Block => "BLOCK"@,
        crate::ast::PartialExprV::If(ie) => {
            let head = "IF("@.add(expr_text(*ie.cond_expr)).add(")"@).add(
                expr_text(*ie.main_branch),
            );
            match ie.else_branch {
                Some(eb) => head.add(" else "@).add(expr_text(*eb)),
                None => head,
            }
        },
        crate::ast::PartialExprV::FunctionCall(fc) => fc.name.add("("@).add(
            join_texts(expr_texts(fc.params), ","@),
        ).add(")"@),
        crate::ast::PartialExprV::Variable(ve) => variable_expr_text(ve),
        crate::ast::PartialExprV::Lambda(fd) => "<"@.add(
            join_texts(parameter_texts(fd.parameters), ","@),
        ).add("><"@).add(join_texts(closure_texts(fd.closure), ","@)).add(">:"@).add(
            variable_type_text(fd.return_type),
        ).add("->"@).add(expr_text(*fd.expr)),
        crate::ast::PartialExprV::Tuple(td) => "("@.add(
            join_texts(expr_texts(td.items), ","@),
        ).add(")"@),
    }
}

/// The texts of a sequence of expressions, in order.
pub open spec fn expr_texts(es: Seq<crate::ast::ExprV>) -> Seq<Seq<char>>
    decreases es, 0int,
{
    if es.len() == 0 {
        Seq::empty()
    } else {
        expr_texts(es.drop_last()).push(expr_text(es.last()))
    }
}

/// The texts of a lambda's parameters, `name:type` each.
pub open spec fn parameter_texts(ps: Seq<(Seq<char>, VariableTypeV)>) -> Seq<Seq<char>> {
    Seq::new(ps.len(), |i: int| ps[i].0.add(":"@).add(variable_type_text(ps[i].1)))
}

/// The texts of a lambda's captures, with `mut ` where requested.
pub open spec fn closure_texts(cl: Seq<(Seq<char>, bool)>) -> Seq<Seq<char>> {
    Seq::new(
        cl.len(),
        |i: int|
            (if cl[i].1 {
                "mut "@
            } else {
                ""@
            }).add(cl[i].0),
    )
}

/// The text of one definition, after its name.
pub open spec fn variable_def_text(vd: crate::ast::VariableDefV) -> Seq<char> {
    ":"@.add(variable_type_text(vd.v_type)).add("= "@).add(expr_text(vd.value))
}

/// The text of a module: one line per definition.
pub open spec fn module_text(m: crate::ast::ModuleV) -> Seq<char>
    decreases m.variables.len(),
{
    module_vars_text(m.variables)
}

/// The lines of a module's definitions, in order.
pub open spec fn module_vars_text(vars: Seq<crate::ast::VariableNameV>) -> Seq<char>
    decreases vars,
{
    if vars.len() == 0 {
        Seq::empty()
    } else {
        module_vars_text(vars.drop_last()).add(vars.last().name).add(
            variable_def_text(vars.last().variable),
        ).add("\n"@)
    }
}

pub proof fn lemma_expr_texts(es: Seq<crate::ast::ExprV>)
    ensures
        expr_texts(es).len() == es.len(),
        forall|i: int| 0 <= i < es.len() ==> expr_texts(es)[i] == expr_text(es[i]),
    decreases es.len(),
{
    if es.len() > 0 {
        lemma_expr_texts(es.drop_last());
    }
}

fn constant_str(c: &crate::ast::ConstantValue) -> (r: String)
    ensures
        r@ == constant_text(c@),
{
    match c {
        crate::ast::ConstantValue::Integer(v) => "Integer(".to_owned().concat(
            crate::text::int_to_string(*v).as_str(),
        ).concat(")"),
        crate::ast::ConstantValue::Float(f) => {
            let sign = if f.negative && f.whole == 0 {
                "-"
            } else {
                ""
            };
            "Float(".to_owned().concat(sign).concat(
                crate::text::int_to_string(f.whole).as_str(),
            ).concat(".").concat(f.fraction.as_str()).concat(")")
        },
        crate::ast::ConstantValue::String(s) => "String(\"".to_owned().concat(s.as_str()).concat(
            "\")",
        ),
    }
}

impl crate::ast::Expr {
    /// Renders this chain, one operand and operator after another, with a
    /// closing semicolon; the rendering is for the reader's eye and is not
    /// the source it was parsed from.
    #[verifier::loop_isolation(false)]
    pub fn to_text(&self) -> (r: String)
        ensures
            r@ == expr_text(self@),
        decreases *self, 4int,
    {
        proof {
            crate::ast::lemma_view_partial_expr_seq(self.exprs@);
        }
        if self.exprs.len() == 0 {
            proof {
                assert(self@.exprs.len() == 0);
            }
            return String::new();
        }
        let mut r = String::new();
        let mut i: usize = 0;
        let n = if self.operands.len() < self.exprs.len() {
            self.operands.len()
        } else {
            self.exprs.len()
        };
        proof {
            assert(expr_pairs_text(self@, 0) == prefix_from(self@, 0, n as nat)) by {
                lemma_prefix_from(self@, 0, n as nat);
            }
        }
        while i < n
            invariant
                i <= n,
                n == if self@.operands.len() < self@.exprs.len() {
                    self@.operands.len()
                } else {
                    self@.exprs.len()
                },
                r@.add(prefix_from(self@, i as nat, n as nat)) == expr_pairs_text(self@, 0),
            decreases n - i,
        {
            proof {
                assert(decreases_to!(*self => self.exprs@[i as int]));
            }
            let piece = self.exprs[i].to_text_partial();
            let op = operand_str(&self.operands[i]);
            r = r.concat(piece.as_str()).concat(" ").concat(op.as_str()).concat(" ");
            i += 1;
        }
        proof {
            assert(prefix_from(self@, n as nat, n as nat) == Seq::<char>::empty());
            assert(r@.add(Seq::<char>::empty()) =~= r@);
            assert(decreases_to!(*self => self.exprs@[self.exprs@.len() - 1]));
        }
        let last = self.exprs[self.exprs.len() - 1].to_text_partial();
        let out = r.concat(last.as_str()).concat(";");
        proof {
            assert(self@.exprs.last() == self.exprs@[self.exprs@.len() - 1]@);
        }
        out
    }
}

/// The pair texts of a chain from position `i` up to `n`.
pub open spec fn prefix_from(e: crate::ast::ExprV, i: nat, n: nat) -> Seq<char>
    decreases n - i,
{
    if i >= n || i >= e.operands.len() || i >= e.exprs.len() {
        Seq::empty()
    } else {
        partial_expr_text(e.exprs[i as int]).add(" "@).add(operand_text(e.operands[i as int])).add(
            " "@,
        ).add(prefix_from(e, i + 1, n))
    }
}

/// The pair texts from `i` agree with `expr_pairs_text` when `n` covers
/// every operator the chain can print.
pub proof fn lemma_prefix_from(e: crate::ast::ExprV, i: nat, n: nat)
    requires
        n == if e.operands.len() < e.exprs.len() {
            e.operands.len()
        } else {
            e.exprs.len()
        },
        i <= n,
    ensures
        prefix_from(e, i, n) == expr_pairs_text(e, i),
    decreases n - i,
{
    if i < n {
        lemma_prefix_from(e, i + 1, n);
    }
}

impl crate::ast::PartialExpr {
    /// Renders one partial expression.
    #[verifier::loop_isolation(false)]
    pub fn to_text_partial(&self) -> (r: String)
        ensures
            r@ == partial_expr_text(self@),
        decreases *self, 5int,
    {
        match self {
            crate::ast::PartialExpr::Block(_) => "BLOCK".to_owned(),
            crate::ast::PartialExpr::If(ie) => {
                let head = "IF(".to_owned().concat(ie.cond_expr.to_text().as_str()).concat(")")
                    .concat(ie.main_branch.to_text().as_str());
                match &ie.else_branch {
                    Some(eb) => head.concat(" else ").concat(eb.to_text().as_str()),
                    None => head,
                }
            },
            crate::ast::PartialExpr::FunctionCall(fc) => {
                let joined = exprs_to_text(&fc.params);
                fc.name.clone().concat("(").concat(joined.as_str()).concat(")")
            },
            crate::ast::PartialExpr::Variable(ve) => match ve {
                crate::ast::VariableExpr::Variable(name) => name.clone(),
                crate::ast::VariableExpr::Constant(c) => constant_str(c),
            },
            crate::ast::PartialExpr::Lambda(fd) => {
                let mut ptexts: Vec<String> = Vec::new();
                let mut i: usize = 0;
                while i < fd.parameters.len()
                    invariant
                        i <= fd.parameters@.len(),
                        ptexts@.len() == i,
                        forall|j: int|
                            0 <= j < i ==> ptexts@[j]@ == fd.parameters@[j].0@.add(":"@).add(
                                variable_type_text(fd.parameters@[j].1@),
                            ),
                    decreases fd.parameters@.len() - i,
                {
                    let (name, vt) = &fd.parameters[i];
                    ptexts.push(
                        name.clone().concat(":").concat(variable_type_str(vt).as_str()),
                    );
                    i += 1;
                }
                let mut ctexts: Vec<String> = Vec::new();
                let mut k: usize = 0;
                while k < fd.closure.len()
                    invariant
                        k <= fd.closure@.len(),
                        ctexts@.len() == k,
                        forall|j: int|
                            0 <= j < k ==> ctexts@[j]@ == (
                            if fd.closure@[j].1 {
                                "mut "@
                            } else {
                                ""@
                            }).add(fd.closure@[j].0@),
                    decreases fd.closure@.len() - k,
                {
                    let (name, m) = &fd.closure[k];
                    let prefix = if *m {
                        "mut "
                    } else {
                        ""
                    };
                    ctexts.push(prefix.to_owned().concat(name.as_str()));
                    k += 1;
                }
                proof {
                    crate::ast::lemma_view_parameter_seq(fd.parameters@);
                    assert(Seq::new(ptexts@.len(), |j: int| ptexts@[j]@) =~= parameter_texts(
                        self@->Lambda_0.parameters,
                    ));
                    assert(Seq::new(ctexts@.len(), |j: int| ctexts@[j]@) =~= closure_texts(
                        self@->Lambda_0.closure,
                    ));
                }
                let pj = str_from_iter(&ptexts, ",");
                let cj = str_from_iter(&ctexts, ",");
                "<".to_owned().concat(pj.as_str()).concat("><").concat(cj.as_str()).concat(
                    ">:",
                ).concat(variable_type_str(&fd.return_type).as_str()).concat("->").concat(
                    fd.expr.to_text().as_str(),
                )
            },
            crate::ast::PartialExpr::Tuple(td) => {
                let joined = exprs_to_text(&td.items);
                "(".to_owned().concat(joined.as_str()).concat(")")
            },
        }
    }
}

/// Renders a list of expressions joined with commas.
#[verifier::loop_isolation(false)]
fn exprs_to_text(es: &Vec<crate::ast::Expr>) -> (r: String)
    ensures
        r@ == join_texts(expr_texts(crate::ast::view_expr_seq(es@)), ","@),
    decreases *es, 6int,
{
    let mut texts: Vec<String> = Vec::new();
    let mut i: usize = 0;
    while i < es.len()
        invariant
            i <= es@.len(),
            texts@.len() == i,
            forall|j: int| 0 <= j < i ==> texts@[j]@ == expr_text(es@[j]@),
        decreases es@.len() - i,
    {
        proof {
            assert(decreases_to!(*es => es@[i as int]));
        }
        texts.push(es[i].to_text());
        i += 1;
    }
    proof {
        crate::ast::lemma_view_expr_seq(es@);
        lemma_expr_texts(crate::ast::view_expr_seq(es@));
        assert(Seq::new(texts@.len(), |j: int| texts@[j]@) =~= expr_texts(
            crate::ast::view_expr_seq(es@),
        ));
    }
    str_from_iter(&texts, ",")
}

impl<S: crate::ast::AstState> crate::ast::Module<S> {
    /// Renders the whole module, one definition per line; lossy, for the
    /// reader's eye.
    #[verifier::loop_isolation(false)]
    pub fn to_text(&self) -> (r: String)
        ensures
            r@ == module_text(self@),
    {
        proof {
            crate::ast::lemma_view_variable_name_seq(self.variables@);
        }
        let mut r = String::new();
        let mut i: usize = 0;
        while i < self.variables.len()
            invariant
                i <= self.variables@.len(),
                r@ == module_vars_text(self@.variables.take(i as int)),
            decreases self.variables@.len() - i,
        {
            let v = &self.variables[i];
            let line = v.name.clone().concat(":").concat(
                variable_type_str(&v.variable.v_type).as_str(),
            ).concat("= ").concat(v.variable.value.to_text().as_str()).concat("\n");
            r = r.concat(line.as_str());
            proof {
                assert(self@.variables.take(i + 1).drop_last() =~= self@.variables.take(i as int));
                assert(self@.variables.take(i + 1).last() == self@.variables[i as int]);
            }
            i += 1;
        }
        proof {
            assert(self@.variables.take(self@.variables.len() as int) =~= self@.variables);
        }
        r
    }
}

} // verus!
