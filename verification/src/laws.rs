//! The library's cross-cutting guarantees, stated and proved over the
//! spec-level checker and evaluator: checking is idempotent, the
//! evaluator's arithmetic is covered by the checker, a call runs on a
//! fresh activation and only appends cells, and bindings share cells.

use vstd::prelude::*;

use crate::ast::ModuleV;
use crate::ast::Operand;
use crate::ast::TypeInfoV;
use crate::ast::VariableExprV;
use crate::ast::VariableNameV;
use crate::ast::VariableTypeV;
use crate::data_obj::DataObjV;
use crate::data_obj::FuncObjV;
use crate::run_env::RunErrV;
use crate::run_env::spec_calculate;
use crate::run_env::spec_call;
use crate::run_env::spec_eval_expr;
use crate::run_env::spec_eval_variable;
use crate::run_env::zip_params;
use crate::variable_mng::EnvV;
use crate::variable_stack::StackV;
use crate::variable_stack::lookup_stack;
use crate::verify::CheckErrV;
use crate::verify::spec_check_expected;
use crate::verify::spec_check_expr;
use crate::verify::spec_check_valid_operand;
use crate::verify::spec_verify_module;
use crate::verify::spec_verify_vars;

verus! {

broadcast use vstd::seq::group_seq_axioms;

// ------------------------------------------------------------------
// Type soundness for the covered operators
// ------------------------------------------------------------------

/// The static type a runtime value inhabits, where it has one.
pub open spec fn value_type(d: DataObjV) -> TypeInfoV {
    match d {
        DataObjV::Int(_) => TypeInfoV::Struct("Int"@),
        DataObjV::Float(_) => TypeInfoV::Struct("Float"@),
        DataObjV::String(_) => TypeInfoV::Struct("String"@),
        DataObjV::Bool(_) => TypeInfoV::Struct("Bool"@),
        DataObjV::Empty => TypeInfoV::Tuple(Seq::empty()),
        DataObjV::Func(_) => TypeInfoV::Unknown,
    }
}

/// Type soundness for the covered operators: every operator application
/// the evaluator completes — never more than integer arithmetic and the
/// integer comparison — is an application the checker also accepts on the
/// operands' types.
pub proof fn lemma_calculate_checked(l: DataObjV, op: Operand, r: DataObjV)
    ensures
        spec_calculate(l, op, r) is Ok ==> spec_check_valid_operand(
            VariableTypeV { mutable: true, info: value_type(l) },
            op,
            VariableTypeV { mutable: true, info: value_type(r) },
        ) is Ok,
{
}

// ------------------------------------------------------------------
// Verification is idempotent
// ------------------------------------------------------------------

/// Reconciling a type with what an earlier reconciliation produced
/// changes nothing.
proof fn lemma_check_expected_idem(found: VariableTypeV, expected: VariableTypeV)
    ensures
        spec_check_expected(found, expected) matches Ok(c) ==> spec_check_expected(found, c)
            == Ok::<VariableTypeV, CheckErrV>(c),
{
}

/// A successful pass over a module's definitions extends the output with
/// one checked definition per input definition, keeping names and
/// initializing expressions.
proof fn lemma_vv_result(vars: Seq<VariableNameV>, i: nat, env: EnvV, out: Seq<VariableNameV>)
    requires
        spec_verify_vars(vars, i, env, out) is Ok,
        out.len() == i <= vars.len(),
    ensures
        ({
            let res = spec_verify_vars(vars, i, env, out)->Ok_0;
            &&& res.len() == vars.len()
            &&& res.take(i as int) == out
            &&& forall|j: int|
                i <= j < vars.len() ==> (#[trigger] res[j]).name == vars[j].name
                    && res[j].variable.value == vars[j].variable.value
        }),
    decreases vars.len() - i,
{
    if i >= vars.len() {
        assert(spec_verify_vars(vars, i, env, out)->Ok_0.take(i as int) =~= out);
    } else {
        let v = vars[i as int];
        let found = spec_check_expr(v.variable.value, env)->Ok_0;
        let checked = spec_check_expected(found, v.variable.v_type)->Ok_0;
        let def2 = VariableNameV {
            name: v.name,
            variable: crate::ast::VariableDefV { value: v.variable.value, v_type: checked },
        };
        let env2 = env.update(env.len() - 1, env.last().push((v.name, checked)));
        let out2 = out.push(def2);
        lemma_vv_result(vars, i + 1, env2, out2);
        let res = spec_verify_vars(vars, i, env, out)->Ok_0;
        assert(res.take(i + 1 as int) == out2);
        assert(res.take(i as int) =~= out) by {
            assert(forall|j: int| 0 <= j < i ==> res.take(i + 1 as int)[j] == out2[j]);
        }
        assert(res[i as int] == res.take(i + 1 as int)[i as int]);
    }
}

/// Re-checking the already-checked suffix of a module, from the same
/// scope, reproduces it exactly.
proof fn lemma_vv_idem(vars: Seq<VariableNameV>, i: nat, env: EnvV, out: Seq<VariableNameV>)
    requires
        spec_verify_vars(vars, i, env, out) is Ok,
        out.len() == i <= vars.len(),
        out == spec_verify_vars(vars, i, env, out)->Ok_0.take(i as int),
    ensures
        ({
            let res = spec_verify_vars(vars, i, env, out)->Ok_0;
            spec_verify_vars(res, i, env, out) == Ok::<Seq<VariableNameV>, CheckErrV>(res)
        }),
    decreases vars.len() - i,
{
    lemma_vv_result(vars, i, env, out);
    let res = spec_verify_vars(vars, i, env, out)->Ok_0;
    if i >= vars.len() {
        assert(res == out);
    } else {
        let v = vars[i as int];
        let found = spec_check_expr(v.variable.value, env)->Ok_0;
        let checked = spec_check_expected(found, v.variable.v_type)->Ok_0;
        let def2 = VariableNameV {
            name: v.name,
            variable: crate::ast::VariableDefV { value: v.variable.value, v_type: checked },
        };
        let env2 = env.update(env.len() - 1, env.last().push((v.name, checked)));
        let out2 = out.push(def2);
        lemma_vv_result(vars, i + 1, env2, out2);
        assert(res[i as int] == res.take(i + 1 as int)[i as int]);
        assert(res[i as int] == def2);
        // The stored expression is unchanged, so the second pass infers the
        // same type, and reconciling with the stored type keeps it.
        assert(spec_check_expr(res[i as int].variable.value, env) == Ok::<
            VariableTypeV,
            CheckErrV,
        >(found));
        lemma_check_expected_idem(found, v.variable.v_type);
        assert(spec_check_expected(found, checked) == Ok::<VariableTypeV, CheckErrV>(checked));
        assert(out2 =~= res.take(i + 1 as int));
        lemma_vv_idem(vars, i + 1, env2, out2);
        assert(spec_verify_vars(res, i + 1, env2, out2) == Ok::<
            Seq<VariableNameV>,
            CheckErrV,
        >(res)) by {
            assert(spec_verify_vars(vars, i + 1, env2, out2)->Ok_0 == res);
            assert(spec_verify_vars(res, i + 1, env2, out2) == Ok::<
                Seq<VariableNameV>,
                CheckErrV,
            >(spec_verify_vars(vars, i + 1, env2, out2)->Ok_0));
        }
    }
}

/// Verification is idempotent: a checked module has every definition's
/// type filled in, and re-verifying it reproduces it unchanged — the same
/// type, and the same expression, for every variable.
pub proof fn lemma_verify_idempotent(m: ModuleV)
    ensures
        spec_verify_module(m) matches Ok(m2) ==> spec_verify_module(m2) == Ok::<
            ModuleV,
            CheckErrV,
        >(m2),
{
    if spec_verify_module(m) is Ok {
        let env0: EnvV = seq![Seq::empty()];
        let out0: Seq<VariableNameV> = Seq::empty();
        assert(out0 =~= spec_verify_vars(m.variables, 0, env0, out0)->Ok_0.take(0));
        lemma_vv_idem(m.variables, 0, env0, out0);
    }
}

// ------------------------------------------------------------------
// No unknown type survives verification
// ------------------------------------------------------------------

/// A type shape with no unknown anywhere inside it.
pub open spec fn ti_concrete(t: TypeInfoV) -> bool
    decreases t,
{
    match t {
        TypeInfoV::Struct(_) => true,
        TypeInfoV::Tuple(items) => forall|j: int|
            0 <= j < items.len() ==> ti_concrete(#[trigger] items[j]),
        TypeInfoV::Function(f) => (forall|j: int|
            0 <= j < f.params.len() ==> vt_concrete(#[trigger] f.params[j])) && vt_concrete(
            *f.return_type,
        ),
        TypeInfoV::Unknown => false,
    }
}

/// A binding type with no unknown anywhere inside it.
pub open spec fn vt_concrete(vt: VariableTypeV) -> bool
    decreases vt,
{
    ti_concrete(vt.info)
}

/// Every binding of the scope stack has a fully concrete type.
pub open spec fn env_concrete(env: EnvV) -> bool {
    forall|i: int, j: int|
        0 <= i < env.len() && 0 <= j < env[i].len() ==> vt_concrete((#[trigger] env[i][j]).1)
}

/// Every type annotation inside the expression — lambda parameter types
/// and declared return types — is fully concrete; what the parser
/// produces always is.
pub open spec fn expr_types_concrete(e: crate::ast::ExprV) -> bool
    decreases e, 1int,
{
    partials_types_concrete(e.exprs)
}

pub open spec fn partials_types_concrete(ps: Seq<crate::ast::PartialExprV>) -> bool
    decreases ps, 0int,
{
    if ps.len() == 0 {
        true
    } else {
        partials_types_concrete(ps.drop_last()) && partial_types_concrete(ps.last())
    }
}

pub open spec fn partial_types_concrete(p: crate::ast::PartialExprV) -> bool
    decreases p, 1int,
{
    match p {
        crate::ast::PartialExprV::Block => true,
        crate::ast::PartialExprV::If(ie) => expr_types_concrete(*ie.cond_expr)
            && expr_types_concrete(*ie.main_branch) && match ie.else_branch {
            Some(eb) => expr_types_concrete(*eb),
            None => true,
        },
        crate::ast::PartialExprV::FunctionCall(fc) => exprs_types_concrete(fc.params),
        crate::ast::PartialExprV::Variable(_) => true,
        crate::ast::PartialExprV::Lambda(fd) => (forall|j: int|
            0 <= j < fd.parameters.len() ==> vt_concrete((#[trigger] fd.parameters[j]).1))
            && vt_concrete(fd.return_type) && expr_types_concrete(*fd.expr),
        crate::ast::PartialExprV::Tuple(td) => exprs_types_concrete(td.items),
    }
}

pub open spec fn exprs_types_concrete(es: Seq<crate::ast::ExprV>) -> bool
    decreases es, 0int,
{
    if es.len() == 0 {
        true
    } else {
        exprs_types_concrete(es.drop_last()) && expr_types_concrete(es.last())
    }
}

proof fn lemma_partials_types_concrete(ps: Seq<crate::ast::PartialExprV>)
    ensures
        partials_types_concrete(ps) <==> (forall|i: int|
            0 <= i < ps.len() ==> partial_types_concrete(#[trigger] ps[i])),
    decreases ps.len(),
{
    if ps.len() > 0 {
        lemma_partials_types_concrete(ps.drop_last());
        assert(forall|i: int| 0 <= i < ps.len() - 1 ==> ps.drop_last()[i] == ps[i]);
    }
}

proof fn lemma_exprs_types_concrete(es: Seq<crate::ast::ExprV>)
    ensures
        exprs_types_concrete(es) <==> (forall|i: int|
            0 <= i < es.len() ==> expr_types_concrete(#[trigger] es[i])),
    decreases es.len(),
{
    if es.len() > 0 {
        lemma_exprs_types_concrete(es.drop_last());
        assert(forall|i: int| 0 <= i < es.len() - 1 ==> es.drop_last()[i] == es[i]);
    }
}

proof fn lemma_lookup_layer_concrete(
    layer: crate::variable_mng::LayerV,
    name: Seq<char>,
)
    requires
        forall|j: int| 0 <= j < layer.len() ==> vt_concrete((#[trigger] layer[j]).1),
        crate::variable_mng::lookup_layer(layer, name) is Some,
    ensures
        vt_concrete(crate::variable_mng::lookup_layer(layer, name)->Some_0),
    decreases layer.len(),
{
    if layer.len() > 0 && !(layer.last().0 == name) {
        assert(forall|j: int|
            0 <= j < layer.drop_last().len() ==> layer.drop_last()[j] == layer[j]);
        lemma_lookup_layer_concrete(layer.drop_last(), name);
    }
}

proof fn lemma_lookup_env_concrete(env: EnvV, name: Seq<char>)
    requires
        env_concrete(env),
        crate::variable_mng::lookup_env(env, name) is Some,
    ensures
        vt_concrete(crate::variable_mng::lookup_env(env, name)->Some_0),
    decreases env.len(),
{
    if env.len() > 0 {
        if crate::variable_mng::lookup_layer(env.last(), name) is Some {
            assert(env.last() == env[env.len() - 1]);
            lemma_lookup_layer_concrete(env.last(), name);
        } else {
            assert(env_concrete(env.drop_last())) by {
                assert(forall|i: int|
                    0 <= i < env.drop_last().len() ==> env.drop_last()[i] == env[i]);
            }
            lemma_lookup_env_concrete(env.drop_last(), name);
        }
    }
}

proof fn lemma_bind_closure_concrete(
    closure: Seq<(Seq<char>, bool)>,
    env: EnvV,
    i: nat,
    acc: crate::variable_mng::LayerV,
)
    requires
        env_concrete(env),
        forall|j: int| 0 <= j < acc.len() ==> vt_concrete((#[trigger] acc[j]).1),
    ensures
        crate::verify::spec_bind_closure(closure, env, i, acc) matches Ok(layer) ==> forall|j: int|
            0 <= j < layer.len() ==> vt_concrete((#[trigger] layer[j]).1),
    decreases closure.len() - i,
{
    if i < closure.len() {
        let (name, mutable) = closure[i as int];
        match crate::variable_mng::lookup_env(env, name) {
            None => {},
            Some(vt) => {
                lemma_lookup_env_concrete(env, name);
                if crate::verify::spec_check_mutability(vt, mutable) {
                    lemma_bind_closure_concrete(
                        closure,
                        env,
                        i + 1,
                        acc.push((name, VariableTypeV { mutable, info: vt.info })),
                    );
                }
            },
        }
    }
}

proof fn lemma_check_concrete_expr(e: crate::ast::ExprV, env: EnvV)
    requires
        env_concrete(env),
        expr_types_concrete(e),
        crate::ast::expr_wf(e),
    ensures
        spec_check_expr(e, env) matches Ok(t) ==> vt_concrete(t),
    decreases e, e.exprs.len() + 2,
{
    if e.exprs.len() > 0 {
        lemma_partials_types_concrete(e.exprs);
        crate::ast::lemma_partials_wf(e.exprs);
        match crate::verify::spec_check_partial(e.exprs[0], env) {
            Err(_) => {},
            Ok(t0) => {
                lemma_check_concrete_partial(e.exprs[0], env);
                lemma_check_concrete_chain(e, env, 1, t0);
            },
        }
    }
}

proof fn lemma_check_concrete_chain(e: crate::ast::ExprV, env: EnvV, i: nat, acc: VariableTypeV)
    requires
        env_concrete(env),
        expr_types_concrete(e),
        vt_concrete(acc),
    ensures
        crate::verify::spec_check_chain(e, env, i, acc) matches Ok(t) ==> vt_concrete(t),
    decreases e, e.exprs.len() - i + 1,
{
    if i < e.exprs.len() {
        lemma_partials_types_concrete(e.exprs);
        match crate::verify::spec_check_partial(e.exprs[i as int], env) {
            Err(_) => {},
            Ok(t) => {
                match spec_check_valid_operand(acc, e.operands[i - 1], t) {
                    Err(_) => {},
                    Ok(t2) => {
                        lemma_check_concrete_chain(e, env, i + 1, t2);
                    },
                }
            },
        }
    }
}

proof fn lemma_check_concrete_partial(p: crate::ast::PartialExprV, env: EnvV)
    requires
        env_concrete(env),
        partial_types_concrete(p),
        crate::ast::partial_wf(p),
    ensures
        crate::verify::spec_check_partial(p, env) matches Ok(t) ==> vt_concrete(t),
    decreases p, 0int,
{
    match p {
        crate::ast::PartialExprV::Block => {},
        crate::ast::PartialExprV::Variable(ve) => {
            match ve {
                crate::ast::VariableExprV::Variable(name) => {
                    if crate::variable_mng::lookup_env(env, name) is Some {
                        lemma_lookup_env_concrete(env, name);
                    }
                },
                crate::ast::VariableExprV::Constant(_) => {},
            }
        },
        crate::ast::PartialExprV::If(ie) => {
            lemma_check_concrete_if(ie, env);
        },
        crate::ast::PartialExprV::FunctionCall(fc) => {
            lemma_check_concrete_call(fc, env);
        },
        crate::ast::PartialExprV::Lambda(fd) => {
            lemma_check_concrete_lambda(fd, env);
        },
        crate::ast::PartialExprV::Tuple(td) => {
            lemma_check_concrete_tuple(td, env);
        },
    }
}

proof fn lemma_check_concrete_if(ie: crate::ast::IfExprV, env: EnvV)
    requires
        env_concrete(env),
        partial_types_concrete(crate::ast::PartialExprV::If(ie)),
        crate::ast::partial_wf(crate::ast::PartialExprV::If(ie)),
    ensures
        crate::verify::spec_check_if(ie, env) matches Ok(t) ==> vt_concrete(t),
    decreases ie, 0int,
{
    match spec_check_expr(*ie.cond_expr, env) {
        Err(_) => {},
        Ok(cond) => {
            if cond.info == crate::verify::condition_type() {
                lemma_check_concrete_expr(*ie.main_branch, env);
                match spec_check_expr(*ie.main_branch, env) {
                    Err(_) => {},
                    Ok(bt) => {
                        match ie.else_branch {
                            None => {
                                assert(crate::verify::empty_type() == TypeInfoV::Tuple(
                                    Seq::empty(),
                                ));
                            },
                            Some(_) => {},
                        }
                    },
                }
            }
        },
    }
}

proof fn lemma_check_concrete_call(fc: crate::ast::FunctionCallExprV, env: EnvV)
    requires
        env_concrete(env),
        partial_types_concrete(crate::ast::PartialExprV::FunctionCall(fc)),
    ensures
        crate::verify::spec_check_call(fc, env) matches Ok(t) ==> vt_concrete(t),
    decreases fc, 1int,
{
    match crate::variable_mng::lookup_env(env, fc.name) {
        None => {},
        Some(vt) => {
            lemma_lookup_env_concrete(env, fc.name);
        },
    }
}

proof fn lemma_check_concrete_lambda(fd: crate::ast::FunctionDefV, env: EnvV)
    requires
        env_concrete(env),
        partial_types_concrete(crate::ast::PartialExprV::Lambda(fd)),
    ensures
        crate::verify::spec_check_lambda(fd, env) matches Ok(t) ==> vt_concrete(t),
    decreases fd, 1int,
{
    assert(forall|j: int|
        0 <= j < crate::verify::spec_func_type_of(fd).params.len() ==> vt_concrete(
            #[trigger] crate::verify::spec_func_type_of(fd).params[j],
        )) by {
        assert(forall|j: int|
            0 <= j < fd.parameters.len() ==> crate::verify::spec_func_type_of(fd).params[j] == (
            #[trigger] fd.parameters[j]).1);
    }
}

proof fn lemma_check_concrete_tuple(td: crate::ast::TupleDefV, env: EnvV)
    requires
        env_concrete(env),
        partial_types_concrete(crate::ast::PartialExprV::Tuple(td)),
        crate::ast::partial_wf(crate::ast::PartialExprV::Tuple(td)),
    ensures
        crate::verify::spec_check_tuple(td, env) matches Ok(t) ==> vt_concrete(t),
    decreases td, 1int,
{
    lemma_exprs_types_concrete(td.items);
    crate::ast::lemma_exprs_wf(td.items);
    lemma_check_concrete_items(td.items, env, 0, Seq::empty());
}

proof fn lemma_check_concrete_items(
    items: Seq<crate::ast::ExprV>,
    env: EnvV,
    i: nat,
    acc: Seq<TypeInfoV>,
)
    requires
        env_concrete(env),
        exprs_types_concrete(items),
        crate::ast::exprs_wf(items),
        forall|j: int| 0 <= j < acc.len() ==> ti_concrete(#[trigger] acc[j]),
    ensures
        crate::verify::spec_check_items(items, env, i, acc) matches Ok(infos) ==> forall|j: int|
            0 <= j < infos.len() ==> ti_concrete(#[trigger] infos[j]),
    decreases items, items.len() - i,
{
    if i < items.len() {
        lemma_exprs_types_concrete(items);
        crate::ast::lemma_exprs_wf(items);
        match spec_check_expr(items[i as int], env) {
            Err(_) => {},
            Ok(t) => {
                lemma_check_concrete_expr(items[i as int], env);
                lemma_check_concrete_items(items, env, i + 1, acc.push(t.info));
            },
        }
    }
}

/// Every type annotation a module's expressions carry is concrete.
pub open spec fn module_types_concrete(m: ModuleV) -> bool {
    forall|i: int|
        0 <= i < m.variables.len() ==> expr_types_concrete(
            (#[trigger] m.variables[i]).variable.value,
        )
}

proof fn lemma_vv_concrete(vars: Seq<VariableNameV>, i: nat, env: EnvV, out: Seq<VariableNameV>)
    requires
        env.len() > 0,
        env_concrete(env),
        forall|j: int| i <= j < vars.len() ==> expr_types_concrete(
            (#[trigger] vars[j]).variable.value,
        ) && crate::ast::expr_wf((#[trigger] vars[j]).variable.value),
        forall|j: int| 0 <= j < out.len() ==> vt_concrete((#[trigger] out[j]).variable.v_type),
    ensures
        spec_verify_vars(vars, i, env, out) matches Ok(res) ==> forall|j: int|
            0 <= j < res.len() ==> vt_concrete((#[trigger] res[j]).variable.v_type),
    decreases vars.len() - i,
{
    if i < vars.len() {
        let v = vars[i as int];
        match spec_check_expr(v.variable.value, env) {
            Err(_) => {},
            Ok(found) => {
                lemma_check_concrete_expr(v.variable.value, env);
                match spec_check_expected(found, v.variable.v_type) {
                    Err(_) => {},
                    Ok(checked) => {
                        let env2 = env.update(env.len() - 1, env.last().push((v.name, checked)));
                        assert(env_concrete(env2)) by {
                            assert(forall|a: int, b: int|
                                0 <= a < env2.len() && 0 <= b < env2[a].len() && !(a == env2.len()
                                    - 1 && b == env2[a].len() - 1) ==> env2[a][b] == env[a][b]);
                        }
                        lemma_vv_concrete(
                            vars,
                            i + 1,
                            env2,
                            out.push(
                                VariableNameV {
                                    name: v.name,
                                    variable: crate::ast::VariableDefV {
                                        value: v.variable.value,
                                        v_type: checked,
                                    },
                                },
                            ),
                        );
                    },
                }
            },
        }
    }
}

/// No unknown type survives verification: when every type annotation in
/// the module is concrete — as everything the parser produces is — every
/// definition of the checked module carries a fully concrete type; in
/// particular none is the unknown type.
pub proof fn lemma_verify_no_unknown(m: ModuleV)
    requires
        module_types_concrete(m),
        crate::ast::module_wf(m),
    ensures
        spec_verify_module(m) matches Ok(m2) ==> forall|i: int|
            0 <= i < m2.variables.len() ==> vt_concrete(
                (#[trigger] m2.variables[i]).variable.v_type,
            ) && !((#[trigger] m2.variables[i]).variable.v_type.info is Unknown),
{
    let env0: EnvV = seq![Seq::empty()];
    lemma_vv_concrete(m.variables, 0, env0, Seq::empty());
}

// ------------------------------------------------------------------
// Scope discipline
// ------------------------------------------------------------------

/// Scope discipline: a call runs its body on a stack of exactly one
/// scope — the fresh activation holding `self_fn`, the parameters bound
/// to the argument cells, and the captures — never on the caller's
/// scopes. (The caller's own stack is passed to the evaluator by shared
/// reference, so it is structurally identical after the call; and
/// `Expr::run` further guarantees that the cells existing before the call
/// are a prefix of the cells after it.)
pub proof fn lemma_call_scope_discipline(
    fo: FuncObjV,
    args: Seq<int>,
    heap: Seq<DataObjV>,
    fuel: nat,
)
    requires
        fuel > 0,
    ensures
        ({
            let activation = seq![("self_fn"@, heap.len() as int)].add(
                zip_params(fo.params, args),
            ).add(fo.closure);
            spec_call(fo, args, heap, fuel) == spec_eval_expr(
                fo.expr,
                seq![activation],
                heap.push(DataObjV::Func(fo)),
                (fuel - 1) as nat,
            )
        }),
{
}

// ------------------------------------------------------------------
// Sharing semantics
// ------------------------------------------------------------------

/// Reading a name yields the existing cell itself, not a copy, and
/// allocates nothing.
pub proof fn lemma_variable_read_shares(name: Seq<char>, st: StackV, h: Seq<DataObjV>, c: int)
    requires
        lookup_stack(st, name) == Some(c),
    ensures
        spec_eval_variable(VariableExprV::Variable(name), st, h) == (
            h,
            Ok::<int, RunErrV>(c),
        ),
{
}

proof fn lemma_lookup_frame_append(
    a: crate::variable_stack::FrameV,
    b: crate::variable_stack::FrameV,
    name: Seq<char>,
)
    ensures
        crate::variable_stack::lookup_frame(a.add(b), name) == (
        match crate::variable_stack::lookup_frame(b, name) {
            Some(h) => Some(h),
            None => crate::variable_stack::lookup_frame(a, name),
        }),
    decreases b.len(),
{
    if b.len() == 0 {
        assert(a.add(b) =~= a);
    } else {
        assert(a.add(b).last() == b.last());
        assert(a.add(b).drop_last() =~= a.add(b.drop_last()));
        if !(b.last().0 == name) {
            lemma_lookup_frame_append(a, b.drop_last(), name);
        }
    }
}

proof fn lemma_lookup_frame_absent(frame: crate::variable_stack::FrameV, name: Seq<char>)
    requires
        forall|j: int| 0 <= j < frame.len() ==> (#[trigger] frame[j]).0 != name,
    ensures
        crate::variable_stack::lookup_frame(frame, name) is None,
    decreases frame.len(),
{
    if frame.len() > 0 {
        assert(frame.last() == frame[frame.len() - 1]);
        assert(forall|j: int|
            0 <= j < frame.drop_last().len() ==> frame.drop_last()[j] == frame[j]);
        lemma_lookup_frame_absent(frame.drop_last(), name);
    }
}

proof fn lemma_lookup_frame_latest(frame: crate::variable_stack::FrameV, name: Seq<char>, j: int)
    requires
        0 <= j < frame.len(),
        frame[j].0 == name,
        forall|k: int| j < k < frame.len() ==> (#[trigger] frame[k]).0 != name,
    ensures
        crate::variable_stack::lookup_frame(frame, name) == Some(frame[j].1),
    decreases frame.len(),
{
    assert(frame.last() == frame[frame.len() - 1]);
    if j < frame.len() - 1 {
        assert(forall|k: int|
            0 <= k < frame.drop_last().len() ==> frame.drop_last()[k] == frame[k]);
        lemma_lookup_frame_latest(frame.drop_last(), name, j);
    }
}

/// The activation a call builds; see `lemma_call_scope_discipline`.
pub open spec fn call_activation(fo: FuncObjV, args: Seq<int>, heap: Seq<DataObjV>) -> crate::variable_stack::FrameV {
    seq![("self_fn"@, heap.len() as int)].add(zip_params(fo.params, args)).add(fo.closure)
}

/// Sharing semantics for arguments: in a call's activation, a parameter
/// name that no later parameter and no capture shadows resolves to the
/// very cell its argument arrived in — shared, not copied.
pub proof fn lemma_call_binds_parameter(
    fo: FuncObjV,
    args: Seq<int>,
    heap: Seq<DataObjV>,
    i: int,
)
    requires
        0 <= i < fo.params.len(),
        i < args.len(),
        forall|k: int|
            i < k < zip_params(fo.params, args).len() ==> fo.params[k] != fo.params[i],
        forall|k: int| 0 <= k < fo.closure.len() ==> (#[trigger] fo.closure[k]).0 != fo.params[i],
    ensures
        crate::variable_stack::lookup_frame(call_activation(fo, args, heap), fo.params[i]) == Some(
            args[i],
        ),
{
    let zp = zip_params(fo.params, args);
    let front = seq![("self_fn"@, heap.len() as int)].add(zp);
    lemma_lookup_frame_absent(fo.closure, fo.params[i]);
    lemma_lookup_frame_append(front, fo.closure, fo.params[i]);
    assert(call_activation(fo, args, heap) == front.add(fo.closure));
    assert(front[i + 1] == zp[i]);
    assert(forall|k: int| i + 1 < k < front.len() ==> (#[trigger] front[k]).0 != fo.params[i])
        by {
        assert(forall|k: int| i + 1 < k < front.len() ==> front[k] == zp[k - 1]);
    }
    lemma_lookup_frame_latest(front, fo.params[i], i + 1);
}

/// Sharing semantics for captures: in a call's activation, a captured
/// name that no later capture shadows resolves to the very cell the
/// closure stored when it was captured.
pub proof fn lemma_call_binds_capture(fo: FuncObjV, args: Seq<int>, heap: Seq<DataObjV>, j: int)
    requires
        0 <= j < fo.closure.len(),
        forall|k: int|
            j < k < fo.closure.len() ==> (#[trigger] fo.closure[k]).0 != fo.closure[j].0,
    ensures
        crate::variable_stack::lookup_frame(call_activation(fo, args, heap), fo.closure[j].0)
            == Some(fo.closure[j].1),
{
    let front = seq![("self_fn"@, heap.len() as int)].add(zip_params(fo.params, args));
    let act = call_activation(fo, args, heap);
    assert(act == front.add(fo.closure));
    assert(act[front.len() + j] == fo.closure[j]);
    assert(forall|k: int| front.len() + j < k < act.len() ==> (#[trigger] act[k]).0
        != fo.closure[j].0) by {
        assert(forall|k: int|
            front.len() + j < k < act.len() ==> act[k] == fo.closure[k - front.len()]);
    }
    lemma_lookup_frame_latest(act, fo.closure[j].0, front.len() + j);
}

proof fn lemma_snapshot_suffix(
    closure: Seq<(Seq<char>, bool)>,
    stack: StackV,
    i: nat,
    acc: Seq<(Seq<char>, int)>,
)
    requires
        i <= closure.len(),
        crate::run_env::spec_snapshot_closure(closure, stack, i, acc) is Ok,
    ensures
        ({
            let cl = crate::run_env::spec_snapshot_closure(closure, stack, i, acc)->Ok_0;
            &&& cl.len() == acc.len() + closure.len() - i
            &&& forall|k: int| 0 <= k < acc.len() ==> cl[k] == acc[k]
            &&& forall|j: int|
                i <= j < closure.len() ==> ({
                    &&& (#[trigger] cl[acc.len() + j - i]).0 == closure[j].0
                    &&& lookup_stack(stack, closure[j].0) == Some(cl[acc.len() + j - i].1)
                })
        }),
    decreases closure.len() - i,
{
    if i < closure.len() {
        let h = lookup_stack(stack, closure[i as int].0)->Some_0;
        let acc2 = acc.push((closure[i as int].0, h));
        lemma_snapshot_suffix(closure, stack, i + 1, acc2);
        let cl = crate::run_env::spec_snapshot_closure(closure, stack, i, acc)->Ok_0;
        assert(cl == crate::run_env::spec_snapshot_closure(closure, stack, i + 1, acc2)->Ok_0);
        assert forall|j: int| i <= j < closure.len() implies ({
            &&& (#[trigger] cl[acc.len() + j - i]).0 == closure[j].0
            &&& lookup_stack(stack, closure[j].0) == Some(cl[acc.len() + j - i].1)
        }) by {
            if j == i {
                assert(cl[acc.len() as int] == acc2[acc.len() as int]);
                assert(acc2[acc.len() as int] == (closure[i as int].0, h));
            } else {
                assert(cl[acc2.len() + j - (i + 1)].0 == closure[j].0);
                assert(acc.len() + j - i == acc2.len() + j - (i + 1));
            }
        }
    }
}

/// Closures capture cells, not values: building a function value gives it
/// one fresh cell, the body, the parameter names in order, and — for each
/// declared capture, in declaration order — the very cell the name is
/// bound to at that moment; the cells before it are untouched.
pub proof fn lemma_lambda_captures_cells(
    fd: crate::ast::FunctionDefV,
    stack: StackV,
    heap: Seq<DataObjV>,
)
    ensures
        ({
            let (h2, res) = crate::run_env::spec_eval_lambda(fd, stack, heap);
            res matches Ok(hd) ==> ({
                let fo = h2[hd]->Func_0;
                &&& hd == heap.len()
                &&& h2.len() == heap.len() + 1
                &&& (forall|k: int| 0 <= k < heap.len() ==> h2[k] == heap[k])
                &&& h2[hd] is Func
                &&& fo.expr == *fd.expr
                &&& fo.params == Seq::new(fd.parameters.len(), |i: int| fd.parameters[i].0)
                &&& fo.closure.len() == fd.closure.len()
                &&& (forall|j: int|
                    0 <= j < fd.closure.len() ==> ({
                        &&& (#[trigger] fo.closure[j]).0 == fd.closure[j].0
                        &&& lookup_stack(stack, fd.closure[j].0) == Some(fo.closure[j].1)
                    }))
            })
        }),
{
    if crate::run_env::spec_snapshot_closure(fd.closure, stack, 0, Seq::empty()) is Ok {
        lemma_snapshot_suffix(fd.closure, stack, 0, Seq::empty());
        let cl = crate::run_env::spec_snapshot_closure(fd.closure, stack, 0, Seq::empty())->Ok_0;
        let fo = FuncObjV {
            expr: *fd.expr,
            params: Seq::new(fd.parameters.len(), |i: int| fd.parameters[i].0),
            closure: cl,
        };
        let (h2, res) = crate::run_env::spec_eval_lambda(fd, stack, heap);
        assert(h2 == heap.push(DataObjV::Func(fo)));
        assert(res == Ok::<int, RunErrV>(heap.len() as int));
        assert(h2[heap.len() as int] == DataObjV::Func(fo));
        assert forall|j: int| 0 <= j < fd.closure.len() implies ({
            &&& (#[trigger] fo.closure[j]).0 == fd.closure[j].0
            &&& lookup_stack(stack, fd.closure[j].0) == Some(fo.closure[j].1)
        }) by {
            assert(cl[0 + j - 0].0 == fd.closure[j].0);
            assert(lookup_stack(stack, fd.closure[j].0) == Some(cl[0 + j - 0].1));
        }
    }
}

/// Sharing semantics: when two names are bound to the same cell, a write
/// through that cell is observed through both names alike.
pub proof fn lemma_sharing(
    st: StackV,
    h: Seq<DataObjV>,
    x: Seq<char>,
    y: Seq<char>,
    c: int,
    d: DataObjV,
)
    requires
        lookup_stack(st, x) == Some(c),
        lookup_stack(st, y) == Some(c),
        0 <= c < h.len(),
    ensures
        h.update(c, d)[lookup_stack(st, x)->Some_0] == d,
        h.update(c, d)[lookup_stack(st, y)->Some_0] == d,
{
}

} // verus!
