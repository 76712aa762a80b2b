//! The evaluator: a single-threaded recursive walk over checked
//! expressions, producing shared value cells. Evaluation is stated once
//! as spec functions (`spec_eval_*`), with a recursion budget so that it
//! is a total mathematical function, and the executable walk is proved to
//! follow it exactly, messages included. Evaluation never removes or
//! rewrites an existing cell: it only appends, so every handle a caller
//! holds stays valid and keeps its value.

use vstd::prelude::*;

use crate::ast::Expr;
use crate::ast::ExprV;
use crate::ast::ConstantValue;
use crate::ast::ConstantValueV;
use crate::ast::FunctionCallExpr;
use crate::ast::FunctionCallExprV;
use crate::ast::FunctionDef;
use crate::ast::FunctionDefV;
use crate::ast::IfExpr;
use crate::ast::IfExprV;
use crate::ast::Module;
use crate::ast::ModuleV;
use crate::ast::Operand;
use crate::ast::PartialExpr;
use crate::ast::PartialExprV;
use crate::ast::VariableExpr;
use crate::ast::VariableExprV;
use crate::ast::VariableNameV;
use crate::ast::Verified;
use crate::ast::expr_wf;
use crate::ast::exprs_wf;
use crate::ast::partial_wf;
use crate::ast::partials_wf;
use crate::ast::module_wf;
use crate::ast::lemma_exprs_wf;
use crate::ast::lemma_partials_wf;
use crate::ast::lemma_view_expr_seq;
use crate::ast::lemma_view_parameter_seq;
use crate::ast::lemma_view_partial_expr_seq;
use crate::ast::lemma_view_variable_name_seq;
use crate::data_obj::DataObj;
use crate::data_obj::DataObjV;
use crate::data_obj::FuncObj;
use crate::data_obj::FuncObjV;
use crate::data_obj::Heap;
use crate::data_obj::RefDataObj;
use crate::data_obj::type_str_text;
use crate::displays::operand_str;
use crate::displays::operand_text;
use crate::std_library::BoolType;
use crate::std_library::IntType;
use crate::std_library::StdModBasic;
use crate::std_library::i32_lt;
use crate::variable_stack::FrameV;
use crate::variable_stack::StackV;
use crate::variable_stack::VariableStack;
use crate::variable_stack::lookup_frame;
use crate::variable_stack::lookup_stack;
use crate::variable_stack::stack_ok;

verus! {

broadcast use vstd::std_specs::vec::group_vec_axioms, vstd::seq::group_seq_axioms;

/// How deep evaluation may recurse before it gives up with an error,
/// rather than exhausting the machine stack.
pub const EVAL_FUEL: u64 = 1000000;

// ------------------------------------------------------------------
// Runtime failures, and the exact message each carries
// ------------------------------------------------------------------

/// The ways evaluation can fail, each holding what the message reports.
pub enum RunErrV {
    VariableNotFound { name: Seq<char> },
    CannotCalculate { lhs: Seq<char>, op: Operand, rhs: Seq<char> },
    NotAFunction { name: Seq<char> },
    CondNotBool,
    UnimplementedExpr,
    OutOfFuel,
}

/// The message text of each runtime failure.
pub open spec fn run_err_text(e: RunErrV) -> Seq<char> {
    match e {
        RunErrV::VariableNotFound { name } => "Runtime ERROR: Variable "@.add(name).add(
            " not found."@,
        ),
        RunErrV::CannotCalculate { lhs, op, rhs } => "Runtime ERROR: Can not calculate "@.add(
            lhs,
        ).add(" "@).add(operand_text(op)).add(" "@).add(rhs),
        RunErrV::NotAFunction { name } => "Runtime ERROR: Can not call function "@.add(name).add(
            "."@,
        ),
        RunErrV::CondNotBool => "runtime ERROR: can not get bool"@,
        RunErrV::UnimplementedExpr => "Runtime ERROR: expression kind not implemented."@,
        RunErrV::OutOfFuel => "Runtime ERROR: recursion limit reached."@,
    }
}

// ------------------------------------------------------------------
// Well-formedness of runtime state
// ------------------------------------------------------------------

/// A function value is sound against an arena of `n` cells when its body
/// is well-formed and every captured cell handle is below `n`.
pub open spec fn func_ok(fo: FuncObjV, n: int) -> bool {
    expr_wf(fo.expr) && (forall|j: int|
        0 <= j < fo.closure.len() ==> 0 <= (#[trigger] fo.closure[j]).1 < n)
}

/// Every function value stored in the arena is sound against it.
pub open spec fn heap_ok(h: Seq<DataObjV>) -> bool {
    forall|i: int|
        0 <= i < h.len() && h[i] is Func ==> func_ok((#[trigger] h[i])->Func_0, h.len() as int)
}

proof fn lemma_func_ok_mono(fo: FuncObjV, n: int, m: int)
    requires
        func_ok(fo, n),
        n <= m,
    ensures
        func_ok(fo, m),
{
}

proof fn lemma_heap_ok_push(h: Seq<DataObjV>, d: DataObjV)
    requires
        heap_ok(h),
        d is Func ==> func_ok(d->Func_0, h.len() as int + 1),
    ensures
        heap_ok(h.push(d)),
{
    let h2 = h.push(d);
    assert forall|i: int| 0 <= i < h2.len() && h2[i] is Func implies func_ok(
        (#[trigger] h2[i])->Func_0,
        h2.len() as int,
    ) by {
        if i < h.len() {
            assert(h2[i] == h[i]);
            lemma_func_ok_mono(h[i]->Func_0, h.len() as int, h2.len() as int);
        } else {
            assert(h2[i] == d);
        }
    }
}

proof fn lemma_stack_ok_mono(st: StackV, n: int, m: int)
    requires
        stack_ok(st, n),
        n <= m,
    ensures
        stack_ok(st, m),
{
}

proof fn lemma_prefix_trans(a: Seq<DataObjV>, b: Seq<DataObjV>, c: Seq<DataObjV>)
    requires
        a.is_prefix_of(b),
        b.is_prefix_of(c),
    ensures
        a.is_prefix_of(c),
{
    assert(a =~= c.take(a.len() as int));
}

proof fn lemma_lookup_frame_bound(frame: FrameV, name: Seq<char>, n: int)
    requires
        forall|j: int| 0 <= j < frame.len() ==> 0 <= (#[trigger] frame[j]).1 < n,
        lookup_frame(frame, name) is Some,
    ensures
        0 <= lookup_frame(frame, name)->Some_0 < n,
    decreases frame.len(),
{
    if frame.len() > 0 && !(frame.last().0 == name) {
        lemma_lookup_frame_bound(frame.drop_last(), name, n);
    }
}

proof fn lemma_lookup_stack_bound(st: StackV, name: Seq<char>, n: int)
    requires
        stack_ok(st, n),
        lookup_stack(st, name) is Some,
    ensures
        0 <= lookup_stack(st, name)->Some_0 < n,
    decreases st.len(),
{
    if st.len() > 0 {
        if lookup_frame(st.last(), name) is Some {
            assert(st.last() == st[st.len() - 1]);
            lemma_lookup_frame_bound(st.last(), name, n);
        } else {
            assert(stack_ok(st.drop_last(), n)) by {
                assert(forall|i: int|
                    0 <= i < st.drop_last().len() ==> st.drop_last()[i] == st[i]);
            }
            lemma_lookup_stack_bound(st.drop_last(), name, n);
        }
    }
}

// ------------------------------------------------------------------
// Evaluation, as spec functions
// ------------------------------------------------------------------

/// What a constant evaluates to.
pub open spec fn const_obj(c: ConstantValueV) -> DataObjV {
    match c {
        ConstantValueV::Integer(v) => DataObjV::Int(v),
        ConstantValueV::Float(f) => DataObjV::Float(f),
        ConstantValueV::String(s) => DataObjV::String(s),
    }
}

/// What one operator application yields: integer arithmetic wraps, the
/// comparison yields a boolean, and every other combination of values is
/// a runtime error.
pub open spec fn spec_calculate(l: DataObjV, op: Operand, r: DataObjV) -> Result<
    DataObjV,
    RunErrV,
> {
    match (l, op, r) {
        (DataObjV::Int(a), Operand::Plus, DataObjV::Int(b)) => Ok(DataObjV::Int(a.wrapping_add(b))),
        (DataObjV::Int(a), Operand::Minus, DataObjV::Int(b)) => Ok(
            DataObjV::Int(a.wrapping_sub(b)),
        ),
        (DataObjV::Int(a), Operand::Lt, DataObjV::Int(b)) => Ok(
            DataObjV::Bool(crate::std_library::int_lt(a, b)),
        ),
        _ => Err(
            RunErrV::CannotCalculate { lhs: type_str_text(l), op, rhs: type_str_text(r) },
        ),
    }
}

/// An operator chain evaluates its first operand; with no operators its
/// cell is the result, shared as it is. Otherwise the values are folded
/// left to right and the folded value gets a fresh cell.
pub open spec fn spec_eval_expr(e: ExprV, stack: StackV, heap: Seq<DataObjV>, fuel: nat) -> (Seq<
    DataObjV,
>, Result<int, RunErrV>)
    decreases fuel,
{
    if fuel == 0 {
        (heap, Err(RunErrV::OutOfFuel))
    } else if e.operands.len() == 0 {
        spec_eval_partial(e.exprs[0], stack, heap, (fuel - 1) as nat)
    } else {
        let (h, res) = spec_eval_partial(e.exprs[0], stack, heap, (fuel - 1) as nat);
        match res {
            Err(er) => (h, Err(er)),
            Ok(hd) => spec_eval_chain(e, stack, h, h[hd], 1, (fuel - 1) as nat),
        }
    }
}

/// Folds the remaining `(operator, operand)` pairs onto the value
/// accumulated so far; the final value is moved into a fresh cell.
pub open spec fn spec_eval_chain(
    e: ExprV,
    stack: StackV,
    heap: Seq<DataObjV>,
    acc: DataObjV,
    i: nat,
    fuel: nat,
) -> (Seq<DataObjV>, Result<int, RunErrV>)
    decreases fuel,
{
    if i >= e.exprs.len() {
        (heap.push(acc), Ok(heap.len() as int))
    } else if fuel == 0 {
        (heap, Err(RunErrV::OutOfFuel))
    } else {
        let (h, res) = spec_eval_partial(e.exprs[i as int], stack, heap, (fuel - 1) as nat);
        match res {
            Err(er) => (h, Err(er)),
            Ok(hd) => match spec_calculate(acc, e.operands[i - 1], h[hd]) {
                Err(er) => (h, Err(er)),
                Ok(v) => spec_eval_chain(e, stack, h, v, i + 1, (fuel - 1) as nat),
            },
        }
    }
}

/// What one partial expression evaluates to; block and tuple shapes are
/// not implemented and fail at runtime.
pub open spec fn spec_eval_partial(
    p: PartialExprV,
    stack: StackV,
    heap: Seq<DataObjV>,
    fuel: nat,
) -> (Seq<DataObjV>, Result<int, RunErrV>)
    decreases fuel,
{
    if fuel == 0 {
        (heap, Err(RunErrV::OutOfFuel))
    } else {
        match p {
            PartialExprV::Block => (heap, Err(RunErrV::UnimplementedExpr)),
            PartialExprV::Tuple(_) => (heap, Err(RunErrV::UnimplementedExpr)),
            PartialExprV::If(ie) => spec_eval_if(ie, stack, heap, (fuel - 1) as nat),
            PartialExprV::FunctionCall(fc) => spec_eval_call(fc, stack, heap, (fuel - 1) as nat),
            PartialExprV::Variable(ve) => spec_eval_variable(ve, stack, heap),
            PartialExprV::Lambda(fd) => spec_eval_lambda(fd, stack, heap),
        }
    }
}

/// A name yields the existing shared cell it is bound to — no copy; a
/// constant gets a fresh cell.
pub open spec fn spec_eval_variable(ve: VariableExprV, stack: StackV, heap: Seq<DataObjV>) -> (Seq<
    DataObjV,
>, Result<int, RunErrV>) {
    match ve {
        VariableExprV::Variable(name) => match lookup_stack(stack, name) {
            Some(h) => (heap, Ok(h)),
            None => (heap, Err(RunErrV::VariableNotFound { name })),
        },
        VariableExprV::Constant(c) => (heap.push(const_obj(c)), Ok(heap.len() as int)),
    }
}

/// Snapshots a lambda's declared captures: each name's current cell is
/// stored, shared — not copied — so later writes stay visible.
pub open spec fn spec_snapshot_closure(
    closure: Seq<(Seq<char>, bool)>,
    stack: StackV,
    i: nat,
    acc: Seq<(Seq<char>, int)>,
) -> Result<Seq<(Seq<char>, int)>, RunErrV>
    decreases closure.len() - i,
{
    if i >= closure.len() {
        Ok(acc)
    } else {
        match lookup_stack(stack, closure[i as int].0) {
            Some(h) => spec_snapshot_closure(
                closure,
                stack,
                i + 1,
                acc.push((closure[i as int].0, h)),
            ),
            None => Err(RunErrV::VariableNotFound { name: closure[i as int].0 }),
        }
    }
}

/// A lambda builds a function value — body, parameter names, captured
/// cells — in a fresh cell.
pub open spec fn spec_eval_lambda(fd: FunctionDefV, stack: StackV, heap: Seq<DataObjV>) -> (Seq<
    DataObjV,
>, Result<int, RunErrV>) {
    match spec_snapshot_closure(fd.closure, stack, 0, Seq::empty()) {
        Err(er) => (heap, Err(er)),
        Ok(cl) => (
            heap.push(
                DataObjV::Func(
                    FuncObjV {
                        expr: *fd.expr,
                        params: Seq::new(fd.parameters.len(), |i: int| fd.parameters[i].0),
                        closure: cl,
                    },
                ),
            ),
            Ok(heap.len() as int),
        ),
    }
}

/// The condition must evaluate to a boolean; the chosen branch's cell is
/// the result, and a false condition without an `else` yields a fresh
/// empty value.
pub open spec fn spec_eval_if(ie: IfExprV, stack: StackV, heap: Seq<DataObjV>, fuel: nat) -> (Seq<
    DataObjV,
>, Result<int, RunErrV>)
    decreases fuel,
{
    if fuel == 0 {
        (heap, Err(RunErrV::OutOfFuel))
    } else {
        let (h, res) = spec_eval_expr(*ie.cond_expr, stack, heap, (fuel - 1) as nat);
        match res {
            Err(er) => (h, Err(er)),
            Ok(hc) => match h[hc] {
                DataObjV::Bool(b) => {
                    if b {
                        spec_eval_expr(*ie.main_branch, stack, h, (fuel - 1) as nat)
                    } else {
                        match ie.else_branch {
                            Some(eb) => spec_eval_expr(*eb, stack, h, (fuel - 1) as nat),
                            None => (h.push(DataObjV::Empty), Ok(h.len() as int)),
                        }
                    }
                },
                _ => (h, Err(RunErrV::CondNotBool)),
            },
        }
    }
}

/// The callee must be bound to a function value; the arguments are
/// evaluated left to right, eagerly, and the function is applied.
pub open spec fn spec_eval_call(
    fc: FunctionCallExprV,
    stack: StackV,
    heap: Seq<DataObjV>,
    fuel: nat,
) -> (Seq<DataObjV>, Result<int, RunErrV>)
    decreases fuel,
{
    if fuel == 0 {
        (heap, Err(RunErrV::OutOfFuel))
    } else {
        match lookup_stack(stack, fc.name) {
            None => (heap, Err(RunErrV::VariableNotFound { name: fc.name })),
            Some(hf) => match heap[hf] {
                DataObjV::Func(fo) => {
                    let (h2, res) = spec_eval_args(
                        fc.params,
                        stack,
                        heap,
                        0,
                        Seq::empty(),
                        (fuel - 1) as nat,
                    );
                    match res {
                        Err(er) => (h2, Err(er)),
                        Ok(handles) => spec_call(fo, handles, h2, (fuel - 1) as nat),
                    }
                },
                _ => (heap, Err(RunErrV::NotAFunction { name: fc.name })),
            },
        }
    }
}

/// Evaluates each argument in order, collecting the cells.
pub open spec fn spec_eval_args(
    args: Seq<ExprV>,
    stack: StackV,
    heap: Seq<DataObjV>,
    i: nat,
    acc: Seq<int>,
    fuel: nat,
) -> (Seq<DataObjV>, Result<Seq<int>, RunErrV>)
    decreases fuel,
{
    if i >= args.len() {
        (heap, Ok(acc))
    } else if fuel == 0 {
        (heap, Err(RunErrV::OutOfFuel))
    } else {
        let (h, res) = spec_eval_expr(args[i as int], stack, heap, (fuel - 1) as nat);
        match res {
            Err(er) => (h, Err(er)),
            Ok(hd) => spec_eval_args(args, stack, h, i + 1, acc.push(hd), (fuel - 1) as nat),
        }
    }
}

/// The parameter names bound, in order, to the argument cells; extra
/// names or extra arguments are ignored.
pub open spec fn zip_params(names: Seq<Seq<char>>, args: Seq<int>) -> FrameV {
    Seq::new(
        if names.len() <= args.len() {
            names.len()
        } else {
            args.len()
        },
        |i: int| (names[i], args[i]),
    )
}

/// The calling convention: a fresh activation holding `self_fn` bound to
/// a fresh cell with the function value itself, the parameters bound to
/// the argument cells — shared, so argument aliasing is possible — and
/// the captured cells; the body's result cell is the call's result.
pub open spec fn spec_call(fo: FuncObjV, args: Seq<int>, heap: Seq<DataObjV>, fuel: nat) -> (Seq<
    DataObjV,
>, Result<int, RunErrV>)
    decreases fuel,
{
    if fuel == 0 {
        (heap, Err(RunErrV::OutOfFuel))
    } else {
        let h2 = heap.push(DataObjV::Func(fo));
        let frame = seq![("self_fn"@, heap.len() as int)].add(zip_params(fo.params, args)).add(
            fo.closure,
        );
        spec_eval_expr(fo.expr, seq![frame], h2, (fuel - 1) as nat)
    }
}

/// Evaluates a module's definitions in source order, binding each result
/// cell under the definition's name in one flat scope.
pub open spec fn spec_run_vars(
    vars: Seq<VariableNameV>,
    i: nat,
    frame: FrameV,
    heap: Seq<DataObjV>,
    fuel: nat,
) -> (Seq<DataObjV>, Result<FrameV, RunErrV>)
    decreases vars.len() - i,
{
    if i >= vars.len() {
        (heap, Ok(frame))
    } else {
        let (h, res) = spec_eval_expr(vars[i as int].variable.value, seq![frame], heap, fuel);
        match res {
            Err(er) => (h, Err(er)),
            Ok(hd) => spec_run_vars(
                vars,
                i + 1,
                frame.push((vars[i as int].name, hd)),
                h,
                fuel,
            ),
        }
    }
}

// ------------------------------------------------------------------
// The executable evaluator
// ------------------------------------------------------------------

/// What every evaluation step guarantees: the arena becomes exactly what
/// the spec says, stays sound, only grows, and the result is the spec's
/// cell or the spec's message.
pub open spec fn eval_post(
    sr: (Seq<DataObjV>, Result<int, RunErrV>),
    old_heap: Seq<DataObjV>,
    new_heap: Seq<DataObjV>,
    r: Result<RefDataObj, String>,
) -> bool {
    &&& new_heap == sr.0
    &&& heap_ok(new_heap)
    &&& old_heap.is_prefix_of(new_heap)
    &&& match sr.1 {
        Ok(hd) => r matches Ok(rh) && rh.idx as int == hd && 0 <= hd < new_heap.len(),
        Err(er) => r matches Err(m) && m@ == run_err_text(er),
    }
}

fn fuel_msg() -> (r: String)
    ensures
        r@ == run_err_text(RunErrV::OutOfFuel),
{
    "Runtime ERROR: recursion limit reached.".to_owned()
}

fn unimplemented_msg() -> (r: String)
    ensures
        r@ == run_err_text(RunErrV::UnimplementedExpr),
{
    "Runtime ERROR: expression kind not implemented.".to_owned()
}

fn var_not_found_msg(name: &str) -> (r: String)
    ensures
        r@ == run_err_text(RunErrV::VariableNotFound { name: name@ }),
{
    "Runtime ERROR: Variable ".to_owned().concat(name).concat(" not found.")
}

/// Applies one operator to two values; follows `spec_calculate` exactly,
/// message included.
fn calculate(lhs: &DataObj, o: &Operand, rhs: &DataObj) -> (r: Result<DataObj, String>)
    ensures
        spec_calculate(lhs@, *o, rhs@) matches Ok(v) ==> r matches Ok(rv) && rv@ == v,
        spec_calculate(lhs@, *o, rhs@) matches Err(e) ==> r matches Err(m) && m@ == run_err_text(
            e,
        ),
{
    match (lhs, o, rhs) {
        (DataObj::Int(l), Operand::Plus, DataObj::Int(rr)) => Ok(StdModBasic::int_obj(l.plus(rr))),
        (DataObj::Int(l), Operand::Minus, DataObj::Int(rr)) => Ok(
            StdModBasic::int_obj(l.minus(rr)),
        ),
        (DataObj::Int(l), Operand::Lt, DataObj::Int(rr)) => Ok(
            StdModBasic::bool_obj(i32_lt(l, rr)),
        ),
        (_, _, _) => Err(
            "Runtime ERROR: Can not calculate ".to_owned().concat(lhs.type_str()).concat(
                " ",
            ).concat(operand_str(o).as_str()).concat(" ").concat(rhs.type_str()),
        ),
    }
}

impl Expr {
    /// Evaluates this chain against the scopes and the arena; follows
    /// `spec_eval_expr` exactly.
    #[verifier::loop_isolation(false)]
    pub fn run(&self, known_variables: &VariableStack, heap: &mut Heap, fuel: u64) -> (r: Result<
        RefDataObj,
        String,
    >)
        requires
            expr_wf(self@),
            stack_ok(known_variables@, old(heap)@.len() as int),
            heap_ok(old(heap)@),
        ensures
            eval_post(
                spec_eval_expr(self@, known_variables@, old(heap)@, fuel as nat),
                old(heap)@,
                final (heap)@,
                r,
            ),
        decreases fuel, 0int,
    {
        let ghost st = known_variables@;
        proof {
            lemma_view_partial_expr_seq(self.exprs@);
            lemma_partials_wf(self@.exprs);
            assert(partials_wf(self@.exprs));
            assert(self@.exprs.len() == self.exprs@.len());
            assert(forall|j: int|
                0 <= j < self.exprs@.len() ==> #[trigger] self@.exprs[j] == self.exprs@[j]@);
        }
        if fuel == 0 {
            return Err(fuel_msg());
        }
        let f = fuel - 1;
        if self.operands.len() == 0 {
            self.exprs[0].run(known_variables, heap, f)
        } else {
            let h0 = match self.exprs[0].run(known_variables, heap, f) {
                Ok(h) => h,
                Err(m) => {
                    return Err(m);
                },
            };
            let mut value = heap.read(&h0).clone();
            let ghost target = spec_eval_chain(self@, st, heap@, value@, 1, f as nat);
            let mut i: usize = 1;
            let mut fl = f;
            while i < self.exprs.len()
                invariant
                    1 <= i <= self.exprs@.len(),
                    fl < fuel,
                    heap_ok(heap@),
                    old(heap)@.is_prefix_of(heap@),
                    i > 1 ==> !(value@ is Func),
                    spec_eval_chain(self@, st, heap@, value@, i as nat, fl as nat) == target,
                decreases self.exprs@.len() - i,
            {
                if fl == 0 {
                    return Err(fuel_msg());
                }
                fl = fl - 1;
                let ghost heap_before = heap@;
                let hd = match self.exprs[i].run(known_variables, heap, fl) {
                    Ok(h) => h,
                    Err(m) => {
                        return Err(m);
                    },
                };
                let rhs_val = heap.read(&hd).clone();
                let v2 = match calculate(&value, &self.operands[i - 1], &rhs_val) {
                    Ok(v) => v,
                    Err(m) => {
                        return Err(m);
                    },
                };
                proof {
                    lemma_prefix_trans(old(heap)@, heap_before, heap@);
                }
                value = v2;
                i += 1;
            }
            let ghost heap_before_alloc = heap@;
            proof {
                assert(!(value@ is Func));
            }
            let rh = value.into_ref(heap);
            proof {
                lemma_heap_ok_push(heap_before_alloc, value@);
                assert(heap_before_alloc.is_prefix_of(heap@)) by {
                    assert(heap_before_alloc =~= heap@.take(heap_before_alloc.len() as int));
                }
                lemma_prefix_trans(old(heap)@, heap_before_alloc, heap@);
            }
            Ok(rh)
        }
    }
}

impl PartialExpr {
    fn run(&self, known_variables: &VariableStack, heap: &mut Heap, fuel: u64) -> (r: Result<
        RefDataObj,
        String,
    >)
        requires
            partial_wf(self@),
            stack_ok(known_variables@, old(heap)@.len() as int),
            heap_ok(old(heap)@),
        ensures
            eval_post(
                spec_eval_partial(self@, known_variables@, old(heap)@, fuel as nat),
                old(heap)@,
                final (heap)@,
                r,
            ),
        decreases fuel, 0int,
    {
        if fuel == 0 {
            return Err(fuel_msg());
        }
        let f = fuel - 1;
        match self {
            PartialExpr::Block(_) => Err(unimplemented_msg()),
            PartialExpr::Tuple(_) => Err(unimplemented_msg()),
            PartialExpr::If(e) => e.run(known_variables, heap, f),
            PartialExpr::FunctionCall(e) => e.run(known_variables, heap, f),
            PartialExpr::Variable(e) => e.run(known_variables, heap),
            PartialExpr::Lambda(e) => e.run(known_variables, heap),
        }
    }
}

impl VariableExpr {
    /// A name yields the existing shared cell it is bound to — no copy; a
    /// constant gets a fresh cell.
    fn run(&self, known_variables: &VariableStack, heap: &mut Heap) -> (r: Result<
        RefDataObj,
        String,
    >)
        requires
            stack_ok(known_variables@, old(heap)@.len() as int),
            heap_ok(old(heap)@),
        ensures
            eval_post(
                spec_eval_variable(self@, known_variables@, old(heap)@),
                old(heap)@,
                final (heap)@,
                r,
            ),
    {
        match self {
            VariableExpr::Variable(name) => {
                match known_variables.try_find_variable(name.as_str()) {
                    Some(h) => {
                        proof {
                            lemma_lookup_stack_bound(
                                known_variables@,
                                name@,
                                old(heap)@.len() as int,
                            );
                            assert(old(heap)@.is_prefix_of(old(heap)@)) by {
                                assert(old(heap)@ =~= old(heap)@.take(old(heap)@.len() as int));
                            }
                        }
                        Ok(h)
                    },
                    None => Err(var_not_found_msg(name.as_str())),
                }
            },
            VariableExpr::Constant(v) => {
                let d = match v {
                    ConstantValue::Integer(n) => StdModBasic::int_create(*n),
                    ConstantValue::Float(fc) => StdModBasic::float_create(
                        crate::ast::FloatConst {
                            negative: fc.negative,
                            whole: fc.whole,
                            fraction: fc.fraction.clone(),
                        },
                    ),
                    ConstantValue::String(s) => StdModBasic::string_create(s.clone()),
                };
                let ghost heap_before = heap@;
                let rh = d.into_ref(heap);
                proof {
                    lemma_heap_ok_push(heap_before, d@);
                    assert(heap_before.is_prefix_of(heap@)) by {
                        assert(heap_before =~= heap@.take(heap_before.len() as int));
                    }
                }
                Ok(rh)
            },
        }
    }
}

impl FunctionDef {
    /// Builds a function value: the body, the parameter names, and the
    /// declared captures snapshotted as shared cells.
    #[verifier::loop_isolation(false)]
    fn run(&self, known_variables: &VariableStack, heap: &mut Heap) -> (r: Result<
        RefDataObj,
        String,
    >)
        requires
            expr_wf(self.expr@),
            stack_ok(known_variables@, old(heap)@.len() as int),
            heap_ok(old(heap)@),
        ensures
            eval_post(
                spec_eval_lambda(self@, known_variables@, old(heap)@),
                old(heap)@,
                final (heap)@,
                r,
            ),
    {
        let ghost st = known_variables@;
        let ghost closure_v = self@.closure;
        let mut params: Vec<String> = Vec::new();
        let mut i: usize = 0;
        while i < self.parameters.len()
            invariant
                i <= self.parameters@.len(),
                params@.len() == i,
                forall|j: int| 0 <= j < i ==> params@[j]@ == self.parameters@[j].0@,
            decreases self.parameters@.len() - i,
        {
            params.push(self.parameters[i].0.clone());
            i += 1;
        }
        proof {
            lemma_view_parameter_seq(self.parameters@);
            assert(Seq::new(params@.len(), |j: int| params@[j]@) =~= Seq::new(
                self@.parameters.len(),
                |j: int| self@.parameters[j].0,
            ));
        }
        let mut closure: Vec<(String, RefDataObj)> = Vec::new();
        proof {
            assert(Seq::new(closure@.len(), |j: int| (closure@[j].0@, closure@[j].1.idx as int))
                =~= Seq::<(Seq<char>, int)>::empty());
        }
        let mut k: usize = 0;
        while k < self.closure.len()
            invariant
                k <= self.closure@.len(),
                closure@.len() == k,
                forall|j: int| 0 <= j < k ==> (#[trigger] closure@[j]).1.idx < old(heap)@.len(),
                spec_snapshot_closure(
                    closure_v,
                    st,
                    k as nat,
                    Seq::new(closure@.len(), |j: int| (closure@[j].0@, closure@[j].1.idx as int)),
                ) == spec_snapshot_closure(closure_v, st, 0, Seq::empty()),
            decreases self.closure@.len() - k,
        {
            let (name, _mutable) = &self.closure[k];
            match known_variables.try_find_variable(name.as_str()) {
                Some(h) => {
                    proof {
                        lemma_lookup_stack_bound(st, name@, old(heap)@.len() as int);
                    }
                    let ghost before = Seq::new(
                        closure@.len(),
                        |j: int| (closure@[j].0@, closure@[j].1.idx as int),
                    );
                    closure.push((name.clone(), h));
                    proof {
                        assert(Seq::new(
                            closure@.len(),
                            |j: int| (closure@[j].0@, closure@[j].1.idx as int),
                        ) =~= before.push((name@, h.idx as int)));
                    }
                },
                None => {
                    return Err(var_not_found_msg(name.as_str()));
                },
            }
            k += 1;
        }
        let ghost cl = Seq::new(closure@.len(), |j: int| (closure@[j].0@, closure@[j].1.idx as int));
        let d = StdModBasic::func_create(self.expr.clone(), params, closure);
        let ghost heap_before = heap@;
        let rh = d.into_ref(heap);
        proof {
            assert(d@ is Func);
            assert(func_ok(d@->Func_0, heap_before.len() as int + 1));
            lemma_heap_ok_push(heap_before, d@);
            assert(heap_before.is_prefix_of(heap@)) by {
                assert(heap_before =~= heap@.take(heap_before.len() as int));
            }
            assert(d@->Func_0 == FuncObjV {
                expr: *self@.expr,
                params: Seq::new(self@.parameters.len(), |j: int| self@.parameters[j].0),
                closure: cl,
            });
        }
        Ok(rh)
    }
}

impl IfExpr {
    /// Evaluates the condition, then the chosen branch; a false condition
    /// without an `else` yields a fresh empty value.
    fn run(&self, known_variables: &VariableStack, heap: &mut Heap, fuel: u64) -> (r: Result<
        RefDataObj,
        String,
    >)
        requires
            expr_wf(self.cond_expr@),
            expr_wf(self.main_branch@),
            self.else_branch matches Some(eb) ==> expr_wf(eb@),
            stack_ok(known_variables@, old(heap)@.len() as int),
            heap_ok(old(heap)@),
        ensures
            eval_post(
                spec_eval_if(self@, known_variables@, old(heap)@, fuel as nat),
                old(heap)@,
                final (heap)@,
                r,
            ),
        decreases fuel, 0int,
    {
        if fuel == 0 {
            return Err(fuel_msg());
        }
        let f = fuel - 1;
        let hc = match self.cond_expr.run(known_variables, heap, f) {
            Ok(h) => h,
            Err(m) => {
                return Err(m);
            },
        };
        let ghost mid = heap@;
        let cond = match heap.read(&hc) {
            DataObj::Bool(b) => Some(b.is_true()),
            _ => None,
        };
        proof {
            lemma_stack_ok_mono(
                known_variables@,
                old(heap)@.len() as int,
                heap@.len() as int,
            );
        }
        match cond {
            None => Err("runtime ERROR: can not get bool".to_owned()),
            Some(true) => {
                let rr = self.main_branch.run(known_variables, heap, f);
                proof {
                    lemma_prefix_trans(old(heap)@, mid, heap@);
                }
                rr
            },
            Some(false) => {
                match &self.else_branch {
                    Some(e) => {
                        let rr = e.run(known_variables, heap, f);
                        proof {
                            lemma_prefix_trans(old(heap)@, mid, heap@);
                        }
                        rr
                    },
                    None => {
                        let rh = StdModBasic::empty_create().into_ref(heap);
                        proof {
                            lemma_heap_ok_push(mid, DataObjV::Empty);
                            assert(mid.is_prefix_of(heap@)) by {
                                assert(mid =~= heap@.take(mid.len() as int));
                            }
                            lemma_prefix_trans(old(heap)@, mid, heap@);
                        }
                        Ok(rh)
                    },
                }
            },
        }
    }
}

impl FunctionCallExpr {
    /// Resolves the callee, evaluates the arguments left to right, and
    /// applies the function.
    #[verifier::loop_isolation(false)]
    fn run(&self, known_variables: &VariableStack, heap: &mut Heap, fuel: u64) -> (r: Result<
        RefDataObj,
        String,
    >)
        requires
            exprs_wf(self@.params),
            stack_ok(known_variables@, old(heap)@.len() as int),
            heap_ok(old(heap)@),
        ensures
            eval_post(
                spec_eval_call(self@, known_variables@, old(heap)@, fuel as nat),
                old(heap)@,
                final (heap)@,
                r,
            ),
        decreases fuel, 0int,
    {
        let ghost st = known_variables@;
        proof {
            lemma_view_expr_seq(self.params@);
            lemma_exprs_wf(self@.params);
        }
        if fuel == 0 {
            return Err(fuel_msg());
        }
        let f = fuel - 1;
        let hf = match known_variables.try_find_variable(self.name.as_str()) {
            Some(h) => h,
            None => {
                return Err(var_not_found_msg(self.name.as_str()));
            },
        };
        proof {
            lemma_lookup_stack_bound(st, self.name@, old(heap)@.len() as int);
        }
        let fobj = match heap.read(&hf) {
            DataObj::Func(fo) => fo.clone(),
            _ => {
                return Err(
                    "Runtime ERROR: Can not call function ".to_owned().concat(
                        self.name.as_str(),
                    ).concat("."),
                );
            },
        };
        let ghost target = spec_eval_args(self@.params, st, old(heap)@, 0, Seq::empty(), f as nat);
        let mut args: Vec<RefDataObj> = Vec::new();
        proof {
            assert(Seq::new(args@.len(), |j: int| args@[j].idx as int) =~= Seq::<int>::empty());
            assert(old(heap)@.is_prefix_of(heap@)) by {
                assert(old(heap)@ =~= heap@.take(old(heap)@.len() as int));
            }
        }
        let mut fl = f;
        let mut i: usize = 0;
        while i < self.params.len()
            invariant
                i <= self.params@.len(),
                fl < fuel,
                heap_ok(heap@),
                old(heap)@.is_prefix_of(heap@),
                forall|j: int| 0 <= j < i ==> (#[trigger] args@[j]).idx < heap@.len(),
                args@.len() == i,
                spec_eval_args(
                    self@.params,
                    st,
                    heap@,
                    i as nat,
                    Seq::new(args@.len(), |j: int| args@[j].idx as int),
                    fl as nat,
                ) == target,
            decreases self.params@.len() - i,
        {
            if fl == 0 {
                return Err(fuel_msg());
            }
            fl = fl - 1;
            let ghost heap_before = heap@;
            let hd = match self.params[i].run(known_variables, heap, fl) {
                Ok(h) => h,
                Err(m) => {
                    return Err(m);
                },
            };
            let ghost before_args = Seq::new(args@.len(), |j: int| args@[j].idx as int);
            args.push(hd);
            proof {
                lemma_prefix_trans(old(heap)@, heap_before, heap@);
                assert(Seq::new(args@.len(), |j: int| args@[j].idx as int) =~= before_args.push(
                    hd.idx as int,
                ));
                assert(forall|j: int|
                    0 <= j < args@.len() - 1 ==> (#[trigger] args@[j]).idx < heap@.len());
            }
            i += 1;
        }
        let ghost arg_handles = Seq::new(args@.len(), |j: int| args@[j].idx as int);
        let ghost heap_mid = heap@;
        proof {
            lemma_func_ok_from_heap(old(heap)@, hf.idx as int);
            lemma_func_ok_mono(fobj@, old(heap)@.len() as int, heap@.len() as int);
        }
        let rr = fobj.call(args, heap, f);
        proof {
            lemma_prefix_trans(old(heap)@, heap_mid, heap@);
        }
        rr
    }
}

proof fn lemma_func_ok_from_heap(h: Seq<DataObjV>, i: int)
    requires
        heap_ok(h),
        0 <= i < h.len(),
        h[i] is Func,
    ensures
        func_ok(h[i]->Func_0, h.len() as int),
{
}

impl FuncObj {
    /// Applies this function value: a fresh activation binds `self_fn` to
    /// a fresh cell holding the function itself, each parameter name to
    /// its argument's cell — shared — and each captured name to its
    /// captured cell; the body's result cell is the call's result.
    #[verifier::loop_isolation(false)]
    pub fn call(&self, params: Vec<RefDataObj>, heap: &mut Heap, fuel: u64) -> (r: Result<
        RefDataObj,
        String,
    >)
        requires
            func_ok(self@, old(heap)@.len() as int),
            heap_ok(old(heap)@),
            forall|i: int| 0 <= i < params@.len() ==> (#[trigger] params@[i]).idx < old(
                heap,
            )@.len(),
        ensures
            eval_post(
                spec_call(
                    self@,
                    Seq::new(params@.len(), |i: int| params@[i].idx as int),
                    old(heap)@,
                    fuel as nat,
                ),
                old(heap)@,
                final (heap)@,
                r,
            ),
        decreases fuel, 0int,
    {
        proof {
            crate::data_obj::lemma_func_obj_view(self);
        }
        if fuel == 0 {
            return Err(fuel_msg());
        }
        let ghost arg_handles = Seq::new(params@.len(), |i: int| params@[i].idx as int);
        let self_cell = StdModBasic::func_obj(self.clone()).into_ref(heap);
        proof {
            lemma_func_ok_mono(self@, old(heap)@.len() as int, old(heap)@.len() as int + 1);
            lemma_heap_ok_push(old(heap)@, DataObjV::Func(self@));
            assert(old(heap)@.is_prefix_of(heap@)) by {
                assert(old(heap)@ =~= heap@.take(old(heap)@.len() as int));
            }
        }
        let mut variables = VariableStack::new();
        variables.add_variable("self_fn".to_owned(), self_cell);
        let ghost frame0 = seq![("self_fn"@, old(heap)@.len() as int)];
        proof {
            assert(variables@[0] =~= frame0);
        }
        let n = if self.params.len() <= params.len() {
            self.params.len()
        } else {
            params.len()
        };
        let ghost zipped = zip_params(self@.params, arg_handles);
        let mut i: usize = 0;
        while i < n
            invariant
                i <= n,
                n == if self@.params.len() <= arg_handles.len() {
                    self@.params.len()
                } else {
                    arg_handles.len()
                },
                variables@.len() == 1,
                variables@[0] =~= frame0.add(zipped.take(i as int)),
            decreases n - i,
        {
            variables.add_variable(self.params[i].clone(), params[i]);
            proof {
                assert(zipped.take(i + 1) =~= zipped.take(i as int).push(zipped[i as int]));
                assert(frame0.add(zipped.take(i + 1)) =~= frame0.add(zipped.take(i as int)).push(
                    zipped[i as int],
                ));
            }
            i += 1;
        }
        proof {
            assert(zipped.take(n as int) =~= zipped);
        }
        let ghost frame1 = frame0.add(zipped);
        let mut k: usize = 0;
        while k < self.closure.len()
            invariant
                k <= self.closure@.len(),
                variables@.len() == 1,
                variables@[0] =~= frame1.add(self@.closure.take(k as int)),
            decreases self.closure@.len() - k,
        {
            let (name, h) = &self.closure[k];
            variables.add_variable(name.clone(), *h);
            proof {
                assert(self@.closure.take(k + 1) =~= self@.closure.take(k as int).push(
                    self@.closure[k as int],
                ));
                assert(frame1.add(self@.closure.take(k + 1)) =~= frame1.add(
                    self@.closure.take(k as int),
                ).push(self@.closure[k as int]));
            }
            k += 1;
        }
        let ghost frame2 = frame1.add(self@.closure);
        proof {
            assert(self@.closure.take(self.closure@.len() as int) =~= self@.closure);
            assert(variables@ =~~= seq![frame2]);
            assert(stack_ok(variables@, heap@.len() as int)) by {
                assert(forall|j: int|
                    0 <= j < frame2.len() ==> 0 <= (#[trigger] frame2[j]).1 < heap@.len() as int);
            }
        }
        let rr = self.expr.run(&variables, heap, fuel - 1);
        proof {
            assert(old(heap)@.push(DataObjV::Func(self@)).is_prefix_of(heap@) ==> old(
                heap,
            )@.is_prefix_of(heap@)) by {
                if old(heap)@.push(DataObjV::Func(self@)).is_prefix_of(heap@) {
                    assert(old(heap)@ =~= heap@.take(old(heap)@.len() as int));
                }
            }
        }
        rr
    }
}

impl Module<Verified> {
    /// Evaluates the module's definitions in source order against a fresh
    /// one-scope stack, binding each result cell under its name; follows
    /// `spec_run_vars` exactly.
    #[verifier::loop_isolation(false)]
    pub fn run(&self, heap: &mut Heap, fuel: u64) -> (r: Result<VariableStack, String>)
        requires
            module_wf(self@),
            heap_ok(old(heap)@),
        ensures
            ({
                let (h2, res) = spec_run_vars(
                    self@.variables,
                    0,
                    Seq::empty(),
                    old(heap)@,
                    fuel as nat,
                );
                &&& final (heap)@ == h2
                &&& heap_ok(final (heap)@)
                &&& old(heap)@.is_prefix_of(final (heap)@)
                &&& match res {
                    Ok(frame) => r matches Ok(vs) && vs@.len() == 1 && vs@[0] == frame && stack_ok(
                        vs@,
                        final (heap)@.len() as int,
                    ),
                    Err(er) => r matches Err(m) && m@ == run_err_text(er),
                }
            }),
    {
        let ghost m_v = self@;
        proof {
            lemma_view_variable_name_seq(self.variables@);
        }
        let mut known_variables = VariableStack::new();
        proof {
            assert(known_variables@[0] =~= Seq::<(Seq<char>, int)>::empty());
            assert(old(heap)@.is_prefix_of(old(heap)@)) by {
                assert(old(heap)@ =~= old(heap)@.take(old(heap)@.len() as int));
            }
        }
        let mut i: usize = 0;
        while i < self.variables.len()
            invariant
                i <= self.variables@.len(),
                known_variables@.len() == 1,
                heap_ok(heap@),
                old(heap)@.is_prefix_of(heap@),
                stack_ok(known_variables@, heap@.len() as int),
                spec_run_vars(m_v.variables, i as nat, known_variables@[0], heap@, fuel as nat)
                    == spec_run_vars(m_v.variables, 0, Seq::empty(), old(heap)@, fuel as nat),
            decreases self.variables@.len() - i,
        {
            let v = &self.variables[i];
            proof {
                assert(known_variables@ =~= seq![known_variables@[0]]);
            }
            let ghost heap_before = heap@;
            let rh = match v.variable.value.run(&known_variables, heap, fuel) {
                Ok(h) => h,
                Err(m) => {
                    return Err(m);
                },
            };
            known_variables.add_variable(v.name.clone(), rh);
            proof {
                lemma_prefix_trans(old(heap)@, heap_before, heap@);
            }
            i += 1;
        }
        Ok(known_variables)
    }
}

/// A runtime environment: the modules added so far, their top-level
/// bindings, and the arena their value cells live in.
pub struct RunEnv {
    modules: Vec<(String, Module<Verified>)>,
    variable_stack: VariableStack,
    heap: Heap,
}

impl RunEnv {
    /// The scopes of top-level bindings.
    pub closed spec fn stack_view(&self) -> StackV {
        self.variable_stack@
    }

    /// The cells of the arena.
    pub closed spec fn heap_view(&self) -> Seq<DataObjV> {
        self.heap@
    }

    /// The modules added so far, in order, by name.
    pub closed spec fn modules_view(&self) -> Seq<(Seq<char>, ModuleV)> {
        Seq::new(self.modules@.len(), |i: int| (self.modules@[i].0@, self.modules@[i].1@))
    }

    /// The environment's soundness: at least one scope, every bound handle
    /// valid, every stored function value sound.
    pub closed spec fn wf(&self) -> bool {
        &&& self.variable_stack@.len() > 0
        &&& stack_ok(self.variable_stack@, self.heap@.len() as int)
        &&& heap_ok(self.heap@)
    }

    /// An empty runtime environment.
    pub fn new() -> (r: Self)
        ensures
            r.wf(),
            r.stack_view().len() == 1,
            r.stack_view()[0] == Seq::<(Seq<char>, int)>::empty(),
            r.heap_view() == Seq::<DataObjV>::empty(),
            r.modules_view() == Seq::<(Seq<char>, ModuleV)>::empty(),
    {
        let r = RunEnv {
            modules: Vec::new(),
            variable_stack: VariableStack::new(),
            heap: Heap::new(),
        };
        proof {
            assert(r.modules_view() =~= Seq::<(Seq<char>, ModuleV)>::empty());
        }
        r
    }

    /// Checks the module, evaluates it, takes its top-level bindings into
    /// the environment, and registers it under the name. The first
    /// checking or runtime failure is returned with its message and, on a
    /// checking failure, nothing is changed.
    pub fn add_module(&mut self, name: String, module: Module<crate::ast::Unverified>) -> (r:
        Result<(), String>)
        requires
            old(self).wf(),
            module_wf(module@),
        ensures
            final (self).wf(),
            ({
                match crate::verify::spec_verify_module(module@) {
                    Err(e) => ({
                        &&& r matches Err(m) && m@ == crate::verify::check_err_text(e)
                        &&& final (self).heap_view() == old(self).heap_view()
                        &&& final (self).stack_view() == old(self).stack_view()
                        &&& final (self).modules_view() == old(self).modules_view()
                    }),
                    Ok(mv) => ({
                        let (h2, rr) = spec_run_vars(
                            mv.variables,
                            0,
                            Seq::empty(),
                            old(self).heap_view(),
                            EVAL_FUEL as nat,
                        );
                        match rr {
                            Err(er) => ({
                                &&& r matches Err(m) && m@ == run_err_text(er)
                                &&& final (self).heap_view() == h2
                                &&& final (self).stack_view() == old(self).stack_view()
                                &&& final (self).modules_view() == old(self).modules_view()
                            }),
                            Ok(frame) => ({
                                &&& r is Ok
                                &&& final (self).heap_view() == h2
                                &&& final (self).stack_view() =~= old(self).stack_view().update(
                                    0,
                                    old(self).stack_view()[0].add(frame),
                                )
                                &&& final (self).modules_view() =~= old(
                                    self,
                                ).modules_view().push((name@, mv))
                            }),
                        }
                    }),
                }
            }),
    {
        let m = match module.verify() {
            Ok(m) => m,
            Err(e) => {
                return Err(e);
            },
        };
        let vs = match m.run(&mut self.heap, EVAL_FUEL) {
            Ok(v) => v,
            Err(e) => {
                return Err(e);
            },
        };
        match self.variable_stack.extend(vs) {
            Ok(()) => (),
            Err(e) => {
                return Err(e);
            },
        };
        let ghost mods_before = self.modules_view();
        self.modules.push((name, m));
        proof {
            assert(self.modules_view() =~~= mods_before.push(
                (self.modules@.last().0@, self.modules@.last().1@),
            ));
        }
        Ok(())
    }

    /// Parses, checks, evaluates and registers a module; the first parse,
    /// checking or runtime failure is returned with its message.
    pub fn parse_and_add(&mut self, name: String, code: &str) -> (r: Result<(), String>)
        requires
            old(self).wf(),
        ensures
            final (self).wf(),
            ({
                let (e, m) = crate::parser::sp_module(code@);
                if e < code@.len() {
                    &&& r matches Err(msg) && msg@ == "unparsed: "@.add(
                        code@.subrange(e, code@.len() as int),
                    )
                    &&& final (self).heap_view() == old(self).heap_view()
                    &&& final (self).stack_view() == old(self).stack_view()
                    &&& final (self).modules_view() == old(self).modules_view()
                } else {
                    match crate::verify::spec_verify_module(m) {
                        Err(er) => ({
                            &&& r matches Err(msg) && msg@ == crate::verify::check_err_text(er)
                            &&& final (self).heap_view() == old(self).heap_view()
                            &&& final (self).stack_view() == old(self).stack_view()
                            &&& final (self).modules_view() == old(self).modules_view()
                        }),
                        Ok(mv) => ({
                            let (h2, rr) = spec_run_vars(
                                mv.variables,
                                0,
                                Seq::empty(),
                                old(self).heap_view(),
                                EVAL_FUEL as nat,
                            );
                            match rr {
                                Err(er) => ({
                                    &&& r matches Err(msg) && msg@ == run_err_text(er)
                                    &&& final (self).heap_view() == h2
                                    &&& final (self).stack_view() == old(self).stack_view()
                                    &&& final (self).modules_view() == old(self).modules_view()
                                }),
                                Ok(frame) => ({
                                    &&& r is Ok
                                    &&& final (self).heap_view() == h2
                                    &&& final (self).stack_view() =~= old(
                                        self,
                                    ).stack_view().update(
                                        0,
                                        old(self).stack_view()[0].add(frame),
                                    )
                                    &&& final (self).modules_view() =~= old(
                                        self,
                                    ).modules_view().push((name@, mv))
                                }),
                            }
                        }),
                    }
                }
            }),
    {
        match crate::parser::parse(code) {
            Err(e) => Err(e),
            Ok(m) => self.add_module(name, m),
        }
    }

    /// The one scope of types an ad-hoc expression is checked against:
    /// every added module's bindings, in order.
    pub open spec fn modules_layer(mods: Seq<(Seq<char>, ModuleV)>) -> crate::variable_mng::LayerV
        decreases mods,
    {
        if mods.len() == 0 {
            Seq::empty()
        } else {
            Self::modules_layer(mods.drop_last()).add(
                crate::variable_mng::VariableManager::module_bindings(mods.last().1.variables),
            )
        }
    }

    /// Parses an ad-hoc expression, checks it against all added modules'
    /// top-level bindings, evaluates it against their values, and returns
    /// the checked type with the result cell.
    #[verifier::loop_isolation(false)]
    pub fn run(&mut self, expr: &str) -> (r: Result<
        (crate::ast::VariableType, RefDataObj),
        String,
    >)
        requires
            old(self).wf(),
        ensures
            final (self).wf(),
            final (self).stack_view() == old(self).stack_view(),
            final (self).modules_view() == old(self).modules_view(),
            ({
                match crate::parser::sp_expr(expr@, 0) {
                    None => ({
                        &&& r matches Err(msg) && msg@
                            == "Parse error: the expression cannot be read."@
                        &&& final (self).heap_view() == old(self).heap_view()
                    }),
                    Some((_pos, e_v)) => {
                        let env = seq![Self::modules_layer(old(self).modules_view())];
                        match crate::verify::spec_check_expr(e_v, env) {
                            Err(ce) => ({
                                &&& r matches Err(msg) && msg@ == crate::verify::check_err_text(ce)
                                &&& final (self).heap_view() == old(self).heap_view()
                            }),
                            Ok(t) => ({
                                let (h2, res) = spec_eval_expr(
                                    e_v,
                                    old(self).stack_view(),
                                    old(self).heap_view(),
                                    EVAL_FUEL as nat,
                                );
                                &&& final (self).heap_view() == h2
                                &&& match res {
                                    Err(re) => r matches Err(msg) && msg@ == run_err_text(re),
                                    Ok(hd) => r matches Ok(p) && p.0@ == t && p.1.idx as int == hd,
                                }
                            }),
                        }
                    },
                }
            }),
    {
        let v = crate::text::chars_of(expr);
        let e = match crate::parser::parse_expr(&v, 0) {
            Some((_pos, e)) => e,
            None => {
                return Err("Parse error: the expression cannot be read.".to_owned());
            },
        };
        let mut v_mng = crate::variable_mng::VariableManager::new();
        proof {
            assert(Self::modules_layer(self.modules_view().take(0)) =~= Seq::<
                (Seq<char>, crate::ast::VariableTypeV),
            >::empty());
        }
        let mut i: usize = 0;
        while i < self.modules.len()
            invariant
                i <= self.modules@.len(),
                v_mng@.len() == 1,
                v_mng@[0] =~= Self::modules_layer(self.modules_view().take(i as int)),
            decreases self.modules@.len() - i,
        {
            v_mng.add_module(&self.modules[i].1);
            proof {
                assert(self.modules_view().take(i + 1).drop_last() =~= self.modules_view().take(
                    i as int,
                ));
                assert(self.modules_view().take(i + 1).last() == self.modules_view()[i as int]);
                assert(self.modules_view()[i as int].1 == self.modules@[i as int].1@);
            }
            i += 1;
        }
        proof {
            assert(self.modules_view().take(self.modules@.len() as int) =~= self.modules_view());
            assert(v_mng@ =~= seq![Self::modules_layer(self.modules_view())]);
        }
        let t = match e.check_type(&v_mng) {
            Ok(t) => t,
            Err(m) => {
                return Err(m);
            },
        };
        let rc = match e.run(&self.variable_stack, &mut self.heap, EVAL_FUEL) {
            Ok(h) => h,
            Err(m) => {
                return Err(m);
            },
        };
        proof {
            lemma_stack_ok_mono(
                self.variable_stack@,
                old(self).heap_view().len() as int,
                self.heap@.len() as int,
            );
        }
        Ok((t, rc))
    }

    /// The cell a top-level binding holds, if any module bound the name.
    pub fn find_variable(&self, name: &str) -> (r: Option<RefDataObj>)
        ensures
            match lookup_stack(self.stack_view(), name@) {
                Some(h) => r matches Some(rh) && rh.idx as int == h,
                None => r is None,
            },
            (self.wf() && r is Some) ==> r->Some_0.idx < self.heap_view().len(),
    {
        let r = self.variable_stack.try_find_variable(name);
        proof {
            if self.wf() && lookup_stack(self.stack_view(), name@) is Some {
                lemma_lookup_stack_bound(self.stack_view(), name@, self.heap_view().len() as int);
            }
        }
        r
    }

    /// How many modules have been added.
    pub fn module_count(&self) -> (r: usize)
        ensures
            r == self.modules_view().len(),
    {
        self.modules.len()
    }

    /// One line per added module: its name and its rendering.
    pub open spec fn modules_text(mods: Seq<(Seq<char>, ModuleV)>) -> Seq<char>
        decreases mods,
    {
        if mods.len() == 0 {
            Seq::empty()
        } else {
            Self::modules_text(mods.drop_last()).add(mods.last().0).add(":"@).add(
                crate::displays::module_text(mods.last().1),
            ).add("\n"@)
        }
    }

    /// Renders every added module, for the reader's eye.
    #[verifier::loop_isolation(false)]
    pub fn render_modules(&self) -> (r: String)
        ensures
            r@ == Self::modules_text(self.modules_view()),
    {
        let mut r = String::new();
        let mut i: usize = 0;
        while i < self.modules.len()
            invariant
                i <= self.modules@.len(),
                r@ == Self::modules_text(self.modules_view().take(i as int)),
            decreases self.modules@.len() - i,
        {
            let (name, m) = &self.modules[i];
            let line = name.clone().concat(":").concat(m.to_text().as_str()).concat("\n");
            r = r.concat(line.as_str());
            proof {
                assert(self.modules_view().take(i + 1).drop_last() =~= self.modules_view().take(
                    i as int,
                ));
                assert(self.modules_view().take(i + 1).last() == self.modules_view()[i as int]);
                assert(self.modules_view()[i as int].1 == self.modules@[i as int].1@);
                assert(self.modules_view()[i as int].0 == self.modules@[i as int].0@);
            }
            i += 1;
        }
        proof {
            assert(self.modules_view().take(self.modules@.len() as int) =~= self.modules_view());
        }
        r
    }

    /// The value a cell currently holds, when the handle is in range.
    pub fn read_value(&self, cell: &RefDataObj) -> (r: Option<&DataObj>)
        ensures
            cell.idx < self.heap_view().len() ==> (r matches Some(d) && d@ == self.heap_view()[cell.idx as int]),
            cell.idx >= self.heap_view().len() ==> r is None,
    {
        if cell.idx < self.heap.len() {
            Some(self.heap.read(cell))
        } else {
            None
        }
    }

    /// Overwrites the cell a handle refers to, so that every binding that
    /// shares the cell observes the new value; says whether the handle was
    /// in range. A function value may only be written if its captured
    /// handles are in range too.
    pub fn write_value(&mut self, cell: &RefDataObj, d: DataObj) -> (r: bool)
        requires
            old(self).wf(),
            d@ is Func ==> func_ok(d@->Func_0, old(self).heap_view().len() as int),
        ensures
            final (self).wf(),
            final (self).stack_view() == old(self).stack_view(),
            final (self).modules_view() == old(self).modules_view(),
            cell.idx < old(self).heap_view().len() ==> r && final (self).heap_view() == old(
                self,
            ).heap_view().update(cell.idx as int, d@),
            cell.idx >= old(self).heap_view().len() ==> !r && final (self).heap_view() == old(
                self,
            ).heap_view(),
    {
        if cell.idx < self.heap.len() {
            let ghost h0 = self.heap@;
            self.heap.write(cell, d);
            proof {
                assert(heap_ok(self.heap@)) by {
                    assert forall|i: int|
                        0 <= i < self.heap@.len() && self.heap@[i] is Func implies func_ok(
                        (#[trigger] self.heap@[i])->Func_0,
                        self.heap@.len() as int,
                    ) by {
                        if i != cell.idx as int {
                            assert(self.heap@[i] == h0[i]);
                        }
                    }
                }
            }
            true
        } else {
            false
        }
    }
}

} // verus!
