//! Runtime values and the cell arena. A value cell is shared by handle:
//! two bindings holding the same handle observe each other's writes,
//! which is the language's only aliasing channel.

use vstd::prelude::*;

use crate::ast::Expr;
use crate::ast::ExprV;
use crate::ast::FloatConst;
use crate::ast::FloatConstV;
use crate::ast::view_expr;

verus! {

broadcast use vstd::std_specs::vec::group_vec_axioms, vstd::seq::group_seq_axioms;

/// A handle to a shared value cell in a `Heap`.
#[derive(Clone, Copy, PartialEq, Eq, Structural)]
pub struct RefDataObj {
    pub idx: usize,
}

/// A runtime value: one of the backend's six capabilities.
pub enum DataObj {
    Int(i32),
    Float(FloatConst),
    String(String),
    Func(FuncObj),
    Bool(bool),
    Empty,
}

/// A function value: the body, the parameter names in order, and the
/// captured cells by name.
pub struct FuncObj {
    pub(crate) expr: Expr,
    pub(crate) params: Vec<String>,
    pub(crate) closure: Vec<(String, RefDataObj)>,
}

/// View of `DataObj`.
pub enum DataObjV {
    Int(i32),
    Float(FloatConstV),
    String(Seq<char>),
    Func(FuncObjV),
    Bool(bool),
    Empty,
}

/// View of `FuncObj`: the closure maps captured names to cell handles.
pub struct FuncObjV {
    pub expr: ExprV,
    pub params: Seq<Seq<char>>,
    pub closure: Seq<(Seq<char>, int)>,
}

pub closed spec fn view_func_obj(f: FuncObj) -> FuncObjV {
    FuncObjV {
        expr: view_expr(f.expr),
        params: Seq::new(f.params@.len(), |i: int| f.params@[i]@),
        closure: Seq::new(f.closure@.len(), |i: int| (f.closure@[i].0@, f.closure@[i].1.idx as int)),
    }
}

pub open spec fn view_data_obj(d: DataObj) -> DataObjV {
    match d {
        DataObj::Int(v) => DataObjV::Int(v),
        DataObj::Float(f) => DataObjV::Float(
            FloatConstV { negative: f.negative, whole: f.whole, fraction: f.fraction@ },
        ),
        DataObj::String(s) => DataObjV::String(s@),
        DataObj::Func(f) => DataObjV::Func(view_func_obj(f)),
        DataObj::Bool(b) => DataObjV::Bool(b),
        DataObj::Empty => DataObjV::Empty,
    }
}

impl View for DataObj {
    type V = DataObjV;

    open spec fn view(&self) -> DataObjV {
        view_data_obj(*self)
    }
}

impl View for FuncObj {
    type V = FuncObjV;

    open spec fn view(&self) -> FuncObjV {
        view_func_obj(*self)
    }
}

/// The tag of a value, for diagnostics.
pub open spec fn type_str_text(d: DataObjV) -> Seq<char> {
    match d {
        DataObjV::Int(_) => "INT"@,
        DataObjV::Float(_) => "FLOAT"@,
        DataObjV::String(_) => "STRING"@,
        DataObjV::Func(_) => "FUNC"@,
        DataObjV::Bool(_) => "BOOL"@,
        DataObjV::Empty => "EMPTY"@,
    }
}

fn clone_func_obj(f: &FuncObj) -> (r: FuncObj)
    ensures
        r@ == f@,
{
    let mut params: Vec<String> = Vec::new();
    let mut i: usize = 0;
    while i < f.params.len()
        invariant
            i <= f.params@.len(),
            params@.len() == i,
            forall|j: int| 0 <= j < i ==> params@[j]@ == f.params@[j]@,
        decreases f.params@.len() - i,
    {
        params.push(f.params[i].clone());
        i += 1;
    }
    let mut closure: Vec<(String, RefDataObj)> = Vec::new();
    let mut k: usize = 0;
    while k < f.closure.len()
        invariant
            k <= f.closure@.len(),
            closure@.len() == k,
            forall|j: int|
                0 <= j < k ==> closure@[j].0@ == f.closure@[j].0@ && closure@[j].1
                    == f.closure@[j].1,
        decreases f.closure@.len() - k,
    {
        let (name, h) = &f.closure[k];
        closure.push((name.clone(), *h));
        k += 1;
    }
    let r = FuncObj { expr: f.expr.clone(), params, closure };
    proof {
        assert(Seq::new(params@.len(), |i: int| params@[i]@) =~= Seq::new(
            f.params@.len(),
            |i: int| f.params@[i]@,
        ));
        assert(Seq::new(closure@.len(), |i: int| (closure@[i].0@, closure@[i].1.idx as int))
            =~= Seq::new(
            f.closure@.len(),
            |i: int| (f.closure@[i].0@, f.closure@[i].1.idx as int),
        ));
    }
    r
}

impl Clone for FuncObj {
    fn clone(&self) -> (r: Self)
        ensures
            r@ == self@,
    {
        clone_func_obj(self)
    }
}

impl Clone for DataObj {
    fn clone(&self) -> (r: Self)
        ensures
            r@ == self@,
    {
        match self {
            DataObj::Int(v) => DataObj::Int(*v),
            DataObj::Float(f) => DataObj::Float(
                FloatConst { negative: f.negative, whole: f.whole, fraction: f.fraction.clone() },
            ),
            DataObj::String(s) => DataObj::String(s.clone()),
            DataObj::Func(f) => DataObj::Func(clone_func_obj(f)),
            DataObj::Bool(b) => DataObj::Bool(*b),
            DataObj::Empty => DataObj::Empty,
        }
    }
}

impl DataObj {
    /// The tag of this value, for diagnostics.
    pub fn type_str(&self) -> (r: &'static str)
        ensures
            r@ == type_str_text(self@),
    {
        match self {
            DataObj::Int(_) => "INT",
            DataObj::Float(_) => "FLOAT",
            DataObj::String(_) => "STRING",
            DataObj::Func(_) => "FUNC",
            DataObj::Bool(_) => "BOOL",
            DataObj::Empty => "EMPTY",
        }
    }

    /// Moves this value into a fresh shared cell and hands back the handle.
    pub fn into_ref(self, heap: &mut Heap) -> (r: RefDataObj)
        ensures
            final (heap)@ == old(heap)@.push(self@),
            r.idx == old(heap)@.len(),
    {
        heap.allocate(self)
    }
}

pub(crate) proof fn lemma_func_obj_view(f: &FuncObj)
    ensures
        f@.expr == f.expr@,
        f@.params == Seq::new(f.params@.len(), |i: int| f.params@[i]@),
        f@.closure == Seq::new(f.closure@.len(), |i: int| (f.closure@[i].0@, f.closure@[i].1.idx as int)),
{
}

impl FuncObj {
    /// A function value from its body, its parameter names, and the cells
    /// it captures by name.
    pub fn create(expr: Expr, params: Vec<String>, closure: Vec<(String, RefDataObj)>) -> (r:
        FuncObj)
        ensures
            r@.expr == expr@,
            r@.params == Seq::new(params@.len(), |i: int| params@[i]@),
            r@.closure == Seq::new(
                closure@.len(),
                |i: int| (closure@[i].0@, closure@[i].1.idx as int),
            ),
    {
        FuncObj { expr, params, closure }
    }
}

/// The arena of shared value cells. A cell, once allocated, keeps its
/// handle forever; evaluation only appends cells, and writing through a
/// handle is the only way a cell changes.
pub struct Heap {
    cells: Vec<DataObj>,
}

impl View for Heap {
    type V = Seq<DataObjV>;

    closed spec fn view(&self) -> Seq<DataObjV> {
        Seq::new(self.cells@.len(), |i: int| view_data_obj(self.cells@[i]))
    }
}

impl Heap {
    /// An arena with no cells.
    pub fn new() -> (r: Self)
        ensures
            r@ == Seq::<DataObjV>::empty(),
    {
        let r = Heap { cells: Vec::new() };
        proof {
            assert(r@ =~= Seq::<DataObjV>::empty());
        }
        r
    }

    /// Allocates a fresh cell holding the value; its handle is the old
    /// cell count.
    pub fn allocate(&mut self, d: DataObj) -> (r: RefDataObj)
        ensures
            final (self)@ == old(self)@.push(d@),
            r.idx == old(self)@.len(),
    {
        let idx = self.cells.len();
        self.cells.push(d);
        proof {
            assert(self@ =~= old(self)@.push(d@));
        }
        RefDataObj { idx }
    }

    /// How many cells have been allocated.
    pub fn len(&self) -> (r: usize)
        ensures
            r == self@.len(),
    {
        self.cells.len()
    }

    /// The value a handle refers to.
    pub fn read(&self, h: &RefDataObj) -> (r: &DataObj)
        requires
            h.idx < self@.len(),
        ensures
            r@ == self@[h.idx as int],
    {
        &self.cells[h.idx]
    }

    /// Overwrites the cell a handle refers to; every holder of the same
    /// handle observes the new value.
    pub fn write(&mut self, h: &RefDataObj, d: DataObj)
        requires
            h.idx < old(self)@.len(),
        ensures
            final (self)@ == old(self)@.update(h.idx as int, d@),
    {
        self.cells[h.idx] = d;
        proof {
            assert(self@ =~= old(self)@.update(h.idx as int, d@));
        }
    }
}

} // verus!
