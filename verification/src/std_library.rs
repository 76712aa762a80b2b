//! The value backend: the capability set the evaluator needs from its
//! runtime representations, and the basic backend built on the platform's
//! own types. Integer arithmetic wraps on overflow.

use vstd::prelude::*;

use crate::ast::Expr;
use crate::ast::FloatConst;
use crate::ast::FloatConstV;
use crate::data_obj::DataObj;
use crate::data_obj::DataObjV;
use crate::data_obj::FuncObj;
use crate::data_obj::RefDataObj;

verus! {

/// The integer capability: construction, arithmetic, and comparison into
/// the backend's boolean type.
pub trait IntType: Sized {
    type BOOL: BoolType;

    fn create(number: i32) -> Self;

    fn plus(&self, other: &Self) -> Self;

    fn minus(&self, other: &Self) -> Self;

    fn lt(&self, other: &Self) -> Self::BOOL;
}

/// The string capability: construction from text.
pub trait StringType: Sized {
    fn create(txt: String) -> Self;
}

/// The boolean capability: construction and truth-testing.
pub trait BoolType: Sized {
    fn create(value: bool) -> Self;

    fn is_true(&self) -> bool;
}

/// The empty-value capability: construction of the unit value.
pub trait EmptyType: Sized {
    fn create() -> Self;
}

/// Whether one machine integer is strictly below another.
pub open spec fn int_lt(a: i32, b: i32) -> bool {
    a < b
}

impl IntType for i32 {
    type BOOL = bool;

    fn create(number: i32) -> (r: Self)
        ensures
            r == number,
    {
        number
    }

    fn plus(&self, other: &Self) -> (r: Self)
        ensures
            r == self.wrapping_add(*other),
    {
        self.wrapping_add(*other)
    }

    fn minus(&self, other: &Self) -> (r: Self)
        ensures
            r == self.wrapping_sub(*other),
    {
        self.wrapping_sub(*other)
    }

    fn lt(&self, other: &Self) -> Self::BOOL {
        i32_lt(self, other)
    }
}

/// Strict comparison of two machine integers; what `IntType::lt` does for
/// `i32` (stating the contract on the trait impl itself would clash with
/// the standard library's comparison method of the same name).
pub fn i32_lt(a: &i32, b: &i32) -> (r: bool)
    ensures
        r == int_lt(*a, *b),
{
    *a < *b
}

impl StringType for String {
    fn create(txt: String) -> (r: Self)
        ensures
            r == txt,
    {
        txt
    }
}

impl BoolType for bool {
    fn create(value: bool) -> (r: Self)
        ensures
            r == value,
    {
        value
    }

    fn is_true(&self) -> (r: bool)
        ensures
            r == *self,
    {
        *self
    }
}

impl EmptyType for () {
    fn create() -> Self {
        ()
    }
}

/// The basic backend: integers as `i32`, strings as `String`, booleans as
/// `bool`, function values as `FuncObj`, the empty value as itself.
pub struct StdModBasic {}

impl StdModBasic {
    /// An integer value from a literal.
    pub fn int_create(v: i32) -> (r: DataObj)
        ensures
            r@ == DataObjV::Int(v),
    {
        DataObj::Int(<i32 as IntType>::create(v))
    }

    /// An integer value from the backend's representation.
    pub fn int_obj(v: i32) -> (r: DataObj)
        ensures
            r@ == DataObjV::Int(v),
    {
        DataObj::Int(v)
    }

    /// A decimal value from a literal.
    pub fn float_create(v: FloatConst) -> (r: DataObj)
        ensures
            r@ == DataObjV::Float(
                FloatConstV { negative: v.negative, whole: v.whole, fraction: v.fraction@ },
            ),
    {
        DataObj::Float(v)
    }

    /// A string value from text.
    pub fn string_create(txt: String) -> (r: DataObj)
        ensures
            r@ == DataObjV::String(txt@),
    {
        DataObj::String(<String as StringType>::create(txt))
    }

    /// A function value from its parts.
    pub fn func_create(expr: Expr, params: Vec<String>, closure: Vec<(String, RefDataObj)>) -> (r:
        DataObj)
        ensures
            ({
                &&& r@ matches DataObjV::Func(fo)
                &&& fo.expr == expr@
                &&& fo.params == Seq::new(params@.len(), |i: int| params@[i]@)
                &&& fo.closure == Seq::new(
                    closure@.len(),
                    |i: int| (closure@[i].0@, closure@[i].1.idx as int),
                )
            }),
    {
        DataObj::Func(FuncObj::create(expr, params, closure))
    }

    /// A function value from the backend's representation.
    pub fn func_obj(f: FuncObj) -> (r: DataObj)
        ensures
            r@ == DataObjV::Func(f@),
    {
        DataObj::Func(f)
    }

    /// A boolean value.
    pub fn bool_create(b: bool) -> (r: DataObj)
        ensures
            r@ == DataObjV::Bool(b),
    {
        DataObj::Bool(<bool as BoolType>::create(b))
    }

    /// A boolean value from the backend's representation.
    pub fn bool_obj(b: bool) -> (r: DataObj)
        ensures
            r@ == DataObjV::Bool(b),
    {
        DataObj::Bool(b)
    }

    /// The empty value.
    pub fn empty_create() -> (r: DataObj)
        ensures
            r@ == DataObjV::Empty,
    {
        DataObj::Empty
    }
}

} // verus!
