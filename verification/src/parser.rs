//! The recursive-descent parser. The grammar is stated once as spec
//! functions (`sp_*`), each taking the source characters and a position
//! and yielding the end position and the parsed shape, or nothing when
//! the alternative does not match; the executable parser is proved to
//! follow them exactly. Alternatives backtrack: a failed branch consumes
//! nothing.

use vstd::prelude::*;

use crate::ast::ConstantValue;
use crate::ast::ConstantValueV;
use crate::ast::FloatConst;
use crate::ast::FloatConstV;
use crate::text::is_ascii_alpha;
use crate::text::is_digit;
use crate::text::is_name_char;
use crate::text::is_space;
use crate::text::exec_is_ascii_alpha;
use crate::text::exec_is_digit;
use crate::text::exec_is_name_char;
use crate::text::exec_is_space;
use crate::text::string_range;

verus! {

broadcast use vstd::std_specs::vec::group_vec_axioms, vstd::seq::group_seq_axioms;

// ------------------------------------------------------------------
// Terminals
// ------------------------------------------------------------------

/// The first position at or after `i` that does not hold whitespace.
pub open spec fn skip_ws(s: Seq<char>, i: int) -> int
    decreases s.len() - i,
{
    if 0 <= i < s.len() && is_space(s[i]) {
        skip_ws(s, i + 1)
    } else {
        i
    }
}

pub proof fn lemma_skip_ws(s: Seq<char>, i: int)
    ensures
        skip_ws(s, i) >= i,
        i <= s.len() ==> skip_ws(s, i) <= s.len(),
    decreases s.len() - i,
{
    if 0 <= i < s.len() && is_space(s[i]) {
        lemma_skip_ws(s, i + 1);
    }
}

/// The first position at or after `i` that cannot continue a name.
pub open spec fn scan_name(s: Seq<char>, i: int) -> int
    decreases s.len() - i,
{
    if 0 <= i < s.len() && is_name_char(s[i]) {
        scan_name(s, i + 1)
    } else {
        i
    }
}

pub proof fn lemma_scan_name(s: Seq<char>, i: int)
    ensures
        scan_name(s, i) >= i,
        i <= s.len() ==> scan_name(s, i) <= s.len(),
    decreases s.len() - i,
{
    if 0 <= i < s.len() && is_name_char(s[i]) {
        lemma_scan_name(s, i + 1);
    }
}

/// The first position at or after `i` that does not hold a digit.
pub open spec fn scan_digits(s: Seq<char>, i: int) -> int
    decreases s.len() - i,
{
    if 0 <= i < s.len() && is_digit(s[i]) {
        scan_digits(s, i + 1)
    } else {
        i
    }
}

pub proof fn lemma_scan_digits(s: Seq<char>, i: int)
    ensures
        scan_digits(s, i) >= i,
        i <= s.len() ==> scan_digits(s, i) <= s.len(),
    decreases s.len() - i,
{
    if 0 <= i < s.len() && is_digit(s[i]) {
        lemma_scan_digits(s, i + 1);
    }
}

/// A name: after whitespace, a basic Latin letter or underscore must
/// come first, and the name is the longest run of name characters there.
pub open spec fn sp_name(s: Seq<char>, i: int) -> Option<(int, Seq<char>)> {
    let j = skip_ws(s, i);
    if j < s.len() && (is_ascii_alpha(s[j]) || s[j] == '_') {
        let e = scan_name(s, j);
        if e > j {
            Some((e, s.subrange(j, e)))
        } else {
            None
        }
    } else {
        None
    }
}

pub proof fn lemma_sp_name(s: Seq<char>, i: int)
    ensures
        sp_name(s, i) matches Some(r) ==> i < r.0 <= s.len(),
{
    lemma_skip_ws(s, i);
    lemma_scan_name(s, skip_ws(s, i));
}

/// An operator: `+`, `-` or `<` after whitespace.
pub open spec fn sp_operand(s: Seq<char>, i: int) -> Option<(int, crate::ast::Operand)> {
    let j = skip_ws(s, i);
    if j < s.len() && s[j] == '+' {
        Some((j + 1, crate::ast::Operand::Plus))
    } else if j < s.len() && s[j] == '-' {
        Some((j + 1, crate::ast::Operand::Minus))
    } else if j < s.len() && s[j] == '<' {
        Some((j + 1, crate::ast::Operand::Lt))
    } else {
        None
    }
}

pub proof fn lemma_sp_operand(s: Seq<char>, i: int)
    ensures
        sp_operand(s, i) matches Some(r) ==> i < r.0 <= s.len(),
{
    lemma_skip_ws(s, i);
}

/// A string literal: a quote, any characters none of which is a quote,
/// and a closing quote. There are no escapes.
pub open spec fn sp_string_constant(s: Seq<char>, i: int) -> Option<(int, ConstantValueV)> {
    if i < s.len() && s[i] == '"' {
        let e = scan_not_quote(s, i + 1);
        if e < s.len() && s[e] == '"' {
            Some((e + 1, ConstantValueV::String(s.subrange(i + 1, e))))
        } else {
            None
        }
    } else {
        None
    }
}

/// The first position at or after `i` that holds a quote.
pub open spec fn scan_not_quote(s: Seq<char>, i: int) -> int
    decreases s.len() - i,
{
    if 0 <= i < s.len() && s[i] != '"' {
        scan_not_quote(s, i + 1)
    } else {
        i
    }
}

/// The value of a digit character.
pub open spec fn digit_val(c: char) -> int {
    c as u32 - 48
}

/// The value of a run of digit characters, most significant first.
pub open spec fn digits_value(s: Seq<char>, from: int, to: int) -> int
    decreases to - from,
{
    if to <= from {
        0
    } else {
        digits_value(s, from, to - 1) * 10 + digit_val(s[to - 1])
    }
}

/// The largest value an integer literal may have.
pub open spec fn int_literal_max() -> int {
    0x7fffffff
}

/// A number: an optional minus sign, one or more digits whose value must
/// fit the integer range, and an optional fraction — a point followed by
/// one or more digits — which makes the literal a decimal. The sign
/// applies to the whole number.
pub open spec fn sp_number_constant(s: Seq<char>, i: int) -> Option<(int, ConstantValueV)> {
    let (neg, j) = if i < s.len() && s[i] == '-' {
        (true, i + 1)
    } else {
        (false, i)
    };
    let d = scan_digits(s, j);
    if d == j {
        None
    } else {
        let v = digits_value(s, j, d);
        if v > int_literal_max() {
            None
        } else {
            let whole = if neg {
                (-v) as i32
            } else {
                v as i32
            };
            if d + 1 < s.len() && s[d] == '.' && is_digit(s[d + 1]) {
                let f = scan_digits(s, d + 1);
                Some(
                    (
                        f,
                        ConstantValueV::Float(
                            FloatConstV {
                                negative: neg,
                                whole: if neg {
                                    (-v) as i32
                                } else {
                                    v as i32
                                },
                                fraction: s.subrange(d + 1, f),
                            },
                        ),
                    ),
                )
            } else {
                Some((d, ConstantValueV::Integer(whole)))
            }
        }
    }
}

/// A constant: after whitespace, a string literal or a number.
pub open spec fn sp_constant_value(s: Seq<char>, i: int) -> Option<(int, ConstantValueV)> {
    let j = skip_ws(s, i);
    match sp_string_constant(s, j) {
        Some(r) => Some(r),
        None => sp_number_constant(s, j),
    }
}

// ------------------------------------------------------------------
// Executable terminals
// ------------------------------------------------------------------

fn exec_skip_ws(v: &Vec<char>, i: usize) -> (r: usize)
    requires
        i <= v@.len(),
    ensures
        r == skip_ws(v@, i as int),
        i <= r <= v@.len(),
    decreases v@.len() - i,
{
    if i < v.len() && exec_is_space(v[i]) {
        exec_skip_ws(v, i + 1)
    } else {
        i
    }
}

fn exec_scan_name(v: &Vec<char>, i: usize) -> (r: usize)
    requires
        i <= v@.len(),
    ensures
        r == scan_name(v@, i as int),
        i <= r <= v@.len(),
    decreases v@.len() - i,
{
    if i < v.len() && exec_is_name_char(v[i]) {
        exec_scan_name(v, i + 1)
    } else {
        i
    }
}

fn exec_scan_digits(v: &Vec<char>, i: usize) -> (r: usize)
    requires
        i <= v@.len(),
    ensures
        r == scan_digits(v@, i as int),
        i <= r <= v@.len(),
    decreases v@.len() - i,
{
    if i < v.len() && exec_is_digit(v[i]) {
        exec_scan_digits(v, i + 1)
    } else {
        i
    }
}

fn exec_scan_not_quote(v: &Vec<char>, i: usize) -> (r: usize)
    requires
        i <= v@.len(),
    ensures
        r == scan_not_quote(v@, i as int),
        i <= r <= v@.len(),
    decreases v@.len() - i,
{
    if i < v.len() && v[i] != '"' {
        exec_scan_not_quote(v, i + 1)
    } else {
        i
    }
}

pub(crate) fn parse_name(v: &Vec<char>, i: usize) -> (r: Option<(usize, String)>)
    requires
        i <= v@.len(),
    ensures
        match sp_name(v@, i as int) {
            Some(sr) => r matches Some(rr) && rr.0 == sr.0 && rr.1@ == sr.1 && i < rr.0
                <= v@.len(),
            None => r is None,
        },
{
    let j = exec_skip_ws(v, i);
    if j < v.len() && (exec_is_ascii_alpha(v[j]) || v[j] == '_') {
        let e = exec_scan_name(v, j);
        if e > j {
            Some((e, string_range(v, j, e)))
        } else {
            None
        }
    } else {
        None
    }
}

fn parse_operand(v: &Vec<char>, i: usize) -> (r: Option<(usize, crate::ast::Operand)>)
    requires
        i <= v@.len(),
    ensures
        match sp_operand(v@, i as int) {
            Some(sr) => r matches Some(rr) && rr.0 == sr.0 && rr.1 == sr.1 && i < rr.0 <= v@.len(),
            None => r is None,
        },
{
    let j = exec_skip_ws(v, i);
    if j < v.len() && v[j] == '+' {
        Some((j + 1, crate::ast::Operand::Plus))
    } else if j < v.len() && v[j] == '-' {
        Some((j + 1, crate::ast::Operand::Minus))
    } else if j < v.len() && v[j] == '<' {
        Some((j + 1, crate::ast::Operand::Lt))
    } else {
        None
    }
}

fn parse_string_constant(v: &Vec<char>, i: usize) -> (r: Option<(usize, ConstantValue)>)
    requires
        i <= v@.len(),
    ensures
        match sp_string_constant(v@, i as int) {
            Some(sr) => r matches Some(rr) && rr.0 == sr.0 && rr.1@ == sr.1 && i < rr.0
                <= v@.len(),
            None => r is None,
        },
{
    if i < v.len() && v[i] == '"' {
        let e = exec_scan_not_quote(v, i + 1);
        if e < v.len() && v[e] == '"' {
            Some((e + 1, ConstantValue::String(string_range(v, i + 1, e))))
        } else {
            None
        }
    } else {
        None
    }
}

fn parse_number_constant(v: &Vec<char>, i: usize) -> (r: Option<(usize, ConstantValue)>)
    requires
        i <= v@.len(),
    ensures
        match sp_number_constant(v@, i as int) {
            Some(sr) => r matches Some(rr) && rr.0 == sr.0 && rr.1@ == sr.1 && i < rr.0
                <= v@.len(),
            None => r is None,
        },
{
    let (neg, j) = if i < v.len() && v[i] == '-' {
        (true, i + 1)
    } else {
        (false, i)
    };
    let d = exec_scan_digits(v, j);
    if d == j {
        return None;
    }
    let mut acc: u64 = 0;
    let mut too_big = false;
    let mut k = j;
    while k < d
        invariant
            j <= k <= d <= v@.len(),
            d == scan_digits(v@, j as int),
            too_big == (digits_value(v@, j as int, k as int) > int_literal_max()),
            !too_big ==> acc == digits_value(v@, j as int, k as int),
            acc <= 0x7fffffff,
        decreases d - k,
    {
        proof {
            lemma_scan_digits_all(v@, j as int, d as int);
        }
        let dv = (v[k] as u32) - 48;
        if too_big {
            proof {
                assert(digits_value(v@, j as int, k + 1 as int) == digits_value(
                    v@,
                    j as int,
                    k as int,
                ) * 10 + digit_val(v@[k as int]));
                assert(digits_value(v@, j as int, k as int) * 10 >= digits_value(
                    v@,
                    j as int,
                    k as int,
                ));
            }
        } else {
            let next = acc * 10 + (dv as u64);
            if next > 0x7fffffff {
                too_big = true;
            } else {
                acc = next;
            }
            proof {
                assert(digits_value(v@, j as int, k + 1 as int) == digits_value(
                    v@,
                    j as int,
                    k as int,
                ) * 10 + digit_val(v@[k as int]));
            }
        }
        k += 1;
    }
    if too_big {
        return None;
    }
    let whole: i32 = if neg {
        -(acc as i32)
    } else {
        acc as i32
    };
    if d < v.len() && d + 1 < v.len() && v[d] == '.' && exec_is_digit(v[d + 1]) {
        let f = exec_scan_digits(v, d + 1);
        Some(
            (
                f,
                ConstantValue::Float(
                    FloatConst { negative: neg, whole, fraction: string_range(v, d + 1, f) },
                ),
            ),
        )
    } else {
        Some((d, ConstantValue::Integer(whole)))
    }
}

/// Every position of a scanned digit run holds a digit.
proof fn lemma_scan_digits_all(s: Seq<char>, from: int, to: int)
    requires
        0 <= from,
        to == scan_digits(s, from),
    ensures
        forall|k: int| from <= k < to ==> is_digit(s[k]) && 0 <= digit_val(s[k]) <= 9,
    decreases to - from,
{
    if 0 <= from < s.len() && is_digit(s[from]) && to > from {
        lemma_scan_digits_all(s, from + 1, to);
    }
}

fn parse_constant_value(v: &Vec<char>, i: usize) -> (r: Option<(usize, ConstantValue)>)
    requires
        i <= v@.len(),
    ensures
        match sp_constant_value(v@, i as int) {
            Some(sr) => r matches Some(rr) && rr.0 == sr.0 && rr.1@ == sr.1 && i < rr.0
                <= v@.len(),
            None => r is None,
        },
{
    let j = exec_skip_ws(v, i);
    match parse_string_constant(v, j) {
        Some(r) => Some(r),
        None => parse_number_constant(v, j),
    }
}

// ------------------------------------------------------------------
// Types
// ------------------------------------------------------------------

/// A type: after whitespace, a name — a nominal type — or a function type
/// or a tuple type, tried in that order.
pub open spec fn sp_type_info(s: Seq<char>, i: int) -> Option<(int, crate::ast::TypeInfoV)>
    decreases s.len() - i, 2int,
{
    let a = skip_ws(s, i);
    proof {
        lemma_skip_ws(s, i);
    }
    if i <= s.len() {
        match sp_name(s, a) {
            Some((e, nm)) => Some((e, crate::ast::TypeInfoV::Struct(nm))),
            None => match sp_func_type(s, a) {
                Some(r) => Some(r),
                None => sp_tuple_type(s, a),
            },
        }
    } else {
        None
    }
}

/// A function type: `<` parameter types `>` `:` return type.
pub open spec fn sp_func_type(s: Seq<char>, i: int) -> Option<(int, crate::ast::TypeInfoV)>
    decreases s.len() - i, 1int,
{
    if 0 <= i && i < s.len() && s[i] == '<' {
        let (e, params) = sp_vt_list(s, i + 1);
        if i + 1 <= e && e < s.len() && s[e] == '>' {
            let c = skip_ws(s, e + 1);
            proof {
                lemma_skip_ws(s, e + 1);
            }
            if c < s.len() && s[c] == ':' {
                match sp_variable_type(s, c + 1) {
                    Some((r, rt)) => Some(
                        (
                            r,
                            crate::ast::TypeInfoV::Function(
                                crate::ast::FuncTypeV { params, return_type: Box::new(rt) },
                            ),
                        ),
                    ),
                    None => None,
                }
            } else {
                None
            }
        } else {
            None
        }
    } else {
        None
    }
}

/// A tuple type: `(` member types `)`.
pub open spec fn sp_tuple_type(s: Seq<char>, i: int) -> Option<(int, crate::ast::TypeInfoV)>
    decreases s.len() - i, 1int,
{
    if 0 <= i && i < s.len() && s[i] == '(' {
        let (e, items) = sp_ti_list(s, i + 1);
        if i + 1 <= e && e < s.len() && s[e] == ')' {
            Some((e + 1, crate::ast::TypeInfoV::Tuple(items)))
        } else {
            None
        }
    } else {
        None
    }
}

/// A binding type: an optional `mut ` then a type.
pub open spec fn sp_variable_type(s: Seq<char>, i: int) -> Option<(int, crate::ast::VariableTypeV)>
    decreases s.len() - i, 3int,
{
    let a = skip_ws(s, i);
    proof {
        lemma_skip_ws(s, i);
    }
    if 0 <= i && i <= s.len() {
        let (mutable, b) = if a + 4 <= s.len() && s[a] == 'm' && s[a + 1] == 'u' && s[a + 2] == 't'
            && s[a + 3] == ' ' {
            (true, a + 4)
        } else {
            (false, a)
        };
        match sp_type_info(s, b) {
            Some((e, ti)) => Some((e, crate::ast::VariableTypeV { mutable, info: ti })),
            None => None,
        }
    } else {
        None
    }
}

/// A comma-separated list of binding types, each with surrounding
/// whitespace; possibly empty, consuming nothing when empty.
pub open spec fn sp_vt_list(s: Seq<char>, i: int) -> (int, Seq<crate::ast::VariableTypeV>)
    decreases s.len() - i, 4int,
{
    if 0 <= i <= s.len() {
        match sp_variable_type(s, i) {
            None => (i, Seq::empty()),
            Some((j, vt)) => {
                if i < j <= s.len() {
                    let w = skip_ws(s, j);
                    proof {
                        lemma_skip_ws(s, j);
                    }
                    sp_vt_list_tail(s, w, seq![vt])
                } else {
                    (i, Seq::empty())
                }
            },
        }
    } else {
        (i, Seq::empty())
    }
}

/// The remaining `, element` parts of a binding-type list; a comma not
/// followed by an element is left unconsumed.
pub open spec fn sp_vt_list_tail(s: Seq<char>, i: int, acc: Seq<crate::ast::VariableTypeV>) -> (
    int,
    Seq<crate::ast::VariableTypeV>,
)
    decreases s.len() - i, 5int,
{
    if 0 <= i && i < s.len() && s[i] == ',' {
        match sp_variable_type(s, i + 1) {
            None => (i, acc),
            Some((j, vt)) => {
                if i + 1 <= j <= s.len() {
                    let w = skip_ws(s, j);
                    proof {
                        lemma_skip_ws(s, j);
                    }
                    sp_vt_list_tail(s, w, acc.push(vt))
                } else {
                    (i, acc)
                }
            },
        }
    } else {
        (i, acc)
    }
}

/// A comma-separated list of types, each with surrounding whitespace;
/// possibly empty, consuming nothing when empty.
pub open spec fn sp_ti_list(s: Seq<char>, i: int) -> (int, Seq<crate::ast::TypeInfoV>)
    decreases s.len() - i, 4int,
{
    if 0 <= i <= s.len() {
        let a = skip_ws(s, i);
        proof {
            lemma_skip_ws(s, i);
        }
        match sp_type_info(s, a) {
            None => (i, Seq::empty()),
            Some((j, ti)) => {
                if a <= j <= s.len() && i < j {
                    let w = skip_ws(s, j);
                    proof {
                        lemma_skip_ws(s, j);
                    }
                    sp_ti_list_tail(s, w, seq![ti])
                } else {
                    (i, Seq::empty())
                }
            },
        }
    } else {
        (i, Seq::empty())
    }
}

/// The remaining `, element` parts of a type list.
pub open spec fn sp_ti_list_tail(s: Seq<char>, i: int, acc: Seq<crate::ast::TypeInfoV>) -> (
    int,
    Seq<crate::ast::TypeInfoV>,
)
    decreases s.len() - i, 5int,
{
    if 0 <= i && i < s.len() && s[i] == ',' {
        let a = skip_ws(s, i + 1);
        proof {
            lemma_skip_ws(s, i + 1);
        }
        match sp_type_info(s, a) {
            None => (i, acc),
            Some((j, ti)) => {
                if a <= j <= s.len() && i < j {
                    let w = skip_ws(s, j);
                    proof {
                        lemma_skip_ws(s, j);
                    }
                    sp_ti_list_tail(s, w, acc.push(ti))
                } else {
                    (i, acc)
                }
            },
        }
    } else {
        (i, acc)
    }
}

// ------------------------------------------------------------------
// Expressions
// ------------------------------------------------------------------

/// An expression: a partial expression, any number of
/// `operator partial-expression` pairs, and an optional trailing
/// semicolon.
pub open spec fn sp_expr(s: Seq<char>, i: int) -> Option<(int, crate::ast::ExprV)>
    decreases s.len() - i, 3int,
{
    let a = skip_ws(s, i);
    proof {
        lemma_skip_ws(s, i);
    }
    if 0 <= i <= s.len() {
        match sp_partial(s, a) {
            None => None,
            Some((j, p)) => {
                if a < j <= s.len() {
                    let (k, pairs) = sp_expr_tail(s, j, Seq::empty());
                    if j <= k <= s.len() {
                        let m = skip_ws(s, k);
                        proof {
                            lemma_skip_ws(s, k);
                        }
                        let end = if m < s.len() && s[m] == ';' {
                            m + 1
                        } else {
                            k
                        };
                        Some(
                            (
                                end,
                                crate::ast::ExprV {
                                    exprs: seq![p].add(
                                        Seq::new(pairs.len(), |t: int| pairs[t].1),
                                    ),
                                    operands: Seq::new(pairs.len(), |t: int| pairs[t].0),
                                },
                            ),
                        )
                    } else {
                        None
                    }
                } else {
                    None
                }
            },
        }
    } else {
        None
    }
}

/// The remaining `operator partial-expression` pairs of a chain; an
/// operator not followed by a partial expression is left unconsumed.
pub open spec fn sp_expr_tail(
    s: Seq<char>,
    i: int,
    acc: Seq<(crate::ast::Operand, crate::ast::PartialExprV)>,
) -> (int, Seq<(crate::ast::Operand, crate::ast::PartialExprV)>)
    decreases s.len() - i, 4int,
{
    match sp_operand(s, i) {
        None => (i, acc),
        Some((j, op)) => {
            proof {
                lemma_sp_operand(s, i);
            }
            if i < j <= s.len() {
                match sp_partial(s, j) {
                    None => (i, acc),
                    Some((k, pe)) => {
                        if j < k <= s.len() {
                            sp_expr_tail(s, k, acc.push((op, pe)))
                        } else {
                            (i, acc)
                        }
                    },
                }
            } else {
                (i, acc)
            }
        },
    }
}

/// One partial expression: an `if`, a call, a lambda, a tuple, or a name
/// or constant — tried in that order.
pub open spec fn sp_partial(s: Seq<char>, i: int) -> Option<(int, crate::ast::PartialExprV)>
    decreases s.len() - i, 2int,
{
    match sp_if(s, i) {
        Some(r) => Some(r),
        None => match sp_func_call(s, i) {
            Some(r) => Some(r),
            None => match sp_lambda(s, i) {
                Some(r) => Some(r),
                None => match sp_tuple(s, i) {
                    Some(r) => Some(r),
                    None => sp_variable(s, i),
                },
            },
        },
    }
}

/// An `if`: the keyword, the condition, the main branch, and an optional
/// `else` branch.
pub open spec fn sp_if(s: Seq<char>, i: int) -> Option<(int, crate::ast::PartialExprV)>
    decreases s.len() - i, 1int,
{
    let c = skip_ws(s, i);
    proof {
        lemma_skip_ws(s, i);
    }
    if 0 <= i <= s.len() && c + 2 <= s.len() && s[c] == 'i' && s[c + 1] == 'f' {
        match sp_expr(s, c + 2) {
            None => None,
            Some((ce, cond)) => {
                if c + 2 <= ce <= s.len() {
                    match sp_expr(s, ce) {
                        None => None,
                        Some((me, mainb)) => {
                            if ce <= me <= s.len() {
                                let e0 = skip_ws(s, me);
                                proof {
                                    lemma_skip_ws(s, me);
                                }
                                if e0 + 4 <= s.len() && s[e0] == 'e' && s[e0 + 1] == 'l' && s[e0
                                    + 2] == 's' && s[e0 + 3] == 'e' {
                                    match sp_expr(s, e0 + 4) {
                                        Some((ee, eb)) => Some(
                                            (
                                                ee,
                                                crate::ast::PartialExprV::If(
                                                    crate::ast::IfExprV {
                                                        cond_expr: Box::new(cond),
                                                        main_branch: Box::new(mainb),
                                                        else_branch: Some(Box::new(eb)),
                                                    },
                                                ),
                                            ),
                                        ),
                                        None => Some(
                                            (
                                                me,
                                                crate::ast::PartialExprV::If(
                                                    crate::ast::IfExprV {
                                                        cond_expr: Box::new(cond),
                                                        main_branch: Box::new(mainb),
                                                        else_branch: None,
                                                    },
                                                ),
                                            ),
                                        ),
                                    }
                                } else {
                                    Some(
                                        (
                                            me,
                                            crate::ast::PartialExprV::If(
                                                crate::ast::IfExprV {
                                                    cond_expr: Box::new(cond),
                                                    main_branch: Box::new(mainb),
                                                    else_branch: None,
                                                },
                                            ),
                                        ),
                                    )
                                }
                            } else {
                                None
                            }
                        },
                    }
                } else {
                    None
                }
            },
        }
    } else {
        None
    }
}

/// A call: a name, immediately an opening parenthesis, the arguments, and
/// a closing parenthesis.
pub open spec fn sp_func_call(s: Seq<char>, i: int) -> Option<(int, crate::ast::PartialExprV)>
    decreases s.len() - i, 1int,
{
    proof {
        lemma_sp_name(s, i);
    }
    match sp_name(s, i) {
        None => None,
        Some((d, nm)) => {
            if d < s.len() && s[d] == '(' {
                let (e, params) = sp_expr_list(s, d + 1);
                if d + 1 <= e && e < s.len() && s[e] == ')' {
                    Some(
                        (
                            e + 1,
                            crate::ast::PartialExprV::FunctionCall(
                                crate::ast::FunctionCallExprV { name: nm, params },
                            ),
                        ),
                    )
                } else {
                    None
                }
            } else {
                None
            }
        },
    }
}

/// A comma-separated list of expressions, each with surrounding
/// whitespace; possibly empty, consuming nothing when empty.
pub open spec fn sp_expr_list(s: Seq<char>, i: int) -> (int, Seq<crate::ast::ExprV>)
    decreases s.len() - i, 4int,
{
    if 0 <= i <= s.len() {
        let e = skip_ws(s, i);
        proof {
            lemma_skip_ws(s, i);
        }
        match sp_expr(s, e) {
            None => (i, Seq::empty()),
            Some((j, ex)) => {
                if e < j <= s.len() {
                    let w = skip_ws(s, j);
                    proof {
                        lemma_skip_ws(s, j);
                    }
                    sp_expr_list_tail(s, w, seq![ex])
                } else {
                    (i, Seq::empty())
                }
            },
        }
    } else {
        (i, Seq::empty())
    }
}

/// The remaining `, expression` parts of an expression list; a comma not
/// followed by an expression is left unconsumed.
pub open spec fn sp_expr_list_tail(s: Seq<char>, i: int, acc: Seq<crate::ast::ExprV>) -> (
    int,
    Seq<crate::ast::ExprV>,
)
    decreases s.len() - i, 5int,
{
    if 0 <= i && i < s.len() && s[i] == ',' {
        let e = skip_ws(s, i + 1);
        proof {
            lemma_skip_ws(s, i + 1);
        }
        match sp_expr(s, e) {
            None => (i, acc),
            Some((j, ex)) => {
                if e < j <= s.len() {
                    let w = skip_ws(s, j);
                    proof {
                        lemma_skip_ws(s, j);
                    }
                    sp_expr_list_tail(s, w, acc.push(ex))
                } else {
                    (i, acc)
                }
            },
        }
    } else {
        (i, acc)
    }
}

/// One lambda parameter: a name, immediately a colon, and a binding type.
pub open spec fn sp_param(s: Seq<char>, i: int) -> Option<
    (int, (Seq<char>, crate::ast::VariableTypeV)),
> {
    match sp_name(s, i) {
        None => None,
        Some((n_end, nm)) => {
            if n_end < s.len() && s[n_end] == ':' {
                match sp_variable_type(s, n_end + 1) {
                    None => None,
                    Some((ve, vt)) => {
                        if n_end + 1 <= ve <= s.len() {
                            Some((ve, (nm, vt)))
                        } else {
                            None
                        }
                    },
                }
            } else {
                None
            }
        },
    }
}

/// A comma-separated list of lambda parameters; possibly empty.
pub open spec fn sp_param_list(s: Seq<char>, i: int) -> (
    int,
    Seq<(Seq<char>, crate::ast::VariableTypeV)>,
)
    decreases s.len() - i, 1int,
{
    if 0 <= i <= s.len() {
        let p = skip_ws(s, i);
        match sp_param(s, p) {
            None => (i, Seq::empty()),
            Some((j, pr)) => {
                if p < j <= s.len() {
                    let w = skip_ws(s, j);
                    sp_param_list_tail(s, w, seq![pr])
                } else {
                    (i, Seq::empty())
                }
            },
        }
    } else {
        (i, Seq::empty())
    }
}

/// The remaining `, parameter` parts of a parameter list.
pub open spec fn sp_param_list_tail(
    s: Seq<char>,
    i: int,
    acc: Seq<(Seq<char>, crate::ast::VariableTypeV)>,
) -> (int, Seq<(Seq<char>, crate::ast::VariableTypeV)>)
    decreases s.len() - i, 2int,
{
    if 0 <= i && i < s.len() && s[i] == ',' {
        let p = skip_ws(s, i + 1);
        proof {
            lemma_skip_ws(s, i + 1);
        }
        match sp_param(s, p) {
            None => (i, acc),
            Some((j, pr)) => {
                if p < j <= s.len() {
                    let w = skip_ws(s, j);
                    proof {
                        lemma_skip_ws(s, j);
                    }
                    sp_param_list_tail(s, w, acc.push(pr))
                } else {
                    (i, acc)
                }
            },
        }
    } else {
        (i, acc)
    }
}

/// One declared capture: an optional `mut ` request and a name.
pub open spec fn sp_closure_item(s: Seq<char>, i: int) -> Option<(int, (Seq<char>, bool))> {
    let e = skip_ws(s, i);
    let (mutable, e2) = if e + 4 <= s.len() && s[e] == 'm' && s[e + 1] == 'u' && s[e + 2] == 't'
        && s[e + 3] == ' ' {
        (true, e + 4)
    } else {
        (false, e)
    };
    match sp_name(s, e2) {
        None => None,
        Some((ne, nm)) => Some((ne, (nm, mutable))),
    }
}

/// A comma-separated list of declared captures; possibly empty.
pub open spec fn sp_closure_list(s: Seq<char>, i: int) -> (int, Seq<(Seq<char>, bool)>)
    decreases s.len() - i, 1int,
{
    if 0 <= i <= s.len() {
        match sp_closure_item(s, i) {
            None => (i, Seq::empty()),
            Some((j, it)) => {
                if i < j <= s.len() {
                    let w = skip_ws(s, j);
                    sp_closure_list_tail(s, w, seq![it])
                } else {
                    (i, Seq::empty())
                }
            },
        }
    } else {
        (i, Seq::empty())
    }
}

/// The remaining `, capture` parts of a capture list.
pub open spec fn sp_closure_list_tail(s: Seq<char>, i: int, acc: Seq<(Seq<char>, bool)>) -> (
    int,
    Seq<(Seq<char>, bool)>,
)
    decreases s.len() - i, 2int,
{
    if 0 <= i && i < s.len() && s[i] == ',' {
        match sp_closure_item(s, i + 1) {
            None => (i, acc),
            Some((j, it)) => {
                if i + 1 <= j <= s.len() {
                    let w = skip_ws(s, j);
                    proof {
                        lemma_skip_ws(s, j);
                    }
                    sp_closure_list_tail(s, w, acc.push(it))
                } else {
                    (i, acc)
                }
            },
        }
    } else {
        (i, acc)
    }
}

/// A lambda: `<` parameters `>`, an optional `<` captures `>`, `:`, the
/// declared return type, `->`, and the body.
pub open spec fn sp_lambda(s: Seq<char>, i: int) -> Option<(int, crate::ast::PartialExprV)>
    decreases s.len() - i, 1int,
{
    let a = skip_ws(s, i);
    proof {
        lemma_skip_ws(s, i);
    }
    if 0 <= i <= s.len() && a < s.len() && s[a] == '<' {
        let (p_end, parameters) = sp_param_list(s, a + 1);
        if a + 1 <= p_end && p_end < s.len() && s[p_end] == '>' {
            let b = p_end + 1;
            let c0 = skip_ws(s, b);
            proof {
                lemma_skip_ws(s, b);
            }
            let (c1, closure) = if c0 < s.len() && s[c0] == '<' {
                let (ce, cl) = sp_closure_list(s, c0 + 1);
                if c0 + 1 <= ce && ce < s.len() && s[ce] == '>' {
                    (ce + 1, cl)
                } else {
                    (c0, Seq::<(Seq<char>, bool)>::empty())
                }
            } else {
                (c0, Seq::<(Seq<char>, bool)>::empty())
            };
            if c0 <= c1 <= s.len() {
                let r0 = skip_ws(s, c1);
                proof {
                    lemma_skip_ws(s, c1);
                }
                if r0 < s.len() && s[r0] == ':' {
                    match sp_variable_type(s, r0 + 1) {
                        None => None,
                        Some((r1, rt)) => {
                            if r0 + 1 <= r1 <= s.len() {
                                let a2 = skip_ws(s, r1);
                                proof {
                                    lemma_skip_ws(s, r1);
                                }
                                if a2 + 2 <= s.len() && s[a2] == '-' && s[a2 + 1] == '>' {
                                    match sp_expr(s, a2 + 2) {
                                        None => None,
                                        Some((b1, body)) => Some(
                                            (
                                                b1,
                                                crate::ast::PartialExprV::Lambda(
                                                    crate::ast::FunctionDefV {
                                                        parameters,
                                                        closure,
                                                        return_type: rt,
                                                        expr: Box::new(body),
                                                    },
                                                ),
                                            ),
                                        ),
                                    }
                                } else {
                                    None
                                }
                            } else {
                                None
                            }
                        },
                    }
                } else {
                    None
                }
            } else {
                None
            }
        } else {
            None
        }
    } else {
        None
    }
}

/// A tuple: `(` expressions `)`.
pub open spec fn sp_tuple(s: Seq<char>, i: int) -> Option<(int, crate::ast::PartialExprV)>
    decreases s.len() - i, 1int,
{
    let a = skip_ws(s, i);
    proof {
        lemma_skip_ws(s, i);
    }
    if 0 <= i <= s.len() && a < s.len() && s[a] == '(' {
        let (e, items) = sp_expr_list(s, a + 1);
        if a + 1 <= e && e < s.len() && s[e] == ')' {
            Some((e + 1, crate::ast::PartialExprV::Tuple(crate::ast::TupleDefV { items })))
        } else {
            None
        }
    } else {
        None
    }
}

/// A name reference, or — when no name starts here — a constant.
pub open spec fn sp_variable(s: Seq<char>, i: int) -> Option<(int, crate::ast::PartialExprV)>
    decreases s.len() - i, 1int,
{
    let v = skip_ws(s, i);
    match sp_name(s, v) {
        Some((e, nm)) => Some(
            (
                e,
                crate::ast::PartialExprV::Variable(crate::ast::VariableExprV::Variable(nm)),
            ),
        ),
        None => match sp_constant_value(s, v) {
            Some((e, c)) => Some(
                (
                    e,
                    crate::ast::PartialExprV::Variable(crate::ast::VariableExprV::Constant(c)),
                ),
            ),
            None => None,
        },
    }
}

// ------------------------------------------------------------------
// Definitions and modules
// ------------------------------------------------------------------

/// A variable definition: `let`, whitespace, an optional `mut `, the
/// name, an optional `: type` annotation — which may itself ask for
/// mutability — `=`, and the initializing expression (which consumes an
/// optional trailing semicolon).
pub open spec fn sp_variable_def(s: Seq<char>, i: int) -> Option<(int, crate::ast::VariableNameV)> {
    let a = skip_ws(s, i);
    if 0 <= i <= s.len() && a + 3 <= s.len() && s[a] == 'l' && s[a + 1] == 'e' && s[a + 2] == 't'
        && a + 3 < s.len() && is_space(s[a + 3]) {
        let c = skip_ws(s, a + 3);
        let (mutable, c2) = if c + 4 <= s.len() && s[c] == 'm' && s[c + 1] == 'u' && s[c + 2] == 't'
            && s[c + 3] == ' ' {
            (true, c + 4)
        } else {
            (false, c)
        };
        match sp_name(s, c2) {
            None => None,
            Some((d, nm)) => {
                if d <= s.len() {
                    let e = skip_ws(s, d);
                    let ann = if e < s.len() && s[e] == ':' {
                        match sp_variable_type(s, e + 1) {
                            Some((f, vt)) => if e + 1 <= f <= s.len() {
                                Some((f, vt))
                            } else {
                                None
                            },
                            None => None,
                        }
                    } else {
                        None
                    };
                    let (g, ann_mutable, info) = match ann {
                        Some((f, vt)) => (f, vt.mutable, vt.info),
                        None => (d, false, crate::ast::TypeInfoV::Unknown),
                    };
                    let h = skip_ws(s, g);
                    if h < s.len() && s[h] == '=' {
                        match sp_expr(s, h + 1) {
                            None => None,
                            Some((k, ex)) => Some(
                                (
                                    k,
                                    crate::ast::VariableNameV {
                                        name: nm,
                                        variable: crate::ast::VariableDefV {
                                            value: ex,
                                            v_type: crate::ast::VariableTypeV {
                                                mutable: mutable || ann_mutable,
                                                info,
                                            },
                                        },
                                    },
                                ),
                            ),
                        }
                    } else {
                        None
                    }
                } else {
                    None
                }
            },
        }
    } else {
        None
    }
}

/// The definitions of a module, one after another, until none matches.
pub open spec fn sp_def_list(s: Seq<char>, i: int, acc: Seq<crate::ast::VariableNameV>) -> (
    int,
    Seq<crate::ast::VariableNameV>,
)
    decreases s.len() - i,
{
    match sp_variable_def(s, i) {
        None => (i, acc),
        Some((j, v)) => {
            if i < j <= s.len() {
                sp_def_list(s, j, acc.push(v))
            } else {
                (i, acc)
            }
        },
    }
}

/// A module: its definitions and any trailing whitespace; the result is
/// the position parsing stopped at and the module, so a caller can see
/// whether the whole source was consumed.
pub open spec fn sp_module(s: Seq<char>) -> (int, crate::ast::ModuleV) {
    let (j, defs) = sp_def_list(s, 0, Seq::empty());
    let e = skip_ws(s, j);
    (e, crate::ast::ModuleV { variables: defs })
}

// ------------------------------------------------------------------
// Executable type parsers
// ------------------------------------------------------------------

pub(crate) fn parse_type_info(v: &Vec<char>, i: usize) -> (r: Option<(usize, crate::ast::TypeInfo)>)
    requires
        i <= v@.len(),
    ensures
        match sp_type_info(v@, i as int) {
            Some(sr) => r matches Some(rr) && rr.0 == sr.0 && rr.1@ == sr.1 && i < rr.0
                <= v@.len(),
            None => r is None,
        },
    decreases v@.len() - i, 2int,
{
    let a = exec_skip_ws(v, i);
    match parse_name(v, a) {
        Some((e, nm)) => Some((e, crate::ast::TypeInfo::Struct(nm))),
        None => match parse_func_type(v, a) {
            Some(r) => Some(r),
            None => parse_tuple_type(v, a),
        },
    }
}

fn parse_func_type(v: &Vec<char>, i: usize) -> (r: Option<(usize, crate::ast::TypeInfo)>)
    requires
        i <= v@.len(),
    ensures
        match sp_func_type(v@, i as int) {
            Some(sr) => r matches Some(rr) && rr.0 == sr.0 && rr.1@ == sr.1 && i < rr.0
                <= v@.len(),
            None => r is None,
        },
    decreases v@.len() - i, 1int,
{
    if i < v.len() && v[i] == '<' {
        let (e, params) = parse_vt_list(v, i + 1);
        if !(e < v.len() && v[e] == '>') {
            return None;
        }
        let c = exec_skip_ws(v, e + 1);
        if c < v.len() && v[c] == ':' {
            match parse_variable_type(v, c + 1) {
                Some((r, rt)) => {
                    proof {
                        crate::ast::lemma_view_variable_type_seq(params@);
                    }
                    Some(
                        (
                            r,
                            crate::ast::TypeInfo::Function(
                                crate::ast::FuncType { params, return_type: Box::new(rt) },
                            ),
                        ),
                    )
                },
                None => None,
            }
        } else {
            None
        }
    } else {
        None
    }
}

fn parse_tuple_type(v: &Vec<char>, i: usize) -> (r: Option<(usize, crate::ast::TypeInfo)>)
    requires
        i <= v@.len(),
    ensures
        match sp_tuple_type(v@, i as int) {
            Some(sr) => r matches Some(rr) && rr.0 == sr.0 && rr.1@ == sr.1 && i < rr.0
                <= v@.len(),
            None => r is None,
        },
    decreases v@.len() - i, 1int,
{
    if i < v.len() && v[i] == '(' {
        let (e, items) = parse_ti_list(v, i + 1);
        if e < v.len() && v[e] == ')' {
            proof {
                crate::ast::lemma_view_type_info_seq(items@);
            }
            Some((e + 1, crate::ast::TypeInfo::Tuple(items)))
        } else {
            None
        }
    } else {
        None
    }
}

pub(crate) fn parse_variable_type(v: &Vec<char>, i: usize) -> (r: Option<
    (usize, crate::ast::VariableType),
>)
    requires
        i <= v@.len(),
    ensures
        match sp_variable_type(v@, i as int) {
            Some(sr) => r matches Some(rr) && rr.0 == sr.0 && rr.1@ == sr.1 && i < rr.0
                <= v@.len(),
            None => r is None,
        },
    decreases v@.len() - i, 3int,
{
    let a = exec_skip_ws(v, i);
    let (mutable, b) = if v.len() - a >= 4 && v[a] == 'm' && v[a + 1] == 'u' && v[a + 2] == 't'
        && v[a + 3] == ' ' {
        (true, a + 4)
    } else {
        (false, a)
    };
    match parse_type_info(v, b) {
        Some((e, ti)) => Some((e, crate::ast::VariableType { mutable, info: ti })),
        None => None,
    }
}

#[verifier::loop_isolation(false)]
fn parse_vt_list(v: &Vec<char>, i: usize) -> (r: (usize, Vec<crate::ast::VariableType>))
    requires
        i <= v@.len(),
    ensures
        ({
            let (se, sl) = sp_vt_list(v@, i as int);
            &&& r.0 == se
            &&& crate::ast::view_variable_type_seq(r.1@) == sl
            &&& i <= r.0 <= v@.len()
        }),
    decreases v@.len() - i, 4int,
{
    let mut out: Vec<crate::ast::VariableType> = Vec::new();
    match parse_variable_type(v, i) {
        None => {
            proof {
                assert(crate::ast::view_variable_type_seq(out@) =~= Seq::<
                    crate::ast::VariableTypeV,
                >::empty());
            }
            (i, out)
        },
        Some((j, vt)) => {
            let ghost vtv = vt@;
            out.push(vt);
            proof {
                assert(out@.drop_last() =~= Seq::<crate::ast::VariableType>::empty());
                assert(crate::ast::view_variable_type_seq(out@.drop_last()) =~= Seq::<
                    crate::ast::VariableTypeV,
                >::empty());
                assert(crate::ast::view_variable_type_seq(out@) =~= seq![vtv]);
            }
            let w = exec_skip_ws(v, j);
            parse_vt_list_tail(v, w, out)
        },
    }
}

#[verifier::loop_isolation(false)]
fn parse_vt_list_tail(v: &Vec<char>, i: usize, acc: Vec<crate::ast::VariableType>) -> (r: (
    usize,
    Vec<crate::ast::VariableType>,
))
    requires
        i <= v@.len(),
    ensures
        ({
            let (se, sl) = sp_vt_list_tail(v@, i as int, crate::ast::view_variable_type_seq(acc@));
            &&& r.0 == se
            &&& crate::ast::view_variable_type_seq(r.1@) == sl
            &&& i <= r.0 <= v@.len()
        }),
    decreases v@.len() - i, 5int,
{
    if i < v.len() && v[i] == ',' {
        match parse_variable_type(v, i + 1) {
            None => (i, acc),
            Some((j, vt)) => {
                let ghost accv = crate::ast::view_variable_type_seq(acc@);
                let ghost vtv = vt@;
                let mut acc2 = acc;
                acc2.push(vt);
                proof {
                    assert(acc2@.drop_last() =~= acc@);
                    assert(crate::ast::view_variable_type_seq(acc2@) == accv.push(vtv));
                }
                let w = exec_skip_ws(v, j);
                parse_vt_list_tail(v, w, acc2)
            },
        }
    } else {
        (i, acc)
    }
}

#[verifier::loop_isolation(false)]
fn parse_ti_list(v: &Vec<char>, i: usize) -> (r: (usize, Vec<crate::ast::TypeInfo>))
    requires
        i <= v@.len(),
    ensures
        ({
            let (se, sl) = sp_ti_list(v@, i as int);
            &&& r.0 == se
            &&& crate::ast::view_type_info_seq(r.1@) == sl
            &&& i <= r.0 <= v@.len()
        }),
    decreases v@.len() - i, 4int,
{
    let mut out: Vec<crate::ast::TypeInfo> = Vec::new();
    let a = exec_skip_ws(v, i);
    match parse_type_info(v, a) {
        None => {
            proof {
                assert(crate::ast::view_type_info_seq(out@) =~= Seq::<
                    crate::ast::TypeInfoV,
                >::empty());
            }
            (i, out)
        },
        Some((j, ti)) => {
            let ghost tiv = ti@;
            out.push(ti);
            proof {
                assert(out@.drop_last() =~= Seq::<crate::ast::TypeInfo>::empty());
                assert(crate::ast::view_type_info_seq(out@.drop_last()) =~= Seq::<
                    crate::ast::TypeInfoV,
                >::empty());
                assert(crate::ast::view_type_info_seq(out@) =~= seq![tiv]);
            }
            let w = exec_skip_ws(v, j);
            parse_ti_list_tail(v, w, out)
        },
    }
}

// ------------------------------------------------------------------
// Executable expression parsers
// ------------------------------------------------------------------

/// Parses one expression chain.
#[verifier::loop_isolation(false)]
pub(crate) fn parse_expr(v: &Vec<char>, i: usize) -> (r: Option<(usize, crate::ast::Expr)>)
    requires
        i <= v@.len(),
    ensures
        match sp_expr(v@, i as int) {
            Some(sr) => r matches Some(rr) && rr.0 == sr.0 && rr.1@ == sr.1 && i < rr.0 <= v@.len()
                && crate::ast::expr_wf(rr.1@),
            None => r is None,
        },
    decreases v@.len() - i, 3int,
{
    let a = exec_skip_ws(v, i);
    match parse_partial_expr(v, a) {
        None => None,
        Some((j, p)) => {
            let ghost pv = p@;
            let ghost target = sp_expr_tail(v@, j as int, Seq::empty());
            let mut exprs: Vec<crate::ast::PartialExpr> = Vec::new();
            let mut operands: Vec<crate::ast::Operand> = Vec::new();
            exprs.push(p);
            let mut pos = j;
            let mut done = false;
            proof {
                assert(Seq::new(
                    operands@.len(),
                    |t: int| (operands@[t], crate::ast::view_partial_expr(exprs@[t + 1])),
                ) =~= Seq::<(crate::ast::Operand, crate::ast::PartialExprV)>::empty());
            }
            while !done
                invariant
                    j <= pos <= v@.len(),
                    exprs@.len() == operands@.len() + 1,
                    exprs@[0] == p,
                    forall|t: int|
                        0 <= t < exprs@.len() ==> crate::ast::partial_wf(
                            crate::ast::view_partial_expr(#[trigger] exprs@[t]),
                        ),
                    ({
                        let pairs = Seq::new(
                            operands@.len(),
                            |t: int| (operands@[t], crate::ast::view_partial_expr(exprs@[t + 1])),
                        );
                        if done {
                            target == (pos as int, pairs)
                        } else {
                            sp_expr_tail(v@, pos as int, pairs) == target
                        }
                    }),
                decreases v@.len() - pos + (if done {
                    0int
                } else {
                    1int
                }),
            {
                let ghost pairs0 = Seq::new(
                    operands@.len(),
                    |t: int| (operands@[t], crate::ast::view_partial_expr(exprs@[t + 1])),
                );
                match parse_operand(v, pos) {
                    None => {
                        done = true;
                    },
                    Some((j2, op)) => {
                        match parse_partial_expr(v, j2) {
                            None => {
                                done = true;
                            },
                            Some((k, pe)) => {
                                let ghost pev = pe@;
                                operands.push(op);
                                exprs.push(pe);
                                pos = k;
                                proof {
                                    assert(Seq::new(
                                        operands@.len(),
                                        |t: int|
                                            (
                                                operands@[t],
                                                crate::ast::view_partial_expr(exprs@[t + 1]),
                                            ),
                                    ) =~= pairs0.push((op, pev)));
                                }
                            },
                        }
                    },
                }
            }
            let ghost pairs = Seq::new(
                operands@.len(),
                |t: int| (operands@[t], crate::ast::view_partial_expr(exprs@[t + 1])),
            );
            let m = exec_skip_ws(v, pos);
            let end = if m < v.len() && v[m] == ';' {
                m + 1
            } else {
                pos
            };
            let ex = crate::ast::Expr { exprs, operands };
            proof {
                crate::ast::lemma_view_partial_expr_seq(ex.exprs@);
                assert(crate::ast::view_partial_expr_seq(ex.exprs@) =~= seq![pv].add(
                    Seq::new(pairs.len(), |t: int| pairs[t].1),
                ));
                assert(ex.operands@ =~= Seq::new(pairs.len(), |t: int| pairs[t].0));
                crate::ast::lemma_partials_wf(crate::ast::view_partial_expr_seq(ex.exprs@));
            }
            Some((end, ex))
        },
    }
}

/// Parses one partial expression, trying the alternatives in order.
fn parse_partial_expr(v: &Vec<char>, i: usize) -> (r: Option<(usize, crate::ast::PartialExpr)>)
    requires
        i <= v@.len(),
    ensures
        match sp_partial(v@, i as int) {
            Some(sr) => r matches Some(rr) && rr.0 == sr.0 && rr.1@ == sr.1 && i < rr.0 <= v@.len()
                && crate::ast::partial_wf(rr.1@),
            None => r is None,
        },
    decreases v@.len() - i, 2int,
{
    match parse_if(v, i) {
        Some(r) => Some(r),
        None => match parse_func_call(v, i) {
            Some(r) => Some(r),
            None => match parse_lambda(v, i) {
                Some(r) => Some(r),
                None => match parse_tuple(v, i) {
                    Some(r) => Some(r),
                    None => parse_variable(v, i),
                },
            },
        },
    }
}

fn parse_variable(v: &Vec<char>, i: usize) -> (r: Option<(usize, crate::ast::PartialExpr)>)
    requires
        i <= v@.len(),
    ensures
        match sp_variable(v@, i as int) {
            Some(sr) => r matches Some(rr) && rr.0 == sr.0 && rr.1@ == sr.1 && i < rr.0 <= v@.len()
                && crate::ast::partial_wf(rr.1@),
            None => r is None,
        },
    decreases v@.len() - i, 1int,
{
    let w = exec_skip_ws(v, i);
    match parse_name(v, w) {
        Some((e, nm)) => Some(
            (
                e,
                crate::ast::PartialExpr::Variable(crate::ast::VariableExpr::Variable(nm)),
            ),
        ),
        None => match parse_constant_value(v, w) {
            Some((e, c)) => Some(
                (
                    e,
                    crate::ast::PartialExpr::Variable(crate::ast::VariableExpr::Constant(c)),
                ),
            ),
            None => None,
        },
    }
}

fn parse_if(v: &Vec<char>, i: usize) -> (r: Option<(usize, crate::ast::PartialExpr)>)
    requires
        i <= v@.len(),
    ensures
        match sp_if(v@, i as int) {
            Some(sr) => r matches Some(rr) && rr.0 == sr.0 && rr.1@ == sr.1 && i < rr.0 <= v@.len()
                && crate::ast::partial_wf(rr.1@),
            None => r is None,
        },
    decreases v@.len() - i, 1int,
{
    let c = exec_skip_ws(v, i);
    if v.len() - c >= 2 && v[c] == 'i' && v[c + 1] == 'f' {
        match parse_expr(v, c + 2) {
            None => None,
            Some((ce, cond)) => match parse_expr(v, ce) {
                None => None,
                Some((me, mainb)) => {
                    let e0 = exec_skip_ws(v, me);
                    if v.len() - e0 >= 4 && v[e0] == 'e' && v[e0 + 1] == 'l' && v[e0 + 2] == 's'
                        && v[e0 + 3] == 'e' {
                        match parse_expr(v, e0 + 4) {
                            Some((ee, eb)) => Some(
                                (
                                    ee,
                                    crate::ast::PartialExpr::If(
                                        crate::ast::IfExpr {
                                            cond_expr: cond,
                                            main_branch: mainb,
                                            else_branch: Some(eb),
                                        },
                                    ),
                                ),
                            ),
                            None => Some(
                                (
                                    me,
                                    crate::ast::PartialExpr::If(
                                        crate::ast::IfExpr {
                                            cond_expr: cond,
                                            main_branch: mainb,
                                            else_branch: None,
                                        },
                                    ),
                                ),
                            ),
                        }
                    } else {
                        Some(
                            (
                                me,
                                crate::ast::PartialExpr::If(
                                    crate::ast::IfExpr {
                                        cond_expr: cond,
                                        main_branch: mainb,
                                        else_branch: None,
                                    },
                                ),
                            ),
                        )
                    }
                },
            },
        }
    } else {
        None
    }
}

fn parse_func_call(v: &Vec<char>, i: usize) -> (r: Option<(usize, crate::ast::PartialExpr)>)
    requires
        i <= v@.len(),
    ensures
        match sp_func_call(v@, i as int) {
            Some(sr) => r matches Some(rr) && rr.0 == sr.0 && rr.1@ == sr.1 && i < rr.0 <= v@.len()
                && crate::ast::partial_wf(rr.1@),
            None => r is None,
        },
    decreases v@.len() - i, 1int,
{
    match parse_name(v, i) {
        None => None,
        Some((d, nm)) => {
            if d < v.len() && v[d] == '(' {
                let (e, params) = parse_expr_list(v, d + 1);
                if e < v.len() && v[e] == ')' {
                    proof {
                        crate::ast::lemma_view_expr_seq(params@);
                    }
                    Some(
                        (
                            e + 1,
                            crate::ast::PartialExpr::FunctionCall(
                                crate::ast::FunctionCallExpr { name: nm, params },
                            ),
                        ),
                    )
                } else {
                    None
                }
            } else {
                None
            }
        },
    }
}

fn parse_tuple(v: &Vec<char>, i: usize) -> (r: Option<(usize, crate::ast::PartialExpr)>)
    requires
        i <= v@.len(),
    ensures
        match sp_tuple(v@, i as int) {
            Some(sr) => r matches Some(rr) && rr.0 == sr.0 && rr.1@ == sr.1 && i < rr.0 <= v@.len()
                && crate::ast::partial_wf(rr.1@),
            None => r is None,
        },
    decreases v@.len() - i, 1int,
{
    let a = exec_skip_ws(v, i);
    if a < v.len() && v[a] == '(' {
        let (e, items) = parse_expr_list(v, a + 1);
        if e < v.len() && v[e] == ')' {
            proof {
                crate::ast::lemma_view_expr_seq(items@);
            }
            Some((e + 1, crate::ast::PartialExpr::Tuple(crate::ast::TupleDef { items })))
        } else {
            None
        }
    } else {
        None
    }
}

#[verifier::loop_isolation(false)]
fn parse_expr_list(v: &Vec<char>, i: usize) -> (r: (usize, Vec<crate::ast::Expr>))
    requires
        i <= v@.len(),
    ensures
        ({
            let (se, sl) = sp_expr_list(v@, i as int);
            &&& r.0 == se
            &&& crate::ast::view_expr_seq(r.1@) == sl
            &&& i <= r.0 <= v@.len()
            &&& crate::ast::exprs_wf(crate::ast::view_expr_seq(r.1@))
        }),
    decreases v@.len() - i, 4int,
{
    let mut out: Vec<crate::ast::Expr> = Vec::new();
    let e = exec_skip_ws(v, i);
    match parse_expr(v, e) {
        None => {
            proof {
                assert(crate::ast::view_expr_seq(out@) =~= Seq::<crate::ast::ExprV>::empty());
            }
            (i, out)
        },
        Some((j, ex)) => {
            let ghost exv = ex@;
            out.push(ex);
            proof {
                assert(out@.drop_last() =~= Seq::<crate::ast::Expr>::empty());
                assert(crate::ast::view_expr_seq(out@.drop_last()) =~= Seq::<
                    crate::ast::ExprV,
                >::empty());
                assert(crate::ast::view_expr_seq(out@) =~= seq![exv]);
                crate::ast::lemma_exprs_wf(crate::ast::view_expr_seq(out@));
                assert(crate::ast::view_expr_seq(out@)[0] == exv);
                assert(crate::ast::exprs_wf(crate::ast::view_expr_seq(out@)));
            }
            let w = exec_skip_ws(v, j);
            parse_expr_list_tail(v, w, out)
        },
    }
}

#[verifier::loop_isolation(false)]
fn parse_expr_list_tail(v: &Vec<char>, i: usize, acc: Vec<crate::ast::Expr>) -> (r: (
    usize,
    Vec<crate::ast::Expr>,
))
    requires
        i <= v@.len(),
        crate::ast::exprs_wf(crate::ast::view_expr_seq(acc@)),
    ensures
        ({
            let (se, sl) = sp_expr_list_tail(v@, i as int, crate::ast::view_expr_seq(acc@));
            &&& r.0 == se
            &&& crate::ast::view_expr_seq(r.1@) == sl
            &&& i <= r.0 <= v@.len()
            &&& crate::ast::exprs_wf(crate::ast::view_expr_seq(r.1@))
        }),
    decreases v@.len() - i, 5int,
{
    if i < v.len() && v[i] == ',' {
        let e = exec_skip_ws(v, i + 1);
        match parse_expr(v, e) {
            None => (i, acc),
            Some((j, ex)) => {
                let ghost accv = crate::ast::view_expr_seq(acc@);
                let ghost exv = ex@;
                let mut acc2 = acc;
                acc2.push(ex);
                proof {
                    assert(acc2@.drop_last() =~= acc@);
                    assert(crate::ast::view_expr_seq(acc2@) == accv.push(exv));
                    crate::ast::lemma_exprs_wf(accv);
                    crate::ast::lemma_exprs_wf(accv.push(exv));
                    assert(forall|t: int|
                        0 <= t < accv.push(exv).len() ==> crate::ast::expr_wf(
                            #[trigger] accv.push(exv)[t],
                        ));
                    assert(crate::ast::exprs_wf(crate::ast::view_expr_seq(acc2@)));
                }
                let w = exec_skip_ws(v, j);
                parse_expr_list_tail(v, w, acc2)
            },
        }
    } else {
        (i, acc)
    }
}

fn parse_param(v: &Vec<char>, i: usize) -> (r: Option<
    (usize, (String, crate::ast::VariableType)),
>)
    requires
        i <= v@.len(),
    ensures
        match sp_param(v@, i as int) {
            Some(sr) => r matches Some(rr) && rr.0 == sr.0 && rr.1.0@ == sr.1.0 && rr.1.1@
                == sr.1.1 && i < rr.0 <= v@.len(),
            None => r is None,
        },
{
    match parse_name(v, i) {
        None => None,
        Some((n_end, nm)) => {
            if n_end < v.len() && v[n_end] == ':' {
                match parse_variable_type(v, n_end + 1) {
                    None => None,
                    Some((ve, vt)) => Some((ve, (nm, vt))),
                }
            } else {
                None
            }
        },
    }
}

#[verifier::loop_isolation(false)]
fn parse_param_list(v: &Vec<char>, i: usize) -> (r: (
    usize,
    Vec<(String, crate::ast::VariableType)>,
))
    requires
        i <= v@.len(),
    ensures
        ({
            let (se, sl) = sp_param_list(v@, i as int);
            &&& r.0 == se
            &&& crate::ast::view_parameter_seq(r.1@) == sl
            &&& i <= r.0 <= v@.len()
        }),
    decreases v@.len() - i, 1int,
{
    let mut out: Vec<(String, crate::ast::VariableType)> = Vec::new();
    let p = exec_skip_ws(v, i);
    match parse_param(v, p) {
        None => {
            proof {
                assert(crate::ast::view_parameter_seq(out@) =~= Seq::<
                    (Seq<char>, crate::ast::VariableTypeV),
                >::empty());
            }
            (i, out)
        },
        Some((j, pr)) => {
            let ghost prv = (pr.0@, pr.1@);
            out.push(pr);
            proof {
                assert(out@.drop_last() =~= Seq::<(String, crate::ast::VariableType)>::empty());
                assert(crate::ast::view_parameter_seq(out@.drop_last()) =~= Seq::<
                    (Seq<char>, crate::ast::VariableTypeV),
                >::empty());
                assert(crate::ast::view_parameter_seq(out@) =~= seq![prv]);
            }
            let w = exec_skip_ws(v, j);
            parse_param_list_tail(v, w, out)
        },
    }
}

#[verifier::loop_isolation(false)]
fn parse_param_list_tail(
    v: &Vec<char>,
    i: usize,
    acc: Vec<(String, crate::ast::VariableType)>,
) -> (r: (usize, Vec<(String, crate::ast::VariableType)>))
    requires
        i <= v@.len(),
    ensures
        ({
            let (se, sl) = sp_param_list_tail(v@, i as int, crate::ast::view_parameter_seq(acc@));
            &&& r.0 == se
            &&& crate::ast::view_parameter_seq(r.1@) == sl
            &&& i <= r.0 <= v@.len()
        }),
    decreases v@.len() - i, 2int,
{
    if i < v.len() && v[i] == ',' {
        let p = exec_skip_ws(v, i + 1);
        match parse_param(v, p) {
            None => (i, acc),
            Some((j, pr)) => {
                let ghost accv = crate::ast::view_parameter_seq(acc@);
                let ghost prv = (pr.0@, pr.1@);
                let mut acc2 = acc;
                acc2.push(pr);
                proof {
                    assert(acc2@.drop_last() =~= acc@);
                    assert(crate::ast::view_parameter_seq(acc2@) == accv.push(prv));
                }
                let w = exec_skip_ws(v, j);
                parse_param_list_tail(v, w, acc2)
            },
        }
    } else {
        (i, acc)
    }
}

fn parse_closure_item(v: &Vec<char>, i: usize) -> (r: Option<(usize, (String, bool))>)
    requires
        i <= v@.len(),
    ensures
        match sp_closure_item(v@, i as int) {
            Some(sr) => r matches Some(rr) && rr.0 == sr.0 && rr.1.0@ == sr.1.0 && rr.1.1
                == sr.1.1 && i < rr.0 <= v@.len(),
            None => r is None,
        },
{
    let e = exec_skip_ws(v, i);
    let (mutable, e2) = if v.len() - e >= 4 && v[e] == 'm' && v[e + 1] == 'u' && v[e + 2] == 't'
        && v[e + 3] == ' ' {
        (true, e + 4)
    } else {
        (false, e)
    };
    match parse_name(v, e2) {
        None => None,
        Some((ne, nm)) => Some((ne, (nm, mutable))),
    }
}

/// The view of a stored capture list.
pub open spec fn closure_view(cl: Seq<(String, bool)>) -> Seq<(Seq<char>, bool)> {
    Seq::new(cl.len(), |t: int| (cl[t].0@, cl[t].1))
}

#[verifier::loop_isolation(false)]
fn parse_closure_list(v: &Vec<char>, i: usize) -> (r: (usize, Vec<(String, bool)>))
    requires
        i <= v@.len(),
    ensures
        ({
            let (se, sl) = sp_closure_list(v@, i as int);
            &&& r.0 == se
            &&& closure_view(r.1@) == sl
            &&& i <= r.0 <= v@.len()
        }),
    decreases v@.len() - i, 1int,
{
    let mut out: Vec<(String, bool)> = Vec::new();
    match parse_closure_item(v, i) {
        None => {
            proof {
                assert(closure_view(out@) =~= Seq::<(Seq<char>, bool)>::empty());
            }
            (i, out)
        },
        Some((j, it)) => {
            let ghost itv = (it.0@, it.1);
            out.push(it);
            proof {
                assert(closure_view(out@) =~= seq![itv]);
            }
            let w = exec_skip_ws(v, j);
            parse_closure_list_tail(v, w, out)
        },
    }
}

#[verifier::loop_isolation(false)]
fn parse_closure_list_tail(v: &Vec<char>, i: usize, acc: Vec<(String, bool)>) -> (r: (
    usize,
    Vec<(String, bool)>,
))
    requires
        i <= v@.len(),
    ensures
        ({
            let (se, sl) = sp_closure_list_tail(v@, i as int, closure_view(acc@));
            &&& r.0 == se
            &&& closure_view(r.1@) == sl
            &&& i <= r.0 <= v@.len()
        }),
    decreases v@.len() - i, 2int,
{
    if i < v.len() && v[i] == ',' {
        match parse_closure_item(v, i + 1) {
            None => (i, acc),
            Some((j, it)) => {
                let ghost accv = closure_view(acc@);
                let ghost itv = (it.0@, it.1);
                let mut acc2 = acc;
                acc2.push(it);
                proof {
                    assert(closure_view(acc2@) =~= accv.push(itv));
                }
                let w = exec_skip_ws(v, j);
                parse_closure_list_tail(v, w, acc2)
            },
        }
    } else {
        (i, acc)
    }
}

fn parse_lambda(v: &Vec<char>, i: usize) -> (r: Option<(usize, crate::ast::PartialExpr)>)
    requires
        i <= v@.len(),
    ensures
        match sp_lambda(v@, i as int) {
            Some(sr) => r matches Some(rr) && rr.0 == sr.0 && rr.1@ == sr.1 && i < rr.0 <= v@.len()
                && crate::ast::partial_wf(rr.1@),
            None => r is None,
        },
    decreases v@.len() - i, 1int,
{
    let a = exec_skip_ws(v, i);
    if a < v.len() && v[a] == '<' {
        let (p_end, parameters) = parse_param_list(v, a + 1);
        if p_end < v.len() && v[p_end] == '>' {
            let b = p_end + 1;
            let c0 = exec_skip_ws(v, b);
            let (c1, closure) = if c0 < v.len() && v[c0] == '<' {
                let (ce, cl) = parse_closure_list(v, c0 + 1);
                if ce < v.len() && v[ce] == '>' {
                    (ce + 1, cl)
                } else {
                    (c0, Vec::new())
                }
            } else {
                (c0, Vec::new())
            };
            proof {
                assert(closure_view(Seq::<(String, bool)>::empty()) =~= Seq::<
                    (Seq<char>, bool),
                >::empty());
            }
            let r0 = exec_skip_ws(v, c1);
            if r0 < v.len() && v[r0] == ':' {
                match parse_variable_type(v, r0 + 1) {
                    None => None,
                    Some((r1, rt)) => {
                        let a2 = exec_skip_ws(v, r1);
                        if v.len() - a2 >= 2 && v[a2] == '-' && v[a2 + 1] == '>' {
                            match parse_expr(v, a2 + 2) {
                                None => None,
                                Some((b1, body)) => {
                                    proof {
                                        crate::ast::lemma_view_parameter_seq(parameters@);
                                    }
                                    Some(
                                        (
                                            b1,
                                            crate::ast::PartialExpr::Lambda(
                                                crate::ast::FunctionDef {
                                                    parameters,
                                                    closure,
                                                    return_type: rt,
                                                    expr: body,
                                                },
                                            ),
                                        ),
                                    )
                                },
                            }
                        } else {
                            None
                        }
                    },
                }
            } else {
                None
            }
        } else {
            None
        }
    } else {
        None
    }
}

// ------------------------------------------------------------------
// Executable definition and module parsers
// ------------------------------------------------------------------

/// Parses one `let` definition.
pub(crate) fn parse_variable_def(v: &Vec<char>, i: usize) -> (r: Option<
    (usize, crate::ast::VariableName),
>)
    requires
        i <= v@.len(),
    ensures
        match sp_variable_def(v@, i as int) {
            Some(sr) => r matches Some(rr) && rr.0 == sr.0 && crate::ast::view_variable_name(rr.1)
                == sr.1 && i < rr.0 <= v@.len() && crate::ast::expr_wf(
                crate::ast::view_variable_name(rr.1).variable.value,
            ),
            None => r is None,
        },
{
    let a = exec_skip_ws(v, i);
    if v.len() - a >= 4 && v[a] == 'l' && v[a + 1] == 'e' && v[a + 2] == 't' && exec_is_space(
        v[a + 3],
    ) {
        let c = exec_skip_ws(v, a + 3);
        let (mutable, c2) = if v.len() - c >= 4 && v[c] == 'm' && v[c + 1] == 'u' && v[c + 2] == 't'
            && v[c + 3] == ' ' {
            (true, c + 4)
        } else {
            (false, c)
        };
        match parse_name(v, c2) {
            None => None,
            Some((d, nm)) => {
                let e = exec_skip_ws(v, d);
                let ann = if e < v.len() && v[e] == ':' {
                    parse_variable_type(v, e + 1)
                } else {
                    None
                };
                let (g, ann_mutable, info) = match ann {
                    Some((f, vt)) => (f, vt.mutable, vt.info),
                    None => (d, false, crate::ast::TypeInfo::Unknown),
                };
                let h = exec_skip_ws(v, g);
                if h < v.len() && v[h] == '=' {
                    match parse_expr(v, h + 1) {
                        None => None,
                        Some((k, ex)) => Some(
                            (
                                k,
                                crate::ast::VariableName {
                                    name: nm,
                                    variable: crate::ast::VariableDef {
                                        value: ex,
                                        v_type: crate::ast::VariableType {
                                            mutable: mutable || ann_mutable,
                                            info,
                                        },
                                    },
                                },
                            ),
                        ),
                    }
                } else {
                    None
                }
            },
        }
    } else {
        None
    }
}

/// Parses a whole source string into an unchecked module, returning how
/// many characters were consumed; parsing a module itself never fails,
/// the caller decides what residual input means.
#[verifier::loop_isolation(false)]
pub fn parse_module(input: &str) -> (r: (usize, crate::ast::Module<crate::ast::Unverified>))
    ensures
        ({
            let (se, sm) = sp_module(input@);
            &&& r.0 == se
            &&& r.1@ == sm
            &&& r.0 <= input@.len()
            &&& crate::ast::module_wf(r.1@)
        }),
{
    let v = crate::text::chars_of(input);
    let mut vars: Vec<crate::ast::VariableName> = Vec::new();
    let mut pos: usize = 0;
    let mut done = false;
    proof {
        assert(crate::ast::view_variable_name_seq(vars@) =~= Seq::<
            crate::ast::VariableNameV,
        >::empty());
    }
    while !done
        invariant
            pos <= v@.len(),
            forall|t: int|
                0 <= t < vars@.len() ==> crate::ast::expr_wf(
                    crate::ast::view_variable_name(#[trigger] vars@[t]).variable.value,
                ),
            ({
                let built = crate::ast::view_variable_name_seq(vars@);
                if done {
                    sp_def_list(v@, 0, Seq::empty()) == (pos as int, built)
                } else {
                    sp_def_list(v@, pos as int, built) == sp_def_list(v@, 0, Seq::empty())
                }
            }),
        decreases v@.len() - pos + (if done {
            0int
        } else {
            1int
        }),
    {
        let ghost built0 = crate::ast::view_variable_name_seq(vars@);
        match parse_variable_def(&v, pos) {
            None => {
                done = true;
            },
            Some((j, vn)) => {
                let ghost vars0 = vars@;
                let ghost vnv = crate::ast::view_variable_name(vn);
                vars.push(vn);
                pos = j;
                proof {
                    assert(vars@.drop_last() =~= vars0);
                    assert(vars@.last() == vn);
                    assert(crate::ast::view_variable_name_seq(vars@) == built0.push(vnv));
                }
            },
        }
    }
    let e = exec_skip_ws(&v, pos);
    let m = crate::ast::Module {
        variables: vars,
        structs: Vec::new(),
        _state: core::marker::PhantomData,
    };
    proof {
        crate::ast::lemma_view_variable_name_seq(m.variables@);
    }
    (e, m)
}

/// Parses a source string, requiring that all of it — up to trailing
/// whitespace — is consumed; residual input is an error carrying the
/// unconsumed suffix.
pub fn parse(source: &str) -> (r: Result<crate::ast::Module<crate::ast::Unverified>, String>)
    ensures
        ({
            let (e, m) = sp_module(source@);
            &&& 0 <= e <= source@.len()
            &&& e == source@.len() ==> (r matches Ok(mm) && mm@ == m && crate::ast::module_wf(mm@))
            &&& e < source@.len() ==> (r matches Err(msg) && msg@ == "unparsed: "@.add(
                source@.subrange(e, source@.len() as int),
            ))
        }),
{
    let (consumed, m) = parse_module(source);
    let total = source.unicode_len();
    if consumed == total {
        Ok(m)
    } else {
        let rest = source.substring_char(consumed, total);
        Err("unparsed: ".to_owned().concat(rest))
    }
}

// ------------------------------------------------------------------
// Executable type parsers
// ------------------------------------------------------------------

#[verifier::loop_isolation(false)]
fn parse_ti_list_tail(v: &Vec<char>, i: usize, acc: Vec<crate::ast::TypeInfo>) -> (r: (
    usize,
    Vec<crate::ast::TypeInfo>,
))
    requires
        i <= v@.len(),
    ensures
        ({
            let (se, sl) = sp_ti_list_tail(v@, i as int, crate::ast::view_type_info_seq(acc@));
            &&& r.0 == se
            &&& crate::ast::view_type_info_seq(r.1@) == sl
            &&& i <= r.0 <= v@.len()
        }),
    decreases v@.len() - i, 5int,
{
    if i < v.len() && v[i] == ',' {
        let a = exec_skip_ws(v, i + 1);
        match parse_type_info(v, a) {
            None => (i, acc),
            Some((j, ti)) => {
                let ghost accv = crate::ast::view_type_info_seq(acc@);
                let ghost tiv = ti@;
                let mut acc2 = acc;
                acc2.push(ti);
                proof {
                    assert(acc2@.drop_last() =~= acc@);
                    assert(crate::ast::view_type_info_seq(acc2@) == accv.push(tiv));
                }
                let w = exec_skip_ws(v, j);
                parse_ti_list_tail(v, w, acc2)
            },
        }
    } else {
        (i, acc)
    }
}

} // verus!
