//! Character classification, source-to-characters conversion, decimal
//! rendering of integers, and joining of strings: the text ground the
//! parser and the message builders stand on.

use vstd::prelude::*;

verus! {

broadcast use vstd::std_specs::vec::group_vec_axioms, vstd::seq::group_seq_axioms;

/// Whitespace between tokens: space, tab, carriage return, line feed.
pub open spec fn is_space(c: char) -> bool {
    c == ' ' || c == '\t' || c == '\n' || c == '\r'
}

/// A decimal digit.
pub open spec fn is_digit(c: char) -> bool {
    48 <= c as u32 <= 57
}

/// A letter in the basic Latin range; the first character of a name must
/// be one of these or an underscore.
pub open spec fn is_ascii_alpha(c: char) -> bool {
    (65 <= c as u32 <= 90) || (97 <= c as u32 <= 122)
}

/// What `char::is_alphanumeric` returns: whether the character is in the
/// Unicode categories Alphabetic, Nd, Nl or No. Within the ASCII range
/// that is exactly the letters and digits.
pub uninterp spec fn unicode_alphanumeric(c: char) -> bool;

/// A character that may continue a name: alphanumeric or underscore.
pub open spec fn is_name_char(c: char) -> bool {
    unicode_alphanumeric(c) || c == '_'
}

pub fn exec_is_space(c: char) -> (r: bool)
    ensures
        r == is_space(c),
{
    c == ' ' || c == '\t' || c == '\n' || c == '\r'
}

pub fn exec_is_digit(c: char) -> (r: bool)
    ensures
        r == is_digit(c),
{
    c >= '0' && c <= '9'
}

pub fn exec_is_ascii_alpha(c: char) -> (r: bool)
    ensures
        r == is_ascii_alpha(c),
{
    (c >= 'A' && c <= 'Z') || (c >= 'a' && c <= 'z')
}

/// Relies on char::is_alphanumeric: whether the character is in the
/// Unicode categories Alphabetic, Nd, Nl or No; on the ASCII range those
/// are exactly the letters and the digits.
#[verifier::external_body]
pub fn exec_unicode_alphanumeric(c: char) -> (r: bool)
    ensures
        r == unicode_alphanumeric(c),
        (c as u32) < 128 ==> r == (is_ascii_alpha(c) || is_digit(c)),
{
    c.is_alphanumeric()
}

pub fn exec_is_name_char(c: char) -> (r: bool)
    ensures
        r == is_name_char(c),
{
    exec_unicode_alphanumeric(c) || c == '_'
}

/// The characters of a source string, in order, as an indexable vector.
pub fn chars_of(s: &str) -> (r: Vec<char>)
    ensures
        r@ == s@,
{
    let n = s.unicode_len();
    let mut r: Vec<char> = Vec::new();
    let mut i: usize = 0;
    while i < n
        invariant
            i <= n,
            n == s@.len(),
            r@ == s@.take(i as int),
        decreases n - i,
    {
        r.push(s.get_char(i));
        i += 1;
    }
    proof {
        assert(r@ =~= s@);
    }
    r
}

/// Relies on String::push: appends the character to the end of the string.
#[verifier::external_body]
pub fn push_char(s: &mut String, c: char)
    ensures
        final (s)@ == old(s)@.push(c),
{
    s.push(c)
}

/// The decimal digit character for a value below ten.
pub open spec fn digit_char(d: int) -> char {
    if d == 0 {
        '0'
    } else if d == 1 {
        '1'
    } else if d == 2 {
        '2'
    } else if d == 3 {
        '3'
    } else if d == 4 {
        '4'
    } else if d == 5 {
        '5'
    } else if d == 6 {
        '6'
    } else if d == 7 {
        '7'
    } else if d == 8 {
        '8'
    } else {
        '9'
    }
}

/// The decimal text of a nonnegative number, most significant digit first.
pub open spec fn nat_text(n: int) -> Seq<char>
    decreases n,
{
    if n < 10 {
        seq![digit_char(n)]
    } else {
        nat_text(n / 10).push(digit_char(n % 10))
    }
}

/// The decimal text of an integer, with a leading minus sign when negative.
pub open spec fn int_text(i: int) -> Seq<char> {
    if i < 0 {
        seq!['-'].add(nat_text(-i))
    } else {
        nat_text(i)
    }
}

fn exec_digit_char(d: u64) -> (r: char)
    requires
        d < 10,
    ensures
        r == digit_char(d as int),
{
    if d == 0 {
        '0'
    } else if d == 1 {
        '1'
    } else if d == 2 {
        '2'
    } else if d == 3 {
        '3'
    } else if d == 4 {
        '4'
    } else if d == 5 {
        '5'
    } else if d == 6 {
        '6'
    } else if d == 7 {
        '7'
    } else if d == 8 {
        '8'
    } else {
        '9'
    }
}

fn nat_to_string(n: u64) -> (r: String)
    ensures
        r@ == nat_text(n as int),
    decreases n,
{
    if n < 10 {
        let mut s = String::new();
        push_char(&mut s, exec_digit_char(n));
        proof {
            assert(s@ =~= nat_text(n as int));
        }
        s
    } else {
        let mut s = nat_to_string(n / 10);
        push_char(&mut s, exec_digit_char(n % 10));
        s
    }
}

/// The decimal rendering of a count.
pub fn usize_to_string(n: usize) -> (r: String)
    ensures
        r@ == nat_text(n as int),
{
    nat_to_string(n as u64)
}

/// The decimal rendering of an integer.
pub fn int_to_string(i: i32) -> (r: String)
    ensures
        r@ == int_text(i as int),
{
    if i < 0 {
        let mag: u64 = (-(i as i64)) as u64;
        let mut s = String::new();
        push_char(&mut s, '-');
        let digits = nat_to_string(mag);
        let r = s.concat(digits.as_str());
        proof {
            assert(r@ =~= int_text(i as int));
        }
        r
    } else {
        nat_to_string(i as u64)
    }
}

/// The characters of a range, as an owned string.
pub fn string_range(v: &Vec<char>, from: usize, to: usize) -> (r: String)
    requires
        from <= to <= v@.len(),
    ensures
        r@ == v@.subrange(from as int, to as int),
{
    let mut r = String::new();
    let mut i = from;
    while i < to
        invariant
            from <= i <= to <= v@.len(),
            r@ == v@.subrange(from as int, i as int),
        decreases to - i,
    {
        push_char(&mut r, v[i]);
        proof {
            assert(v@.subrange(from as int, i + 1 as int) =~= v@.subrange(
                from as int,
                i as int,
            ).push(v@[i as int]));
        }
        i += 1;
    }
    r
}

/// Whether two string slices hold the same characters.
pub fn str_eq(a: &str, b: &str) -> (r: bool)
    ensures
        r == (a@ == b@),
{
    a.to_owned() == b.to_owned()
}

/// The given texts joined with the separator between neighbours; empty
/// input joins to the empty text.
pub open spec fn join_texts(items: Seq<Seq<char>>, sep: Seq<char>) -> Seq<char>
    decreases items,
{
    if items.len() == 0 {
        Seq::empty()
    } else if items.len() == 1 {
        items[0]
    } else {
        join_texts(items.drop_last(), sep).add(sep).add(items.last())
    }
}

/// Joins the items with the separator: the empty vector yields the empty
/// string, and no separator leads or trails.
pub fn str_from_iter(items: &Vec<String>, sep: &str) -> (r: String)
    ensures
        r@ == join_texts(Seq::new(items@.len(), |i: int| items@[i]@), sep@),
{
    let ghost texts = Seq::new(items@.len(), |i: int| items@[i]@);
    let mut r = String::new();
    let mut i: usize = 0;
    while i < items.len()
        invariant
            i <= items@.len(),
            texts == Seq::new(items@.len(), |j: int| items@[j]@),
            r@ == join_texts(texts.take(i as int), sep@),
        decreases items@.len() - i,
    {
        if i > 0 {
            r = r.concat(sep);
        }
        r = r.concat(items[i].as_str());
        proof {
            assert(texts.take(i + 1 as int).drop_last() =~= texts.take(i as int));
            assert(texts.take(i + 1 as int).last() == texts[i as int]);
        }
        i += 1;
    }
    proof {
        assert(texts.take(items@.len() as int) =~= texts);
    }
    r
}

} // verus!
