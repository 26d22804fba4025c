//! Character classes and string building shared by the parsers.

use vstd::prelude::*;

verus! {

/// What `char::is_alphanumeric` answers for `c`: whether `c` is Unicode
/// `Alphabetic` or `Numeric`. The Unicode tables are not restated here.
pub uninterp spec fn spec_is_alphanumeric(c: char) -> bool;

/// Calls `char::is_alphanumeric`, whose answer depends on `c` alone.
#[verifier::external_body]
pub(crate) fn is_alphanumeric(c: char) -> (r: bool)
    ensures
        r == spec_is_alphanumeric(c),
{
    c.is_alphanumeric()
}

/// Calls `String::push`, which appends `c` at the end of `s`.
#[verifier::external_body]
pub(crate) fn push_char(s: &mut String, c: char)
    ensures
        final(s)@ == old(s)@.push(c),
{
    s.push(c)
}

/// An ASCII decimal digit.
pub open spec fn is_digit(c: char) -> bool {
    '0' <= c && c <= '9'
}

/// A space or a tab: the blanks that separate tokens on a line.
pub open spec fn is_space(c: char) -> bool {
    c == ' ' || c == '\t'
}

/// The characters `buf[from..to]` as a `String`.
pub fn string_of(buf: &Vec<char>, from: usize, to: usize) -> (r: String)
    requires
        from <= to <= buf.len(),
    ensures
        r@ == buf@.subrange(from as int, to as int),
{
    let mut r = String::new();
    let mut i = from;
    while i < to
        invariant
            from <= i <= to <= buf.len(),
            r@ == buf@.subrange(from as int, i as int),
        decreases to - i,
    {
        push_char(&mut r, buf[i]);
        assert(buf@.subrange(from as int, i + 1) == buf@.subrange(from as int, i as int).push(buf@[i as int]));
        i += 1;
    }
    r
}

/// A copy of `s` as a `String`.
pub fn string_from(s: &str) -> (r: String)
    ensures
        r@ == s@,
{
    let n = s.unicode_len();
    let mut r = String::new();
    let mut i: usize = 0;
    while i < n
        invariant
            i <= n,
            n == s@.len(),
            r@ == s@.subrange(0, i as int),
        decreases n - i,
    {
        push_char(&mut r, s.get_char(i));
        assert(s@.subrange(0, i + 1) == s@.subrange(0, i as int).push(s@[i as int]));
        i += 1;
    }
    assert(s@.subrange(0, n as int) == s@);
    r
}

/// Whether `a` is `lit`.
pub fn str_is(a: &str, lit: &str) -> (b: bool)
    ensures
        b == (a@ == lit@),
{
    let n = lit.unicode_len();
    if a.unicode_len() != n {
        return false;
    }
    let mut i: usize = 0;
    while i < n
        invariant
            n == lit@.len(),
            n == a@.len(),
            i <= n,
            forall|k: int| 0 <= k < i ==> a@[k] == lit@[k],
        decreases n - i,
    {
        if a.get_char(i) != lit.get_char(i) {
            return false;
        }
        i += 1;
    }
    assert(a@ =~= lit@);
    true
}

} // verus!
