//! Small verified helpers for building strings char by char.

use vstd::prelude::*;

verus! {

/// The chars that `char::to_uppercase` yields for `c`.
pub uninterp spec fn char_uppercase(c: char) -> Seq<char>;

/// Calls `char::to_uppercase` and collects what it yields into a `String`.
///
/// Claimed of std: the result is the uppercase mapping `char_uppercase(c)`, which
/// holds at least one char; an ASCII lowercase letter maps to its ASCII capital and
/// any other ASCII char maps to itself (it has no uppercase mapping). What a non-ASCII
/// char maps to is left to the name.
#[verifier::external_body]
pub(crate) fn uppercase_of(c: char) -> (r: String)
    ensures
        r@ == char_uppercase(c),
        r@.len() >= 1,
        ('a' <= c && c <= 'z') ==> r@ == seq![((c as u32) - 32) as char],
        ((c as u32) < 128 && !('a' <= c && c <= 'z')) ==> r@ == seq![c],
{
    c.to_uppercase().collect::<String>()
}

/// Calls `String::push`: appends `c` at the end.
#[verifier::external_body]
pub(crate) fn push_char(s: &mut String, c: char)
    ensures
        final(s)@ == old(s)@.push(c),
{
    s.push(c)
}

/// The chars of `s`, in order.
pub fn chars_of(s: &str) -> (r: Vec<char>)
    ensures
        r@ == s@,
{
    let n = s.unicode_len();
    let mut r: Vec<char> = Vec::new();
    let mut i: usize = 0;
    while i < n
        invariant
            n == s@.len(),
            i <= n,
            r@ == s@.subrange(0, i as int),
        decreases n - i,
    {
        let c = s.get_char(i);
        r.push(c);
        i = i + 1;
        assert(r@ =~= s@.subrange(0, i as int));
    }
    assert(r@ =~= s@);
    r
}

/// A `String` holding `v[start..end]`.
pub fn string_from_range(v: &Vec<char>, start: usize, end: usize) -> (r: String)
    requires
        start <= end <= v@.len(),
    ensures
        r@ == v@.subrange(start as int, end as int),
{
    let mut r = String::new();
    let mut i: usize = start;
    while i < end
        invariant
            start <= i <= end <= v@.len(),
            r@ == v@.subrange(start as int, i as int),
        decreases end - i,
    {
        push_char(&mut r, v[i]);
        i = i + 1;
        assert(r@ =~= v@.subrange(start as int, i as int));
    }
    r
}

/// Appends the chars of `v` to `s`.
pub fn append_chars(s: &mut String, v: &Vec<char>)
    ensures
        final(s)@ == old(s)@ + v@,
{
    let mut i: usize = 0;
    while i < v.len()
        invariant
            i <= v@.len(),
            s@ == old(s)@ + v@.subrange(0, i as int),
        decreases v@.len() - i,
    {
        push_char(s, v[i]);
        i = i + 1;
        assert(s@ =~= old(s)@ + v@.subrange(0, i as int));
    }
    assert(v@.subrange(0, v@.len() as int) =~= v@);
}

} // verus!
