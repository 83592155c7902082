//! Small helpers over `str` and `String` that the rest of the crate builds
//! text with: appending one character, and content equality of two slices.

use vstd::prelude::*;

verus! {

/// Relies on `String::push`: appends the given character to the end of the
/// string, leaving the earlier contents in place.
#[verifier::external_body]
pub fn push_char(s: &mut String, c: char)
    ensures
        final(s)@ == old(s)@.push(c),
{
    s.push(c);
}

/// Relies on `<str as PartialEq>::eq`: two string slices are equal exactly
/// when they hold the same characters in the same order.
#[verifier::external_body]
pub fn str_eq(a: &str, b: &str) -> (r: bool)
    ensures
        r == (a@ == b@),
{
    a == b
}

/// Lexicographic order on character sequences, by code point.
pub open spec fn spec_str_lt(a: Seq<char>, b: Seq<char>) -> bool
    decreases a.len(),
{
    if b.len() == 0 {
        false
    } else if a.len() == 0 {
        true
    } else if a[0] != b[0] {
        (a[0] as int) < (b[0] as int)
    } else {
        spec_str_lt(a.subrange(1, a.len() as int), b.subrange(1, b.len() as int))
    }
}

/// Compares the suffixes of two strings starting at `i`, lexicographically.
fn str_lt_from(a: &str, b: &str, i: usize, alen: usize, blen: usize) -> (r: bool)
    requires
        alen == a@.len(),
        blen == b@.len(),
        i <= alen,
        i <= blen,
    ensures
        r == spec_str_lt(
            a@.subrange(i as int, a@.len() as int),
            b@.subrange(i as int, b@.len() as int),
        ),
    decreases alen - i,
{
    if i >= blen {
        false
    } else if i >= alen {
        true
    } else {
        let ca = a.get_char(i);
        let cb = b.get_char(i);
        if (ca as u32) != (cb as u32) {
            (ca as u32) < (cb as u32)
        } else {
            let r = str_lt_from(a, b, i + 1, alen, blen);
            proof {
                let sa = a@.subrange(i as int, a@.len() as int);
                let sb = b@.subrange(i as int, b@.len() as int);
                assert(sa[0] == a@[i as int]);
                assert(sb[0] == b@[i as int]);
                assert(sa.subrange(1, sa.len() as int) =~= a@.subrange(
                    i as int + 1,
                    a@.len() as int,
                ));
                assert(sb.subrange(1, sb.len() as int) =~= b@.subrange(
                    i as int + 1,
                    b@.len() as int,
                ));
            }
            r
        }
    }
}

/// Whether `a` comes strictly before `b` in lexicographic order.
pub fn str_lt(a: &str, b: &str) -> (r: bool)
    ensures
        r == spec_str_lt(a@, b@),
{
    let alen = a.unicode_len();
    let blen = b.unicode_len();
    let r = str_lt_from(a, b, 0, alen, blen);
    proof {
        assert(a@.subrange(0, a@.len() as int) =~= a@);
        assert(b@.subrange(0, b@.len() as int) =~= b@);
    }
    r
}

/// Whether `a` comes before `b` or equals it, in lexicographic order.
pub fn str_le(a: &str, b: &str) -> (r: bool)
    ensures
        r == !spec_str_lt(b@, a@),
{
    !str_lt(b, a)
}

} // verus!
