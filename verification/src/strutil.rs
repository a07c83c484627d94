//! Small helpers for building and reading strings character by character.

use vstd::prelude::*;
use vstd::string::StrSliceExecFns;

verus! {

/// Relies on String::push: appends exactly the one character.
#[verifier::external_body]
pub(crate) fn push_char(s: &mut String, c: char)
    ensures
        final(s)@ == old(s)@.push(c),
{
    s.push(c);
}

/// Relies on char::from_u32: `Some` exactly for code points that are not
/// surrogates and not above 0x10FFFF, returning the character with that
/// code point.
#[verifier::external_body]
pub(crate) fn char_from_u32(n: u32) -> (r: Option<char>)
    ensures
        (r is Some) == (n < 0xD800 || (0xE000 <= n && n <= 0x10FFFF)),
        r is Some ==> (r->0) as int == n as int,
{
    char::from_u32(n)
}

/// Whether two text slices hold the same characters.
pub fn str_eq(a: &str, b: &str) -> (r: bool)
    ensures
        r == (a@ == b@),
{
    let al = a.unicode_len();
    let bl = b.unicode_len();
    if al != bl {
        return false;
    }
    let mut i: usize = 0;
    while i < al
        invariant
            i <= al,
            al == a@.len(),
            al == b@.len(),
            forall|k: int| 0 <= k < i ==> a@[k] == b@[k],
        decreases al - i,
    {
        if a.get_char(i) != b.get_char(i) {
            return false;
        }
        i = i + 1;
    }
    proof {
        assert(a@ =~= b@);
    }
    true
}

/// Move one value out of an optional slot, leaving it empty.
pub(crate) fn take_opt<T>(o: &mut Option<T>) -> (r: Option<T>)
    ensures
        r == *old(o),
        *final(o) is None,
{
    let mut t: Option<T> = None;
    core::mem::swap(o, &mut t);
    t
}

/// Move the contents out of a vector, leaving it empty.
pub(crate) fn take_vec<T>(v: &mut Vec<T>) -> (r: Vec<T>)
    ensures
        r == *old(v),
        final(v)@ == Seq::<T>::empty(),
{
    let mut t: Vec<T> = Vec::new();
    core::mem::swap(v, &mut t);
    t
}

/// Move the text out of `s`, leaving it empty.
pub fn take_string(s: &mut String) -> (r: String)
    ensures
        r@ == old(s)@,
        final(s)@ == Seq::<char>::empty(),
{
    let mut t = String::new();
    core::mem::swap(s, &mut t);
    t
}

/// A one-character string.
pub fn char_to_string(c: char) -> (s: String)
    ensures
        s@ == seq![c],
{
    let mut s = String::new();
    push_char(&mut s, c);
    proof {
        assert(s@ =~= seq![c]);
    }
    s
}

/// The characters of `s`, as a vector.
pub fn chars_of(s: &str) -> (v: Vec<char>)
    ensures
        v@ == s@,
{
    let n = s.unicode_len();
    let mut v: Vec<char> = Vec::new();
    let mut i: usize = 0;
    while i < n
        invariant
            i <= n,
            n == s@.len(),
            v@ == s@.take(i as int),
        decreases n - i,
    {
        let c = s.get_char(i);
        v.push(c);
        proof {
            assert(s@.take(i + 1 as int) =~= s@.take(i as int).push(s@[i as int]));
        }
        i = i + 1;
    }
    proof {
        assert(s@.take(n as int) =~= s@);
    }
    v
}

/// The text `chars[from .. to]`, materialized as an owned string.
pub fn string_from_range(chars: &Vec<char>, from: usize, to: usize) -> (s: String)
    requires
        from <= to <= chars@.len(),
    ensures
        s@ == chars@.subrange(from as int, to as int),
{
    let mut s = String::new();
    let mut i: usize = from;
    while i < to
        invariant
            from <= i <= to <= chars@.len(),
            s@ == chars@.subrange(from as int, i as int),
        decreases to - i,
    {
        push_char(&mut s, chars[i]);
        proof {
            assert(chars@.subrange(from as int, i + 1 as int)
                =~= chars@.subrange(from as int, i as int).push(chars@[i as int]));
        }
        i = i + 1;
    }
    s
}

} // verus!
