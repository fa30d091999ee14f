//! Byte strings: the names, the words and the lexemes of a program.

use vstd::prelude::*;

verus! {

/// A copy of a byte string.
pub fn clone_bytes(v: &Vec<u8>) -> (r: Vec<u8>)
    ensures
        r@ == v@,
{
    let mut r: Vec<u8> = Vec::new();
    let mut i: usize = 0;
    while i < v.len()
        invariant
            i <= v.len(),
            r@ == v@.subrange(0, i as int),
        decreases v.len() - i,
    {
        r.push(v[i]);
        assert(r@ =~= v@.subrange(0, i + 1));
        i += 1;
    }
    assert(r@ =~= v@);
    r
}

/// Whether two byte strings hold the same bytes.
pub fn bytes_eq(a: &Vec<u8>, b: &Vec<u8>) -> (r: bool)
    ensures
        r == (a@ == b@),
{
    if a.len() != b.len() {
        return false;
    }
    let mut i: usize = 0;
    while i < a.len()
        invariant
            i <= a.len(),
            a.len() == b.len(),
            a@.subrange(0, i as int) == b@.subrange(0, i as int),
        decreases a.len() - i,
    {
        if a[i] != b[i] {
            return false;
        }
        assert(a@.subrange(0, i + 1) =~= a@.subrange(0, i as int).push(a@[i as int]));
        assert(b@.subrange(0, i + 1) =~= b@.subrange(0, i as int).push(b@[i as int]));
        i += 1;
    }
    assert(a@ =~= a@.subrange(0, a.len() as int));
    assert(b@ =~= b@.subrange(0, b.len() as int));
    true
}

/// Appends the bytes of `tail` to `v`.
pub fn append_bytes(v: &mut Vec<u8>, tail: &Vec<u8>)
    ensures
        final(v)@ == old(v)@ + tail@,
{
    let mut i: usize = 0;
    while i < tail.len()
        invariant
            i <= tail.len(),
            v@ == old(v)@ + tail@.subrange(0, i as int),
        decreases tail.len() - i,
    {
        v.push(tail[i]);
        assert(v@ =~= old(v)@ + tail@.subrange(0, i + 1));
        i += 1;
    }
    assert(tail@.subrange(0, tail.len() as int) =~= tail@);
}

/// The index of the first of the first `n` bytes that is `byte`, if there
/// is one.
pub open spec fn first_of(s: Seq<u8>, byte: u8, n: int) -> Option<int>
    decreases n,
{
    if n <= 0 {
        None
    } else {
        match first_of(s, byte, n - 1) {
            Some(i) => Some(i),
            None => if s[n - 1] == byte {
                Some(n - 1)
            } else {
                None
            },
        }
    }
}

/// The bytes of `text` from index `from` up to `to`.
pub fn slice_bytes(text: &Vec<u8>, from: usize, to: usize) -> (r: Vec<u8>)
    requires
        from <= to <= text.len(),
    ensures
        r@ == text@.subrange(from as int, to as int),
{
    let mut r: Vec<u8> = Vec::new();
    let mut i: usize = from;
    while i < to
        invariant
            from <= i <= to <= text.len(),
            r@ == text@.subrange(from as int, i as int),
        decreases to - i,
    {
        r.push(text[i]);
        assert(r@ =~= text@.subrange(from as int, i + 1));
        i += 1;
    }
    r
}

/// The first of the first `n` bytes that is `byte` is the first of any
/// more.
pub proof fn lemma_first_of_stays(s: Seq<u8>, byte: u8, n: int, more: int)
    requires
        n <= more,
        first_of(s, byte, n) is Some,
    ensures
        first_of(s, byte, more) == first_of(s, byte, n),
    decreases more - n,
{
    if n < more {
        lemma_first_of_stays(s, byte, n, more - 1);
    }
}

/// The index of the first byte of `s` that is `byte`, if there is one.
pub fn find_byte(s: &Vec<u8>, byte: u8) -> (r: Option<usize>)
    ensures
        match r {
            Some(i) => i < s.len() && first_of(s@, byte, s.len() as int) == Some(i as int),
            None => first_of(s@, byte, s.len() as int) is None,
        },
{
    let mut i: usize = 0;
    while i < s.len()
        invariant
            i <= s.len(),
            first_of(s@, byte, i as int) is None,
        decreases s.len() - i,
    {
        if s[i] == byte {
            proof {
                assert(first_of(s@, byte, i + 1) == Some(i as int));
                lemma_first_of_stays(s@, byte, i + 1, s.len() as int);
            }
            return Some(i);
        }
        i += 1;
    }
    None
}

} // verus!
