//! Small helpers on byte strings that the rest of the library builds on:
//! classifying bytes, locating the last occurrence of a byte, comparing and
//! concatenating byte vectors, and rendering decimal numbers in specs.

use vstd::prelude::*;

verus! {

/// An ASCII digit, lowercase letter or uppercase letter.
pub open spec fn is_alnum_byte(b: u8) -> bool {
    ||| ('0' as u8) <= b && b <= ('9' as u8)
    ||| ('a' as u8) <= b && b <= ('z' as u8)
    ||| ('A' as u8) <= b && b <= ('Z' as u8)
}

/// Every byte of `s` is alphanumeric.
pub open spec fn all_alnum(s: Seq<u8>) -> bool {
    forall|i: int| 0 <= i < s.len() ==> is_alnum_byte(#[trigger] s[i])
}

/// Index of the last occurrence of `b` in `s`, or -1 when `b` does not occur.
pub open spec fn last_index(s: Seq<u8>, b: u8) -> int
    decreases s.len(),
{
    if s.len() == 0 {
        -1
    } else if s[s.len() - 1] == b {
        s.len() - 1
    } else {
        last_index(s.drop_last(), b)
    }
}

/// What `last_index` means: it is -1 exactly when `b` is absent, and otherwise
/// it points at an occurrence of `b` that no later index repeats.
pub proof fn lemma_last_index(s: Seq<u8>, b: u8)
    ensures
        last_index(s, b) == -1 ==> forall|i: int| 0 <= i < s.len() ==> s[i] != b,
        last_index(s, b) != -1 ==> {
            &&& 0 <= last_index(s, b) < s.len()
            &&& s[last_index(s, b)] == b
            &&& forall|i: int| last_index(s, b) < i < s.len() ==> s[i] != b
        },
    decreases s.len(),
{
    if s.len() > 0 && s[s.len() - 1] != b {
        lemma_last_index(s.drop_last(), b);
        assert forall|i: int| 0 <= i < s.len() - 1 implies s.drop_last()[i] == s[i] by {}
    }
}

/// Position of the last occurrence of `b` in `v`, if any.
pub fn find_last(v: &[u8], b: u8) -> (r: Option<usize>)
    ensures
        match r {
            Some(i) => i as int == last_index(v@, b),
            None => last_index(v@, b) == -1,
        },
{
    let mut i: usize = v.len();
    while i > 0
        invariant
            i <= v@.len(),
            forall|j: int| i <= j < v@.len() ==> v@[j] != b,
        decreases i,
    {
        i = i - 1;
        if v[i] == b {
            proof {
                lemma_last_index(v@, b);
                let li = last_index(v@, b);
                assert(v@[i as int] == b);
                assert(li != -1);
                if li < i {
                    assert(v@[i as int] != b);
                }
                if li > i {
                    assert(v@[li] != b);
                }
            }
            return Some(i);
        }
    }
    proof {
        lemma_last_index(v@, b);
    }
    None
}

/// Byte-for-byte equality of two slices.
pub fn bytes_eq(a: &[u8], b: &[u8]) -> (r: bool)
    ensures
        r == (a@ == b@),
{
    if a.len() != b.len() {
        assert(a@ != b@);
        return false;
    }
    let mut i: usize = 0;
    while i < a.len()
        invariant
            i <= a@.len(),
            a@.len() == b@.len(),
            forall|j: int| 0 <= j < i ==> a@[j] == b@[j],
        decreases a@.len() - i,
    {
        if a[i] != b[i] {
            assert(a@ != b@);
            return false;
        }
        i = i + 1;
    }
    assert(a@ =~= b@);
    true
}

/// Appends all of `src` to `dst`.
pub fn push_bytes(dst: &mut Vec<u8>, src: &[u8])
    ensures
        final(dst)@ == old(dst)@ + src@,
{
    let mut i: usize = 0;
    while i < src.len()
        invariant
            i <= src@.len(),
            dst@ == old(dst)@ + src@.take(i as int),
        decreases src@.len() - i,
    {
        dst.push(src[i]);
        assert(dst@ =~= old(dst)@ + src@.take(i + 1));
        i = i + 1;
    }
    assert(dst@ =~= old(dst)@ + src@);
}

/// The decimal rendering of `n`, most significant digit first.
pub open spec fn dec_u64(n: nat) -> Seq<u8>
    decreases n,
{
    if n < 10 {
        seq![(48 + n) as u8]
    } else {
        dec_u64(n / 10) + seq![(48 + n % 10) as u8]
    }
}

} // verus!
