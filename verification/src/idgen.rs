//! The identifier generator: short alphanumeric tokens, each issued at most
//! once for the life of the generator. Generation is delegated to the
//! `tiny_id` crate; its generator walks a full-period linear congruential
//! cycle over all codes of the configured length and then lengthens the codes,
//! which the crate documents as collision-free.

use vstd::prelude::*;
use crate::bytes::is_alnum_byte;

verus! {

#[verifier::external_type_specification]
#[verifier::external_body]
#[verifier::reject_recursive_types(T)]
pub struct ExShortCodeGenerator<T: Copy>(tiny_id::ShortCodeGenerator<T>);

/// The set of codes (as byte strings) this generator has returned so far.
pub uninterp spec fn gen_issued(g: tiny_id::ShortCodeGenerator<char>) -> Set<Seq<u8>>;

/// The length of the codes the generator currently produces.
pub uninterp spec fn gen_code_len(g: tiny_id::ShortCodeGenerator<char>) -> nat;

/// How many codes of the current length are still unissued.
pub uninterp spec fn gen_remaining(g: tiny_id::ShortCodeGenerator<char>) -> nat;

/// 62 to the power `n`: the number of alphanumeric codes of length `n`.
pub open spec fn pow62(n: nat) -> nat
    decreases n,
{
    if n == 0 {
        1
    } else {
        62 * pow62((n - 1) as nat)
    }
}

/// Relies on `tiny_id::ShortCodeGenerator::new_alphanumeric`: a fresh
/// generator over the 62-character alphanumeric alphabet that has issued
/// nothing and has all `62^length` codes of the requested length ahead of it.
/// The length is capped at 9: the crate steps a linear congruential generator
/// by multiplying its state (a value below `62^length`) by 125 in a `u64`,
/// and `125 * 62^9` is the largest such product that cannot overflow; at
/// length 10 most seeds would overflow on the first step.
#[verifier::external_body]
fn generator_new(length: usize) -> (g: tiny_id::ShortCodeGenerator<char>)
    requires
        1 <= length <= 9,
    ensures
        gen_issued(g) == Set::<Seq<u8>>::empty(),
        gen_code_len(g) == length,
        gen_remaining(g) == pow62(length as nat),
{
    tiny_id::ShortCodeGenerator::<char>::new_alphanumeric(length)
}

/// Relies on `tiny_id::ShortCodeGenerator::next_string` under the default
/// `IncreaseLength` exhaustion strategy, which the crate documents as
/// collision-free: every call returns an alphanumeric code never returned
/// before; while codes of the current length remain, the code has exactly
/// that length. Caveat: once a whole length is exhausted the crate rebuilds
/// at the next length, whose own arithmetic headroom shrinks; from the
/// capped starting lengths the ten-character rebuild, where the crate's
/// multiply could overflow, lies beyond `62^9` (about `10^16`) draws, farther
/// than any process lifetime reaches.
#[verifier::external_body]
fn generator_next(g: &mut tiny_id::ShortCodeGenerator<char>) -> (r: Vec<u8>)
    ensures
        !gen_issued(*old(g)).contains(r@),
        gen_issued(*final(g)) == gen_issued(*old(g)).insert(r@),
        r@.len() >= 1,
        r@.len() == gen_code_len(*final(g)),
        gen_code_len(*final(g)) >= gen_code_len(*old(g)),
        forall|i: int| 0 <= i < r@.len() ==> is_alnum_byte(#[trigger] r@[i]),
        gen_remaining(*old(g)) >= 1 ==> gen_code_len(*final(g)) == gen_code_len(*old(g))
            && gen_remaining(*final(g)) == gen_remaining(*old(g)) - 1,
{
    g.next_string().into_bytes()
}

/// A generator of short identifiers, unique for its whole lifetime.
pub struct IdGen {
    inner: tiny_id::ShortCodeGenerator<char>,
}

impl IdGen {
    /// The identifiers this generator has issued so far.
    pub closed spec fn issued(&self) -> Set<Seq<u8>> {
        gen_issued(self.inner)
    }

    /// The length of the identifiers it currently issues.
    pub closed spec fn code_len(&self) -> nat {
        gen_code_len(self.inner)
    }

    /// How many identifiers of the current length are still unissued.
    pub closed spec fn remaining(&self) -> nat {
        gen_remaining(self.inner)
    }

    /// A fresh generator for alphanumeric identifiers of the given length.
    pub fn new(length: usize) -> (g: IdGen)
        requires
            1 <= length <= 9,
        ensures
            g.issued() == Set::<Seq<u8>>::empty(),
            g.code_len() == length,
            g.remaining() == pow62(length as nat),
    {
        IdGen { inner: generator_new(length) }
    }

    /// Issues the next identifier: a non-empty alphanumeric token that was
    /// never issued before and is recorded as issued from now on.
    pub fn next_id(&mut self) -> (r: Vec<u8>)
        ensures
            !old(self).issued().contains(r@),
            final(self).issued() == old(self).issued().insert(r@),
            r@.len() >= 1,
            r@.len() == final(self).code_len(),
            final(self).code_len() >= old(self).code_len(),
            forall|i: int| 0 <= i < r@.len() ==> is_alnum_byte(#[trigger] r@[i]),
            old(self).remaining() >= 1 ==> final(self).code_len() == old(self).code_len()
                && final(self).remaining() == old(self).remaining() - 1,
    {
        generator_next(&mut self.inner)
    }
}

/// Any step sequence that always returns a value outside the set issued so
/// far, and records it, never contains the value issued at step `i` in the
/// set before step `j` is taken, for `i < j`.
proof fn lemma_issued_accumulates(ids: Seq<Seq<u8>>, sets: Seq<Set<Seq<u8>>>, i: int, j: int)
    requires
        sets.len() == ids.len() + 1,
        forall|k: int| 0 <= k < ids.len() ==> !(#[trigger] sets[k]).contains(ids[k]),
        forall|k: int| 0 <= k < ids.len() ==> #[trigger] sets[k + 1] == sets[k].insert(ids[k]),
        0 <= i < j <= ids.len(),
    ensures
        sets[j].contains(ids[i]),
    decreases j - i,
{
    if j == i + 1 {
        assert(sets[i + 1] == sets[i].insert(ids[i]));
    } else {
        lemma_issued_accumulates(ids, sets, i, j - 1);
        assert(sets[(j - 1) + 1] == sets[j - 1].insert(ids[j - 1]));
    }
}

/// Uniqueness of issued identifiers: over any run of issue steps — each
/// returning a value not in the set issued so far and adding it to that set —
/// the returned values are pairwise distinct.
pub proof fn lemma_ids_pairwise_distinct(ids: Seq<Seq<u8>>, sets: Seq<Set<Seq<u8>>>)
    requires
        sets.len() == ids.len() + 1,
        forall|k: int| 0 <= k < ids.len() ==> !(#[trigger] sets[k]).contains(ids[k]),
        forall|k: int| 0 <= k < ids.len() ==> #[trigger] sets[k + 1] == sets[k].insert(ids[k]),
    ensures
        forall|i: int, j: int| 0 <= i < j < ids.len() ==> ids[i] != ids[j],
{
    assert forall|i: int, j: int| 0 <= i < j < ids.len() implies ids[i] != ids[j] by {
        lemma_issued_accumulates(ids, sets, i, j);
        assert(!sets[j].contains(ids[j]));
    }
}

} // verus!
