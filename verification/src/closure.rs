//! Digest closures: lists of digests in which nothing occurs twice.

use crate::digest::Digest;
use vstd::prelude::*;

verus! {

/// What `collected` becomes when the digests of `more` are taken in one by one, each
/// only if it is not there yet.
pub open spec fn absorb(collected: Seq<Digest>, more: Seq<Digest>) -> Seq<Digest>
    decreases more.len(),
{
    if more.len() == 0 {
        collected
    } else {
        let before = absorb(collected, more.drop_last());
        if before.contains(more.last()) {
            before
        } else {
            before.push(more.last())
        }
    }
}

/// The digests of `digests` in order of first occurrence, each once.
pub open spec fn unique(digests: Seq<Digest>) -> Seq<Digest> {
    absorb(Seq::empty(), digests)
}

/// Taking in two lists one after the other is taking in the one followed by the other.
pub proof fn lemma_absorb_concat(collected: Seq<Digest>, a: Seq<Digest>, b: Seq<Digest>)
    ensures
        absorb(collected, a + b) == absorb(absorb(collected, a), b),
    decreases b.len(),
{
    if b.len() == 0 {
        assert(a + b =~= a);
    } else {
        assert((a + b).drop_last() =~= a + b.drop_last());
        assert((a + b).last() == b.last());
        lemma_absorb_concat(collected, a, b.drop_last());
    }
}

/// Taking in digests keeps a list free of duplicates, keeps what it held, and adds exactly
/// the digests taken in.
pub proof fn lemma_absorb_contents(collected: Seq<Digest>, more: Seq<Digest>)
    requires
        collected.no_duplicates(),
    ensures
        absorb(collected, more).no_duplicates(),
        forall|d: Digest| #[trigger]
            absorb(collected, more).contains(d) <==> collected.contains(d) || more.contains(d),
    decreases more.len(),
{
    if more.len() > 0 {
        let before = absorb(collected, more.drop_last());
        lemma_absorb_contents(collected, more.drop_last());
        let after = absorb(collected, more);
        assert forall|d: Digest| #[trigger]
            after.contains(d) <==> collected.contains(d) || more.contains(d) by {
            if more.contains(d) {
                let i = choose|i: int| 0 <= i < more.len() && more[i] == d;
                if i < more.len() - 1 {
                    assert(more.drop_last()[i] == d);
                }
            }
            if more.drop_last().contains(d) {
                let i = choose|i: int| 0 <= i < more.drop_last().len() && more.drop_last()[i] == d;
                assert(more[i] == d);
            }
            if !before.contains(more.last()) {
                assert(after == before.push(more.last()));
                assert(after.last() == more.last());
                if before.contains(d) {
                    let i = choose|i: int| 0 <= i < before.len() && before[i] == d;
                    assert(after[i] == d);
                }
                if after.contains(d) {
                    let i = choose|i: int| 0 <= i < after.len() && after[i] == d;
                    if i < before.len() {
                        assert(before[i] == d);
                    }
                }
            }
            assert(more.last() == more[more.len() - 1]);
        }
    }
}

/// The digests of `digests`, each once, are exactly the digests of `digests`.
pub proof fn lemma_unique_contents(digests: Seq<Digest>)
    ensures
        unique(digests).no_duplicates(),
        forall|d: Digest| #[trigger] unique(digests).contains(d) <==> digests.contains(d),
{
    lemma_absorb_contents(Seq::empty(), digests);
}

/// Takes `digest` into `collected` unless it is there already.
pub fn insert(collected: &mut Vec<Digest>, digest: Digest)
    ensures
        final(collected)@ == if old(collected)@.contains(digest) {
            old(collected)@
        } else {
            old(collected)@.push(digest)
        },
        final(collected)@ == absorb(old(collected)@, seq![digest]),
{
    proof {
        reveal_with_fuel(absorb, 2);
        assert(seq![digest].drop_last() =~= Seq::<Digest>::empty());
        assert(seq![digest].last() == digest);
        assert(absorb(collected@, seq![digest].drop_last()) == collected@);
    }
    let mut i: usize = 0;
    while i < collected.len()
        invariant
            *collected == *old(collected),
            i <= collected@.len(),
            forall|j: int| 0 <= j < i ==> collected@[j] != digest,
            absorb(collected@, seq![digest]) == if collected@.contains(digest) {
                collected@
            } else {
                collected@.push(digest)
            },
        decreases collected@.len() - i,
    {
        if collected[i] == digest {
            assert(collected@.contains(digest));
            return;
        }
        i += 1;
    }
    assert(!collected@.contains(digest));
    collected.push(digest);
}

/// Takes each of `digests` into `collected` unless it is there already.
pub fn extend(collected: &mut Vec<Digest>, digests: &Vec<Digest>)
    ensures
        final(collected)@ == absorb(old(collected)@, digests@),
{
    let mut i: usize = 0;
    assert(digests@.take(0) =~= Seq::<Digest>::empty());
    while i < digests.len()
        invariant
            i <= digests@.len(),
            collected@ == absorb(old(collected)@, digests@.take(i as int)),
        decreases digests@.len() - i,
    {
        proof {
            assert(digests@.take(i + 1) =~= digests@.take(i as int) + seq![digests@[i as int]]);
            lemma_absorb_concat(old(collected)@, digests@.take(i as int), seq![digests@[i as int]]);
        }
        insert(collected, digests[i]);
        i += 1;
    }
    assert(digests@.take(digests@.len() as int) =~= digests@);
}

/// A list followed by another holds what either holds.
pub proof fn lemma_concat_contains(a: Seq<Digest>, b: Seq<Digest>, d: Digest)
    ensures
        (a + b).contains(d) <==> a.contains(d) || b.contains(d),
{
    if a.contains(d) {
        let i = choose|i: int| 0 <= i < a.len() && a[i] == d;
        assert((a + b)[i] == d);
    }
    if b.contains(d) {
        let i = choose|i: int| 0 <= i < b.len() && b[i] == d;
        assert((a + b)[a.len() + i] == d);
    }
    if (a + b).contains(d) {
        let i = choose|i: int| 0 <= i < (a + b).len() && (a + b)[i] == d;
        if i < a.len() {
            assert(a[i] == d);
        } else {
            assert(b[i - a.len()] == d);
        }
    }
}

} // verus!
