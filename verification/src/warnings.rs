//! Adaptive error logging: occurrence counters keyed by error text, and the rule that
//! decides which occurrences are worth a warning.

use vstd::arithmetic::power::pow;
use vstd::arithmetic::power2::{is_pow2, is_pow2_equiv, is_pow2_exists};
use vstd::prelude::*;

verus! {

/// How loudly repeated remote-cache failures are reported.
#[derive(Clone, Copy, Debug, PartialEq, Eq, Hash, Structural)]
pub enum RemoteCacheWarningsBehavior {
    /// Never warn.
    Ignore,
    /// Warn on the first occurrence of each distinct error only.
    FirstOnly,
    /// Warn on the occurrences whose number is a power of two.
    Backoff,
}

/// The direction of the cache operation that failed.
#[derive(Clone, Copy, Debug, PartialEq, Eq, Hash, Structural)]
pub enum CacheErrorType {
    ReadError,
    WriteError,
}

/// The level at which a failure is reported.
#[derive(Clone, Copy, Debug, PartialEq, Eq, Hash, Structural)]
pub enum LogLevel {
    Debug,
    Warn,
}

/// Whether occurrence number `count` of an error is reported as a warning.
pub open spec fn warns_at(behavior: RemoteCacheWarningsBehavior, count: nat) -> bool {
    match behavior {
        RemoteCacheWarningsBehavior::Ignore => false,
        RemoteCacheWarningsBehavior::FirstOnly => count == 1,
        RemoteCacheWarningsBehavior::Backoff => is_pow2(count as int),
    }
}

/// The level for occurrence number `count` of an error.
pub open spec fn level_at(behavior: RemoteCacheWarningsBehavior, count: nat) -> LogLevel {
    if warns_at(behavior, count) {
        LogLevel::Warn
    } else {
        LogLevel::Debug
    }
}

/// Whether `n` is one of 1, 2, 4, 8, ...
pub fn is_power_of_two(n: usize) -> (r: bool)
    ensures
        r == is_pow2(n as int),
{
    reveal(is_pow2);
    if n == 0 {
        return false;
    }
    let mut m: usize = n;
    while m % 2 == 0
        invariant
            m >= 1,
            is_pow2(m as int) == is_pow2(n as int),
        decreases m,
    {
        reveal(is_pow2);
        m = m / 2;
    }
    m == 1
}

/// The behavior that goes by `name` in configuration.
pub open spec fn named(name: Seq<char>) -> Option<RemoteCacheWarningsBehavior> {
    if name == "ignore"@ {
        Some(RemoteCacheWarningsBehavior::Ignore)
    } else if name == "first_only"@ {
        Some(RemoteCacheWarningsBehavior::FirstOnly)
    } else if name == "backoff"@ {
        Some(RemoteCacheWarningsBehavior::Backoff)
    } else {
        None
    }
}

/// No behavior goes by the name that was given.
#[derive(Clone, Copy, Debug, PartialEq, Eq, Hash, Structural)]
pub struct UnknownBehavior;

impl core::str::FromStr for RemoteCacheWarningsBehavior {
    type Err = UnknownBehavior;

    /// Reads a behavior from its name in configuration, as `from_name` does; a name that
    /// no behavior goes by is an error.
    fn from_str(name: &str) -> (r: Result<RemoteCacheWarningsBehavior, UnknownBehavior>)
        ensures
            r == match named(name@) {
                Some(behavior) => Ok::<RemoteCacheWarningsBehavior, UnknownBehavior>(behavior),
                None => Err(UnknownBehavior),
            },
    {
        match RemoteCacheWarningsBehavior::from_name(name) {
            Some(behavior) => Ok(behavior),
            None => Err(UnknownBehavior),
        }
    }
}

impl RemoteCacheWarningsBehavior {
    /// Reads a behavior from its name in configuration: `ignore`, `first_only` or
    /// `backoff`, in exactly this spelling.
    pub fn from_name(name: &str) -> (r: Option<RemoteCacheWarningsBehavior>)
        ensures
            r == named(name@),
    {
        let name = name.to_owned();
        if name == "ignore".to_owned() {
            Some(RemoteCacheWarningsBehavior::Ignore)
        } else if name == "first_only".to_owned() {
            Some(RemoteCacheWarningsBehavior::FirstOnly)
        } else if name == "backoff".to_owned() {
            Some(RemoteCacheWarningsBehavior::Backoff)
        } else {
            None
        }
    }

    /// Decides whether occurrence number `count` of an error is reported as a warning.
    pub fn should_warn(self, count: usize) -> (r: bool)
        ensures
            r == warns_at(self, count as nat),
    {
        match self {
            RemoteCacheWarningsBehavior::Ignore => false,
            RemoteCacheWarningsBehavior::FirstOnly => count == 1,
            RemoteCacheWarningsBehavior::Backoff => is_power_of_two(count),
        }
    }
}

/// The count that `counts` holds for `key`: zero where it holds none.
pub open spec fn count_in(counts: Map<Seq<char>, nat>, key: Seq<char>) -> nat {
    if counts.contains_key(key) {
        counts[key]
    } else {
        0
    }
}

/// Occurrence counts keyed by the exact text of an error.
pub struct ErrorCounter {
    entries: Vec<(String, usize)>,
}

impl View for ErrorCounter {
    type V = Map<Seq<char>, nat>;

    closed spec fn view(&self) -> Map<Seq<char>, nat> {
        Map::new(|key: Seq<char>| self.has(key), |key: Seq<char>| self.tally(key))
    }
}

impl ErrorCounter {
    /// Entry `i` is the first one whose key is `key`: the one that counts.
    spec fn holds(self, i: int, key: Seq<char>) -> bool {
        &&& 0 <= i < self.entries@.len()
        &&& self.entries@[i].0@ == key
        &&& forall|j: int| 0 <= j < i ==> self.entries@[j].0@ != key
    }

    spec fn has(self, key: Seq<char>) -> bool {
        exists|i: int| self.holds(i, key)
    }

    spec fn tally(self, key: Seq<char>) -> nat {
        if self.has(key) {
            self.entries@[choose|i: int| self.holds(i, key)].1 as nat
        } else {
            0
        }
    }

    /// How often the error with text `key` has been recorded.
    pub open spec fn occurrences(self, key: Seq<char>) -> nat {
        count_in(self@, key)
    }

    proof fn lemma_holds_unique(self, i: int, key: Seq<char>)
        requires
            self.holds(i, key),
        ensures
            self.has(key),
            self.tally(key) == self.entries@[i].1,
            self.occurrences(key) == self.entries@[i].1,
    {
        let k = choose|k: int| self.holds(k, key);
        assert(k == i);
    }

    proof fn lemma_absent(self, key: Seq<char>)
        requires
            forall|j: int| 0 <= j < self.entries@.len() ==> self.entries@[j].0@ != key,
        ensures
            !self.has(key),
            self.occurrences(key) == 0,
    {
    }

    /// A counter that has recorded nothing.
    pub fn new() -> (c: ErrorCounter)
        ensures
            c@ == Map::<Seq<char>, nat>::empty(),
    {
        let c = ErrorCounter { entries: Vec::new() };
        assert(c@ =~= Map::<Seq<char>, nat>::empty());
        c
    }

    /// The number of occurrences recorded for `err`.
    pub fn count(&self, err: &str) -> (n: usize)
        ensures
            n == self.occurrences(err@),
    {
        let wanted = err.to_owned();
        let mut i: usize = 0;
        while i < self.entries.len()
            invariant
                wanted@ == err@,
                i <= self.entries@.len(),
                forall|j: int| 0 <= j < i ==> self.entries@[j].0@ != err@,
            decreases self.entries@.len() - i,
        {
            if self.entries[i].0 == wanted {
                proof {
                    self.lemma_holds_unique(i as int, err@);
                }
                return self.entries[i].1;
            }
            i += 1;
        }
        proof {
            self.lemma_absent(err@);
        }
        0
    }

    /// Records one more occurrence of `err` and returns how many there have been.
    pub fn increment(&mut self, err: &str) -> (n: usize)
        requires
            old(self).occurrences(err@) < usize::MAX,
        ensures
            n == old(self).occurrences(err@) + 1,
            final(self)@ == old(self)@.insert(err@, n as nat),
    {
        let wanted = err.to_owned();
        let mut i: usize = 0;
        while i < self.entries.len()
            invariant
                wanted@ == err@,
                *self == *old(self),
                old(self).occurrences(err@) < usize::MAX,
                i <= self.entries@.len(),
                forall|j: int| 0 <= j < i ==> self.entries@[j].0@ != err@,
            decreases self.entries@.len() - i,
        {
            if self.entries[i].0 == wanted {
                proof {
                    old(self).lemma_holds_unique(i as int, err@);
                }
                let n: usize = self.entries[i].1 + 1;
                let key = self.entries[i].0.clone();
                self.entries.set(i, (key, n));
                proof {
                    let before = old(self).entries@;
                    let after = self.entries@;
                    assert forall|j: int| 0 <= j < after.len() implies after[j].0@
                        == before[j].0@ by {}
                    self.lemma_holds_unique(i as int, err@);
                    assert forall|key: Seq<char>| key != err@ implies self.has(key) == old(
                        self,
                    ).has(key) && self.tally(key) == old(self).tally(key) by {
                        assert forall|j: int| self.holds(j, key) == old(self).holds(j, key) by {}
                        if old(self).has(key) {
                            let j = choose|j: int| old(self).holds(j, key);
                            old(self).lemma_holds_unique(j, key);
                            self.lemma_holds_unique(j, key);
                        }
                    }
                    assert(self@ =~= old(self)@.insert(err@, n as nat));
                }
                return n;
            }
            i += 1;
        }
        proof {
            old(self).lemma_absent(err@);
        }
        self.entries.push((wanted, 1));
        proof {
            let last = old(self).entries@.len() as int;
            let before = old(self).entries@;
            let after = self.entries@;
            assert(after.len() == last + 1);
            assert(after[last].0@ == err@);
            assert forall|j: int| 0 <= j < last implies after[j] == before[j] by {}
            self.lemma_holds_unique(last, err@);
            assert forall|key: Seq<char>| key != err@ implies self.has(key) == old(self).has(key)
                && self.tally(key) == old(self).tally(key) by {
                assert forall|j: int| self.holds(j, key) == old(self).holds(j, key) by {}
                if old(self).has(key) {
                    let j = choose|j: int| old(self).holds(j, key);
                    old(self).lemma_holds_unique(j, key);
                    self.lemma_holds_unique(j, key);
                }
            }
            assert(self@ =~= old(self)@.insert(err@, 1nat));
        }
        1
    }
}

/// The counts after `k` more occurrences of the error `key` have been recorded.
pub open spec fn after_occurrences(counts: Map<Seq<char>, nat>, key: Seq<char>, k: nat) -> Map<
    Seq<char>,
    nat,
>
    decreases k,
{
    if k == 0 {
        counts
    } else {
        let before = after_occurrences(counts, key, (k - 1) as nat);
        before.insert(key, count_in(before, key) + 1)
    }
}

/// Recording an error `k` times raises its count by `k` and leaves every other count as it
/// was: counts never fall, and an error recorded `k` times from the start counts `k`.
pub proof fn law_counting(counts: Map<Seq<char>, nat>, key: Seq<char>, k: nat)
    ensures
        count_in(after_occurrences(counts, key, k), key) == count_in(counts, key) + k,
        forall|other: Seq<char>|
            other != key ==> count_in(after_occurrences(counts, key, k), other) == count_in(
                counts,
                other,
            ),
        count_in(after_occurrences(Map::empty(), key, k), key) == k,
    decreases k,
{
    if k > 0 {
        law_counting(counts, key, (k - 1) as nat);
        law_counting(Map::empty(), key, (k - 1) as nat);
    }
}

/// Which occurrences are reported as warnings: none under `Ignore`, the first under
/// `FirstOnly`, and under `Backoff` those whose number is a power of two: 1, 2, 4, 8, ...
pub proof fn law_warnings(n: nat)
    ensures
        !warns_at(RemoteCacheWarningsBehavior::Ignore, n),
        warns_at(RemoteCacheWarningsBehavior::FirstOnly, n) <==> n == 1,
        warns_at(RemoteCacheWarningsBehavior::Backoff, n) <==> exists|e: nat| pow(2, e) == n,
{
    is_pow2_equiv(n as int);
    assert(is_pow2_exists(n as int) <==> exists|e: nat| pow(2, e) == n);
}

} // verus!
