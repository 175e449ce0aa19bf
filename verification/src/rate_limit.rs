//! Per-caller token buckets for the three independent limits: quote
//! requests, bundle requests, and gas-sponsorship grants.
//!
//! Admission atomically tests and decrements one token and fails closed:
//! a bucket at zero rejects rather than going negative. Settlement credit
//! atomically increments one token, capped at the bucket's capacity.
//! [`lemma_token_bucket_safety`] states the safety law for every sequence
//! of interleaved operations.

use vstd::prelude::*;
use vstd::pervasive::VecAdditionalExecFns;

use crate::types::LimitKind;

verus! {

/// One token bucket: its current tokens and its capacity
#[derive(Clone, Copy, PartialEq, Eq, Structural, Debug)]
pub struct Bucket {
    /// The tokens currently available
    pub tokens: u64,
    /// The most tokens the bucket can hold
    pub capacity: u64,
}

/// The bucket after one admission attempt, and whether it was admitted
pub open spec fn spec_admit(b: Bucket) -> (Bucket, bool) {
    if b.tokens > 0 {
        (Bucket { tokens: (b.tokens - 1) as u64, capacity: b.capacity }, true)
    } else {
        (b, false)
    }
}

/// The bucket after one settlement credit: one more token, capped at the
/// capacity
pub open spec fn spec_credit(b: Bucket) -> Bucket {
    if b.tokens < b.capacity {
        Bucket { tokens: (b.tokens + 1) as u64, capacity: b.capacity }
    } else {
        b
    }
}

impl Bucket {
    /// A full bucket of the given capacity
    pub fn new_full(capacity: u64) -> (r: Bucket)
        ensures
            r == (Bucket { tokens: capacity, capacity }),
    {
        Bucket { tokens: capacity, capacity }
    }

    /// Whether the bucket is well formed: it never holds more tokens than
    /// its capacity
    pub open spec fn wf(self) -> bool {
        self.tokens <= self.capacity
    }

    /// Test whether a token is available, without taking one
    pub fn check(&self) -> (r: bool)
        ensures
            r == (self.tokens > 0),
    {
        self.tokens > 0
    }

    /// Atomically test and take one token. Fails closed: a bucket at zero
    /// is left untouched and the caller is rejected.
    pub fn consume(&mut self) -> (r: bool)
        ensures
            r == spec_admit(*old(self)).1,
            *final(self) == spec_admit(*old(self)).0,
    {
        if self.tokens > 0 {
            self.tokens = self.tokens - 1;
            true
        } else {
            false
        }
    }

    /// Atomically return one token, capped at the capacity
    pub fn credit(&mut self)
        ensures
            *final(self) == spec_credit(*old(self)),
    {
        if self.tokens < self.capacity {
            self.tokens = self.tokens + 1;
        }
    }
}

/// One operation on a bucket, for stating laws about whole histories
pub enum BucketOp {
    /// An admission attempt
    Admit,
    /// A settlement credit
    Credit,
}

/// The bucket after running a history of operations, oldest first
pub open spec fn run_ops(b: Bucket, ops: Seq<BucketOp>) -> Bucket
    decreases ops.len(),
{
    if ops.len() == 0 {
        b
    } else {
        let b1 = match ops.first() {
            BucketOp::Admit => spec_admit(b).0,
            BucketOp::Credit => spec_credit(b),
        };
        run_ops(b1, ops.drop_first())
    }
}

/// How many admissions in a history succeed
pub open spec fn admitted_count(b: Bucket, ops: Seq<BucketOp>) -> nat
    decreases ops.len(),
{
    if ops.len() == 0 {
        0
    } else {
        match ops.first() {
            BucketOp::Admit => (if b.tokens > 0 {
                1nat
            } else {
                0nat
            }) + admitted_count(spec_admit(b).0, ops.drop_first()),
            BucketOp::Credit => admitted_count(spec_credit(b), ops.drop_first()),
        }
    }
}

/// How many credits a history contains
pub open spec fn credit_count(ops: Seq<BucketOp>) -> nat
    decreases ops.len(),
{
    if ops.len() == 0 {
        0
    } else {
        (match ops.first() {
            BucketOp::Credit => 1nat,
            BucketOp::Admit => 0nat,
        }) + credit_count(ops.drop_first())
    }
}

/// Token-bucket safety: over any history of interleaved admissions and
/// credits on a well-formed bucket, at most `tokens + credits` admissions
/// succeed, and the bucket stays well formed — credit never raises the
/// tokens above the capacity, and admission never drives them negative.
pub proof fn lemma_token_bucket_safety(b: Bucket, ops: Seq<BucketOp>)
    requires
        b.wf(),
    ensures
        admitted_count(b, ops) <= b.tokens + credit_count(ops),
        run_ops(b, ops).wf(),
        run_ops(b, ops).capacity == b.capacity,
        run_ops(b, ops).tokens + admitted_count(b, ops) <= b.tokens + credit_count(ops),
    decreases ops.len(),
{
    if ops.len() > 0 {
        match ops.first() {
            BucketOp::Admit => {
                lemma_token_bucket_safety(spec_admit(b).0, ops.drop_first());
            },
            BucketOp::Credit => {
                lemma_token_bucket_safety(spec_credit(b), ops.drop_first());
            },
        }
    }
}

/// The special case of a history with no credits: starting from `n`
/// tokens, at most `n` admissions ever succeed, however many are tried
/// and in whatever interleaving.
pub proof fn lemma_admissions_bounded_by_tokens(b: Bucket, ops: Seq<BucketOp>)
    requires
        b.wf(),
        credit_count(ops) == 0,
    ensures
        admitted_count(b, ops) <= b.tokens,
{
    lemma_token_bucket_safety(b, ops);
}

/// The buckets of one caller, one per limit kind
#[derive(Clone, Copy, PartialEq, Eq, Structural, Debug)]
pub struct CallerBuckets {
    /// The caller these buckets belong to
    pub caller: u64,
    /// The bucket for quote requests
    pub quote: Bucket,
    /// The bucket for bundle requests
    pub bundle: Bucket,
    /// The bucket for gas-sponsorship grants
    pub sponsorship: Bucket,
}

impl CallerBuckets {
    /// The bucket for one limit kind
    pub open spec fn spec_get(self, kind: LimitKind) -> Bucket {
        match kind {
            LimitKind::Quote => self.quote,
            LimitKind::Bundle => self.bundle,
            LimitKind::Sponsorship => self.sponsorship,
        }
    }

}

/// The first entry for a caller in a store, if any
pub open spec fn lookup(s: Seq<CallerBuckets>, caller: u64) -> Option<CallerBuckets>
    decreases s.len(),
{
    if s.len() == 0 {
        None
    } else if s.first().caller == caller {
        Some(s.first())
    } else {
        lookup(s.drop_first(), caller)
    }
}

/// A found index with no earlier match determines what `lookup` returns
proof fn lemma_lookup_at_index(s: Seq<CallerBuckets>, caller: u64, i: int)
    requires
        0 <= i < s.len(),
        s[i].caller == caller,
        forall|j: int| 0 <= j < i ==> s[j].caller != caller,
    ensures
        lookup(s, caller) == Some(s[i]),
    decreases s.len(),
{
    if i > 0 {
        lemma_lookup_at_index(s.drop_first(), caller, i - 1);
    }
}

/// No match anywhere means `lookup` finds nothing
proof fn lemma_lookup_absent(s: Seq<CallerBuckets>, caller: u64)
    requires
        forall|j: int| 0 <= j < s.len() ==> s[j].caller != caller,
    ensures
        lookup(s, caller) is None,
    decreases s.len(),
{
    if s.len() > 0 {
        lemma_lookup_absent(s.drop_first(), caller);
    }
}

/// Replacing the first entry for a caller changes only that caller's
/// lookup
proof fn lemma_lookup_update(s: Seq<CallerBuckets>, i: int, e: CallerBuckets)
    requires
        0 <= i < s.len(),
        s[i].caller == e.caller,
        forall|j: int| 0 <= j < i ==> s[j].caller != e.caller,
    ensures
        lookup(s.update(i, e), e.caller) == Some(e),
        forall|c: u64| c != e.caller ==> lookup(s.update(i, e), c) == lookup(s, c),
    decreases s.len(),
{
    let t = s.update(i, e);
    if i == 0 {
        assert(t.drop_first() =~= s.drop_first());
    } else {
        assert(t.drop_first() =~= s.drop_first().update(i - 1, e));
        lemma_lookup_update(s.drop_first(), i - 1, e);
        assert forall|c: u64| c != e.caller implies lookup(t, c) == lookup(s, c) by {
            if t.first().caller != c {
                assert(lookup(t.drop_first(), c) == lookup(s.drop_first(), c));
            }
        }
    }
}

/// Appending an entry for an absent caller changes only that caller's
/// lookup
proof fn lemma_lookup_push(s: Seq<CallerBuckets>, e: CallerBuckets)
    requires
        lookup(s, e.caller) is None,
    ensures
        lookup(s.push(e), e.caller) == Some(e),
        forall|c: u64| c != e.caller ==> lookup(s.push(e), c) == lookup(s, c),
    decreases s.len(),
{
    let t = s.push(e);
    if s.len() == 0 {
        assert(t.first() == e);
        assert(t.drop_first() =~= Seq::<CallerBuckets>::empty());
        assert forall|c: u64| c != e.caller implies lookup(t, c) == lookup(s, c) by {
            assert(lookup(t.drop_first(), c) is None);
        }
    } else {
        assert(t.first() == s.first());
        assert(t.drop_first() =~= s.drop_first().push(e));
        lemma_lookup_push(s.drop_first(), e);
        assert forall|c: u64| c != e.caller implies lookup(t, c) == lookup(s, c) by {
            if t.first().caller != c {
                assert(lookup(t.drop_first(), c) == lookup(s.drop_first(), c));
            }
        }
    }
}

/// The per-caller rate limiter: a store of token buckets keyed by the
/// caller, created on demand at the configured capacities.
pub struct RateLimiter {
    /// The per-caller buckets, at most one entry per caller
    pub entries: Vec<CallerBuckets>,
    /// The capacity of newly created quote buckets
    pub quote_capacity: u64,
    /// The capacity of newly created bundle buckets
    pub bundle_capacity: u64,
    /// The capacity of newly created sponsorship buckets
    pub sponsorship_capacity: u64,
}

impl RateLimiter {
    /// The configured capacity for one limit kind
    pub open spec fn spec_capacity(self, kind: LimitKind) -> u64 {
        match kind {
            LimitKind::Quote => self.quote_capacity,
            LimitKind::Bundle => self.bundle_capacity,
            LimitKind::Sponsorship => self.sponsorship_capacity,
        }
    }

    /// The bucket a caller currently has for one limit kind. A caller
    /// with no entry yet implicitly holds a full bucket.
    pub open spec fn spec_bucket(self, caller: u64, kind: LimitKind) -> Bucket {
        match lookup(self.entries@, caller) {
            Some(e) => e.spec_get(kind),
            None => Bucket {
                tokens: self.spec_capacity(kind),
                capacity: self.spec_capacity(kind),
            },
        }
    }

    /// Whether every bucket in the store is well formed
    pub open spec fn wf(self) -> bool {
        forall|c: u64, k: LimitKind| #[trigger] self.spec_bucket(c, k).wf()
    }

    /// A fresh limiter with the given per-kind capacities and no entries
    pub fn new(quote_capacity: u64, bundle_capacity: u64, sponsorship_capacity: u64) -> (r:
        RateLimiter)
        ensures
            r.wf(),
            forall|c: u64, k: LimitKind| #[trigger] r.spec_bucket(c, k) == (Bucket {
                tokens: r.spec_capacity(k),
                capacity: r.spec_capacity(k),
            }),
            r.spec_capacity(LimitKind::Quote) == quote_capacity,
            r.spec_capacity(LimitKind::Bundle) == bundle_capacity,
            r.spec_capacity(LimitKind::Sponsorship) == sponsorship_capacity,
    {
        RateLimiter {
            entries: Vec::new(),
            quote_capacity,
            bundle_capacity,
            sponsorship_capacity,
        }
    }

    /// Find the index of a caller's entry, creating a fresh entry of full
    /// buckets when none exists. Semantically a no-op: every caller's
    /// buckets read the same before and after.
    fn find_or_create(&mut self, caller: u64) -> (i: usize)
        ensures
            i < final(self).entries@.len(),
            final(self).entries@[i as int].caller == caller,
            forall|j: int| 0 <= j < i ==> final(self).entries@[j].caller != caller,
            lookup(final(self).entries@, caller) == Some(final(self).entries@[i as int]),
            forall|c: u64, k: LimitKind| #[trigger] final(self).spec_bucket(c, k) == old(
                self,
            ).spec_bucket(c, k),
            forall|k: LimitKind| #[trigger] final(self).spec_capacity(k) == old(
                self,
            ).spec_capacity(k),
    {
        let n = self.entries.len();
        let mut i: usize = 0;
        while i < n
            invariant
                n == self.entries@.len(),
                0 <= i <= n,
                forall|j: int| 0 <= j < i ==> self.entries@[j].caller != caller,
            decreases n - i,
        {
            if self.entries[i].caller == caller {
                proof {
                    lemma_lookup_at_index(self.entries@, caller, i as int);
                }
                return i;
            }
            i = i + 1;
        }
        let e = CallerBuckets {
            caller,
            quote: Bucket::new_full(self.quote_capacity),
            bundle: Bucket::new_full(self.bundle_capacity),
            sponsorship: Bucket::new_full(self.sponsorship_capacity),
        };
        proof {
            lemma_lookup_absent(self.entries@, caller);
            lemma_lookup_push(self.entries@, e);
        }
        self.entries.push(e);
        n
    }

    /// Test whether a caller has a token for one limit kind, without
    /// taking one
    pub fn check(&self, caller: u64, kind: LimitKind) -> (r: bool)
        ensures
            r == (self.spec_bucket(caller, kind).tokens > 0),
    {
        let n = self.entries.len();
        let mut i: usize = 0;
        while i < n
            invariant
                n == self.entries@.len(),
                0 <= i <= n,
                forall|j: int| 0 <= j < i ==> self.entries@[j].caller != caller,
            decreases n - i,
        {
            if self.entries[i].caller == caller {
                proof {
                    lemma_lookup_at_index(self.entries@, caller, i as int);
                }
                let e = &self.entries[i];
                let b = match kind {
                    LimitKind::Quote => e.quote,
                    LimitKind::Bundle => e.bundle,
                    LimitKind::Sponsorship => e.sponsorship,
                };
                return b.tokens > 0;
            }
            i = i + 1;
        }
        proof {
            lemma_lookup_absent(self.entries@, caller);
        }
        let cap = match kind {
            LimitKind::Quote => self.quote_capacity,
            LimitKind::Bundle => self.bundle_capacity,
            LimitKind::Sponsorship => self.sponsorship_capacity,
        };
        cap > 0
    }

    /// Atomically test and take one token from a caller's bucket for one
    /// limit kind. Every other bucket reads unchanged.
    pub fn consume(&mut self, caller: u64, kind: LimitKind) -> (r: bool)
        ensures
            r == spec_admit(old(self).spec_bucket(caller, kind)).1,
            r == (old(self).spec_bucket(caller, kind).tokens > 0),
            final(self).spec_bucket(caller, kind) == spec_admit(
                old(self).spec_bucket(caller, kind),
            ).0,
            forall|c: u64, k: LimitKind|
                !(c == caller && k == kind) ==> #[trigger] final(self).spec_bucket(c, k) == old(
                    self,
                ).spec_bucket(c, k),
            forall|k: LimitKind| #[trigger] final(self).spec_capacity(k) == old(
                self,
            ).spec_capacity(k),
            old(self).wf() ==> final(self).wf(),
    {
        let i = self.find_or_create(caller);
        let ghost mid = *self;
        proof {
            assert(mid.spec_bucket(caller, kind) == old(self).spec_bucket(caller, kind));
        }
        let e = self.entries[i];
        let b = match kind {
            LimitKind::Quote => e.quote,
            LimitKind::Bundle => e.bundle,
            LimitKind::Sponsorship => e.sponsorship,
        };
        let granted = b.tokens > 0;
        let nb = if granted {
            Bucket { tokens: b.tokens - 1, capacity: b.capacity }
        } else {
            b
        };
        let ne = match kind {
            LimitKind::Quote => CallerBuckets { quote: nb, ..e },
            LimitKind::Bundle => CallerBuckets { bundle: nb, ..e },
            LimitKind::Sponsorship => CallerBuckets { sponsorship: nb, ..e },
        };
        proof {
            lemma_lookup_update(self.entries@, i as int, ne);
        }
        self.entries.set(i, ne);
        proof {
            assert(lookup(self.entries@, caller) == Some(ne));
            assert(self.spec_bucket(caller, kind) == nb);
            assert forall|c: u64, k: LimitKind|
                !(c == caller && k == kind) implies #[trigger] self.spec_bucket(c, k) == old(
                self,
            ).spec_bucket(c, k) by {
                assert(mid.spec_bucket(c, k) == old(self).spec_bucket(c, k));
                if c != caller {
                    assert(lookup(self.entries@, c) == lookup(mid.entries@, c));
                } else {
                    assert(lookup(mid.entries@, c) == Some(e));
                }
            }
            assert forall|k: LimitKind| #[trigger] self.spec_capacity(k) == old(
                self,
            ).spec_capacity(k) by {
                assert(mid.spec_capacity(k) == old(self).spec_capacity(k));
            }
            if old(self).wf() {
                assert forall|c: u64, k: LimitKind| #[trigger] self.spec_bucket(c, k).wf() by {
                    assert(old(self).spec_bucket(c, k).wf());
                    if !(c == caller && k == kind) {
                        assert(self.spec_bucket(c, k) == old(self).spec_bucket(c, k));
                    }
                }
            }
        }
        granted
    }

    /// Atomically return one token to a caller's bucket for one limit
    /// kind, capped at its capacity. Every other bucket reads unchanged.
    pub fn credit(&mut self, caller: u64, kind: LimitKind)
        ensures
            final(self).spec_bucket(caller, kind) == spec_credit(
                old(self).spec_bucket(caller, kind),
            ),
            forall|c: u64, k: LimitKind|
                !(c == caller && k == kind) ==> #[trigger] final(self).spec_bucket(c, k) == old(
                    self,
                ).spec_bucket(c, k),
            forall|k: LimitKind| #[trigger] final(self).spec_capacity(k) == old(
                self,
            ).spec_capacity(k),
            old(self).wf() ==> final(self).wf(),
    {
        let i = self.find_or_create(caller);
        let ghost mid = *self;
        proof {
            assert(mid.spec_bucket(caller, kind) == old(self).spec_bucket(caller, kind));
        }
        let e = self.entries[i];
        let b = match kind {
            LimitKind::Quote => e.quote,
            LimitKind::Bundle => e.bundle,
            LimitKind::Sponsorship => e.sponsorship,
        };
        let nb = if b.tokens < b.capacity {
            Bucket { tokens: b.tokens + 1, capacity: b.capacity }
        } else {
            b
        };
        let ne = match kind {
            LimitKind::Quote => CallerBuckets { quote: nb, ..e },
            LimitKind::Bundle => CallerBuckets { bundle: nb, ..e },
            LimitKind::Sponsorship => CallerBuckets { sponsorship: nb, ..e },
        };
        proof {
            lemma_lookup_update(self.entries@, i as int, ne);
        }
        self.entries.set(i, ne);
        proof {
            assert(lookup(self.entries@, caller) == Some(ne));
            assert(self.spec_bucket(caller, kind) == nb);
            assert forall|c: u64, k: LimitKind|
                !(c == caller && k == kind) implies #[trigger] self.spec_bucket(c, k) == old(
                self,
            ).spec_bucket(c, k) by {
                assert(mid.spec_bucket(c, k) == old(self).spec_bucket(c, k));
                if c != caller {
                    assert(lookup(self.entries@, c) == lookup(mid.entries@, c));
                } else {
                    assert(lookup(mid.entries@, c) == Some(e));
                }
            }
            assert forall|k: LimitKind| #[trigger] self.spec_capacity(k) == old(
                self,
            ).spec_capacity(k) by {
                assert(mid.spec_capacity(k) == old(self).spec_capacity(k));
            }
            if old(self).wf() {
                assert forall|c: u64, k: LimitKind| #[trigger] self.spec_bucket(c, k).wf() by {
                    assert(old(self).spec_bucket(c, k).wf());
                    if !(c == caller && k == kind) {
                        assert(self.spec_bucket(c, k) == old(self).spec_bucket(c, k));
                    }
                }
            }
        }
    }
}

} // verus!
