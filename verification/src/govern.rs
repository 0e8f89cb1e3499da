//! The admission model of the scan: a counting permit pool that bounds how
//! many address pipelines run at once, and a token bucket that bounds the
//! rate at which new pipelines are admitted. A pipeline begins only when
//! both grant it, and it returns its permit when it completes.

use vstd::prelude::*;

verus! {

use vstd::arithmetic::mul::lemma_mul_is_distributive_add;

/// The fixed cap on simultaneously running address pipelines.
pub const CONCURRENT_REQUESTS: usize = 100;

/// The fixed admission rate and burst, new pipelines per second.
pub const RATE_LIMIT: u32 = 300;

/// A fixed-capacity pool of permits; each running address pipeline holds
/// exactly one.
pub struct PermitPool {
    capacity: usize,
    active: usize,
}

impl PermitPool {
    /// Permits the pool was created with.
    pub closed spec fn permit_cap(&self) -> int {
        self.capacity as int
    }

    /// Permits currently held by running pipelines.
    pub closed spec fn permits_in_use(&self) -> int {
        self.active as int
    }

    /// The pool never hands out more permits than its capacity.
    pub closed spec fn wf(&self) -> bool {
        self.active <= self.capacity
    }

    pub fn new(capacity: usize) -> (p: PermitPool)
        ensures
            p.wf(),
            p.permit_cap() == capacity,
            p.permits_in_use() == 0,
    {
        PermitPool { capacity, active: 0 }
    }

    /// Take a permit when one is free; a pipeline that is refused must wait
    /// and ask again.
    pub fn try_acquire(&mut self) -> (granted: bool)
        requires
            old(self).wf(),
        ensures
            final(self).wf(),
            final(self).permit_cap() == old(self).permit_cap(),
            granted == (old(self).permits_in_use() < old(self).permit_cap()),
            granted ==> final(self).permits_in_use() == old(self).permits_in_use() + 1,
            !granted ==> final(self).permits_in_use() == old(self).permits_in_use(),
    {
        if self.active < self.capacity {
            self.active = self.active + 1;
            true
        } else {
            false
        }
    }

    /// Permits currently held; what a release must find non-zero.
    pub fn in_use(&self) -> (n: usize)
        ensures
            n as int == self.permits_in_use(),
    {
        self.active
    }

    /// Return a permit when a pipeline completes.
    pub fn release(&mut self)
        requires
            old(self).wf(),
            old(self).permits_in_use() > 0,
        ensures
            final(self).wf(),
            final(self).permit_cap() == old(self).permit_cap(),
            final(self).permits_in_use() == old(self).permits_in_use() - 1,
    {
        self.active = self.active - 1;
    }
}

/// Law: a well-formed pool never has more permits out than its capacity, so
/// the number of simultaneously active address pipelines never exceeds the
/// cap. `new` establishes well-formedness and every operation preserves it,
/// so the bound holds in every reachable state.
pub proof fn lemma_active_never_exceeds_capacity(p: &PermitPool)
    requires
        p.wf(),
    ensures
        p.permits_in_use() <= p.permit_cap(),
{
}

/// A token bucket: it holds up to `burst` tokens, gains `rate` tokens per
/// second as time passes, and each admission spends one. Tokens are kept in
/// thousandths so that refilling by whole milliseconds loses nothing.
pub struct TokenBucket {
    rate: u32,
    burst: u32,
    millitokens: u64,
    start_ms: u64,
    last_ms: u64,
    admitted: u64,
}

impl TokenBucket {
    /// Tokens gained per second.
    pub closed spec fn spec_rate(&self) -> int {
        self.rate as int
    }

    /// Most tokens the bucket can hold.
    pub closed spec fn spec_burst(&self) -> int {
        self.burst as int
    }

    /// Current content, in thousandths of a token.
    pub closed spec fn spec_millitokens(&self) -> int {
        self.millitokens as int
    }

    /// When the bucket was created.
    pub closed spec fn spec_start_ms(&self) -> int {
        self.start_ms as int
    }

    /// The time of the last refill.
    pub closed spec fn spec_last_ms(&self) -> int {
        self.last_ms as int
    }

    /// Admissions granted so far.
    pub closed spec fn spec_admitted(&self) -> int {
        self.admitted as int
    }

    /// The content after refilling at time `now_ms`: grown by the elapsed
    /// time at the rate, capped at the burst.
    pub open spec fn tokens_after_refill(&self, now_ms: int) -> int {
        if self.spec_millitokens() + self.spec_rate() * (now_ms - self.spec_last_ms())
            >= self.spec_burst() * 1000 {
            self.spec_burst() * 1000
        } else {
            self.spec_millitokens() + self.spec_rate() * (now_ms - self.spec_last_ms())
        }
    }

    /// The content never exceeds the burst, and all admissions so far are
    /// covered by the initial burst plus what time has refilled.
    pub closed spec fn wf(&self) -> bool {
        &&& self.start_ms <= self.last_ms
        &&& self.millitokens <= self.burst * 1000
        &&& self.admitted * 1000 + self.millitokens <= self.burst * 1000 + self.rate * (
        self.last_ms - self.start_ms)
    }

    /// A bucket starting full at time `now_ms`.
    pub fn new(rate: u32, burst: u32, now_ms: u64) -> (tb: TokenBucket)
        ensures
            tb.wf(),
            tb.spec_rate() == rate,
            tb.spec_burst() == burst,
            tb.spec_admitted() == 0,
            tb.spec_start_ms() == now_ms,
            tb.spec_last_ms() == now_ms,
            tb.spec_millitokens() == burst * 1000,
    {
        TokenBucket {
            rate,
            burst,
            millitokens: (burst as u64) * 1000,
            start_ms: now_ms,
            last_ms: now_ms,
            admitted: 0,
        }
    }

    /// Refill for the time elapsed since the last refill.
    pub fn refill(&mut self, now_ms: u64)
        requires
            old(self).wf(),
            now_ms >= old(self).spec_last_ms(),
        ensures
            final(self).wf(),
            final(self).spec_rate() == old(self).spec_rate(),
            final(self).spec_burst() == old(self).spec_burst(),
            final(self).spec_admitted() == old(self).spec_admitted(),
            final(self).spec_start_ms() == old(self).spec_start_ms(),
            final(self).spec_last_ms() == now_ms,
            final(self).spec_millitokens() == old(self).tokens_after_refill(now_ms as int),
    {
        let dt: u64 = now_ms - self.last_ms;
        let cap: u64 = (self.burst as u64) * 1000;
        proof {
            vstd::arithmetic::mul::lemma_mul_upper_bound(
                self.rate as int,
                u32::MAX as int,
                dt as int,
                u64::MAX as int,
            );
        }
        let add: u128 = (self.rate as u128) * (dt as u128);
        proof {
            lemma_mul_is_distributive_add(
                self.rate as int,
                (self.last_ms - self.start_ms) as int,
                dt as int,
            );
            assert(self.rate * ((self.last_ms - self.start_ms) + dt) == self.rate * (self.last_ms
                - self.start_ms) + self.rate * dt);
        }
        if add >= (cap - self.millitokens) as u128 {
            self.millitokens = cap;
        } else {
            self.millitokens = self.millitokens + (add as u64);
        }
        self.last_ms = now_ms;
    }

    /// Admissions granted so far; a progress metric, and the caller's way
    /// to see that the admission counter is still far from its width.
    pub fn admissions(&self) -> (n: u64)
        ensures
            n as int == self.spec_admitted(),
    {
        self.admitted
    }

    /// The time of the last refill; a later refill may not go back before it.
    pub fn last_refill_ms(&self) -> (n: u64)
        ensures
            n as int == self.spec_last_ms(),
    {
        self.last_ms
    }

    /// Admit one pipeline when a whole token is present.
    pub fn try_admit(&mut self) -> (granted: bool)
        requires
            old(self).wf(),
            old(self).spec_admitted() < u64::MAX,
        ensures
            final(self).wf(),
            final(self).spec_rate() == old(self).spec_rate(),
            final(self).spec_burst() == old(self).spec_burst(),
            final(self).spec_start_ms() == old(self).spec_start_ms(),
            final(self).spec_last_ms() == old(self).spec_last_ms(),
            granted == (old(self).spec_millitokens() >= 1000),
            granted ==> final(self).spec_admitted() == old(self).spec_admitted() + 1,
            granted ==> final(self).spec_millitokens() == old(self).spec_millitokens() - 1000,
            !granted ==> final(self).spec_admitted() == old(self).spec_admitted(),
            !granted ==> final(self).spec_millitokens() == old(self).spec_millitokens(),
    {
        if self.millitokens >= 1000 {
            self.millitokens = self.millitokens - 1000;
            self.admitted = self.admitted + 1;
            true
        } else {
            false
        }
    }
}

/// Law: over any run of a well-formed bucket, the admissions granted are
/// covered by the initial burst plus the elapsed time at the rate: with
/// times in milliseconds, `admitted * 1000 <= burst * 1000 + rate * elapsed`,
/// so the long-run average admission rate never exceeds `rate` per second.
pub proof fn lemma_admissions_bounded_by_rate(tb: &TokenBucket)
    requires
        tb.wf(),
    ensures
        tb.spec_admitted() * 1000 <= tb.spec_burst() * 1000 + tb.spec_rate() * (tb.spec_last_ms()
            - tb.spec_start_ms()),
{
}

/// The whole admission mechanism: permit pool and token bucket composed. A
/// pipeline begins only when both grant it at once.
pub struct Governor {
    pub pool: PermitPool,
    pub bucket: TokenBucket,
}

impl Governor {
    pub open spec fn wf(&self) -> bool {
        self.pool.wf() && self.bucket.wf()
    }

    pub fn new(capacity: usize, rate: u32, burst: u32, now_ms: u64) -> (g: Governor)
        ensures
            g.wf(),
            g.pool.permit_cap() == capacity,
            g.pool.permits_in_use() == 0,
            g.bucket.spec_rate() == rate,
            g.bucket.spec_burst() == burst,
            g.bucket.spec_admitted() == 0,
            g.bucket.spec_start_ms() == now_ms,
            g.bucket.spec_last_ms() == now_ms,
            g.bucket.spec_millitokens() == burst * 1000,
    {
        Governor { pool: PermitPool::new(capacity), bucket: TokenBucket::new(rate, burst, now_ms) }
    }

    /// Admit one address pipeline at time `now_ms`: a permit and a token are
    /// taken together, or neither. A refused pipeline holds nothing and must
    /// ask again later.
    pub fn try_admit(&mut self, now_ms: u64) -> (granted: bool)
        requires
            old(self).wf(),
            now_ms >= old(self).bucket.spec_last_ms(),
            old(self).bucket.spec_admitted() < u64::MAX,
        ensures
            final(self).wf(),
            final(self).pool.permit_cap() == old(self).pool.permit_cap(),
            final(self).bucket.spec_rate() == old(self).bucket.spec_rate(),
            final(self).bucket.spec_burst() == old(self).bucket.spec_burst(),
            final(self).bucket.spec_start_ms() == old(self).bucket.spec_start_ms(),
            final(self).bucket.spec_last_ms() == now_ms,
            granted == (old(self).pool.permits_in_use() < old(self).pool.permit_cap() && old(
                self,
            ).bucket.tokens_after_refill(now_ms as int) >= 1000),
            granted ==> final(self).pool.permits_in_use() == old(self).pool.permits_in_use() + 1,
            granted ==> final(self).bucket.spec_admitted() == old(self).bucket.spec_admitted() + 1,
            granted ==> final(self).bucket.spec_millitokens() == old(self).bucket.tokens_after_refill(
                now_ms as int,
            ) - 1000,
            !granted ==> final(self).pool.permits_in_use() == old(self).pool.permits_in_use(),
            !granted ==> final(self).bucket.spec_admitted() == old(self).bucket.spec_admitted(),
            !granted ==> final(self).bucket.spec_millitokens() == old(self).bucket.tokens_after_refill(
                now_ms as int,
            ),
    {
        self.bucket.refill(now_ms);
        if self.pool.try_acquire() {
            if self.bucket.try_admit() {
                true
            } else {
                self.pool.release();
                false
            }
        } else {
            false
        }
    }

    /// Law: under any load, the number of simultaneously active address
    /// pipelines never exceeds the pool's capacity: every running pipeline
    /// holds a permit, and a well-formed pool never has more permits out
    /// than its capacity.
    pub proof fn lemma_pipelines_never_exceed_capacity(&self)
        requires
            self.wf(),
        ensures
            self.pool.permits_in_use() <= self.pool.permit_cap(),
    {
        lemma_active_never_exceeds_capacity(&self.pool);
    }

    /// Law: over any run, the admissions the governor grants are covered by
    /// the burst plus the elapsed time at the rate, so the long-run average
    /// admission rate never exceeds the quota.
    pub proof fn lemma_admission_rate_bounded(&self)
        requires
            self.wf(),
        ensures
            self.bucket.spec_admitted() * 1000 <= self.bucket.spec_burst() * 1000
                + self.bucket.spec_rate() * (self.bucket.spec_last_ms()
                - self.bucket.spec_start_ms()),
    {
        lemma_admissions_bounded_by_rate(&self.bucket);
    }

    /// A pipeline that finished returns its permit.
    pub fn complete(&mut self)
        requires
            old(self).wf(),
            old(self).pool.permits_in_use() > 0,
        ensures
            final(self).wf(),
            final(self).pool.permit_cap() == old(self).pool.permit_cap(),
            final(self).pool.permits_in_use() == old(self).pool.permits_in_use() - 1,
            final(self).bucket == old(self).bucket,
    {
        self.pool.release();
    }
}

} // verus!
