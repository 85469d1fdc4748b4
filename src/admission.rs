use vstd::prelude::*;

use vstd::arithmetic::div_mod::lemma_fundamental_div_mod;

verus! {

/// What one admission attempt decided.
#[derive(Debug, Clone, Copy, PartialEq, Eq, Structural)]
pub enum Verdict {
    /// Admitted: the guarded work may run now.
    Granted,
    /// Not admitted; the next token arrives at the given time.
    WaitUntil(u64),
    /// Not admitted, and no time is known at which room frees up: wait until woken
    /// (a release of the bounded-concurrency policy wakes the waiters).
    Suspend,
}

/// Held slots after one attempt of the bounded-concurrency policy, and whether it was granted.
pub open spec fn admit_step(held: nat, max: nat) -> (nat, bool) {
    if held < max {
        (held + 1, true)
    } else {
        (held, false)
    }
}

/// Held slots after a release.
pub open spec fn release_step(held: nat) -> nat {
    if held > 0 {
        (held - 1) as nat
    } else {
        0
    }
}

/// Held slots after `n` attempts with no release in between, and how many were granted.
pub open spec fn run_admits(held: nat, max: nat, n: nat) -> (nat, nat)
    decreases n,
{
    if n == 0 {
        (held, 0)
    } else {
        let (h, g) = run_admits(held, max, (n - 1) as nat);
        let (h2, ok) = admit_step(h, max);
        (h2, if ok { g + 1 } else { g })
    }
}

proof fn lemma_run_admits(held: nat, max: nat, n: nat)
    requires
        held <= max,
    ensures
        ({
            let g: nat = if n <= max - held { n } else { (max - held) as nat };
            run_admits(held, max, n) == (held + g, g)
        }),
    decreases n,
{
    if n > 0 {
        lemma_run_admits(held, max, (n - 1) as nat);
    }
}

/// With room for `max` admissions and none held, `n` attempts without a release
/// grant exactly `min(n, max)`, so at most `max` are ever held at once; when all
/// `max` are held the next attempt is refused, and after one release it is granted.
pub proof fn lemma_concurrency_bound(max: nat, n: nat)
    ensures
        run_admits(0, max, n).1 == (if n <= max { n } else { max }),
        run_admits(0, max, n).0 <= max,
        !admit_step(max, max).1,
        max > 0 ==> admit_step(release_step(max), max).1,
{
    lemma_run_admits(0, max, n);
}

/// The bounded-concurrency policy: at most `max` admissions outstanding.
pub struct ConcurrencyLimit {
    max: u64,
    held: u64,
}

impl ConcurrencyLimit {
    pub closed spec fn spec_max(&self) -> nat {
        self.max as nat
    }

    pub closed spec fn spec_held(&self) -> nat {
        self.held as nat
    }

    /// At most `max` admissions are held.
    pub open spec fn wf(&self) -> bool {
        self.spec_held() <= self.spec_max()
    }

    pub fn new(max: u64) -> (c: ConcurrencyLimit)
        ensures
            c.wf(),
            c.spec_max() == max,
            c.spec_held() == 0,
    {
        ConcurrencyLimit { max, held: 0 }
    }

    pub fn max(&self) -> (r: u64)
        ensures
            r == self.spec_max(),
    {
        self.max
    }

    pub fn held(&self) -> (r: u64)
        ensures
            r == self.spec_held(),
    {
        self.held
    }

    /// Takes a slot when one is free.
    pub fn try_admit(&mut self) -> (r: bool)
        requires
            old(self).wf(),
        ensures
            final(self).wf(),
            final(self).spec_max() == old(self).spec_max(),
            (final(self).spec_held(), r) == admit_step(old(self).spec_held(), old(self).spec_max()),
    {
        if self.held < self.max {
            self.held = self.held + 1;
            true
        } else {
            false
        }
    }

    /// Gives a slot back.
    pub fn release(&mut self)
        requires
            old(self).wf(),
        ensures
            final(self).wf(),
            final(self).spec_max() == old(self).spec_max(),
            final(self).spec_held() == release_step(old(self).spec_held()),
    {
        if self.held > 0 {
            self.held = self.held - 1;
        }
    }
}

/// The state of a token bucket: `refill` tokens arrive every `interval` time
/// units, counted from `last`, up to `capacity`.
pub struct BucketModel {
    pub capacity: nat,
    pub refill: nat,
    pub interval: nat,
    pub tokens: nat,
    pub last: nat,
}

/// The bucket at time `now`: every whole interval elapsed since `last` adds
/// `refill` tokens, capped at `capacity`; the part of an interval not yet elapsed
/// is kept. With `refill` or `interval` zero nothing is ever added.
pub open spec fn refill_spec(b: BucketModel, now: nat) -> BucketModel {
    if now <= b.last || b.refill == 0 || b.interval == 0 {
        b
    } else {
        let periods = (now - b.last) as nat / b.interval;
        let total = b.tokens + periods * b.refill;
        BucketModel {
            capacity: b.capacity,
            refill: b.refill,
            interval: b.interval,
            tokens: if total >= b.capacity { b.capacity } else { total },
            last: b.last + periods * b.interval,
        }
    }
}

/// One attempt at time `now`: refill, then take a token if there is one; else
/// wait for the next refill, or suspend where no token can ever come.
pub open spec fn bucket_admit(b: BucketModel, now: nat) -> (BucketModel, Verdict) {
    let r = refill_spec(b, now);
    if r.tokens > 0 {
        (
            BucketModel {
                capacity: r.capacity,
                refill: r.refill,
                interval: r.interval,
                tokens: (r.tokens - 1) as nat,
                last: r.last,
            },
            Verdict::Granted,
        )
    } else if r.capacity == 0 || r.refill == 0 || r.interval == 0 || r.last + r.interval > u64::MAX {
        (r, Verdict::Suspend)
    } else {
        (r, Verdict::WaitUntil((r.last + r.interval) as u64))
    }
}

/// The bucket after attempts at the given times, in order, and how many were granted.
pub open spec fn run_bucket(b: BucketModel, times: Seq<nat>) -> (BucketModel, nat)
    decreases times.len(),
{
    if times.len() == 0 {
        (b, 0)
    } else {
        let (b1, g) = run_bucket(b, times.drop_last());
        let (b2, v) = bucket_admit(b1, times.last());
        (b2, if v is Granted { g + 1 } else { g })
    }
}

proof fn lemma_run_bucket_no_refill(b: BucketModel, times: Seq<nat>)
    requires
        b.refill == 0,
    ensures
        ({
            let n = times.len();
            let g: nat = if n <= b.tokens { n } else { b.tokens };
            run_bucket(b, times).1 == g && run_bucket(b, times).0 == BucketModel {
                tokens: (b.tokens - g) as nat,
                ..b
            }
        }),
    decreases times.len(),
{
    if times.len() > 0 {
        lemma_run_bucket_no_refill(b, times.drop_last());
    }
}

/// With refill disabled and a full bucket of capacity `c`, attempts at any times
/// grant exactly `min(n, c)` of `n`: the first `c` at once, and every later one
/// is suspended, for no refill ever comes.
pub proof fn lemma_bucket_bound(b: BucketModel, times: Seq<nat>)
    requires
        b.refill == 0,
        b.tokens == b.capacity,
    ensures
        run_bucket(b, times).1 == (if times.len() <= b.capacity {
            times.len()
        } else {
            b.capacity
        }),
        times.len() >= b.capacity ==> run_bucket(b, times).0.tokens == 0,
        forall|now: nat|
            #[trigger] bucket_admit(run_bucket(b, times).0, now).1 is Granted ==> times.len()
                < b.capacity,
{
    lemma_run_bucket_no_refill(b, times);
}

/// The token-bucket policy.
pub struct TokenBucket {
    capacity: u64,
    refill: u64,
    interval: u64,
    tokens: u64,
    last: u64,
}

impl View for TokenBucket {
    type V = BucketModel;

    closed spec fn view(&self) -> BucketModel {
        BucketModel {
            capacity: self.capacity as nat,
            refill: self.refill as nat,
            interval: self.interval as nat,
            tokens: self.tokens as nat,
            last: self.last as nat,
        }
    }
}

impl TokenBucket {
    /// The bucket never holds more than its capacity.
    pub open spec fn wf(&self) -> bool {
        self@.tokens <= self@.capacity
    }

    /// A bucket created at time `now` holding `initial` tokens (at most `capacity`).
    pub fn new(capacity: u64, initial: u64, refill: u64, interval: u64, now: u64) -> (t: TokenBucket)
        ensures
            t.wf(),
            t@ == (BucketModel {
                capacity: capacity as nat,
                refill: refill as nat,
                interval: interval as nat,
                tokens: if initial <= capacity { initial as nat } else { capacity as nat },
                last: now as nat,
            }),
    {
        let tokens = if initial <= capacity { initial } else { capacity };
        TokenBucket { capacity, refill, interval, tokens, last: now }
    }

    pub fn tokens(&self) -> (r: u64)
        ensures
            r == self@.tokens,
    {
        self.tokens
    }

    pub fn capacity(&self) -> (r: u64)
        ensures
            r == self@.capacity,
    {
        self.capacity
    }

    fn refill_to(&mut self, now: u64)
        requires
            old(self).wf(),
        ensures
            final(self).wf(),
            final(self)@ == refill_spec(old(self)@, now as nat),
    {
        if now <= self.last || self.refill == 0 || self.interval == 0 {
            return ;
        }
        let elapsed: u64 = now - self.last;
        let periods: u64 = elapsed / self.interval;
        proof {
            lemma_fundamental_div_mod(elapsed as int, self.interval as int);
            assert(periods * self.interval <= elapsed) by (nonlinear_arith)
                requires
                    elapsed == self.interval * periods + elapsed % self.interval,
                    elapsed % self.interval >= 0,
            ;
            assert((periods as u128) * (self.refill as u128) <= 0xffff_ffff_ffff_fffe_0000_0000_0000_0001u128)
                by (nonlinear_arith)
                requires
                    periods <= 0xffff_ffff_ffff_ffffu64,
                    self.refill <= 0xffff_ffff_ffff_ffffu64,
            ;
        }
        let added: u128 = (periods as u128) * (self.refill as u128);
        let total: u128 = self.tokens as u128 + added;
        if total >= self.capacity as u128 {
            self.tokens = self.capacity;
        } else {
            self.tokens = total as u64;
        }
        self.last = self.last + periods * self.interval;
    }

    /// One attempt at time `now`.
    pub fn try_admit(&mut self, now: u64) -> (v: Verdict)
        requires
            old(self).wf(),
        ensures
            final(self).wf(),
            (final(self)@, v) == bucket_admit(old(self)@, now as nat),
    {
        self.refill_to(now);
        if self.tokens > 0 {
            self.tokens = self.tokens - 1;
            Verdict::Granted
        } else if self.capacity == 0 || self.refill == 0 || self.interval == 0 || self.last > u64::MAX
            - self.interval {
            Verdict::Suspend
        } else {
            Verdict::WaitUntil(self.last + self.interval)
        }
    }
}

/// An admission controller: one of the two policies, chosen at construction;
/// callers use it the same way whichever it is.
pub enum AdmissionController {
    Concurrency(ConcurrencyLimit),
    TokenBucket(TokenBucket),
}

/// How one attempt at time `now` changes the controller, and its verdict.
pub open spec fn admit_spec(
    before: AdmissionController,
    after: AdmissionController,
    now: nat,
    v: Verdict,
) -> bool {
    match (before, after) {
        (AdmissionController::Concurrency(c), AdmissionController::Concurrency(d)) => {
            &&& d.spec_max() == c.spec_max()
            &&& (d.spec_held(), v is Granted) == admit_step(c.spec_held(), c.spec_max())
            &&& (v is Granted || v is Suspend)
        },
        (AdmissionController::TokenBucket(t), AdmissionController::TokenBucket(u)) => {
            (u@, v) == bucket_admit(t@, now)
        },
        _ => false,
    }
}

/// How a release changes the controller: a held slot is given back; a spent
/// token is not.
pub open spec fn release_spec(before: AdmissionController, after: AdmissionController) -> bool {
    match (before, after) {
        (AdmissionController::Concurrency(c), AdmissionController::Concurrency(d)) => {
            &&& d.spec_max() == c.spec_max()
            &&& d.spec_held() == release_step(c.spec_held())
        },
        (AdmissionController::TokenBucket(t), AdmissionController::TokenBucket(u)) => u@ == t@,
        _ => false,
    }
}

impl AdmissionController {
    pub open spec fn wf(&self) -> bool {
        match self {
            AdmissionController::Concurrency(c) => c.wf(),
            AdmissionController::TokenBucket(t) => t.wf(),
        }
    }

    /// The bounded-concurrency policy with room for `max` admissions.
    pub fn bounded(max: u64) -> (a: AdmissionController)
        ensures
            a.wf(),
            a is Concurrency,
            a->Concurrency_0.spec_max() == max,
            a->Concurrency_0.spec_held() == 0,
    {
        AdmissionController::Concurrency(ConcurrencyLimit::new(max))
    }

    /// The token-bucket policy, created at time `now`.
    pub fn token_bucket(capacity: u64, initial: u64, refill: u64, interval: u64, now: u64) -> (a:
        AdmissionController)
        ensures
            a.wf(),
            a is TokenBucket,
            a->TokenBucket_0@ == (BucketModel {
                capacity: capacity as nat,
                refill: refill as nat,
                interval: interval as nat,
                tokens: if initial <= capacity { initial as nat } else { capacity as nat },
                last: now as nat,
            }),
    {
        AdmissionController::TokenBucket(TokenBucket::new(capacity, initial, refill, interval, now))
    }

    /// One admission attempt at time `now`.
    pub fn try_admit(&mut self, now: u64) -> (v: Verdict)
        requires
            old(self).wf(),
        ensures
            final(self).wf(),
            admit_spec(*old(self), *final(self), now as nat, v),
    {
        match self {
            AdmissionController::Concurrency(c) => {
                if c.try_admit() {
                    Verdict::Granted
                } else {
                    Verdict::Suspend
                }
            },
            AdmissionController::TokenBucket(t) => t.try_admit(now),
        }
    }

    /// Ends a granted admission.
    pub fn release(&mut self)
        requires
            old(self).wf(),
        ensures
            final(self).wf(),
            release_spec(*old(self), *final(self)),
    {
        match self {
            AdmissionController::Concurrency(c) => c.release(),
            AdmissionController::TokenBucket(_) => {},
        }
    }
}

} // verus!
