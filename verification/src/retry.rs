//! When to try again: attempts, exponential back-off, and a deadline.
//!
//! Only transient errors are retried: those of [`TaosError::is_retryable`]. Whoever retries a
//! write sees to it that writing twice does no harm.
//!
//! The spread of the back-off around its base is not decided here; the numbers it is drawn from
//! are.

use std::time::Duration;
use vstd::prelude::*;

use crate::duration;
#[allow(unused_imports)]
use crate::error::ErrorView;
use crate::error::TaosError;
use crate::number;
use crate::text;

verus! {

/// How often, how long apart, and how long in all. How far a back-off may stray from its base is
/// no part of it.
#[derive(Debug, Clone, Copy, PartialEq, Eq)]
pub struct RetryPolicy {
    /// The most attempts, the first one counted; zero counts as one.
    pub max_attempts: u32,
    /// The base of the first back-off.
    pub initial_backoff: Duration,
    /// The longest back-off.
    pub max_backoff: Duration,
    /// The longest time for all attempts, if any.
    pub deadline: Option<Duration>,
}

/// What follows an error.
pub enum RetryStep {
    /// Another attempt, after the back-off.
    Retry,
    /// The error that it all comes to.
    GiveUp(TaosError),
}

/// Two to the power of `attempt`, or the greatest 32-bit number where that is less.
pub open spec fn doubling(attempt: u32) -> nat {
    if attempt < 32 {
        vstd::arithmetic::power2::pow2(attempt as nat)
    } else {
        u32::MAX as nat
    }
}

impl RetryPolicy {
    /// How often to try, at least once.
    pub open spec fn attempts(self) -> int {
        if self.max_attempts == 0 {
            1
        } else {
            self.max_attempts as int
        }
    }

    /// The back-off after an attempt, counted from zero, in nanoseconds: twice that of the attempt
    /// before, and at most the longest.
    pub open spec fn base(self, attempt: u32) -> nat {
        let doubled = duration::nanos(self.initial_backoff) * doubling(attempt);
        if doubled < duration::nanos(self.max_backoff) {
            doubled
        } else {
            duration::nanos(self.max_backoff)
        }
    }

    /// The deadline would pass before the next attempt.
    pub open spec fn is_late(self, elapsed: nat, delay: nat) -> bool {
        match self.deadline {
            Some(deadline) => elapsed + delay >= duration::nanos(deadline),
            None => false,
        }
    }

    /// The error that it all comes to after an error in an attempt, counted from zero; `None` where
    /// there is another attempt.
    pub open spec fn verdict(
        self,
        attempt: u32,
        error: ErrorView,
        elapsed: nat,
        delay: nat,
    ) -> Option<ErrorView> {
        if !error.is_retryable() || attempt + 1 >= self.attempts() {
            Some(error)
        } else if self.is_late(elapsed, delay) {
            Some(
                ErrorView::Timeout(
                    "重试 deadline 耗尽（已尝试 "@ + number::decimal(attempt + 1) + " 次）: "@
                        + error.display(),
                ),
            )
        } else {
            None
        }
    }

    /// For reads: three attempts within five seconds.
    #[must_use]
    pub fn for_read() -> (r: Self)
        ensures
            r.max_attempts == 3,
            duration::nanos(r.initial_backoff) == 50_000_000,
            duration::nanos(r.max_backoff) == 1_000_000_000,
            r.deadline is Some,
            duration::nanos(r.deadline->0) == 5_000_000_000,
    {
        RetryPolicy {
            max_attempts: 3,
            initial_backoff: Duration::from_millis(50),
            max_backoff: Duration::from_secs(1),
            deadline: Some(Duration::from_secs(5)),
        }
    }

    /// For writes that do no harm when done twice: three attempts within thirty seconds.
    #[must_use]
    pub fn for_idempotent_write() -> (r: Self)
        ensures
            r.max_attempts == 3,
            duration::nanos(r.initial_backoff) == 100_000_000,
            duration::nanos(r.max_backoff) == 2_000_000_000,
            r.deadline is Some,
            duration::nanos(r.deadline->0) == 30_000_000_000,
    {
        RetryPolicy {
            max_attempts: 3,
            initial_backoff: Duration::from_millis(100),
            max_backoff: Duration::from_secs(2),
            deadline: Some(Duration::from_secs(30)),
        }
    }

    /// For writes with as many attempts as the configuration says, at least one.
    #[must_use]
    pub fn for_configured_write(write_max_attempts: u32) -> (r: Self)
        ensures
            r.max_attempts == (if write_max_attempts == 0 {
                1
            } else {
                write_max_attempts
            }),
            duration::nanos(r.initial_backoff) == 100_000_000,
            duration::nanos(r.max_backoff) == 2_000_000_000,
            r.deadline is Some,
            duration::nanos(r.deadline->0) == 30_000_000_000,
    {
        let mut policy = Self::for_idempotent_write();
        policy.max_attempts = if write_max_attempts == 0 {
            1
        } else {
            write_max_attempts
        };
        policy
    }

    /// One attempt.
    #[must_use]
    pub fn no_retry() -> (r: Self)
        ensures
            r.max_attempts == 1,
            duration::nanos(r.initial_backoff) == 50_000_000,
            duration::nanos(r.max_backoff) == 2_000_000_000,
            r.deadline is None,
    {
        Self::default()
    }

    /// Whether the error is worth another attempt.
    #[must_use]
    pub fn is_retryable(error: &TaosError) -> (r: bool)
        ensures
            r == error@.is_retryable(),
    {
        error.is_retryable()
    }

    /// The back-off after an attempt, counted from zero, before any spread.
    #[must_use]
    pub fn exponential_backoff(&self, attempt: u32) -> (r: Duration)
        ensures
            duration::nanos(r) == self.base(attempt),
    {
        let factor: u32 = if attempt < 32 {
            proof {
                lemma_shift(attempt);
            }
            1u32 << attempt
        } else {
            u32::MAX
        };
        let initial: u128 = self.initial_backoff.as_nanos();
        let max: u128 = self.max_backoff.as_nanos();
        assert(initial * factor < 0x1_0000_0000_0000_0000 * 1_000_000_000 * 0x1_0000_0000)
            by (nonlinear_arith)
            requires
                initial < 0x1_0000_0000_0000_0000 * 1_000_000_000,
                0 <= factor < 0x1_0000_0000,
        ;
        let doubled: u128 = initial * factor as u128;
        if doubled < max {
            let secs: u64 = (doubled / 1_000_000_000) as u64;
            let rest: u32 = (doubled % 1_000_000_000) as u32;
            Duration::new(secs, rest)
        } else {
            self.max_backoff
        }
    }

    /// The back-off that so many nanoseconds come to, once they have strayed from their base: never
    /// longer than the longest back-off.
    #[must_use]
    pub fn strayed_backoff(&self, nanos: u64) -> (r: Duration)
        ensures
            duration::nanos(r) == (if (nanos as nat) < duration::nanos(self.max_backoff) {
                nanos as nat
            } else {
                duration::nanos(self.max_backoff)
            }),
    {
        if (nanos as u128) < self.max_backoff.as_nanos() {
            Duration::new(nanos / 1_000_000_000, (nanos % 1_000_000_000) as u32)
        } else {
            self.max_backoff
        }
    }

    /// What follows an error in an attempt, counted from zero, when so much time has passed and
    /// the back-off would take so much more.
    pub fn after_error(
        &self,
        attempt: u32,
        error: TaosError,
        elapsed: Duration,
        delay: Duration,
    ) -> (r: RetryStep)
        ensures
            ({
                let verdict = self.verdict(
                    attempt,
                    error@,
                    duration::nanos(elapsed),
                    duration::nanos(delay),
                );
                match r {
                    RetryStep::Retry => verdict is None,
                    RetryStep::GiveUp(e) => verdict == Some(e@),
                }
            }),
    {
        let attempts: u64 = if self.max_attempts == 0 {
            1
        } else {
            self.max_attempts as u64
        };
        if !error.is_retryable() || attempt as u64 + 1 >= attempts {
            return RetryStep::GiveUp(error);
        }
        match &self.deadline {
            Some(deadline) => {
                if elapsed.as_nanos() + delay.as_nanos() >= deadline.as_nanos() {
                    let mut m = String::from("重试 deadline 耗尽（已尝试 ");
                    text::push_text(&mut m, number::decimal_u64(attempt as u64 + 1).as_str());
                    text::push_text(&mut m, " 次）: ");
                    text::push_text(&mut m, error.to_string().as_str());
                    return RetryStep::GiveUp(TaosError::Timeout(m));
                }
            },
            None => {},
        }
        RetryStep::Retry
    }
}

/// An operation on its way: its policy, and how many of its attempts have failed.
#[derive(Debug)]
pub struct RetryRun {
    policy: RetryPolicy,
    attempt: u32,
}

/// A [`RetryRun`] by its values.
pub struct RunView {
    pub policy: RetryPolicy,
    /// The attempt under way, counted from zero.
    pub attempt: u32,
}

impl View for RetryRun {
    type V = RunView;

    closed spec fn view(&self) -> RunView {
        RunView { policy: self.policy, attempt: self.attempt }
    }
}

/// An attempt that failed: with which error, after how long in all, and how long the back-off would
/// be; times in nanoseconds.
pub struct Failure {
    pub error: ErrorView,
    pub elapsed: nat,
    pub delay: nat,
}

impl RunView {
    /// The error that it all comes to after a failure; `None` where there is another attempt.
    pub open spec fn verdict(self, failure: Failure) -> Option<ErrorView> {
        self.policy.verdict(self.attempt, failure.error, failure.elapsed, failure.delay)
    }

    /// The run in its next attempt.
    pub open spec fn next(self) -> RunView {
        RunView { attempt: (self.attempt + 1) as u32, ..self }
    }

    /// How many attempts the run makes where these failures are all that it meets.
    pub open spec fn calls(self, failures: Seq<Failure>) -> nat
        decreases failures.len(),
    {
        if failures.len() == 0 {
            0
        } else if self.verdict(failures[0]) is None {
            1 + self.next().calls(failures.skip(1))
        } else {
            1
        }
    }
}

impl RetryRun {
    /// A run before its first attempt.
    #[must_use]
    pub fn start(policy: RetryPolicy) -> (r: Self)
        ensures
            r@ == (RunView { policy, attempt: 0 }),
    {
        RetryRun { policy, attempt: 0 }
    }

    /// The attempt under way, counted from zero.
    #[must_use]
    pub fn attempt(&self) -> (r: u32)
        ensures
            r == self@.attempt,
    {
        self.attempt
    }

    /// Takes the failure of the attempt under way, when so much time has passed and the back-off
    /// would take so much more; goes over to the next attempt where there is one.
    pub fn failed(&mut self, error: TaosError, elapsed: Duration, delay: Duration) -> (r: RetryStep)
        ensures
            ({
                let verdict = old(self)@.verdict(
                    Failure {
                        error: error@,
                        elapsed: duration::nanos(elapsed),
                        delay: duration::nanos(delay),
                    },
                );
                match r {
                    RetryStep::Retry => verdict is None && final(self)@ == old(self)@.next(),
                    RetryStep::GiveUp(e) => verdict == Some(e@) && final(self)@ == old(self)@,
                }
            }),
    {
        match self.policy.after_error(self.attempt, error, elapsed, delay) {
            RetryStep::Retry => {
                self.attempt = self.attempt + 1;
                RetryStep::Retry
            },
            RetryStep::GiveUp(e) => RetryStep::GiveUp(e),
        }
    }
}

impl Default for RetryPolicy {
    fn default() -> (r: Self)
        ensures
            r.max_attempts == 1,
            duration::nanos(r.initial_backoff) == 50_000_000,
            duration::nanos(r.max_backoff) == 2_000_000_000,
            r.deadline is None,
    {
        RetryPolicy {
            max_attempts: 1,
            initial_backoff: Duration::from_millis(50),
            max_backoff: Duration::from_secs(2),
            deadline: None,
        }
    }
}

proof fn lemma_shift(attempt: u32)
    requires
        attempt < 32,
    ensures
        1u32 << attempt == vstd::arithmetic::power2::pow2(attempt as nat),
{
    vstd::arithmetic::power2::lemma2_to64();
    vstd::arithmetic::power2::lemma_pow2_strictly_increases(attempt as nat, 32);
    vstd::bits::lemma_u32_shl_is_mul(1, attempt);
}

// ---------------------------------------------------------------------------
// Spread
// ---------------------------------------------------------------------------

/// The next state of the generator: three shifts and exclusive ors.
pub open spec fn shifted(state: u64) -> u64 {
    let a = state ^ (state << 13);
    let b = a ^ (a >> 7);
    b ^ (b << 17)
}

/// The next state of the generator. A state of zero stands for one that was never set, and is
/// replaced by the seed.
#[must_use]
pub fn next_jitter_state(state: u64, seed: u64) -> (r: u64)
    ensures
        r == shifted(
            if state == 0 {
                seed | 1
            } else {
                state
            },
        ),
{
    let mut s: u64 = if state == 0 {
        seed | 1
    } else {
        state
    };
    s = s ^ (s << 13);
    s = s ^ (s >> 7);
    s = s ^ (s << 17);
    s
}

/// The sample that a state stands for, in units of one to the power of minus fifty-three of two.
#[must_use]
pub fn unit_sample(state: u64) -> (r: u64)
    ensures
        r == state >> 11,
        r < 0x20_0000_0000_0000,
{
    assert(state >> 11 < 0x20_0000_0000_0000) by (bit_vector);
    state >> 11
}

// ---------------------------------------------------------------------------
// Laws
// ---------------------------------------------------------------------------

/// A permanent error is never tried again, and is handed on as it is.
pub proof fn law_permanent_errors_are_final(
    policy: RetryPolicy,
    attempt: u32,
    error: ErrorView,
    elapsed: nat,
    delay: nat,
)
    requires
        !error.is_retryable(),
    ensures
        policy.verdict(attempt, error, elapsed, delay) == Some(error),
{
}

/// There are never more attempts than the limits say.
pub proof fn law_attempts_are_bounded(
    policy: RetryPolicy,
    attempt: u32,
    error: ErrorView,
    elapsed: nat,
    delay: nat,
)
    requires
        policy.verdict(attempt, error, elapsed, delay) is None,
    ensures
        attempt + 1 < policy.attempts(),
        error.is_retryable(),
        policy.deadline is Some ==> elapsed + delay < duration::nanos(policy.deadline->0),
{
}

/// A run never makes more attempts than its policy allows, whatever it meets. Where it meets only
/// errors that are worth a retry, and the deadline is never in the way, it makes all of them.
pub proof fn law_run_is_bounded(policy: RetryPolicy, failures: Seq<Failure>)
    ensures
        (RunView { policy, attempt: 0 }).calls(failures) <= policy.attempts(),
        (forall|i: int|
            0 <= i < failures.len() ==> (#[trigger] failures[i]).error.is_retryable()
                && !policy.is_late(failures[i].elapsed, failures[i].delay)) && failures.len()
            >= policy.attempts() ==> (RunView { policy, attempt: 0 }).calls(failures)
            == policy.attempts(),
{
    lemma_calls_are_bounded(RunView { policy, attempt: 0 }, failures);
}

proof fn lemma_calls_are_bounded(run: RunView, failures: Seq<Failure>)
    requires
        run.attempt < run.policy.attempts(),
    ensures
        run.attempt + run.calls(failures) <= run.policy.attempts(),
        (forall|i: int|
            0 <= i < failures.len() ==> (#[trigger] failures[i]).error.is_retryable()
                && !run.policy.is_late(failures[i].elapsed, failures[i].delay)) && run.attempt
            + failures.len() >= run.policy.attempts() ==> run.attempt + run.calls(failures)
            == run.policy.attempts(),
    decreases failures.len(),
{
    if failures.len() > 0 && run.verdict(failures[0]) is None {
        let rest = failures.skip(1);
        assert forall|i: int| 0 <= i < rest.len() implies #[trigger] rest[i] == failures[i + 1] by {
        }
        lemma_calls_are_bounded(run.next(), rest);
    }
}

/// A run that meets an error that is not worth a retry ends with it, unchanged.
pub proof fn law_run_ends_with_a_permanent_error(run: RunView, failure: Failure)
    requires
        !failure.error.is_retryable(),
    ensures
        run.verdict(failure) == Some(failure.error),
        run.calls(seq![failure]) == 1,
{
}

/// The back-off never shrinks from one attempt to the next, and never exceeds the longest.
pub proof fn law_backoff_grows_to_its_cap(policy: RetryPolicy, attempt: u32)
    requires
        attempt < u32::MAX,
    ensures
        policy.base(attempt) <= policy.base((attempt + 1) as u32) <= duration::nanos(
            policy.max_backoff,
        ),
{
    let next = (attempt + 1) as u32;
    assert(doubling(attempt) <= doubling(next)) by {
        vstd::arithmetic::power2::lemma2_to64();
        if next < 32 {
            vstd::arithmetic::power2::lemma_pow2_strictly_increases(attempt as nat, next as nat);
        } else if attempt < 32 {
            assert(attempt == 31);
        }
    }
    assert(duration::nanos(policy.initial_backoff) * doubling(attempt) <= duration::nanos(
        policy.initial_backoff,
    ) * doubling(next)) by (nonlinear_arith)
        requires
            doubling(attempt) <= doubling(next),
            0 <= duration::nanos(policy.initial_backoff),
    ;
}

/// The generator never gets stuck: no state but zero leads to zero.
pub proof fn law_jitter_state_stays_alive(state: u64)
    requires
        state != 0,
    ensures
        shifted(state) != 0,
{
    let a = state ^ (state << 13);
    assert(a != 0) by (bit_vector)
        requires
            a == state ^ (state << 13),
            state != 0,
    ;
    let b = a ^ (a >> 7);
    assert(b != 0) by (bit_vector)
        requires
            b == a ^ (a >> 7),
            a != 0,
    ;
    let c = b ^ (b << 17);
    assert(c != 0) by (bit_vector)
        requires
            c == b ^ (b << 17),
            b != 0,
    ;
}

/// There is another attempt exactly where the error is worth it, an attempt is left, and the next
/// one would start before the deadline.
pub proof fn law_retry_where_it_may_help(
    policy: RetryPolicy,
    attempt: u32,
    error: ErrorView,
    elapsed: nat,
    delay: nat,
)
    ensures
        (policy.verdict(attempt, error, elapsed, delay) is None) == (error.is_retryable() && attempt
            + 1 < policy.max_attempts && (policy.deadline is None || elapsed + delay
            < duration::nanos(policy.deadline->0))),
{
}

/// A run that the deadline ends gives a time-out that ends with the last error as a reader sees it,
/// and tells the number of attempts. A run that has no attempt left gives the last error itself.
pub proof fn law_deadline_gives_a_timeout(
    policy: RetryPolicy,
    attempt: u32,
    error: ErrorView,
    elapsed: nat,
    delay: nat,
    other: u32,
)
    requires
        error.is_retryable(),
    ensures
        attempt + 1 >= policy.max_attempts ==> policy.verdict(attempt, error, elapsed, delay)
            == Some(error),
        attempt + 1 < policy.max_attempts && policy.is_late(elapsed, delay) ==> {
            let end = policy.verdict(attempt, error, elapsed, delay)->0;
            &&& end is Timeout
            &&& error.display().is_suffix_of(end.message())
            &&& other + 1 < policy.max_attempts && policy.verdict(other, error, elapsed, delay)
                == Some(end) ==> other == attempt
        },
{
    if attempt + 1 < policy.max_attempts && policy.is_late(elapsed, delay) {
        let head = "重试 deadline 耗尽（已尝试 "@;
        let tail = " 次）: "@ + error.display();
        let end = policy.verdict(attempt, error, elapsed, delay)->0;
        let m = end.message();
        let last = error.display();
        assert(m =~= head + number::decimal(attempt + 1) + tail);
        assert(m.subrange(m.len() - last.len(), m.len() as int) =~= last);
        if other + 1 < policy.max_attempts && policy.verdict(other, error, elapsed, delay) == Some(
            end,
        ) {
            assert(m =~= head + number::decimal(other + 1) + tail);
            crate::error::lemma_middle_is_told(head, attempt + 1, other + 1, tail);
        }
    }
}

/// The back-off starts with the first and doubles from one attempt to the next until it reaches the
/// longest; up to the thirty-second attempt nothing else limits it.
pub proof fn law_backoff_doubles(policy: RetryPolicy, attempt: u32)
    requires
        attempt < 31,
    ensures
        ({
            let first = duration::nanos(policy.initial_backoff);
            let longest = duration::nanos(policy.max_backoff);
            let now = policy.base(attempt);
            let next = policy.base((attempt + 1) as u32);
            &&& policy.base(0) == (if first < longest {
                first
            } else {
                longest
            })
            &&& next == (if 2 * now < longest {
                2 * now
            } else {
                longest
            })
        }),
{
    let first = duration::nanos(policy.initial_backoff);
    let two = vstd::arithmetic::power2::pow2(attempt as nat);
    vstd::arithmetic::power2::lemma2_to64();
    vstd::arithmetic::power2::lemma_pow2_unfold((attempt + 1) as nat);
    assert(first * 1 == first);
    assert(first * (2 * two) == 2 * (first * two)) by (nonlinear_arith);
}

/// The generator loses nothing: two states never lead to the same one.
pub proof fn law_jitter_states_stay_apart(a: u64, b: u64)
    requires
        shifted(a) == shifted(b),
    ensures
        a == b,
{
    let (x, y) = (a ^ (a << 13), b ^ (b << 13));
    let (p, q) = (x ^ (x >> 7), y ^ (y >> 7));
    assert(p == q) by (bit_vector)
        requires
            p ^ (p << 17) == q ^ (q << 17),
    ;
    assert(x == y) by (bit_vector)
        requires
            x ^ (x >> 7) == y ^ (y >> 7),
    ;
    assert(a == b) by (bit_vector)
        requires
            a ^ (a << 13) == b ^ (b << 13),
    ;
}

/// The generator is linear: the state after the exclusive or of two states is the exclusive or of
/// the states after them. So what it makes of the sixty-four bits is what it makes of everything.
pub proof fn law_jitter_is_linear(a: u64, b: u64)
    ensures
        shifted(a ^ b) == shifted(a) ^ shifted(b),
{
    let c = a ^ b;
    let (x, y, z) = (a ^ (a << 13), b ^ (b << 13), c ^ (c << 13));
    assert(z == x ^ y) by (bit_vector)
        requires
            c == a ^ b,
            x == a ^ (a << 13),
            y == b ^ (b << 13),
            z == c ^ (c << 13),
    ;
    let (p, q, r) = (x ^ (x >> 7), y ^ (y >> 7), z ^ (z >> 7));
    assert(r == p ^ q) by (bit_vector)
        requires
            z == x ^ y,
            p == x ^ (x >> 7),
            q == y ^ (y >> 7),
            r == z ^ (z >> 7),
    ;
    assert(r ^ (r << 17) == (p ^ (p << 17)) ^ (q ^ (q << 17))) by (bit_vector)
        requires
            r == p ^ q,
    ;
}

/// From the thirty-third attempt on the back-off grows no more, even short of the longest: the factor
/// stays at the greatest 32-bit number.
pub proof fn law_backoff_stops_growing(policy: RetryPolicy, attempt: u32)
    requires
        attempt >= 32,
    ensures
        policy.base(attempt) == policy.base(32),
        policy.base(32) == duration::nanos(policy.max_backoff) || policy.base(32)
            == duration::nanos(policy.initial_backoff) * 4_294_967_295,
        policy.base(32) <= duration::nanos(policy.max_backoff),
{
}

} // verus!
