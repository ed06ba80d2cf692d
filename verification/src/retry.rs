//! Retry policy for HTTP calls: classification of statuses, `Retry-After`
//! parsing, back-off delays, and the retry decisions taken after each attempt.

use vstd::prelude::*;
use crate::text::{chars_of, parse_unsigned, parse_unsigned_exec, trim, trim_chars};

verus! {

/// A length of time, in milliseconds.
#[derive(Debug, Clone, Copy, PartialEq, Eq, Structural)]
pub struct Delay {
    pub millis: u128,
}

impl Delay {
    pub fn from_secs(secs: u64) -> (res: Delay)
        ensures
            res.millis == secs * 1000,
    {
        Delay { millis: secs as u128 * 1000 }
    }

    pub fn from_millis(millis: u64) -> (res: Delay)
        ensures
            res.millis == millis,
    {
        Delay { millis: millis as u128 }
    }

    pub fn zero() -> (res: Delay)
        ensures
            res.millis == 0,
    {
        Delay { millis: 0 }
    }

    pub fn is_zero(&self) -> (res: bool)
        ensures
            res == (self.millis == 0),
    {
        self.millis == 0
    }

    /// Whole seconds.
    pub fn as_secs(&self) -> (res: u128)
        ensures
            res == self.millis / 1000,
    {
        self.millis / 1000
    }

    /// The shorter of two delays.
    pub fn min(self, other: Delay) -> (res: Delay)
        ensures
            res.millis == (if self.millis <= other.millis { self.millis } else { other.millis }),
    {
        if self.millis <= other.millis { self } else { other }
    }
}

/// Ceiling on a server-imposed wait (`Retry-After`), so that a worker is not
/// blocked too long.
pub open spec fn max_retry_after_millis() -> u128 {
    30_000
}

/// Retry policy: the base delays between two attempts. The number of attempts
/// is `delays.len() + 1`.
pub struct RetryPolicy {
    delays: Vec<Delay>,
}

impl View for RetryPolicy {
    type V = Seq<Delay>;

    closed spec fn view(&self) -> Seq<Delay> {
        self.delays@
    }
}

impl RetryPolicy {
    /// Default network policy: 3 attempts, exponential back-off 1 s then 2 s.
    pub fn network() -> (res: Self)
        ensures
            res@ =~= seq![Delay { millis: 1000 }, Delay { millis: 2000 }],
    {
        let mut delays: Vec<Delay> = Vec::new();
        delays.push(Delay::from_secs(1));
        delays.push(Delay::from_secs(2));
        let res = Self { delays };
        assert(res@ =~= seq![Delay { millis: 1000 }, Delay { millis: 2000 }]);
        res
    }

    /// A policy with the given delays.
    pub fn from_delays(delays: Vec<Delay>) -> (res: Self)
        ensures
            res@ == delays@,
    {
        Self { delays }
    }

    /// `attempts` immediate attempts (no delay at all).
    pub fn no_delay(attempts: usize) -> (res: Self)
        ensures
            res@.len() == (if attempts == 0 { 0 } else { attempts - 1 }),
            forall|i: int| 0 <= i < res@.len() ==> #[trigger] res@[i].millis == 0,
    {
        let n = attempts.saturating_sub(1);
        let mut delays: Vec<Delay> = Vec::new();
        let mut i: usize = 0;
        while i < n
            invariant
                i <= n,
                delays@.len() == i,
                forall|j: int| 0 <= j < i ==> #[trigger] delays@[j].millis == 0,
            decreases n - i,
        {
            delays.push(Delay::zero());
            i += 1;
        }
        Self { delays }
    }

    /// Number of attempts allowed.
    pub fn max_attempts(&self) -> (res: usize)
        requires
            self@.len() < usize::MAX,
        ensures
            res == self@.len() + 1,
    {
        self.delays.len() + 1
    }
}

/// Issue of one attempt, as seen by the retry driver.
pub enum Outcome<T> {
    /// Terminal success: the value is handed back as is.
    Success(T),
    /// Transient failure: retry, honouring an optional server delay.
    Transient { retry_after: Option<Delay> },
    /// Final failure: give up at once.
    Permanent,
}

/// Retry decision drawn from an HTTP status and an optional `Retry-After`.
#[derive(Debug, Clone, Copy, PartialEq, Eq, Structural)]
pub enum Disposition {
    Success,
    Transient(Option<Delay>),
    Permanent,
}

/// What a `Retry-After` value in delta-seconds gives; the HTTP-date form is
/// not handled.
pub open spec fn retry_after_spec(value: Seq<char>) -> Option<Delay> {
    match parse_unsigned(trim(value), u64::MAX as nat) {
        Some(n) => Some(Delay { millis: (n * 1000) as u128 }),
        None => None,
    }
}

/// Parses a `Retry-After` header given in seconds; an HTTP date gives `None`.
pub fn parse_retry_after(value: &str) -> (res: Option<Delay>)
    ensures
        res == retry_after_spec(value@),
{
    let t = trim_chars(chars_of(value).as_slice());
    match parse_unsigned_exec(t.as_slice(), u64::MAX) {
        Some(n) => Some(Delay::from_secs(n)),
        None => None,
    }
}

pub open spec fn transient_status(status: u16) -> bool {
    status == 429 || (500 <= status && status < 600)
}

/// A status is transient (worth a retry) when it is 429 or 5xx.
pub fn is_transient_status(status: u16) -> (res: bool)
    ensures
        res == transient_status(status),
{
    status == 429 || (500 <= status && status < 600)
}

pub open spec fn classify_spec(status: u16, retry_after_header: Option<Seq<char>>) -> Disposition {
    if 200 <= status && status < 300 {
        Disposition::Success
    } else if transient_status(status) {
        Disposition::Transient(match retry_after_header {
            Some(h) => retry_after_spec(h),
            None => None,
        })
    } else {
        Disposition::Permanent
    }
}

pub open spec fn opt_str_view(o: Option<&str>) -> Option<Seq<char>> {
    match o {
        Some(s) => Some(s@),
        None => None,
    }
}

/// Classifies an HTTP status (and its raw `Retry-After`, if any).
pub fn classify(status: u16, retry_after_header: Option<&str>) -> (res: Disposition)
    ensures
        res == classify_spec(status, opt_str_view(retry_after_header)),
{
    if 200 <= status && status < 300 {
        Disposition::Success
    } else if is_transient_status(status) {
        Disposition::Transient(match retry_after_header {
            Some(h) => parse_retry_after(h),
            None => None,
        })
    } else {
        Disposition::Permanent
    }
}

/// Delay before the next attempt: the server's `Retry-After` wins (capped),
/// else the policy's delay for this attempt, else none.
pub open spec fn backoff_spec(delays: Seq<Delay>, attempt: int, retry_after: Option<Delay>) -> Delay {
    match retry_after {
        Some(ra) => Delay {
            millis: if ra.millis <= max_retry_after_millis() { ra.millis } else { max_retry_after_millis() },
        },
        None => if 0 <= attempt < delays.len() { delays[attempt] } else { Delay { millis: 0 } },
    }
}

/// Delay before the next attempt (see [`backoff_spec`]).
pub fn backoff_delay(policy: &RetryPolicy, attempt: usize, retry_after: Option<Delay>) -> (res: Delay)
    ensures
        res == backoff_spec(policy@, attempt as int, retry_after),
{
    if let Some(ra) = retry_after {
        return ra.min(Delay::from_secs(30));
    }
    if attempt < policy.delays.len() {
        policy.delays[attempt]
    } else {
        Delay::zero()
    }
}

/// No wait is ever longer than the cap or the longest delay of the policy.
pub proof fn law_backoff_bounded(delays: Seq<Delay>, attempt: int, retry_after: Option<Delay>)
    ensures
        retry_after is Some ==> backoff_spec(delays, attempt, retry_after).millis <= max_retry_after_millis(),
        retry_after is None && !(0 <= attempt < delays.len()) ==> backoff_spec(delays, attempt, retry_after).millis == 0,
{
}

/// What the driver does after an attempt.
pub enum RetryStep<T> {
    /// Stop with this result.
    Done(Option<T>),
    /// Wait this long, then attempt again.
    Wait(Delay),
}

/// State of a retry loop: the number of attempts already followed by a wait.
pub struct RetryRun {
    attempt: usize,
}

impl View for RetryRun {
    type V = nat;

    closed spec fn view(&self) -> nat {
        self.attempt as nat
    }
}

impl RetryRun {
    /// A loop before its first attempt.
    pub fn new() -> (res: RetryRun)
        ensures
            res@ == 0,
    {
        RetryRun { attempt: 0 }
    }

    /// Index of the attempt in progress (0 for the first).
    pub fn attempt(&self) -> (res: usize)
        ensures
            res == self@,
    {
        self.attempt
    }

    /// Decision after an attempt of the loop driven by `policy`: a success
    /// returns its value, a permanent failure gives up, a transient failure
    /// waits for the back-off delay unless it was the last attempt allowed.
    pub fn step<T>(&mut self, policy: &RetryPolicy, outcome: Outcome<T>) -> (res: RetryStep<T>)
        requires
            old(self)@ <= policy@.len(),
        ensures
            final(self)@ <= policy@.len(),
            match outcome {
                Outcome::Success(v) => res matches RetryStep::Done(Some(w)) && w == v && final(self)@ == old(self)@,
                Outcome::Permanent => res matches RetryStep::Done(None) && final(self)@ == old(self)@,
                Outcome::Transient { retry_after } => if old(self)@ == policy@.len() {
                    res matches RetryStep::Done(None) && final(self)@ == old(self)@
                } else {
                    res matches RetryStep::Wait(d) && d == backoff_spec(policy@, old(self)@ as int, retry_after)
                        && final(self)@ == old(self)@ + 1
                },
            },
    {
        match outcome {
            Outcome::Success(v) => RetryStep::Done(Some(v)),
            Outcome::Permanent => RetryStep::Done(None),
            Outcome::Transient { retry_after } => {
                if self.attempt >= policy.delays.len() {
                    RetryStep::Done(None)
                } else {
                    let d = backoff_delay(policy, self.attempt, retry_after);
                    self.attempt = self.attempt + 1;
                    RetryStep::Wait(d)
                }
            },
        }
    }
}

/// Number of attempts made, and the result, when a loop allowed
/// `delays_len + 1` attempts, now at attempt `attempt`, meets `outcomes`.
pub open spec fn run_model<T>(delays_len: nat, attempt: nat, outcomes: Seq<Outcome<T>>) -> (nat, Option<T>)
    decreases outcomes.len(),
{
    if outcomes.len() == 0 {
        (attempt, None)
    } else {
        match outcomes[0] {
            Outcome::Success(v) => (attempt + 1, Some(v)),
            Outcome::Permanent => (attempt + 1, None),
            Outcome::Transient { .. } => if attempt >= delays_len {
                (attempt + 1, None)
            } else {
                run_model(delays_len, attempt + 1, outcomes.drop_first())
            },
        }
    }
}

/// Whatever the attempts return, a loop driven by [`RetryRun::step`] makes at
/// most `delays.len() + 1` attempts; a permanent failure or a success ends it
/// at once.
pub proof fn law_retry_attempts_bounded<T>(delays_len: nat, attempt: nat, outcomes: Seq<Outcome<T>>)
    requires
        attempt <= delays_len,
    ensures
        run_model(delays_len, attempt, outcomes).0 <= delays_len + 1,
        outcomes.len() > 0 && outcomes[0] is Permanent ==> run_model(delays_len, attempt, outcomes) == (attempt + 1, None::<T>),
        outcomes.len() > 0 ==> (outcomes[0] matches Outcome::Success(v) ==> run_model(delays_len, attempt, outcomes) == (attempt + 1, Some(v))),
    decreases outcomes.len(),
{
    if outcomes.len() > 0 {
        if outcomes[0] is Transient && attempt < delays_len {
            law_retry_attempts_bounded(delays_len, attempt + 1, outcomes.drop_first());
        }
    }
}

/// The server delay a transient outcome carries.
pub open spec fn retry_after_of<T>(o: Outcome<T>) -> Option<Delay> {
    match o {
        Outcome::Transient { retry_after } => retry_after,
        _ => None,
    }
}

/// A whole retry loop, step by step as [`RetryRun::step`] decides, from
/// attempt `attempt` on, when the successive calls return `outcomes`: the
/// number of calls made, the waits between them, and the result.
pub open spec fn drive<T>(delays: Seq<Delay>, attempt: nat, outcomes: Seq<Outcome<T>>) -> (nat, Seq<Delay>, Option<T>)
    decreases outcomes.len(),
{
    if outcomes.len() == 0 {
        (0, Seq::empty(), None)
    } else {
        match outcomes[0] {
            Outcome::Success(v) => (1, Seq::empty(), Some(v)),
            Outcome::Permanent => (1, Seq::empty(), None),
            Outcome::Transient { retry_after } => if attempt >= delays.len() {
                (1, Seq::empty(), None)
            } else {
                let (m, w, r) = drive(delays, attempt + 1, outcomes.drop_first());
                (m + 1, seq![backoff_spec(delays, attempt as int, retry_after)] + w, r)
            },
        }
    }
}

proof fn lemma_drive<T>(delays: Seq<Delay>, a: nat, outcomes: Seq<Outcome<T>>)
    requires
        a <= delays.len(),
        outcomes.len() >= delays.len() + 1 - a,
    ensures
        ({
            let (m, w, r) = drive(delays, a, outcomes);
            &&& 1 <= m <= delays.len() + 1 - a
            &&& w.len() == m - 1
            &&& forall|i: int| 0 <= i < m - 1 ==> (#[trigger] outcomes[i]) is Transient
                && w[i] == backoff_spec(delays, a + i, retry_after_of(outcomes[i]))
            &&& match outcomes[m - 1] {
                Outcome::Success(v) => r == Some(v),
                _ => r is None,
            }
            &&& m < delays.len() + 1 - a ==> !(outcomes[m - 1] is Transient)
        }),
    decreases outcomes.len(),
{
    match outcomes[0] {
        Outcome::Transient { retry_after } => {
            if a < delays.len() {
                let rest = outcomes.drop_first();
                lemma_drive(delays, a + 1, rest);
                let (m, w, r) = drive(delays, a + 1, rest);
                let w2 = seq![backoff_spec(delays, a as int, retry_after)] + w;
                assert forall|i: int| 0 <= i < m implies (#[trigger] outcomes[i]) is Transient
                    && w2[i] == backoff_spec(delays, a + i, retry_after_of(outcomes[i])) by {
                    if i > 0 {
                        assert(outcomes[i] == rest[i - 1]);
                        assert(w2[i] == w[i - 1]);
                    }
                }
                assert(outcomes[m as int] == rest[m - 1]);
            }
        },
        _ => {},
    }
}

/// A retry loop with `delays.len() = k` calls its operation `m` times, with
/// `1 <= m <= k + 1`: every call but the last returned a transient failure,
/// and before call `i + 1` it waits the back-off of attempt `i` (the server's
/// capped delay, else the policy's); the result is the last call's value if
/// it succeeded, else nothing; and it stops before `k + 1` calls only on a
/// success or a permanent failure.
pub proof fn law_retry_driver<T>(delays: Seq<Delay>, outcomes: Seq<Outcome<T>>)
    requires
        outcomes.len() >= delays.len() + 1,
    ensures
        ({
            let (m, w, r) = drive(delays, 0, outcomes);
            &&& 1 <= m <= delays.len() + 1
            &&& w.len() == m - 1
            &&& forall|i: int| 0 <= i < m - 1 ==> (#[trigger] outcomes[i]) is Transient
                && w[i] == backoff_spec(delays, i, retry_after_of(outcomes[i]))
            &&& match outcomes[m - 1] {
                Outcome::Success(v) => r == Some(v),
                _ => r is None,
            }
            &&& m < delays.len() + 1 ==> !(outcomes[m - 1] is Transient)
        }),
{
    lemma_drive(delays, 0, outcomes);
}

} // verus!
