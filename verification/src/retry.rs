//! When a call to the scraper service is retried, and how long to wait.
use vstd::prelude::*;

verus! {

/// 429 (rate-limited) and 5xx are retried; other statuses fail at once.
pub open spec fn spec_is_retryable_status(status: u16) -> bool {
    status == 429 || (500 <= status && status < 600)
}

pub fn is_retryable_status(status: u16) -> (r: bool)
    ensures
        r == spec_is_retryable_status(status),
        status == 429 ==> r,
        500 <= status < 600 ==> r,
        status < 400 ==> !r,
        400 <= status < 500 && status != 429 ==> !r,
{
    status == 429 || (500 <= status && status < 600)
}

/// 2 to the power `e`.
pub open spec fn pow2(e: nat) -> nat
    decreases e,
{
    if e == 0 {
        1
    } else {
        2 * pow2((e - 1) as nat)
    }
}

/// Seconds to wait after attempt `attempt` (counted from 1): doubling from one
/// second, the exponent capped at 5, the wait capped at 30 seconds.
pub open spec fn spec_backoff_secs(attempt: nat) -> nat {
    let e: nat = if attempt == 0 {
        0
    } else {
        (attempt - 1) as nat
    };
    let e: nat = if e > 5 {
        5
    } else {
        e
    };
    if pow2(e) > 30 {
        30
    } else {
        pow2(e)
    }
}

pub fn backoff_secs(attempt: u64) -> (r: u64)
    ensures
        r == spec_backoff_secs(attempt as nat),
{
    let e: u64 = if attempt == 0 {
        0
    } else {
        attempt - 1
    };
    let e: u64 = if e > 5 {
        5
    } else {
        e
    };
    proof {
        reveal_with_fuel(pow2, 6);
    }
    let p: u64 = if e == 0 {
        1
    } else if e == 1 {
        2
    } else if e == 2 {
        4
    } else if e == 3 {
        8
    } else if e == 4 {
        16
    } else {
        32
    };
    if p > 30 {
        30
    } else {
        p
    }
}

/// Waits only grow from one attempt to the next, from one second up to thirty.
pub proof fn lemma_backoff_grows_to_cap(a: nat, b: nat)
    requires
        a <= b,
    ensures
        1 <= spec_backoff_secs(a) <= spec_backoff_secs(b) <= 30,
{
    reveal_with_fuel(pow2, 6);
}

/// The wait starts at one second after the first attempt and doubles after
/// each further attempt until it reaches thirty seconds.
pub proof fn law_backoff_doubles(a: nat)
    ensures
        spec_backoff_secs(1) == 1,
        a >= 1 ==> spec_backoff_secs(a + 1) == (if 2 * spec_backoff_secs(a) < 30 {
            2 * spec_backoff_secs(a)
        } else {
            30
        }),
{
    reveal_with_fuel(pow2, 7);
    if a >= 1 && a < 6 {
        assert(pow2(a as nat) == 2 * pow2((a - 1) as nat));
    }
}

/// What came of one attempt.
#[derive(Debug, Clone, Copy, PartialEq, Eq, Structural)]
pub enum AttemptOutcome {
    /// The service answered with this HTTP status.
    Response(u16),
    /// The connection could not be made: the port is not open.
    ConnectFailed,
    /// Any other network failure, such as a timeout.
    NetworkFailed,
}

/// What to do after an attempt.
#[derive(Debug, Clone, Copy, PartialEq, Eq, Structural)]
pub enum RetryAction {
    /// The answer is a success: take it.
    Accept,
    /// Give up and report the failure.
    Fail,
    /// Wait this many seconds, then try again.
    Wait(u64),
}

/// The retry loop's decision after attempt `attempt` (counted from 1): a 2xx
/// answer is taken, a failed connection and a status that is not retryable
/// fail at once, and anything else is retried after the backoff.
pub open spec fn spec_next_action(attempt: nat, outcome: AttemptOutcome) -> RetryAction {
    match outcome {
        AttemptOutcome::Response(s) => if 200 <= s && s < 300 {
            RetryAction::Accept
        } else if spec_is_retryable_status(s) {
            RetryAction::Wait(spec_backoff_secs(attempt) as u64)
        } else {
            RetryAction::Fail
        },
        AttemptOutcome::ConnectFailed => RetryAction::Fail,
        AttemptOutcome::NetworkFailed => RetryAction::Wait(spec_backoff_secs(attempt) as u64),
    }
}

/// A wait of one to thirty seconds before the next attempt.
pub open spec fn waits_briefly(a: RetryAction) -> bool {
    a matches RetryAction::Wait(w) && 1 <= w <= 30
}

/// A success is taken, a refused connection or a client error (other than
/// 429) fails at once, and a rate limit, a server error or a network failure
/// is retried after a wait of one to thirty seconds.
pub proof fn law_retry_decisions(attempt: nat, outcome: AttemptOutcome)
    ensures
        outcome matches AttemptOutcome::Response(s) && 200 <= s < 300 ==> spec_next_action(
            attempt,
            outcome,
        ) == RetryAction::Accept,
        outcome matches AttemptOutcome::Response(s) && 400 <= s < 500 && s != 429
            ==> spec_next_action(attempt, outcome) == RetryAction::Fail,
        outcome matches AttemptOutcome::Response(s) && (s == 429 || 500 <= s < 600)
            ==> waits_briefly(spec_next_action(attempt, outcome)),
        outcome == AttemptOutcome::ConnectFailed ==> spec_next_action(attempt, outcome)
            == RetryAction::Fail,
        outcome == AttemptOutcome::NetworkFailed ==> waits_briefly(spec_next_action(attempt, outcome)),
{
    lemma_backoff_grows_to_cap(attempt, attempt);
}

pub fn next_action(attempt: u64, outcome: AttemptOutcome) -> (r: RetryAction)
    ensures
        r == spec_next_action(attempt as nat, outcome),
        outcome matches AttemptOutcome::Response(s) && 200 <= s < 300 ==> r == RetryAction::Accept,
        outcome matches AttemptOutcome::Response(s) && 400 <= s < 500 && s != 429 ==> r
            == RetryAction::Fail,
        outcome matches AttemptOutcome::Response(s) && (s == 429 || 500 <= s < 600) ==> waits_briefly(r),
        outcome == AttemptOutcome::ConnectFailed ==> r == RetryAction::Fail,
        outcome == AttemptOutcome::NetworkFailed ==> waits_briefly(r),
{
    proof {
        law_retry_decisions(attempt as nat, outcome);
    }
    match outcome {
        AttemptOutcome::Response(s) => {
            if 200 <= s && s < 300 {
                RetryAction::Accept
            } else if is_retryable_status(s) {
                RetryAction::Wait(backoff_secs(attempt))
            } else {
                RetryAction::Fail
            }
        },
        AttemptOutcome::ConnectFailed => RetryAction::Fail,
        AttemptOutcome::NetworkFailed => RetryAction::Wait(backoff_secs(attempt)),
    }
}

/// The source a hotel scrape names when none is given.
pub fn default_source() -> (r: String)
    ensures
        r@ == "trip"@,
{
    String::from_str("trip")
}

/// A hotel scrape as sent to the scraper service.
#[derive(Debug)]
pub struct ScrapeRequest {
    pub city: String,
    pub checkin: String,
    pub checkout: String,
    pub max_pages: u32,
    pub source: String,
}

/// A train or flight scrape as sent to the scraper service.
#[derive(Debug)]
pub struct RouteScrapeRequest {
    pub from_city: String,
    pub to_city: String,
    pub travel_date: String,
}

/// The endpoint of the scraper service for one kind of data: `{base}/scrape/{kind}`.
pub fn scrape_url(base_url: &str, kind: &str) -> (r: String)
    ensures
        r@ == base_url@ + "/scrape/"@ + kind@,
{
    let mut s = String::from_str(base_url);
    s.append("/scrape/");
    s.append(kind);
    s
}

} // verus!
