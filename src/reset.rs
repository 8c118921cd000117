//! The retry policy of a factory reset. The reset itself clears every table
//! in one transaction; when the store reports a lock or busy condition the
//! attempt is repeated, up to three attempts, waiting longer each time.
use vstd::prelude::*;
use crate::text::{chars_of, contains_chars, contains_seq};

verus! {

/// How many attempts a reset makes at most.
pub const RESET_ATTEMPTS: u32 = 3;

/// The wait before retry number `attempt + 1`, in milliseconds.
pub open spec fn backoff_millis(attempt: nat) -> nat {
    250 * (attempt + 1)
}

/// The store's error says the database was locked or busy.
pub open spec fn is_lock_message(m: Seq<char>) -> bool {
    contains_seq(m, "database is locked"@) || contains_seq(m, "database table is locked"@)
        || contains_seq(m, "SQLITE_BUSY"@) || contains_seq(m, "SQLITE_LOCKED"@)
}

/// Whether the store's error says the database was locked or busy.
pub fn is_lock_error(message: &str) -> (r: bool)
    ensures
        r == is_lock_message(message@),
{
    let m = chars_of(message);
    contains_chars(&m, &chars_of("database is locked")) || contains_chars(&m, &chars_of("database table is locked"))
        || contains_chars(&m, &chars_of("SQLITE_BUSY")) || contains_chars(&m, &chars_of("SQLITE_LOCKED"))
}

/// What to do after an attempt.
pub enum ResetDecision {
    /// The reset is over, with this result.
    Finished(Result<bool, String>),
    /// Wait this many milliseconds, then try again.
    RetryAfter(u64),
}

/// The view of a reset attempt's outcome.
pub open spec fn outcome_view(o: Result<bool, String>) -> Result<bool, Seq<char>> {
    match o {
        Ok(b) => Ok(b),
        Err(e) => Err(e@),
    }
}

/// The decision after attempt number `attempt` (counted from zero) ended
/// with `outcome`: `None` to retry, or the final result.
pub open spec fn decision(attempt: nat, outcome: Result<bool, Seq<char>>) -> Option<Result<bool, Seq<char>>> {
    match outcome {
        Ok(b) => Some(Ok(b)),
        Err(e) => if is_lock_message(e) && attempt < 2 {
            None
        } else {
            Some(Err(e))
        },
    }
}

/// Decides what follows attempt number `attempt` (counted from zero).
pub fn reset_decision(attempt: u32, outcome: Result<bool, String>) -> (r: ResetDecision)
    requires
        attempt < RESET_ATTEMPTS,
    ensures
        match r {
            ResetDecision::Finished(res) => decision(attempt as nat, outcome_view(outcome)) == Some(outcome_view(res)),
            ResetDecision::RetryAfter(ms) => decision(attempt as nat, outcome_view(outcome)) is None
                && ms == backoff_millis(attempt as nat),
        },
{
    match outcome {
        Ok(done) => ResetDecision::Finished(Ok(done)),
        Err(error) => {
            if is_lock_error(error.as_str()) && attempt < 2 {
                ResetDecision::RetryAfter(250 * (attempt as u64 + 1))
            } else {
                ResetDecision::Finished(Err(error))
            }
        },
    }
}

/// A reset run against the successive outcomes `o` of its attempts, from
/// attempt `attempt` on: the final result and how many attempts were made.
pub open spec fn reset_run(o: Seq<Result<bool, Seq<char>>>, attempt: nat) -> (Result<bool, Seq<char>>, nat)
    recommends
        attempt < o.len(),
    decreases o.len() - attempt,
{
    if attempt >= o.len() {
        (Err(Seq::empty()), attempt)
    } else {
        match decision(attempt, o[attempt as int]) {
            Some(res) => (res, attempt + 1),
            None => reset_run(o, attempt + 1),
        }
    }
}

/// Under lock contention a reset retries at least once, makes at most three
/// attempts, and ends either with a success or with the error of its last
/// attempt; when every attempt meets the lock, that is the third attempt's
/// error.
pub proof fn lemma_reset_under_contention(o: Seq<Result<bool, Seq<char>>>)
    requires
        o.len() >= 3,
        o[0] matches Err(e) && is_lock_message(e),
    ensures
        reset_run(o, 0).1 >= 2,
        reset_run(o, 0).1 <= 3,
        reset_run(o, 0).0 is Ok || reset_run(o, 0).0 == o[reset_run(o, 0).1 - 1],
        (forall|i: int| 0 <= i < 3 ==> (#[trigger] o[i] matches Err(e) && is_lock_message(e)))
            ==> reset_run(o, 0) == (o[2], 3nat),
{
    assert(decision(0, o[0]) is None);
    assert(reset_run(o, 0) == reset_run(o, 1));
    match decision(1, o[1]) {
        Some(res) => {
            assert(reset_run(o, 1) == (res, 2nat));
        },
        None => {
            assert(reset_run(o, 1) == reset_run(o, 2));
            assert(decision(2, o[2]) is Some);
            assert(reset_run(o, 2) == (decision(2, o[2])->0, 3nat));
        },
    }
}

} // verus!
