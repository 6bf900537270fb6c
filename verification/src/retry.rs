//! The bounded-retry policy of version resolution.
//!
//! Resolution makes up to `retry_count` attempts, keeps only the last
//! failure's message, and after exhausting the attempts reports one
//! aggregated error that embeds it. The attempts themselves (network calls
//! and the timed pause between them) are driven by the embedding program;
//! this module fixes what the sequence of attempt outcomes resolves to.

use vstd::prelude::*;

use crate::text::{chars_to_string, str_chars};

verus! {

/// Configuration of the retry loop.
#[derive(Clone, Copy, PartialEq, Eq, Structural, Debug)]
pub struct RetryPolicy {
    /// How many resolution attempts are made before giving up.
    pub retry_count: u32,
    /// The fixed pause between attempts, in seconds.
    pub retry_delay_secs: u64,
}

/// The default policy: three attempts, three seconds apart.
pub fn default_retry_policy() -> (r: RetryPolicy)
    ensures
        r.retry_count == 3,
        r.retry_delay_secs == 3,
{
    RetryPolicy { retry_count: 3, retry_delay_secs: 3 }
}

/// The prefix of the aggregated error after retries are exhausted.
pub open spec fn exhausted_prefix() -> Seq<char> {
    "unable to fetch latest version: "@
}

/// The state of a retry loop between attempts.
pub struct RetryState {
    /// Attempts performed so far.
    pub attempts_made: u32,
    /// The most recent failure's message.
    pub last_error: String,
}

/// What one attempt's outcome makes of the retry loop.
pub enum RetryVerdict {
    /// The attempt succeeded: resolution is done with this tag.
    Resolved(String),
    /// The attempt failed and attempts remain: pause, then try again
    /// from the carried state.
    TryAgain(RetryState),
    /// The attempt failed and the attempts are exhausted: give up with
    /// the aggregated error message.
    GiveUp(String),
}

/// Start a retry loop: no attempt made, no failure seen.
pub fn retry_begin() -> (r: RetryState)
    ensures
        r.attempts_made == 0,
        r.last_error@ == Seq::<char>::empty(),
{
    RetryState { attempts_made: 0, last_error: String::new() }
}

/// Whether the policy allows another attempt from this state.
pub fn retry_more_attempts(policy: &RetryPolicy, state: &RetryState) -> (r: bool)
    ensures
        r == (state.attempts_made < policy.retry_count),
{
    state.attempts_made < policy.retry_count
}

/// Advance the retry loop by one attempt's outcome: the first success
/// resolves; a failure is kept as the last error, and either another
/// attempt remains or the policy is exhausted and the aggregated error
/// embeds this failure's message.
pub fn retry_step(policy: &RetryPolicy, state: RetryState, outcome: Result<String, String>) -> (r:
    RetryVerdict)
    requires
        state.attempts_made < policy.retry_count,
    ensures
        outcome is Ok ==> r is Resolved && r->Resolved_0@ == outcome->Ok_0@,
        outcome is Err && state.attempts_made + 1 < policy.retry_count ==> r is TryAgain
            && r->TryAgain_0.attempts_made == state.attempts_made + 1
            && r->TryAgain_0.last_error@ == outcome->Err_0@,
        outcome is Err && state.attempts_made + 1 >= policy.retry_count ==> r is GiveUp
            && r->GiveUp_0@ == exhausted_prefix() + outcome->Err_0@,
{
    match outcome {
        Result::Ok(tag) => RetryVerdict::Resolved(tag),
        Result::Err(e) => {
            let attempts: u32 = state.attempts_made + 1;
            if attempts < policy.retry_count {
                RetryVerdict::TryAgain(RetryState { attempts_made: attempts, last_error: e })
            } else {
                RetryVerdict::GiveUp(exhausted_message(e.as_str()))
            }
        },
    }
}

/// What a sequence of attempt outcomes resolves to: the first success, or
/// after the last attempt an aggregated error embedding the last failure's
/// message. `last_err` is the failure message carried in so far.
pub open spec fn resolve_from_attempts_spec(
    outcomes: Seq<Result<Seq<char>, Seq<char>>>,
    last_err: Seq<char>,
) -> Result<Seq<char>, Seq<char>>
    decreases outcomes.len(),
{
    if outcomes.len() == 0 {
        Result::Err(exhausted_prefix() + last_err)
    } else {
        match outcomes[0] {
            Result::Ok(tag) => Result::Ok(tag),
            Result::Err(e) => resolve_from_attempts_spec(outcomes.skip(1), e),
        }
    }
}

/// How many attempts the sequence actually performs: one per outcome up to
/// and including the first success, all of them when none succeeds.
pub open spec fn attempts_used_spec(outcomes: Seq<Result<Seq<char>, Seq<char>>>) -> nat
    decreases outcomes.len(),
{
    if outcomes.len() == 0 {
        0
    } else if outcomes[0] is Ok {
        1
    } else {
        1 + attempts_used_spec(outcomes.skip(1))
    }
}

/// The view of one attempt outcome.
pub open spec fn outcome_view(o: Result<String, String>) -> Result<Seq<char>, Seq<char>> {
    match o {
        Result::Ok(tag) => Result::Ok(tag@),
        Result::Err(e) => Result::Err(e@),
    }
}

/// Build the aggregated error message after retries are exhausted.
pub fn exhausted_message(last_err: &str) -> (r: String)
    ensures
        r@ == exhausted_prefix() + last_err@,
{
    let mut out = str_chars("unable to fetch latest version: ");
    let mut tail = str_chars(last_err);
    out.append(&mut tail);
    proof {
        assert(out@ =~= exhausted_prefix() + last_err@);
    }
    chars_to_string(&out)
}

/// Run the retry policy over a recorded sequence of attempt outcomes:
/// take outcomes in order, stop at the first success, and after
/// `retry_count` failures report the aggregated error.
pub fn resolve_from_attempts(retry_count: usize, outcomes: &Vec<Result<String, String>>) -> (r:
    Result<String, String>)
    requires
        retry_count <= outcomes@.len(),
    ensures
        outcome_view(r) == resolve_from_attempts_spec(
            outcomes@.map_values(|o: Result<String, String>| outcome_view(o)).take(
                retry_count as int,
            ),
            Seq::<char>::empty(),
        ),
{
    let ghost all = outcomes@.map_values(|o: Result<String, String>| outcome_view(o));
    proof {
        assert(all.take(retry_count as int).skip(0) =~= all.take(retry_count as int));
    }
    let mut last_err: String = String::new();
    let mut i: usize = 0;
    while i < retry_count
        invariant
            i <= retry_count <= outcomes@.len(),
            all == outcomes@.map_values(|o: Result<String, String>| outcome_view(o)),
            all.len() == outcomes@.len(),
            resolve_from_attempts_spec(all.take(retry_count as int), Seq::<char>::empty())
                == resolve_from_attempts_spec(
                all.take(retry_count as int).skip(i as int),
                last_err@,
            ),
        decreases retry_count - i,
    {
        let ghost rest = all.take(retry_count as int).skip(i as int);
        proof {
            assert(rest.len() == retry_count - i);
            assert(rest[0] == all[i as int]);
            assert(all[i as int] == outcome_view(outcomes@[i as int]));
        }
        match &outcomes[i] {
            Result::Ok(tag) => {
                proof {
                    assert(resolve_from_attempts_spec(rest, last_err@) == Result::<
                        Seq<char>,
                        Seq<char>,
                    >::Ok(tag@));
                }
                return Ok(tag.clone());
            },
            Result::Err(e) => {
                proof {
                    assert(rest.skip(1) =~= all.take(retry_count as int).skip(i + 1));
                    assert(resolve_from_attempts_spec(rest, last_err@)
                        == resolve_from_attempts_spec(
                        all.take(retry_count as int).skip(i + 1),
                        e@,
                    ));
                }
                last_err = e.clone();
            },
        }
        i = i + 1;
    }
    proof {
        assert(all.take(retry_count as int).skip(retry_count as int) =~= Seq::<
            Result<Seq<char>, Seq<char>>,
        >::empty());
    }
    Err(exhausted_message(last_err.as_str()))
}

/// Retry exhaustion: when every one of `count` attempts fails, exactly
/// `count` attempts are performed — no more, no fewer — and the result is
/// the aggregated error embedding the last attempt's failure message.
pub proof fn lemma_retry_exhaustion(outcomes: Seq<Result<Seq<char>, Seq<char>>>, last_err: Seq<
    char,
>)
    requires
        outcomes.len() >= 1,
        forall|i: int| 0 <= i < outcomes.len() ==> outcomes[i] is Err,
    ensures
        attempts_used_spec(outcomes) == outcomes.len(),
        resolve_from_attempts_spec(outcomes, last_err) == Result::<Seq<char>, Seq<char>>::Err(
            exhausted_prefix() + outcomes[outcomes.len() - 1]->Err_0,
        ),
    decreases outcomes.len(),
{
    assert(outcomes[0] is Err);
    assert(attempts_used_spec(outcomes) == 1 + attempts_used_spec(outcomes.skip(1)));
    assert(resolve_from_attempts_spec(outcomes, last_err) == resolve_from_attempts_spec(
        outcomes.skip(1),
        outcomes[0]->Err_0,
    ));
    if outcomes.len() == 1 {
        let empty_rest = Seq::<Result<Seq<char>, Seq<char>>>::empty();
        assert(outcomes.skip(1) =~= empty_rest);
        assert(attempts_used_spec(empty_rest) == 0);
        assert(resolve_from_attempts_spec(empty_rest, outcomes[0]->Err_0) == Result::<
            Seq<char>,
            Seq<char>,
        >::Err(exhausted_prefix() + outcomes[0]->Err_0));
    } else {
        let rest = outcomes.skip(1);
        assert(forall|i: int| 0 <= i < rest.len() ==> rest[i] == outcomes[i + 1]);
        lemma_retry_exhaustion(rest, outcomes[0]->Err_0);
        assert(rest[rest.len() - 1] == outcomes[outcomes.len() - 1]);
    }
}

} // verus!
