//! How often the head of the chain is asked for when the answer fails to come, and how long to wait
//! in between.

use vstd::arithmetic::power2::{lemma2_to64, lemma_pow2_strictly_increases, lemma_pow2_unfold, pow2};
use vstd::prelude::*;

verus! {

/// What to do after an attempt that failed.
#[derive(Clone, Copy, Debug, PartialEq, Eq, Structural)]
pub enum RetryStep {
    /// Report the failure.
    GiveUp,
    /// Wait, then try again. `attempts` have failed so far.
    RetryAfter { attempts: u32, delay_secs: u64 },
}

/// What to do after an attempt that failed, when `attempts` had failed before it: the waits double,
/// from two seconds on.
pub fn after_failed_attempt(attempts: u32, max_retries: u32) -> (step: RetryStep)
    requires
        attempts < u32::MAX,
        attempts + 1 < max_retries ==> attempts + 1 < 64,
    ensures
        step == (if attempts + 1 >= max_retries {
            RetryStep::GiveUp
        } else {
            RetryStep::RetryAfter {
                attempts: (attempts + 1) as u32,
                delay_secs: pow2((attempts + 1) as nat) as u64,
            }
        }),
        step matches RetryStep::RetryAfter { delay_secs, .. } ==> delay_secs == pow2(
            (attempts + 1) as nat,
        ),
{
    let attempts: u32 = attempts + 1;
    if attempts >= max_retries {
        return RetryStep::GiveUp;
    }
    let mut delay_secs: u64 = 1;
    let mut i: u32 = 0;
    proof {
        lemma2_to64();
    }
    while i < attempts
        invariant
            i <= attempts < 64,
            delay_secs == pow2(i as nat),
        decreases attempts - i,
    {
        proof {
            lemma_pow2_unfold((i + 1) as nat);
            lemma_pow2_fits((i + 1) as nat);
        }
        delay_secs = delay_secs * 2;
        i = i + 1;
    }
    RetryStep::RetryAfter { attempts, delay_secs }
}

proof fn lemma_pow2_fits(n: nat)
    requires
        n < 64,
    ensures
        pow2(n) <= 0x8000_0000_0000_0000,
{
    lemma2_to64();
    lemma_pow2_unfold(64);
    assert(pow2(63) == 0x8000_0000_0000_0000);
    if n < 63 {
        lemma_pow2_strictly_increases(n, 63);
    }
}

/// What comes of asking until there is an answer or the retries run out. `answers[i]` is what
/// attempt `i` gives, and `attempts` have failed so far.
pub open spec fn retried(answers: Seq<Option<u64>>, attempts: nat, max_retries: nat) -> Option<u64>
    decreases max_retries - attempts,
{
    match answers[attempts as int] {
        Some(n) => Some(n),
        None => if attempts + 1 >= max_retries {
            None
        } else {
            retried(answers, attempts + 1, max_retries)
        },
    }
}

/// How many seconds are spent waiting if no attempt gives an answer and `attempts` have failed so
/// far.
pub open spec fn wait_until_given_up(attempts: nat, max_retries: nat) -> nat
    decreases max_retries - attempts,
{
    if attempts + 1 >= max_retries {
        0
    } else {
        pow2(attempts + 1) + wait_until_given_up(attempts + 1, max_retries)
    }
}

/// At least one attempt is made, and no more than `max_retries` otherwise: the result is the first
/// answer among these, and nothing if none of them gives one.
pub proof fn law_first_answer_counts(answers: Seq<Option<u64>>, attempts: nat, max_retries: nat)
    requires
        attempts < max_retries || attempts == 0,
    ensures
        ({
            let last = if max_retries == 0 {
                1nat
            } else {
                max_retries
            };
            match retried(answers, attempts, max_retries) {
                Some(n) => exists|i: int|
                    #![trigger answers[i]]
                    attempts <= i < last && answers[i] == Some(n) && forall|j: int|
                        attempts <= j < i ==> answers[j] is None,
                None => forall|i: int| attempts <= i < last ==> answers[i] is None,
            }
        }),
    decreases max_retries - attempts,
{
    if answers[attempts as int] is None && attempts + 1 < max_retries {
        law_first_answer_counts(answers, attempts + 1, max_retries);
        if let Some(n) = retried(answers, attempts + 1, max_retries) {
            let i = choose|i: int|
                #![trigger answers[i]]
                attempts + 1 <= i < max_retries && answers[i] == Some(n) && forall|j: int|
                    attempts + 1 <= j < i ==> answers[j] is None;
            assert(answers[i] == Some(n));
        }
    }
}

/// Giving up after `max_retries` attempts takes as many seconds of waiting as the next wait would
/// have taken, less two.
pub proof fn law_time_until_given_up(attempts: nat, max_retries: nat)
    requires
        attempts < max_retries,
    ensures
        wait_until_given_up(attempts, max_retries) + pow2(attempts + 1) == pow2(max_retries),
    decreases max_retries - attempts,
{
    if attempts + 1 < max_retries {
        law_time_until_given_up(attempts + 1, max_retries);
        lemma_pow2_unfold(attempts + 2);
    }
}

} // verus!
