//! Pure statistics for a typing session: progress through the snippet,
//! words per minute, and accuracy. All three are integer formulas with
//! guarded divisions; none keeps any state.

use vstd::arithmetic::div_mod::{lemma_div_by_multiple, lemma_div_is_ordered, lemma_multiply_divide_lt};
use vstd::prelude::*;

verus! {

/// Clamp a mathematical count to what a 64-bit counter can hold.
pub open spec fn sat64(n: nat) -> nat {
    if n <= u64::MAX {
        n
    } else {
        u64::MAX as nat
    }
}

/// Progress through the snippet as a percentage: the share of the typed
/// characters among typed plus still-to-type characters, 0 when both are empty.
pub open spec fn spec_progress(correct: nat, remaining: nat) -> nat {
    if correct + remaining == 0 {
        0
    } else {
        (correct * 100) / (correct + remaining)
    }
}

/// Words per minute, with one word counted as five characters:
/// `round((correct / 5) / (time / 60))`, i.e. `round(12 * correct / time)`,
/// written as an integer floor of the half-adjusted fraction; 0 when no
/// time has elapsed.
pub open spec fn spec_wpm(time: nat, correct: nat) -> nat {
    if time == 0 {
        0
    } else {
        (correct * 24 + time) / (2 * time)
    }
}

/// Accuracy as a percentage: `round(correct * 100 / (correct + mistakes))`,
/// written as an integer floor of the half-adjusted fraction; 0 when both
/// counts are 0, and 100 when there are no mistakes but typed characters.
pub open spec fn spec_accuracy(correct: nat, mistakes: nat) -> nat {
    if correct + mistakes == 0 {
        0
    } else {
        (correct * 200 + (correct + mistakes)) / (2 * (correct + mistakes))
    }
}

/// Progress never exceeds 100.
pub proof fn lemma_progress_le_100(correct: nat, remaining: nat)
    ensures
        spec_progress(correct, remaining) <= 100,
{
    if correct + remaining != 0 {
        let den = (correct + remaining) as int;
        lemma_div_is_ordered((correct * 100) as int, 100 * den, den);
        lemma_div_by_multiple(100, den);
    }
}

/// Accuracy never exceeds 100.
pub proof fn lemma_accuracy_le_100(correct: nat, mistakes: nat)
    ensures
        spec_accuracy(correct, mistakes) <= 100,
{
    if correct + mistakes != 0 {
        let den = (correct + mistakes) as int;
        let num = (correct * 200 + correct + mistakes) as int;
        lemma_multiply_divide_lt(num, 2 * den, 101);
    }
}

/// Accuracy is exactly 100 when nothing was mistyped but something was typed.
pub proof fn lemma_accuracy_perfect(correct: nat)
    requires
        correct > 0,
    ensures
        spec_accuracy(correct, 0) == 100,
{
    let den = correct as int;
    let num = (correct * 200 + correct) as int;
    lemma_multiply_divide_lt(num, 2 * den, 101);
    lemma_div_is_ordered(100 * (2 * den), num, 2 * den);
    lemma_div_by_multiple(100, 2 * den);
}

/// Progress percentage of a session: `correct` holds the characters typed
/// correctly so far, `remaining` the characters still to be typed (the
/// cursor excluded).
pub fn calculate_progress(correct: &Vec<char>, remaining: &Vec<char>) -> (r: u8)
    ensures
        r as nat == spec_progress(correct@.len(), remaining@.len()),
        r <= 100,
{
    let c = correct.len();
    let rem = remaining.len();
    if c == 0 && rem == 0 {
        0
    } else {
        let num: u128 = (c as u128) * 100;
        let den: u128 = c as u128 + rem as u128;
        let q: u128 = num / den;
        proof {
            lemma_progress_le_100(correct@.len(), remaining@.len());
        }
        q as u8
    }
}

/// Words per minute after `time` elapsed seconds, given the correctly typed
/// characters; the result saturates at `u64::MAX` (unreachable for any
/// realistic session, but the formula itself is unbounded).
pub fn calculate_wpm(time: u64, correct: &Vec<char>) -> (r: u64)
    ensures
        r as nat == sat64(spec_wpm(time as nat, correct@.len())),
{
    if time == 0 {
        0
    } else {
        let num: u128 = (correct.len() as u128) * 24 + (time as u128);
        let den: u128 = 2 * (time as u128);
        let q: u128 = num / den;
        if q > u64::MAX as u128 {
            u64::MAX
        } else {
            q as u64
        }
    }
}

/// Accuracy percentage: correctly typed characters against correctly typed
/// plus mistyped ones. The still-remaining text plays no part in the value;
/// the parameter only mirrors the session fields handed in on completion.
pub fn calculate_accuracy(correct: &Vec<char>, _remaining: &Vec<char>, mistakes: u64) -> (r: u8)
    ensures
        r as nat == spec_accuracy(correct@.len(), mistakes as nat),
        r <= 100,
{
    let c = correct.len();
    if c == 0 && mistakes == 0 {
        0
    } else {
        let den: u128 = c as u128 + mistakes as u128;
        let num: u128 = (c as u128) * 200 + den;
        let q: u128 = num / (2 * den);
        proof {
            lemma_accuracy_le_100(correct@.len(), mistakes as nat);
        }
        q as u8
    }
}

} // verus!
