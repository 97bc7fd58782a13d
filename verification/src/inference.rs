//! The inference loop's chat budget and cooldown.
//!
//! The driver repeats agent steps until a step reports completion or
//! the chat budget is spent. A rolling counter smooths bursts: after
//! more than two counted chats without a pause, the driver sleeps once
//! and the counter resets. The decisions live here; the driver performs
//! the waiting.

use vstd::prelude::*;

verus! {

/// The loop's counters between steps.
#[derive(Debug, Clone, PartialEq, Eq)]
pub struct InferenceBudget {
    /// The chat budget for one objective.
    pub max_prompt_count: usize,
    /// Chats spent so far.
    pub chat_total_count: usize,
    /// Chats spent since the last cooldown.
    pub sleep_chat_counter: usize,
}

impl InferenceBudget {
    /// Starts the loop's bookkeeping after the initial step.
    pub fn new(max_prompt_count: usize, first_chat_count: usize) -> (b: InferenceBudget)
        ensures
            b.max_prompt_count == max_prompt_count,
            b.chat_total_count == first_chat_count,
            b.sleep_chat_counter == 0,
    {
        InferenceBudget {
            max_prompt_count,
            chat_total_count: first_chat_count,
            sleep_chat_counter: 0,
        }
    }

    /// Decides, before a step, whether to cool down first; a cooldown
    /// resets the rolling counter.
    pub fn should_sleep(&mut self) -> (r: bool)
        ensures
            r == (old(self).sleep_chat_counter > 2),
            final(self).sleep_chat_counter == if r {
                0usize
            } else {
                old(self).sleep_chat_counter
            },
            final(self).max_prompt_count == old(self).max_prompt_count,
            final(self).chat_total_count == old(self).chat_total_count,
    {
        if self.sleep_chat_counter > 2 {
            self.sleep_chat_counter = 0;
            true
        } else {
            false
        }
    }

    /// Records a finished step and says whether the loop halts: it
    /// halts when the step reported completion or the spent chats
    /// exceed the budget. Counters saturate instead of overflowing.
    pub fn record_step(&mut self, chat_count: usize, continues: bool) -> (halt: bool)
        ensures
            final(self).max_prompt_count == old(self).max_prompt_count,
            final(self).chat_total_count == sat_add(
                old(self).chat_total_count as nat,
                chat_count as nat,
            ),
            final(self).sleep_chat_counter == sat_add(
                old(self).sleep_chat_counter as nat,
                chat_count as nat,
            ),
            halt == (!continues || final(self).chat_total_count > final(self).max_prompt_count),
            !halt ==> final(self).chat_total_count <= final(self).max_prompt_count,
    {
        self.chat_total_count = saturating_add(self.chat_total_count, chat_count);
        self.sleep_chat_counter = saturating_add(self.sleep_chat_counter, chat_count);
        !continues || self.max_prompt_count < self.chat_total_count
    }
}

/// Addition on `usize` values capped at `usize::MAX`.
pub open spec fn sat_add(a: nat, b: nat) -> nat {
    if a + b > usize::MAX {
        usize::MAX as nat
    } else {
        a + b
    }
}

/// Adds without overflowing.
pub fn saturating_add(a: usize, b: usize) -> (r: usize)
    ensures
        r == sat_add(a as nat, b as nat),
{
    if a > usize::MAX - b {
        usize::MAX
    } else {
        a + b
    }
}

/// The chats spent after the initial step and a run of loop steps.
pub open spec fn chats_spent(init: nat, steps: Seq<nat>) -> nat
    decreases steps.len(),
{
    if steps.len() == 0 {
        init
    } else {
        chats_spent(init, steps.drop_last()) + steps.last()
    }
}

/// Law: the loop stops within the budget plus a constant. If the
/// initial step spent at most one chat, every loop step spends at most
/// one chat, and the loop was still running after every earlier step
/// (its total then was within the budget, as `record_step` ensures for
/// a step that does not halt), then the total spent after the final
/// step is at most `max + 2`.
pub proof fn lemma_loop_bounded(init: nat, steps: Seq<nat>, max: nat)
    requires
        init <= 1,
        forall|n: int| 0 <= n < steps.len() ==> #[trigger] steps[n] <= 1,
        forall|n: int| 1 <= n < steps.len() ==> chats_spent(init, #[trigger] steps.take(n)) <= max,
    ensures
        chats_spent(init, steps) <= max + 2,
{
    if steps.len() == 0 {
    } else {
        assert(steps.take(steps.len() as int - 1) =~= steps.drop_last());
        assert(steps.last() <= 1);
        if steps.len() == 1 {
            assert(chats_spent(init, steps.drop_last()) == init);
        } else {
            assert(chats_spent(init, steps.drop_last()) <= max);
        }
    }
}

} // verus!
