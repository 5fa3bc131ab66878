//! A turn whose effects failed: the failed attempt it books against the
//! step that called the model, and the notice it records.
use vstd::prelude::*;
use crate::text::{owned, push_str};

verus! {

/// A step's counters as a failed effect changes them.
pub struct FailedStep {
    pub id: u64,
    pub active: bool,
    pub actions_used: u32,
    pub attempts_used: u32,
}

/// The attempt recorded for a failed effect; it ends in an effect error
/// and measured no tokens.
pub struct FailedAttempt {
    pub step_id: u64,
    pub ordinal: u32,
    pub prompt_fingerprint: String,
    pub diagnosis: String,
}

pub open spec fn sat_inc(n: u32) -> u32 {
    if n == u32::MAX { n } else { (n + 1) as u32 }
}

pub open spec fn first_with_id(steps: Seq<FailedStep>, id: u64, i: int) -> bool {
    &&& 0 <= i < steps.len()
    &&& steps[i].id == id
    &&& forall|j: int| 0 <= j < i ==> steps[j].id != id
}

/// Settles a turn whose effects failed with `error`.  When the turn
/// called the model (`call`: the step and the prompt's fingerprint) and
/// that step exists, the step is made active, it and the matter's budget
/// each count one more attempt (saturating), and a failed attempt is
/// booked; in every case the notice `effect_error: <error>` is returned.
pub fn settle_effect_error(
    budget_used: &mut u32,
    steps: &mut Vec<FailedStep>,
    call: Option<(u64, &str)>,
    error: &str,
) -> (r: (Option<FailedAttempt>, String))
    requires
        forall|i: int| 0 <= i < old(steps)@.len()
            ==> (#[trigger] old(steps)@[i]).actions_used + old(steps)@[i].attempts_used + 1 <= u32::MAX,
    ensures
        r.1@ == "effect_error: "@ + error@,
        final(steps)@.len() == old(steps)@.len(),
        match r.0 {
            Some(a) => exists|i: int| #![trigger old(steps)@[i]] {
                &&& call matches Some((id, fp))
                &&& first_with_id(old(steps)@, id, i)
                &&& a.step_id == id && a.prompt_fingerprint@ == fp@ && a.diagnosis@ == error@
                &&& a.ordinal == old(steps)@[i].actions_used + old(steps)@[i].attempts_used + 1
                &&& *final(budget_used) == sat_inc(*old(budget_used))
                &&& final(steps)@[i].id == id && final(steps)@[i].active
                &&& final(steps)@[i].actions_used == old(steps)@[i].actions_used
                &&& final(steps)@[i].attempts_used == sat_inc(old(steps)@[i].attempts_used)
                &&& forall|j: int| 0 <= j < old(steps)@.len() && j != i ==> #[trigger] final(steps)@[j] == old(steps)@[j]
            },
            None => *final(budget_used) == *old(budget_used) && final(steps)@ == old(steps)@
                && match call {
                    Some((id, _)) => forall|i: int| 0 <= i < old(steps)@.len() ==> (#[trigger] old(steps)@[i]).id != id,
                    None => true,
                },
        },
{
    let mut notice = owned("effect_error: ");
    push_str(&mut notice, error);
    let (step_id, fingerprint) = match call {
        Some(c) => c,
        None => return (None, notice),
    };
    let mut i: usize = 0;
    while i < steps.len()
        invariant
            steps@ == old(steps)@,
            *budget_used == *old(budget_used),
            call == Some((step_id, fingerprint)),
            i <= steps@.len(),
            forall|j: int| 0 <= j < i ==> (#[trigger] steps@[j]).id != step_id,
            forall|k: int| 0 <= k < old(steps)@.len()
                ==> (#[trigger] old(steps)@[k]).actions_used + old(steps)@[k].attempts_used + 1 <= u32::MAX,
            notice@ == "effect_error: "@ + error@,
        decreases steps.len() - i,
    {
        if steps[i].id == step_id {
            let actions = steps[i].actions_used;
            let attempts = steps[i].attempts_used;
            let ordinal = actions + attempts + 1;
            let next_attempts = if attempts == u32::MAX { attempts } else { attempts + 1 };
            steps.set(i, FailedStep { id: step_id, active: true, actions_used: actions, attempts_used: next_attempts });
            if *budget_used < u32::MAX {
                *budget_used = *budget_used + 1;
            }
            let attempt = FailedAttempt {
                step_id,
                ordinal,
                prompt_fingerprint: owned(fingerprint),
                diagnosis: owned(error),
            };
            assert(first_with_id(old(steps)@, step_id, i as int));
            return (Some(attempt), notice);
        }
        i = i + 1;
    }
    (None, notice)
}

} // verus!
