//! The depth budget that bounds recursive reflection: every reflected ray
//! is traced with a budget one smaller than the ray it comes from.
use vstd::prelude::*;

verus! {

/// Budget of the reflected ray at a surface reached with `depth_budget`, or
/// `None` when no reflected ray is traced there: the budget is spent or the
/// surface does not reflect.
pub open spec fn next_budget(depth_budget: u32, reflective: bool) -> Option<u32> {
    if depth_budget == 0 || !reflective {
        None
    } else {
        Some((depth_budget - 1) as u32)
    }
}

/// Whether to trace a reflected ray at a surface reached with
/// `depth_budget`, and with which budget.
pub fn reflection_budget(depth_budget: u32, reflective: bool) -> (r: Option<u32>)
    ensures
        r == next_budget(depth_budget, reflective),
{
    if depth_budget == 0 || !reflective {
        None
    } else {
        Some(depth_budget - 1)
    }
}

/// Number of reflected rays traced from a ray with `depth_budget` when the
/// surfaces it and its reflections meet reflect as `reflective` says, in order.
pub open spec fn bounces(depth_budget: u32, reflective: Seq<bool>) -> nat
    decreases reflective.len(),
{
    if reflective.len() == 0 {
        0
    } else {
        match next_budget(depth_budget, reflective[0]) {
            None => 0,
            Some(b) => 1 + bounces(b, reflective.drop_first()),
        }
    }
}

/// Reflection always ends: whatever the surfaces met, a ray traced with
/// `depth_budget` gives rise to at most `depth_budget` reflected rays; and
/// between mirrors that face each other it gives rise to exactly that many.
pub proof fn lemma_reflection_terminates(depth_budget: u32, reflective: Seq<bool>)
    ensures
        bounces(depth_budget, reflective) <= depth_budget,
        (reflective.len() >= depth_budget && forall|i: int|
            0 <= i < reflective.len() ==> #[trigger] reflective[i]) ==> bounces(
            depth_budget,
            reflective,
        ) == depth_budget,
    decreases reflective.len(),
{
    if reflective.len() > 0 {
        if let Some(b) = next_budget(depth_budget, reflective[0]) {
            lemma_reflection_terminates(b, reflective.drop_first());
            if forall|i: int| 0 <= i < reflective.len() ==> #[trigger] reflective[i] {
                assert forall|i: int| 0 <= i < reflective.drop_first().len() implies #[trigger]
                    reflective.drop_first()[i] by {
                    assert(reflective[i + 1]);
                }
            }
        }
    }
}

} // verus!
