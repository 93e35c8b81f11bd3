//! What holds of every connection, whatever it is sent and whatever
//! becomes of its actions.

use crate::connection::{transition, ActionView, EventView, StateView};
use vstd::prelude::*;

verus! {

/// One step of a connection: the outcome of the action it waited for, and
/// the face that the die would show.
pub ghost struct Step {
    pub event: EventView,
    pub roll: nat,
}

/// The connection holds the lock on the saved document: the lock was taken
/// and the machine has not yet asked to release it.
pub open spec fn holds_lock(state: StateView) -> bool {
    state is Writing || state is AnsweringLocked
}

/// The connection has not answered yet, and still may.
pub open spec fn may_answer(state: StateView) -> bool {
    !(state is Answering || state is AnsweringLocked || state is Unlocking || state is Closed)
}

/// The most steps that a connection can take before it asks to close.
pub open spec fn steps_left(state: StateView) -> nat {
    match state {
        StateView::Receiving => 6,
        StateView::LoadingFile => 4,
        StateView::LoadingIndex => 3,
        StateView::LoadingNotFound => 3,
        StateView::Locking(_) => 5,
        StateView::Writing => 4,
        StateView::AnsweringLocked => 3,
        StateView::Answering => 2,
        StateView::Unlocking => 2,
        StateView::Closed => 1,
    }
}

/// The state that a connection reaches from `state` by `steps`, and the
/// actions that it asks for on the way, in order.
pub open spec fn run(state: StateView, steps: Seq<Step>) -> (StateView, Seq<ActionView>)
    decreases steps.len(),
{
    if steps.len() == 0 {
        (state, Seq::empty())
    } else {
        let before = run(state, steps.drop_last());
        let next = transition(before.0, steps.last().event, steps.last().roll);
        (next.0, before.1.push(next.1))
    }
}

/// Every step brings a connection nearer to its end: a connection that is
/// not closed has fewer steps left after a step than before it, and one
/// that asks to close is closed. A closed connection stays closed and asks
/// for nothing but to close.
pub proof fn law_progress(state: StateView, event: EventView, roll: nat)
    ensures
        steps_left(transition(state, event, roll).0) < steps_left(state) || state is Closed,
        transition(state, event, roll).1 is Close <==> transition(state, event, roll).0 is Closed,
        state is Closed ==> transition(state, event, roll).0 is Closed,
{
}

/// A connection answers at most once: only a connection that has not
/// answered sends, a connection that sends has answered, and one that has
/// answered never comes back to a state in which it may answer.
pub proof fn law_single_answer(state: StateView, event: EventView, roll: nat)
    ensures
        transition(state, event, roll).1 is Send ==> may_answer(state),
        transition(state, event, roll).1 is Send ==> !may_answer(transition(state, event, roll).0),
        !may_answer(state) ==> !may_answer(transition(state, event, roll).0),
{
}

/// The lock is taken before anything is written and released before the
/// connection closes. A connection comes to hold the lock only when its
/// request for the lock has completed; it writes only as the first thing it
/// does under the lock, and writes the body that it asked the lock for; it
/// asks for the lock only on reading a request; while it holds the lock it
/// goes on holding it or asks to release it; and it never asks to close
/// while it holds the lock.
pub proof fn law_lock_discipline(state: StateView, event: EventView, roll: nat)
    ensures
        ({
            let next = transition(state, event, roll);
            &&& holds_lock(next.0) && !holds_lock(state) ==> state is Locking && event is Completed
            &&& next.1 is Write ==> state is Locking && event is Completed && next.0 is Writing
                && next.1->Write_0 == state->Locking_0
            &&& next.1 is Lock ==> state is Receiving && next.0 is Locking
            &&& holds_lock(state) ==> holds_lock(next.0) || next.1 is Unlock
            &&& next.1 is Unlock ==> holds_lock(state) && next.0 is Unlocking
            &&& next.1 is Close ==> !holds_lock(state)
        }),
{
}

/// The state after a run has at most as many steps left as the state
/// before it, less the length of the run.
pub proof fn lemma_run_steps_left(state: StateView, steps: Seq<Step>)
    ensures
        run(state, steps).0 is Closed || steps_left(run(state, steps).0) + steps.len()
            <= steps_left(state),
        run(state, steps).1.len() == steps.len(),
    decreases steps.len(),
{
    if steps.len() > 0 {
        lemma_run_steps_left(state, steps.drop_last());
        let before = run(state, steps.drop_last());
        law_progress(before.0, steps.last().event, steps.last().roll);
    }
}

/// No connection outlives its sixth step: whatever it is sent and whatever
/// becomes of its actions, a connection has asked to close by then.
pub proof fn law_run_closes(steps: Seq<Step>)
    requires
        steps.len() >= 6,
    ensures
        run(StateView::Receiving, steps).0 is Closed,
        run(StateView::Receiving, steps).1.last() is Close,
{
    lemma_run_steps_left(StateView::Receiving, steps);
    let before = run(StateView::Receiving, steps.drop_last());
    lemma_run_steps_left(StateView::Receiving, steps.drop_last());
    law_progress(before.0, steps.last().event, steps.last().roll);
}

/// Where a run asked to send, the connection may not answer after it, and
/// where the connection may still answer, the run never asked to send.
pub proof fn lemma_run_answers(state: StateView, steps: Seq<Step>, i: int)
    requires
        0 <= i < steps.len(),
        run(state, steps).1[i] is Send,
    ensures
        may_answer(state),
        !may_answer(run(state, steps).0),
        forall|j: int| 0 <= j < steps.len() && j != i ==> !(run(state, steps).1[j] is Send),
    decreases steps.len(),
{
    let before = run(state, steps.drop_last());
    let last = steps.last();
    lemma_run_steps_left(state, steps.drop_last());
    law_single_answer(before.0, last.event, last.roll);
    if i < steps.len() - 1 {
        lemma_run_answers(state, steps.drop_last(), i);
        assert forall|j: int| 0 <= j < steps.len() && j != i implies !(run(
            state,
            steps,
        ).1[j] is Send) by {
            if j < steps.len() - 1 {
                assert(run(state, steps).1[j] == before.1[j]);
            }
        }
    } else {
        lemma_run_may_answer(state, steps.drop_last());
        assert forall|j: int| 0 <= j < steps.len() && j != i implies !(run(
            state,
            steps,
        ).1[j] is Send) by {
            assert(run(state, steps).1[j] == before.1[j]);
        }
    }
}

/// A connection that may still answer after a run could answer before it
/// and has sent nothing on the way.
pub proof fn lemma_run_may_answer(state: StateView, steps: Seq<Step>)
    requires
        may_answer(run(state, steps).0),
    ensures
        may_answer(state),
        forall|j: int| 0 <= j < steps.len() ==> !(run(state, steps).1[j] is Send),
    decreases steps.len(),
{
    if steps.len() > 0 {
        let before = run(state, steps.drop_last());
        let last = steps.last();
        lemma_run_steps_left(state, steps.drop_last());
        law_single_answer(before.0, last.event, last.roll);
        lemma_run_may_answer(state, steps.drop_last());
        assert forall|j: int| 0 <= j < steps.len() implies !(run(state, steps).1[j] is Send) by {
            if j < steps.len() - 1 {
                assert(run(state, steps).1[j] == before.1[j]);
            }
        }
    }
}

/// One response per connection: in the whole life of a connection, from
/// the reading of its request on, at most one action sends.
pub proof fn law_run_single_answer(steps: Seq<Step>, i: int, j: int)
    requires
        0 <= i < steps.len(),
        0 <= j < steps.len(),
        run(StateView::Receiving, steps).1[i] is Send,
        run(StateView::Receiving, steps).1[j] is Send,
    ensures
        i == j,
{
    lemma_run_answers(StateView::Receiving, steps, i);
}

} // verus!
