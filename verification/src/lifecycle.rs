//! Whole lives of a wait request: what holds of every sequence of events
//! that can reach it.

use crate::handlers::{
    action_fits, error_reply, phase_after, phase_after_all, ready_reply, Action, Event,
    HandlerErr, Phase, Reply, ReplyView, STATUS_INTERNAL_SERVER_ERROR, STATUS_OK,
    STATUS_REQUEST_TIMEOUT,
};
use vstd::prelude::*;

verus! {

/// Whether `phase` waits for `event`: other events pass it by.
pub open spec fn awaits(phase: Phase, event: Event) -> bool {
    match phase {
        Phase::Created | Phase::CheckingOut => event is Submitted || event is SubmitFailed,
        Phase::AwaitingMatch => event is Signalled || event is DeadlineElapsed,
        _ => false,
    }
}

/// How many awaited events a request in `phase` is from its end at most.
pub open spec fn steps_left(phase: Phase) -> nat {
    match phase {
        Phase::Created => 3,
        Phase::AwaitingMatch => 2,
        Phase::CheckingOut => 1,
        _ => 0,
    }
}

/// The reply that the caller gets for an outcome.
pub open spec fn outcome_reply(outcome: Result<Reply, HandlerErr>) -> ReplyView {
    match outcome {
        Ok(reply) => reply@,
        Err(err) => error_reply(err),
    }
}

/// The status that goes with a final phase.
pub open spec fn status_of(phase: Phase) -> u16 {
    match phase {
        Phase::Matched => STATUS_OK,
        Phase::TimedOut => STATUS_REQUEST_TIMEOUT,
        _ => STATUS_INTERNAL_SERVER_ERROR,
    }
}

/// No event of `events` is a signal from the counterpart.
pub open spec fn never_signalled(events: Seq<Event>) -> bool {
    forall|i: int| 0 <= i < events.len() ==> !(#[trigger] events[i] is Signalled)
}

/// No event of `events` is a message that the matcher's inbox refused.
pub open spec fn always_submitted(events: Seq<Event>) -> bool {
    forall|i: int| 0 <= i < events.len() ==> !(#[trigger] events[i] is SubmitFailed)
}

/// Final phases are final: no event leads out of one, and none makes the
/// request ask for anything more.
pub proof fn lemma_final_is_final(
    phase: Phase,
    event: Event,
    id: Seq<char>,
    deadline_secs: u64,
    action: Action,
)
    requires
        phase.is_final(),
        action_fits(phase, event, id, deadline_secs, action),
    ensures
        phase_after(phase, event) == phase,
        action is Ignore,
{
}

/// Every awaited event brings the request nearer to its end, and every
/// other event leaves it where it is. A request that is not over always
/// awaits something: the matcher's word on a message, or the race between
/// the signal and the deadline, which the deadline ends if nothing else
/// does.
pub proof fn lemma_request_progresses(phase: Phase, event: Event)
    ensures
        awaits(phase, event) ==> steps_left(phase_after(phase, event)) < steps_left(phase),
        !awaits(phase, event) ==> phase_after(phase, event) == phase,
        steps_left(phase) == 0 <==> phase.is_final(),
        phase is AwaitingMatch ==> awaits(phase, Event::DeadlineElapsed),
        phase is Created || phase is CheckingOut ==> awaits(phase, Event::Submitted),
{
}

/// One outcome for each request. A request hands out its outcome on the
/// very event that ends it, and on no other; the reply for it carries the
/// status of the final phase: success for a match, timeout for a deadline,
/// internal error for a message that could not be handed over.
pub proof fn lemma_one_outcome(
    phase: Phase,
    event: Event,
    id: Seq<char>,
    deadline_secs: u64,
    action: Action,
)
    requires
        action_fits(phase, event, id, deadline_secs, action),
    ensures
        action is Finish <==> !phase.is_final() && phase_after(phase, event).is_final(),
        action matches Action::Finish(outcome) ==> outcome_reply(outcome).status == status_of(
            phase_after(phase, event),
        ),
        action matches Action::Finish(outcome) ==> (outcome is Ok <==> phase_after(phase, event)
            is Matched),
        action matches Action::Finish(outcome) ==> (outcome == Err::<Reply, HandlerErr>(
            HandlerErr::Timeout,
        ) <==> phase_after(phase, event) is TimedOut),
{
}

/// No match means timeout. Take any life of a request, from its opening on,
/// in which the receiver never fires and the matcher's inbox takes every
/// message. Such a life cannot end in a match nor in a failure: once it is
/// over, the request has timed out.
pub proof fn lemma_no_match_means_timeout(events: Seq<Event>)
    requires
        never_signalled(events),
        always_submitted(events),
    ensures
        !(phase_after_all(Phase::Created, events) is Matched),
        !(phase_after_all(Phase::Created, events) is Failed),
        phase_after_all(Phase::Created, events).is_final() ==> phase_after_all(
            Phase::Created,
            events,
        ) is TimedOut,
    decreases events.len(),
{
    if events.len() > 0 {
        let before = events.drop_last();
        assert forall|i: int| 0 <= i < before.len() implies !(#[trigger] before[i] is Signalled)
            && !(before[i] is SubmitFailed) by {
            assert(before[i] == events[i]);
        }
        lemma_no_match_means_timeout(before);
        assert(events.last() == events[events.len() - 1]);
    }
}

/// A life can be cut in two: the second part goes on from the phase that
/// the first part ended in.
pub proof fn lemma_life_in_two(phase: Phase, first: Seq<Event>, second: Seq<Event>)
    ensures
        phase_after_all(phase, first + second) == phase_after_all(
            phase_after_all(phase, first),
            second,
        ),
    decreases second.len(),
{
    if second.len() == 0 {
        assert(first + second =~= first);
    } else {
        assert((first + second).drop_last() =~= first + second.drop_last());
        assert((first + second).last() == second.last());
        lemma_life_in_two(phase, first, second.drop_last());
    }
}

/// Once a request is over, nothing that reaches it later changes how it
/// ended.
pub proof fn lemma_over_stays_over(phase: Phase, later: Seq<Event>)
    requires
        phase.is_final(),
    ensures
        phase_after_all(phase, later) == phase,
    decreases later.len(),
{
    if later.len() > 0 {
        lemma_over_stays_over(phase, later.drop_last());
    }
}

/// A match means success. A request whose check-in was taken and whose
/// receiver then fired has ended in a match, whatever reaches it later; and
/// what it hands out on the signal is the success reply.
pub proof fn lemma_match_means_success(
    later: Seq<Event>,
    id: Seq<char>,
    deadline_secs: u64,
    action: Action,
)
    requires
        action_fits(Phase::AwaitingMatch, Event::Signalled, id, deadline_secs, action),
    ensures
        phase_after_all(Phase::Created, seq![Event::Submitted, Event::Signalled] + later)
            is Matched,
        action matches Action::Finish(Ok(reply)) && reply@ == ready_reply(),
        ready_reply().status == STATUS_OK,
{
    let life = seq![Event::Submitted, Event::Signalled];
    let one = seq![Event::Submitted];
    assert(life.drop_last() =~= one);
    assert(one.drop_last() =~= Seq::<Event>::empty());
    assert(phase_after_all(Phase::Created, one) == Phase::AwaitingMatch) by {
        reveal_with_fuel(phase_after_all, 2);
    }
    assert(phase_after_all(Phase::Created, life) == Phase::Matched);
    lemma_life_in_two(Phase::Created, life, later);
    lemma_over_stays_over(Phase::Matched, later);
}

/// A deadline means timeout, and no request waits for ever. A request
/// whose check-in was taken, whose deadline then elapsed and whose check-out
/// was taken has ended timed out, after three events, whatever reaches it
/// later; and what it hands out as the check-out is taken is the timeout,
/// which the caller sees as such.
pub proof fn lemma_deadline_means_timeout(
    later: Seq<Event>,
    id: Seq<char>,
    deadline_secs: u64,
    action: Action,
)
    requires
        action_fits(Phase::CheckingOut, Event::Submitted, id, deadline_secs, action),
    ensures
        phase_after_all(
            Phase::Created,
            seq![Event::Submitted, Event::DeadlineElapsed, Event::Submitted] + later,
        ) is TimedOut,
        action == Action::Finish(Err(HandlerErr::Timeout)),
        error_reply(HandlerErr::Timeout).status == STATUS_REQUEST_TIMEOUT,
{
    let life = seq![Event::Submitted, Event::DeadlineElapsed, Event::Submitted];
    let two = seq![Event::Submitted, Event::DeadlineElapsed];
    let one = seq![Event::Submitted];
    assert(life.drop_last() =~= two);
    assert(two.drop_last() =~= one);
    assert(one.drop_last() =~= Seq::<Event>::empty());
    assert(phase_after_all(Phase::Created, one) == Phase::AwaitingMatch) by {
        reveal_with_fuel(phase_after_all, 2);
    }
    assert(phase_after_all(Phase::Created, two) == Phase::CheckingOut);
    assert(phase_after_all(Phase::Created, life) == Phase::TimedOut);
    lemma_life_in_two(Phase::Created, life, later);
    lemma_over_stays_over(Phase::TimedOut, later);
}

/// A match comes only from a signal: a life that ends in a match holds the
/// event that the receiver fired.
pub proof fn lemma_match_needs_signal(events: Seq<Event>)
    requires
        phase_after_all(Phase::Created, events) is Matched,
    ensures
        !never_signalled(events),
{
    if never_signalled(events) {
        lemma_only_signal_matches(events);
    }
}

/// Without a signal no life reaches a match, whatever the matcher's inbox
/// does.
proof fn lemma_only_signal_matches(events: Seq<Event>)
    requires
        never_signalled(events),
    ensures
        !(phase_after_all(Phase::Created, events) is Matched),
    decreases events.len(),
{
    if events.len() > 0 {
        let before = events.drop_last();
        assert forall|i: int| 0 <= i < before.len() implies !(#[trigger] before[i] is Signalled) by {
            assert(before[i] == events[i]);
        }
        lemma_only_signal_matches(before);
        assert(events.last() == events[events.len() - 1]);
    }
}

} // verus!
