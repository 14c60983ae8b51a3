//! What holds of a whole negotiation, whatever the network does.
use crate::error::RtcPeerConnectionError;
use crate::message::{RtcIceCandidate, RtcNegotiationMessage, RtcSessionDescription};
use crate::negotiation::{
    fresh, no_candidate_pair, step, Negotiation, NegotiationAction, NegotiationEvent,
    NegotiationView, PhaseView, Received, Reply, Step,
};
use vstd::prelude::*;

verus! {

/// The state after some events; `None` once one of them has ended the attempt, or came
/// when another was waited for.
pub open spec fn run<D>(s: NegotiationView, events: Seq<NegotiationEvent<D>>) -> Option<
    NegotiationView,
>
    decreases events.len(),
{
    if events.len() == 0 {
        Some(s)
    } else {
        match run(s, events.drop_last()) {
            None => None,
            Some(before) => match step(before, events.last()) {
                Step::Act(after, _) => Some(after),
                Step::Describe(after, _) => Some(after),
                _ => None,
            },
        }
    }
}

/// The candidate that an event brings.
pub open spec fn brought<D>(e: NegotiationEvent<D>) -> Seq<RtcIceCandidate> {
    match e {
        NegotiationEvent::Received(Ok(Some(RtcNegotiationMessage::RemoteCandidate(c)))) => seq![c],
        _ => Seq::empty(),
    }
}

/// The candidates that the other peer has sent, in order.
pub open spec fn received<D>(events: Seq<NegotiationEvent<D>>) -> Seq<RtcIceCandidate>
    decreases events.len(),
{
    if events.len() == 0 {
        Seq::empty()
    } else {
        received(events.drop_last()) + brought(events.last())
    }
}

/// The candidate that a step adds.
pub open spec fn added<D>(s: Step<D>) -> Seq<RtcIceCandidate> {
    match s {
        Step::Act(_, NegotiationAction::AddRemoteCandidate(c)) => seq![c],
        _ => Seq::empty(),
    }
}

/// The candidates that have been handed on, in order.
pub open spec fn handed_on<D>(s: NegotiationView, events: Seq<NegotiationEvent<D>>) -> Seq<
    RtcIceCandidate,
>
    decreases events.len(),
{
    if events.len() == 0 {
        Seq::empty()
    } else {
        handed_on(s, events.drop_last()) + match run(s, events.drop_last()) {
            Some(before) => added(step(before, events.last())),
            None => Seq::empty(),
        }
    }
}

/// The candidates that a state still has to hand on.
pub open spec fn pending(s: NegotiationView) -> Seq<RtcIceCandidate> {
    match s.phase {
        PhaseView::Adding(queue, _) => queue + s.kept,
        PhaseView::Checking(RtcNegotiationMessage::RemoteCandidate(c)) => s.kept.push(c),
        _ => s.kept,
    }
}

/// How many times the other side's description was put in place.
pub open spec fn times_described<D>(events: Seq<NegotiationEvent<D>>) -> nat
    decreases events.len(),
{
    if events.len() == 0 {
        0
    } else {
        times_described(events.drop_last()) + (if events.last() matches NegotiationEvent::Described(
            Ok(_),
        ) {
            1nat
        } else {
            0nat
        })
    }
}

/// Whether the other side's description is in place, where `at_first` says whether it was
/// at the beginning.
pub open spec fn described<D>(at_first: bool, events: Seq<NegotiationEvent<D>>) -> bool {
    at_first || times_described(events) > 0
}

/// The driver tells the truth when it is asked whether the description is in place.
pub open spec fn truthful<D>(at_first: bool, events: Seq<NegotiationEvent<D>>) -> bool {
    forall|i: int|
        0 <= i < events.len() && (#[trigger] events[i]) is Checked ==> events[i]->Checked_0
            == described(at_first, events.take(i))
}

/// What every state of a truthful run keeps.
spec fn sound(s: NegotiationView, described: bool) -> bool {
    match s.phase {
        PhaseView::Preparing | PhaseView::Describing(_) => !described,
        PhaseView::Adding(_, _) | PhaseView::Answering | PhaseView::Committing(_) => described
            && s.kept.len() == 0,
        _ => described ==> s.kept.len() == 0,
    }
}

proof fn lemma_truthful_prefix<D>(at_first: bool, events: Seq<NegotiationEvent<D>>)
    requires
        events.len() > 0,
        truthful(at_first, events),
    ensures
        truthful(at_first, events.drop_last()),
        events.last() is Checked ==> events.last()->Checked_0 == described(
            at_first,
            events.drop_last(),
        ),
{
    let rest = events.drop_last();
    assert forall|i: int| 0 <= i < rest.len() && (#[trigger] rest[i]) is Checked implies rest[i]->Checked_0
        == described(at_first, rest.take(i)) by {
        assert(rest[i] == events[i]);
        assert(rest.take(i) =~= events.take(i));
    }
    assert(events.take(events.len() - 1) =~= rest);
    assert(events[events.len() - 1] == events.last());
}

proof fn lemma_sound<D>(at_first: bool, events: Seq<NegotiationEvent<D>>)
    requires
        truthful(at_first, events),
        run(fresh(), events) is Some,
    ensures
        sound(run(fresh(), events)->0, described(at_first, events)),
        times_described(events) <= if at_first {
            0nat
        } else {
            1nat
        },
    decreases events.len(),
{
    if events.len() > 0 {
        lemma_truthful_prefix(at_first, events);
        lemma_sound(at_first, events.drop_last());
    }
}

/// No candidate is lost, doubled or overtaken: what has been handed on, followed by what
/// is still to be handed on, is what the other peer has sent, in the order in which it
/// came.
pub proof fn law_candidates_keep_their_order<D>(
    at_first: bool,
    events: Seq<NegotiationEvent<D>>,
)
    requires
        truthful(at_first, events),
        run(fresh(), events) is Some,
    ensures
        handed_on(fresh(), events) + pending(run(fresh(), events)->0) == received(events),
    decreases events.len(),
{
    if events.len() > 0 {
        let rest = events.drop_last();
        lemma_truthful_prefix(at_first, events);
        law_candidates_keep_their_order(at_first, rest);
        lemma_sound(at_first, rest);
        let before = run(fresh(), rest)->0;
        let after = run(fresh(), events)->0;
        let s = step(before, events.last());
        lemma_step_keeps(before, events.last(), described(at_first, rest));
        assert(added(s) + pending(after) =~= pending(before) + brought(events.last()));
        assert(handed_on(fresh(), events) + pending(after) =~= handed_on(fresh(), rest) + (added(s)
            + pending(after)));
        assert(handed_on(fresh(), rest) + (pending(before) + brought(events.last())) =~= (handed_on(
            fresh(),
            rest,
        ) + pending(before)) + brought(events.last()));
    }
}

proof fn lemma_step_keeps<D>(before: NegotiationView, e: NegotiationEvent<D>, described: bool)
    requires
        sound(before, described),
        e is Checked ==> e->Checked_0 == described,
    ensures
        match step(before, e) {
            Step::Act(after, _) => added(step(before, e)) + pending(after) == pending(before)
                + brought(e),
            Step::Describe(after, _) => added(step(before, e)) + pending(after) == pending(before)
                + brought(e),
            _ => true,
        },
{
    match step(before, e) {
        Step::Act(after, _) => {
            assert(added(step(before, e)) + pending(after) =~= pending(before) + brought(e));
        },
        Step::Describe(after, _) => {
            assert(added(step(before, e)) + pending(after) =~= pending(before) + brought(e));
        },
        _ => {},
    }
}

/// The other side's description is put in place once at most, and not again where it was
/// in place before.
pub proof fn law_described_once<D>(at_first: bool, events: Seq<NegotiationEvent<D>>)
    requires
        truthful(at_first, events),
        run(fresh(), events) is Some,
    ensures
        times_described(events) <= 1,
        at_first ==> times_described(events) == 0,
{
    lemma_sound(at_first, events);
}

/// A candidate is handed on only when the other side's description is in place.
pub proof fn law_no_candidate_before_description<D>(
    at_first: bool,
    events: Seq<NegotiationEvent<D>>,
    e: NegotiationEvent<D>,
)
    requires
        truthful(at_first, events.push(e)),
        run(fresh(), events) is Some,
        added(step(run(fresh(), events)->0, e)).len() > 0,
    ensures
        described(at_first, events.push(e)),
{
    let all = events.push(e);
    assert(all.drop_last() =~= events);
    lemma_truthful_prefix(at_first, all);
    lemma_sound(at_first, events);
}

/// A description that comes when one is in place changes nothing.
pub proof fn law_second_description_is_ignored<D>(s: NegotiationView)
    requires
        s.phase matches PhaseView::Checking(RtcNegotiationMessage::RemoteSessionDescription(_)),
    ensures
        step(s, NegotiationEvent::<D>::Checked(true)) == Step::<D>::Act(
            NegotiationView { phase: PhaseView::Yielding, kept: s.kept },
            NegotiationAction::Yield,
        ),
{
}

/// The action is the one whose outcome the state waits for.
pub open spec fn awaits<D>(s: NegotiationView, a: NegotiationAction<D>) -> bool {
    match a {
        NegotiationAction::Poll => s.phase is Polling,
        NegotiationAction::SendMessage(_) => s.phase is Sending,
        NegotiationAction::ReceiveMessage => s.phase is Receiving,
        NegotiationAction::CheckRemoteDescription => s.phase is Checking,
        NegotiationAction::SetRemoteDescription(_) => s.phase is Describing,
        NegotiationAction::AddRemoteCandidate(_) => s.phase is Adding,
        NegotiationAction::CreateAnswer => s.phase is Answering,
        NegotiationAction::SetLocalDescription(_) => s.phase is Committing,
        NegotiationAction::Yield => s.phase is Yielding,
    }
}

/// The event reports what came of the action.
pub open spec fn reports<D>(e: NegotiationEvent<D>, a: NegotiationAction<D>) -> bool {
    match a {
        NegotiationAction::Poll => e is Relay || e is Idle,
        NegotiationAction::SendMessage(_) => e is Sent,
        NegotiationAction::ReceiveMessage => e is Received,
        NegotiationAction::CheckRemoteDescription => e is Checked,
        NegotiationAction::SetRemoteDescription(_) => e is Described,
        NegotiationAction::AddRemoteCandidate(_) => e is Added,
        NegotiationAction::CreateAnswer => e is AnswerCreated,
        NegotiationAction::SetLocalDescription(_) => e is LocallyDescribed,
        NegotiationAction::Yield => e is Resumed,
    }
}

/// A driver that performs each action and reports what came of it is never out of step:
/// every action is one whose outcome is then waited for, and any outcome of it is understood.
pub proof fn law_every_outcome_is_awaited<D>(
    s: NegotiationView,
    e: NegotiationEvent<D>,
    a: NegotiationAction<D>,
)
    ensures
        step(s, e) matches Step::Act(after, next) ==> awaits(after, next),
        awaits(s, a) && reports(e, a) ==> !(step(s, e) is Unexpected),
{
}

/// The error text that an event reports, if it reports one.
pub open spec fn refusal<D>(e: NegotiationEvent<D>) -> Option<String> {
    match e {
        NegotiationEvent::Described(Err(x)) => Some(x),
        NegotiationEvent::Added(Err(x)) => Some(x),
        NegotiationEvent::AnswerCreated(Err(x)) => Some(x),
        NegotiationEvent::LocallyDescribed(Err(x)) => Some(x),
        _ => None,
    }
}

/// An attempt fails exactly on what the message handler or the network stack refuses: with
/// the handler's own error, or with a negotiation error that holds the stack's text.
pub proof fn law_only_a_refusal_fails<D>(
    s: NegotiationView,
    e: NegotiationEvent<D>,
    a: NegotiationAction<D>,
)
    requires
        awaits(s, a),
        reports(e, a),
    ensures
        step(s, e) is Fail <==> refusal(e) is Some || (e matches NegotiationEvent::Sent(x) && x
            is Err) || (e matches NegotiationEvent::Received(x) && x is Err),
        refusal(e) matches Some(x) ==> step(s, e) == Step::<D>::Fail(
            RtcPeerConnectionError::Negotiation(x),
        ),
        e matches NegotiationEvent::Sent(Err(x)) ==> step(s, e) == Step::<D>::Fail(x),
        e matches NegotiationEvent::Received(Err(x)) ==> step(s, e) == Step::<D>::Fail(x),
{
}

/// How many times an offer of the other side was taken up.
pub open spec fn times_offered<D>(events: Seq<NegotiationEvent<D>>) -> nat
    decreases events.len(),
{
    if events.len() == 0 {
        0
    } else {
        times_offered(events.drop_last()) + (if events.last() matches NegotiationEvent::Prepared(
            _,
            Reply::Answer,
        ) {
            1nat
        } else {
            0nat
        })
    }
}

/// How many times an answer was asked for.
pub open spec fn times_answered<D>(s: NegotiationView, events: Seq<NegotiationEvent<D>>) -> nat
    decreases events.len(),
{
    if events.len() == 0 {
        0
    } else {
        times_answered(s, events.drop_last()) + match run(s, events.drop_last()) {
            Some(before) => if step(before, events.last()) matches Step::Act(
                _,
                NegotiationAction::CreateAnswer,
            ) {
                1nat
            } else {
                0nat
            },
            None => 0nat,
        }
    }
}

/// How many answers a state still owes.
pub open spec fn owed(s: NegotiationView) -> nat {
    match s.phase {
        PhaseView::Describing(Reply::Answer) => 1,
        PhaseView::Adding(_, Reply::Answer) => 1,
        _ => 0,
    }
}

proof fn lemma_answers<D>(events: Seq<NegotiationEvent<D>>)
    requires
        run(fresh(), events) is Some,
    ensures
        times_answered(fresh(), events) + owed(run(fresh(), events)->0) == times_offered(events),
        times_offered(events) <= times_described(events) + (if run(fresh(), events)->0.phase is Describing {
            1nat
        } else {
            0nat
        }),
    decreases events.len(),
{
    if events.len() > 0 {
        lemma_answers(events.drop_last());
    }
}

/// Every offer that is taken up is answered exactly once, after the candidates that were
/// kept for it; and no more than one is taken up.
pub proof fn law_offer_is_answered_once<D>(at_first: bool, events: Seq<NegotiationEvent<D>>)
    requires
        truthful(at_first, events),
        run(fresh(), events) is Some,
    ensures
        times_answered(fresh(), events) + owed(run(fresh(), events)->0) == times_offered(events),
        times_offered(events) <= 1,
{
    lemma_answers(events);
    lemma_sound(at_first, events);
}

/// The answer that was made is put in place, and is then what the other peer is sent.
pub proof fn law_answer_is_sent<D>(s: NegotiationView, answer: RtcSessionDescription)
    requires
        s.phase is Answering,
    ensures
        step(s, NegotiationEvent::<D>::AnswerCreated(Ok(answer))) matches Step::Act(committing, a)
            && {
            &&& a == NegotiationAction::<D>::SetLocalDescription(answer)
            &&& committing.kept == s.kept
            &&& step(committing, NegotiationEvent::<D>::LocallyDescribed(Ok(()))) matches Step::Act(
                after,
                b,
            ) && b == NegotiationAction::<D>::SendMessage(
                RtcNegotiationMessage::RemoteSessionDescription(answer),
            ) && after.phase is Sending && after.kept == s.kept
        },
{
}

/// Every message that a notification asks to be sent is sent next, as it is, and the
/// candidates that are kept stay kept.
pub proof fn law_notification_is_sent<D>(s: NegotiationView, m: RtcNegotiationMessage)
    requires
        s.phase is Polling,
    ensures
        step(s, NegotiationEvent::<D>::Relay(m)) matches Step::Act(after, a) && {
            &&& a == NegotiationAction::<D>::SendMessage(m)
            &&& after.phase is Sending
            &&& after.kept == s.kept
        },
{
}

/// The message that a step sends.
pub open spec fn sends<D>(s: Step<D>) -> Seq<RtcNegotiationMessage> {
    match s {
        Step::Act(_, NegotiationAction::SendMessage(m)) => seq![m],
        _ => Seq::empty(),
    }
}

/// The messages that were sent, in order.
pub open spec fn spoken<D>(s: NegotiationView, events: Seq<NegotiationEvent<D>>) -> Seq<
    RtcNegotiationMessage,
>
    decreases events.len(),
{
    if events.len() == 0 {
        Seq::empty()
    } else {
        spoken(s, events.drop_last()) + match run(s, events.drop_last()) {
            Some(before) => sends(step(before, events.last())),
            None => Seq::empty(),
        }
    }
}

/// The message that an event gives to be sent: what a notification asks for, or an answer.
pub open spec fn given<D>(e: NegotiationEvent<D>) -> Seq<RtcNegotiationMessage> {
    match e {
        NegotiationEvent::Relay(m) => seq![m],
        NegotiationEvent::AnswerCreated(Ok(d)) => seq![
            RtcNegotiationMessage::RemoteSessionDescription(d),
        ],
        _ => Seq::empty(),
    }
}

/// The messages that were given to be sent, in order.
pub open spec fn to_be_sent<D>(events: Seq<NegotiationEvent<D>>) -> Seq<RtcNegotiationMessage>
    decreases events.len(),
{
    if events.len() == 0 {
        Seq::empty()
    } else {
        to_be_sent(events.drop_last()) + given(events.last())
    }
}

/// The answer that is yet to be sent, because it is being put in place.
pub open spec fn unsent(s: NegotiationView) -> Seq<RtcNegotiationMessage> {
    match s.phase {
        PhaseView::Committing(d) => seq![RtcNegotiationMessage::RemoteSessionDescription(d)],
        _ => Seq::empty(),
    }
}

/// Over a whole run, the other peer is sent exactly the messages that notifications asked for
/// and the answers that were made, each once, as they are, and in the order in which they
/// came; only an answer that is being put in place is still to be sent.
pub proof fn law_everything_is_sent_once<D>(events: Seq<NegotiationEvent<D>>)
    requires
        run(fresh(), events) is Some,
    ensures
        spoken(fresh(), events) + unsent(run(fresh(), events)->0) == to_be_sent(events),
    decreases events.len(),
{
    if events.len() > 0 {
        let rest = events.drop_last();
        law_everything_is_sent_once(rest);
        let before = run(fresh(), rest)->0;
        let after = run(fresh(), events)->0;
        let s = sends(step(before, events.last()));
        assert(s + unsent(after) =~= unsent(before) + given(events.last()));
        assert(spoken(fresh(), events) + unsent(after) =~= spoken(fresh(), rest) + (s + unsent(
            after,
        )));
        assert(spoken(fresh(), rest) + (unsent(before) + given(events.last())) =~= (spoken(
            fresh(),
            rest,
        ) + unsent(before)) + given(events.last()));
    } else {
        assert(spoken(fresh(), events) + unsent(fresh()) =~= to_be_sent(events));
    }
}

/// Where there is no notification, the other peer is listened to; what it says is decided
/// about as it was said, and its silence changes nothing.
pub proof fn law_other_peer_is_heard<D>(s: NegotiationView, m: RtcNegotiationMessage)
    ensures
        s.phase is Polling ==> (step(s, NegotiationEvent::<D>::Idle) matches Step::Act(after, a)
            && a == NegotiationAction::<D>::ReceiveMessage && after.phase is Receiving && after.kept
            == s.kept),
        s.phase is Receiving ==> (step(
            s,
            NegotiationEvent::<D>::Received(Ok(Some(m))),
        ) matches Step::Act(after, a) && a == NegotiationAction::<D>::CheckRemoteDescription
            && after.phase == PhaseView::Checking(m) && after.kept == s.kept),
        s.phase is Receiving ==> (step(
            s,
            NegotiationEvent::<D>::Received(Ok(None)),
        ) matches Step::Act(after, a) && a == NegotiationAction::<D>::Yield && after.phase
            is Yielding && after.kept == s.kept),
{
}

/// A candidate that comes when the description is in place is added at once; one that comes
/// earlier is kept behind those that are kept already.
pub proof fn law_candidate_is_added_or_kept<D>(s: NegotiationView, c: RtcIceCandidate)
    requires
        s.phase == PhaseView::Checking(RtcNegotiationMessage::RemoteCandidate(c)),
    ensures
        step(s, NegotiationEvent::<D>::Checked(true)) matches Step::Act(after, a) && {
            &&& a == NegotiationAction::<D>::AddRemoteCandidate(c)
            &&& after.phase matches PhaseView::Adding(queue, reply) && queue.len() == 0 && reply
                is Nothing
            &&& after.kept == s.kept
        },
        step(s, NegotiationEvent::<D>::Checked(false)) matches Step::Act(after, a) && {
            &&& a == NegotiationAction::<D>::Yield
            &&& after.phase is Yielding
            &&& after.kept == s.kept.push(c)
        },
{
}

/// The first description is taken up as it came, is put in place as it was prepared, and is
/// followed by the kept candidates, the oldest first, and then by the answer if one is owed.
pub proof fn law_first_description_is_taken_up<D>(
    s: NegotiationView,
    d: RtcSessionDescription,
    prepared: D,
    reply: Reply,
)
    requires
        s.phase == PhaseView::Checking(RtcNegotiationMessage::RemoteSessionDescription(d)),
    ensures
        step(s, NegotiationEvent::<D>::Checked(false)) matches Step::Describe(preparing, taken)
            && {
            &&& taken == d
            &&& preparing.kept == s.kept
            &&& step(preparing, NegotiationEvent::Prepared(prepared, reply)) matches Step::Act(
                describing,
                a,
            ) && {
                &&& a == NegotiationAction::SetRemoteDescription(prepared)
                &&& describing.kept == s.kept
                &&& step(describing, NegotiationEvent::<D>::Described(Ok(()))) matches Step::Act(
                    after,
                    b,
                ) && {
                    &&& after.kept.len() == 0
                    &&& s.kept.len() > 0 ==> b == NegotiationAction::<D>::AddRemoteCandidate(
                        s.kept[0],
                    ) && after.phase == PhaseView::Adding(s.kept.drop_first(), reply)
                    &&& s.kept.len() == 0 && reply is Answer ==> b == NegotiationAction::<
                        D,
                    >::CreateAnswer
                    &&& s.kept.len() == 0 && reply is Nothing ==> b == NegotiationAction::<D>::Yield
                }
            }
        },
{
}

/// One candidate after the other is added, and after the last the answer is made if one is
/// owed.
pub proof fn law_candidates_are_added_one_by_one<D>(
    s: NegotiationView,
    queue: Seq<RtcIceCandidate>,
    reply: Reply,
)
    requires
        s.phase == PhaseView::Adding(queue, reply),
    ensures
        step(s, NegotiationEvent::<D>::Added(Ok(()))) matches Step::Act(after, a) && {
            &&& after.kept == s.kept
            &&& queue.len() > 0 ==> a == NegotiationAction::<D>::AddRemoteCandidate(queue[0])
                && after.phase == PhaseView::Adding(queue.drop_first(), reply)
            &&& queue.len() == 0 && reply is Answer ==> a == NegotiationAction::<D>::CreateAnswer
            &&& queue.len() == 0 && reply is Nothing ==> a == NegotiationAction::<D>::Yield
        },
{
}

/// Whatever was sent, other work gets its turn, and then the next notification is looked for,
/// with the same candidates kept.
pub proof fn law_others_get_their_turn<D>(s: NegotiationView)
    ensures
        s.phase is Sending ==> (step(s, NegotiationEvent::<D>::Sent(Ok(()))) matches Step::Act(
            after,
            a,
        ) && a == NegotiationAction::<D>::Yield && after.phase is Yielding && after.kept == s.kept),
        s.phase is Yielding ==> (step(s, NegotiationEvent::<D>::Resumed) matches Step::Act(after, a)
            && a == NegotiationAction::<D>::Poll && after.phase is Polling && after.kept == s.kept),
        fresh().phase is Polling,
        fresh().kept.len() == 0,
{
}

/// A message that a notification asks for goes to the driver as it is, and where there is no
/// notification the driver is to listen to the other peer.
pub proof fn law_driver_gets_the_message<D>(
    relaying: &mut Negotiation,
    m: RtcNegotiationMessage,
    a: NegotiationAction<D>,
    listening: &mut Negotiation,
    b: NegotiationAction<D>,
)
    requires
        old(relaying)@.phase is Polling,
        call_ensures(Negotiation::relay::<D>, (relaying, m), a),
        old(listening)@.phase is Polling,
        call_ensures(Negotiation::idle::<D>, (listening,), b),
    ensures
        a == NegotiationAction::<D>::SendMessage(m),
        final(relaying)@.phase is Sending,
        final(relaying)@.kept == old(relaying)@.kept,
        b is ReceiveMessage,
        final(listening)@.phase is Receiving,
        final(listening)@.kept == old(listening)@.kept,
{
}

/// A candidate that comes before the description is kept and is the last to be added once the
/// description is in place, behind the candidates that were kept before it.
pub proof fn law_early_candidate_is_added_later<D>(
    early: &mut Negotiation,
    c: RtcIceCandidate,
    a: Received<D>,
    described: &mut Negotiation,
    b: Result<NegotiationAction<D>, RtcPeerConnectionError>,
)
    requires
        old(early)@.phase == PhaseView::Checking(RtcNegotiationMessage::RemoteCandidate(c)),
        call_ensures(Negotiation::receive_negotiation_message::<D>, (early, false), a),
        old(described)@.phase is Describing,
        old(described)@.kept == final(early)@.kept,
        call_ensures(Negotiation::remote_description_set::<D>, (described, Ok(())), b),
    ensures
        a matches Received::Act(x) && x is Yield,
        b matches Ok(NegotiationAction::AddRemoteCandidate(x)) && x == old(early)@.kept.push(c)[0],
        final(described)@.phase matches PhaseView::Adding(queue, reply) && {
            &&& queue == old(early)@.kept.push(c).drop_first()
            &&& reply == old(described)@.phase->Describing_0
        },
        final(described)@.kept.len() == 0,
{
}

/// A description that comes first is handed out as it came, and goes into place as it was
/// prepared; with nothing kept, the answer follows if one is owed, and otherwise the turn of
/// others.
pub proof fn law_description_goes_into_place<D>(
    taking: &mut Negotiation,
    d: RtcSessionDescription,
    a: Received<D>,
    preparing: &mut Negotiation,
    prepared: D,
    reply: Reply,
    b: NegotiationAction<D>,
    setting: &mut Negotiation,
    c: Result<NegotiationAction<D>, RtcPeerConnectionError>,
)
    requires
        old(taking)@.phase == PhaseView::Checking(
            RtcNegotiationMessage::RemoteSessionDescription(d),
        ),
        old(taking)@.kept.len() == 0,
        call_ensures(Negotiation::receive_negotiation_message::<D>, (taking, false), a),
        *old(preparing) == *final(taking),
        call_ensures(Negotiation::describe::<D>, (preparing, prepared, reply), b),
        *old(setting) == *final(preparing),
        call_ensures(Negotiation::remote_description_set::<D>, (setting, Ok(())), c),
    ensures
        a matches Received::Describe(x) && x == d,
        b == NegotiationAction::SetRemoteDescription(prepared),
        reply is Answer ==> (c matches Ok(NegotiationAction::CreateAnswer)),
        reply is Nothing ==> (c matches Ok(NegotiationAction::Yield)),
        final(setting)@.kept.len() == 0,
{
}

/// The candidates that are to be added are handed out one by one, in their order.
pub proof fn law_candidates_are_handed_out_in_order<D>(
    adding: &mut Negotiation,
    a: Result<NegotiationAction<D>, RtcPeerConnectionError>,
)
    requires
        old(adding)@.phase is Adding,
        call_ensures(Negotiation::candidate_added::<D>, (adding, Ok(())), a),
    ensures
        old(adding)@.phase matches PhaseView::Adding(queue, reply) && {
            &&& queue.len() > 0 ==> {
                &&& a == Ok::<_, RtcPeerConnectionError>(
                    NegotiationAction::<D>::AddRemoteCandidate(queue[0]),
                )
                &&& final(adding)@.phase == PhaseView::Adding(queue.drop_first(), reply)
            }
            &&& queue.len() == 0 && reply is Answer ==> (a matches Ok(
                NegotiationAction::CreateAnswer,
            ))
            &&& queue.len() == 0 && reply is Nothing ==> (a matches Ok(NegotiationAction::Yield))
        },
        final(adding)@.kept == old(adding)@.kept,
{
}

/// The answer is put in place and is sent as it was made; then it is the turn of others, and
/// then the next notification is looked for.
pub proof fn law_answer_goes_out<D>(
    made: &mut Negotiation,
    d: RtcSessionDescription,
    a: Result<NegotiationAction<D>, RtcPeerConnectionError>,
    set: &mut Negotiation,
    b: Result<NegotiationAction<D>, RtcPeerConnectionError>,
    sent: &mut Negotiation,
    c: Result<NegotiationAction<D>, RtcPeerConnectionError>,
    resumed: &mut Negotiation,
    e: NegotiationAction<D>,
)
    requires
        old(made)@.phase is Answering,
        call_ensures(Negotiation::answer_created::<D>, (made, Ok(d)), a),
        *old(set) == *final(made),
        call_ensures(Negotiation::local_description_set::<D>, (set, Ok(())), b),
        *old(sent) == *final(set),
        call_ensures(Negotiation::message_sent::<D>, (sent, Ok(())), c),
        *old(resumed) == *final(sent),
        call_ensures(Negotiation::resume::<D>, (resumed,), e),
    ensures
        a == Ok::<_, RtcPeerConnectionError>(NegotiationAction::<D>::SetLocalDescription(d)),
        b == Ok::<_, RtcPeerConnectionError>(
            NegotiationAction::<D>::SendMessage(RtcNegotiationMessage::RemoteSessionDescription(d)),
        ),
        c matches Ok(NegotiationAction::Yield),
        e is Poll,
        final(resumed)@.phase is Polling,
        final(resumed)@.kept == old(made)@.kept,
{
}

/// Whatever is refused ends the attempt: with the stack's text, or with the handler's own
/// error; and the negotiation stays as it was.
pub proof fn law_refusal_ends_the_attempt<D>(
    set: &mut Negotiation,
    x: String,
    a: Result<NegotiationAction<D>, RtcPeerConnectionError>,
    added: &mut Negotiation,
    b: Result<NegotiationAction<D>, RtcPeerConnectionError>,
    sent: &mut Negotiation,
    e: RtcPeerConnectionError,
    c: Result<NegotiationAction<D>, RtcPeerConnectionError>,
    received: &mut Negotiation,
    d: Result<NegotiationAction<D>, RtcPeerConnectionError>,
)
    requires
        old(set)@.phase is Describing,
        call_ensures(Negotiation::remote_description_set::<D>, (set, Err(x)), a),
        old(added)@.phase is Adding,
        call_ensures(Negotiation::candidate_added::<D>, (added, Err(x)), b),
        old(sent)@.phase is Sending,
        call_ensures(Negotiation::message_sent::<D>, (sent, Err(e)), c),
        old(received)@.phase is Receiving,
        call_ensures(Negotiation::message_received::<D>, (received, Err(e)), d),
    ensures
        a == Err::<NegotiationAction<D>, _>(RtcPeerConnectionError::Negotiation(x)),
        final(set)@ == old(set)@,
        b == Err::<NegotiationAction<D>, _>(RtcPeerConnectionError::Negotiation(x)),
        final(added)@ == old(added)@,
        c == Err::<NegotiationAction<D>, _>(e),
        final(sent)@ == old(sent)@,
        d == Err::<NegotiationAction<D>, _>(e),
        final(received)@ == old(received)@,
{
}

/// An answer that could not be made, or not put in place, ends the attempt with the stack's
/// text.
pub proof fn law_refused_answer_ends_the_attempt<D>(
    made: &mut Negotiation,
    x: String,
    a: Result<NegotiationAction<D>, RtcPeerConnectionError>,
    set: &mut Negotiation,
    b: Result<NegotiationAction<D>, RtcPeerConnectionError>,
)
    requires
        old(made)@.phase is Answering,
        call_ensures(Negotiation::answer_created::<D>, (made, Err(x)), a),
        old(set)@.phase is Committing,
        call_ensures(Negotiation::local_description_set::<D>, (set, Err(x)), b),
    ensures
        a == Err::<NegotiationAction<D>, _>(RtcPeerConnectionError::Negotiation(x)),
        final(made)@ == old(made)@,
        b == Err::<NegotiationAction<D>, _>(RtcPeerConnectionError::Negotiation(x)),
        final(set)@ == old(set)@,
{
}

/// A connection that found no way to the other peer says so.
pub proof fn law_failure_tells_its_reason(e: RtcPeerConnectionError, text: String)
    requires
        call_ensures(no_candidate_pair, (), e),
        call_ensures(RtcPeerConnectionError::to_text, (&e,), text),
    ensures
        text@ == "ICE negotiation failed: "@
            + "ICE protocol could not find a valid candidate pair."@,
{
}

} // verus!
