//! The loop in which one peer negotiates with the other.
//!
//! A [`Negotiation`] decides; its driver acts. The driver performs the action it was
//! given, reports what came of it by the method that belongs to the action, and gets the
//! next action, until a channel is open or an error ends the attempt.
//!
//! Candidates that arrive before the other side's description are kept, and are added,
//! in the order of their arrival, as soon as the description is in place.
use crate::error::{PeerErrorView, RtcPeerConnectionError};
use crate::message::{RtcIceCandidate, RtcNegotiationMessage, RtcSessionDescription};
use vstd::prelude::*;

verus! {

/// What the network stack's callbacks report to the negotiation.
pub enum RtcNegotiationNotification<C> {
    /// The other peer is to be told this.
    SendMessage(RtcNegotiationMessage),
    /// A channel is open.
    DataChannelOpened(C),
    /// The connection cannot be made.
    Failed(RtcPeerConnectionError),
}

/// The text of the error for a connection that found no way to the other peer.
pub open spec fn no_candidate_pair_text() -> Seq<char> {
    "ICE protocol could not find a valid candidate pair."@
}

/// The error for a connection that found no way to the other peer.
pub fn no_candidate_pair() -> (e: RtcPeerConnectionError)
    ensures
        e@ == PeerErrorView::IceNegotiationFailure(no_candidate_pair_text()),
{
    RtcPeerConnectionError::IceNegotiationFailure(
        "ICE protocol could not find a valid candidate pair.".to_string(),
    )
}

/// What is still owed once the other side's description and candidates are in place.
#[derive(Copy, Clone, PartialEq, Eq, Structural, Debug)]
pub enum Reply {
    Nothing,
    Answer,
}

/// What the driver is to do. `D` is a description of the other side in the form in which
/// the network stack takes it.
pub enum NegotiationAction<D> {
    /// See whether there is a notification.
    Poll,
    /// Send this to the other peer.
    SendMessage(RtcNegotiationMessage),
    /// See whether the other peer has sent something.
    ReceiveMessage,
    /// See whether the other side's description is in place.
    CheckRemoteDescription,
    /// Put the other side's description in place.
    SetRemoteDescription(D),
    /// Add a candidate of the other side.
    AddRemoteCandidate(RtcIceCandidate),
    /// Make an answer to the other side's offer.
    CreateAnswer,
    /// Put this side's own description in place.
    SetLocalDescription(RtcSessionDescription),
    /// Let other work run.
    Yield,
}

/// What follows from a message of the other peer.
pub enum Received<D> {
    /// An action.
    Act(NegotiationAction<D>),
    /// The other side's description, which is yet to be brought into the form `D`.
    Describe(RtcSessionDescription),
}

/// What the negotiation is waiting for.
enum Phase {
    /// The next notification.
    Polling,
    /// The sending of a message.
    Sending,
    /// A message of the other peer.
    Receiving,
    /// Whether there is a description, to decide about this message.
    Checking(RtcNegotiationMessage),
    /// The description in the form `D`.
    Preparing,
    /// The description being put in place.
    Describing(Reply),
    /// The adding of a candidate; these come after it.
    Adding(Vec<RtcIceCandidate>, Reply),
    /// The making of an answer.
    Answering,
    /// This answer being put in place.
    Committing(RtcSessionDescription),
    /// Its turn.
    Yielding,
}

/// What the negotiation is waiting for; see the description of each action.
#[verifier::ext_equal]
pub enum PhaseView {
    Polling,
    Sending,
    Receiving,
    Checking(RtcNegotiationMessage),
    Preparing,
    Describing(Reply),
    Adding(Seq<RtcIceCandidate>, Reply),
    Answering,
    Committing(RtcSessionDescription),
    Yielding,
}

/// The state of a negotiation: what it waits for, and the candidates it keeps.
#[verifier::ext_equal]
pub struct NegotiationView {
    pub phase: PhaseView,
    pub kept: Seq<RtcIceCandidate>,
}

/// What the driver reports.
pub enum NegotiationEvent<D> {
    Relay(RtcNegotiationMessage),
    Idle,
    Sent(Result<(), RtcPeerConnectionError>),
    Received(Result<Option<RtcNegotiationMessage>, RtcPeerConnectionError>),
    Checked(bool),
    Prepared(D, Reply),
    Described(Result<(), String>),
    Added(Result<(), String>),
    AnswerCreated(Result<RtcSessionDescription, String>),
    LocallyDescribed(Result<(), String>),
    Resumed,
}

/// What comes of an event.
#[verifier::ext_equal]
pub enum Step<D> {
    /// The next state and the next action.
    Act(NegotiationView, NegotiationAction<D>),
    /// The next state, in which this description is to be prepared.
    Describe(NegotiationView, RtcSessionDescription),
    /// The end of the attempt.
    Fail(RtcPeerConnectionError),
    /// The event is not one that the state waits for.
    Unexpected,
}

/// A state that keeps `kept` and waits for its turn.
pub open spec fn yielding<D>(kept: Seq<RtcIceCandidate>) -> Step<D> {
    Step::Act(NegotiationView { phase: PhaseView::Yielding, kept }, NegotiationAction::Yield)
}

/// Adds the first of `queue`, or goes on to the reply when none is left.
pub open spec fn adding<D>(
    queue: Seq<RtcIceCandidate>,
    reply: Reply,
    kept: Seq<RtcIceCandidate>,
) -> Step<D> {
    if queue.len() > 0 {
        Step::Act(
            NegotiationView { phase: PhaseView::Adding(queue.drop_first(), reply), kept },
            NegotiationAction::AddRemoteCandidate(queue[0]),
        )
    } else {
        match reply {
            Reply::Nothing => yielding(kept),
            Reply::Answer => Step::Act(
                NegotiationView { phase: PhaseView::Answering, kept },
                NegotiationAction::CreateAnswer,
            ),
        }
    }
}

/// What comes of an event in a state.
pub open spec fn step<D>(s: NegotiationView, e: NegotiationEvent<D>) -> Step<D> {
    match (s.phase, e) {
        (PhaseView::Polling, NegotiationEvent::Relay(m)) => Step::Act(
            NegotiationView { phase: PhaseView::Sending, ..s },
            NegotiationAction::SendMessage(m),
        ),
        (PhaseView::Polling, NegotiationEvent::Idle) => Step::Act(
            NegotiationView { phase: PhaseView::Receiving, ..s },
            NegotiationAction::ReceiveMessage,
        ),
        (PhaseView::Sending, NegotiationEvent::Sent(Ok(_))) => yielding(s.kept),
        (PhaseView::Sending, NegotiationEvent::Sent(Err(x))) => Step::Fail(x),
        (PhaseView::Receiving, NegotiationEvent::Received(Ok(Some(m)))) => Step::Act(
            NegotiationView { phase: PhaseView::Checking(m), ..s },
            NegotiationAction::CheckRemoteDescription,
        ),
        (PhaseView::Receiving, NegotiationEvent::Received(Ok(None))) => yielding(s.kept),
        (PhaseView::Receiving, NegotiationEvent::Received(Err(x))) => Step::Fail(x),
        (
            PhaseView::Checking(RtcNegotiationMessage::RemoteCandidate(c)),
            NegotiationEvent::Checked(described),
        ) => if described {
            adding(seq![c], Reply::Nothing, s.kept)
        } else {
            yielding(s.kept.push(c))
        },
        (
            PhaseView::Checking(RtcNegotiationMessage::RemoteSessionDescription(d)),
            NegotiationEvent::Checked(described),
        ) => if described {
            yielding(s.kept)
        } else {
            Step::Describe(NegotiationView { phase: PhaseView::Preparing, ..s }, d)
        },
        (PhaseView::Preparing, NegotiationEvent::Prepared(d, reply)) => Step::Act(
            NegotiationView { phase: PhaseView::Describing(reply), ..s },
            NegotiationAction::SetRemoteDescription(d),
        ),
        (PhaseView::Describing(reply), NegotiationEvent::Described(Ok(_))) => adding(
            s.kept,
            reply,
            Seq::empty(),
        ),
        (PhaseView::Describing(_), NegotiationEvent::Described(Err(x))) => Step::Fail(
            RtcPeerConnectionError::Negotiation(x),
        ),
        (PhaseView::Adding(queue, reply), NegotiationEvent::Added(Ok(_))) => adding(
            queue,
            reply,
            s.kept,
        ),
        (PhaseView::Adding(_, _), NegotiationEvent::Added(Err(x))) => Step::Fail(
            RtcPeerConnectionError::Negotiation(x),
        ),
        (PhaseView::Answering, NegotiationEvent::AnswerCreated(Ok(d))) => Step::Act(
            NegotiationView { phase: PhaseView::Committing(d), ..s },
            NegotiationAction::SetLocalDescription(d),
        ),
        (PhaseView::Answering, NegotiationEvent::AnswerCreated(Err(x))) => Step::Fail(
            RtcPeerConnectionError::Negotiation(x),
        ),
        (PhaseView::Committing(d), NegotiationEvent::LocallyDescribed(Ok(_))) => Step::Act(
            NegotiationView { phase: PhaseView::Sending, ..s },
            NegotiationAction::SendMessage(RtcNegotiationMessage::RemoteSessionDescription(d)),
        ),
        (PhaseView::Committing(_), NegotiationEvent::LocallyDescribed(Err(x))) => Step::Fail(
            RtcPeerConnectionError::Negotiation(x),
        ),
        (PhaseView::Yielding, NegotiationEvent::Resumed) => Step::Act(
            NegotiationView { phase: PhaseView::Polling, ..s },
            NegotiationAction::Poll,
        ),
        _ => Step::Unexpected,
    }
}

/// A method's result and the state after it are what `step` says of an event; a failure
/// leaves the state as it was.
pub open spec fn follows<D>(
    before: NegotiationView,
    event: NegotiationEvent<D>,
    after: NegotiationView,
    r: Result<NegotiationAction<D>, RtcPeerConnectionError>,
) -> bool {
    match r {
        Ok(a) => step(before, event) == Step::Act(after, a),
        Err(x) => step(before, event) == Step::<D>::Fail(x) && after == before,
    }
}

/// One peer's side of a negotiation.
pub struct Negotiation {
    phase: Phase,
    candidate_buffer: Vec<RtcIceCandidate>,
}

impl View for Negotiation {
    type V = NegotiationView;

    closed spec fn view(&self) -> NegotiationView {
        NegotiationView {
            phase: match self.phase {
                Phase::Polling => PhaseView::Polling,
                Phase::Sending => PhaseView::Sending,
                Phase::Receiving => PhaseView::Receiving,
                Phase::Checking(m) => PhaseView::Checking(m),
                Phase::Preparing => PhaseView::Preparing,
                Phase::Describing(reply) => PhaseView::Describing(reply),
                Phase::Adding(queue, reply) => PhaseView::Adding(queue@, reply),
                Phase::Answering => PhaseView::Answering,
                Phase::Committing(d) => PhaseView::Committing(d),
                Phase::Yielding => PhaseView::Yielding,
            },
            kept: self.candidate_buffer@,
        }
    }
}

/// A negotiation that has not begun.
pub open spec fn fresh() -> NegotiationView {
    NegotiationView { phase: PhaseView::Polling, kept: Seq::empty() }
}

impl Negotiation {
    pub fn new() -> (r: Negotiation)
        ensures
            r@ == fresh(),
    {
        Negotiation { phase: Phase::Polling, candidate_buffer: Vec::new() }
    }

    /// A notification asks for a message to be sent.
    pub fn relay<D>(&mut self, message: RtcNegotiationMessage) -> (r: NegotiationAction<D>)
        requires
            old(self)@.phase is Polling,
        ensures
            step(old(self)@, NegotiationEvent::<D>::Relay(message)) == Step::Act(final(self)@, r),
    {
        self.phase = Phase::Sending;
        NegotiationAction::SendMessage(message)
    }

    /// There is no notification.
    pub fn idle<D>(&mut self) -> (r: NegotiationAction<D>)
        requires
            old(self)@.phase is Polling,
        ensures
            step(old(self)@, NegotiationEvent::<D>::Idle) == Step::Act(final(self)@, r),
    {
        self.phase = Phase::Receiving;
        NegotiationAction::ReceiveMessage
    }

    /// The message has been sent, or could not be.
    pub fn message_sent<D>(&mut self, outcome: Result<(), RtcPeerConnectionError>) -> (r: Result<
        NegotiationAction<D>,
        RtcPeerConnectionError,
    >)
        requires
            old(self)@.phase is Sending,
        ensures
            follows(old(self)@, NegotiationEvent::Sent(outcome), final(self)@, r),
    {
        match outcome {
            Ok(()) => Ok(self.give_way()),
            Err(x) => Err(x),
        }
    }

    /// The other peer has sent a message, or nothing, or cannot be heard.
    pub fn message_received<D>(
        &mut self,
        outcome: Result<Option<RtcNegotiationMessage>, RtcPeerConnectionError>,
    ) -> (r: Result<NegotiationAction<D>, RtcPeerConnectionError>)
        requires
            old(self)@.phase is Receiving,
        ensures
            follows(old(self)@, NegotiationEvent::Received(outcome), final(self)@, r),
    {
        match outcome {
            Ok(Some(m)) => {
                self.phase = Phase::Checking(m);
                Ok(NegotiationAction::CheckRemoteDescription)
            },
            Ok(None) => Ok(self.give_way()),
            Err(x) => Err(x),
        }
    }

    /// Decides about the message that has come, by whether the other side's description
    /// is in place already.
    pub fn receive_negotiation_message<D>(&mut self, has_remote_description: bool) -> (r: Received<
        D,
    >)
        requires
            old(self)@.phase is Checking,
        ensures
            match r {
                Received::Act(a) => step(
                    old(self)@,
                    NegotiationEvent::<D>::Checked(has_remote_description),
                ) == Step::Act(final(self)@, a),
                Received::Describe(d) => step(
                    old(self)@,
                    NegotiationEvent::<D>::Checked(has_remote_description),
                ) == Step::<D>::Describe(final(self)@, d),
            },
    {
        let mut phase = Phase::Preparing;
        std::mem::swap(&mut self.phase, &mut phase);
        match phase {
            Phase::Checking(RtcNegotiationMessage::RemoteCandidate(c)) => {
                if has_remote_description {
                    self.phase = Phase::Adding(Vec::new(), Reply::Nothing);
                    proof {
                        assert(seq![c].drop_first() =~= Seq::empty());
                    }
                    Received::Act(NegotiationAction::AddRemoteCandidate(c))
                } else {
                    self.candidate_buffer.push(c);
                    Received::Act(self.give_way())
                }
            },
            Phase::Checking(RtcNegotiationMessage::RemoteSessionDescription(d)) => {
                if has_remote_description {
                    Received::Act(self.give_way())
                } else {
                    Received::Describe(d)
                }
            },
            _ => Received::Act(self.give_way()),
        }
    }

    /// The other side's description is in the form that the network stack takes.
    pub fn describe<D>(&mut self, description: D, reply: Reply) -> (r: NegotiationAction<D>)
        requires
            old(self)@.phase is Preparing,
        ensures
            step(old(self)@, NegotiationEvent::Prepared(description, reply)) == Step::Act(
                final(self)@,
                r,
            ),
    {
        self.phase = Phase::Describing(reply);
        NegotiationAction::SetRemoteDescription(description)
    }

    /// The other side's description is in place, or was refused with this text.
    pub fn remote_description_set<D>(&mut self, outcome: Result<(), String>) -> (r: Result<
        NegotiationAction<D>,
        RtcPeerConnectionError,
    >)
        requires
            old(self)@.phase is Describing,
        ensures
            follows(old(self)@, NegotiationEvent::Described(outcome), final(self)@, r),
    {
        match outcome {
            Ok(()) => {
                let reply: Reply = match &self.phase {
                    Phase::Describing(reply) => *reply,
                    _ => Reply::Nothing,
                };
                let mut queue: Vec<RtcIceCandidate> = Vec::new();
                std::mem::swap(&mut self.candidate_buffer, &mut queue);
                Ok(self.add_next(queue, reply))
            },
            Err(x) => Err(RtcPeerConnectionError::Negotiation(x)),
        }
    }

    /// A candidate of the other side was added, or was refused with this text.
    pub fn candidate_added<D>(&mut self, outcome: Result<(), String>) -> (r: Result<
        NegotiationAction<D>,
        RtcPeerConnectionError,
    >)
        requires
            old(self)@.phase is Adding,
        ensures
            follows(old(self)@, NegotiationEvent::Added(outcome), final(self)@, r),
    {
        match outcome {
            Ok(()) => {
                let mut phase = Phase::Yielding;
                std::mem::swap(&mut self.phase, &mut phase);
                match phase {
                    Phase::Adding(queue, reply) => Ok(self.add_next(queue, reply)),
                    _ => Ok(self.give_way()),
                }
            },
            Err(x) => Err(RtcPeerConnectionError::Negotiation(x)),
        }
    }

    /// An answer was made, or could not be, with this text.
    pub fn answer_created<D>(&mut self, outcome: Result<RtcSessionDescription, String>) -> (r:
        Result<NegotiationAction<D>, RtcPeerConnectionError>)
        requires
            old(self)@.phase is Answering,
        ensures
            follows(old(self)@, NegotiationEvent::AnswerCreated(outcome), final(self)@, r),
    {
        match outcome {
            Ok(d) => {
                let local = RtcSessionDescription {
                    sdp: d.sdp.clone(),
                    sdp_type: d.sdp_type.clone(),
                };
                self.phase = Phase::Committing(d);
                Ok(NegotiationAction::SetLocalDescription(local))
            },
            Err(x) => Err(RtcPeerConnectionError::Negotiation(x)),
        }
    }

    /// This side's answer is in place, or was refused with this text.
    pub fn local_description_set<D>(&mut self, outcome: Result<(), String>) -> (r: Result<
        NegotiationAction<D>,
        RtcPeerConnectionError,
    >)
        requires
            old(self)@.phase is Committing,
        ensures
            follows(old(self)@, NegotiationEvent::LocallyDescribed(outcome), final(self)@, r),
    {
        match outcome {
            Ok(()) => {
                let mut phase = Phase::Sending;
                std::mem::swap(&mut self.phase, &mut phase);
                match phase {
                    Phase::Committing(d) => Ok(
                        NegotiationAction::SendMessage(
                            RtcNegotiationMessage::RemoteSessionDescription(d),
                        ),
                    ),
                    _ => Ok(self.give_way()),
                }
            },
            Err(x) => Err(RtcPeerConnectionError::Negotiation(x)),
        }
    }

    /// Other work has run; the next notification can be polled for.
    pub fn resume<D>(&mut self) -> (r: NegotiationAction<D>)
        requires
            old(self)@.phase is Yielding,
        ensures
            step(old(self)@, NegotiationEvent::<D>::Resumed) == Step::Act(final(self)@, r),
    {
        self.phase = Phase::Polling;
        NegotiationAction::Poll
    }

    fn give_way<D>(&mut self) -> (r: NegotiationAction<D>)
        ensures
            yielding::<D>(old(self)@.kept) == Step::Act(final(self)@, r),
    {
        self.phase = Phase::Yielding;
        NegotiationAction::Yield
    }

    fn add_next<D>(&mut self, queue: Vec<RtcIceCandidate>, reply: Reply) -> (r: NegotiationAction<
        D,
    >)
        ensures
            adding::<D>(queue@, reply, old(self)@.kept) == Step::Act(final(self)@, r),
    {
        let mut queue = queue;
        if queue.len() > 0 {
            let next = queue.remove(0);
            self.phase = Phase::Adding(queue, reply);
            NegotiationAction::AddRemoteCandidate(next)
        } else {
            match reply {
                Reply::Nothing => self.give_way(),
                Reply::Answer => {
                    self.phase = Phase::Answering;
                    NegotiationAction::CreateAnswer
                },
            }
        }
    }
}

} // verus!
