//! The way from a request to open channels on a stack that has offers and answers.
//!
//! All channels are made first. The side that opens the negotiation then makes an offer,
//! puts it in place and sends it. After that both sides negotiate until every channel is
//! open.
use crate::error::{PeerErrorView, RtcPeerConnectionError};
use crate::message::{RtcNegotiationMessage, RtcSessionDescription};
use crate::negotiation::{
    fresh, step, Negotiation, NegotiationAction, NegotiationEvent, NegotiationView, PhaseView,
    Received, Reply, RtcNegotiationNotification, Step,
};
use crate::negotiation_laws::{awaits, law_every_outcome_is_awaited};
use crate::peer::RtcPeerConnectionAttempt;
use crate::queue::{Drawn, Inbox, Polled};
use crate::text::same_text;
use vstd::prelude::*;

verus! {

/// An offer of this side. `sdp_type` is the word for its role, if the role has one.
pub struct LocalOffer {
    pub sdp: String,
    pub sdp_type: Option<String>,
}

/// What the driver of a connection is to do next.
pub enum HandshakeAction {
    /// Make the channel at this place of the request.
    CreateChannel(usize),
    /// Make an offer.
    CreateOffer,
    /// Put the offer in place.
    CommitOffer,
    /// Go on negotiating.
    Negotiate(NegotiationAction<RtcSessionDescription>),
    /// Every channel is open: put them in order.
    Accept,
    /// The callbacks are gone, so nothing more can happen.
    Disconnected,
}

/// How far the connection is.
pub enum Stage {
    /// Channels are being made.
    Making,
    /// An offer is being made.
    Offering,
    /// This offer is being put in place.
    Committing(LocalOffer),
    /// The offer is being sent.
    Sending,
    /// The negotiation has begun.
    Talking,
}

/// A connection in the making. `C` is an open channel.
#[verifier::reject_recursive_types(C)]
pub struct Handshake<C> {
    total: usize,
    made: usize,
    offers: bool,
    stage: Stage,
    negotiation_recv: Inbox<RtcNegotiationNotification<C>>,
    channels: Vec<C>,
    negotiation: Negotiation,
}

/// A connection in the making, by its parts.
#[verifier::ext_equal]
#[verifier::reject_recursive_types(C)]
pub struct HandshakeView<C> {
    /// How many channels were asked for.
    pub total: nat,
    /// How many of them are made.
    pub made: nat,
    /// Whether this side opens the negotiation.
    pub offers: bool,
    pub stage: Stage,
    /// Where notifications arrive, with what every look for one has found.
    pub inbox: Drawn<RtcNegotiationNotification<C>>,
    /// The channels that are open, in the order in which they opened.
    pub channels: Seq<C>,
    pub negotiation: NegotiationView,
}

impl<C> View for Handshake<C> {
    type V = HandshakeView<C>;

    closed spec fn view(&self) -> HandshakeView<C> {
        HandshakeView {
            total: self.total as nat,
            made: self.made as nat,
            offers: self.offers,
            stage: self.stage,
            inbox: self.negotiation_recv@,
            channels: self.channels@,
            negotiation: self.negotiation@,
        }
    }
}

impl<C> HandshakeView<C> {
    /// What every connection in the making keeps: no more channels are made or open than
    /// were asked for, nothing is negotiated before every channel is made and the offer
    /// sent, and nothing any more once every channel is open.
    pub open spec fn well_formed(self) -> bool {
        &&& self.made <= self.total
        &&& self.channels.len() <= self.total
        &&& !(self.stage is Making) ==> self.made == self.total
        &&& !(self.stage is Talking) ==> self.channels.len() == 0 && self.negotiation == fresh()
        &&& !(self.negotiation.phase is Polling) ==> self.channels.len() < self.total
    }

    /// The next thing is a look for a notification.
    pub open spec fn polls(self) -> bool {
        &&& self.stage is Talking
        &&& self.negotiation.phase is Polling
        &&& self.channels.len() < self.total
    }

    /// The same, after a look for a notification has found this.
    pub open spec fn having_seen(self, found: Polled<RtcNegotiationNotification<C>>) -> Self {
        HandshakeView {
            inbox: Drawn { seen: self.inbox.seen.push(found), ..self.inbox },
            ..self
        }
    }
}

/// The channels are handed over exactly when as many are open as were asked for.
pub proof fn law_accepted_when_all_are_open<C>(s: HandshakeView<C>, a: HandshakeAction)
    requires
        s.well_formed(),
        is_waiting(s, a),
    ensures
        a is Accept <==> s.channels.len() == s.total,
        !(a is Accept) && s.stage is Talking && s.negotiation == fresh() ==> s.polls(),
{
}

/// What a connection begins with.
pub open spec fn beginning<C>(
    total: nat,
    attempt: RtcPeerConnectionAttempt,
    inbox: Drawn<RtcNegotiationNotification<C>>,
) -> HandshakeView<C> {
    HandshakeView {
        total,
        made: 0,
        offers: attempt is Offer,
        stage: Stage::Making,
        inbox,
        channels: Seq::empty(),
        negotiation: fresh(),
    }
}

/// The next thing to wait for once a channel is open, or there is nothing to make first.
pub open spec fn is_waiting<C>(s: HandshakeView<C>, a: HandshakeAction) -> bool {
    if s.channels.len() < s.total {
        a matches HandshakeAction::Negotiate(NegotiationAction::Poll)
    } else {
        a matches HandshakeAction::Accept
    }
}

/// The state and the action that follow while channels are being made.
pub open spec fn is_made<C>(
    before: HandshakeView<C>,
    after: HandshakeView<C>,
    a: HandshakeAction,
) -> bool {
    if before.made < before.total {
        &&& a matches HandshakeAction::CreateChannel(i) && i == before.made
        &&& after == before
    } else if before.offers {
        &&& a matches HandshakeAction::CreateOffer
        &&& after == (HandshakeView { stage: Stage::Offering, ..before })
    } else {
        &&& is_waiting(after, a)
        &&& after == (HandshakeView { stage: Stage::Talking, ..before })
    }
}

/// What comes of a look for a notification.
pub open spec fn is_polled<C>(
    before: HandshakeView<C>,
    found: Polled<RtcNegotiationNotification<C>>,
    after: HandshakeView<C>,
    r: Result<HandshakeAction, RtcPeerConnectionError>,
) -> bool {
    match found {
        Polled::Item(RtcNegotiationNotification::SendMessage(m)) => negotiates(
            before,
            NegotiationEvent::Relay(m),
            after,
            r,
        ),
        Polled::Item(RtcNegotiationNotification::DataChannelOpened(c)) => {
            &&& after == (HandshakeView {
                channels: before.channels.push(c),
                negotiation: fresh(),
                ..before
            })
            &&& r matches Ok(a) && is_waiting(after, a)
        },
        Polled::Item(RtcNegotiationNotification::Failed(e)) => {
            &&& r == Err::<HandshakeAction, _>(e)
            &&& after == before
        },
        Polled::Empty => negotiates(before, NegotiationEvent::Idle, after, r),
        Polled::Closed => {
            &&& r matches Ok(HandshakeAction::Disconnected)
            &&& after == before
        },
    }
}

/// A step of the negotiation moves nothing else, and a failure moves nothing at all.
pub open spec fn negotiates<C>(
    before: HandshakeView<C>,
    event: NegotiationEvent<RtcSessionDescription>,
    after: HandshakeView<C>,
    r: Result<HandshakeAction, RtcPeerConnectionError>,
) -> bool {
    match r {
        Ok(a) => {
            &&& a matches HandshakeAction::Negotiate(x) && step(before.negotiation, event)
                == Step::Act(after.negotiation, x)
            &&& after == (HandshakeView { negotiation: after.negotiation, ..before })
        },
        Err(e) => {
            &&& step(before.negotiation, event) == Step::<RtcSessionDescription>::Fail(e)
            &&& after == before
        },
    }
}

/// A driver that performs each action and reports what came of it is never out of step: the
/// outcome of every action is waited for.
pub proof fn law_driver_stays_in_step<C>(
    before: HandshakeView<C>,
    event: NegotiationEvent<RtcSessionDescription>,
    after: HandshakeView<C>,
    a: NegotiationAction<RtcSessionDescription>,
)
    requires
        before.well_formed(),
        before.negotiation.phase is Polling ==> before.polls(),
        negotiates(before, event, after, Ok(HandshakeAction::Negotiate(a))),
    ensures
        after.well_formed(),
        awaits(after.negotiation, a),
        a is Poll ==> after.polls(),
{
    law_every_outcome_is_awaited(before.negotiation, event, a);
}

/// What is owed for a description of the other side: an offer is to be answered.
pub open spec fn reply_to(description: RtcSessionDescription) -> Reply {
    if description.sdp_type@ == "offer"@ {
        Reply::Answer
    } else {
        Reply::Nothing
    }
}

/// The text of the error for an offer whose role has no word.
pub open spec fn unexpected_type_text() -> Seq<char> {
    "Unexpected SDP type"@
}

fn negotiate_next(
    r: Result<NegotiationAction<RtcSessionDescription>, RtcPeerConnectionError>,
) -> (x: Result<HandshakeAction, RtcPeerConnectionError>)
    ensures
        match r {
            Ok(a) => x == Ok::<_, RtcPeerConnectionError>(HandshakeAction::Negotiate(a)),
            Err(e) => x == Err::<HandshakeAction, _>(e),
        },
{
    match r {
        Ok(a) => Ok(HandshakeAction::Negotiate(a)),
        Err(e) => Err(e),
    }
}

impl<C> Handshake<C> {
    pub fn new(
        total: usize,
        attempt: &RtcPeerConnectionAttempt,
        negotiation_recv: Inbox<RtcNegotiationNotification<C>>,
    ) -> (r: Self)
        ensures
            r@ == beginning(total as nat, *attempt, negotiation_recv@),
            r@.well_formed(),
    {
        let offers: bool = match attempt {
            RtcPeerConnectionAttempt::Offer => true,
            RtcPeerConnectionAttempt::Answer => false,
        };
        Handshake {
            total,
            made: 0,
            offers,
            stage: Stage::Making,
            negotiation_recv,
            channels: Vec::new(),
            negotiation: Negotiation::new(),
        }
    }

    /// What to do after the channels that are made already.
    pub fn initialize_channels(&mut self) -> (a: HandshakeAction)
        requires
            old(self)@.well_formed(),
            old(self)@.stage is Making,
        ensures
            final(self)@.well_formed(),
            is_made(old(self)@, final(self)@, a),
    {
        if self.made < self.total {
            HandshakeAction::CreateChannel(self.made)
        } else if self.offers {
            self.stage = Stage::Offering;
            HandshakeAction::CreateOffer
        } else {
            self.stage = Stage::Talking;
            self.wait()
        }
    }

    fn wait(&self) -> (a: HandshakeAction)
        ensures
            is_waiting(self@, a),
    {
        if self.channels.len() < self.total {
            HandshakeAction::Negotiate(NegotiationAction::Poll)
        } else {
            HandshakeAction::Accept
        }
    }

    /// The next channel is made.
    pub fn channel_created(&mut self) -> (a: HandshakeAction)
        requires
            old(self)@.well_formed(),
            old(self)@.stage is Making,
            old(self)@.made < old(self)@.total,
        ensures
            final(self)@.well_formed(),
            is_made(
                (HandshakeView { made: old(self)@.made + 1, ..old(self)@ }),
                final(self)@,
                a,
            ),
    {
        self.made = self.made + 1;
        self.initialize_channels()
    }

    /// An offer was made, or could not be, with this text.
    pub fn offer_created(&mut self, outcome: Result<LocalOffer, String>) -> (r: Result<
        HandshakeAction,
        RtcPeerConnectionError,
    >)
        requires
            old(self)@.well_formed(),
            old(self)@.stage is Offering,
        ensures
            r is Ok ==> final(self)@.well_formed(),
            match outcome {
                Ok(offer) => {
                    &&& r matches Ok(HandshakeAction::CommitOffer)
                    &&& final(self)@ == (HandshakeView {
                        stage: Stage::Committing(offer),
                        ..old(self)@
                    })
                },
                Err(x) => {
                    &&& r == Err::<HandshakeAction, _>(RtcPeerConnectionError::Negotiation(x))
                    &&& final(self)@ == old(self)@
                },
            },
    {
        match outcome {
            Ok(offer) => {
                self.stage = Stage::Committing(offer);
                Ok(HandshakeAction::CommitOffer)
            },
            Err(x) => Err(RtcPeerConnectionError::Negotiation(x)),
        }
    }

    /// The offer is in place, or was refused with this text.
    pub fn offer_committed(&mut self, outcome: Result<(), String>) -> (r: Result<
        HandshakeAction,
        RtcPeerConnectionError,
    >)
        requires
            old(self)@.well_formed(),
            old(self)@.stage is Committing,
        ensures
            r is Ok ==> final(self)@.well_formed(),
            match (outcome, old(self)@.stage->Committing_0.sdp_type) {
                (Ok(_), Some(sdp_type)) => {
                    &&& r == Ok::<_, RtcPeerConnectionError>(
                        HandshakeAction::Negotiate(
                            NegotiationAction::SendMessage(
                                RtcNegotiationMessage::RemoteSessionDescription(
                                    RtcSessionDescription {
                                        sdp: old(self)@.stage->Committing_0.sdp,
                                        sdp_type,
                                    },
                                ),
                            ),
                        ),
                    )
                    &&& final(self)@ == (HandshakeView { stage: Stage::Sending, ..old(self)@ })
                },
                (Ok(_), None) => {
                    &&& r matches Err(e) && e@ == PeerErrorView::Negotiation(
                        unexpected_type_text(),
                    )
                    &&& final(self)@ == (HandshakeView { stage: Stage::Sending, ..old(self)@ })
                },
                (Err(x), _) => {
                    &&& r == Err::<HandshakeAction, _>(RtcPeerConnectionError::Negotiation(x))
                    &&& final(self)@ == old(self)@
                },
            },
    {
        match outcome {
            Ok(()) => {
                let mut stage = Stage::Sending;
                std::mem::swap(&mut self.stage, &mut stage);
                match stage {
                    Stage::Committing(LocalOffer { sdp, sdp_type: Some(sdp_type) }) => Ok(
                        HandshakeAction::Negotiate(
                            NegotiationAction::SendMessage(
                                RtcNegotiationMessage::RemoteSessionDescription(
                                    RtcSessionDescription { sdp, sdp_type },
                                ),
                            ),
                        ),
                    ),
                    _ => Err(RtcPeerConnectionError::Negotiation("Unexpected SDP type".to_string())),
                }
            },
            Err(x) => Err(RtcPeerConnectionError::Negotiation(x)),
        }
    }

    /// Acts on what a look for a notification has found.
    pub fn polled(&mut self, found: Polled<RtcNegotiationNotification<C>>) -> (r: Result<
        HandshakeAction,
        RtcPeerConnectionError,
    >)
        requires
            old(self)@.well_formed(),
            old(self)@.polls(),
        ensures
            r is Ok ==> final(self)@.well_formed(),
            is_polled(old(self)@, found, final(self)@, r),
    {
        match found {
            Polled::Item(RtcNegotiationNotification::SendMessage(m)) => Ok(
                HandshakeAction::Negotiate(self.negotiation.relay(m)),
            ),
            Polled::Item(RtcNegotiationNotification::DataChannelOpened(c)) => {
                self.channels.push(c);
                self.negotiation = Negotiation::new();
                Ok(self.wait())
            },
            Polled::Item(RtcNegotiationNotification::Failed(e)) => Err(e),
            Polled::Empty => Ok(HandshakeAction::Negotiate(self.negotiation.idle())),
            Polled::Closed => Ok(HandshakeAction::Disconnected),
        }
    }

    /// Looks for a notification and acts on it.
    pub fn negotiate(&mut self) -> (r: Result<HandshakeAction, RtcPeerConnectionError>)
        requires
            old(self)@.well_formed(),
            old(self)@.polls(),
        ensures
            r is Ok ==> final(self)@.well_formed(),
            exists|found: Polled<RtcNegotiationNotification<C>>| #[trigger]
                is_polled(old(self)@.having_seen(found), found, final(self)@, r),
    {
        let ghost before = self@;
        let found = self.negotiation_recv.poll();
        assert(self@ =~= before.having_seen(found));
        self.polled(found)
    }

    /// A message to the other peer was sent, or could not be. After the offer, the
    /// negotiation begins.
    pub fn message_sent(&mut self, outcome: Result<(), RtcPeerConnectionError>) -> (r: Result<
        HandshakeAction,
        RtcPeerConnectionError,
    >)
        requires
            old(self)@.well_formed(),
            old(self)@.stage is Sending || old(self)@.negotiation.phase is Sending,
        ensures
            r is Ok ==> final(self)@.well_formed(),
            old(self)@.stage is Sending ==> match outcome {
                Ok(_) => {
                    &&& final(self)@ == (HandshakeView { stage: Stage::Talking, ..old(self)@ })
                    &&& r matches Ok(a) && is_waiting(final(self)@, a)
                },
                Err(e) => {
                    &&& r == Err::<HandshakeAction, _>(e)
                    &&& final(self)@ == old(self)@
                },
            },
            !(old(self)@.stage is Sending) ==> negotiates(
                old(self)@,
                NegotiationEvent::Sent(outcome),
                final(self)@,
                r,
            ),
    {
        match self.stage {
            Stage::Sending => match outcome {
                Ok(()) => {
                    self.stage = Stage::Talking;
                    Ok(self.wait())
                },
                Err(e) => Err(e),
            },
            _ => negotiate_next(self.negotiation.message_sent(outcome)),
        }
    }

    /// The other peer has sent a message, or nothing, or cannot be heard.
    pub fn message_received(
        &mut self,
        outcome: Result<Option<RtcNegotiationMessage>, RtcPeerConnectionError>,
    ) -> (r: Result<HandshakeAction, RtcPeerConnectionError>)
        requires
            old(self)@.well_formed(),
            old(self)@.negotiation.phase is Receiving,
        ensures
            r is Ok ==> final(self)@.well_formed(),
            negotiates(old(self)@, NegotiationEvent::Received(outcome), final(self)@, r),
    {
        negotiate_next(self.negotiation.message_received(outcome))
    }

    /// Decides about the message that has come, by whether the other side's description is
    /// in place already. A first description is handed to the network stack, and is
    /// answered if it is an offer.
    pub fn receive_negotiation_message(&mut self, has_remote_description: bool) -> (r: Result<
        HandshakeAction,
        RtcPeerConnectionError,
    >)
        requires
            old(self)@.well_formed(),
            old(self)@.negotiation.phase is Checking,
        ensures
            r is Ok ==> final(self)@.well_formed(),
            match step(
                old(self)@.negotiation,
                NegotiationEvent::<RtcSessionDescription>::Checked(has_remote_description),
            ) {
                Step::Act(_, _) => negotiates(
                    old(self)@,
                    NegotiationEvent::Checked(has_remote_description),
                    final(self)@,
                    r,
                ),
                Step::Describe(preparing, d) => negotiates(
                    (HandshakeView { negotiation: preparing, ..old(self)@ }),
                    NegotiationEvent::Prepared(d, reply_to(d)),
                    final(self)@,
                    r,
                ),
                _ => false,
            },
    {
        match self.negotiation.receive_negotiation_message(has_remote_description) {
            Received::Act(a) => Ok(HandshakeAction::Negotiate(a)),
            Received::Describe(d) => {
                if same_text(d.sdp_type.as_str(), "offer") {
                    Ok(self.handle_remote_offer(d))
                } else {
                    Ok(self.handle_remote_answer(d))
                }
            },
        }
    }

    /// An offer of the other side is put in place and is then answered.
    fn handle_remote_offer(&mut self, d: RtcSessionDescription) -> (a: HandshakeAction)
        requires
            old(self)@.well_formed(),
            old(self)@.negotiation.phase is Preparing,
        ensures
            final(self)@.well_formed(),
            negotiates(
                old(self)@,
                NegotiationEvent::Prepared(d, Reply::Answer),
                final(self)@,
                Ok(a),
            ),
    {
        HandshakeAction::Negotiate(self.negotiation.describe(d, Reply::Answer))
    }

    /// An answer of the other side is put in place.
    fn handle_remote_answer(&mut self, d: RtcSessionDescription) -> (a: HandshakeAction)
        requires
            old(self)@.well_formed(),
            old(self)@.negotiation.phase is Preparing,
        ensures
            final(self)@.well_formed(),
            negotiates(
                old(self)@,
                NegotiationEvent::Prepared(d, Reply::Nothing),
                final(self)@,
                Ok(a),
            ),
    {
        HandshakeAction::Negotiate(self.negotiation.describe(d, Reply::Nothing))
    }

    /// The other side's description is in place, or was refused with this text.
    pub fn remote_description_set(&mut self, outcome: Result<(), String>) -> (r: Result<
        HandshakeAction,
        RtcPeerConnectionError,
    >)
        requires
            old(self)@.well_formed(),
            old(self)@.negotiation.phase is Describing,
        ensures
            r is Ok ==> final(self)@.well_formed(),
            negotiates(old(self)@, NegotiationEvent::Described(outcome), final(self)@, r),
    {
        negotiate_next(self.negotiation.remote_description_set(outcome))
    }

    /// A candidate of the other side was added, or was refused with this text.
    pub fn add_remote_candidate(&mut self, outcome: Result<(), String>) -> (r: Result<
        HandshakeAction,
        RtcPeerConnectionError,
    >)
        requires
            old(self)@.well_formed(),
            old(self)@.negotiation.phase is Adding,
        ensures
            r is Ok ==> final(self)@.well_formed(),
            negotiates(old(self)@, NegotiationEvent::Added(outcome), final(self)@, r),
    {
        negotiate_next(self.negotiation.candidate_added(outcome))
    }

    /// An answer was made, or could not be, with this text.
    pub fn answer_created(&mut self, outcome: Result<RtcSessionDescription, String>) -> (r: Result<
        HandshakeAction,
        RtcPeerConnectionError,
    >)
        requires
            old(self)@.well_formed(),
            old(self)@.negotiation.phase is Answering,
        ensures
            r is Ok ==> final(self)@.well_formed(),
            negotiates(old(self)@, NegotiationEvent::AnswerCreated(outcome), final(self)@, r),
    {
        negotiate_next(self.negotiation.answer_created(outcome))
    }

    /// This side's answer is in place, or was refused with this text.
    pub fn local_description_set(&mut self, outcome: Result<(), String>) -> (r: Result<
        HandshakeAction,
        RtcPeerConnectionError,
    >)
        requires
            old(self)@.well_formed(),
            old(self)@.negotiation.phase is Committing,
        ensures
            r is Ok ==> final(self)@.well_formed(),
            negotiates(old(self)@, NegotiationEvent::LocallyDescribed(outcome), final(self)@, r),
    {
        negotiate_next(self.negotiation.local_description_set(outcome))
    }

    /// Other work has run.
    pub fn resume(&mut self) -> (r: Result<HandshakeAction, RtcPeerConnectionError>)
        requires
            old(self)@.well_formed(),
            old(self)@.negotiation.phase is Yielding,
        ensures
            r is Ok ==> final(self)@.well_formed(),
            negotiates(old(self)@, NegotiationEvent::Resumed, final(self)@, r),
    {
        Ok(HandshakeAction::Negotiate(self.negotiation.resume()))
    }

    /// The channels that are open, in the order in which they opened.
    pub fn into_channels(self) -> (r: Vec<C>)
        ensures
            r@ == self@.channels,
    {
        self.channels
    }
}

/// Only an offer is answered, and every offer is, whatever it says.
pub proof fn law_only_an_offer_is_answered(description: RtcSessionDescription)
    ensures
        reply_to(description) is Answer <==> description.sdp_type@ == "offer"@,
        reply_to(description) is Nothing <==> description.sdp_type@ != "offer"@,
{
}

/// A connection begins with no channel made, none open and nothing negotiated, with its queue
/// as it was handed over, and exactly the offering side opens the negotiation.
pub proof fn law_nothing_is_made_at_first<C>(
    total: nat,
    attempt: RtcPeerConnectionAttempt,
    inbox: Drawn<RtcNegotiationNotification<C>>,
)
    ensures
        ({
            let s = beginning(total, attempt, inbox);
            &&& s.total == total
            &&& s.made == 0
            &&& s.channels.len() == 0
            &&& s.offers <==> attempt == RtcPeerConnectionAttempt::Offer
            &&& s.stage is Making
            &&& s.inbox == inbox
            &&& s.negotiation.phase is Polling
            &&& s.negotiation.kept.len() == 0
        }),
{
}

/// The channels are made one by one in the order of the request, and once all are made the
/// offering side makes an offer and the other side waits; nothing else changes meanwhile.
pub proof fn law_all_are_made_before_an_offer<C>(
    before: HandshakeView<C>,
    after: HandshakeView<C>,
    a: HandshakeAction,
)
    requires
        before.well_formed(),
        before.stage is Making,
        is_made(before, after, a),
    ensures
        a is CreateChannel <==> before.made < before.total,
        a matches HandshakeAction::CreateChannel(i) ==> i == before.made && after.stage is Making,
        a is CreateOffer <==> before.made == before.total && before.offers,
        a is CreateOffer ==> after.stage is Offering,
        before.made == before.total && !before.offers ==> {
            &&& after.stage is Talking
            &&& before.total > 0 ==> a == HandshakeAction::Negotiate(NegotiationAction::Poll)
            &&& before.total == 0 ==> a is Accept
        },
        after.total == before.total,
        after.made == before.made,
        after.offers == before.offers,
        after.inbox == before.inbox,
        after.channels == before.channels,
        after.negotiation == before.negotiation,
{
}

/// What every notification comes to: a message goes to the other peer as it is, a channel that
/// has opened is the last in the list and the others stay, a failure is handed on as it is, and
/// where there is no notification the other peer is heard.
pub proof fn law_every_notification_is_acted_on<C>(
    before: HandshakeView<C>,
    found: Polled<RtcNegotiationNotification<C>>,
    after: HandshakeView<C>,
    r: Result<HandshakeAction, RtcPeerConnectionError>,
)
    requires
        before.well_formed(),
        before.polls(),
        is_polled(before, found, after, r),
    ensures
        after.total == before.total,
        after.made == before.made,
        after.offers == before.offers,
        after.stage == before.stage,
        after.inbox == before.inbox,
        match found {
            Polled::Item(RtcNegotiationNotification::SendMessage(m)) => {
                &&& r == Ok::<_, RtcPeerConnectionError>(
                    HandshakeAction::Negotiate(NegotiationAction::SendMessage(m)),
                )
                &&& after.channels == before.channels
                &&& after.negotiation.phase is Sending
                &&& after.negotiation.kept == before.negotiation.kept
            },
            Polled::Item(RtcNegotiationNotification::DataChannelOpened(c)) => {
                &&& after.channels.len() == before.channels.len() + 1
                &&& after.channels.last() == c
                &&& forall|i: int|
                    0 <= i < before.channels.len() ==> #[trigger] after.channels[i]
                        == before.channels[i]
                &&& after.negotiation.phase is Polling
                &&& after.negotiation.kept.len() == 0
                &&& r is Ok
                &&& r->Ok_0 is Accept <==> before.channels.len() + 1 == before.total
                &&& !(r->Ok_0 is Accept) ==> r->Ok_0 == HandshakeAction::Negotiate(
                    NegotiationAction::Poll,
                )
            },
            Polled::Item(RtcNegotiationNotification::Failed(e)) => {
                &&& r == Err::<HandshakeAction, _>(e)
                &&& after == before
            },
            Polled::Empty => {
                &&& r == Ok::<_, RtcPeerConnectionError>(
                    HandshakeAction::Negotiate(NegotiationAction::ReceiveMessage),
                )
                &&& after.channels == before.channels
                &&& after.negotiation.phase is Receiving
                &&& after.negotiation.kept == before.negotiation.kept
            },
            Polled::Closed => {
                &&& r == Ok::<_, RtcPeerConnectionError>(HandshakeAction::Disconnected)
                &&& after == before
            },
        },
{
    broadcast use vstd::seq_lib::group_seq_properties;
}

/// A step of the negotiation leaves the channels, the request and the queue alone, and a step
/// that fails leaves the negotiation alone as well.
pub proof fn law_negotiating_leaves_the_rest<C>(
    before: HandshakeView<C>,
    event: NegotiationEvent<RtcSessionDescription>,
    after: HandshakeView<C>,
    r: Result<HandshakeAction, RtcPeerConnectionError>,
)
    requires
        negotiates(before, event, after, r),
    ensures
        after.total == before.total,
        after.made == before.made,
        after.offers == before.offers,
        after.stage == before.stage,
        after.inbox == before.inbox,
        after.channels == before.channels,
        r matches Ok(a) ==> a is Negotiate && step(before.negotiation, event) == Step::Act(
            after.negotiation,
            a->Negotiate_0,
        ),
        r matches Err(e) ==> after == before && step(before.negotiation, event) == Step::<
            RtcSessionDescription,
        >::Fail(e),
{
}

/// The offer that was made is put in place and is then sent as it was made, under the word for
/// its role, and after that the negotiation begins; an offer whose role has no word is an
/// error.
pub proof fn law_offer_is_sent_as_made<C>(
    made: &mut Handshake<C>,
    offer: LocalOffer,
    a: Result<HandshakeAction, RtcPeerConnectionError>,
    committed: &mut Handshake<C>,
    b: Result<HandshakeAction, RtcPeerConnectionError>,
    sent: &mut Handshake<C>,
    c: Result<HandshakeAction, RtcPeerConnectionError>,
)
    requires
        old(made)@.well_formed(),
        old(made)@.stage is Offering,
        call_ensures(Handshake::<C>::offer_created, (made, Ok(offer)), a),
        *old(committed) == *final(made),
        call_ensures(Handshake::<C>::offer_committed, (committed, Ok(())), b),
        *old(sent) == *final(committed),
        call_ensures(Handshake::<C>::message_sent, (sent, Ok(())), c),
    ensures
        a matches Ok(HandshakeAction::CommitOffer),
        offer.sdp_type matches Some(word) ==> {
            &&& b == Ok::<_, RtcPeerConnectionError>(
                HandshakeAction::Negotiate(
                    NegotiationAction::SendMessage(
                        RtcNegotiationMessage::RemoteSessionDescription(
                            RtcSessionDescription { sdp: offer.sdp, sdp_type: word },
                        ),
                    ),
                ),
            )
            &&& final(sent)@.stage is Talking
            &&& old(made)@.total > 0 ==> c == Ok::<_, RtcPeerConnectionError>(
                HandshakeAction::Negotiate(NegotiationAction::Poll),
            )
            &&& old(made)@.total == 0 ==> c == Ok::<_, RtcPeerConnectionError>(
                HandshakeAction::Accept,
            )
        },
        offer.sdp_type is None ==> (b matches Err(e) && e@ == PeerErrorView::Negotiation(
            "Unexpected SDP type"@,
        )),
        final(sent)@.inbox == old(made)@.inbox,
        final(sent)@.total == old(made)@.total,
        final(sent)@.made == old(made)@.made,
        final(sent)@.channels == old(made)@.channels,
        final(sent)@.negotiation == old(made)@.negotiation,
{
}

/// An offer that could not be made or put in place fails with the stack's text, and one that
/// could not be sent with the handler's own error; the connection stays as it was.
pub proof fn law_refused_offer_is_an_error<C>(
    made: &mut Handshake<C>,
    x: String,
    a: Result<HandshakeAction, RtcPeerConnectionError>,
    committed: &mut Handshake<C>,
    y: String,
    b: Result<HandshakeAction, RtcPeerConnectionError>,
    sent: &mut Handshake<C>,
    e: RtcPeerConnectionError,
    c: Result<HandshakeAction, RtcPeerConnectionError>,
)
    requires
        old(made)@.well_formed(),
        old(made)@.stage is Offering,
        call_ensures(Handshake::<C>::offer_created, (made, Err(x)), a),
        old(committed)@.well_formed(),
        old(committed)@.stage is Committing,
        call_ensures(Handshake::<C>::offer_committed, (committed, Err(y)), b),
        old(sent)@.well_formed(),
        old(sent)@.stage is Sending,
        call_ensures(Handshake::<C>::message_sent, (sent, Err(e)), c),
    ensures
        a == Err::<HandshakeAction, _>(RtcPeerConnectionError::Negotiation(x)),
        final(made)@ == old(made)@,
        b == Err::<HandshakeAction, _>(RtcPeerConnectionError::Negotiation(y)),
        final(committed)@ == old(committed)@,
        c == Err::<HandshakeAction, _>(e),
        final(sent)@ == old(sent)@,
{
}

/// What the other peer says is decided about as it was said: a candidate is added at once if
/// the description is in place and is kept otherwise, a first description is put in place as
/// it came and is answered exactly if it is an offer, and a second one is ignored.
pub proof fn law_message_is_decided_about<C>(
    handshake: &mut Handshake<C>,
    has_remote_description: bool,
    r: Result<HandshakeAction, RtcPeerConnectionError>,
)
    requires
        old(handshake)@.well_formed(),
        old(handshake)@.negotiation.phase is Checking,
        call_ensures(
            Handshake::<C>::receive_negotiation_message,
            (handshake, has_remote_description),
            r,
        ),
    ensures
        r matches Ok(HandshakeAction::Negotiate(a)) && {
            let kept = old(handshake)@.negotiation.kept;
            let after = final(handshake)@.negotiation;
            match (old(handshake)@.negotiation.phase->Checking_0, has_remote_description) {
                (RtcNegotiationMessage::RemoteCandidate(c), true) => {
                    &&& a == NegotiationAction::<RtcSessionDescription>::AddRemoteCandidate(c)
                    &&& after.kept == kept
                },
                (RtcNegotiationMessage::RemoteCandidate(c), false) => {
                    &&& a is Yield
                    &&& after.kept == kept.push(c)
                },
                (RtcNegotiationMessage::RemoteSessionDescription(d), true) => {
                    &&& a is Yield
                    &&& after.kept == kept
                },
                (RtcNegotiationMessage::RemoteSessionDescription(d), false) => {
                    &&& a == NegotiationAction::SetRemoteDescription(d)
                    &&& after.kept == kept
                    &&& after.phase matches PhaseView::Describing(reply) && (reply is Answer
                        <==> d.sdp_type@ == "offer"@)
                },
            }
        },
        final(handshake)@.channels == old(handshake)@.channels,
        final(handshake)@.inbox == old(handshake)@.inbox,
{
}

/// The answer to an offer is put in place and is then sent as it was made.
pub proof fn law_answer_is_sent_as_made<C>(
    made: &mut Handshake<C>,
    answer: RtcSessionDescription,
    a: Result<HandshakeAction, RtcPeerConnectionError>,
    committed: &mut Handshake<C>,
    b: Result<HandshakeAction, RtcPeerConnectionError>,
)
    requires
        old(made)@.well_formed(),
        old(made)@.negotiation.phase is Answering,
        call_ensures(Handshake::<C>::answer_created, (made, Ok(answer)), a),
        *old(committed) == *final(made),
        call_ensures(Handshake::<C>::local_description_set, (committed, Ok(())), b),
    ensures
        a == Ok::<_, RtcPeerConnectionError>(
            HandshakeAction::Negotiate(NegotiationAction::SetLocalDescription(answer)),
        ),
        b == Ok::<_, RtcPeerConnectionError>(
            HandshakeAction::Negotiate(
                NegotiationAction::SendMessage(
                    RtcNegotiationMessage::RemoteSessionDescription(answer),
                ),
            ),
        ),
        final(committed)@.channels == old(made)@.channels,
        final(committed)@.negotiation.kept == old(made)@.negotiation.kept,
{
}

/// The channels that are handed over are those that opened, in the order in which they did.
pub proof fn law_open_channels_are_handed_over<C>(
    handshake: &mut Handshake<C>,
    channel: C,
    r: Result<HandshakeAction, RtcPeerConnectionError>,
    done: Handshake<C>,
    channels: Vec<C>,
)
    requires
        old(handshake)@.well_formed(),
        old(handshake)@.polls(),
        call_ensures(
            Handshake::<C>::polled,
            (
                handshake,
                Polled::Item(RtcNegotiationNotification::DataChannelOpened(channel)),
            ),
            r,
        ),
        done == *final(handshake),
        call_ensures(Handshake::<C>::into_channels, (done,), channels),
    ensures
        channels@ == old(handshake)@.channels.push(channel),
{
}

/// The driver is told to do what the notification asks for: to send its message as it is, to
/// go on with the channel that it opens, or to give up with its error; and to listen to the
/// other peer where there is none.
pub proof fn law_driver_follows_the_notification<C>(
    handshake: &mut Handshake<C>,
    found: Polled<RtcNegotiationNotification<C>>,
    r: Result<HandshakeAction, RtcPeerConnectionError>,
)
    requires
        old(handshake)@.well_formed(),
        old(handshake)@.polls(),
        call_ensures(Handshake::<C>::polled, (handshake, found), r),
    ensures
        match found {
            Polled::Item(RtcNegotiationNotification::SendMessage(m)) => r == Ok::<
                _,
                RtcPeerConnectionError,
            >(HandshakeAction::Negotiate(NegotiationAction::SendMessage(m))),
            Polled::Item(RtcNegotiationNotification::DataChannelOpened(c)) => {
                &&& final(handshake)@.channels == old(handshake)@.channels.push(c)
                &&& r is Ok
                &&& r->Ok_0 is Accept <==> old(handshake)@.channels.len() + 1 == old(handshake)@.total
            },
            Polled::Item(RtcNegotiationNotification::Failed(e)) => r == Err::<
                HandshakeAction,
                _,
            >(e),
            Polled::Empty => r == Ok::<_, RtcPeerConnectionError>(
                HandshakeAction::Negotiate(NegotiationAction::ReceiveMessage),
            ),
            Polled::Closed => r == Ok::<_, RtcPeerConnectionError>(HandshakeAction::Disconnected),
        },
        final(handshake)@.total == old(handshake)@.total,
        final(handshake)@.inbox == old(handshake)@.inbox,
{
}

/// A connection makes its channels first, beginning with the first of the request; one without
/// channels makes its offer, or is handed over at once.
pub proof fn law_first_channel_is_made_first<C>(
    total: usize,
    attempt: &RtcPeerConnectionAttempt,
    inbox: Inbox<RtcNegotiationNotification<C>>,
    handshake: &mut Handshake<C>,
    a: HandshakeAction,
)
    requires
        call_ensures(Handshake::<C>::new, (total, attempt, inbox), *old(handshake)),
        call_ensures(Handshake::<C>::initialize_channels, (handshake,), a),
    ensures
        total > 0 ==> a == HandshakeAction::CreateChannel(0),
        total == 0 && attempt is Offer ==> a is CreateOffer,
        total == 0 && attempt is Answer ==> a is Accept,
{
}

/// What the other peer says goes to the negotiation as it was said, its silence is no error,
/// and where it cannot be heard the attempt ends with the handler's own error.
pub proof fn law_other_peer_is_heard<C>(
    handshake: &mut Handshake<C>,
    outcome: Result<Option<RtcNegotiationMessage>, RtcPeerConnectionError>,
    r: Result<HandshakeAction, RtcPeerConnectionError>,
)
    requires
        old(handshake)@.well_formed(),
        old(handshake)@.negotiation.phase is Receiving,
        call_ensures(Handshake::<C>::message_received, (handshake, outcome), r),
    ensures
        match outcome {
            Ok(Some(m)) => {
                &&& r matches Ok(HandshakeAction::Negotiate(a)) && a is CheckRemoteDescription
                &&& final(handshake)@.negotiation.phase == PhaseView::Checking(m)
            },
            Ok(None) => {
                &&& r matches Ok(HandshakeAction::Negotiate(a)) && a is Yield
                &&& final(handshake)@.negotiation.phase is Yielding
            },
            Err(e) => {
                &&& r == Err::<HandshakeAction, _>(e)
                &&& final(handshake)@ == old(handshake)@
            },
        },
        final(handshake)@.negotiation.kept == old(handshake)@.negotiation.kept,
        final(handshake)@.channels == old(handshake)@.channels,
{
}

/// Once a description is in place the candidates follow: the first that is kept, with the
/// others behind it, or what is owed if none is kept; what the stack refuses ends the attempt
/// with its text.
pub proof fn law_kept_candidates_follow_the_description<C>(
    set: &mut Handshake<C>,
    outcome: Result<(), String>,
    r: Result<HandshakeAction, RtcPeerConnectionError>,
)
    requires
        old(set)@.well_formed(),
        old(set)@.negotiation.phase is Describing,
        call_ensures(Handshake::<C>::remote_description_set, (set, outcome), r),
    ensures
        outcome is Ok ==> {
            let kept = old(set)@.negotiation.kept;
            let reply = old(set)@.negotiation.phase->Describing_0;
            &&& kept.len() > 0 ==> {
                &&& r == Ok::<_, RtcPeerConnectionError>(
                    HandshakeAction::Negotiate(NegotiationAction::AddRemoteCandidate(kept[0])),
                )
                &&& final(set)@.negotiation.phase == PhaseView::Adding(kept.drop_first(), reply)
            }
            &&& kept.len() == 0 && reply is Answer ==> r == Ok::<_, RtcPeerConnectionError>(
                HandshakeAction::Negotiate(NegotiationAction::CreateAnswer),
            )
            &&& kept.len() == 0 && reply is Nothing ==> r == Ok::<_, RtcPeerConnectionError>(
                HandshakeAction::Negotiate(NegotiationAction::Yield),
            )
            &&& final(set)@.negotiation.kept.len() == 0
        },
        outcome matches Err(x) ==> {
            &&& r == Err::<HandshakeAction, _>(RtcPeerConnectionError::Negotiation(x))
            &&& final(set)@ == old(set)@
        },
        final(set)@.channels == old(set)@.channels,
{
}

/// After a candidate comes the next, in their order, and after the last what is owed; what the
/// stack refuses ends the attempt with its text.
pub proof fn law_one_candidate_follows_the_other<C>(
    added: &mut Handshake<C>,
    outcome: Result<(), String>,
    r: Result<HandshakeAction, RtcPeerConnectionError>,
)
    requires
        old(added)@.well_formed(),
        old(added)@.negotiation.phase is Adding,
        call_ensures(Handshake::<C>::add_remote_candidate, (added, outcome), r),
    ensures
        outcome is Ok ==> {
            let queue = old(added)@.negotiation.phase->Adding_0;
            let reply = old(added)@.negotiation.phase->Adding_1;
            &&& queue.len() > 0 ==> {
                &&& r == Ok::<_, RtcPeerConnectionError>(
                    HandshakeAction::Negotiate(NegotiationAction::AddRemoteCandidate(queue[0])),
                )
                &&& final(added)@.negotiation.phase == PhaseView::Adding(queue.drop_first(), reply)
            }
            &&& queue.len() == 0 && reply is Answer ==> r == Ok::<_, RtcPeerConnectionError>(
                HandshakeAction::Negotiate(NegotiationAction::CreateAnswer),
            )
            &&& queue.len() == 0 && reply is Nothing ==> r == Ok::<_, RtcPeerConnectionError>(
                HandshakeAction::Negotiate(NegotiationAction::Yield),
            )
            &&& final(added)@.negotiation.kept == old(added)@.negotiation.kept
        },
        outcome matches Err(x) ==> {
            &&& r == Err::<HandshakeAction, _>(RtcPeerConnectionError::Negotiation(x))
            &&& final(added)@ == old(added)@
        },
        final(added)@.channels == old(added)@.channels,
{
}

/// When a message is sent it is the turn of others, and then the next notification is looked
/// for; a message that could not be sent ends the attempt with the handler's own error.
pub proof fn law_next_look_follows_a_sent_message<C>(
    sent: &mut Handshake<C>,
    outcome: Result<(), RtcPeerConnectionError>,
    a: Result<HandshakeAction, RtcPeerConnectionError>,
    resumed: &mut Handshake<C>,
    b: Result<HandshakeAction, RtcPeerConnectionError>,
)
    requires
        old(sent)@.well_formed(),
        old(sent)@.stage is Talking,
        old(sent)@.negotiation.phase is Sending,
        call_ensures(Handshake::<C>::message_sent, (sent, outcome), a),
        outcome is Ok ==> *old(resumed) == *final(sent),
        outcome is Ok ==> call_ensures(Handshake::<C>::resume, (resumed,), b),
    ensures
        outcome is Ok ==> {
            &&& a == Ok::<_, RtcPeerConnectionError>(
                HandshakeAction::Negotiate(NegotiationAction::Yield),
            )
            &&& b == Ok::<_, RtcPeerConnectionError>(
                HandshakeAction::Negotiate(NegotiationAction::Poll),
            )
            &&& final(resumed)@.negotiation.phase is Polling
            &&& final(resumed)@.negotiation.kept == old(sent)@.negotiation.kept
            &&& final(resumed)@.channels == old(sent)@.channels
        },
        outcome matches Err(e) ==> {
            &&& a == Err::<HandshakeAction, _>(e)
            &&& final(sent)@ == old(sent)@
        },
{
}

} // verus!
