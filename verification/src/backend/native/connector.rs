//! The way from a request to open channels.
use crate::backend::native::channel::RtcDataChannel;
use crate::backend::native::config::{or_else, text_of, DataChannelInit};
use crate::backend::native::description::{is_description, RemoteDescription};
use crate::backend::native::handlers::{Notification, Opened, RtcDataChannelEventHandlers};
use crate::backend::ordering::{is_ordered, mismatch, mismatch_text, order_channels};
use crate::channel::{can_be_numbered, duplicate_id_text, wanted, RtcDataChannelBuilder};
use crate::channel_ids::has_duplicate;
use crate::delivery::Delivery;
use crate::drain::{drain_where, judged, law_drain_keeps_every_item, picked};
use crate::error::{PeerErrorView, RtcPeerConnectionError};
use crate::message::RtcNegotiationMessage;
use crate::negotiation::{
    fresh, step, Negotiation, NegotiationAction, NegotiationEvent, NegotiationView,
    PhaseView, Received, Reply, RtcNegotiationNotification, Step,
};
use crate::peer::{are_numbered_from, channels_are_numbered, PeerConnectionView, RtcPeerConnection};
use crate::queue::{
    first_end, further_end, one_more, split, Drawn, Inbox, Outbox, Polled, Sent,
};
use crate::sdp::parsed_sdp;
use vstd::prelude::*;

verus! {

/// A channel that is to be made: its name, its callbacks and its options.
pub struct ChannelRequest {
    pub label: String,
    pub handlers: RtcDataChannelEventHandlers,
    pub init: DataChannelInit,
}

/// What the driver of a connection is to do next.
pub enum ConnectorAction {
    /// Make this channel.
    CreateChannel(ChannelRequest),
    /// Go on negotiating.
    Negotiate(NegotiationAction<RemoteDescription>),
    /// Every channel is open: put them in order.
    Accept,
    /// The callbacks are gone, so nothing more can happen.
    Disconnected,
}

/// A connection in the making. `H` is the network stack's hold on a channel.
pub struct RtcPeerConnector<H> {
    builder: RtcPeerConnection,
    negotiation_send: Outbox<Notification>,
    negotiation_recv: Inbox<Notification>,
    pending: Vec<H>,
    channels: Vec<RtcDataChannel<H>>,
    negotiation: Negotiation,
}

/// A connection in the making, by its parts.
#[verifier::ext_equal]
pub struct ConnectorView<H> {
    /// What was asked for, with every channel numbered.
    pub builder: PeerConnectionView,
    /// Where notifications arrive, with what every look for one has found.
    pub inbox: Drawn<Notification>,
    /// The end of that queue from which those of the channels' callbacks are split off.
    pub outbox: Sent<Notification>,
    /// The channels that are made and not open yet.
    pub pending: Seq<H>,
    /// The channels that are open, in the order in which they opened.
    pub channels: Seq<RtcDataChannel<H>>,
    /// Where the negotiation is.
    pub negotiation: NegotiationView,
}

impl<H> ConnectorView<H> {
    /// How many channels were asked for.
    pub open spec fn total(self) -> nat {
        self.builder.channels.len()
    }

    /// What every connection in the making keeps: the channels are numbered, each once;
    /// what their callbacks post arrives; no more channels are made than were asked for;
    /// nothing is negotiated before all are made, nor once all are open; and no answer is
    /// owed, since the network stack answers by itself.
    pub open spec fn well_formed(self) -> bool {
        &&& channels_are_numbered(self.builder.channels)
        &&& self.outbox.line == self.inbox.line
        &&& answers_nothing(self.negotiation)
        &&& self.pending.len() + self.channels.len() <= self.total()
        &&& self.channels.len() > 0 ==> self.all_made()
        &&& !(self.negotiation.phase is Polling) ==> self.all_made() && self.channels.len()
            < self.total()
    }

    /// Every channel that was asked for is made.
    pub open spec fn all_made(self) -> bool {
        self.pending.len() + self.channels.len() == self.total()
    }

    /// The next thing is a look for a notification.
    pub open spec fn polls(self) -> bool {
        &&& self.all_made()
        &&& self.channels.len() < self.total()
        &&& self.negotiation.phase is Polling
    }

    /// The same, after a look for a notification has found this.
    pub open spec fn having_seen(self, found: Polled<Notification>) -> Self {
        ConnectorView { inbox: Drawn { seen: self.inbox.seen.push(found), ..self.inbox }, ..self }
    }
}

impl<H> View for RtcPeerConnector<H> {
    type V = ConnectorView<H>;

    closed spec fn view(&self) -> ConnectorView<H> {
        ConnectorView {
            builder: self.builder@,
            inbox: self.negotiation_recv@,
            outbox: self.negotiation_send@,
            pending: self.pending@,
            channels: self.channels@,
            negotiation: self.negotiation@,
        }
    }
}

/// The negotiation is not about to make an answer.
pub open spec fn answers_nothing(s: NegotiationView) -> bool {
    match s.phase {
        PhaseView::Describing(reply) => reply is Nothing,
        PhaseView::Adding(_, reply) => reply is Nothing,
        PhaseView::Answering | PhaseView::Committing(_) => false,
        _ => true,
    }
}

/// What is to be done for a channel that was asked for.
/// Its callbacks post into this queue.
pub open spec fn is_request(
    request: ChannelRequest,
    channel: RtcDataChannelBuilder,
    line: int,
) -> bool {
    let x = channel@.configuration;
    &&& request.label@ == channel@.label
    &&& request.handlers.well_formed()
    &&& request.handlers@.id == x.id->0
    &&& request.handlers@.announcing == Some(further_end::<Notification>(line))
    &&& request.handlers@.delivered == first_end::<Delivery>(request.handlers@.delivered.line)
    &&& request.init.protocol@ == or_else(text_of(x.protocol), Seq::empty())
    &&& request.init.unordered == !or_else(x.ordered, true)
    &&& request.init.unreliable == !or_else(x.ordered, true)
    &&& request.init.max_packet_life_time == or_else(x.max_packet_life_time, 0)
    &&& request.init.max_retransmits == or_else(x.max_retransmits, 0)
    &&& request.init.negotiated == or_else(x.negotiated, false)
    &&& request.init.manual_stream == or_else(x.negotiated, false)
    &&& request.init.stream == x.id->0
}

/// While channels are being made, the next one that was asked for is made; then the
/// negotiation begins, if there is anything to negotiate about. The callbacks of a channel
/// take along one further end of the queue of notifications; nothing else is touched.
pub open spec fn is_next_after_creation<H>(
    before: ConnectorView<H>,
    after: ConnectorView<H>,
    a: ConnectorAction,
) -> bool {
    if before.pending.len() < before.total() {
        &&& a matches ConnectorAction::CreateChannel(request) && is_request(
            request,
            before.builder.channels[before.pending.len() as int],
            before.inbox.line,
        )
        &&& after == (ConnectorView { outbox: split(before.outbox), ..before })
    } else {
        &&& after == before
        &&& if before.total() > 0 {
            a matches ConnectorAction::Negotiate(NegotiationAction::Poll)
        } else {
            a matches ConnectorAction::Accept
        }
    }
}

/// What comes of the news that channel `id` has opened: the one channel with that number
/// among those still pending is open, and messages arrive in `inbox`. It is an error if no
/// pending channel has that number, or several do.
pub open spec fn is_opening<H, F: Fn(&H) -> u16, L: Fn(&H) -> String>(
    before: ConnectorView<H>,
    opened: Opened,
    stream_of: F,
    label_of: L,
    after: ConnectorView<H>,
    r: Result<ConnectorAction, RtcPeerConnectionError>,
) -> bool {
    exists|ids: Seq<u16>| #[trigger]
        is_opening_by(before, opened, stream_of, ids, label_of, after, r)
}

/// The verdicts on the pending channels, by the numbers read off them.
pub open spec fn verdicts_by(ids: Seq<u16>, id: u16) -> Seq<bool> {
    Seq::new(ids.len(), |i: int| ids[i] == id)
}

/// As `is_opening`, where `ids` are the numbers read off the pending channels.
pub open spec fn is_opening_by<H, F: Fn(&H) -> u16, L: Fn(&H) -> String>(
    before: ConnectorView<H>,
    opened: Opened,
    stream_of: F,
    ids: Seq<u16>,
    label_of: L,
    after: ConnectorView<H>,
    r: Result<ConnectorAction, RtcPeerConnectionError>,
) -> bool {
    let found = picked(before.pending, verdicts_by(ids, opened.0), true);
    &&& ids.len() == before.pending.len()
    &&& forall|i: int|
        0 <= i < ids.len() ==> call_ensures(stream_of, (&before.pending[i],), #[trigger] ids[i])
    &&& r is Ok <==> found.len() == 1
    &&& r matches Err(e) ==> {
        &&& e@ == PeerErrorView::DataChannelMismatch(mismatch_text())
        &&& after == (ConnectorView {
            pending: picked(before.pending, verdicts_by(ids, opened.0), false),
            ..before
        })
    }
    &&& r matches Ok(a) ==> {
        &&& after.builder == before.builder
        &&& after.inbox == before.inbox
        &&& after.outbox == before.outbox
        &&& after.pending == picked(before.pending, verdicts_by(ids, opened.0), false)
        &&& one_more(before.channels, after.channels)
        &&& after.channels.last()@.handle == found[0]
        &&& after.channels.last()@.inbox == opened.1@
        &&& after.channels.last()@.state is Open
        &&& exists|label: String| #[trigger]
            call_ensures(label_of, (&found[0],), label) && after.channels.last()@.label == label@
        &&& after.negotiation == fresh()
        &&& if after.channels.len() < after.total() {
            a matches ConnectorAction::Negotiate(NegotiationAction::Poll)
        } else {
            a matches ConnectorAction::Accept
        }
    }
}

/// What comes of a notification.
pub open spec fn is_notified<H, F: Fn(&H) -> u16, L: Fn(&H) -> String>(
    before: ConnectorView<H>,
    notification: Notification,
    stream_of: F,
    label_of: L,
    after: ConnectorView<H>,
    r: Result<ConnectorAction, RtcPeerConnectionError>,
) -> bool {
    match notification {
        RtcNegotiationNotification::SendMessage(m) => {
            &&& r matches Ok(ConnectorAction::Negotiate(a)) && step(
                before.negotiation,
                NegotiationEvent::<RemoteDescription>::Relay(m),
            ) == Step::Act(after.negotiation, a)
            &&& after == (ConnectorView { negotiation: after.negotiation, ..before })
        },
        RtcNegotiationNotification::DataChannelOpened(opened) => is_opening(
            before,
            opened,
            stream_of,
            label_of,
            after,
            r,
        ),
        RtcNegotiationNotification::Failed(e) => {
            &&& r == Err::<ConnectorAction, _>(e)
            &&& after == before
        },
    }
}

/// What comes of a look for a notification.
pub open spec fn is_polled<H, F: Fn(&H) -> u16, L: Fn(&H) -> String>(
    before: ConnectorView<H>,
    found: Polled<Notification>,
    stream_of: F,
    label_of: L,
    after: ConnectorView<H>,
    r: Result<ConnectorAction, RtcPeerConnectionError>,
) -> bool {
    match found {
        Polled::Item(notification) => is_notified(
            before,
            notification,
            stream_of,
            label_of,
            after,
            r,
        ),
        Polled::Empty => {
            &&& r matches Ok(ConnectorAction::Negotiate(a)) && step(
                before.negotiation,
                NegotiationEvent::<RemoteDescription>::Idle,
            ) == Step::Act(after.negotiation, a)
            &&& after == (ConnectorView { negotiation: after.negotiation, ..before })
        },
        Polled::Closed => {
            &&& r matches Ok(ConnectorAction::Disconnected)
            &&& after == before
        },
    }
}

/// A step of the negotiation moves nothing else, and a failure moves nothing at all.
pub open spec fn negotiates<H>(
    before: ConnectorView<H>,
    event: NegotiationEvent<RemoteDescription>,
    after: ConnectorView<H>,
    r: Result<ConnectorAction, RtcPeerConnectionError>,
) -> bool {
    match r {
        Ok(a) => {
            &&& a matches ConnectorAction::Negotiate(x) && step(before.negotiation, event)
                == Step::Act(after.negotiation, x)
            &&& after == (ConnectorView { negotiation: after.negotiation, ..before })
        },
        Err(e) => {
            &&& step(before.negotiation, event) == Step::<RemoteDescription>::Fail(e)
            &&& after == before
        },
    }
}

/// Wraps an action of the negotiation.
fn negotiate_next(r: Result<NegotiationAction<RemoteDescription>, RtcPeerConnectionError>) -> (x:
    Result<ConnectorAction, RtcPeerConnectionError>)
    ensures
        match r {
            Ok(a) => x == Ok::<_, RtcPeerConnectionError>(ConnectorAction::Negotiate(a)),
            Err(e) => x == Err::<ConnectorAction, _>(e),
        },
{
    match r {
        Ok(a) => Ok(ConnectorAction::Negotiate(a)),
        Err(e) => Err(e),
    }
}

impl<H> RtcPeerConnector<H> {
    /// Begins a connection, by whether the network stack could be set up. The queue's two
    /// ends are those of which another sending end went into the connection's callbacks.
    pub fn connect(
        builder: RtcPeerConnection,
        negotiation_send: Outbox<Notification>,
        negotiation_recv: Inbox<Notification>,
        creation: Result<(), String>,
    ) -> (r: Result<Self, RtcPeerConnectionError>)
        requires
            negotiation_send@.line == negotiation_recv@.line,
            creation is Ok && !has_duplicate(wanted(builder@.channels)) ==> can_be_numbered(
                builder@.channels,
            ),
        ensures
            r is Ok <==> creation is Ok && !has_duplicate(wanted(builder@.channels)),
            creation matches Err(x) ==> r == Err::<Self, _>(RtcPeerConnectionError::Creation(x)),
            creation is Ok ==> (r matches Err(e) ==> e@ == PeerErrorView::Creation(
                duplicate_id_text(),
            )),
            r matches Ok(c) ==> {
                &&& c@.well_formed()
                &&& c@.builder.configuration == builder@.configuration
                &&& c@.builder.attempt == builder@.attempt
                &&& are_numbered_from(c@.builder.channels, builder@.channels)
                &&& c@.inbox == negotiation_recv@
                &&& c@.outbox == negotiation_send@
                &&& c@.pending == Seq::<H>::empty()
                &&& c@.channels == Seq::<RtcDataChannel<H>>::empty()
                &&& c@.negotiation == fresh()
            },
    {
        match creation {
            Ok(()) => {
                let mut builder = builder;
                match builder.assign_channel_ids() {
                    Ok(()) => Ok(
                        RtcPeerConnector {
                            builder,
                            negotiation_send,
                            negotiation_recv,
                            pending: Vec::new(),
                            channels: Vec::new(),
                            negotiation: Negotiation::new(),
                        },
                    ),
                    Err(e) => Err(e),
                }
            },
            Err(x) => Err(RtcPeerConnectionError::Creation(x)),
        }
    }

    /// What to do after the channels that are made already.
    pub fn initialize_channels(&mut self) -> (r: ConnectorAction)
        requires
            old(self)@.well_formed(),
            old(self)@.channels.len() == 0,
        ensures
            final(self)@.well_formed(),
            is_next_after_creation(old(self)@, final(self)@, r),
    {
        let made: usize = self.pending.len();
        let channels = self.builder.channels();
        if made < channels.len() {
            let channel = &channels[made];
            let configuration = channel.configuration();
            assert(self@.builder.channels[made as int]@.configuration.id is Some);
            let id: u16 = configuration.id.unwrap();
            ConnectorAction::CreateChannel(
                ChannelRequest {
                    label: channel.label().to_string(),
                    handlers: RtcDataChannelEventHandlers::new(id, self.negotiation_send.another()),
                    init: DataChannelInit::from(configuration),
                },
            )
        } else if channels.len() > 0 {
            ConnectorAction::Negotiate(NegotiationAction::Poll)
        } else {
            ConnectorAction::Accept
        }
    }

    /// A channel was made, or was refused with this text.
    pub fn channel_created(&mut self, outcome: Result<H, String>) -> (r: Result<
        ConnectorAction,
        RtcPeerConnectionError,
    >)
        requires
            old(self)@.well_formed(),
            old(self)@.pending.len() < old(self)@.total(),
            old(self)@.channels.len() == 0,
        ensures
            final(self)@.well_formed(),
            match outcome {
                Ok(handle) => r matches Ok(a) && is_next_after_creation(
                    (ConnectorView { pending: old(self)@.pending.push(handle), ..old(self)@ }),
                    final(self)@,
                    a,
                ),
                Err(x) => {
                    &&& r == Err::<ConnectorAction, _>(RtcPeerConnectionError::Creation(x))
                    &&& final(self)@ == old(self)@
                },
            },
    {
        match outcome {
            Ok(handle) => {
                self.pending.push(handle);
                Ok(self.initialize_channels())
            },
            Err(x) => Err(RtcPeerConnectionError::Creation(x)),
        }
    }

    /// A channel has opened.
    fn channel_opened<F: Fn(&H) -> u16 + Copy, L: Fn(&H) -> String>(
        &mut self,
        opened: Opened,
        stream_of: F,
        label_of: L,
    ) -> (r: Result<ConnectorAction, RtcPeerConnectionError>)
        requires
            old(self)@.well_formed(),
            old(self)@.polls(),
            forall|h: H| call_requires(stream_of, (&h,)),
            forall|h: H| call_requires(label_of, (&h,)),
        ensures
            r is Ok ==> final(self)@.well_formed(),
            is_opening(old(self)@, opened, stream_of, label_of, final(self)@, r),
    {
        let (id, inbox) = opened;
        let ghost before = self@;
        let pred = |h: &H| -> (b: bool)
            requires
                call_requires(stream_of, (h,)),
            ensures
                exists|x: u16| #[trigger] call_ensures(stream_of, (h,), x) && b == (x == id),
            { stream_of(h) == id };
        let mut found: Vec<H> = drain_where(&mut self.pending, pred);
        let ghost verdicts = choose|verdicts: Seq<bool>| #[trigger]
            judged(pred, before.pending, verdicts) && found@ == picked(
                before.pending,
                verdicts,
                true,
            ) && self.pending@ == picked(before.pending, verdicts, false);
        let ghost ids = Seq::new(
            before.pending.len(),
            |i: int|
                choose|x: u16| #[trigger]
                    call_ensures(stream_of, (&before.pending[i],), x) && verdicts[i] == (x == id),
        );
        let ghost found_at_first = found@;
        proof {
            assert forall|i: int| 0 <= i < ids.len() implies call_ensures(
                stream_of,
                (&before.pending[i],),
                #[trigger] ids[i],
            ) && verdicts[i] == (ids[i] == id) by {
                assert(call_ensures(pred, (&before.pending[i],), verdicts[i]));
            }
            assert(verdicts_by(ids, id) =~= verdicts);
        }
        if found.len() != 1 {
            let r = Err(mismatch());
            assert(is_opening_by(before, opened, stream_of, ids, label_of, self@, r));
            return r;
        }
        let handle = found.pop().unwrap();
        let label = label_of(&handle);
        let ghost channels_before = self.channels@;
        self.channels.push(RtcDataChannel::new(handle, label, inbox));
        self.negotiation = Negotiation::new();
        let r = if self.channels.len() < self.builder.channels().len() {
            Ok(ConnectorAction::Negotiate(NegotiationAction::Poll))
        } else {
            Ok(ConnectorAction::Accept)
        };
        proof {
            assert(handle == found_at_first[0]);
            assert(self.channels@.drop_last() =~= channels_before);
            assert(call_ensures(label_of, (&found_at_first[0],), label));
            assert(is_opening_by(before, opened, stream_of, ids, label_of, self@, r));
            law_drain_keeps_every_item(before.pending, verdicts);
        }
        r
    }

    /// Acts on what a look for a notification has found. `stream_of` and `label_of` read
    /// the number and the name of a channel off the network stack.
    pub fn polled<F: Fn(&H) -> u16 + Copy, L: Fn(&H) -> String>(
        &mut self,
        found: Polled<Notification>,
        stream_of: F,
        label_of: L,
    ) -> (r: Result<ConnectorAction, RtcPeerConnectionError>)
        requires
            old(self)@.well_formed(),
            old(self)@.polls(),
            forall|h: H| call_requires(stream_of, (&h,)),
            forall|h: H| call_requires(label_of, (&h,)),
        ensures
            r is Ok ==> final(self)@.well_formed(),
            is_polled(old(self)@, found, stream_of, label_of, final(self)@, r),
    {
        match found {
            Polled::Item(RtcNegotiationNotification::SendMessage(m)) => Ok(
                ConnectorAction::Negotiate(self.negotiation.relay(m)),
            ),
            Polled::Item(RtcNegotiationNotification::DataChannelOpened(opened)) =>
                self.channel_opened(opened, stream_of, label_of),
            Polled::Item(RtcNegotiationNotification::Failed(e)) => Err(e),
            Polled::Empty => Ok(ConnectorAction::Negotiate(self.negotiation.idle())),
            Polled::Closed => Ok(ConnectorAction::Disconnected),
        }
    }

    /// Looks for a notification and acts on it.
    pub fn negotiate<F: Fn(&H) -> u16 + Copy, L: Fn(&H) -> String>(
        &mut self,
        stream_of: F,
        label_of: L,
    ) -> (r: Result<ConnectorAction, RtcPeerConnectionError>)
        requires
            old(self)@.well_formed(),
            old(self)@.polls(),
            forall|h: H| call_requires(stream_of, (&h,)),
            forall|h: H| call_requires(label_of, (&h,)),
        ensures
            r is Ok ==> final(self)@.well_formed(),
            exists|found: Polled<Notification>| #[trigger]
                is_polled(
                    old(self)@.having_seen(found),
                    found,
                    stream_of,
                    label_of,
                    final(self)@,
                    r,
                ),
    {
        let ghost before = self@;
        let found = self.negotiation_recv.poll();
        assert(self@ =~= before.having_seen(found));
        self.polled(found, stream_of, label_of)
    }

    /// A message to the other peer was sent, or could not be.
    pub fn message_sent(&mut self, outcome: Result<(), RtcPeerConnectionError>) -> (r: Result<
        ConnectorAction,
        RtcPeerConnectionError,
    >)
        requires
            old(self)@.well_formed(),
            old(self)@.negotiation.phase is Sending,
        ensures
            r is Ok ==> final(self)@.well_formed(),
            negotiates(old(self)@, NegotiationEvent::Sent(outcome), final(self)@, r),
    {
        negotiate_next(self.negotiation.message_sent(outcome))
    }

    /// The other peer has sent a message, or nothing, or cannot be heard.
    pub fn message_received(
        &mut self,
        outcome: Result<Option<RtcNegotiationMessage>, RtcPeerConnectionError>,
    ) -> (r: Result<ConnectorAction, RtcPeerConnectionError>)
        requires
            old(self)@.well_formed(),
            old(self)@.negotiation.phase is Receiving,
        ensures
            r is Ok ==> final(self)@.well_formed(),
            negotiates(old(self)@, NegotiationEvent::Received(outcome), final(self)@, r),
    {
        negotiate_next(self.negotiation.message_received(outcome))
    }

    /// Decides about the message that has come, by whether the other side's description is
    /// in place already. A first description is parsed and handed to the network stack.
    pub fn receive_negotiation_message(&mut self, has_remote_description: bool) -> (r: Result<
        ConnectorAction,
        RtcPeerConnectionError,
    >)
        requires
            old(self)@.well_formed(),
            old(self)@.negotiation.phase is Checking,
        ensures
            r is Ok ==> final(self)@.well_formed(),
            match step(
                old(self)@.negotiation,
                NegotiationEvent::<RemoteDescription>::Checked(has_remote_description),
            ) {
                Step::Act(_, _) => negotiates(
                    old(self)@,
                    NegotiationEvent::Checked(has_remote_description),
                    final(self)@,
                    r,
                ),
                Step::Describe(preparing, d) => exists|
                    prepared: Result<RemoteDescription, RtcPeerConnectionError>,
                |
                    #[trigger] is_description(d.sdp_type@, parsed_sdp(d.sdp@, false), prepared)
                        && match prepared {
                        Ok(p) => negotiates(
                            ConnectorView { negotiation: preparing, ..old(self)@ },
                            NegotiationEvent::Prepared(p, Reply::Nothing),
                            final(self)@,
                            r,
                        ),
                        Err(e) => {
                            &&& r == Err::<ConnectorAction, _>(e)
                            &&& final(self)@ == (ConnectorView {
                                negotiation: preparing,
                                ..old(self)@
                            })
                        },
                    },
                _ => false,
            },
    {
        match self.negotiation.receive_negotiation_message(has_remote_description) {
            Received::Act(a) => Ok(ConnectorAction::Negotiate(a)),
            Received::Describe(d) => match RemoteDescription::parse(&d) {
                Ok(p) => Ok(
                    ConnectorAction::Negotiate(
                        self.negotiation.describe(p, Reply::Nothing),
                    ),
                ),
                Err(e) => Err(e),
            },
        }
    }

    /// The other side's description is in place, or was refused with this text.
    pub fn remote_description_set(&mut self, outcome: Result<(), String>) -> (r: Result<
        ConnectorAction,
        RtcPeerConnectionError,
    >)
        requires
            old(self)@.well_formed(),
            old(self)@.negotiation.phase is Describing,
        ensures
            r is Ok ==> final(self)@.well_formed(),
            negotiates(old(self)@, NegotiationEvent::Described(outcome), final(self)@, r),
    {
        negotiate_next(self.negotiation.remote_description_set(outcome))
    }

    /// A candidate of the other side was added, or was refused with this text.
    pub fn add_remote_candidate(&mut self, outcome: Result<(), String>) -> (r: Result<
        ConnectorAction,
        RtcPeerConnectionError,
    >)
        requires
            old(self)@.well_formed(),
            old(self)@.negotiation.phase is Adding,
        ensures
            r is Ok ==> final(self)@.well_formed(),
            negotiates(old(self)@, NegotiationEvent::Added(outcome), final(self)@, r),
    {
        negotiate_next(self.negotiation.candidate_added(outcome))
    }

    /// Puts the open channels into the order in which they were asked for; `id_of` reads the
    /// number of a channel off the network stack.
    pub fn accept_connection<F: Fn(&RtcDataChannel<H>) -> u16 + Copy>(self, id_of: F) -> (r: Result<
        Vec<RtcDataChannel<H>>,
        RtcPeerConnectionError,
    >)
        requires
            self@.well_formed(),
            forall|c: RtcDataChannel<H>| call_requires(id_of, (&c,)),
        ensures
            is_ordered(self@.channels, self@.builder.channels, id_of, r),
    {
        order_channels(self.channels, self.builder.channels(), id_of)
    }

    /// Other work has run.
    pub fn resume(&mut self) -> (r: Result<ConnectorAction, RtcPeerConnectionError>)
        requires
            old(self)@.well_formed(),
            old(self)@.negotiation.phase is Yielding,
        ensures
            r is Ok ==> final(self)@.well_formed(),
            negotiates(old(self)@, NegotiationEvent::Resumed, final(self)@, r),
    {
        Ok(ConnectorAction::Negotiate(self.negotiation.resume()))
    }
}

} // verus!
