//! The stack of an ordinary program: `webrtc`.
use crate::backend::handshake::{beginning, is_made, Handshake, HandshakeAction, HandshakeView};
use crate::backend::init::{is_request, ChannelRequest};
use crate::backend::ordering::{mismatch, mismatch_text};
use crate::channel::{can_be_numbered, wanted};
use crate::channel_ids::has_duplicate;
use crate::claim::{
    claim_in_order, claimed, decides, has_own_item, is_owned, items_of, keys_are_apart,
    law_each_key_gets_its_own_item, law_granted_items_belong, law_one_item_belongs,
    law_order_of_items_has_no_influence,
};
use crate::delivery::{
    handed_out, looks, looks_beside, next_message, next_message_beside, Delivery,
};
use crate::error::{ChannelErrorView, PeerErrorView, RtcDataChannelError, RtcPeerConnectionError};
use crate::message::{RtcIceCandidate, RtcNegotiationMessage};
use crate::negotiation::RtcNegotiationNotification;
use crate::peer::{are_numbered_from, PeerConnectionView, RtcPeerConnection};
use crate::queue::{
    feeds, first_end, found, further_end, is_over, queue, split, takes, takes_one, Drawn, Inbox,
    Outbox, Polled, Sent,
};
use vstd::prelude::*;

verus! {

/// The callbacks of a connection. `C` is an open channel.
#[verifier::reject_recursive_types(C)]
pub struct RtcPeerConnectionEventHandlers<C> {
    negotiation_send: Outbox<RtcNegotiationNotification<C>>,
}

impl<C> View for RtcPeerConnectionEventHandlers<C> {
    type V = Sent<RtcNegotiationNotification<C>>;

    /// What has been passed on.
    closed spec fn view(&self) -> Sent<RtcNegotiationNotification<C>> {
        self.negotiation_send@
    }
}

impl<C> RtcPeerConnectionEventHandlers<C> {
    pub fn new(negotiation_send: Outbox<RtcNegotiationNotification<C>>) -> (r: Self)
        ensures
            r@ == negotiation_send@,
    {
        RtcPeerConnectionEventHandlers { negotiation_send }
    }

    /// The same callbacks for another closure.
    pub fn another(&mut self) -> (r: Self)
        ensures
            r@ == further_end::<RtcNegotiationNotification<C>>(old(self)@.line),
            final(self)@ == split(old(self)@),
    {
        RtcPeerConnectionEventHandlers { negotiation_send: self.negotiation_send.another() }
    }

    /// This side has found a candidate: the other peer is told. That all are found is not
    /// passed on.
    pub fn on_ice_candidate(&mut self, found: Option<RtcIceCandidate>)
        ensures
            match found {
                Some(c) => takes(
                    old(self)@,
                    final(self)@,
                    RtcNegotiationNotification::SendMessage(
                        RtcNegotiationMessage::RemoteCandidate(c),
                    ),
                ),
                None => final(self)@ == old(self)@,
            },
    {
        if let Some(c) = found {
            self.negotiation_send.post(
                RtcNegotiationNotification::SendMessage(RtcNegotiationMessage::RemoteCandidate(c)),
            );
        }
    }

    /// A channel is open: the negotiation is told.
    pub fn on_open(&mut self, channel: C)
        ensures
            takes(
                old(self)@,
                final(self)@,
                RtcNegotiationNotification::DataChannelOpened(channel),
            ),
    {
        self.negotiation_send.post(RtcNegotiationNotification::DataChannelOpened(channel));
    }
}

/// The callbacks of a channel.
pub struct RtcDataChannelEventHandlers {
    message_send: Outbox<Delivery>,
}

impl View for RtcDataChannelEventHandlers {
    type V = Sent<Delivery>;

    /// What the channel's owner was told.
    closed spec fn view(&self) -> Sent<Delivery> {
        self.message_send@
    }
}

impl RtcDataChannelEventHandlers {
    /// The end of the queue through which everything is delivered.
    fn end(&self) -> (r: &Outbox<Delivery>)
        ensures
            r@ == self@,
    {
        &self.message_send
    }

    /// A message has come: its owner gets it.
    pub fn on_message(&mut self, data: Vec<u8>)
        ensures
            takes(old(self)@, final(self)@, Ok(data)),
    {
        self.message_send.post(Ok(data));
    }

    /// The channel is closed: its owner is told.
    pub fn on_close(&mut self)
        ensures
            takes_one(old(self)@, final(self)@),
            final(self)@.items.last() matches Err(e) && e@ == ChannelErrorView::Receive(
                "Channel closed."@,
            ),
    {
        self.message_send.post(Err(RtcDataChannelError::Receive("Channel closed.".to_string())));
    }

    /// The channel has failed, with this text: its owner is told.
    pub fn on_error(&mut self, err: String)
        ensures
            takes(old(self)@, final(self)@, Err(RtcDataChannelError::Receive(err))),
    {
        self.message_send.post(Err(RtcDataChannelError::Receive(err)));
    }
}

/// An open channel. `H` is the network stack's hold on it.
pub struct RtcDataChannel<H> {
    handle: H,
    message_recv: Inbox<Delivery>,
}

/// An open channel, by its parts; `inbox` is where its messages arrive, with what every
/// look for one has found.
pub struct DataChannelView<H> {
    pub handle: H,
    pub inbox: Drawn<Delivery>,
}

impl<H> View for RtcDataChannel<H> {
    type V = DataChannelView<H>;

    closed spec fn view(&self) -> DataChannelView<H> {
        DataChannelView { handle: self.handle, inbox: self.message_recv@ }
    }
}

impl<H> RtcDataChannel<H> {
    /// A channel that has just opened, and its callbacks, which deliver into it.
    pub fn new(handle: H) -> (r: (Self, RtcDataChannelEventHandlers))
        ensures
            r.0@.handle == handle,
            r.0@.inbox.seen == Seq::<Polled<Delivery>>::empty(),
            r.1@ == first_end::<Delivery>(r.0@.inbox.line),
    {
        let (message_send, message_recv) = queue();
        (RtcDataChannel { handle, message_recv }, RtcDataChannelEventHandlers { message_send })
    }

    /// The network stack's hold on the channel.
    pub fn handle(&self) -> (r: &H)
        ensures
            *r == self@.handle,
    {
        &self.handle
    }

    /// A message was sent, or was refused with this text.
    pub fn send(outcome: Result<(), String>) -> (r: Result<(), RtcDataChannelError>)
        ensures
            r == (match outcome {
                Ok(_) => Ok(()),
                Err(x) => Err(RtcDataChannelError::Send(x)),
            }),
    {
        match outcome {
            Ok(()) => Ok(()),
            Err(x) => Err(RtcDataChannelError::Send(x)),
        }
    }

    /// Looks for a message that is to be written somewhere: `Some(Ok(None))` if there is
    /// none yet, `None` if there never will be one.
    pub fn receive(&mut self) -> (r: Option<Result<Option<Vec<u8>>, RtcDataChannelError>>)
        ensures
            looks(old(self)@.inbox, final(self)@.inbox),
            r == handed_out(final(self)@.inbox.seen.last()),
            is_over(old(self)@.inbox.seen) ==> r is None,
            final(self)@.handle == old(self)@.handle,
    {
        next_message(&mut self.message_recv)
    }

    /// The length of the message is reported, whether or not it could be written.
    pub fn written(message: &Vec<u8>) -> (r: Result<Option<usize>, RtcDataChannelError>)
        ensures
            r == Ok::<_, RtcDataChannelError>(Some(message@.len() as usize)),
    {
        Ok(Some(message.len()))
    }

    /// Looks for a message: `Some(Ok(None))` if there is none yet, `None` if there never
    /// will be one.
    pub fn receive_vec(&mut self) -> (r: Option<Result<Option<Vec<u8>>, RtcDataChannelError>>)
        ensures
            looks(old(self)@.inbox, final(self)@.inbox),
            r == handed_out(final(self)@.inbox.seen.last()),
            is_over(old(self)@.inbox.seen) ==> r is None,
            final(self)@.handle == old(self)@.handle,
    {
        next_message(&mut self.message_recv)
    }

    /// As `receive_vec`, with the callbacks at hand, which deliver nothing meanwhile: where
    /// these are the channel's own, the first delivery that was not handed out yet is handed
    /// out, and `Some(Ok(None))` comes only if all were.
    pub fn receive_vec_beside(&mut self, callbacks: &RtcDataChannelEventHandlers) -> (r: Option<
        Result<Option<Vec<u8>>, RtcDataChannelError>,
    >)
        ensures
            looks(old(self)@.inbox, final(self)@.inbox),
            r == handed_out(final(self)@.inbox.seen.last()),
            is_over(old(self)@.inbox.seen) ==> r is None,
            feeds(callbacks@, old(self)@.inbox) ==> looks_beside(
                callbacks@,
                old(self)@.inbox,
                final(self)@.inbox,
            ),
            final(self)@.handle == old(self)@.handle,
    {
        next_message_beside(&mut self.message_recv, callbacks.end())
    }
}

/// What a connection asks for, and the channels that are made.
pub struct RtcPeerConnector<H> {
    builder: RtcPeerConnection,
    chans: Vec<H>,
}

/// What a connection asks for, and the network stack's holds on the channels that are
/// made, in the order of the request.
#[verifier::ext_equal]
pub struct ConnectorView<H> {
    pub builder: PeerConnectionView,
    pub chans: Seq<H>,
}

impl<H> View for RtcPeerConnector<H> {
    type V = ConnectorView<H>;

    closed spec fn view(&self) -> ConnectorView<H> {
        ConnectorView { builder: self.builder@, chans: self.chans@ }
    }
}

/// What the open channels come to: the one that belongs to each channel that was made, in
/// the order of the request, or an error if some channel that was made has not exactly one.
pub open spec fn is_accepted<C, H, F: Fn(&C, &H) -> bool>(
    channels: Seq<C>,
    chans: Seq<H>,
    same: F,
    r: Result<Vec<C>, RtcPeerConnectionError>,
) -> bool {
    &&& r matches Err(e) ==> e@ == PeerErrorView::DataChannelMismatch(mismatch_text())
    &&& r matches Ok(v) ==> {
        &&& v@.len() == chans.len()
        &&& forall|i: int|
            0 <= i < chans.len() ==> call_ensures(same, (&#[trigger] v@[i], &chans[i]), true)
    }
    &&& forall|belongs: spec_fn(C, H) -> bool| #[trigger]
        decides(same, belongs) ==> match r {
            Ok(v) => claimed(channels, chans, belongs) == Some(v@),
            Err(_) => claimed(channels, chans, belongs) is None,
        }
}

/// The order in which the channels opened has no influence on the result: the same open
/// channels in another order come to the same list, or to an error as well.
pub proof fn law_order_of_opening_has_no_influence<C, H, F: Fn(&C, &H) -> bool>(
    channels: Seq<C>,
    others: Seq<C>,
    chans: Seq<H>,
    same: F,
    belongs: spec_fn(C, H) -> bool,
    r: Result<Vec<C>, RtcPeerConnectionError>,
    s: Result<Vec<C>, RtcPeerConnectionError>,
)
    requires
        channels.to_multiset() == others.to_multiset(),
        decides(same, belongs),
        is_accepted(channels, chans, same, r),
        is_accepted(others, chans, same, s),
    ensures
        match (r, s) {
            (Ok(v), Ok(w)) => v@ == w@,
            (Err(_), Err(_)) => true,
            _ => false,
        },
{
    law_order_of_items_has_no_influence(channels, others, chans, belongs);
}

impl<H> RtcPeerConnector<H> {
    /// Begins a connection, by whether the network stack could be set up. Where two
    /// channels ask for the same number, the request goes out as it is.
    pub fn connect<C>(
        builder: RtcPeerConnection,
        negotiation_recv: Inbox<RtcNegotiationNotification<C>>,
        creation: Result<(), String>,
    ) -> (r: Result<(Self, Handshake<C>), RtcPeerConnectionError>)
        requires
            creation is Ok && !has_duplicate(wanted(builder@.channels)) ==> can_be_numbered(
                builder@.channels,
            ),
        ensures
            r is Ok <==> creation is Ok,
            creation matches Err(x) ==> r == Err::<(Self, Handshake<C>), _>(
                RtcPeerConnectionError::Creation(x),
            ),
            r matches Ok((c, h)) ==> {
                &&& c@.builder.configuration == builder@.configuration
                &&& c@.builder.attempt == builder@.attempt
                &&& c@.chans == Seq::<H>::empty()
                &&& if has_duplicate(wanted(builder@.channels)) {
                    c@.builder.channels == builder@.channels
                } else {
                    are_numbered_from(c@.builder.channels, builder@.channels)
                }
                &&& h@.well_formed()
                &&& h@ == beginning(builder@.channels.len(), builder@.attempt, negotiation_recv@)
            },
    {
        match creation {
            Ok(()) => {
                let mut builder = builder;
                let _ = builder.assign_channel_ids();
                let h = Handshake::new(
                    builder.channels().len(),
                    builder.attempt(),
                    negotiation_recv,
                );
                Ok((RtcPeerConnector { builder, chans: Vec::new() }, h))
            },
            Err(x) => Err(RtcPeerConnectionError::Creation(x)),
        }
    }

    /// The channel at this place of the request.
    pub fn channel_request(&self, i: usize) -> (r: ChannelRequest)
        requires
            i < self@.builder.channels.len(),
        ensures
            is_request(r, self@.builder.channels[i as int]),
    {
        ChannelRequest::from(&self.builder.channels()[i])
    }

    /// The next channel is made, or was refused with this text.
    pub fn channel_created<C>(
        &mut self,
        handshake: &mut Handshake<C>,
        outcome: Result<H, String>,
    ) -> (r: Result<HandshakeAction, RtcPeerConnectionError>)
        requires
            old(handshake)@.well_formed(),
            old(handshake)@.stage is Making,
            old(handshake)@.made < old(handshake)@.total,
        ensures
            final(handshake)@.well_formed(),
            match outcome {
                Ok(handle) => {
                    &&& final(self)@ == (ConnectorView {
                        chans: old(self)@.chans.push(handle),
                        ..old(self)@
                    })
                    &&& r matches Ok(a) && is_made(
                        (HandshakeView { made: old(handshake)@.made + 1, ..old(handshake)@ }),
                        final(handshake)@,
                        a,
                    )
                },
                Err(x) => {
                    &&& final(self)@ == old(self)@
                    &&& final(handshake)@ == old(handshake)@
                    &&& r == Err::<HandshakeAction, _>(RtcPeerConnectionError::Creation(x))
                },
            },
    {
        match outcome {
            Ok(handle) => {
                self.chans.push(handle);
                Ok(handshake.channel_created())
            },
            Err(x) => Err(RtcPeerConnectionError::Creation(x)),
        }
    }

    /// Puts the open channels into the order in which they were asked for; `same` says
    /// whether an open channel is one that was made.
    pub fn accept_connection<C, F: Fn(&C, &H) -> bool + Copy>(&self, channels: Vec<C>, same: F) -> (r:
        Result<Vec<C>, RtcPeerConnectionError>)
        requires
            forall|c: C, h: H| call_requires(same, (&c, &h)),
        ensures
            is_accepted(channels@, self@.chans, same, r),
    {
        match claim_in_order(channels, &self.chans, same) {
            Some(v) => Ok(v),
            None => Err(mismatch()),
        }
    }
}

/// Each open channel comes in the place of the channel that was made for it: what is handed
/// over at a place belongs to what was made there, is one of the open channels, and nothing is
/// handed over beyond that. Where no open channel belongs to two that were made, success is
/// owed exactly if each that was made has one open channel and no other, and it is that one.
pub proof fn law_channels_come_as_made<C, H, F: Fn(&C, &H) -> bool>(
    channels: Seq<C>,
    chans: Seq<H>,
    same: F,
    belongs: spec_fn(C, H) -> bool,
    r: Result<Vec<C>, RtcPeerConnectionError>,
)
    requires
        forall|c: C, h: H, b: bool| #[trigger]
            call_ensures(same, (&c, &h), b) ==> b == belongs(c, h),
        is_accepted(channels, chans, same, r),
    ensures
        r matches Ok(v) ==> {
            &&& v@.len() == chans.len()
            &&& forall|i: int|
                0 <= i < chans.len() ==> belongs(#[trigger] v@[i], chans[i]) && channels.contains(
                    v@[i],
                )
        },
        r matches Err(e) ==> e@ == PeerErrorView::DataChannelMismatch(
            "Data channel IDs did not match"@,
        ),
        keys_are_apart(chans, belongs) ==> (r is Ok <==> forall|i: int|
            0 <= i < chans.len() ==> has_own_item(channels, #[trigger] chans[i], belongs)),
        keys_are_apart(chans, belongs) ==> (r matches Ok(v) ==> forall|i: int, j: int|
            0 <= i < chans.len() && #[trigger] is_owned(channels, chans[i], belongs, j)
                ==> #[trigger] v@[i] == channels[j]),
{
    assert(decides(same, belongs));
    if r is Ok {
        law_granted_items_belong(channels, chans, belongs);
    }
    if keys_are_apart(chans, belongs) {
        law_each_key_gets_its_own_item(channels, chans, belongs);
        assert forall|i: int| 0 <= i < chans.len() implies (items_of(
            channels,
            #[trigger] chans[i],
            belongs,
        ).len() == 1 <==> has_own_item(channels, chans[i], belongs)) by {
            law_one_item_belongs(channels, chans[i], belongs);
        }
        if r is Ok {
            let v = r->Ok_0;
            assert forall|i: int, j: int|
                0 <= i < chans.len() && #[trigger] is_owned(
                    channels,
                    chans[i],
                    belongs,
                    j,
                ) implies #[trigger] v@[i] == channels[j] by {
                law_one_item_belongs(channels, chans[i], belongs);
                assert(v@[i] == items_of(channels, chans[i], belongs)[0]);
            }
        } else {
            let i = choose|i: int|
                0 <= i < chans.len() && items_of(channels, #[trigger] chans[i], belongs).len() != 1;
            assert(!has_own_item(channels, chans[i], belongs));
        }
    }
}

/// Every candidate that is found is passed on once, as it was found, behind what was passed on
/// before, and so is every channel that opens; that all candidates are found is not passed on.
pub proof fn law_candidates_and_channels_are_passed_on<C>(
    candidate: &mut RtcPeerConnectionEventHandlers<C>,
    c: RtcIceCandidate,
    end: &mut RtcPeerConnectionEventHandlers<C>,
    open: &mut RtcPeerConnectionEventHandlers<C>,
    channel: C,
)
    requires
        call_ensures(
            RtcPeerConnectionEventHandlers::<C>::on_ice_candidate,
            (candidate, Some(c)),
            (),
        ),
        *old(end) == *final(candidate),
        call_ensures(RtcPeerConnectionEventHandlers::<C>::on_ice_candidate, (end, None), ()),
        *old(open) == *final(end),
        call_ensures(RtcPeerConnectionEventHandlers::<C>::on_open, (open, channel), ()),
    ensures
        final(open)@.items == old(candidate)@.items.push(
            RtcNegotiationNotification::SendMessage(RtcNegotiationMessage::RemoteCandidate(c)),
        ).push(RtcNegotiationNotification::DataChannelOpened(channel)),
        final(open)@.line == old(candidate)@.line,
{
}

/// A channel's owner is told everything that happens, each once and in its order: a message as
/// it came, an error with its text, and the close.
pub proof fn law_everything_is_delivered_in_order(
    on_message: &mut RtcDataChannelEventHandlers,
    data: Vec<u8>,
    on_error: &mut RtcDataChannelEventHandlers,
    err: String,
    on_close: &mut RtcDataChannelEventHandlers,
)
    requires
        call_ensures(RtcDataChannelEventHandlers::on_message, (on_message, data), ()),
        *old(on_error) == *final(on_message),
        call_ensures(RtcDataChannelEventHandlers::on_error, (on_error, err), ()),
        *old(on_close) == *final(on_error),
        call_ensures(RtcDataChannelEventHandlers::on_close, (on_close,), ()),
    ensures
        ({
            let before = old(on_message)@.items;
            let after = final(on_close)@.items;
            &&& after.len() == before.len() + 3
            &&& after.drop_last() == before.push(Ok(data)).push(
                Err(RtcDataChannelError::Receive(err)),
            )
            &&& after.last() matches Err(RtcDataChannelError::Receive(x)) && x@
                == "Channel closed."@
        }),
        final(on_close)@.line == old(on_message)@.line,
{
}

/// A channel and its callbacks belong together: a message that comes is the next that is
/// received, where everything before it was received, and it is received as it came.
pub proof fn law_message_is_received<H>(
    callbacks: &mut RtcDataChannelEventHandlers,
    data: Vec<u8>,
    after: &RtcDataChannelEventHandlers,
    channel: &mut RtcDataChannel<H>,
    r: Option<Result<Option<Vec<u8>>, RtcDataChannelError>>,
)
    requires
        feeds(old(callbacks)@, old(channel)@.inbox),
        found(old(channel)@.inbox.seen) == old(callbacks)@.items,
        call_ensures(RtcDataChannelEventHandlers::on_message, (callbacks, data), ()),
        *after == *final(callbacks),
        call_ensures(RtcDataChannel::<H>::receive_vec_beside, (channel, after), r),
    ensures
        r == Some(Ok::<_, RtcDataChannelError>(Some(data))),
        found(final(channel)@.inbox.seen) == final(callbacks)@.items,
        final(channel)@.handle == old(channel)@.handle,
{
    let seen = old(channel)@.inbox.seen;
    assert(final(channel)@.inbox.seen == seen.push(Polled::Item(Ok(data))));
    assert(seen.push(Polled::Item(Ok(data))).drop_last() =~= seen);
}

/// A channel that has just opened has the hold that it was made with, and its callbacks feed
/// its queue, which is unused.
pub proof fn law_new_channel_hears_its_callbacks<H>(
    handle: H,
    made: (RtcDataChannel<H>, RtcDataChannelEventHandlers),
    hold: &H,
)
    requires
        call_ensures(RtcDataChannel::<H>::new, (handle,), made),
        call_ensures(RtcDataChannel::<H>::handle, (&made.0,), hold),
    ensures
        *hold == handle,
        feeds(made.1@, made.0@.inbox),
        made.1@.items.len() == 0,
        made.0@.inbox.seen.len() == 0,
{
}

/// A message that the stack takes is no error, one that it refuses is, with the stack's text;
/// what was written is reported by its length; and a look hands out what it finds.
pub proof fn law_outcomes_are_handed_on<H>(
    outcome: Result<(), String>,
    sent: Result<(), RtcDataChannelError>,
    message: &Vec<u8>,
    written: Result<Option<usize>, RtcDataChannelError>,
    channel: &mut RtcDataChannel<H>,
    r: Option<Result<Option<Vec<u8>>, RtcDataChannelError>>,
    other: &mut RtcDataChannel<H>,
    s: Option<Result<Option<Vec<u8>>, RtcDataChannelError>>,
)
    requires
        call_ensures(RtcDataChannel::<H>::send, (outcome,), sent),
        call_ensures(RtcDataChannel::<H>::written, (message,), written),
        call_ensures(RtcDataChannel::<H>::receive_vec, (channel,), r),
        call_ensures(RtcDataChannel::<H>::receive, (other,), s),
    ensures
        outcome is Ok ==> sent is Ok,
        outcome matches Err(x) ==> sent == Err::<(), _>(RtcDataChannelError::Send(x)),
        written matches Ok(Some(n)) && n == message@.len(),
        final(channel)@.inbox.seen.drop_last() == old(channel)@.inbox.seen,
        match final(channel)@.inbox.seen.last() {
            Polled::Item(Ok(m)) => r matches Some(Ok(Some(x))) && x == m,
            Polled::Item(Err(e)) => r matches Some(Err(x)) && x == e,
            Polled::Empty => r matches Some(Ok(None)),
            Polled::Closed => r is None,
        },
        final(channel)@.handle == old(channel)@.handle,
        final(other)@.inbox.seen.drop_last() == old(other)@.inbox.seen,
        match final(other)@.inbox.seen.last() {
            Polled::Item(Ok(m)) => s matches Some(Ok(Some(x))) && x == m,
            Polled::Item(Err(e)) => s matches Some(Err(x)) && x == e,
            Polled::Empty => s matches Some(Ok(None)),
            Polled::Closed => s is None,
        },
{
    assert(message.len() == message@.len());
}

/// A connection begins with the request as it was: where two channels ask for the same number
/// nothing of it is changed, and otherwise only numbers are given. Every channel is then
/// requested under its own label and options.
pub proof fn law_connection_begins_with_the_request<H, C>(
    builder: RtcPeerConnection,
    negotiation_recv: Inbox<RtcNegotiationNotification<C>>,
    creation: Result<(), String>,
    r: Result<(RtcPeerConnector<H>, Handshake<C>), RtcPeerConnectionError>,
    i: usize,
    request: ChannelRequest,
)
    requires
        creation is Ok && !has_duplicate(wanted(builder@.channels)) ==> can_be_numbered(
            builder@.channels,
        ),
        call_ensures(
            RtcPeerConnector::<H>::connect::<C>,
            (builder, negotiation_recv, creation),
            r,
        ),
        r is Ok && i < builder@.channels.len() ==> call_ensures(
            RtcPeerConnector::<H>::channel_request,
            (&(r->Ok_0).0, i),
            request,
        ),
    ensures
        r is Ok <==> creation is Ok,
        creation matches Err(x) ==> (r matches Err(e) && e == RtcPeerConnectionError::Creation(x)),
        r matches Ok((c, h)) ==> {
            &&& c@.chans.len() == 0
            &&& h@.total == builder@.channels.len()
            &&& h@.made == 0
            &&& h@.offers <==> builder@.attempt is Offer
            &&& h@.inbox == negotiation_recv@
            &&& c@.builder.configuration == builder@.configuration
            &&& c@.builder.attempt == builder@.attempt
            &&& i < builder@.channels.len() ==> {
                let x = builder@.channels[i as int]@;
                &&& request.label@ == x.label
                &&& request.init.max_packet_life_time == x.configuration.max_packet_life_time
                &&& request.init.max_retransmits == x.configuration.max_retransmits
                &&& request.init.protocol == x.configuration.protocol
                &&& x.configuration.id is Some ==> request.init.id == x.configuration.id
                    && request.init.negotiated == x.configuration.negotiated
                &&& x.configuration.id is None && !has_duplicate(wanted(builder@.channels))
                    ==> request.init.id is Some && request.init.negotiated == Some(true)
                &&& x.configuration.id is None && has_duplicate(wanted(builder@.channels))
                    ==> request.init.id is None && request.init.negotiated
                    == x.configuration.negotiated
            }
        },
{
    if r is Ok && i < builder@.channels.len() {
        let c = (r->Ok_0).0;
        if !has_duplicate(wanted(builder@.channels)) {
            let ids = crate::channel_ids::assigned(wanted(builder@.channels))->0;
            assert(c@.builder.channels[i as int]@ == crate::channel::numbered(
                builder@.channels[i as int]@,
                ids[i as int],
            ));
        }
    }
}

/// A channel that is made comes behind those that were made before, and the next thing follows;
/// one that is refused changes nothing, and the stack's text is the error's.
pub proof fn law_made_channel_comes_last<H, C>(
    connector: &mut RtcPeerConnector<H>,
    handshake: &mut Handshake<C>,
    outcome: Result<H, String>,
    r: Result<HandshakeAction, RtcPeerConnectionError>,
)
    requires
        old(handshake)@.well_formed(),
        old(handshake)@.stage is Making,
        old(handshake)@.made < old(handshake)@.total,
        call_ensures(
            RtcPeerConnector::<H>::channel_created::<C>,
            (connector, handshake, outcome),
            r,
        ),
    ensures
        outcome matches Ok(handle) ==> {
            &&& r is Ok
            &&& final(connector)@.chans == old(connector)@.chans.push(handle)
            &&& final(handshake)@.made == old(handshake)@.made + 1
            &&& r->Ok_0 is CreateChannel <==> old(handshake)@.made + 1 < old(handshake)@.total
            &&& r matches Ok(HandshakeAction::CreateChannel(i)) ==> i == old(handshake)@.made + 1
        },
        outcome matches Err(x) ==> {
            &&& r == Err::<HandshakeAction, _>(RtcPeerConnectionError::Creation(x))
            &&& final(connector)@ == old(connector)@
            &&& final(handshake)@ == old(handshake)@
        },
        final(connector)@.builder == old(connector)@.builder,
{
}

/// Callbacks for another closure pass on into the same queue, and those at hand have passed on
/// what they had; new ones pass on through the end that they get.
pub proof fn law_callbacks_share_the_queue<C>(
    end: Outbox<RtcNegotiationNotification<C>>,
    made: RtcPeerConnectionEventHandlers<C>,
    callbacks: &mut RtcPeerConnectionEventHandlers<C>,
    others: RtcPeerConnectionEventHandlers<C>,
)
    requires
        call_ensures(RtcPeerConnectionEventHandlers::<C>::new, (end,), made),
        call_ensures(RtcPeerConnectionEventHandlers::<C>::another, (callbacks,), others),
    ensures
        made@ == end@,
        others@.line == old(callbacks)@.line,
        others@.items.len() == 0,
        !others@.first,
        final(callbacks)@.line == old(callbacks)@.line,
        final(callbacks)@.items == old(callbacks)@.items,
        final(callbacks)@.ends == old(callbacks)@.ends + 1,
{
}

} // verus!
