//! The stack of a browser.
use crate::backend::handshake::{beginning, Handshake};
use crate::backend::init::{is_request, ChannelRequest};
use crate::backend::ordering::{
    alone_has, is_ordered, law_channels_come_as_requested, order_channels,
};
use crate::channel::{can_be_numbered, duplicate_id_text, wanted};
use crate::channel_ids::has_duplicate;
use crate::delivery::{
    handed_out, looks, looks_beside, next_message, next_message_beside, Delivery,
};
use crate::error::{PeerErrorView, RtcDataChannelError, RtcPeerConnectionError};
use crate::message::{
    CandidateView, DescriptionView, RtcIceCandidate, RtcNegotiationMessage, RtcSessionDescription,
};
use crate::negotiation::{no_candidate_pair, no_candidate_pair_text, RtcNegotiationNotification};
use crate::peer::{are_numbered_from, channels_are_numbered, PeerConnectionView, RtcPeerConnection};
use crate::queue::{
    feeds, found, further_end, is_over, split, takes, takes_one, Drawn, Inbox, Outbox, Polled, Sent,
};
use crate::text::same_text;
use vstd::prelude::*;

verus! {

/// A candidate as the browser reports it.
pub struct FoundCandidate {
    pub candidate: String,
    pub sdp_mid: Option<String>,
}

/// A candidate as the other peer is told; the end of the search is told as an empty one.
pub open spec fn told_candidate(found: Option<FoundCandidate>) -> CandidateView {
    match found {
        Some(c) => CandidateView {
            candidate: c.candidate@,
            sdp_mid: match c.sdp_mid {
                Some(mid) => mid@,
                None => Seq::empty(),
            },
        },
        None => CandidateView { candidate: Seq::empty(), sdp_mid: Seq::empty() },
    }
}

/// The callbacks of a connection. `C` is an open channel.
#[verifier::reject_recursive_types(C)]
pub struct RtcPeerConnectionEventHandlers<C> {
    negotiation_send: Outbox<RtcNegotiationNotification<C>>,
}

impl<C> View for RtcPeerConnectionEventHandlers<C> {
    type V = Sent<RtcNegotiationNotification<C>>;

    /// What has been passed on.
    closed spec fn view(&self) -> Sent<RtcNegotiationNotification<C>> {
        self.negotiation_send@
    }
}

impl<C> RtcPeerConnectionEventHandlers<C> {
    pub fn new(negotiation_send: Outbox<RtcNegotiationNotification<C>>) -> (r: Self)
        ensures
            r@ == negotiation_send@,
    {
        RtcPeerConnectionEventHandlers { negotiation_send }
    }

    /// The same callbacks for another closure.
    pub fn another(&mut self) -> (r: Self)
        ensures
            r@ == further_end::<RtcNegotiationNotification<C>>(old(self)@.line),
            final(self)@ == split(old(self)@),
    {
        RtcPeerConnectionEventHandlers { negotiation_send: self.negotiation_send.another() }
    }

    /// This side has found a candidate, or has found all: the other peer is told.
    pub fn on_ice_candidate(&mut self, found: Option<FoundCandidate>)
        ensures
            takes_one(old(self)@, final(self)@),
            final(self)@.items.last() matches RtcNegotiationNotification::SendMessage(
                RtcNegotiationMessage::RemoteCandidate(c),
            ) && {
                &&& c@ == told_candidate(found)
                &&& found matches Some(x) ==> c.candidate == x.candidate
                &&& found matches Some(x) ==> (x.sdp_mid matches Some(mid) ==> c.sdp_mid == mid)
            },
    {
        let candidate = match found {
            Some(c) => RtcIceCandidate {
                candidate: c.candidate,
                sdp_mid: match c.sdp_mid {
                    Some(mid) => mid,
                    None => String::new(),
                },
            },
            None => RtcIceCandidate { candidate: String::new(), sdp_mid: String::new() },
        };
        self.negotiation_send.post(
            RtcNegotiationNotification::SendMessage(
                RtcNegotiationMessage::RemoteCandidate(candidate),
            ),
        );
    }

    /// A channel is open: the negotiation is told.
    pub fn on_data_channel_open(&mut self, channel: C)
        ensures
            takes(
                old(self)@,
                final(self)@,
                RtcNegotiationNotification::DataChannelOpened(channel),
            ),
    {
        self.negotiation_send.post(RtcNegotiationNotification::DataChannelOpened(channel));
    }

    /// The connection has changed its state, which the browser puts in a word. Only a
    /// failure is passed on.
    pub fn on_connection_state_change(&mut self, state: &str)
        ensures
            state@ != "failed"@ ==> final(self)@ == old(self)@,
            state@ == "failed"@ ==> {
                &&& takes_one(old(self)@, final(self)@)
                &&& final(self)@.items.last() matches RtcNegotiationNotification::Failed(e)
                    && e@ == PeerErrorView::IceNegotiationFailure(no_candidate_pair_text())
            },
    {
        if same_text(state, "failed") {
            self.negotiation_send.post(
                RtcNegotiationNotification::Failed(no_candidate_pair()),
            );
        }
    }
}

/// The callbacks of a channel.
pub struct RtcDataChannelEventHandlers {
    message_send: Outbox<Delivery>,
}

impl View for RtcDataChannelEventHandlers {
    type V = Sent<Delivery>;

    /// What the channel's owner was told.
    closed spec fn view(&self) -> Sent<Delivery> {
        self.message_send@
    }
}

impl RtcDataChannelEventHandlers {
    pub fn new(message_send: Outbox<Delivery>) -> (r: Self)
        ensures
            r@ == message_send@,
    {
        RtcDataChannelEventHandlers { message_send }
    }

    /// The end of the queue through which everything is delivered.
    fn end(&self) -> (r: &Outbox<Delivery>)
        ensures
            r@ == self@,
    {
        &self.message_send
    }

    /// A message has come, or something that is none and is described by this text.
    pub fn on_message(&mut self, data: Result<Vec<u8>, String>)
        ensures
            takes(
                old(self)@,
                final(self)@,
                match data {
                    Ok(message) => Ok(message),
                    Err(x) => Err(RtcDataChannelError::Receive(x)),
                },
            ),
    {
        self.message_send.post(
            match data {
                Ok(message) => Ok(message),
                Err(x) => Err(RtcDataChannelError::Receive(x)),
            },
        );
    }

    /// The channel is closed or has failed, as this text describes.
    pub fn on_close(&mut self, event: String)
        ensures
            takes(old(self)@, final(self)@, Err(RtcDataChannelError::Receive(event))),
    {
        self.message_send.post(Err(RtcDataChannelError::Receive(event)));
    }
}

/// An open channel. `H` is the browser's hold on it.
pub struct RtcDataChannel<H> {
    handle: H,
    label: String,
    message_recv: Inbox<Delivery>,
}

/// An open channel, by its parts; `inbox` is where its messages arrive, with what every
/// look for one has found.
pub struct DataChannelView<H> {
    pub handle: H,
    pub label: Seq<char>,
    pub inbox: Drawn<Delivery>,
}

impl<H> View for RtcDataChannel<H> {
    type V = DataChannelView<H>;

    closed spec fn view(&self) -> DataChannelView<H> {
        DataChannelView {
            handle: self.handle,
            label: self.label@,
            inbox: self.message_recv@,
        }
    }
}

impl<H> RtcDataChannel<H> {
    /// A channel that has just opened, with the queue into which its callbacks deliver.
    pub fn new(handle: H, label: String, message_recv: Inbox<Delivery>) -> (r: Self)
        ensures
            r@ == (DataChannelView { handle, label: label@, inbox: message_recv@ }),
    {
        RtcDataChannel { handle, label, message_recv }
    }

    /// The browser's hold on the channel.
    pub fn handle(&self) -> (r: &H)
        ensures
            *r == self@.handle,
    {
        &self.handle
    }

    pub fn label(&self) -> (r: &str)
        ensures
            r@ == self@.label,
    {
        self.label.as_str()
    }

    /// A message was sent, or was refused with this text.
    pub fn send(outcome: Result<(), String>) -> (r: Result<(), RtcDataChannelError>)
        ensures
            r == (match outcome {
                Ok(_) => Ok(()),
                Err(x) => Err(RtcDataChannelError::Send(x)),
            }),
    {
        match outcome {
            Ok(()) => Ok(()),
            Err(x) => Err(RtcDataChannelError::Send(x)),
        }
    }

    /// Looks for a message that is to be written somewhere: `Some(Ok(None))` if there is
    /// none yet, `None` if there never will be one.
    pub fn receive(&mut self) -> (r: Option<Result<Option<Vec<u8>>, RtcDataChannelError>>)
        ensures
            looks(old(self)@.inbox, final(self)@.inbox),
            r == handed_out(final(self)@.inbox.seen.last()),
            is_over(old(self)@.inbox.seen) ==> r is None,
            final(self)@ == (DataChannelView { inbox: final(self)@.inbox, ..old(self)@ }),
    {
        next_message(&mut self.message_recv)
    }

    /// The message was written, or could not be: its length is reported, or why not.
    pub fn written(message: &Vec<u8>, outcome: Result<usize, std::io::Error>) -> (r: Result<
        Option<usize>,
        RtcDataChannelError,
    >)
        ensures
            r == (match outcome {
                Ok(_) => Ok(Some(message@.len() as usize)),
                Err(x) => Err(RtcDataChannelError::WriteError(x)),
            }),
    {
        match outcome {
            Ok(_) => Ok(Some(message.len())),
            Err(x) => Err(RtcDataChannelError::WriteError(x)),
        }
    }

    /// Looks for a message: `Some(Ok(None))` if there is none yet, `None` if there never
    /// will be one.
    pub fn receive_vec(&mut self) -> (r: Option<Result<Option<Vec<u8>>, RtcDataChannelError>>)
        ensures
            looks(old(self)@.inbox, final(self)@.inbox),
            r == handed_out(final(self)@.inbox.seen.last()),
            is_over(old(self)@.inbox.seen) ==> r is None,
            final(self)@ == (DataChannelView { inbox: final(self)@.inbox, ..old(self)@ }),
    {
        next_message(&mut self.message_recv)
    }

    /// As `receive_vec`, with the callbacks at hand, which deliver nothing meanwhile: where
    /// these are the channel's own, the first delivery that was not handed out yet is handed
    /// out, and `Some(Ok(None))` comes only if all were.
    pub fn receive_vec_beside(&mut self, callbacks: &RtcDataChannelEventHandlers) -> (r: Option<
        Result<Option<Vec<u8>>, RtcDataChannelError>,
    >)
        ensures
            looks(old(self)@.inbox, final(self)@.inbox),
            r == handed_out(final(self)@.inbox.seen.last()),
            is_over(old(self)@.inbox.seen) ==> r is None,
            feeds(callbacks@, old(self)@.inbox) ==> looks_beside(
                callbacks@,
                old(self)@.inbox,
                final(self)@.inbox,
            ),
            final(self)@ == (DataChannelView { inbox: final(self)@.inbox, ..old(self)@ }),
    {
        next_message_beside(&mut self.message_recv, callbacks.end())
    }
}

/// What a connection asks for, with every channel numbered.
pub struct RtcPeerConnector {
    builder: RtcPeerConnection,
}

impl View for RtcPeerConnector {
    type V = PeerConnectionView;

    closed spec fn view(&self) -> PeerConnectionView {
        self.builder@
    }
}

impl RtcPeerConnector {
    /// The channels are numbered, each once.
    pub open spec fn well_formed(&self) -> bool {
        channels_are_numbered(self@.channels)
    }

    /// Begins a connection, by whether the browser could set it up.
    pub fn connect<C>(
        builder: RtcPeerConnection,
        negotiation_recv: Inbox<RtcNegotiationNotification<C>>,
        creation: Result<(), String>,
    ) -> (r: Result<(Self, Handshake<C>), RtcPeerConnectionError>)
        requires
            creation is Ok && !has_duplicate(wanted(builder@.channels)) ==> can_be_numbered(
                builder@.channels,
            ),
        ensures
            r is Ok <==> creation is Ok && !has_duplicate(wanted(builder@.channels)),
            creation matches Err(x) ==> r == Err::<(Self, Handshake<C>), _>(
                RtcPeerConnectionError::Creation(x),
            ),
            creation is Ok ==> (r matches Err(e) ==> e@ == PeerErrorView::Creation(
                duplicate_id_text(),
            )),
            r matches Ok((c, h)) ==> {
                &&& c.well_formed()
                &&& c@.configuration == builder@.configuration
                &&& c@.attempt == builder@.attempt
                &&& are_numbered_from(c@.channels, builder@.channels)
                &&& h@.well_formed()
                &&& h@ == beginning(builder@.channels.len(), builder@.attempt, negotiation_recv@)
            },
    {
        match creation {
            Ok(()) => {
                let mut builder = builder;
                match builder.assign_channel_ids() {
                    Ok(()) => {
                        let h = Handshake::new(
                            builder.channels().len(),
                            builder.attempt(),
                            negotiation_recv,
                        );
                        Ok((RtcPeerConnector { builder }, h))
                    },
                    Err(e) => Err(e),
                }
            },
            Err(x) => Err(RtcPeerConnectionError::Creation(x)),
        }
    }

    /// The channel at this place of the request.
    pub fn channel_request(&self, i: usize) -> (r: ChannelRequest)
        requires
            i < self@.channels.len(),
        ensures
            is_request(r, self@.channels[i as int]),
    {
        ChannelRequest::from(&self.builder.channels()[i])
    }

    /// Puts the open channels into the order in which they were asked for; `id_of` reads the
    /// number of a channel off the browser.
    pub fn accept_connection<C, F: Fn(&C) -> u16 + Copy>(&self, channels: Vec<C>, id_of: F) -> (r:
        Result<Vec<C>, RtcPeerConnectionError>)
        requires
            self.well_formed(),
            forall|c: C| call_requires(id_of, (&c,)),
        ensures
            is_ordered(channels@, self@.channels, id_of, r),
    {
        order_channels(channels, self.builder.channels(), id_of)
    }
}

/// The description that an answer of this side makes.
pub fn answer_description(sdp: String) -> (r: RtcSessionDescription)
    ensures
        r.sdp == sdp,
        r@ == (DescriptionView { sdp: sdp@, sdp_type: "answer"@ }),
{
    RtcSessionDescription { sdp, sdp_type: "answer".to_string() }
}

/// A candidate is told as it was found: its text to the last letter, and its section if it
/// has one; one without a section is told with none, and the end of the search with no text
/// at all.
pub proof fn law_candidate_is_told_as_found(c: FoundCandidate)
    ensures
        told_candidate(Some(c)).candidate == c.candidate@,
        c.sdp_mid matches Some(mid) ==> told_candidate(Some(c)).sdp_mid == mid@,
        c.sdp_mid is None ==> told_candidate(Some(c)).sdp_mid.len() == 0,
        told_candidate(None).candidate.len() == 0,
        told_candidate(None).sdp_mid.len() == 0,
{
}

/// Everything that the browser finds is passed on once and in its order: a candidate with its
/// text and its section as they were found, the end of the search as a candidate without text,
/// a channel that opens as it is, and of the connection's states a failure only.
pub proof fn law_everything_found_is_passed_on<C>(
    candidate: &mut RtcPeerConnectionEventHandlers<C>,
    c: FoundCandidate,
    end: &mut RtcPeerConnectionEventHandlers<C>,
    open: &mut RtcPeerConnectionEventHandlers<C>,
    channel: C,
    change: &mut RtcPeerConnectionEventHandlers<C>,
    state: &str,
)
    requires
        call_ensures(
            RtcPeerConnectionEventHandlers::<C>::on_ice_candidate,
            (candidate, Some(c)),
            (),
        ),
        *old(end) == *final(candidate),
        call_ensures(RtcPeerConnectionEventHandlers::<C>::on_ice_candidate, (end, None), ()),
        *old(open) == *final(end),
        call_ensures(
            RtcPeerConnectionEventHandlers::<C>::on_data_channel_open,
            (open, channel),
            (),
        ),
        *old(change) == *final(open),
        call_ensures(
            RtcPeerConnectionEventHandlers::<C>::on_connection_state_change,
            (change, state),
            (),
        ),
    ensures
        ({
            let before = old(candidate)@.items;
            let after = final(change)@.items;
            let n = before.len() as int;
            &&& after.len() == n + 3 + if state@ == "failed"@ {
                1int
            } else {
                0int
            }
            &&& after.take(n) == before
            &&& after[n] matches RtcNegotiationNotification::SendMessage(
                RtcNegotiationMessage::RemoteCandidate(x),
            ) && x.candidate@ == c.candidate@ && match c.sdp_mid {
                Some(mid) => x.sdp_mid@ == mid@,
                None => x.sdp_mid@.len() == 0,
            }
            &&& after[n + 1] matches RtcNegotiationNotification::SendMessage(
                RtcNegotiationMessage::RemoteCandidate(x),
            ) && x.candidate@.len() == 0 && x.sdp_mid@.len() == 0
            &&& after[n + 2] == RtcNegotiationNotification::DataChannelOpened(channel)
            &&& state@ == "failed"@ ==> (after[n + 3] matches RtcNegotiationNotification::Failed(e)
                && e@ == PeerErrorView::IceNegotiationFailure(
                "ICE protocol could not find a valid candidate pair."@,
            ))
        }),
        final(change)@.line == old(candidate)@.line,
{
    let n = old(candidate)@.items.len() as int;
    let a = final(candidate)@.items;
    let b = final(end)@.items;
    let d = final(open)@.items;
    let f = final(change)@.items;
    assert(a.drop_last() == old(candidate)@.items);
    assert(b.drop_last() == a);
    assert(d.drop_last() =~= b);
    assert forall|i: int| 0 <= i < n implies b[i] == #[trigger] old(candidate)@.items[i] by {
        assert(b[i] == b.drop_last()[i] && a[i] == a.drop_last()[i]);
    }
    assert(b[n] == b.drop_last()[n]);
    assert forall|i: int| 0 <= i < n + 3 implies f[i] == #[trigger] d[i] by {
        if state@ == "failed"@ {
            assert(f[i] == f.drop_last()[i]);
        }
    }
    assert(f[n] == d[n] && f[n + 1] == d[n + 1] && f[n + 2] == d[n + 2]);
    assert forall|i: int| 0 <= i < n implies f[i] == #[trigger] old(candidate)@.items[i] by {
        assert(f[i] == d[i] && d[i] == b[i]);
    }
    assert(f.take(n) =~= old(candidate)@.items);
}

/// A channel's owner is told everything that happens, each once and in its order: a message as
/// it came, what is no message with its description, and the close with its own.
pub proof fn law_everything_is_delivered_in_order(
    on_message: &mut RtcDataChannelEventHandlers,
    message: Vec<u8>,
    on_other: &mut RtcDataChannelEventHandlers,
    other: String,
    on_close: &mut RtcDataChannelEventHandlers,
    event: String,
)
    requires
        call_ensures(RtcDataChannelEventHandlers::on_message, (on_message, Ok(message)), ()),
        *old(on_other) == *final(on_message),
        call_ensures(RtcDataChannelEventHandlers::on_message, (on_other, Err(other)), ()),
        *old(on_close) == *final(on_other),
        call_ensures(RtcDataChannelEventHandlers::on_close, (on_close, event), ()),
    ensures
        final(on_close)@.items == old(on_message)@.items.push(Ok(message)).push(
            Err(RtcDataChannelError::Receive(other)),
        ).push(Err(RtcDataChannelError::Receive(event))),
        final(on_close)@.line == old(on_message)@.line,
{
}

/// A message that comes is the next that is received, where everything before it was received,
/// and it is received as it came.
pub proof fn law_message_is_received<H>(
    callbacks: &mut RtcDataChannelEventHandlers,
    message: Vec<u8>,
    after: &RtcDataChannelEventHandlers,
    channel: &mut RtcDataChannel<H>,
    r: Option<Result<Option<Vec<u8>>, RtcDataChannelError>>,
)
    requires
        feeds(old(callbacks)@, old(channel)@.inbox),
        found(old(channel)@.inbox.seen) == old(callbacks)@.items,
        call_ensures(RtcDataChannelEventHandlers::on_message, (callbacks, Ok(message)), ()),
        *after == *final(callbacks),
        call_ensures(RtcDataChannel::<H>::receive_vec_beside, (channel, after), r),
    ensures
        r == Some(Ok::<_, RtcDataChannelError>(Some(message))),
        found(final(channel)@.inbox.seen) == final(callbacks)@.items,
        final(channel)@.handle == old(channel)@.handle,
        final(channel)@.label == old(channel)@.label,
{
    let seen = old(channel)@.inbox.seen;
    assert(final(channel)@.inbox.seen == seen.push(Polled::Item(Ok(message))));
    assert(seen.push(Polled::Item(Ok(message))).drop_last() =~= seen);
}

/// A channel that has just opened has the hold, the name and the queue that it was made with.
pub proof fn law_new_channel_is_as_made<H>(
    handle: H,
    label: String,
    inbox: Inbox<Delivery>,
    channel: RtcDataChannel<H>,
    hold: &H,
    name: &str,
)
    requires
        call_ensures(RtcDataChannel::<H>::new, (handle, label, inbox), channel),
        call_ensures(RtcDataChannel::<H>::handle, (&channel,), hold),
        call_ensures(RtcDataChannel::<H>::label, (&channel,), name),
    ensures
        *hold == handle,
        name@ == label@,
        channel@.inbox == inbox@,
{
}

/// A message that the browser takes is no error, one that it refuses is, with the browser's
/// text; what was written is reported by its length, and a failed write by its error; and a
/// look hands out what it finds.
pub proof fn law_outcomes_are_handed_on<H>(
    outcome: Result<(), String>,
    sent: Result<(), RtcDataChannelError>,
    message: &Vec<u8>,
    write: Result<usize, std::io::Error>,
    written: Result<Option<usize>, RtcDataChannelError>,
    channel: &mut RtcDataChannel<H>,
    r: Option<Result<Option<Vec<u8>>, RtcDataChannelError>>,
    other: &mut RtcDataChannel<H>,
    s: Option<Result<Option<Vec<u8>>, RtcDataChannelError>>,
)
    requires
        call_ensures(RtcDataChannel::<H>::send, (outcome,), sent),
        call_ensures(RtcDataChannel::<H>::written, (message, write), written),
        call_ensures(RtcDataChannel::<H>::receive_vec, (channel,), r),
        call_ensures(RtcDataChannel::<H>::receive, (other,), s),
    ensures
        outcome is Ok ==> sent is Ok,
        outcome matches Err(x) ==> sent == Err::<(), _>(RtcDataChannelError::Send(x)),
        write is Ok ==> (written matches Ok(Some(n)) && n == message@.len()),
        write matches Err(x) ==> written == Err::<Option<usize>, _>(
            RtcDataChannelError::WriteError(x),
        ),
        final(channel)@.inbox.seen.drop_last() == old(channel)@.inbox.seen,
        match final(channel)@.inbox.seen.last() {
            Polled::Item(Ok(m)) => r matches Some(Ok(Some(x))) && x == m,
            Polled::Item(Err(e)) => r matches Some(Err(x)) && x == e,
            Polled::Empty => r matches Some(Ok(None)),
            Polled::Closed => r is None,
        },
        final(channel)@.handle == old(channel)@.handle,
        final(channel)@.label == old(channel)@.label,
        final(other)@.inbox.seen.drop_last() == old(other)@.inbox.seen,
        match final(other)@.inbox.seen.last() {
            Polled::Item(Ok(m)) => s matches Some(Ok(Some(x))) && x == m,
            Polled::Item(Err(e)) => s matches Some(Err(x)) && x == e,
            Polled::Empty => s matches Some(Ok(None)),
            Polled::Closed => s is None,
        },
{
    assert(message.len() == message@.len());
}

/// A connection is refused exactly if the browser could not set it up or two channels ask for
/// the same number; otherwise it begins with the request as it was, in which only numbers are
/// given, and every channel is requested under its own label and options.
pub proof fn law_connection_begins_with_the_request<C>(
    builder: RtcPeerConnection,
    negotiation_recv: Inbox<RtcNegotiationNotification<C>>,
    creation: Result<(), String>,
    r: Result<(RtcPeerConnector, Handshake<C>), RtcPeerConnectionError>,
    i: usize,
    request: ChannelRequest,
)
    requires
        creation is Ok && !has_duplicate(wanted(builder@.channels)) ==> can_be_numbered(
            builder@.channels,
        ),
        call_ensures(RtcPeerConnector::connect::<C>, (builder, negotiation_recv, creation), r),
        r is Ok && i < builder@.channels.len() ==> call_ensures(
            RtcPeerConnector::channel_request,
            (&(r->Ok_0).0, i),
            request,
        ),
    ensures
        creation matches Err(x) ==> (r matches Err(e) && e == RtcPeerConnectionError::Creation(x)),
        creation is Ok ==> (r is Err <==> exists|a: int, b: int|
            0 <= a < b < builder@.channels.len() && (#[trigger] wanted(builder@.channels)[a])
                is Some && wanted(builder@.channels)[a] == #[trigger] wanted(builder@.channels)[b]),
        creation is Ok ==> (r matches Err(e) ==> e@ == PeerErrorView::Creation(
            "Multiple data channels requested with the same ID"@,
        )),
        r matches Ok((c, h)) ==> {
            &&& h@.total == builder@.channels.len()
            &&& h@.made == 0
            &&& h@.offers <==> builder@.attempt is Offer
            &&& h@.inbox == negotiation_recv@
            &&& c@.configuration == builder@.configuration
            &&& c@.attempt == builder@.attempt
            &&& i < builder@.channels.len() ==> {
                let x = builder@.channels[i as int]@;
                &&& request.label@ == x.label
                &&& request.init.max_packet_life_time == x.configuration.max_packet_life_time
                &&& request.init.max_retransmits == x.configuration.max_retransmits
                &&& request.init.protocol == x.configuration.protocol
                &&& x.configuration.id is Some ==> request.init.id == x.configuration.id
                    && request.init.negotiated == x.configuration.negotiated
                &&& x.configuration.id is None ==> request.init.id is Some
                    && request.init.negotiated == Some(true)
            }
        },
{
    if r is Ok && i < builder@.channels.len() {
        let c = (r->Ok_0).0;
        let ids = crate::channel_ids::assigned(wanted(builder@.channels))->0;
        assert(c@.channels[i as int]@ == crate::channel::numbered(
            builder@.channels[i as int]@,
            ids[i as int],
        ));
    }
}

/// An answer of this side goes out as an answer, with its own text.
pub proof fn law_answer_goes_out_as_one(sdp: String, r: RtcSessionDescription)
    requires
        call_ensures(answer_description, (sdp,), r),
    ensures
        r.sdp == sdp,
        r.sdp_type@ == "answer"@,
{
}

/// The channels that are handed over are the open ones, each in the place where its number was
/// asked for.
pub proof fn law_channels_are_handed_over_as_requested<C, F: Fn(&C) -> u16 + Copy>(
    connector: RtcPeerConnector,
    channels: Vec<C>,
    id_of: F,
    reading: spec_fn(C) -> u16,
    r: Result<Vec<C>, RtcPeerConnectionError>,
)
    requires
        connector.well_formed(),
        forall|c: C| call_requires(id_of, (&c,)),
        forall|c: C, x: u16| #[trigger] call_ensures(id_of, (&c,), x) ==> x == reading(c),
        call_ensures(
            RtcPeerConnector::accept_connection::<C, F>,
            (&connector, channels, id_of),
            r,
        ),
    ensures
        r is Ok <==> forall|i: int|
            0 <= i < connector@.channels.len() ==> exists|j: int| #[trigger]
                alone_has(
                    channels@,
                    reading,
                    (#[trigger] connector@.channels[i])@.configuration.id->0,
                    j,
                ),
        r matches Ok(v) ==> {
            &&& v@.len() == connector@.channels.len()
            &&& forall|i: int, j: int|
                0 <= i < v@.len() && #[trigger] alone_has(
                    channels@,
                    reading,
                    connector@.channels[i]@.configuration.id->0,
                    j,
                ) ==> #[trigger] v@[i] == channels@[j]
        },
        r matches Err(e) ==> e@ == PeerErrorView::DataChannelMismatch(
            "Data channel IDs did not match"@,
        ),
{
    law_channels_come_as_requested(channels@, connector@.channels, id_of, reading, r);
}

/// Callbacks for another closure pass on into the same queue, and those at hand have passed on
/// what they had; new ones pass on through the end that they get.
pub proof fn law_callbacks_share_the_queue<C>(
    end: Outbox<RtcNegotiationNotification<C>>,
    made: RtcPeerConnectionEventHandlers<C>,
    callbacks: &mut RtcPeerConnectionEventHandlers<C>,
    others: RtcPeerConnectionEventHandlers<C>,
)
    requires
        call_ensures(RtcPeerConnectionEventHandlers::<C>::new, (end,), made),
        call_ensures(RtcPeerConnectionEventHandlers::<C>::another, (callbacks,), others),
    ensures
        made@ == end@,
        others@.line == old(callbacks)@.line,
        others@.items.len() == 0,
        !others@.first,
        final(callbacks)@.line == old(callbacks)@.line,
        final(callbacks)@.items == old(callbacks)@.items,
        final(callbacks)@.ends == old(callbacks)@.ends + 1,
{
}

} // verus!
