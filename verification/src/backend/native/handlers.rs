//! What `libdatachannel`'s callbacks pass on.
use crate::delivery::Delivery;
use crate::error::{ChannelErrorView, PeerErrorView, RtcDataChannelError};
use crate::message::{
    sdp_type_text, DescriptionView, RtcIceCandidate, RtcNegotiationMessage, RtcSessionDescription,
    SdpType,
};
use crate::negotiation::{no_candidate_pair, no_candidate_pair_text, RtcNegotiationNotification};
use crate::peer::RtcPeerConnectionState;
use crate::queue::{first_end, queue, takes, takes_one, Drawn, Inbox, Outbox, Sent};
use crate::sdp::{sdp_session_text, write_sdp};
use vstd::prelude::*;
use vstd::string::*;
use webrtc_sdp::SdpSession;

verus! {

/// A channel that has opened: its number, and where its messages arrive.
pub type Opened = (u16, Inbox<Delivery>);

/// What the callbacks tell the negotiation.
pub type Notification = RtcNegotiationNotification<Opened>;

/// The callbacks of a connection.
pub struct RtcPeerConnectionEventHandlers {
    negotiation_send: Outbox<Notification>,
}

impl View for RtcPeerConnectionEventHandlers {
    type V = Sent<Notification>;

    /// What has been passed on.
    closed spec fn view(&self) -> Sent<Notification> {
        self.negotiation_send@
    }
}

impl RtcPeerConnectionEventHandlers {
    pub fn new(negotiation_send: Outbox<Notification>) -> (r: Self)
        ensures
            r@ == negotiation_send@,
    {
        RtcPeerConnectionEventHandlers { negotiation_send }
    }

    /// This side has found a candidate: the other peer is told.
    pub fn on_candidate(&mut self, candidate: String, mid: String)
        ensures
            takes(
                old(self)@,
                final(self)@,
                RtcNegotiationNotification::SendMessage(
                    RtcNegotiationMessage::RemoteCandidate(
                        RtcIceCandidate { candidate, sdp_mid: mid },
                    ),
                ),
            ),
    {
        self.negotiation_send.post(
            RtcNegotiationNotification::SendMessage(
                RtcNegotiationMessage::RemoteCandidate(
                    RtcIceCandidate { candidate, sdp_mid: mid },
                ),
            ),
        );
    }

    /// This side has a description: the other peer is told.
    pub fn on_description(&mut self, sdp: &SdpSession, sdp_type: SdpType)
        ensures
            takes_one(old(self)@, final(self)@),
            final(self)@.items.last() matches RtcNegotiationNotification::SendMessage(
                RtcNegotiationMessage::RemoteSessionDescription(d),
            ) && d@ == (DescriptionView {
                sdp: sdp_session_text(*sdp),
                sdp_type: sdp_type_text(sdp_type),
            }),
    {
        self.negotiation_send.post(
            RtcNegotiationNotification::SendMessage(
                RtcNegotiationMessage::RemoteSessionDescription(
                    RtcSessionDescription { sdp: write_sdp(sdp), sdp_type: sdp_type.text() },
                ),
            ),
        );
    }

    /// The connection has changed its state. Only a failure is passed on.
    pub fn on_connection_state_change(&mut self, state: RtcPeerConnectionState)
        ensures
            state != RtcPeerConnectionState::Failed ==> final(self)@ == old(self)@,
            state == RtcPeerConnectionState::Failed ==> {
                &&& takes_one(old(self)@, final(self)@)
                &&& final(self)@.items.last() matches RtcNegotiationNotification::Failed(e)
                    && e@ == PeerErrorView::IceNegotiationFailure(no_candidate_pair_text())
            },
    {
        if state == RtcPeerConnectionState::Failed {
            self.negotiation_send.post(
                RtcNegotiationNotification::Failed(no_candidate_pair()),
            );
        }
    }
}

/// The callbacks of a channel.
pub struct RtcDataChannelEventHandlers {
    id: u16,
    negotiation_send: Option<Outbox<Notification>>,
    message_recv: Option<Inbox<Delivery>>,
    message_send: Outbox<Delivery>,
}

/// The callbacks of a channel, by what they know and have done.
pub struct ChannelHandlersView {
    /// The channel's number.
    pub id: u16,
    /// The end through which the negotiation is to be told that the channel is open; `None`
    /// once it was told.
    pub announcing: Option<Sent<Notification>>,
    /// What the channel's owner was told.
    pub delivered: Sent<Delivery>,
}

impl View for RtcDataChannelEventHandlers {
    type V = ChannelHandlersView;

    closed spec fn view(&self) -> ChannelHandlersView {
        ChannelHandlersView {
            id: self.id,
            announcing: match self.negotiation_send {
                Some(ns) => Some(ns@),
                None => None,
            },
            delivered: self.message_send@,
        }
    }
}

impl RtcDataChannelEventHandlers {
    /// As long as the channel is unannounced, its messages' way out is at hand, unused.
    pub closed spec fn well_formed(&self) -> bool {
        match self.negotiation_send {
            Some(_) => {
                self.message_recv matches Some(inbox) && inbox@ == (Drawn::<Delivery> {
                    line: self.message_send@.line,
                    seen: Seq::empty(),
                })
            },
            None => self.message_recv is None,
        }
    }

    pub fn new(id: u16, negotiation_send: Outbox<Notification>) -> (r: Self)
        ensures
            r.well_formed(),
            r@ == (ChannelHandlersView {
                id,
                announcing: Some(negotiation_send@),
                delivered: first_end(r@.delivered.line),
            }),
    {
        let (message_send, message_recv) = queue();
        RtcDataChannelEventHandlers {
            id,
            negotiation_send: Some(negotiation_send),
            message_recv: Some(message_recv),
            message_send,
        }
    }

    /// The end of the queue through which everything is delivered.
    pub(crate) fn end(&self) -> (r: &Outbox<Delivery>)
        ensures
            r@ == self@.delivered,
    {
        &self.message_send
    }

    /// The channel is open: the negotiation is told, the first time. The end through which it
    /// was told has no further use and is handed back, to be dropped.
    pub fn on_open(&mut self) -> (r: Option<Outbox<Notification>>)
        requires
            old(self).well_formed(),
        ensures
            final(self).well_formed(),
            final(self)@ == (ChannelHandlersView { announcing: None, ..old(self)@ }),
            old(self)@.announcing is None ==> r is None,
            old(self)@.announcing matches Some(before) ==> {
                &&& r matches Some(ns) && takes_one(before, ns@)
                &&& r->0@.items.last() matches RtcNegotiationNotification::DataChannelOpened(
                    (id, inbox),
                ) && id == old(self)@.id && inbox@ == (Drawn::<Delivery> {
                    line: old(self)@.delivered.line,
                    seen: Seq::empty(),
                })
            },
    {
        match self.negotiation_send.take() {
            Some(ns) => {
                let mut ns = ns;
                let inbox = self.message_recv.take().unwrap();
                ns.post(RtcNegotiationNotification::DataChannelOpened((self.id, inbox)));
                Some(ns)
            },
            None => None,
        }
    }

    /// The channel is closed: its owner is told.
    pub fn on_closed(&mut self)
        requires
            old(self).well_formed(),
        ensures
            final(self).well_formed(),
            delivers_error(old(self)@, final(self)@, "The channel was closed."@),
    {
        self.message_send.post(
            Err(RtcDataChannelError::Receive("The channel was closed.".to_string())),
        );
    }

    /// The channel has failed: its owner is told why.
    pub fn on_error(&mut self, err: &str)
        requires
            old(self).well_formed(),
        ensures
            final(self).well_formed(),
            delivers_error(
                old(self)@,
                final(self)@,
                "The channel encountered an error: "@ + err@,
            ),
    {
        let text = "The channel encountered an error: ".to_string().concat(err);
        self.message_send.post(Err(RtcDataChannelError::Receive(text)));
    }

    /// A message has come: its owner gets it.
    pub fn on_message(&mut self, msg: &[u8])
        requires
            old(self).well_formed(),
        ensures
            final(self).well_formed(),
            only_delivers(old(self)@, final(self)@),
            final(self)@.delivered.items.last() matches Ok(m) && m@ == msg@,
    {
        self.message_send.post(Ok(vstd::slice::slice_to_vec(msg)));
    }
}

/// One thing was delivered, and nothing else was done.
pub open spec fn only_delivers(before: ChannelHandlersView, after: ChannelHandlersView) -> bool {
    &&& after.id == before.id
    &&& after.announcing == before.announcing
    &&& takes_one(before.delivered, after.delivered)
}

/// An error was delivered, and nothing else was done.
pub open spec fn delivers_error(
    before: ChannelHandlersView,
    after: ChannelHandlersView,
    text: Seq<char>,
) -> bool {
    &&& only_delivers(before, after)
    &&& after.delivered.items.last() matches Err(e) && e@ == ChannelErrorView::Receive(text)
}

/// What a callback delivers comes behind what was delivered before, which stays as it is, and
/// nothing else of the channel changes.
pub proof fn law_delivery_comes_last(
    before: ChannelHandlersView,
    after: ChannelHandlersView,
    text: Seq<char>,
)
    requires
        only_delivers(before, after),
    ensures
        after.id == before.id,
        after.announcing == before.announcing,
        after.delivered.line == before.delivered.line,
        after.delivered.first == before.delivered.first,
        after.delivered.ends == before.delivered.ends,
        after.delivered.items.len() == before.delivered.items.len() + 1,
        forall|i: int|
            0 <= i < before.delivered.items.len() ==> after.delivered.items[i]
                == #[trigger] before.delivered.items[i],
        delivers_error(before, after, text) ==> (after.delivered.items.last() matches Err(
            RtcDataChannelError::Receive(x),
        ) && x@ == text),
{
    assert forall|i: int| 0 <= i < before.delivered.items.len() implies after.delivered.items[i]
        == #[trigger] before.delivered.items[i] by {
        assert(after.delivered.items.drop_last()[i] == after.delivered.items[i]);
    }
}

/// Every candidate that is found is passed on once, behind what was passed on before, with its
/// text and its section as they were found.
pub proof fn law_candidate_is_passed_on(
    callbacks: &mut RtcPeerConnectionEventHandlers,
    candidate: String,
    mid: String,
)
    requires
        call_ensures(
            RtcPeerConnectionEventHandlers::on_candidate,
            (callbacks, candidate, mid),
            (),
        ),
    ensures
        final(callbacks)@.items == old(callbacks)@.items.push(
            RtcNegotiationNotification::SendMessage(
                RtcNegotiationMessage::RemoteCandidate(
                    RtcIceCandidate { candidate, sdp_mid: mid },
                ),
            ),
        ),
        final(callbacks)@.line == old(callbacks)@.line,
{
}

/// Every description is passed on once, behind what was passed on before, with the word for its
/// role and the text that its session is written as.
pub proof fn law_description_is_passed_on(
    callbacks: &mut RtcPeerConnectionEventHandlers,
    sdp: &SdpSession,
    sdp_type: SdpType,
)
    requires
        call_ensures(
            RtcPeerConnectionEventHandlers::on_description,
            (callbacks, sdp, sdp_type),
            (),
        ),
    ensures
        final(callbacks)@.items.len() == old(callbacks)@.items.len() + 1,
        final(callbacks)@.items.drop_last() == old(callbacks)@.items,
        final(callbacks)@.line == old(callbacks)@.line,
        final(callbacks)@.items.last() matches RtcNegotiationNotification::SendMessage(
            RtcNegotiationMessage::RemoteSessionDescription(d),
        ) && {
            &&& d.sdp@ == sdp_session_text(*sdp)
            &&& match sdp_type {
                SdpType::Answer => d.sdp_type@ == "answer"@,
                SdpType::Offer => d.sdp_type@ == "offer"@,
                SdpType::Pranswer => d.sdp_type@ == "pranswer"@,
                SdpType::Rollback => d.sdp_type@ == "rollback"@,
            }
        },
{
}

/// A failure of the connection is passed on, as one, and no other state is.
pub proof fn law_only_a_failure_is_passed_on(
    callbacks: &mut RtcPeerConnectionEventHandlers,
    state: RtcPeerConnectionState,
)
    requires
        call_ensures(
            RtcPeerConnectionEventHandlers::on_connection_state_change,
            (callbacks, state),
            (),
        ),
    ensures
        !(state is Failed) ==> final(callbacks)@ == old(callbacks)@,
        state is Failed ==> {
            &&& final(callbacks)@.items.len() == old(callbacks)@.items.len() + 1
            &&& final(callbacks)@.items.drop_last() == old(callbacks)@.items
            &&& final(callbacks)@.items.last() matches RtcNegotiationNotification::Failed(e)
                && e@ == PeerErrorView::IceNegotiationFailure(
                "ICE protocol could not find a valid candidate pair."@,
            )
        },
{
}

/// A channel is announced once, by its own number and with its own queue, from which nothing
/// was taken yet; when it opens again, nobody is told.
pub proof fn law_opening_is_announced_once(
    first: &mut RtcDataChannelEventHandlers,
    r: Option<Outbox<Notification>>,
    again: &mut RtcDataChannelEventHandlers,
    s: Option<Outbox<Notification>>,
)
    requires
        old(first).well_formed(),
        old(first)@.announcing is Some,
        call_ensures(RtcDataChannelEventHandlers::on_open, (first,), r),
        *old(again) == *final(first),
        call_ensures(RtcDataChannelEventHandlers::on_open, (again,), s),
    ensures
        r is Some,
        r->0@.line == old(first)@.announcing->0.line,
        r->0@.items.drop_last() == old(first)@.announcing->0.items,
        r->0@.items.last() matches RtcNegotiationNotification::DataChannelOpened((id, inbox))
            && id == old(first)@.id && inbox@.line == old(first)@.delivered.line
            && inbox@.seen.len() == 0,
        s is None,
        final(again)@.id == old(first)@.id,
        final(again)@.delivered == old(first)@.delivered,
{
}

/// A channel's owner is told everything that happens, each once and in its order: a message
/// with its bytes, an error with its text, and the close.
pub proof fn law_everything_is_delivered_in_order(
    on_message: &mut RtcDataChannelEventHandlers,
    message: &[u8],
    on_error: &mut RtcDataChannelEventHandlers,
    err: &str,
    on_closed: &mut RtcDataChannelEventHandlers,
)
    requires
        old(on_message).well_formed(),
        call_ensures(RtcDataChannelEventHandlers::on_message, (on_message, message), ()),
        *old(on_error) == *final(on_message),
        call_ensures(RtcDataChannelEventHandlers::on_error, (on_error, err), ()),
        *old(on_closed) == *final(on_error),
        call_ensures(RtcDataChannelEventHandlers::on_closed, (on_closed,), ()),
    ensures
        ({
            let before = old(on_message)@.delivered.items;
            let after = final(on_closed)@.delivered.items;
            let n = before.len() as int;
            &&& after.len() == n + 3
            &&& after.take(n) == before
            &&& after[n] matches Ok(m) && m@ == message@
            &&& after[n + 1] matches Err(RtcDataChannelError::Receive(x)) && x@
                == "The channel encountered an error: "@ + err@
            &&& after[n + 2] matches Err(RtcDataChannelError::Receive(x)) && x@
                == "The channel was closed."@
        }),
        final(on_closed)@.id == old(on_message)@.id,
        final(on_closed)@.announcing == old(on_message)@.announcing,
        final(on_closed)@.delivered.line == old(on_message)@.delivered.line,
{
    let n = old(on_message)@.delivered.items.len() as int;
    let a = final(on_message)@.delivered.items;
    let b = final(on_error)@.delivered.items;
    let c = final(on_closed)@.delivered.items;
    assert(c.drop_last() == b && b.drop_last() == a);
    assert(a.drop_last() == old(on_message)@.delivered.items);
    assert(c[n] == c.drop_last()[n] && c[n + 1] == c.drop_last()[n + 1]);
    assert(b[n] == b.drop_last()[n]);
    assert forall|i: int| 0 <= i < n implies c[i] == #[trigger] old(on_message)@.delivered.items[i] by {
        assert(c[i] == c.drop_last()[i] && b[i] == b.drop_last()[i] && a[i] == a.drop_last()[i]);
    }
    assert(c.take(n) =~= old(on_message)@.delivered.items);
}

} // verus!
