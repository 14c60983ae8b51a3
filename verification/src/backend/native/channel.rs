//! An open channel.
use crate::backend::native::handlers::RtcDataChannelEventHandlers;
use crate::channel::RtcDataChannelReadyState;
use crate::delivery::{hand_out, handed_out, looks, looks_beside, next_message, Delivery};
use crate::error::RtcDataChannelError;
use crate::queue::{feeds, found, is_over, Drawn, Inbox, Polled};
use vstd::prelude::*;

verus! {

/// The number of a channel, from the number of the stream that carries it.
pub fn channel_id(stream: usize) -> (r: u16)
    ensures
        r == stream % 65536,
{
    (stream % 65536) as u16
}

/// An open channel. `H` is the network stack's hold on it.
pub struct RtcDataChannel<H> {
    handle: H,
    label: String,
    message_recv: Inbox<Delivery>,
    state: RtcDataChannelReadyState,
}

/// An open channel, by its parts; `inbox` is where its messages arrive, with what every
/// look for one has found.
pub struct DataChannelView<H> {
    pub handle: H,
    pub label: Seq<char>,
    pub inbox: Drawn<Delivery>,
    pub state: RtcDataChannelReadyState,
}

impl<H> View for RtcDataChannel<H> {
    type V = DataChannelView<H>;

    closed spec fn view(&self) -> DataChannelView<H> {
        DataChannelView {
            handle: self.handle,
            label: self.label@,
            inbox: self.message_recv@,
            state: self.state,
        }
    }
}

/// The state after a look for a message: an error closes the channel.
pub open spec fn state_after_look(
    state: RtcDataChannelReadyState,
    found: Polled<Delivery>,
) -> RtcDataChannelReadyState {
    match found {
        Polled::Item(Err(_)) => RtcDataChannelReadyState::Closed,
        _ => state,
    }
}

/// The state after an attempt to send: a refusal closes the channel.
pub open spec fn state_after_send(
    state: RtcDataChannelReadyState,
    outcome: Result<(), String>,
) -> RtcDataChannelReadyState {
    match outcome {
        Ok(_) => state,
        Err(_) => RtcDataChannelReadyState::Closed,
    }
}

/// A closed channel stays closed, and an open one is open or closed afterwards.
pub proof fn law_closed_stays_closed(found: Polled<Delivery>, outcome: Result<(), String>)
    ensures
        state_after_look(RtcDataChannelReadyState::Closed, found)
            == RtcDataChannelReadyState::Closed,
        state_after_send(RtcDataChannelReadyState::Closed, outcome)
            == RtcDataChannelReadyState::Closed,
        state_after_look(RtcDataChannelReadyState::Open, found) is Open || state_after_look(
            RtcDataChannelReadyState::Open,
            found,
        ) is Closed,
        state_after_send(RtcDataChannelReadyState::Open, outcome) is Open || state_after_send(
            RtcDataChannelReadyState::Open,
            outcome,
        ) is Closed,
{
}

impl<H> RtcDataChannel<H> {
    /// A channel that has just opened.
    pub fn new(handle: H, label: String, message_recv: Inbox<Delivery>) -> (r: Self)
        ensures
            r@ == (DataChannelView {
                handle,
                label: label@,
                inbox: message_recv@,
                state: RtcDataChannelReadyState::Open,
            }),
    {
        RtcDataChannel { handle, label, message_recv, state: RtcDataChannelReadyState::Open }
    }

    /// The network stack's hold on the channel.
    pub fn handle(&self) -> (r: &H)
        ensures
            *r == self@.handle,
    {
        &self.handle
    }

    /// The channel's number; `stream_of` reads the number of the stream that carries it off
    /// the network stack.
    pub fn id<F: Fn(&H) -> usize>(&self, stream_of: F) -> (r: u16)
        requires
            call_requires(stream_of, (&self@.handle,)),
        ensures
            exists|stream: usize| #[trigger]
                call_ensures(stream_of, (&self@.handle,), stream) && r == stream % 65536,
    {
        channel_id(stream_of(&self.handle))
    }

    pub fn label(&self) -> (r: &str)
        ensures
            r@ == self@.label,
    {
        self.label.as_str()
    }

    pub fn ready_state(&self) -> (r: RtcDataChannelReadyState)
        ensures
            r == self@.state,
    {
        self.state
    }

    /// A message was sent, or was refused with this text. A refusal closes the channel.
    pub fn send(&mut self, outcome: Result<(), String>) -> (r: Result<(), RtcDataChannelError>)
        ensures
            r == (match outcome {
                Ok(_) => Ok(()),
                Err(x) => Err(RtcDataChannelError::Send(x)),
            }),
            final(self)@ == (DataChannelView {
                state: state_after_send(old(self)@.state, outcome),
                ..old(self)@
            }),
    {
        match outcome {
            Ok(()) => Ok(()),
            Err(x) => {
                self.state = RtcDataChannelReadyState::Closed;
                Err(RtcDataChannelError::Send(x))
            },
        }
    }

    /// Looks for a message that is to be written somewhere. The channel stays in the state
    /// in which it is, also on an error.
    pub fn receive(&mut self) -> (r: Option<Result<Option<Vec<u8>>, RtcDataChannelError>>)
        ensures
            looks(old(self)@.inbox, final(self)@.inbox),
            r == handed_out(final(self)@.inbox.seen.last()),
            is_over(old(self)@.inbox.seen) ==> r is None,
            final(self)@ == (DataChannelView { inbox: final(self)@.inbox, ..old(self)@ }),
    {
        next_message(&mut self.message_recv)
    }

    /// The message was written, or could not be: its length is reported, or why not.
    pub fn written(message: &Vec<u8>, outcome: Result<usize, std::io::Error>) -> (r: Result<
        Option<usize>,
        RtcDataChannelError,
    >)
        ensures
            r == (match outcome {
                Ok(_) => Ok(Some(message@.len() as usize)),
                Err(x) => Err(RtcDataChannelError::WriteError(x)),
            }),
    {
        match outcome {
            Ok(_) => Ok(Some(message.len())),
            Err(x) => Err(RtcDataChannelError::WriteError(x)),
        }
    }

    /// Hands out what a look for a message has found. An error closes the channel.
    pub fn deliver_vec(&mut self, found: Polled<Delivery>) -> (r: Option<
        Result<Option<Vec<u8>>, RtcDataChannelError>,
    >)
        ensures
            r == handed_out(found),
            final(self)@ == (DataChannelView {
                state: state_after_look(old(self)@.state, found),
                ..old(self)@
            }),
    {
        let r = hand_out(found);
        if let Some(outcome) = &r {
            if outcome.is_err() {
                self.state = RtcDataChannelReadyState::Closed;
            }
        }
        r
    }

    /// Looks for a message: `Some(Ok(None))` if there is none yet, `None` if there never
    /// will be one. An error closes the channel.
    pub fn receive_vec(&mut self) -> (r: Option<Result<Option<Vec<u8>>, RtcDataChannelError>>)
        ensures
            looks(old(self)@.inbox, final(self)@.inbox),
            r == handed_out(final(self)@.inbox.seen.last()),
            is_over(old(self)@.inbox.seen) ==> r is None,
            final(self)@ == (DataChannelView {
                inbox: final(self)@.inbox,
                state: state_after_look(old(self)@.state, final(self)@.inbox.seen.last()),
                ..old(self)@
            }),
    {
        let ghost before = self@.inbox.seen;
        let found = self.message_recv.poll();
        assert(self@.inbox.seen.drop_last() =~= before);
        self.deliver_vec(found)
    }

    /// As `receive_vec`, with the callbacks at hand, which deliver nothing meanwhile: where
    /// these are the channel's own, the first delivery that was not handed out yet is handed
    /// out, and `Some(Ok(None))` comes only if all were.
    pub fn receive_vec_beside(&mut self, callbacks: &RtcDataChannelEventHandlers) -> (r: Option<
        Result<Option<Vec<u8>>, RtcDataChannelError>,
    >)
        ensures
            looks(old(self)@.inbox, final(self)@.inbox),
            r == handed_out(final(self)@.inbox.seen.last()),
            is_over(old(self)@.inbox.seen) ==> r is None,
            feeds(callbacks@.delivered, old(self)@.inbox) ==> looks_beside(
                callbacks@.delivered,
                old(self)@.inbox,
                final(self)@.inbox,
            ),
            final(self)@ == (DataChannelView {
                inbox: final(self)@.inbox,
                state: state_after_look(old(self)@.state, final(self)@.inbox.seen.last()),
                ..old(self)@
            }),
    {
        let ghost before = self@.inbox.seen;
        let found = self.message_recv.poll_beside(callbacks.end());
        assert(self@.inbox.seen.drop_last() =~= before);
        self.deliver_vec(found)
    }
}

/// Only an error closes a channel: a look that finds a message, or none, or that none will
/// come, and a message that was sent, leave it in the state in which it was.
pub proof fn law_only_an_error_closes(
    state: RtcDataChannelReadyState,
    found: Polled<Delivery>,
    outcome: Result<(), String>,
)
    ensures
        found matches Polled::Item(Err(_)) ==> state_after_look(state, found) is Closed,
        !(found matches Polled::Item(Err(_))) ==> state_after_look(state, found) == state,
        outcome is Err ==> state_after_send(state, outcome) is Closed,
        outcome is Ok ==> state_after_send(state, outcome) == state,
{
}

/// A channel's number is that of its stream where it fits into sixteen bits, and goes round
/// where it does not.
pub proof fn law_number_is_that_of_the_stream(stream: usize, r: u16)
    requires
        call_ensures(channel_id, (stream,), r),
    ensures
        stream <= u16::MAX ==> r == stream,
        exists|turns: int| 0 <= turns && stream == r + #[trigger] (turns * 65536),
{
    assert(stream == r + (stream / 65536) * 65536);
}

/// A channel that has just opened is open, and has the hold, the name and the queue that it
/// was made with.
pub proof fn law_new_channel_is_open<H>(
    handle: H,
    label: String,
    inbox: Inbox<Delivery>,
    channel: RtcDataChannel<H>,
    hold: &H,
    name: &str,
    state: RtcDataChannelReadyState,
)
    requires
        call_ensures(RtcDataChannel::<H>::new, (handle, label, inbox), channel),
        call_ensures(RtcDataChannel::<H>::handle, (&channel,), hold),
        call_ensures(RtcDataChannel::<H>::label, (&channel,), name),
        call_ensures(RtcDataChannel::<H>::ready_state, (&channel,), state),
    ensures
        *hold == handle,
        name@ == label@,
        state is Open,
        channel@.inbox == inbox@,
{
}

/// A message that the stack takes changes nothing; one that it refuses closes the channel, and
/// the caller gets the stack's text.
pub proof fn law_refused_message_closes<H>(
    channel: &mut RtcDataChannel<H>,
    outcome: Result<(), String>,
    r: Result<(), RtcDataChannelError>,
)
    requires
        call_ensures(RtcDataChannel::<H>::send, (channel, outcome), r),
    ensures
        outcome is Ok ==> r is Ok && final(channel)@ == old(channel)@,
        outcome matches Err(x) ==> {
            &&& r == Err::<(), _>(RtcDataChannelError::Send(x))
            &&& final(channel)@.state is Closed
        },
        final(channel)@.handle == old(channel)@.handle,
        final(channel)@.label == old(channel)@.label,
        final(channel)@.inbox == old(channel)@.inbox,
{
}

/// What was written is reported by its length, and a failed write by its error.
pub proof fn law_written_message_is_counted<H>(
    message: &Vec<u8>,
    outcome: Result<usize, std::io::Error>,
    r: Result<Option<usize>, RtcDataChannelError>,
)
    requires
        call_ensures(RtcDataChannel::<H>::written, (message, outcome), r),
    ensures
        outcome is Ok ==> (r matches Ok(Some(n)) && n == message@.len()),
        outcome matches Err(x) ==> r == Err::<Option<usize>, _>(RtcDataChannelError::WriteError(x)),
{
    assert(message.len() == message@.len());
}

/// What a look finds is what the caller gets, and only an error closes the channel.
pub proof fn law_found_message_is_handed_out<H>(
    channel: &mut RtcDataChannel<H>,
    found: Polled<Delivery>,
    r: Option<Result<Option<Vec<u8>>, RtcDataChannelError>>,
)
    requires
        call_ensures(RtcDataChannel::<H>::deliver_vec, (channel, found), r),
    ensures
        match found {
            Polled::Item(Ok(m)) => r matches Some(Ok(Some(x))) && x == m,
            Polled::Item(Err(e)) => r matches Some(Err(x)) && x == e,
            Polled::Empty => r matches Some(Ok(None)),
            Polled::Closed => r is None,
        },
        found matches Polled::Item(Err(_)) ==> final(channel)@.state is Closed,
        !(found matches Polled::Item(Err(_))) ==> final(channel)@.state == old(channel)@.state,
        final(channel)@.handle == old(channel)@.handle,
        final(channel)@.label == old(channel)@.label,
        final(channel)@.inbox == old(channel)@.inbox,
{
}

/// Receiving takes one look, and what it finds is handed out; `receive_vec` closes the channel
/// on an error, and `receive` leaves its state alone.
pub proof fn law_receiving_takes_one_look<H>(
    channel: &mut RtcDataChannel<H>,
    r: Option<Result<Option<Vec<u8>>, RtcDataChannelError>>,
    other: &mut RtcDataChannel<H>,
    s: Option<Result<Option<Vec<u8>>, RtcDataChannelError>>,
)
    requires
        call_ensures(RtcDataChannel::<H>::receive_vec, (channel,), r),
        call_ensures(RtcDataChannel::<H>::receive, (other,), s),
    ensures
        final(channel)@.inbox.seen.len() == old(channel)@.inbox.seen.len() + 1,
        final(channel)@.inbox.seen.drop_last() == old(channel)@.inbox.seen,
        match final(channel)@.inbox.seen.last() {
            Polled::Item(Ok(m)) => r matches Some(Ok(Some(x))) && x == m,
            Polled::Item(Err(e)) => r matches Some(Err(x)) && x == e,
            Polled::Empty => r matches Some(Ok(None)),
            Polled::Closed => r is None,
        },
        r matches Some(Err(_)) ==> final(channel)@.state is Closed,
        !(r matches Some(Err(_))) ==> final(channel)@.state == old(channel)@.state,
        final(other)@.inbox.seen.len() == old(other)@.inbox.seen.len() + 1,
        match final(other)@.inbox.seen.last() {
            Polled::Item(Ok(m)) => s matches Some(Ok(Some(x))) && x == m,
            Polled::Item(Err(e)) => s matches Some(Err(x)) && x == e,
            Polled::Empty => s matches Some(Ok(None)),
            Polled::Closed => s is None,
        },
        final(other)@.state == old(other)@.state,
{
}

/// A message that comes is the next that is received, where the channel's owner has received
/// everything before it: its bytes go through whole, and the channel stays as it is.
pub proof fn law_message_is_received<H>(
    callbacks: &mut RtcDataChannelEventHandlers,
    message: &[u8],
    after: &RtcDataChannelEventHandlers,
    channel: &mut RtcDataChannel<H>,
    r: Option<Result<Option<Vec<u8>>, RtcDataChannelError>>,
)
    requires
        old(callbacks).well_formed(),
        feeds(old(callbacks)@.delivered, old(channel)@.inbox),
        found(old(channel)@.inbox.seen) == old(callbacks)@.delivered.items,
        call_ensures(RtcDataChannelEventHandlers::on_message, (callbacks, message), ()),
        *after == *final(callbacks),
        call_ensures(RtcDataChannel::<H>::receive_vec_beside, (channel, after), r),
    ensures
        r matches Some(Ok(Some(m))) && m@ == message@,
        final(channel)@.state == old(channel)@.state,
        found(final(channel)@.inbox.seen) == final(callbacks)@.delivered.items,
{
    let sent = final(callbacks)@.delivered;
    let seen = old(channel)@.inbox.seen;
    let k = found(seen).len() as int;
    assert(sent.items[k] == sent.items.last());
    assert(final(channel)@.inbox.seen == seen.push(Polled::Item(sent.items[k])));
    assert(seen.push(Polled::Item(sent.items[k])).drop_last() =~= seen);
    assert(found(final(channel)@.inbox.seen) == found(seen).push(sent.items[k]));
    assert(sent.items =~= sent.items.drop_last().push(sent.items.last()));
}

} // verus!
