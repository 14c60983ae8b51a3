//! Messages on their way from a channel's callbacks to the caller.
use crate::error::RtcDataChannelError;
use crate::queue::{
    after_polls, agrees, feeds, found, found_beside, having_found, is_over,
    law_only_end_comes_out_whole, one_more, Drawn, Inbox, Outbox, Polled, Sent,
};
use vstd::prelude::*;

verus! {

/// What a channel's callbacks deliver: a message, or the reason why none will come.
pub type Delivery = Result<Vec<u8>, RtcDataChannelError>;

/// What the caller gets by what a look into the queue has found: the message or the
/// reason, `Ok(None)` if there is no message yet, and `None` if the callbacks are gone and
/// there never will be one.
pub open spec fn handed_out(found: Polled<Delivery>) -> Option<
    Result<Option<Vec<u8>>, RtcDataChannelError>,
> {
    match found {
        Polled::Item(Ok(message)) => Some(Ok(Some(message))),
        Polled::Item(Err(e)) => Some(Err(e)),
        Polled::Empty => Some(Ok(None)),
        Polled::Closed => None,
    }
}

/// Hands out what a look into the queue has found.
pub fn hand_out(found: Polled<Delivery>) -> (r: Option<
    Result<Option<Vec<u8>>, RtcDataChannelError>,
>)
    ensures
        r == handed_out(found),
{
    match found {
        Polled::Item(Ok(message)) => Some(Ok(Some(message))),
        Polled::Item(Err(e)) => Some(Err(e)),
        Polled::Empty => Some(Ok(None)),
        Polled::Closed => None,
    }
}

/// One look into a queue.
pub open spec fn looks(before: Drawn<Delivery>, after: Drawn<Delivery>) -> bool {
    &&& after.line == before.line
    &&& one_more(before.seen, after.seen)
}

/// Looks into the queue once and hands out what is found.
pub fn next_message(queue: &mut Inbox<Delivery>) -> (r: Option<
    Result<Option<Vec<u8>>, RtcDataChannelError>,
>)
    ensures
        looks(old(queue)@, final(queue)@),
        r == handed_out(final(queue)@.seen.last()),
        is_over(old(queue)@.seen) ==> r is None,
{
    let ghost before = queue@.seen;
    let found = queue.poll();
    assert(queue@.seen.drop_last() =~= before);
    hand_out(found)
}

/// One look into a queue beside the end through which everything goes in: the first item
/// that has not come out yet comes out.
pub open spec fn looks_beside(
    sent: Sent<Delivery>,
    before: Drawn<Delivery>,
    after: Drawn<Delivery>,
) -> bool {
    &&& after == having_found(before, found_beside(sent, before))
    &&& agrees(sent, after)
}

/// Looks into the queue once, with a sending end at hand, and hands out what is found.
pub fn next_message_beside(queue: &mut Inbox<Delivery>, outbox: &Outbox<Delivery>) -> (r: Option<
    Result<Option<Vec<u8>>, RtcDataChannelError>,
>)
    ensures
        looks(old(queue)@, final(queue)@),
        r == handed_out(final(queue)@.seen.last()),
        is_over(old(queue)@.seen) ==> r is None,
        feeds(outbox@, old(queue)@) ==> looks_beside(outbox@, old(queue)@, final(queue)@),
{
    let ghost before = queue@.seen;
    let found = queue.poll_beside(outbox);
    assert(queue@.seen.drop_last() =~= before);
    hand_out(found)
}

/// What a channel's callbacks deliver is received as they deliver it: beside them, the looks
/// that follow hand out every message and every error that was delivered, each once, whole
/// and in the order of delivery, and a look after the last finds none.
pub proof fn law_received_as_delivered(sent: Sent<Delivery>, drawn: Drawn<Delivery>, n: nat)
    requires
        feeds(sent, drawn),
        agrees(sent, drawn),
    ensures
        ({
            let start = found(drawn.seen).len();
            let after = after_polls(sent, drawn, n);
            &&& after.seen.len() == drawn.seen.len() + n
            &&& forall|i: int|
                0 <= i < n ==> handed_out(#[trigger] after.seen[drawn.seen.len() + i]) == if start
                    + i < sent.items.len() {
                    match sent.items[start + i] {
                        Ok(message) => Some(Ok(Some(message))),
                        Err(e) => Some(Err(e)),
                    }
                } else {
                    Some(Ok(None))
                }
        }),
{
    law_only_end_comes_out_whole(sent, drawn, n);
}

/// The messages of a channel that was then closed: where nothing else was delivered and
/// nothing received yet, two looks more than there are messages hand out every message, then
/// the close, and then that there is nothing more.
pub proof fn law_close_is_received_last(
    sent: Sent<Delivery>,
    drawn: Drawn<Delivery>,
    messages: Seq<Vec<u8>>,
    close: RtcDataChannelError,
)
    requires
        feeds(sent, drawn),
        drawn.seen.len() == 0,
        sent.items == messages.map_values(|m: Vec<u8>| Ok::<_, RtcDataChannelError>(m)).push(
            Err(close),
        ),
    ensures
        ({
            let k = messages.len() as int;
            let seen = after_polls(sent, drawn, messages.len() + 2).seen;
            &&& seen.len() == k + 2
            &&& forall|i: int|
                0 <= i < k ==> handed_out(#[trigger] seen[i]) == Some(
                    Ok::<_, RtcDataChannelError>(Some(messages[i])),
                )
            &&& handed_out(seen[k]) == Some(Err::<Option<Vec<u8>>, _>(close))
            &&& handed_out(seen[k + 1]) == Some(Ok::<Option<Vec<u8>>, RtcDataChannelError>(None))
        }),
{
    let n = messages.len() + 2;
    law_received_as_delivered(sent, drawn, n);
    let seen = after_polls(sent, drawn, n).seen;
    assert forall|i: int| 0 <= i < n implies handed_out(#[trigger] seen[i]) == if i
        < sent.items.len() {
        match sent.items[i] {
            Ok(message) => Some(Ok(Some(message))),
            Err(e) => Some(Err(e)),
        }
    } else {
        Some(Ok(None))
    } by {
        assert(seen[drawn.seen.len() + i] == seen[i]);
    }
}

/// Where a wait for a message stands.
pub enum Waiting<T> {
    /// It is over.
    Done(Result<T, RtcDataChannelError>),
    /// Nothing has come yet: give way and look again.
    Again,
}

/// What a look for a message means to someone who waits for one.
pub fn awaited<T>(look: Result<Option<T>, RtcDataChannelError>) -> (r: Waiting<T>)
    ensures
        r == (match look {
            Ok(Some(x)) => Waiting::Done(Ok(x)),
            Ok(None) => Waiting::Again,
            Err(e) => Waiting::Done(Err(e)),
        }),
{
    match look {
        Ok(Some(x)) => Waiting::Done(Ok(x)),
        Ok(None) => Waiting::Again,
        Err(e) => Waiting::Done(Err(e)),
    }
}

/// What was delivered is what is handed out, a message as a message and an error as an error;
/// an empty queue is no error, and a closed one no silence.
pub proof fn law_delivery_is_handed_out(message: Vec<u8>, e: RtcDataChannelError)
    ensures
        handed_out(Polled::Item(Ok(message))) matches Some(Ok(Some(m))) && m == message,
        handed_out(Polled::Item(Err(e))) matches Some(Err(x)) && x == e,
        handed_out(Polled::Empty) matches Some(Ok(None)),
        handed_out(Polled::Closed) is None,
{
}

/// A look takes one thing out of the queue, or finds none, and changes nothing else.
pub proof fn law_one_look_is_one_poll(before: Drawn<Delivery>, after: Drawn<Delivery>)
    requires
        looks(before, after),
    ensures
        after.line == before.line,
        after.seen.len() == before.seen.len() + 1,
        forall|i: int| 0 <= i < before.seen.len() ==> after.seen[i] == #[trigger] before.seen[i],
{
    assert forall|i: int| 0 <= i < before.seen.len() implies after.seen[i]
        == #[trigger] before.seen[i] by {
        assert(after.seen.drop_last()[i] == after.seen[i]);
    }
}

/// Someone who waits gets the message or the error that a look brings, and looks again where it
/// brings neither.
pub proof fn law_wait_ends_with_a_message<T>(
    look: Result<Option<T>, RtcDataChannelError>,
    r: Waiting<T>,
)
    requires
        call_ensures(awaited::<T>, (look,), r),
    ensures
        look matches Ok(Some(x)) ==> r == Waiting::Done(Ok(x)),
        look matches Ok(None) ==> r is Again,
        look matches Err(e) ==> r == Waiting::<T>::Done(Err(e)),
{
}

/// One look into a queue hands out what it finds, and what was seen before stays seen.
pub proof fn law_look_hands_out_what_it_finds(
    queue: &mut Inbox<Delivery>,
    r: Option<Result<Option<Vec<u8>>, RtcDataChannelError>>,
)
    requires
        call_ensures(next_message, (queue,), r),
    ensures
        final(queue)@.line == old(queue)@.line,
        final(queue)@.seen.len() == old(queue)@.seen.len() + 1,
        final(queue)@.seen.drop_last() == old(queue)@.seen,
        match final(queue)@.seen.last() {
            Polled::Item(Ok(m)) => r matches Some(Ok(Some(x))) && x == m,
            Polled::Item(Err(e)) => r matches Some(Err(x)) && x == e,
            Polled::Empty => r matches Some(Ok(None)),
            Polled::Closed => r is None,
        },
{
}

/// Beside the end through which everything goes in, a look hands out the first delivery that
/// was not handed out yet, and nothing if all were.
pub proof fn law_look_beside_hands_out_the_next(
    queue: &mut Inbox<Delivery>,
    outbox: &Outbox<Delivery>,
    r: Option<Result<Option<Vec<u8>>, RtcDataChannelError>>,
)
    requires
        feeds(outbox@, old(queue)@),
        call_ensures(next_message_beside, (queue, outbox), r),
    ensures
        ({
            let k = found(old(queue)@.seen).len() as int;
            if k < outbox@.items.len() {
                match outbox@.items[k] {
                    Ok(m) => r matches Some(Ok(Some(x))) && x == m,
                    Err(e) => r matches Some(Err(x)) && x == e,
                }
            } else {
                r matches Some(Ok(None))
            }
        }),
{
}

} // verus!
