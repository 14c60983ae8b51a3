//! The queues between the network stack's callbacks and the code that polls.
//!
//! A queue is one `futures` channel. Its sending ends sit in callbacks that other threads
//! run, so what a poll finds is not determined by anything the polling side knows. Each end
//! keeps a ghost record of what has passed through it.
//!
//! The two records meet where both ends are at hand. A sending end that is borrowed takes
//! nothing in meanwhile; if it is the only one, a poll beside it finds the next of the items
//! that went in, and nothing once all have come out.
use futures::channel::mpsc::{unbounded, UnboundedReceiver, UnboundedSender};
use vstd::prelude::*;

verus! {

/// The sending end of a `futures` channel.
#[verifier::external_type_specification]
#[verifier::external_body]
#[verifier::reject_recursive_types(T)]
pub struct ExUnboundedSender<T>(UnboundedSender<T>);

/// The receiving end of a `futures` channel.
#[verifier::external_type_specification]
#[verifier::external_body]
#[verifier::reject_recursive_types(T)]
pub struct ExUnboundedReceiver<T>(UnboundedReceiver<T>);

/// What a poll of a queue found.
pub enum Polled<T> {
    /// The next item.
    Item(T),
    /// No item at the moment.
    Empty,
    /// No item, and no sending end is left that could bring one.
    Closed,
}

/// What has passed through a sending end.
#[verifier::ext_equal]
pub struct Sent<T> {
    /// Which queue it is an end of.
    pub line: int,
    /// The items that went in through this end.
    pub items: Seq<T>,
    /// Whether it is the end that the queue was made with.
    pub first: bool,
    /// How many further ends were split off from this one.
    pub ends: nat,
}

/// What has come out of a receiving end.
#[verifier::ext_equal]
pub struct Drawn<T> {
    /// Which queue it is the end of.
    pub line: int,
    /// What every poll has found.
    pub seen: Seq<Polled<T>>,
}

/// `after` is `before` and one more.
pub open spec fn one_more<T>(before: Seq<T>, after: Seq<T>) -> bool {
    after.len() == before.len() + 1 && after.drop_last() == before
}

/// The items that some polls have found.
pub open spec fn found<T>(seen: Seq<Polled<T>>) -> Seq<T>
    decreases seen.len(),
{
    if seen.len() == 0 {
        Seq::empty()
    } else {
        match seen.last() {
            Polled::Item(x) => found(seen.drop_last()).push(x),
            _ => found(seen.drop_last()),
        }
    }
}

/// One more item went in through this end, and no end was split off from it.
pub open spec fn takes_one<T>(before: Sent<T>, after: Sent<T>) -> bool {
    &&& after.line == before.line
    &&& after.first == before.first
    &&& after.ends == before.ends
    &&& one_more(before.items, after.items)
}

/// This item went in through this end, and nothing else happened to it.
pub open spec fn takes<T>(before: Sent<T>, after: Sent<T>, item: T) -> bool {
    after == (Sent { items: before.items.push(item), ..before })
}

/// The end that a queue is made with, through which nothing has gone in.
pub open spec fn first_end<T>(line: int) -> Sent<T> {
    Sent { line, items: Seq::empty(), first: true, ends: 0 }
}

/// An end that was split off, through which nothing has gone in.
pub open spec fn further_end<T>(line: int) -> Sent<T> {
    Sent { line, items: Seq::empty(), first: false, ends: 0 }
}

/// An end from which one more was split off.
pub open spec fn split<T>(s: Sent<T>) -> Sent<T> {
    Sent { ends: s.ends + 1, ..s }
}

/// The receiving end, after a poll has found this.
pub open spec fn having_found<T>(d: Drawn<T>, r: Polled<T>) -> Drawn<T> {
    Drawn { seen: d.seen.push(r), ..d }
}

/// No sending end was left when the queue was last polled.
pub open spec fn is_over<T>(seen: Seq<Polled<T>>) -> bool {
    seen.len() > 0 && seen.last() is Closed
}

/// Everything that goes into the queue of this receiving end goes in through this end.
pub open spec fn feeds<T>(sent: Sent<T>, drawn: Drawn<T>) -> bool {
    &&& sent.line == drawn.line
    &&& sent.first
    &&& sent.ends == 0
    &&& !is_over(drawn.seen)
}

/// What has come out is what went in, item by item from the first on.
pub open spec fn agrees<T>(sent: Sent<T>, drawn: Drawn<T>) -> bool {
    found(drawn.seen).is_prefix_of(sent.items)
}

/// What a poll finds beside the end through which everything goes in: the first item that
/// has not come out yet.
pub open spec fn found_beside<T>(sent: Sent<T>, drawn: Drawn<T>) -> Polled<T> {
    let k = found(drawn.seen).len() as int;
    if k < sent.items.len() {
        Polled::Item(sent.items[k])
    } else {
        Polled::Empty
    }
}

/// The receiving end, after `n` polls beside the end through which everything goes in.
pub open spec fn after_polls<T>(sent: Sent<T>, drawn: Drawn<T>, n: nat) -> Drawn<T>
    decreases n,
{
    if n == 0 {
        drawn
    } else {
        let before = after_polls(sent, drawn, (n - 1) as nat);
        having_found(before, found_beside(sent, before))
    }
}

/// What went in through the only end comes out whole, in order, and without a pause: beside
/// that end, every poll finds the next item, each once, until all have come out, and a poll
/// after that finds nothing.
pub proof fn law_only_end_comes_out_whole<T>(sent: Sent<T>, drawn: Drawn<T>, n: nat)
    requires
        feeds(sent, drawn),
        agrees(sent, drawn),
    ensures
        ({
            let start = found(drawn.seen).len();
            let after = after_polls(sent, drawn, n);
            &&& after.line == drawn.line
            &&& feeds(sent, after)
            &&& agrees(sent, after)
            &&& after.seen.len() == drawn.seen.len() + n
            &&& after.seen.take(drawn.seen.len() as int) == drawn.seen
            &&& forall|i: int|
                0 <= i < n ==> #[trigger] after.seen[drawn.seen.len() + i] == if start + i
                    < sent.items.len() {
                    Polled::Item(sent.items[start + i])
                } else {
                    Polled::Empty
                }
            &&& found(after.seen).len() == if start + n < sent.items.len() {
                (start + n) as nat
            } else {
                sent.items.len()
            }
            &&& start + n >= sent.items.len() ==> found(after.seen) == sent.items
        }),
    decreases n,
{
    let start = found(drawn.seen).len();
    if n == 0 {
        assert(drawn.seen.take(drawn.seen.len() as int) =~= drawn.seen);
        if start >= sent.items.len() {
            assert(found(drawn.seen) =~= sent.items);
        }
    } else {
        let m = (n - 1) as nat;
        law_only_end_comes_out_whole(sent, drawn, m);
        let before = after_polls(sent, drawn, m);
        let r = found_beside(sent, before);
        let after = having_found(before, r);
        assert(after.seen.drop_last() =~= before.seen);
        assert(after.seen.last() == r);
        assert(after.seen.take(drawn.seen.len() as int) =~= before.seen.take(
            drawn.seen.len() as int,
        ));
        assert forall|i: int| 0 <= i < n implies #[trigger] after.seen[drawn.seen.len() + i]
            == if start + i < sent.items.len() {
            Polled::Item(sent.items[start + i])
        } else {
            Polled::Empty
        } by {
            if i < m {
                assert(after.seen[drawn.seen.len() + i] == before.seen[drawn.seen.len() + i]);
            }
        }
        if start + n >= sent.items.len() {
            assert(found(after.seen) =~= sent.items);
        }
    }
}

/// The sending end of a queue.
#[verifier::reject_recursive_types(T)]
pub struct Outbox<T> {
    sender: UnboundedSender<T>,
    sent: Ghost<Sent<T>>,
}

/// The receiving end of a queue.
#[verifier::reject_recursive_types(T)]
pub struct Inbox<T> {
    receiver: UnboundedReceiver<T>,
    drawn: Ghost<Drawn<T>>,
}

impl<T> View for Outbox<T> {
    type V = Sent<T>;

    closed spec fn view(&self) -> Sent<T> {
        self.sent@
    }
}

impl<T> View for Inbox<T> {
    type V = Drawn<T>;

    closed spec fn view(&self) -> Drawn<T> {
        self.drawn@
    }
}

/// `futures::channel::mpsc::unbounded`: the two ends of a new channel, through which nothing
/// has passed.
#[verifier::external_body]
fn new_channel<T>() -> (r: (Outbox<T>, Inbox<T>))
    ensures
        r.0@ == first_end::<T>(r.1@.line),
        r.1@.seen == Seq::<Polled<T>>::empty(),
{
    let (sender, receiver) = unbounded();
    (Outbox { sender, sent: Ghost(arbitrary()) }, Inbox { receiver, drawn: Ghost(arbitrary()) })
}

/// `UnboundedSender::unbounded_send`: the item goes into the channel through this end, after
/// all that went in through it before. Where the receiving end is gone, the channel hands the
/// item back and it is dropped; whether that is so depends on other threads, and nothing is
/// claimed of it.
#[verifier::external_body]
fn send_through<T>(outbox: &mut Outbox<T>, item: T)
    ensures
        takes(old(outbox)@, final(outbox)@, item),
{
    let _ = outbox.sender.unbounded_send(item);
}

/// `UnboundedSender::clone`: one more sending end of the same channel, through which nothing
/// has passed. The end that it is split off from keeps its record, in which it is counted.
#[verifier::external_body]
fn clone_sender<T>(outbox: &mut Outbox<T>) -> (r: Outbox<T>)
    ensures
        r@ == further_end::<T>(old(outbox)@.line),
        final(outbox)@ == split(old(outbox)@),
{
    Outbox { sender: outbox.sender.clone(), sent: Ghost(arbitrary()) }
}

/// `UnboundedReceiver::try_next`: takes the next item without waiting. `Ok(None)` says that
/// the channel is empty and can get no more items, and is then said at every later call;
/// `Err` says that it is empty. Which of the three comes depends on what other threads have
/// sent by then, and nothing is claimed of it, except where `beside` is a sending end of the
/// same channel and the only one. That end is borrowed, so nothing goes in during the call,
/// and everything that went in before is there: the channel gives it out first in, first
/// out, all that has come out so far is what went in first, and the call takes the next item
/// or finds the channel empty.
#[verifier::external_body]
#[allow(deprecated)]
fn take_next<T>(inbox: &mut Inbox<T>, beside: Option<&Outbox<T>>) -> (r: Polled<T>)
    ensures
        final(inbox)@ == having_found(old(inbox)@, r),
        is_over(old(inbox)@.seen) ==> r is Closed,
        beside matches Some(outbox) ==> feeds(outbox@, old(inbox)@) ==> {
            &&& r == found_beside(outbox@, old(inbox)@)
            &&& agrees(outbox@, final(inbox)@)
        },
{
    match inbox.receiver.try_next() {
        Ok(Some(x)) => Polled::Item(x),
        Ok(None) => Polled::Closed,
        Err(_) => Polled::Empty,
    }
}

/// A new queue.
pub fn queue<T>() -> (r: (Outbox<T>, Inbox<T>))
    ensures
        r.0@ == first_end::<T>(r.1@.line),
        r.1@.seen == Seq::<Polled<T>>::empty(),
{
    new_channel()
}

impl<T> Outbox<T> {
    /// Hands an item to the queue. Where nobody receives any more, the item is dropped.
    pub fn post(&mut self, item: T)
        ensures
            takes(old(self)@, final(self)@, item),
            takes_one(old(self)@, final(self)@),
    {
        let ghost before = self@.items;
        send_through(self, item);
        assert(self@.items.drop_last() =~= before);
    }

    /// Another sending end of the same queue.
    pub fn another(&mut self) -> (r: Outbox<T>)
        ensures
            r@ == further_end::<T>(old(self)@.line),
            final(self)@ == split(old(self)@),
    {
        clone_sender(self)
    }
}

impl<T> Inbox<T> {
    /// Takes the next item, if there is one. Once there can be no more, this stays so.
    pub fn poll(&mut self) -> (r: Polled<T>)
        ensures
            final(self)@ == having_found(old(self)@, r),
            is_over(old(self)@.seen) ==> r is Closed,
    {
        take_next(self, None)
    }

    /// Takes the next item, with a sending end at hand. If everything goes in through that
    /// end, the first item that has not come out yet is taken; there is none only if all
    /// have.
    pub fn poll_beside(&mut self, outbox: &Outbox<T>) -> (r: Polled<T>)
        ensures
            final(self)@ == having_found(old(self)@, r),
            is_over(old(self)@.seen) ==> r is Closed,
            feeds(outbox@, old(self)@) ==> {
                &&& r == found_beside(outbox@, old(self)@)
                &&& agrees(outbox@, final(self)@)
            },
    {
        take_next(self, Some(outbox))
    }
}

/// What goes in through an end comes behind what went in before, which stays as it is, and the
/// end is otherwise the same.
pub proof fn law_taken_item_comes_last<T>(before: Sent<T>, after: Sent<T>, item: T)
    requires
        takes(before, after, item),
    ensures
        after.items.len() == before.items.len() + 1,
        after.items.last() == item,
        forall|i: int| 0 <= i < before.items.len() ==> after.items[i] == #[trigger] before.items[i],
        after.line == before.line,
        after.first == before.first,
        after.ends == before.ends,
        takes_one(before, after),
{
    assert(after.items.drop_last() =~= before.items);
}

/// Splitting an end off leaves its own items alone and is counted; the end that was split off
/// belongs to the same queue, has taken nothing, and is not the one that the queue was made
/// with.
pub proof fn law_split_end_is_a_further_one<T>(s: Sent<T>)
    ensures
        split(s).line == s.line,
        split(s).items == s.items,
        split(s).first == s.first,
        split(s).ends == s.ends + 1,
        further_end::<T>(s.line).line == s.line,
        further_end::<T>(s.line).items.len() == 0,
        !further_end::<T>(s.line).first,
        further_end::<T>(s.line).ends == 0,
        first_end::<T>(s.line).line == s.line,
        first_end::<T>(s.line).items.len() == 0,
        first_end::<T>(s.line).first,
        first_end::<T>(s.line).ends == 0,
{
}

} // verus!
