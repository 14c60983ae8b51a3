//! A wait that ends after a number of polls.
use vstd::prelude::*;

verus! {

/// Gives way to other work `count` times and is then done.
pub struct PollFuture {
    count: u32,
}

impl PollFuture {
    /// How many more polls find it pending.
    pub closed spec fn remaining(&self) -> nat {
        self.count as nat
    }

    /// A wait of `count` polls.
    pub fn new(count: u32) -> (r: PollFuture)
        ensures
            r.remaining() == count,
    {
        PollFuture { count }
    }

    /// No wait at all.
    pub fn done() -> (r: PollFuture)
        ensures
            r.remaining() == 0,
    {
        PollFuture::new(0)
    }

    /// A wait of one poll.
    pub fn once() -> (r: PollFuture)
        ensures
            r.remaining() == 1,
    {
        PollFuture::new(1)
    }

    /// One poll: whether the wait is over. A poll that finds it pending brings the end
    /// nearer by one.
    pub fn poll(&mut self) -> (ready: bool)
        ensures
            ready == (old(self).remaining() == 0),
            old(self).remaining() > 0 ==> final(self).remaining() == old(self).remaining() - 1,
            old(self).remaining() == 0 ==> final(self).remaining() == 0,
    {
        if self.count > 0 {
            self.count = self.count - 1;
            return false;
        }
        true
    }
}

/// A wait of some polls is over neither sooner nor later: the poll of a new wait finds it over
/// exactly if it is a wait of none, and one that finds it pending leaves a wait of one less.
pub proof fn law_wait_takes_its_polls(
    count: u32,
    polled: &mut PollFuture,
    ready: bool,
    again: &mut PollFuture,
    over: bool,
)
    requires
        call_ensures(PollFuture::new, (count,), *old(polled)),
        call_ensures(PollFuture::poll, (polled,), ready),
        *old(again) == *final(polled),
        call_ensures(PollFuture::poll, (again,), over),
    ensures
        ready <==> count == 0,
        over <==> count <= 1,
        count > 0 ==> final(polled).remaining() == count - 1,
        count > 1 ==> final(again).remaining() == count - 2,
{
}

/// A wait of one poll is over at the second, and no wait at the first.
pub proof fn law_short_waits(
    once: &mut PollFuture,
    a: bool,
    again: &mut PollFuture,
    b: bool,
    done: &mut PollFuture,
    c: bool,
)
    requires
        call_ensures(PollFuture::once, (), *old(once)),
        call_ensures(PollFuture::poll, (once,), a),
        *old(again) == *final(once),
        call_ensures(PollFuture::poll, (again,), b),
        call_ensures(PollFuture::done, (), *old(done)),
        call_ensures(PollFuture::poll, (done,), c),
    ensures
        !a,
        b,
        c,
{
}

} // verus!
