//! What holds of the way from a request to open channels.
use crate::backend::native::channel::RtcDataChannel;
use crate::backend::native::connector::{
    is_next_after_creation, is_opening, is_opening_by, is_polled, is_request, negotiates,
    verdicts_by, ChannelRequest, ConnectorAction, ConnectorView, RtcPeerConnector,
};
use crate::backend::native::description::RemoteDescription;
use crate::backend::native::handlers::{ChannelHandlersView, Notification, Opened};
use crate::backend::ordering::{
    self, alone_has, ids_of, is_ordered, lemma_looks_match_alike, matches_request, reads,
};
use crate::channel::{can_be_numbered, wanted, RtcDataChannelBuilder};
use crate::channel_ids::has_duplicate;
use crate::delivery::Delivery;
use crate::drain::{law_drain_keeps_every_item, lemma_picked_is_filter, picked};
use crate::error::{PeerErrorView, RtcPeerConnectionError};
use crate::message::{law_roles_have_their_words, RtcNegotiationMessage};
use crate::negotiation::{
    step, NegotiationAction, NegotiationEvent, PhaseView, RtcNegotiationNotification, Step,
};
use crate::negotiation_laws::{awaits, law_every_outcome_is_awaited};
use crate::peer::RtcPeerConnection;
use crate::queue::{agrees, feeds, one_more, Drawn, Inbox, Outbox, Polled};
use crate::sdp::{parsed_sdp, sdp_error_text};
use vstd::multiset::Multiset;
use vstd::prelude::*;

verus! {

/// The network stack's holds on some open channels.
pub open spec fn handles<H>(channels: Seq<RtcDataChannel<H>>) -> Seq<H> {
    channels.map_values(|c: RtcDataChannel<H>| c@.handle)
}

/// The network stack's holds on every channel that is made.
pub open spec fn holds<H>(s: ConnectorView<H>) -> Multiset<H> {
    s.pending.to_multiset().add(handles(s.channels).to_multiset())
}

/// The verdicts of a list that picks one item point at it.
proof fn lemma_one_picked<H>(pending: Seq<H>, ids: Seq<u16>, id: u16) -> (i: int)
    requires
        ids.len() == pending.len(),
        picked(pending, verdicts_by(ids, id), true).len() > 0,
    ensures
        0 <= i < ids.len(),
        ids[i] == id,
        pending[i] == picked(pending, verdicts_by(ids, id), true)[0],
    decreases pending.len(),
{
    let n = pending.len() - 1;
    assert(verdicts_by(ids, id).drop_last() =~= verdicts_by(ids.drop_last(), id));
    let rest = picked(pending.drop_last(), verdicts_by(ids.drop_last(), id), true);
    if rest.len() > 0 {
        lemma_one_picked(pending.drop_last(), ids.drop_last(), id)
    } else {
        n
    }
}

/// A channel that opens is one that was made and was still pending, with the number that
/// was announced; it joins the open channels at their end, and no channel is lost, doubled
/// or made up.
pub proof fn law_opening_moves_one_channel<H, F: Fn(&H) -> u16, L: Fn(&H) -> String>(
    before: ConnectorView<H>,
    opened: Opened,
    stream_of: F,
    label_of: L,
    after: ConnectorView<H>,
    r: Result<ConnectorAction, RtcPeerConnectionError>,
)
    requires
        is_opening(before, opened, stream_of, label_of, after, r),
        r is Ok,
    ensures
        after.pending.len() + 1 == before.pending.len(),
        one_more(before.channels, after.channels),
        before.pending.contains(after.channels.last()@.handle),
        call_ensures(stream_of, (&after.channels.last()@.handle,), opened.0),
        holds(after) == holds(before),
{
    broadcast use vstd::seq_lib::group_to_multiset_ensures;

    let ids = choose|ids: Seq<u16>| #[trigger]
        is_opening_by(before, opened, stream_of, ids, label_of, after, r);
    let verdicts = verdicts_by(ids, opened.0);
    let found = picked(before.pending, verdicts, true);
    law_drain_keeps_every_item(before.pending, verdicts);
    let i = lemma_one_picked(before.pending, ids, opened.0);
    assert(call_ensures(stream_of, (&before.pending[i],), ids[i]));
    let last = after.channels.last();
    assert(handles(after.channels) =~= handles(before.channels).push(last@.handle)) by {
        assert(after.channels =~= before.channels.push(last));
    }
    assert(found =~= Seq::empty().push(last@.handle));
    assert(found.to_multiset() =~= Multiset::empty().insert(last@.handle));
    assert(holds(after) =~= holds(before));
}

/// The channels are handed over exactly when every channel that was asked for is open.
pub proof fn law_accepted_when_all_are_open<H, F: Fn(&H) -> u16, L: Fn(&H) -> String>(
    before: ConnectorView<H>,
    opened: Opened,
    stream_of: F,
    label_of: L,
    after: ConnectorView<H>,
    a: ConnectorAction,
)
    requires
        before.well_formed(),
        before.polls(),
        is_opening(before, opened, stream_of, label_of, after, Ok(a)),
    ensures
        a is Accept <==> after.channels.len() == after.total(),
        a is Accept <==> after.pending.len() == 0,
        !(a is Accept) ==> after.polls(),
{
    law_opening_moves_one_channel(before, opened, stream_of, label_of, after, Ok(a));
}

/// A driver that performs each action and reports what came of it is never out of step: the
/// outcome of every action is waited for, and the driver is never asked for an answer.
pub proof fn law_driver_stays_in_step<H>(
    before: ConnectorView<H>,
    event: NegotiationEvent<RemoteDescription>,
    after: ConnectorView<H>,
    a: NegotiationAction<RemoteDescription>,
)
    requires
        before.well_formed(),
        before.negotiation.phase is Polling ==> before.polls(),
        event matches NegotiationEvent::Prepared(_, reply) ==> reply is Nothing,
        negotiates(before, event, after, Ok(ConnectorAction::Negotiate(a))),
    ensures
        after.well_formed(),
        awaits(after.negotiation, a),
        a is Poll ==> after.polls(),
        !(a is CreateAnswer),
        !(a is SetLocalDescription),
{
    law_every_outcome_is_awaited(before.negotiation, event, a);
}

/// A channel hears its callbacks: the channel that their announcement opened receives what
/// they deliver, and nothing from elsewhere. `callbacks` is what they have done by any later
/// time.
pub proof fn law_channel_hears_its_callbacks<H, F: Fn(&H) -> u16, L: Fn(&H) -> String>(
    before: ConnectorView<H>,
    opened: Opened,
    stream_of: F,
    label_of: L,
    after: ConnectorView<H>,
    r: Result<ConnectorAction, RtcPeerConnectionError>,
    callbacks: ChannelHandlersView,
)
    requires
        is_opening(before, opened, stream_of, label_of, after, r),
        r is Ok,
        opened.1@ == (Drawn::<Delivery> { line: callbacks.delivered.line, seen: Seq::empty() }),
        callbacks.delivered.first,
        callbacks.delivered.ends == 0,
    ensures
        feeds(callbacks.delivered, after.channels.last()@.inbox),
        agrees(callbacks.delivered, after.channels.last()@.inbox),
{
}

/// From one state of a connection to the next: a channel opens, or the channels stay as they
/// are.
pub open spec fn moves<H, F: Fn(&H) -> u16, L: Fn(&H) -> String>(
    a: ConnectorView<H>,
    b: ConnectorView<H>,
    stream_of: F,
    label_of: L,
) -> bool {
    ||| b.builder == a.builder && b.pending == a.pending && b.channels == a.channels
    ||| exists|opened: Opened, next: ConnectorAction| #[trigger]
        is_opening(a, opened, stream_of, label_of, b, Ok(next))
}

/// The states of a connection, one after the other, as long as nothing fails.
pub open spec fn is_run<H, F: Fn(&H) -> u16, L: Fn(&H) -> String>(
    states: Seq<ConnectorView<H>>,
    stream_of: F,
    label_of: L,
) -> bool
    decreases states.len(),
{
    if states.len() <= 1 {
        states.len() == 1
    } else {
        &&& is_run(states.drop_last(), stream_of, label_of)
        &&& moves(states.drop_last().last(), states.last(), stream_of, label_of)
    }
}

/// `name` is what `label_of` reads off every channel.
pub open spec fn names<H, L: Fn(&H) -> String>(label_of: L, name: spec_fn(H) -> Seq<char>) -> bool {
    forall|h: H, l: String| #[trigger] call_ensures(label_of, (&h,), l) ==> l@ == name(h)
}

/// The number and the name of a channel that is made.
pub open spec fn look_at_line<H>(
    line: spec_fn(H) -> u16,
    name: spec_fn(H) -> Seq<char>,
) -> spec_fn(H) -> (u16, Seq<char>) {
    |h: H| (line(h), name(h))
}

/// The number and the name of a channel that is open.
pub open spec fn look_at_channel<H>(line: spec_fn(H) -> u16) -> spec_fn(RtcDataChannel<H>) -> (
    u16,
    Seq<char>,
) {
    |c: RtcDataChannel<H>| (line(c@.handle), c@.label)
}

/// The numbers and names of all channels, pending or open.
spec fn looks_of<H>(
    s: ConnectorView<H>,
    line: spec_fn(H) -> u16,
    name: spec_fn(H) -> Seq<char>,
) -> Multiset<(u16, Seq<char>)> {
    s.pending.map_values(look_at_line(line, name)).to_multiset().add(
        s.channels.map_values(look_at_channel(line)).to_multiset(),
    )
}

proof fn lemma_picked_looks<T, A>(s: Seq<T>, verdicts: Seq<bool>, want: bool, f: spec_fn(T) -> A)
    ensures
        picked(s.map_values(f), verdicts, want) == picked(s, verdicts, want).map_values(f),
    decreases s.len(),
{
    if s.len() > 0 {
        lemma_picked_looks(s.drop_last(), verdicts.drop_last(), want, f);
        assert(s.map_values(f).drop_last() =~= s.drop_last().map_values(f));
        let rest = picked(s.drop_last(), verdicts.drop_last(), want);
        assert(rest.push(s.last()).map_values(f) =~= rest.map_values(f).push(f(s.last())));
    } else {
        assert(picked(s, verdicts, want).map_values(f) =~= Seq::empty());
    }
}

proof fn lemma_opening_keeps_looks<H, F: Fn(&H) -> u16, L: Fn(&H) -> String>(
    before: ConnectorView<H>,
    opened: Opened,
    stream_of: F,
    label_of: L,
    after: ConnectorView<H>,
    next: ConnectorAction,
    line: spec_fn(H) -> u16,
    name: spec_fn(H) -> Seq<char>,
)
    requires
        is_opening(before, opened, stream_of, label_of, after, Ok(next)),
        names(label_of, name),
    ensures
        after.builder == before.builder,
        looks_of(after, line, name) =~= looks_of(before, line, name),
{
    broadcast use vstd::seq_lib::group_to_multiset_ensures;

    let r: Result<ConnectorAction, RtcPeerConnectionError> = Ok(next);
    let ids = choose|ids: Seq<u16>| #[trigger]
        is_opening_by(before, opened, stream_of, ids, label_of, after, r);
    let verdicts = verdicts_by(ids, opened.0);
    let taken = picked(before.pending, verdicts, true);
    let f = look_at_line(line, name);
    let g = look_at_channel::<H>(line);
    lemma_picked_looks(before.pending, verdicts, true, f);
    lemma_picked_looks(before.pending, verdicts, false, f);
    law_drain_keeps_every_item(before.pending.map_values(f), verdicts);
    let last = after.channels.last();
    assert(g(last) == f(taken[0]));
    assert(taken.map_values(f) =~= Seq::empty().push(g(last)));
    assert(after.channels =~= before.channels.push(last));
    assert(after.channels.map_values(g) =~= before.channels.map_values(g).push(g(last)));
    assert(taken.map_values(f).to_multiset() =~= Multiset::empty().insert(g(last)));
}

proof fn lemma_run_keeps_looks<H, F: Fn(&H) -> u16, L: Fn(&H) -> String>(
    states: Seq<ConnectorView<H>>,
    stream_of: F,
    label_of: L,
    line: spec_fn(H) -> u16,
    name: spec_fn(H) -> Seq<char>,
)
    requires
        is_run(states, stream_of, label_of),
        names(label_of, name),
    ensures
        states.last().builder == states.first().builder,
        looks_of(states.last(), line, name) == looks_of(states.first(), line, name),
    decreases states.len(),
{
    if states.len() > 1 {
        let rest = states.drop_last();
        lemma_run_keeps_looks(rest, stream_of, label_of, line, name);
        assert(rest.first() == states.first());
        let a = rest.last();
        let b = states.last();
        if !(b.builder == a.builder && b.pending == a.pending && b.channels == a.channels) {
            let (opened, next) = choose|opened: Opened, next: ConnectorAction| #[trigger]
                is_opening(a, opened, stream_of, label_of, b, Ok(next));
            lemma_opening_keeps_looks(a, opened, stream_of, label_of, b, next, line, name);
        }
    }
}

/// When every channel is open, the open channels have the numbers and names of those that
/// were made.
proof fn lemma_all_open<H, F: Fn(&H) -> u16, L: Fn(&H) -> String>(
    states: Seq<ConnectorView<H>>,
    stream_of: F,
    label_of: L,
    line: spec_fn(H) -> u16,
    name: spec_fn(H) -> Seq<char>,
)
    requires
        is_run(states, stream_of, label_of),
        names(label_of, name),
        states.first().channels.len() == 0,
        states.last().pending.len() == 0,
    ensures
        states.last().builder == states.first().builder,
        states.last().channels.map_values(look_at_channel(line)).to_multiset()
            == states.first().pending.map_values(look_at_line(line, name)).to_multiset(),
{
    broadcast use vstd::seq_lib::group_to_multiset_ensures;

    lemma_run_keeps_looks(states, stream_of, label_of, line, name);
    let end = states.last().pending.map_values(look_at_line(line, name));
    let start = states.first().channels.map_values(look_at_channel(line));
    assert(end =~= Seq::empty());
    assert(start =~= Seq::empty());
    assert(end.to_multiset() =~= Multiset::empty());
    assert(start.to_multiset() =~= Multiset::empty());
    assert(looks_of(states.last(), line, name)
        =~= states.last().channels.map_values(look_at_channel(line)).to_multiset());
    assert(looks_of(states.first(), line, name)
        =~= states.first().pending.map_values(look_at_line(line, name)).to_multiset());
}

/// The order in which the channels open has no influence on the result. Take two runs of the
/// same request, with channels made of the same numbers and names, one for each number that
/// was asked for; if in both every channel opens, in whatever order, both hand over all
/// channels, and place by place they have the same number, which is the one asked for there,
/// and the same name.
pub proof fn law_order_of_opening_has_no_influence<
    H,
    F: Fn(&H) -> u16,
    L: Fn(&H) -> String,
    I: Fn(&RtcDataChannel<H>) -> u16,
>(
    ours: Seq<ConnectorView<H>>,
    theirs: Seq<ConnectorView<H>>,
    stream_of: F,
    label_of: L,
    id_of: I,
    line: spec_fn(H) -> u16,
    name: spec_fn(H) -> Seq<char>,
    r: Result<Vec<RtcDataChannel<H>>, RtcPeerConnectionError>,
    s: Result<Vec<RtcDataChannel<H>>, RtcPeerConnectionError>,
)
    requires
        is_run(ours, stream_of, label_of),
        is_run(theirs, stream_of, label_of),
        names(label_of, name),
        reads(id_of, |c: RtcDataChannel<H>| line(c@.handle)),
        ours.first().builder == theirs.first().builder,
        ours.first().pending.map_values(look_at_line(line, name)).to_multiset()
            == theirs.first().pending.map_values(look_at_line(line, name)).to_multiset(),
        matches_request(ours.first().pending, ours.first().builder.channels, line),
        ours.first().channels.len() == 0,
        theirs.first().channels.len() == 0,
        ours.last().pending.len() == 0,
        theirs.last().pending.len() == 0,
        is_ordered(ours.last().channels, ours.last().builder.channels, id_of, r),
        is_ordered(theirs.last().channels, theirs.last().builder.channels, id_of, s),
    ensures
        r matches Ok(v) && s matches Ok(w) && {
            let ids = ids_of(ours.first().builder.channels);
            &&& v@.len() == ids.len()
            &&& w@.len() == ids.len()
            &&& forall|i: int|
                0 <= i < ids.len() ==> {
                    &&& line((#[trigger] v@[i])@.handle) == ids[i]
                    &&& line((#[trigger] w@[i])@.handle) == ids[i]
                    &&& v@[i]@.label == w@[i]@.label
                }
        },
{
    let request = ours.first().builder.channels;
    let number = |a: (u16, Seq<char>)| a.0;
    let f = look_at_line(line, name);
    let g = look_at_channel::<H>(line);
    let reading = |c: RtcDataChannel<H>| line(c@.handle);
    let looking = |c: RtcDataChannel<H>| number(g(c));
    assert(looking =~= reading);
    lemma_all_open(ours, stream_of, label_of, line, name);
    lemma_all_open(theirs, stream_of, label_of, line, name);
    lemma_looks_match_alike(
        ours.first().pending,
        ours.last().channels,
        request,
        f,
        g,
        number,
        line,
        reading,
    );
    ordering::law_order_of_opening_has_no_influence(
        ours.last().channels,
        theirs.last().channels,
        request,
        id_of,
        g,
        number,
        r,
        s,
    );
    let v = r->Ok_0@;
    let w = s->Ok_0@;
    let ids = ids_of(request);
    assert(v.map_values(g).len() == v.len());
    assert forall|i: int| 0 <= i < ids.len() implies {
        &&& line((#[trigger] v[i])@.handle) == ids[i]
        &&& line((#[trigger] w[i])@.handle) == ids[i]
        &&& v[i]@.label == w[i]@.label
    } by {
        assert(call_ensures(id_of, (&v[i],), ids[i]));
        assert(call_ensures(id_of, (&w[i],), ids[i]));
        assert(v.map_values(g)[i] == g(v[i]));
        assert(w.map_values(g)[i] == g(w[i]));
    }
}

/// What the network stack is asked for is what the channel was asked for: an option that is
/// set goes out as it is, and one that is not set as the stack's own default. The channel's
/// callbacks carry its number, announce into the connection's queue, and have delivered
/// nothing yet.
pub proof fn law_request_is_the_channels_own(
    request: ChannelRequest,
    channel: RtcDataChannelBuilder,
    line: int,
)
    requires
        is_request(request, channel, line),
        channel@.configuration.id is Some,
    ensures
        request.label@ == channel@.label,
        channel@.configuration.id == Some(request.init.stream),
        request.handlers@.id == request.init.stream,
        request.handlers@.announcing matches Some(end) && end.line == line && end.items.len() == 0
            && !end.first && end.ends == 0,
        request.handlers@.delivered.items.len() == 0,
        request.handlers@.delivered.first,
        request.handlers@.delivered.ends == 0,
        match channel@.configuration.protocol {
            Some(p) => request.init.protocol@ == p@,
            None => request.init.protocol@.len() == 0,
        },
        request.init.unordered <==> channel@.configuration.ordered == Some(false),
        request.init.unreliable <==> channel@.configuration.ordered == Some(false),
        match channel@.configuration.max_packet_life_time {
            Some(t) => request.init.max_packet_life_time == t,
            None => request.init.max_packet_life_time == 0,
        },
        match channel@.configuration.max_retransmits {
            Some(n) => request.init.max_retransmits == n,
            None => request.init.max_retransmits == 0,
        },
        request.init.negotiated <==> channel@.configuration.negotiated == Some(true),
        request.init.manual_stream <==> channel@.configuration.negotiated == Some(true),
{
}

/// The channels are made one by one in the order of the request, before anything is
/// negotiated; a channel takes one end of the queue along, and nothing else changes.
pub proof fn law_channels_are_made_in_order<H>(
    before: ConnectorView<H>,
    after: ConnectorView<H>,
    a: ConnectorAction,
)
    requires
        before.well_formed(),
        before.channels.len() == 0,
        is_next_after_creation(before, after, a),
    ensures
        a is CreateChannel <==> before.pending.len() < before.builder.channels.len(),
        a matches ConnectorAction::CreateChannel(request) ==> {
            let channel = before.builder.channels[before.pending.len() as int];
            &&& request.label@ == channel@.label
            &&& channel@.configuration.id == Some(request.init.stream)
            &&& after.outbox.ends == before.outbox.ends + 1
        },
        !(a is CreateChannel) ==> after.outbox.ends == before.outbox.ends,
        a is Accept <==> before.builder.channels.len() == 0,
        before.pending.len() == before.builder.channels.len() && before.builder.channels.len() > 0
            ==> a == ConnectorAction::Negotiate(NegotiationAction::Poll),
        after.outbox.line == before.outbox.line,
        after.outbox.items == before.outbox.items,
        after.outbox.first == before.outbox.first,
        after.builder == before.builder,
        after.inbox == before.inbox,
        after.pending == before.pending,
        after.channels == before.channels,
        after.negotiation == before.negotiation,
{
}

/// Verdicts that single out one place pick what stands there, and leave the rest.
proof fn lemma_single_verdict<T>(s: Seq<T>, verdicts: Seq<bool>, j: int)
    requires
        verdicts.len() == s.len(),
        0 <= j < s.len(),
        verdicts[j],
        forall|k: int| 0 <= k < s.len() && #[trigger] verdicts[k] ==> k == j,
    ensures
        picked(s, verdicts, true) == seq![s[j]],
        picked(s, verdicts, false) == s.remove(j),
    decreases s.len(),
{
    let n = s.len() - 1;
    let rest = s.drop_last();
    let v = verdicts.drop_last();
    assert forall|k: int| 0 <= k < n implies #[trigger] v[k] == verdicts[k] by {}
    if j == n {
        assert forall|k: int| 0 <= k < n implies !(#[trigger] v[k]) by {
            assert(!verdicts[k]);
        }
        lemma_no_verdict(rest, v);
        assert(picked(s, verdicts, true) =~= seq![s[j]]);
        assert(picked(s, verdicts, false) =~= s.remove(j));
    } else {
        assert(!verdicts[n]);
        lemma_single_verdict(rest, v, j);
        assert(picked(s, verdicts, false) =~= s.remove(j));
    }
}

/// Where no item is judged to be taken, all are left.
proof fn lemma_no_verdict<T>(s: Seq<T>, verdicts: Seq<bool>)
    requires
        verdicts.len() == s.len(),
        forall|k: int| 0 <= k < s.len() ==> !(#[trigger] verdicts[k]),
    ensures
        picked(s, verdicts, true) == Seq::<T>::empty(),
        picked(s, verdicts, false) == s,
    decreases s.len(),
{
    if s.len() > 0 {
        let v = verdicts.drop_last();
        assert(!verdicts[s.len() - 1]);
        assert forall|k: int| 0 <= k < v.len() implies !(#[trigger] v[k]) by {
            assert(!verdicts[k]);
        }
        lemma_no_verdict(s.drop_last(), v);
        assert(picked(s, verdicts, false) =~= s);
    }
}

/// The place of the one item that is picked.
proof fn lemma_only_picked<T>(s: Seq<T>, verdicts: Seq<bool>) -> (j: int)
    requires
        verdicts.len() == s.len(),
        picked(s, verdicts, true).len() == 1,
    ensures
        0 <= j < s.len(),
        verdicts[j],
        forall|k: int| 0 <= k < s.len() && #[trigger] verdicts[k] ==> k == j,
    decreases s.len(),
{
    let n = s.len() - 1;
    let v = verdicts.drop_last();
    if verdicts[n] {
        lemma_none_picked(s.drop_last(), v);
        assert forall|k: int| 0 <= k < s.len() && #[trigger] verdicts[k] implies k == n by {
            if k < n {
                assert(!v[k]);
            }
        }
        n
    } else {
        let j = lemma_only_picked(s.drop_last(), v);
        assert forall|k: int| 0 <= k < s.len() && #[trigger] verdicts[k] implies k == j by {
            if k < n {
                assert(v[k]);
            }
        }
        j
    }
}

/// Nothing is picked only where no item is judged to be taken.
proof fn lemma_none_picked<T>(s: Seq<T>, verdicts: Seq<bool>)
    requires
        verdicts.len() == s.len(),
        picked(s, verdicts, true).len() == 0,
    ensures
        forall|k: int| 0 <= k < s.len() ==> !(#[trigger] verdicts[k]),
    decreases s.len(),
{
    if s.len() > 0 {
        let n = s.len() - 1;
        let v = verdicts.drop_last();
        lemma_none_picked(s.drop_last(), v);
        assert forall|k: int| 0 <= k < s.len() implies !(#[trigger] verdicts[k]) by {
            if k < n {
                assert(!v[k]);
            }
        }
    }
}

/// The news that a channel has opened opens the one pending channel with that number, and
/// fails if there is none or there are several. The channel leaves the pending ones, whose
/// order stays, and comes last among the open ones, whose order stays too.
pub proof fn law_announced_channel_opens<H, F: Fn(&H) -> u16, L: Fn(&H) -> String>(
    before: ConnectorView<H>,
    opened: Opened,
    stream_of: F,
    reading: spec_fn(H) -> u16,
    label_of: L,
    after: ConnectorView<H>,
    r: Result<ConnectorAction, RtcPeerConnectionError>,
)
    requires
        before.well_formed(),
        before.polls(),
        forall|h: H, x: u16| #[trigger] call_ensures(stream_of, (&h,), x) ==> x == reading(h),
        is_opening(before, opened, stream_of, label_of, after, r),
    ensures
        r is Ok <==> exists|j: int| #[trigger] alone_has(before.pending, reading, opened.0, j),
        forall|j: int| #[trigger]
            alone_has(before.pending, reading, opened.0, j) ==> {
                &&& after.pending == before.pending.remove(j)
                &&& after.channels.len() == before.channels.len() + 1
                &&& after.channels.last()@.handle == before.pending[j]
                &&& exists|label: String| #[trigger]
                    call_ensures(label_of, (&before.pending[j],), label)
                        && after.channels.last()@.label == label@
            },
        r matches Ok(a) ==> {
            &&& after.channels.last()@.inbox == opened.1@
            &&& after.channels.last()@.state is Open
            &&& forall|i: int|
                0 <= i < before.channels.len() ==> #[trigger] after.channels[i]
                    == before.channels[i]
            &&& after.negotiation.phase is Polling
            &&& after.negotiation.kept.len() == 0
            &&& a is Accept <==> before.channels.len() + 1 == before.builder.channels.len()
            &&& !(a is Accept) ==> a == ConnectorAction::Negotiate(NegotiationAction::Poll)
        },
        r matches Err(e) ==> {
            &&& e@ == PeerErrorView::DataChannelMismatch("Data channel IDs did not match"@)
            &&& after.channels == before.channels
            &&& after.negotiation == before.negotiation
            &&& after.pending == before.pending.filter(|h: H| reading(h) != opened.0)
        },
        after.builder == before.builder,
        after.inbox == before.inbox,
        after.outbox == before.outbox,
{
    let ids = choose|ids: Seq<u16>| #[trigger]
        is_opening_by(before, opened, stream_of, ids, label_of, after, r);
    let verdicts = verdicts_by(ids, opened.0);
    let found = picked(before.pending, verdicts, true);
    assert forall|i: int| 0 <= i < before.pending.len() implies #[trigger] verdicts[i] == (reading(
        before.pending[i],
    ) == opened.0) by {
        assert(call_ensures(stream_of, (&before.pending[i],), ids[i]));
    }
    assert forall|j: int| #[trigger]
        alone_has(before.pending, reading, opened.0, j) implies found == seq![before.pending[j]]
        && picked(before.pending, verdicts, false) == before.pending.remove(j) by {
        assert forall|k: int|
            0 <= k < before.pending.len() && #[trigger] verdicts[k] implies k == j by {
            assert(reading(before.pending[k]) == opened.0);
        }
        assert(verdicts[j]);
        lemma_single_verdict(before.pending, verdicts, j);
    }
    if r is Ok {
        let j = lemma_only_picked(before.pending, verdicts);
        assert forall|k: int|
            0 <= k < before.pending.len() && reading(#[trigger] before.pending[k])
                == opened.0 implies k == j by {
            assert(verdicts[k]);
        }
        assert(alone_has(before.pending, reading, opened.0, j));
        assert forall|i: int| 0 <= i < before.channels.len() implies #[trigger] after.channels[i]
            == before.channels[i] by {
            assert(after.channels.drop_last()[i] == before.channels[i]);
        }
    } else {
        let p = |h: H| reading(h) == opened.0;
        assert forall|i: int| 0 <= i < before.pending.len() implies #[trigger] verdicts[i] == p(
            before.pending[i],
        ) by {}
        lemma_picked_is_filter(before.pending, verdicts, p);
        assert((|x: H| !p(x)) =~= (|h: H| reading(h) != opened.0));
    }
}

/// What every notification comes to: a message goes to the other peer as it is, the news of an
/// open channel is acted on, a failure is handed on as it is, and where there is no
/// notification the other peer is heard.
pub proof fn law_every_notification_is_acted_on<H, F: Fn(&H) -> u16, L: Fn(&H) -> String>(
    before: ConnectorView<H>,
    found: Polled<Notification>,
    stream_of: F,
    label_of: L,
    after: ConnectorView<H>,
    r: Result<ConnectorAction, RtcPeerConnectionError>,
)
    requires
        before.well_formed(),
        before.polls(),
        is_polled(before, found, stream_of, label_of, after, r),
    ensures
        match found {
            Polled::Item(RtcNegotiationNotification::SendMessage(m)) => {
                &&& r == Ok::<_, RtcPeerConnectionError>(
                    ConnectorAction::Negotiate(NegotiationAction::SendMessage(m)),
                )
                &&& after.negotiation.phase is Sending
                &&& after.negotiation.kept == before.negotiation.kept
            },
            Polled::Item(RtcNegotiationNotification::DataChannelOpened(opened)) => is_opening(
                before,
                opened,
                stream_of,
                label_of,
                after,
                r,
            ),
            Polled::Item(RtcNegotiationNotification::Failed(e)) => {
                &&& r == Err::<ConnectorAction, _>(e)
                &&& after == before
            },
            Polled::Empty => {
                &&& r == Ok::<_, RtcPeerConnectionError>(
                    ConnectorAction::Negotiate(NegotiationAction::ReceiveMessage),
                )
                &&& after.negotiation.phase is Receiving
                &&& after.negotiation.kept == before.negotiation.kept
            },
            Polled::Closed => {
                &&& r == Ok::<_, RtcPeerConnectionError>(ConnectorAction::Disconnected)
                &&& after == before
            },
        },
        after.builder == before.builder,
        after.inbox == before.inbox,
        after.outbox == before.outbox,
        !(found matches Polled::Item(n) && n is DataChannelOpened) ==> after.pending
            == before.pending && after.channels == before.channels,
{
}

/// A step of the negotiation leaves the channels, the request and the queue alone, and a step
/// that fails leaves the negotiation alone as well.
pub proof fn law_negotiating_leaves_the_rest<H>(
    before: ConnectorView<H>,
    event: NegotiationEvent<RemoteDescription>,
    after: ConnectorView<H>,
    r: Result<ConnectorAction, RtcPeerConnectionError>,
)
    requires
        negotiates(before, event, after, r),
    ensures
        after.builder == before.builder,
        after.inbox == before.inbox,
        after.outbox == before.outbox,
        after.pending == before.pending,
        after.channels == before.channels,
        r matches Ok(a) ==> a is Negotiate && step(before.negotiation, event) == Step::Act(
            after.negotiation,
            a->Negotiate_0,
        ),
        r matches Err(e) ==> after == before && step(before.negotiation, event) == Step::<
            RemoteDescription,
        >::Fail(e),
{
}

/// A connection is refused exactly if the stack could not be set up or two channels ask for the
/// same number; otherwise it begins with the request as it was, in which only numbers are
/// given, and with nothing made.
pub proof fn law_connection_begins_with_the_request<H>(
    builder: RtcPeerConnection,
    negotiation_send: Outbox<Notification>,
    negotiation_recv: Inbox<Notification>,
    creation: Result<(), String>,
    r: Result<RtcPeerConnector<H>, RtcPeerConnectionError>,
)
    requires
        negotiation_send@.line == negotiation_recv@.line,
        creation is Ok && !has_duplicate(wanted(builder@.channels)) ==> can_be_numbered(
            builder@.channels,
        ),
        call_ensures(
            RtcPeerConnector::<H>::connect,
            (builder, negotiation_send, negotiation_recv, creation),
            r,
        ),
    ensures
        creation matches Err(x) ==> (r matches Err(e) && e == RtcPeerConnectionError::Creation(x)),
        creation is Ok ==> (r is Err <==> exists|a: int, b: int|
            0 <= a < b < builder@.channels.len() && (#[trigger] wanted(builder@.channels)[a])
                is Some && wanted(builder@.channels)[a] == #[trigger] wanted(builder@.channels)[b]),
        creation is Ok ==> (r matches Err(e) ==> e@ == PeerErrorView::Creation(
            "Multiple data channels requested with the same ID"@,
        )),
        r matches Ok(c) ==> {
            &&& c@.builder.configuration == builder@.configuration
            &&& c@.builder.attempt == builder@.attempt
            &&& c@.builder.channels.len() == builder@.channels.len()
            &&& forall|i: int|
                #![trigger c@.builder.channels[i]]
                0 <= i < builder@.channels.len() ==> {
                    let x = builder@.channels[i]@;
                    let y = c@.builder.channels[i]@;
                    &&& y.label == x.label
                    &&& y.configuration.ordered == x.configuration.ordered
                    &&& y.configuration.max_packet_life_time == x.configuration.max_packet_life_time
                    &&& y.configuration.max_retransmits == x.configuration.max_retransmits
                    &&& y.configuration.protocol == x.configuration.protocol
                    &&& x.configuration.id is Some ==> y == x
                    &&& x.configuration.id is None ==> y.configuration.id is Some
                        && y.configuration.negotiated == Some(true)
                }
            &&& c@.inbox == negotiation_recv@
            &&& c@.outbox == negotiation_send@
            &&& c@.pending.len() == 0
            &&& c@.channels.len() == 0
            &&& c@.negotiation.phase is Polling
            &&& c@.negotiation.kept.len() == 0
        },
{
}

/// A channel that is made is pending behind those that were made before; one that is refused
/// changes nothing, and the stack's text is the error's.
pub proof fn law_made_channel_is_pending<H>(
    connector: &mut RtcPeerConnector<H>,
    outcome: Result<H, String>,
    r: Result<ConnectorAction, RtcPeerConnectionError>,
)
    requires
        old(connector)@.well_formed(),
        old(connector)@.pending.len() < old(connector)@.total(),
        old(connector)@.channels.len() == 0,
        call_ensures(RtcPeerConnector::<H>::channel_created, (connector, outcome), r),
    ensures
        outcome matches Ok(handle) ==> {
            &&& r is Ok
            &&& final(connector)@.pending == old(connector)@.pending.push(handle)
            &&& r->Ok_0 is CreateChannel <==> final(connector)@.pending.len()
                < old(connector)@.builder.channels.len()
            &&& r matches Ok(ConnectorAction::CreateChannel(request)) ==> request.label@
                == old(connector)@.builder.channels[final(connector)@.pending.len() as int]@.label
        },
        outcome matches Err(x) ==> {
            &&& r == Err::<ConnectorAction, _>(RtcPeerConnectionError::Creation(x))
            &&& final(connector)@ == old(connector)@
        },
        final(connector)@.builder == old(connector)@.builder,
        final(connector)@.channels == old(connector)@.channels,
{
}

/// What the other peer says is decided about as it was said: a candidate is added at once if
/// the description is in place and is kept otherwise; a first description is put in place as
/// the session that its text parses to, in the role that its word names, and nothing is owed
/// for it; a second one is ignored.
pub proof fn law_message_is_decided_about<H>(
    connector: &mut RtcPeerConnector<H>,
    has_remote_description: bool,
    r: Result<ConnectorAction, RtcPeerConnectionError>,
)
    requires
        old(connector)@.well_formed(),
        old(connector)@.negotiation.phase is Checking,
        call_ensures(
            RtcPeerConnector::<H>::receive_negotiation_message,
            (connector, has_remote_description),
            r,
        ),
    ensures
        ({
            let kept = old(connector)@.negotiation.kept;
            let after = final(connector)@.negotiation;
            match (old(connector)@.negotiation.phase->Checking_0, has_remote_description) {
                (RtcNegotiationMessage::RemoteCandidate(c), true) => {
                    &&& r == Ok::<_, RtcPeerConnectionError>(
                        ConnectorAction::Negotiate(NegotiationAction::AddRemoteCandidate(c)),
                    )
                    &&& after.kept == kept
                },
                (RtcNegotiationMessage::RemoteCandidate(c), false) => {
                    &&& r == Ok::<_, RtcPeerConnectionError>(
                        ConnectorAction::Negotiate(NegotiationAction::Yield),
                    )
                    &&& after.kept == kept.push(c)
                },
                (RtcNegotiationMessage::RemoteSessionDescription(d), true) => {
                    &&& r == Ok::<_, RtcPeerConnectionError>(
                        ConnectorAction::Negotiate(NegotiationAction::Yield),
                    )
                    &&& after.kept == kept
                },
                (RtcNegotiationMessage::RemoteSessionDescription(d), false) => {
                    &&& after.kept == kept
                    &&& match parsed_sdp(d.sdp@, false) {
                        Ok(sdp) => {
                            &&& r matches Ok(
                                ConnectorAction::Negotiate(
                                    NegotiationAction::SetRemoteDescription(p),
                                ),
                            ) && {
                                &&& p.sdp == sdp
                                &&& p.sdp_type is Answer <==> d.sdp_type@ == "answer"@
                                &&& p.sdp_type is Pranswer <==> d.sdp_type@ == "pranswer"@
                                &&& p.sdp_type is Rollback <==> d.sdp_type@ == "rollback"@
                            }
                            &&& after.phase matches PhaseView::Describing(reply) && reply is Nothing
                        },
                        Err(e) => r matches Err(x) && x@ == PeerErrorView::Negotiation(
                            sdp_error_text(e),
                        ),
                    }
                },
            }
        }),
        final(connector)@.pending == old(connector)@.pending,
        final(connector)@.channels == old(connector)@.channels,
        final(connector)@.inbox == old(connector)@.inbox,
        final(connector)@.outbox == old(connector)@.outbox,
{
    if old(connector)@.negotiation.phase->Checking_0 is RemoteSessionDescription {
        law_roles_have_their_words(
            old(connector)@.negotiation.phase->Checking_0->RemoteSessionDescription_0.sdp_type@,
        );
    }
}

/// The driver is told to do what the notification asks for: to send its message as it is, to
/// go on with the channel that it opens, or to give up with its error; and to listen to the
/// other peer where there is none.
pub proof fn law_driver_follows_the_notification<
    H,
    F: Fn(&H) -> u16 + Copy,
    L: Fn(&H) -> String,
>(
    connector: &mut RtcPeerConnector<H>,
    found: Polled<Notification>,
    stream_of: F,
    reading: spec_fn(H) -> u16,
    label_of: L,
    r: Result<ConnectorAction, RtcPeerConnectionError>,
)
    requires
        old(connector)@.well_formed(),
        old(connector)@.polls(),
        forall|h: H| call_requires(stream_of, (&h,)),
        forall|h: H| call_requires(label_of, (&h,)),
        forall|h: H, x: u16| #[trigger] call_ensures(stream_of, (&h,), x) ==> x == reading(h),
        call_ensures(
            RtcPeerConnector::<H>::polled::<F, L>,
            (connector, found, stream_of, label_of),
            r,
        ),
    ensures
        match found {
            Polled::Item(RtcNegotiationNotification::SendMessage(m)) => r == Ok::<
                _,
                RtcPeerConnectionError,
            >(ConnectorAction::Negotiate(NegotiationAction::SendMessage(m))),
            Polled::Item(RtcNegotiationNotification::DataChannelOpened(opened)) => {
                &&& r is Ok <==> exists|j: int| #[trigger]
                    alone_has(old(connector)@.pending, reading, opened.0, j)
                &&& forall|j: int| #[trigger]
                    alone_has(old(connector)@.pending, reading, opened.0, j) ==> {
                        &&& final(connector)@.channels.last()@.handle == old(connector)@.pending[j]
                        &&& final(connector)@.channels.last()@.inbox == opened.1@
                        &&& final(connector)@.pending == old(connector)@.pending.remove(j)
                    }
            },
            Polled::Item(RtcNegotiationNotification::Failed(e)) => r == Err::<
                ConnectorAction,
                _,
            >(e),
            Polled::Empty => r == Ok::<_, RtcPeerConnectionError>(
                ConnectorAction::Negotiate(NegotiationAction::ReceiveMessage),
            ),
            Polled::Closed => r == Ok::<_, RtcPeerConnectionError>(ConnectorAction::Disconnected),
        },
{
    if found matches Polled::Item(RtcNegotiationNotification::DataChannelOpened(opened)) {
        law_announced_channel_opens(
            old(connector)@,
            found->Item_0->DataChannelOpened_0,
            stream_of,
            reading,
            label_of,
            final(connector)@,
            r,
        );
    }
}

/// The channels that are handed over are the open ones, each in the place where its number was
/// asked for.
pub proof fn law_channels_are_handed_over_as_requested<
    H,
    F: Fn(&RtcDataChannel<H>) -> u16 + Copy,
>(
    connector: RtcPeerConnector<H>,
    id_of: F,
    reading: spec_fn(RtcDataChannel<H>) -> u16,
    r: Result<Vec<RtcDataChannel<H>>, RtcPeerConnectionError>,
)
    requires
        connector@.well_formed(),
        forall|c: RtcDataChannel<H>| call_requires(id_of, (&c,)),
        forall|c: RtcDataChannel<H>, x: u16| #[trigger]
            call_ensures(id_of, (&c,), x) ==> x == reading(c),
        call_ensures(RtcPeerConnector::<H>::accept_connection::<F>, (connector, id_of), r),
    ensures
        r is Ok <==> forall|i: int|
            0 <= i < connector@.builder.channels.len() ==> exists|j: int| #[trigger]
                alone_has(
                    connector@.channels,
                    reading,
                    (#[trigger] connector@.builder.channels[i])@.configuration.id->0,
                    j,
                ),
        r matches Ok(v) ==> {
            &&& v@.len() == connector@.builder.channels.len()
            &&& forall|i: int, j: int|
                0 <= i < v@.len() && #[trigger] alone_has(
                    connector@.channels,
                    reading,
                    connector@.builder.channels[i]@.configuration.id->0,
                    j,
                ) ==> #[trigger] v@[i] == connector@.channels[j]
        },
        r matches Err(e) ==> e@ == PeerErrorView::DataChannelMismatch(
            "Data channel IDs did not match"@,
        ),
{
    ordering::law_channels_come_as_requested(
        connector@.channels,
        connector@.builder.channels,
        id_of,
        reading,
        r,
    );
}

/// What the other peer says goes to the negotiation as it was said, its silence is no error,
/// and where it cannot be heard the attempt ends with the handler's own error.
pub proof fn law_other_peer_is_heard<H>(
    connector: &mut RtcPeerConnector<H>,
    outcome: Result<Option<RtcNegotiationMessage>, RtcPeerConnectionError>,
    r: Result<ConnectorAction, RtcPeerConnectionError>,
)
    requires
        old(connector)@.well_formed(),
        old(connector)@.negotiation.phase is Receiving,
        call_ensures(RtcPeerConnector::<H>::message_received, (connector, outcome), r),
    ensures
        match outcome {
            Ok(Some(m)) => {
                &&& r matches Ok(ConnectorAction::Negotiate(a)) && a is CheckRemoteDescription
                &&& final(connector)@.negotiation.phase == PhaseView::Checking(m)
            },
            Ok(None) => {
                &&& r matches Ok(ConnectorAction::Negotiate(a)) && a is Yield
                &&& final(connector)@.negotiation.phase is Yielding
            },
            Err(e) => {
                &&& r == Err::<ConnectorAction, _>(e)
                &&& final(connector)@ == old(connector)@
            },
        },
        final(connector)@.negotiation.kept == old(connector)@.negotiation.kept,
        final(connector)@.channels == old(connector)@.channels,
{
}

/// Once a description is in place the candidates follow: the first that is kept, with the
/// others behind it, or what is owed if none is kept; what the stack refuses ends the attempt
/// with its text.
pub proof fn law_kept_candidates_follow_the_description<H>(
    set: &mut RtcPeerConnector<H>,
    outcome: Result<(), String>,
    r: Result<ConnectorAction, RtcPeerConnectionError>,
)
    requires
        old(set)@.well_formed(),
        old(set)@.negotiation.phase is Describing,
        call_ensures(RtcPeerConnector::<H>::remote_description_set, (set, outcome), r),
    ensures
        outcome is Ok ==> {
            let kept = old(set)@.negotiation.kept;
            let reply = old(set)@.negotiation.phase->Describing_0;
            &&& kept.len() > 0 ==> {
                &&& r == Ok::<_, RtcPeerConnectionError>(
                    ConnectorAction::Negotiate(NegotiationAction::AddRemoteCandidate(kept[0])),
                )
                &&& final(set)@.negotiation.phase == PhaseView::Adding(kept.drop_first(), reply)
            }
            &&& kept.len() == 0 && reply is Answer ==> r == Ok::<_, RtcPeerConnectionError>(
                ConnectorAction::Negotiate(NegotiationAction::CreateAnswer),
            )
            &&& kept.len() == 0 && reply is Nothing ==> r == Ok::<_, RtcPeerConnectionError>(
                ConnectorAction::Negotiate(NegotiationAction::Yield),
            )
            &&& final(set)@.negotiation.kept.len() == 0
        },
        outcome matches Err(x) ==> {
            &&& r == Err::<ConnectorAction, _>(RtcPeerConnectionError::Negotiation(x))
            &&& final(set)@ == old(set)@
        },
        final(set)@.channels == old(set)@.channels,
{
}

/// After a candidate comes the next, in their order, and after the last what is owed; what the
/// stack refuses ends the attempt with its text.
pub proof fn law_one_candidate_follows_the_other<H>(
    added: &mut RtcPeerConnector<H>,
    outcome: Result<(), String>,
    r: Result<ConnectorAction, RtcPeerConnectionError>,
)
    requires
        old(added)@.well_formed(),
        old(added)@.negotiation.phase is Adding,
        call_ensures(RtcPeerConnector::<H>::add_remote_candidate, (added, outcome), r),
    ensures
        outcome is Ok ==> {
            let queue = old(added)@.negotiation.phase->Adding_0;
            let reply = old(added)@.negotiation.phase->Adding_1;
            &&& queue.len() > 0 ==> {
                &&& r == Ok::<_, RtcPeerConnectionError>(
                    ConnectorAction::Negotiate(NegotiationAction::AddRemoteCandidate(queue[0])),
                )
                &&& final(added)@.negotiation.phase == PhaseView::Adding(queue.drop_first(), reply)
            }
            &&& queue.len() == 0 && reply is Answer ==> r == Ok::<_, RtcPeerConnectionError>(
                ConnectorAction::Negotiate(NegotiationAction::CreateAnswer),
            )
            &&& queue.len() == 0 && reply is Nothing ==> r == Ok::<_, RtcPeerConnectionError>(
                ConnectorAction::Negotiate(NegotiationAction::Yield),
            )
            &&& final(added)@.negotiation.kept == old(added)@.negotiation.kept
        },
        outcome matches Err(x) ==> {
            &&& r == Err::<ConnectorAction, _>(RtcPeerConnectionError::Negotiation(x))
            &&& final(added)@ == old(added)@
        },
        final(added)@.channels == old(added)@.channels,
{
}

/// When a message is sent it is the turn of others, and then the next notification is looked
/// for; a message that could not be sent ends the attempt with the handler's own error.
pub proof fn law_next_look_follows_a_sent_message<H>(
    sent: &mut RtcPeerConnector<H>,
    outcome: Result<(), RtcPeerConnectionError>,
    a: Result<ConnectorAction, RtcPeerConnectionError>,
    resumed: &mut RtcPeerConnector<H>,
    b: Result<ConnectorAction, RtcPeerConnectionError>,
)
    requires
        old(sent)@.well_formed(),
        old(sent)@.negotiation.phase is Sending,
        call_ensures(RtcPeerConnector::<H>::message_sent, (sent, outcome), a),
        outcome is Ok ==> *old(resumed) == *final(sent),
        outcome is Ok ==> call_ensures(RtcPeerConnector::<H>::resume, (resumed,), b),
    ensures
        outcome is Ok ==> {
            &&& a == Ok::<_, RtcPeerConnectionError>(
                ConnectorAction::Negotiate(NegotiationAction::Yield),
            )
            &&& b == Ok::<_, RtcPeerConnectionError>(
                ConnectorAction::Negotiate(NegotiationAction::Poll),
            )
            &&& final(resumed)@.negotiation.phase is Polling
            &&& final(resumed)@.negotiation.kept == old(sent)@.negotiation.kept
            &&& final(resumed)@.channels == old(sent)@.channels
        },
        outcome matches Err(e) ==> {
            &&& a == Err::<ConnectorAction, _>(e)
            &&& final(sent)@ == old(sent)@
        },
{
}

} // verus!
