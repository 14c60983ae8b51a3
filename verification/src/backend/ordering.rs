//! Handing over the open channels in the order in which they were asked for.
use crate::channel::RtcDataChannelBuilder;
use crate::claim::{
    claim_in_order, claimed, decides, is_owned, items_of, keys_are_apart,
    law_each_key_gets_its_own_item, law_one_item_belongs, law_order_of_looks_has_no_influence,
    lemma_as_many_items,
};
use crate::error::{PeerErrorView, RtcPeerConnectionError};
use crate::peer::channels_are_numbered;
use vstd::prelude::*;

verus! {

/// The text of the error for channels that do not match.
pub open spec fn mismatch_text() -> Seq<char> {
    "Data channel IDs did not match"@
}

/// The error for channels that do not match.
pub fn mismatch() -> (e: RtcPeerConnectionError)
    ensures
        e@ == PeerErrorView::DataChannelMismatch(mismatch_text()),
{
    RtcPeerConnectionError::DataChannelMismatch("Data channel IDs did not match".to_string())
}

/// The numbers of channels that were asked for.
pub open spec fn ids_of(request: Seq<RtcDataChannelBuilder>) -> Seq<u16> {
    Seq::new(request.len(), |i: int| request[i]@.configuration.id->0)
}

/// `reading` is what `id_of` reads off every channel.
pub open spec fn reads<D, F: Fn(&D) -> u16>(id_of: F, reading: spec_fn(D) -> u16) -> bool {
    forall|d: D, x: u16| #[trigger] call_ensures(id_of, (&d,), x) ==> x == reading(d)
}

/// Whether a channel has a number, where `reading` reads the numbers.
pub open spec fn has_id<D>(reading: spec_fn(D) -> u16) -> spec_fn(D, u16) -> bool {
    |d: D, id: u16| reading(d) == id
}

/// Every number that was asked for is that of exactly one channel.
pub open spec fn matches_request<D>(
    channels: Seq<D>,
    request: Seq<RtcDataChannelBuilder>,
    reading: spec_fn(D) -> u16,
) -> bool {
    forall|i: int|
        0 <= i < request.len() ==> items_of(
            channels,
            #[trigger] ids_of(request)[i],
            has_id(reading),
        ).len() == 1
}

proof fn lemma_numbers_are_apart<D>(
    request: Seq<RtcDataChannelBuilder>,
    reading: spec_fn(D) -> u16,
)
    requires
        channels_are_numbered(request),
    ensures
        keys_are_apart(ids_of(request), has_id::<D>(reading)),
{
    let ids = ids_of(request);
    let belongs = has_id::<D>(reading);
    assert forall|d: D, i: int, j: int| 0 <= i < j < ids.len() implies !(#[trigger] belongs(
        d,
        ids[i],
    ) && #[trigger] belongs(d, ids[j])) by {
        assert(request[i]@.configuration.id != request[j]@.configuration.id);
    }
}

/// The numbers of the channels that were asked for.
fn request_ids(request: &Vec<RtcDataChannelBuilder>) -> (r: Vec<u16>)
    requires
        channels_are_numbered(request@),
    ensures
        r@ == ids_of(request@),
{
    let mut ids: Vec<u16> = Vec::new();
    for i in 0..request.len()
        invariant
            channels_are_numbered(request@),
            ids@ =~= ids_of(request@).take(i as int),
    {
        assert(request@[i as int]@.configuration.id is Some);
        ids.push(request[i].configuration().id.unwrap());
    }
    assert(ids_of(request@).take(request@.len() as int) =~= ids_of(request@));
    ids
}

/// What the open channels come to: each in the place where its number was asked for, or an
/// error if not every number that was asked for is that of exactly one channel.
pub open spec fn is_ordered<D, F: Fn(&D) -> u16>(
    channels: Seq<D>,
    request: Seq<RtcDataChannelBuilder>,
    id_of: F,
    r: Result<Vec<D>, RtcPeerConnectionError>,
) -> bool {
    &&& r matches Err(e) ==> e@ == PeerErrorView::DataChannelMismatch(mismatch_text())
    &&& r matches Ok(v) ==> {
        &&& v@.len() == request.len()
        &&& forall|i: int|
            0 <= i < v@.len() ==> call_ensures(id_of, (&#[trigger] v@[i],), ids_of(request)[i])
    }
    &&& forall|reading: spec_fn(D) -> u16| #[trigger]
        reads(id_of, reading) ==> {
            &&& r is Ok <==> matches_request(channels, request, reading)
            &&& r matches Ok(v) ==> claimed(channels, ids_of(request), has_id(reading)) == Some(v@)
        }
}

/// The order in which the channels opened has no influence on the result: two lists of open
/// channels that look the same up to the order, where a look at a channel tells its number,
/// come to lists that look the same place by place, or neither matches the request.
pub proof fn law_order_of_opening_has_no_influence<D, A, F: Fn(&D) -> u16>(
    channels: Seq<D>,
    others: Seq<D>,
    request: Seq<RtcDataChannelBuilder>,
    id_of: F,
    look: spec_fn(D) -> A,
    number: spec_fn(A) -> u16,
    r: Result<Vec<D>, RtcPeerConnectionError>,
    s: Result<Vec<D>, RtcPeerConnectionError>,
)
    requires
        channels.map_values(look).to_multiset() == others.map_values(look).to_multiset(),
        reads(id_of, |d: D| number(look(d))),
        is_ordered(channels, request, id_of, r),
        is_ordered(others, request, id_of, s),
    ensures
        match (r, s) {
            (Ok(v), Ok(w)) => v@.map_values(look) == w@.map_values(look),
            (Err(_), Err(_)) => true,
            _ => false,
        },
{
    let reading = |d: D| number(look(d));
    let belongs = has_id::<D>(reading);
    let fits = |a: A, id: u16| number(a) == id;
    let ids = ids_of(request);
    law_order_of_looks_has_no_influence(channels, others, ids, belongs, look, fits);
    if r is Ok {
        lemma_looks_match_alike(
            channels,
            others,
            request,
            look,
            look,
            number,
            reading,
            reading,
        );
    }
    if s is Ok {
        lemma_looks_match_alike(
            others,
            channels,
            request,
            look,
            look,
            number,
            reading,
            reading,
        );
    }
}

/// Lists that look the same, up to the order, match the same requests.
pub proof fn lemma_looks_match_alike<D, E, A>(
    channels: Seq<D>,
    others: Seq<E>,
    request: Seq<RtcDataChannelBuilder>,
    look: spec_fn(D) -> A,
    look_at_others: spec_fn(E) -> A,
    number: spec_fn(A) -> u16,
    reading: spec_fn(D) -> u16,
    reading_others: spec_fn(E) -> u16,
)
    requires
        channels.map_values(look).to_multiset() == others.map_values(look_at_others).to_multiset(),
        forall|d: D| #[trigger] reading(d) == number(look(d)),
        forall|e: E| #[trigger] reading_others(e) == number(look_at_others(e)),
        matches_request(channels, request, reading),
    ensures
        matches_request(others, request, reading_others),
{
    let ids = ids_of(request);
    assert forall|i: int| 0 <= i < request.len() implies items_of(
        others,
        #[trigger] ids[i],
        has_id(reading_others),
    ).len() == 1 by {
        assert(items_of(channels, ids[i], has_id(reading)).len() == 1);
        lemma_as_many_items(
            channels,
            others,
            ids[i],
            has_id(reading),
            has_id(reading_others),
            look,
            look_at_others,
            |a: A, k: u16| number(a) == k,
        );
    }
}

/// Puts the open channels into the order in which they were asked for; `id_of` reads the
/// number of a channel.
pub fn order_channels<D, F: Fn(&D) -> u16 + Copy>(
    channels: Vec<D>,
    request: &Vec<RtcDataChannelBuilder>,
    id_of: F,
) -> (r: Result<Vec<D>, RtcPeerConnectionError>)
    requires
        channels_are_numbered(request@),
        forall|d: D| call_requires(id_of, (&d,)),
    ensures
        is_ordered(channels@, request@, id_of, r),
{
    let ids = request_ids(request);
    let test = |d: &D, id: &u16| -> (b: bool)
        requires
            call_requires(id_of, (d,)),
        ensures
            exists|x: u16| #[trigger] call_ensures(id_of, (d,), x) && b == (x == *id),
        { id_of(d) == *id };
    let claim = claim_in_order(channels, &ids, test);
    proof {
        assert forall|reading: spec_fn(D) -> u16| #[trigger] reads(id_of, reading) implies {
            &&& claim is Some <==> matches_request(channels@, request@, reading)
            &&& claim matches Some(v) ==> claimed(channels@, ids_of(request@), has_id(reading))
                == Some(v@)
        } by {
            let belongs = has_id::<D>(reading);
            assert(decides(test, belongs)) by {
                assert forall|d: D, id: u16, b: bool| #[trigger]
                    call_ensures(test, (&d, &id), b) implies b == belongs(d, id) by {
                    let x = choose|x: u16| #[trigger]
                        call_ensures(id_of, (&d,), x) && b == (x == id);
                    assert(x == reading(d));
                }
            }
            lemma_numbers_are_apart(request@, reading);
            law_each_key_gets_its_own_item(channels@, ids_of(request@), belongs);
        }
    }
    match claim {
        Some(v) => {
            assert forall|i: int| 0 <= i < v@.len() implies call_ensures(
                id_of,
                (&#[trigger] v@[i],),
                ids_of(request@)[i],
            ) by {
                assert(call_ensures(test, (&v@[i], &ids@[i]), true));
            }
            Ok(v)
        },
        None => Err(mismatch()),
    }
}

/// The item at place `j` has the number, and no other has it.
pub open spec fn alone_has<D>(channels: Seq<D>, reading: spec_fn(D) -> u16, id: u16, j: int) -> bool {
    &&& 0 <= j < channels.len()
    &&& reading(channels[j]) == id
    &&& forall|k: int| 0 <= k < channels.len() && reading(#[trigger] channels[k]) == id ==> k == j
}

/// The channels come in the order of the request, each in the place of its number: success is
/// owed exactly if every number that was asked for is that of one channel and of no other, and
/// then the channel at each place is that one.
pub proof fn law_channels_come_as_requested<D, F: Fn(&D) -> u16>(
    channels: Seq<D>,
    request: Seq<RtcDataChannelBuilder>,
    id_of: F,
    reading: spec_fn(D) -> u16,
    r: Result<Vec<D>, RtcPeerConnectionError>,
)
    requires
        channels_are_numbered(request),
        forall|d: D, x: u16| #[trigger] call_ensures(id_of, (&d,), x) ==> x == reading(d),
        is_ordered(channels, request, id_of, r),
    ensures
        r is Ok <==> forall|i: int|
            0 <= i < request.len() ==> exists|j: int| #[trigger]
                alone_has(channels, reading, (#[trigger] request[i])@.configuration.id->0, j),
        r matches Ok(v) ==> {
            &&& v@.len() == request.len()
            &&& forall|i: int, j: int|
                0 <= i < request.len() && #[trigger] alone_has(
                    channels,
                    reading,
                    request[i]@.configuration.id->0,
                    j,
                ) ==> #[trigger] v@[i] == channels[j]
        },
        r matches Err(e) ==> e@ == PeerErrorView::DataChannelMismatch(
            "Data channel IDs did not match"@,
        ),
{
    let ids = ids_of(request);
    let belongs = has_id::<D>(reading);
    assert(reads(id_of, reading));
    lemma_numbers_are_apart::<D>(request, reading);
    law_each_key_gets_its_own_item(channels, ids, belongs);
    assert forall|i: int, j: int|
        0 <= i < request.len() && #[trigger] alone_has(
            channels,
            reading,
            (#[trigger] request[i])@.configuration.id->0,
            j,
        ) implies items_of(channels, ids[i], belongs).len() == 1 && items_of(
        channels,
        ids[i],
        belongs,
    )[0] == channels[j] by {
        law_one_item_belongs(channels, ids[i], belongs);
        assert(is_owned(channels, ids[i], belongs, j));
    }
    if r is Ok {
        assert forall|i: int| 0 <= i < request.len() implies exists|j: int| #[trigger]
            alone_has(channels, reading, (#[trigger] request[i])@.configuration.id->0, j) by {
            assert(items_of(channels, ids[i], belongs).len() == 1);
            law_one_item_belongs(channels, ids[i], belongs);
            let j = choose|j: int| #[trigger] is_owned(channels, ids[i], belongs, j);
            assert forall|k: int|
                0 <= k < channels.len() && reading(#[trigger] channels[k])
                    == ids[i] implies k == j by {
                assert(belongs(channels[k], ids[i]));
            }
            assert(alone_has(channels, reading, request[i]@.configuration.id->0, j));
        }
        let v = r->Ok_0;
        assert forall|i: int, j: int|
            0 <= i < request.len() && #[trigger] alone_has(
                channels,
                reading,
                request[i]@.configuration.id->0,
                j,
            ) implies #[trigger] v@[i] == channels[j] by {
            assert(request[i]@ == request[i]@);
        }
    } else {
        let i = choose|i: int|
            0 <= i < request.len() && items_of(channels, #[trigger] ids[i], belongs).len() != 1;
        assert(!exists|j: int| #[trigger]
            alone_has(channels, reading, request[i]@.configuration.id->0, j));
    }
}

/// The channels that are put in order come as requested, in whatever order they opened.
pub proof fn law_put_in_order_as_requested<D, F: Fn(&D) -> u16 + Copy>(
    channels: Vec<D>,
    request: Vec<RtcDataChannelBuilder>,
    id_of: F,
    reading: spec_fn(D) -> u16,
    r: Result<Vec<D>, RtcPeerConnectionError>,
)
    requires
        channels_are_numbered(request@),
        forall|d: D| call_requires(id_of, (&d,)),
        forall|d: D, x: u16| #[trigger] call_ensures(id_of, (&d,), x) ==> x == reading(d),
        call_ensures(order_channels::<D, F>, (channels, &request, id_of), r),
    ensures
        r is Ok <==> forall|i: int|
            0 <= i < request@.len() ==> exists|j: int| #[trigger]
                alone_has(channels@, reading, (#[trigger] request@[i])@.configuration.id->0, j),
        r matches Ok(v) ==> {
            &&& v@.len() == request@.len()
            &&& forall|i: int, j: int|
                0 <= i < request@.len() && #[trigger] alone_has(
                    channels@,
                    reading,
                    request@[i]@.configuration.id->0,
                    j,
                ) ==> #[trigger] v@[i] == channels@[j]
        },
{
    law_channels_come_as_requested(channels@, request@, id_of, reading, r);
}

} // verus!
