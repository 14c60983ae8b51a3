//! What a caller asks of a data channel.
use crate::channel_ids::{
    assigned, free_id, has_duplicate, in_use, law_numbering_fails_only_when_none_is_free,
    law_open_channels_get_the_first_free_number, numbers, plan, wanted_ids,
};
use crate::error::{peer_error_text, PeerErrorView, RtcPeerConnectionError};
use crate::text::same_text;
use std::collections::HashSet;
use vstd::prelude::*;

verus! {

/// The options of a data channel. What is `None` is left to the implementation.
#[derive(Clone)]
pub struct RtcDataChannelConfiguration {
    pub ordered: Option<bool>,
    pub max_packet_life_time: Option<u16>,
    pub max_retransmits: Option<u16>,
    pub protocol: Option<String>,
    pub negotiated: Option<bool>,
    pub id: Option<u16>,
}

impl Default for RtcDataChannelConfiguration {
    /// No option is set.
    fn default() -> (r: Self)
        ensures
            r == (RtcDataChannelConfiguration {
                ordered: None,
                max_packet_life_time: None,
                max_retransmits: None,
                protocol: None,
                negotiated: None,
                id: None,
            }),
    {
        RtcDataChannelConfiguration {
            ordered: None,
            max_packet_life_time: None,
            max_retransmits: None,
            protocol: None,
            negotiated: None,
            id: None,
        }
    }
}

/// Whether a channel is on its way to being open, open, or past it.
#[derive(Copy, Clone, PartialEq, Eq, Structural, Debug)]
pub enum RtcDataChannelReadyState {
    Connecting,
    Open,
    Closing,
    Closed,
}

/// The state that a network stack's word for it stands for.
pub open spec fn ready_state_of(word: Seq<char>) -> Option<RtcDataChannelReadyState> {
    if word == "connecting"@ {
        Some(RtcDataChannelReadyState::Connecting)
    } else if word == "open"@ {
        Some(RtcDataChannelReadyState::Open)
    } else if word == "closing"@ {
        Some(RtcDataChannelReadyState::Closing)
    } else if word == "closed"@ {
        Some(RtcDataChannelReadyState::Closed)
    } else {
        None
    }
}

impl RtcDataChannelReadyState {
    /// The state that a network stack's word for it stands for, if it is one of the known
    /// words.
    pub fn from_word(word: &str) -> (r: Option<RtcDataChannelReadyState>)
        ensures
            r == ready_state_of(word@),
    {
        if same_text(word, "connecting") {
            Some(RtcDataChannelReadyState::Connecting)
        } else if same_text(word, "open") {
            Some(RtcDataChannelReadyState::Open)
        } else if same_text(word, "closing") {
            Some(RtcDataChannelReadyState::Closing)
        } else if same_text(word, "closed") {
            Some(RtcDataChannelReadyState::Closed)
        } else {
            None
        }
    }
}

/// A data channel that is to be opened.
#[derive(Clone)]
pub struct RtcDataChannelBuilder {
    label: String,
    configuration: RtcDataChannelConfiguration,
}

/// A channel to be opened: its label by its text, and its options.
pub struct BuilderView {
    pub label: Seq<char>,
    pub configuration: RtcDataChannelConfiguration,
}

impl View for RtcDataChannelBuilder {
    type V = BuilderView;

    closed spec fn view(&self) -> BuilderView {
        BuilderView { label: self.label@, configuration: self.configuration }
    }
}

impl RtcDataChannelBuilder {
    /// A channel with no option set.
    pub fn new(label: &str) -> (r: Self)
        ensures
            r@ == (BuilderView {
                label: label@,
                configuration: RtcDataChannelConfiguration {
                    ordered: None,
                    max_packet_life_time: None,
                    max_retransmits: None,
                    protocol: None,
                    negotiated: None,
                    id: None,
                },
            }),
    {
        Self::new_with_options(label, RtcDataChannelConfiguration::default())
    }

    /// A channel with the given options.
    pub fn new_with_options(label: &str, configuration: RtcDataChannelConfiguration) -> (r: Self)
        ensures
            r@ == (BuilderView { label: label@, configuration }),
    {
        let label = label.to_string();
        RtcDataChannelBuilder { label, configuration }
    }

    pub fn label(&self) -> (r: &str)
        ensures
            r@ == self@.label,
    {
        self.label.as_str()
    }

    pub fn configuration(&self) -> (r: &RtcDataChannelConfiguration)
        ensures
            *r == self@.configuration,
    {
        &self.configuration
    }
}

/// The number that each channel asks for.
pub open spec fn wanted(channels: Seq<RtcDataChannelBuilder>) -> Seq<Option<u16>> {
    Seq::new(channels.len(), |i: int| channels[i]@.configuration.id)
}

/// Whether the search for free numbers comes to an end before the numbers do.
pub open spec fn can_be_numbered(channels: Seq<RtcDataChannelBuilder>) -> bool {
    assigned(wanted(channels)) is Some
}

/// A channel that asked for no number, once it has one: both sides then open it
/// by that number.
pub open spec fn numbered(channel: BuilderView, id: u16) -> BuilderView {
    match channel.configuration.id {
        Some(_) => channel,
        None => BuilderView {
            configuration: RtcDataChannelConfiguration {
                id: Some(id),
                negotiated: Some(true),
                ..channel.configuration
            },
            ..channel
        },
    }
}

/// The text of the error for two channels with one number.
pub open spec fn duplicate_id_text() -> Seq<char> {
    "Multiple data channels requested with the same ID"@
}

/// Collects the numbers that are asked for; `None` if one is asked for twice.
fn collect_wanted(channels: &Vec<RtcDataChannelBuilder>) -> (r: Option<HashSet<u16>>)
    ensures
        r is None <==> has_duplicate(wanted(channels@)),
        r matches Some(used) ==> used@ == wanted_ids(wanted(channels@)),
{
    broadcast use vstd::std_specs::hash::group_hash_axioms;

    let mut used: HashSet<u16> = HashSet::new();
    let ghost all = wanted(channels@);
    assert(all.take(0) =~= Seq::empty());
    for i in 0..channels.len()
        invariant
            all == wanted(channels@),
            used@ == wanted_ids(all.take(i as int)),
            !has_duplicate(all.take(i as int)),
    {
        broadcast use vstd::std_specs::hash::group_hash_axioms;

        let ghost before = all.take(i as int);
        let ghost after = all.take(i + 1);
        proof {
            assert(after.drop_last() =~= before);
            assert(after.last() == all[i as int]);
            crate::channel_ids::lemma_wanted_ids(before);
        }
        if let Some(id) = channels[i].configuration.id {
            if used.contains(&id) {
                proof {
                    let k = choose|k: int|
                        0 <= k < before.len() && #[trigger] before[k] == Some(id);
                    assert(all[k] is Some && all[k] == all[i as int]);
                }
                return None;
            }
            used.insert(id);
        }
        assert(!has_duplicate(after)) by {
            if has_duplicate(after) {
                let (a, b) = choose|a: int, b: int|
                    0 <= a < b < after.len() && #[trigger] after[a] is Some && after[a]
                        == #[trigger] after[b];
                assert(before[a] == after[a]);
                if b < before.len() {
                    assert(before[b] == after[b]);
                }
            }
        }
    }
    assert(all.take(channels.len() as int) =~= all);
    Some(used)
}

/// Whether `assign_channel_ids` finds a number for every channel that needs one.
pub fn channel_ids_suffice(channels: &Vec<RtcDataChannelBuilder>) -> (r: bool)
    ensures
        r == (has_duplicate(wanted(channels@)) || can_be_numbered(channels@)),
{
    broadcast use vstd::std_specs::hash::group_hash_axioms;

    let mut used = match collect_wanted(channels) {
        Some(used) => used,
        None => return true,
    };
    let ghost all = wanted(channels@);
    let ghost start = used@;
    assert(all.take(0) =~= Seq::empty());
    for i in 0..channels.len()
        invariant
            all == wanted(channels@),
            start == wanted_ids(all),
            !has_duplicate(all),
            plan(all.take(i as int), start) is Some,
            plan(all.take(i as int), start)->0.used == used@,
    {
        broadcast use vstd::std_specs::hash::group_hash_axioms;

        proof {
            assert(all.take(i + 1).drop_last() =~= all.take(i as int));
            assert(all.take(i + 1).last() == all[i as int]);
        }
        if channels[i].configuration.id.is_none() {
            match free_id(&used) {
                Some(id) => {
                    used.insert(id);
                },
                None => {
                    assert(assigned(all) is None) by {
                        if assigned(all) is Some {
                            crate::channel_ids::lemma_plan_prefix(all, start, i + 1);
                        }
                    }
                    return false;
                },
            }
        }
    }
    assert(all.take(channels.len() as int) =~= all);
    true
}

/// Gives every channel a number. A channel keeps the number it asks for, and the others
/// get numbers that are still free. If two ask for one number, no channel is changed.
pub fn assign_channel_ids(channels: &mut Vec<RtcDataChannelBuilder>) -> (r: Result<
    (),
    RtcPeerConnectionError,
>)
    requires
        !has_duplicate(wanted(old(channels)@)) ==> can_be_numbered(old(channels)@),
    ensures
        r is Err <==> has_duplicate(wanted(old(channels)@)),
        r matches Err(e) ==> {
            &&& e@ == crate::error::PeerErrorView::Creation(duplicate_id_text())
            &&& final(channels)@ == old(channels)@
        },
        r is Ok ==> {
            let ids = assigned(wanted(old(channels)@))->0;
            &&& ids.len() == old(channels)@.len()
            &&& final(channels)@.len() == old(channels)@.len()
            &&& forall|i: int|
                0 <= i < ids.len() ==> (#[trigger] final(channels)@[i])@ == numbered(
                    old(channels)@[i]@,
                    ids[i],
                )
        },
{
    broadcast use vstd::std_specs::hash::group_hash_axioms;

    let mut used = match collect_wanted(channels) {
        Some(used) => used,
        None => return Err(
            RtcPeerConnectionError::Creation(
                "Multiple data channels requested with the same ID".to_string(),
            ),
        ),
    };
    let ghost before = channels@;
    let ghost all = wanted(before);
    let ghost start = used@;
    let ghost ids = assigned(all)->0;
    proof {
        crate::channel_ids::lemma_plan_prefix(all, start, 0);
        assert(all.take(0) =~= Seq::empty());
    }
    let count: usize = channels.len();
    for i in 0..count
        invariant
            count == before.len(),
            all == wanted(before),
            start == wanted_ids(all),
            plan(all, start) is Some,
            ids == plan(all, start)->0.ids,
            ids.len() == all.len(),
            channels@.len() == before.len(),
            plan(all.take(i as int), start)->0.used == used@,
            forall|k: int| 0 <= k < i ==> (#[trigger] channels@[k])@ == numbered(before[k]@, ids[k]),
            forall|k: int| i <= k < before.len() ==> (#[trigger] channels@[k]) == before[k],
    {
        broadcast use vstd::std_specs::hash::group_hash_axioms;

        proof {
            assert(all.take(i + 1).drop_last() =~= all.take(i as int));
            assert(all.take(i + 1).last() == all[i as int]);
            crate::channel_ids::lemma_plan_prefix(all, start, i as int);
            crate::channel_ids::lemma_plan_prefix(all, start, i + 1);
            let q = plan(all.take(i + 1), start)->0;
            assert(q.ids[i as int] == ids[i as int]);
            assert(before[i as int]@.configuration.id == all[i as int]);
        }
        if channels[i].configuration.id.is_none() {
            let id: u16 = free_id(&used).unwrap();
            channels[i].configuration.id = Some(id);
            channels[i].configuration.negotiated = Some(true);
            used.insert(id);
        }
    }
    assert(all.take(count as int) =~= all);
    Ok(())
}

/// A channel's state is read off its word, and there are no words but these.
pub proof fn law_states_have_their_words(word: Seq<char>)
    ensures
        ready_state_of(word) == Some(RtcDataChannelReadyState::Connecting) <==> word
            == "connecting"@,
        ready_state_of(word) == Some(RtcDataChannelReadyState::Open) <==> word == "open"@,
        ready_state_of(word) == Some(RtcDataChannelReadyState::Closing) <==> word == "closing"@,
        ready_state_of(word) == Some(RtcDataChannelReadyState::Closed) <==> word == "closed"@,
        ready_state_of(word) is None <==> word != "connecting"@ && word != "open"@ && word
            != "closing"@ && word != "closed"@,
{
    reveal_strlit("connecting");
    reveal_strlit("open");
    reveal_strlit("closing");
    reveal_strlit("closed");
    assert("connecting"@.len() == 10);
    assert("open"@.len() == 4);
    assert("closing"@.len() == 7);
    assert("closed"@.len() == 6);
}

/// Numbering touches nothing but the number and the word that both sides open the channel by
/// it: the label and every other option stay as they were asked for, and a channel that asked
/// for a number stays as it is altogether.
pub proof fn law_numbering_keeps_the_options(channel: BuilderView, id: u16)
    ensures
        ({
            let after = numbered(channel, id);
            let x = channel.configuration;
            let y = after.configuration;
            &&& after.label == channel.label
            &&& y.ordered == x.ordered
            &&& y.max_packet_life_time == x.max_packet_life_time
            &&& y.max_retransmits == x.max_retransmits
            &&& y.protocol == x.protocol
            &&& x.id is Some ==> after == channel
            &&& x.id is None ==> y.id == Some(id) && y.negotiated == Some(true)
        }),
{
}

/// What is asked of the numbering is the number of each channel, place by place.
pub proof fn law_each_channel_asks_for_its_number(channels: Seq<RtcDataChannelBuilder>, i: int)
    requires
        0 <= i < channels.len(),
    ensures
        wanted(channels).len() == channels.len(),
        wanted(channels)[i] == channels[i]@.configuration.id,
        can_be_numbered(channels) <==> assigned(wanted(channels)) is Some,
{
}

/// The sentence that reports a request in which two channels ask for the same number says so.
pub proof fn law_refusal_tells_of_the_same_number()
    ensures
        duplicate_id_text() == "Multiple data channels requested with the same ID"@,
        peer_error_text(PeerErrorView::Creation(duplicate_id_text()))
            == "An error occurred during connection creation: "@
            + "Multiple data channels requested with the same ID"@,
{
}

/// A channel to be opened has the label and the options that it was made with, and none where
/// none were given.
pub proof fn law_builder_keeps_what_it_gets(
    label: &str,
    options: RtcDataChannelConfiguration,
    built: RtcDataChannelBuilder,
    name: &str,
    configuration: &RtcDataChannelConfiguration,
    plain: RtcDataChannelBuilder,
    plain_name: &str,
    nothing: &RtcDataChannelConfiguration,
)
    requires
        call_ensures(RtcDataChannelBuilder::new_with_options, (label, options), built),
        call_ensures(RtcDataChannelBuilder::label, (&built,), name),
        call_ensures(RtcDataChannelBuilder::configuration, (&built,), configuration),
        call_ensures(RtcDataChannelBuilder::new, (label,), plain),
        call_ensures(RtcDataChannelBuilder::label, (&plain,), plain_name),
        call_ensures(RtcDataChannelBuilder::configuration, (&plain,), nothing),
    ensures
        name@ == label@,
        *configuration == options,
        plain_name@ == label@,
        nothing.ordered is None,
        nothing.max_packet_life_time is None,
        nothing.max_retransmits is None,
        nothing.protocol is None,
        nothing.negotiated is None,
        nothing.id is None,
{
}

/// The numbers of channels that have one.
pub open spec fn numbers_of(channels: Seq<RtcDataChannelBuilder>) -> Seq<u16> {
    Seq::new(channels.len(), |i: int| channels[i]@.configuration.id->0)
}

/// Numbering fails exactly if two channels ask for the same number, and then changes nothing.
/// Otherwise every channel has a number that no other has, keeps the one that it asked for or
/// gets the first free one at its turn, and keeps its label and its other options.
pub proof fn law_every_channel_gets_a_number(
    channels: &mut Vec<RtcDataChannelBuilder>,
    r: Result<(), RtcPeerConnectionError>,
)
    requires
        !has_duplicate(wanted(old(channels)@)) ==> can_be_numbered(old(channels)@),
        call_ensures(assign_channel_ids, (channels,), r),
    ensures
        r is Err <==> exists|i: int, j: int|
            0 <= i < j < old(channels)@.len() && (#[trigger] wanted(old(channels)@)[i]) is Some
                && wanted(old(channels)@)[i] == #[trigger] wanted(old(channels)@)[j],
        r matches Err(e) ==> {
            &&& e@ == PeerErrorView::Creation("Multiple data channels requested with the same ID"@)
            &&& final(channels)@ == old(channels)@
        },
        final(channels)@.len() == old(channels)@.len(),
        r is Ok ==> numbers(
            wanted(old(channels)@),
            numbers_of(final(channels)@),
            old(channels)@.len() as int,
        ),
        r is Ok ==> forall|i: int|
            #![trigger final(channels)@[i]]
            0 <= i < old(channels)@.len() ==> {
                let x = old(channels)@[i]@;
                let y = final(channels)@[i]@;
                &&& y.configuration.id is Some
                &&& y.label == x.label
                &&& y.configuration.ordered == x.configuration.ordered
                &&& y.configuration.max_packet_life_time == x.configuration.max_packet_life_time
                &&& y.configuration.max_retransmits == x.configuration.max_retransmits
                &&& y.configuration.protocol == x.configuration.protocol
                &&& x.configuration.id is Some ==> y == x
                &&& x.configuration.id is None ==> y.configuration.negotiated == Some(true)
            },
        r is Ok ==> forall|i: int, j: int|
            #![trigger final(channels)@[i], final(channels)@[j]]
            0 <= i < j < old(channels)@.len() ==> final(channels)@[i]@.configuration.id
                != final(channels)@[j]@.configuration.id,
{
    let all = wanted(old(channels)@);
    if r is Ok {
        let ids = assigned(all)->0;
        assert forall|i: int|
            #![trigger final(channels)@[i]]
            0 <= i < old(channels)@.len() implies final(channels)@[i]@.configuration.id == Some(
            ids[i],
        ) by {
            assert(all[i] == old(channels)@[i]@.configuration.id);
            if all[i] is Some {
                crate::channel_ids::law_wanted_id_is_kept(all, i);
            }
        }
        assert forall|i: int, j: int|
            #![trigger final(channels)@[i], final(channels)@[j]]
            0 <= i < j < old(channels)@.len() implies final(channels)@[i]@.configuration.id
            != final(channels)@[j]@.configuration.id by {
            crate::channel_ids::law_ids_are_distinct(all, i, j);
        }
        law_open_channels_get_the_first_free_number(all);
        assert(numbers_of(final(channels)@) =~= ids);
    }
}

/// A word stands for the state that it names, and any other word for none.
pub proof fn law_word_names_the_state(word: &str, r: Option<RtcDataChannelReadyState>)
    requires
        call_ensures(RtcDataChannelReadyState::from_word, (word,), r),
    ensures
        word@ == "connecting"@ <==> r == Some(RtcDataChannelReadyState::Connecting),
        word@ == "open"@ <==> r == Some(RtcDataChannelReadyState::Open),
        word@ == "closing"@ <==> r == Some(RtcDataChannelReadyState::Closing),
        word@ == "closed"@ <==> r == Some(RtcDataChannelReadyState::Closed),
{
    law_states_have_their_words(word@);
}

/// The numbers suffice unless all numbers that are asked for differ and some channel without
/// one finds none free, from how many are in use at its turn on.
pub proof fn law_numbers_suffice_unless_none_is_free(channels: Vec<RtcDataChannelBuilder>, r: bool)
    requires
        call_ensures(channel_ids_suffice, (&channels,), r),
        !r,
    ensures
        forall|i: int, j: int|
            0 <= i < j < channels@.len() && (#[trigger] channels@[i])@.configuration.id
                is Some ==> channels@[i]@.configuration.id
                != (#[trigger] channels@[j])@.configuration.id,
        exists|n: int, ids: Seq<u16>|
            0 <= n < channels@.len() && ids.len() == n && channels@[n]@.configuration.id is None
                && #[trigger] numbers(wanted(channels@), ids, n) && forall|k: u16|
                in_use(wanted(channels@), ids, n).len() <= k ==> #[trigger] in_use(
                    wanted(channels@),
                    ids,
                    n,
                ).contains(k),
{
    let all = wanted(channels@);
    law_numbering_fails_only_when_none_is_free(all);
    assert forall|i: int, j: int|
        0 <= i < j < channels@.len() && (#[trigger] channels@[i])@.configuration.id
            is Some implies channels@[i]@.configuration.id
            != (#[trigger] channels@[j])@.configuration.id by {
        assert(all[i] == channels@[i]@.configuration.id && all[j]
            == channels@[j]@.configuration.id);
    }
}

} // verus!
