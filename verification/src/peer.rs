//! What a caller asks of a connection.
use crate::channel::{self, RtcDataChannelBuilder};
use crate::channel_ids::{assigned, has_duplicate};
use crate::error::{PeerErrorView, RtcPeerConnectionError};
use vstd::prelude::*;

verus! {

/// Which side opens the negotiation.
#[derive(Clone)]
pub enum RtcPeerConnectionAttempt {
    Offer,
    Answer,
}

/// Which network paths may be used.
#[derive(Copy, Clone, PartialEq, Eq, Structural, Debug)]
pub enum RtcIceTransportPolicy {
    All,
    Relay,
}

impl Default for RtcIceTransportPolicy {
    fn default() -> (r: Self)
        ensures
            r == RtcIceTransportPolicy::All,
    {
        RtcIceTransportPolicy::All
    }
}

/// A server that helps the peers to find each other.
#[derive(Clone, PartialEq, Debug)]
pub struct RtcIceServer {
    pub urls: Vec<String>,
    pub username: Option<String>,
    pub credential: Option<String>,
}

impl Default for RtcIceServer {
    /// A server without an address.
    fn default() -> (r: Self)
        ensures
            r.urls@ == Seq::<String>::empty(),
            r.username is None,
            r.credential is None,
    {
        RtcIceServer { urls: Vec::new(), username: None, credential: None }
    }
}

impl RtcIceServer {
    /// A server with one address, open to everybody.
    pub fn new(url: &str) -> (r: Self)
        ensures
            r.urls@.len() == 1,
            r.urls@[0]@ == url@,
            r.username is None,
            r.credential is None,
    {
        let mut server = RtcIceServer::default();
        server.urls.push(url.to_string());
        server
    }
}

/// How a connection finds its way through the network.
#[derive(Clone, PartialEq, Debug)]
pub struct RtcConfiguration {
    pub ice_servers: Vec<RtcIceServer>,
    pub ice_transport_policy: RtcIceTransportPolicy,
}

impl Default for RtcConfiguration {
    /// No servers, and any path.
    fn default() -> (r: Self)
        ensures
            r.ice_servers@ == Seq::<RtcIceServer>::empty(),
            r.ice_transport_policy == RtcIceTransportPolicy::All,
    {
        RtcConfiguration {
            ice_servers: Vec::new(),
            ice_transport_policy: RtcIceTransportPolicy::default(),
        }
    }
}

/// How far the exchange of descriptions has come.
#[derive(Copy, Clone, PartialEq, Eq, Structural, Debug)]
pub enum RtcSignalingState {
    Stable,
    HaveLocalOffer,
    HaveRemoteOffer,
    HaveLocalPranswer,
    HaveRemotePranswer,
    Closed,
}

/// How far the connection as a whole has come.
#[derive(Copy, Clone, PartialEq, Eq, Structural, Debug)]
pub enum RtcPeerConnectionState {
    New,
    Connecting,
    Connected,
    Disconnected,
    Failed,
    Closed,
}

/// How far the search for a network path has come.
#[derive(Copy, Clone, PartialEq, Eq, Structural)]
pub enum RtcIceConnectionState {
    New,
    Checking,
    Connected,
    Completed,
    Failed,
    Disconnected,
    Closed,
}

/// A connection that is to be made, with its channels.
#[derive(Clone)]
pub struct RtcPeerConnection {
    configuration: RtcConfiguration,
    attempt: RtcPeerConnectionAttempt,
    channels: Vec<RtcDataChannelBuilder>,
}

/// A connection to be made, by its parts.
pub struct PeerConnectionView {
    pub configuration: RtcConfiguration,
    pub attempt: RtcPeerConnectionAttempt,
    pub channels: Seq<RtcDataChannelBuilder>,
}

impl View for RtcPeerConnection {
    type V = PeerConnectionView;

    closed spec fn view(&self) -> PeerConnectionView {
        PeerConnectionView {
            configuration: self.configuration,
            attempt: self.attempt,
            channels: self.channels@,
        }
    }
}

/// Every channel has a number, and no two have the same.
pub open spec fn channels_are_numbered(channels: Seq<RtcDataChannelBuilder>) -> bool {
    &&& forall|i: int|
        0 <= i < channels.len() ==> (#[trigger] channels[i])@.configuration.id is Some
    &&& forall|i: int, j: int|
        0 <= i < j < channels.len() ==> (#[trigger] channels[i])@.configuration.id != (
        #[trigger] channels[j])@.configuration.id
}

/// The channels once each has a number.
pub open spec fn are_numbered_from(
    after: Seq<RtcDataChannelBuilder>,
    before: Seq<RtcDataChannelBuilder>,
) -> bool {
    let ids = assigned(channel::wanted(before))->0;
    &&& ids.len() == before.len()
    &&& after.len() == before.len()
    &&& forall|i: int|
        0 <= i < before.len() ==> (#[trigger] after[i])@ == channel::numbered(before[i]@, ids[i])
}

/// Numbering leaves every channel with a number of its own.
pub proof fn law_numbering_numbers_all(
    before: Seq<RtcDataChannelBuilder>,
    after: Seq<RtcDataChannelBuilder>,
)
    requires
        !has_duplicate(channel::wanted(before)),
        channel::can_be_numbered(before),
        are_numbered_from(after, before),
    ensures
        channels_are_numbered(after),
{
    let wanted = channel::wanted(before);
    let ids = assigned(wanted)->0;
    assert forall|i: int| 0 <= i < after.len() implies (
    #[trigger] after[i])@.configuration.id == Some(ids[i]) by {
        assert(after[i]@ == channel::numbered(before[i]@, ids[i]));
        assert(wanted[i] == before[i]@.configuration.id);
        if wanted[i] is Some {
            crate::channel_ids::law_wanted_id_is_kept(wanted, i);
        }
    }
    assert forall|i: int, j: int| 0 <= i < j < after.len() implies (
    #[trigger] after[i])@.configuration.id != (#[trigger] after[j])@.configuration.id by {
        crate::channel_ids::law_ids_are_distinct(wanted, i, j);
    }
}

/// Two sides that ask for the same numbers, place by place, number their channels alike.
pub proof fn law_both_sides_number_alike(
    ours: Seq<RtcDataChannelBuilder>,
    ours_numbered: Seq<RtcDataChannelBuilder>,
    theirs: Seq<RtcDataChannelBuilder>,
    theirs_numbered: Seq<RtcDataChannelBuilder>,
)
    requires
        channel::wanted(ours) == channel::wanted(theirs),
        are_numbered_from(ours_numbered, ours),
        are_numbered_from(theirs_numbered, theirs),
    ensures
        channel::wanted(ours_numbered) == channel::wanted(theirs_numbered),
{
    assert(ours.len() == channel::wanted(ours).len());
    assert(theirs.len() == channel::wanted(theirs).len());
    assert forall|i: int| 0 <= i < ours.len() implies #[trigger] channel::wanted(ours_numbered)[i]
        == channel::wanted(theirs_numbered)[i] by {
        let ids = assigned(channel::wanted(ours))->0;
        assert(channel::wanted(ours)[i] == channel::wanted(theirs)[i]);
        assert(ours_numbered[i]@ == channel::numbered(ours[i]@, ids[i]));
        assert(theirs_numbered[i]@ == channel::numbered(theirs[i]@, ids[i]));
    }
    assert(channel::wanted(ours_numbered) =~= channel::wanted(theirs_numbered));
}

impl RtcPeerConnection {
    pub fn new(
        configuration: RtcConfiguration,
        attempt: RtcPeerConnectionAttempt,
        channels: Vec<RtcDataChannelBuilder>,
    ) -> (r: Self)
        ensures
            r@ == (PeerConnectionView { configuration, attempt, channels: channels@ }),
    {
        RtcPeerConnection { configuration, attempt, channels }
    }

    pub fn configuration(&self) -> (r: &RtcConfiguration)
        ensures
            *r == self@.configuration,
    {
        &self.configuration
    }

    pub fn attempt(&self) -> (r: &RtcPeerConnectionAttempt)
        ensures
            *r == self@.attempt,
    {
        &self.attempt
    }

    /// The channels, in the order in which they were asked for.
    pub fn channels(&self) -> (r: &Vec<RtcDataChannelBuilder>)
        ensures
            r@ == self@.channels,
    {
        &self.channels
    }

    /// Whether `assign_channel_ids` finds a number for every channel that needs one.
    pub fn channel_ids_suffice(&self) -> (r: bool)
        ensures
            r == (has_duplicate(channel::wanted(self@.channels)) || channel::can_be_numbered(
                self@.channels,
            )),
    {
        channel::channel_ids_suffice(&self.channels)
    }

    /// Gives every channel a number, or reports that two ask for the same one.
    pub fn assign_channel_ids(&mut self) -> (r: Result<(), RtcPeerConnectionError>)
        requires
            !has_duplicate(channel::wanted(old(self)@.channels)) ==> channel::can_be_numbered(
                old(self)@.channels,
            ),
        ensures
            r is Err <==> has_duplicate(channel::wanted(old(self)@.channels)),
            r matches Err(e) ==> {
                &&& e@ == PeerErrorView::Creation(channel::duplicate_id_text())
                &&& final(self)@ == old(self)@
            },
            r is Ok ==> {
                &&& final(self)@.configuration == old(self)@.configuration
                &&& final(self)@.attempt == old(self)@.attempt
                &&& are_numbered_from(final(self)@.channels, old(self)@.channels)
                &&& channels_are_numbered(final(self)@.channels)
            },
    {
        let ghost before = self.channels@;
        let r = channel::assign_channel_ids(&mut self.channels);
        proof {
            if r is Ok {
                law_numbering_numbers_all(before, self.channels@);
            }
        }
        r
    }
}

/// The channels of a connection keep their labels and options when they are numbered, and
/// their places; a channel that asked for a number is left as it is, and the others are
/// opened by their number on both sides.
pub proof fn law_numbering_keeps_the_request(
    before: Seq<RtcDataChannelBuilder>,
    after: Seq<RtcDataChannelBuilder>,
    i: int,
)
    requires
        are_numbered_from(after, before),
        0 <= i < before.len(),
    ensures
        after.len() == before.len(),
        after[i]@.label == before[i]@.label,
        after[i]@.configuration.ordered == before[i]@.configuration.ordered,
        after[i]@.configuration.max_packet_life_time
            == before[i]@.configuration.max_packet_life_time,
        after[i]@.configuration.max_retransmits == before[i]@.configuration.max_retransmits,
        after[i]@.configuration.protocol == before[i]@.configuration.protocol,
        before[i]@.configuration.id is Some ==> after[i]@ == before[i]@,
        before[i]@.configuration.id is None ==> after[i]@.configuration.id is Some
            && after[i]@.configuration.negotiated == Some(true) && after[i]@.configuration.id->0
            == assigned(channel::wanted(before))->0[i],
{
    let ids = assigned(channel::wanted(before))->0;
    assert(after[i]@ == channel::numbered(before[i]@, ids[i]));
    channel::law_numbering_keeps_the_options(before[i]@, ids[i]);
}

/// A connection to be made has the parts that it was made with, each as it was given.
pub proof fn law_connection_keeps_what_it_gets(
    configuration: RtcConfiguration,
    attempt: RtcPeerConnectionAttempt,
    channels: Vec<RtcDataChannelBuilder>,
    made: RtcPeerConnection,
    a: &RtcConfiguration,
    b: &RtcPeerConnectionAttempt,
    c: &Vec<RtcDataChannelBuilder>,
)
    requires
        call_ensures(RtcPeerConnection::new, (configuration, attempt, channels), made),
        call_ensures(RtcPeerConnection::configuration, (&made,), a),
        call_ensures(RtcPeerConnection::attempt, (&made,), b),
        call_ensures(RtcPeerConnection::channels, (&made,), c),
    ensures
        *a == configuration,
        *b == attempt,
        c@ == channels@,
{
}

/// Numbering the channels of a connection leaves its other parts alone, and fails exactly if
/// two channels ask for the same number, where it changes nothing. Otherwise every channel has
/// a number that no other has, and keeps what it asked for.
pub proof fn law_connection_is_numbered(
    connection: &mut RtcPeerConnection,
    r: Result<(), RtcPeerConnectionError>,
)
    requires
        !has_duplicate(channel::wanted(old(connection)@.channels)) ==> channel::can_be_numbered(
            old(connection)@.channels,
        ),
        call_ensures(RtcPeerConnection::assign_channel_ids, (connection,), r),
    ensures
        r is Err <==> exists|i: int, j: int|
            0 <= i < j < old(connection)@.channels.len() && (#[trigger] channel::wanted(
                old(connection)@.channels,
            )[i]) is Some && channel::wanted(old(connection)@.channels)[i]
                == #[trigger] channel::wanted(old(connection)@.channels)[j],
        r matches Err(e) ==> {
            &&& e@ == PeerErrorView::Creation("Multiple data channels requested with the same ID"@)
            &&& final(connection)@ == old(connection)@
        },
        final(connection)@.configuration == old(connection)@.configuration,
        final(connection)@.attempt == old(connection)@.attempt,
        final(connection)@.channels.len() == old(connection)@.channels.len(),
        r is Ok ==> forall|i: int|
            #![trigger final(connection)@.channels[i]]
            0 <= i < old(connection)@.channels.len() ==> {
                let x = old(connection)@.channels[i]@;
                let y = final(connection)@.channels[i]@;
                &&& y.configuration.id is Some
                &&& y.label == x.label
                &&& y.configuration.ordered == x.configuration.ordered
                &&& y.configuration.max_packet_life_time == x.configuration.max_packet_life_time
                &&& y.configuration.max_retransmits == x.configuration.max_retransmits
                &&& y.configuration.protocol == x.configuration.protocol
                &&& x.configuration.id is Some ==> y == x
                &&& x.configuration.id is None ==> y.configuration.negotiated == Some(true)
            },
        r is Ok ==> forall|i: int, j: int|
            #![trigger final(connection)@.channels[i], final(connection)@.channels[j]]
            0 <= i < j < old(connection)@.channels.len() ==> final(connection)@.channels[i]@.configuration.id
                != final(connection)@.channels[j]@.configuration.id,
{
    if r is Ok {
        assert forall|i: int|
            #![trigger final(connection)@.channels[i]]
            0 <= i < old(connection)@.channels.len() implies (final(connection)@.channels[i])@.configuration.id
            is Some by {
            law_numbering_keeps_the_request(
                old(connection)@.channels,
                final(connection)@.channels,
                i,
            );
        }
    }
}

/// A server has the one address that it is made with and no login, and a configuration has
/// neither servers nor limits unless they are given.
pub proof fn law_nothing_is_set_unasked(
    url: &str,
    server: RtcIceServer,
    other: RtcIceServer,
    configuration: RtcConfiguration,
)
    requires
        call_ensures(RtcIceServer::new, (url,), server),
        call_ensures(<RtcIceServer as Default>::default, (), other),
        call_ensures(<RtcConfiguration as Default>::default, (), configuration),
    ensures
        server.urls@.len() == 1,
        server.urls@[0]@ == url@,
        server.username is None,
        server.credential is None,
        other.urls@.len() == 0,
        other.username is None,
        other.credential is None,
        configuration.ice_servers@.len() == 0,
        configuration.ice_transport_policy is All,
{
}

} // verus!
