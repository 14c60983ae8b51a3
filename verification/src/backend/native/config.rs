//! Configurations in the form that `libdatachannel` takes.
use crate::channel::RtcDataChannelConfiguration;
use crate::peer::{RtcConfiguration, RtcIceServer, RtcIceTransportPolicy};
use crate::text::after_prefix;
use vstd::prelude::*;
use vstd::string::*;

verus! {

/// The text of an option, or none.
pub open spec fn text_of(x: Option<String>) -> Option<Seq<char>> {
    match x {
        Some(t) => Some(t@),
        None => None,
    }
}

/// A relay's address with the name and the password for it.
pub open spec fn ice_url(
    url: Seq<char>,
    username: Option<Seq<char>>,
    credential: Option<Seq<char>>,
) -> Seq<char> {
    "turn:"@ + match username {
        Some(name) => name + (match credential {
            Some(password) => ":"@ + password,
            None => Seq::empty(),
        }) + "@"@ + url,
        None => url,
    }
}

/// Writes the name and the password into a relay's address.
pub fn format_ice_url(url: &str, username: &Option<String>, credential: &Option<String>) -> (r:
    String)
    ensures
        r@ == ice_url(url@, text_of(*username), text_of(*credential)),
{
    let start = "turn:".to_string();
    match username {
        Some(name) => {
            let secret: String = match credential {
                Some(password) => ":".to_string().concat(password.as_str()),
                None => String::new(),
            };
            let address = name.clone().concat(secret.as_str()).concat("@").concat(url);
            start.concat(address.as_str())
        },
        None => start.concat(url),
    }
}

/// An address in the form that this stack takes: only a relay's carries the login.
pub open spec fn native_url(
    url: Seq<char>,
    username: Option<Seq<char>>,
    credential: Option<Seq<char>>,
) -> Seq<char> {
    if "turn:"@.is_prefix_of(url) {
        ice_url(url.skip("turn:"@.len() as int), username, credential)
    } else {
        url
    }
}

/// The addresses of one server.
pub open spec fn native_urls(server: RtcIceServer) -> Seq<Seq<char>> {
    Seq::new(
        server.urls@.len(),
        |i: int|
            native_url(server.urls@[i]@, text_of(server.username), text_of(server.credential)),
    )
}

/// The addresses of all servers, one after the other.
pub open spec fn all_native_urls(servers: Seq<RtcIceServer>) -> Seq<Seq<char>>
    decreases servers.len(),
{
    if servers.len() == 0 {
        Seq::empty()
    } else {
        all_native_urls(servers.drop_last()) + native_urls(servers.last())
    }
}

/// The texts of a list.
pub open spec fn texts(list: Seq<String>) -> Seq<Seq<char>> {
    list.map_values(|t: String| t@)
}

/// The configuration of a connection as this stack takes it.
pub struct RtcConfig {
    pub ice_servers: Vec<String>,
    pub ice_transport_policy: RtcIceTransportPolicy,
}

impl RtcConfig {
    /// The configuration that `x` asks for.
    pub fn from(x: &RtcConfiguration) -> (r: RtcConfig)
        ensures
            texts(r.ice_servers@) == all_native_urls(x.ice_servers@),
            r.ice_transport_policy == x.ice_transport_policy,
    {
        let mut ice_servers: Vec<String> = Vec::new();
        assert(x.ice_servers@.take(0) =~= Seq::empty());
        assert(texts(ice_servers@) =~= Seq::empty());
        for i in 0..x.ice_servers.len()
            invariant
                texts(ice_servers@) == all_native_urls(x.ice_servers@.take(i as int)),
        {
            let server = &x.ice_servers[i];
            let ghost before = all_native_urls(x.ice_servers@.take(i as int));
            let ghost urls = native_urls(*server);
            assert(before + urls.take(0) =~= before);
            for j in 0..server.urls.len()
                invariant
                    urls == native_urls(*server),
                    texts(ice_servers@) == before + urls.take(j as int),
            {
                let url = &server.urls[j];
                let next: String = match after_prefix(url.as_str(), "turn:") {
                    Some(rest) => {
                        assert(url@.skip("turn:"@.len() as int) =~= rest@);
                        assert("turn:"@.is_prefix_of(url@));
                        format_ice_url(rest, &server.username, &server.credential)
                    },
                    None => url.clone(),
                };
                let ghost listed = ice_servers@;
                ice_servers.push(next);
                assert(texts(ice_servers@) =~= texts(listed).push(next@));
                assert(before + urls.take(j + 1) =~= (before + urls.take(j as int)).push(
                    urls[j as int],
                ));
            }
            assert(urls.take(server.urls@.len() as int) =~= urls);
            assert(x.ice_servers@.take(i + 1).drop_last() =~= x.ice_servers@.take(i as int));
        }
        assert(x.ice_servers@.take(x.ice_servers@.len() as int) =~= x.ice_servers@);
        RtcConfig { ice_servers, ice_transport_policy: x.ice_transport_policy }
    }
}

/// The options of a channel as this stack takes them.
pub struct DataChannelInit {
    pub protocol: String,
    pub unordered: bool,
    pub unreliable: bool,
    pub max_packet_life_time: u16,
    pub max_retransmits: u16,
    pub negotiated: bool,
    pub manual_stream: bool,
    pub stream: u16,
}

/// An option, or what stands for it where it is not set.
pub open spec fn or_else<T>(x: Option<T>, other: T) -> T {
    match x {
        Some(v) => v,
        None => other,
    }
}

impl DataChannelInit {
    /// The options that `x` asks for. A channel is ordered and reliable unless it is asked
    /// to be unordered, and both sides open it by its number if it is negotiated.
    pub fn from(x: &RtcDataChannelConfiguration) -> (r: DataChannelInit)
        ensures
            r.protocol@ == or_else(text_of(x.protocol), Seq::empty()),
            r.unordered == !or_else(x.ordered, true),
            r.unreliable == !or_else(x.ordered, true),
            r.max_packet_life_time == or_else(x.max_packet_life_time, 0),
            r.max_retransmits == or_else(x.max_retransmits, 0),
            r.negotiated == or_else(x.negotiated, false),
            r.manual_stream == or_else(x.negotiated, false),
            r.stream == or_else(x.id, 0),
    {
        let ordered: bool = x.ordered.unwrap_or(true);
        let negotiated: bool = x.negotiated.unwrap_or(false);
        DataChannelInit {
            protocol: match &x.protocol {
                Some(protocol) => protocol.clone(),
                None => String::new(),
            },
            unordered: !ordered,
            unreliable: !ordered,
            max_packet_life_time: x.max_packet_life_time.unwrap_or(0),
            max_retransmits: x.max_retransmits.unwrap_or(0),
            negotiated,
            manual_stream: negotiated,
            stream: x.id.unwrap_or(0),
        }
    }
}

/// An address that is not a relay's passes unchanged, whatever the login; and a relay's
/// address does so too where there is no user name.
pub proof fn law_address_without_login_is_unchanged(
    url: Seq<char>,
    username: Option<Seq<char>>,
    credential: Option<Seq<char>>,
)
    ensures
        !"turn:"@.is_prefix_of(url) ==> native_url(url, username, credential) == url,
        "turn:"@.is_prefix_of(url) ==> native_url(url, None, credential) == url,
{
    if "turn:"@.is_prefix_of(url) {
        assert("turn:"@ + url.skip("turn:"@.len() as int) =~= url);
    }
}

/// A relay's address gets the user name, and the password behind it if there is one, in front
/// of the host, and is otherwise as it was.
pub proof fn law_relay_address_carries_the_login(
    host: Seq<char>,
    name: Seq<char>,
    password: Seq<char>,
)
    ensures
        native_url("turn:"@ + host, Some(name), None) == "turn:"@ + name + "@"@ + host,
        native_url("turn:"@ + host, Some(name), Some(password)) == "turn:"@ + name + ":"@ + password
            + "@"@ + host,
        ice_url(host, Some(name), None) == "turn:"@ + name + "@"@ + host,
        ice_url(host, Some(name), Some(password)) == "turn:"@ + name + ":"@ + password + "@"@ + host,
        ice_url(host, None, None) == "turn:"@ + host,
        ice_url(host, None, Some(password)) == "turn:"@ + host,
{
    let url = "turn:"@ + host;
    assert("turn:"@.is_prefix_of(url));
    assert(url.skip("turn:"@.len() as int) =~= host);
    assert(ice_url(host, Some(name), None) =~= "turn:"@ + name + "@"@ + host);
    assert(ice_url(host, Some(name), Some(password)) =~= "turn:"@ + name + ":"@ + password + "@"@
        + host);
}

/// Each address of a server is taken over at its own place, with the login of that server; a
/// server without a user name keeps all its addresses as they are.
pub proof fn law_server_keeps_its_addresses(server: RtcIceServer, i: int)
    requires
        0 <= i < server.urls@.len(),
    ensures
        native_urls(server).len() == server.urls@.len(),
        native_urls(server)[i] == native_url(
            server.urls@[i]@,
            text_of(server.username),
            text_of(server.credential),
        ),
        server.username is None ==> native_urls(server)[i] == server.urls@[i]@,
        !"turn:"@.is_prefix_of(server.urls@[i]@) ==> native_urls(server)[i] == server.urls@[i]@,
{
    law_address_without_login_is_unchanged(
        server.urls@[i]@,
        text_of(server.username),
        text_of(server.credential),
    );
}

/// The addresses of all servers stand one server after the other, and no server is left out:
/// more servers have the addresses of the first ones, and then their own.
pub proof fn law_every_server_is_listed(servers: Seq<RtcIceServer>, more: Seq<RtcIceServer>)
    ensures
        all_native_urls(servers + more) == all_native_urls(servers) + all_native_urls(more),
        servers.len() == 0 ==> all_native_urls(servers).len() == 0,
        servers.len() == 1 ==> all_native_urls(servers) == native_urls(servers[0]),
    decreases more.len(),
{
    if more.len() == 0 {
        assert(servers + more =~= servers);
        assert(all_native_urls(servers) + all_native_urls(more) =~= all_native_urls(servers));
    } else {
        law_every_server_is_listed(servers, more.drop_last());
        assert((servers + more).drop_last() =~= servers + more.drop_last());
        assert(all_native_urls(servers) + (all_native_urls(more.drop_last()) + native_urls(
            more.last(),
        )) =~= (all_native_urls(servers) + all_native_urls(more.drop_last())) + native_urls(
            more.last(),
        ));
    }
    if servers.len() == 1 {
        assert(all_native_urls(servers.drop_last()) =~= Seq::empty());
        assert(Seq::<Seq<char>>::empty() + native_urls(servers[0]) =~= native_urls(servers[0]));
    }
}

/// An option that is set is taken as it is, and only one that is not set is replaced.
pub proof fn law_set_option_is_taken<T>(x: T, other: T, text: String, list: Seq<String>, i: int)
    ensures
        or_else(Some(x), other) == x,
        or_else(None, other) == other,
        text_of(Some(text)) == Some(text@),
        text_of(None) is None,
        texts(list).len() == list.len(),
        0 <= i < list.len() ==> texts(list)[i] == list[i]@,
{
}

/// The addresses that the stack gets are those of the servers, server by server and in their
/// order: the first server's come first, and the other servers' follow as they would alone.
/// The policy is taken over.
pub proof fn law_configuration_lists_the_servers(x: RtcConfiguration, r: RtcConfig, j: int)
    requires
        call_ensures(RtcConfig::from, (&x,), r),
        x.ice_servers@.len() > 0,
        0 <= j < x.ice_servers@[0].urls@.len(),
    ensures
        r.ice_transport_policy == x.ice_transport_policy,
        ({
            let first = x.ice_servers@[0];
            let others = all_native_urls(x.ice_servers@.skip(1));
            let n = first.urls@.len();
            &&& r.ice_servers@.len() == n + others.len()
            &&& texts(r.ice_servers@).skip(n as int) == others
            &&& !"turn:"@.is_prefix_of(first.urls@[j]@) || first.username is None
                ==> r.ice_servers@[j]@ == first.urls@[j]@
            &&& forall|host: Seq<char>|
                #![trigger "turn:"@ + host]
                first.urls@[j]@ == "turn:"@ + host ==> match (first.username, first.credential) {
                    (Some(name), Some(password)) => r.ice_servers@[j]@ == "turn:"@ + name@ + ":"@
                        + password@ + "@"@ + host,
                    (Some(name), None) => r.ice_servers@[j]@ == "turn:"@ + name@ + "@"@ + host,
                    (None, _) => r.ice_servers@[j]@ == "turn:"@ + host,
                }
        }),
{
    let first = x.ice_servers@[0];
    let head = seq![first];
    let rest = x.ice_servers@.skip(1);
    let n = first.urls@.len() as int;
    assert(x.ice_servers@ =~= head + rest);
    law_every_server_is_listed(head, rest);
    law_every_server_is_listed(head, Seq::empty());
    assert(all_native_urls(head) == native_urls(first));
    let all = texts(r.ice_servers@);
    assert(all == native_urls(first) + all_native_urls(rest));
    assert(all.skip(n) =~= all_native_urls(rest));
    assert(all[j] == r.ice_servers@[j]@);
    assert(all[j] == native_urls(first)[j]);
    law_server_keeps_its_addresses(first, j);
    assert forall|host: Seq<char>|
        #![trigger "turn:"@ + host]
        first.urls@[j]@ == "turn:"@ + host implies match (first.username, first.credential) {
        (Some(name), Some(password)) => r.ice_servers@[j]@ == "turn:"@ + name@ + ":"@ + password@
            + "@"@ + host,
        (Some(name), None) => r.ice_servers@[j]@ == "turn:"@ + name@ + "@"@ + host,
        (None, _) => r.ice_servers@[j]@ == "turn:"@ + host,
    } by {
        if first.username is Some {
            let password = if first.credential is Some {
                (first.credential->0)@
            } else {
                Seq::empty()
            };
            law_relay_address_carries_the_login(host, (first.username->0)@, password);
        }
    }
}

/// Where there is no server the stack gets no address.
pub proof fn law_no_server_no_address(x: RtcConfiguration, r: RtcConfig)
    requires
        call_ensures(RtcConfig::from, (&x,), r),
        x.ice_servers@.len() == 0,
    ensures
        r.ice_servers@.len() == 0,
        r.ice_transport_policy == x.ice_transport_policy,
{
    assert(texts(r.ice_servers@).len() == r.ice_servers@.len());
}

/// An option that is set goes to the stack as it is, and one that is not set as the stack's own
/// default.
pub proof fn law_options_go_to_the_stack(x: RtcDataChannelConfiguration, r: DataChannelInit)
    requires
        call_ensures(DataChannelInit::from, (&x,), r),
    ensures
        match x.protocol {
            Some(p) => r.protocol@ == p@,
            None => r.protocol@.len() == 0,
        },
        r.unordered <==> x.ordered == Some(false),
        r.unreliable <==> x.ordered == Some(false),
        match x.max_packet_life_time {
            Some(t) => r.max_packet_life_time == t,
            None => r.max_packet_life_time == 0,
        },
        match x.max_retransmits {
            Some(n) => r.max_retransmits == n,
            None => r.max_retransmits == 0,
        },
        r.negotiated <==> x.negotiated == Some(true),
        r.manual_stream <==> x.negotiated == Some(true),
        match x.id {
            Some(id) => r.stream == id,
            None => r.stream == 0,
        },
{
}

} // verus!
