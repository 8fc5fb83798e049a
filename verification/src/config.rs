//! The routes of the gateway.

use vstd::prelude::*;

use crate::json::{has_version, Json, JsonView};
use crate::text::{characters, owned, push_decimal, stands_at};

verus! {

/// How a client gets to its destination.
#[derive(Debug, Clone, Copy, PartialEq, Eq, Structural)]
pub enum TransferMode {
    /// The client is told to connect to the destination itself.
    Transfer,
    /// The client is transferred where it can be, and proxied where not.
    Opportunistic { haproxy: bool },
    /// The connection is proxied.
    Proxy { haproxy: bool },
}

impl Default for TransferMode {
    fn default() -> (mode: Self)
        ensures
            mode == TransferMode::Transfer,
    {
        TransferMode::Transfer
    }
}

/// What the gateway is told to do.
#[derive(Debug)]
pub struct Config {
    /// The address on which it listens.
    pub listen: String,
    /// The routes; the first that matches decides.
    pub routes: Vec<Route>,
}

/// What happens to the clients that ask for certain addresses.
#[derive(Debug)]
pub struct Route {
    /// The addresses: `*` for all, `*.name` for a name and everything below it,
    /// `name.*` for a name and everything that continues it, or one name.
    pub pattern: String,
    /// The status that the clients see.
    pub status: StatusConfig,
    /// Where the clients go.
    pub destination: Destination,
}

/// Where a client goes that logs in.
#[derive(Debug)]
pub enum Destination {
    /// To another server.
    Transfer { host: String, port: u16, transfer_mode: TransferMode, rewrite_address: bool },
    /// Away, with a message.
    Kick { message: Json },
}

/// The status that a client sees.
#[derive(Debug)]
pub enum StatusConfig {
    /// A fixed document, in which the protocol version can be made the client's.
    Static { json: Json, fake_protocol_version: bool },
    /// What another server answers. It is kept for `cache_ttl` seconds.
    FetchFrom { host: String, port: u16, rewrite_address: bool, cache_ttl: Option<u64> },
}

/// `Config` as contracts see it.
pub struct ConfigView {
    pub listen: Seq<char>,
    pub routes: Seq<RouteView>,
}

/// `Route` as contracts see it.
pub struct RouteView {
    pub pattern: Seq<char>,
    pub status: StatusView,
    pub destination: DestinationView,
}

/// `Destination` as contracts see it.
#[allow(inconsistent_fields)]
pub enum DestinationView {
    Transfer { host: Seq<char>, port: u16, transfer_mode: TransferMode, rewrite_address: bool },
    Kick { message: JsonView },
}

/// `StatusConfig` as contracts see it.
pub enum StatusView {
    Static { json: JsonView, fake_protocol_version: bool },
    FetchFrom { host: Seq<char>, port: u16, rewrite_address: bool, cache_ttl: Option<u64> },
}

impl View for Config {
    type V = ConfigView;

    open spec fn view(&self) -> ConfigView {
        ConfigView {
            listen: self.listen@,
            routes: Seq::new(self.routes@.len(), |i: int| self.routes@[i]@),
        }
    }
}

impl View for Route {
    type V = RouteView;

    open spec fn view(&self) -> RouteView {
        RouteView {
            pattern: self.pattern@,
            status: self.status@,
            destination: self.destination@,
        }
    }
}

impl View for Destination {
    type V = DestinationView;

    open spec fn view(&self) -> DestinationView {
        match self {
            Destination::Transfer { host, port, transfer_mode, rewrite_address } => {
                DestinationView::Transfer {
                    host: host@,
                    port: *port,
                    transfer_mode: *transfer_mode,
                    rewrite_address: *rewrite_address,
                }
            },
            Destination::Kick { message } => DestinationView::Kick { message: message.tree() },
        }
    }
}

impl View for StatusConfig {
    type V = StatusView;

    open spec fn view(&self) -> StatusView {
        match self {
            StatusConfig::Static { json, fake_protocol_version } => StatusView::Static {
                json: json.tree(),
                fake_protocol_version: *fake_protocol_version,
            },
            StatusConfig::FetchFrom { host, port, rewrite_address, cache_ttl } => {
                StatusView::FetchFrom {
                    host: host@,
                    port: *port,
                    rewrite_address: *rewrite_address,
                    cache_ttl: *cache_ttl,
                }
            },
        }
    }
}

/// Whether a pattern of a route covers an address.
pub open spec fn pattern_matches(pattern: Seq<char>, address: Seq<char>) -> bool {
    let n = pattern.len() as int;
    if pattern == seq!['*'] {
        true
    } else if n >= 2 && pattern[0] == '*' && pattern[1] == '.' {
        let suffix = pattern.skip(2);
        address == suffix || (seq!['.'] + suffix).is_suffix_of(address)
    } else if n >= 2 && pattern[n - 2] == '.' && pattern[n - 1] == '*' {
        let prefix = pattern.take(n - 2);
        prefix.is_prefix_of(address) && (address.len() == prefix.len() || address[n - 2] == '.')
    } else {
        address == pattern
    }
}

/// The place of the first route from `from` on that covers an address.
pub open spec fn first_match(routes: Seq<RouteView>, address: Seq<char>, from: nat) -> Option<nat>
    decreases routes.len() - from,
{
    if from >= routes.len() {
        None
    } else if pattern_matches(routes[from as int].pattern, address) {
        Some(from)
    } else {
        first_match(routes, address, from + 1)
    }
}

/// The place of the route of an address.
pub open spec fn route_of(config: ConfigView, address: Seq<char>) -> Option<nat> {
    first_match(config.routes, address, 0)
}

/// The name under which the status of a server is kept.
pub open spec fn status_key(host: Seq<char>, port: u16) -> Seq<char> {
    host + seq![':'] + crate::text::decimal(port as nat)
}

/// Whether the status can be shown at all: a document that is to announce the
/// client's protocol has a place for it, and a status that is fetched says how
/// long it is kept.
pub open spec fn status_usable(status: StatusView) -> bool {
    match status {
        StatusView::Static { json, fake_protocol_version } => fake_protocol_version ==> has_version(
            json,
        ),
        StatusView::FetchFrom { cache_ttl, .. } => cache_ttl is Some,
    }
}

impl StatusConfig {
    /// For how many seconds a fetched status is kept.
    pub fn cache_ttl(&self) -> (seconds: Option<u64>)
        ensures
            seconds == (match self@ {
                StatusView::FetchFrom { cache_ttl, .. } => cache_ttl,
                _ => None,
            }),
    {
        match self {
            StatusConfig::FetchFrom { cache_ttl, .. } => *cache_ttl,
            _ => None,
        }
    }

    /// The name under which a fetched status is kept.
    pub fn cache_key(&self, resolved_host: &str) -> (key: Option<String>)
        ensures
            match self@ {
                StatusView::FetchFrom { port, .. } => key matches Some(k) && k@ == status_key(
                    resolved_host@,
                    port,
                ),
                _ => key is None,
            },
    {
        match self {
            StatusConfig::FetchFrom { port, .. } => {
                let mut key = owned(resolved_host);
                key.push(':');
                push_decimal(&mut key, *port as u64);
                assert(key@ =~= status_key(resolved_host@, *port));
                Some(key)
            },
            _ => None,
        }
    }

    /// Whether the status can be shown.
    pub fn is_usable(&self) -> (yes: bool)
        ensures
            yes == status_usable(self@),
    {
        match self {
            StatusConfig::Static { json, fake_protocol_version } => !*fake_protocol_version
                || json.has_version(),
            StatusConfig::FetchFrom { cache_ttl, .. } => cache_ttl.is_some(),
        }
    }
}

impl Route {
    /// Whether the route covers an address.
    pub fn matches(&self, address: &str) -> (yes: bool)
        ensures
            yes == pattern_matches(self.pattern@, address@),
    {
        let pattern = characters(self.pattern.as_str());
        let address = characters(address);
        let n: usize = pattern.len();
        let m: usize = address.len();
        if n == 1 && pattern[0] == '*' {
            assert(pattern@ =~= seq!['*']);
            return true;
        }
        if n >= 2 && pattern[0] == '*' && pattern[1] == '.' {
            let suffix = vstd::slice::slice_subrange(pattern.as_slice(), 2, n);
            let ghost dotted = seq!['.'] + suffix@;
            assert(suffix@ =~= pattern@.skip(2));
            if m == n - 2 {
                assert(address@.subrange(0, m as int) =~= address@);
                return stands_at(&address, 0, suffix);
            }
            if m < n - 1 {
                return false;
            }
            let dot: usize = m - (n - 1);
            let same = stands_at(&address, dot + 1, suffix);
            proof {
                let tail = address@.subrange(dot as int, m as int);
                assert(address@.subrange(dot + 1, m as int) =~= tail.skip(1));
                if same && address@[dot as int] == '.' {
                    assert(tail =~= dotted);
                }
                if tail == dotted {
                    assert(tail.skip(1) =~= suffix@);
                    assert(tail[0] == '.');
                }
            }
            return address[dot] == '.' && same;
        }
        if n >= 2 && pattern[n - 2] == '.' && pattern[n - 1] == '*' {
            let prefix = vstd::slice::slice_subrange(pattern.as_slice(), 0, n - 2);
            assert(prefix@ =~= pattern@.take(n - 2));
            if m < n - 2 {
                return false;
            }
            return stands_at(&address, 0, prefix) && (m == n - 2 || address[n - 2] == '.');
        }
        if m != n {
            return false;
        }
        assert(address@.subrange(0, m as int) =~= address@);
        stands_at(&address, 0, pattern.as_slice())
    }
}

impl Config {
    /// The place of the first route that covers an address.
    pub fn match_index(&self, address: &str) -> (place: Option<usize>)
        ensures
            match route_of(self@, address@) {
                Some(i) => place matches Some(p) && p == i && i < self.routes@.len(),
                None => place is None,
            },
    {
        let mut i: usize = 0;
        while i < self.routes.len()
            invariant
                i <= self.routes@.len(),
                route_of(self@, address@) == first_match(self@.routes, address@, i as nat),
            decreases self.routes@.len() - i,
        {
            if self.routes[i].matches(address) {
                return Some(i);
            }
            i = i + 1;
        }
        None
    }

    /// The first route that covers an address.
    pub fn match_host(&self, address: &str) -> (route: Option<&Route>)
        ensures
            match route_of(self@, address@) {
                Some(i) => i < self.routes@.len() && route == Some(&self.routes@[i as int]),
                None => route is None,
            },
    {
        match self.match_index(address) {
            Some(i) => Some(&self.routes[i]),
            None => None,
        }
    }
}

/// The route of an address is the first that covers it, and there is none only
/// where no route covers it.
pub proof fn theorem_first_route_decides(config: ConfigView, address: Seq<char>)
    ensures
        match route_of(config, address) {
            Some(i) => {
                &&& i < config.routes.len()
                &&& pattern_matches(config.routes[i as int].pattern, address)
                &&& forall|j: int|
                    0 <= j < i ==> !pattern_matches(#[trigger] config.routes[j].pattern, address)
            },
            None => forall|j: int|
                0 <= j < config.routes.len() ==> !pattern_matches(
                    #[trigger] config.routes[j].pattern,
                    address,
                ),
        },
{
    lemma_first_match(config.routes, address, 0);
}

proof fn lemma_first_match(routes: Seq<RouteView>, address: Seq<char>, from: nat)
    ensures
        match first_match(routes, address, from) {
            Some(i) => {
                &&& from <= i < routes.len()
                &&& pattern_matches(routes[i as int].pattern, address)
                &&& forall|j: int|
                    from <= j < i ==> !pattern_matches(#[trigger] routes[j].pattern, address)
            },
            None => forall|j: int|
                from <= j < routes.len() ==> !pattern_matches(#[trigger] routes[j].pattern, address),
        },
    decreases routes.len() - from,
{
    if from < routes.len() && !pattern_matches(routes[from as int].pattern, address) {
        lemma_first_match(routes, address, from + 1);
    }
}

/// `*` covers every address.
pub proof fn theorem_star_covers_all(address: Seq<char>)
    ensures
        pattern_matches(seq!['*'], address),
{
}

/// `*.name` covers the name itself and everything that ends in `.name`, and
/// nothing else.
pub proof fn theorem_subdomains(name: Seq<char>, address: Seq<char>)
    ensures
        pattern_matches(seq!['*', '.'] + name, address) <==> (address == name || exists|below: Seq<
            char,
        >| address == #[trigger] (below + (seq!['.'] + name))),
{
    let pattern = seq!['*', '.'] + name;
    let dotted = seq!['.'] + name;
    assert(pattern.skip(2) =~= name);
    if dotted.is_suffix_of(address) {
        let below = address.take(address.len() - dotted.len());
        assert(address =~= below + dotted);
    }
    if exists|below: Seq<char>| address == #[trigger] (below + dotted) {
        let below = choose|below: Seq<char>| address == #[trigger] (below + dotted);
        assert(address.subrange(address.len() - dotted.len(), address.len() as int) =~= dotted);
    }
}

/// `name.*` covers the name itself and everything that begins with `name.`,
/// and nothing else. A pattern that begins with `*.` is read as above.
pub proof fn theorem_continuations(name: Seq<char>, address: Seq<char>)
    requires
        !(seq!['*', '.'].is_prefix_of(name + seq!['.', '*'])),
    ensures
        pattern_matches(name + seq!['.', '*'], address) <==> (address == name || exists|more: Seq<
            char,
        >| address == #[trigger] (name + seq!['.'] + more)),
{
    let pattern = name + seq!['.', '*'];
    let n = pattern.len() as int;
    assert(pattern.take(n - 2) =~= name);
    if pattern[0] == '*' && pattern[1] == '.' {
        assert(pattern.subrange(0, 2) =~= seq!['*', '.']);
    }
    if name.is_prefix_of(address) {
        assert(address.subrange(0, name.len() as int) =~= name);
        if address.len() == name.len() {
            assert(address =~= name);
        } else if address[n - 2] == '.' {
            let more = address.skip(name.len() as int + 1);
            assert(address =~= name + seq!['.'] + more);
        }
    }
    if exists|more: Seq<char>| address == #[trigger] (name + seq!['.'] + more) {
        let more = choose|more: Seq<char>| address == #[trigger] (name + seq!['.'] + more);
        assert(address.subrange(0, name.len() as int) =~= name);
    }
    if address == name {
        assert(address.subrange(0, name.len() as int) =~= name);
    }
}

/// A pattern of none of these forms covers one address, itself.
pub proof fn theorem_plain_pattern(pattern: Seq<char>, address: Seq<char>)
    requires
        pattern != seq!['*'],
        !(seq!['*', '.'].is_prefix_of(pattern)),
        !(seq!['.', '*'].is_suffix_of(pattern)),
    ensures
        pattern_matches(pattern, address) <==> address == pattern,
{
    let n = pattern.len() as int;
    if n >= 2 && pattern[0] == '*' && pattern[1] == '.' {
        assert(pattern.subrange(0, 2) =~= seq!['*', '.']);
    }
    if n >= 2 && pattern[n - 2] == '.' && pattern[n - 1] == '*' {
        assert(pattern.subrange(n - 2, n) =~= seq!['.', '*']);
    }
}

/// Two servers never share the name under which their status is kept.
pub proof fn theorem_status_key_injective(host: Seq<char>, port: u16, host2: Seq<char>, port2: u16)
    requires
        status_key(host, port) == status_key(host2, port2),
    ensures
        host == host2,
        port == port2,
{
    let a = crate::text::decimal(port as nat);
    let b = crate::text::decimal(port2 as nat);
    let key = status_key(host, port);
    let key2 = status_key(host2, port2);
    assert(key.len() == host.len() + 1 + a.len());
    assert(key2.len() == host2.len() + 1 + b.len());
    assert(key[host.len() as int] == ':');
    assert(key2[host2.len() as int] == ':');
    if host.len() < host2.len() {
        let i = host2.len() - host.len() - 1;
        assert(key[host2.len() as int] == a[i]);
        crate::text::lemma_decimal_without_colon(port as nat, i);
    }
    if host2.len() < host.len() {
        let i = host.len() - host2.len() - 1;
        assert(key2[host.len() as int] == b[i]);
        crate::text::lemma_decimal_without_colon(port2 as nat, i);
    }
    assert(key.take(host.len() as int) =~= host);
    assert(key2.take(host2.len() as int) =~= host2);
    assert(key.skip(host.len() as int + 1) =~= a);
    assert(key2.skip(host2.len() as int + 1) =~= b);
    crate::text::theorem_decimal_injective(port as nat, port2 as nat);
}

/// The name under which a status is kept is the host, a colon and the port in
/// decimal.
pub proof fn theorem_status_key_layout(host: Seq<char>, port: u16)
    ensures
        status_key(host, port) == host + seq![':'] + crate::text::decimal(port as nat),
{
}

/// What contracts see of a configuration is what it holds, each part under its
/// own name.
pub proof fn theorem_configuration_seen(config: Config, i: int)
    requires
        0 <= i < config.routes@.len(),
    ensures
        config@.listen == config.listen@,
        config@.routes.len() == config.routes@.len(),
        config@.routes[i].pattern == config.routes@[i].pattern@,
        config.routes@[i].status matches StatusConfig::Static { json, fake_protocol_version }
            ==> config@.routes[i].status == (StatusView::Static {
            json: json.tree(),
            fake_protocol_version,
        }),
        config.routes@[i].status matches StatusConfig::FetchFrom {
            host,
            port,
            rewrite_address,
            cache_ttl,
        } ==> config@.routes[i].status == (StatusView::FetchFrom {
            host: host@,
            port,
            rewrite_address,
            cache_ttl,
        }),
        config.routes@[i].destination matches Destination::Transfer {
            host,
            port,
            transfer_mode,
            rewrite_address,
        } ==> config@.routes[i].destination == (DestinationView::Transfer {
            host: host@,
            port,
            transfer_mode,
            rewrite_address,
        }),
        config.routes@[i].destination matches Destination::Kick { message }
            ==> config@.routes[i].destination == (DestinationView::Kick {
            message: message.tree(),
        }),
{
}

} // verus!
