//! Resolving a service URL to the address and port of a node: parsing the
//! URL, choosing how its host is looked up, and the lookup through the
//! registry node, whose channel, call and reply are decided here while the
//! caller does the messaging.

use vstd::prelude::*;
use vstd::utf8::*;
use crate::abi::{
    abi_selector, all_word_sized, string_offsets_in_range, word_sized, words_of, zeros, AbiArgView,
};
use crate::hex_codec::{hex_text, lemma_hex_text_ascii, lemma_hex_text_concat};
use crate::dns_contract::{
    call_hex, call_layout, get_ip_function, result_text, ContractError, DnsContract,
};
use crate::source_api::{CallData, CallResponse};

verus! {

/// Why a URL could not be resolved.
#[derive(Debug, Clone, PartialEq, Eq)]
pub enum ResolveError {
    /// The URL did not parse; the parser's description.
    InvalidUrl(String),
    /// Only `http` and `https` URLs can be looked up without the registry.
    UnsupportedScheme,
    /// The lookup gave no address.
    NoAddress,
    /// No channel to the registry node could be opened.
    ChannelUnavailable,
    /// The registry's reply could not be read.
    InvalidReply(ContractError),
}

/// The parts of a parsed URL that resolving reads.
#[derive(Debug, Clone)]
pub struct UrlParts {
    pub scheme: String,
    pub host: Option<String>,
    pub port: Option<u16>,
}

/// The scheme, host and explicit port of a URL, as plain values.
pub type UrlPartsView = (Seq<char>, Option<Seq<char>>, Option<u16>);

impl UrlParts {
    pub open spec fn parts(&self) -> UrlPartsView {
        (
            self.scheme@,
            match self.host {
                Some(h) => Some(h@),
                None => None,
            },
            self.port,
        )
    }
}

/// What `url::Url::parse` makes of a text: the scheme, the host (where the
/// URL has one) and the port (where it is not the scheme's default); or,
/// where the text is not a URL, the parser's description of why.
pub uninterp spec fn url_parse(input: Seq<char>) -> Result<UrlPartsView, Seq<char>>;

/// `url::Url::parse`, read out into plain values; on failure the parser's
/// description of the error.
#[verifier::external_body]
fn parse_url(input: &str) -> (r: Result<UrlParts, String>)
    ensures
        match (r, url_parse(input@)) {
            (Ok(p), Ok(q)) => p.parts() == q,
            (Err(m), Err(n)) => m@ == n,
            _ => false,
        },
{
    match url::Url::parse(input) {
        Ok(u) => Ok(
            UrlParts {
                scheme: u.scheme().to_string(),
                host: u.host_str().map(|h| h.to_string()),
                port: u.port(),
            },
        ),
        Err(e) => Err(format!("{}", e)),
    }
}

/// Parses a service URL.
pub fn parse_dns_url(dns_url: &str) -> (r: Result<UrlParts, ResolveError>)
    ensures
        match url_parse(dns_url@) {
            Ok(p) => r matches Ok(q) && q.parts() == p,
            Err(m) => r matches Err(ResolveError::InvalidUrl(n)) && n@ == m,
        },
{
    match parse_url(dns_url) {
        Ok(p) => Ok(p),
        Err(e) => Err(ResolveError::InvalidUrl(e)),
    }
}

/// The port used when the URL names none.
pub const DEFAULT_PORT: u16 = 8090;

/// How a host is to be looked up.
#[derive(Debug, Clone, PartialEq, Eq)]
pub enum Lookup {
    /// The host is an IP address already.
    Literal(String),
    /// Through the domain name system.
    Http(String),
    /// Through the domain registry contract.
    Registry(String),
}

/// The lookup to make for a URL, and the port of the node.
#[derive(Debug, Clone)]
pub struct ResolvePlan {
    pub lookup: Lookup,
    pub port: u16,
}

/// The port of a URL: its explicit port, else the default.
pub open spec fn port_of(port: Option<u16>) -> u16 {
    match port {
        Some(p) => p,
        None => DEFAULT_PORT,
    }
}

/// A URL's explicit port is its port; without one it is 8090.
pub proof fn lemma_port_of(port: Option<u16>)
    ensures
        port matches Some(p) ==> port_of(port) == p,
        port is None ==> port_of(port) == 8090,
{
}

/// Whether a scheme is `http` or `https`.
pub open spec fn is_http_scheme(scheme: Seq<char>) -> bool {
    scheme == "http"@ || scheme == "https"@
}

/// The kind of lookup a plan makes: 0 literal, 1 name system, 2 registry.
pub open spec fn lookup_kind(l: Lookup) -> int {
    match l {
        Lookup::Literal(_) => 0,
        Lookup::Http(_) => 1,
        Lookup::Registry(_) => 2,
    }
}

/// The host a plan looks up.
pub open spec fn lookup_host(l: Lookup) -> Seq<char> {
    match l {
        Lookup::Literal(h) => h@,
        Lookup::Http(h) => h@,
        Lookup::Registry(h) => h@,
    }
}

fn scheme_is(scheme: &String, name: &str) -> (r: bool)
    ensures
        r == (scheme@ == name@),
{
    let n = name.to_owned();
    *scheme == n
}

/// The plan for a URL resolved without the registry: an IP host is taken as
/// it is; any other host is looked up in the name system, which needs an
/// `http` or `https` URL.
pub fn resolve_only_http(parts: &UrlParts, host_is_ip: bool) -> (r: Result<
    ResolvePlan,
    ResolveError,
>)
    requires
        parts.host is Some,
    ensures
        host_is_ip ==> (r matches Ok(plan) && lookup_kind(plan.lookup) == 0),
        !host_is_ip && is_http_scheme(parts.scheme@) ==> (r matches Ok(plan) && lookup_kind(
            plan.lookup,
        ) == 1),
        !host_is_ip && !is_http_scheme(parts.scheme@) ==> r == Err::<ResolvePlan, ResolveError>(
            ResolveError::UnsupportedScheme,
        ),
        r matches Ok(plan) ==> lookup_host(plan.lookup) == parts.host.unwrap()@ && plan.port
            == port_of(parts.port),
        r matches Ok(plan) ==> (parts.port matches Some(p) ==> plan.port == p),
        r matches Ok(plan) ==> (parts.port is None ==> plan.port == 8090),
{
    let host = match &parts.host {
        Some(h) => h.clone(),
        None => String::new(),
    };
    let lookup = if host_is_ip {
        Lookup::Literal(host)
    } else {
        if !(scheme_is(&parts.scheme, "http") || scheme_is(&parts.scheme, "https")) {
            return Err(ResolveError::UnsupportedScheme);
        }
        Lookup::Http(host)
    };
    let port = match parts.port {
        Some(p) => p,
        None => DEFAULT_PORT,
    };
    Ok(ResolvePlan { lookup, port })
}

/// The plan for a URL resolved with the registry: an IP host is taken as it
/// is; a `dxm` URL's host is looked up in the registry, any other host in
/// the name system.
pub fn resolve_all(parts: &UrlParts, host_is_ip: bool) -> (r: ResolvePlan)
    requires
        parts.host is Some,
    ensures
        lookup_kind(r.lookup) == (if host_is_ip {
            0int
        } else if parts.scheme@ == "dxm"@ {
            2int
        } else {
            1int
        }),
        lookup_host(r.lookup) == parts.host.unwrap()@,
        r.port == port_of(parts.port),
        parts.port matches Some(p) ==> r.port == p,
        parts.port is None ==> r.port == 8090,
{
    let host = match &parts.host {
        Some(h) => h.clone(),
        None => String::new(),
    };
    let lookup = if host_is_ip {
        Lookup::Literal(host)
    } else if scheme_is(&parts.scheme, "dxm") {
        Lookup::Registry(host)
    } else {
        Lookup::Http(host)
    };
    let port = match parts.port {
        Some(p) => p,
        None => DEFAULT_PORT,
    };
    ResolvePlan { lookup, port }
}

/// A resolved node: its address and port.
#[derive(Debug, Clone)]
pub struct Endpoint {
    pub ip: String,
    pub port: u16,
}

/// The node a lookup found: an empty address means the lookup found none.
pub fn finish_resolve(ip: String, port: u16) -> (r: Result<Endpoint, ResolveError>)
    ensures
        ip@.len() == 0 ==> r == Err::<Endpoint, ResolveError>(ResolveError::NoAddress),
        ip@.len() != 0 ==> (r matches Ok(e) && e.ip@ == ip@ && e.port == port),
{
    if ip.as_str().is_empty() {
        Err(ResolveError::NoAddress)
    } else {
        Ok(Endpoint { ip, port })
    }
}

/// The address a name-system lookup gives: the first one found, or the
/// empty text when there is none.
pub fn first_address(ips: Vec<String>) -> (r: String)
    ensures
        ips@.len() > 0 ==> r@ == ips@[0]@,
        ips@.len() == 0 ==> r@ == Seq::<char>::empty(),
{
    if ips.len() > 0 {
        ips[0].clone()
    } else {
        String::new()
    }
}

// ---------------------------------------------------------------------------
// Lookup through the registry node
/// Where a registry lookup stands.
#[derive(Debug, Clone, Copy, PartialEq, Eq, Structural)]
pub enum RegistryPhase {
    /// Asked for the channel to the registry node.
    FirstChannelQuery,
    /// Asked to resolve the registry node anew.
    Refreshing,
    /// Asked to open a channel to the registry node.
    Building,
    /// Asked again for the channel to the registry node.
    SecondChannelQuery,
    /// Sent the call and waits for its reply.
    AwaitingReply,
    /// Done.
    Done,
}

/// What the caller is to do next for a registry lookup.
#[derive(Debug)]
pub enum RegistryAction {
    /// Find the channel to the node with this connection id.
    QueryChannel(i64),
    /// Resolve the registry node's URL again and report its connection id.
    RefreshNode,
    /// Open a channel to the node with this connection id.
    BuildChannel(i64),
    /// Send the contract call over the channel and report the reply.
    SendCall(i64, CallData),
    /// The lookup is over: the address found, or why there is none.
    Finish(Result<String, ResolveError>),
}

/// What the caller reports back.
#[derive(Debug)]
pub enum RegistryEvent {
    /// The channel to the node, if there is one.
    Channel(Option<i64>),
    /// The registry node's new connection id.
    Refreshed(i64),
    /// The channel was opened.
    Built,
    /// The reply to the call.
    Reply(CallResponse),
}

/// How many more events a lookup in this phase can take at most.
pub open spec fn registry_steps_left(p: RegistryPhase) -> nat {
    match p {
        RegistryPhase::FirstChannelQuery => 5,
        RegistryPhase::Refreshing => 4,
        RegistryPhase::Building => 3,
        RegistryPhase::SecondChannelQuery => 2,
        RegistryPhase::AwaitingReply => 1,
        RegistryPhase::Done => 0,
    }
}

/// A lookup of a domain's address in the registry contract.
pub struct RegistryLookup {
    pub phase: RegistryPhase,
    pub node_id: i64,
    pub domain_hash: Vec<u8>,
}

/// Whether `call` is the `getIp` call of `contract` for `domain_hash`.
pub open spec fn is_get_ip_call(call: CallData, contract: DnsContract, domain_hash: Seq<u8>) -> bool {
    &&& call.contract_addr@ == contract.address()
    &&& call.data@ == call_hex(get_ip_function(), seq![AbiArgView::FixedBytes(domain_hash)])
}

/// The text of a `getIp` call for a domain hash of one to 32 bytes is 72
/// hex digits: the eight of the selector, then the hash's bytes in their
/// order, padded with zeros to 32 bytes.
pub proof fn lemma_get_ip_call_carries_hash(data: Seq<char>, domain_hash: Seq<u8>)
    requires
        data == call_hex(get_ip_function(), seq![AbiArgView::FixedBytes(domain_hash)]),
        call_layout(get_ip_function(), seq![AbiArgView::FixedBytes(domain_hash)]),
        1 <= domain_hash.len() <= 32,
    ensures
        data.len() == 72,
        data.skip(8) == hex_text(domain_hash + zeros((32 - domain_hash.len()) as nat)),
{
    let args = seq![AbiArgView::FixedBytes(domain_hash)];
    assert(word_sized(args[0]));
    assert(all_word_sized(args));
    assert(words_of(args.drop_first()) =~= Seq::<u8>::empty());
    let word = domain_hash + zeros((32 - domain_hash.len()) as nat);
    assert(words_of(args) =~= word);
    let f = get_ip_function();
    let sel = abi_selector(f.name, f.inputs);
    lemma_hex_text_concat(sel, word);
    lemma_hex_text_ascii(sel);
    lemma_hex_text_ascii(word);
    assert(data.skip(8) =~= hex_text(word));
}

/// A `getIp` call that the lookup sends goes to the contract and carries
/// the domain hash the lookup was started with, byte for byte.
pub proof fn lemma_is_get_ip_call(call: CallData, contract: DnsContract, domain_hash: Seq<u8>)
    requires
        is_get_ip_call(call, contract, domain_hash),
    ensures
        call.contract_addr@ == contract.address(),
        call.data@ == call_hex(get_ip_function(), seq![AbiArgView::FixedBytes(domain_hash)]),
{
}

impl RegistryLookup {
    /// Whether the event is one the lookup waits for in its phase.
    pub open spec fn expects(&self, event: RegistryEvent) -> bool {
        match (self.phase, event) {
            (RegistryPhase::FirstChannelQuery, RegistryEvent::Channel(_)) => true,
            (RegistryPhase::Refreshing, RegistryEvent::Refreshed(_)) => true,
            (RegistryPhase::Building, RegistryEvent::Built) => true,
            (RegistryPhase::SecondChannelQuery, RegistryEvent::Channel(_)) => true,
            (RegistryPhase::AwaitingReply, RegistryEvent::Reply(resp)) => encode_utf8(
                resp.value@,
            ).len() >= 2 && string_offsets_in_range(),
            _ => false,
        }
    }

    /// Starts a lookup for the domain with the given hash: first the channel
    /// to the registry node `node_id` is asked for.
    pub fn start(node_id: i64, domain_hash: Vec<u8>) -> (r: (Self, RegistryAction))
        ensures
            r.0.phase == RegistryPhase::FirstChannelQuery,
            r.0.node_id == node_id,
            r.0.domain_hash@ == domain_hash@,
            r.1 matches RegistryAction::QueryChannel(n) && n == node_id,
    {
        (
            RegistryLookup { phase: RegistryPhase::FirstChannelQuery, node_id, domain_hash },
            RegistryAction::QueryChannel(node_id),
        )
    }

    fn get_ip_call(&self, contract: &DnsContract) -> (call: CallData)
        requires
            contract.wf(),
            self.domain_hash@.len() <= 32,
        ensures
            is_get_ip_call(call, *contract, self.domain_hash@),
            call.contract_addr@ == contract.address(),
            call.data@ == call_hex(get_ip_function(), seq![AbiArgView::FixedBytes(self.domain_hash@)]),
            call_layout(get_ip_function(), seq![AbiArgView::FixedBytes(self.domain_hash@)]),
    {
        let hash = copy_bytes(&self.domain_hash);
        match contract.get_ip_encode(hash) {
            Ok((addr, data)) => CallData { contract_addr: addr, data },
            Err(_) => {
                assert(false);
                CallData { contract_addr: String::new(), data: String::new() }
            },
        }
    }

    /// Takes the next step on an event: with a channel the call is sent;
    /// without one the node is resolved anew, a channel opened and asked
    /// for again, and if there is still none the lookup fails; the reply
    /// gives the address.
    pub fn step(&mut self, contract: &DnsContract, event: RegistryEvent) -> (action: RegistryAction)
        requires
            contract.wf(),
            old(self).domain_hash@.len() <= 32,
            old(self).expects(event),
        ensures
            final(self).domain_hash@ == old(self).domain_hash@,
            registry_steps_left(final(self).phase) < registry_steps_left(old(self).phase),
            final(self).phase == RegistryPhase::Done <==> action is Finish,
            !(event is Refreshed) ==> final(self).node_id == old(self).node_id,
            action matches RegistryAction::SendCall(_, call) ==> call.contract_addr@
                == contract.address() && call.data@ == call_hex(
                get_ip_function(),
                seq![AbiArgView::FixedBytes(old(self).domain_hash@)],
            ) && call_layout(get_ip_function(), seq![AbiArgView::FixedBytes(old(self).domain_hash@)]),
            match (old(self).phase, event) {
                (RegistryPhase::FirstChannelQuery, RegistryEvent::Channel(Some(c))) => {
                    &&& final(self).phase == RegistryPhase::AwaitingReply
                    &&& final(self).node_id == old(self).node_id
                    &&& action matches RegistryAction::SendCall(ch, call) && ch == c
                        && is_get_ip_call(call, *contract, old(self).domain_hash@)
                },
                (RegistryPhase::FirstChannelQuery, RegistryEvent::Channel(None)) => {
                    &&& final(self).phase == RegistryPhase::Refreshing
                    &&& final(self).node_id == old(self).node_id
                    &&& action is RefreshNode
                },
                (RegistryPhase::Refreshing, RegistryEvent::Refreshed(n)) => {
                    &&& final(self).phase == RegistryPhase::Building
                    &&& final(self).node_id == n
                    &&& action matches RegistryAction::BuildChannel(m) && m == n
                },
                (RegistryPhase::Building, RegistryEvent::Built) => {
                    &&& final(self).phase == RegistryPhase::SecondChannelQuery
                    &&& final(self).node_id == old(self).node_id
                    &&& action matches RegistryAction::QueryChannel(m) && m == old(self).node_id
                },
                (RegistryPhase::SecondChannelQuery, RegistryEvent::Channel(Some(c))) => {
                    &&& final(self).phase == RegistryPhase::AwaitingReply
                    &&& final(self).node_id == old(self).node_id
                    &&& action matches RegistryAction::SendCall(ch, call) && ch == c
                        && is_get_ip_call(call, *contract, old(self).domain_hash@)
                },
                (RegistryPhase::SecondChannelQuery, RegistryEvent::Channel(None)) => {
                    &&& final(self).phase == RegistryPhase::Done
                    &&& action matches RegistryAction::Finish(Err(ResolveError::ChannelUnavailable))
                },
                (RegistryPhase::AwaitingReply, RegistryEvent::Reply(resp)) => {
                    &&& final(self).phase == RegistryPhase::Done
                    &&& match result_text(get_ip_function(), resp.value@) {
                        Some(t) => action matches RegistryAction::Finish(Ok(ip)) && ip@ == t,
                        None => action matches RegistryAction::Finish(
                            Err(ResolveError::InvalidReply(ContractError::InvalidResult)),
                        ),
                    }
                },
                _ => false,
            },
    {
        match event {
            RegistryEvent::Channel(Some(c)) => {
                self.phase = RegistryPhase::AwaitingReply;
                RegistryAction::SendCall(c, self.get_ip_call(contract))
            },
            RegistryEvent::Channel(None) => {
                if self.phase == RegistryPhase::FirstChannelQuery {
                    self.phase = RegistryPhase::Refreshing;
                    RegistryAction::RefreshNode
                } else {
                    self.phase = RegistryPhase::Done;
                    RegistryAction::Finish(Err(ResolveError::ChannelUnavailable))
                }
            },
            RegistryEvent::Refreshed(n) => {
                self.node_id = n;
                self.phase = RegistryPhase::Building;
                RegistryAction::BuildChannel(n)
            },
            RegistryEvent::Built => {
                self.phase = RegistryPhase::SecondChannelQuery;
                RegistryAction::QueryChannel(self.node_id)
            },
            RegistryEvent::Reply(resp) => {
                self.phase = RegistryPhase::Done;
                match contract.get_ip_decode(resp.value) {
                    Ok(ip) => RegistryAction::Finish(Ok(ip)),
                    Err(e) => RegistryAction::Finish(Err(ResolveError::InvalidReply(e))),
                }
            },
        }
    }
}

fn copy_bytes(b: &Vec<u8>) -> (r: Vec<u8>)
    ensures
        r@ == b@,
{
    let mut r: Vec<u8> = Vec::new();
    let mut i: usize = 0;
    while i < b.len()
        invariant
            i <= b@.len(),
            r@ == b@.subrange(0, i as int),
        decreases b@.len() - i,
    {
        r.push(b[i]);
        i = i + 1;
        assert(r@ =~= b@.subrange(0, i as int));
    }
    assert(r@ =~= b@);
    r
}

} // verus!
