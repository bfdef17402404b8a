use dns_resolver::dns_contract::{ContractError, DnsContract};
use dns_resolver::resolver::{
    finish_resolve, first_address, parse_dns_url, resolve_all, resolve_only_http, Lookup,
    RegistryAction, RegistryEvent, RegistryLookup, RegistryPhase, ResolveError, UrlParts,
    DEFAULT_PORT,
};
use dns_resolver::source_api::CallResponse;
use ethabi::Token;

fn parts(url: &str) -> UrlParts {
    parse_dns_url(url).unwrap()
}

#[test]
fn url_parts_are_read() {
    let p = parts("http://example.com:8080/path?q=1");
    assert_eq!(p.scheme, "http");
    assert_eq!(p.host.as_deref(), Some("example.com"));
    assert_eq!(p.port, Some(8080));
}

#[test]
fn default_port_of_scheme_is_not_reported() {
    let p = parts("https://Example.COM:443/");
    assert_eq!(p.scheme, "https");
    assert_eq!(p.host.as_deref(), Some("example.com"));
    assert_eq!(p.port, None);
}

#[test]
fn registry_url_parts() {
    let p = parts("dxm://service.chain:9000");
    assert_eq!(p.scheme, "dxm");
    assert_eq!(p.host.as_deref(), Some("service.chain"));
    assert_eq!(p.port, Some(9000));
}

#[test]
fn invalid_url_is_refused() {
    match parse_dns_url("not a url") {
        Err(ResolveError::InvalidUrl(msg)) => assert_eq!(msg, "relative URL without a base"),
        other => panic!("unexpected {:?}", other),
    }
    assert!(matches!(parse_dns_url("http://"), Err(ResolveError::InvalidUrl(_))));
}

#[test]
fn ip_host_is_taken_as_it_is() {
    let p = parts("http://10.0.0.1");
    let plan = resolve_only_http(&p, true).unwrap();
    assert_eq!(plan.lookup, Lookup::Literal("10.0.0.1".to_string()));
    assert_eq!(plan.port, DEFAULT_PORT);
    assert_eq!(plan.port, 8090);
    let plan = resolve_all(&parts("dxm://10.0.0.1:77"), true);
    assert_eq!(plan.lookup, Lookup::Literal("10.0.0.1".to_string()));
    assert_eq!(plan.port, 77);
}

#[test]
fn name_host_is_looked_up_by_http_resolver() {
    let plan = resolve_only_http(&parts("https://a.example:99"), false).unwrap();
    assert_eq!(plan.lookup, Lookup::Http("a.example".to_string()));
    assert_eq!(plan.port, 99);
}

#[test]
fn http_resolver_refuses_other_schemes() {
    let r = resolve_only_http(&parts("dxm://a.example"), false);
    assert!(matches!(r, Err(ResolveError::UnsupportedScheme)));
    let r = resolve_only_http(&parts("ftp://a.example"), false);
    assert!(matches!(r, Err(ResolveError::UnsupportedScheme)));
}

#[test]
fn full_resolver_sends_registry_urls_to_the_registry() {
    let plan = resolve_all(&parts("dxm://node.chain"), false);
    assert_eq!(plan.lookup, Lookup::Registry("node.chain".to_string()));
    assert_eq!(plan.port, 8090);
    let plan = resolve_all(&parts("ftp://node.chain:21"), false);
    assert_eq!(plan.lookup, Lookup::Http("node.chain".to_string()));
    let plan = resolve_all(&parts("http://node.chain:21"), false);
    assert_eq!(plan.lookup, Lookup::Http("node.chain".to_string()));
    assert_eq!(plan.port, 21);
}

#[test]
fn empty_address_is_an_error() {
    assert!(matches!(finish_resolve(String::new(), 80), Err(ResolveError::NoAddress)));
    let e = finish_resolve("1.2.3.4".to_string(), 80).unwrap();
    assert_eq!(e.ip, "1.2.3.4");
    assert_eq!(e.port, 80);
}

#[test]
fn first_address_of_lookup() {
    assert_eq!(first_address(vec!["1.1.1.1".to_string(), "2.2.2.2".to_string()]), "1.1.1.1");
    assert_eq!(first_address(vec![]), "");
}

fn contract() -> DnsContract {
    let mut c = DnsContract::new();
    c.set_address("0xreg".to_string());
    c
}

fn reply(ip: &str) -> CallResponse {
    CallResponse { value: format!("0x{}", hex::encode(ethabi::encode(&[Token::String(ip.to_string())]))) }
}

#[test]
fn registry_lookup_with_open_channel() {
    let c = contract();
    let hash = vec![0x5a; 32];
    let (mut lookup, action) = RegistryLookup::start(42, hash.clone());
    assert!(matches!(action, RegistryAction::QueryChannel(42)));
    assert_eq!(lookup.phase, RegistryPhase::FirstChannelQuery);

    match lookup.step(&c, RegistryEvent::Channel(Some(3))) {
        RegistryAction::SendCall(channel, call) => {
            assert_eq!(channel, 3);
            let (addr, data) = c.get_ip_encode(hash).unwrap();
            assert_eq!(call.contract_addr, addr);
            assert_eq!(call.data, data);
            assert_eq!(call.contract_addr, "0xreg");
        }
        other => panic!("unexpected {:?}", other),
    }
    assert_eq!(lookup.phase, RegistryPhase::AwaitingReply);

    match lookup.step(&c, RegistryEvent::Reply(reply("172.16.0.4"))) {
        RegistryAction::Finish(Ok(ip)) => assert_eq!(ip, "172.16.0.4"),
        other => panic!("unexpected {:?}", other),
    }
    assert_eq!(lookup.phase, RegistryPhase::Done);
}

#[test]
fn registry_lookup_refreshes_the_node_without_channel() {
    let c = contract();
    let (mut lookup, _) = RegistryLookup::start(42, vec![1; 32]);
    assert!(matches!(lookup.step(&c, RegistryEvent::Channel(None)), RegistryAction::RefreshNode));
    assert_eq!(lookup.phase, RegistryPhase::Refreshing);
    assert!(matches!(lookup.step(&c, RegistryEvent::Refreshed(77)), RegistryAction::BuildChannel(77)));
    assert_eq!(lookup.node_id, 77);
    assert!(matches!(lookup.step(&c, RegistryEvent::Built), RegistryAction::QueryChannel(77)));
    assert!(matches!(lookup.step(&c, RegistryEvent::Channel(Some(8))), RegistryAction::SendCall(8, _)));
    assert!(matches!(lookup.step(&c, RegistryEvent::Reply(reply("9.9.9.9"))), RegistryAction::Finish(Ok(_))));
}

#[test]
fn registry_lookup_fails_when_no_channel_opens() {
    let c = contract();
    let (mut lookup, _) = RegistryLookup::start(1, vec![1; 32]);
    lookup.step(&c, RegistryEvent::Channel(None));
    lookup.step(&c, RegistryEvent::Refreshed(2));
    lookup.step(&c, RegistryEvent::Built);
    let action = lookup.step(&c, RegistryEvent::Channel(None));
    assert!(matches!(action, RegistryAction::Finish(Err(ResolveError::ChannelUnavailable))));
    assert_eq!(lookup.phase, RegistryPhase::Done);
}

#[test]
fn registry_lookup_with_unreadable_reply() {
    let c = contract();
    let (mut lookup, _) = RegistryLookup::start(1, vec![1; 32]);
    lookup.step(&c, RegistryEvent::Channel(Some(1)));
    let action = lookup.step(&c, RegistryEvent::Reply(CallResponse { value: "0xnothex".to_string() }));
    assert!(matches!(
        action,
        RegistryAction::Finish(Err(ResolveError::InvalidReply(ContractError::InvalidResult)))
    ));
}

#[test]
fn registry_lookup_of_empty_address_gives_empty_text() {
    let c = contract();
    let (mut lookup, _) = RegistryLookup::start(1, vec![1; 32]);
    lookup.step(&c, RegistryEvent::Channel(Some(1)));
    match lookup.step(&c, RegistryEvent::Reply(reply(""))) {
        RegistryAction::Finish(Ok(ip)) => {
            assert_eq!(ip, "");
            assert!(matches!(finish_resolve(ip, 1), Err(ResolveError::NoAddress)));
        }
        other => panic!("unexpected {:?}", other),
    }
}
