use dns_resolver::cache::ConnCache;
use dns_resolver::dispatch::{route, Route};
use dns_resolver::service::{
    DnsResolverService, InitSettings, ResolveAction, ResolveEvent, ResolveMode, ResolvePhase,
    ResolveTask, ServiceError,
};
use dns_resolver::source_api::{ResolveInfo, ResolveRequest};

fn request(url: &str, build_channel: bool) -> ResolveRequest {
    ResolveRequest { url: url.to_string(), build_channel }
}

fn reply_of(action: ResolveAction) -> ResolveInfo {
    match action {
        ResolveAction::Reply(info) => info,
        other => panic!("expected a reply, got {:?}", other),
    }
}

/// Resolves `url` to `conn_id` from the start, with the channel events given.
fn resolve_to(
    service: &mut DnsResolverService,
    url: &str,
    build_channel: bool,
    conn_id: i64,
) -> (ResolveTask, ResolveAction) {
    let (task, action) = service.resolve(request(url, build_channel));
    assert!(matches!(action, ResolveAction::Resolve(_, _)));
    service.resolve_step(task, ResolveEvent::Resolved(conn_id))
}

#[test]
fn new_service_has_no_registry() {
    let s = DnsResolverService::new();
    assert_eq!(s.get_dns_node_id(), 0);
    assert_eq!(s.get_dns_url(), "");
    assert_eq!(s.dns_contract().contract_addr, "");
    s.on_finalize();
}

#[test]
fn init_without_registry_url_does_nothing() {
    let s = DnsResolverService::new();
    assert!(matches!(s.on_init(None, None), Ok(None)));
    assert!(matches!(s.on_init(None, Some("0xabc".to_string())), Ok(None)));
}

#[test]
fn init_needs_the_contract_address() {
    let s = DnsResolverService::new();
    let r = s.on_init(Some("http://1.2.3.4:8090".to_string()), None);
    assert!(matches!(r, Err(ServiceError::MissingDnsAddr)));
}

#[test]
fn init_takes_registry_settings() {
    let mut s = DnsResolverService::new();
    let settings = s
        .on_init(Some("http://1.2.3.4:8090".to_string()), Some("0xabc".to_string()))
        .unwrap()
        .unwrap();
    assert_eq!(settings.dns_url, "http://1.2.3.4:8090");
    assert_eq!(settings.dns_addr, "0xabc");
    s.finish_init(settings, 555);
    assert_eq!(s.get_dns_node_id(), 555);
    assert_eq!(s.get_dns_url(), "http://1.2.3.4:8090");
    assert_eq!(s.dns_contract().contract_addr, "0xabc");
}

#[test]
fn refresh_replaces_node_id() {
    let mut s = DnsResolverService::new();
    s.finish_init(InitSettings { dns_url: "http://a".to_string(), dns_addr: "0x1".to_string() }, 1);
    assert_eq!(s.refresh_dns_node_id(2), 2);
    assert_eq!(s.get_dns_node_id(), 2);
    assert_eq!(s.get_dns_url(), "http://a");
}

#[test]
fn requests_use_http_resolver_until_registry_is_known() {
    let mut s = DnsResolverService::new();
    let (task, action) = s.resolve(request("dxm://x.chain", false));
    assert_eq!(task.phase, ResolvePhase::Resolving);
    match action {
        ResolveAction::Resolve(mode, url) => {
            assert_eq!(mode, ResolveMode::HttpOnly);
            assert_eq!(url, "dxm://x.chain");
        }
        other => panic!("unexpected {:?}", other),
    }
    s.finish_init(InitSettings { dns_url: "http://r".to_string(), dns_addr: "0x1".to_string() }, 9);
    let (_, action) = s.resolve(request("dxm://x.chain", false));
    assert!(matches!(action, ResolveAction::Resolve(ResolveMode::All, _)));
}

#[test]
fn resolved_request_without_channel_is_answered() {
    let mut s = DnsResolverService::new();
    let (task, action) = resolve_to(&mut s, "http://h", false, 42);
    assert_eq!(task.phase, ResolvePhase::Done);
    let info = reply_of(action);
    assert_eq!((info.conn_id, info.channel_id), (42, 0));
}

#[test]
fn second_request_is_answered_from_cache() {
    let mut s = DnsResolverService::new();
    resolve_to(&mut s, "http://h", false, 42);
    let (task, action) = s.resolve(request("http://h", false));
    assert_eq!(task.phase, ResolvePhase::Done);
    let info = reply_of(action);
    assert_eq!((info.conn_id, info.channel_id), (42, 0));
    // Another URL is not affected.
    let (_, action) = s.resolve(request("http://other", false));
    assert!(matches!(action, ResolveAction::Resolve(_, _)));
}

#[test]
fn cached_request_wanting_a_channel_asks_for_it() {
    let mut s = DnsResolverService::new();
    resolve_to(&mut s, "http://h", false, 42);
    let (task, action) = s.resolve(request("http://h", true));
    assert_eq!(task.phase, ResolvePhase::FirstChannel);
    assert!(matches!(action, ResolveAction::QueryChannel(42)));
}

#[test]
fn unresolved_request_gets_empty_answer_and_is_not_cached() {
    let mut s = DnsResolverService::new();
    let (task, action) = resolve_to(&mut s, "http://none", true, 0);
    assert_eq!(task.phase, ResolvePhase::Done);
    let info = reply_of(action);
    assert_eq!((info.conn_id, info.channel_id), (0, 0));
    let (_, action) = s.resolve(request("http://none", true));
    assert!(matches!(action, ResolveAction::Resolve(_, _)));
}

#[test]
fn request_with_existing_channel() {
    let mut s = DnsResolverService::new();
    let (task, action) = resolve_to(&mut s, "http://h", true, 42);
    assert!(matches!(action, ResolveAction::QueryChannel(42)));
    let (task, action) = s.resolve_step(task, ResolveEvent::Channel(Some(7)));
    assert_eq!(task.phase, ResolvePhase::Done);
    let info = reply_of(action);
    assert_eq!((info.conn_id, info.channel_id), (42, 7));
}

#[test]
fn request_opens_a_channel_when_there_is_none() {
    let mut s = DnsResolverService::new();
    let (task, _) = resolve_to(&mut s, "http://h", true, 42);
    let (task, action) = s.resolve_step(task, ResolveEvent::Channel(None));
    assert_eq!(task.phase, ResolvePhase::Building);
    assert!(matches!(action, ResolveAction::BuildChannel(42)));
    let (task, action) = s.resolve_step(task, ResolveEvent::Built);
    assert_eq!(task.phase, ResolvePhase::SecondChannel);
    assert!(matches!(action, ResolveAction::QueryChannel(42)));
    let (_, action) = s.resolve_step(task, ResolveEvent::Channel(Some(11)));
    let info = reply_of(action);
    assert_eq!((info.conn_id, info.channel_id), (42, 11));
}

#[test]
fn request_answered_without_channel_when_none_opens() {
    let mut s = DnsResolverService::new();
    let (task, _) = resolve_to(&mut s, "http://h", true, 42);
    let (task, _) = s.resolve_step(task, ResolveEvent::Channel(None));
    let (task, _) = s.resolve_step(task, ResolveEvent::Built);
    let (task, action) = s.resolve_step(task, ResolveEvent::Channel(None));
    assert_eq!(task.phase, ResolvePhase::Done);
    let info = reply_of(action);
    assert_eq!((info.conn_id, info.channel_id), (42, 0));
}

#[test]
fn resolving_again_replaces_the_cached_connection() {
    let mut s = DnsResolverService::new();
    let (task, _) = s.resolve(request("http://h", false));
    let (task2, _) = s.resolve(request("http://h", false));
    s.resolve_step(task, ResolveEvent::Resolved(1));
    s.resolve_step(task2, ResolveEvent::Resolved(2));
    let (_, action) = s.resolve(request("http://h", false));
    assert_eq!(reply_of(action).conn_id, 2);
}

#[test]
fn routes_of_messages() {
    assert_eq!(route(None), Route::MissingReceiver);
    assert_eq!(route(Some("Resolve".to_string())), Route::Resolve);
    assert_eq!(route(Some("resolve".to_string())), Route::UnknownApi("resolve".to_string()));
    assert_eq!(route(Some(String::new())), Route::UnknownApi(String::new()));
}

#[test]
fn connection_cache_keeps_the_latest_id() {
    let mut c = ConnCache::new();
    assert_eq!(c.get(&"a".to_string()), None);
    c.insert("a".to_string(), 1);
    c.insert("b".to_string(), 2);
    assert_eq!(c.get(&"a".to_string()), Some(1));
    c.insert("a".to_string(), 3);
    assert_eq!(c.get(&"a".to_string()), Some(3));
    assert_eq!(c.get(&"b".to_string()), Some(2));
    assert_eq!(c.get(&"c".to_string()), None);
}

#[test]
fn cached_answer_survives_registry_changes() {
    let mut s = DnsResolverService::new();
    resolve_to(&mut s, "dxm://svc.chain", false, 42);
    s.finish_init(InitSettings { dns_url: "http://r".to_string(), dns_addr: "0x1".to_string() }, 9);
    s.refresh_dns_node_id(10);
    resolve_to(&mut s, "http://other", false, 7);
    let (task, action) = s.resolve(request("dxm://svc.chain", false));
    assert_eq!(task.phase, ResolvePhase::Done);
    let info = reply_of(action);
    assert_eq!((info.conn_id, info.channel_id), (42, 0));
}
