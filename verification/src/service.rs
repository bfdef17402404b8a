//! The resolver service: its settings, the registry node it resolves
//! through, and the resolving of requests with a cache of resolved URLs.
//! The decisions stand here; the caller performs the actions each step
//! asks for and reports back what came of them.

use vstd::prelude::*;
use crate::cache::ConnCache;
use crate::dns_contract::DnsContract;
use crate::source_api::{ResolveInfo, ResolveInfoView, ResolveRequest};

verus! {

/// Why the service could not start.
#[derive(Debug, Clone, Copy, PartialEq, Eq, Structural)]
pub enum ServiceError {
    /// A registry URL is configured without the registry contract's address.
    MissingDnsAddr,
}

/// The registry settings read at start.
#[derive(Debug, Clone)]
pub struct InitSettings {
    pub dns_url: String,
    pub dns_addr: String,
}

/// Which resolver a request goes through.
#[derive(Debug, Clone, Copy, PartialEq, Eq, Structural)]
pub enum ResolveMode {
    /// Without the registry: IP hosts and name-system lookups only.
    HttpOnly,
    /// With the registry for `dxm` URLs.
    All,
}

/// Where a request stands.
#[derive(Debug, Clone, Copy, PartialEq, Eq, Structural)]
pub enum ResolvePhase {
    /// The URL is being resolved.
    Resolving,
    /// The channel to the node was asked for.
    FirstChannel,
    /// A channel to the node is being opened.
    Building,
    /// The channel to the node was asked for again.
    SecondChannel,
    /// The answer is given.
    Done,
}

/// How many more events a request in this phase can take at most.
pub open spec fn request_steps_left(p: ResolvePhase) -> nat {
    match p {
        ResolvePhase::Resolving => 4,
        ResolvePhase::FirstChannel => 3,
        ResolvePhase::Building => 2,
        ResolvePhase::SecondChannel => 1,
        ResolvePhase::Done => 0,
    }
}

/// What the caller is to do next for a request.
#[derive(Debug)]
pub enum ResolveAction {
    /// Resolve the URL with the given resolver and report the connection id.
    Resolve(ResolveMode, String),
    /// Find the channel to the node with this connection id.
    QueryChannel(i64),
    /// Open a channel to the node with this connection id.
    BuildChannel(i64),
    /// Answer the request.
    Reply(ResolveInfo),
}

/// What the caller reports back for a request.
#[derive(Debug)]
pub enum ResolveEvent {
    /// The connection id the URL resolved to (zero: none).
    Resolved(i64),
    /// The channel to the node, if there is one.
    Channel(Option<i64>),
    /// The channel was opened.
    Built,
}

/// A request being resolved.
pub struct ResolveTask {
    pub phase: ResolvePhase,
    pub url: String,
    pub build_channel: bool,
    pub resp: ResolveInfo,
}

/// The resolver a request goes through: without the registry until a
/// registry node is known.
pub open spec fn mode_for(node_id: i64) -> ResolveMode {
    if node_id == 0 {
        ResolveMode::HttpOnly
    } else {
        ResolveMode::All
    }
}

/// The connection id cached for a URL, zero where there is none.
pub open spec fn cached_conn(cache: Map<Seq<char>, i64>, url: Seq<char>) -> i64 {
    if cache.contains_key(url) {
        cache[url]
    } else {
        0
    }
}

/// Whether the cache and the task are as they should be once the URL of a
/// request is known to resolve to `conn_id`: a zero id answers the request
/// with nothing; any other id is cached for the URL and either answered at
/// once or, when a channel is wanted, the channel asked for.
pub open spec fn settled(
    old_cache: Map<Seq<char>, i64>,
    new_cache: Map<Seq<char>, i64>,
    task: ResolveTask,
    action: ResolveAction,
    url: Seq<char>,
    build_channel: bool,
    conn_id: i64,
) -> bool {
    &&& task.url@ == url
    &&& task.build_channel == build_channel
    &&& if conn_id == 0 {
        &&& new_cache == old_cache
        &&& task.phase == ResolvePhase::Done
        &&& task.resp@ == ResolveInfoView::empty()
        &&& action matches ResolveAction::Reply(info) && info@ == ResolveInfoView::empty()
    } else {
        &&& new_cache == old_cache.insert(url, conn_id)
        &&& task.resp@ == (ResolveInfoView { conn_id, channel_id: 0 })
        &&& if build_channel {
            &&& task.phase == ResolvePhase::FirstChannel
            &&& action matches ResolveAction::QueryChannel(c) && c == conn_id
        } else {
            &&& task.phase == ResolvePhase::Done
            &&& action matches ResolveAction::Reply(info) && info@ == task.resp@
        }
    }
}

/// Once a request's URL has resolved to a connection, that connection is
/// what the cache holds for the URL, so the next request for it is answered
/// from the cache; what the cache holds for every other URL is unchanged.
pub proof fn lemma_resolved_url_is_cached(
    old_cache: Map<Seq<char>, i64>,
    new_cache: Map<Seq<char>, i64>,
    task: ResolveTask,
    action: ResolveAction,
    url: Seq<char>,
    build_channel: bool,
    conn_id: i64,
)
    requires
        settled(old_cache, new_cache, task, action, url, build_channel, conn_id),
    ensures
        conn_id != 0 ==> cached_conn(new_cache, url) == conn_id,
        conn_id == 0 ==> cached_conn(new_cache, url) == cached_conn(old_cache, url),
        forall|other: Seq<char>|
            other != url ==> #[trigger] cached_conn(new_cache, other) == cached_conn(
                old_cache,
                other,
            ),
{
}

/// Whether the cache and the first step of a request for `url` are as they
/// should be: a URL with a cached connection is settled with it at once;
/// any other is to be resolved, through the resolver that `node_id` calls for.
pub open spec fn started(
    old_cache: Map<Seq<char>, i64>,
    new_cache: Map<Seq<char>, i64>,
    node_id: i64,
    url: Seq<char>,
    build_channel: bool,
    task: ResolveTask,
    action: ResolveAction,
) -> bool {
    let c = cached_conn(old_cache, url);
    if c == 0 {
        &&& new_cache == old_cache
        &&& task.phase == ResolvePhase::Resolving
        &&& task.url@ == url
        &&& task.build_channel == build_channel
        &&& task.resp@ == ResolveInfoView::empty()
        &&& action matches ResolveAction::Resolve(m, u) && m == mode_for(node_id) && u@ == url
    } else {
        settled(old_cache, new_cache, task, action, url, build_channel, c)
    }
}

/// A request whose URL has no cached connection is resolved, and the
/// resolver is decided by the registry node id alone: without the registry
/// exactly when no registry node is known, whether or not a channel is
/// wanted; the cache is left as it was.
pub proof fn lemma_uncached_request_is_resolved(
    old_cache: Map<Seq<char>, i64>,
    new_cache: Map<Seq<char>, i64>,
    node_id: i64,
    url: Seq<char>,
    build_channel: bool,
    task: ResolveTask,
    action: ResolveAction,
)
    requires
        started(old_cache, new_cache, node_id, url, build_channel, task, action),
        !old_cache.contains_key(url),
    ensures
        new_cache == old_cache,
        action matches ResolveAction::Resolve(m, u) && u@ == url && (m == ResolveMode::HttpOnly
            <==> node_id == 0) && (m == ResolveMode::All <==> node_id != 0),
{
}

/// A request for a URL that an earlier request resolved to a connection is
/// answered from the cache: the URL is not resolved again, and the answer
/// (or the channel asked for) is that connection, whatever the registry
/// node is by then. This holds as long as the cache still holds what the
/// earlier request left for the URL, as it does after taking on settings,
/// refreshing the registry node, and serving requests for other URLs or
/// for this one from the cache; only a request for the same URL that was
/// already being resolved can replace it.
pub proof fn lemma_second_request_answered_from_cache(
    first_old: Map<Seq<char>, i64>,
    first_new: Map<Seq<char>, i64>,
    first_task: ResolveTask,
    first_action: ResolveAction,
    url: Seq<char>,
    first_build_channel: bool,
    conn_id: i64,
    later_old: Map<Seq<char>, i64>,
    later_new: Map<Seq<char>, i64>,
    node_id: i64,
    later_build_channel: bool,
    later_task: ResolveTask,
    later_action: ResolveAction,
)
    requires
        settled(first_old, first_new, first_task, first_action, url, first_build_channel, conn_id),
        conn_id != 0,
        cached_conn(later_old, url) == cached_conn(first_new, url),
        started(later_old, later_new, node_id, url, later_build_channel, later_task, later_action),
    ensures
        !(later_action is Resolve),
        later_task.resp.conn_id == conn_id,
        cached_conn(later_new, url) == conn_id,
        later_build_channel ==> (later_action matches ResolveAction::QueryChannel(c) && c
            == conn_id),
        !later_build_channel ==> (later_action matches ResolveAction::Reply(info) && info.conn_id
            == conn_id && info.channel_id == 0),
{
    assert(cached_conn(first_new, url) == conn_id);
}

/// The resolver service.
pub struct DnsResolverService {
    dns_url: String,
    dns_node_id: i64,
    dns_contract: DnsContract,
    domain_parse_cache_map: ConnCache,
}

impl DnsResolverService {
    /// The contract's functions are those of its ABI, and no URL is cached
    /// with a zero connection id.
    pub closed spec fn wf(&self) -> bool {
        &&& self.dns_contract.wf()
        &&& forall|k: Seq<char>| #[trigger]
            self.domain_parse_cache_map.view().contains_key(k)
                ==> self.domain_parse_cache_map.view()[k] != 0
    }

    /// The registry node's URL.
    pub closed spec fn url(&self) -> Seq<char> {
        self.dns_url@
    }

    /// The registry node's connection id (zero: none yet).
    pub closed spec fn node_id(&self) -> i64 {
        self.dns_node_id
    }

    /// The cache of resolved URLs.
    pub closed spec fn cache(&self) -> Map<Seq<char>, i64> {
        self.domain_parse_cache_map.view()
    }

    /// The registry contract.
    pub closed spec fn contract(&self) -> DnsContract {
        self.dns_contract
    }

    /// A service with no registry settings and an empty cache.
    pub fn new() -> (s: Self)
        ensures
            s.wf(),
            s.url() == Seq::<char>::empty(),
            s.node_id() == 0,
            s.cache() == Map::<Seq<char>, i64>::empty(),
            s.contract().address() == Seq::<char>::empty(),
    {
        DnsResolverService {
            dns_url: String::new(),
            dns_contract: DnsContract::new(),
            dns_node_id: 0,
            domain_parse_cache_map: ConnCache::new(),
        }
    }

    /// The registry settings to start with: none when no registry URL is
    /// configured; an error when its contract's address is missing.
    pub fn on_init(&self, dns_url: Option<String>, dns_addr: Option<String>) -> (r: Result<
        Option<InitSettings>,
        ServiceError,
    >)
        ensures
            dns_url is None ==> r == Ok::<Option<InitSettings>, ServiceError>(None),
            dns_url is Some && dns_addr is None ==> r == Err::<Option<InitSettings>, ServiceError>(
                ServiceError::MissingDnsAddr,
            ),
            dns_url is Some && dns_addr is Some ==> (r matches Ok(Some(st)) && st.dns_url@
                == dns_url.unwrap()@ && st.dns_addr@ == dns_addr.unwrap()@),
    {
        match dns_url {
            None => Ok(None),
            Some(url) => match dns_addr {
                None => Err(ServiceError::MissingDnsAddr),
                Some(addr) => Ok(Some(InitSettings { dns_url: url, dns_addr: addr })),
            },
        }
    }

    /// Takes on the registry settings once the registry URL resolved to `conn_id`.
    pub fn finish_init(&mut self, settings: InitSettings, conn_id: i64)
        requires
            old(self).wf(),
        ensures
            final(self).wf(),
            final(self).contract().address() == settings.dns_addr@,
            final(self).node_id() == conn_id,
            final(self).url() == settings.dns_url@,
            final(self).cache() == old(self).cache(),
    {
        self.dns_contract.set_address(settings.dns_addr);
        self.dns_node_id = conn_id;
        self.dns_url = settings.dns_url;
    }

    /// Nothing is held that needs releasing.
    pub fn on_finalize(&self) {
    }

    /// Takes on the registry node's new connection id.
    pub fn refresh_dns_node_id(&mut self, conn_id: i64) -> (r: i64)
        requires
            old(self).wf(),
        ensures
            final(self).wf(),
            r == conn_id,
            final(self).node_id() == conn_id,
            final(self).url() == old(self).url(),
            final(self).cache() == old(self).cache(),
            final(self).contract() == old(self).contract(),
    {
        self.dns_node_id = conn_id;
        conn_id
    }

    /// The registry node's connection id.
    pub fn get_dns_node_id(&self) -> (r: i64)
        ensures
            r == self.node_id(),
    {
        self.dns_node_id
    }

    /// The registry node's URL.
    pub fn get_dns_url(&self) -> (r: &String)
        ensures
            r@ == self.url(),
    {
        &self.dns_url
    }

    /// The registry contract.
    pub fn dns_contract(&self) -> (r: &DnsContract)
        requires
            self.wf(),
        ensures
            *r == self.contract(),
            r.wf(),
    {
        &self.dns_contract
    }

    /// Settles a request whose URL resolved to `conn_id`.
    fn settle(&mut self, url: String, build_channel: bool, conn_id: i64) -> (r: (
        ResolveTask,
        ResolveAction,
    ))
        requires
            old(self).wf(),
        ensures
            final(self).wf(),
            final(self).url() == old(self).url(),
            final(self).node_id() == old(self).node_id(),
            final(self).contract() == old(self).contract(),
            settled(old(self).cache(), final(self).cache(), r.0, r.1, url@, build_channel, conn_id),
    {
        if conn_id == 0 {
            let task = ResolveTask {
                phase: ResolvePhase::Done,
                url,
                build_channel,
                resp: ResolveInfo::default(),
            };
            return (task, ResolveAction::Reply(ResolveInfo::default()));
        }
        self.domain_parse_cache_map.insert(url.clone(), conn_id);
        let resp = ResolveInfo { conn_id, channel_id: 0 };
        if build_channel {
            (
                ResolveTask { phase: ResolvePhase::FirstChannel, url, build_channel, resp },
                ResolveAction::QueryChannel(conn_id),
            )
        } else {
            let answer = ResolveInfo { conn_id, channel_id: 0 };
            (
                ResolveTask { phase: ResolvePhase::Done, url, build_channel, resp },
                ResolveAction::Reply(answer),
            )
        }
    }

    /// Starts resolving a request: a URL found in the cache is settled at
    /// once with its cached connection id; any other is to be resolved, with
    /// the registry once a registry node is known.
    pub fn resolve(&mut self, param: ResolveRequest) -> (r: (ResolveTask, ResolveAction))
        requires
            old(self).wf(),
        ensures
            final(self).wf(),
            r.0.phase == ResolvePhase::Done <==> r.1 is Reply,
            final(self).url() == old(self).url(),
            final(self).node_id() == old(self).node_id(),
            final(self).contract() == old(self).contract(),
            started(
                old(self).cache(),
                final(self).cache(),
                old(self).node_id(),
                param.url@,
                param.build_channel,
                r.0,
                r.1,
            ),
            !old(self).cache().contains_key(param.url@) ==> (r.1 matches ResolveAction::Resolve(
                m,
                u,
            ) && u@ == param.url@ && (m == ResolveMode::HttpOnly <==> old(self).node_id() == 0)),
    {
        let cached = match self.domain_parse_cache_map.get(&param.url) {
            Some(c) => c,
            None => 0,
        };
        if cached == 0 {
            let mode = if self.dns_node_id == 0 {
                ResolveMode::HttpOnly
            } else {
                ResolveMode::All
            };
            let url = param.url.clone();
            let task = ResolveTask {
                phase: ResolvePhase::Resolving,
                url: param.url,
                build_channel: param.build_channel,
                resp: ResolveInfo::default(),
            };
            (task, ResolveAction::Resolve(mode, url))
        } else {
            proof {
                assert(old(self).cache()[param.url@] != 0);
            }
            self.settle(param.url, param.build_channel, cached)
        }
    }

    /// Whether the event is one the task waits for in its phase.
    pub open spec fn expects(task: ResolveTask, event: ResolveEvent) -> bool {
        match (task.phase, event) {
            (ResolvePhase::Resolving, ResolveEvent::Resolved(_)) => true,
            (ResolvePhase::FirstChannel, ResolveEvent::Channel(_)) => true,
            (ResolvePhase::Building, ResolveEvent::Built) => true,
            (ResolvePhase::SecondChannel, ResolveEvent::Channel(_)) => true,
            _ => false,
        }
    }

    /// Takes the next step of a request on an event: a resolved id settles
    /// it; a channel found answers with it; none found the first time opens
    /// one and asks again; none found the second time answers without one.
    pub fn resolve_step(&mut self, task: ResolveTask, event: ResolveEvent) -> (r: (
        ResolveTask,
        ResolveAction,
    ))
        requires
            old(self).wf(),
            Self::expects(task, event),
        ensures
            final(self).wf(),
            request_steps_left(r.0.phase) < request_steps_left(task.phase),
            r.0.phase == ResolvePhase::Done <==> r.1 is Reply,
            r.0.url@ == task.url@,
            r.0.build_channel == task.build_channel,
            !(event is Resolved) ==> r.0.resp@ == task.resp@,
            final(self).url() == old(self).url(),
            final(self).node_id() == old(self).node_id(),
            final(self).contract() == old(self).contract(),
            match (task.phase, event) {
                (ResolvePhase::Resolving, ResolveEvent::Resolved(c)) => settled(
                    old(self).cache(),
                    final(self).cache(),
                    r.0,
                    r.1,
                    task.url@,
                    task.build_channel,
                    c,
                ),
                (ResolvePhase::Building, ResolveEvent::Built) => {
                    &&& final(self).cache() == old(self).cache()
                    &&& r.0.phase == ResolvePhase::SecondChannel
                    &&& r.0.resp@ == task.resp@
                    &&& r.1 matches ResolveAction::QueryChannel(c) && c == task.resp.conn_id
                },
                (ResolvePhase::FirstChannel, ResolveEvent::Channel(None)) => {
                    &&& final(self).cache() == old(self).cache()
                    &&& r.0.phase == ResolvePhase::Building
                    &&& r.0.resp@ == task.resp@
                    &&& r.1 matches ResolveAction::BuildChannel(c) && c == task.resp.conn_id
                },
                (_, ResolveEvent::Channel(Some(ch))) => {
                    &&& final(self).cache() == old(self).cache()
                    &&& r.0.phase == ResolvePhase::Done
                    &&& r.1 matches ResolveAction::Reply(info) && info@ == (ResolveInfoView {
                        conn_id: task.resp.conn_id,
                        channel_id: ch,
                    })
                },
                (_, ResolveEvent::Channel(None)) => {
                    &&& final(self).cache() == old(self).cache()
                    &&& r.0.phase == ResolvePhase::Done
                    &&& r.1 matches ResolveAction::Reply(info) && info@ == task.resp@
                },
                _ => false,
            },
    {
        let ResolveTask { phase, url, build_channel, resp } = task;
        match event {
            ResolveEvent::Resolved(c) => self.settle(url, build_channel, c),
            ResolveEvent::Built => {
                let conn = resp.conn_id;
                (
                    ResolveTask { phase: ResolvePhase::SecondChannel, url, build_channel, resp },
                    ResolveAction::QueryChannel(conn),
                )
            },
            ResolveEvent::Channel(Some(ch)) => {
                let answer = ResolveInfo { conn_id: resp.conn_id, channel_id: ch };
                (
                    ResolveTask { phase: ResolvePhase::Done, url, build_channel, resp },
                    ResolveAction::Reply(answer),
                )
            },
            ResolveEvent::Channel(None) => {
                if phase == ResolvePhase::FirstChannel {
                    let conn = resp.conn_id;
                    (
                        ResolveTask { phase: ResolvePhase::Building, url, build_channel, resp },
                        ResolveAction::BuildChannel(conn),
                    )
                } else {
                    let answer = ResolveInfo { conn_id: resp.conn_id, channel_id: resp.channel_id };
                    (
                        ResolveTask { phase: ResolvePhase::Done, url, build_channel, resp },
                        ResolveAction::Reply(answer),
                    )
                }
            },
        }
    }
}

} // verus!
