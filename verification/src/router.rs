//! The hostname router.
//!
//! An immutable route table, built once at startup from the configuration,
//! maps each fully-qualified hostname to the way it is served: a static
//! directory or the local reverse-proxy backend. Every request is
//! dispatched by exact hostname match; an unmapped hostname is served by
//! nothing and answered with a not-found status by the caller.

use crate::config::Config;
use crate::config::derive_hostname;
use crate::config::hostnames_unique;
use crate::config::join_path;
use crate::config::joined_path;
use crate::config::pair_hostname;
use crate::config::valid_pair;
use vstd::prelude::*;

verus! {

/// How a matched hostname is served: files under a directory, or a
/// forward to the local backend listening on the given port.
#[derive(Debug, PartialEq, Eq)]
pub enum Handler {
    StaticDir(String),
    ReverseProxy(u16),
}

/// The mathematical value of a `Handler`.
pub ghost enum HandlerSpec {
    Static { dir: Seq<char> },
    Proxy { port: u16 },
}

impl View for Handler {
    type V = HandlerSpec;

    open spec fn view(&self) -> HandlerSpec {
        match self {
            Handler::StaticDir(d) => HandlerSpec::Static { dir: d@ },
            Handler::ReverseProxy(p) => HandlerSpec::Proxy { port: *p },
        }
    }
}

/// One route: a fully-qualified hostname and its handler.
pub struct Route {
    pub hostname: String,
    pub handler: Handler,
}

/// The route table. Later insertions of an already-present hostname
/// replace the earlier route, as the table's map view records.
pub struct RouteTable {
    pub routes: Vec<Route>,
}

/// The map a sequence of route insertions builds up: each insertion
/// binds its hostname, replacing any earlier binding.
pub open spec fn map_of(routes: Seq<Route>) -> Map<Seq<char>, HandlerSpec>
    decreases routes.len(),
{
    if routes.len() == 0 {
        Map::empty()
    } else {
        map_of(routes.drop_last()).insert(routes.last().hostname@, routes.last().handler@)
    }
}

impl View for RouteTable {
    type V = Map<Seq<char>, HandlerSpec>;

    open spec fn view(&self) -> Map<Seq<char>, HandlerSpec> {
        map_of(self.routes@)
    }
}

/// Routes at or past position `i` that never mention `h` do not affect
/// what the built map says of `h`.
proof fn lemma_map_of_skip(routes: Seq<Route>, i: int, h: Seq<char>)
    requires
        0 <= i <= routes.len(),
        forall|j: int| i <= j < routes.len() ==> routes[j].hostname@ != h,
    ensures
        map_of(routes).contains_key(h) == map_of(routes.take(i)).contains_key(h),
        map_of(routes).contains_key(h) ==> map_of(routes)[h] == map_of(routes.take(i))[h],
    decreases routes.len() - i,
{
    if i < routes.len() {
        lemma_map_of_skip(routes, i + 1, h);
        assert(routes.take(i + 1).drop_last() =~= routes.take(i));
        assert(routes.take(i + 1).last() == routes[i]);
    } else {
        assert(routes.take(i) =~= routes);
    }
}

impl RouteTable {
    /// An empty route table.
    pub fn new() -> (t: RouteTable)
        ensures
            t@ == Map::<Seq<char>, HandlerSpec>::empty(),
    {
        RouteTable { routes: Vec::new() }
    }

    /// Bind `hostname` to `handler`, replacing any earlier binding.
    pub fn insert_route(&mut self, hostname: String, handler: Handler)
        ensures
            final(self)@ == old(self)@.insert(hostname@, handler@),
    {
        let ghost old_routes = self.routes@;
        let ghost h = hostname@;
        let ghost hv = handler@;
        self.routes.push(Route { hostname, handler });
        proof {
            assert(self.routes@.drop_last() =~= old_routes);
            assert(self.routes@.last().hostname@ == h);
            assert(self.routes@.last().handler@ == hv);
        }
    }

    /// Exact-match hostname dispatch: the handler the table binds the
    /// hostname to, or `None` when the hostname is unmapped, in which
    /// case no handler is invoked and the caller answers not-found.
    pub fn dispatch(&self, hostname: &String) -> (r: Option<&Handler>)
        ensures
            match r {
                Some(handler) => self@.contains_key(hostname@) && handler@ == self@[hostname@],
                None => !self@.contains_key(hostname@),
            },
    {
        let n: usize = self.routes.len();
        let mut i: usize = n;
        while i > 0
            invariant
                0 <= i <= n,
                n == self.routes.len(),
                forall|j: int| i <= j < n ==> self.routes@[j].hostname@ != hostname@,
            decreases i,
        {
            let idx: usize = i - 1;
            if self.routes[idx].hostname == *hostname {
                proof {
                    lemma_map_of_skip(self.routes@, i as int, hostname@);
                    assert(self.routes@.take(i as int).drop_last() =~= self.routes@.take(
                        idx as int,
                    ));
                    assert(self.routes@.take(i as int).last() == self.routes@[idx as int]);
                }
                return Some(&self.routes[idx].handler);
            }
            i = i - 1;
        }
        proof {
            lemma_map_of_skip(self.routes@, 0, hostname@);
            assert(self.routes@.take(0) =~= Seq::<Route>::empty());
        }
        None
    }

    /// All hostnames the table currently binds, in insertion order: the
    /// set of domains the certificate manager must secure.
    pub fn hostnames(&self) -> (r: Vec<String>)
        ensures
            r@.len() == self.routes@.len(),
            forall|i: int| 0 <= i < r@.len() ==> r@[i]@ == self.routes@[i].hostname@,
    {
        let mut r: Vec<String> = Vec::new();
        let mut i: usize = 0;
        while i < self.routes.len()
            invariant
                0 <= i <= self.routes@.len(),
                r@.len() == i,
                forall|j: int| 0 <= j < i ==> r@[j]@ == self.routes@[j].hostname@,
            decreases self.routes@.len() - i,
        {
            r.push(self.routes[i].hostname.clone());
            i = i + 1;
        }
        r
    }
}

/// Build the static-serving route table the configuration describes:
/// every configured `(rootDomain, label)` pair is bound, under its
/// derived hostname, to the static directory its serving path resolves
/// to under the filesystem root. The configuration must not derive the
/// same hostname twice; nothing else is bound.
pub fn build_routes(config: &Config) -> (t: RouteTable)
    requires
        hostnames_unique(*config),
    ensures
        forall|i: int, j: int|
            valid_pair(*config, i, j) ==> {
                &&& t@.contains_key(#[trigger] pair_hostname(*config, i, j))
                &&& t@[pair_hostname(*config, i, j)] == (HandlerSpec::Static {
                    dir: joined_path(config.root_dir@, config.domains[i].entries[j].path@),
                })
            },
        forall|h: Seq<char>|
            t@.contains_key(h) ==> exists|i: int, j: int|
                valid_pair(*config, i, j) && pair_hostname(*config, i, j) == h,
{
    let mut table = RouteTable::new();
    let mut gi: usize = 0;
    while gi < config.domains.len()
        invariant
            hostnames_unique(*config),
            0 <= gi <= config.domains@.len(),
            forall|i: int, j: int|
                valid_pair(*config, i, j) && i < gi ==> {
                    &&& table@.contains_key(#[trigger] pair_hostname(*config, i, j))
                    &&& table@[pair_hostname(*config, i, j)] == (HandlerSpec::Static {
                        dir: joined_path(config.root_dir@, config.domains[i].entries[j].path@),
                    })
                },
            forall|h: Seq<char>|
                table@.contains_key(h) ==> exists|i: int, j: int|
                    valid_pair(*config, i, j) && i < gi && pair_hostname(*config, i, j) == h,
        decreases config.domains@.len() - gi,
    {
        let mut ei: usize = 0;
        while ei < config.domains[gi].entries.len()
            invariant
                hostnames_unique(*config),
                0 <= gi < config.domains@.len(),
                0 <= ei <= config.domains@[gi as int].entries@.len(),
                forall|i: int, j: int|
                    valid_pair(*config, i, j) && (i < gi || (i == gi && j < ei)) ==> {
                        &&& table@.contains_key(#[trigger] pair_hostname(*config, i, j))
                        &&& table@[pair_hostname(*config, i, j)] == (HandlerSpec::Static {
                            dir: joined_path(
                                config.root_dir@,
                                config.domains[i].entries[j].path@,
                            ),
                        })
                    },
                forall|h: Seq<char>|
                    table@.contains_key(h) ==> exists|i: int, j: int|
                        valid_pair(*config, i, j) && (i < gi || (i == gi && j < ei))
                            && pair_hostname(*config, i, j) == h,
            decreases config.domains@[gi as int].entries@.len() - ei,
        {
            let hostname = derive_hostname(
                &config.domains[gi].entries[ei].label,
                &config.domains[gi].root_domain,
            );
            let dir = join_path(&config.root_dir, &config.domains[gi].entries[ei].path);
            proof {
                assert(hostname@ == pair_hostname(*config, gi as int, ei as int));
            }
            table.insert_route(hostname, Handler::StaticDir(dir));
            ei = ei + 1;
        }
        gi = gi + 1;
    }
    table
}

/// The pairs strictly before position `(gi, ei)` in the build order.
spec fn processed(c: Config, i: int, j: int, gi: int, ei: int) -> bool {
    valid_pair(c, i, j) && (i < gi || (i == gi && j < ei))
}

/// Build the static route table while rejecting a configuration in
/// which two `(rootDomain, label)` pairs derive the same hostname:
/// `None` exactly when there is such a duplicate, never a silent
/// overwrite. On success the table is the one `build_routes` describes.
pub fn try_build_routes(config: &Config) -> (r: Option<RouteTable>)
    ensures
        match r {
            Some(t) => {
                &&& hostnames_unique(*config)
                &&& forall|i: int, j: int|
                    valid_pair(*config, i, j) ==> {
                        &&& t@.contains_key(#[trigger] pair_hostname(*config, i, j))
                        &&& t@[pair_hostname(*config, i, j)] == (HandlerSpec::Static {
                            dir: joined_path(
                                config.root_dir@,
                                config.domains[i].entries[j].path@,
                            ),
                        })
                    }
                &&& forall|h: Seq<char>|
                    t@.contains_key(h) ==> exists|i: int, j: int|
                        valid_pair(*config, i, j) && pair_hostname(*config, i, j) == h
            },
            None => !hostnames_unique(*config),
        },
{
    let mut table = RouteTable::new();
    let mut gi: usize = 0;
    while gi < config.domains.len()
        invariant
            0 <= gi <= config.domains@.len(),
            forall|i: int, j: int|
                processed(*config, i, j, gi as int, 0) ==> {
                    &&& table@.contains_key(#[trigger] pair_hostname(*config, i, j))
                    &&& table@[pair_hostname(*config, i, j)] == (HandlerSpec::Static {
                        dir: joined_path(config.root_dir@, config.domains[i].entries[j].path@),
                    })
                },
            forall|h: Seq<char>|
                table@.contains_key(h) ==> exists|i: int, j: int|
                    processed(*config, i, j, gi as int, 0) && pair_hostname(*config, i, j) == h,
            forall|i1: int, j1: int, i2: int, j2: int|
                processed(*config, i1, j1, gi as int, 0) && processed(*config, i2, j2, gi as int, 0)
                    && (i1 != i2 || j1 != j2) ==> pair_hostname(*config, i1, j1) != pair_hostname(
                    *config,
                    i2,
                    j2,
                ),
        decreases config.domains@.len() - gi,
    {
        let mut ei: usize = 0;
        while ei < config.domains[gi].entries.len()
            invariant
                0 <= gi < config.domains@.len(),
                0 <= ei <= config.domains@[gi as int].entries@.len(),
                forall|i: int, j: int|
                    processed(*config, i, j, gi as int, ei as int) ==> {
                        &&& table@.contains_key(#[trigger] pair_hostname(*config, i, j))
                        &&& table@[pair_hostname(*config, i, j)] == (HandlerSpec::Static {
                            dir: joined_path(
                                config.root_dir@,
                                config.domains[i].entries[j].path@,
                            ),
                        })
                    },
                forall|h: Seq<char>|
                    table@.contains_key(h) ==> exists|i: int, j: int|
                        processed(*config, i, j, gi as int, ei as int) && pair_hostname(
                            *config,
                            i,
                            j,
                        ) == h,
                forall|i1: int, j1: int, i2: int, j2: int|
                    processed(*config, i1, j1, gi as int, ei as int) && processed(
                        *config,
                        i2,
                        j2,
                        gi as int,
                        ei as int,
                    ) && (i1 != i2 || j1 != j2) ==> pair_hostname(*config, i1, j1)
                        != pair_hostname(*config, i2, j2),
            decreases config.domains@[gi as int].entries@.len() - ei,
        {
            let hostname = derive_hostname(
                &config.domains[gi].entries[ei].label,
                &config.domains[gi].root_domain,
            );
            proof {
                assert(hostname@ == pair_hostname(*config, gi as int, ei as int));
            }
            if table.dispatch(&hostname).is_some() {
                return None;
            }
            let dir = join_path(&config.root_dir, &config.domains[gi].entries[ei].path);
            table.insert_route(hostname, Handler::StaticDir(dir));
            ei = ei + 1;
        }
        gi = gi + 1;
    }
    Some(table)
}

} // verus!
