//! The routing table: which balancer serves which virtual host.

use crate::proxy::loadbalancer::Endpoint;
use crate::proxy::loadbalancer::Balancer;
use crate::proxy::loadbalancer::BalancerView;
use crate::proxy::loadbalancer::GuardBalancer;
use vstd::prelude::*;

verus! {

/// One virtual host as configured: its name and the backends behind it.
pub struct Route {
    pub hostname: String,
    pub ppv2: bool,
    pub backends: Vec<Endpoint>,
}

impl View for Route {
    type V = RouteView;

    open spec fn view(&self) -> RouteView {
        RouteView {
            hostname: self.hostname@,
            balancer: BalancerView { ppv2: self.ppv2, backends: self.backends@ },
        }
    }
}

/// A route as plain values.
pub struct RouteView {
    pub hostname: Seq<char>,
    pub balancer: BalancerView,
}

/// The routes of a configuration as plain values, in its order.
pub open spec fn route_views(routes: Seq<Route>) -> Seq<RouteView> {
    routes.map_values(|route: Route| route@)
}

/// The balancer that a configuration gives a host: that of the last route
/// that names the host, and none where no route does.
pub open spec fn route_of(routes: Seq<RouteView>, host: Seq<char>) -> Option<BalancerView>
    decreases routes.len(),
{
    if routes.len() == 0 {
        None
    } else if routes.last().hostname == host {
        Some(routes.last().balancer)
    } else {
        route_of(routes.drop_last(), host)
    }
}

/// True when route `index` is the one that counts for `host`: it names the
/// host, and no later route does.
pub open spec fn is_route_for(routes: Seq<RouteView>, host: Seq<char>, index: int) -> bool {
    &&& 0 <= index < routes.len()
    &&& routes[index].hostname == host
    &&& forall|later: int| index < later < routes.len() ==> routes[later].hostname != host
}

/// True when no route names `host`.
pub open spec fn no_route_for(routes: Seq<RouteView>, host: Seq<char>) -> bool {
    forall|index: int| 0 <= index < routes.len() ==> routes[index].hostname != host
}

struct HostEntry {
    hostname: String,
    balancer: Balancer,
}

/// The routing table. It is built once and only read afterwards. No hostname
/// has more than one entry.
pub struct HostManager {
    server_map: Vec<HostEntry>,
}

/// The routing table as all connections share it.
pub type SmartHostManager = std::sync::Arc<HostManager>;

spec fn built_from(entry: HostEntry, routes: Seq<RouteView>) -> bool {
    exists|index: int| #[trigger]
        is_route_for(routes, entry.hostname@, index) && entry.balancer@ == routes[index].balancer
}

spec fn listed(entries: Seq<HostEntry>, host: Seq<char>) -> bool {
    exists|i: int| names(entries, i, host)
}

spec fn names(entries: Seq<HostEntry>, index: int, host: Seq<char>) -> bool {
    0 <= index < entries.len() && entries[index].hostname@ == host
}

impl HostManager {
    #[verifier::type_invariant]
    spec fn hostnames_distinct(self) -> bool {
        forall|i: int, j: int|
            0 <= i < j < self.server_map@.len() ==> self.server_map@[i].hostname@
                != self.server_map@[j].hostname@
    }

    /// The balancer that the table holds for `host`, if it holds one.
    pub closed spec fn spec_get(&self, host: Seq<char>) -> Option<BalancerView> {
        if exists|i: int| names(self.server_map@, i, host) {
            Some(self.server_map@[choose|i: int| names(self.server_map@, i, host)].balancer@)
        } else {
            None
        }
    }

    /// Builds the table from the configured routes.
    ///
    /// Each hostname gets a balancer over the backends of its route, with the
    /// cursor at zero. Where several routes name one host, the last of them
    /// counts.
    pub fn new(servers: Vec<Route>) -> (r: Self)
        ensures
            forall|host: Seq<char>| #[trigger]
                r.spec_get(host) == route_of(route_views(servers@), host),
    {
        let ghost routes = route_views(servers@);
        let mut servers = servers;
        let mut server_map: Vec<HostEntry> = Vec::new();
        while servers.len() > 0
            invariant
                servers@.len() <= routes.len(),
                route_views(servers@) == routes.take(servers@.len() as int),
                forall|i: int, j: int|
                    0 <= i < j < server_map@.len() ==> server_map@[i].hostname@
                        != server_map@[j].hostname@,
                forall|i: int|
                    0 <= i < server_map@.len() ==> built_from(#[trigger] server_map@[i], routes),
                forall|index: int|
                    servers@.len() <= index < routes.len() ==> listed(
                        server_map@,
                        #[trigger] routes[index].hostname,
                    ),
            decreases servers@.len(),
        {
            let ghost before = route_views(servers@);
            let server = servers.pop().unwrap();
            let ghost at = servers@.len() as int;
            assert(server@ == routes[at]) by {
                assert(before[at] == routes.take(before.len() as int)[at]);
            }
            assert(route_views(servers@) == routes.take(at)) by {
                assert(route_views(servers@) =~= routes.take(at));
            }
            let Route { hostname, ppv2, backends } = server;
            let found = Self::position(&server_map, &hostname);
            if found.is_none() {
                let ghost old_map = server_map@;
                server_map.push(HostEntry { hostname, balancer: Balancer::new(ppv2, backends) });
                assert(is_route_for(routes, routes[at].hostname, at)) by {
                    assert forall|later: int| at < later < routes.len() implies routes[later].hostname
                        != routes[at].hostname by {
                        let i = choose|i: int| names(old_map, i, routes[later].hostname);
                        assert(names(old_map, i, routes[later].hostname));
                    }
                }
                let ghost added = server_map@[old_map.len() as int];
                assert(added.hostname@ == routes[at].hostname);
                assert(added.balancer@ == routes[at].balancer);
                assert(built_from(added, routes));
                assert forall|i: int, j: int| 0 <= i < j < server_map@.len() implies server_map@[i].hostname@
                    != server_map@[j].hostname@ by {
                    if j == old_map.len() {
                        assert(!names(old_map, i, routes[at].hostname));
                    }
                }
                assert forall|index: int| at <= index < routes.len() implies listed(
                    server_map@,
                    #[trigger] routes[index].hostname,
                ) by {
                    if index == at {
                        assert(names(server_map@, old_map.len() as int, routes[index].hostname));
                    } else {
                        let i = choose|i: int| names(old_map, i, routes[index].hostname);
                        assert(names(server_map@, i, routes[index].hostname));
                    }
                }
            } else {
                assert forall|index: int| at <= index < routes.len() implies listed(
                    server_map@,
                    #[trigger] routes[index].hostname,
                ) by {
                    if index > at {
                        let i = choose|i: int| names(server_map@, i, routes[index].hostname);
                        assert(names(server_map@, i, routes[index].hostname));
                    } else {
                        assert(names(server_map@, found->Some_0 as int, routes[index].hostname));
                    }
                }
            }
        }
        let table = HostManager { server_map };
        proof {
            assert forall|host: Seq<char>| #[trigger]
                table.spec_get(host) == route_of(routes, host) by {
                if exists|i: int| names(table.server_map@, i, host) {
                    let i = choose|i: int| names(table.server_map@, i, host);
                    assert(built_from(table.server_map@[i], routes));
                    let index = choose|index: int| #[trigger]
                        is_route_for(routes, table.server_map@[i].hostname@, index)
                            && table.server_map@[i].balancer@ == routes[index].balancer;
                    assert(is_route_for(routes, host, index));
                    lemma_route_of_is_the_last(routes, host, index);
                } else {
                    assert forall|index: int| 0 <= index < routes.len() implies routes[index].hostname
                        != host by {
                        if routes[index].hostname == host {
                            let i = choose|i: int|
                                names(table.server_map@, i, routes[index].hostname);
                            assert(names(table.server_map@, i, host));
                        }
                    }
                    lemma_route_of_nothing(routes, host);
                }
            }
        }
        table
    }

    /// Where the entry for `hostname` stands among `entries`, if there is one.
    fn position(entries: &Vec<HostEntry>, hostname: &String) -> (r: Option<usize>)
        ensures
            match r {
                Some(index) => names(entries@, index as int, hostname@),
                None => forall|i: int| !names(entries@, i, hostname@),
            },
    {
        let mut index: usize = 0;
        while index < entries.len()
            invariant
                index <= entries@.len(),
                forall|i: int| 0 <= i < index ==> entries@[i].hostname@ != hostname@,
            decreases entries@.len() - index,
        {
            if entries[index].hostname == *hostname {
                return Some(index);
            }
            index = index + 1;
        }
        None
    }

    /// Looks a hostname up and, where the table holds it, reserves its
    /// balancer for one connection.
    pub fn get_host(&self, host: &str) -> (r: Option<GuardBalancer<'_>>)
        ensures
            match r {
                Some(guard) => self.spec_get(host@) == Some(guard.spec_balancer()@),
                None => self.spec_get(host@) is None,
            },
    {
        proof {
            use_type_invariant(self);
        }
        let wanted = host.to_owned();
        match Self::position(&self.server_map, &wanted) {
            Some(index) => {
                proof {
                    let chosen = choose|i: int| names(self.server_map@, i, host@);
                    assert(names(self.server_map@, index as int, host@));
                    assert(chosen == index);
                }
                Some(GuardBalancer::new(&self.server_map[index].balancer))
            },
            None => None,
        }
    }
}

/// The route that counts for a host is the one whose balancer the
/// configuration gives it.
pub proof fn lemma_route_of_is_the_last(routes: Seq<RouteView>, host: Seq<char>, index: int)
    requires
        is_route_for(routes, host, index),
    ensures
        route_of(routes, host) == Some(routes[index].balancer),
    decreases routes.len(),
{
    let last = routes.len() - 1;
    if index < last {
        let front = routes.drop_last();
        assert(routes[last].hostname != host);
        assert(front[index] == routes[index]);
        assert forall|later: int| index < later < front.len() implies front[later].hostname
            != host by {
            assert(front[later] == routes[later]);
        }
        lemma_route_of_is_the_last(front, host, index);
    }
}

/// A host that no route names is given no balancer.
pub proof fn lemma_route_of_nothing(routes: Seq<RouteView>, host: Seq<char>)
    requires
        no_route_for(routes, host),
    ensures
        route_of(routes, host) is None,
    decreases routes.len(),
{
    if routes.len() > 0 {
        let front = routes.drop_last();
        assert(routes[routes.len() - 1].hostname != host);
        assert forall|index: int| 0 <= index < front.len() implies front[index].hostname
            != host by {
            assert(front[index] == routes[index]);
        }
        lemma_route_of_nothing(front, host);
    }
}

/// At most one route counts for a host, so what a lookup finds is determined
/// by the configuration.
pub proof fn lemma_route_is_unique(routes: Seq<RouteView>, host: Seq<char>, a: int, b: int)
    requires
        is_route_for(routes, host, a),
        is_route_for(routes, host, b),
    ensures
        a == b,
{
}

/// A host is either routed or not: some route counts for it, or none names
/// it.
pub proof fn lemma_routed_or_not(routes: Seq<RouteView>, host: Seq<char>)
    ensures
        no_route_for(routes, host) <==> !exists|index: int| is_route_for(routes, host, index),
    decreases routes.len(),
{
    if routes.len() > 0 {
        let last = routes.len() - 1;
        let front = routes.drop_last();
        lemma_routed_or_not(front, host);
        if routes[last].hostname == host {
            assert(is_route_for(routes, host, last));
        } else if exists|index: int| is_route_for(front, host, index) {
            let index = choose|index: int| is_route_for(front, host, index);
            assert forall|later: int| index < later < routes.len() implies routes[later].hostname
                != host by {
                if later < last {
                    assert(front[later].hostname != host);
                }
            }
            assert(is_route_for(routes, host, index));
        } else {
            assert(no_route_for(front, host));
            assert forall|index: int| 0 <= index < routes.len() implies routes[index].hostname
                != host by {
                if index < last {
                    assert(front[index].hostname != host);
                }
            }
        }
        if exists|index: int| is_route_for(routes, host, index) {
            let index = choose|index: int| is_route_for(routes, host, index);
            assert(routes[index].hostname == host);
        }
    }
}

} // verus!
