//! The orchestrator: owner of the manifest, the dependency graph, the
//! address pools, the port-forward table and the per-jail instances.
//!
//! Start plans follow the dependency order, stop plans its reverse.  The
//! per-jail resource accounting lives here: which address a start
//! allocated, which VNET record it created, which jail id it received —
//! and a stop or an unwind returns exactly those, so the accounting after
//! an up followed by a down equals the accounting before.  The layer
//! around the library performs the kernel calls between these steps and
//! reports their outcomes.

use vstd::prelude::*;
use vstd::string::*;
use crate::errors::Error;
use crate::graph::{DepGraph, is_topo_order, respects_edges};
use crate::ip::{IpAddress, IpAllocator, IpPool, Subnet};
use crate::manifest::BlackshipConfig;
use crate::netif::VnetSetup;
use crate::pf::{BulkheadManager, PortForward};
use crate::state::{JailConfig, JailInstance, State};
use crate::throttle::TokenBucket;
use crate::zfs::ZfsManager;

verus! {

/// The orchestrator.
pub struct Bridge {
    /// The validated manifest.
    pub config: BlackshipConfig,
    /// The dependency graph over jail indices: an edge `(d, i)` says
    /// jail `d` starts before jail `i`.
    pub graph: DepGraph,
    /// The dataset naming manager, when ZFS is enabled.
    pub zfs: Option<ZfsManager>,
    /// The port-forward table.
    pub bulkhead: BulkheadManager,
    /// The address pools, one per named network.
    pub ip_allocator: IpAllocator,
    /// Per jail: the network and address a start auto-allocated.
    pub allocated_ips: Vec<Option<(String, IpAddress)>>,
    /// Per jail: the VNET record a start created.
    pub vnet_setups: Vec<Option<VnetSetup>>,
    /// Per jail: the lifecycle instance.
    pub instances: Vec<JailInstance>,
    /// The jail-start token bucket.
    pub bucket: TokenBucket,
    /// Whether to report each step.
    pub verbose: bool,
}

impl Bridge {
    /// The orchestrator's invariant: the parallel tables cover every
    /// jail, the graph's nodes are the jails, and pools and bucket are
    /// well formed.
    pub open spec fn wf(self) -> bool {
        &&& self.graph.wf()
        &&& self.graph.n == self.config.jails@.len()
        &&& self.allocated_ips@.len() == self.config.jails@.len()
        &&& self.vnet_setups@.len() == self.config.jails@.len()
        &&& self.instances@.len() == self.config.jails@.len()
        &&& self.ip_allocator.wf()
        &&& self.bucket.wf()
    }

    /// Every dependency of the manifest has its edge in the graph.
    pub open spec fn deps_covered(self) -> bool {
        forall|i: int, k: int|
            0 <= i < self.config.jails@.len() && 0 <= k
                < self.config.jails@[i].depends_on@.len() ==> #[trigger] dep_edge_exists(
                self.config.jails@, self.graph.edges@, i, k)
    }

    /// Build the orchestrator from a manifest: the dependency graph from
    /// `depends_on`, one pool per network, the dataset manager when ZFS
    /// is on, an empty forward table, one `Stopped` instance per jail
    /// and a full jail-start bucket refilling one token per second.
    pub fn new(config: BlackshipConfig, now_ms: u64) -> (r: Result<Bridge, Error>)
        ensures
            r matches Ok(b) ==> {
                &&& b.wf()
                &&& b.deps_covered()
                &&& b.config.jails@.len() == config.jails@.len()
                &&& forall|i: int|
                    0 <= i < b.config.jails@.len() ==> #[trigger] b.config.jails@[i].name@
                        == config.jails@[i].name@
                &&& b.bulkhead.forwards@.len() == 0
                &&& forall|i: int|
                    0 <= i < b.instances@.len() ==> (#[trigger] b.instances@[i]).state
                        == State::Stopped && b.instances@[i].jid is None
                &&& forall|i: int| 0 <= i < b.allocated_ips@.len() ==> (
                    #[trigger] b.allocated_ips@[i]) is None
                &&& forall|i: int| 0 <= i < b.vnet_setups@.len() ==> (
                    #[trigger] b.vnet_setups@[i]) is None
                &&& b.bucket.capacity_milli
                    == config.config.rate_limit.jail_start_capacity_milli
                &&& b.bucket.refill_milli_per_sec == 1000
            },
            config.config.zfs_enabled && config.config.zpool is None ==> r is Err,
            r matches Ok(b) ==> forall|t: int|
                0 <= t < b.graph.edges@.len() ==> edge_from_dep(
                    config.jails@, #[trigger] b.graph.edges@[t]),
            r is Ok <==> ({
                &&& spec_deps_resolve(config.jails@)
                &&& !(config.config.zfs_enabled && config.config.zpool is None)
                &&& forall|w2: int|
                    0 <= w2 < config.networks@.len() ==> spec_network_ok(
                        #[trigger] config.networks@[w2])
            }),
    {
        let n = config.jails.len();
        let mut graph = DepGraph::new(n);
        let mut i: usize = 0;
        while i < n
            invariant
                n == config.jails@.len(),
                i <= n,
                graph.wf(),
                graph.n == n,
                forall|i2: int, k2: int|
                    0 <= i2 < i && 0 <= k2 < config.jails@[i2].depends_on@.len()
                        ==> #[trigger] dep_edge_exists(config.jails@, graph.edges@, i2, k2),
                forall|t: int|
                    0 <= t < graph.edges@.len() ==> edge_from_dep(
                        config.jails@, #[trigger] graph.edges@[t]),
            decreases n - i,
        {
            let deps = config.jails[i].depends_on.len();
            let mut k: usize = 0;
            while k < deps
                invariant
                    n == config.jails@.len(),
                    i < n,
                    deps == config.jails@[i as int].depends_on@.len(),
                    k <= deps,
                    graph.wf(),
                    graph.n == n,
                    forall|i2: int, k2: int|
                        0 <= i2 < i && 0 <= k2 < config.jails@[i2].depends_on@.len()
                            ==> #[trigger] dep_edge_exists(config.jails@, graph.edges@, i2, k2),
                    forall|k2: int|
                        0 <= k2 < k ==> #[trigger] dep_edge_exists(
                            config.jails@, graph.edges@, i as int, k2),
                    forall|t: int|
                        0 <= t < graph.edges@.len() ==> edge_from_dep(
                            config.jails@, #[trigger] graph.edges@[t]),
                decreases deps - k,
            {
                let dep = config.jails[i].depends_on[k].as_str();
                let mut from: usize = 0;
                let mut found = false;
                while from < n && !found
                    invariant
                        n == config.jails@.len(),
                        from <= n,
                        i < n,
                        deps == config.jails@[i as int].depends_on@.len(),
                        k < deps,
                        dep@ == config.jails@[i as int].depends_on@[k as int]@,
                        found ==> from < n && config.jails@[from as int].name@ == dep@,
                        !found ==> forall|f: int|
                            0 <= f < from ==> (#[trigger] config.jails@[f]).name@ != dep@,
                    decreases n - from + (if found { 0int } else { 1int }),
                {
                    if crate::text::str_eq(config.jails[from].name.as_str(), dep) {
                        found = true;
                    } else {
                        from = from + 1;
                    }
                }
                if !found {
                    proof {
                        assert(!(exists|j: int|
                            0 <= j < config.jails@.len() && config.jails@[j].name@ == (
                            config.jails@[i as int].depends_on@[k as int])@));
                        assert(!spec_deps_resolve(config.jails@)) by {
                            if spec_deps_resolve(config.jails@) {
                                assert(exists|j: int|
                                    0 <= j < config.jails@.len() && config.jails@[j].name@ == (
                                    #[trigger] config.jails@[i as int].depends_on@[k as int])@);
                            }
                        }
                    }
                    return Err(Error::UnknownDependency(config.jails[i].depends_on[
                        k].clone()));
                }
                let ghost pre_edges = graph.edges@;
                graph.add_edge(from, i);
                proof {
                    let e = graph.edges@.len() - 1;
                    assert(graph.edges@[e] == (from, i));
                    assert(dep_edge_exists(config.jails@, graph.edges@, i as int, k as int));
                    assert forall|i2: int, k2: int|
                        0 <= i2 < i && 0 <= k2 < config.jails@[i2].depends_on@.len()
                        implies #[trigger] dep_edge_exists(
                        config.jails@, graph.edges@, i2, k2) by {
                        lemma_dep_edge_grow(config.jails@, pre_edges, graph.edges@, i2, k2);
                    }
                    assert forall|k2: int| 0 <= k2 < k + 1 implies #[trigger] dep_edge_exists(
                        config.jails@, graph.edges@, i as int, k2) by {
                        if k2 < k {
                            lemma_dep_edge_grow(
                                config.jails@, pre_edges, graph.edges@, i as int, k2);
                        }
                    }
                    assert forall|t: int| 0 <= t < graph.edges@.len() implies edge_from_dep(
                        config.jails@, #[trigger] graph.edges@[t]) by {
                        if t < pre_edges.len() {
                            assert(graph.edges@[t] == pre_edges[t]);
                        } else {
                            assert(graph.edges@[t] == (from, i));
                            assert((#[trigger] config.jails@[i as int].depends_on@[k as int])@
                                == config.jails@[from as int].name@);
                            assert(exists|k2: int|
                                0 <= k2 < config.jails@[i as int].depends_on@.len() && (
                                #[trigger] config.jails@[i as int].depends_on@[k2])@
                                    == config.jails@[from as int].name@);
                        }
                    }
                }
                k = k + 1;
            }
            proof {
                assert forall|i2: int, k2: int|
                    0 <= i2 < i + 1 && 0 <= k2 < config.jails@[i2].depends_on@.len()
                    implies #[trigger] dep_edge_exists(
                    config.jails@, graph.edges@, i2, k2) by {
                }
            }
            i = i + 1;
        }
        proof {
            assert forall|i2: int, k2: int|
                0 <= i2 < config.jails@.len() && 0 <= k2
                    < config.jails@[i2].depends_on@.len() implies exists|j: int|
                0 <= j < config.jails@.len() && config.jails@[j].name@ == (
                #[trigger] config.jails@[i2].depends_on@[k2])@ by {
                assert(dep_edge_exists(config.jails@, graph.edges@, i2, k2));
                let e = choose|e: int|
                    0 <= e < graph.edges@.len() && (#[trigger] graph.edges@[e]).1 == i2
                        && config.jails@[graph.edges@[e].0 as int].name@ == config.jails@[
                        i2].depends_on@[k2]@;
                assert(graph.edges@[e].0 < n);
                assert(config.jails@[graph.edges@[e].0 as int].name@ == config.jails@[
                    i2].depends_on@[k2]@);
            }
            assert(spec_deps_resolve(config.jails@));
        }
        let zfs: Option<ZfsManager> = if config.config.zfs_enabled {
            match &config.config.zpool {
                Some(pool) => Some(ZfsManager::new(pool.as_str(),
                    config.config.dataset.as_str())),
                None => {
                    return Err(Error::ZfsNotEnabled);
                }
            }
        } else {
            None
        };
        let mut ip_allocator = IpAllocator::new();
        let mut w: usize = 0;
        while w < config.networks.len()
            invariant
                w <= config.networks@.len(),
                ip_allocator.wf(),
                forall|w2: int|
                    0 <= w2 < w ==> spec_network_ok(#[trigger] config.networks@[w2]),
            decreases config.networks@.len() - w,
        {
            let net = &config.networks[w];
            let ghost sq = net.subnet@;
            let ghost fi = crate::text::first_sep(sq, '/');
            let (addr_text, prefix) = match crate::netif::split_addr_prefix(net.subnet.as_str())
            {
                Ok(p) => p,
                Err(_) => {
                    proof {
                        assert(!spec_network_ok(config.networks@[w as int]));
                        assert(!(forall|w2: int|
                            0 <= w2 < config.networks@.len() ==> spec_network_ok(
                                #[trigger] config.networks@[w2]))) by {
                            if forall|w2: int|
                                0 <= w2 < config.networks@.len() ==> spec_network_ok(
                                    #[trigger] config.networks@[w2]) {
                                assert(spec_network_ok(config.networks@[w as int]));
                            }
                        }
                    }
                    return Err(Error::Network(String::from_str(
                        "invalid subnet for a network")));
                }
            };
            let prefix = match prefix {
                Some(p) => p,
                None => {
                    proof {
                        assert(fi >= sq.len());
                        assert(!spec_network_ok(config.networks@[w as int]));
                        assert(!(forall|w2: int|
                            0 <= w2 < config.networks@.len() ==> spec_network_ok(
                                #[trigger] config.networks@[w2]))) by {
                            if forall|w2: int|
                                0 <= w2 < config.networks@.len() ==> spec_network_ok(
                                    #[trigger] config.networks@[w2]) {
                                assert(spec_network_ok(config.networks@[w as int]));
                            }
                        }
                    }
                    return Err(Error::Network(String::from_str(
                        "a network subnet needs a prefix length")));
                }
            };
            proof {
                assert(fi < sq.len());
                assert(addr_text@ == sq.take(fi as int));
                assert(prefix as nat == crate::text::dec_value(sq.skip(fi as int + 1)));
            }
            let base = match crate::ip::parse_ip(addr_text.as_str()) {
                Some(a) => a,
                None => {
                    proof {
                        assert(crate::ip::spec_net_addr(sq.take(fi as int)) is None);
                        assert(!spec_network_ok(config.networks@[w as int]));
                        assert(!(forall|w2: int|
                            0 <= w2 < config.networks@.len() ==> spec_network_ok(
                                #[trigger] config.networks@[w2]))) by {
                            if forall|w2: int|
                                0 <= w2 < config.networks@.len() ==> spec_network_ok(
                                    #[trigger] config.networks@[w2]) {
                                assert(spec_network_ok(config.networks@[w as int]));
                            }
                        }
                    }
                    return Err(Error::Network(String::from_str(
                        "invalid subnet address for a network")));
                }
            };
            proof {
                assert(Some(base) == crate::ip::spec_net_addr(sq.take(fi as int)));
                assert(!base.spec_is_v6() ==> base.spec_bits() < 0x1_0000_0000);
            }
            let subnet = match Subnet::from_addr(base.is_v6(), base.bits(), prefix) {
                Ok(s) => s,
                Err(e) => {
                    proof {
                        assert(prefix as int > (if base.spec_is_v6() {
                            128int
                        } else {
                            32int
                        }));
                        assert(!spec_network_ok(config.networks@[w as int]));
                        assert(!(forall|w2: int|
                            0 <= w2 < config.networks@.len() ==> spec_network_ok(
                                #[trigger] config.networks@[w2]))) by {
                            if forall|w2: int|
                                0 <= w2 < config.networks@.len() ==> spec_network_ok(
                                    #[trigger] config.networks@[w2]) {
                                assert(spec_network_ok(config.networks@[w as int]));
                            }
                        }
                    }
                    return Err(e);
                }
            };
            proof {
                let sn = spec_net_subnet(config.networks@[w as int]);
                assert(subnet.v6 == sn.v6);
                assert(subnet.prefix == sn.prefix);
                assert(subnet.span() == vstd::arithmetic::power2::pow2(((if base.spec_is_v6() {
                    128nat
                } else {
                    32nat
                }) - subnet.prefix) as nat));
                assert(subnet.base as nat == base.spec_bits() as nat - base.spec_bits() as nat
                    % subnet.span());
                assert(subnet.base == sn.base);
                assert(subnet == sn);
            }
            let pool = match &net.gateway {
                Some(gw) => match IpPool::with_gateway(subnet, *gw) {
                    Ok(p) => p,
                    Err(e) => {
                        proof {
                            assert(!spec_net_subnet(
                                config.networks@[w as int]).spec_contains(*gw));
                            assert(!spec_network_ok(config.networks@[w as int]));
                            assert(!(forall|w2: int|
                                0 <= w2 < config.networks@.len() ==> spec_network_ok(
                                    #[trigger] config.networks@[w2]))) by {
                                if forall|w2: int|
                                    0 <= w2 < config.networks@.len() ==> spec_network_ok(
                                        #[trigger] config.networks@[w2]) {
                                    assert(spec_network_ok(config.networks@[w as int]));
                                }
                            }
                        }
                        return Err(e);
                    }
                },
                None => match IpPool::new(subnet) {
                    Ok(p) => p,
                    Err(e) => {
                        proof {
                            assert(false);
                        }
                        return Err(e);
                    }
                },
            };
            proof {
                assert(spec_network_ok(config.networks@[w as int]));
            }
            ip_allocator.add_pool(net.name.clone(), pool);
            w = w + 1;
        }
        let mut allocated_ips: Vec<Option<(String, IpAddress)>> = Vec::new();
        let mut vnet_setups: Vec<Option<VnetSetup>> = Vec::new();
        let mut instances: Vec<JailInstance> = Vec::new();
        let mut j: usize = 0;
        while j < n
            invariant
                n == config.jails@.len(),
                j <= n,
                allocated_ips@.len() == j,
                vnet_setups@.len() == j,
                instances@.len() == j,
                forall|p: int| 0 <= p < j ==> (#[trigger] allocated_ips@[p]) is None,
                forall|p: int| 0 <= p < j ==> (#[trigger] vnet_setups@[p]) is None,
                forall|p: int|
                    0 <= p < j ==> (#[trigger] instances@[p]).state == State::Stopped
                        && instances@[p].jid is None,
            decreases n - j,
        {
            allocated_ips.push(None);
            vnet_setups.push(None);
            instances.push(JailInstance::new(JailConfig::new(
                config.jails[j].name.as_str(), "")));
            j = j + 1;
        }
        let capacity = config.config.rate_limit.jail_start_capacity_milli;
        let bucket = TokenBucket::new(capacity, 1000, now_ms);
        Ok(Bridge {
            config,
            graph,
            zfs,
            bulkhead: BulkheadManager::new(),
            ip_allocator,
            allocated_ips,
            vnet_setups,
            instances,
            bucket,
            verbose: false,
        })
    }

    /// The same orchestrator with verbosity set.
    pub fn verbose(self, verbose: bool) -> (r: Bridge)
        ensures
            r.verbose == verbose,
            r.config == self.config,
            r.graph == self.graph,
            r.instances == self.instances,
    {
        Bridge { verbose, ..self }
    }

    /// The start order as jail indices: the one topological order of
    /// the dependency graph that the sort produces, lowest-index ready
    /// jail first.  Fails exactly when the dependencies are cyclic,
    /// naming a jail that could never be scheduled.
    pub fn start_order_indices(&self) -> (r: Result<Vec<usize>, Error>)
        requires
            self.wf(),
        ensures
            r matches Ok(o) ==> is_topo_order(o@, self.graph.n as nat, self.graph.edges@),
            r is Ok <==> crate::graph::has_topo_order(self.graph.n as nat, self.graph.edges@),
            r matches Ok(o) ==> o@ == crate::graph::spec_topo_order(
                self.graph.n as nat, self.graph.edges@),
    {
        match self.graph.topo_sort() {
            Ok(o) => Ok(o),
            Err(c) => {
                let mut msg = String::from_str("cyclic dependency detected involving jail ");
                msg.append(self.config.jails[c].name.as_str());
                Err(Error::ConfigValidation(msg))
            }
        }
    }

    /// The start order as jail names: the jails of
    /// `start_order_indices`, in the same order, by name.
    pub fn start_order(&self) -> (r: Result<Vec<String>, Error>)
        requires
            self.wf(),
        ensures
            r matches Ok(v) ==> v@.map_values(|t: String| t@) =~~= crate::graph::spec_topo_order(
                self.graph.n as nat, self.graph.edges@).map_values(
                |u: usize| self.config.jails@[u as int].name@),
            r matches Ok(v) ==> is_topo_order(
                crate::graph::spec_topo_order(self.graph.n as nat, self.graph.edges@),
                self.graph.n as nat,
                self.graph.edges@,
            ),
            r is Ok <==> crate::graph::has_topo_order(self.graph.n as nat, self.graph.edges@),
    {
        let order = match self.start_order_indices() {
            Ok(o) => o,
            Err(e) => {
                return Err(e);
            }
        };
        let mut names: Vec<String> = Vec::new();
        let mut i: usize = 0;
        while i < order.len()
            invariant
                self.wf(),
                is_topo_order(order@, self.graph.n as nat, self.graph.edges@),
                i <= order@.len(),
                names@.len() == i,
                forall|j: int|
                    0 <= j < i ==> (#[trigger] names@[j])@ == self.config.jails@[order@[j]
                        as int].name@,
            decreases order@.len() - i,
        {
            names.push(self.config.jails[order[i]].name.clone());
            i = i + 1;
        }
        proof {
            let o = order@;
            assert(names@.map_values(|t: String| t@) =~~= o.map_values(
                |u: usize| self.config.jails@[u as int].name@));
        }
        Ok(names)
    }

    /// The stop order as jail indices: exactly the reverse of the order
    /// `start_order_indices` returns.
    pub fn stop_order_indices(&self) -> (r: Result<Vec<usize>, Error>)
        requires
            self.wf(),
        ensures
            r matches Ok(o) ==> is_topo_order(
                o@.reverse(), self.graph.n as nat, self.graph.edges@),
            r is Ok <==> crate::graph::has_topo_order(self.graph.n as nat, self.graph.edges@),
            r matches Ok(o) ==> o@ == crate::graph::spec_topo_order(
                self.graph.n as nat, self.graph.edges@).reverse(),
    {
        let order = match self.start_order_indices() {
            Ok(o) => o,
            Err(e) => {
                return Err(e);
            }
        };
        let mut rev: Vec<usize> = Vec::new();
        let mut i: usize = order.len();
        while i > 0
            invariant
                i <= order@.len(),
                rev@.len() == order@.len() - i,
                forall|j: int|
                    0 <= j < rev@.len() ==> #[trigger] rev@[j] == order@[order@.len() - 1 - j],
            decreases i,
        {
            i = i - 1;
            rev.push(order[i]);
        }
        proof {
            assert(rev@.reverse() =~= order@);
            assert(rev@ =~= order@.reverse());
        }
        Ok(rev)
    }

    /// The stop order as jail names: the jails of the reversed start
    /// order, by name.
    pub fn stop_order(&self) -> (r: Result<Vec<String>, Error>)
        requires
            self.wf(),
        ensures
            r matches Ok(v) ==> v@.map_values(|t: String| t@) =~~= crate::graph::spec_topo_order(
                self.graph.n as nat, self.graph.edges@).reverse().map_values(
                |u: usize| self.config.jails@[u as int].name@),
            r is Ok <==> crate::graph::has_topo_order(self.graph.n as nat, self.graph.edges@),
    {
        let order = match self.stop_order_indices() {
            Ok(o) => o,
            Err(e) => {
                return Err(e);
            }
        };
        proof {
            lemma_reverse_topo_props(order@, self.graph.n as nat, self.graph.edges@);
        }
        let mut names: Vec<String> = Vec::new();
        let mut i: usize = 0;
        while i < order.len()
            invariant
                self.wf(),
                is_topo_order(order@.reverse(), self.graph.n as nat, self.graph.edges@),
                forall|j: int| 0 <= j < order@.len() ==> (#[trigger] order@[j]) < self.graph.n,
                i <= order@.len(),
                names@.len() == i,
                forall|j: int|
                    0 <= j < i ==> (#[trigger] names@[j])@ == self.config.jails@[order@[j]
                        as int].name@,
            decreases order@.len() - i,
        {
            names.push(self.config.jails[order[i]].name.clone());
            i = i + 1;
        }
        proof {
            assert(names@.map_values(|t: String| t@) =~~= order@.map_values(
                |u: usize| self.config.jails@[u as int].name@));
        }
        Ok(names)
    }

    /// The jails an `up` touches, as indices in start order: every
    /// jail, or, under a target, the target and its ancestors -- the
    /// jails it depends on, directly or through others -- and nothing
    /// else.  Every dependency of a planned jail is planned, and
    /// planned first.
    pub fn up_plan(&self, target: Option<&str>) -> (r: Result<Vec<usize>, Error>)
        requires
            self.wf(),
        ensures
            r is Ok <==> (crate::graph::has_topo_order(self.graph.n as nat, self.graph.edges@)
                && (target matches Some(t) ==> crate::manifest::spec_find_jail(
                self.config.config, self.config.jails@, t@) is Some)),
            r matches Ok(o) ==> {
                &&& respects_edges(o@, self.graph.edges@)
                &&& forall|i: int| 0 <= i < o@.len() ==> (#[trigger] o@[i]) < self.graph.n
                &&& forall|i: int, j: int| 0 <= i < j < o@.len() ==> o@[i] != o@[j]
                &&& forall|e: int|
                    0 <= e < self.graph.edges@.len() && o@.contains(
                        (#[trigger] self.graph.edges@[e]).1) ==> o@.contains(
                        self.graph.edges@[e].0)
                &&& (target is None ==> o@ == crate::graph::spec_topo_order(
                    self.graph.n as nat, self.graph.edges@))
            },
            r matches Ok(o) ==> target matches Some(t) ==> ({
                let idx = crate::manifest::spec_find_jail(
                    self.config.config, self.config.jails@, t@)->Some_0;
                &&& o@.contains(idx)
                &&& forall|s: Set<usize>|
                    #![trigger crate::graph::pred_closed(s, self.graph.edges@)]
                    crate::graph::pred_closed(s, self.graph.edges@) && s.contains(idx)
                        ==> forall|j: int|
                        0 <= j < o@.len() ==> s.contains(#[trigger] o@[j])
            }),
    {
        let order = match self.start_order_indices() {
            Ok(o) => o,
            Err(e) => {
                return Err(e);
            }
        };
        match target {
            None => {
                proof {
                    assert(order@.take(order@.len() as int) =~= order@);
                    crate::graph::lemma_prefix_closed(
                        order@, self.graph.edges@, order@.len() as int);
                    lemma_full_order_contains(order@, self.graph.n as nat);
                }
                Ok(order)
            }
            Some(name) => {
                let idx = match self.config.find_jail(name) {
                    Some(i) => i,
                    None => {
                        return Err(Error::JailNotFound(name.to_owned()));
                    }
                };
                let marked = self.graph.mark_reach(idx, false);
                let mut plan: Vec<usize> = Vec::new();
                let ghost mut pmap: Seq<int> = Seq::empty();
                let mut p: usize = 0;
                while p < order.len()
                    invariant
                        self.wf(),
                        is_topo_order(order@, self.graph.n as nat, self.graph.edges@),
                        marked@.len() == self.graph.n,
                        p <= order@.len(),
                        pmap.len() == plan@.len(),
                        forall|j: int| 0 <= j < pmap.len() ==> 0 <= #[trigger] pmap[j] < p,
                        forall|j1: int, j2: int|
                            0 <= j1 < j2 < pmap.len() ==> pmap[j1] < pmap[j2],
                        forall|j: int|
                            0 <= j < plan@.len() ==> (#[trigger] plan@[j]) == order@[pmap[j]],
                        forall|j: int|
                            0 <= j < plan@.len() ==> marked@[(#[trigger] plan@[j]) as int],
                        forall|q: int|
                            0 <= q < p && marked@[(#[trigger] order@[q]) as int]
                                ==> plan@.contains(order@[q]),
                    decreases order@.len() - p,
                {
                    let u = order[p];
                    let ghost pre_plan = plan@;
                    if marked[u] {
                        plan.push(u);
                        proof {
                            pmap = pmap.push(p as int);
                            assert(plan@[plan@.len() - 1] == u);
                        }
                    }
                    proof {
                        assert forall|q: int|
                            0 <= q < p + 1 && marked@[(#[trigger] order@[q]) as int]
                            implies plan@.contains(order@[q]) by {
                            if q < p {
                                assert(pre_plan.contains(order@[q]));
                                let j = choose|j: int|
                                    0 <= j < pre_plan.len() && pre_plan[j] == order@[q];
                                assert(plan@[j] == order@[q]);
                            } else {
                                assert(plan@[plan@.len() - 1] == order@[q]);
                            }
                        }
                    }
                    p = p + 1;
                }
                proof {
                    let edges = self.graph.edges@;
                    let n = self.graph.n as nat;
                    lemma_full_order_contains(order@, n);
                    assert(order@.contains(idx));
                    let qi = choose|q: int| 0 <= q < order@.len() && order@[q] == idx;
                    assert(marked@[(order@[qi]) as int]);
                    assert(plan@.contains(idx));
                    assert forall|i2: int| 0 <= i2 < plan@.len() implies (#[trigger] plan@[i2])
                        < self.graph.n by {
                        assert(plan@[i2] == order@[pmap[i2]]);
                    }
                    assert forall|i2: int, j2: int| 0 <= i2 < j2 < plan@.len()
                        implies plan@[i2] != plan@[j2] by {
                        assert(pmap[i2] < pmap[j2]);
                        assert(plan@[i2] == order@[pmap[i2]]);
                        assert(plan@[j2] == order@[pmap[j2]]);
                    }
                    assert forall|i2: int, j2: int, k2: int|
                        #![trigger plan@[i2], plan@[j2], edges[k2]]
                        0 <= k2 < edges.len() && 0 <= i2 < plan@.len() && 0 <= j2 < plan@.len()
                            && plan@[i2] == edges[k2].0 && plan@[j2] == edges[k2].1
                        implies i2 < j2 by {
                        assert(order@[pmap[i2]] == edges[k2].0);
                        assert(order@[pmap[j2]] == edges[k2].1);
                        assert(pmap[i2] < pmap[j2]);
                        if i2 > j2 {
                            assert(pmap[j2] < pmap[i2]);
                        }
                    }
                    assert forall|e: int|
                        0 <= e < edges.len() && plan@.contains((#[trigger] edges[e]).1)
                        implies plan@.contains(edges[e].0) by {
                        let j = choose|j: int| 0 <= j < plan@.len() && plan@[j] == edges[e].1;
                        assert(marked@[edges[e].1 as int]);
                        assert(marked@[crate::graph::edge_src(edges[e], false) as int]);
                        assert(marked@[crate::graph::edge_dst(edges[e], false) as int]);
                        assert(edges[e].0 < self.graph.n);
                        assert(order@.contains(edges[e].0));
                        let q = choose|q: int|
                            0 <= q < order@.len() && order@[q] == edges[e].0;
                        assert(marked@[(order@[q]) as int]);
                        assert(plan@.contains(order@[q]));
                    }
                    assert forall|s: Set<usize>|
                        crate::graph::pred_closed(s, edges) && s.contains(idx)
                        implies (forall|j: int|
                        0 <= j < plan@.len() ==> s.contains(#[trigger] plan@[j])) by {
                        assert(crate::graph::closed_toward(s, edges, false));
                        assert(crate::graph::subset_of_marked(marked@, s));
                        assert forall|j: int| 0 <= j < plan@.len() implies s.contains(
                            #[trigger] plan@[j]) by {
                            assert(marked@[plan@[j] as int]);
                            assert(plan@[j] < self.graph.n);
                            assert(s.contains(plan@[j]));
                        }
                    }
                }
                Ok(plan)
            }
        }
    }

    /// The jails a `down` touches, as indices in stop order: every
    /// jail, or, under a target, the target and its descendants -- the
    /// jails that depend on it, directly or through others -- and
    /// nothing else.  Every dependent of a planned jail is planned, and
    /// planned first.
    pub fn down_plan(&self, target: Option<&str>) -> (r: Result<Vec<usize>, Error>)
        requires
            self.wf(),
        ensures
            r is Ok <==> (crate::graph::has_topo_order(self.graph.n as nat, self.graph.edges@)
                && (target matches Some(t) ==> crate::manifest::spec_find_jail(
                self.config.config, self.config.jails@, t@) is Some)),
            r matches Ok(o) ==> {
                &&& forall|i: int| 0 <= i < o@.len() ==> (#[trigger] o@[i]) < self.graph.n
                &&& forall|i: int, j: int| 0 <= i < j < o@.len() ==> o@[i] != o@[j]
                &&& respects_edges(o@.reverse(), self.graph.edges@)
                &&& forall|e: int|
                    0 <= e < self.graph.edges@.len() && o@.contains(
                        (#[trigger] self.graph.edges@[e]).0) ==> o@.contains(
                        self.graph.edges@[e].1)
                &&& (target is None ==> o@ == crate::graph::spec_topo_order(
                    self.graph.n as nat, self.graph.edges@).reverse())
            },
            r matches Ok(o) ==> target matches Some(t) ==> ({
                let idx = crate::manifest::spec_find_jail(
                    self.config.config, self.config.jails@, t@)->Some_0;
                &&& o@.contains(idx)
                &&& forall|s: Set<usize>|
                    #![trigger crate::graph::succ_closed(s, self.graph.edges@)]
                    crate::graph::succ_closed(s, self.graph.edges@) && s.contains(idx)
                        ==> forall|j: int|
                        0 <= j < o@.len() ==> s.contains(#[trigger] o@[j])
            }),
    {
        let order = match self.stop_order_indices() {
            Ok(o) => o,
            Err(e) => {
                return Err(e);
            }
        };
        proof {
            lemma_reverse_topo_props(order@, self.graph.n as nat, self.graph.edges@);
        }
        match target {
            None => {
                proof {
                    lemma_full_order_contains(order@.reverse(), self.graph.n as nat);
                    assert forall|e: int|
                        0 <= e < self.graph.edges@.len() && order@.contains(
                            (#[trigger] self.graph.edges@[e]).0) implies order@.contains(
                        self.graph.edges@[e].1) by {
                        assert(self.graph.edges@[e].1 < self.graph.n);
                        assert(order@.reverse().contains(self.graph.edges@[e].1));
                        let q = choose|q: int|
                            0 <= q < order@.reverse().len() && order@.reverse()[q]
                                == self.graph.edges@[e].1;
                        assert(order@[order@.len() - 1 - q] == self.graph.edges@[e].1);
                    }
                }
                Ok(order)
            }
            Some(name) => {
                let idx = match self.config.find_jail(name) {
                    Some(i) => i,
                    None => {
                        return Err(Error::JailNotFound(name.to_owned()));
                    }
                };
                let marked = self.graph.mark_reach(idx, true);
                let mut plan: Vec<usize> = Vec::new();
                let ghost mut pmap: Seq<int> = Seq::empty();
                let mut p: usize = 0;
                while p < order.len()
                    invariant
                        self.wf(),
                        is_topo_order(order@.reverse(), self.graph.n as nat, self.graph.edges@),
                        forall|j: int|
                            0 <= j < order@.len() ==> (#[trigger] order@[j]) < self.graph.n,
                        forall|j1: int, j2: int|
                            0 <= j1 < j2 < order@.len() ==> order@[j1] != order@[j2],
                        marked@.len() == self.graph.n,
                        p <= order@.len(),
                        pmap.len() == plan@.len(),
                        forall|j: int| 0 <= j < pmap.len() ==> 0 <= #[trigger] pmap[j] < p,
                        forall|j1: int, j2: int|
                            0 <= j1 < j2 < pmap.len() ==> pmap[j1] < pmap[j2],
                        forall|j: int|
                            0 <= j < plan@.len() ==> (#[trigger] plan@[j]) == order@[pmap[j]],
                        forall|j: int|
                            0 <= j < plan@.len() ==> marked@[(#[trigger] plan@[j]) as int],
                        forall|q: int|
                            0 <= q < p && marked@[(#[trigger] order@[q]) as int]
                                ==> plan@.contains(order@[q]),
                    decreases order@.len() - p,
                {
                    let u = order[p];
                    let ghost pre_plan = plan@;
                    if marked[u] {
                        plan.push(u);
                        proof {
                            pmap = pmap.push(p as int);
                            assert(plan@[plan@.len() - 1] == u);
                        }
                    }
                    proof {
                        assert forall|q: int|
                            0 <= q < p + 1 && marked@[(#[trigger] order@[q]) as int]
                            implies plan@.contains(order@[q]) by {
                            if q < p {
                                assert(pre_plan.contains(order@[q]));
                                let j = choose|j: int|
                                    0 <= j < pre_plan.len() && pre_plan[j] == order@[q];
                                assert(plan@[j] == order@[q]);
                            } else {
                                assert(plan@[plan@.len() - 1] == order@[q]);
                            }
                        }
                    }
                    p = p + 1;
                }
                proof {
                    let edges = self.graph.edges@;
                    let n = self.graph.n as nat;
                    lemma_full_order_contains(order@.reverse(), n);
                    assert(order@.reverse().contains(idx));
                    let qr = choose|q: int|
                        0 <= q < order@.reverse().len() && order@.reverse()[q] == idx;
                    assert(order@[order@.len() - 1 - qr] == idx);
                    assert(marked@[(order@[order@.len() - 1 - qr]) as int]);
                    assert(plan@.contains(idx));
                    assert forall|i2: int| 0 <= i2 < plan@.len() implies (#[trigger] plan@[i2])
                        < self.graph.n by {
                        assert(plan@[i2] == order@[pmap[i2]]);
                    }
                    assert forall|i2: int, j2: int| 0 <= i2 < j2 < plan@.len()
                        implies plan@[i2] != plan@[j2] by {
                        assert(pmap[i2] < pmap[j2]);
                        assert(plan@[i2] == order@[pmap[i2]]);
                        assert(plan@[j2] == order@[pmap[j2]]);
                    }
                    assert forall|i2: int, j2: int, k2: int|
                        #![trigger plan@.reverse()[i2], plan@.reverse()[j2], edges[k2]]
                        0 <= k2 < edges.len() && 0 <= i2 < plan@.len() && 0 <= j2 < plan@.len()
                            && plan@.reverse()[i2] == edges[k2].0 && plan@.reverse()[j2]
                            == edges[k2].1 implies i2 < j2 by {
                        let ri = plan@.len() - 1 - i2;
                        let rj = plan@.len() - 1 - j2;
                        assert(plan@[ri] == edges[k2].0);
                        assert(plan@[rj] == edges[k2].1);
                        assert(order@[pmap[ri]] == edges[k2].0);
                        assert(order@[pmap[rj]] == edges[k2].1);
                        assert(order@.reverse()[order@.len() - 1 - pmap[ri]] == edges[k2].0);
                        assert(order@.reverse()[order@.len() - 1 - pmap[rj]] == edges[k2].1);
                        assert(order@.len() - 1 - pmap[ri] < order@.len() - 1 - pmap[rj]);
                        assert(pmap[rj] < pmap[ri]);
                        if i2 > j2 {
                            assert(pmap[ri] < pmap[rj]);
                        }
                        if i2 == j2 {
                            assert(pmap[ri] == pmap[rj]);
                        }
                    }
                    assert forall|e: int|
                        0 <= e < edges.len() && plan@.contains((#[trigger] edges[e]).0)
                        implies plan@.contains(edges[e].1) by {
                        let j = choose|j: int| 0 <= j < plan@.len() && plan@[j] == edges[e].0;
                        assert(marked@[edges[e].0 as int]);
                        assert(marked@[crate::graph::edge_src(edges[e], true) as int]);
                        assert(marked@[crate::graph::edge_dst(edges[e], true) as int]);
                        assert(edges[e].1 < self.graph.n);
                        assert(order@.reverse().contains(edges[e].1));
                        let q = choose|q: int|
                            0 <= q < order@.reverse().len() && order@.reverse()[q]
                                == edges[e].1;
                        assert(order@[order@.len() - 1 - q] == edges[e].1);
                        assert(marked@[(order@[order@.len() - 1 - q]) as int]);
                        assert(plan@.contains(order@[order@.len() - 1 - q]));
                    }
                    assert forall|s: Set<usize>|
                        crate::graph::succ_closed(s, edges) && s.contains(idx)
                        implies (forall|j: int|
                        0 <= j < plan@.len() ==> s.contains(#[trigger] plan@[j])) by {
                        assert(crate::graph::closed_toward(s, edges, true));
                        assert(crate::graph::subset_of_marked(marked@, s));
                        assert forall|j: int| 0 <= j < plan@.len() implies s.contains(
                            #[trigger] plan@[j]) by {
                            assert(marked@[plan@[j] as int]);
                            assert(plan@[j] < self.graph.n);
                            assert(s.contains(plan@[j]));
                        }
                    }
                }
                Ok(plan)
            }
        }
    }
}

impl Bridge {
    /// The reserved-address set of the pool at index `p`.
    pub open spec fn pool_reserved(self, p: int) -> Set<u128> {
        self.ip_allocator.pools@[p].1.reserved()
    }

    /// Gate one jail start on the token bucket at time `now`: whether
    /// the start may proceed, and for how long to wait otherwise.  A
    /// bucket of capacity zero never admits a start: with the capacity
    /// configured to zero no jail can start.
    pub fn start_gate(&mut self, now_ms: u64) -> (r: (bool, u64))
        requires
            old(self).wf(),
            now_ms >= old(self).bucket.last_refill_ms,
        ensures
            final(self).wf(),
            final(self).config == old(self).config,
            final(self).instances == old(self).instances,
            final(self).allocated_ips == old(self).allocated_ips,
            final(self).vnet_setups == old(self).vnet_setups,
            final(self).ip_allocator == old(self).ip_allocator,
            r.0 <==> old(self).bucket.spec_refilled(now_ms) >= 1000,
            old(self).bucket.capacity_milli == 0 ==> !r.0,
            // a granted start consumes exactly one token; a refused one
            // consumes none and reports the wait
            final(self).bucket.capacity_milli == old(self).bucket.capacity_milli,
            final(self).bucket.refill_milli_per_sec == old(self).bucket.refill_milli_per_sec,
            final(self).bucket.last_refill_ms == now_ms,
            r.0 ==> final(self).bucket.tokens_milli == old(self).bucket.spec_refilled(now_ms)
                - 1000,
            !r.0 ==> final(self).bucket.tokens_milli == old(self).bucket.spec_refilled(now_ms),
            !r.0 && old(self).bucket.refill_milli_per_sec > 0 ==> r.1 == ((1000 - old(
                self).bucket.spec_refilled(now_ms)) * 1000 + old(
                self).bucket.refill_milli_per_sec - 1) / (
            old(self).bucket.refill_milli_per_sec as int),
            !r.0 && old(self).bucket.refill_milli_per_sec == 0 ==> r.1 == u64::MAX,
    {
        self.bucket.check(now_ms)
    }

    /// Refuse a start for a jail the kernel already runs: the caller
    /// reports whether the kernel knows the name, and a known name is
    /// rejected with `JailAlreadyRunning` while nothing changes.
    pub fn start_begin(&self, idx: usize, kernel_running: bool) -> (r: Result<(), Error>)
        requires
            self.wf(),
            idx < self.config.jails@.len(),
        ensures
            r is Ok <==> !kernel_running,
            r matches Err(e) ==> e matches Error::JailAlreadyRunning(n) && n@
                == self.config.jails@[idx as int].name@,
    {
        if kernel_running {
            Err(Error::JailAlreadyRunning(self.config.jails[idx].name.clone()))
        } else {
            Ok(())
        }
    }

    /// Resolve the address of jail `idx` per the manifest: a static
    /// address is reserved in each attached pool (a reservation that
    /// fails is ignored: the address may lie outside the pool) and not
    /// owned; otherwise an address is allocated from the first attached
    /// network and owned; a jail without networks gets none.
    pub fn resolve_ip(&mut self, idx: usize) -> (r: Result<Option<IpAddress>, Error>)
        requires
            old(self).wf(),
            idx < old(self).config.jails@.len(),
            old(self).allocated_ips@[idx as int] is None,
        ensures
            final(self).wf(),
            final(self).config == old(self).config,
            final(self).instances == old(self).instances,
            final(self).vnet_setups == old(self).vnet_setups,
            final(self).bulkhead == old(self).bulkhead,
            final(self).allocated_ips@.len() == old(self).allocated_ips@.len(),
            forall|j: int|
                0 <= j < old(self).allocated_ips@.len() && j != idx ==> final(
                self).allocated_ips@[j] == old(self).allocated_ips@[j],
            match old(self).config.jails@[idx as int].network {
                Some(net) => {
                    if net.ip is Some {
                        r == Ok::<Option<IpAddress>, Error>(net.ip) && final(
                            self).allocated_ips@[idx as int] is None
                    } else if net.networks@.len() > 0 {
                        // success is owed exactly when the first attached
                        // network has a pool with a free host, and then the
                        // result carries the allocated address
                        ((exists|p: int|
                            0 <= p < old(self).ip_allocator.pools@.len() && (
                            #[trigger] old(self).ip_allocator.pools@[p]).0@
                                == net.networks@[0]@) ==> exists|p: int|
                            0 <= p < old(self).ip_allocator.pools@.len() && (
                            #[trigger] old(self).ip_allocator.pools@[p]).0@
                                == net.networks@[0]@ && (forall|q: int|
                                0 <= q < p ==> (#[trigger] old(
                                self).ip_allocator.pools@[q]).0@ != net.networks@[0]@) && (r
                                is Ok <==> crate::ip::pool_has_free(
                                old(self).ip_allocator.pools@[p].1)))
                            && ((forall|p: int|
                            0 <= p < old(self).ip_allocator.pools@.len() ==> (
                            #[trigger] old(self).ip_allocator.pools@[p]).0@
                                != net.networks@[0]@) ==> r is Err)
                            && (r matches Ok(o) ==> o is Some)
                            && (r is Err ==> final(self).allocated_ips == old(
                            self).allocated_ips && final(self).ip_allocator.pools@ == old(
                            self).ip_allocator.pools@)
                            && (r matches Ok(Some(ip)) ==> (final(self).allocated_ips@[idx as int]
                            matches Some(a) && a.0@ == net.networks@[0]@ && a.1 == ip)
                            && (exists|p: int|
                            0 <= p < old(self).ip_allocator.pools@.len() && (
                            #[trigger] old(self).ip_allocator.pools@[p]).0@
                                == net.networks@[0]@ && (forall|q: int|
                                0 <= q < p ==> (#[trigger] old(
                                self).ip_allocator.pools@[q]).0@ != net.networks@[0]@)
                                && !old(self).ip_allocator.pools@[p].1.reserved().contains(
                                ip.spec_bits()) && final(
                                self).ip_allocator.pools@[p].1.reserved() =~= old(
                                self).ip_allocator.pools@[p].1.reserved().insert(
                                ip.spec_bits()) && ip.spec_bits() != old(
                                self).ip_allocator.pools@[p].1.gateway))
                    } else {
                        r == Ok::<Option<IpAddress>, Error>(None) && final(
                            self).allocated_ips@[idx as int] is None && final(
                            self).ip_allocator == old(self).ip_allocator
                    }
                }
                None => r == Ok::<Option<IpAddress>, Error>(None) && final(
                    self).allocated_ips@[idx as int] is None && final(self).ip_allocator
                    == old(self).ip_allocator,
            },
    {
        let has_net = matches!(self.config.jails[idx].network, Some(_));
        if !has_net {
            return Ok(None);
        }
        let static_ip = match &self.config.jails[idx].network {
            Some(net) => net.ip,
            None => None,
        };
        match static_ip {
            Some(ip) => {
                let count = match &self.config.jails[idx].network {
                    Some(net) => net.networks.len(),
                    None => 0,
                };
                let mut k: usize = 0;
                while k < count
                    invariant
                        old(self).wf(),
                        idx < self.config.jails@.len(),
                        self.config == old(self).config,
                        self.instances == old(self).instances,
                        self.vnet_setups == old(self).vnet_setups,
                        self.bulkhead == old(self).bulkhead,
                        self.allocated_ips == old(self).allocated_ips,
                        self.graph == old(self).graph,
                        self.bucket == old(self).bucket,
                        self.ip_allocator.wf(),
                        self.ip_allocator.pools@.len() == old(self).ip_allocator.pools@.len(),
                        count == (match self.config.jails@[idx as int].network {
                            Some(net) => net.networks@.len(),
                            None => 0,
                        }),
                        k <= count,
                    decreases count - k,
                {
                    let net_name = match &self.config.jails[idx].network {
                        Some(net) => net.networks[k].clone(),
                        None => String::new(),
                    };
                    let _ = self.ip_allocator.allocate_specific(net_name.as_str(), ip);
                    k = k + 1;
                }
                Ok(Some(ip))
            }
            None => {
                let first = match &self.config.jails[idx].network {
                    Some(net) => {
                        if net.networks.len() > 0 {
                            Some(net.networks[0].clone())
                        } else {
                            None
                        }
                    }
                    None => None,
                };
                match first {
                    Some(net_name) => {
                        let ip = match self.ip_allocator.allocate(net_name.as_str()) {
                            Ok(ip) => ip,
                            Err(e) => {
                                return Err(e);
                            }
                        };
                        self.allocated_ips.set(idx, Some((net_name, ip)));
                        Ok(Some(ip))
                    }
                    None => Ok(None),
                }
            }
        }
    }

    /// Release the address a start allocated for jail `idx`, if one is
    /// recorded: the pool takes it back and the record clears.
    pub fn release_ip(&mut self, idx: usize)
        requires
            old(self).wf(),
            idx < old(self).config.jails@.len(),
        ensures
            final(self).wf(),
            final(self).config == old(self).config,
            final(self).instances == old(self).instances,
            final(self).vnet_setups == old(self).vnet_setups,
            final(self).bulkhead == old(self).bulkhead,
            final(self).allocated_ips@.len() == old(self).allocated_ips@.len(),
            final(self).allocated_ips@[idx as int] is None,
            forall|j: int|
                0 <= j < old(self).allocated_ips@.len() && j != idx ==> final(
                self).allocated_ips@[j] == old(self).allocated_ips@[j],
            old(self).allocated_ips@[idx as int] is None ==> final(self).ip_allocator == old(
                self).ip_allocator,
            final(self).ip_allocator.pools@.len() == old(self).ip_allocator.pools@.len(),
            forall|p: int|
                0 <= p < old(self).ip_allocator.pools@.len() ==> (
                #[trigger] final(self).ip_allocator.pools@[p]).0 == old(
                self).ip_allocator.pools@[p].0,
            old(self).allocated_ips@[idx as int] matches Some(a) ==> forall|p: int|
                0 <= p < old(self).ip_allocator.pools@.len() && (
                #[trigger] old(self).ip_allocator.pools@[p]).0@ != a.0@ ==> final(
                self).ip_allocator.pools@[p].1 == old(self).ip_allocator.pools@[p].1,
            // the owning pool takes the address back: its reserved set loses
            // exactly the recorded address (the gateway excepted)
            old(self).allocated_ips@[idx as int] matches Some(a) ==> ((exists|p: int|
                0 <= p < old(self).ip_allocator.pools@.len() && (
                #[trigger] old(self).ip_allocator.pools@[p]).0@ == a.0@) ==> exists|p: int|
                0 <= p < old(self).ip_allocator.pools@.len() && (
                #[trigger] old(self).ip_allocator.pools@[p]).0@ == a.0@ && (forall|q: int|
                    0 <= q < p ==> (#[trigger] old(self).ip_allocator.pools@[q]).0@ != a.0@)
                    && final(self).ip_allocator.pools@[p].1.reserved() =~= (
                if a.1.spec_is_v6() == old(self).ip_allocator.pools@[p].1.subnet.v6
                    && a.1.spec_bits() != old(self).ip_allocator.pools@[p].1.gateway {
                    old(self).ip_allocator.pools@[p].1.reserved().remove(a.1.spec_bits())
                } else {
                    old(self).ip_allocator.pools@[p].1.reserved()
                })),
    {
        let (has, net_name, ip) = match &self.allocated_ips[idx] {
            Some(entry) => (true, entry.0.clone(), entry.1),
            None => (false, String::new(), IpAddress::V4(0)),
        };
        if has {
            proof {
                assert(old(self).allocated_ips@[idx as int] matches Some(a) && a.0@
                    == net_name@ && a.1 == ip);
            }
            self.ip_allocator.release(net_name.as_str(), &ip);
        }
        self.allocated_ips.set(idx, None);
    }

    /// Record the VNET setup a start created for jail `idx`.
    pub fn record_vnet(&mut self, idx: usize, setup: VnetSetup)
        requires
            old(self).wf(),
            idx < old(self).config.jails@.len(),
        ensures
            final(self).wf(),
            final(self).config == old(self).config,
            final(self).instances == old(self).instances,
            final(self).allocated_ips == old(self).allocated_ips,
            final(self).ip_allocator == old(self).ip_allocator,
            final(self).vnet_setups@[idx as int] is Some,
            forall|j: int|
                0 <= j < old(self).vnet_setups@.len() && j != idx ==> final(
                self).vnet_setups@[j] == old(self).vnet_setups@[j],
    {
        self.vnet_setups.set(idx, Some(setup));
    }

    /// Take the VNET record of jail `idx` out, for the caller to tear
    /// down; the record clears.
    pub fn take_vnet(&mut self, idx: usize) -> (r: Option<VnetSetup>)
        requires
            old(self).wf(),
            idx < old(self).config.jails@.len(),
        ensures
            final(self).wf(),
            final(self).config == old(self).config,
            final(self).instances == old(self).instances,
            final(self).allocated_ips == old(self).allocated_ips,
            final(self).ip_allocator == old(self).ip_allocator,
            final(self).bulkhead == old(self).bulkhead,
            final(self).vnet_setups@[idx as int] is None,
            r is Some <==> old(self).vnet_setups@[idx as int] is Some,
            forall|j: int|
                0 <= j < old(self).vnet_setups@.len() && j != idx ==> final(
                self).vnet_setups@[j] == old(self).vnet_setups@[j],
    {
        let ghost pre = self.vnet_setups@;
        let mut slot: Option<VnetSetup> = None;
        let taken = self.vnet_setups.remove(idx);
        self.vnet_setups.insert(idx, slot);
        proof {
            assert forall|j: int|
                0 <= j < self.vnet_setups@.len() && j != idx implies #[trigger] self
                .vnet_setups@[j] == pre[j] by {
                if j < idx {
                    assert(pre.remove(idx as int)[j] == pre[j]);
                } else {
                    assert(pre.remove(idx as int)[j - 1] == pre[j]);
                }
            }
        }
        taken
    }

    /// Mark a failed start: the instance passes through `Starting` into
    /// `Failed`, as the unwind of a start that never reached `Running`.
    pub fn start_failed(&mut self, idx: usize)
        requires
            old(self).wf(),
            idx < old(self).config.jails@.len(),
        ensures
            final(self).wf(),
            final(self).config == old(self).config,
            final(self).allocated_ips == old(self).allocated_ips,
            final(self).vnet_setups == old(self).vnet_setups,
            final(self).ip_allocator == old(self).ip_allocator,
            final(self).instances@[idx as int].state == crate::state::step_or_stay(
                crate::state::step_or_stay(
                    old(self).instances@[idx as int].state, crate::state::Event::Start),
                crate::state::Event::Fail,
            ),
            old(self).instances@[idx as int].state == State::Stopped ==> final(
                self).instances@[idx as int].state == State::Failed,
            forall|j: int|
                0 <= j < old(self).instances@.len() && j != idx ==> final(self).instances@[j]
                    == old(self).instances@[j],
    {
        let ghost pre = self.instances@;
        let mut inst = self.instances.remove(idx);
        let _ = inst.start();
        let _ = inst.fail();
        self.instances.insert(idx, inst);
        proof {
            assert forall|j: int|
                0 <= j < self.instances@.len() && j != idx implies #[trigger] self.instances@[j]
                == pre[j] by {
                if j < idx {
                    assert(pre.remove(idx as int)[j] == pre[j]);
                } else {
                    assert(pre.remove(idx as int)[j - 1] == pre[j]);
                }
            }
        }
    }

    /// Complete a start: the instance passes through `Starting` into
    /// `Running` and records the kernel jail id.
    pub fn start_complete(&mut self, idx: usize, jid: i32)
        requires
            old(self).wf(),
            idx < old(self).config.jails@.len(),
        ensures
            final(self).wf(),
            final(self).config == old(self).config,
            final(self).allocated_ips == old(self).allocated_ips,
            final(self).vnet_setups == old(self).vnet_setups,
            final(self).ip_allocator == old(self).ip_allocator,
            final(self).bulkhead == old(self).bulkhead,
            final(self).instances@[idx as int].jid == Some(jid),
            final(self).instances@[idx as int].state == crate::state::step_or_stay(
                crate::state::step_or_stay(
                    old(self).instances@[idx as int].state, crate::state::Event::Start),
                crate::state::Event::Started,
            ),
            old(self).instances@[idx as int].state == State::Stopped ==> final(
                self).instances@[idx as int].state == State::Running,
            forall|j: int|
                0 <= j < old(self).instances@.len() && j != idx ==> final(self).instances@[j]
                    == old(self).instances@[j],
    {
        let ghost pre = self.instances@;
        let mut inst = self.instances.remove(idx);
        let _ = inst.start();
        let _ = inst.started();
        inst.jid = Some(jid);
        self.instances.insert(idx, inst);
        proof {
            assert forall|j: int|
                0 <= j < self.instances@.len() && j != idx implies #[trigger] self.instances@[j]
                == pre[j] by {
                if j < idx {
                    assert(pre.remove(idx as int)[j] == pre[j]);
                } else {
                    assert(pre.remove(idx as int)[j - 1] == pre[j]);
                }
            }
        }
    }

    /// Recover a failed instance to `Stopped`, as the supervisor does
    /// before it restarts a jail.
    pub fn recover_instance(&mut self, idx: usize)
        requires
            old(self).wf(),
            idx < old(self).config.jails@.len(),
        ensures
            final(self).wf(),
            final(self).config == old(self).config,
            final(self).allocated_ips == old(self).allocated_ips,
            final(self).vnet_setups == old(self).vnet_setups,
            final(self).ip_allocator == old(self).ip_allocator,
            final(self).instances@[idx as int].state == crate::state::step_or_stay(
                old(self).instances@[idx as int].state, crate::state::Event::Recover),
            old(self).instances@[idx as int].state == State::Failed ==> final(
                self).instances@[idx as int].state == State::Stopped,
            old(self).instances@[idx as int].state != State::Failed ==> final(
                self).instances@[idx as int] == old(self).instances@[idx as int],
            forall|j: int|
                0 <= j < old(self).instances@.len() && j != idx ==> final(self).instances@[j]
                    == old(self).instances@[j],
    {
        let ghost pre = self.instances@;
        let mut inst = self.instances.remove(idx);
        let _ = inst.recover();
        self.instances.insert(idx, inst);
        proof {
            assert(self.instances@[idx as int] == inst);
            assert forall|j: int|
                0 <= j < self.instances@.len() && j != idx implies #[trigger] self.instances@[j]
                == pre[j] by {
                if j < idx {
                    assert(pre.remove(idx as int)[j] == pre[j]);
                } else {
                    assert(pre.remove(idx as int)[j - 1] == pre[j]);
                }
            }
        }
    }

    /// Complete a stop: the instance passes through `Stopping` into
    /// `Stopped`, the jail id clears, and the jail's allocated address
    /// returns to its pool; the VNET record is handed out for teardown.
    /// After a completed start, this restores the accounting the start
    /// changed: no address owned, no VNET record, no jail id.
    pub fn stop_complete(&mut self, idx: usize) -> (r: Option<VnetSetup>)
        requires
            old(self).wf(),
            idx < old(self).config.jails@.len(),
        ensures
            final(self).wf(),
            final(self).config == old(self).config,
            final(self).bulkhead == old(self).bulkhead,
            final(self).instances@[idx as int].jid is None,
            final(self).instances@[idx as int].state == crate::state::step_or_stay(
                crate::state::step_or_stay(
                    old(self).instances@[idx as int].state, crate::state::Event::Stop),
                crate::state::Event::Stopped,
            ),
            old(self).instances@[idx as int].state == State::Running ==> final(
                self).instances@[idx as int].state == State::Stopped,
            final(self).allocated_ips@[idx as int] is None,
            final(self).vnet_setups@[idx as int] is None,
            r is Some <==> old(self).vnet_setups@[idx as int] is Some,
            forall|j: int|
                0 <= j < old(self).instances@.len() && j != idx ==> final(self).instances@[j]
                    == old(self).instances@[j],
            forall|j: int|
                0 <= j < old(self).allocated_ips@.len() && j != idx ==> final(
                self).allocated_ips@[j] == old(self).allocated_ips@[j],
            forall|j: int|
                0 <= j < old(self).vnet_setups@.len() && j != idx ==> final(
                self).vnet_setups@[j] == old(self).vnet_setups@[j],
            old(self).allocated_ips@[idx as int] is None ==> final(self).ip_allocator == old(
                self).ip_allocator,
            // the owning pool takes the allocated address back
            old(self).allocated_ips@[idx as int] matches Some(a) ==> ((exists|p: int|
                0 <= p < old(self).ip_allocator.pools@.len() && (
                #[trigger] old(self).ip_allocator.pools@[p]).0@ == a.0@) ==> exists|p: int|
                0 <= p < old(self).ip_allocator.pools@.len() && (
                #[trigger] old(self).ip_allocator.pools@[p]).0@ == a.0@ && (forall|q: int|
                    0 <= q < p ==> (#[trigger] old(self).ip_allocator.pools@[q]).0@ != a.0@)
                    && final(self).ip_allocator.pools@[p].1.reserved() =~= (
                if a.1.spec_is_v6() == old(self).ip_allocator.pools@[p].1.subnet.v6
                    && a.1.spec_bits() != old(self).ip_allocator.pools@[p].1.gateway {
                    old(self).ip_allocator.pools@[p].1.reserved().remove(a.1.spec_bits())
                } else {
                    old(self).ip_allocator.pools@[p].1.reserved()
                })),
    {
        let ghost pre = self.instances@;
        let mut inst = self.instances.remove(idx);
        let _ = inst.stop();
        let _ = inst.stopped();
        inst.jid = None;
        self.instances.insert(idx, inst);
        proof {
            assert forall|j: int|
                0 <= j < self.instances@.len() && j != idx implies #[trigger] self.instances@[j]
                == pre[j] by {
                if j < idx {
                    assert(pre.remove(idx as int)[j] == pre[j]);
                } else {
                    assert(pre.remove(idx as int)[j - 1] == pre[j]);
                }
            }
        }
        let vnet = self.take_vnet(idx);
        self.release_ip(idx);
        vnet
    }

    /// Best-effort cleanup of one jail's records, whatever its state:
    /// the instance record resets to a fresh `Stopped` one, the address
    /// returns to its pool, and the VNET record is handed out.  On a
    /// jail that was never started — nothing allocated, nothing
    /// recorded, instance fresh — this changes nothing at all.
    pub fn cleanup_record(&mut self, idx: usize) -> (r: Option<VnetSetup>)
        requires
            old(self).wf(),
            idx < old(self).config.jails@.len(),
        ensures
            final(self).wf(),
            final(self).config == old(self).config,
            final(self).bulkhead == old(self).bulkhead,
            final(self).instances@[idx as int].state == State::Stopped,
            final(self).instances@[idx as int].jid is None,
            final(self).instances@[idx as int].config.name@ == old(self).config.jails@[
                idx as int].name@,
            final(self).allocated_ips@[idx as int] is None,
            final(self).vnet_setups@[idx as int] is None,
            r is Some <==> old(self).vnet_setups@[idx as int] is Some,
            forall|j: int|
                0 <= j < old(self).instances@.len() && j != idx ==> final(self).instances@[j]
                    == old(self).instances@[j],
            forall|j: int|
                0 <= j < old(self).allocated_ips@.len() && j != idx ==> final(
                self).allocated_ips@[j] == old(self).allocated_ips@[j],
            forall|j: int|
                0 <= j < old(self).vnet_setups@.len() && j != idx ==> final(
                self).vnet_setups@[j] == old(self).vnet_setups@[j],
            // a never-started jail is a no-op: the pools do not move
            old(self).allocated_ips@[idx as int] is None ==> final(self).ip_allocator == old(
                self).ip_allocator,
    {
        let ghost pre = self.instances@;
        let name = self.config.jails[idx].name.clone();
        let fresh = JailInstance::new(JailConfig::new(name.as_str(), ""));
        let mut inst = self.instances.remove(idx);
        self.instances.insert(idx, fresh);
        proof {
            assert forall|j: int|
                0 <= j < self.instances@.len() && j != idx implies #[trigger] self.instances@[j]
                == pre[j] by {
                if j < idx {
                    assert(pre.remove(idx as int)[j] == pre[j]);
                } else {
                    assert(pre.remove(idx as int)[j - 1] == pre[j]);
                }
            }
        }
        let vnet = self.take_vnet(idx);
        self.release_ip(idx);
        vnet
    }

    /// Add a port forward for a jail: the jail must have a configured
    /// address.  Returns the forward and the new anchor body to load.
    pub fn expose_port(
        &mut self,
        jail_name: &str,
        external_port: u16,
        internal_port: Option<u16>,
        protocol: &str,
        bind_ip: Option<IpAddress>,
    ) -> (r: Result<(PortForward, String), Error>)
        requires
            old(self).wf(),
        ensures
            final(self).wf(),
            final(self).config == old(self).config,
            final(self).instances == old(self).instances,
            final(self).allocated_ips == old(self).allocated_ips,
            final(self).vnet_setups == old(self).vnet_setups,
            final(self).ip_allocator == old(self).ip_allocator,
            // success is owed exactly when the name finds a jail with a
            // configured address; each rejection names its reason, and
            // a rejection changes nothing
            r is Ok <==> (crate::manifest::spec_find_jail(
                old(self).config.config, old(self).config.jails@, jail_name@) matches Some(i)
                && spec_cfg_ip(old(self).config.jails@[i as int]) is Some),
            crate::manifest::spec_find_jail(
                old(self).config.config, old(self).config.jails@, jail_name@) is None ==> (r
                matches Err(e) && e is JailNotFound),
            (crate::manifest::spec_find_jail(
                old(self).config.config, old(self).config.jails@, jail_name@) matches Some(i)
                && spec_cfg_ip(old(self).config.jails@[i as int]) is None) ==> (r
                matches Err(e) && e is Network),
            r matches Ok(p) ==> {
                &&& final(self).bulkhead.forwards@ == old(self).bulkhead.forwards@.push(p.0)
                &&& p.1@ == crate::pf::spec_rules_text(final(self).bulkhead.forwards@)
                &&& p.0.external_port == external_port
                &&& p.0.internal_port == (match internal_port {
                    Some(ip) => ip,
                    None => external_port,
                })
                &&& p.0.protocol@ == protocol@
                &&& p.0.jail_name@ == jail_name@
                &&& p.0.bind_ip == bind_ip
                &&& (crate::manifest::spec_find_jail(
                    old(self).config.config, old(self).config.jails@, jail_name@)
                    matches Some(i) && Some(p.0.jail_ip) == spec_cfg_ip(
                    old(self).config.jails@[i as int]))
            },
            r is Err ==> final(self).bulkhead == old(self).bulkhead,
    {
        let idx = match self.config.find_jail(jail_name) {
            Some(i) => i,
            None => {
                return Err(Error::JailNotFound(jail_name.to_owned()));
            }
        };
        let jail_ip = match &self.config.jails[idx].network {
            Some(net) => match net.ip {
                Some(ip) => ip,
                None => {
                    return Err(Error::Network(String::from_str(
                        "the jail has no configured address")));
                }
            },
            None => {
                return Err(Error::Network(String::from_str(
                    "the jail has no configured address")));
            }
        };
        let internal = match internal_port {
            Some(p) => p,
            None => external_port,
        };
        let mut forward = PortForward::new(external_port, internal, protocol, jail_ip,
            jail_name);
        match bind_ip {
            Some(ip) => {
                forward = forward.with_bind_ip(ip);
            }
            None => {}
        }
        let kept = forward.duplicate();
        let text = self.bulkhead.add_forward(forward);
        proof {
            assert(final(self).bulkhead.forwards@ =~= old(self).bulkhead.forwards@.push(kept));
        }
        Ok((kept, text))
    }

    /// Drop every forward of a jail; returns the new anchor body.
    pub fn remove_port_forwards(&mut self, jail_name: &str) -> (r: String)
        requires
            old(self).wf(),
        ensures
            final(self).wf(),
            final(self).config == old(self).config,
            final(self).instances == old(self).instances,
            final(self).allocated_ips == old(self).allocated_ips,
            final(self).vnet_setups == old(self).vnet_setups,
            final(self).ip_allocator == old(self).ip_allocator,
            final(self).bulkhead.forwards@ == crate::pf::spec_without_jail(
                old(self).bulkhead.forwards@, jail_name@),
            r@ == crate::pf::spec_rules_text(final(self).bulkhead.forwards@),
    {
        self.bulkhead.remove_jail_forwards(jail_name)
    }

    /// The current forwards, in table order.
    pub fn list_port_forwards(&self) -> (r: &Vec<PortForward>)
        ensures
            r == self.bulkhead.forwards,
    {
        self.bulkhead.list_forwards()
    }

    /// The forwards of one jail, in table order.
    pub fn get_jail_port_forwards(&self, jail_name: &str) -> (r: Vec<PortForward>)
        ensures
            r@ == crate::pf::spec_without_jail_complement(
                self.bulkhead.forwards@, jail_name@),
    {
        self.bulkhead.get_jail_forwards(jail_name)
    }
}

/// The address configured for a jail in the manifest, when one is.
pub open spec fn spec_cfg_ip(j: crate::manifest::JailDef) -> Option<IpAddress> {
    match j.network {
        Some(n) => n.ip,
        None => None,
    }
}

/// Starting a jail and then stopping it leaves the address pool exactly
/// where it was: the allocation inserted a fresh address into the
/// reserved set and the release removed that very address.  With the
/// instance's jail id and VNET record also cleared by the stop, the
/// orchestrator's accounting after up-then-down equals its accounting
/// before the up.
pub proof fn lemma_up_down_restores_pool(reserved_before: Set<u128>, b: u128)
    requires
        !reserved_before.contains(b),
    ensures
        reserved_before.insert(b).remove(b) =~= reserved_before,
{
}

/// Every dependency name of the manifest is the name of some jail.
pub open spec fn spec_deps_resolve(jails: Seq<crate::manifest::JailDef>) -> bool {
    forall|i: int, k: int|
        0 <= i < jails.len() && 0 <= k < jails[i].depends_on@.len() ==> exists|j: int|
            0 <= j < jails.len() && jails[j].name@ == (#[trigger] jails[i].depends_on@[k])@
}

/// The edge records a dependency of the manifest: its target jail names
/// the source jail in `depends_on`.
pub open spec fn edge_from_dep(
    jails: Seq<crate::manifest::JailDef>,
    e: (usize, usize),
) -> bool {
    &&& (e.0 as int) < jails.len()
    &&& (e.1 as int) < jails.len()
    &&& exists|k: int|
        0 <= k < jails[e.1 as int].depends_on@.len() && (#[trigger] jails[e.1
            as int].depends_on@[k])@ == jails[e.0 as int].name@
}

/// The subnet a network's CIDR text denotes: the parsed address with its
/// host bits cleared, under the parsed prefix.
pub open spec fn spec_net_subnet(net: crate::manifest::NetworkConfig) -> crate::ip::Subnet {
    let s = net.subnet@;
    let i = crate::text::first_sep(s, '/');
    let a = crate::ip::spec_net_addr(s.take(i as int))->Some_0;
    let prefix = crate::text::dec_value(s.skip(i as int + 1)) as u8;
    let width: nat = if a.spec_is_v6() {
        128
    } else {
        32
    };
    let span = vstd::arithmetic::power2::pow2((width - prefix) as nat);
    crate::ip::Subnet {
        v6: a.spec_is_v6(),
        base: (a.spec_bits() as nat - (a.spec_bits() as nat % span)) as u128,
        prefix,
    }
}

/// A network definition is sound: its subnet text splits into an
/// address and a prefix, the address parses, the prefix fits the
/// family, and a given gateway lies in the subnet.
pub open spec fn spec_network_ok(net: crate::manifest::NetworkConfig) -> bool {
    let s = net.subnet@;
    let i = crate::text::first_sep(s, '/');
    &&& crate::netif::spec_addr_prefix_ok(s)
    &&& i < s.len()
    &&& crate::ip::spec_net_addr(s.take(i as int)) matches Some(a) && ({
        let prefix = crate::text::dec_value(s.skip(i as int + 1));
        &&& prefix <= (if a.spec_is_v6() {
            128int
        } else {
            32int
        })
        &&& (net.gateway matches Some(gw) ==> spec_net_subnet(net).spec_contains(gw))
    })
}

/// Some edge of the set runs from the jail named by dependency `k` of
/// jail `i` to jail `i`.
pub open spec fn dep_edge_exists(
    jails: Seq<crate::manifest::JailDef>,
    edges: Seq<(usize, usize)>,
    i: int,
    k: int,
) -> bool {
    exists|e: int|
        0 <= e < edges.len() && (#[trigger] edges[e]).1 == i && jails[edges[e].0 as int].name@
            == jails[i].depends_on@[k]@
}

/// Extending the edge set preserves every covering edge.
proof fn lemma_dep_edge_grow(
    jails: Seq<crate::manifest::JailDef>,
    e1: Seq<(usize, usize)>,
    e2: Seq<(usize, usize)>,
    i: int,
    k: int,
)
    requires
        dep_edge_exists(jails, e1, i, k),
        e2.len() >= e1.len(),
        forall|j: int| 0 <= j < e1.len() ==> #[trigger] e2[j] == e1[j],
    ensures
        dep_edge_exists(jails, e2, i, k),
{
    let e = choose|e: int|
        0 <= e < e1.len() && (#[trigger] e1[e]).1 == i && jails[e1[e].0 as int].name@
            == jails[i].depends_on@[k]@;
    assert(e2[e] == e1[e]);
}

/// A full topological order contains every node.
proof fn lemma_full_order_contains(o: Seq<usize>, n: nat)
    requires
        o.len() == n,
        n <= usize::MAX,
        forall|i: int| 0 <= i < o.len() ==> (#[trigger] o[i]) < n,
        forall|i: int, j: int| 0 <= i < j < o.len() ==> o[i] != o[j],
    ensures
        forall|u: usize| u < n ==> o.contains(u),
{
    crate::graph::lemma_full_coverage(o, n);
}

/// A reversed topological order: its elements are the nodes, distinct,
/// and its reverse respects the edges.
proof fn lemma_reverse_topo_props(o: Seq<usize>, n: nat, edges: Seq<(usize, usize)>)
    requires
        is_topo_order(o.reverse(), n, edges),
    ensures
        forall|i: int| 0 <= i < o.len() ==> (#[trigger] o[i]) < n,
        forall|i: int, j: int| 0 <= i < j < o.len() ==> o[i] != o[j],
        respects_edges(o.reverse(), edges),
{
    assert forall|i: int| 0 <= i < o.len() implies (#[trigger] o[i]) < n by {
        assert(o.reverse()[o.len() - 1 - i] == o[i]);
    }
    assert forall|i: int, j: int| 0 <= i < j < o.len() implies o[i] != o[j] by {
        assert(o.reverse()[o.len() - 1 - i] == o[i]);
        assert(o.reverse()[o.len() - 1 - j] == o[j]);
    }
}

} // verus!
