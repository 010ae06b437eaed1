//! The manifest: the validated configuration the orchestrator runs on.
//!
//! The model mirrors the configuration file: global settings, named
//! networks, and jail definitions with dependencies, parameters,
//! networking, hooks and health checks.  Loading the file and decoding
//! its syntax happen outside; the invariants — unique jail names,
//! resolvable dependencies, no self-dependency, a pool when ZFS is on —
//! are checked here.

use vstd::prelude::*;
use vstd::string::*;
use crate::errors::Error;
use crate::health::HealthCheckConfig;
use crate::hooks::Hook;
use crate::ip::IpAddress;

verus! {

/// Global rate-limit settings, in milli-tokens (a capacity of three
/// jails is 3000).
#[derive(Clone, Copy, Debug, PartialEq, Eq, Structural)]
pub struct RateLimitConfig {
    /// Jail-start token bucket capacity, in milli-tokens.
    pub jail_start_capacity_milli: u64,
    /// Health-check bucket capacity, in milli-tokens.
    pub health_capacity_milli: u64,
    /// Health-check bucket refill, in milli-tokens per second.
    pub health_refill_milli_per_sec: u64,
}

impl RateLimitConfig {
    /// The defaults: three jail starts, five health tokens refilling at
    /// half a token per second.
    pub fn new() -> (r: RateLimitConfig)
        ensures
            r.jail_start_capacity_milli == 3000,
            r.health_capacity_milli == 5000,
            r.health_refill_milli_per_sec == 500,
    {
        RateLimitConfig {
            jail_start_capacity_milli: 3000,
            health_capacity_milli: 5000,
            health_refill_milli_per_sec: 500,
        }
    }
}

/// Global health-check timing defaults, in seconds.
#[derive(Clone, Copy, Debug, PartialEq, Eq, Structural)]
pub struct HealthDefaults {
    /// Seconds between checks.
    pub interval: u64,
    /// Seconds before a check times out.
    pub timeout: u64,
    /// Grace seconds after start.
    pub start_period: u64,
    /// Failures before a check counts as failing.
    pub retries: u32,
}

impl HealthDefaults {
    /// The defaults: thirty-second interval, ten-second timeout,
    /// one-minute start period, three retries.
    pub fn new() -> (r: HealthDefaults)
        ensures
            r.interval == 30,
            r.timeout == 10,
            r.start_period == 60,
            r.retries == 3,
    {
        HealthDefaults { interval: 30, timeout: 10, start_period: 60, retries: 3 }
    }
}

/// Retry and backoff settings for fetches, with factors in thousandths.
#[derive(Clone, Copy, Debug, PartialEq, Eq, Structural)]
pub struct RetryConfig {
    /// First delay, in milliseconds.
    pub base_delay_ms: u64,
    /// Cap on any delay, in milliseconds.
    pub max_delay_ms: u64,
    /// Growth factor per attempt, in thousandths.
    pub multiplier_permille: u64,
    /// Attempts before giving up.
    pub max_attempts: u8,
    /// Jitter window width, in thousandths.
    pub jitter_permille: u64,
}

impl RetryConfig {
    /// The defaults: one second doubling up to thirty, five attempts,
    /// quarter-width jitter.
    pub fn new() -> (r: RetryConfig)
        ensures
            r.base_delay_ms == 1000,
            r.max_delay_ms == 30000,
            r.multiplier_permille == 2000,
            r.max_attempts == 5,
            r.jitter_permille == 250,
    {
        RetryConfig {
            base_delay_ms: 1000,
            max_delay_ms: 30000,
            multiplier_permille: 2000,
            max_attempts: 5,
            jitter_permille: 250,
        }
    }
}

/// A named network: a subnet jails can draw addresses from.
#[derive(Clone, Debug)]
pub struct NetworkConfig {
    /// The network's name.
    pub name: String,
    /// The subnet in CIDR notation.
    pub subnet: String,
    /// The gateway, or the first usable host when absent.
    pub gateway: Option<IpAddress>,
}

/// Physical trunk settings for a VLAN-filtering bridge.
#[derive(Clone, Debug)]
pub struct TrunkConfig {
    /// The physical interface.
    pub interface: String,
    /// Tagged VLANs carried on the trunk.
    pub tagged: Vec<u16>,
    /// Whether to clear the NIC's hardware VLAN filter.
    pub disable_hwfilter: bool,
}

/// Bridge VLAN settings.
#[derive(Clone, Debug)]
pub struct BridgeVlanConfig {
    /// The bridge interface name.
    pub name: String,
    /// Whether VLAN filtering is on.
    pub vlan_filtering: bool,
    /// Optional trunk settings.
    pub trunk: Option<TrunkConfig>,
}

/// A jail's DNS settings.
#[derive(Clone, Debug)]
pub struct DnsConfig {
    /// Name servers; empty means inherit.
    pub nameservers: Vec<String>,
    /// Search domains.
    pub search: Vec<String>,
    /// Optional domain.
    pub domain: Option<String>,
    /// `inherit` to copy the host's file, `custom` to generate one.
    pub mode: String,
}

impl DnsConfig {
    /// The default: inherit from the host.
    pub fn new() -> (r: DnsConfig)
        ensures
            r.nameservers@.len() == 0,
            r.search@.len() == 0,
            r.domain is None,
            r.mode@ == "inherit"@,
    {
        DnsConfig {
            nameservers: Vec::new(),
            search: Vec::new(),
            domain: None,
            mode: String::from_str("inherit"),
        }
    }

    /// Whether the host's file is copied: mode `inherit`, or any mode
    /// but `custom` while no name server is given.
    pub fn is_inherit(&self) -> (r: bool)
        ensures
            r == (self.mode@ == "inherit"@ || (self.mode@ != "custom"@ && self.nameservers@.len()
                == 0)),
    {
        crate::text::str_eq(self.mode.as_str(), "inherit") || (!crate::text::str_eq(
            self.mode.as_str(), "custom") && self.nameservers.len() == 0)
    }

    /// The generated resolver file: the domain line, the search line
    /// and one line per name server; nothing when inheriting.
    pub fn to_resolv_conf(&self) -> (r: Option<String>)
        ensures
            r is Some <==> !(self.mode@ == "inherit"@ || (self.mode@ != "custom"@
                && self.nameservers@.len() == 0)),
            r matches Some(t) ==> t@ == spec_resolv_conf(*self),
    {
        if self.is_inherit() {
            return None;
        }
        proof {
            reveal_strlit("domain ");
            reveal_strlit("search ");
            reveal_strlit("nameserver ");
            reveal_strlit(" ");
            reveal_strlit("\n");
            assert(" "@ =~= seq![' ']);
        }
        let mut content = String::new();
        match &self.domain {
            Some(d) => {
                content.append("domain ");
                content.append(d.as_str());
                content.append("\n");
            }
            None => {}
        }
        if self.search.len() > 0 {
            content.append("search ");
            let joined = crate::text::join_strings(&self.search, " ");
            content.append(joined.as_str());
            content.append("\n");
        }
        let ghost head = content@;
        let mut i: usize = 0;
        proof {
            assert(head + spec_ns_lines(self.nameservers@.map_values(|t: String| t@), 0)
                =~= head);
        }
        while i < self.nameservers.len()
            invariant
                i <= self.nameservers@.len(),
                content@ == head + spec_ns_lines_upto(
                    self.nameservers@.map_values(|t: String| t@), i as int),
            decreases self.nameservers@.len() - i,
        {
            content.append("nameserver ");
            content.append(self.nameservers[i].as_str());
            content.append("\n");
            proof {
                reveal_strlit("nameserver ");
                reveal_strlit("\n");
                let views = self.nameservers@.map_values(|t: String| t@);
                assert(views[i as int] == self.nameservers@[i as int]@);
                assert("\n"@ =~= seq!['\n']);
                assert(content@ =~= head + spec_ns_lines_upto(views, i + 1));
            }
            i = i + 1;
        }
        proof {
            assert(content@ =~= spec_resolv_conf(*self));
        }
        Some(content)
    }
}

/// The name-server lines up to index `n`.
pub open spec fn spec_ns_lines_upto(ns: Seq<Seq<char>>, n: int) -> Seq<char>
    decreases n,
{
    if n <= 0 {
        Seq::empty()
    } else {
        spec_ns_lines_upto(ns, n - 1) + "nameserver "@ + ns[n - 1] + seq!['\n']
    }
}

/// All name-server lines.
pub open spec fn spec_ns_lines(ns: Seq<Seq<char>>, n: int) -> Seq<char> {
    spec_ns_lines_upto(ns, 0)
}

/// The full generated resolver file.
pub open spec fn spec_resolv_conf(c: DnsConfig) -> Seq<char> {
    (match c.domain {
        Some(d) => "domain "@ + d@ + seq!['\n'],
        None => Seq::<char>::empty(),
    }) + (if c.search@.len() > 0 {
        "search "@ + crate::text::spec_join(c.search@.map_values(|t: String| t@), seq![' '])
            + seq!['\n']
    } else {
        Seq::<char>::empty()
    }) + spec_ns_lines_upto(c.nameservers@.map_values(|t: String| t@), c.nameservers@.len() as int)
}

/// Volume mounts of a jail.
#[derive(Clone, Debug)]
pub struct JailMountConfig {
    /// Mounts in `host:jail` form.
    pub volumes: Vec<String>,
}

/// A jail's network settings.
#[derive(Clone, Debug)]
pub struct JailNetworkConfig {
    /// Whether the jail gets its own network stack.
    pub vnet: bool,
    /// The bridge a VNET jail attaches to.
    pub bridge: Option<String>,
    /// Named networks the jail draws addresses from.
    pub networks: Vec<String>,
    /// A fixed address.
    pub ip: Option<IpAddress>,
    /// A fixed address with prefix, as text, for VNET jails.
    pub ip_cidr: Option<String>,
    /// The gateway of a VNET jail.
    pub gateway: Option<IpAddress>,
    /// A fixed MAC address.
    pub mac_address: Option<String>,
    /// The untagged VLAN id of the jail's port.
    pub vlan_id: Option<u16>,
    /// DNS settings.
    pub dns: DnsConfig,
}

/// A jail parameter value, as configuration can express it.
#[derive(Clone, Debug)]
pub enum ParamSetting {
    /// An integer parameter.
    Int(i64),
    /// A boolean parameter.
    Bool(bool),
    /// A string parameter.
    Text(String),
}

/// One jail definition.
#[derive(Clone, Debug)]
pub struct JailDef {
    /// The service name, unique in the manifest.
    pub name: String,
    /// An explicit root path.
    pub path: Option<String>,
    /// A release to provision the root from when it is missing.
    pub release: Option<String>,
    /// A build context directory.
    pub build: Option<String>,
    /// An explicit build template path.
    pub jailfile: Option<String>,
    /// The jail's hostname.
    pub hostname: Option<String>,
    /// Services that must start first.
    pub depends_on: Vec<String>,
    /// Kernel jail parameters.
    pub params: Vec<(String, ParamSetting)>,
    /// Network settings.
    pub network: Option<JailNetworkConfig>,
    /// Mount settings.
    pub mount: Option<JailMountConfig>,
    /// Lifecycle hooks.
    pub hooks: Vec<Hook>,
    /// Health checks.
    pub healthcheck: HealthCheckConfig,
}

/// Global settings.
#[derive(Clone, Debug)]
pub struct GlobalConfig {
    /// The project name, prefixed to every kernel jail name.
    pub project: Option<String>,
    /// The base data directory.
    pub data_dir: String,
    /// Whether ZFS datasets are managed.
    pub zfs_enabled: bool,
    /// The ZFS pool (required when enabled).
    pub zpool: Option<String>,
    /// The base dataset under the pool.
    pub dataset: String,
    /// Where releases are kept.
    pub releases_dir: String,
    /// Where downloads are cached.
    pub cache_dir: String,
    /// The release mirror.
    pub mirror_url: String,
    /// Which archives to fetch when bootstrapping.
    pub bootstrap_archives: Vec<String>,
    /// Rate limits.
    pub rate_limit: RateLimitConfig,
    /// Health-check defaults.
    pub health: HealthDefaults,
    /// Retry settings for fetches.
    pub retry: RetryConfig,
    /// Bridge VLAN settings.
    pub bridge: Option<BridgeVlanConfig>,
}

impl GlobalConfig {
    /// The effective project name: the configured one, or `blackship`.
    pub fn project_name(&self) -> (r: String)
        ensures
            self.project matches Some(p) ==> r@ == p@,
            self.project is None ==> r@ == "blackship"@,
    {
        match &self.project {
            Some(p) => p.clone(),
            None => String::from_str("blackship"),
        }
    }
}

/// The whole manifest.
#[derive(Debug)]
pub struct BlackshipConfig {
    /// Global settings.
    pub config: GlobalConfig,
    /// Named networks.
    pub networks: Vec<NetworkConfig>,
    /// Jail definitions.
    pub jails: Vec<JailDef>,
}

/// Jail names are pairwise distinct.
pub open spec fn spec_unique_names(jails: Seq<JailDef>) -> bool {
    forall|i: int, j: int|
        0 <= i < j < jails.len() ==> (#[trigger] jails[i]).name@ != (#[trigger] jails[j]).name@
}

/// Whether some jail carries the given name.
pub open spec fn spec_has_jail(jails: Seq<JailDef>, name: Seq<char>) -> bool {
    exists|i: int| 0 <= i < jails.len() && (#[trigger] jails[i]).name@ == name
}

/// Every dependency resolves to a defined jail.
pub open spec fn spec_deps_resolve(jails: Seq<JailDef>) -> bool {
    forall|i: int, k: int|
        0 <= i < jails.len() && 0 <= k < (#[trigger] jails[i]).depends_on@.len()
            ==> spec_has_jail(jails, (#[trigger] jails[i].depends_on@[k])@)
}

/// No jail depends on itself.
pub open spec fn spec_no_self_dep(jails: Seq<JailDef>) -> bool {
    forall|i: int, k: int|
        0 <= i < jails.len() && 0 <= k < (#[trigger] jails[i]).depends_on@.len() ==> (
        #[trigger] jails[i].depends_on@[k])@ != jails[i].name@
}

impl BlackshipConfig {
    /// A valid manifest: unique jail names, resolvable dependencies, no
    /// self-dependency, and a pool whenever ZFS is enabled.
    pub open spec fn spec_valid(self) -> bool {
        &&& spec_unique_names(self.jails@)
        &&& spec_deps_resolve(self.jails@)
        &&& spec_no_self_dep(self.jails@)
        &&& (self.config.zfs_enabled ==> self.config.zpool is Some)
    }

    /// Check the manifest's invariants: duplicate names, unresolved or
    /// self-referring dependencies, and ZFS without a pool are rejected;
    /// everything else passes.
    pub fn validate(&self) -> (r: Result<(), Error>)
        ensures
            r is Ok <==> self.spec_valid(),
    {
        let n = self.jails.len();
        let mut i: usize = 0;
        while i < n
            invariant
                n == self.jails@.len(),
                i <= n,
                forall|p: int, q: int|
                    0 <= p < q < i ==> (#[trigger] self.jails@[p]).name@ != (
                    #[trigger] self.jails@[q]).name@,
            decreases n - i,
        {
            let mut j: usize = 0;
            while j < i
                invariant
                    n == self.jails@.len(),
                    i < n,
                    j <= i,
                    forall|q: int|
                        0 <= q < j ==> (#[trigger] self.jails@[q]).name@
                            != self.jails@[i as int].name@,
                decreases i - j,
            {
                if crate::text::str_eq(self.jails[j].name.as_str(), self.jails[i].name.as_str())
                {
                    return Err(Error::ConfigValidation(String::from_str(
                        "duplicate jail name")));
                }
                j = j + 1;
            }
            proof {
                assert forall|p: int, q: int| 0 <= p < q < i + 1 implies (
                #[trigger] self.jails@[p]).name@ != (#[trigger] self.jails@[q]).name@ by {
                    if q == i {
                        assert(self.jails@[p].name@ != self.jails@[i as int].name@);
                    }
                }
            }
            i = i + 1;
        }
        let mut i2: usize = 0;
        while i2 < n
            invariant
                n == self.jails@.len(),
                i2 <= n,
                forall|p: int, k: int|
                    0 <= p < i2 && 0 <= k < (#[trigger] self.jails@[p]).depends_on@.len()
                        ==> spec_has_jail(self.jails@, (#[trigger] self.jails@[p].depends_on@[
                        k])@) && (self.jails@[p].depends_on@[k])@ != self.jails@[p].name@,
            decreases n - i2,
        {
            let deps = self.jails[i2].depends_on.len();
            let mut k: usize = 0;
            while k < deps
                invariant
                    n == self.jails@.len(),
                    i2 < n,
                    deps == self.jails@[i2 as int].depends_on@.len(),
                    k <= deps,
                    forall|k2: int|
                        0 <= k2 < k ==> spec_has_jail(self.jails@, (
                        #[trigger] self.jails@[i2 as int].depends_on@[k2])@) && (
                        self.jails@[i2 as int].depends_on@[k2])@ != self.jails@[i2 as int].name@,
                decreases deps - k,
            {
                let dep = self.jails[i2].depends_on[k].as_str();
                if crate::text::str_eq(dep, self.jails[i2].name.as_str()) {
                    return Err(Error::ConfigValidation(String::from_str(
                        "a jail depends on itself")));
                }
                let mut found = false;
                let mut m: usize = 0;
                while m < n && !found
                    invariant
                        n == self.jails@.len(),
                        i2 < n,
                        deps == self.jails@[i2 as int].depends_on@.len(),
                        k < deps,
                        dep@ == self.jails@[i2 as int].depends_on@[k as int]@,
                        m <= n,
                        !found ==> forall|q: int|
                            0 <= q < m ==> (#[trigger] self.jails@[q]).name@ != dep@,
                        found ==> spec_has_jail(self.jails@, dep@),
                    decreases n - m + (if found { 0int } else { 1int }),
                {
                    if crate::text::str_eq(self.jails[m].name.as_str(), dep) {
                        found = true;
                    } else {
                        m = m + 1;
                    }
                }
                if !found {
                    return Err(Error::UnknownDependency(String::from_str(
                        "a dependency names no defined jail")));
                }
                k = k + 1;
            }
            i2 = i2 + 1;
        }
        if self.config.zfs_enabled && matches!(self.config.zpool, None) {
            return Err(Error::ConfigValidation(String::from_str(
                "ZFS is enabled but no pool is given")));
        }
        Ok(())
    }

    /// The index of the jail with the given service name or full
    /// (project-prefixed) name: the first service-name match wins, else
    /// the first full-name match; an unknown name finds nothing.
    pub fn find_jail(&self, name: &str) -> (r: Option<usize>)
        ensures
            r == spec_find_jail(self.config, self.jails@, name@),
            r matches Some(i) ==> i < self.jails@.len() && (self.jails@[i as int].name@ == name@
                || spec_full_name(self.config, self.jails@[i as int].name@) == name@),
            r is None ==> forall|i: int|
                0 <= i < self.jails@.len() ==> (#[trigger] self.jails@[i]).name@ != name@
                    && spec_full_name(self.config, self.jails@[i].name@) != name@,
    {
        let n = self.jails.len();
        let mut i: usize = 0;
        while i < n
            invariant
                n == self.jails@.len(),
                i <= n,
                forall|j: int| 0 <= j < i ==> (#[trigger] self.jails@[j]).name@ != name@,
            decreases n - i,
        {
            if crate::text::str_eq(self.jails[i].name.as_str(), name) {
                proof {
                    lemma_first_name_at(self.jails@, name@, 0, i as int);
                }
                return Some(i);
            }
            i = i + 1;
        }
        proof {
            lemma_first_name_at(self.jails@, name@, 0, n as int);
        }
        let mut i2: usize = 0;
        while i2 < n
            invariant
                n == self.jails@.len(),
                i2 <= n,
                first_name_idx(self.jails@, name@, 0) == n as int,
                forall|j: int| 0 <= j < n ==> (#[trigger] self.jails@[j]).name@ != name@,
                forall|j: int|
                    0 <= j < i2 ==> spec_full_name(self.config, (
                    #[trigger] self.jails@[j]).name@) != name@,
            decreases n - i2,
        {
            let full = self.jail_name(self.jails[i2].name.as_str());
            if crate::text::str_eq(full.as_str(), name) {
                proof {
                    lemma_first_full_at(self.config, self.jails@, name@, 0, i2 as int);
                }
                return Some(i2);
            }
            i2 = i2 + 1;
        }
        proof {
            lemma_first_full_at(self.config, self.jails@, name@, 0, n as int);
        }
        None
    }

    /// The kernel-visible name of a service: the project prefix and the
    /// service name, unless the name is already so prefixed.
    pub fn jail_name(&self, service_name: &str) -> (r: String)
        ensures
            r@ == spec_full_name(self.config, service_name@),
    {
        let project = self.config.project_name();
        let mut prefix = project.clone();
        prefix.append("-");
        proof {
            reveal_strlit("-");
        }
        if crate::text::str_starts_with(service_name, prefix.as_str()) {
            service_name.to_owned()
        } else {
            let mut full = prefix;
            full.append(service_name);
            proof {
                assert(full@ =~= spec_project_name(self.config) + seq!['-'] + service_name@);
            }
            full
        }
    }

    /// The effective project name.
    pub fn project_name(&self) -> (r: String)
        ensures
            r@ == spec_project_name(self.config),
    {
        self.config.project_name()
    }
}

/// The first index at or after `i` whose jail carries the service name,
/// or the length when none does.
pub open spec fn first_name_idx(jails: Seq<JailDef>, name: Seq<char>, i: int) -> int
    decreases jails.len() - i,
{
    if i < 0 || i >= jails.len() {
        jails.len() as int
    } else if jails[i].name@ == name {
        i
    } else {
        first_name_idx(jails, name, i + 1)
    }
}

/// The first index at or after `i` whose jail's full name matches, or
/// the length when none does.
pub open spec fn first_full_idx(
    c: GlobalConfig,
    jails: Seq<JailDef>,
    name: Seq<char>,
    i: int,
) -> int
    decreases jails.len() - i,
{
    if i < 0 || i >= jails.len() {
        jails.len() as int
    } else if spec_full_name(c, jails[i].name@) == name {
        i
    } else {
        first_full_idx(c, jails, name, i + 1)
    }
}

/// The jail a name finds: the first service-name match, else the first
/// full-name match, else nothing.
pub open spec fn spec_find_jail(c: GlobalConfig, jails: Seq<JailDef>, name: Seq<char>) -> Option<
    usize> {
    let a = first_name_idx(jails, name, 0);
    if a < jails.len() {
        Some(a as usize)
    } else {
        let b = first_full_idx(c, jails, name, 0);
        if b < jails.len() {
            Some(b as usize)
        } else {
            None
        }
    }
}

/// When the names before `k` all differ and (in range) the one at `k`
/// matches, the first matching index is exactly `k`.
proof fn lemma_first_name_at(jails: Seq<JailDef>, name: Seq<char>, i: int, k: int)
    requires
        0 <= i <= k <= jails.len(),
        forall|j: int| i <= j < k ==> (#[trigger] jails[j]).name@ != name,
        k < jails.len() ==> jails[k].name@ == name,
    ensures
        first_name_idx(jails, name, i) == if k < jails.len() {
            k
        } else {
            jails.len() as int
        },
    decreases k - i,
{
    if i < k {
        lemma_first_name_at(jails, name, i + 1, k);
    }
}

/// The full-name analogue of the lemma above.
proof fn lemma_first_full_at(
    c: GlobalConfig,
    jails: Seq<JailDef>,
    name: Seq<char>,
    i: int,
    k: int,
)
    requires
        0 <= i <= k <= jails.len(),
        forall|j: int| i <= j < k ==> spec_full_name(c, (#[trigger] jails[j]).name@) != name,
        k < jails.len() ==> spec_full_name(c, jails[k].name@) == name,
    ensures
        first_full_idx(c, jails, name, i) == if k < jails.len() {
            k
        } else {
            jails.len() as int
        },
    decreases k - i,
{
    if i < k {
        lemma_first_full_at(c, jails, name, i + 1, k);
    }
}

/// The effective project name of the configuration.
pub open spec fn spec_project_name(c: GlobalConfig) -> Seq<char> {
    match c.project {
        Some(p) => p@,
        None => "blackship"@,
    }
}

/// The kernel-visible name of a service.
pub open spec fn spec_full_name(c: GlobalConfig, service: Seq<char>) -> Seq<char> {
    let prefix = spec_project_name(c) + seq!['-'];
    if prefix.is_prefix_of(service) {
        service
    } else {
        prefix + service
    }
}

/// The stock project name for a seed: the seed modulo the number of
/// names picks one.
pub fn black_ship_name(seed: u64) -> (r: String)
    ensures
        r@ == spec_stock_name(seed),
{
    let idx = seed % 9;
    if idx == 0 {
        String::from_str("aegis_of_truth")
    } else if idx == 1 {
        String::from_str("aeria_gloris")
    } else if idx == 2 {
        String::from_str("enduring_abundance")
    } else if idx == 3 {
        String::from_str("honour_haltis")
    } else if idx == 4 {
        String::from_str("lamentation")
    } else if idx == 5 {
        String::from_str("norns_ghost")
    } else if idx == 6 {
        String::from_str("psythanatos")
    } else if idx == 7 {
        String::from_str("validus")
    } else {
        String::from_str("white_sun")
    }
}

/// The stock name picked by a seed.
pub open spec fn spec_stock_name(seed: u64) -> Seq<char> {
    let i = seed % 9;
    if i == 0 {
        "aegis_of_truth"@
    } else if i == 1 {
        "aeria_gloris"@
    } else if i == 2 {
        "enduring_abundance"@
    } else if i == 3 {
        "honour_haltis"@
    } else if i == 4 {
        "lamentation"@
    } else if i == 5 {
        "norns_ghost"@
    } else if i == 6 {
        "psythanatos"@
    } else if i == 7 {
        "validus"@
    } else {
        "white_sun"@
    }
}

/// The seed hashed from a path's bytes: fold each byte in by adding it
/// and multiplying by 31, wrapping.
pub open spec fn spec_path_hash(bytes: Seq<u8>) -> u64
    decreases bytes.len(),
{
    if bytes.len() == 0 {
        0u64
    } else {
        mul_wrap(add_wrap(spec_path_hash(bytes.drop_last()), bytes.last() as u64), 31)
    }
}

/// Wrapping addition on 64 bits.
pub open spec fn add_wrap(a: u64, b: u64) -> u64 {
    ((a + b) % 0x1_0000_0000_0000_0000) as u64
}

/// Wrapping multiplication on 64 bits.
pub open spec fn mul_wrap(a: u64, b: u64) -> u64 {
    ((a * b) % 0x1_0000_0000_0000_0000) as u64
}

/// The stock project name derived from a path.
pub fn black_ship_name_from_path(path: &str) -> (r: String)
    ensures
        r@ == spec_stock_name(spec_path_hash(path.spec_bytes())),
{
    let bytes = path.as_bytes();
    let mut hash: u64 = 0;
    let mut i: usize = 0;
    proof {
        assert(bytes@.take(0) =~= Seq::<u8>::empty());
    }
    while i < bytes.len()
        invariant
            bytes@ == path.spec_bytes(),
            i <= bytes@.len(),
            hash == spec_path_hash(bytes@.take(i as int)),
        decreases bytes@.len() - i,
    {
        proof {
            assert(bytes@.take(i + 1).drop_last() =~= bytes@.take(i as int));
            assert(bytes@.take(i + 1).last() == bytes@[i as int]);
        }
        hash = hash.wrapping_add(bytes[i] as u64).wrapping_mul(31);
        i = i + 1;
    }
    proof {
        assert(bytes@.take(bytes@.len() as int) =~= bytes@);
    }
    black_ship_name(hash)
}

/// A value quoted for the manifest text.  (Values are expected to be
/// plain names and paths; quoting adds the delimiters only.)
pub open spec fn spec_quoted(s: Seq<char>) -> Seq<char> {
    seq!['"'] + s + seq!['"']
}

/// One `key = "value"` line.
pub open spec fn spec_kv_line(key: Seq<char>, value: Seq<char>) -> Seq<char> {
    key + " = "@ + spec_quoted(value) + seq!['\n']
}

/// The canonical manifest text of one network block.
pub open spec fn spec_network_toml(n: NetworkConfig) -> Seq<char> {
    "\n[[networks]]\n"@ + spec_kv_line("name"@, n.name@) + spec_kv_line("subnet"@, n.subnet@)
        + (match n.gateway {
        Some(g) => spec_kv_line("gateway"@, g.spec_text()),
        None => Seq::<char>::empty(),
    })
}

/// The canonical manifest text of one jail block: its scalar fields and
/// its dependency list.
pub open spec fn spec_jail_toml(j: JailDef) -> Seq<char> {
    "\n[[jails]]\n"@ + spec_kv_line("name"@, j.name@) + (match j.path {
        Some(p) => spec_kv_line("path"@, p@),
        None => Seq::<char>::empty(),
    }) + (match j.release {
        Some(x) => spec_kv_line("release"@, x@),
        None => Seq::<char>::empty(),
    }) + (match j.hostname {
        Some(h) => spec_kv_line("hostname"@, h@),
        None => Seq::<char>::empty(),
    }) + (if j.depends_on@.len() > 0 {
        "depends_on = ["@ + crate::text::spec_join(
            j.depends_on@.map_values(|t: String| spec_quoted(t@)), ", "@) + "]\n"@
    } else {
        Seq::<char>::empty()
    })
}

impl BlackshipConfig {
    /// The canonical manifest text: the global block with the project
    /// (when set), the data directory and the ZFS settings, then each
    /// network and each jail with their scalar fields and dependency
    /// lists.  Hooks, health checks, parameters and per-jail network
    /// blocks are runtime configuration and are not written back.
    #[verifier::rlimit(100)]
    pub fn to_toml_string(&self) -> (r: String)
        ensures
            r@ == spec_manifest_toml(self),
    {
        proof {
            reveal_strlit("[config]\n");
            reveal_strlit(" = ");
            reveal_strlit("\n");
            reveal_strlit("\"");
            reveal_strlit("project");
            reveal_strlit("data_dir");
            reveal_strlit("zpool");
            reveal_strlit("zfs_enabled = true\n");
            reveal_strlit("\n[[networks]]\n");
            reveal_strlit("name");
            reveal_strlit("subnet");
            reveal_strlit("gateway");
            reveal_strlit("\n[[jails]]\n");
            reveal_strlit("path");
            reveal_strlit("release");
            reveal_strlit("hostname");
            reveal_strlit("depends_on = [");
            reveal_strlit(", ");
            reveal_strlit("]\n");
            assert("\""@ =~= seq!['"']);
            assert("\n"@ =~= seq!['\n']);
        }
        let mut s = String::from_str("[config]\n");
        match &self.config.project {
            Some(p) => {
                push_kv(&mut s, "project", p.as_str());
            }
            None => {}
        }
        push_kv(&mut s, "data_dir", self.config.data_dir.as_str());
        if self.config.zfs_enabled {
            s.append("zfs_enabled = true\n");
        }
        match &self.config.zpool {
            Some(z) => {
                push_kv(&mut s, "zpool", z.as_str());
            }
            None => {}
        }
        let ghost head = s@;
        let mut w: usize = 0;
        proof {
            assert(head + spec_networks_toml(self.networks@, 0) =~= head);
        }
        while w < self.networks.len()
            invariant
                w <= self.networks@.len(),
                s@ == head + spec_networks_toml(self.networks@, w as int),
            decreases self.networks@.len() - w,
        {
            proof {
                reveal_strlit("\n[[networks]]\n");
                reveal_strlit("name");
                reveal_strlit("subnet");
                reveal_strlit("gateway");
            }
            s.append("\n[[networks]]\n");
            push_kv(&mut s, "name", self.networks[w].name.as_str());
            push_kv(&mut s, "subnet", self.networks[w].subnet.as_str());
            match &self.networks[w].gateway {
                Some(g) => {
                    let t = g.to_text();
                    push_kv(&mut s, "gateway", t.as_str());
                }
                None => {}
            }
            proof {
                assert(s@ =~= head + spec_networks_toml(self.networks@, w + 1));
            }
            w = w + 1;
        }
        let ghost mid = s@;
        let mut j: usize = 0;
        proof {
            assert(mid + spec_jails_toml(self.jails@, 0) =~= mid);
        }
        while j < self.jails.len()
            invariant
                j <= self.jails@.len(),
                s@ == mid + spec_jails_toml(self.jails@, j as int),
            decreases self.jails@.len() - j,
        {
            proof {
                reveal_strlit("\n[[jails]]\n");
                reveal_strlit("name");
                reveal_strlit("path");
                reveal_strlit("release");
                reveal_strlit("hostname");
                reveal_strlit("depends_on = [");
                reveal_strlit(", ");
                reveal_strlit("]\n");
                reveal_strlit("\"");
                assert("\""@ =~= seq!['"']);
            }
            s.append("\n[[jails]]\n");
            let jd = &self.jails[j];
            push_kv(&mut s, "name", jd.name.as_str());
            match &jd.path {
                Some(p) => {
                    push_kv(&mut s, "path", p.as_str());
                }
                None => {}
            }
            match &jd.release {
                Some(x) => {
                    push_kv(&mut s, "release", x.as_str());
                }
                None => {}
            }
            match &jd.hostname {
                Some(h) => {
                    push_kv(&mut s, "hostname", h.as_str());
                }
                None => {}
            }
            if jd.depends_on.len() > 0 {
                s.append("depends_on = [");
                let mut quoted: Vec<String> = Vec::new();
                let mut q: usize = 0;
                while q < jd.depends_on.len()
                    invariant
                        q <= jd.depends_on@.len(),
                        quoted@.len() == q,
                        forall|p: int|
                            0 <= p < q ==> (#[trigger] quoted@[p])@ == spec_quoted(
                                jd.depends_on@[p]@),
                    decreases jd.depends_on@.len() - q,
                {
                    let mut one = String::from_str("\"");
                    one.append(jd.depends_on[q].as_str());
                    one.append("\"");
                    proof {
                        reveal_strlit("\"");
                        assert("\""@ =~= seq!['"']);
                        assert(one@ =~= spec_quoted(jd.depends_on@[q as int]@));
                    }
                    quoted.push(one);
                    q = q + 1;
                }
                proof {
                    reveal_strlit(", ");
                    assert(quoted@.map_values(|t: String| t@) =~= jd.depends_on@.map_values(
                        |t: String| spec_quoted(t@)));
                }
                let joined = crate::text::join_strings(&quoted, ", ");
                s.append(joined.as_str());
                s.append("]\n");
            }
            proof {
                assert(s@ =~= mid + spec_jails_toml(self.jails@, j + 1));
            }
            j = j + 1;
        }
        s
    }
}

/// The canonical manifest text of the first `n` networks.
pub open spec fn spec_networks_toml(ns: Seq<NetworkConfig>, n: int) -> Seq<char>
    decreases n,
{
    if n <= 0 {
        Seq::empty()
    } else {
        spec_networks_toml(ns, n - 1) + spec_network_toml(ns[n - 1])
    }
}

/// The canonical manifest text of the first `n` jails.
pub open spec fn spec_jails_toml(js: Seq<JailDef>, n: int) -> Seq<char>
    decreases n,
{
    if n <= 0 {
        Seq::empty()
    } else {
        spec_jails_toml(js, n - 1) + spec_jail_toml(js[n - 1])
    }
}

/// The whole canonical manifest text.
pub open spec fn spec_manifest_toml(c: &BlackshipConfig) -> Seq<char> {
    "[config]\n"@ + (match c.config.project {
        Some(p) => spec_kv_line("project"@, p@),
        None => Seq::<char>::empty(),
    }) + spec_kv_line("data_dir"@, c.config.data_dir@) + (if c.config.zfs_enabled {
        "zfs_enabled = true\n"@
    } else {
        Seq::<char>::empty()
    }) + (match c.config.zpool {
        Some(z) => spec_kv_line("zpool"@, z@),
        None => Seq::<char>::empty(),
    }) + spec_networks_toml(c.networks@, c.networks@.len() as int) + spec_jails_toml(
        c.jails@, c.jails@.len() as int)
}

/// Append one `key = "value"` line.
fn push_kv(s: &mut String, key: &str, value: &str)
    ensures
        final(s)@ == old(s)@ + spec_kv_line(key@, value@),
{
    proof {
        reveal_strlit(" = ");
        reveal_strlit("\"");
        reveal_strlit("\"\n");
        assert("\""@ =~= seq!['"']);
    }
    s.append(key);
    s.append(" = ");
    s.append("\"");
    s.append(value);
    s.append("\"\n");
    proof {
        assert("\"\n"@ =~= seq!['"', '\n']);
        assert(final(s)@ =~= old(s)@ + spec_kv_line(key@, value@));
    }
}

impl JailDef {
    /// The root path used for this jail: the explicit path, else the
    /// ZFS mountpoint when datasets are managed, else a directory under
    /// the data directory; the last two use the full jail name.
    pub fn effective_path(&self, global: &GlobalConfig, full_name: &str) -> (r: String)
        ensures
            self.path matches Some(p) ==> r@ == p@,
            self.path is None && global.zfs_enabled ==> r@ == seq!['/'] + (
            match global.zpool {
                Some(z) => z@,
                None => "zroot"@,
            }) + seq!['/'] + global.dataset@ + "/jails/"@ + full_name@,
            self.path is None && !global.zfs_enabled ==> r@ == global.data_dir@ + "/jails/"@
                + full_name@,
    {
        proof {
            reveal_strlit("/");
            reveal_strlit("/jails/");
            assert("/"@ =~= seq!['/']);
        }
        match &self.path {
            Some(p) => p.clone(),
            None => {
                if global.zfs_enabled {
                    let mut s = String::from_str("/");
                    match &global.zpool {
                        Some(z) => s.append(z.as_str()),
                        None => s.append("zroot"),
                    }
                    s.append("/");
                    s.append(global.dataset.as_str());
                    s.append("/jails/");
                    s.append(full_name);
                    proof {
                        assert(s@ =~= seq!['/'] + (match global.zpool {
                            Some(z) => z@,
                            None => "zroot"@,
                        }) + seq!['/'] + global.dataset@ + "/jails/"@ + full_name@);
                    }
                    s
                } else {
                    let mut s = global.data_dir.clone();
                    s.append("/jails/");
                    s.append(full_name);
                    s
                }
            }
        }
    }
}

} // verus!
