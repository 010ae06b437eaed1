//! Tests of the orchestrator: plans, accounting round trips, gating and
//! the manifest round trip.

use blackship::bridge::Bridge;
use blackship::errors::Error;
use blackship::health::HealthCheckConfig;
use blackship::ip::parse_ip;
use blackship::manifest::{BlackshipConfig, GlobalConfig, HealthDefaults, JailDef,
    NetworkConfig, RateLimitConfig, RetryConfig};
use blackship::state::State;

fn mk_global() -> GlobalConfig {
    GlobalConfig {
        project: Some(String::from("proj")),
        data_dir: String::from("/var/stash"),
        zfs_enabled: false,
        zpool: None,
        dataset: String::from("stash"),
        releases_dir: String::from("/var/stash/releases"),
        cache_dir: String::from("/var/stash/cache"),
        mirror_url: String::from("https://mirror.example.org/releases"),
        bootstrap_archives: vec![String::from("base")],
        rate_limit: RateLimitConfig::new(),
        health: HealthDefaults::new(),
        retry: RetryConfig::new(),
        bridge: None,
    }
}

fn mk_jail(name: &str, path: &str, deps: &[&str]) -> JailDef {
    JailDef {
        name: String::from(name),
        path: if path.is_empty() { None } else { Some(String::from(path)) },
        release: None,
        build: None,
        jailfile: None,
        hostname: None,
        depends_on: deps.iter().map(|d| String::from(*d)).collect(),
        params: Vec::new(),
        network: None,
        mount: None,
        hooks: Vec::new(),
        healthcheck: HealthCheckConfig::new(),
    }
}

fn chain_config() -> BlackshipConfig {
    BlackshipConfig {
        config: mk_global(),
        networks: Vec::new(),
        jails: vec![
            mk_jail("database", "/jails/database", &[]),
            mk_jail("backend", "/jails/backend", &["database"]),
            mk_jail("frontend", "/jails/frontend", &["backend"]),
        ],
    }
}

#[test]
fn test_start_order() {
    let config = chain_config();
    let bridge = Bridge::new(config, 0).unwrap();
    let order = bridge.start_order().unwrap();
    assert_eq!(order, vec!["database", "backend", "frontend"]);
}

#[test]
fn test_stop_order() {
    let config = chain_config();
    let bridge = Bridge::new(config, 0).unwrap();
    let order = bridge.stop_order().unwrap();
    assert_eq!(order, vec!["frontend", "backend", "database"]);
}

#[test]
fn up_plan_is_dependency_closed() {
    let config = chain_config();
    let bridge = Bridge::new(config, 0).unwrap();
    // up to the middle of the chain: the dependency comes along, and first
    let plan = bridge.up_plan(Some("backend")).unwrap();
    assert_eq!(plan, vec![0, 1]);
    // a full up lists every jail in dependency order
    let all = bridge.up_plan(None).unwrap();
    assert_eq!(all, vec![0, 1, 2]);
}

#[test]
fn cyclic_dependencies_are_fatal() {
    let config = BlackshipConfig {
        config: mk_global(),
        networks: Vec::new(),
        jails: vec![mk_jail("a", "/jails/a", &["b"]), mk_jail("b", "/jails/b", &["a"])],
    };
    let bridge = Bridge::new(config, 0).unwrap();
    assert!(bridge.start_order().is_err());
}

fn networked_config() -> BlackshipConfig {
    let mut web = mk_jail("web", "/jails/web", &[]);
    web.network = Some(blackship::manifest::JailNetworkConfig {
        vnet: false,
        bridge: None,
        networks: vec![String::from("backend")],
        ip: None,
        ip_cidr: None,
        gateway: None,
        mac_address: None,
        vlan_id: None,
        dns: blackship::manifest::DnsConfig::new(),
    });
    BlackshipConfig {
        config: mk_global(),
        networks: vec![NetworkConfig {
            name: String::from("backend"),
            subnet: String::from("10.0.1.0/24"),
            gateway: None,
        }],
        jails: vec![web],
    }
}

#[test]
fn up_then_down_restores_accounting() {
    let config = networked_config();
    let mut b = Bridge::new(config, 0).unwrap();
    let reserved_before = b.ip_allocator.pools[0].1.allocated_count();
    assert_eq!(reserved_before, 1); // the gateway

    // start: allocate the address, complete with a kernel id
    let ip = b.resolve_ip(0).unwrap().unwrap();
    assert_eq!(ip, parse_ip("10.0.1.2").unwrap());
    assert!(b.allocated_ips[0].is_some());
    b.start_complete(0, 42);
    assert_eq!(b.instances[0].state, State::Running);
    assert_eq!(b.instances[0].jid, Some(42));
    assert_eq!(b.ip_allocator.pools[0].1.allocated_count(), 2);

    // stop: the address returns, the records clear
    let vnet = b.stop_complete(0);
    assert!(vnet.is_none());
    assert_eq!(b.instances[0].state, State::Stopped);
    assert_eq!(b.instances[0].jid, None);
    assert!(b.allocated_ips[0].is_none());
    assert_eq!(b.ip_allocator.pools[0].1.allocated_count(), reserved_before);
}

#[test]
fn starting_a_running_jail_fails_cleanly() {
    let config = networked_config();
    let b = Bridge::new(config, 0).unwrap();
    // the kernel reports the name: the start is refused and nothing moved
    let r = b.start_begin(0, true);
    assert!(matches!(r, Err(Error::JailAlreadyRunning(_))));
    assert_eq!(b.ip_allocator.pools[0].1.allocated_count(), 1);
}

#[test]
fn cleanup_of_never_started_jail_is_noop() {
    let config = networked_config();
    let mut b = Bridge::new(config, 0).unwrap();
    let before = b.ip_allocator.pools[0].1.allocated_count();
    let vnet = b.cleanup_record(0);
    assert!(vnet.is_none());
    assert_eq!(b.ip_allocator.pools[0].1.allocated_count(), before);
    assert_eq!(b.instances[0].state, State::Stopped);
    assert!(b.allocated_ips[0].is_none());
}

#[test]
fn failed_start_unwinds_address() {
    let config = networked_config();
    let mut b = Bridge::new(config, 0).unwrap();
    let _ip = b.resolve_ip(0).unwrap().unwrap();
    assert_eq!(b.ip_allocator.pools[0].1.allocated_count(), 2);
    // the kernel create failed: unwind
    b.start_failed(0);
    b.release_ip(0);
    assert_eq!(b.instances[0].state, State::Failed);
    assert_eq!(b.ip_allocator.pools[0].1.allocated_count(), 1);
    // the supervisor recovers the instance before a restart
    b.recover_instance(0);
    assert_eq!(b.instances[0].state, State::Stopped);
}

#[test]
fn zero_start_capacity_blocks_every_start() {
    let mut config = networked_config();
    config.config.rate_limit.jail_start_capacity_milli = 0;
    let mut b = Bridge::new(config, 0).unwrap();
    let (allowed, _) = b.start_gate(0);
    assert!(!allowed);
    let (allowed, _) = b.start_gate(1_000_000);
    assert!(!allowed);
}

#[test]
fn expose_and_unexpose_port() {
    let mut config = networked_config();
    // give the jail a configured address, as port exposure requires
    config.jails[0].network.as_mut().unwrap().ip = parse_ip("10.0.1.10");
    let mut b = Bridge::new(config, 0).unwrap();
    let (forward, body) = b.expose_port("web", 8080, Some(80), "tcp", None).unwrap();
    assert_eq!(forward.external_port, 8080);
    assert_eq!(
        body,
        "rdr proto tcp from any to any port 8080 -> 10.0.1.10 port 80 # jail:web"
    );
    assert_eq!(b.list_port_forwards().len(), 1);
    let body2 = b.remove_port_forwards("web");
    assert_eq!(body2, "");
    assert_eq!(b.list_port_forwards().len(), 0);
}

#[test]
fn expose_without_address_is_rejected() {
    let config = networked_config();
    let mut b = Bridge::new(config, 0).unwrap();
    assert!(b.expose_port("web", 8080, None, "tcp", None).is_err());
}

#[test]
fn manifest_round_trips_through_text() {
    // serialize the manifest and decode the text again: jails, networks
    // and global options survive
    let config = networked_config();
    let text = config.to_toml_string();
    let value: toml::Value = toml::from_str(&text).unwrap();

    let global = value.get("config").unwrap();
    assert_eq!(global.get("project").unwrap().as_str().unwrap(), "proj");
    assert_eq!(global.get("data_dir").unwrap().as_str().unwrap(), "/var/stash");

    let networks = value.get("networks").unwrap().as_array().unwrap();
    assert_eq!(networks.len(), 1);
    assert_eq!(networks[0].get("name").unwrap().as_str().unwrap(), "backend");
    assert_eq!(networks[0].get("subnet").unwrap().as_str().unwrap(), "10.0.1.0/24");

    let jails = value.get("jails").unwrap().as_array().unwrap();
    assert_eq!(jails.len(), 1);
    assert_eq!(jails[0].get("name").unwrap().as_str().unwrap(), "web");
    assert_eq!(jails[0].get("path").unwrap().as_str().unwrap(), "/jails/web");

    // and the text is canonical: serializing again gives the same bytes
    assert_eq!(config.to_toml_string(), text);
}

#[test]
fn chain_round_trip_preserves_dependencies() {
    let config = chain_config();
    let text = config.to_toml_string();
    let value: toml::Value = toml::from_str(&text).unwrap();
    let jails = value.get("jails").unwrap().as_array().unwrap();
    assert_eq!(jails.len(), 3);
    let deps = jails[1].get("depends_on").unwrap().as_array().unwrap();
    assert_eq!(deps.len(), 1);
    assert_eq!(deps[0].as_str().unwrap(), "database");
}

#[test]
fn up_plan_skips_unrelated_jails() {
    // a jail outside the target's ancestry is left out of a targeted up,
    // and a targeted down takes exactly the dependents
    let config = BlackshipConfig {
        config: mk_global(),
        networks: Vec::new(),
        jails: vec![
            mk_jail("database", "/jails/database", &[]),
            mk_jail("extra", "/jails/extra", &[]),
            mk_jail("backend", "/jails/backend", &["database"]),
        ],
    };
    let bridge = Bridge::new(config, 0).unwrap();
    let plan = bridge.up_plan(Some("backend")).unwrap();
    assert_eq!(plan, vec![0, 2]);
    let down = bridge.down_plan(Some("database")).unwrap();
    assert_eq!(down, vec![2, 0]);
}

#[test]
fn bad_network_subnet_is_rejected() {
    // a network whose subnet text has no prefix, or does not parse,
    // refuses the whole orchestrator
    let mut config = chain_config();
    config.networks.push(blackship::manifest::NetworkConfig {
        name: String::from("lan"),
        subnet: String::from("10.0.0.0"),
        gateway: None,
    });
    assert!(Bridge::new(config, 0).is_err());
    let mut config = chain_config();
    config.networks.push(blackship::manifest::NetworkConfig {
        name: String::from("lan"),
        subnet: String::from("not-an-address/24"),
        gateway: None,
    });
    assert!(Bridge::new(config, 0).is_err());
}

#[test]
fn unknown_dependency_is_rejected() {
    let config = BlackshipConfig {
        config: mk_global(),
        networks: Vec::new(),
        jails: vec![mk_jail("web", "/jails/web", &["missing"])],
    };
    assert!(Bridge::new(config, 0).is_err());
}
