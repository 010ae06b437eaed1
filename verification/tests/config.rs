//! Tests of the manifest model, hooks, health checks, recovery
//! policies, version parsing and naming helpers.

use blackship::console::ExecOptions;
use blackship::export::{build_stream_header, parse_stream_header};
use blackship::health::{CheckTarget, HealthCheck, HealthCheckConfig, HealthChecker,
    HealthStatus};
use blackship::hooks::{Hook, HookContext, HookPhase, HookTarget, OnFailure};
use blackship::jailparams::ParamValue;
use blackship::manifest::{BlackshipConfig, DnsConfig, GlobalConfig, HealthDefaults, JailDef,
    RateLimitConfig, RetryConfig};
use blackship::provision::{Arch, Provisioner};
use blackship::recovery::{RecoveryAction, RecoveryConfig};
use blackship::sysver::{OsVersion, ReleaseType};
use blackship::zfs::ZfsManager;

pub fn mk_global() -> GlobalConfig {
    GlobalConfig {
        project: Some(String::from("proj")),
        data_dir: String::from("/var/stash"),
        zfs_enabled: false,
        zpool: None,
        dataset: String::from("stash"),
        releases_dir: String::from("/var/stash/releases"),
        cache_dir: String::from("/var/stash/cache"),
        mirror_url: String::from("https://mirror.example.org/releases"),
        bootstrap_archives: vec![String::from("base")],
        rate_limit: RateLimitConfig::new(),
        health: HealthDefaults::new(),
        retry: RetryConfig::new(),
        bridge: None,
    }
}

pub fn mk_jail(name: &str, path: &str, deps: &[&str]) -> JailDef {
    JailDef {
        name: String::from(name),
        path: if path.is_empty() { None } else { Some(String::from(path)) },
        release: None,
        build: None,
        jailfile: None,
        hostname: None,
        depends_on: deps.iter().map(|d| String::from(*d)).collect(),
        params: Vec::new(),
        network: None,
        mount: None,
        hooks: Vec::new(),
        healthcheck: HealthCheckConfig::new(),
    }
}

#[test]
fn test_duplicate_name_error() {
    let config = BlackshipConfig {
        config: mk_global(),
        networks: Vec::new(),
        jails: vec![mk_jail("test", "/jails/test", &[]), mk_jail("test", "/jails/test2", &[])],
    };
    assert!(config.validate().is_err());
}

#[test]
fn test_unknown_dependency_error() {
    let config = BlackshipConfig {
        config: mk_global(),
        networks: Vec::new(),
        jails: vec![mk_jail("webapp", "/jails/webapp", &["nonexistent"])],
    };
    assert!(config.validate().is_err());
}

#[test]
fn validate_accepts_a_clean_manifest() {
    let config = BlackshipConfig {
        config: mk_global(),
        networks: Vec::new(),
        jails: vec![
            mk_jail("postgres", "/jails/postgres", &[]),
            mk_jail("webapp", "/jails/webapp", &["postgres"]),
        ],
    };
    assert!(config.validate().is_ok());
}

#[test]
fn validate_rejects_self_dependency() {
    let config = BlackshipConfig {
        config: mk_global(),
        networks: Vec::new(),
        jails: vec![mk_jail("a", "/jails/a", &["a"])],
    };
    assert!(config.validate().is_err());
}

#[test]
fn validate_rejects_zfs_without_pool() {
    let mut g = mk_global();
    g.zfs_enabled = true;
    g.zpool = None;
    let config = BlackshipConfig { config: g, networks: Vec::new(), jails: Vec::new() };
    assert!(config.validate().is_err());
}

#[test]
fn jail_name_prefixes_once() {
    let config = BlackshipConfig {
        config: mk_global(),
        networks: Vec::new(),
        jails: Vec::new(),
    };
    assert_eq!(config.jail_name("web"), "proj-web");
    assert_eq!(config.jail_name("proj-web"), "proj-web");
    assert_eq!(config.project_name(), "proj");
}

#[test]
fn dns_inherit_and_custom() {
    let inherit = DnsConfig::new();
    assert!(inherit.is_inherit());
    assert!(inherit.to_resolv_conf().is_none());

    let custom = DnsConfig {
        nameservers: vec![String::from("8.8.8.8"), String::from("8.8.4.4")],
        search: vec![String::from("example.com")],
        domain: Some(String::from("example.com")),
        mode: String::from("custom"),
    };
    assert!(!custom.is_inherit());
    let text = custom.to_resolv_conf().unwrap();
    assert_eq!(
        text,
        "domain example.com\nsearch example.com\nnameserver 8.8.8.8\nnameserver 8.8.4.4\n"
    );
}

#[test]
fn effective_path_cases() {
    let g = mk_global();
    let explicit = mk_jail("a", "/jails/a", &[]);
    assert_eq!(explicit.effective_path(&g, "proj-a"), "/jails/a");

    let implicit = mk_jail("b", "", &[]);
    assert_eq!(implicit.effective_path(&g, "proj-b"), "/var/stash/jails/proj-b");

    let mut gz = mk_global();
    gz.zfs_enabled = true;
    gz.zpool = Some(String::from("zroot"));
    assert_eq!(implicit.effective_path(&gz, "proj-b"), "/zroot/stash/jails/proj-b");
}

#[test]
fn test_hook_phase_display() {
    assert_eq!(HookPhase::PreStart.label(), "pre_start");
    assert_eq!(HookPhase::PostStop.label(), "post_stop");
}

#[test]
fn test_hook_context_substitution() {
    let ctx = HookContext::new("myjail", "/jails/myjail")
        .with_ip("10.0.1.10".to_string())
        .with_jid(42)
        .with_var("custom", "value");

    assert_eq!(ctx.substitute("jail: ${jail_name}"), "jail: myjail");
    assert_eq!(ctx.substitute("path: ${jail_path}"), "path: /jails/myjail");
    assert_eq!(ctx.substitute("ip: ${jail_ip}"), "ip: 10.0.1.10");
    assert_eq!(ctx.substitute("jid: ${jid}"), "jid: 42");
    assert_eq!(ctx.substitute("var: ${custom}"), "var: value");
}

#[test]
fn test_hook_builder() {
    let hook = Hook::new(HookPhase::PreStart, "/bin/echo".to_string())
        .with_target(HookTarget::Host)
        .with_args(vec!["hello".to_string()])
        .with_timeout(60)
        .with_on_failure(OnFailure::Continue);

    assert_eq!(hook.phase, HookPhase::PreStart);
    assert_eq!(hook.target, HookTarget::Host);
    assert_eq!(hook.timeout, 60);
    assert_eq!(hook.on_failure, OnFailure::Continue);
}

#[test]
fn test_phase_requires_running_jail() {
    assert!(!HookPhase::PreCreate.requires_running_jail());
    assert!(!HookPhase::PostCreate.requires_running_jail());
    assert!(!HookPhase::PreStart.requires_running_jail());
    assert!(HookPhase::PostStart.requires_running_jail());
    assert!(HookPhase::PreStop.requires_running_jail());
    assert!(!HookPhase::PostStop.requires_running_jail());
}

#[test]
fn test_health_status_display() {
    assert_eq!(HealthStatus::Healthy.label(), "healthy");
    assert_eq!(HealthStatus::Failing.label(), "failing");
    assert_eq!(HealthStatus::Starting.label(), "starting");
    assert_eq!(HealthStatus::Suspended.label(), "suspended");
}

#[test]
fn test_health_check_builder() {
    let check = HealthCheck::new("http", "curl -sf http://localhost:8080/health")
        .with_target(CheckTarget::Jail)
        .with_interval(15)
        .with_timeout(5)
        .with_retries(5);

    assert_eq!(check.name, "http");
    assert_eq!(check.interval, 15);
    assert_eq!(check.timeout, 5);
    assert_eq!(check.retries, 5);
}

#[test]
fn test_health_config_builder() {
    let config = HealthCheckConfig::enabled()
        .with_check(HealthCheck::new("test", "true"))
        .with_check(HealthCheck::new("test2", "true"));

    assert!(config.enabled);
    assert_eq!(config.checks.len(), 2);
}

#[test]
fn test_health_checker_creation() {
    let config = HealthCheckConfig::enabled().with_check(HealthCheck::new("test", "true"));

    let checker = HealthChecker::with_rate_limit("testjail", config, 5000, 500, 0);
    assert_eq!(checker.jail_name(), "testjail");
    assert!(checker.is_enabled());
}

#[test]
fn interval_below_timeout_is_accepted() {
    // an interval shorter than the timeout is legitimate configuration
    let check = HealthCheck::new("quick", "true").with_interval(5).with_timeout(10);
    assert_eq!(check.interval, 5);
    assert_eq!(check.timeout, 10);
    let config = HealthCheckConfig::enabled().with_check(check);
    let checker = HealthChecker::with_rate_limit("j", config, 50_000, 50_000, 0);
    assert!(checker.is_enabled());
    assert_eq!(checker.interval_ms(), 5000);
}

#[test]
fn test_recovery_action_default() {
    let config = RecoveryConfig::new();
    assert!(matches!(config.action, RecoveryAction::NoAction));
}

#[test]
fn test_recovery_config_builders() {
    let restart = RecoveryConfig::restart().with_max_attempts(5);
    assert!(matches!(restart.action, RecoveryAction::Restart));
    assert_eq!(restart.max_attempts, 5);

    let stop = RecoveryConfig::stop().with_cooldown(120);
    assert!(matches!(stop.action, RecoveryAction::Stop));
    assert_eq!(stop.cooldown, 120);

    let cmd = RecoveryConfig::command("/usr/local/bin/fix.sh");
    match cmd.action {
        RecoveryAction::Command(c) => assert_eq!(c, "/usr/local/bin/fix.sh"),
        _ => panic!("expected a command action"),
    }
}

#[test]
fn test_parse_current() {
    let ver = OsVersion::parse("16.0-CURRENT").unwrap();
    assert_eq!(ver.major, 16);
    assert_eq!(ver.minor, 0);
    assert_eq!(ver.patch, None);
    assert_eq!(ver.release_type, ReleaseType::Current);
}

#[test]
fn test_parse_release() {
    let ver = OsVersion::parse("15.0-RELEASE").unwrap();
    assert_eq!(ver.major, 15);
    assert_eq!(ver.minor, 0);
    assert_eq!(ver.patch, None);
    assert_eq!(ver.release_type, ReleaseType::Release);
}

#[test]
fn test_parse_release_with_patch() {
    let ver = OsVersion::parse("15.0-RELEASE-p1").unwrap();
    assert_eq!(ver.major, 15);
    assert_eq!(ver.minor, 0);
    assert_eq!(ver.patch, Some(1));
    assert_eq!(ver.release_type, ReleaseType::Release);
}

#[test]
fn test_parse_stable() {
    let ver = OsVersion::parse("14.2-STABLE").unwrap();
    assert_eq!(ver.major, 14);
    assert_eq!(ver.minor, 2);
    assert_eq!(ver.release_type, ReleaseType::Stable);
}

#[test]
fn test_parse_rc() {
    let ver = OsVersion::parse("15.0-RC2").unwrap();
    assert_eq!(ver.major, 15);
    assert_eq!(ver.minor, 0);
    assert_eq!(ver.release_type, ReleaseType::Rc(2));
}

#[test]
fn test_vlan_filtering_support() {
    assert!(OsVersion::parse("15.0-RELEASE").unwrap().supports_vlan_filtering());
    assert!(OsVersion::parse("16.0-CURRENT").unwrap().supports_vlan_filtering());
    assert!(!OsVersion::parse("14.2-STABLE").unwrap().supports_vlan_filtering());
    assert!(!OsVersion::parse("13.3-RELEASE").unwrap().supports_vlan_filtering());
}

#[test]
fn test_display() {
    assert_eq!(OsVersion::parse("16.0-CURRENT").unwrap().version_string(), "16.0-CURRENT");
    assert_eq!(
        OsVersion::parse("15.0-RELEASE-p1").unwrap().version_string(),
        "15.0-RELEASE-p1"
    );
}

#[test]
fn bad_versions_are_rejected() {
    assert!(OsVersion::parse("garbage").is_err());
    assert!(OsVersion::parse("15-RELEASE").is_err());
    assert!(OsVersion::parse("15.0-WEIRD").is_err());
}

#[test]
fn test_dataset_paths() {
    let zfs = ZfsManager::new("zroot", "blackship");
    assert_eq!(zfs.jails_dataset(), "zroot/blackship/jails");
    assert_eq!(zfs.jail_dataset("test"), "zroot/blackship/jails/test");
    assert_eq!(zfs.jail_path("test"), "/zroot/blackship/jails/test");
}

#[test]
fn test_manifest_parsing() {
    let provisioner = Provisioner::new(
        String::new(),
        String::new(),
        String::new(),
        vec![],
        Arch::Amd64,
        RetryConfig::new(),
    );

    let manifest = "base.txz\tabc123\t100\t1000\nkernel.txz\tdef456\t50\t500";
    let checksums = provisioner.parse_manifest(manifest);

    assert_eq!(checksums.len(), 2);
    assert_eq!(checksums[0].0, "base");
    assert_eq!(checksums[0].1, "abc123");
    assert_eq!(checksums[1].0, "kernel");
    assert_eq!(checksums[1].1, "def456");
}

#[test]
fn test_archive_url() {
    let provisioner = Provisioner::new(
        String::from("https://mirror.example.org/releases"),
        String::new(),
        String::new(),
        vec![],
        Arch::Amd64,
        RetryConfig::new(),
    );

    let url = provisioner.archive_url("14.2-RELEASE", "base");
    assert_eq!(url, "https://mirror.example.org/releases/amd64/14.2-RELEASE/base.txz");
}

#[test]
fn test_exec_options_default() {
    let opts = ExecOptions::default();
    assert_eq!(opts.user, "root");
    assert!(opts.workdir.is_none());
    assert!(opts.env.is_empty());
    assert!(!opts.clear_env);
}

#[test]
fn stream_header_round_trip() {
    let header = build_stream_header(1234);
    assert_eq!(header.len(), 12);
    assert_eq!(&header[0..8], b"BSZFS001");
    let parsed = parse_stream_header(&header).unwrap();
    assert_eq!(parsed, 1234);
    // a non-magic prefix is rejected
    let mut bad = header.clone();
    bad[0] = b'X';
    assert!(parse_stream_header(&bad).is_none());
}

#[test]
fn param_values_serialize_exactly() {
    assert_eq!(ParamValue::Int(1).as_bytes().unwrap(), vec![1, 0, 0, 0]);
    assert_eq!(ParamValue::Bool(true).as_bytes().unwrap(), vec![1, 0, 0, 0]);
    assert_eq!(ParamValue::Bool(false).as_bytes().unwrap(), vec![0, 0, 0, 0]);
    assert_eq!(
        ParamValue::Text(String::from("ab")).as_bytes().unwrap(),
        vec![97, 98, 0]
    );
    assert!(ParamValue::Text(String::from("a\0b")).as_bytes().is_err());
    // 10.0.1.10 in network order
    assert_eq!(
        ParamValue::Ipv4(vec![0x0a00010a]).as_bytes().unwrap(),
        vec![10, 0, 1, 10]
    );
    let v6 = ParamValue::Ipv6(vec![1u128]).as_bytes().unwrap();
    assert_eq!(v6.len(), 16);
    assert_eq!(v6[15], 1);
    assert_eq!(v6[0], 0);
}
