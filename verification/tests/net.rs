//! Tests of addresses, pools, interface naming and the PF rule table.

use blackship::ip::{parse_ip, IpAddress, IpPool, Subnet};
use blackship::netif::{check_ifname, EpairInterface, VnetConfig};
use blackship::pf::{BulkheadManager, PortForward};

fn v4(text: &str) -> IpAddress {
    parse_ip(text).unwrap()
}

fn subnet_24(base: &str) -> Subnet {
    let b = v4(base);
    Subnet::from_addr(false, b.bits(), 24).unwrap()
}

#[test]
fn test_ip_pool_creation() {
    let subnet = subnet_24("10.0.1.0");
    let pool = IpPool::new(subnet).unwrap();

    assert_eq!(pool.subnet(), subnet);
    assert_eq!(pool.gateway(), v4("10.0.1.1"));
    assert_eq!(pool.allocated_count(), 1); // Gateway is allocated
}

#[test]
fn test_ip_allocation() {
    let subnet = subnet_24("10.0.1.0");
    let mut pool = IpPool::new(subnet).unwrap();

    // Gateway is 10.0.1.1, so first allocation should be 10.0.1.2
    let ip = pool.allocate().unwrap();
    assert_eq!(ip, v4("10.0.1.2"));

    let ip2 = pool.allocate().unwrap();
    assert_eq!(ip2, v4("10.0.1.3"));
}

#[test]
fn test_ip_release() {
    let subnet = subnet_24("10.0.1.0");
    let mut pool = IpPool::new(subnet).unwrap();

    let ip = pool.allocate().unwrap();
    assert_eq!(pool.allocated_count(), 2);

    pool.release(&ip);
    assert_eq!(pool.allocated_count(), 1);

    // Can allocate same IP again
    let ip2 = pool.allocate().unwrap();
    assert_eq!(ip, ip2);
}

#[test]
fn test_specific_allocation() {
    let subnet = subnet_24("10.0.1.0");
    let mut pool = IpPool::new(subnet).unwrap();

    let specific = v4("10.0.1.100");
    pool.allocate_specific(specific).unwrap();

    assert!(!pool.is_available(&specific));
}

#[test]
fn pool_never_hands_out_gateway() {
    // a /30 subnet: hosts are .1 and .2, with .1 the gateway
    let b = v4("10.0.0.0");
    let subnet = Subnet::from_addr(false, b.bits(), 30).unwrap();
    let mut pool = IpPool::new(subnet).unwrap();
    assert_eq!(pool.gateway(), v4("10.0.0.1"));
    let a = pool.allocate().unwrap();
    assert_eq!(a, v4("10.0.0.2"));
    // the pool is now full: the next allocation fails rather than
    // handing out the gateway
    assert!(pool.allocate().is_err());
    // releasing the gateway is a no-op
    pool.release(&v4("10.0.0.1"));
    assert!(pool.allocate().is_err());
}

#[test]
fn v4_text_round_trip() {
    let a = v4("192.168.1.100");
    assert_eq!(a.to_text(), "192.168.1.100");
}

#[test]
fn v6_parse_and_text() {
    let a = parse_ip("fd00:0:0:0:0:0:0:1").unwrap();
    assert!(matches!(a, IpAddress::V6(_)));
    assert_eq!(a.to_text(), "fd00:0:0:0:0:0:0:1");
}

#[test]
fn test_port_forward_rule() {
    let forward = PortForward::new(8080, 80, "tcp", v4("10.0.1.10"), "webserver");

    let rule = forward.to_pf_rule();
    assert!(rule.contains("rdr"));
    assert!(rule.contains("proto tcp"));
    assert!(rule.contains("port 8080"));
    assert!(rule.contains("-> 10.0.1.10"));
    assert!(rule.contains("port 80"));
    assert!(rule.contains("# jail:webserver"));
}

#[test]
fn test_port_forward_with_bind_ip() {
    let forward = PortForward::new(443, 443, "tcp", v4("10.0.1.10"), "webserver")
        .with_bind_ip(v4("192.168.1.100"));

    let rule = forward.to_pf_rule();
    assert!(rule.contains("on 192.168.1.100"));
}

#[test]
fn test_port_forward_creation() {
    let forward = PortForward::new(3000, 3000, "tcp", v4("10.0.1.5"), "myjail");

    assert_eq!(forward.external_port, 3000);
    assert_eq!(forward.internal_port, 3000);
    assert_eq!(forward.jail_name, "myjail");
    assert_eq!(forward.protocol, "tcp");
}

#[test]
fn test_bulkhead_manager() {
    let manager = BulkheadManager::new();
    assert_eq!(manager.list_forwards().len(), 0);
}

#[test]
fn anchor_body_is_canonical() {
    // the exact canonical rule line, byte for byte
    let mut m = BulkheadManager::new();
    let f = PortForward::new(8080, 80, "tcp", v4("10.0.1.10"), "web");
    let body = m.add_forward(f);
    assert_eq!(
        body,
        "rdr proto tcp from any to any port 8080 -> 10.0.1.10 port 80 # jail:web"
    );
    // the same forwards render the same body, every time
    assert_eq!(m.rules_text(), body);
    // removing the jail's forwards empties the anchor body
    let empty = m.remove_jail_forwards("web");
    assert_eq!(empty, "");
}

#[test]
fn test_sanitize_name() {
    assert_eq!(EpairInterface::sanitize_name("myjail"), "myjail");
    assert_eq!(EpairInterface::sanitize_name("my-jail"), "myjail");
    assert_eq!(EpairInterface::sanitize_name("verylongjailname"), "verylongja");
    assert_eq!(EpairInterface::sanitize_name(""), "jail");
}

#[test]
fn epair_sibling_derivation() {
    let pair = EpairInterface::from_host_side("epair0a").unwrap();
    assert_eq!(pair.host_side(), "epair0a");
    assert_eq!(pair.jail_side(), "epair0b");
    assert!(EpairInterface::from_host_side("weird0").is_err());
}

#[test]
fn ifname_length_is_checked_up_front() {
    // at most fifteen bytes: the sixteenth is the kernel's terminator
    assert!(check_ifname("epair0a").is_ok());
    assert!(check_ifname("exactly15chars1").is_ok());
    assert!(check_ifname("sixteen-chars-xx").is_err());
}

#[test]
fn test_vnet_config() {
    let config = VnetConfig::new(
        "blackship0".to_string(),
        "10.0.1.10/24".to_string(),
        v4("10.0.1.1"),
    );

    assert_eq!(config.bridge, "blackship0");
    assert_eq!(config.ip, "10.0.1.10/24");
}
