use yanos_backend::domain::{CommandOutput, NetworkAddress, PhysicalLink};
use yanos_backend::error::AppError;
use yanos_backend::interfaces::get_network_interfaces;
use yanos_backend::network::{
    get_network_addresses, get_physical_links, link_mac, parse_address_prefix,
    parse_network_addresses, parse_physical_links,
};
use yanos_backend::sysconf::{
    dns_config_content, get_network_config, parse_resolv_conf_nameservers,
    parse_resolv_conf_search, read_default_gateway, read_hostname, single_line_file,
};

fn ok_output(stdout: &str) -> Result<CommandOutput, String> {
    Ok(CommandOutput { success: true, code: Some(0), stdout: stdout.to_string(), stderr: String::new() })
}

fn failed_output(code: i32, stderr: &str) -> Result<CommandOutput, String> {
    Ok(CommandOutput {
        success: false,
        code: Some(code),
        stdout: String::new(),
        stderr: stderr.to_string(),
    })
}

const DLADM: &str = "e1000g0:Ethernet:up:1000:full:1500\ne1000g1:Ethernet:DOWN:0:HALF:9000\n";
const IPADM: &str = "lo0/v4:static:ok:127.0.0.1/8\ne1000g0/v4:static:ok:192.168.1.10/24\ne1000g0/v6:addrconf:ok:fe80::1/10\nvioif0/dhcp:dhcp:ok:10.0.0.5/24\n";

#[test]
fn test_parse_address_prefix() {
    let (ip, prefix) = parse_address_prefix("192.168.1.10/24");
    assert_eq!(ip, "192.168.1.10");
    assert_eq!(prefix, Some(24));

    let (ip, prefix) = parse_address_prefix("10.0.0.1");
    assert_eq!(ip, "10.0.0.1");
    assert_eq!(prefix, None);

    let (ip, prefix) = parse_address_prefix("fe80::1/64");
    assert_eq!(ip, "fe80::1");
    assert_eq!(prefix, Some(64));
}

#[test]
fn test_parse_resolv_conf_nameservers() {
    // A resolv.conf as the system keeps it
    let servers = parse_resolv_conf_nameservers("domain example.com\nnameserver 1.1.1.1\n  nameserver   8.8.8.8  \n# nameserver 9.9.9.9\nnameserver\n");
    assert_eq!(servers, vec!["1.1.1.1".to_string(), "8.8.8.8".to_string()]);
}

#[test]
fn test_get_network_config() {
    let config = get_network_config(
        Some("search lab.example.com example.com\nnameserver 192.168.1.1\n".to_string()),
        Some("# default route\n\n192.168.1.254\n".to_string()),
        Some("storage01\n".to_string()),
    );
    assert!(config.is_ok());
    let config = config.unwrap();
    assert!(!config.hostname.is_empty());
    assert_eq!(config.hostname, "storage01");
    assert_eq!(config.dns_servers, vec!["192.168.1.1".to_string()]);
    assert_eq!(config.dns_search, vec!["lab.example.com".to_string(), "example.com".to_string()]);
    assert_eq!(config.gateway, Some("192.168.1.254".to_string()));
}

#[test]
fn get_network_config_without_files() {
    let config = get_network_config(None, None, None).unwrap();
    assert_eq!(config.hostname, "unknown");
    assert!(config.dns_servers.is_empty());
    assert!(config.dns_search.is_empty());
    assert_eq!(config.gateway, None);
}

#[test]
fn test_get_physical_links() {
    let links = get_physical_links(ok_output(DLADM));
    match links {
        Ok(l) => {
            println!("Found {} physical links", l.len());
            for link in &l {
                println!("  {} - {} Mbps", link.name, link.speed);
            }
            assert_eq!(l.len(), 2);
            assert_eq!(l[1].state, "down");
            assert_eq!(l[1].duplex, "half");
            assert_eq!(l[1].mtu, 9000);
        }
        Err(e) => {
            println!("get_physical_links returned error (may be expected): {:?}", e);
        }
    }
}

#[test]
fn get_physical_links_errors() {
    match get_physical_links(Err("not found".to_string())) {
        Err(AppError::InternalServerError(m)) => assert_eq!(m, "Failed to run dladm: not found"),
        _ => panic!("expected an internal error"),
    }
    match get_physical_links(failed_output(1, "no permission")) {
        Err(AppError::InternalServerError(m)) => assert_eq!(m, "dladm show-phys failed: no permission"),
        _ => panic!("expected an internal error"),
    }
}

#[test]
fn parse_physical_links_defaults() {
    let l = parse_physical_links("net0:Ethernet:Up:fast:Full:big\nshort:line\n");
    assert_eq!(l.len(), 1);
    assert_eq!(l[0].state, "up");
    assert_eq!(l[0].speed, 0);
    assert_eq!(l[0].mtu, 1500);
    assert_eq!(l[0].mac, "");
}

#[test]
fn test_get_network_addresses() {
    let addrs = get_network_addresses(ok_output(IPADM));
    assert!(addrs.is_ok());
    let addrs = addrs.unwrap();
    assert_eq!(addrs.len(), 3);
    assert_eq!(addrs[0].interface, "e1000g0");
    assert_eq!(addrs[0].address, Some("192.168.1.10/24".to_string()));
}

#[test]
fn parse_network_addresses_skips_loopback_and_empty() {
    let a = parse_network_addresses("lo0/v6:static:ok:\nnet0/v4:DHCP:OK:\nx\n");
    assert_eq!(a.len(), 1);
    assert_eq!(a[0].addr_type, "dhcp");
    assert_eq!(a[0].state, "ok");
    assert_eq!(a[0].address, None);
}

#[test]
fn link_mac_trims_or_is_empty() {
    assert_eq!(link_mac(ok_output(" 0:8:20:aa:bb:cc\n")), "0:8:20:aa:bb:cc");
    assert_eq!(link_mac(failed_output(1, "x")), "");
    assert_eq!(link_mac(Err("x".to_string())), "");
}

fn links() -> Vec<PhysicalLink> {
    let mut l = parse_physical_links(DLADM);
    l[0].mac = "0:8:20:aa:bb:cc".to_string();
    l
}

fn addresses() -> Vec<NetworkAddress> {
    parse_network_addresses(IPADM)
}

#[test]
fn test_get_network_interfaces() {
    let ifaces = get_network_interfaces(Ok(links()), Ok(addresses()));
    assert!(ifaces.is_ok());
    let ifaces = ifaces.unwrap();
    println!("Found {} interfaces", ifaces.len());
    for iface in &ifaces {
        println!(
            "  {} - {} - {} - {:?} Mbps",
            iface.name, iface.state, iface.address, iface.speed
        );
    }
    let names: Vec<&str> = ifaces.iter().map(|i| i.name.as_str()).collect();
    assert_eq!(names, vec!["e1000g0", "e1000g1", "vioif0"]);
    assert_eq!(ifaces[0].address, "192.168.1.10");
    assert_eq!(ifaces[0].prefix_len, Some(24));
    assert_eq!(ifaces[0].state, "up");
    assert_eq!(ifaces[0].mac, Some("0:8:20:aa:bb:cc".to_string()));
    assert_eq!(ifaces[0].addr_type, Some("static".to_string()));
    assert_eq!(ifaces[1].address, "");
    assert_eq!(ifaces[1].mtu, Some(9000));
    assert_eq!(ifaces[2].addr_type, Some("dhcp".to_string()));
    assert_eq!(ifaces[2].state, "ok");
    assert_eq!(ifaces[2].speed, None);
}

#[test]
fn get_network_interfaces_needs_addresses() {
    let r = get_network_interfaces(Ok(links()), Err(AppError::InternalServerError("ipadm".to_string())));
    assert!(matches!(r, Err(AppError::InternalServerError(_))));
    let only_addrs = get_network_interfaces(Err(AppError::InternalServerError("dladm".to_string())), Ok(addresses())).unwrap();
    assert_eq!(only_addrs.len(), 2);
}

#[test]
fn resolv_search_takes_the_first_search_line() {
    assert_eq!(
        parse_resolv_conf_search("nameserver 1.1.1.1\ndomain a.example\nsearch b.example\n"),
        vec!["a.example".to_string()]
    );
    assert!(parse_resolv_conf_search("nameserver 1.1.1.1\n").is_empty());
}

#[test]
fn gateway_and_hostname_files() {
    assert_eq!(read_default_gateway(Some("\n# comment\n  10.0.0.1  \n10.0.0.2\n".to_string())), Some("10.0.0.1".to_string()));
    assert_eq!(read_default_gateway(Some("# only a comment\n".to_string())), None);
    assert_eq!(read_default_gateway(None), None);
    assert_eq!(read_hostname(Some("  nas \n".to_string())), "nas");
    assert_eq!(read_hostname(None), "unknown");
}

#[test]
fn dns_content_is_read_back() {
    let servers = vec!["1.1.1.1".to_string(), "8.8.8.8".to_string()];
    let search = vec!["example.com".to_string(), "lab.example.com".to_string()];
    let content = dns_config_content(&servers, &search);
    assert_eq!(content, "search example.com lab.example.com\nnameserver 1.1.1.1\nnameserver 8.8.8.8\n");
    assert_eq!(parse_resolv_conf_nameservers(&content), servers);
    assert_eq!(parse_resolv_conf_search(&content), search);
    let no_search = dns_config_content(&servers, &[]);
    assert_eq!(no_search, "nameserver 1.1.1.1\nnameserver 8.8.8.8\n");
    assert!(parse_resolv_conf_search(&no_search).is_empty());
}

#[test]
fn single_line_files_are_read_back() {
    let g = single_line_file("192.168.1.254");
    assert_eq!(g, "192.168.1.254\n");
    assert_eq!(read_default_gateway(Some(g)), Some("192.168.1.254".to_string()));
    assert_eq!(read_hostname(Some(single_line_file("nas01"))), "nas01");
}
