use ip_to_networkd::emit::{concat_routes, network_files, render_network, NetworkFile};
use ip_to_networkd::filter::{filter_interfaces, filter_routes};
use ip_to_networkd::model::{AddrInfo, Interface, Route};

fn addr(scope: &str, dynamic: bool, local: &str, prefixlen: u8) -> AddrInfo {
    AddrInfo {
        scope: scope.to_string(),
        dynamic,
        local: local.to_string(),
        prefixlen,
    }
}

fn iface(name: &str, link_type: &str, mac: Option<&str>, addrs: Vec<AddrInfo>) -> Interface {
    Interface {
        ifname: name.to_string(),
        link_type: link_type.to_string(),
        address: mac.map(|m| m.to_string()),
        addr_info: addrs,
    }
}

fn route(protocol: &str, dev: &str, dst: &str, gateway: Option<&str>) -> Route {
    Route {
        protocol: protocol.to_string(),
        dev: dev.to_string(),
        dst: dst.to_string(),
        gateway: gateway.map(|g| g.to_string()),
    }
}

const HEAD: &str = "[Match]\nMACAddress = aa:bb:cc:dd:ee:ff\n\n[Network]\nDHCP = yes\nIPv6AcceptRA = yes\n";

fn names(files: &[NetworkFile]) -> Vec<String> {
    files.iter().map(|f| f.ifname.clone()).collect()
}

#[test]
fn static_address_and_default_route() {
    let ifs = vec![iface(
        "eth0",
        "ether",
        Some("aa:bb:cc:dd:ee:ff"),
        vec![addr("global", false, "10.0.0.5", 24)],
    )];
    let v4 = vec![route("static", "eth0", "default", Some("10.0.0.1"))];
    let files = network_files(&ifs, &v4, &vec![]);
    assert_eq!(files.len(), 1);
    assert_eq!(files[0].ifname, "eth0");
    let expected = format!(
        "{}Address = 10.0.0.5/24\n\n[Route]\nGateway = 10.0.0.1\nDHCP = yes\n",
        HEAD
    );
    assert_eq!(files[0].contents, expected);
}

#[test]
fn dynamic_only_interface_is_emitted() {
    let ifs = vec![iface(
        "eth1",
        "ether",
        Some("aa:bb:cc:dd:ee:ff"),
        vec![addr("global", true, "192.168.1.20", 24)],
    )];
    let kept = filter_interfaces(&ifs);
    assert_eq!(kept.len(), 1);
    assert!(kept[0].addr_info.is_empty());
    let files = network_files(&ifs, &vec![], &vec![]);
    assert_eq!(files.len(), 1);
    assert_eq!(files[0].contents, HEAD);
}

#[test]
fn loopback_is_never_emitted() {
    let ifs = vec![
        iface(
            "lo",
            "loopback",
            Some("00:00:00:00:00:00"),
            vec![addr("host", false, "127.0.0.1", 8), addr("host", false, "::1", 128)],
        ),
        iface("eth0", "ether", Some("aa:bb:cc:dd:ee:ff"), vec![addr("global", true, "10.0.0.9", 8)]),
    ];
    let v4 = vec![route("static", "lo", "10.9.0.0/16", None)];
    let kept = filter_interfaces(&ifs);
    assert_eq!(kept.len(), 1);
    assert_eq!(kept[0].ifname, "eth0");
    let files = network_files(&ifs, &v4, &vec![]);
    assert_eq!(names(&files), vec!["eth0".to_string()]);
}

#[test]
fn interface_without_mac_is_excluded() {
    let ifs = vec![iface("tun0", "none", None, vec![addr("global", false, "10.8.0.1", 24)])];
    assert!(filter_interfaces(&ifs).is_empty());
    assert!(network_files(&ifs, &vec![], &vec![]).is_empty());
}

#[test]
fn link_scoped_addresses_are_removed() {
    let ifs = vec![
        iface(
            "eth0",
            "ether",
            Some("aa:bb:cc:dd:ee:ff"),
            vec![
                addr("link", false, "fe80::1", 64),
                addr("global", false, "10.0.0.5", 24),
            ],
        ),
        iface("eth1", "ether", Some("11:22:33:44:55:66"), vec![addr("link", false, "fe80::2", 64)]),
        iface("eth2", "ether", Some("11:22:33:44:55:77"), vec![addr("link", true, "fe80::3", 64)]),
    ];
    let kept = filter_interfaces(&ifs);
    assert_eq!(kept.len(), 1);
    assert_eq!(kept[0].ifname, "eth0");
    assert_eq!(kept[0].addr_info.len(), 1);
    assert_eq!(kept[0].addr_info[0].local, "10.0.0.5");
    assert_eq!(kept[0].addr_info[0].prefixlen, 24);
}

#[test]
fn transient_routes_are_removed_others_unchanged() {
    let routes = vec![
        route("dhcp", "eth0", "default", Some("10.0.0.1")),
        route("static", "eth0", "10.1.0.0/16", Some("10.0.0.2")),
        route("kernel", "eth0", "10.0.0.0/24", None),
        route("boot", "eth1", "default", None),
        route("ra", "eth0", "default", Some("fe80::1")),
    ];
    let kept = filter_routes(&routes);
    assert_eq!(kept.len(), 2);
    assert_eq!(kept[0].protocol, "static");
    assert_eq!(kept[0].dev, "eth0");
    assert_eq!(kept[0].dst, "10.1.0.0/16");
    assert_eq!(kept[0].gateway, Some("10.0.0.2".to_string()));
    assert_eq!(kept[1].protocol, "boot");
    assert_eq!(kept[1].dev, "eth1");
    assert_eq!(kept[1].dst, "default");
    assert_eq!(kept[1].gateway, None);
}

#[test]
fn dhcp_route_gives_no_route_section() {
    let ifs = vec![iface(
        "eth0",
        "ether",
        Some("aa:bb:cc:dd:ee:ff"),
        vec![addr("global", false, "10.0.0.5", 24)],
    )];
    let v4 = vec![route("dhcp", "eth0", "default", Some("10.0.0.1"))];
    let files = network_files(&ifs, &v4, &vec![]);
    assert_eq!(files.len(), 1);
    assert!(!files[0].contents.contains("[Route]"));
    assert_eq!(files[0].contents, format!("{}Address = 10.0.0.5/24\n", HEAD));
}

#[test]
fn regeneration_is_identical() {
    let ifs = vec![
        iface("eth0", "ether", Some("aa:bb:cc:dd:ee:ff"), vec![addr("global", false, "10.0.0.5", 24)]),
        iface("eth1", "ether", Some("11:22:33:44:55:66"), vec![addr("global", true, "10.1.0.5", 16)]),
    ];
    let v4 = vec![route("static", "eth0", "default", Some("10.0.0.1"))];
    let v6 = vec![route("static", "eth1", "2001:db8::/32", None)];
    let first = network_files(&ifs, &v4, &v6);
    let second = network_files(&ifs, &v4, &v6);
    assert_eq!(names(&first), names(&second));
    for (a, b) in first.iter().zip(second.iter()) {
        assert_eq!(a.contents.as_bytes(), b.contents.as_bytes());
    }
}

#[test]
fn addresses_and_routes_keep_their_order() {
    let ifs = vec![iface(
        "eth0",
        "ether",
        Some("aa:bb:cc:dd:ee:ff"),
        vec![
            addr("global", false, "10.0.0.5", 24),
            addr("global", false, "2001:db8::5", 64),
        ],
    )];
    let v4 = vec![route("static", "eth0", "10.2.0.0/16", Some("10.0.0.1"))];
    let v6 = vec![route("boot", "eth0", "2001:db8:1::/48", Some("2001:db8::1"))];
    let files = network_files(&ifs, &v4, &v6);
    let expected = format!(
        "{}Address = 10.0.0.5/24\nAddress = 2001:db8::5/64\n\
         \n[Route]\nDestination = 10.2.0.0/16\nGateway = 10.0.0.1\nDHCP = yes\n\
         \n[Route]\nDestination = 2001:db8:1::/48\nGateway = 2001:db8::1\nDHCP = yes\n",
        HEAD
    );
    assert_eq!(files[0].contents, expected);
}

#[test]
fn route_without_gateway_or_to_other_device() {
    let eth0 = iface("eth0", "ether", Some("aa:bb:cc:dd:ee:ff"), vec![addr("global", false, "10.0.0.5", 24)]);
    let routes = vec![
        route("static", "eth9", "10.3.0.0/16", Some("10.0.0.1")),
        route("static", "eth0", "10.4.0.0/16", None),
    ];
    let doc = render_network(&eth0, &routes);
    assert_eq!(
        doc,
        format!(
            "{}Address = 10.0.0.5/24\n\n[Route]\nDestination = 10.4.0.0/16\nDHCP = yes\n",
            HEAD
        )
    );
}

#[test]
fn prefix_lengths_are_written_in_decimal() {
    let cases: Vec<(u8, &str)> = vec![
        (0, "0"),
        (7, "7"),
        (10, "10"),
        (64, "64"),
        (99, "99"),
        (100, "100"),
        (128, "128"),
        (255, "255"),
    ];
    for (len, text) in cases {
        let i = iface("eth0", "ether", Some("aa:bb:cc:dd:ee:ff"), vec![addr("global", false, "10.0.0.0", len)]);
        let doc = render_network(&i, &vec![]);
        assert_eq!(doc, format!("{}Address = 10.0.0.0/{}\n", HEAD, text));
    }
}

#[test]
fn ipv4_routes_come_before_ipv6_routes() {
    let v4 = vec![route("static", "a", "default", None), route("kernel", "b", "default", None)];
    let v6 = vec![route("boot", "c", "default", None)];
    let all = concat_routes(&v4, &v6);
    let devs: Vec<&str> = all.iter().map(|r| r.dev.as_str()).collect();
    assert_eq!(devs, vec!["a", "b", "c"]);
}

#[test]
fn interfaces_keep_input_order_and_empty_input() {
    let ifs = vec![
        iface("eth2", "ether", Some("aa:bb:cc:dd:ee:02"), vec![addr("global", false, "10.0.2.1", 24)]),
        iface("lo", "loopback", None, vec![]),
        iface("eth1", "ether", Some("aa:bb:cc:dd:ee:01"), vec![]),
        iface("eth0", "ether", Some("aa:bb:cc:dd:ee:00"), vec![addr("global", true, "10.0.0.1", 24)]),
    ];
    let files = network_files(&ifs, &vec![], &vec![]);
    assert_eq!(names(&files), vec!["eth2".to_string(), "eth0".to_string()]);
    assert!(network_files(&vec![], &vec![], &vec![]).is_empty());
}
