use simple_host_networks_manager_lib::interfaces::{
    get_all_networking_phisical_interfaces, network_type_for_name,
};
use simple_host_networks_manager_lib::structs::{
    Gateway, InterfaceInfo, InterfaceType, IpAddress, Ipv4Network, MacAddress, NetworkType,
};
use simple_host_networks_manager_lib::wifi::WifiNetwork;

fn v4(a: u8, b: u8, c: u8, d: u8) -> u32 {
    u32::from_be_bytes([a, b, c, d])
}

fn host_iface(name: &str, flags: u32, addr: Option<u32>, gateway: Option<u32>) -> InterfaceInfo {
    InterfaceInfo {
        index: 2,
        name: name.to_string(),
        friendly_name: None,
        description: Some("test".to_string()),
        if_type: InterfaceType::Ethernet,
        mac_addr: Some(MacAddress(1, 2, 3, 4, 5, 6)),
        ipv4: match addr {
            Some(a) => vec![Ipv4Network { addr: a, prefix_len: 24, netmask: v4(255, 255, 255, 0) }],
            None => vec![],
        },
        ipv6: vec![],
        flags,
        transmit_speed: Some(1000),
        receive_speed: None,
        gateway: gateway.map(|g| Gateway {
            mac_addr: MacAddress(9, 9, 9, 9, 9, 9),
            ip_addr: IpAddress::V4(g),
        }),
    }
}

fn spot(ssid: &str) -> WifiNetwork {
    WifiNetwork {
        mac: String::new(),
        ssid: ssid.to_string(),
        channel: String::new(),
        signal_level: String::new(),
        security: String::new(),
    }
}

const UP_BROADCAST: u32 = 0x1 | 0x2 | 0x1000;

#[test]
fn kind_follows_interface_name() {
    assert_eq!(network_type_for_name("wlan0"), Some(NetworkType::Wifi));
    assert_eq!(network_type_for_name("wlp3s0"), Some(NetworkType::Wifi));
    assert_eq!(network_type_for_name("eth0"), Some(NetworkType::Ethernet));
    assert_eq!(network_type_for_name("enp0s31f6"), Some(NetworkType::Ethernet));
    assert_eq!(network_type_for_name("ppp0"), Some(NetworkType::Cellular));
    assert_eq!(network_type_for_name("usb0"), None);
}

#[test]
fn loopback_tunnels_bridges_and_vnets_are_not_listed() {
    let ifaces = vec![
        host_iface("lo", 0x1 | 0x8, Some(v4(127, 0, 0, 1)), None),
        host_iface("tun0", 0x1 | 0x10, Some(v4(10, 8, 0, 2)), None),
        host_iface("br-lan", UP_BROADCAST, Some(v4(10, 0, 0, 2)), None),
        host_iface("vnet3", UP_BROADCAST, None, None),
        host_iface("eth0", UP_BROADCAST, Some(v4(10, 0, 0, 2)), None),
    ];
    let r = get_all_networking_phisical_interfaces(ifaces, &vec![], &vec![], "");
    assert_eq!(r.len(), 1);
    assert_eq!(r[0].name, "eth0");
}

#[test]
fn point_to_point_with_broadcast_is_not_a_tunnel() {
    let ifaces = vec![host_iface("ppp0", 0x1 | 0x2 | 0x10, Some(v4(10, 64, 0, 5)), None)];
    let r = get_all_networking_phisical_interfaces(ifaces, &vec![], &vec![], "");
    assert_eq!(r.len(), 1);
    assert_eq!(r[0].network_type, Some(NetworkType::Cellular));
}

#[test]
fn first_address_ending_in_dot_one_is_not_listed() {
    let ifaces = vec![
        host_iface("eth0", UP_BROADCAST, Some(v4(192, 168, 1, 1)), None),
        host_iface("eth1", UP_BROADCAST, Some(v4(192, 168, 1, 10)), None),
        host_iface("eth2", UP_BROADCAST, Some(v4(10, 1, 1, 21)), None),
        host_iface("eth3", UP_BROADCAST, Some(v4(1, 1, 1, 2)), None),
    ];
    let r = get_all_networking_phisical_interfaces(ifaces, &vec![], &vec![], "");
    let names: Vec<&str> = r.iter().map(|i| i.name.as_str()).collect();
    assert_eq!(names, vec!["eth1", "eth2", "eth3"]);
}

#[test]
fn gateway_makes_connected_and_route_makes_default() {
    let gw = v4(10, 0, 0, 1);
    let ifaces = vec![
        host_iface("eth0", UP_BROADCAST, Some(v4(10, 0, 0, 7)), Some(gw)),
        host_iface("eth1", UP_BROADCAST, Some(v4(10, 0, 1, 7)), Some(v4(10, 0, 1, 254))),
        host_iface("eth2", UP_BROADCAST, Some(v4(10, 0, 2, 7)), None),
    ];
    let routes = vec![None, Some(IpAddress::V4(gw)), Some(IpAddress::V6(1))];
    let r = get_all_networking_phisical_interfaces(ifaces, &routes, &vec![], "");
    assert_eq!(r.len(), 3);
    assert_eq!(r[0].is_connected, Some(true));
    assert_eq!(r[0].is_default_route, Some(true));
    assert_eq!(r[1].is_connected, Some(true));
    assert_eq!(r[1].is_default_route, None);
    assert_eq!(r[2].is_connected, None);
    assert_eq!(r[2].is_default_route, None);
    assert_eq!(r[0].ppp_apn_connection_name, None);
    assert_eq!(r[0].description, Some("test".to_string()));
    assert_eq!(r[0].transmit_speed, Some(1000));
    assert_eq!(r[0].ipv4[0].addr, v4(10, 0, 0, 7));
}

#[test]
fn interface_without_address_reports_system_data_only() {
    let ifaces = vec![host_iface("wlan0", UP_BROADCAST, None, Some(v4(10, 0, 0, 1)))];
    let routes = vec![Some(IpAddress::V4(v4(10, 0, 0, 1)))];
    let r = get_all_networking_phisical_interfaces(ifaces, &routes, &vec![spot("Home")], "yes:Home");
    assert_eq!(r.len(), 1);
    assert_eq!(r[0].network_type, None);
    assert_eq!(r[0].is_connected, None);
    assert_eq!(r[0].is_default_route, None);
    assert_eq!(r[0].wifi_connection_ssid, None);
    assert!(r[0].gateway.is_some());
}

#[test]
fn wifi_interface_reports_last_active_ssid() {
    let ifaces = vec![
        host_iface("wlan0", UP_BROADCAST, Some(v4(192, 168, 0, 20)), None),
        host_iface("eth0", UP_BROADCAST, Some(v4(192, 168, 0, 21)), None),
    ];
    let wifi = vec![spot("Home"), spot("Cafe"), spot("Office")];
    let listing = "yes:Home\nno:Office\nyes:Cafe\n";
    let r = get_all_networking_phisical_interfaces(ifaces, &vec![], &wifi, listing);
    assert_eq!(r[0].network_type, Some(NetworkType::Wifi));
    assert_eq!(r[0].wifi_connection_ssid, Some("Cafe".to_string()));
    assert_eq!(r[1].network_type, Some(NetworkType::Ethernet));
    assert_eq!(r[1].wifi_connection_ssid, None);
}

#[test]
fn wifi_interface_without_active_network() {
    let ifaces = vec![host_iface("wlp2s0", UP_BROADCAST, Some(v4(192, 168, 0, 20)), None)];
    let r = get_all_networking_phisical_interfaces(ifaces, &vec![], &vec![spot("Home")], "no:Home");
    assert_eq!(r[0].wifi_connection_ssid, None);
}

#[test]
fn unknown_kind_and_order_are_kept() {
    let ifaces = vec![
        host_iface("usb0", UP_BROADCAST, Some(v4(172, 16, 0, 3)), None),
        host_iface("enp1s0", UP_BROADCAST, Some(v4(172, 16, 1, 3)), None),
    ];
    let r = get_all_networking_phisical_interfaces(ifaces, &vec![], &vec![], "");
    assert_eq!(r.len(), 2);
    assert_eq!(r[0].name, "usb0");
    assert_eq!(r[0].network_type, None);
    assert_eq!(r[1].network_type, Some(NetworkType::Ethernet));
}

#[test]
fn no_interfaces_no_report() {
    let r = get_all_networking_phisical_interfaces(vec![], &vec![], &vec![], "");
    assert!(r.is_empty());
}
