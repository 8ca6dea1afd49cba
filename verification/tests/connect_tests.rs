use simple_host_networks_manager_lib::connect::{
    connect, ConnectAction, ConnectError, ConnectEvent, ConnectInventory, ConnectRequest,
    ConnectSession, NmcliCommand,
};
use simple_host_networks_manager_lib::structs::{
    InterfaceType, NetworkConnectionProfile, NetworkInterface, NetworkType,
};
use simple_host_networks_manager_lib::wifi::WifiNetwork;

fn phys(name: &str, kind: Option<NetworkType>, connected: bool) -> NetworkInterface {
    NetworkInterface {
        index: 1,
        name: name.to_string(),
        friendly_name: None,
        description: None,
        if_type: InterfaceType::Ethernet,
        mac_addr: None,
        ipv4: vec![],
        ipv6: vec![],
        flags: 0,
        transmit_speed: None,
        receive_speed: None,
        gateway: None,
        is_connected: if connected { Some(true) } else { None },
        is_default_route: None,
        network_type: kind,
        wifi_connection_ssid: None,
        ppp_apn_connection_name: None,
    }
}

fn stored(interface: &str) -> NetworkConnectionProfile {
    NetworkConnectionProfile {
        interface: interface.to_string(),
        ipv4: None,
        gateway: None,
        priority: None,
        name: format!("{}-profile", interface),
        network_type: NetworkType::Ethernet,
        wifi_connection_ssid: None,
        wifi_connection_password: None,
        ppp_apn_connection_name: None,
    }
}

fn request(
    disconnect_before: Option<bool>,
    multiple: Option<bool>,
    interface: Option<&str>,
) -> ConnectRequest {
    ConnectRequest {
        disconnect_before,
        multiple,
        interface: interface.map(|s| s.to_string()),
        wifi_password: None,
        apn_name: None,
    }
}

fn inventory(
    interfaces: Vec<NetworkInterface>,
    profiles: &[&str],
    wifi: &[&str],
    listing: &str,
) -> ConnectInventory {
    ConnectInventory {
        interfaces,
        wifi_networks: wifi
            .iter()
            .map(|s| WifiNetwork {
                mac: String::new(),
                ssid: s.to_string(),
                channel: String::new(),
                signal_level: String::new(),
                security: String::new(),
            })
            .collect(),
        profiles: profiles.iter().map(|p| stored(p)).collect(),
        active_listing: listing.to_string(),
    }
}

fn feed(session: &mut ConnectSession, event: ConnectEvent) -> ConnectAction {
    assert!(session.accepts(&event));
    session.on_event(event)
}

fn run(name: &str) -> ConnectAction {
    ConnectAction::Run(NmcliCommand::Connect(name.to_string()))
}

#[test]
fn connected_host_is_left_alone() {
    let (mut s, a) = connect(request(None, None, None));
    assert_eq!(a, ConnectAction::CheckConnection);
    assert!(!s.accepts(&ConnectEvent::CommandDone));
    let a = feed(&mut s, ConnectEvent::ConnectionChecked(true));
    assert_eq!(a, ConnectAction::Finished(Ok(())));
    assert!(!s.accepts(&ConnectEvent::ConnectionChecked(true)));
}

#[test]
fn interfaces_are_brought_up_in_order_with_checks_then_retried_once() {
    let (mut s, a) = connect(request(None, None, None));
    assert_eq!(a, ConnectAction::CheckConnection);
    let a = feed(&mut s, ConnectEvent::ConnectionChecked(false));
    assert_eq!(a, ConnectAction::GatherInventory);
    let inv = || {
        inventory(
            vec![
                phys("eth0", Some(NetworkType::Ethernet), false),
                phys("eth1", Some(NetworkType::Ethernet), false),
                phys("wlan0", Some(NetworkType::Wifi), true),
            ],
            &["eth0", "wlan0"],
            &["Home"],
            "no:Home",
        )
    };
    let a = feed(&mut s, ConnectEvent::InventoryGathered(inv()));
    assert_eq!(a, run("eth0"));
    let a = feed(&mut s, ConnectEvent::CommandDone);
    assert_eq!(a, ConnectAction::CheckConnection);
    // eth1 has no profile; wlan0 is connected and nothing asks to disconnect it.
    let a = feed(&mut s, ConnectEvent::ConnectionChecked(false));
    assert_eq!(a, ConnectAction::CheckConnection);
    // The last check fails: a second attempt, disconnecting first.
    let a = feed(&mut s, ConnectEvent::ConnectionChecked(false));
    assert_eq!(a, ConnectAction::CheckConnection);
    let a = feed(&mut s, ConnectEvent::ConnectionChecked(false));
    assert_eq!(a, ConnectAction::GatherInventory);
    let a = feed(&mut s, ConnectEvent::InventoryGathered(inv()));
    assert_eq!(a, run("eth0"));
    let a = feed(&mut s, ConnectEvent::CommandDone);
    assert_eq!(a, ConnectAction::CheckConnection);
    let a = feed(&mut s, ConnectEvent::ConnectionChecked(false));
    assert_eq!(a, ConnectAction::Run(NmcliCommand::Disconnect("wlan0".to_string())));
    let a = feed(&mut s, ConnectEvent::CommandDone);
    assert_eq!(a, ConnectAction::Run(NmcliCommand::WifiConnect("wlan0".to_string())));
    let a = feed(&mut s, ConnectEvent::CommandDone);
    assert_eq!(a, ConnectAction::CheckConnection);
    let a = feed(&mut s, ConnectEvent::ConnectionChecked(false));
    assert_eq!(a, ConnectAction::CheckConnection);
    let a = feed(&mut s, ConnectEvent::ConnectionChecked(false));
    assert_eq!(a, ConnectAction::Finished(Err(ConnectError::NotConnected)));
    assert_eq!(ConnectError::NotConnected.message(), "error connecting");
}

#[test]
fn a_working_check_stops_the_plan() {
    let (mut s, _) = connect(request(None, None, None));
    feed(&mut s, ConnectEvent::ConnectionChecked(false));
    let inv = inventory(
        vec![
            phys("eth0", Some(NetworkType::Ethernet), false),
            phys("ppp0", Some(NetworkType::Cellular), false),
        ],
        &["eth0", "ppp0"],
        &[],
        "",
    );
    assert_eq!(feed(&mut s, ConnectEvent::InventoryGathered(inv)), run("eth0"));
    assert_eq!(feed(&mut s, ConnectEvent::CommandDone), ConnectAction::CheckConnection);
    assert_eq!(
        feed(&mut s, ConnectEvent::ConnectionChecked(true)),
        ConnectAction::Finished(Ok(()))
    );
}

#[test]
fn named_interface_only_and_no_retry() {
    let (mut s, _) = connect(request(None, None, Some("ppp0")));
    feed(&mut s, ConnectEvent::ConnectionChecked(false));
    let inv = inventory(
        vec![
            phys("eth0", Some(NetworkType::Ethernet), false),
            phys("ppp0", Some(NetworkType::Cellular), false),
        ],
        &["eth0", "ppp0"],
        &[],
        "",
    );
    assert_eq!(feed(&mut s, ConnectEvent::InventoryGathered(inv)), run("ppp0"));
    assert_eq!(feed(&mut s, ConnectEvent::CommandDone), ConnectAction::CheckConnection);
    assert_eq!(feed(&mut s, ConnectEvent::ConnectionChecked(false)), ConnectAction::CheckConnection);
    assert_eq!(
        feed(&mut s, ConnectEvent::ConnectionChecked(false)),
        ConnectAction::Finished(Err(ConnectError::NotConnected))
    );
}

#[test]
fn multiple_brings_up_everything_without_intermediate_checks() {
    let (mut s, a) = connect(request(None, Some(true), None));
    assert_eq!(a, ConnectAction::GatherInventory);
    let inv = inventory(
        vec![
            phys("eth0", Some(NetworkType::Ethernet), false),
            phys("enp2s0", Some(NetworkType::Ethernet), false),
        ],
        &["eth0", "enp2s0"],
        &[],
        "",
    );
    assert_eq!(feed(&mut s, ConnectEvent::InventoryGathered(inv)), run("eth0"));
    assert_eq!(feed(&mut s, ConnectEvent::CommandDone), run("enp2s0"));
    assert_eq!(feed(&mut s, ConnectEvent::CommandDone), ConnectAction::CheckConnection);
    assert_eq!(
        feed(&mut s, ConnectEvent::ConnectionChecked(true)),
        ConnectAction::Finished(Ok(()))
    );
}

#[test]
fn failed_inventory_ends_the_attempt() {
    let (mut s, _) = connect(request(None, None, None));
    feed(&mut s, ConnectEvent::ConnectionChecked(false));
    let a = feed(&mut s, ConnectEvent::InventoryFailed("error scanning wifi".to_string()));
    assert_eq!(
        a,
        ConnectAction::Finished(Err(ConnectError::Inventory("error scanning wifi".to_string())))
    );
    assert_eq!(
        ConnectError::Inventory("error scanning wifi".to_string()).message(),
        "error scanning wifi"
    );
}

#[test]
fn connected_wifi_network_keeps_wifi_interfaces_alone() {
    let (mut s, _) = connect(request(None, Some(true), None));
    let inv = inventory(
        vec![phys("wlan0", Some(NetworkType::Wifi), false)],
        &["wlan0"],
        &["Home", "Cafe"],
        "no:Home\nyes:Cafe",
    );
    assert_eq!(
        feed(&mut s, ConnectEvent::InventoryGathered(inv)),
        ConnectAction::CheckConnection
    );
}

#[test]
fn disconnect_first_then_connect_again() {
    let (mut s, a) = connect(request(Some(true), Some(true), None));
    assert_eq!(a, ConnectAction::GatherInventory);
    let inv = inventory(
        vec![
            phys("eth0", Some(NetworkType::Ethernet), true),
            phys("bt0", Some(NetworkType::Bluetooth), true),
            phys("wlan0", Some(NetworkType::Wifi), false),
        ],
        &["eth0", "bt0", "wlan0"],
        &["Home"],
        "yes:Home",
    );
    assert_eq!(
        feed(&mut s, ConnectEvent::InventoryGathered(inv)),
        ConnectAction::Run(NmcliCommand::Disconnect("eth0".to_string()))
    );
    assert_eq!(feed(&mut s, ConnectEvent::CommandDone), run("eth0"));
    assert_eq!(
        feed(&mut s, ConnectEvent::CommandDone),
        ConnectAction::Run(NmcliCommand::Disconnect("bt0".to_string()))
    );
    assert_eq!(
        feed(&mut s, ConnectEvent::CommandDone),
        ConnectAction::Run(NmcliCommand::WifiConnect("wlan0".to_string()))
    );
    assert_eq!(feed(&mut s, ConnectEvent::CommandDone), ConnectAction::CheckConnection);
    // disconnect_before was given: no second attempt.
    assert_eq!(
        feed(&mut s, ConnectEvent::ConnectionChecked(false)),
        ConnectAction::Finished(Err(ConnectError::NotConnected))
    );
}

#[test]
fn interface_of_unknown_kind_gets_only_a_check() {
    let (mut s, _) = connect(request(None, None, None));
    feed(&mut s, ConnectEvent::ConnectionChecked(false));
    let inv = inventory(vec![phys("usb0", None, false)], &["usb0"], &[], "");
    assert_eq!(
        feed(&mut s, ConnectEvent::InventoryGathered(inv)),
        ConnectAction::CheckConnection
    );
    assert!(s.accepts(&ConnectEvent::ConnectionChecked(true)));
    assert!(!s.accepts(&ConnectEvent::CommandDone));
}

#[test]
fn password_or_apn_prevent_the_retry() {
    let mut req = request(None, None, None);
    req.apn_name = Some("internet".to_string());
    let (mut s, _) = connect(req);
    feed(&mut s, ConnectEvent::ConnectionChecked(false));
    let inv = inventory(vec![], &[], &[], "");
    assert_eq!(
        feed(&mut s, ConnectEvent::InventoryGathered(inv)),
        ConnectAction::CheckConnection
    );
    assert_eq!(
        feed(&mut s, ConnectEvent::ConnectionChecked(false)),
        ConnectAction::Finished(Err(ConnectError::NotConnected))
    );
}

#[test]
fn nmcli_arguments() {
    assert_eq!(
        NmcliCommand::Disconnect("eth0".to_string()).args(),
        vec!["dev", "disconnect", "eth0"]
    );
    assert_eq!(
        NmcliCommand::WifiConnect("wlan0".to_string()).args(),
        vec!["dev", "wifi", "connect", "wlan0"]
    );
    assert_eq!(NmcliCommand::Connect("ppp0".to_string()).args(), vec!["dev", "connect", "ppp0"]);
    let c = NmcliCommand::Connect("x".to_string());
    assert_eq!(c.duplicate(), c);
}

#[test]
fn password_and_apn_contents_do_not_matter() {
    let drive = |password: &str, apn: &str| {
        let mut req = request(None, None, None);
        req.wifi_password = Some(password.to_string());
        req.apn_name = Some(apn.to_string());
        let (mut s, first) = connect(req);
        let mut actions = vec![first];
        actions.push(feed(&mut s, ConnectEvent::ConnectionChecked(false)));
        let inv = inventory(
            vec![phys("wlan0", Some(NetworkType::Wifi), false)],
            &["wlan0"],
            &[],
            "",
        );
        actions.push(feed(&mut s, ConnectEvent::InventoryGathered(inv)));
        actions.push(feed(&mut s, ConnectEvent::CommandDone));
        actions.push(feed(&mut s, ConnectEvent::ConnectionChecked(false)));
        actions.push(feed(&mut s, ConnectEvent::ConnectionChecked(false)));
        actions
    };
    let a = drive("secret", "internet");
    let b = drive("other", "web");
    assert_eq!(a, b);
    assert_eq!(a[2], ConnectAction::Run(NmcliCommand::WifiConnect("wlan0".to_string())));
    assert_eq!(a[5], ConnectAction::Finished(Err(ConnectError::NotConnected)));
}
