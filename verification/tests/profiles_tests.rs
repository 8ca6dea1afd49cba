use simple_host_networks_manager_lib::profiles::{
    check_connection_profile, check_profile_fields, connection_db_path, default_connection_db_path,
    remove_connection_profile, set_connection_profile, ProfileError,
};
use simple_host_networks_manager_lib::structs::{NetworkConnectionProfile, NetworkType};
use simple_host_networks_manager_lib::wifi::{WifiNetwork, WifiScanError};

fn profile_for(interface: &str, name: &str, kind: NetworkType) -> NetworkConnectionProfile {
    NetworkConnectionProfile {
        interface: interface.to_string(),
        ipv4: None,
        gateway: None,
        priority: None,
        name: name.to_string(),
        network_type: kind,
        wifi_connection_ssid: None,
        wifi_connection_password: None,
        ppp_apn_connection_name: None,
    }
}

fn hotspot_named(ssid: &str) -> WifiNetwork {
    WifiNetwork {
        mac: String::new(),
        ssid: ssid.to_string(),
        channel: String::new(),
        signal_level: String::new(),
        security: String::new(),
    }
}

fn names(ps: &[NetworkConnectionProfile]) -> Vec<String> {
    ps.iter().map(|p| p.name.clone()).collect()
}

#[test]
fn plain_ethernet_profile_is_accepted() {
    let p = profile_for("eth0", "wired", NetworkType::Ethernet);
    assert_eq!(check_profile_fields(&p), Ok(false));
}

#[test]
fn ethernet_profile_with_wifi_fields_is_refused() {
    let mut p = profile_for("eth0", "wired", NetworkType::Ethernet);
    p.wifi_connection_ssid = Some("Home".to_string());
    assert_eq!(check_profile_fields(&p), Err(ProfileError::WifiFieldsOnEthernet));
    let mut p = profile_for("eth0", "wired", NetworkType::Ethernet);
    p.wifi_connection_password = Some("secret".to_string());
    p.ppp_apn_connection_name = Some("apn".to_string());
    assert_eq!(check_profile_fields(&p), Err(ProfileError::WifiFieldsOnEthernet));
    assert_eq!(
        ProfileError::WifiFieldsOnEthernet.message(),
        "wifi_connection_ssid and wifi_connection_password are not required for ethernet"
    );
}

#[test]
fn ethernet_profile_with_apn_is_refused() {
    let mut p = profile_for("eth0", "wired", NetworkType::Ethernet);
    p.ppp_apn_connection_name = Some("internet".to_string());
    assert_eq!(check_profile_fields(&p), Err(ProfileError::ApnOnEthernet));
    assert_eq!(
        ProfileError::ApnOnEthernet.message(),
        "ppp_apn_connection_name is not required for ethernet"
    );
}

#[test]
fn wifi_profile_needs_ssid_then_password() {
    let mut p = profile_for("wlan0", "home", NetworkType::Wifi);
    p.wifi_connection_password = Some("secret".to_string());
    assert_eq!(check_profile_fields(&p), Err(ProfileError::SsidRequired));
    let mut p = profile_for("wlan0", "home", NetworkType::Wifi);
    p.wifi_connection_ssid = Some("Home".to_string());
    assert_eq!(check_profile_fields(&p), Err(ProfileError::PasswordRequired));
    p.wifi_connection_password = Some("secret".to_string());
    assert_eq!(check_profile_fields(&p), Ok(true));
    assert_eq!(ProfileError::SsidRequired.message(), "wifi_connection_ssid is required");
    assert_eq!(ProfileError::PasswordRequired.message(), "wifi_connection_password is required");
}

#[test]
fn cellular_profile_needs_apn() {
    let mut p = profile_for("ppp0", "mobile", NetworkType::Cellular);
    assert_eq!(check_profile_fields(&p), Err(ProfileError::ApnRequired));
    p.ppp_apn_connection_name = Some("internet".to_string());
    assert_eq!(check_profile_fields(&p), Ok(false));
    assert_eq!(ProfileError::ApnRequired.message(), "ppp_apn_connection_name is required");
}

#[test]
fn bluetooth_profile_is_accepted() {
    let mut p = profile_for("bt0", "bt", NetworkType::Bluetooth);
    p.wifi_connection_ssid = Some("x".to_string());
    assert_eq!(check_profile_fields(&p), Ok(false));
}

#[test]
fn ssid_must_be_among_scanned_networks() {
    let mut p = profile_for("wlan0", "home", NetworkType::Wifi);
    p.wifi_connection_ssid = Some("Home".to_string());
    p.wifi_connection_password = Some("secret".to_string());
    let scan = Ok(vec![hotspot_named("Cafe"), hotspot_named("Home")]);
    assert_eq!(check_connection_profile(&p, &scan), Ok(()));
    let scan = Ok(vec![hotspot_named("Cafe"), hotspot_named("home")]);
    assert_eq!(check_connection_profile(&p, &scan), Err(ProfileError::SsidNotFound));
    assert_eq!(check_connection_profile(&p, &Ok(vec![])), Err(ProfileError::SsidNotFound));
    assert_eq!(ProfileError::SsidNotFound.message(), "wifi_connection_ssid not found");
}

#[test]
fn failed_scan_refuses_wifi_profile() {
    let mut p = profile_for("wlan0", "home", NetworkType::Wifi);
    p.wifi_connection_ssid = Some("Home".to_string());
    p.wifi_connection_password = Some("secret".to_string());
    let scan = Err(WifiScanError::ScanRefused);
    assert_eq!(
        check_connection_profile(&p, &scan),
        Err(ProfileError::WifiScan(WifiScanError::ScanRefused))
    );
    assert_eq!(ProfileError::WifiScan(WifiScanError::ScanRefused).message(), "wifi errors...");
}

#[test]
fn added_profile_comes_last() {
    let ps = vec![profile_for("eth0", "a", NetworkType::Ethernet)];
    let mut p = profile_for("wlan0", "b", NetworkType::Wifi);
    p.wifi_connection_ssid = Some("Home".to_string());
    p.wifi_connection_password = Some("secret".to_string());
    let ps = set_connection_profile(ps, p, &Ok(vec![hotspot_named("Home")])).unwrap();
    assert_eq!(names(&ps), vec!["a", "b"]);
    let ps = set_connection_profile(ps, profile_for("eth1", "c", NetworkType::Ethernet), &Ok(vec![]))
        .unwrap();
    assert_eq!(names(&ps), vec!["a", "b", "c"]);
}

#[test]
fn refused_profiles_are_not_stored() {
    let ps = vec![profile_for("eth0", "a", NetworkType::Ethernet)];
    let mut wired = profile_for("eth0", "p", NetworkType::Ethernet);
    wired.wifi_connection_ssid = Some("home".to_string());
    let r = set_connection_profile(ps.clone(), wired, &Ok(vec![]));
    assert_eq!(r.unwrap_err(), ProfileError::WifiFieldsOnEthernet);
    let r = set_connection_profile(ps.clone(), profile_for("ppp0", "cell", NetworkType::Cellular), &Ok(vec![]));
    assert_eq!(r.unwrap_err().message(), "ppp_apn_connection_name is required");
    let r = set_connection_profile(ps.clone(), profile_for("wlan0", "w", NetworkType::Wifi), &Ok(vec![]));
    assert_eq!(r.unwrap_err(), ProfileError::SsidRequired);
    let mut w = profile_for("wlan0", "w", NetworkType::Wifi);
    w.wifi_connection_ssid = Some("Home".to_string());
    w.wifi_connection_password = Some("secret".to_string());
    let r = set_connection_profile(ps.clone(), w.clone(), &Ok(vec![hotspot_named("Cafe")]));
    assert_eq!(r.unwrap_err(), ProfileError::SsidNotFound);
    let r = set_connection_profile(ps.clone(), w, &Err(WifiScanError::ScanRefused));
    assert_eq!(r.unwrap_err(), ProfileError::WifiScan(WifiScanError::ScanRefused));
}

#[test]
fn scan_is_not_looked_at_when_not_asked_for() {
    let p = profile_for("eth0", "wired", NetworkType::Ethernet);
    assert_eq!(check_connection_profile(&p, &Err(WifiScanError::ScanRefused)), Ok(()));
    let ps = set_connection_profile(vec![], p, &Err(WifiScanError::ScanRefused)).unwrap();
    assert_eq!(names(&ps), vec!["wired"]);
}

#[test]
fn removal_drops_every_profile_of_the_interface() {
    let ps = vec![
        profile_for("eth0", "a", NetworkType::Ethernet),
        profile_for("wlan0", "b", NetworkType::Wifi),
        profile_for("eth0", "c", NetworkType::Ethernet),
        profile_for("ppp0", "d", NetworkType::Cellular),
    ];
    let r = remove_connection_profile(ps, "eth0");
    assert_eq!(names(&r), vec!["b", "d"]);
    let r = remove_connection_profile(r, "eth0");
    assert_eq!(names(&r), vec!["b", "d"]);
    let r = remove_connection_profile(r, "eth");
    assert_eq!(names(&r), vec!["b", "d"]);
}

#[test]
fn adding_then_removing_its_interface_restores_the_rest() {
    let base = vec![
        profile_for("eth0", "a", NetworkType::Ethernet),
        profile_for("wlan0", "b", NetworkType::Wifi),
    ];
    let mut wifi = profile_for("wlan0", "c", NetworkType::Wifi);
    wifi.wifi_connection_ssid = Some("Home".to_string());
    wifi.wifi_connection_password = Some("secret".to_string());
    let added =
        set_connection_profile(base.clone(), wifi, &Ok(vec![hotspot_named("Home")])).unwrap();
    let removed = remove_connection_profile(added, "wlan0");
    assert_eq!(names(&removed), names(&remove_connection_profile(base.clone(), "wlan0")));
    let mut cell = profile_for("ppp0", "d", NetworkType::Cellular);
    cell.ppp_apn_connection_name = Some("internet".to_string());
    let added = set_connection_profile(base.clone(), cell, &Ok(vec![])).unwrap();
    let removed = remove_connection_profile(added, "eth0");
    assert_eq!(names(&removed), vec!["b", "d"]);
}

#[test]
fn profile_file_defaults_to_etc() {
    assert_eq!(connection_db_path(None), "/etc/simple-host-networks-manager/profiles.json");
    assert_eq!(connection_db_path(Some("/tmp/p.json".to_string())), "/tmp/p.json");
    assert_eq!(default_connection_db_path(), "/etc/simple-host-networks-manager/profiles.json");
}
