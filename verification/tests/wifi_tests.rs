use simple_host_networks_manager_lib::wifi::{
    get_wifi_networks, is_ssid_connected, WifiNetwork, WifiScanError,
};

fn hotspot(ssid: &str) -> WifiNetwork {
    WifiNetwork {
        mac: "aa:bb:cc:dd:ee:ff".to_string(),
        ssid: ssid.to_string(),
        channel: "6".to_string(),
        signal_level: "-40".to_string(),
        security: String::new(),
    }
}

#[test]
fn successful_scan_keeps_every_network() {
    let scan = Ok(vec![hotspot("Home"), hotspot("Cafe")]);
    let r = get_wifi_networks(scan).unwrap();
    assert_eq!(r, vec![hotspot("Home"), hotspot("Cafe")]);
}

#[test]
fn permission_error_is_fatal() {
    let r = get_wifi_networks(Err("Operation not permitted (-1)".to_string()));
    assert_eq!(r, Err(WifiScanError::ScanRefused));
    assert_eq!(r.unwrap_err().message(), "wifi errors...");
}

#[test]
fn busy_device_is_fatal() {
    let r = get_wifi_networks(Err("Device or resource busy".to_string()));
    assert_eq!(r, Err(WifiScanError::ScanRefused));
}

#[test]
fn other_scan_errors_mean_no_networks() {
    let r = get_wifi_networks(Err("No such device".to_string()));
    assert_eq!(r, Ok(vec![]));
    let r = get_wifi_networks(Err("Couldn't find command".to_string()));
    assert_eq!(r, Ok(vec![]));
}

#[test]
fn active_ssid_is_found_in_listing() {
    let listing = "no:Neighbour\nyes:Home\n";
    assert!(is_ssid_connected(listing, "Home"));
    assert!(!is_ssid_connected(listing, "Neighbour"));
    assert!(!is_ssid_connected(listing, "Cafe"));
}

#[test]
fn line_mentioning_no_never_counts() {
    // "nomad" holds "no", so its line is passed over.
    assert!(!is_ssid_connected("yes:nomad", "nomad"));
    assert!(is_ssid_connected("yes:Nomad", "Nomad"));
}

#[test]
fn empty_listing_and_empty_ssid() {
    assert!(!is_ssid_connected("", "Home"));
    // The only line is empty and holds the empty SSID.
    assert!(is_ssid_connected("", ""));
    assert!(!is_ssid_connected("no:x", ""));
    // The trailing newline yields an empty last line.
    assert!(is_ssid_connected("no:x\n", ""));
}

#[test]
fn last_line_without_newline_is_read() {
    assert!(is_ssid_connected("no:a\nno:b\nyes:c", "c"));
}
