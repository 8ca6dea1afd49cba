//! The data the manager works on: network kinds, interfaces as the system
//! reports them and as this library describes them, connection profiles and
//! access point names.

use vstd::prelude::*;

verus! {

/// The kind of a network connection.
#[derive(Debug, Clone, Copy, PartialEq, Eq, Structural)]
pub enum NetworkType {
    Wifi,
    Ethernet,
    Bluetooth,
    Cellular,
}

/// An IP address, IPv4 as its 32-bit value and IPv6 as its 128-bit value
/// (most significant byte first, as in network order).
#[derive(Debug, Clone, Copy, PartialEq, Eq, Structural)]
pub enum IpAddress {
    V4(u32),
    V6(u128),
}

/// An IPv4 network: an address with its prefix length and network mask.
#[derive(Debug, Clone, Copy, PartialEq, Eq, Structural)]
pub struct Ipv4Network {
    pub addr: u32,
    pub prefix_len: u8,
    pub netmask: u32,
}

/// An IPv6 network: an address with its prefix length and network mask.
#[derive(Debug, Clone, Copy, PartialEq, Eq, Structural)]
pub struct Ipv6Network {
    pub addr: u128,
    pub prefix_len: u8,
    pub netmask: u128,
}

/// A MAC address, its six octets in order.
#[derive(Debug, Clone, Copy, PartialEq, Eq, Structural)]
pub struct MacAddress(pub u8, pub u8, pub u8, pub u8, pub u8, pub u8);

/// The default gateway of an interface.
#[derive(Debug, Clone, Copy, PartialEq, Eq, Structural)]
pub struct Gateway {
    pub mac_addr: MacAddress,
    pub ip_addr: IpAddress,
}

/// The link type of a network interface.
#[derive(Debug, Clone, Copy, PartialEq, Eq, Structural)]
pub enum InterfaceType {
    Unknown,
    Ethernet,
    TokenRing,
    Fddi,
    BasicIsdn,
    PrimaryIsdn,
    Ppp,
    Loopback,
    Ethernet3Megabit,
    Slip,
    Atm,
    GenericModem,
    FastEthernetT,
    Isdn,
    FastEthernetFx,
    Wireless80211,
    AsymmetricDsl,
    RateAdaptDsl,
    SymmetricDsl,
    VeryHighSpeedDsl,
    IPOverAtm,
    GigabitEthernet,
    Tunnel,
    MultiRateSymmetricDsl,
    HighPerformanceSerialBus,
    Wman,
    Wwanpp,
    Wwanpp2,
}

/// A network interface as the operating system reports it.
#[derive(Debug)]
pub struct InterfaceInfo {
    /// Index of network interface
    pub index: u32,
    /// Name of network interface
    pub name: String,
    /// Friendly Name of network interface
    pub friendly_name: Option<String>,
    /// Description of the network interface
    pub description: Option<String>,
    /// Interface Type
    pub if_type: InterfaceType,
    /// MAC address of network interface
    pub mac_addr: Option<MacAddress>,
    /// IPv4 networks of the interface
    pub ipv4: Vec<Ipv4Network>,
    /// IPv6 networks of the interface
    pub ipv6: Vec<Ipv6Network>,
    /// Flags for the network interface (OS Specific)
    pub flags: u32,
    /// Speed in bits per second of the transmit for the network interface
    pub transmit_speed: Option<u64>,
    /// Speed in bits per second of the receive for the network interface
    pub receive_speed: Option<u64>,
    /// Default gateway for the network interface
    pub gateway: Option<Gateway>,
}

/// A physical network interface as this library describes it: what the
/// system reports, plus its kind, connection state and Wi-Fi network.
#[derive(Debug)]
pub struct NetworkInterface {
    /// Index of network interface
    pub index: u32,
    /// Name of network interface
    pub name: String,
    /// Friendly Name of network interface
    pub friendly_name: Option<String>,
    /// Description of the network interface
    pub description: Option<String>,
    /// Interface Type
    pub if_type: InterfaceType,
    /// MAC address of network interface
    pub mac_addr: Option<MacAddress>,
    /// IPv4 networks of the interface
    pub ipv4: Vec<Ipv4Network>,
    /// IPv6 networks of the interface
    pub ipv6: Vec<Ipv6Network>,
    /// Flags for the network interface (OS Specific)
    pub flags: u32,
    /// Speed in bits per second of the transmit for the network interface
    pub transmit_speed: Option<u64>,
    /// Speed in bits per second of the receive for the network interface
    pub receive_speed: Option<u64>,
    /// Default gateway for the network interface
    pub gateway: Option<Gateway>,

    pub is_connected: Option<bool>,

    pub is_default_route: Option<bool>,

    pub network_type: Option<NetworkType>,

    pub wifi_connection_ssid: Option<String>,

    pub ppp_apn_connection_name: Option<String>,
}

/// A stored connection profile: which interface connects how.
#[derive(Debug, Clone)]
pub struct NetworkConnectionProfile {
    pub interface: String,
    /// IPv4 address, as its 32-bit value
    pub ipv4: Option<u32>,
    /// IPv4 gateway address, as its 32-bit value
    pub gateway: Option<u32>,
    pub priority: Option<u8>,
    pub name: String,
    pub network_type: NetworkType,
    pub wifi_connection_ssid: Option<String>,
    pub wifi_connection_password: Option<String>,
    pub ppp_apn_connection_name: Option<String>,
}

/// A cellular access point.
#[derive(Debug, Clone)]
pub struct APN {
    pub name: String,
    pub username: Option<String>,
    pub password: Option<String>,
    pub apn: String,
    pub auth_type: Option<String>,
    pub ip_type: Option<String>,
    pub dns1: Option<String>,
    pub dns2: Option<String>,
    pub ipv4: Option<String>,
    pub ipv6: Option<String>,
}

} // verus!
