//! Which of the host's interfaces are physical network interfaces, and what
//! this library reports about each of them.

use vstd::prelude::*;
use crate::structs::{InterfaceInfo, IpAddress, Ipv4Network, NetworkInterface, NetworkType};
use crate::text::{contains, occurs_at, seq_contains, seq_starts_with, starts_with};
use crate::wifi::{is_ssid_connected, listing_shows_ssid_active, WifiNetwork};

verus! {

/// Interface flag: the interface is up (libc's `IFF_UP` on Linux).
pub const IFF_UP: u32 = 0x1;

/// Interface flag: broadcast address valid (libc's `IFF_BROADCAST` on Linux).
pub const IFF_BROADCAST: u32 = 0x2;

/// Interface flag: loopback interface (libc's `IFF_LOOPBACK` on Linux).
pub const IFF_LOOPBACK: u32 = 0x8;

/// Interface flag: point-to-point link (libc's `IFF_POINTOPOINT` on Linux).
pub const IFF_POINTOPOINT: u32 = 0x10;

/// The flags mark a loopback interface.
pub open spec fn flags_loopback(flags: u32) -> bool {
    flags & IFF_LOOPBACK != 0
}

/// The flags mark a tunnel: up, point-to-point, neither broadcast nor loopback.
pub open spec fn flags_tun(flags: u32) -> bool {
    &&& flags & IFF_UP != 0
    &&& flags & IFF_POINTOPOINT != 0
    &&& flags & IFF_BROADCAST == 0
    &&& flags & IFF_LOOPBACK == 0
}

/// default_net's `Interface::is_loopback`, asked of an interface with these
/// flags. It tests the `IFF_LOOPBACK` bit; the contract states the Linux value
/// of that bit.
#[verifier::external_body]
fn interface_is_loopback(flags: u32) -> (r: bool)
    ensures
        r == flags_loopback(flags),
{
    let mut iface = default_net::interface::Interface::dummy();
    iface.flags = flags;
    iface.is_loopback()
}

/// default_net's `Interface::is_tun`, asked of an interface with these flags:
/// up, point-to-point, not broadcast and not loopback (bits as on Linux).
#[verifier::external_body]
fn interface_is_tun(flags: u32) -> (r: bool)
    ensures
        r == flags_tun(flags),
{
    let mut iface = default_net::interface::Interface::dummy();
    iface.flags = flags;
    iface.is_tun()
}

/// The decimal digit character for `d` (0 to 9).
pub open spec fn digit_char(d: int) -> char {
    (d + 48) as char
}

/// `n` written in decimal, without leading zeros.
pub open spec fn decimal_text(n: nat) -> Seq<char>
    decreases n,
{
    if n < 10 {
        seq![digit_char(n as int)]
    } else {
        decimal_text(n / 10).push(digit_char((n % 10) as int))
    }
}

/// The `k`-th octet (0 is the most significant) of an IPv4 address.
pub open spec fn octet(addr: u32, k: int) -> nat {
    if k == 0 {
        (addr / 0x1000000) as nat
    } else if k == 1 {
        ((addr / 0x10000) % 0x100) as nat
    } else if k == 2 {
        ((addr / 0x100) % 0x100) as nat
    } else {
        (addr % 0x100) as nat
    }
}

/// An IPv4 address in dotted-decimal notation.
pub open spec fn ipv4_address_text(addr: u32) -> Seq<char> {
    decimal_text(octet(addr, 0)) + seq!['.'] + decimal_text(octet(addr, 1)) + seq!['.']
        + decimal_text(octet(addr, 2)) + seq!['.'] + decimal_text(octet(addr, 3))
}

/// An IPv4 network written as address, `/` and prefix length.
pub open spec fn ipv4_network_text(net: Ipv4Network) -> Seq<char> {
    ipv4_address_text(net.addr) + seq!['/'] + decimal_text(net.prefix_len as nat)
}

/// default_net's `Display` for `Ipv4Net` (`"{addr}/{prefix_len}"`, the
/// address as std prints an `Ipv4Addr`, in dotted decimal).
#[verifier::external_body]
fn ipv4_net_to_string(net: &Ipv4Network) -> (r: String)
    ensures
        r@ == ipv4_network_text(*net),
{
    let value = default_net::ip::Ipv4Net {
        addr: net.addr.into(),
        prefix_len: net.prefix_len,
        netmask: net.netmask.into(),
    };
    value.to_string()
}

/// The character is a decimal digit.
pub open spec fn is_digit(c: char) -> bool {
    '0' <= c <= '9'
}

/// Decimal text is non-empty, made of digits, one digit long exactly for
/// numbers below ten, and ends with the last digit of the number.
pub proof fn lemma_decimal_text_shape(n: nat)
    ensures
        decimal_text(n).len() >= 1,
        forall|k: int| 0 <= k < decimal_text(n).len() ==> #[trigger] is_digit(decimal_text(n)[k]),
        decimal_text(n).len() == 1 <==> n < 10,
        decimal_text(n).last() == digit_char((n % 10) as int),
    decreases n,
{
    if n >= 10 {
        lemma_decimal_text_shape(n / 10);
    }
}

/// The written form of an IPv4 network holds `".1/"` exactly when the last
/// octet of its address is 1.
pub proof fn lemma_dot_one_slash(net: Ipv4Network)
    ensures
        seq_contains(ipv4_network_text(net), ".1/"@) <==> octet(net.addr, 3) == 1,
{
    reveal_strlit(".1/");
    let d0 = decimal_text(octet(net.addr, 0));
    let d1 = decimal_text(octet(net.addr, 1));
    let d2 = decimal_text(octet(net.addr, 2));
    let d3 = decimal_text(octet(net.addr, 3));
    let p = decimal_text(net.prefix_len as nat);
    lemma_decimal_text_shape(octet(net.addr, 0));
    lemma_decimal_text_shape(octet(net.addr, 1));
    lemma_decimal_text_shape(octet(net.addr, 2));
    lemma_decimal_text_shape(octet(net.addr, 3));
    lemma_decimal_text_shape(net.prefix_len as nat);
    let a = ipv4_address_text(net.addr);
    let t = ipv4_network_text(net);
    let pat = ".1/"@;
    let len_a: int = a.len() as int;
    assert(a =~= d0 + seq!['.'] + d1 + seq!['.'] + d2 + seq!['.'] + d3);
    assert(t =~= a + seq!['/'] + p);
    assert(t[len_a] == '/');
    // Every character of the address text is a digit or a dot.
    assert forall|k: int| 0 <= k < len_a implies #[trigger] t[k] != '/' by {
        assert(t[k] == a[k]);
        let l0 = d0.len() as int;
        let l1 = d1.len() as int;
        let l2 = d2.len() as int;
        if k < l0 {
            assert(is_digit(d0[k]));
        } else if k == l0 {
        } else if k < l0 + 1 + l1 {
            assert(is_digit(d1[k - l0 - 1]));
        } else if k == l0 + 1 + l1 {
        } else if k < l0 + l1 + l2 + 2 {
            assert(is_digit(d2[k - l0 - l1 - 2]));
        } else if k == l0 + l1 + l2 + 2 {
        } else {
            assert(is_digit(d3[k - l0 - l1 - l2 - 3]));
        }
    }
    assert forall|k: int| len_a < k < t.len() implies #[trigger] t[k] != '/' by {
        assert(is_digit(p[k - len_a - 1]));
    }
    if octet(net.addr, 3) == 1 {
        assert(t[len_a - 2] == '.');
        assert(t[len_a - 1] == '1');
        assert(t.subrange(len_a - 2, len_a + 1) =~= pat);
        assert(occurs_at(t, pat, len_a - 2));
    }
    if seq_contains(t, pat) {
        let i = choose|i: int| occurs_at(t, pat, i);
        assert(t.subrange(i, i + 3) =~= pat);
        assert(pat[0] == '.' && pat[1] == '1' && pat[2] == '/');
        assert(t.subrange(i, i + 3)[0] == t[i]);
        assert(t.subrange(i, i + 3)[1] == t[i + 1]);
        assert(t.subrange(i, i + 3)[2] == '/');
        assert(t[i + 2] == '/');
        assert(i + 2 == len_a);
        assert(t[i] == '.');
        assert(t[i + 1] == '1');
        if d3.len() >= 2 {
            assert(t[i] == d3[d3.len() - 2]);
            assert(is_digit(d3[d3.len() - 2]));
        }
        assert(d3.len() == 1);
        assert(d3.last() == '1');
    }
}

/// Interfaces that are not physical network interfaces: loopback, tunnels,
/// bridges (`br…`) and virtual machine links (`vnet…`).
pub open spec fn is_virtual(info: InterfaceInfo) -> bool {
    ||| flags_loopback(info.flags)
    ||| flags_tun(info.flags)
    ||| seq_starts_with(info.name@, "br"@)
    ||| seq_starts_with(info.name@, "vnet"@)
}

/// The kind of network an interface name stands for: `wlan…`/`wlp…` Wi-Fi,
/// `eth…`/`enp…` Ethernet, `ppp…` cellular, anything else unknown.
pub open spec fn network_type_of_name(name: Seq<char>) -> Option<NetworkType> {
    if seq_starts_with(name, "wlan"@) || seq_starts_with(name, "wlp"@) {
        Some(NetworkType::Wifi)
    } else if seq_starts_with(name, "eth"@) || seq_starts_with(name, "enp"@) {
        Some(NetworkType::Ethernet)
    } else if seq_starts_with(name, "ppp"@) {
        Some(NetworkType::Cellular)
    } else {
        None
    }
}

/// The interface's first IPv4 network, written out, contains `".1/"`.
pub open spec fn first_address_marks_gateway(info: InterfaceInfo) -> bool {
    info.ipv4@.len() > 0 && seq_contains(ipv4_network_text(info.ipv4@[0]), ".1/"@)
}

/// The interface is listed as a physical network interface.
pub open spec fn is_listed(info: InterfaceInfo) -> bool {
    !is_virtual(info) && !first_address_marks_gateway(info)
}

/// The SSID of the last scanned network that the listing shows as active.
pub open spec fn connected_ssid(wifi: Seq<WifiNetwork>, listing: Seq<char>) -> Option<String>
    decreases wifi.len(),
{
    if wifi.len() == 0 {
        None
    } else if listing_shows_ssid_active(listing, wifi.last().ssid@) {
        Some(wifi.last().ssid)
    } else {
        connected_ssid(wifi.drop_last(), listing)
    }
}

/// Some route goes through `ip` as its gateway (addresses compared as
/// values, which print alike exactly when they are equal).
pub open spec fn route_through(routes: Seq<Option<IpAddress>>, ip: IpAddress) -> bool {
    exists|i: int| 0 <= i < routes.len() && routes[i] == Some(ip)
}

/// What is reported of an interface that is listed. With no IPv4 address
/// only the system's data is reported; otherwise also its kind by name, that
/// it is connected when it has a gateway, that it carries the default route
/// when some route goes through that gateway, and for Wi-Fi the connected SSID.
pub open spec fn describe(
    info: InterfaceInfo,
    routes: Seq<Option<IpAddress>>,
    wifi: Seq<WifiNetwork>,
    listing: Seq<char>,
) -> NetworkInterface {
    let addressed = info.ipv4@.len() > 0;
    let kind = network_type_of_name(info.name@);
    NetworkInterface {
        index: info.index,
        name: info.name,
        friendly_name: info.friendly_name,
        description: info.description,
        if_type: info.if_type,
        mac_addr: info.mac_addr,
        ipv4: info.ipv4,
        ipv6: info.ipv6,
        flags: info.flags,
        transmit_speed: info.transmit_speed,
        receive_speed: info.receive_speed,
        gateway: info.gateway,
        is_connected: if addressed && info.gateway is Some {
            Some(true)
        } else {
            None
        },
        is_default_route: if addressed && info.gateway is Some && route_through(
            routes,
            info.gateway->0.ip_addr,
        ) {
            Some(true)
        } else {
            None
        },
        network_type: if addressed {
            kind
        } else {
            None
        },
        wifi_connection_ssid: if addressed && kind == Some(NetworkType::Wifi) {
            connected_ssid(wifi, listing)
        } else {
            None
        },
        ppp_apn_connection_name: None,
    }
}

/// The physical network interfaces among `infos`, in order, each described.
pub open spec fn physical_interfaces(
    infos: Seq<InterfaceInfo>,
    routes: Seq<Option<IpAddress>>,
    wifi: Seq<WifiNetwork>,
    listing: Seq<char>,
) -> Seq<NetworkInterface>
    decreases infos.len(),
{
    if infos.len() == 0 {
        Seq::empty()
    } else {
        let rest = physical_interfaces(infos.drop_last(), routes, wifi, listing);
        if is_listed(infos.last()) {
            rest.push(describe(infos.last(), routes, wifi, listing))
        } else {
            rest
        }
    }
}

/// The kind of network an interface name stands for.
pub fn network_type_for_name(name: &str) -> (r: Option<NetworkType>)
    ensures
        r == network_type_of_name(name@),
{
    if starts_with(name, "wlan") || starts_with(name, "wlp") {
        Some(NetworkType::Wifi)
    } else if starts_with(name, "eth") || starts_with(name, "enp") {
        Some(NetworkType::Ethernet)
    } else if starts_with(name, "ppp") {
        Some(NetworkType::Cellular)
    } else {
        None
    }
}

/// Whether the interface is loopback, a tunnel, a bridge or a virtual link.
fn is_virtual_interface(info: &InterfaceInfo) -> (r: bool)
    ensures
        r == is_virtual(*info),
{
    interface_is_loopback(info.flags) || interface_is_tun(info.flags) || starts_with(
        info.name.as_str(),
        "br",
    ) || starts_with(info.name.as_str(), "vnet")
}

/// The SSID of the last of `wifi` that the listing shows as active.
fn find_connected_ssid(wifi: &Vec<WifiNetwork>, listing: &str) -> (r: Option<String>)
    ensures
        r == connected_ssid(wifi@, listing@),
{
    let mut found: Option<String> = None;
    let mut i: usize = 0;
    while i < wifi.len()
        invariant
            i <= wifi@.len(),
            found == connected_ssid(wifi@.take(i as int), listing@),
        decreases wifi@.len() - i,
    {
        assert(wifi@.take(i + 1).drop_last() =~= wifi@.take(i as int));
        if is_ssid_connected(listing, wifi[i].ssid.as_str()) {
            found = Some(wifi[i].ssid.clone());
        }
        i = i + 1;
    }
    assert(wifi@.take(wifi@.len() as int) =~= wifi@);
    found
}

/// Whether some route has `ip` as its gateway.
fn has_route_through(routes: &Vec<Option<IpAddress>>, ip: IpAddress) -> (r: bool)
    ensures
        r == route_through(routes@, ip),
{
    let mut i: usize = 0;
    while i < routes.len()
        invariant
            i <= routes@.len(),
            forall|j: int| 0 <= j < i ==> routes@[j] != Some(ip),
        decreases routes@.len() - i,
    {
        match routes[i] {
            Some(g) => {
                if g == ip {
                    return true;
                }
            },
            None => {},
        }
        i = i + 1;
    }
    false
}

/// Describes one listed interface (see `describe`).
fn describe_interface(
    info: InterfaceInfo,
    routes: &Vec<Option<IpAddress>>,
    wifi: &Vec<WifiNetwork>,
    listing: &str,
) -> (r: NetworkInterface)
    ensures
        r == describe(info, routes@, wifi@, listing@),
{
    let addressed = info.ipv4.len() > 0;
    let kind = network_type_for_name(info.name.as_str());
    let mut is_connected: Option<bool> = None;
    let mut is_default_route: Option<bool> = None;
    let mut network_type: Option<NetworkType> = None;
    let mut wifi_connection_ssid: Option<String> = None;
    if addressed {
        network_type = kind;
        match kind {
            Some(NetworkType::Wifi) => {
                wifi_connection_ssid = find_connected_ssid(wifi, listing);
            },
            _ => {},
        }
        match info.gateway {
            Some(g) => {
                is_connected = Some(true);
                if has_route_through(routes, g.ip_addr) {
                    is_default_route = Some(true);
                }
            },
            None => {},
        }
    }
    NetworkInterface {
        index: info.index,
        name: info.name,
        friendly_name: info.friendly_name,
        description: info.description,
        if_type: info.if_type,
        mac_addr: info.mac_addr,
        ipv4: info.ipv4,
        ipv6: info.ipv6,
        flags: info.flags,
        transmit_speed: info.transmit_speed,
        receive_speed: info.receive_speed,
        gateway: info.gateway,
        is_connected,
        is_default_route,
        network_type,
        wifi_connection_ssid,
        ppp_apn_connection_name: None,
    }
}

/// Whether the interface is listed (see `is_listed`).
fn is_listed_interface(info: &InterfaceInfo) -> (r: bool)
    ensures
        r == is_listed(*info),
{
    if is_virtual_interface(info) {
        return false;
    }
    if info.ipv4.len() > 0 {
        let text = ipv4_net_to_string(&info.ipv4[0]);
        if contains(text.as_str(), ".1/") {
            return false;
        }
    }
    true
}

/// The physical network interfaces among the host's `interfaces`, in order,
/// described with the gateways of the host's routes, the scanned Wi-Fi
/// networks and the `nmcli` active/SSID listing.
pub fn get_all_networking_phisical_interfaces(
    interfaces: Vec<InterfaceInfo>,
    route_gateways: &Vec<Option<IpAddress>>,
    wifi_networks: &Vec<WifiNetwork>,
    active_listing: &str,
) -> (r: Vec<NetworkInterface>)
    ensures
        r@ == physical_interfaces(interfaces@, route_gateways@, wifi_networks@, active_listing@),
{
    let ghost all = interfaces@;
    let mut rest = interfaces;
    let mut out: Vec<NetworkInterface> = Vec::new();
    let ghost mut k: int = 0;
    while rest.len() > 0
        invariant
            0 <= k <= all.len(),
            rest@ =~= all.skip(k),
            out@ == physical_interfaces(all.take(k), route_gateways@, wifi_networks@, active_listing@),
        decreases rest@.len(),
    {
        let info = rest.remove(0);
        proof {
            assert(all.take(k + 1).drop_last() =~= all.take(k));
            assert(all.take(k + 1).last() == all[k]);
        }
        if is_listed_interface(&info) {
            let d = describe_interface(info, route_gateways, wifi_networks, active_listing);
            out.push(d);
        }
        proof {
            k = k + 1;
        }
    }
    assert(all.take(k) =~= all);
    out
}

/// An interface is listed exactly when it is neither loopback, tunnel,
/// bridge nor virtual link, and its first IPv4 address (if any) does not end
/// in `.1`.
pub proof fn lemma_listed_iff(info: InterfaceInfo)
    ensures
        is_listed(info) <==> !is_virtual(info) && !(info.ipv4@.len() > 0 && octet(
            info.ipv4@[0].addr,
            3,
        ) == 1),
{
    if info.ipv4@.len() > 0 {
        lemma_dot_one_slash(info.ipv4@[0]);
    }
}

/// What holds of every reported interface: it is physical (see
/// `lemma_listed_iff`), its kind is set only when it has an IPv4 address and
/// then follows its name, it carries the default route only when it is
/// connected, and it has a connected SSID only when it is Wi-Fi.
pub open spec fn reported_ok(ni: NetworkInterface) -> bool {
    &&& !flags_loopback(ni.flags)
    &&& !flags_tun(ni.flags)
    &&& !seq_starts_with(ni.name@, "br"@)
    &&& !seq_starts_with(ni.name@, "vnet"@)
    &&& !(ni.ipv4@.len() > 0 && octet(ni.ipv4@[0].addr, 3) == 1)
    &&& ni.network_type is Some ==> ni.ipv4@.len() > 0 && ni.network_type == network_type_of_name(
        ni.name@,
    )
    &&& ni.is_default_route is Some ==> ni.is_connected == Some(true)
    &&& ni.wifi_connection_ssid is Some ==> ni.network_type == Some(NetworkType::Wifi)
}

/// Every reported interface satisfies `reported_ok`, and no more interfaces
/// are reported than the host has.
pub proof fn lemma_reported_interfaces(
    infos: Seq<InterfaceInfo>,
    routes: Seq<Option<IpAddress>>,
    wifi: Seq<WifiNetwork>,
    listing: Seq<char>,
)
    ensures
        physical_interfaces(infos, routes, wifi, listing).len() <= infos.len(),
        forall|k: int|
            0 <= k < physical_interfaces(infos, routes, wifi, listing).len() ==> reported_ok(
                #[trigger] physical_interfaces(infos, routes, wifi, listing)[k],
            ),
    decreases infos.len(),
{
    if infos.len() > 0 {
        lemma_reported_interfaces(infos.drop_last(), routes, wifi, listing);
        lemma_listed_iff(infos.last());
    }
}

/// An interface is listed exactly when none of these holds: the loopback bit
/// (0x8) is set; it is a tunnel (up 0x1 and point-to-point 0x10 without
/// broadcast 0x2); its name begins with "br" or "vnet"; its first IPv4
/// address ends in `.1`. Being down, having no address or an unknown kind
/// does not keep an interface off the list.
pub proof fn lemma_listed_exactly(info: InterfaceInfo)
    ensures
        is_listed(info) <==> {
            &&& info.flags & 0x8 == 0
            &&& !(info.flags & 0x1 != 0 && info.flags & 0x10 != 0 && info.flags & 0x2 == 0)
            &&& !seq_starts_with(info.name@, "br"@)
            &&& !seq_starts_with(info.name@, "vnet"@)
            &&& !(info.ipv4@.len() > 0 && octet(info.ipv4@[0].addr, 3) == 1)
        },
{
    lemma_listed_iff(info);
}

/// The system's data of a reported interface is that of the host interface
/// it describes, unchanged.
pub open spec fn same_system_data(ni: NetworkInterface, info: InterfaceInfo) -> bool {
    &&& ni.index == info.index
    &&& ni.name == info.name
    &&& ni.friendly_name == info.friendly_name
    &&& ni.description == info.description
    &&& ni.if_type == info.if_type
    &&& ni.mac_addr == info.mac_addr
    &&& ni.ipv4 == info.ipv4
    &&& ni.ipv6 == info.ipv6
    &&& ni.flags == info.flags
    &&& ni.transmit_speed == info.transmit_speed
    &&& ni.receive_speed == info.receive_speed
    &&& ni.gateway == info.gateway
}

/// What the library adds to a reported interface, in terms of its own data,
/// the routes, the scan and the `nmcli` listing:
/// - connected exactly when it has an IPv4 address and a gateway;
/// - default route exactly when connected and some route goes through that gateway;
/// - with an IPv4 address, Wi-Fi for `wlan…`/`wlp…`, Ethernet for `eth…`/`enp…`,
///   cellular for `ppp…`, else unknown; no kind without an address;
/// - a connected SSID only for Wi-Fi, and then it is the SSID of the last
///   scanned network that the listing shows as active; a Wi-Fi interface
///   with an address has one whenever some scanned network is shown active;
/// - no APN.
pub open spec fn derived_data_ok(
    ni: NetworkInterface,
    routes: Seq<Option<IpAddress>>,
    wifi: Seq<WifiNetwork>,
    listing: Seq<char>,
) -> bool {
    let addressed = ni.ipv4@.len() > 0;
    let n = ni.name@;
    &&& ni.is_connected == if addressed && ni.gateway is Some {
        Some(true)
    } else {
        None
    }
    &&& ni.is_default_route == if addressed && ni.gateway is Some && exists|i: int|
        0 <= i < routes.len() && routes[i] == Some(ni.gateway->0.ip_addr) {
        Some(true)
    } else {
        None
    }
    &&& !addressed ==> ni.network_type is None
    &&& addressed && (seq_starts_with(n, "wlan"@) || seq_starts_with(n, "wlp"@)) ==> ni.network_type
        == Some(NetworkType::Wifi)
    &&& addressed && !(seq_starts_with(n, "wlan"@) || seq_starts_with(n, "wlp"@)) && (
    seq_starts_with(n, "eth"@) || seq_starts_with(n, "enp"@)) ==> ni.network_type == Some(
        NetworkType::Ethernet,
    )
    &&& addressed && !(seq_starts_with(n, "wlan"@) || seq_starts_with(n, "wlp"@)) && !(
    seq_starts_with(n, "eth"@) || seq_starts_with(n, "enp"@)) && seq_starts_with(n, "ppp"@)
        ==> ni.network_type == Some(NetworkType::Cellular)
    &&& addressed && !(seq_starts_with(n, "wlan"@) || seq_starts_with(n, "wlp"@)) && !(
    seq_starts_with(n, "eth"@) || seq_starts_with(n, "enp"@)) && !seq_starts_with(n, "ppp"@)
        ==> ni.network_type is None
    &&& ni.wifi_connection_ssid is Some ==> {
        &&& ni.network_type == Some(NetworkType::Wifi)
        &&& exists|i: int|
            0 <= i < wifi.len() && wifi[i].ssid == ni.wifi_connection_ssid->0
                && listing_shows_ssid_active(listing, wifi[i].ssid@) && forall|j: int|
                i < j < wifi.len() ==> !listing_shows_ssid_active(listing, #[trigger] wifi[j].ssid@)
    }
    &&& ni.network_type == Some(NetworkType::Wifi) && (exists|i: int|
        0 <= i < wifi.len() && listing_shows_ssid_active(listing, #[trigger] wifi[i].ssid@))
        ==> ni.wifi_connection_ssid is Some
    &&& ni.ppp_apn_connection_name is None
}

/// The connected SSID is the last active one among the scanned networks,
/// and there is one exactly when some scanned network is shown active.
pub proof fn lemma_connected_ssid(wifi: Seq<WifiNetwork>, listing: Seq<char>)
    ensures
        connected_ssid(wifi, listing) is Some <==> exists|i: int|
            0 <= i < wifi.len() && listing_shows_ssid_active(listing, #[trigger] wifi[i].ssid@),
        connected_ssid(wifi, listing) is Some ==> exists|i: int|
            0 <= i < wifi.len() && wifi[i].ssid == connected_ssid(wifi, listing)->0
                && listing_shows_ssid_active(listing, wifi[i].ssid@) && forall|j: int|
                i < j < wifi.len() ==> !listing_shows_ssid_active(listing, #[trigger] wifi[j].ssid@),
    decreases wifi.len(),
{
    if wifi.len() > 0 {
        let front = wifi.drop_last();
        lemma_connected_ssid(front, listing);
        let last = wifi.len() - 1;
        if listing_shows_ssid_active(listing, wifi[last].ssid@) {
            assert(wifi[last].ssid == connected_ssid(wifi, listing)->0);
        } else {
            if exists|i: int| 0 <= i < wifi.len() && listing_shows_ssid_active(listing, #[trigger] wifi[i].ssid@) {
                let i = choose|i: int| 0 <= i < wifi.len() && listing_shows_ssid_active(listing, #[trigger] wifi[i].ssid@);
                assert(i != last);
                assert(front[i] == wifi[i]);
            }
            if connected_ssid(front, listing) is Some {
                let i = choose|i: int|
                    0 <= i < front.len() && front[i].ssid == connected_ssid(front, listing)->0
                        && listing_shows_ssid_active(listing, front[i].ssid@) && forall|j: int|
                        i < j < front.len() ==> !listing_shows_ssid_active(listing, #[trigger] front[j].ssid@);
                assert(wifi[i] == front[i]);
                assert forall|j: int| i < j < wifi.len() implies !listing_shows_ssid_active(listing, #[trigger] wifi[j].ssid@) by {
                    if j < last {
                        assert(wifi[j] == front[j]);
                    }
                }
            } else {
                assert forall|i: int| 0 <= i < front.len() implies !listing_shows_ssid_active(listing, #[trigger] front[i].ssid@) by {}
                assert forall|i: int| 0 <= i < wifi.len() implies !listing_shows_ssid_active(listing, #[trigger] wifi[i].ssid@) by {
                    if i < last {
                        assert(wifi[i] == front[i]);
                    }
                }
            }
        }
    }
}

/// A described interface keeps its system data and satisfies
/// `derived_data_ok`.
proof fn lemma_describe_facts(
    info: InterfaceInfo,
    routes: Seq<Option<IpAddress>>,
    wifi: Seq<WifiNetwork>,
    listing: Seq<char>,
)
    ensures
        same_system_data(describe(info, routes, wifi, listing), info),
        derived_data_ok(describe(info, routes, wifi, listing), routes, wifi, listing),
{
    lemma_connected_ssid(wifi, listing);
}

/// `ni` carries, unchanged, the system data of a listed interface of `infos`.
pub open spec fn describes_listed(infos: Seq<InterfaceInfo>, ni: NetworkInterface) -> bool {
    exists|j: int| 0 <= j < infos.len() && is_listed(infos[j]) && same_system_data(ni, infos[j])
}

/// Every reported interface carries the system data of a listed host
/// interface.
proof fn lemma_reported_from_listed(
    infos: Seq<InterfaceInfo>,
    routes: Seq<Option<IpAddress>>,
    wifi: Seq<WifiNetwork>,
    listing: Seq<char>,
)
    ensures
        forall|k: int|
            0 <= k < physical_interfaces(infos, routes, wifi, listing).len() ==> describes_listed(
                infos,
                #[trigger] physical_interfaces(infos, routes, wifi, listing)[k],
            ),
    decreases infos.len(),
{
    if infos.len() > 0 {
        let front = infos.drop_last();
        let last = infos.len() - 1;
        lemma_reported_from_listed(front, routes, wifi, listing);
        lemma_describe_facts(infos[last], routes, wifi, listing);
        let rest = physical_interfaces(front, routes, wifi, listing);
        let out = physical_interfaces(infos, routes, wifi, listing);
        assert forall|k: int| 0 <= k < out.len() implies describes_listed(infos, #[trigger] out[k]) by {
            if k < rest.len() {
                assert(out[k] == rest[k]);
                assert(describes_listed(front, rest[k]));
                let j = choose|j: int|
                    0 <= j < front.len() && is_listed(front[j]) && same_system_data(rest[k], front[j]);
                assert(infos[j] == front[j]);
            } else {
                assert(is_listed(infos[last]));
                assert(same_system_data(out[k], infos[last]));
            }
        }
    }
}

/// Every listed host interface is reported.
proof fn lemma_listed_are_reported(
    infos: Seq<InterfaceInfo>,
    routes: Seq<Option<IpAddress>>,
    wifi: Seq<WifiNetwork>,
    listing: Seq<char>,
)
    ensures
        forall|j: int|
            0 <= j < infos.len() && is_listed(#[trigger] infos[j]) ==> exists|k: int|
                0 <= k < physical_interfaces(infos, routes, wifi, listing).len()
                    && same_system_data(physical_interfaces(infos, routes, wifi, listing)[k], infos[j]),
    decreases infos.len(),
{
    if infos.len() > 0 {
        let front = infos.drop_last();
        let last = infos.len() - 1;
        lemma_listed_are_reported(front, routes, wifi, listing);
        lemma_describe_facts(infos[last], routes, wifi, listing);
        let rest = physical_interfaces(front, routes, wifi, listing);
        let out = physical_interfaces(infos, routes, wifi, listing);
        assert forall|j: int| 0 <= j < infos.len() && is_listed(#[trigger] infos[j]) implies exists|k: int|
            0 <= k < out.len() && same_system_data(out[k], infos[j]) by {
            if j < last {
                assert(front[j] == infos[j]);
                let k = choose|k: int| 0 <= k < rest.len() && same_system_data(rest[k], front[j]);
                assert(out[k] == rest[k]);
            } else {
                assert(same_system_data(out[out.len() - 1], infos[j]));
            }
        }
    }
}

/// What the library adds to every reported interface satisfies
/// `derived_data_ok`.
proof fn lemma_reported_derived(
    infos: Seq<InterfaceInfo>,
    routes: Seq<Option<IpAddress>>,
    wifi: Seq<WifiNetwork>,
    listing: Seq<char>,
)
    ensures
        forall|k: int|
            0 <= k < physical_interfaces(infos, routes, wifi, listing).len() ==> derived_data_ok(
                #[trigger] physical_interfaces(infos, routes, wifi, listing)[k],
                routes,
                wifi,
                listing,
            ),
    decreases infos.len(),
{
    if infos.len() > 0 {
        let front = infos.drop_last();
        lemma_reported_derived(front, routes, wifi, listing);
        lemma_describe_facts(infos.last(), routes, wifi, listing);
        let rest = physical_interfaces(front, routes, wifi, listing);
        let out = physical_interfaces(infos, routes, wifi, listing);
        assert forall|k: int| 0 <= k < out.len() implies derived_data_ok(
            #[trigger] out[k],
            routes,
            wifi,
            listing,
        ) by {
            if k < rest.len() {
                assert(out[k] == rest[k]);
            }
        }
    }
}

/// The interfaces reported are exactly the listed host interfaces: each
/// reported interface carries, unchanged, the system data of a listed host
/// interface, every listed host interface is reported, and what the library
/// adds satisfies `derived_data_ok`.
pub proof fn lemma_reported_are_listed(
    infos: Seq<InterfaceInfo>,
    routes: Seq<Option<IpAddress>>,
    wifi: Seq<WifiNetwork>,
    listing: Seq<char>,
)
    ensures
        forall|k: int|
            0 <= k < physical_interfaces(infos, routes, wifi, listing).len() ==> describes_listed(
                infos,
                #[trigger] physical_interfaces(infos, routes, wifi, listing)[k],
            ),
        forall|j: int|
            0 <= j < infos.len() && is_listed(#[trigger] infos[j]) ==> exists|k: int|
                0 <= k < physical_interfaces(infos, routes, wifi, listing).len()
                    && same_system_data(physical_interfaces(infos, routes, wifi, listing)[k], infos[j]),
        forall|k: int|
            0 <= k < physical_interfaces(infos, routes, wifi, listing).len() ==> derived_data_ok(
                #[trigger] physical_interfaces(infos, routes, wifi, listing)[k],
                routes,
                wifi,
                listing,
            ),
{
    lemma_reported_from_listed(infos, routes, wifi, listing);
    lemma_listed_are_reported(infos, routes, wifi, listing);
    lemma_reported_derived(infos, routes, wifi, listing);
}

} // verus!
