//! Connection profiles: which profiles may be stored, and how the stored
//! list changes when one is added or the profiles of an interface removed.

use vstd::prelude::*;
use crate::structs::{NetworkConnectionProfile, NetworkType};
use crate::text::same_text;
use crate::wifi::{outcome_view, WifiNetwork, WifiScanError};

verus! {

/// Why a connection profile is refused.
#[derive(Debug, Clone, Copy, PartialEq, Eq, Structural)]
pub enum ProfileError {
    /// An Ethernet profile names a Wi-Fi SSID or password.
    WifiFieldsOnEthernet,
    /// An Ethernet profile names a cellular APN.
    ApnOnEthernet,
    /// A Wi-Fi profile names no SSID.
    SsidRequired,
    /// A Wi-Fi profile names no password.
    PasswordRequired,
    /// The Wi-Fi scan failed.
    WifiScan(WifiScanError),
    /// No scanned Wi-Fi network has the profile's SSID.
    SsidNotFound,
    /// A cellular profile names no APN.
    ApnRequired,
}

impl ProfileError {
    /// The message that describes the error.
    pub open spec fn message_text(&self) -> Seq<char> {
        match self {
            ProfileError::WifiFieldsOnEthernet =>
                "wifi_connection_ssid and wifi_connection_password are not required for ethernet"@,
            ProfileError::ApnOnEthernet => "ppp_apn_connection_name is not required for ethernet"@,
            ProfileError::SsidRequired => "wifi_connection_ssid is required"@,
            ProfileError::PasswordRequired => "wifi_connection_password is required"@,
            ProfileError::WifiScan(e) => e.message_text(),
            ProfileError::SsidNotFound => "wifi_connection_ssid not found"@,
            ProfileError::ApnRequired => "ppp_apn_connection_name is required"@,
        }
    }

    /// The message that describes the error.
    pub fn message(&self) -> (r: String)
        ensures
            r@ == self.message_text(),
    {
        match self {
            ProfileError::WifiFieldsOnEthernet => String::from_str(
                "wifi_connection_ssid and wifi_connection_password are not required for ethernet",
            ),
            ProfileError::ApnOnEthernet => String::from_str(
                "ppp_apn_connection_name is not required for ethernet",
            ),
            ProfileError::SsidRequired => String::from_str("wifi_connection_ssid is required"),
            ProfileError::PasswordRequired => String::from_str(
                "wifi_connection_password is required",
            ),
            ProfileError::WifiScan(e) => e.message(),
            ProfileError::SsidNotFound => String::from_str("wifi_connection_ssid not found"),
            ProfileError::ApnRequired => String::from_str("ppp_apn_connection_name is required"),
        }
    }
}

/// The checks on a profile's own fields, before any scan: Ethernet profiles
/// carry no Wi-Fi or APN fields, Wi-Fi profiles carry an SSID and a password,
/// cellular profiles carry an APN. `Ok(true)` means the SSID is still to be
/// found among the scanned networks.
pub open spec fn profile_fields_check(p: NetworkConnectionProfile) -> Result<bool, ProfileError> {
    match p.network_type {
        NetworkType::Ethernet => if p.wifi_connection_ssid is Some || p.wifi_connection_password is Some {
            Err(ProfileError::WifiFieldsOnEthernet)
        } else if p.ppp_apn_connection_name is Some {
            Err(ProfileError::ApnOnEthernet)
        } else {
            Ok(false)
        },
        NetworkType::Wifi => if p.wifi_connection_ssid is None {
            Err(ProfileError::SsidRequired)
        } else if p.wifi_connection_password is None {
            Err(ProfileError::PasswordRequired)
        } else {
            Ok(true)
        },
        NetworkType::Cellular => if p.ppp_apn_connection_name is None {
            Err(ProfileError::ApnRequired)
        } else {
            Ok(false)
        },
        NetworkType::Bluetooth => Ok(false),
    }
}

/// Some scanned network has the SSID `ssid`.
pub open spec fn ssid_scanned(networks: Seq<WifiNetwork>, ssid: Seq<char>) -> bool {
    exists|i: int| 0 <= i < networks.len() && #[trigger] networks[i].ssid@ == ssid
}

/// Checks a profile's own fields (see `profile_fields_check`). `Ok(true)`
/// tells the caller that the profile's SSID is to be looked up in a Wi-Fi
/// scan, whose outcome `check_connection_profile` and
/// `set_connection_profile` then take.
pub fn check_profile_fields(profile: &NetworkConnectionProfile) -> (r: Result<bool, ProfileError>)
    ensures
        r == profile_fields_check(*profile),
{
    match profile.network_type {
        NetworkType::Ethernet => {
            if profile.wifi_connection_ssid.is_some() || profile.wifi_connection_password.is_some() {
                return Err(ProfileError::WifiFieldsOnEthernet);
            }
            if profile.ppp_apn_connection_name.is_some() {
                return Err(ProfileError::ApnOnEthernet);
            }
            Ok(false)
        },
        NetworkType::Wifi => {
            if profile.wifi_connection_ssid.is_none() {
                return Err(ProfileError::SsidRequired);
            }
            if profile.wifi_connection_password.is_none() {
                return Err(ProfileError::PasswordRequired);
            }
            Ok(true)
        },
        NetworkType::Cellular => {
            if profile.ppp_apn_connection_name.is_none() {
                return Err(ProfileError::ApnRequired);
            }
            Ok(false)
        },
        NetworkType::Bluetooth => Ok(false),
    }
}

/// Whether a profile may be stored, given the outcome of a Wi-Fi scan: its
/// own fields must pass `profile_fields_check`; when they ask for it, the scan
/// must have succeeded and found a network with the profile's SSID. The scan
/// is consulted for nothing else.
pub open spec fn profile_admission(
    p: NetworkConnectionProfile,
    scan: Result<Seq<WifiNetwork>, WifiScanError>,
) -> Result<(), ProfileError> {
    match profile_fields_check(p) {
        Err(e) => Err(e),
        Ok(false) => Ok(()),
        Ok(true) => match scan {
            Err(e) => Err(ProfileError::WifiScan(e)),
            Ok(networks) => if ssid_scanned(networks, p.wifi_connection_ssid->0@) {
                Ok(())
            } else {
                Err(ProfileError::SsidNotFound)
            },
        },
    }
}

/// Checks a Wi-Fi profile's SSID against the outcome of a Wi-Fi scan: a
/// failed scan is an error, and so is an SSID that no scanned network has.
fn check_profile_ssid(
    profile: &NetworkConnectionProfile,
    scan: &Result<Vec<WifiNetwork>, WifiScanError>,
) -> (r: Result<(), ProfileError>)
    requires
        profile.wifi_connection_ssid is Some,
    ensures
        match *scan {
            Err(e) => r == Err::<(), ProfileError>(ProfileError::WifiScan(e)),
            Ok(networks) => r == if ssid_scanned(networks@, profile.wifi_connection_ssid->0@) {
                Ok::<(), ProfileError>(())
            } else {
                Err(ProfileError::SsidNotFound)
            },
        },
{
    match scan {
        Err(e) => Err(ProfileError::WifiScan(*e)),
        Ok(networks) => {
            let ssid = match &profile.wifi_connection_ssid {
                Some(s) => s,
                None => {
                    return Err(ProfileError::SsidRequired);
                },
            };
            let mut i: usize = 0;
            while i < networks.len()
                invariant
                    *scan == Ok::<Vec<WifiNetwork>, WifiScanError>(*networks),
                    profile.wifi_connection_ssid == Some(*ssid),
                    i <= networks@.len(),
                    forall|j: int| 0 <= j < i ==> #[trigger] networks@[j].ssid@ != ssid@,
                decreases networks@.len() - i,
            {
                if same_text(networks[i].ssid.as_str(), ssid.as_str()) {
                    return Ok(());
                }
                i = i + 1;
            }
            Err(ProfileError::SsidNotFound)
        },
    }
}

/// Whether the profile may be stored, given the outcome of the Wi-Fi scan
/// (see `profile_admission`; when `check_profile_fields` did not ask for a
/// scan, any outcome may be passed and none is looked at).
pub fn check_connection_profile(
    profile: &NetworkConnectionProfile,
    scan: &Result<Vec<WifiNetwork>, WifiScanError>,
) -> (r: Result<(), ProfileError>)
    ensures
        r == profile_admission(*profile, outcome_view(*scan)),
{
    let needs_scan = check_profile_fields(profile)?;
    if needs_scan {
        check_profile_ssid(profile, scan)
    } else {
        Ok(())
    }
}

/// The stored profiles after adding `profile`, given the outcome of the
/// Wi-Fi scan: refused with the error of `profile_admission`, else the
/// profile comes last.
pub fn set_connection_profile(
    profiles: Vec<NetworkConnectionProfile>,
    profile: NetworkConnectionProfile,
    scan: &Result<Vec<WifiNetwork>, WifiScanError>,
) -> (r: Result<Vec<NetworkConnectionProfile>, ProfileError>)
    ensures
        match profile_admission(profile, outcome_view(*scan)) {
            Err(e) => r == Err::<Vec<NetworkConnectionProfile>, ProfileError>(e),
            Ok(_) => r matches Ok(stored) && stored@ == profiles@.push(profile),
        },
{
    check_connection_profile(&profile, scan)?;
    let mut profiles = profiles;
    profiles.push(profile);
    Ok(profiles)
}

/// The profiles of `ps`, in order, that are not for the interface `interface`.
pub open spec fn without_interface(
    ps: Seq<NetworkConnectionProfile>,
    interface: Seq<char>,
) -> Seq<NetworkConnectionProfile>
    decreases ps.len(),
{
    if ps.len() == 0 {
        Seq::empty()
    } else {
        let rest = without_interface(ps.drop_last(), interface);
        if ps.last().interface@ == interface {
            rest
        } else {
            rest.push(ps.last())
        }
    }
}

/// The stored profiles after removing every profile for the interface
/// `interface`; the others keep their order.
pub fn remove_connection_profile(
    profiles: Vec<NetworkConnectionProfile>,
    interface: &str,
) -> (r: Vec<NetworkConnectionProfile>)
    ensures
        r@ == without_interface(profiles@, interface@),
{
    let ghost all = profiles@;
    let mut rest = profiles;
    let mut kept: Vec<NetworkConnectionProfile> = Vec::new();
    let ghost mut k: int = 0;
    while rest.len() > 0
        invariant
            0 <= k <= all.len(),
            rest@ =~= all.skip(k),
            kept@ == without_interface(all.take(k), interface@),
        decreases rest@.len(),
    {
        let p = rest.remove(0);
        proof {
            assert(all.take(k + 1).drop_last() =~= all.take(k));
            assert(all.take(k + 1).last() == all[k]);
        }
        if !same_text(p.interface.as_str(), interface) {
            kept.push(p);
        }
        proof {
            k = k + 1;
        }
    }
    assert(all.take(k) =~= all);
    kept
}

/// Where the profiles are stored when no file is given.
pub fn default_connection_db_path() -> (r: String)
    ensures
        r@ == "/etc/simple-host-networks-manager/profiles.json"@,
{
    String::from_str("/etc/simple-host-networks-manager/profiles.json")
}

/// The profile file to use: the one given, else the default.
pub fn connection_db_path(connection_db_file: Option<String>) -> (r: String)
    ensures
        r@ == match connection_db_file {
            Some(f) => f@,
            None => "/etc/simple-host-networks-manager/profiles.json"@,
        },
{
    match connection_db_file {
        Some(f) => f,
        None => default_connection_db_path(),
    }
}

/// Removing the profiles of an interface leaves none for it, keeps every
/// profile for another interface, and adds nothing.
pub proof fn lemma_remove_connection_profile(ps: Seq<NetworkConnectionProfile>, interface: Seq<char>)
    ensures
        forall|k: int|
            0 <= k < without_interface(ps, interface).len()
                ==> #[trigger] without_interface(ps, interface)[k].interface@ != interface,
        forall|p: NetworkConnectionProfile|
            ps.contains(p) && p.interface@ != interface ==> #[trigger] without_interface(
                ps,
                interface,
            ).contains(p),
        forall|p: NetworkConnectionProfile|
            #[trigger] without_interface(ps, interface).contains(p) ==> ps.contains(p),
        without_interface(ps, interface).len() <= ps.len(),
    decreases ps.len(),
{
    if ps.len() > 0 {
        let front = ps.drop_last();
        lemma_remove_connection_profile(front, interface);
        let rest = without_interface(front, interface);
        let r = without_interface(ps, interface);
        assert forall|p: NetworkConnectionProfile|
            ps.contains(p) && p.interface@ != interface implies r.contains(p) by {
            let i = choose|i: int| 0 <= i < ps.len() && ps[i] == p;
            if i < ps.len() - 1 {
                assert(front[i] == p);
                assert(front.contains(p));
                assert(rest.contains(p));
                let k = choose|k: int| 0 <= k < rest.len() && rest[k] == p;
                if ps.last().interface@ != interface {
                    assert(r[k] == p);
                }
            } else {
                assert(r.last() == p);
            }
        }
        assert forall|p: NetworkConnectionProfile| #[trigger] r.contains(p) implies ps.contains(p) by {
            let k = choose|k: int| 0 <= k < r.len() && r[k] == p;
            if k < rest.len() {
                assert(rest[k] == p);
                assert(rest.contains(p));
                let i = choose|i: int| 0 <= i < front.len() && front[i] == p;
                assert(ps[i] == p);
            } else {
                assert(ps[ps.len() - 1] == p);
            }
        }
    }
}

/// Removing the profiles of an interface twice is removing them once.
pub proof fn lemma_remove_idempotent(ps: Seq<NetworkConnectionProfile>, interface: Seq<char>)
    ensures
        without_interface(without_interface(ps, interface), interface) == without_interface(
            ps,
            interface,
        ),
    decreases ps.len(),
{
    if ps.len() > 0 {
        lemma_remove_idempotent(ps.drop_last(), interface);
        let rest = without_interface(ps.drop_last(), interface);
        if ps.last().interface@ != interface {
            assert(rest.push(ps.last()).drop_last() =~= rest);
        }
    }
}

/// Adding a profile and then removing the profiles of its interface is the
/// same as removing them without adding it (the list `ps.push(profile)` is
/// what `set_connection_profile` stores when it admits `profile`).
pub proof fn lemma_set_then_remove(
    ps: Seq<NetworkConnectionProfile>,
    profile: NetworkConnectionProfile,
)
    ensures
        without_interface(ps.push(profile), profile.interface@) == without_interface(
            ps,
            profile.interface@,
        ),
{
    assert(ps.push(profile).drop_last() =~= ps);
}

/// Removing the profiles of another interface keeps an added profile, last.
pub proof fn lemma_set_then_remove_other(
    ps: Seq<NetworkConnectionProfile>,
    profile: NetworkConnectionProfile,
    interface: Seq<char>,
)
    requires
        profile.interface@ != interface,
    ensures
        without_interface(ps.push(profile), interface) == without_interface(ps, interface).push(
            profile,
        ),
{
    assert(ps.push(profile).drop_last() =~= ps);
}

/// A profile refused by its own fields is never admitted, whatever the scan.
pub proof fn lemma_field_errors_refuse(
    p: NetworkConnectionProfile,
    scan: Result<Seq<WifiNetwork>, WifiScanError>,
)
    ensures
        profile_fields_check(p) is Err ==> profile_admission(p, scan) == Err::<(), ProfileError>(
            profile_fields_check(p)->Err_0,
        ),
{
}

/// When a profile is admitted, in terms of its fields and the scan: an
/// Ethernet profile names no SSID, password or APN; a Wi-Fi profile names an
/// SSID and a password, the scan succeeded, and some scanned network has that
/// SSID; a cellular profile names an APN; a Bluetooth profile always.
pub proof fn lemma_admission_exactly(
    p: NetworkConnectionProfile,
    scan: Result<Seq<WifiNetwork>, WifiScanError>,
)
    ensures
        profile_admission(p, scan) is Ok <==> match p.network_type {
            NetworkType::Ethernet => p.wifi_connection_ssid is None
                && p.wifi_connection_password is None && p.ppp_apn_connection_name is None,
            NetworkType::Wifi => p.wifi_connection_ssid is Some && p.wifi_connection_password is Some
                && scan is Ok && exists|i: int|
                0 <= i < scan->Ok_0.len() && #[trigger] scan->Ok_0[i].ssid@
                    == p.wifi_connection_ssid->0@,
            NetworkType::Cellular => p.ppp_apn_connection_name is Some,
            NetworkType::Bluetooth => true,
        },
{
}

/// Which error refuses a profile, in terms of its fields and the scan; the
/// checks come in this order: Wi-Fi or APN fields on Ethernet, missing SSID,
/// missing password, failed scan, unknown SSID, missing APN.
pub proof fn lemma_admission_errors(
    p: NetworkConnectionProfile,
    scan: Result<Seq<WifiNetwork>, WifiScanError>,
)
    ensures
        p.network_type == NetworkType::Ethernet && (p.wifi_connection_ssid is Some
            || p.wifi_connection_password is Some) ==> profile_admission(p, scan) == Err::<
            (),
            ProfileError,
        >(ProfileError::WifiFieldsOnEthernet),
        p.network_type == NetworkType::Ethernet && p.wifi_connection_ssid is None
            && p.wifi_connection_password is None && p.ppp_apn_connection_name is Some
            ==> profile_admission(p, scan) == Err::<(), ProfileError>(ProfileError::ApnOnEthernet),
        p.network_type == NetworkType::Wifi && p.wifi_connection_ssid is None ==> profile_admission(
            p,
            scan,
        ) == Err::<(), ProfileError>(ProfileError::SsidRequired),
        p.network_type == NetworkType::Wifi && p.wifi_connection_ssid is Some
            && p.wifi_connection_password is None ==> profile_admission(p, scan) == Err::<
            (),
            ProfileError,
        >(ProfileError::PasswordRequired),
        p.network_type == NetworkType::Wifi && p.wifi_connection_ssid is Some
            && p.wifi_connection_password is Some && scan is Err ==> profile_admission(p, scan)
            == Err::<(), ProfileError>(ProfileError::WifiScan(scan->Err_0)),
        p.network_type == NetworkType::Wifi && p.wifi_connection_ssid is Some
            && p.wifi_connection_password is Some && scan is Ok && (forall|i: int|
            0 <= i < scan->Ok_0.len() ==> #[trigger] scan->Ok_0[i].ssid@
                != p.wifi_connection_ssid->0@) ==> profile_admission(p, scan) == Err::<
            (),
            ProfileError,
        >(ProfileError::SsidNotFound),
        p.network_type == NetworkType::Cellular && p.ppp_apn_connection_name is None
            ==> profile_admission(p, scan) == Err::<(), ProfileError>(ProfileError::ApnRequired),
{
}

/// The scan decides only for Wi-Fi profiles: any other profile is admitted
/// or refused alike whatever the scan.
pub proof fn lemma_scan_only_for_wifi(
    p: NetworkConnectionProfile,
    scan1: Result<Seq<WifiNetwork>, WifiScanError>,
    scan2: Result<Seq<WifiNetwork>, WifiScanError>,
)
    requires
        p.network_type != NetworkType::Wifi,
    ensures
        profile_admission(p, scan1) == profile_admission(p, scan2),
{
}

} // verus!