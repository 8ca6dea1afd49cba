//! Operations that complete at once, with success: disconnecting,
//! connection checks, routes and cellular access points need no work from
//! this library.

use vstd::prelude::*;

verus! {

/// Disconnects one or all interfaces: succeeds.
pub fn disconnect(multiple: Option<bool>, interface: String) -> (r: Result<(), String>)
    ensures
        r == Ok::<(), String>(()),
{
    Ok(())
}

/// Checks whether the host is connected: reports that it is.
pub fn check_connection() -> (r: Result<(), String>)
    ensures
        r == Ok::<(), String>(()),
{
    Ok(())
}

/// Sets a route: succeeds.
pub fn set_route() -> (r: Result<(), String>)
    ensures
        r == Ok::<(), String>(()),
{
    Ok(())
}

/// Switches the default route: succeeds.
pub fn switch_route() -> (r: Result<(), String>)
    ensures
        r == Ok::<(), String>(()),
{
    Ok(())
}

/// Lists the cellular access points of a file: succeeds.
pub fn get_ppp_apns_list(apn_db_file: Option<String>) -> (r: Result<(), String>)
    ensures
        r == Ok::<(), String>(()),
{
    Ok(())
}

/// Adds a cellular access point: succeeds.
pub fn add_ppp_apn(apn_name: &str, apn_data: &str) -> (r: Result<(), String>)
    ensures
        r == Ok::<(), String>(()),
{
    Ok(())
}

/// Removes a cellular access point: succeeds.
pub fn remove_ppp_apn(apn_name: &str) -> (r: Result<(), String>)
    ensures
        r == Ok::<(), String>(()),
{
    Ok(())
}

/// Switches to a cellular access point: succeeds.
pub fn switch_to_ppp_apn(apn_name: &str) -> (r: Result<(), String>)
    ensures
        r == Ok::<(), String>(()),
{
    Ok(())
}

} // verus!
