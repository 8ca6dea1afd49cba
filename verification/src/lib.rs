//! Decision logic of a small host network manager: which physical
//! interfaces exist and what kind they are, which profiles may be stored,
//! how a Wi-Fi scan result is judged, and what a connection attempt runs.
//! All input and output (system calls, `nmcli`, the profile file) is done by
//! the caller; this crate decides.

pub mod text;
pub mod wifi;
pub mod structs;
pub mod interfaces;
pub mod profiles;
pub mod connect;
pub mod operations;
