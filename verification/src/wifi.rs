//! Wi-Fi: the hotspots a scan reports, how a failed scan is judged, and
//! which SSIDs `nmcli` lists as active.

use vstd::prelude::*;
use crate::text::{
    chars_of, contains, contains_chars, is_line, lemma_line_end_unique, occurs_at, seq_contains,
    sub_chars,
};

verus! {

/// A hotspot reported by a Wi-Fi scan.
#[derive(Debug, Clone, PartialEq, Eq)]
pub struct WifiNetwork {
    /// MAC address of the access point.
    pub mac: String,
    /// Name of the hotspot.
    pub ssid: String,
    pub channel: String,
    /// Signal strength in dBm.
    pub signal_level: String,
    pub security: String,
}

/// Why a Wi-Fi scan is reported as failed.
#[derive(Debug, Clone, Copy, PartialEq, Eq, Structural)]
pub enum WifiScanError {
    /// The scanner was refused (not permitted) or the device was busy.
    ScanRefused,
}

impl WifiScanError {
    /// The message that describes the error.
    pub open spec fn message_text(&self) -> Seq<char> {
        "wifi errors..."@
    }

    /// The message that describes the error.
    pub fn message(&self) -> (r: String)
        ensures
            r@ == self.message_text(),
    {
        match self {
            WifiScanError::ScanRefused => String::from_str("wifi errors..."),
        }
    }
}

/// A scan error is fatal when its message mentions a missing permission
/// ("permitt") or a busy device ("busy").
pub open spec fn scan_error_is_fatal(msg: Seq<char>) -> bool {
    seq_contains(msg, "permitt"@) || seq_contains(msg, "busy"@)
}

/// What a Wi-Fi scan yields for the rest of the program: the hotspots when
/// the scan succeeded; an error when it failed for lack of permission or
/// because the device was busy; no hotspots when it failed otherwise (for
/// example because there is no wireless device).
pub open spec fn wifi_scan_outcome(
    scan: Result<Seq<WifiNetwork>, Seq<char>>,
) -> Result<Seq<WifiNetwork>, WifiScanError> {
    match scan {
        Ok(networks) => Ok(networks),
        Err(msg) => if scan_error_is_fatal(msg) {
            Err(WifiScanError::ScanRefused)
        } else {
            Ok(Seq::empty())
        },
    }
}

/// The view of a scan result, with each side taken by its view.
pub open spec fn scan_view(scan: Result<Vec<WifiNetwork>, String>) -> Result<Seq<WifiNetwork>, Seq<char>> {
    match scan {
        Ok(v) => Ok(v@),
        Err(m) => Err(m@),
    }
}

/// The view of the outcome of a scan.
pub open spec fn outcome_view(r: Result<Vec<WifiNetwork>, WifiScanError>) -> Result<Seq<WifiNetwork>, WifiScanError> {
    match r {
        Ok(v) => Ok(v@),
        Err(e) => Err(e),
    }
}

/// Judges the result of a Wi-Fi scan (the hotspots, or the scanner's error
/// message) as described by `wifi_scan_outcome`.
pub fn get_wifi_networks(scan: Result<Vec<WifiNetwork>, String>) -> (r: Result<Vec<WifiNetwork>, WifiScanError>)
    ensures
        outcome_view(r) == wifi_scan_outcome(scan_view(scan)),
{
    match scan {
        Ok(networks) => Ok(networks),
        Err(msg) => {
            if contains(msg.as_str(), "permitt") || contains(msg.as_str(), "busy") {
                Err(WifiScanError::ScanRefused)
            } else {
                let none: Vec<WifiNetwork> = Vec::new();
                proof {
                    assert(none@ =~= Seq::<WifiNetwork>::empty());
                }
                Ok(none)
            }
        },
    }
}

/// A line of `nmcli -t -f active,ssid dev wifi` output marks `ssid` as the
/// active network: the line does not mention "no" and mentions the SSID.
pub open spec fn line_marks_ssid_active(line: Seq<char>, ssid: Seq<char>) -> bool {
    !seq_contains(line, "no"@) && seq_contains(line, ssid)
}

/// Some line of `listing` (split at `'\n'`) marks `ssid` as active.
pub open spec fn listing_shows_ssid_active(listing: Seq<char>, ssid: Seq<char>) -> bool {
    exists|i: int, j: int|
        is_line(listing, i, j) && #[trigger] line_marks_ssid_active(listing.subrange(i, j), ssid)
}

/// Whether the `nmcli` active/SSID listing shows `ssid` as connected.
pub fn is_ssid_connected(listing: &str, ssid: &str) -> (r: bool)
    ensures
        r == listing_shows_ssid_active(listing@, ssid@),
{
    let s = chars_of(listing);
    let no = chars_of("no");
    let id = chars_of(ssid);
    let mut start: usize = 0;
    loop
        invariant
            s@ == listing@,
            no@ == "no"@,
            id@ == ssid@,
            start <= s@.len(),
            start == 0 || s@[start - 1] == '\n',
            forall|i: int, j: int|
                is_line(s@, i, j) && i < start ==> !line_marks_ssid_active(
                    #[trigger] s@.subrange(i, j),
                    ssid@,
                ),
        decreases s@.len() - start,
    {
        let mut end: usize = start;
        while end < s.len() && s[end] != '\n'
            invariant
                start <= end <= s@.len(),
                forall|k: int| start <= k < end ==> s@[k] != '\n',
            decreases s@.len() - end,
        {
            end = end + 1;
        }
        assert(is_line(s@, start as int, end as int));
        let line = sub_chars(&s, start, end);
        if !contains_chars(&line, &no) && contains_chars(&line, &id) {
            assert(line_marks_ssid_active(s@.subrange(start as int, end as int), ssid@));
            return true;
        }
        assert forall|i: int, j: int|
            is_line(s@, i, j) && i < end + 1 implies !line_marks_ssid_active(
                #[trigger] s@.subrange(i, j),
                ssid@,
            ) by {
            if i >= start {
                if i > start {
                    assert(s@[i - 1] != '\n');
                }
                lemma_line_end_unique(s@, i, j, end as int);
            }
        }
        if end == s.len() {
            assert forall|i: int, j: int| is_line(s@, i, j) implies !line_marks_ssid_active(
                #[trigger] s@.subrange(i, j),
                ssid@,
            ) by {}
            return false;
        }
        start = end + 1;
    }
}

/// An SSID shown as active occurs in the listing: an SSID that occurs
/// nowhere in it is never reported as connected.
pub proof fn lemma_active_ssid_occurs(listing: Seq<char>, ssid: Seq<char>)
    ensures
        listing_shows_ssid_active(listing, ssid) ==> seq_contains(listing, ssid),
{
    if listing_shows_ssid_active(listing, ssid) {
        let (i, j) = choose|i: int, j: int|
            is_line(listing, i, j) && #[trigger] line_marks_ssid_active(
                listing.subrange(i, j),
                ssid,
            );
        let line = listing.subrange(i, j);
        let k = choose|k: int| occurs_at(line, ssid, k);
        assert(listing.subrange(i + k, i + k + ssid.len()) =~= line.subrange(k, k + ssid.len()));
        assert(occurs_at(listing, ssid, i + k));
    }
}

/// A successful scan is passed on unchanged, every hotspot in order; a
/// failed scan is an error exactly when its message mentions "permitt" or
/// "busy", and otherwise yields no hotspots.
pub proof fn lemma_scan_outcome(scan: Result<Seq<WifiNetwork>, Seq<char>>)
    ensures
        scan matches Ok(networks) ==> wifi_scan_outcome(scan) == Ok::<
            Seq<WifiNetwork>,
            WifiScanError,
        >(networks),
        scan matches Err(msg) ==> {
            &&& wifi_scan_outcome(scan) is Err <==> (seq_contains(msg, "permitt"@) || seq_contains(
                msg,
                "busy"@,
            ))
            &&& wifi_scan_outcome(scan) is Err ==> wifi_scan_outcome(scan) == Err::<
                Seq<WifiNetwork>,
                WifiScanError,
            >(WifiScanError::ScanRefused)
            &&& wifi_scan_outcome(scan) is Ok ==> wifi_scan_outcome(scan) == Ok::<
                Seq<WifiNetwork>,
                WifiScanError,
            >(Seq::empty())
        },
{
}

/// A line that mentions "no" never marks an SSID as active, and every line
/// that does not mention "no" marks each SSID it mentions.
pub proof fn lemma_active_line(listing: Seq<char>, ssid: Seq<char>, i: int, j: int)
    requires
        is_line(listing, i, j),
    ensures
        !seq_contains(listing.subrange(i, j), "no"@) && seq_contains(listing.subrange(i, j), ssid)
            ==> listing_shows_ssid_active(listing, ssid),
        (forall|a: int, b: int|
            is_line(listing, a, b) ==> seq_contains(#[trigger] listing.subrange(a, b), "no"@))
            ==> !listing_shows_ssid_active(listing, ssid),
{
    if !seq_contains(listing.subrange(i, j), "no"@) && seq_contains(listing.subrange(i, j), ssid) {
        assert(line_marks_ssid_active(listing.subrange(i, j), ssid));
    }
}

} // verus!