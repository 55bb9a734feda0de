//! Connecting a profile to Trakt with a device code, and what the settings page says about
//! the connection and its imports.
use vstd::prelude::*;
use crate::text::{chars_of, decimal, decimal_chars, extend_chars, string_of};

verus! {

/// How the device-code poll answered.
#[derive(Clone, Copy, Debug, PartialEq, Eq)]
pub enum DevicePoll {
    /// The user has not approved the code yet.
    Pending,
    /// Trakt asks to poll less often, at least this many seconds apart.
    SlowDown(u64),
    /// The user approved the code.
    Authorized,
}

/// What the device login does after an answer.
#[derive(Clone, Copy, Debug, PartialEq, Eq)]
pub enum DeviceStep {
    /// Poll again after this many seconds.
    Wait(u64),
    /// Store the tokens that came with the approval.
    Done,
}

/// The wait before the next poll: unchanged while pending; after a request to slow down, five
/// seconds longer (saturating), or the requested interval when that is longer.
pub fn device_step(interval: u64, answer: DevicePoll) -> (r: DeviceStep)
    ensures
        r == match answer {
            DevicePoll::Pending => DeviceStep::Wait(interval),
            DevicePoll::SlowDown(s) => DeviceStep::Wait({
                let longer = if interval + 5 > u64::MAX { u64::MAX } else { (interval + 5) as u64 };
                if longer >= s { longer } else { s }
            }),
            DevicePoll::Authorized => DeviceStep::Done,
        },
{
    match answer {
        DevicePoll::Pending => DeviceStep::Wait(interval),
        DevicePoll::SlowDown(s) => {
            let longer = interval.saturating_add(5);
            DeviceStep::Wait(if longer >= s { longer } else { s })
        },
        DevicePoll::Authorized => DeviceStep::Done,
    }
}

/// The device login dialog's text: the code's lifetime in whole minutes, rounded up.
pub fn code_expiry_text(expires_in: u64) -> (r: String)
    ensures
        r@ == "Enter this code on Trakt. It expires in "@ + decimal(((expires_in as nat) + 59) / 60)
            + " minutes."@,
{
    let minutes = expires_in / 60 + if expires_in % 60 > 0 { 1 } else { 0 };
    assert(minutes as nat == ((expires_in as nat) + 59) / 60);
    let mut out = chars_of("Enter this code on Trakt. It expires in ");
    extend_chars(&mut out, decimal_chars(minutes).as_slice());
    extend_chars(&mut out, chars_of(" minutes.").as_slice());
    string_of(out.as_slice())
}

/// The Trakt row's subtitle once the connection was read: the account and its lists when
/// imported data exists, else whether the profile is connected.
pub fn connection_subtitle(connected: bool, imported: Option<(&str, usize)>) -> (r: String)
    ensures
        r@ == match imported {
            Some((user, lists)) => "Connected as "@ + user@ + " · "@ + decimal(lists as nat) + " lists"@,
            None => if connected { "Connected · ready to sync"@ } else { "Not connected"@ },
        },
{
    match imported {
        Some((user, lists)) => {
            let mut out = chars_of("Connected as ");
            extend_chars(&mut out, chars_of(user).as_slice());
            extend_chars(&mut out, chars_of(" · ").as_slice());
            extend_chars(&mut out, decimal_chars(lists as u64).as_slice());
            extend_chars(&mut out, chars_of(" lists").as_slice());
            string_of(out.as_slice())
        },
        None => if connected {
            string_of(chars_of("Connected · ready to sync").as_slice())
        } else {
            string_of(chars_of("Not connected").as_slice())
        },
    }
}

/// What a finished import reports: the row's subtitle, the summary notice, and a notice about
/// skipped entries when there were any.
pub fn import_report(user: &str, watchlist: usize, history: usize, lists: usize, skipped: usize)
    -> (r: (String, String, Option<String>))
    ensures
        r.0@ == "Connected as "@ + user@ + " · Up to date"@,
        r.1@ == "Imported "@ + decimal(watchlist as nat) + " watchlist items, "@ + decimal(history as nat)
            + " watched items and "@ + decimal(lists as nat) + " lists"@,
        skipped > 0 ==> (r.2 matches Some(t) && t@ == decimal(skipped as nat) + " unsupported Trakt entries were skipped"@),
        skipped == 0 ==> r.2 is None,
{
    let mut row = chars_of("Connected as ");
    extend_chars(&mut row, chars_of(user).as_slice());
    extend_chars(&mut row, chars_of(" · Up to date").as_slice());
    let mut summary = chars_of("Imported ");
    extend_chars(&mut summary, decimal_chars(watchlist as u64).as_slice());
    extend_chars(&mut summary, chars_of(" watchlist items, ").as_slice());
    extend_chars(&mut summary, decimal_chars(history as u64).as_slice());
    extend_chars(&mut summary, chars_of(" watched items and ").as_slice());
    extend_chars(&mut summary, decimal_chars(lists as u64).as_slice());
    extend_chars(&mut summary, chars_of(" lists").as_slice());
    let skipped_note = if skipped > 0 {
        let mut note = decimal_chars(skipped as u64);
        extend_chars(&mut note, chars_of(" unsupported Trakt entries were skipped").as_slice());
        Some(string_of(note.as_slice()))
    } else {
        None
    };
    (string_of(row.as_slice()), string_of(summary.as_slice()), skipped_note)
}

/// The toast after disconnecting: whether Trakt confirmed the revocation.
pub fn disconnect_notice(revoked: bool) -> (r: &'static str)
    ensures
        r@ == if revoked {
            "Trakt disconnected"@
        } else {
            "Disconnected locally. Remove Madari from Trakt’s connected apps to revoke access when online."@
        },
{
    if revoked {
        "Trakt disconnected"
    } else {
        "Disconnected locally. Remove Madari from Trakt’s connected apps to revoke access when online."
    }
}

} // verus!
