//! Choosing, opening and leaving profiles: what each step of the profile flow does next.
use vstd::prelude::*;
use crate::text::{chars_of, extend_chars, string_of};

verus! {

/// How a profile card describes its profile.
#[derive(Clone, Copy, Debug, PartialEq, Eq)]
pub struct ProfileBadge {
    /// The icon beside the caption, for kids and protected profiles.
    pub icon: Option<&'static str>,
    pub caption: &'static str,
}

/// The badge of a profile card: kids profiles first, then PIN protection, else personal.
pub fn profile_badge(kids: bool, pin_protected: bool) -> (r: ProfileBadge)
    ensures
        (kids || pin_protected) <==> r.icon is Some,
        r.icon matches Some(i) ==> i@ == (if kids { "face-smile-symbolic"@ } else { "system-lock-screen-symbolic"@ }),
        r.caption@ == if kids { "Kids"@ } else if pin_protected { "PIN protected"@ } else { "Personal"@ },
{
    ProfileBadge {
        icon: if kids {
            Some("face-smile-symbolic")
        } else if pin_protected {
            Some("system-lock-screen-symbolic")
        } else {
            None
        },
        caption: if kids {
            "Kids"
        } else if pin_protected {
            "PIN protected"
        } else {
            "Personal"
        },
    }
}

/// What opening a profile from the picker does.
#[derive(Debug, PartialEq, Eq)]
pub enum OpenStep {
    /// Ask for the profile's PIN with this message, then open it.
    AskPin(String),
    /// Open the profile right away.
    Open,
}

/// A protected profile asks for its PIN first.
pub fn open_step(name: &str, pin_protected: bool) -> (r: OpenStep)
    ensures
        pin_protected ==> (r matches OpenStep::AskPin(m) && m@ == "Enter the PIN for "@ + name@ + "."@),
        !pin_protected ==> r == OpenStep::Open,
{
    if pin_protected {
        let mut m = chars_of("Enter the PIN for ");
        extend_chars(&mut m, chars_of(name).as_slice());
        extend_chars(&mut m, chars_of(".").as_slice());
        OpenStep::AskPin(string_of(m.as_slice()))
    } else {
        OpenStep::Open
    }
}

/// What showing the profile picker does: a kids profile that is still active opens again
/// without asking (kids mode survives restarts); otherwise the picker is shown.
pub fn picker_step(active_kids: Option<&str>) -> (r: Option<String>)
    ensures
        match active_kids {
            Some(id) => r matches Some(x) && x@ == id@,
            None => r is None,
        },
{
    match active_kids {
        Some(id) => Some(string_of(chars_of(id).as_slice())),
        None => None,
    }
}

/// What switching profiles does next.
#[derive(Clone, Copy, Debug, PartialEq, Eq)]
pub enum SwitchStep {
    /// Stop playback (saving progress) and switch once it has stopped.
    StopPlaybackFirst,
    /// Leaving kids mode needs the guardian's PIN.
    AskGuardianPin,
    /// Leave the profile for the picker.
    Leave,
}

/// Switching profiles stops playback first, and leaving a kids profile asks for the
/// guardian's PIN.
pub fn switch_step(playback_active: bool, kids: bool) -> (r: SwitchStep)
    ensures
        r == if playback_active {
            SwitchStep::StopPlaybackFirst
        } else if kids {
            SwitchStep::AskGuardianPin
        } else {
            SwitchStep::Leave
        },
{
    if playback_active {
        SwitchStep::StopPlaybackFirst
    } else if kids {
        SwitchStep::AskGuardianPin
    } else {
        SwitchStep::Leave
    }
}

/// The picker's welcome line.
pub fn picker_subtitle(any_profiles: bool) -> (r: &'static str)
    ensures
        r@ == if any_profiles { "Your shows. Your place to pick up."@ } else { "Create a profile to make Madari yours."@ },
{
    if any_profiles {
        "Your shows. Your place to pick up."
    } else {
        "Create a profile to make Madari yours."
    }
}

/// A newly opened profile without any addon gets the default addons installed.
pub fn seed_default_addons(addon_count: usize) -> (b: bool)
    ensures
        b == (addon_count == 0),
{
    addon_count == 0
}

} // verus!
