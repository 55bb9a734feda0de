use madari::profiles::{open_step, picker_step, picker_subtitle, profile_badge, seed_default_addons, switch_step, OpenStep, SwitchStep};
use madari::startup::{close_step, data_directory, CloseStep};

#[test]
fn profile_cards_and_steps() {
    let kids = profile_badge(true, true);
    assert_eq!((kids.icon, kids.caption), (Some("face-smile-symbolic"), "Kids"));
    let locked = profile_badge(false, true);
    assert_eq!((locked.icon, locked.caption), (Some("system-lock-screen-symbolic"), "PIN protected"));
    let open = profile_badge(false, false);
    assert_eq!((open.icon, open.caption), (None, "Personal"));
    assert_eq!(open_step("Ana", true), OpenStep::AskPin("Enter the PIN for Ana.".into()));
    assert_eq!(open_step("Ana", false), OpenStep::Open);
    assert_eq!(picker_step(Some("kid-1")).as_deref(), Some("kid-1"));
    assert_eq!(picker_step(None), None);
    assert_eq!(switch_step(true, true), SwitchStep::StopPlaybackFirst);
    assert_eq!(switch_step(false, true), SwitchStep::AskGuardianPin);
    assert_eq!(switch_step(false, false), SwitchStep::Leave);
    assert_eq!(picker_subtitle(false), "Create a profile to make Madari yours.");
    assert!(seed_default_addons(0));
    assert!(!seed_default_addons(2));
}

#[test]
fn data_directory_follows_the_environment() {
    assert_eq!(data_directory(Some("/data"), Some("/xdg"), Some("/home/a")), "/data");
    assert_eq!(data_directory(None, Some("/xdg"), Some("/home/a")), "/xdg/madari");
    assert_eq!(data_directory(None, Some("/xdg/"), None), "/xdg/madari");
    assert_eq!(data_directory(None, None, Some("/home/a")), "/home/a/.local/share/madari");
    assert_eq!(close_step(true), CloseStep::StopPlayback);
    assert_eq!(close_step(false), CloseStep::Close);
}
