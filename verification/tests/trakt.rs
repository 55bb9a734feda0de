use madari::trakt::{code_expiry_text, connection_subtitle, device_step, disconnect_notice, import_report, DevicePoll, DeviceStep};

#[test]
fn device_login_slows_down_when_asked() {
    assert_eq!(device_step(5, DevicePoll::Pending), DeviceStep::Wait(5));
    assert_eq!(device_step(5, DevicePoll::SlowDown(3)), DeviceStep::Wait(10));
    assert_eq!(device_step(5, DevicePoll::SlowDown(30)), DeviceStep::Wait(30));
    assert_eq!(device_step(u64::MAX - 1, DevicePoll::SlowDown(0)), DeviceStep::Wait(u64::MAX));
    assert_eq!(device_step(5, DevicePoll::Authorized), DeviceStep::Done);
    assert_eq!(code_expiry_text(600), "Enter this code on Trakt. It expires in 10 minutes.");
    assert_eq!(code_expiry_text(601), "Enter this code on Trakt. It expires in 11 minutes.");
    assert_eq!(code_expiry_text(0), "Enter this code on Trakt. It expires in 0 minutes.");
}

#[test]
fn connection_and_import_texts() {
    assert_eq!(connection_subtitle(true, Some(("ana", 2))), "Connected as ana · 2 lists");
    assert_eq!(connection_subtitle(true, None), "Connected · ready to sync");
    assert_eq!(connection_subtitle(false, None), "Not connected");
    let (row, summary, skipped) = import_report("ana", 4, 7, 1, 0);
    assert_eq!(row, "Connected as ana · Up to date");
    assert_eq!(summary, "Imported 4 watchlist items, 7 watched items and 1 lists");
    assert_eq!(skipped, None);
    let (_, _, skipped) = import_report("ana", 0, 0, 0, 3);
    assert_eq!(skipped.as_deref(), Some("3 unsupported Trakt entries were skipped"));
    assert_eq!(disconnect_notice(true), "Trakt disconnected");
    assert!(disconnect_notice(false).starts_with("Disconnected locally."));
}
