use pedalboard_bridge::flash::{
    drive_label_pattern, glob, pick_drive, FlashAction, FlashEvent, FlashRequest, FlashStage, MountResult,
};
use pedalboard_bridge::http::HttpReply;

fn reply(action: FlashAction) -> (u16, String) {
    match action {
        FlashAction::Reply(HttpReply { status, body }) => (status, body),
        other => panic!("{other:?}"),
    }
}

/// A request whose firmware was read.
fn loaded(data: &[u8]) -> FlashRequest {
    let mut request = FlashRequest::new();
    assert!(matches!(request.handle_flash(FlashEvent::Field(Some("notes".to_string()))), FlashAction::NextField));
    assert!(matches!(request.handle_flash(FlashEvent::Field(None)), FlashAction::NextField));
    assert!(matches!(request.handle_flash(FlashEvent::Field(Some("firmware".to_string()))), FlashAction::ReadField));
    assert!(matches!(request.handle_flash(FlashEvent::FieldRead(Ok(data.to_vec()))), FlashAction::NextField));
    assert!(matches!(request.handle_flash(FlashEvent::NoMoreFields), FlashAction::Poll));
    request
}

/// A request whose drive was found.
fn found() -> FlashRequest {
    let mut request = loaded(&[1, 2, 3]);
    match request.handle_flash(FlashEvent::Polled(Some("/dev/sdc1".to_string()))) {
        FlashAction::Mount { device, dir, options } => {
            assert_eq!(device, "/dev/sdc1");
            assert_eq!(dir, "/mnt/uf2");
            assert_eq!(options, "uid=1000,gid=1000");
        }
        other => panic!("{other:?}"),
    }
    request
}

#[test]
fn firmware_is_flashed() {
    let mut request = found();
    match request.handle_flash(FlashEvent::MountEnded(MountResult::Mounted)) {
        FlashAction::Write { path } => assert_eq!(path, "/mnt/uf2/firmware.uf2"),
        other => panic!("{other:?}"),
    }
    assert_eq!(request.firmware(), Some(&vec![1, 2, 3]));
    assert!(matches!(request.handle_flash(FlashEvent::Written(Ok(()))), FlashAction::Sync));
    assert_eq!(reply(request.handle_flash(FlashEvent::Synced)), (200, "OK: flashed 3 bytes\n".to_string()));
    assert_eq!(request.stage(), FlashStage::Done);
}

#[test]
fn last_firmware_field_counts() {
    let mut request = FlashRequest::new();
    request.handle_flash(FlashEvent::Field(Some("firmware".to_string())));
    assert_eq!(request.stage(), FlashStage::Reading);
    request.handle_flash(FlashEvent::FieldRead(Ok(vec![1])));
    request.handle_flash(FlashEvent::Field(Some("firmware".to_string())));
    request.handle_flash(FlashEvent::FieldRead(Ok(vec![2, 3])));
    assert_eq!(request.firmware(), Some(&vec![2, 3]));
}

#[test]
fn form_without_firmware() {
    let mut request = FlashRequest::new();
    assert_eq!(
        reply(request.handle_flash(FlashEvent::NoMoreFields)),
        (400, "missing 'firmware' file field".to_string())
    );
    let mut request = FlashRequest::new();
    request.handle_flash(FlashEvent::Field(Some("firmware".to_string())));
    assert_eq!(
        reply(request.handle_flash(FlashEvent::FieldRead(Err("too large".to_string())))),
        (400, "read error: too large".to_string())
    );
}

#[test]
fn drive_is_waited_for() {
    let mut request = loaded(&[0]);
    for look in 1..=30 {
        match request.handle_flash(FlashEvent::Polled(None)) {
            FlashAction::Sleep { millis } => assert_eq!(millis, 500),
            other => panic!("{other:?}"),
        }
        let next = request.handle_flash(FlashEvent::Slept);
        if look < 30 {
            assert!(matches!(next, FlashAction::Poll));
        } else {
            assert_eq!(
                reply(next),
                (503, "UF2 drive not found (is device in bootloader mode?)".to_string())
            );
        }
    }
}

#[test]
fn mount_failures() {
    let mut request = found();
    assert_eq!(
        reply(request.handle_flash(FlashEvent::MountEnded(MountResult::Refused(b"no \xFF medium".to_vec())))),
        (500, "mount failed: no \u{FFFD} medium".to_string())
    );
    let mut request = found();
    assert_eq!(
        reply(request.handle_flash(FlashEvent::MountEnded(MountResult::NotRun("no sudo".to_string())))),
        (500, "mount failed: no sudo".to_string())
    );
}

#[test]
fn write_failure() {
    let mut request = found();
    request.handle_flash(FlashEvent::MountEnded(MountResult::Mounted));
    assert_eq!(
        reply(request.handle_flash(FlashEvent::Written(Err("disk full".to_string())))),
        (500, "write failed: disk full".to_string())
    );
}

#[test]
fn labelled_entries() {
    assert_eq!(drive_label_pattern(), "/dev/disk/by-label/RPI-RP2*");
    let names = vec![
        Some("RPI-RP2".to_string()),
        None,
        Some("boot".to_string()),
        Some("RPI-RP2350".to_string()),
        Some("RPI-RP".to_string()),
    ];
    assert_eq!(
        glob(Some("/dev/disk/by-label"), Some("RPI-RP2*"), Some(names)).unwrap(),
        vec!["RPI-RP2", "RPI-RP2350"]
    );
    assert!(glob(None, Some("RPI-RP2*"), Some(vec![])).is_err());
    assert!(glob(Some("/"), None, Some(vec![])).is_err());
    assert!(glob(Some("/"), Some("*"), None).is_err());
}

#[test]
fn drive_is_picked() {
    let labelled = vec![None, Some("/dev/sdx1".to_string()), Some("/dev/sdy1".to_string())];
    assert_eq!(pick_drive(&labelled, true, true).as_deref(), Some("/dev/sdx1"));
    assert_eq!(pick_drive(&vec![None], true, true).as_deref(), Some("/dev/sda1"));
    assert_eq!(pick_drive(&vec![], false, true).as_deref(), Some("/dev/sdb1"));
    assert_eq!(pick_drive(&vec![], false, false), None);
}
