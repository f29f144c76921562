use key_capture::held::{Held, HeldKeys, PortalHeld};
use key_capture::session::{
    capture_mode, capture_mode_is_known, is_true_x11_session, is_wayland_session, spawn,
    start_evdev, Backend, CaptureMode, Session, SpawnStep,
};

fn session(display: bool, wayland_display: bool) -> Session {
    Session { display, wayland_display }
}

#[test]
fn true_x11_requires_display_without_wayland() {
    // X11: DISPLAY set, no WAYLAND_DISPLAY.
    assert!(is_true_x11_session(session(true, false)));
    // Wayland with XWayland: both set -> not a true X11 session.
    assert!(!is_true_x11_session(session(true, true)));
    // Headless: neither set.
    assert!(!is_true_x11_session(session(false, false)));
}

#[test]
fn wayland_needs_its_display() {
    assert!(is_wayland_session(session(false, true)));
    assert!(is_wayland_session(session(true, true)));
    assert!(!is_wayland_session(session(true, false)));
}

fn mode(value: &[u8]) -> CaptureMode {
    capture_mode(Some(&value.to_vec()))
}

fn known(value: &[u8]) -> bool {
    capture_mode_is_known(Some(&value.to_vec()))
}

#[test]
fn only_evdev_selects_the_device_reader() {
    assert_eq!(mode(b"evdev"), CaptureMode::Evdev);
    assert_eq!(capture_mode(None), CaptureMode::Portal);
    for value in ["portal", "", "EVDEV", "xinput", "evdev ", "evde", "evdew"] {
        assert_eq!(mode(value.as_bytes()), CaptureMode::Portal);
    }
}

#[test]
fn unknown_choices_deserve_a_warning() {
    assert!(capture_mode_is_known(None));
    for value in ["portal", "", "evdev"] {
        assert!(known(value.as_bytes()));
    }
    assert!(!known(b"EVDEV"));
    assert!(!known(b"xinput"));
    assert!(!known(b"portals"));
}

#[test]
fn choices_that_are_not_unicode_are_unknown() {
    for value in [&b"\xff"[..], b"evdev\xff", b"\xc3portal"] {
        assert_eq!(mode(value), CaptureMode::Portal);
        assert!(!known(value));
    }
}

fn run(session: Session, mode: CaptureMode, works: &[Backend]) -> (Vec<Backend>, SpawnStep) {
    let mut tried = Vec::new();
    let mut last = None;
    loop {
        match spawn(session, mode, last) {
            SpawnStep::Start(backend) => {
                tried.push(backend);
                last = Some((backend, works.contains(&backend)));
            }
            end => return (tried, end),
        }
    }
}

#[test]
fn wayland_does_not_fall_back() {
    let all = [Backend::XInput, Backend::Portal, Backend::Evdev];
    let (tried, end) = run(session(true, true), CaptureMode::Portal, &all);
    assert_eq!(tried, [Backend::Portal]);
    assert_eq!(end, SpawnStep::Running(Backend::Portal));
    let (tried, end) =
        run(session(true, true), CaptureMode::Portal, &[Backend::XInput, Backend::Evdev]);
    assert_eq!(tried, [Backend::Portal]);
    assert_eq!(end, SpawnStep::Off);
}

#[test]
fn wayland_opts_in_to_evdev() {
    let (tried, end) = run(session(false, true), CaptureMode::Evdev, &[Backend::Evdev]);
    assert_eq!(tried, [Backend::Evdev]);
    assert_eq!(end, SpawnStep::Running(Backend::Evdev));
    let (tried, end) = run(session(false, true), CaptureMode::Evdev, &[Backend::Portal]);
    assert_eq!(tried, [Backend::Evdev]);
    assert_eq!(end, SpawnStep::Off);
}

#[test]
fn x11_tries_xinput_then_evdev() {
    for mode in [CaptureMode::Portal, CaptureMode::Evdev] {
        let (tried, end) = run(session(true, false), mode, &[Backend::XInput, Backend::Evdev]);
        assert_eq!(tried, [Backend::XInput]);
        assert_eq!(end, SpawnStep::Running(Backend::XInput));
        let (tried, end) = run(session(true, false), mode, &[Backend::Evdev]);
        assert_eq!(tried, [Backend::XInput, Backend::Evdev]);
        assert_eq!(end, SpawnStep::Running(Backend::Evdev));
        let (tried, end) = run(session(true, false), mode, &[]);
        assert_eq!(tried, [Backend::XInput, Backend::Evdev]);
        assert_eq!(end, SpawnStep::Off);
    }
}

#[test]
fn headless_tries_evdev() {
    for mode in [CaptureMode::Portal, CaptureMode::Evdev] {
        let (tried, end) = run(session(false, false), mode, &[Backend::Evdev]);
        assert_eq!(tried, [Backend::Evdev]);
        assert_eq!(end, SpawnStep::Running(Backend::Evdev));
    }
}

#[test]
fn evdev_without_devices_holds_nothing() {
    let none: Option<PortalHeld> = None;
    let off = start_evdev(none);
    assert!(matches!(off, Held::Off(_)));
    assert!(off.held_vks().is_empty());
    let mut keys = PortalHeld::new();
    keys.set(30, true);
    assert_eq!(start_evdev(Some(keys)).held_vks(), [30].into_iter().collect());
}
