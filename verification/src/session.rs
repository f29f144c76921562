//! Which capture backend a session uses.
//!
//! - a true X11 session: XInput2, which needs no device access, then evdev;
//! - a Wayland session: the GlobalShortcuts portal, or evdev where the user asked for it. A portal
//!   that does not start leaves capture off: falling back would silently read the input devices,
//!   which the default avoids;
//! - anything else: evdev, the only backend that needs no session.

use vstd::prelude::*;

use crate::held::{Held, HeldKeys, NoHeldKeys};
use crate::text::bytes_are;

verus! {

/// What the environment says of the session.
#[derive(Debug, Clone, Copy, PartialEq, Eq, Structural)]
pub struct Session {
    /// Whether `DISPLAY` is set.
    pub display: bool,
    /// Whether `WAYLAND_DISPLAY` is set.
    pub wayland_display: bool,
}

/// The backend that the user chose for a Wayland session.
#[derive(Debug, Clone, Copy, PartialEq, Eq, Structural)]
pub enum CaptureMode {
    /// The GlobalShortcuts portal: no device access, the compositor owns the grab.
    Portal,
    /// The reader of the input devices, for compositors without the portal.
    Evdev,
}

/// A source of key events.
#[derive(Debug, Clone, Copy, PartialEq, Eq, Structural)]
pub enum Backend {
    XInput,
    Portal,
    Evdev,
}

/// What to do next to start capture.
#[derive(Debug, Clone, Copy, PartialEq, Eq, Structural)]
pub enum SpawnStep {
    /// Start this backend and report whether it started.
    Start(Backend),
    /// Capture runs on this backend.
    Running(Backend),
    /// No backend captures keys.
    Off,
}

impl Session {
    /// Whether this is an X11 session and no Wayland one. Under Wayland `DISPLAY` is mostly set
    /// too, for XWayland, so it does not suffice.
    pub open spec fn true_x11(self) -> bool {
        self.display && !self.wayland_display
    }

    /// Whether this is a Wayland session.
    pub open spec fn wayland(self) -> bool {
        self.wayland_display
    }
}

/// Whether this is an X11 session and no Wayland one.
pub fn is_true_x11_session(session: Session) -> (r: bool)
    ensures
        r == session.true_x11(),
        r == (session.display && !session.wayland_display),
{
    session.display && !session.wayland_display
}

/// Whether this is a Wayland session.
pub fn is_wayland_session(session: Session) -> (r: bool)
    ensures
        r == session.wayland(),
        r == session.wayland_display,
{
    session.wayland_display
}

/// Whether the bytes of an environment variable spell `name`.
pub open spec fn spells(value: Seq<u8>, name: Seq<char>) -> bool {
    value == vstd::utf8::encode_utf8(name)
}

/// The backend for a Wayland session, from the bytes of `WISPR_CAPTURE`, where that is set:
/// `evdev` selects the device reader, anything else the portal.
pub fn capture_mode(value: Option<&Vec<u8>>) -> (r: CaptureMode)
    ensures
        r == match value {
            Some(name) if spells(name@, "evdev"@) => CaptureMode::Evdev,
            _ => CaptureMode::Portal,
        },
        r == CaptureMode::Evdev <==> value is Some && value->0@ == vstd::utf8::encode_utf8(
            "evdev"@,
        ),
{
    match value {
        Some(name) => if bytes_are(name, "evdev") {
            CaptureMode::Evdev
        } else {
            CaptureMode::Portal
        },
        None => CaptureMode::Portal,
    }
}

/// Whether the bytes of `WISPR_CAPTURE` deserve no warning: it is unset, empty, or the name of a
/// backend. A value that is not Unicode is none of these.
pub fn capture_mode_is_known(value: Option<&Vec<u8>>) -> (r: bool)
    ensures
        r == match value {
            Some(name) => name@.len() == 0 || spells(name@, "evdev"@) || spells(name@, "portal"@),
            None => true,
        },
        !r <==> value is Some && value->0@.len() > 0 && value->0@ != vstd::utf8::encode_utf8(
            "evdev"@,
        ) && value->0@ != vstd::utf8::encode_utf8("portal"@),
{
    match value {
        Some(name) => name.len() == 0 || bytes_are(name, "evdev") || bytes_are(name, "portal"),
        None => true,
    }
}

/// The first backend that a session tries.
pub open spec fn first_backend(session: Session, mode: CaptureMode) -> Backend {
    if session.true_x11() {
        Backend::XInput
    } else if session.wayland() && mode == CaptureMode::Portal {
        Backend::Portal
    } else {
        Backend::Evdev
    }
}

/// What to do next, after the last backend tried, if any, and whether it started.
pub open spec fn next_step(
    session: Session,
    mode: CaptureMode,
    last: Option<(Backend, bool)>,
) -> SpawnStep {
    match last {
        None => SpawnStep::Start(first_backend(session, mode)),
        Some((backend, true)) => SpawnStep::Running(backend),
        Some((Backend::XInput, false)) => SpawnStep::Start(Backend::Evdev),
        Some((_, false)) => SpawnStep::Off,
    }
}

/// Decides what to do next to start capture, from the last backend that was tried and whether it
/// started; `None` at first.
pub fn spawn(session: Session, mode: CaptureMode, last: Option<(Backend, bool)>) -> (r: SpawnStep)
    ensures
        r == next_step(session, mode, last),
{
    match last {
        None => {
            if is_true_x11_session(session) {
                SpawnStep::Start(Backend::XInput)
            } else if is_wayland_session(session) {
                match mode {
                    CaptureMode::Portal => SpawnStep::Start(Backend::Portal),
                    CaptureMode::Evdev => SpawnStep::Start(Backend::Evdev),
                }
            } else {
                SpawnStep::Start(Backend::Evdev)
            }
        },
        Some((backend, true)) => SpawnStep::Running(backend),
        Some((Backend::XInput, false)) => SpawnStep::Start(Backend::Evdev),
        Some((_, false)) => SpawnStep::Off,
    }
}

/// The handle for what the device reader's start gave: without a readable device, one that
/// reports no key.
pub fn start_evdev<H: HeldKeys>(started: Option<H>) -> (r: Held<H>)
    ensures
        r == match started {
            Some(backend) => Held::Backend(backend),
            None => Held::Off(NoHeldKeys),
        },
{
    match started {
        Some(backend) => Held::Backend(backend),
        None => Held::Off(NoHeldKeys),
    }
}

/// How many backends can still be tried.
pub open spec fn tries_left(last: Option<(Backend, bool)>) -> nat {
    match last {
        None => 2,
        Some((Backend::XInput, false)) => 1,
        Some(_) => 0,
    }
}

/// The backends that are tried from here on, and how it ends, where `starts` says of each backend
/// whether it starts.
pub open spec fn spawn_run(
    session: Session,
    mode: CaptureMode,
    starts: spec_fn(Backend) -> bool,
    last: Option<(Backend, bool)>,
) -> (Seq<Backend>, SpawnStep)
    decreases tries_left(last),
{
    match next_step(session, mode, last) {
        SpawnStep::Start(backend) => {
            let rest = spawn_run(session, mode, starts, Some((backend, starts(backend))));
            (seq![backend] + rest.0, rest.1)
        },
        end => (Seq::<Backend>::empty(), end),
    }
}

/// How a run ends that tries one backend alone.
pub open spec fn ends_with(starts: spec_fn(Backend) -> bool, backend: Backend) -> SpawnStep {
    if starts(backend) {
        SpawnStep::Running(backend)
    } else {
        SpawnStep::Off
    }
}

/// A Wayland session tries the portal and nothing else, unless the user chose evdev: where the
/// portal does not start, capture is off and no input device is read.
pub proof fn law_wayland_does_not_fall_back(session: Session, starts: spec_fn(Backend) -> bool)
    requires
        session.wayland(),
    ensures
        spawn_run(session, CaptureMode::Portal, starts, None) == (
            seq![Backend::Portal],
            ends_with(starts, Backend::Portal),
        ),
{
    reveal_with_fuel(spawn_run, 3);
    assert(spawn_run(session, CaptureMode::Portal, starts, None).0 =~= seq![Backend::Portal]);
}

/// A Wayland session tries evdev alone where the user chose it.
pub proof fn law_wayland_opts_in_to_evdev(session: Session, starts: spec_fn(Backend) -> bool)
    requires
        session.wayland(),
    ensures
        spawn_run(session, CaptureMode::Evdev, starts, None) == (
            seq![Backend::Evdev],
            ends_with(starts, Backend::Evdev),
        ),
{
    reveal_with_fuel(spawn_run, 3);
    assert(spawn_run(session, CaptureMode::Evdev, starts, None).0 =~= seq![Backend::Evdev]);
}

/// A true X11 session tries XInput2, then evdev, whatever the user chose for Wayland.
pub proof fn law_x11_tries_xinput_then_evdev(
    session: Session,
    mode: CaptureMode,
    starts: spec_fn(Backend) -> bool,
)
    requires
        session.true_x11(),
    ensures
        spawn_run(session, mode, starts, None) == if starts(Backend::XInput) {
            (seq![Backend::XInput], SpawnStep::Running(Backend::XInput))
        } else {
            (seq![Backend::XInput, Backend::Evdev], ends_with(starts, Backend::Evdev))
        },
{
    reveal_with_fuel(spawn_run, 4);
    if starts(Backend::XInput) {
        assert(spawn_run(session, mode, starts, None).0 =~= seq![Backend::XInput]);
    } else {
        assert(spawn_run(session, mode, starts, None).0 =~= seq![Backend::XInput, Backend::Evdev]);
    }
}

/// A session that is neither X11 nor Wayland tries evdev alone, whatever the user chose.
pub proof fn law_headless_tries_evdev(
    session: Session,
    mode: CaptureMode,
    starts: spec_fn(Backend) -> bool,
)
    requires
        !session.true_x11(),
        !session.wayland(),
    ensures
        spawn_run(session, mode, starts, None) == (
            seq![Backend::Evdev],
            ends_with(starts, Backend::Evdev),
        ),
{
    reveal_with_fuel(spawn_run, 3);
    assert(spawn_run(session, mode, starts, None).0 =~= seq![Backend::Evdev]);
}

/// Bytes spell a name of letters and other ASCII characters where they are as many, and each is
/// the code of the character at its place.
pub proof fn law_bytes_spell_a_name_letter_by_letter(value: Seq<u8>, name: Seq<char>)
    requires
        vstd::utf8::is_ascii_chars(name),
    ensures
        spells(value, name) <==> value.len() == name.len() && forall|i: int|
            0 <= i < name.len() ==> value[i] as int == #[trigger] name[i] as int,
{
    vstd::utf8::is_ascii_chars_encode_utf8(name);
    let bytes = vstd::utf8::encode_utf8(name);
    if value.len() == name.len() && forall|i: int|
        0 <= i < name.len() ==> value[i] as int == #[trigger] name[i] as int {
        assert forall|i: int| 0 <= i < name.len() implies value[i] == bytes[i] by {
            assert(value[i] as int == name[i] as int);
        }
        assert(value =~= bytes);
    }
}

/// What a session tries first is settled by the two display variables and, where a Wayland display
/// is set, by the user's choice.
pub proof fn law_first_try_follows_the_displays(session: Session, mode: CaptureMode)
    ensures
        session.wayland_display && mode == CaptureMode::Portal ==> next_step(session, mode, None)
            == SpawnStep::Start(Backend::Portal),
        session.wayland_display && mode == CaptureMode::Evdev ==> next_step(session, mode, None)
            == SpawnStep::Start(Backend::Evdev),
        !session.wayland_display && session.display ==> next_step(session, mode, None)
            == SpawnStep::Start(Backend::XInput),
        !session.wayland_display && !session.display ==> next_step(session, mode, None)
            == SpawnStep::Start(Backend::Evdev),
{
}

/// A backend that started runs; one that did not leaves capture off, but for XInput2, after which
/// evdev is tried. The session and the user's choice no longer matter then.
pub proof fn law_later_steps_follow_the_last_try(
    session: Session,
    mode: CaptureMode,
    backend: Backend,
)
    ensures
        next_step(session, mode, Some((backend, true))) == SpawnStep::Running(backend),
        next_step(session, mode, Some((Backend::XInput, false))) == SpawnStep::Start(Backend::Evdev),
        next_step(session, mode, Some((Backend::Portal, false))) == SpawnStep::Off,
        next_step(session, mode, Some((Backend::Evdev, false))) == SpawnStep::Off,
{
}

} // verus!
