use key_capture::portal::{
    bindable_chord, rebind_on_change, request_path, resolve_chord, signal_matches, start, Rebind,
    Signal,
};
use key_capture::portal_bind::{
    bind_trigger, create_and_bind, BindProgress, BindStep, PortalRequest,
};
use key_capture::portal_call::{
    portal_call, CallProgress, CallStep, PortalMethod, PortalResults,
};

#[test]
fn request_path_matches_portal_convention() {
    // Leading ':' stripped, '.' -> '_', token appended.
    assert_eq!(
        request_path(":1.407", "wf_create"),
        "/org/freedesktop/portal/desktop/request/1_407/wf_create"
    );
}

#[test]
fn request_path_edges() {
    let prefix = "/org/freedesktop/portal/desktop/request/";
    assert_eq!(request_path("::1.2.3", "t"), format!("{prefix}1_2_3/t"));
    assert_eq!(request_path("a:b", "t.u"), format!("{prefix}a:b/t.u"));
    assert_eq!(request_path("", ""), format!("{prefix}/"));
    assert_eq!(request_path(":é.1", "t"), format!("{prefix}é_1/t"));
}

#[test]
fn request_paths_are_object_paths() {
    let path = request_path(":1.407", "wf_bind");
    assert!(zbus::zvariant::ObjectPath::try_from(path.as_str()).is_ok());
}

#[test]
fn signals_match_by_session_and_shortcut() {
    let signal = |session: &str, id: &str| Signal {
        session: session.to_string(),
        shortcut_id: id.to_string(),
    };
    assert!(signal_matches(Some(&signal("/s", "ptt")), "/s"));
    assert!(!signal_matches(Some(&signal("/t", "ptt")), "/s"));
    assert!(!signal_matches(Some(&signal("/s", "other")), "/s"));
    assert!(!signal_matches(None, "/s"));
}

fn step(method: PortalMethod, progress: CallProgress) -> CallStep {
    portal_call(":1.407", "wf_create", method, progress)
}

fn done(method: PortalMethod, progress: CallProgress) -> Result<PortalResults, String> {
    match step(method, progress) {
        CallStep::Done(result) => result,
        _ => panic!("not done"),
    }
}

#[test]
fn calls_subscribe_before_they_call() {
    let create = PortalMethod::CreateSession;
    match step(create, CallProgress::Begin) {
        CallStep::Open(path) => {
            assert_eq!(path, "/org/freedesktop/portal/desktop/request/1_407/wf_create")
        }
        _ => panic!("does not open"),
    }
    assert!(matches!(step(create, CallProgress::Opened(Ok(()))), CallStep::Subscribe));
    assert!(matches!(step(create, CallProgress::Subscribed(Ok(()))), CallStep::Call));
    assert!(matches!(step(create, CallProgress::Called(Ok(()))), CallStep::Await));
}

/// A whole call: the steps it takes, with the stage that breaks, and its result.
fn whole_call(
    broken: Option<&str>,
    answer: Option<Result<(u32, PortalResults), String>>,
) -> (Vec<&'static str>, Result<PortalResults, String>) {
    let tried = |stage| {
        if broken == Some(stage) {
            Err("broken".to_string())
        } else {
            Ok(())
        }
    };
    let mut answer = Some(answer);
    let mut steps = Vec::new();
    let mut progress = CallProgress::Begin;
    loop {
        let (name, next) = match step(PortalMethod::BindShortcuts, progress) {
            CallStep::Open(_) => ("open", CallProgress::Opened(tried("open"))),
            CallStep::Subscribe => ("subscribe", CallProgress::Subscribed(tried("subscribe"))),
            CallStep::Call => ("call", CallProgress::Called(tried("call"))),
            CallStep::Await => match answer.take().unwrap() {
                Some(answer) => ("await", CallProgress::Answered(answer)),
                None => ("await", CallProgress::Ended),
            },
            CallStep::Done(result) => return (steps, result),
        };
        steps.push(name);
        progress = next;
    }
}

#[test]
fn calls_run_in_order() {
    let all = ["open", "subscribe", "call", "await"];
    let results = vec![("a".to_string(), Some("b".to_string()))];
    let (steps, result) = whole_call(None, Some(Ok((0, results.clone()))));
    assert_eq!(steps, all);
    assert_eq!(result, Ok(results.clone()));
    let reasons =
        ["request proxy: broken", "subscribe Response: broken", "BindShortcuts call: broken"];
    for (at, reason) in reasons.iter().enumerate() {
        let (steps, result) = whole_call(Some(all[at]), Some(Ok((0, results.clone()))));
        assert_eq!(steps, all[..=at]);
        assert_eq!(result, Err(reason.to_string()));
    }
    for answer in [None, Some(Err("broken".to_string())), Some(Ok((1, vec![])))] {
        let (steps, result) = whole_call(None, answer);
        assert_eq!(steps, all);
        assert!(result.is_err());
    }
}

#[test]
fn responses_succeed_with_code_zero() {
    let results = vec![("a".to_string(), Some("b".to_string())), ("c".to_string(), None)];
    let answer = CallProgress::Answered(Ok((0, results.clone())));
    assert_eq!(done(PortalMethod::CreateSession, answer), Ok(results));
}

#[test]
fn failed_calls_say_why() {
    let message = |method, progress| done(method, progress).unwrap_err();
    let detail = || "broken".to_string();
    let create = PortalMethod::CreateSession;
    let bind = PortalMethod::BindShortcuts;
    assert_eq!(message(create, CallProgress::Opened(Err(detail()))), "request proxy: broken");
    assert_eq!(
        message(bind, CallProgress::Subscribed(Err(detail()))),
        "subscribe Response: broken"
    );
    assert_eq!(message(create, CallProgress::Called(Err(detail()))), "CreateSession call: broken");
    assert_eq!(message(bind, CallProgress::Ended), "BindShortcuts: response stream ended");
    assert_eq!(
        message(bind, CallProgress::Answered(Err(detail()))),
        "BindShortcuts response decode: broken"
    );
    assert_eq!(
        message(bind, CallProgress::Answered(Ok((1, vec![])))),
        "BindShortcuts cancelled by user"
    );
    assert_eq!(
        message(create, CallProgress::Answered(Ok((2, vec![])))),
        "CreateSession failed (response code 2)"
    );
    assert_eq!(
        message(create, CallProgress::Answered(Ok((u32::MAX, vec![])))),
        "CreateSession failed (response code 4294967295)"
    );
}

fn pair(name: &str, value: &str) -> (String, String) {
    (name.to_string(), value.to_string())
}

fn created(results: Vec<(String, Option<String>)>) -> BindStep {
    create_and_bind(&vec![162, 65], xdg_trigger, BindProgress::Created(Ok(results)))
}

fn xdg_trigger(chord: &Vec<u32>) -> Option<String> {
    match chord[..] {
        [162, 65] => Some("CTRL+a".to_string()),
        [66] => Some("b".to_string()),
        _ => None,
    }
}

fn failed(step: BindStep) -> String {
    match step {
        BindStep::Failed(reason) => reason,
        _ => panic!("did not fail"),
    }
}

#[test]
fn binding_creates_a_session_first() {
    match create_and_bind(&vec![162, 65], xdg_trigger, BindProgress::Begin) {
        BindStep::Call(request) => {
            assert_eq!(request.method().name(), "CreateSession");
            match request {
                PortalRequest::CreateSession { handle_token, options } => {
                    assert_eq!(handle_token, "wf_create");
                    assert_eq!(
                        options,
                        [pair("handle_token", "wf_create"), pair("session_handle_token", "wf_session")]
                    );
                }
                _ => panic!("another call"),
            }
        }
        _ => panic!("no call"),
    }
}

#[test]
fn binding_uses_the_created_session() {
    let results = vec![
        ("other".to_string(), None),
        ("session_handle".to_string(), Some("/org/s/1_2".to_string())),
    ];
    match created(results) {
        BindStep::Call(request) => {
            assert_eq!(request.method().name(), "BindShortcuts");
            match request {
                PortalRequest::BindShortcuts {
                    handle_token,
                    session,
                    shortcuts,
                    parent_window,
                    options,
                } => {
                    assert_eq!(handle_token, "wf_bind");
                    assert_eq!(session, "/org/s/1_2");
                    assert_eq!(
                        shortcuts,
                        [(
                            "ptt".to_string(),
                            vec![
                                pair("description", "Wispr Flow push-to-talk"),
                                pair("preferred_trigger", "CTRL+a"),
                            ]
                        )]
                    );
                    assert_eq!(parent_window, "");
                    assert_eq!(options, [pair("handle_token", "wf_bind")]);
                }
                _ => panic!("another call"),
            }
        }
        _ => panic!("no call"),
    }
    let bound = BindProgress::Bound { session: "/org/s/1_2".to_string(), reply: Ok(vec![]) };
    let step = create_and_bind(&vec![162, 65], xdg_trigger, bound);
    assert!(matches!(step, BindStep::Done(session) if session == "/org/s/1_2"));
}

#[test]
fn binding_fails_with_its_reason() {
    let fails = |progress| failed(create_and_bind(&vec![66], xdg_trigger, progress));
    assert_eq!(
        fails(BindProgress::Created(Err("no such interface".to_string()))),
        "CreateSession (no such interface) — GlobalShortcuts portal may be unavailable"
    );
    assert_eq!(
        fails(BindProgress::Bound {
            session: "/s".to_string(),
            reply: Err("denied".to_string()),
        }),
        "BindShortcuts: denied"
    );
    let missing = "CreateSession: no session_handle in results";
    assert_eq!(failed(created(vec![])), missing);
    assert_eq!(failed(created(vec![("session_handle".to_string(), None)])), missing);
}

fn sent_trigger(step: BindStep) -> String {
    match step {
        BindStep::Call(PortalRequest::BindShortcuts { shortcuts, .. }) => {
            shortcuts[0].1[1].1.clone()
        }
        _ => panic!("no shortcut was bound"),
    }
}

#[test]
fn chord_is_bound_to_its_trigger() {
    let created = || {
        let handle = ("session_handle".to_string(), Some("/s/1".to_string()));
        BindProgress::Created(Ok(vec![handle]))
    };
    for (chord, trigger) in [(vec![162, 65], "CTRL+a"), (vec![66], "b")] {
        assert_eq!(sent_trigger(create_and_bind(&chord, xdg_trigger, created())), trigger);
        assert_eq!(sent_trigger(bind_trigger(Some(trigger), created())), trigger);
    }
    let none = "internal: chord not bindable (should have been caught earlier)";
    for progress in [BindProgress::Begin, created()] {
        assert_eq!(failed(create_and_bind(&vec![162], xdg_trigger, progress)), none);
    }
    for progress in [BindProgress::Begin, created()] {
        assert_eq!(failed(bind_trigger(None, progress)), none);
    }
}

/// Binds a chord to the end: the methods that are called, and the session or the reason.
fn whole_bind(
    chord: Vec<u32>,
    created: Result<PortalResults, String>,
    bound: Result<PortalResults, String>,
) -> (Vec<&'static str>, Result<String, String>) {
    let mut calls = Vec::new();
    let mut progress = BindProgress::Begin;
    loop {
        match create_and_bind(&chord, xdg_trigger, progress) {
            BindStep::Call(request) => {
                let method = request.method();
                calls.push(method.name());
                let reply = match method {
                    PortalMethod::CreateSession => created.clone(),
                    PortalMethod::BindShortcuts => bound.clone(),
                };
                progress = request.answered(reply);
            }
            BindStep::Done(session) => return (calls, Ok(session)),
            BindStep::Failed(reason) => return (calls, Err(reason)),
        }
    }
}

#[test]
fn bound_session_is_the_created_one() {
    let handle = |path: &str| Ok(vec![("session_handle".to_string(), Some(path.to_string()))]);
    let denied = || Err("denied".to_string());
    let (calls, end) = whole_bind(vec![66], handle("/s/7"), Ok(vec![]));
    assert_eq!(calls, ["CreateSession", "BindShortcuts"]);
    assert_eq!(end.as_deref(), Ok("/s/7"));
    let (calls, end) = whole_bind(vec![66], handle("/s/7"), denied());
    assert_eq!(calls, ["CreateSession", "BindShortcuts"]);
    assert_eq!(end.unwrap_err(), "BindShortcuts: denied");
    for created in [denied(), handle("s/7"), Ok(vec![])] {
        let (calls, end) = whole_bind(vec![66], created, Ok(vec![]));
        assert_eq!(calls, ["CreateSession"]);
        assert!(end.is_err());
    }
    let (calls, end) = whole_bind(vec![162], handle("/s/7"), Ok(vec![]));
    assert!(calls.is_empty());
    assert!(end.is_err());
}

#[test]
fn session_handles_are_object_paths() {
    let accepts = |handle: &str| {
        match created(vec![("session_handle".to_string(), Some(handle.to_string()))]) {
            BindStep::Call(_) => true,
            BindStep::Failed(reason) => {
                assert_eq!(reason, "session_handle not an object path: Invalid object path");
                false
            }
            BindStep::Done(_) => panic!("too early"),
        }
    };
    for handle in ["/", "/a", "/a/b_1/C", "/0"] {
        assert!(accepts(handle), "{handle}");
    }
    for handle in ["", "a", "/a/", "//", "/a//b", "/a.b", "/é", "/a-b", " /a"] {
        assert!(!accepts(handle), "{handle}");
    }
}

#[test]
fn chords_without_a_trigger_cannot_be_bound() {
    assert_eq!(bindable_chord(Some(vec![162, 65]), Some("CTRL+a")), Ok(vec![162, 65]));
    assert_eq!(
        bindable_chord(Some(vec![162, 91]), None),
        Err("push-to-talk chord [162, 91] can't be a portal trigger (modifier-only \
             chords are rejected by KDE). Set a chord that includes a regular key, \
             or use WISPR_CAPTURE=evdev."
            .to_string())
    );
    let no_shortcut =
        "no push-to-talk shortcut found in the app config; set one in Wispr Flow first".to_string();
    assert_eq!(bindable_chord(None, Some("x")), Err(no_shortcut.clone()));
    assert_eq!(bindable_chord(None, None), Err(no_shortcut));
}

fn to_trigger(chord: &Vec<u32>) -> Option<String> {
    if chord.iter().all(|vk| *vk >= 91) {
        None
    } else {
        Some(format!("{chord:?}"))
    }
}

fn settings(chord: &str) -> String {
    format!(r#"{{"prefs": {{"user": {{"shortcuts": {{"{chord}": "ptt"}}}}}}}}"#)
}

#[test]
fn settings_resolve_to_a_chord() {
    assert_eq!(resolve_chord(Some(&settings("-1+162+65")), to_trigger), Ok(vec![162, 65]));
    let error = resolve_chord(Some(&settings("162")), to_trigger).unwrap_err();
    assert!(error.starts_with("push-to-talk chord [162] can't be"), "{error}");
    let error = resolve_chord(None, to_trigger).unwrap_err();
    assert!(error.starts_with("no push-to-talk shortcut found"), "{error}");
    let error = resolve_chord(Some("{}"), to_trigger).unwrap_err();
    assert!(error.starts_with("no push-to-talk shortcut found"), "{error}");
}

#[test]
fn start_needs_a_config_dir() {
    let path = b"/x/Wispr Flow/config.json".to_vec();
    assert_eq!(start(Some(&path), Some(&settings("65")), to_trigger), Ok(vec![65]));
    assert_eq!(
        start(None, Some(&settings("65")), to_trigger),
        Err("no config dir (HOME/XDG_CONFIG_HOME unset)".to_string())
    );
    assert!(start(Some(&path), None, to_trigger).is_err());
}

#[test]
fn only_a_new_bindable_chord_is_rebound() {
    let current = vec![162, 65];
    assert!(matches!(rebind_on_change(&current, Ok(vec![162, 65])), Rebind::Keep));
    assert!(matches!(
        rebind_on_change(&current, Ok(vec![65, 162])),
        Rebind::Bind(chord) if chord == [65, 162]
    ));
    assert!(matches!(
        rebind_on_change(&current, Ok(vec![162])),
        Rebind::Bind(chord) if chord == [162]
    ));
    assert!(matches!(
        rebind_on_change(&current, Err("why".to_string())),
        Rebind::Skip(reason) if reason == "why"
    ));
}
