use key_capture::held::HeldKeys;
use key_capture::json::Json;
use key_capture::portal::Signal;
use key_capture::portal_loop::{
    portal_setup, PortalAction, PortalEvent, PortalState, SetupStage, SetupStep,
};

fn signal(session: &str, id: &str) -> Option<Signal> {
    Some(Signal { session: session.to_string(), shortcut_id: id.to_string() })
}

fn fresh() -> PortalState {
    PortalState::new(9, vec![162, 65], "/s/1".to_string(), Some(100))
}

/// The event, the key and the index of each frame.
fn decoded(frames: &[Json]) -> Vec<(bool, u64, u64)> {
    let number = |json: &Json| match json {
        Json::Number(text) => text.parse::<u64>().unwrap(),
        _ => panic!("not a number"),
    };
    frames
        .iter()
        .map(|frame| {
            let payload = frame
                .get("HelperAPIRequest")
                .and_then(|request| request.get("KeypressEvent"))
                .and_then(|event| event.get("payload"))
                .unwrap();
            let press = match payload.get("eventType").unwrap() {
                Json::Text(event) => event.as_str() == "key_event_press",
                _ => panic!("not an event"),
            };
            (press, number(payload.get("key").unwrap()), number(payload.get("index").unwrap()))
        })
        .collect()
}

fn frames(action: PortalAction) -> Vec<(bool, u64, u64)> {
    match action {
        PortalAction::Emit(frames) => decoded(&frames),
        _ => Vec::new(),
    }
}

fn emitted(action: PortalAction) -> Vec<(u64, u64)> {
    assert!(matches!(action, PortalAction::Emit(_)));
    frames(action).into_iter().map(|(_, key, index)| (key, index)).collect()
}

#[test]
fn deactivation_undoes_activation() {
    let mut state = fresh();
    let down = state.run_portal(PortalEvent::Activated(signal("/s/1", "ptt")));
    assert_eq!(emitted(down), [(162, 1), (65, 2)]);
    assert_eq!(state.held.held_vks(), [162, 65].into_iter().collect());
    let up = state.run_portal(PortalEvent::Deactivated(signal("/s/1", "ptt")));
    assert_eq!(emitted(up), [(65, 3), (162, 4)]);
    assert!(state.held.held_vks().is_empty());
}

#[test]
fn foreign_signals_are_ignored() {
    let mut state = fresh();
    for other in [signal("/s/2", "ptt"), signal("/s/1", "x"), None] {
        let action = state.run_portal(PortalEvent::Activated(other));
        assert!(matches!(action, PortalAction::Nothing));
    }
    let action = state.run_portal(PortalEvent::Deactivated(None));
    assert!(matches!(action, PortalAction::Nothing));
    assert_eq!(state.index, 0);
    assert!(state.held.held_vks().is_empty());
}

#[test]
fn settings_are_read_once_per_change() {
    let mut state = fresh();
    let mut tick = |mtime| state.run_portal(PortalEvent::Tick(mtime));
    assert!(matches!(tick(Some(100)), PortalAction::Nothing));
    assert!(matches!(tick(Some(90)), PortalAction::ReadConfig));
    assert!(matches!(tick(Some(90)), PortalAction::Nothing));
    assert!(matches!(tick(None), PortalAction::ReadConfig));
    assert!(matches!(tick(None), PortalAction::Nothing));
}

#[test]
fn new_chord_is_bound() {
    let mut state = fresh();
    match state.run_portal(PortalEvent::Resolved(Ok(vec![163, 66]))) {
        PortalAction::Rebind { close, chord } => {
            assert_eq!(close.as_deref(), Some("/s/1"));
            assert_eq!(chord, [163, 66]);
        }
        _ => panic!("no rebind"),
    }
    assert_eq!(state.chord, [162, 65]);
    assert_eq!(state.session, None);
    let action = state.run_portal(PortalEvent::Rebound(Ok("/s/2".to_string())));
    assert!(matches!(action, PortalAction::Nothing));
    assert_eq!(state.chord, [163, 66]);
    assert_eq!(state.session.as_deref(), Some("/s/2"));
    let down = state.run_portal(PortalEvent::Activated(signal("/s/2", "ptt")));
    assert_eq!(emitted(down), [(163, 1), (66, 2)]);
    let old = state.run_portal(PortalEvent::Activated(signal("/s/1", "ptt")));
    assert!(matches!(old, PortalAction::Nothing));
}

#[test]
fn rebind_drops_the_old_chord() {
    let mut state = fresh();
    state.run_portal(PortalEvent::Activated(signal("/s/1", "ptt")));
    let rebind = state.run_portal(PortalEvent::Resolved(Ok(vec![162, 66])));
    assert!(matches!(rebind, PortalAction::Rebind { .. }));
    assert_eq!(state.index, 2);
    assert!(state.held.held_vks().is_empty());
    state.run_portal(PortalEvent::Rebound(Ok("/s/2".to_string())));
    assert!(state.held.held_vks().is_empty());
    state.run_portal(PortalEvent::Activated(signal("/s/2", "ptt")));
    assert_eq!(state.held.held_vks(), [162, 66].into_iter().collect());
    state.run_portal(PortalEvent::Deactivated(signal("/s/2", "ptt")));
    assert!(state.held.held_vks().is_empty());
}

#[test]
fn rebind_drops_only_keys_of_the_chord() {
    let mut state = fresh();
    state.held.set(65, true);
    state.held.set(99, true);
    state.run_portal(PortalEvent::Resolved(Ok(vec![66])));
    assert_eq!(state.held.held_vks(), [99].into_iter().collect());
    assert_eq!(state.index, 0);
}

#[test]
fn failed_rebind_binds_the_old_chord() {
    let mut state = fresh();
    state.run_portal(PortalEvent::Activated(signal("/s/1", "ptt")));
    state.run_portal(PortalEvent::Resolved(Ok(vec![66])));
    match state.run_portal(PortalEvent::Rebound(Err("denied".to_string()))) {
        PortalAction::Restore { reason, chord } => {
            assert_eq!(reason, "denied");
            assert_eq!(chord, [162, 65]);
        }
        _ => panic!("not restored"),
    }
    assert_eq!(state.session, None);
    let action = state.run_portal(PortalEvent::Rebound(Ok("/s/3".to_string())));
    assert!(matches!(action, PortalAction::Nothing));
    assert_eq!(state.chord, [162, 65]);
    assert_eq!(state.session.as_deref(), Some("/s/3"));
    assert!(state.pending.is_none());
    assert!(state.held.held_vks().is_empty());
    let closed = state.run_portal(PortalEvent::Activated(signal("/s/1", "ptt")));
    assert!(matches!(closed, PortalAction::Nothing));
    let down = state.run_portal(PortalEvent::Activated(signal("/s/3", "ptt")));
    assert_eq!(emitted(down), [(162, 3), (65, 4)]);
}

#[test]
fn lost_binding_awaits_a_new_chord() {
    let mut state = fresh();
    state.run_portal(PortalEvent::Resolved(Ok(vec![66])));
    state.run_portal(PortalEvent::Rebound(Err("denied".to_string())));
    match state.run_portal(PortalEvent::Rebound(Err("gone".to_string()))) {
        PortalAction::BindingLost(reason) => assert_eq!(reason, "gone"),
        _ => panic!("not lost"),
    }
    assert_eq!(state.session, None);
    assert!(state.pending.is_none());
    let action = state.run_portal(PortalEvent::Activated(signal("/s/1", "ptt")));
    assert!(matches!(action, PortalAction::Nothing));
    match state.run_portal(PortalEvent::Resolved(Ok(vec![66]))) {
        PortalAction::Rebind { close, chord } => {
            assert_eq!(close, None);
            assert_eq!(chord, [66]);
        }
        _ => panic!("no rebind"),
    }
}

#[test]
fn changes_wait_while_a_chord_is_being_bound() {
    let mut state = fresh();
    state.run_portal(PortalEvent::Resolved(Ok(vec![66])));
    let action = state.run_portal(PortalEvent::Tick(Some(200)));
    assert!(matches!(action, PortalAction::Nothing));
    let action = state.run_portal(PortalEvent::Resolved(Ok(vec![67])));
    assert!(matches!(action, PortalAction::Nothing));
    state.run_portal(PortalEvent::Rebound(Ok("/s/2".to_string())));
    assert_eq!(state.chord, [66]);
    let action = state.run_portal(PortalEvent::Tick(Some(200)));
    assert!(matches!(action, PortalAction::ReadConfig));
}

#[test]
fn signals_become_the_chord() {
    let mut state = fresh();
    let events = [
        (true, signal("/s/1", "ptt")),
        (true, signal("/s/2", "ptt")),
        (true, signal("/s/1", "ptt")),
        (false, None),
        (false, signal("/s/1", "ptt")),
        (false, signal("/s/1", "x")),
        (true, signal("/s/1", "ptt")),
    ];
    let mut sent = Vec::new();
    for (press, signal) in events {
        let event = if press {
            PortalEvent::Activated(signal)
        } else {
            PortalEvent::Deactivated(signal)
        };
        sent.extend(frames(state.run_portal(event)));
    }
    assert_eq!(
        sent,
        [
            (true, 162, 1),
            (true, 65, 2),
            (true, 162, 3),
            (true, 65, 4),
            (false, 65, 5),
            (false, 162, 6),
            (true, 162, 7),
            (true, 65, 8),
        ]
    );
    assert_eq!(state.held.held_vks(), [162, 65].into_iter().collect());
    state.run_portal(PortalEvent::Deactivated(signal("/s/1", "ptt")));
    assert!(state.held.held_vks().is_empty());
}

#[test]
fn held_keys_are_those_the_app_sees() {
    let mut state = fresh();
    let mut down = std::collections::HashSet::new();
    let mut take = |state: &mut PortalState, event| {
        for (press, key, _) in frames(state.run_portal(event)) {
            if press {
                down.insert(key as u32);
            } else {
                down.remove(&(key as u32));
            }
        }
        let held = state.held.held_vks();
        assert!(held.is_subset(&down));
        assert!(held.iter().all(|vk| state.chord.contains(vk)));
        held == down
    };
    for event in [
        PortalEvent::Activated(signal("/s/1", "ptt")),
        PortalEvent::Deactivated(signal("/s/1", "ptt")),
        PortalEvent::Resolved(Err("no chord".to_string())),
        PortalEvent::Activated(signal("/s/1", "ptt")),
    ] {
        assert!(take(&mut state, event));
    }
    // The keys of the session that is given up are stale to the app.
    for event in [
        PortalEvent::Resolved(Ok(vec![162, 66])),
        PortalEvent::Rebound(Err("denied".to_string())),
        PortalEvent::Rebound(Ok("/s/2".to_string())),
    ] {
        assert!(!take(&mut state, event));
        assert!(state.held.held_vks().is_empty());
    }
    assert!(take(&mut state, PortalEvent::Activated(signal("/s/2", "ptt"))));
}

#[test]
fn unchanged_or_unbindable_chords_keep_the_binding() {
    let mut state = fresh();
    let action = state.run_portal(PortalEvent::Resolved(Ok(vec![162, 65])));
    assert!(matches!(action, PortalAction::Nothing));
    match state.run_portal(PortalEvent::Resolved(Err("no chord".to_string()))) {
        PortalAction::SkipRebind(reason) => assert_eq!(reason, "no chord"),
        _ => panic!("not skipped"),
    }
    // Nothing is being bound.
    let action = state.run_portal(PortalEvent::Rebound(Ok("/s/9".to_string())));
    assert!(matches!(action, PortalAction::Nothing));
    assert_eq!(state.session.as_deref(), Some("/s/1"));
}

#[test]
fn indices_have_no_gap_across_rebinds() {
    let mut state = fresh();
    let mut indices = Vec::new();
    let mut send = |state: &mut PortalState, event| {
        indices.extend(frames(state.run_portal(event)).into_iter().map(|frame| frame.2));
    };
    send(&mut state, PortalEvent::Activated(signal("/s/1", "ptt")));
    send(&mut state, PortalEvent::Activated(signal("/other", "ptt")));
    send(&mut state, PortalEvent::Resolved(Ok(vec![70, 71, 72])));
    send(&mut state, PortalEvent::Rebound(Ok("/s/2".to_string())));
    send(&mut state, PortalEvent::Activated(signal("/s/2", "ptt")));
    send(&mut state, PortalEvent::Deactivated(signal("/s/2", "ptt")));
    assert_eq!(indices, [1, 2, 3, 4, 5, 6, 7, 8]);
}

#[test]
fn room_for_frames_runs_out() {
    let mut state = fresh();
    let own = || PortalEvent::Activated(signal("/s/1", "ptt"));
    assert!(state.has_room_for(&own()));
    state.index = u64::MAX - 2;
    assert!(state.has_room_for(&own()));
    state.index = u64::MAX - 1;
    assert!(!state.has_room_for(&own()));
    assert!(!state.has_room_for(&PortalEvent::Deactivated(signal("/s/1", "ptt"))));
    // Other events make no frame.
    for event in [
        PortalEvent::Activated(signal("/s/2", "ptt")),
        PortalEvent::Deactivated(None),
        PortalEvent::Tick(Some(7)),
        PortalEvent::Resolved(Ok(vec![66])),
        PortalEvent::Rebound(Ok("/s/2".to_string())),
    ] {
        assert!(state.has_room_for(&event));
        state.run_portal(event);
    }
}

fn set_up(broken: Option<SetupStage>) -> (Vec<SetupStage>, SetupStep) {
    let mut done = Vec::new();
    let mut last = None;
    loop {
        match portal_setup(last) {
            SetupStep::Do(stage) => {
                done.push(stage);
                last = Some((stage, broken != Some(stage)));
            }
            end => return (done, end),
        }
    }
}

#[test]
fn setup_runs_where_every_stage_works() {
    let (stages, end) = set_up(None);
    assert_eq!(
        stages,
        [
            SetupStage::Connect,
            SetupStage::UniqueName,
            SetupStage::Proxy,
            SetupStage::StatConfig,
            SetupStage::SubscribeActivated,
            SetupStage::SubscribeDeactivated,
            SetupStage::Bind,
        ]
    );
    assert_eq!(end, SetupStep::Run);
    for (at, stage) in stages.iter().enumerate() {
        let (tried, end) = set_up(Some(*stage));
        assert_eq!(tried, stages[..=at]);
        assert_eq!(end, SetupStep::Off);
    }
}
