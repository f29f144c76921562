use key_capture::held::{Held, HeldKeys, NoHeldKeys, PortalHeld};
use key_capture::json::Json;
use key_capture::keypress::{emit_keypress, set_chord};

fn at<'a>(frame: &'a Json, path: &[&str]) -> &'a Json {
    let mut here = frame;
    for name in path {
        here = here.get(name).unwrap();
    }
    here
}

fn number(json: &Json) -> u64 {
    match json {
        Json::Number(text) => text.parse().unwrap(),
        _ => panic!("not a number"),
    }
}

#[test]
fn emit_keypress_builds_keypress_event_frame() {
    let mut index = 0u64;

    let press = emit_keypress(&mut index, 4242, 65, true);
    let release = emit_keypress(&mut index, 4242, 65, false);

    let kp = at(&press, &["HelperAPIRequest", "KeypressEvent", "payload"]);
    assert_eq!(at(kp, &["eventType"]).as_str(), Some("key_event_press"));
    assert_eq!(number(at(kp, &["key"])), 65);
    assert_eq!(number(at(kp, &["index"])), 1); // counter starts at 1, not 0
    assert_eq!(at(kp, &["inputType"]).as_str(), Some("keyboard"));
    assert_eq!(at(&press, &["HelperAPIRequest", "uuid"]).as_str(), Some("kp-4242-1"));

    let kp = at(&release, &["HelperAPIRequest", "KeypressEvent", "payload"]);
    assert_eq!(at(kp, &["eventType"]).as_str(), Some("key_event_release"));
    assert_eq!(number(at(kp, &["index"])), 2); // shared monotonic counter advances
    assert_eq!(at(&release, &["HelperAPIRequest", "uuid"]).as_str(), Some("kp-4242-2"));
}

#[test]
fn calls_count_up() {
    let calls = [(65u32, true), (65, true), (162, false), (65, false), (0, true)];
    let mut index = 40u64;
    let mut uuids = std::collections::HashSet::new();
    for (nth, (vk, press)) in calls.iter().enumerate() {
        let frame = emit_keypress(&mut index, 7, *vk, *press);
        let payload = at(&frame, &["HelperAPIRequest", "KeypressEvent", "payload"]);
        assert_eq!(number(at(payload, &["index"])), 41 + nth as u64);
        assert_eq!(number(at(payload, &["key"])), u64::from(*vk));
        let event = if *press { "key_event_press" } else { "key_event_release" };
        assert_eq!(at(payload, &["eventType"]).as_str(), Some(event));
        let uuid = at(&frame, &["HelperAPIRequest", "uuid"]).as_str().unwrap().to_string();
        assert_eq!(uuid, format!("kp-7-{}", 41 + nth));
        assert!(uuids.insert(uuid));
    }
    assert_eq!(index, 45);
}

#[test]
fn frames_hold_nothing_else() {
    let mut index = 41u64;
    let frame = emit_keypress(&mut index, 7, 162, true);
    assert_eq!(index, 42);
    let names = |json: &Json| match json {
        Json::Object(members) => members.iter().map(|m| m.0.clone()).collect::<Vec<_>>(),
        _ => panic!("not an object"),
    };
    assert_eq!(names(&frame), ["HelperAPIRequest"]);
    assert_eq!(names(at(&frame, &["HelperAPIRequest"])), ["KeypressEvent", "uuid"]);
    assert_eq!(names(at(&frame, &["HelperAPIRequest", "KeypressEvent"])), ["payload"]);
    assert_eq!(
        names(at(&frame, &["HelperAPIRequest", "KeypressEvent", "payload"])),
        ["eventType", "index", "inputType", "key"]
    );
}

fn keys_of(frames: &[Json]) -> Vec<(String, u64, u64)> {
    frames
        .iter()
        .map(|frame| {
            let kp = at(frame, &["HelperAPIRequest", "KeypressEvent", "payload"]);
            let event = at(kp, &["eventType"]).as_str().unwrap().to_string();
            (event, number(at(kp, &["key"])), number(at(kp, &["index"])))
        })
        .collect()
}

#[test]
fn chord_goes_down_in_order_and_up_in_reverse() {
    let mut index = 0u64;
    let mut held = PortalHeld::new();
    let chord = vec![162, 91, 65];

    let down = set_chord(&mut index, 1, &mut held, &chord, true);
    let press = "key_event_press".to_string();
    assert_eq!(
        keys_of(&down),
        vec![(press.clone(), 162, 1), (press.clone(), 91, 2), (press, 65, 3)]
    );
    assert_eq!(held.held_vks(), chord.iter().copied().collect());

    let up = set_chord(&mut index, 1, &mut held, &chord, false);
    let release = "key_event_release".to_string();
    assert_eq!(
        keys_of(&up),
        vec![(release.clone(), 65, 4), (release.clone(), 91, 5), (release, 162, 6)]
    );
    assert!(held.held_vks().is_empty());
    assert_eq!(index, 6);
}

#[test]
fn release_keeps_other_held_keys() {
    let mut index = 0u64;
    let mut held = PortalHeld::new();
    held.set(17, true);
    set_chord(&mut index, 1, &mut held, &vec![65], true);
    set_chord(&mut index, 1, &mut held, &vec![65], false);
    assert_eq!(held.held_vks(), [17].into_iter().collect());
}

#[test]
fn identifiers_are_distinct() {
    let uuid = |pid: u32, count: u64| {
        let mut index = count;
        let frame = emit_keypress(&mut index, pid, 65, true);
        at(&frame, &["HelperAPIRequest", "uuid"]).as_str().unwrap().to_string()
    };
    assert_eq!(uuid(1, 11), "kp-1-12");
    assert_ne!(uuid(1, 11), uuid(11, 1));
    assert_ne!(uuid(1, 11), uuid(1, 12));
}

#[test]
fn no_backend_holds_no_keys() {
    assert!(NoHeldKeys.held_vks().is_empty());
    let mut keys = PortalHeld::new();
    keys.set(65, true);
    keys.set(66, true);
    keys.set(65, false);
    let backend = Held::Backend(keys);
    assert!(backend.is_backend());
    assert_eq!(backend.held_vks(), [66].into_iter().collect());
    let off: Held<PortalHeld> = Held::Off(NoHeldKeys);
    assert!(!off.is_backend());
    assert!(off.held_vks().is_empty());
    let boxed: Box<dyn HeldKeys> = Box::new(backend);
    assert_eq!(boxed.held_vks(), [66].into_iter().collect());
}
