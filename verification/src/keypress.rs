//! The `KeypressEvent` frames that tell the app of keys going down and up.

use vstd::prelude::*;

use crate::held::PortalHeld;
use crate::json::{Json, JsonModel};
use crate::number;
use crate::number::push_decimal;

verus! {

/// The identifier of the frame with this index, in the process `pid`.
pub open spec fn keypress_uuid(pid: u32, index: nat) -> Seq<char> {
    "kp-"@ + number::decimal(pid as nat) + "-"@ + number::decimal(index)
}

/// The name of the event of a key that goes down or up.
pub open spec fn event_type(press: bool) -> Seq<char> {
    if press {
        "key_event_press"@
    } else {
        "key_event_release"@
    }
}

/// The payload of a frame: which key, whether it went down or up, and the frame's index.
pub open spec fn keypress_payload(index: nat, vk: u32, press: bool) -> JsonModel {
    JsonModel::Object(
        seq![
            ("eventType"@, JsonModel::Text(event_type(press))),
            ("index"@, JsonModel::Number(number::decimal(index))),
            ("inputType"@, JsonModel::Text("keyboard"@)),
            ("key"@, JsonModel::Number(number::decimal(vk as nat))),
        ],
    )
}

/// The frame of one key that goes down or up.
pub open spec fn keypress_frame(pid: u32, index: nat, vk: u32, press: bool) -> JsonModel {
    JsonModel::Object(
        seq![
            (
                "HelperAPIRequest"@,
                JsonModel::Object(
                    seq![
                        (
                            "KeypressEvent"@,
                            JsonModel::Object(
                                seq![("payload"@, keypress_payload(index, vk, press))],
                            ),
                        ),
                        ("uuid"@, JsonModel::Text(keypress_uuid(pid, index))),
                    ],
                ),
            ),
        ],
    )
}

/// `n` in base ten.
fn decimal_text(n: u64) -> (r: String)
    ensures
        r@ == number::decimal(n as nat),
{
    let mut out: String = String::new();
    push_decimal(&mut out, n);
    assert(out@ =~= number::decimal(n as nat));
    out
}

/// The object with this one member.
fn single_member(name: &str, value: Json) -> (r: Json)
    ensures
        r@ == JsonModel::Object(seq![(name@, value@)]),
{
    let mut members: Vec<(String, Json)> = Vec::new();
    members.push((name.to_owned(), value));
    let r = Json::Object(members);
    assert(r@->Object_0 =~= seq![(name@, value@)]);
    r
}

/// The payload of a frame.
fn payload(index: u64, vk: u32, press: bool) -> (r: Json)
    ensures
        r@ == keypress_payload(index as nat, vk, press),
{
    let event: &str = if press {
        "key_event_press"
    } else {
        "key_event_release"
    };
    let mut members: Vec<(String, Json)> = Vec::new();
    members.push(("eventType".to_owned(), Json::Text(event.to_owned())));
    members.push(("index".to_owned(), Json::Number(decimal_text(index))));
    members.push(("inputType".to_owned(), Json::Text("keyboard".to_owned())));
    members.push(("key".to_owned(), Json::Number(decimal_text(vk as u64))));
    let r = Json::Object(members);
    reveal_with_fuel(Json::model, 2);
    assert(r@->Object_0 =~= keypress_payload(index as nat, vk, press)->Object_0);
    r
}

/// Makes the frame of one key that goes down or up. `index` is the process-wide count of frames,
/// which the app checks for gaps; the first frame has index 1.
pub fn emit_keypress(index: &mut u64, pid: u32, vk: u32, press: bool) -> (r: Json)
    requires
        *old(index) < u64::MAX,
    ensures
        *final(index) == *old(index) + 1,
        r@ == keypress_frame(pid, *final(index) as nat, vk, press),
        r@ == JsonModel::Object(
            seq![
                (
                    "HelperAPIRequest"@,
                    JsonModel::Object(
                        seq![
                            (
                                "KeypressEvent"@,
                                JsonModel::Object(
                                    seq![
                                        (
                                            "payload"@,
                                            JsonModel::Object(
                                                seq![
                                                    (
                                                        "eventType"@,
                                                        JsonModel::Text(
                                                            if press {
                                                                "key_event_press"@
                                                            } else {
                                                                "key_event_release"@
                                                            },
                                                        ),
                                                    ),
                                                    (
                                                        "index"@,
                                                        JsonModel::Number(
                                                            number::decimal(
                                                                (*old(index) + 1) as nat,
                                                            ),
                                                        ),
                                                    ),
                                                    ("inputType"@, JsonModel::Text("keyboard"@)),
                                                    (
                                                        "key"@,
                                                        JsonModel::Number(
                                                            number::decimal(vk as nat),
                                                        ),
                                                    ),
                                                ],
                                            ),
                                        ),
                                    ],
                                ),
                            ),
                            (
                                "uuid"@,
                                JsonModel::Text(
                                    "kp-"@ + number::decimal(pid as nat) + "-"@ + number::decimal(
                                        (*old(index) + 1) as nat,
                                    ),
                                ),
                            ),
                        ],
                    ),
                ),
            ],
        ),
{
    *index = *index + 1;
    let mut uuid: String = "kp-".to_owned();
    push_decimal(&mut uuid, pid as u64);
    uuid.push('-');
    push_decimal(&mut uuid, *index);
    proof {
        reveal_strlit("-");
        assert(uuid@ =~= keypress_uuid(pid, *index as nat));
    }
    let mut request: Vec<(String, Json)> = Vec::new();
    request.push(("KeypressEvent".to_owned(), single_member("payload", payload(*index, vk, press))));
    request.push(("uuid".to_owned(), Json::Text(uuid)));
    let body = Json::Object(request);
    reveal_with_fuel(Json::model, 2);
    assert(body@->Object_0 =~= keypress_frame(pid, *index as nat, vk, press)->Object_0[0].1->Object_0);
    single_member("HelperAPIRequest", body)
}

/// The keys of a chord in the order in which they go down, or up again.
pub open spec fn key_order(chord: Seq<u32>, press: bool) -> Seq<u32> {
    if press {
        chord
    } else {
        chord.reverse()
    }
}

/// The frames of a chord that goes down or up, after `count` earlier frames.
pub open spec fn chord_frames(
    pid: u32,
    count: nat,
    chord: Seq<u32>,
    press: bool,
) -> Seq<JsonModel> {
    Seq::new(
        chord.len(),
        |i: int| keypress_frame(pid, (count + 1 + i) as nat, key_order(chord, press)[i], press),
    )
}

/// The keys held after a chord went down or up.
pub open spec fn held_after(held: Set<u32>, chord: Seq<u32>, press: bool) -> Set<u32> {
    if press {
        held.union(chord.to_set())
    } else {
        held.difference(chord.to_set())
    }
}

/// What each of several documents says.
pub open spec fn models(frames: Seq<Json>) -> Seq<JsonModel> {
    Seq::new(frames.len(), |i: int| frames[i]@)
}

/// Presses or releases every key of a chord: one frame per key, presses in order and releases in
/// reverse, and the held keys to match.
pub fn set_chord(
    index: &mut u64,
    pid: u32,
    held: &mut PortalHeld,
    chord: &Vec<u32>,
    press: bool,
) -> (r: Vec<Json>)
    requires
        *old(index) + chord@.len() <= u64::MAX,
    ensures
        *final(index) == *old(index) + chord@.len(),
        models(r@) == chord_frames(pid, *old(index) as nat, chord@, press),
        final(held).held() == held_after(old(held).held(), chord@, press),
        r@.len() == chord@.len(),
        forall|i: int|
            0 <= i < chord@.len() ==> (#[trigger] r@[i])@ == keypress_frame(
                pid,
                (*old(index) + 1 + i) as nat,
                if press {
                    chord@[i]
                } else {
                    chord@[chord@.len() - 1 - i]
                },
                press,
            ),
        forall|vk: u32| #[trigger]
            final(held).keys@.contains(vk) <==> if press {
                old(held).keys@.contains(vk) || chord@.contains(vk)
            } else {
                old(held).keys@.contains(vk) && !chord@.contains(vk)
            },
{
    let ghost order = key_order(chord@, press);
    let ghost start = *index;
    let mut frames: Vec<Json> = Vec::new();
    let mut i: usize = 0;
    assert(held_after(held.held(), order.take(0), press) =~= held.held());
    while i < chord.len()
        invariant
            i <= chord.len(),
            order == key_order(chord@, press),
            start + chord@.len() <= u64::MAX,
            *index == start + i,
            frames@.len() == i,
            forall|j: int|
                0 <= j < i ==> (#[trigger] frames@[j])@ == keypress_frame(
                    pid,
                    (start + 1 + j) as nat,
                    order[j],
                    press,
                ),
            held.held() == held_after(old(held).held(), order.take(i as int), press),
        decreases chord.len() - i,
    {
        let vk: u32 = if press {
            chord[i]
        } else {
            chord[chord.len() - 1 - i]
        };
        assert(vk == order[i as int]);
        frames.push(emit_keypress(index, pid, vk, press));
        held.set(vk, press);
        proof {
            order.take(i as int).lemma_push_to_set_commute(vk);
            assert(order.take(i + 1) =~= order.take(i as int).push(vk));
            assert(held.held() =~= held_after(old(held).held(), order.take(i + 1), press));
        }
        i += 1;
    }
    proof {
        assert(order.take(i as int) =~= order);
        assert(order.to_set() =~= chord@.to_set()) by {
            assert forall|vk: u32| chord@.contains(vk) implies order.contains(vk) by {
                let k = choose|k: int| 0 <= k < chord@.len() && chord@[k] == vk;
                if !press {
                    assert(order[chord@.len() - 1 - k] == vk);
                }
            }
            assert forall|vk: u32| order.contains(vk) implies chord@.contains(vk) by {
                let k = choose|k: int| 0 <= k < order.len() && order[k] == vk;
                if !press {
                    assert(chord@[chord@.len() - 1 - k] == vk);
                }
            }
        }
        assert(models(frames@) =~= chord_frames(pid, start as nat, chord@, press));
    }
    frames
}

/// The payload that the app reads from a frame.
pub open spec fn frame_payload(frame: JsonModel) -> Option<JsonModel> {
    match frame.get("HelperAPIRequest"@) {
        Some(request) => match request.get("KeypressEvent"@) {
            Some(event) => event.get("payload"@),
            None => None,
        },
        None => None,
    }
}

/// The identifier that the app reads from a frame.
pub open spec fn frame_uuid(frame: JsonModel) -> Option<JsonModel> {
    match frame.get("HelperAPIRequest"@) {
        Some(request) => request.get("uuid"@),
        None => None,
    }
}

/// Every frame holds, where the app looks for it, the event, the key, the index, the kind of
/// input and the identifier.
pub proof fn law_frame_decodes(pid: u32, index: nat, vk: u32, press: bool)
    ensures
        frame_payload(keypress_frame(pid, index, vk, press)) == Some(
            keypress_payload(index, vk, press),
        ),
        keypress_payload(index, vk, press).get("eventType"@) == Some(
            JsonModel::Text(event_type(press)),
        ),
        keypress_payload(index, vk, press).get("key"@) == Some(
            JsonModel::Number(number::decimal(vk as nat)),
        ),
        keypress_payload(index, vk, press).get("index"@) == Some(
            JsonModel::Number(number::decimal(index)),
        ),
        keypress_payload(index, vk, press).get("inputType"@) == Some(JsonModel::Text("keyboard"@)),
        frame_uuid(keypress_frame(pid, index, vk, press)) == Some(
            JsonModel::Text(keypress_uuid(pid, index)),
        ),
{
    reveal_strlit("KeypressEvent");
    reveal_strlit("uuid");
    reveal_strlit("eventType");
    reveal_strlit("key");
    reveal_strlit("index");
    reveal_strlit("inputType");
    reveal_with_fuel(crate::json::member_value, 5);
    let members = keypress_payload(index, vk, press)->Object_0;
    assert(members.skip(1)[0] == members[1]);
    assert(members.skip(1).skip(1)[0] == members[2]);
    assert(members.skip(1).skip(1).skip(1)[0] == members[3]);
    assert("eventType"@.len() == 9 && "index"@.len() == 5 && "inputType"@.len() == 9
        && "key"@.len() == 3 && "uuid"@.len() == 4 && "KeypressEvent"@.len() == 13);
    assert("eventType"@[0] == 'e' && "inputType"@[0] == 'i');
    let request = keypress_frame(pid, index, vk, press)->Object_0[0].1->Object_0;
    assert(request.skip(1)[0] == request[1]);
}

/// No two frames of a process, and none of two processes, share an identifier.
pub proof fn law_uuids_are_distinct(pid1: u32, index1: nat, pid2: u32, index2: nat)
    requires
        keypress_uuid(pid1, index1) == keypress_uuid(pid2, index2),
    ensures
        pid1 == pid2,
        index1 == index2,
{
    reveal_strlit("-");
    reveal_strlit("kp-");
    let a1 = number::decimal(pid1 as nat);
    let a2 = number::decimal(pid2 as nat);
    let b1 = number::decimal(index1);
    let b2 = number::decimal(index2);
    let n1: int = a1.len() as int;
    let n2: int = a2.len() as int;
    let uuid1 = keypress_uuid(pid1, index1);
    let uuid2 = keypress_uuid(pid2, index2);
    number::lemma_decimal(pid1 as nat);
    number::lemma_decimal(pid2 as nat);
    assert(uuid1[3 + n1] == '-');
    assert(uuid2[3 + n2] == '-');
    if a1.len() < a2.len() {
        assert(uuid2[3 + n1] == a2[n1]);
        assert(number::is_digit(a2[n1]));
    }
    if a2.len() < a1.len() {
        assert(uuid1[3 + n2] == a1[n2]);
        assert(number::is_digit(a1[n2]));
    }
    assert(a1 =~= uuid1.subrange(3, 3 + n1));
    assert(a2 =~= uuid2.subrange(3, 3 + n2));
    assert(b1 =~= uuid1.skip(4 + n1));
    assert(b2 =~= uuid2.skip(4 + n2));
    number::lemma_decimal_injective(pid1 as nat, pid2 as nat);
    number::lemma_decimal_injective(index1, index2);
}

/// The count of frames after several calls of [`emit_keypress`] in a row, from `count` on, and the
/// frames that they gave. A call is its key and whether it goes down.
pub open spec fn keypress_run(pid: u32, count: nat, calls: Seq<(u32, bool)>) -> (
    nat,
    Seq<JsonModel>,
)
    decreases calls.len(),
{
    if calls.len() == 0 {
        (count, Seq::<JsonModel>::empty())
    } else {
        let before = keypress_run(pid, count, calls.drop_last());
        let (vk, press) = calls.last();
        let index = before.0 + 1;
        (index, before.1.push(keypress_frame(pid, index, vk, press)))
    }
}

/// Several calls in a row, of any keys, give one frame each, whose indices count up by one from the
/// first on, with no gap; each frame holds its call's key and whether it went down, and no two of
/// them share an index or an identifier.
pub proof fn law_calls_count_up(pid: u32, count: nat, calls: Seq<(u32, bool)>)
    ensures
        ({
            let (last, frames) = keypress_run(pid, count, calls);
            &&& last == count + calls.len()
            &&& frames.len() == calls.len()
            &&& forall|k: int|
                #![trigger frames[k]]
                0 <= k < calls.len() ==> {
                    &&& frame_payload(frames[k]) == Some(
                        keypress_payload((count + 1 + k) as nat, calls[k].0, calls[k].1),
                    )
                    &&& frame_uuid(frames[k]) == Some(
                        JsonModel::Text(keypress_uuid(pid, (count + 1 + k) as nat)),
                    )
                }
            &&& forall|j: int, k: int|
                #![trigger frames[j], frames[k]]
                0 <= j < k < calls.len() ==> frame_payload(frames[j])->0.get("index"@)
                    != frame_payload(frames[k])->0.get("index"@) && frame_uuid(frames[j])
                    != frame_uuid(frames[k])
        }),
{
    let frames = keypress_run(pid, count, calls).1;
    lemma_keypress_run(pid, count, calls);
    assert forall|k: int| #![trigger frames[k]] 0 <= k < calls.len() implies {
        &&& frame_payload(frames[k]) == Some(
            keypress_payload((count + 1 + k) as nat, calls[k].0, calls[k].1),
        )
        &&& frame_payload(frames[k])->0.get("index"@) == Some(
            JsonModel::Number(number::decimal((count + 1 + k) as nat)),
        )
        &&& frame_uuid(frames[k]) == Some(
            JsonModel::Text(keypress_uuid(pid, (count + 1 + k) as nat)),
        )
    } by {
        law_frame_decodes(pid, (count + 1 + k) as nat, calls[k].0, calls[k].1);
    }
    assert forall|j: int, k: int|
        #![trigger frames[j], frames[k]]
        0 <= j < k < calls.len() implies frame_payload(frames[j])->0.get("index"@)
        != frame_payload(frames[k])->0.get("index"@) && frame_uuid(frames[j]) != frame_uuid(
        frames[k],
    ) by {
        let a = (count + 1 + j) as nat;
        let b = (count + 1 + k) as nat;
        if number::decimal(a) == number::decimal(b) {
            number::lemma_decimal_injective(a, b);
        }
        if keypress_uuid(pid, a) == keypress_uuid(pid, b) {
            law_uuids_are_distinct(pid, a, pid, b);
        }
    }
}

proof fn lemma_keypress_run(pid: u32, count: nat, calls: Seq<(u32, bool)>)
    ensures
        keypress_run(pid, count, calls).0 == count + calls.len(),
        keypress_run(pid, count, calls).1.len() == calls.len(),
        forall|k: int|
            0 <= k < calls.len() ==> #[trigger] keypress_run(pid, count, calls).1[k]
                == keypress_frame(pid, (count + 1 + k) as nat, calls[k].0, calls[k].1),
    decreases calls.len(),
{
    if calls.len() > 0 {
        lemma_keypress_run(pid, count, calls.drop_last());
        let before = keypress_run(pid, count, calls.drop_last()).1;
        let frames = keypress_run(pid, count, calls).1;
        assert forall|k: int| 0 <= k < calls.len() implies #[trigger] frames[k] == keypress_frame(
            pid,
            (count + 1 + k) as nat,
            calls[k].0,
            calls[k].1,
        ) by {
            if k < before.len() {
                assert(frames[k] == before[k]);
                assert(calls.drop_last()[k] == calls[k]);
            }
        }
    }
}

/// Releasing a chord after pressing it leaves what was held before, without the chord's keys.
pub proof fn law_release_undoes_press(held: Set<u32>, chord: Seq<u32>)
    ensures
        held_after(held_after(held, chord, true), chord, false) == held.difference(chord.to_set()),
        held.disjoint(chord.to_set()) ==> held_after(held_after(held, chord, true), chord, false)
            == held,
{
    assert(held_after(held_after(held, chord, true), chord, false) =~= held.difference(
        chord.to_set(),
    ));
    if held.disjoint(chord.to_set()) {
        assert(held.difference(chord.to_set()) =~= held);
    }
}

/// Whether the app reads from a frame that this key went down, or up.
pub open spec fn reports_key(frame: JsonModel, vk: u32, press: bool) -> bool {
    frame_payload(frame) matches Some(payload) && payload.get("key"@) == Some(
        JsonModel::Number(number::decimal(vk as nat)),
    ) && payload.get("eventType"@) == Some(JsonModel::Text(event_type(press)))
}

/// Whether a key is down to the app after these frames: whether the last frame of that key is of
/// it going down.
pub open spec fn app_holds(frames: Seq<JsonModel>, vk: u32) -> bool
    decreases frames.len(),
{
    frames.len() > 0 && (reports_key(frames.last(), vk, true) || !reports_key(
        frames.last(),
        vk,
        false,
    ) && app_holds(frames.drop_last(), vk))
}

proof fn lemma_frame_reports_its_key(
    pid: u32,
    index: nat,
    vk: u32,
    press: bool,
    other: u32,
    down: bool,
)
    ensures
        reports_key(keypress_frame(pid, index, vk, press), other, down) == (vk == other && press
            == down),
{
    law_frame_decodes(pid, index, vk, press);
    reveal_strlit("key_event_press");
    reveal_strlit("key_event_release");
    assert("key_event_press"@.len() != "key_event_release"@.len());
    if number::decimal(vk as nat) == number::decimal(other as nat) {
        number::lemma_decimal_injective(vk as nat, other as nat);
    }
}

/// After the frames of some keys going down or up, those keys are down or up to the app, and every
/// other key is as before.
pub proof fn law_app_follows_the_frames(
    before: Seq<JsonModel>,
    pid: u32,
    count: nat,
    keys: Seq<u32>,
    press: bool,
    vk: u32,
)
    ensures
        app_holds(before + chord_frames(pid, count, keys, press), vk) == if keys.contains(vk) {
            press
        } else {
            app_holds(before, vk)
        },
{
    let frames = chord_frames(pid, count, keys, press);
    let order = key_order(keys, press);
    lemma_app_follows_some_frames(before, pid, count, keys, press, vk, keys.len());
    assert(frames.take(keys.len() as int) =~= frames);
    assert(order.take(keys.len() as int) =~= order);
    if keys.contains(vk) {
        let k = choose|k: int| 0 <= k < keys.len() && keys[k] == vk;
        assert(order[if press { k } else { keys.len() - 1 - k }] == vk);
    }
    if order.contains(vk) {
        let k = choose|k: int| 0 <= k < order.len() && order[k] == vk;
        assert(keys[if press { k } else { keys.len() - 1 - k }] == vk);
    }
}

proof fn lemma_app_follows_some_frames(
    before: Seq<JsonModel>,
    pid: u32,
    count: nat,
    keys: Seq<u32>,
    press: bool,
    vk: u32,
    n: nat,
)
    requires
        n <= keys.len(),
    ensures
        app_holds(before + chord_frames(pid, count, keys, press).take(n as int), vk)
            == if key_order(keys, press).take(n as int).contains(vk) {
            press
        } else {
            app_holds(before, vk)
        },
    decreases n,
{
    let frames = chord_frames(pid, count, keys, press);
    let order = key_order(keys, press);
    let sent = before + frames.take(n as int);
    if n == 0 {
        assert(sent =~= before);
    } else {
        let m: int = n - 1;
        lemma_app_follows_some_frames(before, pid, count, keys, press, vk, m as nat);
        assert(sent.drop_last() =~= before + frames.take(m));
        assert(sent.last() == keypress_frame(pid, (count + 1 + m) as nat, order[m], press));
        lemma_frame_reports_its_key(pid, (count + 1 + m) as nat, order[m], press, vk, true);
        lemma_frame_reports_its_key(pid, (count + 1 + m) as nat, order[m], press, vk, false);
        let some = order.take(n as int);
        assert(some =~= order.take(m).push(order[m]));
        assert(some[m] == order[m]);
        if order.take(m).contains(vk) {
            let k = choose|k: int| 0 <= k < m && order.take(m)[k] == vk;
            assert(some[k] == vk);
        }
        if some.contains(vk) && order[m] != vk {
            let k = choose|k: int| 0 <= k < some.len() && some[k] == vk;
            assert(order.take(m)[k] == vk);
        }
    }
}

/// What the app reads from a frame, member by member: the event that the flag stands for, the key,
/// the index, the kind of input, and the identifier of the process and the index.
pub proof fn law_app_reads_the_keypress(pid: u32, index: nat, vk: u32, press: bool)
    ensures
        ({
            let request = keypress_frame(pid, index, vk, press).get("HelperAPIRequest"@)->0;
            let payload = request.get("KeypressEvent"@)->0.get("payload"@)->0;
            &&& payload.get("eventType"@) == Some(
                JsonModel::Text(
                    if press {
                        "key_event_press"@
                    } else {
                        "key_event_release"@
                    },
                ),
            )
            &&& payload.get("key"@) == Some(JsonModel::Number(number::decimal(vk as nat)))
            &&& payload.get("index"@) == Some(JsonModel::Number(number::decimal(index)))
            &&& payload.get("inputType"@) == Some(JsonModel::Text("keyboard"@))
            &&& request.get("uuid"@) == Some(
                JsonModel::Text(
                    "kp-"@ + number::decimal(pid as nat) + "-"@ + number::decimal(index),
                ),
            )
        }),
{
    law_frame_decodes(pid, index, vk, press);
}

/// The frames of a chord are one per key. The `i`-th frame of a press is of the chord's `i`-th key,
/// the `i`-th of a release is of its `i`-th key from the end, each as the app reads the key, the
/// event and the index from it.
pub proof fn law_presses_in_order_and_releases_in_reverse(
    pid: u32,
    count: nat,
    chord: Seq<u32>,
    press: bool,
    i: int,
)
    requires
        0 <= i < chord.len(),
    ensures
        chord_frames(pid, count, chord, press).len() == chord.len(),
        ({
            let request = chord_frames(pid, count, chord, press)[i].get("HelperAPIRequest"@)->0;
            let payload = request.get("KeypressEvent"@)->0.get("payload"@)->0;
            let vk = if press {
                chord[i]
            } else {
                chord[chord.len() - 1 - i]
            };
            &&& payload.get("key"@) == Some(JsonModel::Number(number::decimal(vk as nat)))
            &&& payload.get("eventType"@) == Some(
                JsonModel::Text(
                    if press {
                        "key_event_press"@
                    } else {
                        "key_event_release"@
                    },
                ),
            )
            &&& payload.get("index"@) == Some(
                JsonModel::Number(number::decimal((count + 1 + i) as nat)),
            )
            &&& chord_frames(pid, count, chord, press)[i] == keypress_frame(
                pid,
                (count + 1 + i) as nat,
                vk,
                press,
            )
        }),
{
    let vk = if press {
        chord[i]
    } else {
        chord[chord.len() - 1 - i]
    };
    assert(key_order(chord, press)[i] == vk);
    law_app_reads_the_keypress(pid, (count + 1 + i) as nat, vk, press);
}

/// A chord without keys makes no frame.
pub proof fn law_empty_chord_makes_no_frame(pid: u32, count: nat, press: bool)
    ensures
        chord_frames(pid, count, Seq::<u32>::empty(), press).len() == 0,
{
}

/// After a chord went down, its keys are held beside those that were; after it went up, its keys
/// are not held and the others are as before.
pub proof fn law_held_keys_follow_the_chord(held: Set<u32>, chord: Seq<u32>, vk: u32)
    ensures
        held_after(held, chord, true).contains(vk) <==> held.contains(vk) || chord.contains(vk),
        held_after(held, chord, false).contains(vk) <==> held.contains(vk) && !chord.contains(vk),
{
}

/// Several documents say, one by one, what each of them says.
pub proof fn law_documents_are_said_one_by_one(frames: Seq<Json>, i: int)
    ensures
        models(frames).len() == frames.len(),
        0 <= i < frames.len() ==> models(frames)[i] == frames[i]@,
{
}

} // verus!
