//! Portal capture: setting it up, and the events once the chord is bound.
//!
//! The compositor owns the grab and reports only this shortcut. The app has no hotkey detection of
//! its own: it matches a stream of key events against its settings. So each activation becomes the
//! key events of the chord going down, and each deactivation those of the chord going up. When the
//! settings hold another chord, it is bound in place of the old one; where that fails, the old one
//! is bound again. Once a session is closed, its chord can no longer be seen to go up, so its keys
//! no longer count as held.

use vstd::prelude::*;

use crate::held::PortalHeld;
use crate::json::{Json, JsonModel};
use crate::keypress;
use crate::keypress::set_chord;
use crate::number;
use crate::portal;
use crate::portal::{rebind_on_change, same_codes, signal_matches, Rebind, Signal};
use crate::portal_bind;
use crate::portal_bind::{BindStepModel, ProgressModel};

verus! {

/// What has to work before portal capture runs.
#[derive(Debug, Clone, Copy, PartialEq, Eq, Structural)]
pub enum SetupStage {
    /// Connect to the session bus.
    Connect,
    /// Learn the connection's unique name.
    UniqueName,
    /// Open the GlobalShortcuts interface.
    Proxy,
    /// Note when the settings file last changed. This always works.
    StatConfig,
    /// Subscribe to `Activated`.
    SubscribeActivated,
    /// Subscribe to `Deactivated`.
    SubscribeDeactivated,
    /// Bind the chord.
    Bind,
}

/// What to do next to set up portal capture.
#[derive(Debug, Clone, Copy, PartialEq, Eq, Structural)]
pub enum SetupStep {
    /// Do this and report whether it worked.
    Do(SetupStage),
    /// Everything works: take in events.
    Run,
    /// Capture stays off.
    Off,
}

/// What to do next to set up portal capture, after the last stage, if any, and whether it worked.
pub open spec fn setup_step(last: Option<(SetupStage, bool)>) -> SetupStep {
    match last {
        None => SetupStep::Do(SetupStage::Connect),
        Some((_, false)) => SetupStep::Off,
        Some((SetupStage::Connect, true)) => SetupStep::Do(SetupStage::UniqueName),
        Some((SetupStage::UniqueName, true)) => SetupStep::Do(SetupStage::Proxy),
        Some((SetupStage::Proxy, true)) => SetupStep::Do(SetupStage::StatConfig),
        Some((SetupStage::StatConfig, true)) => SetupStep::Do(SetupStage::SubscribeActivated),
        Some((SetupStage::SubscribeActivated, true)) => SetupStep::Do(
            SetupStage::SubscribeDeactivated,
        ),
        Some((SetupStage::SubscribeDeactivated, true)) => SetupStep::Do(SetupStage::Bind),
        Some((SetupStage::Bind, true)) => SetupStep::Run,
    }
}

/// Decides what to do next to set up portal capture, from the last stage and whether it worked;
/// `None` at first. The stages go in order; the first that does not work leaves capture off.
pub fn portal_setup(last: Option<(SetupStage, bool)>) -> (r: SetupStep)
    ensures
        r == setup_step(last),
{
    match last {
        None => SetupStep::Do(SetupStage::Connect),
        Some((_, false)) => SetupStep::Off,
        Some((SetupStage::Connect, true)) => SetupStep::Do(SetupStage::UniqueName),
        Some((SetupStage::UniqueName, true)) => SetupStep::Do(SetupStage::Proxy),
        Some((SetupStage::Proxy, true)) => SetupStep::Do(SetupStage::StatConfig),
        Some((SetupStage::StatConfig, true)) => SetupStep::Do(SetupStage::SubscribeActivated),
        Some((SetupStage::SubscribeActivated, true)) => SetupStep::Do(
            SetupStage::SubscribeDeactivated,
        ),
        Some((SetupStage::SubscribeDeactivated, true)) => SetupStep::Do(SetupStage::Bind),
        Some((SetupStage::Bind, true)) => SetupStep::Run,
    }
}

/// How many stages are still ahead.
pub open spec fn stages_left(last: Option<(SetupStage, bool)>) -> nat {
    match last {
        None => 7,
        Some((_, false)) => 0,
        Some((SetupStage::Connect, true)) => 6,
        Some((SetupStage::UniqueName, true)) => 5,
        Some((SetupStage::Proxy, true)) => 4,
        Some((SetupStage::StatConfig, true)) => 3,
        Some((SetupStage::SubscribeActivated, true)) => 2,
        Some((SetupStage::SubscribeDeactivated, true)) => 1,
        Some((SetupStage::Bind, true)) => 0,
    }
}

/// How setting up ends, where `works` says of each stage whether it works.
pub open spec fn setup_end(
    works: spec_fn(SetupStage) -> bool,
    last: Option<(SetupStage, bool)>,
) -> SetupStep
    decreases stages_left(last),
{
    match setup_step(last) {
        SetupStep::Do(stage) => setup_end(works, Some((stage, works(stage)))),
        end => end,
    }
}

/// Portal capture runs exactly where every stage works, and otherwise stays off.
pub proof fn law_capture_runs_where_every_stage_works(works: spec_fn(SetupStage) -> bool)
    ensures
        setup_end(works, None) == if works(SetupStage::Connect) && works(SetupStage::UniqueName)
            && works(SetupStage::Proxy) && works(SetupStage::StatConfig) && works(
            SetupStage::SubscribeActivated,
        ) && works(SetupStage::SubscribeDeactivated) && works(SetupStage::Bind) {
            SetupStep::Run
        } else {
            SetupStep::Off
        },
{
    reveal_with_fuel(setup_end, 8);
}

/// The chord is bound only once both signals are subscribed to, so none of them is missed.
pub proof fn law_subscribes_before_binding(
    before_bind: Option<(SetupStage, bool)>,
    before_that: Option<(SetupStage, bool)>,
)
    requires
        setup_step(before_bind) == SetupStep::Do(SetupStage::Bind),
        before_bind matches Some((stage, _)) && setup_step(before_that) == SetupStep::Do(stage),
    ensures
        before_bind == Some((SetupStage::SubscribeDeactivated, true)),
        before_that == Some((SetupStage::SubscribeActivated, true)),
{
}

/// Everything that portal capture keeps between events.
pub struct PortalState {
    /// The process that names the frames.
    pub pid: u32,
    /// How many frames were made.
    pub index: u64,
    /// The keys that are down.
    pub held: PortalHeld,
    /// The chord whose keys a signal of the session sends.
    pub chord: Vec<u32>,
    /// The object path of the session that the chord is bound in; none while no chord is bound.
    pub session: Option<String>,
    /// When the settings file last changed, in nanoseconds, where that is known.
    pub cfg_mtime: Option<i128>,
    /// The chord that is being bound.
    pub pending: Option<Vec<u32>>,
}

/// What a [`PortalState`] says.
pub struct PortalModel {
    pub pid: u32,
    pub index: nat,
    pub held: Set<u32>,
    pub chord: Seq<u32>,
    pub session: Option<Seq<char>>,
    pub cfg_mtime: Option<i128>,
    pub pending: Option<Seq<u32>>,
}

/// What the object path of a session says, where there is one.
pub open spec fn session_view(session: Option<String>) -> Option<Seq<char>> {
    match session {
        Some(path) => Some(path@),
        None => None,
    }
}

impl View for PortalState {
    type V = PortalModel;

    open spec fn view(&self) -> PortalModel {
        PortalModel {
            pid: self.pid,
            index: self.index as nat,
            held: self.held.held(),
            chord: self.chord@,
            session: session_view(self.session),
            cfg_mtime: self.cfg_mtime,
            pending: match self.pending {
                Some(chord) => Some(chord@),
                None => None,
            },
        }
    }
}

/// What happened.
pub enum PortalEvent {
    /// The portal signalled an activation; `None` where the signal could not be decoded.
    Activated(Option<Signal>),
    /// The portal signalled a deactivation; `None` where the signal could not be decoded.
    Deactivated(Option<Signal>),
    /// It is time to look at the settings file, which last changed then.
    Tick(Option<i128>),
    /// The settings were read again, with this chord to bind, or this reason why there is none.
    Resolved(Result<Vec<u32>, String>),
    /// Binding the pending chord gave this session, or failed for this reason.
    Rebound(Result<String, String>),
}

/// What a [`PortalEvent`] says. A signal is its session and its shortcut.
pub enum EventModel {
    Activated(Option<(Seq<char>, Seq<char>)>),
    Deactivated(Option<(Seq<char>, Seq<char>)>),
    Tick(Option<i128>),
    Resolved(Result<Seq<u32>, Seq<char>>),
    Rebound(Result<Seq<char>, Seq<char>>),
}

/// What a signal says.
pub open spec fn signal_view(signal: Option<Signal>) -> Option<(Seq<char>, Seq<char>)> {
    match signal {
        Some(sent) => Some((sent.session@, sent.shortcut_id@)),
        None => None,
    }
}

impl View for PortalEvent {
    type V = EventModel;

    open spec fn view(&self) -> EventModel {
        match *self {
            PortalEvent::Activated(signal) => EventModel::Activated(signal_view(signal)),
            PortalEvent::Deactivated(signal) => EventModel::Deactivated(signal_view(signal)),
            PortalEvent::Tick(mtime) => EventModel::Tick(mtime),
            PortalEvent::Resolved(resolved) => EventModel::Resolved(portal::result_view(resolved)),
            PortalEvent::Rebound(bound) => EventModel::Rebound(
                match bound {
                    Ok(session) => Ok(session@),
                    Err(reason) => Err(reason@),
                },
            ),
        }
    }
}

/// What to do about an event.
pub enum PortalAction {
    Nothing,
    /// Send these frames to the app.
    Emit(Vec<Json>),
    /// Read the settings again and resolve the chord.
    ReadConfig,
    /// Keep the binding: the settings hold no chord to bind, for this reason.
    SkipRebind(String),
    /// Close this session, where there is one, then bind this chord.
    Rebind { close: Option<String>, chord: Vec<u32> },
    /// Binding the new chord failed, for this reason: bind this chord, the earlier one, again.
    Restore { reason: String, chord: Vec<u32> },
    /// The earlier chord could not be bound again either, for this reason: none is bound until the
    /// settings hold a new one.
    BindingLost(String),
}

/// What a [`PortalAction`] says.
pub enum ActionModel {
    Nothing,
    Emit(Seq<JsonModel>),
    ReadConfig,
    SkipRebind(Seq<char>),
    Rebind { close: Option<Seq<char>>, chord: Seq<u32> },
    Restore { reason: Seq<char>, chord: Seq<u32> },
    BindingLost(Seq<char>),
}

impl View for PortalAction {
    type V = ActionModel;

    open spec fn view(&self) -> ActionModel {
        match *self {
            PortalAction::Nothing => ActionModel::Nothing,
            PortalAction::Emit(frames) => ActionModel::Emit(keypress::models(frames@)),
            PortalAction::ReadConfig => ActionModel::ReadConfig,
            PortalAction::SkipRebind(reason) => ActionModel::SkipRebind(reason@),
            PortalAction::Rebind { close, chord } => ActionModel::Rebind {
                close: session_view(close),
                chord: chord@,
            },
            PortalAction::Restore { reason, chord } => ActionModel::Restore {
                reason: reason@,
                chord: chord@,
            },
            PortalAction::BindingLost(reason) => ActionModel::BindingLost(reason@),
        }
    }
}

impl PortalModel {
    /// Whether a signal is for the bound shortcut.
    pub open spec fn owns(self, signal: Option<(Seq<char>, Seq<char>)>) -> bool {
        self.session matches Some(session) && signal == Some((session, portal::SHORTCUT_ID@))
    }

    /// The state after the chord went down or up.
    pub open spec fn after_chord(self, press: bool) -> PortalModel {
        PortalModel {
            index: self.index + self.chord.len(),
            held: keypress::held_after(self.held, self.chord, press),
            ..self
        }
    }

    /// The frames of the chord going down or up.
    pub open spec fn frames(self, press: bool) -> Seq<JsonModel> {
        keypress::chord_frames(self.pid, self.index, self.chord, press)
    }

    /// Whether to bind this chord out of the settings.
    pub open spec fn rebinds(self, chord: Seq<u32>) -> bool {
        self.pending is None && chord != self.chord
    }

    /// Whether an event makes frames.
    pub open spec fn emits(self, event: EventModel) -> bool {
        match event {
            EventModel::Activated(signal) => self.owns(signal),
            EventModel::Deactivated(signal) => self.owns(signal),
            _ => false,
        }
    }

    /// The state once another chord is being bound: the session of the old chord is closed, and no
    /// key of the old chord counts as held.
    pub open spec fn while_binding(self, chord: Seq<u32>) -> PortalModel {
        PortalModel {
            held: self.held.difference(self.chord.to_set()),
            session: None,
            pending: Some(chord),
            ..self
        }
    }

    /// The state after an event, and what to do about it.
    pub open spec fn step(self, event: EventModel) -> (PortalModel, ActionModel) {
        match event {
            EventModel::Activated(signal) => if self.owns(signal) {
                (self.after_chord(true), ActionModel::Emit(self.frames(true)))
            } else {
                (self, ActionModel::Nothing)
            },
            EventModel::Deactivated(signal) => if self.owns(signal) {
                (self.after_chord(false), ActionModel::Emit(self.frames(false)))
            } else {
                (self, ActionModel::Nothing)
            },
            EventModel::Tick(mtime) => if self.pending is None && mtime != self.cfg_mtime {
                (PortalModel { cfg_mtime: mtime, ..self }, ActionModel::ReadConfig)
            } else {
                (self, ActionModel::Nothing)
            },
            EventModel::Resolved(Ok(chord)) => if self.rebinds(chord) {
                (self.while_binding(chord), ActionModel::Rebind { close: self.session, chord })
            } else {
                (self, ActionModel::Nothing)
            },
            EventModel::Resolved(Err(reason)) => (self, ActionModel::SkipRebind(reason)),
            EventModel::Rebound(Ok(session)) => match self.pending {
                Some(chord) => (
                    PortalModel { chord, session: Some(session), pending: None, ..self },
                    ActionModel::Nothing,
                ),
                None => (self, ActionModel::Nothing),
            },
            EventModel::Rebound(Err(reason)) => match self.pending {
                Some(chord) => if chord != self.chord {
                    (
                        PortalModel { pending: Some(self.chord), ..self },
                        ActionModel::Restore { reason, chord: self.chord },
                    )
                } else {
                    (PortalModel { pending: None, ..self }, ActionModel::BindingLost(reason))
                },
                None => (self, ActionModel::Nothing),
            },
        }
    }
}

/// A copy of a chord.
fn copy_codes(codes: &Vec<u32>) -> (r: Vec<u32>)
    ensures
        r@ == codes@,
{
    let mut out: Vec<u32> = Vec::new();
    let mut i: usize = 0;
    while i < codes.len()
        invariant
            i <= codes.len(),
            out@ == codes@.take(i as int),
        decreases codes.len() - i,
    {
        out.push(codes[i]);
        assert(codes@.take(i + 1) =~= codes@.take(i as int).push(codes@[i as int]));
        i += 1;
    }
    assert(codes@.take(i as int) =~= codes@);
    out
}

impl PortalState {
    /// The state of portal capture with this chord bound in this session. No frame was made and
    /// no key is down yet.
    pub fn new(pid: u32, chord: Vec<u32>, session: String, cfg_mtime: Option<i128>) -> (r:
        PortalState)
        ensures
            r@ == (PortalModel {
                pid,
                index: 0,
                held: Set::empty(),
                chord: chord@,
                session: Some(session@),
                cfg_mtime,
                pending: None,
            }),
            r@.is_consistent(),
            r.pid == pid,
            r.index == 0,
            r.held.keys@ == Set::<u32>::empty(),
            r.chord == chord,
            r.session == Some(session),
            r.cfg_mtime == cfg_mtime,
            r.pending is None,
    {
        PortalState {
            pid,
            index: 0,
            held: PortalHeld::new(),
            chord,
            session: Some(session),
            cfg_mtime,
            pending: None,
        }
    }

    /// Whether a signal is for the bound shortcut.
    fn owns_signal(&self, signal: Option<&Signal>) -> (r: bool)
        ensures
            r == match signal {
                Some(sent) => self@.owns(Some((sent.session@, sent.shortcut_id@))),
                None => false,
            },
    {
        match &self.session {
            Some(session) => signal_matches(signal, session.as_str()),
            None => false,
        }
    }

    /// Whether the count of frames can take those that the event makes, if any.
    pub fn has_room_for(&self, event: &PortalEvent) -> (r: bool)
        ensures
            r == (self@.emits(event@) ==> self.index + self.chord@.len() <= u64::MAX),
            self.index + self.chord@.len() <= u64::MAX ==> r,
    {
        let emits: bool = match event {
            PortalEvent::Activated(signal) => self.owns_signal(signal.as_ref()),
            PortalEvent::Deactivated(signal) => self.owns_signal(signal.as_ref()),
            _ => false,
        };
        !emits || self.chord.len() as u64 <= u64::MAX - self.index
    }

    /// Presses or releases the chord where the signal is for it.
    fn on_signal(&mut self, signal: Option<Signal>, press: bool) -> (r: PortalAction)
        requires
            old(self)@.owns(signal_view(signal)) ==> old(self).index + old(self).chord@.len()
                <= u64::MAX,
        ensures
            final(self)@ == if old(self)@.owns(signal_view(signal)) {
                old(self)@.after_chord(press)
            } else {
                old(self)@
            },
            r@ == if old(self)@.owns(signal_view(signal)) {
                ActionModel::Emit(old(self)@.frames(press))
            } else {
                ActionModel::Nothing
            },
    {
        if self.owns_signal(signal.as_ref()) {
            let frames: Vec<Json> = set_chord(
                &mut self.index,
                self.pid,
                &mut self.held,
                &self.chord,
                press,
            );
            PortalAction::Emit(frames)
        } else {
            PortalAction::Nothing
        }
    }

    /// Gives up the bound chord for another: forgets its keys and its session.
    fn begin_rebind(&mut self, chord: Vec<u32>) -> (r: PortalAction)
        requires
            old(self)@.rebinds(chord@),
        ensures
            (final(self)@, r@) == old(self)@.step(EventModel::Resolved(Ok(chord@))),
    {
        self.held.drop_keys(&self.chord);
        let close: Option<String> = self.session.take();
        self.pending = Some(copy_codes(&chord));
        PortalAction::Rebind { close, chord }
    }

    /// Gives up the chord that could not be bound: for the earlier one, where that is another.
    fn on_failure(&mut self, reason: String) -> (r: PortalAction)
        ensures
            (final(self)@, r@) == old(self)@.step(EventModel::Rebound(Err(reason@))),
    {
        match self.pending.take() {
            Some(chord) => {
                if same_codes(&chord, &self.chord) {
                    PortalAction::BindingLost(reason)
                } else {
                    self.pending = Some(copy_codes(&self.chord));
                    PortalAction::Restore { reason, chord: copy_codes(&self.chord) }
                }
            },
            None => PortalAction::Nothing,
        }
    }

    /// Takes in an event and decides what to do about it.
    pub fn run_portal(&mut self, event: PortalEvent) -> (r: PortalAction)
        requires
            old(self)@.emits(event@) ==> old(self).index + old(self).chord@.len() <= u64::MAX,
        ensures
            (final(self)@, r@) == old(self)@.step(event@),
    {
        match event {
            PortalEvent::Activated(signal) => self.on_signal(signal, true),
            PortalEvent::Deactivated(signal) => self.on_signal(signal, false),
            PortalEvent::Tick(mtime) => {
                if self.pending.is_none() && mtime != self.cfg_mtime {
                    self.cfg_mtime = mtime;
                    PortalAction::ReadConfig
                } else {
                    PortalAction::Nothing
                }
            },
            PortalEvent::Resolved(resolved) => {
                match rebind_on_change(&self.chord, resolved) {
                    Rebind::Skip(reason) => PortalAction::SkipRebind(reason),
                    Rebind::Keep => PortalAction::Nothing,
                    Rebind::Bind(chord) => {
                        if self.pending.is_none() {
                            self.begin_rebind(chord)
                        } else {
                            PortalAction::Nothing
                        }
                    },
                }
            },
            PortalEvent::Rebound(Ok(session)) => {
                match self.pending.take() {
                    Some(chord) => {
                        self.chord = chord;
                        self.session = Some(session);
                    },
                    None => {},
                }
                PortalAction::Nothing
            },
            PortalEvent::Rebound(Err(reason)) => self.on_failure(reason),
        }
    }
}

/// The frames that an action sends.
pub open spec fn emitted(action: ActionModel) -> Seq<JsonModel> {
    match action {
        ActionModel::Emit(frames) => frames,
        _ => Seq::<JsonModel>::empty(),
    }
}

impl PortalModel {
    /// The state after several events, and all the frames that were sent.
    pub open spec fn run(self, events: Seq<EventModel>) -> (PortalModel, Seq<JsonModel>)
        decreases events.len(),
    {
        if events.len() == 0 {
            (self, Seq::<JsonModel>::empty())
        } else {
            let before = self.run(events.drop_last());
            let last = before.0.step(events.last());
            (last.0, before.1 + emitted(last.1))
        }
    }

    /// What holds of the state between events: the keys held are keys of the chord, none is held
    /// while no chord is bound, and none is bound while one is being bound.
    pub open spec fn is_consistent(self) -> bool {
        &&& self.held.subset_of(self.chord.to_set())
        &&& self.session is None ==> self.held == Set::<u32>::empty()
        &&& self.pending is Some ==> self.session is None
    }

    /// The keys that an event sends frames of.
    spec fn sent_keys(self, event: EventModel) -> Seq<u32> {
        match event {
            EventModel::Activated(signal) if self.owns(signal) => self.chord,
            EventModel::Deactivated(signal) if self.owns(signal) => self.chord,
            _ => Seq::<u32>::empty(),
        }
    }
}

proof fn lemma_step_sends_keys(state: PortalModel, event: EventModel)
    ensures
        ({
            let keys = state.sent_keys(event);
            let press = event is Activated;
            let (after, action) = state.step(event);
            &&& emitted(action) == keypress::chord_frames(state.pid, state.index, keys, press)
            &&& after.pid == state.pid
            &&& after.index == state.index + keys.len()
            &&& !(action is Rebind) ==> after.held == keypress::held_after(state.held, keys, press)
            &&& action is Rebind ==> after.held == state.held.difference(state.chord.to_set())
            &&& forall|vk: u32| #[trigger] keys.contains(vk) ==> state.chord.contains(vk)
        }),
{
    let keys = state.sent_keys(event);
    let press = event is Activated;
    let (after, action) = state.step(event);
    assert(emitted(action) =~= keypress::chord_frames(state.pid, state.index, keys, press));
    if !(action is Rebind) {
        assert(after.held =~= keypress::held_after(state.held, keys, press));
    }
}

/// The index that the app reads from a frame.
pub open spec fn frame_index(frame: JsonModel) -> Option<JsonModel> {
    match keypress::frame_payload(frame) {
        Some(payload) => payload.get("index"@),
        None => None,
    }
}

/// Whatever happens, the indices of the frames count up by one from the first on, with no gap.
pub proof fn law_indices_have_no_gap(state: PortalModel, events: Seq<EventModel>)
    ensures
        state.run(events).0.index == state.index + state.run(events).1.len(),
        forall|k: int|
            0 <= k < state.run(events).1.len() ==> frame_index(#[trigger] state.run(events).1[k])
                == Some(JsonModel::Number(number::decimal((state.index + 1 + k) as nat))),
    decreases events.len(),
{
    if events.len() > 0 {
        law_indices_have_no_gap(state, events.drop_last());
        let before = state.run(events.drop_last());
        let new = emitted(before.0.step(events.last()).1);
        let all = state.run(events).1;
        lemma_step_sends_keys(before.0, events.last());
        assert(all =~= before.1 + new);
        assert forall|k: int| 0 <= k < all.len() implies frame_index(#[trigger] all[k]) == Some(
            JsonModel::Number(number::decimal((state.index + 1 + k) as nat)),
        ) by {
            if k < before.1.len() {
                assert(all[k] == before.1[k]);
            } else {
                let i = k - before.1.len();
                assert(all[k] == new[i]);
                let press = events.last() is Activated;
                keypress::law_frame_decodes(
                    before.0.pid,
                    (before.0.index + 1 + i) as nat,
                    keypress::key_order(before.0.sent_keys(events.last()), press)[i],
                    press,
                );
            }
        }
    }
}

/// Whether a frame is of a key of `chord`.
pub open spec fn is_of_chord_key(frame: JsonModel, pid: u32, index: nat, chord: Seq<u32>) -> bool {
    exists|vk: u32, press: bool|
        chord.contains(vk) && frame == #[trigger] keypress::keypress_frame(pid, index, vk, press)
}

/// Every frame is of a key of the chord.
pub proof fn law_only_chord_keys_are_sent(state: PortalModel, event: EventModel)
    ensures
        forall|k: int|
            0 <= k < emitted(state.step(event).1).len() ==> is_of_chord_key(
                #[trigger] emitted(state.step(event).1)[k],
                state.pid,
                (state.index + 1 + k) as nat,
                state.chord,
            ),
{
    let frames = emitted(state.step(event).1);
    lemma_step_sends_keys(state, event);
    assert forall|k: int| 0 <= k < frames.len() implies is_of_chord_key(
        #[trigger] frames[k],
        state.pid,
        (state.index + 1 + k) as nat,
        state.chord,
    ) by {
        let press = event is Activated;
        let keys = state.sent_keys(event);
        let order = keypress::key_order(keys, press);
        if press {
            assert(keys[k] == order[k]);
        } else {
            assert(keys[keys.len() - 1 - k] == order[k]);
        }
        assert(keys.contains(order[k]));
        assert(frames[k] == keypress::keypress_frame(
            state.pid,
            (state.index + 1 + k) as nat,
            order[k],
            press,
        ));
    }
}

impl PortalModel {
    /// Whether a session is given up for another chord in the course of several events.
    pub open spec fn gives_up_session(self, events: Seq<EventModel>) -> bool
        decreases events.len(),
    {
        events.len() > 0 && (self.gives_up_session(events.drop_last()) || self.run(
            events.drop_last(),
        ).0.step(events.last()).1 is Rebind)
    }
}

/// From a state with no key held, whatever happens, every key held is down to the app: the last
/// frame of it is of its press. As long as no session is given up for another chord, the keys held
/// are exactly those that are down to the app; a key of a session that was given up is not held,
/// so to the app it is stale.
pub proof fn law_held_keys_are_those_the_app_sees(
    state: PortalModel,
    events: Seq<EventModel>,
    vk: u32,
)
    requires
        state.held == Set::<u32>::empty(),
    ensures
        state.run(events).0.held.contains(vk) ==> keypress::app_holds(state.run(events).1, vk),
        !state.gives_up_session(events) ==> state.run(events).0.held.contains(vk)
            == keypress::app_holds(state.run(events).1, vk),
    decreases events.len(),
{
    if events.len() > 0 {
        law_held_keys_are_those_the_app_sees(state, events.drop_last(), vk);
        let before = state.run(events.drop_last());
        let keys = before.0.sent_keys(events.last());
        lemma_step_sends_keys(before.0, events.last());
        keypress::law_app_follows_the_frames(
            before.1,
            before.0.pid,
            before.0.index,
            keys,
            events.last() is Activated,
            vk,
        );
        assert(keys.to_set().contains(vk) == keys.contains(vk));
    }
}

/// A signal of another session, of another shortcut, or one that cannot be decoded changes nothing
/// and sends nothing; while no chord is bound, no signal does.
pub proof fn law_foreign_signals_are_ignored(
    state: PortalModel,
    signal: Option<(Seq<char>, Seq<char>)>,
)
    requires
        match signal {
            Some((session, shortcut)) => state.session != Some(session) || shortcut
                != portal::SHORTCUT_ID@,
            None => true,
        },
    ensures
        state.step(EventModel::Activated(signal)) == (state, ActionModel::Nothing),
        state.step(EventModel::Deactivated(signal)) == (state, ActionModel::Nothing),
{
}

/// An activation followed by its deactivation sends the chord's keys down and up again in
/// reverse, and leaves the keys held as they were, without those of the chord.
pub proof fn law_deactivation_undoes_activation(state: PortalModel)
    requires
        state.session is Some,
    ensures
        ({
            let signal = Some((state.session->0, portal::SHORTCUT_ID@));
            let down = state.step(EventModel::Activated(signal));
            let up = down.0.step(EventModel::Deactivated(signal));
            &&& down.0.held == state.held.union(state.chord.to_set())
            &&& down.1 == ActionModel::Emit(
                keypress::chord_frames(state.pid, state.index, state.chord, true),
            )
            &&& up.1 == ActionModel::Emit(
                keypress::chord_frames(
                    state.pid,
                    state.index + state.chord.len(),
                    state.chord,
                    false,
                ),
            )
            &&& up.0 == PortalModel {
                index: state.index + 2 * state.chord.len(),
                held: state.held.difference(state.chord.to_set()),
                ..state
            }
        }),
{
    keypress::law_release_undoes_press(state.held, state.chord);
}

impl PortalModel {
    /// Of several signals, those for the bound shortcut: whether each is an activation.
    pub open spec fn own_signals(self, events: Seq<EventModel>) -> Seq<bool>
        decreases events.len(),
    {
        if events.len() == 0 {
            Seq::<bool>::empty()
        } else {
            let before = self.own_signals(events.drop_last());
            match events.last() {
                EventModel::Activated(signal) if self.owns(signal) => before.push(true),
                EventModel::Deactivated(signal) if self.owns(signal) => before.push(false),
                _ => before,
            }
        }
    }

    /// The frames of the chord going down and up several times.
    pub open spec fn frames_of(self, presses: Seq<bool>) -> Seq<JsonModel>
        decreases presses.len(),
    {
        if presses.len() == 0 {
            Seq::<JsonModel>::empty()
        } else {
            let before = self.frames_of(presses.drop_last());
            before + keypress::chord_frames(
                self.pid,
                self.index + before.len(),
                self.chord,
                presses.last(),
            )
        }
    }
}

/// Whatever signals come, from a state with no key held: the frames are those of the chord for
/// each signal of the bound shortcut, in order, and the chord is held exactly where the last such
/// signal was an activation.
pub proof fn law_signals_become_the_chord(state: PortalModel, events: Seq<EventModel>)
    requires
        state.held == Set::<u32>::empty(),
        forall|i: int|
            0 <= i < events.len() ==> (#[trigger] events[i] is Activated || events[i] is Deactivated),
    ensures
        state.run(events).1 == state.frames_of(state.own_signals(events)),
        state.run(events).0 == (PortalModel {
            index: state.index + state.run(events).1.len(),
            held: if state.own_signals(events).len() > 0 && state.own_signals(events).last() {
                state.chord.to_set()
            } else {
                Set::<u32>::empty()
            },
            ..state
        }),
    decreases events.len(),
{
    if events.len() > 0 {
        let front = events.drop_last();
        assert forall|i: int| 0 <= i < front.len() implies (#[trigger] front[i] is Activated
            || front[i] is Deactivated) by {
            assert(front[i] == events[i]);
        }
        law_signals_become_the_chord(state, front);
        let before = state.run(front).0;
        let last = events[events.len() - 1];
        assert(last is Activated || last is Deactivated);
        let presses = state.own_signals(events);
        if state.emits(last) {
            assert(presses.drop_last() =~= state.own_signals(front));
            assert(presses.last() == (last is Activated));
            assert(before.chord == state.chord);
            assert(state.run(events).0.held =~= if presses.last() {
                state.chord.to_set()
            } else {
                Set::<u32>::empty()
            });
        } else {
            assert(state.run(events).1 =~= state.run(front).1);
        }
    }
}

/// Whatever happens, the state stays consistent: the keys held are keys of the chord, none is held
/// while no chord is bound, and none is bound while one is being bound.
pub proof fn law_held_keys_are_chord_keys(state: PortalModel, event: EventModel)
    requires
        state.is_consistent(),
    ensures
        state.step(event).0.is_consistent(),
        state.step(event).0.held.subset_of(state.step(event).0.chord.to_set()),
{
    if let EventModel::Resolved(Ok(_)) = event {
        assert(state.held.difference(state.chord.to_set()) =~= Set::<u32>::empty());
    }
}

/// Whatever happens, however often, the state stays consistent.
pub proof fn law_state_stays_consistent(state: PortalModel, events: Seq<EventModel>)
    requires
        state.is_consistent(),
    ensures
        state.run(events).0.is_consistent(),
    decreases events.len(),
{
    if events.len() > 0 {
        law_state_stays_consistent(state, events.drop_last());
        law_held_keys_are_chord_keys(state.run(events.drop_last()).0, events.last());
    }
}

/// The chord changes only once it is bound: to the chord that was being bound, together with the
/// session that it was bound in. A session is given up only when another chord is to be bound.
pub proof fn law_chord_and_session_change_together(state: PortalModel, event: EventModel)
    ensures
        ({
            let (after, action) = state.step(event);
            &&& after.chord != state.chord || after.session is Some && after.session
                != state.session ==> event == EventModel::Rebound(
                Ok::<Seq<char>, Seq<char>>(after.session->0),
            ) && after.session is Some && state.pending == Some(after.chord)
            &&& after.session is None && state.session is Some ==> action is Rebind
        }),
{
}

/// A chord starts being bound only when the caller is told to bind it; where the caller is told to
/// close a session, that is the one that the old chord was bound in.
pub proof fn law_pending_chord_is_the_requested_one(state: PortalModel, event: EventModel)
    ensures
        ({
            let (after, action) = state.step(event);
            &&& action matches ActionModel::Rebind { close, chord } ==> close == state.session
                && after.pending == Some(chord)
            &&& action matches ActionModel::Restore { chord, .. } ==> after.pending == Some(chord)
            &&& after.pending matches Some(wanted) ==> {
                ||| state.pending == Some(wanted)
                ||| action matches ActionModel::Rebind { chord, .. } && chord == wanted
                ||| action matches ActionModel::Restore { chord, .. } && chord == wanted
            }
        }),
{
}

/// A new chord in the settings is bound in place of the old one. The old session is closed, so no
/// signal is for it any more, and no key is held; no frame is sent. Once the new chord is bound, the
/// signals of its session are those of the new chord, and still no key is held.
pub proof fn law_new_chord_is_bound(state: PortalModel, chord: Seq<u32>, session: Seq<char>)
    requires
        state.is_consistent(),
        state.rebinds(chord),
    ensures
        ({
            let begun = state.step(EventModel::Resolved(Ok(chord)));
            let done = begun.0.step(EventModel::Rebound(Ok(session)));
            &&& begun.1 == (ActionModel::Rebind { close: state.session, chord })
            &&& begun.0 == PortalModel {
                held: Set::empty(),
                session: None,
                pending: Some(chord),
                ..state
            }
            &&& done.0 == PortalModel {
                held: Set::empty(),
                chord,
                session: Some(session),
                pending: None,
                ..state
            }
            &&& done.1 == ActionModel::Nothing
        }),
{
    assert(state.held.difference(state.chord.to_set()) =~= Set::<u32>::empty());
}

/// Where the new chord cannot be bound, the earlier one is bound again: the caller is told to bind
/// it, and its new session takes the place of the closed one under the same chord, with no key
/// held.
pub proof fn law_failed_rebind_binds_the_old_chord(
    state: PortalModel,
    chord: Seq<u32>,
    reason: Seq<char>,
    session: Seq<char>,
)
    requires
        state.is_consistent(),
        state.rebinds(chord),
    ensures
        ({
            let begun = state.step(EventModel::Resolved(Ok(chord)));
            let failed = begun.0.step(EventModel::Rebound(Err(reason)));
            let restored = failed.0.step(EventModel::Rebound(Ok(session)));
            &&& failed.1 == (ActionModel::Restore { reason, chord: state.chord })
            &&& failed.0.session is None
            &&& failed.0.pending == Some(state.chord)
            &&& restored.0 == PortalModel {
                held: Set::empty(),
                session: Some(session),
                ..state
            }
            &&& restored.1 == ActionModel::Nothing
        }),
{
    assert(state.held.difference(state.chord.to_set()) =~= Set::<u32>::empty());
}

/// Where the earlier chord cannot be bound again either, the caller is told so, no chord is bound,
/// and a further chord in the settings is bound as ever.
pub proof fn law_lost_binding_awaits_a_new_chord(
    state: PortalModel,
    chord: Seq<u32>,
    reason: Seq<char>,
    reason_again: Seq<char>,
    next: Seq<u32>,
)
    requires
        state.rebinds(chord),
        next != state.chord,
    ensures
        ({
            let failed = state.step(EventModel::Resolved(Ok(chord))).0.step(
                EventModel::Rebound(Err(reason)),
            ).0;
            let lost = failed.step(EventModel::Rebound(Err(reason_again)));
            &&& lost.1 == ActionModel::BindingLost(reason_again)
            &&& lost.0.session is None
            &&& lost.0.pending is None
            &&& lost.0.step(EventModel::Resolved(Ok(next))).1 matches ActionModel::Rebind {
                close: None,
                chord: wanted,
            } && wanted == next
        }),
{
}

/// What the compositor grabs is what the app is told of: where the shortcut was bound for the
/// state's chord in the state's session, the trigger is one of that very chord, and each signal of
/// the session sends that chord's keys.
pub proof fn law_grabbed_chord_is_the_sent_one<F: Fn(&Vec<u32>) -> Option<String>>(
    state: PortalModel,
    to_trigger: F,
    progress: ProgressModel,
    session: Seq<char>,
    trigger: Seq<char>,
)
    requires
        state.session == Some(session),
        portal_bind::binds_chord(
            state.chord,
            to_trigger,
            progress,
            BindStepModel::Call(portal_bind::bind_shortcuts_call(session, trigger)),
        ),
    ensures
        ({
            let signal = Some((session, portal::SHORTCUT_ID@));
            &&& portal_bind::gives_trigger(to_trigger, state.chord, Some(trigger))
            &&& state.step(EventModel::Activated(signal)).1 == ActionModel::Emit(
                keypress::chord_frames(state.pid, state.index, state.chord, true),
            )
            &&& state.step(EventModel::Deactivated(signal)).1 == ActionModel::Emit(
                keypress::chord_frames(state.pid, state.index, state.chord, false),
            )
        }),
{
    portal_bind::law_chord_is_bound_to_its_trigger(
        state.chord,
        to_trigger,
        progress,
        session,
        trigger,
    );
}

/// The chord that the caller is told to bind, where it is told to bind one.
pub open spec fn chord_to_bind(action: ActionModel) -> Option<Seq<u32>> {
    match action {
        ActionModel::Rebind { chord, .. } => Some(chord),
        ActionModel::Restore { chord, .. } => Some(chord),
        _ => None,
    }
}

/// The same holds after a rebind: where the caller is told to bind a chord, binds it and reports
/// the session, the state has that chord in that session.
pub proof fn law_rebound_chord_is_the_sent_one<F: Fn(&Vec<u32>) -> Option<String>>(
    state: PortalModel,
    event: EventModel,
    to_trigger: F,
    progress: ProgressModel,
    session: Seq<char>,
    trigger: Seq<char>,
)
    requires
        chord_to_bind(state.step(event).1) matches Some(chord) && portal_bind::binds_chord(
            chord,
            to_trigger,
            progress,
            BindStepModel::Call(portal_bind::bind_shortcuts_call(session, trigger)),
        ),
    ensures
        ({
            let bound = state.step(event).0.step(EventModel::Rebound(Ok(session))).0;
            let signal = Some((session, portal::SHORTCUT_ID@));
            &&& chord_to_bind(state.step(event).1) == Some(bound.chord)
            &&& portal_bind::gives_trigger(to_trigger, bound.chord, Some(trigger))
            &&& bound.step(EventModel::Activated(signal)).1 == ActionModel::Emit(
                keypress::chord_frames(bound.pid, bound.index, bound.chord, true),
            )
            &&& bound.step(EventModel::Deactivated(signal)).1 == ActionModel::Emit(
                keypress::chord_frames(bound.pid, bound.index, bound.chord, false),
            )
        }),
{
    law_grabbed_chord_is_the_sent_one(
        state.step(event).0.step(EventModel::Rebound(Ok(session))).0,
        to_trigger,
        progress,
        session,
        trigger,
    );
}

/// A change of the settings file is looked at once; one that comes while a chord is being bound is
/// looked at afterwards.
pub proof fn law_one_read_per_change(state: PortalModel, mtime: Option<i128>)
    requires
        mtime != state.cfg_mtime,
    ensures
        state.pending is None ==> state.step(EventModel::Tick(mtime)).1 == ActionModel::ReadConfig
            && state.step(EventModel::Tick(mtime)).0.step(EventModel::Tick(mtime)).1
            == ActionModel::Nothing,
        state.pending is Some ==> state.step(EventModel::Tick(mtime)) == (
            state,
            ActionModel::Nothing,
        ),
{
}

/// A signal of the bound session and the shortcut `ptt` sends one frame per key of the chord: its
/// keys in order for an activation, in reverse for a deactivation, as the app reads them. The keys
/// held follow, the count of frames goes up by the chord's length, and nothing else changes.
pub proof fn law_own_signal_sends_the_chord(
    state: PortalModel,
    session: Seq<char>,
    press: bool,
    i: int,
    vk: u32,
)
    requires
        state.session == Some(session),
    ensures
        ({
            let signal = Some((session, "ptt"@));
            let (after, action) = state.step(
                if press {
                    EventModel::Activated(signal)
                } else {
                    EventModel::Deactivated(signal)
                },
            );
            &&& action is Emit
            &&& action->Emit_0.len() == state.chord.len()
            &&& 0 <= i < state.chord.len() ==> action->Emit_0[i] == keypress::keypress_frame(
                state.pid,
                (state.index + 1 + i) as nat,
                if press {
                    state.chord[i]
                } else {
                    state.chord[state.chord.len() - 1 - i]
                },
                press,
            )
            &&& after.held.contains(vk) <==> if press {
                state.held.contains(vk) || state.chord.contains(vk)
            } else {
                state.held.contains(vk) && !state.chord.contains(vk)
            }
            &&& after == PortalModel {
                index: state.index + state.chord.len(),
                held: after.held,
                ..state
            }
        }),
{
    if 0 <= i < state.chord.len() {
        keypress::law_presses_in_order_and_releases_in_reverse(
            state.pid,
            state.index,
            state.chord,
            press,
            i,
        );
    }
}

/// A signal of another session or another shortcut, one that could not be decoded, and any signal
/// while no chord is bound, changes nothing and sends nothing. Such an event needs no room.
pub proof fn law_other_signal_does_nothing(
    state: PortalModel,
    signal: Option<(Seq<char>, Seq<char>)>,
)
    requires
        match (state.session, signal) {
            (Some(session), Some((sender, shortcut))) => sender != session || shortcut != "ptt"@,
            _ => true,
        },
    ensures
        state.step(EventModel::Activated(signal)) == (state, ActionModel::Nothing),
        state.step(EventModel::Deactivated(signal)) == (state, ActionModel::Nothing),
        !state.emits(EventModel::Activated(signal)),
        !state.emits(EventModel::Deactivated(signal)),
{
}

/// Only a signal of the bound session and the shortcut `ptt` makes frames, and needs room for them.
pub proof fn law_only_own_signals_make_frames(state: PortalModel, event: EventModel)
    ensures
        state.emits(event) <==> state.session is Some && (event == EventModel::Activated(
            Some((state.session->0, "ptt"@)),
        ) || event == EventModel::Deactivated(Some((state.session->0, "ptt"@)))),
        state.step(event).1 is Emit <==> state.emits(event),
{
}

/// While no chord is being bound, another time of the settings file is noted and the settings are
/// read; the same time, or any time while a chord is being bound, changes nothing.
pub proof fn law_tick_reads_changed_settings(state: PortalModel, mtime: Option<i128>)
    ensures
        state.pending is None && mtime != state.cfg_mtime ==> state.step(EventModel::Tick(mtime))
            == (PortalModel { cfg_mtime: mtime, ..state }, ActionModel::ReadConfig),
        state.pending is Some || mtime == state.cfg_mtime ==> state.step(EventModel::Tick(mtime))
            == (state, ActionModel::Nothing),
{
}

/// While no chord is being bound, every chord of the settings that differs from the state's in any
/// way is bound in its place, whether or not a session is bound: the caller is told to close the
/// state's session and to bind that chord, which is then being bound. No key of the old chord is
/// held any more, no session is bound, and nothing else changes.
pub proof fn law_different_chord_is_bound(state: PortalModel, chord: Seq<u32>, vk: u32)
    requires
        state.pending is None,
        chord != state.chord,
    ensures
        ({
            let (after, action) = state.step(EventModel::Resolved(Ok(chord)));
            &&& action == (ActionModel::Rebind { close: state.session, chord })
            &&& after.held.contains(vk) <==> state.held.contains(vk) && !state.chord.contains(vk)
            &&& after == PortalModel {
                held: after.held,
                session: None,
                pending: Some(chord),
                ..state
            }
        }),
{
}

/// Chords that differ at any place, or in how many keys they have, are different: the first such
/// place decides that the new one is bound.
pub proof fn law_any_other_key_is_another_chord(state: PortalModel, chord: Seq<u32>, i: int)
    requires
        state.pending is None,
        chord.len() != state.chord.len() || 0 <= i < chord.len() && chord[i] != state.chord[i],
    ensures
        state.step(EventModel::Resolved(Ok(chord))).1 == (ActionModel::Rebind {
            close: state.session,
            chord,
        }),
{
    law_different_chord_is_bound(state, chord, 0);
}

/// The same chord in the settings, any chord while one is being bound, and settings without a chord
/// to bind, leave the state as it is; the reason why there is none is passed on whole.
pub proof fn law_other_settings_keep_the_binding(
    state: PortalModel,
    chord: Seq<u32>,
    reason: Seq<char>,
)
    ensures
        state.step(EventModel::Resolved(Ok(state.chord))) == (state, ActionModel::Nothing),
        state.pending is Some ==> state.step(EventModel::Resolved(Ok(chord))) == (
            state,
            ActionModel::Nothing,
        ),
        state.step(EventModel::Resolved(Err(reason))) == (state, ActionModel::SkipRebind(reason)),
{
}

/// A chord that was being bound and has its session becomes the state's chord in that session. One
/// that could not be bound gives way to the state's chord, which is bound again, or, where it was
/// that one already, to none. Without a chord being bound nothing changes. The keys held, the count
/// of frames and the time of the settings stay as they are throughout.
pub proof fn law_outcome_of_binding(
    state: PortalModel,
    wanted: Seq<u32>,
    session: Seq<char>,
    reason: Seq<char>,
)
    ensures
        state.pending == Some(wanted) ==> state.step(EventModel::Rebound(Ok(session))) == (
            PortalModel { chord: wanted, session: Some(session), pending: None, ..state },
            ActionModel::Nothing,
        ),
        state.pending == Some(wanted) && wanted != state.chord ==> state.step(
            EventModel::Rebound(Err(reason)),
        ) == (
            PortalModel { pending: Some(state.chord), ..state },
            ActionModel::Restore { reason, chord: state.chord },
        ),
        state.pending == Some(wanted) && wanted == state.chord ==> state.step(
            EventModel::Rebound(Err(reason)),
        ) == (PortalModel { pending: None, ..state }, ActionModel::BindingLost(reason)),
        state.pending is None ==> state.step(EventModel::Rebound(Ok(session))) == (
            state,
            ActionModel::Nothing,
        ) && state.step(EventModel::Rebound(Err(reason))) == (state, ActionModel::Nothing),
{
}

/// The setup goes through the stages in their order, and a stage that does not work ends it.
pub proof fn law_setup_goes_stage_by_stage(stage: SetupStage)
    ensures
        setup_step(None) == SetupStep::Do(SetupStage::Connect),
        setup_step(Some((SetupStage::Connect, true))) == SetupStep::Do(SetupStage::UniqueName),
        setup_step(Some((SetupStage::UniqueName, true))) == SetupStep::Do(SetupStage::Proxy),
        setup_step(Some((SetupStage::Proxy, true))) == SetupStep::Do(SetupStage::StatConfig),
        setup_step(Some((SetupStage::StatConfig, true))) == SetupStep::Do(
            SetupStage::SubscribeActivated,
        ),
        setup_step(Some((SetupStage::SubscribeActivated, true))) == SetupStep::Do(
            SetupStage::SubscribeDeactivated,
        ),
        setup_step(Some((SetupStage::SubscribeDeactivated, true))) == SetupStep::Do(
            SetupStage::Bind,
        ),
        setup_step(Some((SetupStage::Bind, true))) == SetupStep::Run,
        setup_step(Some((stage, false))) == SetupStep::Off,
{
}

/// The state says what it holds, field by field.
pub proof fn law_state_says_what_it_holds(state: PortalState)
    ensures
        state@.pid == state.pid,
        state@.index == state.index,
        state@.held == state.held.keys@,
        state@.chord == state.chord@,
        state.session is Some ==> state@.session == Some(state.session->0@),
        state.session is None ==> state@.session is None,
        state@.cfg_mtime == state.cfg_mtime,
        state.pending is Some ==> state@.pending == Some(state.pending->0@),
        state.pending is None ==> state@.pending is None,
{
}

/// An event says what it holds.
pub proof fn law_event_says_what_it_holds(
    signal: Signal,
    mtime: Option<i128>,
    chord: Vec<u32>,
    text: String,
)
    ensures
        PortalEvent::Activated(Some(signal))@ == EventModel::Activated(
            Some((signal.session@, signal.shortcut_id@)),
        ),
        PortalEvent::Activated(None)@ == EventModel::Activated(None),
        PortalEvent::Deactivated(Some(signal))@ == EventModel::Deactivated(
            Some((signal.session@, signal.shortcut_id@)),
        ),
        PortalEvent::Deactivated(None)@ == EventModel::Deactivated(None),
        PortalEvent::Tick(mtime)@ == EventModel::Tick(mtime),
        PortalEvent::Resolved(Ok(chord))@ == EventModel::Resolved(Ok(chord@)),
        PortalEvent::Resolved(Err(text))@ == EventModel::Resolved(Err(text@)),
        PortalEvent::Rebound(Ok(text))@ == EventModel::Rebound(Ok(text@)),
        PortalEvent::Rebound(Err(text))@ == EventModel::Rebound(Err(text@)),
{
}

/// An action says what it holds; its frames one by one.
pub proof fn law_action_says_what_it_holds(
    frames: Vec<Json>,
    reason: String,
    close: Option<String>,
    chord: Vec<u32>,
    i: int,
)
    ensures
        PortalAction::Nothing@ == ActionModel::Nothing,
        PortalAction::Emit(frames)@ matches ActionModel::Emit(said) && said.len() == frames@.len()
            && (0 <= i < frames@.len() ==> said[i] == frames@[i]@),
        PortalAction::ReadConfig@ == ActionModel::ReadConfig,
        PortalAction::SkipRebind(reason)@ == ActionModel::SkipRebind(reason@),
        close is Some ==> (PortalAction::Rebind { close, chord })@ == (ActionModel::Rebind {
            close: Some(close->0@),
            chord: chord@,
        }),
        close is None ==> (PortalAction::Rebind { close, chord })@ == (ActionModel::Rebind {
            close: None,
            chord: chord@,
        }),
        (PortalAction::Restore { reason, chord })@ == (ActionModel::Restore {
            reason: reason@,
            chord: chord@,
        }),
        PortalAction::BindingLost(reason)@ == ActionModel::BindingLost(reason@),
{
}

/// What a run of events sends is what its events send, one after the other; only an action that
/// sends frames adds any.
pub proof fn law_run_goes_event_by_event(
    state: PortalModel,
    events: Seq<EventModel>,
    event: EventModel,
)
    ensures
        state.run(Seq::<EventModel>::empty()) == (state, Seq::<JsonModel>::empty()),
        ({
            let before = state.run(events);
            let (after, action) = before.0.step(event);
            &&& state.run(events.push(event)).0 == after
            &&& action is Emit ==> state.run(events.push(event)).1 == before.1 + action->Emit_0
            &&& !(action is Emit) ==> state.run(events.push(event)).1 == before.1
        }),
{
    assert(events.push(event).drop_last() =~= events);
    let before = state.run(events);
    assert(before.1 + Seq::<JsonModel>::empty() =~= before.1);
}

} // verus!
