//! Binding the chord with the portal: `CreateSession`, then `BindShortcuts`.

use vstd::prelude::*;

use crate::portal;
use crate::portal::SHORTCUT_ID;
use crate::portal_call::{PortalMethod, PortalResults};
use crate::text::same_text;

verus! {

/// `zbus::zvariant::ObjectPath::try_from`, on a string: it accepts the valid object paths and
/// keeps their text. Any other string gives the one error for an invalid path.
#[verifier::external_body]
fn object_path(path: &str) -> (r: Result<String, String>)
    ensures
        match r {
            Ok(text) => portal::is_object_path(path@) && text@ == path@,
            Err(error) => !portal::is_object_path(path@) && error@ == "Invalid object path"@,
        },
{
    match zbus::zvariant::ObjectPath::try_from(path) {
        Ok(valid) => Ok(valid.as_str().to_owned()),
        Err(error) => Err(error.to_string()),
    }
}

/// A method call to the portal, with everything it sends.
pub enum PortalRequest {
    CreateSession {
        /// The token of the request object.
        handle_token: String,
        options: Vec<(String, String)>,
    },
    BindShortcuts {
        /// The token of the request object.
        handle_token: String,
        /// The object path of the session.
        session: String,
        /// The identifier of each shortcut and what it is.
        shortcuts: Vec<(String, Vec<(String, String)>)>,
        parent_window: String,
        options: Vec<(String, String)>,
    },
}

/// What a [`PortalRequest`] says.
pub enum RequestModel {
    CreateSession { handle_token: Seq<char>, options: Seq<(Seq<char>, Seq<char>)> },
    BindShortcuts {
        handle_token: Seq<char>,
        session: Seq<char>,
        shortcuts: Seq<(Seq<char>, Seq<(Seq<char>, Seq<char>)>)>,
        parent_window: Seq<char>,
        options: Seq<(Seq<char>, Seq<char>)>,
    },
}

/// What each of several named strings says.
pub open spec fn named_texts(pairs: Seq<(String, String)>) -> Seq<(Seq<char>, Seq<char>)> {
    Seq::new(pairs.len(), |i: int| (pairs[i].0@, pairs[i].1@))
}

impl View for PortalRequest {
    type V = RequestModel;

    open spec fn view(&self) -> RequestModel {
        match *self {
            PortalRequest::CreateSession { handle_token, options } => RequestModel::CreateSession {
                handle_token: handle_token@,
                options: named_texts(options@),
            },
            PortalRequest::BindShortcuts {
                handle_token,
                session,
                shortcuts,
                parent_window,
                options,
            } => RequestModel::BindShortcuts {
                handle_token: handle_token@,
                session: session@,
                shortcuts: Seq::new(
                    shortcuts@.len(),
                    |i: int| (shortcuts@[i].0@, named_texts(shortcuts@[i].1@)),
                ),
                parent_window: parent_window@,
                options: named_texts(options@),
            },
        }
    }
}

impl PortalRequest {
    /// The method to call.
    pub fn method(&self) -> (r: PortalMethod)
        ensures
            r == match *self {
                PortalRequest::CreateSession { .. } => PortalMethod::CreateSession,
                PortalRequest::BindShortcuts { .. } => PortalMethod::BindShortcuts,
            },
    {
        match self {
            PortalRequest::CreateSession { .. } => PortalMethod::CreateSession,
            PortalRequest::BindShortcuts { .. } => PortalMethod::BindShortcuts,
        }
    }
}

impl RequestModel {
    /// The token of the request object.
    pub open spec fn token(self) -> Seq<char> {
        match self {
            RequestModel::CreateSession { handle_token, .. } => handle_token,
            RequestModel::BindShortcuts { handle_token, .. } => handle_token,
        }
    }
}

impl PortalRequest {
    /// The token of the request object.
    pub fn handle_token(&self) -> (r: &str)
        ensures
            r@ == self@.token(),
    {
        match self {
            PortalRequest::CreateSession { handle_token, .. } => handle_token.as_str(),
            PortalRequest::BindShortcuts { handle_token, .. } => handle_token.as_str(),
        }
    }
}

/// The call that creates a session.
pub open spec fn create_session_call() -> RequestModel {
    RequestModel::CreateSession {
        handle_token: "wf_create"@,
        options: seq![
            ("handle_token"@, "wf_create"@),
            ("session_handle_token"@, "wf_session"@),
        ],
    }
}

/// The call that binds the push-to-talk shortcut of a session to a trigger.
pub open spec fn bind_shortcuts_call(session: Seq<char>, trigger: Seq<char>) -> RequestModel {
    RequestModel::BindShortcuts {
        handle_token: "wf_bind"@,
        session,
        shortcuts: seq![
            (
                SHORTCUT_ID@,
                seq![
                    ("description"@, "Wispr Flow push-to-talk"@),
                    ("preferred_trigger"@, trigger),
                ],
            ),
        ],
        parent_window: ""@,
        options: seq![("handle_token"@, "wf_bind"@)],
    }
}

/// Appends a named string.
fn push_named(pairs: &mut Vec<(String, String)>, name: &str, value: &str)
    ensures
        named_texts(final(pairs)@) == named_texts(old(pairs)@).push((name@, value@)),
{
    pairs.push((name.to_owned(), value.to_owned()));
    assert(named_texts(pairs@) =~= named_texts(old(pairs)@).push((name@, value@)));
}

/// The call that creates a session.
fn create_session() -> (r: PortalRequest)
    ensures
        r@ == create_session_call(),
{
    let mut options: Vec<(String, String)> = Vec::new();
    assert(named_texts(options@) =~= seq![]);
    push_named(&mut options, "handle_token", "wf_create");
    push_named(&mut options, "session_handle_token", "wf_session");
    assert(named_texts(options@) =~= create_session_call()->CreateSession_options);
    PortalRequest::CreateSession { handle_token: "wf_create".to_owned(), options }
}

/// The call that binds the push-to-talk shortcut of a session to a trigger.
fn bind_shortcuts(session: String, trigger: &str) -> (r: PortalRequest)
    ensures
        r@ == bind_shortcuts_call(session@, trigger@),
{
    let ghost want = bind_shortcuts_call(session@, trigger@);
    let mut meta: Vec<(String, String)> = Vec::new();
    assert(named_texts(meta@) =~= seq![]);
    push_named(&mut meta, "description", "Wispr Flow push-to-talk");
    push_named(&mut meta, "preferred_trigger", trigger);
    assert(named_texts(meta@) =~= want->shortcuts[0].1);
    let mut shortcuts: Vec<(String, Vec<(String, String)>)> = Vec::new();
    shortcuts.push((SHORTCUT_ID.to_owned(), meta));
    let mut options: Vec<(String, String)> = Vec::new();
    assert(named_texts(options@) =~= seq![]);
    push_named(&mut options, "handle_token", "wf_bind");
    assert(named_texts(options@) =~= want->BindShortcuts_options);
    let r = PortalRequest::BindShortcuts {
        handle_token: "wf_bind".to_owned(),
        session,
        shortcuts,
        parent_window: "".to_owned(),
        options,
    };
    assert(r@->shortcuts =~= want->shortcuts);
    r
}

/// The string that the results hold under `name`, where they hold one.
pub open spec fn string_result(
    results: Seq<(String, Option<String>)>,
    name: Seq<char>,
) -> Option<Seq<char>>
    decreases results.len(),
{
    if results.len() == 0 {
        None
    } else if results[0].0@ == name {
        match results[0].1 {
            Some(value) => Some(value@),
            None => None,
        }
    } else {
        string_result(results.skip(1), name)
    }
}

/// The string that the results hold under `name`, where they hold one.
fn find_string(results: &PortalResults, name: &str) -> (r: Option<String>)
    ensures
        match r {
            Some(value) => string_result(results@, name@) == Some(value@),
            None => string_result(results@, name@) is None,
        },
{
    let mut i: usize = 0;
    assert(results@.skip(0) =~= results@);
    while i < results.len()
        invariant
            i <= results.len(),
            string_result(results@, name@) == string_result(results@.skip(i as int), name@),
        decreases results.len() - i,
    {
        assert(results@.skip(i as int)[0] == results@[i as int]);
        if same_text(results[i].0.as_str(), name) {
            return match &results[i].1 {
                Some(value) => Some(value.clone()),
                None => None,
            };
        }
        assert(results@.skip(i as int).skip(1) =~= results@.skip(i + 1));
        i += 1;
    }
    None
}

/// How far binding a chord has come.
pub enum BindProgress {
    /// Nothing was called yet.
    Begin,
    /// `CreateSession` gave this.
    Created(Result<PortalResults, String>),
    /// `BindShortcuts` for this session gave this.
    Bound { session: String, reply: Result<PortalResults, String> },
}

/// What a reply to a call says.
pub open spec fn reply_view(reply: Result<PortalResults, String>) -> Result<
    Seq<(String, Option<String>)>,
    Seq<char>,
> {
    match reply {
        Ok(results) => Ok(results@),
        Err(error) => Err(error@),
    }
}

/// What a [`BindProgress`] says.
pub enum ProgressModel {
    Begin,
    Created(Result<Seq<(String, Option<String>)>, Seq<char>>),
    Bound { session: Seq<char>, reply: Result<Seq<(String, Option<String>)>, Seq<char>> },
}

impl View for BindProgress {
    type V = ProgressModel;

    open spec fn view(&self) -> ProgressModel {
        match *self {
            BindProgress::Begin => ProgressModel::Begin,
            BindProgress::Created(reply) => ProgressModel::Created(reply_view(reply)),
            BindProgress::Bound { session, reply } => ProgressModel::Bound {
                session: session@,
                reply: reply_view(reply),
            },
        }
    }
}

impl RequestModel {
    /// How far binding has come once this call gave this reply.
    pub open spec fn answered(
        self,
        reply: Result<Seq<(String, Option<String>)>, Seq<char>>,
    ) -> ProgressModel {
        match self {
            RequestModel::CreateSession { .. } => ProgressModel::Created(reply),
            RequestModel::BindShortcuts { session, .. } => ProgressModel::Bound { session, reply },
        }
    }
}

impl PortalRequest {
    /// How far binding has come once this call gave this reply.
    pub fn answered(self, reply: Result<PortalResults, String>) -> (r: BindProgress)
        ensures
            r@ == self@.answered(reply_view(reply)),
    {
        match self {
            PortalRequest::CreateSession { .. } => BindProgress::Created(reply),
            PortalRequest::BindShortcuts { session, .. } => BindProgress::Bound { session, reply },
        }
    }
}

/// What to do next to bind a chord.
pub enum BindStep {
    /// Call the portal and report what it gave.
    Call(PortalRequest),
    /// The session with this object path has the shortcut.
    Done(String),
    /// The shortcut is not bound, for this reason.
    Failed(String),
}

/// What a [`BindStep`] says.
pub enum BindStepModel {
    Call(RequestModel),
    Done(Seq<char>),
    Failed(Seq<char>),
}

impl View for BindStep {
    type V = BindStepModel;

    open spec fn view(&self) -> BindStepModel {
        match *self {
            BindStep::Call(request) => BindStepModel::Call(request@),
            BindStep::Done(session) => BindStepModel::Done(session@),
            BindStep::Failed(reason) => BindStepModel::Failed(reason@),
        }
    }
}

/// What to do after `CreateSession` gave these results.
pub open spec fn step_after_create(
    trigger: Seq<char>,
    results: Seq<(String, Option<String>)>,
) -> BindStepModel {
    match string_result(results, "session_handle"@) {
        Some(handle) => if portal::is_object_path(handle) {
            BindStepModel::Call(bind_shortcuts_call(handle, trigger))
        } else {
            BindStepModel::Failed(
                "session_handle not an object path: "@ + "Invalid object path"@,
            )
        },
        None => BindStepModel::Failed("CreateSession: no session_handle in results"@),
    }
}

/// The failure to bind a chord that has no trigger.
pub open spec fn no_trigger() -> BindStepModel {
    BindStepModel::Failed("internal: chord not bindable (should have been caught earlier)"@)
}

/// Whether the next step needs the trigger.
pub open spec fn needs_trigger(progress: ProgressModel) -> bool {
    match progress {
        ProgressModel::Begin => true,
        ProgressModel::Created(Ok(_)) => true,
        _ => false,
    }
}

/// What to do next to bind a trigger, where there is one: create a session, then bind the shortcut
/// in it.
pub open spec fn bind_step(trigger: Option<Seq<char>>, progress: ProgressModel) -> BindStepModel {
    match progress {
        ProgressModel::Begin => match trigger {
            Some(_) => BindStepModel::Call(create_session_call()),
            None => no_trigger(),
        },
        ProgressModel::Created(Ok(results)) => match trigger {
            Some(text) => step_after_create(text, results),
            None => no_trigger(),
        },
        ProgressModel::Created(Err(error)) => BindStepModel::Failed(
            "CreateSession ("@ + error + ") \u{2014} GlobalShortcuts portal may be unavailable"@,
        ),
        ProgressModel::Bound { session, reply: Ok(_) } => BindStepModel::Done(session),
        ProgressModel::Bound { session, reply: Err(error) } => BindStepModel::Failed(
            "BindShortcuts: "@ + error,
        ),
    }
}

/// What a trigger says, where there is one.
pub open spec fn trigger_view(trigger: Option<String>) -> Option<Seq<char>> {
    match trigger {
        Some(text) => Some(text@),
        None => None,
    }
}

/// Whether `to_trigger` may give this trigger, or none, for a chord.
pub open spec fn gives_trigger<F: Fn(&Vec<u32>) -> Option<String>>(
    to_trigger: F,
    chord: Seq<u32>,
    trigger: Option<Seq<char>>,
) -> bool {
    exists|arg: Vec<u32>, got: Option<String>|
        arg@ == chord && #[trigger] call_ensures(to_trigger, (&arg,), got) && trigger
            == trigger_view(got)
}

/// Whether a step is the next one to bind a chord: the one for a trigger that `to_trigger` gives
/// for this chord, where the step needs a trigger.
pub open spec fn binds_chord<F: Fn(&Vec<u32>) -> Option<String>>(
    chord: Seq<u32>,
    to_trigger: F,
    progress: ProgressModel,
    step: BindStepModel,
) -> bool {
    if needs_trigger(progress) {
        exists|trigger: Option<Seq<char>>| #[trigger]
            gives_trigger(to_trigger, chord, trigger) && step == bind_step(trigger, progress)
    } else {
        step == bind_step(None, progress)
    }
}

/// Decides what to do next to bind a trigger, where there is one: create a session, then bind the
/// shortcut in it.
pub fn bind_trigger(trigger: Option<&str>, progress: BindProgress) -> (r: BindStep)
    ensures
        r@ == bind_step(
            match trigger {
                Some(text) => Some(text@),
                None => None,
            },
            progress@,
        ),
{
    match progress {
        BindProgress::Begin => match trigger {
            Some(_) => BindStep::Call(create_session()),
            None => BindStep::Failed(
                "internal: chord not bindable (should have been caught earlier)".to_owned(),
            ),
        },
        BindProgress::Created(Ok(results)) => match trigger {
            Some(text) => match find_string(&results, "session_handle") {
                Some(handle) => match object_path(handle.as_str()) {
                    Ok(session) => BindStep::Call(bind_shortcuts(session, text)),
                    Err(error) => BindStep::Failed(
                        "session_handle not an object path: ".to_owned().concat(error.as_str()),
                    ),
                },
                None => BindStep::Failed("CreateSession: no session_handle in results".to_owned()),
            },
            None => BindStep::Failed(
                "internal: chord not bindable (should have been caught earlier)".to_owned(),
            ),
        },
        BindProgress::Created(Err(error)) => BindStep::Failed(
            "CreateSession (".to_owned().concat(error.as_str()).concat(
                ") \u{2014} GlobalShortcuts portal may be unavailable",
            ),
        ),
        BindProgress::Bound { session, reply: Ok(_) } => BindStep::Done(session),
        BindProgress::Bound { session, reply: Err(error) } => BindStep::Failed(
            "BindShortcuts: ".to_owned().concat(error.as_str()),
        ),
    }
}

/// Decides what to do next to bind a chord: create a session, then bind the shortcut in it to the
/// trigger that `to_trigger` gives for this chord. Which trigger that is rests with `to_trigger`.
pub fn create_and_bind<F: Fn(&Vec<u32>) -> Option<String>>(
    chord: &Vec<u32>,
    to_trigger: F,
    progress: BindProgress,
) -> (r: BindStep)
    requires
        forall|c: &Vec<u32>| call_requires(to_trigger, (c,)),
    ensures
        binds_chord(chord@, to_trigger, progress@, r@),
        progress matches BindProgress::Created(Ok(results)) ==> exists|
            arg: Vec<u32>,
            got: Option<String>,
        |
            arg@ == chord@ && #[trigger] call_ensures(to_trigger, (&arg,), got) && r@ == (match got {
                Some(trigger) => step_after_create(trigger@, results@),
                None => no_trigger(),
            }),
        progress is Begin ==> exists|arg: Vec<u32>, got: Option<String>|
            arg@ == chord@ && #[trigger] call_ensures(to_trigger, (&arg,), got) && r@ == (match got {
                Some(_) => BindStepModel::Call(create_session_call()),
                None => BindStepModel::Failed(
                    "internal: chord not bindable (should have been caught earlier)"@,
                ),
            }),
        progress is Created && progress->Created_0 is Err ==> r is Failed && r->Failed_0@
            == "CreateSession ("@ + progress->Created_0->Err_0@
            + ") \u{2014} GlobalShortcuts portal may be unavailable"@,
        progress is Bound && progress->Bound_reply is Ok ==> r is Done && r->Done_0@
            == progress->Bound_session@,
        progress is Bound && progress->Bound_reply is Err ==> r is Failed && r->Failed_0@
            == "BindShortcuts: "@ + progress->Bound_reply->Err_0@,
{
    let asks: bool = match &progress {
        BindProgress::Begin => true,
        BindProgress::Created(Ok(_)) => true,
        _ => false,
    };
    if asks {
        let got: Option<String> = to_trigger(chord);
        assert(gives_trigger(to_trigger, chord@, trigger_view(got)));
        match &got {
            Some(text) => bind_trigger(Some(text.as_str()), progress),
            None => bind_trigger(None, progress),
        }
    } else {
        bind_trigger(None, progress)
    }
}

/// Both calls name, in their options, the token of the request object that their response comes
/// from.
pub proof fn law_calls_name_their_token(session: Seq<char>, trigger: Seq<char>)
    ensures
        create_session_call() matches RequestModel::CreateSession { handle_token, options }
            && options.contains(("handle_token"@, handle_token)),
        bind_shortcuts_call(session, trigger) matches RequestModel::BindShortcuts {
            handle_token,
            options,
            ..
        } && options.contains(("handle_token"@, handle_token)),
{
    assert(create_session_call()->CreateSession_options[0] == ("handle_token"@, "wf_create"@));
    assert(bind_shortcuts_call(session, trigger)->BindShortcuts_options[0] == (
        "handle_token"@,
        "wf_bind"@,
    ));
}

/// Where a step of binding a chord calls `BindShortcuts`, the session is the one whose handle the
/// portal gave, and the trigger is one that `to_trigger` gives for that very chord.
pub proof fn law_chord_is_bound_to_its_trigger<F: Fn(&Vec<u32>) -> Option<String>>(
    chord: Seq<u32>,
    to_trigger: F,
    progress: ProgressModel,
    session: Seq<char>,
    sent: Seq<char>,
)
    requires
        binds_chord(
            chord,
            to_trigger,
            progress,
            BindStepModel::Call(bind_shortcuts_call(session, sent)),
        ),
    ensures
        gives_trigger(to_trigger, chord, Some(sent)),
        progress matches ProgressModel::Created(Ok(results)) && string_result(
            results,
            "session_handle"@,
        ) == Some(session),
        portal::is_object_path(session),
{
    let call = bind_shortcuts_call(session, sent);
    let trigger = choose|trigger: Option<Seq<char>>| #[trigger]
        gives_trigger(to_trigger, chord, trigger) && BindStepModel::Call(call) == bind_step(
            trigger,
            progress,
        );
    let results = progress->Created_0->Ok_0;
    let handle = string_result(results, "session_handle"@)->0;
    assert(call == bind_shortcuts_call(handle, trigger->0));
    assert(call->session == session);
    assert(call->shortcuts[0].1[1] == ("preferred_trigger"@, sent));
    assert(bind_shortcuts_call(handle, trigger->0)->shortcuts[0].1[1] == (
        "preferred_trigger"@,
        trigger->0,
    ));
}

/// A chord without a trigger is never bound: the portal is not called for it.
pub proof fn law_chord_without_trigger_is_not_bound<F: Fn(&Vec<u32>) -> Option<String>>(
    chord: Seq<u32>,
    to_trigger: F,
    progress: ProgressModel,
    request: RequestModel,
)
    requires
        forall|trigger: Option<Seq<char>>|
            #![trigger gives_trigger(to_trigger, chord, trigger)]
            gives_trigger(to_trigger, chord, trigger) ==> trigger is None,
    ensures
        !binds_chord(chord, to_trigger, progress, BindStepModel::Call(request)),
{
}

/// How many calls are still ahead, at most.
pub open spec fn calls_left(progress: ProgressModel) -> nat {
    match progress {
        ProgressModel::Begin => 2,
        ProgressModel::Created(_) => 1,
        ProgressModel::Bound { .. } => 0,
    }
}

/// The calls that are made to bind a trigger from here on, and how it ends, where `replies` says
/// what each call gives.
pub open spec fn bind_run(
    trigger: Option<Seq<char>>,
    replies: spec_fn(RequestModel) -> Result<Seq<(String, Option<String>)>, Seq<char>>,
    progress: ProgressModel,
) -> (Seq<RequestModel>, BindStepModel)
    decreases calls_left(progress),
{
    match bind_step(trigger, progress) {
        BindStepModel::Call(request) => {
            let rest = bind_run(trigger, replies, request.answered(replies(request)));
            (seq![request] + rest.0, rest.1)
        },
        end => (Seq::<RequestModel>::empty(), end),
    }
}

/// Whatever the portal replies, binding a trigger ends, and a session ends up bound exactly where
/// there is a trigger, `CreateSession` gave that session's handle, which is an object path, and
/// `BindShortcuts` for that session and that trigger worked. The calls are then these two, in that
/// order.
pub proof fn law_bound_session_is_the_created_one(
    trigger: Option<Seq<char>>,
    replies: spec_fn(RequestModel) -> Result<Seq<(String, Option<String>)>, Seq<char>>,
    session: Seq<char>,
)
    ensures
        ({
            let (calls, end) = bind_run(trigger, replies, ProgressModel::Begin);
            &&& end is Done || end is Failed
            &&& end == BindStepModel::Done(session) <==> {
                &&& trigger is Some
                &&& replies(create_session_call()) matches Ok(results) && string_result(
                    results,
                    "session_handle"@,
                ) == Some(session)
                &&& portal::is_object_path(session)
                &&& replies(bind_shortcuts_call(session, trigger->0)) is Ok
            }
            &&& end == BindStepModel::Done(session) ==> calls == seq![
                create_session_call(),
                bind_shortcuts_call(session, trigger->0),
            ]
        }),
{
    reveal_with_fuel(bind_run, 4);
    let (calls, end) = bind_run(trigger, replies, ProgressModel::Begin);
    if end == BindStepModel::Done(session) {
        assert(calls =~= seq![
            create_session_call(),
            bind_shortcuts_call(session, trigger->0),
        ]);
    }
}

/// Binding a trigger fails at the first call that does not work, and makes no further call.
pub proof fn law_binding_stops_at_the_first_failure(
    trigger: Option<Seq<char>>,
    replies: spec_fn(RequestModel) -> Result<Seq<(String, Option<String>)>, Seq<char>>,
)
    ensures
        ({
            let (calls, end) = bind_run(trigger, replies, ProgressModel::Begin);
            &&& trigger is None ==> calls.len() == 0 && end == no_trigger()
            &&& trigger is Some ==> match replies(create_session_call()) {
                Err(_) => calls == seq![create_session_call()] && end == bind_step(
                    trigger,
                    ProgressModel::Created(replies(create_session_call())),
                ),
                Ok(results) => match step_after_create(trigger->0, results) {
                    BindStepModel::Call(request) => {
                        &&& calls == seq![create_session_call(), request]
                        &&& replies(request) matches Err(error) ==> end == BindStepModel::Failed(
                            "BindShortcuts: "@ + error,
                        )
                    },
                    failed => calls == seq![create_session_call()] && end == failed,
                },
            }
        }),
{
    reveal_with_fuel(bind_run, 4);
    let (calls, end) = bind_run(trigger, replies, ProgressModel::Begin);
    if trigger is Some {
        if let Ok(results) = replies(create_session_call()) {
            if let BindStepModel::Call(request) = step_after_create(trigger->0, results) {
                assert(calls =~= seq![create_session_call(), request]);
            } else {
                assert(calls =~= seq![create_session_call()]);
            }
        } else {
            assert(calls =~= seq![create_session_call()]);
        }
    }
}

/// A chord that is bound step by step, each reply taken to the next step, ends up in the session
/// whose handle `CreateSession` gave, and `BindShortcuts` for it worked, with a trigger of that
/// chord.
pub proof fn law_chord_ends_up_in_the_created_session<F: Fn(&Vec<u32>) -> Option<String>>(
    chord: Seq<u32>,
    to_trigger: F,
    create: RequestModel,
    created: Result<Seq<(String, Option<String>)>, Seq<char>>,
    bind: RequestModel,
    bound: Result<Seq<(String, Option<String>)>, Seq<char>>,
    session: Seq<char>,
)
    requires
        binds_chord(chord, to_trigger, ProgressModel::Begin, BindStepModel::Call(create)),
        binds_chord(chord, to_trigger, create.answered(created), BindStepModel::Call(bind)),
        binds_chord(chord, to_trigger, bind.answered(bound), BindStepModel::Done(session)),
    ensures
        create == create_session_call(),
        created matches Ok(results) && string_result(results, "session_handle"@) == Some(session),
        portal::is_object_path(session),
        bound is Ok,
        exists|trigger: Option<Seq<char>>| #[trigger]
            gives_trigger(to_trigger, chord, trigger) && trigger is Some && bind
                == bind_shortcuts_call(session, trigger->0),
{
}

/// The string under a name is the whole value of the first entry of that name, wherever it stands;
/// there is none where that value is no string, or no entry has the name.
pub proof fn law_string_result_is_the_first_entry(
    results: Seq<(String, Option<String>)>,
    name: Seq<char>,
    at: int,
)
    requires
        0 <= at <= results.len(),
        at < results.len() ==> results[at].0@ == name,
        forall|i: int| 0 <= i < at ==> (#[trigger] results[i]).0@ != name,
    ensures
        at < results.len() && results[at].1 is Some ==> string_result(results, name) == Some(
            results[at].1->0@,
        ),
        at < results.len() && results[at].1 is None ==> string_result(results, name) is None,
        at == results.len() ==> string_result(results, name) is None,
    decreases at,
{
    if at > 0 {
        assert(results[0].0@ != name);
        let rest = results.skip(1);
        assert forall|i: int| 0 <= i < at - 1 implies (#[trigger] rest[i]).0@ != name by {
            assert(rest[i] == results[i + 1]);
        }
        law_string_result_is_the_first_entry(rest, name, at - 1);
    }
}

/// What the two calls send, name by name: the tokens, the session and the trigger as they are, and
/// the one shortcut with its description.
pub proof fn law_calls_send_what_they_are_given(session: Seq<char>, trigger: Seq<char>)
    ensures
        create_session_call() == (RequestModel::CreateSession {
            handle_token: "wf_create"@,
            options: seq![
                ("handle_token"@, "wf_create"@),
                ("session_handle_token"@, "wf_session"@),
            ],
        }),
        bind_shortcuts_call(session, trigger) == (RequestModel::BindShortcuts {
            handle_token: "wf_bind"@,
            session,
            shortcuts: seq![
                (
                    "ptt"@,
                    seq![
                        ("description"@, "Wispr Flow push-to-talk"@),
                        ("preferred_trigger"@, trigger),
                    ],
                ),
            ],
            parent_window: ""@,
            options: seq![("handle_token"@, "wf_bind"@)],
        }),
{
}

/// Where the results of `CreateSession` have a first entry `session_handle` that is an object path,
/// the shortcut is bound in the session of that path, character for character, to the trigger as
/// it is.
pub proof fn law_shortcut_is_bound_in_the_session_of_the_handle(
    results: Seq<(String, Option<String>)>,
    at: int,
    handle: String,
    trigger: Seq<char>,
)
    requires
        0 <= at < results.len(),
        results[at].0@ == "session_handle"@,
        results[at].1 == Some(handle),
        forall|i: int| 0 <= i < at ==> (#[trigger] results[i]).0@ != "session_handle"@,
        portal::is_object_path(handle@),
    ensures
        bind_step(Some(trigger), ProgressModel::Created(Ok(results))) == BindStepModel::Call(
            RequestModel::BindShortcuts {
                handle_token: "wf_bind"@,
                session: handle@,
                shortcuts: seq![
                    (
                        "ptt"@,
                        seq![
                            ("description"@, "Wispr Flow push-to-talk"@),
                            ("preferred_trigger"@, trigger),
                        ],
                    ),
                ],
                parent_window: ""@,
                options: seq![("handle_token"@, "wf_bind"@)],
            },
        ),
        step_after_create(trigger, results) == bind_step(
            Some(trigger),
            ProgressModel::Created(Ok(results)),
        ),
{
    law_string_result_is_the_first_entry(results, "session_handle"@, at);
}

/// Where the results of `CreateSession` have no handle, or one that is no object path, binding
/// fails and says so.
pub proof fn law_results_without_a_handle_fail(
    results: Seq<(String, Option<String>)>,
    at: int,
    trigger: Seq<char>,
)
    requires
        0 <= at <= results.len(),
        at < results.len() ==> results[at].0@ == "session_handle"@,
        forall|i: int| 0 <= i < at ==> (#[trigger] results[i]).0@ != "session_handle"@,
        at < results.len() && results[at].1 is Some ==> !portal::is_object_path(results[at].1->0@),
    ensures
        bind_step(Some(trigger), ProgressModel::Created(Ok(results))) == if at < results.len()
            && results[at].1 is Some {
            BindStepModel::Failed("session_handle not an object path: "@ + "Invalid object path"@)
        } else {
            BindStepModel::Failed("CreateSession: no session_handle in results"@)
        },
        step_after_create(trigger, results) == bind_step(
            Some(trigger),
            ProgressModel::Created(Ok(results)),
        ),
{
    law_string_result_is_the_first_entry(results, "session_handle"@, at);
}

/// The other steps of binding: a session is created first; without a trigger nothing is called;
/// a call that fails ends it with the whole error in the message; a shortcut that was bound leaves
/// its session.
pub proof fn law_other_steps_of_binding(
    trigger: Option<Seq<char>>,
    results: Seq<(String, Option<String>)>,
    error: Seq<char>,
    session: Seq<char>,
)
    ensures
        trigger is Some ==> bind_step(trigger, ProgressModel::Begin) == BindStepModel::Call(
            RequestModel::CreateSession {
                handle_token: "wf_create"@,
                options: seq![
                    ("handle_token"@, "wf_create"@),
                    ("session_handle_token"@, "wf_session"@),
                ],
            },
        ),
        bind_step(None, ProgressModel::Begin) == BindStepModel::Failed(
            "internal: chord not bindable (should have been caught earlier)"@,
        ),
        bind_step(None, ProgressModel::Created(Ok(results))) == bind_step(
            None,
            ProgressModel::Begin,
        ),
        bind_step(trigger, ProgressModel::Created(Err(error))) == BindStepModel::Failed(
            "CreateSession ("@ + error + ") \u{2014} GlobalShortcuts portal may be unavailable"@,
        ),
        bind_step(trigger, ProgressModel::Bound { session, reply: Ok(results) })
            == BindStepModel::Done(session),
        bind_step(trigger, ProgressModel::Bound { session, reply: Err(error) })
            == BindStepModel::Failed("BindShortcuts: "@ + error),
{
}

/// A step to bind a chord that needs its trigger is the step for a trigger that came back when
/// `to_trigger` was asked for that very chord, key by key.
pub proof fn law_chord_is_asked_for_its_own_trigger<F: Fn(&Vec<u32>) -> Option<String>>(
    chord: Seq<u32>,
    to_trigger: F,
    progress: ProgressModel,
    step: BindStepModel,
)
    requires
        binds_chord(chord, to_trigger, progress, step),
        progress is Begin || progress is Created && progress->Created_0 is Ok,
    ensures
        exists|arg: Vec<u32>, got: Option<String>|
            {
                &&& arg@ == chord
                &&& #[trigger] call_ensures(to_trigger, (&arg,), got)
                &&& step == bind_step(
                    match got {
                        Some(text) => Some(text@),
                        None => None,
                    },
                    progress,
                )
            },
{
    let trigger = choose|trigger: Option<Seq<char>>| #[trigger]
        gives_trigger(to_trigger, chord, trigger) && step == bind_step(trigger, progress);
    let (arg, got) = choose|arg: Vec<u32>, got: Option<String>|
        arg@ == chord && #[trigger] call_ensures(to_trigger, (&arg,), got) && trigger
            == trigger_view(got);
    assert(call_ensures(to_trigger, (&arg,), got));
}

/// A reply is taken to the next step as it is: that of `CreateSession` alone, and that of
/// `BindShortcuts` with the session that the call named.
pub proof fn law_reply_is_taken_to_the_next_step(
    handle_token: Seq<char>,
    session: Seq<char>,
    shortcuts: Seq<(Seq<char>, Seq<(Seq<char>, Seq<char>)>)>,
    parent_window: Seq<char>,
    options: Seq<(Seq<char>, Seq<char>)>,
    reply: Result<Seq<(String, Option<String>)>, Seq<char>>,
)
    ensures
        (RequestModel::CreateSession { handle_token, options }).answered(reply)
            == ProgressModel::Created(reply),
        (RequestModel::BindShortcuts {
            handle_token,
            session,
            shortcuts,
            parent_window,
            options,
        }).answered(reply) == (ProgressModel::Bound { session, reply }),
        (RequestModel::CreateSession { handle_token, options }).token() == handle_token,
        (RequestModel::BindShortcuts {
            handle_token,
            session,
            shortcuts,
            parent_window,
            options,
        }).token() == handle_token,
{
}

/// A request says what it holds, pair by pair and character by character.
pub proof fn law_request_says_what_it_holds(
    handle_token: String,
    session: String,
    shortcuts: Vec<(String, Vec<(String, String)>)>,
    parent_window: String,
    options: Vec<(String, String)>,
    i: int,
    j: int,
)
    ensures
        (PortalRequest::CreateSession { handle_token, options })@ matches RequestModel::CreateSession {
            handle_token: token,
            options: said,
        } && {
            &&& token == handle_token@
            &&& said.len() == options@.len()
            &&& 0 <= i < options@.len() ==> said[i] == (options@[i].0@, options@[i].1@)
        },
        (PortalRequest::BindShortcuts { handle_token, session, shortcuts, parent_window, options })@
            matches RequestModel::BindShortcuts {
            handle_token: token,
            session: path,
            shortcuts: listed,
            parent_window: window,
            options: said,
        } && {
            &&& token == handle_token@
            &&& path == session@
            &&& window == parent_window@
            &&& said.len() == options@.len()
            &&& 0 <= i < options@.len() ==> said[i] == (options@[i].0@, options@[i].1@)
            &&& listed.len() == shortcuts@.len()
            &&& 0 <= i < shortcuts@.len() ==> {
                &&& listed[i].0 == shortcuts@[i].0@
                &&& listed[i].1.len() == shortcuts@[i].1@.len()
                &&& 0 <= j < shortcuts@[i].1@.len() ==> listed[i].1[j] == (
                    shortcuts@[i].1@[j].0@,
                    shortcuts@[i].1@[j].1@,
                )
            }
        },
{
}

/// A step and how far binding has come say what they hold.
pub proof fn law_binding_says_what_it_holds(
    request: PortalRequest,
    session: String,
    reason: String,
    results: PortalResults,
)
    ensures
        BindStep::Call(request)@ == BindStepModel::Call(request@),
        BindStep::Done(session)@ == BindStepModel::Done(session@),
        BindStep::Failed(reason)@ == BindStepModel::Failed(reason@),
        BindProgress::Begin@ == ProgressModel::Begin,
        BindProgress::Created(Ok(results))@ == ProgressModel::Created(Ok(results@)),
        BindProgress::Created(Err(reason))@ == ProgressModel::Created(Err(reason@)),
        (BindProgress::Bound { session, reply: Ok(results) })@ == (ProgressModel::Bound {
            session: session@,
            reply: Ok(results@),
        }),
        (BindProgress::Bound { session, reply: Err(reason) })@ == (ProgressModel::Bound {
            session: session@,
            reply: Err(reason@),
        }),
{
}

} // verus!
