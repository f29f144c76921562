//! One method call to the portal.
//!
//! A portal method answers in two parts: the call returns at once, and the result comes later in a
//! `Response` signal of a request object whose path both sides derive from the caller's bus name
//! and a token of its choice. So the caller subscribes to the signal, makes the call, and waits.

use vstd::prelude::*;

use crate::number;
use crate::number::push_decimal;
use crate::portal;
use crate::portal::request_path;

verus! {

/// The method names of a portal conversation.
#[derive(Debug, Clone, Copy, PartialEq, Eq, Structural)]
pub enum PortalMethod {
    CreateSession,
    BindShortcuts,
}

impl PortalMethod {
    /// The name of the method on the bus.
    pub open spec fn text(self) -> Seq<char> {
        match self {
            PortalMethod::CreateSession => "CreateSession"@,
            PortalMethod::BindShortcuts => "BindShortcuts"@,
        }
    }

    /// The name of the method on the bus.
    pub fn name(&self) -> (r: &'static str)
        ensures
            r@ == self.text(),
            *self == PortalMethod::CreateSession ==> r@ == "CreateSession"@,
            *self == PortalMethod::BindShortcuts ==> r@ == "BindShortcuts"@,
    {
        match self {
            PortalMethod::CreateSession => "CreateSession",
            PortalMethod::BindShortcuts => "BindShortcuts",
        }
    }
}

/// The results of a portal method by name; `None` for a value that is not a string.
pub type PortalResults = Vec<(String, Option<String>)>;

/// How far a call has come. An error is given by its text.
pub enum CallProgress {
    /// Nothing was done yet.
    Begin,
    /// The request object was opened, or could not be.
    Opened(Result<(), String>),
    /// The `Response` signal was subscribed to, or could not be.
    Subscribed(Result<(), String>),
    /// The method was called, or could not be.
    Called(Result<(), String>),
    /// The code and the results of the response came in, or could not be decoded.
    Answered(Result<(u32, PortalResults), String>),
    /// The stream of signals ended without a response.
    Ended,
}

/// What to do next in a call.
pub enum CallStep {
    /// Open the request object at this path.
    Open(String),
    /// Subscribe to its `Response` signal.
    Subscribe,
    /// Call the method.
    Call,
    /// Wait for the response.
    Await,
    /// The call gave these results, or failed for this reason.
    Done(Result<PortalResults, String>),
}

/// What a [`CallStep`] says.
pub enum CallStepModel {
    Open(Seq<char>),
    Subscribe,
    Call,
    Await,
    Done(Result<Seq<(String, Option<String>)>, Seq<char>>),
}

impl View for CallStep {
    type V = CallStepModel;

    open spec fn view(&self) -> CallStepModel {
        match *self {
            CallStep::Open(path) => CallStepModel::Open(path@),
            CallStep::Subscribe => CallStepModel::Subscribe,
            CallStep::Call => CallStepModel::Call,
            CallStep::Await => CallStepModel::Await,
            CallStep::Done(Ok(results)) => CallStepModel::Done(Ok(results@)),
            CallStep::Done(Err(reason)) => CallStepModel::Done(Err(reason@)),
        }
    }
}

/// What a response means: code 0 is success, 1 is a refusal by the user, and anything else another
/// failure.
pub open spec fn response_result(
    method: PortalMethod,
    code: u32,
    results: Seq<(String, Option<String>)>,
) -> Result<Seq<(String, Option<String>)>, Seq<char>> {
    if code == 0 {
        Ok(results)
    } else if code == 1 {
        Err(method.text() + " cancelled by user"@)
    } else {
        Err(method.text() + " failed (response code "@ + number::decimal(code as nat) + ")"@)
    }
}

/// What to do next in a call of `method` by `unique`, with this token.
pub open spec fn call_step(
    unique: Seq<char>,
    token: Seq<char>,
    method: PortalMethod,
    progress: CallProgress,
) -> CallStepModel {
    match progress {
        CallProgress::Begin => CallStepModel::Open(portal::request_object(unique, token)),
        CallProgress::Opened(Ok(_)) => CallStepModel::Subscribe,
        CallProgress::Opened(Err(error)) => CallStepModel::Done(
            Err("request proxy: "@ + error@),
        ),
        CallProgress::Subscribed(Ok(_)) => CallStepModel::Call,
        CallProgress::Subscribed(Err(error)) => CallStepModel::Done(
            Err("subscribe Response: "@ + error@),
        ),
        CallProgress::Called(Ok(_)) => CallStepModel::Await,
        CallProgress::Called(Err(error)) => CallStepModel::Done(
            Err(method.text() + " call: "@ + error@),
        ),
        CallProgress::Answered(Ok((code, results))) => CallStepModel::Done(
            response_result(method, code, results@),
        ),
        CallProgress::Answered(Err(error)) => CallStepModel::Done(
            Err(method.text() + " response decode: "@ + error@),
        ),
        CallProgress::Ended => CallStepModel::Done(
            Err(method.text() + ": response stream ended"@),
        ),
    }
}

/// Decides what to do next in a call of `method` by `unique`, with this handle token: open the
/// request object, subscribe to its response, make the call, and wait. The results are those of a
/// response with code 0; anything else is an error, with a message that says what went wrong.
pub fn portal_call(
    unique: &str,
    handle_token: &str,
    method: PortalMethod,
    progress: CallProgress,
) -> (r: CallStep)
    ensures
        r@ == call_step(unique@, handle_token@, method, progress),
        progress is Begin ==> r is Open && r->Open_0@ == portal::request_object(
            unique@,
            handle_token@,
        ),
        progress is Opened && progress->Opened_0 is Ok ==> r is Subscribe,
        progress is Subscribed && progress->Subscribed_0 is Ok ==> r is Call,
        progress is Called && progress->Called_0 is Ok ==> r is Await,
        progress is Answered && progress->Answered_0 is Ok && progress->Answered_0->Ok_0.0 == 0
            ==> r == CallStep::Done(Ok(progress->Answered_0->Ok_0.1)),
{
    let name: String = method.name().to_owned();
    match progress {
        CallProgress::Begin => CallStep::Open(request_path(unique, handle_token)),
        CallProgress::Opened(Ok(_)) => CallStep::Subscribe,
        CallProgress::Opened(Err(error)) => CallStep::Done(
            Err("request proxy: ".to_owned().concat(error.as_str())),
        ),
        CallProgress::Subscribed(Ok(_)) => CallStep::Call,
        CallProgress::Subscribed(Err(error)) => CallStep::Done(
            Err("subscribe Response: ".to_owned().concat(error.as_str())),
        ),
        CallProgress::Called(Ok(_)) => CallStep::Await,
        CallProgress::Called(Err(error)) => CallStep::Done(
            Err(name.concat(" call: ").concat(error.as_str())),
        ),
        CallProgress::Answered(Ok((code, results))) => {
            if code == 0 {
                CallStep::Done(Ok(results))
            } else if code == 1 {
                CallStep::Done(Err(name.concat(" cancelled by user")))
            } else {
                let mut message: String = name.concat(" failed (response code ");
                push_decimal(&mut message, code as u64);
                CallStep::Done(Err(message.concat(")")))
            }
        },
        CallProgress::Answered(Err(error)) => CallStep::Done(
            Err(name.concat(" response decode: ").concat(error.as_str())),
        ),
        CallProgress::Ended => CallStep::Done(Err(name.concat(": response stream ended"))),
    }
}

/// The method is called only once its response was subscribed to, so the response is not missed.
pub proof fn law_subscribes_before_calling(
    unique: Seq<char>,
    token: Seq<char>,
    method: PortalMethod,
    progress: CallProgress,
)
    requires
        call_step(unique, token, method, progress) == CallStepModel::Call,
    ensures
        progress matches CallProgress::Subscribed(Ok(_)),
{
}

/// A call has results only where the response came in with code 0, and they are the response's.
pub proof fn law_results_need_code_zero(
    unique: Seq<char>,
    token: Seq<char>,
    method: PortalMethod,
    progress: CallProgress,
    results: Seq<(String, Option<String>)>,
)
    requires
        call_step(unique, token, method, progress) == CallStepModel::Done(Ok(results)),
    ensures
        progress matches CallProgress::Answered(Ok((code, given))) && code == 0 && given@
            == results,
{
}

/// How each part of a call turns out, where it is tried.
pub struct CallOutcomes {
    /// Opening the request object.
    pub opened: Result<(), String>,
    /// Subscribing to its `Response` signal.
    pub subscribed: Result<(), String>,
    /// Calling the method.
    pub called: Result<(), String>,
    /// Waiting for the response; `None` where the stream of signals ends without one.
    pub answered: Option<Result<(u32, PortalResults), String>>,
}

impl CallOutcomes {
    /// How far a call has come once this step was taken.
    pub open spec fn after(self, step: CallStepModel) -> CallProgress {
        match step {
            CallStepModel::Open(_) => CallProgress::Opened(self.opened),
            CallStepModel::Subscribe => CallProgress::Subscribed(self.subscribed),
            CallStepModel::Call => CallProgress::Called(self.called),
            _ => match self.answered {
                Some(answer) => CallProgress::Answered(answer),
                None => CallProgress::Ended,
            },
        }
    }
}

/// How many steps of a call are still ahead, at most.
pub open spec fn call_steps_left(progress: CallProgress) -> nat {
    match progress {
        CallProgress::Begin => 4,
        CallProgress::Opened(_) => 3,
        CallProgress::Subscribed(_) => 2,
        CallProgress::Called(_) => 1,
        _ => 0,
    }
}

/// The steps of a call from here on, and the last one, which ends it.
pub open spec fn call_run(
    unique: Seq<char>,
    token: Seq<char>,
    method: PortalMethod,
    outcomes: CallOutcomes,
    progress: CallProgress,
) -> (Seq<CallStepModel>, CallStepModel)
    decreases call_steps_left(progress),
{
    match call_step(unique, token, method, progress) {
        CallStepModel::Done(result) => (Seq::<CallStepModel>::empty(), CallStepModel::Done(result)),
        step => {
            let rest = call_run(unique, token, method, outcomes, outcomes.after(step));
            (seq![step] + rest.0, rest.1)
        },
    }
}

/// The result of a whole call: what the response means, where every part of the call before it
/// works, and otherwise the error of the first part that does not.
pub open spec fn call_result(method: PortalMethod, outcomes: CallOutcomes) -> Result<
    Seq<(String, Option<String>)>,
    Seq<char>,
> {
    match (outcomes.opened, outcomes.subscribed, outcomes.called, outcomes.answered) {
        (Err(error), _, _, _) => Err("request proxy: "@ + error@),
        (_, Err(error), _, _) => Err("subscribe Response: "@ + error@),
        (_, _, Err(error), _) => Err(method.text() + " call: "@ + error@),
        (_, _, _, None) => Err(method.text() + ": response stream ended"@),
        (_, _, _, Some(Err(error))) => Err(method.text() + " response decode: "@ + error@),
        (_, _, _, Some(Ok((code, results)))) => response_result(method, code, results@),
    }
}

/// A call opens the request object, subscribes, calls and waits, in that order, up to the first
/// part that does not work, and ends with the result of the whole call.
pub proof fn law_call_runs_in_order(
    unique: Seq<char>,
    token: Seq<char>,
    method: PortalMethod,
    outcomes: CallOutcomes,
)
    ensures
        ({
            let (steps, end) = call_run(unique, token, method, outcomes, CallProgress::Begin);
            let all = seq![
                CallStepModel::Open(portal::request_object(unique, token)),
                CallStepModel::Subscribe,
                CallStepModel::Call,
                CallStepModel::Await,
            ];
            &&& steps == all.take(
                if outcomes.opened is Err {
                    1
                } else if outcomes.subscribed is Err {
                    2
                } else if outcomes.called is Err {
                    3
                } else {
                    4
                },
            )
            &&& end == CallStepModel::Done(call_result(method, outcomes))
        }),
{
    reveal_with_fuel(call_run, 5);
    let (steps, end) = call_run(unique, token, method, outcomes, CallProgress::Begin);
    let all = seq![
        CallStepModel::Open(portal::request_object(unique, token)),
        CallStepModel::Subscribe,
        CallStepModel::Call,
        CallStepModel::Await,
    ];
    if outcomes.opened is Err {
        assert(steps =~= all.take(1));
    } else if outcomes.subscribed is Err {
        assert(steps =~= all.take(2));
    } else if outcomes.called is Err {
        assert(steps =~= all.take(3));
    } else {
        assert(steps =~= all.take(4));
    }
}

/// A whole call has results exactly where opening, subscribing and calling worked and the response
/// came in with code 0 and those results.
pub proof fn law_call_succeeds_with_code_zero(
    unique: Seq<char>,
    token: Seq<char>,
    method: PortalMethod,
    outcomes: CallOutcomes,
    results: Seq<(String, Option<String>)>,
)
    ensures
        call_run(unique, token, method, outcomes, CallProgress::Begin).1 == CallStepModel::Done(
            Ok(results),
        ) <==> {
            &&& outcomes.opened is Ok
            &&& outcomes.subscribed is Ok
            &&& outcomes.called is Ok
            &&& outcomes.answered matches Some(Ok((code, given))) && code == 0 && given@ == results
        },
{
    law_call_runs_in_order(unique, token, method, outcomes);
}

/// Each part of a call that works leads to the next: opening the request object of the caller and
/// its token, subscribing, calling, waiting.
pub proof fn law_a_part_that_works_leads_to_the_next(
    unique: Seq<char>,
    token: Seq<char>,
    method: PortalMethod,
)
    ensures
        call_step(unique, token, method, CallProgress::Begin) == CallStepModel::Open(
            portal::request_object(unique, token),
        ),
        call_step(unique, token, method, CallProgress::Opened(Ok(())))
            == CallStepModel::Subscribe,
        call_step(unique, token, method, CallProgress::Subscribed(Ok(()))) == CallStepModel::Call,
        call_step(unique, token, method, CallProgress::Called(Ok(()))) == CallStepModel::Await,
{
}

/// A part of a call that does not work ends it, with a message that tells which part it was, for
/// the method where it has one, and the whole of the error.
pub proof fn law_a_part_that_fails_ends_the_call(
    unique: Seq<char>,
    token: Seq<char>,
    method: PortalMethod,
    error: String,
)
    ensures
        ({
            let name = match method {
                PortalMethod::CreateSession => "CreateSession"@,
                PortalMethod::BindShortcuts => "BindShortcuts"@,
            };
            &&& method.text() == name
            &&& call_step(unique, token, method, CallProgress::Opened(Err(error)))
                == CallStepModel::Done(Err("request proxy: "@ + error@))
            &&& call_step(unique, token, method, CallProgress::Subscribed(Err(error)))
                == CallStepModel::Done(Err("subscribe Response: "@ + error@))
            &&& call_step(unique, token, method, CallProgress::Called(Err(error)))
                == CallStepModel::Done(Err(name + " call: "@ + error@))
            &&& call_step(unique, token, method, CallProgress::Answered(Err(error)))
                == CallStepModel::Done(Err(name + " response decode: "@ + error@))
            &&& call_step(unique, token, method, CallProgress::Ended) == CallStepModel::Done(
                Err(name + ": response stream ended"@),
            )
        }),
{
}

/// A response with code 0 gives its results, all of them and in order; with code 1 the call was
/// cancelled, and with any other code it failed, with the code in base ten in the message.
pub proof fn law_response_code_decides(
    unique: Seq<char>,
    token: Seq<char>,
    method: PortalMethod,
    code: u32,
    results: PortalResults,
)
    ensures
        ({
            let name = match method {
                PortalMethod::CreateSession => "CreateSession"@,
                PortalMethod::BindShortcuts => "BindShortcuts"@,
            };
            let step = call_step(unique, token, method, CallProgress::Answered(Ok((code, results))));
            &&& code == 0 ==> step == CallStepModel::Done(Ok(results@))
            &&& code == 1 ==> step == CallStepModel::Done(Err(name + " cancelled by user"@))
            &&& code > 1 ==> step == CallStepModel::Done(
                Err(name + " failed (response code "@ + number::decimal(code as nat) + ")"@),
            )
        }),
{
}

/// A step says what it holds, character by character and result by result.
pub proof fn law_call_step_says_what_it_holds(
    path: String,
    results: PortalResults,
    reason: String,
)
    ensures
        CallStep::Open(path)@ == CallStepModel::Open(path@),
        CallStep::Subscribe@ == CallStepModel::Subscribe,
        CallStep::Call@ == CallStepModel::Call,
        CallStep::Await@ == CallStepModel::Await,
        CallStep::Done(Ok(results))@ == CallStepModel::Done(Ok(results@)),
        CallStep::Done(Err(reason))@ == CallStepModel::Done(Err(reason@)),
{
}

} // verus!
