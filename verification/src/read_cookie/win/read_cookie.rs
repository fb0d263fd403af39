use crate::read_cookie::ControlFlowChoice;
use crate::text::{contains, spec_contains};
use vstd::prelude::*;

verus! {

/// An event of the browser window, as far as the session tells events apart.
pub enum WindowSignal {
    /// The event loop has just started.
    Init,
    /// The user asked to close the window.
    CloseRequested,
    /// The interval timer's event.
    User,
    /// Any other event.
    Other,
}

/// What the event loop does besides choosing its control flow.
pub enum LoopAction {
    Nothing,
    /// Report that the browser has started.
    AnnounceStart,
    /// Ask the cookie manager for the cookies of the target URL.
    ReadCookies,
}

/// What the event loop does with one event.
pub struct LoopStep {
    pub control_flow: ControlFlowChoice,
    pub action: LoopAction,
}

/// The event loop's decision for one event: the start is announced, closing
/// the window ends the loop, the timer's event reads the cookies, and the
/// loop waits on anything else.
pub fn handle_event(signal: &WindowSignal) -> (step: LoopStep)
    ensures
        (step.control_flow is Exit) == (*signal is CloseRequested),
        (step.action is AnnounceStart) == (*signal is Init),
        (step.action is ReadCookies) == (*signal is User),
{
    match signal {
        WindowSignal::Init => LoopStep {
            control_flow: ControlFlowChoice::Wait,
            action: LoopAction::AnnounceStart,
        },
        WindowSignal::CloseRequested => LoopStep {
            control_flow: ControlFlowChoice::Exit,
            action: LoopAction::Nothing,
        },
        WindowSignal::User => LoopStep {
            control_flow: ControlFlowChoice::Wait,
            action: LoopAction::ReadCookies,
        },
        WindowSignal::Other => LoopStep {
            control_flow: ControlFlowChoice::Wait,
            action: LoopAction::Nothing,
        },
    }
}

/// What the reading loop does with what the channel gave it.
pub enum ReceiveStep {
    /// The channel is closed: wait a second, then receive again.
    WaitThenRetry,
    /// The cookie string did not match: receive the next one.
    Continue,
    /// The cookie string matched: the session is over, with this result.
    Done(String),
}

/// The reading loop's decision: a cookie string that the matcher accepts
/// ends the session with that string; any other keeps the loop going.
pub fn on_received<T: Fn(&String) -> bool>(received: Option<String>, matcher: &T) -> (step:
    ReceiveStep)
    requires
        received matches Some(s) ==> matcher.requires((&s,)),
    ensures
        received is None ==> step is WaitThenRetry,
        received matches Some(s) ==> (step is Done || step is Continue) && matcher.ensures(
            (&s,),
            step is Done,
        ) && (step matches ReceiveStep::Done(r) ==> r == s),
{
    match received {
        None => ReceiveStep::WaitThenRetry,
        Some(s) => {
            if matcher(&s) {
                ReceiveStep::Done(s)
            } else {
                ReceiveStep::Continue
            }
        },
    }
}

/// The matcher that `read_cookie` uses: the cookie string holds a session id.
pub fn has_session_id(cookie_str: &String) -> (r: bool)
    ensures
        r == spec_contains(cookie_str@, "sessionid"@),
{
    contains(cookie_str.as_str(), "sessionid")
}

/// A received entry that ends the reading loop: a cookie string that the
/// matcher accepted. An entry is what the channel gave and the matcher's
/// verdict on it (no verdict is asked when the channel gave nothing).
pub open spec fn spec_ends_reading(entry: (Option<String>, bool)) -> bool {
    entry.0 is Some && entry.1
}

/// The reading loop's result after a run of received entries, taken in turn
/// as `on_received` decides them: the first cookie string that the matcher
/// accepted, or nothing while none has been.
pub open spec fn spec_reading_result(received: Seq<(Option<String>, bool)>) -> Option<String>
    decreases received.len(),
{
    if received.len() == 0 {
        None
    } else if spec_ends_reading(received[0]) {
        received[0].0
    } else {
        spec_reading_result(received.drop_first())
    }
}

/// The position of the first entry that ends the reading loop, or the run's
/// length when none does.
pub open spec fn spec_first_ending(received: Seq<(Option<String>, bool)>) -> int
    decreases received.len(),
{
    if received.len() == 0 {
        0
    } else if spec_ends_reading(received[0]) {
        0
    } else {
        1 + spec_first_ending(received.drop_first())
    }
}

proof fn lemma_first_ending(received: Seq<(Option<String>, bool)>)
    ensures
        0 <= spec_first_ending(received) <= received.len(),
        spec_first_ending(received) < received.len() ==> spec_ends_reading(
            received[spec_first_ending(received)],
        ),
        forall|j: int|
            0 <= j < spec_first_ending(received) ==> !spec_ends_reading(#[trigger] received[j]),
        spec_reading_result(received) == if spec_first_ending(received) < received.len() {
            received[spec_first_ending(received)].0
        } else {
            None
        },
    decreases received.len(),
{
    if received.len() > 0 && !spec_ends_reading(received[0]) {
        let rest = received.drop_first();
        lemma_first_ending(rest);
        assert forall|j: int| 0 <= j < rest.len() implies rest[j] == received[j + 1] by {}
        assert forall|j: int|
            0 <= j < spec_first_ending(received) implies !spec_ends_reading(
            #[trigger] received[j],
        ) by {
            if j > 0 {
                assert(received[j] == rest[j - 1]);
            }
        }
    }
}

/// Over any run of received entries, each judged by the matcher, the reading
/// loop ends with the first cookie string that the matcher accepted, and the
/// matcher rejected every cookie string received before it; the loop is still
/// running exactly when the matcher accepted none of them.
pub proof fn lemma_reading_outcome<T: Fn(&String) -> bool>(
    received: Seq<(Option<String>, bool)>,
    matcher: T,
)
    requires
        forall|i: int|
            0 <= i < received.len() ==> ((#[trigger] received[i]).0 matches Some(s)
                ==> matcher.ensures((&s,), received[i].1)),
    ensures
        (spec_reading_result(received) is None) == (forall|j: int|
            0 <= j < received.len() ==> !spec_ends_reading(#[trigger] received[j])),
        spec_reading_result(received) matches Some(s) ==> matcher.ensures((&s,), true),
        forall|k: int|
            0 <= k < received.len() && spec_ends_reading(#[trigger] received[k]) && (forall|j: int|
                0 <= j < k ==> !spec_ends_reading(#[trigger] received[j])) ==> spec_reading_result(
                received,
            ) == received[k].0,
        forall|j: int|
            0 <= j < spec_first_ending(received) ==> ((#[trigger] received[j]).0 matches Some(s)
                ==> matcher.ensures((&s,), false)),
{
    lemma_first_ending(received);
    let k = spec_first_ending(received);
    if k < received.len() {
        assert(spec_ends_reading(received[k]));
        assert(received[k].0 matches Some(s) ==> matcher.ensures((&s,), received[k].1));
    }
    assert forall|k2: int|
        0 <= k2 < received.len() && spec_ends_reading(#[trigger] received[k2]) && (forall|j: int|
            0 <= j < k2 ==> !spec_ends_reading(#[trigger] received[j])) implies spec_reading_result(
        received,
    ) == received[k2].0 by {
        if k < k2 {
            assert(spec_ends_reading(received[k]));
        }
        if k2 < k {
            assert(!spec_ends_reading(received[k2]));
        }
    }
    assert forall|j: int|
        0 <= j < spec_first_ending(received) implies ((#[trigger] received[j]).0 matches Some(s)
        ==> matcher.ensures((&s,), false)) by {
        assert(!spec_ends_reading(received[j]));
    }
}

/// With `has_session_id` as the matcher (as `read_cookie` has it), a cookie
/// string that ends the reading loop holds `sessionid`.
pub proof fn lemma_read_cookie_result_has_session_id(received: Option<String>, step: ReceiveStep)
    requires
        received matches Some(s) ==> call_ensures(has_session_id, (&s,), step is Done),
        received is None ==> step is WaitThenRetry,
    ensures
        step matches ReceiveStep::Done(_) ==> received matches Some(s) && spec_contains(
            s@,
            "sessionid"@,
        ),
{
}

/// With `has_session_id` as the matcher (as `read_cookie` has it), the
/// reading loop's result over any run of received entries holds `sessionid`.
pub proof fn lemma_read_cookie_run_has_session_id(received: Seq<(Option<String>, bool)>)
    requires
        forall|i: int|
            0 <= i < received.len() ==> ((#[trigger] received[i]).0 matches Some(s) ==> call_ensures(
                has_session_id,
                (&s,),
                received[i].1,
            )),
    ensures
        spec_reading_result(received) matches Some(s) ==> spec_contains(s@, "sessionid"@),
{
    lemma_reading_outcome(received, has_session_id);
}

} // verus!
