use super::user_event::{CookieReadEvent, EventType};
use crate::read_cookie::ControlFlowChoice;
use vstd::prelude::*;

verus! {

/// What the interval timer does at a tick.
pub enum TimerStep {
    /// A matching cookie string has been stored: the timer stops.
    Stop,
    /// Nothing stored yet: send this event to the event loop.
    Send(CookieReadEvent),
}

/// The timer stops exactly when a cookie string has been stored.
pub open spec fn spec_timer_stops(returned: Option<String>) -> bool {
    returned is Some
}

/// The decision of the interval timer at each tick: stop once a matching
/// cookie string has been stored, else ask the event loop to read the cookies.
pub fn timer_step(returned: &Option<String>) -> (step: TimerStep)
    ensures
        (step is Stop) == spec_timer_stops(*returned),
        (step is Stop) == (*returned is Some),
        step matches TimerStep::Send(e) ==> e.m_type is CookieRead,
{
    match returned {
        Some(_) => TimerStep::Stop,
        None => TimerStep::Send(CookieReadEvent { m_type: EventType::CookieRead }),
    }
}

/// An event of the browser window, as far as the session tells events apart.
pub enum WindowSignal {
    /// The user asked to close the window.
    CloseRequested,
    /// One of the session's own events.
    User(CookieReadEvent),
    /// Any other event.
    Other,
}

/// What the event loop does with one event.
pub struct LoopStep {
    pub control_flow: ControlFlowChoice,
    /// Ask the browser's cookie store for all its cookies.
    pub fetch_cookies: bool,
}

/// The events that end the event loop: the window's close request and the
/// `Finish` event.
pub open spec fn spec_ends_loop(signal: WindowSignal) -> bool {
    match signal {
        WindowSignal::CloseRequested => true,
        WindowSignal::User(e) => e.m_type is Finish,
        WindowSignal::Other => false,
    }
}

/// The events on which the loop asks the cookie store for its cookies.
pub open spec fn spec_asks_for_cookies(signal: WindowSignal) -> bool {
    match signal {
        WindowSignal::User(e) => e.m_type is CookieRead,
        _ => false,
    }
}

/// The event loop's decision for one event: closing the window or the
/// `Finish` event ends the loop; a `CookieRead` event asks the cookie store
/// for its cookies; the loop waits on anything else.
pub fn handle_event(signal: &WindowSignal) -> (step: LoopStep)
    ensures
        (step.control_flow is Exit) == spec_ends_loop(*signal),
        step.fetch_cookies == spec_asks_for_cookies(*signal),
{
    match signal {
        WindowSignal::CloseRequested => LoopStep {
            control_flow: ControlFlowChoice::Exit,
            fetch_cookies: false,
        },
        WindowSignal::User(e) => match e.m_type {
            EventType::CookieRead => LoopStep {
                control_flow: ControlFlowChoice::Wait,
                fetch_cookies: true,
            },
            EventType::Finish => LoopStep {
                control_flow: ControlFlowChoice::Exit,
                fetch_cookies: false,
            },
        },
        WindowSignal::Other => LoopStep {
            control_flow: ControlFlowChoice::Wait,
            fetch_cookies: false,
        },
    }
}

/// The stored cookie string after the cookie callback has handled
/// `cookie_str`, which the matcher did or did not accept.
pub open spec fn spec_store_step(before: Option<String>, cookie_str: String, matched: bool) -> Option<
    String,
> {
    if matched {
        Some(cookie_str)
    } else {
        before
    }
}

/// The cookie callback: the matcher judges the cookie string just read; if it
/// accepts it, the string is stored (replacing any earlier one) and a `Finish`
/// event is handed back for the event loop; else nothing changes.
pub fn store_if_matched<T: Fn(&String) -> bool>(
    returned: &mut Option<String>,
    cookie_str: String,
    matcher: &T,
) -> (finish: Option<CookieReadEvent>)
    requires
        matcher.requires((&cookie_str,)),
    ensures
        matcher.ensures((&cookie_str,), finish is Some),
        *final(returned) == spec_store_step(*old(returned), cookie_str, finish is Some),
        finish is Some ==> *final(returned) == Some(cookie_str),
        finish is None ==> *final(returned) == *old(returned),
        finish matches Some(e) ==> e.m_type is Finish,
{
    if matcher(&cookie_str) {
        *returned = Some(cookie_str);
        Some(CookieReadEvent { m_type: EventType::Finish })
    } else {
        None
    }
}

/// What the session gives back once its event loop has ended: the stored
/// cookie string, or the empty string when the window was closed first.
pub open spec fn spec_session_result(returned: Option<String>) -> Seq<char> {
    match returned {
        Some(s) => s@,
        None => seq![],
    }
}

/// Ends the session once its event loop has ended: gives back the stored
/// cookie string, or the empty string when the window was closed first. In
/// that case the empty string is stored, so that the store is never empty
/// afterwards and the interval timer stops at its next tick; a stored string
/// stays as it is.
pub fn finish_session(returned: &mut Option<String>) -> (res: String)
    ensures
        res@ == spec_session_result(*old(returned)),
        *old(returned) matches Some(s) ==> res@ == s@,
        *old(returned) is None ==> res@ == Seq::<char>::empty(),
        spec_timer_stops(*final(returned)),
        *final(returned) is Some,
        *old(returned) is Some ==> *final(returned) == *old(returned),
        *old(returned) is None ==> (*final(returned) matches Some(e) && e@ == Seq::<char>::empty()),
{
    match returned {
        Some(s) => s.clone(),
        None => {
            let res = String::new();
            *returned = Some(String::new());
            res
        },
    }
}

/// Every stored cookie string is one that the matcher accepted.
pub open spec fn spec_accepted<T: Fn(&String) -> bool>(returned: Option<String>, matcher: T) -> bool {
    returned matches Some(s) ==> matcher.ensures((&s,), true)
}

/// The stored cookie string after the cookie callback has handled each read
/// in turn: a read is the cookie string and whether the matcher accepted it.
pub open spec fn spec_run_callbacks(before: Option<String>, reads: Seq<(String, bool)>) -> Option<
    String,
>
    decreases reads.len(),
{
    if reads.len() == 0 {
        before
    } else {
        spec_store_step(
            spec_run_callbacks(before, reads.drop_last()),
            reads.last().0,
            reads.last().1,
        )
    }
}

/// The position of the last read that the matcher accepted, or -1.
pub open spec fn spec_last_accepted(reads: Seq<(String, bool)>) -> int
    decreases reads.len(),
{
    if reads.len() == 0 {
        -1
    } else if reads.last().1 {
        reads.len() - 1
    } else {
        spec_last_accepted(reads.drop_last())
    }
}

proof fn lemma_last_accepted(reads: Seq<(String, bool)>)
    ensures
        -1 <= spec_last_accepted(reads) < reads.len(),
        spec_last_accepted(reads) >= 0 ==> reads[spec_last_accepted(reads)].1,
        forall|j: int| spec_last_accepted(reads) < j < reads.len() ==> !(#[trigger] reads[j]).1,
        spec_run_callbacks(None, reads) == if spec_last_accepted(reads) < 0 {
            None
        } else {
            Some(reads[spec_last_accepted(reads)].0)
        },
    decreases reads.len(),
{
    if reads.len() > 0 {
        let init = reads.drop_last();
        lemma_last_accepted(init);
        assert forall|j: int| 0 <= j < init.len() implies init[j] == reads[j] by {}
    }
}

/// A session starts with nothing stored. After any run of cookie reads, each
/// judged by the matcher, the stored string is the one of the last read that
/// the matcher accepted, so it is one that the matcher accepted; nothing is
/// stored (the timer keeps ticking and the session's result is the empty
/// string) exactly when the matcher accepted none of the reads.
pub proof fn lemma_session_outcome<T: Fn(&String) -> bool>(reads: Seq<(String, bool)>, matcher: T)
    requires
        forall|i: int| 0 <= i < reads.len() ==> matcher.ensures((&(#[trigger] reads[i]).0,), reads[i].1),
    ensures
        spec_accepted(spec_run_callbacks(None, reads), matcher),
        (spec_run_callbacks(None, reads) is None) == (forall|i: int|
            0 <= i < reads.len() ==> !(#[trigger] reads[i]).1),
        forall|i: int|
            0 <= i < reads.len() && (#[trigger] reads[i]).1 && (forall|j: int|
                i < j < reads.len() ==> !(#[trigger] reads[j]).1) ==> spec_run_callbacks(None, reads)
                == Some(reads[i].0),
{
    lemma_last_accepted(reads);
    let k = spec_last_accepted(reads);
    if k >= 0 {
        assert(reads[k].1);
        assert(matcher.ensures((&reads[k].0,), reads[k].1));
    }
    assert forall|i: int|
        0 <= i < reads.len() && (#[trigger] reads[i]).1 && (forall|j: int|
            i < j < reads.len() ==> !(#[trigger] reads[j]).1) implies spec_run_callbacks(None, reads)
        == Some(reads[i].0) by {
        if k > i {
            assert(!reads[k].1);
        }
        if k < i {
            assert(!reads[i].1);
        }
    }
}

/// Once a cookie string has been stored, the cookie callback never empties
/// the store again, so the interval timer stays stopped.
pub proof fn lemma_timer_stays_stopped(before: Option<String>, cookie_str: String, matched: bool)
    requires
        spec_timer_stops(before),
    ensures
        spec_timer_stops(spec_store_step(before, cookie_str, matched)),
{
}

/// The session's result is the whole stored cookie string, character for
/// character, whatever its length; with nothing stored it is empty.
pub proof fn lemma_session_result_is_stored_string(s: String)
    ensures
        spec_session_result(Some(s)) == s@,
        spec_session_result(Some(s)).len() == s@.len(),
        spec_session_result(None) == Seq::<char>::empty(),
{
}

/// The event loop ends on the window's close request and on the `Finish`
/// event and on nothing else, and reads the cookie store on the `CookieRead`
/// event and on nothing else.
pub proof fn lemma_loop_decisions(e: CookieReadEvent)
    ensures
        spec_ends_loop(WindowSignal::CloseRequested),
        !spec_ends_loop(WindowSignal::Other),
        spec_ends_loop(WindowSignal::User(e)) == (e.m_type is Finish),
        !spec_asks_for_cookies(WindowSignal::CloseRequested),
        !spec_asks_for_cookies(WindowSignal::Other),
        spec_asks_for_cookies(WindowSignal::User(e)) == (e.m_type is CookieRead),
{
}

/// The timer stops exactly when a cookie string is stored, and the cookie
/// callback stores exactly the accepted string and leaves the store alone
/// otherwise.
pub proof fn lemma_store_and_timer(before: Option<String>, cookie_str: String, matched: bool)
    ensures
        spec_timer_stops(before) == (before is Some),
        matched ==> spec_store_step(before, cookie_str, matched) == Some(cookie_str),
        !matched ==> spec_store_step(before, cookie_str, matched) == before,
{
}

} // verus!
