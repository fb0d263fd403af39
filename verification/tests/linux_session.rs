use get_cookies::cookie_format::{cookie_string, CookiePair};
use get_cookies::read_cookie::linux::{
    finish_session, handle_event, store_if_matched, timer_step, CookieReadEvent, EventType,
    TimerStep, WindowSignal,
};
use get_cookies::read_cookie::ControlFlowChoice;

fn pair(name: &str, value: &str) -> CookiePair {
    CookiePair { name: name.to_string(), value: value.to_string() }
}

/// Runs the session's decisions over the cookie lists that successive reads of
/// the cookie store give, as the event loop does, until the loop exits or the
/// reads run out (the window is closed). Gives the session's result and the
/// store afterwards.
fn run_session<T: Fn(&String) -> bool>(reads: Vec<Vec<CookiePair>>, matcher: &T) -> (String, Option<String>) {
    let mut returned: Option<String> = None;
    let mut pending: Vec<CookieReadEvent> = Vec::new();
    for list in reads {
        match timer_step(&returned) {
            TimerStep::Stop => {}
            TimerStep::Send(e) => pending.push(e),
        }
        let mut exit = false;
        while let Some(event) = pending.pop() {
            let step = handle_event(&WindowSignal::User(event));
            if step.fetch_cookies {
                if let Some(finish) = store_if_matched(&mut returned, cookie_string(&list), matcher) {
                    pending.push(finish);
                }
            }
            if matches!(step.control_flow, ControlFlowChoice::Exit) {
                exit = true;
                break;
            }
        }
        if exit {
            break;
        }
    }
    let res = finish_session(&mut returned);
    (res, returned)
}

#[test]
fn simple() {
    let reads = vec![
        vec![pair("_octo", "GH1")],
        vec![pair("_octo", "GH1"), pair("logged_in", "no")],
        vec![pair("_octo", "GH1"), pair("logged_in", "yes"), pair("dotcom_user", "lonelam")],
        vec![pair("later", "1"), pair("logged_in", "yes")],
    ];
    let (cookie_str, store) = run_session(reads, &|c: &String| c.contains("logged_in=yes"));
    assert_eq!(cookie_str, "_octo=GH1;logged_in=yes;dotcom_user=lonelam");
    assert!(matches!(timer_step(&store), TimerStep::Stop));
}

#[test]
fn window_closed_before_a_match_gives_empty_string() {
    let reads = vec![vec![pair("_octo", "GH1")], vec![pair("logged_in", "no")]];
    let (cookie_str, store) = run_session(reads, &|c: &String| c.contains("logged_in=yes"));
    assert_eq!(cookie_str, "");
    assert!(matches!(timer_step(&store), TimerStep::Stop));
}

#[test]
fn close_request_ends_the_loop() {
    let step = handle_event(&WindowSignal::CloseRequested);
    assert!(matches!(step.control_flow, ControlFlowChoice::Exit));
    let step = handle_event(&WindowSignal::User(CookieReadEvent { m_type: EventType::Finish }));
    assert!(matches!(step.control_flow, ControlFlowChoice::Exit));
}
