use get_cookies::read_cookie::win::read_cookie::{
    handle_event, has_session_id, on_received, LoopAction, ReceiveStep, WindowSignal,
};
use get_cookies::read_cookie::ControlFlowChoice;

#[test]
fn init_announces_start() {
    let step = handle_event(&WindowSignal::Init);
    assert!(matches!(step.control_flow, ControlFlowChoice::Wait));
    assert!(matches!(step.action, LoopAction::AnnounceStart));
}

#[test]
fn close_request_exits() {
    let step = handle_event(&WindowSignal::CloseRequested);
    assert!(matches!(step.control_flow, ControlFlowChoice::Exit));
    assert!(matches!(step.action, LoopAction::Nothing));
}

#[test]
fn user_event_reads_cookies() {
    let step = handle_event(&WindowSignal::User);
    assert!(matches!(step.control_flow, ControlFlowChoice::Wait));
    assert!(matches!(step.action, LoopAction::ReadCookies));
}

#[test]
fn other_event_does_nothing() {
    let step = handle_event(&WindowSignal::Other);
    assert!(matches!(step.control_flow, ControlFlowChoice::Wait));
    assert!(matches!(step.action, LoopAction::Nothing));
}

#[test]
fn closed_channel_waits_then_retries() {
    let m = |c: &String| c.contains("x");
    assert!(matches!(on_received(None, &m), ReceiveStep::WaitThenRetry));
}

#[test]
fn matching_string_ends_session() {
    let m = |c: &String| c.contains("logged_in=yes");
    match on_received(Some("a=1;logged_in=yes".to_string()), &m) {
        ReceiveStep::Done(s) => assert_eq!(s, "a=1;logged_in=yes"),
        _ => panic!("expected Done"),
    }
}

#[test]
fn unmatched_string_continues() {
    let m = |c: &String| c.contains("logged_in=yes");
    assert!(matches!(on_received(Some("a=1".to_string()), &m), ReceiveStep::Continue));
}

#[test]
fn first_accepted_string_is_the_result() {
    let received = vec![Some("a=1".to_string()), None, Some("sessionid=7".to_string()), Some("sessionid=8".to_string())];
    let mut result = None;
    for r in received {
        match on_received(r, &has_session_id) {
            ReceiveStep::Done(s) => {
                result = Some(s);
                break;
            }
            _ => {}
        }
    }
    assert_eq!(result.as_deref(), Some("sessionid=7"));
}

#[test]
fn session_id_matcher() {
    assert!(has_session_id(&"csrftoken=1;sessionid=abc".to_string()));
    assert!(!has_session_id(&"csrftoken=1;session=abc".to_string()));
    assert!(!has_session_id(&String::new()));
}
