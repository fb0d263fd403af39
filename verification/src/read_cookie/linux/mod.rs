//! Linux runs the same reading session as macOS: a browser window whose
//! event loop reads the cookie store at each timer event, a cookie callback
//! that stores the first cookie string the matcher accepts and ends the loop,
//! and the stored string (or the empty string, when the window was closed
//! first) as the result. Its decisions are these.
pub use crate::read_cookie::mac::read_cookie_until::{
    finish_session, handle_event, store_if_matched, timer_step, LoopStep, TimerStep, WindowSignal,
};
pub use crate::read_cookie::mac::user_event::{CookieReadEvent, EventType};
