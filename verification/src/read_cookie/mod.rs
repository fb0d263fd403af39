//! The reading session: what each platform's event loop decides.
pub mod linux;
pub mod mac;
pub mod win;

use vstd::prelude::*;

verus! {

/// What the event loop does after handling an event: keep waiting for the
/// next event, or leave the loop.
pub enum ControlFlowChoice {
    Wait,
    Exit,
}

/// The title of the browser window that a reading session opens when the
/// caller names none.
pub fn default_window_title() -> (title: String)
    ensures
        title@ == "Login And Wait For The Window Closed"@,
{
    String::from_str("Login And Wait For The Window Closed")
}

} // verus!
