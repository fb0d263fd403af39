use vstd::prelude::*;

verus! {

/// The two user events of a reading session: time to read the cookies again,
/// or a matching cookie string has been stored and the session is over.
pub enum EventType {
    CookieRead,
    Finish,
}

/// The user event that the interval timer and the cookie callback send to
/// the event loop.
pub struct CookieReadEvent {
    pub m_type: EventType,
}

} // verus!
