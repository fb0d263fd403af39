/// The polling session that macOS and Linux share.
pub mod read_cookie_until;
pub mod user_event;
