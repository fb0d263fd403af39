//! Reading the cookies of a web page through an embedded browser window:
//! the verified part holds the cookie-string format, the cookie matchers and
//! the decisions of the reading session's event loop.
pub mod cookie_format;
pub mod text;
pub mod read_cookie;
