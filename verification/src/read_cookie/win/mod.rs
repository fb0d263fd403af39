pub mod cookie_reader;
pub mod read_cookie;
