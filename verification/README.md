# get_cookies

Reads the cookies of a web page through an embedded browser window, waiting
until a caller-supplied matcher accepts the cookie string.

- `src/` — the verified library:
  - `cookie_format`: the `name=value;name=value` cookie string, with the proof
    that splitting it at `;` gives each `name=value` back, in order, when
    there is at least one cookie and no name or value holds a `;`.
  - `text`: substring search, used by the default `sessionid` matcher.
  - `read_cookie::{mac, win, linux}`: the decisions of each platform's
    reading session (event handling, interval timer, cookie callback, result),
    with the session laws (macOS and Linux: the result is the last accepted
    cookie string, or empty when the window is closed first; Windows: the
    result is the first accepted cookie string); Linux runs the same polling
    session as macOS.
- `app/` — the event loops, browser windows and cookie stores around those
  decisions (tao, wry, WebKitGTK on Linux, cocoa/objc/block on macOS, WebView2 on
  Windows, tokio).
- `tests/` — tests of the library on concrete values.
