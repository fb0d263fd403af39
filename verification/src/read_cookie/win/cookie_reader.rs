use crate::cookie_format::{
    cookie_string, free_of, lemma_cookie_string_splits, spec_cookie_string, split_on, CookiePair,
};
use vstd::prelude::*;

verus! {

/// The user event that the interval timer sends to the event loop, asking it
/// to read the cookies again.
pub struct CookieReadEvent {
    pub cookie_str: String,
}

/// The event that the interval timer sends at each tick; its payload is the
/// fixed text `hello`, which the event loop does not read.
pub fn tick_event() -> (e: CookieReadEvent)
    ensures
        e.cookie_str@ == "hello"@,
{
    CookieReadEvent { cookie_str: String::from_str("hello") }
}

/// The cookie string handed on for a cookie list that the browser reported:
/// no list gives the empty string, a list its cookies as `name=value` pairs
/// joined by `;`.
pub open spec fn spec_list_cookie_string(list: Option<Seq<CookiePair>>) -> Seq<char> {
    match list {
        Some(pairs) => spec_cookie_string(pairs),
        None => seq![],
    }
}

/// Builds the cookie string of the cookie list that the browser handed to
/// the cookie callback, which may hand no list at all.
pub fn list_cookie_string(list: Option<&Vec<CookiePair>>) -> (res: String)
    ensures
        res@ == spec_list_cookie_string(
            match list {
                Some(v) => Some(v@),
                None => None,
            },
        ),
        list matches Some(v) ==> res@ == spec_cookie_string(v@),
        list is None ==> res@ == Seq::<char>::empty(),
{
    match list {
        Some(pairs) => cookie_string(pairs),
        None => String::new(),
    }
}

/// For a cookie list that the browser handed over, the string handed on
/// holds every cookie of the list: split at `;`, it gives one piece per
/// cookie, the cookie's name, `=` and its value, in the list's order,
/// provided that the list is not empty and no name or value holds a `;`.
/// Without a list, the string is empty.
pub proof fn lemma_list_cookie_string(pairs: Seq<CookiePair>)
    requires
        pairs.len() >= 1,
        forall|i: int|
            0 <= i < pairs.len() ==> free_of(#[trigger] pairs[i].name@, ';') && free_of(
                pairs[i].value@,
                ';',
            ),
    ensures
        split_on(spec_list_cookie_string(Some(pairs)), ';').len() == pairs.len(),
        forall|i: int|
            0 <= i < pairs.len() ==> (#[trigger] split_on(spec_list_cookie_string(Some(pairs)), ';')[i])
                == pairs[i].name@ + seq!['='] + pairs[i].value@,
        spec_list_cookie_string(None) == Seq::<char>::empty(),
{
    lemma_cookie_string_splits(pairs);
}

} // verus!
