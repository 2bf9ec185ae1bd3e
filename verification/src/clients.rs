//! One client per venue.
use crate::list;
use crate::text;
use vstd::prelude::*;

verus! {

/// The venues there are clients for.
pub open spec fn venues_spec() -> Seq<Seq<char>> {
    Seq::<Seq<char>>::empty().push("gate"@).push("revx"@).push("binance"@)
}

/// The venues there are clients for.
pub fn venues() -> (r: Vec<String>)
    ensures
        r.deep_view() == venues_spec(),
{
    let mut out: Vec<String> = list::none();
    list::push(&mut out, text::owned("gate"));
    list::push(&mut out, text::owned("revx"));
    list::push(&mut out, text::owned("binance"));
    out
}

/// A venue's name, or that there is no client for it.
pub open spec fn known_venue_spec(exch: Seq<char>) -> Result<Seq<char>, Seq<char>> {
    if venues_spec().contains(exch) {
        Ok(exch)
    } else {
        Err(
            "unknown venue "@
                + text::debug_form(exch)
                + ": expected one of "@
                + text::join_of(venues_spec(), ", "@),
        )
    }
}

/// A venue's name, or that there is no client for it.
pub fn known_venue(exch: &str) -> (r: Result<String, String>)
    ensures
        list::outcome(r) == known_venue_spec(exch@),
{
    if list::holds(&venues(), exch) {
        return Ok(text::owned(exch));
    }
    let mut line = text::owned("unknown venue ");
    line.push_str(text::debug_text(exch).as_str());
    line.push_str(": expected one of ");
    line.push_str(list::join(&venues(), ", ").as_str());
    Err(line)
}

} // verus!
