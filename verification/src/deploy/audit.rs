//! The daily book audit: does the order journal agree with the venues?
//!
//! Per venue (Revolut X, then Gate):
//!
//! 1. every journal row that says it is open must still be listed by the venue;
//! 2. a row listed on both sides must have the same size (a resize at the venue leaves
//!    the journal's quote stale);
//! 3. every order the venue lists must be known to the journal (any status);
//! 4. stable locked at the venue must match the journal's open buys within max($5, 2%),
//!    anywhere between their remaining and their full size.
//!
//! Findings ride the housekeeping mail as warnings; the last outcome is written to the
//! audit state file for the dashboard banner. Read-only on the venues.
//!
//! On Revolut X, USDC the venue holds as locked is a withdrawal on its way out (a Gate
//! top-up), not cash in a resting buy, unless the journal has an open USDC-quoted buy there.
//! It does not read as a locked-cash gap.
use crate::deploy;
use crate::deploy::{RunResult, RunResultView};
use crate::double::Double;
use crate::housekeeping::{Route, RouteView};
use crate::journal;
use crate::journal::{Order, OrderView};
use crate::list;
use crate::list::Duplicate;
use crate::pyfmt;
use crate::rounding;
use crate::text;
use crate::venue::{Balance, ParsedOrder, ParsedOrderView};
use crate::watch::json;
use crate::watch::json::{Doc, Json};
use vstd::prelude::*;

verus! {

/// The stable assets whose locked amount is compared, per venue.
pub open spec fn stable_assets_spec(exch: Seq<char>) -> Seq<Seq<char>> {
    if exch == "revx"@ {
        Seq::<Seq<char>>::empty().push("USD"@).push("USDC"@)
    } else if exch == "gate"@ {
        Seq::<Seq<char>>::empty().push("USDT"@).push("USDC"@)
    } else {
        Seq::<Seq<char>>::empty()
    }
}

/// The stable assets whose locked amount is compared, per venue.
pub fn stable_assets(exch: &str) -> (r: Vec<String>)
    ensures
        r.deep_view() == stable_assets_spec(exch@),
{
    if text::same(exch, "revx") {
        let mut a: Vec<String> = list::none();
        list::push(&mut a, text::owned("USD"));
        list::push(&mut a, text::owned("USDC"));
        return a;
    }
    if text::same(exch, "gate") {
        let mut b: Vec<String> = list::none();
        list::push(&mut b, text::owned("USDT"));
        list::push(&mut b, text::owned("USDC"));
        return b;
    }
    list::none::<String>()
}

/// What the dashboard banner reads.
#[derive(Debug)]
pub struct AuditState {
    pub ts: Double,
    pub ok: bool,
    pub findings: Vec<String>,
    /// Pairs checked per venue.
    pub checked: Vec<(String, usize)>,
}

/// What a [`AuditState`] holds.
pub struct AuditStateView {
    pub ts: Double,
    pub ok: bool,
    pub findings: Seq<Seq<char>>,
    pub checked: Seq<(Seq<char>, usize)>,
}

impl DeepView for AuditState {
    type V = AuditStateView;

    open spec fn deep_view(&self) -> AuditStateView {
        AuditStateView {
            ts: self.ts,
            ok: self.ok,
            findings: self.findings.deep_view(),
            checked: self.checked.deep_view(),
        }
    }
}

/// Texts as a list value.
pub open spec fn texts_json_spec(l: Seq<Seq<char>>) -> Doc {
    json::texts(l)
}

fn texts_json(l: &Vec<String>) -> (r: Json)
    ensures
        r@ == texts_json_spec(l.deep_view()),
{
    json::text_array(l)
}

/// The first `n` of them.
pub open spec fn add_checked_spec(xs: Seq<(Seq<char>, usize)>, out: Doc, n: nat) -> Doc
    decreases n,
{
    if n == 0 {
        out
    } else {
        let out = add_checked_spec(xs, out, (n - 1) as nat);
        let it = xs[n - 1];
        let k = it.0;
        let v = it.1;
        out.set(k, Doc::Int(v as i64))
    }
}

fn add_checked(xs: &Vec<(String, usize)>, out: Json) -> (r: Json)
    ensures
        r@ == add_checked_spec(xs.deep_view(), out@, xs@.len()),
{
    let ghost out0 = out@;
    let mut out = out;
    let mut i: usize = 0;
    while i < xs.len()
        invariant
            i <= xs@.len(),
            out@ == add_checked_spec(xs.deep_view(), out0, i as nat),
        decreases xs@.len() - i,
    {
        let it = &xs[i];
        let k = it.0.as_str();
        let v: usize = it.1;
        out.set(k, Json::Int(v as i64));
        i = i + 1;
    }
    out
}

/// The pairs checked per venue, as an object.
pub open spec fn checked_json_spec(l: Seq<(Seq<char>, usize)>) -> Doc {
    let out = Doc::obj();
    add_checked_spec(l, out, l.len())
}

fn checked_json(l: &Vec<(String, usize)>) -> (r: Json)
    ensures
        r@ == checked_json_spec(l.deep_view()),
{
    let mut out = Json::obj();
    out = add_checked(l, out);
    out
}

/// The state as it is written.
pub open spec fn state_json_spec(s: AuditStateView) -> Doc {
    Doc::obj().with("ts"@, Doc::Float(s.ts)).with("ok"@, Doc::Bool(s.ok)).with(
        "findings"@,
        texts_json_spec(s.findings),
    ).with(
        "checked"@,
        checked_json_spec(s.checked),
    )
}

/// The state as it is written.
pub fn state_json(s: &AuditState) -> (r: Json)
    ensures
        r@ == state_json_spec(s.deep_view()),
{
    Json::obj().with("ts", Json::Float(s.ts)).with("ok", Json::Bool(s.ok)).with(
        "findings",
        texts_json(&s.findings),
    ).with(
        "checked",
        checked_json(&s.checked),
    )
}

/// A text, `None` where it is empty.
pub open spec fn or_none_spec(s: Seq<char>) -> Seq<char> {
    if s == ""@ {
        "None"@
    } else {
        s
    }
}

fn or_none(s: &str) -> (r: String)
    ensures
        r@ == or_none_spec(s@),
{
    if text::same(s, "") {
        text::owned("None")
    } else {
        text::owned(s)
    }
}

/// Of the first `n` rows.
pub open spec fn add_row_pair_spec(
    exch: Seq<char>,
    xs: Seq<OrderView>,
    out: Seq<Seq<char>>,
    n: nat,
) -> Seq<Seq<char>>
    decreases n,
{
    if n == 0 {
        out
    } else {
        let out = add_row_pair_spec(exch, xs, out, (n - 1) as nat);
        let o = xs[n - 1];
        if o.exch == exch && o.pair != ""@ && !out.contains(o.pair) {
            out.push(o.pair)
        } else {
            out
        }
    }
}

fn add_row_pair(exch: &str, xs: &Vec<Order>, out: Vec<String>) -> (r: Vec<String>)
    ensures
        r.deep_view() == add_row_pair_spec(exch@, xs.deep_view(), out.deep_view(), xs@.len()),
{
    let ghost out0 = out.deep_view();
    let mut out = out;
    let mut i: usize = 0;
    while i < xs.len()
        invariant
            i <= xs@.len(),
            out.deep_view() == add_row_pair_spec(exch@, xs.deep_view(), out0, i as nat),
        decreases xs@.len() - i,
    {
        let o = &xs[i];
        if text::same(o.exch.as_str(), exch)
            && !text::same(o.pair.as_str(), "")
            && !list::holds(&out, o.pair.as_str()) {
            list::push(&mut out, text::owned(o.pair.as_str()));
        }
        i = i + 1;
    }
    out
}

/// Of the first `n` routes.
pub open spec fn add_route_pair_spec(
    exch: Seq<char>,
    xs: Seq<RouteView>,
    out: Seq<Seq<char>>,
    n: nat,
) -> Seq<Seq<char>>
    decreases n,
{
    if n == 0 {
        out
    } else {
        let out = add_route_pair_spec(exch, xs, out, (n - 1) as nat);
        let r = xs[n - 1];
        if r.exch == exch && r.pair != ""@ && !out.contains(r.pair) {
            out.push(r.pair)
        } else {
            out
        }
    }
}

fn add_route_pair(exch: &str, xs: &Vec<Route>, out: Vec<String>) -> (r: Vec<String>)
    ensures
        r.deep_view() == add_route_pair_spec(exch@, xs.deep_view(), out.deep_view(), xs@.len()),
{
    let ghost out0 = out.deep_view();
    let mut out = out;
    let mut i: usize = 0;
    while i < xs.len()
        invariant
            i <= xs@.len(),
            out.deep_view() == add_route_pair_spec(exch@, xs.deep_view(), out0, i as nat),
        decreases xs@.len() - i,
    {
        let r = &xs[i];
        if text::same(r.exch.as_str(), exch)
            && !text::same(r.pair.as_str(), "")
            && !list::holds(&out, r.pair.as_str()) {
            list::push(&mut out, text::owned(r.pair.as_str()));
        }
        i = i + 1;
    }
    out
}

/// The pairs to read on a venue: every journal pair there and every route to it, by name.
pub open spec fn pairs_for_spec(
    routing: Seq<RouteView>,
    exch: Seq<char>,
    rows: Seq<OrderView>,
) -> Seq<Seq<char>> {
    let out = add_row_pair_spec(exch, rows, Seq::<Seq<char>>::empty(), rows.len());
    let out = add_route_pair_spec(exch, routing, out, routing.len());
    list::sorted_texts(out)
}

/// The pairs to read on a venue: every journal pair there and every route to it, by name.
pub fn pairs_for(routing: &Vec<Route>, exch: &str, rows: &Vec<Order>) -> (r: Vec<String>)
    ensures
        r.deep_view() == pairs_for_spec(routing.deep_view(), exch@, rows.deep_view()),
{
    let mut out: Vec<String> = list::none();
    out = add_row_pair(exch, rows, out);
    out = add_route_pair(exch, routing, out);
    list::sort_texts(&out)
}

/// Whether a pair is quoted in USDC.
pub open spec fn is_usdc_quoted_spec(pair: Seq<char>) -> bool {
    text::ends(pair, "/USDC"@) || text::ends(pair, "-USDC"@) || text::ends(pair, "_USDC"@)
}

fn is_usdc_quoted(pair: &str) -> (r: bool)
    ensures
        r == is_usdc_quoted_spec(pair@),
{
    text::ends_with(pair, "/USDC")
        || text::ends_with(pair, "-USDC")
        || text::ends_with(pair, "_USDC")
}

/// An order a venue lists.
#[derive(Debug)]
pub struct Listed {
    pub pair: String,
    pub order: ParsedOrder,
}

/// What a [`Listed`] holds.
pub struct ListedView {
    pub pair: Seq<char>,
    pub order: ParsedOrderView,
}

impl DeepView for Listed {
    type V = ListedView;

    open spec fn deep_view(&self) -> ListedView {
        ListedView {
            pair: self.pair@,
            order: self.order.deep_view(),
        }
    }
}

impl Duplicate for Listed {
    fn dup(&self) -> (r: Listed) {
        Listed {
            pair: text::owned(self.pair.as_str()),
            order: self.order.dup(),
        }
    }
}

/// The first `n` of them.
pub open spec fn copy_listed_spec(
    l: ListedView,
    xs: Seq<ListedView>,
    known: bool,
    out: Seq<ListedView>,
    n: nat,
) -> (bool, Seq<ListedView>)
    decreases n,
{
    if n == 0 {
        (known, out)
    } else {
        let (known, out) = copy_listed_spec(l, xs, known, out, (n - 1) as nat);
        let x = xs[n - 1];
        if x.order.order_id == l.order.order_id {
            (true, out.push(l))
        } else {
            (known, out.push(x))
        }
    }
}

fn copy_listed(
    l: &Listed,
    xs: &Vec<Listed>,
    known: bool,
    out: Vec<Listed>,
) -> (r: (bool, Vec<Listed>))
    ensures
        r.deep_view() == copy_listed_spec(
            l.deep_view(),
            xs.deep_view(),
            known,
            out.deep_view(),
            xs@.len(),
        ),
{
    let ghost known0 = known;
    let ghost out0 = out.deep_view();
    let mut known = known;
    let mut out = out;
    let mut i: usize = 0;
    while i < xs.len()
        invariant
            i <= xs@.len(),
            (known, out.deep_view()) == copy_listed_spec(
                l.deep_view(),
                xs.deep_view(),
                known0,
                out0,
                i as nat,
            ),
        decreases xs@.len() - i,
    {
        let x = &xs[i];
        if text::same(x.order.order_id.as_str(), l.order.order_id.as_str()) {
            known = true;
            list::push(&mut out, l.dup());
        } else {
            list::push(&mut out, x.dup());
        }
        i = i + 1;
    }
    (known, out)
}

/// The orders with one written under its id: in its place, or at the end.
pub open spec fn put_listed_spec(ls: Seq<ListedView>, l: ListedView) -> Seq<ListedView> {
    let out = Seq::<ListedView>::empty();
    let known = false;
    let (known, out) = copy_listed_spec(l, ls, known, out, ls.len());
    if !known {
        out.push(l)
    } else {
        out
    }
}

fn put_listed(ls: &Vec<Listed>, l: Listed) -> (r: Vec<Listed>)
    ensures
        r.deep_view() == put_listed_spec(ls.deep_view(), l.deep_view()),
{
    let mut out: Vec<Listed> = list::none();
    let mut known = false;
    let (next_known, next_out) = copy_listed(&l, ls, known, out);
    known = next_known;
    out = next_out;
    if !known {
        list::push(&mut out, l);
    }
    out
}

/// Of the first `n` orders.
pub open spec fn add_listed_spec(
    pair: Seq<char>,
    xs: Seq<ParsedOrderView>,
    ls: Seq<ListedView>,
    n: nat,
) -> Seq<ListedView>
    decreases n,
{
    if n == 0 {
        ls
    } else {
        let ls = add_listed_spec(pair, xs, ls, (n - 1) as nat);
        let x = xs[n - 1];
        if x.order_id != ""@ {
            put_listed_spec(ls, ListedView { pair, order: x })
        } else {
            ls
        }
    }
}

fn add_listed(pair: &str, xs: &Vec<ParsedOrder>, ls: Vec<Listed>) -> (r: Vec<Listed>)
    ensures
        r.deep_view() == add_listed_spec(pair@, xs.deep_view(), ls.deep_view(), xs@.len()),
{
    let ghost ls0 = ls.deep_view();
    let mut ls = ls;
    let mut i: usize = 0;
    while i < xs.len()
        invariant
            i <= xs@.len(),
            ls.deep_view() == add_listed_spec(pair@, xs.deep_view(), ls0, i as nat),
        decreases xs@.len() - i,
    {
        let x = &xs[i];
        if !text::same(x.order_id.as_str(), "") {
            ls = put_listed(&ls, Listed { pair: text::owned(pair), order: x.dup() });
        }
        i = i + 1;
    }
    ls
}

/// The orders of a pair that have an id, added to some.
pub open spec fn listed_in_spec(
    ls: Seq<ListedView>,
    pair: Seq<char>,
    orders: Seq<ParsedOrderView>,
) -> Seq<ListedView> {
    add_listed_spec(pair, orders, ls, orders.len())
}

fn listed_in(ls: Vec<Listed>, pair: &str, orders: &Vec<ParsedOrder>) -> (r: Vec<Listed>)
    ensures
        r.deep_view() == listed_in_spec(ls.deep_view(), pair@, orders.deep_view()),
{
    let mut ls = ls;
    ls = add_listed(pair, orders, ls);
    ls
}

/// Of the first `n` pairs.
pub open spec fn add_all_listed_spec(
    xs: Seq<(Seq<char>, Seq<ParsedOrderView>)>,
    out: Seq<ListedView>,
    n: nat,
) -> Seq<ListedView>
    decreases n,
{
    if n == 0 {
        out
    } else {
        let out = add_all_listed_spec(xs, out, (n - 1) as nat);
        let it = xs[n - 1];
        let pair = it.0;
        let orders = it.1;
        listed_in_spec(out, pair, orders)
    }
}

fn add_all_listed(xs: &Vec<(String, Vec<ParsedOrder>)>, out: Vec<Listed>) -> (r: Vec<Listed>)
    ensures
        r.deep_view() == add_all_listed_spec(xs.deep_view(), out.deep_view(), xs@.len()),
{
    let ghost out0 = out.deep_view();
    let mut out = out;
    let mut i: usize = 0;
    while i < xs.len()
        invariant
            i <= xs@.len(),
            out.deep_view() == add_all_listed_spec(xs.deep_view(), out0, i as nat),
        decreases xs@.len() - i,
    {
        let it = &xs[i];
        let pair = it.0.as_str();
        let orders = &it.1;
        out = listed_in(out, pair, orders);
        i = i + 1;
    }
    out
}

/// The orders a venue lists, each id once.
pub open spec fn all_listed_spec(open: Seq<(Seq<char>, Seq<ParsedOrderView>)>) -> Seq<ListedView> {
    add_all_listed_spec(open, Seq::<ListedView>::empty(), open.len())
}

fn all_listed(open: &Vec<(String, Vec<ParsedOrder>)>) -> (r: Vec<Listed>)
    ensures
        r.deep_view() == all_listed_spec(open.deep_view()),
{
    let mut out: Vec<Listed> = list::none();
    out = add_all_listed(open, out);
    out
}

/// Among the first `n` of them.
pub open spec fn see_listed_spec(oid: Seq<char>, xs: Seq<ListedView>, out: bool, n: nat) -> bool {
    out || list::some(xs, |x: ListedView| x.order.order_id == oid, n)
}

fn see_listed(oid: &str, xs: &Vec<Listed>, out: bool) -> (r: bool)
    ensures
        r == see_listed_spec(oid@, xs.deep_view(), out, xs@.len()),
{
    let ghost out0 = out;
    let mut out = out;
    let mut i: usize = 0;
    while i < xs.len()
        invariant
            i <= xs@.len(),
            out == see_listed_spec(oid@, xs.deep_view(), out0, i as nat),
        decreases xs@.len() - i,
    {
        let x = &xs[i];
        if text::same(x.order.order_id.as_str(), oid) {
            out = true;
        }
        assert(xs.deep_view()[i as int] == xs@[i as int].deep_view());
        assert(out == see_listed_spec(oid@, xs.deep_view(), out0, (i + 1) as nat));
        i = i + 1;
    }
    out
}

/// Whether a venue lists an id.
pub open spec fn is_listed_spec(ls: Seq<ListedView>, oid: Seq<char>) -> bool {
    see_listed_spec(oid, ls, false, ls.len())
}

fn is_listed(ls: &Vec<Listed>, oid: &str) -> (r: bool)
    ensures
        r == is_listed_spec(ls.deep_view(), oid@),
{
    let mut out = false;
    out = see_listed(oid, ls, out);
    out
}

/// Among the first `n` of them.
pub open spec fn see_pair_spec(
    pair: Seq<char>,
    xs: Seq<(Seq<char>, Seq<ParsedOrderView>)>,
    out: bool,
    n: nat,
) -> bool {
    out || list::some(
        xs,
        |it: (Seq<char>, Seq<ParsedOrderView>)| {
            let k = it.0;
            k == pair
        },
        n,
    )
}

fn see_pair(pair: &str, xs: &Vec<(String, Vec<ParsedOrder>)>, out: bool) -> (r: bool)
    ensures
        r == see_pair_spec(pair@, xs.deep_view(), out, xs@.len()),
{
    let ghost out0 = out;
    let mut out = out;
    let mut i: usize = 0;
    while i < xs.len()
        invariant
            i <= xs@.len(),
            out == see_pair_spec(pair@, xs.deep_view(), out0, i as nat),
        decreases xs@.len() - i,
    {
        let it = &xs[i];
        let k = it.0.as_str();
        if text::same(k, pair) {
            out = true;
        }
        assert(xs.deep_view()[i as int] == xs@[i as int].deep_view());
        assert(out == see_pair_spec(pair@, xs.deep_view(), out0, (i + 1) as nat));
        i = i + 1;
    }
    out
}

/// Whether a pair was read.
pub open spec fn reads_pair_spec(
    open: Seq<(Seq<char>, Seq<ParsedOrderView>)>,
    pair: Seq<char>,
) -> bool {
    see_pair_spec(pair, open, false, open.len())
}

fn reads_pair(open: &Vec<(String, Vec<ParsedOrder>)>, pair: &str) -> (r: bool)
    ensures
        r == reads_pair_spec(open.deep_view(), pair@),
{
    let mut out = false;
    out = see_pair(pair, open, out);
    out
}

/// Whether a row says that its order rests on a venue.
pub open spec fn open_here_spec(o: OrderView, exch: Seq<char>) -> bool {
    o.exch == exch && journal::is_open_status_spec(o.status) && deploy::has_id_spec(o)
}

fn open_here(o: &Order, exch: &str) -> (r: bool)
    ensures
        r == open_here_spec(o.deep_view(), exch@),
{
    text::same(o.exch.as_str(), exch)
        && journal::is_open_status(o.status.as_str())
        && deploy::has_id(o)
}

/// Of the first `n` rows.
pub open spec fn add_missing_spec(
    exch: Seq<char>,
    ls: Seq<ListedView>,
    open: Seq<(Seq<char>, Seq<ParsedOrderView>)>,
    xs: Seq<OrderView>,
    out: Seq<Seq<char>>,
    n: nat,
) -> Seq<Seq<char>>
    decreases n,
{
    if n == 0 {
        out
    } else {
        let out = add_missing_spec(exch, ls, open, xs, out, (n - 1) as nat);
        let o = xs[n - 1];
        if open_here_spec(o, exch) {
            let oid = match o.order_id {
                Some(v) => v,
                None => ""@,
            };
            if reads_pair_spec(open, o.pair) && !is_listed_spec(ls, oid) {
                out.push(
                    exch
                        + " "@
                        + or_none_spec(o.sym)
                        + " "@
                        + or_none_spec(o.kind)
                        + " "@
                        + o.client_id
                        + ": journal open, venue has no order "@
                        + oid
                        + " (missed fill or cancel?)"@,
                )
            } else {
                out
            }
        } else {
            out
        }
    }
}

fn add_missing(
    exch: &str,
    ls: &Vec<Listed>,
    open: &Vec<(String, Vec<ParsedOrder>)>,
    xs: &Vec<Order>,
    out: Vec<String>,
) -> (r: Vec<String>)
    ensures
        r.deep_view() == add_missing_spec(
            exch@,
            ls.deep_view(),
            open.deep_view(),
            xs.deep_view(),
            out.deep_view(),
            xs@.len(),
        ),
{
    let ghost out0 = out.deep_view();
    let mut out = out;
    let mut i: usize = 0;
    while i < xs.len()
        invariant
            i <= xs@.len(),
            out.deep_view() == add_missing_spec(
                exch@,
                ls.deep_view(),
                open.deep_view(),
                xs.deep_view(),
                out0,
                i as nat,
            ),
        decreases xs@.len() - i,
    {
        let o = &xs[i];
        if open_here(o, exch) {
            let oid = match &o.order_id {
                Some(v) => text::owned(v.as_str()),
                None => text::owned(""),
            };
            if reads_pair(open, o.pair.as_str()) && !is_listed(ls, oid.as_str()) {
                let mut line = text::owned(exch);
                line.push_str(" ");
                line.push_str(or_none(o.sym.as_str()).as_str());
                line.push_str(" ");
                line.push_str(or_none(o.kind.as_str()).as_str());
                line.push_str(" ");
                line.push_str(o.client_id.as_str());
                line.push_str(": journal open, venue has no order ");
                line.push_str(oid.as_str());
                line.push_str(" (missed fill or cancel?)");
                list::push(&mut out, line);
            }
        }
        i = i + 1;
    }
    out
}

/// Rows that say they are open and that the venue does not list.
pub open spec fn missing_orders_spec(
    exch: Seq<char>,
    rows: Seq<OrderView>,
    open: Seq<(Seq<char>, Seq<ParsedOrderView>)>,
    ls: Seq<ListedView>,
) -> Seq<Seq<char>> {
    add_missing_spec(exch, ls, open, rows, Seq::<Seq<char>>::empty(), rows.len())
}

fn missing_orders(
    exch: &str,
    rows: &Vec<Order>,
    open: &Vec<(String, Vec<ParsedOrder>)>,
    ls: &Vec<Listed>,
) -> (r: Vec<String>)
    ensures
        r.deep_view() == missing_orders_spec(
            exch@,
            rows.deep_view(),
            open.deep_view(),
            ls.deep_view(),
        ),
{
    let mut out: Vec<String> = list::none();
    out = add_missing(exch, ls, open, rows, out);
    out
}

/// Among the first `n` rows.
pub open spec fn find_under_spec(
    exch: Seq<char>,
    oid: Seq<char>,
    xs: Seq<OrderView>,
    out: Option<OrderView>,
    n: nat,
) -> Option<OrderView> {
    match list::last_given(
        xs,
        |o: OrderView| if open_here_spec(o, exch)
            && (match o.order_id {
                Some(v) => v,
                None => ""@,
            })
                == oid {
            Some(o)
        } else {
            None
        },
        n,
    ) {
        Some(v) => Some(v),
        None => out,
    }
}

fn find_under(exch: &str, oid: &str, xs: &Vec<Order>, out: Option<Order>) -> (r: Option<Order>)
    ensures
        r.deep_view() == find_under_spec(exch@, oid@, xs.deep_view(), out.deep_view(), xs@.len()),
{
    let ghost out0 = out.deep_view();
    let mut out = out;
    let mut i: usize = 0;
    while i < xs.len()
        invariant
            i <= xs@.len(),
            out.deep_view() == find_under_spec(exch@, oid@, xs.deep_view(), out0, i as nat),
        decreases xs@.len() - i,
    {
        let o = &xs[i];
        if open_here(o, exch)
            && text::same(
                (match &o.order_id {
                    Some(v) => text::owned(v.as_str()),
                    None => text::owned(""),
                }).as_str(),
                oid,
            ) {
            out = Some(o.dup());
        }
        assert(xs.deep_view()[i as int] == xs@[i as int].deep_view());
        assert(out.deep_view() == find_under_spec(
            exch@,
            oid@,
            xs.deep_view(),
            out0,
            (i + 1) as nat,
        ));
        i = i + 1;
    }
    out
}

/// The last open row on a venue with this order id.
pub open spec fn row_under_spec(
    exch: Seq<char>,
    rows: Seq<OrderView>,
    oid: Seq<char>,
) -> Option<OrderView> {
    let out: Option<OrderView> = None;
    find_under_spec(exch, oid, rows, out, rows.len())
}

fn row_under(exch: &str, rows: &Vec<Order>, oid: &str) -> (r: Option<Order>)
    ensures
        r.deep_view() == row_under_spec(exch@, rows.deep_view(), oid@),
{
    let mut out: Option<Order> = None;
    out = find_under(exch, oid, rows, out);
    out
}

/// A rung, as it prints.
pub open spec fn rung_text_spec(r: Option<i64>) -> Seq<char> {
    match r {
        Some(k) => text::dec_int(k as int),
        None => "None"@,
    }
}

fn rung_text(r: Option<i64>) -> (out: String)
    ensures
        out@ == rung_text_spec(r),
{
    match r {
        Some(k) => text::dec_i64(k),
        None => text::owned("None"),
    }
}

/// The sizes at the venue and in the journal, where they differ by more than 1% and a dollar from
/// both what remains and the full size.
pub open spec fn size_gap_spec(o: OrderView, x: ParsedOrderView) -> Option<(Double, Double)> {
    let venue_q = x.qty.mul_spec(
        match x.price {
            Some(v) => v,
            None => Double::zero_spec(),
        },
    );
    let full_q = match o.quote {
        Some(v) => v,
        None => Double::zero_spec(),
    };
    let jq = full_q.sub_spec(
        match o.part_quote {
            Some(v) => v,
            None => Double::zero_spec(),
        },
    );
    let gap = venue_q.sub_spec(jq).abs_spec().min_spec(venue_q.sub_spec(full_q).abs_spec());
    if Double::zero_spec().lt_spec(venue_q)
        && Double::zero_spec().lt_spec(jq)
        && Double::ratio_spec(1, 100).mul_spec(jq).max_spec(Double::int_spec(1)).lt_spec(gap) {
        Some((venue_q, jq))
    } else {
        None
    }
}

fn size_gap(o: &Order, x: &ParsedOrder) -> (r: Option<(Double, Double)>)
    ensures
        r == size_gap_spec(o.deep_view(), x.deep_view()),
{
    let venue_q = x.qty.times(
        match x.price {
            Some(v) => v,
            None => Double::zero(),
        },
    );
    let full_q = match o.quote {
        Some(v) => v,
        None => Double::zero(),
    };
    let jq = full_q.minus(
        match o.part_quote {
            Some(v) => v,
            None => Double::zero(),
        },
    );
    let gap = venue_q.minus(jq).abs().min(venue_q.minus(full_q).abs());
    if Double::zero().lt(venue_q)
        && Double::zero().lt(jq)
        && Double::ratio(1, 100).times(jq).max(Double::of_int(1)).lt(gap) {
        return Some((venue_q, jq));
    }
    None
}

/// Of the first `n` orders.
pub open spec fn add_resized_spec(
    exch: Seq<char>,
    rows: Seq<OrderView>,
    xs: Seq<ListedView>,
    out: Seq<Seq<char>>,
    n: nat,
) -> Seq<Seq<char>> {
    out + list::gathered(
        xs,
        |x: ListedView| match row_under_spec(exch, rows, x.order.order_id) {
            Some(o) => match size_gap_spec(o, x.order) {
                Some(g) => {
                    let off = g.0.sub_spec(g.1);
                    Some(
                        exch
                            + " "@
                            + or_none_spec(o.sym)
                            + " rung "@
                            + rung_text_spec(o.rung)
                            + " "@
                            + o.client_id
                            + ": venue size $"@
                            + pyfmt::fixed_spec(g.0, 2)
                            + " vs journal $"@
                            + pyfmt::fixed_spec(g.1, 2)
                            + " ("@
                            + crate::watch::pyfmt::signed_spec(off, 2)
                            + "); resized at the venue, journal not updated"@,
                    )
                },
                None => None,
            },
            None => None,
        },
        n,
    )
}

fn add_resized(
    exch: &str,
    rows: &Vec<Order>,
    xs: &Vec<Listed>,
    out: Vec<String>,
) -> (r: Vec<String>)
    ensures
        r.deep_view() == add_resized_spec(
            exch@,
            rows.deep_view(),
            xs.deep_view(),
            out.deep_view(),
            xs@.len(),
        ),
{
    let ghost out0 = out.deep_view();
    let mut out = out;
    let mut i: usize = 0;
    while i < xs.len()
        invariant
            i <= xs@.len(),
            out.deep_view() == add_resized_spec(
                exch@,
                rows.deep_view(),
                xs.deep_view(),
                out0,
                i as nat,
            ),
        decreases xs@.len() - i,
    {
        let x = &xs[i];
        match row_under(exch, rows, x.order.order_id.as_str()) {
            Some(o) => {
                match size_gap(&o, &x.order) {
                    Some(g) => {
                        let off = g.0.minus(g.1);
                        let mut line = text::owned(exch);
                        line.push_str(" ");
                        line.push_str(or_none(o.sym.as_str()).as_str());
                        line.push_str(" rung ");
                        line.push_str(rung_text(o.rung).as_str());
                        line.push_str(" ");
                        line.push_str(o.client_id.as_str());
                        line.push_str(": venue size $");
                        line.push_str(pyfmt::fixed(g.0, 2).as_str());
                        line.push_str(" vs journal $");
                        line.push_str(pyfmt::fixed(g.1, 2).as_str());
                        line.push_str(" (");
                        line.push_str(crate::watch::pyfmt::signed(off, 2).as_str());
                        line.push_str("); resized at the venue, journal not updated");
                        list::push(&mut out, line);
                    },
                    None => {},
                }
            },
            None => {},
        }
        assert(out.deep_view() =~= add_resized_spec(
            exch@,
            rows.deep_view(),
            xs.deep_view(),
            out0,
            (i + 1) as nat,
        ));
        i = i + 1;
    }
    out
}

/// Orders whose size at the venue is not the journal's.
pub open spec fn resized_orders_spec(
    exch: Seq<char>,
    rows: Seq<OrderView>,
    ls: Seq<ListedView>,
) -> Seq<Seq<char>> {
    add_resized_spec(exch, rows, ls, Seq::<Seq<char>>::empty(), ls.len())
}

fn resized_orders(exch: &str, rows: &Vec<Order>, ls: &Vec<Listed>) -> (r: Vec<String>)
    ensures
        r.deep_view() == resized_orders_spec(exch@, rows.deep_view(), ls.deep_view()),
{
    let mut out: Vec<String> = list::none();
    out = add_resized(exch, rows, ls, out);
    out
}

/// Of the first `n` rows.
pub open spec fn add_known_spec(xs: Seq<OrderView>, out: Seq<Seq<char>>, n: nat) -> Seq<Seq<char>> {
    out + list::gathered(
        xs,
        |o: OrderView| if deploy::has_id_spec(o) {
            Some(
                match o.order_id {
                    Some(v) => v,
                    None => ""@,
                },
            )
        } else {
            None
        },
        n,
    )
}

fn add_known(xs: &Vec<Order>, out: Vec<String>) -> (r: Vec<String>)
    ensures
        r.deep_view() == add_known_spec(xs.deep_view(), out.deep_view(), xs@.len()),
{
    let ghost out0 = out.deep_view();
    let mut out = out;
    let mut i: usize = 0;
    while i < xs.len()
        invariant
            i <= xs@.len(),
            out.deep_view() == add_known_spec(xs.deep_view(), out0, i as nat),
        decreases xs@.len() - i,
    {
        let o = &xs[i];
        if deploy::has_id(o) {
            list::push(
                &mut out,
                match &o.order_id {
                    Some(v) => text::owned(v.as_str()),
                    None => text::owned(""),
                },
            );
        }
        assert(out.deep_view() =~= add_known_spec(xs.deep_view(), out0, (i + 1) as nat));
        i = i + 1;
    }
    out
}

/// The order ids the journal knows.
pub open spec fn known_ids_spec(rows: Seq<OrderView>) -> Seq<Seq<char>> {
    add_known_spec(rows, Seq::<Seq<char>>::empty(), rows.len())
}

fn known_ids(rows: &Vec<Order>) -> (r: Vec<String>)
    ensures
        r.deep_view() == known_ids_spec(rows.deep_view()),
{
    let mut out: Vec<String> = list::none();
    out = add_known(rows, out);
    out
}

/// Of the first `n` orders.
pub open spec fn add_unknown_spec(
    exch: Seq<char>,
    known: Seq<Seq<char>>,
    xs: Seq<ListedView>,
    out: Seq<Seq<char>>,
    n: nat,
) -> Seq<Seq<char>>
    decreases n,
{
    if n == 0 {
        out
    } else {
        let out = add_unknown_spec(exch, known, xs, out, (n - 1) as nat);
        let x = xs[n - 1];
        if !known.contains(x.order.order_id) {
            let side = if x.order.side == ""@ {
                "?"@
            } else {
                text::lower_case(x.order.side)
            };
            let price = match x.order.price {
                Some(v) => v,
                None => Double::zero_spec(),
            };
            out.push(
                exch
                    + " "@
                    + x.pair
                    + " "@
                    + side
                    + " "@
                    + crate::watch::pyfmt::g_spec(x.order.qty, 6)
                    + " @ "@
                    + crate::watch::pyfmt::g_spec(price, 6)
                    + ": resting at the venue, not in the journal"@,
            )
        } else {
            out
        }
    }
}

fn add_unknown(
    exch: &str,
    known: &Vec<String>,
    xs: &Vec<Listed>,
    out: Vec<String>,
) -> (r: Vec<String>)
    ensures
        r.deep_view() == add_unknown_spec(
            exch@,
            known.deep_view(),
            xs.deep_view(),
            out.deep_view(),
            xs@.len(),
        ),
{
    let ghost out0 = out.deep_view();
    let mut out = out;
    let mut i: usize = 0;
    while i < xs.len()
        invariant
            i <= xs@.len(),
            out.deep_view() == add_unknown_spec(
                exch@,
                known.deep_view(),
                xs.deep_view(),
                out0,
                i as nat,
            ),
        decreases xs@.len() - i,
    {
        let x = &xs[i];
        if !list::holds(known, x.order.order_id.as_str()) {
            let side = if text::same(x.order.side.as_str(), "") {
                text::owned("?")
            } else {
                text::lowercase(x.order.side.as_str())
            };
            let price = match x.order.price {
                Some(v) => v,
                None => Double::zero(),
            };
            let mut line = text::owned(exch);
            line.push_str(" ");
            line.push_str(x.pair.as_str());
            line.push_str(" ");
            line.push_str(side.as_str());
            line.push_str(" ");
            line.push_str(crate::watch::pyfmt::g(x.order.qty, 6).as_str());
            line.push_str(" @ ");
            line.push_str(crate::watch::pyfmt::g(price, 6).as_str());
            line.push_str(": resting at the venue, not in the journal");
            list::push(&mut out, line);
        }
        i = i + 1;
    }
    out
}

/// Orders the venue lists and the journal does not know.
pub open spec fn unknown_orders_spec(
    exch: Seq<char>,
    rows: Seq<OrderView>,
    ls: Seq<ListedView>,
) -> Seq<Seq<char>> {
    let out = Seq::<Seq<char>>::empty();
    let known = known_ids_spec(rows);
    add_unknown_spec(exch, known, ls, out, ls.len())
}

fn unknown_orders(exch: &str, rows: &Vec<Order>, ls: &Vec<Listed>) -> (r: Vec<String>)
    ensures
        r.deep_view() == unknown_orders_spec(exch@, rows.deep_view(), ls.deep_view()),
{
    let mut out: Vec<String> = list::none();
    let known = known_ids(rows);
    out = add_unknown(exch, &known, ls, out);
    out
}

/// Of the first `n` rows.
pub open spec fn add_open_buy_spec(
    exch: Seq<char>,
    xs: Seq<OrderView>,
    out: Seq<OrderView>,
    n: nat,
) -> Seq<OrderView> {
    out + list::kept(
        xs,
        |o: OrderView| o.exch == exch
            && journal::is_open_status_spec(o.status)
            && (o.side == ""@ || text::lower_case(o.side) == "buy"@),
        n,
    )
}

fn add_open_buy(exch: &str, xs: &Vec<Order>, out: Vec<Order>) -> (r: Vec<Order>)
    ensures
        r.deep_view() == add_open_buy_spec(exch@, xs.deep_view(), out.deep_view(), xs@.len()),
{
    let ghost out0 = out.deep_view();
    let mut out = out;
    let mut i: usize = 0;
    while i < xs.len()
        invariant
            i <= xs@.len(),
            out.deep_view() == add_open_buy_spec(exch@, xs.deep_view(), out0, i as nat),
        decreases xs@.len() - i,
    {
        let o = &xs[i];
        if text::same(o.exch.as_str(), exch)
            && journal::is_open_status(o.status.as_str())
            && (text::same(o.side.as_str(), "")
                || text::same(text::lowercase(o.side.as_str()).as_str(), "buy")) {
            list::push(&mut out, o.dup());
        }
        assert(out.deep_view() =~= add_open_buy_spec(exch@, xs.deep_view(), out0, (i + 1) as nat));
        i = i + 1;
    }
    out
}

/// The journal's open buys on a venue.
pub open spec fn open_buys_spec(exch: Seq<char>, rows: Seq<OrderView>) -> Seq<OrderView> {
    add_open_buy_spec(exch, rows, Seq::<OrderView>::empty(), rows.len())
}

fn open_buys(exch: &str, rows: &Vec<Order>) -> (r: Vec<Order>)
    ensures
        r.deep_view() == open_buys_spec(exch@, rows.deep_view()),
{
    let mut out: Vec<Order> = list::none();
    out = add_open_buy(exch, rows, out);
    out
}

/// Among the first `n` rows.
pub open spec fn see_usdc_spec(xs: Seq<OrderView>, out: bool, n: nat) -> bool {
    out || list::some(xs, |o: OrderView| is_usdc_quoted_spec(o.pair), n)
}

fn see_usdc(xs: &Vec<Order>, out: bool) -> (r: bool)
    ensures
        r == see_usdc_spec(xs.deep_view(), out, xs@.len()),
{
    let ghost out0 = out;
    let mut out = out;
    let mut i: usize = 0;
    while i < xs.len()
        invariant
            i <= xs@.len(),
            out == see_usdc_spec(xs.deep_view(), out0, i as nat),
        decreases xs@.len() - i,
    {
        let o = &xs[i];
        if is_usdc_quoted(o.pair.as_str()) {
            out = true;
        }
        assert(xs.deep_view()[i as int] == xs@[i as int].deep_view());
        assert(out == see_usdc_spec(xs.deep_view(), out0, (i + 1) as nat));
        i = i + 1;
    }
    out
}

/// Whether any of some rows is quoted in USDC.
pub open spec fn any_usdc_spec(rows: Seq<OrderView>) -> bool {
    see_usdc_spec(rows, false, rows.len())
}

fn any_usdc(rows: &Vec<Order>) -> (r: bool)
    ensures
        r == any_usdc_spec(rows.deep_view()),
{
    let mut out = false;
    out = see_usdc(rows, out);
    out
}

/// Of the first `n` assets.
pub open spec fn add_locked_spec(
    book: Seq<(Seq<char>, Balance)>,
    exch: Seq<char>,
    usdc_buys: bool,
    xs: Seq<Seq<char>>,
    locked: Double,
    n: nat,
) -> Double
    decreases n,
{
    if n == 0 {
        locked
    } else {
        let locked = add_locked_spec(book, exch, usdc_buys, xs, locked, (n - 1) as nat);
        let a = xs[n - 1];
        if !(exch == "revx"@ && a == "USDC"@ && !usdc_buys) {
            locked.add_spec(deploy::held_of_spec(book, a).locked)
        } else {
            locked
        }
    }
}

fn add_locked(
    book: &Vec<(String, Balance)>,
    exch: &str,
    usdc_buys: bool,
    xs: &Vec<String>,
    locked: Double,
) -> (r: Double)
    ensures
        r == add_locked_spec(
            book.deep_view(),
            exch@,
            usdc_buys,
            xs.deep_view(),
            locked,
            xs@.len(),
        ),
{
    let ghost locked0 = locked;
    let mut locked = locked;
    let mut i: usize = 0;
    while i < xs.len()
        invariant
            i <= xs@.len(),
            locked == add_locked_spec(
                book.deep_view(),
                exch@,
                usdc_buys,
                xs.deep_view(),
                locked0,
                i as nat,
            ),
        decreases xs@.len() - i,
    {
        let a = xs[i].as_str();
        if !(text::same(exch, "revx") && text::same(a, "USDC") && !usdc_buys) {
            locked = locked.plus(deploy::held_of(book, a).locked);
        }
        i = i + 1;
    }
    locked
}

/// The stable that resting buys lock. A Revolut X USDC lock with no USDC-quoted buy behind it is a
/// withdrawal in flight.
pub open spec fn locked_stable_spec(
    exch: Seq<char>,
    usdc_buys: bool,
    book: Seq<(Seq<char>, Balance)>,
) -> Double {
    add_locked_spec(
        book,
        exch,
        usdc_buys,
        stable_assets_spec(exch),
        Double::zero_spec(),
        stable_assets_spec(exch).len(),
    )
}

fn locked_stable(exch: &str, usdc_buys: bool, book: &Vec<(String, Balance)>) -> (r: Double)
    ensures
        r == locked_stable_spec(exch@, usdc_buys, book.deep_view()),
{
    let mut locked = Double::zero();
    locked = add_locked(book, exch, usdc_buys, &stable_assets(exch), locked);
    locked
}

/// Of the first `n` rows.
pub open spec fn add_remaining_spec(xs: Seq<OrderView>, out: Seq<Double>, n: nat) -> Seq<Double> {
    out + Seq::new(
        n,
        |i: int| {
            let o = xs[i];
            (match o.quote {
                Some(v) => v,
                None => Double::zero_spec(),
            }).sub_spec(
                match o.part_quote {
                    Some(v) => v,
                    None => Double::zero_spec(),
                },
            )
        },
    )
}

fn add_remaining(xs: &Vec<Order>, out: Vec<Double>) -> (r: Vec<Double>)
    ensures
        r.deep_view() == add_remaining_spec(xs.deep_view(), out.deep_view(), xs@.len()),
{
    let ghost out0 = out.deep_view();
    let mut out = out;
    let mut i: usize = 0;
    while i < xs.len()
        invariant
            i <= xs@.len(),
            out.deep_view() == add_remaining_spec(xs.deep_view(), out0, i as nat),
        decreases xs@.len() - i,
    {
        let o = &xs[i];
        list::push(
            &mut out,
            (match o.quote {
                Some(v) => v,
                None => Double::zero(),
            }).minus(
                match o.part_quote {
                    Some(v) => v,
                    None => Double::zero(),
                },
            ),
        );
        assert(out.deep_view() =~= add_remaining_spec(xs.deep_view(), out0, (i + 1) as nat));
        i = i + 1;
    }
    out
}

/// What each of some buys still has to spend.
pub open spec fn remaining_quotes_spec(rows: Seq<OrderView>) -> Seq<Double> {
    add_remaining_spec(rows, Seq::<Double>::empty(), rows.len())
}

fn remaining_quotes(rows: &Vec<Order>) -> (r: Vec<Double>)
    ensures
        r.deep_view() == remaining_quotes_spec(rows.deep_view()),
{
    let mut out: Vec<Double> = list::none();
    out = add_remaining(rows, out);
    out
}

/// Of the first `n` rows.
pub open spec fn add_full_spec(xs: Seq<OrderView>, out: Seq<Double>, n: nat) -> Seq<Double> {
    out + Seq::new(
        n,
        |i: int| {
            let o = xs[i];
            match o.quote {
                Some(v) => v,
                None => Double::zero_spec(),
            }
        },
    )
}

fn add_full(xs: &Vec<Order>, out: Vec<Double>) -> (r: Vec<Double>)
    ensures
        r.deep_view() == add_full_spec(xs.deep_view(), out.deep_view(), xs@.len()),
{
    let ghost out0 = out.deep_view();
    let mut out = out;
    let mut i: usize = 0;
    while i < xs.len()
        invariant
            i <= xs@.len(),
            out.deep_view() == add_full_spec(xs.deep_view(), out0, i as nat),
        decreases xs@.len() - i,
    {
        let o = &xs[i];
        list::push(
            &mut out,
            match o.quote {
                Some(v) => v,
                None => Double::zero(),
            },
        );
        assert(out.deep_view() =~= add_full_spec(xs.deep_view(), out0, (i + 1) as nat));
        i = i + 1;
    }
    out
}

/// The full size of each of some buys.
pub open spec fn full_quotes_spec(rows: Seq<OrderView>) -> Seq<Double> {
    add_full_spec(rows, Seq::<Double>::empty(), rows.len())
}

fn full_quotes(rows: &Vec<Order>) -> (r: Vec<Double>)
    ensures
        r.deep_view() == full_quotes_spec(rows.deep_view()),
{
    let mut out: Vec<Double> = list::none();
    out = add_full(rows, out);
    out
}

/// A gap between what the venue locks and what the journal's open buys need.
pub open spec fn locked_gap_spec(
    exch: Seq<char>,
    rows: Seq<OrderView>,
    book: Seq<(Seq<char>, Balance)>,
) -> Seq<Seq<char>> {
    let buys = open_buys_spec(exch, rows);
    let locked = locked_stable_spec(exch, any_usdc_spec(buys), book);
    let remaining = crate::watch::pyfmt::sum_spec(remaining_quotes_spec(buys));
    let full = crate::watch::pyfmt::sum_spec(full_quotes_spec(buys));
    let tol = Double::ratio_spec(2, 100).mul_spec(locked.max_spec(full)).max_spec(
        Double::int_spec(5),
    );
    let out = Seq::<Seq<char>>::empty();
    if locked.lt_spec(remaining.sub_spec(tol)) || full.add_spec(tol).lt_spec(locked) {
        out.push(
            exch
                + ": $"@
                + pyfmt::fixed_spec(locked, 2)
                + " stable locked at the venue vs $"@
                + pyfmt::fixed_spec(remaining, 2)
                + " (remaining) to $"@
                + pyfmt::fixed_spec(full, 2)
                + " (full size) in journal open buys (tolerance $"@
                + pyfmt::fixed_spec(tol, 2)
                + ")"@,
        )
    } else {
        out
    }
}

fn locked_gap(exch: &str, rows: &Vec<Order>, book: &Vec<(String, Balance)>) -> (r: Vec<String>)
    ensures
        r.deep_view() == locked_gap_spec(exch@, rows.deep_view(), book.deep_view()),
{
    let buys = open_buys(exch, rows);
    let locked = locked_stable(exch, any_usdc(&buys), book);
    let remaining = list::sum(&remaining_quotes(&buys));
    let full = list::sum(&full_quotes(&buys));
    let tol = Double::ratio(2, 100).times(locked.max(full)).max(Double::of_int(5));
    let mut out: Vec<String> = list::none();
    if locked.lt(remaining.minus(tol)) || full.plus(tol).lt(locked) {
        let mut line = text::owned(exch);
        line.push_str(": $");
        line.push_str(pyfmt::fixed(locked, 2).as_str());
        line.push_str(" stable locked at the venue vs $");
        line.push_str(pyfmt::fixed(remaining, 2).as_str());
        line.push_str(" (remaining) to $");
        line.push_str(pyfmt::fixed(full, 2).as_str());
        line.push_str(" (full size) in journal open buys (tolerance $");
        line.push_str(pyfmt::fixed(tol, 2).as_str());
        line.push_str(")");
        list::push(&mut out, line);
    }
    out
}

/// The comparison for one venue: finding texts, empty when the books agree.
pub open spec fn compare_spec(
    exch: Seq<char>,
    rows: Seq<OrderView>,
    open: Seq<(Seq<char>, Seq<ParsedOrderView>)>,
    book: Seq<(Seq<char>, Balance)>,
) -> Seq<Seq<char>> {
    let ls = all_listed_spec(open);
    let out = missing_orders_spec(exch, rows, open, ls);
    let out = out + resized_orders_spec(exch, rows, ls);
    let out = out + unknown_orders_spec(exch, rows, ls);
    out + locked_gap_spec(exch, rows, book)
}

/// The comparison for one venue: finding texts, empty when the books agree.
pub fn compare(
    exch: &str,
    rows: &Vec<Order>,
    open: &Vec<(String, Vec<ParsedOrder>)>,
    book: &Vec<(String, Balance)>,
) -> (r: Vec<String>)
    ensures
        r.deep_view() == compare_spec(exch@, rows.deep_view(), open.deep_view(), book.deep_view()),
{
    let ls = all_listed(open);
    let mut out = missing_orders(exch, rows, open, &ls);
    out = list::joined(out, resized_orders(exch, rows, &ls));
    out = list::joined(out, unknown_orders(exch, rows, &ls));
    out = list::joined(out, locked_gap(exch, rows, book));
    out
}

/// What reading a venue gave.
#[derive(Debug)]
pub struct Reading {
    pub exch: String,
    pub book: Vec<(String, Balance)>,
    /// The resting orders of each pair that was read.
    pub open: Vec<(String, Vec<ParsedOrder>)>,
    /// Why it could not be read, if it could not.
    pub error: Option<String>,
}

/// What a [`Reading`] holds.
pub struct ReadingView {
    pub exch: Seq<char>,
    pub book: Seq<(Seq<char>, Balance)>,
    pub open: Seq<(Seq<char>, Seq<ParsedOrderView>)>,
    pub error: Option<Seq<char>>,
}

impl DeepView for Reading {
    type V = ReadingView;

    open spec fn deep_view(&self) -> ReadingView {
        ReadingView {
            exch: self.exch@,
            book: self.book.deep_view(),
            open: self.open.deep_view(),
            error: self.error.deep_view(),
        }
    }
}

/// The findings on a venue: one that cannot be read is a finding.
pub open spec fn venue_findings_spec(r: ReadingView, rows: Seq<OrderView>) -> Seq<Seq<char>> {
    match r.error {
        Some(e) => Seq::<Seq<char>>::empty().push(
            r.exch + ": audit could not read the venue ("@ + text::first(e, 100) + ")"@,
        ),
        None => compare_spec(r.exch, rows, r.open, r.book),
    }
}

fn venue_findings(r: &Reading, rows: &Vec<Order>) -> (out: Vec<String>)
    ensures
        out.deep_view() == venue_findings_spec(r.deep_view(), rows.deep_view()),
{
    match &r.error {
        Some(e) => {
            let mut out: Vec<String> = list::none();
            let mut line = text::owned(r.exch.as_str());
            line.push_str(": audit could not read the venue (");
            line.push_str(text::head(e.as_str(), 100).as_str());
            line.push_str(")");
            list::push(&mut out, line);
            out
        },
        None => compare(r.exch.as_str(), rows, &r.open, &r.book),
    }
}

/// The first `n` of them.
pub open spec fn add_open_pair_spec(
    xs: Seq<(Seq<char>, Seq<ParsedOrderView>)>,
    out: Seq<Seq<char>>,
    n: nat,
) -> Seq<Seq<char>> {
    out + Seq::new(
        n,
        |i: int| {
            let it = xs[i];
            let k = it.0;
            k
        },
    )
}

fn add_open_pair(xs: &Vec<(String, Vec<ParsedOrder>)>, out: Vec<String>) -> (r: Vec<String>)
    ensures
        r.deep_view() == add_open_pair_spec(xs.deep_view(), out.deep_view(), xs@.len()),
{
    let ghost out0 = out.deep_view();
    let mut out = out;
    let mut i: usize = 0;
    while i < xs.len()
        invariant
            i <= xs@.len(),
            out.deep_view() == add_open_pair_spec(xs.deep_view(), out0, i as nat),
        decreases xs@.len() - i,
    {
        let it = &xs[i];
        let k = it.0.as_str();
        list::push(&mut out, text::owned(k));
        assert(out.deep_view() =~= add_open_pair_spec(xs.deep_view(), out0, (i + 1) as nat));
        i = i + 1;
    }
    out
}

/// The pairs that were read on a venue.
pub open spec fn open_pairs_spec(r: ReadingView) -> Seq<Seq<char>> {
    add_open_pair_spec(r.open, Seq::<Seq<char>>::empty(), r.open.len())
}

fn open_pairs(r: &Reading) -> (out: Vec<String>)
    ensures
        out.deep_view() == open_pairs_spec(r.deep_view()),
{
    let mut out: Vec<String> = list::none();
    out = add_open_pair(&r.open, out);
    out
}

/// The first `n` of them.
pub open spec fn add_finding_spec(
    xs: Seq<Seq<char>>,
    out: Seq<RunResultView>,
    n: nat,
) -> Seq<RunResultView>
    decreases n,
{
    if n == 0 {
        out
    } else {
        let out = add_finding_spec(xs, out, (n - 1) as nat);
        let f = xs[n - 1];
        out.push(
            RunResultView {
                sym: None,
                side: None,
                mode: None,
                hk: true,
                deploy: false,
                audit: true,
                committed: false,
                done: None,
                warn: Some("BOOK AUDIT: "@ + f),
                err: None,
                info: None,
            },
        )
    }
}

fn add_finding(xs: &Vec<String>, out: Vec<RunResult>) -> (r: Vec<RunResult>)
    ensures
        r.deep_view() == add_finding_spec(xs.deep_view(), out.deep_view(), xs@.len()),
{
    let ghost out0 = out.deep_view();
    let mut out = out;
    let mut i: usize = 0;
    while i < xs.len()
        invariant
            i <= xs@.len(),
            out.deep_view() == add_finding_spec(xs.deep_view(), out0, i as nat),
        decreases xs@.len() - i,
    {
        let f = xs[i].as_str();
        let mut line = text::owned("BOOK AUDIT: ");
        line.push_str(f);
        list::push(
            &mut out,
            RunResult {
                sym: None,
                side: None,
                mode: None,
                hk: true,
                deploy: false,
                audit: true,
                committed: false,
                done: None,
                warn: Some(line),
                err: None,
                info: None,
            },
        );
        i = i + 1;
    }
    out
}

/// The findings as results.
pub open spec fn finding_lines_spec(findings: Seq<Seq<char>>) -> Seq<RunResultView> {
    add_finding_spec(findings, Seq::<RunResultView>::empty(), findings.len())
}

fn finding_lines(findings: &Vec<String>) -> (r: Vec<RunResult>)
    ensures
        r.deep_view() == finding_lines_spec(findings.deep_view()),
{
    let mut out: Vec<RunResult> = list::none();
    out = add_finding(findings, out);
    out
}

/// The first `n` venues.
pub open spec fn audit_each_spec(
    rows: Seq<OrderView>,
    xs: Seq<ReadingView>,
    findings: Seq<Seq<char>>,
    pairs: Seq<Seq<char>>,
    checked: Seq<(Seq<char>, usize)>,
    n: nat,
) -> (Seq<Seq<char>>, Seq<Seq<char>>, Seq<(Seq<char>, usize)>)
    decreases n,
{
    if n == 0 {
        (findings, pairs, checked)
    } else {
        let (findings, pairs, checked) = audit_each_spec(
            rows,
            xs,
            findings,
            pairs,
            checked,
            (n - 1) as nat,
        );
        let r = xs[n - 1];
        let findings = findings + venue_findings_spec(r, rows);
        let (pairs, checked) = if r.error is None {
            (pairs + open_pairs_spec(r), checked.push((r.exch, (r.open.len() as usize))))
        } else {
            (pairs, checked)
        };
        (findings, pairs, checked)
    }
}

fn audit_each(
    rows: &Vec<Order>,
    xs: &Vec<Reading>,
    findings: Vec<String>,
    pairs: Vec<String>,
    checked: Vec<(String, usize)>,
) -> (r: (Vec<String>, Vec<String>, Vec<(String, usize)>))
    ensures
        r.deep_view() == audit_each_spec(
            rows.deep_view(),
            xs.deep_view(),
            findings.deep_view(),
            pairs.deep_view(),
            checked.deep_view(),
            xs@.len(),
        ),
{
    let ghost findings0 = findings.deep_view();
    let ghost pairs0 = pairs.deep_view();
    let ghost checked0 = checked.deep_view();
    let mut findings = findings;
    let mut pairs = pairs;
    let mut checked = checked;
    let mut i: usize = 0;
    while i < xs.len()
        invariant
            i <= xs@.len(),
            (findings.deep_view(), pairs.deep_view(), checked.deep_view()) == audit_each_spec(
                rows.deep_view(),
                xs.deep_view(),
                findings0,
                pairs0,
                checked0,
                i as nat,
            ),
        decreases xs@.len() - i,
    {
        let r = &xs[i];
        findings = list::joined(findings, venue_findings(r, rows));
        if r.error.is_none() {
            pairs = list::joined(pairs, open_pairs(r));
            list::push(&mut checked, (text::owned(r.exch.as_str()), r.open.len()));
        }
        i = i + 1;
    }
    (findings, pairs, checked)
}

/// Audit every venue with a client, from what reading each of them gave. Never fails: a venue that
/// cannot be read is a finding.
pub open spec fn run_spec(
    readings: Seq<ReadingView>,
    rows: Seq<OrderView>,
    now: Double,
) -> (Seq<RunResultView>, AuditStateView) {
    let findings = Seq::<Seq<char>>::empty();
    let pairs = Seq::<Seq<char>>::empty();
    let checked = Seq::<(Seq<char>, usize)>::empty();
    let (findings, pairs, checked) = audit_each_spec(
        rows,
        readings,
        findings,
        pairs,
        checked,
        readings.len(),
    );
    let results = finding_lines_spec(findings);
    let results = if findings.len() == 0 {
        results.push(
            RunResultView {
                sym: None,
                side: None,
                mode: None,
                hk: true,
                deploy: false,
                audit: true,
                committed: false,
                done: None,
                warn: None,
                err: None,
                info: Some(
                    "BOOK AUDIT ok: "@
                        + text::dec(((pairs.len() as usize)) as nat)
                        + " pairs on "@
                        + text::dec(((checked.len() as usize)) as nat)
                        + " venues agree with the journal"@,
                ),
            },
        )
    } else {
        results
    };
    let ok = findings.len() == 0;
    (results, AuditStateView { ts: now, ok, findings, checked })
}

/// Audit every venue with a client, from what reading each of them gave. Never fails: a venue that
/// cannot be read is a finding.
pub fn run(
    readings: &Vec<Reading>,
    rows: &Vec<Order>,
    now: Double,
) -> (r: (Vec<RunResult>, AuditState))
    ensures
        r.deep_view() == run_spec(readings.deep_view(), rows.deep_view(), now),
{
    let mut findings: Vec<String> = list::none();
    let mut pairs: Vec<String> = list::none();
    let mut checked: Vec<(String, usize)> = list::none();
    let (next_findings, next_pairs, next_checked) = audit_each(
        rows,
        readings,
        findings,
        pairs,
        checked,
    );
    findings = next_findings;
    pairs = next_pairs;
    checked = next_checked;
    let mut results = finding_lines(&findings);
    if findings.len() == 0 {
        let mut line = text::owned("BOOK AUDIT ok: ");
        line.push_str(text::dec_u64(pairs.len() as u64).as_str());
        line.push_str(" pairs on ");
        line.push_str(text::dec_u64(checked.len() as u64).as_str());
        line.push_str(" venues agree with the journal");
        list::push(
            &mut results,
            RunResult {
                sym: None,
                side: None,
                mode: None,
                hk: true,
                deploy: false,
                audit: true,
                committed: false,
                done: None,
                warn: None,
                err: None,
                info: Some(line),
            },
        );
    }
    let ok = findings.len() == 0;
    (results, AuditState { ts: now, ok, findings, checked })
}

/// The audit hook a live run calls once a day.
#[derive(Clone, Copy, Debug, Default)]
pub struct BookAudit;

impl BookAudit {
    /// The audit's results, and the state it leaves.
    pub fn run(&self, readings: &Vec<Reading>, rows: &Vec<Order>, now: Double) -> (r: (
        Vec<RunResult>,
        AuditState,
    ))
        ensures
            r.deep_view() == run_spec(readings.deep_view(), rows.deep_view(), now),
    {
        run(readings, rows, now)
    }
}

// ------------------------------------------------------------------ laws
/// A clean audit says so, and one with findings does not.
pub proof fn law_clean_exactly_without_findings(
    readings: Seq<ReadingView>,
    rows: Seq<OrderView>,
    now: Double,
)
    ensures
        ({
            let (results, state) = run_spec(readings, rows, now);
            &&& state.ok <==> state.findings.len() == 0
            &&& state.ok ==> results.len() == 1 && results[0].info is Some
        }),
{
    reveal_with_fuel(add_finding_spec, 2);
}

/// A venue that cannot be read is a finding: the audit never passes over it.
pub proof fn law_an_unreadable_venue_is_a_finding(r: ReadingView, rows: Seq<OrderView>)
    requires
        r.error is Some,
    ensures
        venue_findings_spec(r, rows).len() == 1,
{
}

/// The finding on an open row that the venue does not list.
pub open spec fn missing_line(exch: Seq<char>, o: OrderView) -> Seq<char> {
    let oid = match o.order_id {
        Some(v) => v,
        None => ""@,
    };
    exch + " "@ + or_none_spec(o.sym) + " "@ + or_none_spec(o.kind) + " "@ + o.client_id
        + ": journal open, venue has no order "@ + oid + " (missed fill or cancel?)"@
}

proof fn lemma_missing(
    exch: Seq<char>,
    ls: Seq<ListedView>,
    open: Seq<(Seq<char>, Seq<ParsedOrderView>)>,
    xs: Seq<OrderView>,
    i: int,
    n: nat,
)
    requires
        0 <= i < n <= xs.len(),
        open_here_spec(xs[i], exch),
        reads_pair_spec(open, xs[i].pair),
        !is_listed_spec(ls, xs[i].order_id->0),
    ensures
        add_missing_spec(exch, ls, open, xs, Seq::empty(), n).contains(missing_line(exch, xs[i])),
    decreases n,
{
    let s = add_missing_spec(exch, ls, open, xs, Seq::empty(), n);
    let t = add_missing_spec(exch, ls, open, xs, Seq::empty(), (n - 1) as nat);
    let line = missing_line(exch, xs[i]);
    if i == n - 1 {
        assert(s == t.push(line));
        assert(s[t.len() as int] == line);
    } else {
        lemma_missing(exch, ls, open, xs, i, (n - 1) as nat);
        let k = choose|k: int| 0 <= k < t.len() && t[k] == line;
        assert(s[k] == line);
    }
}

/// Every journal row that says it is open, of a pair that was read, must still be listed by the
/// venue: one that is not is a finding.
pub proof fn law_an_open_row_must_be_listed(r: ReadingView, rows: Seq<OrderView>, i: int)
    requires
        r.error is None,
        0 <= i < rows.len(),
        open_here_spec(rows[i], r.exch),
        reads_pair_spec(r.open, rows[i].pair),
        !is_listed_spec(all_listed_spec(r.open), rows[i].order_id->0),
    ensures
        venue_findings_spec(r, rows).contains(missing_line(r.exch, rows[i])),
{
    let ls = all_listed_spec(r.open);
    let line = missing_line(r.exch, rows[i]);
    lemma_missing(r.exch, ls, r.open, rows, i, rows.len());
    let t = missing_orders_spec(r.exch, rows, r.open, ls);
    let k = choose|k: int| 0 <= k < t.len() && t[k] == line;
    assert(venue_findings_spec(r, rows)[k] == line);
}

/// The finding on a resting order that the journal does not know.
pub open spec fn stray_line(exch: Seq<char>, x: ListedView) -> Seq<char> {
    let side = if x.order.side == ""@ {
        "?"@
    } else {
        text::lower_case(x.order.side)
    };
    let price = match x.order.price {
        Some(v) => v,
        None => Double::zero_spec(),
    };
    exch + " "@ + x.pair + " "@ + side + " "@ + crate::watch::pyfmt::g_spec(x.order.qty, 6)
        + " @ "@ + crate::watch::pyfmt::g_spec(price, 6)
        + ": resting at the venue, not in the journal"@
}

proof fn lemma_unknown(
    exch: Seq<char>,
    known: Seq<Seq<char>>,
    xs: Seq<ListedView>,
    i: int,
    n: nat,
)
    requires
        0 <= i < n <= xs.len(),
        !known.contains(xs[i].order.order_id),
    ensures
        add_unknown_spec(exch, known, xs, Seq::empty(), n).contains(stray_line(exch, xs[i])),
    decreases n,
{
    let s = add_unknown_spec(exch, known, xs, Seq::empty(), n);
    let t = add_unknown_spec(exch, known, xs, Seq::empty(), (n - 1) as nat);
    let line = stray_line(exch, xs[i]);
    if i == n - 1 {
        assert(s == t.push(line));
        assert(s[t.len() as int] == line);
    } else {
        lemma_unknown(exch, known, xs, i, (n - 1) as nat);
        let k = choose|k: int| 0 <= k < t.len() && t[k] == line;
        assert(s[k] == line);
    }
}

/// Every order that the venue lists must be known to the journal: one that is not is a finding.
pub proof fn law_a_listed_order_must_be_known(r: ReadingView, rows: Seq<OrderView>, i: int)
    requires
        r.error is None,
        0 <= i < all_listed_spec(r.open).len(),
        !known_ids_spec(rows).contains(all_listed_spec(r.open)[i].order.order_id),
    ensures
        venue_findings_spec(r, rows).contains(
            stray_line(r.exch, all_listed_spec(r.open)[i]),
        ),
{
    let ls = all_listed_spec(r.open);
    let line = stray_line(r.exch, ls[i]);
    lemma_unknown(r.exch, known_ids_spec(rows), ls, i, ls.len());
    let a = missing_orders_spec(r.exch, rows, r.open, ls) + resized_orders_spec(r.exch, rows, ls);
    let t = unknown_orders_spec(r.exch, rows, ls);
    let k = choose|k: int| 0 <= k < t.len() && t[k] == line;
    assert((a + t)[a.len() + k] == line);
    assert(venue_findings_spec(r, rows)[a.len() + k] == line);
}

proof fn lemma_audited(rows: Seq<OrderView>, xs: Seq<ReadingView>, i: int, line: Seq<char>, n: nat)
    requires
        0 <= i < n <= xs.len(),
        venue_findings_spec(xs[i], rows).contains(line),
    ensures
        audit_each_spec(rows, xs, Seq::empty(), Seq::empty(), Seq::empty(), n).0.contains(line),
    decreases n,
{
    let s = audit_each_spec(rows, xs, Seq::empty(), Seq::empty(), Seq::empty(), n).0;
    let t = audit_each_spec(rows, xs, Seq::empty(), Seq::empty(), Seq::empty(), (n - 1) as nat).0;
    if i == n - 1 {
        let f = venue_findings_spec(xs[i], rows);
        let k = choose|k: int| 0 <= k < f.len() && f[k] == line;
        assert(s[t.len() + k] == line);
    } else {
        lemma_audited(rows, xs, i, line, (n - 1) as nat);
        let k = choose|k: int| 0 <= k < t.len() && t[k] == line;
        assert(s[k] == line);
    }
}

/// What is found on any venue stands in the state that the audit leaves.
pub proof fn law_every_finding_is_kept(
    readings: Seq<ReadingView>,
    rows: Seq<OrderView>,
    now: Double,
    i: int,
    line: Seq<char>,
)
    requires
        0 <= i < readings.len(),
        venue_findings_spec(readings[i], rows).contains(line),
    ensures
        run_spec(readings, rows, now).1.findings.contains(line),
        !run_spec(readings, rows, now).1.ok,
{
    lemma_audited(rows, readings, i, line, readings.len());
}

proof fn lemma_tolerance(f: Double)
    requires
        f.finite(),
        f.amount() >= 0x100_0000,
    ensures
        ({
            let t = Double::ratio_spec(1, 100).mul_spec(f).max_spec(Double::int_spec(1));
            &&& !t.nan()
            &&& t.amount() >= crate::double::unit()
            &&& 150 * t.amount() >= f.amount()
            &&& 75 * t.amount() <= f.amount() || t.amount() == crate::double::unit()
        }),
{
    rounding::lemma_one_is_exact();
    rounding::lemma_part_of(f, 1, 100);
    rounding::lemma_ratio_error(1, 100);
    rounding::lemma_mul_swaps(Double::ratio_spec(1, 100), f);
    let p = f.mul_spec(Double::ratio_spec(1, 100)).amount();
    let a = f.amount();
    assert(1048476 * a <= 104857600 * p <= 1048676 * a) by (nonlinear_arith)
        requires
            (0x10_0000 * 1 - 100) * a <= 0x10_0000 * 100 * p,
            0x10_0000 * 100 * p <= (0x10_0000 * 1 + 100) * a,
    ;
}

/// An order as large as the journal has it, in full or as it remains, is no finding; nor is one
/// that is off by half a percent of what remains, or by a dollar.
pub proof fn law_a_matching_size_is_no_finding(
    o: OrderView,
    x: ParsedOrderView,
    price: Double,
    full: Double,
    part: Double,
    venue: Double,
    remains: Double,
    off: Double,
)
    requires
        x.price == Some(price),
        o.quote == Some(full),
        o.part_quote == Some(part),
        x.qty.finite(),
        price.finite(),
        full.finite(),
        part.finite(),
        venue.finite(),
        venue.amount() * crate::double::unit() == x.qty.amount() * price.amount(),
        remains.finite(),
        remains.amount() == full.amount() - part.amount(),
        remains.amount() >= 0x100_0000,
        off.finite(),
        off.amount() == venue.amount() - remains.amount() || off.amount() == venue.amount()
            - full.amount(),
        200 * rounding::size(off.amount()) <= remains.amount() || rounding::size(off.amount())
            <= crate::double::unit(),
    ensures
        size_gap_spec(o, x) is None,
{
    crate::double::lemma_scaled_zero();
    rounding::lemma_exact_product(x.qty, price, venue);
    rounding::lemma_exact_difference(full, part, remains);
    let v = x.qty.mul_spec(price);
    let j = full.sub_spec(part);
    lemma_tolerance(j);
    rounding::lemma_sub_sign(v, j);
    rounding::lemma_sub_sign(v, full);
    if off.amount() == venue.amount() - remains.amount() {
        rounding::lemma_exact_difference(v, j, off);
    } else {
        rounding::lemma_exact_difference(v, full, off);
    }
}

/// An order that is off by more than a dollar and two percent of what the journal has is a finding.
pub proof fn law_a_wrong_size_is_a_finding(
    o: OrderView,
    x: ParsedOrderView,
    price: Double,
    full: Double,
    venue: Double,
    off: Double,
)
    requires
        x.price == Some(price),
        o.quote == Some(full),
        o.part_quote is None,
        x.qty.finite(),
        price.finite(),
        full.finite(),
        venue.finite(),
        venue.amount() > 0,
        venue.amount() * crate::double::unit() == x.qty.amount() * price.amount(),
        full.amount() >= 0x100_0000,
        off.finite(),
        off.amount() == venue.amount() - full.amount(),
        50 * rounding::size(off.amount()) >= full.amount(),
        rounding::size(off.amount()) > crate::double::unit(),
    ensures
        size_gap_spec(o, x) matches Some(g) && g.0.amount() == venue.amount() && g.1.amount()
            == full.amount(),
{
    crate::double::lemma_scaled_zero();
    rounding::lemma_exact_product(x.qty, price, venue);
    rounding::lemma_exact_difference(full, Double::zero_spec(), full);
    let v = x.qty.mul_spec(price);
    let j = full.sub_spec(Double::zero_spec());
    lemma_tolerance(j);
    rounding::lemma_exact_difference(v, j, off);
    rounding::lemma_exact_difference(v, full, off);
}

/// A venue that locks between what the open buys still need and what they need in full is no
/// finding.
pub proof fn law_covered_buys_are_no_finding(
    exch: Seq<char>,
    rows: Seq<OrderView>,
    book: Seq<(Seq<char>, Balance)>,
)
    requires
        ({
            let buys = open_buys_spec(exch, rows);
            let locked = locked_stable_spec(exch, any_usdc_spec(buys), book);
            let remaining = crate::watch::pyfmt::sum_spec(remaining_quotes_spec(buys));
            let full = crate::watch::pyfmt::sum_spec(full_quotes_spec(buys));
            &&& locked.finite() && remaining.finite() && full.finite()
            &&& 0 <= remaining.amount() <= locked.amount() <= full.amount()
        }),
    ensures
        locked_gap_spec(exch, rows, book).len() == 0,
{
    let buys = open_buys_spec(exch, rows);
    let locked = locked_stable_spec(exch, any_usdc_spec(buys), book);
    let remaining = crate::watch::pyfmt::sum_spec(remaining_quotes_spec(buys));
    let full = crate::watch::pyfmt::sum_spec(full_quotes_spec(buys));
    let zero = Double::zero_spec();
    let one = Double::int_spec(1);
    crate::double::lemma_scaled_zero();
    vstd::arithmetic::power2::lemma_pow2_pos(1074);
    let m = locked.max_spec(full);
    rounding::lemma_ratio_error(2, 100);
    rounding::lemma_one_is_exact();
    rounding::lemma_whole_is_exact(5);
    rounding::lemma_mul_order(Double::ratio_spec(2, 100), one, m);
    rounding::lemma_mul_swaps(one, m);
    rounding::lemma_times_one(m);
    rounding::lemma_infinite_is_last(m);
    let p = Double::ratio_spec(2, 100).mul_spec(m);
    rounding::lemma_infinite_is_last(p);
    let tol = p.max_spec(Double::int_spec(5));
    assert(tol.finite()) by {
        if p.infinite() {
            assert(rounding::size(p.amount()) == crate::double::scaled(
                crate::double::INFINITE as nat,
            ));
            rounding::lemma_mul_order(zero, Double::ratio_spec(2, 100), m);
            assert(0 * m.amount() == 0 * crate::double::unit());
            rounding::lemma_exact_product(zero, m, zero);
        }
    }
    rounding::lemma_sub_order(zero, tol, remaining);
    rounding::lemma_exact_difference(remaining, zero, remaining);
    rounding::lemma_add_order(zero, tol, full);
    rounding::lemma_exact_sum(zero, full, full);
    rounding::lemma_add_swaps(tol, full);
}

/// Buys of more than five dollars with nothing locked for them are a finding.
pub proof fn law_uncovered_buys_are_a_finding(
    exch: Seq<char>,
    rows: Seq<OrderView>,
    book: Seq<(Seq<char>, Balance)>,
)
    requires
        ({
            let buys = open_buys_spec(exch, rows);
            let locked = locked_stable_spec(exch, any_usdc_spec(buys), book);
            let remaining = crate::watch::pyfmt::sum_spec(remaining_quotes_spec(buys));
            let full = crate::watch::pyfmt::sum_spec(full_quotes_spec(buys));
            &&& locked.finite() && remaining.finite() && full.finite()
            &&& locked.amount() == 0
            &&& remaining.amount() == full.amount()
            &&& full.amount() > 5 * crate::double::unit()
        }),
    ensures
        locked_gap_spec(exch, rows, book).len() == 1,
{
    let buys = open_buys_spec(exch, rows);
    let locked = locked_stable_spec(exch, any_usdc_spec(buys), book);
    let remaining = crate::watch::pyfmt::sum_spec(remaining_quotes_spec(buys));
    let full = crate::watch::pyfmt::sum_spec(full_quotes_spec(buys));
    crate::double::lemma_scaled_zero();
    rounding::lemma_whole_is_exact(5);
    let m = locked.max_spec(full);
    vstd::arithmetic::power2::lemma_pow2_strictly_increases(24, 1074);
    vstd::arithmetic::power2::lemma2_to64();
    rounding::lemma_part_of(m, 2, 100);
    rounding::lemma_ratio_error(2, 100);
    rounding::lemma_mul_swaps(Double::ratio_spec(2, 100), m);
    let p = m.mul_spec(Double::ratio_spec(2, 100));
    let a = m.amount();
    let b = p.amount();
    assert(104857600 * b <= 2097252 * a) by (nonlinear_arith)
        requires
            0x10_0000 * 100 * b <= (0x10_0000 * 2 + 100) * a,
    ;
    let tol = p.max_spec(Double::int_spec(5));
    assert(tol.amount() < remaining.amount());
    rounding::lemma_sub_sign(remaining, tol);
}

} // verus!
