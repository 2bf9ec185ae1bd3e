//! The idempotent order journal.
//!
//! Every order is written here with a deterministic client id before it is placed. If the
//! process dies between "the venue accepted it" and "the state was saved", the next run sees
//! the id already journaled and does not place it again. That is the entire defence against a
//! crash turning into a double trade, and it is the reason the id is derived from intent
//! rather than from a counter or a clock reading.
//!
//! On disk the journal is one JSON object, `{client_id: row}`, in the order rows were first
//! written. A row is an [`Order`]; its field names are the stable contract other programs
//! read, so they never change spelling. Fields this crate does not know are kept as they were
//! read and written back unchanged.
//!
//! * [`root_id`] strips reprice and retry suffixes back to the original id. Deriving the next
//!   suffix from the previous id instead grows it a few characters every reprice until it
//!   exceeds the venue's 36-character limit, and the order stops being placed.
//! * [`Journal::filled_since`] takes an `inclusive` flag. A fill that lands in the same run
//!   that writes a balance baseline shares that run's timestamp, and the baseline is read
//!   before the fill settles. With a strict comparison neither run can explain it, and it
//!   shows up forever as phantom drift.
use crate::double::Double;
use crate::ids;
use crate::list;
use crate::list::Duplicate;
use crate::pyfmt;
use crate::rounding;
use crate::text;
use crate::watch::fields;
use crate::watch::json;
use crate::watch::json::{Doc, Json};
use indexmap::IndexMap;
use vstd::prelude::*;

verus! {

/// The window a client id is bucketed into, in seconds. Same intent inside 30 minutes is one
/// order.
pub const WINDOW_SECS: i64 = 1800;

/// Binance caps a client id at 36 characters; the journal holds to the same cap.
pub const MAX_CLIENT_ID_LEN: usize = 36;

/// Whether a status means that the order may still be resting at the venue. Each venue
/// spells them its own way and the journal keeps the venue's spelling.
pub open spec fn is_open_status_spec(s: Seq<char>) -> bool {
    (s == "pending"@
        || s == "placed"@
        || s == "open"@
        || s == "new"@
        || s == "NEW"@
        || s == "PARTIALLY_FILLED"@)
}

/// Whether a status means that the order may still be resting at the venue. Each venue
/// spells them its own way and the journal keeps the venue's spelling.
pub fn is_open_status(s: &str) -> (r: bool)
    ensures
        r == is_open_status_spec(s@),
{
    (text::same(s, "pending")
        || text::same(s, "placed")
        || text::same(s, "open")
        || text::same(s, "new")
        || text::same(s, "NEW")
        || text::same(s, "PARTIALLY_FILLED"))
}

/// Whether a status means that the order left the book without filling completely.
pub open spec fn is_venue_cancelled_status_spec(s: Seq<char>) -> bool {
    (s == "cancelled"@
        || s == "canceled"@
        || s == "CANCELED"@
        || s == "expired"@
        || s == "EXPIRED"@
        || s == "rejected"@
        || s == "REJECTED"@)
}

/// Whether a status means that the order left the book without filling completely.
pub fn is_venue_cancelled_status(s: &str) -> (r: bool)
    ensures
        r == is_venue_cancelled_status_spec(s@),
{
    (text::same(s, "cancelled")
        || text::same(s, "canceled")
        || text::same(s, "CANCELED")
        || text::same(s, "expired")
        || text::same(s, "EXPIRED")
        || text::same(s, "rejected")
        || text::same(s, "REJECTED"))
}

/// Whether a note says that we ended the order ourselves. A cancel without such a note reads
/// as the venue's, whose cash is still owed a re-ladder, and is never archived.
pub open spec fn is_our_cancel_spec(note: Option<Seq<char>>) -> bool {
    match note {
        Some(s) => text::holds(s, "rolled into new tranche"@)
            || text::holds(s, "manual --cancel"@)
            || text::holds(s, "repriced up"@)
            || text::holds(s, "cover restored"@)
            || text::holds(s, "bull sweep"@),
        None => false,
    }
}

/// Whether a note says that we ended the order ourselves. A cancel without such a note reads
/// as the venue's, whose cash is still owed a re-ladder, and is never archived.
pub fn is_our_cancel(note: Option<&str>) -> (r: bool)
    ensures
        r == is_our_cancel_spec(note.deep_view()),
{
    match note {
        Some(s) => text::contains(s, "rolled into new tranche")
            || text::contains(s, "manual --cancel")
            || text::contains(s, "repriced up")
            || text::contains(s, "cover restored")
            || text::contains(s, "bull sweep"),
        None => false,
    }
}

/// Which way an order goes.
#[derive(Clone, Copy, Debug, PartialEq, Eq, Structural)]
pub enum Side {
    Buy,
    Sell,
}

impl DeepView for Side {
    type V = Side;

    open spec fn deep_view(&self) -> Side {
        *self
    }
}

/// How a side is written.
pub open spec fn side_name_spec(s: Side) -> Seq<char> {
    match s {
        Side::Buy => "buy"@,
        Side::Sell => "sell"@,
    }
}

fn side_name(s: Side) -> (r: String)
    ensures
        r@ == side_name_spec(s),
{
    match s {
        Side::Buy => text::owned("buy"),
        Side::Sell => text::owned("sell"),
    }
}

/// How a side stands in an id.
pub open spec fn side_tag_spec(s: Side) -> Seq<char> {
    match s {
        Side::Buy => "b"@,
        Side::Sell => "s"@,
    }
}

fn side_tag(s: Side) -> (r: String)
    ensures
        r@ == side_tag_spec(s),
{
    match s {
        Side::Buy => text::owned("b"),
        Side::Sell => text::owned("s"),
    }
}

/// The side a text names, capitals or not.
pub open spec fn side_of_spec(s: Seq<char>) -> Option<Side> {
    let t = text::ascii_lower(s);
    if t == "buy"@ {
        Some(Side::Buy)
    } else if t == "sell"@ {
        Some(Side::Sell)
    } else {
        None
    }
}

fn side_of(s: &str) -> (r: Option<Side>)
    ensures
        r == side_of_spec(s@),
{
    let t = text::to_ascii_lower(s);
    if text::same(t.as_str(), "buy") {
        return Some(Side::Buy);
    }
    if text::same(t.as_str(), "sell") {
        return Some(Side::Sell);
    }
    None
}

/// One journal row. Every field but `client_id` may be missing, because rows written by
/// different paths carry different fields. An absent field and a `null` read the same.
#[derive(Debug)]
pub struct Order {
    pub client_id: String,
    pub sym: String,
    /// The venue: `gate`, `revx` or `binance`.
    pub exch: String,
    pub pair: String,
    /// `buy` or `sell`.
    pub side: String,
    /// What placed it: `market_buy`, `market_sell`, `limit_sell`, `deploy_buy`, ...
    pub kind: String,
    /// The venue's own spelling: see [`is_open_status`] and [`is_venue_cancelled_status`], plus
    /// `filled` and `error`.
    pub status: String,
    /// Quote amount intended.
    pub quote: Option<Double>,
    pub price: Option<Double>,
    /// Base amount intended.
    pub base: Option<Double>,
    pub rung: Option<i64>,
    /// When the intent was journaled.
    pub ts: Option<Double>,
    pub note: Option<String>,
    pub label: Option<String>,
    pub first_ts: Option<Double>,
    /// The venue's id for the order, once placed.
    pub order_id: Option<String>,
    pub filled_base: Option<Double>,
    pub filled_quote: Option<Double>,
    pub avg_price: Option<Double>,
    pub filled_ts: Option<Double>,
    /// Partial-fill progress on an order still resting.
    pub part_base: Option<Double>,
    pub part_quote: Option<Double>,
    /// When the venue last changed the status.
    pub status_ts: Option<Double>,
    pub last_error: Option<String>,
    pub retries: Option<i64>,
    pub gave_up: Option<bool>,
    /// Has the freed cash been re-laddered?
    pub swept: Option<bool>,
    /// The fill was booked from an order that left the book part-filled.
    pub partial: Option<bool>,
    /// Booked on a cancel, handed out by the next reconcile.
    pub book_pending: Option<bool>,
    pub settle_error: Option<String>,
    /// Re-attached to a venue-side replacement order.
    pub adopted_ts: Option<Double>,
    pub manual_size: Option<bool>,
    /// Anything else a row carried, kept verbatim.
    pub extra: Json,
}

/// What a [`Order`] holds.
pub struct OrderView {
    pub client_id: Seq<char>,
    pub sym: Seq<char>,
    pub exch: Seq<char>,
    pub pair: Seq<char>,
    pub side: Seq<char>,
    pub kind: Seq<char>,
    pub status: Seq<char>,
    pub quote: Option<Double>,
    pub price: Option<Double>,
    pub base: Option<Double>,
    pub rung: Option<i64>,
    pub ts: Option<Double>,
    pub note: Option<Seq<char>>,
    pub label: Option<Seq<char>>,
    pub first_ts: Option<Double>,
    pub order_id: Option<Seq<char>>,
    pub filled_base: Option<Double>,
    pub filled_quote: Option<Double>,
    pub avg_price: Option<Double>,
    pub filled_ts: Option<Double>,
    pub part_base: Option<Double>,
    pub part_quote: Option<Double>,
    pub status_ts: Option<Double>,
    pub last_error: Option<Seq<char>>,
    pub retries: Option<i64>,
    pub gave_up: Option<bool>,
    pub swept: Option<bool>,
    pub partial: Option<bool>,
    pub book_pending: Option<bool>,
    pub settle_error: Option<Seq<char>>,
    pub adopted_ts: Option<Double>,
    pub manual_size: Option<bool>,
    pub extra: Doc,
}

impl DeepView for Order {
    type V = OrderView;

    open spec fn deep_view(&self) -> OrderView {
        OrderView {
            client_id: self.client_id@,
            sym: self.sym@,
            exch: self.exch@,
            pair: self.pair@,
            side: self.side@,
            kind: self.kind@,
            status: self.status@,
            quote: self.quote,
            price: self.price,
            base: self.base,
            rung: self.rung,
            ts: self.ts,
            note: self.note.deep_view(),
            label: self.label.deep_view(),
            first_ts: self.first_ts,
            order_id: self.order_id.deep_view(),
            filled_base: self.filled_base,
            filled_quote: self.filled_quote,
            avg_price: self.avg_price,
            filled_ts: self.filled_ts,
            part_base: self.part_base,
            part_quote: self.part_quote,
            status_ts: self.status_ts,
            last_error: self.last_error.deep_view(),
            retries: self.retries,
            gave_up: self.gave_up,
            swept: self.swept,
            partial: self.partial,
            book_pending: self.book_pending,
            settle_error: self.settle_error.deep_view(),
            adopted_ts: self.adopted_ts,
            manual_size: self.manual_size,
            extra: self.extra@,
        }
    }
}

impl Duplicate for Order {
    fn dup(&self) -> (r: Order) {
        Order {
            client_id: text::owned(self.client_id.as_str()),
            sym: text::owned(self.sym.as_str()),
            exch: text::owned(self.exch.as_str()),
            pair: text::owned(self.pair.as_str()),
            side: text::owned(self.side.as_str()),
            kind: text::owned(self.kind.as_str()),
            status: text::owned(self.status.as_str()),
            quote: self.quote,
            price: self.price,
            base: self.base,
            rung: self.rung,
            ts: self.ts,
            note: self.note.dup(),
            label: self.label.dup(),
            first_ts: self.first_ts,
            order_id: self.order_id.dup(),
            filled_base: self.filled_base,
            filled_quote: self.filled_quote,
            avg_price: self.avg_price,
            filled_ts: self.filled_ts,
            part_base: self.part_base,
            part_quote: self.part_quote,
            status_ts: self.status_ts,
            last_error: self.last_error.dup(),
            retries: self.retries,
            gave_up: self.gave_up,
            swept: self.swept,
            partial: self.partial,
            book_pending: self.book_pending,
            settle_error: self.settle_error.dup(),
            adopted_ts: self.adopted_ts,
            manual_size: self.manual_size,
            extra: self.extra.copy(),
        }
    }
}

/// A row that says nothing but its id.
pub open spec fn blank_row_spec(client_id: Seq<char>) -> OrderView {
    OrderView {
        client_id,
        sym: ""@,
        exch: ""@,
        pair: ""@,
        side: ""@,
        kind: ""@,
        status: ""@,
        quote: None,
        price: None,
        base: None,
        rung: None,
        ts: None,
        note: None,
        label: None,
        first_ts: None,
        order_id: None,
        filled_base: None,
        filled_quote: None,
        avg_price: None,
        filled_ts: None,
        part_base: None,
        part_quote: None,
        status_ts: None,
        last_error: None,
        retries: None,
        gave_up: None,
        swept: None,
        partial: None,
        book_pending: None,
        settle_error: None,
        adopted_ts: None,
        manual_size: None,
        extra: Doc::obj(),
    }
}

fn blank_row(client_id: &str) -> (r: Order)
    ensures
        r.deep_view() == blank_row_spec(client_id@),
{
    Order {
        client_id: text::owned(client_id),
        sym: text::owned(""),
        exch: text::owned(""),
        pair: text::owned(""),
        side: text::owned(""),
        kind: text::owned(""),
        status: text::owned(""),
        quote: None,
        price: None,
        base: None,
        rung: None,
        ts: None,
        note: None,
        label: None,
        first_ts: None,
        order_id: None,
        filled_base: None,
        filled_quote: None,
        avg_price: None,
        filled_ts: None,
        part_base: None,
        part_quote: None,
        status_ts: None,
        last_error: None,
        retries: None,
        gave_up: None,
        swept: None,
        partial: None,
        book_pending: None,
        settle_error: None,
        adopted_ts: None,
        manual_size: None,
        extra: Json::obj(),
    }
}

/// Whether a number is there and not zero.
pub open spec fn truthy_f_spec(x: Option<Double>) -> bool {
    match x {
        Some(v) => !v.eq_spec(Double::zero_spec()),
        None => false,
    }
}

/// Whether a number is there and not zero.
pub fn truthy_f(x: Option<Double>) -> (r: bool)
    ensures
        r == truthy_f_spec(x),
{
    match x {
        Some(v) => !v.same(Double::zero()),
        None => false,
    }
}

/// The base amount this order has put on (or taken off) the books so far.
pub open spec fn booked_spec(o: OrderView) -> Double {
    if truthy_f_spec(o.filled_ts) {
        match o.filled_base {
            Some(v) => v,
            None => Double::zero_spec(),
        }
    } else {
        match o.part_base {
            Some(v) => v,
            None => Double::zero_spec(),
        }
    }
}

/// The base amount this order has put on (or taken off) the books so far.
pub fn booked(o: &Order) -> (r: Double)
    ensures
        r == booked_spec(o.deep_view()),
{
    if truthy_f(o.filled_ts) {
        return match o.filled_base {
            Some(v) => v,
            None => Double::zero(),
        };
    }
    match o.part_base {
        Some(v) => v,
        None => Double::zero(),
    }
}

/// One more field, where it is not empty.
pub open spec fn with_name_spec(out: Doc, k: Seq<char>, s: Seq<char>) -> Doc {
    if s != ""@ {
        out.with(k, Doc::Str(s))
    } else {
        out
    }
}

fn with_name(out: Json, k: &str, s: &str) -> (r: Json)
    ensures
        r@ == with_name_spec(out@, k@, s@),
{
    let mut out = out;
    if !text::same(s, "") {
        out = out.with(k, Json::text(s));
    }
    out
}

/// One more text, where there is one.
pub open spec fn with_text_spec(out: Doc, k: Seq<char>, x: Option<Seq<char>>) -> Doc {
    match x {
        Some(v) => out.with(k, Doc::Str(v)),
        None => out,
    }
}

fn with_text(out: Json, k: &str, x: Option<&str>) -> (r: Json)
    ensures
        r@ == with_text_spec(out@, k@, x.deep_view()),
{
    let mut out = out;
    match x {
        Some(v) => {
            out = out.with(k, Json::text(v));
        },
        None => {},
    }
    out
}

/// One more number, where there is one.
pub open spec fn with_num_spec(out: Doc, k: Seq<char>, x: Option<Double>) -> Doc {
    match x {
        Some(v) => out.with(k, Doc::Float(v)),
        None => out,
    }
}

fn with_num(out: Json, k: &str, x: Option<Double>) -> (r: Json)
    ensures
        r@ == with_num_spec(out@, k@, x),
{
    let mut out = out;
    match x {
        Some(v) => {
            out = out.with(k, Json::Float(v));
        },
        None => {},
    }
    out
}

/// One more integer, where there is one.
pub open spec fn with_int_spec(out: Doc, k: Seq<char>, x: Option<i64>) -> Doc {
    match x {
        Some(v) => out.with(k, Doc::Int(v)),
        None => out,
    }
}

fn with_int(out: Json, k: &str, x: Option<i64>) -> (r: Json)
    ensures
        r@ == with_int_spec(out@, k@, x),
{
    let mut out = out;
    match x {
        Some(v) => {
            out = out.with(k, Json::Int(v));
        },
        None => {},
    }
    out
}

/// One more boolean, where there is one.
pub open spec fn with_flag_spec(out: Doc, k: Seq<char>, x: Option<bool>) -> Doc {
    match x {
        Some(v) => out.with(k, Doc::Bool(v)),
        None => out,
    }
}

fn with_flag(out: Json, k: &str, x: Option<bool>) -> (r: Json)
    ensures
        r@ == with_flag_spec(out@, k@, x),
{
    let mut out = out;
    match x {
        Some(v) => {
            out = out.with(k, Json::Bool(v));
        },
        None => {},
    }
    out
}

/// And the first `n` of what is kept verbatim.
pub open spec fn add_extra_spec(xs: Seq<(Seq<char>, Doc)>, out: Doc, n: nat) -> Doc
    decreases n,
{
    if n == 0 {
        out
    } else {
        let out = add_extra_spec(xs, out, (n - 1) as nat);
        let it = xs[n - 1];
        let k = it.0;
        let v = it.1;
        out.with(k, v)
    }
}

fn add_extra(xs: &Vec<(String, Json)>, out: Json) -> (r: Json)
    ensures
        r@ == add_extra_spec(xs.deep_view(), out@, xs@.len()),
{
    let ghost out0 = out@;
    let mut out = out;
    let mut i: usize = 0;
    while i < xs.len()
        invariant
            i <= xs@.len(),
            out@ == add_extra_spec(xs.deep_view(), out0, i as nat),
        decreases xs@.len() - i,
    {
        let it = &xs[i];
        let k = it.0.as_str();
        let v = &it.1;
        out = out.with(k, v.copy());
        i = i + 1;
    }
    out
}

/// A row as the file holds it: what is missing is left out.
pub open spec fn row_json_spec(o: OrderView) -> Doc {
    let out = Doc::obj().with("client_id"@, Doc::Str(o.client_id));
    let out = with_name_spec(out, "sym"@, o.sym);
    let out = with_name_spec(out, "exch"@, o.exch);
    let out = with_name_spec(out, "pair"@, o.pair);
    let out = with_name_spec(out, "side"@, o.side);
    let out = with_name_spec(out, "kind"@, o.kind);
    let out = with_name_spec(out, "status"@, o.status);
    let out = with_num_spec(out, "quote"@, o.quote);
    let out = with_num_spec(out, "price"@, o.price);
    let out = with_num_spec(out, "base"@, o.base);
    let out = with_int_spec(out, "rung"@, o.rung);
    let out = with_num_spec(out, "ts"@, o.ts);
    let out = with_text_spec(out, "note"@, o.note);
    let out = with_text_spec(out, "label"@, o.label);
    let out = with_num_spec(out, "first_ts"@, o.first_ts);
    let out = with_text_spec(out, "order_id"@, o.order_id);
    let out = with_num_spec(out, "filled_base"@, o.filled_base);
    let out = with_num_spec(out, "filled_quote"@, o.filled_quote);
    let out = with_num_spec(out, "avg_price"@, o.avg_price);
    let out = with_num_spec(out, "filled_ts"@, o.filled_ts);
    let out = with_num_spec(out, "part_base"@, o.part_base);
    let out = with_num_spec(out, "part_quote"@, o.part_quote);
    let out = with_num_spec(out, "status_ts"@, o.status_ts);
    let out = with_text_spec(out, "last_error"@, o.last_error);
    let out = with_int_spec(out, "retries"@, o.retries);
    let out = with_flag_spec(out, "gave_up"@, o.gave_up);
    let out = with_flag_spec(out, "swept"@, o.swept);
    let out = with_flag_spec(out, "partial"@, o.partial);
    let out = with_flag_spec(out, "book_pending"@, o.book_pending);
    let out = with_text_spec(out, "settle_error"@, o.settle_error);
    let out = with_num_spec(out, "adopted_ts"@, o.adopted_ts);
    let out = with_flag_spec(out, "manual_size"@, o.manual_size);
    add_extra_spec(o.extra.entries(), out, o.extra.entries().len())
}

fn row_json(o: &Order) -> (r: Json)
    ensures
        r@ == row_json_spec(o.deep_view()),
{
    let mut out = Json::obj().with("client_id", Json::text(o.client_id.as_str()));
    out = with_name(out, "sym", o.sym.as_str());
    out = with_name(out, "exch", o.exch.as_str());
    out = with_name(out, "pair", o.pair.as_str());
    out = with_name(out, "side", o.side.as_str());
    out = with_name(out, "kind", o.kind.as_str());
    out = with_name(out, "status", o.status.as_str());
    out = with_num(out, "quote", o.quote);
    out = with_num(out, "price", o.price);
    out = with_num(out, "base", o.base);
    out = with_int(out, "rung", o.rung);
    out = with_num(out, "ts", o.ts);
    out = with_text(out, "note", list::text_ref(&o.note));
    out = with_text(out, "label", list::text_ref(&o.label));
    out = with_num(out, "first_ts", o.first_ts);
    out = with_text(out, "order_id", list::text_ref(&o.order_id));
    out = with_num(out, "filled_base", o.filled_base);
    out = with_num(out, "filled_quote", o.filled_quote);
    out = with_num(out, "avg_price", o.avg_price);
    out = with_num(out, "filled_ts", o.filled_ts);
    out = with_num(out, "part_base", o.part_base);
    out = with_num(out, "part_quote", o.part_quote);
    out = with_num(out, "status_ts", o.status_ts);
    out = with_text(out, "last_error", list::text_ref(&o.last_error));
    out = with_int(out, "retries", o.retries);
    out = with_flag(out, "gave_up", o.gave_up);
    out = with_flag(out, "swept", o.swept);
    out = with_flag(out, "partial", o.partial);
    out = with_flag(out, "book_pending", o.book_pending);
    out = with_text(out, "settle_error", list::text_ref(&o.settle_error));
    out = with_num(out, "adopted_ts", o.adopted_ts);
    out = with_flag(out, "manual_size", o.manual_size);
    out = add_extra(&json::entries(&o.extra), out);
    out
}

/// The text under a key.
pub open spec fn text_under_spec(j: Doc, k: Seq<char>) -> Option<Seq<char>> {
    match j.get(k) {
        Some(v) => match v.as_text() {
            Some(s) => Some(s),
            None => None,
        },
        None => None,
    }
}

fn text_under(j: &Json, k: &str) -> (r: Option<String>)
    ensures
        r.deep_view() == text_under_spec(j@, k@),
{
    match j.get(k) {
        Some(v) => match v.as_str() {
            Some(s) => Some(text::owned(s)),
            None => None,
        },
        None => None,
    }
}

/// What a field holds, none for one that is kept verbatim or read loosely.
pub open spec fn field_kind_spec(k: Seq<char>) -> Option<Seq<char>> {
    if (k == "client_id"@
        || k == "sym"@
        || k == "exch"@
        || k == "pair"@
        || k == "side"@
        || k == "kind"@
        || k == "status"@
        || k == "note"@
        || k == "label"@
        || k == "last_error"@
        || k == "settle_error"@
        || k == "venue"@) {
        Some("a string"@)
    } else if (k == "quote"@
        || k == "price"@
        || k == "base"@
        || k == "ts"@
        || k == "first_ts"@
        || k == "filled_base"@
        || k == "filled_quote"@
        || k == "avg_price"@
        || k == "filled_ts"@
        || k == "part_base"@
        || k == "part_quote"@
        || k == "status_ts"@
        || k == "adopted_ts"@
        || k == "placed_ts"@) {
        Some("a number"@)
    } else if (k == "rung"@ || k == "retries"@) {
        Some("an integer"@)
    } else if (k == "gave_up"@
        || k == "swept"@
        || k == "partial"@
        || k == "book_pending"@
        || k == "manual_size"@) {
        Some("a boolean"@)
    } else {
        None
    }
}

fn field_kind(k: &str) -> (r: Option<String>)
    ensures
        r.deep_view() == field_kind_spec(k@),
{
    if (text::same(k, "client_id")
        || text::same(k, "sym")
        || text::same(k, "exch")
        || text::same(k, "pair")
        || text::same(k, "side")
        || text::same(k, "kind")
        || text::same(k, "status")
        || text::same(k, "note")
        || text::same(k, "label")
        || text::same(k, "last_error")
        || text::same(k, "settle_error")
        || text::same(k, "venue")) {
        return Some(text::owned("a string"));
    }
    if (text::same(k, "quote")
        || text::same(k, "price")
        || text::same(k, "base")
        || text::same(k, "ts")
        || text::same(k, "first_ts")
        || text::same(k, "filled_base")
        || text::same(k, "filled_quote")
        || text::same(k, "avg_price")
        || text::same(k, "filled_ts")
        || text::same(k, "part_base")
        || text::same(k, "part_quote")
        || text::same(k, "status_ts")
        || text::same(k, "adopted_ts")
        || text::same(k, "placed_ts")) {
        return Some(text::owned("a number"));
    }
    if (text::same(k, "rung") || text::same(k, "retries")) {
        return Some(text::owned("an integer"));
    }
    if (text::same(k, "gave_up")
        || text::same(k, "swept")
        || text::same(k, "partial")
        || text::same(k, "book_pending")
        || text::same(k, "manual_size")) {
        return Some(text::owned("a boolean"));
    }
    None
}

/// Whether a field is one that a row has of its own.
pub open spec fn is_known_spec(k: Seq<char>) -> bool {
    field_kind_spec(k) is Some || k == "order_id"@ || k == "venue_order_id"@
}

fn is_known(k: &str) -> (r: bool)
    ensures
        r == is_known_spec(k@),
{
    field_kind(k).is_some() || text::same(k, "order_id") || text::same(k, "venue_order_id")
}

/// Whether a value is of a kind.
pub open spec fn is_a_spec(v: Doc, kind: Seq<char>) -> bool {
    if kind == "a string"@ {
        v is Str
    } else if kind == "a number"@ {
        (v is Int || v is Float)
    } else if kind == "an integer"@ {
        v is Int
    } else {
        v is Bool
    }
}

fn is_a(v: &Json, kind: &str) -> (r: bool)
    ensures
        r == is_a_spec(v@, kind@),
{
    if text::same(kind, "a string") {
        return v.is_str();
    }
    if text::same(kind, "a number") {
        return v.is_num();
    }
    if text::same(kind, "an integer") {
        return v.is_int();
    }
    v.is_bool()
}

/// The first fault among the first `n` fields.
pub open spec fn find_fault_spec(
    xs: Seq<(Seq<char>, Doc)>,
    fault: Option<Seq<char>>,
    n: nat,
) -> Option<Seq<char>>
    decreases n,
{
    if n == 0 {
        fault
    } else {
        let fault = find_fault_spec(xs, fault, (n - 1) as nat);
        let it = xs[n - 1];
        let k = it.0;
        let v = it.1;
        if fault is None && !(v is Null) {
            match field_kind_spec(k) {
                Some(kind) => if !is_a_spec(v, kind) {
                    Some(k + " is not "@ + kind)
                } else {
                    fault
                },
                None => fault,
            }
        } else {
            fault
        }
    }
}

fn find_fault(xs: &Vec<(String, Json)>, fault: Option<String>) -> (r: Option<String>)
    ensures
        r.deep_view() == find_fault_spec(xs.deep_view(), fault.deep_view(), xs@.len()),
{
    let ghost fault0 = fault.deep_view();
    let mut fault = fault;
    let mut i: usize = 0;
    while i < xs.len()
        invariant
            i <= xs@.len(),
            fault.deep_view() == find_fault_spec(xs.deep_view(), fault0, i as nat),
        decreases xs@.len() - i,
    {
        let it = &xs[i];
        let k = it.0.as_str();
        let v = &it.1;
        if fault.is_none() && !v.is_null() {
            match field_kind(k) {
                Some(kind) => {
                    if !is_a(v, kind.as_str()) {
                        let mut line = text::owned(k);
                        line.push_str(" is not ");
                        line.push_str(kind.as_str());
                        fault = Some(line);
                    }
                },
                None => {},
            }
        }
        i = i + 1;
    }
    fault
}

/// Why a value is no row: it is no object, has no id, or a field does not hold what it
/// should.
pub open spec fn row_fault_spec(j: Doc) -> Option<Seq<char>> {
    if !(j is Obj) {
        Some("a row is not an object"@)
    } else if text_under_spec(j, "client_id"@) is None {
        Some("a row has no client_id"@)
    } else {
        let fault: Option<Seq<char>> = None;
        find_fault_spec(j.entries(), fault, j.entries().len())
    }
}

fn row_fault(j: &Json) -> (r: Option<String>)
    ensures
        r.deep_view() == row_fault_spec(j@),
{
    if !j.is_obj() {
        return Some(text::owned("a row is not an object"));
    }
    if text_under(j, "client_id").is_none() {
        return Some(text::owned("a row has no client_id"));
    }
    let mut fault: Option<String> = None;
    fault = find_fault(&json::entries(j), fault);
    fault
}

/// Those of the first `n` fields.
pub open spec fn add_unknown_spec(xs: Seq<(Seq<char>, Doc)>, out: Doc, n: nat) -> Doc
    decreases n,
{
    if n == 0 {
        out
    } else {
        let out = add_unknown_spec(xs, out, (n - 1) as nat);
        let it = xs[n - 1];
        let k = it.0;
        let v = it.1;
        if !is_known_spec(k) {
            out.with(k, v)
        } else {
            out
        }
    }
}

fn add_unknown(xs: &Vec<(String, Json)>, out: Json) -> (r: Json)
    ensures
        r@ == add_unknown_spec(xs.deep_view(), out@, xs@.len()),
{
    let ghost out0 = out@;
    let mut out = out;
    let mut i: usize = 0;
    while i < xs.len()
        invariant
            i <= xs@.len(),
            out@ == add_unknown_spec(xs.deep_view(), out0, i as nat),
        decreases xs@.len() - i,
    {
        let it = &xs[i];
        let k = it.0.as_str();
        let v = &it.1;
        if !is_known(k) {
            out = out.with(k, v.copy());
        }
        i = i + 1;
    }
    out
}

/// The fields that are kept verbatim.
pub open spec fn unknown_fields_spec(j: Doc) -> Doc {
    let out = Doc::obj();
    add_unknown_spec(j.entries(), out, j.entries().len())
}

fn unknown_fields(j: &Json) -> (r: Json)
    ensures
        r@ == unknown_fields_spec(j@),
{
    let mut out = Json::obj();
    out = add_unknown(&json::entries(j), out);
    out
}

/// The number under a key.
pub open spec fn num_under_spec(j: Doc, k: Seq<char>) -> Option<Double> {
    match j.get(k) {
        Some(v) => v.num(),
        None => None,
    }
}

fn num_under(j: &Json, k: &str) -> (r: Option<Double>)
    ensures
        r == num_under_spec(j@, k@),
{
    match j.get(k) {
        Some(v) => v.num(),
        None => None,
    }
}

/// The integer under a key.
pub open spec fn int_under_spec(j: Doc, k: Seq<char>) -> Option<i64> {
    match j.get(k) {
        Some(v) => v.as_int(),
        None => None,
    }
}

fn int_under(j: &Json, k: &str) -> (r: Option<i64>)
    ensures
        r == int_under_spec(j@, k@),
{
    match j.get(k) {
        Some(v) => v.as_int(),
        None => None,
    }
}

/// The boolean under a key.
pub open spec fn flag_under_spec(j: Doc, k: Seq<char>) -> Option<bool> {
    match j.get(k) {
        Some(v) => v.as_flag(),
        None => None,
    }
}

fn flag_under(j: &Json, k: &str) -> (r: Option<bool>)
    ensures
        r == flag_under_spec(j@, k@),
{
    match j.get(k) {
        Some(v) => v.as_flag(),
        None => None,
    }
}

/// Whatever stands under a key, as text.
pub open spec fn loose_under_spec(j: Doc, k: Seq<char>) -> Option<Seq<char>> {
    match j.get(k) {
        Some(v) => if v is Null {
            None
        } else {
            Some(pyfmt::shown(pyfmt::ordered_doc(v)))
        },
        None => None,
    }
}

fn loose_under(j: &Json, k: &str) -> (r: Option<String>)
    ensures
        r.deep_view() == loose_under_spec(j@, k@),
{
    match j.get(k) {
        Some(v) => {
            if v.is_null() {
                return None;
            }
            Some(pyfmt::value_str(v))
        },
        None => None,
    }
}

/// The first of two texts that is there.
pub open spec fn either_text_spec(a: Option<Seq<char>>, b: Option<Seq<char>>) -> Option<Seq<char>> {
    match a {
        Some(s) => Some(s),
        None => b,
    }
}

fn either_text(a: Option<String>, b: Option<String>) -> (r: Option<String>)
    ensures
        r.deep_view() == either_text_spec(a.deep_view(), b.deep_view()),
{
    match a {
        Some(s) => Some(s),
        None => b,
    }
}

/// The first of two numbers that is there.
pub open spec fn either_num_spec(a: Option<Double>, b: Option<Double>) -> Option<Double> {
    match a {
        Some(x) => Some(x),
        None => b,
    }
}

fn either_num(a: Option<Double>, b: Option<Double>) -> (r: Option<Double>)
    ensures
        r == either_num_spec(a, b),
{
    match a {
        Some(x) => Some(x),
        None => b,
    }
}

/// A row from its JSON, or why it is none.
pub open spec fn read_row_spec(j: Doc) -> Result<OrderView, Seq<char>> {
    match row_fault_spec(j) {
        Some(why) => Err(why),
        None => Ok(
            OrderView {
                client_id: fields::text_or_spec(j, "client_id"@, ""@),
                sym: fields::text_or_spec(j, "sym"@, ""@),
                exch: fields::text_or_spec(j, "exch"@, fields::text_or_spec(j, "venue"@, ""@)),
                pair: fields::text_or_spec(j, "pair"@, ""@),
                side: fields::text_or_spec(j, "side"@, ""@),
                kind: fields::text_or_spec(j, "kind"@, ""@),
                status: fields::text_or_spec(j, "status"@, ""@),
                quote: num_under_spec(j, "quote"@),
                price: num_under_spec(j, "price"@),
                base: num_under_spec(j, "base"@),
                rung: int_under_spec(j, "rung"@),
                ts: either_num_spec(num_under_spec(j, "ts"@), num_under_spec(j, "placed_ts"@)),
                note: text_under_spec(j, "note"@),
                label: text_under_spec(j, "label"@),
                first_ts: num_under_spec(j, "first_ts"@),
                order_id: either_text_spec(
                    loose_under_spec(j, "order_id"@),
                    loose_under_spec(j, "venue_order_id"@),
                ),
                filled_base: num_under_spec(j, "filled_base"@),
                filled_quote: num_under_spec(j, "filled_quote"@),
                avg_price: num_under_spec(j, "avg_price"@),
                filled_ts: num_under_spec(j, "filled_ts"@),
                part_base: num_under_spec(j, "part_base"@),
                part_quote: num_under_spec(j, "part_quote"@),
                status_ts: num_under_spec(j, "status_ts"@),
                last_error: text_under_spec(j, "last_error"@),
                retries: int_under_spec(j, "retries"@),
                gave_up: flag_under_spec(j, "gave_up"@),
                swept: flag_under_spec(j, "swept"@),
                partial: flag_under_spec(j, "partial"@),
                book_pending: flag_under_spec(j, "book_pending"@),
                settle_error: text_under_spec(j, "settle_error"@),
                adopted_ts: num_under_spec(j, "adopted_ts"@),
                manual_size: flag_under_spec(j, "manual_size"@),
                extra: unknown_fields_spec(j),
            },
        ),
    }
}

/// A row from its JSON, or why it is none.
pub fn read_row(j: &Json) -> (r: Result<Order, String>)
    ensures
        list::outcome(r) == read_row_spec(j@),
{
    match row_fault(j) {
        Some(why) => Err(why),
        None => Ok(
            Order {
                client_id: fields::text_or(j, "client_id", ""),
                sym: fields::text_or(j, "sym", ""),
                exch: fields::text_or(j, "exch", fields::text_or(j, "venue", "").as_str()),
                pair: fields::text_or(j, "pair", ""),
                side: fields::text_or(j, "side", ""),
                kind: fields::text_or(j, "kind", ""),
                status: fields::text_or(j, "status", ""),
                quote: num_under(j, "quote"),
                price: num_under(j, "price"),
                base: num_under(j, "base"),
                rung: int_under(j, "rung"),
                ts: either_num(num_under(j, "ts"), num_under(j, "placed_ts")),
                note: text_under(j, "note"),
                label: text_under(j, "label"),
                first_ts: num_under(j, "first_ts"),
                order_id: either_text(
                    loose_under(j, "order_id"),
                    loose_under(j, "venue_order_id"),
                ),
                filled_base: num_under(j, "filled_base"),
                filled_quote: num_under(j, "filled_quote"),
                avg_price: num_under(j, "avg_price"),
                filled_ts: num_under(j, "filled_ts"),
                part_base: num_under(j, "part_base"),
                part_quote: num_under(j, "part_quote"),
                status_ts: num_under(j, "status_ts"),
                last_error: text_under(j, "last_error"),
                retries: int_under(j, "retries"),
                gave_up: flag_under(j, "gave_up"),
                swept: flag_under(j, "swept"),
                partial: flag_under(j, "partial"),
                book_pending: flag_under(j, "book_pending"),
                settle_error: text_under(j, "settle_error"),
                adopted_ts: num_under(j, "adopted_ts"),
                manual_size: flag_under(j, "manual_size"),
                extra: unknown_fields(j),
            },
        ),
    }
}

impl Side {
    pub fn as_str(&self) -> (r: &'static str)
        ensures
            r@ == side_name_spec(*self),
    {
        match self {
            Side::Buy => "buy",
            Side::Sell => "sell",
        }
    }

    pub fn parse(s: &str) -> (r: Option<Side>)
        ensures
            r == side_of_spec(s@),
    {
        side_of(s)
    }
}

impl Default for Order {
    fn default() -> (r: Order)
        ensures
            r.deep_view() == blank_row_spec(""@),
    {
        blank_row("")
    }
}

impl Order {
    /// A fresh row, the shape every placement path starts from.
    pub fn new(client_id: &str) -> (r: Order)
        ensures
            r.deep_view() == blank_row_spec(client_id@),
    {
        blank_row(client_id)
    }

    pub fn is_open(&self) -> (r: bool)
        ensures
            r == is_open_status_spec(self.status@),
    {
        is_open_status(self.status.as_str())
    }

    pub fn side_enum(&self) -> (r: Option<Side>)
        ensures
            r == side_of_spec(self.side@),
    {
        side_of(self.side.as_str())
    }

    /// Base amount this order has put on (or taken off) the books so far.
    pub fn booked_base(&self) -> (r: Double)
        ensures
            r == booked_spec(self.deep_view()),
    {
        booked(self)
    }

    /// The row as the file holds it.
    pub fn to_json(&self) -> (r: Json)
        ensures
            r@ == row_json_spec(self.deep_view()),
    {
        row_json(self)
    }
}

// ------------------------------------------------------------------ ids
/// The 30-minute window of a time.
pub open spec fn window_of_spec(ts: Double) -> i64 {
    ts.div_spec(Double::int_spec(WINDOW_SECS as int)).floor_spec().cast_spec(
        i64::MIN as int,
        i64::MAX as int,
    ) as i64
}

fn window_of(ts: Double) -> (r: i64)
    ensures
        r == window_of_spec(ts),
{
    ts.over(Double::of_int(WINDOW_SECS)).floor().to_i64()
}

/// Deterministic, exchange-safe client id: `cs{SYM}{b|s}{slot}r{rung}`, where the slot is the
/// 30-minute window. The same intent inside one window produces the same id, so a retry after a
/// crash collides with the existing row instead of placing a second order.
///
/// The symbol is used as given; [`ids::safe_cid`] repairs any character a venue would
/// refuse.
pub open spec fn client_id_spec(
    sym: Seq<char>,
    side: Side,
    window_ts: Double,
    rung: i64,
) -> Seq<char> {
    "cs"@
        + sym
        + side_tag_spec(side)
        + text::dec_int(window_of_spec(window_ts) as int)
        + "r"@
        + text::dec_int(rung as int)
}

/// Deterministic, exchange-safe client id: `cs{SYM}{b|s}{slot}r{rung}`, where the slot is the
/// 30-minute window. The same intent inside one window produces the same id, so a retry after a
/// crash collides with the existing row instead of placing a second order.
///
/// The symbol is used as given; [`ids::safe_cid`] repairs any character a venue would
/// refuse.
pub fn client_id(sym: &str, side: Side, window_ts: Double, rung: i64) -> (r: String)
    ensures
        r@ == client_id_spec(sym@, side, window_ts, rung),
{
    let mut line = text::owned("cs");
    line.push_str(sym);
    line.push_str(side_tag(side).as_str());
    line.push_str(text::dec_i64(window_of(window_ts)).as_str());
    line.push_str("r");
    line.push_str(text::dec_i64(rung).as_str());
    line
}

/// Whether a symbol in an id may hold a character.
pub open spec fn is_symbol(c: char) -> bool {
    ('A' <= c && c <= 'Z') || text::is_digit(c)
}

/// Where the symbol that begins at `i` ends.
pub open spec fn symbol_end(s: Seq<char>, i: int) -> int
    decreases s.len() - i,
{
    if 0 <= i < s.len() && is_symbol(s[i]) {
        symbol_end(s, i + 1)
    } else {
        i
    }
}

/// Where the digits that begin at `i` end.
pub open spec fn digits_end(s: Seq<char>, i: int) -> int
    decreases s.len() - i,
{
    if 0 <= i < s.len() && text::is_digit(s[i]) {
        digits_end(s, i + 1)
    } else {
        i
    }
}

/// Where an id of the shape `cs{SYM}{b|s}{slot}r{rung}` that begins at `i` ends.
pub open spec fn root_end(s: Seq<char>, i: int) -> Option<int> {
    let a = i + 2;
    let b = symbol_end(s, a);
    let c = digits_end(s, b + 1);
    let d = digits_end(s, c + 1);
    if text::stands_at(s, i, "cs"@) && a < b < s.len() && (s[b] == 'b' || s[b] == 's') && b + 1 < c
        < s.len() && s[c] == 'r' && c + 1 < d {
        Some(d)
    } else {
        None
    }
}

/// Where the root of an id ends, where it has one: behind an optional `m`.
pub open spec fn root_place(s: Seq<char>) -> Option<int> {
    if s.len() > 0 && s[0] == 'm' && root_end(s, 1) is Some {
        root_end(s, 1)
    } else {
        root_end(s, 0)
    }
}

/// The id that [`client_id`] first produced.
pub open spec fn root_of(s: Seq<char>) -> Seq<char> {
    match root_place(s) {
        Some(e) => s.take(e),
        None => s,
    }
}

fn end_of_symbol(v: &Vec<char>, i: usize) -> (r: usize)
    requires
        i <= v@.len(),
    ensures
        r == symbol_end(v@, i as int),
        i <= r <= v@.len(),
{
    let mut j: usize = i;
    while j < v.len() && (('A' <= v[j] && v[j] <= 'Z') || text::digit_like(v[j]))
        invariant
            i <= j <= v@.len(),
            symbol_end(v@, i as int) == symbol_end(v@, j as int),
        decreases v@.len() - j,
    {
        j = j + 1;
    }
    j
}

fn end_of_digits(v: &Vec<char>, i: usize) -> (r: usize)
    requires
        i <= v@.len(),
    ensures
        r == digits_end(v@, i as int),
        i <= r <= v@.len(),
{
    let mut j: usize = i;
    while j < v.len() && text::digit_like(v[j])
        invariant
            i <= j <= v@.len(),
            digits_end(v@, i as int) == digits_end(v@, j as int),
        decreases v@.len() - j,
    {
        j = j + 1;
    }
    j
}

fn end_of_root(v: &Vec<char>, i: usize) -> (r: Option<usize>)
    requires
        i <= v@.len(),
    ensures
        match r {
            Some(e) => root_end(v@, i as int) == Some(e as int) && e <= v@.len(),
            None => root_end(v@, i as int) is None,
        },
{
    let n: usize = v.len();
    let head = text::chars_of("cs");
    proof {
        reveal_strlit("cs");
    }
    if !text::standing_at(v, i, &head) {
        return None;
    }
    let a: usize = i + 2;
    let b: usize = end_of_symbol(v, a);
    if b == a || b >= n || !(v[b] == 'b' || v[b] == 's') {
        return None;
    }
    let c: usize = end_of_digits(v, b + 1);
    if c == b + 1 || c >= n || v[c] != 'r' {
        return None;
    }
    let d: usize = end_of_digits(v, c + 1);
    if d > c + 1 {
        Some(d)
    } else {
        None
    }
}

/// The id [`client_id`] first produced (with an optional leading `m` for a market sell), with
/// any reprice or retry suffix stripped, or the id unchanged when it has another shape.
///
/// Always derive a new suffix from this, never from the previous id.
pub fn root_id(cid: &str) -> (r: String)
    ensures
        r@ == root_of(cid@),
{
    let v = text::chars_of(cid);
    let behind_m: Option<usize> = if v.len() > 0 && v[0] == 'm' {
        end_of_root(&v, 1)
    } else {
        None
    };
    let end: Option<usize> = match behind_m {
        Some(e) => Some(e),
        None => end_of_root(&v, 0),
    };
    match end {
        Some(e) => {
            assert(v@.subrange(0, e as int) =~= cid@.take(e as int));
            text::slice_of(&v, 0, e)
        },
        None => text::owned(cid),
    }
}

/// An id within the journal's rules, or unchanged where there is none.
pub open spec fn safe_cid_or_spec(raw: Seq<char>) -> Seq<char> {
    match ids::coerced(raw, ids::CID_MAX as nat, false) {
        Ok(c) => c,
        Err(_) => raw,
    }
}

pub fn safe_cid_or(raw: &str) -> (r: String)
    ensures
        r@ == safe_cid_or_spec(raw@),
{
    match ids::safe_cid(raw) {
        Ok(c) => c,
        Err(_) => text::owned(raw),
    }
}

/// An id with a suffix.
pub open spec fn suffixed_spec(cid: Seq<char>, suffix: Seq<char>) -> Seq<char> {
    safe_cid_or_spec(root_of(cid) + suffix)
}

/// A suffixed id derived from the root, never chained onto a previous suffix, and coerced to
/// what the venues accept (an over-long id keeps a prefix and a hash tail).
pub fn suffixed(cid: &str, suffix: &str) -> (r: String)
    ensures
        r@ == suffixed_spec(cid@, suffix@),
{
    let mut raw = root_id(cid);
    raw.push_str(suffix);
    safe_cid_or(raw.as_str())
}

proof fn lemma_symbol_end(s: Seq<char>, i: int)
    requires
        0 <= i <= s.len(),
    ensures
        i <= symbol_end(s, i) <= s.len(),
        forall|k: int| i <= k < symbol_end(s, i) ==> is_symbol(#[trigger] s[k]),
    decreases s.len() - i,
{
    if i < s.len() && is_symbol(s[i]) {
        lemma_symbol_end(s, i + 1);
    }
}

proof fn lemma_digits_end(s: Seq<char>, i: int)
    requires
        0 <= i <= s.len(),
    ensures
        i <= digits_end(s, i) <= s.len(),
        forall|k: int| i <= k < digits_end(s, i) ==> text::is_digit(#[trigger] s[k]),
    decreases s.len() - i,
{
    if i < s.len() && text::is_digit(s[i]) {
        lemma_digits_end(s, i + 1);
    }
}

proof fn lemma_symbol_same(s: Seq<char>, t: Seq<char>, i: int, e: int)
    requires
        0 <= i <= e < s.len(),
        e < t.len(),
        symbol_end(s, i) == e,
        forall|k: int| 0 <= k <= e ==> s[k] == t[k],
    ensures
        symbol_end(t, i) == e,
    decreases e - i,
{
    if i < e {
        assert(is_symbol(s[i]));
        assert(t[i] == s[i]);
        lemma_symbol_end(s, i + 1);
        lemma_symbol_same(s, t, i + 1, e);
    } else {
        assert(t[i] == s[i]);
        lemma_symbol_end(s, i + 1);
    }
}

proof fn lemma_digits_same(s: Seq<char>, t: Seq<char>, i: int, e: int)
    requires
        0 <= i <= e <= s.len(),
        e <= t.len(),
        digits_end(s, i) == e,
        forall|k: int| 0 <= k < e ==> s[k] == t[k],
        e < t.len() ==> !text::is_digit(t[e]),
    ensures
        digits_end(t, i) == e,
    decreases e - i,
{
    if i < e {
        assert(text::is_digit(s[i]));
        lemma_digits_end(s, i + 1);
        lemma_digits_same(s, t, i + 1, e);
    }
}

proof fn lemma_root_same(s: Seq<char>, t: Seq<char>, i: int, e: int)
    requires
        0 <= i <= s.len(),
        root_end(s, i) == Some(e),
        e <= t.len(),
        forall|k: int| 0 <= k < e ==> s[k] == t[k],
        e < t.len() ==> !text::is_digit(t[e]),
    ensures
        root_end(t, i) == Some(e),
        e <= s.len(),
{
    reveal_strlit("cs");
    let a = i + 2;
    let b = symbol_end(s, a);
    let c = digits_end(s, b + 1);
    lemma_symbol_end(s, a);
    lemma_digits_end(s, b + 1);
    lemma_digits_end(s, c + 1);
    assert(t.subrange(i, a) =~= s.subrange(i, a));
    lemma_symbol_same(s, t, a, b);
    assert(!text::is_digit(t[c]));
    lemma_digits_same(s, t, b + 1, c);
    lemma_digits_same(s, t, c + 1, e);
}

/// What an id's root is does not depend on what follows it, as long as that does not begin
/// with a digit.
proof fn lemma_root_kept(s: Seq<char>, t: Seq<char>, e: int)
    requires
        root_place(s) == Some(e),
        e <= t.len(),
        forall|k: int| 0 <= k < e ==> s[k] == t[k],
        e < t.len() ==> !text::is_digit(t[e]),
    ensures
        root_place(t) == Some(e),
        0 < e <= s.len(),
{
    reveal_strlit("cs");
    if s.len() > 0 && s[0] == 'm' && root_end(s, 1) is Some {
        lemma_root_same(s, t, 1, e);
    } else {
        assert(text::stands_at(s, 0, "cs"@));
        assert(s.subrange(0, 2)[0] == s[0]);
        lemma_root_same(s, t, 0, e);
        assert(t[0] == 'c');
    }
}

/// The root of a root is itself.
pub proof fn law_a_root_is_its_own_root(cid: Seq<char>)
    ensures
        root_of(root_of(cid)) == root_of(cid),
{
    match root_place(cid) {
        Some(e) => {
            lemma_root_bound(cid, e);
            let t = cid.take(e);
            lemma_root_kept(cid, t, e);
            assert(t.take(e) =~= t);
        },
        None => {},
    }
}

proof fn lemma_root_bound(s: Seq<char>, e: int)
    requires
        root_place(s) == Some(e),
    ensures
        0 < e <= s.len(),
{
    reveal_strlit("cs");
    let i: int = if s.len() > 0 && s[0] == 'm' && root_end(s, 1) is Some {
        1
    } else {
        0
    };
    let b = symbol_end(s, i + 2);
    let c = digits_end(s, b + 1);
    lemma_symbol_end(s, i + 2);
    lemma_digits_end(s, b + 1);
    lemma_digits_end(s, c + 1);
}

/// A root holds nothing that an id may not hold.
proof fn lemma_root_legal(s: Seq<char>, e: int)
    requires
        root_place(s) == Some(e),
    ensures
        0 < e <= s.len(),
        forall|k: int| 0 <= k < e ==> ids::is_legal(#[trigger] s[k], false),
{
    reveal_strlit("cs");
    lemma_root_bound(s, e);
    let i: int = if s.len() > 0 && s[0] == 'm' && root_end(s, 1) is Some {
        1
    } else {
        0
    };
    let b = symbol_end(s, i + 2);
    let c = digits_end(s, b + 1);
    lemma_symbol_end(s, i + 2);
    lemma_digits_end(s, b + 1);
    lemma_digits_end(s, c + 1);
    assert(s.subrange(i, i + 2)[0] == s[i]);
    assert(s.subrange(i, i + 2)[1] == s[i + 1]);
}

/// A suffix never chains: an id with a suffix has the root it was derived from, so the next
/// suffix replaces it. This is for a suffix that does not begin with a digit, whatever else it
/// holds and however long it is, on an id with a root that is not itself cut off.
pub proof fn law_suffixes_never_chain(cid: Seq<char>, suffix: Seq<char>)
    requires
        root_place(cid) is Some,
        suffix.len() > 0 ==> !text::is_digit(suffix[0]),
        root_of(cid).len() + suffix.len() <= ids::CID_MAX || root_of(cid).len() <= ids::CID_MAX - 7,
    ensures
        root_of(suffixed_spec(cid, suffix)) == root_of(cid),
{
    let e = root_place(cid)->0;
    lemma_root_legal(cid, e);
    let t = root_of(cid) + suffix;
    let c = ids::cleaned(t, false);
    let r = suffixed_spec(cid, suffix);
    reveal_strlit("-");
    assert forall|k: int| 0 <= k < e implies cid[k] == r[k] by {
        assert(t[k] == cid[k]);
        assert(c[k] == cid[k]);
    }
    if suffix.len() > 0 {
        assert(t[e] == suffix[0]);
    }
    lemma_root_kept(cid, r, e);
    assert(r.take(e) =~= cid.take(e));
}

/// The same intent in one window is the same id.
pub proof fn law_one_window_is_one_id(sym: Seq<char>, side: Side, a: Double, b: Double, rung: i64)
    requires
        window_of_spec(a) == window_of_spec(b),
    ensures
        client_id_spec(sym, side, a, rung) == client_id_spec(sym, side, b, rung),
{
}

// ------------------------------------------------------------------ rows
/// `indexmap::IndexMap`: a map that keeps its entries in the order in which their keys were
/// first inserted.
#[verifier::external_type_specification]
#[verifier::external_body]
#[verifier::reject_recursive_types(K)]
#[verifier::reject_recursive_types(V)]
#[verifier::reject_recursive_types(S)]
pub struct ExIndexMap<K, V, S>(indexmap::IndexMap<K, V, S>);

/// The entries of a map of rows, in their order.
pub uninterp spec fn rows_in(m: IndexMap<String, Order>) -> Seq<(Seq<char>, OrderView)>;

/// The place of the row with an id at or after `i`, or the number of rows.
pub open spec fn row_place(rows: Seq<(Seq<char>, OrderView)>, cid: Seq<char>, i: int) -> int
    decreases rows.len() - i,
{
    if i >= rows.len() {
        rows.len() as int
    } else if rows[i].0 == cid {
        i
    } else {
        row_place(rows, cid, i + 1)
    }
}

/// The row with an id.
pub open spec fn row_of(rows: Seq<(Seq<char>, OrderView)>, cid: Seq<char>) -> Option<OrderView> {
    if row_place(rows, cid, 0) < rows.len() {
        Some(rows[row_place(rows, cid, 0)].1)
    } else {
        None
    }
}

/// The rows with one written: in place where its id is there, else at the end.
pub open spec fn written(
    rows: Seq<(Seq<char>, OrderView)>,
    cid: Seq<char>,
    o: OrderView,
) -> Seq<(Seq<char>, OrderView)> {
    if row_place(rows, cid, 0) < rows.len() {
        rows.update(row_place(rows, cid, 0), (cid, o))
    } else {
        rows.push((cid, o))
    }
}

/// The rows without one.
pub open spec fn removed(rows: Seq<(Seq<char>, OrderView)>, cid: Seq<char>) -> Seq<
    (Seq<char>, OrderView),
> {
    if row_place(rows, cid, 0) < rows.len() {
        rows.remove(row_place(rows, cid, 0))
    } else {
        rows
    }
}

/// `IndexMap::new`: a map without entries.
#[verifier::external_body]
fn no_rows() -> (r: IndexMap<String, Order>)
    ensures
        rows_in(r) == Seq::<(Seq<char>, OrderView)>::empty(),
{
    IndexMap::new()
}

/// `IndexMap::len`: the number of entries.
#[verifier::external_body]
fn row_count(m: &IndexMap<String, Order>) -> (r: usize)
    ensures
        r == rows_in(*m).len(),
{
    m.len()
}

/// `IndexMap::get_index`: the entry at a place, where there is one. No other entry has its key.
#[verifier::external_body]
fn row_at(m: &IndexMap<String, Order>, i: usize) -> (r: Option<(&String, &Order)>)
    ensures
        match r {
            Some(p) => i < rows_in(*m).len() && rows_in(*m)[i as int] == (p.0@, p.1.deep_view())
                && row_place(rows_in(*m), p.0@, 0) == i,
            None => i >= rows_in(*m).len(),
        },
{
    m.get_index(i)
}

/// `IndexMap::get`: the value under a key, where there is one.
#[verifier::external_body]
fn find_row<'a>(m: &'a IndexMap<String, Order>, cid: &str) -> (r: Option<&'a Order>)
    ensures
        r.deep_view() == row_of(rows_in(*m), cid@),
{
    m.get(cid)
}

/// `IndexMap::insert`: a key that is there keeps its place and takes the value, another one
/// comes last.
#[verifier::external_body]
fn write_row(m: &mut IndexMap<String, Order>, cid: String, o: Order)
    ensures
        rows_in(*final(m)) == written(rows_in(*old(m)), cid@, o.deep_view()),
{
    m.insert(cid, o);
}

/// `IndexMap::get_mut`: the value under a key, to be changed where it is.
#[verifier::external_body]
fn row_mut<'a>(m: &'a mut IndexMap<String, Order>, cid: &str) -> (r: Option<&'a mut Order>)
    ensures
        match r {
            Some(o) => row_of(rows_in(*old(m)), cid@) == Some(o.deep_view()) && rows_in(*final(m))
                == written(rows_in(*old(m)), cid@, final(o).deep_view()),
            None => row_of(rows_in(*old(m)), cid@) is None && rows_in(*final(m)) == rows_in(
                *old(m),
            ),
        },
{
    m.get_mut(cid)
}

/// `IndexMap::shift_remove`: the entry of a key goes, those behind it move up.
#[verifier::external_body]
fn remove_row(m: &mut IndexMap<String, Order>, cid: &str) -> (r: Option<Order>)
    ensures
        rows_in(*final(m)) == removed(rows_in(*old(m)), cid@),
        r.deep_view() == row_of(rows_in(*old(m)), cid@),
{
    m.shift_remove(cid)
}

/// The journal: rows by their ids, in the order in which they were first written.
#[derive(Debug)]
pub struct Journal {
    pub orders: IndexMap<String, Order>,
}

impl View for Journal {
    type V = Seq<(Seq<char>, OrderView)>;

    open spec fn view(&self) -> Seq<(Seq<char>, OrderView)> {
        rows_in(self.orders)
    }
}

impl DeepView for Journal {
    type V = Seq<(Seq<char>, OrderView)>;

    open spec fn deep_view(&self) -> Seq<(Seq<char>, OrderView)> {
        rows_in(self.orders)
    }
}

impl Duplicate for Journal {
    fn dup(&self) -> (r: Journal) {
        let n: usize = row_count(&self.orders);
        let mut m = no_rows();
        let mut i: usize = 0;
        assert(rows_in(m) =~= self@.take(0));
        while i < n
            invariant
                i <= n,
                n == self@.len(),
                rows_in(m) == self@.take(i as int),
            decreases n - i,
        {
            match row_at(&self.orders, i) {
                Some((k, o)) => {
                    proof {
                        lemma_row_place(self@, k@, 0);
                        lemma_row_place(self@.take(i as int), k@, 0);
                    }
                    write_row(&mut m, text::owned(k.as_str()), o.dup());
                    assert(rows_in(m) =~= self@.take(i + 1));
                },
                None => {
                    assert(false);
                },
            }
            i = i + 1;
        }
        assert(self@.take(n as int) =~= self@);
        Journal { orders: m }
    }
}

/// Whether a client id is journaled.
pub open spec fn has_row_spec(rows: Seq<(Seq<char>, OrderView)>, cid: Seq<char>) -> bool {
    row_of(rows, cid) is Some
}

/// Whether a client id is journaled.
pub fn has_row(j: &Journal, cid: &str) -> (r: bool)
    ensures
        r == has_row_spec(j.deep_view(), cid@),
{
    j.has(cid)
}

/// The row under a client id.
pub fn row_of_id(j: &Journal, cid: &str) -> (r: Option<Order>)
    ensures
        r.deep_view() == row_of(j.deep_view(), cid@),
{
    match j.get(cid) {
        Some(o) => Some(o.dup()),
        None => None,
    }
}

/// The journal with a row written under its client id.
pub open spec fn put_row_spec(rows: Seq<(Seq<char>, OrderView)>, row: OrderView) -> Seq<
    (Seq<char>, OrderView),
> {
    written(rows, row.client_id, row)
}

/// The journal with a row written under its client id.
pub fn put_row(j: Journal, row: Order) -> (r: Journal)
    ensures
        r.deep_view() == put_row_spec(j.deep_view(), row.deep_view()),
{
    let mut r = j;
    r.record(row);
    r
}

/// The journal with the row under a client id changed; unchanged where there is none.
pub open spec fn change_row_spec(rows: Seq<(Seq<char>, OrderView)>, row: OrderView) -> Seq<
    (Seq<char>, OrderView),
> {
    if has_row_spec(rows, row.client_id) {
        written(rows, row.client_id, row)
    } else {
        rows
    }
}

/// The journal with the row under a client id changed; unchanged where there is none.
pub fn change_row(j: Journal, row: Order) -> (r: Journal)
    ensures
        r.deep_view() == change_row_spec(j.deep_view(), row.deep_view()),
{
    let mut r = j;
    let cid = text::owned(row.client_id.as_str());
    let _known: bool = r.update(cid.as_str(), row);
    r
}

/// The journal with some rows marked as swept.
pub open spec fn swept_rows_spec(
    rows: Seq<(Seq<char>, OrderView)>,
    cids: Seq<Seq<char>>,
) -> Seq<(Seq<char>, OrderView)> {
    with_swept(rows, cids, cids.len())
}

/// The journal with some rows marked as swept.
pub fn swept_rows(j: Journal, cids: &Vec<String>) -> (r: Journal)
    ensures
        r.deep_view() == swept_rows_spec(j.deep_view(), cids.deep_view()),
{
    let mut r = j;
    r.mark_swept(cids);
    r
}

impl Default for Journal {
    fn default() -> (r: Journal)
        ensures
            r@ == Seq::<(Seq<char>, OrderView)>::empty(),
    {
        Journal { orders: no_rows() }
    }
}

/// The rows alone.
pub open spec fn rows_alone(rows: Seq<(Seq<char>, OrderView)>) -> Seq<OrderView> {
    Seq::new(rows.len(), |i: int| rows[i].1)
}

/// Whether a row is of a kind, where one is asked for.
pub open spec fn kind_matches_spec(o: OrderView, kind: Option<Seq<char>>) -> bool {
    match kind {
        Some(k) => o.kind == k,
        None => true,
    }
}

fn kind_matches(o: &Order, kind: Option<&str>) -> (r: bool)
    ensures
        r == kind_matches_spec(o.deep_view(), kind.deep_view()),
{
    match kind {
        Some(k) => text::same(o.kind.as_str(), k),
        None => true,
    }
}

/// Of the first `n` rows.
pub open spec fn add_open_spec(
    kind: Option<Seq<char>>,
    xs: Seq<OrderView>,
    out: Seq<OrderView>,
    n: nat,
) -> Seq<OrderView> {
    out + list::kept(
        xs,
        |o: OrderView| is_open_status_spec(o.status) && kind_matches_spec(o, kind),
        n,
    )
}

fn add_open(kind: Option<&str>, xs: &Vec<Order>, out: Vec<Order>) -> (r: Vec<Order>)
    ensures
        r.deep_view() == add_open_spec(
            kind.deep_view(),
            xs.deep_view(),
            out.deep_view(),
            xs@.len(),
        ),
{
    let ghost out0 = out.deep_view();
    let mut out = out;
    let mut i: usize = 0;
    while i < xs.len()
        invariant
            i <= xs@.len(),
            out.deep_view() == add_open_spec(kind.deep_view(), xs.deep_view(), out0, i as nat),
        decreases xs@.len() - i,
    {
        let o = &xs[i];
        if is_open_status(o.status.as_str()) && kind_matches(o, kind) {
            list::push(&mut out, o.dup());
        }
        assert(out.deep_view() =~= add_open_spec(
            kind.deep_view(),
            xs.deep_view(),
            out0,
            (i + 1) as nat,
        ));
        i = i + 1;
    }
    out
}

/// The rows that may still be resting.
pub open spec fn open_rows_spec(rows: Seq<OrderView>, kind: Option<Seq<char>>) -> Seq<OrderView> {
    add_open_spec(kind, rows, Seq::<OrderView>::empty(), rows.len())
}

/// The rows that may still be resting.
pub fn open_rows(rows: &Vec<Order>, kind: Option<&str>) -> (r: Vec<Order>)
    ensures
        r.deep_view() == open_rows_spec(rows.deep_view(), kind.deep_view()),
{
    let mut out: Vec<Order> = list::none();
    out = add_open(kind, rows, out);
    out
}

/// Of the first `n` rows.
pub open spec fn add_failed_spec(
    kind: Option<Seq<char>>,
    xs: Seq<OrderView>,
    out: Seq<OrderView>,
    n: nat,
) -> Seq<OrderView> {
    out + list::kept(xs, |o: OrderView| o.status == "error"@ && kind_matches_spec(o, kind), n)
}

fn add_failed(kind: Option<&str>, xs: &Vec<Order>, out: Vec<Order>) -> (r: Vec<Order>)
    ensures
        r.deep_view() == add_failed_spec(
            kind.deep_view(),
            xs.deep_view(),
            out.deep_view(),
            xs@.len(),
        ),
{
    let ghost out0 = out.deep_view();
    let mut out = out;
    let mut i: usize = 0;
    while i < xs.len()
        invariant
            i <= xs@.len(),
            out.deep_view() == add_failed_spec(kind.deep_view(), xs.deep_view(), out0, i as nat),
        decreases xs@.len() - i,
    {
        let o = &xs[i];
        if text::same(o.status.as_str(), "error") && kind_matches(o, kind) {
            list::push(&mut out, o.dup());
        }
        assert(out.deep_view() =~= add_failed_spec(
            kind.deep_view(),
            xs.deep_view(),
            out0,
            (i + 1) as nat,
        ));
        i = i + 1;
    }
    out
}

/// The rows whose placement failed.
pub open spec fn failed_rows_spec(rows: Seq<OrderView>, kind: Option<Seq<char>>) -> Seq<OrderView> {
    add_failed_spec(kind, rows, Seq::<OrderView>::empty(), rows.len())
}

/// The rows whose placement failed.
pub fn failed_rows(rows: &Vec<Order>, kind: Option<&str>) -> (r: Vec<Order>)
    ensures
        r.deep_view() == failed_rows_spec(rows.deep_view(), kind.deep_view()),
{
    let mut out: Vec<Order> = list::none();
    out = add_failed(kind, rows, out);
    out
}

/// Whether a row filled after a time, or at it. One that never filled did neither.
pub open spec fn filled_after_spec(o: OrderView, ts: Double, inclusive: bool) -> bool {
    match o.filled_ts {
        Some(f) => if inclusive {
            ts.le_spec(f)
        } else {
            ts.lt_spec(f)
        },
        None => false,
    }
}

fn filled_after(o: &Order, ts: Double, inclusive: bool) -> (r: bool)
    ensures
        r == filled_after_spec(o.deep_view(), ts, inclusive),
{
    match o.filled_ts {
        Some(f) => if inclusive {
            ts.le(f)
        } else {
            ts.lt(f)
        },
        None => false,
    }
}

/// Of the first `n` rows.
pub open spec fn add_filled_spec(
    inclusive: bool,
    ts: Double,
    xs: Seq<OrderView>,
    out: Seq<OrderView>,
    n: nat,
) -> Seq<OrderView> {
    out + list::kept(xs, |o: OrderView| filled_after_spec(o, ts, inclusive), n)
}

fn add_filled(inclusive: bool, ts: Double, xs: &Vec<Order>, out: Vec<Order>) -> (r: Vec<Order>)
    ensures
        r.deep_view() == add_filled_spec(
            inclusive,
            ts,
            xs.deep_view(),
            out.deep_view(),
            xs@.len(),
        ),
{
    let ghost out0 = out.deep_view();
    let mut out = out;
    let mut i: usize = 0;
    while i < xs.len()
        invariant
            i <= xs@.len(),
            out.deep_view() == add_filled_spec(inclusive, ts, xs.deep_view(), out0, i as nat),
        decreases xs@.len() - i,
    {
        let o = &xs[i];
        if filled_after(o, ts, inclusive) {
            list::push(&mut out, o.dup());
        }
        assert(out.deep_view() =~= add_filled_spec(
            inclusive,
            ts,
            xs.deep_view(),
            out0,
            (i + 1) as nat,
        ));
        i = i + 1;
    }
    out
}

/// The rows that filled after a time.
pub open spec fn filled_rows_spec(
    rows: Seq<OrderView>,
    ts: Double,
    inclusive: bool,
) -> Seq<OrderView> {
    add_filled_spec(inclusive, ts, rows, Seq::<OrderView>::empty(), rows.len())
}

/// The rows that filled after a time.
pub fn filled_rows(rows: &Vec<Order>, ts: Double, inclusive: bool) -> (r: Vec<Order>)
    ensures
        r.deep_view() == filled_rows_spec(rows.deep_view(), ts, inclusive),
{
    let mut out: Vec<Order> = list::none();
    out = add_filled(inclusive, ts, rows, out);
    out
}

/// Whether the freed cash has been re-laddered.
pub open spec fn is_swept_spec(o: OrderView) -> bool {
    match o.swept {
        Some(s) => s,
        None => false,
    }
}

fn is_swept(o: &Order) -> (r: bool)
    ensures
        r == is_swept_spec(o.deep_view()),
{
    match o.swept {
        Some(s) => s,
        None => false,
    }
}

/// Whether the venue cancelled the order and its freed cash is still owed.
pub open spec fn owes_cash_spec(o: OrderView) -> bool {
    is_venue_cancelled_status_spec(o.status)
        && !is_swept_spec(o)
        && !is_our_cancel_spec(o.note)
        && truthy_f_spec(o.status_ts)
}

fn owes_cash(o: &Order) -> (r: bool)
    ensures
        r == owes_cash_spec(o.deep_view()),
{
    is_venue_cancelled_status(o.status.as_str())
        && !is_swept(o)
        && !is_our_cancel(list::text_ref(&o.note))
        && truthy_f(o.status_ts)
}

/// Of the first `n` rows.
pub open spec fn add_unswept_spec(
    kind: Option<Seq<char>>,
    xs: Seq<OrderView>,
    out: Seq<OrderView>,
    n: nat,
) -> Seq<OrderView> {
    out + list::kept(xs, |o: OrderView| kind_matches_spec(o, kind) && owes_cash_spec(o), n)
}

fn add_unswept(kind: Option<&str>, xs: &Vec<Order>, out: Vec<Order>) -> (r: Vec<Order>)
    ensures
        r.deep_view() == add_unswept_spec(
            kind.deep_view(),
            xs.deep_view(),
            out.deep_view(),
            xs@.len(),
        ),
{
    let ghost out0 = out.deep_view();
    let mut out = out;
    let mut i: usize = 0;
    while i < xs.len()
        invariant
            i <= xs@.len(),
            out.deep_view() == add_unswept_spec(kind.deep_view(), xs.deep_view(), out0, i as nat),
        decreases xs@.len() - i,
    {
        let o = &xs[i];
        if kind_matches(o, kind) && owes_cash(o) {
            list::push(&mut out, o.dup());
        }
        assert(out.deep_view() =~= add_unswept_spec(
            kind.deep_view(),
            xs.deep_view(),
            out0,
            (i + 1) as nat,
        ));
        i = i + 1;
    }
    out
}

/// The rows the venue cancelled whose freed cash has not been re-laddered.
pub open spec fn unswept_rows_spec(
    rows: Seq<OrderView>,
    kind: Option<Seq<char>>,
) -> Seq<OrderView> {
    add_unswept_spec(kind, rows, Seq::<OrderView>::empty(), rows.len())
}

/// The rows the venue cancelled whose freed cash has not been re-laddered.
pub fn unswept_rows(rows: &Vec<Order>, kind: Option<&str>) -> (r: Vec<Order>)
    ensures
        r.deep_view() == unswept_rows_spec(rows.deep_view(), kind.deep_view()),
{
    let mut out: Vec<Order> = list::none();
    out = add_unswept(kind, rows, out);
    out
}

/// A row whose freed cash has been re-laddered.
pub open spec fn swept_row_spec(o: OrderView) -> OrderView {
    OrderView {
        client_id: o.client_id,
        sym: o.sym,
        exch: o.exch,
        pair: o.pair,
        side: o.side,
        kind: o.kind,
        status: o.status,
        quote: o.quote,
        price: o.price,
        base: o.base,
        rung: o.rung,
        ts: o.ts,
        note: o.note,
        label: o.label,
        first_ts: o.first_ts,
        order_id: o.order_id,
        filled_base: o.filled_base,
        filled_quote: o.filled_quote,
        avg_price: o.avg_price,
        filled_ts: o.filled_ts,
        part_base: o.part_base,
        part_quote: o.part_quote,
        status_ts: o.status_ts,
        last_error: o.last_error,
        retries: o.retries,
        gave_up: o.gave_up,
        swept: Some(true),
        partial: o.partial,
        book_pending: o.book_pending,
        settle_error: o.settle_error,
        adopted_ts: o.adopted_ts,
        manual_size: o.manual_size,
        extra: o.extra,
    }
}

/// A row whose freed cash has been re-laddered.
pub fn swept_row(o: &Order) -> (r: Order)
    ensures
        r.deep_view() == swept_row_spec(o.deep_view()),
{
    Order {
        client_id: text::owned(o.client_id.as_str()),
        sym: text::owned(o.sym.as_str()),
        exch: text::owned(o.exch.as_str()),
        pair: text::owned(o.pair.as_str()),
        side: text::owned(o.side.as_str()),
        kind: text::owned(o.kind.as_str()),
        status: text::owned(o.status.as_str()),
        quote: o.quote,
        price: o.price,
        base: o.base,
        rung: o.rung,
        ts: o.ts,
        note: o.note.dup(),
        label: o.label.dup(),
        first_ts: o.first_ts,
        order_id: o.order_id.dup(),
        filled_base: o.filled_base,
        filled_quote: o.filled_quote,
        avg_price: o.avg_price,
        filled_ts: o.filled_ts,
        part_base: o.part_base,
        part_quote: o.part_quote,
        status_ts: o.status_ts,
        last_error: o.last_error.dup(),
        retries: o.retries,
        gave_up: o.gave_up,
        swept: Some(true),
        partial: o.partial,
        book_pending: o.book_pending,
        settle_error: o.settle_error.dup(),
        adopted_ts: o.adopted_ts,
        manual_size: o.manual_size,
        extra: o.extra.copy(),
    }
}

/// When a row was last touched, 0 where that is not known.
pub open spec fn row_time_spec(o: OrderView) -> Double {
    if truthy_f_spec(o.status_ts) {
        match o.status_ts {
            Some(v) => v,
            None => Double::zero_spec(),
        }
    } else {
        match o.ts {
            Some(v) => v,
            None => Double::zero_spec(),
        }
    }
}

fn row_time(o: &Order) -> (r: Double)
    ensures
        r == row_time_spec(o.deep_view()),
{
    if truthy_f(o.status_ts) {
        return match o.status_ts {
            Some(v) => v,
            None => Double::zero(),
        };
    }
    match o.ts {
        Some(v) => v,
        None => Double::zero(),
    }
}

/// Whether something of a row filled, by what was paid or by what was bought.
pub open spec fn has_partial_fill_spec(o: OrderView) -> bool {
    truthy_f_spec(o.part_quote)
        || truthy_f_spec(o.filled_quote)
        || truthy_f_spec(o.part_base)
        || truthy_f_spec(o.filled_base)
}

/// Whether something of a row filled, by what was paid or by what was bought.
pub fn has_partial_fill(o: &Order) -> (r: bool)
    ensures
        r == has_partial_fill_spec(o.deep_view()),
{
    truthy_f(o.part_quote)
        || truthy_f(o.filled_quote)
        || truthy_f(o.part_base)
        || truthy_f(o.filled_base)
}

/// Whether a row can be archived: a cancel that is over and done with, older than a time.
pub open spec fn is_finished_spec(o: OrderView, cutoff: Double) -> bool {
    if is_open_status_spec(o.status) || o.status == "filled"@ || o.status == "error"@ {
        false
    } else if has_partial_fill_spec(o) {
        false
    } else if is_venue_cancelled_status_spec(o.status)
        && !is_our_cancel_spec(o.note)
        && !is_swept_spec(o) {
        false
    } else {
        let ts = row_time_spec(o);
        !ts.eq_spec(Double::zero_spec()) && ts.le_spec(cutoff)
    }
}

fn is_finished(o: &Order, cutoff: Double) -> (r: bool)
    ensures
        r == is_finished_spec(o.deep_view(), cutoff),
{
    if is_open_status(o.status.as_str())
        || text::same(o.status.as_str(), "filled")
        || text::same(o.status.as_str(), "error") {
        return false;
    }
    if has_partial_fill(o) {
        return false;
    }
    if is_venue_cancelled_status(o.status.as_str())
        && !is_our_cancel(list::text_ref(&o.note))
        && !is_swept(o) {
        return false;
    }
    let ts = row_time(o);
    !ts.same(Double::zero()) && ts.le(cutoff)
}

/// Of the first `n` rows.
pub open spec fn add_finished_spec(
    cutoff: Double,
    xs: Seq<OrderView>,
    out: Seq<Seq<char>>,
    n: nat,
) -> Seq<Seq<char>>
    decreases n,
{
    if n == 0 {
        out
    } else {
        let out = add_finished_spec(cutoff, xs, out, (n - 1) as nat);
        let o = xs[n - 1];
        if is_finished_spec(o, cutoff) {
            out.push(o.client_id)
        } else {
            out
        }
    }
}

fn add_finished(cutoff: Double, xs: &Vec<Order>, out: Vec<String>) -> (r: Vec<String>)
    ensures
        r.deep_view() == add_finished_spec(cutoff, xs.deep_view(), out.deep_view(), xs@.len()),
{
    let ghost out0 = out.deep_view();
    let mut out = out;
    let mut i: usize = 0;
    while i < xs.len()
        invariant
            i <= xs@.len(),
            out.deep_view() == add_finished_spec(cutoff, xs.deep_view(), out0, i as nat),
        decreases xs@.len() - i,
    {
        let o = &xs[i];
        if is_finished(o, cutoff) {
            list::push(&mut out, text::owned(o.client_id.as_str()));
        }
        i = i + 1;
    }
    out
}

/// The ids of the rows that can be archived.
pub open spec fn finished_ids_spec(rows: Seq<OrderView>, cutoff: Double) -> Seq<Seq<char>> {
    add_finished_spec(cutoff, rows, Seq::<Seq<char>>::empty(), rows.len())
}

fn finished_ids(rows: &Vec<Order>, cutoff: Double) -> (r: Vec<String>)
    ensures
        r.deep_view() == finished_ids_spec(rows.deep_view(), cutoff),
{
    let mut out: Vec<String> = list::none();
    out = add_finished(cutoff, rows, out);
    out
}

/// The time before which a row is old.
pub open spec fn cutoff_of_spec(days: Double, now: Double) -> Double {
    now.sub_spec(days.mul_spec(Double::int_spec(86400)))
}

fn cutoff_of(days: Double, now: Double) -> (r: Double)
    ensures
        r == cutoff_of_spec(days, now),
{
    now.minus(days.times(Double::of_int(86400)))
}

/// Of the first `n` rows.
pub open spec fn add_counted_spec(
    since: Double,
    xs: Seq<OrderView>,
    out: Seq<OrderView>,
    n: nat,
) -> Seq<OrderView> {
    out + list::kept(
        xs,
        |o: OrderView| since.le_spec(
            match o.ts {
                Some(v) => v,
                None => Double::zero_spec(),
            },
        )
            && o.status != "error"@,
        n,
    )
}

fn add_counted(since: Double, xs: &Vec<Order>, out: Vec<Order>) -> (r: Vec<Order>)
    ensures
        r.deep_view() == add_counted_spec(since, xs.deep_view(), out.deep_view(), xs@.len()),
{
    let ghost out0 = out.deep_view();
    let mut out = out;
    let mut i: usize = 0;
    while i < xs.len()
        invariant
            i <= xs@.len(),
            out.deep_view() == add_counted_spec(since, xs.deep_view(), out0, i as nat),
        decreases xs@.len() - i,
    {
        let o = &xs[i];
        if since.le(
            match o.ts {
                Some(v) => v,
                None => Double::zero(),
            },
        )
            && !text::same(o.status.as_str(), "error") {
            list::push(&mut out, o.dup());
        }
        assert(out.deep_view() =~= add_counted_spec(since, xs.deep_view(), out0, (i + 1) as nat));
        i = i + 1;
    }
    out
}

/// The rows journaled on or after a time, failed placements excluded.
pub open spec fn counted_rows_spec(rows: Seq<OrderView>, since: Double) -> Seq<OrderView> {
    add_counted_spec(since, rows, Seq::<OrderView>::empty(), rows.len())
}

/// The rows journaled on or after a time, failed placements excluded.
pub fn counted_rows(rows: &Vec<Order>, since: Double) -> (r: Vec<Order>)
    ensures
        r.deep_view() == counted_rows_spec(rows.deep_view(), since),
{
    let mut out: Vec<Order> = list::none();
    out = add_counted(since, rows, out);
    out
}

/// Of the first `n` rows.
pub open spec fn add_quotes_spec(xs: Seq<OrderView>, total: Double, n: nat) -> Double
    decreases n,
{
    if n == 0 {
        total
    } else {
        let total = add_quotes_spec(xs, total, (n - 1) as nat);
        let o = xs[n - 1];
        total.add_spec(
            match o.quote {
                Some(v) => v,
                None => Double::zero_spec(),
            },
        )
    }
}

fn add_quotes(xs: &Vec<Order>, total: Double) -> (r: Double)
    ensures
        r == add_quotes_spec(xs.deep_view(), total, xs@.len()),
{
    let ghost total0 = total;
    let mut total = total;
    let mut i: usize = 0;
    while i < xs.len()
        invariant
            i <= xs@.len(),
            total == add_quotes_spec(xs.deep_view(), total0, i as nat),
        decreases xs@.len() - i,
    {
        let o = &xs[i];
        total = total.plus(
            match o.quote {
                Some(v) => v,
                None => Double::zero(),
            },
        );
        i = i + 1;
    }
    total
}

/// What the rows intend to spend, together.
pub open spec fn notional_of_spec(rows: Seq<OrderView>) -> Double {
    add_quotes_spec(rows, Double::zero_spec(), rows.len())
}

/// What the rows intend to spend, together.
pub fn notional_of(rows: &Vec<Order>) -> (r: Double)
    ensures
        r == notional_of_spec(rows.deep_view()),
{
    let mut total = Double::zero();
    total = add_quotes(rows, total);
    total
}

pub proof fn lemma_row_place(rows: Seq<(Seq<char>, OrderView)>, cid: Seq<char>, i: int)
    requires
        0 <= i <= rows.len(),
    ensures
        i <= row_place(rows, cid, i) <= rows.len(),
        row_place(rows, cid, i) < rows.len() ==> rows[row_place(rows, cid, i)].0 == cid,
        forall|k: int| i <= k < row_place(rows, cid, i) ==> rows[k].0 != cid,
    decreases rows.len() - i,
{
    if i < rows.len() && rows[i].0 != cid {
        lemma_row_place(rows, cid, i + 1);
    }
}

/// What is left of rows, and what was taken, when the first `n` of some ids are taken out.
pub open spec fn taken_out(
    rows: Seq<(Seq<char>, OrderView)>,
    ids: Seq<Seq<char>>,
    n: nat,
) -> (Seq<(Seq<char>, OrderView)>, Seq<OrderView>)
    decreases n,
{
    if n == 0 {
        (rows, Seq::empty())
    } else {
        let (left, out) = taken_out(rows, ids, (n - 1) as nat);
        (
            removed(left, ids[n - 1]),
            match row_of(left, ids[n - 1]) {
                Some(o) => out.push(o),
                None => out,
            },
        )
    }
}

/// Rows in which the first `n` of some ids are marked as swept.
pub open spec fn with_swept(
    rows: Seq<(Seq<char>, OrderView)>,
    ids: Seq<Seq<char>>,
    n: nat,
) -> Seq<(Seq<char>, OrderView)>
    decreases n,
{
    if n == 0 {
        rows
    } else {
        let before = with_swept(rows, ids, (n - 1) as nat);
        match row_of(before, ids[n - 1]) {
            Some(o) => written(before, ids[n - 1], swept_row_spec(o)),
            None => before,
        }
    }
}

impl Journal {
    /// The rows in their order.
    pub fn rows(&self) -> (r: Vec<Order>)
        ensures
            r.deep_view() == rows_alone(self@),
    {
        let n: usize = row_count(&self.orders);
        let mut r: Vec<Order> = Vec::new();
        let mut i: usize = 0;
        while i < n
            invariant
                i <= n,
                n == self@.len(),
                r@.len() == i,
                forall|k: int| 0 <= k < i ==> (#[trigger] r@[k]).deep_view() == self@[k].1,
            decreases n - i,
        {
            match row_at(&self.orders, i) {
                Some((_k, o)) => {
                    r.push(o.dup());
                },
                None => {
                    assert(false);
                },
            }
            i = i + 1;
        }
        assert(r.deep_view() =~= rows_alone(self@));
        r
    }

    pub fn has(&self, cid: &str) -> (r: bool)
        ensures
            r == row_of(self@, cid@) is Some,
    {
        find_row(&self.orders, cid).is_some()
    }

    pub fn get(&self, cid: &str) -> (r: Option<&Order>)
        ensures
            r.deep_view() == row_of(self@, cid@),
    {
        find_row(&self.orders, cid)
    }

    /// A row to be changed in place.
    pub fn get_mut(&mut self, cid: &str) -> (r: Option<&mut Order>)
        ensures
            match r {
                Some(o) => row_of(old(self)@, cid@) == Some(o.deep_view()) && final(self)@
                    == written(old(self)@, cid@, final(o).deep_view()),
                None => row_of(old(self)@, cid@) is None && final(self)@ == old(self)@,
            },
    {
        row_mut(&mut self.orders, cid)
    }

    /// Write a row, replacing any row with the same id in place. Callers check
    /// [`Journal::has`] first when a second write must not happen.
    pub fn record(&mut self, order: Order)
        ensures
            final(self)@ == written(old(self)@, order.client_id@, order.deep_view()),
    {
        let cid = text::owned(order.client_id.as_str());
        write_row(&mut self.orders, cid, order);
    }

    /// Write a row only when its id is new. `false` is the signal not to place it again.
    pub fn insert_new(&mut self, order: Order) -> (r: bool)
        ensures
            r == row_of(old(self)@, order.client_id@) is None,
            final(self)@ == if r {
                old(self)@.push((order.client_id@, order.deep_view()))
            } else {
                old(self)@
            },
    {
        if self.has(order.client_id.as_str()) {
            return false;
        }
        proof {
            lemma_row_place(self@, order.client_id@, 0);
        }
        let cid = text::owned(order.client_id.as_str());
        write_row(&mut self.orders, cid, order);
        true
    }

    /// Change a row in place. `false` when there is no such row, which changes nothing.
    pub fn update(&mut self, cid: &str, row: Order) -> (r: bool)
        ensures
            r == row_of(old(self)@, cid@) is Some,
            final(self)@ == if r {
                written(old(self)@, cid@, row.deep_view())
            } else {
                old(self)@
            },
    {
        if self.has(cid) {
            write_row(&mut self.orders, text::owned(cid), row);
            true
        } else {
            false
        }
    }

    pub fn open_orders(&self, kind: Option<&str>) -> (r: Vec<Order>)
        ensures
            r.deep_view() == open_rows_spec(rows_alone(self@), kind.deep_view()),
    {
        open_rows(&self.rows(), kind)
    }

    /// Rows whose placement failed: candidates for an automatic retry.
    pub fn errored(&self, kind: Option<&str>) -> (r: Vec<Order>)
        ensures
            r.deep_view() == failed_rows_spec(rows_alone(self@), kind.deep_view()),
    {
        failed_rows(&self.rows(), kind)
    }

    /// Rows that filled after `ts`. `inclusive` also returns fills at exactly `ts`.
    pub fn filled_since(&self, ts: Double, inclusive: bool) -> (r: Vec<Order>)
        ensures
            r.deep_view() == filled_rows_spec(rows_alone(self@), ts, inclusive),
    {
        filled_rows(&self.rows(), ts, inclusive)
    }

    /// Rows the venue cancelled whose freed cash has not been re-laddered. Our own cancels are
    /// excluded, and so is a row with no venue timestamp (written before the timestamp
    /// existed), which is skipped rather than guessed at. No `kind` takes every kind.
    pub fn venue_cancelled_unswept(&self, kind: Option<&str>) -> (r: Vec<Order>)
        ensures
            r.deep_view() == unswept_rows_spec(rows_alone(self@), kind.deep_view()),
    {
        unswept_rows(&self.rows(), kind)
    }

    pub fn mark_swept(&mut self, cids: &Vec<String>)
        ensures
            final(self)@ == with_swept(old(self)@, cids.deep_view(), cids@.len()),
    {
        let ghost before = self@;
        let mut i: usize = 0;
        while i < cids.len()
            invariant
                i <= cids@.len(),
                before == old(self)@,
                self@ == with_swept(before, cids.deep_view(), i as nat),
            decreases cids@.len() - i,
        {
            assert(cids.deep_view()[i as int] == cids@[i as int]@);
            let row: Option<Order> = match find_row(&self.orders, cids[i].as_str()) {
                Some(o) => Some(swept_row(o)),
                None => None,
            };
            match row {
                Some(o) => {
                    write_row(&mut self.orders, text::owned(cids[i].as_str()), o);
                },
                None => {},
            }
            i = i + 1;
        }
    }

    /// Take finished cancel rows older than `days` out of the journal and return them, oldest
    /// position first, for the caller to append to the archive.
    ///
    /// Kept, always: open, filled and error rows; any row with a partial fill (its cash is
    /// netted elsewhere); a venue cancel not yet swept (its cash is still owed); and a row
    /// with no timestamp at all.
    pub fn archive_old(&mut self, days: Double, now: Double) -> (r: Vec<Order>)
        ensures
            ({
                let ids = finished_ids_spec(rows_alone(old(self)@), cutoff_of_spec(days, now));
                (final(self)@, r.deep_view()) == taken_out(old(self)@, ids, ids.len())
            }),
    {
        let cids = finished_ids(&self.rows(), cutoff_of(days, now));
        let ghost before = self@;
        let mut r: Vec<Order> = list::none();
        let mut i: usize = 0;
        while i < cids.len()
            invariant
                i <= cids@.len(),
                before == old(self)@,
                (self@, r.deep_view()) == taken_out(before, cids.deep_view(), i as nat),
            decreases cids@.len() - i,
        {
            assert(cids.deep_view()[i as int] == cids@[i as int]@);
            match remove_row(&mut self.orders, cids[i].as_str()) {
                Some(o) => {
                    list::push(&mut r, o);
                },
                None => {},
            }
            i = i + 1;
        }
        r
    }

    /// Total quote of orders journaled on or after `since`, failed placements excluded.
    pub fn notional_since(&self, since: Double) -> (r: Double)
        ensures
            r == notional_of_spec(counted_rows_spec(rows_alone(self@), since)),
    {
        notional_of(&counted_rows(&self.rows(), since))
    }

    /// How many orders were journaled on or after `since`, failed placements excluded.
    pub fn count_since(&self, since: Double) -> (r: usize)
        ensures
            r == counted_rows_spec(rows_alone(self@), since).len(),
    {
        counted_rows(&self.rows(), since).len()
    }
}

/// A crash cannot turn into a double trade: once a row is written, its id is there, and
/// writing it as new is refused.
pub proof fn law_a_written_row_is_found(
    rows: Seq<(Seq<char>, OrderView)>,
    cid: Seq<char>,
    o: OrderView,
    other: Seq<char>,
)
    ensures
        row_of(written(rows, cid, o), cid) == Some(o),
        other != cid ==> row_of(written(rows, cid, o), other) == row_of(rows, other),
{
    let w = written(rows, cid, o);
    lemma_row_place(rows, cid, 0);
    lemma_row_place(w, cid, 0);
    lemma_row_place(rows, other, 0);
    lemma_row_place(w, other, 0);
    let i = row_place(rows, cid, 0);
    assert(w[i] == (cid, o));
    if row_place(w, cid, 0) != i {
        assert(w[row_place(w, cid, 0)].0 == rows[row_place(w, cid, 0)].0);
    }
    if other != cid {
        let x = row_place(rows, other, 0);
        let y = row_place(w, other, 0);
        if x < rows.len() {
            assert(w[x].0 == other);
        }
        if y < w.len() {
            assert(y != i);
            assert(rows[y] == w[y]);
        }
    }
}

/// Writing a row keeps the ids of the others where they are; only a new id comes last.
pub proof fn law_rows_keep_their_order(
    rows: Seq<(Seq<char>, OrderView)>,
    cid: Seq<char>,
    o: OrderView,
    i: int,
)
    requires
        0 <= i < rows.len(),
    ensures
        written(rows, cid, o)[i].0 == rows[i].0,
        row_of(rows, cid) is Some ==> written(rows, cid, o).len() == rows.len(),
        row_of(rows, cid) is None ==> written(rows, cid, o) == rows.push((cid, o)),
{
    lemma_row_place(rows, cid, 0);
}

/// What is never archived: open, filled and failed rows, rows with a partial fill, venue
/// cancels whose cash is still owed, and rows without a time.
pub proof fn law_what_is_never_archived(o: OrderView, cutoff: Double)
    requires
        is_open_status_spec(o.status) || o.status == "filled"@ || o.status == "error"@
            || has_partial_fill_spec(o) || (
        is_venue_cancelled_status_spec(o.status) && !is_our_cancel_spec(o.note) && !is_swept_spec(
            o,
        )) || row_time_spec(o).eq_spec(Double::zero_spec()),
    ensures
        !is_finished_spec(o, cutoff),
{
}

/// A fill at exactly the time asked for is found when that time is included, and only then.
pub proof fn law_inclusive_finds_the_fill_at_the_time(o: OrderView, ts: Double)
    requires
        o.filled_ts == Some(ts),
        !ts.nan(),
    ensures
        filled_after_spec(o, ts, true),
        !filled_after_spec(o, ts, false),
{
}

/// A row that never filled is in no list of fills, from whatever time on.
pub proof fn law_what_never_filled_is_not_listed(o: OrderView, ts: Double, inclusive: bool)
    requires
        o.filled_ts is None,
    ensures
        !filled_after_spec(o, ts, inclusive),
{
}

/// A name in a row, left out where it is empty.
pub open spec fn name_value(s: Seq<char>) -> Option<Doc> {
    if s != ""@ {
        Some(Doc::Str(s))
    } else {
        None
    }
}

pub open spec fn text_value(x: Option<Seq<char>>) -> Option<Doc> {
    match x {
        Some(v) => Some(Doc::Str(v)),
        None => None,
    }
}

pub open spec fn num_value(x: Option<Double>) -> Option<Doc> {
    match x {
        Some(v) => Some(Doc::Float(v)),
        None => None,
    }
}

pub open spec fn int_value(x: Option<i64>) -> Option<Doc> {
    match x {
        Some(v) => Some(Doc::Int(v)),
        None => None,
    }
}

pub open spec fn flag_value(x: Option<bool>) -> Option<Doc> {
    match x {
        Some(v) => Some(Doc::Bool(v)),
        None => None,
    }
}

/// The fields of a row by their names, in the order of the file, each with its value where it
/// has one.
#[verifier::opaque]
pub open spec fn named_fields(o: OrderView) -> Seq<(Seq<char>, Option<Doc>)> {
    seq![
        ("client_id"@, Some(Doc::Str(o.client_id))),
        ("sym"@, name_value(o.sym)),
        ("exch"@, name_value(o.exch)),
        ("pair"@, name_value(o.pair)),
        ("side"@, name_value(o.side)),
        ("kind"@, name_value(o.kind)),
        ("status"@, name_value(o.status)),
        ("quote"@, num_value(o.quote)),
        ("price"@, num_value(o.price)),
        ("base"@, num_value(o.base)),
        ("rung"@, int_value(o.rung)),
        ("ts"@, num_value(o.ts)),
        ("note"@, text_value(o.note)),
        ("label"@, text_value(o.label)),
        ("first_ts"@, num_value(o.first_ts)),
        ("order_id"@, text_value(o.order_id)),
        ("filled_base"@, num_value(o.filled_base)),
        ("filled_quote"@, num_value(o.filled_quote)),
        ("avg_price"@, num_value(o.avg_price)),
        ("filled_ts"@, num_value(o.filled_ts)),
        ("part_base"@, num_value(o.part_base)),
        ("part_quote"@, num_value(o.part_quote)),
        ("status_ts"@, num_value(o.status_ts)),
        ("last_error"@, text_value(o.last_error)),
        ("retries"@, int_value(o.retries)),
        ("gave_up"@, flag_value(o.gave_up)),
        ("swept"@, flag_value(o.swept)),
        ("partial"@, flag_value(o.partial)),
        ("book_pending"@, flag_value(o.book_pending)),
        ("settle_error"@, text_value(o.settle_error)),
        ("adopted_ts"@, num_value(o.adopted_ts)),
        ("manual_size"@, flag_value(o.manual_size)),
    ]
}

/// The fields that have a value, of the first `n`.
pub open spec fn present(f: Seq<(Seq<char>, Option<Doc>)>, n: nat) -> Seq<(Seq<char>, Doc)>
    decreases n,
{
    if n == 0 {
        Seq::empty()
    } else {
        match f[n - 1].1 {
            Some(v) => present(f, (n - 1) as nat).push((f[n - 1].0, v)),
            None => present(f, (n - 1) as nat),
        }
    }
}

/// The place of a name that a row has of its own.
spec fn place_of(k: Seq<char>) -> int {
    if k == "client_id"@ {
        0
    } else if k == "sym"@ {
        1
    } else if k == "exch"@ {
        2
    } else if k == "pair"@ {
        3
    } else if k == "side"@ {
        4
    } else if k == "kind"@ {
        5
    } else if k == "status"@ {
        6
    } else if k == "quote"@ {
        7
    } else if k == "price"@ {
        8
    } else if k == "base"@ {
        9
    } else if k == "rung"@ {
        10
    } else if k == "ts"@ {
        11
    } else if k == "note"@ {
        12
    } else if k == "label"@ {
        13
    } else if k == "first_ts"@ {
        14
    } else if k == "order_id"@ {
        15
    } else if k == "filled_base"@ {
        16
    } else if k == "filled_quote"@ {
        17
    } else if k == "avg_price"@ {
        18
    } else if k == "filled_ts"@ {
        19
    } else if k == "part_base"@ {
        20
    } else if k == "part_quote"@ {
        21
    } else if k == "status_ts"@ {
        22
    } else if k == "last_error"@ {
        23
    } else if k == "retries"@ {
        24
    } else if k == "gave_up"@ {
        25
    } else if k == "swept"@ {
        26
    } else if k == "partial"@ {
        27
    } else if k == "book_pending"@ {
        28
    } else if k == "settle_error"@ {
        29
    } else if k == "adopted_ts"@ {
        30
    } else if k == "manual_size"@ {
        31
    } else if k == "venue"@ {
        32
    } else if k == "placed_ts"@ {
        33
    } else if k == "venue_order_id"@ {
        34
    } else {
        -1
    }
}

proof fn lemma_extra(xs: Seq<(Seq<char>, Doc)>, d: Doc, n: nat)
    requires
        n <= xs.len(),
        d is Obj,
    ensures
        add_extra_spec(xs, d, n) == Doc::Obj(d->Obj_0 + xs.take(n as int)),
    decreases n,
{
    if n > 0 {
        lemma_extra(xs, d, (n - 1) as nat);
        assert((d->Obj_0 + xs.take(n - 1)).push(xs[n - 1]) =~= d->Obj_0 + xs.take(n as int));
    } else {
        assert(d->Obj_0 + xs.take(0) =~= d->Obj_0);
    }
}

/// The first `n` fields of a row as an object.
#[verifier::opaque]
spec fn upto(o: OrderView, n: nat) -> Doc {
    Doc::Obj(present(named_fields(o), n))
}

/// One more field of a row, where it has a value.
proof fn lemma_next(o: OrderView, n: nat, k: Seq<char>, v: Option<Doc>)
    requires
        n > 0,
        named_fields(o)[n - 1] == (k, v),
    ensures
        upto(o, n) == match v {
            Some(x) => upto(o, (n - 1) as nat).with(k, x),
            None => upto(o, (n - 1) as nat),
        },
{
    reveal(upto);
}

/// What the names of a row add to it.
#[verifier::spinoff_prover]
proof fn lemma_writes_names(o: OrderView)
    ensures
        upto(o, 8) == ({
            let out = Doc::obj().with("client_id"@, Doc::Str(o.client_id));
            let out = with_name_spec(out, "sym"@, o.sym);
            let out = with_name_spec(out, "exch"@, o.exch);
            let out = with_name_spec(out, "pair"@, o.pair);
            let out = with_name_spec(out, "side"@, o.side);
            let out = with_name_spec(out, "kind"@, o.kind);
            let out = with_name_spec(out, "status"@, o.status);
            let out = with_num_spec(out, "quote"@, o.quote);
            out
        }),
{
    assert(upto(o, 0) == Doc::obj()) by {
        reveal(upto);
    }
    assert(named_fields(o)[0] == ("client_id"@, Some(Doc::Str(o.client_id)))) by {
        reveal(named_fields);
    }
    lemma_next(o, 1, "client_id"@, Some(Doc::Str(o.client_id)));
    assert(named_fields(o)[1] == ("sym"@, name_value(o.sym))) by {
        reveal(named_fields);
    }
    lemma_next(o, 2, "sym"@, name_value(o.sym));
    assert(named_fields(o)[2] == ("exch"@, name_value(o.exch))) by {
        reveal(named_fields);
    }
    lemma_next(o, 3, "exch"@, name_value(o.exch));
    assert(named_fields(o)[3] == ("pair"@, name_value(o.pair))) by {
        reveal(named_fields);
    }
    lemma_next(o, 4, "pair"@, name_value(o.pair));
    assert(named_fields(o)[4] == ("side"@, name_value(o.side))) by {
        reveal(named_fields);
    }
    lemma_next(o, 5, "side"@, name_value(o.side));
    assert(named_fields(o)[5] == ("kind"@, name_value(o.kind))) by {
        reveal(named_fields);
    }
    lemma_next(o, 6, "kind"@, name_value(o.kind));
    assert(named_fields(o)[6] == ("status"@, name_value(o.status))) by {
        reveal(named_fields);
    }
    lemma_next(o, 7, "status"@, name_value(o.status));
    assert(named_fields(o)[7] == ("quote"@, num_value(o.quote))) by {
        reveal(named_fields);
    }
    lemma_next(o, 8, "quote"@, num_value(o.quote));
}

/// What the prices of a row add to it.
#[verifier::spinoff_prover]
proof fn lemma_writes_prices(o: OrderView)
    ensures
        upto(o, 16) == ({
            let out = with_num_spec(upto(o, 8), "price"@, o.price);
            let out = with_num_spec(out, "base"@, o.base);
            let out = with_int_spec(out, "rung"@, o.rung);
            let out = with_num_spec(out, "ts"@, o.ts);
            let out = with_text_spec(out, "note"@, o.note);
            let out = with_text_spec(out, "label"@, o.label);
            let out = with_num_spec(out, "first_ts"@, o.first_ts);
            let out = with_text_spec(out, "order_id"@, o.order_id);
            out
        }),
{
    assert(named_fields(o)[8] == ("price"@, num_value(o.price))) by {
        reveal(named_fields);
    }
    lemma_next(o, 9, "price"@, num_value(o.price));
    assert(named_fields(o)[9] == ("base"@, num_value(o.base))) by {
        reveal(named_fields);
    }
    lemma_next(o, 10, "base"@, num_value(o.base));
    assert(named_fields(o)[10] == ("rung"@, int_value(o.rung))) by {
        reveal(named_fields);
    }
    lemma_next(o, 11, "rung"@, int_value(o.rung));
    assert(named_fields(o)[11] == ("ts"@, num_value(o.ts))) by {
        reveal(named_fields);
    }
    lemma_next(o, 12, "ts"@, num_value(o.ts));
    assert(named_fields(o)[12] == ("note"@, text_value(o.note))) by {
        reveal(named_fields);
    }
    lemma_next(o, 13, "note"@, text_value(o.note));
    assert(named_fields(o)[13] == ("label"@, text_value(o.label))) by {
        reveal(named_fields);
    }
    lemma_next(o, 14, "label"@, text_value(o.label));
    assert(named_fields(o)[14] == ("first_ts"@, num_value(o.first_ts))) by {
        reveal(named_fields);
    }
    lemma_next(o, 15, "first_ts"@, num_value(o.first_ts));
    assert(named_fields(o)[15] == ("order_id"@, text_value(o.order_id))) by {
        reveal(named_fields);
    }
    lemma_next(o, 16, "order_id"@, text_value(o.order_id));
}

/// What the fills of a row add to it.
#[verifier::spinoff_prover]
proof fn lemma_writes_fills(o: OrderView)
    ensures
        upto(o, 24) == ({
            let out = with_num_spec(upto(o, 16), "filled_base"@, o.filled_base);
            let out = with_num_spec(out, "filled_quote"@, o.filled_quote);
            let out = with_num_spec(out, "avg_price"@, o.avg_price);
            let out = with_num_spec(out, "filled_ts"@, o.filled_ts);
            let out = with_num_spec(out, "part_base"@, o.part_base);
            let out = with_num_spec(out, "part_quote"@, o.part_quote);
            let out = with_num_spec(out, "status_ts"@, o.status_ts);
            let out = with_text_spec(out, "last_error"@, o.last_error);
            out
        }),
{
    assert(named_fields(o)[16] == ("filled_base"@, num_value(o.filled_base))) by {
        reveal(named_fields);
    }
    lemma_next(o, 17, "filled_base"@, num_value(o.filled_base));
    assert(named_fields(o)[17] == ("filled_quote"@, num_value(o.filled_quote))) by {
        reveal(named_fields);
    }
    lemma_next(o, 18, "filled_quote"@, num_value(o.filled_quote));
    assert(named_fields(o)[18] == ("avg_price"@, num_value(o.avg_price))) by {
        reveal(named_fields);
    }
    lemma_next(o, 19, "avg_price"@, num_value(o.avg_price));
    assert(named_fields(o)[19] == ("filled_ts"@, num_value(o.filled_ts))) by {
        reveal(named_fields);
    }
    lemma_next(o, 20, "filled_ts"@, num_value(o.filled_ts));
    assert(named_fields(o)[20] == ("part_base"@, num_value(o.part_base))) by {
        reveal(named_fields);
    }
    lemma_next(o, 21, "part_base"@, num_value(o.part_base));
    assert(named_fields(o)[21] == ("part_quote"@, num_value(o.part_quote))) by {
        reveal(named_fields);
    }
    lemma_next(o, 22, "part_quote"@, num_value(o.part_quote));
    assert(named_fields(o)[22] == ("status_ts"@, num_value(o.status_ts))) by {
        reveal(named_fields);
    }
    lemma_next(o, 23, "status_ts"@, num_value(o.status_ts));
    assert(named_fields(o)[23] == ("last_error"@, text_value(o.last_error))) by {
        reveal(named_fields);
    }
    lemma_next(o, 24, "last_error"@, text_value(o.last_error));
}

/// What the flags of a row add to it.
#[verifier::spinoff_prover]
proof fn lemma_writes_flags(o: OrderView)
    ensures
        upto(o, 32) == ({
            let out = with_int_spec(upto(o, 24), "retries"@, o.retries);
            let out = with_flag_spec(out, "gave_up"@, o.gave_up);
            let out = with_flag_spec(out, "swept"@, o.swept);
            let out = with_flag_spec(out, "partial"@, o.partial);
            let out = with_flag_spec(out, "book_pending"@, o.book_pending);
            let out = with_text_spec(out, "settle_error"@, o.settle_error);
            let out = with_num_spec(out, "adopted_ts"@, o.adopted_ts);
            let out = with_flag_spec(out, "manual_size"@, o.manual_size);
            out
        }),
{
    assert(named_fields(o)[24] == ("retries"@, int_value(o.retries))) by {
        reveal(named_fields);
    }
    lemma_next(o, 25, "retries"@, int_value(o.retries));
    assert(named_fields(o)[25] == ("gave_up"@, flag_value(o.gave_up))) by {
        reveal(named_fields);
    }
    lemma_next(o, 26, "gave_up"@, flag_value(o.gave_up));
    assert(named_fields(o)[26] == ("swept"@, flag_value(o.swept))) by {
        reveal(named_fields);
    }
    lemma_next(o, 27, "swept"@, flag_value(o.swept));
    assert(named_fields(o)[27] == ("partial"@, flag_value(o.partial))) by {
        reveal(named_fields);
    }
    lemma_next(o, 28, "partial"@, flag_value(o.partial));
    assert(named_fields(o)[28] == ("book_pending"@, flag_value(o.book_pending))) by {
        reveal(named_fields);
    }
    lemma_next(o, 29, "book_pending"@, flag_value(o.book_pending));
    assert(named_fields(o)[29] == ("settle_error"@, text_value(o.settle_error))) by {
        reveal(named_fields);
    }
    lemma_next(o, 30, "settle_error"@, text_value(o.settle_error));
    assert(named_fields(o)[30] == ("adopted_ts"@, num_value(o.adopted_ts))) by {
        reveal(named_fields);
    }
    lemma_next(o, 31, "adopted_ts"@, num_value(o.adopted_ts));
    assert(named_fields(o)[31] == ("manual_size"@, flag_value(o.manual_size))) by {
        reveal(named_fields);
    }
    lemma_next(o, 32, "manual_size"@, flag_value(o.manual_size));
}

/// A row as the file holds it is its fields that have a value, then what is kept verbatim.
#[verifier::spinoff_prover]
proof fn lemma_row_json(o: OrderView)
    ensures
        row_json_spec(o) == Doc::Obj(
            present(named_fields(o), named_fields(o).len()) + o.extra.entries(),
        ),
{
    let e = o.extra.entries();
    lemma_writes_names(o);
    lemma_writes_prices(o);
    lemma_writes_fills(o);
    lemma_writes_flags(o);
    assert(named_fields(o).len() == 32) by {
        reveal(named_fields);
    }
    assert(upto(o, 32) == Doc::Obj(present(named_fields(o), 32))) by {
        reveal(upto);
    }
    lemma_extra(e, upto(o, 32), e.len());
    assert(e.take(e.len() as int) =~= e);
}

/// Each name has a place of its own.
#[verifier::spinoff_prover]
#[verifier::rlimit(60)]
proof fn lemma_places()
    ensures
        place_of("client_id"@) == 0,
        place_of("sym"@) == 1,
        place_of("exch"@) == 2,
        place_of("pair"@) == 3,
        place_of("side"@) == 4,
        place_of("kind"@) == 5,
        place_of("status"@) == 6,
        place_of("quote"@) == 7,
        place_of("price"@) == 8,
        place_of("base"@) == 9,
        place_of("rung"@) == 10,
        place_of("ts"@) == 11,
        place_of("note"@) == 12,
        place_of("label"@) == 13,
        place_of("first_ts"@) == 14,
        place_of("order_id"@) == 15,
        place_of("filled_base"@) == 16,
        place_of("filled_quote"@) == 17,
        place_of("avg_price"@) == 18,
        place_of("filled_ts"@) == 19,
        place_of("part_base"@) == 20,
        place_of("part_quote"@) == 21,
        place_of("status_ts"@) == 22,
        place_of("last_error"@) == 23,
        place_of("retries"@) == 24,
        place_of("gave_up"@) == 25,
        place_of("swept"@) == 26,
        place_of("partial"@) == 27,
        place_of("book_pending"@) == 28,
        place_of("settle_error"@) == 29,
        place_of("adopted_ts"@) == 30,
        place_of("manual_size"@) == 31,
        place_of("venue"@) == 32,
        place_of("placed_ts"@) == 33,
        place_of("venue_order_id"@) == 34,
{
    reveal_strlit("client_id");
    reveal_strlit("sym");
    reveal_strlit("exch");
    reveal_strlit("pair");
    reveal_strlit("side");
    reveal_strlit("kind");
    reveal_strlit("status");
    reveal_strlit("quote");
    reveal_strlit("price");
    reveal_strlit("base");
    reveal_strlit("rung");
    reveal_strlit("ts");
    reveal_strlit("note");
    reveal_strlit("label");
    reveal_strlit("first_ts");
    reveal_strlit("order_id");
    reveal_strlit("filled_base");
    reveal_strlit("filled_quote");
    reveal_strlit("avg_price");
    reveal_strlit("filled_ts");
    reveal_strlit("part_base");
    reveal_strlit("part_quote");
    reveal_strlit("status_ts");
    reveal_strlit("last_error");
    reveal_strlit("retries");
    reveal_strlit("gave_up");
    reveal_strlit("swept");
    reveal_strlit("partial");
    reveal_strlit("book_pending");
    reveal_strlit("settle_error");
    reveal_strlit("adopted_ts");
    reveal_strlit("manual_size");
    reveal_strlit("venue");
    reveal_strlit("placed_ts");
    reveal_strlit("venue_order_id");
    assert("client_id"@.len() == 9);
    assert("sym"@.len() == 3);
    assert("exch"@.len() == 4);
    assert("pair"@.len() == 4);
    assert("side"@.len() == 4);
    assert("kind"@.len() == 4);
    assert("status"@.len() == 6);
    assert("quote"@.len() == 5);
    assert("price"@.len() == 5);
    assert("base"@.len() == 4);
    assert("rung"@.len() == 4);
    assert("ts"@.len() == 2);
    assert("note"@.len() == 4);
    assert("label"@.len() == 5);
    assert("first_ts"@.len() == 8);
    assert("order_id"@.len() == 8);
    assert("filled_base"@.len() == 11);
    assert("filled_quote"@.len() == 12);
    assert("avg_price"@.len() == 9);
    assert("filled_ts"@.len() == 9);
    assert("part_base"@.len() == 9);
    assert("part_quote"@.len() == 10);
    assert("status_ts"@.len() == 9);
    assert("last_error"@.len() == 10);
    assert("retries"@.len() == 7);
    assert("gave_up"@.len() == 7);
    assert("swept"@.len() == 5);
    assert("partial"@.len() == 7);
    assert("book_pending"@.len() == 12);
    assert("settle_error"@.len() == 12);
    assert("adopted_ts"@.len() == 10);
    assert("manual_size"@.len() == 11);
    assert("venue"@.len() == 5);
    assert("placed_ts"@.len() == 9);
    assert("venue_order_id"@.len() == 14);
    assert("client_id"@[0] == 'c');
    assert("client_id"@[1] == 'l');
    assert("avg_price"@[0] == 'a');
    assert("avg_price"@[1] == 'v');
    assert("filled_ts"@[0] == 'f');
    assert("filled_ts"@[1] == 'i');
    assert("part_base"@[0] == 'p');
    assert("part_base"@[1] == 'a');
    assert("status_ts"@[0] == 's');
    assert("status_ts"@[1] == 't');
    assert("placed_ts"@[0] == 'p');
    assert("placed_ts"@[1] == 'l');
    assert("exch"@[0] == 'e');
    assert("pair"@[0] == 'p');
    assert("side"@[0] == 's');
    assert("kind"@[0] == 'k');
    assert("base"@[0] == 'b');
    assert("rung"@[0] == 'r');
    assert("note"@[0] == 'n');
    assert("quote"@[0] == 'q');
    assert("price"@[0] == 'p');
    assert("label"@[0] == 'l');
    assert("swept"@[0] == 's');
    assert("venue"@[0] == 'v');
    assert("first_ts"@[0] == 'f');
    assert("order_id"@[0] == 'o');
    assert("filled_base"@[0] == 'f');
    assert("manual_size"@[0] == 'm');
    assert("filled_quote"@[0] == 'f');
    assert("book_pending"@[0] == 'b');
    assert("settle_error"@[0] == 's');
    assert("part_quote"@[0] == 'p');
    assert("last_error"@[0] == 'l');
    assert("adopted_ts"@[0] == 'a');
    assert("retries"@[0] == 'r');
    assert("gave_up"@[0] == 'g');
    assert("partial"@[0] == 'p');
}

/// No two fields have one name, and each is one that a row has of its own.
#[verifier::spinoff_prover]
#[verifier::rlimit(60)]
proof fn lemma_fields(o: OrderView, i: int)
    requires
        0 <= i < named_fields(o).len(),
    ensures
        place_of(named_fields(o)[i].0) == i,
        is_known_spec(named_fields(o)[i].0),
{
    reveal(named_fields);
    lemma_places();
    let f = named_fields(o);
    if i == 0 {
        assert(f[0].0 == "client_id"@);
    } else if i == 1 {
        assert(f[1].0 == "sym"@);
    } else if i == 2 {
        assert(f[2].0 == "exch"@);
    } else if i == 3 {
        assert(f[3].0 == "pair"@);
    } else if i == 4 {
        assert(f[4].0 == "side"@);
    } else if i == 5 {
        assert(f[5].0 == "kind"@);
    } else if i == 6 {
        assert(f[6].0 == "status"@);
    } else if i == 7 {
        assert(f[7].0 == "quote"@);
    } else if i == 8 {
        assert(f[8].0 == "price"@);
    } else if i == 9 {
        assert(f[9].0 == "base"@);
    } else if i == 10 {
        assert(f[10].0 == "rung"@);
    } else if i == 11 {
        assert(f[11].0 == "ts"@);
    } else if i == 12 {
        assert(f[12].0 == "note"@);
    } else if i == 13 {
        assert(f[13].0 == "label"@);
    } else if i == 14 {
        assert(f[14].0 == "first_ts"@);
    } else if i == 15 {
        assert(f[15].0 == "order_id"@);
    } else if i == 16 {
        assert(f[16].0 == "filled_base"@);
    } else if i == 17 {
        assert(f[17].0 == "filled_quote"@);
    } else if i == 18 {
        assert(f[18].0 == "avg_price"@);
    } else if i == 19 {
        assert(f[19].0 == "filled_ts"@);
    } else if i == 20 {
        assert(f[20].0 == "part_base"@);
    } else if i == 21 {
        assert(f[21].0 == "part_quote"@);
    } else if i == 22 {
        assert(f[22].0 == "status_ts"@);
    } else if i == 23 {
        assert(f[23].0 == "last_error"@);
    } else if i == 24 {
        assert(f[24].0 == "retries"@);
    } else if i == 25 {
        assert(f[25].0 == "gave_up"@);
    } else if i == 26 {
        assert(f[26].0 == "swept"@);
    } else if i == 27 {
        assert(f[27].0 == "partial"@);
    } else if i == 28 {
        assert(f[28].0 == "book_pending"@);
    } else if i == 29 {
        assert(f[29].0 == "settle_error"@);
    } else if i == 30 {
        assert(f[30].0 == "adopted_ts"@);
    } else if i == 31 {
        assert(f[31].0 == "manual_size"@);
    }
}

/// Whether a value is one that its field may hold.
spec fn entry_fits(k: Seq<char>, v: Doc) -> bool {
    match field_kind_spec(k) {
        Some(kind) => is_a_spec(v, kind),
        None => true,
    }
}

/// What a row is written with is what its fields may hold.
#[verifier::spinoff_prover]
#[verifier::rlimit(60)]
proof fn lemma_values(o: OrderView, i: int)
    requires
        0 <= i < named_fields(o).len(),
    ensures
        match named_fields(o)[i].1 {
            Some(v) => entry_fits(named_fields(o)[i].0, v),
            None => true,
        },
{
    let f = named_fields(o);
    reveal(named_fields);
    lemma_places();
    reveal_strlit("a string");
    reveal_strlit("a number");
    reveal_strlit("an integer");
    reveal_strlit("a boolean");
    assert("a string"@[2] == 's');
    assert("a number"@[2] == 'n');
    assert("a string"@.len() == 8);
    assert("a number"@.len() == 8);
    assert("an integer"@.len() == 10);
    assert("a boolean"@.len() == 9);
    if i == 0 {
        assert(f[0].0 == "client_id"@);
    } else if i == 1 {
        assert(f[1].0 == "sym"@);
    } else if i == 2 {
        assert(f[2].0 == "exch"@);
    } else if i == 3 {
        assert(f[3].0 == "pair"@);
    } else if i == 4 {
        assert(f[4].0 == "side"@);
    } else if i == 5 {
        assert(f[5].0 == "kind"@);
    } else if i == 6 {
        assert(f[6].0 == "status"@);
    } else if i == 7 {
        assert(f[7].0 == "quote"@);
    } else if i == 8 {
        assert(f[8].0 == "price"@);
    } else if i == 9 {
        assert(f[9].0 == "base"@);
    } else if i == 10 {
        assert(f[10].0 == "rung"@);
    } else if i == 11 {
        assert(f[11].0 == "ts"@);
    } else if i == 12 {
        assert(f[12].0 == "note"@);
    } else if i == 13 {
        assert(f[13].0 == "label"@);
    } else if i == 14 {
        assert(f[14].0 == "first_ts"@);
    } else if i == 15 {
        assert(f[15].0 == "order_id"@);
    } else if i == 16 {
        assert(f[16].0 == "filled_base"@);
    } else if i == 17 {
        assert(f[17].0 == "filled_quote"@);
    } else if i == 18 {
        assert(f[18].0 == "avg_price"@);
    } else if i == 19 {
        assert(f[19].0 == "filled_ts"@);
    } else if i == 20 {
        assert(f[20].0 == "part_base"@);
    } else if i == 21 {
        assert(f[21].0 == "part_quote"@);
    } else if i == 22 {
        assert(f[22].0 == "status_ts"@);
    } else if i == 23 {
        assert(f[23].0 == "last_error"@);
    } else if i == 24 {
        assert(f[24].0 == "retries"@);
    } else if i == 25 {
        assert(f[25].0 == "gave_up"@);
    } else if i == 26 {
        assert(f[26].0 == "swept"@);
    } else if i == 27 {
        assert(f[27].0 == "partial"@);
    } else if i == 28 {
        assert(f[28].0 == "book_pending"@);
    } else if i == 29 {
        assert(f[29].0 == "settle_error"@);
    } else if i == 30 {
        assert(f[30].0 == "adopted_ts"@);
    } else if i == 31 {
        assert(f[31].0 == "manual_size"@);
    }
}

proof fn lemma_no_fault(xs: Seq<(Seq<char>, Doc)>, n: nat)
    requires
        n <= xs.len(),
        forall|i: int| 0 <= i < n ==> entry_fits((#[trigger] xs[i]).0, xs[i].1),
    ensures
        find_fault_spec(xs, None, n) is None,
    decreases n,
{
    if n > 0 {
        lemma_no_fault(xs, (n - 1) as nat);
    }
}

proof fn lemma_present(o: OrderView, n: nat)
    requires
        n <= named_fields(o).len(),
    ensures
        forall|i: int|
            0 <= i < present(named_fields(o), n).len() ==> is_known_spec(
                (#[trigger] present(named_fields(o), n)[i]).0,
            ) && entry_fits(
                present(named_fields(o), n)[i].0,
                present(named_fields(o), n)[i].1,
            ),
    decreases n,
{
    if n > 0 {
        let f = named_fields(o);
        let before = present(f, (n - 1) as nat);
        let s = present(f, n);
        lemma_present(o, (n - 1) as nat);
        lemma_fields(o, n - 1);
        lemma_values(o, n - 1);
        assert forall|i: int| 0 <= i < s.len() implies is_known_spec((#[trigger] s[i]).0)
            && entry_fits(s[i].0, s[i].1) by {
            if i < before.len() {
                assert(s[i] == before[i]);
            }
        }
    }
}

/// What is found under a name among the fields of a row, the first of which is the one with
/// its place.
proof fn lemma_found(o: OrderView, k: Seq<char>, n: nat, e: Seq<(Seq<char>, Doc)>)
    requires
        n <= named_fields(o).len(),
        is_known_spec(k),
        forall|i: int| 0 <= i < e.len() ==> !is_known_spec((#[trigger] e[i]).0),
    ensures
        Doc::Obj(present(named_fields(o), n) + e).get(k) == if 0 <= place_of(k) < n
            && named_fields(o)[place_of(k)].0 == k {
            named_fields(o)[place_of(k)].1
        } else {
            None
        },
    decreases n,
{
    let f = named_fields(o);
    let s = present(f, n) + e;
    json::lemma_spot(s, k, 0);
    let x = json::spot(s, k, 0);
    if n == 0 {
        assert(s =~= e);
    } else {
        let m = (n - 1) as nat;
        let t = present(f, m) + e;
        lemma_found(o, k, m, e);
        lemma_fields(o, n - 1);
        json::lemma_spot(t, k, 0);
        let y = json::spot(t, k, 0);
        let d = present(f, m);
        match f[n - 1].1 {
            Some(v) => {
                assert(present(f, n) == d.push((f[n - 1].0, v)));
                assert(s[d.len() as int] == (f[n - 1].0, v));
                assert forall|i: int| 0 <= i < d.len() implies s[i] == t[i] by {}
                assert forall|i: int| d.len() < i < s.len() implies s[i] == e[i - d.len() - 1] by {}
                assert forall|i: int| d.len() <= i < t.len() implies t[i] == e[i - d.len()] by {}
                if y < t.len() {
                    assert(y < d.len());
                    assert(s[y].0 == k);
                }
                if x < s.len() {
                    assert(x <= d.len());
                    if x < d.len() {
                        assert(t[x].0 == k);
                    }
                }
            },
            None => {
                assert(s =~= t);
            },
        }
    }
}

proof fn lemma_unknown(known: Seq<(Seq<char>, Doc)>, e: Seq<(Seq<char>, Doc)>, n: nat)
    requires
        n <= known.len() + e.len(),
        forall|i: int| 0 <= i < known.len() ==> is_known_spec((#[trigger] known[i]).0),
        forall|i: int| 0 <= i < e.len() ==> !is_known_spec((#[trigger] e[i]).0),
    ensures
        add_unknown_spec(known + e, Doc::obj(), n) == Doc::Obj(
            e.take(
                if n <= known.len() {
                    0
                } else {
                    n - known.len()
                },
            ),
        ),
    decreases n,
{
    if n > 0 {
        lemma_unknown(known, e, (n - 1) as nat);
        if n <= known.len() {
            assert((known + e)[n - 1] == known[n - 1]);
        } else {
            assert((known + e)[n - 1] == e[n - 1 - known.len()]);
            assert(e.take(n - 1 - known.len()).push(e[n - 1 - known.len()]) =~= e.take(
                n - known.len(),
            ));
        }
    } else {
        assert(e.take(0) =~= Seq::empty());
    }
}

/// Whether what a row carries besides its own fields is under other names.
pub open spec fn carries_others(o: OrderView) -> bool {
    &&& o.extra is Obj
    &&& forall|i: int|
        0 <= i < o.extra.entries().len() ==> !is_known_spec((#[trigger] o.extra.entries()[i]).0)
}

/// A row as the file holds it, from the list of its fields.
#[verifier::opaque]
spec fn row_doc(o: OrderView) -> Doc {
    Doc::Obj(present(named_fields(o), named_fields(o).len()) + o.extra.entries())
}

/// What stands under a name of a row's own when the row is written.
proof fn lemma_under(o: OrderView, i: int)
    requires
        0 <= i < named_fields(o).len(),
        carries_others(o),
    ensures
        row_doc(o).get(named_fields(o)[i].0) == named_fields(o)[i].1,
{
    reveal(row_doc);
    lemma_fields(o, i);
    lemma_found(o, named_fields(o)[i].0, named_fields(o).len(), o.extra.entries());
}

/// An alias is never written.
proof fn lemma_alias(o: OrderView, k: Seq<char>)
    requires
        is_known_spec(k),
        place_of(k) >= named_fields(o).len(),
        carries_others(o),
    ensures
        row_doc(o).get(k) is None,
{
    reveal(row_doc);
    lemma_found(o, k, named_fields(o).len(), o.extra.entries());
}

#[verifier::spinoff_prover]
proof fn lemma_reads_names(o: OrderView)
    requires
        carries_others(o),
    ensures
        fields::text_or_spec(row_doc(o), "client_id"@, ""@) == o.client_id,
        text_under_spec(row_doc(o), "client_id"@) == Some(o.client_id),
        fields::text_or_spec(row_doc(o), "sym"@, ""@) == o.sym,
        fields::text_or_spec(row_doc(o), "exch"@, ""@) == o.exch,
        fields::text_or_spec(row_doc(o), "pair"@, ""@) == o.pair,
        fields::text_or_spec(row_doc(o), "side"@, ""@) == o.side,
        fields::text_or_spec(row_doc(o), "kind"@, ""@) == o.kind,
        fields::text_or_spec(row_doc(o), "status"@, ""@) == o.status,
        num_under_spec(row_doc(o), "quote"@) == o.quote,
{
    reveal(named_fields);
    let f = named_fields(o);
    lemma_under(o, 0);
    assert(f[0] == ("client_id"@, Some(Doc::Str(o.client_id))));
    lemma_under(o, 1);
    assert(f[1] == ("sym"@, name_value(o.sym)));
    lemma_under(o, 2);
    assert(f[2] == ("exch"@, name_value(o.exch)));
    lemma_under(o, 3);
    assert(f[3] == ("pair"@, name_value(o.pair)));
    lemma_under(o, 4);
    assert(f[4] == ("side"@, name_value(o.side)));
    lemma_under(o, 5);
    assert(f[5] == ("kind"@, name_value(o.kind)));
    lemma_under(o, 6);
    assert(f[6] == ("status"@, name_value(o.status)));
    lemma_under(o, 7);
    assert(f[7] == ("quote"@, num_value(o.quote)));
}

#[verifier::spinoff_prover]
proof fn lemma_reads_prices(o: OrderView)
    requires
        carries_others(o),
    ensures
        num_under_spec(row_doc(o), "price"@) == o.price,
        num_under_spec(row_doc(o), "base"@) == o.base,
        int_under_spec(row_doc(o), "rung"@) == o.rung,
        num_under_spec(row_doc(o), "ts"@) == o.ts,
        text_under_spec(row_doc(o), "note"@) == o.note,
        text_under_spec(row_doc(o), "label"@) == o.label,
        num_under_spec(row_doc(o), "first_ts"@) == o.first_ts,
        loose_under_spec(row_doc(o), "order_id"@) == o.order_id,
{
    reveal(named_fields);
    let f = named_fields(o);
    lemma_under(o, 8);
    assert(f[8] == ("price"@, num_value(o.price)));
    lemma_under(o, 9);
    assert(f[9] == ("base"@, num_value(o.base)));
    lemma_under(o, 10);
    assert(f[10] == ("rung"@, int_value(o.rung)));
    lemma_under(o, 11);
    assert(f[11] == ("ts"@, num_value(o.ts)));
    lemma_under(o, 12);
    assert(f[12] == ("note"@, text_value(o.note)));
    lemma_under(o, 13);
    assert(f[13] == ("label"@, text_value(o.label)));
    lemma_under(o, 14);
    assert(f[14] == ("first_ts"@, num_value(o.first_ts)));
    lemma_under(o, 15);
    assert(f[15] == ("order_id"@, text_value(o.order_id)));
}

#[verifier::spinoff_prover]
proof fn lemma_reads_fills(o: OrderView)
    requires
        carries_others(o),
    ensures
        num_under_spec(row_doc(o), "filled_base"@) == o.filled_base,
        num_under_spec(row_doc(o), "filled_quote"@) == o.filled_quote,
        num_under_spec(row_doc(o), "avg_price"@) == o.avg_price,
        num_under_spec(row_doc(o), "filled_ts"@) == o.filled_ts,
        num_under_spec(row_doc(o), "part_base"@) == o.part_base,
        num_under_spec(row_doc(o), "part_quote"@) == o.part_quote,
        num_under_spec(row_doc(o), "status_ts"@) == o.status_ts,
        text_under_spec(row_doc(o), "last_error"@) == o.last_error,
{
    reveal(named_fields);
    let f = named_fields(o);
    lemma_under(o, 16);
    assert(f[16] == ("filled_base"@, num_value(o.filled_base)));
    lemma_under(o, 17);
    assert(f[17] == ("filled_quote"@, num_value(o.filled_quote)));
    lemma_under(o, 18);
    assert(f[18] == ("avg_price"@, num_value(o.avg_price)));
    lemma_under(o, 19);
    assert(f[19] == ("filled_ts"@, num_value(o.filled_ts)));
    lemma_under(o, 20);
    assert(f[20] == ("part_base"@, num_value(o.part_base)));
    lemma_under(o, 21);
    assert(f[21] == ("part_quote"@, num_value(o.part_quote)));
    lemma_under(o, 22);
    assert(f[22] == ("status_ts"@, num_value(o.status_ts)));
    lemma_under(o, 23);
    assert(f[23] == ("last_error"@, text_value(o.last_error)));
}

#[verifier::spinoff_prover]
proof fn lemma_reads_flags(o: OrderView)
    requires
        carries_others(o),
    ensures
        int_under_spec(row_doc(o), "retries"@) == o.retries,
        flag_under_spec(row_doc(o), "gave_up"@) == o.gave_up,
        flag_under_spec(row_doc(o), "swept"@) == o.swept,
        flag_under_spec(row_doc(o), "partial"@) == o.partial,
        flag_under_spec(row_doc(o), "book_pending"@) == o.book_pending,
        text_under_spec(row_doc(o), "settle_error"@) == o.settle_error,
        num_under_spec(row_doc(o), "adopted_ts"@) == o.adopted_ts,
        flag_under_spec(row_doc(o), "manual_size"@) == o.manual_size,
{
    reveal(named_fields);
    let f = named_fields(o);
    lemma_under(o, 24);
    assert(f[24] == ("retries"@, int_value(o.retries)));
    lemma_under(o, 25);
    assert(f[25] == ("gave_up"@, flag_value(o.gave_up)));
    lemma_under(o, 26);
    assert(f[26] == ("swept"@, flag_value(o.swept)));
    lemma_under(o, 27);
    assert(f[27] == ("partial"@, flag_value(o.partial)));
    lemma_under(o, 28);
    assert(f[28] == ("book_pending"@, flag_value(o.book_pending)));
    lemma_under(o, 29);
    assert(f[29] == ("settle_error"@, text_value(o.settle_error)));
    lemma_under(o, 30);
    assert(f[30] == ("adopted_ts"@, num_value(o.adopted_ts)));
    lemma_under(o, 31);
    assert(f[31] == ("manual_size"@, flag_value(o.manual_size)));
}

#[verifier::spinoff_prover]
proof fn lemma_reads_aliases(o: OrderView)
    requires
        carries_others(o),
    ensures
        fields::text_or_spec(row_doc(o), "venue"@, ""@) == ""@,
        num_under_spec(row_doc(o), "placed_ts"@) is None,
        loose_under_spec(row_doc(o), "venue_order_id"@) is None,
{
    reveal(named_fields);
    lemma_places();
    assert(named_fields(o).len() == 32);
    lemma_alias(o, "venue"@);
    lemma_alias(o, "placed_ts"@);
    lemma_alias(o, "venue_order_id"@);
}

proof fn lemma_reads_whole(o: OrderView)
    requires
        carries_others(o),
    ensures
        row_doc(o) is Obj,
        find_fault_spec(row_doc(o).entries(), None, row_doc(o).entries().len()) is None,
        unknown_fields_spec(row_doc(o)) == o.extra,
{
    reveal(row_doc);
    let f = named_fields(o);
    let e = o.extra.entries();
    let known = present(f, f.len());
    lemma_present(o, f.len());
    assert forall|i: int| 0 <= i < (known + e).len() implies entry_fits(
        (#[trigger] (known + e)[i]).0,
        (known + e)[i].1,
    ) by {
        if i < known.len() {
            assert((known + e)[i] == known[i]);
        } else {
            assert((known + e)[i] == e[i - known.len()]);
        }
    }
    lemma_no_fault(known + e, (known + e).len());
    lemma_unknown(known, e, (known + e).len());
    assert(e.take(e.len() as int) =~= e);
}

#[verifier::spinoff_prover]
proof fn lemma_reads_back(o: OrderView)
    requires
        carries_others(o),
    ensures
        read_row_spec(row_doc(o)) == Ok::<OrderView, Seq<char>>(o),
{
    lemma_reads_names(o);
    lemma_reads_prices(o);
    lemma_reads_fills(o);
    lemma_reads_flags(o);
    lemma_reads_aliases(o);
    lemma_reads_whole(o);
}

/// A row that was written reads back as it was, with what it carries besides its own fields.
pub proof fn law_a_written_row_reads_back(o: OrderView)
    requires
        carries_others(o),
    ensures
        read_row_spec(row_json_spec(o)) == Ok::<OrderView, Seq<char>>(o),
{
    lemma_row_json(o);
    lemma_reads_back(o);
    assert(row_json_spec(o) == row_doc(o)) by {
        reveal(row_doc);
    }
}

proof fn lemma_kept(xs: Seq<(Seq<char>, Doc)>, n: nat)
    requires
        n <= xs.len(),
    ensures
        add_unknown_spec(xs, Doc::obj(), n) is Obj,
        forall|i: int|
            0 <= i < add_unknown_spec(xs, Doc::obj(), n).entries().len() ==> !is_known_spec(
                (#[trigger] add_unknown_spec(xs, Doc::obj(), n).entries()[i]).0,
            ),
    decreases n,
{
    if n > 0 {
        let before = add_unknown_spec(xs, Doc::obj(), (n - 1) as nat);
        let s = add_unknown_spec(xs, Doc::obj(), n);
        lemma_kept(xs, (n - 1) as nat);
        assert forall|i: int| 0 <= i < s.entries().len() implies !is_known_spec(
            (#[trigger] s.entries()[i]).0,
        ) by {
            if i < before.entries().len() {
                assert(s.entries()[i] == before.entries()[i]);
            }
        }
    }
}

/// A row that was read and is written again reads the same, and every field that it does not
/// know stands in it as it was read, in the order in which it was read.
pub proof fn law_unknown_fields_are_kept(j: Doc, o: OrderView)
    requires
        read_row_spec(j) == Ok::<OrderView, Seq<char>>(o),
    ensures
        read_row_spec(row_json_spec(o)) == Ok::<OrderView, Seq<char>>(o),
        unknown_fields_spec(row_json_spec(o)) == unknown_fields_spec(j),
{
    lemma_kept(j.entries(), j.entries().len());
    law_a_written_row_reads_back(o);
}

/// Rows under their own ids, no two of which are the same.
pub open spec fn keyed_rows(rows: Seq<(Seq<char>, OrderView)>) -> bool {
    &&& forall|i: int| 0 <= i < rows.len() ==> (#[trigger] rows[i]).0 == rows[i].1.client_id
    &&& forall|i: int, k: int|
        0 <= i < k < rows.len() ==> (#[trigger] rows[i]).0 != (#[trigger] rows[k]).0
}

proof fn lemma_removed(rows: Seq<(Seq<char>, OrderView)>, cid: Seq<char>, other: Seq<char>)
    requires
        keyed_rows(rows),
    ensures
        keyed_rows(removed(rows, cid)),
        row_of(removed(rows, cid), cid) is None,
        other != cid ==> row_of(removed(rows, cid), other) == row_of(rows, other),
        removed(rows, cid).len() == rows.len() - if row_of(rows, cid) is Some {
            1int
        } else {
            0int
        },
{
    let w = removed(rows, cid);
    lemma_row_place(rows, cid, 0);
    lemma_row_place(w, cid, 0);
    lemma_row_place(rows, other, 0);
    lemma_row_place(w, other, 0);
    let p = row_place(rows, cid, 0);
    if p < rows.len() {
        assert forall|i: int| 0 <= i < w.len() implies #[trigger] w[i] == rows[if i < p {
            i
        } else {
            i + 1
        }] by {}
        let x = row_place(rows, other, 0);
        if other != cid && x < rows.len() {
            let y = if x < p {
                x
            } else {
                x - 1
            };
            assert(w[y] == rows[x]);
            let z = row_place(w, other, 0);
            assert(z <= y);
            assert(w[z].0 == other);
        }
    }
}

proof fn lemma_finished(rows: Seq<OrderView>, cutoff: Double, n: nat, cid: Seq<char>)
    requires
        n <= rows.len(),
        forall|i: int, k: int|
            0 <= i < k < rows.len() ==> (#[trigger] rows[i]).client_id != (
            #[trigger] rows[k]).client_id,
    ensures
        add_finished_spec(cutoff, rows, Seq::empty(), n).contains(cid) <==> exists|i: int|
            0 <= i < n && (#[trigger] rows[i]).client_id == cid && is_finished_spec(
                rows[i],
                cutoff,
            ),
        add_finished_spec(cutoff, rows, Seq::empty(), n).no_duplicates(),
    decreases n,
{
    let s = add_finished_spec(cutoff, rows, Seq::empty(), n);
    if n > 0 {
        let m = (n - 1) as nat;
        let t = add_finished_spec(cutoff, rows, Seq::empty(), m);
        lemma_finished(rows, cutoff, m, cid);
        lemma_finished(rows, cutoff, m, rows[n - 1].client_id);
        if is_finished_spec(rows[n - 1], cutoff) {
            assert(s == t.push(rows[n - 1].client_id));
            assert(s[n - 1 - (n - 1 - t.len())] == rows[n - 1].client_id);
            if t.contains(cid) {
                let i = choose|i: int| 0 <= i < t.len() && t[i] == cid;
                assert(s[i] == cid);
            }
            if s.contains(cid) && cid != rows[n - 1].client_id {
                let i = choose|i: int| 0 <= i < s.len() && s[i] == cid;
                assert(t[i] == cid);
            }
        }
    }
}

proof fn lemma_taken_out(
    rows: Seq<(Seq<char>, OrderView)>,
    ids: Seq<Seq<char>>,
    n: nat,
    cid: Seq<char>,
)
    requires
        keyed_rows(rows),
        ids.no_duplicates(),
        n <= ids.len(),
        forall|i: int| 0 <= i < ids.len() ==> row_of(rows, #[trigger] ids[i]) is Some,
    ensures
        ({
            let (left, out) = taken_out(rows, ids, n);
            &&& keyed_rows(left)
            &&& row_of(left, cid) == if ids.take(n as int).contains(cid) {
                None
            } else {
                row_of(rows, cid)
            }
            &&& out.len() == n
            &&& forall|i: int| 0 <= i < n ==> row_of(rows, ids[i]) == Some(#[trigger] out[i])
            &&& left.len() + out.len() == rows.len()
        }),
    decreases n,
{
    if n > 0 {
        let m = (n - 1) as nat;
        let (left, out) = taken_out(rows, ids, m);
        let last = ids[n - 1];
        lemma_taken_out(rows, ids, m, cid);
        lemma_taken_out(rows, ids, m, last);
        lemma_removed(left, last, cid);
        let a = ids.take(m as int);
        let b = ids.take(n as int);
        assert(b =~= a.push(last));
        assert(b[m as int] == last);
        if a.contains(last) {
            let i = choose|i: int| 0 <= i < a.len() && a[i] == last;
            assert(ids[i] == ids[n - 1]);
        }
        if a.contains(cid) {
            let i = choose|i: int| 0 <= i < a.len() && a[i] == cid;
            assert(b[i] == cid);
        }
        if b.contains(cid) && cid != last {
            let i = choose|i: int| 0 <= i < b.len() && b[i] == cid;
            assert(a[i] == cid);
        }
    }
}

/// Archiving loses nothing: a row is either still in the journal as it was, or it can be
/// archived, is gone from the journal and was handed out, and there is no row more or less than
/// before.
pub proof fn law_archiving_loses_nothing(
    rows: Seq<(Seq<char>, OrderView)>,
    cutoff: Double,
    i: int,
)
    requires
        keyed_rows(rows),
        0 <= i < rows.len(),
    ensures
        ({
            let ids = finished_ids_spec(rows_alone(rows), cutoff);
            let (left, out) = taken_out(rows, ids, ids.len());
            let (cid, o) = rows[i];
            &&& is_finished_spec(o, cutoff) ==> row_of(left, cid) is None && out.contains(o)
            &&& !is_finished_spec(o, cutoff) ==> row_of(left, cid) == Some(o)
            &&& left.len() + out.len() == rows.len()
        }),
{
    let alone = rows_alone(rows);
    let ids = finished_ids_spec(alone, cutoff);
    let (cid, o) = rows[i];
    assert forall|a: int, b: int| 0 <= a < b < alone.len() implies (
    #[trigger] alone[a]).client_id != (#[trigger] alone[b]).client_id by {
        assert(rows[a].0 != rows[b].0);
    }
    lemma_finished(alone, cutoff, alone.len(), cid);
    assert forall|k: int| 0 <= k < ids.len() implies row_of(rows, #[trigger] ids[k]) is Some by {
        lemma_finished(alone, cutoff, alone.len(), ids[k]);
        assert(ids.contains(ids[k]));
        let x = choose|x: int|
            0 <= x < alone.len() && (#[trigger] alone[x]).client_id == ids[k] && is_finished_spec(
                alone[x],
                cutoff,
            );
        assert(rows[x].0 == ids[k]);
        lemma_row_place(rows, ids[k], 0);
    }
    lemma_taken_out(rows, ids, ids.len(), cid);
    let (left, out) = taken_out(rows, ids, ids.len());
    assert(ids.take(ids.len() as int) =~= ids);
    lemma_row_place(rows, cid, 0);
    assert(alone[i] == o);
    assert(row_of(rows, cid) == Some(o));
    if is_finished_spec(o, cutoff) {
        assert(ids.contains(cid));
        let k = choose|k: int| 0 <= k < ids.len() && ids[k] == cid;
        assert(row_of(rows, ids[k]) == Some(out[k]));
    } else {
        if ids.contains(cid) {
            let x = choose|x: int|
                0 <= x < alone.len() && (#[trigger] alone[x]).client_id == cid && is_finished_spec(
                    alone[x],
                    cutoff,
                );
            assert(rows[x].0 == cid);
            assert(rows[i].0 == cid);
        }
    }
}

/// The window of a time is the half hour it falls into.
pub proof fn law_a_window_is_half_an_hour(ts: Double, seconds: nat)
    requires
        ts.finite(),
        ts.amount() == seconds * crate::double::unit(),
        seconds < 0x100_0000_0000,
    ensures
        window_of_spec(ts) == seconds / 1800,
{
    rounding::lemma_slots(ts, seconds, 1800);
    rounding::lemma_whole_of(
        ts.div_spec(Double::int_spec(1800)).floor_spec(),
        (seconds / 1800) as int,
    );
}

/// Rows are old from their days before now.
pub proof fn law_the_cutoff_is_its_days_ago(days: Double, now: Double, span: Double, cut: Double)
    requires
        days.finite(),
        now.finite(),
        span.finite(),
        cut.finite(),
        span.amount() == 86400 * days.amount(),
        cut.amount() == now.amount() - span.amount(),
    ensures
        cutoff_of_spec(days, now).amount() == cut.amount(),
{
    rounding::lemma_whole_is_exact(86400);
    let d = days.amount();
    let u = crate::double::unit() as int;
    assert(d * (86400 * u) == (86400 * d) * u) by (nonlinear_arith);
    rounding::lemma_exact_product(days, Double::int_spec(86400), span);
    rounding::lemma_exact_difference(now, days.mul_spec(Double::int_spec(86400)), cut);
}

proof fn lemma_quotes_before(xs: Seq<OrderView>, o: OrderView, total: Double, n: nat)
    requires
        n <= xs.len(),
    ensures
        add_quotes_spec(xs.push(o), total, n) == add_quotes_spec(xs, total, n),
    decreases n,
{
    if n > 0 {
        lemma_quotes_before(xs, o, total, (n - 1) as nat);
        assert(xs.push(o)[n - 1] == xs[n - 1]);
    }
}

/// Another order raises the total by its quote.
pub proof fn law_another_order_adds_its_quote(
    xs: Seq<OrderView>,
    o: OrderView,
    total: Double,
    quote: Double,
    after: Double,
)
    requires
        o.quote == Some(quote),
        quote.finite(),
        add_quotes_spec(xs, total, xs.len()).finite(),
        after.finite(),
        after.amount() == add_quotes_spec(xs, total, xs.len()).amount() + quote.amount(),
    ensures
        add_quotes_spec(xs.push(o), total, xs.len() + 1).amount() == after.amount(),
        add_quotes_spec(xs, total, 0) == total,
{
    lemma_quotes_before(xs, o, total, xs.len());
    assert(xs.push(o)[xs.len() as int] == o);
    rounding::lemma_exact_sum(add_quotes_spec(xs, total, xs.len()), quote, after);
}

/// A row counts for a day from the day's start on, and not where its placement failed.
pub proof fn law_a_day_counts_its_placed_rows(rows: Seq<OrderView>, since: Double, i: int)
    requires
        0 <= i < rows.len(),
        since.finite(),
        rows[i].ts matches Some(t) && t.finite(),
    ensures
        rows[i].ts->0.amount() >= since.amount() && rows[i].status != "error"@ ==> counted_rows_spec(
            rows,
            since,
        ).contains(rows[i]),
        rows[i].ts->0.amount() < since.amount() || rows[i].status == "error"@
            ==> !counted_rows_spec(rows, since).contains(rows[i]),
{
    let keep = |o: OrderView|
        since.le_spec(
            match o.ts {
                Some(v) => v,
                None => Double::zero_spec(),
            },
        ) && o.status != "error"@;
    lemma_kept_contains(rows, keep, rows.len(), rows[i]);
    assert(counted_rows_spec(rows, since) =~= list::kept(rows, keep, rows.len()));
    assert(rows.take(rows.len() as int) =~= rows);
    assert(rows.contains(rows[i]));
}

proof fn lemma_kept_contains(
    xs: Seq<OrderView>,
    keep: spec_fn(OrderView) -> bool,
    n: nat,
    o: OrderView,
)
    requires
        n <= xs.len(),
    ensures
        list::kept(xs, keep, n).contains(o) <==> keep(o) && xs.take(n as int).contains(o),
    decreases n,
{
    if n > 0 {
        let m = (n - 1) as nat;
        lemma_kept_contains(xs, keep, m, o);
        let a = list::kept(xs, keep, m);
        let b = list::kept(xs, keep, n);
        let x = xs[n - 1];
        assert(b == (if keep(x) {
            a.push(x)
        } else {
            a
        }));
        assert(xs.take(n as int) =~= xs.take(m as int).push(x));
        if xs.take(m as int).contains(o) {
            let k = choose|k: int| 0 <= k < m && xs.take(m as int)[k] == o;
            assert(xs.take(n as int)[k] == o);
        }
        if x == o {
            assert(xs.take(n as int)[n - 1] == o);
        }
        if xs.take(n as int).contains(o) && x != o {
            let k = choose|k: int| 0 <= k < n && xs.take(n as int)[k] == o;
            assert(xs.take(m as int)[k] == o);
        }
        if keep(x) {
            if a.contains(o) {
                let k = choose|k: int| 0 <= k < a.len() && a[k] == o;
                assert(b[k] == o);
            }
            if x == o {
                assert(b[a.len() as int] == o);
            }
            if b.contains(o) && x != o {
                let k = choose|k: int| 0 <= k < b.len() && b[k] == o;
                assert(a[k] == o);
            }
        }
    }
}

} // verus!
