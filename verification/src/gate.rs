//! A client of Gate.io spot: the requests it sends and how it reads what comes back.
//!
//! Signing: HMAC-SHA512 over `METHOD\npath\nquery\nsha512hex(body)\nts`, seconds. Market data
//! and pair precision are public calls; everything account-bound is signed.
//!
//! Two response quirks are handled in [`parse_order`], and both have cost money when read
//! naively:
//!
//! * `fill_price` is a deprecated alias for `filled_total`, the total quote filled, not a
//!   per-unit price. The per-unit price is `avg_deal_price`.
//! * On a market buy, `amount` and `left` are in the quote asset, so `amount - left` is
//!   quote, not base. The base is derived from `filled_total / avg_deal_price`.
//!
//! A key with no IP allowlist is disabled after 90 days, silently. See
//! [`crate::http::VenueError::hint`].
use crate::crypto;
use crate::decimal;
use crate::double::Double;
use crate::http;
use crate::http::{Reply, ReplyView, Request, RequestView, VenueError, VenueErrorView};
use crate::ids;
use crate::keys::{Credentials, CredentialsView};
use crate::list;
use crate::list::Duplicate;
use crate::pyfmt;
use crate::pyfmt::{PyDoc, PyVal};
use crate::rounding;
use crate::text;
use crate::time;
use crate::venue;
use crate::venue::{Balance, Limits, ParsedOrder, ParsedOrderView};
use crate::watch::fields;
use crate::watch::json;
use crate::watch::json::{Doc, Json};
use vstd::prelude::*;

verus! {

pub const BASE: &'static str = "https://api.gateio.ws";

/// The powers of a number by squaring, from the lowest bit of the exponent up.
pub open spec fn power(a: Double, r: Double, b: nat) -> Double
    decreases b,
{
    let s = if b % 2 == 1 {
        r.mul_spec(a)
    } else {
        r
    };
    if b / 2 == 0 {
        s
    } else {
        power(a.mul_spec(a), s, b / 2)
    }
}

/// An exponent in 32 bits.
pub open spec fn narrowed(p: int) -> int {
    let m = p % 0x1_0000_0000;
    if m >= 0x8000_0000 {
        m - 0x1_0000_0000
    } else {
        m
    }
}

/// Ten to a power, one over it for a negative one.
pub open spec fn power_of_ten_spec(places: i64) -> Double {
    let p = narrowed(places as int);
    if p < 0 {
        Double::int_spec(1).div_spec(power(Double::int_spec(10), Double::int_spec(1), (-p) as nat))
    } else {
        power(Double::int_spec(10), Double::int_spec(1), p as nat)
    }
}

fn power_of_ten(places: i64) -> (r: Double)
    ensures
        r == power_of_ten_spec(places),
{
    let m: i64 = time::rest_of(places, 0x1_0000_0000);
    let p: i64 = if m >= 0x8000_0000 {
        m - 0x1_0000_0000
    } else {
        m
    };
    let mut a = Double::of_int(10);
    let mut s = Double::of_int(1);
    let mut b: u64 = if p < 0 {
        (-(p as i128)) as u64
    } else {
        p as u64
    };
    let ghost whole = power(a, s, b as nat);
    loop
        invariant_except_break
            power(a, s, b as nat) == whole,
        ensures
            s == whole,
        decreases b,
    {
        if b % 2 == 1 {
            s = s.times(a);
        }
        b = b / 2;
        if b == 0 {
            break;
        }
        a = a.times(a);
    }
    if p < 0 {
        Double::of_int(1).over(s)
    } else {
        s
    }
}

/// A body whose fields are all texts.
pub open spec fn text_fields(pairs: Seq<(Seq<char>, Seq<char>)>) -> PyDoc {
    PyDoc::Dict(Seq::new(pairs.len(), |i: int| (pairs[i].0, PyDoc::Str(pairs[i].1))))
}

fn body_json(pairs: &Vec<(String, String)>) -> (r: String)
    ensures
        r@ == pyfmt::dumped(text_fields(pairs.deep_view()), false),
{
    let mut v: Vec<(String, PyVal)> = Vec::new();
    let mut i: usize = 0;
    while i < pairs.len()
        invariant
            i <= pairs@.len(),
            v@.len() == i,
            forall|x: int|
                0 <= x < i ==> (#[trigger] v@[x]).0@ == pairs@[x].0@ && v@[x].1@ == PyDoc::Str(
                    pairs@[x].1@,
                ),
        decreases pairs@.len() - i,
    {
        v.push((text::owned(pairs[i].0.as_str()), PyVal::text(pairs[i].1.as_str())));
        i = i + 1;
    }
    assert(v.deep_view() =~= text_fields(pairs.deep_view())->Dict_0);
    pyfmt::dumps_ordered(&PyVal::dict(v), false)
}

/// An answer that does not hold what it should.
pub open spec fn as_shape_spec(why: Seq<char>) -> VenueErrorView {
    venue::shape_err_spec("gate"@, why)
}

fn as_shape(why: &str) -> (r: VenueError)
    ensures
        r.deep_view() == as_shape_spec(why@),
{
    venue::shape_err("gate", why)
}

/// An id that cannot be sent.
pub open spec fn id_shape_spec(why: Seq<char>) -> VenueErrorView {
    venue::shape_err_spec("gate"@, why)
}

fn id_shape(why: &str) -> (r: VenueError)
    ensures
        r.deep_view() == id_shape_spec(why@),
{
    venue::shape_err("gate", why)
}

/// A refused call.
pub open spec fn failed_spec(prefix: Seq<char>, reply: ReplyView) -> VenueErrorView {
    VenueErrorView {
        venue: "gate"@,
        status: reply.status,
        message: prefix
            + " -> "@
            + http::shown_status_spec(reply)
            + " "@
            + http::shown_body_spec(reply),
    }
}

fn failed(prefix: &str, reply: &Reply) -> (r: VenueError)
    ensures
        r.deep_view() == failed_spec(prefix@, reply.deep_view()),
{
    let mut line = text::owned(prefix);
    line.push_str(" -> ");
    line.push_str(http::shown_status(reply).as_str());
    line.push_str(" ");
    line.push_str(http::shown_body(reply).as_str());
    VenueError { venue: text::owned("gate"), status: reply.status, message: line }
}

/// A number that has to be there.
pub open spec fn needed_spec(r: Doc, k: Seq<char>) -> Result<Double, VenueErrorView> {
    match r.get(k) {
        Some(v) => match pyfmt::to_float_spec(v) {
            Ok(f) => Ok(f),
            Err(e) => Err(as_shape_spec(e)),
        },
        None => Err(venue::shape_err_spec("gate"@, "'"@ + k + "'"@)),
    }
}

fn needed(r: &Json, k: &str) -> (out: Result<Double, VenueError>)
    ensures
        list::outcome(out) == needed_spec(r@, k@),
{
    let v = match r.get(k) {
        Some(v) => v,
        None => {
            let mut line = text::owned("'");
            line.push_str(k);
            line.push_str("'");
            return Err(venue::shape_err("gate", line.as_str()));
        },
    };
    let f = match pyfmt::to_float(v) {
        Ok(v) => v,
        Err(e) => {
            return Err(as_shape(e.as_str()));
        },
    };
    Ok(f)
}

/// A number, 0 where it is missing or counts as false.
pub open spec fn zero_or_spec(r: Doc, k: Seq<char>) -> Result<Double, VenueErrorView> {
    match pyfmt::float_or_zero_spec(r.get(k)) {
        Ok(f) => Ok(f),
        Err(e) => Err(as_shape_spec(e)),
    }
}

fn zero_or(r: &Json, k: &str) -> (out: Result<Double, VenueError>)
    ensures
        list::outcome(out) == zero_or_spec(r@, k@),
{
    let f = match pyfmt::float_or_zero(r.get(k)) {
        Ok(v) => v,
        Err(e) => {
            return Err(as_shape(e.as_str()));
        },
    };
    Ok(f)
}

/// A field as text, empty where it is missing.
pub open spec fn name_of_spec(r: Doc, k: Seq<char>) -> Seq<char> {
    match r.get(k) {
        Some(v) => pyfmt::shown(pyfmt::ordered_doc(v)),
        None => ""@,
    }
}

fn name_of(r: &Json, k: &str) -> (out: String)
    ensures
        out@ == name_of_spec(r@, k@),
{
    match r.get(k) {
        Some(v) => pyfmt::value_str(v),
        None => text::owned(""),
    }
}

/// A field as text, empty where it is missing or null.
pub open spec fn word_of_spec(r: Doc, k: Seq<char>) -> Seq<char> {
    match r.get(k) {
        Some(v) => if v is Null {
            ""@
        } else {
            pyfmt::shown(pyfmt::ordered_doc(v))
        },
        None => ""@,
    }
}

fn word_of(r: &Json, k: &str) -> (out: String)
    ensures
        out@ == word_of_spec(r@, k@),
{
    match r.get(k) {
        Some(v) => {
            if v.is_null() {
                return text::owned("");
            }
            pyfmt::value_str(v)
        },
        None => text::owned(""),
    }
}

/// A number that is not zero.
pub open spec fn nonzero_spec(x: Double) -> Option<Double> {
    if !x.eq_spec(Double::zero_spec()) {
        Some(x)
    } else {
        None
    }
}

fn nonzero(x: Double) -> (r: Option<Double>)
    ensures
        r == nonzero_spec(x),
{
    if !x.same(Double::zero()) {
        return Some(x);
    }
    None
}

/// The body of a reply, null where there is none.
pub open spec fn body_of_spec(reply: ReplyView) -> Doc {
    match reply.json {
        Some(v) => v,
        None => Doc::Null,
    }
}

fn body_of(reply: &Reply) -> (r: Json)
    ensures
        r@ == body_of_spec(reply.deep_view()),
{
    match &reply.json {
        Some(v) => v.copy(),
        None => Json::Null,
    }
}

/// Gate's `text` field for an id.
pub open spec fn text_field_spec(c: Seq<char>) -> Result<Seq<char>, VenueErrorView> {
    match ids::gate_text(c) {
        Ok(t) => Ok(t),
        Err(e) => Err(id_shape_spec(e)),
    }
}

fn text_field(c: &str) -> (r: Result<String, VenueError>)
    ensures
        list::outcome(r) == text_field_spec(c@),
{
    match ids::safe_gate_text(c) {
        Ok(t) => Ok(t),
        Err(e) => Err(id_shape(e.0.as_str())),
    }
}

/// A whole number in a text, underscores between its digits aside.
pub open spec fn whole_text_spec(s: Seq<char>) -> Option<i64> {
    match text::ungrouped(s) {
        Some(t) => match decimal::whole_within(t, i64::MIN as int, i64::MAX as int) {
            Some(i) => Some(i as i64),
            None => None,
        },
        None => None,
    }
}

fn whole_text(s: &str) -> (r: Option<i64>)
    ensures
        r == whole_text_spec(s@),
{
    match text::ungroup(s) {
        Some(t) => decimal::read_i64(t.as_str()),
        None => None,
    }
}

/// A pair's precision and minimums.
#[derive(Clone, Copy, Debug)]
pub struct PairInfo {
    pub amount_precision: i64,
    pub price_precision: i64,
    pub min_base: Double,
    pub min_quote: Double,
}

impl DeepView for PairInfo {
    type V = PairInfo;

    open spec fn deep_view(&self) -> PairInfo {
        *self
    }
}

/// A number rounded down to a number of decimals.
pub open spec fn floor_to_spec(x: Double, p: i64) -> Double {
    let f = power_of_ten_spec(p);
    x.mul_spec(f).floor_spec().div_spec(f)
}

/// A number rounded down to a number of decimals.
pub fn floor_to(x: Double, p: i64) -> (r: Double)
    ensures
        r == floor_to_spec(x, p),
{
    let f = power_of_ten(p);
    x.times(f).floor().over(f)
}

/// A number rounded down to a number of decimals, never up: where the product with the power of
/// ten was itself rounded up to a whole number, it is the step below.
pub open spec fn round_down_spec(x: Double, p: i64) -> Double {
    let r = floor_to_spec(x, p);
    if !x.lt_spec(r) {
        r
    } else {
        let f = power_of_ten_spec(p);
        let below = x.mul_spec(f).floor_spec().sub_spec(Double::int_spec(1)).div_spec(f);
        if !x.lt_spec(below) {
            below
        } else {
            x
        }
    }
}

/// A number rounded down to a number of decimals, never up: where the product with the power of
/// ten was itself rounded up to a whole number, it is the step below.
pub fn round_down(x: Double, p: i64) -> (r: Double)
    ensures
        r == round_down_spec(x, p),
{
    let r = floor_to(x, p);
    if !x.lt(r) {
        return r;
    }
    let f = power_of_ten(p);
    let below = x.times(f).floor().minus(Double::of_int(1)).over(f);
    if !x.lt(below) {
        return below;
    }
    x
}

/// An on-chain deposit as Gate credited it.
#[derive(Debug)]
pub struct Deposit {
    pub currency: Option<String>,
    pub amount: Double,
    /// `DONE` means credited.
    pub status: Option<String>,
    pub ts: Double,
}

/// What a [`Deposit`] holds.
pub struct DepositView {
    pub currency: Option<Seq<char>>,
    pub amount: Double,
    pub status: Option<Seq<char>>,
    pub ts: Double,
}

impl DeepView for Deposit {
    type V = DepositView;

    open spec fn deep_view(&self) -> DepositView {
        DepositView {
            currency: self.currency.deep_view(),
            amount: self.amount,
            status: self.status.deep_view(),
            ts: self.ts,
        }
    }
}

/// A client with its credentials.
#[derive(Debug)]
pub struct Gate {
    pub creds: Credentials,
}

/// What a [`Gate`] holds.
pub struct GateView {
    pub creds: CredentialsView,
}

impl DeepView for Gate {
    type V = GateView;

    open spec fn deep_view(&self) -> GateView {
        GateView {
            creds: self.creds.deep_view(),
        }
    }
}

/// What a signature covers.
pub open spec fn to_sign_spec(
    method: Seq<char>,
    path: Seq<char>,
    query: Seq<char>,
    body: Seq<char>,
    now: i64,
) -> Seq<char> {
    method
        + "\n"@
        + path
        + "\n"@
        + query
        + "\n"@
        + crypto::sha512_hex_spec(body)
        + "\n"@
        + text::dec_int(now as int)
}

fn to_sign(method: &str, path: &str, query: &str, body: &str, now: i64) -> (r: String)
    ensures
        r@ == to_sign_spec(method@, path@, query@, body@, now),
{
    let mut line = text::owned(method);
    line.push_str("\n");
    line.push_str(path);
    line.push_str("\n");
    line.push_str(query);
    line.push_str("\n");
    line.push_str(crypto::sha512_hex(body).as_str());
    line.push_str("\n");
    line.push_str(text::dec_i64(now).as_str());
    line
}

/// The headers of a signed request.
pub open spec fn signed_headers_spec(
    g: GateView,
    method: Seq<char>,
    path: Seq<char>,
    query: Seq<char>,
    body: Seq<char>,
    now: i64,
) -> Seq<(Seq<char>, Seq<char>)> {
    let sign = crypto::hmac_sha512_hex_spec(
        g.creds.secret,
        to_sign_spec(method, path, query, body, now),
    );
    Seq::<(Seq<char>, Seq<char>)>::empty().push(("KEY"@, g.creds.key)).push(
        ("Timestamp"@, text::dec_int(now as int)),
    ).push(
        ("SIGN"@, sign),
    ).push(
        ("Accept"@, "application/json"@),
    ).push(
        ("Content-Type"@, "application/json"@),
    )
}

fn signed_headers(
    g: &Gate,
    method: &str,
    path: &str,
    query: &str,
    body: &str,
    now: i64,
) -> (r: Vec<(String, String)>)
    ensures
        r.deep_view() == signed_headers_spec(g.deep_view(), method@, path@, query@, body@, now),
{
    let sign = crypto::hmac_sha512_hex(
        g.creds.secret.as_str(),
        to_sign(method, path, query, body, now).as_str(),
    );
    let mut h: Vec<(String, String)> = list::none();
    list::push(&mut h, (text::owned("KEY"), text::owned(g.creds.key.as_str())));
    list::push(&mut h, (text::owned("Timestamp"), text::dec_i64(now)));
    list::push(&mut h, (text::owned("SIGN"), sign));
    list::push(&mut h, (text::owned("Accept"), text::owned("application/json")));
    list::push(&mut h, (text::owned("Content-Type"), text::owned("application/json")));
    h
}

/// A signed request at a time in seconds; an empty body is not sent.
pub open spec fn signed_call_spec(
    g: GateView,
    method: Seq<char>,
    path: Seq<char>,
    query: Seq<char>,
    body: Seq<char>,
    now: Double,
) -> RequestView {
    let url = if query == ""@ {
        BASE@ + path
    } else {
        BASE@ + path + "?"@ + query
    };
    let headers = signed_headers_spec(
        g,
        method,
        path,
        query,
        body,
        now.cast_spec(i64::MIN as int, i64::MAX as int) as i64,
    );
    if body == ""@ {
        http::prepare_spec(method, url, headers, None)
    } else {
        http::prepare_spec(method, url, headers, Some(body))
    }
}

fn signed_call(
    g: &Gate,
    method: &str,
    path: &str,
    query: &str,
    body: &str,
    now: Double,
) -> (r: Request)
    ensures
        r.deep_view() == signed_call_spec(g.deep_view(), method@, path@, query@, body@, now),
{
    let url = if text::same(query, "") {
        let mut line = text::owned(BASE);
        line.push_str(path);
        line
    } else {
        let mut line2 = text::owned(BASE);
        line2.push_str(path);
        line2.push_str("?");
        line2.push_str(query);
        line2
    };
    let headers = signed_headers(g, method, path, query, body, now.to_i64());
    if text::same(body, "") {
        return http::prepare(method, url.as_str(), headers, None);
    }
    http::prepare(method, url.as_str(), headers, Some(text::owned(body)))
}

/// A request that needs no key.
pub open spec fn public_call_spec(path: Seq<char>) -> RequestView {
    http::prepare_spec("GET"@, BASE@ + path, Seq::<(Seq<char>, Seq<char>)>::empty(), None)
}

/// A request that needs no key.
pub fn public_call(path: &str) -> (r: Request)
    ensures
        r.deep_view() == public_call_spec(path@),
{
    let mut line = text::owned(BASE);
    line.push_str(path);
    http::prepare("GET", line.as_str(), list::none::<(String, String)>(), None)
}

/// The body of the answer to a signed request, which is 200 or 201.
pub open spec fn signed_body_spec(
    method: Seq<char>,
    path: Seq<char>,
    reply: ReplyView,
) -> Result<Doc, VenueErrorView> {
    if reply.status == Some(200u16) || reply.status == Some(201u16) {
        Ok(body_of_spec(reply))
    } else {
        Err(failed_spec(method + " "@ + path, reply))
    }
}

/// The body of the answer to a signed request, which is 200 or 201.
pub fn signed_body(method: &str, path: &str, reply: &Reply) -> (r: Result<Json, VenueError>)
    ensures
        list::outcome(r) == signed_body_spec(method@, path@, reply.deep_view()),
{
    if http::has_status(reply, 200) || http::has_status(reply, 201) {
        return Ok(body_of(reply));
    }
    let mut line = text::owned(method);
    line.push_str(" ");
    line.push_str(path);
    Err(failed(line.as_str(), reply))
}

/// The query for deposits; `since` is an epoch floor.
pub open spec fn deposits_query_spec(
    currency: Option<Seq<char>>,
    since: Option<Double>,
) -> Seq<char> {
    let q = Seq::<Seq<char>>::empty();
    let q = match currency {
        Some(c) => if c != ""@ {
            q.push("currency="@ + c)
        } else {
            q
        },
        None => q,
    };
    let q = match since {
        Some(s) => if !s.eq_spec(Double::zero_spec()) {
            q.push(
                "from="@
                    + text::dec_int((s.cast_spec(i64::MIN as int, i64::MAX as int) as i64) as int),
            )
        } else {
            q
        },
        None => q,
    };
    text::join_of(q, "&"@)
}

/// The query for deposits; `since` is an epoch floor.
pub fn deposits_query(currency: Option<&str>, since: Option<Double>) -> (r: String)
    ensures
        r@ == deposits_query_spec(currency.deep_view(), since),
{
    let mut q: Vec<String> = list::none();
    match currency {
        Some(c) => {
            if !text::same(c, "") {
                let mut line = text::owned("currency=");
                line.push_str(c);
                list::push(&mut q, line);
            }
        },
        None => {},
    }
    match since {
        Some(s) => {
            if !s.same(Double::zero()) {
                let mut line2 = text::owned("from=");
                line2.push_str(text::dec_i64(s.to_i64()).as_str());
                list::push(&mut q, line2);
            }
        },
        None => {},
    }
    list::join(&q, "&")
}

/// The text under a key.
pub open spec fn text_at_spec(r: Doc, k: Seq<char>) -> Option<Seq<char>> {
    match r.get(k) {
        Some(v) => match v.as_text() {
            Some(s) => Some(s),
            None => None,
        },
        None => None,
    }
}

fn text_at(r: &Json, k: &str) -> (out: Option<String>)
    ensures
        out.deep_view() == text_at_spec(r@, k@),
{
    let v = match r.get(k) {
        Some(v) => v,
        None => {
            return None;
        },
    };
    match v.as_str() {
        Some(s) => Some(text::owned(s)),
        None => None,
    }
}

/// A deposit.
pub open spec fn deposit_of_spec(r: Doc) -> Result<DepositView, VenueErrorView> {
    match zero_or_spec(r, "amount"@) {
        Ok(amount) => match zero_or_spec(r, "timestamp"@) {
            Ok(ts) => Ok(
                DepositView {
                    currency: text_at_spec(r, "currency"@),
                    amount,
                    status: text_at_spec(r, "status"@),
                    ts,
                },
            ),
            Err(e) => Err(e),
        },
        Err(e) => Err(e),
    }
}

fn deposit_of(r: &Json) -> (out: Result<Deposit, VenueError>)
    ensures
        list::outcome(out) == deposit_of_spec(r@),
{
    let amount = match zero_or(r, "amount") {
        Ok(v) => v,
        Err(e) => {
            return Err(e);
        },
    };
    let ts = match zero_or(r, "timestamp") {
        Ok(v) => v,
        Err(e) => {
            return Err(e);
        },
    };
    Ok(Deposit { currency: text_at(r, "currency"), amount, status: text_at(r, "status"), ts })
}

/// The first `n` deposits, up to the first that cannot be read.
pub open spec fn add_deposits_spec(
    xs: Seq<Doc>,
    out: Seq<DepositView>,
    fault: Option<VenueErrorView>,
    n: nat,
) -> (Seq<DepositView>, Option<VenueErrorView>)
    decreases n,
{
    if n == 0 {
        (out, fault)
    } else {
        let (out, fault) = add_deposits_spec(xs, out, fault, (n - 1) as nat);
        let row = xs[n - 1];
        if fault is None {
            match deposit_of_spec(row) {
                Ok(d) => (out.push(d), fault),
                Err(e) => (out, Some(e)),
            }
        } else {
            (out, fault)
        }
    }
}

fn add_deposits(
    xs: &Vec<Json>,
    out: Vec<Deposit>,
    fault: Option<VenueError>,
) -> (r: (Vec<Deposit>, Option<VenueError>))
    ensures
        r.deep_view() == add_deposits_spec(
            xs.deep_view(),
            out.deep_view(),
            fault.deep_view(),
            xs@.len(),
        ),
{
    let ghost out0 = out.deep_view();
    let ghost fault0 = fault.deep_view();
    let mut out = out;
    let mut fault = fault;
    let mut i: usize = 0;
    while i < xs.len()
        invariant
            i <= xs@.len(),
            (out.deep_view(), fault.deep_view()) == add_deposits_spec(
                xs.deep_view(),
                out0,
                fault0,
                i as nat,
            ),
        decreases xs@.len() - i,
    {
        let row = &xs[i];
        if fault.is_none() {
            match deposit_of(row) {
                Ok(d) => {
                    list::push(&mut out, d);
                },
                Err(e) => {
                    fault = Some(e);
                },
            }
        }
        i = i + 1;
    }
    (out, fault)
}

/// The deposits of an answer, which is a list or null.
pub open spec fn read_deposits_spec(rows: Doc) -> Result<Seq<DepositView>, VenueErrorView> {
    if !(rows is Null || rows is Arr) {
        Err(venue::shape_err_spec("gate"@, "deposits: not a list"@))
    } else {
        let out = Seq::<DepositView>::empty();
        let fault: Option<VenueErrorView> = None;
        let (out, fault) = add_deposits_spec(rows.items(), out, fault, rows.items().len());
        match fault {
            Some(e) => Err(e),
            None => Ok(out),
        }
    }
}

/// The deposits of an answer, which is a list or null.
pub fn read_deposits(rows: &Json) -> (r: Result<Vec<Deposit>, VenueError>)
    ensures
        list::outcome(r) == read_deposits_spec(rows@),
{
    if !(rows.is_null() || rows.is_arr()) {
        return Err(venue::shape_err("gate", "deposits: not a list"));
    }
    let mut out: Vec<Deposit> = list::none();
    let mut fault: Option<VenueError> = None;
    let (next_out, next_fault) = add_deposits(&json::items(rows), out, fault);
    out = next_out;
    fault = next_fault;
    match fault {
        Some(e) => Err(e),
        None => Ok(out),
    }
}

/// The whole number a value stands for.
pub open spec fn whole_of_spec(v: Doc) -> Option<i64> {
    match v.as_text() {
        Some(s) => whole_text_spec(text::trim(s)),
        None => match v.as_int() {
            Some(i) => Some(i),
            None => match v.as_flag() {
                Some(b) => if b {
                    Some(1)
                } else {
                    Some(0)
                },
                None => match v.num() {
                    Some(f) => Some(
                        f.trunc_spec().cast_spec(i64::MIN as int, i64::MAX as int) as i64,
                    ),
                    None => None,
                },
            },
        },
    }
}

fn whole_of(v: &Json) -> (r: Option<i64>)
    ensures
        r == whole_of_spec(v@),
{
    match v.as_str() {
        Some(s) => {
            return whole_text(text::trimmed(s).as_str());
        },
        None => {},
    }
    match v.as_int() {
        Some(i) => {
            return Some(i);
        },
        None => {},
    }
    match v.as_flag() {
        Some(b) => {
            return if b {
                Some(1)
            } else {
                Some(0)
            };
        },
        None => {},
    }
    match v.num() {
        Some(f) => Some(f.trunc().to_i64()),
        None => None,
    }
}

/// A whole number, `other` where there is none.
pub open spec fn whole_or_spec(r: Doc, k: Seq<char>, other: i64) -> Result<i64, VenueErrorView> {
    match r.get(k) {
        None => Ok(other),
        Some(v) => match whole_of_spec(v) {
            Some(i) => Ok(i),
            None => Err(venue::shape_err_spec("gate"@, "int("@ + k + ")"@)),
        },
    }
}

fn whole_or(r: &Json, k: &str, other: i64) -> (out: Result<i64, VenueError>)
    ensures
        list::outcome(out) == whole_or_spec(r@, k@, other),
{
    match r.get(k) {
        None => Ok(other),
        Some(v) => {
            let i: i64 = match whole_of(v) {
                Some(v) => v,
                None => {
                    let mut line = text::owned("int(");
                    line.push_str(k);
                    line.push_str(")");
                    return Err(venue::shape_err("gate", line.as_str()));
                },
            };
            Ok(i)
        },
    }
}

/// Precision and minimums of a pair, from the answer to `currency_pairs`.
pub open spec fn read_pair_info_spec(
    pair: Seq<char>,
    reply: ReplyView,
) -> Result<PairInfo, VenueErrorView> {
    if !(reply.status == Some(200u16)) {
        Err(failed_spec("currency_pairs "@ + pair, reply))
    } else {
        let body = body_of_spec(reply);
        match whole_or_spec(body, "amount_precision"@, 0) {
            Ok(amount_precision) => match whole_or_spec(body, "precision"@, 8) {
                Ok(price_precision) => match zero_or_spec(body, "min_base_amount"@) {
                    Ok(min_base) => match zero_or_spec(body, "min_quote_amount"@) {
                        Ok(min_quote) => Ok(
                            PairInfo { amount_precision, price_precision, min_base, min_quote },
                        ),
                        Err(e) => Err(e),
                    },
                    Err(e) => Err(e),
                },
                Err(e) => Err(e),
            },
            Err(e) => Err(e),
        }
    }
}

/// Precision and minimums of a pair, from the answer to `currency_pairs`.
pub fn read_pair_info(pair: &str, reply: &Reply) -> (r: Result<PairInfo, VenueError>)
    ensures
        list::outcome(r) == read_pair_info_spec(pair@, reply.deep_view()),
{
    if !http::has_status(reply, 200) {
        let mut line = text::owned("currency_pairs ");
        line.push_str(pair);
        return Err(failed(line.as_str(), reply));
    }
    let body = body_of(reply);
    let amount_precision: i64 = match whole_or(&body, "amount_precision", 0) {
        Ok(v) => v,
        Err(e) => {
            return Err(e);
        },
    };
    let price_precision: i64 = match whole_or(&body, "precision", 8) {
        Ok(v) => v,
        Err(e) => {
            return Err(e);
        },
    };
    let min_base = match zero_or(&body, "min_base_amount") {
        Ok(v) => v,
        Err(e) => {
            return Err(e);
        },
    };
    let min_quote = match zero_or(&body, "min_quote_amount") {
        Ok(v) => v,
        Err(e) => {
            return Err(e);
        },
    };
    Ok(PairInfo { amount_precision, price_precision, min_base, min_quote })
}

/// The body of an order with the client id, where there is one.
pub open spec fn with_cid_spec(
    p: Seq<(Seq<char>, Seq<char>)>,
    client_id: Option<Seq<char>>,
) -> Result<Seq<char>, VenueErrorView> {
    match client_id {
        Some(c) => if c == ""@ {
            Ok(pyfmt::dumped(text_fields(p), false))
        } else {
            match text_field_spec(c) {
                Ok(t) => {
                    let p = p.push(("text"@, t));
                    Ok(pyfmt::dumped(text_fields(p), false))
                },
                Err(e) => Err(e),
            }
        },
        None => Ok(pyfmt::dumped(text_fields(p), false)),
    }
}

fn with_cid(p: Vec<(String, String)>, client_id: Option<&str>) -> (r: Result<String, VenueError>)
    ensures
        list::outcome(r) == with_cid_spec(p.deep_view(), client_id.deep_view()),
{
    let mut p = p;
    match client_id {
        Some(c) => {
            if text::same(c, "") {
                return Ok(body_json(&p));
            }
            let t = match text_field(c) {
                Ok(v) => v,
                Err(e) => {
                    return Err(e);
                },
            };
            list::push(&mut p, (text::owned("text"), t));
            Ok(body_json(&p))
        },
        None => Ok(body_json(&p)),
    }
}

/// Market buy spending `quote` of the quote asset, IOC.
pub open spec fn market_buy_body_spec(
    pair: Seq<char>,
    quote: Double,
    client_id: Option<Seq<char>>,
) -> Result<Seq<char>, VenueErrorView> {
    let p = Seq::<(Seq<char>, Seq<char>)>::empty().push(("currency_pair"@, pair)).push(
        ("type"@, "market"@),
    ).push(
        ("side"@, "buy"@),
    ).push(
        ("amount"@, pyfmt::fixed_spec(quote, 4)),
    ).push(
        ("time_in_force"@, "ioc"@),
    ).push(
        ("account"@, "spot"@),
    );
    with_cid_spec(p, client_id)
}

/// Market buy spending `quote` of the quote asset, IOC.
pub fn market_buy_body(
    pair: &str,
    quote: Double,
    client_id: Option<&str>,
) -> (r: Result<String, VenueError>)
    ensures
        list::outcome(r) == market_buy_body_spec(pair@, quote, client_id.deep_view()),
{
    let mut p: Vec<(String, String)> = list::none();
    list::push(&mut p, (text::owned("currency_pair"), text::owned(pair)));
    list::push(&mut p, (text::owned("type"), text::owned("market")));
    list::push(&mut p, (text::owned("side"), text::owned("buy")));
    list::push(&mut p, (text::owned("amount"), pyfmt::fixed(quote, 4)));
    list::push(&mut p, (text::owned("time_in_force"), text::owned("ioc")));
    list::push(&mut p, (text::owned("account"), text::owned("spot")));
    with_cid(p, client_id)
}

/// Market sell, IOC; the amount rounded down to the pair's precision.
pub open spec fn market_sell_body_spec(
    pair: Seq<char>,
    base: Double,
    client_id: Option<Seq<char>>,
    info: PairInfo,
) -> Result<Seq<char>, VenueErrorView> {
    let p = Seq::<(Seq<char>, Seq<char>)>::empty().push(("currency_pair"@, pair)).push(
        ("type"@, "market"@),
    ).push(
        ("side"@, "sell"@),
    ).push(
        ("amount"@, crate::watch::pyfmt::repr_spec(round_down_spec(base, info.amount_precision))),
    ).push(
        ("time_in_force"@, "ioc"@),
    ).push(
        ("account"@, "spot"@),
    );
    with_cid_spec(p, client_id)
}

/// Market sell, IOC; the amount rounded down to the pair's precision.
pub fn market_sell_body(
    pair: &str,
    base: Double,
    client_id: Option<&str>,
    info: PairInfo,
) -> (r: Result<String, VenueError>)
    ensures
        list::outcome(r) == market_sell_body_spec(pair@, base, client_id.deep_view(), info),
{
    let mut p: Vec<(String, String)> = list::none();
    list::push(&mut p, (text::owned("currency_pair"), text::owned(pair)));
    list::push(&mut p, (text::owned("type"), text::owned("market")));
    list::push(&mut p, (text::owned("side"), text::owned("sell")));
    list::push(
        &mut p,
        (text::owned("amount"), pyfmt::float_repr(round_down(base, info.amount_precision))),
    );
    list::push(&mut p, (text::owned("time_in_force"), text::owned("ioc")));
    list::push(&mut p, (text::owned("account"), text::owned("spot")));
    with_cid(p, client_id)
}

/// A GTC limit order; amount and price rounded down to the pair's precision.
pub open spec fn limit_body_spec(
    side: Seq<char>,
    pair: Seq<char>,
    base: Double,
    price: Double,
    client_id: Option<Seq<char>>,
    info: PairInfo,
) -> Result<Seq<char>, VenueErrorView> {
    let p = Seq::<(Seq<char>, Seq<char>)>::empty().push(("currency_pair"@, pair)).push(
        ("type"@, "limit"@),
    ).push(
        ("side"@, side),
    ).push(
        ("amount"@, crate::watch::pyfmt::repr_spec(round_down_spec(base, info.amount_precision))),
    ).push(
        ("price"@, crate::watch::pyfmt::repr_spec(round_down_spec(price, info.price_precision))),
    ).push(
        ("time_in_force"@, "gtc"@),
    ).push(
        ("account"@, "spot"@),
    );
    with_cid_spec(p, client_id)
}

/// A GTC limit order; amount and price rounded down to the pair's precision.
pub fn limit_body(
    side: &str,
    pair: &str,
    base: Double,
    price: Double,
    client_id: Option<&str>,
    info: PairInfo,
) -> (r: Result<String, VenueError>)
    ensures
        list::outcome(r) == limit_body_spec(
            side@,
            pair@,
            base,
            price,
            client_id.deep_view(),
            info,
        ),
{
    let mut p: Vec<(String, String)> = list::none();
    list::push(&mut p, (text::owned("currency_pair"), text::owned(pair)));
    list::push(&mut p, (text::owned("type"), text::owned("limit")));
    list::push(&mut p, (text::owned("side"), text::owned(side)));
    list::push(
        &mut p,
        (text::owned("amount"), pyfmt::float_repr(round_down(base, info.amount_precision))),
    );
    list::push(
        &mut p,
        (text::owned("price"), pyfmt::float_repr(round_down(price, info.price_precision))),
    );
    list::push(&mut p, (text::owned("time_in_force"), text::owned("gtc")));
    list::push(&mut p, (text::owned("account"), text::owned("spot")));
    with_cid(p, client_id)
}

/// The first row of an answer that is a list.
pub open spec fn first_row_spec(reply: ReplyView) -> Option<Doc> {
    let rows = body_of_spec(reply).items();
    match list::item(rows, 0) {
        Some(r) => Some(r),
        None => None,
    }
}

fn first_row(reply: &Reply) -> (r: Option<Json>)
    ensures
        r.deep_view() == first_row_spec(reply.deep_view()),
{
    let rows = json::items(&body_of(reply));
    match list::at(&rows, 0) {
        Some(r) => Some(r.copy()),
        None => None,
    }
}

/// The last price and its change in percent, from the answer to the ticker.
pub open spec fn read_ticker_spec(
    pair: Seq<char>,
    reply: ReplyView,
) -> Result<(Double, Double), VenueErrorView> {
    match first_row_spec(reply) {
        Some(t) => if !(reply.status == Some(200u16)) {
            Err(failed_spec("ticker "@ + pair, reply))
        } else {
            match needed_spec(t, "last"@) {
                Ok(px) => match needed_spec(t, "change_percentage"@) {
                    Ok(change) => Ok((px, change)),
                    Err(e) => Err(e),
                },
                Err(e) => Err(e),
            }
        },
        None => Err(failed_spec("ticker "@ + pair, reply)),
    }
}

/// The last price and its change in percent, from the answer to the ticker.
pub fn read_ticker(pair: &str, reply: &Reply) -> (r: Result<(Double, Double), VenueError>)
    ensures
        list::outcome(r) == read_ticker_spec(pair@, reply.deep_view()),
{
    let t = match first_row(reply) {
        Some(v) => v,
        None => {
            let mut line = text::owned("ticker ");
            line.push_str(pair);
            return Err(failed(line.as_str(), reply));
        },
    };
    if !http::has_status(reply, 200) {
        let mut line2 = text::owned("ticker ");
        line2.push_str(pair);
        return Err(failed(line2.as_str(), reply));
    }
    let px = match needed(&t, "last") {
        Ok(v) => v,
        Err(e) => {
            return Err(e);
        },
    };
    let change = match needed(&t, "change_percentage") {
        Ok(v) => v,
        Err(e) => {
            return Err(e);
        },
    };
    Ok((px, change))
}

/// A spot price, from the answer to the ticker.
pub open spec fn read_price_spec(
    pair: Seq<char>,
    reply: ReplyView,
) -> Result<Double, VenueErrorView> {
    match first_row_spec(reply) {
        Some(t) => if !(reply.status == Some(200u16)) {
            Err(failed_spec("price "@ + pair, reply))
        } else {
            needed_spec(t, "last"@)
        },
        None => Err(failed_spec("price "@ + pair, reply)),
    }
}

/// A spot price, from the answer to the ticker.
pub fn read_price(pair: &str, reply: &Reply) -> (r: Result<Double, VenueError>)
    ensures
        list::outcome(r) == read_price_spec(pair@, reply.deep_view()),
{
    let t = match first_row(reply) {
        Some(v) => v,
        None => {
            let mut line = text::owned("price ");
            line.push_str(pair);
            return Err(failed(line.as_str(), reply));
        },
    };
    if !http::has_status(reply, 200) {
        let mut line2 = text::owned("price ");
        line2.push_str(pair);
        return Err(failed(line2.as_str(), reply));
    }
    needed(&t, "last")
}

/// What was filled in base units, and at what price. Only a market buy counts its amount in
/// the quote asset.
pub open spec fn base_and_price_spec(
    market_buy: bool,
    amount: Double,
    left: Double,
    total: Double,
    avg: Option<Double>,
) -> (Option<Double>, Option<Double>) {
    if market_buy {
        match avg {
            Some(a) => (Some(total.div_spec(a)), avg),
            None => (None, avg),
        }
    } else {
        let b = amount.sub_spec(left);
        if avg is None && !b.eq_spec(Double::zero_spec()) {
            (Some(b), Some(total.div_spec(b)))
        } else {
            (Some(b), avg)
        }
    }
}

fn base_and_price(
    market_buy: bool,
    amount: Double,
    left: Double,
    total: Double,
    avg: Option<Double>,
) -> (r: (Option<Double>, Option<Double>))
    ensures
        r == base_and_price_spec(market_buy, amount, left, total, avg),
{
    if market_buy {
        match avg {
            Some(a) => {
                return (Some(total.over(a)), avg);
            },
            None => {
                return (None, avg);
            },
        }
    }
    let b = amount.minus(left);
    if avg.is_none() && !b.same(Double::zero()) {
        return (Some(b), Some(total.over(b)));
    }
    (Some(b), avg)
}

/// An id without the prefix it has on the wire.
pub open spec fn bare_id_spec(s: Seq<char>) -> Seq<char> {
    ids::bare(s)
}

fn bare_id(s: &str) -> (r: String)
    ensures
        r@ == bare_id_spec(s@),
{
    ids::without_prefix(s)
}

/// The client id of an order, without the prefix it has on the wire.
pub open spec fn bare_text_spec(r: Doc) -> Seq<char> {
    match r.get("text"@) {
        Some(v) => if v.truthy() {
            bare_id_spec(pyfmt::shown(pyfmt::ordered_doc(v)))
        } else {
            ""@
        },
        None => ""@,
    }
}

fn bare_text(r: &Json) -> (out: String)
    ensures
        out@ == bare_text_spec(r@),
{
    match r.get("text") {
        Some(v) => {
            if v.truthy() {
                return bare_id(pyfmt::value_str(v).as_str());
            }
        },
        None => {},
    }
    text::owned("")
}

/// Normalise a Gate order or order response. See the module's notes for the two quirks.
pub open spec fn parse_order_spec(r: Doc) -> Result<ParsedOrderView, VenueErrorView> {
    match zero_or_spec(r, "amount"@) {
        Ok(amount) => match zero_or_spec(r, "left"@) {
            Ok(left) => match zero_or_spec(r, "filled_total"@) {
                Ok(total) => match zero_or_spec(r, "avg_deal_price"@) {
                    Ok(avg0) => match zero_or_spec(r, "price"@) {
                        Ok(price) => match zero_or_spec(r, "fee"@) {
                            Ok(fee) => {
                                let side = name_of_spec(r, "side"@);
                                let market_buy = name_of_spec(r, "type"@) == "market"@
                                    && side == "buy"@;
                                let (base, avg) = base_and_price_spec(
                                    market_buy,
                                    amount,
                                    left,
                                    total,
                                    nonzero_spec(avg0),
                                );
                                let status = word_of_spec(r, "status"@);
                                let filled = status == "closed"@ || status == "filled"@;
                                let qty = if market_buy {
                                    Double::zero_spec()
                                } else {
                                    amount
                                };
                                Ok(
                                    ParsedOrderView {
                                        order_id: name_of_spec(r, "id"@),
                                        filled,
                                        status,
                                        base_qty: base,
                                        quote: total,
                                        avg_price: avg,
                                        price: nonzero_spec(price),
                                        fee,
                                        fee_asset: text_at_spec(r, "fee_currency"@),
                                        side: text::lower_case(side),
                                        qty,
                                        client_id: bare_text_spec(r),
                                    },
                                )
                            },
                            Err(e) => Err(e),
                        },
                        Err(e) => Err(e),
                    },
                    Err(e) => Err(e),
                },
                Err(e) => Err(e),
            },
            Err(e) => Err(e),
        },
        Err(e) => Err(e),
    }
}

/// Normalise a Gate order or order response. See the module's notes for the two quirks.
pub fn parse_order(r: &Json) -> (out: Result<ParsedOrder, VenueError>)
    ensures
        list::outcome(out) == parse_order_spec(r@),
{
    let amount = match zero_or(r, "amount") {
        Ok(v) => v,
        Err(e) => {
            return Err(e);
        },
    };
    let left = match zero_or(r, "left") {
        Ok(v) => v,
        Err(e) => {
            return Err(e);
        },
    };
    let total = match zero_or(r, "filled_total") {
        Ok(v) => v,
        Err(e) => {
            return Err(e);
        },
    };
    let avg0 = match zero_or(r, "avg_deal_price") {
        Ok(v) => v,
        Err(e) => {
            return Err(e);
        },
    };
    let price = match zero_or(r, "price") {
        Ok(v) => v,
        Err(e) => {
            return Err(e);
        },
    };
    let fee = match zero_or(r, "fee") {
        Ok(v) => v,
        Err(e) => {
            return Err(e);
        },
    };
    let side = name_of(r, "side");
    let market_buy = text::same(name_of(r, "type").as_str(), "market")
        && text::same(side.as_str(), "buy");
    let (base, avg) = base_and_price(market_buy, amount, left, total, nonzero(avg0));
    let status = word_of(r, "status");
    let filled = text::same(status.as_str(), "closed") || text::same(status.as_str(), "filled");
    let qty = if market_buy {
        Double::zero()
    } else {
        amount
    };
    Ok(
        ParsedOrder {
            order_id: name_of(r, "id"),
            filled,
            status,
            base_qty: base,
            quote: total,
            avg_price: avg,
            price: nonzero(price),
            fee,
            fee_asset: text_at(r, "fee_currency"),
            side: text::lowercase(side.as_str()),
            qty,
            client_id: bare_text(r),
        },
    )
}

/// The first `n` orders, up to the first that cannot be read.
pub open spec fn add_orders_spec(
    xs: Seq<Doc>,
    out: Seq<ParsedOrderView>,
    fault: Option<VenueErrorView>,
    n: nat,
) -> (Seq<ParsedOrderView>, Option<VenueErrorView>)
    decreases n,
{
    if n == 0 {
        (out, fault)
    } else {
        let (out, fault) = add_orders_spec(xs, out, fault, (n - 1) as nat);
        let row = xs[n - 1];
        if fault is None {
            match parse_order_spec(row) {
                Ok(o) => (out.push(o), fault),
                Err(e) => (out, Some(e)),
            }
        } else {
            (out, fault)
        }
    }
}

fn add_orders(
    xs: &Vec<Json>,
    out: Vec<ParsedOrder>,
    fault: Option<VenueError>,
) -> (r: (Vec<ParsedOrder>, Option<VenueError>))
    ensures
        r.deep_view() == add_orders_spec(
            xs.deep_view(),
            out.deep_view(),
            fault.deep_view(),
            xs@.len(),
        ),
{
    let ghost out0 = out.deep_view();
    let ghost fault0 = fault.deep_view();
    let mut out = out;
    let mut fault = fault;
    let mut i: usize = 0;
    while i < xs.len()
        invariant
            i <= xs@.len(),
            (out.deep_view(), fault.deep_view()) == add_orders_spec(
                xs.deep_view(),
                out0,
                fault0,
                i as nat,
            ),
        decreases xs@.len() - i,
    {
        let row = &xs[i];
        if fault.is_none() {
            match parse_order(row) {
                Ok(o) => {
                    list::push(&mut out, o);
                },
                Err(e) => {
                    fault = Some(e);
                },
            }
        }
        i = i + 1;
    }
    (out, fault)
}

/// The open orders of an answer, which is a list.
pub open spec fn read_open_orders_spec(rows: Doc) -> Result<Seq<ParsedOrderView>, VenueErrorView> {
    if !(rows is Arr) {
        Err(venue::shape_err_spec("gate"@, "open orders: not a list"@))
    } else {
        let out = Seq::<ParsedOrderView>::empty();
        let fault: Option<VenueErrorView> = None;
        let (out, fault) = add_orders_spec(rows.items(), out, fault, rows.items().len());
        match fault {
            Some(e) => Err(e),
            None => Ok(out),
        }
    }
}

/// The open orders of an answer, which is a list.
pub fn read_open_orders(rows: &Json) -> (r: Result<Vec<ParsedOrder>, VenueError>)
    ensures
        list::outcome(r) == read_open_orders_spec(rows@),
{
    if !rows.is_arr() {
        return Err(venue::shape_err("gate", "open orders: not a list"));
    }
    let mut out: Vec<ParsedOrder> = list::none();
    let mut fault: Option<VenueError> = None;
    let (next_out, next_fault) = add_orders(&json::items(rows), out, fault);
    out = next_out;
    fault = next_fault;
    match fault {
        Some(e) => Err(e),
        None => Ok(out),
    }
}

/// The asset a balance is of.
pub open spec fn currency_of_spec(r: Doc) -> Result<Seq<char>, VenueErrorView> {
    match r.get("currency"@) {
        Some(v) => Ok(pyfmt::shown(pyfmt::ordered_doc(v))),
        None => Err(venue::shape_err_spec("gate"@, "'currency'"@)),
    }
}

fn currency_of(r: &Json) -> (out: Result<String, VenueError>)
    ensures
        list::outcome(out) == currency_of_spec(r@),
{
    let v = match r.get("currency") {
        Some(v) => v,
        None => {
            return Err(venue::shape_err("gate", "'currency'"));
        },
    };
    Ok(pyfmt::value_str(v))
}

/// What is free of an asset.
pub open spec fn free_row_spec(r: Doc) -> Result<(Seq<char>, Double), VenueErrorView> {
    match currency_of_spec(r) {
        Ok(asset) => match needed_spec(r, "available"@) {
            Ok(free) => Ok((asset, free)),
            Err(e) => Err(e),
        },
        Err(e) => Err(e),
    }
}

fn free_row(r: &Json) -> (out: Result<(String, Double), VenueError>)
    ensures
        list::outcome(out) == free_row_spec(r@),
{
    let asset = match currency_of(r) {
        Ok(v) => v,
        Err(e) => {
            return Err(e);
        },
    };
    let free = match needed(r, "available") {
        Ok(v) => v,
        Err(e) => {
            return Err(e);
        },
    };
    Ok((asset, free))
}

/// What is held of an asset.
pub open spec fn full_row_spec(r: Doc) -> Result<(Seq<char>, Balance), VenueErrorView> {
    match currency_of_spec(r) {
        Ok(asset) => match needed_spec(r, "available"@) {
            Ok(free) => match needed_spec(r, "locked"@) {
                Ok(locked) => Ok((asset, Balance { free, locked })),
                Err(e) => Err(e),
            },
            Err(e) => Err(e),
        },
        Err(e) => Err(e),
    }
}

fn full_row(r: &Json) -> (out: Result<(String, Balance), VenueError>)
    ensures
        list::outcome(out) == full_row_spec(r@),
{
    let asset = match currency_of(r) {
        Ok(v) => v,
        Err(e) => {
            return Err(e);
        },
    };
    let free = match needed(r, "available") {
        Ok(v) => v,
        Err(e) => {
            return Err(e);
        },
    };
    let locked = match needed(r, "locked") {
        Ok(v) => v,
        Err(e) => {
            return Err(e);
        },
    };
    Ok((asset, Balance { free, locked }))
}

/// Of the first `n` assets, up to the first that cannot be read.
pub open spec fn add_free_rows_spec(
    xs: Seq<Doc>,
    out: Seq<(Seq<char>, Double)>,
    fault: Option<VenueErrorView>,
    n: nat,
) -> (Seq<(Seq<char>, Double)>, Option<VenueErrorView>)
    decreases n,
{
    if n == 0 {
        (out, fault)
    } else {
        let (out, fault) = add_free_rows_spec(xs, out, fault, (n - 1) as nat);
        let row = xs[n - 1];
        if fault is None {
            match free_row_spec(row) {
                Ok(p) => (out.push(p), fault),
                Err(e) => (out, Some(e)),
            }
        } else {
            (out, fault)
        }
    }
}

fn add_free_rows(
    xs: &Vec<Json>,
    out: Vec<(String, Double)>,
    fault: Option<VenueError>,
) -> (r: (Vec<(String, Double)>, Option<VenueError>))
    ensures
        r.deep_view() == add_free_rows_spec(
            xs.deep_view(),
            out.deep_view(),
            fault.deep_view(),
            xs@.len(),
        ),
{
    let ghost out0 = out.deep_view();
    let ghost fault0 = fault.deep_view();
    let mut out = out;
    let mut fault = fault;
    let mut i: usize = 0;
    while i < xs.len()
        invariant
            i <= xs@.len(),
            (out.deep_view(), fault.deep_view()) == add_free_rows_spec(
                xs.deep_view(),
                out0,
                fault0,
                i as nat,
            ),
        decreases xs@.len() - i,
    {
        let row = &xs[i];
        if fault.is_none() {
            match free_row(row) {
                Ok(p) => {
                    list::push(&mut out, p);
                },
                Err(e) => {
                    fault = Some(e);
                },
            }
        }
        i = i + 1;
    }
    (out, fault)
}

/// What is free, by asset, from the accounts answer, which is a list.
pub open spec fn read_balances_spec(rows: Doc) -> Result<Seq<(Seq<char>, Double)>, VenueErrorView> {
    if !(rows is Arr) {
        Err(venue::shape_err_spec("gate"@, "accounts: not a list"@))
    } else {
        let out = Seq::<(Seq<char>, Double)>::empty();
        let fault: Option<VenueErrorView> = None;
        let (out, fault) = add_free_rows_spec(rows.items(), out, fault, rows.items().len());
        match fault {
            Some(e) => Err(e),
            None => Ok(out),
        }
    }
}

/// What is free, by asset, from the accounts answer, which is a list.
pub fn read_balances(rows: &Json) -> (r: Result<Vec<(String, Double)>, VenueError>)
    ensures
        list::outcome(r) == read_balances_spec(rows@),
{
    if !rows.is_arr() {
        return Err(venue::shape_err("gate", "accounts: not a list"));
    }
    let mut out: Vec<(String, Double)> = list::none();
    let mut fault: Option<VenueError> = None;
    let (next_out, next_fault) = add_free_rows(&json::items(rows), out, fault);
    out = next_out;
    fault = next_fault;
    match fault {
        Some(e) => Err(e),
        None => Ok(out),
    }
}

/// Of the first `n` assets, up to the first that cannot be read.
pub open spec fn add_full_rows_spec(
    xs: Seq<Doc>,
    out: Seq<(Seq<char>, Balance)>,
    fault: Option<VenueErrorView>,
    n: nat,
) -> (Seq<(Seq<char>, Balance)>, Option<VenueErrorView>)
    decreases n,
{
    if n == 0 {
        (out, fault)
    } else {
        let (out, fault) = add_full_rows_spec(xs, out, fault, (n - 1) as nat);
        let row = xs[n - 1];
        if fault is None {
            match full_row_spec(row) {
                Ok(p) => (out.push(p), fault),
                Err(e) => (out, Some(e)),
            }
        } else {
            (out, fault)
        }
    }
}

fn add_full_rows(
    xs: &Vec<Json>,
    out: Vec<(String, Balance)>,
    fault: Option<VenueError>,
) -> (r: (Vec<(String, Balance)>, Option<VenueError>))
    ensures
        r.deep_view() == add_full_rows_spec(
            xs.deep_view(),
            out.deep_view(),
            fault.deep_view(),
            xs@.len(),
        ),
{
    let ghost out0 = out.deep_view();
    let ghost fault0 = fault.deep_view();
    let mut out = out;
    let mut fault = fault;
    let mut i: usize = 0;
    while i < xs.len()
        invariant
            i <= xs@.len(),
            (out.deep_view(), fault.deep_view()) == add_full_rows_spec(
                xs.deep_view(),
                out0,
                fault0,
                i as nat,
            ),
        decreases xs@.len() - i,
    {
        let row = &xs[i];
        if fault.is_none() {
            match full_row(row) {
                Ok(p) => {
                    list::push(&mut out, p);
                },
                Err(e) => {
                    fault = Some(e);
                },
            }
        }
        i = i + 1;
    }
    (out, fault)
}

/// What is free and what resting orders hold, by asset, from the accounts answer, which is a
/// list.
pub open spec fn read_balances_full_spec(
    rows: Doc,
) -> Result<Seq<(Seq<char>, Balance)>, VenueErrorView> {
    if !(rows is Arr) {
        Err(venue::shape_err_spec("gate"@, "accounts: not a list"@))
    } else {
        let out = Seq::<(Seq<char>, Balance)>::empty();
        let fault: Option<VenueErrorView> = None;
        let (out, fault) = add_full_rows_spec(rows.items(), out, fault, rows.items().len());
        match fault {
            Some(e) => Err(e),
            None => Ok(out),
        }
    }
}

/// What is free and what resting orders hold, by asset, from the accounts answer, which is a
/// list.
pub fn read_balances_full(rows: &Json) -> (r: Result<Vec<(String, Balance)>, VenueError>)
    ensures
        list::outcome(r) == read_balances_full_spec(rows@),
{
    if !rows.is_arr() {
        return Err(venue::shape_err("gate", "accounts: not a list"));
    }
    let mut out: Vec<(String, Balance)> = list::none();
    let mut fault: Option<VenueError> = None;
    let (next_out, next_fault) = add_full_rows(&json::items(rows), out, fault);
    out = next_out;
    fault = next_fault;
    match fault {
        Some(e) => Err(e),
        None => Ok(out),
    }
}

/// The smallest order of a pair.
pub open spec fn limits_spec(p: PairInfo) -> Limits {
    Limits { min_base: p.min_base, min_quote: p.min_quote }
}

/// The smallest order of a pair.
pub fn limits(p: PairInfo) -> (r: Limits)
    ensures
        r == limits_spec(p),
{
    Limits { min_base: p.min_base, min_quote: p.min_quote }
}

impl PairInfo {
    /// Round down, never up: rounding an amount up can exceed the balance you have.
    pub fn round_amount(&self, amount: Double) -> (r: Double)
        ensures
            r == round_down_spec(amount, self.amount_precision),
            !amount.lt_spec(r),
    {
        round_down(amount, self.amount_precision)
    }

    pub fn round_price(&self, price: Double) -> (r: Double)
        ensures
            r == round_down_spec(price, self.price_precision),
            !price.lt_spec(r),
    {
        round_down(price, self.price_precision)
    }
}

/// Where the accounts are read.
pub const ACCOUNTS: &'static str = "/api/v4/spot/accounts";

/// Where orders are placed and listed.
pub const ORDERS: &'static str = "/api/v4/spot/orders";

/// Where deposits are read.
pub const DEPOSITS: &'static str = "/api/v4/wallet/deposits";

/// The path of one order.
pub open spec fn order_path_spec(order_id: Seq<char>) -> Seq<char> {
    "/api/v4/spot/orders/"@ + order_id
}

pub fn order_path(order_id: &str) -> (r: String)
    ensures
        r@ == order_path_spec(order_id@),
{
    text::cat("/api/v4/spot/orders/", order_id)
}

/// The query that names a pair.
pub open spec fn pair_query(pair: Seq<char>) -> Seq<char> {
    "currency_pair="@ + pair
}

/// The read of a pair's precision and minimums.
pub fn pair_info(pair: &str) -> (r: Request)
    ensures
        r.deep_view() == public_call_spec("/api/v4/spot/currency_pairs/"@ + pair@),
{
    public_call(text::cat("/api/v4/spot/currency_pairs/", pair).as_str())
}

/// The read of a pair's price and how it moved in a day.
pub fn ticker(pair: &str) -> (r: Request)
    ensures
        r.deep_view() == public_call_spec("/api/v4/spot/tickers?"@ + pair_query(pair@)),
{
    public_call(
        text::cat("/api/v4/spot/tickers?", text::cat("currency_pair=", pair).as_str()).as_str(),
    )
}

impl Gate {
    /// The read of the accounts.
    pub fn accounts(&self, now: Double) -> (r: Request)
        ensures
            r.deep_view() == signed_call_spec(
                self.deep_view(),
                "GET"@,
                ACCOUNTS@,
                ""@,
                ""@,
                now,
            ),
    {
        self.signed("GET", ACCOUNTS, "", "", now)
    }

    /// The read of on-chain deposits.
    pub fn deposits(&self, currency: Option<&str>, since: Option<Double>, now: Double) -> (r:
        Request)
        ensures
            r.deep_view() == signed_call_spec(
                self.deep_view(),
                "GET"@,
                DEPOSITS@,
                deposits_query_spec(currency.deep_view(), since),
                ""@,
                now,
            ),
    {
        let q = deposits_query(currency, since);
        self.signed("GET", DEPOSITS, q.as_str(), "", now)
    }

    /// The read of one order.
    pub fn order_status(&self, pair: &str, order_id: &str, now: Double) -> (r: Request)
        ensures
            r.deep_view() == signed_call_spec(
                self.deep_view(),
                "GET"@,
                order_path_spec(order_id@),
                pair_query(pair@),
                ""@,
                now,
            ),
    {
        let q = text::cat("currency_pair=", pair);
        self.signed("GET", order_path(order_id).as_str(), q.as_str(), "", now)
    }

    /// The read of what rests for a pair.
    pub fn open_orders(&self, pair: &str, now: Double) -> (r: Request)
        ensures
            r.deep_view() == signed_call_spec(
                self.deep_view(),
                "GET"@,
                ORDERS@,
                pair_query(pair@) + "&status=open"@,
                ""@,
                now,
            ),
    {
        let q = text::cat(text::cat("currency_pair=", pair).as_str(), "&status=open");
        self.signed("GET", ORDERS, q.as_str(), "", now)
    }

    /// The cancel of one order.
    pub fn cancel(&self, pair: &str, order_id: &str, now: Double) -> (r: Request)
        ensures
            r.deep_view() == signed_call_spec(
                self.deep_view(),
                "DELETE"@,
                order_path_spec(order_id@),
                pair_query(pair@),
                ""@,
                now,
            ),
    {
        let q = text::cat("currency_pair=", pair);
        self.signed("DELETE", order_path(order_id).as_str(), q.as_str(), "", now)
    }

    /// An order as it is sent.
    pub fn order(&self, body: &str, now: Double) -> (r: Request)
        ensures
            r.deep_view() == signed_call_spec(
                self.deep_view(),
                "POST"@,
                ORDERS@,
                ""@,
                body@,
                now,
            ),
    {
        self.signed("POST", ORDERS, "", body, now)
    }
}

impl Gate {
    /// The signed headers for one request at `now` (whole seconds).
    pub fn headers(&self, method: &str, path: &str, query: &str, body: &str, now: i64) -> (r: Vec<
        (String, String),
    >)
        ensures
            r.deep_view() == signed_headers_spec(
                self.deep_view(),
                method@,
                path@,
                query@,
                body@,
                now,
            ),
    {
        signed_headers(self, method, path, query, body, now)
    }

    /// A signed request at `now`.
    pub fn signed(&self, method: &str, path: &str, query: &str, body: &str, now: Double) -> (r:
        Request)
        ensures
            r.deep_view() == signed_call_spec(
                self.deep_view(),
                method@,
                path@,
                query@,
                body@,
                now,
            ),
    {
        signed_call(self, method, path, query, body, now)
    }
}

/// The signature covers method, path, query, body and time: it is the code of those five under
/// the secret, and nothing else is signed.
pub proof fn law_the_signature_covers_everything(
    g: GateView,
    method: Seq<char>,
    path: Seq<char>,
    query: Seq<char>,
    body: Seq<char>,
    now: i64,
)
    ensures
        signed_headers_spec(g, method, path, query, body, now)[2] == (
            "SIGN"@,
            crypto::hmac_sha512_hex_spec(
                g.creds.secret,
                method + "\n"@ + path + "\n"@ + query + "\n"@ + crypto::sha512_hex_spec(body)
                    + "\n"@ + text::dec_int(now as int),
            ),
        ),
{
}

/// A filled market buy is counted in base units: its total over the price it was dealt at.
pub proof fn law_a_market_buy_is_counted_in_base(
    amount: Double,
    left: Double,
    total: Double,
    avg: Double,
)
    ensures
        base_and_price_spec(true, amount, left, total, Some(avg)) == (
            Some(total.div_spec(avg)),
            Some(avg),
        ),
{
}

/// An amount or a price rounded to a pair's precision is never above what it was, and it is the
/// floor of the product with the power of ten, divided by it again, wherever that is not above.
pub proof fn law_nothing_rounds_up(x: Double, p: i64)
    ensures
        !x.lt_spec(round_down_spec(x, p)),
        !x.lt_spec(floor_to_spec(x, p)) ==> round_down_spec(x, p) == floor_to_spec(x, p),
{
}

/// What is filled, at its average price, is what was paid, but for rounding: base quantity, average
/// price and quote amount of an order that says no price itself, or that is a market buy, belong
/// together.
pub proof fn law_base_and_price_make_the_total(
    market_buy: bool,
    amount: Double,
    left: Double,
    total: Double,
    avg: Option<Double>,
)
    ensures
        ({
            let (base, price) = base_and_price_spec(market_buy, amount, left, total, avg);
            let u = crate::double::unit() as int;
            &&& base matches Some(b) ==> (price matches Some(a) ==> (market_buy || avg is None)
                && a.finite() && b.finite() && total.finite() && a.amount() != 0 && b.amount() != 0
                ==> rounding::grain() * rounding::size(a.amount() * b.amount() - total.amount() * u)
                <= rounding::size(if market_buy {
                a.amount()
            } else {
                b.amount()
            }) * (rounding::size(if market_buy {
                b.amount()
            } else {
                a.amount()
            }) + rounding::least()))
            &&& avg is Some ==> price == avg
            &&& base is None <==> market_buy && avg is None
        }),
{
    let (base, price) = base_and_price_spec(market_buy, amount, left, total, avg);
    if let (Some(b), Some(a)) = (base, price) {
        if a.finite() && b.finite() && total.finite() && a.amount() != 0 && b.amount() != 0 {
            if market_buy {
                rounding::lemma_div_error(total, a);
                assert(b.amount() * a.amount() == a.amount() * b.amount()) by (nonlinear_arith);
            } else if avg is None {
                rounding::lemma_div_error(total, b);
            }
        }
    }
}

/// What a limit order has filled is its amount less what is left of it, but for rounding, and
/// nothing where all of it is left.
pub proof fn law_filled_and_left_make_the_amount(
    amount: Double,
    left: Double,
    total: Double,
    avg: Option<Double>,
)
    requires
        amount.finite(),
        left.finite(),
    ensures
        base_and_price_spec(false, amount, left, total, avg).0 matches Some(b) && {
            &&& b.finite() ==> rounding::grain() * rounding::size(
                b.amount() + left.amount() - amount.amount(),
            ) <= rounding::size(b.amount()) + rounding::least()
            &&& amount.amount() == left.amount() ==> b.amount() == 0
            &&& left.amount() == 0 ==> b.amount() == amount.amount()
        },
{
    let b = amount.sub_spec(left);
    let l = left.neg_spec();
    crate::double::lemma_scaled_zero();
    assert(l.amount() == -left.amount() && l.finite());
    if b.finite() {
        rounding::lemma_add_error(amount, l);
    }
    if amount.amount() == left.amount() {
        rounding::lemma_exact_sum(amount, l, Double::zero_spec());
    }
    if left.amount() == 0 {
        rounding::lemma_exact_sum(amount, l, amount);
    }
}

/// Which field of a reply each part of an order is read from.
pub proof fn law_an_order_is_read_from_its_fields(r: Doc)
    ensures
        parse_order_spec(r) matches Ok(p) ==> {
            &&& pyfmt::float_or_zero_spec(r.get("filled_total"@)) == Ok::<Double, Seq<char>>(p.quote)
            &&& pyfmt::float_or_zero_spec(r.get("fee"@)) == Ok::<Double, Seq<char>>(p.fee)
            &&& p.price matches Some(x) ==> pyfmt::float_or_zero_spec(r.get("price"@)) == Ok::<
                Double,
                Seq<char>,
            >(x) && !x.eq_spec(Double::zero_spec())
            &&& !p.qty.eq_spec(Double::zero_spec()) ==> pyfmt::float_or_zero_spec(
                r.get("amount"@),
            ) == Ok::<Double, Seq<char>>(p.qty)
            &&& r.get("status"@) == Some(Doc::Str("closed"@)) ==> p.filled
            &&& r.get("status"@) == Some(Doc::Str("open"@)) ==> !p.filled
            &&& r.get("status"@) is None ==> !p.filled
        },
{
    reveal_strlit("closed");
    reveal_strlit("filled");
    reveal_strlit("open");
    reveal_strlit("");
    assert("open"@.len() == 4 && "closed"@.len() == 6 && "filled"@.len() == 6);
    crate::double::lemma_scaled_zero();
}

/// A row of the account is read from its own fields: what is available and what is locked.
pub proof fn law_free_and_locked_are_their_own_fields(r: Doc)
    ensures
        full_row_spec(r) matches Ok(x) ==> {
            &&& needed_spec(r, "available"@) == Ok::<Double, VenueErrorView>(x.1.free)
            &&& needed_spec(r, "locked"@) == Ok::<Double, VenueErrorView>(x.1.locked)
            &&& free_row_spec(r) == Ok::<(Seq<char>, Double), VenueErrorView>((x.0, x.1.free))
        },
{
}

/// A number that is cut to a pair's decimals loses less than one step, but for rounding.
pub proof fn law_cutting_loses_less_than_a_step(x: Double, p: i64)
    requires
        ({
            let f = power_of_ten_spec(p);
            let q = x.mul_spec(f);
            &&& x.finite() && f.finite() && q.finite()
            &&& x.amount() >= 0 && f.amount() > 0
            &&& 0 <= q.amount() < rounding::grain() * crate::double::unit()
            &&& floor_to_spec(x, p).finite()
            &&& !x.lt_spec(floor_to_spec(x, p))
        }),
    ensures
        ({
            let f = power_of_ten_spec(p).amount();
            let r = round_down_spec(x, p).amount();
            let u = crate::double::unit() as int;
            &&& r >= 0
            &&& rounding::grain() * ((x.amount() - r) * f - u * u) <= 2 * (x.amount() * f) + f * r
                + f * rounding::least() + 2 * (u * rounding::least())
        }),
{
    rounding::lemma_whole_parts(x, power_of_ten_spec(p));
}

} // verus!
