//! The Binance spot client: the requests it sends and how it reads what comes back.
//!
//! Signing: the query string, with `timestamp` (ms) and `recvWindow=5000` appended, is signed
//! with HMAC-SHA256 and sent as `&signature=`; the key rides in `X-MBX-APIKEY`. Order
//! parameters are sent in the query string, never a body.
//!
//! Fees only appear on the immediate order response (`fills[]`), never on a later status poll.
use crate::crypto;
use crate::double::Double;
use crate::http;
use crate::http::{Reply, ReplyView, Request, RequestView, VenueError, VenueErrorView};
use crate::ids;
use crate::keys::{Credentials, CredentialsView};
use crate::list;
use crate::list::Duplicate;
use crate::pyfmt;
use crate::rounding;
use crate::text;
use crate::venue;
use crate::venue::{Balance, Limits, ParsedOrder, ParsedOrderView};
use crate::watch::fields;
use crate::watch::json;
use crate::watch::json::{Doc, Json};
use vstd::prelude::*;

verus! {

pub const BASE: &'static str = "https://api.binance.com";

/// An answer that does not hold what it should.
pub open spec fn as_shape_spec(why: Seq<char>) -> VenueErrorView {
    venue::shape_err_spec("binance"@, why)
}

fn as_shape(why: &str) -> (r: VenueError)
    ensures
        r.deep_view() == as_shape_spec(why@),
{
    venue::shape_err("binance", why)
}

/// An id that cannot be sent.
pub open spec fn id_shape_spec(why: Seq<char>) -> VenueErrorView {
    venue::shape_err_spec("binance"@, why)
}

fn id_shape(why: &str) -> (r: VenueError)
    ensures
        r.deep_view() == id_shape_spec(why@),
{
    venue::shape_err("binance", why)
}

/// A refused call.
pub open spec fn failed_spec(prefix: Seq<char>, reply: ReplyView) -> VenueErrorView {
    VenueErrorView {
        venue: "binance"@,
        status: reply.status,
        message: prefix
            + " -> "@
            + http::shown_status_spec(reply)
            + " "@
            + http::shown_body_spec(reply),
    }
}

fn failed(prefix: &str, reply: &Reply) -> (r: VenueError)
    ensures
        r.deep_view() == failed_spec(prefix@, reply.deep_view()),
{
    let mut line = text::owned(prefix);
    line.push_str(" -> ");
    line.push_str(http::shown_status(reply).as_str());
    line.push_str(" ");
    line.push_str(http::shown_body(reply).as_str());
    VenueError { venue: text::owned("binance"), status: reply.status, message: line }
}

/// A number that has to be there.
pub open spec fn needed_spec(r: Doc, k: Seq<char>) -> Result<Double, VenueErrorView> {
    match r.get(k) {
        Some(v) => match pyfmt::to_float_spec(v) {
            Ok(f) => Ok(f),
            Err(e) => Err(as_shape_spec(e)),
        },
        None => Err(venue::shape_err_spec("binance"@, "'"@ + k + "'"@)),
    }
}

fn needed(r: &Json, k: &str) -> (out: Result<Double, VenueError>)
    ensures
        list::outcome(out) == needed_spec(r@, k@),
{
    let v = match r.get(k) {
        Some(v) => v,
        None => {
            let mut line = text::owned("'");
            line.push_str(k);
            line.push_str("'");
            return Err(venue::shape_err("binance", line.as_str()));
        },
    };
    let f = match pyfmt::to_float(v) {
        Ok(v) => v,
        Err(e) => {
            return Err(as_shape(e.as_str()));
        },
    };
    Ok(f)
}

/// A number, 0 where it is missing or counts as false.
pub open spec fn zero_or_spec(r: Doc, k: Seq<char>) -> Result<Double, VenueErrorView> {
    match pyfmt::float_or_zero_spec(r.get(k)) {
        Ok(f) => Ok(f),
        Err(e) => Err(as_shape_spec(e)),
    }
}

fn zero_or(r: &Json, k: &str) -> (out: Result<Double, VenueError>)
    ensures
        list::outcome(out) == zero_or_spec(r@, k@),
{
    let f = match pyfmt::float_or_zero(r.get(k)) {
        Ok(v) => v,
        Err(e) => {
            return Err(as_shape(e.as_str()));
        },
    };
    Ok(f)
}

/// A field as text, empty where it is missing.
pub open spec fn name_of_spec(r: Doc, k: Seq<char>) -> Seq<char> {
    match r.get(k) {
        Some(v) => pyfmt::shown(pyfmt::ordered_doc(v)),
        None => ""@,
    }
}

fn name_of(r: &Json, k: &str) -> (out: String)
    ensures
        out@ == name_of_spec(r@, k@),
{
    match r.get(k) {
        Some(v) => pyfmt::value_str(v),
        None => text::owned(""),
    }
}

/// A field as text, empty where it is missing or null.
pub open spec fn word_of_spec(r: Doc, k: Seq<char>) -> Seq<char> {
    match r.get(k) {
        Some(v) => if v is Null {
            ""@
        } else {
            pyfmt::shown(pyfmt::ordered_doc(v))
        },
        None => ""@,
    }
}

fn word_of(r: &Json, k: &str) -> (out: String)
    ensures
        out@ == word_of_spec(r@, k@),
{
    match r.get(k) {
        Some(v) => {
            if v.is_null() {
                return text::owned("");
            }
            pyfmt::value_str(v)
        },
        None => text::owned(""),
    }
}

/// A number that is not zero.
pub open spec fn nonzero_spec(x: Double) -> Option<Double> {
    if !x.eq_spec(Double::zero_spec()) {
        Some(x)
    } else {
        None
    }
}

fn nonzero(x: Double) -> (r: Option<Double>)
    ensures
        r == nonzero_spec(x),
{
    if !x.same(Double::zero()) {
        return Some(x);
    }
    None
}

/// The body of a reply, null where there is none.
pub open spec fn body_of_spec(reply: ReplyView) -> Doc {
    match reply.json {
        Some(v) => v,
        None => Doc::Null,
    }
}

fn body_of(reply: &Reply) -> (r: Json)
    ensures
        r@ == body_of_spec(reply.deep_view()),
{
    match &reply.json {
        Some(v) => v.copy(),
        None => Json::Null,
    }
}

/// An id within the journal's rules.
pub open spec fn cid_spec(c: Seq<char>) -> Result<Seq<char>, VenueErrorView> {
    match ids::coerced(c, ids::CID_MAX as nat, false) {
        Ok(t) => Ok(t),
        Err(e) => Err(id_shape_spec(e)),
    }
}

fn cid(c: &str) -> (r: Result<String, VenueError>)
    ensures
        list::outcome(r) == cid_spec(c@),
{
    match ids::safe_cid(c) {
        Ok(t) => Ok(t),
        Err(e) => Err(id_shape(e.0.as_str())),
    }
}

/// A symbol's trading rules: lot step and minimum, minimum notional, price tick.
#[derive(Clone, Copy, Debug)]
pub struct Filters {
    pub step: Double,
    pub min_qty: Double,
    pub min_notional: Double,
    pub tick: Double,
}

impl DeepView for Filters {
    type V = Filters;

    open spec fn deep_view(&self) -> Filters {
        *self
    }
}

/// A client with its credentials.
#[derive(Debug)]
pub struct Binance {
    pub creds: Credentials,
}

/// What a [`Binance`] holds.
pub struct BinanceView {
    pub creds: CredentialsView,
}

impl DeepView for Binance {
    type V = BinanceView;

    open spec fn deep_view(&self) -> BinanceView {
        BinanceView {
            creds: self.creds.deep_view(),
        }
    }
}

/// The parameters with the time and the window behind them.
pub open spec fn with_time_spec(
    params: Seq<(Seq<char>, Seq<char>)>,
    ts_ms: i64,
) -> Seq<(Seq<char>, Seq<char>)> {
    let params = params.push(("timestamp"@, text::dec_int(ts_ms as int)));
    params.push(("recvWindow"@, "5000"@))
}

fn with_time(params: Vec<(String, String)>, ts_ms: i64) -> (r: Vec<(String, String)>)
    ensures
        r.deep_view() == with_time_spec(params.deep_view(), ts_ms),
{
    let mut params = params;
    list::push(&mut params, (text::owned("timestamp"), text::dec_i64(ts_ms)));
    list::push(&mut params, (text::owned("recvWindow"), text::owned("5000")));
    params
}

/// The query string with its signature.
pub open spec fn signed_text_spec(
    secret: Seq<char>,
    params: Seq<(Seq<char>, Seq<char>)>,
    ts_ms: i64,
) -> Seq<char> {
    let qs = pyfmt::query_of(with_time_spec(params, ts_ms), with_time_spec(params, ts_ms).len());
    qs + "&signature="@ + crypto::hmac_sha256_hex_spec(secret, qs)
}

fn signed_text(secret: &str, params: Vec<(String, String)>, ts_ms: i64) -> (r: String)
    ensures
        r@ == signed_text_spec(secret@, params.deep_view(), ts_ms),
{
    let qs = pyfmt::urlencode(&with_time(params, ts_ms));
    let mut line = text::owned(qs.as_str());
    line.push_str("&signature=");
    line.push_str(crypto::hmac_sha256_hex(secret, qs.as_str()).as_str());
    line
}

/// A signed request at a time in seconds.
pub open spec fn signed_call_spec(
    b: BinanceView,
    method: Seq<char>,
    path: Seq<char>,
    params: Seq<(Seq<char>, Seq<char>)>,
    now: Double,
) -> RequestView {
    let ts = now.mul_spec(Double::int_spec(1000)).cast_spec(i64::MIN as int, i64::MAX as int) as i64;
    let url = BASE@ + path + "?"@ + signed_text_spec(b.creds.secret, params, ts);
    let headers = Seq::<(Seq<char>, Seq<char>)>::empty().push(("X-MBX-APIKEY"@, b.creds.key));
    http::prepare_spec(method, url, headers, None)
}

fn signed_call(
    b: &Binance,
    method: &str,
    path: &str,
    params: Vec<(String, String)>,
    now: Double,
) -> (r: Request)
    ensures
        r.deep_view() == signed_call_spec(b.deep_view(), method@, path@, params.deep_view(), now),
{
    let ts: i64 = now.times(Double::of_int(1000)).to_i64();
    let mut url = text::owned(BASE);
    url.push_str(path);
    url.push_str("?");
    url.push_str(signed_text(b.creds.secret.as_str(), params.dup(), ts).as_str());
    let mut headers: Vec<(String, String)> = list::none();
    list::push(&mut headers, (text::owned("X-MBX-APIKEY"), text::owned(b.creds.key.as_str())));
    http::prepare(method, url.as_str(), headers, None)
}

/// A request that needs no key.
pub open spec fn public_call_spec(path_query: Seq<char>) -> RequestView {
    http::prepare_spec("GET"@, BASE@ + path_query, Seq::<(Seq<char>, Seq<char>)>::empty(), None)
}

/// A request that needs no key.
pub fn public_call(path_query: &str) -> (r: Request)
    ensures
        r.deep_view() == public_call_spec(path_query@),
{
    let mut line = text::owned(BASE);
    line.push_str(path_query);
    http::prepare("GET", line.as_str(), list::none::<(String, String)>(), None)
}

/// The body of the answer to a signed request, which is 200.
pub open spec fn signed_body_spec(
    method: Seq<char>,
    path: Seq<char>,
    reply: ReplyView,
) -> Result<Doc, VenueErrorView> {
    if reply.status == Some(200u16) {
        Ok(body_of_spec(reply))
    } else {
        Err(failed_spec(method + " "@ + path, reply))
    }
}

/// The body of the answer to a signed request, which is 200.
pub fn signed_body(method: &str, path: &str, reply: &Reply) -> (r: Result<Json, VenueError>)
    ensures
        list::outcome(r) == signed_body_spec(method@, path@, reply.deep_view()),
{
    if http::has_status(reply, 200) {
        return Ok(body_of(reply));
    }
    let mut line = text::owned(method);
    line.push_str(" ");
    line.push_str(path);
    Err(failed(line.as_str(), reply))
}

/// The filters of the first symbol, where they are a list.
pub open spec fn listed_filters_spec(body: Doc) -> Option<Doc> {
    let symbols = fields::object_or_spec(body, "symbols"@).items();
    match list::item(symbols, 0) {
        Some(first) => match first.get("filters"@) {
            Some(f) => if f is Arr {
                Some(f)
            } else {
                None
            },
            None => None,
        },
        None => None,
    }
}

fn listed_filters(body: &Json) -> (r: Option<Json>)
    ensures
        r.deep_view() == listed_filters_spec(body@),
{
    let symbols = json::items(&fields::object_or(body, "symbols"));
    let first = match list::at(&symbols, 0) {
        Some(v) => v,
        None => {
            return None;
        },
    };
    let f = match first.get("filters") {
        Some(v) => v,
        None => {
            return None;
        },
    };
    if f.is_arr() {
        return Some(f.copy());
    }
    None
}

/// A number of a filter, 0 where it is missing.
pub open spec fn rule_spec(v: Option<Doc>) -> Result<Double, VenueErrorView> {
    match v {
        Some(x) => match pyfmt::to_float_spec(x) {
            Ok(f) => Ok(f),
            Err(e) => Err(as_shape_spec(e)),
        },
        None => Ok(Double::zero_spec()),
    }
}

fn rule(v: Option<&Json>) -> (r: Result<Double, VenueError>)
    ensures
        list::outcome(r) == rule_spec(v.deep_view()),
{
    match v {
        Some(x) => {
            let f = match pyfmt::to_float(x) {
                Ok(v) => v,
                Err(e) => {
                    return Err(as_shape(e.as_str()));
                },
            };
            Ok(f)
        },
        None => Ok(Double::zero()),
    }
}

/// The rules with those of one more filter.
pub open spec fn with_filter_spec(f: Filters, filt: Doc) -> Result<Filters, VenueErrorView> {
    let kind = fields::text_or_spec(filt, "filterType"@, ""@);
    if kind == "LOT_SIZE"@ {
        match rule_spec(filt.get("stepSize"@)) {
            Ok(step) => match rule_spec(filt.get("minQty"@)) {
                Ok(min_qty) => Ok(
                    Filters { step, min_qty, min_notional: f.min_notional, tick: f.tick },
                ),
                Err(e) => Err(e),
            },
            Err(e) => Err(e),
        }
    } else if kind == "MIN_NOTIONAL"@ || kind == "NOTIONAL"@ {
        match rule_spec(
            if filt.get("minNotional"@) is Some {
                filt.get("minNotional"@)
            } else {
                filt.get("notional"@)
            },
        ) {
            Ok(n) => Ok(
                Filters { step: f.step, min_qty: f.min_qty, min_notional: n, tick: f.tick },
            ),
            Err(e) => Err(e),
        }
    } else if kind == "PRICE_FILTER"@ {
        match rule_spec(filt.get("tickSize"@)) {
            Ok(tick) => Ok(
                Filters { step: f.step, min_qty: f.min_qty, min_notional: f.min_notional, tick },
            ),
            Err(e) => Err(e),
        }
    } else {
        Ok(f)
    }
}

fn with_filter(f: Filters, filt: &Json) -> (r: Result<Filters, VenueError>)
    ensures
        list::outcome(r) == with_filter_spec(f, filt@),
{
    let kind = fields::text_or(filt, "filterType", "");
    if text::same(kind.as_str(), "LOT_SIZE") {
        let step = match rule(filt.get("stepSize")) {
            Ok(v) => v,
            Err(e) => {
                return Err(e);
            },
        };
        let min_qty = match rule(filt.get("minQty")) {
            Ok(v) => v,
            Err(e) => {
                return Err(e);
            },
        };
        return Ok(Filters { step, min_qty, min_notional: f.min_notional, tick: f.tick });
    }
    if text::same(kind.as_str(), "MIN_NOTIONAL") || text::same(kind.as_str(), "NOTIONAL") {
        let n = match rule(
            if filt.contains_key("minNotional") {
                filt.get("minNotional")
            } else {
                filt.get("notional")
            },
        ) {
            Ok(v) => v,
            Err(e) => {
                return Err(e);
            },
        };
        return Ok(Filters { step: f.step, min_qty: f.min_qty, min_notional: n, tick: f.tick });
    }
    if text::same(kind.as_str(), "PRICE_FILTER") {
        let tick = match rule(filt.get("tickSize")) {
            Ok(v) => v,
            Err(e) => {
                return Err(e);
            },
        };
        return Ok(
            Filters { step: f.step, min_qty: f.min_qty, min_notional: f.min_notional, tick },
        );
    }
    Ok(f)
}

/// The rules of the first `n` filters, up to the first that cannot be read.
pub open spec fn add_filters_spec(
    xs: Seq<Doc>,
    f: Filters,
    fault: Option<VenueErrorView>,
    n: nat,
) -> (Filters, Option<VenueErrorView>)
    decreases n,
{
    if n == 0 {
        (f, fault)
    } else {
        let (f, fault) = add_filters_spec(xs, f, fault, (n - 1) as nat);
        let filt = xs[n - 1];
        if fault is None {
            match with_filter_spec(f, filt) {
                Ok(g) => (g, fault),
                Err(e) => (f, Some(e)),
            }
        } else {
            (f, fault)
        }
    }
}

fn add_filters(
    xs: &Vec<Json>,
    f: Filters,
    fault: Option<VenueError>,
) -> (r: (Filters, Option<VenueError>))
    ensures
        r.deep_view() == add_filters_spec(xs.deep_view(), f, fault.deep_view(), xs@.len()),
{
    let ghost f0 = f;
    let ghost fault0 = fault.deep_view();
    let mut f = f;
    let mut fault = fault;
    let mut i: usize = 0;
    while i < xs.len()
        invariant
            i <= xs@.len(),
            (f, fault.deep_view()) == add_filters_spec(xs.deep_view(), f0, fault0, i as nat),
        decreases xs@.len() - i,
    {
        let filt = &xs[i];
        if fault.is_none() {
            match with_filter(f, filt) {
                Ok(g) => {
                    f = g;
                },
                Err(e) => {
                    fault = Some(e);
                },
            }
        }
        i = i + 1;
    }
    (f, fault)
}

/// LOT_SIZE, MIN_NOTIONAL / NOTIONAL and PRICE_FILTER of a symbol, from the answer to
/// `exchangeInfo`.
pub open spec fn read_filters_spec(
    symbol: Seq<char>,
    reply: ReplyView,
) -> Result<Filters, VenueErrorView> {
    if !(reply.status == Some(200u16)) {
        Err(failed_spec("exchangeInfo "@ + symbol, reply))
    } else {
        match listed_filters_spec(body_of_spec(reply)) {
            Some(found) => {
                let f = Filters {
                    step: Double::zero_spec(),
                    min_qty: Double::zero_spec(),
                    min_notional: Double::zero_spec(),
                    tick: Double::zero_spec(),
                };
                let fault: Option<VenueErrorView> = None;
                let (f, fault) = add_filters_spec(found.items(), f, fault, found.items().len());
                match fault {
                    Some(e) => Err(e),
                    None => Ok(f),
                }
            },
            None => Err(
                venue::shape_err_spec("binance"@, "exchangeInfo "@ + symbol + ": no filters"@),
            ),
        }
    }
}

/// LOT_SIZE, MIN_NOTIONAL / NOTIONAL and PRICE_FILTER of a symbol, from the answer to
/// `exchangeInfo`.
pub fn read_filters(symbol: &str, reply: &Reply) -> (r: Result<Filters, VenueError>)
    ensures
        list::outcome(r) == read_filters_spec(symbol@, reply.deep_view()),
{
    if !http::has_status(reply, 200) {
        let mut line = text::owned("exchangeInfo ");
        line.push_str(symbol);
        return Err(failed(line.as_str(), reply));
    }
    let found = match listed_filters(&body_of(reply)) {
        Some(v) => v,
        None => {
            let mut line2 = text::owned("exchangeInfo ");
            line2.push_str(symbol);
            line2.push_str(": no filters");
            return Err(venue::shape_err("binance", line2.as_str()));
        },
    };
    let mut f = Filters {
        step: Double::zero(),
        min_qty: Double::zero(),
        min_notional: Double::zero(),
        tick: Double::zero(),
    };
    let mut fault: Option<VenueError> = None;
    let (next_f, next_fault) = add_filters(&json::items(&found), f, fault);
    f = next_f;
    fault = next_fault;
    match fault {
        Some(e) => Err(e),
        None => Ok(f),
    }
}

/// `floor(x / step) * step`, or the number itself for a zero step.
pub open spec fn floored_spec(x: Double, step: Double) -> Double {
    if Double::zero_spec().lt_spec(step) {
        x.div_spec(step).floor_spec().mul_spec(step)
    } else {
        x
    }
}

fn floored(x: Double, step: Double) -> (r: Double)
    ensures
        r == floored_spec(x, step),
{
    if Double::zero().lt(step) {
        return x.over(step).floor().times(step);
    }
    x
}

/// `floor(qty / step) * step`, or `qty` for a zero step.
pub open spec fn round_qty_spec(f: Filters, qty: Double) -> Double {
    floored_spec(qty, f.step)
}

/// `floor(qty / step) * step`, or `qty` for a zero step.
pub fn round_qty(f: Filters, qty: Double) -> (r: Double)
    ensures
        r == round_qty_spec(f, qty),
{
    floored(qty, f.step)
}

/// `floor(price / tick) * tick`, or `price` for a zero tick.
pub open spec fn round_price_spec(f: Filters, price: Double) -> Double {
    floored_spec(price, f.tick)
}

/// `floor(price / tick) * tick`, or `price` for a zero tick.
pub fn round_price(f: Filters, price: Double) -> (r: Double)
    ensures
        r == round_price_spec(f, price),
{
    floored(price, f.tick)
}

/// The parameters with the client id, where there is one.
pub open spec fn with_cid_spec(
    p: Seq<(Seq<char>, Seq<char>)>,
    client_id: Option<Seq<char>>,
) -> Result<Seq<(Seq<char>, Seq<char>)>, VenueErrorView> {
    match client_id {
        Some(c) => if c == ""@ {
            Ok(p)
        } else {
            match cid_spec(c) {
                Ok(id) => {
                    let p = p.push(("newClientOrderId"@, id));
                    Ok(p)
                },
                Err(e) => Err(e),
            }
        },
        None => Ok(p),
    }
}

fn with_cid(
    p: Vec<(String, String)>,
    client_id: Option<&str>,
) -> (r: Result<Vec<(String, String)>, VenueError>)
    ensures
        list::outcome(r) == with_cid_spec(p.deep_view(), client_id.deep_view()),
{
    let mut p = p;
    match client_id {
        Some(c) => {
            if text::same(c, "") {
                return Ok(p);
            }
            let id = match cid(c) {
                Ok(v) => v,
                Err(e) => {
                    return Err(e);
                },
            };
            list::push(&mut p, (text::owned("newClientOrderId"), id));
            Ok(p)
        },
        None => Ok(p),
    }
}

/// A GTC limit order; amount and price rounded down to the symbol's steps.
pub open spec fn limit_params_spec(
    side: Seq<char>,
    symbol: Seq<char>,
    qty: Double,
    price: Double,
    client_id: Option<Seq<char>>,
    f: Filters,
) -> Result<Seq<(Seq<char>, Seq<char>)>, VenueErrorView> {
    let p = Seq::<(Seq<char>, Seq<char>)>::empty().push(("symbol"@, symbol)).push(("side"@, side)).push(
        ("type"@, "LIMIT"@),
    ).push(
        ("timeInForce"@, "GTC"@),
    ).push(
        ("quantity"@, pyfmt::fixed_stripped_spec(round_qty_spec(f, qty), 8)),
    ).push(
        ("price"@, pyfmt::fixed_stripped_spec(round_price_spec(f, price), 8)),
    );
    with_cid_spec(p, client_id)
}

/// A GTC limit order; amount and price rounded down to the symbol's steps.
pub fn limit_params(
    side: &str,
    symbol: &str,
    qty: Double,
    price: Double,
    client_id: Option<&str>,
    f: Filters,
) -> (r: Result<Vec<(String, String)>, VenueError>)
    ensures
        list::outcome(r) == limit_params_spec(
            side@,
            symbol@,
            qty,
            price,
            client_id.deep_view(),
            f,
        ),
{
    let mut p: Vec<(String, String)> = list::none();
    list::push(&mut p, (text::owned("symbol"), text::owned(symbol)));
    list::push(&mut p, (text::owned("side"), text::owned(side)));
    list::push(&mut p, (text::owned("type"), text::owned("LIMIT")));
    list::push(&mut p, (text::owned("timeInForce"), text::owned("GTC")));
    list::push(&mut p, (text::owned("quantity"), pyfmt::fixed_stripped(round_qty(f, qty), 8)));
    list::push(&mut p, (text::owned("price"), pyfmt::fixed_stripped(round_price(f, price), 8)));
    with_cid(p, client_id)
}

/// Spend `quote` of the quote asset (`quoteOrderQty`, two decimals).
pub open spec fn market_buy_params_spec(
    symbol: Seq<char>,
    quote: Double,
    client_id: Option<Seq<char>>,
) -> Result<Seq<(Seq<char>, Seq<char>)>, VenueErrorView> {
    let p = Seq::<(Seq<char>, Seq<char>)>::empty().push(("symbol"@, symbol)).push(
        ("side"@, "BUY"@),
    ).push(
        ("type"@, "MARKET"@),
    ).push(
        ("quoteOrderQty"@, pyfmt::fixed_spec(quote, 2)),
    );
    with_cid_spec(p, client_id)
}

/// Spend `quote` of the quote asset (`quoteOrderQty`, two decimals).
pub fn market_buy_params(
    symbol: &str,
    quote: Double,
    client_id: Option<&str>,
) -> (r: Result<Vec<(String, String)>, VenueError>)
    ensures
        list::outcome(r) == market_buy_params_spec(symbol@, quote, client_id.deep_view()),
{
    let mut p: Vec<(String, String)> = list::none();
    list::push(&mut p, (text::owned("symbol"), text::owned(symbol)));
    list::push(&mut p, (text::owned("side"), text::owned("BUY")));
    list::push(&mut p, (text::owned("type"), text::owned("MARKET")));
    list::push(&mut p, (text::owned("quoteOrderQty"), pyfmt::fixed(quote, 2)));
    with_cid(p, client_id)
}

/// A market sell; the amount rounded down to the symbol's step.
pub open spec fn market_sell_params_spec(
    symbol: Seq<char>,
    qty: Double,
    client_id: Option<Seq<char>>,
    f: Filters,
) -> Result<Seq<(Seq<char>, Seq<char>)>, VenueErrorView> {
    let p = Seq::<(Seq<char>, Seq<char>)>::empty().push(("symbol"@, symbol)).push(
        ("side"@, "SELL"@),
    ).push(
        ("type"@, "MARKET"@),
    ).push(
        ("quantity"@, pyfmt::fixed_stripped_spec(round_qty_spec(f, qty), 8)),
    );
    with_cid_spec(p, client_id)
}

/// A market sell; the amount rounded down to the symbol's step.
pub fn market_sell_params(
    symbol: &str,
    qty: Double,
    client_id: Option<&str>,
    f: Filters,
) -> (r: Result<Vec<(String, String)>, VenueError>)
    ensures
        list::outcome(r) == market_sell_params_spec(symbol@, qty, client_id.deep_view(), f),
{
    let mut p: Vec<(String, String)> = list::none();
    list::push(&mut p, (text::owned("symbol"), text::owned(symbol)));
    list::push(&mut p, (text::owned("side"), text::owned("SELL")));
    list::push(&mut p, (text::owned("type"), text::owned("MARKET")));
    list::push(&mut p, (text::owned("quantity"), pyfmt::fixed_stripped(round_qty(f, qty), 8)));
    with_cid(p, client_id)
}

/// Which order is meant.
pub open spec fn order_params_spec(
    symbol: Seq<char>,
    order_id: Seq<char>,
) -> Seq<(Seq<char>, Seq<char>)> {
    Seq::<(Seq<char>, Seq<char>)>::empty().push(("symbol"@, symbol)).push(("orderId"@, order_id))
}

/// Which order is meant.
pub fn order_params(symbol: &str, order_id: &str) -> (r: Vec<(String, String)>)
    ensures
        r.deep_view() == order_params_spec(symbol@, order_id@),
{
    let mut p: Vec<(String, String)> = list::none();
    list::push(&mut p, (text::owned("symbol"), text::owned(symbol)));
    list::push(&mut p, (text::owned("orderId"), text::owned(order_id)));
    p
}

/// The last price and its change in percent, from the answer to the 24h ticker.
pub open spec fn read_ticker_spec(
    symbol: Seq<char>,
    reply: ReplyView,
) -> Result<(Double, Double), VenueErrorView> {
    let b = body_of_spec(reply);
    if !(reply.status == Some(200u16) && b is Obj) {
        Err(failed_spec("ticker "@ + symbol, reply))
    } else {
        match needed_spec(b, "lastPrice"@) {
            Ok(px) => match needed_spec(b, "priceChangePercent"@) {
                Ok(change) => Ok((px, change)),
                Err(e) => Err(e),
            },
            Err(e) => Err(e),
        }
    }
}

/// The last price and its change in percent, from the answer to the 24h ticker.
pub fn read_ticker(symbol: &str, reply: &Reply) -> (r: Result<(Double, Double), VenueError>)
    ensures
        list::outcome(r) == read_ticker_spec(symbol@, reply.deep_view()),
{
    let b = body_of(reply);
    if !(http::has_status(reply, 200) && b.is_obj()) {
        let mut line = text::owned("ticker ");
        line.push_str(symbol);
        return Err(failed(line.as_str(), reply));
    }
    let px = match needed(&b, "lastPrice") {
        Ok(v) => v,
        Err(e) => {
            return Err(e);
        },
    };
    let change = match needed(&b, "priceChangePercent") {
        Ok(v) => v,
        Err(e) => {
            return Err(e);
        },
    };
    Ok((px, change))
}

/// The asset a fee was taken in.
pub open spec fn fee_asset_of_spec(fl: Doc) -> Option<Seq<char>> {
    match fl.get("commissionAsset"@) {
        Some(v) => if v.truthy() {
            Some(pyfmt::shown(pyfmt::ordered_doc(v)))
        } else {
            None
        },
        None => None,
    }
}

fn fee_asset_of(fl: &Json) -> (r: Option<String>)
    ensures
        r.deep_view() == fee_asset_of_spec(fl@),
{
    let v = match fl.get("commissionAsset") {
        Some(v) => v,
        None => {
            return None;
        },
    };
    if v.truthy() {
        return Some(pyfmt::value_str(v));
    }
    None
}

/// The fills of an order response.
pub open spec fn fills_of_spec(r: Doc) -> Seq<Doc> {
    match r.get("fills"@) {
        Some(f) => f.items(),
        None => Seq::<Doc>::empty(),
    }
}

fn fills_of(r: &Json) -> (out: Vec<Json>)
    ensures
        out.deep_view() == fills_of_spec(r@),
{
    match r.get("fills") {
        Some(f) => json::items(f),
        None => list::none::<Json>(),
    }
}

/// Of the first `n` fills, up to the first that cannot be read.
pub open spec fn add_fees_spec(
    xs: Seq<Doc>,
    fee: Double,
    asset: Option<Seq<char>>,
    fault: Option<VenueErrorView>,
    n: nat,
) -> (Double, Option<Seq<char>>, Option<VenueErrorView>)
    decreases n,
{
    if n == 0 {
        (fee, asset, fault)
    } else {
        let (fee, asset, fault) = add_fees_spec(xs, fee, asset, fault, (n - 1) as nat);
        let fl = xs[n - 1];
        if fault is None {
            match zero_or_spec(fl, "commission"@) {
                Ok(c) => {
                    let fee = fee.add_spec(c);
                    let asset = if asset is None {
                        fee_asset_of_spec(fl)
                    } else {
                        asset
                    };
                    (fee, asset, fault)
                },
                Err(e) => (fee, asset, Some(e)),
            }
        } else {
            (fee, asset, fault)
        }
    }
}

fn add_fees(
    xs: &Vec<Json>,
    fee: Double,
    asset: Option<String>,
    fault: Option<VenueError>,
) -> (r: (Double, Option<String>, Option<VenueError>))
    ensures
        r.deep_view() == add_fees_spec(
            xs.deep_view(),
            fee,
            asset.deep_view(),
            fault.deep_view(),
            xs@.len(),
        ),
{
    let ghost fee0 = fee;
    let ghost asset0 = asset.deep_view();
    let ghost fault0 = fault.deep_view();
    let mut fee = fee;
    let mut asset = asset;
    let mut fault = fault;
    let mut i: usize = 0;
    while i < xs.len()
        invariant
            i <= xs@.len(),
            (fee, asset.deep_view(), fault.deep_view()) == add_fees_spec(
                xs.deep_view(),
                fee0,
                asset0,
                fault0,
                i as nat,
            ),
        decreases xs@.len() - i,
    {
        let fl = &xs[i];
        if fault.is_none() {
            match zero_or(fl, "commission") {
                Ok(c) => {
                    fee = fee.plus(c);
                    if asset.is_none() {
                        asset = fee_asset_of(fl);
                    }
                },
                Err(e) => {
                    fault = Some(e);
                },
            }
        }
        i = i + 1;
    }
    (fee, asset, fault)
}

/// What the fills cost together, and the first asset that was taken in.
pub open spec fn fees_spec(r: Doc) -> Result<(Double, Option<Seq<char>>), VenueErrorView> {
    let fee = Double::zero_spec();
    let asset: Option<Seq<char>> = None;
    let fault: Option<VenueErrorView> = None;
    let (fee, asset, fault) = add_fees_spec(
        fills_of_spec(r),
        fee,
        asset,
        fault,
        fills_of_spec(r).len(),
    );
    match fault {
        Some(e) => Err(e),
        None => Ok((fee, asset)),
    }
}

fn fees(r: &Json) -> (out: Result<(Double, Option<String>), VenueError>)
    ensures
        list::outcome(out) == fees_spec(r@),
{
    let mut fee = Double::zero();
    let mut asset: Option<String> = None;
    let mut fault: Option<VenueError> = None;
    let (next_fee, next_asset, next_fault) = add_fees(&fills_of(r), fee, asset, fault);
    fee = next_fee;
    asset = next_asset;
    fault = next_fault;
    match fault {
        Some(e) => Err(e),
        None => Ok((fee, asset)),
    }
}

/// Normalise a Binance order or order response.
pub open spec fn parse_order_spec(r: Doc) -> Result<ParsedOrderView, VenueErrorView> {
    match zero_or_spec(r, "executedQty"@) {
        Ok(ex) => match zero_or_spec(r, "cummulativeQuoteQty"@) {
            Ok(cq) => match fees_spec(r) {
                Ok(paid) => match zero_or_spec(r, "price"@) {
                    Ok(price) => match zero_or_spec(r, "origQty"@) {
                        Ok(qty) => {
                            let status = word_of_spec(r, "status"@);
                            let filled = status == "FILLED"@;
                            let avg: Option<Double> = None;
                            let avg = if !ex.eq_spec(Double::zero_spec()) {
                                Some(cq.div_spec(ex))
                            } else {
                                avg
                            };
                            Ok(
                                ParsedOrderView {
                                    order_id: name_of_spec(r, "orderId"@),
                                    filled,
                                    status,
                                    base_qty: Some(ex),
                                    quote: cq,
                                    avg_price: avg,
                                    price: nonzero_spec(price),
                                    fee: paid.0,
                                    fee_asset: paid.1,
                                    side: text::lower_case(name_of_spec(r, "side"@)),
                                    qty,
                                    client_id: word_of_spec(r, "clientOrderId"@),
                                },
                            )
                        },
                        Err(e) => Err(e),
                    },
                    Err(e) => Err(e),
                },
                Err(e) => Err(e),
            },
            Err(e) => Err(e),
        },
        Err(e) => Err(e),
    }
}

/// Normalise a Binance order or order response.
pub fn parse_order(r: &Json) -> (out: Result<ParsedOrder, VenueError>)
    ensures
        list::outcome(out) == parse_order_spec(r@),
{
    let ex = match zero_or(r, "executedQty") {
        Ok(v) => v,
        Err(e) => {
            return Err(e);
        },
    };
    let cq = match zero_or(r, "cummulativeQuoteQty") {
        Ok(v) => v,
        Err(e) => {
            return Err(e);
        },
    };
    let paid = match fees(r) {
        Ok(v) => v,
        Err(e) => {
            return Err(e);
        },
    };
    let price = match zero_or(r, "price") {
        Ok(v) => v,
        Err(e) => {
            return Err(e);
        },
    };
    let qty = match zero_or(r, "origQty") {
        Ok(v) => v,
        Err(e) => {
            return Err(e);
        },
    };
    let status = word_of(r, "status");
    let filled = text::same(status.as_str(), "FILLED");
    let mut avg: Option<Double> = None;
    if !ex.same(Double::zero()) {
        avg = Some(cq.over(ex));
    }
    Ok(
        ParsedOrder {
            order_id: name_of(r, "orderId"),
            filled,
            status,
            base_qty: Some(ex),
            quote: cq,
            avg_price: avg,
            price: nonzero(price),
            fee: paid.0,
            fee_asset: paid.1.dup(),
            side: text::lowercase(name_of(r, "side").as_str()),
            qty,
            client_id: word_of(r, "clientOrderId"),
        },
    )
}

/// The first `n` orders, up to the first that cannot be read.
pub open spec fn add_orders_spec(
    xs: Seq<Doc>,
    out: Seq<ParsedOrderView>,
    fault: Option<VenueErrorView>,
    n: nat,
) -> (Seq<ParsedOrderView>, Option<VenueErrorView>)
    decreases n,
{
    if n == 0 {
        (out, fault)
    } else {
        let (out, fault) = add_orders_spec(xs, out, fault, (n - 1) as nat);
        let row = xs[n - 1];
        if fault is None {
            match parse_order_spec(row) {
                Ok(o) => (out.push(o), fault),
                Err(e) => (out, Some(e)),
            }
        } else {
            (out, fault)
        }
    }
}

fn add_orders(
    xs: &Vec<Json>,
    out: Vec<ParsedOrder>,
    fault: Option<VenueError>,
) -> (r: (Vec<ParsedOrder>, Option<VenueError>))
    ensures
        r.deep_view() == add_orders_spec(
            xs.deep_view(),
            out.deep_view(),
            fault.deep_view(),
            xs@.len(),
        ),
{
    let ghost out0 = out.deep_view();
    let ghost fault0 = fault.deep_view();
    let mut out = out;
    let mut fault = fault;
    let mut i: usize = 0;
    while i < xs.len()
        invariant
            i <= xs@.len(),
            (out.deep_view(), fault.deep_view()) == add_orders_spec(
                xs.deep_view(),
                out0,
                fault0,
                i as nat,
            ),
        decreases xs@.len() - i,
    {
        let row = &xs[i];
        if fault.is_none() {
            match parse_order(row) {
                Ok(o) => {
                    list::push(&mut out, o);
                },
                Err(e) => {
                    fault = Some(e);
                },
            }
        }
        i = i + 1;
    }
    (out, fault)
}

/// The open orders of an answer, which is a list.
pub open spec fn read_open_orders_spec(rows: Doc) -> Result<Seq<ParsedOrderView>, VenueErrorView> {
    if !(rows is Arr) {
        Err(venue::shape_err_spec("binance"@, "open orders: not a list"@))
    } else {
        let out = Seq::<ParsedOrderView>::empty();
        let fault: Option<VenueErrorView> = None;
        let (out, fault) = add_orders_spec(rows.items(), out, fault, rows.items().len());
        match fault {
            Some(e) => Err(e),
            None => Ok(out),
        }
    }
}

/// The open orders of an answer, which is a list.
pub fn read_open_orders(rows: &Json) -> (r: Result<Vec<ParsedOrder>, VenueError>)
    ensures
        list::outcome(r) == read_open_orders_spec(rows@),
{
    if !rows.is_arr() {
        return Err(venue::shape_err("binance", "open orders: not a list"));
    }
    let mut out: Vec<ParsedOrder> = list::none();
    let mut fault: Option<VenueError> = None;
    let (next_out, next_fault) = add_orders(&json::items(rows), out, fault);
    out = next_out;
    fault = next_fault;
    match fault {
        Some(e) => Err(e),
        None => Ok(out),
    }
}

/// The balances of an account answer.
pub open spec fn account_rows_spec(acct: Doc) -> Seq<Doc> {
    match acct.get("balances"@) {
        Some(b) => b.items(),
        None => Seq::<Doc>::empty(),
    }
}

fn account_rows(acct: &Json) -> (r: Vec<Json>)
    ensures
        r.deep_view() == account_rows_spec(acct@),
{
    match acct.get("balances") {
        Some(b) => json::items(b),
        None => list::none::<Json>(),
    }
}

/// The asset a balance is of.
pub open spec fn asset_of_spec(b: Doc) -> Result<Seq<char>, VenueErrorView> {
    match b.get("asset"@) {
        Some(v) => Ok(pyfmt::shown(pyfmt::ordered_doc(v))),
        None => Err(venue::shape_err_spec("binance"@, "'asset'"@)),
    }
}

fn asset_of(b: &Json) -> (r: Result<String, VenueError>)
    ensures
        list::outcome(r) == asset_of_spec(b@),
{
    let v = match b.get("asset") {
        Some(v) => v,
        None => {
            return Err(venue::shape_err("binance", "'asset'"));
        },
    };
    Ok(pyfmt::value_str(v))
}

/// What is free of an asset.
pub open spec fn free_row_spec(b: Doc) -> Result<(Seq<char>, Double), VenueErrorView> {
    match asset_of_spec(b) {
        Ok(asset) => match needed_spec(b, "free"@) {
            Ok(free) => Ok((asset, free)),
            Err(e) => Err(e),
        },
        Err(e) => Err(e),
    }
}

fn free_row(b: &Json) -> (r: Result<(String, Double), VenueError>)
    ensures
        list::outcome(r) == free_row_spec(b@),
{
    let asset = match asset_of(b) {
        Ok(v) => v,
        Err(e) => {
            return Err(e);
        },
    };
    let free = match needed(b, "free") {
        Ok(v) => v,
        Err(e) => {
            return Err(e);
        },
    };
    Ok((asset, free))
}

/// What is held of an asset.
pub open spec fn full_row_spec(b: Doc) -> Result<(Seq<char>, Balance), VenueErrorView> {
    match asset_of_spec(b) {
        Ok(asset) => match needed_spec(b, "free"@) {
            Ok(free) => match needed_spec(b, "locked"@) {
                Ok(locked) => Ok((asset, Balance { free, locked })),
                Err(e) => Err(e),
            },
            Err(e) => Err(e),
        },
        Err(e) => Err(e),
    }
}

fn full_row(b: &Json) -> (r: Result<(String, Balance), VenueError>)
    ensures
        list::outcome(r) == full_row_spec(b@),
{
    let asset = match asset_of(b) {
        Ok(v) => v,
        Err(e) => {
            return Err(e);
        },
    };
    let free = match needed(b, "free") {
        Ok(v) => v,
        Err(e) => {
            return Err(e);
        },
    };
    let locked = match needed(b, "locked") {
        Ok(v) => v,
        Err(e) => {
            return Err(e);
        },
    };
    Ok((asset, Balance { free, locked }))
}

/// Of the first `n` assets, up to the first that cannot be read.
pub open spec fn add_free_rows_spec(
    xs: Seq<Doc>,
    out: Seq<(Seq<char>, Double)>,
    fault: Option<VenueErrorView>,
    n: nat,
) -> (Seq<(Seq<char>, Double)>, Option<VenueErrorView>)
    decreases n,
{
    if n == 0 {
        (out, fault)
    } else {
        let (out, fault) = add_free_rows_spec(xs, out, fault, (n - 1) as nat);
        let row = xs[n - 1];
        if fault is None {
            match free_row_spec(row) {
                Ok(p) => (out.push(p), fault),
                Err(e) => (out, Some(e)),
            }
        } else {
            (out, fault)
        }
    }
}

fn add_free_rows(
    xs: &Vec<Json>,
    out: Vec<(String, Double)>,
    fault: Option<VenueError>,
) -> (r: (Vec<(String, Double)>, Option<VenueError>))
    ensures
        r.deep_view() == add_free_rows_spec(
            xs.deep_view(),
            out.deep_view(),
            fault.deep_view(),
            xs@.len(),
        ),
{
    let ghost out0 = out.deep_view();
    let ghost fault0 = fault.deep_view();
    let mut out = out;
    let mut fault = fault;
    let mut i: usize = 0;
    while i < xs.len()
        invariant
            i <= xs@.len(),
            (out.deep_view(), fault.deep_view()) == add_free_rows_spec(
                xs.deep_view(),
                out0,
                fault0,
                i as nat,
            ),
        decreases xs@.len() - i,
    {
        let row = &xs[i];
        if fault.is_none() {
            match free_row(row) {
                Ok(p) => {
                    list::push(&mut out, p);
                },
                Err(e) => {
                    fault = Some(e);
                },
            }
        }
        i = i + 1;
    }
    (out, fault)
}

/// What is free, by asset, from the account answer.
pub open spec fn read_balances_spec(acct: Doc) -> Result<Seq<(Seq<char>, Double)>, VenueErrorView> {
    let out = Seq::<(Seq<char>, Double)>::empty();
    let fault: Option<VenueErrorView> = None;
    let (out, fault) = add_free_rows_spec(
        account_rows_spec(acct),
        out,
        fault,
        account_rows_spec(acct).len(),
    );
    match fault {
        Some(e) => Err(e),
        None => Ok(out),
    }
}

/// What is free, by asset, from the account answer.
pub fn read_balances(acct: &Json) -> (r: Result<Vec<(String, Double)>, VenueError>)
    ensures
        list::outcome(r) == read_balances_spec(acct@),
{
    let mut out: Vec<(String, Double)> = list::none();
    let mut fault: Option<VenueError> = None;
    let (next_out, next_fault) = add_free_rows(&account_rows(acct), out, fault);
    out = next_out;
    fault = next_fault;
    match fault {
        Some(e) => Err(e),
        None => Ok(out),
    }
}

/// Of the first `n` assets, up to the first that cannot be read.
pub open spec fn add_full_rows_spec(
    xs: Seq<Doc>,
    out: Seq<(Seq<char>, Balance)>,
    fault: Option<VenueErrorView>,
    n: nat,
) -> (Seq<(Seq<char>, Balance)>, Option<VenueErrorView>)
    decreases n,
{
    if n == 0 {
        (out, fault)
    } else {
        let (out, fault) = add_full_rows_spec(xs, out, fault, (n - 1) as nat);
        let row = xs[n - 1];
        if fault is None {
            match full_row_spec(row) {
                Ok(p) => (out.push(p), fault),
                Err(e) => (out, Some(e)),
            }
        } else {
            (out, fault)
        }
    }
}

fn add_full_rows(
    xs: &Vec<Json>,
    out: Vec<(String, Balance)>,
    fault: Option<VenueError>,
) -> (r: (Vec<(String, Balance)>, Option<VenueError>))
    ensures
        r.deep_view() == add_full_rows_spec(
            xs.deep_view(),
            out.deep_view(),
            fault.deep_view(),
            xs@.len(),
        ),
{
    let ghost out0 = out.deep_view();
    let ghost fault0 = fault.deep_view();
    let mut out = out;
    let mut fault = fault;
    let mut i: usize = 0;
    while i < xs.len()
        invariant
            i <= xs@.len(),
            (out.deep_view(), fault.deep_view()) == add_full_rows_spec(
                xs.deep_view(),
                out0,
                fault0,
                i as nat,
            ),
        decreases xs@.len() - i,
    {
        let row = &xs[i];
        if fault.is_none() {
            match full_row(row) {
                Ok(p) => {
                    list::push(&mut out, p);
                },
                Err(e) => {
                    fault = Some(e);
                },
            }
        }
        i = i + 1;
    }
    (out, fault)
}

/// What is free and what resting orders hold, by asset, from the account answer.
pub open spec fn read_balances_full_spec(
    acct: Doc,
) -> Result<Seq<(Seq<char>, Balance)>, VenueErrorView> {
    let out = Seq::<(Seq<char>, Balance)>::empty();
    let fault: Option<VenueErrorView> = None;
    let (out, fault) = add_full_rows_spec(
        account_rows_spec(acct),
        out,
        fault,
        account_rows_spec(acct).len(),
    );
    match fault {
        Some(e) => Err(e),
        None => Ok(out),
    }
}

/// What is free and what resting orders hold, by asset, from the account answer.
pub fn read_balances_full(acct: &Json) -> (r: Result<Vec<(String, Balance)>, VenueError>)
    ensures
        list::outcome(r) == read_balances_full_spec(acct@),
{
    let mut out: Vec<(String, Balance)> = list::none();
    let mut fault: Option<VenueError> = None;
    let (next_out, next_fault) = add_full_rows(&account_rows(acct), out, fault);
    out = next_out;
    fault = next_fault;
    match fault {
        Some(e) => Err(e),
        None => Ok(out),
    }
}

/// A spot price, from the answer to the price ticker.
pub open spec fn read_price_spec(
    symbol: Seq<char>,
    reply: ReplyView,
) -> Result<Double, VenueErrorView> {
    if !(reply.status == Some(200u16)) {
        Err(failed_spec("price "@ + symbol, reply))
    } else {
        needed_spec(body_of_spec(reply), "price"@)
    }
}

/// A spot price, from the answer to the price ticker.
pub fn read_price(symbol: &str, reply: &Reply) -> (r: Result<Double, VenueError>)
    ensures
        list::outcome(r) == read_price_spec(symbol@, reply.deep_view()),
{
    if !http::has_status(reply, 200) {
        let mut line = text::owned("price ");
        line.push_str(symbol);
        return Err(failed(line.as_str(), reply));
    }
    needed(&body_of(reply), "price")
}

/// The smallest order of a symbol.
pub open spec fn limits_spec(f: Filters) -> Limits {
    Limits { min_base: f.min_qty, min_quote: f.min_notional }
}

/// The smallest order of a symbol.
pub fn limits(f: Filters) -> (r: Limits)
    ensures
        r == limits_spec(f),
{
    Limits { min_base: f.min_qty, min_quote: f.min_notional }
}

/// Where the account is read.
pub const ACCOUNT: &'static str = "/api/v3/account";

/// Where orders are placed, read and cancelled.
pub const ORDER: &'static str = "/api/v3/order";

/// Where resting orders are listed.
pub const OPEN_ORDERS: &'static str = "/api/v3/openOrders";

/// The read of a symbol's filters.
pub fn filters(symbol: &str) -> (r: Request)
    ensures
        r.deep_view() == public_call_spec("/api/v3/exchangeInfo?symbol="@ + symbol@),
{
    public_call(text::cat("/api/v3/exchangeInfo?symbol=", symbol).as_str())
}

/// The read of a symbol's price and how it moved in a day.
pub fn ticker(symbol: &str) -> (r: Request)
    ensures
        r.deep_view() == public_call_spec("/api/v3/ticker/24hr?symbol="@ + symbol@),
{
    public_call(text::cat("/api/v3/ticker/24hr?symbol=", symbol).as_str())
}

/// The read of a symbol's price.
pub fn price(symbol: &str) -> (r: Request)
    ensures
        r.deep_view() == public_call_spec("/api/v3/ticker/price?symbol="@ + symbol@),
{
    public_call(text::cat("/api/v3/ticker/price?symbol=", symbol).as_str())
}

impl Binance {
    /// The read of the account.
    pub fn account(&self, now: Double) -> (r: Request)
        ensures
            r.deep_view() == signed_call_spec(
                self.deep_view(),
                "GET"@,
                ACCOUNT@,
                Seq::<(Seq<char>, Seq<char>)>::empty(),
                now,
            ),
    {
        self.signed("GET", ACCOUNT, list::none::<(String, String)>(), now)
    }

    /// The read of one order.
    pub fn order_status(&self, symbol: &str, order_id: &str, now: Double) -> (r: Request)
        ensures
            r.deep_view() == signed_call_spec(
                self.deep_view(),
                "GET"@,
                ORDER@,
                order_params_spec(symbol@, order_id@),
                now,
            ),
    {
        self.signed("GET", ORDER, order_params(symbol, order_id), now)
    }

    /// The read of what rests for a symbol.
    pub fn open_orders(&self, symbol: &str, now: Double) -> (r: Request)
        ensures
            r.deep_view() == signed_call_spec(
                self.deep_view(),
                "GET"@,
                OPEN_ORDERS@,
                seq![("symbol"@, symbol@)],
                now,
            ),
    {
        let mut p: Vec<(String, String)> = Vec::new();
        p.push((text::owned("symbol"), text::owned(symbol)));
        assert(p.deep_view() =~= seq![("symbol"@, symbol@)]);
        self.signed("GET", OPEN_ORDERS, p, now)
    }

    /// The cancel of one order.
    pub fn cancel(&self, symbol: &str, order_id: &str, now: Double) -> (r: Request)
        ensures
            r.deep_view() == signed_call_spec(
                self.deep_view(),
                "DELETE"@,
                ORDER@,
                order_params_spec(symbol@, order_id@),
                now,
            ),
    {
        self.signed("DELETE", ORDER, order_params(symbol, order_id), now)
    }

    /// An order as it is sent.
    pub fn order(&self, params: Vec<(String, String)>, now: Double) -> (r: Request)
        ensures
            r.deep_view() == signed_call_spec(
                self.deep_view(),
                "POST"@,
                ORDER@,
                params.deep_view(),
                now,
            ),
    {
        self.signed("POST", ORDER, params, now)
    }
}

impl Binance {
    /// The signed query string for `params` at `ts_ms`.
    pub fn signed_query(&self, params: Vec<(String, String)>, ts_ms: i64) -> (r: String)
        ensures
            r@ == signed_text_spec(self.creds.secret@, params.deep_view(), ts_ms),
    {
        signed_text(self.creds.secret.as_str(), params, ts_ms)
    }

    /// A signed request at `now`.
    pub fn signed(
        &self,
        method: &str,
        path: &str,
        params: Vec<(String, String)>,
        now: Double,
    ) -> (r: Request)
        ensures
            r.deep_view() == signed_call_spec(
                self.deep_view(),
                method@,
                path@,
                params.deep_view(),
                now,
            ),
    {
        signed_call(self, method, path, params, now)
    }
}

/// The signature covers the whole query, the time and the window included: what is sent is
/// the query, its code under the secret, and nothing else.
pub proof fn law_the_signature_covers_the_query(
    secret: Seq<char>,
    params: Seq<(Seq<char>, Seq<char>)>,
    ts_ms: i64,
)
    ensures
        ({
            let p = params.push(("timestamp"@, text::dec_int(ts_ms as int))).push(
                ("recvWindow"@, "5000"@),
            );
            let qs = pyfmt::query_of(p, p.len());
            signed_text_spec(secret, params, ts_ms) == qs + "&signature="@
                + crypto::hmac_sha256_hex_spec(secret, qs)
        }),
{
}

/// Parameters go in the query string, never in a body, and the query is the signed one.
pub proof fn law_parameters_are_never_a_body(
    b: BinanceView,
    method: Seq<char>,
    path: Seq<char>,
    params: Seq<(Seq<char>, Seq<char>)>,
    now: Double,
)
    ensures
        signed_call_spec(b, method, path, params, now).body is None,
        signed_call_spec(b, method, path, params, now).url == BASE@ + path + "?"@ + signed_text_spec(
            b.creds.secret,
            params,
            now.mul_spec(Double::int_spec(1000)).cast_spec(i64::MIN as int, i64::MAX as int) as i64,
        ),
{
}

/// Rounding to a step goes down, never up, wherever the quotient by the step is not itself rounded
/// up.
pub proof fn law_amounts_round_down(x: Double, step: Double)
    requires
        ({
            let m = x.div_spec(step);
            &&& x.finite() && !x.neg()
            &&& step.finite() && !step.neg() && step.mag() > 0
            &&& m.finite()
            &&& crate::double::scaled(m.mag()) * crate::double::scaled(step.mag())
                <= crate::double::scaled(x.mag()) * crate::double::unit()
        }),
    ensures
        floored_spec(x, step).le_spec(x),
{
    let m = x.div_spec(step);
    let k = m.floor_spec();
    let u = crate::double::unit();
    let s = crate::double::scaled(m.mag());
    let w = crate::double::scaled(step.mag());
    crate::double::lemma_scaled_zero();
    crate::double::lemma_nearest_exists(crate::double::scaled(x.mag()) * u, w);
    assert(u > 0 && s / u * u <= s) by {
        vstd::arithmetic::power2::lemma_pow2_pos(1074);
        vstd::arithmetic::div_mod::lemma_fundamental_div_mod(s as int, u as int);
        assert(s / u * u == u * (s / u)) by (nonlinear_arith);
    }
    crate::double::lemma_nearest_at_most(s / u * u, 1, m.mag());
    crate::double::lemma_nearest_exists(s / u * u, 1);
    if k.mag() < m.mag() {
        crate::double::lemma_scaled_increases(k.mag(), m.mag());
    }
    let t = crate::double::scaled(k.mag());
    assert(t * w <= s * w) by (nonlinear_arith)
        requires
            t <= s,
            w > 0,
    ;
    crate::double::lemma_nearest_at_most(t * w, u, x.mag());
    crate::double::lemma_nearest_exists(t * w, u);
    let r = floored_spec(x, step);
    if r.mag() < x.mag() {
        crate::double::lemma_scaled_increases(r.mag(), x.mag());
    }
}

/// What an order's average price is: none where nothing was executed, else what was paid in the
/// quote asset for one of the base asset, so that it and the base quantity make the quote amount
/// but for rounding.
pub proof fn law_the_average_price_is_quote_per_base(r: Doc)
    ensures
        parse_order_spec(r) matches Ok(p) ==> p.base_qty matches Some(base) && {
            &&& p.avg_price is None <==> base.eq_spec(Double::zero_spec())
            &&& p.avg_price matches Some(avg) ==> base.finite() && p.quote.finite()
                && avg.finite() ==> rounding::grain() * rounding::size(
                avg.amount() * base.amount() - p.quote.amount() * crate::double::unit(),
            ) <= rounding::size(base.amount()) * (rounding::size(avg.amount()) + rounding::least())
        },
{
    if let Ok(p) = parse_order_spec(r) {
        let base = p.base_qty->0;
        if let Some(avg) = p.avg_price {
            if base.finite() && p.quote.finite() && avg.finite() {
                crate::double::lemma_scaled_zero();
                assert(base.amount() != 0);
                rounding::lemma_div_error(p.quote, base);
            }
        }
    }
}

/// Which field of a reply each part of an order is read from.
pub proof fn law_an_order_is_read_from_its_fields(r: Doc)
    ensures
        parse_order_spec(r) matches Ok(p) ==> {
            &&& pyfmt::float_or_zero_spec(r.get("executedQty"@)) == Ok::<Double, Seq<char>>(
                p.base_qty->0,
            )
            &&& pyfmt::float_or_zero_spec(r.get("cummulativeQuoteQty"@)) == Ok::<
                Double,
                Seq<char>,
            >(p.quote)
            &&& pyfmt::float_or_zero_spec(r.get("origQty"@)) == Ok::<Double, Seq<char>>(p.qty)
            &&& p.price matches Some(x) ==> pyfmt::float_or_zero_spec(r.get("price"@)) == Ok::<
                Double,
                Seq<char>,
            >(x) && !x.eq_spec(Double::zero_spec())
            &&& r.get("status"@) == Some(Doc::Str("FILLED"@)) ==> p.filled
            &&& r.get("status"@) is None ==> !p.filled
        },
{
    reveal_strlit("FILLED");
    reveal_strlit("");
    assert("FILLED"@.len() == 6 && ""@.len() == 0);
}

/// Whether every fill's commission is a number that is not negative.
pub open spec fn commissions_are_costs(xs: Seq<Doc>) -> bool {
    forall|i: int|
        0 <= i < xs.len() ==> (pyfmt::float_or_zero_spec(
            (#[trigger] xs[i]).get("commission"@),
        ) matches Ok(c) && c.finite() && c.amount() >= 0)
}

/// The fees of an order are no less than what any of its fills cost.
pub proof fn law_no_fill_costs_more_than_the_fees(
    xs: Seq<Doc>,
    i: int,
    asset: Option<Seq<char>>,
    n: nat,
)
    requires
        0 <= i < n <= xs.len(),
        commissions_are_costs(xs),
    ensures
        ({
            let fee = add_fees_spec(xs, Double::zero_spec(), asset, None, n).0;
            &&& pyfmt::float_or_zero_spec(xs[i].get("commission"@))->Ok_0.le_spec(fee)
        }),
    decreases n,
{
    lemma_fees_add_up(xs, asset, n);
    lemma_fees_add_up(xs, asset, (n - 1) as nat);
    let fee = add_fees_spec(xs, Double::zero_spec(), asset, None, (n - 1) as nat).0;
    let c = pyfmt::float_or_zero_spec(xs[n - 1].get("commission"@))->Ok_0;
    assert(c.finite() && c.amount() >= 0);
    crate::double::lemma_scaled_zero();
    let zero = Double::zero_spec();
    rounding::lemma_infinite_is_last(c);
    if i < n - 1 {
        law_no_fill_costs_more_than_the_fees(xs, i, asset, (n - 1) as nat);
        if fee.finite() {
            rounding::lemma_add_order(zero, c, fee);
            rounding::lemma_add_swaps(c, fee);
            rounding::lemma_exact_sum(zero, fee, fee);
        }
    } else {
        rounding::lemma_add_order(zero, fee, c);
        rounding::lemma_exact_sum(zero, c, c);
    }
}

proof fn lemma_fees_add_up(xs: Seq<Doc>, asset: Option<Seq<char>>, n: nat)
    requires
        n <= xs.len(),
        commissions_are_costs(xs),
    ensures
        add_fees_spec(xs, Double::zero_spec(), asset, None, n).2 is None,
        !add_fees_spec(xs, Double::zero_spec(), asset, None, n).0.nan(),
        add_fees_spec(xs, Double::zero_spec(), asset, None, n).0.amount() >= 0,
    decreases n,
{
    crate::double::lemma_scaled_zero();
    if n > 0 {
        lemma_fees_add_up(xs, asset, (n - 1) as nat);
        let fee = add_fees_spec(xs, Double::zero_spec(), asset, None, (n - 1) as nat).0;
        let c = pyfmt::float_or_zero_spec(xs[n - 1].get("commission"@))->Ok_0;
        assert(c.finite() && c.amount() >= 0);
        let zero = Double::zero_spec();
        rounding::lemma_add_order(zero, fee, c);
        rounding::lemma_exact_sum(zero, c, c);
    }
}

/// An amount loses less than one step to the venue's rounding, but for rounding.
pub proof fn law_rounding_down_loses_less_than_a_step(x: Double, step: Double)
    requires
        x.finite(),
        step.finite(),
        x.amount() >= 0,
        step.amount() > 0,
        x.div_spec(step).finite(),
        0 <= x.div_spec(step).amount() < rounding::grain() * crate::double::unit(),
        floored_spec(x, step).finite(),
    ensures
        floored_spec(x, step).amount() >= 0,
        rounding::grain() * (x.amount() - floored_spec(x, step).amount() - step.amount()) <= 2
            * x.amount() + 2 * step.amount() + floored_spec(x, step).amount() + rounding::least(),
{
    crate::double::lemma_scaled_zero();
    rounding::lemma_whole_steps(x, step);
}

/// A row of the account is read from its own fields: what is free and what is locked.
pub proof fn law_free_and_locked_are_their_own_fields(b: Doc)
    ensures
        full_row_spec(b) matches Ok(r) ==> {
            &&& needed_spec(b, "free"@) == Ok::<Double, VenueErrorView>(r.1.free)
            &&& needed_spec(b, "locked"@) == Ok::<Double, VenueErrorView>(r.1.locked)
            &&& free_row_spec(b) == Ok::<(Seq<char>, Double), VenueErrorView>((r.0, r.1.free))
        },
{
}

/// A limit order says its side, its amount in whole steps and its price in whole ticks, each under its
/// own name.
pub proof fn law_a_limit_order_says_what_it_is(
    side: Seq<char>,
    symbol: Seq<char>,
    qty: Double,
    price: Double,
    client_id: Option<Seq<char>>,
    f: Filters,
)
    ensures
        limit_params_spec(side, symbol, qty, price, client_id, f) matches Ok(p) ==> {
            &&& p.len() >= 6
            &&& p[0] == ("symbol"@, symbol)
            &&& p[1] == ("side"@, side)
            &&& p[2] == ("type"@, "LIMIT"@)
            &&& p[4] == ("quantity"@, pyfmt::fixed_stripped_spec(floored_spec(qty, f.step), 8))
            &&& p[5] == ("price"@, pyfmt::fixed_stripped_spec(floored_spec(price, f.tick), 8))
        },
{
}

/// A market buy spends quote and a market sell gives base, each on its own side.
pub proof fn law_a_market_buy_spends_and_a_market_sell_gives(
    symbol: Seq<char>,
    amount: Double,
    client_id: Option<Seq<char>>,
    f: Filters,
)
    ensures
        market_buy_params_spec(symbol, amount, client_id) matches Ok(p) ==> {
            &&& p.len() >= 4
            &&& p[1] == ("side"@, "BUY"@)
            &&& p[3] == ("quoteOrderQty"@, pyfmt::fixed_spec(amount, 2))
        },
        market_sell_params_spec(symbol, amount, client_id, f) matches Ok(p) ==> {
            &&& p.len() >= 4
            &&& p[1] == ("side"@, "SELL"@)
            &&& p[3] == ("quantity"@, pyfmt::fixed_stripped_spec(floored_spec(amount, f.step), 8))
        },
{
}

} // verus!
