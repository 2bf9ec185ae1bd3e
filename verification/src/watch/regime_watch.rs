//! The regime-shift mail: the flip, the evidence behind it, and what it means for the
//! resting deploy zones, priced against live spot.
//!
//! The message carries three things: how long the new label has held, the data that produced
//! it (BTC against its long averages, breadth, each coin's RUN gate), and where the resting
//! buy zones sit relative to spot, which is what decides whether they will ever fill in the
//! market the label describes.
use crate::double::Double;
use crate::list;
use crate::list::Duplicate;
use crate::rounding;
use crate::text;
use crate::watch::json;
use crate::watch::json::{Doc, Json};
use crate::watch::pyfmt;
use crate::order;
use crate::watch::fields;
use crate::watch::regime_state;
use crate::watch::regime_state::{Shift, ShiftView};
use crate::watch::textwrap;
use crate::watch::{Hints, HintsView};
use vstd::prelude::*;

verus! {

/// What a run prints when there is nothing to announce.
pub const QUIET_LINE: &'static str = "no unannounced regime shift.";

/// The spot price of a pair on a venue, none where it could not be read.
#[derive(Debug)]
pub struct Quote {
    pub venue: String,
    pub pair: String,
    pub price: Option<Double>,
}

/// What a [`Quote`] holds.
pub struct QuoteView {
    pub venue: Seq<char>,
    pub pair: Seq<char>,
    pub price: Option<Double>,
}

impl DeepView for Quote {
    type V = QuoteView;

    open spec fn deep_view(&self) -> QuoteView {
        QuoteView {
            venue: self.venue@,
            pair: self.pair@,
            price: self.price,
        }
    }
}

/// A priced resting order.
#[derive(Debug)]
pub struct Zone {
    pub sym: String,
    /// How far below spot it sits, in percent.
    pub depth: Double,
    pub quote: Double,
}

/// What a [`Zone`] holds.
pub struct ZoneView {
    pub sym: Seq<char>,
    pub depth: Double,
    pub quote: Double,
}

impl DeepView for Zone {
    type V = ZoneView;

    open spec fn deep_view(&self) -> ZoneView {
        ZoneView {
            sym: self.sym@,
            depth: self.depth,
            quote: self.quote,
        }
    }
}

impl Duplicate for Zone {
    fn dup(&self) -> (r: Zone) {
        Zone {
            sym: text::owned(self.sym.as_str()),
            depth: self.depth,
            quote: self.quote,
        }
    }
}

/// The resting deploy zones against spot.
#[derive(Debug)]
pub struct ZonePicture {
    pub rows: Vec<Zone>,
    /// What rests within 10% of spot, 10-20%, 20-30% and over 30% below it.
    pub buckets: Vec<Double>,
    pub total: Double,
}

/// What a [`ZonePicture`] holds.
pub struct ZonePictureView {
    pub rows: Seq<ZoneView>,
    pub buckets: Seq<Double>,
    pub total: Double,
}

impl DeepView for ZonePicture {
    type V = ZonePictureView;

    open spec fn deep_view(&self) -> ZonePictureView {
        ZonePictureView {
            rows: self.rows.deep_view(),
            buckets: self.buckets.deep_view(),
            total: self.total,
        }
    }
}

/// What the first `n` quotes say.
pub open spec fn look_up_spec(
    pair: Seq<char>,
    venue: Seq<char>,
    xs: Seq<QuoteView>,
    found: Option<Double>,
    seen: bool,
    n: nat,
) -> (Option<Double>, bool)
    decreases n,
{
    if n == 0 {
        (found, seen)
    } else {
        let (found, seen) = look_up_spec(pair, venue, xs, found, seen, (n - 1) as nat);
        let q = xs[n - 1];
        if !seen && q.venue == venue && q.pair == pair {
            (q.price, true)
        } else {
            (found, seen)
        }
    }
}

fn look_up(
    pair: &str,
    venue: &str,
    xs: &Vec<Quote>,
    found: Option<Double>,
    seen: bool,
) -> (r: (Option<Double>, bool))
    ensures
        r == look_up_spec(pair@, venue@, xs.deep_view(), found, seen, xs@.len()),
{
    let ghost found0 = found;
    let ghost seen0 = seen;
    let mut found = found;
    let mut seen = seen;
    let mut i: usize = 0;
    while i < xs.len()
        invariant
            i <= xs@.len(),
            (found, seen) == look_up_spec(pair@, venue@, xs.deep_view(), found0, seen0, i as nat),
        decreases xs@.len() - i,
    {
        let q = &xs[i];
        if !seen && text::same(q.venue.as_str(), venue) && text::same(q.pair.as_str(), pair) {
            found = q.price;
            seen = true;
        }
        i = i + 1;
    }
    (found, seen)
}

/// The price that was read for a pair on a venue.
pub open spec fn price_of_spec(
    quotes: Seq<QuoteView>,
    venue: Seq<char>,
    pair: Seq<char>,
) -> Option<Double> {
    let found: Option<Double> = None;
    let seen = false;
    let (found, seen) = look_up_spec(pair, venue, quotes, found, seen, quotes.len());
    found
}

/// The price that was read for a pair on a venue.
pub fn price_of(quotes: &Vec<Quote>, venue: &str, pair: &str) -> (r: Option<Double>)
    ensures
        r == price_of_spec(quotes.deep_view(), venue@, pair@),
{
    let mut found: Option<Double> = None;
    let mut seen = false;
    let (next_found, next_seen) = look_up(pair, venue, quotes, found, seen);
    found = next_found;
    seen = next_seen;
    found
}

/// What the first `n` of them say.
pub open spec fn look_up_known_spec(
    pair: Seq<char>,
    xs: Seq<(Seq<char>, Double)>,
    found: Option<Double>,
    n: nat,
) -> Option<Double> {
    match found {
        Some(v) => Some(v),
        None => list::first_given(
            xs,
            |it: (Seq<char>, Double)| {
                let p = it.0;
                let px = it.1;
                if p == pair {
                    Some(px)
                } else {
                    None
                }
            },
            n,
        ),
    }
}

fn look_up_known(
    pair: &str,
    xs: &Vec<(String, Double)>,
    found: Option<Double>,
) -> (r: Option<Double>)
    ensures
        r == look_up_known_spec(pair@, xs.deep_view(), found, xs@.len()),
{
    let ghost found0 = found;
    let mut found = found;
    let mut i: usize = 0;
    while i < xs.len()
        invariant
            i <= xs@.len(),
            found == look_up_known_spec(pair@, xs.deep_view(), found0, i as nat),
        decreases xs@.len() - i,
    {
        let it = &xs[i];
        let p = it.0.as_str();
        let px = it.1;
        if found.is_none() && text::same(p, pair) {
            found = Some(px);
        }
        assert(xs.deep_view()[i as int] == xs@[i as int].deep_view());
        assert(found == look_up_known_spec(pair@, xs.deep_view(), found0, (i + 1) as nat));
        i = i + 1;
    }
    found
}

/// The price already taken for a pair.
pub open spec fn known_price_spec(
    known: Seq<(Seq<char>, Double)>,
    pair: Seq<char>,
) -> Option<Double> {
    let found: Option<Double> = None;
    look_up_known_spec(pair, known, found, known.len())
}

fn known_price(known: &Vec<(String, Double)>, pair: &str) -> (r: Option<Double>)
    ensures
        r == known_price_spec(known.deep_view(), pair@),
{
    let mut found: Option<Double> = None;
    found = look_up_known(pair, known, found);
    found
}

/// Of the first `n` orders.
pub open spec fn add_sizes_spec(xs: Seq<ZoneView>, out: Seq<Double>, n: nat) -> Seq<Double> {
    out + Seq::new(
        n,
        |i: int| {
            let z = xs[i];
            z.quote
        },
    )
}

fn add_sizes(xs: &Vec<Zone>, out: Vec<Double>) -> (r: Vec<Double>)
    ensures
        r.deep_view() == add_sizes_spec(xs.deep_view(), out.deep_view(), xs@.len()),
{
    let ghost out0 = out.deep_view();
    let mut out = out;
    let mut i: usize = 0;
    while i < xs.len()
        invariant
            i <= xs@.len(),
            out.deep_view() == add_sizes_spec(xs.deep_view(), out0, i as nat),
        decreases xs@.len() - i,
    {
        let z = &xs[i];
        list::push(&mut out, z.quote);
        assert(out.deep_view() =~= add_sizes_spec(xs.deep_view(), out0, (i + 1) as nat));
        i = i + 1;
    }
    out
}

/// What each order is worth.
pub open spec fn sizes_spec(rows: Seq<ZoneView>) -> Seq<Double> {
    add_sizes_spec(rows, Seq::<Double>::empty(), rows.len())
}

fn sizes(rows: &Vec<Zone>) -> (r: Vec<Double>)
    ensures
        r.deep_view() == sizes_spec(rows.deep_view()),
{
    let mut out: Vec<Double> = list::none();
    out = add_sizes(rows, out);
    out
}

/// Of the first `n` orders.
pub open spec fn add_bucket_spec(
    high: Option<Double>,
    low: Option<Double>,
    xs: Seq<ZoneView>,
    total: Double,
    n: nat,
) -> Double
    decreases n,
{
    if n == 0 {
        total
    } else {
        let total = add_bucket_spec(high, low, xs, total, (n - 1) as nat);
        let z = xs[n - 1];
        let below = false;
        let below = match high {
            Some(h) => z.depth.lt_spec(h),
            None => true,
        };
        let over = false;
        let over = match low {
            Some(l) => !z.depth.lt_spec(l),
            None => true,
        };
        if below && over {
            total.add_spec(z.quote)
        } else {
            total
        }
    }
}

fn add_bucket(
    high: Option<Double>,
    low: Option<Double>,
    xs: &Vec<Zone>,
    total: Double,
) -> (r: Double)
    ensures
        r == add_bucket_spec(high, low, xs.deep_view(), total, xs@.len()),
{
    let ghost total0 = total;
    let mut total = total;
    let mut i: usize = 0;
    while i < xs.len()
        invariant
            i <= xs@.len(),
            total == add_bucket_spec(high, low, xs.deep_view(), total0, i as nat),
        decreases xs@.len() - i,
    {
        let z = &xs[i];
        let mut below = false;
        match high {
            Some(h) => {
                below = z.depth.lt(h);
            },
            None => {
                below = true;
            },
        }
        let mut over = false;
        match low {
            Some(l) => {
                over = !z.depth.lt(l);
            },
            None => {
                over = true;
            },
        }
        if below && over {
            total = total.plus(z.quote);
        }
        i = i + 1;
    }
    total
}

/// What rests from `low` percent below spot up to `high`.
pub open spec fn in_bucket_spec(
    rows: Seq<ZoneView>,
    low: Option<Double>,
    high: Option<Double>,
) -> Double {
    add_bucket_spec(high, low, rows, Double::zero_spec(), rows.len())
}

fn in_bucket(rows: &Vec<Zone>, low: Option<Double>, high: Option<Double>) -> (r: Double)
    ensures
        r == in_bucket_spec(rows.deep_view(), low, high),
{
    let mut total = Double::zero();
    total = add_bucket(high, low, rows, total);
    total
}

/// The first `n` orders: the prices taken, the zones, and the first order without a price.
pub open spec fn add_zones_spec(
    quotes: Seq<QuoteView>,
    xs: Seq<Doc>,
    known: Seq<(Seq<char>, Double)>,
    rows: Seq<ZoneView>,
    fault: Option<Seq<char>>,
    n: nat,
) -> (Seq<(Seq<char>, Double)>, Seq<ZoneView>, Option<Seq<char>>)
    decreases n,
{
    if n == 0 {
        (known, rows, fault)
    } else {
        let (known, rows, fault) = add_zones_spec(quotes, xs, known, rows, fault, (n - 1) as nat);
        let o = xs[n - 1];
        if fault is None && o.has_truthy("order_id"@) {
            let pair = fields::text_or_spec(o, "pair"@, ""@);
            let cached = known_price_spec(known, pair);
            let px = cached;
            let px = if px is None {
                price_of_spec(quotes, fields::text_or_spec(o, "exch"@, ""@), pair)
            } else {
                px
            };
            match px {
                Some(spot) => {
                    let known = if cached is None {
                        known.push((pair, spot))
                    } else {
                        known
                    };
                    let (rows, fault) = match fields::float_at_spec(o, "price"@) {
                        Some(price) => {
                            let rows = rows.push(
                                ZoneView {
                                    sym: fields::shown_spec(o, "sym"@, ""@),
                                    depth: Double::int_spec(1).sub_spec(price.div_spec(spot)).mul_spec(
                                        Double::int_spec(100),
                                    ),
                                    quote: fields::float_or_spec(o, "quote"@, Double::zero_spec()),
                                },
                            );
                            (rows, fault)
                        },
                        None => (rows, Some("order "@ + pair + " has no price"@)),
                    };
                    (known, rows, fault)
                },
                None => (known, rows, fault),
            }
        } else {
            (known, rows, fault)
        }
    }
}

fn add_zones(
    quotes: &Vec<Quote>,
    xs: &Vec<Json>,
    known: Vec<(String, Double)>,
    rows: Vec<Zone>,
    fault: Option<String>,
) -> (r: (Vec<(String, Double)>, Vec<Zone>, Option<String>))
    ensures
        r.deep_view() == add_zones_spec(
            quotes.deep_view(),
            xs.deep_view(),
            known.deep_view(),
            rows.deep_view(),
            fault.deep_view(),
            xs@.len(),
        ),
{
    let ghost known0 = known.deep_view();
    let ghost rows0 = rows.deep_view();
    let ghost fault0 = fault.deep_view();
    let mut known = known;
    let mut rows = rows;
    let mut fault = fault;
    let mut i: usize = 0;
    while i < xs.len()
        invariant
            i <= xs@.len(),
            (known.deep_view(), rows.deep_view(), fault.deep_view()) == add_zones_spec(
                quotes.deep_view(),
                xs.deep_view(),
                known0,
                rows0,
                fault0,
                i as nat,
            ),
        decreases xs@.len() - i,
    {
        let o = &xs[i];
        if fault.is_none() && o.has_truthy("order_id") {
            let pair = fields::text_or(o, "pair", "");
            let cached = known_price(&known, pair.as_str());
            let mut px = cached;
            if px.is_none() {
                px = price_of(quotes, fields::text_or(o, "exch", "").as_str(), pair.as_str());
            }
            match px {
                Some(spot) => {
                    if cached.is_none() {
                        list::push(&mut known, (text::owned(pair.as_str()), spot));
                    }
                    match fields::float_at(o, "price") {
                        Some(price) => {
                            list::push(
                                &mut rows,
                                Zone {
                                    sym: fields::shown(o, "sym", ""),
                                    depth: Double::of_int(1).minus(price.over(spot)).times(
                                        Double::of_int(100),
                                    ),
                                    quote: fields::float_or(o, "quote", Double::zero()),
                                },
                            );
                        },
                        None => {
                            let mut line = text::owned("order ");
                            line.push_str(pair.as_str());
                            line.push_str(" has no price");
                            fault = Some(line);
                        },
                    }
                },
                None => {},
            }
        }
        i = i + 1;
    }
    (known, rows, fault)
}

/// Price every open deploy order with an order id against its pair's spot. A pair whose spot
/// could not be read is skipped, and looked up again for its next order.
pub open spec fn zone_picture_spec(
    orders: Seq<Doc>,
    quotes: Seq<QuoteView>,
) -> Result<ZonePictureView, Seq<char>> {
    let known = Seq::<(Seq<char>, Double)>::empty();
    let rows = Seq::<ZoneView>::empty();
    let fault: Option<Seq<char>> = None;
    let (known, rows, fault) = add_zones_spec(quotes, orders, known, rows, fault, orders.len());
    match fault {
        Some(why) => Err(why),
        None => {
            let buckets = Seq::<Double>::empty().push(
                in_bucket_spec(rows, None, Some(Double::int_spec(10))),
            ).push(
                in_bucket_spec(rows, Some(Double::int_spec(10)), Some(Double::int_spec(20))),
            ).push(
                in_bucket_spec(rows, Some(Double::int_spec(20)), Some(Double::int_spec(30))),
            ).push(
                in_bucket_spec(rows, Some(Double::int_spec(30)), None),
            );
            let total = pyfmt::sum_spec(sizes_spec(rows));
            Ok(ZonePictureView { rows, buckets, total })
        },
    }
}

/// Price every open deploy order with an order id against its pair's spot. A pair whose spot
/// could not be read is skipped, and looked up again for its next order.
pub fn zone_picture(orders: &Vec<Json>, quotes: &Vec<Quote>) -> (r: Result<ZonePicture, String>)
    ensures
        list::outcome(r) == zone_picture_spec(orders.deep_view(), quotes.deep_view()),
{
    let mut known: Vec<(String, Double)> = list::none();
    let mut rows: Vec<Zone> = list::none();
    let mut fault: Option<String> = None;
    let (next_known, next_rows, next_fault) = add_zones(quotes, orders, known, rows, fault);
    known = next_known;
    rows = next_rows;
    fault = next_fault;
    match fault {
        Some(why) => Err(why),
        None => {
            let mut buckets: Vec<Double> = list::none();
            list::push(&mut buckets, in_bucket(&rows, None, Some(Double::of_int(10))));
            list::push(
                &mut buckets,
                in_bucket(&rows, Some(Double::of_int(10)), Some(Double::of_int(20))),
            );
            list::push(
                &mut buckets,
                in_bucket(&rows, Some(Double::of_int(20)), Some(Double::of_int(30))),
            );
            list::push(&mut buckets, in_bucket(&rows, Some(Double::of_int(30)), None));
            let total = list::sum(&sizes(&rows));
            Ok(ZonePicture { rows, buckets, total })
        },
    }
}

/// A price of BTC's, whole dollars.
pub open spec fn money0_spec(btc: Option<Doc>, key: Seq<char>) -> Seq<char> {
    match btc {
        Some(b) => pyfmt::comma_spec(fields::float_or_spec(b, key, Double::zero_spec()), 0),
        None => pyfmt::comma_spec(Double::zero_spec(), 0),
    }
}

fn money0(btc: Option<&Json>, key: &str) -> (r: String)
    ensures
        r@ == money0_spec(btc.deep_view(), key@),
{
    match btc {
        Some(b) => pyfmt::comma(fields::float_or(b, key, Double::zero()), 0),
        None => pyfmt::comma(Double::zero(), 0),
    }
}

/// The market report's block.
pub open spec fn report_lines_spec(
    v: Doc,
    epoch: Double,
    verdict: Seq<char>,
    now: Double,
) -> Seq<Seq<char>> {
    let age = now.sub_spec(epoch).div_spec(Double::int_spec(86400));
    let date = fields::shown_spec(v, "date"@, "None"@);
    let confidence = fields::shown_spec(v, "confidence"@, "None"@);
    let green = fields::shown_spec(v, "green_signals"@, "None"@);
    let body = text::join_of(textwrap::wrap_spec(verdict, 76), "\n  "@);
    Seq::<Seq<char>>::empty().push(
        "YOUR MARKET REPORT READ ("@ + date + ", "@ + pyfmt::fixed_spec(age, 0) + "d old)"@,
    ).push(
        "  Confidence bottom is in: "@
            + confidence
            + "/10   ("@
            + green
            + " of 31 signals green)"@,
    ).push(
        "  "@ + body,
    ).push(
        "  This is the broader model. Where it disagrees with the trend label above,"@,
    ).push(
        "  it is the one with valuation, on-chain, funding and sentiment in it."@,
    ).push(
        ""@,
    )
}

fn report_lines(v: &Json, epoch: Double, verdict: &str, now: Double) -> (r: Vec<String>)
    ensures
        r.deep_view() == report_lines_spec(v@, epoch, verdict@, now),
{
    let age = now.minus(epoch).over(Double::of_int(86400));
    let date = fields::shown(v, "date", "None");
    let confidence = fields::shown(v, "confidence", "None");
    let green = fields::shown(v, "green_signals", "None");
    let body = list::join(&textwrap::wrap(verdict, 76), "\n  ");
    let mut lines: Vec<String> = list::none();
    let mut line = text::owned("YOUR MARKET REPORT READ (");
    line.push_str(date.as_str());
    line.push_str(", ");
    line.push_str(pyfmt::fixed(age, 0).as_str());
    line.push_str("d old)");
    list::push(&mut lines, line);
    let mut line2 = text::owned("  Confidence bottom is in: ");
    line2.push_str(confidence.as_str());
    line2.push_str("/10   (");
    line2.push_str(green.as_str());
    line2.push_str(" of 31 signals green)");
    list::push(&mut lines, line2);
    let mut line3 = text::owned("  ");
    line3.push_str(body.as_str());
    list::push(&mut lines, line3);
    list::push(
        &mut lines,
        text::owned("  This is the broader model. Where it disagrees with the trend label above,"),
    );
    list::push(
        &mut lines,
        text::owned("  it is the one with valuation, on-chain, funding and sentiment in it."),
    );
    list::push(&mut lines, text::owned(""));
    lines
}

/// The block of the market report, none where its file is missing or unreadable.
pub open spec fn verdict_block_spec(verdict: Option<Doc>, now: Double) -> Option<Seq<Seq<char>>> {
    match verdict {
        Some(v) => if !(v is Obj) {
            None
        } else {
            let epoch = Some(Double::zero_spec());
            let epoch = match v.get("epoch"@) {
                Some(e) => e.num(),
                None => epoch,
            };
            let said = Some(""@);
            let said = match v.get("verdict"@) {
                Some(t) => t.as_text(),
                None => said,
            };
            match epoch {
                Some(at) => match said {
                    Some(words) => Some(report_lines_spec(v, at, words, now)),
                    None => None,
                },
                None => None,
            }
        },
        None => None,
    }
}

fn verdict_block(verdict: Option<&Json>, now: Double) -> (r: Option<Vec<String>>)
    ensures
        r.deep_view() == verdict_block_spec(verdict.deep_view(), now),
{
    match verdict {
        Some(v) => {
            if !v.is_obj() {
                return None;
            }
            let mut epoch = Some(Double::zero());
            match v.get("epoch") {
                Some(e) => {
                    epoch = e.num();
                },
                None => {},
            }
            let mut said = Some(text::owned(""));
            match v.get("verdict") {
                Some(t) => {
                    said = list::own_text(t.as_str());
                },
                None => {},
            }
            match epoch {
                Some(at) => match said {
                    Some(words) => Some(report_lines(v, at, words.as_str(), now)),
                    None => None,
                },
                None => None,
            }
        },
        None => None,
    }
}

/// Those of the first `n` entries.
pub open spec fn add_hits_spec(
    xs: Seq<(Seq<char>, Doc)>,
    hits: Seq<Seq<char>>,
    n: nat,
) -> Seq<Seq<char>> {
    hits + list::gathered(
        xs,
        |it: (Seq<char>, Doc)| {
            let k = it.0;
            let v = it.1;
            if v == Doc::Bool(true) {
                Some(k)
            } else {
                None
            }
        },
        n,
    )
}

fn add_hits(xs: &Vec<(String, Json)>, hits: Vec<String>) -> (r: Vec<String>)
    ensures
        r.deep_view() == add_hits_spec(xs.deep_view(), hits.deep_view(), xs@.len()),
{
    let ghost hits0 = hits.deep_view();
    let mut hits = hits;
    let mut i: usize = 0;
    while i < xs.len()
        invariant
            i <= xs@.len(),
            hits.deep_view() == add_hits_spec(xs.deep_view(), hits0, i as nat),
        decreases xs@.len() - i,
    {
        let it = &xs[i];
        let k = it.0.as_str();
        let v = &it.1;
        if v.is_true() {
            list::push(&mut hits, text::owned(k));
        }
        assert(hits.deep_view() =~= add_hits_spec(xs.deep_view(), hits0, (i + 1) as nat));
        i = i + 1;
    }
    hits
}

/// The signs that are set.
pub open spec fn sure_hits_spec(signals: Doc) -> Seq<Seq<char>> {
    add_hits_spec(signals.entries(), Seq::<Seq<char>>::empty(), signals.entries().len())
}

fn sure_hits(signals: &Json) -> (r: Vec<String>)
    ensures
        r.deep_view() == sure_hits_spec(signals@),
{
    let mut hits: Vec<String> = list::none();
    hits = add_hits(&json::entries(signals), hits);
    hits
}

/// The line of a coin.
pub open spec fn coin_line_spec(sym: Seq<char>, c: Doc) -> Seq<char> {
    let name = pyfmt::ljust_spec(sym, 5);
    match c.get("error"@) {
        Some(e) => if e.truthy() {
            "    "@ + name + " ERROR "@ + text::first(e.py_str(), 60)
        } else {
            let hits = sure_hits_spec(fields::object_or_spec(c, "signals"@));
            let run = if c.has_truthy("running"@) {
                "RUN "@
            } else {
                "----"@
            };
            "    "@ + name + " "@ + run + " "@ + text::dec(((hits.len() as usize)) as nat) + "/4"@
        },
        None => {
            let hits = sure_hits_spec(fields::object_or_spec(c, "signals"@));
            let run = if c.has_truthy("running"@) {
                "RUN "@
            } else {
                "----"@
            };
            "    "@ + name + " "@ + run + " "@ + text::dec(((hits.len() as usize)) as nat) + "/4"@
        },
    }
}

fn coin_line(sym: &str, c: &Json) -> (r: String)
    ensures
        r@ == coin_line_spec(sym@, c@),
{
    let name = pyfmt::ljust(sym, 5);
    match c.get("error") {
        Some(e) => {
            if e.truthy() {
                let mut line = text::owned("    ");
                line.push_str(name.as_str());
                line.push_str(" ERROR ");
                line.push_str(text::head(e.py_str().as_str(), 60).as_str());
                return line;
            }
        },
        None => {},
    }
    let hits = sure_hits(&fields::object_or(c, "signals"));
    let run = if c.has_truthy("running") {
        "RUN "
    } else {
        "----"
    };
    let mut line2 = text::owned("    ");
    line2.push_str(name.as_str());
    line2.push_str(" ");
    line2.push_str(run);
    line2.push_str(" ");
    line2.push_str(text::dec_u64(hits.len() as u64).as_str());
    line2.push_str("/4");
    line2
}

/// Of the first `n` coins.
pub open spec fn add_coins_spec(
    xs: Seq<(Seq<char>, Doc)>,
    out: Seq<Seq<char>>,
    n: nat,
) -> Seq<Seq<char>> {
    out + Seq::new(
        n,
        |i: int| {
            let it = xs[i];
            let sym = it.0;
            let c = it.1;
            coin_line_spec(sym, c)
        },
    )
}

fn add_coins(xs: &Vec<(String, Json)>, out: Vec<String>) -> (r: Vec<String>)
    ensures
        r.deep_view() == add_coins_spec(xs.deep_view(), out.deep_view(), xs@.len()),
{
    let ghost out0 = out.deep_view();
    let mut out = out;
    let mut i: usize = 0;
    while i < xs.len()
        invariant
            i <= xs@.len(),
            out.deep_view() == add_coins_spec(xs.deep_view(), out0, i as nat),
        decreases xs@.len() - i,
    {
        let it = &xs[i];
        let sym = it.0.as_str();
        let c = &it.1;
        list::push(&mut out, coin_line(sym, c));
        assert(out.deep_view() =~= add_coins_spec(xs.deep_view(), out0, (i + 1) as nat));
        i = i + 1;
    }
    out
}

/// The coins' gates, by symbol.
pub open spec fn coin_lines_spec(reg: Doc) -> Seq<Seq<char>> {
    add_coins_spec(
        list::sorted_entries(fields::object_or_spec(reg, "coins"@).entries()),
        Seq::<Seq<char>>::empty(),
        list::sorted_entries(fields::object_or_spec(reg, "coins"@).entries()).len(),
    )
}

fn coin_lines(reg: &Json) -> (r: Vec<String>)
    ensures
        r.deep_view() == coin_lines_spec(reg@),
{
    let mut out: Vec<String> = list::none();
    out = add_coins(&list::sort_entries(&json::entries(&fields::object_or(reg, "coins"))), out);
    out
}

/// The line of a bucket.
pub open spec fn bucket_line_spec(name: Seq<char>, v: Double, total: Double) -> Seq<char> {
    let pct = if !total.eq_spec(Double::zero_spec()) {
        v.div_spec(total).mul_spec(Double::int_spec(100))
    } else {
        Double::zero_spec()
    };
    "    "@
        + pyfmt::ljust_spec(name, 15)
        + " $"@
        + pyfmt::rjust_spec(pyfmt::comma_spec(v, 2), 9)
        + "  "@
        + pyfmt::rjust_spec(pyfmt::fixed_spec(pct, 1), 5)
        + "%"@
}

fn bucket_line(name: &str, v: Double, total: Double) -> (r: String)
    ensures
        r@ == bucket_line_spec(name@, v, total),
{
    let pct = if !total.same(Double::zero()) {
        v.over(total).times(Double::of_int(100))
    } else {
        Double::zero()
    };
    let mut line = text::owned("    ");
    line.push_str(pyfmt::ljust(name, 15).as_str());
    line.push_str(" $");
    line.push_str(pyfmt::rjust(pyfmt::comma(v, 2).as_str(), 9).as_str());
    line.push_str("  ");
    line.push_str(pyfmt::rjust(pyfmt::fixed(pct, 1).as_str(), 5).as_str());
    line.push_str("%");
    line
}

/// The first `n` buckets.
pub open spec fn add_buckets_spec(
    names: Seq<Seq<char>>,
    total: Double,
    xs: Seq<Double>,
    out: Seq<Seq<char>>,
    n: nat,
) -> Seq<Seq<char>>
    decreases n,
{
    if n == 0 {
        out
    } else {
        let out = add_buckets_spec(names, total, xs, out, (n - 1) as nat);
        let v = xs[n - 1];
        let k = (n - 1) as usize;
        match list::item(names, k) {
            Some(name) => out.push(bucket_line_spec(name, v, total)),
            None => out,
        }
    }
}

fn add_buckets(
    names: &Vec<String>,
    total: Double,
    xs: &Vec<Double>,
    out: Vec<String>,
) -> (r: Vec<String>)
    ensures
        r.deep_view() == add_buckets_spec(
            names.deep_view(),
            total,
            xs.deep_view(),
            out.deep_view(),
            xs@.len(),
        ),
{
    let ghost out0 = out.deep_view();
    let mut out = out;
    let mut i: usize = 0;
    while i < xs.len()
        invariant
            i <= xs@.len(),
            out.deep_view() == add_buckets_spec(
                names.deep_view(),
                total,
                xs.deep_view(),
                out0,
                i as nat,
            ),
        decreases xs@.len() - i,
    {
        let v = xs[i];
        let k: usize = i;
        match list::str_ref(list::at(names, k)) {
            Some(name) => {
                list::push(&mut out, bucket_line(name, v, total));
            },
            None => {},
        }
        i = i + 1;
    }
    out
}

/// The four buckets.
pub open spec fn bucket_lines_spec(z: ZonePictureView) -> Seq<Seq<char>> {
    let names = Seq::<Seq<char>>::empty().push("within 10%"@).push("10-20% below"@).push(
        "20-30% below"@,
    ).push(
        "over 30% below"@,
    );
    let out = Seq::<Seq<char>>::empty();
    let total = z.total;
    add_buckets_spec(names, total, z.buckets, out, z.buckets.len())
}

fn bucket_lines(z: &ZonePicture) -> (r: Vec<String>)
    ensures
        r.deep_view() == bucket_lines_spec(z.deep_view()),
{
    let mut names: Vec<String> = list::none();
    list::push(&mut names, text::owned("within 10%"));
    list::push(&mut names, text::owned("10-20% below"));
    list::push(&mut names, text::owned("20-30% below"));
    list::push(&mut names, text::owned("over 30% below"));
    let mut out: Vec<String> = list::none();
    let total = z.total;
    out = add_buckets(&names, total, &z.buckets, out);
    out
}

/// Of the first `n` orders.
pub open spec fn add_deep_spec(xs: Seq<ZoneView>, out: Seq<ZoneView>, n: nat) -> Seq<ZoneView> {
    out + list::gathered(
        xs,
        |z: ZoneView| if Double::int_spec(20).le_spec(z.depth) {
            Some(ZoneView { sym: z.sym, depth: z.depth, quote: z.quote })
        } else {
            None
        },
        n,
    )
}

fn add_deep(xs: &Vec<Zone>, out: Vec<Zone>) -> (r: Vec<Zone>)
    ensures
        r.deep_view() == add_deep_spec(xs.deep_view(), out.deep_view(), xs@.len()),
{
    let ghost out0 = out.deep_view();
    let mut out = out;
    let mut i: usize = 0;
    while i < xs.len()
        invariant
            i <= xs@.len(),
            out.deep_view() == add_deep_spec(xs.deep_view(), out0, i as nat),
        decreases xs@.len() - i,
    {
        let z = &xs[i];
        if Double::of_int(20).le(z.depth) {
            list::push(
                &mut out,
                Zone { sym: text::owned(z.sym.as_str()), depth: z.depth, quote: z.quote },
            );
        }
        assert(out.deep_view() =~= add_deep_spec(xs.deep_view(), out0, (i + 1) as nat));
        i = i + 1;
    }
    out
}

/// The orders 20% or more below spot.
pub open spec fn deep_rows_spec(rows: Seq<ZoneView>) -> Seq<ZoneView> {
    add_deep_spec(rows, Seq::<ZoneView>::empty(), rows.len())
}

fn deep_rows(rows: &Vec<Zone>) -> (r: Vec<Zone>)
    ensures
        r.deep_view() == deep_rows_spec(rows.deep_view()),
{
    let mut out: Vec<Zone> = list::none();
    out = add_deep(rows, out);
    out
}

/// Of the first `n` orders.
pub open spec fn add_depths_spec(xs: Seq<ZoneView>, out: Seq<Double>, n: nat) -> Seq<Double>
    decreases n,
{
    if n == 0 {
        out
    } else {
        let out = add_depths_spec(xs, out, (n - 1) as nat);
        let z = xs[n - 1];
        out.push(z.depth)
    }
}

fn add_depths(xs: &Vec<Zone>, out: Vec<Double>) -> (r: Vec<Double>)
    ensures
        r.deep_view() == add_depths_spec(xs.deep_view(), out.deep_view(), xs@.len()),
{
    let ghost out0 = out.deep_view();
    let mut out = out;
    let mut i: usize = 0;
    while i < xs.len()
        invariant
            i <= xs@.len(),
            out.deep_view() == add_depths_spec(xs.deep_view(), out0, i as nat),
        decreases xs@.len() - i,
    {
        let z = &xs[i];
        list::push(&mut out, z.depth);
        i = i + 1;
    }
    out
}

/// How far below spot each order sits.
pub open spec fn depths_spec(rows: Seq<ZoneView>) -> Seq<Double> {
    add_depths_spec(rows, Seq::<Double>::empty(), rows.len())
}

fn depths(rows: &Vec<Zone>) -> (r: Vec<Double>)
    ensures
        r.deep_view() == depths_spec(rows.deep_view()),
{
    let mut out: Vec<Double> = list::none();
    out = add_depths(rows, out);
    out
}

proof fn lemma_depths(rows: Seq<ZoneView>, n: nat)
    requires
        n <= rows.len(),
    ensures
        add_depths_spec(rows, Seq::empty(), n).len() == n,
    decreases n,
{
    if n > 0 {
        lemma_depths(rows, (n - 1) as nat);
    }
}

/// The orders, the deepest first.
pub open spec fn deepest_first_spec(rows: Seq<ZoneView>) -> Seq<ZoneView> {
    list::picked(rows, order::sorted_by(rows.len(), order::by_number_down(depths_spec(rows))))
}

fn deepest_first(rows: &Vec<Zone>) -> (r: Vec<Zone>)
    ensures
        r.deep_view() == deepest_first_spec(rows.deep_view()),
{
    let keys = depths(rows);
    proof {
        lemma_depths(rows.deep_view(), rows@.len());
        assert(keys.deep_view() =~= keys@);
    }
    list::pick(rows, &order::number_order_down(&keys))
}

/// The line of a deep order.
pub open spec fn deep_line_spec(z: ZoneView) -> Seq<char> {
    "    "@
        + pyfmt::ljust_spec(z.sym, 5)
        + " -"@
        + pyfmt::rjust_spec(pyfmt::fixed_spec(z.depth, 1), 5)
        + "%  $"@
        + pyfmt::rjust_spec(pyfmt::comma_spec(z.quote, 2), 9)
}

fn deep_line(z: &Zone) -> (r: String)
    ensures
        r@ == deep_line_spec(z.deep_view()),
{
    let mut line = text::owned("    ");
    line.push_str(pyfmt::ljust(z.sym.as_str(), 5).as_str());
    line.push_str(" -");
    line.push_str(pyfmt::rjust(pyfmt::fixed(z.depth, 1).as_str(), 5).as_str());
    line.push_str("%  $");
    line.push_str(pyfmt::rjust(pyfmt::comma(z.quote, 2).as_str(), 9).as_str());
    line
}

/// Of the first `n` orders.
pub open spec fn add_deep_lines_spec(
    xs: Seq<ZoneView>,
    out: Seq<Seq<char>>,
    n: nat,
) -> Seq<Seq<char>> {
    out + Seq::new(
        n,
        |i: int| {
            let z = xs[i];
            deep_line_spec(z)
        },
    )
}

fn add_deep_lines(xs: &Vec<Zone>, out: Vec<String>) -> (r: Vec<String>)
    ensures
        r.deep_view() == add_deep_lines_spec(xs.deep_view(), out.deep_view(), xs@.len()),
{
    let ghost out0 = out.deep_view();
    let mut out = out;
    let mut i: usize = 0;
    while i < xs.len()
        invariant
            i <= xs@.len(),
            out.deep_view() == add_deep_lines_spec(xs.deep_view(), out0, i as nat),
        decreases xs@.len() - i,
    {
        let z = &xs[i];
        list::push(&mut out, deep_line(z));
        assert(out.deep_view() =~= add_deep_lines_spec(xs.deep_view(), out0, (i + 1) as nat));
        i = i + 1;
    }
    out
}

/// The five deepest orders.
pub open spec fn deep_lines_spec(rows: Seq<ZoneView>) -> Seq<Seq<char>> {
    add_deep_lines_spec(
        list::upto(deepest_first_spec(deep_rows_spec(rows)), 5),
        Seq::<Seq<char>>::empty(),
        list::upto(deepest_first_spec(deep_rows_spec(rows)), 5).len(),
    )
}

fn deep_lines(rows: &Vec<Zone>) -> (r: Vec<String>)
    ensures
        r.deep_view() == deep_lines_spec(rows.deep_view()),
{
    let mut out: Vec<String> = list::none();
    out = add_deep_lines(&list::head(&deepest_first(&deep_rows(rows)), 5), out);
    out
}

/// What the label means for the resting orders.
pub open spec fn zone_lines_spec(zone: Result<ZonePictureView, Seq<char>>) -> Seq<Seq<char>> {
    let l = Seq::<Seq<char>>::empty();
    match zone {
        Ok(z) => {
            let l = l.push("WHAT IT MEANS FOR YOUR ORDERS"@);
            let l = l.push(
                "  "@
                    + text::dec(((z.rows.len() as usize)) as nat)
                    + " resting deploy zones, $"@
                    + pyfmt::comma_spec(z.total, 2)
                    + ", priced below spot:"@,
            );
            let l = l + bucket_lines_spec(z);
            let l = if !(deep_rows_spec(z.rows).len() == 0) {
                let l = l.push(""@);
                let l = l.push("  deepest rungs (least likely to fill in a climb):"@);
                l + deep_lines_spec(z.rows)
            } else {
                l
            };
            l.push(""@)
        },
        Err(e) => {
            let l = l.push("  (zone read failed: "@ + e + ")"@);
            l.push(""@)
        },
    }
}

fn zone_lines(zone: &Result<ZonePicture, String>) -> (r: Vec<String>)
    ensures
        r.deep_view() == zone_lines_spec(list::outcome(*zone)),
{
    let mut l: Vec<String> = list::none();
    match zone {
        Ok(z) => {
            list::push(&mut l, text::owned("WHAT IT MEANS FOR YOUR ORDERS"));
            let mut line = text::owned("  ");
            line.push_str(text::dec_u64(z.rows.len() as u64).as_str());
            line.push_str(" resting deploy zones, $");
            line.push_str(pyfmt::comma(z.total, 2).as_str());
            line.push_str(", priced below spot:");
            list::push(&mut l, line);
            l = list::joined(l, bucket_lines(z));
            if !(deep_rows(&z.rows).len() == 0) {
                list::push(&mut l, text::owned(""));
                list::push(
                    &mut l,
                    text::owned("  deepest rungs (least likely to fill in a climb):"),
                );
                l = list::joined(l, deep_lines(&z.rows));
            }
            list::push(&mut l, text::owned(""));
        },
        Err(e) => {
            let mut line2 = text::owned("  (zone read failed: ");
            line2.push_str(e.as_str());
            line2.push_str(")");
            list::push(&mut l, line2);
            list::push(&mut l, text::owned(""));
        },
    }
    l
}

/// What the data says.
pub open spec fn data_lines_spec(reg: Doc) -> Seq<Seq<char>> {
    let btc = reg.get("btc"@);
    let breadth = fields::shown_spec(reg, "breadth_above_sma30"@, "?"@);
    let l = Seq::<Seq<char>>::empty().push("WHAT THE DATA SAYS"@).push(
        "  BTC $"@
            + money0_spec(btc, "px"@)
            + " vs SMA100 $"@
            + money0_spec(btc, "sma100"@)
            + " / SMA200 $"@
            + money0_spec(btc, "sma200"@),
    ).push(
        "  breadth "@ + breadth + " coins above their own 30d SMA"@,
    ).push(
        "  (that is the WHOLE model: BTC trend + breadth. No valuation, flows, on-chain, funding or sentiment. One trend filter, not a cycle call.)"@,
    ).push(
        ""@,
    ).push(
        "  per-coin RUN gate (4 signs: above 30d SMA, +25% 30d, fresh 30d high, higher lows)"@,
    );
    let l = l + coin_lines_spec(reg);
    l.push(""@)
}

fn data_lines(reg: &Json) -> (r: Vec<String>)
    ensures
        r.deep_view() == data_lines_spec(reg@),
{
    let btc = reg.get("btc");
    let breadth = fields::shown(reg, "breadth_above_sma30", "?");
    let mut l: Vec<String> = list::none();
    list::push(&mut l, text::owned("WHAT THE DATA SAYS"));
    let mut line = text::owned("  BTC $");
    line.push_str(money0(btc, "px").as_str());
    line.push_str(" vs SMA100 $");
    line.push_str(money0(btc, "sma100").as_str());
    line.push_str(" / SMA200 $");
    line.push_str(money0(btc, "sma200").as_str());
    list::push(&mut l, line);
    let mut line2 = text::owned("  breadth ");
    line2.push_str(breadth.as_str());
    line2.push_str(" coins above their own 30d SMA");
    list::push(&mut l, line2);
    list::push(
        &mut l,
        text::owned(
            "  (that is the WHOLE model: BTC trend + breadth. No valuation, flows, on-chain, funding or sentiment. One trend filter, not a cycle call.)",
        ),
    );
    list::push(&mut l, text::owned(""));
    list::push(
        &mut l,
        text::owned(
            "  per-coin RUN gate (4 signs: above 30d SMA, +25% 30d, fresh 30d high, higher lows)",
        ),
    );
    l = list::joined(l, coin_lines(reg));
    list::push(&mut l, text::owned(""));
    l
}

/// How confirmed labels turned out: measured over 3,306 days of BTC dailies (2017-08
/// onwards), 16 events where the BTC leg of the label held 14 straight days.
pub open spec fn rate_lines_spec() -> Seq<Seq<char>> {
    Seq::<Seq<char>>::empty().push(
        "HISTORICAL BASE RATES (BTC, 16 confirmations since 2017 - thin sample)"@,
    ).push(
        "  buying at market on the confirmation day returned, median:"@,
    ).push(
        "    +30d +0.6%   +90d +16.7%   +180d +35.3%"@,
    ).push(
        "  a limit order below that price ever filled within 90d:"@,
    ).push(
        "    -10% 53%   -20% 40%   -30% 20%"@,
    ).push(
        "  Read: the edge is real at 90-180d and absent at 30d. Deep rungs are the"@,
    ).push(
        "  ones that go unfilled in exactly the scenario this label predicts."@,
    ).push(
        ""@,
    )
}

fn rate_lines() -> (r: Vec<String>)
    ensures
        r.deep_view() == rate_lines_spec(),
{
    let mut l: Vec<String> = list::none();
    list::push(
        &mut l,
        text::owned("HISTORICAL BASE RATES (BTC, 16 confirmations since 2017 - thin sample)"),
    );
    list::push(
        &mut l,
        text::owned("  buying at market on the confirmation day returned, median:"),
    );
    list::push(&mut l, text::owned("    +30d +0.6%   +90d +16.7%   +180d +35.3%"));
    list::push(&mut l, text::owned("  a limit order below that price ever filled within 90d:"));
    list::push(&mut l, text::owned("    -10% 53%   -20% 40%   -30% 20%"));
    list::push(
        &mut l,
        text::owned("  Read: the edge is real at 90-180d and absent at 30d. Deep rungs are the"),
    );
    list::push(
        &mut l,
        text::owned("  ones that go unfilled in exactly the scenario this label predicts."),
    );
    list::push(&mut l, text::owned(""));
    l
}

/// Where the market report has written nothing.
pub open spec fn no_report_spec() -> Seq<Seq<char>> {
    Seq::<Seq<char>>::empty().push("YOUR MARKET REPORT READ"@).push(
        "  not available — the market report has not written its verdict file yet"@,
    ).push(
        ""@,
    )
}

fn no_report() -> (r: Vec<String>)
    ensures
        r.deep_view() == no_report_spec(),
{
    let mut l: Vec<String> = list::none();
    list::push(&mut l, text::owned("YOUR MARKET REPORT READ"));
    list::push(
        &mut l,
        text::owned("  not available — the market report has not written its verdict file yet"),
    );
    list::push(&mut l, text::owned(""));
    l
}

/// What can be done.
pub open spec fn option_lines_spec(d: Seq<char>) -> Seq<Seq<char>> {
    Seq::<Seq<char>>::empty().push("OPTIONS (nothing has been changed)"@).push(
        "  inspect     "@ + d + " --status"@,
    ).push(
        "  re-anchor   edit the deploy zone depths in the config, then"@,
    ).push(
        "              "@ + d + " --tranche 0 <venue> [--only SYM]  (cancels those zones and"@,
    ).push(
        "              re-ladders their budget at today's spot; a bare --cancel leaves the"@,
    ).push(
        "              cash idle because total-vs-baseline does not grow)"@,
    ).push(
        "  free cash   "@ + d + " --cancel <venue>   (cancels zones, frees the stable)"@,
    ).push(
        "  hold        do nothing; the ladder keeps working the current rungs"@,
    ).push(
        ""@,
    )
}

fn option_lines(d: &str) -> (r: Vec<String>)
    ensures
        r.deep_view() == option_lines_spec(d@),
{
    let mut l: Vec<String> = list::none();
    list::push(&mut l, text::owned("OPTIONS (nothing has been changed)"));
    let mut line = text::owned("  inspect     ");
    line.push_str(d);
    line.push_str(" --status");
    list::push(&mut l, line);
    list::push(
        &mut l,
        text::owned("  re-anchor   edit the deploy zone depths in the config, then"),
    );
    let mut line2 = text::owned("              ");
    line2.push_str(d);
    line2.push_str(" --tranche 0 <venue> [--only SYM]  (cancels those zones and");
    list::push(&mut l, line2);
    list::push(
        &mut l,
        text::owned(
            "              re-ladders their budget at today's spot; a bare --cancel leaves the",
        ),
    );
    list::push(
        &mut l,
        text::owned("              cash idle because total-vs-baseline does not grow)"),
    );
    let mut line3 = text::owned("  free cash   ");
    line3.push_str(d);
    line3.push_str(" --cancel <venue>   (cancels zones, frees the stable)");
    list::push(&mut l, line3);
    list::push(
        &mut l,
        text::owned("  hold        do nothing; the ladder keeps working the current rungs"),
    );
    list::push(&mut l, text::owned(""));
    l
}

/// Subject and text for a shift. `zone` is the result of [`zone_picture`], `verdict` the
/// market report's file if there is one.
pub open spec fn build_message_spec(
    shift: ShiftView,
    reg: Doc,
    zone: Result<ZonePictureView, Seq<char>>,
    verdict: Option<Doc>,
    now: Double,
    hints: HintsView,
) -> (Seq<char>, Seq<char>) {
    let lab = text::upper_case(shift.label);
    let was = match shift.prev_label {
        Some(p) => text::upper_case(p),
        None => text::upper_case("unknown"@),
    };
    let stage = text::upper_case(shift.stage);
    let l = Seq::<Seq<char>>::empty().push(
        "REGIME "@
            + stage
            + ": "@
            + was
            + " -> "@
            + lab
            + " (held "@
            + text::dec_int(shift.held_days as int)
            + "d, confirms at "@
            + text::dec_int(shift.confirm_days as int)
            + "d)"@,
    ).push(
        ""@,
    );
    let l = l + data_lines_spec(reg);
    let l = l + zone_lines_spec(zone);
    let l = if shift.label == "bull"@ {
        l + rate_lines_spec()
    } else {
        l
    };
    let l = match verdict_block_spec(verdict, now) {
        Some(block) => l + block,
        None => l + no_report_spec(),
    };
    let l = l + option_lines_spec(hints.deploy_cmd);
    let l = l.push(
        "Label history: "@
            + text::dec_int(shift.days_covered as int)
            + "d reconstructed from daily closes."@,
    );
    let subject = "REGIME "@
        + stage
        + ": "@
        + was
        + " -> "@
        + lab
        + " ("@
        + text::dec_int(shift.held_days as int)
        + "d)"@;
    (subject, text::join_of(l, "\n"@))
}

/// Subject and text for a shift. `zone` is the result of [`zone_picture`], `verdict` the
/// market report's file if there is one.
pub fn build_message(
    shift: &Shift,
    reg: &Json,
    zone: &Result<ZonePicture, String>,
    verdict: Option<&Json>,
    now: Double,
    hints: &Hints,
) -> (r: (String, String))
    ensures
        r.deep_view() == build_message_spec(
            shift.deep_view(),
            reg@,
            list::outcome(*zone),
            verdict.deep_view(),
            now,
            hints.deep_view(),
        ),
{
    let lab = text::uppercase(shift.label.as_str());
    let was = match &shift.prev_label {
        Some(p) => {
            let was = text::uppercase(p.as_str());
            was
        },
        None => {
            let was = text::uppercase("unknown");
            was
        },
    };
    let stage = text::uppercase(shift.stage.as_str());
    let mut l: Vec<String> = list::none();
    let mut line = text::owned("REGIME ");
    line.push_str(stage.as_str());
    line.push_str(": ");
    line.push_str(was.as_str());
    line.push_str(" -> ");
    line.push_str(lab.as_str());
    line.push_str(" (held ");
    line.push_str(text::dec_i64(shift.held_days).as_str());
    line.push_str("d, confirms at ");
    line.push_str(text::dec_i64(shift.confirm_days).as_str());
    line.push_str("d)");
    list::push(&mut l, line);
    list::push(&mut l, text::owned(""));
    l = list::joined(l, data_lines(reg));
    l = list::joined(l, zone_lines(zone));
    if text::same(shift.label.as_str(), "bull") {
        l = list::joined(l, rate_lines());
    }
    match verdict_block(verdict, now) {
        Some(block) => {
            l = list::joined(l, block);
        },
        None => {
            l = list::joined(l, no_report());
        },
    }
    l = list::joined(l, option_lines(hints.deploy_cmd.as_str()));
    let mut line2 = text::owned("Label history: ");
    line2.push_str(text::dec_i64(shift.days_covered).as_str());
    line2.push_str("d reconstructed from daily closes.");
    list::push(&mut l, line2);
    let mut subject = text::owned("REGIME ");
    subject.push_str(stage.as_str());
    subject.push_str(": ");
    subject.push_str(was.as_str());
    subject.push_str(" -> ");
    subject.push_str(lab.as_str());
    subject.push_str(" (");
    subject.push_str(text::dec_i64(shift.held_days).as_str());
    subject.push_str("d)");
    (subject, list::join(&l, "\n"))
}

/// What a run of the regime watcher does.
#[derive(Debug)]
pub enum Plan {
    /// Nothing unannounced: print [`QUIET_LINE`].
    Quiet,
    /// Announce this shift (or, on a dry run, print it).
    Announce(Shift),
}

/// What a [`Plan`] says.
#[allow(inconsistent_fields)]
pub enum PlanView {
    Quiet,
    Announce(ShiftView),
}

impl DeepView for Plan {
    type V = PlanView;

    open spec fn deep_view(&self) -> PlanView {
        match self {
            Plan::Quiet => PlanView::Quiet,
            Plan::Announce(a) => PlanView::Announce(a.deep_view()),
        }
    }
}

/// `pending` is the answer of [`regime_state::pending_shift`] on the current history;
/// forcing announces the current stage again when nothing is pending.
pub open spec fn plan_spec(pending: Option<ShiftView>, history: Doc, force: bool) -> PlanView {
    match pending {
        Some(s) => PlanView::Announce(s),
        None => if force {
            PlanView::Announce(regime_state::current_shift_spec(history))
        } else {
            PlanView::Quiet
        },
    }
}

/// `pending` is the answer of [`regime_state::pending_shift`] on the current history;
/// forcing announces the current stage again when nothing is pending.
pub fn plan(pending: Option<Shift>, history: &Json, force: bool) -> (r: Plan)
    ensures
        r.deep_view() == plan_spec(pending.deep_view(), history@, force),
{
    match pending {
        Some(s) => Plan::Announce(s),
        None => {
            if force {
                return Plan::Announce(Shift::current(history));
            }
            Plan::Quiet
        },
    }
}

/// Without a pending shift nothing is mailed, unless it is asked for; a pending shift always is.
pub proof fn law_quiet_without_a_shift(pending: Option<ShiftView>, history: Doc, force: bool)
    ensures
        plan_spec(pending, history, force) is Quiet <==> pending is None && !force,
        pending is Some ==> plan_spec(pending, history, force) == PlanView::Announce(pending->0),
{
}

/// A zone's depth is above zero exactly while it rests under the market, nothing at it, and a hundred
/// percent at most.
pub proof fn law_a_zones_depth_is_below_the_market(
    quotes: Seq<QuoteView>,
    o: Doc,
    known: Seq<(Seq<char>, Double)>,
    rows: Seq<ZoneView>,
    spot: Double,
    price: Double,
)
    requires
        o.has_truthy("order_id"@),
        known_price_spec(known, fields::text_or_spec(o, "pair"@, ""@)) == Some(spot),
        fields::float_at_spec(o, "price"@) == Some(price),
        spot.finite(),
        price.finite(),
        spot.amount() > 0,
        price.amount() >= 0,
        price.div_spec(spot).finite(),
    ensures
        ({
            let r = add_zones_spec(quotes, seq![o], known, rows, None, 1);
            let z = r.1.last();
            &&& r.2 is None
            &&& r.1.len() == rows.len() + 1
            &&& z.quote == fields::float_or_spec(o, "quote"@, Double::zero_spec())
            &&& z.depth.amount() > 0 <==> price.amount() < spot.amount()
            &&& price.amount() == spot.amount() ==> z.depth.amount() == 0
            &&& price.amount() == 0 ==> z.depth.amount() == 100 * crate::double::unit()
            &&& z.depth.amount() <= 100 * crate::double::unit()
        }),
{
    reveal_with_fuel(add_zones_spec, 2);
    rounding::lemma_depth(price, spot);
}

/// A zone counts in the bucket its depth falls into: not under the bucket's floor, and under its
/// ceiling.
pub proof fn law_a_zone_counts_in_its_bucket(
    high: Double,
    low: Double,
    z: ZoneView,
    total: Double,
    after: Double,
)
    requires
        high.finite(),
        low.finite(),
        z.depth.finite(),
        z.quote.finite(),
        total.finite(),
        after.finite(),
        after.amount() == total.amount() + z.quote.amount(),
    ensures
        add_bucket_spec(Some(high), Some(low), seq![z], total, 1).amount() == (if low.amount()
            <= z.depth.amount() < high.amount() {
            after.amount()
        } else {
            total.amount()
        }),
{
    reveal_with_fuel(add_bucket_spec, 2);
    rounding::lemma_exact_sum(total, z.quote, after);
}

} // verus!
