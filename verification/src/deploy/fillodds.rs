//! Fill odds of the resting buy rungs: how much of the stable cash is realistically in
//! play.
//!
//! For every open limit buy in the journal: its gap below today's spot, and how often a
//! daily low reached that gap within H days in the coin's own cached history. Two
//! samples per rung: every start day with a full window ahead ("all"), and start days in
//! the same state as today ("now": the coin's RUN gate as today and BTC above its 100-
//! and 200-day averages). Expected fill = remaining notional x like-now odds.
//!
//! Read-only: nothing is fetched, placed or cancelled. Overlapping windows make the odds
//! a frequency over history, not independent trials; `n` is the number of start days.
//!
//! A partly filled rung counts only its unfilled part.
use crate::deploy;
use crate::double::Double;
use crate::journal;
use crate::journal::{Order, OrderView};
use crate::list;
use crate::list::Duplicate;
use crate::pyfmt;
use crate::rounding;
use crate::text;
use crate::watch::json;
use crate::watch::json::{Doc, Json};
use vstd::prelude::*;

verus! {

/// One day of a series.
#[derive(Debug)]
pub struct Day {
    pub date: Json,
    pub high: Double,
    pub low: Double,
    pub close: Double,
}

/// What a [`Day`] holds.
pub struct DayView {
    pub date: Doc,
    pub high: Double,
    pub low: Double,
    pub close: Double,
}

impl DeepView for Day {
    type V = DayView;

    open spec fn deep_view(&self) -> DayView {
        DayView {
            date: self.date@,
            high: self.high,
            low: self.low,
            close: self.close,
        }
    }
}

impl Duplicate for Day {
    fn dup(&self) -> (r: Day) {
        Day {
            date: self.date.copy(),
            high: self.high,
            low: self.low,
            close: self.close,
        }
    }
}

/// A number in a row of a cached series.
pub open spec fn column_spec(r: Seq<Doc>, k: usize) -> Result<Double, Seq<char>> {
    match list::item(r, k) {
        Some(v) => match pyfmt::float_or_zero_spec(Some(v)) {
            Ok(x) => if v is Null {
                Err("missing column"@)
            } else {
                Ok(x)
            },
            Err(e) => Err(e),
        },
        None => Err("missing column"@),
    }
}

fn column(r: &Vec<Json>, k: usize) -> (out: Result<Double, String>)
    ensures
        list::outcome(out) == column_spec(r.deep_view(), k),
{
    match list::at(r, k) {
        Some(v) => {
            let x = match pyfmt::float_or_zero(Some(v)) {
                Ok(v) => v,
                Err(e) => {
                    return Err(e);
                },
            };
            if v.is_null() {
                return Err(text::owned("missing column"));
            }
            Ok(x)
        },
        None => Err(text::owned("missing column")),
    }
}

/// A row of a cached series.
pub open spec fn day_of_spec(r: Seq<Doc>) -> Result<DayView, Seq<char>> {
    match column_spec(r, 2) {
        Ok(high) => match column_spec(r, 3) {
            Ok(low) => match column_spec(r, 4) {
                Ok(close) => {
                    let date = Doc::obj();
                    let date = match list::item(r, 0) {
                        Some(v) => v,
                        None => Doc::Null,
                    };
                    Ok(DayView { date, high, low, close })
                },
                Err(e) => Err(e),
            },
            Err(e) => Err(e),
        },
        Err(e) => Err(e),
    }
}

fn day_of(r: &Vec<Json>) -> (out: Result<Day, String>)
    ensures
        list::outcome(out) == day_of_spec(r.deep_view()),
{
    let high = match column(r, 2) {
        Ok(v) => v,
        Err(e) => {
            return Err(e);
        },
    };
    let low = match column(r, 3) {
        Ok(v) => v,
        Err(e) => {
            return Err(e);
        },
    };
    let close = match column(r, 4) {
        Ok(v) => v,
        Err(e) => {
            return Err(e);
        },
    };
    let mut date = Json::obj();
    match list::at(r, 0) {
        Some(v) => {
            date = v.copy();
        },
        None => {
            date = Json::Null;
        },
    }
    Ok(Day { date, high, low, close })
}

/// A series that is read, or why it cannot be.
#[derive(Debug)]
pub struct Series {
    pub days: Vec<Day>,
    pub fault: Option<String>,
}

/// What a [`Series`] holds.
pub struct SeriesView {
    pub days: Seq<DayView>,
    pub fault: Option<Seq<char>>,
}

impl DeepView for Series {
    type V = SeriesView;

    open spec fn deep_view(&self) -> SeriesView {
        SeriesView {
            days: self.days.deep_view(),
            fault: self.fault.deep_view(),
        }
    }
}

/// The first `n` rows.
pub open spec fn read_days_spec(
    xs: Seq<Seq<Doc>>,
    days: Seq<DayView>,
    fault: Option<Seq<char>>,
    n: nat,
) -> (Seq<DayView>, Option<Seq<char>>)
    decreases n,
{
    if n == 0 {
        (days, fault)
    } else {
        let (days, fault) = read_days_spec(xs, days, fault, (n - 1) as nat);
        let r = xs[n - 1];
        match day_of_spec(r) {
            Ok(d) => (days.push(d), fault),
            Err(e) => {
                let fault = if fault is None {
                    Some(e)
                } else {
                    fault
                };
                (days, fault)
            },
        }
    }
}

fn read_days(
    xs: &Vec<Vec<Json>>,
    days: Vec<Day>,
    fault: Option<String>,
) -> (r: (Vec<Day>, Option<String>))
    ensures
        r.deep_view() == read_days_spec(
            xs.deep_view(),
            days.deep_view(),
            fault.deep_view(),
            xs@.len(),
        ),
{
    let ghost days0 = days.deep_view();
    let ghost fault0 = fault.deep_view();
    let mut days = days;
    let mut fault = fault;
    let mut i: usize = 0;
    while i < xs.len()
        invariant
            i <= xs@.len(),
            (days.deep_view(), fault.deep_view()) == read_days_spec(
                xs.deep_view(),
                days0,
                fault0,
                i as nat,
            ),
        decreases xs@.len() - i,
    {
        let r = &xs[i];
        match day_of(r) {
            Ok(d) => {
                list::push(&mut days, d);
            },
            Err(e) => {
                if fault.is_none() {
                    fault = Some(e);
                }
            },
        }
        i = i + 1;
    }
    (days, fault)
}

/// A cached series, day by day.
pub open spec fn series_of_spec(rows: Seq<Seq<Doc>>) -> SeriesView {
    let days = Seq::<DayView>::empty();
    let fault: Option<Seq<char>> = None;
    let (days, fault) = read_days_spec(rows, days, fault, rows.len());
    SeriesView { days, fault }
}

fn series_of(rows: &Vec<Vec<Json>>) -> (r: Series)
    ensures
        r.deep_view() == series_of_spec(rows.deep_view()),
{
    let mut days: Vec<Day> = list::none();
    let mut fault: Option<String> = None;
    let (next_days, next_fault) = read_days(rows, days, fault);
    days = next_days;
    fault = next_fault;
    Series { days, fault }
}

/// The files a coin's daily candles are cached in, in the order in which they are read.
pub open spec fn source_files_spec(sym: Seq<char>) -> Seq<Seq<char>> {
    let out = Seq::<Seq<char>>::empty();
    let out = out.push("binance_"@ + sym + "USDT.json"@);
    out.push("gate_"@ + sym + "_USDT.json"@)
}

/// The files a coin's daily candles are cached in, in the order in which they are read.
pub fn source_files(sym: &str) -> (r: Vec<String>)
    ensures
        r.deep_view() == source_files_spec(sym@),
{
    let mut out: Vec<String> = list::none();
    let mut line = text::owned("binance_");
    line.push_str(sym);
    line.push_str("USDT.json");
    list::push(&mut out, line);
    let mut line2 = text::owned("gate_");
    line2.push_str(sym);
    line2.push_str("_USDT.json");
    list::push(&mut out, line2);
    out
}

/// Among the first `n` of them.
pub open spec fn pick_longest_spec(
    xs: Seq<Seq<Seq<Doc>>>,
    longest: usize,
    best: Seq<DayView>,
    fault: Option<Seq<char>>,
    n: nat,
) -> (usize, Seq<DayView>, Option<Seq<char>>)
    decreases n,
{
    if n == 0 {
        (longest, best, fault)
    } else {
        let (longest, best, fault) = pick_longest_spec(xs, longest, best, fault, (n - 1) as nat);
        let rows = xs[n - 1];
        if rows.len() > longest {
            let s = series_of_spec(rows);
            let longest = (rows.len() as usize);
            let best = s.days;
            let fault = if fault is None {
                s.fault
            } else {
                fault
            };
            (longest, best, fault)
        } else {
            (longest, best, fault)
        }
    }
}

fn pick_longest(
    xs: &Vec<Vec<Vec<Json>>>,
    longest: usize,
    best: Vec<Day>,
    fault: Option<String>,
) -> (r: (usize, Vec<Day>, Option<String>))
    ensures
        r.deep_view() == pick_longest_spec(
            xs.deep_view(),
            longest,
            best.deep_view(),
            fault.deep_view(),
            xs@.len(),
        ),
{
    let ghost longest0 = longest;
    let ghost best0 = best.deep_view();
    let ghost fault0 = fault.deep_view();
    let mut longest: usize = longest;
    let mut best = best;
    let mut fault = fault;
    let mut i: usize = 0;
    while i < xs.len()
        invariant
            i <= xs@.len(),
            (longest, best.deep_view(), fault.deep_view()) == pick_longest_spec(
                xs.deep_view(),
                longest0,
                best0,
                fault0,
                i as nat,
            ),
        decreases xs@.len() - i,
    {
        let rows = &xs[i];
        if rows.len() > longest {
            let s = series_of(rows);
            longest = rows.len();
            best = s.days.dup();
            if fault.is_none() {
                fault = s.fault.dup();
            }
        }
        i = i + 1;
    }
    (longest, best, fault)
}

/// The longest of a coin's cached series, ascending; empty without any. The first of two that are
/// as long counts, and one that is longer than those before it has to be readable.
pub open spec fn longest_series_spec(
    sources: Seq<Seq<Seq<Doc>>>,
) -> Result<Seq<DayView>, Seq<char>> {
    let best = Seq::<DayView>::empty();
    let longest = 0;
    let fault: Option<Seq<char>> = None;
    let (longest, best, fault) = pick_longest_spec(sources, longest, best, fault, sources.len());
    match fault {
        Some(e) => Err(e),
        None => Ok(best),
    }
}

/// The longest of a coin's cached series, ascending; empty without any. The first of two that are
/// as long counts, and one that is longer than those before it has to be readable.
pub fn longest_series(sources: &Vec<Vec<Vec<Json>>>) -> (r: Result<Vec<Day>, String>)
    ensures
        list::outcome(r) == longest_series_spec(sources.deep_view()),
{
    let mut best: Vec<Day> = list::none();
    let mut longest: usize = 0;
    let mut fault: Option<String> = None;
    let (next_longest, next_best, next_fault): (usize, Vec<Day>, Option<String>) = pick_longest(
        sources,
        longest,
        best,
        fault,
    );
    longest = next_longest;
    best = next_best;
    fault = next_fault;
    match fault {
        Some(e) => Err(e),
        None => Ok(best),
    }
}

/// What tells a date from others.
pub open spec fn date_key_spec(v: Doc) -> Seq<char> {
    v.dumps(None)
}

fn date_key(v: &Json) -> (r: String)
    ensures
        r@ == date_key_spec(v@),
{
    pyfmt::dumps(v, None)
}

/// Of the first `n` days.
pub open spec fn add_bull_day_spec(
    averages: Seq<(Option<Double>, Option<Double>)>,
    xs: Seq<DayView>,
    out: Seq<Seq<char>>,
    n: nat,
) -> Seq<Seq<char>>
    decreases n,
{
    if n == 0 {
        out
    } else {
        let out = add_bull_day_spec(averages, xs, out, (n - 1) as nat);
        let d = xs[n - 1];
        let k = (n - 1) as usize;
        if k >= 199 {
            match list::item(averages, k) {
                Some(a) => if (match a.0 {
                    Some(v) => v,
                    None => Double::infinity_spec(false),
                }).lt_spec(
                    d.close,
                )
                    && (match a.1 {
                        Some(v) => v,
                        None => Double::infinity_spec(false),
                    }).lt_spec(
                        d.close,
                    ) {
                    out.push(date_key_spec(d.date))
                } else {
                    out
                },
                None => out,
            }
        } else {
            out
        }
    }
}

fn add_bull_day(
    averages: &Vec<(Option<Double>, Option<Double>)>,
    xs: &Vec<Day>,
    out: Vec<String>,
) -> (r: Vec<String>)
    ensures
        r.deep_view() == add_bull_day_spec(
            averages.deep_view(),
            xs.deep_view(),
            out.deep_view(),
            xs@.len(),
        ),
{
    let ghost out0 = out.deep_view();
    let mut out = out;
    let mut i: usize = 0;
    while i < xs.len()
        invariant
            i <= xs@.len(),
            out.deep_view() == add_bull_day_spec(
                averages.deep_view(),
                xs.deep_view(),
                out0,
                i as nat,
            ),
        decreases xs@.len() - i,
    {
        let d = &xs[i];
        let k: usize = i;
        if k >= 199 {
            match list::own(list::at(averages, k)) {
                Some(a) => {
                    if (match a.0 {
                        Some(v) => v,
                        None => Double::infinity(false),
                    }).lt(
                        d.close,
                    )
                        && (match a.1 {
                            Some(v) => v,
                            None => Double::infinity(false),
                        }).lt(
                            d.close,
                        ) {
                        list::push(&mut out, date_key(&d.date));
                    }
                },
                None => {},
            }
        }
        i = i + 1;
    }
    out
}

/// Dates where BTC closed above both its 100- and 200-day averages: `averages` holds both for each
/// day.
pub open spec fn btc_bull_days_spec(
    btc: Seq<DayView>,
    averages: Seq<(Option<Double>, Option<Double>)>,
) -> Seq<Seq<char>> {
    add_bull_day_spec(averages, btc, Seq::<Seq<char>>::empty(), btc.len())
}

/// Dates where BTC closed above both its 100- and 200-day averages: `averages` holds both for each
/// day.
pub fn btc_bull_days(
    btc: &Vec<Day>,
    averages: &Vec<(Option<Double>, Option<Double>)>,
) -> (r: Vec<String>)
    ensures
        r.deep_view() == btc_bull_days_spec(btc.deep_view(), averages.deep_view()),
{
    let mut out: Vec<String> = list::none();
    out = add_bull_day(averages, btc, out);
    out
}

/// The lowest of the next `k` daily lows behind a day.
pub open spec fn low_within(s: Seq<DayView>, i: int, k: nat) -> Double
    decreases k,
{
    if k == 0 {
        Double::infinity_spec(false)
    } else {
        low_within(s, i, (k - 1) as nat).min_spec(s[i + k].low)
    }
}

fn lowest(s: &Vec<Day>, i: usize, horizon: usize) -> (r: Double)
    requires
        i < s@.len(),
        i + horizon < s@.len(),
    ensures
        r == low_within(s.deep_view(), i as int, horizon as nat),
{
    let mut r = Double::infinity(false);
    let mut k: usize = 0;
    let days: usize = s.len();
    while k < horizon
        invariant
            k <= horizon,
            days == s@.len(),
            i + horizon < days,
            r == low_within(s.deep_view(), i as int, k as nat),
        decreases horizon - k,
    {
        k = k + 1;
        assert(s.deep_view()[i + k] == s@[i + k].deep_view());
        r = r.min(s[i + k].low);
    }
    r
}

/// Whether a day can be a start day: thirty days of history behind it, a full window ahead,
/// and, where there is a filter, kept by it.
pub open spec fn starts_at(days: nat, horizon: usize, keep: Option<Seq<bool>>, i: int) -> bool {
    &&& 30 <= i
    &&& i + horizon < days
    &&& keep matches Some(k) ==> i < k.len() && k[i]
}

/// Whether the low of a start day's window reached its target.
pub open spec fn reached(s: Seq<DayView>, gap: Double, horizon: usize, i: int) -> bool {
    low_within(s, i, horizon as nat).le_spec(s[i].close.mul_spec(Double::int_spec(1).add_spec(gap)))
}

/// The hits and the start days among the first `n` days.
pub open spec fn odds_in(
    s: Seq<DayView>,
    gap: Double,
    horizon: usize,
    keep: Option<Seq<bool>>,
    n: nat,
) -> (nat, nat)
    decreases n,
{
    if n == 0 {
        (0, 0)
    } else {
        let (hits, all) = odds_in(s, gap, horizon, keep, (n - 1) as nat);
        if starts_at(s.len(), horizon, keep, n - 1) {
            (
                if reached(s, gap, horizon, n - 1) {
                    hits + 1
                } else {
                    hits
                },
                all + 1,
            )
        } else {
            (hits, all)
        }
    }
}

/// The hits and the start days of a series.
pub open spec fn odds_of(
    s: Seq<DayView>,
    gap: Double,
    horizon: usize,
    keep: Option<Seq<bool>>,
) -> (usize, usize) {
    let (hits, all) = odds_in(s, gap, horizon, keep, s.len());
    (hits as usize, all as usize)
}

/// `(hits, n)`: start days whose next `horizon` daily lows reached close x (1 + gap). With a
/// filter, only the days it keeps count.
pub fn odds(series: &Vec<Day>, gap: Double, horizon: usize, keep: Option<&Vec<bool>>) -> (r: (
    usize,
    usize,
))
    ensures
        r == odds_of(series.deep_view(), gap, horizon, keep.deep_view()),
        r.0 <= r.1 <= series@.len(),
{
    let ghost s = series.deep_view();
    let ghost k = keep.deep_view();
    let mut hits: usize = 0;
    let mut all: usize = 0;
    let mut i: usize = 0;
    let days: usize = series.len();
    while i < days
        invariant
            i <= days,
            days == series@.len(),
            s == series.deep_view(),
            k == keep.deep_view(),
            hits <= all <= i,
            (hits as nat, all as nat) == odds_in(s, gap, horizon, k, i as nat),
        decreases days - i,
    {
        let kept = match keep {
            Some(l) => {
                assert(l.deep_view() =~= l@);
                i < l.len() && l[i]
            },
            None => true,
        };
        if i >= 30 && horizon < days - i && kept {
            assert(s[i as int] == series@[i as int].deep_view());
            all = all + 1;
            let target = series[i].close.times(Double::of_int(1).plus(gap));
            if lowest(series, i, horizon).le(target) {
                hits = hits + 1;
            }
        }
        i = i + 1;
    }
    (hits, all)
}

// ------------------------------------------------------------------ laws
/// The odds are a frequency: never more hits than start days.
pub proof fn law_odds_are_a_frequency(
    s: Seq<DayView>,
    gap: Double,
    horizon: usize,
    keep: Option<Seq<bool>>,
    n: nat,
)
    ensures
        odds_in(s, gap, horizon, keep, n).0 <= odds_in(s, gap, horizon, keep, n).1 <= n,
    decreases n,
{
    if n > 0 {
        law_odds_are_a_frequency(s, gap, horizon, keep, (n - 1) as nat);
    }
}

/// A filter only takes start days away.
pub proof fn law_a_filter_takes_days_away(
    s: Seq<DayView>,
    gap: Double,
    horizon: usize,
    keep: Seq<bool>,
    n: nat,
)
    ensures
        odds_in(s, gap, horizon, Some(keep), n).0 <= odds_in(s, gap, horizon, None, n).0,
        odds_in(s, gap, horizon, Some(keep), n).1 <= odds_in(s, gap, horizon, None, n).1,
    decreases n,
{
    if n > 0 {
        law_a_filter_takes_days_away(s, gap, horizon, keep, (n - 1) as nat);
    }
}

/// An open buy rung: what is left of it, at its price.
#[derive(Debug)]
pub struct OpenBuy {
    pub sym: String,
    pub rung: Option<i64>,
    pub price: Double,
    pub usd: Double,
    pub ts: Option<Double>,
}

/// What a [`OpenBuy`] holds.
pub struct OpenBuyView {
    pub sym: Seq<char>,
    pub rung: Option<i64>,
    pub price: Double,
    pub usd: Double,
    pub ts: Option<Double>,
}

impl DeepView for OpenBuy {
    type V = OpenBuyView;

    open spec fn deep_view(&self) -> OpenBuyView {
        OpenBuyView {
            sym: self.sym@,
            rung: self.rung,
            price: self.price,
            usd: self.usd,
            ts: self.ts,
        }
    }
}

impl Duplicate for OpenBuy {
    fn dup(&self) -> (r: OpenBuy) {
        OpenBuy {
            sym: text::owned(self.sym.as_str()),
            rung: self.rung,
            price: self.price,
            usd: self.usd,
            ts: self.ts,
        }
    }
}

/// The first `n` of them.
pub open spec fn name_buys_spec(
    xs: Seq<(Double, OpenBuyView)>,
    out: Seq<(Seq<char>, OpenBuyView)>,
    n: nat,
) -> Seq<(Seq<char>, OpenBuyView)> {
    out + Seq::new(
        n,
        |i: int| {
            let it = xs[i];
            let b = it.1;
            (b.sym, b)
        },
    )
}

fn name_buys(
    xs: &Vec<(Double, OpenBuy)>,
    out: Vec<(String, OpenBuy)>,
) -> (r: Vec<(String, OpenBuy)>)
    ensures
        r.deep_view() == name_buys_spec(xs.deep_view(), out.deep_view(), xs@.len()),
{
    let ghost out0 = out.deep_view();
    let mut out = out;
    let mut i: usize = 0;
    while i < xs.len()
        invariant
            i <= xs@.len(),
            out.deep_view() == name_buys_spec(xs.deep_view(), out0, i as nat),
        decreases xs@.len() - i,
    {
        let it = &xs[i];
        let b = &it.1;
        list::push(&mut out, (text::owned(b.sym.as_str()), b.dup()));
        assert(out.deep_view() =~= name_buys_spec(xs.deep_view(), out0, (i + 1) as nat));
        i = i + 1;
    }
    out
}

/// The buys, each behind its coin.
pub open spec fn named_buys_spec(bs: Seq<(Double, OpenBuyView)>) -> Seq<(Seq<char>, OpenBuyView)> {
    name_buys_spec(bs, Seq::<(Seq<char>, OpenBuyView)>::empty(), bs.len())
}

fn named_buys(bs: &Vec<(Double, OpenBuy)>) -> (r: Vec<(String, OpenBuy)>)
    ensures
        r.deep_view() == named_buys_spec(bs.deep_view()),
{
    let mut out: Vec<(String, OpenBuy)> = list::none();
    out = name_buys(bs, out);
    out
}

/// The first `n` of them.
pub open spec fn bare_buys_spec(
    xs: Seq<(Seq<char>, OpenBuyView)>,
    out: Seq<OpenBuyView>,
    n: nat,
) -> Seq<OpenBuyView> {
    out + Seq::new(
        n,
        |i: int| {
            let it = xs[i];
            let b = it.1;
            b
        },
    )
}

fn bare_buys(xs: &Vec<(String, OpenBuy)>, out: Vec<OpenBuy>) -> (r: Vec<OpenBuy>)
    ensures
        r.deep_view() == bare_buys_spec(xs.deep_view(), out.deep_view(), xs@.len()),
{
    let ghost out0 = out.deep_view();
    let mut out = out;
    let mut i: usize = 0;
    while i < xs.len()
        invariant
            i <= xs@.len(),
            out.deep_view() == bare_buys_spec(xs.deep_view(), out0, i as nat),
        decreases xs@.len() - i,
    {
        let it = &xs[i];
        let b = &it.1;
        list::push(&mut out, b.dup());
        assert(out.deep_view() =~= bare_buys_spec(xs.deep_view(), out0, (i + 1) as nat));
        i = i + 1;
    }
    out
}

/// The buys alone.
pub open spec fn buys_alone_spec(bs: Seq<(Seq<char>, OpenBuyView)>) -> Seq<OpenBuyView> {
    bare_buys_spec(bs, Seq::<OpenBuyView>::empty(), bs.len())
}

fn buys_alone(bs: &Vec<(String, OpenBuy)>) -> (r: Vec<OpenBuy>)
    ensures
        r.deep_view() == buys_alone_spec(bs.deep_view()),
{
    let mut out: Vec<OpenBuy> = list::none();
    out = bare_buys(bs, out);
    out
}

/// What is left of a buy.
pub open spec fn unfilled_spec(o: OrderView) -> Double {
    (match o.base {
        Some(v) => v,
        None => Double::zero_spec(),
    }).sub_spec(
        journal::booked_spec(o),
    )
}

fn unfilled(o: &Order) -> (r: Double)
    ensures
        r == unfilled_spec(o.deep_view()),
{
    (match o.base {
        Some(v) => v,
        None => Double::zero(),
    }).minus(
        journal::booked(o),
    )
}

/// Of the first `n` rows.
pub open spec fn add_open_rung_spec(
    xs: Seq<OrderView>,
    found: Seq<(Double, OpenBuyView)>,
    n: nat,
) -> Seq<(Double, OpenBuyView)> {
    found + list::gathered(
        xs,
        |o: OrderView| if o.side == "buy"@ && deploy::truthy_num_spec(o.price) {
            let price = match o.price {
                Some(v) => v,
                None => Double::zero_spec(),
            };
            let left = unfilled_spec(o);
            if Double::zero_spec().lt_spec(left) {
                Some(
                    (
                        price.neg_spec(),
                        OpenBuyView {
                            sym: o.sym,
                            rung: o.rung,
                            price,
                            usd: left.mul_spec(price),
                            ts: o.ts,
                        },
                    ),
                )
            } else {
                None
            }
        } else {
            None
        },
        n,
    )
}

fn add_open_rung(xs: &Vec<Order>, found: Vec<(Double, OpenBuy)>) -> (r: Vec<(Double, OpenBuy)>)
    ensures
        r.deep_view() == add_open_rung_spec(xs.deep_view(), found.deep_view(), xs@.len()),
{
    let ghost found0 = found.deep_view();
    let mut found = found;
    let mut i: usize = 0;
    while i < xs.len()
        invariant
            i <= xs@.len(),
            found.deep_view() == add_open_rung_spec(xs.deep_view(), found0, i as nat),
        decreases xs@.len() - i,
    {
        let o = &xs[i];
        if text::same(o.side.as_str(), "buy") && deploy::truthy_num(o.price) {
            let price = match o.price {
                Some(v) => v,
                None => Double::zero(),
            };
            let left = unfilled(o);
            if Double::zero().lt(left) {
                list::push(
                    &mut found,
                    (
                        price.negated(),
                        OpenBuy {
                            sym: text::owned(o.sym.as_str()),
                            rung: o.rung,
                            price,
                            usd: left.times(price),
                            ts: o.ts,
                        },
                    ),
                );
            }
        }
        assert(found.deep_view() =~= add_open_rung_spec(xs.deep_view(), found0, (i + 1) as nat));
        i = i + 1;
    }
    found
}

/// Every open buy with a price and something left to fill, by coin then highest price.
pub open spec fn open_buys_spec(rows: Seq<OrderView>) -> Seq<OpenBuyView> {
    let found = add_open_rung_spec(
        journal::open_rows_spec(rows, None),
        Seq::<(Double, OpenBuyView)>::empty(),
        journal::open_rows_spec(rows, None).len(),
    );
    buys_alone_spec(list::sorted_entries(named_buys_spec(list::sorted_keyed(found))))
}

/// Every open buy with a price and something left to fill, by coin then highest price.
pub fn open_buys(rows: &Vec<Order>) -> (r: Vec<OpenBuy>)
    ensures
        r.deep_view() == open_buys_spec(rows.deep_view()),
{
    let mut found: Vec<(Double, OpenBuy)> = list::none();
    found = add_open_rung(&journal::open_rows(rows, list::text_ref(&None)), found);
    buys_alone(&list::sort_entries(&named_buys(&list::sort_keyed(&found))))
}

/// One horizon's odds for a rung.
#[derive(Clone, Copy, Debug)]
pub struct Odds {
    pub all: Option<Double>,
    pub all_n: usize,
    pub now: Option<Double>,
    pub now_n: usize,
}

impl DeepView for Odds {
    type V = Odds;

    open spec fn deep_view(&self) -> Odds {
        *self
    }
}

/// One rung in the table.
#[derive(Debug)]
pub struct Row {
    pub sym: String,
    pub rung: Option<i64>,
    pub price: Double,
    pub usd: Double,
    pub ts: Option<Double>,
    pub spot: Option<Double>,
    /// Below spot as a fraction (negative); none without spot or history.
    pub gap: Option<Double>,
    pub running: Option<bool>,
    /// By horizon in days.
    pub odds: Vec<(String, Odds)>,
}

/// What a [`Row`] holds.
pub struct RowView {
    pub sym: Seq<char>,
    pub rung: Option<i64>,
    pub price: Double,
    pub usd: Double,
    pub ts: Option<Double>,
    pub spot: Option<Double>,
    pub gap: Option<Double>,
    pub running: Option<bool>,
    pub odds: Seq<(Seq<char>, Odds)>,
}

impl DeepView for Row {
    type V = RowView;

    open spec fn deep_view(&self) -> RowView {
        RowView {
            sym: self.sym@,
            rung: self.rung,
            price: self.price,
            usd: self.usd,
            ts: self.ts,
            spot: self.spot,
            gap: self.gap,
            running: self.running,
            odds: self.odds.deep_view(),
        }
    }
}

/// The whole table.
#[derive(Debug)]
pub struct FillOdds {
    pub horizons: Vec<usize>,
    pub rows: Vec<Row>,
    pub total_usd: Double,
    pub expected_fill_usd: Double,
    pub low_odds_usd: Double,
    pub low_odds: Double,
    pub market: Json,
    pub held_days: Json,
    pub confirmed: Json,
    /// The last day of each series.
    pub cache_last: Vec<(String, Json)>,
}

/// What a [`FillOdds`] holds.
pub struct FillOddsView {
    pub horizons: Seq<usize>,
    pub rows: Seq<RowView>,
    pub total_usd: Double,
    pub expected_fill_usd: Double,
    pub low_odds_usd: Double,
    pub low_odds: Double,
    pub market: Doc,
    pub held_days: Doc,
    pub confirmed: Doc,
    pub cache_last: Seq<(Seq<char>, Doc)>,
}

impl DeepView for FillOdds {
    type V = FillOddsView;

    open spec fn deep_view(&self) -> FillOddsView {
        FillOddsView {
            horizons: self.horizons.deep_view(),
            rows: self.rows.deep_view(),
            total_usd: self.total_usd,
            expected_fill_usd: self.expected_fill_usd,
            low_odds_usd: self.low_odds_usd,
            low_odds: self.low_odds,
            market: self.market@,
            held_days: self.held_days@,
            confirmed: self.confirmed@,
            cache_last: self.cache_last.deep_view(),
        }
    }
}

/// A coin's cached history.
#[derive(Debug)]
pub struct History {
    pub sym: String,
    pub days: Vec<Day>,
    /// The coin's RUN gate on each day.
    pub gates: Vec<bool>,
}

/// What a [`History`] holds.
pub struct HistoryView {
    pub sym: Seq<char>,
    pub days: Seq<DayView>,
    pub gates: Seq<bool>,
}

impl DeepView for History {
    type V = HistoryView;

    open spec fn deep_view(&self) -> HistoryView {
        HistoryView {
            sym: self.sym@,
            days: self.days.deep_view(),
            gates: self.gates.deep_view(),
        }
    }
}

/// A coin's reading in a regime.
pub open spec fn coin_of_spec(regime: Doc, sym: Seq<char>) -> Doc {
    match regime.get("coins"@) {
        Some(coins) => if !(coins is Obj) {
            Doc::obj()
        } else {
            match coins.get(sym) {
                Some(c) => c,
                None => Doc::obj(),
            }
        },
        None => Doc::obj(),
    }
}

fn coin_of(regime: &Json, sym: &str) -> (r: Json)
    ensures
        r@ == coin_of_spec(regime@, sym@),
{
    let coins = match regime.get("coins") {
        Some(v) => v,
        None => {
            return Json::obj();
        },
    };
    if !coins.is_obj() {
        return Json::obj();
    }
    let c = match coins.get(sym) {
        Some(v) => v,
        None => {
            return Json::obj();
        },
    };
    c.copy()
}

/// A coin's price.
pub open spec fn spot_of_spec(regime: Doc, sym: Seq<char>) -> Option<Double> {
    let c = coin_of_spec(regime, sym);
    match c.get("px"@) {
        Some(v) => match v.num() {
            Some(x) => if !x.eq_spec(Double::zero_spec()) {
                Some(x)
            } else {
                None
            },
            None => None,
        },
        None => None,
    }
}

fn spot_of(regime: &Json, sym: &str) -> (r: Option<Double>)
    ensures
        r == spot_of_spec(regime@, sym@),
{
    let c = coin_of(regime, sym);
    let v = match c.get("px") {
        Some(v) => v,
        None => {
            return None;
        },
    };
    let x = match v.num() {
        Some(v) => v,
        None => {
            return None;
        },
    };
    if !x.same(Double::zero()) {
        return Some(x);
    }
    None
}

/// Whether a coin runs.
pub open spec fn runs_spec(regime: Doc, sym: Seq<char>) -> bool {
    let c = coin_of_spec(regime, sym);
    match c.get("running"@) {
        Some(v) => v.truthy(),
        None => false,
    }
}

fn runs(regime: &Json, sym: &str) -> (r: bool)
    ensures
        r == runs_spec(regime@, sym@),
{
    let c = coin_of(regime, sym);
    let v = match c.get("running") {
        Some(v) => v,
        None => {
            return false;
        },
    };
    v.truthy()
}

/// Among the first `n` of them.
pub open spec fn find_history_spec(
    sym: Seq<char>,
    xs: Seq<HistoryView>,
    out: Option<usize>,
    n: nat,
) -> Option<usize>
    decreases n,
{
    if n == 0 {
        out
    } else {
        let out = find_history_spec(sym, xs, out, (n - 1) as nat);
        let h = xs[n - 1];
        let k = (n - 1) as usize;
        if out is None && h.sym == sym {
            Some(k)
        } else {
            out
        }
    }
}

fn find_history(sym: &str, xs: &Vec<History>, out: Option<usize>) -> (r: Option<usize>)
    ensures
        r == find_history_spec(sym@, xs.deep_view(), out, xs@.len()),
{
    let ghost out0 = out;
    let mut out = out;
    let mut i: usize = 0;
    while i < xs.len()
        invariant
            i <= xs@.len(),
            out == find_history_spec(sym@, xs.deep_view(), out0, i as nat),
        decreases xs@.len() - i,
    {
        let h = &xs[i];
        let k: usize = i;
        if out.is_none() && text::same(h.sym.as_str(), sym) {
            out = Some(k);
        }
        i = i + 1;
    }
    out
}

/// Where a coin's history is.
pub open spec fn history_place_spec(hs: Seq<HistoryView>, sym: Seq<char>) -> Option<usize> {
    let out: Option<usize> = None;
    find_history_spec(sym, hs, out, hs.len())
}

fn history_place(hs: &Vec<History>, sym: &str) -> (r: Option<usize>)
    ensures
        r == history_place_spec(hs.deep_view(), sym@),
{
    let mut out: Option<usize> = None;
    out = find_history(sym, hs, out);
    out
}

/// The first `n` days.
pub open spec fn add_like_now_spec(
    bull: Seq<Seq<char>>,
    gates: Seq<bool>,
    want: bool,
    xs: Seq<DayView>,
    out: Seq<bool>,
    n: nat,
) -> Seq<bool> {
    out + Seq::new(
        n,
        |i: int| {
            let d = xs[i];
            let k = i as usize;
            let gate = match list::item(gates, k) {
                Some(v) => v,
                None => false,
            };
            bull.contains(date_key_spec(d.date)) && gate == want
        },
    )
}

fn add_like_now(
    bull: &Vec<String>,
    gates: &Vec<bool>,
    want: bool,
    xs: &Vec<Day>,
    out: Vec<bool>,
) -> (r: Vec<bool>)
    ensures
        r.deep_view() == add_like_now_spec(
            bull.deep_view(),
            gates.deep_view(),
            want,
            xs.deep_view(),
            out.deep_view(),
            xs@.len(),
        ),
{
    let ghost out0 = out.deep_view();
    let mut out = out;
    let mut i: usize = 0;
    while i < xs.len()
        invariant
            i <= xs@.len(),
            out.deep_view() == add_like_now_spec(
                bull.deep_view(),
                gates.deep_view(),
                want,
                xs.deep_view(),
                out0,
                i as nat,
            ),
        decreases xs@.len() - i,
    {
        let d = &xs[i];
        let k: usize = i;
        let gate = match list::own(list::at(gates, k)) {
            Some(v) => v,
            None => false,
        };
        list::push(&mut out, list::holds(bull, date_key(&d.date).as_str()) && gate == want);
        assert(out.deep_view() =~= add_like_now_spec(
            bull.deep_view(),
            gates.deep_view(),
            want,
            xs.deep_view(),
            out0,
            (i + 1) as nat,
        ));
        i = i + 1;
    }
    out
}

/// For each day, whether it was in the same state as today.
pub open spec fn like_now_spec(
    days: Seq<DayView>,
    gates: Seq<bool>,
    bull: Seq<Seq<char>>,
    want: bool,
) -> Seq<bool> {
    add_like_now_spec(bull, gates, want, days, Seq::<bool>::empty(), days.len())
}

fn like_now(days: &Vec<Day>, gates: &Vec<bool>, bull: &Vec<String>, want: bool) -> (r: Vec<bool>)
    ensures
        r.deep_view() == like_now_spec(
            days.deep_view(),
            gates.deep_view(),
            bull.deep_view(),
            want,
        ),
{
    let mut out: Vec<bool> = list::none();
    out = add_like_now(bull, gates, want, days, out);
    out
}

/// A frequency.
pub open spec fn share_spec(hits: usize, all: usize) -> Option<Double> {
    if all > 0 {
        Some((Double::int_spec(hits as int)).div_spec(Double::int_spec(all as int)))
    } else {
        None
    }
}

fn share(hits: usize, all: usize) -> (r: Option<Double>)
    ensures
        r == share_spec(hits, all),
{
    if all > 0 {
        return Some(Double::of_count(hits).over(Double::of_count(all)));
    }
    None
}

/// One horizon's odds.
pub open spec fn horizon_odds_spec(
    days: Seq<DayView>,
    gap: Double,
    h: usize,
    keep: Seq<bool>,
) -> Odds {
    let a = odds_of(days, gap, h, None);
    let l = odds_of(days, gap, h, Some(keep));
    Odds { all: share_spec(a.0, a.1), all_n: a.1, now: share_spec(l.0, l.1), now_n: l.1 }
}

fn horizon_odds(days: &Vec<Day>, gap: Double, h: usize, keep: &Vec<bool>) -> (r: Odds)
    ensures
        r == horizon_odds_spec(days.deep_view(), gap, h, keep.deep_view()),
{
    let a = odds(days, gap, h, list::borrow(&None));
    let l = odds(days, gap, h, Some(keep));
    Odds { all: share(a.0, a.1), all_n: a.1, now: share(l.0, l.1), now_n: l.1 }
}

/// The first `n` of them.
pub open spec fn copy_odds_spec(
    key: Seq<char>,
    o: Odds,
    xs: Seq<(Seq<char>, Odds)>,
    known: bool,
    out: Seq<(Seq<char>, Odds)>,
    n: nat,
) -> (bool, Seq<(Seq<char>, Odds)>)
    decreases n,
{
    if n == 0 {
        (known, out)
    } else {
        let (known, out) = copy_odds_spec(key, o, xs, known, out, (n - 1) as nat);
        let it = xs[n - 1];
        let k = it.0;
        let v = it.1;
        if k == key {
            (true, out.push((k, o)))
        } else {
            (known, out.push((k, v)))
        }
    }
}

fn copy_odds(
    key: &str,
    o: Odds,
    xs: &Vec<(String, Odds)>,
    known: bool,
    out: Vec<(String, Odds)>,
) -> (r: (bool, Vec<(String, Odds)>))
    ensures
        r.deep_view() == copy_odds_spec(
            key@,
            o,
            xs.deep_view(),
            known,
            out.deep_view(),
            xs@.len(),
        ),
{
    let ghost known0 = known;
    let ghost out0 = out.deep_view();
    let mut known = known;
    let mut out = out;
    let mut i: usize = 0;
    while i < xs.len()
        invariant
            i <= xs@.len(),
            (known, out.deep_view()) == copy_odds_spec(
                key@,
                o,
                xs.deep_view(),
                known0,
                out0,
                i as nat,
            ),
        decreases xs@.len() - i,
    {
        let it = &xs[i];
        let k = it.0.as_str();
        let v = it.1;
        if text::same(k, key) {
            known = true;
            list::push(&mut out, (text::owned(k), o));
        } else {
            list::push(&mut out, (text::owned(k), v));
        }
        i = i + 1;
    }
    (known, out)
}

/// The odds with one horizon's written: in its place, or at the end.
pub open spec fn put_odds_spec(
    os: Seq<(Seq<char>, Odds)>,
    key: Seq<char>,
    o: Odds,
) -> Seq<(Seq<char>, Odds)> {
    let out = Seq::<(Seq<char>, Odds)>::empty();
    let known = false;
    let (known, out) = copy_odds_spec(key, o, os, known, out, os.len());
    if !known {
        out.push((key, o))
    } else {
        out
    }
}

fn put_odds(os: &Vec<(String, Odds)>, key: &str, o: Odds) -> (r: Vec<(String, Odds)>)
    ensures
        r.deep_view() == put_odds_spec(os.deep_view(), key@, o),
{
    let mut out: Vec<(String, Odds)> = list::none();
    let mut known = false;
    let (next_known, next_out) = copy_odds(key, o, os, known, out);
    known = next_known;
    out = next_out;
    if !known {
        list::push(&mut out, (text::owned(key), o));
    }
    out
}

/// The first `n` of them.
pub open spec fn add_horizon_spec(
    days: Seq<DayView>,
    gap: Double,
    keep: Seq<bool>,
    xs: Seq<usize>,
    out: Seq<(Seq<char>, Odds)>,
    n: nat,
) -> Seq<(Seq<char>, Odds)>
    decreases n,
{
    if n == 0 {
        out
    } else {
        let out = add_horizon_spec(days, gap, keep, xs, out, (n - 1) as nat);
        let h = xs[n - 1];
        put_odds_spec(out, text::dec(h as nat), horizon_odds_spec(days, gap, h, keep))
    }
}

fn add_horizon(
    days: &Vec<Day>,
    gap: Double,
    keep: &Vec<bool>,
    xs: &Vec<usize>,
    out: Vec<(String, Odds)>,
) -> (r: Vec<(String, Odds)>)
    ensures
        r.deep_view() == add_horizon_spec(
            days.deep_view(),
            gap,
            keep.deep_view(),
            xs.deep_view(),
            out.deep_view(),
            xs@.len(),
        ),
{
    let ghost out0 = out.deep_view();
    let mut out = out;
    let mut i: usize = 0;
    while i < xs.len()
        invariant
            i <= xs@.len(),
            out.deep_view() == add_horizon_spec(
                days.deep_view(),
                gap,
                keep.deep_view(),
                xs.deep_view(),
                out0,
                i as nat,
            ),
        decreases xs@.len() - i,
    {
        let h: usize = xs[i];
        out = put_odds(&out, text::dec_u64(h as u64).as_str(), horizon_odds(days, gap, h, keep));
        i = i + 1;
    }
    out
}

/// The odds by horizon.
pub open spec fn all_odds_spec(
    days: Seq<DayView>,
    gap: Double,
    horizons: Seq<usize>,
    keep: Seq<bool>,
) -> Seq<(Seq<char>, Odds)> {
    add_horizon_spec(days, gap, keep, horizons, Seq::<(Seq<char>, Odds)>::empty(), horizons.len())
}

fn all_odds(
    days: &Vec<Day>,
    gap: Double,
    horizons: &Vec<usize>,
    keep: &Vec<bool>,
) -> (r: Vec<(String, Odds)>)
    ensures
        r.deep_view() == all_odds_spec(
            days.deep_view(),
            gap,
            horizons.deep_view(),
            keep.deep_view(),
        ),
{
    let mut out: Vec<(String, Odds)> = list::none();
    out = add_horizon(days, gap, keep, horizons, out);
    out
}

/// A rung without odds.
pub open spec fn bare_row_spec(b: OpenBuyView) -> RowView {
    RowView {
        sym: b.sym,
        rung: b.rung,
        price: b.price,
        usd: b.usd,
        ts: b.ts,
        spot: None,
        gap: None,
        running: None,
        odds: Seq::<(Seq<char>, Odds)>::empty(),
    }
}

fn bare_row(b: &OpenBuy) -> (r: Row)
    ensures
        r.deep_view() == bare_row_spec(b.deep_view()),
{
    Row {
        sym: text::owned(b.sym.as_str()),
        rung: b.rung,
        price: b.price,
        usd: b.usd,
        ts: b.ts,
        spot: None,
        gap: None,
        running: None,
        odds: list::none::<(String, Odds)>(),
    }
}

/// A rung with its odds.
pub open spec fn row_with_spec(
    b: OpenBuyView,
    px: Double,
    h: HistoryView,
    bull: Seq<Seq<char>>,
    want: bool,
    horizons: Seq<usize>,
) -> RowView {
    let gap = b.price.div_spec(px).sub_spec(Double::int_spec(1));
    let keep = like_now_spec(h.days, h.gates, bull, want);
    RowView {
        sym: b.sym,
        rung: b.rung,
        price: b.price,
        usd: b.usd,
        ts: b.ts,
        spot: Some(px),
        gap: Some(gap),
        running: Some(want),
        odds: all_odds_spec(h.days, gap, horizons, keep),
    }
}

fn row_with(
    b: &OpenBuy,
    px: Double,
    h: &History,
    bull: &Vec<String>,
    want: bool,
    horizons: &Vec<usize>,
) -> (r: Row)
    ensures
        r.deep_view() == row_with_spec(
            b.deep_view(),
            px,
            h.deep_view(),
            bull.deep_view(),
            want,
            horizons.deep_view(),
        ),
{
    let gap = b.price.over(px).minus(Double::of_int(1));
    let keep = like_now(&h.days, &h.gates, bull, want);
    Row {
        sym: text::owned(b.sym.as_str()),
        rung: b.rung,
        price: b.price,
        usd: b.usd,
        ts: b.ts,
        spot: Some(px),
        gap: Some(gap),
        running: Some(want),
        odds: all_odds(&h.days, gap, horizons, &keep),
    }
}

/// A rung with its odds, where there is a history.
pub open spec fn row_from_spec(
    b: OpenBuyView,
    px: Double,
    h: HistoryView,
    bull: Seq<Seq<char>>,
    want: bool,
    horizons: Seq<usize>,
) -> RowView {
    if h.days.len() == 0 {
        bare_row_spec(b)
    } else {
        row_with_spec(b, px, h, bull, want, horizons)
    }
}

fn row_from(
    b: &OpenBuy,
    px: Double,
    h: &History,
    bull: &Vec<String>,
    want: bool,
    horizons: &Vec<usize>,
) -> (r: Row)
    ensures
        r.deep_view() == row_from_spec(
            b.deep_view(),
            px,
            h.deep_view(),
            bull.deep_view(),
            want,
            horizons.deep_view(),
        ),
{
    if h.days.len() == 0 {
        return bare_row(b);
    }
    row_with(b, px, h, bull, want, horizons)
}

/// A rung with its odds, where they can be had.
pub open spec fn row_of_spec(
    b: OpenBuyView,
    regime: Doc,
    hs: Seq<HistoryView>,
    bull: Seq<Seq<char>>,
    horizons: Seq<usize>,
) -> RowView {
    match spot_of_spec(regime, b.sym) {
        Some(px) => match history_place_spec(hs, b.sym) {
            Some(k) => match list::item(hs, k) {
                Some(h) => row_from_spec(b, px, h, bull, runs_spec(regime, b.sym), horizons),
                None => bare_row_spec(b),
            },
            None => bare_row_spec(b),
        },
        None => bare_row_spec(b),
    }
}

fn row_of(
    b: &OpenBuy,
    regime: &Json,
    hs: &Vec<History>,
    bull: &Vec<String>,
    horizons: &Vec<usize>,
) -> (r: Row)
    ensures
        r.deep_view() == row_of_spec(
            b.deep_view(),
            regime@,
            hs.deep_view(),
            bull.deep_view(),
            horizons.deep_view(),
        ),
{
    match spot_of(regime, b.sym.as_str()) {
        Some(px) => match history_place(hs, b.sym.as_str()) {
            Some(k) => match list::at(hs, k) {
                Some(h) => row_from(b, px, h, bull, runs(regime, b.sym.as_str()), horizons),
                None => bare_row(b),
            },
            None => bare_row(b),
        },
        None => bare_row(b),
    }
}

/// Among the first `n` of them.
pub open spec fn find_longest_spec(xs: Seq<usize>, out: usize, n: nat) -> usize
    decreases n,
{
    if n == 0 {
        out
    } else {
        let out = find_longest_spec(xs, out, (n - 1) as nat);
        let h = xs[n - 1];
        if h > out {
            h
        } else {
            out
        }
    }
}

fn find_longest(xs: &Vec<usize>, out: usize) -> (r: usize)
    ensures
        r == find_longest_spec(xs.deep_view(), out, xs@.len()),
{
    let ghost out0 = out;
    let mut out: usize = out;
    let mut i: usize = 0;
    while i < xs.len()
        invariant
            i <= xs@.len(),
            out == find_longest_spec(xs.deep_view(), out0, i as nat),
        decreases xs@.len() - i,
    {
        let h: usize = xs[i];
        if h > out {
            out = h;
        }
        i = i + 1;
    }
    out
}

/// The longest horizon.
pub open spec fn longest_horizon_spec(hs: Seq<usize>) -> usize {
    let out = 0;
    find_longest_spec(hs, out, hs.len())
}

fn longest_horizon(hs: &Vec<usize>) -> (r: usize)
    ensures
        r == longest_horizon_spec(hs.deep_view()),
{
    let mut out: usize = 0;
    out = find_longest(hs, out);
    out
}

/// Among the first `n` of them.
pub open spec fn find_odds_spec(
    key: Seq<char>,
    xs: Seq<(Seq<char>, Odds)>,
    out: Option<Odds>,
    n: nat,
) -> Option<Odds> {
    match list::last_given(
        xs,
        |it: (Seq<char>, Odds)| {
            let k = it.0;
            let v = it.1;
            if k == key {
                Some(v)
            } else {
                None
            }
        },
        n,
    ) {
        Some(v) => Some(v),
        None => out,
    }
}

fn find_odds(key: &str, xs: &Vec<(String, Odds)>, out: Option<Odds>) -> (r: Option<Odds>)
    ensures
        r == find_odds_spec(key@, xs.deep_view(), out, xs@.len()),
{
    let ghost out0 = out;
    let mut out = out;
    let mut i: usize = 0;
    while i < xs.len()
        invariant
            i <= xs@.len(),
            out == find_odds_spec(key@, xs.deep_view(), out0, i as nat),
        decreases xs@.len() - i,
    {
        let it = &xs[i];
        let k = it.0.as_str();
        let v = it.1;
        if text::same(k, key) {
            out = Some(v);
        }
        assert(xs.deep_view()[i as int] == xs@[i as int].deep_view());
        assert(out == find_odds_spec(key@, xs.deep_view(), out0, (i + 1) as nat));
        i = i + 1;
    }
    out
}

/// One horizon's odds.
pub open spec fn odds_at_spec(os: Seq<(Seq<char>, Odds)>, key: Seq<char>) -> Option<Odds> {
    let out: Option<Odds> = None;
    find_odds_spec(key, os, out, os.len())
}

fn odds_at(os: &Vec<(String, Odds)>, key: &str) -> (r: Option<Odds>)
    ensures
        r == odds_at_spec(os.deep_view(), key@),
{
    let mut out: Option<Odds> = None;
    out = find_odds(key, os, out);
    out
}

/// A rung's like-now odds over the longest horizon.
pub open spec fn now_at_spec(r: RowView, hmax: usize) -> Double {
    match odds_at_spec(r.odds, text::dec(hmax as nat)) {
        Some(o) => match o.now {
            Some(v) => v,
            None => Double::zero_spec(),
        },
        None => Double::zero_spec(),
    }
}

fn now_at(r: &Row, hmax: usize) -> (out: Double)
    ensures
        out == now_at_spec(r.deep_view(), hmax),
{
    let o = match odds_at(&r.odds, text::dec_u64(hmax as u64).as_str()) {
        Some(v) => v,
        None => {
            return Double::zero();
        },
    };
    match o.now {
        Some(v) => v,
        None => Double::zero(),
    }
}

/// The first `n` of them.
pub open spec fn add_amount_spec(xs: Seq<RowView>, out: Seq<Double>, n: nat) -> Seq<Double> {
    out + Seq::new(
        n,
        |i: int| {
            let r = xs[i];
            r.usd
        },
    )
}

fn add_amount(xs: &Vec<Row>, out: Vec<Double>) -> (r: Vec<Double>)
    ensures
        r.deep_view() == add_amount_spec(xs.deep_view(), out.deep_view(), xs@.len()),
{
    let ghost out0 = out.deep_view();
    let mut out = out;
    let mut i: usize = 0;
    while i < xs.len()
        invariant
            i <= xs@.len(),
            out.deep_view() == add_amount_spec(xs.deep_view(), out0, i as nat),
        decreases xs@.len() - i,
    {
        let r = &xs[i];
        list::push(&mut out, r.usd);
        assert(out.deep_view() =~= add_amount_spec(xs.deep_view(), out0, (i + 1) as nat));
        i = i + 1;
    }
    out
}

/// What is left of each rung.
pub open spec fn amounts_spec(rows: Seq<RowView>) -> Seq<Double> {
    add_amount_spec(rows, Seq::<Double>::empty(), rows.len())
}

fn amounts(rows: &Vec<Row>) -> (r: Vec<Double>)
    ensures
        r.deep_view() == amounts_spec(rows.deep_view()),
{
    let mut out: Vec<Double> = list::none();
    out = add_amount(rows, out);
    out
}

/// The first `n` of them.
pub open spec fn add_expected_spec(
    hmax: usize,
    xs: Seq<RowView>,
    out: Seq<Double>,
    n: nat,
) -> Seq<Double> {
    out + Seq::new(
        n,
        |i: int| {
            let r = xs[i];
            r.usd.mul_spec(now_at_spec(r, hmax))
        },
    )
}

fn add_expected(hmax: usize, xs: &Vec<Row>, out: Vec<Double>) -> (r: Vec<Double>)
    ensures
        r.deep_view() == add_expected_spec(hmax, xs.deep_view(), out.deep_view(), xs@.len()),
{
    let ghost out0 = out.deep_view();
    let mut out = out;
    let mut i: usize = 0;
    while i < xs.len()
        invariant
            i <= xs@.len(),
            out.deep_view() == add_expected_spec(hmax, xs.deep_view(), out0, i as nat),
        decreases xs@.len() - i,
    {
        let r = &xs[i];
        list::push(&mut out, r.usd.times(now_at(r, hmax)));
        assert(out.deep_view() =~= add_expected_spec(hmax, xs.deep_view(), out0, (i + 1) as nat));
        i = i + 1;
    }
    out
}

/// What is expected to fill of each rung.
pub open spec fn expected_spec(rows: Seq<RowView>, hmax: usize) -> Seq<Double> {
    add_expected_spec(hmax, rows, Seq::<Double>::empty(), rows.len())
}

fn expected(rows: &Vec<Row>, hmax: usize) -> (r: Vec<Double>)
    ensures
        r.deep_view() == expected_spec(rows.deep_view(), hmax),
{
    let mut out: Vec<Double> = list::none();
    out = add_expected(hmax, rows, out);
    out
}

/// The first `n` of them.
pub open spec fn add_unlikely_spec(
    hmax: usize,
    low_odds: Double,
    xs: Seq<RowView>,
    out: Seq<Double>,
    n: nat,
) -> Seq<Double> {
    out + list::gathered(
        xs,
        |r: RowView| if now_at_spec(r, hmax).lt_spec(low_odds) {
            Some(r.usd)
        } else {
            None
        },
        n,
    )
}

fn add_unlikely(
    hmax: usize,
    low_odds: Double,
    xs: &Vec<Row>,
    out: Vec<Double>,
) -> (r: Vec<Double>)
    ensures
        r.deep_view() == add_unlikely_spec(
            hmax,
            low_odds,
            xs.deep_view(),
            out.deep_view(),
            xs@.len(),
        ),
{
    let ghost out0 = out.deep_view();
    let mut out = out;
    let mut i: usize = 0;
    while i < xs.len()
        invariant
            i <= xs@.len(),
            out.deep_view() == add_unlikely_spec(hmax, low_odds, xs.deep_view(), out0, i as nat),
        decreases xs@.len() - i,
    {
        let r = &xs[i];
        if now_at(r, hmax).lt(low_odds) {
            list::push(&mut out, r.usd);
        }
        assert(out.deep_view() =~= add_unlikely_spec(
            hmax,
            low_odds,
            xs.deep_view(),
            out0,
            (i + 1) as nat,
        ));
        i = i + 1;
    }
    out
}

/// What is left of each rung with low odds.
pub open spec fn unlikely_spec(rows: Seq<RowView>, hmax: usize, low_odds: Double) -> Seq<Double> {
    add_unlikely_spec(hmax, low_odds, rows, Seq::<Double>::empty(), rows.len())
}

fn unlikely(rows: &Vec<Row>, hmax: usize, low_odds: Double) -> (r: Vec<Double>)
    ensures
        r.deep_view() == unlikely_spec(rows.deep_view(), hmax, low_odds),
{
    let mut out: Vec<Double> = list::none();
    out = add_unlikely(hmax, low_odds, rows, out);
    out
}

/// Among the first `n` of them.
pub open spec fn see_sym_spec(sym: Seq<char>, xs: Seq<OpenBuyView>, out: bool, n: nat) -> bool {
    out || list::some(xs, |b: OpenBuyView| b.sym == sym, n)
}

fn see_sym(sym: &str, xs: &Vec<OpenBuy>, out: bool) -> (r: bool)
    ensures
        r == see_sym_spec(sym@, xs.deep_view(), out, xs@.len()),
{
    let ghost out0 = out;
    let mut out = out;
    let mut i: usize = 0;
    while i < xs.len()
        invariant
            i <= xs@.len(),
            out == see_sym_spec(sym@, xs.deep_view(), out0, i as nat),
        decreases xs@.len() - i,
    {
        let b = &xs[i];
        if text::same(b.sym.as_str(), sym) {
            out = true;
        }
        assert(xs.deep_view()[i as int] == xs@[i as int].deep_view());
        assert(out == see_sym_spec(sym@, xs.deep_view(), out0, (i + 1) as nat));
        i = i + 1;
    }
    out
}

/// Whether a coin has an open buy.
pub open spec fn has_sym_spec(bs: Seq<OpenBuyView>, sym: Seq<char>) -> bool {
    see_sym_spec(sym, bs, false, bs.len())
}

fn has_sym(bs: &Vec<OpenBuy>, sym: &str) -> (r: bool)
    ensures
        r == has_sym_spec(bs.deep_view(), sym@),
{
    let mut out = false;
    out = see_sym(sym, bs, out);
    out
}

/// Of the first `n` histories.
pub open spec fn add_last_day_spec(
    bs: Seq<OpenBuyView>,
    xs: Seq<HistoryView>,
    out: Seq<(Seq<char>, Doc)>,
    n: nat,
) -> Seq<(Seq<char>, Doc)> {
    out + list::gathered(
        xs,
        |h: HistoryView| if has_sym_spec(bs, h.sym) {
            match list::end(h.days) {
                Some(d) => Some((h.sym, d.date)),
                None => None,
            }
        } else {
            None
        },
        n,
    )
}

fn add_last_day(
    bs: &Vec<OpenBuy>,
    xs: &Vec<History>,
    out: Vec<(String, Json)>,
) -> (r: Vec<(String, Json)>)
    ensures
        r.deep_view() == add_last_day_spec(
            bs.deep_view(),
            xs.deep_view(),
            out.deep_view(),
            xs@.len(),
        ),
{
    let ghost out0 = out.deep_view();
    let mut out = out;
    let mut i: usize = 0;
    while i < xs.len()
        invariant
            i <= xs@.len(),
            out.deep_view() == add_last_day_spec(bs.deep_view(), xs.deep_view(), out0, i as nat),
        decreases xs@.len() - i,
    {
        let h = &xs[i];
        if has_sym(bs, h.sym.as_str()) {
            match list::last(&h.days) {
                Some(d) => {
                    list::push(&mut out, (text::owned(h.sym.as_str()), d.date.copy()));
                },
                None => {},
            }
        }
        assert(out.deep_view() =~= add_last_day_spec(
            bs.deep_view(),
            xs.deep_view(),
            out0,
            (i + 1) as nat,
        ));
        i = i + 1;
    }
    out
}

/// The last day of each series that was used.
pub open spec fn last_days_spec(
    hs: Seq<HistoryView>,
    bs: Seq<OpenBuyView>,
) -> Seq<(Seq<char>, Doc)> {
    add_last_day_spec(bs, hs, Seq::<(Seq<char>, Doc)>::empty(), hs.len())
}

fn last_days(hs: &Vec<History>, bs: &Vec<OpenBuy>) -> (r: Vec<(String, Json)>)
    ensures
        r.deep_view() == last_days_spec(hs.deep_view(), bs.deep_view()),
{
    let mut out: Vec<(String, Json)> = list::none();
    out = add_last_day(bs, hs, out);
    out
}

/// Of the first `n` rungs.
pub open spec fn add_table_row_spec(
    bull: Seq<Seq<char>>,
    horizons: Seq<usize>,
    hs: Seq<HistoryView>,
    regime: Doc,
    xs: Seq<OpenBuyView>,
    table: Seq<RowView>,
    n: nat,
) -> Seq<RowView> {
    table + Seq::new(
        n,
        |i: int| {
            let b = xs[i];
            row_of_spec(b, regime, hs, bull, horizons)
        },
    )
}

fn add_table_row(
    bull: &Vec<String>,
    horizons: &Vec<usize>,
    hs: &Vec<History>,
    regime: &Json,
    xs: &Vec<OpenBuy>,
    table: Vec<Row>,
) -> (r: Vec<Row>)
    ensures
        r.deep_view() == add_table_row_spec(
            bull.deep_view(),
            horizons.deep_view(),
            hs.deep_view(),
            regime@,
            xs.deep_view(),
            table.deep_view(),
            xs@.len(),
        ),
{
    let ghost table0 = table.deep_view();
    let mut table = table;
    let mut i: usize = 0;
    while i < xs.len()
        invariant
            i <= xs@.len(),
            table.deep_view() == add_table_row_spec(
                bull.deep_view(),
                horizons.deep_view(),
                hs.deep_view(),
                regime@,
                xs.deep_view(),
                table0,
                i as nat,
            ),
        decreases xs@.len() - i,
    {
        let b = &xs[i];
        list::push(&mut table, row_of(b, regime, hs, bull, horizons));
        assert(table.deep_view() =~= add_table_row_spec(
            bull.deep_view(),
            horizons.deep_view(),
            hs.deep_view(),
            regime@,
            xs.deep_view(),
            table0,
            (i + 1) as nat,
        ));
        i = i + 1;
    }
    table
}

/// The odds of every open buy rung, from the regime reading (`coins.{SYM}.px`, `running`,
/// `market`), the label history (`held_days`, `confirmed`), the coins' cached histories in the
/// order in which the rungs name them, and the dates on which BTC was in a bull.
pub open spec fn compute_spec(
    rows: Seq<OrderView>,
    regime: Doc,
    history: Option<Doc>,
    hs: Seq<HistoryView>,
    bull: Seq<Seq<char>>,
    horizons: Seq<usize>,
    low_odds: Double,
) -> FillOddsView {
    let buys = open_buys_spec(rows);
    let table = add_table_row_spec(
        bull,
        horizons,
        hs,
        regime,
        buys,
        Seq::<RowView>::empty(),
        buys.len(),
    );
    let hmax = longest_horizon_spec(horizons);
    let total = crate::watch::pyfmt::sum_spec(amounts_spec(table));
    let expect = crate::watch::pyfmt::sum_spec(expected_spec(table, hmax));
    let low = crate::watch::pyfmt::sum_spec(unlikely_spec(table, hmax, low_odds));
    let hist = Doc::obj();
    let hist = match history {
        Some(h) => h,
        None => hist,
    };
    FillOddsView {
        horizons,
        rows: table,
        total_usd: total,
        expected_fill_usd: expect,
        low_odds_usd: low,
        low_odds,
        market: regime.get_or_null("market"@),
        held_days: hist.get_or_null("held_days"@),
        confirmed: hist.get_or_null("confirmed"@),
        cache_last: last_days_spec(hs, buys),
    }
}

/// The odds of every open buy rung, from the regime reading (`coins.{SYM}.px`, `running`,
/// `market`), the label history (`held_days`, `confirmed`), the coins' cached histories in the
/// order in which the rungs name them, and the dates on which BTC was in a bull.
pub fn compute(
    rows: &Vec<Order>,
    regime: &Json,
    history: Option<&Json>,
    hs: &Vec<History>,
    bull: &Vec<String>,
    horizons: &Vec<usize>,
    low_odds: Double,
) -> (r: FillOdds)
    ensures
        r.deep_view() == compute_spec(
            rows.deep_view(),
            regime@,
            history.deep_view(),
            hs.deep_view(),
            bull.deep_view(),
            horizons.deep_view(),
            low_odds,
        ),
{
    let buys = open_buys(rows);
    let mut table: Vec<Row> = list::none();
    table = add_table_row(bull, horizons, hs, regime, &buys, table);
    let hmax: usize = longest_horizon(horizons);
    let total = list::sum(&amounts(&table));
    let expect = list::sum(&expected(&table, hmax));
    let low = list::sum(&unlikely(&table, hmax, low_odds));
    let mut hist = Json::obj();
    match history {
        Some(h) => {
            hist = h.copy();
        },
        None => {},
    }
    FillOdds {
        horizons: horizons.dup(),
        rows: table,
        total_usd: total,
        expected_fill_usd: expect,
        low_odds_usd: low,
        low_odds,
        market: regime.get_copy("market"),
        held_days: hist.get_copy("held_days"),
        confirmed: hist.get_copy("confirmed"),
        cache_last: last_days(hs, &buys),
    }
}

/// One horizon's odds as an object.
pub open spec fn odds_json_spec(o: Odds) -> Doc {
    Doc::obj().with("all"@, json::float_or_null(o.all)).with("all_n"@, Doc::Int(o.all_n as i64)).with(
        "now"@,
        json::float_or_null(o.now),
    ).with(
        "now_n"@,
        Doc::Int(o.now_n as i64),
    )
}

fn odds_json(o: Odds) -> (r: Json)
    ensures
        r@ == odds_json_spec(o),
{
    Json::obj().with("all", json::number_or_null(o.all)).with("all_n", Json::Int(o.all_n as i64)).with(
        "now",
        json::number_or_null(o.now),
    ).with(
        "now_n",
        Json::Int(o.now_n as i64),
    )
}

/// The first `n` of them.
pub open spec fn add_odds_json_spec(xs: Seq<(Seq<char>, Odds)>, out: Doc, n: nat) -> Doc
    decreases n,
{
    if n == 0 {
        out
    } else {
        let out = add_odds_json_spec(xs, out, (n - 1) as nat);
        let it = xs[n - 1];
        let k = it.0;
        let v = it.1;
        out.set(k, odds_json_spec(v))
    }
}

fn add_odds_json(xs: &Vec<(String, Odds)>, out: Json) -> (r: Json)
    ensures
        r@ == add_odds_json_spec(xs.deep_view(), out@, xs@.len()),
{
    let ghost out0 = out@;
    let mut out = out;
    let mut i: usize = 0;
    while i < xs.len()
        invariant
            i <= xs@.len(),
            out@ == add_odds_json_spec(xs.deep_view(), out0, i as nat),
        decreases xs@.len() - i,
    {
        let it = &xs[i];
        let k = it.0.as_str();
        let v = it.1;
        out.set(k, odds_json(v));
        i = i + 1;
    }
    out
}

/// A rung's odds as an object.
pub open spec fn horizons_json_spec(os: Seq<(Seq<char>, Odds)>) -> Doc {
    let out = Doc::obj();
    add_odds_json_spec(os, out, os.len())
}

fn horizons_json(os: &Vec<(String, Odds)>) -> (r: Json)
    ensures
        r@ == horizons_json_spec(os.deep_view()),
{
    let mut out = Json::obj();
    out = add_odds_json(os, out);
    out
}

/// A rung as an object; what is not known of it is left out.
pub open spec fn row_json_spec(r: RowView) -> Doc {
    let out = Doc::obj().with("sym"@, Doc::Str(r.sym)).with("rung"@, json::int_or_null(r.rung)).with(
        "price"@,
        Doc::Float(r.price),
    ).with(
        "usd"@,
        Doc::Float(r.usd),
    ).with(
        "ts"@,
        json::float_or_null(r.ts),
    );
    let out = if r.spot is Some {
        out.set("spot"@, json::float_or_null(r.spot))
    } else {
        out
    };
    let out = out.set("gap"@, json::float_or_null(r.gap));
    let out = match r.running {
        Some(b) => out.set("running"@, Doc::Bool(b)),
        None => out,
    };
    out.set("odds"@, horizons_json_spec(r.odds))
}

fn row_json(r: &Row) -> (out: Json)
    ensures
        out@ == row_json_spec(r.deep_view()),
{
    let mut out = Json::obj().with("sym", Json::text(r.sym.as_str())).with(
        "rung",
        json::whole_or_null(r.rung),
    ).with(
        "price",
        Json::Float(r.price),
    ).with(
        "usd",
        Json::Float(r.usd),
    ).with(
        "ts",
        json::number_or_null(r.ts),
    );
    if r.spot.is_some() {
        out.set("spot", json::number_or_null(r.spot));
    }
    out.set("gap", json::number_or_null(r.gap));
    match r.running {
        Some(b) => {
            out.set("running", Json::Bool(b));
        },
        None => {},
    }
    out.set("odds", horizons_json(&r.odds));
    out
}

/// The first `n` of them.
pub open spec fn add_row_json_spec(xs: Seq<RowView>, out: Seq<Doc>, n: nat) -> Seq<Doc> {
    out + Seq::new(
        n,
        |i: int| {
            let r = xs[i];
            row_json_spec(r)
        },
    )
}

fn add_row_json(xs: &Vec<Row>, out: Vec<Json>) -> (r: Vec<Json>)
    ensures
        r.deep_view() == add_row_json_spec(xs.deep_view(), out.deep_view(), xs@.len()),
{
    let ghost out0 = out.deep_view();
    let mut out = out;
    let mut i: usize = 0;
    while i < xs.len()
        invariant
            i <= xs@.len(),
            out.deep_view() == add_row_json_spec(xs.deep_view(), out0, i as nat),
        decreases xs@.len() - i,
    {
        let r = &xs[i];
        list::push(&mut out, row_json(r));
        assert(out.deep_view() =~= add_row_json_spec(xs.deep_view(), out0, (i + 1) as nat));
        i = i + 1;
    }
    out
}

/// The rungs as objects.
pub open spec fn rows_json_spec(rows: Seq<RowView>) -> Seq<Doc> {
    add_row_json_spec(rows, Seq::<Doc>::empty(), rows.len())
}

fn rows_json(rows: &Vec<Row>) -> (r: Vec<Json>)
    ensures
        r.deep_view() == rows_json_spec(rows.deep_view()),
{
    let mut out: Vec<Json> = list::none();
    out = add_row_json(rows, out);
    out
}

/// The first `n` of them.
pub open spec fn add_size_json_spec(xs: Seq<usize>, out: Seq<Doc>, n: nat) -> Seq<Doc> {
    out + Seq::new(
        n,
        |i: int| {
            let h = xs[i];
            Doc::Int(h as i64)
        },
    )
}

fn add_size_json(xs: &Vec<usize>, out: Vec<Json>) -> (r: Vec<Json>)
    ensures
        r.deep_view() == add_size_json_spec(xs.deep_view(), out.deep_view(), xs@.len()),
{
    let ghost out0 = out.deep_view();
    let mut out = out;
    let mut i: usize = 0;
    while i < xs.len()
        invariant
            i <= xs@.len(),
            out.deep_view() == add_size_json_spec(xs.deep_view(), out0, i as nat),
        decreases xs@.len() - i,
    {
        let h: usize = xs[i];
        list::push(&mut out, Json::Int(h as i64));
        assert(out.deep_view() =~= add_size_json_spec(xs.deep_view(), out0, (i + 1) as nat));
        i = i + 1;
    }
    out
}

/// The horizons as values.
pub open spec fn sizes_json_spec(hs: Seq<usize>) -> Seq<Doc> {
    add_size_json_spec(hs, Seq::<Doc>::empty(), hs.len())
}

fn sizes_json(hs: &Vec<usize>) -> (r: Vec<Json>)
    ensures
        r.deep_view() == sizes_json_spec(hs.deep_view()),
{
    let mut out: Vec<Json> = list::none();
    out = add_size_json(hs, out);
    out
}

/// The first `n` of them.
pub open spec fn add_last_json_spec(xs: Seq<(Seq<char>, Doc)>, out: Doc, n: nat) -> Doc
    decreases n,
{
    if n == 0 {
        out
    } else {
        let out = add_last_json_spec(xs, out, (n - 1) as nat);
        let it = xs[n - 1];
        let k = it.0;
        let v = it.1;
        out.set(k, v)
    }
}

fn add_last_json(xs: &Vec<(String, Json)>, out: Json) -> (r: Json)
    ensures
        r@ == add_last_json_spec(xs.deep_view(), out@, xs@.len()),
{
    let ghost out0 = out@;
    let mut out = out;
    let mut i: usize = 0;
    while i < xs.len()
        invariant
            i <= xs@.len(),
            out@ == add_last_json_spec(xs.deep_view(), out0, i as nat),
        decreases xs@.len() - i,
    {
        let it = &xs[i];
        let k = it.0.as_str();
        let v = &it.1;
        out.set(k, v.copy());
        i = i + 1;
    }
    out
}

/// The last days as an object.
pub open spec fn last_json_spec(l: Seq<(Seq<char>, Doc)>) -> Doc {
    let out = Doc::obj();
    add_last_json_spec(l, out, l.len())
}

fn last_json(l: &Vec<(String, Json)>) -> (r: Json)
    ensures
        r@ == last_json_spec(l.deep_view()),
{
    let mut out = Json::obj();
    out = add_last_json(l, out);
    out
}

/// The table as an object, in field order.
pub open spec fn table_json_spec(f: FillOddsView) -> Doc {
    Doc::obj().with("horizons"@, Doc::Arr(sizes_json_spec(f.horizons))).with(
        "rows"@,
        Doc::Arr(rows_json_spec(f.rows)),
    ).with(
        "total_usd"@,
        Doc::Float(f.total_usd),
    ).with(
        "expected_fill_usd"@,
        Doc::Float(f.expected_fill_usd),
    ).with(
        "low_odds_usd"@,
        Doc::Float(f.low_odds_usd),
    ).with(
        "low_odds"@,
        Doc::Float(f.low_odds),
    ).with(
        "market"@,
        f.market,
    ).with(
        "held_days"@,
        f.held_days,
    ).with(
        "confirmed"@,
        f.confirmed,
    ).with(
        "cache_last"@,
        last_json_spec(f.cache_last),
    )
}

/// The table as an object, in field order.
pub fn table_json(f: &FillOdds) -> (r: Json)
    ensures
        r@ == table_json_spec(f.deep_view()),
{
    Json::obj().with("horizons", json::array(sizes_json(&f.horizons))).with(
        "rows",
        json::array(rows_json(&f.rows)),
    ).with(
        "total_usd",
        Json::Float(f.total_usd),
    ).with(
        "expected_fill_usd",
        Json::Float(f.expected_fill_usd),
    ).with(
        "low_odds_usd",
        Json::Float(f.low_odds_usd),
    ).with(
        "low_odds",
        Json::Float(f.low_odds),
    ).with(
        "market",
        f.market.copy(),
    ).with(
        "held_days",
        f.held_days.copy(),
    ).with(
        "confirmed",
        f.confirmed.copy(),
    ).with(
        "cache_last",
        last_json(&f.cache_last),
    )
}

/// A frequency in percent.
pub open spec fn pct_spec(x: Option<Double>) -> Seq<char> {
    match x {
        Some(v) => {
            let p = v.mul_spec(Double::int_spec(100));
            pyfmt::fixed_spec(p, 0)
        },
        None => ""@,
    }
}

fn pct(x: Option<Double>) -> (r: String)
    ensures
        r@ == pct_spec(x),
{
    match x {
        Some(v) => {
            let p = v.times(Double::of_int(100));
            pyfmt::fixed(p, 0)
        },
        None => text::owned(""),
    }
}

/// A frequency as it stands in the table.
pub open spec fn pct_cell_spec(x: Option<Double>) -> Seq<char> {
    if x is None {
        "  -- "@
    } else {
        crate::watch::pyfmt::rjust_spec(pct_spec(x), 4) + "%"@
    }
}

fn pct_cell(x: Option<Double>) -> (r: String)
    ensures
        r@ == pct_cell_spec(x),
{
    if x.is_none() {
        return text::owned("  -- ");
    }
    let mut line = crate::watch::pyfmt::rjust(pct(x).as_str(), 4);
    line.push_str("%");
    line
}

/// A value, as it prints.
pub open spec fn shown_spec(v: Doc) -> Seq<char> {
    if v is Null {
        "None"@
    } else if v is Bool {
        if v == Doc::Bool(true) {
            "True"@
        } else {
            "False"@
        }
    } else {
        pyfmt::shown(pyfmt::ordered_doc(v))
    }
}

fn shown(v: &Json) -> (r: String)
    ensures
        r@ == shown_spec(v@),
{
    if v.is_null() {
        return text::owned("None");
    }
    if v.is_bool() {
        return if v.is_true() {
            text::owned("True")
        } else {
            text::owned("False")
        };
    }
    pyfmt::value_str(v)
}

/// Of the first `n` horizons.
pub open spec fn add_heading_spec(xs: Seq<usize>, out: Seq<char>, n: nat) -> Seq<char>
    decreases n,
{
    if n == 0 {
        out
    } else {
        let out = add_heading_spec(xs, out, (n - 1) as nat);
        let h = xs[n - 1];
        out + ("  "@ + text::dec(h as nat) + "d all "@ + text::dec(h as nat) + "d now"@)
    }
}

fn add_heading(xs: &Vec<usize>, out: String) -> (r: String)
    ensures
        r@ == add_heading_spec(xs.deep_view(), out@, xs@.len()),
{
    let ghost out0 = out@;
    let mut out = out;
    let mut i: usize = 0;
    while i < xs.len()
        invariant
            i <= xs@.len(),
            out@ == add_heading_spec(xs.deep_view(), out0, i as nat),
        decreases xs@.len() - i,
    {
        let h: usize = xs[i];
        let mut line = text::owned("  ");
        line.push_str(text::dec_u64(h as u64).as_str());
        line.push_str("d all ");
        line.push_str(text::dec_u64(h as u64).as_str());
        line.push_str("d now");
        out.push_str(line.as_str());
        i = i + 1;
    }
    out
}

/// The table's heading.
pub open spec fn heading_spec(hs: Seq<usize>) -> Seq<char> {
    let out = crate::watch::pyfmt::ljust_spec("coin"@, 5)
        + " "@
        + crate::watch::pyfmt::rjust_spec("rung"@, 4)
        + " "@
        + crate::watch::pyfmt::rjust_spec("$ left"@, 7)
        + " "@
        + crate::watch::pyfmt::rjust_spec("gap"@, 6);
    let out = add_heading_spec(hs, out, hs.len());
    out + "   n(now)"@
}

fn heading(hs: &Vec<usize>) -> (r: String)
    ensures
        r@ == heading_spec(hs.deep_view()),
{
    let mut out = crate::watch::pyfmt::ljust("coin", 5);
    out.push_str(" ");
    out.push_str(crate::watch::pyfmt::rjust("rung", 4).as_str());
    out.push_str(" ");
    out.push_str(crate::watch::pyfmt::rjust("$ left", 7).as_str());
    out.push_str(" ");
    out.push_str(crate::watch::pyfmt::rjust("gap", 6).as_str());
    out = add_heading(hs, out);
    let mut line = text::owned(out.as_str());
    line.push_str("   n(now)");
    line
}

/// A rung's number; nothing for none.
pub open spec fn rung_cell_spec(r: Option<i64>) -> Seq<char> {
    match r {
        Some(k) => if k == 0 {
            ""@
        } else {
            text::dec_int(k as int)
        },
        None => ""@,
    }
}

fn rung_cell(r: Option<i64>) -> (out: String)
    ensures
        out@ == rung_cell_spec(r),
{
    let k: i64 = match r {
        Some(v) => v,
        None => {
            return text::owned("");
        },
    };
    if k == 0 {
        return text::owned("");
    }
    text::dec_i64(k)
}

/// Of the first `n` horizons.
pub open spec fn add_cells_spec(r: RowView, xs: Seq<usize>, out: Seq<char>, n: nat) -> Seq<char>
    decreases n,
{
    if n == 0 {
        out
    } else {
        let out = add_cells_spec(r, xs, out, (n - 1) as nat);
        let h = xs[n - 1];
        match odds_at_spec(r.odds, text::dec(h as nat)) {
            Some(o) => out
                + ("  "@
                    + crate::watch::pyfmt::rjust_spec(pct_cell_spec(o.all), 6)
                    + " "@
                    + crate::watch::pyfmt::rjust_spec(pct_cell_spec(o.now), 6)),
            None => out,
        }
    }
}

fn add_cells(r: &Row, xs: &Vec<usize>, out: String) -> (res: String)
    ensures
        res@ == add_cells_spec(r.deep_view(), xs.deep_view(), out@, xs@.len()),
{
    let ghost out0 = out@;
    let mut out = out;
    let mut i: usize = 0;
    while i < xs.len()
        invariant
            i <= xs@.len(),
            out@ == add_cells_spec(r.deep_view(), xs.deep_view(), out0, i as nat),
        decreases xs@.len() - i,
    {
        let h: usize = xs[i];
        match odds_at(&r.odds, text::dec_u64(h as u64).as_str()) {
            Some(o) => {
                let mut line = text::owned("  ");
                line.push_str(crate::watch::pyfmt::rjust(pct_cell(o.all).as_str(), 6).as_str());
                line.push_str(" ");
                line.push_str(crate::watch::pyfmt::rjust(pct_cell(o.now).as_str(), 6).as_str());
                out.push_str(line.as_str());
            },
            None => {},
        }
        i = i + 1;
    }
    out
}

/// A rung's odds as they stand in the table.
pub open spec fn cells_spec(r: RowView, hs: Seq<usize>) -> Seq<char> {
    let out = ""@;
    add_cells_spec(r, hs, out, hs.len())
}

fn cells(r: &Row, hs: &Vec<usize>) -> (out: String)
    ensures
        out@ == cells_spec(r.deep_view(), hs.deep_view()),
{
    let mut out = text::owned("");
    out = add_cells(r, hs, out);
    out
}

/// How many like-now start days there are over the longest horizon.
pub open spec fn now_count_spec(r: RowView, hmax: usize) -> usize {
    match odds_at_spec(r.odds, text::dec(hmax as nat)) {
        Some(o) => o.now_n,
        None => 0,
    }
}

fn now_count(r: &Row, hmax: usize) -> (out: usize)
    ensures
        out == now_count_spec(r.deep_view(), hmax),
{
    let o = match odds_at(&r.odds, text::dec_u64(hmax as u64).as_str()) {
        Some(v) => v,
        None => {
            return 0;
        },
    };
    o.now_n
}

/// A rung's line.
pub open spec fn line_of_spec(r: RowView, hs: Seq<usize>, hmax: usize) -> Seq<char> {
    let usd = r.usd;
    let start = crate::watch::pyfmt::ljust_spec(r.sym, 5)
        + " "@
        + crate::watch::pyfmt::rjust_spec(rung_cell_spec(r.rung), 4)
        + " "@
        + crate::watch::pyfmt::rjust_spec(pyfmt::fixed_spec(usd, 0), 7)
        + " "@;
    match r.gap {
        Some(gap) => {
            let p = gap.mul_spec(Double::int_spec(100));
            start
                + crate::watch::pyfmt::rjust_spec(pyfmt::fixed_spec(p, 1), 5)
                + "%"@
                + cells_spec(r, hs)
                + "   "@
                + crate::watch::pyfmt::rjust_spec(text::dec(now_count_spec(r, hmax) as nat), 5)
        },
        None => start + "   no spot or history"@,
    }
}

fn line_of(r: &Row, hs: &Vec<usize>, hmax: usize) -> (out: String)
    ensures
        out@ == line_of_spec(r.deep_view(), hs.deep_view(), hmax),
{
    let usd = r.usd;
    let mut start = crate::watch::pyfmt::ljust(r.sym.as_str(), 5);
    start.push_str(" ");
    start.push_str(crate::watch::pyfmt::rjust(rung_cell(r.rung).as_str(), 4).as_str());
    start.push_str(" ");
    start.push_str(crate::watch::pyfmt::rjust(pyfmt::fixed(usd, 0).as_str(), 7).as_str());
    start.push_str(" ");
    match r.gap {
        Some(gap) => {
            let p = gap.times(Double::of_int(100));
            let mut line = text::owned(start.as_str());
            line.push_str(crate::watch::pyfmt::rjust(pyfmt::fixed(p, 1).as_str(), 5).as_str());
            line.push_str("%");
            line.push_str(cells(r, hs).as_str());
            line.push_str("   ");
            line.push_str(
                crate::watch::pyfmt::rjust((text::dec_u64(now_count(r, hmax) as u64)).as_str(), 5).as_str(),
            );
            line
        },
        None => {
            let mut line2 = text::owned(start.as_str());
            line2.push_str("   no spot or history");
            line2
        },
    }
}

/// The first `n` of them.
pub open spec fn add_last_text_spec(
    xs: Seq<(Seq<char>, Doc)>,
    out: Seq<Seq<char>>,
    n: nat,
) -> Seq<Seq<char>> {
    out + Seq::new(
        n,
        |i: int| {
            let it = xs[i];
            let k = it.0;
            let v = it.1;
            k + " "@ + shown_spec(v)
        },
    )
}

fn add_last_text(xs: &Vec<(String, Json)>, out: Vec<String>) -> (r: Vec<String>)
    ensures
        r.deep_view() == add_last_text_spec(xs.deep_view(), out.deep_view(), xs@.len()),
{
    let ghost out0 = out.deep_view();
    let mut out = out;
    let mut i: usize = 0;
    while i < xs.len()
        invariant
            i <= xs@.len(),
            out.deep_view() == add_last_text_spec(xs.deep_view(), out0, i as nat),
        decreases xs@.len() - i,
    {
        let it = &xs[i];
        let k = it.0.as_str();
        let v = &it.1;
        let mut line = text::owned(k);
        line.push_str(" ");
        line.push_str(shown(v).as_str());
        list::push(&mut out, line);
        assert(out.deep_view() =~= add_last_text_spec(xs.deep_view(), out0, (i + 1) as nat));
        i = i + 1;
    }
    out
}

/// The last days, as they print.
pub open spec fn last_texts_spec(l: Seq<(Seq<char>, Doc)>) -> Seq<Seq<char>> {
    add_last_text_spec(
        list::sorted_entries(l),
        Seq::<Seq<char>>::empty(),
        list::sorted_entries(l).len(),
    )
}

fn last_texts(l: &Vec<(String, Json)>) -> (r: Vec<String>)
    ensures
        r.deep_view() == last_texts_spec(l.deep_view()),
{
    let mut out: Vec<String> = list::none();
    out = add_last_text(&list::sort_entries(l), out);
    out
}

/// The first `n` rungs.
pub open spec fn add_lines_spec(
    hmax: usize,
    res: FillOddsView,
    xs: Seq<RowView>,
    out: Seq<Seq<char>>,
    n: nat,
) -> Seq<Seq<char>> {
    out + Seq::new(
        n,
        |i: int| {
            let r = xs[i];
            line_of_spec(r, res.horizons, hmax)
        },
    )
}

fn add_lines(hmax: usize, res: &FillOdds, xs: &Vec<Row>, out: Vec<String>) -> (r: Vec<String>)
    ensures
        r.deep_view() == add_lines_spec(
            hmax,
            res.deep_view(),
            xs.deep_view(),
            out.deep_view(),
            xs@.len(),
        ),
{
    let ghost out0 = out.deep_view();
    let mut out = out;
    let mut i: usize = 0;
    while i < xs.len()
        invariant
            i <= xs@.len(),
            out.deep_view() == add_lines_spec(
                hmax,
                res.deep_view(),
                xs.deep_view(),
                out0,
                i as nat,
            ),
        decreases xs@.len() - i,
    {
        let r = &xs[i];
        list::push(&mut out, line_of(r, &res.horizons, hmax));
        assert(out.deep_view() =~= add_lines_spec(
            hmax,
            res.deep_view(),
            xs.deep_view(),
            out0,
            (i + 1) as nat,
        ));
        i = i + 1;
    }
    out
}

/// The table `rungbot-exec fillodds` prints.
pub open spec fn render_spec(res: FillOddsView) -> Seq<char> {
    let hmax = longest_horizon_spec(res.horizons);
    let stage = if res.confirmed.truthy() {
        "confirmed"@
    } else {
        "provisional"@
    };
    let top = heading_spec(res.horizons);
    let out = Seq::<Seq<char>>::empty().push(
        "Fill odds of resting buy rungs · market "@
            + shown_spec(res.market)
            + " held "@
            + shown_spec(res.held_days)
            + "d ("@
            + stage
            + ")"@,
    ).push(
        "odds = share of history where the daily low reached the rung within H days; 'now' = coin's RUN gate as today + BTC above 100d/200d SMA"@,
    ).push(
        ""@,
    );
    let out = out.push(top);
    let out = out.push(text::times('-', (top.len() as usize) as nat));
    let out = add_lines_spec(hmax, res, res.rows, out, res.rows.len());
    let out = out.push(""@);
    let low = res.low_odds.mul_spec(Double::int_spec(100));
    let out = out.push(
        "resting $"@
            + crate::watch::pyfmt::comma_spec(res.total_usd, 0)
            + " · expected to fill within "@
            + text::dec(hmax as nat)
            + "d (like now) $"@
            + crate::watch::pyfmt::comma_spec(res.expected_fill_usd, 0)
            + " · under "@
            + pyfmt::fixed_spec(low, 0)
            + "% odds $"@
            + crate::watch::pyfmt::comma_spec(res.low_odds_usd, 0),
    );
    let out = out.push(
        "history through "@ + text::join_of(last_texts_spec(res.cache_last), ", "@),
    );
    text::join_of(out, "\n"@)
}

/// The table `rungbot-exec fillodds` prints.
pub fn render(res: &FillOdds) -> (r: String)
    ensures
        r@ == render_spec(res.deep_view()),
{
    let hmax: usize = longest_horizon(&res.horizons);
    let stage = if res.confirmed.truthy() {
        "confirmed"
    } else {
        "provisional"
    };
    let top = heading(&res.horizons);
    let mut out: Vec<String> = list::none();
    let mut line = text::owned("Fill odds of resting buy rungs · market ");
    line.push_str(shown(&res.market).as_str());
    line.push_str(" held ");
    line.push_str(shown(&res.held_days).as_str());
    line.push_str("d (");
    line.push_str(stage);
    line.push_str(")");
    list::push(&mut out, line);
    list::push(
        &mut out,
        text::owned(
            "odds = share of history where the daily low reached the rung within H days; 'now' = coin's RUN gate as today + BTC above 100d/200d SMA",
        ),
    );
    list::push(&mut out, text::owned(""));
    list::push(&mut out, text::owned(top.as_str()));
    list::push(&mut out, text::repeated('-', top.as_str().unicode_len()));
    out = add_lines(hmax, res, &res.rows, out);
    list::push(&mut out, text::owned(""));
    let low = res.low_odds.times(Double::of_int(100));
    let mut line2 = text::owned("resting $");
    line2.push_str(crate::watch::pyfmt::comma(res.total_usd, 0).as_str());
    line2.push_str(" · expected to fill within ");
    line2.push_str(text::dec_u64(hmax as u64).as_str());
    line2.push_str("d (like now) $");
    line2.push_str(crate::watch::pyfmt::comma(res.expected_fill_usd, 0).as_str());
    line2.push_str(" · under ");
    line2.push_str(pyfmt::fixed(low, 0).as_str());
    line2.push_str("% odds $");
    line2.push_str(crate::watch::pyfmt::comma(res.low_odds_usd, 0).as_str());
    list::push(&mut out, line2);
    let mut line3 = text::owned("history through ");
    line3.push_str(list::join(&last_texts(&res.cache_last), ", ").as_str());
    list::push(&mut out, line3);
    list::join(&out, "\n")
}

/// A rung's gap is how far it is from spot as a part of spot: spot and the gap's part of it make the
/// price, and the gap is negative exactly where the rung is under spot.
pub proof fn law_the_gap_is_the_rungs_distance_from_spot(
    b: OpenBuyView,
    px: Double,
    h: HistoryView,
    bull: Seq<Seq<char>>,
    want: bool,
    horizons: Seq<usize>,
)
    requires
        b.price.finite(),
        px.finite(),
        b.price.amount() > 0,
        px.amount() > 0,
    ensures
        ({
            let row = row_with_spec(b, px, h, bull, want, horizons);
            let u = crate::double::unit() as int;
            &&& row.price == b.price
            &&& row.spot == Some(px)
            &&& row.gap matches Some(g) && {
                &&& g.lt_spec(Double::zero_spec()) <==> b.price.lt_spec(px)
                &&& b.price.amount() == px.amount() ==> g.amount() == 0
                &&& g.finite() ==> rounding::grain() * rounding::size(
                    (u + g.amount()) * px.amount() - b.price.amount() * u,
                ) <= px.amount() * (3 * rounding::size(g.amount()) + 2 * u)
            }
        }),
{
    let q = b.price.div_spec(px);
    let one = Double::int_spec(1);
    let g = q.sub_spec(one);
    crate::double::lemma_scaled_zero();
    if b.price.amount() < px.amount() {
        rounding::lemma_part_is_less(b.price, px);
    } else {
        rounding::lemma_whole_is_not_less(b.price, px);
    }
    rounding::lemma_less_one(q);
    if g.finite() {
        rounding::lemma_one_is_exact();
        rounding::lemma_change_error(b.price, px);
    }
}

/// Whether a history's closes are prices.
pub open spec fn closes_are_prices(s: Seq<DayView>) -> bool {
    forall|i: int|
        0 <= i < s.len() ==> (#[trigger] s[i]).close.finite() && s[i].close.amount() >= 0
}

/// Whether odds are no higher than others.
pub open spec fn no_higher(a: Option<Double>, b: Option<Double>) -> bool {
    match (a, b) {
        (Some(x), Some(y)) => x.le_spec(y),
        (None, None) => true,
        _ => false,
    }
}

/// Whether one rung's odds are no higher than another's, horizon by horizon.
pub open spec fn odds_no_higher(a: Seq<(Seq<char>, Odds)>, b: Seq<(Seq<char>, Odds)>) -> bool {
    &&& a.len() == b.len()
    &&& forall|i: int|
        0 <= i < a.len() ==> {
            &&& (#[trigger] a[i]).0 == b[i].0
            &&& a[i].1.all_n == b[i].1.all_n
            &&& a[i].1.now_n == b[i].1.now_n
            &&& no_higher(a[i].1.all, b[i].1.all)
            &&& no_higher(a[i].1.now, b[i].1.now)
        }
}

proof fn lemma_deeper_hits_less(
    s: Seq<DayView>,
    low: Double,
    high: Double,
    horizon: usize,
    keep: Option<Seq<bool>>,
    n: nat,
)
    requires
        n <= s.len(),
        closes_are_prices(s),
        low.le_spec(high),
        low.finite(),
        high.finite(),
        Double::int_spec(1).add_spec(low).finite(),
        Double::int_spec(1).add_spec(high).finite(),
    ensures
        odds_in(s, low, horizon, keep, n).0 <= odds_in(s, high, horizon, keep, n).0,
        odds_in(s, low, horizon, keep, n).1 == odds_in(s, high, horizon, keep, n).1,
    decreases n,
{
    if n > 0 {
        lemma_deeper_hits_less(s, low, high, horizon, keep, (n - 1) as nat);
        let c = s[n - 1].close;
        let one = Double::int_spec(1);
        rounding::lemma_one_is_exact();
        rounding::lemma_add_swaps(one, low);
        rounding::lemma_add_swaps(one, high);
        rounding::lemma_add_order(low, high, one);
        let x = one.add_spec(low);
        let y = one.add_spec(high);
        rounding::lemma_mul_swaps(c, x);
        rounding::lemma_mul_swaps(c, y);
        rounding::lemma_mul_order(x, y, c);
    }
}

proof fn lemma_share_order(a: usize, b: usize, all: usize)
    requires
        a <= b,
    ensures
        no_higher(share_spec(a, all), share_spec(b, all)),
{
    if all > 0 {
        rounding::lemma_count(a as int);
        rounding::lemma_count(b as int);
        rounding::lemma_count(all as int);
        rounding::lemma_count_order(a as int, b as int);
        vstd::arithmetic::power2::lemma_pow2_pos(1074);
        rounding::lemma_div_order(
            Double::int_spec(a as int),
            Double::int_spec(b as int),
            Double::int_spec(all as int),
        );
    }
}

proof fn lemma_put_keeps_order(
    a: Seq<(Seq<char>, Odds)>,
    b: Seq<(Seq<char>, Odds)>,
    key: Seq<char>,
    x: Odds,
    y: Odds,
    n: nat,
)
    requires
        n <= a.len(),
        odds_no_higher(a, b),
        odds_no_higher(seq![(key, x)], seq![(key, y)]),
    ensures
        ({
            let (k, p) = copy_odds_spec(key, x, a, false, Seq::empty(), n);
            let (l, q) = copy_odds_spec(key, y, b, false, Seq::empty(), n);
            k == l && p.len() == n && odds_no_higher(p, q)
        }),
    decreases n,
{
    if n > 0 {
        lemma_put_keeps_order(a, b, key, x, y, (n - 1) as nat);
        assert(a[n - 1].0 == b[n - 1].0);
        assert(seq![(key, x)][0].1 == x && seq![(key, y)][0].1 == y);
    }
}

proof fn lemma_horizons_in_order(
    days: Seq<DayView>,
    low: Double,
    high: Double,
    keep: Seq<bool>,
    hs: Seq<usize>,
    n: nat,
)
    requires
        n <= hs.len(),
        days.len() <= usize::MAX,
        closes_are_prices(days),
        low.le_spec(high),
        low.finite(),
        high.finite(),
        Double::int_spec(1).add_spec(low).finite(),
        Double::int_spec(1).add_spec(high).finite(),
    ensures
        odds_no_higher(
            add_horizon_spec(days, low, keep, hs, Seq::empty(), n),
            add_horizon_spec(days, high, keep, hs, Seq::empty(), n),
        ),
    decreases n,
{
    if n > 0 {
        lemma_horizons_in_order(days, low, high, keep, hs, (n - 1) as nat);
        let a = add_horizon_spec(days, low, keep, hs, Seq::empty(), (n - 1) as nat);
        let b = add_horizon_spec(days, high, keep, hs, Seq::empty(), (n - 1) as nat);
        let h = hs[n - 1];
        lemma_deeper_hits_less(days, low, high, h, None, days.len());
        lemma_deeper_hits_less(days, low, high, h, Some(keep), days.len());
        law_odds_are_a_frequency(days, low, h, None, days.len());
        law_odds_are_a_frequency(days, low, h, Some(keep), days.len());
        law_odds_are_a_frequency(days, high, h, None, days.len());
        law_odds_are_a_frequency(days, high, h, Some(keep), days.len());
        let x = horizon_odds_spec(days, low, h, keep);
        let y = horizon_odds_spec(days, high, h, keep);
        lemma_share_order(
            odds_of(days, low, h, None).0,
            odds_of(days, high, h, None).0,
            odds_of(days, low, h, None).1,
        );
        lemma_share_order(
            odds_of(days, low, h, Some(keep)).0,
            odds_of(days, high, h, Some(keep)).0,
            odds_of(days, low, h, Some(keep)).1,
        );
        assert(seq![(text::dec(h as nat), x)][0].1 == x && seq![(text::dec(h as nat), y)][0].1 == y);
        lemma_put_keeps_order(a, b, text::dec(h as nat), x, y, a.len());
    }
}

/// Of two rungs of a coin, the lower one is never the likelier to fill, at any horizon.
pub proof fn law_a_lower_rung_is_no_likelier(
    low: OpenBuyView,
    high: OpenBuyView,
    px: Double,
    h: HistoryView,
    bull: Seq<Seq<char>>,
    want: bool,
    horizons: Seq<usize>,
)
    requires
        low.price.finite(),
        high.price.finite(),
        0 < low.price.amount() <= high.price.amount(),
        high.price.amount() <= px.amount(),
        px.finite(),
        h.days.len() <= usize::MAX,
        closes_are_prices(h.days),
    ensures
        odds_no_higher(
            row_with_spec(low, px, h, bull, want, horizons).odds,
            row_with_spec(high, px, h, bull, want, horizons).odds,
        ),
{
    let one = Double::int_spec(1);
    let p = low.price.div_spec(px);
    let q = high.price.div_spec(px);
    rounding::lemma_one_is_exact();
    rounding::lemma_div_order(low.price, high.price, px);
    lemma_gap_is_small(low.price, px);
    lemma_gap_is_small(high.price, px);
    rounding::lemma_add_order(p, q, one.neg_spec());
    lemma_horizons_in_order(
        h.days,
        p.sub_spec(one),
        q.sub_spec(one),
        like_now_spec(h.days, h.gates, bull, want),
        horizons,
        horizons.len(),
    );
}

/// The gap of a rung that is not above spot is a number from minus one to zero.
proof fn lemma_gap_is_small(price: Double, px: Double)
    requires
        price.finite(),
        px.finite(),
        0 < price.amount() <= px.amount(),
    ensures
        price.div_spec(px).finite(),
        price.div_spec(px).sub_spec(Double::int_spec(1)).finite(),
        Double::int_spec(1).add_spec(price.div_spec(px).sub_spec(Double::int_spec(1))).finite(),
{
    let one = Double::int_spec(1);
    let q = price.div_spec(px);
    let zero = Double::zero_spec();
    rounding::lemma_one_is_exact();
    crate::double::lemma_scaled_zero();
    vstd::arithmetic::power2::lemma_pow2_pos(1074);
    if price.amount() < px.amount() {
        rounding::lemma_part_is_less(price, px);
    } else {
        rounding::lemma_whole_is_not_less(price, px);
        rounding::lemma_infinite_is_last(q);
        rounding::lemma_infinite_is_last(one);
        if q.infinite() {
            assert(q.amount() == crate::double::unit());
        }
    }
    rounding::lemma_infinite_is_last(one);
    rounding::lemma_infinite_is_last(one.neg_spec());
    // From 0 - 1 to 1 - 1.
    let g = q.sub_spec(one);
    rounding::lemma_add_order(zero, q, one.neg_spec());
    rounding::lemma_add_order(q, one, one.neg_spec());
    rounding::lemma_exact_sum(zero, one.neg_spec(), one.neg_spec());
    rounding::lemma_exact_sum(one, one.neg_spec(), zero);
    rounding::lemma_infinite_is_last(g);
    assert(g.finite()) by {
        if g.infinite() {
            assert(rounding::size(g.amount()) == crate::double::scaled(
                crate::double::INFINITE as nat,
            ));
        }
    }
    let t = one.add_spec(g);
    rounding::lemma_add_swaps(one, g);
    rounding::lemma_add_order(one.neg_spec(), g, one);
    rounding::lemma_add_order(g, zero, one);
    rounding::lemma_exact_sum(one.neg_spec(), one, zero);
    rounding::lemma_exact_sum(zero, one, one);
    rounding::lemma_infinite_is_last(t);
    if t.infinite() {
        assert(rounding::size(t.amount()) == crate::double::scaled(crate::double::INFINITE as nat));
    }
}

/// The low of a window is one of its days' lows, and none of them is lower.
pub proof fn law_the_low_is_the_lowest_of_the_window(s: Seq<DayView>, i: int, k: nat, j: int)
    requires
        0 < j <= k,
        0 <= i,
        i + k < s.len(),
        forall|m: int| 0 <= m < s.len() ==> (#[trigger] s[m]).low.finite(),
    ensures
        low_within(s, i, k).le_spec(s[i + j].low),
        exists|m: int| i < m <= i + k && (#[trigger] s[m]).low == low_within(s, i, k),
    decreases k,
{
    let n = (k - 1) as nat;
    assert(s[i + k].low.finite());
    if n == 0 {
        reveal_with_fuel(low_within, 2);
        crate::double::lemma_scaled_zero();
        rounding::lemma_infinite_is_last(s[i + 1].low);
        let m = i + 1;
        assert(s[m].low == low_within(s, i, k));
    } else {
        let p = if j < k {
            j
        } else {
            1
        };
        law_the_low_is_the_lowest_of_the_window(s, i, n, p);
        let m = choose|m: int| i < m <= i + n && (#[trigger] s[m]).low == low_within(s, i, n);
        if low_within(s, i, k) == s[i + k].low {
            let m = i + k;
            assert(s[m].low == low_within(s, i, k));
        } else {
            assert(s[m].low == low_within(s, i, k));
        }
    }
}

/// What is reached within a window is reached within a longer one.
pub proof fn law_a_longer_window_reaches_no_less(
    s: Seq<DayView>,
    gap: Double,
    short: usize,
    long: usize,
    i: int,
)
    requires
        0 < short <= long,
        0 <= i,
        i + long < s.len(),
        forall|m: int| 0 <= m < s.len() ==> (#[trigger] s[m]).low.finite(),
        reached(s, gap, short, i),
    ensures
        reached(s, gap, long, i),
{
    law_the_low_is_the_lowest_of_the_window(s, i, short as nat, 1);
    let m = choose|m: int|
        i < m <= i + short && (#[trigger] s[m]).low == low_within(s, i, short as nat);
    law_the_low_is_the_lowest_of_the_window(s, i, long as nat, m - i);
}

/// A frequency is none at no hit, one where all are hits, and grows with the hits.
pub proof fn law_a_frequency_is_between_none_and_all(fewer: usize, more: usize, all: usize)
    requires
        fewer <= more <= all,
        0 < all < 0x20_0000_0000_0000,
    ensures
        share_spec(fewer, all) matches Some(a) && (share_spec(more, all) matches Some(b) && {
            &&& 0 <= a.amount() <= b.amount() <= crate::double::unit()
            &&& fewer == 0 ==> a.amount() == 0
            &&& more == all ==> b.amount() == crate::double::unit()
            &&& more < all ==> b.amount() < crate::double::unit()
            &&& rounding::grain() * rounding::size(
                b.amount() * all - more * crate::double::unit(),
            ) <= all * (b.amount() + rounding::least())
        }),
{
    let f = Double::int_spec(fewer as int);
    let m = Double::int_spec(more as int);
    let k = Double::int_spec(all as int);
    let zero = Double::zero_spec();
    let u = crate::double::unit() as int;
    crate::double::lemma_scaled_zero();
    vstd::arithmetic::power2::lemma_pow2_pos(1074);
    rounding::lemma_whole_is_exact(fewer as int);
    rounding::lemma_whole_is_exact(more as int);
    rounding::lemma_whole_is_exact(all as int);
    assert(0 <= fewer * u <= more * u <= all * u && all * u > 0) by (nonlinear_arith)
        requires
            0 <= fewer <= more <= all,
            all > 0,
            u > 0,
    ;
    assert(more < all ==> more * u < all * u) by (nonlinear_arith)
        requires
            u > 0,
    ;
    rounding::lemma_nothing_over(k);
    rounding::lemma_div_order(zero, f, k);
    rounding::lemma_div_order(f, m, k);
    rounding::lemma_whole_is_not_less(k, k);
    rounding::lemma_div_order(m, k, k);
    if fewer == 0 {
        assert(0 * u == 0);
        rounding::lemma_div_order(f, zero, k);
    }
    if more == all {
        rounding::lemma_div_order(k, m, k);
    } else {
        rounding::lemma_part_is_less(m, k);
    }
    let b = m.div_spec(k);
    rounding::lemma_one_is_exact();
    rounding::lemma_infinite_is_last(Double::int_spec(1));
    assert(b.finite()) by {
        if b.infinite() {
            assert(b.amount() == crate::double::scaled(crate::double::INFINITE as nat));
        }
    }
    rounding::lemma_div_error(m, k);
    let x = b.amount() * all - more * u;
    let y = b.amount() * (all * u) - (more * u) * u;
    assert(y == x * u) by (nonlinear_arith)
        requires
            x == b.amount() * all - more * u,
            y == b.amount() * (all * u) - (more * u) * u,
    ;
    assert(rounding::size(y) == rounding::size(x) * u) by (nonlinear_arith)
        requires
            y == x * u,
            u > 0,
            rounding::size(x) == (if x < 0 { -x } else { x }),
            rounding::size(y) == (if y < 0 { -y } else { y }),
    ;
    let g = rounding::grain();
    let c = b.amount() + rounding::least();
    let s = rounding::size(x);
    assert(g * s <= all * c) by (nonlinear_arith)
        requires
            g * (s * u) <= (all * u) * c,
            u > 0,
    ;
}

/// What is left of a buy and what filled make its size, but for rounding.
pub proof fn law_filled_and_unfilled_make_the_size(o: OrderView, base: Double)
    requires
        o.base == Some(base),
        base.finite(),
        journal::booked_spec(o).finite(),
        unfilled_spec(o).finite(),
    ensures
        rounding::grain() * rounding::size(
            unfilled_spec(o).amount() + journal::booked_spec(o).amount() - base.amount(),
        ) <= rounding::size(unfilled_spec(o).amount()) + rounding::least(),
        unfilled_spec(o).amount() > 0 <==> journal::booked_spec(o).amount() < base.amount(),
        journal::booked_spec(o).amount() == 0 ==> unfilled_spec(o).amount() == base.amount(),
{
    rounding::lemma_sub_error(base, journal::booked_spec(o));
    rounding::lemma_sub_sign(base, journal::booked_spec(o));
    if journal::booked_spec(o).amount() == 0 {
        rounding::lemma_exact_difference(base, journal::booked_spec(o), base);
    }
}

/// What is expected to fill is never more than what rests: all of it where it is sure, nothing where
/// it is out of reach.
pub proof fn law_no_more_fills_than_rests(hmax: usize, rows: Seq<RowView>, i: int)
    requires
        0 <= i < rows.len(),
        rows[i].usd.finite(),
        rows[i].usd.amount() >= 0,
        now_at_spec(rows[i], hmax).finite(),
        0 <= now_at_spec(rows[i], hmax).amount() <= crate::double::unit(),
    ensures
        ({
            let e = add_expected_spec(hmax, rows, Seq::empty(), rows.len())[i];
            let p = now_at_spec(rows[i], hmax);
            &&& 0 <= e.amount() <= rows[i].usd.amount()
            &&& p.amount() == crate::double::unit() ==> e.amount() == rows[i].usd.amount()
            &&& p.amount() == 0 ==> e.amount() == 0
        }),
{
    let x = rows[i].usd;
    let p = now_at_spec(rows[i], hmax);
    let one = Double::int_spec(1);
    let zero = Double::zero_spec();
    crate::double::lemma_scaled_zero();
    rounding::lemma_one_is_exact();
    rounding::lemma_times_grows(p, one, x);
    rounding::lemma_times_one(x);
    rounding::lemma_times_grows(zero, p, x);
    assert(x.amount() * 0 == 0 * crate::double::unit());
    rounding::lemma_exact_product(x, zero, zero);
    if p.amount() == crate::double::unit() {
        assert(x.amount() * p.amount() == x.amount() * crate::double::unit());
        rounding::lemma_exact_product(x, p, x);
    }
    if p.amount() == 0 {
        assert(x.amount() * p.amount() == 0 * crate::double::unit()) by (nonlinear_arith)
            requires
                p.amount() == 0,
        ;
        rounding::lemma_exact_product(x, p, zero);
    }
}

} // verus!
