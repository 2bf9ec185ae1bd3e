//! The regime as a file: the cached reading and the day-by-day label history.
//!
//! * **The cached reading** ([`compute_state`]): the label, the BTC trend numbers, breadth and
//!   every coin's RUN gate. A coin whose candles fail is kept with its error rather than
//!   dropped, and still counts in the breadth denominator.
//! * **The label history** ([`label_history`]): the label of every day of history, how long
//!   the last one has held, and which stage of which label was already announced
//!   ([`pending_shift`], [`mark_notified`]).
//!
//! Once a label is confirmed, the announcements of every other label are forgotten: the next
//! time one of them returns it is a new cycle and is announced again. A provisional flip-flop
//! between two labels is announced only once.
use crate::double::Double;
use crate::list;
use crate::list::Duplicate;
use crate::rounding;
use crate::text;
use crate::watch::json;
use crate::watch::json::{Doc, Json};
use crate::watch::pyfmt;
use crate::watch::fields;
use vstd::prelude::*;

verus! {

/// Days of daily candles replayed for the history.
pub const HIST_DAYS: usize = 420;

/// Held days after which a label counts as confirmed.
pub const CONFIRM_DAYS: i64 = 14;

/// Hours a cached history is reused before it is replayed again.
pub const HIST_TTL_H: i64 = 12;

/// Hours a cached regime reading is reused.
pub const TTL_H: i64 = 6;

/// What an empty series of candles reads as.
pub const INDEX_ERROR: &'static str = "list index out of range";

/// A coin's RUN gate: whether it runs, and the signs behind it.
#[derive(Debug)]
pub struct Gate {
    pub running: bool,
    pub signals: Json,
}

/// What a [`Gate`] holds.
pub struct GateView {
    pub running: bool,
    pub signals: Doc,
}

impl DeepView for Gate {
    type V = GateView;

    open spec fn deep_view(&self) -> GateView {
        GateView {
            running: self.running,
            signals: self.signals@,
        }
    }
}

/// A routed coin: its daily closes or why they could not be read, and its gate.
#[derive(Debug)]
pub struct Coin {
    pub sym: String,
    pub closes: Result<Vec<Double>, String>,
    pub gate: Gate,
}

/// What a [`Coin`] holds.
pub struct CoinView {
    pub sym: Seq<char>,
    pub closes: Result<Seq<Double>, Seq<char>>,
    pub gate: GateView,
}

impl DeepView for Coin {
    type V = CoinView;

    open spec fn deep_view(&self) -> CoinView {
        CoinView {
            sym: self.sym@,
            closes: list::outcome(self.closes),
            gate: self.gate.deep_view(),
        }
    }
}

/// The mean, 0 of nothing.
pub open spec fn mean_spec(v: Seq<Double>) -> Double {
    if v.len() == 0 {
        Double::zero_spec()
    } else {
        pyfmt::sum_spec(v).div_spec(Double::int_spec(((v.len() as usize)) as int))
    }
}

fn mean(v: &Vec<Double>) -> (r: Double)
    ensures
        r == mean_spec(v.deep_view()),
{
    if v.len() == 0 {
        return Double::zero();
    }
    list::sum(v).over(Double::of_count(v.len()))
}

/// The 30-day average, where there are 30 days.
pub open spec fn sma30_spec(v: Seq<Double>) -> Option<Double> {
    if v.len() >= 30 {
        Some(mean_spec(list::ending(v, 30)))
    } else {
        None
    }
}

fn sma30(v: &Vec<Double>) -> (r: Option<Double>)
    ensures
        r == sma30_spec(v.deep_view()),
{
    if v.len() >= 30 {
        return Some(mean(&list::tail(v, 30)));
    }
    None
}

/// Whether the last close is above the 30-day average.
pub open spec fn is_above_spec(v: Seq<Double>) -> bool {
    match list::end(v) {
        Some(px) => match sma30_spec(v) {
            Some(s) => s.lt_spec(px),
            None => false,
        },
        None => false,
    }
}

fn is_above(v: &Vec<Double>) -> (r: bool)
    ensures
        r == is_above_spec(v.deep_view()),
{
    match list::own(list::last(v)) {
        Some(px) => match sma30(v) {
            Some(s) => s.lt(px),
            None => false,
        },
        None => false,
    }
}

/// A coin that could not be read.
pub open spec fn failed_coin_spec(why: Seq<char>) -> Doc {
    Doc::obj().with("running"@, Doc::Bool(false)).with("error"@, Doc::Str(why))
}

fn failed_coin(why: &str) -> (r: Json)
    ensures
        r@ == failed_coin_spec(why@),
{
    Json::obj().with("running", Json::Bool(false)).with("error", Json::text(why))
}

/// What is kept of a coin.
pub open spec fn coin_entry_spec(c: CoinView) -> Doc {
    match c.closes {
        Err(why) => failed_coin_spec(why),
        Ok(v) => match list::end(v) {
            None => failed_coin_spec(INDEX_ERROR@),
            Some(px) => {
                let avg: Option<Double> = None;
                let avg = match sma30_spec(v) {
                    Some(s) => Some(pyfmt::round_spec(s, 8)),
                    None => None,
                };
                Doc::obj().with("running"@, Doc::Bool(c.gate.running)).with(
                    "signals"@,
                    c.gate.signals,
                ).with(
                    "px"@,
                    Doc::Float(px),
                ).with(
                    "sma30"@,
                    json::float_or_null(avg),
                )
            },
        },
    }
}

fn coin_entry(c: &Coin) -> (r: Json)
    ensures
        r@ == coin_entry_spec(c.deep_view()),
{
    match &c.closes {
        Err(why) => failed_coin(why.as_str()),
        Ok(v) => match list::own(list::last(v)) {
            None => failed_coin(INDEX_ERROR),
            Some(px) => {
                let mut avg: Option<Double> = None;
                match sma30(v) {
                    Some(s) => {
                        avg = Some(pyfmt::round(s, 8));
                    },
                    None => {
                        avg = None;
                    },
                }
                Json::obj().with("running", Json::Bool(c.gate.running)).with(
                    "signals",
                    c.gate.signals.copy(),
                ).with(
                    "px",
                    Json::Float(px),
                ).with(
                    "sma30",
                    json::number_or_null(avg),
                )
            },
        },
    }
}

/// The entries of the first `n` coins.
pub open spec fn add_entries_spec(xs: Seq<CoinView>, out: Doc, n: nat) -> Doc
    decreases n,
{
    if n == 0 {
        out
    } else {
        let out = add_entries_spec(xs, out, (n - 1) as nat);
        let c = xs[n - 1];
        out.set(c.sym, coin_entry_spec(c))
    }
}

fn add_entries(xs: &Vec<Coin>, out: Json) -> (r: Json)
    ensures
        r@ == add_entries_spec(xs.deep_view(), out@, xs@.len()),
{
    let ghost out0 = out@;
    let mut out = out;
    let mut i: usize = 0;
    while i < xs.len()
        invariant
            i <= xs@.len(),
            out@ == add_entries_spec(xs.deep_view(), out0, i as nat),
        decreases xs@.len() - i,
    {
        let c = &xs[i];
        out.set(c.sym.as_str(), coin_entry(c));
        i = i + 1;
    }
    out
}

/// What is kept of every coin, by symbol.
pub open spec fn coin_entries_spec(coins: Seq<CoinView>) -> Doc {
    let out = Doc::obj();
    add_entries_spec(coins, out, coins.len())
}

fn coin_entries(coins: &Vec<Coin>) -> (r: Json)
    ensures
        r@ == coin_entries_spec(coins.deep_view()),
{
    let mut out = Json::obj();
    out = add_entries(coins, out);
    out
}

/// Those of the first `n` coins.
pub open spec fn add_above_spec(xs: Seq<CoinView>, up: Seq<Seq<char>>, n: nat) -> Seq<Seq<char>> {
    up + list::gathered(
        xs,
        |c: CoinView| match c.closes {
            Ok(v) => if is_above_spec(v) {
                Some(c.sym)
            } else {
                None
            },
            Err(_) => None,
        },
        n,
    )
}

fn add_above(xs: &Vec<Coin>, up: Vec<String>) -> (r: Vec<String>)
    ensures
        r.deep_view() == add_above_spec(xs.deep_view(), up.deep_view(), xs@.len()),
{
    let ghost up0 = up.deep_view();
    let mut up = up;
    let mut i: usize = 0;
    while i < xs.len()
        invariant
            i <= xs@.len(),
            up.deep_view() == add_above_spec(xs.deep_view(), up0, i as nat),
        decreases xs@.len() - i,
    {
        let c = &xs[i];
        match &c.closes {
            Ok(v) => {
                if is_above(v) {
                    list::push(&mut up, text::owned(c.sym.as_str()));
                }
            },
            Err(_) => {},
        }
        assert(up.deep_view() =~= add_above_spec(xs.deep_view(), up0, (i + 1) as nat));
        i = i + 1;
    }
    up
}

/// The coins whose last close is above their 30-day average.
pub open spec fn above_sma30_spec(coins: Seq<CoinView>) -> Seq<Seq<char>> {
    add_above_spec(coins, Seq::<Seq<char>>::empty(), coins.len())
}

/// The coins whose last close is above their 30-day average.
pub fn above_sma30(coins: &Vec<Coin>) -> (r: Vec<String>)
    ensures
        r.deep_view() == above_sma30_spec(coins.deep_view()),
{
    let mut up: Vec<String> = list::none();
    up = add_above(coins, up);
    up
}

/// The regime reading as the state file holds it. `coins` come in routing order, `btc` are
/// the daily closes of BTC, `label` is the market's label where they could be read, `epoch`
/// the time of the reading in whole seconds.
pub open spec fn compute_state_spec(
    coins: Seq<CoinView>,
    btc: Result<Seq<Double>, Seq<char>>,
    label: Seq<char>,
    epoch: i64,
) -> Doc {
    let market = "unknown"@;
    let info = Doc::obj().with("error"@, Doc::Str(INDEX_ERROR@));
    let (market, info) = match btc {
        Ok(b) => match list::end(b) {
            Some(px) => {
                let market = label;
                let info = Doc::obj().with("px"@, Doc::Float(px)).with(
                    "sma100"@,
                    Doc::Float(pyfmt::round_spec(mean_spec(list::ending(b, 100)), 2)),
                ).with(
                    "sma200"@,
                    Doc::Float(pyfmt::round_spec(mean_spec(list::ending(b, 200)), 2)),
                );
                (market, info)
            },
            None => (market, info),
        },
        Err(why) => (market, Doc::obj().with("error"@, Doc::Str(why))),
    };
    let breadth = text::dec(((above_sma30_spec(coins).len() as usize)) as nat)
        + "/"@
        + text::dec(((coins.len() as usize)) as nat);
    Doc::obj().with("epoch"@, Doc::Int(epoch)).with("market"@, Doc::Str(market)).with(
        "btc"@,
        info,
    ).with(
        "breadth_above_sma30"@,
        Doc::Str(breadth),
    ).with(
        "coins"@,
        coin_entries_spec(coins),
    )
}

/// The regime reading as the state file holds it. `coins` come in routing order, `btc` are
/// the daily closes of BTC, `label` is the market's label where they could be read, `epoch`
/// the time of the reading in whole seconds.
pub fn compute_state(
    coins: &Vec<Coin>,
    btc: &Result<Vec<Double>, String>,
    label: &str,
    epoch: i64,
) -> (r: Json)
    ensures
        r@ == compute_state_spec(coins.deep_view(), list::outcome(*btc), label@, epoch),
{
    let mut market = text::owned("unknown");
    let mut info = Json::obj().with("error", Json::text(INDEX_ERROR));
    match btc {
        Ok(b) => {
            match list::own(list::last(b)) {
                Some(px) => {
                    market = text::owned(label);
                    info = Json::obj().with("px", Json::Float(px)).with(
                        "sma100",
                        Json::Float(pyfmt::round(mean(&list::tail(b, 100)), 2)),
                    ).with(
                        "sma200",
                        Json::Float(pyfmt::round(mean(&list::tail(b, 200)), 2)),
                    );
                },
                None => {},
            }
        },
        Err(why) => {
            info = Json::obj().with("error", Json::text(why.as_str()));
        },
    }
    let mut breadth = text::dec_u64(above_sma30(coins).len() as u64);
    breadth.push_str("/");
    breadth.push_str(text::dec_u64(coins.len() as u64).as_str());
    Json::obj().with("epoch", Json::Int(epoch)).with("market", Json::text(market.as_str())).with(
        "btc",
        info,
    ).with(
        "breadth_above_sma30",
        Json::text(breadth.as_str()),
    ).with(
        "coins",
        coin_entries(coins),
    )
}

/// Whether a cached file is younger than `ttl_h` hours. An `epoch` that is missing or not a
/// number is 0.
pub open spec fn is_fresh_spec(cached: Doc, now: Double, ttl_h: Double) -> bool {
    now.sub_spec(fields::num_or_spec(cached, "epoch"@, Double::zero_spec())).lt_spec(
        ttl_h.mul_spec(Double::int_spec(3600)),
    )
}

/// Whether a cached file is younger than `ttl_h` hours. An `epoch` that is missing or not a
/// number is 0.
pub fn is_fresh(cached: &Json, now: Double, ttl_h: Double) -> (r: bool)
    ensures
        r == is_fresh_spec(cached@, now, ttl_h),
{
    now.minus(fields::num_or(cached, "epoch", Double::zero())).lt(
        ttl_h.times(Double::of_int(3600)),
    )
}

/// The shortest series, 0 where there is none.
pub open spec fn shortest(series: Seq<Seq<Double>>, n: nat) -> nat
    decreases n,
{
    if n == 0 {
        0
    } else if n == 1 || series[n - 1].len() < shortest(series, (n - 1) as nat) {
        series[n - 1].len()
    } else {
        shortest(series, (n - 1) as nat)
    }
}

/// Whether a coin closed above its 30-day average on day `i` of the days that all series
/// cover.
pub open spec fn above_on(v: Seq<Double>, days: nat, i: int) -> bool {
    let c = v.skip(v.len() - days);
    i >= 30 && mean_spec(c.subrange(i - 30, i)).lt_spec(c[i - 1])
}

/// How many of the first `n` coins were above their average on day `i`.
pub open spec fn breadth_on(series: Seq<Seq<Double>>, days: nat, i: int, n: nat) -> nat
    decreases n,
{
    if n == 0 {
        0
    } else {
        breadth_on(series, days, i, (n - 1) as nat) + if above_on(series[n - 1], days, i) {
            1nat
        } else {
            0nat
        }
    }
}

/// Whether there is enough history to label.
pub open spec fn covered(series: Seq<Seq<Double>>, btc: Seq<Double>) -> bool {
    200 < shortest(series, series.len()) <= btc.len()
}

/// The days of history that get a label, each with the breadth on it: day 200 and every later
/// one of those that all series cover, none where BTC's series is shorter.
pub open spec fn history_days_spec(series: Seq<Seq<Double>>, btc: Seq<Double>) -> Seq<(
    usize,
    usize,
)> {
    let days = shortest(series, series.len());
    if covered(series, btc) {
        Seq::new(
            (days - 199) as nat,
            |k: int| ((200 + k) as usize, breadth_on(series, days, 200 + k, series.len()) as usize),
        )
    } else {
        Seq::empty()
    }
}

fn shortest_of(series: &Vec<Vec<Double>>) -> (r: usize)
    ensures
        r == shortest(series.deep_view(), series@.len()),
        forall|i: int| 0 <= i < series@.len() ==> r <= (#[trigger] series@[i])@.len(),
{
    let mut r: usize = 0;
    let mut k: usize = 0;
    while k < series.len()
        invariant
            k <= series@.len(),
            r == shortest(series.deep_view(), k as nat),
            forall|i: int| 0 <= i < k ==> r <= (#[trigger] series@[i])@.len(),
        decreases series@.len() - k,
    {
        assert(series.deep_view()[k as int].len() == series@[k as int]@.len());
        if k == 0 || series[k].len() < r {
            r = series[k].len();
        }
        k = k + 1;
    }
    r
}

fn above_that_day(v: &Vec<Double>, days: usize, i: usize) -> (r: bool)
    requires
        days <= v@.len(),
        0 < i <= days,
    ensures
        r == above_on(v.deep_view(), days as nat, i as int),
{
    if i < 30 {
        return false;
    }
    let from: usize = v.len() - days;
    let window = list::head(&list::rest(v, from + (i - 30)), 30);
    let ghost c = v.deep_view().skip(v@.len() - days);
    assert(window.deep_view() =~= c.subrange(i - 30, i as int));
    assert(c[i - 1] == v@[from + i - 1]);
    mean(&window).lt(v[from + (i - 1)])
}

fn breadth_that_day(series: &Vec<Vec<Double>>, days: usize, i: usize) -> (r: usize)
    requires
        forall|k: int| 0 <= k < series@.len() ==> days <= (#[trigger] series@[k])@.len(),
        0 < i <= days,
    ensures
        r == breadth_on(series.deep_view(), days as nat, i as int, series@.len()),
{
    let mut r: usize = 0;
    let mut k: usize = 0;
    while k < series.len()
        invariant
            k <= series@.len(),
            r <= k,
            forall|k: int| 0 <= k < series@.len() ==> days <= (#[trigger] series@[k])@.len(),
            0 < i <= days,
            r == breadth_on(series.deep_view(), days as nat, i as int, k as nat),
        decreases series@.len() - k,
    {
        assert(series.deep_view()[k as int] == series@[k as int].deep_view());
        if above_that_day(&series[k], days, i) {
            r = r + 1;
        }
        k = k + 1;
    }
    r
}

/// The days of history that get a label, each with the breadth on it. `series` are the coins
/// whose candles came back, `btc` the closes of BTC: the last days that all series cover
/// count, and with 200 of them or fewer, or a BTC series that does not cover them, there is
/// no history.
pub fn history_days(series: &Vec<Vec<Double>>, btc: &Vec<Double>) -> (r: Vec<(usize, usize)>)
    ensures
        r@ == history_days_spec(series.deep_view(), btc.deep_view()),
{
    let days: usize = shortest_of(series);
    let mut r: Vec<(usize, usize)> = Vec::new();
    if days <= 200 || btc.len() < days {
        assert(r@ =~= history_days_spec(series.deep_view(), btc.deep_view()));
        return r;
    }
    let mut i: usize = 200;
    loop
        invariant_except_break
            r@.len() == i - 200,
        invariant
            200 <= i <= days,
            days == shortest(series.deep_view(), series@.len()),
            forall|k: int| 0 <= k < series@.len() ==> days <= (#[trigger] series@[k])@.len(),
            forall|k: int|
                0 <= k < r@.len() ==> (#[trigger] r@[k]) == (
                    (200 + k) as usize,
                    breadth_on(series.deep_view(), days as nat, 200 + k, series@.len()) as usize,
                ),
        ensures
            r@.len() == days - 199,
            forall|k: int|
                0 <= k < r@.len() ==> (#[trigger] r@[k]) == (
                    (200 + k) as usize,
                    breadth_on(series.deep_view(), days as nat, 200 + k, series@.len()) as usize,
                ),
        decreases days - i,
    {
        let b: usize = breadth_that_day(series, days, i);
        r.push((i, b));
        if i == days {
            break;
        }
        i = i + 1;
    }
    assert(r@ =~= history_days_spec(series.deep_view(), btc.deep_view()));
    r
}

/// How many labels at the end are the last one, of the first `n`.
pub open spec fn run_length(labels: Seq<Seq<char>>, label: Seq<char>, n: nat) -> nat
    decreases n,
{
    if n == 0 || labels[n - 1] != label {
        0
    } else {
        run_length(labels, label, (n - 1) as nat) + 1
    }
}

/// How many days the last label has held.
pub open spec fn held_spec(labels: Seq<Seq<char>>) -> i64 {
    if labels.len() == 0 {
        0
    } else {
        run_length(labels, labels[labels.len() - 1], labels.len()) as i64
    }
}

/// The label before the last one.
pub open spec fn before_last_spec(labels: Seq<Seq<char>>) -> Option<Seq<char>> {
    if labels.len() == 0 {
        None
    } else {
        let k = run_length(labels, labels[labels.len() - 1], labels.len());
        if k < labels.len() {
            Some(labels[labels.len() - 1 - k])
        } else {
            None
        }
    }
}

proof fn lemma_run_steps(labels: Seq<Seq<char>>, label: Seq<char>, n: nat, k: nat)
    requires
        k <= n <= labels.len(),
        forall|i: int| n - k <= i < n ==> labels[i] == label,
    ensures
        run_length(labels, label, n) == k + run_length(labels, label, (n - k) as nat),
    decreases k,
{
    if k > 0 {
        lemma_run_steps(labels, label, (n - 1) as nat, (k - 1) as nat);
    }
}

fn run_at_end(labels: &Vec<String>) -> (r: usize)
    requires
        labels@.len() > 0,
    ensures
        r == run_length(
            labels.deep_view(),
            labels.deep_view()[labels@.len() - 1],
            labels@.len(),
        ),
        r <= labels@.len(),
{
    let n: usize = labels.len();
    let label = labels[n - 1].as_str();
    let ghost s = labels.deep_view();
    let mut k: usize = 0;
    while k < n && text::same(labels[n - 1 - k].as_str(), label)
        invariant
            k <= n,
            n == labels@.len(),
            s == labels.deep_view(),
            label@ == s[n - 1],
            forall|i: int| n - k <= i < n ==> s[i] == label@,
        decreases n - k,
    {
        assert(s[n - 1 - k] == labels@[n - 1 - k]@);
        k = k + 1;
    }
    proof {
        lemma_run_steps(s, label@, n as nat, k as nat);
        if k < n {
            assert(s[n - 1 - k] == labels@[n - 1 - k]@);
        }
    }
    k
}

fn held(labels: &Vec<String>) -> (r: i64)
    ensures
        r == held_spec(labels.deep_view()),
{
    if labels.len() == 0 {
        0
    } else {
        run_at_end(labels) as i64
    }
}

fn before_last(labels: &Vec<String>) -> (r: Option<String>)
    ensures
        r.deep_view() == before_last_spec(labels.deep_view()),
{
    if labels.len() == 0 {
        return None;
    }
    let k: usize = run_at_end(labels);
    if k < labels.len() {
        Some(text::owned(labels[labels.len() - 1 - k].as_str()))
    } else {
        None
    }
}

/// What the history file held before this run.
#[derive(Debug)]
pub enum Prior {
    Missing,
    /// It exists but is not valid JSON.
    Unreadable,
    Parsed(Json),
}

/// What a [`Prior`] says.
#[allow(inconsistent_fields)]
pub enum PriorView {
    Missing,
    Unreadable,
    Parsed(Doc),
}

impl DeepView for Prior {
    type V = PriorView;

    open spec fn deep_view(&self) -> PriorView {
        match self {
            Prior::Missing => PriorView::Missing,
            Prior::Unreadable => PriorView::Unreadable,
            Prior::Parsed(a) => PriorView::Parsed(a@),
        }
    }
}

/// The result of one [`label_history`] call.
#[derive(Debug)]
pub struct History {
    pub json: Json,
    /// Write `json` back: false when the cache was served as it was.
    pub save: bool,
}

/// What a [`History`] holds.
pub struct HistoryView {
    pub json: Doc,
    pub save: bool,
}

impl DeepView for History {
    type V = HistoryView;

    open spec fn deep_view(&self) -> HistoryView {
        HistoryView {
            json: self.json@,
            save: self.save,
        }
    }
}

/// The object the file held.
pub open spec fn prior_object_spec(prior: PriorView) -> Option<Doc> {
    match prior {
        PriorView::Parsed(j) => if j is Obj {
            Some(j)
        } else {
            None
        },
        PriorView::Missing => None,
        PriorView::Unreadable => None,
    }
}

fn prior_object(prior: &Prior) -> (r: Option<Json>)
    ensures
        r.deep_view() == prior_object_spec(prior.deep_view()),
{
    match prior {
        Prior::Parsed(j) => {
            if j.is_obj() {
                return Some(j.copy());
            }
            None
        },
        Prior::Missing => None,
        Prior::Unreadable => None,
    }
}

/// The cached history, where it is young enough to be served as it is.
pub open spec fn served_spec(
    prior: PriorView,
    now: Double,
    ttl_h: Double,
    force: bool,
) -> Option<Doc> {
    if force {
        None
    } else {
        match prior_object_spec(prior) {
            Some(cached) => if is_fresh_spec(cached, now, ttl_h) {
                Some(cached)
            } else {
                None
            },
            None => None,
        }
    }
}

/// The cached history, where it is young enough to be served as it is.
pub fn served(prior: &Prior, now: Double, ttl_h: Double, force: bool) -> (r: Option<Json>)
    ensures
        r.deep_view() == served_spec(prior.deep_view(), now, ttl_h, force),
{
    if force {
        return None;
    }
    match prior_object(prior) {
        Some(cached) => {
            if is_fresh(&cached, now, ttl_h) {
                return Some(cached);
            }
            None
        },
        None => None,
    }
}

/// Those of the first `n` entries.
pub open spec fn keep_label_spec(
    label: Seq<char>,
    xs: Seq<(Seq<char>, Doc)>,
    out: Seq<(Seq<char>, Doc)>,
    n: nat,
) -> Seq<(Seq<char>, Doc)>
    decreases n,
{
    if n == 0 {
        out
    } else {
        let out = keep_label_spec(label, xs, out, (n - 1) as nat);
        let it = xs[n - 1];
        let k = it.0;
        let v = it.1;
        if k == label {
            out.push((k, v))
        } else {
            out
        }
    }
}

fn keep_label(
    label: &str,
    xs: &Vec<(String, Json)>,
    out: Vec<(String, Json)>,
) -> (r: Vec<(String, Json)>)
    ensures
        r.deep_view() == keep_label_spec(label@, xs.deep_view(), out.deep_view(), xs@.len()),
{
    let ghost out0 = out.deep_view();
    let mut out = out;
    let mut i: usize = 0;
    while i < xs.len()
        invariant
            i <= xs@.len(),
            out.deep_view() == keep_label_spec(label@, xs.deep_view(), out0, i as nat),
        decreases xs@.len() - i,
    {
        let it = &xs[i];
        let k = it.0.as_str();
        let v = &it.1;
        if text::same(k, label) {
            list::push(&mut out, (text::owned(k), v.copy()));
        }
        i = i + 1;
    }
    out
}

/// The entries for one label.
pub open spec fn only_entry_spec(
    e: Seq<(Seq<char>, Doc)>,
    label: Seq<char>,
) -> Seq<(Seq<char>, Doc)> {
    keep_label_spec(label, e, Seq::<(Seq<char>, Doc)>::empty(), e.len())
}

fn only_entry(e: &Vec<(String, Json)>, label: &str) -> (r: Vec<(String, Json)>)
    ensures
        r.deep_view() == only_entry_spec(e.deep_view(), label@),
{
    let mut out: Vec<(String, Json)> = list::none();
    out = keep_label(label, e, out);
    out
}

/// What was announced: a confirmed label closes the cycle of every other one.
pub open spec fn notices_spec(prior: PriorView, label: Seq<char>, confirmed: bool) -> Doc {
    let kept = Doc::obj();
    let kept = match prior_object_spec(prior) {
        Some(p) => match p.get("notified"@) {
            Some(m) => if m is Obj {
                m
            } else {
                kept
            },
            None => kept,
        },
        None => kept,
    };
    if confirmed && label != "unknown"@ {
        Doc::Obj(only_entry_spec(kept.entries(), label))
    } else {
        kept
    }
}

fn notices(prior: &Prior, label: &str, confirmed: bool) -> (r: Json)
    ensures
        r@ == notices_spec(prior.deep_view(), label@, confirmed),
{
    let mut kept = Json::obj();
    match prior_object(prior) {
        Some(p) => {
            match p.get("notified") {
                Some(m) => {
                    if m.is_obj() {
                        kept = m.copy();
                    }
                },
                None => {},
            }
        },
        None => {},
    }
    if confirmed && !text::same(label, "unknown") {
        return json::object(only_entry(&json::entries(&kept), label));
    }
    kept
}

/// The last label, `unknown` where there is none.
pub open spec fn last_label_spec(labels: Seq<Seq<char>>) -> Seq<char> {
    match list::end(labels) {
        Some(l) => l,
        None => "unknown"@,
    }
}

fn last_label(labels: &Vec<String>) -> (r: String)
    ensures
        r@ == last_label_spec(labels.deep_view()),
{
    match list::str_ref(list::last(labels)) {
        Some(l) => text::owned(l),
        None => text::owned("unknown"),
    }
}

/// The history of a replay. One that yields no labels serves the previous history with
/// `stale: true` instead, if it had labels: an `unknown` pinned for half a day would flip the
/// sell policy back to the ladder.
pub open spec fn replayed_spec(
    prior: PriorView,
    now: Double,
    confirm_days: i64,
    labels: Seq<Seq<char>>,
) -> HistoryView {
    if labels.len() == 0 {
        match prior_object_spec(prior) {
            Some(p) => if p.has_truthy("labels"@) {
                HistoryView { json: p.set("stale"@, Doc::Bool(true)), save: false }
            } else {
                let label = last_label_spec(labels);
                let confirmed = held_spec(labels) >= confirm_days;
                let json = Doc::obj().with(
                    "epoch"@,
                    Doc::Int(now.cast_spec(i64::MIN as int, i64::MAX as int) as i64),
                ).with(
                    "labels"@,
                    json::texts(labels),
                ).with(
                    "label"@,
                    Doc::Str(label),
                ).with(
                    "held_days"@,
                    Doc::Int(held_spec(labels)),
                ).with(
                    "prev_label"@,
                    json::text_or_null(before_last_spec(labels)),
                ).with(
                    "confirmed"@,
                    Doc::Bool(confirmed),
                ).with(
                    "confirm_days"@,
                    Doc::Int(confirm_days),
                ).with(
                    "days_covered"@,
                    Doc::Int(((labels.len() as usize)) as i64),
                ).with(
                    "notified"@,
                    notices_spec(prior, label, confirmed),
                );
                HistoryView { json, save: true }
            },
            None => {
                let label = last_label_spec(labels);
                let confirmed = held_spec(labels) >= confirm_days;
                let json = Doc::obj().with(
                    "epoch"@,
                    Doc::Int(now.cast_spec(i64::MIN as int, i64::MAX as int) as i64),
                ).with(
                    "labels"@,
                    json::texts(labels),
                ).with(
                    "label"@,
                    Doc::Str(label),
                ).with(
                    "held_days"@,
                    Doc::Int(held_spec(labels)),
                ).with(
                    "prev_label"@,
                    json::text_or_null(before_last_spec(labels)),
                ).with(
                    "confirmed"@,
                    Doc::Bool(confirmed),
                ).with(
                    "confirm_days"@,
                    Doc::Int(confirm_days),
                ).with(
                    "days_covered"@,
                    Doc::Int(((labels.len() as usize)) as i64),
                ).with(
                    "notified"@,
                    notices_spec(prior, label, confirmed),
                );
                HistoryView { json, save: true }
            },
        }
    } else {
        let label = last_label_spec(labels);
        let confirmed = held_spec(labels) >= confirm_days;
        let json = Doc::obj().with(
            "epoch"@,
            Doc::Int(now.cast_spec(i64::MIN as int, i64::MAX as int) as i64),
        ).with(
            "labels"@,
            json::texts(labels),
        ).with(
            "label"@,
            Doc::Str(label),
        ).with(
            "held_days"@,
            Doc::Int(held_spec(labels)),
        ).with(
            "prev_label"@,
            json::text_or_null(before_last_spec(labels)),
        ).with(
            "confirmed"@,
            Doc::Bool(confirmed),
        ).with(
            "confirm_days"@,
            Doc::Int(confirm_days),
        ).with(
            "days_covered"@,
            Doc::Int(((labels.len() as usize)) as i64),
        ).with(
            "notified"@,
            notices_spec(prior, label, confirmed),
        );
        HistoryView { json, save: true }
    }
}

/// The history of a replay. One that yields no labels serves the previous history with
/// `stale: true` instead, if it had labels: an `unknown` pinned for half a day would flip the
/// sell policy back to the ladder.
pub fn replayed(
    prior: &Prior,
    now: Double,
    confirm_days: i64,
    labels: &Vec<String>,
) -> (r: History)
    ensures
        r.deep_view() == replayed_spec(prior.deep_view(), now, confirm_days, labels.deep_view()),
{
    if labels.len() == 0 {
        match prior_object(prior) {
            Some(p) => {
                if p.has_truthy("labels") {
                    return History {
                        json: json::with_set(p, "stale", Json::Bool(true)),
                        save: false,
                    };
                }
            },
            None => {},
        }
    }
    let label = last_label(labels);
    let confirmed = held(labels) >= confirm_days;
    let json = Json::obj().with("epoch", Json::Int(now.to_i64())).with(
        "labels",
        json::text_array(labels),
    ).with(
        "label",
        Json::text(label.as_str()),
    ).with(
        "held_days",
        Json::Int(held(labels)),
    ).with(
        "prev_label",
        json::string_or_null(list::text_ref(&before_last(labels))),
    ).with(
        "confirmed",
        Json::Bool(confirmed),
    ).with(
        "confirm_days",
        Json::Int(confirm_days),
    ).with(
        "days_covered",
        Json::Int(labels.len() as i64),
    ).with(
        "notified",
        notices(prior, label.as_str(), confirmed),
    );
    History { json, save: true }
}

/// The label history, from the cache when it is younger than `ttl_h`, else that of the
/// replayed `labels`.
pub open spec fn label_history_spec(
    prior: PriorView,
    now: Double,
    ttl_h: Double,
    confirm_days: i64,
    force: bool,
    labels: Seq<Seq<char>>,
) -> HistoryView {
    match served_spec(prior, now, ttl_h, force) {
        Some(cached) => HistoryView { json: cached, save: false },
        None => replayed_spec(prior, now, confirm_days, labels),
    }
}

/// The label history, from the cache when it is younger than `ttl_h`, else that of the
/// replayed `labels`.
pub fn label_history(
    prior: &Prior,
    now: Double,
    ttl_h: Double,
    confirm_days: i64,
    force: bool,
    labels: &Vec<String>,
) -> (r: History)
    ensures
        r.deep_view() == label_history_spec(
            prior.deep_view(),
            now,
            ttl_h,
            confirm_days,
            force,
            labels.deep_view(),
        ),
{
    match served(prior, now, ttl_h, force) {
        Some(cached) => History { json: cached, save: false },
        None => replayed(prior, now, confirm_days, labels),
    }
}

/// A label change that has not been announced at its current stage.
#[derive(Debug)]
pub struct Shift {
    pub label: String,
    pub prev_label: Option<String>,
    /// `provisional` (the label just changed) or `confirmed` (held `confirm_days`).
    pub stage: String,
    pub held_days: i64,
    pub confirm_days: i64,
    pub days_covered: i64,
}

/// What a [`Shift`] holds.
pub struct ShiftView {
    pub label: Seq<char>,
    pub prev_label: Option<Seq<char>>,
    pub stage: Seq<char>,
    pub held_days: i64,
    pub confirm_days: i64,
    pub days_covered: i64,
}

impl DeepView for Shift {
    type V = ShiftView;

    open spec fn deep_view(&self) -> ShiftView {
        ShiftView {
            label: self.label@,
            prev_label: self.prev_label.deep_view(),
            stage: self.stage@,
            held_days: self.held_days,
            confirm_days: self.confirm_days,
            days_covered: self.days_covered,
        }
    }
}

/// The stage the history is in.
pub open spec fn current_stage_spec(h: Doc) -> Seq<char> {
    if h.has_truthy("confirmed"@) {
        "confirmed"@
    } else {
        "provisional"@
    }
}

fn current_stage(h: &Json) -> (r: String)
    ensures
        r@ == current_stage_spec(h@),
{
    if h.has_truthy("confirmed") {
        text::owned("confirmed")
    } else {
        text::owned("provisional")
    }
}

/// The text under a key.
pub open spec fn text_under_spec(h: Doc, key: Seq<char>) -> Option<Seq<char>> {
    match h.get(key) {
        Some(v) => match v.as_text() {
            Some(s) => Some(s),
            None => None,
        },
        None => None,
    }
}

fn text_under(h: &Json, key: &str) -> (r: Option<String>)
    ensures
        r.deep_view() == text_under_spec(h@, key@),
{
    match h.get(key) {
        Some(v) => match v.as_str() {
            Some(s) => Some(text::owned(s)),
            None => None,
        },
        None => None,
    }
}

/// The current stage of whatever the history says, announced or not.
pub open spec fn current_shift_spec(h: Doc) -> ShiftView {
    ShiftView {
        label: fields::text_or_spec(h, "label"@, "unknown"@),
        prev_label: text_under_spec(h, "prev_label"@),
        stage: current_stage_spec(h),
        held_days: fields::num_or_spec(h, "held_days"@, Double::zero_spec()).cast_spec(i64::MIN as int, i64::MAX as int) as i64,
        confirm_days: fields::num_or_spec(h, "confirm_days"@, Double::zero_spec()).cast_spec(i64::MIN as int, i64::MAX as int) as i64,
        days_covered: fields::num_or_spec(h, "days_covered"@, Double::zero_spec()).cast_spec(i64::MIN as int, i64::MAX as int) as i64,
    }
}

fn current_shift(h: &Json) -> (r: Shift)
    ensures
        r.deep_view() == current_shift_spec(h@),
{
    Shift {
        label: fields::text_or(h, "label", "unknown"),
        prev_label: text_under(h, "prev_label"),
        stage: current_stage(h),
        held_days: fields::num_or(h, "held_days", Double::zero()).to_i64(),
        confirm_days: fields::num_or(h, "confirm_days", Double::zero()).to_i64(),
        days_covered: fields::num_or(h, "days_covered", Double::zero()).to_i64(),
    }
}

/// A shift as JSON.
pub open spec fn shift_json_spec(s: ShiftView) -> Doc {
    Doc::obj().with("label"@, Doc::Str(s.label)).with(
        "prev_label"@,
        json::text_or_null(s.prev_label),
    ).with(
        "stage"@,
        Doc::Str(s.stage),
    ).with(
        "held_days"@,
        Doc::Int(s.held_days),
    ).with(
        "confirm_days"@,
        Doc::Int(s.confirm_days),
    ).with(
        "days_covered"@,
        Doc::Int(s.days_covered),
    )
}

fn shift_json(s: &Shift) -> (r: Json)
    ensures
        r@ == shift_json_spec(s.deep_view()),
{
    Json::obj().with("label", Json::text(s.label.as_str())).with(
        "prev_label",
        json::string_or_null(list::text_ref(&s.prev_label)),
    ).with(
        "stage",
        Json::text(s.stage.as_str()),
    ).with(
        "held_days",
        Json::Int(s.held_days),
    ).with(
        "confirm_days",
        Json::Int(s.confirm_days),
    ).with(
        "days_covered",
        Json::Int(s.days_covered),
    )
}

/// The stage at which a label was announced.
pub open spec fn announced_spec(h: Doc, label: Seq<char>) -> Option<Seq<char>> {
    match h.get("notified"@) {
        Some(m) => text_under_spec(m, label),
        None => None,
    }
}

fn announced(h: &Json, label: &str) -> (r: Option<String>)
    ensures
        r.deep_view() == announced_spec(h@, label@),
{
    match h.get("notified") {
        Some(m) => text_under(m, label),
        None => None,
    }
}

/// The shift to announce, none when the label is unknown or its current stage (or its
/// confirmation) was already announced.
pub open spec fn pending_shift_spec(h: Doc) -> Option<ShiftView> {
    let s = current_shift_spec(h);
    if s.label == "unknown"@ {
        None
    } else {
        match announced_spec(h, s.label) {
            Some(done) => if done == "confirmed"@ || done == s.stage {
                None
            } else {
                Some(s)
            },
            None => Some(s),
        }
    }
}

/// The shift to announce, none when the label is unknown or its current stage (or its
/// confirmation) was already announced.
pub fn pending_shift(h: &Json) -> (r: Option<Shift>)
    ensures
        r.deep_view() == pending_shift_spec(h@),
{
    let s = current_shift(h);
    if text::same(s.label.as_str(), "unknown") {
        return None;
    }
    match announced(h, s.label.as_str()) {
        Some(done) => {
            if text::same(done.as_str(), "confirmed")
                || text::same(done.as_str(), s.stage.as_str()) {
                return None;
            }
        },
        None => {},
    }
    Some(s)
}

/// The history with a label announced at a stage.
pub open spec fn marked_spec(h: Doc, label: Seq<char>, stage: Seq<char>) -> Doc {
    let m = Doc::obj();
    let m = match h.get("notified"@) {
        Some(n) => if n is Obj {
            n
        } else {
            m
        },
        None => m,
    };
    let m = m.set(label, Doc::Str(stage));
    h.set("notified"@, m)
}

fn marked(h: Json, label: &str, stage: &str) -> (r: Json)
    ensures
        r@ == marked_spec(h@, label@, stage@),
{
    let mut h = h;
    let mut m = Json::obj();
    match h.get("notified") {
        Some(n) => {
            if n.is_obj() {
                m = n.copy();
            }
        },
        None => {},
    }
    m.set(label, Json::text(stage));
    h.set("notified", m);
    h
}

impl Shift {
    /// The current stage of whatever the history says, announced or not.
    pub fn current(h: &Json) -> (r: Shift)
        ensures
            r.deep_view() == current_shift_spec(h@),
    {
        current_shift(h)
    }

    pub fn to_json(&self) -> (r: Json)
        ensures
            r@ == shift_json_spec(self.deep_view()),
    {
        shift_json(self)
    }
}

/// Record that `label` was announced at `stage`.
pub fn mark_notified(h: &mut Json, label: &str, stage: &str)
    ensures
        final(h)@ == marked_spec(old(h)@, label@, stage@),
{
    *h = marked(h.copy(), label, stage);
}

/// A pending shift is announced once: after it has been marked at its stage, nothing is
/// pending.
pub proof fn law_a_stage_is_announced_once(h: Doc)
    requires
        pending_shift_spec(h) is Some,
    ensures
        ({
            let s = pending_shift_spec(h)->0;
            pending_shift_spec(marked_spec(h, s.label, s.stage)) is None
        }),
{
    let s = pending_shift_spec(h)->0;
    let m = match h.get("notified"@) {
        Some(n) => if n is Obj {
            n
        } else {
            Doc::obj()
        },
        None => Doc::obj(),
    };
    let m2 = m.set(s.label, Doc::Str(s.stage));
    reveal_strlit("unknown");
    reveal_strlit("notified");
    reveal_strlit("label");
    reveal_strlit("confirmed");
    assert("notified"@.len() != "label"@.len());
    assert("notified"@.len() != "confirmed"@.len());
    assert(h is Obj);
    json::law_set_then_get(m, s.label, Doc::Str(s.stage), s.label);
    json::law_set_then_get(h, "notified"@, m2, "notified"@);
    json::law_set_then_get(h, "notified"@, m2, "label"@);
    json::law_set_then_get(h, "notified"@, m2, "confirmed"@);
}

/// A confirmation that was announced keeps the provisional stage quiet too.
pub proof fn law_a_confirmation_is_final(h: Doc)
    requires
        announced_spec(h, current_shift_spec(h).label) == Some("confirmed"@),
    ensures
        pending_shift_spec(h) is None,
{
}

/// A confirmed label forgets the announcements of every other one.
pub proof fn law_a_confirmed_label_forgets_the_others(prior: PriorView, label: Seq<char>, k: int)
    requires
        label != "unknown"@,
        0 <= k < notices_spec(prior, label, true).entries().len(),
    ensures
        notices_spec(prior, label, true).entries()[k].0 == label,
{
    let kept = match prior_object_spec(prior) {
        Some(p) => match p.get("notified"@) {
            Some(m) => if m is Obj {
                m
            } else {
                Doc::obj()
            },
            None => Doc::obj(),
        },
        None => Doc::obj(),
    };
    lemma_kept_entries(label, kept.entries(), kept.entries().len(), k);
}

proof fn lemma_kept_entries(label: Seq<char>, e: Seq<(Seq<char>, Doc)>, n: nat, k: int)
    requires
        n <= e.len(),
        0 <= k < keep_label_spec(label, e, Seq::empty(), n).len(),
    ensures
        keep_label_spec(label, e, Seq::empty(), n)[k].0 == label,
    decreases n,
{
    if n > 0 {
        if k < keep_label_spec(label, e, Seq::empty(), (n - 1) as nat).len() {
            lemma_kept_entries(label, e, (n - 1) as nat, k);
        }
    }
}

/// A mean is what they come to together over how many they are, but for rounding.
pub proof fn law_a_mean_is_the_sum_over_the_count(v: Seq<Double>)
    requires
        0 < v.len() <= 0x10_0000,
        rounding::are_amounts(v),
        pyfmt::sum_spec(v).finite(),
        mean_spec(v).finite(),
    ensures
        ({
            let m = mean_spec(v).amount();
            let e = rounding::exact_sum(v, v.len());
            rounding::grain() * rounding::size(m * v.len() - e) <= v.len() * (rounding::size(m) + 20
                * e + 21 * rounding::least())
        }),
{
    rounding::lemma_mean(v);
}

/// A cached file is fresh for its hours and not after them.
pub proof fn law_a_cache_is_fresh_for_its_hours(
    cached: Doc,
    now: Double,
    ttl_h: Double,
    age: Double,
    limit: Double,
)
    requires
        now.finite(),
        ttl_h.finite(),
        fields::num_or_spec(cached, "epoch"@, Double::zero_spec()).finite(),
        age.finite(),
        age.amount() == now.amount() - fields::num_or_spec(
            cached,
            "epoch"@,
            Double::zero_spec(),
        ).amount(),
        limit.finite(),
        limit.amount() == 3600 * ttl_h.amount(),
    ensures
        is_fresh_spec(cached, now, ttl_h) <==> age.amount() < limit.amount(),
{
    rounding::lemma_whole_is_exact(3600);
    rounding::lemma_exact_difference(
        now,
        fields::num_or_spec(cached, "epoch"@, Double::zero_spec()),
        age,
    );
    let t = ttl_h.amount();
    let u = crate::double::unit() as int;
    assert(t * (3600 * u) == (3600 * t) * u) by (nonlinear_arith);
    rounding::lemma_exact_product(ttl_h, Double::int_spec(3600), limit);
}

/// The last close is above the average exactly where the average of the last thirty is less than
/// it; with fewer there is none.
pub proof fn law_above_is_over_the_mean_of_the_last_thirty(v: Seq<Double>)
    requires
        30 <= v.len(),
    ensures
        is_above_spec(v) <==> mean_spec(v.subrange(v.len() - 30, v.len() as int)).lt_spec(v.last()),
{
    assert(list::ending(v, 30) =~= v.subrange(v.len() - 30, v.len() as int));
}

} // verus!
