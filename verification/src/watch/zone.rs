//! Zone watch: the three ways resting deploy zones stop doing their job.
//!
//! * **RUN flip** — a coin's strength gate changed since last seen. Several alts running at
//!   once is the alt-season tripwire: the case for keeping alt dip ladders was measured on
//!   alts that were not running.
//! * **Stale rung** — rung 1 unfilled for `stale_days` while spot ran `stale_extra_pp`
//!   further above it than when it was placed: the wait is not being paid. Once per order.
//! * **Idle cash** — free stable on a venue above the minimum with no tranche coming for it.
//!   Once per venue until the amount moves by a quarter.
//!
//! Every mail leads with what it comes to: how many items need a person. A RUN flip on its own
//! needs nobody and is filed as no-action, with what it means for the coins held.
use crate::decimal;
use crate::double::Double;
use crate::list;
use crate::list::Duplicate;
use crate::rounding;
use crate::text;
use crate::watch::json;
use crate::watch::json::{Doc, Json};
use crate::watch::pyfmt;
use crate::time;
use crate::watch::fields;
use crate::watch::regime_watch;
use crate::watch::regime_watch::{Quote, QuoteView};
use crate::watch::textwrap;
use crate::watch::{Hints, HintsView};
use vstd::prelude::*;

verus! {

/// When a zone counts as stale and cash as idle.
#[derive(Debug)]
pub struct ZoneConfig {
    pub stale_days: Double,
    pub stale_extra_pp: Double,
    /// Free stable below this is not idle cash (the deploy minimum).
    pub idle_min_usd: Double,
    /// Alts running at once that make the RUN flips a decision.
    pub alt_run_tripwire: i64,
    /// The alts the tripwire counts, in display order.
    pub alts: Vec<String>,
    /// A book snapshot older than this says nothing about holdings.
    pub book_stale_s: Double,
}

/// What a [`ZoneConfig`] holds.
pub struct ZoneConfigView {
    pub stale_days: Double,
    pub stale_extra_pp: Double,
    pub idle_min_usd: Double,
    pub alt_run_tripwire: i64,
    pub alts: Seq<Seq<char>>,
    pub book_stale_s: Double,
}

impl DeepView for ZoneConfig {
    type V = ZoneConfigView;

    open spec fn deep_view(&self) -> ZoneConfigView {
        ZoneConfigView {
            stale_days: self.stale_days,
            stale_extra_pp: self.stale_extra_pp,
            idle_min_usd: self.idle_min_usd,
            alt_run_tripwire: self.alt_run_tripwire,
            alts: self.alts.deep_view(),
            book_stale_s: self.book_stale_s,
        }
    }
}

/// What is used where nothing is set.
pub open spec fn default_config_spec() -> ZoneConfigView {
    ZoneConfigView {
        stale_days: Double::int_spec(14),
        stale_extra_pp: Double::int_spec(5),
        idle_min_usd: Double::int_spec(25),
        alt_run_tripwire: 3,
        alts: Seq::<Seq<char>>::empty(),
        book_stale_s: Double::int_spec(86400),
    }
}

fn default_config() -> (r: ZoneConfig)
    ensures
        r.deep_view() == default_config_spec(),
{
    ZoneConfig {
        stale_days: Double::of_int(14),
        stale_extra_pp: Double::of_int(5),
        idle_min_usd: Double::of_int(25),
        alt_run_tripwire: 3,
        alts: list::none::<String>(),
        book_stale_s: Double::of_int(86400),
    }
}

/// The capital split used to hold back the pending top-up of Gate on the Revolut X
/// venue.
#[derive(Debug)]
pub struct ReserveConfig {
    /// Symbol and weight.
    pub alloc: Vec<(String, Double)>,
    /// Symbol and venue of every routed coin.
    pub routing: Vec<(String, String)>,
}

/// What a [`ReserveConfig`] holds.
pub struct ReserveConfigView {
    pub alloc: Seq<(Seq<char>, Double)>,
    pub routing: Seq<(Seq<char>, Seq<char>)>,
}

impl DeepView for ReserveConfig {
    type V = ReserveConfigView;

    open spec fn deep_view(&self) -> ReserveConfigView {
        ReserveConfigView {
            alloc: self.alloc.deep_view(),
            routing: self.routing.deep_view(),
        }
    }
}

impl Default for ZoneConfig {
    fn default() -> (r: ZoneConfig)
        ensures
            r.deep_view() == default_config_spec(),
    {
        default_config()
    }
}

/// What the first `n` entries say.
pub open spec fn find_weight_spec(
    sym: Seq<char>,
    xs: Seq<(Seq<char>, Double)>,
    found: Option<Double>,
    n: nat,
) -> Option<Double> {
    match found {
        Some(v) => Some(v),
        None => list::first_given(
            xs,
            |it: (Seq<char>, Double)| {
                let s = it.0;
                let w = it.1;
                if s == sym {
                    Some(w)
                } else {
                    None
                }
            },
            n,
        ),
    }
}

fn find_weight(
    sym: &str,
    xs: &Vec<(String, Double)>,
    found: Option<Double>,
) -> (r: Option<Double>)
    ensures
        r == find_weight_spec(sym@, xs.deep_view(), found, xs@.len()),
{
    let ghost found0 = found;
    let mut found = found;
    let mut i: usize = 0;
    while i < xs.len()
        invariant
            i <= xs@.len(),
            found == find_weight_spec(sym@, xs.deep_view(), found0, i as nat),
        decreases xs@.len() - i,
    {
        let it = &xs[i];
        let s = it.0.as_str();
        let w = it.1;
        if found.is_none() && text::same(s, sym) {
            found = Some(w);
        }
        assert(xs.deep_view()[i as int] == xs@[i as int].deep_view());
        assert(found == find_weight_spec(sym@, xs.deep_view(), found0, (i + 1) as nat));
        i = i + 1;
    }
    found
}

/// The weight of a coin, 0 where it has none.
pub open spec fn weight_of_spec(alloc: Seq<(Seq<char>, Double)>, sym: Seq<char>) -> Double {
    let found: Option<Double> = None;
    let found = find_weight_spec(sym, alloc, found, alloc.len());
    match found {
        Some(v) => v,
        None => Double::zero_spec(),
    }
}

fn weight_of(alloc: &Vec<(String, Double)>, sym: &str) -> (r: Double)
    ensures
        r == weight_of_spec(alloc.deep_view(), sym@),
{
    let mut found: Option<Double> = None;
    found = find_weight(sym, alloc, found);
    match found {
        Some(v) => v,
        None => Double::zero(),
    }
}

/// The weights on Revolut X and Gate of the first `n` routes.
pub open spec fn add_weights_spec(
    alloc: Seq<(Seq<char>, Double)>,
    xs: Seq<(Seq<char>, Seq<char>)>,
    revx: Double,
    gate: Double,
    n: nat,
) -> (Double, Double)
    decreases n,
{
    if n == 0 {
        (revx, gate)
    } else {
        let (revx, gate) = add_weights_spec(alloc, xs, revx, gate, (n - 1) as nat);
        let it = xs[n - 1];
        let sym = it.0;
        let venue = it.1;
        let w = weight_of_spec(alloc, sym);
        if venue == "revx"@ {
            (revx.add_spec(w), gate)
        } else {
            let gate = if venue == "gate"@ {
                gate.add_spec(w)
            } else {
                gate
            };
            (revx, gate)
        }
    }
}

fn add_weights(
    alloc: &Vec<(String, Double)>,
    xs: &Vec<(String, String)>,
    revx: Double,
    gate: Double,
) -> (r: (Double, Double))
    ensures
        r == add_weights_spec(alloc.deep_view(), xs.deep_view(), revx, gate, xs@.len()),
{
    let ghost revx0 = revx;
    let ghost gate0 = gate;
    let mut revx = revx;
    let mut gate = gate;
    let mut i: usize = 0;
    while i < xs.len()
        invariant
            i <= xs@.len(),
            (revx, gate) == add_weights_spec(
                alloc.deep_view(),
                xs.deep_view(),
                revx0,
                gate0,
                i as nat,
            ),
        decreases xs@.len() - i,
    {
        let it = &xs[i];
        let sym = it.0.as_str();
        let venue = it.1.as_str();
        let w = weight_of(alloc, sym);
        if text::same(venue, "revx") {
            revx = revx.plus(w);
        } else if text::same(venue, "gate") {
            gate = gate.plus(w);
        }
        i = i + 1;
    }
    (revx, gate)
}

/// Gate's share of the working book (Revolut X and Gate).
pub open spec fn share_of_spec(c: ReserveConfigView) -> Double {
    let revx = Double::zero_spec();
    let gate = Double::zero_spec();
    let alloc = c.alloc;
    let (revx, gate) = add_weights_spec(alloc, c.routing, revx, gate, c.routing.len());
    let working = revx.add_spec(gate);
    if !working.eq_spec(Double::zero_spec()) {
        gate.div_spec(working)
    } else {
        Double::zero_spec()
    }
}

fn share_of(c: &ReserveConfig) -> (r: Double)
    ensures
        r == share_of_spec(c.deep_view()),
{
    let mut revx = Double::zero();
    let mut gate = Double::zero();
    let alloc = &c.alloc;
    let (next_revx, next_gate) = add_weights(alloc, &c.routing, revx, gate);
    revx = next_revx;
    gate = next_gate;
    let working = revx.plus(gate);
    if !working.same(Double::zero()) {
        gate.over(working)
    } else {
        Double::zero()
    }
}

/// The stable that must stay free on Revolut X: what Gate lacks of its share, 0 where that
/// is too little to be worth a transfer.
pub open spec fn reserve_for_spec(
    c: ReserveConfigView,
    rx_stable: Double,
    gate_stable: Double,
) -> Double {
    let gap = rx_stable.add_spec(gate_stable).mul_spec(share_of_spec(c)).sub_spec(gate_stable);
    if Double::int_spec(50).le_spec(gap) {
        gap
    } else {
        Double::zero_spec()
    }
}

fn reserve_for(c: &ReserveConfig, rx_stable: Double, gate_stable: Double) -> (r: Double)
    ensures
        r == reserve_for_spec(c.deep_view(), rx_stable, gate_stable),
{
    let gap = rx_stable.plus(gate_stable).times(share_of(c)).minus(gate_stable);
    if Double::of_int(50).le(gap) {
        gap
    } else {
        Double::zero()
    }
}

/// Top-up gaps below this many dollars are not worth a transfer, so nothing is held back for
/// them.
pub const DUE_MIN_USD: i64 = 50;

impl ReserveConfig {
    /// Gate's share of the working book (Revolut X and Gate); Binance is excluded.
    pub fn gate_share(&self) -> (r: Double)
        ensures
            r == share_of_spec(self.deep_view()),
    {
        share_of(self)
    }

    /// Stable that must stay free on Revolut X for the pending Gate top-up; 0 below
    /// [`DUE_MIN_USD`].
    pub fn onramp_reserve(&self, rx_stable: Double, gate_stable: Double) -> (r: Double)
        ensures
            r == reserve_for_spec(self.deep_view(), rx_stable, gate_stable),
    {
        reserve_for(self, rx_stable, gate_stable)
    }
}

/// A sign in words.
pub open spec fn signal_name_spec(k: Seq<char>) -> Seq<char> {
    if k == "above_sma30"@ {
        "above 30d SMA"@
    } else if k == "ret30_strong"@ {
        "+25% in 30d"@
    } else if k == "fresh_30d_high"@ {
        "fresh 30d high"@
    } else if k == "higher_lows"@ {
        "higher lows"@
    } else if k == "insufficient_history"@ {
        "not enough history"@
    } else {
        k
    }
}

fn signal_name(k: &str) -> (r: String)
    ensures
        r@ == signal_name_spec(k@),
{
    if text::same(k, "above_sma30") {
        return text::owned("above 30d SMA");
    }
    if text::same(k, "ret30_strong") {
        return text::owned("+25% in 30d");
    }
    if text::same(k, "fresh_30d_high") {
        return text::owned("fresh 30d high");
    }
    if text::same(k, "higher_lows") {
        return text::owned("higher lows");
    }
    if text::same(k, "insufficient_history") {
        return text::owned("not enough history");
    }
    text::owned(k)
}

/// A coin's gate changed.
#[derive(Debug)]
pub struct Flip {
    pub sym: String,
    pub on: bool,
    pub score: usize,
    pub hits: Vec<String>,
    pub note: String,
}

/// What a [`Flip`] holds.
pub struct FlipView {
    pub sym: Seq<char>,
    pub on: bool,
    pub score: usize,
    pub hits: Seq<Seq<char>>,
    pub note: Seq<char>,
}

impl DeepView for Flip {
    type V = FlipView;

    open spec fn deep_view(&self) -> FlipView {
        FlipView {
            sym: self.sym@,
            on: self.on,
            score: self.score,
            hits: self.hits.deep_view(),
            note: self.note@,
        }
    }
}

/// A rung that waits in vain.
#[derive(Debug)]
pub struct Stale {
    pub sym: String,
    pub client_id: String,
    pub price: Double,
    pub quote: Double,
    pub age_d: Double,
    pub dist: Double,
    pub placed: Double,
    pub spot: Double,
}

/// What a [`Stale`] holds.
pub struct StaleView {
    pub sym: Seq<char>,
    pub client_id: Seq<char>,
    pub price: Double,
    pub quote: Double,
    pub age_d: Double,
    pub dist: Double,
    pub placed: Double,
    pub spot: Double,
}

impl DeepView for Stale {
    type V = StaleView;

    open spec fn deep_view(&self) -> StaleView {
        StaleView {
            sym: self.sym@,
            client_id: self.client_id@,
            price: self.price,
            quote: self.quote,
            age_d: self.age_d,
            dist: self.dist,
            placed: self.placed,
            spot: self.spot,
        }
    }
}

/// Cash that nothing will use.
#[derive(Debug)]
pub struct Idle {
    pub venue: String,
    pub free: Double,
    pub why: String,
}

/// What a [`Idle`] holds.
pub struct IdleView {
    pub venue: Seq<char>,
    pub free: Double,
    pub why: Seq<char>,
}

impl DeepView for Idle {
    type V = IdleView;

    open spec fn deep_view(&self) -> IdleView {
        IdleView {
            venue: self.venue@,
            free: self.free,
            why: self.why@,
        }
    }
}

/// What one run has to say.
#[derive(Debug)]
pub struct Events {
    pub run: Vec<Flip>,
    pub stale: Vec<Stale>,
    pub idle: Vec<Idle>,
}

/// What a [`Events`] holds.
pub struct EventsView {
    pub run: Seq<FlipView>,
    pub stale: Seq<StaleView>,
    pub idle: Seq<IdleView>,
}

impl DeepView for Events {
    type V = EventsView;

    open spec fn deep_view(&self) -> EventsView {
        EventsView {
            run: self.run.deep_view(),
            stale: self.stale.deep_view(),
            idle: self.idle.deep_view(),
        }
    }
}

/// Whether anything happened.
pub open spec fn some_event_spec(e: EventsView) -> bool {
    !(e.run.len() == 0 && e.stale.len() == 0 && e.idle.len() == 0)
}

fn some_event(e: &Events) -> (r: bool)
    ensures
        r == some_event_spec(e.deep_view()),
{
    !(e.run.len() == 0 && e.stale.len() == 0 && e.idle.len() == 0)
}

/// Everything one run found.
#[derive(Debug)]
pub struct Collected {
    pub market: String,
    /// `{symbol: running}` in the regime's order: the next run's baseline.
    pub running: Json,
    pub alts_running: usize,
    pub events: Events,
    /// Whether the bull sell policy governs sells, none when the book could not say.
    pub bull_sells: Option<bool>,
}

/// What a [`Collected`] holds.
pub struct CollectedView {
    pub market: Seq<char>,
    pub running: Doc,
    pub alts_running: usize,
    pub events: EventsView,
    pub bull_sells: Option<bool>,
}

impl DeepView for Collected {
    type V = CollectedView;

    open spec fn deep_view(&self) -> CollectedView {
        CollectedView {
            market: self.market@,
            running: self.running@,
            alts_running: self.alts_running,
            events: self.events.deep_view(),
            bull_sells: self.bull_sells,
        }
    }
}

impl Events {
    pub fn any(&self) -> (r: bool)
        ensures
            r == some_event_spec(self.deep_view()),
    {
        some_event(self)
    }
}

/// Where the digits that begin at `i` end.
pub open spec fn digits_to(s: Seq<char>, i: int) -> int
    decreases s.len() - i,
{
    if 0 <= i < s.len() && text::is_digit(s[i]) {
        digits_to(s, i + 1)
    } else {
        i
    }
}

/// Where the numeral that begins at `i` ends: digits, and behind them a point with digits.
pub open spec fn numeral_to(s: Seq<char>, i: int) -> int {
    let j = digits_to(s, i);
    if j + 1 < s.len() && s[j] == '.' && text::is_digit(s[j + 1]) {
        digits_to(s, j + 1)
    } else {
        j
    }
}

/// Whether a depth stands at `i`: a minus, a numeral and a percent sign.
pub open spec fn depth_at(s: Seq<char>, i: int) -> bool {
    let k = numeral_to(s, i + 1);
    &&& 0 <= i < s.len()
    &&& s[i] == '-'
    &&& digits_to(s, i + 1) > i + 1
    &&& 0 <= k < s.len()
    &&& s[k] == '%'
}

/// The first depth at or after `i`.
pub open spec fn depth_from(s: Seq<char>, i: int) -> Option<Double>
    decreases s.len() - i,
{
    if i < 0 || i >= s.len() {
        None
    } else if depth_at(s, i) {
        decimal::number_of(s.subrange(i + 1, numeral_to(s, i + 1)))
    } else {
        depth_from(s, i + 1)
    }
}

proof fn lemma_digits_to(s: Seq<char>, i: int)
    requires
        0 <= i <= s.len(),
    ensures
        i <= digits_to(s, i) <= s.len(),
    decreases s.len() - i,
{
    if i < s.len() && text::is_digit(s[i]) {
        lemma_digits_to(s, i + 1);
    }
}

fn end_of_digits(v: &Vec<char>, i: usize) -> (r: usize)
    requires
        i <= v@.len(),
    ensures
        r == digits_to(v@, i as int),
        i <= r <= v@.len(),
    decreases v@.len() - i,
{
    if i < v.len() && text::digit_like(v[i]) {
        end_of_digits(v, i + 1)
    } else {
        i
    }
}

fn end_of_numeral(v: &Vec<char>, i: usize) -> (r: usize)
    requires
        i <= v@.len(),
    ensures
        r == numeral_to(v@, i as int),
        i <= r <= v@.len(),
{
    let j: usize = end_of_digits(v, i);
    if j < v.len() && v.len() - j > 1 && v[j] == '.' && text::digit_like(v[j + 1]) {
        end_of_digits(v, j + 1)
    } else {
        j
    }
}

/// The first `-N%` or `-N.N%` in an order note: the depth below spot it was placed at.
pub fn depth_from_note(note: &str) -> (r: Option<Double>)
    ensures
        r == depth_from(note@, 0),
{
    let v = text::chars_of(note);
    let mut i: usize = 0;
    while i < v.len()
        invariant
            i <= v@.len(),
            v@ == note@,
            depth_from(note@, 0) == depth_from(note@, i as int),
        decreases v@.len() - i,
    {
        if v[i] == '-' {
            let j: usize = end_of_digits(&v, i + 1);
            let k: usize = end_of_numeral(&v, i + 1);
            if j > i + 1 && k < v.len() && v[k] == '%' {
                let numeral = text::chars_of(text::slice_of(&v, i + 1, k).as_str());
                return decimal::read_number(&numeral);
            }
        }
        i = i + 1;
    }
    None
}

/// The depth a note tells.
pub open spec fn depth_of_note(note: Seq<char>) -> Option<Double> {
    depth_from(note, 0)
}

/// What the executor's book says: base units per coin, and whether the bull sell policy
/// governs sells. Stale or unreadable says nothing.
pub open spec fn book_state_spec(
    book: Option<Doc>,
    now: Double,
    stale_s: Double,
) -> (Doc, Option<bool>) {
    let hold = Doc::obj();
    let on: Option<bool> = None;
    match book {
        Some(b) => if b is Obj {
            let ts = Double::zero_spec();
            let (ts, hold) = match b.get("_bal"@) {
                Some(bal) => if bal.truthy() {
                    let ts = fields::truthy_float_spec(bal, "ts"@, Double::zero_spec());
                    let hold = if bal.has_truthy("hold"@) {
                        bal.get_or_null("hold"@)
                    } else {
                        hold
                    };
                    (ts, hold)
                } else {
                    (ts, hold)
                },
                None => (ts, hold),
            };
            let hold = if stale_s.lt_spec(now.sub_spec(ts)) {
                Doc::obj()
            } else {
                hold
            };
            let on = match b.get("_sellpolicy"@) {
                Some(pol) => if pol.truthy() {
                    match pol.get("on"@) {
                        Some(v) => if !(v is Null) {
                            Some(v.truthy())
                        } else {
                            on
                        },
                        None => on,
                    }
                } else {
                    on
                },
                None => on,
            };
            (hold, on)
        } else {
            (hold, on)
        },
        None => (hold, on),
    }
}

/// What the executor's book says: base units per coin, and whether the bull sell policy
/// governs sells. Stale or unreadable says nothing.
pub fn book_state(book: Option<&Json>, now: Double, stale_s: Double) -> (r: (Json, Option<bool>))
    ensures
        r.deep_view() == book_state_spec(book.deep_view(), now, stale_s),
{
    let mut hold = Json::obj();
    let mut on: Option<bool> = None;
    match book {
        Some(b) => {
            if b.is_obj() {
                let mut ts = Double::zero();
                match b.get("_bal") {
                    Some(bal) => {
                        if bal.truthy() {
                            ts = fields::truthy_float(bal, "ts", Double::zero());
                            if bal.has_truthy("hold") {
                                hold = bal.get_copy("hold");
                            }
                        }
                    },
                    None => {},
                }
                if stale_s.lt(now.minus(ts)) {
                    hold = Json::obj();
                }
                match b.get("_sellpolicy") {
                    Some(pol) => {
                        if pol.truthy() {
                            match pol.get("on") {
                                Some(v) => {
                                    if !v.is_null() {
                                        on = Some(v.truthy());
                                    }
                                },
                                None => {},
                            }
                        }
                    },
                    None => {},
                }
            }
        },
        None => {},
    }
    (hold, on)
}

/// Whether the coin is held, in words; empty where that is not known.
pub open spec fn holding_spec(sym: Seq<char>, hold: Doc) -> Seq<char> {
    match hold.get(sym) {
        Some(h) => if !(h is Null) {
            match h.to_float() {
                Some(f) => if Double::zero_spec().lt_spec(f) {
                    "You hold "@ + pyfmt::comma_g_spec(f, 6) + " "@ + sym + "."@
                } else {
                    "You hold no "@ + sym + "."@
                },
                None => ""@,
            }
        } else {
            ""@
        },
        None => ""@,
    }
}

fn holding(sym: &str, hold: &Json) -> (r: String)
    ensures
        r@ == holding_spec(sym@, hold@),
{
    match hold.get(sym) {
        Some(h) => {
            if !h.is_null() {
                match h.to_float() {
                    Some(f) => {
                        if Double::zero().lt(f) {
                            let mut line = text::owned("You hold ");
                            line.push_str(pyfmt::comma_g(f, 6).as_str());
                            line.push_str(" ");
                            line.push_str(sym);
                            line.push_str(".");
                            return line;
                        }
                        let mut line2 = text::owned("You hold no ");
                        line2.push_str(sym);
                        line2.push_str(".");
                        return line2;
                    },
                    None => {},
                }
            }
        },
        None => {},
    }
    text::owned("")
}

/// Of the first `n` rows.
pub open spec fn add_distances_spec(
    p: Double,
    xs: Seq<Doc>,
    d: Seq<Double>,
    n: nat,
) -> Seq<Double> {
    d + Seq::new(
        n,
        |i: int| {
            let o = xs[i];
            p.sub_spec(fields::float_or_spec(o, "price"@, Double::zero_spec())).div_spec(p).mul_spec(
                Double::int_spec(100),
            )
        },
    )
}

fn add_distances(p: Double, xs: &Vec<Json>, d: Vec<Double>) -> (r: Vec<Double>)
    ensures
        r.deep_view() == add_distances_spec(p, xs.deep_view(), d.deep_view(), xs@.len()),
{
    let ghost d0 = d.deep_view();
    let mut d = d;
    let mut i: usize = 0;
    while i < xs.len()
        invariant
            i <= xs@.len(),
            d.deep_view() == add_distances_spec(p, xs.deep_view(), d0, i as nat),
        decreases xs@.len() - i,
    {
        let o = &xs[i];
        list::push(
            &mut d,
            p.minus(fields::float_or(o, "price", Double::zero())).over(p).times(
                Double::of_int(100),
            ),
        );
        assert(d.deep_view() =~= add_distances_spec(p, xs.deep_view(), d0, (i + 1) as nat));
        i = i + 1;
    }
    d
}

/// How far below a price each row sits, in percent.
pub open spec fn distances_spec(rows: Seq<Doc>, p: Double) -> Seq<Double> {
    add_distances_spec(p, rows, Seq::<Double>::empty(), rows.len())
}

fn distances(rows: &Vec<Json>, p: Double) -> (r: Vec<Double>)
    ensures
        r.deep_view() == distances_spec(rows.deep_view(), p),
{
    let mut d: Vec<Double> = list::none();
    d = add_distances(p, rows, d);
    d
}

/// From the nearest to the farthest.
pub open spec fn span_of_spec(d: Seq<Double>) -> Seq<char> {
    let o = list::sorted_numbers(d);
    let near = match list::item(o, 0) {
        Some(v) => v,
        None => Double::zero_spec(),
    };
    let far = match list::end(o) {
        Some(v) => v,
        None => Double::zero_spec(),
    };
    if d.len() == 1 {
        pyfmt::fixed_spec(near, 1) + "%"@
    } else {
        pyfmt::fixed_spec(near, 1) + "% to "@ + pyfmt::fixed_spec(far, 1) + "%"@
    }
}

fn span_of(d: &Vec<Double>) -> (r: String)
    ensures
        r@ == span_of_spec(d.deep_view()),
{
    let o = list::sort_numbers(d);
    let near = match list::own(list::at(&o, 0)) {
        Some(v) => v,
        None => Double::zero(),
    };
    let far = match list::own(list::last(&o)) {
        Some(v) => v,
        None => Double::zero(),
    };
    if d.len() == 1 {
        let mut line = pyfmt::fixed(near, 1);
        line.push_str("%");
        return line;
    }
    let mut line2 = pyfmt::fixed(near, 1);
    line2.push_str("% to ");
    line2.push_str(pyfmt::fixed(far, 1).as_str());
    line2.push_str("%");
    line2
}

/// One line on what a flip means for the coins held: held or not, and how far the resting
/// buy rungs now sit below spot. Empty when nothing is known.
pub open spec fn flip_note_spec(
    sym: Seq<char>,
    rows: Seq<Doc>,
    hold: Doc,
    price: Option<Double>,
) -> Seq<char> {
    let have = holding_spec(sym, hold);
    match price {
        Some(p) => if !p.eq_spec(Double::zero_spec()) && !(rows.len() == 0) {
            let plural = if rows.len() > 1 {
                "s"@
            } else {
                ""@
            };
            let span = span_of_spec(distances_spec(rows, p));
            let rungs = text::dec(((rows.len() as usize)) as nat)
                + " resting buy rung"@
                + plural
                + " "@
                + span
                + " below spot $"@
                + pyfmt::g_spec(p, 6);
            if have == ""@ {
                "Your "@ + rungs + "."@
            } else {
                have + " Your "@ + rungs + ": a coin that keeps running fills none of them."@
            }
        } else {
            have
        },
        None => have,
    }
}

/// One line on what a flip means for the coins held: held or not, and how far the resting
/// buy rungs now sit below spot. Empty when nothing is known.
pub fn flip_note(sym: &str, rows: &Vec<Json>, hold: &Json, price: Option<Double>) -> (r: String)
    ensures
        r@ == flip_note_spec(sym@, rows.deep_view(), hold@, price),
{
    let have = holding(sym, hold);
    match price {
        Some(p) => {
            if !p.same(Double::zero()) && !(rows.len() == 0) {
                let plural = if rows.len() > 1 {
                    "s"
                } else {
                    ""
                };
                let span = span_of(&distances(rows, p));
                let mut rungs = text::dec_u64(rows.len() as u64);
                rungs.push_str(" resting buy rung");
                rungs.push_str(plural);
                rungs.push_str(" ");
                rungs.push_str(span.as_str());
                rungs.push_str(" below spot $");
                rungs.push_str(pyfmt::g(p, 6).as_str());
                if text::same(have.as_str(), "") {
                    let mut line = text::owned("Your ");
                    line.push_str(rungs.as_str());
                    line.push_str(".");
                    return line;
                }
                let mut line2 = text::owned(have.as_str());
                line2.push_str(" Your ");
                line2.push_str(rungs.as_str());
                line2.push_str(": a coin that keeps running fills none of them.");
                return line2;
            }
        },
        None => {},
    }
    have
}

/// The stable a venue quotes in.
pub open spec fn quote_of_spec(venue: Seq<char>) -> Option<Seq<char>> {
    if venue == "binance"@ {
        Some("USDC"@)
    } else if venue == "gate"@ {
        Some("USDT"@)
    } else if venue == "revx"@ {
        Some("USD"@)
    } else {
        None
    }
}

fn quote_of(venue: &str) -> (r: Option<String>)
    ensures
        r.deep_view() == quote_of_spec(venue@),
{
    if text::same(venue, "binance") {
        return Some(text::owned("USDC"));
    }
    if text::same(venue, "gate") {
        return Some(text::owned("USDT"));
    }
    if text::same(venue, "revx") {
        return Some(text::owned("USD"));
    }
    None
}

/// An amount, 0 where there is none.
pub open spec fn amount_under_spec(v: Doc, k: Seq<char>) -> Result<Double, Seq<char>> {
    match v.get(k) {
        None => Ok(Double::zero_spec()),
        Some(x) => match x.to_float() {
            Some(f) => Ok(f),
            None => Err("could not convert "@ + x.py_str() + " to float"@),
        },
    }
}

fn amount_under(v: &Json, k: &str) -> (r: Result<Double, String>)
    ensures
        list::outcome(r) == amount_under_spec(v@, k@),
{
    match v.get(k) {
        None => Ok(Double::zero()),
        Some(x) => match x.to_float() {
            Some(f) => Ok(f),
            None => {
                let mut line = text::owned("could not convert ");
                line.push_str(x.py_str().as_str());
                line.push_str(" to float");
                Err(line)
            },
        },
    }
}

/// What is free and what is locked, together.
pub open spec fn both_amounts_spec(v: Doc) -> Result<Double, Seq<char>> {
    match amount_under_spec(v, "free"@) {
        Ok(a) => match amount_under_spec(v, "locked"@) {
            Ok(b) => Ok(a.add_spec(b)),
            Err(e) => Err(e),
        },
        Err(e) => Err(e),
    }
}

fn both_amounts(v: &Json) -> (r: Result<Double, String>)
    ensures
        list::outcome(r) == both_amounts_spec(v@),
{
    match amount_under(v, "free") {
        Ok(a) => match amount_under(v, "locked") {
            Ok(b) => Ok(a.plus(b)),
            Err(e) => Err(e),
        },
        Err(e) => Err(e),
    }
}

/// The amounts of the first `n` balances, up to the first that cannot be read.
pub open spec fn add_amounts_spec(
    xs: Seq<Doc>,
    terms: Seq<Double>,
    fault: Option<Seq<char>>,
    n: nat,
) -> (Seq<Double>, Option<Seq<char>>)
    decreases n,
{
    if n == 0 {
        (terms, fault)
    } else {
        let (terms, fault) = add_amounts_spec(xs, terms, fault, (n - 1) as nat);
        let v = xs[n - 1];
        if fault is None {
            match both_amounts_spec(v) {
                Ok(f) => (terms.push(f), fault),
                Err(e) => (terms, Some(e)),
            }
        } else {
            (terms, fault)
        }
    }
}

fn add_amounts(
    xs: &Vec<Json>,
    terms: Vec<Double>,
    fault: Option<String>,
) -> (r: (Vec<Double>, Option<String>))
    ensures
        r.deep_view() == add_amounts_spec(
            xs.deep_view(),
            terms.deep_view(),
            fault.deep_view(),
            xs@.len(),
        ),
{
    let ghost terms0 = terms.deep_view();
    let ghost fault0 = fault.deep_view();
    let mut terms = terms;
    let mut fault = fault;
    let mut i: usize = 0;
    while i < xs.len()
        invariant
            i <= xs@.len(),
            (terms.deep_view(), fault.deep_view()) == add_amounts_spec(
                xs.deep_view(),
                terms0,
                fault0,
                i as nat,
            ),
        decreases xs@.len() - i,
    {
        let v = &xs[i];
        if fault.is_none() {
            match both_amounts(v) {
                Ok(f) => {
                    list::push(&mut terms, f);
                },
                Err(e) => {
                    fault = Some(e);
                },
            }
        }
        i = i + 1;
    }
    (terms, fault)
}

/// The sum over several balances.
pub open spec fn all_amounts_spec(vs: Seq<Doc>) -> Result<Double, Seq<char>> {
    let terms = Seq::<Double>::empty();
    let fault: Option<Seq<char>> = None;
    let (terms, fault) = add_amounts_spec(vs, terms, fault, vs.len());
    match fault {
        Some(e) => Err(e),
        None => Ok(pyfmt::sum_spec(terms)),
    }
}

fn all_amounts(vs: &Vec<Json>) -> (r: Result<Double, String>)
    ensures
        list::outcome(r) == all_amounts_spec(vs.deep_view()),
{
    let mut terms: Vec<Double> = list::none();
    let mut fault: Option<String> = None;
    let (next_terms, next_fault) = add_amounts(vs, terms, fault);
    terms = next_terms;
    fault = next_fault;
    match fault {
        Some(e) => Err(e),
        None => Ok(list::sum(&terms)),
    }
}

/// Those of the first `n` balances.
pub open spec fn add_held_spec(
    assets: Seq<Seq<char>>,
    xs: Seq<(Seq<char>, Doc)>,
    out: Seq<Doc>,
    n: nat,
) -> Seq<Doc> {
    out + list::gathered(
        xs,
        |it: (Seq<char>, Doc)| {
            let a = it.0;
            let v = it.1;
            if assets.contains(a) {
                Some(v)
            } else {
                None
            }
        },
        n,
    )
}

fn add_held(assets: &Vec<String>, xs: &Vec<(String, Json)>, out: Vec<Json>) -> (r: Vec<Json>)
    ensures
        r.deep_view() == add_held_spec(
            assets.deep_view(),
            xs.deep_view(),
            out.deep_view(),
            xs@.len(),
        ),
{
    let ghost out0 = out.deep_view();
    let mut out = out;
    let mut i: usize = 0;
    while i < xs.len()
        invariant
            i <= xs@.len(),
            out.deep_view() == add_held_spec(assets.deep_view(), xs.deep_view(), out0, i as nat),
        decreases xs@.len() - i,
    {
        let it = &xs[i];
        let a = it.0.as_str();
        let v = &it.1;
        if list::holds(assets, a) {
            list::push(&mut out, v.copy());
        }
        assert(out.deep_view() =~= add_held_spec(
            assets.deep_view(),
            xs.deep_view(),
            out0,
            (i + 1) as nat,
        ));
        i = i + 1;
    }
    out
}

/// The balances among some assets, in the order they are held.
pub open spec fn held_stable_spec(bal: Doc, assets: Seq<Seq<char>>) -> Seq<Doc> {
    add_held_spec(assets, bal.entries(), Seq::<Doc>::empty(), bal.entries().len())
}

fn held_stable(bal: &Json, assets: &Vec<String>) -> (r: Vec<Json>)
    ensures
        r.deep_view() == held_stable_spec(bal@, assets.deep_view()),
{
    let mut out: Vec<Json> = list::none();
    out = add_held(assets, &json::entries(bal), out);
    out
}

/// Those of the first `n` assets.
pub open spec fn add_listed_spec(bal: Doc, xs: Seq<Seq<char>>, out: Seq<Doc>, n: nat) -> Seq<Doc> {
    out + Seq::new(
        n,
        |i: int| {
            let a = xs[i];
            fields::object_or_spec(bal, a)
        },
    )
}

fn add_listed(bal: &Json, xs: &Vec<String>, out: Vec<Json>) -> (r: Vec<Json>)
    ensures
        r.deep_view() == add_listed_spec(bal@, xs.deep_view(), out.deep_view(), xs@.len()),
{
    let ghost out0 = out.deep_view();
    let mut out = out;
    let mut i: usize = 0;
    while i < xs.len()
        invariant
            i <= xs@.len(),
            out.deep_view() == add_listed_spec(bal@, xs.deep_view(), out0, i as nat),
        decreases xs@.len() - i,
    {
        let a = xs[i].as_str();
        list::push(&mut out, fields::object_or(bal, a));
        assert(out.deep_view() =~= add_listed_spec(bal@, xs.deep_view(), out0, (i + 1) as nat));
        i = i + 1;
    }
    out
}

/// The balance of each of some assets, empty where none is held.
pub open spec fn listed_stable_spec(bal: Doc, assets: Seq<Seq<char>>) -> Seq<Doc> {
    add_listed_spec(bal, assets, Seq::<Doc>::empty(), assets.len())
}

fn listed_stable(bal: &Json, assets: &Vec<String>) -> (r: Vec<Json>)
    ensures
        r.deep_view() == listed_stable_spec(bal@, assets.deep_view()),
{
    let mut out: Vec<Json> = list::none();
    out = add_listed(bal, assets, out);
    out
}

/// What is held back on Revolut X for Gate.
pub open spec fn pending_reserve_spec(
    rx: Doc,
    gt: Doc,
    reserve: ReserveConfigView,
) -> Result<Double, Seq<char>> {
    let rx_assets = Seq::<Seq<char>>::empty().push("USD"@).push("USDC"@);
    let gate_assets = Seq::<Seq<char>>::empty().push("USDT"@).push("USDC"@);
    match all_amounts_spec(held_stable_spec(rx, rx_assets)) {
        Ok(r) => match all_amounts_spec(listed_stable_spec(gt, gate_assets)) {
            Ok(g) => Ok(reserve_for_spec(reserve, r, g)),
            Err(e) => Err(e),
        },
        Err(e) => Err(e),
    }
}

fn pending_reserve(rx: &Json, gt: &Json, reserve: &ReserveConfig) -> (r: Result<Double, String>)
    ensures
        list::outcome(r) == pending_reserve_spec(rx@, gt@, reserve.deep_view()),
{
    let mut rx_assets: Vec<String> = list::none();
    list::push(&mut rx_assets, text::owned("USD"));
    list::push(&mut rx_assets, text::owned("USDC"));
    let mut gate_assets: Vec<String> = list::none();
    list::push(&mut gate_assets, text::owned("USDT"));
    list::push(&mut gate_assets, text::owned("USDC"));
    match all_amounts(&held_stable(rx, &rx_assets)) {
        Ok(r) => match all_amounts(&listed_stable(gt, &gate_assets)) {
            Ok(g) => Ok(reserve_for(reserve, r, g)),
            Err(e) => Err(e),
        },
        Err(e) => Err(e),
    }
}

/// A venue's balances, or why they could not be read.
#[derive(Debug)]
pub struct Balance {
    pub venue: String,
    pub read: Result<Json, String>,
}

/// What a [`Balance`] holds.
pub struct BalanceView {
    pub venue: Seq<char>,
    pub read: Result<Doc, Seq<char>>,
}

impl DeepView for Balance {
    type V = BalanceView;

    open spec fn deep_view(&self) -> BalanceView {
        BalanceView {
            venue: self.venue@,
            read: list::outcome(self.read),
        }
    }
}

/// The free stable of a venue.
#[derive(Debug)]
pub struct Free {
    pub venue: String,
    pub free: Option<Double>,
    pub why: String,
}

/// What a [`Free`] holds.
pub struct FreeView {
    pub venue: Seq<char>,
    pub free: Option<Double>,
    pub why: Seq<char>,
}

impl DeepView for Free {
    type V = FreeView;

    open spec fn deep_view(&self) -> FreeView {
        FreeView {
            venue: self.venue@,
            free: self.free,
            why: self.why@,
        }
    }
}

/// What the first `n` readings say.
pub open spec fn find_balance_spec(
    venue: Seq<char>,
    xs: Seq<BalanceView>,
    found: Option<Doc>,
    n: nat,
) -> Option<Doc> {
    match found {
        Some(v) => Some(v),
        None => list::first_given(
            xs,
            |b: BalanceView| if b.venue == venue {
                match b.read {
                    Ok(v) => Some(v),
                    Err(_) => None,
                }
            } else {
                None
            },
            n,
        ),
    }
}

fn find_balance(venue: &str, xs: &Vec<Balance>, found: Option<Json>) -> (r: Option<Json>)
    ensures
        r.deep_view() == find_balance_spec(venue@, xs.deep_view(), found.deep_view(), xs@.len()),
{
    let ghost found0 = found.deep_view();
    let mut found = found;
    let mut i: usize = 0;
    while i < xs.len()
        invariant
            i <= xs@.len(),
            found.deep_view() == find_balance_spec(venue@, xs.deep_view(), found0, i as nat),
        decreases xs@.len() - i,
    {
        let b = &xs[i];
        if found.is_none() && text::same(b.venue.as_str(), venue) {
            match &b.read {
                Ok(v) => {
                    found = Some(v.copy());
                },
                Err(_) => {},
            }
        }
        assert(xs.deep_view()[i as int] == xs@[i as int].deep_view());
        assert(found.deep_view() == find_balance_spec(
            venue@,
            xs.deep_view(),
            found0,
            (i + 1) as nat,
        ));
        i = i + 1;
    }
    found
}

/// The balances read from a venue.
pub open spec fn balance_on_spec(balances: Seq<BalanceView>, venue: Seq<char>) -> Option<Doc> {
    let found: Option<Doc> = None;
    find_balance_spec(venue, balances, found, balances.len())
}

fn balance_on(balances: &Vec<Balance>, venue: &str) -> (r: Option<Json>)
    ensures
        r.deep_view() == balance_on_spec(balances.deep_view(), venue@),
{
    let mut found: Option<Json> = None;
    found = find_balance(venue, balances, found);
    found
}

/// What is free of an asset.
pub open spec fn free_quote_spec(b: Doc, q: Seq<char>) -> Double {
    match b.get(q) {
        Some(x) => if x is Obj {
            fields::truthy_float_spec(x, "free"@, Double::zero_spec())
        } else {
            Double::zero_spec()
        },
        None => Double::zero_spec(),
    }
}

fn free_quote(b: &Json, q: &str) -> (r: Double)
    ensures
        r == free_quote_spec(b@, q@),
{
    match b.get(q) {
        Some(x) => {
            if x.is_obj() {
                return fields::truthy_float(x, "free", Double::zero());
            }
        },
        None => {},
    }
    Double::zero()
}

/// Of the first `n` venues.
pub open spec fn add_unread_spec(
    xs: Seq<BalanceView>,
    out: Seq<FreeView>,
    n: nat,
) -> Seq<FreeView>
    decreases n,
{
    if n == 0 {
        out
    } else {
        let out = add_unread_spec(xs, out, (n - 1) as nat);
        let b = xs[n - 1];
        match b.read {
            Err(e) => out.push(
                FreeView { venue: b.venue, free: None, why: "balances unavailable: "@ + e },
            ),
            Ok(_) => out,
        }
    }
}

fn add_unread(xs: &Vec<Balance>, out: Vec<Free>) -> (r: Vec<Free>)
    ensures
        r.deep_view() == add_unread_spec(xs.deep_view(), out.deep_view(), xs@.len()),
{
    let ghost out0 = out.deep_view();
    let mut out = out;
    let mut i: usize = 0;
    while i < xs.len()
        invariant
            i <= xs@.len(),
            out.deep_view() == add_unread_spec(xs.deep_view(), out0, i as nat),
        decreases xs@.len() - i,
    {
        let b = &xs[i];
        match &b.read {
            Err(e) => {
                let mut line = text::owned("balances unavailable: ");
                line.push_str(e.as_str());
                list::push(
                    &mut out,
                    Free { venue: text::owned(b.venue.as_str()), free: None, why: line },
                );
            },
            Ok(_) => {},
        }
        i = i + 1;
    }
    out
}

/// The venues that could not be read.
pub open spec fn unread_spec(balances: Seq<BalanceView>) -> Seq<FreeView> {
    add_unread_spec(balances, Seq::<FreeView>::empty(), balances.len())
}

fn unread(balances: &Vec<Balance>) -> (r: Vec<Free>)
    ensures
        r.deep_view() == unread_spec(balances.deep_view()),
{
    let mut out: Vec<Free> = list::none();
    out = add_unread(balances, out);
    out
}

/// Of the first `n` venues.
pub open spec fn add_free_spec(xs: Seq<BalanceView>, out: Seq<FreeView>, n: nat) -> Seq<FreeView>
    decreases n,
{
    if n == 0 {
        out
    } else {
        let out = add_free_spec(xs, out, (n - 1) as nat);
        let b = xs[n - 1];
        match b.read {
            Ok(v) => match quote_of_spec(b.venue) {
                Some(q) => out.push(
                    FreeView { venue: b.venue, free: Some(free_quote_spec(v, q)), why: ""@ },
                ),
                None => out,
            },
            Err(_) => out,
        }
    }
}

fn add_free(xs: &Vec<Balance>, out: Vec<Free>) -> (r: Vec<Free>)
    ensures
        r.deep_view() == add_free_spec(xs.deep_view(), out.deep_view(), xs@.len()),
{
    let ghost out0 = out.deep_view();
    let mut out = out;
    let mut i: usize = 0;
    while i < xs.len()
        invariant
            i <= xs@.len(),
            out.deep_view() == add_free_spec(xs.deep_view(), out0, i as nat),
        decreases xs@.len() - i,
    {
        let b = &xs[i];
        match &b.read {
            Ok(v) => {
                match quote_of(b.venue.as_str()) {
                    Some(q) => {
                        list::push(
                            &mut out,
                            Free {
                                venue: text::owned(b.venue.as_str()),
                                free: Some(free_quote(v, q.as_str())),
                                why: text::owned(""),
                            },
                        );
                    },
                    None => {},
                }
            },
            Err(_) => {},
        }
        i = i + 1;
    }
    out
}

/// The free stable of the venues that could be read.
pub open spec fn read_free_spec(balances: Seq<BalanceView>) -> Seq<FreeView> {
    add_free_spec(balances, Seq::<FreeView>::empty(), balances.len())
}

fn read_free(balances: &Vec<Balance>) -> (r: Vec<Free>)
    ensures
        r.deep_view() == read_free_spec(balances.deep_view()),
{
    let mut out: Vec<Free> = list::none();
    out = add_free(balances, out);
    out
}

/// The free stable net of what is held back.
pub open spec fn net_of_spec(f: FreeView, held_back: Result<Double, Seq<char>>) -> FreeView {
    match held_back {
        Ok(r) => match f.free {
            Some(x) => if Double::zero_spec().lt_spec(r) {
                FreeView {
                    venue: f.venue,
                    free: Some(x.sub_spec(r).max_spec(Double::zero_spec())),
                    why: "after $"@ + pyfmt::fixed_spec(r, 2) + " Gate reserve"@,
                }
            } else {
                FreeView { venue: f.venue, free: f.free, why: f.why }
            },
            None => FreeView { venue: f.venue, free: f.free, why: f.why },
        },
        Err(e) => FreeView { venue: f.venue, free: f.free, why: "reserve unknown: "@ + e },
    }
}

fn net_of(f: &Free, held_back: &Result<Double, String>) -> (r: Free)
    ensures
        r.deep_view() == net_of_spec(f.deep_view(), list::outcome(*held_back)),
{
    match held_back {
        Ok(r) => {
            match f.free {
                Some(x) => {
                    if Double::zero().lt(*r) {
                        let mut line = text::owned("after $");
                        line.push_str(pyfmt::fixed(*r, 2).as_str());
                        line.push_str(" Gate reserve");
                        return Free {
                            venue: text::owned(f.venue.as_str()),
                            free: Some(x.minus(*r).max(Double::zero())),
                            why: line,
                        };
                    }
                },
                None => {},
            }
            Free {
                venue: text::owned(f.venue.as_str()),
                free: f.free,
                why: text::owned(f.why.as_str()),
            }
        },
        Err(e) => {
            let mut line2 = text::owned("reserve unknown: ");
            line2.push_str(e.as_str());
            Free { venue: text::owned(f.venue.as_str()), free: f.free, why: line2 }
        },
    }
}

/// Of the first `n` entries.
pub open spec fn add_net_spec(
    held_back: Result<Double, Seq<char>>,
    xs: Seq<FreeView>,
    out: Seq<FreeView>,
    done: bool,
    n: nat,
) -> (Seq<FreeView>, bool)
    decreases n,
{
    if n == 0 {
        (out, done)
    } else {
        let (out, done) = add_net_spec(held_back, xs, out, done, (n - 1) as nat);
        let f = xs[n - 1];
        if !done && f.venue == "revx"@ {
            (out.push(net_of_spec(f, held_back)), true)
        } else {
            let out = out.push(FreeView { venue: f.venue, free: f.free, why: f.why });
            (out, done)
        }
    }
}

fn add_net(
    held_back: &Result<Double, String>,
    xs: &Vec<Free>,
    out: Vec<Free>,
    done: bool,
) -> (r: (Vec<Free>, bool))
    ensures
        r.deep_view() == add_net_spec(
            list::outcome(*held_back),
            xs.deep_view(),
            out.deep_view(),
            done,
            xs@.len(),
        ),
{
    let ghost out0 = out.deep_view();
    let ghost done0 = done;
    let mut out = out;
    let mut done = done;
    let mut i: usize = 0;
    while i < xs.len()
        invariant
            i <= xs@.len(),
            (out.deep_view(), done) == add_net_spec(
                list::outcome(*held_back),
                xs.deep_view(),
                out0,
                done0,
                i as nat,
            ),
        decreases xs@.len() - i,
    {
        let f = &xs[i];
        if !done && text::same(f.venue.as_str(), "revx") {
            list::push(&mut out, net_of(f, held_back));
            done = true;
        } else {
            list::push(
                &mut out,
                Free {
                    venue: text::owned(f.venue.as_str()),
                    free: f.free,
                    why: text::owned(f.why.as_str()),
                },
            );
        }
        i = i + 1;
    }
    (out, done)
}

/// The first entry of Revolut X is net of what is held back there.
pub open spec fn with_reserve_spec(
    all: Seq<FreeView>,
    held_back: Result<Double, Seq<char>>,
) -> Seq<FreeView> {
    let out = Seq::<FreeView>::empty();
    let done = false;
    let (out, done) = add_net_spec(held_back, all, out, done, all.len());
    out
}

fn with_reserve(all: &Vec<Free>, held_back: &Result<Double, String>) -> (r: Vec<Free>)
    ensures
        r.deep_view() == with_reserve_spec(all.deep_view(), list::outcome(*held_back)),
{
    let mut out: Vec<Free> = list::none();
    let mut done = false;
    let (next_out, next_done) = add_net(held_back, all, out, done);
    out = next_out;
    done = next_done;
    out
}

/// Free quote stable per venue, net of the Revolut X hold-back for a top-up of Gate. The
/// balances come in venue order; the venues that could not be read come first.
pub open spec fn free_stable_spec(
    balances: Seq<BalanceView>,
    reserve: ReserveConfigView,
) -> Seq<FreeView> {
    let all = unread_spec(balances) + read_free_spec(balances);
    match balance_on_spec(balances, "revx"@) {
        Some(rx) => match balance_on_spec(balances, "gate"@) {
            Some(gt) => with_reserve_spec(all, pending_reserve_spec(rx, gt, reserve)),
            None => all,
        },
        None => all,
    }
}

/// Free quote stable per venue, net of the Revolut X hold-back for a top-up of Gate. The
/// balances come in venue order; the venues that could not be read come first.
pub fn free_stable(balances: &Vec<Balance>, reserve: &ReserveConfig) -> (r: Vec<Free>)
    ensures
        r.deep_view() == free_stable_spec(balances.deep_view(), reserve.deep_view()),
{
    let all = list::joined(unread(balances), read_free(balances));
    match balance_on(balances, "revx") {
        Some(rx) => match balance_on(balances, "gate") {
            Some(gt) => with_reserve(&all, &pending_reserve(&rx, &gt, reserve)),
            None => all,
        },
        None => all,
    }
}

/// Inputs to one run, as read by the caller.
#[derive(Debug)]
pub struct Input {
    pub now: Double,
    /// The previous zone state ([`empty_state`] when missing).
    pub state: Json,
    /// The cached regime reading.
    pub reg: Json,
    /// Open `deploy_buy` orders, in journal order.
    pub deploy_rows: Vec<Json>,
    pub balances: Vec<Balance>,
    /// The executor's book, if readable.
    pub book: Option<Json>,
    pub reserve: ReserveConfig,
    pub cfg: ZoneConfig,
}

/// What a [`Input`] holds.
pub struct InputView {
    pub now: Double,
    pub state: Doc,
    pub reg: Doc,
    pub deploy_rows: Seq<Doc>,
    pub balances: Seq<BalanceView>,
    pub book: Option<Doc>,
    pub reserve: ReserveConfigView,
    pub cfg: ZoneConfigView,
}

impl DeepView for Input {
    type V = InputView;

    open spec fn deep_view(&self) -> InputView {
        InputView {
            now: self.now,
            state: self.state@,
            reg: self.reg@,
            deploy_rows: self.deploy_rows.deep_view(),
            balances: self.balances.deep_view(),
            book: self.book.deep_view(),
            reserve: self.reserve.deep_view(),
            cfg: self.cfg.deep_view(),
        }
    }
}

/// A fresh zone state.
pub open spec fn empty_state_spec() -> Doc {
    Doc::obj().with("run"@, Doc::Null).with("stale"@, Doc::obj()).with("idle"@, Doc::obj())
}

/// A fresh zone state.
pub fn empty_state() -> (r: Json)
    ensures
        r@ == empty_state_spec(),
{
    Json::obj().with("run", Json::Null).with("stale", Json::obj()).with("idle", Json::obj())
}

/// Of the first `n` coins.
pub open spec fn add_running_spec(
    xs: Seq<(Seq<char>, Doc)>,
    out: Seq<(Seq<char>, Doc)>,
    n: nat,
) -> Seq<(Seq<char>, Doc)> {
    out + Seq::new(
        n,
        |i: int| {
            let it = xs[i];
            let s = it.0;
            let c = it.1;
            (s, Doc::Bool(c.has_truthy("running"@)))
        },
    )
}

fn add_running(xs: &Vec<(String, Json)>, out: Vec<(String, Json)>) -> (r: Vec<(String, Json)>)
    ensures
        r.deep_view() == add_running_spec(xs.deep_view(), out.deep_view(), xs@.len()),
{
    let ghost out0 = out.deep_view();
    let mut out = out;
    let mut i: usize = 0;
    while i < xs.len()
        invariant
            i <= xs@.len(),
            out.deep_view() == add_running_spec(xs.deep_view(), out0, i as nat),
        decreases xs@.len() - i,
    {
        let it = &xs[i];
        let s = it.0.as_str();
        let c = &it.1;
        list::push(&mut out, (text::owned(s), Json::Bool(c.has_truthy("running"))));
        assert(out.deep_view() =~= add_running_spec(xs.deep_view(), out0, (i + 1) as nat));
        i = i + 1;
    }
    out
}

/// Whether each coin runs.
pub open spec fn running_now_spec(coins: Seq<(Seq<char>, Doc)>) -> Doc {
    let out = add_running_spec(coins, Seq::<(Seq<char>, Doc)>::empty(), coins.len());
    Doc::Obj(out)
}

fn running_now(coins: &Vec<(String, Json)>) -> (r: Json)
    ensures
        r@ == running_now_spec(coins.deep_view()),
{
    let mut out: Vec<(String, Json)> = list::none();
    out = add_running(coins, out);
    json::object(out)
}

/// Those of the first `n`.
pub open spec fn add_true_spec(
    xs: Seq<(Seq<char>, Doc)>,
    out: Seq<Seq<char>>,
    n: nat,
) -> Seq<Seq<char>> {
    out + list::gathered(
        xs,
        |it: (Seq<char>, Doc)| {
            let k = it.0;
            let v = it.1;
            if v == Doc::Bool(true) {
                Some(k)
            } else {
                None
            }
        },
        n,
    )
}

fn add_true(xs: &Vec<(String, Json)>, out: Vec<String>) -> (r: Vec<String>)
    ensures
        r.deep_view() == add_true_spec(xs.deep_view(), out.deep_view(), xs@.len()),
{
    let ghost out0 = out.deep_view();
    let mut out = out;
    let mut i: usize = 0;
    while i < xs.len()
        invariant
            i <= xs@.len(),
            out.deep_view() == add_true_spec(xs.deep_view(), out0, i as nat),
        decreases xs@.len() - i,
    {
        let it = &xs[i];
        let k = it.0.as_str();
        let v = &it.1;
        if v.is_true() {
            list::push(&mut out, text::owned(k));
        }
        assert(out.deep_view() =~= add_true_spec(xs.deep_view(), out0, (i + 1) as nat));
        i = i + 1;
    }
    out
}

/// The signs that are set.
pub open spec fn true_signs_spec(sig: Doc) -> Seq<Seq<char>> {
    add_true_spec(sig.entries(), Seq::<Seq<char>>::empty(), sig.entries().len())
}

fn true_signs(sig: &Json) -> (r: Vec<String>)
    ensures
        r.deep_view() == true_signs_spec(sig@),
{
    let mut out: Vec<String> = list::none();
    out = add_true(&json::entries(sig), out);
    out
}

/// Those of the first `n`.
pub open spec fn add_scored_spec(
    xs: Seq<(Seq<char>, Doc)>,
    out: Seq<Seq<char>>,
    n: nat,
) -> Seq<Seq<char>> {
    out + list::gathered(
        xs,
        |it: (Seq<char>, Doc)| {
            let k = it.0;
            let v = it.1;
            if v.truthy() {
                Some(k)
            } else {
                None
            }
        },
        n,
    )
}

fn add_scored(xs: &Vec<(String, Json)>, out: Vec<String>) -> (r: Vec<String>)
    ensures
        r.deep_view() == add_scored_spec(xs.deep_view(), out.deep_view(), xs@.len()),
{
    let ghost out0 = out.deep_view();
    let mut out = out;
    let mut i: usize = 0;
    while i < xs.len()
        invariant
            i <= xs@.len(),
            out.deep_view() == add_scored_spec(xs.deep_view(), out0, i as nat),
        decreases xs@.len() - i,
    {
        let it = &xs[i];
        let k = it.0.as_str();
        let v = &it.1;
        if v.truthy() {
            list::push(&mut out, text::owned(k));
        }
        assert(out.deep_view() =~= add_scored_spec(xs.deep_view(), out0, (i + 1) as nat));
        i = i + 1;
    }
    out
}

/// The signs that count.
pub open spec fn scored_signs_spec(sig: Doc) -> Seq<Seq<char>> {
    add_scored_spec(sig.entries(), Seq::<Seq<char>>::empty(), sig.entries().len())
}

fn scored_signs(sig: &Json) -> (r: Vec<String>)
    ensures
        r.deep_view() == scored_signs_spec(sig@),
{
    let mut out: Vec<String> = list::none();
    out = add_scored(&json::entries(sig), out);
    out
}

/// Of the first `n` rows.
pub open spec fn add_rows_spec(sym: Seq<char>, xs: Seq<Doc>, out: Seq<Doc>, n: nat) -> Seq<Doc> {
    out + list::kept(
        xs,
        |o: Doc| o.has_truthy("rung"@)
            && o.has_truthy("order_id"@)
            && fields::shown_spec(o, "sym"@, ""@) == sym,
        n,
    )
}

fn add_rows(sym: &str, xs: &Vec<Json>, out: Vec<Json>) -> (r: Vec<Json>)
    ensures
        r.deep_view() == add_rows_spec(sym@, xs.deep_view(), out.deep_view(), xs@.len()),
{
    let ghost out0 = out.deep_view();
    let mut out = out;
    let mut i: usize = 0;
    while i < xs.len()
        invariant
            i <= xs@.len(),
            out.deep_view() == add_rows_spec(sym@, xs.deep_view(), out0, i as nat),
        decreases xs@.len() - i,
    {
        let o = &xs[i];
        if o.has_truthy("rung")
            && o.has_truthy("order_id")
            && text::same(fields::shown(o, "sym", "").as_str(), sym) {
            list::push(&mut out, o.copy());
        }
        assert(out.deep_view() =~= add_rows_spec(sym@, xs.deep_view(), out0, (i + 1) as nat));
        i = i + 1;
    }
    out
}

/// The resting rungs of a coin.
pub open spec fn coin_rows_spec(rows: Seq<Doc>, sym: Seq<char>) -> Seq<Doc> {
    add_rows_spec(sym, rows, Seq::<Doc>::empty(), rows.len())
}

fn coin_rows(rows: &Vec<Json>, sym: &str) -> (r: Vec<Json>)
    ensures
        r.deep_view() == coin_rows_spec(rows.deep_view(), sym@),
{
    let mut out: Vec<Json> = list::none();
    out = add_rows(sym, rows, out);
    out
}

/// Of the first `n` rows.
pub open spec fn add_ladders_spec(xs: Seq<Doc>, out: Seq<Seq<char>>, n: nat) -> Seq<Seq<char>>
    decreases n,
{
    if n == 0 {
        out
    } else {
        let out = add_ladders_spec(xs, out, (n - 1) as nat);
        let o = xs[n - 1];
        if o.has_truthy("rung"@) && o.has_truthy("order_id"@) {
            let sym = fields::shown_spec(o, "sym"@, ""@);
            if !out.contains(sym) {
                out.push(sym)
            } else {
                out
            }
        } else {
            out
        }
    }
}

fn add_ladders(xs: &Vec<Json>, out: Vec<String>) -> (r: Vec<String>)
    ensures
        r.deep_view() == add_ladders_spec(xs.deep_view(), out.deep_view(), xs@.len()),
{
    let ghost out0 = out.deep_view();
    let mut out = out;
    let mut i: usize = 0;
    while i < xs.len()
        invariant
            i <= xs@.len(),
            out.deep_view() == add_ladders_spec(xs.deep_view(), out0, i as nat),
        decreases xs@.len() - i,
    {
        let o = &xs[i];
        if o.has_truthy("rung") && o.has_truthy("order_id") {
            let sym = fields::shown(o, "sym", "");
            if !list::holds(&out, sym.as_str()) {
                list::push(&mut out, sym);
            }
        }
        i = i + 1;
    }
    out
}

/// The coins with resting rungs, as they come.
pub open spec fn ladder_coins_spec(rows: Seq<Doc>) -> Seq<Seq<char>> {
    add_ladders_spec(rows, Seq::<Seq<char>>::empty(), rows.len())
}

fn ladder_coins(rows: &Vec<Json>) -> (r: Vec<String>)
    ensures
        r.deep_view() == ladder_coins_spec(rows.deep_view()),
{
    let mut out: Vec<String> = list::none();
    out = add_ladders(rows, out);
    out
}

/// What the first `n` say.
pub open spec fn find_coin_spec(
    sym: Seq<char>,
    xs: Seq<(Seq<char>, Doc)>,
    found: Option<Doc>,
    n: nat,
) -> Option<Doc> {
    match found {
        Some(v) => Some(v),
        None => list::first_given(
            xs,
            |it: (Seq<char>, Doc)| {
                let k = it.0;
                let c = it.1;
                if k == sym {
                    Some(c)
                } else {
                    None
                }
            },
            n,
        ),
    }
}

fn find_coin(sym: &str, xs: &Vec<(String, Json)>, found: Option<Json>) -> (r: Option<Json>)
    ensures
        r.deep_view() == find_coin_spec(sym@, xs.deep_view(), found.deep_view(), xs@.len()),
{
    let ghost found0 = found.deep_view();
    let mut found = found;
    let mut i: usize = 0;
    while i < xs.len()
        invariant
            i <= xs@.len(),
            found.deep_view() == find_coin_spec(sym@, xs.deep_view(), found0, i as nat),
        decreases xs@.len() - i,
    {
        let it = &xs[i];
        let k = it.0.as_str();
        let c = &it.1;
        if found.is_none() && text::same(k, sym) {
            found = Some(c.copy());
        }
        assert(xs.deep_view()[i as int] == xs@[i as int].deep_view());
        assert(found.deep_view() == find_coin_spec(sym@, xs.deep_view(), found0, (i + 1) as nat));
        i = i + 1;
    }
    found
}

/// The reading of a coin, empty where there is none.
pub open spec fn coin_of_spec(coins: Seq<(Seq<char>, Doc)>, sym: Seq<char>) -> Doc {
    let found: Option<Doc> = None;
    let found = find_coin_spec(sym, coins, found, coins.len());
    match found {
        Some(c) => c,
        None => Doc::obj(),
    }
}

fn coin_of(coins: &Vec<(String, Json)>, sym: &str) -> (r: Json)
    ensures
        r@ == coin_of_spec(coins.deep_view(), sym@),
{
    let mut found: Option<Json> = None;
    found = find_coin(sym, coins, found);
    match found {
        Some(c) => c,
        None => Json::obj(),
    }
}

/// The price of a coin with resting rungs: spot where it could be read, else that of the
/// regime reading.
pub open spec fn ladder_price_spec(
    rows: Seq<Doc>,
    quotes: Seq<QuoteView>,
    coin: Doc,
) -> Option<Double> {
    match list::item(rows, 0) {
        Some(r0) => match regime_watch::price_of_spec(
            quotes,
            fields::shown_spec(r0, "exch"@, ""@),
            fields::shown_spec(r0, "pair"@, ""@),
        ) {
            Some(p) => Some(p),
            None => match coin.get("px"@) {
                Some(v) => v.num(),
                None => None,
            },
        },
        None => None,
    }
}

fn ladder_price(rows: &Vec<Json>, quotes: &Vec<Quote>, coin: &Json) -> (r: Option<Double>)
    ensures
        r == ladder_price_spec(rows.deep_view(), quotes.deep_view(), coin@),
{
    match list::at(rows, 0) {
        Some(r0) => match regime_watch::price_of(
            quotes,
            fields::shown(r0, "exch", "").as_str(),
            fields::shown(r0, "pair", "").as_str(),
        ) {
            Some(p) => Some(p),
            None => match coin.get("px") {
                Some(v) => v.num(),
                None => None,
            },
        },
        None => None,
    }
}

/// A coin's flip.
pub open spec fn flip_of_spec(
    sym: Seq<char>,
    on: bool,
    inp: InputView,
    coins: Seq<(Seq<char>, Doc)>,
    hold: Doc,
    quotes: Seq<QuoteView>,
) -> FlipView {
    let coin = coin_of_spec(coins, sym);
    let sig = fields::object_or_spec(coin, "signals"@);
    let rows = coin_rows_spec(inp.deploy_rows, sym);
    let px = ladder_price_spec(rows, quotes, coin);
    FlipView {
        sym,
        on,
        score: (scored_signs_spec(sig).len() as usize),
        hits: true_signs_spec(sig),
        note: flip_note_spec(sym, rows, hold, px),
    }
}

fn flip_of(
    sym: &str,
    on: bool,
    inp: &Input,
    coins: &Vec<(String, Json)>,
    hold: &Json,
    quotes: &Vec<Quote>,
) -> (r: Flip)
    ensures
        r.deep_view() == flip_of_spec(
            sym@,
            on,
            inp.deep_view(),
            coins.deep_view(),
            hold@,
            quotes.deep_view(),
        ),
{
    let coin = coin_of(coins, sym);
    let sig = fields::object_or(&coin, "signals");
    let rows = coin_rows(&inp.deploy_rows, sym);
    let px = ladder_price(&rows, quotes, &coin);
    Flip {
        sym: text::owned(sym),
        on,
        score: scored_signs(&sig).len(),
        hits: true_signs(&sig),
        note: flip_note(sym, &rows, hold, px),
    }
}

/// Of the first `n` coins.
pub open spec fn add_flips_spec(
    coins: Seq<(Seq<char>, Doc)>,
    hold: Doc,
    inp: InputView,
    prev: Doc,
    quotes: Seq<QuoteView>,
    xs: Seq<(Seq<char>, Doc)>,
    out: Seq<FlipView>,
    n: nat,
) -> Seq<FlipView>
    decreases n,
{
    if n == 0 {
        out
    } else {
        let out = add_flips_spec(coins, hold, inp, prev, quotes, xs, out, (n - 1) as nat);
        let it = xs[n - 1];
        let s = it.0;
        let on = it.1;
        let same = false;
        let same = match prev.get(s) {
            Some(p) => on.py_eq(p),
            None => same,
        };
        if !same {
            out.push(flip_of_spec(s, on.truthy(), inp, coins, hold, quotes))
        } else {
            out
        }
    }
}

fn add_flips(
    coins: &Vec<(String, Json)>,
    hold: &Json,
    inp: &Input,
    prev: &Json,
    quotes: &Vec<Quote>,
    xs: &Vec<(String, Json)>,
    out: Vec<Flip>,
) -> (r: Vec<Flip>)
    ensures
        r.deep_view() == add_flips_spec(
            coins.deep_view(),
            hold@,
            inp.deep_view(),
            prev@,
            quotes.deep_view(),
            xs.deep_view(),
            out.deep_view(),
            xs@.len(),
        ),
{
    let ghost out0 = out.deep_view();
    let mut out = out;
    let mut i: usize = 0;
    while i < xs.len()
        invariant
            i <= xs@.len(),
            out.deep_view() == add_flips_spec(
                coins.deep_view(),
                hold@,
                inp.deep_view(),
                prev@,
                quotes.deep_view(),
                xs.deep_view(),
                out0,
                i as nat,
            ),
        decreases xs@.len() - i,
    {
        let it = &xs[i];
        let s = it.0.as_str();
        let on = &it.1;
        let mut same = false;
        match prev.get(s) {
            Some(p) => {
                same = on.py_eq(p);
            },
            None => {},
        }
        if !same {
            list::push(&mut out, flip_of(s, on.truthy(), inp, coins, hold, quotes));
        }
        i = i + 1;
    }
    out
}

/// The coins whose gate is not what it was, by symbol; none on a first run.
pub open spec fn flips_of_spec(
    inp: InputView,
    coins: Seq<(Seq<char>, Doc)>,
    running: Doc,
    hold: Doc,
    quotes: Seq<QuoteView>,
) -> Seq<FlipView> {
    let out = Seq::<FlipView>::empty();
    match inp.state.get("run"@) {
        Some(prev) => if prev is Obj {
            add_flips_spec(
                coins,
                hold,
                inp,
                prev,
                quotes,
                list::sorted_entries(running.entries()),
                out,
                list::sorted_entries(running.entries()).len(),
            )
        } else {
            out
        },
        None => out,
    }
}

fn flips_of(
    inp: &Input,
    coins: &Vec<(String, Json)>,
    running: &Json,
    hold: &Json,
    quotes: &Vec<Quote>,
) -> (r: Vec<Flip>)
    ensures
        r.deep_view() == flips_of_spec(
            inp.deep_view(),
            coins.deep_view(),
            running@,
            hold@,
            quotes.deep_view(),
        ),
{
    let mut out: Vec<Flip> = list::none();
    match inp.state.get("run") {
        Some(prev) => {
            if prev.is_obj() {
                out = add_flips(
                    coins,
                    hold,
                    inp,
                    prev,
                    quotes,
                    &list::sort_entries(&json::entries(running)),
                    out,
                );
            }
        },
        None => {},
    }
    out
}

/// Of the first `n` alts.
pub open spec fn add_alts_spec(
    running: Doc,
    xs: Seq<Seq<char>>,
    out: Seq<Seq<char>>,
    n: nat,
) -> Seq<Seq<char>> {
    out + list::kept(xs, |a: Seq<char>| running.has_truthy(a), n)
}

fn add_alts(running: &Json, xs: &Vec<String>, out: Vec<String>) -> (r: Vec<String>)
    ensures
        r.deep_view() == add_alts_spec(running@, xs.deep_view(), out.deep_view(), xs@.len()),
{
    let ghost out0 = out.deep_view();
    let mut out = out;
    let mut i: usize = 0;
    while i < xs.len()
        invariant
            i <= xs@.len(),
            out.deep_view() == add_alts_spec(running@, xs.deep_view(), out0, i as nat),
        decreases xs@.len() - i,
    {
        let a = xs[i].as_str();
        if running.has_truthy(a) {
            list::push(&mut out, text::owned(a));
        }
        assert(out.deep_view() =~= add_alts_spec(running@, xs.deep_view(), out0, (i + 1) as nat));
        i = i + 1;
    }
    out
}

/// The alts that run.
pub open spec fn running_alts_spec(alts: Seq<Seq<char>>, running: Doc) -> Seq<Seq<char>> {
    add_alts_spec(running, alts, Seq::<Seq<char>>::empty(), alts.len())
}

fn running_alts(alts: &Vec<String>, running: &Json) -> (r: Vec<String>)
    ensures
        r.deep_view() == running_alts_spec(alts.deep_view(), running@),
{
    let mut out: Vec<String> = list::none();
    out = add_alts(running, alts, out);
    out
}

/// Of the first `n` rows.
pub open spec fn lower_rung_spec(xs: Seq<Doc>, best: Option<Doc>, n: nat) -> Option<Doc>
    decreases n,
{
    if n == 0 {
        best
    } else {
        let best = lower_rung_spec(xs, best, (n - 1) as nat);
        let o = xs[n - 1];
        let better = false;
        let better = match best {
            Some(b) => fields::float_or_spec(o, "rung"@, Double::int_spec(9)).lt_spec(
                fields::float_or_spec(b, "rung"@, Double::int_spec(9)),
            ),
            None => true,
        };
        if better {
            Some(o)
        } else {
            best
        }
    }
}

fn lower_rung(xs: &Vec<Json>, best: Option<Json>) -> (r: Option<Json>)
    ensures
        r.deep_view() == lower_rung_spec(xs.deep_view(), best.deep_view(), xs@.len()),
{
    let ghost best0 = best.deep_view();
    let mut best = best;
    let mut i: usize = 0;
    while i < xs.len()
        invariant
            i <= xs@.len(),
            best.deep_view() == lower_rung_spec(xs.deep_view(), best0, i as nat),
        decreases xs@.len() - i,
    {
        let o = &xs[i];
        let mut better = false;
        match &best {
            Some(b) => {
                better = fields::float_or(o, "rung", Double::of_int(9)).lt(
                    fields::float_or(b, "rung", Double::of_int(9)),
                );
            },
            None => {
                better = true;
            },
        }
        if better {
            best = Some(o.copy());
        }
        i = i + 1;
    }
    best
}

/// The row with the lowest rung, the first of several.
pub open spec fn first_rung_spec(rows: Seq<Doc>) -> Option<Doc> {
    let best: Option<Doc> = None;
    lower_rung_spec(rows, best, rows.len())
}

fn first_rung(rows: &Vec<Json>) -> (r: Option<Json>)
    ensures
        r.deep_view() == first_rung_spec(rows.deep_view()),
{
    let mut best: Option<Json> = None;
    best = lower_rung(rows, best);
    best
}

/// The rung as stale, where it is and was not reported before.
pub open spec fn stale_of_spec(
    sym: Seq<char>,
    r1: Doc,
    inp: InputView,
    quotes: Seq<QuoteView>,
) -> Option<StaleView> {
    let ts = fields::float_or_spec(r1, "ts"@, inp.now);
    let age_d = inp.now.sub_spec(ts).div_spec(Double::int_spec(86400));
    let cid = fields::shown_spec(r1, "client_id"@, ""@);
    let told = false;
    let told = match inp.state.get("stale"@) {
        Some(s) => s.get(cid) is Some,
        None => told,
    };
    if age_d.lt_spec(inp.cfg.stale_days) || told {
        None
    } else {
        match regime_watch::price_of_spec(
            quotes,
            fields::shown_spec(r1, "exch"@, ""@),
            fields::shown_spec(r1, "pair"@, ""@),
        ) {
            Some(spot) => {
                let p1 = fields::float_or_spec(r1, "price"@, Double::zero_spec());
                let dist = spot.sub_spec(p1).div_spec(spot).mul_spec(Double::int_spec(100));
                let placed = match depth_of_note(fields::text_or_spec(r1, "note"@, ""@)) {
                    Some(v) => v,
                    None => Double::zero_spec(),
                };
                if placed.add_spec(inp.cfg.stale_extra_pp).le_spec(dist) {
                    Some(
                        StaleView {
                            sym,
                            client_id: cid,
                            price: p1,
                            quote: fields::float_or_spec(r1, "quote"@, Double::zero_spec()),
                            age_d,
                            dist,
                            placed,
                            spot,
                        },
                    )
                } else {
                    None
                }
            },
            None => None,
        }
    }
}

fn stale_of(sym: &str, r1: &Json, inp: &Input, quotes: &Vec<Quote>) -> (r: Option<Stale>)
    ensures
        r.deep_view() == stale_of_spec(sym@, r1@, inp.deep_view(), quotes.deep_view()),
{
    let ts = fields::float_or(r1, "ts", inp.now);
    let age_d = inp.now.minus(ts).over(Double::of_int(86400));
    let cid = fields::shown(r1, "client_id", "");
    let mut told = false;
    match inp.state.get("stale") {
        Some(s) => {
            told = s.contains_key(cid.as_str());
        },
        None => {},
    }
    if age_d.lt(inp.cfg.stale_days) || told {
        return None;
    }
    match regime_watch::price_of(
        quotes,
        fields::shown(r1, "exch", "").as_str(),
        fields::shown(r1, "pair", "").as_str(),
    ) {
        Some(spot) => {
            let p1 = fields::float_or(r1, "price", Double::zero());
            let dist = spot.minus(p1).over(spot).times(Double::of_int(100));
            let placed = match depth_from_note(fields::text_or(r1, "note", "").as_str()) {
                Some(v) => v,
                None => Double::zero(),
            };
            if placed.plus(inp.cfg.stale_extra_pp).le(dist) {
                return Some(
                    Stale {
                        sym: text::owned(sym),
                        client_id: cid,
                        price: p1,
                        quote: fields::float_or(r1, "quote", Double::zero()),
                        age_d,
                        dist,
                        placed,
                        spot,
                    },
                );
            }
            None
        },
        None => None,
    }
}

/// Of the first `n` coins.
pub open spec fn add_stale_spec(
    inp: InputView,
    quotes: Seq<QuoteView>,
    xs: Seq<Seq<char>>,
    out: Seq<StaleView>,
    n: nat,
) -> Seq<StaleView>
    decreases n,
{
    if n == 0 {
        out
    } else {
        let out = add_stale_spec(inp, quotes, xs, out, (n - 1) as nat);
        let sym = xs[n - 1];
        match first_rung_spec(coin_rows_spec(inp.deploy_rows, sym)) {
            Some(r1) => match stale_of_spec(sym, r1, inp, quotes) {
                Some(s) => out.push(s),
                None => out,
            },
            None => out,
        }
    }
}

fn add_stale(
    inp: &Input,
    quotes: &Vec<Quote>,
    xs: &Vec<String>,
    out: Vec<Stale>,
) -> (r: Vec<Stale>)
    ensures
        r.deep_view() == add_stale_spec(
            inp.deep_view(),
            quotes.deep_view(),
            xs.deep_view(),
            out.deep_view(),
            xs@.len(),
        ),
{
    let ghost out0 = out.deep_view();
    let mut out = out;
    let mut i: usize = 0;
    while i < xs.len()
        invariant
            i <= xs@.len(),
            out.deep_view() == add_stale_spec(
                inp.deep_view(),
                quotes.deep_view(),
                xs.deep_view(),
                out0,
                i as nat,
            ),
        decreases xs@.len() - i,
    {
        let sym = xs[i].as_str();
        match first_rung(&coin_rows(&inp.deploy_rows, sym)) {
            Some(r1) => {
                match stale_of(sym, &r1, inp, quotes) {
                    Some(s) => {
                        list::push(&mut out, s);
                    },
                    None => {},
                }
            },
            None => {},
        }
        i = i + 1;
    }
    out
}

/// The stale first rungs, by symbol.
pub open spec fn stale_rungs_spec(inp: InputView, quotes: Seq<QuoteView>) -> Seq<StaleView> {
    add_stale_spec(
        inp,
        quotes,
        list::sorted_texts(ladder_coins_spec(inp.deploy_rows)),
        Seq::<StaleView>::empty(),
        list::sorted_texts(ladder_coins_spec(inp.deploy_rows)).len(),
    )
}

fn stale_rungs(inp: &Input, quotes: &Vec<Quote>) -> (r: Vec<Stale>)
    ensures
        r.deep_view() == stale_rungs_spec(inp.deep_view(), quotes.deep_view()),
{
    let mut out: Vec<Stale> = list::none();
    out = add_stale(inp, quotes, &list::sort_texts(&ladder_coins(&inp.deploy_rows)), out);
    out
}

/// What was last reported idle on a venue.
pub open spec fn idle_before_spec(state: Doc, venue: Seq<char>) -> Double {
    match state.get("idle"@) {
        Some(i) => fields::truthy_float_spec(i, venue, Double::zero_spec()),
        None => Double::zero_spec(),
    }
}

fn idle_before(state: &Json, venue: &str) -> (r: Double)
    ensures
        r == idle_before_spec(state@, venue@),
{
    match state.get("idle") {
        Some(i) => fields::truthy_float(i, venue, Double::zero()),
        None => Double::zero(),
    }
}

/// The free stable of a venue as idle, where it is and was not reported before.
pub open spec fn idle_now_spec(state: Doc, min_usd: Double, f: FreeView) -> Option<IdleView> {
    match f.free {
        Some(x) => if min_usd.le_spec(x) {
            let before = idle_before_spec(state, f.venue);
            if !before.eq_spec(Double::zero_spec())
                && x.sub_spec(before).abs_spec().div_spec(before).lt_spec(
                    Double::ratio_spec(25, 100),
                ) {
                None
            } else {
                Some(IdleView { venue: f.venue, free: x, why: f.why })
            }
        } else {
            None
        },
        None => None,
    }
}

fn idle_now(state: &Json, min_usd: Double, f: &Free) -> (r: Option<Idle>)
    ensures
        r.deep_view() == idle_now_spec(state@, min_usd, f.deep_view()),
{
    match f.free {
        Some(x) => {
            if min_usd.le(x) {
                let before = idle_before(state, f.venue.as_str());
                if !before.same(Double::zero())
                    && x.minus(before).abs().over(before).lt(Double::ratio(25, 100)) {
                    return None;
                }
                return Some(
                    Idle {
                        venue: text::owned(f.venue.as_str()),
                        free: x,
                        why: text::owned(f.why.as_str()),
                    },
                );
            }
            None
        },
        None => None,
    }
}

/// Of the first `n` venues.
pub open spec fn add_idle_spec(
    inp: InputView,
    xs: Seq<FreeView>,
    out: Seq<IdleView>,
    n: nat,
) -> Seq<IdleView>
    decreases n,
{
    if n == 0 {
        out
    } else {
        let out = add_idle_spec(inp, xs, out, (n - 1) as nat);
        let f = xs[n - 1];
        match idle_now_spec(inp.state, inp.cfg.idle_min_usd, f) {
            Some(i2) => out.push(i2),
            None => out,
        }
    }
}

fn add_idle(inp: &Input, xs: &Vec<Free>, out: Vec<Idle>) -> (r: Vec<Idle>)
    ensures
        r.deep_view() == add_idle_spec(
            inp.deep_view(),
            xs.deep_view(),
            out.deep_view(),
            xs@.len(),
        ),
{
    let ghost out0 = out.deep_view();
    let mut out = out;
    let mut i: usize = 0;
    while i < xs.len()
        invariant
            i <= xs@.len(),
            out.deep_view() == add_idle_spec(inp.deep_view(), xs.deep_view(), out0, i as nat),
        decreases xs@.len() - i,
    {
        let f = &xs[i];
        match idle_now(&inp.state, inp.cfg.idle_min_usd, f) {
            Some(i2) => {
                list::push(&mut out, i2);
            },
            None => {},
        }
        i = i + 1;
    }
    out
}

/// The idle cash.
pub open spec fn idle_cash_spec(inp: InputView) -> Seq<IdleView> {
    add_idle_spec(
        inp,
        free_stable_spec(inp.balances, inp.reserve),
        Seq::<IdleView>::empty(),
        free_stable_spec(inp.balances, inp.reserve).len(),
    )
}

fn idle_cash(inp: &Input) -> (r: Vec<Idle>)
    ensures
        r.deep_view() == idle_cash_spec(inp.deep_view()),
{
    let mut out: Vec<Idle> = list::none();
    out = add_idle(inp, &free_stable(&inp.balances, &inp.reserve), out);
    out
}

/// Find this run's events. `quotes` are the spot prices of the pairs with resting rungs.
pub open spec fn collect_spec(inp: InputView, quotes: Seq<QuoteView>) -> CollectedView {
    let coins = fields::object_or_spec(inp.reg, "coins"@).entries();
    let running = running_now_spec(coins);
    let (hold, bull_sells) = book_state_spec(inp.book, inp.now, inp.cfg.book_stale_s);
    let events = EventsView {
        run: flips_of_spec(inp, coins, running, hold, quotes),
        stale: stale_rungs_spec(inp, quotes),
        idle: idle_cash_spec(inp),
    };
    let alts_running = (running_alts_spec(inp.cfg.alts, running).len() as usize);
    CollectedView {
        market: fields::shown_spec(inp.reg, "market"@, "?"@),
        running,
        alts_running,
        events,
        bull_sells,
    }
}

/// Find this run's events. `quotes` are the spot prices of the pairs with resting rungs.
pub fn collect(inp: &Input, quotes: &Vec<Quote>) -> (r: Collected)
    ensures
        r.deep_view() == collect_spec(inp.deep_view(), quotes.deep_view()),
{
    let coins = json::entries(&fields::object_or(&inp.reg, "coins"));
    let running = running_now(&coins);
    let (hold, bull_sells) = book_state(list::borrow(&inp.book), inp.now, inp.cfg.book_stale_s);
    let events = Events {
        run: flips_of(inp, &coins, &running, &hold, quotes),
        stale: stale_rungs(inp, quotes),
        idle: idle_cash(inp),
    };
    let alts_running: usize = running_alts(&inp.cfg.alts, &running).len();
    Collected {
        market: fields::shown(&inp.reg, "market", "?"),
        running,
        alts_running,
        events,
        bull_sells,
    }
}

/// The hour and minute of a time.
pub open spec fn clock_spec(now: Double) -> Seq<char> {
    let c = time::civil_spec(now);
    text::digits(c.3 as nat, 2) + ":"@ + text::digits(c.4 as nat, 2)
}

fn clock(now: Double) -> (r: String)
    ensures
        r@ == clock_spec(now),
{
    let (_y, _m, _d, h, mi, _s) = time::civil(now);
    let mut r = text::digits_u64(h as u64, 2);
    r.push_str(":");
    r.push_str(text::digits_u64(mi as u64, 2).as_str());
    r
}

/// The lines of a paragraph, one empty line where there is nothing to say.
pub open spec fn wrapped_spec(s: Seq<char>, width: usize) -> Seq<Seq<char>> {
    let w = textwrap::wrap_spec(s, width as nat);
    if w.len() == 0 {
        Seq::<Seq<char>>::empty().push(""@)
    } else {
        w
    }
}

fn wrapped(s: &str, width: usize) -> (r: Vec<String>)
    ensures
        r.deep_view() == wrapped_spec(s@, width),
{
    let w = textwrap::wrap(s, width);
    if w.len() == 0 {
        let mut none: Vec<String> = list::none();
        list::push(&mut none, text::owned(""));
        return none;
    }
    w
}

/// What governs sells, in words; empty where that is not known.
pub open spec fn sell_rule_spec(bull_sells: Option<bool>) -> Seq<char> {
    match bull_sells {
        Some(on) => if on {
            "Sells are on the bull policy right now (multiples of your cost, plus the trail), and it does not read this gate at all."@
        } else {
            "Sells are on the dip ladder right now, so a running coin's upper rungs trail instead of firing at fixed thresholds. The bot does that by itself."@
        },
        None => ""@,
    }
}

fn sell_rule(bull_sells: Option<bool>) -> (r: String)
    ensures
        r@ == sell_rule_spec(bull_sells),
{
    match bull_sells {
        Some(on) => {
            if on {
                return text::owned(
                    "Sells are on the bull policy right now (multiples of your cost, plus the trail), and it does not read this gate at all.",
                );
            }
            text::owned(
                "Sells are on the dip ladder right now, so a running coin's upper rungs trail instead of firing at fixed thresholds. The bot does that by itself.",
            )
        },
        None => text::owned(""),
    }
}

/// Something that needs a person.
#[derive(Debug)]
pub struct Todo {
    pub tag: String,
    pub head: String,
    pub why: String,
    pub opts: Vec<String>,
}

/// What a [`Todo`] holds.
pub struct TodoView {
    pub tag: Seq<char>,
    pub head: Seq<char>,
    pub why: Seq<char>,
    pub opts: Seq<Seq<char>>,
}

impl DeepView for Todo {
    type V = TodoView;

    open spec fn deep_view(&self) -> TodoView {
        TodoView {
            tag: self.tag@,
            head: self.head@,
            why: self.why@,
            opts: self.opts.deep_view(),
        }
    }
}

/// Several alts run at once.
pub open spec fn alt_season_spec(c: CollectedView, cfg: ZoneConfigView, d: Seq<char>) -> TodoView {
    let names = text::join_of(running_alts_spec(cfg.alts, c.running), ", "@);
    let opts = Seq::<Seq<char>>::empty().push("  keep the alt ladders as they are   do nothing"@).push(
        "  give alts a market leg             "@ + d + " --market <pct> <venue> <SYM>"@,
    );
    TodoView {
        tag: "alt season"@,
        head: "ALT SEASON: "@
            + text::dec(c.alts_running as nat)
            + " of "@
            + text::dec(((cfg.alts.len() as usize)) as nat)
            + " alts running at once ("@
            + names
            + ")."@,
        why: "The case for keeping the alt dip ladders (alts come back to the rungs after a BTC turn) was measured on alts that were NOT running, so it does not cover this. Nothing moves until you say so."@,
        opts,
    }
}

fn alt_season(c: &Collected, cfg: &ZoneConfig, d: &str) -> (r: Todo)
    ensures
        r.deep_view() == alt_season_spec(c.deep_view(), cfg.deep_view(), d@),
{
    let names = list::join(&running_alts(&cfg.alts, &c.running), ", ");
    let mut opts: Vec<String> = list::none();
    list::push(&mut opts, text::owned("  keep the alt ladders as they are   do nothing"));
    let mut line = text::owned("  give alts a market leg             ");
    line.push_str(d);
    line.push_str(" --market <pct> <venue> <SYM>");
    list::push(&mut opts, line);
    let mut line2 = text::owned("ALT SEASON: ");
    line2.push_str(text::dec_u64(c.alts_running as u64).as_str());
    line2.push_str(" of ");
    line2.push_str(text::dec_u64(cfg.alts.len() as u64).as_str());
    line2.push_str(" alts running at once (");
    line2.push_str(names.as_str());
    line2.push_str(").");
    Todo {
        tag: text::owned("alt season"),
        head: line2,
        why: text::owned(
            "The case for keeping the alt dip ladders (alts come back to the rungs after a BTC turn) was measured on alts that were NOT running, so it does not cover this. Nothing moves until you say so.",
        ),
        opts,
    }
}

/// A rung waits in vain.
pub open spec fn stale_todo_spec(s: StaleView, d: Seq<char>) -> TodoView {
    let opts = Seq::<Seq<char>>::empty().push(
        "  re-anchor to today's spot   "@ + d + " --tranche 0 <venue> --only "@ + s.sym,
    ).push(
        "  market leg (BTC only)"@,
    ).push(
        "                              "@ + d + " --market <pct> <venue> BTC"@,
    ).push(
        "  hold                        do nothing, you will not be told about this"@,
    ).push(
        "                              order again"@,
    );
    TodoView {
        tag: "stale rung "@ + s.sym,
        head: "STALE RUNG: "@
            + s.sym
            + " rung 1 at $"@
            + pyfmt::g_spec(s.price, 6)
            + " ($"@
            + pyfmt::fixed_spec(s.quote, 0)
            + ") has sat unfilled "@
            + pyfmt::fixed_spec(s.age_d, 0)
            + "d."@,
        why: "Placed "@
            + pyfmt::g_spec(s.placed, 6)
            + "% below spot, it is now "@
            + pyfmt::fixed_spec(s.dist, 1)
            + "% below spot $"@
            + pyfmt::g_spec(s.spot, 6)
            + ": the wait is not being paid. All three answers are fine, pick one."@,
        opts,
    }
}

fn stale_todo(s: &Stale, d: &str) -> (r: Todo)
    ensures
        r.deep_view() == stale_todo_spec(s.deep_view(), d@),
{
    let mut opts: Vec<String> = list::none();
    let mut line = text::owned("  re-anchor to today's spot   ");
    line.push_str(d);
    line.push_str(" --tranche 0 <venue> --only ");
    line.push_str(s.sym.as_str());
    list::push(&mut opts, line);
    list::push(&mut opts, text::owned("  market leg (BTC only)"));
    let mut line2 = text::owned("                              ");
    line2.push_str(d);
    line2.push_str(" --market <pct> <venue> BTC");
    list::push(&mut opts, line2);
    list::push(
        &mut opts,
        text::owned("  hold                        do nothing, you will not be told about this"),
    );
    list::push(&mut opts, text::owned("                              order again"));
    let mut line3 = text::owned("stale rung ");
    line3.push_str(s.sym.as_str());
    let mut line4 = text::owned("STALE RUNG: ");
    line4.push_str(s.sym.as_str());
    line4.push_str(" rung 1 at $");
    line4.push_str(pyfmt::g(s.price, 6).as_str());
    line4.push_str(" ($");
    line4.push_str(pyfmt::fixed(s.quote, 0).as_str());
    line4.push_str(") has sat unfilled ");
    line4.push_str(pyfmt::fixed(s.age_d, 0).as_str());
    line4.push_str("d.");
    let mut line5 = text::owned("Placed ");
    line5.push_str(pyfmt::g(s.placed, 6).as_str());
    line5.push_str("% below spot, it is now ");
    line5.push_str(pyfmt::fixed(s.dist, 1).as_str());
    line5.push_str("% below spot $");
    line5.push_str(pyfmt::g(s.spot, 6).as_str());
    line5.push_str(": the wait is not being paid. All three answers are fine, pick one.");
    Todo { tag: line3, head: line4, why: line5, opts }
}

/// Cash lies idle.
pub open spec fn idle_todo_spec(i: IdleView, d: Seq<char>) -> TodoView {
    let note = if i.why != ""@ {
        " "@ + i.why
    } else {
        ""@
    };
    let opts = Seq::<Seq<char>>::empty().push("  check the bot log first"@).push(
        "  by hand   "@ + d + " --tranche <usd> "@ + i.venue,
    );
    TodoView {
        tag: "idle cash "@ + i.venue,
        head: "IDLE CASH: $"@
            + pyfmt::comma_spec(i.free, 2)
            + " free on "@
            + i.venue
            + note
            + ", and no tranche is coming for it."@,
        why: d
            + " sweeps idle cash back into zones every 30-min cycle, so this means the sweep is NOT running: halt file, live trading off, sweep marked stuck (pair gone?), or placement errors. This one is a bot problem, not a market call."@,
        opts,
    }
}

fn idle_todo(i: &Idle, d: &str) -> (r: Todo)
    ensures
        r.deep_view() == idle_todo_spec(i.deep_view(), d@),
{
    let note = if !text::same(i.why.as_str(), "") {
        let mut line = text::owned(" ");
        line.push_str(i.why.as_str());
        line
    } else {
        text::owned("")
    };
    let mut opts: Vec<String> = list::none();
    list::push(&mut opts, text::owned("  check the bot log first"));
    let mut line2 = text::owned("  by hand   ");
    line2.push_str(d);
    line2.push_str(" --tranche <usd> ");
    line2.push_str(i.venue.as_str());
    list::push(&mut opts, line2);
    let mut line3 = text::owned("idle cash ");
    line3.push_str(i.venue.as_str());
    let mut line4 = text::owned("IDLE CASH: $");
    line4.push_str(pyfmt::comma(i.free, 2).as_str());
    line4.push_str(" free on ");
    line4.push_str(i.venue.as_str());
    line4.push_str(note.as_str());
    line4.push_str(", and no tranche is coming for it.");
    let mut line5 = text::owned(d);
    line5.push_str(
        " sweeps idle cash back into zones every 30-min cycle, so this means the sweep is NOT running: halt file, live trading off, sweep marked stuck (pair gone?), or placement errors. This one is a bot problem, not a market call.",
    );
    Todo { tag: line3, head: line4, why: line5, opts }
}

/// And the first `n` stale rungs.
pub open spec fn add_stale_todo_spec(
    d: Seq<char>,
    xs: Seq<StaleView>,
    items: Seq<TodoView>,
    n: nat,
) -> Seq<TodoView> {
    items + Seq::new(
        n,
        |i: int| {
            let s = xs[i];
            stale_todo_spec(s, d)
        },
    )
}

fn add_stale_todo(d: &str, xs: &Vec<Stale>, items: Vec<Todo>) -> (r: Vec<Todo>)
    ensures
        r.deep_view() == add_stale_todo_spec(d@, xs.deep_view(), items.deep_view(), xs@.len()),
{
    let ghost items0 = items.deep_view();
    let mut items = items;
    let mut i: usize = 0;
    while i < xs.len()
        invariant
            i <= xs@.len(),
            items.deep_view() == add_stale_todo_spec(d@, xs.deep_view(), items0, i as nat),
        decreases xs@.len() - i,
    {
        let s = &xs[i];
        list::push(&mut items, stale_todo(s, d));
        assert(items.deep_view() =~= add_stale_todo_spec(
            d@,
            xs.deep_view(),
            items0,
            (i + 1) as nat,
        ));
        i = i + 1;
    }
    items
}

/// And the idle cash of the first `n` venues.
pub open spec fn add_idle_todo_spec(
    d: Seq<char>,
    xs: Seq<IdleView>,
    items: Seq<TodoView>,
    n: nat,
) -> Seq<TodoView> {
    items + Seq::new(
        n,
        |i: int| {
            let idle = xs[i];
            idle_todo_spec(idle, d)
        },
    )
}

fn add_idle_todo(d: &str, xs: &Vec<Idle>, items: Vec<Todo>) -> (r: Vec<Todo>)
    ensures
        r.deep_view() == add_idle_todo_spec(d@, xs.deep_view(), items.deep_view(), xs@.len()),
{
    let ghost items0 = items.deep_view();
    let mut items = items;
    let mut i: usize = 0;
    while i < xs.len()
        invariant
            i <= xs@.len(),
            items.deep_view() == add_idle_todo_spec(d@, xs.deep_view(), items0, i as nat),
        decreases xs@.len() - i,
    {
        let idle = &xs[i];
        list::push(&mut items, idle_todo(idle, d));
        assert(items.deep_view() =~= add_idle_todo_spec(
            d@,
            xs.deep_view(),
            items0,
            (i + 1) as nat,
        ));
        i = i + 1;
    }
    items
}

/// What needs a person, the tripwire first.
pub open spec fn todo_items_spec(
    c: CollectedView,
    cfg: ZoneConfigView,
    hints: HintsView,
) -> Seq<TodoView> {
    let d = hints.deploy_cmd;
    let items = Seq::<TodoView>::empty();
    let items = if !(c.events.run.len() == 0) && c.alts_running as i64 >= cfg.alt_run_tripwire {
        items.push(alt_season_spec(c, cfg, d))
    } else {
        items
    };
    let items = add_stale_todo_spec(d, c.events.stale, items, c.events.stale.len());
    add_idle_todo_spec(d, c.events.idle, items, c.events.idle.len())
}

fn todo_items(c: &Collected, cfg: &ZoneConfig, hints: &Hints) -> (r: Vec<Todo>)
    ensures
        r.deep_view() == todo_items_spec(c.deep_view(), cfg.deep_view(), hints.deep_view()),
{
    let d = hints.deploy_cmd.as_str();
    let mut items: Vec<Todo> = list::none();
    if !(c.events.run.len() == 0) && c.alts_running as i64 >= cfg.alt_run_tripwire {
        list::push(&mut items, alt_season(c, cfg, d));
    }
    items = add_stale_todo(d, &c.events.stale, items);
    items = add_idle_todo(d, &c.events.idle, items);
    items
}

/// Its first `n` lines.
pub open spec fn add_head_spec(
    number: usize,
    xs: Seq<Seq<char>>,
    out: Seq<Seq<char>>,
    n: nat,
) -> Seq<Seq<char>>
    decreases n,
{
    if n == 0 {
        out
    } else {
        let out = add_head_spec(number, xs, out, (n - 1) as nat);
        let ln = xs[n - 1];
        let j = (n - 1) as usize;
        if j == 0 {
            out.push("  "@ + text::dec(number as nat) + ". "@ + ln)
        } else {
            out.push("     "@ + ln)
        }
    }
}

fn add_head(number: usize, xs: &Vec<String>, out: Vec<String>) -> (r: Vec<String>)
    ensures
        r.deep_view() == add_head_spec(number, xs.deep_view(), out.deep_view(), xs@.len()),
{
    let ghost out0 = out.deep_view();
    let mut out = out;
    let mut i: usize = 0;
    while i < xs.len()
        invariant
            i <= xs@.len(),
            out.deep_view() == add_head_spec(number, xs.deep_view(), out0, i as nat),
        decreases xs@.len() - i,
    {
        let ln = xs[i].as_str();
        let j: usize = i;
        if j == 0 {
            let mut line = text::owned("  ");
            line.push_str(text::dec_u64(number as u64).as_str());
            line.push_str(". ");
            line.push_str(ln);
            list::push(&mut out, line);
        } else {
            let mut line2 = text::owned("     ");
            line2.push_str(ln);
            list::push(&mut out, line2);
        }
        i = i + 1;
    }
    out
}

/// A numbered paragraph.
pub open spec fn head_lines_spec(ls: Seq<Seq<char>>, number: usize) -> Seq<Seq<char>> {
    add_head_spec(number, ls, Seq::<Seq<char>>::empty(), ls.len())
}

fn head_lines(ls: &Vec<String>, number: usize) -> (r: Vec<String>)
    ensures
        r.deep_view() == head_lines_spec(ls.deep_view(), number),
{
    let mut out: Vec<String> = list::none();
    out = add_head(number, ls, out);
    out
}

/// The first `n` of them.
pub open spec fn add_indented_spec(
    pad: Seq<char>,
    xs: Seq<Seq<char>>,
    out: Seq<Seq<char>>,
    n: nat,
) -> Seq<Seq<char>> {
    out + Seq::new(
        n,
        |i: int| {
            let ln = xs[i];
            pad + ln
        },
    )
}

fn add_indented(pad: &str, xs: &Vec<String>, out: Vec<String>) -> (r: Vec<String>)
    ensures
        r.deep_view() == add_indented_spec(pad@, xs.deep_view(), out.deep_view(), xs@.len()),
{
    let ghost out0 = out.deep_view();
    let mut out = out;
    let mut i: usize = 0;
    while i < xs.len()
        invariant
            i <= xs@.len(),
            out.deep_view() == add_indented_spec(pad@, xs.deep_view(), out0, i as nat),
        decreases xs@.len() - i,
    {
        let ln = xs[i].as_str();
        let mut line = text::owned(pad);
        line.push_str(ln);
        list::push(&mut out, line);
        assert(out.deep_view() =~= add_indented_spec(pad@, xs.deep_view(), out0, (i + 1) as nat));
        i = i + 1;
    }
    out
}

/// Lines behind a margin.
pub open spec fn indented_spec(pad: Seq<char>, ls: Seq<Seq<char>>) -> Seq<Seq<char>> {
    add_indented_spec(pad, ls, Seq::<Seq<char>>::empty(), ls.len())
}

fn indented(pad: &str, ls: &Vec<String>) -> (r: Vec<String>)
    ensures
        r.deep_view() == indented_spec(pad@, ls.deep_view()),
{
    let mut out: Vec<String> = list::none();
    out = add_indented(pad, ls, out);
    out
}

/// The first `n` of them.
pub open spec fn add_todo_spec(xs: Seq<TodoView>, l: Seq<Seq<char>>, n: nat) -> Seq<Seq<char>>
    decreases n,
{
    if n == 0 {
        l
    } else {
        let l = add_todo_spec(xs, l, (n - 1) as nat);
        let t = xs[n - 1];
        let k = (n - 1) as usize;
        let l = l + head_lines_spec(wrapped_spec(t.head, 71), (k + 1) as usize);
        let l = l + indented_spec("     "@, wrapped_spec(t.why, 71));
        let l = l.push(""@);
        let l = l + indented_spec("     "@, t.opts);
        l.push(""@)
    }
}

fn add_todo(xs: &Vec<Todo>, l: Vec<String>) -> (r: Vec<String>)
    ensures
        r.deep_view() == add_todo_spec(xs.deep_view(), l.deep_view(), xs@.len()),
{
    let ghost l0 = l.deep_view();
    let mut l = l;
    let mut i: usize = 0;
    while i < xs.len()
        invariant
            i <= xs@.len(),
            l.deep_view() == add_todo_spec(xs.deep_view(), l0, i as nat),
        decreases xs@.len() - i,
    {
        let t = &xs[i];
        let k: usize = i;
        l = list::joined(l, head_lines(&wrapped(t.head.as_str(), 71), (k + 1)));
        l = list::joined(l, indented("     ", &wrapped(t.why.as_str(), 71)));
        list::push(&mut l, text::owned(""));
        l = list::joined(l, indented("     ", &t.opts));
        list::push(&mut l, text::owned(""));
        i = i + 1;
    }
    l
}

/// What needs a person, numbered.
pub open spec fn todo_lines_spec(todo: Seq<TodoView>) -> Seq<Seq<char>> {
    add_todo_spec(todo, Seq::<Seq<char>>::empty(), todo.len())
}

fn todo_lines(todo: &Vec<Todo>) -> (r: Vec<String>)
    ensures
        r.deep_view() == todo_lines_spec(todo.deep_view()),
{
    let mut l: Vec<String> = list::none();
    l = add_todo(todo, l);
    l
}

/// The first `n` of them.
pub open spec fn add_sign_names_spec(
    xs: Seq<Seq<char>>,
    out: Seq<Seq<char>>,
    n: nat,
) -> Seq<Seq<char>> {
    out + Seq::new(
        n,
        |i: int| {
            let h = xs[i];
            signal_name_spec(h)
        },
    )
}

fn add_sign_names(xs: &Vec<String>, out: Vec<String>) -> (r: Vec<String>)
    ensures
        r.deep_view() == add_sign_names_spec(xs.deep_view(), out.deep_view(), xs@.len()),
{
    let ghost out0 = out.deep_view();
    let mut out = out;
    let mut i: usize = 0;
    while i < xs.len()
        invariant
            i <= xs@.len(),
            out.deep_view() == add_sign_names_spec(xs.deep_view(), out0, i as nat),
        decreases xs@.len() - i,
    {
        let h = xs[i].as_str();
        list::push(&mut out, signal_name(h));
        assert(out.deep_view() =~= add_sign_names_spec(xs.deep_view(), out0, (i + 1) as nat));
        i = i + 1;
    }
    out
}

/// The signs in words.
pub open spec fn sign_names_spec(hits: Seq<Seq<char>>) -> Seq<Seq<char>> {
    add_sign_names_spec(hits, Seq::<Seq<char>>::empty(), hits.len())
}

fn sign_names(hits: &Vec<String>) -> (r: Vec<String>)
    ensures
        r.deep_view() == sign_names_spec(hits.deep_view()),
{
    let mut out: Vec<String> = list::none();
    out = add_sign_names(hits, out);
    out
}

/// The lines of a flip.
pub open spec fn flip_lines_spec(f: FlipView) -> Seq<Seq<char>> {
    let names = if f.hits.len() == 0 {
        "none"@
    } else {
        text::join_of(sign_names_spec(f.hits), ", "@)
    };
    let now = if f.on {
        "now RUNNING"@
    } else {
        "stopped running"@
    };
    let l = Seq::<Seq<char>>::empty().push(
        "    "@
            + pyfmt::ljust_spec(f.sym, 5)
            + " "@
            + now
            + "  ("@
            + text::dec(f.score as nat)
            + "/4: "@
            + names
            + ")"@,
    );
    if f.note != ""@ {
        l + indented_spec("          "@, wrapped_spec(f.note, 64))
    } else {
        l
    }
}

fn flip_lines(f: &Flip) -> (r: Vec<String>)
    ensures
        r.deep_view() == flip_lines_spec(f.deep_view()),
{
    let names = if f.hits.len() == 0 {
        text::owned("none")
    } else {
        list::join(&sign_names(&f.hits), ", ")
    };
    let now = if f.on {
        "now RUNNING"
    } else {
        "stopped running"
    };
    let mut l: Vec<String> = list::none();
    let mut line = text::owned("    ");
    line.push_str(pyfmt::ljust(f.sym.as_str(), 5).as_str());
    line.push_str(" ");
    line.push_str(now);
    line.push_str("  (");
    line.push_str(text::dec_u64(f.score as u64).as_str());
    line.push_str("/4: ");
    line.push_str(names.as_str());
    line.push_str(")");
    list::push(&mut l, line);
    if !text::same(f.note.as_str(), "") {
        l = list::joined(l, indented("          ", &wrapped(f.note.as_str(), 64)));
    }
    l
}

/// Of the first `n` flips.
pub open spec fn add_flip_lines_spec(
    xs: Seq<FlipView>,
    l: Seq<Seq<char>>,
    n: nat,
) -> Seq<Seq<char>>
    decreases n,
{
    if n == 0 {
        l
    } else {
        let l = add_flip_lines_spec(xs, l, (n - 1) as nat);
        let f = xs[n - 1];
        l + flip_lines_spec(f)
    }
}

fn add_flip_lines(xs: &Vec<Flip>, l: Vec<String>) -> (r: Vec<String>)
    ensures
        r.deep_view() == add_flip_lines_spec(xs.deep_view(), l.deep_view(), xs@.len()),
{
    let ghost l0 = l.deep_view();
    let mut l = l;
    let mut i: usize = 0;
    while i < xs.len()
        invariant
            i <= xs@.len(),
            l.deep_view() == add_flip_lines_spec(xs.deep_view(), l0, i as nat),
        decreases xs@.len() - i,
    {
        let f = &xs[i];
        l = list::joined(l, flip_lines(f));
        i = i + 1;
    }
    l
}

/// The flips, which need nobody.
pub open spec fn run_lines_spec(
    c: CollectedView,
    cfg: ZoneConfigView,
    alone: bool,
) -> Seq<Seq<char>> {
    let l = Seq::<Seq<char>>::empty();
    let l = if alone {
        l.push("FOR THE RECORD, NO ACTION"@)
    } else {
        l.push("ALSO, NO ACTION"@)
    };
    let l = l.push("  RUN gate flips (a strength reading, not an order):"@);
    let l = add_flip_lines_spec(c.events.run, l, c.events.run.len());
    let rule = sell_rule_spec(c.bull_sells);
    let l = l.push(""@);
    let l = l.push("  A flip buys nothing, sells nothing and moves no rung."@);
    let l = if rule != ""@ {
        l + indented_spec("  "@, wrapped_spec(rule, 74))
    } else {
        l
    };
    let l = l.push(
        "  You get this mail because "@
            + text::dec_int(cfg.alt_run_tripwire as int)
            + " alts running at once IS your call. Right now: "@
            + text::dec(c.alts_running as nat)
            + "/"@
            + text::dec(((cfg.alts.len() as usize)) as nat)
            + "."@,
    );
    l.push(""@)
}

fn run_lines(c: &Collected, cfg: &ZoneConfig, alone: bool) -> (r: Vec<String>)
    ensures
        r.deep_view() == run_lines_spec(c.deep_view(), cfg.deep_view(), alone),
{
    let mut l: Vec<String> = list::none();
    if alone {
        list::push(&mut l, text::owned("FOR THE RECORD, NO ACTION"));
    } else {
        list::push(&mut l, text::owned("ALSO, NO ACTION"));
    }
    list::push(&mut l, text::owned("  RUN gate flips (a strength reading, not an order):"));
    l = add_flip_lines(&c.events.run, l);
    let rule = sell_rule(c.bull_sells);
    list::push(&mut l, text::owned(""));
    list::push(&mut l, text::owned("  A flip buys nothing, sells nothing and moves no rung."));
    if !text::same(rule.as_str(), "") {
        l = list::joined(l, indented("  ", &wrapped(rule.as_str(), 74)));
    }
    let mut line = text::owned("  You get this mail because ");
    line.push_str(text::dec_i64(cfg.alt_run_tripwire).as_str());
    line.push_str(" alts running at once IS your call. Right now: ");
    line.push_str(text::dec_u64(c.alts_running as u64).as_str());
    line.push_str("/");
    line.push_str(text::dec_u64(cfg.alts.len() as u64).as_str());
    line.push_str(".");
    list::push(&mut l, line);
    list::push(&mut l, text::owned(""));
    l
}

/// A flip in two words.
pub open spec fn flip_tag_spec(f: FlipView) -> Seq<char> {
    let how = if f.on {
        "running"@
    } else {
        "stopped"@
    };
    f.sym + " "@ + how
}

fn flip_tag(f: &Flip) -> (r: String)
    ensures
        r@ == flip_tag_spec(f.deep_view()),
{
    let how = if f.on {
        "running"
    } else {
        "stopped"
    };
    let mut line = text::owned(f.sym.as_str());
    line.push_str(" ");
    line.push_str(how);
    line
}

/// The first `n` of them.
pub open spec fn add_flip_tags_spec(
    xs: Seq<FlipView>,
    out: Seq<Seq<char>>,
    n: nat,
) -> Seq<Seq<char>> {
    out + Seq::new(
        n,
        |i: int| {
            let f = xs[i];
            flip_tag_spec(f)
        },
    )
}

fn add_flip_tags(xs: &Vec<Flip>, out: Vec<String>) -> (r: Vec<String>)
    ensures
        r.deep_view() == add_flip_tags_spec(xs.deep_view(), out.deep_view(), xs@.len()),
{
    let ghost out0 = out.deep_view();
    let mut out = out;
    let mut i: usize = 0;
    while i < xs.len()
        invariant
            i <= xs@.len(),
            out.deep_view() == add_flip_tags_spec(xs.deep_view(), out0, i as nat),
        decreases xs@.len() - i,
    {
        let f = &xs[i];
        list::push(&mut out, flip_tag(f));
        assert(out.deep_view() =~= add_flip_tags_spec(xs.deep_view(), out0, (i + 1) as nat));
        i = i + 1;
    }
    out
}

/// The flips in two words each.
pub open spec fn flip_tags_spec(run: Seq<FlipView>) -> Seq<Seq<char>> {
    add_flip_tags_spec(run, Seq::<Seq<char>>::empty(), run.len())
}

fn flip_tags(run: &Vec<Flip>) -> (r: Vec<String>)
    ensures
        r.deep_view() == flip_tags_spec(run.deep_view()),
{
    let mut out: Vec<String> = list::none();
    out = add_flip_tags(run, out);
    out
}

/// The first `n` of them.
pub open spec fn add_todo_tags_spec(
    xs: Seq<TodoView>,
    out: Seq<Seq<char>>,
    n: nat,
) -> Seq<Seq<char>> {
    out + Seq::new(
        n,
        |i: int| {
            let t = xs[i];
            t.tag
        },
    )
}

fn add_todo_tags(xs: &Vec<Todo>, out: Vec<String>) -> (r: Vec<String>)
    ensures
        r.deep_view() == add_todo_tags_spec(xs.deep_view(), out.deep_view(), xs@.len()),
{
    let ghost out0 = out.deep_view();
    let mut out = out;
    let mut i: usize = 0;
    while i < xs.len()
        invariant
            i <= xs@.len(),
            out.deep_view() == add_todo_tags_spec(xs.deep_view(), out0, i as nat),
        decreases xs@.len() - i,
    {
        let t = &xs[i];
        list::push(&mut out, text::owned(t.tag.as_str()));
        assert(out.deep_view() =~= add_todo_tags_spec(xs.deep_view(), out0, (i + 1) as nat));
        i = i + 1;
    }
    out
}

/// What needs a person, by tag.
pub open spec fn todo_tags_spec(todo: Seq<TodoView>) -> Seq<Seq<char>> {
    add_todo_tags_spec(todo, Seq::<Seq<char>>::empty(), todo.len())
}

fn todo_tags(todo: &Vec<Todo>) -> (r: Vec<String>)
    ensures
        r.deep_view() == todo_tags_spec(todo.deep_view()),
{
    let mut out: Vec<String> = list::none();
    out = add_todo_tags(todo, out);
    out
}

/// What the subject of a mail that needs nobody names.
pub open spec fn quiet_tags_spec(run: Seq<FlipView>, force: bool) -> Seq<char> {
    if run.len() > 2 {
        text::dec(((run.len() as usize)) as nat) + " run flips"@
    } else {
        let tags = text::join_of(flip_tags_spec(run), ", "@);
        if tags == ""@ && force {
            "quiet"@
        } else {
            tags
        }
    }
}

fn quiet_tags(run: &Vec<Flip>, force: bool) -> (r: String)
    ensures
        r@ == quiet_tags_spec(run.deep_view(), force),
{
    if run.len() > 2 {
        let mut line = text::dec_u64(run.len() as u64);
        line.push_str(" run flips");
        return line;
    }
    let tags = list::join(&flip_tags(run), ", ");
    if text::same(tags.as_str(), "") && force {
        return text::owned("quiet");
    }
    tags
}

/// The subject: how many items need a person, and what they are.
pub open spec fn subject_of_spec(
    todo: Seq<TodoView>,
    run: Seq<FlipView>,
    force: bool,
) -> Seq<char> {
    if !(todo.len() == 0) {
        let tags = text::join_of(todo_tags_spec(todo), ", "@);
        let head = if todo.len() == 1 {
            "1 needs you"@
        } else {
            text::dec(((todo.len() as usize)) as nat) + " need you"@
        };
        "ZONE WATCH: "@ + head + " ("@ + tags + ")"@
    } else {
        let tags = quiet_tags_spec(run, force);
        if tags == ""@ {
            "ZONE WATCH: nothing to do"@
        } else {
            "ZONE WATCH: nothing to do ("@ + tags + ")"@
        }
    }
}

fn subject_of(todo: &Vec<Todo>, run: &Vec<Flip>, force: bool) -> (r: String)
    ensures
        r@ == subject_of_spec(todo.deep_view(), run.deep_view(), force),
{
    if !(todo.len() == 0) {
        let mut tags = list::join(&todo_tags(todo), ", ");
        let head = if todo.len() == 1 {
            text::owned("1 needs you")
        } else {
            let mut line = text::dec_u64(todo.len() as u64);
            line.push_str(" need you");
            line
        };
        let mut line2 = text::owned("ZONE WATCH: ");
        line2.push_str(head.as_str());
        line2.push_str(" (");
        line2.push_str(tags.as_str());
        line2.push_str(")");
        return line2;
    }
    let mut tags = quiet_tags(run, force);
    if text::same(tags.as_str(), "") {
        return text::owned("ZONE WATCH: nothing to do");
    }
    let mut line3 = text::owned("ZONE WATCH: nothing to do (");
    line3.push_str(tags.as_str());
    line3.push_str(")");
    line3
}

/// How many items need a person.
pub open spec fn verdict_of_spec(count: usize) -> Seq<char> {
    if count == 0 {
        "NOTHING TO DO"@
    } else if count == 1 {
        "1 THING NEEDS YOU"@
    } else {
        text::dec(count as nat) + " THINGS NEED YOU"@
    }
}

fn verdict_of(count: usize) -> (r: String)
    ensures
        r@ == verdict_of_spec(count),
{
    if count == 0 {
        return text::owned("NOTHING TO DO");
    }
    if count == 1 {
        return text::owned("1 THING NEEDS YOU");
    }
    let mut line = text::dec_u64(count as u64);
    line.push_str(" THINGS NEED YOU");
    line
}

/// Subject and text.
pub open spec fn build_message_spec(
    c: CollectedView,
    force: bool,
    now: Double,
    cfg: ZoneConfigView,
    hints: HintsView,
) -> (Seq<char>, Seq<char>) {
    let todo = todo_items_spec(c, cfg, hints);
    let l = Seq::<Seq<char>>::empty().push(
        "ZONE WATCH: "@ + verdict_of_spec((todo.len() as usize)),
    ).push(
        "market "@
            + text::upper_case(c.market)
            + ", "@
            + text::dec(c.alts_running as nat)
            + "/"@
            + text::dec(((cfg.alts.len() as usize)) as nat)
            + " alts running (alt-season tripwire at "@
            + text::dec_int(cfg.alt_run_tripwire as int)
            + ")"@,
    ).push(
        ""@,
    );
    let l = if !(todo.len() == 0) {
        let l = l.push("YOUR CALL"@);
        l + todo_lines_spec(todo)
    } else {
        l
    };
    let l = if !(c.events.run.len() == 0) {
        l + run_lines_spec(c, cfg, todo.len() == 0)
    } else {
        l
    };
    let l = if force && !some_event_spec(c.events) {
        let l = l.push("No flips, no stale rungs, no idle cash."@);
        l.push(""@)
    } else {
        l
    };
    let l = l.push("Read-only: nothing was placed, cancelled or repriced."@);
    (
        subject_of_spec(todo, c.events.run, force),
        text::join_of(l.push("Checked: "@ + time::utc_minute_spec(now)), "\n"@),
    )
}

/// Subject and text.
pub fn build_message(
    c: &Collected,
    force: bool,
    now: Double,
    cfg: &ZoneConfig,
    hints: &Hints,
) -> (r: (String, String))
    ensures
        r.deep_view() == build_message_spec(
            c.deep_view(),
            force,
            now,
            cfg.deep_view(),
            hints.deep_view(),
        ),
{
    let todo = todo_items(c, cfg, hints);
    let mut l: Vec<String> = list::none();
    let mut line = text::owned("ZONE WATCH: ");
    line.push_str(verdict_of(todo.len()).as_str());
    list::push(&mut l, line);
    let mut line2 = text::owned("market ");
    line2.push_str(text::uppercase(c.market.as_str()).as_str());
    line2.push_str(", ");
    line2.push_str(text::dec_u64(c.alts_running as u64).as_str());
    line2.push_str("/");
    line2.push_str(text::dec_u64(cfg.alts.len() as u64).as_str());
    line2.push_str(" alts running (alt-season tripwire at ");
    line2.push_str(text::dec_i64(cfg.alt_run_tripwire).as_str());
    line2.push_str(")");
    list::push(&mut l, line2);
    list::push(&mut l, text::owned(""));
    if !(todo.len() == 0) {
        list::push(&mut l, text::owned("YOUR CALL"));
        l = list::joined(l, todo_lines(&todo));
    }
    if !(c.events.run.len() == 0) {
        l = list::joined(l, run_lines(c, cfg, todo.len() == 0));
    }
    if force && !some_event(&c.events) {
        list::push(&mut l, text::owned("No flips, no stale rungs, no idle cash."));
        list::push(&mut l, text::owned(""));
    }
    list::push(&mut l, text::owned("Read-only: nothing was placed, cancelled or repriced."));
    let mut line3 = text::owned("Checked: ");
    line3.push_str(time::utc_minute(now).as_str());
    list::push(&mut l, line3);
    (subject_of(&todo, &c.events.run, force), list::join(&l, "\n"))
}

/// What to print and write after collecting.
#[derive(Debug)]
pub enum Plan {
    /// Nothing happened: print the line, and (unless dry) write the new baseline.
    Quiet(String, Json),
    /// A subject and a text to send.
    Send(String, String),
}

/// What a [`Plan`] says.
#[allow(inconsistent_fields)]
pub enum PlanView {
    Quiet(Seq<char>, Doc),
    Send(Seq<char>, Seq<char>),
}

impl DeepView for Plan {
    type V = PlanView;

    open spec fn deep_view(&self) -> PlanView {
        match self {
            Plan::Quiet(a, b) => PlanView::Quiet(a@, b@),
            Plan::Send(a, b) => PlanView::Send(a@, b@),
        }
    }
}

/// Decide the run's outcome. `state` is the loaded state (or [`empty_state`]).
pub open spec fn plan_spec(
    state: Doc,
    c: CollectedView,
    force: bool,
    now: Double,
    cfg: ZoneConfigView,
    hints: HintsView,
) -> PlanView {
    if !some_event_spec(c.events) && !force {
        let first = true;
        let first = match state.get("run"@) {
            Some(r) => r is Null,
            None => first,
        };
        let note = if first {
            " (baseline recorded)"@
        } else {
            ""@
        };
        PlanView::Quiet("zone-watch: quiet"@ + note, state.set("run"@, c.running))
    } else {
        let (subject, body) = build_message_spec(c, force, now, cfg, hints);
        PlanView::Send(subject, body)
    }
}

/// Decide the run's outcome. `state` is the loaded state (or [`empty_state`]).
pub fn plan(
    state: &Json,
    c: &Collected,
    force: bool,
    now: Double,
    cfg: &ZoneConfig,
    hints: &Hints,
) -> (r: Plan)
    ensures
        r.deep_view() == plan_spec(
            state@,
            c.deep_view(),
            force,
            now,
            cfg.deep_view(),
            hints.deep_view(),
        ),
{
    if !some_event(&c.events) && !force {
        let mut first = true;
        match state.get("run") {
            Some(r) => {
                first = r.is_null();
            },
            None => {},
        }
        let note = if first {
            " (baseline recorded)"
        } else {
            ""
        };
        let mut line = text::owned("zone-watch: quiet");
        line.push_str(note);
        return Plan::Quiet(line, json::with_set(state.copy(), "run", c.running.copy()));
    }
    let (subject, body) = build_message(c, force, now, cfg, hints);
    Plan::Send(subject, body)
}

/// And the first `n` of these.
pub open spec fn mark_stale_spec(now: Double, xs: Seq<StaleView>, seen: Doc, n: nat) -> Doc
    decreases n,
{
    if n == 0 {
        seen
    } else {
        let seen = mark_stale_spec(now, xs, seen, (n - 1) as nat);
        let s = xs[n - 1];
        seen.set(s.client_id, Doc::Float(now))
    }
}

fn mark_stale(now: Double, xs: &Vec<Stale>, seen: Json) -> (r: Json)
    ensures
        r@ == mark_stale_spec(now, xs.deep_view(), seen@, xs@.len()),
{
    let ghost seen0 = seen@;
    let mut seen = seen;
    let mut i: usize = 0;
    while i < xs.len()
        invariant
            i <= xs@.len(),
            seen@ == mark_stale_spec(now, xs.deep_view(), seen0, i as nat),
        decreases xs@.len() - i,
    {
        let s = &xs[i];
        seen.set(s.client_id.as_str(), Json::Float(now));
        i = i + 1;
    }
    seen
}

/// The orders told stale, and these.
pub open spec fn told_stale_spec(seen: Doc, stale: Seq<StaleView>, now: Double) -> Doc {
    mark_stale_spec(now, stale, seen, stale.len())
}

fn told_stale(seen: Json, stale: &Vec<Stale>, now: Double) -> (r: Json)
    ensures
        r@ == told_stale_spec(seen@, stale.deep_view(), now),
{
    let mut seen = seen;
    seen = mark_stale(now, stale, seen);
    seen
}

/// And the first `n` of these.
pub open spec fn mark_idle_spec(xs: Seq<IdleView>, seen: Doc, n: nat) -> Doc
    decreases n,
{
    if n == 0 {
        seen
    } else {
        let seen = mark_idle_spec(xs, seen, (n - 1) as nat);
        let f = xs[n - 1];
        seen.set(f.venue, Doc::Float(f.free))
    }
}

fn mark_idle(xs: &Vec<Idle>, seen: Json) -> (r: Json)
    ensures
        r@ == mark_idle_spec(xs.deep_view(), seen@, xs@.len()),
{
    let ghost seen0 = seen@;
    let mut seen = seen;
    let mut i: usize = 0;
    while i < xs.len()
        invariant
            i <= xs@.len(),
            seen@ == mark_idle_spec(xs.deep_view(), seen0, i as nat),
        decreases xs@.len() - i,
    {
        let f = &xs[i];
        seen.set(f.venue.as_str(), Json::Float(f.free));
        i = i + 1;
    }
    seen
}

/// The idle amounts told, and these.
pub open spec fn told_idle_spec(seen: Doc, idle: Seq<IdleView>) -> Doc {
    mark_idle_spec(idle, seen, idle.len())
}

fn told_idle(seen: Json, idle: &Vec<Idle>) -> (r: Json)
    ensures
        r@ == told_idle_spec(seen@, idle.deep_view()),
{
    let mut seen = seen;
    seen = mark_idle(idle, seen);
    seen
}

/// The state after a delivered mail: the new RUN baseline, each stale order marked (never
/// mailed again) and each idle amount remembered.
pub open spec fn after_delivery_spec(state: Doc, c: CollectedView, now: Double) -> Doc {
    let out = state.set("run"@, c.running);
    let out = if !(c.events.stale.len() == 0) {
        out.set(
            "stale"@,
            told_stale_spec(fields::object_or_spec(out, "stale"@), c.events.stale, now),
        )
    } else {
        out
    };
    if !(c.events.idle.len() == 0) {
        out.set("idle"@, told_idle_spec(fields::object_or_spec(out, "idle"@), c.events.idle))
    } else {
        out
    }
}

/// The state after a delivered mail: the new RUN baseline, each stale order marked (never
/// mailed again) and each idle amount remembered.
pub fn after_delivery(state: &Json, c: &Collected, now: Double) -> (r: Json)
    ensures
        r@ == after_delivery_spec(state@, c.deep_view(), now),
{
    let mut out = json::with_set(state.copy(), "run", c.running.copy());
    if !(c.events.stale.len() == 0) {
        out = json::with_set(
            out.copy(),
            "stale",
            told_stale(fields::object_or(&out, "stale"), &c.events.stale, now),
        );
    }
    if !(c.events.idle.len() == 0) {
        out = json::with_set(
            out.copy(),
            "idle",
            told_idle(fields::object_or(&out, "idle"), &c.events.idle),
        );
    }
    out
}

/// A coin that runs.
pub open spec fn fixture_flip_spec(note: Seq<char>) -> FlipView {
    let hits = Seq::<Seq<char>>::empty().push("above_sma30"@).push("fresh_30d_high"@).push(
        "higher_lows"@,
    );
    FlipView { sym: "EEE"@, on: true, score: 3, hits, note }
}

fn fixture_flip(note: &str) -> (r: Flip)
    ensures
        r.deep_view() == fixture_flip_spec(note@),
{
    let mut hits: Vec<String> = list::none();
    list::push(&mut hits, text::owned("above_sma30"));
    list::push(&mut hits, text::owned("fresh_30d_high"));
    list::push(&mut hits, text::owned("higher_lows"));
    Flip { sym: text::owned("EEE"), on: true, score: 3, hits, note: text::owned(note) }
}

/// A run of the preview.
pub open spec fn fixture_spec(
    running: Doc,
    alts_running: usize,
    run: Seq<FlipView>,
    stale: Seq<StaleView>,
    idle: Seq<IdleView>,
) -> CollectedView {
    CollectedView {
        market: "bull"@,
        running,
        alts_running,
        events: EventsView { run, stale, idle },
        bull_sells: Some(true),
    }
}

fn fixture(
    running: &Json,
    alts_running: usize,
    run: Vec<Flip>,
    stale: Vec<Stale>,
    idle: Vec<Idle>,
) -> (r: Collected)
    ensures
        r.deep_view() == fixture_spec(
            running@,
            alts_running,
            run.deep_view(),
            stale.deep_view(),
            idle.deep_view(),
        ),
{
    Collected {
        market: text::owned("bull"),
        running: running.copy(),
        alts_running,
        events: Events { run, stale, idle },
        bull_sells: Some(true),
    }
}

/// No flip.
pub open spec fn no_flips_spec() -> Seq<FlipView> {
    Seq::<FlipView>::empty()
}

fn no_flips() -> (r: Vec<Flip>)
    ensures
        r.deep_view() == no_flips_spec(),
{
    list::none::<Flip>()
}

/// No stale rung.
pub open spec fn no_stale_spec() -> Seq<StaleView> {
    Seq::<StaleView>::empty()
}

fn no_stale() -> (r: Vec<Stale>)
    ensures
        r.deep_view() == no_stale_spec(),
{
    list::none::<Stale>()
}

/// No idle cash.
pub open spec fn no_idle_spec() -> Seq<IdleView> {
    Seq::<IdleView>::empty()
}

fn no_idle() -> (r: Vec<Idle>)
    ensures
        r.deep_view() == no_idle_spec(),
{
    list::none::<Idle>()
}

/// A single flip.
pub open spec fn one_flip_spec(note: Seq<char>) -> Seq<FlipView> {
    Seq::<FlipView>::empty().push(fixture_flip_spec(note))
}

fn one_flip(note: &str) -> (r: Vec<Flip>)
    ensures
        r.deep_view() == one_flip_spec(note@),
{
    let mut out: Vec<Flip> = list::none();
    list::push(&mut out, fixture_flip(note));
    out
}

/// A single stale rung.
pub open spec fn one_stale_spec() -> Seq<StaleView> {
    Seq::<StaleView>::empty().push(
        StaleView {
            sym: "FFF"@,
            client_id: "x"@,
            price: Double::ratio_spec(147, 100000),
            quote: Double::int_spec(251),
            age_d: Double::ratio_spec(214, 10),
            dist: Double::ratio_spec(113, 10),
            placed: Double::int_spec(2),
            spot: Double::ratio_spec(1658, 1000000),
        },
    )
}

fn one_stale() -> (r: Vec<Stale>)
    ensures
        r.deep_view() == one_stale_spec(),
{
    let mut out: Vec<Stale> = list::none();
    list::push(
        &mut out,
        Stale {
            sym: text::owned("FFF"),
            client_id: text::owned("x"),
            price: Double::ratio(147, 100000),
            quote: Double::of_int(251),
            age_d: Double::ratio(214, 10),
            dist: Double::ratio(113, 10),
            placed: Double::of_int(2),
            spot: Double::ratio(1658, 1000000),
        },
    );
    out
}

/// A single venue with idle cash.
pub open spec fn one_idle_spec() -> Seq<IdleView> {
    Seq::<IdleView>::empty().push(
        IdleView { venue: "gate"@, free: Double::ratio_spec(8124, 10), why: ""@ },
    )
}

fn one_idle() -> (r: Vec<Idle>)
    ensures
        r.deep_view() == one_idle_spec(),
{
    let mut out: Vec<Idle> = list::none();
    list::push(
        &mut out,
        Idle { venue: text::owned("gate"), free: Double::ratio(8124, 10), why: text::owned("") },
    );
    out
}

/// A run flip only.
pub open spec fn flip_case_spec() -> CollectedView {
    let rows = Seq::<Doc>::empty().push(
        Doc::obj().with("price"@, Doc::Float(Double::ratio_spec(236, 10000))),
    ).push(
        Doc::obj().with("price"@, Doc::Float(Double::ratio_spec(2163, 100000))),
    ).push(
        Doc::obj().with("price"@, Doc::Float(Double::ratio_spec(2037, 100000))),
    );
    let note = flip_note_spec(
        "EEE"@,
        rows,
        Doc::obj().with("EEE"@, Doc::Float(Double::zero_spec())),
        Some(Double::ratio_spec(26, 1000)),
    );
    let running = Doc::obj().with("AAA"@, Doc::Bool(false)).with("FFF"@, Doc::Bool(true)).with(
        "EEE"@,
        Doc::Bool(true),
    );
    fixture_spec(running, 2, one_flip_spec(note), no_stale_spec(), no_idle_spec())
}

fn flip_case() -> (r: Collected)
    ensures
        r.deep_view() == flip_case_spec(),
{
    let mut rows: Vec<Json> = list::none();
    list::push(&mut rows, Json::obj().with("price", Json::Float(Double::ratio(236, 10000))));
    list::push(&mut rows, Json::obj().with("price", Json::Float(Double::ratio(2163, 100000))));
    list::push(&mut rows, Json::obj().with("price", Json::Float(Double::ratio(2037, 100000))));
    let note = flip_note(
        "EEE",
        &rows,
        &Json::obj().with("EEE", Json::Float(Double::zero())),
        Some(Double::ratio(26, 1000)),
    );
    let running = Json::obj().with("AAA", Json::Bool(false)).with("FFF", Json::Bool(true)).with(
        "EEE",
        Json::Bool(true),
    );
    fixture(&running, 2, one_flip(note.as_str()), no_stale(), no_idle())
}

/// A run flip that trips alt season.
pub open spec fn season_case_spec() -> CollectedView {
    fixture_spec(
        Doc::obj().with("AAA"@, Doc::Bool(true)).with("FFF"@, Doc::Bool(true)).with(
            "EEE"@,
            Doc::Bool(true),
        ),
        3,
        one_flip_spec("You hold no EEE."@),
        no_stale_spec(),
        no_idle_spec(),
    )
}

fn season_case() -> (r: Collected)
    ensures
        r.deep_view() == season_case_spec(),
{
    fixture(
        &Json::obj().with("AAA", Json::Bool(true)).with("FFF", Json::Bool(true)).with(
            "EEE",
            Json::Bool(true),
        ),
        3,
        one_flip("You hold no EEE."),
        no_stale(),
        no_idle(),
    )
}

/// A stale rung and idle cash.
pub open spec fn waiting_case_spec() -> CollectedView {
    fixture_spec(
        Doc::obj().with("FFF"@, Doc::Bool(true)),
        1,
        no_flips_spec(),
        one_stale_spec(),
        one_idle_spec(),
    )
}

fn waiting_case() -> (r: Collected)
    ensures
        r.deep_view() == waiting_case_spec(),
{
    fixture(&Json::obj().with("FFF", Json::Bool(true)), 1, no_flips(), one_stale(), one_idle())
}

/// Nothing at all.
pub open spec fn nothing_case_spec() -> CollectedView {
    fixture_spec(Doc::obj(), 0, no_flips_spec(), no_stale_spec(), no_idle_spec())
}

fn nothing_case() -> (r: Collected)
    ensures
        r.deep_view() == nothing_case_spec(),
{
    fixture(&Json::obj(), 0, no_flips(), no_stale(), no_idle())
}

/// One shape of the mail.
pub open spec fn preview_case_spec(
    title: Seq<char>,
    c: CollectedView,
    now: Double,
    cfg: ZoneConfigView,
    hints: HintsView,
) -> Seq<char> {
    let (subject, body) = build_message_spec(c, true, now, cfg, hints);
    let bar = text::times('=', 78);
    "\n"@ + bar + "\n"@ + title + "\n"@ + bar + "\nSubject: "@ + subject + "\n\n"@ + body + "\n"@
}

fn preview_case(
    title: &str,
    c: &Collected,
    now: Double,
    cfg: &ZoneConfig,
    hints: &Hints,
) -> (r: String)
    ensures
        r@ == preview_case_spec(title@, c.deep_view(), now, cfg.deep_view(), hints.deep_view()),
{
    let (subject, body) = build_message(c, true, now, cfg, hints);
    let bar = text::repeated('=', 78);
    let mut line = text::owned("\n");
    line.push_str(bar.as_str());
    line.push_str("\n");
    line.push_str(title);
    line.push_str("\n");
    line.push_str(bar.as_str());
    line.push_str("\nSubject: ");
    line.push_str(subject.as_str());
    line.push_str("\n\n");
    line.push_str(body.as_str());
    line.push_str("\n");
    line
}

/// Render every shape of the mail from fixtures, touching nothing: read what you will be sent
/// before you are sent it live. The fixtures have six placeholder alts, so every shape
/// renders.
pub open spec fn preview_spec(now: Double, cfg: ZoneConfigView, hints: HintsView) -> Seq<char> {
    let alts = Seq::<Seq<char>>::empty().push("AAA"@).push("BBB"@).push("CCC"@).push("DDD"@).push(
        "EEE"@,
    ).push(
        "FFF"@,
    );
    let c = ZoneConfigView {
        stale_days: cfg.stale_days,
        stale_extra_pp: cfg.stale_extra_pp,
        idle_min_usd: cfg.idle_min_usd,
        alt_run_tripwire: cfg.alt_run_tripwire,
        alts,
        book_stale_s: cfg.book_stale_s,
    };
    let a = preview_case_spec("A: run flip only"@, flip_case_spec(), now, c, hints);
    let b = preview_case_spec(
        "B: run flip that trips alt season"@,
        season_case_spec(),
        now,
        c,
        hints,
    );
    let w = preview_case_spec("C: stale rung + idle cash"@, waiting_case_spec(), now, c, hints);
    let d = preview_case_spec(
        "D: --force with nothing at all"@,
        nothing_case_spec(),
        now,
        c,
        hints,
    );
    a + b + w + d + "\n(fixtures only, rendered "@ + clock_spec(now) + ")\n"@
}

/// Render every shape of the mail from fixtures, touching nothing: read what you will be sent
/// before you are sent it live. The fixtures have six placeholder alts, so every shape
/// renders.
pub fn preview(now: Double, cfg: &ZoneConfig, hints: &Hints) -> (r: String)
    ensures
        r@ == preview_spec(now, cfg.deep_view(), hints.deep_view()),
{
    let mut alts: Vec<String> = list::none();
    list::push(&mut alts, text::owned("AAA"));
    list::push(&mut alts, text::owned("BBB"));
    list::push(&mut alts, text::owned("CCC"));
    list::push(&mut alts, text::owned("DDD"));
    list::push(&mut alts, text::owned("EEE"));
    list::push(&mut alts, text::owned("FFF"));
    let c = ZoneConfig {
        stale_days: cfg.stale_days,
        stale_extra_pp: cfg.stale_extra_pp,
        idle_min_usd: cfg.idle_min_usd,
        alt_run_tripwire: cfg.alt_run_tripwire,
        alts,
        book_stale_s: cfg.book_stale_s,
    };
    let a = preview_case("A: run flip only", &flip_case(), now, &c, hints);
    let b = preview_case("B: run flip that trips alt season", &season_case(), now, &c, hints);
    let w = preview_case("C: stale rung + idle cash", &waiting_case(), now, &c, hints);
    let d = preview_case("D: --force with nothing at all", &nothing_case(), now, &c, hints);
    let mut line = text::owned(a.as_str());
    line.push_str(b.as_str());
    line.push_str(w.as_str());
    line.push_str(d.as_str());
    line.push_str("\n(fixtures only, rendered ");
    line.push_str(clock(now).as_str());
    line.push_str(")\n");
    line
}

proof fn lemma_marked_stale(seen: Doc, stale: Seq<StaleView>, now: Double, n: nat)
    requires
        seen is Obj,
        n <= stale.len(),
    ensures
        mark_stale_spec(now, stale, seen, n) is Obj,
        forall|k: int|
            0 <= k < n ==> mark_stale_spec(now, stale, seen, n).get(
                (#[trigger] stale[k]).client_id,
            ) is Some,
    decreases n,
{
    if n > 0 {
        lemma_marked_stale(seen, stale, now, (n - 1) as nat);
        let before = mark_stale_spec(now, stale, seen, (n - 1) as nat);
        assert forall|k: int| 0 <= k < n implies mark_stale_spec(now, stale, seen, n).get(
            (#[trigger] stale[k]).client_id,
        ) is Some by {
            json::law_set_then_get(
                before,
                stale[n - 1].client_id,
                Doc::Float(now),
                stale[k].client_id,
            );
        }
    }
}

/// A stale order is mailed once: after a delivered mail that named it, it is not stale again,
/// whatever the prices.
pub proof fn law_a_stale_order_is_mailed_once(
    c: CollectedView,
    k: int,
    at: Double,
    sym: Seq<char>,
    r1: Doc,
    inp: InputView,
    later: InputView,
    quotes: Seq<QuoteView>,
)
    requires
        inp.state is Obj,
        object_is_kept(inp.state, "stale"@),
        0 <= k < c.events.stale.len(),
        fields::shown_spec(r1, "client_id"@, ""@) == c.events.stale[k].client_id,
        later.state == after_delivery_spec(inp.state, c, at),
    ensures
        stale_of_spec(sym, r1, later, quotes) is None,
{
    reveal_strlit("run");
    reveal_strlit("stale");
    reveal_strlit("idle");
    assert("run"@.len() != "stale"@.len());
    assert("stale"@.len() != "idle"@.len());
    let a = inp.state.set("run"@, c.running);
    json::law_set_then_get(inp.state, "run"@, c.running, "stale"@);
    let seen = fields::object_or_spec(a, "stale"@);
    lemma_marked_stale(seen, c.events.stale, at, c.events.stale.len());
    let told = told_stale_spec(seen, c.events.stale, at);
    let b = a.set("stale"@, told);
    json::law_set_then_get(a, "stale"@, told, "stale"@);
    if c.events.idle.len() > 0 {
        let d = told_idle_spec(fields::object_or_spec(b, "idle"@), c.events.idle);
        json::law_set_then_get(b, "idle"@, d, "stale"@);
    }
    assert(told.get(c.events.stale[k].client_id) is Some);
}

/// What a state keeps under a key is an object, where it keeps anything.
pub open spec fn object_is_kept(state: Doc, key: Seq<char>) -> bool {
    match state.get(key) {
        Some(v) => v is Obj,
        None => true,
    }
}

/// What a coin with resting rungs gives of stale ones.
pub open spec fn stale_step(sym: Seq<char>, inp: InputView, quotes: Seq<QuoteView>) -> Option<
    StaleView,
> {
    match first_rung_spec(coin_rows_spec(inp.deploy_rows, sym)) {
        Some(r1) => stale_of_spec(sym, r1, inp, quotes),
        None => None,
    }
}

proof fn lemma_stale_listed(
    inp: InputView,
    quotes: Seq<QuoteView>,
    xs: Seq<Seq<char>>,
    n: nat,
    i: int,
)
    requires
        0 <= i < n <= xs.len(),
        stale_step(xs[i], inp, quotes) is Some,
    ensures
        exists|k: int|
            0 <= k < add_stale_spec(inp, quotes, xs, Seq::empty(), n).len()
                && #[trigger] add_stale_spec(inp, quotes, xs, Seq::empty(), n)[k] == stale_step(
                xs[i],
                inp,
                quotes,
            )->0,
    decreases n,
{
    let all = add_stale_spec(inp, quotes, xs, Seq::empty(), n);
    let fewer = add_stale_spec(inp, quotes, xs, Seq::empty(), (n - 1) as nat);
    if i == n - 1 {
        assert(all[all.len() - 1] == stale_step(xs[i], inp, quotes)->0);
    } else {
        lemma_stale_listed(inp, quotes, xs, (n - 1) as nat, i);
        let k = choose|k: int|
            0 <= k < fewer.len() && #[trigger] fewer[k] == stale_step(xs[i], inp, quotes)->0;
        assert(all[k] == fewer[k]);
    }
}

proof fn lemma_none_stale(inp: InputView, quotes: Seq<QuoteView>, xs: Seq<Seq<char>>, n: nat)
    requires
        n <= xs.len(),
        forall|i: int| 0 <= i < n ==> stale_step(#[trigger] xs[i], inp, quotes) is None,
    ensures
        add_stale_spec(inp, quotes, xs, Seq::empty(), n).len() == 0,
    decreases n,
{
    if n > 0 {
        lemma_none_stale(inp, quotes, xs, (n - 1) as nat);
        assert(stale_step(xs[n - 1], inp, quotes) is None);
    }
}

proof fn lemma_idle_listed(inp: InputView, xs: Seq<FreeView>, n: nat)
    requires
        n <= xs.len(),
    ensures
        ({
            let all = add_idle_spec(inp, xs, Seq::empty(), n);
            &&& forall|i: int|
                0 <= i < n && idle_now_spec(inp.state, inp.cfg.idle_min_usd, #[trigger] xs[i]) is Some
                    ==> exists|k: int|
                    0 <= k < all.len() && (#[trigger] all[k]).venue == xs[i].venue
            &&& forall|k: int|
                0 <= k < all.len() ==> exists|i: int|
                    0 <= i < n && idle_now_spec(inp.state, inp.cfg.idle_min_usd, #[trigger] xs[i])
                        == Some(#[trigger] all[k])
        }),
    decreases n,
{
    let all = add_idle_spec(inp, xs, Seq::empty(), n);
    if n > 0 {
        lemma_idle_listed(inp, xs, (n - 1) as nat);
        let fewer = add_idle_spec(inp, xs, Seq::empty(), (n - 1) as nat);
        let last = idle_now_spec(inp.state, inp.cfg.idle_min_usd, xs[n - 1]);
        assert forall|i: int|
            0 <= i < n && idle_now_spec(inp.state, inp.cfg.idle_min_usd, #[trigger] xs[i]) is Some implies exists|
            k: int,
        | 0 <= k < all.len() && (#[trigger] all[k]).venue == xs[i].venue by {
            if i == n - 1 {
                assert(all[all.len() - 1].venue == xs[i].venue);
            } else {
                let k = choose|k: int|
                    0 <= k < fewer.len() && (#[trigger] fewer[k]).venue == xs[i].venue;
                assert(all[k] == fewer[k]);
            }
        }
        assert forall|k: int| 0 <= k < all.len() implies exists|i: int|
            0 <= i < n && idle_now_spec(inp.state, inp.cfg.idle_min_usd, #[trigger] xs[i]) == Some(
                #[trigger] all[k],
            ) by {
            if k < fewer.len() {
                assert(all[k] == fewer[k]);
                let i = choose|i: int|
                    0 <= i < n - 1 && idle_now_spec(
                        inp.state,
                        inp.cfg.idle_min_usd,
                        #[trigger] xs[i],
                    ) == Some(fewer[k]);
                assert(idle_now_spec(inp.state, inp.cfg.idle_min_usd, xs[i]) == Some(all[k]));
            } else {
                assert(last == Some(all[k]));
                assert(idle_now_spec(inp.state, inp.cfg.idle_min_usd, xs[n - 1]) == Some(all[k]));
            }
        }
    }
}

proof fn lemma_none_idle(inp: InputView, xs: Seq<FreeView>, n: nat)
    requires
        n <= xs.len(),
        forall|i: int|
            0 <= i < n ==> idle_now_spec(inp.state, inp.cfg.idle_min_usd, #[trigger] xs[i]) is None,
    ensures
        add_idle_spec(inp, xs, Seq::empty(), n).len() == 0,
    decreases n,
{
    if n > 0 {
        lemma_none_idle(inp, xs, (n - 1) as nat);
        assert(idle_now_spec(inp.state, inp.cfg.idle_min_usd, xs[n - 1]) is None);
    }
}

/// What is remembered of a venue after idle amounts are told.
proof fn lemma_marked_idle(seen: Doc, idle: Seq<IdleView>, n: nat, venue: Seq<char>, x: Double)
    requires
        seen is Obj,
        n <= idle.len(),
        forall|k: int| 0 <= k < n && (#[trigger] idle[k]).venue == venue ==> idle[k].free == x,
    ensures
        mark_idle_spec(idle, seen, n) is Obj,
        (exists|k: int| 0 <= k < n && (#[trigger] idle[k]).venue == venue) ==> mark_idle_spec(
            idle,
            seen,
            n,
        ).get(venue) == Some(Doc::Float(x)),
        (forall|k: int| 0 <= k < n ==> (#[trigger] idle[k]).venue != venue) ==> mark_idle_spec(
            idle,
            seen,
            n,
        ).get(venue) == seen.get(venue),
    decreases n,
{
    if n > 0 {
        lemma_marked_idle(seen, idle, (n - 1) as nat, venue, x);
        let before = mark_idle_spec(idle, seen, (n - 1) as nat);
        json::law_set_then_get(before, idle[n - 1].venue, Doc::Float(idle[n - 1].free), venue);
        if idle[n - 1].venue != venue && exists|k: int|
            0 <= k < n && (#[trigger] idle[k]).venue == venue {
            let k = choose|k: int| 0 <= k < n && (#[trigger] idle[k]).venue == venue;
            assert(k < n - 1);
        }
    }
}

/// What a state keeps of the three things it remembers, once a mail is delivered.
proof fn lemma_delivered(state: Doc, c: CollectedView, at: Double)
    requires
        state is Obj,
    ensures
        after_delivery_spec(state, c, at).get("run"@) == Some(c.running),
        after_delivery_spec(state, c, at).get("stale"@) == (if c.events.stale.len() > 0 {
            Some(told_stale_spec(fields::object_or_spec(state, "stale"@), c.events.stale, at))
        } else {
            state.get("stale"@)
        }),
        after_delivery_spec(state, c, at).get("idle"@) == (if c.events.idle.len() > 0 {
            Some(told_idle_spec(fields::object_or_spec(state, "idle"@), c.events.idle))
        } else {
            state.get("idle"@)
        }),
{
    reveal_strlit("run");
    reveal_strlit("stale");
    reveal_strlit("idle");
    assert("run"@.len() != "stale"@.len() && "run"@.len() != "idle"@.len());
    assert("stale"@.len() != "idle"@.len());
    let a = state.set("run"@, c.running);
    json::law_set_then_get(state, "run"@, c.running, "stale"@);
    json::law_set_then_get(state, "run"@, c.running, "idle"@);
    let told = told_stale_spec(fields::object_or_spec(a, "stale"@), c.events.stale, at);
    let b = if c.events.stale.len() > 0 {
        a.set("stale"@, told)
    } else {
        a
    };
    json::law_set_then_get(a, "stale"@, told, "run"@);
    json::law_set_then_get(a, "stale"@, told, "idle"@);
    let cash = told_idle_spec(fields::object_or_spec(b, "idle"@), c.events.idle);
    json::law_set_then_get(b, "idle"@, cash, "run"@);
    json::law_set_then_get(b, "idle"@, cash, "stale"@);
}

proof fn lemma_kept_stale(seen: Doc, stale: Seq<StaleView>, now: Double, n: nat, cid: Seq<char>)
    requires
        seen is Obj,
        n <= stale.len(),
        seen.get(cid) is Some,
    ensures
        mark_stale_spec(now, stale, seen, n).get(cid) is Some,
    decreases n,
{
    if n > 0 {
        lemma_kept_stale(seen, stale, now, (n - 1) as nat, cid);
        lemma_marked_stale(seen, stale, now, (n - 1) as nat);
        let before = mark_stale_spec(now, stale, seen, (n - 1) as nat);
        json::law_set_then_get(before, stale[n - 1].client_id, Doc::Float(now), cid);
    }
}

proof fn lemma_no_stale_again(inp: InputView, quotes: Seq<QuoteView>, at: Double)
    requires
        inp.state is Obj,
        object_is_kept(inp.state, "stale"@),
    ensures
        ({
            let c = collect_spec(inp, quotes);
            let later = InputView { state: after_delivery_spec(inp.state, c, at), ..inp };
            stale_rungs_spec(later, quotes).len() == 0
        }),
{
    let c = collect_spec(inp, quotes);
    let later = InputView { state: after_delivery_spec(inp.state, c, at), ..inp };
    lemma_delivered(inp.state, c, at);
    let xs = list::sorted_texts(ladder_coins_spec(inp.deploy_rows));
    let seen = fields::object_or_spec(inp.state, "stale"@);
    let told = c.events.stale;
    lemma_marked_stale(seen, told, at, told.len());
    assert forall|i: int| 0 <= i < xs.len() implies stale_step(#[trigger] xs[i], later, quotes) is None by {
        let sym = xs[i];
        if let Some(r1) = first_rung_spec(coin_rows_spec(inp.deploy_rows, sym)) {
            let cid = fields::shown_spec(r1, "client_id"@, ""@);
            if stale_of_spec(sym, r1, inp, quotes) is Some {
                lemma_stale_listed(inp, quotes, xs, xs.len(), i);
                let k = choose|k: int|
                    0 <= k < told.len() && #[trigger] told[k] == stale_step(sym, inp, quotes)->0;
                assert(told[k].client_id == cid);
            } else if inp.state.get("stale"@) matches Some(s) && s.get(cid) is Some {
                lemma_kept_stale(seen, told, at, told.len(), cid);
            }
        }
    }
    lemma_none_stale(later, quotes, xs, xs.len());
}

/// Whether every venue's balances are given once.
pub open spec fn venues_apart(balances: Seq<BalanceView>) -> bool {
    forall|i: int, j: int|
        0 <= i < j < balances.len() ==> (#[trigger] balances[i]).venue != (
        #[trigger] balances[j]).venue
}

/// Whether an amount is beyond every number: no difference from it is a small part of it.
pub open spec fn endless(x: Double) -> bool {
    x.infinite() && !x.neg()
}

proof fn lemma_read_apart(xs: Seq<BalanceView>, n: nat)
    requires
        n <= xs.len(),
        venues_apart(xs),
    ensures
        ({
            let out = add_free_spec(xs, Seq::empty(), n);
            &&& forall|k: int|
                0 <= k < out.len() ==> exists|i: int|
                    0 <= i < n && (#[trigger] xs[i]).venue == (#[trigger] out[k]).venue
            &&& forall|k: int, l: int|
                0 <= k < l < out.len() ==> (#[trigger] out[k]).venue != (#[trigger] out[l]).venue
        }),
    decreases n,
{
    if n > 0 {
        lemma_read_apart(xs, (n - 1) as nat);
        let fewer = add_free_spec(xs, Seq::empty(), (n - 1) as nat);
        let out = add_free_spec(xs, Seq::empty(), n);
        assert(out =~= fewer || out =~= fewer.push(out.last()) && out.last().venue == xs[n
            - 1].venue);
        assert forall|k: int| 0 <= k < out.len() implies exists|i: int|
            0 <= i < n && (#[trigger] xs[i]).venue == (#[trigger] out[k]).venue by {
            if k < fewer.len() {
                assert(out[k] == fewer[k]);
                let i = choose|i: int|
                    0 <= i < n - 1 && (#[trigger] xs[i]).venue == fewer[k].venue;
                assert(xs[i].venue == out[k].venue);
            } else {
                assert(xs[n - 1].venue == out[k].venue);
            }
        }
        assert forall|k: int, l: int| 0 <= k < l < out.len() implies (#[trigger] out[k]).venue != (
        #[trigger] out[l]).venue by {
            assert(out[k] == fewer[k]);
            if l < fewer.len() {
                assert(out[l] == fewer[l]);
            } else {
                let i = choose|i: int|
                    0 <= i < n - 1 && (#[trigger] xs[i]).venue == fewer[k].venue;
                assert(xs[i].venue != xs[n - 1].venue);
            }
        }
    }
}

proof fn lemma_unread_is_unknown(xs: Seq<BalanceView>, n: nat)
    requires
        n <= xs.len(),
    ensures
        forall|k: int|
            0 <= k < add_unread_spec(xs, Seq::empty(), n).len() ==> (#[trigger] add_unread_spec(
                xs,
                Seq::empty(),
                n,
            )[k]).free is None,
    decreases n,
{
    if n > 0 {
        lemma_unread_is_unknown(xs, (n - 1) as nat);
        let fewer = add_unread_spec(xs, Seq::empty(), (n - 1) as nat);
        let out = add_unread_spec(xs, Seq::empty(), n);
        assert(out =~= fewer || out =~= fewer.push(out.last()) && out.last().free is None);
    }
}

proof fn lemma_net_keeps_venues(
    held_back: Result<Double, Seq<char>>,
    xs: Seq<FreeView>,
    n: nat,
)
    requires
        n <= xs.len(),
    ensures
        ({
            let out = add_net_spec(held_back, xs, Seq::empty(), false, n).0;
            &&& out.len() == n
            &&& forall|k: int|
                0 <= k < n ==> (#[trigger] out[k]).venue == xs[k].venue && (out[k].free is Some
                    == xs[k].free is Some)
        }),
    decreases n,
{
    if n > 0 {
        lemma_net_keeps_venues(held_back, xs, (n - 1) as nat);
    }
}

/// Of two venues whose free stable is known, no two are the same.
proof fn lemma_frees_apart(balances: Seq<BalanceView>, reserve: ReserveConfigView)
    requires
        venues_apart(balances),
    ensures
        ({
            let xs = free_stable_spec(balances, reserve);
            forall|i: int, j: int|
                0 <= i < j < xs.len() && (#[trigger] xs[i]).free is Some && (
                #[trigger] xs[j]).free is Some ==> xs[i].venue != xs[j].venue
        }),
{
    let unknown = unread_spec(balances);
    let known = read_free_spec(balances);
    let all = unknown + known;
    lemma_unread_is_unknown(balances, balances.len());
    lemma_read_apart(balances, balances.len());
    assert forall|i: int, j: int|
        0 <= i < j < all.len() && (#[trigger] all[i]).free is Some && (
        #[trigger] all[j]).free is Some implies all[i].venue != all[j].venue by {
        if i < unknown.len() {
            assert(all[i] == unknown[i]);
        } else if j < unknown.len() {
            assert(all[j] == unknown[j]);
        } else {
            assert(all[i] == known[i - unknown.len()]);
            assert(all[j] == known[j - unknown.len()]);
        }
    }
    if let (Some(rx), Some(gt)) = (
        balance_on_spec(balances, "revx"@),
        balance_on_spec(balances, "gate"@),
    ) {
        lemma_net_keeps_venues(pending_reserve_spec(rx, gt, reserve), all, all.len());
    }
}

proof fn lemma_told_is_quiet(state: Doc, min_usd: Double, f: FreeView, x: Double)
    requires
        f.free == Some(x),
        x.finite(),
        Double::zero_spec().lt_spec(min_usd),
        min_usd.le_spec(x),
        state.get("idle"@) matches Some(o) && o.get(f.venue) == Some(Doc::Float(x)),
    ensures
        idle_now_spec(state, min_usd, f) is None,
{
    crate::double::lemma_scaled_zero();
    assert(x.amount() > 0);
    assert(idle_before_spec(state, f.venue) == x);
    crate::double::lemma_no_gap(x, 25, 100);
}

/// Of what was told idle, only an endless amount can be told again.
proof fn lemma_no_idle_again(inp: InputView, quotes: Seq<QuoteView>, at: Double)
    requires
        inp.state is Obj,
        object_is_kept(inp.state, "idle"@),
        Double::zero_spec().lt_spec(inp.cfg.idle_min_usd),
        venues_apart(inp.balances),
    ensures
        ({
            let c = collect_spec(inp, quotes);
            let later = InputView { state: after_delivery_spec(inp.state, c, at), ..inp };
            let xs = free_stable_spec(inp.balances, inp.reserve);
            forall|i: int|
                0 <= i < xs.len() ==> idle_now_spec(
                    later.state,
                    inp.cfg.idle_min_usd,
                    #[trigger] xs[i],
                ) is None || endless(xs[i].free->0)
        }),
{
    let c = collect_spec(inp, quotes);
    let later = InputView { state: after_delivery_spec(inp.state, c, at), ..inp };
    lemma_delivered(inp.state, c, at);
    lemma_frees_apart(inp.balances, inp.reserve);
    let xs = free_stable_spec(inp.balances, inp.reserve);
    let idle = c.events.idle;
    let min = inp.cfg.idle_min_usd;
    let seen = fields::object_or_spec(inp.state, "idle"@);
    lemma_idle_listed(inp, xs, xs.len());
    assert(idle == add_idle_spec(inp, xs, Seq::empty(), xs.len()));
    assert forall|i: int| 0 <= i < xs.len() implies idle_now_spec(
        later.state,
        min,
        #[trigger] xs[i],
    ) is None || endless(xs[i].free->0) by {
        let f = xs[i];
        if let Some(x) = f.free {
            assert forall|k: int| 0 <= k < idle.len() && (#[trigger] idle[k]).venue == f.venue implies idle[k].free
                == x by {
                let j = choose|j: int|
                    0 <= j < xs.len() && idle_now_spec(inp.state, min, #[trigger] xs[j]) == Some(
                        idle[k],
                    );
                assert(xs[j].venue == f.venue);
                assert(xs[j].free is Some);
                assert(j == i);
            }
            lemma_marked_idle(seen, idle, idle.len(), f.venue, x);
            if idle_now_spec(inp.state, min, f) is Some {
                let k = choose|k: int|
                    0 <= k < idle.len() && (#[trigger] idle[k]).venue == xs[i].venue;
                assert(idle.len() > 0);
                if !endless(x) {
                    lemma_told_is_quiet(later.state, min, f, x);
                }
            } else if min.le_spec(x) {
                assert forall|k: int| 0 <= k < idle.len() implies (#[trigger] idle[k]).venue != f.venue by {
                    let j = choose|j: int|
                        0 <= j < xs.len() && idle_now_spec(inp.state, min, #[trigger] xs[j])
                            == Some(idle[k]);
                    assert(xs[j].venue == idle[k].venue);
                    assert(xs[j].free is Some);
                }
                assert(idle_before_spec(later.state, f.venue) == idle_before_spec(
                    inp.state,
                    f.venue,
                ));
            }
        }
    }
}

/// Whether a coin that is named twice runs both times or neither.
pub open spec fn gates_agree(coins: Seq<(Seq<char>, Doc)>) -> bool {
    forall|i: int, j: int|
        0 <= i < j < coins.len() && (#[trigger] coins[i]).0 == (#[trigger] coins[j]).0
            ==> coins[i].1.has_truthy("running"@) == coins[j].1.has_truthy("running"@)
}

proof fn lemma_none_flips(
    coins: Seq<(Seq<char>, Doc)>,
    hold: Doc,
    inp: InputView,
    prev: Doc,
    quotes: Seq<QuoteView>,
    xs: Seq<(Seq<char>, Doc)>,
    n: nat,
)
    requires
        n <= xs.len(),
        forall|i: int|
            0 <= i < n ==> prev.get((#[trigger] xs[i]).0) == Some(xs[i].1) && xs[i].1 is Bool,
    ensures
        add_flips_spec(coins, hold, inp, prev, quotes, xs, Seq::empty(), n).len() == 0,
    decreases n,
{
    if n > 0 {
        lemma_none_flips(coins, hold, inp, prev, quotes, xs, (n - 1) as nat);
        assert(xs[n - 1].1.py_eq(xs[n - 1].1));
    }
}

proof fn lemma_no_flip_again(inp: InputView, quotes: Seq<QuoteView>, at: Double)
    requires
        inp.state is Obj,
        gates_agree(fields::object_or_spec(inp.reg, "coins"@).entries()),
    ensures
        ({
            let c = collect_spec(inp, quotes);
            let later = InputView { state: after_delivery_spec(inp.state, c, at), ..inp };
            collect_spec(later, quotes).events.run.len() == 0
        }),
{
    let c = collect_spec(inp, quotes);
    let later = InputView { state: after_delivery_spec(inp.state, c, at), ..inp };
    lemma_delivered(inp.state, c, at);
    let coins = fields::object_or_spec(inp.reg, "coins"@).entries();
    let running = running_now_spec(coins);
    let e = running.entries();
    let less = crate::order::by_text(list::firsts(e));
    crate::order::lemma_sorted_places(e.len(), less);
    let xs = list::sorted_entries(e);
    assert forall|i: int| 0 <= i < xs.len() implies running.get((#[trigger] xs[i]).0) == Some(
        xs[i].1,
    ) && xs[i].1 is Bool by {
        let j = crate::order::sorted_by(e.len(), less)[i];
        assert(xs[i] == e[j]);
        json::lemma_spot(e, e[j].0, 0);
        let k = json::spot(e, e[j].0, 0);
        assert(e[k].0 == coins[k].0 && e[j].0 == coins[j].0);
        if k < j {
            assert(coins[k].0 == coins[j].0);
        } else if j < k {
            assert(e[j].0 != e[j].0);
        }
    }
    let hold = book_state_spec(inp.book, inp.now, inp.cfg.book_stale_s).0;
    lemma_none_flips(coins, hold, later, running, quotes, xs, xs.len());
}

/// One mail tells it all: after it is delivered, the same readings have nothing more to tell.
pub proof fn law_a_delivered_mail_is_not_repeated(
    inp: InputView,
    quotes: Seq<QuoteView>,
    at: Double,
)
    requires
        inp.state is Obj,
        object_is_kept(inp.state, "stale"@),
        object_is_kept(inp.state, "idle"@),
        Double::zero_spec().lt_spec(inp.cfg.idle_min_usd),
        venues_apart(inp.balances),
        forall|i: int|
            0 <= i < free_stable_spec(inp.balances, inp.reserve).len() ==> !(
            (#[trigger] free_stable_spec(inp.balances, inp.reserve)[i]).free matches Some(x)
                && endless(x)),
        gates_agree(fields::object_or_spec(inp.reg, "coins"@).entries()),
    ensures
        !some_event_spec(
            collect_spec(
                InputView {
                    state: after_delivery_spec(inp.state, collect_spec(inp, quotes), at),
                    ..inp
                },
                quotes,
            ).events,
        ),
{
    let c = collect_spec(inp, quotes);
    let later = InputView { state: after_delivery_spec(inp.state, c, at), ..inp };
    lemma_no_stale_again(inp, quotes, at);
    lemma_no_idle_again(inp, quotes, at);
    lemma_no_flip_again(inp, quotes, at);
    let xs = free_stable_spec(inp.balances, inp.reserve);
    assert forall|i: int| 0 <= i < xs.len() implies idle_now_spec(
        later.state,
        later.cfg.idle_min_usd,
        #[trigger] xs[i],
    ) is None by {
        if xs[i].free is Some {
            assert(!endless(xs[i].free->0));
        }
    }
    lemma_none_idle(later, xs, xs.len());
}

/// Whatever the readings hold, a stale rung is told once, and idle cash again only where its
/// amount is endless.
pub proof fn law_only_endless_cash_is_told_again(
    inp: InputView,
    quotes: Seq<QuoteView>,
    at: Double,
)
    requires
        inp.state is Obj,
        object_is_kept(inp.state, "stale"@),
        object_is_kept(inp.state, "idle"@),
        Double::zero_spec().lt_spec(inp.cfg.idle_min_usd),
        venues_apart(inp.balances),
    ensures
        ({
            let c = collect_spec(inp, quotes);
            let later = InputView { state: after_delivery_spec(inp.state, c, at), ..inp };
            let again = collect_spec(later, quotes).events;
            &&& again.stale.len() == 0
            &&& forall|k: int|
                0 <= k < again.idle.len() ==> endless((#[trigger] again.idle[k]).free)
        }),
{
    let c = collect_spec(inp, quotes);
    let later = InputView { state: after_delivery_spec(inp.state, c, at), ..inp };
    lemma_no_stale_again(inp, quotes, at);
    lemma_no_idle_again(inp, quotes, at);
    let xs = free_stable_spec(inp.balances, inp.reserve);
    let idle = collect_spec(later, quotes).events.idle;
    lemma_idle_listed(later, xs, xs.len());
    assert(idle == add_idle_spec(later, xs, Seq::empty(), xs.len()));
    assert forall|k: int| 0 <= k < idle.len() implies endless((#[trigger] idle[k]).free) by {
        let i = choose|i: int|
            0 <= i < xs.len() && idle_now_spec(
                later.state,
                later.cfg.idle_min_usd,
                #[trigger] xs[i],
            ) == Some(idle[k]);
        assert(xs[i].free == Some(idle[k].free));
    }
}

/// Idle cash that moved by less than a quarter since it was told is not told again.
pub proof fn law_idle_within_a_quarter_is_quiet(state: Doc, min_usd: Double, f: FreeView)
    requires
        f.free matches Some(x) && !idle_before_spec(state, f.venue).eq_spec(Double::zero_spec())
            && x.sub_spec(idle_before_spec(state, f.venue)).abs_spec().div_spec(
            idle_before_spec(state, f.venue),
        ).lt_spec(Double::ratio_spec(25, 100)),
    ensures
        idle_now_spec(state, min_usd, f) is None,
{
}

/// A first run records the baseline and has no flip to tell.
pub proof fn law_a_first_run_has_no_flips(
    inp: InputView,
    coins: Seq<(Seq<char>, Doc)>,
    running: Doc,
    hold: Doc,
    quotes: Seq<QuoteView>,
)
    requires
        inp.state.get("run"@) matches Some(r) ==> r is Null,
    ensures
        flips_of_spec(inp, coins, running, hold, quotes).len() == 0,
{
}

/// What is free net of a reserve is what is left beside it, never less than nothing.
pub proof fn law_a_reserve_is_held_back(f: FreeView, free: Double, reserve: Double)
    requires
        f.free == Some(free),
        free.finite(),
        reserve.finite(),
        free.amount() >= 0,
        reserve.amount() >= 0,
    ensures
        net_of_spec(f, Ok(reserve)).free matches Some(x) && {
            &&& 0 <= x.amount() <= free.amount()
            &&& reserve.amount() == 0 ==> x.amount() == free.amount()
            &&& free.amount() <= reserve.amount() ==> x.amount() == 0
            &&& free.amount() > reserve.amount() ==> rounding::grain() * rounding::size(
                x.amount() + reserve.amount() - free.amount(),
            ) <= x.amount() + rounding::least()
        },
        net_of_spec(f, Ok(reserve)).venue == f.venue,
{
    crate::double::lemma_scaled_zero();
    rounding::lemma_rest(free, reserve);
}

proof fn lemma_one_venue(
    alloc: Seq<(Seq<char>, Double)>,
    xs: Seq<(Seq<char>, Seq<char>)>,
    n: nat,
)
    requires
        n <= xs.len(),
    ensures
        (forall|i: int| 0 <= i < n ==> (#[trigger] xs[i]).1 != "gate"@) ==> add_weights_spec(
            alloc,
            xs,
            Double::zero_spec(),
            Double::zero_spec(),
            n,
        ).1 == Double::zero_spec(),
        (forall|i: int| 0 <= i < n ==> (#[trigger] xs[i]).1 != "revx"@) ==> add_weights_spec(
            alloc,
            xs,
            Double::zero_spec(),
            Double::zero_spec(),
            n,
        ).0 == Double::zero_spec(),
    decreases n,
{
    if n > 0 {
        lemma_one_venue(alloc, xs, (n - 1) as nat);
        if forall|i: int| 0 <= i < n ==> (#[trigger] xs[i]).1 != "gate"@ {
            assert(xs[n - 1].1 != "gate"@);
        }
        if forall|i: int| 0 <= i < n ==> (#[trigger] xs[i]).1 != "revx"@ {
            assert(xs[n - 1].1 != "revx"@);
        }
    }
}

/// Gate's share of the working book is none of it with nothing routed there, and all of it with
/// nothing routed to Revolut X.
pub proof fn law_gates_share_follows_the_routes(c: ReserveConfigView)
    ensures
        (forall|i: int| 0 <= i < c.routing.len() ==> (#[trigger] c.routing[i]).1 != "gate"@)
            && add_weights_spec(
            c.alloc,
            c.routing,
            Double::zero_spec(),
            Double::zero_spec(),
            c.routing.len(),
        ).0.finite() && add_weights_spec(
            c.alloc,
            c.routing,
            Double::zero_spec(),
            Double::zero_spec(),
            c.routing.len(),
        ).0.amount() >= 0 ==> share_of_spec(c).amount() == 0,
        (forall|i: int| 0 <= i < c.routing.len() ==> (#[trigger] c.routing[i]).1 != "revx"@)
            && add_weights_spec(
            c.alloc,
            c.routing,
            Double::zero_spec(),
            Double::zero_spec(),
            c.routing.len(),
        ).1.finite() && add_weights_spec(
            c.alloc,
            c.routing,
            Double::zero_spec(),
            Double::zero_spec(),
            c.routing.len(),
        ).1.amount() > 0 ==> share_of_spec(c).amount() == crate::double::unit(),
{
    let zero = Double::zero_spec();
    let (revx, gate) = add_weights_spec(c.alloc, c.routing, zero, zero, c.routing.len());
    lemma_one_venue(c.alloc, c.routing, c.routing.len());
    crate::double::lemma_scaled_zero();
    if gate == zero && revx.finite() && revx.amount() >= 0 {
        rounding::lemma_exact_sum(revx, gate, revx);
        if revx.amount() > 0 {
            rounding::lemma_nothing_over(revx.add_spec(gate));
        }
    }
    if revx == zero && gate.finite() && gate.amount() > 0 {
        rounding::lemma_exact_sum(revx, gate, gate);
        rounding::lemma_whole_is_not_less(gate, revx.add_spec(gate));
    }
}

/// The reserve is what Gate lacks of its share, so it is never more than Revolut X holds, never
/// under fifty but for nothing, and nothing where Gate holds all that is stable.
pub proof fn law_the_reserve_is_what_gate_lacks(
    c: ReserveConfigView,
    rx_stable: Double,
    gate_stable: Double,
    both: Double,
)
    requires
        rx_stable.finite(),
        gate_stable.finite(),
        rx_stable.amount() >= 0,
        gate_stable.amount() >= 0,
        both.finite(),
        both.amount() == rx_stable.amount() + gate_stable.amount(),
        share_of_spec(c).finite(),
        0 <= share_of_spec(c).amount() <= crate::double::unit(),
    ensures
        ({
            let r = reserve_for_spec(c, rx_stable, gate_stable).amount();
            &&& 0 <= r <= rx_stable.amount()
            &&& r == 0 || r >= 50 * crate::double::unit()
            &&& share_of_spec(c).amount() == 0 ==> r == 0
            &&& share_of_spec(c).amount() == crate::double::unit() && rx_stable.amount() >= 50
                * crate::double::unit() ==> r == rx_stable.amount()
        }),
{
    let s = share_of_spec(c);
    let one = Double::int_spec(1);
    let zero = Double::zero_spec();
    crate::double::lemma_scaled_zero();
    vstd::arithmetic::power2::lemma_pow2_pos(1074);
    rounding::lemma_one_is_exact();
    rounding::lemma_whole_is_exact(50);
    rounding::lemma_exact_sum(rx_stable, gate_stable, both);
    let t = rx_stable.add_spec(gate_stable);
    rounding::lemma_times_grows(s, one, t);
    rounding::lemma_times_one(t);
    rounding::lemma_times_grows(zero, s, t);
    assert(t.amount() * 0 == 0 * crate::double::unit());
    rounding::lemma_exact_product(t, zero, zero);
    let p = t.mul_spec(s);
    rounding::lemma_infinite_is_last(t);
    rounding::lemma_infinite_is_last(p);
    assert(p.finite()) by {
        if p.infinite() {
            assert(rounding::size(p.amount()) == crate::double::scaled(
                crate::double::INFINITE as nat,
            ));
        }
    }
    rounding::lemma_sub_order(p, t, gate_stable);
    rounding::lemma_exact_difference(t, gate_stable, rx_stable);
    rounding::lemma_sub_sign(p, gate_stable);
    if s.amount() == 0 {
        assert(t.amount() * s.amount() == 0 * crate::double::unit()) by (nonlinear_arith)
            requires
                s.amount() == 0,
        ;
        rounding::lemma_exact_product(t, s, zero);
    }
    if s.amount() == crate::double::unit() {
        assert(t.amount() * s.amount() == t.amount() * crate::double::unit());
        rounding::lemma_exact_product(t, s, t);
        rounding::lemma_exact_difference(p, gate_stable, rx_stable);
    }
}

/// With more stable on Revolut X the reserve never shrinks.
pub proof fn law_more_stable_reserves_no_less(
    c: ReserveConfigView,
    less: Double,
    more: Double,
    gate_stable: Double,
)
    requires
        less.finite(),
        more.finite(),
        gate_stable.finite(),
        0 <= less.amount() <= more.amount(),
        gate_stable.amount() >= 0,
        more.add_spec(gate_stable).finite(),
        less.add_spec(gate_stable).finite(),
        share_of_spec(c).finite(),
        share_of_spec(c).amount() >= 0,
        more.add_spec(gate_stable).mul_spec(share_of_spec(c)).finite(),
        less.add_spec(gate_stable).mul_spec(share_of_spec(c)).finite(),
    ensures
        reserve_for_spec(c, less, gate_stable).amount() <= reserve_for_spec(
            c,
            more,
            gate_stable,
        ).amount(),
{
    let s = share_of_spec(c);
    crate::double::lemma_scaled_zero();
    vstd::arithmetic::power2::lemma_pow2_pos(1074);
    rounding::lemma_whole_is_exact(50);
    rounding::lemma_add_order(less, more, gate_stable);
    rounding::lemma_mul_order(less.add_spec(gate_stable), more.add_spec(gate_stable), s);
    rounding::lemma_sub_order(
        less.add_spec(gate_stable).mul_spec(s),
        more.add_spec(gate_stable).mul_spec(s),
        gate_stable,
    );
}

/// The distance of a zone that rests at or under the market is between nothing, at it, and a hundred
/// percent.
pub proof fn law_a_zone_under_the_market_is_at_a_distance(
    p: Double,
    rows: Seq<Doc>,
    i: int,
    price: Double,
)
    requires
        0 <= i < rows.len(),
        fields::float_or_spec(rows[i], "price"@, Double::zero_spec()) == price,
        price.finite(),
        p.finite(),
        0 <= price.amount() <= p.amount(),
        p.amount() > 0,
    ensures
        ({
            let d = add_distances_spec(p, rows, Seq::empty(), rows.len())[i];
            &&& price.amount() <= p.amount() ==> 0 <= d.amount() <= 100 * crate::double::unit()
            &&& price.amount() == p.amount() ==> d.amount() == 0
            &&& price.amount() == 0 ==> d.amount() == 100 * crate::double::unit()
        }),
{
    let zero = Double::zero_spec();
    crate::double::lemma_scaled_zero();
    if price.amount() <= p.amount() {
        rounding::lemma_sub_sign(p, price);
        rounding::lemma_sub_order(zero, price, p);
        rounding::lemma_exact_difference(p, zero, p);
        rounding::lemma_add_within(p, price.neg_spec(), p);
        let x = p.sub_spec(price);
        rounding::lemma_percent(x, p);
        if price.amount() == 0 {
            rounding::lemma_exact_difference(p, price, p);
        }
    }
}

} // verus!
