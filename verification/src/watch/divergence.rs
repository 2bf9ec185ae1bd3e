//! Divergence check: is the live book still earning the edge the backtest promised?
//!
//! Two guards. *Edge lost*: realized alpha since a baseline (the live book against the
//! baseline book, both at today's prices) falls more than `drift_band_pct` under the
//! backtest's alpha prorated to the elapsed days. *Drawdown*: the live book's return since
//! the baseline falls more than `floor_margin_pct` below the worst window the backtest
//! showed. A new expectation re-takes the baseline, and nothing is judged before `min_days`.
//! Each guard mails once per baseline and re-arms when it clears; the guards already mailed
//! are kept in the state as `alerted`.
use crate::double::Double;
use crate::rounding;
use crate::text;
use crate::watch::json;
use crate::watch::json::{Doc, Json};
use crate::watch::pyfmt;
use crate::watch::Hints;
use vstd::prelude::*;

verus! {

/// The bands and waits of the check.
#[derive(Clone, Copy, Debug)]
pub struct DivergenceConfig {
    /// Alpha this many points under the expectation trips "edge lost".
    pub drift_band_pct: Double,
    /// Margin under the backtest's worst window that trips "drawdown".
    pub floor_margin_pct: Double,
    /// Days after the baseline before anything is judged.
    pub min_days: Double,
}

impl Default for DivergenceConfig {
    fn default() -> (r: Self)
        ensures
            r == (DivergenceConfig {
                drift_band_pct: Double::int_spec(5),
                floor_margin_pct: Double::int_spec(3),
                min_days: Double::int_spec(7),
            }),
    {
        DivergenceConfig {
            drift_band_pct: Double::of_int(5),
            floor_margin_pct: Double::of_int(3),
            min_days: Double::of_int(7),
        }
    }
}

pub const NO_EXPECTATION: &'static str =
    "No backtest-expectation.json yet -- monthly backtest hasn't run. Skipping.";

pub const SENT_LINE: &'static str = "Sent divergence alert.";

pub const FAILED_LINE: &'static str = "Failed to send alert email.";

/// The live book: units held per coin and total stable.
#[derive(Debug)]
pub struct Book {
    pub held: Json,
    pub stable: Double,
}

/// What a run is decided from.
pub struct Input<'a> {
    pub now: Double,
    pub expect: &'a Json,
    /// The previous state, where there is one.
    pub state: Option<&'a Json>,
    pub book: Result<Book, String>,
    /// Dollars per symbol at today's prices.
    pub prices: Result<Json, String>,
    /// The cached regime label, `unknown` when unreadable.
    pub regime: String,
    pub dry_run: bool,
    pub cfg: DivergenceConfig,
    pub hints: &'a Hints,
}

/// What a run decided.
#[derive(Debug)]
#[allow(inconsistent_fields)]
pub enum Plan {
    /// Finished: print, write `state` if any, exit with `code`.
    Done { code: i32, stdout: Vec<String>, stderr: Vec<String>, state: Option<Json> },
    /// Print `stdout`, then mail; write `state` on delivery.
    Send { stdout: Vec<String>, subject: String, body: String, state: Json },
}

/// What a [`Plan`] says.
#[allow(inconsistent_fields)]
pub enum Decision {
    Done { code: int, stdout: Seq<Seq<char>>, stderr: Seq<Seq<char>>, state: Option<Doc> },
    Send { stdout: Seq<Seq<char>>, subject: Seq<char>, body: Seq<char>, state: Doc },
}

impl View for Plan {
    type V = Decision;

    open spec fn view(&self) -> Decision {
        match self {
            Plan::Done { code, stdout, stderr, state } => Decision::Done {
                code: *code as int,
                stdout: text::views(stdout@),
                stderr: text::views(stderr@),
                state: match state {
                    Some(j) => Some(j@),
                    None => None,
                },
            },
            Plan::Send { stdout, subject, body, state } => Decision::Send {
                stdout: text::views(stdout@),
                subject: subject@,
                body: body@,
                state: state@,
            },
        }
    }
}

// ------------------------------------------------------------------ the numbers
/// What the first `n` holdings are worth, coin by coin.
pub open spec fn worths(held: Doc, px: Seq<(Seq<char>, Doc)>, n: nat) -> Seq<Double>
    decreases n,
{
    if n == 0 {
        Seq::empty()
    } else {
        worths(held, px, (n - 1) as nat).push(
            json::float_or_zero(held.get(px[n - 1].0)).mul_spec(json::float_or_zero(Some(px[n - 1].1))),
        )
    }
}

/// The holdings at the given prices, and the stable.
pub open spec fn value_spec(held: Doc, stable: Double, px: Doc) -> Double {
    pyfmt::sum_spec(worths(held, px.entries(), px.entries().len())).add_spec(stable)
}

/// The holdings at the given prices, and the stable.
pub fn value(held: &Json, stable: Double, px: &Json) -> (r: Double)
    ensures
        r == value_spec(held@, stable, px@),
{
    let mut terms: Vec<Double> = Vec::new();
    if let Json::Obj(e) = px {
        let mut i: usize = 0;
        while i < e.len()
            invariant
                i <= e@.len(),
                px == Json::Obj(*e),
                terms@ == worths(held@, px@.entries(), i as nat),
            decreases e@.len() - i,
        {
            assert(px@.entries()[i as int] == (e@[i as int].0@, e@[i as int].1@));
            let h = json::read_or_zero(held.get(e[i].0.as_str()));
            let p = json::read_or_zero(Some(&e[i].1));
            terms.push(h.times(p));
            i = i + 1;
        }
    }
    pyfmt::sum(&terms).plus(stable)
}

/// The numbers of a run.
#[derive(Clone, Copy, Debug)]
pub struct Measures {
    pub elapsed: Double,
    /// The baseline book at today's prices.
    pub bh_now: Double,
    /// The live book at today's prices.
    pub strat_now: Double,
    /// The baseline book at the baseline's prices.
    pub base_val: Double,
    pub realized_alpha: Double,
    /// The backtest's alpha over its whole window.
    pub full_alpha: Double,
    /// The share of that window that has passed, at most 1.
    pub frac: Double,
    pub expected: Double,
    pub drift: Double,
    pub realized_return: Double,
    /// The worst window the backtest showed.
    pub floor: Option<Double>,
    pub floor_breach: bool,
}

/// Days since the baseline.
pub open spec fn elapsed_spec(now: Double, st: Doc) -> Double {
    now.sub_spec(json::float_or_zero(st.get("epoch"@))).div_spec(Double::int_spec(86400))
}

/// The length of the backtest's window in days, as written.
pub open spec fn anchor_spec(expect: Doc) -> Doc {
    if expect.has_truthy("anchor_days"@) {
        expect.get("anchor_days"@)->0
    } else if expect.has_truthy("window_days"@) {
        expect.get("window_days"@)->0
    } else {
        Doc::Int(28)
    }
}

/// `(a / b - 1) * 100`.
pub open spec fn gain_pct(a: Double, b: Double) -> Double {
    a.div_spec(b).sub_spec(Double::int_spec(1)).mul_spec(Double::int_spec(100))
}

fn gain(a: Double, b: Double) -> (r: Double)
    ensures
        r == gain_pct(a, b),
{
    a.over(b).minus(Double::of_int(1)).times(Double::of_int(100))
}

/// The numbers of a run on the baseline in `st`.
pub open spec fn measures_spec(
    now: Double,
    expect: Doc,
    st: Doc,
    held: Doc,
    stable: Double,
    px: Doc,
    cfg: DivergenceConfig,
) -> Measures {
    let elapsed = elapsed_spec(now, st);
    let held0 = json::or_empty(st.get("held0"@));
    let stable0 = json::float_or_zero(st.get("stable0"@));
    let bh_now = value_spec(held0, stable0, px);
    let strat_now = value_spec(held, stable, px);
    let base_val = value_spec(held0, stable0, json::or_empty(st.get("px0"@)));
    let realized_alpha = gain_pct(strat_now, bh_now);
    let full_alpha = json::float_or_zero(expect.get("alpha_pct"@));
    let anchor_days = match anchor_spec(expect).to_float() {
        Some(f) => f,
        None => Double::int_spec(28),
    };
    let ratio = elapsed.div_spec(anchor_days);
    let frac = if ratio.lt_spec(Double::int_spec(1)) {
        ratio
    } else {
        Double::int_spec(1)
    };
    let expected = full_alpha.mul_spec(frac);
    let realized_return = gain_pct(strat_now, base_val);
    let floor = match expect.get("strat_return_floor_pct"@) {
        Some(f) => f.to_float(),
        None => None,
    };
    Measures {
        elapsed,
        bh_now,
        strat_now,
        base_val,
        realized_alpha,
        full_alpha,
        frac,
        expected,
        drift: realized_alpha.sub_spec(expected),
        realized_return,
        floor,
        floor_breach: floor is Some && realized_return.lt_spec(
            floor->0.sub_spec(cfg.floor_margin_pct),
        ),
    }
}

fn anchor(expect: &Json) -> (r: Json)
    ensures
        r@ == anchor_spec(expect@),
{
    if expect.has_truthy("anchor_days") {
        return expect.get_copy("anchor_days");
    }
    if expect.has_truthy("window_days") {
        return expect.get_copy("window_days");
    }
    Json::Int(28)
}

fn measure(
    now: Double,
    expect: &Json,
    st: &Json,
    book: &Book,
    px: &Json,
    cfg: DivergenceConfig,
) -> (r: Measures)
    ensures
        r == measures_spec(now, expect@, st@, book.held@, book.stable, px@, cfg),
{
    let elapsed = now.minus(json::read_or_zero(st.get("epoch"))).over(Double::of_int(86400));
    let held0 = match st.get("held0") {
        Some(v) => v.copy(),
        None => Json::obj(),
    };
    let px0 = match st.get("px0") {
        Some(v) => v.copy(),
        None => Json::obj(),
    };
    let stable0 = json::read_or_zero(st.get("stable0"));
    let bh_now = value(&held0, stable0, px);
    let strat_now = value(&book.held, book.stable, px);
    let base_val = value(&held0, stable0, &px0);
    let realized_alpha = gain(strat_now, bh_now);
    let full_alpha = json::read_or_zero(expect.get("alpha_pct"));
    let anchor_days = match anchor(expect).to_float() {
        Some(f) => f,
        None => Double::of_int(28),
    };
    let ratio = elapsed.over(anchor_days);
    let frac = if ratio.lt(Double::of_int(1)) {
        ratio
    } else {
        Double::of_int(1)
    };
    let expected = full_alpha.times(frac);
    let realized_return = gain(strat_now, base_val);
    let floor = match expect.get("strat_return_floor_pct") {
        Some(f) => f.to_float(),
        None => None,
    };
    let floor_breach: bool = match floor {
        Some(f) => realized_return.lt(f.minus(cfg.floor_margin_pct)),
        None => false,
    };
    Measures {
        elapsed,
        bh_now,
        strat_now,
        base_val,
        realized_alpha,
        full_alpha,
        frac,
        expected,
        drift: realized_alpha.minus(expected),
        realized_return,
        floor,
        floor_breach,
    }
}

// ------------------------------------------------------------------ the texts
/// The floor as the messages write it.
pub open spec fn floor_words(floor: Option<Double>) -> Seq<char> {
    match floor {
        None => "n/a"@,
        Some(f) => pyfmt::signed_spec(f, 2) + "%"@,
    }
}

fn floor_text(floor: Option<Double>) -> (r: String)
    ensures
        r@ == floor_words(floor),
{
    match floor {
        None => text::owned("n/a"),
        Some(f) => {
            let mut r = pyfmt::signed(f, 2);
            r.push_str("%");
            r
        },
    }
}

/// The numbers of a run in one line.
pub open spec fn summary_line_text(m: Measures, anchor: Seq<char>, regime: Seq<char>) -> Seq<char> {
    "realized alpha "@
        + pyfmt::signed_spec(m.realized_alpha, 2)
        + "% vs expected "@
        + pyfmt::signed_spec(m.expected, 2)
        + "% ("@
        + pyfmt::signed_spec(m.full_alpha, 1)
        + "% "@
        + anchor
        + "d prorated x"@
        + pyfmt::fixed_spec(m.frac, 2)
        + ", drift "@
        + pyfmt::signed_spec(m.drift, 2)
        + "pp) | realized return "@
        + pyfmt::signed_spec(m.realized_return, 2)
        + "% vs floor "@
        + floor_words(m.floor)
        + " over "@
        + pyfmt::fixed_spec(m.elapsed, 0)
        + "d | regime "@
        + regime
}

fn summary_line(m: Measures, anchor: &str, regime: &str) -> (r: String)
    ensures
        r@ == summary_line_text(m, anchor@, regime@),
{
    let mut r = text::owned("realized alpha ");
    r.push_str(pyfmt::signed(m.realized_alpha, 2).as_str());
    r.push_str("% vs expected ");
    r.push_str(pyfmt::signed(m.expected, 2).as_str());
    r.push_str("% (");
    r.push_str(pyfmt::signed(m.full_alpha, 1).as_str());
    r.push_str("% ");
    r.push_str(anchor);
    r.push_str("d prorated x");
    r.push_str(pyfmt::fixed(m.frac, 2).as_str());
    r.push_str(", drift ");
    r.push_str(pyfmt::signed(m.drift, 2).as_str());
    r.push_str("pp) | realized return ");
    r.push_str(pyfmt::signed(m.realized_return, 2).as_str());
    r.push_str("% vs floor ");
    r.push_str(floor_text(m.floor).as_str());
    r.push_str(" over ");
    r.push_str(pyfmt::fixed(m.elapsed, 0).as_str());
    r.push_str("d | regime ");
    r.push_str(regime);
    r
}

/// The first guard, tripped.
pub open spec fn edge_lost_text(m: Measures, cfg: DivergenceConfig) -> Seq<char> {
    "EDGE LOST: alpha "@
        + pyfmt::signed_spec(m.realized_alpha, 2)
        + "% is "@
        + pyfmt::fixed_spec(m.drift.neg_spec(), 1)
        + "pp under the backtested "@
        + pyfmt::signed_spec(m.expected, 2)
        + "% (band "@
        + pyfmt::fixed_spec(cfg.drift_band_pct, 0)
        + "pp)."@
}

fn edge_lost(m: Measures, cfg: DivergenceConfig) -> (r: String)
    ensures
        r@ == edge_lost_text(m, cfg),
{
    let mut r = text::owned("EDGE LOST: alpha ");
    r.push_str(pyfmt::signed(m.realized_alpha, 2).as_str());
    r.push_str("% is ");
    r.push_str(pyfmt::fixed(m.drift.negated(), 1).as_str());
    r.push_str("pp under the backtested ");
    r.push_str(pyfmt::signed(m.expected, 2).as_str());
    r.push_str("% (band ");
    r.push_str(pyfmt::fixed(cfg.drift_band_pct, 0).as_str());
    r.push_str("pp).");
    r
}

/// The second guard, tripped.
pub open spec fn drawdown_text(m: Measures, floor: Double, cfg: DivergenceConfig) -> Seq<char> {
    "DRAWDOWN BEYOND BACKTEST: live return "@
        + pyfmt::signed_spec(m.realized_return, 2)
        + "% is below the worst backtested window ("@
        + pyfmt::signed_spec(floor, 2)
        + "%) by more than "@
        + pyfmt::fixed_spec(cfg.floor_margin_pct, 0)
        + "pp. This is the surprise the floor guard exists to catch early."@
}

fn drawdown(m: Measures, floor: Double, cfg: DivergenceConfig) -> (r: String)
    ensures
        r@ == drawdown_text(m, floor, cfg),
{
    let mut r = text::owned("DRAWDOWN BEYOND BACKTEST: live return ");
    r.push_str(pyfmt::signed(m.realized_return, 2).as_str());
    r.push_str("% is below the worst backtested window (");
    r.push_str(pyfmt::signed(floor, 2).as_str());
    r.push_str("%) by more than ");
    r.push_str(pyfmt::fixed(cfg.floor_margin_pct, 0).as_str());
    r.push_str("pp. This is the surprise the floor guard exists to catch early.");
    r
}

/// The mail.
pub open spec fn mail_body_text(m: Measures, alarms: Seq<char>, line: Seq<char>, regime: Seq<char>, halt_file: Seq<char>) -> Seq<char> {
    "Live crypto strategy has tripped a steering guard.\n\n"@
        + alarms
        + "\n\n"@
        + line
        + "\n\n  buy & hold (baseline book, valued now): $"@
        + pyfmt::comma_spec(m.bh_now, 2)
        + "\n  strategy   (live book, valued now):     $"@
        + pyfmt::comma_spec(m.strat_now, 2)
        + "\n  baseline book value (at baseline):      $"@
        + pyfmt::comma_spec(m.base_val, 2)
        + "\n  expected alpha / floor (last backtest): "@
        + pyfmt::signed_spec(m.expected, 2)
        + "% / "@
        + floor_words(m.floor)
        + "\n\nSteering action: re-run the backtest and investigate -- regime shift, slippage, or overfit bands. Current regime label: "@
        + text::upper_case(regime)
        + ". If BULL, the ladder lagging buy & hold is the EXPECTED failure mode -- check trailing on running coins rather than the bands. Consider `touch "@
        + halt_file
        + "` if the drawdown guard tripped. Baseline set "@
        + pyfmt::fixed_spec(m.elapsed, 0)
        + "d ago; re-baselines next monthly run.\n\n(Read-only check. Deposits/withdrawals since baseline would skew these numbers.)"@
}

fn mail_body(m: Measures, alarms: &str, line: &str, regime: &str, halt_file: &str) -> (r: String)
    ensures
        r@ == mail_body_text(m, alarms@, line@, regime@, halt_file@),
{
    let mut r = text::owned("Live crypto strategy has tripped a steering guard.\n\n");
    r.push_str(alarms);
    r.push_str("\n\n");
    r.push_str(line);
    r.push_str("\n\n  buy & hold (baseline book, valued now): $");
    r.push_str(pyfmt::comma(m.bh_now, 2).as_str());
    r.push_str("\n  strategy   (live book, valued now):     $");
    r.push_str(pyfmt::comma(m.strat_now, 2).as_str());
    r.push_str("\n  baseline book value (at baseline):      $");
    r.push_str(pyfmt::comma(m.base_val, 2).as_str());
    r.push_str("\n  expected alpha / floor (last backtest): ");
    r.push_str(pyfmt::signed(m.expected, 2).as_str());
    r.push_str("% / ");
    r.push_str(floor_text(m.floor).as_str());
    r.push_str("\n\nSteering action: re-run the backtest and investigate -- regime shift, slippage, or overfit bands. Current regime label: ");
    r.push_str(text::uppercase(regime).as_str());
    r.push_str(". If BULL, the ladder lagging buy & hold is the EXPECTED failure mode -- check trailing on running coins rather than the bands. Consider `touch ");
    r.push_str(halt_file);
    r.push_str("` if the drawdown guard tripped. Baseline set ");
    r.push_str(pyfmt::fixed(m.elapsed, 0).as_str());
    r.push_str("d ago; re-baselines next monthly run.\n\n(Read-only check. Deposits/withdrawals since baseline would skew these numbers.)");
    r
}

/// A run before anything is judged.
pub open spec fn too_early_text(elapsed: Double, min_days: Double) -> Seq<char> {
    "Only "@
        + pyfmt::fixed_spec(elapsed, 1)
        + "d since baseline (< "@
        + pyfmt::fixed_spec(min_days, 0)
        + "d) -- too early to judge."@
}

fn too_early(elapsed: Double, min_days: Double) -> (r: String)
    ensures
        r@ == too_early_text(elapsed, min_days),
{
    let mut r = text::owned("Only ");
    r.push_str(pyfmt::fixed(elapsed, 1).as_str());
    r.push_str("d since baseline (< ");
    r.push_str(pyfmt::fixed(min_days, 0).as_str());
    r.push_str("d) -- too early to judge.");
    r
}

/// A run that takes the baseline.
pub open spec fn baselined_text(epoch: Seq<char>) -> Seq<char> {
    "Baselined divergence state to current book (expect_epoch="@
        + epoch
        + ")."@
}

fn baselined(epoch: &str) -> (r: String)
    ensures
        r@ == baselined_text(epoch@),
{
    let mut r = text::owned("Baselined divergence state to current book (expect_epoch=");
    r.push_str(epoch);
    r.push_str(").");
    r
}

/// A run without a book or prices.
pub open spec fn fetch_failed_text(e: Seq<char>) -> Seq<char> {
    "Live book/price fetch failed: "@
        + e
}

fn fetch_failed(e: &str) -> (r: String)
    ensures
        r@ == fetch_failed_text(e@),
{
    let mut r = text::owned("Live book/price fetch failed: ");
    r.push_str(e);
    r
}

/// A run whose guards have all been mailed.
pub open spec fn already_sent_text(kinds: Seq<char>) -> Seq<char> {
    "divergence alert already sent for this baseline ("@
        + kinds
        + "); not sending again."@
}

fn already_sent(kinds: &str) -> (r: String)
    ensures
        r@ == already_sent_text(kinds@),
{
    let mut r = text::owned("divergence alert already sent for this baseline (");
    r.push_str(kinds);
    r.push_str("); not sending again.");
    r
}

/// What a dry run prints in place of a mail.
pub open spec fn would_send_text(subject: Seq<char>, body: Seq<char>) -> Seq<char> {
    "--- Would send alert ---\nSubject: "@
        + subject
        + "\n"@
        + body
}

fn would_send(subject: &str, body: &str) -> (r: String)
    ensures
        r@ == would_send_text(subject@, body@),
{
    let mut r = text::owned("--- Would send alert ---\nSubject: ");
    r.push_str(subject);
    r.push_str("\n");
    r.push_str(body);
    r
}

// ------------------------------------------------------------------ the guards
/// The guards that are tripped, by name and with what the mail says of them.
pub open spec fn alarms_spec(m: Measures, cfg: DivergenceConfig) -> Seq<(Seq<char>, Seq<char>)> {
    let a = if m.drift.le_spec(cfg.drift_band_pct.neg_spec()) {
        seq![("edge_lost"@, edge_lost_text(m, cfg))]
    } else {
        Seq::empty()
    };
    if m.floor_breach {
        a.push(("drawdown"@, drawdown_text(m, m.floor->0, cfg)))
    } else {
        a
    }
}

/// The names of the guards that are tripped.
pub open spec fn kinds_spec(m: Measures, cfg: DivergenceConfig) -> Seq<Seq<char>> {
    Seq::new(alarms_spec(m, cfg).len(), |i: int| alarms_spec(m, cfg)[i].0)
}

/// The list of tripped guards in the mail.
pub open spec fn bullets(m: Measures, cfg: DivergenceConfig) -> Seq<char> {
    text::join_of(
        Seq::new(alarms_spec(m, cfg).len(), |i: int| "- "@ + alarms_spec(m, cfg)[i].1),
        "\n"@,
    )
}

/// The guards that `st` says were mailed.
pub open spec fn alerted(st: Doc) -> Seq<Seq<char>> {
    let a = json::or_empty(st.get("alerted"@)).items();
    Seq::new(a.len(), |i: int| a[i].py_str())
}

/// The first `n` of `before` that are in `kinds`.
pub open spec fn still_spec(before: Seq<Seq<char>>, kinds: Seq<Seq<char>>, n: nat) -> Seq<Seq<char>>
    decreases n,
{
    if n == 0 {
        Seq::empty()
    } else if kinds.contains(before[n - 1]) {
        still_spec(before, kinds, (n - 1) as nat).push(before[n - 1])
    } else {
        still_spec(before, kinds, (n - 1) as nat)
    }
}

/// The state with the guards in `list` as mailed.
pub open spec fn with_alerted(st: Doc, list: Seq<Seq<char>>) -> Doc {
    if list.len() == 0 {
        st.removed("alerted"@)
    } else {
        st.set("alerted"@, Doc::Arr(Seq::new(list.len(), |i: int| Doc::Str(list[i]))))
    }
}

/// Whether a guard is tripped that was not mailed yet.
pub open spec fn fresh(kinds: Seq<Seq<char>>, before: Seq<Seq<char>>) -> bool {
    exists|i: int| 0 <= i < kinds.len() && !before.contains(#[trigger] kinds[i])
}

/// The state to write when no mail is sent: only where a guard has cleared.
pub open spec fn quiet_state(st: Doc, kinds: Seq<Seq<char>>, dry_run: bool) -> Option<Doc> {
    let before = alerted(st);
    let still = still_spec(before, kinds, before.len());
    if dry_run || still == before {
        None
    } else {
        Some(with_alerted(st, still))
    }
}

pub open spec fn subject_spec(m: Measures) -> Seq<char> {
    if m.floor_breach {
        "Crypto strategy: DRAWDOWN beyond backtest"@
    } else {
        "Crypto strategy drift: live below backtest"@
    }
}

/// What a run with a baseline, old enough and worth something, decides.
pub open spec fn judged(
    m: Measures,
    expect: Doc,
    st: Doc,
    regime: Seq<char>,
    dry_run: bool,
    cfg: DivergenceConfig,
    halt_file: Seq<char>,
) -> Decision {
    let line = summary_line_text(m, anchor_spec(expect).py_str(), regime);
    let kinds = kinds_spec(m, cfg);
    let none = Seq::<Seq<char>>::empty();
    let body = mail_body_text(m, bullets(m, cfg), line, regime, halt_file);
    if kinds.len() == 0 {
        Decision::Done {
            code: 0,
            stdout: seq![line],
            stderr: none,
            state: quiet_state(st, kinds, dry_run),
        }
    } else if !fresh(kinds, alerted(st)) {
        Decision::Done {
            code: 0,
            stdout: seq![line].push(already_sent_text(text::join_of(kinds, ", "@))),
            stderr: none,
            state: quiet_state(st, kinds, dry_run),
        }
    } else if dry_run {
        Decision::Done {
            code: 0,
            stdout: seq![line].push(would_send_text(subject_spec(m), body)),
            stderr: none,
            state: None,
        }
    } else {
        Decision::Send {
            stdout: seq![line],
            subject: subject_spec(m),
            body,
            state: with_alerted(st, kinds),
        }
    }
}

/// Whether the baseline is to be taken: none yet, one for another expectation, or one
/// without prices.
pub open spec fn rebases(epoch: Doc, state: Option<Doc>) -> bool {
    match state {
        None => true,
        Some(st) => !st.get_or_null("expect_epoch"@).py_eq(epoch) || st.get("px0"@) is None,
    }
}

/// The baseline taken from the current book.
pub open spec fn baseline(now: Double, epoch: Doc, held: Doc, stable: Double, px: Doc) -> Doc {
    Doc::obj().with("epoch"@, Doc::Int(now.cast_spec(i64::MIN as int, i64::MAX as int) as i64)).with(
        "expect_epoch"@,
        epoch,
    ).with("held0"@, held).with("stable0"@, Doc::Float(stable)).with("px0"@, px)
}

/// A run that stops with an error.
pub open spec fn failed(line: Seq<char>) -> Decision {
    Decision::Done { code: 1, stdout: Seq::empty(), stderr: seq![line], state: None }
}

/// What a run decides once book and prices were read.
pub open spec fn decided(
    now: Double,
    expect: Doc,
    state: Option<Doc>,
    held: Doc,
    stable: Double,
    px: Doc,
    regime: Seq<char>,
    dry_run: bool,
    cfg: DivergenceConfig,
    halt_file: Seq<char>,
) -> Decision {
    let none = Seq::<Seq<char>>::empty();
    match expect.get("epoch"@) {
        None => failed("backtest expectation has no `epoch`"@),
        Some(epoch) => if rebases(epoch, state) {
            Decision::Done {
                code: 0,
                stdout: seq![baselined_text(epoch.py_str())],
                stderr: none,
                state: Some(baseline(now, epoch, held, stable, px)),
            }
        } else {
            let st = state->0;
            let m = measures_spec(now, expect, st, held, stable, px, cfg);
            if m.elapsed.lt_spec(cfg.min_days) {
                Decision::Done {
                    code: 0,
                    stdout: seq![too_early_text(m.elapsed, cfg.min_days)],
                    stderr: none,
                    state: None,
                }
            } else if m.bh_now.le_spec(Double::zero_spec()) || m.base_val.le_spec(
                Double::zero_spec(),
            ) {
                failed("Baseline book value is zero -- cannot compute returns."@)
            } else {
                judged(m, expect, st, regime, dry_run, cfg, halt_file)
            }
        },
    }
}

/// What a run decides.
pub open spec fn plan_spec(inp: Input) -> Decision {
    match (inp.book, inp.prices) {
        (Ok(b), Ok(p)) => decided(
            inp.now,
            inp.expect@,
            json::opt_doc(inp.state),
            b.held@,
            b.stable,
            p@,
            inp.regime@,
            inp.dry_run,
            inp.cfg,
            inp.hints.halt_file@,
        ),
        (Err(e), _) => failed(fetch_failed_text(e@)),
        (_, Err(e)) => failed(fetch_failed_text(e@)),
    }
}

fn fail(line: String) -> (r: Plan)
    ensures
        r@ == failed(line@),
{
    Plan::Done { code: 1, stdout: text::no_lines(), stderr: text::single(line), state: None }
}

fn already(st: &Json) -> (r: Vec<String>)
    ensures
        text::views(r@) == alerted(st@),
{
    let mut v: Vec<String> = Vec::new();
    match st.get("alerted") {
        Some(j) => {
            if let Json::Arr(a) = j {
                let mut i: usize = 0;
                while i < a.len()
                    invariant
                        i <= a@.len(),
                        j == Json::Arr(*a),
                        v@.len() == i,
                        forall|x: int| 0 <= x < i ==> v@[x]@ == j@.items()[x].py_str(),
                    decreases a@.len() - i,
                {
                    assert(j@.items()[i as int] == a@[i as int]@);
                    v.push(a[i].py_str());
                    i = i + 1;
                }
            }
        },
        None => {},
    }
    assert(text::views(v@) =~= alerted(st@));
    v
}

fn mark_alerted(st: &Json, list: &Vec<String>) -> (r: Json)
    ensures
        r@ == with_alerted(st@, text::views(list@)),
{
    let mut s = st.copy();
    if list.len() == 0 {
        s.remove("alerted");
        return s;
    }
    let mut v: Vec<Json> = Vec::new();
    let mut i: usize = 0;
    while i < list.len()
        invariant
            i <= list@.len(),
            v@.len() == i,
            forall|x: int| 0 <= x < i ==> v@[x]@ == Doc::Str(list@[x]@),
        decreases list@.len() - i,
    {
        v.push(Json::Str(list[i].clone()));
        i = i + 1;
    }
    let a = Json::list(v);
    assert(a@->Arr_0 =~= Seq::new(list@.len(), |i: int| Doc::Str(text::views(list@)[i])));
    s.set("alerted", a);
    s
}

fn quiet(st: &Json, kinds: &Vec<String>, dry_run: bool) -> (r: Option<Json>)
    ensures
        (match r {
            Some(j) => Some(j@),
            None => None,
        }) == quiet_state(st@, text::views(kinds@), dry_run),
{
    let before = already(st);
    let mut still: Vec<String> = Vec::new();
    let mut i: usize = 0;
    while i < before.len()
        invariant
            i <= before@.len(),
            text::views(still@) == still_spec(
                text::views(before@),
                text::views(kinds@),
                i as nat,
            ),
        decreases before@.len() - i,
    {
        assert(text::views(before@)[i as int] == before@[i as int]@);
        if text::listed(kinds, before[i].as_str()) {
            let s = before[i].clone();
            proof {
                text::lemma_views_push(still@, s);
            }
            still.push(s);
        }
        i = i + 1;
    }
    if dry_run || text::same_list(&still, &before) {
        None
    } else {
        Some(mark_alerted(st, &still))
    }
}

/// The names of the tripped guards and the list of them in the mail.
fn alarms(m: Measures, cfg: DivergenceConfig) -> (r: (Vec<String>, String))
    requires
        m.floor_breach ==> m.floor is Some,
    ensures
        text::views(r.0@) == kinds_spec(m, cfg),
        r.1@ == bullets(m, cfg),
{
    let mut kinds: Vec<String> = Vec::new();
    let mut lines: Vec<String> = Vec::new();
    let ghost all = alarms_spec(m, cfg);
    if m.drift.le(cfg.drift_band_pct.negated()) {
        kinds.push(text::owned("edge_lost"));
        lines.push(text::cat("- ", edge_lost(m, cfg).as_str()));
    }
    if m.floor_breach {
        let f = match m.floor {
            Some(f) => f,
            None => Double::zero(),
        };
        kinds.push(text::owned("drawdown"));
        lines.push(text::cat("- ", drawdown(m, f, cfg).as_str()));
    }
    assert(text::views(kinds@) =~= kinds_spec(m, cfg));
    assert(text::views(lines@) =~= Seq::new(all.len(), |i: int| "- "@ + all[i].1));
    let list = text::join(&lines, "\n");
    (kinds, list)
}

fn judge(
    m: Measures,
    expect: &Json,
    st: &Json,
    regime: &str,
    dry_run: bool,
    cfg: DivergenceConfig,
    halt_file: &str,
) -> (r: Plan)
    requires
        m.floor_breach ==> m.floor is Some,
    ensures
        r@ == judged(m, expect@, st@, regime@, dry_run, cfg, halt_file@),
{
    let line = summary_line(m, anchor(expect).py_str().as_str(), regime);
    let (kinds, list) = alarms(m, cfg);
    let mut stdout = text::single(line.clone());
    if kinds.len() == 0 {
        return Plan::Done { code: 0, stdout, stderr: text::no_lines(), state: quiet(st, &kinds, dry_run) };
    }
    let before = already(st);
    let mut unseen: bool = false;
    let mut i: usize = 0;
    while i < kinds.len()
        invariant
            i <= kinds@.len(),
            unseen == exists|x: int|
                0 <= x < i && !text::views(before@).contains(#[trigger] text::views(kinds@)[x]),
        decreases kinds@.len() - i,
    {
        let seen: bool = text::listed(&before, kinds[i].as_str());
        assert(text::views(kinds@)[i as int] == kinds@[i as int]@);
        unseen = unseen || !seen;
        i = i + 1;
    }
    if !unseen {
        let s = already_sent(text::join(&kinds, ", ").as_str());
        proof {
            text::lemma_views_push(stdout@, s);
        }
        stdout.push(s);
        return Plan::Done { code: 0, stdout, stderr: text::no_lines(), state: quiet(st, &kinds, dry_run) };
    }
    let body = mail_body(m, list.as_str(), line.as_str(), regime, halt_file);
    let subject = if m.floor_breach {
        text::owned("Crypto strategy: DRAWDOWN beyond backtest")
    } else {
        text::owned("Crypto strategy drift: live below backtest")
    };
    if dry_run {
        let s = would_send(subject.as_str(), body.as_str());
        proof {
            text::lemma_views_push(stdout@, s);
        }
        stdout.push(s);
        return Plan::Done { code: 0, stdout, stderr: text::no_lines(), state: None };
    }
    let state = mark_alerted(st, &kinds);
    Plan::Send { stdout, subject, body, state }
}

/// Decide a run once the expectation file exists and has been parsed.
pub fn plan(inp: Input) -> (r: Plan)
    ensures
        r@ == plan_spec(inp),
{
    let book = match inp.book {
        Ok(b) => b,
        Err(e) => {
            return fail(fetch_failed(e.as_str()));
        },
    };
    let px = match inp.prices {
        Ok(p) => p,
        Err(e) => {
            return fail(fetch_failed(e.as_str()));
        },
    };
    let epoch = match inp.expect.get("epoch") {
        Some(e) => e.copy(),
        None => {
            return fail(text::owned("backtest expectation has no `epoch`"));
        },
    };
    let rebase: bool = match inp.state {
        None => true,
        Some(st) => {
            let had = st.get_copy("expect_epoch");
            !had.py_eq(&epoch) || !st.contains_key("px0")
        },
    };
    if rebase {
        let st = Json::obj().with("epoch", Json::Int(inp.now.to_i64())).with(
            "expect_epoch",
            epoch.copy(),
        ).with("held0", book.held).with("stable0", Json::Float(book.stable)).with("px0", px);
        let line = baselined(epoch.py_str().as_str());
        return Plan::Done { code: 0, stdout: text::single(line), stderr: text::no_lines(), state: Some(st) };
    }
    match inp.state {
        None => fail(String::new()),
        Some(st) => {
            let m = measure(inp.now, inp.expect, st, &book, &px, inp.cfg);
            if m.elapsed.lt(inp.cfg.min_days) {
                let line = too_early(m.elapsed, inp.cfg.min_days);
                return Plan::Done { code: 0, stdout: text::single(line), stderr: text::no_lines(), state: None };
            }
            if m.bh_now.le(Double::zero()) || m.base_val.le(Double::zero()) {
                return fail(
                    text::owned("Baseline book value is zero -- cannot compute returns."),
                );
            }
            judge(
                m,
                inp.expect,
                st,
                inp.regime.as_str(),
                inp.dry_run,
                inp.cfg,
                inp.hints.halt_file.as_str(),
            )
        },
    }
}

// ------------------------------------------------------------------ laws
/// The guards that trip in a run.
pub open spec fn tripped(inp: Input) -> Seq<Seq<char>> {
    match (inp.book, inp.prices, inp.state) {
        (Ok(b), Ok(p), Some(st)) => kinds_spec(
            measures_spec(inp.now, inp.expect@, st@, b.held@, b.stable, p@, inp.cfg),
            inp.cfg,
        ),
        _ => Seq::empty(),
    }
}

/// What a run that mails writes.
proof fn lemma_sent(inp: Input)
    requires
        plan_spec(inp) is Send,
    ensures
        inp.state is Some,
        inp.state->0@ is Obj,
        tripped(inp).len() > 0,
        plan_spec(inp)->Send_state == with_alerted(inp.state->0@, tripped(inp)),
{
}

/// Guards that are marked as mailed do not mail again.
proof fn lemma_not_again(
    m: Measures,
    st: Doc,
    kinds: Seq<Seq<char>>,
    expect: Doc,
    regime: Seq<char>,
    dry_run: bool,
    cfg: DivergenceConfig,
    halt_file: Seq<char>,
)
    requires
        st is Obj,
        kinds.len() > 0,
        forall|i: int|
            0 <= i < kinds_spec(m, cfg).len() ==> kinds.contains(#[trigger] kinds_spec(m, cfg)[i]),
    ensures
        judged(m, expect, with_alerted(st, kinds), regime, dry_run, cfg, halt_file) is Done,
{
    let marked = with_alerted(st, kinds);
    json::law_set_then_get(
        st,
        "alerted"@,
        Doc::Arr(Seq::new(kinds.len(), |i: int| Doc::Str(kinds[i]))),
        "alerted"@,
    );
    assert(alerted(marked) =~= kinds);
}

/// A run on a state with guards marked as mailed is done where no other guard trips.
proof fn lemma_later(inp: Input, st: Doc, kinds: Seq<Seq<char>>)
    requires
        st is Obj,
        kinds.len() > 0,
        json::opt_doc(inp.state) == Some(with_alerted(st, kinds)),
        forall|i: int| 0 <= i < tripped(inp).len() ==> kinds.contains(#[trigger] tripped(inp)[i]),
    ensures
        plan_spec(inp) is Done,
{
    if inp.book is Ok && inp.prices is Ok {
        let b = inp.book->Ok_0;
        let m = measures_spec(
            inp.now,
            inp.expect@,
            inp.state->0@,
            b.held@,
            b.stable,
            inp.prices->Ok_0@,
            inp.cfg,
        );
        assert(tripped(inp) == kinds_spec(m, inp.cfg));
        lemma_not_again(
            m,
            st,
            kinds,
            inp.expect@,
            inp.regime@,
            inp.dry_run,
            inp.cfg,
            inp.hints.halt_file@,
        );
    }
}

/// Once a mail has gone out and its state is written, no later run on that state mails again
/// while no other guard trips, whatever the book and the prices.
pub proof fn law_mails_once_per_baseline(first: Input, later: Input)
    requires
        plan_spec(first) matches Decision::Send { state, .. } && json::opt_doc(later.state) == Some(
            state,
        ),
        forall|i: int|
            0 <= i < tripped(later).len() ==> tripped(first).contains(#[trigger] tripped(later)[i]),
    ensures
        plan_spec(later) is Done,
{
    lemma_sent(first);
    lemma_later(later, first.state->0@, tripped(first));
}

/// A guard that clears is forgotten, so that it can mail again.
pub proof fn law_cleared_guard_rearms(st: Doc, kinds: Seq<Seq<char>>, cleared: Seq<char>)
    requires
        st is Obj,
        alerted(st).contains(cleared),
        !kinds.contains(cleared),
    ensures
        quiet_state(st, kinds, false) is Some,
        !still_spec(alerted(st), kinds, alerted(st).len()).contains(cleared),
{
    lemma_still_in(alerted(st), kinds, alerted(st).len());
    let still = still_spec(alerted(st), kinds, alerted(st).len());
    if still.contains(cleared) {
        let i = choose|i: int| 0 <= i < still.len() && still[i] == cleared;
        assert(kinds.contains(still[i]));
    }
}

proof fn lemma_still_in(before: Seq<Seq<char>>, kinds: Seq<Seq<char>>, n: nat)
    ensures
        forall|i: int|
            0 <= i < still_spec(before, kinds, n).len() ==> kinds.contains(
                #[trigger] still_spec(before, kinds, n)[i],
            ),
    decreases n,
{
    if n > 0 {
        lemma_still_in(before, kinds, (n - 1) as nat);
        let less = still_spec(before, kinds, (n - 1) as nat);
        let all = still_spec(before, kinds, n);
        assert forall|i: int| 0 <= i < all.len() implies kinds.contains(#[trigger] all[i]) by {
            if i < less.len() {
                assert(all[i] == less[i]);
            }
        }
    }
}

/// The strategy has lost to holding exactly where its book is worth less, and has lost money exactly
/// where it is worth less than the baseline; the drift is below zero exactly where it made less than
/// was expected of it by now.
pub proof fn law_a_loss_is_below_zero(
    now: Double,
    expect: Doc,
    st: Doc,
    held: Doc,
    stable: Double,
    px: Doc,
    cfg: DivergenceConfig,
)
    requires
        ({
            let m = measures_spec(now, expect, st, held, stable, px, cfg);
            &&& m.strat_now.finite() && m.bh_now.finite() && m.base_val.finite()
            &&& m.strat_now.amount() >= 0 && m.bh_now.amount() > 0 && m.base_val.amount() > 0
            &&& m.strat_now.div_spec(m.bh_now).finite() && m.strat_now.div_spec(
                m.base_val,
            ).finite()
            &&& m.expected.finite() && m.realized_alpha.finite()
        }),
    ensures
        ({
            let m = measures_spec(now, expect, st, held, stable, px, cfg);
            &&& m.realized_alpha.amount() < 0 <==> m.strat_now.amount() < m.bh_now.amount()
            &&& m.strat_now.amount() == m.bh_now.amount() ==> m.realized_alpha.amount() == 0
            &&& m.realized_return.amount() < 0 <==> m.strat_now.amount() < m.base_val.amount()
            &&& m.strat_now.amount() == m.base_val.amount() ==> m.realized_return.amount() == 0
            &&& m.drift.amount() < 0 <==> m.realized_alpha.amount() < m.expected.amount()
            &&& m.drift.amount() > 0 <==> m.realized_alpha.amount() > m.expected.amount()
            &&& m.drift.finite() ==> rounding::grain() * rounding::size(
                m.drift.amount() + m.expected.amount() - m.realized_alpha.amount(),
            ) <= rounding::size(m.drift.amount()) + rounding::least()
        }),
{
    let m = measures_spec(now, expect, st, held, stable, px, cfg);
    rounding::lemma_change(m.strat_now, m.bh_now);
    rounding::lemma_change(m.strat_now, m.base_val);
    rounding::lemma_sub_sign(m.realized_alpha, m.expected);
    if m.drift.finite() {
        rounding::lemma_sub_error(m.realized_alpha, m.expected);
    }
}

/// What is expected grows with the days and ends at all of the backtest's edge: nothing on the day
/// of the baseline, and all of it once its window is over.
pub proof fn law_the_whole_edge_is_due_after_the_window(
    now: Double,
    expect: Doc,
    st: Doc,
    held: Doc,
    stable: Double,
    px: Doc,
    cfg: DivergenceConfig,
    window: Double,
    since: Double,
    days: Double,
)
    requires
        anchor_spec(expect).to_float() == Some(window),
        window.finite(),
        window.amount() > 0,
        now.finite(),
        json::float_or_zero(st.get("epoch"@)).finite(),
        since.finite(),
        days.finite(),
        days.amount() >= 0,
        since.amount() == now.amount() - json::float_or_zero(st.get("epoch"@)).amount(),
        since.amount() == 86400 * days.amount(),
        json::float_or_zero(expect.get("alpha_pct"@)).finite(),
    ensures
        ({
            let m = measures_spec(now, expect, st, held, stable, px, cfg);
            let full = json::float_or_zero(expect.get("alpha_pct"@));
            &&& m.elapsed.amount() == days.amount()
            &&& 0 <= m.frac.amount() <= crate::double::unit()
            &&& days.amount() >= window.amount() ==> m.expected.amount() == full.amount()
            &&& days.amount() == 0 ==> m.expected.amount() == 0
            &&& days.amount() < window.amount() ==> m.frac.amount() < crate::double::unit()
        }),
{
    let full = json::float_or_zero(expect.get("alpha_pct"@));
    let m = measures_spec(now, expect, st, held, stable, px, cfg);
    let one = Double::int_spec(1);
    let zero = Double::zero_spec();
    crate::double::lemma_scaled_zero();
    vstd::arithmetic::power2::lemma_pow2_pos(1074);
    rounding::lemma_one_is_exact();
    rounding::lemma_exact_difference(now, json::float_or_zero(st.get("epoch"@)), since);
    rounding::lemma_days(now.sub_spec(json::float_or_zero(st.get("epoch"@))), days);
    let e = m.elapsed;
    rounding::lemma_nothing_over(window);
    rounding::lemma_div_order(zero, e, window);
    if days.amount() >= window.amount() {
        rounding::lemma_whole_is_not_less(e, window);
        rounding::lemma_times_one(full);
    } else {
        rounding::lemma_part_is_less(e, window);
    }
    if days.amount() == 0 {
        rounding::lemma_div_order(e, zero, window);
        assert(full.amount() * m.frac.amount() == 0 * crate::double::unit()) by (nonlinear_arith)
            requires
                m.frac.amount() == 0,
        ;
        rounding::lemma_exact_product(full, m.frac, zero);
    }
}

/// A drift of the band or more below what is expected trips its guard, and one above it does not.
pub proof fn law_a_drift_below_the_band_is_told(m: Measures, cfg: DivergenceConfig)
    requires
        m.drift.finite(),
        cfg.drift_band_pct.finite(),
    ensures
        alarms_spec(m, cfg).len() > 0 <==> m.drift.amount() + cfg.drift_band_pct.amount() <= 0
            || m.floor_breach,
{
}

/// What each holding is worth is its amount at its price, but for rounding.
pub proof fn law_a_holding_is_worth_its_price(
    held: Doc,
    px: Seq<(Seq<char>, Doc)>,
    n: nat,
    i: int,
)
    requires
        0 <= i < n <= px.len(),
        json::float_or_zero(held.get(px[i].0)).finite(),
        json::float_or_zero(Some(px[i].1)).finite(),
        worths(held, px, n)[i].finite(),
    ensures
        worths(held, px, n).len() == n,
        rounding::grain() * rounding::size(
            worths(held, px, n)[i].amount() * crate::double::unit() - json::float_or_zero(
                held.get(px[i].0),
            ).amount() * json::float_or_zero(Some(px[i].1)).amount(),
        ) <= crate::double::unit() * (rounding::size(worths(held, px, n)[i].amount())
            + rounding::least()),
    decreases n,
{
    lemma_worths(held, px, n, i);
    rounding::lemma_mul_error(
        json::float_or_zero(held.get(px[i].0)),
        json::float_or_zero(Some(px[i].1)),
    );
}

proof fn lemma_worths(held: Doc, px: Seq<(Seq<char>, Doc)>, n: nat, i: int)
    requires
        0 <= i < n <= px.len(),
    ensures
        worths(held, px, n).len() == n,
        worths(held, px, n)[i] == json::float_or_zero(held.get(px[i].0)).mul_spec(
            json::float_or_zero(Some(px[i].1)),
        ),
    decreases n,
{
    if i < n - 1 {
        lemma_worths(held, px, (n - 1) as nat, i);
    } else {
        lemma_worths_len(held, px, (n - 1) as nat);
    }
}

proof fn lemma_worths_len(held: Doc, px: Seq<(Seq<char>, Doc)>, n: nat)
    ensures
        worths(held, px, n).len() == n,
    decreases n,
{
    if n > 0 {
        lemma_worths_len(held, px, (n - 1) as nat);
    }
}

/// A book is worth its holdings and its stable together.
pub proof fn law_a_book_is_its_holdings_and_its_stable(held: Doc, stable: Double, px: Doc)
    requires
        ({
            let w = worths(held, px.entries(), px.entries().len());
            &&& w.len() <= 0x10_0000
            &&& rounding::are_amounts(w)
            &&& pyfmt::sum_spec(w).finite()
            &&& stable.finite()
            &&& value_spec(held, stable, px).finite()
        }),
    ensures
        ({
            let w = worths(held, px.entries(), px.entries().len());
            let e = rounding::exact_sum(w, w.len());
            let v = value_spec(held, stable, px).amount();
            rounding::grain() * rounding::size(v - e - stable.amount()) <= rounding::size(v)
                + rounding::least() + 20 * w.len() * (e + rounding::least())
        }),
{
    let w = worths(held, px.entries(), px.entries().len());
    rounding::law_the_sum_of_amounts_is_their_sum(w);
    rounding::lemma_add_error(pyfmt::sum_spec(w), stable);
}

} // verus!
