//! The BTC line: a heads-up as BTC nears a price you set, an alert when it breaks it.
//!
//! Two lines, both optional (0 disables one): `warn_usd` above `alert_usd`. A band fires only
//! when BTC moves into a worse band than the one last recorded. The way back out has 2% of
//! hysteresis: the recorded band relaxes once BTC is more than 2% above the line, and that is
//! what re-arms it.
use crate::double;
use crate::double::Double;
use crate::rounding;
use crate::text;
use crate::watch::json;
use crate::watch::json::{Doc, Json};
use crate::watch::pyfmt;
use crate::watch::Hints;
use vstd::prelude::*;

verus! {

/// The two lines.
#[derive(Clone, Copy, Debug)]
pub struct Levels {
    /// The line itself. 0 disables the alert band.
    pub alert_usd: Double,
    /// The heads-up line above it. 0 disables the warn band.
    pub warn_usd: Double,
}

/// What one check decided.
#[derive(Debug)]
pub struct Check {
    /// The state to write (none on a dry run, or when BTC's price could not be read).
    pub state: Option<Json>,
    /// Subject and text to mail.
    pub fire: Option<(String, String)>,
}

/// A band: how bad it is.
#[derive(Clone, Copy, Debug, PartialEq, Eq, Structural)]
pub enum Band {
    Calm,
    Warn,
    Alert,
}

impl Band {
    /// How the state names it.
    pub open spec fn name(self) -> Seq<char> {
        match self {
            Band::Calm => "ok"@,
            Band::Warn => "warn"@,
            Band::Alert => "alert"@,
        }
    }

    pub open spec fn rank(self) -> int {
        match self {
            Band::Calm => 0,
            Band::Warn => 1,
            Band::Alert => 2,
        }
    }
}

fn band_name(b: Band) -> (r: &'static str)
    ensures
        r@ == b.name(),
{
    match b {
        Band::Calm => "ok",
        Band::Warn => "warn",
        Band::Alert => "alert",
    }
}

fn severity(b: Band) -> (r: u8)
    ensures
        r == b.rank(),
{
    match b {
        Band::Calm => 0,
        Band::Warn => 1,
        Band::Alert => 2,
    }
}

/// The band a state records; one that is not known reads as `Calm`.
pub open spec fn recorded(stored: Option<Doc>) -> Band {
    match stored {
        Some(s) => if json::str_at(s, "band"@) == Some("alert"@) {
            Band::Alert
        } else if json::str_at(s, "band"@) == Some("warn"@) {
            Band::Warn
        } else {
            Band::Calm
        },
        None => Band::Calm,
    }
}

/// Whether a line is set.
pub open spec fn is_set(line: Double) -> bool {
    !line.eq_spec(Double::zero_spec())
}

/// Whether a price is more than 2% above a line.
pub open spec fn clear_of(px: Double, line: Double) -> bool {
    line.mul_spec(Double::ratio_spec(102, 100)).lt_spec(px)
}

/// The recorded band after what a recovery relaxes.
pub open spec fn relaxed(band: Band, px: Double, lv: Levels) -> Band {
    let b = if band == Band::Alert && is_set(lv.alert_usd) && clear_of(px, lv.alert_usd) {
        Band::Warn
    } else {
        band
    };
    if b == Band::Warn && is_set(lv.warn_usd) && clear_of(px, lv.warn_usd) {
        Band::Calm
    } else {
        b
    }
}

/// The band a price is in.
pub open spec fn current(px: Double, lv: Levels) -> Band {
    if is_set(lv.alert_usd) && px.le_spec(lv.alert_usd) {
        Band::Alert
    } else if is_set(lv.warn_usd) && px.le_spec(lv.warn_usd) {
        Band::Warn
    } else {
        Band::Calm
    }
}

/// Whether a price moves into a worse band than the one recorded.
pub open spec fn fires(px: Double, band: Band, lv: Levels) -> bool {
    current(px, lv).rank() > relaxed(band, px, lv).rank()
}

/// The band to record.
pub open spec fn next_band(px: Double, band: Band, lv: Levels) -> Band {
    if fires(px, band, lv) {
        current(px, lv)
    } else {
        relaxed(band, px, lv)
    }
}

/// The state to write.
pub open spec fn state_spec(px: Double, band: Band, now: Double) -> Doc {
    Doc::obj().with("band"@, Doc::Str(band.name())).with("px"@, Doc::Float(px)).with(
        "ts"@,
        Doc::Int(now.cast_spec(i64::MIN as int, i64::MAX as int) as i64),
    )
}

/// BTC's price in a regime reading.
pub open spec fn price_of(reg: Doc) -> Option<Double> {
    match reg.get("btc"@) {
        Some(b) => match b.get("px"@) {
            Some(p) => p.to_float(),
            None => None,
        },
        None => None,
    }
}

/// A value as text, `?` where there is none.
pub open spec fn shown(d: Option<Doc>) -> Seq<char> {
    match d {
        Some(v) => v.py_str(),
        None => "?"@,
    }
}

fn show(j: Option<&Json>) -> (r: String)
    ensures
        r@ == shown(json::opt_doc(j)),
{
    match j {
        Some(v) => v.py_str(),
        None => text::owned("?"),
    }
}

/// The subject of an alert.
pub open spec fn alert_subject_text(p: Seq<char>, a: Seq<char>) -> Seq<char> {
    "🚨 BTC $"@
        + p
        + " — broke your $"@
        + a
        + " flip level"@
}

fn alert_subject(p: &str, a: &str) -> (r: String)
    ensures
        r@ == alert_subject_text(p@, a@),
{
    let mut r = text::owned("🚨 BTC $");
    r.push_str(p);
    r.push_str(" — broke your $");
    r.push_str(a);
    r.push_str(" flip level");
    r
}

/// The text of an alert.
pub open spec fn alert_body_text(p: Seq<char>, a: Seq<char>, label: Seq<char>, sma200: Seq<char>, halt: Seq<char>, deploy: Seq<char>) -> Seq<char> {
    "BTC is $"@
        + p
        + ", at/below your $"@
        + a
        + " watch level (your flip line).\n\nYOUR CALL — wick vs confirmed break:\n  WICK (brief spike down, reclaims fast): do NOTHING. Your resting deploy limit-buys are meant to fill here — this is the discount you planned to buy.\n  CONFIRMED (daily close below and holds; your thesis flips bearish): halt by hand —\n    touch "@
        + halt
        + "\n    "@
        + deploy
        + " --cancel\n\nRegime "@
        + label
        + ", BTC SMA200 $"@
        + sma200
        + ". Fires once per crossing; re-arms after BTC recovers >2% above $"@
        + a
        + "."@
}

fn alert_body(p: &str, a: &str, label: &str, sma200: &str, halt: &str, deploy: &str) -> (r: String)
    ensures
        r@ == alert_body_text(p@, a@, label@, sma200@, halt@, deploy@),
{
    let mut r = text::owned("BTC is $");
    r.push_str(p);
    r.push_str(", at/below your $");
    r.push_str(a);
    r.push_str(" watch level (your flip line).\n\nYOUR CALL — wick vs confirmed break:\n  WICK (brief spike down, reclaims fast): do NOTHING. Your resting deploy limit-buys are meant to fill here — this is the discount you planned to buy.\n  CONFIRMED (daily close below and holds; your thesis flips bearish): halt by hand —\n    touch ");
    r.push_str(halt);
    r.push_str("\n    ");
    r.push_str(deploy);
    r.push_str(" --cancel\n\nRegime ");
    r.push_str(label);
    r.push_str(", BTC SMA200 $");
    r.push_str(sma200);
    r.push_str(". Fires once per crossing; re-arms after BTC recovers >2% above $");
    r.push_str(a);
    r.push_str(".");
    r
}

/// The subject of a heads-up.
pub open spec fn warn_subject_text(p: Seq<char>, a: Seq<char>) -> Seq<char> {
    "BTC $"@
        + p
        + " — approaching your $"@
        + a
        + " level"@
}

fn warn_subject(p: &str, a: &str) -> (r: String)
    ensures
        r@ == warn_subject_text(p@, a@),
{
    let mut r = text::owned("BTC $");
    r.push_str(p);
    r.push_str(" — approaching your $");
    r.push_str(a);
    r.push_str(" level");
    r
}

/// The text of a heads-up.
pub open spec fn warn_body_text(p: Seq<char>, a: Seq<char>, w: Seq<char>, label: Seq<char>, sma200: Seq<char>) -> Seq<char> {
    "BTC is $"@
        + p
        + ", under your $"@
        + w
        + " heads-up line and heading toward the $"@
        + a
        + " flip level.\n\nNo action needed — your deploy ladder is resting and buys the dips as planned. Next email fires only if BTC reaches $"@
        + a
        + ".\n\nRegime "@
        + label
        + ", BTC SMA200 $"@
        + sma200
        + "."@
}

fn warn_body(p: &str, a: &str, w: &str, label: &str, sma200: &str) -> (r: String)
    ensures
        r@ == warn_body_text(p@, a@, w@, label@, sma200@),
{
    let mut r = text::owned("BTC is $");
    r.push_str(p);
    r.push_str(", under your $");
    r.push_str(w);
    r.push_str(" heads-up line and heading toward the $");
    r.push_str(a);
    r.push_str(" flip level.\n\nNo action needed — your deploy ladder is resting and buys the dips as planned. Next email fires only if BTC reaches $");
    r.push_str(a);
    r.push_str(".\n\nRegime ");
    r.push_str(label);
    r.push_str(", BTC SMA200 $");
    r.push_str(sma200);
    r.push_str(".");
    r
}

/// The mail for a band.
pub open spec fn mail_spec(
    reg: Doc,
    px: Double,
    band: Band,
    lv: Levels,
    halt: Seq<char>,
    deploy: Seq<char>,
) -> (Seq<char>, Seq<char>) {
    let sma200 = match reg.get("btc"@) {
        Some(b) => shown(b.get("sma200"@)),
        None => "?"@,
    };
    let label = text::upper_case(shown(reg.get("market"@)));
    let p = pyfmt::comma_spec(px, 0);
    let a = pyfmt::comma_spec(lv.alert_usd, 0);
    let w = pyfmt::comma_spec(lv.warn_usd, 0);
    if band == Band::Alert {
        (alert_subject_text(p, a), alert_body_text(p, a, label, sma200, halt, deploy))
    } else {
        (warn_subject_text(p, a), warn_body_text(p, a, w, label, sma200))
    }
}

fn mail(reg: &Json, px: Double, band: Band, lv: Levels, hints: &Hints) -> (r: (String, String))
    ensures
        (r.0@, r.1@) == mail_spec(reg@, px, band, lv, hints.halt_file@, hints.deploy_cmd@),
{
    let sma200 = match reg.get("btc") {
        Some(b) => show(b.get("sma200")),
        None => text::owned("?"),
    };
    let label = text::uppercase(show(reg.get("market")).as_str());
    let p = pyfmt::comma(px, 0);
    let a = pyfmt::comma(lv.alert_usd, 0);
    let w = pyfmt::comma(lv.warn_usd, 0);
    if band == Band::Alert {
        (
            alert_subject(p.as_str(), a.as_str()),
            alert_body(
                p.as_str(),
                a.as_str(),
                label.as_str(),
                sma200.as_str(),
                hints.halt_file.as_str(),
                hints.deploy_cmd.as_str(),
            ),
        )
    } else {
        (
            warn_subject(p.as_str(), a.as_str()),
            warn_body(p.as_str(), a.as_str(), w.as_str(), label.as_str(), sma200.as_str()),
        )
    }
}

/// Decide. `stored` is the previous state, `reg` the cached regime reading, whose `btc.px`
/// is the price checked.
pub fn check(
    reg: &Json,
    stored: Option<&Json>,
    lv: Levels,
    dry_run: bool,
    now: Double,
    hints: &Hints,
) -> (r: Check)
    ensures
        match price_of(reg@) {
            None => r.state is None && r.fire is None,
            Some(px) => {
                let band = recorded(json::opt_doc(stored));
                &&& json::opt_own(r.state) == if dry_run {
                    None
                } else {
                    Some(state_spec(px, next_band(px, band, lv), now))
                }
                &&& r.fire is Some == fires(px, band, lv)
                &&& r.fire is Some ==> ((r.fire->0).0@, (r.fire->0).1@) == mail_spec(
                    reg@,
                    px,
                    current(px, lv),
                    lv,
                    hints.halt_file@,
                    hints.deploy_cmd@,
                )
            },
        },
{
    let found: Option<Double> = match reg.get("btc") {
        Some(b) => match b.get("px") {
            Some(p) => p.to_float(),
            None => None,
        },
        None => None,
    };
    let px = match found {
        Some(p) => p,
        None => {
            return Check { state: None, fire: None };
        },
    };
    let mut band = match stored {
        Some(s) => match s.get("band") {
            Some(b) => if b.is_text("alert") {
                Band::Alert
            } else if b.is_text("warn") {
                Band::Warn
            } else {
                Band::Calm
            },
            None => Band::Calm,
        },
        None => Band::Calm,
    };
    assert(band == recorded(json::opt_doc(stored)));
    let zero = Double::zero();
    let slack = Double::ratio(102, 100);
    if band == Band::Alert && !lv.alert_usd.same(zero) && lv.alert_usd.times(slack).lt(px) {
        band = Band::Warn;
    }
    if band == Band::Warn && !lv.warn_usd.same(zero) && lv.warn_usd.times(slack).lt(px) {
        band = Band::Calm;
    }
    let cur = if !lv.alert_usd.same(zero) && px.le(lv.alert_usd) {
        Band::Alert
    } else if !lv.warn_usd.same(zero) && px.le(lv.warn_usd) {
        Band::Warn
    } else {
        Band::Calm
    };
    let fire: bool = severity(cur) > severity(band);
    let write = if fire {
        cur
    } else {
        band
    };
    let state = if dry_run {
        None
    } else {
        Some(
            Json::obj().with("band", Json::text(band_name(write))).with(
                "px",
                Json::Float(px),
            ).with("ts", Json::Int(now.to_i64())),
        )
    };
    if !fire {
        return Check { state, fire: None };
    }
    Check { state, fire: Some(mail(reg, px, cur, lv, hints)) }
}

// ------------------------------------------------------------------ laws
/// Whether a line is one to be under: a number of 0 or more.
pub open spec fn is_line(line: Double) -> bool {
    Double::zero_spec().le_spec(line)
}

/// A price at or under a line that is set is not clear of it.
proof fn lemma_not_clear(px: Double, line: Double)
    requires
        is_line(line),
        is_set(line),
        px.le_spec(line),
    ensures
        !clear_of(px, line),
{
    double::lemma_scaled_zero();
    double::lemma_ratio_at_least_one(102, 100);
    if line.neg() {
        assert(line.amount() <= 0);
    }
    double::lemma_product_at_least(line, Double::ratio_spec(102, 100));
}

/// Whatever the lines, the price and the band recorded last: a check does not fire on the
/// state it left itself, so that a crossing is one mail.
pub proof fn law_one_mail_per_crossing(px: Double, band: Band, lv: Levels)
    requires
        is_line(lv.alert_usd),
        is_line(lv.warn_usd),
    ensures
        !fires(px, next_band(px, band, lv), lv),
        next_band(px, next_band(px, band, lv), lv) == next_band(px, band, lv),
{
    if is_set(lv.alert_usd) && px.le_spec(lv.alert_usd) {
        lemma_not_clear(px, lv.alert_usd);
    }
    if is_set(lv.warn_usd) && px.le_spec(lv.warn_usd) {
        lemma_not_clear(px, lv.warn_usd);
    }
}

/// A price that stays between a line and 2% above it neither fires nor re-arms what fired at
/// that line.
pub proof fn law_hover_is_silent(px: Double, band: Band, lv: Levels)
    requires
        !clear_of(px, lv.alert_usd),
        !clear_of(px, lv.warn_usd),
        current(px, lv).rank() <= band.rank(),
    ensures
        !fires(px, band, lv),
        next_band(px, band, lv) == band,
{
}

/// A recovery more than 2% above both lines re-arms both: the state it leaves is `Calm`.
pub proof fn law_recovery_rearms(px: Double, band: Band, lv: Levels)
    requires
        is_set(lv.alert_usd),
        is_set(lv.warn_usd),
        clear_of(px, lv.alert_usd),
        clear_of(px, lv.warn_usd),
        current(px, lv) == Band::Calm,
    ensures
        next_band(px, band, lv) == Band::Calm,
        !fires(px, band, lv),
{
}

/// What a state records is what the next check reads.
pub proof fn law_band_reads_back(px: Double, band: Band, now: Double)
    ensures
        recorded(Some(state_spec(px, band, now))) == band,
{
    reveal_strlit("ok");
    reveal_strlit("warn");
    reveal_strlit("alert");
    let st = state_spec(px, band, now);
    assert(st->Obj_0[0] == ("band"@, Doc::Str(band.name())));
    json::lemma_spot(st->Obj_0, "band"@, 0);
    assert(json::spot(st->Obj_0, "band"@, 0) == 0);
    assert("ok"@.len() != "warn"@.len() && "warn"@.len() != "alert"@.len() && "ok"@.len()
        != "alert"@.len());
}

/// A price is clear of a line from three percent over it, and not up to one percent over it.
pub proof fn law_clear_is_two_percent_over_the_line(px: Double, line: Double)
    requires
        px.finite(),
        line.finite(),
        line.amount() >= 0x100_0000,
        line.mul_spec(Double::ratio_spec(102, 100)).finite(),
    ensures
        100 * px.amount() >= 103 * line.amount() ==> clear_of(px, line),
        100 * px.amount() <= 101 * line.amount() ==> !clear_of(px, line),
{
    rounding::lemma_over_part(line, 102, 100);
    let a = line.amount();
    let p = line.mul_spec(Double::ratio_spec(102, 100)).amount();
    assert(101 * a < 100 * p && 100 * p < 103 * a) by (nonlinear_arith)
        requires
            (0x10_0000 * 102 - 100) * a <= 0x10_0000 * 100 * p,
            0x10_0000 * 100 * p <= (0x10_0000 * 102 + 100) * a,
            a > 0,
    ;
}

/// A lower price is never in a calmer band.
pub proof fn law_a_lower_price_is_no_calmer(low: Double, high: Double, lv: Levels)
    requires
        low.finite(),
        high.finite(),
        low.amount() <= high.amount(),
    ensures
        current(low, lv).rank() >= current(high, lv).rank(),
{
}

} // verus!
