//! The read-only dashboard collector.
//!
//! One cycle writes three files a static site reads, then optionally publishes them:
//!
//! 1. `data.json` ([`snapshot`]): balances, prices, P&L, the order log, the funding card,
//!    the regime read, decisions and churn. A failure here fails the cycle.
//! 2. `scenarios.json` ([`scenarios`]): the book replayed along past cycles, the ATH
//!    view and the forecast. A failure is logged and the cycle goes on.
//! 3. `wallets.json` ([`wallets`]): self-custody balances and staking read from public
//!    chain APIs, and the "start unbonding" alert. Also soft, and bounded in time.
//! 4. The deploy step: a configured shell command (the site's own deploy tool), with a
//!    failure streak in `.deploy-status.json`. The third failure in a row fails the
//!    cycle, and every twelfth after that, so a unit's failure hook fires about hourly.
//!
//! The collector never places, cancels or signs an order.
use crate::decimal;
use crate::double::Double;
use crate::list;
use crate::list::Duplicate;
use crate::pyfmt;
use crate::text;
use crate::time;
use crate::watch::json;
use crate::watch::json::{Doc, Json};
use vstd::prelude::*;

pub mod net;
pub mod scenarios;
pub mod snapshot;
pub mod wallets;

verus! {

/// Consecutive deploy failures that fail the cycle.
pub const ALERT_AT: i64 = 3;

/// How often they do after that.
pub const ALERT_EVERY: i64 = 12;

// ------------------------------------------------------------------ loose numbers
/// A number as sums keep it: whole numbers stay whole until a fraction joins.
#[derive(Clone, Copy, Debug, PartialEq, Eq, Structural)]
pub enum Num {
    Whole(i64),
    Frac(Double),
}

impl DeepView for Num {
    type V = Num;

    open spec fn deep_view(&self) -> Num {
        *self
    }
}

/// A whole number where `i64` holds it, else the fraction nearest to it.
pub open spec fn held(x: int) -> Num {
    if i64::MIN <= x <= i64::MAX {
        Num::Whole(x as i64)
    } else {
        Num::Frac(Double::int_spec(x))
    }
}

fn hold(x: i128) -> (r: Num)
    ensures
        r == held(x as int),
{
    if i64::MIN as i128 <= x && x <= i64::MAX as i128 {
        return Num::Whole(x as i64);
    }
    Num::Frac(Double::of_i128(x))
}

impl Num {
    pub open spec fn f_spec(self) -> Double {
        match self {
            Num::Whole(i) => Double::int_spec(i as int),
            Num::Frac(f) => f,
        }
    }

    pub fn f(self) -> (r: Double)
        ensures
            r == self.f_spec(),
    {
        match self {
            Num::Whole(i) => Double::of_int(i),
            Num::Frac(f) => f,
        }
    }

    pub open spec fn json_spec(self) -> Doc {
        match self {
            Num::Whole(i) => Doc::Int(i),
            Num::Frac(f) => Doc::Float(f),
        }
    }

    pub fn json(self) -> (r: Json)
        ensures
            r@ == self.json_spec(),
    {
        match self {
            Num::Whole(i) => Json::Int(i),
            Num::Frac(f) => Json::Float(f),
        }
    }

    pub open spec fn of_spec(v: Doc) -> Option<Num> {
        match v {
            Doc::Int(i) => Some(Num::Whole(i)),
            Doc::Float(f) => Some(Num::Frac(f)),
            Doc::Bool(b) => Some(
                Num::Whole(
                    if b {
                        1
                    } else {
                        0
                    },
                ),
            ),
            _ => None,
        }
    }

    pub fn of(v: &Json) -> (r: Option<Num>)
        ensures
            r == Num::of_spec(v@),
    {
        match v {
            Json::Int(i) => Some(Num::Whole(*i)),
            Json::Float(f) => Some(Num::Frac(*f)),
            Json::Bool(b) => Some(
                Num::Whole(
                    if *b {
                        1
                    } else {
                        0
                    },
                ),
            ),
            _ => None,
        }
    }

    pub open spec fn plus_spec(self, b: Num) -> Num {
        match (self, b) {
            (Num::Whole(x), Num::Whole(y)) => held(x + y),
            _ => Num::Frac(self.f_spec().add_spec(b.f_spec())),
        }
    }

    /// `a + b`.
    pub fn plus(self, b: Num) -> (r: Num)
        ensures
            r == self.plus_spec(b),
    {
        match (self, b) {
            (Num::Whole(x), Num::Whole(y)) => hold(x as i128 + y as i128),
            _ => Num::Frac(self.f().plus(b.f())),
        }
    }

    pub open spec fn times_spec(self, b: Num) -> Num {
        match (self, b) {
            (Num::Whole(x), Num::Whole(y)) => held(x * y),
            _ => Num::Frac(self.f_spec().mul_spec(b.f_spec())),
        }
    }

    /// `a * b`.
    pub fn times(self, b: Num) -> (r: Num)
        ensures
            r == self.times_spec(b),
    {
        match (self, b) {
            (Num::Whole(x), Num::Whole(y)) => {
                assert(-0x4000_0000_0000_0000_0000_0000_0000_0000 <= x as int * y as int
                    <= 0x4000_0000_0000_0000_0000_0000_0000_0000) by (nonlinear_arith)
                    requires
                        -0x8000_0000_0000_0000 <= x <= 0x7fff_ffff_ffff_ffff,
                        -0x8000_0000_0000_0000 <= y <= 0x7fff_ffff_ffff_ffff,
                ;
                hold(x as i128 * y as i128)
            },
            _ => Num::Frac(self.f().times(b.f())),
        }
    }
}

/// A sum in progress: whole until the first fraction joins; from then on the sum and what
/// rounding lost of it.
pub ghost enum Running {
    Whole(int),
    Frac(Double, Double),
}

/// One more number: the first fraction joins the whole part plainly, every later fraction is
/// compensated, a later whole number is added plainly.
pub open spec fn joined(r: Running, x: Num) -> Running {
    match (r, x) {
        (Running::Whole(t), Num::Whole(i)) => Running::Whole(t + i),
        (Running::Whole(t), Num::Frac(f)) => Running::Frac(
            Double::int_spec(t).add_spec(f),
            Double::zero_spec(),
        ),
        (Running::Frac(s, c), Num::Whole(i)) => Running::Frac(
            s.add_spec(Double::int_spec(i as int)),
            c,
        ),
        (Running::Frac(s, c), Num::Frac(x)) => {
            let t = s.add_spec(x);
            if x.abs_spec().le_spec(s.abs_spec()) {
                Running::Frac(t, c.add_spec(s.sub_spec(t).add_spec(x)))
            } else {
                Running::Frac(t, c.add_spec(x.sub_spec(t).add_spec(s)))
            }
        },
    }
}

/// The sum of the first `n` numbers, in progress.
pub open spec fn running(xs: Seq<Num>, n: nat) -> Running
    decreases n,
{
    if n == 0 {
        Running::Whole(0)
    } else {
        joined(running(xs, (n - 1) as nat), xs[n - 1])
    }
}

/// The sum of some numbers: whole numbers add exactly until the first fraction, which switches
/// to the compensated sum. A whole sum that `i64` does not hold is the fraction nearest to it.
pub open spec fn py_sum_spec(xs: Seq<Num>) -> Num {
    match running(xs, xs.len()) {
        Running::Whole(t) => held(t),
        Running::Frac(s, c) => Num::Frac(
            if !c.eq_spec(Double::zero_spec()) && c.finite() {
                s.add_spec(c)
            } else {
                s
            },
        ),
    }
}

pub fn py_sum(xs: &Vec<Num>) -> (r: Num)
    ensures
        r == py_sum_spec(xs.deep_view()),
{
    let mut whole: bool = true;
    let mut total: i128 = 0;
    let mut s = Double::zero();
    let mut c = Double::zero();
    let mut i: usize = 0;
    while i < xs.len()
        invariant
            i <= xs@.len(),
            -0x8000_0000_0000_0000 * i <= total <= 0x8000_0000_0000_0000 * i,
            (if whole {
                Running::Whole(total as int)
            } else {
                Running::Frac(s, c)
            }) == running(xs.deep_view(), i as nat),
        decreases xs@.len() - i,
    {
        assert(xs.deep_view()[i as int] == xs@[i as int]);
        match xs[i] {
            Num::Whole(k) => {
                if whole {
                    total = total + k as i128;
                } else {
                    s = s.plus(Double::of_int(k));
                }
            },
            Num::Frac(x) => {
                if whole {
                    whole = false;
                    s = Double::of_i128(total).plus(x);
                    c = Double::zero();
                } else {
                    let t = s.plus(x);
                    if x.abs().le(s.abs()) {
                        c = c.plus(s.minus(t).plus(x));
                    } else {
                        c = c.plus(x.minus(t).plus(s));
                    }
                    s = t;
                }
            },
        }
        i = i + 1;
    }
    if whole {
        return hold(total);
    }
    if !c.same(Double::zero()) && c.is_finite() {
        s = s.plus(c);
    }
    Num::Frac(s)
}

// ------------------------------------------------------------------ laws
/// The exact sum of the first `n` of some whole numbers.
pub open spec fn whole_total(xs: Seq<Num>, n: nat) -> int
    decreases n,
{
    if n == 0 {
        0
    } else {
        whole_total(xs, (n - 1) as nat) + xs[n - 1]->Whole_0
    }
}

proof fn lemma_stays_whole(xs: Seq<Num>, n: nat)
    requires
        n <= xs.len(),
        forall|i: int| 0 <= i < xs.len() ==> xs[i] is Whole,
    ensures
        running(xs, n) == Running::Whole(whole_total(xs, n)),
    decreases n,
{
    if n > 0 {
        lemma_stays_whole(xs, (n - 1) as nat);
    }
}

/// Whole numbers add exactly: their sum is whole wherever `i64` holds it, whatever the sums on the
/// way are.
pub proof fn law_whole_numbers_add_exactly(xs: Seq<Num>)
    requires
        forall|i: int| 0 <= i < xs.len() ==> xs[i] is Whole,
    ensures
        py_sum_spec(xs) == held(whole_total(xs, xs.len())),
{
    lemma_stays_whole(xs, xs.len());
}

proof fn lemma_turns_fraction(xs: Seq<Num>, k: int, n: nat)
    requires
        0 <= k < n <= xs.len(),
        xs[k] is Frac,
    ensures
        running(xs, n) is Frac,
    decreases n,
{
    if k < n - 1 {
        lemma_turns_fraction(xs, k, (n - 1) as nat);
    }
}

/// One fraction makes a sum a fraction.
pub proof fn law_one_fraction_makes_a_fraction(xs: Seq<Num>, k: int)
    requires
        0 <= k < xs.len(),
        xs[k] is Frac,
    ensures
        py_sum_spec(xs) is Frac,
{
    lemma_turns_fraction(xs, k, xs.len());
}

// ------------------------------------------------------------------ times
/// A weekday's name; day 0 is a Thursday.
pub open spec fn weekday(k: int) -> Seq<char> {
    if k == 0 {
        "Thu"@
    } else if k == 1 {
        "Fri"@
    } else if k == 2 {
        "Sat"@
    } else if k == 3 {
        "Sun"@
    } else if k == 4 {
        "Mon"@
    } else if k == 5 {
        "Tue"@
    } else {
        "Wed"@
    }
}

fn weekday_name(k: i64) -> (r: &'static str)
    ensures
        r@ == weekday(k as int),
{
    if k == 0 {
        "Thu"
    } else if k == 1 {
        "Fri"
    } else if k == 2 {
        "Sat"
    } else if k == 3 {
        "Sun"
    } else if k == 4 {
        "Mon"
    } else if k == 5 {
        "Tue"
    } else {
        "Wed"
    }
}

/// A month's name.
pub open spec fn month(m: int) -> Seq<char> {
    if m == 1 {
        "Jan"@
    } else if m == 2 {
        "Feb"@
    } else if m == 3 {
        "Mar"@
    } else if m == 4 {
        "Apr"@
    } else if m == 5 {
        "May"@
    } else if m == 6 {
        "Jun"@
    } else if m == 7 {
        "Jul"@
    } else if m == 8 {
        "Aug"@
    } else if m == 9 {
        "Sep"@
    } else if m == 10 {
        "Oct"@
    } else if m == 11 {
        "Nov"@
    } else {
        "Dec"@
    }
}

fn month_name(m: i64) -> (r: &'static str)
    ensures
        r@ == month(m as int),
{
    if m == 1 {
        "Jan"
    } else if m == 2 {
        "Feb"
    } else if m == 3 {
        "Mar"
    } else if m == 4 {
        "Apr"
    } else if m == 5 {
        "May"
    } else if m == 6 {
        "Jun"
    } else if m == 7 {
        "Jul"
    } else if m == 8 {
        "Aug"
    } else if m == 9 {
        "Sep"
    } else if m == 10 {
        "Oct"
    } else if m == 11 {
        "Nov"
    } else {
        "Dec"
    }
}

/// What `date` prints in the C locale, for the cycle's header line (UTC).
pub open spec fn c_date_spec(now: Double) -> Seq<char> {
    let (y, m, d, h, mi, s) = time::civil_spec(now);
    weekday(time::seconds(now) / 86400 % 7) + " "@ + month(m) + " "@
        + crate::watch::pyfmt::rjust_spec(text::dec_int(d), 2) + " "@ + text::digits(h as nat, 2) + ":"@
        + text::digits(mi as nat, 2) + ":"@ + text::digits(s as nat, 2) + " UTC "@ + text::dec_int(y)
}

pub fn c_date(now: Double) -> (r: String)
    ensures
        r@ == c_date_spec(now),
{
    let (y, m, d, h, mi, s) = time::civil(now);
    let days: i64 = time::floor_of(now.to_i64(), 86400);
    let k: i64 = time::rest_of(days, 7);
    let mut r = text::owned(weekday_name(k));
    r.push_str(" ");
    r.push_str(month_name(m));
    r.push_str(" ");
    r.push_str(crate::watch::pyfmt::rjust(text::dec_i64(d).as_str(), 2).as_str());
    r.push_str(" ");
    r.push_str(text::digits_u64(h as u64, 2).as_str());
    r.push_str(":");
    r.push_str(text::digits_u64(mi as u64, 2).as_str());
    r.push_str(":");
    r.push_str(text::digits_u64(s as u64, 2).as_str());
    r.push_str(" UTC ");
    r.push_str(text::dec_i64(y).as_str());
    r
}

/// The whole number a text spells.
pub open spec fn whole_text_spec(s: Seq<char>) -> Option<i64> {
    match decimal::whole_within(s, i64::MIN as int, i64::MAX as int) {
        Some(v) => Some(v as i64),
        None => None,
    }
}

fn whole_text(s: &str) -> (r: Option<i64>)
    ensures
        r == whole_text_spec(s@),
{
    decimal::read_i64(s)
}

/// A time with microseconds, cut off at the second, with its offset.
pub open spec fn iso_seconds_spec(full: Seq<char>) -> Seq<char> {
    text::first(full, 19) + "+00:00"@
}

/// A time with microseconds, cut off at the second, with its offset.
pub fn iso_seconds(full: &str) -> (r: String)
    ensures
        r@ == iso_seconds_spec(full@),
{
    let mut line = text::head(full, 19);
    line.push_str("+00:00");
    line
}

/// A text in quotes (single ones unless the text holds one).
pub open spec fn repr_str_spec(s: Seq<char>) -> Seq<char> {
    pyfmt::repr_str_spec(s)
}

/// A text in quotes (single ones unless the text holds one).
pub fn repr_str(s: &str) -> (r: String)
    ensures
        r@ == repr_str_spec(s@),
{
    pyfmt::repr_str(s)
}

/// The first `k` characters.
pub open spec fn head_spec(s: Seq<char>, k: usize) -> Seq<char> {
    text::first(s, k as nat)
}

/// The first `k` characters.
pub fn head(s: &str, k: usize) -> (r: String)
    ensures
        r@ == head_spec(s@, k),
{
    text::head(s, k)
}

/// The kind of a value, by its name.
pub open spec fn kind_name_spec(v: Doc) -> Seq<char> {
    pyfmt::kind_name_spec(v)
}

/// The kind of a value, by its name.
pub fn kind_name(v: &Json) -> (r: String)
    ensures
        r@ == kind_name_spec(v@),
{
    text::owned(pyfmt::kind_name(v))
}

/// A value as a number, or why it is none.
pub open spec fn py_float_spec(v: Doc) -> Result<Double, Seq<char>> {
    match v.as_text() {
        Some(s) => match v.to_float() {
            Some(x) => Ok(x),
            None => Err("could not convert string to float: "@ + pyfmt::repr_str_spec(s)),
        },
        None => if v is Null || v is Arr || v is Obj {
            Err(
                "float() argument must be a string or a real number, not '"@
                    + kind_name_spec(v)
                    + "'"@,
            )
        } else {
            Ok(
                match v.to_float() {
                    Some(v) => v,
                    None => Double::zero_spec(),
                },
            )
        },
    }
}

/// A value as a number, or why it is none.
pub fn py_float(v: &Json) -> (r: Result<Double, String>)
    ensures
        list::outcome(r) == py_float_spec(v@),
{
    match v.as_str() {
        Some(s) => match v.to_float() {
            Some(x) => Ok(x),
            None => {
                let mut line = text::owned("could not convert string to float: ");
                line.push_str(pyfmt::repr_str(s).as_str());
                Err(line)
            },
        },
        None => {
            if v.is_null() || v.is_arr() || v.is_obj() {
                let mut line2 = text::owned(
                    "float() argument must be a string or a real number, not '",
                );
                line2.push_str(kind_name(v).as_str());
                line2.push_str("'");
                return Err(line2);
            }
            Ok(
                match v.to_float() {
                    Some(v) => v,
                    None => Double::zero(),
                },
            )
        },
    }
}

/// The number under a key, 0 where there is none or it does not count.
pub open spec fn float_or0_spec(d: Doc, key: Seq<char>) -> Result<Double, Seq<char>> {
    match d.get(key) {
        Some(v) => if v.truthy() {
            py_float_spec(v)
        } else {
            Ok(Double::zero_spec())
        },
        None => Ok(Double::zero_spec()),
    }
}

/// The number under a key, 0 where there is none or it does not count.
pub fn float_or0(d: &Json, key: &str) -> (r: Result<Double, String>)
    ensures
        list::outcome(r) == float_or0_spec(d@, key@),
{
    match d.get(key) {
        Some(v) => {
            if v.truthy() {
                return py_float(v);
            }
            Ok(Double::zero())
        },
        None => Ok(Double::zero()),
    }
}

/// A value, as it is written where it is the key of an object.
pub open spec fn key_str_spec(v: Doc) -> Seq<char> {
    match v.as_text() {
        Some(s) => s,
        None => v.dumps(None),
    }
}

/// A value, as it is written where it is the key of an object.
pub fn key_str(v: &Json) -> (r: String)
    ensures
        r@ == key_str_spec(v@),
{
    match v.as_str() {
        Some(s) => text::owned(s),
        None => pyfmt::dumps(v, None),
    }
}

/// Which parts a cycle runs.
#[derive(Clone, Copy, Debug)]
pub struct Parts {
    pub data: bool,
    pub scenarios: bool,
    pub wallets: bool,
    pub deploy: bool,
}

impl DeepView for Parts {
    type V = Parts;

    open spec fn deep_view(&self) -> Parts {
        *self
    }
}

/// A deploy streak that has not begun.
pub open spec fn fresh_status_spec() -> Doc {
    Doc::obj().with("last_ok_ts"@, Doc::Null).with("last_fail_ts"@, Doc::Null).with(
        "consecutive_failures"@,
        Doc::Int(0),
    )
}

/// A deploy streak that has not begun.
pub fn fresh_status() -> (r: Json)
    ensures
        r@ == fresh_status_spec(),
{
    Json::obj().with("last_ok_ts", Json::Null).with("last_fail_ts", Json::Null).with(
        "consecutive_failures",
        Json::Int(0),
    )
}

/// The deploy streak in a file, or its fresh state.
pub open spec fn deploy_status_spec(file: Option<Doc>) -> Doc {
    match file {
        Some(d) => if d is Obj {
            d
        } else {
            fresh_status_spec()
        },
        None => fresh_status_spec(),
    }
}

/// The deploy streak in a file, or its fresh state.
pub fn deploy_status(file: Option<&Json>) -> (r: Json)
    ensures
        r@ == deploy_status_spec(file.deep_view()),
{
    let d = match file {
        Some(v) => v,
        None => {
            return fresh_status();
        },
    };
    if d.is_obj() {
        return d.copy();
    }
    fresh_status()
}

/// How many deploys failed in a row.
pub open spec fn failures_so_far_spec(st: Doc) -> i64 {
    match st.get("consecutive_failures"@) {
        Some(v) => match v.as_int() {
            Some(i) => i,
            None => match v.num() {
                Some(x) => x.cast_spec(i64::MIN as int, i64::MAX as int) as i64,
                None => match v.as_text() {
                    Some(s) => match whole_text_spec(text::trim(s)) {
                        Some(v) => v,
                        None => 0,
                    },
                    None => 0,
                },
            },
        },
        None => 0,
    }
}

fn failures_so_far(st: &Json) -> (r: i64)
    ensures
        r == failures_so_far_spec(st@),
{
    let v = match st.get("consecutive_failures") {
        Some(v) => v,
        None => {
            return 0;
        },
    };
    match v.as_int() {
        Some(i) => i,
        None => match v.num() {
            Some(x) => x.to_i64(),
            None => match v.as_str() {
                Some(s) => match whole_text(text::trimmed(s).as_str()) {
                    Some(v) => v,
                    None => 0,
                },
                None => 0,
            },
        },
    }
}

/// One more failure.
pub open spec fn one_more_spec(k: i64) -> i64 {
    if k < 9223372036854775807 {
        (k + 1) as i64
    } else {
        k
    }
}

fn one_more(k: i64) -> (r: i64)
    ensures
        r == one_more_spec(k),
{
    if k < 9223372036854775807 {
        return (k + 1);
    }
    k
}

/// Whether a number of failures in a row fails the cycle: the third, then every twelfth.
pub open spec fn alerts_at(n: int) -> bool {
    n == ALERT_AT || (n > ALERT_AT && (n - ALERT_AT) % (ALERT_EVERY as int) == 0)
}

fn is_alert(n: i64) -> (r: bool)
    ensures
        r == alerts_at(n as int),
{
    n == ALERT_AT || (n > ALERT_AT && (n - ALERT_AT) % ALERT_EVERY == 0)
}

/// Apply one deploy result at `now`: the new state, and whether this failure is one that must fail
/// the cycle (the 3rd in a row, then every 12th).
pub open spec fn deploy_update_spec(file: Option<Doc>, ok: bool, now: Double) -> (Doc, bool) {
    let st = deploy_status_spec(file);
    if ok {
        let st = st.set("last_ok_ts"@, Doc::Float(now));
        (st.set("consecutive_failures"@, Doc::Int(0)), false)
    } else {
        let k = one_more_spec(failures_so_far_spec(st));
        let st = st.set("last_fail_ts"@, Doc::Float(now));
        (st.set("consecutive_failures"@, Doc::Int(k)), alerts_at(k as int))
    }
}

/// Apply one deploy result at `now`: the new state, and whether this failure is one that must fail
/// the cycle (the 3rd in a row, then every 12th).
pub fn deploy_update(file: Option<&Json>, ok: bool, now: Double) -> (r: (Json, bool))
    ensures
        r.deep_view() == deploy_update_spec(file.deep_view(), ok, now),
{
    let mut st = deploy_status(file);
    if ok {
        st.set("last_ok_ts", Json::Float(now));
        st.set("consecutive_failures", Json::Int(0));
        return (st, false);
    }
    let k: i64 = one_more(failures_so_far(&st));
    st.set("last_fail_ts", Json::Float(now));
    st.set("consecutive_failures", Json::Int(k));
    (st, is_alert(k))
}

/// What a cycle's deploy step does.
#[derive(Debug)]
pub enum DeployStep {
    /// The step is not part of the cycle.
    Nothing,
    /// It is skipped, and why.
    Skip(String),
    /// A command is run.
    Run(String),
}

/// What a [`DeployStep`] says.
#[allow(inconsistent_fields)]
pub enum DeployStepView {
    Nothing,
    Skip(Seq<char>),
    Run(Seq<char>),
}

impl DeepView for DeployStep {
    type V = DeployStepView;

    open spec fn deep_view(&self) -> DeployStepView {
        match self {
            DeployStep::Nothing => DeployStepView::Nothing,
            DeployStep::Skip(a) => DeployStepView::Skip(a@),
            DeployStep::Run(a) => DeployStepView::Run(a@),
        }
    }
}

/// Decide what a cycle's deploy step does.
pub open spec fn deploy_step_spec(
    parts: Parts,
    command: Option<Seq<char>>,
    deploy: bool,
) -> DeployStepView {
    if !parts.deploy {
        DeployStepView::Nothing
    } else if !deploy {
        DeployStepView::Skip(
            "deploy skipped: DASHBOARD_DEPLOY!=1 (data.json regenerated locally only)"@,
        )
    } else {
        match command {
            Some(c) => DeployStepView::Run(c),
            None => DeployStepView::Skip(
                "deploy skipped: dashboard.deploy_command is not set (data.json regenerated locally only)"@,
            ),
        }
    }
}

/// Decide what a cycle's deploy step does.
pub fn deploy_step(parts: Parts, command: Option<&str>, deploy: bool) -> (r: DeployStep)
    ensures
        r.deep_view() == deploy_step_spec(parts, command.deep_view(), deploy),
{
    if !parts.deploy {
        return DeployStep::Nothing;
    }
    if !deploy {
        return DeployStep::Skip(
            text::owned(
                "deploy skipped: DASHBOARD_DEPLOY!=1 (data.json regenerated locally only)",
            ),
        );
    }
    match command {
        Some(c) => DeployStep::Run(text::owned(c)),
        None => DeployStep::Skip(
            text::owned(
                "deploy skipped: dashboard.deploy_command is not set (data.json regenerated locally only)",
            ),
        ),
    }
}

/// How many deploys failed in a row, as it prints.
pub open spec fn failures_text_spec(st: Doc) -> Seq<char> {
    match st.get("consecutive_failures"@) {
        Some(v) => v.py_str(),
        None => ""@,
    }
}

fn failures_text(st: &Json) -> (r: String)
    ensures
        r@ == failures_text_spec(st@),
{
    let v = match st.get("consecutive_failures") {
        Some(v) => v,
        None => {
            return text::owned("");
        },
    };
    v.py_str()
}

/// The cycle's header line.
pub open spec fn cycle_head_spec(now: Double) -> Seq<char> {
    "["@ + crate::dashboard::c_date_spec(now) + "] snapshot"@
}

/// The cycle's header line.
pub fn cycle_head(now: Double) -> (r: String)
    ensures
        r@ == cycle_head_spec(now),
{
    let mut line = text::owned("[");
    line.push_str(crate::dashboard::c_date(now).as_str());
    line.push_str("] snapshot");
    line
}

/// How a part reads that failed without failing the cycle: on the error output, and on the output.
pub open spec fn soft_failure_spec(part: Seq<char>, e: Seq<char>) -> (Seq<char>, Seq<char>) {
    (part + ": "@ + e, part + " failed (snapshot still deployed)"@)
}

/// How a part reads that failed without failing the cycle: on the error output, and on the output.
pub fn soft_failure(part: &str, e: &str) -> (r: (String, String))
    ensures
        r.deep_view() == soft_failure_spec(part@, e@),
{
    let mut line = text::owned(part);
    line.push_str(": ");
    line.push_str(e);
    let mut line2 = text::owned(part);
    line2.push_str(" failed (snapshot still deployed)");
    (line, line2)
}

/// What a cycle needs next.
#[derive(Debug)]
pub enum CycleAsk {
    /// The time.
    Clock,
    /// That `data.json` is written.
    Data,
    /// That `scenarios.json` is written.
    Scenarios,
    /// That `wallets.json` is written.
    Wallets,
    /// That a command is run.
    Deploy(String),
    /// The deploy streak's file, where it reads.
    Status,
    /// That the deploy streak is written; whether it was is not asked.
    Save(Json),
}

/// What a [`CycleAsk`] says.
#[allow(inconsistent_fields)]
pub enum CycleAskView {
    Clock,
    Data,
    Scenarios,
    Wallets,
    Deploy(Seq<char>),
    Status,
    Save(Doc),
}

impl DeepView for CycleAsk {
    type V = CycleAskView;

    open spec fn deep_view(&self) -> CycleAskView {
        match self {
            CycleAsk::Clock => CycleAskView::Clock,
            CycleAsk::Data => CycleAskView::Data,
            CycleAsk::Scenarios => CycleAskView::Scenarios,
            CycleAsk::Wallets => CycleAskView::Wallets,
            CycleAsk::Deploy(a) => CycleAskView::Deploy(a@),
            CycleAsk::Status => CycleAskView::Status,
            CycleAsk::Save(a) => CycleAskView::Save(a@),
        }
    }
}

/// What came of what a cycle needed.
#[derive(Debug)]
pub enum CycleAnswer {
    Done,
    Failed(String),
    Time(Double),
    Deployed(bool),
    File(Option<Json>),
}

/// What a [`CycleAnswer`] says.
#[allow(inconsistent_fields)]
pub enum CycleAnswerView {
    Done,
    Failed(Seq<char>),
    Time(Double),
    Deployed(bool),
    File(Option<Doc>),
}

impl DeepView for CycleAnswer {
    type V = CycleAnswerView;

    open spec fn deep_view(&self) -> CycleAnswerView {
        match self {
            CycleAnswer::Done => CycleAnswerView::Done,
            CycleAnswer::Failed(a) => CycleAnswerView::Failed(a@),
            CycleAnswer::Time(a) => CycleAnswerView::Time(*a),
            CycleAnswer::Deployed(a) => CycleAnswerView::Deployed(*a),
            CycleAnswer::File(a) => CycleAnswerView::File(a.deep_view()),
        }
    }
}

impl Duplicate for CycleAnswer {
    fn dup(&self) -> (r: CycleAnswer) {
        match self {
            CycleAnswer::Done => CycleAnswer::Done,
            CycleAnswer::Failed(a) => CycleAnswer::Failed(text::owned(a.as_str())),
            CycleAnswer::Time(a) => CycleAnswer::Time(*a),
            CycleAnswer::Deployed(a) => CycleAnswer::Deployed(*a),
            CycleAnswer::File(a) => CycleAnswer::File(a.dup()),
        }
    }
}

/// A line a cycle prints, on the error output or on the output.
#[derive(Debug)]
pub struct CycleLine {
    pub err: bool,
    pub text: String,
}

/// What a [`CycleLine`] holds.
pub struct CycleLineView {
    pub err: bool,
    pub text: Seq<char>,
}

impl DeepView for CycleLine {
    type V = CycleLineView;

    open spec fn deep_view(&self) -> CycleLineView {
        CycleLineView {
            err: self.err,
            text: self.text@,
        }
    }
}

/// How far a cycle has come: what it printed, what it needs next, or its exit code.
#[derive(Debug)]
pub struct Cycle {
    pub lines: Vec<CycleLine>,
    /// How many answers were used.
    pub at: usize,
    pub ask: Option<CycleAsk>,
    pub code: Option<i64>,
}

/// What a [`Cycle`] holds.
pub struct CycleView {
    pub lines: Seq<CycleLineView>,
    pub at: usize,
    pub ask: Option<CycleAskView>,
    pub code: Option<i64>,
}

impl DeepView for Cycle {
    type V = CycleView;

    open spec fn deep_view(&self) -> CycleView {
        CycleView {
            lines: self.lines.deep_view(),
            at: self.at,
            ask: self.ask.deep_view(),
            code: self.code,
        }
    }
}

/// A cycle that has not begun.
pub open spec fn cycle_begun_spec() -> CycleView {
    CycleView { lines: Seq::<CycleLineView>::empty(), at: 0, ask: None, code: None }
}

fn cycle_begun() -> (r: Cycle)
    ensures
        r.deep_view() == cycle_begun_spec(),
{
    Cycle { lines: list::none::<CycleLine>(), at: 0, ask: None, code: None }
}

/// Whether a cycle goes no further for now: it waits for an answer, or it is over.
pub open spec fn cycle_rests_spec(c: CycleView) -> bool {
    c.ask is Some || c.code is Some
}

fn cycle_rests(c: &Cycle) -> (r: bool)
    ensures
        r == cycle_rests_spec(c.deep_view()),
{
    c.ask.is_some() || c.code.is_some()
}

/// A cycle that waits for an answer.
pub open spec fn cycle_needs_spec(c: CycleView, a: CycleAskView) -> CycleView {
    CycleView { ask: Some(a), ..c }
}

fn cycle_needs(c: Cycle, a: CycleAsk) -> (r: Cycle)
    ensures
        r.deep_view() == cycle_needs_spec(c.deep_view(), a.deep_view()),
{
    let mut c = c;
    c.ask = Some(a);
    c
}

/// A cycle that is over.
pub open spec fn cycle_over_spec(c: CycleView, code: i64) -> CycleView {
    CycleView { code: Some(code), ..c }
}

fn cycle_over(c: Cycle, code: i64) -> (r: Cycle)
    ensures
        r.deep_view() == cycle_over_spec(c.deep_view(), code),
{
    let mut c = c;
    c.code = Some(code);
    c
}

/// A cycle that printed a line.
pub open spec fn cycle_says_spec(c: CycleView, line: Seq<char>) -> CycleView {
    CycleView { lines: c.lines.push(CycleLineView { err: false, text: line }), ..c }
}

fn cycle_says(c: Cycle, line: String) -> (r: Cycle)
    ensures
        r.deep_view() == cycle_says_spec(c.deep_view(), line@),
{
    let mut c = c;
    list::push(&mut c.lines, CycleLine { err: false, text: line });
    c
}

/// A cycle that printed a line on the error output.
pub open spec fn cycle_warns_spec(c: CycleView, line: Seq<char>) -> CycleView {
    CycleView { lines: c.lines.push(CycleLineView { err: true, text: line }), ..c }
}

fn cycle_warns(c: Cycle, line: String) -> (r: Cycle)
    ensures
        r.deep_view() == cycle_warns_spec(c.deep_view(), line@),
{
    let mut c = c;
    list::push(&mut c.lines, CycleLine { err: true, text: line });
    c
}

/// The next answer, where there is one; otherwise the cycle waits for it.
pub open spec fn cycle_asked_spec(
    c: CycleView,
    a: CycleAskView,
    answers: Seq<CycleAnswerView>,
) -> (CycleView, CycleAnswerView) {
    match list::item(answers, c.at) {
        Some(x) => (CycleView { at: (c.at + 1) as usize, ..c }, x),
        None => (cycle_needs_spec(c, a), CycleAnswerView::Done),
    }
}

fn cycle_asked(c: Cycle, a: CycleAsk, answers: &Vec<CycleAnswer>) -> (r: (Cycle, CycleAnswer))
    ensures
        r.deep_view() == cycle_asked_spec(c.deep_view(), a.deep_view(), answers.deep_view()),
{
    let mut c = c;
    let x = match list::at(answers, c.at) {
        Some(v) => v,
        None => {
            return (cycle_needs(c, a), CycleAnswer::Done);
        },
    };
    c.at = (c.at + 1);
    (c, x.dup())
}

/// The time, 0 where none is told.
pub open spec fn time_in_spec(a: CycleAnswerView) -> Double {
    match a {
        CycleAnswerView::Time(x) => x,
        _ => Double::zero_spec(),
    }
}

fn time_in(a: &CycleAnswer) -> (r: Double)
    ensures
        r == time_in_spec(a.deep_view()),
{
    match a {
        CycleAnswer::Time(x) => *x,
        _ => Double::zero(),
    }
}

/// Whether the command went through.
pub open spec fn deployed_in_spec(a: CycleAnswerView) -> bool {
    match a {
        CycleAnswerView::Deployed(x) => x,
        _ => false,
    }
}

fn deployed_in(a: &CycleAnswer) -> (r: bool)
    ensures
        r == deployed_in_spec(a.deep_view()),
{
    match a {
        CycleAnswer::Deployed(x) => *x,
        _ => false,
    }
}

/// The file, where it read.
pub open spec fn file_in_spec(a: CycleAnswerView) -> Option<Doc> {
    match a {
        CycleAnswerView::File(x) => x,
        _ => None,
    }
}

fn file_in(a: &CycleAnswer) -> (r: Option<Json>)
    ensures
        r.deep_view() == file_in_spec(a.deep_view()),
{
    match a {
        CycleAnswer::File(x) => x.dup(),
        _ => None,
    }
}

/// Why a part failed, where it did.
pub open spec fn failure_in_spec(a: CycleAnswerView) -> Option<Seq<char>> {
    match a {
        CycleAnswerView::Failed(e) => Some(e),
        _ => None,
    }
}

fn failure_in(a: &CycleAnswer) -> (r: Option<String>)
    ensures
        r.deep_view() == failure_in_spec(a.deep_view()),
{
    match a {
        CycleAnswer::Failed(e) => Some(text::owned(e.as_str())),
        _ => None,
    }
}

/// Write `data.json`; a failure ends the cycle.
pub open spec fn data_part_spec(
    c: CycleView,
    parts: Parts,
    answers: Seq<CycleAnswerView>,
) -> CycleView {
    if !parts.data {
        c
    } else {
        let (v, a) = cycle_asked_spec(c, CycleAskView::Data, answers);
        if cycle_rests_spec(v) {
            v
        } else {
            match failure_in_spec(a) {
                Some(e) => cycle_over_spec(cycle_warns_spec(v, "snapshot failed: "@ + e), 1),
                None => v,
            }
        }
    }
}

fn data_part(c: Cycle, parts: Parts, answers: &Vec<CycleAnswer>) -> (r: Cycle)
    ensures
        r.deep_view() == data_part_spec(c.deep_view(), parts, answers.deep_view()),
{
    if !parts.data {
        return c;
    }
    let (v, a) = cycle_asked(c, CycleAsk::Data, answers);
    if cycle_rests(&v) {
        return v;
    }
    match failure_in(&a) {
        Some(e) => {
            let mut line = text::owned("snapshot failed: ");
            line.push_str(e.as_str());
            cycle_over(cycle_warns(v, line), 1)
        },
        None => v,
    }
}

/// Write one of the other files; a failure is told and the cycle goes on.
pub open spec fn soft_part_spec(
    c: CycleView,
    wanted: bool,
    a: CycleAskView,
    part: Seq<char>,
    answers: Seq<CycleAnswerView>,
) -> CycleView {
    if !wanted {
        c
    } else {
        let (v, got) = cycle_asked_spec(c, a, answers);
        if cycle_rests_spec(v) {
            v
        } else {
            match failure_in_spec(got) {
                Some(e) => {
                    let (on_err, on_out) = soft_failure_spec(part, e);
                    cycle_says_spec(cycle_warns_spec(v, on_err), on_out)
                },
                None => v,
            }
        }
    }
}

fn soft_part(
    c: Cycle,
    wanted: bool,
    a: CycleAsk,
    part: &str,
    answers: &Vec<CycleAnswer>,
) -> (r: Cycle)
    ensures
        r.deep_view() == soft_part_spec(
            c.deep_view(),
            wanted,
            a.deep_view(),
            part@,
            answers.deep_view(),
        ),
{
    if !wanted {
        return c;
    }
    let (v, got) = cycle_asked(c, a, answers);
    if cycle_rests(&v) {
        return v;
    }
    match failure_in(&got) {
        Some(e) => {
            let (on_err, on_out) = soft_failure(part, e.as_str());
            cycle_says(cycle_warns(v, on_err), on_out)
        },
        None => v,
    }
}

/// Count what came of the deploy command. A failure streak that crosses its alert point fails the
/// cycle.
pub open spec fn after_command_spec(
    c: CycleView,
    ok: bool,
    answers: Seq<CycleAnswerView>,
) -> CycleView {
    let c = if !ok {
        cycle_says_spec(c, "deploy failed (snapshot still regenerated)"@)
    } else {
        c
    };
    let (c1, t) = cycle_asked_spec(c, CycleAskView::Clock, answers);
    if cycle_rests_spec(c1) {
        c1
    } else {
        let (c2, f) = cycle_asked_spec(c1, CycleAskView::Status, answers);
        if cycle_rests_spec(c2) {
            c2
        } else {
            let (st, alert) = deploy_update_spec(file_in_spec(f), ok, time_in_spec(t));
            let streak = failures_text_spec(st);
            let (c3, saved) = cycle_asked_spec(c2, CycleAskView::Save(st), answers);
            if cycle_rests_spec(c3) {
                c3
            } else if alert {
                let c4 = cycle_says_spec(c3, "deploy failed "@ + streak + "x in a row"@);
                cycle_over_spec(cycle_says_spec(c4, "deploy failure streak -> alerting"@), 1)
            } else {
                cycle_over_spec(c3, 0)
            }
        }
    }
}

fn after_command(c: Cycle, ok: bool, answers: &Vec<CycleAnswer>) -> (r: Cycle)
    ensures
        r.deep_view() == after_command_spec(c.deep_view(), ok, answers.deep_view()),
{
    let mut c = c;
    if !ok {
        c = cycle_says(c, text::owned("deploy failed (snapshot still regenerated)"));
    }
    let (c1, t) = cycle_asked(c, CycleAsk::Clock, answers);
    if cycle_rests(&c1) {
        return c1;
    }
    let (c2, f) = cycle_asked(c1, CycleAsk::Status, answers);
    if cycle_rests(&c2) {
        return c2;
    }
    let (st, alert) = deploy_update(list::borrow(&file_in(&f)), ok, time_in(&t));
    let streak = failures_text(&st);
    let (c3, saved) = cycle_asked(c2, CycleAsk::Save(st), answers);
    if cycle_rests(&c3) {
        return c3;
    }
    if alert {
        let mut line = text::owned("deploy failed ");
        line.push_str(streak.as_str());
        line.push_str("x in a row");
        let c4 = cycle_says(c3, line);
        return cycle_over(cycle_says(c4, text::owned("deploy failure streak -> alerting")), 1);
    }
    cycle_over(c3, 0)
}

/// The deploy step, which ends the cycle.
pub open spec fn deploy_part_spec(
    c: CycleView,
    parts: Parts,
    command: Option<Seq<char>>,
    deploy: bool,
    answers: Seq<CycleAnswerView>,
) -> CycleView {
    match deploy_step_spec(parts, command, deploy) {
        DeployStepView::Nothing => cycle_over_spec(c, 0),
        DeployStepView::Skip(why) => cycle_over_spec(cycle_says_spec(c, why), 0),
        DeployStepView::Run(cmd) => {
            let (v, a) = cycle_asked_spec(c, CycleAskView::Deploy(cmd), answers);
            if cycle_rests_spec(v) {
                v
            } else {
                after_command_spec(v, deployed_in_spec(a), answers)
            }
        },
    }
}

fn deploy_part(
    c: Cycle,
    parts: Parts,
    command: Option<&str>,
    deploy: bool,
    answers: &Vec<CycleAnswer>,
) -> (r: Cycle)
    ensures
        r.deep_view() == deploy_part_spec(
            c.deep_view(),
            parts,
            command.deep_view(),
            deploy,
            answers.deep_view(),
        ),
{
    match deploy_step(parts, command, deploy) {
        DeployStep::Nothing => cycle_over(c, 0),
        DeployStep::Skip(why) => cycle_over(cycle_says(c, why), 0),
        DeployStep::Run(cmd) => {
            let (v, a) = cycle_asked(c, CycleAsk::Deploy(cmd), answers);
            if cycle_rests(&v) {
                return v;
            }
            after_command(v, deployed_in(&a), answers)
        },
    }
}

/// One cycle, as far as the answers go. Its exit code is 1 when `data.json` could not be built or
/// the deploy failure streak crossed its alert point, else 0.
pub open spec fn cycle_spec(
    parts: Parts,
    command: Option<Seq<char>>,
    deploy: bool,
    answers: Seq<CycleAnswerView>,
) -> CycleView {
    let (c1, t) = cycle_asked_spec(cycle_begun_spec(), CycleAskView::Clock, answers);
    if cycle_rests_spec(c1) {
        c1
    } else {
        let c2 = data_part_spec(
            cycle_says_spec(c1, cycle_head_spec(time_in_spec(t))),
            parts,
            answers,
        );
        if cycle_rests_spec(c2) {
            c2
        } else {
            let c3 = soft_part_spec(
                c2,
                parts.scenarios,
                CycleAskView::Scenarios,
                "scenarios"@,
                answers,
            );
            if cycle_rests_spec(c3) {
                c3
            } else {
                let c4 = soft_part_spec(
                    c3,
                    parts.wallets,
                    CycleAskView::Wallets,
                    "wallets"@,
                    answers,
                );
                if cycle_rests_spec(c4) {
                    c4
                } else {
                    deploy_part_spec(c4, parts, command, deploy, answers)
                }
            }
        }
    }
}

/// One cycle, as far as the answers go. Its exit code is 1 when `data.json` could not be built or
/// the deploy failure streak crossed its alert point, else 0.
pub fn cycle(
    parts: Parts,
    command: Option<&str>,
    deploy: bool,
    answers: &Vec<CycleAnswer>,
) -> (r: Cycle)
    ensures
        r.deep_view() == cycle_spec(parts, command.deep_view(), deploy, answers.deep_view()),
{
    let (c1, t) = cycle_asked(cycle_begun(), CycleAsk::Clock, answers);
    if cycle_rests(&c1) {
        return c1;
    }
    let c2 = data_part(cycle_says(c1, cycle_head(time_in(&t))), parts, answers);
    if cycle_rests(&c2) {
        return c2;
    }
    let c3 = soft_part(c2, parts.scenarios, CycleAsk::Scenarios, "scenarios", answers);
    if cycle_rests(&c3) {
        return c3;
    }
    let c4 = soft_part(c3, parts.wallets, CycleAsk::Wallets, "wallets", answers);
    if cycle_rests(&c4) {
        return c4;
    }
    deploy_part(c4, parts, command, deploy, answers)
}

impl Default for Parts {
    fn default() -> (r: Parts)
        ensures
            r == (Parts { data: true, scenarios: true, wallets: true, deploy: true }),
    {
        Parts { data: true, scenarios: true, wallets: true, deploy: true }
    }
}

// ------------------------------------------------------------------ laws
/// A deploy that succeeds ends the streak: the next failure is the first one.
pub proof fn law_success_ends_the_streak(file: Option<Doc>, now: Double, later: Double)
    ensures
        ({
            let (st, alert) = deploy_update_spec(file, true, now);
            let (next, again) = deploy_update_spec(Some(st), false, later);
            &&& !alert
            &&& next.get("consecutive_failures"@) == Some(Doc::Int(1))
            &&& !again
        }),
{
    let base = deploy_status_spec(file);
    let ok = base.set("last_ok_ts"@, Doc::Float(now));
    json::law_set_then_get(ok, "consecutive_failures"@, Doc::Int(0), "consecutive_failures"@);
    let st = ok.set("consecutive_failures"@, Doc::Int(0));
    let failed = st.set("last_fail_ts"@, Doc::Float(later));
    json::law_set_then_get(failed, "consecutive_failures"@, Doc::Int(1), "consecutive_failures"@);
}

/// A snapshot that fails ends the cycle with code 1, and nothing else of it is done.
pub proof fn law_a_failed_snapshot_fails_the_cycle(
    parts: Parts,
    command: Option<Seq<char>>,
    deploy: bool,
    answers: Seq<CycleAnswerView>,
    now: Double,
    e: Seq<char>,
)
    requires
        parts.data,
        answers.len() >= 2,
        answers[0] == CycleAnswerView::Time(now),
        answers[1] == CycleAnswerView::Failed(e),
    ensures
        ({
            let c = cycle_spec(parts, command, deploy, answers);
            &&& c.code == Some(1i64)
            &&& c.ask is None
            &&& c.lines == seq![
                CycleLineView { err: false, text: cycle_head_spec(now) },
                CycleLineView { err: true, text: "snapshot failed: "@ + e },
            ]
        }),
{
    assert(cycle_spec(parts, command, deploy, answers).lines =~= seq![
        CycleLineView { err: false, text: cycle_head_spec(now) },
        CycleLineView { err: true, text: "snapshot failed: "@ + e },
    ]);
}

/// Another file that fails is told on both outputs, and the cycle goes on.
pub proof fn law_a_soft_failure_goes_on(
    c: CycleView,
    a: CycleAskView,
    part: Seq<char>,
    answers: Seq<CycleAnswerView>,
    e: Seq<char>,
)
    requires
        !cycle_rests_spec(c),
        c.at < answers.len(),
        answers[c.at as int] == CycleAnswerView::Failed(e),
    ensures
        ({
            let after = soft_part_spec(c, true, a, part, answers);
            &&& !cycle_rests_spec(after)
            &&& after.at == c.at + 1 || c.at == usize::MAX
            &&& after.lines == c.lines.push(
                CycleLineView { err: true, text: soft_failure_spec(part, e).0 },
            ).push(CycleLineView { err: false, text: soft_failure_spec(part, e).1 })
        }),
{
}

/// A cycle asks for nothing but its parts.
pub proof fn law_the_parts_decide_what_runs(
    parts: Parts,
    command: Option<Seq<char>>,
    deploy: bool,
    answers: Seq<CycleAnswerView>,
)
    ensures
        ({
            let ask = cycle_spec(parts, command, deploy, answers).ask;
            &&& ask == Some(CycleAskView::Data) ==> parts.data
            &&& ask == Some(CycleAskView::Scenarios) ==> parts.scenarios
            &&& ask == Some(CycleAskView::Wallets) ==> parts.wallets
            &&& (ask matches Some(CycleAskView::Deploy(c)) ==> parts.deploy && deploy && command
                == Some(c))
        }),
{
}

/// Only a snapshot that failed and a deploy that was run can fail a cycle.
pub proof fn law_nothing_else_fails_the_cycle(
    parts: Parts,
    command: Option<Seq<char>>,
    deploy: bool,
    answers: Seq<CycleAnswerView>,
)
    requires
        cycle_spec(parts, command, deploy, answers).code == Some(1i64),
    ensures
        parts.data && answers[1] is Failed || parts.deploy && deploy && command is Some,
{
}

/// The third failure in a row fails the cycle, and every twelfth after that.
pub proof fn law_the_streak_alerts_every_twelfth(n: int)
    ensures
        alerts_at(n) <==> n >= 3 && (n - 3) % 12 == 0,
{
}

/// A stretch of the past that the book is replayed along.
#[derive(Debug)]
pub struct Window {
    pub key: String,
    pub label: String,
    pub t0: String,
    pub days: i64,
    pub desc: String,
}

/// What a [`Window`] holds.
pub struct WindowView {
    pub key: Seq<char>,
    pub label: Seq<char>,
    pub t0: Seq<char>,
    pub days: i64,
    pub desc: Seq<char>,
}

impl DeepView for Window {
    type V = WindowView;

    open spec fn deep_view(&self) -> WindowView {
        WindowView {
            key: self.key@,
            label: self.label@,
            t0: self.t0@,
            days: self.days,
            desc: self.desc@,
        }
    }
}

impl Duplicate for Window {
    fn dup(&self) -> (r: Window) {
        Window {
            key: text::owned(self.key.as_str()),
            label: text::owned(self.label.as_str()),
            t0: text::owned(self.t0.as_str()),
            days: self.days,
            desc: text::owned(self.desc.as_str()),
        }
    }
}

/// The scenario model's inputs that are not the book.
#[derive(Debug)]
pub struct ScenarioKnobs {
    pub replay_cache: String,
    /// One fee for every venue, instead of each venue's.
    pub fee_pct: Option<Double>,
    pub slip_pct: Double,
    pub dex_usd: Double,
    /// The horizon of a window that does not set its own.
    pub days: i64,
    pub new_cash_usd: Double,
    pub paths: u64,
    pub seed: u64,
    pub timing: String,
    pub alloc: Option<Vec<(String, Double)>>,
    pub alts: Option<Vec<String>>,
    /// Per coin: file and kind, in priority order.
    pub sources: Vec<(String, Vec<(String, String)>)>,
    /// Per coin: the all-time high, and its day.
    pub ath: Vec<(String, Double, String)>,
    pub windows: Vec<Window>,
}

/// What a [`ScenarioKnobs`] holds.
pub struct ScenarioKnobsView {
    pub replay_cache: Seq<char>,
    pub fee_pct: Option<Double>,
    pub slip_pct: Double,
    pub dex_usd: Double,
    pub days: i64,
    pub new_cash_usd: Double,
    pub paths: u64,
    pub seed: u64,
    pub timing: Seq<char>,
    pub alloc: Option<Seq<(Seq<char>, Double)>>,
    pub alts: Option<Seq<Seq<char>>>,
    pub sources: Seq<(Seq<char>, Seq<(Seq<char>, Seq<char>)>)>,
    pub ath: Seq<(Seq<char>, Double, Seq<char>)>,
    pub windows: Seq<WindowView>,
}

impl DeepView for ScenarioKnobs {
    type V = ScenarioKnobsView;

    open spec fn deep_view(&self) -> ScenarioKnobsView {
        ScenarioKnobsView {
            replay_cache: self.replay_cache@,
            fee_pct: self.fee_pct,
            slip_pct: self.slip_pct,
            dex_usd: self.dex_usd,
            days: self.days,
            new_cash_usd: self.new_cash_usd,
            paths: self.paths,
            seed: self.seed,
            timing: self.timing@,
            alloc: self.alloc.deep_view(),
            alts: self.alts.deep_view(),
            sources: self.sources.deep_view(),
            ath: self.ath.deep_view(),
            windows: self.windows.deep_view(),
        }
    }
}

impl Duplicate for ScenarioKnobs {
    fn dup(&self) -> (r: ScenarioKnobs) {
        ScenarioKnobs {
            replay_cache: text::owned(self.replay_cache.as_str()),
            fee_pct: self.fee_pct,
            slip_pct: self.slip_pct,
            dex_usd: self.dex_usd,
            days: self.days,
            new_cash_usd: self.new_cash_usd,
            paths: self.paths,
            seed: self.seed,
            timing: text::owned(self.timing.as_str()),
            alloc: self.alloc.dup(),
            alts: self.alts.dup(),
            sources: self.sources.dup(),
            ath: self.ath.dup(),
            windows: self.windows.dup(),
        }
    }
}

/// One chain of a vault.
#[derive(Debug)]
pub struct Leg {
    pub label: String,
    pub rpc: String,
    pub token: String,
    pub vault: String,
}

/// What a [`Leg`] holds.
pub struct LegView {
    pub label: Seq<char>,
    pub rpc: Seq<char>,
    pub token: Seq<char>,
    pub vault: Seq<char>,
}

impl DeepView for Leg {
    type V = LegView;

    open spec fn deep_view(&self) -> LegView {
        LegView {
            label: self.label@,
            rpc: self.rpc@,
            token: self.token@,
            vault: self.vault@,
        }
    }
}

impl Duplicate for Leg {
    fn dup(&self) -> (r: Leg) {
        Leg {
            label: text::owned(self.label.as_str()),
            rpc: text::owned(self.rpc.as_str()),
            token: text::owned(self.token.as_str()),
            vault: text::owned(self.vault.as_str()),
        }
    }
}

/// A Cosmos SDK chain through a REST endpoint.
#[derive(Debug)]
pub struct CosmosWallet {
    pub chain: String,
    pub address: String,
    pub decimals: u32,
    pub rest: String,
}

/// What a [`CosmosWallet`] holds.
pub struct CosmosWalletView {
    pub chain: Seq<char>,
    pub address: Seq<char>,
    pub decimals: u32,
    pub rest: Seq<char>,
}

impl DeepView for CosmosWallet {
    type V = CosmosWalletView;

    open spec fn deep_view(&self) -> CosmosWalletView {
        CosmosWalletView {
            chain: self.chain@,
            address: self.address@,
            decimals: self.decimals,
            rest: self.rest@,
        }
    }
}

impl Duplicate for CosmosWallet {
    fn dup(&self) -> (r: CosmosWallet) {
        CosmosWallet {
            chain: text::owned(self.chain.as_str()),
            address: text::owned(self.address.as_str()),
            decimals: self.decimals,
            rest: text::owned(self.rest.as_str()),
        }
    }
}

/// An ERC-4626 staking vault: the coin and its vault share on one or more EVM chains, the share's
/// rate read from the first chain's vault.
#[derive(Debug)]
pub struct VaultWallet {
    pub address: String,
    pub chain: String,
    pub unbond_days: i64,
    pub legs: Vec<Leg>,
}

/// What a [`VaultWallet`] holds.
pub struct VaultWalletView {
    pub address: Seq<char>,
    pub chain: Seq<char>,
    pub unbond_days: i64,
    pub legs: Seq<LegView>,
}

impl DeepView for VaultWallet {
    type V = VaultWalletView;

    open spec fn deep_view(&self) -> VaultWalletView {
        VaultWalletView {
            address: self.address@,
            chain: self.chain@,
            unbond_days: self.unbond_days,
            legs: self.legs.deep_view(),
        }
    }
}

impl Duplicate for VaultWallet {
    fn dup(&self) -> (r: VaultWallet) {
        VaultWallet {
            address: text::owned(self.address.as_str()),
            chain: text::owned(self.chain.as_str()),
            unbond_days: self.unbond_days,
            legs: self.legs.dup(),
        }
    }
}

/// A Bitcoin address through a mempool-style API.
#[derive(Debug)]
pub struct BtcWallet {
    pub address: String,
    pub chain: String,
    pub api: String,
}

/// What a [`BtcWallet`] holds.
pub struct BtcWalletView {
    pub address: Seq<char>,
    pub chain: Seq<char>,
    pub api: Seq<char>,
}

impl DeepView for BtcWallet {
    type V = BtcWalletView;

    open spec fn deep_view(&self) -> BtcWalletView {
        BtcWalletView {
            address: self.address@,
            chain: self.chain@,
            api: self.api@,
        }
    }
}

impl Duplicate for BtcWallet {
    fn dup(&self) -> (r: BtcWallet) {
        BtcWallet {
            address: text::owned(self.address.as_str()),
            chain: text::owned(self.chain.as_str()),
            api: text::owned(self.api.as_str()),
        }
    }
}

/// One self-custody wallet.
#[derive(Debug)]
pub enum WalletSpec {
    Cosmos(CosmosWallet),
    Vault(VaultWallet),
    Btc(BtcWallet),
}

/// What a [`WalletSpec`] says.
#[allow(inconsistent_fields)]
pub enum WalletSpecView {
    Cosmos(CosmosWalletView),
    Vault(VaultWalletView),
    Btc(BtcWalletView),
}

impl DeepView for WalletSpec {
    type V = WalletSpecView;

    open spec fn deep_view(&self) -> WalletSpecView {
        match self {
            WalletSpec::Cosmos(a) => WalletSpecView::Cosmos(a.deep_view()),
            WalletSpec::Vault(a) => WalletSpecView::Vault(a.deep_view()),
            WalletSpec::Btc(a) => WalletSpecView::Btc(a.deep_view()),
        }
    }
}

impl Duplicate for WalletSpec {
    fn dup(&self) -> (r: WalletSpec) {
        match self {
            WalletSpec::Cosmos(a) => WalletSpec::Cosmos(a.dup()),
            WalletSpec::Vault(a) => WalletSpec::Vault(a.dup()),
            WalletSpec::Btc(a) => WalletSpec::Btc(a.dup()),
        }
    }
}

/// The wallets, and when unbonding is due.
#[derive(Debug)]
pub struct WalletKnobs {
    pub list_: Vec<(String, WalletSpec)>,
    pub targets: String,
    pub tranche_x: Double,
    pub lead_pct: Double,
    pub rearm_pct: Double,
    pub trail_only: Vec<String>,
    pub timeout_s: Double,
}

/// What a [`WalletKnobs`] holds.
pub struct WalletKnobsView {
    pub list_: Seq<(Seq<char>, WalletSpecView)>,
    pub targets: Seq<char>,
    pub tranche_x: Double,
    pub lead_pct: Double,
    pub rearm_pct: Double,
    pub trail_only: Seq<Seq<char>>,
    pub timeout_s: Double,
}

impl DeepView for WalletKnobs {
    type V = WalletKnobsView;

    open spec fn deep_view(&self) -> WalletKnobsView {
        WalletKnobsView {
            list_: self.list_.deep_view(),
            targets: self.targets@,
            tranche_x: self.tranche_x,
            lead_pct: self.lead_pct,
            rearm_pct: self.rearm_pct,
            trail_only: self.trail_only.deep_view(),
            timeout_s: self.timeout_s,
        }
    }
}

impl Duplicate for WalletKnobs {
    fn dup(&self) -> (r: WalletKnobs) {
        WalletKnobs {
            list_: self.list_.dup(),
            targets: text::owned(self.targets.as_str()),
            tranche_x: self.tranche_x,
            lead_pct: self.lead_pct,
            rearm_pct: self.rearm_pct,
            trail_only: self.trail_only.dup(),
            timeout_s: self.timeout_s,
        }
    }
}

/// Every dashboard knob, from the run config's `dashboard:` block and the environment. Paths are as
/// they are written there.
#[derive(Debug)]
pub struct DashConfig {
    /// Where `data.json`, `scenarios.json` and `wallets.json` are written.
    pub public_dir: String,
    /// Where the collector keeps its own state (`.deploy-status.json`, caches).
    pub work_dir: String,
    /// The run's log file; its modification time is the banner's "last run".
    pub run_log: Option<String>,
    /// Fills made outside the bot, shown in the order log only.
    pub manual_fills: String,
    /// Venue of orders placed before `legacy_before_ts`, for journal rows that do not name one (the book
    /// was routed differently then).
    pub legacy_venues: Vec<(String, String)>,
    pub legacy_before_ts: Double,
    /// Run the deploy step after the files are written.
    pub deploy: bool,
    /// The shell command that publishes `public_dir` (for example the static host's CLI).
    pub deploy_command: Option<String>,
    /// CoinGecko id per coin, shared by the wallet prices and the ATH refresh.
    pub coingecko: Vec<(String, String)>,
    pub scenarios: ScenarioKnobs,
    pub wallets: WalletKnobs,
}

/// What a [`DashConfig`] holds.
pub struct DashConfigView {
    pub public_dir: Seq<char>,
    pub work_dir: Seq<char>,
    pub run_log: Option<Seq<char>>,
    pub manual_fills: Seq<char>,
    pub legacy_venues: Seq<(Seq<char>, Seq<char>)>,
    pub legacy_before_ts: Double,
    pub deploy: bool,
    pub deploy_command: Option<Seq<char>>,
    pub coingecko: Seq<(Seq<char>, Seq<char>)>,
    pub scenarios: ScenarioKnobsView,
    pub wallets: WalletKnobsView,
}

impl DeepView for DashConfig {
    type V = DashConfigView;

    open spec fn deep_view(&self) -> DashConfigView {
        DashConfigView {
            public_dir: self.public_dir@,
            work_dir: self.work_dir@,
            run_log: self.run_log.deep_view(),
            manual_fills: self.manual_fills@,
            legacy_venues: self.legacy_venues.deep_view(),
            legacy_before_ts: self.legacy_before_ts,
            deploy: self.deploy,
            deploy_command: self.deploy_command.deep_view(),
            coingecko: self.coingecko.deep_view(),
            scenarios: self.scenarios.deep_view(),
            wallets: self.wallets.deep_view(),
        }
    }
}

impl Duplicate for DashConfig {
    fn dup(&self) -> (r: DashConfig) {
        DashConfig {
            public_dir: text::owned(self.public_dir.as_str()),
            work_dir: text::owned(self.work_dir.as_str()),
            run_log: self.run_log.dup(),
            manual_fills: text::owned(self.manual_fills.as_str()),
            legacy_venues: self.legacy_venues.dup(),
            legacy_before_ts: self.legacy_before_ts,
            deploy: self.deploy,
            deploy_command: self.deploy_command.dup(),
            coingecko: self.coingecko.dup(),
            scenarios: self.scenarios.dup(),
            wallets: self.wallets.dup(),
        }
    }
}

/// A window.
pub open spec fn window_spec(
    key: Seq<char>,
    label: Seq<char>,
    t0: Seq<char>,
    days: i64,
    desc: Seq<char>,
) -> WindowView {
    WindowView { key, label, t0, days, desc }
}

fn window(key: &str, label: &str, t0: &str, days: i64, desc: &str) -> (r: Window)
    ensures
        r.deep_view() == window_spec(key@, label@, t0@, days, desc@),
{
    Window {
        key: text::owned(key),
        label: text::owned(label),
        t0: text::owned(t0),
        days,
        desc: text::owned(desc),
    }
}

/// The windows the book is replayed along where none are configured.
pub open spec fn default_windows_spec() -> Seq<WindowView> {
    Seq::<WindowView>::empty().push(
        window_spec(
            "run_2023_early"@,
            "2023-24 from Jan 2023"@,
            "2023-01-26"@,
            900,
            "Confirmation two months off the Nov 2022 low: BTC to the Mar 2024 top, then the 2024-25 bear; 900 days, so the end is the bear low."@,
        ),
    ).push(
        window_spec(
            "run_2020_early"@,
            "2020-21 from May 2020"@,
            "2020-05-12"@,
            900,
            "Confirmation two months after the Covid low: the full 2020-21 run and the 2022 bear (900 days)."@,
        ),
    ).push(
        window_spec(
            "run_2020"@,
            "2020-21 mania"@,
            "2020-10-17"@,
            0,
            "BTC confirmed bull Oct 2020: the 2021 double top, then the 2022 bear."@,
        ),
    ).push(
        window_spec(
            "late_2021"@,
            "2021 late leg"@,
            "2021-09-01"@,
            0,
            "Confirmation into the Nov 2021 top: a short rounded top, then a full bear."@,
        ),
    ).push(
        window_spec(
            "run_2023"@,
            "2023-24 from Oct 2023"@,
            "2023-10-29"@,
            0,
            "Late confirmation, five months before the alt peak: BTC to the Mar 2024 top, a long chop."@,
        ),
    ).push(
        window_spec(
            "leg_2024"@,
            "2024-25 leg"@,
            "2024-10-27"@,
            0,
            "Confirmation Oct 2024: BTC to its Oct 2025 top while the alts peaked in Dec 2024 and bled."@,
        ),
    ).push(
        window_spec(
            "fail_2021"@,
            "bull fails"@,
            "2021-10-14"@,
            365,
            "Confirmation two weeks before the cycle top: BTC -29% in 90 days, the alts far worse."@,
        ),
    ).push(
        window_spec(
            "chop_2019"@,
            "2019 chop run"@,
            "2019-04-15"@,
            365,
            "Confirmation Apr 2019: BTC +100% then a 50% give-back."@,
        ),
    )
}

fn default_windows() -> (r: Vec<Window>)
    ensures
        r.deep_view() == default_windows_spec(),
{
    let mut out: Vec<Window> = list::none();
    list::push(
        &mut out,
        window(
            "run_2023_early",
            "2023-24 from Jan 2023",
            "2023-01-26",
            900,
            "Confirmation two months off the Nov 2022 low: BTC to the Mar 2024 top, then the 2024-25 bear; 900 days, so the end is the bear low.",
        ),
    );
    list::push(
        &mut out,
        window(
            "run_2020_early",
            "2020-21 from May 2020",
            "2020-05-12",
            900,
            "Confirmation two months after the Covid low: the full 2020-21 run and the 2022 bear (900 days).",
        ),
    );
    list::push(
        &mut out,
        window(
            "run_2020",
            "2020-21 mania",
            "2020-10-17",
            0,
            "BTC confirmed bull Oct 2020: the 2021 double top, then the 2022 bear.",
        ),
    );
    list::push(
        &mut out,
        window(
            "late_2021",
            "2021 late leg",
            "2021-09-01",
            0,
            "Confirmation into the Nov 2021 top: a short rounded top, then a full bear.",
        ),
    );
    list::push(
        &mut out,
        window(
            "run_2023",
            "2023-24 from Oct 2023",
            "2023-10-29",
            0,
            "Late confirmation, five months before the alt peak: BTC to the Mar 2024 top, a long chop.",
        ),
    );
    list::push(
        &mut out,
        window(
            "leg_2024",
            "2024-25 leg",
            "2024-10-27",
            0,
            "Confirmation Oct 2024: BTC to its Oct 2025 top while the alts peaked in Dec 2024 and bled.",
        ),
    );
    list::push(
        &mut out,
        window(
            "fail_2021",
            "bull fails",
            "2021-10-14",
            365,
            "Confirmation two weeks before the cycle top: BTC -29% in 90 days, the alts far worse.",
        ),
    );
    list::push(
        &mut out,
        window(
            "chop_2019",
            "2019 chop run",
            "2019-04-15",
            365,
            "Confirmation Apr 2019: BTC +100% then a 50% give-back.",
        ),
    );
    out
}

/// A path below another.
pub open spec fn path_join_spec(base: Seq<char>, name: Seq<char>) -> Seq<char> {
    if base == ""@ || text::ends(base, "/"@) {
        base + name
    } else {
        base + "/"@ + name
    }
}

/// A path below another.
pub fn path_join(base: &str, name: &str) -> (r: String)
    ensures
        r@ == path_join_spec(base@, name@),
{
    if text::same(base, "") || text::ends_with(base, "/") {
        let mut line = text::owned(base);
        line.push_str(name);
        return line;
    }
    let mut line2 = text::owned(base);
    line2.push_str("/");
    line2.push_str(name);
    line2
}

/// A word, a number or a flag as text.
pub open spec fn scalar_text_spec(y: Doc) -> Option<Seq<char>> {
    match y.as_text() {
        Some(s) => Some(s),
        None => if y is Bool {
            if y == Doc::Bool(true) {
                Some("true"@)
            } else {
                Some("false"@)
            }
        } else if y.num() is Some {
            Some(pyfmt::shown(pyfmt::ordered_doc(y)))
        } else {
            None
        },
    }
}

fn scalar_text(y: &Json) -> (r: Option<String>)
    ensures
        r.deep_view() == scalar_text_spec(y@),
{
    match y.as_str() {
        Some(s) => Some(text::owned(s)),
        None => {
            if y.is_bool() {
                return if y.is_true() {
                    Some(text::owned("true"))
                } else {
                    Some(text::owned("false"))
                };
            }
            if y.num().is_some() {
                return Some(pyfmt::value_str(y));
            }
            None
        },
    }
}

/// Of the first `n` parts.
pub open spec fn add_word_spec(xs: Seq<Seq<char>>, out: Seq<Seq<char>>, n: nat) -> Seq<Seq<char>> {
    out + list::gathered(
        xs,
        |part: Seq<char>| {
            let w = text::bare(text::trim(part), '"', '\'');
            if w != ""@ {
                Some(w)
            } else {
                None
            }
        },
        n,
    )
}

fn add_word(xs: &Vec<String>, out: Vec<String>) -> (r: Vec<String>)
    ensures
        r.deep_view() == add_word_spec(xs.deep_view(), out.deep_view(), xs@.len()),
{
    let ghost out0 = out.deep_view();
    let mut out = out;
    let mut i: usize = 0;
    while i < xs.len()
        invariant
            i <= xs@.len(),
            out.deep_view() == add_word_spec(xs.deep_view(), out0, i as nat),
        decreases xs@.len() - i,
    {
        let part = xs[i].as_str();
        let w = text::bared(text::trimmed(part).as_str(), '"', '\'');
        if !text::same(w.as_str(), "") {
            list::push(&mut out, w);
        }
        assert(out.deep_view() =~= add_word_spec(xs.deep_view(), out0, (i + 1) as nat));
        i = i + 1;
    }
    out
}

/// The words of a list written in one line.
pub open spec fn words_spec(y: Doc) -> Seq<Seq<char>> {
    let out = Seq::<Seq<char>>::empty();
    let s = text::bare(
        match scalar_text_spec(y) {
            Some(v) => v,
            None => ""@,
        },
        '[',
        ']',
    );
    add_word_spec(text::split(s, ','), out, text::split(s, ',').len())
}

fn words(y: &Json) -> (r: Vec<String>)
    ensures
        r.deep_view() == words_spec(y@),
{
    let mut out: Vec<String> = list::none();
    let s = text::bared(
        (match scalar_text(y) {
            Some(v) => v,
            None => text::owned(""),
        }).as_str(),
        '[',
        ']',
    );
    out = add_word(&list::split(s.as_str(), ','), out);
    out
}

/// Of the first `n` words.
pub open spec fn add_upper_spec(xs: Seq<Seq<char>>, out: Seq<Seq<char>>, n: nat) -> Seq<Seq<char>> {
    out + Seq::new(
        n,
        |i: int| {
            let s = xs[i];
            text::upper_case(s)
        },
    )
}

fn add_upper(xs: &Vec<String>, out: Vec<String>) -> (r: Vec<String>)
    ensures
        r.deep_view() == add_upper_spec(xs.deep_view(), out.deep_view(), xs@.len()),
{
    let ghost out0 = out.deep_view();
    let mut out = out;
    let mut i: usize = 0;
    while i < xs.len()
        invariant
            i <= xs@.len(),
            out.deep_view() == add_upper_spec(xs.deep_view(), out0, i as nat),
        decreases xs@.len() - i,
    {
        let s = xs[i].as_str();
        list::push(&mut out, text::uppercase(s));
        assert(out.deep_view() =~= add_upper_spec(xs.deep_view(), out0, (i + 1) as nat));
        i = i + 1;
    }
    out
}

/// The words, in capitals.
pub open spec fn upper_words_spec(y: Doc) -> Seq<Seq<char>> {
    add_upper_spec(words_spec(y), Seq::<Seq<char>>::empty(), words_spec(y).len())
}

fn upper_words(y: &Json) -> (r: Vec<String>)
    ensures
        r.deep_view() == upper_words_spec(y@),
{
    let mut out: Vec<String> = list::none();
    out = add_upper(&words(y), out);
    out
}

/// The word under a key.
pub open spec fn word_of_spec(y: Doc, key: Seq<char>) -> Result<Seq<char>, Seq<char>> {
    match scalar_text_spec(y) {
        Some(s) => Ok(s),
        None => Err("`dashboard."@ + key + "` must be a word"@),
    }
}

fn word_of(y: &Json, key: &str) -> (r: Result<String, String>)
    ensures
        list::outcome(r) == word_of_spec(y@, key@),
{
    match scalar_text(y) {
        Some(s) => Ok(s),
        None => {
            let mut line = text::owned("`dashboard.");
            line.push_str(key);
            line.push_str("` must be a word");
            Err(line)
        },
    }
}

/// The number under a key.
pub open spec fn number_of_spec(y: Doc, key: Seq<char>) -> Result<Double, Seq<char>> {
    match y.num() {
        Some(x) => Ok(x),
        None => Err("`dashboard."@ + key + "` must be a number"@),
    }
}

fn number_of(y: &Json, key: &str) -> (r: Result<Double, String>)
    ensures
        list::outcome(r) == number_of_spec(y@, key@),
{
    match y.num() {
        Some(x) => Ok(x),
        None => {
            let mut line = text::owned("`dashboard.");
            line.push_str(key);
            line.push_str("` must be a number");
            Err(line)
        },
    }
}

/// Whether a flag is set.
pub open spec fn flag_of_spec(y: Doc) -> bool {
    if y is Bool {
        y == Doc::Bool(true)
    } else {
        let t = text::lower_case(
            text::trim(
                match scalar_text_spec(y) {
                    Some(v) => v,
                    None => ""@,
                },
            ),
        );
        (t == "yes"@ || t == "true"@ || t == "on"@ || t == "1"@)
    }
}

fn flag_of(y: &Json) -> (r: bool)
    ensures
        r == flag_of_spec(y@),
{
    if y.is_bool() {
        return y.is_true();
    }
    let t = text::lowercase(
        text::trimmed(
            (match scalar_text(y) {
                Some(v) => v,
                None => text::owned(""),
            }).as_str(),
        ).as_str(),
    );
    (text::same(t.as_str(), "yes")
        || text::same(t.as_str(), "true")
        || text::same(t.as_str(), "on")
        || text::same(t.as_str(), "1"))
}

/// The mapping under a key.
pub open spec fn map_of_spec(y: Doc, key: Seq<char>) -> Result<Seq<(Seq<char>, Doc)>, Seq<char>> {
    if y is Obj {
        Ok(y.entries())
    } else if y is Null {
        Ok(Seq::<(Seq<char>, Doc)>::empty())
    } else {
        Err("`dashboard."@ + key + "` must be a mapping"@)
    }
}

fn map_of(y: &Json, key: &str) -> (r: Result<Vec<(String, Json)>, String>)
    ensures
        list::outcome(r) == map_of_spec(y@, key@),
{
    if y.is_obj() {
        return Ok(json::entries(y));
    }
    if y.is_null() {
        return Ok(list::none::<(String, Json)>());
    }
    let mut line = text::owned("`dashboard.");
    line.push_str(key);
    line.push_str("` must be a mapping");
    Err(line)
}

/// Of the first `n` entries.
pub open spec fn add_named_word_spec(
    key: Seq<char>,
    xs: Seq<(Seq<char>, Doc)>,
    out: Seq<(Seq<char>, Seq<char>)>,
    fault: Option<Seq<char>>,
    n: nat,
) -> (Seq<(Seq<char>, Seq<char>)>, Option<Seq<char>>)
    decreases n,
{
    if n == 0 {
        (out, fault)
    } else {
        let (out, fault) = add_named_word_spec(key, xs, out, fault, (n - 1) as nat);
        let it = xs[n - 1];
        let s = it.0;
        let x = it.1;
        match word_of_spec(x, key) {
            Ok(w) => (out.push((text::upper_case(s), w)), fault),
            Err(e) => {
                let fault = if fault is None {
                    Some(e)
                } else {
                    fault
                };
                (out, fault)
            },
        }
    }
}

fn add_named_word(
    key: &str,
    xs: &Vec<(String, Json)>,
    out: Vec<(String, String)>,
    fault: Option<String>,
) -> (r: (Vec<(String, String)>, Option<String>))
    ensures
        r.deep_view() == add_named_word_spec(
            key@,
            xs.deep_view(),
            out.deep_view(),
            fault.deep_view(),
            xs@.len(),
        ),
{
    let ghost out0 = out.deep_view();
    let ghost fault0 = fault.deep_view();
    let mut out = out;
    let mut fault = fault;
    let mut i: usize = 0;
    while i < xs.len()
        invariant
            i <= xs@.len(),
            (out.deep_view(), fault.deep_view()) == add_named_word_spec(
                key@,
                xs.deep_view(),
                out0,
                fault0,
                i as nat,
            ),
        decreases xs@.len() - i,
    {
        let it = &xs[i];
        let s = it.0.as_str();
        let x = &it.1;
        match word_of(x, key) {
            Ok(w) => {
                list::push(&mut out, (text::uppercase(s), w));
            },
            Err(e) => {
                if fault.is_none() {
                    fault = Some(e);
                }
            },
        }
        i = i + 1;
    }
    (out, fault)
}

/// A mapping of words, by name in capitals.
pub open spec fn named_words_spec(
    y: Doc,
    key: Seq<char>,
) -> Result<Seq<(Seq<char>, Seq<char>)>, Seq<char>> {
    match map_of_spec(y, key) {
        Ok(m) => {
            let out = Seq::<(Seq<char>, Seq<char>)>::empty();
            let fault: Option<Seq<char>> = None;
            let (out, fault) = add_named_word_spec(key, m, out, fault, m.len());
            match fault {
                Some(e) => Err(e),
                None => Ok(out),
            }
        },
        Err(e) => Err(e),
    }
}

fn named_words(y: &Json, key: &str) -> (r: Result<Vec<(String, String)>, String>)
    ensures
        list::outcome(r) == named_words_spec(y@, key@),
{
    let m = match map_of(y, key) {
        Ok(v) => v,
        Err(e) => {
            return Err(e);
        },
    };
    let mut out: Vec<(String, String)> = list::none();
    let mut fault: Option<String> = None;
    let (next_out, next_fault) = add_named_word(key, &m, out, fault);
    out = next_out;
    fault = next_fault;
    match fault {
        Some(e) => Err(e),
        None => Ok(out),
    }
}

/// Of the first `n` entries.
pub open spec fn add_named_number_spec(
    key: Seq<char>,
    xs: Seq<(Seq<char>, Doc)>,
    out: Seq<(Seq<char>, Double)>,
    fault: Option<Seq<char>>,
    n: nat,
) -> (Seq<(Seq<char>, Double)>, Option<Seq<char>>)
    decreases n,
{
    if n == 0 {
        (out, fault)
    } else {
        let (out, fault) = add_named_number_spec(key, xs, out, fault, (n - 1) as nat);
        let it = xs[n - 1];
        let s = it.0;
        let x = it.1;
        match number_of_spec(x, key) {
            Ok(w) => (out.push((text::upper_case(s), w)), fault),
            Err(e) => {
                let fault = if fault is None {
                    Some(e)
                } else {
                    fault
                };
                (out, fault)
            },
        }
    }
}

fn add_named_number(
    key: &str,
    xs: &Vec<(String, Json)>,
    out: Vec<(String, Double)>,
    fault: Option<String>,
) -> (r: (Vec<(String, Double)>, Option<String>))
    ensures
        r.deep_view() == add_named_number_spec(
            key@,
            xs.deep_view(),
            out.deep_view(),
            fault.deep_view(),
            xs@.len(),
        ),
{
    let ghost out0 = out.deep_view();
    let ghost fault0 = fault.deep_view();
    let mut out = out;
    let mut fault = fault;
    let mut i: usize = 0;
    while i < xs.len()
        invariant
            i <= xs@.len(),
            (out.deep_view(), fault.deep_view()) == add_named_number_spec(
                key@,
                xs.deep_view(),
                out0,
                fault0,
                i as nat,
            ),
        decreases xs@.len() - i,
    {
        let it = &xs[i];
        let s = it.0.as_str();
        let x = &it.1;
        match number_of(x, key) {
            Ok(w) => {
                list::push(&mut out, (text::uppercase(s), w));
            },
            Err(e) => {
                if fault.is_none() {
                    fault = Some(e);
                }
            },
        }
        i = i + 1;
    }
    (out, fault)
}

/// A mapping of numbers, by name in capitals.
pub open spec fn named_numbers_spec(
    y: Doc,
    key: Seq<char>,
) -> Result<Seq<(Seq<char>, Double)>, Seq<char>> {
    match map_of_spec(y, key) {
        Ok(m) => {
            let out = Seq::<(Seq<char>, Double)>::empty();
            let fault: Option<Seq<char>> = None;
            let (out, fault) = add_named_number_spec(key, m, out, fault, m.len());
            match fault {
                Some(e) => Err(e),
                None => Ok(out),
            }
        },
        Err(e) => Err(e),
    }
}

fn named_numbers(y: &Json, key: &str) -> (r: Result<Vec<(String, Double)>, String>)
    ensures
        list::outcome(r) == named_numbers_spec(y@, key@),
{
    let m = match map_of(y, key) {
        Ok(v) => v,
        Err(e) => {
            return Err(e);
        },
    };
    let mut out: Vec<(String, Double)> = list::none();
    let mut fault: Option<String> = None;
    let (next_out, next_fault) = add_named_number(key, &m, out, fault);
    out = next_out;
    fault = next_fault;
    match fault {
        Some(e) => Err(e),
        None => Ok(out),
    }
}

/// Of the first `n` words.
pub open spec fn add_file_spec(
    xs: Seq<Seq<char>>,
    out: Seq<(Seq<char>, Seq<char>)>,
    n: nat,
) -> Seq<(Seq<char>, Seq<char>)> {
    out + Seq::new(
        n,
        |i: int| {
            let part = xs[i];
            let ws = text::words(part);
            (
                match list::item(ws, 0) {
                    Some(v) => v,
                    None => ""@,
                },
                match list::item(ws, 1) {
                    Some(v) => v,
                    None => "ohlc"@,
                },
            )
        },
    )
}

fn add_file(xs: &Vec<String>, out: Vec<(String, String)>) -> (r: Vec<(String, String)>)
    ensures
        r.deep_view() == add_file_spec(xs.deep_view(), out.deep_view(), xs@.len()),
{
    let ghost out0 = out.deep_view();
    let mut out = out;
    let mut i: usize = 0;
    while i < xs.len()
        invariant
            i <= xs@.len(),
            out.deep_view() == add_file_spec(xs.deep_view(), out0, i as nat),
        decreases xs@.len() - i,
    {
        let part = xs[i].as_str();
        let ws = list::words(part);
        list::push(
            &mut out,
            (
                match list::str_ref(list::at(&ws, 0)) {
                    Some(v) => text::owned(v),
                    None => text::owned(""),
                },
                match list::str_ref(list::at(&ws, 1)) {
                    Some(v) => text::owned(v),
                    None => text::owned("ohlc"),
                },
            ),
        );
        assert(out.deep_view() =~= add_file_spec(xs.deep_view(), out0, (i + 1) as nat));
        i = i + 1;
    }
    out
}

/// A coin's history files, each with its kind.
pub open spec fn source_files_spec(y: Doc) -> Seq<(Seq<char>, Seq<char>)> {
    add_file_spec(words_spec(y), Seq::<(Seq<char>, Seq<char>)>::empty(), words_spec(y).len())
}

fn source_files(y: &Json) -> (r: Vec<(String, String)>)
    ensures
        r.deep_view() == source_files_spec(y@),
{
    let mut out: Vec<(String, String)> = list::none();
    out = add_file(&words(y), out);
    out
}

/// Of the first `n` entries.
pub open spec fn add_source_spec(
    xs: Seq<(Seq<char>, Doc)>,
    out: Seq<(Seq<char>, Seq<(Seq<char>, Seq<char>)>)>,
    n: nat,
) -> Seq<(Seq<char>, Seq<(Seq<char>, Seq<char>)>)> {
    out + Seq::new(
        n,
        |i: int| {
            let it = xs[i];
            let s = it.0;
            let x = it.1;
            (text::upper_case(s), source_files_spec(x))
        },
    )
}

fn add_source(
    xs: &Vec<(String, Json)>,
    out: Vec<(String, Vec<(String, String)>)>,
) -> (r: Vec<(String, Vec<(String, String)>)>)
    ensures
        r.deep_view() == add_source_spec(xs.deep_view(), out.deep_view(), xs@.len()),
{
    let ghost out0 = out.deep_view();
    let mut out = out;
    let mut i: usize = 0;
    while i < xs.len()
        invariant
            i <= xs@.len(),
            out.deep_view() == add_source_spec(xs.deep_view(), out0, i as nat),
        decreases xs@.len() - i,
    {
        let it = &xs[i];
        let s = it.0.as_str();
        let x = &it.1;
        list::push(&mut out, (text::uppercase(s), source_files(x)));
        assert(out.deep_view() =~= add_source_spec(xs.deep_view(), out0, (i + 1) as nat));
        i = i + 1;
    }
    out
}

/// The coins' history files.
pub open spec fn sources_of_spec(
    y: Doc,
    key: Seq<char>,
) -> Result<Seq<(Seq<char>, Seq<(Seq<char>, Seq<char>)>)>, Seq<char>> {
    match map_of_spec(y, key) {
        Ok(m) => {
            let out = add_source_spec(
                m,
                Seq::<(Seq<char>, Seq<(Seq<char>, Seq<char>)>)>::empty(),
                m.len(),
            );
            Ok(out)
        },
        Err(e) => Err(e),
    }
}

fn sources_of(y: &Json, key: &str) -> (r: Result<Vec<(String, Vec<(String, String)>)>, String>)
    ensures
        list::outcome(r) == sources_of_spec(y@, key@),
{
    let m = match map_of(y, key) {
        Ok(v) => v,
        Err(e) => {
            return Err(e);
        },
    };
    let mut out: Vec<(String, Vec<(String, String)>)> = list::none();
    out = add_source(&m, out);
    Ok(out)
}

/// A coin's all-time high: `<price> <YYYY-MM-DD>`.
pub open spec fn high_of_spec(
    sym: Seq<char>,
    y: Doc,
    key: Seq<char>,
) -> Result<(Seq<char>, Double, Seq<char>), Seq<char>> {
    match word_of_spec(y, key) {
        Ok(t) => {
            let ws = text::words(t);
            match list::item(ws, 0) {
                Some(a) => match list::item(ws, 1) {
                    Some(day) => match crate::watch::pyfmt::number_or_word(a) {
                        Some(x) => Ok((text::upper_case(sym), x, day)),
                        None => Err(
                            "`dashboard.ath."@
                                + sym
                                + "`: "@
                                + text::debug_form(a)
                                + " is not a number"@,
                        ),
                    },
                    None => Err("`dashboard.ath."@ + sym + "` must be `<price> <YYYY-MM-DD>`"@),
                },
                None => Err("`dashboard.ath."@ + sym + "` must be `<price> <YYYY-MM-DD>`"@),
            }
        },
        Err(e) => Err(e),
    }
}

fn high_of(sym: &str, y: &Json, key: &str) -> (r: Result<(String, Double, String), String>)
    ensures
        list::outcome(r) == high_of_spec(sym@, y@, key@),
{
    let t = match word_of(y, key) {
        Ok(v) => v,
        Err(e) => {
            return Err(e);
        },
    };
    let ws = list::words(t.as_str());
    match list::str_ref(list::at(&ws, 0)) {
        Some(a) => match list::str_ref(list::at(&ws, 1)) {
            Some(day) => match crate::watch::pyfmt::read_number_or_word(a) {
                Some(x) => Ok((text::uppercase(sym), x, text::owned(day))),
                None => {
                    let mut line = text::owned("`dashboard.ath.");
                    line.push_str(sym);
                    line.push_str("`: ");
                    line.push_str(text::debug_text(a).as_str());
                    line.push_str(" is not a number");
                    Err(line)
                },
            },
            None => {
                let mut line2 = text::owned("`dashboard.ath.");
                line2.push_str(sym);
                line2.push_str("` must be `<price> <YYYY-MM-DD>`");
                Err(line2)
            },
        },
        None => {
            let mut line3 = text::owned("`dashboard.ath.");
            line3.push_str(sym);
            line3.push_str("` must be `<price> <YYYY-MM-DD>`");
            Err(line3)
        },
    }
}

/// Of the first `n` entries.
pub open spec fn add_high_spec(
    key: Seq<char>,
    xs: Seq<(Seq<char>, Doc)>,
    out: Seq<(Seq<char>, Double, Seq<char>)>,
    fault: Option<Seq<char>>,
    n: nat,
) -> (Seq<(Seq<char>, Double, Seq<char>)>, Option<Seq<char>>)
    decreases n,
{
    if n == 0 {
        (out, fault)
    } else {
        let (out, fault) = add_high_spec(key, xs, out, fault, (n - 1) as nat);
        let it = xs[n - 1];
        let s = it.0;
        let x = it.1;
        match high_of_spec(s, x, key) {
            Ok(h) => (out.push(h), fault),
            Err(e) => {
                let fault = if fault is None {
                    Some(e)
                } else {
                    fault
                };
                (out, fault)
            },
        }
    }
}

fn add_high(
    key: &str,
    xs: &Vec<(String, Json)>,
    out: Vec<(String, Double, String)>,
    fault: Option<String>,
) -> (r: (Vec<(String, Double, String)>, Option<String>))
    ensures
        r.deep_view() == add_high_spec(
            key@,
            xs.deep_view(),
            out.deep_view(),
            fault.deep_view(),
            xs@.len(),
        ),
{
    let ghost out0 = out.deep_view();
    let ghost fault0 = fault.deep_view();
    let mut out = out;
    let mut fault = fault;
    let mut i: usize = 0;
    while i < xs.len()
        invariant
            i <= xs@.len(),
            (out.deep_view(), fault.deep_view()) == add_high_spec(
                key@,
                xs.deep_view(),
                out0,
                fault0,
                i as nat,
            ),
        decreases xs@.len() - i,
    {
        let it = &xs[i];
        let s = it.0.as_str();
        let x = &it.1;
        match high_of(s, x, key) {
            Ok(h) => {
                list::push(&mut out, h);
            },
            Err(e) => {
                if fault.is_none() {
                    fault = Some(e);
                }
            },
        }
        i = i + 1;
    }
    (out, fault)
}

/// The coins' all-time highs.
pub open spec fn highs_of_spec(
    y: Doc,
    key: Seq<char>,
) -> Result<Seq<(Seq<char>, Double, Seq<char>)>, Seq<char>> {
    match map_of_spec(y, key) {
        Ok(m) => {
            let out = Seq::<(Seq<char>, Double, Seq<char>)>::empty();
            let fault: Option<Seq<char>> = None;
            let (out, fault) = add_high_spec(key, m, out, fault, m.len());
            match fault {
                Some(e) => Err(e),
                None => Ok(out),
            }
        },
        Err(e) => Err(e),
    }
}

fn highs_of(y: &Json, key: &str) -> (r: Result<Vec<(String, Double, String)>, String>)
    ensures
        list::outcome(r) == highs_of_spec(y@, key@),
{
    let m = match map_of(y, key) {
        Ok(v) => v,
        Err(e) => {
            return Err(e);
        },
    };
    let mut out: Vec<(String, Double, String)> = list::none();
    let mut fault: Option<String> = None;
    let (next_out, next_fault) = add_high(key, &m, out, fault);
    out = next_out;
    fault = next_fault;
    match fault {
        Some(e) => Err(e),
        None => Ok(out),
    }
}

/// The word under a field, another where there is none.
pub open spec fn word_under_spec(
    y: Doc,
    f: Seq<char>,
    key: Seq<char>,
    other: Seq<char>,
) -> Result<Seq<char>, Seq<char>> {
    match y.get(f) {
        Some(v) => word_of_spec(v, key),
        None => Ok(other),
    }
}

fn word_under(y: &Json, f: &str, key: &str, other: &str) -> (r: Result<String, String>)
    ensures
        list::outcome(r) == word_under_spec(y@, f@, key@, other@),
{
    match y.get(f) {
        Some(v) => word_of(v, key),
        None => Ok(text::owned(other)),
    }
}

/// A window's days, 0 where it sets none.
pub open spec fn days_under_spec(y: Doc, key: Seq<char>) -> Result<i64, Seq<char>> {
    match y.get("days"@) {
        Some(v) => if v is Null {
            Ok(0)
        } else {
            match number_of_spec(v, key) {
                Ok(x) => Ok(x.cast_spec(i64::MIN as int, i64::MAX as int) as i64),
                Err(e) => Err(e),
            }
        },
        None => Ok(0),
    }
}

fn days_under(y: &Json, key: &str) -> (r: Result<i64, String>)
    ensures
        list::outcome(r) == days_under_spec(y@, key@),
{
    match y.get("days") {
        Some(v) => {
            if v.is_null() {
                return Ok(0);
            }
            let x = match number_of(v, key) {
                Ok(v) => v,
                Err(e) => {
                    return Err(e);
                },
            };
            Ok(x.to_i64())
        },
        None => Ok(0),
    }
}

/// A configured window.
pub open spec fn read_window_spec(
    name: Seq<char>,
    y: Doc,
    key: Seq<char>,
) -> Result<WindowView, Seq<char>> {
    match word_under_spec(y, "t0"@, key, ""@) {
        Ok(t0) => match days_under_spec(y, key) {
            Ok(days) => match word_under_spec(y, "label"@, key, name) {
                Ok(label) => match word_under_spec(y, "desc"@, key, ""@) {
                    Ok(desc) => Ok(WindowView { key: name, label, t0, days, desc }),
                    Err(e) => Err(e),
                },
                Err(e) => Err(e),
            },
            Err(e) => Err(e),
        },
        Err(e) => Err(e),
    }
}

fn read_window(name: &str, y: &Json, key: &str) -> (r: Result<Window, String>)
    ensures
        list::outcome(r) == read_window_spec(name@, y@, key@),
{
    let t0 = match word_under(y, "t0", key, "") {
        Ok(v) => v,
        Err(e) => {
            return Err(e);
        },
    };
    let days: i64 = match days_under(y, key) {
        Ok(v) => v,
        Err(e) => {
            return Err(e);
        },
    };
    let label = match word_under(y, "label", key, name) {
        Ok(v) => v,
        Err(e) => {
            return Err(e);
        },
    };
    let desc = match word_under(y, "desc", key, "") {
        Ok(v) => v,
        Err(e) => {
            return Err(e);
        },
    };
    Ok(Window { key: text::owned(name), label, t0, days, desc })
}

/// Of the first `n` entries.
pub open spec fn add_window_spec(
    key: Seq<char>,
    xs: Seq<(Seq<char>, Doc)>,
    out: Seq<WindowView>,
    fault: Option<Seq<char>>,
    n: nat,
) -> (Seq<WindowView>, Option<Seq<char>>)
    decreases n,
{
    if n == 0 {
        (out, fault)
    } else {
        let (out, fault) = add_window_spec(key, xs, out, fault, (n - 1) as nat);
        let it = xs[n - 1];
        let s = it.0;
        let x = it.1;
        match read_window_spec(s, x, key) {
            Ok(w) => (out.push(w), fault),
            Err(e) => {
                let fault = if fault is None {
                    Some(e)
                } else {
                    fault
                };
                (out, fault)
            },
        }
    }
}

fn add_window(
    key: &str,
    xs: &Vec<(String, Json)>,
    out: Vec<Window>,
    fault: Option<String>,
) -> (r: (Vec<Window>, Option<String>))
    ensures
        r.deep_view() == add_window_spec(
            key@,
            xs.deep_view(),
            out.deep_view(),
            fault.deep_view(),
            xs@.len(),
        ),
{
    let ghost out0 = out.deep_view();
    let ghost fault0 = fault.deep_view();
    let mut out = out;
    let mut fault = fault;
    let mut i: usize = 0;
    while i < xs.len()
        invariant
            i <= xs@.len(),
            (out.deep_view(), fault.deep_view()) == add_window_spec(
                key@,
                xs.deep_view(),
                out0,
                fault0,
                i as nat,
            ),
        decreases xs@.len() - i,
    {
        let it = &xs[i];
        let s = it.0.as_str();
        let x = &it.1;
        match read_window(s, x, key) {
            Ok(w) => {
                list::push(&mut out, w);
            },
            Err(e) => {
                if fault.is_none() {
                    fault = Some(e);
                }
            },
        }
        i = i + 1;
    }
    (out, fault)
}

/// The configured windows.
pub open spec fn windows_of_spec(y: Doc, key: Seq<char>) -> Result<Seq<WindowView>, Seq<char>> {
    match map_of_spec(y, key) {
        Ok(m) => {
            let out = Seq::<WindowView>::empty();
            let fault: Option<Seq<char>> = None;
            let (out, fault) = add_window_spec(key, m, out, fault, m.len());
            match fault {
                Some(e) => Err(e),
                None => Ok(out),
            }
        },
        Err(e) => Err(e),
    }
}

fn windows_of(y: &Json, key: &str) -> (r: Result<Vec<Window>, String>)
    ensures
        list::outcome(r) == windows_of_spec(y@, key@),
{
    let m = match map_of(y, key) {
        Ok(v) => v,
        Err(e) => {
            return Err(e);
        },
    };
    let mut out: Vec<Window> = list::none();
    let mut fault: Option<String> = None;
    let (next_out, next_fault) = add_window(key, &m, out, fault);
    out = next_out;
    fault = next_fault;
    match fault {
        Some(e) => Err(e),
        None => Ok(out),
    }
}

/// A word a wallet needs.
pub open spec fn wallet_word_spec(
    y: Doc,
    sym: Seq<char>,
    f: Seq<char>,
) -> Result<Seq<char>, Seq<char>> {
    match y.get(f) {
        Some(v) => word_of_spec(v, "wallets."@ + sym + "."@ + f),
        None => Err("`dashboard.wallets."@ + sym + "` needs `"@ + f + "`"@),
    }
}

fn wallet_word(y: &Json, sym: &str, f: &str) -> (r: Result<String, String>)
    ensures
        list::outcome(r) == wallet_word_spec(y@, sym@, f@),
{
    match y.get(f) {
        Some(v) => {
            let mut line = text::owned("wallets.");
            line.push_str(sym);
            line.push_str(".");
            line.push_str(f);
            word_of(v, line.as_str())
        },
        None => {
            let mut line2 = text::owned("`dashboard.wallets.");
            line2.push_str(sym);
            line2.push_str("` needs `");
            line2.push_str(f);
            line2.push_str("`");
            Err(line2)
        },
    }
}

/// A word of a wallet, another where there is none.
pub open spec fn wallet_word_or_spec(
    y: Doc,
    sym: Seq<char>,
    f: Seq<char>,
    other: Seq<char>,
) -> Result<Seq<char>, Seq<char>> {
    word_under_spec(y, f, "wallets."@ + sym + "."@ + f, other)
}

fn wallet_word_or(y: &Json, sym: &str, f: &str, other: &str) -> (r: Result<String, String>)
    ensures
        list::outcome(r) == wallet_word_or_spec(y@, sym@, f@, other@),
{
    let mut line = text::owned("wallets.");
    line.push_str(sym);
    line.push_str(".");
    line.push_str(f);
    word_under(y, f, line.as_str(), other)
}

/// One chain of a vault: `<rpc> <token> <vault>`.
pub open spec fn leg_of_spec(
    sym: Seq<char>,
    label: Seq<char>,
    y: Doc,
) -> Result<LegView, Seq<char>> {
    match word_of_spec(y, "wallets."@ + sym) {
        Ok(t) => {
            let ws = text::words(t);
            if ws.len() != 3 {
                Err(
                    "`dashboard.wallets."@
                        + sym
                        + ".legs."@
                        + label
                        + "` must be `<rpc> <token> <vault>`"@,
                )
            } else {
                Ok(
                    LegView {
                        label,
                        rpc: match list::item(ws, 0) {
                            Some(v) => v,
                            None => ""@,
                        },
                        token: match list::item(ws, 1) {
                            Some(v) => v,
                            None => ""@,
                        },
                        vault: match list::item(ws, 2) {
                            Some(v) => v,
                            None => ""@,
                        },
                    },
                )
            }
        },
        Err(e) => Err(e),
    }
}

fn leg_of(sym: &str, label: &str, y: &Json) -> (r: Result<Leg, String>)
    ensures
        list::outcome(r) == leg_of_spec(sym@, label@, y@),
{
    let mut line = text::owned("wallets.");
    line.push_str(sym);
    let t = match word_of(y, line.as_str()) {
        Ok(v) => v,
        Err(e) => {
            return Err(e);
        },
    };
    let ws = list::words(t.as_str());
    if ws.len() != 3 {
        let mut line2 = text::owned("`dashboard.wallets.");
        line2.push_str(sym);
        line2.push_str(".legs.");
        line2.push_str(label);
        line2.push_str("` must be `<rpc> <token> <vault>`");
        return Err(line2);
    }
    Ok(
        Leg {
            label: text::owned(label),
            rpc: match list::str_ref(list::at(&ws, 0)) {
                Some(v) => text::owned(v),
                None => text::owned(""),
            },
            token: match list::str_ref(list::at(&ws, 1)) {
                Some(v) => text::owned(v),
                None => text::owned(""),
            },
            vault: match list::str_ref(list::at(&ws, 2)) {
                Some(v) => text::owned(v),
                None => text::owned(""),
            },
        },
    )
}

/// Of the first `n` entries.
pub open spec fn add_leg_spec(
    sym: Seq<char>,
    xs: Seq<(Seq<char>, Doc)>,
    out: Seq<LegView>,
    fault: Option<Seq<char>>,
    n: nat,
) -> (Seq<LegView>, Option<Seq<char>>)
    decreases n,
{
    if n == 0 {
        (out, fault)
    } else {
        let (out, fault) = add_leg_spec(sym, xs, out, fault, (n - 1) as nat);
        let it = xs[n - 1];
        let s = it.0;
        let x = it.1;
        match leg_of_spec(sym, s, x) {
            Ok(l) => (out.push(l), fault),
            Err(e) => {
                let fault = if fault is None {
                    Some(e)
                } else {
                    fault
                };
                (out, fault)
            },
        }
    }
}

fn add_leg(
    sym: &str,
    xs: &Vec<(String, Json)>,
    out: Vec<Leg>,
    fault: Option<String>,
) -> (r: (Vec<Leg>, Option<String>))
    ensures
        r.deep_view() == add_leg_spec(
            sym@,
            xs.deep_view(),
            out.deep_view(),
            fault.deep_view(),
            xs@.len(),
        ),
{
    let ghost out0 = out.deep_view();
    let ghost fault0 = fault.deep_view();
    let mut out = out;
    let mut fault = fault;
    let mut i: usize = 0;
    while i < xs.len()
        invariant
            i <= xs@.len(),
            (out.deep_view(), fault.deep_view()) == add_leg_spec(
                sym@,
                xs.deep_view(),
                out0,
                fault0,
                i as nat,
            ),
        decreases xs@.len() - i,
    {
        let it = &xs[i];
        let s = it.0.as_str();
        let x = &it.1;
        match leg_of(sym, s, x) {
            Ok(l) => {
                list::push(&mut out, l);
            },
            Err(e) => {
                if fault.is_none() {
                    fault = Some(e);
                }
            },
        }
        i = i + 1;
    }
    (out, fault)
}

/// The chains of a vault.
pub open spec fn legs_of_spec(sym: Seq<char>, y: Doc) -> Result<Seq<LegView>, Seq<char>> {
    match map_of_spec(y.get_or_null("legs"@), "wallets."@ + sym) {
        Ok(m) => {
            let out = Seq::<LegView>::empty();
            let fault: Option<Seq<char>> = None;
            let (out, fault) = add_leg_spec(sym, m, out, fault, m.len());
            match fault {
                Some(e) => Err(e),
                None => if out.len() == 0 {
                    Err("`dashboard.wallets."@ + sym + "` needs `legs`"@)
                } else {
                    Ok(out)
                },
            }
        },
        Err(e) => Err(e),
    }
}

fn legs_of(sym: &str, y: &Json) -> (r: Result<Vec<Leg>, String>)
    ensures
        list::outcome(r) == legs_of_spec(sym@, y@),
{
    let mut line = text::owned("wallets.");
    line.push_str(sym);
    let m = match map_of(&y.get_copy("legs"), line.as_str()) {
        Ok(v) => v,
        Err(e) => {
            return Err(e);
        },
    };
    let mut out: Vec<Leg> = list::none();
    let mut fault: Option<String> = None;
    let (next_out, next_fault) = add_leg(sym, &m, out, fault);
    out = next_out;
    fault = next_fault;
    match fault {
        Some(e) => Err(e),
        None => {
            if out.len() == 0 {
                let mut line2 = text::owned("`dashboard.wallets.");
                line2.push_str(sym);
                line2.push_str("` needs `legs`");
                return Err(line2);
            }
            Ok(out)
        },
    }
}

/// A Cosmos SDK wallet.
pub open spec fn cosmos_wallet_spec(sym: Seq<char>, y: Doc) -> Result<WalletSpecView, Seq<char>> {
    match wallet_word_spec(y, sym, "chain"@) {
        Ok(chain) => match wallet_word_spec(y, sym, "address"@) {
            Ok(address) => match wallet_word_spec(y, sym, "decimals"@) {
                Ok(decimals) => match crate::watch::pyfmt::number_or_word(decimals) {
                    Some(x) => match wallet_word_or_spec(
                        y,
                        sym,
                        "rest"@,
                        "https://rest.cosmos.directory"@,
                    ) {
                        Ok(rest_) => Ok(
                            WalletSpecView::Cosmos(
                                CosmosWalletView {
                                    chain,
                                    address,
                                    decimals: x.cast_spec(0, u32::MAX as int) as u32,
                                    rest: rest_,
                                },
                            ),
                        ),
                        Err(e) => Err(e),
                    },
                    None => Err("`dashboard.wallets."@ + sym + ".decimals` must be a number"@),
                },
                Err(e) => Err(e),
            },
            Err(e) => Err(e),
        },
        Err(e) => Err(e),
    }
}

fn cosmos_wallet(sym: &str, y: &Json) -> (r: Result<WalletSpec, String>)
    ensures
        list::outcome(r) == cosmos_wallet_spec(sym@, y@),
{
    let chain = match wallet_word(y, sym, "chain") {
        Ok(v) => v,
        Err(e) => {
            return Err(e);
        },
    };
    let address = match wallet_word(y, sym, "address") {
        Ok(v) => v,
        Err(e) => {
            return Err(e);
        },
    };
    let decimals = match wallet_word(y, sym, "decimals") {
        Ok(v) => v,
        Err(e) => {
            return Err(e);
        },
    };
    match crate::watch::pyfmt::read_number_or_word(decimals.as_str()) {
        Some(x) => {
            let rest_ = match wallet_word_or(y, sym, "rest", "https://rest.cosmos.directory") {
                Ok(v) => v,
                Err(e) => {
                    return Err(e);
                },
            };
            Ok(
                WalletSpec::Cosmos(
                    CosmosWallet { chain, address, decimals: to_u32(x), rest: rest_ },
                ),
            )
        },
        None => {
            let mut line = text::owned("`dashboard.wallets.");
            line.push_str(sym);
            line.push_str(".decimals` must be a number");
            Err(line)
        },
    }
}

/// A staking vault.
pub open spec fn vault_wallet_spec(sym: Seq<char>, y: Doc) -> Result<WalletSpecView, Seq<char>> {
    match legs_of_spec(sym, y) {
        Ok(legs) => match wallet_word_spec(y, sym, "address"@) {
            Ok(address) => match wallet_word_spec(y, sym, "chain"@) {
                Ok(chain) => match wallet_word_or_spec(y, sym, "unbond_days"@, "0"@) {
                    Ok(days) => match crate::watch::pyfmt::number_or_word(days) {
                        Some(x) => Ok(
                            WalletSpecView::Vault(
                                VaultWalletView {
                                    address,
                                    chain,
                                    unbond_days: x.cast_spec(i64::MIN as int, i64::MAX as int) as i64,
                                    legs,
                                },
                            ),
                        ),
                        None => Err(
                            "`dashboard.wallets."@ + sym + ".unbond_days` must be a number"@,
                        ),
                    },
                    Err(e) => Err(e),
                },
                Err(e) => Err(e),
            },
            Err(e) => Err(e),
        },
        Err(e) => Err(e),
    }
}

fn vault_wallet(sym: &str, y: &Json) -> (r: Result<WalletSpec, String>)
    ensures
        list::outcome(r) == vault_wallet_spec(sym@, y@),
{
    let legs = match legs_of(sym, y) {
        Ok(v) => v,
        Err(e) => {
            return Err(e);
        },
    };
    let address = match wallet_word(y, sym, "address") {
        Ok(v) => v,
        Err(e) => {
            return Err(e);
        },
    };
    let chain = match wallet_word(y, sym, "chain") {
        Ok(v) => v,
        Err(e) => {
            return Err(e);
        },
    };
    let days = match wallet_word_or(y, sym, "unbond_days", "0") {
        Ok(v) => v,
        Err(e) => {
            return Err(e);
        },
    };
    match crate::watch::pyfmt::read_number_or_word(days.as_str()) {
        Some(x) => Ok(
            WalletSpec::Vault(VaultWallet { address, chain, unbond_days: x.to_i64(), legs }),
        ),
        None => {
            let mut line = text::owned("`dashboard.wallets.");
            line.push_str(sym);
            line.push_str(".unbond_days` must be a number");
            Err(line)
        },
    }
}

/// A Bitcoin address.
pub open spec fn btc_wallet_spec(sym: Seq<char>, y: Doc) -> Result<WalletSpecView, Seq<char>> {
    match wallet_word_spec(y, sym, "address"@) {
        Ok(address) => match wallet_word_or_spec(y, sym, "chain"@, "bitcoin"@) {
            Ok(chain) => match wallet_word_or_spec(y, sym, "api"@, "https://mempool.space/api"@) {
                Ok(api) => Ok(WalletSpecView::Btc(BtcWalletView { address, chain, api })),
                Err(e) => Err(e),
            },
            Err(e) => Err(e),
        },
        Err(e) => Err(e),
    }
}

fn btc_wallet(sym: &str, y: &Json) -> (r: Result<WalletSpec, String>)
    ensures
        list::outcome(r) == btc_wallet_spec(sym@, y@),
{
    let address = match wallet_word(y, sym, "address") {
        Ok(v) => v,
        Err(e) => {
            return Err(e);
        },
    };
    let chain = match wallet_word_or(y, sym, "chain", "bitcoin") {
        Ok(v) => v,
        Err(e) => {
            return Err(e);
        },
    };
    let api = match wallet_word_or(y, sym, "api", "https://mempool.space/api") {
        Ok(v) => v,
        Err(e) => {
            return Err(e);
        },
    };
    Ok(WalletSpec::Btc(BtcWallet { address, chain, api }))
}

/// A configured wallet.
pub open spec fn wallet_spec_spec(sym: Seq<char>, y: Doc) -> Result<WalletSpecView, Seq<char>> {
    match wallet_word_spec(y, sym, "kind"@) {
        Ok(kind) => if kind == "cosmos"@ {
            cosmos_wallet_spec(sym, y)
        } else if kind == "vault"@ {
            vault_wallet_spec(sym, y)
        } else if kind == "btc"@ {
            btc_wallet_spec(sym, y)
        } else {
            Err(
                "`dashboard.wallets."@
                    + sym
                    + ".kind` must be cosmos, vault or btc, got "@
                    + text::debug_form(kind),
            )
        },
        Err(e) => Err(e),
    }
}

/// A configured wallet.
pub fn wallet_spec(sym: &str, y: &Json) -> (r: Result<WalletSpec, String>)
    ensures
        list::outcome(r) == wallet_spec_spec(sym@, y@),
{
    let kind = match wallet_word(y, sym, "kind") {
        Ok(v) => v,
        Err(e) => {
            return Err(e);
        },
    };
    if text::same(kind.as_str(), "cosmos") {
        return cosmos_wallet(sym, y);
    }
    if text::same(kind.as_str(), "vault") {
        return vault_wallet(sym, y);
    }
    if text::same(kind.as_str(), "btc") {
        return btc_wallet(sym, y);
    }
    let mut line = text::owned("`dashboard.wallets.");
    line.push_str(sym);
    line.push_str(".kind` must be cosmos, vault or btc, got ");
    line.push_str(text::debug_text(kind.as_str()).as_str());
    Err(line)
}

/// Of the first `n` entries.
pub open spec fn add_wallet_spec(
    xs: Seq<(Seq<char>, Doc)>,
    out: Seq<(Seq<char>, WalletSpecView)>,
    fault: Option<Seq<char>>,
    n: nat,
) -> (Seq<(Seq<char>, WalletSpecView)>, Option<Seq<char>>)
    decreases n,
{
    if n == 0 {
        (out, fault)
    } else {
        let (out, fault) = add_wallet_spec(xs, out, fault, (n - 1) as nat);
        let it = xs[n - 1];
        let s = it.0;
        let x = it.1;
        match wallet_spec_spec(s, x) {
            Ok(w) => (out.push((text::upper_case(s), w)), fault),
            Err(e) => {
                let fault = if fault is None {
                    Some(e)
                } else {
                    fault
                };
                (out, fault)
            },
        }
    }
}

fn add_wallet(
    xs: &Vec<(String, Json)>,
    out: Vec<(String, WalletSpec)>,
    fault: Option<String>,
) -> (r: (Vec<(String, WalletSpec)>, Option<String>))
    ensures
        r.deep_view() == add_wallet_spec(
            xs.deep_view(),
            out.deep_view(),
            fault.deep_view(),
            xs@.len(),
        ),
{
    let ghost out0 = out.deep_view();
    let ghost fault0 = fault.deep_view();
    let mut out = out;
    let mut fault = fault;
    let mut i: usize = 0;
    while i < xs.len()
        invariant
            i <= xs@.len(),
            (out.deep_view(), fault.deep_view()) == add_wallet_spec(
                xs.deep_view(),
                out0,
                fault0,
                i as nat,
            ),
        decreases xs@.len() - i,
    {
        let it = &xs[i];
        let s = it.0.as_str();
        let x = &it.1;
        match wallet_spec(s, x) {
            Ok(w) => {
                list::push(&mut out, (text::uppercase(s), w));
            },
            Err(e) => {
                if fault.is_none() {
                    fault = Some(e);
                }
            },
        }
        i = i + 1;
    }
    (out, fault)
}

/// The configured wallets.
pub open spec fn wallets_of_spec(
    y: Doc,
    key: Seq<char>,
) -> Result<Seq<(Seq<char>, WalletSpecView)>, Seq<char>> {
    match map_of_spec(y, key) {
        Ok(m) => {
            let out = Seq::<(Seq<char>, WalletSpecView)>::empty();
            let fault: Option<Seq<char>> = None;
            let (out, fault) = add_wallet_spec(m, out, fault, m.len());
            match fault {
                Some(e) => Err(e),
                None => Ok(out),
            }
        },
        Err(e) => Err(e),
    }
}

fn wallets_of(y: &Json, key: &str) -> (r: Result<Vec<(String, WalletSpec)>, String>)
    ensures
        list::outcome(r) == wallets_of_spec(y@, key@),
{
    let m = match map_of(y, key) {
        Ok(v) => v,
        Err(e) => {
            return Err(e);
        },
    };
    let mut out: Vec<(String, WalletSpec)> = list::none();
    let mut fault: Option<String> = None;
    let (next_out, next_fault) = add_wallet(&m, out, fault);
    out = next_out;
    fault = next_fault;
    match fault {
        Some(e) => Err(e),
        None => Ok(out),
    }
}

/// A configuration that is being read.
#[derive(Debug)]
pub struct Loading {
    pub d: DashConfig,
    pub fills: Option<String>,
    pub targets: Option<String>,
    pub fault: Option<String>,
}

/// What a [`Loading`] holds.
pub struct LoadingView {
    pub d: DashConfigView,
    pub fills: Option<Seq<char>>,
    pub targets: Option<Seq<char>>,
    pub fault: Option<Seq<char>>,
}

impl DeepView for Loading {
    type V = LoadingView;

    open spec fn deep_view(&self) -> LoadingView {
        LoadingView {
            d: self.d.deep_view(),
            fills: self.fills.deep_view(),
            targets: self.targets.deep_view(),
            fault: self.fault.deep_view(),
        }
    }
}

fn to_u32(x: Double) -> (r: u32)
    ensures
        r == x.cast_spec(0, u32::MAX as int),
{
    let v: u64 = x.to_u64();
    if v > 0xffff_ffff {
        0xffff_ffff
    } else {
        v as u32
    }
}

/// Whether a key holds a word.
pub open spec fn is_text_key_spec(k: Seq<char>) -> bool {
    (k == "public_dir"@
        || k == "work_dir"@
        || k == "run_log"@
        || k == "manual_fills"@
        || k == "wallet_targets"@
        || k == "deploy_command"@
        || k == "replay_cache"@
        || k == "forecast_timing"@)
}

fn is_text_key(k: &str) -> (r: bool)
    ensures
        r == is_text_key_spec(k@),
{
    (text::same(k, "public_dir")
        || text::same(k, "work_dir")
        || text::same(k, "run_log")
        || text::same(k, "manual_fills")
        || text::same(k, "wallet_targets")
        || text::same(k, "deploy_command")
        || text::same(k, "replay_cache")
        || text::same(k, "forecast_timing"))
}

/// A word of the scenario model's set.
pub open spec fn scenario_text_spec(
    s: ScenarioKnobsView,
    k: Seq<char>,
    w: Seq<char>,
) -> ScenarioKnobsView {
    if k == "replay_cache"@ {
        ScenarioKnobsView { replay_cache: w, ..s }
    } else {
        ScenarioKnobsView { timing: w, ..s }
    }
}

fn scenario_text(s: ScenarioKnobs, k: &str, w: String) -> (r: ScenarioKnobs)
    ensures
        r.deep_view() == scenario_text_spec(s.deep_view(), k@, w@),
{
    let mut s = s;
    if text::same(k, "replay_cache") {
        s.replay_cache = w;
    } else {
        s.timing = w;
    }
    s
}

/// A word set.
pub open spec fn set_text_spec(l: LoadingView, k: Seq<char>, w: Seq<char>) -> LoadingView {
    let d = l.d;
    let fills = l.fills;
    let targets = l.targets;
    let (d, fills, targets) = if k == "public_dir"@ {
        (DashConfigView { public_dir: w, ..d }, fills, targets)
    } else if k == "work_dir"@ {
        (DashConfigView { work_dir: w, ..d }, fills, targets)
    } else if k == "run_log"@ {
        (DashConfigView { run_log: Some(w), ..d }, fills, targets)
    } else {
        let (fills, targets, d) = if k == "manual_fills"@ {
            (Some(w), targets, d)
        } else {
            let (targets, d) = if k == "wallet_targets"@ {
                (Some(w), d)
            } else {
                let d = if k == "deploy_command"@ {
                    DashConfigView { deploy_command: Some(w), ..d }
                } else {
                    DashConfigView { scenarios: scenario_text_spec(d.scenarios, k, w), ..d }
                };
                (targets, d)
            };
            (fills, targets, d)
        };
        (d, fills, targets)
    };
    LoadingView { d, fills, targets, fault: None }
}

fn set_text(l: Loading, k: &str, w: String) -> (r: Loading)
    ensures
        r.deep_view() == set_text_spec(l.deep_view(), k@, w@),
{
    let mut d = l.d.dup();
    let mut fills = l.fills.dup();
    let mut targets = l.targets.dup();
    if text::same(k, "public_dir") {
        d.public_dir = w;
    } else if text::same(k, "work_dir") {
        d.work_dir = w;
    } else if text::same(k, "run_log") {
        d.run_log = Some(w);
    } else if text::same(k, "manual_fills") {
        fills = Some(w);
    } else if text::same(k, "wallet_targets") {
        targets = Some(w);
    } else if text::same(k, "deploy_command") {
        d.deploy_command = Some(w);
    } else {
        d.scenarios = scenario_text(d.scenarios.dup(), k, w);
    }
    Loading { d, fills, targets, fault: None }
}

/// Whether a key holds a number.
pub open spec fn is_number_key_spec(k: Seq<char>) -> bool {
    (k == "legacy_before_ts"@
        || k == "scenario_fee_pct"@
        || k == "scenario_slip_pct"@
        || k == "scenario_dex_usd"@
        || k == "scenario_days"@
        || k == "scenario_new_cash_usd"@
        || k == "forecast_paths"@
        || k == "forecast_seed"@
        || k == "wallet_tranche_x"@
        || k == "wallet_lead_pct"@
        || k == "wallet_rearm_pct"@
        || k == "wallet_timeout_s"@)
}

fn is_number_key(k: &str) -> (r: bool)
    ensures
        r == is_number_key_spec(k@),
{
    (text::same(k, "legacy_before_ts")
        || text::same(k, "scenario_fee_pct")
        || text::same(k, "scenario_slip_pct")
        || text::same(k, "scenario_dex_usd")
        || text::same(k, "scenario_days")
        || text::same(k, "scenario_new_cash_usd")
        || text::same(k, "forecast_paths")
        || text::same(k, "forecast_seed")
        || text::same(k, "wallet_tranche_x")
        || text::same(k, "wallet_lead_pct")
        || text::same(k, "wallet_rearm_pct")
        || text::same(k, "wallet_timeout_s"))
}

/// A number of the scenario model's set.
pub open spec fn scenario_number_spec(
    s: ScenarioKnobsView,
    k: Seq<char>,
    x: Double,
) -> ScenarioKnobsView {
    if k == "scenario_fee_pct"@ {
        ScenarioKnobsView { fee_pct: Some(x), ..s }
    } else if k == "scenario_slip_pct"@ {
        ScenarioKnobsView { slip_pct: x, ..s }
    } else if k == "scenario_dex_usd"@ {
        ScenarioKnobsView { dex_usd: x, ..s }
    } else if k == "scenario_days"@ {
        ScenarioKnobsView { days: x.cast_spec(i64::MIN as int, i64::MAX as int) as i64, ..s }
    } else if k == "scenario_new_cash_usd"@ {
        ScenarioKnobsView { new_cash_usd: x, ..s }
    } else if k == "forecast_paths"@ {
        ScenarioKnobsView { paths: x.cast_spec(0, u64::MAX as int) as u64, ..s }
    } else {
        ScenarioKnobsView { seed: x.cast_spec(0, u64::MAX as int) as u64, ..s }
    }
}

fn scenario_number(s: ScenarioKnobs, k: &str, x: Double) -> (r: ScenarioKnobs)
    ensures
        r.deep_view() == scenario_number_spec(s.deep_view(), k@, x),
{
    let mut s = s;
    if text::same(k, "scenario_fee_pct") {
        s.fee_pct = Some(x);
    } else if text::same(k, "scenario_slip_pct") {
        s.slip_pct = x;
    } else if text::same(k, "scenario_dex_usd") {
        s.dex_usd = x;
    } else if text::same(k, "scenario_days") {
        s.days = x.to_i64();
    } else if text::same(k, "scenario_new_cash_usd") {
        s.new_cash_usd = x;
    } else if text::same(k, "forecast_paths") {
        s.paths = x.to_u64();
    } else {
        s.seed = x.to_u64();
    }
    s
}

/// A number of the wallets' set.
pub open spec fn wallet_number_spec(
    w: WalletKnobsView,
    k: Seq<char>,
    x: Double,
) -> WalletKnobsView {
    if k == "wallet_tranche_x"@ {
        WalletKnobsView { tranche_x: x, ..w }
    } else if k == "wallet_lead_pct"@ {
        WalletKnobsView { lead_pct: x, ..w }
    } else if k == "wallet_rearm_pct"@ {
        WalletKnobsView { rearm_pct: x, ..w }
    } else {
        WalletKnobsView { timeout_s: x, ..w }
    }
}

fn wallet_number(w: WalletKnobs, k: &str, x: Double) -> (r: WalletKnobs)
    ensures
        r.deep_view() == wallet_number_spec(w.deep_view(), k@, x),
{
    let mut w = w;
    if text::same(k, "wallet_tranche_x") {
        w.tranche_x = x;
    } else if text::same(k, "wallet_lead_pct") {
        w.lead_pct = x;
    } else if text::same(k, "wallet_rearm_pct") {
        w.rearm_pct = x;
    } else {
        w.timeout_s = x;
    }
    w
}

/// A number set.
pub open spec fn set_number_spec(d: DashConfigView, k: Seq<char>, x: Double) -> DashConfigView {
    if k == "legacy_before_ts"@ {
        DashConfigView { legacy_before_ts: x, ..d }
    } else if text::begins(k, "wallet_"@) {
        DashConfigView { wallets: wallet_number_spec(d.wallets, k, x), ..d }
    } else {
        DashConfigView { scenarios: scenario_number_spec(d.scenarios, k, x), ..d }
    }
}

fn set_number(d: DashConfig, k: &str, x: Double) -> (r: DashConfig)
    ensures
        r.deep_view() == set_number_spec(d.deep_view(), k@, x),
{
    let mut d = d;
    if text::same(k, "legacy_before_ts") {
        d.legacy_before_ts = x;
    } else if text::begins_with(k, "wallet_") {
        d.wallets = wallet_number(d.wallets.dup(), k, x);
    } else {
        d.scenarios = scenario_number(d.scenarios.dup(), k, x);
    }
    d
}

/// A configuration that cannot be read.
pub open spec fn failed_spec(l: LoadingView, e: Seq<char>) -> LoadingView {
    LoadingView { fault: Some(e), ..l }
}

fn failed(l: Loading, e: String) -> (r: Loading)
    ensures
        r.deep_view() == failed_spec(l.deep_view(), e@),
{
    let mut l = l;
    l.fault = Some(e);
    l
}

/// Words by name set.
pub open spec fn set_names_spec(
    d: DashConfigView,
    k: Seq<char>,
    m: Seq<(Seq<char>, Seq<char>)>,
) -> DashConfigView {
    if k == "coingecko"@ {
        DashConfigView { coingecko: m, ..d }
    } else {
        DashConfigView { legacy_venues: m, ..d }
    }
}

fn set_names(d: DashConfig, k: &str, m: Vec<(String, String)>) -> (r: DashConfig)
    ensures
        r.deep_view() == set_names_spec(d.deep_view(), k@, m.deep_view()),
{
    let mut d = d;
    if text::same(k, "coingecko") {
        d.coingecko = m;
    } else {
        d.legacy_venues = m;
    }
    d
}

/// The forecast's allocation set.
pub open spec fn with_alloc_spec(
    s: ScenarioKnobsView,
    m: Seq<(Seq<char>, Double)>,
) -> ScenarioKnobsView {
    ScenarioKnobsView { alloc: Some(m), ..s }
}

fn with_alloc(s: ScenarioKnobs, m: Vec<(String, Double)>) -> (r: ScenarioKnobs)
    ensures
        r.deep_view() == with_alloc_spec(s.deep_view(), m.deep_view()),
{
    let mut s = s;
    s.alloc = Some(m);
    s
}

/// The other coins set.
pub open spec fn with_alts_spec(s: ScenarioKnobsView, m: Seq<Seq<char>>) -> ScenarioKnobsView {
    ScenarioKnobsView { alts: Some(m), ..s }
}

fn with_alts(s: ScenarioKnobs, m: Vec<String>) -> (r: ScenarioKnobs)
    ensures
        r.deep_view() == with_alts_spec(s.deep_view(), m.deep_view()),
{
    let mut s = s;
    s.alts = Some(m);
    s
}

/// The history files set.
pub open spec fn with_sources_spec(
    s: ScenarioKnobsView,
    m: Seq<(Seq<char>, Seq<(Seq<char>, Seq<char>)>)>,
) -> ScenarioKnobsView {
    ScenarioKnobsView { sources: m, ..s }
}

fn with_sources(s: ScenarioKnobs, m: Vec<(String, Vec<(String, String)>)>) -> (r: ScenarioKnobs)
    ensures
        r.deep_view() == with_sources_spec(s.deep_view(), m.deep_view()),
{
    let mut s = s;
    s.sources = m;
    s
}

/// The all-time highs set.
pub open spec fn with_highs_spec(
    s: ScenarioKnobsView,
    m: Seq<(Seq<char>, Double, Seq<char>)>,
) -> ScenarioKnobsView {
    ScenarioKnobsView { ath: m, ..s }
}

fn with_highs(s: ScenarioKnobs, m: Vec<(String, Double, String)>) -> (r: ScenarioKnobs)
    ensures
        r.deep_view() == with_highs_spec(s.deep_view(), m.deep_view()),
{
    let mut s = s;
    s.ath = m;
    s
}

/// The windows set.
pub open spec fn with_windows_spec(s: ScenarioKnobsView, m: Seq<WindowView>) -> ScenarioKnobsView {
    ScenarioKnobsView { windows: m, ..s }
}

fn with_windows(s: ScenarioKnobs, m: Vec<Window>) -> (r: ScenarioKnobs)
    ensures
        r.deep_view() == with_windows_spec(s.deep_view(), m.deep_view()),
{
    let mut s = s;
    s.windows = m;
    s
}

/// The coins that are only trailed set.
pub open spec fn with_trail_spec(w: WalletKnobsView, m: Seq<Seq<char>>) -> WalletKnobsView {
    WalletKnobsView { trail_only: m, ..w }
}

fn with_trail(w: WalletKnobs, m: Vec<String>) -> (r: WalletKnobs)
    ensures
        r.deep_view() == with_trail_spec(w.deep_view(), m.deep_view()),
{
    let mut w = w;
    w.trail_only = m;
    w
}

/// The wallets set.
pub open spec fn with_wallets_spec(
    w: WalletKnobsView,
    m: Seq<(Seq<char>, WalletSpecView)>,
) -> WalletKnobsView {
    WalletKnobsView { list_: m, ..w }
}

fn with_wallets(w: WalletKnobs, m: Vec<(String, WalletSpec)>) -> (r: WalletKnobs)
    ensures
        r.deep_view() == with_wallets_spec(w.deep_view(), m.deep_view()),
{
    let mut w = w;
    w.list_ = m;
    w
}

/// A configuration that was read one key further.
pub open spec fn holding_spec(l: LoadingView, d: DashConfigView) -> LoadingView {
    LoadingView { d, fills: l.fills, targets: l.targets, fault: None }
}

fn holding(l: Loading, d: DashConfig) -> (r: Loading)
    ensures
        r.deep_view() == holding_spec(l.deep_view(), d.deep_view()),
{
    Loading { d, fills: l.fills.dup(), targets: l.targets.dup(), fault: None }
}

/// One key of the scenario model read.
pub open spec fn apply_scenario_spec(l: LoadingView, k: Seq<char>, v: Doc) -> LoadingView {
    let d = l.d;
    let fills = l.fills;
    let targets = l.targets;
    let fault: Option<Seq<char>> = None;
    let (d, fault) = if k == "forecast_alloc"@ {
        match named_numbers_spec(v, k) {
            Ok(m) => {
                let d = DashConfigView { scenarios: with_alloc_spec(d.scenarios, m), ..d };
                (d, fault)
            },
            Err(e) => (d, Some(e)),
        }
    } else if k == "alts"@ {
        let d = DashConfigView {
            scenarios: with_alts_spec(d.scenarios, upper_words_spec(v)),
            ..d
        };
        (d, fault)
    } else if k == "sources"@ {
        match sources_of_spec(v, k) {
            Ok(m) => {
                let d = DashConfigView { scenarios: with_sources_spec(d.scenarios, m), ..d };
                (d, fault)
            },
            Err(e) => (d, Some(e)),
        }
    } else if k == "ath"@ {
        match highs_of_spec(v, k) {
            Ok(m) => {
                let d = DashConfigView { scenarios: with_highs_spec(d.scenarios, m), ..d };
                (d, fault)
            },
            Err(e) => (d, Some(e)),
        }
    } else {
        match windows_of_spec(v, k) {
            Ok(m) => {
                let d = DashConfigView { scenarios: with_windows_spec(d.scenarios, m), ..d };
                (d, fault)
            },
            Err(e) => (d, Some(e)),
        }
    };
    LoadingView { d, fills, targets, fault }
}

fn apply_scenario(l: Loading, k: &str, v: &Json) -> (r: Loading)
    ensures
        r.deep_view() == apply_scenario_spec(l.deep_view(), k@, v@),
{
    let mut d = l.d.dup();
    let fills = &l.fills;
    let targets = &l.targets;
    let mut fault: Option<String> = None;
    if text::same(k, "forecast_alloc") {
        match named_numbers(v, k) {
            Ok(m) => {
                d.scenarios = with_alloc(d.scenarios.dup(), m);
            },
            Err(e) => {
                fault = Some(e);
            },
        }
    } else if text::same(k, "alts") {
        d.scenarios = with_alts(d.scenarios.dup(), upper_words(v));
    } else if text::same(k, "sources") {
        match sources_of(v, k) {
            Ok(m) => {
                d.scenarios = with_sources(d.scenarios.dup(), m);
            },
            Err(e) => {
                fault = Some(e);
            },
        }
    } else if text::same(k, "ath") {
        match highs_of(v, k) {
            Ok(m) => {
                d.scenarios = with_highs(d.scenarios.dup(), m);
            },
            Err(e) => {
                fault = Some(e);
            },
        }
    } else {
        match windows_of(v, k) {
            Ok(m) => {
                d.scenarios = with_windows(d.scenarios.dup(), m);
            },
            Err(e) => {
                fault = Some(e);
            },
        }
    }
    Loading { d, fills: fills.dup(), targets: targets.dup(), fault }
}

/// One of the remaining keys read.
pub open spec fn apply_other_spec(l: LoadingView, k: Seq<char>, v: Doc) -> LoadingView {
    let d = l.d;
    let fills = l.fills;
    let targets = l.targets;
    let fault: Option<Seq<char>> = None;
    let (d, fault) = if k == "deploy"@ {
        (DashConfigView { deploy: flag_of_spec(v), ..d }, fault)
    } else if k == "wallet_trail_only"@ {
        let d = DashConfigView { wallets: with_trail_spec(d.wallets, upper_words_spec(v)), ..d };
        (d, fault)
    } else if k == "wallets"@ {
        match wallets_of_spec(v, k) {
            Ok(m) => {
                let d = DashConfigView { wallets: with_wallets_spec(d.wallets, m), ..d };
                (d, fault)
            },
            Err(e) => (d, Some(e)),
        }
    } else if (k == "coingecko"@ || k == "legacy_venues"@) {
        match named_words_spec(v, k) {
            Ok(m) => (set_names_spec(d, k, m), fault),
            Err(e) => (d, Some(e)),
        }
    } else {
        (d, Some("unknown key `dashboard."@ + k + "`"@))
    };
    LoadingView { d, fills, targets, fault }
}

fn apply_other(l: Loading, k: &str, v: &Json) -> (r: Loading)
    ensures
        r.deep_view() == apply_other_spec(l.deep_view(), k@, v@),
{
    let mut d = l.d.dup();
    let fills = &l.fills;
    let targets = &l.targets;
    let mut fault: Option<String> = None;
    if text::same(k, "deploy") {
        d.deploy = flag_of(v);
    } else if text::same(k, "wallet_trail_only") {
        d.wallets = with_trail(d.wallets.dup(), upper_words(v));
    } else if text::same(k, "wallets") {
        match wallets_of(v, k) {
            Ok(m) => {
                d.wallets = with_wallets(d.wallets.dup(), m);
            },
            Err(e) => {
                fault = Some(e);
            },
        }
    } else if (text::same(k, "coingecko") || text::same(k, "legacy_venues")) {
        match named_words(v, k) {
            Ok(m) => {
                d = set_names(d, k, m);
            },
            Err(e) => {
                fault = Some(e);
            },
        }
    } else {
        let mut line = text::owned("unknown key `dashboard.");
        line.push_str(k);
        line.push_str("`");
        fault = Some(line);
    }
    Loading { d, fills: fills.dup(), targets: targets.dup(), fault }
}

/// A number read.
pub open spec fn apply_number_spec(l: LoadingView, k: Seq<char>, x: Double) -> LoadingView {
    let d = l.d;
    let fills = l.fills;
    let targets = l.targets;
    LoadingView { d: set_number_spec(d, k, x), fills, targets, fault: None }
}

fn apply_number(l: Loading, k: &str, x: Double) -> (r: Loading)
    ensures
        r.deep_view() == apply_number_spec(l.deep_view(), k@, x),
{
    let d = &l.d;
    let fills = &l.fills;
    let targets = &l.targets;
    Loading {
        d: set_number(d.dup(), k, x),
        fills: fills.dup(),
        targets: targets.dup(),
        fault: None,
    }
}

/// One key read.
pub open spec fn apply_spec(l: LoadingView, k: Seq<char>, v: Doc) -> LoadingView {
    if l.fault is Some {
        l
    } else if is_text_key_spec(k) {
        match word_of_spec(v, k) {
            Ok(w) => set_text_spec(l, k, w),
            Err(e) => failed_spec(l, e),
        }
    } else if is_number_key_spec(k) {
        match number_of_spec(v, k) {
            Ok(x) => apply_number_spec(l, k, x),
            Err(e) => failed_spec(l, e),
        }
    } else if (k == "forecast_alloc"@
        || k == "alts"@
        || k == "sources"@
        || k == "ath"@
        || k == "scenarios"@) {
        apply_scenario_spec(l, k, v)
    } else {
        apply_other_spec(l, k, v)
    }
}

fn apply(l: Loading, k: &str, v: &Json) -> (r: Loading)
    ensures
        r.deep_view() == apply_spec(l.deep_view(), k@, v@),
{
    if l.fault.is_some() {
        return l;
    }
    if is_text_key(k) {
        match word_of(v, k) {
            Ok(w) => {
                return set_text(l, k, w);
            },
            Err(e) => {
                return failed(l, e);
            },
        }
    }
    if is_number_key(k) {
        match number_of(v, k) {
            Ok(x) => {
                return apply_number(l, k, x);
            },
            Err(e) => {
                return failed(l, e);
            },
        }
    }
    if (text::same(k, "forecast_alloc")
        || text::same(k, "alts")
        || text::same(k, "sources")
        || text::same(k, "ath")
        || text::same(k, "scenarios")) {
        return apply_scenario(l, k, v);
    }
    apply_other(l, k, v)
}

/// The first `n` keys.
pub open spec fn apply_each_spec(xs: Seq<(Seq<char>, Doc)>, l: LoadingView, n: nat) -> LoadingView
    decreases n,
{
    if n == 0 {
        l
    } else {
        let l = apply_each_spec(xs, l, (n - 1) as nat);
        let it = xs[n - 1];
        let k = it.0;
        let v = it.1;
        apply_spec(l, k, v)
    }
}

fn apply_each(xs: &Vec<(String, Json)>, l: Loading) -> (r: Loading)
    ensures
        r.deep_view() == apply_each_spec(xs.deep_view(), l.deep_view(), xs@.len()),
{
    let ghost l0 = l.deep_view();
    let mut l = l;
    let mut i: usize = 0;
    while i < xs.len()
        invariant
            i <= xs@.len(),
            l.deep_view() == apply_each_spec(xs.deep_view(), l0, i as nat),
        decreases xs@.len() - i,
    {
        let it = &xs[i];
        let k = it.0.as_str();
        let v = &it.1;
        l = apply(l, k, v);
        i = i + 1;
    }
    l
}

/// Every key read, up to the first that cannot be.
pub open spec fn apply_all_spec(l: LoadingView, m: Seq<(Seq<char>, Doc)>) -> LoadingView {
    apply_each_spec(m, l, m.len())
}

fn apply_all(l: Loading, m: &Vec<(String, Json)>) -> (r: Loading)
    ensures
        r.deep_view() == apply_all_spec(l.deep_view(), m.deep_view()),
{
    let mut l = l;
    l = apply_each(m, l);
    l
}

/// The configuration where nothing is set: below the run's state directory, with its candle cache and
/// the model's own timing.
pub open spec fn defaults_spec(
    state_dir: Seq<char>,
    cache: Seq<char>,
    timing: Seq<char>,
) -> DashConfigView {
    let base = path_join_spec(state_dir, "dashboard"@);
    DashConfigView {
        public_dir: path_join_spec(base, "public"@),
        work_dir: base,
        run_log: None,
        manual_fills: ""@,
        legacy_venues: Seq::<(Seq<char>, Seq<char>)>::empty(),
        legacy_before_ts: Double::zero_spec(),
        deploy: false,
        deploy_command: None,
        coingecko: Seq::<(Seq<char>, Seq<char>)>::empty(),
        scenarios: ScenarioKnobsView {
            replay_cache: cache,
            fee_pct: None,
            slip_pct: Double::ratio_spec(1, 10),
            dex_usd: Double::zero_spec(),
            days: 540,
            new_cash_usd: Double::int_spec(10000),
            paths: 20000,
            seed: 7,
            timing,
            alloc: None,
            alts: None,
            sources: Seq::<(Seq<char>, Seq<(Seq<char>, Seq<char>)>)>::empty(),
            ath: Seq::<(Seq<char>, Double, Seq<char>)>::empty(),
            windows: default_windows_spec(),
        },
        wallets: WalletKnobsView {
            list_: Seq::<(Seq<char>, WalletSpecView)>::empty(),
            targets: ""@,
            tranche_x: Double::int_spec(4),
            lead_pct: Double::int_spec(30),
            rearm_pct: Double::int_spec(10),
            trail_only: Seq::<Seq<char>>::empty(),
            timeout_s: Double::int_spec(180),
        },
    }
}

/// The configuration where nothing is set: below the run's state directory, with its candle cache and
/// the model's own timing.
pub fn defaults(state_dir: &str, cache: &str, timing: &str) -> (r: DashConfig)
    ensures
        r.deep_view() == defaults_spec(state_dir@, cache@, timing@),
{
    let base = path_join(state_dir, "dashboard");
    DashConfig {
        public_dir: path_join(base.as_str(), "public"),
        work_dir: text::owned(base.as_str()),
        run_log: None,
        manual_fills: text::owned(""),
        legacy_venues: list::none::<(String, String)>(),
        legacy_before_ts: Double::zero(),
        deploy: false,
        deploy_command: None,
        coingecko: list::none::<(String, String)>(),
        scenarios: ScenarioKnobs {
            replay_cache: text::owned(cache),
            fee_pct: None,
            slip_pct: Double::ratio(1, 10),
            dex_usd: Double::zero(),
            days: 540,
            new_cash_usd: Double::of_int(10000),
            paths: 20000,
            seed: 7,
            timing: text::owned(timing),
            alloc: None,
            alts: None,
            sources: list::none::<(String, Vec<(String, String)>)>(),
            ath: list::none::<(String, Double, String)>(),
            windows: default_windows(),
        },
        wallets: WalletKnobs {
            list_: list::none::<(String, WalletSpec)>(),
            targets: text::owned(""),
            tranche_x: Double::of_int(4),
            lead_pct: Double::of_int(30),
            rearm_pct: Double::of_int(10),
            trail_only: list::none::<String>(),
            timeout_s: Double::of_int(180),
        },
    }
}

/// Among the first `n` of them.
pub open spec fn find_env_spec(
    var: Seq<char>,
    xs: Seq<(Seq<char>, Seq<char>)>,
    out: Option<Seq<char>>,
    n: nat,
) -> Option<Seq<char>> {
    match list::last_given(
        xs,
        |it: (Seq<char>, Seq<char>)| {
            let k = it.0;
            let v = it.1;
            if k == var {
                Some(v)
            } else {
                None
            }
        },
        n,
    ) {
        Some(v) => Some(v),
        None => out,
    }
}

fn find_env(var: &str, xs: &Vec<(String, String)>, out: Option<String>) -> (r: Option<String>)
    ensures
        r.deep_view() == find_env_spec(var@, xs.deep_view(), out.deep_view(), xs@.len()),
{
    let ghost out0 = out.deep_view();
    let mut out = out;
    let mut i: usize = 0;
    while i < xs.len()
        invariant
            i <= xs@.len(),
            out.deep_view() == find_env_spec(var@, xs.deep_view(), out0, i as nat),
        decreases xs@.len() - i,
    {
        let it = &xs[i];
        let k = it.0.as_str();
        let v = it.1.as_str();
        if text::same(k, var) {
            out = Some(text::owned(v));
        }
        assert(xs.deep_view()[i as int] == xs@[i as int].deep_view());
        assert(out.deep_view() == find_env_spec(var@, xs.deep_view(), out0, (i + 1) as nat));
        i = i + 1;
    }
    out
}

/// A variable of the environment.
pub open spec fn env_of_spec(
    env: Seq<(Seq<char>, Seq<char>)>,
    var: Seq<char>,
) -> Option<Seq<char>> {
    let out: Option<Seq<char>> = None;
    find_env_spec(var, env, out, env.len())
}

fn env_of(env: &Vec<(String, String)>, var: &str) -> (r: Option<String>)
    ensures
        r.deep_view() == env_of_spec(env.deep_view(), var@),
{
    let mut out: Option<String> = None;
    out = find_env(var, env, out);
    out
}

/// A number in the environment, where it is set to anything.
pub open spec fn env_number_spec(
    env: Seq<(Seq<char>, Seq<char>)>,
    var: Seq<char>,
) -> Result<Option<Double>, Seq<char>> {
    match env_of_spec(env, var) {
        Some(s) => {
            let t = text::trim(s);
            if t == ""@ {
                Ok(None)
            } else {
                match crate::watch::pyfmt::number_or_word(t) {
                    Some(x) => Ok(Some(x)),
                    None => Err(var + "="@ + text::debug_form(s) + " is not a number"@),
                }
            }
        },
        None => Ok(None),
    }
}

fn env_number(env: &Vec<(String, String)>, var: &str) -> (r: Result<Option<Double>, String>)
    ensures
        list::outcome(r) == env_number_spec(env.deep_view(), var@),
{
    match env_of(env, var) {
        Some(s) => {
            let t = text::trimmed(s.as_str());
            if text::same(t.as_str(), "") {
                return Ok(None);
            }
            match crate::watch::pyfmt::read_number_or_word(t.as_str()) {
                Some(x) => Ok(Some(x)),
                None => {
                    let mut line = text::owned(var);
                    line.push_str("=");
                    line.push_str(text::debug_text(s.as_str()).as_str());
                    line.push_str(" is not a number");
                    Err(line)
                },
            }
        },
        None => Ok(None),
    }
}

/// A number of the environment over the one under a key.
pub open spec fn apply_env_spec(
    l: LoadingView,
    env: Seq<(Seq<char>, Seq<char>)>,
    var: Seq<char>,
    k: Seq<char>,
) -> LoadingView {
    if l.fault is Some {
        l
    } else {
        match env_number_spec(env, var) {
            Ok(got) => match got {
                Some(x) => apply_number_spec(l, k, x),
                None => l,
            },
            Err(e) => failed_spec(l, e),
        }
    }
}

fn apply_env(l: Loading, env: &Vec<(String, String)>, var: &str, k: &str) -> (r: Loading)
    ensures
        r.deep_view() == apply_env_spec(l.deep_view(), env.deep_view(), var@, k@),
{
    if l.fault.is_some() {
        return l;
    }
    match env_number(env, var) {
        Ok(got) => match got {
            Some(x) => apply_number(l, k, x),
            None => l,
        },
        Err(e) => failed(l, e),
    }
}

/// The environment's say on the deploy step.
pub open spec fn env_deploy_spec(
    d: DashConfigView,
    env: Seq<(Seq<char>, Seq<char>)>,
) -> DashConfigView {
    match env_of_spec(env, "DASHBOARD_DEPLOY"@) {
        Some(v) => DashConfigView { deploy: text::trim(v) == "1"@, ..d },
        None => d,
    }
}

fn env_deploy(d: DashConfig, env: &Vec<(String, String)>) -> (r: DashConfig)
    ensures
        r.deep_view() == env_deploy_spec(d.deep_view(), env.deep_view()),
{
    let mut d = d;
    match env_of(env, "DASHBOARD_DEPLOY") {
        Some(v) => {
            d.deploy = text::same(text::trimmed(v.as_str()).as_str(), "1");
            d
        },
        None => d,
    }
}

/// The first `n` of them.
pub open spec fn fill_window_spec(
    days: i64,
    xs: Seq<WindowView>,
    out: Seq<WindowView>,
    n: nat,
) -> Seq<WindowView> {
    out + Seq::new(
        n,
        |i: int| {
            let w = xs[i];
            let x = w;
            let x = if x.days <= 0 {
                WindowView { days, ..x }
            } else {
                x
            };
            x
        },
    )
}

fn fill_window(days: i64, xs: &Vec<Window>, out: Vec<Window>) -> (r: Vec<Window>)
    ensures
        r.deep_view() == fill_window_spec(days, xs.deep_view(), out.deep_view(), xs@.len()),
{
    let ghost out0 = out.deep_view();
    let mut out = out;
    let mut i: usize = 0;
    while i < xs.len()
        invariant
            i <= xs@.len(),
            out.deep_view() == fill_window_spec(days, xs.deep_view(), out0, i as nat),
        decreases xs@.len() - i,
    {
        let w = &xs[i];
        let mut x = w.dup();
        if x.days <= 0 {
            x.days = days;
        }
        list::push(&mut out, x);
        assert(out.deep_view() =~= fill_window_spec(days, xs.deep_view(), out0, (i + 1) as nat));
        i = i + 1;
    }
    out
}

/// The windows; those that set no days of their own get the common ones.
pub open spec fn filled_windows_spec(ws: Seq<WindowView>, days: i64) -> Seq<WindowView> {
    fill_window_spec(days, ws, Seq::<WindowView>::empty(), ws.len())
}

fn filled_windows(ws: &Vec<Window>, days: i64) -> (r: Vec<Window>)
    ensures
        r.deep_view() == filled_windows_spec(ws.deep_view(), days),
{
    let mut out: Vec<Window> = list::none();
    out = fill_window(days, ws, out);
    out
}

/// The targets file set.
pub open spec fn with_targets_spec(w: WalletKnobsView, t: Seq<char>) -> WalletKnobsView {
    WalletKnobsView { targets: t, ..w }
}

fn with_targets(w: WalletKnobs, t: String) -> (r: WalletKnobs)
    ensures
        r.deep_view() == with_targets_spec(w.deep_view(), t@),
{
    let mut w = w;
    w.targets = t;
    w
}

/// A configuration whose keys were all read.
pub open spec fn finished_spec(l: LoadingView, env: Seq<(Seq<char>, Seq<char>)>) -> DashConfigView {
    let d = env_deploy_spec(l.d, env);
    let windows = filled_windows_spec(d.scenarios.windows, d.scenarios.days);
    let d = DashConfigView { scenarios: with_windows_spec(d.scenarios, windows), ..d };
    let d = DashConfigView {
        manual_fills: match l.fills {
            Some(v) => v,
            None => path_join_spec(d.work_dir, "manual-fills.json"@),
        },
        ..d
    };
    DashConfigView {
        wallets: with_targets_spec(
            d.wallets,
            match l.targets {
                Some(v) => v,
                None => path_join_spec(d.work_dir, "wallet-targets.json"@),
            },
        ),
        ..d
    }
}

fn finished(l: Loading, env: &Vec<(String, String)>) -> (r: DashConfig)
    ensures
        r.deep_view() == finished_spec(l.deep_view(), env.deep_view()),
{
    let mut d = env_deploy(l.d.dup(), env);
    let windows = filled_windows(&d.scenarios.windows, d.scenarios.days);
    d.scenarios = with_windows(d.scenarios.dup(), windows);
    d.manual_fills = match &l.fills {
        Some(v) => text::owned(v.as_str()),
        None => path_join(d.work_dir.as_str(), "manual-fills.json"),
    };
    d.wallets = with_targets(
        d.wallets.dup(),
        match &l.targets {
            Some(v) => text::owned(v.as_str()),
            None => path_join(d.work_dir.as_str(), "wallet-targets.json"),
        },
    );
    d
}

/// The `dashboard:` block over the defaults, then the environment.
pub open spec fn from_run_env_spec(
    base: DashConfigView,
    block: Doc,
    env: Seq<(Seq<char>, Seq<char>)>,
) -> Result<DashConfigView, Seq<char>> {
    match map_of_spec(block, ""@) {
        Ok(m) => {
            let l = apply_all_spec(
                LoadingView { d: base, fills: None, targets: None, fault: None },
                m,
            );
            let l = apply_env_spec(l, env, "SCENARIO_FEE_PCT"@, "scenario_fee_pct"@);
            let l = apply_env_spec(l, env, "SCENARIO_SLIP_PCT"@, "scenario_slip_pct"@);
            let l = apply_env_spec(l, env, "SCENARIO_DEX_USD"@, "scenario_dex_usd"@);
            let l = apply_env_spec(l, env, "SCENARIO_DAYS"@, "scenario_days"@);
            let l = apply_env_spec(l, env, "SCENARIO_NEW_CASH_USD"@, "scenario_new_cash_usd"@);
            let l = apply_env_spec(l, env, "WALLET_TRANCHE_X"@, "wallet_tranche_x"@);
            let l = apply_env_spec(l, env, "WALLET_LEAD_PCT"@, "wallet_lead_pct"@);
            match l.fault {
                Some(e) => Err(e),
                None => Ok(finished_spec(l, env)),
            }
        },
        Err(e) => Err(e),
    }
}

/// The `dashboard:` block over the defaults, then the environment.
pub fn from_run_env(
    base: DashConfig,
    block: &Json,
    env: &Vec<(String, String)>,
) -> (r: Result<DashConfig, String>)
    ensures
        list::outcome(r) == from_run_env_spec(base.deep_view(), block@, env.deep_view()),
{
    let m = match map_of(block, "") {
        Ok(v) => v,
        Err(e) => {
            return Err(e);
        },
    };
    let mut l = apply_all(Loading { d: base, fills: None, targets: None, fault: None }, &m);
    l = apply_env(l, env, "SCENARIO_FEE_PCT", "scenario_fee_pct");
    l = apply_env(l, env, "SCENARIO_SLIP_PCT", "scenario_slip_pct");
    l = apply_env(l, env, "SCENARIO_DEX_USD", "scenario_dex_usd");
    l = apply_env(l, env, "SCENARIO_DAYS", "scenario_days");
    l = apply_env(l, env, "SCENARIO_NEW_CASH_USD", "scenario_new_cash_usd");
    l = apply_env(l, env, "WALLET_TRANCHE_X", "wallet_tranche_x");
    l = apply_env(l, env, "WALLET_LEAD_PCT", "wallet_lead_pct");
    match &l.fault {
        Some(e) => Err(text::owned(e.as_str())),
        None => Ok(finished(l, env)),
    }
}

/// Among the first `n` of them.
pub open spec fn find_id_spec(
    sym: Seq<char>,
    xs: Seq<(Seq<char>, Seq<char>)>,
    out: Option<Seq<char>>,
    n: nat,
) -> Option<Seq<char>> {
    match out {
        Some(v) => Some(v),
        None => list::first_given(
            xs,
            |it: (Seq<char>, Seq<char>)| {
                let k = it.0;
                let v = it.1;
                if k == sym {
                    Some(v)
                } else {
                    None
                }
            },
            n,
        ),
    }
}

fn find_id(sym: &str, xs: &Vec<(String, String)>, out: Option<String>) -> (r: Option<String>)
    ensures
        r.deep_view() == find_id_spec(sym@, xs.deep_view(), out.deep_view(), xs@.len()),
{
    let ghost out0 = out.deep_view();
    let mut out = out;
    let mut i: usize = 0;
    while i < xs.len()
        invariant
            i <= xs@.len(),
            out.deep_view() == find_id_spec(sym@, xs.deep_view(), out0, i as nat),
        decreases xs@.len() - i,
    {
        let it = &xs[i];
        let k = it.0.as_str();
        let v = it.1.as_str();
        if out.is_none() && text::same(k, sym) {
            out = Some(text::owned(v));
        }
        assert(xs.deep_view()[i as int] == xs@[i as int].deep_view());
        assert(out.deep_view() == find_id_spec(sym@, xs.deep_view(), out0, (i + 1) as nat));
        i = i + 1;
    }
    out
}

/// The id configured for a coin.
pub open spec fn id_of_spec(ids: Seq<(Seq<char>, Seq<char>)>, sym: Seq<char>) -> Option<Seq<char>> {
    let out: Option<Seq<char>> = None;
    find_id_spec(sym, ids, out, ids.len())
}

/// The id configured for a coin.
pub fn id_of(ids: &Vec<(String, String)>, sym: &str) -> (r: Option<String>)
    ensures
        r.deep_view() == id_of_spec(ids.deep_view(), sym@),
{
    let mut out: Option<String> = None;
    out = find_id(sym, ids, out);
    out
}

impl DashConfig {
    pub fn data_path(&self) -> (r: String)
        ensures
            r@ == path_join_spec(self.public_dir@, "data.json"@),
    {
        path_join(self.public_dir.as_str(), "data.json")
    }

    pub fn scenarios_path(&self) -> (r: String)
        ensures
            r@ == path_join_spec(self.public_dir@, "scenarios.json"@),
    {
        path_join(self.public_dir.as_str(), "scenarios.json")
    }

    pub fn wallets_path(&self) -> (r: String)
        ensures
            r@ == path_join_spec(self.public_dir@, "wallets.json"@),
    {
        path_join(self.public_dir.as_str(), "wallets.json")
    }

    pub fn deploy_status_path(&self) -> (r: String)
        ensures
            r@ == path_join_spec(self.work_dir@, ".deploy-status.json"@),
    {
        path_join(self.work_dir.as_str(), ".deploy-status.json")
    }

    pub fn revx_cache_path(&self) -> (r: String)
        ensures
            r@ == path_join_spec(self.work_dir@, ".revx-cache.json"@),
    {
        path_join(self.work_dir.as_str(), ".revx-cache.json")
    }

    pub fn wallet_state_path(&self) -> (r: String)
        ensures
            r@ == path_join_spec(self.work_dir@, ".wallets-alert-state.json"@),
    {
        path_join(self.work_dir.as_str(), ".wallets-alert-state.json")
    }

    pub fn wallet_last_good_path(&self) -> (r: String)
        ensures
            r@ == path_join_spec(self.work_dir@, ".wallets-last-good.json"@),
    {
        path_join(self.work_dir.as_str(), ".wallets-last-good.json")
    }

    /// The CoinGecko id configured for `sym`.
    pub fn coingecko_id(&self, sym: &str) -> (r: Option<String>)
        ensures
            r.deep_view() == id_of_spec(self.coingecko.deep_view(), sym@),
    {
        id_of(&self.coingecko, sym)
    }
}

} // verus!
