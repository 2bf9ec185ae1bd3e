//! `data.json`: the dashboard's main snapshot of the book.
//!
//! Balances come from the venues (Gate: free and locked; Revolut X: its own account read
//! with a 30-minute last-good cache), prices from the venue tickers, the rest from the
//! run's files: ladder state, order journal, decision log, audit state and the deploy
//! streak. Nothing here writes to a venue.
//!
//! The Revolut X reading is a function of the answers it has had so far: it says what it
//! needs to know next, and is called again with one answer more. Everything else is a
//! function of what was gathered.
use crate::dashboard;
use crate::dashboard::{DashConfig, DashConfigView, Num};
use crate::dashboard::net;
use crate::dashboard::net::{NetError, NetErrorView};
use crate::deploy::churn;
use crate::double::Double;
use crate::housekeeping::{Route, RouteView};
use crate::journal::{Order, OrderView};
use crate::list;
use crate::list::Duplicate;
use crate::order;
use crate::pyfmt;
use crate::rounding;
use crate::text;
use crate::venue::Balance;
use crate::watch::json;
use crate::watch::json::{Doc, Json};
use vstd::prelude::*;

verus! {

/// Seconds a Revolut X last-good read may stand in for a failed one.
pub fn revx_cache_max_s() -> (r: Double)
    ensures
        r == Double::int_spec(1800),
{
    Double::of_int(1800)
}

/// Whole minutes of some seconds, rounded down.
fn minutes(s: i64) -> (r: i64)
    ensures
        r == s as int / 60,
{
    let down: i64 = s / 60;
    if s % 60 < 0 {
        down - 1
    } else {
        down
    }
}

/// What a reading needs to know or to have done next.
#[derive(Debug)]
pub enum Ask {
    /// The time.
    Now,
    /// Wait some seconds.
    Sleep(Double),
    /// The headers that authenticate a read of a path at a time in milliseconds.
    Auth(String, i64),
    /// A read of an address with headers.
    Fetch(String, Vec<(String, String)>),
    /// The last good reading that was kept.
    Cache,
}

/// What a [`Ask`] says.
#[allow(inconsistent_fields)]
pub enum AskView {
    Now,
    Sleep(Double),
    Auth(Seq<char>, i64),
    Fetch(Seq<char>, Seq<(Seq<char>, Seq<char>)>),
    Cache,
}

impl DeepView for Ask {
    type V = AskView;

    open spec fn deep_view(&self) -> AskView {
        match self {
            Ask::Now => AskView::Now,
            Ask::Sleep(a) => AskView::Sleep(*a),
            Ask::Auth(a, b) => AskView::Auth(a@, *b),
            Ask::Fetch(a, b) => AskView::Fetch(a@, b.deep_view()),
            Ask::Cache => AskView::Cache,
        }
    }
}

impl Duplicate for Ask {
    fn dup(&self) -> (r: Ask) {
        match self {
            Ask::Now => Ask::Now,
            Ask::Sleep(a) => Ask::Sleep(*a),
            Ask::Auth(a, b) => Ask::Auth(text::owned(a.as_str()), *b),
            Ask::Fetch(a, b) => Ask::Fetch(text::owned(a.as_str()), b.dup()),
            Ask::Cache => Ask::Cache,
        }
    }
}

/// What came of an [`Ask`].
#[derive(Debug)]
pub enum Answer {
    /// It failed, and why.
    Failed(String),
    /// A read failed.
    Broken(NetError),
    Done,
    Time(Double),
    Headers(Vec<(String, String)>),
    Value(Json),
}

/// What a [`Answer`] says.
#[allow(inconsistent_fields)]
pub enum AnswerView {
    Failed(Seq<char>),
    Broken(NetErrorView),
    Done,
    Time(Double),
    Headers(Seq<(Seq<char>, Seq<char>)>),
    Value(Doc),
}

impl DeepView for Answer {
    type V = AnswerView;

    open spec fn deep_view(&self) -> AnswerView {
        match self {
            Answer::Failed(a) => AnswerView::Failed(a@),
            Answer::Broken(a) => AnswerView::Broken(a.deep_view()),
            Answer::Done => AnswerView::Done,
            Answer::Time(a) => AnswerView::Time(*a),
            Answer::Headers(a) => AnswerView::Headers(a.deep_view()),
            Answer::Value(a) => AnswerView::Value(a@),
        }
    }
}

impl Duplicate for Answer {
    fn dup(&self) -> (r: Answer) {
        match self {
            Answer::Failed(a) => Answer::Failed(text::owned(a.as_str())),
            Answer::Broken(a) => Answer::Broken(a.dup()),
            Answer::Done => Answer::Done,
            Answer::Time(a) => Answer::Time(*a),
            Answer::Headers(a) => Answer::Headers(a.dup()),
            Answer::Value(a) => Answer::Value(a.copy()),
        }
    }
}

/// How far a reading has come.
#[derive(Debug)]
pub struct Talk {
    /// How many answers were used.
    pub at: usize,
    /// What is asked next.
    pub ask: Option<Ask>,
}

/// What a [`Talk`] holds.
pub struct TalkView {
    pub at: usize,
    pub ask: Option<AskView>,
}

impl DeepView for Talk {
    type V = TalkView;

    open spec fn deep_view(&self) -> TalkView {
        TalkView {
            at: self.at,
            ask: self.ask.deep_view(),
        }
    }
}

/// Whether a reading waits for an answer.
pub open spec fn waits_spec(t: TalkView) -> bool {
    t.ask is Some
}

fn waits(t: &Talk) -> (r: bool)
    ensures
        r == waits_spec(t.deep_view()),
{
    t.ask.is_some()
}

/// A reading that waits for an answer.
pub open spec fn waiting_spec(t: TalkView, a: AskView) -> TalkView {
    TalkView { ask: Some(a), ..t }
}

fn waiting(t: Talk, a: Ask) -> (r: Talk)
    ensures
        r.deep_view() == waiting_spec(t.deep_view(), a.deep_view()),
{
    let mut t = t;
    t.ask = Some(a);
    t
}

/// The next answer, where there is one; otherwise the reading waits for it.
pub open spec fn asked_spec(
    t: TalkView,
    a: AskView,
    answers: Seq<AnswerView>,
) -> (TalkView, AnswerView) {
    match list::item(answers, t.at) {
        Some(x) => (TalkView { at: (t.at + 1) as usize, ..t }, x),
        None => (waiting_spec(t, a), AnswerView::Done),
    }
}

fn asked(t: Talk, a: Ask, answers: &Vec<Answer>) -> (r: (Talk, Answer))
    ensures
        r.deep_view() == asked_spec(t.deep_view(), a.deep_view(), answers.deep_view()),
{
    let mut t = t;
    let x = match list::at(answers, t.at) {
        Some(v) => v,
        None => {
            return (waiting(t, a), Answer::Done);
        },
    };
    t.at = (t.at + 1);
    (t, x.dup())
}

/// The time.
pub open spec fn time_of_spec(a: AnswerView) -> Result<Double, Seq<char>> {
    match a {
        AnswerView::Time(t) => Ok(t),
        AnswerView::Failed(e) => Err(e),
        _ => Err("answer out of turn"@),
    }
}

fn time_of(a: &Answer) -> (r: Result<Double, String>)
    ensures
        list::outcome(r) == time_of_spec(a.deep_view()),
{
    match a {
        Answer::Time(t) => Ok(*t),
        Answer::Failed(e) => Err(text::owned(e.as_str())),
        _ => Err(text::owned("answer out of turn")),
    }
}

/// The headers.
pub open spec fn headers_of_spec(a: AnswerView) -> Result<Seq<(Seq<char>, Seq<char>)>, Seq<char>> {
    match a {
        AnswerView::Headers(h) => Ok(h),
        AnswerView::Failed(e) => Err(e),
        _ => Err("answer out of turn"@),
    }
}

fn headers_of(a: Answer) -> (r: Result<Vec<(String, String)>, String>)
    ensures
        list::outcome(r) == headers_of_spec(a.deep_view()),
{
    match a {
        Answer::Headers(h) => Ok(h),
        Answer::Failed(e) => Err(e),
        _ => Err(text::owned("answer out of turn")),
    }
}

/// The value that was read.
pub open spec fn value_of_spec(a: AnswerView) -> Result<Doc, Seq<char>> {
    match a {
        AnswerView::Value(v) => Ok(v),
        AnswerView::Broken(e) => Err(net::typed_text_spec(e)),
        AnswerView::Failed(e) => Err(e),
        _ => Err("answer out of turn"@),
    }
}

fn value_of(a: Answer) -> (r: Result<Json, String>)
    ensures
        list::outcome(r) == value_of_spec(a.deep_view()),
{
    match a {
        Answer::Value(v) => Ok(v),
        Answer::Broken(e) => Err(net::typed_text(&e)),
        Answer::Failed(e) => Err(e),
        _ => Err(text::owned("answer out of turn")),
    }
}

/// Whether the venue answered that it was asked too often.
pub open spec fn is_limited_spec(a: AnswerView) -> bool {
    match a {
        AnswerView::Broken(e) => match e {
            NetErrorView::Status(c) => c == 429,
            _ => false,
        },
        _ => false,
    }
}

fn is_limited(a: &Answer) -> (r: bool)
    ensures
        r == is_limited_spec(a.deep_view()),
{
    match a {
        Answer::Broken(e) => match e {
            NetError::Status(c) => *c == 429,
            _ => false,
        },
        _ => false,
    }
}

/// Whether something was read.
pub open spec fn is_value_spec(a: AnswerView) -> bool {
    match a {
        AnswerView::Value(v) => true,
        _ => false,
    }
}

fn is_value(a: &Answer) -> (r: bool)
    ensures
        r == is_value_spec(a.deep_view()),
{
    match a {
        Answer::Value(v) => true,
        _ => false,
    }
}

/// One authenticated read.
pub open spec fn signed_read_spec(
    t: TalkView,
    path: Seq<char>,
    now: Double,
    answers: Seq<AnswerView>,
) -> (TalkView, AnswerView) {
    let (t1, a) = asked_spec(
        t,
        AskView::Auth(
            path,
            now.mul_spec(Double::int_spec(1000)).cast_spec(i64::MIN as int, i64::MAX as int) as i64,
        ),
        answers,
    );
    if waits_spec(t1) {
        (t1, AnswerView::Done)
    } else {
        match headers_of_spec(a) {
            Ok(h) => asked_spec(
                t1,
                AskView::Fetch("https://revx.revolut.com"@ + path, h),
                answers,
            ),
            Err(e) => (t1, AnswerView::Failed(e)),
        }
    }
}

fn signed_read(t: Talk, path: &str, now: Double, answers: &Vec<Answer>) -> (r: (Talk, Answer))
    ensures
        r.deep_view() == signed_read_spec(t.deep_view(), path@, now, answers.deep_view()),
{
    let (t1, a) = asked(
        t,
        Ask::Auth(text::owned(path), now.times(Double::of_int(1000)).to_i64()),
        answers,
    );
    if waits(&t1) {
        return (t1, Answer::Done);
    }
    match headers_of(a) {
        Ok(h) => {
            let mut line = text::owned("https://revx.revolut.com");
            line.push_str(path);
            asked(t1, Ask::Fetch(line, h), answers)
        },
        Err(e) => (t1, Answer::Failed(e)),
    }
}

/// One authenticated read, at the time it is.
pub open spec fn one_read_spec(
    t: TalkView,
    path: Seq<char>,
    answers: Seq<AnswerView>,
) -> (TalkView, AnswerView) {
    let (t1, a) = asked_spec(t, AskView::Now, answers);
    if waits_spec(t1) {
        (t1, AnswerView::Done)
    } else {
        match time_of_spec(a) {
            Ok(now) => signed_read_spec(t1, path, now, answers),
            Err(e) => (t1, AnswerView::Failed(e)),
        }
    }
}

fn one_read(t: Talk, path: &str, answers: &Vec<Answer>) -> (r: (Talk, Answer))
    ensures
        r.deep_view() == one_read_spec(t.deep_view(), path@, answers.deep_view()),
{
    let (t1, a) = asked(t, Ask::Now, answers);
    if waits(&t1) {
        return (t1, Answer::Done);
    }
    match time_of(&a) {
        Ok(now) => signed_read(t1, path, now, answers),
        Err(e) => (t1, Answer::Failed(e)),
    }
}

/// A read of the account, tried once more after two seconds where it came too often.
pub open spec fn revx_call_spec(
    t: TalkView,
    path: Seq<char>,
    answers: Seq<AnswerView>,
) -> (TalkView, Result<Doc, Seq<char>>) {
    let (t1, a) = one_read_spec(t, path, answers);
    if waits_spec(t1) {
        (t1, Err(""@))
    } else if !is_limited_spec(a) {
        (t1, value_of_spec(a))
    } else {
        let (t2, b) = asked_spec(t1, AskView::Sleep(Double::int_spec(2)), answers);
        if waits_spec(t2) {
            (t2, Err(""@))
        } else {
            let (t3, c) = one_read_spec(t2, path, answers);
            if waits_spec(t3) {
                (t3, Err(""@))
            } else {
                (t3, value_of_spec(c))
            }
        }
    }
}

/// A read of the account, tried once more after two seconds where it came too often.
pub fn revx_call(t: Talk, path: &str, answers: &Vec<Answer>) -> (r: (Talk, Result<Json, String>))
    ensures
        (r.0.deep_view(), list::outcome(r.1)) == revx_call_spec(
            t.deep_view(),
            path@,
            answers.deep_view(),
        ),
{
    let (t1, a) = one_read(t, path, answers);
    if waits(&t1) {
        return (t1, Err(text::owned("")));
    }
    if !is_limited(&a) {
        return (t1, value_of(a));
    }
    let (t2, b) = asked(t1, Ask::Sleep(Double::of_int(2)), answers);
    if waits(&t2) {
        return (t2, Err(text::owned("")));
    }
    let (t3, c) = one_read(t2, path, answers);
    if waits(&t3) {
        return (t3, Err(text::owned("")));
    }
    (t3, value_of(c))
}

/// What a loop over a value sees, or why it cannot be looped over.
pub open spec fn iter_py_spec(v: Doc) -> Result<Seq<Doc>, Seq<char>> {
    if v is Arr {
        Ok(v.items())
    } else if v is Obj || v is Str {
        Err("AttributeError: 'str' object has no attribute 'get'"@)
    } else {
        Err("TypeError: '"@ + pyfmt::kind_name_spec(v) + "' object is not iterable"@)
    }
}

/// What a loop over a value sees, or why it cannot be looped over.
pub fn iter_py(v: &Json) -> (r: Result<Vec<Json>, String>)
    ensures
        list::outcome(r) == iter_py_spec(v@),
{
    if v.is_arr() {
        return Ok(json::items(v));
    }
    if v.is_obj() || v.is_str() {
        return Err(text::owned("AttributeError: 'str' object has no attribute 'get'"));
    }
    let mut line = text::owned("TypeError: '");
    line.push_str(text::owned(pyfmt::kind_name(v)).as_str());
    line.push_str("' object is not iterable");
    Err(line)
}

/// What is held of a currency.
pub open spec fn balance_row_spec(b: Doc) -> Result<Doc, Seq<char>> {
    match dashboard::float_or0_spec(b, "available"@) {
        Ok(x) => match dashboard::float_or0_spec(b, "reserved"@) {
            Ok(y) => match dashboard::float_or0_spec(b, "total"@) {
                Ok(z) => Ok(
                    Doc::obj().with("available"@, Doc::Float(x)).with("reserved"@, Doc::Float(y)).with(
                        "total"@,
                        Doc::Float(z),
                    ),
                ),
                Err(e) => Err(e),
            },
            Err(e) => Err(e),
        },
        Err(e) => Err(e),
    }
}

fn balance_row(b: &Json) -> (r: Result<Json, String>)
    ensures
        list::outcome(r) == balance_row_spec(b@),
{
    let x = match dashboard::float_or0(b, "available") {
        Ok(v) => v,
        Err(e) => {
            return Err(e);
        },
    };
    let y = match dashboard::float_or0(b, "reserved") {
        Ok(v) => v,
        Err(e) => {
            return Err(e);
        },
    };
    let z = match dashboard::float_or0(b, "total") {
        Ok(v) => v,
        Err(e) => {
            return Err(e);
        },
    };
    Ok(
        Json::obj().with("available", Json::Float(x)).with("reserved", Json::Float(y)).with(
            "total",
            Json::Float(z),
        ),
    )
}

/// The balances with one more, where something is held.
pub open spec fn add_balance_spec(bals: Doc, b: Doc) -> Result<Doc, Seq<char>> {
    match dashboard::float_or0_spec(b, "total"@) {
        Ok(total) => if !Double::zero_spec().lt_spec(total) {
            Ok(bals)
        } else {
            match b.get("currency"@) {
                Some(cur) => match balance_row_spec(b) {
                    Ok(row) => {
                        let bals = bals.set(dashboard::key_str_spec(cur), row);
                        Ok(bals)
                    },
                    Err(e) => Err(e),
                },
                None => Err("KeyError: 'currency'"@),
            }
        },
        Err(e) => Err(e),
    }
}

fn add_balance(bals: Json, b: &Json) -> (r: Result<Json, String>)
    ensures
        list::outcome(r) == add_balance_spec(bals@, b@),
{
    let mut bals = bals;
    let total = match dashboard::float_or0(b, "total") {
        Ok(v) => v,
        Err(e) => {
            return Err(e);
        },
    };
    if !Double::zero().lt(total) {
        return Ok(bals);
    }
    match b.get("currency") {
        Some(cur) => {
            let row = match balance_row(b) {
                Ok(v) => v,
                Err(e) => {
                    return Err(e);
                },
            };
            bals.set(dashboard::key_str(cur).as_str(), row);
            Ok(bals)
        },
        None => Err(text::owned("KeyError: 'currency'")),
    }
}

/// The first `n` of them.
pub open spec fn add_balances_spec(
    xs: Seq<Doc>,
    bals: Doc,
    fault: Option<Seq<char>>,
    n: nat,
) -> (Doc, Option<Seq<char>>)
    decreases n,
{
    if n == 0 {
        (bals, fault)
    } else {
        let (bals, fault) = add_balances_spec(xs, bals, fault, (n - 1) as nat);
        let b = xs[n - 1];
        if fault is None {
            match add_balance_spec(bals, b) {
                Ok(x) => (x, fault),
                Err(e) => (bals, Some(e)),
            }
        } else {
            (bals, fault)
        }
    }
}

fn add_balances(xs: &Vec<Json>, bals: Json, fault: Option<String>) -> (r: (Json, Option<String>))
    ensures
        r.deep_view() == add_balances_spec(xs.deep_view(), bals@, fault.deep_view(), xs@.len()),
{
    let ghost bals0 = bals@;
    let ghost fault0 = fault.deep_view();
    let mut bals = bals;
    let mut fault = fault;
    let mut i: usize = 0;
    while i < xs.len()
        invariant
            i <= xs@.len(),
            (bals@, fault.deep_view()) == add_balances_spec(
                xs.deep_view(),
                bals0,
                fault0,
                i as nat,
            ),
        decreases xs@.len() - i,
    {
        let b = &xs[i];
        if fault.is_none() {
            match add_balance(bals.dup(), b) {
                Ok(x) => {
                    bals = x;
                },
                Err(e) => {
                    fault = Some(e);
                },
            }
        }
        i = i + 1;
    }
    (bals, fault)
}

/// What the account holds, by currency.
pub open spec fn balances_of_spec(raw: Doc) -> Result<Doc, Seq<char>> {
    match iter_py_spec(raw) {
        Ok(rows) => {
            let bals = Doc::obj();
            let fault: Option<Seq<char>> = None;
            let (bals, fault) = add_balances_spec(rows, bals, fault, rows.len());
            match fault {
                Some(e) => Err(e),
                None => Ok(bals),
            }
        },
        Err(e) => Err(e),
    }
}

/// What the account holds, by currency.
pub fn balances_of(raw: &Json) -> (r: Result<Json, String>)
    ensures
        list::outcome(r) == balances_of_spec(raw@),
{
    let rows = match iter_py(raw) {
        Ok(v) => v,
        Err(e) => {
            return Err(e);
        },
    };
    let mut bals = Json::obj();
    let mut fault: Option<String> = None;
    let (next_bals, next_fault) = add_balances(&rows, bals, fault);
    bals = next_bals;
    fault = next_fault;
    match fault {
        Some(e) => Err(e),
        None => Ok(bals),
    }
}

/// The resting orders that came back.
pub open spec fn active_of_spec(act: Doc) -> Result<Seq<Doc>, Seq<char>> {
    if act is Obj {
        Ok(act.get_or_null("data"@).items())
    } else {
        Err(
            "AttributeError: '"@ + pyfmt::kind_name_spec(act) + "' object has no attribute 'get'"@,
        )
    }
}

/// The resting orders that came back.
pub fn active_of(act: &Json) -> (r: Result<Vec<Json>, String>)
    ensures
        list::outcome(r) == active_of_spec(act@),
{
    if act.is_obj() {
        return Ok(json::items(&act.get_copy("data")));
    }
    let mut line = text::owned("AttributeError: '");
    line.push_str(text::owned(pyfmt::kind_name(act)).as_str());
    line.push_str("' object has no attribute 'get'");
    Err(line)
}

/// The middles between bid and ask, and what a euro costs.
#[derive(Debug)]
pub struct Mids {
    pub mids: Json,
    pub eur_usd: Option<Double>,
}

/// What a [`Mids`] holds.
pub struct MidsView {
    pub mids: Doc,
    pub eur_usd: Option<Double>,
}

impl DeepView for Mids {
    type V = MidsView;

    open spec fn deep_view(&self) -> MidsView {
        MidsView {
            mids: self.mids@,
            eur_usd: self.eur_usd,
        }
    }
}

/// The middle between bid and ask, where both are quoted.
pub open spec fn both_sides_spec(r: Doc) -> Option<Double> {
    match r.get_or_null("bid"@).to_float() {
        Some(b) => match r.get_or_null("ask"@).to_float() {
            Some(a) => if !b.eq_spec(Double::zero_spec()) && !a.eq_spec(Double::zero_spec()) {
                Some(b.add_spec(a).div_spec(Double::int_spec(2)))
            } else {
                None
            },
            None => None,
        },
        None => None,
    }
}

fn both_sides(r: &Json) -> (out: Option<Double>)
    ensures
        out == both_sides_spec(r@),
{
    let b = match r.get_copy("bid").to_float() {
        Some(v) => v,
        None => {
            return None;
        },
    };
    let a = match r.get_copy("ask").to_float() {
        Some(v) => v,
        None => {
            return None;
        },
    };
    if !b.same(Double::zero()) && !a.same(Double::zero()) {
        return Some(b.plus(a).over(Double::of_int(2)));
    }
    None
}

/// What a euro costs, where it is quoted.
pub open spec fn euro_of_spec(mids: Doc) -> Option<Double> {
    match mids.get_or_null("USDC/EUR"@).num() {
        Some(m) => if !m.eq_spec(Double::zero_spec()) {
            Some(Double::int_spec(1).div_spec(m))
        } else {
            None
        },
        None => None,
    }
}

fn euro_of(mids: &Json) -> (r: Option<Double>)
    ensures
        r == euro_of_spec(mids@),
{
    let m = match mids.get_copy("USDC/EUR").num() {
        Some(v) => v,
        None => {
            return None;
        },
    };
    if !m.same(Double::zero()) {
        return Some(Double::of_int(1).over(m));
    }
    None
}

/// Of the first `n` tickers.
pub open spec fn add_mids_spec(xs: Seq<Doc>, mids: Doc, named: bool, n: nat) -> (Doc, bool)
    decreases n,
{
    if n == 0 {
        (mids, named)
    } else {
        let (mids, named) = add_mids_spec(xs, mids, named, (n - 1) as nat);
        let r = xs[n - 1];
        if named {
            match both_sides_spec(r) {
                Some(m) => match r.get("symbol"@) {
                    Some(sym) => (mids.set(dashboard::key_str_spec(sym), Doc::Float(m)), named),
                    None => (mids, false),
                },
                None => (mids, named),
            }
        } else {
            (mids, named)
        }
    }
}

fn add_mids(xs: &Vec<Json>, mids: Json, named: bool) -> (r: (Json, bool))
    ensures
        r.deep_view() == add_mids_spec(xs.deep_view(), mids@, named, xs@.len()),
{
    let ghost mids0 = mids@;
    let ghost named0 = named;
    let mut mids = mids;
    let mut named = named;
    let mut i: usize = 0;
    while i < xs.len()
        invariant
            i <= xs@.len(),
            (mids@, named) == add_mids_spec(xs.deep_view(), mids0, named0, i as nat),
        decreases xs@.len() - i,
    {
        let r = &xs[i];
        if named {
            match both_sides(r) {
                Some(m) => {
                    match r.get("symbol") {
                        Some(sym) => {
                            mids.set(dashboard::key_str(sym).as_str(), Json::Float(m));
                        },
                        None => {
                            named = false;
                        },
                    }
                },
                None => {},
            }
        }
        i = i + 1;
    }
    (mids, named)
}

/// The middles that the tickers give; a quote without a name ends the list.
pub open spec fn mids_of_spec(t: Doc) -> MidsView {
    let named = true;
    let mids = Doc::obj();
    let (mids, named) = add_mids_spec(
        t.get_or_null("data"@).items(),
        mids,
        named,
        t.get_or_null("data"@).items().len(),
    );
    if named {
        MidsView { mids, eur_usd: euro_of_spec(mids) }
    } else {
        MidsView { mids, eur_usd: None }
    }
}

/// The middles that the tickers give; a quote without a name ends the list.
pub fn mids_of(t: &Json) -> (r: Mids)
    ensures
        r.deep_view() == mids_of_spec(t@),
{
    let mut named = true;
    let mut mids = Json::obj();
    let (next_mids, next_named) = add_mids(&json::items(&t.get_copy("data")), mids, named);
    mids = next_mids;
    named = next_named;
    if named {
        return Mids { mids: mids.copy(), eur_usd: euro_of(&mids) };
    }
    Mids { mids, eur_usd: None }
}

/// Nothing quoted.
pub open spec fn no_mids_spec() -> MidsView {
    MidsView { mids: Doc::obj(), eur_usd: None }
}

fn no_mids() -> (r: Mids)
    ensures
        r.deep_view() == no_mids_spec(),
{
    Mids { mids: Json::obj(), eur_usd: None }
}

/// How far an order rests below the market, in percent.
pub open spec fn below_spot_spec(spot: Option<Double>, price: Double) -> Option<Double> {
    match spot {
        Some(s) => if !s.eq_spec(Double::zero_spec()) && !price.eq_spec(Double::zero_spec()) {
            Some(Double::int_spec(1).sub_spec(price.div_spec(s)).mul_spec(Double::int_spec(100)))
        } else {
            None
        },
        None => None,
    }
}

fn below_spot(spot: Option<Double>, price: Double) -> (r: Option<Double>)
    ensures
        r == below_spot_spec(spot, price),
{
    let s = match spot {
        Some(v) => v,
        None => {
            return None;
        },
    };
    if !s.same(Double::zero()) && !price.same(Double::zero()) {
        return Some(Double::of_int(1).minus(price.over(s)).times(Double::of_int(100)));
    }
    None
}

/// When an order was made, in seconds.
pub open spec fn created_of_spec(o: Doc) -> Option<Double> {
    let v = o.get_or_null("created_date"@);
    if !v.truthy() {
        None
    } else {
        match v.num() {
            Some(c) => {
                let t = c.div_spec(Double::int_spec(1000));
                if !t.eq_spec(Double::zero_spec()) {
                    Some(t)
                } else {
                    None
                }
            },
            None => None,
        }
    }
}

fn created_of(o: &Json) -> (r: Option<Double>)
    ensures
        r == created_of_spec(o@),
{
    let v = o.get_copy("created_date");
    if !v.truthy() {
        return None;
    }
    let c = match v.num() {
        Some(v) => v,
        None => {
            return None;
        },
    };
    let t = c.over(Double::of_int(1000));
    if !t.same(Double::zero()) {
        return Some(t);
    }
    None
}

/// The market of an order's pair.
pub open spec fn spot_of_spec(mids: Doc, o: Doc) -> Option<Double> {
    let name = o.get_or_null("symbol"@);
    match name.as_text() {
        Some(s) => mids.get_or_null(s).num(),
        None => None,
    }
}

fn spot_of(mids: &Json, o: &Json) -> (r: Option<Double>)
    ensures
        r == spot_of_spec(mids@, o@),
{
    let name = o.get_copy("symbol");
    let s = match name.as_str() {
        Some(v) => v,
        None => {
            return None;
        },
    };
    mids.get_copy(s).num()
}

/// The coin of an order's pair.
pub open spec fn coin_name_spec(o: Doc) -> Seq<char> {
    let v = o.get_or_null("symbol"@);
    if !v.truthy() {
        ""@
    } else {
        match list::item(text::split(dashboard::key_str_spec(v), '/'), 0) {
            Some(v) => v,
            None => ""@,
        }
    }
}

fn coin_name(o: &Json) -> (r: String)
    ensures
        r@ == coin_name_spec(o@),
{
    let v = o.get_copy("symbol");
    if !v.truthy() {
        return text::owned("");
    }
    match list::str_ref(list::at(&list::split(dashboard::key_str(&v).as_str(), '/'), 0)) {
        Some(v) => text::owned(v),
        None => text::owned(""),
    }
}

/// A resting order: its coin, its price, and its row.
#[derive(Debug)]
pub struct Resting {
    pub sym: String,
    pub price: Double,
    pub row: Json,
}

/// What a [`Resting`] holds.
pub struct RestingView {
    pub sym: Seq<char>,
    pub price: Double,
    pub row: Doc,
}

impl DeepView for Resting {
    type V = RestingView;

    open spec fn deep_view(&self) -> RestingView {
        RestingView {
            sym: self.sym@,
            price: self.price,
            row: self.row@,
        }
    }
}

/// A resting order as it is shown.
pub open spec fn resting_row_spec(mids: Doc, o: Doc) -> Result<RestingView, Seq<char>> {
    match dashboard::float_or0_spec(o, "price"@) {
        Ok(price) => match dashboard::float_or0_spec(o, "quantity"@) {
            Ok(qty) => {
                let sym = coin_name_spec(o);
                let row = Doc::obj().with("sym"@, Doc::Str(sym)).with(
                    "side"@,
                    o.get_or_null("side"@),
                ).with(
                    "price"@,
                    Doc::Float(price),
                ).with(
                    "qty"@,
                    Doc::Float(qty),
                ).with(
                    "usd"@,
                    Doc::Float(price.mul_spec(qty)),
                ).with(
                    "below_spot_pct"@,
                    json::float_or_null(below_spot_spec(spot_of_spec(mids, o), price)),
                ).with(
                    "ts"@,
                    json::float_or_null(created_of_spec(o)),
                );
                Ok(RestingView { sym, price, row })
            },
            Err(e) => Err(e),
        },
        Err(e) => Err(e),
    }
}

/// A resting order as it is shown.
pub fn resting_row(mids: &Json, o: &Json) -> (r: Result<Resting, String>)
    ensures
        list::outcome(r) == resting_row_spec(mids@, o@),
{
    let price = match dashboard::float_or0(o, "price") {
        Ok(v) => v,
        Err(e) => {
            return Err(e);
        },
    };
    let qty = match dashboard::float_or0(o, "quantity") {
        Ok(v) => v,
        Err(e) => {
            return Err(e);
        },
    };
    let sym = coin_name(o);
    let row = Json::obj().with("sym", Json::text(sym.as_str())).with("side", o.get_copy("side")).with(
        "price",
        Json::Float(price),
    ).with(
        "qty",
        Json::Float(qty),
    ).with(
        "usd",
        Json::Float(price.times(qty)),
    ).with(
        "below_spot_pct",
        json::number_or_null(below_spot(spot_of(mids, o), price)),
    ).with(
        "ts",
        json::number_or_null(created_of(o)),
    );
    Ok(Resting { sym, price, row })
}

/// The first `n` of them.
pub open spec fn take_by_price_spec(
    xs: Seq<(Double, (Seq<char>, Doc))>,
    out: Seq<(Seq<char>, Doc)>,
    n: nat,
) -> Seq<(Seq<char>, Doc)> {
    out + Seq::new(
        n,
        |i: int| {
            let r = xs[i];
            r.1
        },
    )
}

fn take_by_price(
    xs: &Vec<(Double, (String, Json))>,
    out: Vec<(String, Json)>,
) -> (r: Vec<(String, Json)>)
    ensures
        r.deep_view() == take_by_price_spec(xs.deep_view(), out.deep_view(), xs@.len()),
{
    let ghost out0 = out.deep_view();
    let mut out = out;
    let mut i: usize = 0;
    while i < xs.len()
        invariant
            i <= xs@.len(),
            out.deep_view() == take_by_price_spec(xs.deep_view(), out0, i as nat),
        decreases xs@.len() - i,
    {
        let r = &xs[i];
        list::push(&mut out, r.1.dup());
        assert(out.deep_view() =~= take_by_price_spec(xs.deep_view(), out0, (i + 1) as nat));
        i = i + 1;
    }
    out
}

/// Rows with their coins, the dearest first.
pub open spec fn by_price_spec(rows: Seq<(Double, (Seq<char>, Doc))>) -> Seq<(Seq<char>, Doc)> {
    take_by_price_spec(
        list::sorted_down(rows),
        Seq::<(Seq<char>, Doc)>::empty(),
        list::sorted_down(rows).len(),
    )
}

fn by_price(rows: Vec<(Double, (String, Json))>) -> (r: Vec<(String, Json)>)
    ensures
        r.deep_view() == by_price_spec(rows.deep_view()),
{
    let mut out: Vec<(String, Json)> = list::none();
    out = take_by_price(&list::sort_down(&rows), out);
    out
}

/// The first `n` of them.
pub open spec fn take_by_coin_spec(xs: Seq<(Seq<char>, Doc)>, out: Seq<Doc>, n: nat) -> Seq<Doc> {
    out + Seq::new(
        n,
        |i: int| {
            let r = xs[i];
            r.1
        },
    )
}

fn take_by_coin(xs: &Vec<(String, Json)>, out: Vec<Json>) -> (r: Vec<Json>)
    ensures
        r.deep_view() == take_by_coin_spec(xs.deep_view(), out.deep_view(), xs@.len()),
{
    let ghost out0 = out.deep_view();
    let mut out = out;
    let mut i: usize = 0;
    while i < xs.len()
        invariant
            i <= xs@.len(),
            out.deep_view() == take_by_coin_spec(xs.deep_view(), out0, i as nat),
        decreases xs@.len() - i,
    {
        let r = &xs[i];
        list::push(&mut out, r.1.copy());
        assert(out.deep_view() =~= take_by_coin_spec(xs.deep_view(), out0, (i + 1) as nat));
        i = i + 1;
    }
    out
}

/// Rows by coin.
pub open spec fn by_coin_spec(rows: Seq<(Seq<char>, Doc)>) -> Seq<Doc> {
    take_by_coin_spec(
        list::sorted_entries(rows),
        Seq::<Doc>::empty(),
        list::sorted_entries(rows).len(),
    )
}

fn by_coin(rows: Vec<(String, Json)>) -> (r: Vec<Json>)
    ensures
        r.deep_view() == by_coin_spec(rows.deep_view()),
{
    let mut out: Vec<Json> = list::none();
    out = take_by_coin(&list::sort_entries(&rows), out);
    out
}

/// The first `n` of them.
pub open spec fn add_resting_spec(
    mids: Doc,
    xs: Seq<Doc>,
    rows: Seq<(Double, (Seq<char>, Doc))>,
    fault: Option<Seq<char>>,
    n: nat,
) -> (Seq<(Double, (Seq<char>, Doc))>, Option<Seq<char>>)
    decreases n,
{
    if n == 0 {
        (rows, fault)
    } else {
        let (rows, fault) = add_resting_spec(mids, xs, rows, fault, (n - 1) as nat);
        let o = xs[n - 1];
        if fault is None {
            match resting_row_spec(mids, o) {
                Ok(x) => (rows.push((x.price, (x.sym, x.row))), fault),
                Err(e) => (rows, Some(e)),
            }
        } else {
            (rows, fault)
        }
    }
}

fn add_resting(
    mids: &Json,
    xs: &Vec<Json>,
    rows: Vec<(Double, (String, Json))>,
    fault: Option<String>,
) -> (r: (Vec<(Double, (String, Json))>, Option<String>))
    ensures
        r.deep_view() == add_resting_spec(
            mids@,
            xs.deep_view(),
            rows.deep_view(),
            fault.deep_view(),
            xs@.len(),
        ),
{
    let ghost rows0 = rows.deep_view();
    let ghost fault0 = fault.deep_view();
    let mut rows = rows;
    let mut fault = fault;
    let mut i: usize = 0;
    while i < xs.len()
        invariant
            i <= xs@.len(),
            (rows.deep_view(), fault.deep_view()) == add_resting_spec(
                mids@,
                xs.deep_view(),
                rows0,
                fault0,
                i as nat,
            ),
        decreases xs@.len() - i,
    {
        let o = &xs[i];
        if fault.is_none() {
            match resting_row(mids, o) {
                Ok(x) => {
                    list::push(&mut rows, (x.price, (text::owned(x.sym.as_str()), x.row.copy())));
                },
                Err(e) => {
                    fault = Some(e);
                },
            }
        }
        i = i + 1;
    }
    (rows, fault)
}

/// The resting orders, by coin and then from the dearest down.
pub open spec fn resting_rows_spec(mids: Doc, active: Seq<Doc>) -> Result<Seq<Doc>, Seq<char>> {
    let rows = Seq::<(Double, (Seq<char>, Doc))>::empty();
    let fault: Option<Seq<char>> = None;
    let (rows, fault) = add_resting_spec(mids, active, rows, fault, active.len());
    match fault {
        Some(e) => Err(e),
        None => Ok(by_coin_spec(by_price_spec(rows))),
    }
}

/// The resting orders, by coin and then from the dearest down.
pub fn resting_rows(mids: &Json, active: &Vec<Json>) -> (r: Result<Vec<Json>, String>)
    ensures
        list::outcome(r) == resting_rows_spec(mids@, active.deep_view()),
{
    let mut rows: Vec<(Double, (String, Json))> = list::none();
    let mut fault: Option<String> = None;
    let (next_rows, next_fault) = add_resting(mids, active, rows, fault);
    rows = next_rows;
    fault = next_fault;
    match fault {
        Some(e) => Err(e),
        None => Ok(by_coin(by_price(rows))),
    }
}

/// What is held of a currency is worth, nothing where it is not quoted.
pub open spec fn worth_spec(mids: Doc, cur: Seq<char>, v: Doc) -> Double {
    let total = match v.get_or_null("total"@).num() {
        Some(v) => v,
        None => Double::zero_spec(),
    };
    match mids.get_or_null(cur + "/USD"@).num() {
        Some(m) => total.mul_spec(m),
        None => total.mul_spec(Double::zero_spec()),
    }
}

fn worth(mids: &Json, cur: &str, v: &Json) -> (r: Double)
    ensures
        r == worth_spec(mids@, cur@, v@),
{
    let total = match v.get_copy("total").num() {
        Some(v) => v,
        None => Double::zero(),
    };
    let mut line = text::owned(cur);
    line.push_str("/USD");
    match mids.get_copy(line.as_str()).num() {
        Some(m) => total.times(m),
        None => total.times(Double::zero()),
    }
}

/// Of the first `n` balances.
pub open spec fn add_worth_spec(
    mids: Doc,
    xs: Seq<(Seq<char>, Doc)>,
    parts: Seq<Num>,
    n: nat,
) -> Seq<Num> {
    parts + list::gathered(
        xs,
        |it: (Seq<char>, Doc)| {
            let c = it.0;
            let v = it.1;
            if c != "USD"@ {
                Some(crate::dashboard::Num::Frac(worth_spec(mids, c, v)))
            } else {
                None
            }
        },
        n,
    )
}

fn add_worth(mids: &Json, xs: &Vec<(String, Json)>, parts: Vec<Num>) -> (r: Vec<Num>)
    ensures
        r.deep_view() == add_worth_spec(mids@, xs.deep_view(), parts.deep_view(), xs@.len()),
{
    let ghost parts0 = parts.deep_view();
    let mut parts = parts;
    let mut i: usize = 0;
    while i < xs.len()
        invariant
            i <= xs@.len(),
            parts.deep_view() == add_worth_spec(mids@, xs.deep_view(), parts0, i as nat),
        decreases xs@.len() - i,
    {
        let it = &xs[i];
        let c = it.0.as_str();
        let v = &it.1;
        if !text::same(c, "USD") {
            list::push(&mut parts, crate::dashboard::Num::Frac(worth(mids, c, v)));
        }
        assert(parts.deep_view() =~= add_worth_spec(mids@, xs.deep_view(), parts0, (i + 1) as nat));
        i = i + 1;
    }
    parts
}

/// What the coins are worth.
pub open spec fn hold_value_spec(bals: Doc, mids: Doc) -> Num {
    let parts = add_worth_spec(mids, bals.entries(), Seq::<Num>::empty(), bals.entries().len());
    crate::dashboard::py_sum_spec(parts)
}

fn hold_value(bals: &Json, mids: &Json) -> (r: Num)
    ensures
        r == hold_value_spec(bals@, mids@),
{
    let mut parts: Vec<Num> = list::none();
    parts = add_worth(mids, &json::entries(bals), parts);
    crate::dashboard::py_sum(&parts)
}

/// A part of the dollars held.
pub open spec fn usd_value_spec(bals: Doc, key: Seq<char>) -> Doc {
    let usd = bals.get_or_null("USD"@);
    match usd.get(key) {
        Some(v) => v,
        None => Doc::Float(Double::zero_spec()),
    }
}

fn usd_value(bals: &Json, key: &str) -> (r: Json)
    ensures
        r@ == usd_value_spec(bals@, key@),
{
    let usd = bals.get_copy("USD");
    match usd.get(key) {
        Some(v) => v.copy(),
        None => Json::Float(Double::zero()),
    }
}

/// A number, zero where it is none.
pub open spec fn number_or_zero_spec(v: Doc) -> Num {
    match crate::dashboard::Num::of_spec(v) {
        Some(x) => x,
        None => crate::dashboard::Num::Frac(Double::zero_spec()),
    }
}

fn number_or_zero(v: &Json) -> (r: Num)
    ensures
        r == number_or_zero_spec(v@),
{
    match crate::dashboard::Num::of(v) {
        Some(x) => x,
        None => crate::dashboard::Num::Frac(Double::zero()),
    }
}

/// The account as it is shown.
pub open spec fn account_json_spec(bals: Doc, m: MidsView, rows: Seq<Doc>) -> Doc {
    let free = usd_value_spec(bals, "available"@);
    let reserved = usd_value_spec(bals, "reserved"@);
    let hold = hold_value_spec(bals, m.mids);
    let total = number_or_zero_spec(free).plus_spec(number_or_zero_spec(reserved)).plus_spec(hold);
    Doc::obj().with("balances"@, bals).with("orders"@, Doc::Arr(rows)).with(
        "eur_usd"@,
        json::float_or_null(m.eur_usd),
    ).with(
        "usd_free"@,
        free,
    ).with(
        "usd_reserved"@,
        reserved,
    ).with(
        "hold_value"@,
        hold.json_spec(),
    ).with(
        "total_value"@,
        total.json_spec(),
    )
}

/// The account as it is shown.
pub fn account_json(bals: &Json, m: &Mids, rows: Vec<Json>) -> (r: Json)
    ensures
        r@ == account_json_spec(bals@, m.deep_view(), rows.deep_view()),
{
    let free = usd_value(bals, "available");
    let reserved = usd_value(bals, "reserved");
    let hold = hold_value(bals, &m.mids);
    let total = number_or_zero(&free).plus(number_or_zero(&reserved)).plus(hold);
    Json::obj().with("balances", bals.copy()).with("orders", json::array(rows)).with(
        "eur_usd",
        json::number_or_null(m.eur_usd),
    ).with(
        "usd_free",
        free,
    ).with(
        "usd_reserved",
        reserved,
    ).with(
        "hold_value",
        hold.json(),
    ).with(
        "total_value",
        total.json(),
    )
}

/// How far the reading of the account has come: what it asks for next, or the reading, and what is kept of it.
#[derive(Debug)]
pub struct Account {
    pub ask: Option<Ask>,
    pub out: Json,
    pub cache: Option<Json>,
}

/// What a [`Account`] holds.
pub struct AccountView {
    pub ask: Option<AskView>,
    pub out: Doc,
    pub cache: Option<Doc>,
}

impl DeepView for Account {
    type V = AccountView;

    open spec fn deep_view(&self) -> AccountView {
        AccountView {
            ask: self.ask.deep_view(),
            out: self.out@,
            cache: self.cache.deep_view(),
        }
    }
}

/// A reading that waits for an answer.
pub open spec fn account_waits_spec(t: TalkView) -> AccountView {
    AccountView { ask: t.ask, out: Doc::Null, cache: None }
}

fn account_waits(t: &Talk) -> (r: Account)
    ensures
        r.deep_view() == account_waits_spec(t.deep_view()),
{
    Account { ask: t.ask.dup(), out: Json::Null, cache: None }
}

/// What stands in for a failed reading: the one that was kept while it is under half an hour old, otherwise the error.
pub open spec fn from_cache_spec(file: Option<Doc>, why: Seq<char>, now: Double) -> Doc {
    match file {
        Some(c) => if c is Obj
            && now.sub_spec(
                match c.get_or_null("ts"@).num() {
                    Some(v) => v,
                    None => Double::zero_spec(),
                },
            ).lt_spec(
                Double::int_spec(1800),
            ) {
            if c.get_or_null("data"@) is Obj {
                match c.get_or_null("ts"@).num() {
                    Some(ts) => {
                        let out = c.get_or_null("data"@);
                        out.set(
                            "stale_s"@,
                            Doc::Int(
                                now.sub_spec(ts).trunc_spec().cast_spec(i64::MIN as int, i64::MAX as int) as i64,
                            ),
                        )
                    },
                    None => Doc::obj().with("error"@, Doc::Str(why)),
                }
            } else {
                Doc::obj().with("error"@, Doc::Str(why))
            }
        } else {
            Doc::obj().with("error"@, Doc::Str(why))
        },
        None => Doc::obj().with("error"@, Doc::Str(why)),
    }
}

/// What stands in for a failed reading: the one that was kept while it is under half an hour old, otherwise the error.
pub fn from_cache(file: Option<&Json>, why: &str, now: Double) -> (r: Json)
    ensures
        r@ == from_cache_spec(file.deep_view(), why@, now),
{
    match file {
        Some(c) => {
            if c.is_obj()
                && now.minus(
                    match c.get_copy("ts").num() {
                        Some(v) => v,
                        None => Double::zero(),
                    },
                ).lt(
                    Double::of_int(1800),
                ) {
                if c.get_copy("data").is_obj() {
                    match c.get_copy("ts").num() {
                        Some(ts) => {
                            let mut out = c.get_copy("data");
                            out.set("stale_s", Json::Int(now.minus(ts).trunc().to_i64()));
                            return out;
                        },
                        None => {
                            return Json::obj().with("error", Json::text(why));
                        },
                    }
                }
                return Json::obj().with("error", Json::text(why));
            }
            Json::obj().with("error", Json::text(why))
        },
        None => Json::obj().with("error", Json::text(why)),
    }
}

/// The reading that was kept.
pub open spec fn kept_file_spec(a: AnswerView) -> Option<Doc> {
    match a {
        AnswerView::Value(v) => Some(v),
        _ => None,
    }
}

fn kept_file(a: Answer) -> (r: Option<Json>)
    ensures
        r.deep_view() == kept_file_spec(a.deep_view()),
{
    match a {
        Answer::Value(v) => Some(v),
        _ => None,
    }
}

/// A reading that failed.
pub open spec fn account_failed_spec(
    t: TalkView,
    why: Seq<char>,
    answers: Seq<AnswerView>,
) -> AccountView {
    let (t1, a) = asked_spec(t, AskView::Now, answers);
    if waits_spec(t1) {
        account_waits_spec(t1)
    } else {
        match time_of_spec(a) {
            Ok(now) => {
                let (t2, b) = asked_spec(t1, AskView::Cache, answers);
                if waits_spec(t2) {
                    account_waits_spec(t2)
                } else {
                    AccountView {
                        ask: None,
                        out: from_cache_spec(kept_file_spec(b), why, now),
                        cache: None,
                    }
                }
            },
            Err(e) => AccountView {
                ask: None,
                out: Doc::obj().with("error"@, Doc::Str(why)),
                cache: None,
            },
        }
    }
}

fn account_failed(t: Talk, why: &str, answers: &Vec<Answer>) -> (r: Account)
    ensures
        r.deep_view() == account_failed_spec(t.deep_view(), why@, answers.deep_view()),
{
    let (t1, a) = asked(t, Ask::Now, answers);
    if waits(&t1) {
        return account_waits(&t1);
    }
    match time_of(&a) {
        Ok(now) => {
            let (t2, b) = asked(t1, Ask::Cache, answers);
            if waits(&t2) {
                return account_waits(&t2);
            }
            Account {
                ask: None,
                out: from_cache(list::borrow(&kept_file(b)), why, now),
                cache: None,
            }
        },
        Err(e) => Account {
            ask: None,
            out: Json::obj().with("error", Json::text(why)),
            cache: None,
        },
    }
}

/// A reading that came through, with what is kept of it.
pub open spec fn account_done_spec(t: TalkView, out: Doc, answers: Seq<AnswerView>) -> AccountView {
    let (t1, a) = asked_spec(t, AskView::Now, answers);
    if waits_spec(t1) {
        account_waits_spec(t1)
    } else {
        match time_of_spec(a) {
            Ok(now) => {
                let kept = Doc::obj().with("ts"@, Doc::Float(now)).with("data"@, out);
                AccountView { ask: None, out, cache: Some(kept) }
            },
            Err(e) => AccountView { ask: None, out, cache: None },
        }
    }
}

fn account_done(t: Talk, out: Json, answers: &Vec<Answer>) -> (r: Account)
    ensures
        r.deep_view() == account_done_spec(t.deep_view(), out@, answers.deep_view()),
{
    let (t1, a) = asked(t, Ask::Now, answers);
    if waits(&t1) {
        return account_waits(&t1);
    }
    match time_of(&a) {
        Ok(now) => {
            let kept = Json::obj().with("ts", Json::Float(now)).with("data", out.copy());
            Account { ask: None, out, cache: Some(kept) }
        },
        Err(e) => Account { ask: None, out, cache: None },
    }
}

/// The middles, none where the tickers could not be read.
pub open spec fn quoted_mids_spec(a: AnswerView) -> MidsView {
    match a {
        AnswerView::Value(v) => mids_of_spec(v),
        _ => no_mids_spec(),
    }
}

fn quoted_mids(a: Answer) -> (r: Mids)
    ensures
        r.deep_view() == quoted_mids_spec(a.deep_view()),
{
    match a {
        Answer::Value(v) => mids_of(&v),
        _ => no_mids(),
    }
}

/// A reading whose balances and orders came back: the tickers are left.
pub open spec fn account_orders_spec(
    t: TalkView,
    bals: Doc,
    active: Seq<Doc>,
    answers: Seq<AnswerView>,
) -> AccountView {
    let (t1, a) = asked_spec(t, AskView::Sleep(Double::ratio_spec(5, 10)), answers);
    if waits_spec(t1) {
        account_waits_spec(t1)
    } else {
        let bare = Seq::<(Seq<char>, Seq<char>)>::empty();
        let (t2, b) = asked_spec(
            t1,
            AskView::Fetch("https://revx.revolut.com/api/1.0/public/tickers"@, bare),
            answers,
        );
        if waits_spec(t2) {
            account_waits_spec(t2)
        } else {
            let m = quoted_mids_spec(b);
            match resting_rows_spec(m.mids, active) {
                Ok(rows) => account_done_spec(t2, account_json_spec(bals, m, rows), answers),
                Err(e) => account_failed_spec(t2, e, answers),
            }
        }
    }
}

fn account_orders(t: Talk, bals: &Json, active: &Vec<Json>, answers: &Vec<Answer>) -> (r: Account)
    ensures
        r.deep_view() == account_orders_spec(
            t.deep_view(),
            bals@,
            active.deep_view(),
            answers.deep_view(),
        ),
{
    let (t1, a) = asked(t, Ask::Sleep(Double::ratio(5, 10)), answers);
    if waits(&t1) {
        return account_waits(&t1);
    }
    let bare: Vec<(String, String)> = list::none();
    let (t2, b) = asked(
        t1,
        Ask::Fetch(text::owned("https://revx.revolut.com/api/1.0/public/tickers"), bare),
        answers,
    );
    if waits(&t2) {
        return account_waits(&t2);
    }
    let m = quoted_mids(b);
    match resting_rows(&m.mids, active) {
        Ok(rows) => account_done(t2, account_json(bals, &m, rows), answers),
        Err(e) => account_failed(t2, e.as_str(), answers),
    }
}

/// A reading whose balances came back.
pub open spec fn account_balances_spec(
    t: TalkView,
    bals: Doc,
    answers: Seq<AnswerView>,
) -> AccountView {
    let (t1, a) = asked_spec(t, AskView::Sleep(Double::ratio_spec(5, 10)), answers);
    if waits_spec(t1) {
        account_waits_spec(t1)
    } else {
        let (t2, got) = revx_call_spec(t1, "/api/1.0/orders/active"@, answers);
        if waits_spec(t2) {
            account_waits_spec(t2)
        } else {
            match got {
                Ok(act) => match active_of_spec(act) {
                    Ok(active) => account_orders_spec(t2, bals, active, answers),
                    Err(e) => account_failed_spec(t2, e, answers),
                },
                Err(e) => account_failed_spec(t2, e, answers),
            }
        }
    }
}

fn account_balances(t: Talk, bals: &Json, answers: &Vec<Answer>) -> (r: Account)
    ensures
        r.deep_view() == account_balances_spec(t.deep_view(), bals@, answers.deep_view()),
{
    let (t1, a) = asked(t, Ask::Sleep(Double::ratio(5, 10)), answers);
    if waits(&t1) {
        return account_waits(&t1);
    }
    let (t2, got) = revx_call(t1, "/api/1.0/orders/active", answers);
    if waits(&t2) {
        return account_waits(&t2);
    }
    match got {
        Ok(act) => match active_of(&act) {
            Ok(active) => account_orders(t2, bals, &active, answers),
            Err(e) => account_failed(t2, e.as_str(), answers),
        },
        Err(e) => account_failed(t2, e.as_str(), answers),
    }
}

/// The Revolut X account: balances, resting orders and spot mids. The reading, or the cached one
/// (marked `stale_s`) while it is under 30 minutes old, or `{"error": ...}`.
pub open spec fn revx_read_spec(answers: Seq<AnswerView>) -> AccountView {
    let t = TalkView { at: 0, ask: None };
    let (t1, got) = revx_call_spec(t, "/api/1.0/balances"@, answers);
    if waits_spec(t1) {
        account_waits_spec(t1)
    } else {
        match got {
            Ok(raw) => match balances_of_spec(raw) {
                Ok(bals) => account_balances_spec(t1, bals, answers),
                Err(e) => account_failed_spec(t1, e, answers),
            },
            Err(e) => account_failed_spec(t1, e, answers),
        }
    }
}

/// The Revolut X account: balances, resting orders and spot mids. The reading, or the cached one
/// (marked `stale_s`) while it is under 30 minutes old, or `{"error": ...}`.
pub fn revx_read(answers: &Vec<Answer>) -> (r: Account)
    ensures
        r.deep_view() == revx_read_spec(answers.deep_view()),
{
    let t = Talk { at: 0, ask: None };
    let (t1, got) = revx_call(t, "/api/1.0/balances", answers);
    if waits(&t1) {
        return account_waits(&t1);
    }
    match got {
        Ok(raw) => match balances_of(&raw) {
            Ok(bals) => account_balances(t1, &bals, answers),
            Err(e) => account_failed(t1, e.as_str(), answers),
        },
        Err(e) => account_failed(t1, e.as_str(), answers),
    }
}

/// Of the first `n` routes.
pub open spec fn add_routed_spec(
    coins: Doc,
    xs: Seq<RouteView>,
    out: Seq<Seq<char>>,
    n: nat,
) -> Seq<Seq<char>> {
    out + list::gathered(
        xs,
        |r: RouteView| if coins.get(r.sym) is Some {
            Some(r.sym)
        } else {
            None
        },
        n,
    )
}

fn add_routed(coins: &Json, xs: &Vec<Route>, out: Vec<String>) -> (r: Vec<String>)
    ensures
        r.deep_view() == add_routed_spec(coins@, xs.deep_view(), out.deep_view(), xs@.len()),
{
    let ghost out0 = out.deep_view();
    let mut out = out;
    let mut i: usize = 0;
    while i < xs.len()
        invariant
            i <= xs@.len(),
            out.deep_view() == add_routed_spec(coins@, xs.deep_view(), out0, i as nat),
        decreases xs@.len() - i,
    {
        let r = &xs[i];
        if coins.contains_key(r.sym.as_str()) {
            list::push(&mut out, text::owned(r.sym.as_str()));
        }
        assert(out.deep_view() =~= add_routed_spec(coins@, xs.deep_view(), out0, (i + 1) as nat));
        i = i + 1;
    }
    out
}

/// And of the first `n` coins.
pub open spec fn add_unrouted_spec(
    xs: Seq<(Seq<char>, Doc)>,
    out: Seq<Seq<char>>,
    n: nat,
) -> Seq<Seq<char>>
    decreases n,
{
    if n == 0 {
        out
    } else {
        let out = add_unrouted_spec(xs, out, (n - 1) as nat);
        let it = xs[n - 1];
        let k = it.0;
        if !out.contains(k) {
            out.push(k)
        } else {
            out
        }
    }
}

fn add_unrouted(xs: &Vec<(String, Json)>, out: Vec<String>) -> (r: Vec<String>)
    ensures
        r.deep_view() == add_unrouted_spec(xs.deep_view(), out.deep_view(), xs@.len()),
{
    let ghost out0 = out.deep_view();
    let mut out = out;
    let mut i: usize = 0;
    while i < xs.len()
        invariant
            i <= xs@.len(),
            out.deep_view() == add_unrouted_spec(xs.deep_view(), out0, i as nat),
        decreases xs@.len() - i,
    {
        let it = &xs[i];
        let k = it.0.as_str();
        if !list::holds(&out, k) {
            list::push(&mut out, text::owned(k));
        }
        i = i + 1;
    }
    out
}

/// The coins of a regime reading: those that are routed first, in routing order, then the others.
pub open spec fn coin_order_spec(routing: Seq<RouteView>, coins: Doc) -> Seq<Seq<char>> {
    let out = add_routed_spec(coins, routing, Seq::<Seq<char>>::empty(), routing.len());
    add_unrouted_spec(coins.entries(), out, coins.entries().len())
}

fn coin_order(routing: &Vec<Route>, coins: &Json) -> (r: Vec<String>)
    ensures
        r.deep_view() == coin_order_spec(routing.deep_view(), coins@),
{
    let mut out: Vec<String> = list::none();
    out = add_routed(coins, routing, out);
    out = add_unrouted(&json::entries(coins), out);
    out
}

/// The signal names in the order the regime reading lists them.
pub open spec fn signal_names_spec() -> Seq<Seq<char>> {
    Seq::<Seq<char>>::empty().push("above_sma30"@).push("ret30_strong"@).push("fresh_30d_high"@).push(
        "higher_lows"@,
    ).push(
        "insufficient_history"@,
    )
}

fn signal_names() -> (r: Vec<String>)
    ensures
        r.deep_view() == signal_names_spec(),
{
    let mut out: Vec<String> = list::none();
    list::push(&mut out, text::owned("above_sma30"));
    list::push(&mut out, text::owned("ret30_strong"));
    list::push(&mut out, text::owned("fresh_30d_high"));
    list::push(&mut out, text::owned("higher_lows"));
    list::push(&mut out, text::owned("insufficient_history"));
    out
}

/// Of the first `n` known signals.
pub open spec fn add_known_spec(
    sig: Doc,
    xs: Seq<Seq<char>>,
    out: Seq<Seq<char>>,
    n: nat,
) -> Seq<Seq<char>> {
    out + list::kept(xs, |k: Seq<char>| sig.get(k) is Some, n)
}

fn add_known(sig: &Json, xs: &Vec<String>, out: Vec<String>) -> (r: Vec<String>)
    ensures
        r.deep_view() == add_known_spec(sig@, xs.deep_view(), out.deep_view(), xs@.len()),
{
    let ghost out0 = out.deep_view();
    let mut out = out;
    let mut i: usize = 0;
    while i < xs.len()
        invariant
            i <= xs@.len(),
            out.deep_view() == add_known_spec(sig@, xs.deep_view(), out0, i as nat),
        decreases xs@.len() - i,
    {
        let k = xs[i].as_str();
        if sig.contains_key(k) {
            list::push(&mut out, text::owned(k));
        }
        assert(out.deep_view() =~= add_known_spec(sig@, xs.deep_view(), out0, (i + 1) as nat));
        i = i + 1;
    }
    out
}

/// And of the first `n` signals.
pub open spec fn add_unknown_spec(
    xs: Seq<(Seq<char>, Doc)>,
    out: Seq<Seq<char>>,
    n: nat,
) -> Seq<Seq<char>>
    decreases n,
{
    if n == 0 {
        out
    } else {
        let out = add_unknown_spec(xs, out, (n - 1) as nat);
        let it = xs[n - 1];
        let k = it.0;
        if !out.contains(k) {
            out.push(k)
        } else {
            out
        }
    }
}

fn add_unknown(xs: &Vec<(String, Json)>, out: Vec<String>) -> (r: Vec<String>)
    ensures
        r.deep_view() == add_unknown_spec(xs.deep_view(), out.deep_view(), xs@.len()),
{
    let ghost out0 = out.deep_view();
    let mut out = out;
    let mut i: usize = 0;
    while i < xs.len()
        invariant
            i <= xs@.len(),
            out.deep_view() == add_unknown_spec(xs.deep_view(), out0, i as nat),
        decreases xs@.len() - i,
    {
        let it = &xs[i];
        let k = it.0.as_str();
        if !list::holds(&out, k) {
            list::push(&mut out, text::owned(k));
        }
        i = i + 1;
    }
    out
}

/// The signals of a coin: the known ones first, then the others.
pub open spec fn signal_order_spec(sig: Doc) -> Seq<Seq<char>> {
    let out = add_known_spec(
        sig,
        signal_names_spec(),
        Seq::<Seq<char>>::empty(),
        signal_names_spec().len(),
    );
    add_unknown_spec(sig.entries(), out, sig.entries().len())
}

fn signal_order(sig: &Json) -> (r: Vec<String>)
    ensures
        r.deep_view() == signal_order_spec(sig@),
{
    let mut out: Vec<String> = list::none();
    out = add_known(sig, &signal_names(), out);
    out = add_unknown(&json::entries(sig), out);
    out
}

/// Of the first `n` signals.
pub open spec fn add_on_spec(
    sig: Doc,
    xs: Seq<Seq<char>>,
    on: Seq<Seq<char>>,
    n: nat,
) -> Seq<Seq<char>> {
    on + list::kept(xs, |k: Seq<char>| sig.get_or_null(k) == Doc::Bool(true), n)
}

fn add_on(sig: &Json, xs: &Vec<String>, on: Vec<String>) -> (r: Vec<String>)
    ensures
        r.deep_view() == add_on_spec(sig@, xs.deep_view(), on.deep_view(), xs@.len()),
{
    let ghost on0 = on.deep_view();
    let mut on = on;
    let mut i: usize = 0;
    while i < xs.len()
        invariant
            i <= xs@.len(),
            on.deep_view() == add_on_spec(sig@, xs.deep_view(), on0, i as nat),
        decreases xs@.len() - i,
    {
        let k = xs[i].as_str();
        if sig.get_copy(k).is_true() {
            list::push(&mut on, text::owned(k));
        }
        assert(on.deep_view() =~= add_on_spec(sig@, xs.deep_view(), on0, (i + 1) as nat));
        i = i + 1;
    }
    on
}

/// How many signals are on.
pub open spec fn score_of_spec(sig: Doc, names: Seq<Seq<char>>) -> usize {
    let on = add_on_spec(sig, names, Seq::<Seq<char>>::empty(), names.len());
    (on.len() as usize)
}

fn score_of(sig: &Json, names: &Vec<String>) -> (r: usize)
    ensures
        r == score_of_spec(sig@, names.deep_view()),
{
    let mut on: Vec<String> = list::none();
    on = add_on(sig, names, on);
    on.len()
}

/// The first `n` of them.
pub open spec fn add_signal_spec(
    sig: Doc,
    xs: Seq<Seq<char>>,
    out: Seq<(Seq<char>, Doc)>,
    n: nat,
) -> Seq<(Seq<char>, Doc)> {
    out + Seq::new(
        n,
        |i: int| {
            let k = xs[i];
            (k, Doc::Bool(sig.get_or_null(k).truthy()))
        },
    )
}

fn add_signal(sig: &Json, xs: &Vec<String>, out: Vec<(String, Json)>) -> (r: Vec<(String, Json)>)
    ensures
        r.deep_view() == add_signal_spec(sig@, xs.deep_view(), out.deep_view(), xs@.len()),
{
    let ghost out0 = out.deep_view();
    let mut out = out;
    let mut i: usize = 0;
    while i < xs.len()
        invariant
            i <= xs@.len(),
            out.deep_view() == add_signal_spec(sig@, xs.deep_view(), out0, i as nat),
        decreases xs@.len() - i,
    {
        let k = xs[i].as_str();
        list::push(&mut out, (text::owned(k), Json::Bool(sig.get_copy(k).truthy())));
        assert(out.deep_view() =~= add_signal_spec(sig@, xs.deep_view(), out0, (i + 1) as nat));
        i = i + 1;
    }
    out
}

/// The signals, on or off.
pub open spec fn signals_json_spec(sig: Doc, names: Seq<Seq<char>>) -> Doc {
    let out = add_signal_spec(sig, names, Seq::<(Seq<char>, Doc)>::empty(), names.len());
    Doc::Obj(out)
}

fn signals_json(sig: &Json, names: &Vec<String>) -> (r: Json)
    ensures
        r@ == signals_json_spec(sig@, names.deep_view()),
{
    let mut out: Vec<(String, Json)> = list::none();
    out = add_signal(sig, names, out);
    json::object(out)
}

/// A coin of the regime block: its error, or whether it runs and on which signals.
pub open spec fn regime_coin_spec(c: Doc) -> Doc {
    let e = c.get_or_null("error"@);
    if e.truthy() {
        Doc::obj().with("error"@, Doc::Str(text::first(e.py_str(), 80 as nat)))
    } else {
        let sig = c.get_or_null("signals"@);
        let sig = if !sig.truthy() {
            Doc::Null
        } else {
            sig
        };
        let names = signal_order_spec(sig);
        Doc::obj().with("running"@, Doc::Bool(c.get_or_null("running"@).truthy())).with(
            "score"@,
            Doc::Int(score_of_spec(sig, names) as i64),
        ).with(
            "signals"@,
            signals_json_spec(sig, names),
        )
    }
}

/// A coin of the regime block: its error, or whether it runs and on which signals.
pub fn regime_coin(c: &Json) -> (r: Json)
    ensures
        r@ == regime_coin_spec(c@),
{
    let e = c.get_copy("error");
    if e.truthy() {
        return Json::obj().with("error", Json::text(text::head(e.py_str().as_str(), 80).as_str()));
    }
    let mut sig = c.get_copy("signals");
    if !sig.truthy() {
        sig = Json::Null;
    }
    let names = signal_order(&sig);
    Json::obj().with("running", Json::Bool(c.get_copy("running").truthy())).with(
        "score",
        Json::Int(score_of(&sig, &names) as i64),
    ).with(
        "signals",
        signals_json(&sig, &names),
    )
}

/// The first `n` of them.
pub open spec fn add_regime_coin_spec(coins: Doc, xs: Seq<Seq<char>>, out: Doc, n: nat) -> Doc
    decreases n,
{
    if n == 0 {
        out
    } else {
        let out = add_regime_coin_spec(coins, xs, out, (n - 1) as nat);
        let s = xs[n - 1];
        out.set(s, regime_coin_spec(coins.get_or_null(s)))
    }
}

fn add_regime_coin(coins: &Json, xs: &Vec<String>, out: Json) -> (r: Json)
    ensures
        r@ == add_regime_coin_spec(coins@, xs.deep_view(), out@, xs@.len()),
{
    let ghost out0 = out@;
    let mut out = out;
    let mut i: usize = 0;
    while i < xs.len()
        invariant
            i <= xs@.len(),
            out@ == add_regime_coin_spec(coins@, xs.deep_view(), out0, i as nat),
        decreases xs@.len() - i,
    {
        let s = xs[i].as_str();
        out.set(s, regime_coin(&coins.get_copy(s)));
        i = i + 1;
    }
    out
}

/// The coins of the regime block.
pub open spec fn regime_coins_spec(routing: Seq<RouteView>, coins: Doc) -> Doc {
    let out = Doc::obj();
    add_regime_coin_spec(
        coins,
        coin_order_spec(routing, coins),
        out,
        coin_order_spec(routing, coins).len(),
    )
}

fn regime_coins(routing: &Vec<Route>, coins: &Json) -> (r: Json)
    ensures
        r@ == regime_coins_spec(routing.deep_view(), coins@),
{
    let mut out = Json::obj();
    out = add_regime_coin(coins, &coin_order(routing, coins), out);
    out
}

/// The regime block: the label, the evidence behind it and how long it has held.
pub open spec fn regime_block_spec(
    routing: Seq<RouteView>,
    got: Result<(Doc, Doc), Seq<char>>,
) -> Doc {
    match got {
        Ok(pair) => {
            let reg = pair.0;
            let hist = pair.1;
            let coins = reg.get_or_null("coins"@);
            Doc::obj().with("label"@, reg.get_or_null("market"@)).with(
                "btc"@,
                reg.get_or_null("btc"@),
            ).with(
                "breadth"@,
                reg.get_or_null("breadth_above_sma30"@),
            ).with(
                "coins"@,
                regime_coins_spec(routing, coins),
            ).with(
                "held_days"@,
                hist.get_or_null("held_days"@),
            ).with(
                "prev_label"@,
                hist.get_or_null("prev_label"@),
            ).with(
                "confirmed"@,
                hist.get_or_null("confirmed"@),
            ).with(
                "confirm_days"@,
                hist.get_or_null("confirm_days"@),
            ).with(
                "days_covered"@,
                hist.get_or_null("days_covered"@),
            ).with(
                "inputs"@,
                Doc::Str(
                    "BTC vs its 100d and 200d SMA, plus how many coins sit above their own 30d SMA. Trend filter only: no valuation, flows, on-chain, funding or sentiment."@,
                ),
            )
        },
        Err(e) => Doc::obj().with("error"@, Doc::Str(text::first(e, 200 as nat))),
    }
}

/// The regime block: the label, the evidence behind it and how long it has held.
pub fn regime_block(routing: &Vec<Route>, got: &Result<(Json, Json), String>) -> (r: Json)
    ensures
        r@ == regime_block_spec(routing.deep_view(), list::outcome(*got)),
{
    match got {
        Ok(pair) => {
            let reg = &pair.0;
            let hist = &pair.1;
            let coins = reg.get_copy("coins");
            Json::obj().with("label", reg.get_copy("market")).with("btc", reg.get_copy("btc")).with(
                "breadth",
                reg.get_copy("breadth_above_sma30"),
            ).with(
                "coins",
                regime_coins(routing, &coins),
            ).with(
                "held_days",
                hist.get_copy("held_days"),
            ).with(
                "prev_label",
                hist.get_copy("prev_label"),
            ).with(
                "confirmed",
                hist.get_copy("confirmed"),
            ).with(
                "confirm_days",
                hist.get_copy("confirm_days"),
            ).with(
                "days_covered",
                hist.get_copy("days_covered"),
            ).with(
                "inputs",
                Json::text(
                    "BTC vs its 100d and 200d SMA, plus how many coins sit above their own 30d SMA. Trend filter only: no valuation, flows, on-chain, funding or sentiment.",
                ),
            )
        },
        Err(e) => Json::obj().with("error", Json::text(text::head(e.as_str(), 200).as_str())),
    }
}

/// The lines of a text, at every character that ends one.
pub open spec fn splitlines_spec(s: Seq<char>) -> Seq<Seq<char>> {
    text::lines(s)
}

/// The lines of a text, at every character that ends one.
pub fn splitlines(s: &str) -> (r: Vec<String>)
    ensures
        r.deep_view() == splitlines_spec(s@),
{
    list::lines(s)
}

/// Where the last 256 KiB of a log begin.
pub open spec fn tail_start_spec(size_of_log: usize) -> usize {
    if size_of_log > 262144 {
        (size_of_log - 262144) as usize
    } else {
        0
    }
}

/// Where the last 256 KiB of a log begin.
pub fn tail_start(size_of_log: usize) -> (r: usize)
    ensures
        r == tail_start_spec(size_of_log),
{
    if size_of_log > 262144 {
        return (size_of_log - 262144);
    }
    0
}

/// Of the first `n` lines.
pub open spec fn add_record_spec(xs: Seq<Seq<char>>, out: Seq<Doc>, n: nat) -> Seq<Doc> {
    out + list::gathered(
        xs,
        |l: Seq<char>| match pyfmt::object_in(text::trim(l)) {
            Some(d) => Some(d),
            None => None,
        },
        n,
    )
}

fn add_record(xs: &Vec<String>, out: Vec<Json>) -> (r: Vec<Json>)
    ensures
        r.deep_view() == add_record_spec(xs.deep_view(), out.deep_view(), xs@.len()),
{
    let ghost out0 = out.deep_view();
    let mut out = out;
    let mut i: usize = 0;
    while i < xs.len()
        invariant
            i <= xs@.len(),
            out.deep_view() == add_record_spec(xs.deep_view(), out0, i as nat),
        decreases xs@.len() - i,
    {
        let l = xs[i].as_str();
        match pyfmt::read_object(text::trimmed(l).as_str()) {
            Some(d) => {
                list::push(&mut out, d);
            },
            None => {},
        }
        assert(out.deep_view() =~= add_record_spec(xs.deep_view(), out0, (i + 1) as nat));
        i = i + 1;
    }
    out
}

/// The records of a log, oldest first: the lines that are JSON objects.
pub open spec fn records_spec(text_of_log: Seq<char>) -> Seq<Doc> {
    add_record_spec(
        splitlines_spec(text_of_log),
        Seq::<Doc>::empty(),
        splitlines_spec(text_of_log).len(),
    )
}

fn records(text_of_log: &str) -> (r: Vec<Json>)
    ensures
        r.deep_view() == records_spec(text_of_log@),
{
    let mut out: Vec<Json> = list::none();
    out = add_record(&splitlines(text_of_log), out);
    out
}

/// The last `n` records of the decision log, oldest first. A line that is no record does not
/// count.
pub open spec fn tail_spec(text_of_log: Seq<char>, n: usize) -> Seq<Doc> {
    list::ending(records_spec(text_of_log), n)
}

/// The last `n` records of the decision log, oldest first. A line that is no record does not
/// count.
pub fn tail(text_of_log: &str, n: usize) -> (r: Vec<Json>)
    ensures
        r.deep_view() == tail_spec(text_of_log@, n),
{
    list::tail(&records(text_of_log), n)
}

/// When a record was made.
pub open spec fn ts_of_spec(r: Doc) -> Result<Double, Seq<char>> {
    match r.get("ts"@) {
        Some(v) => dashboard::py_float_spec(v),
        None => Ok(Double::zero_spec()),
    }
}

fn ts_of(r: &Json) -> (out: Result<Double, String>)
    ensures
        list::outcome(out) == ts_of_spec(r@),
{
    match r.get("ts") {
        Some(v) => dashboard::py_float(v),
        None => Ok(Double::zero()),
    }
}

/// Whether a record is of a run.
pub open spec fn is_run_spec(r: Doc) -> bool {
    r.get_or_null("kind"@) == Doc::Str("run"@)
}

fn is_run(r: &Json) -> (out: bool)
    ensures
        out == is_run_spec(r@),
{
    r.get_copy("kind").is_text("run")
}

/// Among the first `n` of them.
pub open spec fn find_entry_spec(
    sym: Seq<char>,
    xs: Seq<(Seq<char>, Doc)>,
    out: bool,
    n: nat,
) -> bool
    decreases n,
{
    if n == 0 {
        out
    } else {
        let out = find_entry_spec(sym, xs, out, (n - 1) as nat);
        let it = xs[n - 1];
        let k = it.0;
        if k == sym {
            true
        } else {
            out
        }
    }
}

fn find_entry(sym: &str, xs: &Vec<(String, Json)>, out: bool) -> (r: bool)
    ensures
        r == find_entry_spec(sym@, xs.deep_view(), out, xs@.len()),
{
    let ghost out0 = out;
    let mut out = out;
    let mut i: usize = 0;
    while i < xs.len()
        invariant
            i <= xs@.len(),
            out == find_entry_spec(sym@, xs.deep_view(), out0, i as nat),
        decreases xs@.len() - i,
    {
        let it = &xs[i];
        let k = it.0.as_str();
        if text::same(k, sym) {
            out = true;
        }
        i = i + 1;
    }
    out
}

/// Whether a coin is listed.
pub open spec fn has_entry_spec(l: Seq<(Seq<char>, Doc)>, sym: Seq<char>) -> bool {
    find_entry_spec(sym, l, false, l.len())
}

fn has_entry(l: &Vec<(String, Json)>, sym: &str) -> (r: bool)
    ensures
        r == has_entry_spec(l.deep_view(), sym@),
{
    let mut out = false;
    out = find_entry(sym, l, out);
    out
}

/// Among the first `n` of them.
pub open spec fn find_newest_spec(
    sym: Seq<char>,
    xs: Seq<(Seq<char>, Doc)>,
    out: Option<Doc>,
    n: nat,
) -> Option<Doc> {
    match out {
        Some(v) => Some(v),
        None => list::first_given(
            xs,
            |it: (Seq<char>, Doc)| {
                let k = it.0;
                let v = it.1;
                if k == sym {
                    Some(v)
                } else {
                    None
                }
            },
            n,
        ),
    }
}

fn find_newest(sym: &str, xs: &Vec<(String, Json)>, out: Option<Json>) -> (r: Option<Json>)
    ensures
        r.deep_view() == find_newest_spec(sym@, xs.deep_view(), out.deep_view(), xs@.len()),
{
    let ghost out0 = out.deep_view();
    let mut out = out;
    let mut i: usize = 0;
    while i < xs.len()
        invariant
            i <= xs@.len(),
            out.deep_view() == find_newest_spec(sym@, xs.deep_view(), out0, i as nat),
        decreases xs@.len() - i,
    {
        let it = &xs[i];
        let k = it.0.as_str();
        let v = &it.1;
        if out.is_none() && text::same(k, sym) {
            out = Some(v.copy());
        }
        assert(xs.deep_view()[i as int] == xs@[i as int].deep_view());
        assert(out.deep_view() == find_newest_spec(sym@, xs.deep_view(), out0, (i + 1) as nat));
        i = i + 1;
    }
    out
}

/// The record listed for a coin.
pub open spec fn newest_of_spec(l: Seq<(Seq<char>, Doc)>, sym: Seq<char>) -> Option<Doc> {
    let out: Option<Doc> = None;
    find_newest_spec(sym, l, out, l.len())
}

fn newest_of(l: &Vec<(String, Json)>, sym: &str) -> (r: Option<Json>)
    ensures
        r.deep_view() == newest_of_spec(l.deep_view(), sym@),
{
    let mut out: Option<Json> = None;
    out = find_newest(sym, l, out);
    out
}

/// Whether a record is of a coin that has none yet, and of no run.
pub open spec fn counts_for_spec(r: Doc, sofar: Seq<(Seq<char>, Doc)>) -> bool {
    match r.get_or_null("sym"@).as_text() {
        Some(s) => s != ""@ && !is_run_spec(r) && !has_entry_spec(sofar, s),
        None => false,
    }
}

fn counts_for(r: &Json, sofar: &Vec<(String, Json)>) -> (out: bool)
    ensures
        out == counts_for_spec(r@, sofar.deep_view()),
{
    match r.get_copy("sym").as_str() {
        Some(s) => !text::same(s, "") && !is_run(r) && !has_entry(sofar, s),
        None => false,
    }
}

/// Of the last `n` records.
pub open spec fn add_last_spec(
    max_age_s: Double,
    now: Double,
    xs: Seq<Doc>,
    out: Seq<(Seq<char>, Doc)>,
    fault: Option<Seq<char>>,
    n: nat,
) -> (Seq<(Seq<char>, Doc)>, Option<Seq<char>>)
    decreases n,
{
    if n == 0 {
        (out, fault)
    } else {
        let (out, fault) = add_last_spec(max_age_s, now, xs, out, fault, (n - 1) as nat);
        let r = xs[n - 1];
        if fault is None && counts_for_spec(r, out) {
            match ts_of_spec(r) {
                Ok(ts) => {
                    let out = if !max_age_s.lt_spec(now.sub_spec(ts)) {
                        out.push((r.get_or_null("sym"@).py_str(), r))
                    } else {
                        out
                    };
                    (out, fault)
                },
                Err(e) => (out, Some(e)),
            }
        } else {
            (out, fault)
        }
    }
}

fn add_last(
    max_age_s: Double,
    now: Double,
    xs: &Vec<Json>,
    out: Vec<(String, Json)>,
    fault: Option<String>,
) -> (r: (Vec<(String, Json)>, Option<String>))
    ensures
        r.deep_view() == add_last_spec(
            max_age_s,
            now,
            xs.deep_view(),
            out.deep_view(),
            fault.deep_view(),
            xs@.len(),
        ),
{
    let ghost out0 = out.deep_view();
    let ghost fault0 = fault.deep_view();
    let mut out = out;
    let mut fault = fault;
    let mut i: usize = 0;
    while i < xs.len()
        invariant
            i <= xs@.len(),
            (out.deep_view(), fault.deep_view()) == add_last_spec(
                max_age_s,
                now,
                xs.deep_view(),
                out0,
                fault0,
                i as nat,
            ),
        decreases xs@.len() - i,
    {
        let r = &xs[i];
        if fault.is_none() && counts_for(r, &out) {
            match ts_of(r) {
                Ok(ts) => {
                    if !max_age_s.lt(now.minus(ts)) {
                        list::push(&mut out, (r.get_copy("sym").py_str(), r.copy()));
                    }
                },
                Err(e) => {
                    fault = Some(e);
                },
            }
        }
        i = i + 1;
    }
    (out, fault)
}

/// The newest record of each coin that is of no run and not older than some seconds, of records
/// that come oldest first.
pub open spec fn last_per_coin_spec(
    recs: Seq<Doc>,
    now: Double,
    max_age_s: Double,
) -> Result<Seq<(Seq<char>, Doc)>, Seq<char>> {
    let out = Seq::<(Seq<char>, Doc)>::empty();
    let fault: Option<Seq<char>> = None;
    let (out, fault) = add_last_spec(
        max_age_s,
        now,
        recs.reverse(),
        out,
        fault,
        recs.reverse().len(),
    );
    match fault {
        Some(e) => Err(e),
        None => Ok(out),
    }
}

/// The newest record of each coin that is of no run and not older than some seconds, of records
/// that come oldest first.
pub fn last_per_coin(
    recs: &Vec<Json>,
    now: Double,
    max_age_s: Double,
) -> (r: Result<Vec<(String, Json)>, String>)
    ensures
        list::outcome(r) == last_per_coin_spec(recs.deep_view(), now, max_age_s),
{
    let mut out: Vec<(String, Json)> = list::none();
    let mut fault: Option<String> = None;
    let (next_out, next_fault) = add_last(max_age_s, now, &list::reversed(recs), out, fault);
    out = next_out;
    fault = next_fault;
    match fault {
        Some(e) => Err(e),
        None => Ok(out),
    }
}

/// A count with one more.
pub open spec fn one_more_spec(c: Doc, kind: Seq<char>) -> i64 {
    let x = match c.get_or_null(kind).as_int() {
        Some(v) => v,
        None => 0,
    };
    if x < 9223372036854775807 {
        (x + 1) as i64
    } else {
        x
    }
}

fn one_more(c: &Json, kind: &str) -> (r: i64)
    ensures
        r == one_more_spec(c@, kind@),
{
    let x: i64 = match c.get_copy(kind).as_int() {
        Some(v) => v,
        None => 0,
    };
    if x < 9223372036854775807 {
        return (x + 1);
    }
    x
}

/// Of the first `n` records.
pub open spec fn add_count_spec(
    since: Double,
    xs: Seq<Doc>,
    c: Doc,
    fault: Option<Seq<char>>,
    n: nat,
) -> (Doc, Option<Seq<char>>)
    decreases n,
{
    if n == 0 {
        (c, fault)
    } else {
        let (c, fault) = add_count_spec(since, xs, c, fault, (n - 1) as nat);
        let r = xs[n - 1];
        if fault is None {
            match ts_of_spec(r) {
                Ok(ts) => {
                    let c = if since.le_spec(ts) && !is_run_spec(r) {
                        let k = dashboard::key_str_spec(r.get_or_null("kind"@));
                        c.set(k, Doc::Int(one_more_spec(c, k)))
                    } else {
                        c
                    };
                    (c, fault)
                },
                Err(e) => (c, Some(e)),
            }
        } else {
            (c, fault)
        }
    }
}

fn add_count(
    since: Double,
    xs: &Vec<Json>,
    c: Json,
    fault: Option<String>,
) -> (r: (Json, Option<String>))
    ensures
        r.deep_view() == add_count_spec(since, xs.deep_view(), c@, fault.deep_view(), xs@.len()),
{
    let ghost c0 = c@;
    let ghost fault0 = fault.deep_view();
    let mut c = c;
    let mut fault = fault;
    let mut i: usize = 0;
    while i < xs.len()
        invariant
            i <= xs@.len(),
            (c@, fault.deep_view()) == add_count_spec(since, xs.deep_view(), c0, fault0, i as nat),
        decreases xs@.len() - i,
    {
        let r = &xs[i];
        if fault.is_none() {
            match ts_of(r) {
                Ok(ts) => {
                    if since.le(ts) && !is_run(r) {
                        let k = dashboard::key_str(&r.get_copy("kind"));
                        c.set(k.as_str(), Json::Int(one_more(&c, k.as_str())));
                    }
                },
                Err(e) => {
                    fault = Some(e);
                },
            }
        }
        i = i + 1;
    }
    (c, fault)
}

/// How many records there are of each kind from a time on, those of runs left out, in the order they were first seen.
pub open spec fn counts_since_spec(recs: Seq<Doc>, since: Double) -> Result<Doc, Seq<char>> {
    let c = Doc::obj();
    let fault: Option<Seq<char>> = None;
    let (c, fault) = add_count_spec(since, recs, c, fault, recs.len());
    match fault {
        Some(e) => Err(e),
        None => Ok(c),
    }
}

/// How many records there are of each kind from a time on, those of runs left out, in the order they were first seen.
pub fn counts_since(recs: &Vec<Json>, since: Double) -> (r: Result<Json, String>)
    ensures
        list::outcome(r) == counts_since_spec(recs.deep_view(), since),
{
    let mut c = Json::obj();
    let mut fault: Option<String> = None;
    let (next_c, next_fault) = add_count(since, recs, c, fault);
    c = next_c;
    fault = next_fault;
    match fault {
        Some(e) => Err(e),
        None => Ok(c),
    }
}

/// The journal as it was read: nothing where there is no file, and an error where the file does not hold an object.
pub open spec fn read_journal_spec(
    path: Seq<char>,
    there: bool,
    got: Result<Doc, Seq<char>>,
) -> Result<Doc, Seq<char>> {
    if !there {
        Ok(Doc::obj())
    } else {
        match got {
            Ok(j) => if j is Obj {
                Ok(j)
            } else {
                Err(path + " holds "@ + pyfmt::kind_name_spec(j) + ", expected an object"@)
            },
            Err(e) => Err(
                path
                    + " exists but cannot be read ("@
                    + e
                    + "); refusing to run on an empty state"@,
            ),
        }
    }
}

/// The journal as it was read: nothing where there is no file, and an error where the file does not hold an object.
pub fn read_journal(
    path: &str,
    there: bool,
    got: &Result<Json, String>,
) -> (r: Result<Json, String>)
    ensures
        list::outcome(r) == read_journal_spec(path@, there, list::outcome(*got)),
{
    if !there {
        return Ok(Json::obj());
    }
    match got {
        Ok(j) => {
            if j.is_obj() {
                return Ok(j.copy());
            }
            let mut line = text::owned(path);
            line.push_str(" holds ");
            line.push_str(text::owned(pyfmt::kind_name(j)).as_str());
            line.push_str(", expected an object");
            Err(line)
        },
        Err(e) => {
            let mut line2 = text::owned(path);
            line2.push_str(" exists but cannot be read (");
            line2.push_str(e.as_str());
            line2.push_str("); refusing to run on an empty state");
            Err(line2)
        },
    }
}

/// Whether a holding could be sold.
#[derive(Debug)]
pub struct SellCheck {
    pub ok: bool,
    pub reason: String,
    pub qty: Double,
    pub min_base: Option<Double>,
    pub min_quote: Option<Double>,
    pub notional: Double,
}

/// What a [`SellCheck`] holds.
pub struct SellCheckView {
    pub ok: bool,
    pub reason: Seq<char>,
    pub qty: Double,
    pub min_base: Option<Double>,
    pub min_quote: Option<Double>,
    pub notional: Double,
}

impl DeepView for SellCheck {
    type V = SellCheckView;

    open spec fn deep_view(&self) -> SellCheckView {
        SellCheckView {
            ok: self.ok,
            reason: self.reason@,
            qty: self.qty,
            min_base: self.min_base,
            min_quote: self.min_quote,
            notional: self.notional,
        }
    }
}

/// A sell check as it is shown.
pub open spec fn sell_json_spec(c: SellCheckView) -> Doc {
    Doc::obj().with("ok"@, Doc::Bool(c.ok)).with("reason"@, Doc::Str(c.reason)).with(
        "qty"@,
        Doc::Float(c.qty),
    ).with(
        "min_base"@,
        json::float_or_null(c.min_base),
    ).with(
        "min_quote"@,
        json::float_or_null(c.min_quote),
    ).with(
        "notional"@,
        Doc::Float(c.notional),
    )
}

/// A sell check as it is shown.
pub fn sell_json(c: &SellCheck) -> (r: Json)
    ensures
        r@ == sell_json_spec(c.deep_view()),
{
    Json::obj().with("ok", Json::Bool(c.ok)).with("reason", Json::text(c.reason.as_str())).with(
        "qty",
        Json::Float(c.qty),
    ).with(
        "min_base",
        json::number_or_null(c.min_base),
    ).with(
        "min_quote",
        json::number_or_null(c.min_quote),
    ).with(
        "notional",
        Json::Float(c.notional),
    )
}

/// The onramp top-up card.
#[derive(Clone, Copy, Debug)]
pub struct Card {
    pub gate_stable: Double,
    pub gate_target: Double,
    pub gate_share_pct: Double,
    pub gate_gap: Double,
    pub revx_stable: Double,
    pub deposit_headroom: Double,
    pub reserved_on_revx: Double,
    pub revx_sendable: Double,
    pub in_flight: bool,
    pub due: bool,
    pub send_now: Double,
    pub revx_usdc_free: Double,
}

impl DeepView for Card {
    type V = Card;

    open spec fn deep_view(&self) -> Card {
        *self
    }
}

/// The card as it is shown.
pub open spec fn card_json_spec(c: Card) -> Doc {
    Doc::obj().with("gate_stable"@, Doc::Float(c.gate_stable)).with(
        "gate_target"@,
        Doc::Float(c.gate_target),
    ).with(
        "gate_share_pct"@,
        Doc::Float(c.gate_share_pct),
    ).with(
        "gate_gap"@,
        Doc::Float(c.gate_gap),
    ).with(
        "revx_stable"@,
        Doc::Float(c.revx_stable),
    ).with(
        "deposit_headroom"@,
        Doc::Float(c.deposit_headroom),
    ).with(
        "reserved_on_revx"@,
        Doc::Float(c.reserved_on_revx),
    ).with(
        "revx_sendable"@,
        Doc::Float(c.revx_sendable),
    ).with(
        "in_flight"@,
        Doc::Bool(c.in_flight),
    ).with(
        "due"@,
        Doc::Bool(c.due),
    ).with(
        "send_now"@,
        Doc::Float(c.send_now),
    ).with(
        "revx_usdc_free"@,
        Doc::Float(c.revx_usdc_free),
    )
}

/// The card as it is shown.
pub fn card_json(c: Card) -> (r: Json)
    ensures
        r@ == card_json_spec(c),
{
    Json::obj().with("gate_stable", Json::Float(c.gate_stable)).with(
        "gate_target",
        Json::Float(c.gate_target),
    ).with(
        "gate_share_pct",
        Json::Float(c.gate_share_pct),
    ).with(
        "gate_gap",
        Json::Float(c.gate_gap),
    ).with(
        "revx_stable",
        Json::Float(c.revx_stable),
    ).with(
        "deposit_headroom",
        Json::Float(c.deposit_headroom),
    ).with(
        "reserved_on_revx",
        Json::Float(c.reserved_on_revx),
    ).with(
        "revx_sendable",
        Json::Float(c.revx_sendable),
    ).with(
        "in_flight",
        Json::Bool(c.in_flight),
    ).with(
        "due",
        Json::Bool(c.due),
    ).with(
        "send_now",
        Json::Float(c.send_now),
    ).with(
        "revx_usdc_free",
        Json::Float(c.revx_usdc_free),
    )
}

/// What the snapshot reads of the run's configuration.
#[derive(Debug)]
pub struct SnapshotConfig {
    pub watchlist: Vec<String>,
    pub routing: Vec<Route>,
    /// The cost of coins bought before the bot.
    pub entries: Vec<(String, Double)>,
    pub target_pct: Double,
    pub first_pct: Double,
    pub deploy_alloc: Vec<(String, Double)>,
    pub trade_mode: String,
    pub live_trading_enabled: bool,
}

/// What a [`SnapshotConfig`] holds.
pub struct SnapshotConfigView {
    pub watchlist: Seq<Seq<char>>,
    pub routing: Seq<RouteView>,
    pub entries: Seq<(Seq<char>, Double)>,
    pub target_pct: Double,
    pub first_pct: Double,
    pub deploy_alloc: Seq<(Seq<char>, Double)>,
    pub trade_mode: Seq<char>,
    pub live_trading_enabled: bool,
}

impl DeepView for SnapshotConfig {
    type V = SnapshotConfigView;

    open spec fn deep_view(&self) -> SnapshotConfigView {
        SnapshotConfigView {
            watchlist: self.watchlist.deep_view(),
            routing: self.routing.deep_view(),
            entries: self.entries.deep_view(),
            target_pct: self.target_pct,
            first_pct: self.first_pct,
            deploy_alloc: self.deploy_alloc.deep_view(),
            trade_mode: self.trade_mode@,
            live_trading_enabled: self.live_trading_enabled,
        }
    }
}

/// A coin's price and how it moved in a day.
#[derive(Debug)]
pub struct Quoted {
    pub sym: String,
    pub price: Double,
    pub chg: Double,
}

/// What a [`Quoted`] holds.
pub struct QuotedView {
    pub sym: Seq<char>,
    pub price: Double,
    pub chg: Double,
}

impl DeepView for Quoted {
    type V = QuotedView;

    open spec fn deep_view(&self) -> QuotedView {
        QuotedView {
            sym: self.sym@,
            price: self.price,
            chg: self.chg,
        }
    }
}

impl Duplicate for Quoted {
    fn dup(&self) -> (r: Quoted) {
        Quoted {
            sym: text::owned(self.sym.as_str()),
            price: self.price,
            chg: self.chg,
        }
    }
}

/// What was read for a snapshot.
#[derive(Debug)]
pub struct Gathered {
    /// The ladder's state.
    pub state: Json,
    pub journal: Json,
    pub now: Double,
    /// Why the venue clients could not be built.
    pub no_clients: Option<String>,
    /// What Gate holds.
    pub gate: Result<Vec<(String, Balance)>, String>,
    pub prices: Result<Vec<Quoted>, String>,
    /// The Revolut X account.
    pub revx: Json,
    /// The journal's orders.
    pub orders: Result<Vec<Order>, String>,
    /// The last records of the decision log.
    pub recs: Vec<Json>,
    /// Whether there is a file of fills made outside the bot.
    pub has_manual: bool,
    /// What that file holds.
    pub manual: Result<Json, String>,
    pub halted: bool,
    pub last_run: Option<String>,
    pub deploy: Option<Json>,
    pub audit: Option<Json>,
    pub regime: Result<(Json, Json), String>,
    pub generated: String,
}

/// What a [`Gathered`] holds.
pub struct GatheredView {
    pub state: Doc,
    pub journal: Doc,
    pub now: Double,
    pub no_clients: Option<Seq<char>>,
    pub gate: Result<Seq<(Seq<char>, Balance)>, Seq<char>>,
    pub prices: Result<Seq<QuotedView>, Seq<char>>,
    pub revx: Doc,
    pub orders: Result<Seq<OrderView>, Seq<char>>,
    pub recs: Seq<Doc>,
    pub has_manual: bool,
    pub manual: Result<Doc, Seq<char>>,
    pub halted: bool,
    pub last_run: Option<Seq<char>>,
    pub deploy: Option<Doc>,
    pub audit: Option<Doc>,
    pub regime: Result<(Doc, Doc), Seq<char>>,
    pub generated: Seq<char>,
}

impl DeepView for Gathered {
    type V = GatheredView;

    open spec fn deep_view(&self) -> GatheredView {
        GatheredView {
            state: self.state@,
            journal: self.journal@,
            now: self.now,
            no_clients: self.no_clients.deep_view(),
            gate: list::outcome(self.gate),
            prices: list::outcome(self.prices),
            revx: self.revx@,
            orders: list::outcome(self.orders),
            recs: self.recs.deep_view(),
            has_manual: self.has_manual,
            manual: list::outcome(self.manual),
            halted: self.halted,
            last_run: self.last_run.deep_view(),
            deploy: self.deploy.deep_view(),
            audit: self.audit.deep_view(),
            regime: list::outcome(self.regime),
            generated: self.generated@,
        }
    }
}

/// Among the first `n` routes.
pub open spec fn find_route_spec(
    sym: Seq<char>,
    xs: Seq<RouteView>,
    out: Option<RouteView>,
    n: nat,
) -> Option<RouteView> {
    match out {
        Some(v) => Some(v),
        None => list::first_given(
            xs,
            |r: RouteView| if r.sym == sym {
                Some(r)
            } else {
                None
            },
            n,
        ),
    }
}

fn find_route(sym: &str, xs: &Vec<Route>, out: Option<Route>) -> (r: Option<Route>)
    ensures
        r.deep_view() == find_route_spec(sym@, xs.deep_view(), out.deep_view(), xs@.len()),
{
    let ghost out0 = out.deep_view();
    let mut out = out;
    let mut i: usize = 0;
    while i < xs.len()
        invariant
            i <= xs@.len(),
            out.deep_view() == find_route_spec(sym@, xs.deep_view(), out0, i as nat),
        decreases xs@.len() - i,
    {
        let r = &xs[i];
        if out.is_none() && text::same(r.sym.as_str(), sym) {
            out = Some(r.dup());
        }
        assert(xs.deep_view()[i as int] == xs@[i as int].deep_view());
        assert(out.deep_view() == find_route_spec(sym@, xs.deep_view(), out0, (i + 1) as nat));
        i = i + 1;
    }
    out
}

/// Where a coin trades.
pub open spec fn route_of_spec(routing: Seq<RouteView>, sym: Seq<char>) -> Option<RouteView> {
    let out: Option<RouteView> = None;
    find_route_spec(sym, routing, out, routing.len())
}

fn route_of(routing: &Vec<Route>, sym: &str) -> (r: Option<Route>)
    ensures
        r.deep_view() == route_of_spec(routing.deep_view(), sym@),
{
    let mut out: Option<Route> = None;
    out = find_route(sym, routing, out);
    out
}

/// The venue of a row: its own, else Revolut X for a deploy-zone id, else the venue the coin traded on
/// before the reroute, else today's.
pub open spec fn venue_of_spec(routing: Seq<RouteView>, d: DashConfigView, o: Doc) -> Doc {
    let v = o.get_or_null("venue"@);
    if v.truthy() {
        v
    } else if text::begins(
        match o.get_or_null("client_id"@).as_text() {
            Some(v) => v,
            None => ""@,
        },
        "depx"@,
    ) {
        Doc::Str("revx"@)
    } else {
        let name = o.get_or_null("sym"@);
        let sym = match name.as_text() {
            Some(v) => v,
            None => ""@,
        };
        let t = o.get_or_null("ts"@);
        let ts = if t.truthy() {
            match t.to_float() {
                Some(v) => v,
                None => Double::zero_spec(),
            }
        } else {
            Double::zero_spec()
        };
        if ts.lt_spec(d.legacy_before_ts) {
            match crate::dashboard::id_of_spec(d.legacy_venues, sym) {
                Some(x) => Doc::Str(x),
                None => Doc::Null,
            }
        } else {
            match route_of_spec(routing, sym) {
                Some(r) => Doc::Str(r.exch),
                None => Doc::Null,
            }
        }
    }
}

/// The venue of a row: its own, else Revolut X for a deploy-zone id, else the venue the coin traded on
/// before the reroute, else today's.
pub fn venue_of(routing: &Vec<Route>, d: &DashConfig, o: &Json) -> (r: Json)
    ensures
        r@ == venue_of_spec(routing.deep_view(), d.deep_view(), o@),
{
    let v = o.get_copy("venue");
    if v.truthy() {
        return v;
    }
    if text::begins_with(
        match o.get_copy("client_id").as_str() {
            Some(v) => v,
            None => "",
        },
        "depx",
    ) {
        return Json::text("revx");
    }
    let name = o.get_copy("sym");
    let sym = match name.as_str() {
        Some(v) => v,
        None => "",
    };
    let t = o.get_copy("ts");
    let ts = if t.truthy() {
        match t.to_float() {
            Some(v) => v,
            None => Double::zero(),
        }
    } else {
        Double::zero()
    };
    if ts.lt(d.legacy_before_ts) {
        match crate::dashboard::id_of(&d.legacy_venues, sym) {
            Some(x) => {
                return Json::text(x.as_str());
            },
            None => {
                return Json::Null;
            },
        }
    }
    match route_of(routing, sym) {
        Some(r) => Json::text(r.exch.as_str()),
        None => Json::Null,
    }
}

/// The value under one key where it counts, otherwise the one under another.
pub open spec fn or2_spec(o: Doc, a: Seq<char>, b: Seq<char>) -> Doc {
    let v = o.get_or_null(a);
    if v.truthy() {
        v
    } else {
        o.get_or_null(b)
    }
}

/// The value under one key where it counts, otherwise the one under another.
pub fn or2(o: &Json, a: &str, b: &str) -> (r: Json)
    ensures
        r@ == or2_spec(o@, a@, b@),
{
    let v = o.get_copy(a);
    if v.truthy() {
        return v;
    }
    o.get_copy(b)
}

/// When an order was filled, else when it was made.
pub open spec fn ord_ts_spec(o: Doc) -> Doc {
    let f = o.get_or_null("filled_ts"@);
    if f.truthy() {
        f
    } else {
        let t = o.get_or_null("ts"@);
        if t.truthy() {
            t
        } else {
            Doc::Int(0)
        }
    }
}

/// When an order was filled, else when it was made.
pub fn ord_ts(o: &Json) -> (r: Json)
    ensures
        r@ == ord_ts_spec(o@),
{
    let f = o.get_copy("filled_ts");
    if f.truthy() {
        return f;
    }
    let t = o.get_copy("ts");
    if t.truthy() {
        return t;
    }
    Json::Int(0)
}

/// What a time sorts by.
pub open spec fn sort_key_spec(v: Doc) -> Double {
    match v.to_float() {
        Some(v) => v,
        None => Double::zero_spec(),
    }
}

fn sort_key(v: &Json) -> (r: Double)
    ensures
        r == sort_key_spec(v@),
{
    match v.to_float() {
        Some(v) => v,
        None => Double::zero(),
    }
}

/// Whether an order still rests.
pub open spec fn is_open_spec(o: Doc) -> bool {
    match o.get_or_null("status"@).as_text() {
        Some(s) => s == "pending"@
            || s == "placed"@
            || s == "open"@
            || s == "new"@
            || s == "NEW"@
            || s == "PARTIALLY_FILLED"@,
        None => false,
    }
}

/// Whether an order still rests.
pub fn is_open(o: &Json) -> (r: bool)
    ensures
        r == is_open_spec(o@),
{
    match o.get_copy("status").as_str() {
        Some(s) => text::same(s, "pending")
            || text::same(s, "placed")
            || text::same(s, "open")
            || text::same(s, "new")
            || text::same(s, "NEW")
            || text::same(s, "PARTIALLY_FILLED"),
        None => false,
    }
}

/// Why the Revolut X account could not be read.
pub open spec fn revx_error_spec(g: GatheredView) -> Option<Doc> {
    let e = g.revx.get_or_null("error"@);
    if e.truthy() {
        Some(e)
    } else {
        None
    }
}

fn revx_error(g: &Gathered) -> (r: Option<Json>)
    ensures
        r.deep_view() == revx_error_spec(g.deep_view()),
{
    let e = g.revx.get_copy("error");
    if e.truthy() {
        return Some(e);
    }
    None
}

/// That the account is an old reading.
pub open spec fn stale_error_spec(g: GatheredView) -> Option<Seq<char>> {
    match g.revx.get_or_null("stale_s"@).as_int() {
        Some(s) => if s == 0 {
            None
        } else {
            Some(
                "revx: rate-limited, serving "@
                    + text::dec_int(((s as int / 60) as i64) as int)
                    + "m-old cache"@,
            )
        },
        None => None,
    }
}

fn stale_error(g: &Gathered) -> (r: Option<String>)
    ensures
        r.deep_view() == stale_error_spec(g.deep_view()),
{
    let s: i64 = match g.revx.get_copy("stale_s").as_int() {
        Some(v) => v,
        None => {
            return None;
        },
    };
    if s == 0 {
        return None;
    }
    let mut line = text::owned("revx: rate-limited, serving ");
    line.push_str(text::dec_i64(minutes(s)).as_str());
    line.push_str("m-old cache");
    Some(line)
}

/// What could not be read of the venues.
pub open spec fn read_errors_spec(g: GatheredView) -> Seq<Seq<char>> {
    let out = Seq::<Seq<char>>::empty();
    let out = match g.no_clients {
        Some(e) => out.push("balances: "@ + e),
        None => match g.gate {
            Err(e) => out.push("balances: "@ + e),
            Ok(b) => out,
        },
    };
    let out = match g.prices {
        Err(e) => out.push("prices: "@ + e),
        Ok(p) => out,
    };
    match revx_error_spec(g) {
        Some(e) => out.push("revx: "@ + e.py_str()),
        None => match stale_error_spec(g) {
            Some(s) => out.push(s),
            None => out,
        },
    }
}

/// What could not be read of the venues.
pub fn read_errors(g: &Gathered) -> (r: Vec<String>)
    ensures
        r.deep_view() == read_errors_spec(g.deep_view()),
{
    let mut out: Vec<String> = list::none();
    match &g.no_clients {
        Some(e) => {
            let mut line = text::owned("balances: ");
            line.push_str(e.as_str());
            list::push(&mut out, line);
        },
        None => {
            match &g.gate {
                Err(e) => {
                    let mut line2 = text::owned("balances: ");
                    line2.push_str(e.as_str());
                    list::push(&mut out, line2);
                },
                Ok(b) => {},
            }
        },
    }
    match &g.prices {
        Err(e) => {
            let mut line3 = text::owned("prices: ");
            line3.push_str(e.as_str());
            list::push(&mut out, line3);
        },
        Ok(p) => {},
    }
    match revx_error(g) {
        Some(e) => {
            let mut line4 = text::owned("revx: ");
            line4.push_str(e.py_str().as_str());
            list::push(&mut out, line4);
        },
        None => {
            match stale_error(g) {
                Some(s) => {
                    list::push(&mut out, s);
                },
                None => {},
            }
        },
    }
    out
}

/// Among the first `n` of them.
pub open spec fn find_balance_spec(
    sym: Seq<char>,
    xs: Seq<(Seq<char>, Balance)>,
    out: Balance,
    found: bool,
    n: nat,
) -> (Balance, bool)
    decreases n,
{
    if n == 0 {
        (out, found)
    } else {
        let (out, found) = find_balance_spec(sym, xs, out, found, (n - 1) as nat);
        let it = xs[n - 1];
        let k = it.0;
        let b = it.1;
        if !found && k == sym {
            (b, true)
        } else {
            (out, found)
        }
    }
}

fn find_balance(
    sym: &str,
    xs: &Vec<(String, Balance)>,
    out: Balance,
    found: bool,
) -> (r: (Balance, bool))
    ensures
        r == find_balance_spec(sym@, xs.deep_view(), out, found, xs@.len()),
{
    let ghost out0 = out;
    let ghost found0 = found;
    let mut out = out;
    let mut found = found;
    let mut i: usize = 0;
    while i < xs.len()
        invariant
            i <= xs@.len(),
            (out, found) == find_balance_spec(sym@, xs.deep_view(), out0, found0, i as nat),
        decreases xs@.len() - i,
    {
        let it = &xs[i];
        let k = it.0.as_str();
        let b = it.1;
        if !found && text::same(k, sym) {
            out = b;
            found = true;
        }
        i = i + 1;
    }
    (out, found)
}

/// What is held of an asset.
pub open spec fn find_balance_in_spec(l: Seq<(Seq<char>, Balance)>, sym: Seq<char>) -> Balance {
    let out = Balance { free: Double::zero_spec(), locked: Double::zero_spec() };
    let found = false;
    let (out, found) = find_balance_spec(sym, l, out, found, l.len());
    out
}

fn find_balance_in(l: &Vec<(String, Balance)>, sym: &str) -> (r: Balance)
    ensures
        r == find_balance_in_spec(l.deep_view(), sym@),
{
    let mut out = Balance { free: Double::zero(), locked: Double::zero() };
    let mut found = false;
    let (next_out, next_found) = find_balance(sym, l, out, found);
    out = next_out;
    found = next_found;
    out
}

/// What Gate holds of an asset.
pub open spec fn gate_balance_spec(g: GatheredView, sym: Seq<char>) -> Balance {
    match g.no_clients {
        Some(e) => Balance { free: Double::zero_spec(), locked: Double::zero_spec() },
        None => match g.gate {
            Ok(l) => find_balance_in_spec(l, sym),
            Err(e) => Balance { free: Double::zero_spec(), locked: Double::zero_spec() },
        },
    }
}

fn gate_balance(g: &Gathered, sym: &str) -> (r: Balance)
    ensures
        r == gate_balance_spec(g.deep_view(), sym@),
{
    match &g.no_clients {
        Some(e) => Balance { free: Double::zero(), locked: Double::zero() },
        None => match &g.gate {
            Ok(l) => find_balance_in(l, sym),
            Err(e) => Balance { free: Double::zero(), locked: Double::zero() },
        },
    }
}

/// A part of what Revolut X holds of a currency, nothing where the account could not be read.
pub open spec fn rx_spec(
    g: GatheredView,
    cur: Seq<char>,
    key: Seq<char>,
) -> Result<Double, Seq<char>> {
    match revx_error_spec(g) {
        Some(e) => Ok(Double::zero_spec()),
        None => dashboard::float_or0_spec(g.revx.get_or_null("balances"@).get_or_null(cur), key),
    }
}

fn rx(g: &Gathered, cur: &str, key: &str) -> (r: Result<Double, String>)
    ensures
        list::outcome(r) == rx_spec(g.deep_view(), cur@, key@),
{
    match revx_error(g) {
        Some(e) => Ok(Double::zero()),
        None => dashboard::float_or0(&g.revx.get_copy("balances").get_copy(cur), key),
    }
}

/// Among the first `n` orders.
pub open spec fn find_resting_spec(sym: Seq<char>, xs: Seq<Doc>, out: bool, n: nat) -> bool {
    out || list::some(xs, |o: Doc| o.get_or_null("sym"@) == Doc::Str(sym), n)
}

fn find_resting(sym: &str, xs: &Vec<Json>, out: bool) -> (r: bool)
    ensures
        r == find_resting_spec(sym@, xs.deep_view(), out, xs@.len()),
{
    let ghost out0 = out;
    let mut out = out;
    let mut i: usize = 0;
    while i < xs.len()
        invariant
            i <= xs@.len(),
            out == find_resting_spec(sym@, xs.deep_view(), out0, i as nat),
        decreases xs@.len() - i,
    {
        let o = &xs[i];
        if o.get_copy("sym").is_text(sym) {
            out = true;
        }
        assert(xs.deep_view()[i as int] == xs@[i as int].deep_view());
        assert(out == find_resting_spec(sym@, xs.deep_view(), out0, (i + 1) as nat));
        i = i + 1;
    }
    out
}

/// Whether orders of a coin rest on Revolut X.
pub open spec fn rx_quotes_spec(g: GatheredView, sym: Seq<char>) -> bool {
    let out = false;
    if revx_error_spec(g) is None {
        find_resting_spec(
            sym,
            g.revx.get_or_null("orders"@).items(),
            out,
            g.revx.get_or_null("orders"@).items().len(),
        )
    } else {
        out
    }
}

fn rx_quotes(g: &Gathered, sym: &str) -> (r: bool)
    ensures
        r == rx_quotes_spec(g.deep_view(), sym@),
{
    let mut out = false;
    if revx_error(g).is_none() {
        out = find_resting(sym, &json::items(&g.revx.get_copy("orders")), out);
    }
    out
}

/// Among the first `n` of them.
pub open spec fn find_quoted_spec(
    sym: Seq<char>,
    xs: Seq<QuotedView>,
    out: Option<QuotedView>,
    n: nat,
) -> Option<QuotedView> {
    match out {
        Some(v) => Some(v),
        None => list::first_given(
            xs,
            |x: QuotedView| if x.sym == sym {
                Some(x)
            } else {
                None
            },
            n,
        ),
    }
}

fn find_quoted(sym: &str, xs: &Vec<Quoted>, out: Option<Quoted>) -> (r: Option<Quoted>)
    ensures
        r.deep_view() == find_quoted_spec(sym@, xs.deep_view(), out.deep_view(), xs@.len()),
{
    let ghost out0 = out.deep_view();
    let mut out = out;
    let mut i: usize = 0;
    while i < xs.len()
        invariant
            i <= xs@.len(),
            out.deep_view() == find_quoted_spec(sym@, xs.deep_view(), out0, i as nat),
        decreases xs@.len() - i,
    {
        let x = &xs[i];
        if out.is_none() && text::same(x.sym.as_str(), sym) {
            out = Some(x.dup());
        }
        assert(xs.deep_view()[i as int] == xs@[i as int].deep_view());
        assert(out.deep_view() == find_quoted_spec(sym@, xs.deep_view(), out0, (i + 1) as nat));
        i = i + 1;
    }
    out
}

/// A coin's price.
pub open spec fn find_quote_spec(l: Seq<QuotedView>, sym: Seq<char>) -> Option<QuotedView> {
    let out: Option<QuotedView> = None;
    find_quoted_spec(sym, l, out, l.len())
}

fn find_quote(l: &Vec<Quoted>, sym: &str) -> (r: Option<Quoted>)
    ensures
        r.deep_view() == find_quote_spec(l.deep_view(), sym@),
{
    let mut out: Option<Quoted> = None;
    out = find_quoted(sym, l, out);
    out
}

/// A coin's price, where the prices could be read.
pub open spec fn quote_of_coin_spec(g: GatheredView, sym: Seq<char>) -> Option<QuotedView> {
    match g.prices {
        Ok(l) => find_quote_spec(l, sym),
        Err(e) => None,
    }
}

fn quote_of_coin(g: &Gathered, sym: &str) -> (r: Option<Quoted>)
    ensures
        r.deep_view() == quote_of_coin_spec(g.deep_view(), sym@),
{
    match &g.prices {
        Ok(l) => find_quote(l, sym),
        Err(e) => None,
    }
}

/// The ladder's state of a coin.
pub open spec fn coin_state_spec(g: GatheredView, sym: Seq<char>) -> Doc {
    let s = g.state.get_or_null(sym);
    if s is Obj {
        s
    } else {
        Doc::obj()
    }
}

fn coin_state(g: &Gathered, sym: &str) -> (r: Json)
    ensures
        r@ == coin_state_spec(g.deep_view(), sym@),
{
    let s = g.state.get_copy(sym);
    if s.is_obj() {
        return s;
    }
    Json::obj()
}

/// Among the first `n` of them.
pub open spec fn find_cost_spec(
    sym: Seq<char>,
    xs: Seq<(Seq<char>, Double)>,
    out: Option<Double>,
    n: nat,
) -> Option<Double> {
    match out {
        Some(v) => Some(v),
        None => list::first_given(
            xs,
            |it: (Seq<char>, Double)| {
                let k = it.0;
                let v = it.1;
                if k == sym {
                    Some(v)
                } else {
                    None
                }
            },
            n,
        ),
    }
}

fn find_cost(sym: &str, xs: &Vec<(String, Double)>, out: Option<Double>) -> (r: Option<Double>)
    ensures
        r == find_cost_spec(sym@, xs.deep_view(), out, xs@.len()),
{
    let ghost out0 = out;
    let mut out = out;
    let mut i: usize = 0;
    while i < xs.len()
        invariant
            i <= xs@.len(),
            out == find_cost_spec(sym@, xs.deep_view(), out0, i as nat),
        decreases xs@.len() - i,
    {
        let it = &xs[i];
        let k = it.0.as_str();
        let v = it.1;
        if out.is_none() && text::same(k, sym) {
            out = Some(v);
        }
        assert(xs.deep_view()[i as int] == xs@[i as int].deep_view());
        assert(out == find_cost_spec(sym@, xs.deep_view(), out0, (i + 1) as nat));
        i = i + 1;
    }
    out
}

/// What a coin cost before the bot.
pub open spec fn entry_cost_spec(l: Seq<(Seq<char>, Double)>, sym: Seq<char>) -> Option<Double> {
    let out: Option<Double> = None;
    find_cost_spec(sym, l, out, l.len())
}

fn entry_cost(l: &Vec<(String, Double)>, sym: &str) -> (r: Option<Double>)
    ensures
        r == entry_cost_spec(l.deep_view(), sym@),
{
    let mut out: Option<Double> = None;
    out = find_cost(sym, l, out);
    out
}

/// What a coin cost: the ladder's cost basis, else the configured one.
pub open spec fn entry_of_spec(cfg: SnapshotConfigView, g: GatheredView, sym: Seq<char>) -> Doc {
    let c = coin_state_spec(g, sym).get_or_null("cost_basis"@);
    if c.truthy() {
        c
    } else {
        match entry_cost_spec(cfg.entries, sym) {
            Some(e) => Doc::Float(e),
            None => Doc::Null,
        }
    }
}

/// What a coin cost: the ladder's cost basis, else the configured one.
pub fn entry_of(cfg: &SnapshotConfig, g: &Gathered, sym: &str) -> (r: Json)
    ensures
        r@ == entry_of_spec(cfg.deep_view(), g.deep_view(), sym@),
{
    let c = coin_state(g, sym).get_copy("cost_basis");
    if c.truthy() {
        return c;
    }
    match entry_cost(&cfg.entries, sym) {
        Some(e) => Json::Float(e),
        None => Json::Null,
    }
}

/// A value that counts, as a number.
pub open spec fn counted_spec(e: Doc) -> Option<Double> {
    if e.truthy() {
        e.to_float()
    } else {
        None
    }
}

fn counted(e: &Json) -> (r: Option<Double>)
    ensures
        r == counted_spec(e@),
{
    if e.truthy() {
        return e.to_float();
    }
    None
}

/// A number that is not zero.
pub open spec fn nonzero_of_spec(x: Option<Double>) -> Option<Double> {
    match x {
        Some(v) => if !v.eq_spec(Double::zero_spec()) {
            Some(v)
        } else {
            None
        },
        None => None,
    }
}

fn nonzero_of(x: Option<Double>) -> (r: Option<Double>)
    ensures
        r == nonzero_of_spec(x),
{
    let v = match x {
        Some(v) => v,
        None => {
            return None;
        },
    };
    if !v.same(Double::zero()) {
        return Some(v);
    }
    None
}

/// What is held of a coin.
#[derive(Clone, Copy, Debug)]
pub struct Holding {
    pub gate: Double,
    pub revx: Double,
    pub held: Double,
}

impl DeepView for Holding {
    type V = Holding;

    open spec fn deep_view(&self) -> Holding {
        *self
    }
}

/// What is held of a coin on both venues.
pub open spec fn holding_of_spec(g: GatheredView, sym: Seq<char>) -> Result<Holding, Seq<char>> {
    match rx_spec(g, sym, "available"@) {
        Ok(revx) => {
            let gate = gate_balance_spec(g, sym).free;
            let both = Seq::<Double>::empty().push(gate).push(revx);
            Ok(Holding { gate, revx, held: crate::watch::pyfmt::sum_spec(both) })
        },
        Err(e) => Err(e),
    }
}

/// What is held of a coin on both venues.
pub fn holding_of(g: &Gathered, sym: &str) -> (r: Result<Holding, String>)
    ensures
        list::outcome(r) == holding_of_spec(g.deep_view(), sym@),
{
    let revx = match rx(g, sym, "available") {
        Ok(v) => v,
        Err(e) => {
            return Err(e);
        },
    };
    let gate = gate_balance(g, sym).free;
    let mut both: Vec<Double> = list::none();
    list::push(&mut both, gate);
    list::push(&mut both, revx);
    Ok(Holding { gate, revx, held: list::sum(&both) })
}

/// A sell check that a snapshot needs.
#[derive(Debug)]
pub struct SellQuery {
    pub sym: String,
    pub exch: String,
    pub pair: String,
    pub held: Double,
    pub price: Option<Double>,
}

/// What a [`SellQuery`] holds.
pub struct SellQueryView {
    pub sym: Seq<char>,
    pub exch: Seq<char>,
    pub pair: Seq<char>,
    pub held: Double,
    pub price: Option<Double>,
}

impl DeepView for SellQuery {
    type V = SellQueryView;

    open spec fn deep_view(&self) -> SellQueryView {
        SellQueryView {
            sym: self.sym@,
            exch: self.exch@,
            pair: self.pair@,
            held: self.held,
            price: self.price,
        }
    }
}

/// A coin's price.
pub open spec fn price_of_coin_spec(g: GatheredView, sym: Seq<char>) -> Option<Double> {
    match quote_of_coin_spec(g, sym) {
        Some(x) => Some(x.price),
        None => None,
    }
}

fn price_of_coin(g: &Gathered, sym: &str) -> (r: Option<Double>)
    ensures
        r == price_of_coin_spec(g.deep_view(), sym@),
{
    let x = match quote_of_coin(g, sym) {
        Some(v) => v,
        None => {
            return None;
        },
    };
    Some(x.price)
}

/// Whether there is a client for a venue.
pub open spec fn has_client_spec(g: GatheredView, exch: Seq<char>) -> bool {
    g.no_clients is None && (exch == "gate"@ || exch == "revx"@)
}

fn has_client(g: &Gathered, exch: &str) -> (r: bool)
    ensures
        r == has_client_spec(g.deep_view(), exch@),
{
    g.no_clients.is_none() && (text::same(exch, "gate") || text::same(exch, "revx"))
}

/// The sell check that a coin needs, where its venue has a client.
pub open spec fn sell_query_spec(
    cfg: SnapshotConfigView,
    g: GatheredView,
    sym: Seq<char>,
    held: Double,
) -> Option<SellQueryView> {
    match route_of_spec(cfg.routing, sym) {
        Some(r) => if !has_client_spec(g, r.exch) {
            None
        } else {
            Some(
                SellQueryView {
                    sym,
                    exch: r.exch,
                    pair: r.pair,
                    held,
                    price: price_of_coin_spec(g, sym),
                },
            )
        },
        None => None,
    }
}

/// The sell check that a coin needs, where its venue has a client.
pub fn sell_query(
    cfg: &SnapshotConfig,
    g: &Gathered,
    sym: &str,
    held: Double,
) -> (r: Option<SellQuery>)
    ensures
        r.deep_view() == sell_query_spec(cfg.deep_view(), g.deep_view(), sym@, held),
{
    let r = match route_of(&cfg.routing, sym) {
        Some(v) => v,
        None => {
            return None;
        },
    };
    if !has_client(g, r.exch.as_str()) {
        return None;
    }
    Some(
        SellQuery {
            sym: text::owned(sym),
            exch: text::owned(r.exch.as_str()),
            pair: text::owned(r.pair.as_str()),
            held,
            price: price_of_coin(g, sym),
        },
    )
}

/// Of the first `n` coins.
pub open spec fn add_query_spec(
    cfg: SnapshotConfigView,
    g: GatheredView,
    xs: Seq<Seq<char>>,
    out: Seq<SellQueryView>,
    fault: Option<Seq<char>>,
    n: nat,
) -> (Seq<SellQueryView>, Option<Seq<char>>)
    decreases n,
{
    if n == 0 {
        (out, fault)
    } else {
        let (out, fault) = add_query_spec(cfg, g, xs, out, fault, (n - 1) as nat);
        let s = xs[n - 1];
        if fault is None {
            match holding_of_spec(g, s) {
                Ok(h) => {
                    let out = match sell_query_spec(cfg, g, s, h.held) {
                        Some(x) => out.push(x),
                        None => out,
                    };
                    (out, fault)
                },
                Err(e) => (out, Some(e)),
            }
        } else {
            (out, fault)
        }
    }
}

fn add_query(
    cfg: &SnapshotConfig,
    g: &Gathered,
    xs: &Vec<String>,
    out: Vec<SellQuery>,
    fault: Option<String>,
) -> (r: (Vec<SellQuery>, Option<String>))
    ensures
        r.deep_view() == add_query_spec(
            cfg.deep_view(),
            g.deep_view(),
            xs.deep_view(),
            out.deep_view(),
            fault.deep_view(),
            xs@.len(),
        ),
{
    let ghost out0 = out.deep_view();
    let ghost fault0 = fault.deep_view();
    let mut out = out;
    let mut fault = fault;
    let mut i: usize = 0;
    while i < xs.len()
        invariant
            i <= xs@.len(),
            (out.deep_view(), fault.deep_view()) == add_query_spec(
                cfg.deep_view(),
                g.deep_view(),
                xs.deep_view(),
                out0,
                fault0,
                i as nat,
            ),
        decreases xs@.len() - i,
    {
        let s = xs[i].as_str();
        if fault.is_none() {
            match holding_of(g, s) {
                Ok(h) => {
                    match sell_query(cfg, g, s, h.held) {
                        Some(x) => {
                            list::push(&mut out, x);
                        },
                        None => {},
                    }
                },
                Err(e) => {
                    fault = Some(e);
                },
            }
        }
        i = i + 1;
    }
    (out, fault)
}

/// The sell checks that a snapshot needs.
pub open spec fn sell_queries_spec(
    cfg: SnapshotConfigView,
    g: GatheredView,
) -> Result<Seq<SellQueryView>, Seq<char>> {
    let out = Seq::<SellQueryView>::empty();
    let fault: Option<Seq<char>> = None;
    let (out, fault) = add_query_spec(cfg, g, cfg.watchlist, out, fault, cfg.watchlist.len());
    match fault {
        Some(e) => Err(e),
        None => Ok(out),
    }
}

/// The sell checks that a snapshot needs.
pub fn sell_queries(cfg: &SnapshotConfig, g: &Gathered) -> (r: Result<Vec<SellQuery>, String>)
    ensures
        list::outcome(r) == sell_queries_spec(cfg.deep_view(), g.deep_view()),
{
    let mut out: Vec<SellQuery> = list::none();
    let mut fault: Option<String> = None;
    let (next_out, next_fault) = add_query(cfg, g, &cfg.watchlist, out, fault);
    out = next_out;
    fault = next_fault;
    match fault {
        Some(e) => Err(e),
        None => Ok(out),
    }
}

/// Among the first `n` of them.
pub open spec fn find_checked_spec(
    sym: Seq<char>,
    xs: Seq<(Seq<char>, SellCheckView)>,
    out: Option<Doc>,
    n: nat,
) -> Option<Doc> {
    match out {
        Some(v) => Some(v),
        None => list::first_given(
            xs,
            |it: (Seq<char>, SellCheckView)| {
                let k = it.0;
                let c = it.1;
                if k == sym {
                    Some(sell_json_spec(c))
                } else {
                    None
                }
            },
            n,
        ),
    }
}

fn find_checked(sym: &str, xs: &Vec<(String, SellCheck)>, out: Option<Json>) -> (r: Option<Json>)
    ensures
        r.deep_view() == find_checked_spec(sym@, xs.deep_view(), out.deep_view(), xs@.len()),
{
    let ghost out0 = out.deep_view();
    let mut out = out;
    let mut i: usize = 0;
    while i < xs.len()
        invariant
            i <= xs@.len(),
            out.deep_view() == find_checked_spec(sym@, xs.deep_view(), out0, i as nat),
        decreases xs@.len() - i,
    {
        let it = &xs[i];
        let k = it.0.as_str();
        let c = &it.1;
        if out.is_none() && text::same(k, sym) {
            out = Some(sell_json(c));
        }
        assert(xs.deep_view()[i as int] == xs@[i as int].deep_view());
        assert(out.deep_view() == find_checked_spec(sym@, xs.deep_view(), out0, (i + 1) as nat));
        i = i + 1;
    }
    out
}

/// What a coin's sell check came to.
pub open spec fn find_check_spec(
    l: Seq<(Seq<char>, SellCheckView)>,
    sym: Seq<char>,
) -> Option<Doc> {
    let out: Option<Doc> = None;
    find_checked_spec(sym, l, out, l.len())
}

fn find_check(l: &Vec<(String, SellCheck)>, sym: &str) -> (r: Option<Json>)
    ensures
        r.deep_view() == find_check_spec(l.deep_view(), sym@),
{
    let mut out: Option<Json> = None;
    out = find_checked(sym, l, out);
    out
}

/// A sell check that could not be made.
pub open spec fn no_client_spec(exch: Option<Seq<char>>) -> Doc {
    Doc::obj().with("ok"@, Doc::Bool(false)).with(
        "reason"@,
        Doc::Str(
            "no "@
                + (match exch {
                    Some(v) => v,
                    None => "None"@,
                })
                + " client"@,
        ),
    )
}

fn no_client(exch: Option<&str>) -> (r: Json)
    ensures
        r@ == no_client_spec(exch.deep_view()),
{
    let mut line = text::owned("no ");
    line.push_str(
        match exch {
            Some(v) => v,
            None => "None",
        },
    );
    line.push_str(" client");
    Json::obj().with("ok", Json::Bool(false)).with("reason", Json::text(line.as_str()))
}

/// The venue a coin trades on.
pub open spec fn exch_of_spec(cfg: SnapshotConfigView, sym: Seq<char>) -> Option<Seq<char>> {
    match route_of_spec(cfg.routing, sym) {
        Some(r) => Some(r.exch),
        None => None,
    }
}

fn exch_of(cfg: &SnapshotConfig, sym: &str) -> (r: Option<String>)
    ensures
        r.deep_view() == exch_of_spec(cfg.deep_view(), sym@),
{
    let r = match route_of(&cfg.routing, sym) {
        Some(v) => v,
        None => {
            return None;
        },
    };
    Some(text::owned(r.exch.as_str()))
}

/// Whether a coin could be sold.
pub open spec fn sell_ready_spec(
    cfg: SnapshotConfigView,
    g: GatheredView,
    sym: Seq<char>,
    held: Double,
    checks: Seq<(Seq<char>, SellCheckView)>,
) -> Doc {
    match sell_query_spec(cfg, g, sym, held) {
        Some(x) => match find_check_spec(checks, sym) {
            Some(c) => c,
            None => no_client_spec(exch_of_spec(cfg, sym)),
        },
        None => no_client_spec(exch_of_spec(cfg, sym)),
    }
}

/// Whether a coin could be sold.
pub fn sell_ready(
    cfg: &SnapshotConfig,
    g: &Gathered,
    sym: &str,
    held: Double,
    checks: &Vec<(String, SellCheck)>,
) -> (r: Json)
    ensures
        r@ == sell_ready_spec(cfg.deep_view(), g.deep_view(), sym@, held, checks.deep_view()),
{
    match sell_query(cfg, g, sym, held) {
        Some(x) => match find_check(checks, sym) {
            Some(c) => c,
            None => no_client(list::text_ref(&exch_of(cfg, sym))),
        },
        None => no_client(list::text_ref(&exch_of(cfg, sym))),
    }
}

/// The venues of a coin: where it trades, then where some is held or quoted.
pub open spec fn venue_list_spec(
    g: GatheredView,
    exch: Option<Seq<char>>,
    sym: Seq<char>,
    h: Holding,
) -> Seq<Doc> {
    let out = Seq::<Doc>::empty();
    let out = match exch {
        Some(x) => out.push(Doc::Str(x)),
        None => out.push(Doc::Null),
    };
    let named = match exch {
        Some(v) => v,
        None => ""@,
    };
    let out = if named != "gate"@ && Double::zero_spec().lt_spec(h.gate) {
        out.push(Doc::Str("gate"@))
    } else {
        out
    };
    if named != "revx"@ && (Double::zero_spec().lt_spec(h.revx) || rx_quotes_spec(g, sym)) {
        out.push(Doc::Str("revx"@))
    } else {
        out
    }
}

fn venue_list(g: &Gathered, exch: Option<&str>, sym: &str, h: Holding) -> (r: Vec<Json>)
    ensures
        r.deep_view() == venue_list_spec(g.deep_view(), exch.deep_view(), sym@, h),
{
    let mut out: Vec<Json> = list::none();
    match exch {
        Some(x) => {
            list::push(&mut out, Json::text(x));
        },
        None => {
            list::push(&mut out, Json::Null);
        },
    }
    let named = match exch {
        Some(v) => v,
        None => "",
    };
    if !text::same(named, "gate") && Double::zero().lt(h.gate) {
        list::push(&mut out, Json::text("gate"));
    }
    if !text::same(named, "revx") && (Double::zero().lt(h.revx) || rx_quotes(g, sym)) {
        list::push(&mut out, Json::text("revx"));
    }
    out
}

/// How far a price is above a base, in percent.
pub open spec fn gain_pct_spec(price: Option<Double>, base: Option<Double>) -> Option<Double> {
    match price {
        Some(p) => match base {
            Some(b) => Some(
                p.div_spec(b).sub_spec(Double::int_spec(1)).mul_spec(Double::int_spec(100)),
            ),
            None => None,
        },
        None => None,
    }
}

fn gain_pct(price: Option<Double>, base: Option<Double>) -> (r: Option<Double>)
    ensures
        r == gain_pct_spec(price, base),
{
    let p = match price {
        Some(v) => v,
        None => {
            return None;
        },
    };
    let b = match base {
        Some(v) => v,
        None => {
            return None;
        },
    };
    Some(p.over(b).minus(Double::of_int(1)).times(Double::of_int(100)))
}

/// What a holding is worth.
pub open spec fn worth_of_spec(price: Option<Double>, held: Double) -> Double {
    match price {
        Some(p) => if !held.eq_spec(Double::zero_spec()) {
            held.mul_spec(p)
        } else {
            Double::zero_spec()
        },
        None => Double::zero_spec(),
    }
}

fn worth_of(price: Option<Double>, held: Double) -> (r: Double)
    ensures
        r == worth_of_spec(price, held),
{
    let p = match price {
        Some(v) => v,
        None => {
            return Double::zero();
        },
    };
    if !held.same(Double::zero()) {
        return held.times(p);
    }
    Double::zero()
}

/// What a holding has gained.
pub open spec fn gain_of_spec(
    price: Option<Double>,
    cost: Option<Double>,
    held: Double,
) -> Option<Double> {
    match price {
        Some(p) => match cost {
            Some(c) => if !held.eq_spec(Double::zero_spec()) {
                Some(held.mul_spec(p.sub_spec(c)))
            } else {
                None
            },
            None => None,
        },
        None => None,
    }
}

fn gain_of(price: Option<Double>, cost: Option<Double>, held: Double) -> (r: Option<Double>)
    ensures
        r == gain_of_spec(price, cost, held),
{
    let p = match price {
        Some(v) => v,
        None => {
            return None;
        },
    };
    let c = match cost {
        Some(v) => v,
        None => {
            return None;
        },
    };
    if !held.same(Double::zero()) {
        return Some(held.times(p.minus(c)));
    }
    None
}

/// The price at which a coin is sold.
pub open spec fn target_of_spec(cost: Option<Double>, pct: Double) -> Option<Double> {
    match cost {
        Some(c) => Some(
            c.mul_spec(Double::int_spec(1).add_spec(pct.div_spec(Double::int_spec(100)))),
        ),
        None => None,
    }
}

fn target_of(cost: Option<Double>, pct: Double) -> (r: Option<Double>)
    ensures
        r == target_of_spec(cost, pct),
{
    let c = match cost {
        Some(v) => v,
        None => {
            return None;
        },
    };
    Some(c.times(Double::of_int(1).plus(pct.over(Double::of_int(100)))))
}

/// How far a coin is from the first buy.
pub open spec fn plus_pct_spec(chg: Option<Double>, pct: Double) -> Option<Double> {
    match chg {
        Some(c) => Some(c.add_spec(pct)),
        None => None,
    }
}

fn plus_pct(chg: Option<Double>, pct: Double) -> (r: Option<Double>)
    ensures
        r == plus_pct_spec(chg, pct),
{
    let c = match chg {
        Some(v) => v,
        None => {
            return None;
        },
    };
    Some(c.plus(pct))
}

/// How a coin moved in a day.
pub open spec fn day_change_spec(g: GatheredView, sym: Seq<char>) -> Option<Double> {
    match quote_of_coin_spec(g, sym) {
        Some(x) => Some(x.chg),
        None => None,
    }
}

fn day_change(g: &Gathered, sym: &str) -> (r: Option<Double>)
    ensures
        r == day_change_spec(g.deep_view(), sym@),
{
    let x = match quote_of_coin(g, sym) {
        Some(v) => v,
        None => {
            return None;
        },
    };
    Some(x.chg)
}

/// The direction of the open window.
pub open spec fn window_dir_spec(st: Doc, now: Double) -> Doc {
    if now.lt_spec(
        match st.get_or_null("win_until"@).to_float() {
            Some(v) => v,
            None => Double::zero_spec(),
        },
    ) {
        match st.get("win_dir"@) {
            Some(v) => v,
            None => Doc::Str(""@),
        }
    } else {
        Doc::Str(""@)
    }
}

fn window_dir(st: &Json, now: Double) -> (r: Json)
    ensures
        r@ == window_dir_spec(st@, now),
{
    if now.lt(
        match st.get_copy("win_until").to_float() {
            Some(v) => v,
            None => Double::zero(),
        },
    ) {
        match st.get("win_dir") {
            Some(v) => {
                return v.copy();
            },
            None => {
                return Json::text("");
            },
        }
    }
    Json::text("")
}

/// A value of the ladder's state, zero where there is none.
pub open spec fn or_zero_spec(st: Doc, key: Seq<char>) -> Doc {
    match st.get(key) {
        Some(v) => v,
        None => Doc::Float(Double::zero_spec()),
    }
}

fn or_zero(st: &Json, key: &str) -> (r: Json)
    ensures
        r@ == or_zero_spec(st@, key@),
{
    match st.get(key) {
        Some(v) => v.copy(),
        None => Json::Float(Double::zero()),
    }
}

/// A part of a route.
pub open spec fn route_text_spec(r: Option<Seq<char>>) -> Doc {
    match r {
        Some(x) => Doc::Str(x),
        None => Doc::Null,
    }
}

fn route_text(r: Option<&str>) -> (out: Json)
    ensures
        out@ == route_text_spec(r.deep_view()),
{
    match r {
        Some(x) => Json::text(x),
        None => Json::Null,
    }
}

/// The pair a coin trades as.
pub open spec fn pair_of_spec(cfg: SnapshotConfigView, sym: Seq<char>) -> Option<Seq<char>> {
    match route_of_spec(cfg.routing, sym) {
        Some(r) => Some(r.pair),
        None => None,
    }
}

fn pair_of(cfg: &SnapshotConfig, sym: &str) -> (r: Option<String>)
    ensures
        r.deep_view() == pair_of_spec(cfg.deep_view(), sym@),
{
    let r = match route_of(&cfg.routing, sym) {
        Some(v) => v,
        None => {
            return None;
        },
    };
    Some(text::owned(r.pair.as_str()))
}

/// What a coin is paid with.
pub open spec fn quote_asset_spec(cfg: SnapshotConfigView, sym: Seq<char>) -> Option<Seq<char>> {
    match route_of_spec(cfg.routing, sym) {
        Some(r) => Some(r.quote),
        None => None,
    }
}

fn quote_asset(cfg: &SnapshotConfig, sym: &str) -> (r: Option<String>)
    ensures
        r.deep_view() == quote_asset_spec(cfg.deep_view(), sym@),
{
    let r = match route_of(&cfg.routing, sym) {
        Some(v) => v,
        None => {
            return None;
        },
    };
    Some(text::owned(r.quote.as_str()))
}

/// A coin of the snapshot: how far it is from its target, its row, and what it adds to the totals.
#[derive(Debug)]
pub struct Coin {
    pub sym: String,
    pub to_sell: Option<Double>,
    pub value: Double,
    pub gain: Option<Double>,
    pub row: Json,
}

/// What a [`Coin`] holds.
pub struct CoinView {
    pub sym: Seq<char>,
    pub to_sell: Option<Double>,
    pub value: Double,
    pub gain: Option<Double>,
    pub row: Doc,
}

impl DeepView for Coin {
    type V = CoinView;

    open spec fn deep_view(&self) -> CoinView {
        CoinView {
            sym: self.sym@,
            to_sell: self.to_sell,
            value: self.value,
            gain: self.gain,
            row: self.row@,
        }
    }
}

impl Duplicate for Coin {
    fn dup(&self) -> (r: Coin) {
        Coin {
            sym: text::owned(self.sym.as_str()),
            to_sell: self.to_sell,
            value: self.value,
            gain: self.gain,
            row: self.row.copy(),
        }
    }
}

/// A coin of the snapshot.
pub open spec fn coin_row_spec(
    cfg: SnapshotConfigView,
    g: GatheredView,
    sym: Seq<char>,
    checks: Seq<(Seq<char>, SellCheckView)>,
) -> Result<CoinView, Seq<char>> {
    match holding_of_spec(g, sym) {
        Ok(h) => {
            let st = coin_state_spec(g, sym);
            let price = price_of_coin_spec(g, sym);
            let chg = day_change_spec(g, sym);
            let entry = entry_of_spec(cfg, g, sym);
            let cost = counted_spec(entry);
            let value = worth_of_spec(nonzero_of_spec(price), h.held);
            let target = target_of_spec(cost, cfg.target_pct);
            let to_sell = gain_pct_spec(nonzero_of_spec(price), nonzero_of_spec(target));
            let exch = exch_of_spec(cfg, sym);
            let row = Doc::obj().with("sym"@, Doc::Str(sym)).with("exch"@, route_text_spec(exch)).with(
                "pair"@,
                route_text_spec(pair_of_spec(cfg, sym)),
            ).with(
                "quote"@,
                route_text_spec(quote_asset_spec(cfg, sym)),
            ).with(
                "venues"@,
                Doc::Arr(venue_list_spec(g, exch, sym, h)),
            ).with(
                "held"@,
                Doc::Float(h.held),
            ).with(
                "price"@,
                json::float_or_null(price),
            ).with(
                "chg24h"@,
                json::float_or_null(chg),
            ).with(
                "value"@,
                Doc::Float(value),
            ).with(
                "entry"@,
                entry,
            ).with(
                "pnl"@,
                json::float_or_null(gain_pct_spec(nonzero_of_spec(price), cost)),
            ).with(
                "sell_target"@,
                json::float_or_null(target),
            ).with(
                "to_sell_pct"@,
                json::float_or_null(to_sell),
            ).with(
                "to_buy_pct"@,
                json::float_or_null(plus_pct_spec(chg, cfg.first_pct)),
            ).with(
                "win_dir"@,
                window_dir_spec(st, g.now),
            ).with(
                "deployed_pct"@,
                or_zero_spec(st, "deployed_pct"@),
            ).with(
                "sold_pct"@,
                or_zero_spec(st, "sold_pct"@),
            ).with(
                "sell_ready"@,
                sell_ready_spec(cfg, g, sym, h.held, checks),
            );
            Ok(
                CoinView {
                    sym,
                    to_sell,
                    value,
                    gain: gain_of_spec(nonzero_of_spec(price), cost, h.held),
                    row,
                },
            )
        },
        Err(e) => Err(e),
    }
}

/// A coin of the snapshot.
pub fn coin_row(
    cfg: &SnapshotConfig,
    g: &Gathered,
    sym: &str,
    checks: &Vec<(String, SellCheck)>,
) -> (r: Result<Coin, String>)
    ensures
        list::outcome(r) == coin_row_spec(
            cfg.deep_view(),
            g.deep_view(),
            sym@,
            checks.deep_view(),
        ),
{
    let h = match holding_of(g, sym) {
        Ok(v) => v,
        Err(e) => {
            return Err(e);
        },
    };
    let st = coin_state(g, sym);
    let price = price_of_coin(g, sym);
    let chg = day_change(g, sym);
    let entry = entry_of(cfg, g, sym);
    let cost = counted(&entry);
    let value = worth_of(nonzero_of(price), h.held);
    let target = target_of(cost, cfg.target_pct);
    let to_sell = gain_pct(nonzero_of(price), nonzero_of(target));
    let exch = exch_of(cfg, sym);
    let row = Json::obj().with("sym", Json::text(sym)).with(
        "exch",
        route_text(list::text_ref(&exch)),
    ).with(
        "pair",
        route_text(list::text_ref(&pair_of(cfg, sym))),
    ).with(
        "quote",
        route_text(list::text_ref(&quote_asset(cfg, sym))),
    ).with(
        "venues",
        json::array(venue_list(g, list::text_ref(&exch), sym, h)),
    ).with(
        "held",
        Json::Float(h.held),
    ).with(
        "price",
        json::number_or_null(price),
    ).with(
        "chg24h",
        json::number_or_null(chg),
    ).with(
        "value",
        Json::Float(value),
    ).with(
        "entry",
        entry,
    ).with(
        "pnl",
        json::number_or_null(gain_pct(nonzero_of(price), cost)),
    ).with(
        "sell_target",
        json::number_or_null(target),
    ).with(
        "to_sell_pct",
        json::number_or_null(to_sell),
    ).with(
        "to_buy_pct",
        json::number_or_null(plus_pct(chg, cfg.first_pct)),
    ).with(
        "win_dir",
        window_dir(&st, g.now),
    ).with(
        "deployed_pct",
        or_zero(&st, "deployed_pct"),
    ).with(
        "sold_pct",
        or_zero(&st, "sold_pct"),
    ).with(
        "sell_ready",
        sell_ready(cfg, g, sym, h.held, checks),
    );
    Ok(
        Coin {
            sym: text::owned(sym),
            to_sell,
            value,
            gain: gain_of(nonzero_of(price), cost, h.held),
            row,
        },
    )
}

/// The first `n` of them.
pub open spec fn add_coin_spec(
    cfg: SnapshotConfigView,
    checks: Seq<(Seq<char>, SellCheckView)>,
    g: GatheredView,
    xs: Seq<Seq<char>>,
    out: Seq<CoinView>,
    fault: Option<Seq<char>>,
    n: nat,
) -> (Seq<CoinView>, Option<Seq<char>>)
    decreases n,
{
    if n == 0 {
        (out, fault)
    } else {
        let (out, fault) = add_coin_spec(cfg, checks, g, xs, out, fault, (n - 1) as nat);
        let s = xs[n - 1];
        if fault is None {
            match coin_row_spec(cfg, g, s, checks) {
                Ok(c) => (out.push(c), fault),
                Err(e) => (out, Some(e)),
            }
        } else {
            (out, fault)
        }
    }
}

fn add_coin(
    cfg: &SnapshotConfig,
    checks: &Vec<(String, SellCheck)>,
    g: &Gathered,
    xs: &Vec<String>,
    out: Vec<Coin>,
    fault: Option<String>,
) -> (r: (Vec<Coin>, Option<String>))
    ensures
        r.deep_view() == add_coin_spec(
            cfg.deep_view(),
            checks.deep_view(),
            g.deep_view(),
            xs.deep_view(),
            out.deep_view(),
            fault.deep_view(),
            xs@.len(),
        ),
{
    let ghost out0 = out.deep_view();
    let ghost fault0 = fault.deep_view();
    let mut out = out;
    let mut fault = fault;
    let mut i: usize = 0;
    while i < xs.len()
        invariant
            i <= xs@.len(),
            (out.deep_view(), fault.deep_view()) == add_coin_spec(
                cfg.deep_view(),
                checks.deep_view(),
                g.deep_view(),
                xs.deep_view(),
                out0,
                fault0,
                i as nat,
            ),
        decreases xs@.len() - i,
    {
        let s = xs[i].as_str();
        if fault.is_none() {
            match coin_row(cfg, g, s, checks) {
                Ok(c) => {
                    list::push(&mut out, c);
                },
                Err(e) => {
                    fault = Some(e);
                },
            }
        }
        i = i + 1;
    }
    (out, fault)
}

/// The coins of the watchlist.
pub open spec fn coin_rows_spec(
    cfg: SnapshotConfigView,
    g: GatheredView,
    checks: Seq<(Seq<char>, SellCheckView)>,
) -> Result<Seq<CoinView>, Seq<char>> {
    let out = Seq::<CoinView>::empty();
    let fault: Option<Seq<char>> = None;
    let (out, fault) = add_coin_spec(
        cfg,
        checks,
        g,
        cfg.watchlist,
        out,
        fault,
        cfg.watchlist.len(),
    );
    match fault {
        Some(e) => Err(e),
        None => Ok(out),
    }
}

/// The coins of the watchlist.
pub fn coin_rows(
    cfg: &SnapshotConfig,
    g: &Gathered,
    checks: &Vec<(String, SellCheck)>,
) -> (r: Result<Vec<Coin>, String>)
    ensures
        list::outcome(r) == coin_rows_spec(cfg.deep_view(), g.deep_view(), checks.deep_view()),
{
    let mut out: Vec<Coin> = list::none();
    let mut fault: Option<String> = None;
    let (next_out, next_fault) = add_coin(cfg, checks, g, &cfg.watchlist, out, fault);
    out = next_out;
    fault = next_fault;
    match fault {
        Some(e) => Err(e),
        None => Ok(out),
    }
}

/// The first `n` of them.
pub open spec fn add_value_spec(xs: Seq<CoinView>, out: Double, n: nat) -> Double
    decreases n,
{
    if n == 0 {
        out
    } else {
        let out = add_value_spec(xs, out, (n - 1) as nat);
        let c = xs[n - 1];
        out.add_spec(c.value)
    }
}

fn add_value(xs: &Vec<Coin>, out: Double) -> (r: Double)
    ensures
        r == add_value_spec(xs.deep_view(), out, xs@.len()),
{
    let ghost out0 = out;
    let mut out = out;
    let mut i: usize = 0;
    while i < xs.len()
        invariant
            i <= xs@.len(),
            out == add_value_spec(xs.deep_view(), out0, i as nat),
        decreases xs@.len() - i,
    {
        let c = &xs[i];
        out = out.plus(c.value);
        i = i + 1;
    }
    out
}

/// What the coins are worth.
pub open spec fn total_value_spec(coins: Seq<CoinView>) -> Double {
    add_value_spec(coins, Double::zero_spec(), coins.len())
}

fn total_value(coins: &Vec<Coin>) -> (r: Double)
    ensures
        r == total_value_spec(coins.deep_view()),
{
    let mut out = Double::zero();
    out = add_value(coins, out);
    out
}

/// The first `n` of them.
pub open spec fn add_gain_spec(xs: Seq<CoinView>, out: Double, n: nat) -> Double
    decreases n,
{
    if n == 0 {
        out
    } else {
        let out = add_gain_spec(xs, out, (n - 1) as nat);
        let c = xs[n - 1];
        match c.gain {
            Some(x) => out.add_spec(x),
            None => out,
        }
    }
}

fn add_gain(xs: &Vec<Coin>, out: Double) -> (r: Double)
    ensures
        r == add_gain_spec(xs.deep_view(), out, xs@.len()),
{
    let ghost out0 = out;
    let mut out = out;
    let mut i: usize = 0;
    while i < xs.len()
        invariant
            i <= xs@.len(),
            out == add_gain_spec(xs.deep_view(), out0, i as nat),
        decreases xs@.len() - i,
    {
        let c = &xs[i];
        match c.gain {
            Some(x) => {
                out = out.plus(x);
            },
            None => {},
        }
        i = i + 1;
    }
    out
}

/// What the coins have gained.
pub open spec fn unrealized_spec(coins: Seq<CoinView>) -> Double {
    add_gain_spec(coins, Double::zero_spec(), coins.len())
}

fn unrealized(coins: &Vec<Coin>) -> (r: Double)
    ensures
        r == unrealized_spec(coins.deep_view()),
{
    let mut out = Double::zero();
    out = add_gain(coins, out);
    out
}

/// The first `n` of them.
pub open spec fn add_keyed_spec(
    xs: Seq<CoinView>,
    keyed: Seq<(Double, (Seq<char>, Doc))>,
    n: nat,
) -> Seq<(Double, (Seq<char>, Doc))> {
    keyed + Seq::new(
        n,
        |i: int| {
            let c = xs[i];
            (
                match c.to_sell {
                    Some(v) => v,
                    None => Double::zero_spec().sub_spec(Double::int_spec(999)),
                },
                (c.sym, c.row),
            )
        },
    )
}

fn add_keyed(
    xs: &Vec<Coin>,
    keyed: Vec<(Double, (String, Json))>,
) -> (r: Vec<(Double, (String, Json))>)
    ensures
        r.deep_view() == add_keyed_spec(xs.deep_view(), keyed.deep_view(), xs@.len()),
{
    let ghost keyed0 = keyed.deep_view();
    let mut keyed = keyed;
    let mut i: usize = 0;
    while i < xs.len()
        invariant
            i <= xs@.len(),
            keyed.deep_view() == add_keyed_spec(xs.deep_view(), keyed0, i as nat),
        decreases xs@.len() - i,
    {
        let c = &xs[i];
        list::push(
            &mut keyed,
            (
                match c.to_sell {
                    Some(v) => v,
                    None => Double::zero().minus(Double::of_int(999)),
                },
                (text::owned(c.sym.as_str()), c.row.copy()),
            ),
        );
        assert(keyed.deep_view() =~= add_keyed_spec(xs.deep_view(), keyed0, (i + 1) as nat));
        i = i + 1;
    }
    keyed
}

/// The coins, the nearest to its target first.
pub open spec fn nearest_first_spec(coins: Seq<CoinView>) -> Seq<(Seq<char>, Doc)> {
    let keyed = add_keyed_spec(coins, Seq::<(Double, (Seq<char>, Doc))>::empty(), coins.len());
    by_price_spec(keyed)
}

/// The coins, the nearest to its target first.
pub fn nearest_first(coins: &Vec<Coin>) -> (r: Vec<(String, Json)>)
    ensures
        r.deep_view() == nearest_first_spec(coins.deep_view()),
{
    let mut keyed: Vec<(Double, (String, Json))> = list::none();
    keyed = add_keyed(coins, keyed);
    by_price(keyed)
}

/// Of the first `n` coins.
pub open spec fn add_check_spec(xs: Seq<(Seq<char>, Doc)>, out: Doc, n: nat) -> Doc
    decreases n,
{
    if n == 0 {
        out
    } else {
        let out = add_check_spec(xs, out, (n - 1) as nat);
        let it = xs[n - 1];
        let s = it.0;
        let c = it.1;
        out.set(s, c.get_or_null("sell_ready"@))
    }
}

fn add_check(xs: &Vec<(String, Json)>, out: Json) -> (r: Json)
    ensures
        r@ == add_check_spec(xs.deep_view(), out@, xs@.len()),
{
    let ghost out0 = out@;
    let mut out = out;
    let mut i: usize = 0;
    while i < xs.len()
        invariant
            i <= xs@.len(),
            out@ == add_check_spec(xs.deep_view(), out0, i as nat),
        decreases xs@.len() - i,
    {
        let it = &xs[i];
        let s = it.0.as_str();
        let c = &it.1;
        out.set(s, c.get_copy("sell_ready"));
        i = i + 1;
    }
    out
}

/// The sell checks by coin.
pub open spec fn checks_of_spec(coins: Seq<(Seq<char>, Doc)>) -> Doc {
    let out = Doc::obj();
    add_check_spec(coins, out, coins.len())
}

fn checks_of(coins: &Vec<(String, Json)>) -> (r: Json)
    ensures
        r@ == checks_of_spec(coins.deep_view()),
{
    let mut out = Json::obj();
    out = add_check(coins, out);
    out
}

/// Why a sell check failed.
pub open spec fn reason_text_spec(c: Doc) -> Seq<char> {
    match c.get("reason"@) {
        Some(r) => r.py_str(),
        None => "None"@,
    }
}

fn reason_text(c: &Json) -> (r: String)
    ensures
        r@ == reason_text_spec(c@),
{
    match c.get("reason") {
        Some(r) => r.py_str(),
        None => text::owned("None"),
    }
}

/// Of the first `n` checks.
pub open spec fn add_failed_check_spec(
    xs: Seq<(Seq<char>, Doc)>,
    out: Seq<Seq<char>>,
    n: nat,
) -> Seq<Seq<char>> {
    out + list::gathered(
        xs,
        |it: (Seq<char>, Doc)| {
            let s = it.0;
            let c = it.1;
            if !c.get_or_null("ok"@).truthy() {
                Some(s + " "@ + reason_text_spec(c))
            } else {
                None
            }
        },
        n,
    )
}

fn add_failed_check(xs: &Vec<(String, Json)>, out: Vec<String>) -> (r: Vec<String>)
    ensures
        r.deep_view() == add_failed_check_spec(xs.deep_view(), out.deep_view(), xs@.len()),
{
    let ghost out0 = out.deep_view();
    let mut out = out;
    let mut i: usize = 0;
    while i < xs.len()
        invariant
            i <= xs@.len(),
            out.deep_view() == add_failed_check_spec(xs.deep_view(), out0, i as nat),
        decreases xs@.len() - i,
    {
        let it = &xs[i];
        let s = it.0.as_str();
        let c = &it.1;
        if !c.get_copy("ok").truthy() {
            let mut line = text::owned(s);
            line.push_str(" ");
            line.push_str(reason_text(c).as_str());
            list::push(&mut out, line);
        }
        assert(out.deep_view() =~= add_failed_check_spec(xs.deep_view(), out0, (i + 1) as nat));
        i = i + 1;
    }
    out
}

/// The coins that could not be sold, and why.
pub open spec fn failed_checks_spec(checks: Seq<(Seq<char>, Doc)>) -> Seq<Seq<char>> {
    add_failed_check_spec(checks, Seq::<Seq<char>>::empty(), checks.len())
}

fn failed_checks(checks: &Vec<(String, Json)>) -> (r: Vec<String>)
    ensures
        r.deep_view() == failed_checks_spec(checks.deep_view()),
{
    let mut out: Vec<String> = list::none();
    out = add_failed_check(checks, out);
    out
}

/// Of the first `n` checks.
pub open spec fn add_passed_check_spec(
    xs: Seq<(Seq<char>, Doc)>,
    out: Seq<Seq<char>>,
    n: nat,
) -> Seq<Seq<char>> {
    out + list::gathered(
        xs,
        |it: (Seq<char>, Doc)| {
            let s = it.0;
            let c = it.1;
            if c.get_or_null("ok"@).truthy() {
                Some(s)
            } else {
                None
            }
        },
        n,
    )
}

fn add_passed_check(xs: &Vec<(String, Json)>, out: Vec<String>) -> (r: Vec<String>)
    ensures
        r.deep_view() == add_passed_check_spec(xs.deep_view(), out.deep_view(), xs@.len()),
{
    let ghost out0 = out.deep_view();
    let mut out = out;
    let mut i: usize = 0;
    while i < xs.len()
        invariant
            i <= xs@.len(),
            out.deep_view() == add_passed_check_spec(xs.deep_view(), out0, i as nat),
        decreases xs@.len() - i,
    {
        let it = &xs[i];
        let s = it.0.as_str();
        let c = &it.1;
        if c.get_copy("ok").truthy() {
            list::push(&mut out, text::owned(s));
        }
        assert(out.deep_view() =~= add_passed_check_spec(xs.deep_view(), out0, (i + 1) as nat));
        i = i + 1;
    }
    out
}

/// The coins that could be sold.
pub open spec fn passed_checks_spec(checks: Seq<(Seq<char>, Doc)>) -> Seq<Seq<char>> {
    add_passed_check_spec(checks, Seq::<Seq<char>>::empty(), checks.len())
}

fn passed_checks(checks: &Vec<(String, Json)>) -> (r: Vec<String>)
    ensures
        r.deep_view() == passed_checks_spec(checks.deep_view()),
{
    let mut out: Vec<String> = list::none();
    out = add_passed_check(checks, out);
    out
}

/// The log line of the sell checks.
pub open spec fn sell_check_line_spec(coins: Seq<(Seq<char>, Doc)>) -> Seq<char> {
    let checks = list::sorted_entries(checks_of_spec(coins).entries());
    let bad = failed_checks_spec(checks);
    let line = "SELL-CHECK "@
        + text::dec(((passed_checks_spec(checks).len() as usize)) as nat)
        + "/"@
        + text::dec(((checks.len() as usize)) as nat)
        + " sellable"@;
    if !(bad.len() == 0) {
        line + ("; "@ + text::join_of(bad, "; "@))
    } else {
        line
    }
}

/// The log line of the sell checks.
pub fn sell_check_line(coins: &Vec<(String, Json)>) -> (r: String)
    ensures
        r@ == sell_check_line_spec(coins.deep_view()),
{
    let checks = list::sort_entries(&json::entries(&checks_of(coins)));
    let bad = failed_checks(&checks);
    let mut line = text::owned("SELL-CHECK ");
    line.push_str(text::dec_u64(passed_checks(&checks).len() as u64).as_str());
    line.push_str("/");
    line.push_str(text::dec_u64(checks.len() as u64).as_str());
    line.push_str(" sellable");
    if !(bad.len() == 0) {
        let mut line2 = text::owned("; ");
        line2.push_str(list::join(&bad, "; ").as_str());
        line.push_str(line2.as_str());
    }
    line
}

/// The value under a key that has to be there.
pub open spec fn needed_value_spec(r: Doc, key: Seq<char>) -> Result<Doc, Seq<char>> {
    match r.get(key) {
        Some(v) => Ok(v),
        None => Err("'"@ + key + "'"@),
    }
}

fn needed_value(r: &Json, key: &str) -> (out: Result<Json, String>)
    ensures
        list::outcome(out) == needed_value_spec(r@, key@),
{
    match r.get(key) {
        Some(v) => Ok(v.copy()),
        None => {
            let mut line = text::owned("'");
            line.push_str(key);
            line.push_str("'");
            Err(line)
        },
    }
}

/// A decision as it is shown.
pub open spec fn decision_json_spec(r: Doc) -> Result<Doc, Seq<char>> {
    match needed_value_spec(r, "kind"@) {
        Ok(kind) => match needed_value_spec(r, "text"@) {
            Ok(what) => match needed_value_spec(r, "ts"@) {
                Ok(ts) => match needed_value_spec(r, "src"@) {
                    Ok(src) => Ok(
                        Doc::obj().with("kind"@, kind).with("text"@, what).with("ts"@, ts).with(
                            "src"@,
                            src,
                        ),
                    ),
                    Err(e) => Err(e),
                },
                Err(e) => Err(e),
            },
            Err(e) => Err(e),
        },
        Err(e) => Err(e),
    }
}

fn decision_json(r: &Json) -> (out: Result<Json, String>)
    ensures
        list::outcome(out) == decision_json_spec(r@),
{
    let kind = match needed_value(r, "kind") {
        Ok(v) => v,
        Err(e) => {
            return Err(e);
        },
    };
    let what = match needed_value(r, "text") {
        Ok(v) => v,
        Err(e) => {
            return Err(e);
        },
    };
    let ts = match needed_value(r, "ts") {
        Ok(v) => v,
        Err(e) => {
            return Err(e);
        },
    };
    let src = match needed_value(r, "src") {
        Ok(v) => v,
        Err(e) => {
            return Err(e);
        },
    };
    Ok(Json::obj().with("kind", kind).with("text", what).with("ts", ts).with("src", src))
}

/// The coins with their last decisions, the decisions block, and what went wrong.
#[derive(Debug)]
pub struct Decided {
    pub coins: Vec<(String, Json)>,
    pub block: Json,
    pub error: Option<String>,
}

/// What a [`Decided`] holds.
pub struct DecidedView {
    pub coins: Seq<(Seq<char>, Doc)>,
    pub block: Doc,
    pub error: Option<Seq<char>>,
}

impl DeepView for Decided {
    type V = DecidedView;

    open spec fn deep_view(&self) -> DecidedView {
        DecidedView {
            coins: self.coins.deep_view(),
            block: self.block@,
            error: self.error.deep_view(),
        }
    }
}

/// A coin's last decision as it is shown.
pub open spec fn shown_decision_spec(
    last: Seq<(Seq<char>, Doc)>,
    sym: Seq<char>,
) -> Result<Doc, Seq<char>> {
    match newest_of_spec(last, sym) {
        Some(r) => decision_json_spec(r),
        None => Ok(Doc::Null),
    }
}

fn shown_decision(last: &Vec<(String, Json)>, sym: &str) -> (r: Result<Json, String>)
    ensures
        list::outcome(r) == shown_decision_spec(last.deep_view(), sym@),
{
    match newest_of(last, sym) {
        Some(r) => decision_json(&r),
        None => Ok(Json::Null),
    }
}

/// The first `n` of them.
pub open spec fn add_decision_spec(
    last: Seq<(Seq<char>, Doc)>,
    xs: Seq<(Seq<char>, Doc)>,
    fault: Option<Seq<char>>,
    out: Seq<(Seq<char>, Doc)>,
    n: nat,
) -> (Option<Seq<char>>, Seq<(Seq<char>, Doc)>)
    decreases n,
{
    if n == 0 {
        (fault, out)
    } else {
        let (fault, out) = add_decision_spec(last, xs, fault, out, (n - 1) as nat);
        let it = xs[n - 1];
        let s = it.0;
        let c = it.1;
        let row = c;
        let (row, fault) = if fault is None {
            match shown_decision_spec(last, s) {
                Ok(r) => (row.set("decision"@, r), fault),
                Err(e) => (row, Some(e)),
            }
        } else {
            (row, fault)
        };
        (fault, out.push((s, row)))
    }
}

fn add_decision(
    last: &Vec<(String, Json)>,
    xs: &Vec<(String, Json)>,
    fault: Option<String>,
    out: Vec<(String, Json)>,
) -> (r: (Option<String>, Vec<(String, Json)>))
    ensures
        r.deep_view() == add_decision_spec(
            last.deep_view(),
            xs.deep_view(),
            fault.deep_view(),
            out.deep_view(),
            xs@.len(),
        ),
{
    let ghost fault0 = fault.deep_view();
    let ghost out0 = out.deep_view();
    let mut fault = fault;
    let mut out = out;
    let mut i: usize = 0;
    while i < xs.len()
        invariant
            i <= xs@.len(),
            (fault.deep_view(), out.deep_view()) == add_decision_spec(
                last.deep_view(),
                xs.deep_view(),
                fault0,
                out0,
                i as nat,
            ),
        decreases xs@.len() - i,
    {
        let it = &xs[i];
        let s = it.0.as_str();
        let c = &it.1;
        let mut row = c.dup();
        if fault.is_none() {
            match shown_decision(last, s) {
                Ok(r) => {
                    row.set("decision", r);
                },
                Err(e) => {
                    fault = Some(e);
                },
            }
        }
        list::push(&mut out, (text::owned(s), row));
        i = i + 1;
    }
    (fault, out)
}

/// The coins with their last decisions; after one that cannot be shown the rest go without.
pub open spec fn decided_coins_spec(
    last: Seq<(Seq<char>, Doc)>,
    coins: Seq<(Seq<char>, Doc)>,
) -> (Seq<(Seq<char>, Doc)>, Option<Seq<char>>) {
    let out = Seq::<(Seq<char>, Doc)>::empty();
    let fault: Option<Seq<char>> = None;
    let (fault, out) = add_decision_spec(last, coins, fault, out, coins.len());
    (out, fault)
}

fn decided_coins(
    last: &Vec<(String, Json)>,
    coins: &Vec<(String, Json)>,
) -> (r: (Vec<(String, Json)>, Option<String>))
    ensures
        r.deep_view() == decided_coins_spec(last.deep_view(), coins.deep_view()),
{
    let mut out: Vec<(String, Json)> = list::none();
    let mut fault: Option<String> = None;
    let (next_fault, next_out) = add_decision(last, coins, fault, out);
    fault = next_fault;
    out = next_out;
    (out, fault)
}

/// Of the first `n` orders.
pub open spec fn add_errored_spec(xs: Seq<Doc>, out: Seq<Seq<char>>, n: nat) -> Seq<Seq<char>> {
    out + list::gathered(
        xs,
        |o: Doc| if o.get_or_null("status"@) == Doc::Str("error"@) {
            Some(""@)
        } else {
            None
        },
        n,
    )
}

fn add_errored(xs: &Vec<Json>, out: Vec<String>) -> (r: Vec<String>)
    ensures
        r.deep_view() == add_errored_spec(xs.deep_view(), out.deep_view(), xs@.len()),
{
    let ghost out0 = out.deep_view();
    let mut out = out;
    let mut i: usize = 0;
    while i < xs.len()
        invariant
            i <= xs@.len(),
            out.deep_view() == add_errored_spec(xs.deep_view(), out0, i as nat),
        decreases xs@.len() - i,
    {
        let o = &xs[i];
        if o.get_copy("status").is_text("error") {
            list::push(&mut out, text::owned(""));
        }
        assert(out.deep_view() =~= add_errored_spec(xs.deep_view(), out0, (i + 1) as nat));
        i = i + 1;
    }
    out
}

/// How many orders failed.
pub open spec fn errored_rows_spec(rows: Seq<Doc>) -> usize {
    let out = add_errored_spec(rows, Seq::<Seq<char>>::empty(), rows.len());
    (out.len() as usize)
}

fn errored_rows(rows: &Vec<Json>) -> (r: usize)
    ensures
        r == errored_rows_spec(rows.deep_view()),
{
    let mut out: Vec<String> = list::none();
    out = add_errored(rows, out);
    out.len()
}

/// Of the first `n` orders.
pub open spec fn add_unpolled_spec(xs: Seq<Doc>, out: Seq<Seq<char>>, n: nat) -> Seq<Seq<char>> {
    out + list::gathered(
        xs,
        |o: Doc| if is_open_spec(o) && o.get_or_null("last_error"@).truthy() {
            Some(""@)
        } else {
            None
        },
        n,
    )
}

fn add_unpolled(xs: &Vec<Json>, out: Vec<String>) -> (r: Vec<String>)
    ensures
        r.deep_view() == add_unpolled_spec(xs.deep_view(), out.deep_view(), xs@.len()),
{
    let ghost out0 = out.deep_view();
    let mut out = out;
    let mut i: usize = 0;
    while i < xs.len()
        invariant
            i <= xs@.len(),
            out.deep_view() == add_unpolled_spec(xs.deep_view(), out0, i as nat),
        decreases xs@.len() - i,
    {
        let o = &xs[i];
        if is_open(o) && o.get_copy("last_error").truthy() {
            list::push(&mut out, text::owned(""));
        }
        assert(out.deep_view() =~= add_unpolled_spec(xs.deep_view(), out0, (i + 1) as nat));
        i = i + 1;
    }
    out
}

/// How many resting orders could not be polled.
pub open spec fn poll_errors_spec(rows: Seq<Doc>) -> usize {
    let out = add_unpolled_spec(rows, Seq::<Seq<char>>::empty(), rows.len());
    (out.len() as usize)
}

fn poll_errors(rows: &Vec<Json>) -> (r: usize)
    ensures
        r == poll_errors_spec(rows.deep_view()),
{
    let mut out: Vec<String> = list::none();
    out = add_unpolled(rows, out);
    out.len()
}

/// The block where the decisions could not be read.
pub open spec fn no_decisions_spec() -> Doc {
    Doc::obj().with("today"@, Doc::obj()).with("journal_errors"@, Doc::Null).with(
        "poll_errors"@,
        Doc::Null,
    )
}

fn no_decisions() -> (r: Json)
    ensures
        r@ == no_decisions_spec(),
{
    Json::obj().with("today", Json::obj()).with("journal_errors", Json::Null).with(
        "poll_errors",
        Json::Null,
    )
}

/// The last decision of each coin within three days, and how many of each kind there were today.
pub open spec fn decisions_spec(
    g: GatheredView,
    rows: Seq<Doc>,
    coins: Seq<(Seq<char>, Doc)>,
) -> DecidedView {
    match last_per_coin_spec(g.recs, g.now, Double::int_spec(259200)) {
        Ok(last) => {
            let (shown, fault) = decided_coins_spec(last, coins);
            match fault {
                Some(e) => DecidedView {
                    coins: shown,
                    block: no_decisions_spec(),
                    error: Some(e),
                },
                None => match counts_since_spec(
                    g.recs,
                    g.now.sub_spec(g.now.rem_euclid_spec(Double::int_spec(86400))),
                ) {
                    Ok(today) => {
                        let block = Doc::obj().with("today"@, today).with(
                            "journal_errors"@,
                            Doc::Int(errored_rows_spec(rows) as i64),
                        ).with(
                            "poll_errors"@,
                            Doc::Int(poll_errors_spec(rows) as i64),
                        );
                        DecidedView { coins: shown, block, error: None }
                    },
                    Err(e) => DecidedView {
                        coins: shown,
                        block: no_decisions_spec(),
                        error: Some(e),
                    },
                },
            }
        },
        Err(e) => DecidedView { coins, block: no_decisions_spec(), error: Some(e) },
    }
}

/// The last decision of each coin within three days, and how many of each kind there were today.
pub fn decisions(g: &Gathered, rows: &Vec<Json>, coins: &Vec<(String, Json)>) -> (r: Decided)
    ensures
        r.deep_view() == decisions_spec(g.deep_view(), rows.deep_view(), coins.deep_view()),
{
    match last_per_coin(&g.recs, g.now, Double::of_int(259200)) {
        Ok(last) => {
            let (shown, fault) = decided_coins(&last, coins);
            match fault {
                Some(e) => Decided { coins: shown, block: no_decisions(), error: Some(e) },
                None => match counts_since(
                    &g.recs,
                    g.now.minus(g.now.rem_euclid(Double::of_int(86400))),
                ) {
                    Ok(today) => {
                        let block = Json::obj().with("today", today).with(
                            "journal_errors",
                            Json::Int(errored_rows(rows) as i64),
                        ).with(
                            "poll_errors",
                            Json::Int(poll_errors(rows) as i64),
                        );
                        Decided { coins: shown, block, error: None }
                    },
                    Err(e) => Decided { coins: shown, block: no_decisions(), error: Some(e) },
                },
            }
        },
        Err(e) => Decided { coins: coins.dup(), block: no_decisions(), error: Some(e) },
    }
}

/// The first `n` of them.
pub open spec fn add_row_spec(xs: Seq<(Seq<char>, Doc)>, out: Seq<Doc>, n: nat) -> Seq<Doc> {
    out + Seq::new(
        n,
        |i: int| {
            let it = xs[i];
            let v = it.1;
            v
        },
    )
}

fn add_row(xs: &Vec<(String, Json)>, out: Vec<Json>) -> (r: Vec<Json>)
    ensures
        r.deep_view() == add_row_spec(xs.deep_view(), out.deep_view(), xs@.len()),
{
    let ghost out0 = out.deep_view();
    let mut out = out;
    let mut i: usize = 0;
    while i < xs.len()
        invariant
            i <= xs@.len(),
            out.deep_view() == add_row_spec(xs.deep_view(), out0, i as nat),
        decreases xs@.len() - i,
    {
        let it = &xs[i];
        let v = &it.1;
        list::push(&mut out, v.copy());
        assert(out.deep_view() =~= add_row_spec(xs.deep_view(), out0, (i + 1) as nat));
        i = i + 1;
    }
    out
}

/// The journal's rows.
pub open spec fn rows_of_spec(journal: Doc) -> Seq<Doc> {
    add_row_spec(journal.entries(), Seq::<Doc>::empty(), journal.entries().len())
}

fn rows_of(journal: &Json) -> (r: Vec<Json>)
    ensures
        r.deep_view() == rows_of_spec(journal@),
{
    let mut out: Vec<Json> = list::none();
    out = add_row(&json::entries(journal), out);
    out
}

/// The stable cash.
#[derive(Clone, Copy, Debug)]
pub struct Stables {
    /// On Revolut X, all of it in dollars.
    pub revx: Double,
    /// On Gate, of both kinds.
    pub gate: Double,
    /// What is free of Revolut X's USDC.
    pub usdc_free: Double,
    pub bag: Double,
    pub locked: Double,
}

impl DeepView for Stables {
    type V = Stables;

    open spec fn deep_view(&self) -> Stables {
        *self
    }
}

/// What a euro costs, one where it is not known.
pub open spec fn euro_rate_spec(g: GatheredView) -> Double {
    let v = g.revx.get_or_null("eur_usd"@);
    if v.truthy() {
        match v.num() {
            Some(v) => v,
            None => Double::int_spec(1),
        }
    } else {
        Double::int_spec(1)
    }
}

fn euro_rate(g: &Gathered) -> (r: Double)
    ensures
        r == euro_rate_spec(g.deep_view()),
{
    let v = g.revx.get_copy("eur_usd");
    if v.truthy() {
        return match v.num() {
            Some(v) => v,
            None => Double::of_int(1),
        };
    }
    Double::of_int(1)
}

/// What Gate holds of an asset, free and locked.
pub open spec fn whole_balance_spec(g: GatheredView, sym: Seq<char>) -> Double {
    let b = gate_balance_spec(g, sym);
    b.free.add_spec(b.locked)
}

fn whole_balance(g: &Gathered, sym: &str) -> (r: Double)
    ensures
        r == whole_balance_spec(g.deep_view(), sym@),
{
    let b = gate_balance(g, sym);
    b.free.plus(b.locked)
}

/// The stable cash: Gate USDT free and locked, Revolut X USD and USDC, and EUR at the middle.
pub open spec fn stables_spec(g: GatheredView) -> Result<Stables, Seq<char>> {
    match rx_spec(g, "USD"@, "total"@) {
        Ok(usd) => match rx_spec(g, "USDC"@, "total"@) {
            Ok(usdc) => match rx_spec(g, "EUR"@, "total"@) {
                Ok(eur) => match rx_spec(g, "USD"@, "reserved"@) {
                    Ok(usd_res) => match rx_spec(g, "USDC"@, "reserved"@) {
                        Ok(usdc_res) => {
                            let held = Seq::<Double>::empty().push(usd).push(usdc);
                            let reserved = Seq::<Double>::empty().push(usd_res).push(usdc_res);
                            let kinds = Seq::<Double>::empty().push(
                                whole_balance_spec(g, "USDT"@),
                            ).push(
                                whole_balance_spec(g, "USDC"@),
                            );
                            let revx = crate::watch::pyfmt::sum_spec(held).add_spec(
                                eur.mul_spec(euro_rate_spec(g)),
                            );
                            Ok(
                                Stables {
                                    revx,
                                    gate: crate::watch::pyfmt::sum_spec(kinds),
                                    usdc_free: usdc.sub_spec(usdc_res),
                                    bag: whole_balance_spec(g, "USDT"@).add_spec(revx),
                                    locked: gate_balance_spec(g, "USDT"@).locked.add_spec(
                                        crate::watch::pyfmt::sum_spec(reserved),
                                    ),
                                },
                            )
                        },
                        Err(e) => Err(e),
                    },
                    Err(e) => Err(e),
                },
                Err(e) => Err(e),
            },
            Err(e) => Err(e),
        },
        Err(e) => Err(e),
    }
}

/// The stable cash: Gate USDT free and locked, Revolut X USD and USDC, and EUR at the middle.
pub fn stables(g: &Gathered) -> (r: Result<Stables, String>)
    ensures
        list::outcome(r) == stables_spec(g.deep_view()),
{
    let usd = match rx(g, "USD", "total") {
        Ok(v) => v,
        Err(e) => {
            return Err(e);
        },
    };
    let usdc = match rx(g, "USDC", "total") {
        Ok(v) => v,
        Err(e) => {
            return Err(e);
        },
    };
    let eur = match rx(g, "EUR", "total") {
        Ok(v) => v,
        Err(e) => {
            return Err(e);
        },
    };
    let usd_res = match rx(g, "USD", "reserved") {
        Ok(v) => v,
        Err(e) => {
            return Err(e);
        },
    };
    let usdc_res = match rx(g, "USDC", "reserved") {
        Ok(v) => v,
        Err(e) => {
            return Err(e);
        },
    };
    let mut held: Vec<Double> = list::none();
    list::push(&mut held, usd);
    list::push(&mut held, usdc);
    let mut reserved: Vec<Double> = list::none();
    list::push(&mut reserved, usd_res);
    list::push(&mut reserved, usdc_res);
    let mut kinds: Vec<Double> = list::none();
    list::push(&mut kinds, whole_balance(g, "USDT"));
    list::push(&mut kinds, whole_balance(g, "USDC"));
    let revx = list::sum(&held).plus(eur.times(euro_rate(g)));
    Ok(
        Stables {
            revx,
            gate: list::sum(&kinds),
            usdc_free: usdc.minus(usdc_res),
            bag: whole_balance(g, "USDT").plus(revx),
            locked: gate_balance(g, "USDT").locked.plus(list::sum(&reserved)),
        },
    )
}

/// What a filled sell brought.
pub open spec fn sold_of_spec(o: Doc) -> Result<Option<Double>, Seq<char>> {
    if o.get_or_null("side"@) == Doc::Str("sell"@)
        && o.get_or_null("status"@) == Doc::Str("filled"@) {
        match dashboard::float_or0_spec(o, "filled_quote"@) {
            Ok(x) => Ok(Some(x)),
            Err(e) => Err(e),
        }
    } else {
        Ok(None)
    }
}

fn sold_of(o: &Json) -> (r: Result<Option<Double>, String>)
    ensures
        list::outcome(r) == sold_of_spec(o@),
{
    if o.get_copy("side").is_text("sell") && o.get_copy("status").is_text("filled") {
        let x = match dashboard::float_or0(o, "filled_quote") {
            Ok(v) => v,
            Err(e) => {
                return Err(e);
            },
        };
        return Ok(Some(x));
    }
    Ok(None)
}

/// Of the first `n` orders.
pub open spec fn add_sold_spec(
    xs: Seq<Doc>,
    parts: Seq<Num>,
    fault: Option<Seq<char>>,
    n: nat,
) -> (Seq<Num>, Option<Seq<char>>)
    decreases n,
{
    if n == 0 {
        (parts, fault)
    } else {
        let (parts, fault) = add_sold_spec(xs, parts, fault, (n - 1) as nat);
        let o = xs[n - 1];
        if fault is None {
            match sold_of_spec(o) {
                Ok(got) => {
                    let parts = match got {
                        Some(x) => parts.push(crate::dashboard::Num::Frac(x)),
                        None => parts,
                    };
                    (parts, fault)
                },
                Err(e) => (parts, Some(e)),
            }
        } else {
            (parts, fault)
        }
    }
}

fn add_sold(
    xs: &Vec<Json>,
    parts: Vec<Num>,
    fault: Option<String>,
) -> (r: (Vec<Num>, Option<String>))
    ensures
        r.deep_view() == add_sold_spec(
            xs.deep_view(),
            parts.deep_view(),
            fault.deep_view(),
            xs@.len(),
        ),
{
    let ghost parts0 = parts.deep_view();
    let ghost fault0 = fault.deep_view();
    let mut parts = parts;
    let mut fault = fault;
    let mut i: usize = 0;
    while i < xs.len()
        invariant
            i <= xs@.len(),
            (parts.deep_view(), fault.deep_view()) == add_sold_spec(
                xs.deep_view(),
                parts0,
                fault0,
                i as nat,
            ),
        decreases xs@.len() - i,
    {
        let o = &xs[i];
        if fault.is_none() {
            match sold_of(o) {
                Ok(got) => {
                    match got {
                        Some(x) => {
                            list::push(&mut parts, crate::dashboard::Num::Frac(x));
                        },
                        None => {},
                    }
                },
                Err(e) => {
                    fault = Some(e);
                },
            }
        }
        i = i + 1;
    }
    (parts, fault)
}

/// What the filled sells brought.
pub open spec fn realized_spec(rows: Seq<Doc>) -> Result<Num, Seq<char>> {
    let parts = Seq::<Num>::empty();
    let fault: Option<Seq<char>> = None;
    let (parts, fault) = add_sold_spec(rows, parts, fault, rows.len());
    match fault {
        Some(e) => Err(e),
        None => Ok(crate::dashboard::py_sum_spec(parts)),
    }
}

/// What the filled sells brought.
pub fn realized(rows: &Vec<Json>) -> (r: Result<Num, String>)
    ensures
        list::outcome(r) == realized_spec(rows.deep_view()),
{
    let mut parts: Vec<Num> = list::none();
    let mut fault: Option<String> = None;
    let (next_parts, next_fault) = add_sold(rows, parts, fault);
    parts = next_parts;
    fault = next_fault;
    match fault {
        Some(e) => Err(e),
        None => Ok(crate::dashboard::py_sum(&parts)),
    }
}

/// What the onramp card is made from.
#[derive(Debug)]
pub struct CardQuery {
    pub revx_stable: Double,
    pub gate_stable: Double,
    pub usdc_free: Double,
    pub alloc: Vec<(String, Double)>,
    pub routing: Vec<(String, String)>,
}

/// What a [`CardQuery`] holds.
pub struct CardQueryView {
    pub revx_stable: Double,
    pub gate_stable: Double,
    pub usdc_free: Double,
    pub alloc: Seq<(Seq<char>, Double)>,
    pub routing: Seq<(Seq<char>, Seq<char>)>,
}

impl DeepView for CardQuery {
    type V = CardQueryView;

    open spec fn deep_view(&self) -> CardQueryView {
        CardQueryView {
            revx_stable: self.revx_stable,
            gate_stable: self.gate_stable,
            usdc_free: self.usdc_free,
            alloc: self.alloc.deep_view(),
            routing: self.routing.deep_view(),
        }
    }
}

/// The first `n` of them.
pub open spec fn add_weight_spec(
    xs: Seq<(Seq<char>, Double)>,
    out: Seq<(Seq<char>, Double)>,
    n: nat,
) -> Seq<(Seq<char>, Double)> {
    out + Seq::new(
        n,
        |i: int| {
            let it = xs[i];
            let s = it.0;
            let w = it.1;
            (text::upper_case(s), w)
        },
    )
}

fn add_weight(
    xs: &Vec<(String, Double)>,
    out: Vec<(String, Double)>,
) -> (r: Vec<(String, Double)>)
    ensures
        r.deep_view() == add_weight_spec(xs.deep_view(), out.deep_view(), xs@.len()),
{
    let ghost out0 = out.deep_view();
    let mut out = out;
    let mut i: usize = 0;
    while i < xs.len()
        invariant
            i <= xs@.len(),
            out.deep_view() == add_weight_spec(xs.deep_view(), out0, i as nat),
        decreases xs@.len() - i,
    {
        let it = &xs[i];
        let s = it.0.as_str();
        let w = it.1;
        list::push(&mut out, (text::uppercase(s), w));
        assert(out.deep_view() =~= add_weight_spec(xs.deep_view(), out0, (i + 1) as nat));
        i = i + 1;
    }
    out
}

/// The weights, the coins in capitals.
pub open spec fn alloc_of_spec(cfg: SnapshotConfigView) -> Seq<(Seq<char>, Double)> {
    add_weight_spec(cfg.deploy_alloc, Seq::<(Seq<char>, Double)>::empty(), cfg.deploy_alloc.len())
}

fn alloc_of(cfg: &SnapshotConfig) -> (r: Vec<(String, Double)>)
    ensures
        r.deep_view() == alloc_of_spec(cfg.deep_view()),
{
    let mut out: Vec<(String, Double)> = list::none();
    out = add_weight(&cfg.deploy_alloc, out);
    out
}

/// Of the first `n` routes.
pub open spec fn add_venue_spec(
    xs: Seq<RouteView>,
    out: Seq<(Seq<char>, Seq<char>)>,
    n: nat,
) -> Seq<(Seq<char>, Seq<char>)> {
    out + Seq::new(
        n,
        |i: int| {
            let r = xs[i];
            (r.sym, r.exch)
        },
    )
}

fn add_venue(xs: &Vec<Route>, out: Vec<(String, String)>) -> (r: Vec<(String, String)>)
    ensures
        r.deep_view() == add_venue_spec(xs.deep_view(), out.deep_view(), xs@.len()),
{
    let ghost out0 = out.deep_view();
    let mut out = out;
    let mut i: usize = 0;
    while i < xs.len()
        invariant
            i <= xs@.len(),
            out.deep_view() == add_venue_spec(xs.deep_view(), out0, i as nat),
        decreases xs@.len() - i,
    {
        let r = &xs[i];
        list::push(&mut out, (text::owned(r.sym.as_str()), text::owned(r.exch.as_str())));
        assert(out.deep_view() =~= add_venue_spec(xs.deep_view(), out0, (i + 1) as nat));
        i = i + 1;
    }
    out
}

/// Where each coin trades.
pub open spec fn venues_of_spec(cfg: SnapshotConfigView) -> Seq<(Seq<char>, Seq<char>)> {
    add_venue_spec(cfg.routing, Seq::<(Seq<char>, Seq<char>)>::empty(), cfg.routing.len())
}

fn venues_of(cfg: &SnapshotConfig) -> (r: Vec<(String, String)>)
    ensures
        r.deep_view() == venues_of_spec(cfg.deep_view()),
{
    let mut out: Vec<(String, String)> = list::none();
    out = add_venue(&cfg.routing, out);
    out
}

/// What the onramp card is made from, where the onramp venue could be read.
pub open spec fn card_query_spec(
    cfg: SnapshotConfigView,
    g: GatheredView,
) -> Option<CardQueryView> {
    if revx_error_spec(g) is Some {
        None
    } else {
        match stables_spec(g) {
            Ok(s) => Some(
                CardQueryView {
                    revx_stable: s.revx,
                    gate_stable: s.gate,
                    usdc_free: s.usdc_free,
                    alloc: alloc_of_spec(cfg),
                    routing: venues_of_spec(cfg),
                },
            ),
            Err(e) => None,
        }
    }
}

/// What the onramp card is made from, where the onramp venue could be read.
pub fn card_query(cfg: &SnapshotConfig, g: &Gathered) -> (r: Option<CardQuery>)
    ensures
        r.deep_view() == card_query_spec(cfg.deep_view(), g.deep_view()),
{
    if revx_error(g).is_some() {
        return None;
    }
    match stables(g) {
        Ok(s) => Some(
            CardQuery {
                revx_stable: s.revx,
                gate_stable: s.gate,
                usdc_free: s.usdc_free,
                alloc: alloc_of(cfg),
                routing: venues_of(cfg),
            },
        ),
        Err(e) => None,
    }
}

/// The onramp card, or why the onramp venue could not be read.
pub open spec fn funding_spec(g: GatheredView, card: Option<Card>) -> Doc {
    match revx_error_spec(g) {
        Some(e) => Doc::obj().with("error"@, e),
        None => match card {
            Some(c) => card_json_spec(c),
            None => Doc::Null,
        },
    }
}

/// The onramp card, or why the onramp venue could not be read.
pub fn funding(g: &Gathered, card: Option<Card>) -> (r: Json)
    ensures
        r@ == funding_spec(g.deep_view(), card),
{
    match revx_error(g) {
        Some(e) => Json::obj().with("error", e),
        None => match card {
            Some(c) => card_json(c),
            None => Json::Null,
        },
    }
}

/// An order as it is shown.
pub open spec fn log_row_spec(routing: Seq<RouteView>, d: DashConfigView, o: Doc) -> Doc {
    let ts = ord_ts_spec(o);
    let when = if ts.truthy() {
        ts
    } else {
        Doc::Null
    };
    Doc::obj().with("client_id"@, o.get_or_null("client_id"@)).with("sym"@, o.get_or_null("sym"@)).with(
        "side"@,
        o.get_or_null("side"@),
    ).with(
        "kind"@,
        o.get_or_null("kind"@),
    ).with(
        "status"@,
        o.get_or_null("status"@),
    ).with(
        "venue"@,
        venue_of_spec(routing, d, o),
    ).with(
        "base"@,
        or2_spec(o, "filled_base"@, "base"@),
    ).with(
        "quote"@,
        or2_spec(o, "filled_quote"@, "quote"@),
    ).with(
        "price"@,
        or2_spec(o, "avg_price"@, "price"@),
    ).with(
        "ts"@,
        when,
    )
}

fn log_row(routing: &Vec<Route>, d: &DashConfig, o: &Json) -> (r: Json)
    ensures
        r@ == log_row_spec(routing.deep_view(), d.deep_view(), o@),
{
    let ts = ord_ts(o);
    let when = if ts.truthy() {
        ts
    } else {
        Json::Null
    };
    Json::obj().with("client_id", o.get_copy("client_id")).with("sym", o.get_copy("sym")).with(
        "side",
        o.get_copy("side"),
    ).with(
        "kind",
        o.get_copy("kind"),
    ).with(
        "status",
        o.get_copy("status"),
    ).with(
        "venue",
        venue_of(routing, d, o),
    ).with(
        "base",
        or2(o, "filled_base", "base"),
    ).with(
        "quote",
        or2(o, "filled_quote", "quote"),
    ).with(
        "price",
        or2(o, "avg_price", "price"),
    ).with(
        "ts",
        when,
    )
}

/// The first `n` of them.
pub open spec fn take_by_key_spec(xs: Seq<(Double, Doc)>, out: Seq<Doc>, n: nat) -> Seq<Doc>
    decreases n,
{
    if n == 0 {
        out
    } else {
        let out = take_by_key_spec(xs, out, (n - 1) as nat);
        let r = xs[n - 1];
        out.push(r.1)
    }
}

fn take_by_key(xs: &Vec<(Double, Json)>, out: Vec<Json>) -> (r: Vec<Json>)
    ensures
        r.deep_view() == take_by_key_spec(xs.deep_view(), out.deep_view(), xs@.len()),
{
    let ghost out0 = out.deep_view();
    let mut out = out;
    let mut i: usize = 0;
    while i < xs.len()
        invariant
            i <= xs@.len(),
            out.deep_view() == take_by_key_spec(xs.deep_view(), out0, i as nat),
        decreases xs@.len() - i,
    {
        let r = &xs[i];
        list::push(&mut out, r.1.copy());
        i = i + 1;
    }
    out
}

/// Rows, the latest first.
pub open spec fn by_key_spec(keyed: Seq<(Double, Doc)>) -> Seq<Doc> {
    take_by_key_spec(
        list::sorted_down(keyed),
        Seq::<Doc>::empty(),
        list::sorted_down(keyed).len(),
    )
}

fn by_key(keyed: Vec<(Double, Json)>) -> (r: Vec<Json>)
    ensures
        r.deep_view() == by_key_spec(keyed.deep_view()),
{
    let mut out: Vec<Json> = list::none();
    out = take_by_key(&list::sort_down(&keyed), out);
    out
}

/// The first `n` of them.
pub open spec fn add_dated_spec(
    xs: Seq<Doc>,
    keyed: Seq<(Double, Doc)>,
    n: nat,
) -> Seq<(Double, Doc)>
    decreases n,
{
    if n == 0 {
        keyed
    } else {
        let keyed = add_dated_spec(xs, keyed, (n - 1) as nat);
        let o = xs[n - 1];
        keyed.push((sort_key_spec(ord_ts_spec(o)), o))
    }
}

fn add_dated(xs: &Vec<Json>, keyed: Vec<(Double, Json)>) -> (r: Vec<(Double, Json)>)
    ensures
        r.deep_view() == add_dated_spec(xs.deep_view(), keyed.deep_view(), xs@.len()),
{
    let ghost keyed0 = keyed.deep_view();
    let mut keyed = keyed;
    let mut i: usize = 0;
    while i < xs.len()
        invariant
            i <= xs@.len(),
            keyed.deep_view() == add_dated_spec(xs.deep_view(), keyed0, i as nat),
        decreases xs@.len() - i,
    {
        let o = &xs[i];
        list::push(&mut keyed, (sort_key(&ord_ts(o)), o.copy()));
        i = i + 1;
    }
    keyed
}

/// The orders, the latest first.
pub open spec fn newest_first_spec(rows: Seq<Doc>) -> Seq<Doc> {
    let keyed = add_dated_spec(rows, Seq::<(Double, Doc)>::empty(), rows.len());
    by_key_spec(keyed)
}

/// The orders, the latest first.
pub fn newest_first(rows: &Vec<Json>) -> (r: Vec<Json>)
    ensures
        r.deep_view() == newest_first_spec(rows.deep_view()),
{
    let mut keyed: Vec<(Double, Json)> = list::none();
    keyed = add_dated(rows, keyed);
    by_key(keyed)
}

/// What a fill sorts by.
pub open spec fn fill_key_spec(r: Doc) -> Double {
    let t = r.get_or_null("ts"@);
    if t.truthy() {
        sort_key_spec(t)
    } else {
        Double::zero_spec()
    }
}

fn fill_key(r: &Json) -> (out: Double)
    ensures
        out == fill_key_spec(r@),
{
    let t = r.get_copy("ts");
    if t.truthy() {
        return sort_key(&t);
    }
    Double::zero()
}

/// The first `n` of them.
pub open spec fn add_fill_spec(
    xs: Seq<Doc>,
    keyed: Seq<(Double, Doc)>,
    n: nat,
) -> Seq<(Double, Doc)> {
    keyed + Seq::new(
        n,
        |i: int| {
            let r = xs[i];
            (fill_key_spec(r), r)
        },
    )
}

fn add_fill(xs: &Vec<Json>, keyed: Vec<(Double, Json)>) -> (r: Vec<(Double, Json)>)
    ensures
        r.deep_view() == add_fill_spec(xs.deep_view(), keyed.deep_view(), xs@.len()),
{
    let ghost keyed0 = keyed.deep_view();
    let mut keyed = keyed;
    let mut i: usize = 0;
    while i < xs.len()
        invariant
            i <= xs@.len(),
            keyed.deep_view() == add_fill_spec(xs.deep_view(), keyed0, i as nat),
        decreases xs@.len() - i,
    {
        let r = &xs[i];
        list::push(&mut keyed, (fill_key(r), r.copy()));
        assert(keyed.deep_view() =~= add_fill_spec(xs.deep_view(), keyed0, (i + 1) as nat));
        i = i + 1;
    }
    keyed
}

/// The fills, the latest first.
pub open spec fn latest_fills_spec(rows: Seq<Doc>) -> Seq<Doc> {
    let keyed = add_fill_spec(rows, Seq::<(Double, Doc)>::empty(), rows.len());
    by_key_spec(keyed)
}

fn latest_fills(rows: &Vec<Json>) -> (r: Vec<Json>)
    ensures
        r.deep_view() == latest_fills_spec(rows.deep_view()),
{
    let mut keyed: Vec<(Double, Json)> = list::none();
    keyed = add_fill(rows, keyed);
    by_key(keyed)
}

/// Of the first `n` orders.
pub open spec fn add_filled_spec(
    d: DashConfigView,
    routing: Seq<RouteView>,
    xs: Seq<Doc>,
    out: Seq<Doc>,
    n: nat,
) -> Seq<Doc> {
    out + list::gathered(
        xs,
        |o: Doc| if o.get_or_null("status"@) == Doc::Str("filled"@) {
            Some(log_row_spec(routing, d, o))
        } else {
            None
        },
        n,
    )
}

fn add_filled(
    d: &DashConfig,
    routing: &Vec<Route>,
    xs: &Vec<Json>,
    out: Vec<Json>,
) -> (r: Vec<Json>)
    ensures
        r.deep_view() == add_filled_spec(
            d.deep_view(),
            routing.deep_view(),
            xs.deep_view(),
            out.deep_view(),
            xs@.len(),
        ),
{
    let ghost out0 = out.deep_view();
    let mut out = out;
    let mut i: usize = 0;
    while i < xs.len()
        invariant
            i <= xs@.len(),
            out.deep_view() == add_filled_spec(
                d.deep_view(),
                routing.deep_view(),
                xs.deep_view(),
                out0,
                i as nat,
            ),
        decreases xs@.len() - i,
    {
        let o = &xs[i];
        if o.get_copy("status").is_text("filled") {
            list::push(&mut out, log_row(routing, d, o));
        }
        assert(out.deep_view() =~= add_filled_spec(
            d.deep_view(),
            routing.deep_view(),
            xs.deep_view(),
            out0,
            (i + 1) as nat,
        ));
        i = i + 1;
    }
    out
}

/// The filled orders as they are shown.
pub open spec fn filled_log_spec(
    routing: Seq<RouteView>,
    d: DashConfigView,
    ordered: Seq<Doc>,
) -> Seq<Doc> {
    add_filled_spec(d, routing, ordered, Seq::<Doc>::empty(), ordered.len())
}

fn filled_log(routing: &Vec<Route>, d: &DashConfig, ordered: &Vec<Json>) -> (r: Vec<Json>)
    ensures
        r.deep_view() == filled_log_spec(routing.deep_view(), d.deep_view(), ordered.deep_view()),
{
    let mut out: Vec<Json> = list::none();
    out = add_filled(d, routing, ordered, out);
    out
}

/// Of the first `n` orders.
pub open spec fn add_open_spec(
    d: DashConfigView,
    routing: Seq<RouteView>,
    xs: Seq<Doc>,
    out: Seq<Doc>,
    n: nat,
) -> Seq<Doc> {
    out + list::gathered(
        xs,
        |o: Doc| if is_open_spec(o) {
            Some(log_row_spec(routing, d, o))
        } else {
            None
        },
        n,
    )
}

fn add_open(
    d: &DashConfig,
    routing: &Vec<Route>,
    xs: &Vec<Json>,
    out: Vec<Json>,
) -> (r: Vec<Json>)
    ensures
        r.deep_view() == add_open_spec(
            d.deep_view(),
            routing.deep_view(),
            xs.deep_view(),
            out.deep_view(),
            xs@.len(),
        ),
{
    let ghost out0 = out.deep_view();
    let mut out = out;
    let mut i: usize = 0;
    while i < xs.len()
        invariant
            i <= xs@.len(),
            out.deep_view() == add_open_spec(
                d.deep_view(),
                routing.deep_view(),
                xs.deep_view(),
                out0,
                i as nat,
            ),
        decreases xs@.len() - i,
    {
        let o = &xs[i];
        if is_open(o) {
            list::push(&mut out, log_row(routing, d, o));
        }
        assert(out.deep_view() =~= add_open_spec(
            d.deep_view(),
            routing.deep_view(),
            xs.deep_view(),
            out0,
            (i + 1) as nat,
        ));
        i = i + 1;
    }
    out
}

/// The resting orders as they are shown.
pub open spec fn open_log_spec(
    routing: Seq<RouteView>,
    d: DashConfigView,
    ordered: Seq<Doc>,
) -> Seq<Doc> {
    add_open_spec(d, routing, ordered, Seq::<Doc>::empty(), ordered.len())
}

fn open_log(routing: &Vec<Route>, d: &DashConfig, ordered: &Vec<Json>) -> (r: Vec<Json>)
    ensures
        r.deep_view() == open_log_spec(routing.deep_view(), d.deep_view(), ordered.deep_view()),
{
    let mut out: Vec<Json> = list::none();
    out = add_open(d, routing, ordered, out);
    out
}

/// The first `n` of them.
pub open spec fn add_key_spec(xs: Seq<(Seq<char>, Doc)>, out: Seq<Doc>, n: nat) -> Seq<Doc> {
    out + Seq::new(
        n,
        |i: int| {
            let it = xs[i];
            let k = it.0;
            Doc::Str(k)
        },
    )
}

fn add_key(xs: &Vec<(String, Json)>, out: Vec<Json>) -> (r: Vec<Json>)
    ensures
        r.deep_view() == add_key_spec(xs.deep_view(), out.deep_view(), xs@.len()),
{
    let ghost out0 = out.deep_view();
    let mut out = out;
    let mut i: usize = 0;
    while i < xs.len()
        invariant
            i <= xs@.len(),
            out.deep_view() == add_key_spec(xs.deep_view(), out0, i as nat),
        decreases xs@.len() - i,
    {
        let it = &xs[i];
        let k = it.0.as_str();
        list::push(&mut out, Json::text(k));
        assert(out.deep_view() =~= add_key_spec(xs.deep_view(), out0, (i + 1) as nat));
        i = i + 1;
    }
    out
}

/// The keys of an object.
pub open spec fn key_docs_spec(v: Doc) -> Seq<Doc> {
    add_key_spec(v.entries(), Seq::<Doc>::empty(), v.entries().len())
}

fn key_docs(v: &Json) -> (r: Vec<Json>)
    ensures
        r.deep_view() == key_docs_spec(v@),
{
    let mut out: Vec<Json> = list::none();
    out = add_key(&json::entries(v), out);
    out
}

/// What a loop over the fills sees.
pub open spec fn fill_items_spec(v: Doc) -> Result<Seq<Doc>, Seq<char>> {
    if v is Arr {
        Ok(v.items())
    } else if v is Obj {
        Ok(key_docs_spec(v))
    } else {
        match v.as_text() {
            Some(s) => {
                let out = Seq::<Doc>::empty();
                let out = if s != ""@ {
                    out.push(Doc::Str(s))
                } else {
                    out
                };
                Ok(out)
            },
            None => Err("'"@ + pyfmt::kind_name_spec(v) + "' object is not iterable"@),
        }
    }
}

fn fill_items(v: &Json) -> (r: Result<Vec<Json>, String>)
    ensures
        list::outcome(r) == fill_items_spec(v@),
{
    if v.is_arr() {
        return Ok(json::items(v));
    }
    if v.is_obj() {
        return Ok(key_docs(v));
    }
    match v.as_str() {
        Some(s) => {
            let mut out: Vec<Json> = list::none();
            if !text::same(s, "") {
                list::push(&mut out, Json::text(s));
            }
            Ok(out)
        },
        None => {
            let mut line = text::owned("'");
            line.push_str(text::owned(pyfmt::kind_name(v)).as_str());
            line.push_str("' object is not iterable");
            Err(line)
        },
    }
}

/// Of the first `n` rows.
pub open spec fn add_manual_spec(
    xs: Seq<Doc>,
    fault: Option<Seq<char>>,
    out: Seq<Doc>,
    n: nat,
) -> (Option<Seq<char>>, Seq<Doc>)
    decreases n,
{
    if n == 0 {
        (fault, out)
    } else {
        let (fault, out) = add_manual_spec(xs, fault, out, (n - 1) as nat);
        let r = xs[n - 1];
        if fault is None {
            if !(r is Obj) {
                let fault = Some(
                    "'"@ + pyfmt::kind_name_spec(r) + "' object has no attribute 'get'"@,
                );
                (fault, out)
            } else {
                let out = if r.get_or_null("status"@) == Doc::Str("filled"@) {
                    out.push(r)
                } else {
                    out
                };
                (fault, out)
            }
        } else {
            (fault, out)
        }
    }
}

fn add_manual(
    xs: &Vec<Json>,
    fault: Option<String>,
    out: Vec<Json>,
) -> (r: (Option<String>, Vec<Json>))
    ensures
        r.deep_view() == add_manual_spec(
            xs.deep_view(),
            fault.deep_view(),
            out.deep_view(),
            xs@.len(),
        ),
{
    let ghost fault0 = fault.deep_view();
    let ghost out0 = out.deep_view();
    let mut fault = fault;
    let mut out = out;
    let mut i: usize = 0;
    while i < xs.len()
        invariant
            i <= xs@.len(),
            (fault.deep_view(), out.deep_view()) == add_manual_spec(
                xs.deep_view(),
                fault0,
                out0,
                i as nat,
            ),
        decreases xs@.len() - i,
    {
        let r = &xs[i];
        if fault.is_none() {
            if !r.is_obj() {
                let mut line = text::owned("'");
                line.push_str(text::owned(pyfmt::kind_name(r)).as_str());
                line.push_str("' object has no attribute 'get'");
                fault = Some(line);
            } else if r.get_copy("status").is_text("filled") {
                list::push(&mut out, r.copy());
            }
        }
        i = i + 1;
    }
    (fault, out)
}

/// The filled rows among the fills made outside the bot.
pub open spec fn manual_fills_spec(v: Doc) -> Result<Seq<Doc>, Seq<char>> {
    match fill_items_spec(v) {
        Ok(rows) => {
            let out = Seq::<Doc>::empty();
            let fault: Option<Seq<char>> = None;
            let (fault, out) = add_manual_spec(rows, fault, out, rows.len());
            match fault {
                Some(e) => Err(e),
                None => Ok(out),
            }
        },
        Err(e) => Err(e),
    }
}

/// The filled rows among the fills made outside the bot.
pub fn manual_fills(v: &Json) -> (r: Result<Vec<Json>, String>)
    ensures
        list::outcome(r) == manual_fills_spec(v@),
{
    let rows = match fill_items(v) {
        Ok(v) => v,
        Err(e) => {
            return Err(e);
        },
    };
    let mut out: Vec<Json> = list::none();
    let mut fault: Option<String> = None;
    let (next_fault, next_out) = add_manual(&rows, fault, out);
    fault = next_fault;
    out = next_out;
    match fault {
        Some(e) => Err(e),
        None => Ok(out),
    }
}

/// The order log, and what went wrong with the fills made outside the bot.
#[derive(Debug)]
pub struct Log {
    pub rows: Vec<Json>,
    pub error: Option<String>,
}

/// What a [`Log`] holds.
pub struct LogView {
    pub rows: Seq<Doc>,
    pub error: Option<Seq<char>>,
}

impl DeepView for Log {
    type V = LogView;

    open spec fn deep_view(&self) -> LogView {
        LogView {
            rows: self.rows.deep_view(),
            error: self.error.deep_view(),
        }
    }
}

/// The fills made outside the bot.
pub open spec fn manual_of_spec(g: GatheredView) -> Result<Seq<Doc>, Seq<char>> {
    match g.manual {
        Ok(v) => manual_fills_spec(v),
        Err(e) => Err(e),
    }
}

fn manual_of(g: &Gathered) -> (r: Result<Vec<Json>, String>)
    ensures
        list::outcome(r) == manual_of_spec(g.deep_view()),
{
    match &g.manual {
        Ok(v) => manual_fills(v),
        Err(e) => Err(text::owned(e.as_str())),
    }
}

/// Of the first `n` rows.
pub open spec fn add_at_most_spec(most: usize, xs: Seq<Doc>, out: Seq<Doc>, n: nat) -> Seq<Doc>
    decreases n,
{
    if n == 0 {
        out
    } else {
        let out = add_at_most_spec(most, xs, out, (n - 1) as nat);
        let r = xs[n - 1];
        let k = (n - 1) as usize;
        if k < most {
            out.push(r)
        } else {
            out
        }
    }
}

fn add_at_most(most: usize, xs: &Vec<Json>, out: Vec<Json>) -> (r: Vec<Json>)
    ensures
        r.deep_view() == add_at_most_spec(most, xs.deep_view(), out.deep_view(), xs@.len()),
{
    let ghost out0 = out.deep_view();
    let mut out = out;
    let mut i: usize = 0;
    while i < xs.len()
        invariant
            i <= xs@.len(),
            out.deep_view() == add_at_most_spec(most, xs.deep_view(), out0, i as nat),
        decreases xs@.len() - i,
    {
        let r = &xs[i];
        let k: usize = i;
        if k < most {
            list::push(&mut out, r.copy());
        }
        i = i + 1;
    }
    out
}

/// The first of some rows.
pub open spec fn at_most_spec(rows: Seq<Doc>, most: usize) -> Seq<Doc> {
    add_at_most_spec(most, rows, Seq::<Doc>::empty(), rows.len())
}

fn at_most(rows: &Vec<Json>, most: usize) -> (r: Vec<Json>)
    ensures
        r.deep_view() == at_most_spec(rows.deep_view(), most),
{
    let mut out: Vec<Json> = list::none();
    out = add_at_most(most, rows, out);
    out
}

/// The fills, the latest first, with those made outside the bot where they could be read.
pub open spec fn shown_fills_spec(
    cfg: SnapshotConfigView,
    d: DashConfigView,
    g: GatheredView,
    rows: Seq<Doc>,
) -> Seq<Doc> {
    let filled = filled_log_spec(cfg.routing, d, newest_first_spec(rows));
    if g.has_manual {
        match manual_of_spec(g) {
            Ok(extra) => {
                let filled = filled + extra;
                latest_fills_spec(filled)
            },
            Err(e) => filled,
        }
    } else {
        filled
    }
}

fn shown_fills(
    cfg: &SnapshotConfig,
    d: &DashConfig,
    g: &Gathered,
    rows: &Vec<Json>,
) -> (r: Vec<Json>)
    ensures
        r.deep_view() == shown_fills_spec(
            cfg.deep_view(),
            d.deep_view(),
            g.deep_view(),
            rows.deep_view(),
        ),
{
    let mut filled = filled_log(&cfg.routing, d, &newest_first(rows));
    if g.has_manual {
        match manual_of(g) {
            Ok(extra) => {
                filled = list::joined(filled, extra);
                filled = latest_fills(&filled);
            },
            Err(e) => {},
        }
    }
    filled
}

/// Why the fills made outside the bot could not be read.
pub open spec fn manual_error_spec(g: GatheredView) -> Option<Seq<char>> {
    if !g.has_manual {
        None
    } else {
        match manual_of_spec(g) {
            Ok(extra) => None,
            Err(e) => Some("manual-fills: "@ + e),
        }
    }
}

fn manual_error(g: &Gathered) -> (r: Option<String>)
    ensures
        r.deep_view() == manual_error_spec(g.deep_view()),
{
    if !g.has_manual {
        return None;
    }
    match manual_of(g) {
        Ok(extra) => None,
        Err(e) => {
            let mut line = text::owned("manual-fills: ");
            line.push_str(e.as_str());
            Some(line)
        },
    }
}

/// Every resting order and the newest 60 fills, newest first.
pub open spec fn order_log_spec(
    cfg: SnapshotConfigView,
    d: DashConfigView,
    g: GatheredView,
    rows: Seq<Doc>,
) -> LogView {
    let log = open_log_spec(cfg.routing, d, newest_first_spec(rows));
    let log = log + at_most_spec(shown_fills_spec(cfg, d, g, rows), 60);
    LogView { rows: log, error: manual_error_spec(g) }
}

/// Every resting order and the newest 60 fills, newest first.
pub fn order_log(cfg: &SnapshotConfig, d: &DashConfig, g: &Gathered, rows: &Vec<Json>) -> (r: Log)
    ensures
        r.deep_view() == order_log_spec(
            cfg.deep_view(),
            d.deep_view(),
            g.deep_view(),
            rows.deep_view(),
        ),
{
    let mut log = open_log(&cfg.routing, d, &newest_first(rows));
    log = list::joined(log, at_most(&shown_fills(cfg, d, g, rows), 60));
    Log { rows: log, error: manual_error(g) }
}

/// The churn block, its log line, and what went wrong.
#[derive(Debug)]
pub struct ChurnPart {
    pub block: Json,
    pub line: Option<String>,
    pub error: Option<String>,
}

/// What a [`ChurnPart`] holds.
pub struct ChurnPartView {
    pub block: Doc,
    pub line: Option<Seq<char>>,
    pub error: Option<Seq<char>>,
}

impl DeepView for ChurnPart {
    type V = ChurnPartView;

    open spec fn deep_view(&self) -> ChurnPartView {
        ChurnPartView {
            block: self.block@,
            line: self.line.deep_view(),
            error: self.error.deep_view(),
        }
    }
}

/// The churn of a week and of four weeks.
pub open spec fn churn_part_spec(g: GatheredView) -> ChurnPartView {
    match g.orders {
        Ok(rows) => {
            let week = churn::metrics_spec(rows, g.now, 7);
            let block = churn::metrics_json_spec(week);
            let block = block.set(
                "d28"@,
                churn::metrics_json_spec(churn::metrics_spec(rows, g.now, 28)),
            );
            ChurnPartView { block, line: Some(churn::summary_spec(week)), error: None }
        },
        Err(e) => ChurnPartView { block: Doc::obj(), line: None, error: Some("churn: "@ + e) },
    }
}

/// The churn of a week and of four weeks.
pub fn churn_part(g: &Gathered) -> (r: ChurnPart)
    ensures
        r.deep_view() == churn_part_spec(g.deep_view()),
{
    match &g.orders {
        Ok(rows) => {
            let week = churn::metrics(rows, g.now, 7);
            let mut block = churn::metrics_json(&week);
            block.set("d28", churn::metrics_json(&churn::metrics(rows, g.now, 28)));
            ChurnPart { block, line: Some(churn::summary(&week)), error: None }
        },
        Err(e) => {
            let mut line = text::owned("churn: ");
            line.push_str(e.as_str());
            ChurnPart { block: Json::obj(), line: None, error: Some(line) }
        },
    }
}

/// The first `n` of them.
pub open spec fn add_error_spec(xs: Seq<Seq<char>>, out: Seq<Doc>, n: nat) -> Seq<Doc> {
    out + Seq::new(
        n,
        |i: int| {
            let e = xs[i];
            Doc::Str(e)
        },
    )
}

fn add_error(xs: &Vec<String>, out: Vec<Json>) -> (r: Vec<Json>)
    ensures
        r.deep_view() == add_error_spec(xs.deep_view(), out.deep_view(), xs@.len()),
{
    let ghost out0 = out.deep_view();
    let mut out = out;
    let mut i: usize = 0;
    while i < xs.len()
        invariant
            i <= xs@.len(),
            out.deep_view() == add_error_spec(xs.deep_view(), out0, i as nat),
        decreases xs@.len() - i,
    {
        let e = xs[i].as_str();
        list::push(&mut out, Json::text(e));
        assert(out.deep_view() =~= add_error_spec(xs.deep_view(), out0, (i + 1) as nat));
        i = i + 1;
    }
    out
}

/// The errors as values.
pub open spec fn error_docs_spec(errors: Seq<Seq<char>>) -> Seq<Doc> {
    add_error_spec(errors, Seq::<Doc>::empty(), errors.len())
}

fn error_docs(errors: &Vec<String>) -> (r: Vec<Json>)
    ensures
        r.deep_view() == error_docs_spec(errors.deep_view()),
{
    let mut out: Vec<Json> = list::none();
    out = add_error(errors, out);
    out
}

/// The deploy streak before the first deploy.
pub open spec fn no_deploys_spec() -> Doc {
    Doc::obj().with("last_ok_ts"@, Doc::Null).with("consecutive_failures"@, Doc::Null)
}

fn no_deploys() -> (r: Json)
    ensures
        r@ == no_deploys_spec(),
{
    Json::obj().with("last_ok_ts", Json::Null).with("consecutive_failures", Json::Null)
}

/// The audit before the first one.
pub open spec fn no_audit_spec() -> Doc {
    Doc::obj().with("ts"@, Doc::Null).with("ok"@, Doc::Null).with(
        "findings"@,
        Doc::Arr(Seq::<Doc>::empty()),
    )
}

fn no_audit() -> (r: Json)
    ensures
        r@ == no_audit_spec(),
{
    let none: Vec<Json> = list::none();
    Json::obj().with("ts", Json::Null).with("ok", Json::Null).with("findings", json::array(none))
}

/// The ladder's daily state.
pub open spec fn daily_of_spec(g: GatheredView) -> Doc {
    let v = g.state.get_or_null("_daily"@);
    if v is Obj {
        v
    } else {
        Doc::obj()
    }
}

fn daily_of(g: &Gathered) -> (r: Json)
    ensures
        r@ == daily_of_spec(g.deep_view()),
{
    let v = g.state.get_copy("_daily");
    if v.is_obj() {
        return v;
    }
    Json::obj()
}

/// When the run last wrote its log.
pub open spec fn last_run_of_spec(g: GatheredView) -> Doc {
    match g.last_run {
        Some(t) => Doc::Str(t),
        None => Doc::Null,
    }
}

fn last_run_of(g: &Gathered) -> (r: Json)
    ensures
        r@ == last_run_of_spec(g.deep_view()),
{
    match &g.last_run {
        Some(t) => Json::text(t.as_str()),
        None => Json::Null,
    }
}

/// How the bot is doing.
pub open spec fn health_spec(
    cfg: SnapshotConfigView,
    g: GatheredView,
    errors: Seq<Seq<char>>,
) -> Doc {
    let live = if cfg.live_trading_enabled {
        "yes"@
    } else {
        "no"@
    };
    let dep = match g.deploy {
        Some(v) => v,
        None => no_deploys_spec(),
    };
    let aud = match g.audit {
        Some(v) => v,
        None => no_audit_spec(),
    };
    Doc::obj().with("mode"@, Doc::Str(cfg.trade_mode)).with("live_enabled"@, Doc::Str(live)).with(
        "halt"@,
        Doc::Bool(g.halted),
    ).with(
        "last_run"@,
        last_run_of_spec(g),
    ).with(
        "daily"@,
        daily_of_spec(g),
    ).with(
        "errors"@,
        Doc::Arr(error_docs_spec(errors)),
    ).with(
        "deploy"@,
        dep,
    ).with(
        "audit"@,
        aud,
    )
}

fn health(cfg: &SnapshotConfig, g: &Gathered, errors: &Vec<String>) -> (r: Json)
    ensures
        r@ == health_spec(cfg.deep_view(), g.deep_view(), errors.deep_view()),
{
    let live = if cfg.live_trading_enabled {
        "yes"
    } else {
        "no"
    };
    let dep = match g.deploy.dup() {
        Some(v) => v,
        None => no_deploys(),
    };
    let aud = match g.audit.dup() {
        Some(v) => v,
        None => no_audit(),
    };
    Json::obj().with("mode", Json::text(cfg.trade_mode.as_str())).with(
        "live_enabled",
        Json::text(live),
    ).with(
        "halt",
        Json::Bool(g.halted),
    ).with(
        "last_run",
        last_run_of(g),
    ).with(
        "daily",
        daily_of(g),
    ).with(
        "errors",
        json::array(error_docs(errors)),
    ).with(
        "deploy",
        dep,
    ).with(
        "audit",
        aud,
    )
}

/// The first `n` of them.
pub open spec fn take_row_spec(xs: Seq<(Seq<char>, Doc)>, out: Seq<Doc>, n: nat) -> Seq<Doc> {
    out + Seq::new(
        n,
        |i: int| {
            let it = xs[i];
            let c = it.1;
            c
        },
    )
}

fn take_row(xs: &Vec<(String, Json)>, out: Vec<Json>) -> (r: Vec<Json>)
    ensures
        r.deep_view() == take_row_spec(xs.deep_view(), out.deep_view(), xs@.len()),
{
    let ghost out0 = out.deep_view();
    let mut out = out;
    let mut i: usize = 0;
    while i < xs.len()
        invariant
            i <= xs@.len(),
            out.deep_view() == take_row_spec(xs.deep_view(), out0, i as nat),
        decreases xs@.len() - i,
    {
        let it = &xs[i];
        let c = &it.1;
        list::push(&mut out, c.copy());
        assert(out.deep_view() =~= take_row_spec(xs.deep_view(), out0, (i + 1) as nat));
        i = i + 1;
    }
    out
}

/// The rows of the coins.
pub open spec fn rows_only_spec(coins: Seq<(Seq<char>, Doc)>) -> Seq<Doc> {
    take_row_spec(coins, Seq::<Doc>::empty(), coins.len())
}

fn rows_only(coins: &Vec<(String, Json)>) -> (r: Vec<Json>)
    ensures
        r.deep_view() == rows_only_spec(coins.deep_view()),
{
    let mut out: Vec<Json> = list::none();
    out = take_row(coins, out);
    out
}

/// A snapshot: the log lines before it is written, what is written, the line after it, or why there is none.
#[derive(Debug)]
pub struct Built {
    pub lines: Vec<String>,
    pub snapshot: Option<Json>,
    pub wrote: String,
    pub fault: Option<String>,
}

/// What a [`Built`] holds.
pub struct BuiltView {
    pub lines: Seq<Seq<char>>,
    pub snapshot: Option<Doc>,
    pub wrote: Seq<char>,
    pub fault: Option<Seq<char>>,
}

impl DeepView for Built {
    type V = BuiltView;

    open spec fn deep_view(&self) -> BuiltView {
        BuiltView {
            lines: self.lines.deep_view(),
            snapshot: self.snapshot.deep_view(),
            wrote: self.wrote@,
            fault: self.fault.deep_view(),
        }
    }
}

/// No snapshot.
pub open spec fn none_built_spec(lines: Seq<Seq<char>>, why: Seq<char>) -> BuiltView {
    BuiltView { lines, snapshot: None, wrote: ""@, fault: Some(why) }
}

fn none_built(lines: Vec<String>, why: &str) -> (r: Built)
    ensures
        r.deep_view() == none_built_spec(lines.deep_view(), why@),
{
    Built { lines, snapshot: None, wrote: text::owned(""), fault: Some(text::owned(why)) }
}

/// The log line after a snapshot is written.
pub open spec fn wrote_line_spec(
    d: DashConfigView,
    n: usize,
    value: Double,
    s: Stables,
    errors: usize,
) -> Seq<char> {
    let path = crate::dashboard::path_join_spec(d.public_dir, "data.json"@);
    "wrote "@
        + path
        + " | "@
        + text::dec(n as nat)
        + " coins | value $"@
        + crate::watch::pyfmt::fixed_spec(value, 2)
        + " | stable $"@
        + crate::watch::pyfmt::fixed_spec(s.bag, 2)
        + " (locked $"@
        + crate::watch::pyfmt::fixed_spec(s.locked, 2)
        + ") | errors "@
        + text::dec(errors as nat)
}

fn wrote_line(d: &DashConfig, n: usize, value: Double, s: Stables, errors: usize) -> (r: String)
    ensures
        r@ == wrote_line_spec(d.deep_view(), n, value, s, errors),
{
    let path = crate::dashboard::path_join(d.public_dir.as_str(), "data.json");
    let mut line = text::owned("wrote ");
    line.push_str(path.as_str());
    line.push_str(" | ");
    line.push_str(text::dec_u64(n as u64).as_str());
    line.push_str(" coins | value $");
    line.push_str(crate::watch::pyfmt::fixed(value, 2).as_str());
    line.push_str(" | stable $");
    line.push_str(crate::watch::pyfmt::fixed(s.bag, 2).as_str());
    line.push_str(" (locked $");
    line.push_str(crate::watch::pyfmt::fixed(s.locked, 2).as_str());
    line.push_str(") | errors ");
    line.push_str(text::dec_u64(errors as u64).as_str());
    line
}

/// What everything comes to.
pub open spec fn portfolio_json_spec(coins: Seq<CoinView>, s: Stables, sold: Num) -> Doc {
    Doc::obj().with("total_value"@, Doc::Float(total_value_spec(coins))).with(
        "stable_bag"@,
        Doc::Float(s.bag),
    ).with(
        "stable_locked"@,
        Doc::Float(s.locked),
    ).with(
        "unrealized_pnl"@,
        Doc::Float(unrealized_spec(coins)),
    ).with(
        "realized_proceeds"@,
        sold.json_spec(),
    )
}

fn portfolio_json(coins: &Vec<Coin>, s: Stables, sold: Num) -> (r: Json)
    ensures
        r@ == portfolio_json_spec(coins.deep_view(), s, sold),
{
    Json::obj().with("total_value", Json::Float(total_value(coins))).with(
        "stable_bag",
        Json::Float(s.bag),
    ).with(
        "stable_locked",
        Json::Float(s.locked),
    ).with(
        "unrealized_pnl",
        Json::Float(unrealized(coins)),
    ).with(
        "realized_proceeds",
        sold.json(),
    )
}

/// A snapshot, once all of it is known.
pub open spec fn assembled_spec(
    cfg: SnapshotConfigView,
    d: DashConfigView,
    g: GatheredView,
    coins: Seq<CoinView>,
    dec: DecidedView,
    churn: ChurnPartView,
    s: Stables,
    sold: Num,
    card: Option<Card>,
    errors: Seq<Seq<char>>,
    lines: Seq<Seq<char>>,
) -> BuiltView {
    let log = order_log_spec(cfg, d, g, rows_of_spec(g.journal));
    let errors = match log.error {
        Some(e) => errors.push(e),
        None => errors,
    };
    let snap = Doc::obj().with("generated"@, Doc::Str(g.generated)).with(
        "health"@,
        health_spec(cfg, g, errors),
    ).with(
        "portfolio"@,
        portfolio_json_spec(coins, s, sold),
    ).with(
        "coins"@,
        Doc::Arr(rows_only_spec(dec.coins)),
    ).with(
        "order_log"@,
        Doc::Arr(log.rows),
    ).with(
        "funding"@,
        funding_spec(g, card),
    ).with(
        "regime"@,
        regime_block_spec(cfg.routing, g.regime),
    ).with(
        "decisions"@,
        dec.block,
    ).with(
        "churn"@,
        churn.block,
    );
    BuiltView {
        lines,
        snapshot: Some(snap),
        wrote: wrote_line_spec(
            d,
            (coins.len() as usize),
            total_value_spec(coins),
            s,
            (errors.len() as usize),
        ),
        fault: None,
    }
}

fn assembled(
    cfg: &SnapshotConfig,
    d: &DashConfig,
    g: &Gathered,
    coins: &Vec<Coin>,
    dec: &Decided,
    churn: &ChurnPart,
    s: Stables,
    sold: Num,
    card: Option<Card>,
    errors: Vec<String>,
    lines: Vec<String>,
) -> (r: Built)
    ensures
        r.deep_view() == assembled_spec(
            cfg.deep_view(),
            d.deep_view(),
            g.deep_view(),
            coins.deep_view(),
            dec.deep_view(),
            churn.deep_view(),
            s,
            sold,
            card,
            errors.deep_view(),
            lines.deep_view(),
        ),
{
    let mut errors = errors;
    let log = order_log(cfg, d, g, &rows_of(&g.journal));
    match &log.error {
        Some(e) => {
            list::push(&mut errors, e.dup());
        },
        None => {},
    }
    let snap = Json::obj().with("generated", Json::text(g.generated.as_str())).with(
        "health",
        health(cfg, g, &errors),
    ).with(
        "portfolio",
        portfolio_json(coins, s, sold),
    ).with(
        "coins",
        json::array(rows_only(&dec.coins)),
    ).with(
        "order_log",
        json::array(log.rows.dup()),
    ).with(
        "funding",
        funding(g, card),
    ).with(
        "regime",
        regime_block(&cfg.routing, &g.regime),
    ).with(
        "decisions",
        dec.block.copy(),
    ).with(
        "churn",
        churn.block.copy(),
    );
    Built {
        lines,
        snapshot: Some(snap),
        wrote: wrote_line(d, coins.len(), total_value(coins), s, errors.len()),
        fault: None,
    }
}

/// A list with one more text, where there is one.
pub open spec fn with_text_spec(l: Seq<Seq<char>>, x: Option<Seq<char>>) -> Seq<Seq<char>> {
    match x {
        Some(t) => l.push(t),
        None => l,
    }
}

fn with_text(l: Vec<String>, x: Option<&str>) -> (r: Vec<String>)
    ensures
        r.deep_view() == with_text_spec(l.deep_view(), x.deep_view()),
{
    let mut l = l;
    match x {
        Some(t) => {
            list::push(&mut l, text::owned(t));
        },
        None => {},
    }
    l
}

/// A list with one more error, where there is one.
pub open spec fn with_error_spec(
    l: Seq<Seq<char>>,
    part: Seq<char>,
    x: Option<Seq<char>>,
) -> Seq<Seq<char>> {
    match x {
        Some(t) => l.push(part + ": "@ + t),
        None => l,
    }
}

fn with_error(l: Vec<String>, part: &str, x: Option<&str>) -> (r: Vec<String>)
    ensures
        r.deep_view() == with_error_spec(l.deep_view(), part@, x.deep_view()),
{
    let mut l = l;
    match x {
        Some(t) => {
            let mut line = text::owned(part);
            line.push_str(": ");
            line.push_str(t);
            list::push(&mut l, line);
        },
        None => {},
    }
    l
}

/// A snapshot, once its coins are known.
pub open spec fn built_from_spec(
    cfg: SnapshotConfigView,
    d: DashConfigView,
    g: GatheredView,
    coins: Seq<CoinView>,
    card: Option<Card>,
) -> BuiltView {
    let near = nearest_first_spec(coins);
    let churn = churn_part_spec(g);
    let lines = with_text_spec(Seq::<Seq<char>>::empty(), churn.line);
    let lines = lines.push(sell_check_line_spec(near));
    let rows = rows_of_spec(g.journal);
    let dec = decisions_spec(g, rows, near);
    let errors = with_text_spec(read_errors_spec(g), churn.error);
    let errors = with_error_spec(errors, "decisions"@, dec.error);
    match stables_spec(g) {
        Ok(s) => match realized_spec(rows) {
            Ok(sold) => assembled_spec(cfg, d, g, coins, dec, churn, s, sold, card, errors, lines),
            Err(e) => none_built_spec(lines, e),
        },
        Err(e) => none_built_spec(lines, e),
    }
}

fn built_from(
    cfg: &SnapshotConfig,
    d: &DashConfig,
    g: &Gathered,
    coins: &Vec<Coin>,
    card: Option<Card>,
) -> (r: Built)
    ensures
        r.deep_view() == built_from_spec(
            cfg.deep_view(),
            d.deep_view(),
            g.deep_view(),
            coins.deep_view(),
            card,
        ),
{
    let near = nearest_first(coins);
    let churn = churn_part(g);
    let mut lines: Vec<String> = list::none();
    lines = with_text(lines, list::text_ref(&churn.line.dup()));
    list::push(&mut lines, sell_check_line(&near));
    let rows = rows_of(&g.journal);
    let dec = decisions(g, &rows, &near);
    let mut errors = with_text(read_errors(g), list::text_ref(&churn.error.dup()));
    errors = with_error(errors, "decisions", list::text_ref(&dec.error.dup()));
    match stables(g) {
        Ok(s) => match realized(&rows) {
            Ok(sold) => assembled(cfg, d, g, coins, &dec, &churn, s, sold, card, errors, lines),
            Err(e) => none_built(lines, e.as_str()),
        },
        Err(e) => none_built(lines, e.as_str()),
    }
}

/// The snapshot of what was gathered, the sell checks and the onramp card that it needs being given. An
/// error means that nothing is written.
pub open spec fn run_spec(
    cfg: SnapshotConfigView,
    d: DashConfigView,
    g: GatheredView,
    checks: Seq<(Seq<char>, SellCheckView)>,
    card: Option<Card>,
) -> BuiltView {
    match coin_rows_spec(cfg, g, checks) {
        Ok(coins) => built_from_spec(cfg, d, g, coins, card),
        Err(e) => none_built_spec(Seq::<Seq<char>>::empty(), e),
    }
}

/// The snapshot of what was gathered, the sell checks and the onramp card that it needs being given. An
/// error means that nothing is written.
pub fn run(
    cfg: &SnapshotConfig,
    d: &DashConfig,
    g: &Gathered,
    checks: &Vec<(String, SellCheck)>,
    card: Option<Card>,
) -> (r: Built)
    ensures
        r.deep_view() == run_spec(
            cfg.deep_view(),
            d.deep_view(),
            g.deep_view(),
            checks.deep_view(),
            card,
        ),
{
    match coin_rows(cfg, g, checks) {
        Ok(coins) => built_from(cfg, d, g, &coins, card),
        Err(e) => {
            let none: Vec<String> = list::none();
            none_built(none, e.as_str())
        },
    }
}

proof fn lemma_find_entry(sym: Seq<char>, xs: Seq<(Seq<char>, Doc)>, n: nat)
    requires
        n <= xs.len(),
    ensures
        find_entry_spec(sym, xs, false, n) == exists|i: int| 0 <= i < n && (#[trigger] xs[i]).0 == sym,
    decreases n,
{
    if n > 0 {
        lemma_find_entry(sym, xs, (n - 1) as nat);
        assert(xs[n - 1].0 == sym || xs[n - 1].0 != sym);
    }
}

proof fn lemma_add_last(max_age_s: Double, now: Double, xs: Seq<Doc>, n: nat)
    requires
        n <= xs.len(),
    ensures
        ({
            let out = add_last_spec(max_age_s, now, xs, Seq::empty(), None, n).0;
            &&& forall|i: int| 0 <= i < out.len() ==> !is_run_spec((#[trigger] out[i]).1)
            &&& forall|i: int, j: int|
                0 <= i < j < out.len() ==> (#[trigger] out[i]).0 != (#[trigger] out[j]).0
        }),
    decreases n,
{
    if n > 0 {
        lemma_add_last(max_age_s, now, xs, (n - 1) as nat);
        let before = add_last_spec(max_age_s, now, xs, Seq::empty(), None, (n - 1) as nat).0;
        let r = xs[n - 1];
        lemma_find_entry(r.get_or_null("sym"@).py_str(), before, before.len());
    }
}

/// The last decisions name each coin once, and none of them is of a run.
pub proof fn law_one_decision_per_coin(
    recs: Seq<Doc>,
    now: Double,
    max_age_s: Double,
    i: int,
    j: int,
)
    requires
        last_per_coin_spec(recs, now, max_age_s) is Ok,
        0 <= i < j < last_per_coin_spec(recs, now, max_age_s)->Ok_0.len(),
    ensures
        last_per_coin_spec(recs, now, max_age_s)->Ok_0[i].0 != last_per_coin_spec(
            recs,
            now,
            max_age_s,
        )->Ok_0[j].0,
        !is_run_spec(last_per_coin_spec(recs, now, max_age_s)->Ok_0[i].1),
        !is_run_spec(last_per_coin_spec(recs, now, max_age_s)->Ok_0[j].1),
{
    lemma_add_last(max_age_s, now, recs.reverse(), recs.len());
}

/// A reading that was kept for half an hour or longer is not served: the error is.
pub proof fn law_an_old_reading_is_not_served(c: Doc, ts: Double, why: Seq<char>, now: Double)
    requires
        c.get_or_null("ts"@).num() == Some(ts),
        !now.sub_spec(ts).lt_spec(Double::int_spec(1800)),
    ensures
        from_cache_spec(Some(c), why, now) == Doc::obj().with("error"@, Doc::Str(why)),
{
}

/// An account that could not be read counts as empty, and its error stands in for the onramp card.
pub proof fn law_an_unread_account_counts_as_empty(
    g: GatheredView,
    cur: Seq<char>,
    key: Seq<char>,
    card: Option<Card>,
)
    requires
        g.revx.get_or_null("error"@).truthy(),
    ensures
        rx_spec(g, cur, key) == Ok::<Double, Seq<char>>(Double::zero_spec()),
        !rx_quotes_spec(g, cur),
        funding_spec(g, card) == Doc::obj().with("error"@, g.revx.get_or_null("error"@)),
{
}

/// A journal file that cannot be read, or holds no object, is refused; one that is not there is empty.
pub proof fn law_an_unreadable_journal_is_refused(path: Seq<char>, got: Result<Doc, Seq<char>>)
    ensures
        read_journal_spec(path, false, got) == Ok::<Doc, Seq<char>>(Doc::obj()),
        got is Err ==> read_journal_spec(path, true, got) is Err,
        got is Ok ==> (read_journal_spec(path, true, got) is Ok <==> got->Ok_0 is Obj),
{
}

proof fn lemma_at_most(most: usize, xs: Seq<Doc>, n: nat)
    requires
        n <= xs.len() <= usize::MAX,
    ensures
        add_at_most_spec(most, xs, Seq::empty(), n).len() == if n <= most {
            n
        } else {
            most as nat
        },
    decreases n,
{
    if n > 0 {
        lemma_at_most(most, xs, (n - 1) as nat);
    }
}

/// The order log holds every resting order, and no more than sixty fills behind them.
pub proof fn law_the_log_holds_sixty_fills(
    cfg: SnapshotConfigView,
    d: DashConfigView,
    g: GatheredView,
    rows: Seq<Doc>,
    fills: Seq<Doc>,
)
    requires
        fills == shown_fills_spec(cfg, d, g, rows),
        fills.len() <= usize::MAX,
    ensures
        order_log_spec(cfg, d, g, rows).rows == open_log_spec(cfg.routing, d, newest_first_spec(rows))
            + at_most_spec(fills, 60),
        at_most_spec(fills, 60).len() <= 60,
{
    lemma_at_most(60, fills, fills.len());
}

proof fn lemma_taken(xs: Seq<(Double, Doc)>, n: nat)
    requires
        n <= xs.len(),
    ensures
        take_by_key_spec(xs, Seq::empty(), n).len() == n,
        forall|i: int|
            0 <= i < n ==> #[trigger] take_by_key_spec(xs, Seq::empty(), n)[i] == xs[i].1,
    decreases n,
{
    if n > 0 {
        lemma_taken(xs, (n - 1) as nat);
    }
}

proof fn lemma_dated(xs: Seq<Doc>, n: nat)
    requires
        n <= xs.len(),
    ensures
        add_dated_spec(xs, Seq::empty(), n).len() == n,
        forall|i: int|
            0 <= i < n ==> #[trigger] add_dated_spec(xs, Seq::empty(), n)[i] == (
                sort_key_spec(ord_ts_spec(xs[i])),
                xs[i],
            ),
    decreases n,
{
    if n > 0 {
        lemma_dated(xs, (n - 1) as nat);
    }
}

/// The log runs from the newest to the oldest and holds every row.
pub proof fn law_the_newest_comes_first(rows: Seq<Doc>, k: int)
    requires
        0 <= k < rows.len(),
    ensures
        newest_first_spec(rows).len() == rows.len(),
        newest_first_spec(rows).contains(rows[k]),
        k + 1 < rows.len() ==> sort_key_spec(ord_ts_spec(newest_first_spec(rows)[k + 1])).rank()
            <= sort_key_spec(ord_ts_spec(newest_first_spec(rows)[k])).rank(),
{
    let keyed = add_dated_spec(rows, Seq::empty(), rows.len());
    lemma_dated(rows, rows.len());
    let less = order::by_rank_down(list::firsts(keyed));
    let o = order::sorted_by(keyed.len(), less);
    order::lemma_sorted_places(keyed.len(), less);
    let sorted = list::sorted_down(keyed);
    lemma_taken(sorted, sorted.len());
    let out = newest_first_spec(rows);
    assert(o.contains(k));
    let x = choose|x: int| 0 <= x < o.len() && o[x] == k;
    assert(out[x] == rows[k]);
    if k + 1 < rows.len() {
        order::lemma_sorted_in_order(keyed.len(), less, k);
        assert(0 <= o[k] < keyed.len() && 0 <= o[k + 1] < keyed.len());
        assert(out[k] == rows[o[k]] && out[k + 1] == rows[o[k + 1]]);
    }
}

/// An order is below the market by more than nothing exactly where its price is under it, by nothing
/// at it, and the further the lower it is.
pub proof fn law_a_lower_order_is_further_below(spot: Double, low: Double, high: Double)
    requires
        spot.finite(),
        low.finite(),
        high.finite(),
        spot.amount() > 0,
        0 < low.amount() <= high.amount(),
        low.div_spec(spot).finite(),
        high.div_spec(spot).finite(),
    ensures
        below_spot_spec(Some(spot), low) matches Some(a) && (below_spot_spec(Some(spot), high) matches Some(
            b,
        ) && {
            &&& b.le_spec(a)
            &&& a.amount() > 0 <==> low.amount() < spot.amount()
            &&& low.amount() == spot.amount() ==> a.amount() == 0
            &&& a.amount() <= 100 * crate::double::unit()
        }),
{
    crate::double::lemma_scaled_zero();
    rounding::lemma_depth(low, spot);
    rounding::lemma_depth(high, spot);
    rounding::lemma_depth_order(low, high, spot);
}

/// A gain is below zero exactly where the price is under its base, and nothing at it.
pub proof fn law_a_price_under_its_base_is_a_loss(price: Double, base: Double)
    requires
        price.finite(),
        base.finite(),
        price.amount() >= 0,
        base.amount() > 0,
        price.div_spec(base).finite(),
    ensures
        gain_pct_spec(Some(price), Some(base)) matches Some(g) && {
            &&& g.amount() < 0 <==> price.amount() < base.amount()
            &&& price.amount() == base.amount() ==> g.amount() == 0
        },
        gain_pct_spec(None, Some(base)) is None,
        gain_pct_spec(Some(price), None) is None,
{
    rounding::lemma_change(price, base);
}

/// What a holding has gained is below zero only where the price is under the cost, and above zero
/// only where it is over it; what it is worth is its amount at the price, but for rounding.
pub proof fn law_a_holding_gains_over_its_cost(price: Double, cost: Double, held: Double)
    requires
        price.finite(),
        cost.finite(),
        held.finite(),
        held.amount() >= crate::double::unit(),
        price.amount() >= 0,
        cost.amount() >= 0,
    ensures
        gain_of_spec(Some(price), Some(cost), held) matches Some(g) && {
            &&& g.amount() < 0 <==> price.amount() < cost.amount()
            &&& g.amount() > 0 <==> price.amount() > cost.amount()
        },
        worth_of_spec(Some(price), held).finite() ==> rounding::grain() * rounding::size(
            worth_of_spec(Some(price), held).amount() * crate::double::unit() - price.amount()
                * held.amount(),
        ) <= crate::double::unit() * (worth_of_spec(Some(price), held).amount()
            + rounding::least()),
        worth_of_spec(Some(price), held).amount() >= price.amount(),
        worth_of_spec(None, held).amount() == 0,
{
    crate::double::lemma_scaled_zero();
    vstd::arithmetic::power2::lemma_pow2_pos(1074);
    rounding::lemma_sub_sign(price, cost);
    let d = price.sub_spec(cost);
    let m = if price.amount() < cost.amount() {
        cost
    } else {
        price
    };
    rounding::lemma_add_within(price, cost.neg_spec(), m);
    rounding::lemma_times_more(d, held);
    rounding::lemma_mul_swaps(d, held);
    rounding::lemma_times_more(price, held);
    rounding::lemma_mul_swaps(price, held);
    if held.mul_spec(price).finite() {
        rounding::lemma_mul_error(held, price);
        let a = held.amount();
        let b = price.amount();
        assert(a * b == b * a) by (nonlinear_arith);
    }
}

/// The price at which a coin is sold is its cost with the percentage on it: the cost itself with
/// none, twice the cost with a hundred, and more with more.
pub proof fn law_a_target_is_over_its_cost(cost: Double, less: Double, more: Double)
    requires
        cost.finite(),
        cost.amount() >= 0,
        less.finite(),
        more.finite(),
        0 <= less.amount() <= more.amount() <= 100 * crate::double::unit(),
    ensures
        target_of_spec(Some(cost), less) matches Some(a) && (target_of_spec(Some(cost), more) matches Some(
            b,
        ) && {
            &&& cost.le_spec(a)
            &&& a.le_spec(b)
            &&& less.amount() == 0 ==> a.amount() == cost.amount()
            &&& more.amount() == 100 * crate::double::unit() ==> b.amount() == cost.mul_spec(
                Double::int_spec(2),
            ).amount()
        }),
        target_of_spec(None, less) is None,
{
    rounding::lemma_markup(cost, less, more);
}

/// The middle between bid and ask is half of both, but for rounding.
pub proof fn law_the_middle_is_half_of_bid_and_ask(r: Doc, bid: Double, ask: Double)
    requires
        r.get_or_null("bid"@).to_float() == Some(bid),
        r.get_or_null("ask"@).to_float() == Some(ask),
        bid.finite(),
        ask.finite(),
        bid.amount() > 0,
        ask.amount() > 0,
        bid.add_spec(ask).finite(),
        bid.add_spec(ask).div_spec(Double::int_spec(2)).finite(),
    ensures
        both_sides_spec(r) matches Some(m) && rounding::grain() * rounding::size(
            2 * m.amount() - bid.amount() - ask.amount(),
        ) <= 2 * m.amount() + 2 * (bid.amount() + ask.amount()) + 8 * rounding::least(),
{
    crate::double::lemma_scaled_zero();
    rounding::lemma_middle(bid, ask);
}

/// A euro and the USDC it is quoted in are each other's inverse, but for rounding.
pub proof fn law_a_euro_is_the_inverse_of_its_quote(mids: Doc, m: Double)
    requires
        mids.get_or_null("USDC/EUR"@).num() == Some(m),
        m.finite(),
        m.amount() > 0,
    ensures
        euro_of_spec(mids) matches Some(e) && (e.finite() ==> rounding::grain() * rounding::size(
            e.amount() * m.amount() - crate::double::unit() * crate::double::unit(),
        ) <= m.amount() * (rounding::size(e.amount()) + rounding::least())),
{
    crate::double::lemma_scaled_zero();
    rounding::lemma_one_is_exact();
    if Double::int_spec(1).div_spec(m).finite() {
        rounding::lemma_div_error(Double::int_spec(1), m);
    }
}

/// The free USDC and the reserved one make all of it, but for rounding.
pub proof fn law_free_and_reserved_usdc_make_the_total(
    g: GatheredView,
    total: Double,
    reserved: Double,
)
    requires
        rx_spec(g, "USDC"@, "total"@) == Ok::<Double, Seq<char>>(total),
        rx_spec(g, "USDC"@, "reserved"@) == Ok::<Double, Seq<char>>(reserved),
        total.finite(),
        reserved.finite(),
    ensures
        stables_spec(g) matches Ok(s) ==> {
            &&& s.usdc_free.amount() > 0 <==> reserved.amount() < total.amount()
            &&& s.usdc_free.finite() ==> rounding::grain() * rounding::size(
                s.usdc_free.amount() + reserved.amount() - total.amount(),
            ) <= rounding::size(s.usdc_free.amount()) + rounding::least()
        },
{
    rounding::lemma_sub_sign(total, reserved);
    if total.sub_spec(reserved).finite() {
        rounding::lemma_sub_error(total, reserved);
    }
}

/// What Gate holds of an asset is what is free and what is locked of it together.
pub proof fn law_free_and_locked_make_the_balance(g: GatheredView, sym: Seq<char>)
    requires
        gate_balance_spec(g, sym).free.finite(),
        gate_balance_spec(g, sym).locked.finite(),
        whole_balance_spec(g, sym).finite(),
    ensures
        rounding::grain() * rounding::size(
            whole_balance_spec(g, sym).amount() - gate_balance_spec(g, sym).free.amount()
                - gate_balance_spec(g, sym).locked.amount(),
        ) <= rounding::size(whole_balance_spec(g, sym).amount()) + rounding::least(),
{
    rounding::lemma_add_error(gate_balance_spec(g, sym).free, gate_balance_spec(g, sym).locked);
}

} // verus!
