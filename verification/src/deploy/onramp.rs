//! The Revolut X onramp: EUR -> USDC -> USD, keeping the pending transfer to Gate in USDC, with
//! an in-flight guard while it travels; and Gate's USDC turned into USDT.
use crate::deploy;
use crate::deploy::{Answer, AnswerView, Ask, AskView, Config, ConfigView, Deposit, DepositView, Work, WorkView};
use crate::double::Double;
use crate::housekeeping::{Route, RouteView};
use crate::list;
use crate::list::Duplicate;
use crate::pyfmt;
use crate::rounding;
use crate::text;
use crate::venue::Balance;
use crate::watch::json;
use crate::watch::json::{Doc, Json};
use vstd::prelude::*;

verus! {

/// A top-up-in-flight marker: a non-empty object. Anything else is no marker.
pub open spec fn inflight_marker_spec(v: Option<Doc>) -> bool {
    match v {
        Some(d) => d is Obj && !(d.entries().len() == 0),
        None => false,
    }
}

/// A top-up-in-flight marker: a non-empty object. Anything else is no marker.
pub fn inflight_marker(v: Option<&Json>) -> (r: bool)
    ensures
        r == inflight_marker_spec(v.deep_view()),
{
    let d = match v {
        Some(v) => v,
        None => {
            return false;
        },
    };
    d.is_obj() && !(json::entries(d).len() == 0)
}

/// Of the first `n` deposits.
pub open spec fn add_landed_spec(
    since: Double,
    xs: Seq<DepositView>,
    out: Seq<Double>,
    n: nat,
) -> Seq<Double> {
    out + list::gathered(
        xs,
        |r: DepositView| {
            let cur = match r.currency {
                Some(v) => v,
                None => ""@,
            };
            if (cur == "USDC"@ || cur == "USDT"@)
                && (match r.status {
                    Some(v) => v,
                    None => ""@,
                })
                    == "DONE"@
                && since.le_spec(r.ts) {
                Some(r.amount)
            } else {
                None
            }
        },
        n,
    )
}

fn add_landed(since: Double, xs: &Vec<Deposit>, out: Vec<Double>) -> (r: Vec<Double>)
    ensures
        r.deep_view() == add_landed_spec(since, xs.deep_view(), out.deep_view(), xs@.len()),
{
    let ghost out0 = out.deep_view();
    let mut out = out;
    let mut i: usize = 0;
    while i < xs.len()
        invariant
            i <= xs@.len(),
            out.deep_view() == add_landed_spec(since, xs.deep_view(), out0, i as nat),
        decreases xs@.len() - i,
    {
        let r = &xs[i];
        let cur = match &r.currency {
            Some(v) => text::owned(v.as_str()),
            None => text::owned(""),
        };
        if (text::same(cur.as_str(), "USDC") || text::same(cur.as_str(), "USDT"))
            && text::same(
                (match &r.status {
                    Some(v) => text::owned(v.as_str()),
                    None => text::owned(""),
                }).as_str(),
                "DONE",
            )
            && since.le(r.ts) {
            list::push(&mut out, r.amount);
        }
        assert(out.deep_view() =~= add_landed_spec(since, xs.deep_view(), out0, (i + 1) as nat));
        i = i + 1;
    }
    out
}

/// The stable deposits that were credited since a time.
pub open spec fn landed_amounts_spec(rows: Seq<DepositView>, since: Double) -> Seq<Double> {
    add_landed_spec(since, rows, Seq::<Double>::empty(), rows.len())
}

fn landed_amounts(rows: &Vec<Deposit>, since: Double) -> (r: Vec<Double>)
    ensures
        r.deep_view() == landed_amounts_spec(rows.deep_view(), since),
{
    let mut out: Vec<Double> = list::none();
    out = add_landed(since, rows, out);
    out
}

/// Stable credited on Gate since `since`, from Gate's own deposit history; none when the venue
/// cannot say.
pub open spec fn gate_landed_spec(
    w: WorkView,
    since: Double,
    answers: Seq<AnswerView>,
) -> (WorkView, Option<Double>) {
    let (w1, missing) = deploy::reach_spec(w, "gate"@, answers);
    if deploy::stopped_spec(w1) || missing is Some {
        (w1, None)
    } else {
        let (w2, a) = deploy::asked_spec(w1, AskView::Deposits(since), answers);
        match a {
            AnswerView::Deposits(rows) => (
                w2,
                Some(crate::watch::pyfmt::sum_spec(landed_amounts_spec(rows, since))),
            ),
            _ => (w2, None),
        }
    }
}

fn gate_landed(w: Work, since: Double, answers: &Vec<Answer>) -> (r: (Work, Option<Double>))
    ensures
        r.deep_view() == gate_landed_spec(w.deep_view(), since, answers.deep_view()),
{
    let (w1, missing) = deploy::reach(w, "gate", answers);
    if deploy::stopped(&w1) || missing.is_some() {
        return (w1, None);
    }
    let (w2, a) = deploy::asked(w1, Ask::Deposits(since), answers);
    match a {
        Answer::Deposits(rows) => (w2, Some(list::sum(&landed_amounts(&rows, since)))),
        _ => (w2, None),
    }
}

/// The first `n` of them.
pub open spec fn add_alloc_spec(
    xs: Seq<(Seq<char>, Double)>,
    out: Seq<(Seq<char>, Double)>,
    n: nat,
) -> Seq<(Seq<char>, Double)> {
    out + Seq::new(
        n,
        |i: int| {
            let it = xs[i];
            let k = it.0;
            let v = it.1;
            (text::upper_case(k), v)
        },
    )
}

fn add_alloc(xs: &Vec<(String, Double)>, out: Vec<(String, Double)>) -> (r: Vec<(String, Double)>)
    ensures
        r.deep_view() == add_alloc_spec(xs.deep_view(), out.deep_view(), xs@.len()),
{
    let ghost out0 = out.deep_view();
    let mut out = out;
    let mut i: usize = 0;
    while i < xs.len()
        invariant
            i <= xs@.len(),
            out.deep_view() == add_alloc_spec(xs.deep_view(), out0, i as nat),
        decreases xs@.len() - i,
    {
        let it = &xs[i];
        let k = it.0.as_str();
        let v = it.1;
        list::push(&mut out, (text::uppercase(k), v));
        assert(out.deep_view() =~= add_alloc_spec(xs.deep_view(), out0, (i + 1) as nat));
        i = i + 1;
    }
    out
}

/// The allocation, by name in capitals.
pub open spec fn upper_alloc_spec(cfg: ConfigView) -> Seq<(Seq<char>, Double)> {
    add_alloc_spec(cfg.deploy_alloc, Seq::<(Seq<char>, Double)>::empty(), cfg.deploy_alloc.len())
}

fn upper_alloc(cfg: &Config) -> (r: Vec<(String, Double)>)
    ensures
        r.deep_view() == upper_alloc_spec(cfg.deep_view()),
{
    let mut out: Vec<(String, Double)> = list::none();
    out = add_alloc(&cfg.deploy_alloc, out);
    out
}

/// The first `n` of them.
pub open spec fn add_venue_route_spec(
    xs: Seq<RouteView>,
    out: Seq<(Seq<char>, Seq<char>)>,
    n: nat,
) -> Seq<(Seq<char>, Seq<char>)> {
    out + Seq::new(
        n,
        |i: int| {
            let r = xs[i];
            (r.sym, r.exch)
        },
    )
}

fn add_venue_route(xs: &Vec<Route>, out: Vec<(String, String)>) -> (r: Vec<(String, String)>)
    ensures
        r.deep_view() == add_venue_route_spec(xs.deep_view(), out.deep_view(), xs@.len()),
{
    let ghost out0 = out.deep_view();
    let mut out = out;
    let mut i: usize = 0;
    while i < xs.len()
        invariant
            i <= xs@.len(),
            out.deep_view() == add_venue_route_spec(xs.deep_view(), out0, i as nat),
        decreases xs@.len() - i,
    {
        let r = &xs[i];
        list::push(&mut out, (text::owned(r.sym.as_str()), text::owned(r.exch.as_str())));
        assert(out.deep_view() =~= add_venue_route_spec(xs.deep_view(), out0, (i + 1) as nat));
        i = i + 1;
    }
    out
}

/// The venue of each coin.
pub open spec fn venue_routes_spec(cfg: ConfigView) -> Seq<(Seq<char>, Seq<char>)> {
    add_venue_route_spec(cfg.routing, Seq::<(Seq<char>, Seq<char>)>::empty(), cfg.routing.len())
}

fn venue_routes(cfg: &Config) -> (r: Vec<(String, String)>)
    ensures
        r.deep_view() == venue_routes_spec(cfg.deep_view()),
{
    let mut out: Vec<(String, String)> = list::none();
    out = add_venue_route(&cfg.routing, out);
    out
}

/// What the pending Gate top-up needs.
pub open spec fn reserve_spec(
    w: WorkView,
    cfg: ConfigView,
    rx: Double,
    gate: Double,
    answers: Seq<AnswerView>,
) -> (WorkView, Double) {
    deploy::need_number_spec(
        w,
        AskView::Reserve(rx, gate, upper_alloc_spec(cfg), venue_routes_spec(cfg)),
        answers,
    )
}

/// What the pending Gate top-up needs.
pub fn reserve(
    w: Work,
    cfg: &Config,
    rx: Double,
    gate: Double,
    answers: &Vec<Answer>,
) -> (r: (Work, Double))
    ensures
        r.deep_view() == reserve_spec(
            w.deep_view(),
            cfg.deep_view(),
            rx,
            gate,
            answers.deep_view(),
        ),
{
    deploy::need_number(w, Ask::Reserve(rx, gate, upper_alloc(cfg), venue_routes(cfg)), answers)
}

/// A hand-edited or corrupt marker is read as no top-up in flight.
pub open spec fn drop_bad_marker_spec(w: WorkView) -> WorkView {
    let v = w.st.get_or_null("inflight"@);
    if v.truthy() && !(v is Obj) {
        let st = w.st;
        let st = st.removed("inflight"@);
        let w = WorkView { st, ..w };
        deploy::warn_spec(
            w,
            "deploy state: `inflight` is not an object ("@
                + v.dumps(None)
                + "), treated as no top-up in flight"@,
        )
    } else {
        w
    }
}

fn drop_bad_marker(w: Work) -> (r: Work)
    ensures
        r.deep_view() == drop_bad_marker_spec(w.deep_view()),
{
    let mut w = w;
    let v = w.st.get_copy("inflight");
    if v.truthy() && !v.is_obj() {
        let mut st = w.st.dup();
        st = json::without(st, "inflight");
        w.st = st;
        let mut line = text::owned("deploy state: `inflight` is not an object (");
        line.push_str(pyfmt::dumps(&v, None).as_str());
        line.push_str("), treated as no top-up in flight");
        return deploy::warn(w, line);
    }
    w
}

/// The USDC on Revolut X at the last run.
pub open spec fn staged_before_spec(st: Doc) -> Option<Double> {
    match st.get("offquote"@) {
        Some(o) => match o.get("revx:USDC"@) {
            Some(v) => v.num(),
            None => None,
        },
        None => None,
    }
}

fn staged_before(st: &Json) -> (r: Option<Double>)
    ensures
        r == staged_before_spec(st@),
{
    let o = match st.get("offquote") {
        Some(v) => v,
        None => {
            return None;
        },
    };
    let v = match o.get("revx:USDC") {
        Some(v) => v,
        None => {
            return None;
        },
    };
    v.num()
}

/// Gate's stable at the last run.
pub open spec fn gate_baseline_spec(st: Doc, gate_stable: Double) -> Double {
    match st.get("stable"@) {
        Some(s) => match s.get("gate"@) {
            Some(v) => match v.num() {
                Some(v) => v,
                None => Double::zero_spec(),
            },
            None => gate_stable,
        },
        None => gate_stable,
    }
}

fn gate_baseline(st: &Json, gate_stable: Double) -> (r: Double)
    ensures
        r == gate_baseline_spec(st@, gate_stable),
{
    match st.get("stable") {
        Some(s) => match s.get("gate") {
            Some(v) => match v.num() {
                Some(v) => v,
                None => Double::zero(),
            },
            None => gate_stable,
        },
        None => gate_stable,
    }
}

/// The number under a key, 0 where there is none.
pub open spec fn num_under_spec(o: Doc, k: Seq<char>) -> Double {
    deploy::num_or_zero_spec(o.get(k))
}

fn num_under(o: &Json, k: &str) -> (r: Double)
    ensures
        r == num_under_spec(o@, k@),
{
    deploy::num_or_zero(o.get(k))
}

/// A state with a top-up marked as in flight: added to one that already is.
pub open spec fn with_inflight_spec(
    st: Doc,
    left: Double,
    now: Double,
    since: Double,
    gate_stable: Double,
) -> Doc {
    if inflight_marker_spec(st.get("inflight"@)) {
        let fl = st.get_or_null("inflight"@);
        let amt = num_under_spec(fl, "amount"@).add_spec(left);
        let fl = fl.set("amount"@, Doc::Float(amt));
        st.set("inflight"@, fl)
    } else {
        let gate_at = gate_baseline_spec(st, gate_stable);
        st.set(
            "inflight"@,
            Doc::obj().with("amount"@, Doc::Float(left)).with("ts"@, Doc::Float(now)).with(
                "since"@,
                Doc::Float(since),
            ).with(
                "gate_stable_at"@,
                Doc::Float(gate_at),
            ),
        )
    }
}

fn with_inflight(
    st: Json,
    left: Double,
    now: Double,
    since: Double,
    gate_stable: Double,
) -> (r: Json)
    ensures
        r@ == with_inflight_spec(st@, left, now, since, gate_stable),
{
    let mut st = st;
    if inflight_marker(st.get("inflight")) {
        let mut fl = st.get_copy("inflight");
        let amt = num_under(&fl, "amount").plus(left);
        fl.set("amount", Json::Float(amt));
        st.set("inflight", fl);
        return st;
    }
    let gate_at = gate_baseline(&st, gate_stable);
    st.set(
        "inflight",
        Json::obj().with("amount", Json::Float(left)).with("ts", Json::Float(now)).with(
            "since",
            Json::Float(since),
        ).with(
            "gate_stable_at",
            Json::Float(gate_at),
        ),
    );
    st
}

/// Whether most of what left already landed.
pub open spec fn landed_enough_spec(landed: Option<Double>, left: Double) -> bool {
    match landed {
        Some(l) => Double::ratio_spec(8, 10).mul_spec(left).le_spec(l),
        None => false,
    }
}

fn landed_enough(landed: Option<Double>, left: Double) -> (r: bool)
    ensures
        r == landed_enough_spec(landed, left),
{
    let l = match landed {
        Some(v) => v,
        None => {
            return false;
        },
    };
    Double::ratio(8, 10).times(left).le(l)
}

/// The time a new marker is given; one that is there keeps its own.
pub open spec fn marker_time_spec(w: WorkView, answers: Seq<AnswerView>) -> (WorkView, Double) {
    if inflight_marker_spec(w.st.get("inflight"@)) {
        (w, Double::zero_spec())
    } else {
        deploy::need_number_spec(w, AskView::Now, answers)
    }
}

fn marker_time(w: Work, answers: &Vec<Answer>) -> (r: (Work, Double))
    ensures
        r.deep_view() == marker_time_spec(w.deep_view(), answers.deep_view()),
{
    if inflight_marker(w.st.get("inflight")) {
        return (w, Double::zero());
    }
    deploy::need_number(w, Ask::Now, answers)
}

/// USDC left the venue: where it did not already land on Gate, it is in flight.
pub open spec fn mark_departure_spec(
    w: WorkView,
    left: Double,
    since: Double,
    gate_stable: Double,
    answers: Seq<AnswerView>,
) -> WorkView {
    let (w1, landed) = gate_landed_spec(w, since, answers);
    if deploy::stopped_spec(w1) {
        w1
    } else if landed_enough_spec(landed, left) {
        let got = match landed {
            Some(v) => v,
            None => Double::zero_spec(),
        };
        deploy::done_spec(
            w1,
            "REVX: $"@
                + pyfmt::fixed_spec(left, 2)
                + " USDC left the venue and $"@
                + pyfmt::fixed_spec(got, 2)
                + " already landed on Gate -> no in-flight hold, reserve tracking continues"@,
        )
    } else {
        let (w2, now) = marker_time_spec(w1, answers);
        if deploy::stopped_spec(w2) {
            w2
        } else {
            let w2 = WorkView {
                st: with_inflight_spec(w2.st, left, now, since, gate_stable),
                ..w2
            };
            deploy::warn_spec(
                w2,
                "REVX: $"@
                    + pyfmt::fixed_spec(left, 2)
                    + " USDC left the venue -> Gate top-up in flight; the reserve is paused until it lands on Gate"@,
            )
        }
    }
}

fn mark_departure(
    w: Work,
    left: Double,
    since: Double,
    gate_stable: Double,
    answers: &Vec<Answer>,
) -> (r: Work)
    ensures
        r.deep_view() == mark_departure_spec(
            w.deep_view(),
            left,
            since,
            gate_stable,
            answers.deep_view(),
        ),
{
    let (w1, landed) = gate_landed(w, since, answers);
    if deploy::stopped(&w1) {
        return w1;
    }
    if landed_enough(landed, left) {
        let got = match landed {
            Some(v) => v,
            None => Double::zero(),
        };
        let mut line = text::owned("REVX: $");
        line.push_str(pyfmt::fixed(left, 2).as_str());
        line.push_str(" USDC left the venue and $");
        line.push_str(pyfmt::fixed(got, 2).as_str());
        line.push_str(" already landed on Gate -> no in-flight hold, reserve tracking continues");
        return deploy::done(w1, line);
    }
    let (mut w2, now) = marker_time(w1, answers);
    if deploy::stopped(&w2) {
        return w2;
    }
    w2.st = with_inflight(w2.st.dup(), left, now, since, gate_stable);
    let mut line2 = text::owned("REVX: $");
    line2.push_str(pyfmt::fixed(left, 2).as_str());
    line2.push_str(
        " USDC left the venue -> Gate top-up in flight; the reserve is paused until it lands on Gate",
    );
    deploy::warn(w2, line2)
}

/// Whether enough USDC left the venue since the last run.
pub open spec fn see_departure_spec(
    w: WorkView,
    cfg: ConfigView,
    usdc_now: Double,
    gate_stable: Double,
    prev_run: Double,
    answers: Seq<AnswerView>,
) -> WorkView {
    match staged_before_spec(w.st) {
        Some(prev) => if cfg.deploy_min_usd.le_spec(prev.sub_spec(usdc_now)) {
            mark_departure_spec(
                w,
                prev.sub_spec(usdc_now),
                prev_run.sub_spec(Double::int_spec(600)).max_spec(Double::zero_spec()),
                gate_stable,
                answers,
            )
        } else {
            w
        },
        None => w,
    }
}

fn see_departure(
    w: Work,
    cfg: &Config,
    usdc_now: Double,
    gate_stable: Double,
    prev_run: Double,
    answers: &Vec<Answer>,
) -> (r: Work)
    ensures
        r.deep_view() == see_departure_spec(
            w.deep_view(),
            cfg.deep_view(),
            usdc_now,
            gate_stable,
            prev_run,
            answers.deep_view(),
        ),
{
    match staged_before(&w.st) {
        Some(prev) => {
            if cfg.deploy_min_usd.le(prev.minus(usdc_now)) {
                return mark_departure(
                    w,
                    prev.minus(usdc_now),
                    prev_run.minus(Double::of_int(600)).max(Double::zero()),
                    gate_stable,
                    answers,
                );
            }
            w
        },
        None => w,
    }
}

/// Since when a marker's deposits count.
pub open spec fn since_of_spec(fl: Doc) -> Double {
    let s = num_under_spec(fl, "since"@);
    if !s.eq_spec(Double::zero_spec()) {
        s
    } else {
        num_under_spec(fl, "ts"@).sub_spec(Double::int_spec(1800))
    }
}

fn since_of(fl: &Json) -> (r: Double)
    ensures
        r == since_of_spec(fl@),
{
    let s = num_under(fl, "since");
    if !s.same(Double::zero()) {
        return s;
    }
    num_under(fl, "ts").minus(Double::of_int(1800))
}

/// Whether no top-up is in flight any more: it landed, or it has been travelling too long.
pub open spec fn see_landing_spec(
    w: WorkView,
    gate_stable: Double,
    answers: Seq<AnswerView>,
) -> (WorkView, bool) {
    if !inflight_marker_spec(w.st.get("inflight"@)) {
        (w, true)
    } else {
        let fl = w.st.get_or_null("inflight"@);
        let (w1, credited) = gate_landed_spec(w, since_of_spec(fl), answers);
        if deploy::stopped_spec(w1) {
            (w1, false)
        } else {
            let how = if credited is None {
                "Gate stable"@
            } else {
                "Gate deposits"@
            };
            let landed = match credited {
                Some(v) => v,
                None => gate_stable.sub_spec(num_under_spec(fl, "gate_stable_at"@)),
            };
            let (w2, now) = deploy::need_number_spec(w1, AskView::Now, answers);
            if deploy::stopped_spec(w2) {
                (w2, false)
            } else if Double::ratio_spec(8, 10).mul_spec(num_under_spec(fl, "amount"@)).le_spec(
                landed,
            )
                || Double::int_spec(172800).le_spec(now.sub_spec(num_under_spec(fl, "ts"@))) {
                let st = w2.st;
                let st = st.removed("inflight"@);
                (
                    deploy::done_spec(
                        WorkView { st, ..w2 },
                        "REVX: Gate top-up landed ("@
                            + how
                            + " +$"@
                            + pyfmt::fixed_spec(landed, 2)
                            + ") -> reserve tracking resumes"@,
                    ),
                    true,
                )
            } else {
                (w2, false)
            }
        }
    }
}

fn see_landing(w: Work, gate_stable: Double, answers: &Vec<Answer>) -> (r: (Work, bool))
    ensures
        r.deep_view() == see_landing_spec(w.deep_view(), gate_stable, answers.deep_view()),
{
    if !inflight_marker(w.st.get("inflight")) {
        return (w, true);
    }
    let fl = w.st.get_copy("inflight");
    let (w1, credited) = gate_landed(w, since_of(&fl), answers);
    if deploy::stopped(&w1) {
        return (w1, false);
    }
    let how = if credited.is_none() {
        "Gate stable"
    } else {
        "Gate deposits"
    };
    let landed = match credited {
        Some(v) => v,
        None => gate_stable.minus(num_under(&fl, "gate_stable_at")),
    };
    let (mut w2, now) = deploy::need_number(w1, Ask::Now, answers);
    if deploy::stopped(&w2) {
        return (w2, false);
    }
    if Double::ratio(8, 10).times(num_under(&fl, "amount")).le(landed)
        || Double::of_int(172800).le(now.minus(num_under(&fl, "ts"))) {
        let mut st = w2.st.dup();
        st = json::without(st, "inflight");
        w2.st = st;
        let mut line = text::owned("REVX: Gate top-up landed (");
        line.push_str(how);
        line.push_str(" +$");
        line.push_str(pyfmt::fixed(landed, 2).as_str());
        line.push_str(") -> reserve tracking resumes");
        return (deploy::done(w2, line), true);
    }
    (w2, false)
}

/// When the layer last ran; half an hour ago where that is not known.
pub open spec fn last_run_spec(w: WorkView, answers: Seq<AnswerView>) -> (WorkView, Double) {
    let ts = num_under_spec(w.st, "ts"@);
    if !ts.eq_spec(Double::zero_spec()) {
        (w, ts)
    } else {
        let (v, now) = deploy::need_number_spec(w, AskView::Now, answers);
        (v, now.sub_spec(Double::int_spec(1800)))
    }
}

fn last_run(w: Work, answers: &Vec<Answer>) -> (r: (Work, Double))
    ensures
        r.deep_view() == last_run_spec(w.deep_view(), answers.deep_view()),
{
    let ts = num_under(&w.st, "ts");
    if !ts.same(Double::zero()) {
        return (w, ts);
    }
    let (v, now) = deploy::need_number(w, Ask::Now, answers);
    (v, now.minus(Double::of_int(1800)))
}

/// USDC that must stay free on Revolut X for the pending Gate top-up, or 0 while a top-up travels
/// (the in-flight guard).
pub open spec fn onramp_keep_spec(
    w: WorkView,
    cfg: ConfigView,
    rxf: Seq<(Seq<char>, Balance)>,
    gtf: Seq<(Seq<char>, Balance)>,
    answers: Seq<AnswerView>,
) -> (WorkView, Double) {
    let usdc = deploy::held_of_spec(rxf, "USDC"@);
    let (w1, gate_stable) = deploy::need_number_spec(
        drop_bad_marker_spec(w),
        AskView::GateStable(gtf),
        answers,
    );
    if deploy::stopped_spec(w1) {
        (w1, Double::zero_spec())
    } else {
        let (w2, prev_run) = last_run_spec(w1, answers);
        if deploy::stopped_spec(w2) {
            (w2, Double::zero_spec())
        } else {
            let w3 = see_departure_spec(
                w2,
                cfg,
                usdc.free.add_spec(usdc.locked),
                gate_stable,
                prev_run,
                answers,
            );
            if deploy::stopped_spec(w3) {
                (w3, Double::zero_spec())
            } else {
                let (w4, clear) = see_landing_spec(w3, gate_stable, answers);
                if deploy::stopped_spec(w4) || !clear {
                    (w4, Double::zero_spec())
                } else {
                    let (w5, rx_stable) = deploy::need_number_spec(
                        w4,
                        AskView::RevxStable(rxf),
                        answers,
                    );
                    if deploy::stopped_spec(w5) {
                        (w5, Double::zero_spec())
                    } else {
                        reserve_spec(w5, cfg, rx_stable, gate_stable, answers)
                    }
                }
            }
        }
    }
}

/// USDC that must stay free on Revolut X for the pending Gate top-up, or 0 while a top-up travels
/// (the in-flight guard).
pub fn onramp_keep(
    w: Work,
    cfg: &Config,
    rxf: &Vec<(String, Balance)>,
    gtf: &Vec<(String, Balance)>,
    answers: &Vec<Answer>,
) -> (r: (Work, Double))
    ensures
        r.deep_view() == onramp_keep_spec(
            w.deep_view(),
            cfg.deep_view(),
            rxf.deep_view(),
            gtf.deep_view(),
            answers.deep_view(),
        ),
{
    let usdc = deploy::held_of(rxf, "USDC");
    let (w1, gate_stable) = deploy::need_number(
        drop_bad_marker(w),
        Ask::GateStable(gtf.dup()),
        answers,
    );
    if deploy::stopped(&w1) {
        return (w1, Double::zero());
    }
    let (w2, prev_run) = last_run(w1, answers);
    if deploy::stopped(&w2) {
        return (w2, Double::zero());
    }
    let w3 = see_departure(w2, cfg, usdc.free.plus(usdc.locked), gate_stable, prev_run, answers);
    if deploy::stopped(&w3) {
        return (w3, Double::zero());
    }
    let (w4, clear) = see_landing(w3, gate_stable, answers);
    if deploy::stopped(&w4) || !clear {
        return (w4, Double::zero());
    }
    let (w5, rx_stable) = deploy::need_number(w4, Ask::RevxStable(rxf.dup()), answers);
    if deploy::stopped(&w5) {
        return (w5, Double::zero());
    }
    reserve(w5, cfg, rx_stable, gate_stable, answers)
}

/// Wait for a conversion to settle.
pub open spec fn pause_spec(w: WorkView, answers: Seq<AnswerView>) -> WorkView {
    deploy::need_done_spec(w, AskView::Sleep(Double::int_spec(2)), answers)
}

fn pause(w: Work, answers: &Vec<Answer>) -> (r: Work)
    ensures
        r.deep_view() == pause_spec(w.deep_view(), answers.deep_view()),
{
    deploy::need_done(w, Ask::Sleep(Double::of_int(2)), answers)
}

/// Turn free USD into USDC, up to `want`, leaving fee headroom. Not journaled. What was staged.
pub open spec fn stage_usdc_spec(
    w: WorkView,
    cfg: ConfigView,
    want: Double,
    usd_free: Double,
    answers: Seq<AnswerView>,
) -> (WorkView, Result<Double, Seq<char>>) {
    let stage = crate::watch::pyfmt::round_spec(
        want.min_spec(
            usd_free.mul_spec(Double::ratio_spec(998, 1000)).sub_spec(Double::int_spec(2)),
        ),
        2,
    );
    if stage.lt_spec(cfg.deploy_min_usd) {
        (w, Ok(Double::zero_spec()))
    } else {
        let (w1, got) = deploy::ask_placed_spec(
            w,
            AskView::MarketBuy("revx"@, "USDC/USD"@, stage, None),
            answers,
        );
        if deploy::stopped_spec(w1) {
            (w1, Ok(Double::zero_spec()))
        } else {
            match got {
                Err(e) => (w1, Err(e)),
                Ok(p) => {
                    let w2 = deploy::say_done_spec(
                        w1,
                        None,
                        None,
                        true,
                        "REVX onramp: staged $"@
                            + pyfmt::fixed_spec(stage, 2)
                            + " USDC for the pending Gate top-up (send it from the app; the bot keeps it in USDC)"@,
                    );
                    (pause_spec(w2, answers), Ok(stage))
                },
            }
        }
    }
}

/// Turn free USD into USDC, up to `want`, leaving fee headroom. Not journaled. What was staged.
pub fn stage_usdc(
    w: Work,
    cfg: &Config,
    want: Double,
    usd_free: Double,
    answers: &Vec<Answer>,
) -> (r: (Work, Result<Double, String>))
    ensures
        (r.0.deep_view(), list::outcome(r.1)) == stage_usdc_spec(
            w.deep_view(),
            cfg.deep_view(),
            want,
            usd_free,
            answers.deep_view(),
        ),
{
    let stage = crate::watch::pyfmt::round(
        want.min(usd_free.times(Double::ratio(998, 1000)).minus(Double::of_int(2))),
        2,
    );
    if stage.lt(cfg.deploy_min_usd) {
        return (w, Ok(Double::zero()));
    }
    let (w1, got) = deploy::ask_placed(
        w,
        Ask::MarketBuy(text::owned("revx"), text::owned("USDC/USD"), stage, None),
        answers,
    );
    if deploy::stopped(&w1) {
        return (w1, Ok(Double::zero()));
    }
    match got {
        Err(e) => (w1, Err(e)),
        Ok(p) => {
            let mut line = text::owned("REVX onramp: staged $");
            line.push_str(pyfmt::fixed(stage, 2).as_str());
            line.push_str(
                " USDC for the pending Gate top-up (send it from the app; the bot keeps it in USDC)",
            );
            let w2 = deploy::say_done(
                w1,
                list::text_ref(&None),
                list::text_ref(&None),
                true,
                line,
            );
            (pause(w2, answers), Ok(stage))
        },
    }
}

/// What the onramp kept back.
#[derive(Debug)]
pub struct Kept {
    /// USDC kept for a top-up of Gate.
    pub keep: Double,
    /// The reserve is unknown: nothing moves out of USDC this run.
    pub unknown: bool,
    /// Why the onramp failed, if it did.
    pub error: Option<String>,
}

/// What a [`Kept`] holds.
pub struct KeptView {
    pub keep: Double,
    pub unknown: bool,
    pub error: Option<Seq<char>>,
}

impl DeepView for Kept {
    type V = KeptView;

    open spec fn deep_view(&self) -> KeptView {
        KeptView {
            keep: self.keep,
            unknown: self.unknown,
            error: self.error.deep_view(),
        }
    }
}

/// An onramp that went through.
pub open spec fn kept_spec(keep: Double, unknown: bool) -> KeptView {
    KeptView { keep, unknown, error: None }
}

fn kept(keep: Double, unknown: bool) -> (r: Kept)
    ensures
        r.deep_view() == kept_spec(keep, unknown),
{
    Kept { keep, unknown, error: None }
}

/// An onramp that failed.
pub open spec fn gave_out_spec(why: Seq<char>) -> KeptView {
    KeptView { keep: Double::zero_spec(), unknown: false, error: Some(why) }
}

fn gave_out(why: String) -> (r: Kept)
    ensures
        r.deep_view() == gave_out_spec(why@),
{
    Kept { keep: Double::zero(), unknown: false, error: Some(why) }
}

/// Turn what is not kept of the USDC into USD.
pub open spec fn sell_usdc_spec(
    w: WorkView,
    keep: Double,
    surplus: Double,
    answers: Seq<AnswerView>,
) -> (WorkView, KeptView) {
    let (w1, rounded) = deploy::ask_number_spec(
        w,
        AskView::RoundAmount("revx"@, "USDC/USD"@, surplus),
        answers,
    );
    if deploy::stopped_spec(w1) {
        (w1, kept_spec(Double::zero_spec(), false))
    } else {
        match rounded {
            Err(e) => (w1, gave_out_spec(e)),
            Ok(qty) => {
                let (w2, got) = deploy::ask_placed_spec(
                    w1,
                    AskView::MarketSell("revx"@, "USDC/USD"@, qty),
                    answers,
                );
                if deploy::stopped_spec(w2) {
                    (w2, kept_spec(Double::zero_spec(), false))
                } else {
                    match got {
                        Err(e) => (w2, gave_out_spec(e)),
                        Ok(p) => {
                            let tail = if !keep.eq_spec(Double::zero_spec()) {
                                " (kept $"@
                                    + pyfmt::fixed_spec(keep, 2)
                                    + " USDC back for the pending Gate top-up)"@
                            } else {
                                ""@
                            };
                            let w3 = deploy::say_done_spec(
                                w2,
                                None,
                                None,
                                true,
                                "REVX onramp: converted "@
                                    + crate::watch::pyfmt::g_spec(qty, 6)
                                    + " USDC -> USD for auto-deploy"@
                                    + tail,
                            );
                            (pause_spec(w3, answers), kept_spec(keep, false))
                        },
                    }
                }
            },
        }
    }
}

fn sell_usdc(w: Work, keep: Double, surplus: Double, answers: &Vec<Answer>) -> (r: (Work, Kept))
    ensures
        r.deep_view() == sell_usdc_spec(w.deep_view(), keep, surplus, answers.deep_view()),
{
    let (w1, rounded) = deploy::ask_number(
        w,
        Ask::RoundAmount(text::owned("revx"), text::owned("USDC/USD"), surplus),
        answers,
    );
    if deploy::stopped(&w1) {
        return (w1, kept(Double::zero(), false));
    }
    match rounded {
        Err(e) => (w1, gave_out(e)),
        Ok(qty) => {
            let (w2, got) = deploy::ask_placed(
                w1,
                Ask::MarketSell(text::owned("revx"), text::owned("USDC/USD"), qty),
                answers,
            );
            if deploy::stopped(&w2) {
                return (w2, kept(Double::zero(), false));
            }
            match got {
                Err(e) => (w2, gave_out(e)),
                Ok(p) => {
                    let tail = if !keep.same(Double::zero()) {
                        let mut line = text::owned(" (kept $");
                        line.push_str(pyfmt::fixed(keep, 2).as_str());
                        line.push_str(" USDC back for the pending Gate top-up)");
                        line
                    } else {
                        text::owned("")
                    };
                    let mut line2 = text::owned("REVX onramp: converted ");
                    line2.push_str(crate::watch::pyfmt::g(qty, 6).as_str());
                    line2.push_str(" USDC -> USD for auto-deploy");
                    line2.push_str(tail.as_str());
                    let w3 = deploy::say_done(
                        w2,
                        list::text_ref(&None),
                        list::text_ref(&None),
                        true,
                        line2,
                    );
                    (pause(w3, answers), kept(keep, false))
                },
            }
        },
    }
}

/// Stage the USDC that the top-up lacks.
pub open spec fn stage_short_spec(
    w: WorkView,
    cfg: ConfigView,
    keep: Double,
    want: Double,
    usd: Double,
    answers: Seq<AnswerView>,
) -> (WorkView, KeptView) {
    let (v, got) = stage_usdc_spec(w, cfg, want, usd, answers);
    if deploy::stopped_spec(v) {
        (v, kept_spec(Double::zero_spec(), false))
    } else {
        match got {
            Err(e) => (v, gave_out_spec(e)),
            Ok(x) => (v, kept_spec(keep, false)),
        }
    }
}

fn stage_short(
    w: Work,
    cfg: &Config,
    keep: Double,
    want: Double,
    usd: Double,
    answers: &Vec<Answer>,
) -> (r: (Work, Kept))
    ensures
        r.deep_view() == stage_short_spec(
            w.deep_view(),
            cfg.deep_view(),
            keep,
            want,
            usd,
            answers.deep_view(),
        ),
{
    let (v, got) = stage_usdc(w, cfg, want, usd, answers);
    if deploy::stopped(&v) {
        return (v, kept(Double::zero(), false));
    }
    match got {
        Err(e) => (v, gave_out(e)),
        Ok(x) => (v, kept(keep, false)),
    }
}

/// With the reserve known: sell the USDC above it, or stage what it lacks.
pub open spec fn convert_known_spec(
    w: WorkView,
    cfg: ConfigView,
    rxb: Seq<(Seq<char>, Double)>,
    rxf: Seq<(Seq<char>, Balance)>,
    keep: Double,
    answers: Seq<AnswerView>,
) -> (WorkView, KeptView) {
    let rx_usdc = deploy::free_in_spec(rxb, "USDC"@);
    let outgoing = deploy::held_of_spec(rxf, "USDC"@).locked;
    if cfg.deploy_min_usd.le_spec(rx_usdc.sub_spec(keep)) {
        sell_usdc_spec(w, keep, rx_usdc.sub_spec(keep), answers)
    } else if cfg.deploy_min_usd.le_spec(keep.sub_spec(rx_usdc).sub_spec(outgoing)) {
        stage_short_spec(
            w,
            cfg,
            keep,
            keep.sub_spec(rx_usdc).sub_spec(outgoing),
            deploy::free_in_spec(rxb, "USD"@),
            answers,
        )
    } else {
        (w, kept_spec(keep, false))
    }
}

fn convert_known(
    w: Work,
    cfg: &Config,
    rxb: &Vec<(String, Double)>,
    rxf: &Vec<(String, Balance)>,
    keep: Double,
    answers: &Vec<Answer>,
) -> (r: (Work, Kept))
    ensures
        r.deep_view() == convert_known_spec(
            w.deep_view(),
            cfg.deep_view(),
            rxb.deep_view(),
            rxf.deep_view(),
            keep,
            answers.deep_view(),
        ),
{
    let rx_usdc = deploy::free_in(rxb, "USDC");
    let outgoing = deploy::held_of(rxf, "USDC").locked;
    if cfg.deploy_min_usd.le(rx_usdc.minus(keep)) {
        return sell_usdc(w, keep, rx_usdc.minus(keep), answers);
    }
    if cfg.deploy_min_usd.le(keep.minus(rx_usdc).minus(outgoing)) {
        return stage_short(
            w,
            cfg,
            keep,
            keep.minus(rx_usdc).minus(outgoing),
            deploy::free_in(rxb, "USD"),
            answers,
        );
    }
    (w, kept(keep, false))
}

/// Without Gate's balance the reserve is unknown, and selling the staged USDC back to USD would let
/// this run ladder the top-up: nothing is sold.
pub open spec fn fail_closed_spec(w: WorkView, why: Seq<char>) -> (WorkView, KeptView) {
    (
        deploy::warn_spec(
            w,
            "Gate top-up reserve unavailable in the revx pre-step; staged USDC stays USDC this run: "@
                + why,
        ),
        kept_spec(Double::zero_spec(), true),
    )
}

fn fail_closed(w: Work, why: &str) -> (r: (Work, Kept))
    ensures
        r.deep_view() == fail_closed_spec(w.deep_view(), why@),
{
    let mut line = text::owned(
        "Gate top-up reserve unavailable in the revx pre-step; staged USDC stays USDC this run: ",
    );
    line.push_str(why);
    (deploy::warn(w, line), kept(Double::zero(), true))
}

/// Both books are there: what the top-up keeps, and what is converted.
pub open spec fn keep_and_convert_spec(
    w: WorkView,
    cfg: ConfigView,
    rxb: Seq<(Seq<char>, Double)>,
    rxf: Seq<(Seq<char>, Balance)>,
    gtf: Seq<(Seq<char>, Balance)>,
    answers: Seq<AnswerView>,
) -> (WorkView, KeptView) {
    let (v, keep) = onramp_keep_spec(w, cfg, rxf, gtf, answers);
    if deploy::stopped_spec(v) {
        (v, kept_spec(Double::zero_spec(), false))
    } else {
        convert_known_spec(v, cfg, rxb, rxf, keep, answers)
    }
}

fn keep_and_convert(
    w: Work,
    cfg: &Config,
    rxb: &Vec<(String, Double)>,
    rxf: &Vec<(String, Balance)>,
    gtf: &Vec<(String, Balance)>,
    answers: &Vec<Answer>,
) -> (r: (Work, Kept))
    ensures
        r.deep_view() == keep_and_convert_spec(
            w.deep_view(),
            cfg.deep_view(),
            rxb.deep_view(),
            rxf.deep_view(),
            gtf.deep_view(),
            answers.deep_view(),
        ),
{
    let (v, keep) = onramp_keep(w, cfg, rxf, gtf, answers);
    if deploy::stopped(&v) {
        return (v, kept(Double::zero(), false));
    }
    convert_known(v, cfg, rxb, rxf, keep, answers)
}

/// Read Gate's book, which the reserve depends on.
pub open spec fn read_gate_spec(
    w: WorkView,
    cfg: ConfigView,
    rxb: Seq<(Seq<char>, Double)>,
    rxf: Seq<(Seq<char>, Balance)>,
    answers: Seq<AnswerView>,
) -> (WorkView, KeptView) {
    let (w1, missing) = deploy::reach_spec(w, "gate"@, answers);
    if deploy::stopped_spec(w1) {
        (w1, kept_spec(Double::zero_spec(), false))
    } else {
        match missing {
            Some(e) => fail_closed_spec(w1, e),
            None => {
                let (w2, got) = deploy::ask_book_spec(w1, AskView::BalancesFull("gate"@), answers);
                if deploy::stopped_spec(w2) {
                    (w2, kept_spec(Double::zero_spec(), false))
                } else {
                    match got {
                        Err(e) => fail_closed_spec(w2, e),
                        Ok(gtf) => keep_and_convert_spec(w2, cfg, rxb, rxf, gtf, answers),
                    }
                }
            },
        }
    }
}

fn read_gate(
    w: Work,
    cfg: &Config,
    rxb: &Vec<(String, Double)>,
    rxf: &Vec<(String, Balance)>,
    answers: &Vec<Answer>,
) -> (r: (Work, Kept))
    ensures
        r.deep_view() == read_gate_spec(
            w.deep_view(),
            cfg.deep_view(),
            rxb.deep_view(),
            rxf.deep_view(),
            answers.deep_view(),
        ),
{
    let (w1, missing) = deploy::reach(w, "gate", answers);
    if deploy::stopped(&w1) {
        return (w1, kept(Double::zero(), false));
    }
    match missing {
        Some(e) => fail_closed(w1, e.as_str()),
        None => {
            let (w2, got) = deploy::ask_book(w1, Ask::BalancesFull(text::owned("gate")), answers);
            if deploy::stopped(&w2) {
                return (w2, kept(Double::zero(), false));
            }
            match got {
                Err(e) => fail_closed(w2, e.as_str()),
                Ok(gtf) => keep_and_convert(w2, cfg, rxb, rxf, &gtf, answers),
            }
        },
    }
}

/// Read Revolut X's book, and then Gate's.
pub open spec fn read_books_spec(
    w: WorkView,
    cfg: ConfigView,
    rxb: Seq<(Seq<char>, Double)>,
    answers: Seq<AnswerView>,
) -> (WorkView, KeptView) {
    let (v, got) = deploy::ask_book_spec(w, AskView::BalancesFull("revx"@), answers);
    if deploy::stopped_spec(v) {
        (v, kept_spec(Double::zero_spec(), false))
    } else {
        match got {
            Err(e) => fail_closed_spec(v, e),
            Ok(rxf) => read_gate_spec(v, cfg, rxb, rxf, answers),
        }
    }
}

fn read_books(
    w: Work,
    cfg: &Config,
    rxb: &Vec<(String, Double)>,
    answers: &Vec<Answer>,
) -> (r: (Work, Kept))
    ensures
        r.deep_view() == read_books_spec(
            w.deep_view(),
            cfg.deep_view(),
            rxb.deep_view(),
            answers.deep_view(),
        ),
{
    let (v, got) = deploy::ask_book(w, Ask::BalancesFull(text::owned("revx")), answers);
    if deploy::stopped(&v) {
        return (v, kept(Double::zero(), false));
    }
    match got {
        Err(e) => fail_closed(v, e.as_str()),
        Ok(rxf) => read_gate(v, cfg, rxb, &rxf, answers),
    }
}

/// Turn EUR into USDC, and go on with the balances as they are then.
pub open spec fn convert_euros_spec(
    w: WorkView,
    cfg: ConfigView,
    eur: Double,
    answers: Seq<AnswerView>,
) -> (WorkView, KeptView) {
    let spend = crate::watch::pyfmt::round_spec(eur.mul_spec(Double::ratio_spec(998, 1000)), 2);
    let (w1, got) = deploy::ask_placed_spec(
        w,
        AskView::MarketBuy("revx"@, "USDC/EUR"@, spend, None),
        answers,
    );
    if deploy::stopped_spec(w1) {
        (w1, kept_spec(Double::zero_spec(), false))
    } else {
        match got {
            Err(e) => (w1, gave_out_spec(e)),
            Ok(p) => {
                let w2 = pause_spec(
                    deploy::say_done_spec(
                        w1,
                        None,
                        None,
                        true,
                        "REVX onramp: converted EUR "@
                            + pyfmt::fixed_spec(spend, 2)
                            + " -> USDC for auto-deploy"@,
                    ),
                    answers,
                );
                if deploy::stopped_spec(w2) {
                    (w2, kept_spec(Double::zero_spec(), false))
                } else {
                    let (w3, free) = deploy::ask_free_spec(
                        w2,
                        AskView::Balances("revx"@),
                        answers,
                    );
                    if deploy::stopped_spec(w3) {
                        (w3, kept_spec(Double::zero_spec(), false))
                    } else {
                        match free {
                            Err(e) => (w3, gave_out_spec(e)),
                            Ok(rxb) => read_books_spec(w3, cfg, rxb, answers),
                        }
                    }
                }
            },
        }
    }
}

fn convert_euros(w: Work, cfg: &Config, eur: Double, answers: &Vec<Answer>) -> (r: (Work, Kept))
    ensures
        r.deep_view() == convert_euros_spec(
            w.deep_view(),
            cfg.deep_view(),
            eur,
            answers.deep_view(),
        ),
{
    let spend = crate::watch::pyfmt::round(eur.times(Double::ratio(998, 1000)), 2);
    let (w1, got) = deploy::ask_placed(
        w,
        Ask::MarketBuy(text::owned("revx"), text::owned("USDC/EUR"), spend, None),
        answers,
    );
    if deploy::stopped(&w1) {
        return (w1, kept(Double::zero(), false));
    }
    match got {
        Err(e) => (w1, gave_out(e)),
        Ok(p) => {
            let mut line = text::owned("REVX onramp: converted EUR ");
            line.push_str(pyfmt::fixed(spend, 2).as_str());
            line.push_str(" -> USDC for auto-deploy");
            let w2 = pause(
                deploy::say_done(w1, list::text_ref(&None), list::text_ref(&None), true, line),
                answers,
            );
            if deploy::stopped(&w2) {
                return (w2, kept(Double::zero(), false));
            }
            let (w3, free) = deploy::ask_free(w2, Ask::Balances(text::owned("revx")), answers);
            if deploy::stopped(&w3) {
                return (w3, kept(Double::zero(), false));
            }
            match free {
                Err(e) => (w3, gave_out(e)),
                Ok(rxb) => read_books(w3, cfg, &rxb, answers),
            }
        },
    }
}

/// The onramp on a venue that can be reached.
pub open spec fn onramp_free_spec(
    w: WorkView,
    cfg: ConfigView,
    answers: Seq<AnswerView>,
) -> (WorkView, KeptView) {
    let (v, free) = deploy::ask_free_spec(w, AskView::Balances("revx"@), answers);
    if deploy::stopped_spec(v) {
        (v, kept_spec(Double::zero_spec(), false))
    } else {
        match free {
            Err(e) => (v, gave_out_spec(e)),
            Ok(rxb) => {
                let eur = deploy::free_in_spec(rxb, "EUR"@);
                if cfg.deploy_min_usd.le_spec(eur) {
                    convert_euros_spec(v, cfg, eur, answers)
                } else {
                    read_books_spec(v, cfg, rxb, answers)
                }
            },
        }
    }
}

fn onramp_free(w: Work, cfg: &Config, answers: &Vec<Answer>) -> (r: (Work, Kept))
    ensures
        r.deep_view() == onramp_free_spec(w.deep_view(), cfg.deep_view(), answers.deep_view()),
{
    let (v, free) = deploy::ask_free(w, Ask::Balances(text::owned("revx")), answers);
    if deploy::stopped(&v) {
        return (v, kept(Double::zero(), false));
    }
    match free {
        Err(e) => (v, gave_out(e)),
        Ok(rxb) => {
            let eur = deploy::free_in(&rxb, "EUR");
            if cfg.deploy_min_usd.le(eur) {
                return convert_euros(v, cfg, eur, answers);
            }
            read_books(v, cfg, &rxb, answers)
        },
    }
}

/// The Revolut X onramp pre-step: EUR -> USDC, then USDC -> USD except what a top-up of Gate keeps,
/// or stage the top-up as USDC. Returns the kept amount and whether the reserve is unknown (Gate's
/// balances could not be read, or Gate has no client): then nothing moves out of USDC this run.
pub open spec fn onramp_spec(
    w: WorkView,
    cfg: ConfigView,
    answers: Seq<AnswerView>,
) -> (WorkView, KeptView) {
    let (v, missing) = deploy::reach_spec(w, "revx"@, answers);
    if deploy::stopped_spec(v) {
        (v, kept_spec(Double::zero_spec(), false))
    } else {
        match missing {
            Some(e) => (v, gave_out_spec(e)),
            None => onramp_free_spec(v, cfg, answers),
        }
    }
}

/// The Revolut X onramp pre-step: EUR -> USDC, then USDC -> USD except what a top-up of Gate keeps,
/// or stage the top-up as USDC. Returns the kept amount and whether the reserve is unknown (Gate's
/// balances could not be read, or Gate has no client): then nothing moves out of USDC this run.
pub fn onramp(w: Work, cfg: &Config, answers: &Vec<Answer>) -> (r: (Work, Kept))
    ensures
        r.deep_view() == onramp_spec(w.deep_view(), cfg.deep_view(), answers.deep_view()),
{
    let (v, missing) = deploy::reach(w, "revx", answers);
    if deploy::stopped(&v) {
        return (v, kept(Double::zero(), false));
    }
    match missing {
        Some(e) => (v, gave_out(e)),
        None => onramp_free(v, cfg, answers),
    }
}

/// Sell Gate's USDC for USDT.
pub open spec fn sell_bridge_spec(
    w: WorkView,
    amount: Double,
    answers: Seq<AnswerView>,
) -> (WorkView, Option<Seq<char>>) {
    let (w1, rounded) = deploy::ask_number_spec(
        w,
        AskView::RoundAmount("gate"@, "USDC_USDT"@, amount),
        answers,
    );
    if deploy::stopped_spec(w1) {
        (w1, None)
    } else {
        match rounded {
            Err(e) => (w1, Some(e)),
            Ok(qty) => {
                let (w2, got) = deploy::ask_placed_spec(
                    w1,
                    AskView::MarketSell("gate"@, "USDC_USDT"@, qty),
                    answers,
                );
                if deploy::stopped_spec(w2) {
                    (w2, None)
                } else {
                    match got {
                        Err(e) => (w2, Some(e)),
                        Ok(p) => {
                            let w3 = deploy::say_done_spec(
                                w2,
                                None,
                                None,
                                true,
                                "GATE: auto-converted "@
                                    + crate::watch::pyfmt::g_spec(qty, 6)
                                    + " USDC -> USDT (revx top-up bridge asset) for auto-deploy"@,
                            );
                            (pause_spec(w3, answers), None)
                        },
                    }
                }
            },
        }
    }
}

fn sell_bridge(w: Work, amount: Double, answers: &Vec<Answer>) -> (r: (Work, Option<String>))
    ensures
        r.deep_view() == sell_bridge_spec(w.deep_view(), amount, answers.deep_view()),
{
    let (w1, rounded) = deploy::ask_number(
        w,
        Ask::RoundAmount(text::owned("gate"), text::owned("USDC_USDT"), amount),
        answers,
    );
    if deploy::stopped(&w1) {
        return (w1, None);
    }
    match rounded {
        Err(e) => (w1, Some(e)),
        Ok(qty) => {
            let (w2, got) = deploy::ask_placed(
                w1,
                Ask::MarketSell(text::owned("gate"), text::owned("USDC_USDT"), qty),
                answers,
            );
            if deploy::stopped(&w2) {
                return (w2, None);
            }
            match got {
                Err(e) => (w2, Some(e)),
                Ok(p) => {
                    let mut line = text::owned("GATE: auto-converted ");
                    line.push_str(crate::watch::pyfmt::g(qty, 6).as_str());
                    line.push_str(" USDC -> USDT (revx top-up bridge asset) for auto-deploy");
                    let w3 = deploy::say_done(
                        w2,
                        list::text_ref(&None),
                        list::text_ref(&None),
                        true,
                        line,
                    );
                    (pause(w3, answers), None)
                },
            }
        },
    }
}

/// Gate: USDC that landed (the top-up's bridge asset) becomes USDT. Not journaled. Why it failed, if
/// it did.
pub open spec fn gate_convert_spec(
    w: WorkView,
    cfg: ConfigView,
    answers: Seq<AnswerView>,
) -> (WorkView, Option<Seq<char>>) {
    let (w1, missing) = deploy::reach_spec(w, "gate"@, answers);
    if deploy::stopped_spec(w1) {
        (w1, None)
    } else {
        match missing {
            Some(e) => (w1, Some(e)),
            None => {
                let (w2, got) = deploy::ask_book_spec(w1, AskView::BalancesFull("gate"@), answers);
                if deploy::stopped_spec(w2) {
                    (w2, None)
                } else {
                    match got {
                        Err(e) => (w2, Some(e)),
                        Ok(book) => {
                            let free = deploy::held_of_spec(book, "USDC"@).free;
                            if cfg.deploy_min_usd.le_spec(free) {
                                sell_bridge_spec(w2, free, answers)
                            } else {
                                (w2, None)
                            }
                        },
                    }
                }
            },
        }
    }
}

/// Gate: USDC that landed (the top-up's bridge asset) becomes USDT. Not journaled. Why it failed, if
/// it did.
pub fn gate_convert(w: Work, cfg: &Config, answers: &Vec<Answer>) -> (r: (Work, Option<String>))
    ensures
        r.deep_view() == gate_convert_spec(w.deep_view(), cfg.deep_view(), answers.deep_view()),
{
    let (w1, missing) = deploy::reach(w, "gate", answers);
    if deploy::stopped(&w1) {
        return (w1, None);
    }
    match missing {
        Some(e) => (w1, Some(e)),
        None => {
            let (w2, got) = deploy::ask_book(w1, Ask::BalancesFull(text::owned("gate")), answers);
            if deploy::stopped(&w2) {
                return (w2, None);
            }
            match got {
                Err(e) => (w2, Some(e)),
                Ok(book) => {
                    let free = deploy::held_of(&book, "USDC").free;
                    if cfg.deploy_min_usd.le(free) {
                        return sell_bridge(w2, free, answers);
                    }
                    (w2, None)
                },
            }
        },
    }
}

/// A state that knows what is staged; none where it cannot hold that.
pub open spec fn with_staged_spec(st: Doc, usdc: Double) -> Option<Doc> {
    let off = Doc::obj();
    let off = match st.get("offquote"@) {
        Some(o) => o,
        None => off,
    };
    if !(off is Obj) {
        None
    } else {
        let off = off.set("revx:USDC"@, Doc::Float(usdc));
        let st = st.set("offquote"@, off);
        Some(st)
    }
}

fn with_staged(st: Json, usdc: Double) -> (r: Option<Json>)
    ensures
        r.deep_view() == with_staged_spec(st@, usdc),
{
    let mut st = st;
    let mut off = Json::obj();
    match st.get("offquote") {
        Some(o) => {
            off = o.copy();
        },
        None => {},
    }
    if !off.is_obj() {
        return None;
    }
    off.set("revx:USDC", Json::Float(usdc));
    st.set("offquote", off);
    Some(st)
}

/// Record what is staged, as the venue reports it.
pub open spec fn record_staged_spec(
    w: WorkView,
    answers: Seq<AnswerView>,
) -> (WorkView, Option<Seq<char>>) {
    let (v, got) = deploy::ask_book_spec(w, AskView::BalancesFull("revx"@), answers);
    if deploy::stopped_spec(v) {
        (v, None)
    } else {
        match got {
            Err(e) => (v, Some(e)),
            Ok(book) => {
                let u = deploy::held_of_spec(book, "USDC"@);
                match with_staged_spec(v.st, u.free.add_spec(u.locked)) {
                    Some(st) => {
                        let v = WorkView { st, ..v };
                        deploy::ask_done_spec(v, AskView::SaveState, answers)
                    },
                    None => (v, Some("offquote is not an object"@)),
                }
            },
        }
    }
}

fn record_staged(w: Work, answers: &Vec<Answer>) -> (r: (Work, Option<String>))
    ensures
        r.deep_view() == record_staged_spec(w.deep_view(), answers.deep_view()),
{
    let (mut v, got) = deploy::ask_book(w, Ask::BalancesFull(text::owned("revx")), answers);
    if deploy::stopped(&v) {
        return (v, None);
    }
    match got {
        Err(e) => (v, Some(e)),
        Ok(book) => {
            let u = deploy::held_of(&book, "USDC");
            match with_staged(v.st.dup(), u.free.plus(u.locked)) {
                Some(st) => {
                    v.st = st;
                    deploy::ask_done(v, Ask::SaveState, answers)
                },
                None => (v, Some(text::owned("offquote is not an object"))),
            }
        },
    }
}

/// Stage what a book lacks of the top-up's USDC.
pub open spec fn stage_from_spec(
    w: WorkView,
    cfg: ConfigView,
    keep: Double,
    book: Seq<(Seq<char>, Balance)>,
    answers: Seq<AnswerView>,
) -> (WorkView, Option<Seq<char>>) {
    let u = deploy::held_of_spec(book, "USDC"@);
    let short = keep.sub_spec(u.free.add_spec(u.locked));
    if !cfg.deploy_min_usd.le_spec(short) {
        (w, None)
    } else {
        let (v, got) = stage_usdc_spec(
            w,
            cfg,
            short,
            deploy::held_of_spec(book, "USD"@).free,
            answers,
        );
        if deploy::stopped_spec(v) {
            (v, None)
        } else {
            match got {
                Err(e) => (v, Some(e)),
                Ok(x) => if !x.eq_spec(Double::zero_spec()) {
                    record_staged_spec(v, answers)
                } else {
                    (v, None)
                },
            }
        }
    }
}

fn stage_from(
    w: Work,
    cfg: &Config,
    keep: Double,
    book: &Vec<(String, Balance)>,
    answers: &Vec<Answer>,
) -> (r: (Work, Option<String>))
    ensures
        r.deep_view() == stage_from_spec(
            w.deep_view(),
            cfg.deep_view(),
            keep,
            book.deep_view(),
            answers.deep_view(),
        ),
{
    let u = deploy::held_of(book, "USDC");
    let short = keep.minus(u.free.plus(u.locked));
    if !cfg.deploy_min_usd.le(short) {
        return (w, None);
    }
    let (v, got) = stage_usdc(w, cfg, short, deploy::held_of(book, "USD").free, answers);
    if deploy::stopped(&v) {
        return (v, None);
    }
    match got {
        Err(e) => (v, Some(e)),
        Ok(x) => {
            if !x.same(Double::zero()) {
                return record_staged(v, answers);
            }
            (v, None)
        },
    }
}

/// Stage the top-up's USDC after the venue was re-laddered. Why it failed, if it did.
pub open spec fn stage_after_roll_spec(
    w: WorkView,
    cfg: ConfigView,
    keep: Double,
    answers: Seq<AnswerView>,
) -> (WorkView, Option<Seq<char>>) {
    let (w1, missing) = deploy::reach_spec(w, "revx"@, answers);
    if deploy::stopped_spec(w1) {
        (w1, None)
    } else {
        match missing {
            Some(e) => (w1, Some(e)),
            None => {
                let (w2, got) = deploy::ask_book_spec(w1, AskView::BalancesFull("revx"@), answers);
                if deploy::stopped_spec(w2) {
                    (w2, None)
                } else {
                    match got {
                        Err(e) => (w2, Some(e)),
                        Ok(book) => stage_from_spec(w2, cfg, keep, book, answers),
                    }
                }
            },
        }
    }
}

/// Stage the top-up's USDC after the venue was re-laddered. Why it failed, if it did.
pub fn stage_after_roll(
    w: Work,
    cfg: &Config,
    keep: Double,
    answers: &Vec<Answer>,
) -> (r: (Work, Option<String>))
    ensures
        r.deep_view() == stage_after_roll_spec(
            w.deep_view(),
            cfg.deep_view(),
            keep,
            answers.deep_view(),
        ),
{
    let (w1, missing) = deploy::reach(w, "revx", answers);
    if deploy::stopped(&w1) {
        return (w1, None);
    }
    match missing {
        Some(e) => (w1, Some(e)),
        None => {
            let (w2, got) = deploy::ask_book(w1, Ask::BalancesFull(text::owned("revx")), answers);
            if deploy::stopped(&w2) {
                return (w2, None);
            }
            match got {
                Err(e) => (w2, Some(e)),
                Ok(book) => stage_from(w2, cfg, keep, &book, answers),
            }
        },
    }
}

/// While Gate's balances cannot be read the reserve is unknown: nothing is asked of the venue, so
/// staged USDC stays USDC, and the reserve is reported as unknown.
pub proof fn law_an_unread_gate_converts_nothing(
    w: WorkView,
    cfg: ConfigView,
    rxb: Seq<(Seq<char>, Double)>,
    rxf: Seq<(Seq<char>, Balance)>,
    answers: Seq<AnswerView>,
    why: Seq<char>,
)
    requires
        !deploy::stopped_spec(w),
        w.at < usize::MAX - 1,
        w.at + 1 < answers.len(),
        answers[w.at as int] == AnswerView::Done,
        answers[w.at + 1] == AnswerView::Failed(why),
    ensures
        read_gate_spec(w, cfg, rxb, rxf, answers).0.ask is None,
        read_gate_spec(w, cfg, rxb, rxf, answers).0.fault is None,
        read_gate_spec(w, cfg, rxb, rxf, answers).1.unknown,
{
}

/// What the pending top-up needs stays in USDC: only what is free beyond it is sold, and only
/// where that is worth a tranche.
pub proof fn law_only_the_surplus_is_sold(
    w: WorkView,
    cfg: ConfigView,
    rxb: Seq<(Seq<char>, Double)>,
    rxf: Seq<(Seq<char>, Balance)>,
    keep: Double,
    answers: Seq<AnswerView>,
)
    requires
        !deploy::stopped_spec(w),
        w.at >= answers.len(),
    ensures
        ({
            let surplus = deploy::free_in_spec(rxb, "USDC"@).sub_spec(keep);
            let r = convert_known_spec(w, cfg, rxb, rxf, keep, answers).0;
            &&& cfg.deploy_min_usd.le_spec(surplus) ==> r.ask == Some(
                AskView::RoundAmount("revx"@, "USDC/USD"@, surplus),
            )
            &&& r.ask matches Some(AskView::MarketSell(_, pair, _)) ==> pair != "USDC/USD"@
        }),
{
}

/// A second departure adds to the top-up that is in flight, and a first one starts it, with the
/// time from which its deposits count.
pub proof fn law_departures_add_up(
    st: Doc,
    left: Double,
    now: Double,
    since: Double,
    gate_stable: Double,
    before: Double,
    after: Double,
)
    requires
        st is Obj,
        left.finite(),
        before.finite(),
        after.finite(),
        after.amount() == before.amount() + left.amount(),
        inflight_marker_spec(st.get("inflight"@)) ==> (st.get("inflight"@) matches Some(fl) && fl is Obj
            && num_under_spec(fl, "amount"@) == before),
    ensures
        with_inflight_spec(st, left, now, since, gate_stable).get("inflight"@) matches Some(fl) && (fl.get(
            "amount"@,
        ) matches Some(Doc::Float(x)) && x.amount() == (if inflight_marker_spec(
            st.get("inflight"@),
        ) {
            after.amount()
        } else {
            left.amount()
        })),
{
    let r = with_inflight_spec(st, left, now, since, gate_stable);
    if inflight_marker_spec(st.get("inflight"@)) {
        let fl = st.get("inflight"@)->0;
        rounding::lemma_exact_sum(before, left, after);
        let amt = before.add_spec(left);
        json::law_set_then_get(fl, "amount"@, Doc::Float(amt), "amount"@);
        json::law_set_then_get(st, "inflight"@, fl.set("amount"@, Doc::Float(amt)), "inflight"@);
    } else {
        let a = Doc::obj().with("amount"@, Doc::Float(left));
        let b = a.with("ts"@, Doc::Float(now));
        let c = b.with("since"@, Doc::Float(since));
        let d = c.with("gate_stable_at"@, Doc::Float(gate_baseline_spec(st, gate_stable)));
        reveal_strlit("amount");
        reveal_strlit("ts");
        reveal_strlit("since");
        reveal_strlit("gate_stable_at");
        assert("amount"@.len() == 6 && "ts"@.len() == 2 && "since"@.len() == 5
            && "gate_stable_at"@.len() == 14);
        json::law_set_then_get(Doc::obj(), "amount"@, Doc::Float(left), "amount"@);
        json::law_set_then_get(a, "ts"@, Doc::Float(now), "amount"@);
        json::law_set_then_get(b, "since"@, Doc::Float(since), "amount"@);
        json::law_set_then_get(
            c,
            "gate_stable_at"@,
            Doc::Float(gate_baseline_spec(st, gate_stable)),
            "amount"@,
        );
        json::law_set_then_get(st, "inflight"@, d, "inflight"@);
    }
}

/// All that left is enough of a landing, and under three quarters of it is not.
pub proof fn law_most_of_a_top_up_must_land(landed: Double, left: Double)
    requires
        landed.finite(),
        left.finite(),
        left.amount() >= 0x100_0000,
    ensures
        landed.amount() >= left.amount() ==> landed_enough_spec(Some(landed), left),
        4 * landed.amount() < 3 * left.amount() ==> !landed_enough_spec(Some(landed), left),
        !landed_enough_spec(None, left),
{
    rounding::lemma_part_of(left, 8, 10);
    rounding::lemma_ratio_error(8, 10);
    rounding::lemma_mul_swaps(Double::ratio_spec(8, 10), left);
    let p = left.mul_spec(Double::ratio_spec(8, 10)).amount();
    let a = left.amount();
    assert(8388598 * a <= 10485760 * p) by (nonlinear_arith)
        requires
            (0x10_0000 * 8 - 10) * a <= 0x10_0000 * 10 * p,
    ;
    assert(4 * p >= 3 * a) by (nonlinear_arith)
        requires
            8388598 * a <= 10485760 * p,
            a >= 0,
    ;
    assert(Double::ratio_spec(8, 10).mul_spec(left).amount() == p);
}

/// Without a time of its own a marker counts deposits from half an hour before it was set.
pub proof fn law_deposits_count_from_before_the_marker(fl: Doc, set: Double, from: Double)
    requires
        num_under_spec(fl, "since"@).eq_spec(Double::zero_spec()),
        num_under_spec(fl, "ts"@) == set,
        set.finite(),
        from.finite(),
        from.amount() == set.amount() - 1800 * crate::double::unit(),
    ensures
        since_of_spec(fl).amount() == from.amount(),
{
    rounding::lemma_whole_is_exact(1800);
    rounding::lemma_exact_difference(set, Double::int_spec(1800), from);
}

/// Where the reserve is met only in part, the rest is staged: what it needs, less the USDC that is
/// free or already on its way.
pub proof fn law_only_what_lacks_is_staged(
    w: WorkView,
    cfg: ConfigView,
    rxb: Seq<(Seq<char>, Double)>,
    rxf: Seq<(Seq<char>, Balance)>,
    keep: Double,
    lacks: Double,
    here: Double,
    answers: Seq<AnswerView>,
)
    requires
        ({
            let usdc = deploy::free_in_spec(rxb, "USDC"@);
            let out = deploy::held_of_spec(rxf, "USDC"@).locked;
            &&& usdc.finite() && out.finite() && keep.finite() && here.finite() && lacks.finite()
            &&& here.amount() == keep.amount() - usdc.amount()
            &&& here.amount() >= 0
            &&& lacks.amount() == keep.amount() - usdc.amount() - out.amount()
            &&& Double::zero_spec().lt_spec(cfg.deploy_min_usd)
        }),
    ensures
        lacks.lt_spec(cfg.deploy_min_usd) ==> convert_known_spec(w, cfg, rxb, rxf, keep, answers).0
            == w,
        cfg.deploy_min_usd.le_spec(lacks) ==> exists|short: Double|
            {
                &&& short.amount() == lacks.amount()
                &&& convert_known_spec(w, cfg, rxb, rxf, keep, answers)
                    == #[trigger] stage_short_spec(
                    w,
                    cfg,
                    keep,
                    short,
                    deploy::free_in_spec(rxb, "USD"@),
                    answers,
                )
            },
{
    let usdc = deploy::free_in_spec(rxb, "USDC"@);
    let out = deploy::held_of_spec(rxf, "USDC"@).locked;
    crate::double::lemma_scaled_zero();
    rounding::lemma_sub_sign(usdc, keep);
    rounding::lemma_exact_difference(keep, usdc, here);
    rounding::lemma_exact_difference(keep.sub_spec(usdc), out, lacks);
}

/// What is staged is never more than is wanted, nor than is free, but for half a cent.
pub proof fn law_no_more_is_staged_than_wanted_or_free(
    w: WorkView,
    cfg: ConfigView,
    want: Double,
    usd_free: Double,
)
    requires
        !deploy::stopped_spec(w),
        want.finite(),
        want.amount() >= 0,
        usd_free.finite(),
        usd_free.amount() >= 0x100_0000,
        usd_free.mul_spec(Double::ratio_spec(998, 1000)).sub_spec(Double::int_spec(2)).amount()
            >= 0,
    ensures
        stage_usdc_spec(w, cfg, want, usd_free, Seq::empty()).0.ask matches Some(
            AskView::MarketBuy(exch, pair, stage, id),
        ) ==> {
            &&& exch == "revx"@
            &&& pair == "USDC/USD"@
            &&& !stage.lt_spec(cfg.deploy_min_usd)
            &&& stage.finite() ==> {
                &&& rounding::grain() * (200 * (stage.amount() - want.amount())
                    - crate::double::unit()) <= 200 * (stage.amount() + rounding::least())
                &&& rounding::grain() * (200 * (stage.amount() - usd_free.amount())
                    - crate::double::unit()) <= 200 * (stage.amount() + rounding::least())
            }
        },
{
    let zero = Double::zero_spec();
    let two = Double::int_spec(2);
    crate::double::lemma_scaled_zero();
    vstd::arithmetic::power2::lemma_pow2_pos(1074);
    rounding::lemma_whole_is_exact(2);
    rounding::lemma_part_of(usd_free, 998, 1000);
    let p = usd_free.mul_spec(Double::ratio_spec(998, 1000));
    rounding::lemma_sub_order(zero, two, p);
    rounding::lemma_exact_difference(p, zero, p);
    let y = p.sub_spec(two);
    rounding::lemma_infinite_is_last(p);
    assert(y.finite()) by {
        if y.infinite() {
            assert(rounding::size(y.amount()) == crate::double::scaled(
                crate::double::INFINITE as nat,
            ));
        }
    }
    let x = want.min_spec(y);
    if crate::watch::pyfmt::round_spec(x, 2).finite() {
        rounding::lemma_cents(x);
    }
}

} // verus!
