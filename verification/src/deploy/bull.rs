//! The bull sweep: zones resting too long in a young bull are bought at market.
use crate::deploy;
use crate::deploy::{Answer, AnswerView, Ask, AskView, Config, ConfigView, Settled, Work, WorkView};
use crate::deploy::planning;
use crate::deploy::planning::{Cancelled, CancelledView};
use crate::double::Double;
use crate::journal;
use crate::journal::{Order, OrderView};
use crate::list;
use crate::list::Duplicate;
use crate::pyfmt;
use crate::rounding;
use crate::text;
use crate::venue::{Balance, ParsedOrder, ParsedOrderView};
use crate::watch::json;
use crate::watch::json::{Doc, Json};
use vstd::prelude::*;

verus! {

/// Since when a zone rests; since now where that is not known.
pub open spec fn rests_since_spec(o: OrderView, now: Double) -> Double {
    if deploy::truthy_num_spec(o.first_ts) {
        match o.first_ts {
            Some(v) => v,
            None => now,
        }
    } else if deploy::truthy_num_spec(o.ts) {
        match o.ts {
            Some(v) => v,
            None => now,
        }
    } else {
        now
    }
}

fn rests_since(o: &Order, now: Double) -> (r: Double)
    ensures
        r == rests_since_spec(o.deep_view(), now),
{
    if deploy::truthy_num(o.first_ts) {
        return match o.first_ts {
            Some(v) => v,
            None => now,
        };
    }
    if deploy::truthy_num(o.ts) {
        return match o.ts {
            Some(v) => v,
            None => now,
        };
    }
    now
}

/// Of the first `n` rows.
pub open spec fn add_stale_spec(
    days: Double,
    now: Double,
    xs: Seq<OrderView>,
    out: Seq<OrderView>,
    n: nat,
) -> Seq<OrderView>
    decreases n,
{
    if n == 0 {
        out
    } else {
        let out = add_stale_spec(days, now, xs, out, (n - 1) as nat);
        let o = xs[n - 1];
        if deploy::truthy_int_spec(o.rung)
            && deploy::has_id_spec(o)
            && !now.sub_spec(rests_since_spec(o, now)).lt_spec(
                days.mul_spec(Double::int_spec(86400)),
            ) {
            out.push(o)
        } else {
            out
        }
    }
}

fn add_stale(days: Double, now: Double, xs: &Vec<Order>, out: Vec<Order>) -> (r: Vec<Order>)
    ensures
        r.deep_view() == add_stale_spec(days, now, xs.deep_view(), out.deep_view(), xs@.len()),
{
    let ghost out0 = out.deep_view();
    let mut out = out;
    let mut i: usize = 0;
    while i < xs.len()
        invariant
            i <= xs@.len(),
            out.deep_view() == add_stale_spec(days, now, xs.deep_view(), out0, i as nat),
        decreases xs@.len() - i,
    {
        let o = &xs[i];
        if deploy::truthy_int(o.rung)
            && deploy::has_id(o)
            && !now.minus(rests_since(o, now)).lt(days.times(Double::of_int(86400))) {
            list::push(&mut out, o.dup());
        }
        i = i + 1;
    }
    out
}

/// The zones that have been resting for some days.
pub open spec fn stale_zones_spec(
    rows: Seq<OrderView>,
    now: Double,
    days: Double,
) -> Seq<OrderView> {
    add_stale_spec(days, now, rows, Seq::<OrderView>::empty(), rows.len())
}

/// The zones that have been resting for some days.
pub fn stale_zones(rows: &Vec<Order>, now: Double, days: Double) -> (r: Vec<Order>)
    ensures
        r.deep_view() == stale_zones_spec(rows.deep_view(), now, days),
{
    let mut out: Vec<Order> = list::none();
    out = add_stale(days, now, rows, out);
    out
}

/// Among the first `n` of them.
pub open spec fn see_pair_spec(
    a: Seq<char>,
    b: Seq<char>,
    xs: Seq<(Seq<char>, Seq<char>)>,
    out: bool,
    n: nat,
) -> bool {
    out || list::some(
        xs,
        |it: (Seq<char>, Seq<char>)| {
            let x = it.0;
            let y = it.1;
            x == a && y == b
        },
        n,
    )
}

fn see_pair(a: &str, b: &str, xs: &Vec<(String, String)>, out: bool) -> (r: bool)
    ensures
        r == see_pair_spec(a@, b@, xs.deep_view(), out, xs@.len()),
{
    let ghost out0 = out;
    let mut out = out;
    let mut i: usize = 0;
    while i < xs.len()
        invariant
            i <= xs@.len(),
            out == see_pair_spec(a@, b@, xs.deep_view(), out0, i as nat),
        decreases xs@.len() - i,
    {
        let it = &xs[i];
        let x = it.0.as_str();
        let y = it.1.as_str();
        if text::same(x, a) && text::same(y, b) {
            out = true;
        }
        assert(xs.deep_view()[i as int] == xs@[i as int].deep_view());
        assert(out == see_pair_spec(a@, b@, xs.deep_view(), out0, (i + 1) as nat));
        i = i + 1;
    }
    out
}

/// Whether a pair is among some.
pub open spec fn has_pair_spec(
    ps: Seq<(Seq<char>, Seq<char>)>,
    a: Seq<char>,
    b: Seq<char>,
) -> bool {
    see_pair_spec(a, b, ps, false, ps.len())
}

fn has_pair(ps: &Vec<(String, String)>, a: &str, b: &str) -> (r: bool)
    ensures
        r == has_pair_spec(ps.deep_view(), a@, b@),
{
    let mut out = false;
    out = see_pair(a, b, ps, out);
    out
}

/// Of the first `n` rows.
pub open spec fn add_symbol_spec(
    xs: Seq<OrderView>,
    out: Seq<(Seq<char>, Seq<char>)>,
    n: nat,
) -> Seq<(Seq<char>, Seq<char>)>
    decreases n,
{
    if n == 0 {
        out
    } else {
        let out = add_symbol_spec(xs, out, (n - 1) as nat);
        let o = xs[n - 1];
        if !has_pair_spec(out, o.sym, o.exch) {
            out.push((o.sym, o.exch))
        } else {
            out
        }
    }
}

fn add_symbol(xs: &Vec<Order>, out: Vec<(String, String)>) -> (r: Vec<(String, String)>)
    ensures
        r.deep_view() == add_symbol_spec(xs.deep_view(), out.deep_view(), xs@.len()),
{
    let ghost out0 = out.deep_view();
    let mut out = out;
    let mut i: usize = 0;
    while i < xs.len()
        invariant
            i <= xs@.len(),
            out.deep_view() == add_symbol_spec(xs.deep_view(), out0, i as nat),
        decreases xs@.len() - i,
    {
        let o = &xs[i];
        if !has_pair(&out, o.sym.as_str(), o.exch.as_str()) {
            list::push(&mut out, (text::owned(o.sym.as_str()), text::owned(o.exch.as_str())));
        }
        i = i + 1;
    }
    out
}

/// The coin and venue of each zone, each once.
pub open spec fn by_symbol_spec(rows: Seq<OrderView>) -> Seq<(Seq<char>, Seq<char>)> {
    add_symbol_spec(rows, Seq::<(Seq<char>, Seq<char>)>::empty(), rows.len())
}

fn by_symbol(rows: &Vec<Order>) -> (r: Vec<(String, String)>)
    ensures
        r.deep_view() == by_symbol_spec(rows.deep_view()),
{
    let mut out: Vec<(String, String)> = list::none();
    out = add_symbol(rows, out);
    out
}

/// The first `n` of them.
pub open spec fn add_turned_spec(
    xs: Seq<(Seq<char>, Seq<char>)>,
    out: Seq<(Seq<char>, Seq<char>)>,
    n: nat,
) -> Seq<(Seq<char>, Seq<char>)> {
    out + Seq::new(
        n,
        |i: int| {
            let it = xs[i];
            let a = it.0;
            let b = it.1;
            (b, a)
        },
    )
}

fn add_turned(
    xs: &Vec<(String, String)>,
    out: Vec<(String, String)>,
) -> (r: Vec<(String, String)>)
    ensures
        r.deep_view() == add_turned_spec(xs.deep_view(), out.deep_view(), xs@.len()),
{
    let ghost out0 = out.deep_view();
    let mut out = out;
    let mut i: usize = 0;
    while i < xs.len()
        invariant
            i <= xs@.len(),
            out.deep_view() == add_turned_spec(xs.deep_view(), out0, i as nat),
        decreases xs@.len() - i,
    {
        let it = &xs[i];
        let a = it.0.as_str();
        let b = it.1.as_str();
        list::push(&mut out, (text::owned(b), text::owned(a)));
        assert(out.deep_view() =~= add_turned_spec(xs.deep_view(), out0, (i + 1) as nat));
        i = i + 1;
    }
    out
}

/// The pairs, the other way round.
pub open spec fn turned_spec(ps: Seq<(Seq<char>, Seq<char>)>) -> Seq<(Seq<char>, Seq<char>)> {
    add_turned_spec(ps, Seq::<(Seq<char>, Seq<char>)>::empty(), ps.len())
}

fn turned(ps: &Vec<(String, String)>) -> (r: Vec<(String, String)>)
    ensures
        r.deep_view() == turned_spec(ps.deep_view()),
{
    let mut out: Vec<(String, String)> = list::none();
    out = add_turned(ps, out);
    out
}

/// The venue and coin of each zone, by venue and then by coin.
pub open spec fn stale_groups_spec(rows: Seq<OrderView>) -> Seq<(Seq<char>, Seq<char>)> {
    list::sorted_entries(turned_spec(list::sorted_entries(by_symbol_spec(rows))))
}

/// The venue and coin of each zone, by venue and then by coin.
pub fn stale_groups(rows: &Vec<Order>) -> (r: Vec<(String, String)>)
    ensures
        r.deep_view() == stale_groups_spec(rows.deep_view()),
{
    list::sort_entries(&turned(&list::sort_entries(&by_symbol(rows))))
}

/// Of the first `n` rows.
pub open spec fn add_group_spec(
    exch: Seq<char>,
    sym: Seq<char>,
    xs: Seq<OrderView>,
    out: Seq<OrderView>,
    n: nat,
) -> Seq<OrderView> {
    out + list::kept(xs, |o: OrderView| o.exch == exch && o.sym == sym, n)
}

fn add_group(exch: &str, sym: &str, xs: &Vec<Order>, out: Vec<Order>) -> (r: Vec<Order>)
    ensures
        r.deep_view() == add_group_spec(exch@, sym@, xs.deep_view(), out.deep_view(), xs@.len()),
{
    let ghost out0 = out.deep_view();
    let mut out = out;
    let mut i: usize = 0;
    while i < xs.len()
        invariant
            i <= xs@.len(),
            out.deep_view() == add_group_spec(exch@, sym@, xs.deep_view(), out0, i as nat),
        decreases xs@.len() - i,
    {
        let o = &xs[i];
        if text::same(o.exch.as_str(), exch) && text::same(o.sym.as_str(), sym) {
            list::push(&mut out, o.dup());
        }
        assert(out.deep_view() =~= add_group_spec(
            exch@,
            sym@,
            xs.deep_view(),
            out0,
            (i + 1) as nat,
        ));
        i = i + 1;
    }
    out
}

/// The zones of a coin on a venue.
pub open spec fn group_rows_spec(
    rows: Seq<OrderView>,
    exch: Seq<char>,
    sym: Seq<char>,
) -> Seq<OrderView> {
    add_group_spec(exch, sym, rows, Seq::<OrderView>::empty(), rows.len())
}

fn group_rows(rows: &Vec<Order>, exch: &str, sym: &str) -> (r: Vec<Order>)
    ensures
        r.deep_view() == group_rows_spec(rows.deep_view(), exch@, sym@),
{
    let mut out: Vec<Order> = list::none();
    out = add_group(exch, sym, rows, out);
    out
}

/// Whether a coin runs.
pub open spec fn is_running_spec(reg: Doc, sym: Seq<char>) -> bool {
    match reg.get("coins"@) {
        Some(coins) => match coins.get(sym) {
            Some(coin) => match coin.get("running"@) {
                Some(v) => v.truthy(),
                None => false,
            },
            None => false,
        },
        None => false,
    }
}

/// Whether a coin runs.
pub fn is_running(reg: &Json, sym: &str) -> (r: bool)
    ensures
        r == is_running_spec(reg@, sym@),
{
    let coins = match reg.get("coins") {
        Some(v) => v,
        None => {
            return false;
        },
    };
    let coin = match coins.get(sym) {
        Some(v) => v,
        None => {
            return false;
        },
    };
    let v = match coin.get("running") {
        Some(v) => v,
        None => {
            return false;
        },
    };
    v.truthy()
}

/// Cancel one zone for its unspent budget. One whose final status is unreadable may have filled
/// since the last poll: buying its unspent at market would spend other free cash.
pub open spec fn sweep_zone_spec(
    w: WorkView,
    o: OrderView,
    budget: Double,
    answers: Seq<AnswerView>,
) -> (WorkView, Double) {
    if deploy::stopped_spec(w) {
        (w, budget)
    } else {
        let (v, c) = planning::cancel_ours_spec(w, o, deploy::BULL_NOTE@, answers);
        if deploy::stopped_spec(v) {
            (v, budget)
        } else {
            match c {
                CancelledView::Refused(e) => (
                    deploy::say_warn_spec(
                        v,
                        Some(o.sym),
                        None,
                        "bull sweep: cancel failed (may have just filled, reconciles next run): "@
                            + e,
                    ),
                    budget,
                ),
                CancelledView::Gone(kind, spent) => if kind == Settled::Unreadable {
                    (
                        deploy::say_warn_spec(
                            v,
                            Some(o.sym),
                            None,
                            "bull sweep: "@
                                + o.client_id
                                + " final status unreadable, its budget is not swept"@,
                        ),
                        budget,
                    )
                } else {
                    (v, budget.add_spec(planning::unspent_spec(o, kind, spent)))
                },
            }
        }
    }
}

fn sweep_zone(w: Work, o: &Order, budget: Double, answers: &Vec<Answer>) -> (r: (Work, Double))
    ensures
        r.deep_view() == sweep_zone_spec(
            w.deep_view(),
            o.deep_view(),
            budget,
            answers.deep_view(),
        ),
{
    if deploy::stopped(&w) {
        return (w, budget);
    }
    let (v, c) = planning::cancel_ours(w, o, deploy::BULL_NOTE, answers);
    if deploy::stopped(&v) {
        return (v, budget);
    }
    match c {
        Cancelled::Refused(e) => {
            let mut line = text::owned(
                "bull sweep: cancel failed (may have just filled, reconciles next run): ",
            );
            line.push_str(e.as_str());
            (deploy::say_warn(v, Some(o.sym.as_str()), list::text_ref(&None), line), budget)
        },
        Cancelled::Gone(kind, spent) => {
            if kind == Settled::Unreadable {
                let mut line2 = text::owned("bull sweep: ");
                line2.push_str(o.client_id.as_str());
                line2.push_str(" final status unreadable, its budget is not swept");
                return (
                    deploy::say_warn(v, Some(o.sym.as_str()), list::text_ref(&None), line2),
                    budget,
                );
            }
            (v, budget.plus(planning::unspent(o, kind, spent)))
        },
    }
}

/// The first `n` of them.
pub open spec fn sweep_each_zone_spec(
    answers: Seq<AnswerView>,
    xs: Seq<OrderView>,
    w: WorkView,
    budget: Double,
    n: nat,
) -> (WorkView, Double)
    decreases n,
{
    if n == 0 {
        (w, budget)
    } else {
        let (w, budget) = sweep_each_zone_spec(answers, xs, w, budget, (n - 1) as nat);
        let o = xs[n - 1];
        let (v, more) = sweep_zone_spec(w, o, budget, answers);
        (v, more)
    }
}

fn sweep_each_zone(
    answers: &Vec<Answer>,
    xs: &Vec<Order>,
    w: Work,
    budget: Double,
) -> (r: (Work, Double))
    ensures
        r.deep_view() == sweep_each_zone_spec(
            answers.deep_view(),
            xs.deep_view(),
            w.deep_view(),
            budget,
            xs@.len(),
        ),
{
    let ghost w0 = w.deep_view();
    let ghost budget0 = budget;
    let mut w = w;
    let mut budget = budget;
    let mut i: usize = 0;
    while i < xs.len()
        invariant
            i <= xs@.len(),
            (w.deep_view(), budget) == sweep_each_zone_spec(
                answers.deep_view(),
                xs.deep_view(),
                w0,
                budget0,
                i as nat,
            ),
        decreases xs@.len() - i,
    {
        let o = &xs[i];
        let (v, more) = sweep_zone(w, o, budget, answers);
        w = v;
        budget = more;
        i = i + 1;
    }
    (w, budget)
}

/// Cancel a coin's zones for their unspent budget.
pub open spec fn sweep_zones_spec(
    w: WorkView,
    rows: Seq<OrderView>,
    answers: Seq<AnswerView>,
) -> (WorkView, Double) {
    sweep_each_zone_spec(answers, rows, w, Double::zero_spec(), rows.len())
}

fn sweep_zones(w: Work, rows: &Vec<Order>, answers: &Vec<Answer>) -> (r: (Work, Double))
    ensures
        r.deep_view() == sweep_zones_spec(w.deep_view(), rows.deep_view(), answers.deep_view()),
{
    let mut w = w;
    let mut budget = Double::zero();
    let (next_w, next_budget) = sweep_each_zone(answers, rows, w, budget);
    w = next_w;
    budget = next_budget;
    (w, budget)
}

/// What a sweep buys.
#[derive(Clone, Copy, Debug)]
pub struct Sizing {
    pub spend: Double,
    /// Nothing, and that was reported.
    pub left_free: bool,
}

impl DeepView for Sizing {
    type V = Sizing;

    open spec fn deep_view(&self) -> Sizing {
        *self
    }
}

/// Never spend more than the venue holds free beyond the top-up reserve: the journal's unspent can
/// be stale (a fill the venue has not reported).
pub open spec fn cap_spend_spec(
    w: WorkView,
    exch: Seq<char>,
    sym: Seq<char>,
    q: Seq<char>,
    held: Double,
    mkt: Double,
    book: Seq<(Seq<char>, Balance)>,
    answers: Seq<AnswerView>,
) -> (WorkView, Sizing) {
    let free = deploy::held_of_spec(book, q).free;
    let (v, spendable) = deploy::need_number_spec(
        w,
        AskView::FloorCents(
            free.sub_spec(held).max_spec(Double::zero_spec()).mul_spec(
                Double::ratio_spec(997, 1000),
            ),
        ),
        answers,
    );
    if deploy::stopped_spec(v) {
        (v, Sizing { spend: Double::zero_spec(), left_free: true })
    } else if spendable.lt_spec(mkt) {
        (
            deploy::say_warn_spec(
                v,
                Some(sym),
                None,
                "bull sweep: "@
                    + sym
                    + " on "@
                    + exch
                    + " capped at $"@
                    + pyfmt::fixed_spec(spendable, 2)
                    + " (free "@
                    + q
                    + " $"@
                    + pyfmt::fixed_spec(free, 2)
                    + " minus $"@
                    + pyfmt::fixed_spec(held, 2)
                    + " held) instead of $"@
                    + pyfmt::fixed_spec(mkt, 2),
            ),
            Sizing { spend: spendable, left_free: false },
        )
    } else {
        (v, Sizing { spend: mkt, left_free: false })
    }
}

fn cap_spend(
    w: Work,
    exch: &str,
    sym: &str,
    q: &str,
    held: Double,
    mkt: Double,
    book: &Vec<(String, Balance)>,
    answers: &Vec<Answer>,
) -> (r: (Work, Sizing))
    ensures
        r.deep_view() == cap_spend_spec(
            w.deep_view(),
            exch@,
            sym@,
            q@,
            held,
            mkt,
            book.deep_view(),
            answers.deep_view(),
        ),
{
    let free = deploy::held_of(book, q).free;
    let (v, spendable) = deploy::need_number(
        w,
        Ask::FloorCents(free.minus(held).max(Double::zero()).times(Double::ratio(997, 1000))),
        answers,
    );
    if deploy::stopped(&v) {
        return (v, Sizing { spend: Double::zero(), left_free: true });
    }
    if spendable.lt(mkt) {
        let mut line = text::owned("bull sweep: ");
        line.push_str(sym);
        line.push_str(" on ");
        line.push_str(exch);
        line.push_str(" capped at $");
        line.push_str(pyfmt::fixed(spendable, 2).as_str());
        line.push_str(" (free ");
        line.push_str(q);
        line.push_str(" $");
        line.push_str(pyfmt::fixed(free, 2).as_str());
        line.push_str(" minus $");
        line.push_str(pyfmt::fixed(held, 2).as_str());
        line.push_str(" held) instead of $");
        line.push_str(pyfmt::fixed(mkt, 2).as_str());
        return (
            deploy::say_warn(v, Some(sym), list::text_ref(&None), line),
            Sizing { spend: spendable, left_free: false },
        );
    }
    (v, Sizing { spend: mkt, left_free: false })
}

/// What a sweep of a budget buys.
pub open spec fn size_sweep_spec(
    w: WorkView,
    cfg: ConfigView,
    exch: Seq<char>,
    sym: Seq<char>,
    budget: Double,
    held: Double,
    answers: Seq<AnswerView>,
) -> (WorkView, Sizing) {
    let (w1, mkt) = deploy::need_number_spec(
        w,
        AskView::FloorCents(budget.mul_spec(Double::ratio_spec(997, 1000))),
        answers,
    );
    if deploy::stopped_spec(w1) {
        (w1, Sizing { spend: Double::zero_spec(), left_free: true })
    } else if !cfg.deploy_min_usd.le_spec(mkt) {
        (w1, Sizing { spend: mkt, left_free: false })
    } else {
        let (w2, got) = deploy::ask_book_spec(w1, AskView::BalancesFull(exch), answers);
        if deploy::stopped_spec(w2) {
            (w2, Sizing { spend: Double::zero_spec(), left_free: true })
        } else {
            match got {
                Err(e) => (
                    deploy::say_warn_spec(
                        w2,
                        Some(sym),
                        None,
                        "bull sweep: "@
                            + exch
                            + " balances unreadable, "@
                            + sym
                            + " cash left free: "@
                            + e,
                    ),
                    Sizing { spend: Double::zero_spec(), left_free: true },
                ),
                Ok(book) => cap_spend_spec(
                    w2,
                    exch,
                    sym,
                    deploy::quote_of_spec(cfg, exch),
                    held,
                    mkt,
                    book,
                    answers,
                ),
            }
        }
    }
}

fn size_sweep(
    w: Work,
    cfg: &Config,
    exch: &str,
    sym: &str,
    budget: Double,
    held: Double,
    answers: &Vec<Answer>,
) -> (r: (Work, Sizing))
    ensures
        r.deep_view() == size_sweep_spec(
            w.deep_view(),
            cfg.deep_view(),
            exch@,
            sym@,
            budget,
            held,
            answers.deep_view(),
        ),
{
    let (w1, mkt) = deploy::need_number(
        w,
        Ask::FloorCents(budget.times(Double::ratio(997, 1000))),
        answers,
    );
    if deploy::stopped(&w1) {
        return (w1, Sizing { spend: Double::zero(), left_free: true });
    }
    if !cfg.deploy_min_usd.le(mkt) {
        return (w1, Sizing { spend: mkt, left_free: false });
    }
    let (w2, got) = deploy::ask_book(w1, Ask::BalancesFull(text::owned(exch)), answers);
    if deploy::stopped(&w2) {
        return (w2, Sizing { spend: Double::zero(), left_free: true });
    }
    match got {
        Err(e) => {
            let mut line = text::owned("bull sweep: ");
            line.push_str(exch);
            line.push_str(" balances unreadable, ");
            line.push_str(sym);
            line.push_str(" cash left free: ");
            line.push_str(e.as_str());
            (
                deploy::say_warn(w2, Some(sym), list::text_ref(&None), line),
                Sizing { spend: Double::zero(), left_free: true },
            )
        },
        Ok(book) => cap_spend(
            w2,
            exch,
            sym,
            deploy::quote_of(cfg, exch).as_str(),
            held,
            mkt,
            &book,
            answers,
        ),
    }
}

/// The journal row of a sweep that is about to be sent.
pub open spec fn sweep_row_spec(
    cid: Seq<char>,
    exch: Seq<char>,
    sym: Seq<char>,
    pair: Seq<char>,
    spend: Double,
    now: Double,
    zones: usize,
    days: Double,
    age: i64,
) -> OrderView {
    let row = journal::blank_row_spec(cid);
    let row = OrderView { sym, ..row };
    let row = OrderView { exch, ..row };
    let row = OrderView { pair, ..row };
    let row = OrderView { side: "buy"@, ..row };
    let row = OrderView { kind: "deploy_buy"@, ..row };
    let row = OrderView { status: "pending"@, ..row };
    let row = OrderView { quote: Some(spend), ..row };
    let row = OrderView { rung: Some(0), ..row };
    let row = OrderView { ts: Some(now), ..row };
    OrderView {
        note: Some(
            "bull sweep: "@
                + text::dec(zones as nat)
                + " zone(s) resting >= "@
                + crate::watch::pyfmt::g_spec(days, 6)
                + "d, bull "@
                + text::dec_int(age as int)
                + "d old"@,
        ),
        ..row
    }
}

fn sweep_row(
    cid: &str,
    exch: &str,
    sym: &str,
    pair: &str,
    spend: Double,
    now: Double,
    zones: usize,
    days: Double,
    age: i64,
) -> (r: Order)
    ensures
        r.deep_view() == sweep_row_spec(cid@, exch@, sym@, pair@, spend, now, zones, days, age),
{
    let mut row = Order::new(cid);
    row.sym = text::owned(sym);
    row.exch = text::owned(exch);
    row.pair = text::owned(pair);
    row.side = text::owned("buy");
    row.kind = text::owned("deploy_buy");
    row.status = text::owned("pending");
    row.quote = Some(spend);
    row.rung = Some(0);
    row.ts = Some(now);
    let mut line = text::owned("bull sweep: ");
    line.push_str(text::dec_u64(zones as u64).as_str());
    line.push_str(" zone(s) resting >= ");
    line.push_str(crate::watch::pyfmt::g(days, 6).as_str());
    line.push_str("d, bull ");
    line.push_str(text::dec_i64(age).as_str());
    line.push_str("d old");
    row.note = Some(line);
    row
}

/// A sweep's row after the venue took it.
pub open spec fn bought_row_spec(row: OrderView, p: ParsedOrderView) -> OrderView {
    let row = OrderView {
        order_id: if p.order_id == ""@ {
            None
        } else {
            Some(p.order_id)
        },
        ..row
    };
    let row = OrderView { status: "new"@, ..row };
    OrderView { last_error: None, ..row }
}

fn bought_row(row: Order, p: &ParsedOrder) -> (r: Order)
    ensures
        r.deep_view() == bought_row_spec(row.deep_view(), p.deep_view()),
{
    let mut row = row;
    row.order_id = if text::same(p.order_id.as_str(), "") {
        None
    } else {
        Some(text::owned(p.order_id.as_str()))
    };
    row.status = text::owned("new");
    row.last_error = None;
    row
}

/// A sweep's row after the venue refused it.
pub open spec fn unsold_row_spec(row: OrderView, why: Seq<char>) -> OrderView {
    let row = OrderView { status: "error"@, ..row };
    OrderView { last_error: Some(why), ..row }
}

fn unsold_row(row: Order, why: &str) -> (r: Order)
    ensures
        r.deep_view() == unsold_row_spec(row.deep_view(), why@),
{
    let mut row = row;
    row.status = text::owned("error");
    row.last_error = Some(text::owned(why));
    row
}

/// Journal a sweep, and buy.
pub open spec fn buy_at_market_spec(
    w: WorkView,
    cfg: ConfigView,
    row: OrderView,
    spend: Double,
    zones: usize,
    age: i64,
    ids: Seq<Seq<char>>,
    answers: Seq<AnswerView>,
) -> (WorkView, Seq<Seq<char>>) {
    let w1 = deploy::save_spec(deploy::write_row_spec(w, row), answers);
    if deploy::stopped_spec(w1) {
        (w1, ids)
    } else {
        let (w2, got) = deploy::ask_placed_spec(
            w1,
            AskView::MarketBuy(row.exch, row.pair, spend, Some(row.client_id)),
            answers,
        );
        if deploy::stopped_spec(w2) {
            (w2, ids)
        } else {
            let sym = row.sym;
            let exch = row.exch;
            match got {
                Ok(p) => {
                    let ids = ids.push(row.client_id);
                    let w3 = deploy::save_spec(
                        deploy::write_row_spec(w2, bought_row_spec(row, p)),
                        answers,
                    );
                    if deploy::stopped_spec(w3) {
                        (w3, ids)
                    } else {
                        (
                            deploy::say_done_spec(
                                w3,
                                Some(sym),
                                Some("buy"@),
                                true,
                                "BULL SWEEP "@
                                    + sym
                                    + " on "@
                                    + exch
                                    + ": market $"@
                                    + pyfmt::fixed_spec(spend, 2)
                                    + " from "@
                                    + text::dec(zones as nat)
                                    + " zone(s) resting >= "@
                                    + crate::watch::pyfmt::g_spec(cfg.deploy_bull_sweep_days, 6)
                                    + "d (bull "@
                                    + text::dec_int(age as int)
                                    + "d old, cutoff "@
                                    + crate::watch::pyfmt::g_spec(
                                        cfg.deploy_bull_sweep_max_age,
                                        6,
                                    )
                                    + "d)"@,
                            ),
                            ids,
                        )
                    }
                },
                Err(e) => {
                    let w3 = deploy::save_spec(
                        deploy::write_row_spec(w2, unsold_row_spec(row, e)),
                        answers,
                    );
                    if deploy::stopped_spec(w3) {
                        (w3, ids)
                    } else {
                        (
                            deploy::say_warn_spec(
                                w3,
                                Some(sym),
                                None,
                                "bull sweep: market buy "@
                                    + sym
                                    + " $"@
                                    + pyfmt::fixed_spec(spend, 2)
                                    + " FAILED, cash left free: "@
                                    + e,
                            ),
                            ids,
                        )
                    }
                },
            }
        }
    }
}

fn buy_at_market(
    w: Work,
    cfg: &Config,
    row: Order,
    spend: Double,
    zones: usize,
    age: i64,
    ids: Vec<String>,
    answers: &Vec<Answer>,
) -> (r: (Work, Vec<String>))
    ensures
        r.deep_view() == buy_at_market_spec(
            w.deep_view(),
            cfg.deep_view(),
            row.deep_view(),
            spend,
            zones,
            age,
            ids.deep_view(),
            answers.deep_view(),
        ),
{
    let mut ids = ids;
    let w1 = deploy::save(deploy::write_row(w, row.dup()), answers);
    if deploy::stopped(&w1) {
        return (w1, ids);
    }
    let (w2, got) = deploy::ask_placed(
        w1,
        Ask::MarketBuy(
            text::owned(row.exch.as_str()),
            text::owned(row.pair.as_str()),
            spend,
            Some(text::owned(row.client_id.as_str())),
        ),
        answers,
    );
    if deploy::stopped(&w2) {
        return (w2, ids);
    }
    let sym = row.sym.dup();
    let exch = row.exch.dup();
    match got {
        Ok(p) => {
            list::push(&mut ids, text::owned(row.client_id.as_str()));
            let w3 = deploy::save(deploy::write_row(w2, bought_row(row, &p)), answers);
            if deploy::stopped(&w3) {
                return (w3, ids);
            }
            let mut line = text::owned("BULL SWEEP ");
            line.push_str(sym.as_str());
            line.push_str(" on ");
            line.push_str(exch.as_str());
            line.push_str(": market $");
            line.push_str(pyfmt::fixed(spend, 2).as_str());
            line.push_str(" from ");
            line.push_str(text::dec_u64(zones as u64).as_str());
            line.push_str(" zone(s) resting >= ");
            line.push_str(crate::watch::pyfmt::g(cfg.deploy_bull_sweep_days, 6).as_str());
            line.push_str("d (bull ");
            line.push_str(text::dec_i64(age).as_str());
            line.push_str("d old, cutoff ");
            line.push_str(crate::watch::pyfmt::g(cfg.deploy_bull_sweep_max_age, 6).as_str());
            line.push_str("d)");
            (deploy::say_done(w3, Some(sym.as_str()), Some("buy"), true, line), ids)
        },
        Err(e) => {
            let w3 = deploy::save(deploy::write_row(w2, unsold_row(row, e.as_str())), answers);
            if deploy::stopped(&w3) {
                return (w3, ids);
            }
            let mut line2 = text::owned("bull sweep: market buy ");
            line2.push_str(sym.as_str());
            line2.push_str(" $");
            line2.push_str(pyfmt::fixed(spend, 2).as_str());
            line2.push_str(" FAILED, cash left free: ");
            line2.push_str(e.as_str());
            (deploy::say_warn(w3, Some(sym.as_str()), list::text_ref(&None), line2), ids)
        },
    }
}

/// The pair of the first zone.
pub open spec fn first_pair_spec(rows: Seq<OrderView>) -> Seq<char> {
    match list::item(rows, 0) {
        Some(o) => o.pair,
        None => ""@,
    }
}

fn first_pair(rows: &Vec<Order>) -> (r: String)
    ensures
        r@ == first_pair_spec(rows.deep_view()),
{
    let o = match list::at(rows, 0) {
        Some(v) => v,
        None => {
            return text::owned("");
        },
    };
    text::owned(o.pair.as_str())
}

/// Buy what a sweep was sized to; a sum under the minimum is left free.
pub open spec fn sweep_sized_spec(
    w: WorkView,
    cfg: ConfigView,
    exch: Seq<char>,
    sym: Seq<char>,
    rows: Seq<OrderView>,
    budget: Double,
    s: Sizing,
    now: Double,
    age: i64,
    ids: Seq<Seq<char>>,
    answers: Seq<AnswerView>,
) -> (WorkView, Seq<Seq<char>>) {
    if s.left_free {
        (w, ids)
    } else if s.spend.lt_spec(cfg.deploy_min_usd) {
        if !budget.eq_spec(Double::zero_spec()) {
            (
                deploy::say_warn_spec(
                    w,
                    Some(sym),
                    None,
                    "bull sweep: $"@
                        + pyfmt::fixed_spec(budget, 2)
                        + " "@
                        + sym
                        + " on "@
                        + exch
                        + " under $"@
                        + crate::watch::pyfmt::g_spec(cfg.deploy_min_usd, 6)
                        + ", left free"@,
                ),
                ids,
            )
        } else {
            (w, ids)
        }
    } else {
        let cid = planning::id_prefix_spec(exch)
            + sym
            + text::dec_int((now.cast_spec(i64::MIN as int, i64::MAX as int) as i64) as int)
            + "s"@;
        let row = sweep_row_spec(
            cid,
            exch,
            sym,
            first_pair_spec(rows),
            s.spend,
            now,
            (rows.len() as usize),
            cfg.deploy_bull_sweep_days,
            age,
        );
        buy_at_market_spec(w, cfg, row, s.spend, (rows.len() as usize), age, ids, answers)
    }
}

fn sweep_sized(
    w: Work,
    cfg: &Config,
    exch: &str,
    sym: &str,
    rows: &Vec<Order>,
    budget: Double,
    s: Sizing,
    now: Double,
    age: i64,
    ids: Vec<String>,
    answers: &Vec<Answer>,
) -> (r: (Work, Vec<String>))
    ensures
        r.deep_view() == sweep_sized_spec(
            w.deep_view(),
            cfg.deep_view(),
            exch@,
            sym@,
            rows.deep_view(),
            budget,
            s,
            now,
            age,
            ids.deep_view(),
            answers.deep_view(),
        ),
{
    if s.left_free {
        return (w, ids);
    }
    if s.spend.lt(cfg.deploy_min_usd) {
        if !budget.same(Double::zero()) {
            let mut line = text::owned("bull sweep: $");
            line.push_str(pyfmt::fixed(budget, 2).as_str());
            line.push_str(" ");
            line.push_str(sym);
            line.push_str(" on ");
            line.push_str(exch);
            line.push_str(" under $");
            line.push_str(crate::watch::pyfmt::g(cfg.deploy_min_usd, 6).as_str());
            line.push_str(", left free");
            return (deploy::say_warn(w, Some(sym), list::text_ref(&None), line), ids);
        }
        return (w, ids);
    }
    let mut cid = planning::id_prefix(exch);
    cid.push_str(sym);
    cid.push_str(text::dec_i64(now.to_i64()).as_str());
    cid.push_str("s");
    let row = sweep_row(
        cid.as_str(),
        exch,
        sym,
        first_pair(rows).as_str(),
        s.spend,
        now,
        rows.len(),
        cfg.deploy_bull_sweep_days,
        age,
    );
    buy_at_market(w, cfg, row, s.spend, rows.len(), age, ids, answers)
}

/// Sweep a coin's zones on a venue, if the coin runs.
pub open spec fn sweep_group_spec(
    w: WorkView,
    cfg: ConfigView,
    reg: Doc,
    names: Seq<Seq<char>>,
    reserves: Seq<(Seq<char>, Double)>,
    exch: Seq<char>,
    sym: Seq<char>,
    stale: Seq<OrderView>,
    now: Double,
    age: i64,
    ids: Seq<Seq<char>>,
    answers: Seq<AnswerView>,
) -> (WorkView, Seq<Seq<char>>) {
    if deploy::stopped_spec(w) || !is_running_spec(reg, sym) || !names.contains(exch) {
        (w, ids)
    } else {
        let (w1, missing) = deploy::reach_spec(w, exch, answers);
        if deploy::stopped_spec(w1) || missing is Some {
            (w1, ids)
        } else {
            let rows = group_rows_spec(stale, exch, sym);
            let (w2, budget) = sweep_zones_spec(w1, rows, answers);
            if deploy::stopped_spec(w2) {
                (w2, ids)
            } else {
                let (w3, s) = size_sweep_spec(
                    w2,
                    cfg,
                    exch,
                    sym,
                    budget,
                    deploy::free_in_spec(reserves, exch),
                    answers,
                );
                if deploy::stopped_spec(w3) {
                    (w3, ids)
                } else {
                    sweep_sized_spec(w3, cfg, exch, sym, rows, budget, s, now, age, ids, answers)
                }
            }
        }
    }
}

fn sweep_group(
    w: Work,
    cfg: &Config,
    reg: &Json,
    names: &Vec<String>,
    reserves: &Vec<(String, Double)>,
    exch: &str,
    sym: &str,
    stale: &Vec<Order>,
    now: Double,
    age: i64,
    ids: Vec<String>,
    answers: &Vec<Answer>,
) -> (r: (Work, Vec<String>))
    ensures
        r.deep_view() == sweep_group_spec(
            w.deep_view(),
            cfg.deep_view(),
            reg@,
            names.deep_view(),
            reserves.deep_view(),
            exch@,
            sym@,
            stale.deep_view(),
            now,
            age,
            ids.deep_view(),
            answers.deep_view(),
        ),
{
    if deploy::stopped(&w) || !is_running(reg, sym) || !list::holds(names, exch) {
        return (w, ids);
    }
    let (w1, missing) = deploy::reach(w, exch, answers);
    if deploy::stopped(&w1) || missing.is_some() {
        return (w1, ids);
    }
    let rows = group_rows(stale, exch, sym);
    let (w2, budget) = sweep_zones(w1, &rows, answers);
    if deploy::stopped(&w2) {
        return (w2, ids);
    }
    let (w3, s) = size_sweep(w2, cfg, exch, sym, budget, deploy::free_in(reserves, exch), answers);
    if deploy::stopped(&w3) {
        return (w3, ids);
    }
    sweep_sized(w3, cfg, exch, sym, &rows, budget, s, now, age, ids, answers)
}

/// The first `n` of them.
pub open spec fn sweep_groups_spec(
    age: i64,
    answers: Seq<AnswerView>,
    cfg: ConfigView,
    names: Seq<Seq<char>>,
    now: Double,
    reg: Doc,
    reserves: Seq<(Seq<char>, Double)>,
    stale: Seq<OrderView>,
    xs: Seq<(Seq<char>, Seq<char>)>,
    w: WorkView,
    ids: Seq<Seq<char>>,
    n: nat,
) -> (WorkView, Seq<Seq<char>>)
    decreases n,
{
    if n == 0 {
        (w, ids)
    } else {
        let (w, ids) = sweep_groups_spec(
            age,
            answers,
            cfg,
            names,
            now,
            reg,
            reserves,
            stale,
            xs,
            w,
            ids,
            (n - 1) as nat,
        );
        let it = xs[n - 1];
        let exch = it.0;
        let sym = it.1;
        let (w1, ids1) = sweep_group_spec(
            w,
            cfg,
            reg,
            names,
            reserves,
            exch,
            sym,
            stale,
            now,
            age,
            ids,
            answers,
        );
        (w1, ids1)
    }
}

fn sweep_groups(
    age: i64,
    answers: &Vec<Answer>,
    cfg: &Config,
    names: &Vec<String>,
    now: Double,
    reg: &Json,
    reserves: &Vec<(String, Double)>,
    stale: &Vec<Order>,
    xs: &Vec<(String, String)>,
    w: Work,
    ids: Vec<String>,
) -> (r: (Work, Vec<String>))
    ensures
        r.deep_view() == sweep_groups_spec(
            age,
            answers.deep_view(),
            cfg.deep_view(),
            names.deep_view(),
            now,
            reg@,
            reserves.deep_view(),
            stale.deep_view(),
            xs.deep_view(),
            w.deep_view(),
            ids.deep_view(),
            xs@.len(),
        ),
{
    let ghost w0 = w.deep_view();
    let ghost ids0 = ids.deep_view();
    let mut w = w;
    let mut ids = ids;
    let mut i: usize = 0;
    while i < xs.len()
        invariant
            i <= xs@.len(),
            (w.deep_view(), ids.deep_view()) == sweep_groups_spec(
                age,
                answers.deep_view(),
                cfg.deep_view(),
                names.deep_view(),
                now,
                reg@,
                reserves.deep_view(),
                stale.deep_view(),
                xs.deep_view(),
                w0,
                ids0,
                i as nat,
            ),
        decreases xs@.len() - i,
    {
        let it = &xs[i];
        let exch = it.0.as_str();
        let sym = it.1.as_str();
        let (w1, ids1) = sweep_group(
            w,
            cfg,
            reg,
            names,
            reserves,
            exch,
            sym,
            stale,
            now,
            age,
            ids,
            answers,
        );
        w = w1;
        ids = ids1;
        i = i + 1;
    }
    (w, ids)
}

/// Sweep every coin's stale zones.
pub open spec fn sweep_all_spec(
    w: WorkView,
    cfg: ConfigView,
    reg: Doc,
    names: Seq<Seq<char>>,
    reserves: Seq<(Seq<char>, Double)>,
    now: Double,
    age: i64,
    answers: Seq<AnswerView>,
) -> (WorkView, Seq<Seq<char>>) {
    let stale = stale_zones_spec(
        journal::open_rows_spec(journal::rows_alone(w.journal), Some("deploy_buy"@)),
        now,
        cfg.deploy_bull_sweep_days,
    );
    sweep_groups_spec(
        age,
        answers,
        cfg,
        names,
        now,
        reg,
        reserves,
        stale,
        stale_groups_spec(stale),
        w,
        Seq::<Seq<char>>::empty(),
        stale_groups_spec(stale).len(),
    )
}

fn sweep_all(
    w: Work,
    cfg: &Config,
    reg: &Json,
    names: &Vec<String>,
    reserves: &Vec<(String, Double)>,
    now: Double,
    age: i64,
    answers: &Vec<Answer>,
) -> (r: (Work, Vec<String>))
    ensures
        r.deep_view() == sweep_all_spec(
            w.deep_view(),
            cfg.deep_view(),
            reg@,
            names.deep_view(),
            reserves.deep_view(),
            now,
            age,
            answers.deep_view(),
        ),
{
    let mut w = w;
    let stale = stale_zones(
        &journal::open_rows(&&w.journal.rows(), Some("deploy_buy")),
        now,
        cfg.deploy_bull_sweep_days,
    );
    let mut ids: Vec<String> = list::none();
    let (next_w, next_ids) = sweep_groups(
        age,
        answers,
        cfg,
        names,
        now,
        reg,
        reserves,
        &stale,
        &stale_groups(&stale),
        w,
        ids,
    );
    w = next_w;
    ids = next_ids;
    (w, ids)
}

/// The first `n` of them.
pub open spec fn add_label_spec(xs: Seq<Doc>, out: Seq<Seq<char>>, n: nat) -> Seq<Seq<char>> {
    out + Seq::new(
        n,
        |i: int| {
            let v = xs[i];
            pyfmt::shown(pyfmt::ordered_doc(v))
        },
    )
}

fn add_label(xs: &Vec<Json>, out: Vec<String>) -> (r: Vec<String>)
    ensures
        r.deep_view() == add_label_spec(xs.deep_view(), out.deep_view(), xs@.len()),
{
    let ghost out0 = out.deep_view();
    let mut out = out;
    let mut i: usize = 0;
    while i < xs.len()
        invariant
            i <= xs@.len(),
            out.deep_view() == add_label_spec(xs.deep_view(), out0, i as nat),
        decreases xs@.len() - i,
    {
        let v = &xs[i];
        list::push(&mut out, pyfmt::value_str(v));
        assert(out.deep_view() =~= add_label_spec(xs.deep_view(), out0, (i + 1) as nat));
        i = i + 1;
    }
    out
}

/// The daily labels.
pub open spec fn label_texts_spec(hist: Doc) -> Seq<Seq<char>> {
    add_label_spec(
        hist.get_or_null("labels"@).items(),
        Seq::<Seq<char>>::empty(),
        hist.get_or_null("labels"@).items().len(),
    )
}

fn label_texts(hist: &Json) -> (r: Vec<String>)
    ensures
        r.deep_view() == label_texts_spec(hist@),
{
    let mut out: Vec<String> = list::none();
    out = add_label(&json::items(&hist.get_copy("labels")), out);
    out
}

/// Whether the market's label is `bull`.
pub open spec fn market_is_bull_spec(reg: Doc) -> bool {
    match reg.get("market"@) {
        Some(m) => m == Doc::Str("bull"@),
        None => false,
    }
}

fn market_is_bull(reg: &Json) -> (r: bool)
    ensures
        r == market_is_bull_spec(reg@),
{
    let m = match reg.get("market") {
        Some(v) => v,
        None => {
            return false;
        },
    };
    m.is_text("bull")
}

/// Sweep while the bull is young.
pub open spec fn sweep_bull_spec(
    w: WorkView,
    cfg: ConfigView,
    reg: Doc,
    hist: Doc,
    names: Seq<Seq<char>>,
    reserves: Seq<(Seq<char>, Double)>,
    now: Double,
    answers: Seq<AnswerView>,
) -> (WorkView, Seq<Seq<char>>) {
    if !market_is_bull_spec(reg) {
        (w, Seq::<Seq<char>>::empty())
    } else {
        let (v, a) = deploy::asked_spec(w, AskView::BullAge(label_texts_spec(hist)), answers);
        if deploy::stopped_spec(v) {
            (v, Seq::<Seq<char>>::empty())
        } else {
            match a {
                AnswerView::Age(got) => match got {
                    Some(age) => if cfg.deploy_bull_sweep_max_age.lt_spec(
                        Double::int_spec(age as int),
                    ) {
                        (v, Seq::<Seq<char>>::empty())
                    } else {
                        sweep_all_spec(v, cfg, reg, names, reserves, now, age, answers)
                    },
                    None => (v, Seq::<Seq<char>>::empty()),
                },
                _ => (deploy::failing_spec(v, "answer out of turn"@), Seq::<Seq<char>>::empty()),
            }
        }
    }
}

fn sweep_bull(
    w: Work,
    cfg: &Config,
    reg: &Json,
    hist: &Json,
    names: &Vec<String>,
    reserves: &Vec<(String, Double)>,
    now: Double,
    answers: &Vec<Answer>,
) -> (r: (Work, Vec<String>))
    ensures
        r.deep_view() == sweep_bull_spec(
            w.deep_view(),
            cfg.deep_view(),
            reg@,
            hist@,
            names.deep_view(),
            reserves.deep_view(),
            now,
            answers.deep_view(),
        ),
{
    if !market_is_bull(reg) {
        return (w, list::none::<String>());
    }
    let (v, a) = deploy::asked(w, Ask::BullAge(label_texts(hist)), answers);
    if deploy::stopped(&v) {
        return (v, list::none::<String>());
    }
    match a {
        Answer::Age(got) => match got {
            Some(age) => {
                if cfg.deploy_bull_sweep_max_age.lt(Double::of_int(age)) {
                    return (v, list::none::<String>());
                }
                sweep_all(v, cfg, reg, names, reserves, now, age, answers)
            },
            None => (v, list::none::<String>()),
        },
        _ => (deploy::failing(v, text::owned("answer out of turn")), list::none::<String>()),
    }
}

/// A sweep that could not read the regime.
pub open spec fn unreadable_spec(w: WorkView, why: Seq<char>) -> (WorkView, Seq<Seq<char>>) {
    (
        deploy::warn_spec(w, "bull sweep skipped: regime unreadable ("@ + why + ")"@),
        Seq::<Seq<char>>::empty(),
    )
}

fn unreadable(w: Work, why: &str) -> (r: (Work, Vec<String>))
    ensures
        r.deep_view() == unreadable_spec(w.deep_view(), why@),
{
    let mut line = text::owned("bull sweep skipped: regime unreadable (");
    line.push_str(why);
    line.push_str(")");
    (deploy::warn(w, line), list::none::<String>())
}

/// The bull sweep: market-buy the unspent budget of zones resting at least `deploy_bull_sweep_days`,
/// per coin, while the bull is young and the coin runs. The buy is capped at the venue's free quote
/// minus what `reserves` holds there.
pub open spec fn bull_sweep_spec(
    w: WorkView,
    cfg: ConfigView,
    names: Seq<Seq<char>>,
    now: Double,
    reserves: Seq<(Seq<char>, Double)>,
    answers: Seq<AnswerView>,
) -> (WorkView, Seq<Seq<char>>) {
    if !cfg.deploy_bull_sweep {
        (w, Seq::<Seq<char>>::empty())
    } else {
        let (w1, reg) = deploy::ask_doc_spec(w, AskView::Regime, answers);
        if deploy::stopped_spec(w1) {
            (w1, Seq::<Seq<char>>::empty())
        } else {
            match reg {
                Err(e) => unreadable_spec(w1, e),
                Ok(r) => {
                    let (w2, hist) = deploy::ask_doc_spec(w1, AskView::LabelHistory, answers);
                    if deploy::stopped_spec(w2) {
                        (w2, Seq::<Seq<char>>::empty())
                    } else {
                        match hist {
                            Err(e) => unreadable_spec(w2, e),
                            Ok(h) => sweep_bull_spec(w2, cfg, r, h, names, reserves, now, answers),
                        }
                    }
                },
            }
        }
    }
}

/// The bull sweep: market-buy the unspent budget of zones resting at least `deploy_bull_sweep_days`,
/// per coin, while the bull is young and the coin runs. The buy is capped at the venue's free quote
/// minus what `reserves` holds there.
pub fn bull_sweep(
    w: Work,
    cfg: &Config,
    names: &Vec<String>,
    now: Double,
    reserves: &Vec<(String, Double)>,
    answers: &Vec<Answer>,
) -> (r: (Work, Vec<String>))
    ensures
        r.deep_view() == bull_sweep_spec(
            w.deep_view(),
            cfg.deep_view(),
            names.deep_view(),
            now,
            reserves.deep_view(),
            answers.deep_view(),
        ),
{
    if !cfg.deploy_bull_sweep {
        return (w, list::none::<String>());
    }
    let (w1, reg) = deploy::ask_doc(w, Ask::Regime, answers);
    if deploy::stopped(&w1) {
        return (w1, list::none::<String>());
    }
    match reg {
        Err(e) => unreadable(w1, e.as_str()),
        Ok(r) => {
            let (w2, hist) = deploy::ask_doc(w1, Ask::LabelHistory, answers);
            if deploy::stopped(&w2) {
                return (w2, list::none::<String>());
            }
            match hist {
                Err(e) => unreadable(w2, e.as_str()),
                Ok(h) => sweep_bull(w2, cfg, &r, &h, names, reserves, now, answers),
            }
        },
    }
}

// ------------------------------------------------------------------ laws
/// A zone whose final status cannot be read adds nothing to what is bought.
pub proof fn law_an_unreadable_zone_is_not_swept(
    w: WorkView,
    o: OrderView,
    budget: Double,
    answers: Seq<AnswerView>,
)
    requires
        planning::cancel_ours_spec(w, o, deploy::BULL_NOTE@, answers).1 matches CancelledView::Gone(
            kind,
            _,
        ) && kind == Settled::Unreadable,
    ensures
        sweep_zone_spec(w, o, budget, answers).1 == budget,
{
}

/// Outside a bull market nothing is swept.
pub proof fn law_only_a_bull_is_swept(
    w: WorkView,
    cfg: ConfigView,
    reg: Doc,
    hist: Doc,
    names: Seq<Seq<char>>,
    reserves: Seq<(Seq<char>, Double)>,
    now: Double,
    answers: Seq<AnswerView>,
)
    requires
        reg.get("market"@) != Some(Doc::Str("bull"@)),
    ensures
        sweep_bull_spec(w, cfg, reg, hist, names, reserves, now, answers) == (
            w,
            Seq::<Seq<char>>::empty(),
        ),
{
}

/// A sweep's buy never exceeds the venue's free cash less the reserve: what may be spent of that
/// is asked for, and no more than the answer, or than the swept budget, is spent.
pub proof fn law_a_sweep_keeps_the_reserve(
    w: WorkView,
    exch: Seq<char>,
    sym: Seq<char>,
    q: Seq<char>,
    held: Double,
    mkt: Double,
    book: Seq<(Seq<char>, Balance)>,
    answers: Seq<AnswerView>,
    spendable: Double,
)
    requires
        !deploy::stopped_spec(w),
    ensures
        w.at >= answers.len() ==> cap_spend_spec(
            w,
            exch,
            sym,
            q,
            held,
            mkt,
            book,
            answers,
        ).0.ask == Some(
            AskView::FloorCents(
                deploy::held_of_spec(book, q).free.sub_spec(held).max_spec(
                    Double::zero_spec(),
                ).mul_spec(Double::ratio_spec(997, 1000)),
            ),
        ),
        w.at < answers.len() && answers[w.at as int] == AnswerView::Number(spendable) ==> {
            let spend = cap_spend_spec(w, exch, sym, q, held, mkt, book, answers).1.spend;
            &&& !spendable.lt_spec(spend)
            &&& spend == mkt || spend == spendable && spendable.lt_spec(mkt)
        },
{
}

/// A sweep under the minimum buys nothing.
pub proof fn law_a_sweep_under_the_minimum_buys_nothing(
    w: WorkView,
    cfg: ConfigView,
    exch: Seq<char>,
    sym: Seq<char>,
    rows: Seq<OrderView>,
    budget: Double,
    s: Sizing,
    now: Double,
    age: i64,
    ids: Seq<Seq<char>>,
    answers: Seq<AnswerView>,
)
    requires
        s.spend.lt_spec(cfg.deploy_min_usd),
    ensures
        ({
            let r = sweep_sized_spec(w, cfg, exch, sym, rows, budget, s, now, age, ids, answers);
            r.1 == ids && r.0.ask == w.ask && r.0.journal == w.journal
        }),
{
}

/// A sweep asks to spend its budget less the fee's room: between 99.6% and 99.8% of it.
pub proof fn law_a_sweep_leaves_room_for_the_fee(
    w: WorkView,
    cfg: ConfigView,
    exch: Seq<char>,
    sym: Seq<char>,
    budget: Double,
    held: Double,
)
    requires
        !deploy::stopped_spec(w),
        budget.finite(),
        budget.amount() >= 0x100_0000,
    ensures
        size_sweep_spec(w, cfg, exch, sym, budget, held, Seq::empty()).0.ask matches Some(
            AskView::FloorCents(x),
        ) && 996 * budget.amount() <= 1000 * x.amount() <= 998 * budget.amount(),
{
    rounding::lemma_part_of(budget, 997, 1000);
    let x = budget.mul_spec(Double::ratio_spec(997, 1000)).amount();
    let a = budget.amount();
    assert(996 * a <= 1000 * x <= 998 * a) by (nonlinear_arith)
        requires
            (0x10_0000 * 997 - 1000) * a <= 0x10_0000 * 1000 * x,
            0x10_0000 * 1000 * x <= (0x10_0000 * 997 + 1000) * a,
            a >= 0,
    ;
}

/// A spend is capped at what is free beside the reserve, less the fee's room, and at nothing where
/// the reserve takes it all.
pub proof fn law_a_spend_stays_beside_the_reserve(
    w: WorkView,
    exch: Seq<char>,
    sym: Seq<char>,
    q: Seq<char>,
    held: Double,
    mkt: Double,
    book: Seq<(Seq<char>, Balance)>,
    beside: Double,
)
    requires
        !deploy::stopped_spec(w),
        held.finite(),
        held.amount() >= 0,
        deploy::held_of_spec(book, q).free.finite(),
        beside.finite(),
        beside.amount() == deploy::held_of_spec(book, q).free.amount() - held.amount(),
    ensures
        cap_spend_spec(w, exch, sym, q, held, mkt, book, Seq::empty()).0.ask matches Some(
            AskView::FloorCents(x),
        ) && {
            &&& beside.amount() <= 0 ==> x.amount() == 0
            &&& beside.amount() >= 0x100_0000 ==> 996 * beside.amount() <= 1000 * x.amount() <= 998
                * beside.amount()
        },
{
    let zero = Double::zero_spec();
    let r = Double::ratio_spec(997, 1000);
    crate::double::lemma_scaled_zero();
    rounding::lemma_exact_difference(deploy::held_of_spec(book, q).free, held, beside);
    let t = deploy::held_of_spec(book, q).free.sub_spec(held).max_spec(zero);
    if beside.amount() <= 0 {
        rounding::lemma_ratio_error(997, 1000);
        assert(t.amount() * r.amount() == 0 * crate::double::unit()) by (nonlinear_arith)
            requires
                t.amount() == 0,
        ;
        rounding::lemma_exact_product(t, r, zero);
    }
    if beside.amount() >= 0x100_0000 {
        rounding::lemma_part_of(t, 997, 1000);
        let x = t.mul_spec(r).amount();
        let a = t.amount();
        assert(996 * a <= 1000 * x <= 998 * a) by (nonlinear_arith)
            requires
                (0x10_0000 * 997 - 1000) * a <= 0x10_0000 * 1000 * x,
                0x10_0000 * 1000 * x <= (0x10_0000 * 997 + 1000) * a,
                a >= 0,
        ;
    }
}

/// A zone is swept once it has rested for the days, and not before.
pub proof fn law_a_zone_is_swept_after_its_days(
    days: Double,
    now: Double,
    o: OrderView,
    rested: Double,
    span: Double,
)
    requires
        deploy::truthy_int_spec(o.rung),
        deploy::has_id_spec(o),
        days.finite(),
        now.finite(),
        rests_since_spec(o, now).finite(),
        rested.finite(),
        rested.amount() == now.amount() - rests_since_spec(o, now).amount(),
        span.finite(),
        span.amount() == 86400 * days.amount(),
    ensures
        add_stale_spec(days, now, seq![o], Seq::empty(), 1).len() == (if rested.amount()
            >= span.amount() {
            1int
        } else {
            0
        }),
{
    reveal_with_fuel(add_stale_spec, 2);
    rounding::lemma_whole_is_exact(86400);
    rounding::lemma_exact_difference(now, rests_since_spec(o, now), rested);
    let d = days.amount();
    let u = crate::double::unit() as int;
    assert(d * (86400 * u) == (86400 * d) * u) by (nonlinear_arith);
    rounding::lemma_exact_product(days, Double::int_spec(86400), span);
}

} // verus!
