//! Placing journaled rungs: a rung short of free balance by pennies is trimmed once, and rungs
//! that never reached the venue are placed later, or adopted where they did after all.
use crate::deploy;
use crate::deploy::{Answer, AnswerView, Ask, AskView, Config, ConfigView, Work, WorkView};
use crate::deploy::planning;
use crate::double::Double;
use crate::journal;
use crate::journal::{Order, OrderView};
use crate::list;
use crate::list::Duplicate;
use crate::pyfmt;
use crate::rounding;
use crate::text;
use crate::venue::{ParsedOrder, ParsedOrderView};
use vstd::prelude::*;

verus! {

/// The last part of a text that was split.
pub open spec fn after_last_spec(s: Seq<char>, parts: Seq<Seq<char>>) -> Seq<char> {
    match list::end(parts) {
        Some(p) => p,
        None => s,
    }
}

fn after_last(s: &str, parts: &Vec<String>) -> (r: String)
    ensures
        r@ == after_last_spec(s@, parts.deep_view()),
{
    match list::str_ref(list::last(parts)) {
        Some(p) => text::owned(p),
        None => text::owned(s),
    }
}

/// The quote asset a pair names.
pub open spec fn pair_quote_spec(pair: Seq<char>) -> Seq<char> {
    if pair.contains('/') {
        after_last_spec(pair, text::split(pair, '/'))
    } else {
        after_last_spec(pair, text::split(pair, '_'))
    }
}

fn pair_quote(pair: &str) -> (r: String)
    ensures
        r@ == pair_quote_spec(pair@),
{
    if text::has_char(pair, '/') {
        return after_last(pair, &list::split(pair, '/'));
    }
    after_last(pair, &list::split(pair, '_'))
}

/// The asset a rung is paid in: its route's, else the one its pair names.
pub open spec fn currency_of_spec(cfg: ConfigView, o: OrderView) -> Seq<char> {
    match deploy::route_spec(cfg, o.sym) {
        Some(r) => if r.quote != ""@ {
            r.quote
        } else {
            pair_quote_spec(o.pair)
        },
        None => pair_quote_spec(o.pair),
    }
}

fn currency_of(cfg: &Config, o: &Order) -> (r: String)
    ensures
        r@ == currency_of_spec(cfg.deep_view(), o.deep_view()),
{
    match deploy::route(cfg, o.sym.as_str()) {
        Some(r) => {
            if !text::same(r.quote.as_str(), "") {
                return text::owned(r.quote.as_str());
            }
            pair_quote(o.pair.as_str())
        },
        None => pair_quote(o.pair.as_str()),
    }
}

/// A rung's row after trimming it.
pub open spec fn trimmed_row_spec(o: OrderView, qty: Double, free: Double) -> OrderView {
    let row = o;
    let row = OrderView { base: Some(qty), ..row };
    let row = OrderView {
        quote: Some(
            qty.mul_spec(
                match o.price {
                    Some(v) => v,
                    None => Double::zero_spec(),
                },
            ),
        ),
        ..row
    };
    OrderView {
        note: Some(
            text::trim(
                (match o.note {
                    Some(v) => v,
                    None => ""@,
                })
                    + " (trimmed to free $"@
                    + pyfmt::fixed_spec(free, 2)
                    + ")"@,
            ),
        ),
        ..row
    }
}

fn trimmed_row(o: &Order, qty: Double, free: Double) -> (r: Order)
    ensures
        r.deep_view() == trimmed_row_spec(o.deep_view(), qty, free),
{
    let mut row = o.dup();
    row.base = Some(qty);
    row.quote = Some(
        qty.times(
            match o.price {
                Some(v) => v,
                None => Double::zero(),
            },
        ),
    );
    let mut line = match &o.note {
        Some(v) => text::owned(v.as_str()),
        None => text::owned(""),
    };
    line.push_str(" (trimmed to free $");
    line.push_str(pyfmt::fixed(free, 2).as_str());
    line.push_str(")");
    row.note = Some(text::trimmed(line.as_str()));
    row
}

/// Trim a rung to what the free balance buys, where only pennies are missing.
pub open spec fn trim_sized_spec(
    w: WorkView,
    o: OrderView,
    free: Double,
    qty: Double,
    answers: Seq<AnswerView>,
) -> (WorkView, Option<OrderView>) {
    let (w1, mins) = planning::venue_mins_spec(w, o.exch, o.pair, answers);
    if deploy::stopped_spec(w1) {
        (w1, None)
    } else {
        match mins {
            Err(e) => (w1, None),
            Ok(m) => {
                let price = match o.price {
                    Some(v) => v,
                    None => Double::zero_spec(),
                };
                let quote = match o.quote {
                    Some(v) => v,
                    None => Double::zero_spec(),
                };
                if !(Double::zero_spec().lt_spec(qty)
                    && qty.lt_spec(
                        match o.base {
                            Some(v) => v,
                            None => Double::zero_spec(),
                        },
                    ))
                    || qty.lt_spec(m.0)
                    || qty.mul_spec(price).lt_spec(
                        m.1.max_spec(Double::ratio_spec(99, 100).mul_spec(quote)),
                    ) {
                    (w1, None)
                } else {
                    let row = trimmed_row_spec(o, qty, free);
                    let w2 = deploy::save_spec(deploy::revise_row_spec(w1, row), answers);
                    if deploy::stopped_spec(w2) {
                        (w2, None)
                    } else {
                        let cost = qty.mul_spec(price);
                        let w3 = deploy::say_done_spec(
                            w2,
                            Some(o.sym),
                            None,
                            false,
                            "deploy buy "@
                                + o.sym
                                + " rung trimmed $"@
                                + pyfmt::fixed_spec(quote, 2)
                                + " -> $"@
                                + pyfmt::fixed_spec(cost, 2)
                                + " to fit free $"@
                                + pyfmt::fixed_spec(free, 2),
                        );
                        (w3, Some(row))
                    }
                }
            },
        }
    }
}

fn trim_sized(
    w: Work,
    o: &Order,
    free: Double,
    qty: Double,
    answers: &Vec<Answer>,
) -> (r: (Work, Option<Order>))
    ensures
        r.deep_view() == trim_sized_spec(
            w.deep_view(),
            o.deep_view(),
            free,
            qty,
            answers.deep_view(),
        ),
{
    let (w1, mins) = planning::venue_mins(w, o.exch.as_str(), o.pair.as_str(), answers);
    if deploy::stopped(&w1) {
        return (w1, None);
    }
    match mins {
        Err(e) => (w1, None),
        Ok(m) => {
            let price = match o.price {
                Some(v) => v,
                None => Double::zero(),
            };
            let quote = match o.quote {
                Some(v) => v,
                None => Double::zero(),
            };
            if !(Double::zero().lt(qty)
                && qty.lt(
                    match o.base {
                        Some(v) => v,
                        None => Double::zero(),
                    },
                ))
                || qty.lt(m.0)
                || qty.times(price).lt(m.1.max(Double::ratio(99, 100).times(quote))) {
                return (w1, None);
            }
            let row = trimmed_row(o, qty, free);
            let w2 = deploy::save(deploy::revise_row(w1, row.dup()), answers);
            if deploy::stopped(&w2) {
                return (w2, None);
            }
            let cost = qty.times(price);
            let mut line = text::owned("deploy buy ");
            line.push_str(o.sym.as_str());
            line.push_str(" rung trimmed $");
            line.push_str(pyfmt::fixed(quote, 2).as_str());
            line.push_str(" -> $");
            line.push_str(pyfmt::fixed(cost, 2).as_str());
            line.push_str(" to fit free $");
            line.push_str(pyfmt::fixed(free, 2).as_str());
            let w3 = deploy::say_done(
                w2,
                Some(o.sym.as_str()),
                list::text_ref(&None),
                false,
                line,
            );
            (w3, Some(row))
        },
    }
}

/// Trim a rung to a free balance.
pub open spec fn trim_free_spec(
    w: WorkView,
    o: OrderView,
    free: Double,
    answers: Seq<AnswerView>,
) -> (WorkView, Option<OrderView>) {
    let (w1, got) = deploy::ask_number_spec(
        w,
        AskView::FitQty(
            o.exch,
            o.pair,
            free,
            match o.price {
                Some(v) => v,
                None => Double::zero_spec(),
            },
        ),
        answers,
    );
    if deploy::stopped_spec(w1) {
        (w1, None)
    } else {
        match got {
            Ok(qty) => trim_sized_spec(w1, o, free, qty, answers),
            Err(e) => (w1, None),
        }
    }
}

fn trim_free(
    w: Work,
    o: &Order,
    free: Double,
    answers: &Vec<Answer>,
) -> (r: (Work, Option<Order>))
    ensures
        r.deep_view() == trim_free_spec(w.deep_view(), o.deep_view(), free, answers.deep_view()),
{
    let (w1, got) = deploy::ask_number(
        w,
        Ask::FitQty(
            text::owned(o.exch.as_str()),
            text::owned(o.pair.as_str()),
            free,
            match o.price {
                Some(v) => v,
                None => Double::zero(),
            },
        ),
        answers,
    );
    if deploy::stopped(&w1) {
        return (w1, None);
    }
    match got {
        Ok(qty) => trim_sized(w1, o, free, qty, answers),
        Err(e) => (w1, None),
    }
}

/// Re-fit a rung to the venue's real free balance when only pennies are missing (at least 99% of
/// the notional kept); a bigger gap stays a loud failure. The trimmed row, where it was.
pub open spec fn trim_to_free_spec(
    w: WorkView,
    cfg: ConfigView,
    o: OrderView,
    answers: Seq<AnswerView>,
) -> (WorkView, Option<OrderView>) {
    if o.exch == ""@
        || o.pair == ""@
        || (match o.price {
            Some(v) => v,
            None => Double::zero_spec(),
        }).le_spec(
            Double::zero_spec(),
        )
        || (match o.base {
            Some(v) => v,
            None => Double::zero_spec(),
        }).le_spec(
            Double::zero_spec(),
        ) {
        (w, None)
    } else {
        let (w1, got) = deploy::ask_book_spec(w, AskView::BalancesFull(o.exch), answers);
        if deploy::stopped_spec(w1) {
            (w1, None)
        } else {
            match got {
                Ok(book) => {
                    let cur = currency_of_spec(cfg, o);
                    trim_free_spec(w1, o, deploy::held_of_spec(book, cur).free, answers)
                },
                Err(e) => (w1, None),
            }
        }
    }
}

/// Re-fit a rung to the venue's real free balance when only pennies are missing (at least 99% of
/// the notional kept); a bigger gap stays a loud failure. The trimmed row, where it was.
pub fn trim_to_free(
    w: Work,
    cfg: &Config,
    o: &Order,
    answers: &Vec<Answer>,
) -> (r: (Work, Option<Order>))
    ensures
        r.deep_view() == trim_to_free_spec(
            w.deep_view(),
            cfg.deep_view(),
            o.deep_view(),
            answers.deep_view(),
        ),
{
    if text::same(o.exch.as_str(), "")
        || text::same(o.pair.as_str(), "")
        || (match o.price {
            Some(v) => v,
            None => Double::zero(),
        }).le(
            Double::zero(),
        )
        || (match o.base {
            Some(v) => v,
            None => Double::zero(),
        }).le(
            Double::zero(),
        ) {
        return (w, None);
    }
    let (w1, got) = deploy::ask_book(w, Ask::BalancesFull(text::owned(o.exch.as_str())), answers);
    if deploy::stopped(&w1) {
        return (w1, None);
    }
    match got {
        Ok(book) => {
            let cur = currency_of(cfg, o);
            trim_free(w1, o, deploy::held_of(&book, cur.as_str()).free, answers)
        },
        Err(e) => (w1, None),
    }
}

/// A placed order's id, where the venue gave one.
pub open spec fn id_or_none_spec(p: ParsedOrderView) -> Option<Seq<char>> {
    if p.order_id == ""@ {
        None
    } else {
        Some(p.order_id)
    }
}

fn id_or_none(p: &ParsedOrder) -> (r: Option<String>)
    ensures
        r.deep_view() == id_or_none_spec(p.deep_view()),
{
    if text::same(p.order_id.as_str(), "") {
        return None;
    }
    Some(text::owned(p.order_id.as_str()))
}

/// A rung's row after the venue took it.
pub open spec fn placed_rung_spec(o: OrderView, p: ParsedOrderView) -> OrderView {
    let row = o;
    let row = OrderView {
        status: if p.status == ""@ {
            "open"@
        } else {
            p.status
        },
        ..row
    };
    let row = OrderView { order_id: id_or_none_spec(p), ..row };
    OrderView { last_error: None, ..row }
}

fn placed_rung(o: &Order, p: &ParsedOrder) -> (r: Order)
    ensures
        r.deep_view() == placed_rung_spec(o.deep_view(), p.deep_view()),
{
    let mut row = o.dup();
    row.status = if text::same(p.status.as_str(), "") {
        text::owned("open")
    } else {
        text::owned(p.status.as_str())
    };
    row.order_id = id_or_none(p);
    row.last_error = None;
    row
}

/// One try more.
pub open spec fn next_try_spec(tries: i64) -> i64 {
    if tries < 9223372036854775807 {
        (tries + 1) as i64
    } else {
        tries
    }
}

fn next_try(tries: i64) -> (r: i64)
    ensures
        r == next_try_spec(tries),
{
    if tries < 9223372036854775807 {
        return (tries + 1);
    }
    tries
}

/// A rung's row after the venue refused it.
pub open spec fn refused_rung_spec(o: OrderView, why: Seq<char>) -> OrderView {
    let row = o;
    let row = OrderView { status: "error"@, ..row };
    let row = OrderView {
        retries: Some(
            next_try_spec(
                match o.retries {
                    Some(v) => v,
                    None => 0,
                },
            ),
        ),
        ..row
    };
    OrderView { last_error: Some(why), ..row }
}

fn refused_rung(o: &Order, why: &str) -> (r: Order)
    ensures
        r.deep_view() == refused_rung_spec(o.deep_view(), why@),
{
    let mut row = o.dup();
    row.status = text::owned("error");
    row.retries = Some(
        next_try(
            match o.retries {
                Some(v) => v,
                None => 0,
            },
        ),
    );
    row.last_error = Some(text::owned(why));
    row
}

/// A rung the venue refused: marked, and retried by a later run.
pub open spec fn refuse_spec(
    w: WorkView,
    o: OrderView,
    why: Seq<char>,
    answers: Seq<AnswerView>,
) -> (WorkView, bool) {
    let v = deploy::save_spec(deploy::revise_row_spec(w, refused_rung_spec(o, why)), answers);
    if deploy::stopped_spec(v) {
        (v, false)
    } else {
        let quote = match o.quote {
            Some(v) => v,
            None => Double::zero_spec(),
        };
        let price = match o.price {
            Some(v) => v,
            None => Double::zero_spec(),
        };
        (
            deploy::say_warn_spec(
                v,
                Some(o.sym),
                Some("buy"@),
                "deploy limit buy "@
                    + o.sym
                    + " $"@
                    + pyfmt::fixed_spec(quote, 2)
                    + " @ $"@
                    + crate::watch::pyfmt::g_spec(price, 6)
                    + " failed (auto-retries): "@
                    + why,
            ),
            false,
        )
    }
}

fn refuse(w: Work, o: &Order, why: &str, answers: &Vec<Answer>) -> (r: (Work, bool))
    ensures
        r.deep_view() == refuse_spec(w.deep_view(), o.deep_view(), why@, answers.deep_view()),
{
    let v = deploy::save(deploy::revise_row(w, refused_rung(o, why)), answers);
    if deploy::stopped(&v) {
        return (v, false);
    }
    let quote = match o.quote {
        Some(v) => v,
        None => Double::zero(),
    };
    let price = match o.price {
        Some(v) => v,
        None => Double::zero(),
    };
    let mut line = text::owned("deploy limit buy ");
    line.push_str(o.sym.as_str());
    line.push_str(" $");
    line.push_str(pyfmt::fixed(quote, 2).as_str());
    line.push_str(" @ $");
    line.push_str(crate::watch::pyfmt::g(price, 6).as_str());
    line.push_str(" failed (auto-retries): ");
    line.push_str(why);
    (deploy::say_warn(v, Some(o.sym.as_str()), Some("buy"), line), false)
}

/// Have a rung placed.
pub open spec fn ask_buy_spec(
    w: WorkView,
    o: OrderView,
    answers: Seq<AnswerView>,
) -> (WorkView, Result<ParsedOrderView, Seq<char>>) {
    deploy::ask_placed_spec(
        w,
        AskView::LimitBuy(
            o.exch,
            o.pair,
            match o.base {
                Some(v) => v,
                None => Double::zero_spec(),
            },
            match o.price {
                Some(v) => v,
                None => Double::zero_spec(),
            },
            o.client_id,
        ),
        answers,
    )
}

fn ask_buy(w: Work, o: &Order, answers: &Vec<Answer>) -> (r: (Work, Result<ParsedOrder, String>))
    ensures
        (r.0.deep_view(), list::outcome(r.1)) == ask_buy_spec(
            w.deep_view(),
            o.deep_view(),
            answers.deep_view(),
        ),
{
    deploy::ask_placed(
        w,
        Ask::LimitBuy(
            text::owned(o.exch.as_str()),
            text::owned(o.pair.as_str()),
            match o.base {
                Some(v) => v,
                None => Double::zero(),
            },
            match o.price {
                Some(v) => v,
                None => Double::zero(),
            },
            text::owned(o.client_id.as_str()),
        ),
        answers,
    )
}

/// Place a rung that was trimmed: no second trim.
pub open spec fn place_trimmed_spec(
    w: WorkView,
    o: OrderView,
    answers: Seq<AnswerView>,
) -> (WorkView, bool) {
    let (w1, got) = ask_buy_spec(w, o, answers);
    if deploy::stopped_spec(w1) {
        (w1, false)
    } else {
        match got {
            Ok(p) => (
                deploy::save_spec(deploy::revise_row_spec(w1, placed_rung_spec(o, p)), answers),
                true,
            ),
            Err(e) => refuse_spec(w1, o, e, answers),
        }
    }
}

fn place_trimmed(w: Work, o: &Order, answers: &Vec<Answer>) -> (r: (Work, bool))
    ensures
        r.deep_view() == place_trimmed_spec(w.deep_view(), o.deep_view(), answers.deep_view()),
{
    let (w1, got) = ask_buy(w, o, answers);
    if deploy::stopped(&w1) {
        return (w1, false);
    }
    match got {
        Ok(p) => (deploy::save(deploy::revise_row(w1, placed_rung(o, &p)), answers), true),
        Err(e) => refuse(w1, o, e.as_str(), answers),
    }
}

/// A rung the venue refused: trimmed and placed again where only pennies were missing.
pub open spec fn place_short_spec(
    w: WorkView,
    cfg: ConfigView,
    o: OrderView,
    why: Seq<char>,
    answers: Seq<AnswerView>,
) -> (WorkView, bool) {
    if !deploy::short_by_pennies_spec(why) {
        refuse_spec(w, o, why, answers)
    } else {
        let (w1, row) = trim_to_free_spec(w, cfg, o, answers);
        if deploy::stopped_spec(w1) {
            (w1, false)
        } else {
            match row {
                Some(t) => place_trimmed_spec(w1, t, answers),
                None => refuse_spec(w1, o, why, answers),
            }
        }
    }
}

fn place_short(
    w: Work,
    cfg: &Config,
    o: &Order,
    why: &str,
    answers: &Vec<Answer>,
) -> (r: (Work, bool))
    ensures
        r.deep_view() == place_short_spec(
            w.deep_view(),
            cfg.deep_view(),
            o.deep_view(),
            why@,
            answers.deep_view(),
        ),
{
    if !deploy::short_by_pennies(why) {
        return refuse(w, o, why, answers);
    }
    let (w1, row) = trim_to_free(w, cfg, o, answers);
    if deploy::stopped(&w1) {
        return (w1, false);
    }
    match row {
        Some(t) => place_trimmed(w1, &t, answers),
        None => refuse(w1, o, why, answers),
    }
}

/// Place one journaled rung. False when the venue refused it (the row is marked `error` and retried
/// by a later run).
pub open spec fn place_entry_spec(
    w: WorkView,
    cfg: ConfigView,
    o: OrderView,
    answers: Seq<AnswerView>,
) -> (WorkView, bool) {
    let (w1, got) = ask_buy_spec(w, o, answers);
    if deploy::stopped_spec(w1) {
        (w1, false)
    } else {
        match got {
            Ok(p) => (
                deploy::save_spec(deploy::revise_row_spec(w1, placed_rung_spec(o, p)), answers),
                true,
            ),
            Err(e) => place_short_spec(w1, cfg, o, e, answers),
        }
    }
}

/// Place one journaled rung. False when the venue refused it (the row is marked `error` and retried
/// by a later run).
pub fn place_entry(w: Work, cfg: &Config, o: &Order, answers: &Vec<Answer>) -> (r: (Work, bool))
    ensures
        r.deep_view() == place_entry_spec(
            w.deep_view(),
            cfg.deep_view(),
            o.deep_view(),
            answers.deep_view(),
        ),
{
    let (w1, got) = ask_buy(w, o, answers);
    if deploy::stopped(&w1) {
        return (w1, false);
    }
    match got {
        Ok(p) => (deploy::save(deploy::revise_row(w1, placed_rung(o, &p)), answers), true),
        Err(e) => place_short(w1, cfg, o, e.as_str(), answers),
    }
}

/// Place a journaled id that has no venue id yet.
pub open spec fn place_id_spec(
    w: WorkView,
    cfg: ConfigView,
    cid: Seq<char>,
    answers: Seq<AnswerView>,
) -> WorkView {
    if deploy::stopped_spec(w) {
        w
    } else {
        match journal::row_of(w.journal, cid) {
            Some(o) => if deploy::has_id_spec(o) {
                w
            } else {
                let (v, ok) = place_entry_spec(w, cfg, o, answers);
                v
            },
            None => w,
        }
    }
}

fn place_id(w: Work, cfg: &Config, cid: &str, answers: &Vec<Answer>) -> (r: Work)
    ensures
        r.deep_view() == place_id_spec(w.deep_view(), cfg.deep_view(), cid@, answers.deep_view()),
{
    if deploy::stopped(&w) {
        return w;
    }
    match journal::row_of_id(&w.journal, cid) {
        Some(o) => {
            if deploy::has_id(&o) {
                return w;
            }
            let (v, ok) = place_entry(w, cfg, &o, answers);
            v
        },
        None => w,
    }
}

/// The first `n` of them.
pub open spec fn place_each_spec(
    answers: Seq<AnswerView>,
    cfg: ConfigView,
    xs: Seq<Seq<char>>,
    w: WorkView,
    n: nat,
) -> WorkView
    decreases n,
{
    if n == 0 {
        w
    } else {
        let w = place_each_spec(answers, cfg, xs, w, (n - 1) as nat);
        let cid = xs[n - 1];
        place_id_spec(w, cfg, cid, answers)
    }
}

fn place_each(answers: &Vec<Answer>, cfg: &Config, xs: &Vec<String>, w: Work) -> (r: Work)
    ensures
        r.deep_view() == place_each_spec(
            answers.deep_view(),
            cfg.deep_view(),
            xs.deep_view(),
            w.deep_view(),
            xs@.len(),
        ),
{
    let ghost w0 = w.deep_view();
    let mut w = w;
    let mut i: usize = 0;
    while i < xs.len()
        invariant
            i <= xs@.len(),
            w.deep_view() == place_each_spec(
                answers.deep_view(),
                cfg.deep_view(),
                xs.deep_view(),
                w0,
                i as nat,
            ),
        decreases xs@.len() - i,
    {
        let cid = xs[i].as_str();
        w = place_id(w, cfg, cid, answers);
        i = i + 1;
    }
    w
}

/// Place the journaled ids that have no venue id yet.
pub open spec fn place_unplaced_spec(
    w: WorkView,
    cfg: ConfigView,
    cids: Seq<Seq<char>>,
    answers: Seq<AnswerView>,
) -> WorkView {
    place_each_spec(answers, cfg, cids, w, cids.len())
}

/// Place the journaled ids that have no venue id yet.
pub fn place_unplaced(
    w: Work,
    cfg: &Config,
    cids: &Vec<String>,
    answers: &Vec<Answer>,
) -> (r: Work)
    ensures
        r.deep_view() == place_unplaced_spec(
            w.deep_view(),
            cfg.deep_view(),
            cids.deep_view(),
            answers.deep_view(),
        ),
{
    let mut w = w;
    w = place_each(answers, cfg, cids, w);
    w
}

/// Of the first `n` rows.
pub open spec fn add_claimed_spec(
    xs: Seq<OrderView>,
    out: Seq<Seq<char>>,
    n: nat,
) -> Seq<Seq<char>> {
    out + list::gathered(
        xs,
        |o: OrderView| if deploy::has_id_spec(o) {
            Some(
                match o.order_id {
                    Some(v) => v,
                    None => ""@,
                },
            )
        } else {
            None
        },
        n,
    )
}

fn add_claimed(xs: &Vec<Order>, out: Vec<String>) -> (r: Vec<String>)
    ensures
        r.deep_view() == add_claimed_spec(xs.deep_view(), out.deep_view(), xs@.len()),
{
    let ghost out0 = out.deep_view();
    let mut out = out;
    let mut i: usize = 0;
    while i < xs.len()
        invariant
            i <= xs@.len(),
            out.deep_view() == add_claimed_spec(xs.deep_view(), out0, i as nat),
        decreases xs@.len() - i,
    {
        let o = &xs[i];
        if deploy::has_id(o) {
            list::push(
                &mut out,
                match &o.order_id {
                    Some(v) => text::owned(v.as_str()),
                    None => text::owned(""),
                },
            );
        }
        assert(out.deep_view() =~= add_claimed_spec(xs.deep_view(), out0, (i + 1) as nat));
        i = i + 1;
    }
    out
}

/// The venue ids the journal knows.
pub open spec fn claimed_ids_spec(rows: Seq<OrderView>) -> Seq<Seq<char>> {
    add_claimed_spec(rows, Seq::<Seq<char>>::empty(), rows.len())
}

fn claimed_ids(rows: &Vec<Order>) -> (r: Vec<String>)
    ensures
        r.deep_view() == claimed_ids_spec(rows.deep_view()),
{
    let mut out: Vec<String> = list::none();
    out = add_claimed(rows, out);
    out
}

/// Of the first `n` of them.
pub open spec fn add_same_level_spec(
    claimed: Seq<Seq<char>>,
    xs: Seq<(ParsedOrderView, bool, bool)>,
    out: Seq<ParsedOrderView>,
    n: nat,
) -> Seq<ParsedOrderView> {
    out + list::gathered(
        xs,
        |it: (ParsedOrderView, bool, bool)| {
            let x = it.0;
            let same_price = it.2;
            if !claimed.contains(x.order_id) && text::lower_case(x.side) == "buy"@ && same_price {
                Some(x)
            } else {
                None
            }
        },
        n,
    )
}

fn add_same_level(
    claimed: &Vec<String>,
    xs: &Vec<(ParsedOrder, bool, bool)>,
    out: Vec<ParsedOrder>,
) -> (r: Vec<ParsedOrder>)
    ensures
        r.deep_view() == add_same_level_spec(
            claimed.deep_view(),
            xs.deep_view(),
            out.deep_view(),
            xs@.len(),
        ),
{
    let ghost out0 = out.deep_view();
    let mut out = out;
    let mut i: usize = 0;
    while i < xs.len()
        invariant
            i <= xs@.len(),
            out.deep_view() == add_same_level_spec(
                claimed.deep_view(),
                xs.deep_view(),
                out0,
                i as nat,
            ),
        decreases xs@.len() - i,
    {
        let it = &xs[i];
        let x = &it.0;
        let same_price = it.2;
        if !list::holds(claimed, x.order_id.as_str())
            && text::same(text::lowercase(x.side.as_str()).as_str(), "buy")
            && same_price {
            list::push(&mut out, x.dup());
        }
        assert(out.deep_view() =~= add_same_level_spec(
            claimed.deep_view(),
            xs.deep_view(),
            out0,
            (i + 1) as nat,
        ));
        i = i + 1;
    }
    out
}

/// The unclaimed buys that rest at a rung's price.
pub open spec fn same_level_spec(
    resting: Seq<(ParsedOrderView, bool, bool)>,
    claimed: Seq<Seq<char>>,
) -> Seq<ParsedOrderView> {
    add_same_level_spec(claimed, resting, Seq::<ParsedOrderView>::empty(), resting.len())
}

fn same_level(
    resting: &Vec<(ParsedOrder, bool, bool)>,
    claimed: &Vec<String>,
) -> (r: Vec<ParsedOrder>)
    ensures
        r.deep_view() == same_level_spec(resting.deep_view(), claimed.deep_view()),
{
    let mut out: Vec<ParsedOrder> = list::none();
    out = add_same_level(claimed, resting, out);
    out
}

/// Among the first `n` of them.
pub open spec fn find_own_spec(
    xs: Seq<(ParsedOrderView, bool, bool)>,
    out: Option<ParsedOrderView>,
    n: nat,
) -> Option<ParsedOrderView> {
    match out {
        Some(v) => Some(v),
        None => list::first_given(
            xs,
            |it: (ParsedOrderView, bool, bool)| {
                let x = it.0;
                let same_id = it.1;
                if same_id {
                    Some(x)
                } else {
                    None
                }
            },
            n,
        ),
    }
}

fn find_own(
    xs: &Vec<(ParsedOrder, bool, bool)>,
    out: Option<ParsedOrder>,
) -> (r: Option<ParsedOrder>)
    ensures
        r.deep_view() == find_own_spec(xs.deep_view(), out.deep_view(), xs@.len()),
{
    let ghost out0 = out.deep_view();
    let mut out = out;
    let mut i: usize = 0;
    while i < xs.len()
        invariant
            i <= xs@.len(),
            out.deep_view() == find_own_spec(xs.deep_view(), out0, i as nat),
        decreases xs@.len() - i,
    {
        let it = &xs[i];
        let x = &it.0;
        let same_id = it.1;
        if out.is_none() && same_id {
            out = Some(x.dup());
        }
        assert(xs.deep_view()[i as int] == xs@[i as int].deep_view());
        assert(out.deep_view() == find_own_spec(xs.deep_view(), out0, (i + 1) as nat));
        i = i + 1;
    }
    out
}

/// The first resting order under a rung's own id.
pub open spec fn by_own_id_spec(
    resting: Seq<(ParsedOrderView, bool, bool)>,
) -> Option<ParsedOrderView> {
    let out: Option<ParsedOrderView> = None;
    find_own_spec(resting, out, resting.len())
}

fn by_own_id(resting: &Vec<(ParsedOrder, bool, bool)>) -> (r: Option<ParsedOrder>)
    ensures
        r.deep_view() == by_own_id_spec(resting.deep_view()),
{
    let mut out: Option<ParsedOrder> = None;
    out = find_own(resting, out);
    out
}

/// The resting order that is a rung after all: the one under its id, else the only unclaimed buy at
/// its price.
pub open spec fn adopted_spec(
    resting: Seq<(ParsedOrderView, bool, bool)>,
    claimed: Seq<Seq<char>>,
) -> Option<ParsedOrderView> {
    match by_own_id_spec(resting) {
        Some(x) => Some(x),
        None => {
            let same = same_level_spec(resting, claimed);
            if same.len() == 1 {
                match list::item(same, 0) {
                    Some(x) => Some(x),
                    None => None,
                }
            } else {
                None
            }
        },
    }
}

/// The resting order that is a rung after all: the one under its id, else the only unclaimed buy at
/// its price.
pub fn adopted(
    resting: &Vec<(ParsedOrder, bool, bool)>,
    claimed: &Vec<String>,
) -> (r: Option<ParsedOrder>)
    ensures
        r.deep_view() == adopted_spec(resting.deep_view(), claimed.deep_view()),
{
    match by_own_id(resting) {
        Some(x) => Some(x),
        None => {
            let same = same_level(resting, claimed);
            if same.len() == 1 {
                match list::at(&same, 0) {
                    Some(x) => {
                        return Some(x.dup());
                    },
                    None => {
                        return None;
                    },
                }
            }
            None
        },
    }
}

/// A rung that rests after all.
pub open spec fn adopt_spec(
    w: WorkView,
    o: OrderView,
    a: ParsedOrderView,
    answers: Seq<AnswerView>,
) -> WorkView {
    let row = o;
    let row = OrderView { status: "open"@, ..row };
    let row = OrderView { order_id: id_or_none_spec(a), ..row };
    let row = OrderView { last_error: None, ..row };
    let v = deploy::save_spec(deploy::revise_row_spec(w, row), answers);
    if deploy::stopped_spec(v) {
        v
    } else {
        let price = match a.price {
            Some(v) => v,
            None => Double::zero_spec(),
        };
        deploy::say_done_spec(
            v,
            Some(o.sym),
            None,
            false,
            "adopted resting deploy buy "@
                + o.sym
                + " @ $"@
                + crate::watch::pyfmt::g_spec(price, 6),
        )
    }
}

fn adopt(w: Work, o: &Order, a: &ParsedOrder, answers: &Vec<Answer>) -> (r: Work)
    ensures
        r.deep_view() == adopt_spec(
            w.deep_view(),
            o.deep_view(),
            a.deep_view(),
            answers.deep_view(),
        ),
{
    let mut row = o.dup();
    row.status = text::owned("open");
    row.order_id = id_or_none(a);
    row.last_error = None;
    let v = deploy::save(deploy::revise_row(w, row), answers);
    if deploy::stopped(&v) {
        return v;
    }
    let price = match a.price {
        Some(v) => v,
        None => Double::zero(),
    };
    let mut line = text::owned("adopted resting deploy buy ");
    line.push_str(o.sym.as_str());
    line.push_str(" @ $");
    line.push_str(crate::watch::pyfmt::g(price, 6).as_str());
    deploy::say_done(v, Some(o.sym.as_str()), list::text_ref(&None), false, line)
}

/// Hand a rung over that failed too often, once.
pub open spec fn give_up_spec(w: WorkView, o: OrderView, answers: Seq<AnswerView>) -> WorkView {
    if match o.gave_up {
        Some(v) => v,
        None => false,
    } {
        w
    } else {
        let row = o;
        let row = OrderView { gave_up: Some(true), ..row };
        let v = deploy::save_spec(deploy::revise_row_spec(w, row), answers);
        if deploy::stopped_spec(v) {
            v
        } else {
            let base = match o.base {
                Some(v) => v,
                None => Double::zero_spec(),
            };
            let price = match o.price {
                Some(v) => v,
                None => Double::zero_spec(),
            };
            deploy::say_warn_spec(
                v,
                Some(o.sym),
                None,
                "deploy buy failed "@
                    + text::dec_int(
                        (match o.retries {
                            Some(v) => v,
                            None => 0,
                        }) as int,
                    )
                    + "x, giving up — place "@
                    + crate::watch::pyfmt::g_spec(base, 6)
                    + " "@
                    + o.sym
                    + " @ $"@
                    + crate::watch::pyfmt::g_spec(price, 6)
                    + " manually"@,
            )
        }
    }
}

fn give_up(w: Work, o: &Order, answers: &Vec<Answer>) -> (r: Work)
    ensures
        r.deep_view() == give_up_spec(w.deep_view(), o.deep_view(), answers.deep_view()),
{
    if match o.gave_up {
        Some(v) => v,
        None => false,
    } {
        return w;
    }
    let mut row = o.dup();
    row.gave_up = Some(true);
    let v = deploy::save(deploy::revise_row(w, row), answers);
    if deploy::stopped(&v) {
        return v;
    }
    let base = match o.base {
        Some(v) => v,
        None => Double::zero(),
    };
    let price = match o.price {
        Some(v) => v,
        None => Double::zero(),
    };
    let mut line = text::owned("deploy buy failed ");
    line.push_str(
        text::dec_i64(
            match o.retries {
                Some(v) => v,
                None => 0,
            },
        ).as_str(),
    );
    line.push_str("x, giving up — place ");
    line.push_str(crate::watch::pyfmt::g(base, 6).as_str());
    line.push_str(" ");
    line.push_str(o.sym.as_str());
    line.push_str(" @ $");
    line.push_str(crate::watch::pyfmt::g(price, 6).as_str());
    line.push_str(" manually");
    deploy::say_warn(v, Some(o.sym.as_str()), list::text_ref(&None), line)
}

/// What a rung that was placed costs: less where it was trimmed.
pub open spec fn placed_quote_spec(row: Option<OrderView>, o: OrderView) -> Double {
    match row {
        Some(x) => match x.quote {
            Some(v) => v,
            None => Double::zero_spec(),
        },
        None => match o.quote {
            Some(v) => v,
            None => Double::zero_spec(),
        },
    }
}

fn placed_quote(row: Option<&Order>, o: &Order) -> (r: Double)
    ensures
        r == placed_quote_spec(row.deep_view(), o.deep_view()),
{
    match row {
        Some(x) => match x.quote {
            Some(v) => v,
            None => Double::zero(),
        },
        None => match o.quote {
            Some(v) => v,
            None => Double::zero(),
        },
    }
}

/// Place a rung that never reached the venue.
pub open spec fn place_again_spec(
    w: WorkView,
    cfg: ConfigView,
    o: OrderView,
    answers: Seq<AnswerView>,
) -> WorkView {
    let (v, ok) = place_entry_spec(w, cfg, o, answers);
    if deploy::stopped_spec(v) || !ok {
        v
    } else {
        let now_row = journal::row_of(v.journal, o.client_id);
        let quote = placed_quote_spec(now_row, o);
        let price = match o.price {
            Some(v) => v,
            None => Double::zero_spec(),
        };
        deploy::say_done_spec(
            v,
            Some(o.sym),
            Some("buy"@),
            true,
            "RETRY OK: deploy buy $"@
                + pyfmt::fixed_spec(quote, 2)
                + " "@
                + o.sym
                + " @ $"@
                + crate::watch::pyfmt::g_spec(price, 6),
        )
    }
}

fn place_again(w: Work, cfg: &Config, o: &Order, answers: &Vec<Answer>) -> (r: Work)
    ensures
        r.deep_view() == place_again_spec(
            w.deep_view(),
            cfg.deep_view(),
            o.deep_view(),
            answers.deep_view(),
        ),
{
    let (v, ok) = place_entry(w, cfg, o, answers);
    if deploy::stopped(&v) || !ok {
        return v;
    }
    let now_row = journal::row_of_id(&v.journal, o.client_id.as_str());
    let quote = placed_quote(list::borrow(&now_row), o);
    let price = match o.price {
        Some(v) => v,
        None => Double::zero(),
    };
    let mut line = text::owned("RETRY OK: deploy buy $");
    line.push_str(pyfmt::fixed(quote, 2).as_str());
    line.push_str(" ");
    line.push_str(o.sym.as_str());
    line.push_str(" @ $");
    line.push_str(crate::watch::pyfmt::g(price, 6).as_str());
    deploy::say_done(v, Some(o.sym.as_str()), Some("buy"), true, line)
}

/// Resume a rung whose venue and pair are known.
pub open spec fn resume_known_spec(
    w: WorkView,
    cfg: ConfigView,
    o: OrderView,
    answers: Seq<AnswerView>,
) -> WorkView {
    if (match o.retries {
        Some(v) => v,
        None => 0,
    })
        >= deploy::MAX_RETRIES {
        give_up_spec(w, o, answers)
    } else {
        let (w1, missing) = deploy::reach_spec(w, o.exch, answers);
        if deploy::stopped_spec(w1) || missing is Some {
            w1
        } else {
            let (w2, a) = deploy::asked_spec(
                w1,
                AskView::OpenOrders(o.exch, o.pair, o.client_id, o.price),
                answers,
            );
            if deploy::stopped_spec(w2) {
                w2
            } else {
                match a {
                    AnswerView::Orders(resting) => match adopted_spec(
                        resting,
                        claimed_ids_spec(journal::rows_alone(w2.journal)),
                    ) {
                        Some(x) => adopt_spec(w2, o, x, answers),
                        None => place_again_spec(w2, cfg, o, answers),
                    },
                    _ => w2,
                }
            }
        }
    }
}

fn resume_known(w: Work, cfg: &Config, o: &Order, answers: &Vec<Answer>) -> (r: Work)
    ensures
        r.deep_view() == resume_known_spec(
            w.deep_view(),
            cfg.deep_view(),
            o.deep_view(),
            answers.deep_view(),
        ),
{
    if (match o.retries {
        Some(v) => v,
        None => 0,
    })
        >= deploy::MAX_RETRIES {
        return give_up(w, o, answers);
    }
    let (w1, missing) = deploy::reach(w, o.exch.as_str(), answers);
    if deploy::stopped(&w1) || missing.is_some() {
        return w1;
    }
    let (w2, a) = deploy::asked(
        w1,
        Ask::OpenOrders(
            text::owned(o.exch.as_str()),
            text::owned(o.pair.as_str()),
            text::owned(o.client_id.as_str()),
            o.price,
        ),
        answers,
    );
    if deploy::stopped(&w2) {
        return w2;
    }
    match a {
        Answer::Orders(resting) => match adopted(&resting, &claimed_ids(&&w2.journal.rows())) {
            Some(x) => adopt(w2, o, &x, answers),
            None => place_again(w2, cfg, o, answers),
        },
        _ => w2,
    }
}

/// Resume one row, if it is a rung that never reached the venue.
pub open spec fn resume_one_spec(
    w: WorkView,
    cfg: ConfigView,
    o: OrderView,
    answers: Seq<AnswerView>,
) -> WorkView {
    if deploy::stopped_spec(w) || deploy::has_id_spec(o) || !deploy::truthy_int_spec(o.rung) {
        w
    } else if o.client_id == ""@ || o.sym == ""@ || o.exch == ""@ || o.pair == ""@ {
        w
    } else {
        resume_known_spec(w, cfg, o, answers)
    }
}

fn resume_one(w: Work, cfg: &Config, o: &Order, answers: &Vec<Answer>) -> (r: Work)
    ensures
        r.deep_view() == resume_one_spec(
            w.deep_view(),
            cfg.deep_view(),
            o.deep_view(),
            answers.deep_view(),
        ),
{
    if deploy::stopped(&w) || deploy::has_id(o) || !deploy::truthy_int(o.rung) {
        return w;
    }
    if text::same(o.client_id.as_str(), "")
        || text::same(o.sym.as_str(), "")
        || text::same(o.exch.as_str(), "")
        || text::same(o.pair.as_str(), "") {
        return w;
    }
    resume_known(w, cfg, o, answers)
}

/// The first `n` of them.
pub open spec fn resume_each_spec(
    answers: Seq<AnswerView>,
    cfg: ConfigView,
    xs: Seq<OrderView>,
    w: WorkView,
    n: nat,
) -> WorkView
    decreases n,
{
    if n == 0 {
        w
    } else {
        let w = resume_each_spec(answers, cfg, xs, w, (n - 1) as nat);
        let o = xs[n - 1];
        resume_one_spec(w, cfg, o, answers)
    }
}

fn resume_each(answers: &Vec<Answer>, cfg: &Config, xs: &Vec<Order>, w: Work) -> (r: Work)
    ensures
        r.deep_view() == resume_each_spec(
            answers.deep_view(),
            cfg.deep_view(),
            xs.deep_view(),
            w.deep_view(),
            xs@.len(),
        ),
{
    let ghost w0 = w.deep_view();
    let mut w = w;
    let mut i: usize = 0;
    while i < xs.len()
        invariant
            i <= xs@.len(),
            w.deep_view() == resume_each_spec(
                answers.deep_view(),
                cfg.deep_view(),
                xs.deep_view(),
                w0,
                i as nat,
            ),
        decreases xs@.len() - i,
    {
        let o = &xs[i];
        w = resume_one(w, cfg, o, answers);
        i = i + 1;
    }
    w
}

/// Crash and error recovery: place journaled rungs that never reached the venue, adopting an order
/// that already rests there (the placement raced an error).
pub open spec fn resume_pending_spec(
    w: WorkView,
    cfg: ConfigView,
    answers: Seq<AnswerView>,
) -> WorkView {
    let rows = journal::open_rows_spec(journal::rows_alone(w.journal), Some("deploy_buy"@))
        + journal::failed_rows_spec(journal::rows_alone(w.journal), Some("deploy_buy"@));
    resume_each_spec(answers, cfg, rows, w, rows.len())
}

/// Crash and error recovery: place journaled rungs that never reached the venue, adopting an order
/// that already rests there (the placement raced an error).
pub fn resume_pending(w: Work, cfg: &Config, answers: &Vec<Answer>) -> (r: Work)
    ensures
        r.deep_view() == resume_pending_spec(w.deep_view(), cfg.deep_view(), answers.deep_view()),
{
    let mut w = w;
    let rows = list::joined(
        journal::open_rows(&&w.journal.rows(), Some("deploy_buy")),
        journal::failed_rows(&&w.journal.rows(), Some("deploy_buy")),
    );
    w = resume_each(answers, cfg, &rows, w);
    w
}

// ------------------------------------------------------------------ laws
/// A rung is sent only under an id that the journal holds.
pub proof fn law_only_journaled_rungs_are_sent(
    w: WorkView,
    cfg: ConfigView,
    cid: Seq<char>,
    answers: Seq<AnswerView>,
)
    requires
        !deploy::stopped_spec(w),
        w.at as int == answers.len(),
    ensures
        ({
            let v = place_id_spec(w, cfg, cid, answers);
            &&& v.journal == w.journal
            &&& v.ask matches Some(q) ==> journal::row_of(w.journal, cid) matches Some(o)
                && q == AskView::LimitBuy(
                o.exch,
                o.pair,
                o.base.unwrap_or(Double::zero_spec()),
                o.price.unwrap_or(Double::zero_spec()),
                o.client_id,
            )
        }),
{
}

/// After five tries a rung is handed over: no order is sent.
pub proof fn law_five_tries_at_most(
    w: WorkView,
    cfg: ConfigView,
    o: OrderView,
    answers: Seq<AnswerView>,
)
    requires
        !deploy::stopped_spec(w),
        o.retries matches Some(k) && k >= deploy::MAX_RETRIES,
    ensures
        resume_one_spec(w, cfg, o, answers).ask matches Some(q) ==> q is SaveJournal,
{
}

/// A trimmed rung is smaller than it was, clears the venue's minimums, keeps all but a fiftieth of its
/// value, and its notional is its quantity at its price, but for rounding.
pub proof fn law_a_trim_is_small(
    w: WorkView,
    o: OrderView,
    free: Double,
    qty: Double,
    answers: Seq<AnswerView>,
    base: Double,
    price: Double,
    quote: Double,
)
    requires
        o.base == Some(base),
        o.price == Some(price),
        o.quote == Some(quote),
        qty.finite(),
        price.finite(),
        quote.finite(),
        quote.amount() >= 0x100_0000,
        qty.mul_spec(price).finite(),
    ensures
        trim_sized_spec(w, o, free, qty, answers).1 matches Some(row) ==> {
            &&& row.base == Some(qty)
            &&& 0 < qty.amount() < base.amount()
            &&& planning::venue_mins_spec(w, o.exch, o.pair, answers).1 matches Ok(m) && !qty.lt_spec(
                m.0,
            )
            &&& row.quote matches Some(x) && {
                &&& 100 * x.amount() >= 98 * quote.amount()
                &&& rounding::grain() * rounding::size(
                    x.amount() * crate::double::unit() - qty.amount() * price.amount(),
                ) <= crate::double::unit() * (rounding::size(x.amount()) + rounding::least())
            }
            &&& row.price == o.price
            &&& row.client_id == o.client_id
        },
{
    crate::double::lemma_scaled_zero();
    rounding::lemma_mul_error(qty, price);
    rounding::lemma_part_of(quote, 99, 100);
    rounding::lemma_ratio_error(99, 100);
    rounding::lemma_mul_swaps(Double::ratio_spec(99, 100), quote);
    let p = quote.mul_spec(Double::ratio_spec(99, 100)).amount();
    let a = quote.amount();
    assert(100 * p >= 98 * a) by (nonlinear_arith)
        requires
            (0x10_0000 * 99 - 100) * a <= 0x10_0000 * 100 * p,
            a >= 0,
    ;
}

} // verus!
