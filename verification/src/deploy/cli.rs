//! The deploy layer's manual commands (`rungbot-exec deploy ...`).
//!
//! * `status`: the state path, baselines, each venue's quote balance, open zones.
//! * `plan [usd]`: the zone plan for `usd` (default 100) per venue. Places nothing.
//! * `tranche <usd> <venue> [--only A,B]`: roll the venue's zones and ladder `usd` more;
//!   `tranche 0 <venue> --only A` re-ladders only those coins.
//! * `market <share%> <venue> <SYM>`: roll one coin's zones, buy `share%` of their budget
//!   at market and ladder the rest.
//! * `cancel [venue]`: cancel every resting deploy zone (on one venue).
//!
//! The three that place or cancel refuse while live trading is off or the halt file is
//! present (`cancel` works while halted, on purpose), and the caller holds the run lock.
//!
//! `market` with nothing to spend sends nothing, and a `tranche` of fresh money raises the
//! venue's baseline by the new money it placed (never more than the balance shows above the
//! baseline), so the next run does not ladder the same money a second time.
//!
//! Inputs are checked before anything reaches a venue: amounts must be finite, a
//! `tranche` at least 0 (there is no manual withhold), a `market` share above 0 and at
//! most 100, and `cancel` refuses a venue it does not know.
//!
//! As in [`crate::deploy`], each command is a function of the answers it has had so far.
use crate::deploy;
use crate::deploy::{Answer, AnswerView, Ask, AskView, Config, ConfigView, Pinned, PinnedView, RunResult, RunResultView, Rung, RungView, VenuePlan, VenuePlanView, Work, WorkView};
use crate::deploy::check;
use crate::deploy::placing;
use crate::deploy::planning;
use crate::deploy::planning::{Cancelled, CancelledView, Shape, ShapeView};
use crate::double::Double;
use crate::journal;
use crate::journal::{Journal, Order, OrderView};
use crate::list;
use crate::list::Duplicate;
use crate::pyfmt;
use crate::rounding;
use crate::text;
use crate::venue::{ParsedOrder, ParsedOrderView};
use crate::watch::json::{Doc, Json};
use vstd::prelude::*;

verus! {

/// What a command did: it waits while its work asks for something.
#[derive(Debug)]
pub struct Command {
    pub work: Work,
    /// What it prints.
    pub lines: Vec<String>,
    /// Why it failed, if it did.
    pub error: Option<String>,
}

/// What a [`Command`] holds.
pub struct CommandView {
    pub work: WorkView,
    pub lines: Seq<Seq<char>>,
    pub error: Option<Seq<char>>,
}

impl DeepView for Command {
    type V = CommandView;

    open spec fn deep_view(&self) -> CommandView {
        CommandView {
            work: self.work.deep_view(),
            lines: self.lines.deep_view(),
            error: self.error.deep_view(),
        }
    }
}

/// A command that printed something.
pub open spec fn printed_spec(w: WorkView, lines: Seq<Seq<char>>) -> CommandView {
    CommandView { work: w, lines, error: None }
}

fn printed(w: Work, lines: Vec<String>) -> (r: Command)
    ensures
        r.deep_view() == printed_spec(w.deep_view(), lines.deep_view()),
{
    Command { work: w, lines, error: None }
}

/// A command that was refused.
pub open spec fn refused_spec(w: WorkView, why: Seq<char>) -> CommandView {
    CommandView { work: w, lines: Seq::<Seq<char>>::empty(), error: Some(why) }
}

fn refused(w: Work, why: String) -> (r: Command)
    ensures
        r.deep_view() == refused_spec(w.deep_view(), why@),
{
    Command { work: w, lines: list::none::<String>(), error: Some(why) }
}

/// A command that waits, or whose work failed.
pub open spec fn halted_spec(w: WorkView) -> CommandView {
    let error = w.fault;
    CommandView { work: w, lines: Seq::<Seq<char>>::empty(), error }
}

fn halted(w: Work) -> (r: Command)
    ensures
        r.deep_view() == halted_spec(w.deep_view()),
{
    let error = w.fault.dup();
    Command { work: w, lines: list::none::<String>(), error }
}

/// A result, as it prints.
pub open spec fn result_text_spec(r: RunResultView) -> Seq<char> {
    match r.done {
        Some(t) => t,
        None => match r.warn {
            Some(t) => t,
            None => match r.err {
                Some(v) => v,
                None => "None"@,
            },
        },
    }
}

fn result_text(r: &RunResult) -> (out: String)
    ensures
        out@ == result_text_spec(r.deep_view()),
{
    match &r.done {
        Some(t) => text::owned(t.as_str()),
        None => match &r.warn {
            Some(t) => text::owned(t.as_str()),
            None => match &r.err {
                Some(v) => text::owned(v.as_str()),
                None => text::owned("None"),
            },
        },
    }
}

/// The first `n` of them.
pub open spec fn add_result_text_spec(
    xs: Seq<RunResultView>,
    lines: Seq<Seq<char>>,
    n: nat,
) -> Seq<Seq<char>> {
    lines + Seq::new(
        n,
        |i: int| {
            let r = xs[i];
            result_text_spec(r)
        },
    )
}

fn add_result_text(xs: &Vec<RunResult>, lines: Vec<String>) -> (r: Vec<String>)
    ensures
        r.deep_view() == add_result_text_spec(xs.deep_view(), lines.deep_view(), xs@.len()),
{
    let ghost lines0 = lines.deep_view();
    let mut lines = lines;
    let mut i: usize = 0;
    while i < xs.len()
        invariant
            i <= xs@.len(),
            lines.deep_view() == add_result_text_spec(xs.deep_view(), lines0, i as nat),
        decreases xs@.len() - i,
    {
        let r = &xs[i];
        list::push(&mut lines, result_text(r));
        assert(lines.deep_view() =~= add_result_text_spec(xs.deep_view(), lines0, (i + 1) as nat));
        i = i + 1;
    }
    lines
}

/// The results, as they print.
pub open spec fn result_texts_spec(out: Seq<RunResultView>) -> Seq<Seq<char>> {
    add_result_text_spec(out, Seq::<Seq<char>>::empty(), out.len())
}

fn result_texts(out: &Vec<RunResult>) -> (r: Vec<String>)
    ensures
        r.deep_view() == result_texts_spec(out.deep_view()),
{
    let mut lines: Vec<String> = list::none();
    lines = add_result_text(out, lines);
    lines
}

/// A finished command: the results are printed, and a journal write that failed on the way makes it
/// fail.
pub open spec fn closed_spec(
    w: WorkView,
    write_failed: Option<Seq<char>>,
    what: Seq<char>,
) -> CommandView {
    let lines = result_texts_spec(w.out);
    match write_failed {
        Some(e) => CommandView { work: w, lines, error: Some(e + "; "@ + what) },
        None => printed_spec(w, lines),
    }
}

fn closed(w: Work, write_failed: Option<&str>, what: &str) -> (r: Command)
    ensures
        r.deep_view() == closed_spec(w.deep_view(), write_failed.deep_view(), what@),
{
    let lines = result_texts(&w.out);
    match write_failed {
        Some(e) => {
            let mut line = text::owned(e);
            line.push_str("; ");
            line.push_str(what);
            Command { work: w, lines, error: Some(line) }
        },
        None => printed(w, lines),
    }
}

/// Whether the commands know a venue.
pub open spec fn known_venue_spec(v: Seq<char>) -> bool {
    (v == "binance"@ || v == "gate"@ || v == "revx"@)
}

fn known_venue(v: &str) -> (r: bool)
    ensures
        r == known_venue_spec(v@),
{
    (text::same(v, "binance") || text::same(v, "gate") || text::same(v, "revx"))
}

/// A time in the state, as it prints.
pub open spec fn ts_text_spec(v: Option<Doc>) -> Seq<char> {
    match v {
        Some(d) => if d is Null {
            "None"@
        } else {
            match d.num() {
                Some(x) => crate::watch::pyfmt::repr_spec(x),
                None => pyfmt::shown(pyfmt::ordered_doc(d)),
            }
        },
        None => "None"@,
    }
}

fn ts_text(v: Option<&Json>) -> (r: String)
    ensures
        r@ == ts_text_spec(v.deep_view()),
{
    let d = match v {
        Some(v) => v,
        None => {
            return text::owned("None");
        },
    };
    if d.is_null() {
        return text::owned("None");
    }
    match d.num() {
        Some(x) => pyfmt::float_repr(x),
        None => pyfmt::value_str(d),
    }
}

/// The baselines, as they print.
pub open spec fn stable_shown_spec(st: Doc) -> Seq<char> {
    match st.get("stable"@) {
        Some(v) => if v.truthy() {
            v.dumps(None)
        } else {
            "{}"@
        },
        None => "{}"@,
    }
}

fn stable_shown(st: &Json) -> (r: String)
    ensures
        r@ == stable_shown_spec(st@),
{
    let v = match st.get("stable") {
        Some(v) => v,
        None => {
            return text::owned("{}");
        },
    };
    if v.truthy() {
        return pyfmt::dumps(v, None);
    }
    text::owned("{}")
}

/// A venue's quote balance.
pub open spec fn balance_line_spec(
    w: WorkView,
    cfg: ConfigView,
    exch: Seq<char>,
    lines: Seq<Seq<char>>,
    answers: Seq<AnswerView>,
) -> (WorkView, Seq<Seq<char>>) {
    if deploy::stopped_spec(w) {
        (w, lines)
    } else {
        let w1 = deploy::need_client_spec(w, exch, answers);
        if deploy::stopped_spec(w1) {
            (w1, lines)
        } else {
            let (w2, got) = deploy::ask_book_spec(w1, AskView::BalancesFull(exch), answers);
            if deploy::stopped_spec(w2) {
                (w2, lines)
            } else {
                match got {
                    Err(e) => (deploy::failing_spec(w2, e), lines),
                    Ok(book) => {
                        let q = deploy::quote_of_spec(cfg, exch);
                        let b = deploy::held_of_spec(book, q);
                        let total = b.free.add_spec(b.locked);
                        let lines = lines.push(
                            crate::watch::pyfmt::ljust_spec(exch, 8)
                                + " "@
                                + q
                                + ": free $"@
                                + pyfmt::fixed_spec(b.free, 2)
                                + "  locked $"@
                                + pyfmt::fixed_spec(b.locked, 2)
                                + "  total $"@
                                + pyfmt::fixed_spec(total, 2),
                        );
                        (w2, lines)
                    },
                }
            }
        }
    }
}

fn balance_line(
    w: Work,
    cfg: &Config,
    exch: &str,
    lines: Vec<String>,
    answers: &Vec<Answer>,
) -> (r: (Work, Vec<String>))
    ensures
        r.deep_view() == balance_line_spec(
            w.deep_view(),
            cfg.deep_view(),
            exch@,
            lines.deep_view(),
            answers.deep_view(),
        ),
{
    let mut lines = lines;
    if deploy::stopped(&w) {
        return (w, lines);
    }
    let w1 = deploy::need_client(w, exch, answers);
    if deploy::stopped(&w1) {
        return (w1, lines);
    }
    let (w2, got) = deploy::ask_book(w1, Ask::BalancesFull(text::owned(exch)), answers);
    if deploy::stopped(&w2) {
        return (w2, lines);
    }
    match got {
        Err(e) => (deploy::failing(w2, e), lines),
        Ok(book) => {
            let q = deploy::quote_of(cfg, exch);
            let b = deploy::held_of(&book, q.as_str());
            let total = b.free.plus(b.locked);
            let mut line = crate::watch::pyfmt::ljust(exch, 8);
            line.push_str(" ");
            line.push_str(q.as_str());
            line.push_str(": free $");
            line.push_str(pyfmt::fixed(b.free, 2).as_str());
            line.push_str("  locked $");
            line.push_str(pyfmt::fixed(b.locked, 2).as_str());
            line.push_str("  total $");
            line.push_str(pyfmt::fixed(total, 2).as_str());
            list::push(&mut lines, line);
            (w2, lines)
        },
    }
}

/// An open zone, as it prints.
pub open spec fn zone_line_spec(o: OrderView) -> Seq<char> {
    let quote = match o.quote {
        Some(v) => v,
        None => Double::zero_spec(),
    };
    let price = match o.price {
        Some(v) => v,
        None => Double::zero_spec(),
    };
    "  "@
        + crate::watch::pyfmt::ljust_spec(o.sym, 5)
        + " $"@
        + pyfmt::fixed_spec(quote, 2)
        + " @ $"@
        + crate::watch::pyfmt::g_spec(price, 6)
        + " ("@
        + (match o.note {
            Some(v) => v,
            None => "None"@,
        })
        + ") status="@
        + o.status
}

fn zone_line(o: &Order) -> (r: String)
    ensures
        r@ == zone_line_spec(o.deep_view()),
{
    let quote = match o.quote {
        Some(v) => v,
        None => Double::zero(),
    };
    let price = match o.price {
        Some(v) => v,
        None => Double::zero(),
    };
    let mut line = text::owned("  ");
    line.push_str(crate::watch::pyfmt::ljust(o.sym.as_str(), 5).as_str());
    line.push_str(" $");
    line.push_str(pyfmt::fixed(quote, 2).as_str());
    line.push_str(" @ $");
    line.push_str(crate::watch::pyfmt::g(price, 6).as_str());
    line.push_str(" (");
    line.push_str(
        (match &o.note {
            Some(v) => text::owned(v.as_str()),
            None => text::owned("None"),
        }).as_str(),
    );
    line.push_str(") status=");
    line.push_str(o.status.as_str());
    line
}

/// Of the first `n` venues.
pub open spec fn add_balances_spec(
    answers: Seq<AnswerView>,
    cfg: ConfigView,
    xs: Seq<Seq<char>>,
    w1: WorkView,
    lines: Seq<Seq<char>>,
    n: nat,
) -> (WorkView, Seq<Seq<char>>)
    decreases n,
{
    if n == 0 {
        (w1, lines)
    } else {
        let (w1, lines) = add_balances_spec(answers, cfg, xs, w1, lines, (n - 1) as nat);
        let exch = xs[n - 1];
        let (w2, l2) = balance_line_spec(w1, cfg, exch, lines, answers);
        (w2, l2)
    }
}

fn add_balances(
    answers: &Vec<Answer>,
    cfg: &Config,
    xs: &Vec<String>,
    w1: Work,
    lines: Vec<String>,
) -> (r: (Work, Vec<String>))
    ensures
        r.deep_view() == add_balances_spec(
            answers.deep_view(),
            cfg.deep_view(),
            xs.deep_view(),
            w1.deep_view(),
            lines.deep_view(),
            xs@.len(),
        ),
{
    let ghost w10 = w1.deep_view();
    let ghost lines0 = lines.deep_view();
    let mut w1 = w1;
    let mut lines = lines;
    let mut i: usize = 0;
    while i < xs.len()
        invariant
            i <= xs@.len(),
            (w1.deep_view(), lines.deep_view()) == add_balances_spec(
                answers.deep_view(),
                cfg.deep_view(),
                xs.deep_view(),
                w10,
                lines0,
                i as nat,
            ),
        decreases xs@.len() - i,
    {
        let exch = xs[i].as_str();
        let (w2, l2) = balance_line(w1, cfg, exch, lines, answers);
        w1 = w2;
        lines = l2;
        i = i + 1;
    }
    (w1, lines)
}

/// The first `n` of them.
pub open spec fn add_zone_lines_spec(
    xs: Seq<OrderView>,
    lines: Seq<Seq<char>>,
    n: nat,
) -> Seq<Seq<char>> {
    lines + Seq::new(
        n,
        |i: int| {
            let o = xs[i];
            zone_line_spec(o)
        },
    )
}

fn add_zone_lines(xs: &Vec<Order>, lines: Vec<String>) -> (r: Vec<String>)
    ensures
        r.deep_view() == add_zone_lines_spec(xs.deep_view(), lines.deep_view(), xs@.len()),
{
    let ghost lines0 = lines.deep_view();
    let mut lines = lines;
    let mut i: usize = 0;
    while i < xs.len()
        invariant
            i <= xs@.len(),
            lines.deep_view() == add_zone_lines_spec(xs.deep_view(), lines0, i as nat),
        decreases xs@.len() - i,
    {
        let o = &xs[i];
        list::push(&mut lines, zone_line(o));
        assert(lines.deep_view() =~= add_zone_lines_spec(xs.deep_view(), lines0, (i + 1) as nat));
        i = i + 1;
    }
    lines
}

/// `status`.
pub open spec fn status_spec(
    w: WorkView,
    cfg: ConfigView,
    path: Seq<char>,
    answers: Seq<AnswerView>,
) -> CommandView {
    let lines = Seq::<Seq<char>>::empty().push("state: "@ + path).push(
        "baseline: "@ + stable_shown_spec(w.st) + "  ts: "@ + ts_text_spec(w.st.get("ts"@)),
    );
    let (w1, names) = deploy::clients_spec(w, answers);
    if deploy::stopped_spec(w1) {
        halted_spec(w1)
    } else {
        let (w1, lines) = add_balances_spec(answers, cfg, names, w1, lines, names.len());
        if deploy::stopped_spec(w1) {
            halted_spec(w1)
        } else {
            let open = journal::open_rows_spec(
                journal::rows_alone(w1.journal),
                Some("deploy_buy"@),
            );
            let lines = lines.push(
                "open deploy zones: "@ + text::dec(((open.len() as usize)) as nat),
            );
            let lines = add_zone_lines_spec(open, lines, open.len());
            printed_spec(w1, lines)
        }
    }
}

/// `status`.
pub fn status(w: Work, cfg: &Config, path: &str, answers: &Vec<Answer>) -> (r: Command)
    ensures
        r.deep_view() == status_spec(w.deep_view(), cfg.deep_view(), path@, answers.deep_view()),
{
    let mut lines: Vec<String> = list::none();
    let mut line = text::owned("state: ");
    line.push_str(path);
    list::push(&mut lines, line);
    let mut line2 = text::owned("baseline: ");
    line2.push_str(stable_shown(&w.st).as_str());
    line2.push_str("  ts: ");
    line2.push_str(ts_text(w.st.get("ts")).as_str());
    list::push(&mut lines, line2);
    let (mut w1, names) = deploy::clients(w, answers);
    if deploy::stopped(&w1) {
        return halted(w1);
    }
    let (next_w1, next_lines) = add_balances(answers, cfg, &names, w1, lines);
    w1 = next_w1;
    lines = next_lines;
    if deploy::stopped(&w1) {
        return halted(w1);
    }
    let open = journal::open_rows(&&w1.journal.rows(), Some("deploy_buy"));
    let mut line3 = text::owned("open deploy zones: ");
    line3.push_str(text::dec_u64(open.len() as u64).as_str());
    list::push(&mut lines, line3);
    lines = add_zone_lines(&open, lines);
    printed(w1, lines)
}

/// The first `n` of them.
pub open spec fn add_rung_line_spec(
    xs: Seq<RungView>,
    out: Seq<Seq<char>>,
    n: nat,
) -> Seq<Seq<char>> {
    out + Seq::new(
        n,
        |i: int| {
            let r = xs[i];
            "        rung "@
                + text::dec_int(r.rung as int)
                + ": $"@
                + pyfmt::fixed_spec(r.usd, 2)
                + " -> "@
                + crate::watch::pyfmt::g_spec(r.qty, 6)
                + " @ $"@
                + crate::watch::pyfmt::g_spec(r.price, 6)
                + "  ("@
                + r.note
                + ")"@
        },
    )
}

fn add_rung_line(xs: &Vec<Rung>, out: Vec<String>) -> (r: Vec<String>)
    ensures
        r.deep_view() == add_rung_line_spec(xs.deep_view(), out.deep_view(), xs@.len()),
{
    let ghost out0 = out.deep_view();
    let mut out = out;
    let mut i: usize = 0;
    while i < xs.len()
        invariant
            i <= xs@.len(),
            out.deep_view() == add_rung_line_spec(xs.deep_view(), out0, i as nat),
        decreases xs@.len() - i,
    {
        let r = &xs[i];
        let mut line = text::owned("        rung ");
        line.push_str(text::dec_i64(r.rung).as_str());
        line.push_str(": $");
        line.push_str(pyfmt::fixed(r.usd, 2).as_str());
        line.push_str(" -> ");
        line.push_str(crate::watch::pyfmt::g(r.qty, 6).as_str());
        line.push_str(" @ $");
        line.push_str(crate::watch::pyfmt::g(r.price, 6).as_str());
        line.push_str("  (");
        line.push_str(r.note.as_str());
        line.push_str(")");
        list::push(&mut out, line);
        assert(out.deep_view() =~= add_rung_line_spec(xs.deep_view(), out0, (i + 1) as nat));
        i = i + 1;
    }
    out
}

/// A coin's planned rungs, as they print.
pub open spec fn rung_lines_spec(rungs: Seq<RungView>) -> Seq<Seq<char>> {
    add_rung_line_spec(rungs, Seq::<Seq<char>>::empty(), rungs.len())
}

fn rung_lines(rungs: &Vec<Rung>) -> (r: Vec<String>)
    ensures
        r.deep_view() == rung_lines_spec(rungs.deep_view()),
{
    let mut out: Vec<String> = list::none();
    out = add_rung_line(rungs, out);
    out
}

/// The price some rungs were planned at.
pub open spec fn spot_of_spec(rungs: Seq<RungView>) -> Double {
    match list::item(rungs, 0) {
        Some(r) => r.spot,
        None => Double::zero_spec(),
    }
}

fn spot_of(rungs: &Vec<Rung>) -> (r: Double)
    ensures
        r == spot_of_spec(rungs.deep_view()),
{
    let r = match list::at(rungs, 0) {
        Some(v) => v,
        None => {
            return Double::zero();
        },
    };
    r.spot
}

/// The first `n` coins.
pub open spec fn add_coin_lines_spec(
    xs: Seq<(Seq<char>, Seq<RungView>)>,
    out: Seq<Seq<char>>,
    n: nat,
) -> Seq<Seq<char>>
    decreases n,
{
    if n == 0 {
        out
    } else {
        let out = add_coin_lines_spec(xs, out, (n - 1) as nat);
        let it = xs[n - 1];
        let s = it.0;
        let rungs = it.1;
        let spot = spot_of_spec(rungs);
        let out = out.push(
            "  "@
                + crate::watch::pyfmt::ljust_spec(s, 5)
                + " spot $"@
                + crate::watch::pyfmt::g_spec(spot, 6),
        );
        out + rung_lines_spec(rungs)
    }
}

fn add_coin_lines(xs: &Vec<(String, Vec<Rung>)>, out: Vec<String>) -> (r: Vec<String>)
    ensures
        r.deep_view() == add_coin_lines_spec(xs.deep_view(), out.deep_view(), xs@.len()),
{
    let ghost out0 = out.deep_view();
    let mut out = out;
    let mut i: usize = 0;
    while i < xs.len()
        invariant
            i <= xs@.len(),
            out.deep_view() == add_coin_lines_spec(xs.deep_view(), out0, i as nat),
        decreases xs@.len() - i,
    {
        let it = &xs[i];
        let s = it.0.as_str();
        let rungs = &it.1;
        let spot = spot_of(rungs);
        let mut line = text::owned("  ");
        line.push_str(crate::watch::pyfmt::ljust(s, 5).as_str());
        line.push_str(" spot $");
        line.push_str(crate::watch::pyfmt::g(spot, 6).as_str());
        list::push(&mut out, line);
        out = list::joined(out, rung_lines(rungs));
        i = i + 1;
    }
    out
}

/// The first `n` skips.
pub open spec fn add_skip_lines_spec(
    xs: Seq<Seq<char>>,
    out: Seq<Seq<char>>,
    n: nat,
) -> Seq<Seq<char>> {
    out + Seq::new(
        n,
        |i: int| {
            let sk = xs[i];
            "  skip "@ + sk
        },
    )
}

fn add_skip_lines(xs: &Vec<String>, out: Vec<String>) -> (r: Vec<String>)
    ensures
        r.deep_view() == add_skip_lines_spec(xs.deep_view(), out.deep_view(), xs@.len()),
{
    let ghost out0 = out.deep_view();
    let mut out = out;
    let mut i: usize = 0;
    while i < xs.len()
        invariant
            i <= xs@.len(),
            out.deep_view() == add_skip_lines_spec(xs.deep_view(), out0, i as nat),
        decreases xs@.len() - i,
    {
        let sk = xs[i].as_str();
        let mut line = text::owned("  skip ");
        line.push_str(sk);
        list::push(&mut out, line);
        assert(out.deep_view() =~= add_skip_lines_spec(xs.deep_view(), out0, (i + 1) as nat));
        i = i + 1;
    }
    out
}

/// A venue's plan, as it prints.
pub open spec fn plan_lines_spec(exch: Seq<char>, vp: VenuePlanView) -> Seq<Seq<char>> {
    let how = if vp.fallback {
        " (equal split — alloc names no coin here)"@
    } else {
        ""@
    };
    let out = Seq::<Seq<char>>::empty().push(""@).push(exch + how + ":"@);
    let out = add_coin_lines_spec(vp.plans, out, vp.plans.len());
    add_skip_lines_spec(vp.skips, out, vp.skips.len())
}

fn plan_lines(exch: &str, vp: &VenuePlan) -> (r: Vec<String>)
    ensures
        r.deep_view() == plan_lines_spec(exch@, vp.deep_view()),
{
    let how = if vp.fallback {
        " (equal split — alloc names no coin here)"
    } else {
        ""
    };
    let mut out: Vec<String> = list::none();
    list::push(&mut out, text::owned(""));
    let mut line = text::owned(exch);
    line.push_str(how);
    line.push_str(":");
    list::push(&mut out, line);
    out = add_coin_lines(&vp.plans, out);
    out = add_skip_lines(&vp.skips, out);
    out
}

/// A venue's plan.
pub open spec fn plan_venue_spec(
    w: WorkView,
    cfg: ConfigView,
    exch: Seq<char>,
    budget: Double,
    label: Seq<char>,
    lines: Seq<Seq<char>>,
    answers: Seq<AnswerView>,
) -> (WorkView, Seq<Seq<char>>) {
    if deploy::stopped_spec(w) {
        (w, lines)
    } else {
        let w1 = deploy::need_client_spec(w, exch, answers);
        if deploy::stopped_spec(w1) {
            (w1, lines)
        } else {
            let none = Seq::<PinnedView>::empty();
            let (w2, vp) = planning::venue_plan_spec(
                w1,
                cfg,
                exch,
                budget,
                label,
                None,
                none,
                answers,
            );
            if deploy::stopped_spec(w2) {
                (w2, lines)
            } else {
                (w2, lines + plan_lines_spec(exch, vp))
            }
        }
    }
}

fn plan_venue(
    w: Work,
    cfg: &Config,
    exch: &str,
    budget: Double,
    label: &str,
    lines: Vec<String>,
    answers: &Vec<Answer>,
) -> (r: (Work, Vec<String>))
    ensures
        r.deep_view() == plan_venue_spec(
            w.deep_view(),
            cfg.deep_view(),
            exch@,
            budget,
            label@,
            lines.deep_view(),
            answers.deep_view(),
        ),
{
    let mut lines = lines;
    if deploy::stopped(&w) {
        return (w, lines);
    }
    let w1 = deploy::need_client(w, exch, answers);
    if deploy::stopped(&w1) {
        return (w1, lines);
    }
    let none: Vec<Pinned> = list::none();
    let (w2, vp) = planning::venue_plan(
        w1,
        cfg,
        exch,
        budget,
        label,
        list::borrow(&None),
        &none,
        answers,
    );
    if deploy::stopped(&w2) {
        return (w2, lines);
    }
    lines = list::joined(lines, plan_lines(exch, &vp));
    (w2, lines)
}

/// The first `n` of them.
pub open spec fn plan_venues_spec(
    answers: Seq<AnswerView>,
    budget: Double,
    cfg: ConfigView,
    label: Seq<char>,
    xs: Seq<Seq<char>>,
    w2: WorkView,
    lines: Seq<Seq<char>>,
    n: nat,
) -> (WorkView, Seq<Seq<char>>)
    decreases n,
{
    if n == 0 {
        (w2, lines)
    } else {
        let (w2, lines) = plan_venues_spec(
            answers,
            budget,
            cfg,
            label,
            xs,
            w2,
            lines,
            (n - 1) as nat,
        );
        let exch = xs[n - 1];
        let (w3, l3) = plan_venue_spec(w2, cfg, exch, budget, label, lines, answers);
        (w3, l3)
    }
}

fn plan_venues(
    answers: &Vec<Answer>,
    budget: Double,
    cfg: &Config,
    label: &str,
    xs: &Vec<String>,
    w2: Work,
    lines: Vec<String>,
) -> (r: (Work, Vec<String>))
    ensures
        r.deep_view() == plan_venues_spec(
            answers.deep_view(),
            budget,
            cfg.deep_view(),
            label@,
            xs.deep_view(),
            w2.deep_view(),
            lines.deep_view(),
            xs@.len(),
        ),
{
    let ghost w20 = w2.deep_view();
    let ghost lines0 = lines.deep_view();
    let mut w2 = w2;
    let mut lines = lines;
    let mut i: usize = 0;
    while i < xs.len()
        invariant
            i <= xs@.len(),
            (w2.deep_view(), lines.deep_view()) == plan_venues_spec(
                answers.deep_view(),
                budget,
                cfg.deep_view(),
                label@,
                xs.deep_view(),
                w20,
                lines0,
                i as nat,
            ),
        decreases xs@.len() - i,
    {
        let exch = xs[i].as_str();
        let (w3, l3) = plan_venue(w2, cfg, exch, budget, label, lines, answers);
        w2 = w3;
        lines = l3;
        i = i + 1;
    }
    (w2, lines)
}

/// `plan [usd]`.
pub open spec fn plan_spec(
    w: WorkView,
    cfg: ConfigView,
    budget: Double,
    answers: Seq<AnswerView>,
) -> CommandView {
    let (w1, label) = deploy::regime_label_spec(w, answers);
    if deploy::stopped_spec(w1) {
        halted_spec(w1)
    } else {
        let lines = Seq::<Seq<char>>::empty().push(
            "regime: "@
                + text::upper_case(label)
                + "  — zone plan for $"@
                + pyfmt::fixed_spec(budget, 2)
                + " per venue"@,
        );
        let (w2, names) = deploy::clients_spec(w1, answers);
        if deploy::stopped_spec(w2) {
            halted_spec(w2)
        } else {
            let (w2, lines) = plan_venues_spec(
                answers,
                budget,
                cfg,
                label,
                names,
                w2,
                lines,
                names.len(),
            );
            if deploy::stopped_spec(w2) {
                halted_spec(w2)
            } else {
                printed_spec(w2, lines)
            }
        }
    }
}

/// `plan [usd]`.
pub fn plan(w: Work, cfg: &Config, budget: Double, answers: &Vec<Answer>) -> (r: Command)
    ensures
        r.deep_view() == plan_spec(w.deep_view(), cfg.deep_view(), budget, answers.deep_view()),
{
    let (w1, label) = deploy::regime_label(w, answers);
    if deploy::stopped(&w1) {
        return halted(w1);
    }
    let mut lines: Vec<String> = list::none();
    let mut line = text::owned("regime: ");
    line.push_str(text::uppercase(label.as_str()).as_str());
    line.push_str("  — zone plan for $");
    line.push_str(pyfmt::fixed(budget, 2).as_str());
    line.push_str(" per venue");
    list::push(&mut lines, line);
    let (mut w2, names) = deploy::clients(w1, answers);
    if deploy::stopped(&w2) {
        return halted(w2);
    }
    let (next_w2, next_lines) = plan_venues(
        answers,
        budget,
        cfg,
        label.as_str(),
        &names,
        w2,
        lines,
    );
    w2 = next_w2;
    lines = next_lines;
    if deploy::stopped(&w2) {
        return halted(w2);
    }
    printed(w2, lines)
}

/// New money on a venue that is not in its baseline yet.
pub open spec fn fresh_money_spec(
    w: WorkView,
    cfg: ConfigView,
    venue: Seq<char>,
    base: Double,
    answers: Seq<AnswerView>,
) -> (WorkView, Double) {
    let (v, got) = deploy::ask_book_spec(w, AskView::BalancesFull(venue), answers);
    if deploy::stopped_spec(v) {
        (v, Double::zero_spec())
    } else {
        match got {
            Err(e) => (
                deploy::warn_spec(
                    v,
                    "deploy tranche: "@
                        + venue
                        + " balances unreadable, baseline not raised: "@
                        + e,
                ),
                Double::zero_spec(),
            ),
            Ok(book) => {
                let one = Seq::<Seq<char>>::empty().push(venue);
                let x = check::explained_spec(journal::rows_alone(v.journal), v.st, one);
                let b = deploy::held_of_spec(book, deploy::quote_of_spec(cfg, venue));
                (
                    v,
                    b.free.add_spec(b.locked).sub_spec(
                        base.add_spec(deploy::free_in_spec(x.deltas, venue)),
                    ).max_spec(
                        Double::zero_spec(),
                    ),
                )
            },
        }
    }
}

fn fresh_money(
    w: Work,
    cfg: &Config,
    venue: &str,
    base: Double,
    answers: &Vec<Answer>,
) -> (r: (Work, Double))
    ensures
        r.deep_view() == fresh_money_spec(
            w.deep_view(),
            cfg.deep_view(),
            venue@,
            base,
            answers.deep_view(),
        ),
{
    let (v, got) = deploy::ask_book(w, Ask::BalancesFull(text::owned(venue)), answers);
    if deploy::stopped(&v) {
        return (v, Double::zero());
    }
    match got {
        Err(e) => {
            let mut line = text::owned("deploy tranche: ");
            line.push_str(venue);
            line.push_str(" balances unreadable, baseline not raised: ");
            line.push_str(e.as_str());
            (deploy::warn(v, line), Double::zero())
        },
        Ok(book) => {
            let mut one: Vec<String> = list::none();
            list::push(&mut one, text::owned(venue));
            let x = check::explained(&&v.journal.rows(), &v.st, &one);
            let b = deploy::held_of(&book, deploy::quote_of(cfg, venue).as_str());
            (
                v,
                b.free.plus(b.locked).minus(base.plus(deploy::free_in(&x.deltas, venue))).max(
                    Double::zero(),
                ),
            )
        },
    }
}

/// A venue's baseline.
pub open spec fn baseline_of_spec(st: Doc, venue: Seq<char>) -> Option<Double> {
    match st.get("stable"@) {
        Some(s) => match s.get(venue) {
            Some(v) => v.num(),
            None => None,
        },
        None => None,
    }
}

fn baseline_of(st: &Json, venue: &str) -> (r: Option<Double>)
    ensures
        r == baseline_of_spec(st@, venue@),
{
    let s = match st.get("stable") {
        Some(v) => v,
        None => {
            return None;
        },
    };
    let v = match s.get(venue) {
        Some(v) => v,
        None => {
            return None;
        },
    };
    v.num()
}

/// New money not yet in the baseline, read before the tranche moves anything: only that part of the
/// budget can be laddered twice by the next run.
pub open spec fn see_fresh_spec(
    w: WorkView,
    cfg: ConfigView,
    venue: Seq<char>,
    budget: Double,
    answers: Seq<AnswerView>,
) -> (WorkView, Double) {
    if !Double::zero_spec().lt_spec(budget) {
        (w, Double::zero_spec())
    } else {
        match baseline_of_spec(w.st, venue) {
            Some(base) => fresh_money_spec(w, cfg, venue, base, answers),
            None => (w, Double::zero_spec()),
        }
    }
}

fn see_fresh(
    w: Work,
    cfg: &Config,
    venue: &str,
    budget: Double,
    answers: &Vec<Answer>,
) -> (r: (Work, Double))
    ensures
        r.deep_view() == see_fresh_spec(
            w.deep_view(),
            cfg.deep_view(),
            venue@,
            budget,
            answers.deep_view(),
        ),
{
    if !Double::zero().lt(budget) {
        return (w, Double::zero());
    }
    match baseline_of(&w.st, venue) {
        Some(base) => fresh_money(w, cfg, venue, base, answers),
        None => (w, Double::zero()),
    }
}

/// Of the first `n` ids.
pub open spec fn add_placed_quote_spec(
    rows: Seq<(Seq<char>, OrderView)>,
    xs: Seq<Seq<char>>,
    out: Seq<Double>,
    n: nat,
) -> Seq<Double> {
    out + list::gathered(
        xs,
        |c: Seq<char>| match journal::row_of(rows, c) {
            Some(o) => if deploy::has_id_spec(o) {
                Some(
                    match o.quote {
                        Some(v) => v,
                        None => Double::zero_spec(),
                    },
                )
            } else {
                None
            },
            None => None,
        },
        n,
    )
}

fn add_placed_quote(rows: &Journal, xs: &Vec<String>, out: Vec<Double>) -> (r: Vec<Double>)
    ensures
        r.deep_view() == add_placed_quote_spec(
            rows.deep_view(),
            xs.deep_view(),
            out.deep_view(),
            xs@.len(),
        ),
{
    let ghost out0 = out.deep_view();
    let mut out = out;
    let mut i: usize = 0;
    while i < xs.len()
        invariant
            i <= xs@.len(),
            out.deep_view() == add_placed_quote_spec(
                rows.deep_view(),
                xs.deep_view(),
                out0,
                i as nat,
            ),
        decreases xs@.len() - i,
    {
        let c = xs[i].as_str();
        match journal::row_of_id(rows, c) {
            Some(o) => {
                if deploy::has_id(&o) {
                    list::push(
                        &mut out,
                        match o.quote {
                            Some(v) => v,
                            None => Double::zero(),
                        },
                    );
                }
            },
            None => {},
        }
        assert(out.deep_view() =~= add_placed_quote_spec(
            rows.deep_view(),
            xs.deep_view(),
            out0,
            (i + 1) as nat,
        ));
        i = i + 1;
    }
    out
}

/// What reached the venue of some ids.
pub open spec fn placed_quotes_spec(
    rows: Seq<(Seq<char>, OrderView)>,
    cids: Seq<Seq<char>>,
) -> Seq<Double> {
    add_placed_quote_spec(rows, cids, Seq::<Double>::empty(), cids.len())
}

fn placed_quotes(rows: &Journal, cids: &Vec<String>) -> (r: Vec<Double>)
    ensures
        r.deep_view() == placed_quotes_spec(rows.deep_view(), cids.deep_view()),
{
    let mut out: Vec<Double> = list::none();
    out = add_placed_quote(rows, cids, out);
    out
}

/// A state with a venue's baseline raised; none where it has none.
pub open spec fn raised_spec(st: Doc, venue: Seq<char>, bump: Double) -> Option<Doc> {
    match st.get("stable"@) {
        Some(s) => if !(s is Obj) {
            None
        } else {
            match s.get(venue) {
                Some(b) => {
                    let more = (match b.num() {
                        Some(v) => v,
                        None => Double::zero_spec(),
                    }).add_spec(
                        bump,
                    );
                    let t = s;
                    let t = t.set(venue, Doc::Float(more));
                    let st = st.set("stable"@, t);
                    Some(st)
                },
                None => None,
            }
        },
        None => None,
    }
}

fn raised(st: Json, venue: &str, bump: Double) -> (r: Option<Json>)
    ensures
        r.deep_view() == raised_spec(st@, venue@, bump),
{
    let mut st = st;
    match st.get("stable") {
        Some(s) => {
            if !s.is_obj() {
                return None;
            }
            match s.get(venue) {
                Some(b) => {
                    let more = (match b.num() {
                        Some(v) => v,
                        None => Double::zero(),
                    }).plus(
                        bump,
                    );
                    let mut t = s.dup();
                    t.set(venue, Json::Float(more));
                    st.set("stable", t);
                    Some(st)
                },
                None => None,
            }
        },
        None => None,
    }
}

/// The fresh money this laddered is deployed: count it in the baseline, or the next run reads it as
/// new capital and ladders it again.
pub open spec fn raise_baseline_spec(
    w: WorkView,
    venue: Seq<char>,
    bump: Double,
    answers: Seq<AnswerView>,
) -> WorkView {
    if !Double::zero_spec().lt_spec(bump) {
        w
    } else {
        match raised_spec(w.st, venue, bump) {
            Some(st) => {
                let w = WorkView { st, ..w };
                let (v, failed) = deploy::ask_done_spec(w, AskView::SaveState, answers);
                if deploy::stopped_spec(v) {
                    v
                } else {
                    match failed {
                        Some(e) => deploy::say_err_spec(
                            v,
                            "deploy state write failed, baseline not raised by $"@
                                + pyfmt::fixed_spec(bump, 2)
                                + ": "@
                                + e,
                        ),
                        None => v,
                    }
                }
            },
            None => w,
        }
    }
}

fn raise_baseline(w: Work, venue: &str, bump: Double, answers: &Vec<Answer>) -> (r: Work)
    ensures
        r.deep_view() == raise_baseline_spec(w.deep_view(), venue@, bump, answers.deep_view()),
{
    let mut w = w;
    if !Double::zero().lt(bump) {
        return w;
    }
    match raised(w.st.dup(), venue, bump) {
        Some(st) => {
            w.st = st;
            let (v, failed) = deploy::ask_done(w, Ask::SaveState, answers);
            if deploy::stopped(&v) {
                return v;
            }
            match failed {
                Some(e) => {
                    let mut line = text::owned(
                        "deploy state write failed, baseline not raised by $",
                    );
                    line.push_str(pyfmt::fixed(bump, 2).as_str());
                    line.push_str(": ");
                    line.push_str(e.as_str());
                    deploy::say_err(v, line)
                },
                None => v,
            }
        },
        None => w,
    }
}

/// How much of the money that is new to the baseline a tranche has placed.
pub open spec fn laddered_spec(
    fresh: Double,
    budget: Double,
    placed: Double,
    rolled: Double,
) -> Double {
    fresh.min_spec(budget).min_spec(placed.sub_spec(rolled).max_spec(Double::zero_spec()))
}

fn laddered(fresh: Double, budget: Double, placed: Double, rolled: Double) -> (r: Double)
    ensures
        r == laddered_spec(fresh, budget, placed, rolled),
{
    fresh.min(budget).min(placed.minus(rolled).max(Double::zero()))
}

/// Roll a venue's zones and ladder more.
pub open spec fn tranche_on_spec(
    w: WorkView,
    cfg: ConfigView,
    budget: Double,
    venue: Seq<char>,
    only: Option<Seq<Seq<char>>>,
    answers: Seq<AnswerView>,
) -> WorkView {
    let w1 = deploy::need_client_spec(w, venue, answers);
    if deploy::stopped_spec(w1) {
        w1
    } else {
        let (w2, fresh) = see_fresh_spec(w1, cfg, venue, budget, answers);
        if deploy::stopped_spec(w2) {
            w2
        } else {
            let (w3, ts) = deploy::need_number_spec(w2, AskView::Now, answers);
            if deploy::stopped_spec(w3) {
                w3
            } else {
                let (w4, cids, rolled) = planning::deploy_tranche_rolled_spec(
                    w3,
                    cfg,
                    venue,
                    deploy::quote_of_spec(cfg, venue),
                    budget,
                    ts,
                    only,
                    answers,
                );
                if deploy::stopped_spec(w4) {
                    w4
                } else {
                    let w5 = placing::place_unplaced_spec(w4, cfg, cids, answers);
                    if deploy::stopped_spec(w5) {
                        w5
                    } else {
                        let placed = crate::watch::pyfmt::sum_spec(
                            placed_quotes_spec(w5.journal, cids),
                        );
                        raise_baseline_spec(
                            w5,
                            venue,
                            laddered_spec(fresh, budget, placed, rolled),
                            answers,
                        )
                    }
                }
            }
        }
    }
}

fn tranche_on(
    w: Work,
    cfg: &Config,
    budget: Double,
    venue: &str,
    only: Option<&Vec<String>>,
    answers: &Vec<Answer>,
) -> (r: Work)
    ensures
        r.deep_view() == tranche_on_spec(
            w.deep_view(),
            cfg.deep_view(),
            budget,
            venue@,
            only.deep_view(),
            answers.deep_view(),
        ),
{
    let w1 = deploy::need_client(w, venue, answers);
    if deploy::stopped(&w1) {
        return w1;
    }
    let (w2, fresh) = see_fresh(w1, cfg, venue, budget, answers);
    if deploy::stopped(&w2) {
        return w2;
    }
    let (w3, ts) = deploy::need_number(w2, Ask::Now, answers);
    if deploy::stopped(&w3) {
        return w3;
    }
    let (w4, cids, rolled) = planning::deploy_tranche_rolled(
        w3,
        cfg,
        venue,
        deploy::quote_of(cfg, venue).as_str(),
        budget,
        ts,
        only,
        answers,
    );
    if deploy::stopped(&w4) {
        return w4;
    }
    let w5 = placing::place_unplaced(w4, cfg, &cids, answers);
    if deploy::stopped(&w5) {
        return w5;
    }
    let placed = list::sum(&placed_quotes(&w5.journal, &cids));
    raise_baseline(w5, venue, laddered(fresh, budget, placed, rolled), answers)
}

/// `tranche <usd> <venue> [--only A,B]`. There is no manual withhold: a negative tranche is refused,
/// not laddered lighter.
pub open spec fn tranche_spec(
    w: WorkView,
    cfg: ConfigView,
    budget: Double,
    venue: Seq<char>,
    only: Option<Seq<Seq<char>>>,
    answers: Seq<AnswerView>,
) -> CommandView {
    if !(budget.finite() && Double::zero_spec().le_spec(budget)) {
        refused_spec(
            w,
            "tranche <usd> must be a number of at least 0, got "@
                + crate::watch::pyfmt::repr_spec(budget),
        )
    } else if deploy::blocked_spec(cfg) is Some {
        refused_spec(w, "blocked: LIVE_TRADING_ENABLED/halt file"@)
    } else if !known_venue_spec(venue) {
        refused_spec(w, "usage: rungbot-exec deploy tranche <usd> <binance|gate|revx>"@)
    } else {
        let v = tranche_on_spec(w, cfg, budget, venue, only, answers);
        if deploy::stopped_spec(v) {
            halted_spec(v)
        } else {
            closed_spec(v, None, "nothing more was placed"@)
        }
    }
}

/// `tranche <usd> <venue> [--only A,B]`. There is no manual withhold: a negative tranche is refused,
/// not laddered lighter.
pub fn tranche(
    w: Work,
    cfg: &Config,
    budget: Double,
    venue: &str,
    only: Option<&Vec<String>>,
    answers: &Vec<Answer>,
) -> (r: Command)
    ensures
        r.deep_view() == tranche_spec(
            w.deep_view(),
            cfg.deep_view(),
            budget,
            venue@,
            only.deep_view(),
            answers.deep_view(),
        ),
{
    if !(budget.is_finite() && Double::zero().le(budget)) {
        let mut line = text::owned("tranche <usd> must be a number of at least 0, got ");
        line.push_str(pyfmt::float_repr(budget).as_str());
        return refused(w, line);
    }
    if deploy::blocked(cfg).is_some() {
        return refused(w, text::owned("blocked: LIVE_TRADING_ENABLED/halt file"));
    }
    if !known_venue(venue) {
        return refused(
            w,
            text::owned("usage: rungbot-exec deploy tranche <usd> <binance|gate|revx>"),
        );
    }
    let v = tranche_on(w, cfg, budget, venue, only, answers);
    if deploy::stopped(&v) {
        return halted(v);
    }
    closed(v, list::text_ref(&None), "nothing more was placed")
}

/// What is left to ladder after a market buy.
#[derive(Debug)]
pub struct Spent {
    pub rest: Double,
    /// A journal write that failed.
    pub write_failed: Option<String>,
}

/// What a [`Spent`] holds.
pub struct SpentView {
    pub rest: Double,
    pub write_failed: Option<Seq<char>>,
}

impl DeepView for Spent {
    type V = SpentView;

    open spec fn deep_view(&self) -> SpentView {
        SpentView {
            rest: self.rest,
            write_failed: self.write_failed.deep_view(),
        }
    }
}

/// The journal row of a market buy that is about to be sent.
pub open spec fn market_row_spec(
    cid: Seq<char>,
    venue: Seq<char>,
    sym: Seq<char>,
    pair: Seq<char>,
    mkt: Double,
    ts: Double,
    share_pct: Double,
    budget: Double,
) -> OrderView {
    let row = journal::blank_row_spec(cid);
    let row = OrderView { sym, ..row };
    let row = OrderView { exch: venue, ..row };
    let row = OrderView { pair, ..row };
    let row = OrderView { side: "buy"@, ..row };
    let row = OrderView { kind: "deploy_buy"@, ..row };
    let row = OrderView { status: "pending"@, ..row };
    let row = OrderView { quote: Some(mkt), ..row };
    let row = OrderView { rung: Some(0), ..row };
    let row = OrderView { ts: Some(ts), ..row };
    OrderView {
        note: Some(
            "market "@
                + crate::watch::pyfmt::g_spec(share_pct, 6)
                + "% of $"@
                + pyfmt::fixed_spec(budget, 2)
                + " tranche"@,
        ),
        ..row
    }
}

fn market_row(
    cid: &str,
    venue: &str,
    sym: &str,
    pair: &str,
    mkt: Double,
    ts: Double,
    share_pct: Double,
    budget: Double,
) -> (r: Order)
    ensures
        r.deep_view() == market_row_spec(cid@, venue@, sym@, pair@, mkt, ts, share_pct, budget),
{
    let mut row = Order::new(cid);
    row.sym = text::owned(sym);
    row.exch = text::owned(venue);
    row.pair = text::owned(pair);
    row.side = text::owned("buy");
    row.kind = text::owned("deploy_buy");
    row.status = text::owned("pending");
    row.quote = Some(mkt);
    row.rung = Some(0);
    row.ts = Some(ts);
    let mut line = text::owned("market ");
    line.push_str(crate::watch::pyfmt::g(share_pct, 6).as_str());
    line.push_str("% of $");
    line.push_str(pyfmt::fixed(budget, 2).as_str());
    line.push_str(" tranche");
    row.note = Some(line);
    row
}

/// Write the journal; the first write that failed is kept in mind.
pub open spec fn save_after_spec(
    w: WorkView,
    failed: Option<Seq<char>>,
    answers: Seq<AnswerView>,
) -> (WorkView, Option<Seq<char>>) {
    let (v, e) = deploy::ask_done_spec(w, AskView::SaveJournal, answers);
    match failed {
        Some(x) => (v, Some(x)),
        None => (v, e),
    }
}

fn save_after(w: Work, failed: Option<&str>, answers: &Vec<Answer>) -> (r: (Work, Option<String>))
    ensures
        r.deep_view() == save_after_spec(w.deep_view(), failed.deep_view(), answers.deep_view()),
{
    let (v, e) = deploy::ask_done(w, Ask::SaveJournal, answers);
    match failed {
        Some(x) => (v, Some(text::owned(x))),
        None => (v, e),
    }
}

/// A market buy the venue took.
pub open spec fn bought_spec(
    w: WorkView,
    row: OrderView,
    p: ParsedOrderView,
    mkt: Double,
    share_pct: Double,
    budget: Double,
    rest: Double,
    answers: Seq<AnswerView>,
) -> (WorkView, SpentView) {
    let sym = row.sym;
    let row = OrderView {
        order_id: if p.order_id == ""@ {
            None
        } else {
            Some(p.order_id)
        },
        ..row
    };
    let row = OrderView { status: "new"@, ..row };
    let row = OrderView { last_error: None, ..row };
    let (v, failed) = save_after_spec(deploy::write_row_spec(w, row), None, answers);
    if deploy::stopped_spec(v) {
        (v, SpentView { rest: Double::zero_spec(), write_failed: None })
    } else {
        (
            deploy::say_done_spec(
                v,
                Some(sym),
                Some("buy"@),
                true,
                "MARKET BUY "@
                    + sym
                    + " $"@
                    + pyfmt::fixed_spec(mkt, 2)
                    + " ("@
                    + crate::watch::pyfmt::g_spec(share_pct, 6)
                    + "% of $"@
                    + pyfmt::fixed_spec(budget, 2)
                    + ") — core add"@,
            ),
            SpentView { rest, write_failed: failed },
        )
    }
}

fn bought(
    w: Work,
    row: Order,
    p: &ParsedOrder,
    mkt: Double,
    share_pct: Double,
    budget: Double,
    rest: Double,
    answers: &Vec<Answer>,
) -> (r: (Work, Spent))
    ensures
        r.deep_view() == bought_spec(
            w.deep_view(),
            row.deep_view(),
            p.deep_view(),
            mkt,
            share_pct,
            budget,
            rest,
            answers.deep_view(),
        ),
{
    let mut row = row;
    let sym = row.sym.dup();
    row.order_id = if text::same(p.order_id.as_str(), "") {
        None
    } else {
        Some(text::owned(p.order_id.as_str()))
    };
    row.status = text::owned("new");
    row.last_error = None;
    let (v, failed) = save_after(deploy::write_row(w, row), list::text_ref(&None), answers);
    if deploy::stopped(&v) {
        return (v, Spent { rest: Double::zero(), write_failed: None });
    }
    let mut line = text::owned("MARKET BUY ");
    line.push_str(sym.as_str());
    line.push_str(" $");
    line.push_str(pyfmt::fixed(mkt, 2).as_str());
    line.push_str(" (");
    line.push_str(crate::watch::pyfmt::g(share_pct, 6).as_str());
    line.push_str("% of $");
    line.push_str(pyfmt::fixed(budget, 2).as_str());
    line.push_str(") — core add");
    (
        deploy::say_done(v, Some(sym.as_str()), Some("buy"), true, line),
        Spent { rest, write_failed: failed },
    )
}

/// A market buy that was not sent or not taken: the whole budget is laddered, unless the journal
/// cannot be written.
pub open spec fn not_bought_spec(
    w: WorkView,
    row: OrderView,
    why: Seq<char>,
    failed: Option<Seq<char>>,
    mkt: Double,
    budget: Double,
    answers: Seq<AnswerView>,
) -> (WorkView, SpentView) {
    let sym = row.sym;
    let row = OrderView { status: "error"@, ..row };
    let row = OrderView { last_error: Some(why), ..row };
    let (v, after) = save_after_spec(deploy::write_row_spec(w, row), failed, answers);
    if deploy::stopped_spec(v) {
        (v, SpentView { rest: Double::zero_spec(), write_failed: None })
    } else {
        let u = deploy::say_warn_spec(
            v,
            Some(sym),
            None,
            "market buy "@ + sym + " $"@ + pyfmt::fixed_spec(mkt, 2) + " FAILED: "@ + why,
        );
        match after {
            Some(e) => (u, SpentView { rest: Double::zero_spec(), write_failed: Some(e) }),
            None => (u, SpentView { rest: budget, write_failed: None }),
        }
    }
}

fn not_bought(
    w: Work,
    row: Order,
    why: &str,
    failed: Option<&str>,
    mkt: Double,
    budget: Double,
    answers: &Vec<Answer>,
) -> (r: (Work, Spent))
    ensures
        r.deep_view() == not_bought_spec(
            w.deep_view(),
            row.deep_view(),
            why@,
            failed.deep_view(),
            mkt,
            budget,
            answers.deep_view(),
        ),
{
    let mut row = row;
    let sym = row.sym.dup();
    row.status = text::owned("error");
    row.last_error = Some(text::owned(why));
    let (v, after) = save_after(deploy::write_row(w, row), failed, answers);
    if deploy::stopped(&v) {
        return (v, Spent { rest: Double::zero(), write_failed: None });
    }
    let mut line = text::owned("market buy ");
    line.push_str(sym.as_str());
    line.push_str(" $");
    line.push_str(pyfmt::fixed(mkt, 2).as_str());
    line.push_str(" FAILED: ");
    line.push_str(why);
    let u = deploy::say_warn(v, Some(sym.as_str()), list::text_ref(&None), line);
    match after {
        Some(e) => (u, Spent { rest: Double::zero(), write_failed: Some(e) }),
        None => (u, Spent { rest: budget, write_failed: None }),
    }
}

/// Journal a market buy, and send it once it is on disk.
pub open spec fn buy_share_spec(
    w: WorkView,
    row: OrderView,
    mkt: Double,
    share_pct: Double,
    budget: Double,
    rest: Double,
    answers: Seq<AnswerView>,
) -> (WorkView, SpentView) {
    let (w1, failed) = deploy::ask_done_spec(
        deploy::write_row_spec(w, row),
        AskView::SaveJournal,
        answers,
    );
    if deploy::stopped_spec(w1) {
        (w1, SpentView { rest: Double::zero_spec(), write_failed: None })
    } else {
        match failed {
            Some(e) => not_bought_spec(
                w1,
                row,
                "not placed, "@ + e,
                Some(e),
                mkt,
                budget,
                answers,
            ),
            None => {
                let (w2, got) = deploy::ask_placed_spec(
                    w1,
                    AskView::MarketBuy(row.exch, row.pair, mkt, Some(row.client_id)),
                    answers,
                );
                if deploy::stopped_spec(w2) {
                    (w2, SpentView { rest: Double::zero_spec(), write_failed: None })
                } else {
                    match got {
                        Ok(p) => bought_spec(w2, row, p, mkt, share_pct, budget, rest, answers),
                        Err(e) => not_bought_spec(w2, row, e, None, mkt, budget, answers),
                    }
                }
            },
        }
    }
}

fn buy_share(
    w: Work,
    row: Order,
    mkt: Double,
    share_pct: Double,
    budget: Double,
    rest: Double,
    answers: &Vec<Answer>,
) -> (r: (Work, Spent))
    ensures
        r.deep_view() == buy_share_spec(
            w.deep_view(),
            row.deep_view(),
            mkt,
            share_pct,
            budget,
            rest,
            answers.deep_view(),
        ),
{
    let (w1, failed) = deploy::ask_done(
        deploy::write_row(w, row.dup()),
        Ask::SaveJournal,
        answers,
    );
    if deploy::stopped(&w1) {
        return (w1, Spent { rest: Double::zero(), write_failed: None });
    }
    match failed {
        Some(e) => {
            let mut line = text::owned("not placed, ");
            line.push_str(e.as_str());
            not_bought(w1, row, line.as_str(), Some(e.as_str()), mkt, budget, answers)
        },
        None => {
            let (w2, got) = deploy::ask_placed(
                w1,
                Ask::MarketBuy(
                    text::owned(row.exch.as_str()),
                    text::owned(row.pair.as_str()),
                    mkt,
                    Some(text::owned(row.client_id.as_str())),
                ),
                answers,
            );
            if deploy::stopped(&w2) {
                return (w2, Spent { rest: Double::zero(), write_failed: None });
            }
            match got {
                Ok(p) => bought(w2, row, &p, mkt, share_pct, budget, rest, answers),
                Err(e) => not_bought(
                    w2,
                    row,
                    e.as_str(),
                    list::text_ref(&None),
                    mkt,
                    budget,
                    answers,
                ),
            }
        },
    }
}

/// Buy a share of a budget at market; what is left of it.
pub open spec fn spend_share_spec(
    w: WorkView,
    venue: Seq<char>,
    sym: Seq<char>,
    pair: Seq<char>,
    share_pct: Double,
    budget: Double,
    ts: Double,
    answers: Seq<AnswerView>,
) -> (WorkView, SpentView) {
    let mkt = crate::watch::pyfmt::round_spec(
        budget.mul_spec(share_pct).div_spec(Double::int_spec(100)),
        2,
    );
    let rest = budget.sub_spec(mkt).sub_spec(
        mkt.mul_spec(Double::ratio_spec(3, 1000)).max_spec(Double::int_spec(1)),
    ).max_spec(
        Double::zero_spec(),
    );
    if mkt.le_spec(Double::zero_spec()) {
        (
            deploy::warn_spec(
                w,
                "market buy "@
                    + sym
                    + " skipped: $"@
                    + pyfmt::fixed_spec(mkt, 2)
                    + " to spend ("@
                    + crate::watch::pyfmt::g_spec(share_pct, 6)
                    + "% of $"@
                    + pyfmt::fixed_spec(budget, 2)
                    + " rolled from resting zones)"@,
            ),
            SpentView { rest, write_failed: None },
        )
    } else {
        let cid = planning::id_prefix_spec(venue)
            + sym
            + text::dec_int((ts.cast_spec(i64::MIN as int, i64::MAX as int) as i64) as int)
            + "m"@;
        buy_share_spec(
            w,
            market_row_spec(cid, venue, sym, pair, mkt, ts, share_pct, budget),
            mkt,
            share_pct,
            budget,
            rest,
            answers,
        )
    }
}

fn spend_share(
    w: Work,
    venue: &str,
    sym: &str,
    pair: &str,
    share_pct: Double,
    budget: Double,
    ts: Double,
    answers: &Vec<Answer>,
) -> (r: (Work, Spent))
    ensures
        r.deep_view() == spend_share_spec(
            w.deep_view(),
            venue@,
            sym@,
            pair@,
            share_pct,
            budget,
            ts,
            answers.deep_view(),
        ),
{
    let mkt = crate::watch::pyfmt::round(budget.times(share_pct).over(Double::of_int(100)), 2);
    let rest = budget.minus(mkt).minus(mkt.times(Double::ratio(3, 1000)).max(Double::of_int(1))).max(
        Double::zero(),
    );
    if mkt.le(Double::zero()) {
        let mut line = text::owned("market buy ");
        line.push_str(sym);
        line.push_str(" skipped: $");
        line.push_str(pyfmt::fixed(mkt, 2).as_str());
        line.push_str(" to spend (");
        line.push_str(crate::watch::pyfmt::g(share_pct, 6).as_str());
        line.push_str("% of $");
        line.push_str(pyfmt::fixed(budget, 2).as_str());
        line.push_str(" rolled from resting zones)");
        return (deploy::warn(w, line), Spent { rest, write_failed: None });
    }
    let mut cid = planning::id_prefix(venue);
    cid.push_str(sym);
    cid.push_str(text::dec_i64(ts.to_i64()).as_str());
    cid.push_str("m");
    buy_share(
        w,
        market_row(cid.as_str(), venue, sym, pair, mkt, ts, share_pct, budget),
        mkt,
        share_pct,
        budget,
        rest,
        answers,
    )
}

/// Ladder what a market buy left.
pub open spec fn ladder_rest_spec(
    w: WorkView,
    cfg: ConfigView,
    venue: Seq<char>,
    sym: Seq<char>,
    pair: Seq<char>,
    rest: Double,
    ts: Double,
    answers: Seq<AnswerView>,
) -> WorkView {
    if !Double::zero_spec().lt_spec(rest) {
        w
    } else {
        let (w1, label) = deploy::regime_label_spec(w, answers);
        if deploy::stopped_spec(w1) {
            w1
        } else {
            let none = Seq::<PinnedView>::empty();
            let (w2, c) = planning::plan_coin_spec(
                w1,
                cfg,
                venue,
                pair,
                rest,
                label,
                Seq::<ShapeView>::empty(),
                Some(sym),
                none,
                answers,
            );
            if deploy::stopped_spec(w2) {
                w2
            } else {
                match c.skip {
                    Some(why) => deploy::say_warn_spec(
                        w2,
                        Some(sym),
                        None,
                        "zone leg skipped: "@ + why,
                    ),
                    None => {
                        let plans = Seq::<(Seq<char>, Seq<RungView>)>::empty().push(
                            (sym, c.rungs),
                        );
                        let (w3, cids) = planning::journal_and_place_spec(
                            w2,
                            cfg,
                            venue,
                            plans,
                            ts,
                            None,
                            answers,
                        );
                        if deploy::stopped_spec(w3) {
                            w3
                        } else {
                            placing::place_unplaced_spec(w3, cfg, cids, answers)
                        }
                    },
                }
            }
        }
    }
}

fn ladder_rest(
    w: Work,
    cfg: &Config,
    venue: &str,
    sym: &str,
    pair: &str,
    rest: Double,
    ts: Double,
    answers: &Vec<Answer>,
) -> (r: Work)
    ensures
        r.deep_view() == ladder_rest_spec(
            w.deep_view(),
            cfg.deep_view(),
            venue@,
            sym@,
            pair@,
            rest,
            ts,
            answers.deep_view(),
        ),
{
    if !Double::zero().lt(rest) {
        return w;
    }
    let (w1, label) = deploy::regime_label(w, answers);
    if deploy::stopped(&w1) {
        return w1;
    }
    let none: Vec<Pinned> = list::none();
    let (w2, c) = planning::plan_coin(
        w1,
        cfg,
        venue,
        pair,
        rest,
        label.as_str(),
        list::none::<Shape>(),
        Some(sym),
        &none,
        answers,
    );
    if deploy::stopped(&w2) {
        return w2;
    }
    match &c.skip {
        Some(why) => {
            let mut line = text::owned("zone leg skipped: ");
            line.push_str(why.as_str());
            deploy::say_warn(w2, Some(sym), list::text_ref(&None), line)
        },
        None => {
            let mut plans: Vec<(String, Vec<Rung>)> = list::none();
            list::push(&mut plans, (text::owned(sym), c.rungs.dup()));
            let (w3, cids) = planning::journal_and_place(
                w2,
                cfg,
                venue,
                &plans,
                ts,
                list::text_ref(&None),
                answers,
            );
            if deploy::stopped(&w3) {
                return w3;
            }
            placing::place_unplaced(w3, cfg, &cids, answers)
        },
    }
}

/// Spend what a coin's zones held: a share at market, the rest on a ladder.
pub open spec fn market_rolled_spec(
    w: WorkView,
    cfg: ConfigView,
    share_pct: Double,
    venue: Seq<char>,
    sym: Seq<char>,
    budget: Double,
    ts: Double,
    answers: Seq<AnswerView>,
) -> CommandView {
    match deploy::pair_for_spec(cfg, venue, sym) {
        Err(e) => halted_spec(deploy::failing_spec(w, e)),
        Ok(pair) => {
            let (w1, s) = spend_share_spec(w, venue, sym, pair, share_pct, budget, ts, answers);
            if deploy::stopped_spec(w1) {
                halted_spec(w1)
            } else {
                let w2 = ladder_rest_spec(w1, cfg, venue, sym, pair, s.rest, ts, answers);
                if deploy::stopped_spec(w2) {
                    halted_spec(w2)
                } else {
                    closed_spec(w2, s.write_failed, "nothing more was placed"@)
                }
            }
        },
    }
}

fn market_rolled(
    w: Work,
    cfg: &Config,
    share_pct: Double,
    venue: &str,
    sym: &str,
    budget: Double,
    ts: Double,
    answers: &Vec<Answer>,
) -> (r: Command)
    ensures
        r.deep_view() == market_rolled_spec(
            w.deep_view(),
            cfg.deep_view(),
            share_pct,
            venue@,
            sym@,
            budget,
            ts,
            answers.deep_view(),
        ),
{
    match deploy::pair_for(cfg, venue, sym) {
        Err(e) => halted(deploy::failing(w, e)),
        Ok(pair) => {
            let (w1, s) = spend_share(
                w,
                venue,
                sym,
                pair.as_str(),
                share_pct,
                budget,
                ts,
                answers,
            );
            if deploy::stopped(&w1) {
                return halted(w1);
            }
            let w2 = ladder_rest(w1, cfg, venue, sym, pair.as_str(), s.rest, ts, answers);
            if deploy::stopped(&w2) {
                return halted(w2);
            }
            closed(w2, list::text_ref(&s.write_failed), "nothing more was placed")
        },
    }
}

/// `market <share%> <venue> <SYM>`.
pub open spec fn market_spec(
    w: WorkView,
    cfg: ConfigView,
    share_pct: Double,
    venue: Seq<char>,
    sym: Seq<char>,
    answers: Seq<AnswerView>,
) -> CommandView {
    if !(Double::zero_spec().lt_spec(share_pct) && share_pct.le_spec(Double::int_spec(100))) {
        refused_spec(
            w,
            "--market share must be above 0 and at most 100, got "@
                + crate::watch::pyfmt::repr_spec(share_pct),
        )
    } else if deploy::blocked_spec(cfg) is Some {
        refused_spec(w, "blocked: LIVE_TRADING_ENABLED/halt file"@)
    } else if !known_venue_spec(venue) {
        refused_spec(w, "usage: rungbot-exec deploy market <share%> <binance|gate|revx> <SYM>"@)
    } else {
        let w1 = deploy::need_client_spec(w, venue, answers);
        if deploy::stopped_spec(w1) {
            halted_spec(w1)
        } else {
            let (w2, ts) = deploy::need_number_spec(w1, AskView::Now, answers);
            if deploy::stopped_spec(w2) {
                halted_spec(w2)
            } else {
                let one = Seq::<Seq<char>>::empty().push(sym);
                let (w3, rolled) = planning::cancel_open_zones_spec(w2, venue, Some(one), answers);
                if deploy::stopped_spec(w3) {
                    halted_spec(w3)
                } else {
                    market_rolled_spec(w3, cfg, share_pct, venue, sym, rolled, ts, answers)
                }
            }
        }
    }
}

/// `market <share%> <venue> <SYM>`.
pub fn market(
    w: Work,
    cfg: &Config,
    share_pct: Double,
    venue: &str,
    sym: &str,
    answers: &Vec<Answer>,
) -> (r: Command)
    ensures
        r.deep_view() == market_spec(
            w.deep_view(),
            cfg.deep_view(),
            share_pct,
            venue@,
            sym@,
            answers.deep_view(),
        ),
{
    if !(Double::zero().lt(share_pct) && share_pct.le(Double::of_int(100))) {
        let mut line = text::owned("--market share must be above 0 and at most 100, got ");
        line.push_str(pyfmt::float_repr(share_pct).as_str());
        return refused(w, line);
    }
    if deploy::blocked(cfg).is_some() {
        return refused(w, text::owned("blocked: LIVE_TRADING_ENABLED/halt file"));
    }
    if !known_venue(venue) {
        return refused(
            w,
            text::owned("usage: rungbot-exec deploy market <share%> <binance|gate|revx> <SYM>"),
        );
    }
    let w1 = deploy::need_client(w, venue, answers);
    if deploy::stopped(&w1) {
        return halted(w1);
    }
    let (w2, ts) = deploy::need_number(w1, Ask::Now, answers);
    if deploy::stopped(&w2) {
        return halted(w2);
    }
    let mut one: Vec<String> = list::none();
    list::push(&mut one, text::owned(sym));
    let (w3, rolled) = planning::cancel_open_zones(w2, venue, Some(&one), answers);
    if deploy::stopped(&w3) {
        return halted(w3);
    }
    market_rolled(w3, cfg, share_pct, venue, sym, rolled, ts, answers)
}

/// Whether a command covers a venue.
pub open spec fn on_venue_spec(venue: Option<Seq<char>>, exch: Seq<char>) -> bool {
    match venue {
        Some(v) => exch == v,
        None => true,
    }
}

fn on_venue(venue: Option<&str>, exch: &str) -> (r: bool)
    ensures
        r == on_venue_spec(venue.deep_view(), exch@),
{
    let v = match venue {
        Some(v) => v,
        None => {
            return true;
        },
    };
    text::same(exch, v)
}

/// Of the first `n` rows.
pub open spec fn add_cancellable_spec(
    venue: Option<Seq<char>>,
    xs: Seq<OrderView>,
    out: Seq<OrderView>,
    n: nat,
) -> Seq<OrderView> {
    out + list::kept(xs, |o: OrderView| deploy::has_id_spec(o) && on_venue_spec(venue, o.exch), n)
}

fn add_cancellable(venue: Option<&str>, xs: &Vec<Order>, out: Vec<Order>) -> (r: Vec<Order>)
    ensures
        r.deep_view() == add_cancellable_spec(
            venue.deep_view(),
            xs.deep_view(),
            out.deep_view(),
            xs@.len(),
        ),
{
    let ghost out0 = out.deep_view();
    let mut out = out;
    let mut i: usize = 0;
    while i < xs.len()
        invariant
            i <= xs@.len(),
            out.deep_view() == add_cancellable_spec(
                venue.deep_view(),
                xs.deep_view(),
                out0,
                i as nat,
            ),
        decreases xs@.len() - i,
    {
        let o = &xs[i];
        if deploy::has_id(o) && on_venue(venue, o.exch.as_str()) {
            list::push(&mut out, o.dup());
        }
        assert(out.deep_view() =~= add_cancellable_spec(
            venue.deep_view(),
            xs.deep_view(),
            out0,
            (i + 1) as nat,
        ));
        i = i + 1;
    }
    out
}

/// The resting deploy zones a command covers.
pub open spec fn cancellable_spec(
    rows: Seq<OrderView>,
    venue: Option<Seq<char>>,
) -> Seq<OrderView> {
    add_cancellable_spec(
        venue,
        journal::open_rows_spec(rows, Some("deploy_buy"@)),
        Seq::<OrderView>::empty(),
        journal::open_rows_spec(rows, Some("deploy_buy"@)).len(),
    )
}

fn cancellable(rows: &Vec<Order>, venue: Option<&str>) -> (r: Vec<Order>)
    ensures
        r.deep_view() == cancellable_spec(rows.deep_view(), venue.deep_view()),
{
    let mut out: Vec<Order> = list::none();
    out = add_cancellable(venue, &journal::open_rows(rows, Some("deploy_buy")), out);
    out
}

/// What a cancel has done so far.
#[derive(Debug)]
pub struct Tally {
    pub lines: Vec<String>,
    /// The ids it cancelled.
    pub gone: Vec<String>,
}

/// What a [`Tally`] holds.
pub struct TallyView {
    pub lines: Seq<Seq<char>>,
    pub gone: Seq<Seq<char>>,
}

impl DeepView for Tally {
    type V = TallyView;

    open spec fn deep_view(&self) -> TallyView {
        TallyView {
            lines: self.lines.deep_view(),
            gone: self.gone.deep_view(),
        }
    }
}

/// Cancel one zone, where its venue has a client.
pub open spec fn cancel_zone_spec(
    w: WorkView,
    names: Seq<Seq<char>>,
    o: OrderView,
    t: TallyView,
    answers: Seq<AnswerView>,
) -> (WorkView, TallyView) {
    if deploy::stopped_spec(w) || !names.contains(o.exch) {
        (w, t)
    } else {
        let w1 = deploy::need_client_spec(w, o.exch, answers);
        if deploy::stopped_spec(w1) {
            (w1, t)
        } else {
            let (w2, c) = planning::cancel_ours_spec(w1, o, deploy::CANCEL_NOTE@, answers);
            if deploy::stopped_spec(w2) {
                (w2, t)
            } else {
                let quote = match o.quote {
                    Some(v) => v,
                    None => Double::zero_spec(),
                };
                let price = match o.price {
                    Some(v) => v,
                    None => Double::zero_spec(),
                };
                match c {
                    CancelledView::Gone(kind, spent) => {
                        let t = TallyView {
                            lines: t.lines.push(
                                "canceled "@
                                    + crate::watch::pyfmt::ljust_spec(o.sym, 5)
                                    + " $"@
                                    + pyfmt::fixed_spec(quote, 2)
                                    + " @ $"@
                                    + crate::watch::pyfmt::g_spec(price, 6),
                            ),
                            ..t
                        };
                        (w2, TallyView { gone: t.gone.push(o.client_id), ..t })
                    },
                    CancelledView::Refused(e) => {
                        let t = TallyView {
                            lines: t.lines.push(
                                "FAILED "@
                                    + o.sym
                                    + " @ $"@
                                    + crate::watch::pyfmt::g_spec(price, 6)
                                    + ": "@
                                    + e
                                    + " (may have just filled)"@,
                            ),
                            ..t
                        };
                        (w2, t)
                    },
                }
            }
        }
    }
}

fn cancel_zone(
    w: Work,
    names: &Vec<String>,
    o: &Order,
    t: Tally,
    answers: &Vec<Answer>,
) -> (r: (Work, Tally))
    ensures
        r.deep_view() == cancel_zone_spec(
            w.deep_view(),
            names.deep_view(),
            o.deep_view(),
            t.deep_view(),
            answers.deep_view(),
        ),
{
    let mut t = t;
    if deploy::stopped(&w) || !list::holds(names, o.exch.as_str()) {
        return (w, t);
    }
    let w1 = deploy::need_client(w, o.exch.as_str(), answers);
    if deploy::stopped(&w1) {
        return (w1, t);
    }
    let (w2, c) = planning::cancel_ours(w1, o, deploy::CANCEL_NOTE, answers);
    if deploy::stopped(&w2) {
        return (w2, t);
    }
    let quote = match o.quote {
        Some(v) => v,
        None => Double::zero(),
    };
    let price = match o.price {
        Some(v) => v,
        None => Double::zero(),
    };
    match c {
        Cancelled::Gone(kind, spent) => {
            let mut line = text::owned("canceled ");
            line.push_str(crate::watch::pyfmt::ljust(o.sym.as_str(), 5).as_str());
            line.push_str(" $");
            line.push_str(pyfmt::fixed(quote, 2).as_str());
            line.push_str(" @ $");
            line.push_str(crate::watch::pyfmt::g(price, 6).as_str());
            list::push(&mut t.lines, line);
            list::push(&mut t.gone, text::owned(o.client_id.as_str()));
            (w2, t)
        },
        Cancelled::Refused(e) => {
            let mut line2 = text::owned("FAILED ");
            line2.push_str(o.sym.as_str());
            line2.push_str(" @ $");
            line2.push_str(crate::watch::pyfmt::g(price, 6).as_str());
            line2.push_str(": ");
            line2.push_str(e.as_str());
            line2.push_str(" (may have just filled)");
            list::push(&mut t.lines, line2);
            (w2, t)
        },
    }
}

/// The venue a cancel was limited to, as it prints.
pub open spec fn venue_tail_spec(venue: Option<Seq<char>>) -> Seq<char> {
    match venue {
        Some(v) => " on "@ + v,
        None => ""@,
    }
}

fn venue_tail(venue: Option<&str>) -> (r: String)
    ensures
        r@ == venue_tail_spec(venue.deep_view()),
{
    let v = match venue {
        Some(v) => v,
        None => {
            return text::owned("");
        },
    };
    let mut line = text::owned(" on ");
    line.push_str(v);
    line
}

/// The first `n` of them.
pub open spec fn cancel_each_spec(
    answers: Seq<AnswerView>,
    names: Seq<Seq<char>>,
    xs: Seq<OrderView>,
    w: WorkView,
    t: TallyView,
    n: nat,
) -> (WorkView, TallyView)
    decreases n,
{
    if n == 0 {
        (w, t)
    } else {
        let (w, t) = cancel_each_spec(answers, names, xs, w, t, (n - 1) as nat);
        let o = xs[n - 1];
        let (w1, t1) = cancel_zone_spec(w, names, o, t, answers);
        (w1, t1)
    }
}

fn cancel_each(
    answers: &Vec<Answer>,
    names: &Vec<String>,
    xs: &Vec<Order>,
    w: Work,
    t: Tally,
) -> (r: (Work, Tally))
    ensures
        r.deep_view() == cancel_each_spec(
            answers.deep_view(),
            names.deep_view(),
            xs.deep_view(),
            w.deep_view(),
            t.deep_view(),
            xs@.len(),
        ),
{
    let ghost w0 = w.deep_view();
    let ghost t0 = t.deep_view();
    let mut w = w;
    let mut t = t;
    let mut i: usize = 0;
    while i < xs.len()
        invariant
            i <= xs@.len(),
            (w.deep_view(), t.deep_view()) == cancel_each_spec(
                answers.deep_view(),
                names.deep_view(),
                xs.deep_view(),
                w0,
                t0,
                i as nat,
            ),
        decreases xs@.len() - i,
    {
        let o = &xs[i];
        let (w1, t1) = cancel_zone(w, names, o, t, answers);
        w = w1;
        t = t1;
        i = i + 1;
    }
    (w, t)
}

/// Cancel some zones.
pub open spec fn cancel_all_spec(
    w: WorkView,
    names: Seq<Seq<char>>,
    open: Seq<OrderView>,
    venue: Option<Seq<char>>,
    halt_path: Seq<char>,
    answers: Seq<AnswerView>,
) -> CommandView {
    let t = TallyView { lines: Seq::<Seq<char>>::empty(), gone: Seq::<Seq<char>>::empty() };
    let (w, t) = cancel_each_spec(answers, names, open, w, t, open.len());
    if deploy::stopped_spec(w) {
        halted_spec(w)
    } else {
        let lines = t.lines;
        let lines = lines.push(
            "canceled "@
                + text::dec(((t.gone.len() as usize)) as nat)
                + "/"@
                + text::dec(((open.len() as usize)) as nat)
                + " deploy zones"@
                + venue_tail_spec(venue)
                + ". Also: touch "@
                + halt_path
                + " to freeze the bot."@,
        );
        printed_spec(w, lines)
    }
}

fn cancel_all(
    w: Work,
    names: &Vec<String>,
    open: &Vec<Order>,
    venue: Option<&str>,
    halt_path: &str,
    answers: &Vec<Answer>,
) -> (r: Command)
    ensures
        r.deep_view() == cancel_all_spec(
            w.deep_view(),
            names.deep_view(),
            open.deep_view(),
            venue.deep_view(),
            halt_path@,
            answers.deep_view(),
        ),
{
    let mut w = w;
    let mut t = Tally { lines: list::none::<String>(), gone: list::none::<String>() };
    let (next_w, next_t) = cancel_each(answers, names, open, w, t);
    w = next_w;
    t = next_t;
    if deploy::stopped(&w) {
        return halted(w);
    }
    let mut lines = t.lines.dup();
    let mut line = text::owned("canceled ");
    line.push_str(text::dec_u64(t.gone.len() as u64).as_str());
    line.push_str("/");
    line.push_str(text::dec_u64(open.len() as u64).as_str());
    line.push_str(" deploy zones");
    line.push_str(venue_tail(venue).as_str());
    line.push_str(". Also: touch ");
    line.push_str(halt_path);
    line.push_str(" to freeze the bot.");
    list::push(&mut lines, line);
    printed(w, lines)
}

/// `cancel [venue]`. Refused while live trading is off; a halt file does not stop it. An unknown
/// venue is refused: it must never widen to "cancel everything".
pub open spec fn cancel_spec(
    w: WorkView,
    cfg: ConfigView,
    venue: Option<Seq<char>>,
    halt_path: Seq<char>,
    answers: Seq<AnswerView>,
) -> CommandView {
    if !cfg.live_trading_enabled {
        refused_spec(w, "blocked: LIVE_TRADING_ENABLED is not 'yes'"@)
    } else {
        match venue {
            Some(v) => if !known_venue_spec(v) {
                refused_spec(w, "usage: rungbot-exec deploy cancel [binance|gate|revx]"@)
            } else {
                let open = cancellable_spec(journal::rows_alone(w.journal), venue);
                if open.len() == 0 {
                    let lines = Seq::<Seq<char>>::empty().push("no open deploy zones to cancel"@);
                    printed_spec(w, lines)
                } else {
                    let (w1, names) = deploy::clients_spec(w, answers);
                    if deploy::stopped_spec(w1) {
                        halted_spec(w1)
                    } else {
                        cancel_all_spec(w1, names, open, venue, halt_path, answers)
                    }
                }
            },
            None => {
                let open = cancellable_spec(journal::rows_alone(w.journal), venue);
                if open.len() == 0 {
                    let lines = Seq::<Seq<char>>::empty().push("no open deploy zones to cancel"@);
                    printed_spec(w, lines)
                } else {
                    let (w1, names) = deploy::clients_spec(w, answers);
                    if deploy::stopped_spec(w1) {
                        halted_spec(w1)
                    } else {
                        cancel_all_spec(w1, names, open, venue, halt_path, answers)
                    }
                }
            },
        }
    }
}

/// `cancel [venue]`. Refused while live trading is off; a halt file does not stop it. An unknown
/// venue is refused: it must never widen to "cancel everything".
pub fn cancel(
    w: Work,
    cfg: &Config,
    venue: Option<&str>,
    halt_path: &str,
    answers: &Vec<Answer>,
) -> (r: Command)
    ensures
        r.deep_view() == cancel_spec(
            w.deep_view(),
            cfg.deep_view(),
            venue.deep_view(),
            halt_path@,
            answers.deep_view(),
        ),
{
    if !cfg.live_trading_enabled {
        return refused(w, text::owned("blocked: LIVE_TRADING_ENABLED is not 'yes'"));
    }
    match venue {
        Some(v) => {
            if !known_venue(v) {
                return refused(
                    w,
                    text::owned("usage: rungbot-exec deploy cancel [binance|gate|revx]"),
                );
            }
        },
        None => {},
    }
    let open = cancellable(&&w.journal.rows(), venue);
    if open.len() == 0 {
        let mut lines: Vec<String> = list::none();
        list::push(&mut lines, text::owned("no open deploy zones to cancel"));
        return printed(w, lines);
    }
    let (w1, names) = deploy::clients(w, answers);
    if deploy::stopped(&w1) {
        return halted(w1);
    }
    cancel_all(w1, &names, &open, venue, halt_path, answers)
}

// ------------------------------------------------------------------ laws
/// While live trading is off or the halt file is present, a tranche or a market buy asks
/// nothing of anybody.
pub proof fn law_blocked_places_nothing(
    w: WorkView,
    cfg: ConfigView,
    amount: Double,
    venue: Seq<char>,
    sym: Seq<char>,
    only: Option<Seq<Seq<char>>>,
    answers: Seq<AnswerView>,
)
    requires
        deploy::blocked_spec(cfg) is Some,
    ensures
        tranche_spec(w, cfg, amount, venue, only, answers).work == w,
        tranche_spec(w, cfg, amount, venue, only, answers).error is Some,
        market_spec(w, cfg, amount, venue, sym, answers).work == w,
        market_spec(w, cfg, amount, venue, sym, answers).error is Some,
{
}

/// While live trading is off nothing is cancelled, and nothing is asked of anybody.
pub proof fn law_live_trading_off_cancels_nothing(
    w: WorkView,
    cfg: ConfigView,
    venue: Option<Seq<char>>,
    halt_path: Seq<char>,
    answers: Seq<AnswerView>,
)
    requires
        !cfg.live_trading_enabled,
    ensures
        cancel_spec(w, cfg, venue, halt_path, answers).work == w,
        cancel_spec(w, cfg, venue, halt_path, answers).error is Some,
{
}

/// A halt file does not stop a cancel: it does the same with one and without.
pub proof fn law_cancel_works_while_halted(
    w: WorkView,
    cfg: ConfigView,
    halt_file: Option<Seq<char>>,
    venue: Option<Seq<char>>,
    halt_path: Seq<char>,
    answers: Seq<AnswerView>,
)
    ensures
        cancel_spec(w, ConfigView { halt_file, ..cfg }, venue, halt_path, answers) == cancel_spec(
            w,
            cfg,
            venue,
            halt_path,
            answers,
        ),
{
}

/// A venue that is not known is refused, and nothing is cancelled.
pub proof fn law_an_unknown_venue_cancels_nothing(
    w: WorkView,
    cfg: ConfigView,
    venue: Seq<char>,
    halt_path: Seq<char>,
    answers: Seq<AnswerView>,
)
    requires
        !known_venue_spec(venue),
    ensures
        cancel_spec(w, cfg, Some(venue), halt_path, answers).work == w,
        cancel_spec(w, cfg, Some(venue), halt_path, answers).error is Some,
{
}

/// A share outside its range buys nothing.
pub proof fn law_a_share_is_within_its_range(
    w: WorkView,
    cfg: ConfigView,
    share_pct: Double,
    venue: Seq<char>,
    sym: Seq<char>,
    answers: Seq<AnswerView>,
)
    requires
        !(Double::zero_spec().lt_spec(share_pct) && share_pct.le_spec(Double::int_spec(100))),
    ensures
        market_spec(w, cfg, share_pct, venue, sym, answers).work == w,
        market_spec(w, cfg, share_pct, venue, sym, answers).error is Some,
{
}

/// A command-line amount: a finite number (`nan`, `inf` and overflow are refused).
pub open spec fn parse_num_spec(s: Seq<char>, what: Seq<char>) -> Result<Double, Seq<char>> {
    let t = text::trim(s);
    if t == ""@ {
        Err(what + ": cannot parse float from empty string"@)
    } else {
        match crate::watch::pyfmt::number_or_word(t) {
            Some(x) => if !x.finite() {
                Err(what + ": "@ + text::debug_form(s) + " is not a finite number"@)
            } else {
                Ok(x)
            },
            None => Err(what + ": invalid float literal"@),
        }
    }
}

/// A command-line amount: a finite number (`nan`, `inf` and overflow are refused).
pub fn parse_num(s: &str, what: &str) -> (r: Result<Double, String>)
    ensures
        list::outcome(r) == parse_num_spec(s@, what@),
{
    let t = text::trimmed(s);
    if text::same(t.as_str(), "") {
        let mut line = text::owned(what);
        line.push_str(": cannot parse float from empty string");
        return Err(line);
    }
    match crate::watch::pyfmt::read_number_or_word(t.as_str()) {
        Some(x) => {
            if !x.is_finite() {
                let mut line2 = text::owned(what);
                line2.push_str(": ");
                line2.push_str(text::debug_text(s).as_str());
                line2.push_str(" is not a finite number");
                return Err(line2);
            }
            Ok(x)
        },
        None => {
            let mut line3 = text::owned(what);
            line3.push_str(": invalid float literal");
            Err(line3)
        },
    }
}

/// A manual tranche raises the baseline by no more than the balance shows above it, and by no more
/// than was asked for.
pub proof fn law_the_baseline_rises_by_new_money_only(
    fresh: Double,
    budget: Double,
    placed: Double,
    rolled: Double,
)
    ensures
        !fresh.lt_spec(laddered_spec(fresh, budget, placed, rolled)),
        !budget.lt_spec(laddered_spec(fresh, budget, placed, rolled)),
        !placed.sub_spec(rolled).max_spec(Double::zero_spec()).lt_spec(
            laddered_spec(fresh, budget, placed, rolled),
        ),
{
}

/// A venue's baseline rises by the bump.
pub proof fn law_a_raised_baseline_rises_by_the_bump(
    st: Doc,
    venue: Seq<char>,
    bump: Double,
    before: Double,
    after: Double,
)
    requires
        st is Obj,
        st.get("stable"@) matches Some(s) && s is Obj && (s.get(venue) matches Some(b) && b.num()
            == Some(before)),
        before.finite(),
        bump.finite(),
        after.finite(),
        after.amount() == before.amount() + bump.amount(),
    ensures
        raised_spec(st, venue, bump) matches Some(r) && (r.get("stable"@) matches Some(s) && (s.get(
            venue,
        ) matches Some(Doc::Float(x)) && x.amount() == after.amount())),
{
    rounding::lemma_exact_sum(before, bump, after);
    let s = st.get("stable"@)->0;
    let more = before.add_spec(bump);
    crate::watch::json::law_set_then_get(s, venue, Doc::Float(more), venue);
    crate::watch::json::law_set_then_get(st, "stable"@, s.set(venue, Doc::Float(more)), "stable"@);
}

/// What a tranche placed beyond the rolled money counts as laddered: all of it, where the fresh
/// money and the budget cover it, and nothing where it placed no more than it rolled.
pub proof fn law_laddered_leaves_the_rolled_money_out(
    fresh: Double,
    budget: Double,
    placed: Double,
    rolled: Double,
)
    requires
        fresh.finite(),
        budget.finite(),
        placed.finite(),
        rolled.finite(),
        fresh.amount() >= 0,
        budget.amount() >= 0,
        placed.amount() >= 0,
        rolled.amount() >= 0,
    ensures
        ({
            let r = laddered_spec(fresh, budget, placed, rolled);
            &&& 0 <= r.amount() <= placed.amount()
            &&& r.amount() <= fresh.amount()
            &&& r.amount() <= budget.amount()
            &&& placed.amount() <= rolled.amount() ==> r.amount() == 0
            &&& rolled.amount() == 0 && placed.amount() <= fresh.amount() && placed.amount()
                <= budget.amount() ==> r.amount() == placed.amount()
            &&& rolled.amount() < placed.amount() && r.amount() < fresh.amount() && r.amount()
                < budget.amount() ==> rounding::grain() * rounding::size(
                r.amount() + rolled.amount() - placed.amount(),
            ) <= r.amount() + rounding::least()
        }),
{
    crate::double::lemma_scaled_zero();
    rounding::lemma_rest(placed, rolled);
}

/// What a market buy leaves of a budget, with room for its fee, is never more than the budget
/// less what is spent, and nothing where that is no more than a dollar.
proof fn lemma_left_after(budget: Double, spent: Double)
    requires
        budget.finite(),
        spent.finite(),
        budget.amount() >= 0,
        spent.amount() >= 0,
    ensures
        ({
            let rest = budget.sub_spec(spent).sub_spec(
                spent.mul_spec(Double::ratio_spec(3, 1000)).max_spec(Double::int_spec(1)),
            ).max_spec(Double::zero_spec());
            &&& 0 <= rest.amount() <= budget.amount()
            &&& budget.amount() <= spent.amount() ==> rest.amount() == 0
            &&& spent.amount() < budget.amount() ==> rest.le_spec(budget.sub_spec(spent))
            &&& budget.sub_spec(spent).amount() <= crate::double::unit() ==> rest.amount() == 0
        }),
{
    let zero = Double::zero_spec();
    let one = Double::int_spec(1);
    let r = Double::ratio_spec(3, 1000);
    crate::double::lemma_scaled_zero();
    vstd::arithmetic::power2::lemma_pow2_pos(1074);
    rounding::lemma_one_is_exact();
    rounding::lemma_ratio_error(3, 1000);
    rounding::lemma_sub_sign(budget, spent);
    rounding::lemma_rest(budget, spent);
    let y = budget.sub_spec(spent);
    let m = if budget.amount() < spent.amount() {
        spent
    } else {
        budget
    };
    rounding::lemma_add_within(budget, spent.neg_spec(), m);
    rounding::lemma_times_grows(r, one, spent);
    rounding::lemma_times_one(spent);
    rounding::lemma_infinite_is_last(spent);
    let p = spent.mul_spec(r);
    rounding::lemma_infinite_is_last(p);
    rounding::lemma_mul_order(zero, spent, r);
    assert(0 * r.amount() == 0 * crate::double::unit());
    rounding::lemma_exact_product(zero, r, zero);
    assert(p.finite()) by {
        if p.infinite() {
            assert(rounding::size(p.amount()) == crate::double::scaled(
                crate::double::INFINITE as nat,
            ));
        }
    }
    let fee = p.max_spec(one);
    assert(fee.finite() && fee.amount() >= crate::double::unit());
    rounding::lemma_sub_sign(y, fee);
    rounding::lemma_sub_order(zero, fee, y);
    rounding::lemma_exact_difference(y, zero, y);
}

/// A market share spends its percentage of the budget, to half a cent, and what is left for the
/// ladder is never more than the budget less that.
pub proof fn law_a_share_and_its_rest_stay_within_the_budget(
    w: WorkView,
    venue: Seq<char>,
    sym: Seq<char>,
    pair: Seq<char>,
    share_pct: Double,
    budget: Double,
    ts: Double,
    answers: Seq<AnswerView>,
)
    requires
        budget.finite(),
        share_pct.finite(),
        budget.amount() >= 0,
        share_pct.amount() >= 0,
        budget.mul_spec(share_pct).div_spec(Double::int_spec(100)).finite(),
        crate::watch::pyfmt::round_spec(
            budget.mul_spec(share_pct).div_spec(Double::int_spec(100)),
            2,
        ).amount() > 0,
        crate::watch::pyfmt::round_spec(
            budget.mul_spec(share_pct).div_spec(Double::int_spec(100)),
            2,
        ).finite(),
    ensures
        exists|part: Double, row: OrderView, spent: Double, rest: Double|
            {
                &&& #[trigger] rounding::in_proportion(
                    part,
                    budget,
                    share_pct,
                    Double::int_spec(100),
                )
                &&& rounding::grain() * (200 * rounding::size(spent.amount() - part.amount())
                    - crate::double::unit()) <= 200 * (spent.amount() + rounding::least())
                &&& row.quote == Some(spent)
                &&& row.side == "buy"@
                &&& row.exch == venue
                &&& row.sym == sym
                &&& row.pair == pair
                &&& spend_share_spec(w, venue, sym, pair, share_pct, budget, ts, answers)
                    == #[trigger] buy_share_spec(w, row, spent, share_pct, budget, rest, answers)
                &&& 0 <= rest.amount() <= budget.amount()
                &&& spent.amount() < budget.amount() ==> rest.le_spec(budget.sub_spec(spent))
                &&& spent.amount() >= budget.amount() ==> rest.amount() == 0
            },
{
    let part = budget.mul_spec(share_pct).div_spec(Double::int_spec(100));
    let spent = crate::watch::pyfmt::round_spec(part, 2);
    crate::double::lemma_scaled_zero();
    vstd::arithmetic::power2::lemma_pow2_pos(1074);
    rounding::lemma_whole_is_exact(100);
    rounding::lemma_proportion(budget, share_pct, Double::int_spec(100));
    rounding::lemma_cents(part);
    lemma_left_after(budget, spent);
    assert(rounding::in_proportion(part, budget, share_pct, Double::int_spec(100)));
    let rest = budget.sub_spec(spent).sub_spec(
        spent.mul_spec(Double::ratio_spec(3, 1000)).max_spec(Double::int_spec(1)),
    ).max_spec(Double::zero_spec());
    let cid = planning::id_prefix_spec(venue) + sym + text::dec_int(
        (ts.cast_spec(i64::MIN as int, i64::MAX as int) as i64) as int,
    ) + "m"@;
    let row = market_row_spec(cid, venue, sym, pair, spent, ts, share_pct, budget);
    assert(spend_share_spec(w, venue, sym, pair, share_pct, budget, ts, answers) == buy_share_spec(
        w,
        row,
        spent,
        share_pct,
        budget,
        rest,
        answers,
    ));
}

} // verus!
