//! Importing an order journal written by another program that keeps this journal's format.
//!
//! The source directory holds `orders-journal.json` (`{client_id: row}`) and, optionally,
//! `orders-archive.jsonl` and the live run state. Every row is read into an
//! [`crate::journal::Order`]; fields it does not have are carried along unchanged. The import
//! then checks itself: each row is written back out and compared with the source, where
//! `null` and an absent field count as the same and `5` and `5.0` are the same number.
//! Anything else that differs is reported.
use crate::journal;
use crate::journal::{Journal, Order, OrderView};
use crate::double::Double;
use crate::list;
use crate::list::Duplicate;
use crate::pyfmt;
use crate::text;
use crate::watch::fields;
use crate::watch::json;
use crate::watch::json::{Doc, Json};
use vstd::prelude::*;

verus! {

pub const JOURNAL_FILE: &'static str = "orders-journal.json";

pub const ARCHIVE_FILE: &'static str = "orders-archive.jsonl";

pub const LADDER_SOURCE: &'static str = "ladder-state.live.json";

pub const PNL_SOURCE: &'static str = "pnl-ledger.json";

pub const TTL_SOURCE: &'static str = "ttl-warned.json";

pub const DECISIONS_FILE: &'static str = "decisions.jsonl";

pub const NOTICES_FILE: &'static str = "signal-notices.json";

pub const BTC_ALERT_FILE: &'static str = "btc-alert-state.json";

/// The deploy layer's state in the source directory, and its name beside the journal.
pub const DEPLOY_SOURCE: &'static str = "deploy-state.live.json";

pub const DEPLOY_FILE: &'static str = "deploy-state.json";

/// The last book audit (the dashboard banner reads it).
pub const AUDIT_FILE: &'static str = "audit-state.json";

/// What an import read.
#[derive(Debug)]
pub struct ImportReport {
    pub rows: usize,
    pub open: usize,
    pub by_status: Vec<(String, usize)>,
    pub by_kind: Vec<(String, usize)>,
    pub by_venue: Vec<(String, usize)>,
    /// Fields kept verbatim because no row field models them, with their counts.
    pub unmodelled: Vec<(String, usize)>,
    pub archive_rows: usize,
    /// Coins in the ladder state, and whether it carries a balance snapshot; none without a
    /// ladder state file.
    pub ladder_coins: Option<(usize, bool)>,
    pub pnl_records: Option<usize>,
    pub ttl_flags: Option<usize>,
    pub decision_lines: Option<usize>,
    pub notices: Option<usize>,
    pub btc_band: Option<String>,
    /// Venues with a deploy baseline, and whether a top-up is marked in flight.
    pub deploy_venues: Option<(usize, bool)>,
    /// Whether the last audit was clean, and its finding count.
    pub audit: Option<(bool, usize)>,
    /// Rows whose written form differs from the source beyond null/absent and int/float, with the
    /// first difference.
    pub mismatches: Vec<String>,
}

/// What a [`ImportReport`] holds.
pub struct ImportReportView {
    pub rows: usize,
    pub open: usize,
    pub by_status: Seq<(Seq<char>, usize)>,
    pub by_kind: Seq<(Seq<char>, usize)>,
    pub by_venue: Seq<(Seq<char>, usize)>,
    pub unmodelled: Seq<(Seq<char>, usize)>,
    pub archive_rows: usize,
    pub ladder_coins: Option<(usize, bool)>,
    pub pnl_records: Option<usize>,
    pub ttl_flags: Option<usize>,
    pub decision_lines: Option<usize>,
    pub notices: Option<usize>,
    pub btc_band: Option<Seq<char>>,
    pub deploy_venues: Option<(usize, bool)>,
    pub audit: Option<(bool, usize)>,
    pub mismatches: Seq<Seq<char>>,
}

impl DeepView for ImportReport {
    type V = ImportReportView;

    open spec fn deep_view(&self) -> ImportReportView {
        ImportReportView {
            rows: self.rows,
            open: self.open,
            by_status: self.by_status.deep_view(),
            by_kind: self.by_kind.deep_view(),
            by_venue: self.by_venue.deep_view(),
            unmodelled: self.unmodelled.deep_view(),
            archive_rows: self.archive_rows,
            ladder_coins: self.ladder_coins,
            pnl_records: self.pnl_records,
            ttl_flags: self.ttl_flags,
            decision_lines: self.decision_lines,
            notices: self.notices,
            btc_band: self.btc_band.deep_view(),
            deploy_venues: self.deploy_venues,
            audit: self.audit,
            mismatches: self.mismatches.deep_view(),
        }
    }
}

/// The first `n` of them.
pub open spec fn add_counts_spec(
    xs: Seq<(Seq<char>, usize)>,
    out: Seq<Seq<char>>,
    n: nat,
) -> Seq<Seq<char>>
    decreases n,
{
    if n == 0 {
        out
    } else {
        let out = add_counts_spec(xs, out, (n - 1) as nat);
        let it = xs[n - 1];
        let k = it.0;
        let v = it.1;
        if k == ""@ {
            out.push("(none) "@ + text::dec(v as nat))
        } else {
            out.push(k + " "@ + text::dec(v as nat))
        }
    }
}

fn add_counts(xs: &Vec<(String, usize)>, out: Vec<String>) -> (r: Vec<String>)
    ensures
        r.deep_view() == add_counts_spec(xs.deep_view(), out.deep_view(), xs@.len()),
{
    let ghost out0 = out.deep_view();
    let mut out = out;
    let mut i: usize = 0;
    while i < xs.len()
        invariant
            i <= xs@.len(),
            out.deep_view() == add_counts_spec(xs.deep_view(), out0, i as nat),
        decreases xs@.len() - i,
    {
        let it = &xs[i];
        let k = it.0.as_str();
        let v: usize = it.1;
        if text::same(k, "") {
            let mut line = text::owned("(none) ");
            line.push_str(text::dec_u64(v as u64).as_str());
            list::push(&mut out, line);
        } else {
            let mut line2 = text::owned(k);
            line2.push_str(" ");
            line2.push_str(text::dec_u64(v as u64).as_str());
            list::push(&mut out, line2);
        }
        i = i + 1;
    }
    out
}

/// Counts by name, on one line.
pub open spec fn counts_spec(m: Seq<(Seq<char>, usize)>) -> Seq<char> {
    let out = add_counts_spec(m, Seq::<Seq<char>>::empty(), m.len());
    text::join_of(out, ", "@)
}

fn counts(m: &Vec<(String, usize)>) -> (r: String)
    ensures
        r@ == counts_spec(m.deep_view()),
{
    let mut out: Vec<String> = list::none();
    out = add_counts(m, out);
    list::join(&out, ", ")
}

/// The first `n` of them.
pub open spec fn add_indented_spec(
    xs: Seq<Seq<char>>,
    out: Seq<Seq<char>>,
    n: nat,
) -> Seq<Seq<char>> {
    out + Seq::new(
        n,
        |i: int| {
            let l = xs[i];
            "  "@ + l
        },
    )
}

fn add_indented(xs: &Vec<String>, out: Vec<String>) -> (r: Vec<String>)
    ensures
        r.deep_view() == add_indented_spec(xs.deep_view(), out.deep_view(), xs@.len()),
{
    let ghost out0 = out.deep_view();
    let mut out = out;
    let mut i: usize = 0;
    while i < xs.len()
        invariant
            i <= xs@.len(),
            out.deep_view() == add_indented_spec(xs.deep_view(), out0, i as nat),
        decreases xs@.len() - i,
    {
        let l = xs[i].as_str();
        let mut line = text::owned("  ");
        line.push_str(l);
        list::push(&mut out, line);
        assert(out.deep_view() =~= add_indented_spec(xs.deep_view(), out0, (i + 1) as nat));
        i = i + 1;
    }
    out
}

/// Lines behind a margin.
pub open spec fn indented_spec(ls: Seq<Seq<char>>) -> Seq<Seq<char>> {
    add_indented_spec(ls, Seq::<Seq<char>>::empty(), ls.len())
}

fn indented(ls: &Vec<String>) -> (r: Vec<String>)
    ensures
        r.deep_view() == indented_spec(ls.deep_view()),
{
    let mut out: Vec<String> = list::none();
    out = add_indented(ls, out);
    out
}

/// The run state, as far as it was there.
pub open spec fn state_lines_spec(r: ImportReportView) -> Seq<Seq<char>> {
    let out = Seq::<Seq<char>>::empty();
    let out = match r.ladder_coins {
        Some(c) => {
            let how = if c.1 {
                "with a balance snapshot"@
            } else {
                "no balance snapshot (the first run writes one)"@
            };
            out.push("ladder state: "@ + text::dec(c.0 as nat) + " coin(s), "@ + how)
        },
        None => out,
    };
    let out = match r.pnl_records {
        Some(k) => out.push("pnl ledger: "@ + text::dec(k as nat) + " record(s)"@),
        None => out,
    };
    let out = match r.ttl_flags {
        Some(k) => out.push("stale-order flags: "@ + text::dec(k as nat)),
        None => out,
    };
    match r.decision_lines {
        Some(k) => out.push("decision log: "@ + text::dec(k as nat) + " line(s)"@),
        None => out,
    }
}

fn state_lines(r: &ImportReport) -> (out: Vec<String>)
    ensures
        out.deep_view() == state_lines_spec(r.deep_view()),
{
    let mut out: Vec<String> = list::none();
    match r.ladder_coins {
        Some(c) => {
            let how = if c.1 {
                "with a balance snapshot"
            } else {
                "no balance snapshot (the first run writes one)"
            };
            let mut line = text::owned("ladder state: ");
            line.push_str(text::dec_u64(c.0 as u64).as_str());
            line.push_str(" coin(s), ");
            line.push_str(how);
            list::push(&mut out, line);
        },
        None => {},
    }
    match r.pnl_records {
        Some(k) => {
            let mut line2 = text::owned("pnl ledger: ");
            line2.push_str(text::dec_u64(k as u64).as_str());
            line2.push_str(" record(s)");
            list::push(&mut out, line2);
        },
        None => {},
    }
    match r.ttl_flags {
        Some(k) => {
            let mut line3 = text::owned("stale-order flags: ");
            line3.push_str(text::dec_u64(k as u64).as_str());
            list::push(&mut out, line3);
        },
        None => {},
    }
    match r.decision_lines {
        Some(k) => {
            let mut line4 = text::owned("decision log: ");
            line4.push_str(text::dec_u64(k as u64).as_str());
            line4.push_str(" line(s)");
            list::push(&mut out, line4);
        },
        None => {},
    }
    out
}

/// The state of what alerts, as far as it was there.
pub open spec fn alert_lines_spec(r: ImportReportView) -> Seq<Seq<char>> {
    let out = Seq::<Seq<char>>::empty();
    let out = match r.notices {
        Some(k) => out.push("signal notices: "@ + text::dec(k as nat)),
        None => out,
    };
    let out = match r.btc_band {
        Some(b) => out.push("BTC level state: "@ + b),
        None => out,
    };
    let out = match r.deploy_venues {
        Some(d) => {
            let how = if d.1 {
                ", a top-up in flight"@
            } else {
                ""@
            };
            out.push("deploy state: "@ + text::dec(d.0 as nat) + " venue baseline(s)"@ + how)
        },
        None => out,
    };
    match r.audit {
        Some(a) => {
            let how = if a.0 {
                "clean"@
            } else {
                text::dec(a.1 as nat) + " finding(s)"@
            };
            out.push("book audit: "@ + how)
        },
        None => out,
    }
}

fn alert_lines(r: &ImportReport) -> (out: Vec<String>)
    ensures
        out.deep_view() == alert_lines_spec(r.deep_view()),
{
    let mut out: Vec<String> = list::none();
    match r.notices {
        Some(k) => {
            let mut line = text::owned("signal notices: ");
            line.push_str(text::dec_u64(k as u64).as_str());
            list::push(&mut out, line);
        },
        None => {},
    }
    match &r.btc_band {
        Some(b) => {
            let mut line2 = text::owned("BTC level state: ");
            line2.push_str(b.as_str());
            list::push(&mut out, line2);
        },
        None => {},
    }
    match r.deploy_venues {
        Some(d) => {
            let mut how = if d.1 {
                text::owned(", a top-up in flight")
            } else {
                text::owned("")
            };
            let mut line3 = text::owned("deploy state: ");
            line3.push_str(text::dec_u64(d.0 as u64).as_str());
            line3.push_str(" venue baseline(s)");
            line3.push_str(how.as_str());
            list::push(&mut out, line3);
        },
        None => {},
    }
    match r.audit {
        Some(a) => {
            let mut how = if a.0 {
                text::owned("clean")
            } else {
                let mut line4 = text::dec_u64(a.1 as u64);
                line4.push_str(" finding(s)");
                line4
            };
            let mut line5 = text::owned("book audit: ");
            line5.push_str(how.as_str());
            list::push(&mut out, line5);
        },
        None => {},
    }
    out
}

/// The report, line by line.
pub open spec fn report_lines_spec(r: ImportReportView) -> Seq<Seq<char>> {
    let out = Seq::<Seq<char>>::empty().push(
        "rows: "@ + text::dec(r.rows as nat) + " ("@ + text::dec(r.open as nat) + " open)"@,
    ).push(
        "status: "@ + counts_spec(r.by_status),
    ).push(
        "kind: "@ + counts_spec(r.by_kind),
    ).push(
        "venue: "@ + counts_spec(r.by_venue),
    ).push(
        "archive rows: "@ + text::dec(r.archive_rows as nat),
    );
    let out = out + state_lines_spec(r);
    let out = out + alert_lines_spec(r);
    let out = if !(r.unmodelled.len() == 0) {
        out.push("kept verbatim: "@ + counts_spec(r.unmodelled))
    } else {
        out
    };
    if r.mismatches.len() == 0 {
        out.push("round trip: every row reads back as written"@)
    } else {
        let out = out.push(
            "round trip: "@
                + text::dec(((r.mismatches.len() as usize)) as nat)
                + " row(s) differ"@,
        );
        out + indented_spec(r.mismatches)
    }
}

fn report_lines(r: &ImportReport) -> (out: Vec<String>)
    ensures
        out.deep_view() == report_lines_spec(r.deep_view()),
{
    let mut out: Vec<String> = list::none();
    let mut line = text::owned("rows: ");
    line.push_str(text::dec_u64(r.rows as u64).as_str());
    line.push_str(" (");
    line.push_str(text::dec_u64(r.open as u64).as_str());
    line.push_str(" open)");
    list::push(&mut out, line);
    let mut line2 = text::owned("status: ");
    line2.push_str(counts(&r.by_status).as_str());
    list::push(&mut out, line2);
    let mut line3 = text::owned("kind: ");
    line3.push_str(counts(&r.by_kind).as_str());
    list::push(&mut out, line3);
    let mut line4 = text::owned("venue: ");
    line4.push_str(counts(&r.by_venue).as_str());
    list::push(&mut out, line4);
    let mut line5 = text::owned("archive rows: ");
    line5.push_str(text::dec_u64(r.archive_rows as u64).as_str());
    list::push(&mut out, line5);
    out = list::joined(out, state_lines(r));
    out = list::joined(out, alert_lines(r));
    if !(r.unmodelled.len() == 0) {
        let mut line6 = text::owned("kept verbatim: ");
        line6.push_str(counts(&r.unmodelled).as_str());
        list::push(&mut out, line6);
    }
    if r.mismatches.len() == 0 {
        list::push(&mut out, text::owned("round trip: every row reads back as written"));
    } else {
        let mut line7 = text::owned("round trip: ");
        line7.push_str(text::dec_u64(r.mismatches.len() as u64).as_str());
        line7.push_str(" row(s) differ");
        list::push(&mut out, line7);
        out = list::joined(out, indented(&r.mismatches));
    }
    out
}

impl ImportReport {
    pub fn lines(&self) -> (r: Vec<String>)
        ensures
            r.deep_view() == report_lines_spec(self.deep_view()),
    {
        report_lines(self)
    }
}

// ------------------------------------------------------------------ counting
/// How often a name occurs among the first `n`.
pub open spec fn times_in(names: Seq<Seq<char>>, name: Seq<char>, n: nat) -> nat
    decreases n,
{
    if n == 0 {
        0
    } else {
        times_in(names, name, (n - 1) as nat) + if names[n - 1] == name {
            1nat
        } else {
            0nat
        }
    }
}

fn count_of(names: &Vec<String>, name: &str) -> (r: usize)
    ensures
        r == times_in(names.deep_view(), name@, names@.len()),
{
    let mut r: usize = 0;
    let mut i: usize = 0;
    while i < names.len()
        invariant
            i <= names@.len(),
            r <= i,
            r == times_in(names.deep_view(), name@, i as nat),
        decreases names@.len() - i,
    {
        assert(names.deep_view()[i as int] == names@[i as int]@);
        if text::same(names[i].as_str(), name) {
            r = r + 1;
        }
        i = i + 1;
    }
    r
}

/// How often a name occurs.
pub open spec fn times_of(names: Seq<Seq<char>>, name: Seq<char>) -> usize {
    times_in(names, name, names.len()) as usize
}

fn times(names: &Vec<String>, name: &str) -> (r: usize)
    ensures
        r == times_of(names.deep_view(), name@),
{
    count_of(names, name)
}

/// Of the first `n` names.
pub open spec fn add_distinct_spec(
    xs: Seq<Seq<char>>,
    out: Seq<Seq<char>>,
    n: nat,
) -> Seq<Seq<char>>
    decreases n,
{
    if n == 0 {
        out
    } else {
        let out = add_distinct_spec(xs, out, (n - 1) as nat);
        let s = xs[n - 1];
        if !out.contains(s) {
            out.push(s)
        } else {
            out
        }
    }
}

fn add_distinct(xs: &Vec<String>, out: Vec<String>) -> (r: Vec<String>)
    ensures
        r.deep_view() == add_distinct_spec(xs.deep_view(), out.deep_view(), xs@.len()),
{
    let ghost out0 = out.deep_view();
    let mut out = out;
    let mut i: usize = 0;
    while i < xs.len()
        invariant
            i <= xs@.len(),
            out.deep_view() == add_distinct_spec(xs.deep_view(), out0, i as nat),
        decreases xs@.len() - i,
    {
        let s = xs[i].as_str();
        if !list::holds(&out, s) {
            list::push(&mut out, text::owned(s));
        }
        i = i + 1;
    }
    out
}

/// The names, each once.
pub open spec fn distinct_spec(names: Seq<Seq<char>>) -> Seq<Seq<char>> {
    add_distinct_spec(names, Seq::<Seq<char>>::empty(), names.len())
}

fn distinct(names: &Vec<String>) -> (r: Vec<String>)
    ensures
        r.deep_view() == distinct_spec(names.deep_view()),
{
    let mut out: Vec<String> = list::none();
    out = add_distinct(names, out);
    out
}

/// Of the first `n` names.
pub open spec fn add_tally_spec(
    names: Seq<Seq<char>>,
    xs: Seq<Seq<char>>,
    out: Seq<(Seq<char>, usize)>,
    n: nat,
) -> Seq<(Seq<char>, usize)> {
    out + Seq::new(
        n,
        |i: int| {
            let s = xs[i];
            (s, times_of(names, s))
        },
    )
}

fn add_tally(
    names: &Vec<String>,
    xs: &Vec<String>,
    out: Vec<(String, usize)>,
) -> (r: Vec<(String, usize)>)
    ensures
        r.deep_view() == add_tally_spec(
            names.deep_view(),
            xs.deep_view(),
            out.deep_view(),
            xs@.len(),
        ),
{
    let ghost out0 = out.deep_view();
    let mut out = out;
    let mut i: usize = 0;
    while i < xs.len()
        invariant
            i <= xs@.len(),
            out.deep_view() == add_tally_spec(names.deep_view(), xs.deep_view(), out0, i as nat),
        decreases xs@.len() - i,
    {
        let s = xs[i].as_str();
        list::push(&mut out, (text::owned(s), times(names, s)));
        assert(out.deep_view() =~= add_tally_spec(
            names.deep_view(),
            xs.deep_view(),
            out0,
            (i + 1) as nat,
        ));
        i = i + 1;
    }
    out
}

/// How often each name occurs, by name.
pub open spec fn tally_spec(names: Seq<Seq<char>>) -> Seq<(Seq<char>, usize)> {
    add_tally_spec(
        names,
        list::sorted_texts(distinct_spec(names)),
        Seq::<(Seq<char>, usize)>::empty(),
        list::sorted_texts(distinct_spec(names)).len(),
    )
}

/// How often each name occurs, by name.
pub fn tally(names: &Vec<String>) -> (r: Vec<(String, usize)>)
    ensures
        r.deep_view() == tally_spec(names.deep_view()),
{
    let mut out: Vec<(String, usize)> = list::none();
    out = add_tally(names, &list::sort_texts(&distinct(names)), out);
    out
}

/// Of the first `n` rows.
pub open spec fn add_statuses_spec(
    xs: Seq<OrderView>,
    out: Seq<Seq<char>>,
    n: nat,
) -> Seq<Seq<char>> {
    out + Seq::new(
        n,
        |i: int| {
            let o = xs[i];
            o.status
        },
    )
}

fn add_statuses(xs: &Vec<Order>, out: Vec<String>) -> (r: Vec<String>)
    ensures
        r.deep_view() == add_statuses_spec(xs.deep_view(), out.deep_view(), xs@.len()),
{
    let ghost out0 = out.deep_view();
    let mut out = out;
    let mut i: usize = 0;
    while i < xs.len()
        invariant
            i <= xs@.len(),
            out.deep_view() == add_statuses_spec(xs.deep_view(), out0, i as nat),
        decreases xs@.len() - i,
    {
        let o = &xs[i];
        list::push(&mut out, text::owned(o.status.as_str()));
        assert(out.deep_view() =~= add_statuses_spec(xs.deep_view(), out0, (i + 1) as nat));
        i = i + 1;
    }
    out
}

/// The status of every row.
pub open spec fn statuses_spec(rows: Seq<OrderView>) -> Seq<Seq<char>> {
    add_statuses_spec(rows, Seq::<Seq<char>>::empty(), rows.len())
}

fn statuses(rows: &Vec<Order>) -> (r: Vec<String>)
    ensures
        r.deep_view() == statuses_spec(rows.deep_view()),
{
    let mut out: Vec<String> = list::none();
    out = add_statuses(rows, out);
    out
}

/// Of the first `n` rows.
pub open spec fn add_kinds_spec(xs: Seq<OrderView>, out: Seq<Seq<char>>, n: nat) -> Seq<Seq<char>> {
    out + Seq::new(
        n,
        |i: int| {
            let o = xs[i];
            o.kind
        },
    )
}

fn add_kinds(xs: &Vec<Order>, out: Vec<String>) -> (r: Vec<String>)
    ensures
        r.deep_view() == add_kinds_spec(xs.deep_view(), out.deep_view(), xs@.len()),
{
    let ghost out0 = out.deep_view();
    let mut out = out;
    let mut i: usize = 0;
    while i < xs.len()
        invariant
            i <= xs@.len(),
            out.deep_view() == add_kinds_spec(xs.deep_view(), out0, i as nat),
        decreases xs@.len() - i,
    {
        let o = &xs[i];
        list::push(&mut out, text::owned(o.kind.as_str()));
        assert(out.deep_view() =~= add_kinds_spec(xs.deep_view(), out0, (i + 1) as nat));
        i = i + 1;
    }
    out
}

/// The kind of every row.
pub open spec fn kinds_spec(rows: Seq<OrderView>) -> Seq<Seq<char>> {
    add_kinds_spec(rows, Seq::<Seq<char>>::empty(), rows.len())
}

fn kinds(rows: &Vec<Order>) -> (r: Vec<String>)
    ensures
        r.deep_view() == kinds_spec(rows.deep_view()),
{
    let mut out: Vec<String> = list::none();
    out = add_kinds(rows, out);
    out
}

/// Of the first `n` rows.
pub open spec fn add_exchanges_spec(
    xs: Seq<OrderView>,
    out: Seq<Seq<char>>,
    n: nat,
) -> Seq<Seq<char>> {
    out + Seq::new(
        n,
        |i: int| {
            let o = xs[i];
            o.exch
        },
    )
}

fn add_exchanges(xs: &Vec<Order>, out: Vec<String>) -> (r: Vec<String>)
    ensures
        r.deep_view() == add_exchanges_spec(xs.deep_view(), out.deep_view(), xs@.len()),
{
    let ghost out0 = out.deep_view();
    let mut out = out;
    let mut i: usize = 0;
    while i < xs.len()
        invariant
            i <= xs@.len(),
            out.deep_view() == add_exchanges_spec(xs.deep_view(), out0, i as nat),
        decreases xs@.len() - i,
    {
        let o = &xs[i];
        list::push(&mut out, text::owned(o.exch.as_str()));
        assert(out.deep_view() =~= add_exchanges_spec(xs.deep_view(), out0, (i + 1) as nat));
        i = i + 1;
    }
    out
}

/// The venue of every row.
pub open spec fn exchanges_spec(rows: Seq<OrderView>) -> Seq<Seq<char>> {
    add_exchanges_spec(rows, Seq::<Seq<char>>::empty(), rows.len())
}

fn exchanges(rows: &Vec<Order>) -> (r: Vec<String>)
    ensures
        r.deep_view() == exchanges_spec(rows.deep_view()),
{
    let mut out: Vec<String> = list::none();
    out = add_exchanges(rows, out);
    out
}

/// The first `n` of them.
pub open spec fn add_key_names_spec(
    xs: Seq<(Seq<char>, Doc)>,
    out: Seq<Seq<char>>,
    n: nat,
) -> Seq<Seq<char>> {
    out + Seq::new(
        n,
        |i: int| {
            let it = xs[i];
            let k = it.0;
            k
        },
    )
}

fn add_key_names(xs: &Vec<(String, Json)>, out: Vec<String>) -> (r: Vec<String>)
    ensures
        r.deep_view() == add_key_names_spec(xs.deep_view(), out.deep_view(), xs@.len()),
{
    let ghost out0 = out.deep_view();
    let mut out = out;
    let mut i: usize = 0;
    while i < xs.len()
        invariant
            i <= xs@.len(),
            out.deep_view() == add_key_names_spec(xs.deep_view(), out0, i as nat),
        decreases xs@.len() - i,
    {
        let it = &xs[i];
        let k = it.0.as_str();
        list::push(&mut out, text::owned(k));
        assert(out.deep_view() =~= add_key_names_spec(xs.deep_view(), out0, (i + 1) as nat));
        i = i + 1;
    }
    out
}

/// The keys of an object.
pub open spec fn key_names_spec(j: Doc) -> Seq<Seq<char>> {
    add_key_names_spec(j.entries(), Seq::<Seq<char>>::empty(), j.entries().len())
}

fn key_names(j: &Json) -> (r: Vec<String>)
    ensures
        r.deep_view() == key_names_spec(j@),
{
    let mut out: Vec<String> = list::none();
    out = add_key_names(&json::entries(j), out);
    out
}

/// Of the first `n` rows.
pub open spec fn add_extra_keys_spec(
    xs: Seq<OrderView>,
    out: Seq<Seq<char>>,
    n: nat,
) -> Seq<Seq<char>>
    decreases n,
{
    if n == 0 {
        out
    } else {
        let out = add_extra_keys_spec(xs, out, (n - 1) as nat);
        let o = xs[n - 1];
        out + key_names_spec(o.extra)
    }
}

fn add_extra_keys(xs: &Vec<Order>, out: Vec<String>) -> (r: Vec<String>)
    ensures
        r.deep_view() == add_extra_keys_spec(xs.deep_view(), out.deep_view(), xs@.len()),
{
    let ghost out0 = out.deep_view();
    let mut out = out;
    let mut i: usize = 0;
    while i < xs.len()
        invariant
            i <= xs@.len(),
            out.deep_view() == add_extra_keys_spec(xs.deep_view(), out0, i as nat),
        decreases xs@.len() - i,
    {
        let o = &xs[i];
        out = list::joined(out, key_names(&o.extra));
        i = i + 1;
    }
    out
}

/// The fields that are kept verbatim, of every row.
pub open spec fn extra_keys_spec(rows: Seq<OrderView>) -> Seq<Seq<char>> {
    add_extra_keys_spec(rows, Seq::<Seq<char>>::empty(), rows.len())
}

fn extra_keys(rows: &Vec<Order>) -> (r: Vec<String>)
    ensures
        r.deep_view() == extra_keys_spec(rows.deep_view()),
{
    let mut out: Vec<String> = list::none();
    out = add_extra_keys(rows, out);
    out
}

/// Of the first `n` rows.
pub open spec fn add_open_ids_spec(
    xs: Seq<OrderView>,
    out: Seq<Seq<char>>,
    n: nat,
) -> Seq<Seq<char>> {
    out + list::gathered(
        xs,
        |o: OrderView| if journal::is_open_status_spec(o.status) {
            Some(o.client_id)
        } else {
            None
        },
        n,
    )
}

fn add_open_ids(xs: &Vec<Order>, out: Vec<String>) -> (r: Vec<String>)
    ensures
        r.deep_view() == add_open_ids_spec(xs.deep_view(), out.deep_view(), xs@.len()),
{
    let ghost out0 = out.deep_view();
    let mut out = out;
    let mut i: usize = 0;
    while i < xs.len()
        invariant
            i <= xs@.len(),
            out.deep_view() == add_open_ids_spec(xs.deep_view(), out0, i as nat),
        decreases xs@.len() - i,
    {
        let o = &xs[i];
        if journal::is_open_status(o.status.as_str()) {
            list::push(&mut out, text::owned(o.client_id.as_str()));
        }
        assert(out.deep_view() =~= add_open_ids_spec(xs.deep_view(), out0, (i + 1) as nat));
        i = i + 1;
    }
    out
}

/// The ids of the rows that may still be resting.
pub open spec fn open_count_spec(rows: Seq<OrderView>) -> Seq<Seq<char>> {
    add_open_ids_spec(rows, Seq::<Seq<char>>::empty(), rows.len())
}

fn open_count(rows: &Vec<Order>) -> (r: Vec<String>)
    ensures
        r.deep_view() == open_count_spec(rows.deep_view()),
{
    let mut out: Vec<String> = list::none();
    out = add_open_ids(rows, out);
    out
}

/// Of the first `n` keys.
pub open spec fn add_plain_keys_spec(
    xs: Seq<(Seq<char>, Doc)>,
    out: Seq<Seq<char>>,
    n: nat,
) -> Seq<Seq<char>> {
    out + list::gathered(
        xs,
        |it: (Seq<char>, Doc)| {
            let k = it.0;
            if !text::begins(k, "_"@) {
                Some(k)
            } else {
                None
            }
        },
        n,
    )
}

fn add_plain_keys(xs: &Vec<(String, Json)>, out: Vec<String>) -> (r: Vec<String>)
    ensures
        r.deep_view() == add_plain_keys_spec(xs.deep_view(), out.deep_view(), xs@.len()),
{
    let ghost out0 = out.deep_view();
    let mut out = out;
    let mut i: usize = 0;
    while i < xs.len()
        invariant
            i <= xs@.len(),
            out.deep_view() == add_plain_keys_spec(xs.deep_view(), out0, i as nat),
        decreases xs@.len() - i,
    {
        let it = &xs[i];
        let k = it.0.as_str();
        if !text::begins_with(k, "_") {
            list::push(&mut out, text::owned(k));
        }
        assert(out.deep_view() =~= add_plain_keys_spec(xs.deep_view(), out0, (i + 1) as nat));
        i = i + 1;
    }
    out
}

/// The keys of an object that do not begin with an underscore.
pub open spec fn plain_keys_spec(j: Doc) -> Seq<Seq<char>> {
    add_plain_keys_spec(j.entries(), Seq::<Seq<char>>::empty(), j.entries().len())
}

fn plain_keys(j: &Json) -> (r: Vec<String>)
    ensures
        r.deep_view() == plain_keys_spec(j@),
{
    let mut out: Vec<String> = list::none();
    out = add_plain_keys(&json::entries(j), out);
    out
}

/// The run state beside a journal, as far as it is there.
#[derive(Debug)]
pub struct RunState {
    pub ladder: Option<Json>,
    pub pnl: Option<Vec<Json>>,
    pub ttl: Option<Json>,
    pub decisions: Option<String>,
    pub notices: Option<usize>,
    pub btc_alert: Option<Json>,
    pub deploy: Option<Json>,
    pub audit: Option<Json>,
}

/// What a [`RunState`] holds.
pub struct RunStateView {
    pub ladder: Option<Doc>,
    pub pnl: Option<Seq<Doc>>,
    pub ttl: Option<Doc>,
    pub decisions: Option<Seq<char>>,
    pub notices: Option<usize>,
    pub btc_alert: Option<Doc>,
    pub deploy: Option<Doc>,
    pub audit: Option<Doc>,
}

impl DeepView for RunState {
    type V = RunStateView;

    open spec fn deep_view(&self) -> RunStateView {
        RunStateView {
            ladder: self.ladder.deep_view(),
            pnl: self.pnl.deep_view(),
            ttl: self.ttl.deep_view(),
            decisions: self.decisions.deep_view(),
            notices: self.notices,
            btc_alert: self.btc_alert.deep_view(),
            deploy: self.deploy.deep_view(),
            audit: self.audit.deep_view(),
        }
    }
}

/// The coins of a ladder state, and whether it carries a balance snapshot.
pub open spec fn ladder_facts_spec(l: Option<Doc>) -> Option<(usize, bool)> {
    match l {
        Some(j) => {
            let snap = false;
            let snap = match j.get("_bal"@) {
                Some(b) => b.get("booked"@) is Some,
                None => snap,
            };
            Some(((plain_keys_spec(j).len() as usize), snap))
        },
        None => None,
    }
}

fn ladder_facts(l: Option<&Json>) -> (r: Option<(usize, bool)>)
    ensures
        r == ladder_facts_spec(l.deep_view()),
{
    let j = match l {
        Some(v) => v,
        None => {
            return None;
        },
    };
    let mut snap = false;
    match j.get("_bal") {
        Some(b) => {
            snap = b.contains_key("booked");
        },
        None => {},
    }
    Some((plain_keys(j).len(), snap))
}

/// The venues with a deploy baseline, and whether a top-up is marked in flight.
pub open spec fn deploy_facts_spec(d: Option<Doc>) -> Option<(usize, bool)> {
    match d {
        Some(j) => {
            let stable = fields::object_or_spec(j, "stable"@);
            Some(((key_names_spec(stable).len() as usize), j.has_truthy("inflight"@)))
        },
        None => None,
    }
}

fn deploy_facts(d: Option<&Json>) -> (r: Option<(usize, bool)>)
    ensures
        r == deploy_facts_spec(d.deep_view()),
{
    let j = match d {
        Some(v) => v,
        None => {
            return None;
        },
    };
    let stable = fields::object_or(j, "stable");
    Some((key_names(&stable).len(), j.has_truthy("inflight")))
}

/// Whether an audit was clean, and its finding count.
pub open spec fn audit_facts_spec(a: Option<Doc>) -> Option<(bool, usize)> {
    match a {
        Some(j) => {
            let ok = false;
            let ok = match j.get("ok"@) {
                Some(v) => v == Doc::Bool(true),
                None => ok,
            };
            Some((ok, (j.get_or_null("findings"@).items().len() as usize)))
        },
        None => None,
    }
}

fn audit_facts(a: Option<&Json>) -> (r: Option<(bool, usize)>)
    ensures
        r == audit_facts_spec(a.deep_view()),
{
    let j = match a {
        Some(v) => v,
        None => {
            return None;
        },
    };
    let mut ok = false;
    match j.get("ok") {
        Some(v) => {
            ok = v.is_true();
        },
        None => {},
    }
    Some((ok, json::items(&j.get_copy("findings")).len()))
}

/// The band a level state records.
pub open spec fn band_of_spec(b: Option<Doc>) -> Option<Seq<char>> {
    match b {
        Some(j) => Some(fields::text_or_spec(j, "band"@, "ok"@)),
        None => None,
    }
}

fn band_of(b: Option<&Json>) -> (r: Option<String>)
    ensures
        r.deep_view() == band_of_spec(b.deep_view()),
{
    let j = match b {
        Some(v) => v,
        None => {
            return None;
        },
    };
    Some(fields::text_or(j, "band", "ok"))
}

/// How many records there are.
pub open spec fn record_count_spec(v: Option<Seq<Doc>>) -> Option<usize> {
    match v {
        Some(r) => Some((r.len() as usize)),
        None => None,
    }
}

fn record_count(v: Option<&Vec<Json>>) -> (r: Option<usize>)
    ensures
        r == record_count_spec(v.deep_view()),
{
    let r = match v {
        Some(v) => v,
        None => {
            return None;
        },
    };
    Some(r.len())
}

/// How many flags there are.
pub open spec fn flag_count_spec(t: Option<Doc>) -> Option<usize> {
    match t {
        Some(j) => Some((key_names_spec(j).len() as usize)),
        None => None,
    }
}

fn flag_count(t: Option<&Json>) -> (r: Option<usize>)
    ensures
        r == flag_count_spec(t.deep_view()),
{
    let j = match t {
        Some(v) => v,
        None => {
            return None;
        },
    };
    Some(key_names(j).len())
}

/// The lines of a text; what stands behind the last line break is one only where it is not
/// empty.
pub open spec fn text_lines_spec(s: Seq<char>) -> Seq<Seq<char>> {
    let parts = text::split(s, '\n');
    match list::end(parts) {
        Some(l) => if l == ""@ {
            list::upto(parts, (((parts.len() as usize)) - 1) as usize)
        } else {
            parts
        },
        None => parts,
    }
}

/// The lines of a text; what stands behind the last line break is one only where it is not
/// empty.
pub fn text_lines(s: &str) -> (r: Vec<String>)
    ensures
        r.deep_view() == text_lines_spec(s@),
{
    let parts = list::split(s, '\n');
    match list::str_ref(list::last(&parts)) {
        Some(l) => {
            if text::same(l, "") {
                return list::head(&parts, (parts.len() - 1));
            }
            parts
        },
        None => parts,
    }
}

/// How many lines there are.
pub open spec fn line_count_spec(d: Option<Seq<char>>) -> Option<usize> {
    match d {
        Some(s) => Some((text_lines_spec(s).len() as usize)),
        None => None,
    }
}

fn line_count(d: Option<&str>) -> (r: Option<usize>)
    ensures
        r == line_count_spec(d.deep_view()),
{
    let s = match d {
        Some(v) => v,
        None => {
            return None;
        },
    };
    Some(text_lines(s).len())
}

/// What an import read, counted.
pub open spec fn counted_spec(
    rows: Seq<OrderView>,
    archive_rows: usize,
    state: RunStateView,
    mismatches: Seq<Seq<char>>,
) -> ImportReportView {
    ImportReportView {
        rows: (rows.len() as usize),
        open: (open_count_spec(rows).len() as usize),
        by_status: tally_spec(statuses_spec(rows)),
        by_kind: tally_spec(kinds_spec(rows)),
        by_venue: tally_spec(exchanges_spec(rows)),
        unmodelled: tally_spec(extra_keys_spec(rows)),
        archive_rows,
        ladder_coins: ladder_facts_spec(state.ladder),
        pnl_records: record_count_spec(state.pnl),
        ttl_flags: flag_count_spec(state.ttl),
        decision_lines: line_count_spec(state.decisions),
        notices: state.notices,
        btc_band: band_of_spec(state.btc_alert),
        deploy_venues: deploy_facts_spec(state.deploy),
        audit: audit_facts_spec(state.audit),
        mismatches,
    }
}

/// What an import read, counted.
pub fn counted(
    rows: &Vec<Order>,
    archive_rows: usize,
    state: &RunState,
    mismatches: Vec<String>,
) -> (r: ImportReport)
    ensures
        r.deep_view() == counted_spec(
            rows.deep_view(),
            archive_rows,
            state.deep_view(),
            mismatches.deep_view(),
        ),
{
    ImportReport {
        rows: rows.len(),
        open: open_count(rows).len(),
        by_status: tally(&statuses(rows)),
        by_kind: tally(&kinds(rows)),
        by_venue: tally(&exchanges(rows)),
        unmodelled: tally(&extra_keys(rows)),
        archive_rows,
        ladder_coins: ladder_facts(list::borrow(&state.ladder)),
        pnl_records: record_count(list::borrow(&state.pnl)),
        ttl_flags: flag_count(list::borrow(&state.ttl)),
        decision_lines: line_count(list::text_ref(&state.decisions)),
        notices: state.notices,
        btc_band: band_of(list::borrow(&state.btc_alert)),
        deploy_venues: deploy_facts(list::borrow(&state.deploy)),
        audit: audit_facts(list::borrow(&state.audit)),
        mismatches,
    }
}

// ------------------------------------------------------------------ comparing
/// How a value that was read back differs from its source.
#[derive(Debug)]
pub enum Difference {
    /// Where two lists differ in length, and the two lengths.
    Length(String, usize, usize),
    /// Where two values differ, and the two values.
    Value(String, Json, Json),
}

/// What a [`Difference`] says.
pub enum DifferenceView {
    Length(Seq<char>, usize, usize),
    Value(Seq<char>, Doc, Doc),
}

impl DeepView for Difference {
    type V = DifferenceView;

    open spec fn deep_view(&self) -> DifferenceView {
        match self {
            Difference::Length(at, a, b) => DifferenceView::Length(at@, *a, *b),
            Difference::Value(at, a, b) => DifferenceView::Value(at@, a@, b@),
        }
    }
}

/// Whether two values that hold no others are the same: numbers by their exact
/// value.
pub open spec fn same_scalar(a: Doc, b: Doc) -> bool {
    match (a, b) {
        (Doc::Null, Doc::Null) => true,
        (Doc::Bool(x), Doc::Bool(y)) => x == y,
        (Doc::Str(x), Doc::Str(y)) => x == y,
        (Doc::Int(x), Doc::Int(y)) => x == y,
        (Doc::Int(x), Doc::Float(y)) => y.is_int(x as int),
        (Doc::Float(x), Doc::Int(y)) => x.is_int(y as int),
        (Doc::Float(x), Doc::Float(y)) => x.eq_spec(y),
        _ => false,
    }
}

/// The first difference between two values, where `null` and an absent field count as the
/// same and `5` and `5.0` are the same number.
pub open spec fn difference(a: Doc, b: Doc, at: Seq<char>) -> Option<DifferenceView>
    decreases a, 0nat,
{
    match (a, b) {
        (Doc::Obj(x), Doc::Obj(y)) => {
            let keys = compared_keys_spec(x, y);
            in_entries(x, b, keys, at, keys.len())
        },
        (Doc::Arr(x), Doc::Arr(y)) => if x.len() != y.len() {
            Some(DifferenceView::Length(at, x.len() as usize, y.len() as usize))
        } else {
            in_items(x, y, at, x.len())
        },
        _ => if same_scalar(a, b) {
            None
        } else {
            Some(DifferenceView::Value(at, a, b))
        },
    }
}

/// Where an item of a list is.
pub open spec fn item_path(at: Seq<char>, i: nat) -> Seq<char> {
    at + "["@ + text::dec(i) + "]"@
}

/// The first difference among the first `n` items of two lists.
pub open spec fn in_items(x: Seq<Doc>, y: Seq<Doc>, at: Seq<char>, n: nat) -> Option<
    DifferenceView,
>
    decreases x, n,
{
    if n == 0 || n > x.len() {
        None
    } else {
        match in_items(x, y, at, (n - 1) as nat) {
            Some(d) => Some(d),
            None => difference(x[n - 1], y[n - 1], item_path(at, (n - 1) as nat)),
        }
    }
}

/// The first difference among the first `n` of some keys of two objects.
pub open spec fn in_entries(
    x: Seq<(Seq<char>, Doc)>,
    b: Doc,
    keys: Seq<Seq<char>>,
    at: Seq<char>,
    n: nat,
) -> Option<DifferenceView>
    decreases x, n,
{
    if n == 0 {
        None
    } else {
        match in_entries(x, b, keys, at, (n - 1) as nat) {
            Some(d) => Some(d),
            None => {
                let k = keys[n - 1];
                let i = json::spot(x, k, 0);
                let y = b.get_or_null(k);
                if 0 <= i < x.len() {
                    difference(x[i].1, y, at + "."@ + k)
                } else if y is Null {
                    None
                } else {
                    Some(DifferenceView::Value(at + "."@ + k, Doc::Null, y))
                }
            },
        }
    }
}

/// Those of the first `n` entries.
pub open spec fn add_kept_keys_spec(
    xs: Seq<(Seq<char>, Doc)>,
    out: Seq<Seq<char>>,
    n: nat,
) -> Seq<Seq<char>>
    decreases n,
{
    if n == 0 {
        out
    } else {
        let out = add_kept_keys_spec(xs, out, (n - 1) as nat);
        let it = xs[n - 1];
        let k = it.0;
        let v = it.1;
        if !(v is Null) && !out.contains(k) {
            out.push(k)
        } else {
            out
        }
    }
}

fn add_kept_keys(xs: &Vec<(String, Json)>, out: Vec<String>) -> (r: Vec<String>)
    ensures
        r.deep_view() == add_kept_keys_spec(xs.deep_view(), out.deep_view(), xs@.len()),
{
    let ghost out0 = out.deep_view();
    let mut out = out;
    let mut i: usize = 0;
    while i < xs.len()
        invariant
            i <= xs@.len(),
            out.deep_view() == add_kept_keys_spec(xs.deep_view(), out0, i as nat),
        decreases xs@.len() - i,
    {
        let it = &xs[i];
        let k = it.0.as_str();
        let v = &it.1;
        if !v.is_null() && !list::holds(&out, k) {
            list::push(&mut out, text::owned(k));
        }
        i = i + 1;
    }
    out
}

/// Some keys and those of the entries that are not null, each once.
pub open spec fn kept_keys_spec(e: Seq<(Seq<char>, Doc)>, out: Seq<Seq<char>>) -> Seq<Seq<char>> {
    add_kept_keys_spec(e, out, e.len())
}

fn kept_keys(e: &Vec<(String, Json)>, out: Vec<String>) -> (r: Vec<String>)
    ensures
        r.deep_view() == kept_keys_spec(e.deep_view(), out.deep_view()),
{
    let mut out = out;
    out = add_kept_keys(e, out);
    out
}

/// The keys that are not null in either of two objects, by name.
pub open spec fn compared_keys_spec(
    a: Seq<(Seq<char>, Doc)>,
    b: Seq<(Seq<char>, Doc)>,
) -> Seq<Seq<char>> {
    list::sorted_texts(kept_keys_spec(b, kept_keys_spec(a, Seq::<Seq<char>>::empty())))
}

fn compared_keys(a: &Vec<(String, Json)>, b: &Vec<(String, Json)>) -> (r: Vec<String>)
    ensures
        r.deep_view() == compared_keys_spec(a.deep_view(), b.deep_view()),
{
    list::sort_texts(&kept_keys(b, kept_keys(a, list::none::<String>())))
}

fn scalars_agree(a: &Json, b: &Json) -> (r: bool)
    ensures
        r == same_scalar(a@, b@),
{
    match (a, b) {
        (Json::Null, Json::Null) => true,
        (Json::Bool(x), Json::Bool(y)) => *x == *y,
        (Json::Str(x), Json::Str(y)) => text::same(x.as_str(), y.as_str()),
        (Json::Int(x), Json::Int(y)) => *x == *y,
        (Json::Int(x), Json::Float(y)) => y.equals_int(*x),
        (Json::Float(x), Json::Int(y)) => x.equals_int(*y),
        (Json::Float(x), Json::Float(y)) => x.same(*y),
        _ => false,
    }
}

fn path_of_item(at: &str, i: usize) -> (r: String)
    ensures
        r@ == item_path(at@, i as nat),
{
    let mut r = text::owned(at);
    r.push_str("[");
    r.push_str(text::dec_u64(i as u64).as_str());
    r.push_str("]");
    r
}

fn path_of_key(at: &str, k: &str) -> (r: String)
    ensures
        r@ == at@ + "."@ + k@,
{
    let mut r = text::owned(at);
    r.push_str(".");
    r.push_str(k);
    r
}

fn find_difference(src: &Json, ours: &Json, at: &str) -> (r: Option<Difference>)
    ensures
        r.deep_view() == difference(src@, ours@, at@),
    decreases src,
{
    match (src, ours) {
        (Json::Obj(x), Json::Obj(y)) => {
            let keys = compared_keys(x, y);
            assert(x.deep_view() =~= src@->Obj_0);
            assert(y.deep_view() =~= ours@->Obj_0);
            let mut i: usize = 0;
            while i < keys.len()
                invariant
                    i <= keys@.len(),
                    src == Json::Obj(*x),
                    x.deep_view() == src@->Obj_0,
                    ours@ is Obj,
                    in_entries(src@->Obj_0, ours@, keys.deep_view(), at@, i as nat) is None,
                    difference(src@, ours@, at@) == in_entries(
                        src@->Obj_0,
                        ours@,
                        keys.deep_view(),
                        at@,
                        keys@.len(),
                    ),
                decreases keys@.len() - i,
            {
                assert(keys.deep_view()[i as int] == keys@[i as int]@);
                let k = keys[i].as_str();
                let path = path_of_key(at, k);
                let other = ours.get_copy(k);
                let found: Option<Difference> = match entry_place(x, k) {
                    Some(p) => {
                        assert(src@->Obj_0[p as int] == (x@[p as int].0@, x@[p as int].1@));
                        find_difference(&x[p].1, &other, path.as_str())
                    },
                    None => if other.is_null() {
                        None
                    } else {
                        Some(Difference::Value(path, Json::Null, other))
                    },
                };
                if found.is_some() {
                    proof {
                        lemma_first_stays(
                            src@->Obj_0,
                            ours@,
                            keys.deep_view(),
                            at@,
                            (i + 1) as nat,
                            keys@.len(),
                        );
                    }
                    return found;
                }
                i = i + 1;
            }
            None
        },
        (Json::Arr(x), Json::Arr(y)) => {
            if x.len() != y.len() {
                return Some(Difference::Length(text::owned(at), x.len(), y.len()));
            }
            let mut i: usize = 0;
            while i < x.len()
                invariant
                    i <= x@.len(),
                    x@.len() == y@.len(),
                    src == Json::Arr(*x),
                    ours == Json::Arr(*y),
                    in_items(src@->Arr_0, ours@->Arr_0, at@, i as nat) is None,
                decreases x@.len() - i,
            {
                assert(src@->Arr_0[i as int] == x@[i as int]@);
                assert(ours@->Arr_0[i as int] == y@[i as int]@);
                let path = path_of_item(at, i);
                let found = find_difference(&x[i], &y[i], path.as_str());
                if found.is_some() {
                    proof {
                        lemma_first_item_stays(
                            src@->Arr_0,
                            ours@->Arr_0,
                            at@,
                            (i + 1) as nat,
                            x@.len(),
                        );
                    }
                    return found;
                }
                i = i + 1;
            }
            None
        },
        _ => if scalars_agree(src, ours) {
            None
        } else {
            Some(Difference::Value(text::owned(at), src.copy(), ours.copy()))
        },
    }
}

/// A difference as a sentence.
pub open spec fn difference_text_spec(d: DifferenceView) -> Seq<char> {
    match d {
        DifferenceView::Length(at, a, b) => at + ": "@ + text::dec(a as nat)
            + " items, read back "@ + text::dec(b as nat),
        DifferenceView::Value(at, a, b) => at + ": "@ + json::compact(a) + " read back as "@
            + json::compact(b),
    }
}

/// A difference as a sentence.
pub fn difference_text(d: &Difference) -> (r: String)
    ensures
        r@ == difference_text_spec(d.deep_view()),
{
    match d {
        Difference::Length(at, a, b) => {
            let mut r = text::owned(at.as_str());
            r.push_str(": ");
            r.push_str(text::dec_u64(*a as u64).as_str());
            r.push_str(" items, read back ");
            r.push_str(text::dec_u64(*b as u64).as_str());
            r
        },
        Difference::Value(at, a, b) => {
            let mut r = text::owned(at.as_str());
            r.push_str(": ");
            r.push_str(a.compact().as_str());
            r.push_str(" read back as ");
            r.push_str(b.compact().as_str());
            r
        },
    }
}

/// The sentence of a difference, where there is one.
pub open spec fn told_difference(a: Doc, b: Doc, at: Seq<char>) -> Option<Seq<char>> {
    match difference(a, b, at) {
        Some(d) => Some(difference_text_spec(d)),
        None => None,
    }
}

/// The first way `ours` differs from `src`, ignoring null-vs-absent and int-vs-float.
pub fn first_difference(src: &Json, ours: &Json, at: &str) -> (r: Option<String>)
    ensures
        r.deep_view() == told_difference(src@, ours@, at@),
{
    match find_difference(src, ours, at) {
        Some(d) => Some(difference_text(&d)),
        None => None,
    }
}

/// A row of the journal as it is written back, null where there is none.
pub open spec fn written_back(rows: Seq<(Seq<char>, OrderView)>, cid: Seq<char>) -> Doc {
    match journal::row_of(rows, cid) {
        Some(o) => journal::row_json_spec(o),
        None => Doc::Null,
    }
}

/// How the first `n` rows of a source differ from what was read of them, one sentence for each that
/// does, in their order.
pub open spec fn told_mismatches(
    source: Seq<(Seq<char>, Doc)>,
    rows: Seq<(Seq<char>, OrderView)>,
    n: nat,
) -> Seq<Seq<char>> {
    list::gathered(
        source,
        |it: (Seq<char>, Doc)| told_difference(it.1, written_back(rows, it.0), it.0),
        n,
    )
}

/// How the rows of a source differ from what was read of them, one sentence for each that does, in
/// their order.
pub fn mismatches(source: &Json, journal: &Journal) -> (r: Vec<String>)
    ensures
        r.deep_view() == told_mismatches(
            source@.entries(),
            journal@,
            source@.entries().len(),
        ),
{
    let e = json::entries(source);
    let mut r: Vec<String> = list::none();
    let mut i: usize = 0;
    while i < e.len()
        invariant
            i <= e@.len(),
            e.deep_view() == source@.entries(),
            r.deep_view() == told_mismatches(source@.entries(), journal@, i as nat),
        decreases e@.len() - i,
    {
        assert(source@.entries()[i as int] == (e@[i as int].0@, e@[i as int].1@));
        let cid = e[i].0.as_str();
        let ours = match journal.get(cid) {
            Some(o) => o.to_json(),
            None => Json::Null,
        };
        match first_difference(&e[i].1, &ours, cid) {
            Some(t) => {
                list::push(&mut r, t);
            },
            None => {},
        }
        assert(r.deep_view() =~= told_mismatches(source@.entries(), journal@, (i + 1) as nat));
        i = i + 1;
    }
    r
}

/// What an import read of a source, counted, with every row that does not read back as it was.
pub open spec fn report_of_spec(
    source: Doc,
    rows: Seq<(Seq<char>, OrderView)>,
    archive_rows: usize,
    state: RunStateView,
) -> ImportReportView {
    counted_spec(
        journal::rows_alone(rows),
        archive_rows,
        state,
        told_mismatches(source.entries(), rows, source.entries().len()),
    )
}

/// What an import read of a source, counted, with every row that does not read back as it was.
pub fn report_of(
    source: &Json,
    journal: &Journal,
    archive_rows: usize,
    state: &RunState,
) -> (r: ImportReport)
    ensures
        r.deep_view() == report_of_spec(source@, journal@, archive_rows, state.deep_view()),
{
    counted(&journal.rows(), archive_rows, state, mismatches(source, journal))
}

/// Whether a line of a decision log has to be JSON and is not: `faults` holds what is wrong with
/// each line.
pub open spec fn is_bad_line(
    lines: Seq<Seq<char>>,
    faults: Seq<Option<Seq<char>>>,
    i: int,
) -> bool {
    i < faults.len() && faults[i] is Some && text::trim(lines[i]).len() > 0
}

/// Whether a line is the first such one.
pub open spec fn is_first_bad(
    lines: Seq<Seq<char>>,
    faults: Seq<Option<Seq<char>>>,
    i: int,
) -> bool {
    &&& 0 <= i < lines.len()
    &&& is_bad_line(lines, faults, i)
    &&& forall|j: int| 0 <= j < i ==> !is_bad_line(lines, faults, j)
}

/// How a line that is not JSON reads, counted from one.
pub open spec fn bad_line_text(
    path: Seq<char>,
    faults: Seq<Option<Seq<char>>>,
    i: int,
) -> Seq<char> {
    path + " line "@ + text::dec((i + 1) as nat) + ": "@ + faults[i]->0
}

/// Check a decision log: every line of it that is not blank has to be JSON. `faults` holds what is
/// wrong with each line, where it does not parse; the first bad one is named, counted from one.
pub fn check_decisions(path: &str, log: &str, faults: &Vec<Option<String>>) -> (r: Result<
    (),
    String,
>)
    ensures
        match r {
            Ok(_) => forall|i: int|
                0 <= i < text_lines_spec(log@).len() ==> !is_bad_line(
                    text_lines_spec(log@),
                    faults.deep_view(),
                    i,
                ),
            Err(e) => exists|i: int|
                #[trigger] is_first_bad(text_lines_spec(log@), faults.deep_view(), i) && e@
                    == bad_line_text(path@, faults.deep_view(), i),
        },
{
    let lines = text_lines(log);
    let ghost all = text_lines_spec(log@);
    let ghost wrong = faults.deep_view();
    let mut i: usize = 0;
    while i < lines.len() && i < faults.len()
        invariant
            i <= lines@.len(),
            lines.deep_view() == all,
            all == text_lines_spec(log@),
            faults.deep_view() == wrong,
            forall|j: int| 0 <= j < i ==> !is_bad_line(all, wrong, j),
        decreases lines@.len() - i,
    {
        assert(all[i as int] == lines@[i as int]@);
        assert(wrong[i as int] == faults@[i as int].deep_view());
        if let Some(e) = &faults[i] {
            let bare = text::trimmed(lines[i].as_str());
            if !text::same(bare.as_str(), "") {
                let mut line = text::owned(path);
                line.push_str(" line ");
                line.push_str(text::dec_u64(i as u64 + 1).as_str());
                line.push_str(": ");
                line.push_str(e.as_str());
                proof {
                    reveal_strlit("");
                    assert(bare@.len() > 0) by {
                        if bare@.len() == 0 {
                            assert(bare@ =~= ""@);
                        }
                    }
                    assert(is_first_bad(all, wrong, i as int));
                    assert(line@ =~= bad_line_text(path@, wrong, i as int));
                }
                return Err(line);
            }
            proof {
                reveal_strlit("");
            }
        }
        i = i + 1;
    }
    Ok(())
}

fn entry_place(e: &Vec<(String, Json)>, k: &str) -> (r: Option<usize>)
    ensures
        match r {
            Some(i) => i < e@.len() && i == json::spot(e.deep_view(), k@, 0),
            None => json::spot(e.deep_view(), k@, 0) == e@.len(),
        },
{
    let mut i: usize = 0;
    while i < e.len()
        invariant
            i <= e@.len(),
            json::spot(e.deep_view(), k@, 0) == json::spot(e.deep_view(), k@, i as int),
        decreases e@.len() - i,
    {
        assert(e.deep_view()[i as int].0 == e@[i as int].0@);
        if text::same(e[i].0.as_str(), k) {
            return Some(i);
        }
        i = i + 1;
    }
    None
}

proof fn lemma_first_stays(
    x: Seq<(Seq<char>, Doc)>,
    b: Doc,
    keys: Seq<Seq<char>>,
    at: Seq<char>,
    k: nat,
    n: nat,
)
    requires
        k <= n,
        in_entries(x, b, keys, at, k) is Some,
    ensures
        in_entries(x, b, keys, at, n) == in_entries(x, b, keys, at, k),
    decreases n,
{
    if k < n {
        lemma_first_stays(x, b, keys, at, k, (n - 1) as nat);
    }
}

proof fn lemma_first_item_stays(x: Seq<Doc>, y: Seq<Doc>, at: Seq<char>, k: nat, n: nat)
    requires
        k <= n <= x.len(),
        in_items(x, y, at, k) is Some,
    ensures
        in_items(x, y, at, n) == in_items(x, y, at, k),
    decreases n,
{
    if k < n {
        lemma_first_item_stays(x, y, at, k, (n - 1) as nat);
    }
}

/// Among the first `n` files.
pub open spec fn find_filled_spec(
    xs: Seq<(Seq<char>, bool)>,
    out: Option<Seq<char>>,
    n: nat,
) -> Option<Seq<char>> {
    match out {
        Some(v) => Some(v),
        None => list::first_given(
            xs,
            |it: (Seq<char>, bool)| {
                let p = it.0;
                let filled = it.1;
                if filled {
                    Some(p + " already exists; pass --force to replace it"@)
                } else {
                    None
                }
            },
            n,
        ),
    }
}

fn find_filled(xs: &Vec<(String, bool)>, out: Option<String>) -> (r: Option<String>)
    ensures
        r.deep_view() == find_filled_spec(xs.deep_view(), out.deep_view(), xs@.len()),
{
    let ghost out0 = out.deep_view();
    let mut out = out;
    let mut i: usize = 0;
    while i < xs.len()
        invariant
            i <= xs@.len(),
            out.deep_view() == find_filled_spec(xs.deep_view(), out0, i as nat),
        decreases xs@.len() - i,
    {
        let it = &xs[i];
        let p = it.0.as_str();
        let filled = it.1;
        if out.is_none() && filled {
            let mut line = text::owned(p);
            line.push_str(" already exists; pass --force to replace it");
            out = Some(line);
        }
        assert(xs.deep_view()[i as int] == xs@[i as int].deep_view());
        assert(out.deep_view() == find_filled_spec(xs.deep_view(), out0, (i + 1) as nat));
        i = i + 1;
    }
    out
}

/// Why an import is not written: the journal at a path holds rows, there is an archive, or one of the
/// files that would be written beside it holds something. Nothing stands in the way of a forced one.
pub open spec fn write_refusal_spec(
    path: Seq<char>,
    rows: usize,
    archive: Seq<char>,
    has_archive: bool,
    beside: Seq<(Seq<char>, bool)>,
    force: bool,
) -> Option<Seq<char>> {
    if force {
        None
    } else if rows > 0 {
        Some(
            path
                + " already holds "@
                + text::dec(rows as nat)
                + " row(s); pass --force to replace it"@,
        )
    } else if has_archive {
        Some(archive + " already exists; pass --force to replace it"@)
    } else {
        let out: Option<Seq<char>> = None;
        find_filled_spec(beside, out, beside.len())
    }
}

/// Why an import is not written: the journal at a path holds rows, there is an archive, or one of the
/// files that would be written beside it holds something. Nothing stands in the way of a forced one.
pub fn write_refusal(
    path: &str,
    rows: usize,
    archive: &str,
    has_archive: bool,
    beside: &Vec<(String, bool)>,
    force: bool,
) -> (r: Option<String>)
    ensures
        r.deep_view() == write_refusal_spec(
            path@,
            rows,
            archive@,
            has_archive,
            beside.deep_view(),
            force,
        ),
{
    if force {
        return None;
    }
    if rows > 0 {
        let mut line = text::owned(path);
        line.push_str(" already holds ");
        line.push_str(text::dec_u64(rows as u64).as_str());
        line.push_str(" row(s); pass --force to replace it");
        return Some(line);
    }
    if has_archive {
        let mut line2 = text::owned(archive);
        line2.push_str(" already exists; pass --force to replace it");
        return Some(line2);
    }
    let mut out: Option<String> = None;
    out = find_filled(beside, out);
    out
}

/// Why an import whose rows do not read back is not written, unless it is forced.
pub open spec fn mismatch_refusal_spec(r: ImportReportView, force: bool) -> Option<Seq<char>> {
    if !(r.mismatches.len() == 0) && !force {
        Some("some rows would not read back as written; pass --force to import anyway"@)
    } else {
        None
    }
}

/// Why an import whose rows do not read back is not written, unless it is forced.
pub fn mismatch_refusal(r: &ImportReport, force: bool) -> (out: Option<String>)
    ensures
        out.deep_view() == mismatch_refusal_spec(r.deep_view(), force),
{
    if !(r.mismatches.len() == 0) && !force {
        return Some(
            text::owned("some rows would not read back as written; pass --force to import anyway"),
        );
    }
    None
}

/// The first `n` of them.
pub open spec fn add_time_spec(
    path: Seq<char>,
    xs: Seq<(Seq<char>, Doc)>,
    out: Seq<(Seq<char>, Double)>,
    fault: Option<Seq<char>>,
    n: nat,
) -> (Seq<(Seq<char>, Double)>, Option<Seq<char>>)
    decreases n,
{
    if n == 0 {
        (out, fault)
    } else {
        let (out, fault) = add_time_spec(path, xs, out, fault, (n - 1) as nat);
        let it = xs[n - 1];
        let k = it.0;
        let v = it.1;
        if fault is None {
            match v.num() {
                Some(t) => (out.push((k, t)), fault),
                None => (out, Some(path + ": "@ + k + " is not a timestamp"@)),
            }
        } else {
            (out, fault)
        }
    }
}

fn add_time(
    path: &str,
    xs: &Vec<(String, Json)>,
    out: Vec<(String, Double)>,
    fault: Option<String>,
) -> (r: (Vec<(String, Double)>, Option<String>))
    ensures
        r.deep_view() == add_time_spec(
            path@,
            xs.deep_view(),
            out.deep_view(),
            fault.deep_view(),
            xs@.len(),
        ),
{
    let ghost out0 = out.deep_view();
    let ghost fault0 = fault.deep_view();
    let mut out = out;
    let mut fault = fault;
    let mut i: usize = 0;
    while i < xs.len()
        invariant
            i <= xs@.len(),
            (out.deep_view(), fault.deep_view()) == add_time_spec(
                path@,
                xs.deep_view(),
                out0,
                fault0,
                i as nat,
            ),
        decreases xs@.len() - i,
    {
        let it = &xs[i];
        let k = it.0.as_str();
        let v = &it.1;
        if fault.is_none() {
            match v.num() {
                Some(t) => {
                    list::push(&mut out, (text::owned(k), t));
                },
                None => {
                    let mut line = text::owned(path);
                    line.push_str(": ");
                    line.push_str(k);
                    line.push_str(" is not a timestamp");
                    fault = Some(line);
                },
            }
        }
        i = i + 1;
    }
    (out, fault)
}

/// The stale-order flags: a time under each client id.
pub open spec fn read_ttl_spec(
    path: Seq<char>,
    m: Doc,
) -> Result<Seq<(Seq<char>, Double)>, Seq<char>> {
    let out = Seq::<(Seq<char>, Double)>::empty();
    let fault: Option<Seq<char>> = None;
    let (out, fault) = add_time_spec(path, m.entries(), out, fault, m.entries().len());
    match fault {
        Some(e) => Err(e),
        None => Ok(out),
    }
}

/// The stale-order flags: a time under each client id.
pub fn read_ttl(path: &str, m: &Json) -> (r: Result<Vec<(String, Double)>, String>)
    ensures
        list::outcome(r) == read_ttl_spec(path@, m@),
{
    let mut out: Vec<(String, Double)> = list::none();
    let mut fault: Option<String> = None;
    let (next_out, next_fault) = add_time(path, &json::entries(m), out, fault);
    out = next_out;
    fault = next_fault;
    match fault {
        Some(e) => Err(e),
        None => Ok(out),
    }
}

/// The records of a ledger.
pub open spec fn records_of_spec(path: Seq<char>, v: Doc) -> Result<Seq<Doc>, Seq<char>> {
    if v is Arr {
        Ok(v.items())
    } else {
        Err(path + ": expected a list of records"@)
    }
}

/// The records of a ledger.
pub fn records_of(path: &str, v: Json) -> (r: Result<Vec<Json>, String>)
    ensures
        list::outcome(r) == records_of_spec(path@, v@),
{
    if v.is_arr() {
        return Ok(json::items(&v));
    }
    let mut line = text::owned(path);
    line.push_str(": expected a list of records");
    Err(line)
}

/// A state that has to be an object.
pub open spec fn object_of_spec(path: Seq<char>, v: Doc) -> Result<Doc, Seq<char>> {
    if v is Obj {
        Ok(v)
    } else {
        Err(path + ": expected an object"@)
    }
}

/// A state that has to be an object.
pub fn object_of(path: &str, v: Json) -> (r: Result<Json, String>)
    ensures
        list::outcome(r) == object_of_spec(path@, v@),
{
    if v.is_obj() {
        return Ok(v);
    }
    let mut line = text::owned(path);
    line.push_str(": expected an object");
    Err(line)
}

/// The files that are written beside an imported journal, three of them under names that are given.
pub open spec fn present_files_spec(
    s: RunStateView,
    ladder_file: Seq<char>,
    pnl_file: Seq<char>,
    ttl_file: Seq<char>,
) -> Seq<Seq<char>> {
    let out = Seq::<Seq<char>>::empty();
    let out = if s.ladder is Some {
        out.push(ladder_file)
    } else {
        out
    };
    let out = if s.pnl is Some {
        out.push(pnl_file)
    } else {
        out
    };
    let out = if s.ttl is Some {
        out.push(ttl_file)
    } else {
        out
    };
    let out = if s.decisions is Some {
        out.push("decisions.jsonl"@)
    } else {
        out
    };
    let out = if s.notices is Some {
        out.push("signal-notices.json"@)
    } else {
        out
    };
    let out = if s.btc_alert is Some {
        out.push("btc-alert-state.json"@)
    } else {
        out
    };
    let out = if s.deploy is Some {
        out.push("deploy-state.json"@)
    } else {
        out
    };
    if s.audit is Some {
        out.push("audit-state.json"@)
    } else {
        out
    }
}

/// The files that are written beside an imported journal, three of them under names that are given.
pub fn present_files(
    s: &RunState,
    ladder_file: &str,
    pnl_file: &str,
    ttl_file: &str,
) -> (r: Vec<String>)
    ensures
        r.deep_view() == present_files_spec(s.deep_view(), ladder_file@, pnl_file@, ttl_file@),
{
    let mut out: Vec<String> = list::none();
    if s.ladder.is_some() {
        list::push(&mut out, text::owned(ladder_file));
    }
    if s.pnl.is_some() {
        list::push(&mut out, text::owned(pnl_file));
    }
    if s.ttl.is_some() {
        list::push(&mut out, text::owned(ttl_file));
    }
    if s.decisions.is_some() {
        list::push(&mut out, text::owned("decisions.jsonl"));
    }
    if s.notices.is_some() {
        list::push(&mut out, text::owned("signal-notices.json"));
    }
    if s.btc_alert.is_some() {
        list::push(&mut out, text::owned("btc-alert-state.json"));
    }
    if s.deploy.is_some() {
        list::push(&mut out, text::owned("deploy-state.json"));
    }
    if s.audit.is_some() {
        list::push(&mut out, text::owned("audit-state.json"));
    }
    out
}

/// Without `--force` no import replaces a journal that holds rows or an archive that is there, and
/// with it every import is written.
pub proof fn law_rows_are_not_replaced_unasked(
    path: Seq<char>,
    rows: usize,
    archive: Seq<char>,
    has_archive: bool,
    beside: Seq<(Seq<char>, bool)>,
)
    ensures
        rows > 0 || has_archive ==> write_refusal_spec(
            path,
            rows,
            archive,
            has_archive,
            beside,
            false,
        ) is Some,
        write_refusal_spec(path, rows, archive, has_archive, beside, true) is None,
{
}

/// Whether a value holds no number that is not one.
pub open spec fn all_numbers(d: Doc) -> bool
    decreases d,
{
    match d {
        Doc::Float(f) => !f.nan(),
        Doc::Arr(v) => forall|i: int| 0 <= i < v.len() ==> all_numbers(#[trigger] v[i]),
        Doc::Obj(e) => forall|i: int| 0 <= i < e.len() ==> all_numbers((#[trigger] e[i]).1),
        _ => true,
    }
}

proof fn lemma_same_items(v: Seq<Doc>, at: Seq<char>, n: nat)
    requires
        n <= v.len(),
        forall|i: int| 0 <= i < v.len() ==> all_numbers(#[trigger] v[i]),
    ensures
        in_items(v, v, at, n) is None,
    decreases v, n,
{
    if n > 0 {
        lemma_same_items(v, at, (n - 1) as nat);
        law_a_value_does_not_differ_from_itself(v[n - 1], item_path(at, (n - 1) as nat));
    }
}

proof fn lemma_same_entries(
    e: Seq<(Seq<char>, Doc)>,
    keys: Seq<Seq<char>>,
    at: Seq<char>,
    n: nat,
)
    requires
        n <= keys.len(),
        forall|i: int| 0 <= i < e.len() ==> all_numbers((#[trigger] e[i]).1),
    ensures
        in_entries(e, Doc::Obj(e), keys, at, n) is None,
    decreases e, n,
{
    if n > 0 {
        lemma_same_entries(e, keys, at, (n - 1) as nat);
        let k = keys[n - 1];
        json::lemma_spot(e, k, 0);
        let i = json::spot(e, k, 0);
        if i < e.len() {
            law_a_value_does_not_differ_from_itself(e[i].1, at + "."@ + k);
        }
    }
}

/// Every row that does not read back as it was is named, and where none is named every row reads
/// back.
pub proof fn law_every_row_that_differs_is_named(
    source: Seq<(Seq<char>, Doc)>,
    rows: Seq<(Seq<char>, OrderView)>,
    i: int,
    n: nat,
)
    requires
        0 <= i < n <= source.len(),
    ensures
        difference(source[i].1, written_back(rows, source[i].0), source[i].0) matches Some(d)
            ==> told_mismatches(source, rows, n).contains(difference_text_spec(d)),
        told_mismatches(source, rows, n).len() == 0 ==> difference(
            source[i].1,
            written_back(rows, source[i].0),
            source[i].0,
        ) is None,
    decreases n,
{
    let all = told_mismatches(source, rows, n);
    let fewer = told_mismatches(source, rows, (n - 1) as nat);
    let last = told_difference(
        source[n - 1].1,
        written_back(rows, source[n - 1].0),
        source[n - 1].0,
    );
    assert(match last {
        Some(t) => all == fewer.push(t),
        None => all == fewer,
    });
    if i < n - 1 {
        law_every_row_that_differs_is_named(source, rows, i, (n - 1) as nat);
        if let Some(d) = difference(
            source[i].1,
            written_back(rows, source[i].0),
            source[i].0,
        ) {
            let k = choose|k: int| 0 <= k < fewer.len() && fewer[k] == difference_text_spec(d);
            assert(all[k] == fewer[k]);
        }
    } else if let Some(t) = last {
        assert(all[all.len() - 1] == t);
    }
}

/// A value does not differ from itself, so what reads back as it was written is taken.
pub proof fn law_a_value_does_not_differ_from_itself(d: Doc, at: Seq<char>)
    requires
        all_numbers(d),
    ensures
        difference(d, d, at) is None,
    decreases d, 0nat,
{
    match d {
        Doc::Arr(v) => {
            lemma_same_items(v, at, v.len());
        },
        Doc::Obj(e) => {
            let keys = compared_keys_spec(e, e);
            lemma_same_entries(e, keys, at, keys.len());
        },
        _ => {},
    }
}

/// The rows of a journal as its file holds them.
pub open spec fn file_of(rows: Seq<(Seq<char>, OrderView)>) -> Seq<(Seq<char>, Doc)> {
    Seq::new(rows.len(), |i: int| (rows[i].0, journal::row_json_spec(rows[i].1)))
}

proof fn lemma_nothing_told(
    source: Seq<(Seq<char>, Doc)>,
    rows: Seq<(Seq<char>, OrderView)>,
    n: nat,
)
    requires
        n <= source.len(),
        forall|i: int|
            0 <= i < n ==> difference(
                (#[trigger] source[i]).1,
                written_back(rows, source[i].0),
                source[i].0,
            ) is None,
    ensures
        told_mismatches(source, rows, n).len() == 0,
    decreases n,
{
    if n > 0 {
        lemma_nothing_told(source, rows, (n - 1) as nat);
        assert(told_difference(
            source[n - 1].1,
            written_back(rows, source[n - 1].0),
            source[n - 1].0,
        ) is None);
    }
}

/// A journal imports from its own file without a difference.
pub proof fn law_a_journal_matches_its_own_file(rows: Seq<(Seq<char>, OrderView)>)
    requires
        forall|i: int, j: int|
            0 <= i < j < rows.len() ==> (#[trigger] rows[i]).0 != (#[trigger] rows[j]).0,
        forall|i: int|
            0 <= i < rows.len() ==> all_numbers(journal::row_json_spec((#[trigger] rows[i]).1)),
    ensures
        told_mismatches(file_of(rows), rows, rows.len()).len() == 0,
{
    let source = file_of(rows);
    assert forall|i: int| 0 <= i < rows.len() implies difference(
        (#[trigger] source[i]).1,
        written_back(rows, source[i].0),
        source[i].0,
    ) is None by {
        journal::lemma_row_place(rows, rows[i].0, 0);
        let k = journal::row_place(rows, rows[i].0, 0);
        if k < i {
            assert(rows[k].0 != rows[i].0);
        } else if i < k {
            assert(rows[i].0 != rows[i].0);
        }
        assert(all_numbers(journal::row_json_spec(rows[i].1)));
        law_a_value_does_not_differ_from_itself(source[i].1, source[i].0);
    }
    lemma_nothing_told(source, rows, rows.len());
}

} // verus!
