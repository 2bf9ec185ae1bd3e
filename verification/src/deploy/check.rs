//! One run of the layer: detect new capital per venue, commit the baseline, ladder what is due.
use crate::deploy;
use crate::deploy::{Answer, AnswerView, Ask, AskView, Config, ConfigView, Work, WorkView};
use crate::deploy::bull;
use crate::deploy::onramp;
use crate::deploy::onramp::{Kept, KeptView};
use crate::deploy::placing;
use crate::deploy::planning;
use crate::double::Double;
use crate::journal;
use crate::journal::{Order, OrderView};
use crate::list;
use crate::list::Duplicate;
use crate::pyfmt;
use crate::rounding;
use crate::text;
use crate::venue::Balance;
use crate::watch::json;
use crate::watch::json::{Doc, Json};
use vstd::prelude::*;

verus! {

/// The first `n` of them.
pub open spec fn adjust_each_spec(
    by: Double,
    key: Seq<char>,
    xs: Seq<(Seq<char>, Double)>,
    out: Seq<(Seq<char>, Double)>,
    n: nat,
) -> Seq<(Seq<char>, Double)>
    decreases n,
{
    if n == 0 {
        out
    } else {
        let out = adjust_each_spec(by, key, xs, out, (n - 1) as nat);
        let it = xs[n - 1];
        let k = it.0;
        let v = it.1;
        if k == key {
            out.push((k, v.add_spec(by)))
        } else {
            out.push((k, v))
        }
    }
}

fn adjust_each(
    by: Double,
    key: &str,
    xs: &Vec<(String, Double)>,
    out: Vec<(String, Double)>,
) -> (r: Vec<(String, Double)>)
    ensures
        r.deep_view() == adjust_each_spec(by, key@, xs.deep_view(), out.deep_view(), xs@.len()),
{
    let ghost out0 = out.deep_view();
    let mut out = out;
    let mut i: usize = 0;
    while i < xs.len()
        invariant
            i <= xs@.len(),
            out.deep_view() == adjust_each_spec(by, key@, xs.deep_view(), out0, i as nat),
        decreases xs@.len() - i,
    {
        let it = &xs[i];
        let k = it.0.as_str();
        let v = it.1;
        if text::same(k, key) {
            list::push(&mut out, (text::owned(k), v.plus(by)));
        } else {
            list::push(&mut out, (text::owned(k), v));
        }
        i = i + 1;
    }
    out
}

/// The numbers with one changed, where it is there.
pub open spec fn adjust_spec(
    ms: Seq<(Seq<char>, Double)>,
    key: Seq<char>,
    by: Double,
) -> Seq<(Seq<char>, Double)> {
    adjust_each_spec(by, key, ms, Seq::<(Seq<char>, Double)>::empty(), ms.len())
}

/// The numbers with one changed, where it is there.
pub fn adjust(ms: &Vec<(String, Double)>, key: &str, by: Double) -> (r: Vec<(String, Double)>)
    ensures
        r.deep_view() == adjust_spec(ms.deep_view(), key@, by),
{
    let mut out: Vec<(String, Double)> = list::none();
    out = adjust_each(by, key, ms, out);
    out
}

/// Among the first `n` of them.
pub open spec fn see_key_spec(
    key: Seq<char>,
    xs: Seq<(Seq<char>, Double)>,
    out: bool,
    n: nat,
) -> bool {
    out || list::some(
        xs,
        |it: (Seq<char>, Double)| {
            let k = it.0;
            k == key
        },
        n,
    )
}

fn see_key(key: &str, xs: &Vec<(String, Double)>, out: bool) -> (r: bool)
    ensures
        r == see_key_spec(key@, xs.deep_view(), out, xs@.len()),
{
    let ghost out0 = out;
    let mut out = out;
    let mut i: usize = 0;
    while i < xs.len()
        invariant
            i <= xs@.len(),
            out == see_key_spec(key@, xs.deep_view(), out0, i as nat),
        decreases xs@.len() - i,
    {
        let it = &xs[i];
        let k = it.0.as_str();
        if text::same(k, key) {
            out = true;
        }
        assert(xs.deep_view()[i as int] == xs@[i as int].deep_view());
        assert(out == see_key_spec(key@, xs.deep_view(), out0, (i + 1) as nat));
        i = i + 1;
    }
    out
}

/// Whether a number is there.
pub open spec fn has_key_spec(ms: Seq<(Seq<char>, Double)>, key: Seq<char>) -> bool {
    see_key_spec(key, ms, false, ms.len())
}

fn has_key(ms: &Vec<(String, Double)>, key: &str) -> (r: bool)
    ensures
        r == has_key_spec(ms.deep_view(), key@),
{
    let mut out = false;
    out = see_key(key, ms, out);
    out
}

/// Of the first `n` names.
pub open spec fn add_zero_spec(
    xs: Seq<Seq<char>>,
    out: Seq<(Seq<char>, Double)>,
    n: nat,
) -> Seq<(Seq<char>, Double)> {
    out + Seq::new(
        n,
        |i: int| {
            let s = xs[i];
            (s, Double::zero_spec())
        },
    )
}

fn add_zero(xs: &Vec<String>, out: Vec<(String, Double)>) -> (r: Vec<(String, Double)>)
    ensures
        r.deep_view() == add_zero_spec(xs.deep_view(), out.deep_view(), xs@.len()),
{
    let ghost out0 = out.deep_view();
    let mut out = out;
    let mut i: usize = 0;
    while i < xs.len()
        invariant
            i <= xs@.len(),
            out.deep_view() == add_zero_spec(xs.deep_view(), out0, i as nat),
        decreases xs@.len() - i,
    {
        let s = xs[i].as_str();
        list::push(&mut out, (text::owned(s), Double::zero()));
        assert(out.deep_view() =~= add_zero_spec(xs.deep_view(), out0, (i + 1) as nat));
        i = i + 1;
    }
    out
}

/// A zero for each name.
pub open spec fn zeros_spec(names: Seq<Seq<char>>) -> Seq<(Seq<char>, Double)> {
    add_zero_spec(names, Seq::<(Seq<char>, Double)>::empty(), names.len())
}

fn zeros(names: &Vec<String>) -> (r: Vec<(String, Double)>)
    ensures
        r.deep_view() == zeros_spec(names.deep_view()),
{
    let mut out: Vec<(String, Double)> = list::none();
    out = add_zero(names, out);
    out
}

/// How a fill changes a venue's quote: what a buy spent beyond the part that was already netted, or
/// what a sale brought.
pub open spec fn fill_delta_spec(o: OrderView, part_prev: Doc) -> Double {
    let fq = match o.filled_quote {
        Some(v) => v,
        None => Double::zero_spec(),
    };
    if o.side == "buy"@ {
        fq.sub_spec(deploy::num_or_zero_spec(part_prev.get(o.client_id))).max_spec(
            Double::zero_spec(),
        ).neg_spec()
    } else {
        fq
    }
}

fn fill_delta(o: &Order, part_prev: &Json) -> (r: Double)
    ensures
        r == fill_delta_spec(o.deep_view(), part_prev@),
{
    let fq = match o.filled_quote {
        Some(v) => v,
        None => Double::zero(),
    };
    if text::same(o.side.as_str(), "buy") {
        return fq.minus(deploy::num_or_zero(part_prev.get(o.client_id.as_str()))).max(
            Double::zero(),
        ).negated();
    }
    fq
}

/// How a partial fill on an open zone changes a venue's quote.
pub open spec fn part_delta_spec(o: OrderView, part_prev: Doc) -> Double {
    (match o.part_quote {
        Some(v) => v,
        None => Double::zero_spec(),
    }).sub_spec(
        deploy::num_or_zero_spec(part_prev.get(o.client_id)),
    ).max_spec(
        Double::zero_spec(),
    ).neg_spec()
}

fn part_delta(o: &Order, part_prev: &Json) -> (r: Double)
    ensures
        r == part_delta_spec(o.deep_view(), part_prev@),
{
    (match o.part_quote {
        Some(v) => v,
        None => Double::zero(),
    }).minus(
        deploy::num_or_zero(part_prev.get(o.client_id.as_str())),
    ).max(
        Double::zero(),
    ).negated()
}

/// What the journal explains of the venues' quote since a baseline.
#[derive(Debug)]
pub struct Explained {
    pub deltas: Vec<(String, Double)>,
    /// The partial fills now on open zones.
    pub part: Json,
}

/// What a [`Explained`] holds.
pub struct ExplainedView {
    pub deltas: Seq<(Seq<char>, Double)>,
    pub part: Doc,
}

impl DeepView for Explained {
    type V = ExplainedView;

    open spec fn deep_view(&self) -> ExplainedView {
        ExplainedView {
            deltas: self.deltas.deep_view(),
            part: self.part@,
        }
    }
}

impl Duplicate for Explained {
    fn dup(&self) -> (r: Explained) {
        Explained {
            deltas: self.deltas.dup(),
            part: self.part.copy(),
        }
    }
}

/// The object under a key, an empty one where there is none.
pub open spec fn object_in_spec(st: Doc, k: Seq<char>) -> Doc {
    match st.get(k) {
        Some(v) => if v is Obj {
            v
        } else {
            Doc::obj()
        },
        None => Doc::obj(),
    }
}

fn object_in(st: &Json, k: &str) -> (r: Json)
    ensures
        r@ == object_in_spec(st@, k@),
{
    match st.get(k) {
        Some(v) => {
            if v.is_obj() {
                return v.copy();
            }
            Json::obj()
        },
        None => Json::obj(),
    }
}

/// The first `n` fills.
pub open spec fn explain_fills_spec(
    part_prev: Doc,
    xs: Seq<OrderView>,
    deltas: Seq<(Seq<char>, Double)>,
    n: nat,
) -> Seq<(Seq<char>, Double)>
    decreases n,
{
    if n == 0 {
        deltas
    } else {
        let deltas = explain_fills_spec(part_prev, xs, deltas, (n - 1) as nat);
        let o = xs[n - 1];
        adjust_spec(deltas, o.exch, fill_delta_spec(o, part_prev))
    }
}

fn explain_fills(
    part_prev: &Json,
    xs: &Vec<Order>,
    deltas: Vec<(String, Double)>,
) -> (r: Vec<(String, Double)>)
    ensures
        r.deep_view() == explain_fills_spec(
            part_prev@,
            xs.deep_view(),
            deltas.deep_view(),
            xs@.len(),
        ),
{
    let ghost deltas0 = deltas.deep_view();
    let mut deltas = deltas;
    let mut i: usize = 0;
    while i < xs.len()
        invariant
            i <= xs@.len(),
            deltas.deep_view() == explain_fills_spec(
                part_prev@,
                xs.deep_view(),
                deltas0,
                i as nat,
            ),
        decreases xs@.len() - i,
    {
        let o = &xs[i];
        deltas = adjust(&deltas, o.exch.as_str(), fill_delta(o, part_prev));
        i = i + 1;
    }
    deltas
}

/// Of the first `n` open zones.
pub open spec fn explain_parts_spec(
    part_prev: Doc,
    xs: Seq<OrderView>,
    part: Doc,
    deltas: Seq<(Seq<char>, Double)>,
    n: nat,
) -> (Doc, Seq<(Seq<char>, Double)>)
    decreases n,
{
    if n == 0 {
        (part, deltas)
    } else {
        let (part, deltas) = explain_parts_spec(part_prev, xs, part, deltas, (n - 1) as nat);
        let o = xs[n - 1];
        if has_key_spec(deltas, o.exch) {
            let part = part.set(
                o.client_id,
                Doc::Float(
                    match o.part_quote {
                        Some(v) => v,
                        None => Double::zero_spec(),
                    },
                ),
            );
            (part, adjust_spec(deltas, o.exch, part_delta_spec(o, part_prev)))
        } else {
            (part, deltas)
        }
    }
}

fn explain_parts(
    part_prev: &Json,
    xs: &Vec<Order>,
    part: Json,
    deltas: Vec<(String, Double)>,
) -> (r: (Json, Vec<(String, Double)>))
    ensures
        r.deep_view() == explain_parts_spec(
            part_prev@,
            xs.deep_view(),
            part@,
            deltas.deep_view(),
            xs@.len(),
        ),
{
    let ghost part0 = part@;
    let ghost deltas0 = deltas.deep_view();
    let mut part = part;
    let mut deltas = deltas;
    let mut i: usize = 0;
    while i < xs.len()
        invariant
            i <= xs@.len(),
            (part@, deltas.deep_view()) == explain_parts_spec(
                part_prev@,
                xs.deep_view(),
                part0,
                deltas0,
                i as nat,
            ),
        decreases xs@.len() - i,
    {
        let o = &xs[i];
        if has_key(&deltas, o.exch.as_str()) {
            part.set(
                o.client_id.as_str(),
                Json::Float(
                    match o.part_quote {
                        Some(v) => v,
                        None => Double::zero(),
                    },
                ),
            );
            deltas = adjust(&deltas, o.exch.as_str(), part_delta(o, part_prev));
        }
        i = i + 1;
    }
    (part, deltas)
}

/// Journal-explained quote deltas per venue since the baseline in `st` (fills since its `ts`,
/// partial fills already netted while open counted once), and the partial fills now on open zones
/// (the next `part`).
pub open spec fn explained_spec(
    rows: Seq<OrderView>,
    st: Doc,
    venues: Seq<Seq<char>>,
) -> ExplainedView {
    let prev_ts = deploy::num_or_zero_spec(st.get("ts"@));
    let part_prev = object_in_spec(st, "part"@);
    let deltas = zeros_spec(venues);
    let deltas = if !prev_ts.eq_spec(Double::zero_spec()) {
        explain_fills_spec(
            part_prev,
            journal::filled_rows_spec(rows, prev_ts, false),
            deltas,
            journal::filled_rows_spec(rows, prev_ts, false).len(),
        )
    } else {
        deltas
    };
    let part = Doc::obj();
    let (part, deltas) = explain_parts_spec(
        part_prev,
        journal::open_rows_spec(rows, Some("deploy_buy"@)),
        part,
        deltas,
        journal::open_rows_spec(rows, Some("deploy_buy"@)).len(),
    );
    ExplainedView { deltas, part }
}

/// Journal-explained quote deltas per venue since the baseline in `st` (fills since its `ts`,
/// partial fills already netted while open counted once), and the partial fills now on open zones
/// (the next `part`).
pub fn explained(rows: &Vec<Order>, st: &Json, venues: &Vec<String>) -> (r: Explained)
    ensures
        r.deep_view() == explained_spec(rows.deep_view(), st@, venues.deep_view()),
{
    let prev_ts = deploy::num_or_zero(st.get("ts"));
    let part_prev = object_in(st, "part");
    let mut deltas = zeros(venues);
    if !prev_ts.same(Double::zero()) {
        deltas = explain_fills(&part_prev, &journal::filled_rows(rows, prev_ts, false), deltas);
    }
    let mut part = Json::obj();
    let (next_part, next_deltas) = explain_parts(
        &part_prev,
        &journal::open_rows(rows, Some("deploy_buy")),
        part,
        deltas,
    );
    part = next_part;
    deltas = next_deltas;
    Explained { deltas, part }
}

/// A sum that is laddered on a venue.
#[derive(Debug)]
pub struct Tranche {
    pub exch: String,
    pub quote: String,
    pub amount: Double,
}

/// What a [`Tranche`] holds.
pub struct TrancheView {
    pub exch: Seq<char>,
    pub quote: Seq<char>,
    pub amount: Double,
}

impl DeepView for Tranche {
    type V = TrancheView;

    open spec fn deep_view(&self) -> TrancheView {
        TrancheView {
            exch: self.exch@,
            quote: self.quote@,
            amount: self.amount,
        }
    }
}

impl Duplicate for Tranche {
    fn dup(&self) -> (r: Tranche) {
        Tranche {
            exch: text::owned(self.exch.as_str()),
            quote: text::owned(self.quote.as_str()),
            amount: self.amount,
        }
    }
}

/// Idle cash that is re-laddered on a venue.
#[derive(Debug)]
pub struct Sweep {
    pub exch: String,
    pub quote: String,
    pub idle: Double,
    /// The coins it is laddered on: those without zones, where there are any.
    pub only: Option<Vec<String>>,
    /// The rows whose freed cash it is.
    pub freed: Vec<String>,
}

/// What a [`Sweep`] holds.
pub struct SweepView {
    pub exch: Seq<char>,
    pub quote: Seq<char>,
    pub idle: Double,
    pub only: Option<Seq<Seq<char>>>,
    pub freed: Seq<Seq<char>>,
}

impl DeepView for Sweep {
    type V = SweepView;

    open spec fn deep_view(&self) -> SweepView {
        SweepView {
            exch: self.exch@,
            quote: self.quote@,
            idle: self.idle,
            only: self.only.deep_view(),
            freed: self.freed.deep_view(),
        }
    }
}

/// What a run found due, venue by venue.
#[derive(Debug)]
pub struct Pass {
    /// The next baseline.
    pub baseline: Json,
    /// The other stable on each venue.
    pub offquote: Json,
    pub tranches: Vec<Tranche>,
    pub sweeps: Vec<Sweep>,
    pub withholds: Vec<Tranche>,
}

/// What a [`Pass`] holds.
pub struct PassView {
    pub baseline: Doc,
    pub offquote: Doc,
    pub tranches: Seq<TrancheView>,
    pub sweeps: Seq<SweepView>,
    pub withholds: Seq<TrancheView>,
}

impl DeepView for Pass {
    type V = PassView;

    open spec fn deep_view(&self) -> PassView {
        PassView {
            baseline: self.baseline@,
            offquote: self.offquote@,
            tranches: self.tranches.deep_view(),
            sweeps: self.sweeps.deep_view(),
            withholds: self.withholds.deep_view(),
        }
    }
}

/// What a run sees before it decides.
#[derive(Debug)]
pub struct Seen {
    /// The venues with a client.
    pub names: Vec<String>,
    /// Each venue's book, where it could be read.
    pub full: Vec<(String, Option<Vec<(String, Balance)>>)>,
    pub deltas: Vec<(String, Double)>,
    /// The open zones.
    pub zones: Vec<Order>,
    pub baselines: Json,
    /// What is held back on each venue.
    pub reserves: Vec<(String, Double)>,
    /// What a top-up of Gate needs in all.
    pub rx_reserve: Double,
    /// USDC the onramp kept.
    pub keep: Double,
    pub ts_cut: Double,
}

/// What a [`Seen`] holds.
pub struct SeenView {
    pub names: Seq<Seq<char>>,
    pub full: Seq<(Seq<char>, Option<Seq<(Seq<char>, Balance)>>)>,
    pub deltas: Seq<(Seq<char>, Double)>,
    pub zones: Seq<OrderView>,
    pub baselines: Doc,
    pub reserves: Seq<(Seq<char>, Double)>,
    pub rx_reserve: Double,
    pub keep: Double,
    pub ts_cut: Double,
}

impl DeepView for Seen {
    type V = SeenView;

    open spec fn deep_view(&self) -> SeenView {
        SeenView {
            names: self.names.deep_view(),
            full: self.full.deep_view(),
            deltas: self.deltas.deep_view(),
            zones: self.zones.deep_view(),
            baselines: self.baselines@,
            reserves: self.reserves.deep_view(),
            rx_reserve: self.rx_reserve,
            keep: self.keep,
            ts_cut: self.ts_cut,
        }
    }
}

/// Among the first `n` venues.
pub open spec fn find_full_spec(
    exch: Seq<char>,
    xs: Seq<(Seq<char>, Option<Seq<(Seq<char>, Balance)>>)>,
    out: Option<Seq<(Seq<char>, Balance)>>,
    n: nat,
) -> Option<Seq<(Seq<char>, Balance)>>
    decreases n,
{
    if n == 0 {
        out
    } else {
        let out = find_full_spec(exch, xs, out, (n - 1) as nat);
        let it = xs[n - 1];
        let k = it.0;
        let v = it.1;
        if k == exch {
            v
        } else {
            out
        }
    }
}

fn find_full(
    exch: &str,
    xs: &Vec<(String, Option<Vec<(String, Balance)>>)>,
    out: Option<Vec<(String, Balance)>>,
) -> (r: Option<Vec<(String, Balance)>>)
    ensures
        r.deep_view() == find_full_spec(exch@, xs.deep_view(), out.deep_view(), xs@.len()),
{
    let ghost out0 = out.deep_view();
    let mut out = out;
    let mut i: usize = 0;
    while i < xs.len()
        invariant
            i <= xs@.len(),
            out.deep_view() == find_full_spec(exch@, xs.deep_view(), out0, i as nat),
        decreases xs@.len() - i,
    {
        let it = &xs[i];
        let k = it.0.as_str();
        let v = &it.1;
        if text::same(k, exch) {
            out = v.dup();
        }
        i = i + 1;
    }
    out
}

/// A venue's book, where it could be read.
pub open spec fn book_of_spec(
    full: Seq<(Seq<char>, Option<Seq<(Seq<char>, Balance)>>)>,
    exch: Seq<char>,
) -> Option<Seq<(Seq<char>, Balance)>> {
    let out: Option<Seq<(Seq<char>, Balance)>> = None;
    find_full_spec(exch, full, out, full.len())
}

/// A venue's book, where it could be read.
pub fn book_of(
    full: &Vec<(String, Option<Vec<(String, Balance)>>)>,
    exch: &str,
) -> (r: Option<Vec<(String, Balance)>>)
    ensures
        r.deep_view() == book_of_spec(full.deep_view(), exch@),
{
    let mut out: Option<Vec<(String, Balance)>> = None;
    out = find_full(exch, full, out);
    out
}

/// Among the first `n` of them.
pub open spec fn see_tranche_spec(
    exch: Seq<char>,
    xs: Seq<TrancheView>,
    out: bool,
    n: nat,
) -> bool {
    out || list::some(xs, |t: TrancheView| t.exch == exch, n)
}

fn see_tranche(exch: &str, xs: &Vec<Tranche>, out: bool) -> (r: bool)
    ensures
        r == see_tranche_spec(exch@, xs.deep_view(), out, xs@.len()),
{
    let ghost out0 = out;
    let mut out = out;
    let mut i: usize = 0;
    while i < xs.len()
        invariant
            i <= xs@.len(),
            out == see_tranche_spec(exch@, xs.deep_view(), out0, i as nat),
        decreases xs@.len() - i,
    {
        let t = &xs[i];
        if text::same(t.exch.as_str(), exch) {
            out = true;
        }
        assert(xs.deep_view()[i as int] == xs@[i as int].deep_view());
        assert(out == see_tranche_spec(exch@, xs.deep_view(), out0, (i + 1) as nat));
        i = i + 1;
    }
    out
}

/// Whether a venue is among some sums.
pub open spec fn in_tranches_spec(ts: Seq<TrancheView>, exch: Seq<char>) -> bool {
    see_tranche_spec(exch, ts, false, ts.len())
}

fn in_tranches(ts: &Vec<Tranche>, exch: &str) -> (r: bool)
    ensures
        r == in_tranches_spec(ts.deep_view(), exch@),
{
    let mut out = false;
    out = see_tranche(exch, ts, out);
    out
}

/// Among the first `n` of them.
pub open spec fn see_sweep_spec(exch: Seq<char>, xs: Seq<SweepView>, out: bool, n: nat) -> bool {
    out || list::some(xs, |s: SweepView| s.exch == exch, n)
}

fn see_sweep(exch: &str, xs: &Vec<Sweep>, out: bool) -> (r: bool)
    ensures
        r == see_sweep_spec(exch@, xs.deep_view(), out, xs@.len()),
{
    let ghost out0 = out;
    let mut out = out;
    let mut i: usize = 0;
    while i < xs.len()
        invariant
            i <= xs@.len(),
            out == see_sweep_spec(exch@, xs.deep_view(), out0, i as nat),
        decreases xs@.len() - i,
    {
        let s = &xs[i];
        if text::same(s.exch.as_str(), exch) {
            out = true;
        }
        assert(xs.deep_view()[i as int] == xs@[i as int].deep_view());
        assert(out == see_sweep_spec(exch@, xs.deep_view(), out0, (i + 1) as nat));
        i = i + 1;
    }
    out
}

/// Whether a venue is swept.
pub open spec fn in_sweeps_spec(ss: Seq<SweepView>, exch: Seq<char>) -> bool {
    see_sweep_spec(exch, ss, false, ss.len())
}

fn in_sweeps(ss: &Vec<Sweep>, exch: &str) -> (r: bool)
    ensures
        r == in_sweeps_spec(ss.deep_view(), exch@),
{
    let mut out = false;
    out = see_sweep(exch, ss, out);
    out
}

/// Of the first `n` zones.
pub open spec fn add_venue_zone_spec(
    exch: Seq<char>,
    xs: Seq<OrderView>,
    out: Seq<OrderView>,
    n: nat,
) -> Seq<OrderView> {
    out + list::kept(xs, |o: OrderView| o.exch == exch && deploy::truthy_int_spec(o.rung), n)
}

fn add_venue_zone(exch: &str, xs: &Vec<Order>, out: Vec<Order>) -> (r: Vec<Order>)
    ensures
        r.deep_view() == add_venue_zone_spec(exch@, xs.deep_view(), out.deep_view(), xs@.len()),
{
    let ghost out0 = out.deep_view();
    let mut out = out;
    let mut i: usize = 0;
    while i < xs.len()
        invariant
            i <= xs@.len(),
            out.deep_view() == add_venue_zone_spec(exch@, xs.deep_view(), out0, i as nat),
        decreases xs@.len() - i,
    {
        let o = &xs[i];
        if text::same(o.exch.as_str(), exch) && deploy::truthy_int(o.rung) {
            list::push(&mut out, o.dup());
        }
        assert(out.deep_view() =~= add_venue_zone_spec(
            exch@,
            xs.deep_view(),
            out0,
            (i + 1) as nat,
        ));
        i = i + 1;
    }
    out
}

/// The zones on a venue.
pub open spec fn venue_zones_spec(zones: Seq<OrderView>, exch: Seq<char>) -> Seq<OrderView> {
    add_venue_zone_spec(exch, zones, Seq::<OrderView>::empty(), zones.len())
}

fn venue_zones(zones: &Vec<Order>, exch: &str) -> (r: Vec<Order>)
    ensures
        r.deep_view() == venue_zones_spec(zones.deep_view(), exch@),
{
    let mut out: Vec<Order> = list::none();
    out = add_venue_zone(exch, zones, out);
    out
}

/// Of the first `n` zones.
pub open spec fn add_zoned_spec(xs: Seq<OrderView>, out: Seq<Seq<char>>, n: nat) -> Seq<Seq<char>> {
    out + Seq::new(
        n,
        |i: int| {
            let o = xs[i];
            o.sym
        },
    )
}

fn add_zoned(xs: &Vec<Order>, out: Vec<String>) -> (r: Vec<String>)
    ensures
        r.deep_view() == add_zoned_spec(xs.deep_view(), out.deep_view(), xs@.len()),
{
    let ghost out0 = out.deep_view();
    let mut out = out;
    let mut i: usize = 0;
    while i < xs.len()
        invariant
            i <= xs@.len(),
            out.deep_view() == add_zoned_spec(xs.deep_view(), out0, i as nat),
        decreases xs@.len() - i,
    {
        let o = &xs[i];
        list::push(&mut out, text::owned(o.sym.as_str()));
        assert(out.deep_view() =~= add_zoned_spec(xs.deep_view(), out0, (i + 1) as nat));
        i = i + 1;
    }
    out
}

/// The coins of some zones.
pub open spec fn zoned_coins_spec(zones: Seq<OrderView>) -> Seq<Seq<char>> {
    add_zoned_spec(zones, Seq::<Seq<char>>::empty(), zones.len())
}

fn zoned_coins(zones: &Vec<Order>) -> (r: Vec<String>)
    ensures
        r.deep_view() == zoned_coins_spec(zones.deep_view()),
{
    let mut out: Vec<String> = list::none();
    out = add_zoned(zones, out);
    out
}

/// Of the first `n` coins.
pub open spec fn add_bare_spec(
    zoned: Seq<Seq<char>>,
    xs: Seq<Seq<char>>,
    out: Seq<Seq<char>>,
    n: nat,
) -> Seq<Seq<char>>
    decreases n,
{
    if n == 0 {
        out
    } else {
        let out = add_bare_spec(zoned, xs, out, (n - 1) as nat);
        let s = xs[n - 1];
        if !zoned.contains(s) && !out.contains(s) {
            out.push(s)
        } else {
            out
        }
    }
}

fn add_bare(zoned: &Vec<String>, xs: &Vec<String>, out: Vec<String>) -> (r: Vec<String>)
    ensures
        r.deep_view() == add_bare_spec(
            zoned.deep_view(),
            xs.deep_view(),
            out.deep_view(),
            xs@.len(),
        ),
{
    let ghost out0 = out.deep_view();
    let mut out = out;
    let mut i: usize = 0;
    while i < xs.len()
        invariant
            i <= xs@.len(),
            out.deep_view() == add_bare_spec(zoned.deep_view(), xs.deep_view(), out0, i as nat),
        decreases xs@.len() - i,
    {
        let s = xs[i].as_str();
        if !list::holds(zoned, s) && !list::holds(&out, s) {
            list::push(&mut out, text::owned(s));
        }
        i = i + 1;
    }
    out
}

/// The coins of a venue that have no zones, by name.
pub open spec fn bare_coins_spec(
    cfg: ConfigView,
    exch: Seq<char>,
    zones: Seq<OrderView>,
) -> Seq<Seq<char>> {
    let out = Seq::<Seq<char>>::empty();
    let zoned = zoned_coins_spec(venue_zones_spec(zones, exch));
    let out = add_bare_spec(
        zoned,
        deploy::venue_syms_spec(cfg, exch),
        out,
        deploy::venue_syms_spec(cfg, exch).len(),
    );
    list::sorted_texts(out)
}

fn bare_coins(cfg: &Config, exch: &str, zones: &Vec<Order>) -> (r: Vec<String>)
    ensures
        r.deep_view() == bare_coins_spec(cfg.deep_view(), exch@, zones.deep_view()),
{
    let mut out: Vec<String> = list::none();
    let zoned = zoned_coins(&venue_zones(zones, exch));
    out = add_bare(&zoned, &deploy::venue_syms(cfg, exch), out);
    list::sort_texts(&out)
}

/// Of the first `n` of them.
pub open spec fn add_freed_spec(
    exch: Seq<char>,
    xs: Seq<OrderView>,
    out: Seq<OrderView>,
    n: nat,
) -> Seq<OrderView> {
    out + list::kept(xs, |o: OrderView| o.exch == exch, n)
}

fn add_freed(exch: &str, xs: &Vec<Order>, out: Vec<Order>) -> (r: Vec<Order>)
    ensures
        r.deep_view() == add_freed_spec(exch@, xs.deep_view(), out.deep_view(), xs@.len()),
{
    let ghost out0 = out.deep_view();
    let mut out = out;
    let mut i: usize = 0;
    while i < xs.len()
        invariant
            i <= xs@.len(),
            out.deep_view() == add_freed_spec(exch@, xs.deep_view(), out0, i as nat),
        decreases xs@.len() - i,
    {
        let o = &xs[i];
        if text::same(o.exch.as_str(), exch) {
            list::push(&mut out, o.dup());
        }
        assert(out.deep_view() =~= add_freed_spec(exch@, xs.deep_view(), out0, (i + 1) as nat));
        i = i + 1;
    }
    out
}

/// The zones a venue cancelled whose cash was not re-laddered.
pub open spec fn freed_rows_spec(rows: Seq<OrderView>, exch: Seq<char>) -> Seq<OrderView> {
    add_freed_spec(
        exch,
        journal::unswept_rows_spec(rows, Some("deploy_buy"@)),
        Seq::<OrderView>::empty(),
        journal::unswept_rows_spec(rows, Some("deploy_buy"@)).len(),
    )
}

fn freed_rows(rows: &Vec<Order>, exch: &str) -> (r: Vec<Order>)
    ensures
        r.deep_view() == freed_rows_spec(rows.deep_view(), exch@),
{
    let mut out: Vec<Order> = list::none();
    out = add_freed(exch, &journal::unswept_rows(rows, Some("deploy_buy")), out);
    out
}

/// Of the first `n` zones.
pub open spec fn add_unspent_spec(xs: Seq<OrderView>, out: Seq<Double>, n: nat) -> Seq<Double> {
    out + Seq::new(
        n,
        |i: int| {
            let o = xs[i];
            (match o.quote {
                Some(v) => v,
                None => Double::zero_spec(),
            }).sub_spec(
                match o.part_quote {
                    Some(v) => v,
                    None => Double::zero_spec(),
                },
            )
        },
    )
}

fn add_unspent(xs: &Vec<Order>, out: Vec<Double>) -> (r: Vec<Double>)
    ensures
        r.deep_view() == add_unspent_spec(xs.deep_view(), out.deep_view(), xs@.len()),
{
    let ghost out0 = out.deep_view();
    let mut out = out;
    let mut i: usize = 0;
    while i < xs.len()
        invariant
            i <= xs@.len(),
            out.deep_view() == add_unspent_spec(xs.deep_view(), out0, i as nat),
        decreases xs@.len() - i,
    {
        let o = &xs[i];
        list::push(
            &mut out,
            (match o.quote {
                Some(v) => v,
                None => Double::zero(),
            }).minus(
                match o.part_quote {
                    Some(v) => v,
                    None => Double::zero(),
                },
            ),
        );
        assert(out.deep_view() =~= add_unspent_spec(xs.deep_view(), out0, (i + 1) as nat));
        i = i + 1;
    }
    out
}

/// What each of some zones did not spend.
pub open spec fn unspent_quotes_spec(rows: Seq<OrderView>) -> Seq<Double> {
    add_unspent_spec(rows, Seq::<Double>::empty(), rows.len())
}

fn unspent_quotes(rows: &Vec<Order>) -> (r: Vec<Double>)
    ensures
        r.deep_view() == unspent_quotes_spec(rows.deep_view()),
{
    let mut out: Vec<Double> = list::none();
    out = add_unspent(rows, out);
    out
}

/// Of the first `n` zones.
pub open spec fn add_resting_quote_spec(
    xs: Seq<OrderView>,
    out: Seq<Double>,
    n: nat,
) -> Seq<Double> {
    out + Seq::new(
        n,
        |i: int| {
            let o = xs[i];
            (match o.quote {
                Some(v) => v,
                None => Double::zero_spec(),
            }).sub_spec(
                match o.part_quote {
                    Some(v) => v,
                    None => Double::zero_spec(),
                },
            ).max_spec(
                Double::zero_spec(),
            )
        },
    )
}

fn add_resting_quote(xs: &Vec<Order>, out: Vec<Double>) -> (r: Vec<Double>)
    ensures
        r.deep_view() == add_resting_quote_spec(xs.deep_view(), out.deep_view(), xs@.len()),
{
    let ghost out0 = out.deep_view();
    let mut out = out;
    let mut i: usize = 0;
    while i < xs.len()
        invariant
            i <= xs@.len(),
            out.deep_view() == add_resting_quote_spec(xs.deep_view(), out0, i as nat),
        decreases xs@.len() - i,
    {
        let o = &xs[i];
        list::push(
            &mut out,
            (match o.quote {
                Some(v) => v,
                None => Double::zero(),
            }).minus(
                match o.part_quote {
                    Some(v) => v,
                    None => Double::zero(),
                },
            ).max(
                Double::zero(),
            ),
        );
        assert(out.deep_view() =~= add_resting_quote_spec(xs.deep_view(), out0, (i + 1) as nat));
        i = i + 1;
    }
    out
}

/// What each of some zones still has to spend.
pub open spec fn resting_quotes_spec(rows: Seq<OrderView>) -> Seq<Double> {
    add_resting_quote_spec(rows, Seq::<Double>::empty(), rows.len())
}

fn resting_quotes(rows: &Vec<Order>) -> (r: Vec<Double>)
    ensures
        r.deep_view() == resting_quotes_spec(rows.deep_view()),
{
    let mut out: Vec<Double> = list::none();
    out = add_resting_quote(rows, out);
    out
}

/// Of the first `n` rows.
pub open spec fn add_id_spec(xs: Seq<OrderView>, out: Seq<Seq<char>>, n: nat) -> Seq<Seq<char>> {
    out + Seq::new(
        n,
        |i: int| {
            let o = xs[i];
            o.client_id
        },
    )
}

fn add_id(xs: &Vec<Order>, out: Vec<String>) -> (r: Vec<String>)
    ensures
        r.deep_view() == add_id_spec(xs.deep_view(), out.deep_view(), xs@.len()),
{
    let ghost out0 = out.deep_view();
    let mut out = out;
    let mut i: usize = 0;
    while i < xs.len()
        invariant
            i <= xs@.len(),
            out.deep_view() == add_id_spec(xs.deep_view(), out0, i as nat),
        decreases xs@.len() - i,
    {
        let o = &xs[i];
        list::push(&mut out, text::owned(o.client_id.as_str()));
        assert(out.deep_view() =~= add_id_spec(xs.deep_view(), out0, (i + 1) as nat));
        i = i + 1;
    }
    out
}

/// The client ids of some rows.
pub open spec fn ids_of_spec(rows: Seq<OrderView>) -> Seq<Seq<char>> {
    add_id_spec(rows, Seq::<Seq<char>>::empty(), rows.len())
}

fn ids_of(rows: &Vec<Order>) -> (r: Vec<String>)
    ensures
        r.deep_view() == ids_of_spec(rows.deep_view()),
{
    let mut out: Vec<String> = list::none();
    out = add_id(rows, out);
    out
}

/// When a venue last could not be laddered.
pub open spec fn stuck_since_spec(st: Doc, k: Seq<char>, exch: Seq<char>) -> Double {
    match st.get(k) {
        Some(s) => deploy::num_or_zero_spec(s.get(exch)),
        None => Double::zero_spec(),
    }
}

fn stuck_since(st: &Json, k: &str, exch: &str) -> (r: Double)
    ensures
        r == stuck_since_spec(st@, k@, exch@),
{
    let s = match st.get(k) {
        Some(v) => v,
        None => {
            return Double::zero();
        },
    };
    deploy::num_or_zero(s.get(exch))
}

/// What is new on a venue: a tranche, dust that is carried, or nothing.
pub open spec fn see_capital_spec(
    w: WorkView,
    cfg: ConfigView,
    seen: SeenView,
    exch: Seq<char>,
    q: Seq<char>,
    b: Balance,
    p: PassView,
) -> (WorkView, PassView) {
    let total = b.free.add_spec(b.locked);
    let expected = deploy::num_or_zero_spec(seen.baselines.get(exch)).add_spec(
        deploy::free_in_spec(seen.deltas, exch),
    );
    let unexplained = total.sub_spec(expected);
    let held = deploy::free_in_spec(seen.reserves, exch);
    let tranche = unexplained.min_spec(cfg.deploy_max_tranche_usd).min_spec(
        b.free.sub_spec(held).max_spec(Double::zero_spec()),
    );
    if cfg.deploy_min_usd.le_spec(unexplained) && cfg.deploy_min_usd.le_spec(tranche) {
        let p = PassView {
            tranches: p.tranches.push(TrancheView { exch, quote: q, amount: tranche }),
            ..p
        };
        let p = PassView {
            baseline: p.baseline.set(
                exch,
                Doc::Float(total.sub_spec(unexplained.sub_spec(tranche))),
            ),
            ..p
        };
        if !held.eq_spec(Double::zero_spec()) {
            (
                deploy::warn_spec(
                    w,
                    "holding $"@
                        + pyfmt::fixed_spec(held, 2)
                        + " free on "@
                        + exch
                        + " for the pending Gate top-up — laddered $"@
                        + pyfmt::fixed_spec(tranche, 2)
                        + " of $"@
                        + pyfmt::fixed_spec(unexplained, 2)
                        + " new capital"@,
                ),
                p,
            )
        } else {
            (w, p)
        }
    } else if Double::zero_spec().lt_spec(unexplained) {
        let p = PassView { baseline: p.baseline.set(exch, Doc::Float(expected)), ..p };
        if !held.eq_spec(Double::zero_spec()) && cfg.deploy_min_usd.le_spec(unexplained) {
            (
                deploy::warn_spec(
                    w,
                    "$"@
                        + pyfmt::fixed_spec(unexplained, 2)
                        + " new capital on "@
                        + exch
                        + " left UNDEPLOYED — $"@
                        + pyfmt::fixed_spec(held, 2)
                        + " is reserved for the pending Gate top-up. Send it; the rest ladders on the next run."@,
                ),
                p,
            )
        } else {
            (w, p)
        }
    } else {
        let p = PassView { baseline: p.baseline.set(exch, Doc::Float(total)), ..p };
        (w, p)
    }
}

fn see_capital(
    w: Work,
    cfg: &Config,
    seen: &Seen,
    exch: &str,
    q: &str,
    b: Balance,
    p: Pass,
) -> (r: (Work, Pass))
    ensures
        r.deep_view() == see_capital_spec(
            w.deep_view(),
            cfg.deep_view(),
            seen.deep_view(),
            exch@,
            q@,
            b,
            p.deep_view(),
        ),
{
    let mut p = p;
    let total = b.free.plus(b.locked);
    let expected = deploy::num_or_zero(seen.baselines.get(exch)).plus(
        deploy::free_in(&seen.deltas, exch),
    );
    let unexplained = total.minus(expected);
    let held = deploy::free_in(&seen.reserves, exch);
    let tranche = unexplained.min(cfg.deploy_max_tranche_usd).min(
        b.free.minus(held).max(Double::zero()),
    );
    if cfg.deploy_min_usd.le(unexplained) && cfg.deploy_min_usd.le(tranche) {
        list::push(
            &mut p.tranches,
            Tranche { exch: text::owned(exch), quote: text::owned(q), amount: tranche },
        );
        p.baseline.set(exch, Json::Float(total.minus(unexplained.minus(tranche))));
        if !held.same(Double::zero()) {
            let mut line = text::owned("holding $");
            line.push_str(pyfmt::fixed(held, 2).as_str());
            line.push_str(" free on ");
            line.push_str(exch);
            line.push_str(" for the pending Gate top-up — laddered $");
            line.push_str(pyfmt::fixed(tranche, 2).as_str());
            line.push_str(" of $");
            line.push_str(pyfmt::fixed(unexplained, 2).as_str());
            line.push_str(" new capital");
            return (deploy::warn(w, line), p);
        }
        return (w, p);
    }
    if Double::zero().lt(unexplained) {
        p.baseline.set(exch, Json::Float(expected));
        if !held.same(Double::zero()) && cfg.deploy_min_usd.le(unexplained) {
            let mut line2 = text::owned("$");
            line2.push_str(pyfmt::fixed(unexplained, 2).as_str());
            line2.push_str(" new capital on ");
            line2.push_str(exch);
            line2.push_str(" left UNDEPLOYED — $");
            line2.push_str(pyfmt::fixed(held, 2).as_str());
            line2.push_str(
                " is reserved for the pending Gate top-up. Send it; the rest ladders on the next run.",
            );
            return (deploy::warn(w, line2), p);
        }
        return (w, p);
    }
    p.baseline.set(exch, Json::Float(total));
    (w, p)
}

/// How a sweep reads.
pub open spec fn sweep_line_spec(
    exch: Seq<char>,
    q: Seq<char>,
    idle: Double,
    bare: Seq<Seq<char>>,
) -> Seq<char> {
    let what = if bare.len() == 0 {
        "the whole venue"@
    } else {
        text::join_of(bare, ", "@) + " (coins without zones)"@
    };
    "DEPLOY sweep: $"@
        + pyfmt::fixed_spec(idle, 2)
        + " "@
        + q
        + " sitting FREE on "@
        + exch
        + " with no new capital behind it (a zone was cancelled venue-side or left over) -> re-laddering "@
        + what
}

fn sweep_line(exch: &str, q: &str, idle: Double, bare: &Vec<String>) -> (r: String)
    ensures
        r@ == sweep_line_spec(exch@, q@, idle, bare.deep_view()),
{
    let what = if bare.len() == 0 {
        text::owned("the whole venue")
    } else {
        let mut line = list::join(bare, ", ");
        line.push_str(" (coins without zones)");
        line
    };
    let mut line2 = text::owned("DEPLOY sweep: $");
    line2.push_str(pyfmt::fixed(idle, 2).as_str());
    line2.push_str(" ");
    line2.push_str(q);
    line2.push_str(" sitting FREE on ");
    line2.push_str(exch);
    line2.push_str(
        " with no new capital behind it (a zone was cancelled venue-side or left over) -> re-laddering ",
    );
    line2.push_str(what.as_str());
    line2
}

/// Idle cash on a venue: what it freed by cancelling zones, with no new capital behind it.
pub open spec fn see_idle_spec(
    w: WorkView,
    cfg: ConfigView,
    seen: SeenView,
    exch: Seq<char>,
    q: Seq<char>,
    b: Balance,
    p: PassView,
) -> (WorkView, PassView) {
    let total = b.free.add_spec(b.locked);
    let unexplained = total.sub_spec(
        deploy::num_or_zero_spec(seen.baselines.get(exch)).add_spec(
            deploy::free_in_spec(seen.deltas, exch),
        ),
    );
    let freed = freed_rows_spec(journal::rows_alone(w.journal), exch);
    let idle = b.free.sub_spec(deploy::free_in_spec(seen.reserves, exch)).min_spec(
        crate::watch::pyfmt::sum_spec(unspent_quotes_spec(freed)),
    );
    if !(cfg.deploy_sweep_idle
        && unexplained.lt_spec(cfg.deploy_min_usd)
        && cfg.deploy_min_usd.le_spec(idle)
        && Double::int_spec(86400).le_spec(
            seen.ts_cut.sub_spec(stuck_since_spec(w.st, "sweep_stuck"@, exch)),
        )) {
        (w, p)
    } else {
        let bare = bare_coins_spec(cfg, exch, seen.zones);
        let line = sweep_line_spec(exch, q, idle, bare);
        let only: Option<Seq<Seq<char>>> = None;
        let only = if !(bare.len() == 0) {
            Some(bare)
        } else {
            only
        };
        let p = PassView {
            sweeps: p.sweeps.push(
                SweepView { exch, quote: q, idle, only, freed: ids_of_spec(freed) },
            ),
            ..p
        };
        let p = PassView { baseline: p.baseline.set(exch, Doc::Float(total)), ..p };
        (deploy::say_done_spec(w, None, None, true, line), p)
    }
}

fn see_idle(
    w: Work,
    cfg: &Config,
    seen: &Seen,
    exch: &str,
    q: &str,
    b: Balance,
    p: Pass,
) -> (r: (Work, Pass))
    ensures
        r.deep_view() == see_idle_spec(
            w.deep_view(),
            cfg.deep_view(),
            seen.deep_view(),
            exch@,
            q@,
            b,
            p.deep_view(),
        ),
{
    let mut p = p;
    let total = b.free.plus(b.locked);
    let unexplained = total.minus(
        deploy::num_or_zero(seen.baselines.get(exch)).plus(deploy::free_in(&seen.deltas, exch)),
    );
    let freed = freed_rows(&&w.journal.rows(), exch);
    let idle = b.free.minus(deploy::free_in(&seen.reserves, exch)).min(
        list::sum(&unspent_quotes(&freed)),
    );
    if !(cfg.deploy_sweep_idle
        && unexplained.lt(cfg.deploy_min_usd)
        && cfg.deploy_min_usd.le(idle)
        && Double::of_int(86400).le(seen.ts_cut.minus(stuck_since(&w.st, "sweep_stuck", exch)))) {
        return (w, p);
    }
    let bare = bare_coins(cfg, exch, &seen.zones);
    let line = sweep_line(exch, q, idle, &bare);
    let mut only: Option<Vec<String>> = None;
    if !(bare.len() == 0) {
        only = Some(bare);
    }
    list::push(
        &mut p.sweeps,
        Sweep {
            exch: text::owned(exch),
            quote: text::owned(q),
            idle,
            only,
            freed: ids_of(&freed),
        },
    );
    p.baseline.set(exch, Json::Float(total));
    (deploy::say_done(w, list::text_ref(&None), list::text_ref(&None), true, line), p)
}

/// A venue with a baseline.
pub open spec fn see_known_spec(
    w: WorkView,
    cfg: ConfigView,
    seen: SeenView,
    exch: Seq<char>,
    q: Seq<char>,
    b: Balance,
    p: PassView,
) -> (WorkView, PassView) {
    let (v, p1) = see_capital_spec(w, cfg, seen, exch, q, b, p);
    see_idle_spec(v, cfg, seen, exch, q, b, p1)
}

fn see_known(
    w: Work,
    cfg: &Config,
    seen: &Seen,
    exch: &str,
    q: &str,
    b: Balance,
    p: Pass,
) -> (r: (Work, Pass))
    ensures
        r.deep_view() == see_known_spec(
            w.deep_view(),
            cfg.deep_view(),
            seen.deep_view(),
            exch@,
            q@,
            b,
            p.deep_view(),
        ),
{
    let (v, p1) = see_capital(w, cfg, seen, exch, q, b, p);
    see_idle(v, cfg, seen, exch, q, b, p1)
}

/// A venue's capital; a cold start records the baseline without deploying.
pub open spec fn see_venue_spec(
    w: WorkView,
    cfg: ConfigView,
    seen: SeenView,
    exch: Seq<char>,
    q: Seq<char>,
    b: Balance,
    p: PassView,
) -> (WorkView, PassView) {
    if seen.baselines.get(exch) is Some {
        see_known_spec(w, cfg, seen, exch, q, b, p)
    } else {
        let total = b.free.add_spec(b.locked);
        let p = PassView { baseline: p.baseline.set(exch, Doc::Float(total)), ..p };
        (
            deploy::done_spec(
                w,
                "DEPLOY baseline initialized: "@
                    + exch
                    + " "@
                    + q
                    + " $"@
                    + pyfmt::fixed_spec(total, 2)
                    + " — deposits from now on auto-ladder into buy zones"@,
            ),
            p,
        )
    }
}

fn see_venue(
    w: Work,
    cfg: &Config,
    seen: &Seen,
    exch: &str,
    q: &str,
    b: Balance,
    p: Pass,
) -> (r: (Work, Pass))
    ensures
        r.deep_view() == see_venue_spec(
            w.deep_view(),
            cfg.deep_view(),
            seen.deep_view(),
            exch@,
            q@,
            b,
            p.deep_view(),
        ),
{
    let mut p = p;
    if seen.baselines.contains_key(exch) {
        return see_known(w, cfg, seen, exch, q, b, p);
    }
    let total = b.free.plus(b.locked);
    p.baseline.set(exch, Json::Float(total));
    let mut line = text::owned("DEPLOY baseline initialized: ");
    line.push_str(exch);
    line.push_str(" ");
    line.push_str(q);
    line.push_str(" $");
    line.push_str(pyfmt::fixed(total, 2).as_str());
    line.push_str(" — deposits from now on auto-ladder into buy zones");
    (deploy::done(w, line), p)
}

/// The withhold: the onramp venue is re-laddered lighter so that the transfer can leave.
pub open spec fn see_withhold_spec(
    w: WorkView,
    cfg: ConfigView,
    seen: SeenView,
    exch: Seq<char>,
    q: Seq<char>,
    b: Balance,
    u: Balance,
    p: PassView,
) -> (WorkView, PassView) {
    if !(exch == "revx"@
        && seen.baselines.get(exch) is Some
        && Double::zero_spec().lt_spec(seen.rx_reserve)
        && !in_tranches_spec(p.tranches, exch)
        && !in_sweeps_spec(p.sweeps, exch)) {
        (w, p)
    } else {
        let free_stable = b.free.add_spec(u.free.add_spec(u.locked));
        let zones = venue_zones_spec(seen.zones, exch);
        let short = seen.rx_reserve.sub_spec(free_stable).min_spec(
            crate::watch::pyfmt::sum_spec(resting_quotes_spec(zones)),
        );
        if !(cfg.deploy_min_usd.le_spec(short)
            && !(zones.len() == 0)
            && Double::int_spec(86400).le_spec(
                seen.ts_cut.sub_spec(stuck_since_spec(w.st, "withhold_stuck"@, exch)),
            )) {
            (w, p)
        } else {
            let p = PassView {
                withholds: p.withholds.push(TrancheView { exch, quote: q, amount: short }),
                ..p
            };
            (
                deploy::say_done_spec(
                    w,
                    None,
                    None,
                    true,
                    "DEPLOY withhold on "@
                        + exch
                        + ": Gate top-up $"@
                        + pyfmt::fixed_spec(seen.rx_reserve, 2)
                        + " due but only $"@
                        + pyfmt::fixed_spec(free_stable, 2)
                        + " free -> re-laddering the venue $"@
                        + pyfmt::fixed_spec(short, 2)
                        + " lighter so it can leave as USDC"@,
                ),
                p,
            )
        }
    }
}

fn see_withhold(
    w: Work,
    cfg: &Config,
    seen: &Seen,
    exch: &str,
    q: &str,
    b: Balance,
    u: Balance,
    p: Pass,
) -> (r: (Work, Pass))
    ensures
        r.deep_view() == see_withhold_spec(
            w.deep_view(),
            cfg.deep_view(),
            seen.deep_view(),
            exch@,
            q@,
            b,
            u,
            p.deep_view(),
        ),
{
    let mut p = p;
    if !(text::same(exch, "revx")
        && seen.baselines.contains_key(exch)
        && Double::zero().lt(seen.rx_reserve)
        && !in_tranches(&p.tranches, exch)
        && !in_sweeps(&p.sweeps, exch)) {
        return (w, p);
    }
    let free_stable = b.free.plus(u.free.plus(u.locked));
    let zones = venue_zones(&seen.zones, exch);
    let short = seen.rx_reserve.minus(free_stable).min(list::sum(&resting_quotes(&zones)));
    if !(cfg.deploy_min_usd.le(short)
        && !(zones.len() == 0)
        && Double::of_int(86400).le(seen.ts_cut.minus(stuck_since(&w.st, "withhold_stuck", exch)))) {
        return (w, p);
    }
    list::push(
        &mut p.withholds,
        Tranche { exch: text::owned(exch), quote: text::owned(q), amount: short },
    );
    let mut line = text::owned("DEPLOY withhold on ");
    line.push_str(exch);
    line.push_str(": Gate top-up $");
    line.push_str(pyfmt::fixed(seen.rx_reserve, 2).as_str());
    line.push_str(" due but only $");
    line.push_str(pyfmt::fixed(free_stable, 2).as_str());
    line.push_str(" free -> re-laddering the venue $");
    line.push_str(pyfmt::fixed(short, 2).as_str());
    line.push_str(" lighter so it can leave as USDC");
    (deploy::say_done(w, list::text_ref(&None), list::text_ref(&None), true, line), p)
}

/// How much more there is than at the last run.
pub open spec fn new_offquote_spec(off: Doc, key: Seq<char>, total: Double) -> Option<Double> {
    match off.get(key) {
        Some(v) => Some(
            total.sub_spec(
                match v.num() {
                    Some(v) => v,
                    None => Double::zero_spec(),
                },
            ),
        ),
        None => None,
    }
}

fn new_offquote(off: &Json, key: &str, total: Double) -> (r: Option<Double>)
    ensures
        r == new_offquote_spec(off@, key@, total),
{
    let v = match off.get(key) {
        Some(v) => v,
        None => {
            return None;
        },
    };
    Some(
        total.minus(
            match v.num() {
                Some(v) => v,
                None => Double::zero(),
            },
        ),
    )
}

/// The other stable on a venue: new money in it is pointed out.
pub open spec fn see_offquote_spec(
    w: WorkView,
    cfg: ConfigView,
    seen: SeenView,
    exch: Seq<char>,
    q: Seq<char>,
    book: Seq<(Seq<char>, Balance)>,
    p: PassView,
) -> (WorkView, PassView) {
    let oq = if q == "USDC"@ {
        "USDT"@
    } else {
        "USDC"@
    };
    let ob = deploy::held_of_spec(book, oq);
    let total = ob.free.add_spec(ob.locked);
    let key = exch + ":"@ + oq;
    let landed = new_offquote_spec(p.offquote, key, total);
    let p = PassView { offquote: p.offquote.set(key, Doc::Float(total)), ..p };
    match landed {
        Some(more) => if cfg.deploy_min_usd.le_spec(more)
            && !(exch == "revx"@ && total.le_spec(seen.keep.add_spec(cfg.deploy_min_usd))) {
            (
                deploy::warn_spec(
                    w,
                    "$"@
                        + pyfmt::fixed_spec(more, 2)
                        + " "@
                        + oq
                        + " landed on "@
                        + exch
                        + ", but its pairs are "@
                        + q
                        + "-quoted — convert to "@
                        + q
                        + " for auto-deploy"@,
                ),
                p,
            )
        } else {
            (w, p)
        },
        None => (w, p),
    }
}

fn see_offquote(
    w: Work,
    cfg: &Config,
    seen: &Seen,
    exch: &str,
    q: &str,
    book: &Vec<(String, Balance)>,
    p: Pass,
) -> (r: (Work, Pass))
    ensures
        r.deep_view() == see_offquote_spec(
            w.deep_view(),
            cfg.deep_view(),
            seen.deep_view(),
            exch@,
            q@,
            book.deep_view(),
            p.deep_view(),
        ),
{
    let mut p = p;
    let oq = if text::same(q, "USDC") {
        "USDT"
    } else {
        "USDC"
    };
    let ob = deploy::held_of(book, oq);
    let total = ob.free.plus(ob.locked);
    let mut key = text::owned(exch);
    key.push_str(":");
    key.push_str(oq);
    let landed = new_offquote(&p.offquote, key.as_str(), total);
    p.offquote.set(key.as_str(), Json::Float(total));
    match landed {
        Some(more) => {
            if cfg.deploy_min_usd.le(more)
                && !(text::same(exch, "revx") && total.le(seen.keep.plus(cfg.deploy_min_usd))) {
                let mut line = text::owned("$");
                line.push_str(pyfmt::fixed(more, 2).as_str());
                line.push_str(" ");
                line.push_str(oq);
                line.push_str(" landed on ");
                line.push_str(exch);
                line.push_str(", but its pairs are ");
                line.push_str(q);
                line.push_str("-quoted — convert to ");
                line.push_str(q);
                line.push_str(" for auto-deploy");
                return (deploy::warn(w, line), p);
            }
            (w, p)
        },
        None => (w, p),
    }
}

/// What is due on a venue whose book could be read.
pub open spec fn see_book_spec(
    w: WorkView,
    cfg: ConfigView,
    seen: SeenView,
    exch: Seq<char>,
    book: Seq<(Seq<char>, Balance)>,
    p: PassView,
) -> (WorkView, PassView) {
    let q = deploy::quote_of_spec(cfg, exch);
    let b = deploy::held_of_spec(book, q);
    let (w1, p1) = see_venue_spec(w, cfg, seen, exch, q, b, p);
    let (w2, p2) = see_withhold_spec(
        w1,
        cfg,
        seen,
        exch,
        q,
        b,
        deploy::held_of_spec(book, "USDC"@),
        p1,
    );
    see_offquote_spec(w2, cfg, seen, exch, q, book, p2)
}

fn see_book(
    w: Work,
    cfg: &Config,
    seen: &Seen,
    exch: &str,
    book: &Vec<(String, Balance)>,
    p: Pass,
) -> (r: (Work, Pass))
    ensures
        r.deep_view() == see_book_spec(
            w.deep_view(),
            cfg.deep_view(),
            seen.deep_view(),
            exch@,
            book.deep_view(),
            p.deep_view(),
        ),
{
    let q = deploy::quote_of(cfg, exch);
    let b = deploy::held_of(book, q.as_str());
    let (w1, p1) = see_venue(w, cfg, seen, exch, q.as_str(), b, p);
    let (w2, p2) = see_withhold(
        w1,
        cfg,
        seen,
        exch,
        q.as_str(),
        b,
        deploy::held_of(book, "USDC"),
        p1,
    );
    see_offquote(w2, cfg, seen, exch, q.as_str(), book, p2)
}

/// What is due on a venue; one that could not be read keeps its baseline.
pub open spec fn see_one_spec(
    w: WorkView,
    cfg: ConfigView,
    seen: SeenView,
    exch: Seq<char>,
    p: PassView,
) -> (WorkView, PassView) {
    match book_of_spec(seen.full, exch) {
        Some(book) => see_book_spec(w, cfg, seen, exch, book, p),
        None => match seen.baselines.get(exch) {
            Some(v) => (w, PassView { baseline: p.baseline.set(exch, v), ..p }),
            None => (w, p),
        },
    }
}

fn see_one(w: Work, cfg: &Config, seen: &Seen, exch: &str, p: Pass) -> (r: (Work, Pass))
    ensures
        r.deep_view() == see_one_spec(
            w.deep_view(),
            cfg.deep_view(),
            seen.deep_view(),
            exch@,
            p.deep_view(),
        ),
{
    let mut p = p;
    match book_of(&seen.full, exch) {
        Some(book) => see_book(w, cfg, seen, exch, &book, p),
        None => match seen.baselines.get(exch) {
            Some(v) => {
                p.baseline.set(exch, v.copy());
                (w, p)
            },
            None => (w, p),
        },
    }
}

/// Of the first `n` baselines.
pub open spec fn keep_baselines_spec(
    seen: SeenView,
    xs: Seq<(Seq<char>, Doc)>,
    p: PassView,
    n: nat,
) -> PassView
    decreases n,
{
    if n == 0 {
        p
    } else {
        let p = keep_baselines_spec(seen, xs, p, (n - 1) as nat);
        let it = xs[n - 1];
        let k = it.0;
        let v = it.1;
        if !seen.names.contains(k) && !(p.baseline.get(k) is Some) {
            PassView { baseline: p.baseline.set(k, v), ..p }
        } else {
            p
        }
    }
}

fn keep_baselines(seen: &Seen, xs: &Vec<(String, Json)>, p: Pass) -> (r: Pass)
    ensures
        r.deep_view() == keep_baselines_spec(
            seen.deep_view(),
            xs.deep_view(),
            p.deep_view(),
            xs@.len(),
        ),
{
    let ghost p0 = p.deep_view();
    let mut p = p;
    let mut i: usize = 0;
    while i < xs.len()
        invariant
            i <= xs@.len(),
            p.deep_view() == keep_baselines_spec(seen.deep_view(), xs.deep_view(), p0, i as nat),
        decreases xs@.len() - i,
    {
        let it = &xs[i];
        let k = it.0.as_str();
        let v = &it.1;
        if !list::holds(&seen.names, k) && !p.baseline.contains_key(k) {
            p.baseline.set(k, v.copy());
        }
        i = i + 1;
    }
    p
}

/// A venue with no client this run keeps its baseline: dropping it would read the venue's whole
/// balance as a cold start (or, once re-baselined, lose a deposit).
pub open spec fn keep_clientless_spec(p: PassView, seen: SeenView) -> PassView {
    keep_baselines_spec(seen, seen.baselines.entries(), p, seen.baselines.entries().len())
}

fn keep_clientless(p: Pass, seen: &Seen) -> (r: Pass)
    ensures
        r.deep_view() == keep_clientless_spec(p.deep_view(), seen.deep_view()),
{
    let mut p = p;
    p = keep_baselines(seen, &json::entries(&seen.baselines), p);
    p
}

/// The first `n` venues.
pub open spec fn see_each_spec(
    cfg: ConfigView,
    seen: SeenView,
    xs: Seq<Seq<char>>,
    w: WorkView,
    p: PassView,
    n: nat,
) -> (WorkView, PassView)
    decreases n,
{
    if n == 0 {
        (w, p)
    } else {
        let (w, p) = see_each_spec(cfg, seen, xs, w, p, (n - 1) as nat);
        let exch = xs[n - 1];
        let (w1, p1) = see_one_spec(w, cfg, seen, exch, p);
        (w1, p1)
    }
}

fn see_each(cfg: &Config, seen: &Seen, xs: &Vec<String>, w: Work, p: Pass) -> (r: (Work, Pass))
    ensures
        r.deep_view() == see_each_spec(
            cfg.deep_view(),
            seen.deep_view(),
            xs.deep_view(),
            w.deep_view(),
            p.deep_view(),
            xs@.len(),
        ),
{
    let ghost w0 = w.deep_view();
    let ghost p0 = p.deep_view();
    let mut w = w;
    let mut p = p;
    let mut i: usize = 0;
    while i < xs.len()
        invariant
            i <= xs@.len(),
            (w.deep_view(), p.deep_view()) == see_each_spec(
                cfg.deep_view(),
                seen.deep_view(),
                xs.deep_view(),
                w0,
                p0,
                i as nat,
            ),
        decreases xs@.len() - i,
    {
        let exch = xs[i].as_str();
        let (w1, p1) = see_one(w, cfg, seen, exch, p);
        w = w1;
        p = p1;
        i = i + 1;
    }
    (w, p)
}

/// What is due, venue by venue.
pub open spec fn see_all_spec(
    w: WorkView,
    cfg: ConfigView,
    seen: SeenView,
    offquote: Doc,
) -> (WorkView, PassView) {
    let p = PassView {
        baseline: Doc::obj(),
        offquote,
        tranches: Seq::<TrancheView>::empty(),
        sweeps: Seq::<SweepView>::empty(),
        withholds: Seq::<TrancheView>::empty(),
    };
    let (w, p) = see_each_spec(cfg, seen, seen.names, w, p, seen.names.len());
    (w, keep_clientless_spec(p, seen))
}

/// What is due, venue by venue.
pub fn see_all(w: Work, cfg: &Config, seen: &Seen, offquote: Json) -> (r: (Work, Pass))
    ensures
        r.deep_view() == see_all_spec(w.deep_view(), cfg.deep_view(), seen.deep_view(), offquote@),
{
    let mut w = w;
    let mut p = Pass {
        baseline: Json::obj(),
        offquote,
        tranches: list::none::<Tranche>(),
        sweeps: list::none::<Sweep>(),
        withholds: list::none::<Tranche>(),
    };
    let (next_w, next_p) = see_each(cfg, seen, &seen.names, w, p);
    w = next_w;
    p = next_p;
    (w, keep_clientless(p, seen))
}

/// The first `n` of them.
pub open spec fn tag_each_spec(
    exch: Seq<char>,
    xs: Seq<Seq<char>>,
    out: Seq<(Seq<char>, Seq<char>)>,
    n: nat,
) -> Seq<(Seq<char>, Seq<char>)> {
    out + Seq::new(
        n,
        |i: int| {
            let c = xs[i];
            (exch, c)
        },
    )
}

fn tag_each(
    exch: &str,
    xs: &Vec<String>,
    out: Vec<(String, String)>,
) -> (r: Vec<(String, String)>)
    ensures
        r.deep_view() == tag_each_spec(exch@, xs.deep_view(), out.deep_view(), xs@.len()),
{
    let ghost out0 = out.deep_view();
    let mut out = out;
    let mut i: usize = 0;
    while i < xs.len()
        invariant
            i <= xs@.len(),
            out.deep_view() == tag_each_spec(exch@, xs.deep_view(), out0, i as nat),
        decreases xs@.len() - i,
    {
        let c = xs[i].as_str();
        list::push(&mut out, (text::owned(exch), text::owned(c)));
        assert(out.deep_view() =~= tag_each_spec(exch@, xs.deep_view(), out0, (i + 1) as nat));
        i = i + 1;
    }
    out
}

/// Ids, each with its venue.
pub open spec fn tagged_spec(exch: Seq<char>, ids: Seq<Seq<char>>) -> Seq<(Seq<char>, Seq<char>)> {
    tag_each_spec(exch, ids, Seq::<(Seq<char>, Seq<char>)>::empty(), ids.len())
}

fn tagged(exch: &str, ids: &Vec<String>) -> (r: Vec<(String, String)>)
    ensures
        r.deep_view() == tagged_spec(exch@, ids.deep_view()),
{
    let mut out: Vec<(String, String)> = list::none();
    out = tag_each(exch, ids, out);
    out
}

/// The ids that are to be placed, each with its venue.
#[derive(Debug)]
pub struct Placements {
    pub ids: Vec<(String, String)>,
}

/// What a [`Placements`] holds.
pub struct PlacementsView {
    pub ids: Seq<(Seq<char>, Seq<char>)>,
}

impl DeepView for Placements {
    type V = PlacementsView;

    open spec fn deep_view(&self) -> PlacementsView {
        PlacementsView {
            ids: self.ids.deep_view(),
        }
    }
}

/// Ladder a tranche.
pub open spec fn ladder_tranche_spec(
    w: WorkView,
    cfg: ConfigView,
    t: TrancheView,
    ts_cut: Double,
    pl: PlacementsView,
    answers: Seq<AnswerView>,
) -> (WorkView, PlacementsView) {
    if deploy::stopped_spec(w) {
        (w, pl)
    } else {
        let w1 = deploy::need_client_spec(w, t.exch, answers);
        if deploy::stopped_spec(w1) {
            (w1, pl)
        } else {
            let (w2, ids) = planning::deploy_tranche_spec(
                w1,
                cfg,
                t.exch,
                t.quote,
                t.amount,
                ts_cut,
                None,
                answers,
            );
            let pl = PlacementsView { ids: pl.ids + tagged_spec(t.exch, ids), ..pl };
            (w2, pl)
        }
    }
}

fn ladder_tranche(
    w: Work,
    cfg: &Config,
    t: &Tranche,
    ts_cut: Double,
    pl: Placements,
    answers: &Vec<Answer>,
) -> (r: (Work, Placements))
    ensures
        r.deep_view() == ladder_tranche_spec(
            w.deep_view(),
            cfg.deep_view(),
            t.deep_view(),
            ts_cut,
            pl.deep_view(),
            answers.deep_view(),
        ),
{
    let mut pl = pl;
    if deploy::stopped(&w) {
        return (w, pl);
    }
    let w1 = deploy::need_client(w, t.exch.as_str(), answers);
    if deploy::stopped(&w1) {
        return (w1, pl);
    }
    let (w2, ids) = planning::deploy_tranche(
        w1,
        cfg,
        t.exch.as_str(),
        t.quote.as_str(),
        t.amount,
        ts_cut,
        list::borrow(&None),
        answers,
    );
    list::extend(&mut pl.ids, tagged(t.exch.as_str(), &ids));
    (w2, pl)
}

/// A state that knows whether a venue is stuck; none where it cannot hold that.
pub open spec fn with_stuck_spec(
    st: Doc,
    k: Seq<char>,
    exch: Seq<char>,
    ts: Option<Double>,
) -> Option<Doc> {
    let s = Doc::obj();
    let s = match st.get(k) {
        Some(v) => v,
        None => s,
    };
    if !(s is Obj) {
        None
    } else {
        let s = match ts {
            Some(x) => s.set(exch, Doc::Float(x)),
            None => s.removed(exch),
        };
        let st = st.set(k, s);
        Some(st)
    }
}

fn with_stuck(st: Json, k: &str, exch: &str, ts: Option<Double>) -> (r: Option<Json>)
    ensures
        r.deep_view() == with_stuck_spec(st@, k@, exch@, ts),
{
    let mut st = st;
    let mut s = Json::obj();
    match st.get(k) {
        Some(v) => {
            s = v.copy();
        },
        None => {},
    }
    if !s.is_obj() {
        return None;
    }
    match ts {
        Some(x) => {
            s.set(exch, Json::Float(x));
        },
        None => {
            s = json::without(s, exch);
        },
    }
    st.set(k, s);
    Some(st)
}

/// Record whether a venue is stuck.
pub open spec fn mark_stuck_spec(
    w: WorkView,
    k: Seq<char>,
    exch: Seq<char>,
    ts: Option<Double>,
) -> WorkView {
    match with_stuck_spec(w.st, k, exch, ts) {
        Some(st) => WorkView { st, ..w },
        None => deploy::failing_spec(w, k + " is not an object"@),
    }
}

fn mark_stuck(w: Work, k: &str, exch: &str, ts: Option<Double>) -> (r: Work)
    ensures
        r.deep_view() == mark_stuck_spec(w.deep_view(), k@, exch@, ts),
{
    let mut w = w;
    match with_stuck(w.st.dup(), k, exch, ts) {
        Some(st) => {
            w.st = st;
            w
        },
        None => {
            let mut line = text::owned(k);
            line.push_str(" is not an object");
            deploy::failing(w, line)
        },
    }
}

/// After a sweep: the rows are marked as swept, or the venue as stuck.
pub open spec fn sweep_laddered_spec(
    w: WorkView,
    s: SweepView,
    ids: Seq<Seq<char>>,
    ts_cut: Double,
    answers: Seq<AnswerView>,
) -> WorkView {
    if ids.len() == 0 {
        let v = mark_stuck_spec(w, "sweep_stuck"@, s.exch, Some(ts_cut));
        if deploy::stopped_spec(v) {
            v
        } else {
            deploy::save_state_spec(
                deploy::warn_spec(
                    v,
                    "DEPLOY sweep: $"@
                        + pyfmt::fixed_spec(s.idle, 2)
                        + " "@
                        + s.quote
                        + " on "@
                        + s.exch
                        + " could not be laddered (see skips above) — retrying in 24h; if a pair is gone, move the cash or route the coin elsewhere"@,
                ),
                answers,
            )
        }
    } else {
        let v = mark_stuck_spec(w, "sweep_stuck"@, s.exch, None);
        if deploy::stopped_spec(v) {
            v
        } else {
            let v = WorkView { journal: journal::swept_rows_spec(v.journal, s.freed), ..v };
            let v = deploy::save_spec(v, answers);
            if deploy::stopped_spec(v) {
                v
            } else {
                deploy::save_state_spec(v, answers)
            }
        }
    }
}

fn sweep_laddered(
    w: Work,
    s: &Sweep,
    ids: &Vec<String>,
    ts_cut: Double,
    answers: &Vec<Answer>,
) -> (r: Work)
    ensures
        r.deep_view() == sweep_laddered_spec(
            w.deep_view(),
            s.deep_view(),
            ids.deep_view(),
            ts_cut,
            answers.deep_view(),
        ),
{
    if ids.len() == 0 {
        let mut v = mark_stuck(w, "sweep_stuck", s.exch.as_str(), Some(ts_cut));
        if deploy::stopped(&v) {
            return v;
        }
        let mut line = text::owned("DEPLOY sweep: $");
        line.push_str(pyfmt::fixed(s.idle, 2).as_str());
        line.push_str(" ");
        line.push_str(s.quote.as_str());
        line.push_str(" on ");
        line.push_str(s.exch.as_str());
        line.push_str(
            " could not be laddered (see skips above) — retrying in 24h; if a pair is gone, move the cash or route the coin elsewhere",
        );
        return deploy::save_state(deploy::warn(v, line), answers);
    }
    let mut v = mark_stuck(w, "sweep_stuck", s.exch.as_str(), None);
    if deploy::stopped(&v) {
        return v;
    }
    v.journal = journal::swept_rows(v.journal.dup(), &s.freed);
    v = deploy::save(v, answers);
    if deploy::stopped(&v) {
        return v;
    }
    deploy::save_state(v, answers)
}

/// Re-ladder idle cash.
pub open spec fn ladder_sweep_spec(
    w: WorkView,
    cfg: ConfigView,
    s: SweepView,
    ts_cut: Double,
    pl: PlacementsView,
    answers: Seq<AnswerView>,
) -> (WorkView, PlacementsView) {
    if deploy::stopped_spec(w) {
        (w, pl)
    } else {
        let w1 = deploy::need_client_spec(w, s.exch, answers);
        if deploy::stopped_spec(w1) {
            (w1, pl)
        } else {
            let (w2, ids) = planning::deploy_tranche_spec(
                w1,
                cfg,
                s.exch,
                s.quote,
                s.idle,
                ts_cut,
                s.only,
                answers,
            );
            if deploy::stopped_spec(w2) {
                (w2, pl)
            } else {
                let w3 = sweep_laddered_spec(w2, s, ids, ts_cut, answers);
                let pl = PlacementsView { ids: pl.ids + tagged_spec(s.exch, ids), ..pl };
                (w3, pl)
            }
        }
    }
}

fn ladder_sweep(
    w: Work,
    cfg: &Config,
    s: &Sweep,
    ts_cut: Double,
    pl: Placements,
    answers: &Vec<Answer>,
) -> (r: (Work, Placements))
    ensures
        r.deep_view() == ladder_sweep_spec(
            w.deep_view(),
            cfg.deep_view(),
            s.deep_view(),
            ts_cut,
            pl.deep_view(),
            answers.deep_view(),
        ),
{
    let mut pl = pl;
    if deploy::stopped(&w) {
        return (w, pl);
    }
    let w1 = deploy::need_client(w, s.exch.as_str(), answers);
    if deploy::stopped(&w1) {
        return (w1, pl);
    }
    let (w2, ids) = planning::deploy_tranche(
        w1,
        cfg,
        s.exch.as_str(),
        s.quote.as_str(),
        s.idle,
        ts_cut,
        list::borrow(&s.only),
        answers,
    );
    if deploy::stopped(&w2) {
        return (w2, pl);
    }
    let w3 = sweep_laddered(w2, s, &ids, ts_cut, answers);
    list::extend(&mut pl.ids, tagged(s.exch.as_str(), &ids));
    (w3, pl)
}

/// After a withhold: the venue is marked as stuck, or not.
pub open spec fn withhold_laddered_spec(
    w: WorkView,
    t: TrancheView,
    ids: Seq<Seq<char>>,
    ts_cut: Double,
    answers: Seq<AnswerView>,
) -> WorkView {
    if ids.len() == 0 {
        let v = mark_stuck_spec(w, "withhold_stuck"@, t.exch, Some(ts_cut));
        if deploy::stopped_spec(v) {
            v
        } else {
            deploy::save_state_spec(
                deploy::warn_spec(
                    v,
                    "DEPLOY withhold: "@
                        + t.exch
                        + " could not be re-laddered $"@
                        + pyfmt::fixed_spec(t.amount, 2)
                        + " lighter (see skips above) — retrying in 24h; the cash stays free meanwhile"@,
                ),
                answers,
            )
        }
    } else {
        let v = mark_stuck_spec(w, "withhold_stuck"@, t.exch, None);
        if deploy::stopped_spec(v) {
            v
        } else {
            deploy::save_state_spec(v, answers)
        }
    }
}

fn withhold_laddered(
    w: Work,
    t: &Tranche,
    ids: &Vec<String>,
    ts_cut: Double,
    answers: &Vec<Answer>,
) -> (r: Work)
    ensures
        r.deep_view() == withhold_laddered_spec(
            w.deep_view(),
            t.deep_view(),
            ids.deep_view(),
            ts_cut,
            answers.deep_view(),
        ),
{
    if ids.len() == 0 {
        let mut v = mark_stuck(w, "withhold_stuck", t.exch.as_str(), Some(ts_cut));
        if deploy::stopped(&v) {
            return v;
        }
        let mut line = text::owned("DEPLOY withhold: ");
        line.push_str(t.exch.as_str());
        line.push_str(" could not be re-laddered $");
        line.push_str(pyfmt::fixed(t.amount, 2).as_str());
        line.push_str(
            " lighter (see skips above) — retrying in 24h; the cash stays free meanwhile",
        );
        return deploy::save_state(deploy::warn(v, line), answers);
    }
    let mut v = mark_stuck(w, "withhold_stuck", t.exch.as_str(), None);
    if deploy::stopped(&v) {
        return v;
    }
    deploy::save_state(v, answers)
}

/// Re-ladder a venue lighter.
pub open spec fn ladder_withhold_spec(
    w: WorkView,
    cfg: ConfigView,
    t: TrancheView,
    ts_cut: Double,
    pl: PlacementsView,
    answers: Seq<AnswerView>,
) -> (WorkView, PlacementsView) {
    if deploy::stopped_spec(w) {
        (w, pl)
    } else {
        let w1 = deploy::need_client_spec(w, t.exch, answers);
        if deploy::stopped_spec(w1) {
            (w1, pl)
        } else {
            let (w2, ids) = planning::deploy_tranche_spec(
                w1,
                cfg,
                t.exch,
                t.quote,
                t.amount.neg_spec(),
                ts_cut,
                None,
                answers,
            );
            if deploy::stopped_spec(w2) {
                (w2, pl)
            } else {
                let w3 = withhold_laddered_spec(w2, t, ids, ts_cut, answers);
                let pl = PlacementsView { ids: pl.ids + tagged_spec(t.exch, ids), ..pl };
                (w3, pl)
            }
        }
    }
}

fn ladder_withhold(
    w: Work,
    cfg: &Config,
    t: &Tranche,
    ts_cut: Double,
    pl: Placements,
    answers: &Vec<Answer>,
) -> (r: (Work, Placements))
    ensures
        r.deep_view() == ladder_withhold_spec(
            w.deep_view(),
            cfg.deep_view(),
            t.deep_view(),
            ts_cut,
            pl.deep_view(),
            answers.deep_view(),
        ),
{
    let mut pl = pl;
    if deploy::stopped(&w) {
        return (w, pl);
    }
    let w1 = deploy::need_client(w, t.exch.as_str(), answers);
    if deploy::stopped(&w1) {
        return (w1, pl);
    }
    let (w2, ids) = planning::deploy_tranche(
        w1,
        cfg,
        t.exch.as_str(),
        t.quote.as_str(),
        t.amount.negated(),
        ts_cut,
        list::borrow(&None),
        answers,
    );
    if deploy::stopped(&w2) {
        return (w2, pl);
    }
    let w3 = withhold_laddered(w2, t, &ids, ts_cut, answers);
    list::extend(&mut pl.ids, tagged(t.exch.as_str(), &ids));
    (w3, pl)
}

/// Place one journaled id.
pub open spec fn place_tagged_spec(
    w: WorkView,
    cfg: ConfigView,
    exch: Seq<char>,
    cid: Seq<char>,
    answers: Seq<AnswerView>,
) -> WorkView {
    if deploy::stopped_spec(w) {
        w
    } else {
        let v = deploy::need_client_spec(w, exch, answers);
        if deploy::stopped_spec(v) {
            v
        } else {
            let one = Seq::<Seq<char>>::empty().push(cid);
            placing::place_unplaced_spec(v, cfg, one, answers)
        }
    }
}

fn place_tagged(w: Work, cfg: &Config, exch: &str, cid: &str, answers: &Vec<Answer>) -> (r: Work)
    ensures
        r.deep_view() == place_tagged_spec(
            w.deep_view(),
            cfg.deep_view(),
            exch@,
            cid@,
            answers.deep_view(),
        ),
{
    if deploy::stopped(&w) {
        return w;
    }
    let v = deploy::need_client(w, exch, answers);
    if deploy::stopped(&v) {
        return v;
    }
    let mut one: Vec<String> = list::none();
    list::push(&mut one, text::owned(cid));
    placing::place_unplaced(v, cfg, &one, answers)
}

/// The first `n` of them.
pub open spec fn ladder_tranches_spec(
    answers: Seq<AnswerView>,
    cfg: ConfigView,
    ts_cut: Double,
    xs: Seq<TrancheView>,
    w: WorkView,
    pl: PlacementsView,
    n: nat,
) -> (WorkView, PlacementsView)
    decreases n,
{
    if n == 0 {
        (w, pl)
    } else {
        let (w, pl) = ladder_tranches_spec(answers, cfg, ts_cut, xs, w, pl, (n - 1) as nat);
        let t = xs[n - 1];
        let (w1, pl1) = ladder_tranche_spec(w, cfg, t, ts_cut, pl, answers);
        (w1, pl1)
    }
}

#[verifier::rlimit(60)]
fn ladder_tranches(
    answers: &Vec<Answer>,
    cfg: &Config,
    ts_cut: Double,
    xs: &Vec<Tranche>,
    w: Work,
    pl: Placements,
) -> (r: (Work, Placements))
    ensures
        r.deep_view() == ladder_tranches_spec(
            answers.deep_view(),
            cfg.deep_view(),
            ts_cut,
            xs.deep_view(),
            w.deep_view(),
            pl.deep_view(),
            xs@.len(),
        ),
{
    let ghost w0 = w.deep_view();
    let ghost pl0 = pl.deep_view();
    let mut w = w;
    let mut pl = pl;
    let mut i: usize = 0;
    while i < xs.len()
        invariant
            i <= xs@.len(),
            (w.deep_view(), pl.deep_view()) == ladder_tranches_spec(
                answers.deep_view(),
                cfg.deep_view(),
                ts_cut,
                xs.deep_view(),
                w0,
                pl0,
                i as nat,
            ),
        decreases xs@.len() - i,
    {
        let t = &xs[i];
        let (w1, pl1) = ladder_tranche(w, cfg, t, ts_cut, pl, answers);
        w = w1;
        pl = pl1;
        i = i + 1;
    }
    (w, pl)
}

/// The first `n` of them.
pub open spec fn ladder_sweeps_spec(
    answers: Seq<AnswerView>,
    cfg: ConfigView,
    ts_cut: Double,
    xs: Seq<SweepView>,
    w: WorkView,
    pl: PlacementsView,
    n: nat,
) -> (WorkView, PlacementsView)
    decreases n,
{
    if n == 0 {
        (w, pl)
    } else {
        let (w, pl) = ladder_sweeps_spec(answers, cfg, ts_cut, xs, w, pl, (n - 1) as nat);
        let s = xs[n - 1];
        let (w1, pl1) = ladder_sweep_spec(w, cfg, s, ts_cut, pl, answers);
        (w1, pl1)
    }
}

#[verifier::rlimit(60)]
fn ladder_sweeps(
    answers: &Vec<Answer>,
    cfg: &Config,
    ts_cut: Double,
    xs: &Vec<Sweep>,
    w: Work,
    pl: Placements,
) -> (r: (Work, Placements))
    ensures
        r.deep_view() == ladder_sweeps_spec(
            answers.deep_view(),
            cfg.deep_view(),
            ts_cut,
            xs.deep_view(),
            w.deep_view(),
            pl.deep_view(),
            xs@.len(),
        ),
{
    let ghost w0 = w.deep_view();
    let ghost pl0 = pl.deep_view();
    let mut w = w;
    let mut pl = pl;
    let mut i: usize = 0;
    while i < xs.len()
        invariant
            i <= xs@.len(),
            (w.deep_view(), pl.deep_view()) == ladder_sweeps_spec(
                answers.deep_view(),
                cfg.deep_view(),
                ts_cut,
                xs.deep_view(),
                w0,
                pl0,
                i as nat,
            ),
        decreases xs@.len() - i,
    {
        let s = &xs[i];
        let (w1, pl1) = ladder_sweep(w, cfg, s, ts_cut, pl, answers);
        w = w1;
        pl = pl1;
        i = i + 1;
    }
    (w, pl)
}

/// The first `n` of them.
pub open spec fn ladder_withholds_spec(
    answers: Seq<AnswerView>,
    cfg: ConfigView,
    ts_cut: Double,
    xs: Seq<TrancheView>,
    w: WorkView,
    pl: PlacementsView,
    n: nat,
) -> (WorkView, PlacementsView)
    decreases n,
{
    if n == 0 {
        (w, pl)
    } else {
        let (w, pl) = ladder_withholds_spec(answers, cfg, ts_cut, xs, w, pl, (n - 1) as nat);
        let t = xs[n - 1];
        let (w1, pl1) = ladder_withhold_spec(w, cfg, t, ts_cut, pl, answers);
        (w1, pl1)
    }
}

#[verifier::rlimit(60)]
fn ladder_withholds(
    answers: &Vec<Answer>,
    cfg: &Config,
    ts_cut: Double,
    xs: &Vec<Tranche>,
    w: Work,
    pl: Placements,
) -> (r: (Work, Placements))
    ensures
        r.deep_view() == ladder_withholds_spec(
            answers.deep_view(),
            cfg.deep_view(),
            ts_cut,
            xs.deep_view(),
            w.deep_view(),
            pl.deep_view(),
            xs@.len(),
        ),
{
    let ghost w0 = w.deep_view();
    let ghost pl0 = pl.deep_view();
    let mut w = w;
    let mut pl = pl;
    let mut i: usize = 0;
    while i < xs.len()
        invariant
            i <= xs@.len(),
            (w.deep_view(), pl.deep_view()) == ladder_withholds_spec(
                answers.deep_view(),
                cfg.deep_view(),
                ts_cut,
                xs.deep_view(),
                w0,
                pl0,
                i as nat,
            ),
        decreases xs@.len() - i,
    {
        let t = &xs[i];
        let (w1, pl1) = ladder_withhold(w, cfg, t, ts_cut, pl, answers);
        w = w1;
        pl = pl1;
        i = i + 1;
    }
    (w, pl)
}

/// The first `n` of them.
pub open spec fn place_all_spec(
    answers: Seq<AnswerView>,
    cfg: ConfigView,
    xs: Seq<(Seq<char>, Seq<char>)>,
    w: WorkView,
    n: nat,
) -> WorkView
    decreases n,
{
    if n == 0 {
        w
    } else {
        let w = place_all_spec(answers, cfg, xs, w, (n - 1) as nat);
        let it = xs[n - 1];
        let exch = it.0;
        let cid = it.1;
        place_tagged_spec(w, cfg, exch, cid, answers)
    }
}

fn place_all(
    answers: &Vec<Answer>,
    cfg: &Config,
    xs: &Vec<(String, String)>,
    w: Work,
) -> (r: Work)
    ensures
        r.deep_view() == place_all_spec(
            answers.deep_view(),
            cfg.deep_view(),
            xs.deep_view(),
            w.deep_view(),
            xs@.len(),
        ),
{
    let ghost w0 = w.deep_view();
    let mut w = w;
    let mut i: usize = 0;
    while i < xs.len()
        invariant
            i <= xs@.len(),
            w.deep_view() == place_all_spec(
                answers.deep_view(),
                cfg.deep_view(),
                xs.deep_view(),
                w0,
                i as nat,
            ),
        decreases xs@.len() - i,
    {
        let it = &xs[i];
        let exch = it.0.as_str();
        let cid = it.1.as_str();
        w = place_tagged(w, cfg, exch, cid, answers);
        i = i + 1;
    }
    w
}

/// Ladder what is due, and place it.
pub open spec fn ladder_all_spec(
    w: WorkView,
    cfg: ConfigView,
    p: PassView,
    ts_cut: Double,
    answers: Seq<AnswerView>,
) -> WorkView {
    let pl = PlacementsView { ids: Seq::<(Seq<char>, Seq<char>)>::empty() };
    let (w, pl) = ladder_tranches_spec(answers, cfg, ts_cut, p.tranches, w, pl, p.tranches.len());
    let (w, pl) = ladder_sweeps_spec(answers, cfg, ts_cut, p.sweeps, w, pl, p.sweeps.len());
    let (w, pl) = ladder_withholds_spec(
        answers,
        cfg,
        ts_cut,
        p.withholds,
        w,
        pl,
        p.withholds.len(),
    );
    place_all_spec(answers, cfg, pl.ids, w, pl.ids.len())
}

/// Ladder what is due, and place it.
pub fn ladder_all(
    w: Work,
    cfg: &Config,
    p: &Pass,
    ts_cut: Double,
    answers: &Vec<Answer>,
) -> (r: Work)
    ensures
        r.deep_view() == ladder_all_spec(
            w.deep_view(),
            cfg.deep_view(),
            p.deep_view(),
            ts_cut,
            answers.deep_view(),
        ),
{
    let mut w = w;
    let mut pl = Placements { ids: list::none::<(String, String)>() };
    let (next_w, next_pl) = ladder_tranches(answers, cfg, ts_cut, &p.tranches, w, pl);
    w = next_w;
    pl = next_pl;
    let (next_w, next_pl) = ladder_sweeps(answers, cfg, ts_cut, &p.sweeps, w, pl);
    w = next_w;
    pl = next_pl;
    let (next_w, next_pl) = ladder_withholds(answers, cfg, ts_cut, &p.withholds, w, pl);
    w = next_w;
    pl = next_pl;
    w = place_all(answers, cfg, &pl.ids, w);
    w
}

/// Read a venue's book; one that cannot be read is an error.
pub open spec fn read_one_spec(
    w: WorkView,
    exch: Seq<char>,
    full: Seq<(Seq<char>, Option<Seq<(Seq<char>, Balance)>>)>,
    answers: Seq<AnswerView>,
) -> (WorkView, Seq<(Seq<char>, Option<Seq<(Seq<char>, Balance)>>)>) {
    if deploy::stopped_spec(w) {
        (w, full)
    } else {
        let w1 = deploy::need_client_spec(w, exch, answers);
        if deploy::stopped_spec(w1) {
            (w1, full)
        } else {
            let (w2, got) = deploy::ask_book_spec(w1, AskView::BalancesFull(exch), answers);
            if deploy::stopped_spec(w2) {
                (w2, full)
            } else {
                match got {
                    Ok(b) => (w2, full.push((exch, Some(b)))),
                    Err(e) => (
                        deploy::say_err_spec(w2, "deploy: "@ + exch + " balances: "@ + e),
                        full.push((exch, None)),
                    ),
                }
            }
        }
    }
}

fn read_one(
    w: Work,
    exch: &str,
    full: Vec<(String, Option<Vec<(String, Balance)>>)>,
    answers: &Vec<Answer>,
) -> (r: (Work, Vec<(String, Option<Vec<(String, Balance)>>)>))
    ensures
        r.deep_view() == read_one_spec(
            w.deep_view(),
            exch@,
            full.deep_view(),
            answers.deep_view(),
        ),
{
    let mut full = full;
    if deploy::stopped(&w) {
        return (w, full);
    }
    let w1 = deploy::need_client(w, exch, answers);
    if deploy::stopped(&w1) {
        return (w1, full);
    }
    let (w2, got) = deploy::ask_book(w1, Ask::BalancesFull(text::owned(exch)), answers);
    if deploy::stopped(&w2) {
        return (w2, full);
    }
    match got {
        Ok(b) => {
            list::push(&mut full, (text::owned(exch), Some(b)));
            (w2, full)
        },
        Err(e) => {
            list::push(&mut full, (text::owned(exch), None));
            let mut line = text::owned("deploy: ");
            line.push_str(exch);
            line.push_str(" balances: ");
            line.push_str(e.as_str());
            (deploy::say_err(w2, line), full)
        },
    }
}

/// The first `n` venues.
pub open spec fn read_each_spec(
    answers: Seq<AnswerView>,
    xs: Seq<Seq<char>>,
    w: WorkView,
    full: Seq<(Seq<char>, Option<Seq<(Seq<char>, Balance)>>)>,
    n: nat,
) -> (WorkView, Seq<(Seq<char>, Option<Seq<(Seq<char>, Balance)>>)>)
    decreases n,
{
    if n == 0 {
        (w, full)
    } else {
        let (w, full) = read_each_spec(answers, xs, w, full, (n - 1) as nat);
        let exch = xs[n - 1];
        let (w1, f1) = read_one_spec(w, exch, full, answers);
        (w1, f1)
    }
}

fn read_each(
    answers: &Vec<Answer>,
    xs: &Vec<String>,
    w: Work,
    full: Vec<(String, Option<Vec<(String, Balance)>>)>,
) -> (r: (Work, Vec<(String, Option<Vec<(String, Balance)>>)>))
    ensures
        r.deep_view() == read_each_spec(
            answers.deep_view(),
            xs.deep_view(),
            w.deep_view(),
            full.deep_view(),
            xs@.len(),
        ),
{
    let ghost w0 = w.deep_view();
    let ghost full0 = full.deep_view();
    let mut w = w;
    let mut full = full;
    let mut i: usize = 0;
    while i < xs.len()
        invariant
            i <= xs@.len(),
            (w.deep_view(), full.deep_view()) == read_each_spec(
                answers.deep_view(),
                xs.deep_view(),
                w0,
                full0,
                i as nat,
            ),
        decreases xs@.len() - i,
    {
        let exch = xs[i].as_str();
        let (w1, f1) = read_one(w, exch, full, answers);
        w = w1;
        full = f1;
        i = i + 1;
    }
    (w, full)
}

/// Read every venue's book.
pub open spec fn read_all_spec(
    w: WorkView,
    names: Seq<Seq<char>>,
    answers: Seq<AnswerView>,
) -> (WorkView, Seq<(Seq<char>, Option<Seq<(Seq<char>, Balance)>>)>) {
    read_each_spec(
        answers,
        names,
        w,
        Seq::<(Seq<char>, Option<Seq<(Seq<char>, Balance)>>)>::empty(),
        names.len(),
    )
}

fn read_all(
    w: Work,
    names: &Vec<String>,
    answers: &Vec<Answer>,
) -> (r: (Work, Vec<(String, Option<Vec<(String, Balance)>>)>))
    ensures
        r.deep_view() == read_all_spec(w.deep_view(), names.deep_view(), answers.deep_view()),
{
    let mut w = w;
    let mut full: Vec<(String, Option<Vec<(String, Balance)>>)> = list::none();
    let (next_w, next_full) = read_each(answers, names, w, full);
    w = next_w;
    full = next_full;
    (w, full)
}

/// A venue's book, where it could be read and holds anything.
pub open spec fn nonempty_book_spec(
    full: Seq<(Seq<char>, Option<Seq<(Seq<char>, Balance)>>)>,
    exch: Seq<char>,
) -> Option<Seq<(Seq<char>, Balance)>> {
    match book_of_spec(full, exch) {
        Some(b) => if b.len() == 0 {
            None
        } else {
            Some(b)
        },
        None => None,
    }
}

fn nonempty_book(
    full: &Vec<(String, Option<Vec<(String, Balance)>>)>,
    exch: &str,
) -> (r: Option<Vec<(String, Balance)>>)
    ensures
        r.deep_view() == nonempty_book_spec(full.deep_view(), exch@),
{
    match book_of(full, exch) {
        Some(b) => {
            if b.len() == 0 {
                return None;
            }
            Some(b)
        },
        None => None,
    }
}

/// What a top-up of Gate holds back on Revolut X.
#[derive(Debug)]
pub struct Reserve {
    /// What it needs in all.
    pub full: Double,
    pub reserves: Vec<(String, Double)>,
}

/// What a [`Reserve`] holds.
pub struct ReserveView {
    pub full: Double,
    pub reserves: Seq<(Seq<char>, Double)>,
}

impl DeepView for Reserve {
    type V = ReserveView;

    open spec fn deep_view(&self) -> ReserveView {
        ReserveView {
            full: self.full,
            reserves: self.reserves.deep_view(),
        }
    }
}

/// Nothing is held back.
pub open spec fn no_reserve_spec() -> ReserveView {
    ReserveView { full: Double::zero_spec(), reserves: Seq::<(Seq<char>, Double)>::empty() }
}

fn no_reserve() -> (r: Reserve)
    ensures
        r.deep_view() == no_reserve_spec(),
{
    Reserve { full: Double::zero(), reserves: list::none::<(String, Double)>() }
}

/// What the top-up needs: nothing while one travels.
pub open spec fn reserve_unless_spec(
    w: WorkView,
    cfg: ConfigView,
    rx: Double,
    gate: Double,
    inflight: bool,
    answers: Seq<AnswerView>,
) -> (WorkView, Double) {
    if inflight {
        (w, Double::zero_spec())
    } else {
        onramp::reserve_spec(w, cfg, rx, gate, answers)
    }
}

fn reserve_unless(
    w: Work,
    cfg: &Config,
    rx: Double,
    gate: Double,
    inflight: bool,
    answers: &Vec<Answer>,
) -> (r: (Work, Double))
    ensures
        r.deep_view() == reserve_unless_spec(
            w.deep_view(),
            cfg.deep_view(),
            rx,
            gate,
            inflight,
            answers.deep_view(),
        ),
{
    if inflight {
        return (w, Double::zero());
    }
    onramp::reserve(w, cfg, rx, gate, answers)
}

/// What the top-up holds back, with both books known: nothing while one travels.
pub open spec fn known_reserve_spec(
    w: WorkView,
    cfg: ConfigView,
    rxb: Seq<(Seq<char>, Balance)>,
    gtb: Seq<(Seq<char>, Balance)>,
    inflight: bool,
    answers: Seq<AnswerView>,
) -> (WorkView, ReserveView) {
    let (w1, rx_stable) = deploy::need_number_spec(w, AskView::RevxStable(rxb), answers);
    if deploy::stopped_spec(w1) {
        (w1, no_reserve_spec())
    } else {
        let (w2, gate_stable) = deploy::need_number_spec(w1, AskView::GateStable(gtb), answers);
        if deploy::stopped_spec(w2) {
            (w2, no_reserve_spec())
        } else {
            let (w3, need) = reserve_unless_spec(
                w2,
                cfg,
                rx_stable,
                gate_stable,
                inflight,
                answers,
            );
            if deploy::stopped_spec(w3) {
                (w3, no_reserve_spec())
            } else {
                let u = deploy::held_of_spec(rxb, "USDC"@);
                let held = need.sub_spec(u.free.add_spec(u.locked)).max_spec(Double::zero_spec());
                let r = ReserveView { full: need, reserves: Seq::<(Seq<char>, Double)>::empty() };
                let r = if Double::zero_spec().lt_spec(held) {
                    ReserveView { reserves: r.reserves.push(("revx"@, held)), ..r }
                } else {
                    r
                };
                (w3, r)
            }
        }
    }
}

fn known_reserve(
    w: Work,
    cfg: &Config,
    rxb: &Vec<(String, Balance)>,
    gtb: &Vec<(String, Balance)>,
    inflight: bool,
    answers: &Vec<Answer>,
) -> (r: (Work, Reserve))
    ensures
        r.deep_view() == known_reserve_spec(
            w.deep_view(),
            cfg.deep_view(),
            rxb.deep_view(),
            gtb.deep_view(),
            inflight,
            answers.deep_view(),
        ),
{
    let (w1, rx_stable) = deploy::need_number(w, Ask::RevxStable(rxb.dup()), answers);
    if deploy::stopped(&w1) {
        return (w1, no_reserve());
    }
    let (w2, gate_stable) = deploy::need_number(w1, Ask::GateStable(gtb.dup()), answers);
    if deploy::stopped(&w2) {
        return (w2, no_reserve());
    }
    let (w3, need) = reserve_unless(w2, cfg, rx_stable, gate_stable, inflight, answers);
    if deploy::stopped(&w3) {
        return (w3, no_reserve());
    }
    let u = deploy::held_of(rxb, "USDC");
    let held = need.minus(u.free.plus(u.locked)).max(Double::zero());
    let mut r = Reserve { full: need, reserves: list::none::<(String, Double)>() };
    if Double::zero().lt(held) {
        list::push(&mut r.reserves, (text::owned("revx"), held));
    }
    (w3, r)
}

/// Hold all free stable on Revolut X.
pub open spec fn hold_all_spec(
    w: WorkView,
    cfg: ConfigView,
    rxb: Seq<(Seq<char>, Balance)>,
    r: ReserveView,
) -> (WorkView, ReserveView) {
    let q = deploy::quote_of_spec(cfg, "revx"@);
    let r = ReserveView {
        reserves: Seq::<(Seq<char>, Double)>::empty().push(
            ("revx"@, deploy::held_of_spec(rxb, q).free),
        ),
        ..r
    };
    (
        deploy::warn_spec(
            w,
            "Gate top-up reserve unknown (Gate balance unreadable): no new capital laddered on revx this run"@,
        ),
        r,
    )
}

fn hold_all(
    w: Work,
    cfg: &Config,
    rxb: &Vec<(String, Balance)>,
    r: Reserve,
) -> (out: (Work, Reserve))
    ensures
        out.deep_view() == hold_all_spec(
            w.deep_view(),
            cfg.deep_view(),
            rxb.deep_view(),
            r.deep_view(),
        ),
{
    let mut r = r;
    let q = deploy::quote_of(cfg, "revx");
    let mut items: Vec<(String, Double)> = list::none();
    list::push(&mut items, (text::owned("revx"), deploy::held_of(rxb, q.as_str()).free));
    r.reserves = items;
    (
        deploy::warn(
            w,
            text::owned(
                "Gate top-up reserve unknown (Gate balance unreadable): no new capital laddered on revx this run",
            ),
        ),
        r,
    )
}

/// What the top-up holds back. With Gate unreadable or without a client the reserve is unknown, and
/// all free Revolut X stable is held this run: new capital is not absorbed into the baseline (it
/// carries to the next run), nothing is swept or laddered.
pub open spec fn reserve_of_spec(
    w: WorkView,
    cfg: ConfigView,
    full: Seq<(Seq<char>, Option<Seq<(Seq<char>, Balance)>>)>,
    inflight: bool,
    unknown: bool,
    answers: Seq<AnswerView>,
) -> (WorkView, ReserveView) {
    match nonempty_book_spec(full, "revx"@) {
        None => (w, no_reserve_spec()),
        Some(rxb) => match nonempty_book_spec(full, "gate"@) {
            None => hold_all_spec(w, cfg, rxb, no_reserve_spec()),
            Some(gtb) => {
                let (v, r) = known_reserve_spec(w, cfg, rxb, gtb, inflight, answers);
                if deploy::stopped_spec(v) || !unknown {
                    (v, r)
                } else {
                    hold_all_spec(v, cfg, rxb, r)
                }
            },
        },
    }
}

fn reserve_of(
    w: Work,
    cfg: &Config,
    full: &Vec<(String, Option<Vec<(String, Balance)>>)>,
    inflight: bool,
    unknown: bool,
    answers: &Vec<Answer>,
) -> (r: (Work, Reserve))
    ensures
        r.deep_view() == reserve_of_spec(
            w.deep_view(),
            cfg.deep_view(),
            full.deep_view(),
            inflight,
            unknown,
            answers.deep_view(),
        ),
{
    match nonempty_book(full, "revx") {
        None => (w, no_reserve()),
        Some(rxb) => match nonempty_book(full, "gate") {
            None => hold_all(w, cfg, &rxb, no_reserve()),
            Some(gtb) => {
                let (v, r) = known_reserve(w, cfg, &rxb, &gtb, inflight, answers);
                if deploy::stopped(&v) || !unknown {
                    return (v, r);
                }
                hold_all(v, cfg, &rxb, r)
            },
        },
    }
}

/// The state with the next baseline.
pub open spec fn committed_spec(w: WorkView, p: PassView, part: Doc, ts_cut: Double) -> WorkView {
    let w = WorkView { st: w.st.set("ts"@, Doc::Float(ts_cut)), ..w };
    let w = WorkView { st: w.st.set("stable"@, p.baseline), ..w };
    let w = WorkView { st: w.st.set("part"@, part), ..w };
    WorkView { st: w.st.set("offquote"@, p.offquote), ..w }
}

fn committed(w: Work, p: &Pass, part: &Json, ts_cut: Double) -> (r: Work)
    ensures
        r.deep_view() == committed_spec(w.deep_view(), p.deep_view(), part@, ts_cut),
{
    let mut w = w;
    w.st.set("ts", Json::Float(ts_cut));
    w.st.set("stable", p.baseline.copy());
    w.st.set("part", part.copy());
    w.st.set("offquote", p.offquote.copy());
    w
}

/// Whether Revolut X was re-laddered.
pub open spec fn touched_revx_spec(p: PassView) -> bool {
    in_tranches_spec(p.tranches, "revx"@)
        || in_sweeps_spec(p.sweeps, "revx"@)
        || in_tranches_spec(p.withholds, "revx"@)
}

fn touched_revx(p: &Pass) -> (r: bool)
    ensures
        r == touched_revx_spec(p.deep_view()),
{
    in_tranches(&p.tranches, "revx")
        || in_sweeps(&p.sweeps, "revx")
        || in_tranches(&p.withholds, "revx")
}

/// Stage the top-up's USDC after Revolut X was re-laddered.
pub open spec fn stage_last_spec(
    w: WorkView,
    cfg: ConfigView,
    p: PassView,
    keep: Double,
    answers: Seq<AnswerView>,
) -> WorkView {
    if !(Double::zero_spec().lt_spec(keep) && touched_revx_spec(p)) {
        w
    } else {
        let (v, failed) = onramp::stage_after_roll_spec(w, cfg, keep, answers);
        if deploy::stopped_spec(v) {
            v
        } else {
            match failed {
                Some(e) => deploy::warn_spec(
                    v,
                    "revx USDC staging after the re-ladder failed (retried next run): "@ + e,
                ),
                None => v,
            }
        }
    }
}

fn stage_last(w: Work, cfg: &Config, p: &Pass, keep: Double, answers: &Vec<Answer>) -> (r: Work)
    ensures
        r.deep_view() == stage_last_spec(
            w.deep_view(),
            cfg.deep_view(),
            p.deep_view(),
            keep,
            answers.deep_view(),
        ),
{
    if !(Double::zero().lt(keep) && touched_revx(p)) {
        return w;
    }
    let (v, failed) = onramp::stage_after_roll(w, cfg, keep, answers);
    if deploy::stopped(&v) {
        return v;
    }
    match failed {
        Some(e) => {
            let mut line = text::owned(
                "revx USDC staging after the re-ladder failed (retried next run): ",
            );
            line.push_str(e.as_str());
            deploy::warn(v, line)
        },
        None => v,
    }
}

/// Decide what is due, commit the baseline before anything is journaled or placed, and then ladder
/// it.
pub open spec fn act_spec(
    w: WorkView,
    cfg: ConfigView,
    seen: SeenView,
    part: Doc,
    answers: Seq<AnswerView>,
) -> WorkView {
    let offquote = object_in_spec(w.st, "offquote"@);
    let (w1, p) = see_all_spec(w, cfg, seen, offquote);
    let w2 = deploy::save_state_spec(committed_spec(w1, p, part, seen.ts_cut), answers);
    if deploy::stopped_spec(w2) {
        w2
    } else {
        let w3 = ladder_all_spec(w2, cfg, p, seen.ts_cut, answers);
        if deploy::stopped_spec(w3) {
            w3
        } else {
            let (w4, bought) = bull::bull_sweep_spec(
                w3,
                cfg,
                seen.names,
                seen.ts_cut,
                seen.reserves,
                answers,
            );
            if deploy::stopped_spec(w4) {
                w4
            } else {
                stage_last_spec(w4, cfg, p, seen.keep, answers)
            }
        }
    }
}

fn act(w: Work, cfg: &Config, seen: &Seen, part: &Json, answers: &Vec<Answer>) -> (r: Work)
    ensures
        r.deep_view() == act_spec(
            w.deep_view(),
            cfg.deep_view(),
            seen.deep_view(),
            part@,
            answers.deep_view(),
        ),
{
    let offquote = object_in(&w.st, "offquote");
    let (w1, p) = see_all(w, cfg, seen, offquote);
    let w2 = deploy::save_state(committed(w1, &p, part, seen.ts_cut), answers);
    if deploy::stopped(&w2) {
        return w2;
    }
    let w3 = ladder_all(w2, cfg, &p, seen.ts_cut, answers);
    if deploy::stopped(&w3) {
        return w3;
    }
    let (w4, bought) = bull::bull_sweep(
        w3,
        cfg,
        &seen.names,
        seen.ts_cut,
        &seen.reserves,
        answers,
    );
    if deploy::stopped(&w4) {
        return w4;
    }
    stage_last(w4, cfg, &p, seen.keep, answers)
}

/// Report a conversion that failed.
pub open spec fn warn_converted_spec(w: WorkView, failed: Option<Seq<char>>) -> WorkView {
    match failed {
        Some(e) => deploy::warn_spec(
            w,
            "gate USDC -> USDT conversion failed (top-up keeps its currency, retried next run): "@
                + e,
        ),
        None => w,
    }
}

fn warn_converted(w: Work, failed: Option<&str>) -> (r: Work)
    ensures
        r.deep_view() == warn_converted_spec(w.deep_view(), failed.deep_view()),
{
    match failed {
        Some(e) => {
            let mut line = text::owned(
                "gate USDC -> USDT conversion failed (top-up keeps its currency, retried next run): ",
            );
            line.push_str(e);
            deploy::warn(w, line)
        },
        None => w,
    }
}

/// Read the venues, and act on what is seen.
pub open spec fn look_spec(
    w: WorkView,
    cfg: ConfigView,
    names: Seq<Seq<char>>,
    ts_cut: Double,
    kept_: KeptView,
    answers: Seq<AnswerView>,
) -> WorkView {
    let inflight = onramp::inflight_marker_spec(w.st.get("inflight"@));
    let (w1, converted) = onramp::gate_convert_spec(w, cfg, answers);
    if deploy::stopped_spec(w1) {
        w1
    } else {
        let w2 = warn_converted_spec(w1, converted);
        let (w3, full) = read_all_spec(w2, names, answers);
        if deploy::stopped_spec(w3) {
            w3
        } else {
            let x = explained_spec(journal::rows_alone(w3.journal), w3.st, names);
            let zones = journal::open_rows_spec(
                journal::rows_alone(w3.journal),
                Some("deploy_buy"@),
            );
            let baselines = object_in_spec(w3.st, "stable"@);
            let (w4, r) = reserve_of_spec(w3, cfg, full, inflight, kept_.unknown, answers);
            if deploy::stopped_spec(w4) {
                w4
            } else {
                let seen = SeenView {
                    names,
                    full,
                    deltas: x.deltas,
                    zones,
                    baselines,
                    reserves: r.reserves,
                    rx_reserve: r.full,
                    keep: kept_.keep,
                    ts_cut,
                };
                act_spec(w4, cfg, seen, x.part, answers)
            }
        }
    }
}

fn look(
    w: Work,
    cfg: &Config,
    names: &Vec<String>,
    ts_cut: Double,
    kept_: &Kept,
    answers: &Vec<Answer>,
) -> (r: Work)
    ensures
        r.deep_view() == look_spec(
            w.deep_view(),
            cfg.deep_view(),
            names.deep_view(),
            ts_cut,
            kept_.deep_view(),
            answers.deep_view(),
        ),
{
    let inflight = onramp::inflight_marker(w.st.get("inflight"));
    let (w1, converted) = onramp::gate_convert(w, cfg, answers);
    if deploy::stopped(&w1) {
        return w1;
    }
    let w2 = warn_converted(w1, list::text_ref(&converted));
    let (w3, full) = read_all(w2, names, answers);
    if deploy::stopped(&w3) {
        return w3;
    }
    let x = explained(&&w3.journal.rows(), &w3.st, names);
    let zones = journal::open_rows(&&w3.journal.rows(), Some("deploy_buy"));
    let baselines = object_in(&w3.st, "stable");
    let (w4, r) = reserve_of(w3, cfg, &full, inflight, kept_.unknown, answers);
    if deploy::stopped(&w4) {
        return w4;
    }
    let seen = Seen {
        names: names.dup(),
        full,
        deltas: x.deltas.dup(),
        zones,
        baselines,
        reserves: r.reserves.dup(),
        rx_reserve: r.full,
        keep: kept_.keep,
        ts_cut,
    };
    act(w4, cfg, &seen, &x.part, answers)
}

/// Report an onramp that failed.
pub open spec fn warn_kept_spec(w: WorkView, k: KeptView) -> WorkView {
    match k.error {
        Some(e) => deploy::warn_spec(
            w,
            "revx onramp conversion failed (deposit keeps its currency, retried next run): "@ + e,
        ),
        None => w,
    }
}

fn warn_kept(w: Work, k: &Kept) -> (r: Work)
    ensures
        r.deep_view() == warn_kept_spec(w.deep_view(), k.deep_view()),
{
    match &k.error {
        Some(e) => {
            let mut line = text::owned(
                "revx onramp conversion failed (deposit keeps its currency, retried next run): ",
            );
            line.push_str(e.as_str());
            deploy::warn(w, line)
        },
        None => w,
    }
}

/// A run that may trade.
pub open spec fn trade_spec(w: WorkView, cfg: ConfigView, answers: Seq<AnswerView>) -> WorkView {
    let (w1, names) = deploy::clients_spec(w, answers);
    if deploy::stopped_spec(w1) {
        w1
    } else {
        let (w2, ts_cut) = deploy::need_number_spec(w1, AskView::Now, answers);
        if deploy::stopped_spec(w2) {
            w2
        } else {
            let w3 = placing::resume_pending_spec(w2, cfg, answers);
            if deploy::stopped_spec(w3) {
                w3
            } else {
                let (w4, k) = onramp::onramp_spec(w3, cfg, answers);
                if deploy::stopped_spec(w4) {
                    w4
                } else {
                    look_spec(warn_kept_spec(w4, k), cfg, names, ts_cut, k, answers)
                }
            }
        }
    }
}

fn trade(w: Work, cfg: &Config, answers: &Vec<Answer>) -> (r: Work)
    ensures
        r.deep_view() == trade_spec(w.deep_view(), cfg.deep_view(), answers.deep_view()),
{
    let (w1, names) = deploy::clients(w, answers);
    if deploy::stopped(&w1) {
        return w1;
    }
    let (w2, ts_cut) = deploy::need_number(w1, Ask::Now, answers);
    if deploy::stopped(&w2) {
        return w2;
    }
    let w3 = placing::resume_pending(w2, cfg, answers);
    if deploy::stopped(&w3) {
        return w3;
    }
    let (w4, k) = onramp::onramp(w3, cfg, answers);
    if deploy::stopped(&w4) {
        return w4;
    }
    look(warn_kept(w4, &k), cfg, &names, ts_cut, &k, answers)
}

/// A run that may not trade: reported once.
pub open spec fn idle_spec(w: WorkView, reason: Seq<char>, answers: Seq<AnswerView>) -> WorkView {
    if w.st.has_truthy("blocked"@) {
        w
    } else {
        let w = WorkView { st: w.st.set("blocked"@, Doc::Str(reason)), ..w };
        let v = deploy::save_state_spec(w, answers);
        if deploy::stopped_spec(v) {
            v
        } else {
            deploy::warn_spec(v, "deploy layer idle: "@ + reason)
        }
    }
}

fn idle(w: Work, reason: &str, answers: &Vec<Answer>) -> (r: Work)
    ensures
        r.deep_view() == idle_spec(w.deep_view(), reason@, answers.deep_view()),
{
    let mut w = w;
    if w.st.has_truthy("blocked") {
        return w;
    }
    w.st.set("blocked", Json::text(reason));
    let v = deploy::save_state(w, answers);
    if deploy::stopped(&v) {
        return v;
    }
    let mut line = text::owned("deploy layer idle: ");
    line.push_str(reason);
    deploy::warn(v, line)
}

/// Forget that the layer was idle.
pub open spec fn unblock_spec(w: WorkView, answers: Seq<AnswerView>) -> WorkView {
    let was = w.st.has_truthy("blocked"@);
    let st = w.st;
    let st = st.removed("blocked"@);
    let w = WorkView { st, ..w };
    if was {
        deploy::save_state_spec(w, answers)
    } else {
        w
    }
}

fn unblock(w: Work, answers: &Vec<Answer>) -> (r: Work)
    ensures
        r.deep_view() == unblock_spec(w.deep_view(), answers.deep_view()),
{
    let mut w = w;
    let was = w.st.has_truthy("blocked");
    let mut st = w.st.dup();
    st = json::without(st, "blocked");
    w.st = st;
    if was {
        return deploy::save_state(w, answers);
    }
    w
}

/// One run of the layer. Its results are in `out`; `fault` is a failure the layer does not catch,
/// which the run reports as `deploy layer: ...`.
pub open spec fn check_spec(w: WorkView, cfg: ConfigView, answers: Seq<AnswerView>) -> WorkView {
    if cfg.deploy != "live"@ {
        w
    } else {
        match deploy::blocked_spec(cfg) {
            Some(reason) => idle_spec(w, reason, answers),
            None => {
                let v = unblock_spec(w, answers);
                if deploy::stopped_spec(v) {
                    v
                } else {
                    trade_spec(v, cfg, answers)
                }
            },
        }
    }
}

/// One run of the layer. Its results are in `out`; `fault` is a failure the layer does not catch,
/// which the run reports as `deploy layer: ...`.
pub fn check(w: Work, cfg: &Config, answers: &Vec<Answer>) -> (r: Work)
    ensures
        r.deep_view() == check_spec(w.deep_view(), cfg.deep_view(), answers.deep_view()),
{
    if !text::same(cfg.deploy.as_str(), "live") {
        return w;
    }
    match deploy::blocked(cfg) {
        Some(reason) => idle(w, reason.as_str(), answers),
        None => {
            let v = unblock(w, answers);
            if deploy::stopped(&v) {
                return v;
            }
            trade(v, cfg, answers)
        },
    }
}

/// The deploy hook a live run calls.
#[derive(Clone, Copy, Debug, Default)]
pub struct DeployLayer;

impl DeployLayer {
    /// One run of the layer.
    pub fn check(&self, w: Work, cfg: &Config, answers: &Vec<Answer>) -> (r: Work)
        ensures
            r.deep_view() == check_spec(w.deep_view(), cfg.deep_view(), answers.deep_view()),
    {
        check(w, cfg, answers)
    }
}

// ------------------------------------------------------------------ laws
/// A cold start deploys nothing: it records the baseline.
pub proof fn law_a_cold_start_deploys_nothing(
    w: WorkView,
    cfg: ConfigView,
    seen: SeenView,
    exch: Seq<char>,
    q: Seq<char>,
    b: Balance,
    p: PassView,
)
    requires
        seen.baselines.get(exch) is None,
        p.baseline is Obj,
    ensures
        ({
            let r = see_venue_spec(w, cfg, seen, exch, q, b, p).1;
            &&& r.tranches == p.tranches
            &&& r.sweeps == p.sweeps
            &&& r.withholds == p.withholds
            &&& r.baseline.get(exch) == Some(Doc::Float(b.free.add_spec(b.locked)))
        }),
{
    json::law_set_then_get(p.baseline, exch, Doc::Float(b.free.add_spec(b.locked)), exch);
}

/// Before anything is journaled or placed, the state is written with the next baseline: the
/// first thing a decided run asks for is that write, with the journal as it was.
pub proof fn law_the_baseline_is_written_first(
    w: WorkView,
    cfg: ConfigView,
    seen: SeenView,
    part: Doc,
    answers: Seq<AnswerView>,
)
    requires
        !deploy::stopped_spec(w),
        w.at as int == answers.len(),
        w.st is Obj,
    ensures
        ({
            let v = act_spec(w, cfg, seen, part, answers);
            let p = see_all_spec(w, cfg, seen, object_in_spec(w.st, "offquote"@)).1;
            &&& v.ask == Some(AskView::SaveState)
            &&& v.journal == w.journal
            &&& v.st.get("stable"@) == Some(p.baseline)
        }),
{
    let (w1, p) = see_all_spec(w, cfg, seen, object_in_spec(w.st, "offquote"@));
    let pass = PassView {
        baseline: Doc::obj(),
        offquote: object_in_spec(w.st, "offquote"@),
        tranches: Seq::empty(),
        sweeps: Seq::empty(),
        withholds: Seq::empty(),
    };
    lemma_seeing_only_reports(w, cfg, seen, seen.names, pass, seen.names.len());
    let s1 = w1.st.set("ts"@, Doc::Float(seen.ts_cut));
    let s2 = s1.set("stable"@, p.baseline);
    let s3 = s2.set("part"@, part);
    json::law_set_then_get(s1, "stable"@, p.baseline, "stable"@);
    reveal_strlit("stable");
    reveal_strlit("part");
    reveal_strlit("offquote");
    assert("stable"@.len() != "part"@.len());
    assert("stable"@.len() != "offquote"@.len());
    json::law_set_then_get(s2, "part"@, part, "stable"@);
    json::law_set_then_get(s3, "offquote"@, p.offquote, "stable"@);
}

proof fn lemma_seeing_one_only_reports(
    w: WorkView,
    cfg: ConfigView,
    seen: SeenView,
    exch: Seq<char>,
    p: PassView,
)
    ensures
        ({
            let v = see_one_spec(w, cfg, seen, exch, p).0;
            v.journal == w.journal && v.st == w.st && v.at == w.at && v.ask == w.ask && v.fault == w.fault
        }),
{
}

proof fn lemma_seeing_only_reports(
    w: WorkView,
    cfg: ConfigView,
    seen: SeenView,
    names: Seq<Seq<char>>,
    p: PassView,
    n: nat,
)
    requires
        n <= names.len(),
    ensures
        ({
            let v = see_each_spec(cfg, seen, names, w, p, n).0;
            v.journal == w.journal && v.st == w.st && v.at == w.at && v.ask == w.ask && v.fault == w.fault
        }),
    decreases n,
{
    if n > 0 {
        lemma_seeing_only_reports(w, cfg, seen, names, p, (n - 1) as nat);
        let (v, q) = see_each_spec(cfg, seen, names, w, p, (n - 1) as nat);
        lemma_seeing_one_only_reports(v, cfg, seen, names[n - 1], q);
    }
}

proof fn lemma_kept(seen: SeenView, xs: Seq<(Seq<char>, Doc)>, p: PassView, k: Seq<char>, n: nat)
    requires
        n <= xs.len(),
        p.baseline is Obj,
        !seen.names.contains(k),
    ensures
        ({
            let r = keep_baselines_spec(seen, xs, p, n);
            &&& r.baseline is Obj
            &&& r.baseline.get(k) == match p.baseline.get(k) {
                Some(v) => Some(v),
                None => first_under(xs, k, n),
            }
        }),
    decreases n,
{
    if n > 0 {
        lemma_kept(seen, xs, p, k, (n - 1) as nat);
        let r = keep_baselines_spec(seen, xs, p, (n - 1) as nat);
        json::law_set_then_get(r.baseline, xs[n - 1].0, xs[n - 1].1, k);
    }
}

/// The value of the first of the first `n` entries under a key.
pub open spec fn first_under(xs: Seq<(Seq<char>, Doc)>, k: Seq<char>, n: nat) -> Option<Doc>
    decreases n,
{
    if n == 0 {
        None
    } else {
        match first_under(xs, k, (n - 1) as nat) {
            Some(v) => Some(v),
            None => if xs[n - 1].0 == k {
                Some(xs[n - 1].1)
            } else {
                None
            },
        }
    }
}

proof fn lemma_first_under(xs: Seq<(Seq<char>, Doc)>, k: Seq<char>, n: nat)
    requires
        n <= xs.len(),
    ensures
        first_under(xs, k, n) == (if json::spot(xs, k, 0) < n {
            Some(xs[json::spot(xs, k, 0)].1)
        } else {
            None
        }),
    decreases n,
{
    json::lemma_spot(xs, k, 0);
    if n > 0 {
        lemma_first_under(xs, k, (n - 1) as nat);
    }
}

/// A venue without a client this run keeps its baseline.
pub proof fn law_a_venue_without_a_client_keeps_its_baseline(
    p: PassView,
    seen: SeenView,
    exch: Seq<char>,
)
    requires
        p.baseline is Obj,
        p.baseline.get(exch) is None,
        !seen.names.contains(exch),
    ensures
        keep_clientless_spec(p, seen).baseline.get(exch) == seen.baselines.get(exch),
{
    let xs = seen.baselines.entries();
    lemma_kept(seen, xs, p, exch, xs.len());
    lemma_first_under(xs, exch, xs.len());
    json::lemma_spot(xs, exch, 0);
}

/// Without Gate's book the reserve is unknown, and everything free on Revolut X is held.
pub proof fn law_an_unknown_reserve_holds_everything(
    w: WorkView,
    cfg: ConfigView,
    full: Seq<(Seq<char>, Option<Seq<(Seq<char>, Balance)>>)>,
    inflight: bool,
    unknown: bool,
    answers: Seq<AnswerView>,
)
    requires
        nonempty_book_spec(full, "revx"@) is Some,
        nonempty_book_spec(full, "gate"@) is None,
    ensures
        reserve_of_spec(w, cfg, full, inflight, unknown, answers).1.reserves == seq![
            (
                "revx"@,
                deploy::held_of_spec(
                    nonempty_book_spec(full, "revx"@)->0,
                    deploy::quote_of_spec(cfg, "revx"@),
                ).free,
            ),
        ],
{
}

/// That the layer may not trade is reported once: while it is recorded, nothing happens.
pub proof fn law_idle_is_reported_once(
    w: WorkView,
    cfg: ConfigView,
    answers: Seq<AnswerView>,
)
    requires
        deploy::blocked_spec(cfg) is Some,
        w.st.has_truthy("blocked"@),
    ensures
        check_spec(w, cfg, answers) == w,
{
}

/// What a venue holds beyond its baseline and the fills that explain it.
pub open spec fn new_capital(seen: SeenView, exch: Seq<char>, b: Balance) -> Double {
    b.free.add_spec(b.locked).sub_spec(
        deploy::num_or_zero_spec(seen.baselines.get(exch)).add_spec(
            deploy::free_in_spec(seen.deltas, exch),
        ),
    )
}

/// New capital deploys as one tranche at most, of at least the minimum, and never of more than
/// is new, than a tranche may be, or than is free beside the reserve.
pub proof fn law_a_tranche_is_within_its_bounds(
    w: WorkView,
    cfg: ConfigView,
    seen: SeenView,
    exch: Seq<char>,
    q: Seq<char>,
    b: Balance,
    p: PassView,
)
    ensures
        ({
            let before = p.tranches;
            let after = see_capital_spec(w, cfg, seen, exch, q, b, p).1.tranches;
            let held = deploy::free_in_spec(seen.reserves, exch);
            let t = after.last().amount;
            after == before || {
                &&& after == before.push(TrancheView { exch, quote: q, amount: t })
                &&& cfg.deploy_min_usd.le_spec(t)
                &&& cfg.deploy_min_usd.le_spec(new_capital(seen, exch, b))
                &&& t.le_spec(new_capital(seen, exch, b))
                &&& !cfg.deploy_max_tranche_usd.lt_spec(t)
                &&& !b.free.sub_spec(held).max_spec(Double::zero_spec()).lt_spec(t)
            }
        }),
{
}

/// Positive dust is carried: it deploys nothing and the baseline stays what was expected, so it
/// counts again with what comes next. A withdrawal deploys nothing either, and the baseline
/// becomes what is there.
pub proof fn law_dust_is_carried(
    w: WorkView,
    cfg: ConfigView,
    seen: SeenView,
    exch: Seq<char>,
    q: Seq<char>,
    b: Balance,
    p: PassView,
)
    requires
        p.baseline is Obj,
        !cfg.deploy_min_usd.le_spec(new_capital(seen, exch, b)),
    ensures
        ({
            let r = see_capital_spec(w, cfg, seen, exch, q, b, p).1;
            let total = b.free.add_spec(b.locked);
            let expected = deploy::num_or_zero_spec(seen.baselines.get(exch)).add_spec(
                deploy::free_in_spec(seen.deltas, exch),
            );
            &&& r.tranches == p.tranches
            &&& r.baseline.get(exch) == Some(
                Doc::Float(
                    if Double::zero_spec().lt_spec(new_capital(seen, exch, b)) {
                        expected
                    } else {
                        total
                    },
                ),
            )
        }),
{
    let total = b.free.add_spec(b.locked);
    let expected = deploy::num_or_zero_spec(seen.baselines.get(exch)).add_spec(
        deploy::free_in_spec(seen.deltas, exch),
    );
    json::law_set_then_get(p.baseline, exch, Doc::Float(total), exch);
    json::law_set_then_get(p.baseline, exch, Doc::Float(expected), exch);
}

/// A buy that fills takes what it spent off a venue's quote, what was netted before left out, and a
/// sale adds what it brought.
pub proof fn law_a_buy_takes_quote_and_a_sale_brings_it(
    o: OrderView,
    part_prev: Doc,
    filled: Double,
)
    requires
        o.filled_quote == Some(filled),
        filled.finite(),
        filled.amount() >= 0,
        deploy::num_or_zero_spec(part_prev.get(o.client_id)).finite(),
        deploy::num_or_zero_spec(part_prev.get(o.client_id)).amount() >= 0,
    ensures
        ({
            let r = fill_delta_spec(o, part_prev);
            let before = deploy::num_or_zero_spec(part_prev.get(o.client_id)).amount();
            &&& o.side != "buy"@ ==> r.amount() == filled.amount()
            &&& o.side == "buy"@ ==> {
                &&& -filled.amount() <= r.amount() <= 0
                &&& before == 0 ==> r.amount() == -filled.amount()
                &&& before >= filled.amount() ==> r.amount() == 0
                &&& before < filled.amount() ==> rounding::grain() * rounding::size(
                    filled.amount() - before + r.amount(),
                ) <= -r.amount() + rounding::least()
            }
        }),
{
    crate::double::lemma_scaled_zero();
    rounding::lemma_rest(filled, deploy::num_or_zero_spec(part_prev.get(o.client_id)));
}

/// What an open zone has filled takes its cost off a venue's quote, what was netted before left
/// out.
pub proof fn law_a_partial_fill_takes_quote(o: OrderView, part_prev: Doc, part: Double)
    requires
        o.part_quote == Some(part),
        part.finite(),
        part.amount() >= 0,
        deploy::num_or_zero_spec(part_prev.get(o.client_id)).finite(),
        deploy::num_or_zero_spec(part_prev.get(o.client_id)).amount() >= 0,
    ensures
        ({
            let r = part_delta_spec(o, part_prev);
            let before = deploy::num_or_zero_spec(part_prev.get(o.client_id)).amount();
            &&& -part.amount() <= r.amount() <= 0
            &&& before == 0 ==> r.amount() == -part.amount()
            &&& before >= part.amount() ==> r.amount() == 0
            &&& before < part.amount() ==> rounding::grain() * rounding::size(
                part.amount() - before + r.amount(),
            ) <= -r.amount() + rounding::least()
        }),
{
    crate::double::lemma_scaled_zero();
    rounding::lemma_rest(part, deploy::num_or_zero_spec(part_prev.get(o.client_id)));
}

/// A deposit deploys as itself: where a venue holds `d` more than its baseline and the fills since
/// come to, and nothing is reserved, `d` is the tranche and the baseline becomes what is there.
pub proof fn law_a_deposit_is_deployed(
    w: WorkView,
    cfg: ConfigView,
    seen: SeenView,
    exch: Seq<char>,
    q: Seq<char>,
    b: Balance,
    p: PassView,
    there: Double,
    due: Double,
    d: Double,
)
    requires
        p.baseline is Obj,
        b.free.finite(),
        b.locked.finite(),
        deploy::num_or_zero_spec(seen.baselines.get(exch)).finite(),
        deploy::free_in_spec(seen.deltas, exch).finite(),
        deploy::free_in_spec(seen.reserves, exch).finite(),
        deploy::free_in_spec(seen.reserves, exch).amount() == 0,
        there.finite(),
        there.amount() == b.free.amount() + b.locked.amount(),
        due.finite(),
        due.amount() == deploy::num_or_zero_spec(seen.baselines.get(exch)).amount()
            + deploy::free_in_spec(seen.deltas, exch).amount(),
        d.finite(),
        d.amount() == there.amount() - due.amount(),
        0 <= d.amount() <= b.free.amount(),
        cfg.deploy_min_usd.le_spec(d),
        d.le_spec(cfg.deploy_max_tranche_usd),
    ensures
        ({
            let r = see_capital_spec(w, cfg, seen, exch, q, b, p).1;
            &&& r.tranches.len() == p.tranches.len() + 1
            &&& r.tranches.last().exch == exch
            &&& r.tranches.last().quote == q
            &&& r.tranches.last().amount.amount() == d.amount()
            &&& r.baseline.get(exch) matches Some(Doc::Float(x)) && x.amount() == there.amount()
        }),
{
    let base = deploy::num_or_zero_spec(seen.baselines.get(exch));
    let delta = deploy::free_in_spec(seen.deltas, exch);
    let held = deploy::free_in_spec(seen.reserves, exch);
    crate::double::lemma_scaled_zero();
    rounding::lemma_exact_sum(b.free, b.locked, there);
    rounding::lemma_exact_sum(base, delta, due);
    let total = b.free.add_spec(b.locked);
    let expected = base.add_spec(delta);
    rounding::lemma_exact_difference(total, expected, d);
    rounding::lemma_exact_difference(b.free, held, b.free);
    let unexplained = total.sub_spec(expected);
    let tranche = unexplained.min_spec(cfg.deploy_max_tranche_usd).min_spec(
        b.free.sub_spec(held).max_spec(Double::zero_spec()),
    );
    rounding::lemma_exact_difference(unexplained, tranche, Double::zero_spec());
    rounding::lemma_exact_difference(total, unexplained.sub_spec(tranche), there);
    json::law_set_then_get(
        p.baseline,
        exch,
        Doc::Float(total.sub_spec(unexplained.sub_spec(tranche))),
        exch,
    );
}

/// Of a deposit over what a tranche may be, that much deploys, the baseline rises by no more, and
/// the rest counts again as new.
pub proof fn law_a_large_deposit_deploys_in_turns(
    w: WorkView,
    cfg: ConfigView,
    seen: SeenView,
    exch: Seq<char>,
    q: Seq<char>,
    b: Balance,
    p: PassView,
    there: Double,
    due: Double,
    d: Double,
    later: Double,
    next: Double,
)
    requires
        p.baseline is Obj,
        b.free.finite(),
        b.locked.finite(),
        deploy::num_or_zero_spec(seen.baselines.get(exch)).finite(),
        deploy::free_in_spec(seen.deltas, exch).finite(),
        deploy::free_in_spec(seen.reserves, exch).finite(),
        deploy::free_in_spec(seen.reserves, exch).amount() == 0,
        cfg.deploy_max_tranche_usd.finite(),
        there.finite(),
        there.amount() == b.free.amount() + b.locked.amount(),
        due.finite(),
        due.amount() == deploy::num_or_zero_spec(seen.baselines.get(exch)).amount()
            + deploy::free_in_spec(seen.deltas, exch).amount(),
        d.finite(),
        d.amount() == there.amount() - due.amount(),
        0 <= cfg.deploy_max_tranche_usd.amount() < d.amount() <= b.free.amount(),
        later.finite(),
        later.amount() == d.amount() - cfg.deploy_max_tranche_usd.amount(),
        next.finite(),
        next.amount() == due.amount() + cfg.deploy_max_tranche_usd.amount(),
        cfg.deploy_min_usd.le_spec(cfg.deploy_max_tranche_usd),
    ensures
        ({
            let r = see_capital_spec(w, cfg, seen, exch, q, b, p).1;
            &&& r.tranches.len() == p.tranches.len() + 1
            &&& r.tranches.last().amount == cfg.deploy_max_tranche_usd
            &&& r.baseline.get(exch) matches Some(Doc::Float(x)) && x.amount() == next.amount()
        }),
{
    let base = deploy::num_or_zero_spec(seen.baselines.get(exch));
    let delta = deploy::free_in_spec(seen.deltas, exch);
    let held = deploy::free_in_spec(seen.reserves, exch);
    crate::double::lemma_scaled_zero();
    rounding::lemma_exact_sum(b.free, b.locked, there);
    rounding::lemma_exact_sum(base, delta, due);
    let total = b.free.add_spec(b.locked);
    let expected = base.add_spec(delta);
    rounding::lemma_exact_difference(total, expected, d);
    rounding::lemma_exact_difference(b.free, held, b.free);
    let unexplained = total.sub_spec(expected);
    let cap = cfg.deploy_max_tranche_usd;
    rounding::lemma_exact_difference(unexplained, cap, later);
    rounding::lemma_exact_difference(total, unexplained.sub_spec(cap), next);
    json::law_set_then_get(
        p.baseline,
        exch,
        Doc::Float(total.sub_spec(unexplained.sub_spec(cap))),
        exch,
    );
}

/// Where a venue holds what its baseline and the fills since come to, nothing deploys.
pub proof fn law_fills_alone_deploy_nothing(
    w: WorkView,
    cfg: ConfigView,
    seen: SeenView,
    exch: Seq<char>,
    q: Seq<char>,
    b: Balance,
    p: PassView,
    there: Double,
)
    requires
        p.baseline is Obj,
        b.free.finite(),
        b.locked.finite(),
        deploy::num_or_zero_spec(seen.baselines.get(exch)).finite(),
        deploy::free_in_spec(seen.deltas, exch).finite(),
        there.finite(),
        there.amount() == b.free.amount() + b.locked.amount(),
        there.amount() == deploy::num_or_zero_spec(seen.baselines.get(exch)).amount()
            + deploy::free_in_spec(seen.deltas, exch).amount(),
        Double::zero_spec().lt_spec(cfg.deploy_min_usd),
    ensures
        ({
            let r = see_capital_spec(w, cfg, seen, exch, q, b, p).1;
            &&& r.tranches == p.tranches
            &&& r.baseline.get(exch) matches Some(Doc::Float(x)) && x.amount() == there.amount()
        }),
{
    let base = deploy::num_or_zero_spec(seen.baselines.get(exch));
    let delta = deploy::free_in_spec(seen.deltas, exch);
    crate::double::lemma_scaled_zero();
    rounding::lemma_exact_sum(b.free, b.locked, there);
    rounding::lemma_exact_sum(base, delta, there);
    let total = b.free.add_spec(b.locked);
    rounding::lemma_exact_difference(total, base.add_spec(delta), Double::zero_spec());
    json::law_set_then_get(p.baseline, exch, Doc::Float(total), exch);
}

/// What an open zone still rests with is what it holds less what it has filled, never less than
/// nothing.
pub proof fn law_a_resting_quote_leaves_the_fills_out(
    rows: Seq<OrderView>,
    i: int,
    quote: Double,
    part: Double,
)
    requires
        0 <= i < rows.len(),
        rows[i].quote == Some(quote),
        rows[i].part_quote == Some(part),
        quote.finite(),
        part.finite(),
        0 <= quote.amount(),
        0 <= part.amount(),
    ensures
        ({
            let left = add_resting_quote_spec(rows, Seq::empty(), rows.len())[i];
            &&& 0 <= left.amount() <= quote.amount()
            &&& part.amount() == 0 ==> left.amount() == quote.amount()
            &&& part.amount() >= quote.amount() ==> left.amount() == 0
            &&& part.amount() < quote.amount() ==> rounding::grain() * rounding::size(
                left.amount() + part.amount() - quote.amount(),
            ) <= left.amount() + rounding::least()
        }),
        ({
            let left = add_unspent_spec(rows, Seq::empty(), rows.len())[i];
            &&& left.amount() < 0 <==> quote.amount() < part.amount()
            &&& part.amount() == 0 ==> left.amount() == quote.amount()
            &&& left.finite() ==> rounding::grain() * rounding::size(
                left.amount() + part.amount() - quote.amount(),
            ) <= rounding::size(left.amount()) + rounding::least()
        }),
{
    crate::double::lemma_scaled_zero();
    rounding::lemma_rest(quote, part);
    rounding::lemma_sub_sign(quote, part);
    if quote.sub_spec(part).finite() {
        rounding::lemma_sub_error(quote, part);
    }
    if part.amount() == 0 {
        rounding::lemma_exact_difference(quote, part, quote);
    }
}

/// A sweep is of the freed money that is still free beside the reserve: the lesser of what the zones
/// never spent and what is free, after a day's wait, and only while nothing is new.
pub proof fn law_a_sweep_is_of_freed_money_only(
    w: WorkView,
    cfg: ConfigView,
    seen: SeenView,
    exch: Seq<char>,
    q: Seq<char>,
    b: Balance,
    p: PassView,
    beside: Double,
    waited: Double,
)
    requires
        b.free.finite(),
        deploy::free_in_spec(seen.reserves, exch).finite(),
        beside.finite(),
        beside.amount() == b.free.amount() - deploy::free_in_spec(seen.reserves, exch).amount(),
        seen.ts_cut.finite(),
        stuck_since_spec(w.st, "sweep_stuck"@, exch).finite(),
        waited.finite(),
        waited.amount() == seen.ts_cut.amount() - stuck_since_spec(
            w.st,
            "sweep_stuck"@,
            exch,
        ).amount(),
        crate::watch::pyfmt::sum_spec(
            unspent_quotes_spec(freed_rows_spec(journal::rows_alone(w.journal), exch)),
        ).finite(),
    ensures
        ({
            let r = see_idle_spec(w, cfg, seen, exch, q, b, p).1;
            let freed = crate::watch::pyfmt::sum_spec(
                unspent_quotes_spec(freed_rows_spec(journal::rows_alone(w.journal), exch)),
            ).amount();
            r.sweeps.len() > p.sweeps.len() ==> {
                let s = r.sweeps.last();
                &&& r.sweeps.len() == p.sweeps.len() + 1
                &&& s.exch == exch
                &&& s.idle.amount() == (if freed < beside.amount() {
                    freed
                } else {
                    beside.amount()
                })
                &&& cfg.deploy_min_usd.le_spec(s.idle)
                &&& waited.amount() >= 86400 * crate::double::unit()
                &&& cfg.deploy_sweep_idle
            }
        }),
{
    rounding::lemma_whole_is_exact(86400);
    rounding::lemma_exact_difference(b.free, deploy::free_in_spec(seen.reserves, exch), beside);
    rounding::lemma_exact_difference(
        seen.ts_cut,
        stuck_since_spec(w.st, "sweep_stuck"@, exch),
        waited,
    );
}

/// What is withheld is what the reserve lacks, no more than the zones rest with.
pub proof fn law_a_withhold_is_what_the_reserve_lacks(
    w: WorkView,
    cfg: ConfigView,
    seen: SeenView,
    exch: Seq<char>,
    q: Seq<char>,
    b: Balance,
    u: Balance,
    p: PassView,
    usdc: Double,
    stable: Double,
    lacks: Double,
)
    requires
        b.free.finite(),
        u.free.finite(),
        u.locked.finite(),
        seen.rx_reserve.finite(),
        usdc.finite(),
        usdc.amount() == u.free.amount() + u.locked.amount(),
        stable.finite(),
        stable.amount() == b.free.amount() + usdc.amount(),
        lacks.finite(),
        lacks.amount() == seen.rx_reserve.amount() - stable.amount(),
        crate::watch::pyfmt::sum_spec(
            resting_quotes_spec(venue_zones_spec(seen.zones, exch)),
        ).finite(),
    ensures
        ({
            let r = see_withhold_spec(w, cfg, seen, exch, q, b, u, p).1;
            let resting = crate::watch::pyfmt::sum_spec(
                resting_quotes_spec(venue_zones_spec(seen.zones, exch)),
            ).amount();
            r.withholds.len() > p.withholds.len() ==> {
                let t = r.withholds.last();
                &&& t.exch == exch
                &&& t.amount.amount() == (if resting < lacks.amount() {
                    resting
                } else {
                    lacks.amount()
                })
                &&& cfg.deploy_min_usd.le_spec(t.amount)
                &&& exch == "revx"@
            }
        }),
{
    rounding::lemma_exact_sum(u.free, u.locked, usdc);
    rounding::lemma_exact_sum(b.free, u.free.add_spec(u.locked), stable);
    rounding::lemma_exact_difference(
        seen.rx_reserve,
        b.free.add_spec(u.free.add_spec(u.locked)),
        lacks,
    );
}

} // verus!
