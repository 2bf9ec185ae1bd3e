//! Ladder churn from the order journal: how often the resting zones are rolled (every
//! rung cancelled and re-placed), how many rungs that costs per fill, and how long a rung
//! lives before it is replaced. Read-only.
//!
//! A roll event is a cluster of our own roll cancels on one venue whose replacements
//! were placed in the same 15-minute window; our cancels carry no cancel timestamp, so
//! the event time is the replacement's placement time.
use crate::deploy;
use crate::double::Double;
use crate::journal::{Order, OrderView};
use crate::list;
use crate::list::Duplicate;
use crate::pyfmt;
use crate::rounding;
use crate::text;
use crate::watch::json;
use crate::watch::json::{Doc, Json};
use vstd::prelude::*;

verus! {

/// The note a roll cancel carries.
pub const ROLL_NOTE: &'static str = "rolled into new tranche";

/// One roll event: when (the bucket start), where, and each rolled rung's lifetime in hours.
#[derive(Debug)]
pub struct RollEvent {
    pub ts: Double,
    pub exch: String,
    pub lifetimes_h: Vec<Double>,
}

/// What a [`RollEvent`] holds.
pub struct RollEventView {
    pub ts: Double,
    pub exch: Seq<char>,
    pub lifetimes_h: Seq<Double>,
}

impl DeepView for RollEvent {
    type V = RollEventView;

    open spec fn deep_view(&self) -> RollEventView {
        RollEventView {
            ts: self.ts,
            exch: self.exch@,
            lifetimes_h: self.lifetimes_h.deep_view(),
        }
    }
}

impl Duplicate for RollEvent {
    fn dup(&self) -> (r: RollEvent) {
        RollEvent {
            ts: self.ts,
            exch: text::owned(self.exch.as_str()),
            lifetimes_h: self.lifetimes_h.dup(),
        }
    }
}

/// Whether a row is a rung of a ladder.
pub open spec fn is_deploy_rung_spec(o: OrderView) -> bool {
    o.kind == "deploy_buy"@ && deploy::truthy_int_spec(o.rung)
}

fn is_deploy_rung(o: &Order) -> (r: bool)
    ensures
        r == is_deploy_rung_spec(o.deep_view()),
{
    text::same(o.kind.as_str(), "deploy_buy") && deploy::truthy_int(o.rung)
}

/// Of the first `n` rows.
pub open spec fn add_dated_spec(xs: Seq<OrderView>, out: Seq<OrderView>, n: nat) -> Seq<OrderView>
    decreases n,
{
    if n == 0 {
        out
    } else {
        let out = add_dated_spec(xs, out, (n - 1) as nat);
        let o = xs[n - 1];
        if is_deploy_rung_spec(o)
            && !(match o.ts {
                Some(v) => v,
                None => Double::zero_spec(),
            }).eq_spec(
                Double::zero_spec(),
            ) {
            out.push(o)
        } else {
            out
        }
    }
}

fn add_dated(xs: &Vec<Order>, out: Vec<Order>) -> (r: Vec<Order>)
    ensures
        r.deep_view() == add_dated_spec(xs.deep_view(), out.deep_view(), xs@.len()),
{
    let ghost out0 = out.deep_view();
    let mut out = out;
    let mut i: usize = 0;
    while i < xs.len()
        invariant
            i <= xs@.len(),
            out.deep_view() == add_dated_spec(xs.deep_view(), out0, i as nat),
        decreases xs@.len() - i,
    {
        let o = &xs[i];
        if is_deploy_rung(o)
            && !(match o.ts {
                Some(v) => v,
                None => Double::zero(),
            }).same(
                Double::zero(),
            ) {
            list::push(&mut out, o.dup());
        }
        i = i + 1;
    }
    out
}

/// The rungs whose time is known.
pub open spec fn dated_rungs_spec(rows: Seq<OrderView>) -> Seq<OrderView> {
    add_dated_spec(rows, Seq::<OrderView>::empty(), rows.len())
}

fn dated_rungs(rows: &Vec<Order>) -> (r: Vec<Order>)
    ensures
        r.deep_view() == dated_rungs_spec(rows.deep_view()),
{
    let mut out: Vec<Order> = list::none();
    out = add_dated(rows, out);
    out
}

/// Whether two rows are the same rung of a coin on a venue.
pub open spec fn same_rung_spec(a: OrderView, b: OrderView) -> bool {
    a.exch == b.exch
        && a.sym == b.sym
        && (match a.rung {
            Some(v) => v,
            None => 0,
        })
            == (match b.rung {
                Some(v) => v,
                None => 0,
            })
}

fn same_rung(a: &Order, b: &Order) -> (r: bool)
    ensures
        r == same_rung_spec(a.deep_view(), b.deep_view()),
{
    text::same(a.exch.as_str(), b.exch.as_str())
        && text::same(a.sym.as_str(), b.sym.as_str())
        && (match a.rung {
            Some(v) => v,
            None => 0,
        })
            == (match b.rung {
                Some(v) => v,
                None => 0,
            })
}

/// Among the first `n` rungs.
pub open spec fn find_next_spec(
    o: OrderView,
    t: Double,
    xs: Seq<OrderView>,
    best: Option<Double>,
    n: nat,
) -> Option<Double>
    decreases n,
{
    if n == 0 {
        best
    } else {
        let best = find_next_spec(o, t, xs, best, (n - 1) as nat);
        let p = xs[n - 1];
        let x = match p.ts {
            Some(v) => v,
            None => Double::zero_spec(),
        };
        if same_rung_spec(p, o)
            && t.lt_spec(x)
            && (best is None
                || x.lt_spec(
                    match best {
                        Some(v) => v,
                        None => x,
                    },
                )) {
            Some(x)
        } else {
            best
        }
    }
}

fn find_next(o: &Order, t: Double, xs: &Vec<Order>, best: Option<Double>) -> (r: Option<Double>)
    ensures
        r == find_next_spec(o.deep_view(), t, xs.deep_view(), best, xs@.len()),
{
    let ghost best0 = best;
    let mut best = best;
    let mut i: usize = 0;
    while i < xs.len()
        invariant
            i <= xs@.len(),
            best == find_next_spec(o.deep_view(), t, xs.deep_view(), best0, i as nat),
        decreases xs@.len() - i,
    {
        let p = &xs[i];
        let x = match p.ts {
            Some(v) => v,
            None => Double::zero(),
        };
        if same_rung(p, o)
            && t.lt(x)
            && (best.is_none()
                || x.lt(
                    match best {
                        Some(v) => v,
                        None => x,
                    },
                )) {
            best = Some(x);
        }
        i = i + 1;
    }
    best
}

/// When the rung was next placed: the earliest later placement of it.
pub open spec fn next_placement_spec(dep: Seq<OrderView>, o: OrderView) -> Option<Double> {
    let best: Option<Double> = None;
    let t = match o.ts {
        Some(v) => v,
        None => Double::zero_spec(),
    };
    find_next_spec(o, t, dep, best, dep.len())
}

fn next_placement(dep: &Vec<Order>, o: &Order) -> (r: Option<Double>)
    ensures
        r == next_placement_spec(dep.deep_view(), o.deep_view()),
{
    let mut best: Option<Double> = None;
    let t = match o.ts {
        Some(v) => v,
        None => Double::zero(),
    };
    best = find_next(o, t, dep, best);
    best
}

/// Whether a rung was rolled by us.
pub open spec fn is_rolled_spec(o: OrderView) -> bool {
    text::begins(o.status, "cancel"@)
        && text::holds(
            match o.note {
                Some(v) => v,
                None => ""@,
            },
            ROLL_NOTE@,
        )
}

fn is_rolled(o: &Order) -> (r: bool)
    ensures
        r == is_rolled_spec(o.deep_view()),
{
    text::begins_with(o.status.as_str(), "cancel")
        && text::contains(
            (match &o.note {
                Some(v) => text::owned(v.as_str()),
                None => text::owned(""),
            }).as_str(),
            ROLL_NOTE,
        )
}

/// The start of the 15-minute window a time falls into.
pub open spec fn bucket_of_spec(t: Double) -> Double {
    (Double::int_spec((t.div_spec(Double::int_spec(900)).floor_spec().cast_spec(i64::MIN as int, i64::MAX as int) as i64) as int)).mul_spec(
        Double::int_spec(900),
    )
}

fn bucket_of(t: Double) -> (r: Double)
    ensures
        r == bucket_of_spec(t),
{
    Double::of_int(t.over(Double::of_int(900)).floor().to_i64()).times(Double::of_int(900))
}

/// The first `n` of them.
pub open spec fn copy_events_spec(
    exch: Seq<char>,
    life: Double,
    ts: Double,
    xs: Seq<RollEventView>,
    known: bool,
    out: Seq<RollEventView>,
    n: nat,
) -> (bool, Seq<RollEventView>)
    decreases n,
{
    if n == 0 {
        (known, out)
    } else {
        let (known, out) = copy_events_spec(exch, life, ts, xs, known, out, (n - 1) as nat);
        let e = xs[n - 1];
        if e.exch == exch && e.ts.eq_spec(ts) {
            let known = true;
            let more = e;
            let more = RollEventView { lifetimes_h: more.lifetimes_h.push(life), ..more };
            (known, out.push(more))
        } else {
            (known, out.push(e))
        }
    }
}

fn copy_events(
    exch: &str,
    life: Double,
    ts: Double,
    xs: &Vec<RollEvent>,
    known: bool,
    out: Vec<RollEvent>,
) -> (r: (bool, Vec<RollEvent>))
    ensures
        r.deep_view() == copy_events_spec(
            exch@,
            life,
            ts,
            xs.deep_view(),
            known,
            out.deep_view(),
            xs@.len(),
        ),
{
    let ghost known0 = known;
    let ghost out0 = out.deep_view();
    let mut known = known;
    let mut out = out;
    let mut i: usize = 0;
    while i < xs.len()
        invariant
            i <= xs@.len(),
            (known, out.deep_view()) == copy_events_spec(
                exch@,
                life,
                ts,
                xs.deep_view(),
                known0,
                out0,
                i as nat,
            ),
        decreases xs@.len() - i,
    {
        let e = &xs[i];
        if text::same(e.exch.as_str(), exch) && e.ts.same(ts) {
            known = true;
            let mut more = e.dup();
            list::push(&mut more.lifetimes_h, life);
            list::push(&mut out, more);
        } else {
            list::push(&mut out, e.dup());
        }
        i = i + 1;
    }
    (known, out)
}

/// The events with one more rung: in its window's event, or in a new one.
pub open spec fn put_roll_spec(
    evs: Seq<RollEventView>,
    exch: Seq<char>,
    ts: Double,
    life: Double,
) -> Seq<RollEventView> {
    let out = Seq::<RollEventView>::empty();
    let known = false;
    let (known, out) = copy_events_spec(exch, life, ts, evs, known, out, evs.len());
    if !known {
        let one = Seq::<Double>::empty().push(life);
        out.push(RollEventView { ts, exch, lifetimes_h: one })
    } else {
        out
    }
}

fn put_roll(evs: &Vec<RollEvent>, exch: &str, ts: Double, life: Double) -> (r: Vec<RollEvent>)
    ensures
        r.deep_view() == put_roll_spec(evs.deep_view(), exch@, ts, life),
{
    let mut out: Vec<RollEvent> = list::none();
    let mut known = false;
    let (next_known, next_out) = copy_events(exch, life, ts, evs, known, out);
    known = next_known;
    out = next_out;
    if !known {
        let mut one: Vec<Double> = list::none();
        list::push(&mut one, life);
        list::push(&mut out, RollEvent { ts, exch: text::owned(exch), lifetimes_h: one });
    }
    out
}

/// The first `n` of them.
pub open spec fn name_events_spec(
    xs: Seq<RollEventView>,
    out: Seq<(Seq<char>, RollEventView)>,
    n: nat,
) -> Seq<(Seq<char>, RollEventView)> {
    out + Seq::new(
        n,
        |i: int| {
            let e = xs[i];
            (e.exch, e)
        },
    )
}

fn name_events(
    xs: &Vec<RollEvent>,
    out: Vec<(String, RollEvent)>,
) -> (r: Vec<(String, RollEvent)>)
    ensures
        r.deep_view() == name_events_spec(xs.deep_view(), out.deep_view(), xs@.len()),
{
    let ghost out0 = out.deep_view();
    let mut out = out;
    let mut i: usize = 0;
    while i < xs.len()
        invariant
            i <= xs@.len(),
            out.deep_view() == name_events_spec(xs.deep_view(), out0, i as nat),
        decreases xs@.len() - i,
    {
        let e = &xs[i];
        list::push(&mut out, (text::owned(e.exch.as_str()), e.dup()));
        assert(out.deep_view() =~= name_events_spec(xs.deep_view(), out0, (i + 1) as nat));
        i = i + 1;
    }
    out
}

/// The events, each behind its venue.
pub open spec fn named_events_spec(evs: Seq<RollEventView>) -> Seq<(Seq<char>, RollEventView)> {
    name_events_spec(evs, Seq::<(Seq<char>, RollEventView)>::empty(), evs.len())
}

fn named_events(evs: &Vec<RollEvent>) -> (r: Vec<(String, RollEvent)>)
    ensures
        r.deep_view() == named_events_spec(evs.deep_view()),
{
    let mut out: Vec<(String, RollEvent)> = list::none();
    out = name_events(evs, out);
    out
}

/// The first `n` of them.
pub open spec fn time_events_spec(
    xs: Seq<(Seq<char>, RollEventView)>,
    out: Seq<(Double, RollEventView)>,
    n: nat,
) -> Seq<(Double, RollEventView)> {
    out + Seq::new(
        n,
        |i: int| {
            let it = xs[i];
            let e = it.1;
            (e.ts, e)
        },
    )
}

fn time_events(
    xs: &Vec<(String, RollEvent)>,
    out: Vec<(Double, RollEvent)>,
) -> (r: Vec<(Double, RollEvent)>)
    ensures
        r.deep_view() == time_events_spec(xs.deep_view(), out.deep_view(), xs@.len()),
{
    let ghost out0 = out.deep_view();
    let mut out = out;
    let mut i: usize = 0;
    while i < xs.len()
        invariant
            i <= xs@.len(),
            out.deep_view() == time_events_spec(xs.deep_view(), out0, i as nat),
        decreases xs@.len() - i,
    {
        let it = &xs[i];
        let e = &it.1;
        list::push(&mut out, (e.ts, e.dup()));
        assert(out.deep_view() =~= time_events_spec(xs.deep_view(), out0, (i + 1) as nat));
        i = i + 1;
    }
    out
}

/// The events, each behind its time.
pub open spec fn timed_events_spec(
    evs: Seq<(Seq<char>, RollEventView)>,
) -> Seq<(Double, RollEventView)> {
    time_events_spec(evs, Seq::<(Double, RollEventView)>::empty(), evs.len())
}

fn timed_events(evs: &Vec<(String, RollEvent)>) -> (r: Vec<(Double, RollEvent)>)
    ensures
        r.deep_view() == timed_events_spec(evs.deep_view()),
{
    let mut out: Vec<(Double, RollEvent)> = list::none();
    out = time_events(evs, out);
    out
}

/// The first `n` of them.
pub open spec fn bare_events_spec(
    xs: Seq<(Double, RollEventView)>,
    out: Seq<RollEventView>,
    n: nat,
) -> Seq<RollEventView> {
    out + Seq::new(
        n,
        |i: int| {
            let it = xs[i];
            let e = it.1;
            e
        },
    )
}

fn bare_events(xs: &Vec<(Double, RollEvent)>, out: Vec<RollEvent>) -> (r: Vec<RollEvent>)
    ensures
        r.deep_view() == bare_events_spec(xs.deep_view(), out.deep_view(), xs@.len()),
{
    let ghost out0 = out.deep_view();
    let mut out = out;
    let mut i: usize = 0;
    while i < xs.len()
        invariant
            i <= xs@.len(),
            out.deep_view() == bare_events_spec(xs.deep_view(), out0, i as nat),
        decreases xs@.len() - i,
    {
        let it = &xs[i];
        let e = &it.1;
        list::push(&mut out, e.dup());
        assert(out.deep_view() =~= bare_events_spec(xs.deep_view(), out0, (i + 1) as nat));
        i = i + 1;
    }
    out
}

/// The events alone.
pub open spec fn events_alone_spec(evs: Seq<(Double, RollEventView)>) -> Seq<RollEventView> {
    bare_events_spec(evs, Seq::<RollEventView>::empty(), evs.len())
}

fn events_alone(evs: &Vec<(Double, RollEvent)>) -> (r: Vec<RollEvent>)
    ensures
        r.deep_view() == events_alone_spec(evs.deep_view()),
{
    let mut out: Vec<RollEvent> = list::none();
    out = bare_events(evs, out);
    out
}

/// Of the first `n` rungs.
pub open spec fn add_rolls_spec(
    dep: Seq<OrderView>,
    xs: Seq<OrderView>,
    evs: Seq<RollEventView>,
    n: nat,
) -> Seq<RollEventView>
    decreases n,
{
    if n == 0 {
        evs
    } else {
        let evs = add_rolls_spec(dep, xs, evs, (n - 1) as nat);
        let o = xs[n - 1];
        if is_rolled_spec(o) {
            match next_placement_spec(dep, o) {
                Some(t) => put_roll_spec(
                    evs,
                    o.exch,
                    bucket_of_spec(t),
                    t.sub_spec(
                        match o.ts {
                            Some(v) => v,
                            None => Double::zero_spec(),
                        },
                    ).div_spec(
                        Double::int_spec(3600),
                    ),
                ),
                None => evs,
            }
        } else {
            evs
        }
    }
}

fn add_rolls(dep: &Vec<Order>, xs: &Vec<Order>, evs: Vec<RollEvent>) -> (r: Vec<RollEvent>)
    ensures
        r.deep_view() == add_rolls_spec(
            dep.deep_view(),
            xs.deep_view(),
            evs.deep_view(),
            xs@.len(),
        ),
{
    let ghost evs0 = evs.deep_view();
    let mut evs = evs;
    let mut i: usize = 0;
    while i < xs.len()
        invariant
            i <= xs@.len(),
            evs.deep_view() == add_rolls_spec(dep.deep_view(), xs.deep_view(), evs0, i as nat),
        decreases xs@.len() - i,
    {
        let o = &xs[i];
        if is_rolled(o) {
            match next_placement(dep, o) {
                Some(t) => {
                    evs = put_roll(
                        &evs,
                        o.exch.as_str(),
                        bucket_of(t),
                        t.minus(
                            match o.ts {
                                Some(v) => v,
                                None => Double::zero(),
                            },
                        ).over(
                            Double::of_int(3600),
                        ),
                    );
                },
                None => {},
            }
        }
        i = i + 1;
    }
    evs
}

/// Every roll event, oldest first, and by venue where two begin at once.
pub open spec fn roll_events_spec(rows: Seq<OrderView>) -> Seq<RollEventView> {
    let dep = dated_rungs_spec(rows);
    let evs = add_rolls_spec(dep, dep, Seq::<RollEventView>::empty(), dep.len());
    events_alone_spec(
        list::sorted_keyed(timed_events_spec(list::sorted_entries(named_events_spec(evs)))),
    )
}

/// Every roll event, oldest first, and by venue where two begin at once.
pub fn roll_events(rows: &Vec<Order>) -> (r: Vec<RollEvent>)
    ensures
        r.deep_view() == roll_events_spec(rows.deep_view()),
{
    let dep = dated_rungs(rows);
    let mut evs: Vec<RollEvent> = list::none();
    evs = add_rolls(&dep, &dep, evs);
    events_alone(&list::sort_keyed(&timed_events(&list::sort_entries(&named_events(&evs)))))
}

/// Churn over the last days (and 24 hours), flat, in the dashboard's field order.
#[derive(Debug)]
pub struct Churn {
    pub window_days: i64,
    pub roll_events: usize,
    pub roll_events_24h: usize,
    pub rungs_rolled: usize,
    pub rungs_placed: usize,
    pub fills: usize,
    pub cancels_per_fill: Option<Double>,
    pub rung_lifetime_h_median: Option<Double>,
    pub rung_lifetime_h_p25: Option<Double>,
    pub last_roll_ts: Option<Double>,
    pub last_roll_exch: Option<String>,
}

/// What a [`Churn`] holds.
pub struct ChurnView {
    pub window_days: i64,
    pub roll_events: usize,
    pub roll_events_24h: usize,
    pub rungs_rolled: usize,
    pub rungs_placed: usize,
    pub fills: usize,
    pub cancels_per_fill: Option<Double>,
    pub rung_lifetime_h_median: Option<Double>,
    pub rung_lifetime_h_p25: Option<Double>,
    pub last_roll_ts: Option<Double>,
    pub last_roll_exch: Option<Seq<char>>,
}

impl DeepView for Churn {
    type V = ChurnView;

    open spec fn deep_view(&self) -> ChurnView {
        ChurnView {
            window_days: self.window_days,
            roll_events: self.roll_events,
            roll_events_24h: self.roll_events_24h,
            rungs_rolled: self.rungs_rolled,
            rungs_placed: self.rungs_placed,
            fills: self.fills,
            cancels_per_fill: self.cancels_per_fill,
            rung_lifetime_h_median: self.rung_lifetime_h_median,
            rung_lifetime_h_p25: self.rung_lifetime_h_p25,
            last_roll_ts: self.last_roll_ts,
            last_roll_exch: self.last_roll_exch.deep_view(),
        }
    }
}

/// The middle of some numbers; between the two middle ones where there is no one middle.
pub open spec fn median_spec(v: Seq<Double>) -> Double {
    let s = list::sorted_numbers(v);
    let k = (((s.len() as usize)) / 2) as usize;
    let hi = match list::item(s, k) {
        Some(v) => v,
        None => Double::zero_spec(),
    };
    if ((s.len() as usize)) % 2 == 1 {
        hi
    } else if k == 0 {
        hi
    } else {
        (match list::item(s, (k - 1) as usize) {
            Some(v) => v,
            None => Double::zero_spec(),
        }).add_spec(
            hi,
        ).div_spec(
            Double::int_spec(2),
        )
    }
}

fn median(v: &Vec<Double>) -> (r: Double)
    ensures
        r == median_spec(v.deep_view()),
{
    let s = list::sort_numbers(v);
    let k: usize = (s.len() / 2);
    let hi = match list::own(list::at(&s, k)) {
        Some(v) => v,
        None => Double::zero(),
    };
    if s.len() % 2 == 1 {
        return hi;
    }
    if k == 0 {
        return hi;
    }
    (match list::own(list::at(&s, (k - 1))) {
        Some(v) => v,
        None => Double::zero(),
    }).plus(
        hi,
    ).over(
        Double::of_int(2),
    )
}

/// Of the first `n` events.
pub open spec fn add_since_spec(
    since: Double,
    xs: Seq<RollEventView>,
    out: Seq<RollEventView>,
    n: nat,
) -> Seq<RollEventView> {
    out + list::kept(xs, |e: RollEventView| since.le_spec(e.ts), n)
}

fn add_since(since: Double, xs: &Vec<RollEvent>, out: Vec<RollEvent>) -> (r: Vec<RollEvent>)
    ensures
        r.deep_view() == add_since_spec(since, xs.deep_view(), out.deep_view(), xs@.len()),
{
    let ghost out0 = out.deep_view();
    let mut out = out;
    let mut i: usize = 0;
    while i < xs.len()
        invariant
            i <= xs@.len(),
            out.deep_view() == add_since_spec(since, xs.deep_view(), out0, i as nat),
        decreases xs@.len() - i,
    {
        let e = &xs[i];
        if since.le(e.ts) {
            list::push(&mut out, e.dup());
        }
        assert(out.deep_view() =~= add_since_spec(since, xs.deep_view(), out0, (i + 1) as nat));
        i = i + 1;
    }
    out
}

/// The events since a time.
pub open spec fn events_since_spec(evs: Seq<RollEventView>, since: Double) -> Seq<RollEventView> {
    add_since_spec(since, evs, Seq::<RollEventView>::empty(), evs.len())
}

fn events_since(evs: &Vec<RollEvent>, since: Double) -> (r: Vec<RollEvent>)
    ensures
        r.deep_view() == events_since_spec(evs.deep_view(), since),
{
    let mut out: Vec<RollEvent> = list::none();
    out = add_since(since, evs, out);
    out
}

/// Of the first `n` events.
pub open spec fn add_lifetimes_spec(
    xs: Seq<RollEventView>,
    out: Seq<Double>,
    n: nat,
) -> Seq<Double>
    decreases n,
{
    if n == 0 {
        out
    } else {
        let out = add_lifetimes_spec(xs, out, (n - 1) as nat);
        let e = xs[n - 1];
        out + e.lifetimes_h
    }
}

fn add_lifetimes(xs: &Vec<RollEvent>, out: Vec<Double>) -> (r: Vec<Double>)
    ensures
        r.deep_view() == add_lifetimes_spec(xs.deep_view(), out.deep_view(), xs@.len()),
{
    let ghost out0 = out.deep_view();
    let mut out = out;
    let mut i: usize = 0;
    while i < xs.len()
        invariant
            i <= xs@.len(),
            out.deep_view() == add_lifetimes_spec(xs.deep_view(), out0, i as nat),
        decreases xs@.len() - i,
    {
        let e = &xs[i];
        out = list::joined(out, e.lifetimes_h.dup());
        i = i + 1;
    }
    out
}

/// The lifetimes of some events' rungs.
pub open spec fn all_lifetimes_spec(evs: Seq<RollEventView>) -> Seq<Double> {
    add_lifetimes_spec(evs, Seq::<Double>::empty(), evs.len())
}

fn all_lifetimes(evs: &Vec<RollEvent>) -> (r: Vec<Double>)
    ensures
        r.deep_view() == all_lifetimes_spec(evs.deep_view()),
{
    let mut out: Vec<Double> = list::none();
    out = add_lifetimes(evs, out);
    out
}

/// Of the first `n` rows.
pub open spec fn add_placed_spec(
    since: Double,
    xs: Seq<OrderView>,
    out: Seq<Seq<char>>,
    n: nat,
) -> Seq<Seq<char>> {
    out + list::gathered(
        xs,
        |o: OrderView| if is_deploy_rung_spec(o)
            && since.le_spec(
                match o.ts {
                    Some(v) => v,
                    None => Double::zero_spec(),
                },
            ) {
            Some(o.client_id)
        } else {
            None
        },
        n,
    )
}

fn add_placed(since: Double, xs: &Vec<Order>, out: Vec<String>) -> (r: Vec<String>)
    ensures
        r.deep_view() == add_placed_spec(since, xs.deep_view(), out.deep_view(), xs@.len()),
{
    let ghost out0 = out.deep_view();
    let mut out = out;
    let mut i: usize = 0;
    while i < xs.len()
        invariant
            i <= xs@.len(),
            out.deep_view() == add_placed_spec(since, xs.deep_view(), out0, i as nat),
        decreases xs@.len() - i,
    {
        let o = &xs[i];
        if is_deploy_rung(o)
            && since.le(
                match o.ts {
                    Some(v) => v,
                    None => Double::zero(),
                },
            ) {
            list::push(&mut out, text::owned(o.client_id.as_str()));
        }
        assert(out.deep_view() =~= add_placed_spec(since, xs.deep_view(), out0, (i + 1) as nat));
        i = i + 1;
    }
    out
}

/// The rungs placed since a time.
pub open spec fn placed_since_spec(rows: Seq<OrderView>, since: Double) -> Seq<Seq<char>> {
    add_placed_spec(since, rows, Seq::<Seq<char>>::empty(), rows.len())
}

fn placed_since(rows: &Vec<Order>, since: Double) -> (r: Vec<String>)
    ensures
        r.deep_view() == placed_since_spec(rows.deep_view(), since),
{
    let mut out: Vec<String> = list::none();
    out = add_placed(since, rows, out);
    out
}

/// When a rung filled, as far as its row says.
pub open spec fn fill_time_spec(o: OrderView) -> Double {
    if deploy::truthy_num_spec(o.filled_ts) {
        match o.filled_ts {
            Some(v) => v,
            None => Double::zero_spec(),
        }
    } else if deploy::truthy_num_spec(o.status_ts) {
        match o.status_ts {
            Some(v) => v,
            None => Double::zero_spec(),
        }
    } else {
        match o.ts {
            Some(v) => v,
            None => Double::zero_spec(),
        }
    }
}

fn fill_time(o: &Order) -> (r: Double)
    ensures
        r == fill_time_spec(o.deep_view()),
{
    if deploy::truthy_num(o.filled_ts) {
        return match o.filled_ts {
            Some(v) => v,
            None => Double::zero(),
        };
    }
    if deploy::truthy_num(o.status_ts) {
        return match o.status_ts {
            Some(v) => v,
            None => Double::zero(),
        };
    }
    match o.ts {
        Some(v) => v,
        None => Double::zero(),
    }
}

/// Of the first `n` rows.
pub open spec fn add_filled_rung_spec(
    since: Double,
    xs: Seq<OrderView>,
    out: Seq<Seq<char>>,
    n: nat,
) -> Seq<Seq<char>> {
    out + list::gathered(
        xs,
        |o: OrderView| if is_deploy_rung_spec(o)
            && o.status == "filled"@
            && since.le_spec(fill_time_spec(o)) {
            Some(o.client_id)
        } else {
            None
        },
        n,
    )
}

fn add_filled_rung(since: Double, xs: &Vec<Order>, out: Vec<String>) -> (r: Vec<String>)
    ensures
        r.deep_view() == add_filled_rung_spec(since, xs.deep_view(), out.deep_view(), xs@.len()),
{
    let ghost out0 = out.deep_view();
    let mut out = out;
    let mut i: usize = 0;
    while i < xs.len()
        invariant
            i <= xs@.len(),
            out.deep_view() == add_filled_rung_spec(since, xs.deep_view(), out0, i as nat),
        decreases xs@.len() - i,
    {
        let o = &xs[i];
        if is_deploy_rung(o) && text::same(o.status.as_str(), "filled") && since.le(fill_time(o)) {
            list::push(&mut out, text::owned(o.client_id.as_str()));
        }
        assert(out.deep_view() =~= add_filled_rung_spec(
            since,
            xs.deep_view(),
            out0,
            (i + 1) as nat,
        ));
        i = i + 1;
    }
    out
}

/// The rungs filled since a time.
pub open spec fn filled_since_spec(rows: Seq<OrderView>, since: Double) -> Seq<Seq<char>> {
    add_filled_rung_spec(since, rows, Seq::<Seq<char>>::empty(), rows.len())
}

fn filled_since(rows: &Vec<Order>, since: Double) -> (r: Vec<String>)
    ensures
        r.deep_view() == filled_since_spec(rows.deep_view(), since),
{
    let mut out: Vec<String> = list::none();
    out = add_filled_rung(since, rows, out);
    out
}

/// Cancels per fill.
pub open spec fn per_fill_spec(rolled: usize, fills: usize) -> Option<Double> {
    if fills > 0 {
        Some(
            crate::watch::pyfmt::round_spec(
                (Double::int_spec(rolled as int)).div_spec(Double::int_spec(fills as int)),
                1,
            ),
        )
    } else {
        None
    }
}

fn per_fill(rolled: usize, fills: usize) -> (r: Option<Double>)
    ensures
        r == per_fill_spec(rolled, fills),
{
    if fills > 0 {
        return Some(
            crate::watch::pyfmt::round(Double::of_count(rolled).over(Double::of_count(fills)), 1),
        );
    }
    None
}

/// The median lifetime.
pub open spec fn middle_life_spec(lives: Seq<Double>) -> Option<Double> {
    if lives.len() == 0 {
        None
    } else {
        Some(crate::watch::pyfmt::round_spec(median_spec(lives), 1))
    }
}

fn middle_life(lives: &Vec<Double>) -> (r: Option<Double>)
    ensures
        r == middle_life_spec(lives.deep_view()),
{
    if lives.len() == 0 {
        return None;
    }
    Some(crate::watch::pyfmt::round(median(lives), 1))
}

/// The lower-quartile lifetime.
pub open spec fn quarter_life_spec(lives: Seq<Double>) -> Option<Double> {
    if lives.len() == 0 {
        None
    } else {
        let s = list::sorted_numbers(lives);
        Some(
            crate::watch::pyfmt::round_spec(
                match list::item(s, (((s.len() as usize)) / 4) as usize) {
                    Some(v) => v,
                    None => Double::zero_spec(),
                },
                1,
            ),
        )
    }
}

fn quarter_life(lives: &Vec<Double>) -> (r: Option<Double>)
    ensures
        r == quarter_life_spec(lives.deep_view()),
{
    if lives.len() == 0 {
        return None;
    }
    let s = list::sort_numbers(lives);
    Some(
        crate::watch::pyfmt::round(
            match list::own(list::at(&s, (s.len() / 4))) {
                Some(v) => v,
                None => Double::zero(),
            },
            1,
        ),
    )
}

/// When the last event was.
pub open spec fn last_time_spec(evs: Seq<RollEventView>) -> Option<Double> {
    match list::end(evs) {
        Some(e) => Some(e.ts),
        None => None,
    }
}

fn last_time(evs: &Vec<RollEvent>) -> (r: Option<Double>)
    ensures
        r == last_time_spec(evs.deep_view()),
{
    let e = match list::last(evs) {
        Some(v) => v,
        None => {
            return None;
        },
    };
    Some(e.ts)
}

/// Where the last event was.
pub open spec fn last_venue_spec(evs: Seq<RollEventView>) -> Option<Seq<char>> {
    match list::end(evs) {
        Some(e) => Some(e.exch),
        None => None,
    }
}

fn last_venue(evs: &Vec<RollEvent>) -> (r: Option<String>)
    ensures
        r.deep_view() == last_venue_spec(evs.deep_view()),
{
    let e = match list::last(evs) {
        Some(v) => v,
        None => {
            return None;
        },
    };
    Some(text::owned(e.exch.as_str()))
}

/// The churn metrics at `now` over `days`.
pub open spec fn metrics_spec(rows: Seq<OrderView>, now: Double, days: i64) -> ChurnView {
    let since = now.sub_spec((Double::int_spec(days as int)).mul_spec(Double::int_spec(86400)));
    let evs = roll_events_spec(rows);
    let recent = events_since_spec(evs, since);
    let lives = all_lifetimes_spec(recent);
    let fills = (filled_since_spec(rows, since).len() as usize);
    ChurnView {
        window_days: days,
        roll_events: (recent.len() as usize),
        roll_events_24h: (events_since_spec(evs, now.sub_spec(Double::int_spec(86400))).len() as usize),
        rungs_rolled: (lives.len() as usize),
        rungs_placed: (placed_since_spec(rows, since).len() as usize),
        fills,
        cancels_per_fill: per_fill_spec((lives.len() as usize), fills),
        rung_lifetime_h_median: middle_life_spec(lives),
        rung_lifetime_h_p25: quarter_life_spec(lives),
        last_roll_ts: last_time_spec(evs),
        last_roll_exch: last_venue_spec(evs),
    }
}

/// The churn metrics at `now` over `days`.
pub fn metrics(rows: &Vec<Order>, now: Double, days: i64) -> (r: Churn)
    ensures
        r.deep_view() == metrics_spec(rows.deep_view(), now, days),
{
    let since = now.minus(Double::of_int(days).times(Double::of_int(86400)));
    let evs = roll_events(rows);
    let recent = events_since(&evs, since);
    let lives = all_lifetimes(&recent);
    let fills: usize = filled_since(rows, since).len();
    Churn {
        window_days: days,
        roll_events: recent.len(),
        roll_events_24h: events_since(&evs, now.minus(Double::of_int(86400))).len(),
        rungs_rolled: lives.len(),
        rungs_placed: placed_since(rows, since).len(),
        fills,
        cancels_per_fill: per_fill(lives.len(), fills),
        rung_lifetime_h_median: middle_life(&lives),
        rung_lifetime_h_p25: quarter_life(&lives),
        last_roll_ts: last_time(&evs),
        last_roll_exch: last_venue(&evs),
    }
}

/// The metrics as an object, in field order.
pub open spec fn metrics_json_spec(m: ChurnView) -> Doc {
    Doc::obj().with("window_days"@, Doc::Int(m.window_days)).with(
        "roll_events"@,
        Doc::Int(m.roll_events as i64),
    ).with(
        "roll_events_24h"@,
        Doc::Int(m.roll_events_24h as i64),
    ).with(
        "rungs_rolled"@,
        Doc::Int(m.rungs_rolled as i64),
    ).with(
        "rungs_placed"@,
        Doc::Int(m.rungs_placed as i64),
    ).with(
        "fills"@,
        Doc::Int(m.fills as i64),
    ).with(
        "cancels_per_fill"@,
        json::float_or_null(m.cancels_per_fill),
    ).with(
        "rung_lifetime_h_median"@,
        json::float_or_null(m.rung_lifetime_h_median),
    ).with(
        "rung_lifetime_h_p25"@,
        json::float_or_null(m.rung_lifetime_h_p25),
    ).with(
        "last_roll_ts"@,
        json::float_or_null(m.last_roll_ts),
    ).with(
        "last_roll_exch"@,
        json::text_or_null(m.last_roll_exch),
    )
}

/// The metrics as an object, in field order.
pub fn metrics_json(m: &Churn) -> (r: Json)
    ensures
        r@ == metrics_json_spec(m.deep_view()),
{
    Json::obj().with("window_days", Json::Int(m.window_days)).with(
        "roll_events",
        Json::Int(m.roll_events as i64),
    ).with(
        "roll_events_24h",
        Json::Int(m.roll_events_24h as i64),
    ).with(
        "rungs_rolled",
        Json::Int(m.rungs_rolled as i64),
    ).with(
        "rungs_placed",
        Json::Int(m.rungs_placed as i64),
    ).with(
        "fills",
        Json::Int(m.fills as i64),
    ).with(
        "cancels_per_fill",
        json::number_or_null(m.cancels_per_fill),
    ).with(
        "rung_lifetime_h_median",
        json::number_or_null(m.rung_lifetime_h_median),
    ).with(
        "rung_lifetime_h_p25",
        json::number_or_null(m.rung_lifetime_h_p25),
    ).with(
        "last_roll_ts",
        json::number_or_null(m.last_roll_ts),
    ).with(
        "last_roll_exch",
        json::string_or_null(list::text_ref(&m.last_roll_exch)),
    )
}

/// How cancels per fill read.
pub open spec fn cancels_text_spec(x: Option<Double>) -> Seq<char> {
    match x {
        Some(v) => ", "@ + crate::watch::pyfmt::repr_spec(v) + " cancels per fill"@,
        None => ""@,
    }
}

fn cancels_text(x: Option<Double>) -> (r: String)
    ensures
        r@ == cancels_text_spec(x),
{
    let v = match x {
        Some(v) => v,
        None => {
            return text::owned("");
        },
    };
    let mut line = text::owned(", ");
    line.push_str(pyfmt::float_repr(v).as_str());
    line.push_str(" cancels per fill");
    line
}

/// How a rung's life reads.
pub open spec fn life_text_spec(x: Option<Double>) -> Seq<char> {
    match x {
        Some(v) => ", rung life median "@ + crate::watch::pyfmt::repr_spec(v) + "h"@,
        None => ""@,
    }
}

fn life_text(x: Option<Double>) -> (r: String)
    ensures
        r@ == life_text_spec(x),
{
    let v = match x {
        Some(v) => v,
        None => {
            return text::owned("");
        },
    };
    let mut line = text::owned(", rung life median ");
    line.push_str(pyfmt::float_repr(v).as_str());
    line.push_str("h");
    line
}

/// The log line: `CHURN 7d: 3 rolls (36 rungs) / 2 fills, 18.0 cancels per fill, rung life median
/// 6.5h; 1 rolls in 24h`.
pub open spec fn summary_spec(m: ChurnView) -> Seq<char> {
    "CHURN "@
        + text::dec_int(m.window_days as int)
        + "d: "@
        + text::dec(m.roll_events as nat)
        + " rolls ("@
        + text::dec(m.rungs_rolled as nat)
        + " rungs) / "@
        + text::dec(m.fills as nat)
        + " fills"@
        + cancels_text_spec(m.cancels_per_fill)
        + life_text_spec(m.rung_lifetime_h_median)
        + "; "@
        + text::dec(m.roll_events_24h as nat)
        + " rolls in 24h"@
}

/// The log line: `CHURN 7d: 3 rolls (36 rungs) / 2 fills, 18.0 cancels per fill, rung life median
/// 6.5h; 1 rolls in 24h`.
pub fn summary(m: &Churn) -> (r: String)
    ensures
        r@ == summary_spec(m.deep_view()),
{
    let mut line = text::owned("CHURN ");
    line.push_str(text::dec_i64(m.window_days).as_str());
    line.push_str("d: ");
    line.push_str(text::dec_u64(m.roll_events as u64).as_str());
    line.push_str(" rolls (");
    line.push_str(text::dec_u64(m.rungs_rolled as u64).as_str());
    line.push_str(" rungs) / ");
    line.push_str(text::dec_u64(m.fills as u64).as_str());
    line.push_str(" fills");
    line.push_str(cancels_text(m.cancels_per_fill).as_str());
    line.push_str(life_text(m.rung_lifetime_h_median).as_str());
    line.push_str("; ");
    line.push_str(text::dec_u64(m.roll_events_24h as u64).as_str());
    line.push_str(" rolls in 24h");
    line
}

/// A time falls into the quarter of an hour that started last.
pub proof fn law_a_bucket_is_a_quarter_of_an_hour(t: Double, seconds: nat)
    requires
        t.finite(),
        t.amount() == seconds * crate::double::unit(),
        seconds < 0x100_0000_0000,
    ensures
        bucket_of_spec(t).amount() == (seconds / 900) * 900 * crate::double::unit(),
{
    let k = (seconds / 900) as int;
    let u = crate::double::unit() as int;
    rounding::lemma_slots(t, seconds, 900);
    rounding::lemma_whole_of(t.div_spec(Double::int_spec(900)).floor_spec(), k);
    rounding::lemma_whole_is_exact(k);
    rounding::lemma_whole_is_exact(900);
    rounding::lemma_whole_is_exact(k * 900);
    assert((k * u) * (900 * u) == (k * 900 * u) * u) by (nonlinear_arith);
    rounding::lemma_exact_product(
        Double::int_spec(k),
        Double::int_spec(900),
        Double::int_spec(k * 900),
    );
}

/// An event counts in a window from the window's start on.
pub proof fn law_a_window_holds_what_came_since(evs: Seq<RollEventView>, since: Double, k: int)
    requires
        0 <= k < events_since_spec(evs, since).len(),
    ensures
        since.amount() <= events_since_spec(evs, since)[k].ts.amount(),
        evs.contains(events_since_spec(evs, since)[k]),
{
    lemma_since(evs, since, evs.len(), k);
}

proof fn lemma_since(evs: Seq<RollEventView>, since: Double, n: nat, k: int)
    requires
        n <= evs.len(),
        0 <= k < list::kept(evs, |e: RollEventView| since.le_spec(e.ts), n).len(),
    ensures
        since.le_spec(list::kept(evs, |e: RollEventView| since.le_spec(e.ts), n)[k].ts),
        evs.contains(list::kept(evs, |e: RollEventView| since.le_spec(e.ts), n)[k]),
    decreases n,
{
    if n > 0 {
        let fewer = list::kept(evs, |e: RollEventView| since.le_spec(e.ts), (n - 1) as nat);
        if k < fewer.len() {
            lemma_since(evs, since, (n - 1) as nat, k);
        } else {
            assert(evs[n - 1] == list::kept(evs, |e: RollEventView| since.le_spec(e.ts), n)[k]);
        }
    }
}

} // verus!
