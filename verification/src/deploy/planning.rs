//! Zone plans: a venue budget split over its coins, each coin's share over price levels, and
//! the tranche that replaces what rests on a venue by such a plan.
use crate::deploy;
use crate::deploy::{Answer, AnswerView, Ask, AskView, Config, ConfigView, Level, LevelQuery, LevelQueryView, LevelView, Pinned, PinnedView, Rung, RungView, Settled, VenuePlan, VenuePlanView, Work, WorkView};
use crate::double::Double;
use crate::journal;
use crate::journal::{Order, OrderView};
use crate::list;
use crate::list::Duplicate;
use crate::pyfmt;
use crate::rounding;
use crate::text;
use crate::venue::Limits;
use vstd::prelude::*;

verus! {

/// The 1-based position of an item.
pub open spec fn ordinal_spec(k: usize) -> i64 {
    if k < 0x7fff_ffff_ffff_ffff {
        (k + 1) as i64
    } else {
        i64::MAX
    }
}

fn ordinal(k: usize) -> (r: i64)
    ensures
        r == ordinal_spec(k),
{
    let p: u64 = k as u64;
    if p < 0x7fff_ffff_ffff_ffff {
        (p + 1) as i64
    } else {
        i64::MAX
    }
}

/// The structure of a pair's daily closes, as it was read.
#[derive(Debug)]
pub struct Shape {
    pub pair: String,
    pub low: Option<Double>,
    pub high: Option<Double>,
}

/// What a [`Shape`] holds.
pub struct ShapeView {
    pub pair: Seq<char>,
    pub low: Option<Double>,
    pub high: Option<Double>,
}

impl DeepView for Shape {
    type V = ShapeView;

    open spec fn deep_view(&self) -> ShapeView {
        ShapeView {
            pair: self.pair@,
            low: self.low,
            high: self.high,
        }
    }
}

impl Duplicate for Shape {
    fn dup(&self) -> (r: Shape) {
        Shape {
            pair: text::owned(self.pair.as_str()),
            low: self.low,
            high: self.high,
        }
    }
}

/// Among the first `n` of them.
pub open spec fn find_shape_spec(
    pair: Seq<char>,
    xs: Seq<ShapeView>,
    out: Option<ShapeView>,
    n: nat,
) -> Option<ShapeView> {
    match list::last_given(
        xs,
        |s: ShapeView| if s.pair == pair {
            Some(s)
        } else {
            None
        },
        n,
    ) {
        Some(v) => Some(v),
        None => out,
    }
}

fn find_shape(pair: &str, xs: &Vec<Shape>, out: Option<Shape>) -> (r: Option<Shape>)
    ensures
        r.deep_view() == find_shape_spec(pair@, xs.deep_view(), out.deep_view(), xs@.len()),
{
    let ghost out0 = out.deep_view();
    let mut out = out;
    let mut i: usize = 0;
    while i < xs.len()
        invariant
            i <= xs@.len(),
            out.deep_view() == find_shape_spec(pair@, xs.deep_view(), out0, i as nat),
        decreases xs@.len() - i,
    {
        let s = &xs[i];
        if text::same(s.pair.as_str(), pair) {
            out = Some(s.dup());
        }
        assert(xs.deep_view()[i as int] == xs@[i as int].deep_view());
        assert(out.deep_view() == find_shape_spec(pair@, xs.deep_view(), out0, (i + 1) as nat));
        i = i + 1;
    }
    out
}

/// The structure that was read of a pair.
pub open spec fn shape_of_spec(cache: Seq<ShapeView>, pair: Seq<char>) -> Option<ShapeView> {
    let out: Option<ShapeView> = None;
    find_shape_spec(pair, cache, out, cache.len())
}

fn shape_of(cache: &Vec<Shape>, pair: &str) -> (r: Option<Shape>)
    ensures
        r.deep_view() == shape_of_spec(cache.deep_view(), pair@),
{
    let mut out: Option<Shape> = None;
    out = find_shape(pair, cache, out);
    out
}

/// The structure of a pair's daily closes, read once; none where it cannot be read.
pub open spec fn structure_spec(
    w: WorkView,
    exch: Seq<char>,
    pair: Seq<char>,
    cache: Seq<ShapeView>,
    answers: Seq<AnswerView>,
) -> (WorkView, ShapeView) {
    match shape_of_spec(cache, pair) {
        Some(s) => (w, s),
        None => {
            let (v, a) = deploy::asked_spec(w, AskView::Structure(exch, pair), answers);
            match a {
                AnswerView::Structure(low, high) => (v, ShapeView { pair, low, high }),
                _ => (v, ShapeView { pair, low: None, high: None }),
            }
        },
    }
}

fn structure(
    w: Work,
    exch: &str,
    pair: &str,
    cache: &Vec<Shape>,
    answers: &Vec<Answer>,
) -> (r: (Work, Shape))
    ensures
        r.deep_view() == structure_spec(
            w.deep_view(),
            exch@,
            pair@,
            cache.deep_view(),
            answers.deep_view(),
        ),
{
    match shape_of(cache, pair) {
        Some(s) => (w, s),
        None => {
            let (v, a) = deploy::asked(
                w,
                Ask::Structure(text::owned(exch), text::owned(pair)),
                answers,
            );
            match a {
                Answer::Structure(low, high) => (v, Shape { pair: text::owned(pair), low, high }),
                _ => (v, Shape { pair: text::owned(pair), low: None, high: None }),
            }
        },
    }
}

/// The smallest base and quote amounts of an order; the quote amount is a dollar at least.
pub open spec fn venue_mins_spec(
    w: WorkView,
    exch: Seq<char>,
    pair: Seq<char>,
    answers: Seq<AnswerView>,
) -> (WorkView, Result<(Double, Double), Seq<char>>) {
    let (v, a) = deploy::asked_spec(w, AskView::Limits(exch, pair), answers);
    match a {
        AnswerView::Limits(b, m) => (v, Ok((b, m.max_spec(Double::int_spec(1))))),
        AnswerView::Failed(e) => (v, Err(e)),
        _ => (v, Err("answer out of turn"@)),
    }
}

/// The smallest base and quote amounts of an order; the quote amount is a dollar at least.
pub fn venue_mins(
    w: Work,
    exch: &str,
    pair: &str,
    answers: &Vec<Answer>,
) -> (r: (Work, Result<(Double, Double), String>))
    ensures
        (r.0.deep_view(), list::outcome(r.1)) == venue_mins_spec(
            w.deep_view(),
            exch@,
            pair@,
            answers.deep_view(),
        ),
{
    let (v, a) = deploy::asked(w, Ask::Limits(text::owned(exch), text::owned(pair)), answers);
    match a {
        Answer::Limits(b, m) => (v, Ok((b, m.max(Double::of_int(1))))),
        Answer::Failed(e) => (v, Err(e)),
        _ => (v, Err(text::owned("answer out of turn"))),
    }
}

/// One coin's zones, or why it has none.
#[derive(Debug)]
pub struct Coin {
    pub cache: Vec<Shape>,
    pub rungs: Vec<Rung>,
    pub skip: Option<String>,
}

/// What a [`Coin`] holds.
pub struct CoinView {
    pub cache: Seq<ShapeView>,
    pub rungs: Seq<RungView>,
    pub skip: Option<Seq<char>>,
}

impl DeepView for Coin {
    type V = CoinView;

    open spec fn deep_view(&self) -> CoinView {
        CoinView {
            cache: self.cache.deep_view(),
            rungs: self.rungs.deep_view(),
            skip: self.skip.deep_view(),
        }
    }
}

/// A coin without zones.
pub open spec fn skipped_spec(cache: Seq<ShapeView>, why: Seq<char>) -> CoinView {
    CoinView { cache, rungs: Seq::<RungView>::empty(), skip: Some(why) }
}

fn skipped(cache: Vec<Shape>, why: String) -> (r: Coin)
    ensures
        r.deep_view() == skipped_spec(cache.deep_view(), why@),
{
    Coin { cache, rungs: list::none::<Rung>(), skip: Some(why) }
}

/// One level, rounded to the venue and added where it clears the venue's minimum.
pub open spec fn level_rung_spec(
    w: WorkView,
    exch: Seq<char>,
    pair: Seq<char>,
    spot: Double,
    minb: Double,
    minq: Double,
    k: usize,
    l: LevelView,
    rungs: Seq<RungView>,
    answers: Seq<AnswerView>,
) -> (WorkView, Seq<RungView>) {
    if deploy::stopped_spec(w) || l.usd.le_spec(Double::zero_spec()) {
        (w, rungs)
    } else {
        let (w1, price) = deploy::need_number_spec(
            w,
            AskView::RoundPrice(exch, pair, l.price),
            answers,
        );
        if deploy::stopped_spec(w1) {
            (w1, rungs)
        } else {
            let (w2, qty) = deploy::need_number_spec(
                w1,
                AskView::FitQty(exch, pair, l.usd, price),
                answers,
            );
            if deploy::stopped_spec(w2) {
                (w2, rungs)
            } else if qty.le_spec(Double::zero_spec())
                || qty.lt_spec(minb)
                || qty.mul_spec(price).lt_spec(minq) {
                (w2, rungs)
            } else {
                let since: Option<Double> = None;
                let since = if l.held {
                    l.since
                } else {
                    since
                };
                let rungs = rungs.push(
                    RungView {
                        rung: ordinal_spec(k),
                        price,
                        qty,
                        usd: qty.mul_spec(price),
                        note: l.note,
                        spot,
                        held: l.held,
                        since,
                    },
                );
                (w2, rungs)
            }
        }
    }
}

fn level_rung(
    w: Work,
    exch: &str,
    pair: &str,
    spot: Double,
    minb: Double,
    minq: Double,
    k: usize,
    l: &Level,
    rungs: Vec<Rung>,
    answers: &Vec<Answer>,
) -> (r: (Work, Vec<Rung>))
    ensures
        r.deep_view() == level_rung_spec(
            w.deep_view(),
            exch@,
            pair@,
            spot,
            minb,
            minq,
            k,
            l.deep_view(),
            rungs.deep_view(),
            answers.deep_view(),
        ),
{
    let mut rungs = rungs;
    if deploy::stopped(&w) || l.usd.le(Double::zero()) {
        return (w, rungs);
    }
    let (w1, price) = deploy::need_number(
        w,
        Ask::RoundPrice(text::owned(exch), text::owned(pair), l.price),
        answers,
    );
    if deploy::stopped(&w1) {
        return (w1, rungs);
    }
    let (w2, qty) = deploy::need_number(
        w1,
        Ask::FitQty(text::owned(exch), text::owned(pair), l.usd, price),
        answers,
    );
    if deploy::stopped(&w2) {
        return (w2, rungs);
    }
    if qty.le(Double::zero()) || qty.lt(minb) || qty.times(price).lt(minq) {
        return (w2, rungs);
    }
    let mut since: Option<Double> = None;
    if l.held {
        since = l.since;
    }
    list::push(
        &mut rungs,
        Rung {
            rung: ordinal(k),
            price,
            qty,
            usd: qty.times(price),
            note: text::owned(l.note.as_str()),
            spot,
            held: l.held,
            since,
        },
    );
    (w2, rungs)
}

/// The first `n` of them.
pub open spec fn round_levels_spec(
    answers: Seq<AnswerView>,
    exch: Seq<char>,
    minb: Double,
    minq: Double,
    pair: Seq<char>,
    spot: Double,
    xs: Seq<LevelView>,
    w: WorkView,
    rungs: Seq<RungView>,
    n: nat,
) -> (WorkView, Seq<RungView>)
    decreases n,
{
    if n == 0 {
        (w, rungs)
    } else {
        let (w, rungs) = round_levels_spec(
            answers,
            exch,
            minb,
            minq,
            pair,
            spot,
            xs,
            w,
            rungs,
            (n - 1) as nat,
        );
        let l = xs[n - 1];
        let k = (n - 1) as usize;
        let (v, more) = level_rung_spec(w, exch, pair, spot, minb, minq, k, l, rungs, answers);
        (v, more)
    }
}

fn round_levels(
    answers: &Vec<Answer>,
    exch: &str,
    minb: Double,
    minq: Double,
    pair: &str,
    spot: Double,
    xs: &Vec<Level>,
    w: Work,
    rungs: Vec<Rung>,
) -> (r: (Work, Vec<Rung>))
    ensures
        r.deep_view() == round_levels_spec(
            answers.deep_view(),
            exch@,
            minb,
            minq,
            pair@,
            spot,
            xs.deep_view(),
            w.deep_view(),
            rungs.deep_view(),
            xs@.len(),
        ),
{
    let ghost w0 = w.deep_view();
    let ghost rungs0 = rungs.deep_view();
    let mut w = w;
    let mut rungs = rungs;
    let mut i: usize = 0;
    while i < xs.len()
        invariant
            i <= xs@.len(),
            (w.deep_view(), rungs.deep_view()) == round_levels_spec(
                answers.deep_view(),
                exch@,
                minb,
                minq,
                pair@,
                spot,
                xs.deep_view(),
                w0,
                rungs0,
                i as nat,
            ),
        decreases xs@.len() - i,
    {
        let l = &xs[i];
        let k: usize = i;
        let (v, more) = level_rung(w, exch, pair, spot, minb, minq, k, l, rungs, answers);
        w = v;
        rungs = more;
        i = i + 1;
    }
    (w, rungs)
}

/// The levels, rounded to the venue.
pub open spec fn level_rungs_spec(
    w: WorkView,
    exch: Seq<char>,
    pair: Seq<char>,
    spot: Double,
    minb: Double,
    minq: Double,
    levels: Seq<LevelView>,
    answers: Seq<AnswerView>,
) -> (WorkView, Seq<RungView>) {
    round_levels_spec(
        answers,
        exch,
        minb,
        minq,
        pair,
        spot,
        levels,
        w,
        Seq::<RungView>::empty(),
        levels.len(),
    )
}

fn level_rungs(
    w: Work,
    exch: &str,
    pair: &str,
    spot: Double,
    minb: Double,
    minq: Double,
    levels: &Vec<Level>,
    answers: &Vec<Answer>,
) -> (r: (Work, Vec<Rung>))
    ensures
        r.deep_view() == level_rungs_spec(
            w.deep_view(),
            exch@,
            pair@,
            spot,
            minb,
            minq,
            levels.deep_view(),
            answers.deep_view(),
        ),
{
    let mut w = w;
    let mut rungs: Vec<Rung> = list::none();
    let (next_w, next_rungs) = round_levels(
        answers,
        exch,
        minb,
        minq,
        pair,
        spot,
        levels,
        w,
        rungs,
    );
    w = next_w;
    rungs = next_rungs;
    (w, rungs)
}

/// Of the first `n` of them.
pub open spec fn pick_pinned_spec(
    name: Seq<char>,
    xs: Seq<PinnedView>,
    out: Seq<PinnedView>,
    n: nat,
) -> Seq<PinnedView> {
    out + list::kept(xs, |p: PinnedView| p.sym == name, n)
}

fn pick_pinned(name: &str, xs: &Vec<Pinned>, out: Vec<Pinned>) -> (r: Vec<Pinned>)
    ensures
        r.deep_view() == pick_pinned_spec(name@, xs.deep_view(), out.deep_view(), xs@.len()),
{
    let ghost out0 = out.deep_view();
    let mut out = out;
    let mut i: usize = 0;
    while i < xs.len()
        invariant
            i <= xs@.len(),
            out.deep_view() == pick_pinned_spec(name@, xs.deep_view(), out0, i as nat),
        decreases xs@.len() - i,
    {
        let p = &xs[i];
        if text::same(p.sym.as_str(), name) {
            list::push(&mut out, p.dup());
        }
        assert(out.deep_view() =~= pick_pinned_spec(name@, xs.deep_view(), out0, (i + 1) as nat));
        i = i + 1;
    }
    out
}

/// The levels of a coin that still rest.
pub open spec fn pinned_for_spec(
    pinned: Seq<PinnedView>,
    sym: Option<Seq<char>>,
) -> Seq<PinnedView> {
    let out = Seq::<PinnedView>::empty();
    let name = match sym {
        Some(v) => v,
        None => ""@,
    };
    pick_pinned_spec(name, pinned, out, pinned.len())
}

fn pinned_for(pinned: &Vec<Pinned>, sym: Option<&str>) -> (r: Vec<Pinned>)
    ensures
        r.deep_view() == pinned_for_spec(pinned.deep_view(), sym.deep_view()),
{
    let mut out: Vec<Pinned> = list::none();
    let name = match sym {
        Some(v) => v,
        None => "",
    };
    out = pick_pinned(name, pinned, out);
    out
}

/// A step with a warning that is only printed.
pub open spec fn noting_spec(w: WorkView, warn_: Option<Seq<char>>) -> WorkView {
    match warn_ {
        Some(t) => WorkView { notes: w.notes.push(t), ..w },
        None => w,
    }
}

fn noting(w: Work, warn_: Option<&str>) -> (r: Work)
    ensures
        r.deep_view() == noting_spec(w.deep_view(), warn_.deep_view()),
{
    let mut w = w;
    match warn_ {
        Some(t) => {
            list::push(&mut w.notes, text::owned(t));
            w
        },
        None => w,
    }
}

/// A coin's zones at a price.
pub open spec fn plan_rungs_spec(
    w: WorkView,
    cfg: ConfigView,
    exch: Seq<char>,
    pair: Seq<char>,
    amount: Double,
    spot: Double,
    minb: Double,
    minq: Double,
    label: Seq<char>,
    cache: Seq<ShapeView>,
    sym: Option<Seq<char>>,
    pinned: Seq<PinnedView>,
    answers: Seq<AnswerView>,
) -> (WorkView, CoinView) {
    let (w1, shape) = structure_spec(w, exch, pair, cache, answers);
    if deploy::stopped_spec(w1) {
        (w1, skipped_spec(cache, ""@))
    } else {
        let low = shape.low;
        let high = shape.high;
        let cache = cache.push(shape);
        let (w2, a) = deploy::asked_spec(
            w1,
            AskView::Levels(
                LevelQueryView {
                    label,
                    sym,
                    overrides: deploy::overrides_spec(cfg),
                    spot,
                    amount,
                    low,
                    high,
                    min_quote: minq,
                    max_depth_pct: cfg.deploy_max_depth_pct,
                    pin_prices: cfg.deploy_pin_prices,
                    pinned: pinned_for_spec(pinned, sym),
                },
            ),
            answers,
        );
        if deploy::stopped_spec(w2) {
            (w2, skipped_spec(cache, ""@))
        } else {
            match a {
                AnswerView::Levels(levels, warn_) => {
                    let (w3, rungs) = level_rungs_spec(
                        noting_spec(w2, warn_),
                        exch,
                        pair,
                        spot,
                        minb,
                        minq,
                        levels,
                        answers,
                    );
                    if deploy::stopped_spec(w3) {
                        (w3, skipped_spec(cache, ""@))
                    } else if rungs.len() == 0 {
                        (
                            w3,
                            skipped_spec(
                                cache,
                                "$"@
                                    + pyfmt::fixed_spec(amount, 2)
                                    + " below venue minimum (~$"@
                                    + pyfmt::fixed_spec(minq, 2)
                                    + "/order)"@,
                            ),
                        )
                    } else {
                        (w3, CoinView { cache, rungs, skip: None })
                    }
                },
                _ => (deploy::failing_spec(w2, "answer out of turn"@), skipped_spec(cache, ""@)),
            }
        }
    }
}

fn plan_rungs(
    w: Work,
    cfg: &Config,
    exch: &str,
    pair: &str,
    amount: Double,
    spot: Double,
    minb: Double,
    minq: Double,
    label: &str,
    cache: Vec<Shape>,
    sym: Option<&str>,
    pinned: &Vec<Pinned>,
    answers: &Vec<Answer>,
) -> (r: (Work, Coin))
    ensures
        r.deep_view() == plan_rungs_spec(
            w.deep_view(),
            cfg.deep_view(),
            exch@,
            pair@,
            amount,
            spot,
            minb,
            minq,
            label@,
            cache.deep_view(),
            sym.deep_view(),
            pinned.deep_view(),
            answers.deep_view(),
        ),
{
    let mut cache = cache;
    let (w1, shape) = structure(w, exch, pair, &cache, answers);
    if deploy::stopped(&w1) {
        return (w1, skipped(cache, text::owned("")));
    }
    let low = shape.low;
    let high = shape.high;
    list::push(&mut cache, shape);
    let (w2, a) = deploy::asked(
        w1,
        Ask::Levels(
            LevelQuery {
                label: text::owned(label),
                sym: list::own_text(sym),
                overrides: deploy::overrides(cfg),
                spot,
                amount,
                low,
                high,
                min_quote: minq,
                max_depth_pct: cfg.deploy_max_depth_pct,
                pin_prices: cfg.deploy_pin_prices,
                pinned: pinned_for(pinned, sym),
            },
        ),
        answers,
    );
    if deploy::stopped(&w2) {
        return (w2, skipped(cache, text::owned("")));
    }
    match a {
        Answer::Levels(levels, warn_) => {
            let (w3, rungs) = level_rungs(
                noting(w2, list::text_ref(&warn_)),
                exch,
                pair,
                spot,
                minb,
                minq,
                &levels,
                answers,
            );
            if deploy::stopped(&w3) {
                return (w3, skipped(cache, text::owned("")));
            }
            if rungs.len() == 0 {
                let mut line = text::owned("$");
                line.push_str(pyfmt::fixed(amount, 2).as_str());
                line.push_str(" below venue minimum (~$");
                line.push_str(pyfmt::fixed(minq, 2).as_str());
                line.push_str("/order)");
                return (w3, skipped(cache, line));
            }
            (w3, Coin { cache, rungs, skip: None })
        },
        _ => (
            deploy::failing(w2, text::owned("answer out of turn")),
            skipped(cache, text::owned("")),
        ),
    }
}

/// A coin's zones, where the venue's data can be used.
pub open spec fn plan_spot_spec(
    w: WorkView,
    cfg: ConfigView,
    exch: Seq<char>,
    pair: Seq<char>,
    amount: Double,
    spot: Double,
    label: Seq<char>,
    cache: Seq<ShapeView>,
    sym: Option<Seq<char>>,
    pinned: Seq<PinnedView>,
    answers: Seq<AnswerView>,
) -> (WorkView, CoinView) {
    let (w1, mins) = venue_mins_spec(w, exch, pair, answers);
    if deploy::stopped_spec(w1) {
        (w1, skipped_spec(cache, ""@))
    } else {
        match mins {
            Err(e) => (w1, skipped_spec(cache, "venue data: "@ + e)),
            Ok(m) => if !(spot.finite() && Double::zero_spec().lt_spec(spot)) {
                (
                    w1,
                    skipped_spec(
                        cache,
                        "venue data: spot "@
                            + crate::watch::pyfmt::repr_spec(spot)
                            + " is not a positive price"@,
                    ),
                )
            } else {
                plan_rungs_spec(
                    w1,
                    cfg,
                    exch,
                    pair,
                    amount,
                    spot,
                    m.0,
                    m.1,
                    label,
                    cache,
                    sym,
                    pinned,
                    answers,
                )
            },
        }
    }
}

fn plan_spot(
    w: Work,
    cfg: &Config,
    exch: &str,
    pair: &str,
    amount: Double,
    spot: Double,
    label: &str,
    cache: Vec<Shape>,
    sym: Option<&str>,
    pinned: &Vec<Pinned>,
    answers: &Vec<Answer>,
) -> (r: (Work, Coin))
    ensures
        r.deep_view() == plan_spot_spec(
            w.deep_view(),
            cfg.deep_view(),
            exch@,
            pair@,
            amount,
            spot,
            label@,
            cache.deep_view(),
            sym.deep_view(),
            pinned.deep_view(),
            answers.deep_view(),
        ),
{
    let (w1, mins) = venue_mins(w, exch, pair, answers);
    if deploy::stopped(&w1) {
        return (w1, skipped(cache, text::owned("")));
    }
    match mins {
        Err(e) => {
            let mut line = text::owned("venue data: ");
            line.push_str(e.as_str());
            (w1, skipped(cache, line))
        },
        Ok(m) => {
            if !(spot.is_finite() && Double::zero().lt(spot)) {
                let mut line2 = text::owned("venue data: spot ");
                line2.push_str(pyfmt::float_repr(spot).as_str());
                line2.push_str(" is not a positive price");
                return (w1, skipped(cache, line2));
            }
            plan_rungs(
                w1,
                cfg,
                exch,
                pair,
                amount,
                spot,
                m.0,
                m.1,
                label,
                cache,
                sym,
                pinned,
                answers,
            )
        },
    }
}

/// One coin's zones, or why it has none; a venue failure that is not caught ends the step.
pub open spec fn plan_coin_spec(
    w: WorkView,
    cfg: ConfigView,
    exch: Seq<char>,
    pair: Seq<char>,
    amount: Double,
    label: Seq<char>,
    cache: Seq<ShapeView>,
    sym: Option<Seq<char>>,
    pinned: Seq<PinnedView>,
    answers: Seq<AnswerView>,
) -> (WorkView, CoinView) {
    let (w1, whole) = deploy::need_number_spec(w, AskView::FloorCents(amount), answers);
    if deploy::stopped_spec(w1) {
        (w1, skipped_spec(cache, ""@))
    } else {
        let (w2, got) = deploy::ask_number_spec(w1, AskView::Price(exch, pair), answers);
        if deploy::stopped_spec(w2) {
            (w2, skipped_spec(cache, ""@))
        } else {
            match got {
                Err(e) => (w2, skipped_spec(cache, "venue data: "@ + e)),
                Ok(spot) => plan_spot_spec(
                    w2,
                    cfg,
                    exch,
                    pair,
                    whole,
                    spot,
                    label,
                    cache,
                    sym,
                    pinned,
                    answers,
                ),
            }
        }
    }
}

/// One coin's zones, or why it has none; a venue failure that is not caught ends the step.
pub fn plan_coin(
    w: Work,
    cfg: &Config,
    exch: &str,
    pair: &str,
    amount: Double,
    label: &str,
    cache: Vec<Shape>,
    sym: Option<&str>,
    pinned: &Vec<Pinned>,
    answers: &Vec<Answer>,
) -> (r: (Work, Coin))
    ensures
        r.deep_view() == plan_coin_spec(
            w.deep_view(),
            cfg.deep_view(),
            exch@,
            pair@,
            amount,
            label@,
            cache.deep_view(),
            sym.deep_view(),
            pinned.deep_view(),
            answers.deep_view(),
        ),
{
    let (w1, whole) = deploy::need_number(w, Ask::FloorCents(amount), answers);
    if deploy::stopped(&w1) {
        return (w1, skipped(cache, text::owned("")));
    }
    let (w2, got) = deploy::ask_number(
        w1,
        Ask::Price(text::owned(exch), text::owned(pair)),
        answers,
    );
    if deploy::stopped(&w2) {
        return (w2, skipped(cache, text::owned("")));
    }
    match got {
        Err(e) => {
            let mut line = text::owned("venue data: ");
            line.push_str(e.as_str());
            (w2, skipped(cache, line))
        },
        Ok(spot) => plan_spot(
            w2,
            cfg,
            exch,
            pair,
            whole,
            spot,
            label,
            cache,
            sym,
            pinned,
            answers,
        ),
    }
}

/// How far a venue's plan has come.
#[derive(Debug)]
pub struct Round {
    /// The coins still in it, with their weights.
    pub weights: Vec<(String, Double)>,
    pub plans: Vec<(String, Vec<Rung>)>,
    pub skips: Vec<String>,
    /// The coins this round dropped.
    pub dropped: Vec<String>,
    pub cache: Vec<Shape>,
    pub finished: bool,
}

/// What a [`Round`] holds.
pub struct RoundView {
    pub weights: Seq<(Seq<char>, Double)>,
    pub plans: Seq<(Seq<char>, Seq<RungView>)>,
    pub skips: Seq<Seq<char>>,
    pub dropped: Seq<Seq<char>>,
    pub cache: Seq<ShapeView>,
    pub finished: bool,
}

impl DeepView for Round {
    type V = RoundView;

    open spec fn deep_view(&self) -> RoundView {
        RoundView {
            weights: self.weights.deep_view(),
            plans: self.plans.deep_view(),
            skips: self.skips.deep_view(),
            dropped: self.dropped.deep_view(),
            cache: self.cache.deep_view(),
            finished: self.finished,
        }
    }
}

/// One coin's share of a round.
pub open spec fn plan_share_spec(
    w: WorkView,
    cfg: ConfigView,
    exch: Seq<char>,
    budget: Double,
    total: Double,
    label: Seq<char>,
    pinned: Seq<PinnedView>,
    sym: Seq<char>,
    weight: Double,
    r: RoundView,
    answers: Seq<AnswerView>,
) -> (WorkView, RoundView) {
    if deploy::stopped_spec(w) {
        (w, r)
    } else {
        match deploy::pair_for_spec(cfg, exch, sym) {
            Err(e) => (deploy::failing_spec(w, e), r),
            Ok(pair) => {
                let (v, c) = plan_coin_spec(
                    w,
                    cfg,
                    exch,
                    pair,
                    budget.mul_spec(weight).div_spec(total),
                    label,
                    r.cache,
                    Some(sym),
                    pinned,
                    answers,
                );
                let r = RoundView { cache: c.cache, ..r };
                match c.skip {
                    Some(why) => {
                        let r = RoundView { dropped: r.dropped.push(sym), ..r };
                        (v, RoundView { skips: r.skips.push(sym + ": "@ + why), ..r })
                    },
                    None => (v, RoundView { plans: r.plans.push((sym, c.rungs)), ..r }),
                }
            },
        }
    }
}

fn plan_share(
    w: Work,
    cfg: &Config,
    exch: &str,
    budget: Double,
    total: Double,
    label: &str,
    pinned: &Vec<Pinned>,
    sym: &str,
    weight: Double,
    r: Round,
    answers: &Vec<Answer>,
) -> (out: (Work, Round))
    ensures
        out.deep_view() == plan_share_spec(
            w.deep_view(),
            cfg.deep_view(),
            exch@,
            budget,
            total,
            label@,
            pinned.deep_view(),
            sym@,
            weight,
            r.deep_view(),
            answers.deep_view(),
        ),
{
    let mut r = r;
    if deploy::stopped(&w) {
        return (w, r);
    }
    match deploy::pair_for(cfg, exch, sym) {
        Err(e) => (deploy::failing(w, e), r),
        Ok(pair) => {
            let (v, c) = plan_coin(
                w,
                cfg,
                exch,
                pair.as_str(),
                budget.times(weight).over(total),
                label,
                r.cache.dup(),
                Some(sym),
                pinned,
                answers,
            );
            r.cache = c.cache.dup();
            match &c.skip {
                Some(why) => {
                    list::push(&mut r.dropped, text::owned(sym));
                    let mut line = text::owned(sym);
                    line.push_str(": ");
                    line.push_str(why.as_str());
                    list::push(&mut r.skips, line);
                    (v, r)
                },
                None => {
                    list::push(&mut r.plans, (text::owned(sym), c.rungs.dup()));
                    (v, r)
                },
            }
        },
    }
}

/// The first `n` of them.
pub open spec fn add_weight_spec(
    xs: Seq<(Seq<char>, Double)>,
    out: Seq<Double>,
    n: nat,
) -> Seq<Double> {
    out + Seq::new(
        n,
        |i: int| {
            let it = xs[i];
            let v = it.1;
            v
        },
    )
}

fn add_weight(xs: &Vec<(String, Double)>, out: Vec<Double>) -> (r: Vec<Double>)
    ensures
        r.deep_view() == add_weight_spec(xs.deep_view(), out.deep_view(), xs@.len()),
{
    let ghost out0 = out.deep_view();
    let mut out = out;
    let mut i: usize = 0;
    while i < xs.len()
        invariant
            i <= xs@.len(),
            out.deep_view() == add_weight_spec(xs.deep_view(), out0, i as nat),
        decreases xs@.len() - i,
    {
        let it = &xs[i];
        let v = it.1;
        list::push(&mut out, v);
        assert(out.deep_view() =~= add_weight_spec(xs.deep_view(), out0, (i + 1) as nat));
        i = i + 1;
    }
    out
}

/// The weights.
pub open spec fn weights_alone_spec(ws: Seq<(Seq<char>, Double)>) -> Seq<Double> {
    add_weight_spec(ws, Seq::<Double>::empty(), ws.len())
}

fn weights_alone(ws: &Vec<(String, Double)>) -> (r: Vec<Double>)
    ensures
        r.deep_view() == weights_alone_spec(ws.deep_view()),
{
    let mut out: Vec<Double> = list::none();
    out = add_weight(ws, out);
    out
}

/// Of the first `n` of them.
pub open spec fn keep_weights_spec(
    dropped: Seq<Seq<char>>,
    xs: Seq<(Seq<char>, Double)>,
    out: Seq<(Seq<char>, Double)>,
    n: nat,
) -> Seq<(Seq<char>, Double)> {
    out + list::gathered(
        xs,
        |it: (Seq<char>, Double)| {
            let k = it.0;
            let v = it.1;
            if !dropped.contains(k) {
                Some((k, v))
            } else {
                None
            }
        },
        n,
    )
}

fn keep_weights(
    dropped: &Vec<String>,
    xs: &Vec<(String, Double)>,
    out: Vec<(String, Double)>,
) -> (r: Vec<(String, Double)>)
    ensures
        r.deep_view() == keep_weights_spec(
            dropped.deep_view(),
            xs.deep_view(),
            out.deep_view(),
            xs@.len(),
        ),
{
    let ghost out0 = out.deep_view();
    let mut out = out;
    let mut i: usize = 0;
    while i < xs.len()
        invariant
            i <= xs@.len(),
            out.deep_view() == keep_weights_spec(
                dropped.deep_view(),
                xs.deep_view(),
                out0,
                i as nat,
            ),
        decreases xs@.len() - i,
    {
        let it = &xs[i];
        let k = it.0.as_str();
        let v = it.1;
        if !list::holds(dropped, k) {
            list::push(&mut out, (text::owned(k), v));
        }
        assert(out.deep_view() =~= keep_weights_spec(
            dropped.deep_view(),
            xs.deep_view(),
            out0,
            (i + 1) as nat,
        ));
        i = i + 1;
    }
    out
}

/// The coins that were not dropped.
pub open spec fn without_dropped_spec(
    ws: Seq<(Seq<char>, Double)>,
    dropped: Seq<Seq<char>>,
) -> Seq<(Seq<char>, Double)> {
    keep_weights_spec(dropped, ws, Seq::<(Seq<char>, Double)>::empty(), ws.len())
}

fn without_dropped(
    ws: &Vec<(String, Double)>,
    dropped: &Vec<String>,
) -> (r: Vec<(String, Double)>)
    ensures
        r.deep_view() == without_dropped_spec(ws.deep_view(), dropped.deep_view()),
{
    let mut out: Vec<(String, Double)> = list::none();
    out = keep_weights(dropped, ws, out);
    out
}

/// The first `n` of them.
pub open spec fn plan_shares_spec(
    answers: Seq<AnswerView>,
    budget: Double,
    cfg: ConfigView,
    exch: Seq<char>,
    label: Seq<char>,
    pinned: Seq<PinnedView>,
    total: Double,
    xs: Seq<(Seq<char>, Double)>,
    w: WorkView,
    r: RoundView,
    n: nat,
) -> (WorkView, RoundView)
    decreases n,
{
    if n == 0 {
        (w, r)
    } else {
        let (w, r) = plan_shares_spec(
            answers,
            budget,
            cfg,
            exch,
            label,
            pinned,
            total,
            xs,
            w,
            r,
            (n - 1) as nat,
        );
        let it = xs[n - 1];
        let k = it.0;
        let v = it.1;
        let (w1, r1) = plan_share_spec(
            w,
            cfg,
            exch,
            budget,
            total,
            label,
            pinned,
            k,
            v,
            r,
            answers,
        );
        (w1, r1)
    }
}

fn plan_shares(
    answers: &Vec<Answer>,
    budget: Double,
    cfg: &Config,
    exch: &str,
    label: &str,
    pinned: &Vec<Pinned>,
    total: Double,
    xs: &Vec<(String, Double)>,
    w: Work,
    r: Round,
) -> (out: (Work, Round))
    ensures
        out.deep_view() == plan_shares_spec(
            answers.deep_view(),
            budget,
            cfg.deep_view(),
            exch@,
            label@,
            pinned.deep_view(),
            total,
            xs.deep_view(),
            w.deep_view(),
            r.deep_view(),
            xs@.len(),
        ),
{
    let ghost w0 = w.deep_view();
    let ghost r0 = r.deep_view();
    let mut w = w;
    let mut r = r;
    let mut i: usize = 0;
    while i < xs.len()
        invariant
            i <= xs@.len(),
            (w.deep_view(), r.deep_view()) == plan_shares_spec(
                answers.deep_view(),
                budget,
                cfg.deep_view(),
                exch@,
                label@,
                pinned.deep_view(),
                total,
                xs.deep_view(),
                w0,
                r0,
                i as nat,
            ),
        decreases xs@.len() - i,
    {
        let it = &xs[i];
        let k = it.0.as_str();
        let v = it.1;
        let (w1, r1) = plan_share(w, cfg, exch, budget, total, label, pinned, k, v, r, answers);
        w = w1;
        r = r1;
        i = i + 1;
    }
    (w, r)
}

/// One round of a venue's plan: every coin's share is planned, and the coins whose share cannot
/// clear the venue minimum are dropped. It is the last one where none was, or where none is
/// left.
pub open spec fn plan_round_spec(
    w: WorkView,
    cfg: ConfigView,
    exch: Seq<char>,
    budget: Double,
    label: Seq<char>,
    pinned: Seq<PinnedView>,
    r: RoundView,
    answers: Seq<AnswerView>,
) -> (WorkView, RoundView) {
    if deploy::stopped_spec(w) || r.finished {
        (w, r)
    } else {
        let total = crate::watch::pyfmt::sum_spec(weights_alone_spec(r.weights));
        let coins = r.weights;
        let r = RoundView { plans: Seq::<(Seq<char>, Seq<RungView>)>::empty(), ..r };
        let r = RoundView { dropped: Seq::<Seq<char>>::empty(), ..r };
        let (w, r) = plan_shares_spec(
            answers,
            budget,
            cfg,
            exch,
            label,
            pinned,
            total,
            coins,
            w,
            r,
            coins.len(),
        );
        if r.dropped.len() == 0 || r.plans.len() == 0 {
            (w, RoundView { finished: true, ..r })
        } else {
            let r = RoundView { weights: without_dropped_spec(r.weights, r.dropped), ..r };
            (w, r)
        }
    }
}

fn plan_round(
    w: Work,
    cfg: &Config,
    exch: &str,
    budget: Double,
    label: &str,
    pinned: &Vec<Pinned>,
    r: Round,
    answers: &Vec<Answer>,
) -> (out: (Work, Round))
    ensures
        out.deep_view() == plan_round_spec(
            w.deep_view(),
            cfg.deep_view(),
            exch@,
            budget,
            label@,
            pinned.deep_view(),
            r.deep_view(),
            answers.deep_view(),
        ),
{
    let mut w = w;
    let mut r = r;
    if deploy::stopped(&w) || r.finished {
        return (w, r);
    }
    let total = list::sum(&weights_alone(&r.weights));
    let coins = r.weights.dup();
    r.plans = list::none::<(String, Vec<Rung>)>();
    r.dropped = list::none::<String>();
    let (next_w, next_r) = plan_shares(
        answers,
        budget,
        cfg,
        exch,
        label,
        pinned,
        total,
        &coins,
        w,
        r,
    );
    w = next_w;
    r = next_r;
    if r.dropped.len() == 0 || r.plans.len() == 0 {
        r.finished = true;
        return (w, r);
    }
    r.weights = without_dropped(&r.weights, &r.dropped);
    (w, r)
}

/// Of the first `n` of them.
pub open spec fn add_weighted_spec(
    cfg: ConfigView,
    xs: Seq<Seq<char>>,
    out: Seq<(Seq<char>, Double)>,
    n: nat,
) -> Seq<(Seq<char>, Double)> {
    out + list::gathered(
        xs,
        |s: Seq<char>| {
            let x = deploy::alloc_weight_spec(cfg, s);
            if Double::zero_spec().lt_spec(x) {
                Some((s, x))
            } else {
                None
            }
        },
        n,
    )
}

fn add_weighted(
    cfg: &Config,
    xs: &Vec<String>,
    out: Vec<(String, Double)>,
) -> (r: Vec<(String, Double)>)
    ensures
        r.deep_view() == add_weighted_spec(
            cfg.deep_view(),
            xs.deep_view(),
            out.deep_view(),
            xs@.len(),
        ),
{
    let ghost out0 = out.deep_view();
    let mut out = out;
    let mut i: usize = 0;
    while i < xs.len()
        invariant
            i <= xs@.len(),
            out.deep_view() == add_weighted_spec(cfg.deep_view(), xs.deep_view(), out0, i as nat),
        decreases xs@.len() - i,
    {
        let s = xs[i].as_str();
        let x = deploy::alloc_weight(cfg, s);
        if Double::zero().lt(x) {
            list::push(&mut out, (text::owned(s), x));
        }
        assert(out.deep_view() =~= add_weighted_spec(
            cfg.deep_view(),
            xs.deep_view(),
            out0,
            (i + 1) as nat,
        ));
        i = i + 1;
    }
    out
}

/// The coins the allocation names, with their weights.
pub open spec fn weighted_spec(cfg: ConfigView, syms: Seq<Seq<char>>) -> Seq<(Seq<char>, Double)> {
    add_weighted_spec(cfg, syms, Seq::<(Seq<char>, Double)>::empty(), syms.len())
}

fn weighted(cfg: &Config, syms: &Vec<String>) -> (r: Vec<(String, Double)>)
    ensures
        r.deep_view() == weighted_spec(cfg.deep_view(), syms.deep_view()),
{
    let mut out: Vec<(String, Double)> = list::none();
    out = add_weighted(cfg, syms, out);
    out
}

/// Of the first `n` of them.
pub open spec fn add_equal_spec(
    xs: Seq<Seq<char>>,
    out: Seq<(Seq<char>, Double)>,
    n: nat,
) -> Seq<(Seq<char>, Double)> {
    out + Seq::new(
        n,
        |i: int| {
            let s = xs[i];
            (s, Double::int_spec(1))
        },
    )
}

fn add_equal(xs: &Vec<String>, out: Vec<(String, Double)>) -> (r: Vec<(String, Double)>)
    ensures
        r.deep_view() == add_equal_spec(xs.deep_view(), out.deep_view(), xs@.len()),
{
    let ghost out0 = out.deep_view();
    let mut out = out;
    let mut i: usize = 0;
    while i < xs.len()
        invariant
            i <= xs@.len(),
            out.deep_view() == add_equal_spec(xs.deep_view(), out0, i as nat),
        decreases xs@.len() - i,
    {
        let s = xs[i].as_str();
        list::push(&mut out, (text::owned(s), Double::of_int(1)));
        assert(out.deep_view() =~= add_equal_spec(xs.deep_view(), out0, (i + 1) as nat));
        i = i + 1;
    }
    out
}

/// Every coin with the same weight.
pub open spec fn equal_weights_spec(syms: Seq<Seq<char>>) -> Seq<(Seq<char>, Double)> {
    add_equal_spec(syms, Seq::<(Seq<char>, Double)>::empty(), syms.len())
}

fn equal_weights(syms: &Vec<String>) -> (r: Vec<(String, Double)>)
    ensures
        r.deep_view() == equal_weights_spec(syms.deep_view()),
{
    let mut out: Vec<(String, Double)> = list::none();
    out = add_equal(syms, out);
    out
}

/// Of the first `n` of them.
pub open spec fn add_covered_spec(
    only: Option<Seq<Seq<char>>>,
    xs: Seq<Seq<char>>,
    out: Seq<Seq<char>>,
    n: nat,
) -> Seq<Seq<char>> {
    out + list::kept(xs, |s: Seq<char>| deploy::in_only_spec(only, s), n)
}

fn add_covered(only: Option<&Vec<String>>, xs: &Vec<String>, out: Vec<String>) -> (r: Vec<String>)
    ensures
        r.deep_view() == add_covered_spec(
            only.deep_view(),
            xs.deep_view(),
            out.deep_view(),
            xs@.len(),
        ),
{
    let ghost out0 = out.deep_view();
    let mut out = out;
    let mut i: usize = 0;
    while i < xs.len()
        invariant
            i <= xs@.len(),
            out.deep_view() == add_covered_spec(only.deep_view(), xs.deep_view(), out0, i as nat),
        decreases xs@.len() - i,
    {
        let s = xs[i].as_str();
        if deploy::in_only(only, s) {
            list::push(&mut out, text::owned(s));
        }
        assert(out.deep_view() =~= add_covered_spec(
            only.deep_view(),
            xs.deep_view(),
            out0,
            (i + 1) as nat,
        ));
        i = i + 1;
    }
    out
}

/// The coins of a venue that a re-ladder covers.
pub open spec fn covered_spec(
    cfg: ConfigView,
    exch: Seq<char>,
    only: Option<Seq<Seq<char>>>,
) -> Seq<Seq<char>> {
    add_covered_spec(
        only,
        deploy::venue_syms_spec(cfg, exch),
        Seq::<Seq<char>>::empty(),
        deploy::venue_syms_spec(cfg, exch).len(),
    )
}

fn covered(cfg: &Config, exch: &str, only: Option<&Vec<String>>) -> (r: Vec<String>)
    ensures
        r.deep_view() == covered_spec(cfg.deep_view(), exch@, only.deep_view()),
{
    let mut out: Vec<String> = list::none();
    out = add_covered(only, &deploy::venue_syms(cfg, exch), out);
    out
}

/// The first `n` rounds.
pub open spec fn plan_rounds_spec(
    answers: Seq<AnswerView>,
    budget: Double,
    cfg: ConfigView,
    exch: Seq<char>,
    label: Seq<char>,
    pinned: Seq<PinnedView>,
    xs: Seq<Seq<char>>,
    w: WorkView,
    r: RoundView,
    n: nat,
) -> (WorkView, RoundView)
    decreases n,
{
    if n == 0 {
        (w, r)
    } else {
        let (w, r) = plan_rounds_spec(
            answers,
            budget,
            cfg,
            exch,
            label,
            pinned,
            xs,
            w,
            r,
            (n - 1) as nat,
        );
        let s = xs[n - 1];
        let (w1, r1) = plan_round_spec(w, cfg, exch, budget, label, pinned, r, answers);
        (w1, r1)
    }
}

fn plan_rounds(
    answers: &Vec<Answer>,
    budget: Double,
    cfg: &Config,
    exch: &str,
    label: &str,
    pinned: &Vec<Pinned>,
    xs: &Vec<String>,
    w: Work,
    r: Round,
) -> (out: (Work, Round))
    ensures
        out.deep_view() == plan_rounds_spec(
            answers.deep_view(),
            budget,
            cfg.deep_view(),
            exch@,
            label@,
            pinned.deep_view(),
            xs.deep_view(),
            w.deep_view(),
            r.deep_view(),
            xs@.len(),
        ),
{
    let ghost w0 = w.deep_view();
    let ghost r0 = r.deep_view();
    let mut w = w;
    let mut r = r;
    let mut i: usize = 0;
    while i < xs.len()
        invariant
            i <= xs@.len(),
            (w.deep_view(), r.deep_view()) == plan_rounds_spec(
                answers.deep_view(),
                budget,
                cfg.deep_view(),
                exch@,
                label@,
                pinned.deep_view(),
                xs.deep_view(),
                w0,
                r0,
                i as nat,
            ),
        decreases xs@.len() - i,
    {
        let s = xs[i].as_str();
        let (w1, r1) = plan_round(w, cfg, exch, budget, label, pinned, r, answers);
        w = w1;
        r = r1;
        i = i + 1;
    }
    (w, r)
}

/// Split a venue budget over its coins by allocation weight, renormalised within the venue; a coin
/// whose share cannot clear the venue minimum drops out and its share goes to the rest. Every
/// round but the last drops a coin and leaves one, so there are no more rounds than coins.
pub open spec fn venue_plan_spec(
    w: WorkView,
    cfg: ConfigView,
    exch: Seq<char>,
    budget: Double,
    label: Seq<char>,
    only: Option<Seq<Seq<char>>>,
    pinned: Seq<PinnedView>,
    answers: Seq<AnswerView>,
) -> (WorkView, VenuePlanView) {
    let syms = covered_spec(cfg, exch, only);
    let weights = weighted_spec(cfg, syms);
    let fallback = weights.len() == 0;
    let weights = if fallback {
        equal_weights_spec(syms)
    } else {
        weights
    };
    let rounds = syms;
    let rounds = rounds.push(""@);
    let r = RoundView {
        weights,
        plans: Seq::<(Seq<char>, Seq<RungView>)>::empty(),
        skips: Seq::<Seq<char>>::empty(),
        dropped: Seq::<Seq<char>>::empty(),
        cache: Seq::<ShapeView>::empty(),
        finished: false,
    };
    let (w, r) = plan_rounds_spec(
        answers,
        budget,
        cfg,
        exch,
        label,
        pinned,
        rounds,
        w,
        r,
        rounds.len(),
    );
    (w, VenuePlanView { plans: r.plans, skips: r.skips, fallback })
}

/// Split a venue budget over its coins by allocation weight, renormalised within the venue; a coin
/// whose share cannot clear the venue minimum drops out and its share goes to the rest. Every
/// round but the last drops a coin and leaves one, so there are no more rounds than coins.
pub fn venue_plan(
    w: Work,
    cfg: &Config,
    exch: &str,
    budget: Double,
    label: &str,
    only: Option<&Vec<String>>,
    pinned: &Vec<Pinned>,
    answers: &Vec<Answer>,
) -> (r: (Work, VenuePlan))
    ensures
        r.deep_view() == venue_plan_spec(
            w.deep_view(),
            cfg.deep_view(),
            exch@,
            budget,
            label@,
            only.deep_view(),
            pinned.deep_view(),
            answers.deep_view(),
        ),
{
    let mut w = w;
    let syms = covered(cfg, exch, only);
    let mut weights = weighted(cfg, &syms);
    let fallback = weights.len() == 0;
    if fallback {
        weights = equal_weights(&syms);
    }
    let mut rounds = syms.dup();
    list::push(&mut rounds, text::owned(""));
    let mut r = Round {
        weights,
        plans: list::none::<(String, Vec<Rung>)>(),
        skips: list::none::<String>(),
        dropped: list::none::<String>(),
        cache: list::none::<Shape>(),
        finished: false,
    };
    let (next_w, next_r) = plan_rounds(answers, budget, cfg, exch, label, pinned, &rounds, w, r);
    w = next_w;
    r = next_r;
    (w, VenuePlan { plans: r.plans.dup(), skips: r.skips.dup(), fallback })
}

/// The first `n` of them.
pub open spec fn copy_pinned_spec(
    p: PinnedView,
    xs: Seq<PinnedView>,
    known: bool,
    out: Seq<PinnedView>,
    n: nat,
) -> (bool, Seq<PinnedView>)
    decreases n,
{
    if n == 0 {
        (known, out)
    } else {
        let (known, out) = copy_pinned_spec(p, xs, known, out, (n - 1) as nat);
        let x = xs[n - 1];
        if x.sym == p.sym && x.rung == p.rung {
            (true, out.push(p))
        } else {
            (known, out.push(x))
        }
    }
}

fn copy_pinned(
    p: &Pinned,
    xs: &Vec<Pinned>,
    known: bool,
    out: Vec<Pinned>,
) -> (r: (bool, Vec<Pinned>))
    ensures
        r.deep_view() == copy_pinned_spec(
            p.deep_view(),
            xs.deep_view(),
            known,
            out.deep_view(),
            xs@.len(),
        ),
{
    let ghost known0 = known;
    let ghost out0 = out.deep_view();
    let mut known = known;
    let mut out = out;
    let mut i: usize = 0;
    while i < xs.len()
        invariant
            i <= xs@.len(),
            (known, out.deep_view()) == copy_pinned_spec(
                p.deep_view(),
                xs.deep_view(),
                known0,
                out0,
                i as nat,
            ),
        decreases xs@.len() - i,
    {
        let x = &xs[i];
        if text::same(x.sym.as_str(), p.sym.as_str()) && x.rung == p.rung {
            known = true;
            list::push(&mut out, p.dup());
        } else {
            list::push(&mut out, x.dup());
        }
        i = i + 1;
    }
    (known, out)
}

/// The levels with one written under its coin and rung.
pub open spec fn put_pinned_spec(ps: Seq<PinnedView>, p: PinnedView) -> Seq<PinnedView> {
    let out = Seq::<PinnedView>::empty();
    let known = false;
    let (known, out) = copy_pinned_spec(p, ps, known, out, ps.len());
    if !known {
        out.push(p)
    } else {
        out
    }
}

fn put_pinned(ps: &Vec<Pinned>, p: Pinned) -> (r: Vec<Pinned>)
    ensures
        r.deep_view() == put_pinned_spec(ps.deep_view(), p.deep_view()),
{
    let mut out: Vec<Pinned> = list::none();
    let mut known = false;
    let (next_known, next_out) = copy_pinned(&p, ps, known, out);
    known = next_known;
    out = next_out;
    if !known {
        list::push(&mut out, p);
    }
    out
}

/// Whether a rung was placed under another regime label.
pub open spec fn other_label_spec(o: OrderView, label: Seq<char>) -> bool {
    match o.label {
        Some(l) => l != ""@ && l != label,
        None => false,
    }
}

fn other_label(o: &Order, label: &str) -> (r: bool)
    ensures
        r == other_label_spec(o.deep_view(), label@),
{
    let l = match &o.label {
        Some(v) => v.as_str(),
        None => {
            return false;
        },
    };
    !text::same(l, "") && !text::same(l, label)
}

/// Since when a rung's level rests.
pub open spec fn resting_since_spec(o: OrderView) -> Option<Double> {
    if deploy::truthy_num_spec(o.first_ts) {
        o.first_ts
    } else {
        o.ts
    }
}

fn resting_since(o: &Order) -> (r: Option<Double>)
    ensures
        r == resting_since_spec(o.deep_view()),
{
    if deploy::truthy_num(o.first_ts) {
        o.first_ts
    } else {
        o.ts
    }
}

/// Whether a row is a zone on a venue that a re-ladder covers.
pub open spec fn is_resting_spec(
    o: OrderView,
    exch: Seq<char>,
    only: Option<Seq<Seq<char>>>,
) -> bool {
    o.exch == exch
        && deploy::has_id_spec(o)
        && deploy::truthy_int_spec(o.rung)
        && deploy::in_only_spec(only, o.sym)
}

fn is_resting(o: &Order, exch: &str, only: Option<&Vec<String>>) -> (r: bool)
    ensures
        r == is_resting_spec(o.deep_view(), exch@, only.deep_view()),
{
    text::same(o.exch.as_str(), exch)
        && deploy::has_id(o)
        && deploy::truthy_int(o.rung)
        && deploy::in_only(only, o.sym.as_str())
}

/// Of the first `n` rows.
pub open spec fn add_resting_spec(
    exch: Seq<char>,
    label: Seq<char>,
    only: Option<Seq<Seq<char>>>,
    xs: Seq<OrderView>,
    out: Seq<PinnedView>,
    n: nat,
) -> Seq<PinnedView>
    decreases n,
{
    if n == 0 {
        out
    } else {
        let out = add_resting_spec(exch, label, only, xs, out, (n - 1) as nat);
        let o = xs[n - 1];
        if is_resting_spec(o, exch, only)
            && !other_label_spec(o, label)
            && deploy::truthy_num_spec(o.price) {
            put_pinned_spec(
                out,
                PinnedView {
                    sym: o.sym,
                    rung: match o.rung {
                        Some(v) => v,
                        None => 0,
                    },
                    price: match o.price {
                        Some(v) => v,
                        None => Double::zero_spec(),
                    },
                    note: o.note,
                    since: resting_since_spec(o),
                },
            )
        } else {
            out
        }
    }
}

fn add_resting(
    exch: &str,
    label: &str,
    only: Option<&Vec<String>>,
    xs: &Vec<Order>,
    out: Vec<Pinned>,
) -> (r: Vec<Pinned>)
    ensures
        r.deep_view() == add_resting_spec(
            exch@,
            label@,
            only.deep_view(),
            xs.deep_view(),
            out.deep_view(),
            xs@.len(),
        ),
{
    let ghost out0 = out.deep_view();
    let mut out = out;
    let mut i: usize = 0;
    while i < xs.len()
        invariant
            i <= xs@.len(),
            out.deep_view() == add_resting_spec(
                exch@,
                label@,
                only.deep_view(),
                xs.deep_view(),
                out0,
                i as nat,
            ),
        decreases xs@.len() - i,
    {
        let o = &xs[i];
        if is_resting(o, exch, only) && !other_label(o, label) && deploy::truthy_num(o.price) {
            out = put_pinned(
                &out,
                Pinned {
                    sym: text::owned(o.sym.as_str()),
                    rung: match o.rung {
                        Some(v) => v,
                        None => 0,
                    },
                    price: match o.price {
                        Some(v) => v,
                        None => Double::zero(),
                    },
                    note: o.note.dup(),
                    since: resting_since(o),
                },
            );
        }
        i = i + 1;
    }
    out
}

/// The price levels still resting on a venue, which a re-ladder holds. Rungs placed under another
/// regime label are left out: a regime flip is when the ladder moves.
pub open spec fn resting_levels_spec(
    w: WorkView,
    exch: Seq<char>,
    only: Option<Seq<Seq<char>>>,
    answers: Seq<AnswerView>,
) -> (WorkView, Seq<PinnedView>) {
    let (v, label) = deploy::regime_label_spec(w, answers);
    let out = add_resting_spec(
        exch,
        label,
        only,
        journal::open_rows_spec(journal::rows_alone(v.journal), Some("deploy_buy"@)),
        Seq::<PinnedView>::empty(),
        journal::open_rows_spec(journal::rows_alone(v.journal), Some("deploy_buy"@)).len(),
    );
    (v, out)
}

/// The price levels still resting on a venue, which a re-ladder holds. Rungs placed under another
/// regime label are left out: a regime flip is when the ladder moves.
pub fn resting_levels(
    w: Work,
    exch: &str,
    only: Option<&Vec<String>>,
    answers: &Vec<Answer>,
) -> (r: (Work, Vec<Pinned>))
    ensures
        r.deep_view() == resting_levels_spec(
            w.deep_view(),
            exch@,
            only.deep_view(),
            answers.deep_view(),
        ),
{
    let (v, label) = deploy::regime_label(w, answers);
    let mut out: Vec<Pinned> = list::none();
    out = add_resting(
        exch,
        label.as_str(),
        only,
        &journal::open_rows(&&v.journal.rows(), Some("deploy_buy")),
        out,
    );
    (v, out)
}

/// What came of a cancel.
#[derive(Debug)]
pub enum Cancelled {
    /// The venue refused it.
    Refused(String),
    /// What became of the order, and what its row says it spent.
    Gone(Settled, Option<Double>),
}

/// What a [`Cancelled`] says.
#[allow(inconsistent_fields)]
pub enum CancelledView {
    Refused(Seq<char>),
    Gone(Settled, Option<Double>),
}

impl DeepView for Cancelled {
    type V = CancelledView;

    open spec fn deep_view(&self) -> CancelledView {
        match self {
            Cancelled::Refused(a) => CancelledView::Refused(a@),
            Cancelled::Gone(a, b) => CancelledView::Gone(*a, *b),
        }
    }
}

/// A row we cancelled.
pub open spec fn canceled_row_spec(o: OrderView, note: Seq<char>) -> OrderView {
    let row = o;
    let row = OrderView { status: "canceled"@, ..row };
    OrderView { note: Some(note), ..row }
}

fn canceled_row(o: &Order, note: &str) -> (r: Order)
    ensures
        r.deep_view() == canceled_row_spec(o.deep_view(), note@),
{
    let mut row = o.dup();
    row.status = text::owned("canceled");
    row.note = Some(text::owned(note));
    row
}

/// Book whatever a cancelled order filled.
pub open spec fn settle_spec(
    w: WorkView,
    o: OrderView,
    answers: Seq<AnswerView>,
) -> (WorkView, CancelledView) {
    let (w1, now) = deploy::need_number_spec(w, AskView::Now, answers);
    if deploy::stopped_spec(w1) {
        (w1, CancelledView::Refused(""@))
    } else {
        let (w2, a) = deploy::asked_spec(w1, AskView::Settle(o.exch, o.client_id, now), answers);
        if deploy::stopped_spec(w2) {
            (w2, CancelledView::Refused(""@))
        } else {
            match a {
                AnswerView::Settled(row, kind) => {
                    let spent = row.filled_quote;
                    let w3 = deploy::revise_row_spec(w2, row);
                    if kind == Settled::NothingFilled || kind == Settled::NotPlaced {
                        (w3, CancelledView::Gone(kind, spent))
                    } else {
                        (deploy::save_spec(w3, answers), CancelledView::Gone(kind, spent))
                    }
                },
                _ => (
                    deploy::failing_spec(w2, "answer out of turn"@),
                    CancelledView::Refused(""@),
                ),
            }
        }
    }
}

fn settle(w: Work, o: &Order, answers: &Vec<Answer>) -> (r: (Work, Cancelled))
    ensures
        r.deep_view() == settle_spec(w.deep_view(), o.deep_view(), answers.deep_view()),
{
    let (w1, now) = deploy::need_number(w, Ask::Now, answers);
    if deploy::stopped(&w1) {
        return (w1, Cancelled::Refused(text::owned("")));
    }
    let (w2, a) = deploy::asked(
        w1,
        Ask::Settle(text::owned(o.exch.as_str()), text::owned(o.client_id.as_str()), now),
        answers,
    );
    if deploy::stopped(&w2) {
        return (w2, Cancelled::Refused(text::owned("")));
    }
    match a {
        Answer::Settled(row, kind) => {
            let spent = row.filled_quote;
            let w3 = deploy::revise_row(w2, row);
            if kind == Settled::NothingFilled || kind == Settled::NotPlaced {
                return (w3, Cancelled::Gone(kind, spent));
            }
            (deploy::save(w3, answers), Cancelled::Gone(kind, spent))
        },
        _ => (
            deploy::failing(w2, text::owned("answer out of turn")),
            Cancelled::Refused(text::owned("")),
        ),
    }
}

/// Cancel an order as one of ours, and book whatever it filled.
pub open spec fn cancel_ours_spec(
    w: WorkView,
    o: OrderView,
    note: Seq<char>,
    answers: Seq<AnswerView>,
) -> (WorkView, CancelledView) {
    let (w1, refused) = deploy::ask_done_spec(
        w,
        AskView::Cancel(
            o.exch,
            o.pair,
            match o.order_id {
                Some(v) => v,
                None => ""@,
            },
        ),
        answers,
    );
    if deploy::stopped_spec(w1) {
        (w1, CancelledView::Refused(""@))
    } else {
        match refused {
            Some(e) => (w1, CancelledView::Refused(e)),
            None => {
                let w2 = deploy::save_spec(
                    deploy::revise_row_spec(w1, canceled_row_spec(o, note)),
                    answers,
                );
                if deploy::stopped_spec(w2) {
                    (w2, CancelledView::Refused(""@))
                } else {
                    settle_spec(w2, o, answers)
                }
            },
        }
    }
}

/// Cancel an order as one of ours, and book whatever it filled.
pub fn cancel_ours(
    w: Work,
    o: &Order,
    note: &str,
    answers: &Vec<Answer>,
) -> (r: (Work, Cancelled))
    ensures
        r.deep_view() == cancel_ours_spec(
            w.deep_view(),
            o.deep_view(),
            note@,
            answers.deep_view(),
        ),
{
    let (w1, refused) = deploy::ask_done(
        w,
        Ask::Cancel(
            text::owned(o.exch.as_str()),
            text::owned(o.pair.as_str()),
            match &o.order_id {
                Some(v) => text::owned(v.as_str()),
                None => text::owned(""),
            },
        ),
        answers,
    );
    if deploy::stopped(&w1) {
        return (w1, Cancelled::Refused(text::owned("")));
    }
    match refused {
        Some(e) => (w1, Cancelled::Refused(e)),
        None => {
            let w2 = deploy::save(deploy::revise_row(w1, canceled_row(o, note)), answers);
            if deploy::stopped(&w2) {
                return (w2, Cancelled::Refused(text::owned("")));
            }
            settle(w2, o, answers)
        },
    }
}

/// Quote a cancelled zone never spent.
pub open spec fn unspent_spec(o: OrderView, kind: Settled, spent: Option<Double>) -> Double {
    let used = match o.part_quote {
        Some(v) => v,
        None => Double::zero_spec(),
    };
    let used = if kind == Settled::Booked && deploy::truthy_num_spec(spent) {
        match spent {
            Some(v) => v,
            None => Double::zero_spec(),
        }
    } else {
        used
    };
    (match o.quote {
        Some(v) => v,
        None => Double::zero_spec(),
    }).sub_spec(
        used,
    ).max_spec(
        Double::zero_spec(),
    )
}

/// Quote a cancelled zone never spent.
pub fn unspent(o: &Order, kind: Settled, spent: Option<Double>) -> (r: Double)
    ensures
        r == unspent_spec(o.deep_view(), kind, spent),
{
    let mut used = match o.part_quote {
        Some(v) => v,
        None => Double::zero(),
    };
    if kind == Settled::Booked && deploy::truthy_num(spent) {
        used = match spent {
            Some(v) => v,
            None => Double::zero(),
        };
    }
    (match o.quote {
        Some(v) => v,
        None => Double::zero(),
    }).minus(
        used,
    ).max(
        Double::zero(),
    )
}

/// Roll one unfilled zone.
pub open spec fn roll_one_spec(
    w: WorkView,
    o: OrderView,
    rolled: Double,
    answers: Seq<AnswerView>,
) -> (WorkView, Double) {
    if deploy::stopped_spec(w) {
        (w, rolled)
    } else {
        let (v, c) = cancel_ours_spec(w, o, deploy::ROLL_NOTE@, answers);
        if deploy::stopped_spec(v) {
            (v, rolled)
        } else {
            match c {
                CancelledView::Gone(kind, spent) => (
                    v,
                    rolled.add_spec(unspent_spec(o, kind, spent)),
                ),
                CancelledView::Refused(e) => (
                    deploy::say_warn_spec(
                        v,
                        Some(o.sym),
                        None,
                        "deploy rollover: cancel failed (may have just filled, reconciles next run): "@
                            + e,
                    ),
                    rolled,
                ),
            }
        }
    }
}

fn roll_one(w: Work, o: &Order, rolled: Double, answers: &Vec<Answer>) -> (r: (Work, Double))
    ensures
        r.deep_view() == roll_one_spec(w.deep_view(), o.deep_view(), rolled, answers.deep_view()),
{
    if deploy::stopped(&w) {
        return (w, rolled);
    }
    let (v, c) = cancel_ours(w, o, deploy::ROLL_NOTE, answers);
    if deploy::stopped(&v) {
        return (v, rolled);
    }
    match c {
        Cancelled::Gone(kind, spent) => (v, rolled.plus(unspent(o, kind, spent))),
        Cancelled::Refused(e) => {
            let mut line = text::owned(
                "deploy rollover: cancel failed (may have just filled, reconciles next run): ",
            );
            line.push_str(e.as_str());
            (deploy::say_warn(v, Some(o.sym.as_str()), list::text_ref(&None), line), rolled)
        },
    }
}

/// Of the first `n` rows.
pub open spec fn roll_zones_spec(
    answers: Seq<AnswerView>,
    exch: Seq<char>,
    only: Option<Seq<Seq<char>>>,
    xs: Seq<OrderView>,
    w: WorkView,
    rolled: Double,
    n: nat,
) -> (WorkView, Double)
    decreases n,
{
    if n == 0 {
        (w, rolled)
    } else {
        let (w, rolled) = roll_zones_spec(answers, exch, only, xs, w, rolled, (n - 1) as nat);
        let o = xs[n - 1];
        if is_resting_spec(o, exch, only) {
            let (v, sum) = roll_one_spec(w, o, rolled, answers);
            (v, sum)
        } else {
            (w, rolled)
        }
    }
}

fn roll_zones(
    answers: &Vec<Answer>,
    exch: &str,
    only: Option<&Vec<String>>,
    xs: &Vec<Order>,
    w: Work,
    rolled: Double,
) -> (r: (Work, Double))
    ensures
        r.deep_view() == roll_zones_spec(
            answers.deep_view(),
            exch@,
            only.deep_view(),
            xs.deep_view(),
            w.deep_view(),
            rolled,
            xs@.len(),
        ),
{
    let ghost w0 = w.deep_view();
    let ghost rolled0 = rolled;
    let mut w = w;
    let mut rolled = rolled;
    let mut i: usize = 0;
    while i < xs.len()
        invariant
            i <= xs@.len(),
            (w.deep_view(), rolled) == roll_zones_spec(
                answers.deep_view(),
                exch@,
                only.deep_view(),
                xs.deep_view(),
                w0,
                rolled0,
                i as nat,
            ),
        decreases xs@.len() - i,
    {
        let o = &xs[i];
        if is_resting(o, exch, only) {
            let (v, sum) = roll_one(w, o, rolled, answers);
            w = v;
            rolled = sum;
        }
        i = i + 1;
    }
    (w, rolled)
}

/// Roll the venue's unfilled zones: cancel them and return their unspent budget.
pub open spec fn cancel_open_zones_spec(
    w: WorkView,
    exch: Seq<char>,
    only: Option<Seq<Seq<char>>>,
    answers: Seq<AnswerView>,
) -> (WorkView, Double) {
    roll_zones_spec(
        answers,
        exch,
        only,
        journal::open_rows_spec(journal::rows_alone(w.journal), Some("deploy_buy"@)),
        w,
        Double::zero_spec(),
        journal::open_rows_spec(journal::rows_alone(w.journal), Some("deploy_buy"@)).len(),
    )
}

/// Roll the venue's unfilled zones: cancel them and return their unspent budget.
pub fn cancel_open_zones(
    w: Work,
    exch: &str,
    only: Option<&Vec<String>>,
    answers: &Vec<Answer>,
) -> (r: (Work, Double))
    ensures
        r.deep_view() == cancel_open_zones_spec(
            w.deep_view(),
            exch@,
            only.deep_view(),
            answers.deep_view(),
        ),
{
    let mut w = w;
    let mut rolled = Double::zero();
    let (next_w, next_rolled) = roll_zones(
        answers,
        exch,
        only,
        &journal::open_rows(&&w.journal.rows(), Some("deploy_buy")),
        w,
        rolled,
    );
    w = next_w;
    rolled = next_rolled;
    (w, rolled)
}

/// Since when a rung's level rests; from now on where it is new.
pub open spec fn since_or_spec(since: Option<Double>, ts: Double) -> Double {
    if deploy::truthy_num_spec(since) {
        match since {
            Some(v) => v,
            None => ts,
        }
    } else {
        ts
    }
}

fn since_or(since: Option<Double>, ts: Double) -> (r: Double)
    ensures
        r == since_or_spec(since, ts),
{
    if deploy::truthy_num(since) {
        return match since {
            Some(v) => v,
            None => ts,
        };
    }
    ts
}

/// The journal row of a rung that is about to be placed.
pub open spec fn rung_row_spec(
    cid: Seq<char>,
    exch: Seq<char>,
    pair: Seq<char>,
    sym: Seq<char>,
    r: RungView,
    ts_cut: Double,
    label: Option<Seq<char>>,
) -> OrderView {
    let row = journal::blank_row_spec(cid);
    let row = OrderView { sym, ..row };
    let row = OrderView { exch, ..row };
    let row = OrderView { pair, ..row };
    let row = OrderView { side: "buy"@, ..row };
    let row = OrderView { kind: "deploy_buy"@, ..row };
    let row = OrderView { status: "pending"@, ..row };
    let row = OrderView { quote: Some(r.usd), ..row };
    let row = OrderView { price: Some(r.price), ..row };
    let row = OrderView { base: Some(r.qty), ..row };
    let row = OrderView { rung: Some(r.rung), ..row };
    let row = OrderView { ts: Some(ts_cut), ..row };
    let row = OrderView { note: Some(r.note), ..row };
    let row = OrderView { label, ..row };
    OrderView { first_ts: Some(since_or_spec(r.since, ts_cut)), ..row }
}

fn rung_row(
    cid: &str,
    exch: &str,
    pair: &str,
    sym: &str,
    r: &Rung,
    ts_cut: Double,
    label: Option<&str>,
) -> (out: Order)
    ensures
        out.deep_view() == rung_row_spec(
            cid@,
            exch@,
            pair@,
            sym@,
            r.deep_view(),
            ts_cut,
            label.deep_view(),
        ),
{
    let mut row = Order::new(cid);
    row.sym = text::owned(sym);
    row.exch = text::owned(exch);
    row.pair = text::owned(pair);
    row.side = text::owned("buy");
    row.kind = text::owned("deploy_buy");
    row.status = text::owned("pending");
    row.quote = Some(r.usd);
    row.price = Some(r.price);
    row.base = Some(r.qty);
    row.rung = Some(r.rung);
    row.ts = Some(ts_cut);
    row.note = Some(text::owned(r.note.as_str()));
    row.label = list::own_text(label);
    row.first_ts = Some(since_or(r.since, ts_cut));
    row
}

/// How the layer's ids begin on a venue.
pub open spec fn id_prefix_spec(exch: Seq<char>) -> Seq<char> {
    if exch == "revx"@ {
        "depx"@
    } else {
        "dep"@
    }
}

/// How the layer's ids begin on a venue.
pub fn id_prefix(exch: &str) -> (r: String)
    ensures
        r@ == id_prefix_spec(exch@),
{
    if text::same(exch, "revx") {
        text::owned("depx")
    } else {
        text::owned("dep")
    }
}

/// Journal a rung, unless its id already is.
pub open spec fn journal_rung_spec(
    w: WorkView,
    exch: Seq<char>,
    pair: Seq<char>,
    sym: Seq<char>,
    r: RungView,
    ts_cut: Double,
    label: Option<Seq<char>>,
    ids: Seq<Seq<char>>,
    answers: Seq<AnswerView>,
) -> (WorkView, Seq<Seq<char>>) {
    if deploy::stopped_spec(w) {
        (w, ids)
    } else {
        let cid = id_prefix_spec(exch)
            + sym
            + text::dec_int((ts_cut.cast_spec(i64::MIN as int, i64::MAX as int) as i64) as int)
            + "r"@
            + text::dec_int(r.rung as int);
        if journal::has_row_spec(w.journal, cid) {
            (w, ids)
        } else {
            let v = deploy::save_spec(
                deploy::write_row_spec(w, rung_row_spec(cid, exch, pair, sym, r, ts_cut, label)),
                answers,
            );
            if deploy::stopped_spec(v) {
                (v, ids)
            } else {
                (v, ids.push(cid))
            }
        }
    }
}

fn journal_rung(
    w: Work,
    exch: &str,
    pair: &str,
    sym: &str,
    r: &Rung,
    ts_cut: Double,
    label: Option<&str>,
    ids: Vec<String>,
    answers: &Vec<Answer>,
) -> (out: (Work, Vec<String>))
    ensures
        out.deep_view() == journal_rung_spec(
            w.deep_view(),
            exch@,
            pair@,
            sym@,
            r.deep_view(),
            ts_cut,
            label.deep_view(),
            ids.deep_view(),
            answers.deep_view(),
        ),
{
    let mut ids = ids;
    if deploy::stopped(&w) {
        return (w, ids);
    }
    let mut cid = id_prefix(exch);
    cid.push_str(sym);
    cid.push_str(text::dec_i64(ts_cut.to_i64()).as_str());
    cid.push_str("r");
    cid.push_str(text::dec_i64(r.rung).as_str());
    if journal::has_row(&w.journal, cid.as_str()) {
        return (w, ids);
    }
    let v = deploy::save(
        deploy::write_row(w, rung_row(cid.as_str(), exch, pair, sym, r, ts_cut, label)),
        answers,
    );
    if deploy::stopped(&v) {
        return (v, ids);
    }
    list::push(&mut ids, cid);
    (v, ids)
}

/// The first `n` of them.
pub open spec fn add_legs_spec(xs: Seq<RungView>, out: Seq<Seq<char>>, n: nat) -> Seq<Seq<char>> {
    out + Seq::new(
        n,
        |i: int| {
            let r = xs[i];
            "$"@
                + pyfmt::fixed_spec(r.usd, 2)
                + " @ $"@
                + crate::watch::pyfmt::g_spec(r.price, 6)
                + " ("@
                + r.note
                + ")"@
        },
    )
}

fn add_legs(xs: &Vec<Rung>, out: Vec<String>) -> (r: Vec<String>)
    ensures
        r.deep_view() == add_legs_spec(xs.deep_view(), out.deep_view(), xs@.len()),
{
    let ghost out0 = out.deep_view();
    let mut out = out;
    let mut i: usize = 0;
    while i < xs.len()
        invariant
            i <= xs@.len(),
            out.deep_view() == add_legs_spec(xs.deep_view(), out0, i as nat),
        decreases xs@.len() - i,
    {
        let r = &xs[i];
        let mut line = text::owned("$");
        line.push_str(pyfmt::fixed(r.usd, 2).as_str());
        line.push_str(" @ $");
        line.push_str(crate::watch::pyfmt::g(r.price, 6).as_str());
        line.push_str(" (");
        line.push_str(r.note.as_str());
        line.push_str(")");
        list::push(&mut out, line);
        assert(out.deep_view() =~= add_legs_spec(xs.deep_view(), out0, (i + 1) as nat));
        i = i + 1;
    }
    out
}

/// How the rungs read.
pub open spec fn legs_spec(rungs: Seq<RungView>) -> Seq<Seq<char>> {
    add_legs_spec(rungs, Seq::<Seq<char>>::empty(), rungs.len())
}

fn legs(rungs: &Vec<Rung>) -> (r: Vec<String>)
    ensures
        r.deep_view() == legs_spec(rungs.deep_view()),
{
    let mut out: Vec<String> = list::none();
    out = add_legs(rungs, out);
    out
}

/// The price the rungs were planned at.
pub open spec fn first_spot_spec(rungs: Seq<RungView>) -> Double {
    match list::item(rungs, 0) {
        Some(r) => r.spot,
        None => Double::zero_spec(),
    }
}

fn first_spot(rungs: &Vec<Rung>) -> (r: Double)
    ensures
        r == first_spot_spec(rungs.deep_view()),
{
    let r = match list::at(rungs, 0) {
        Some(v) => v,
        None => {
            return Double::zero();
        },
    };
    r.spot
}

/// The first `n` of them.
pub open spec fn journal_rungs_spec(
    answers: Seq<AnswerView>,
    exch: Seq<char>,
    label: Option<Seq<char>>,
    pair: Seq<char>,
    sym: Seq<char>,
    ts_cut: Double,
    xs: Seq<RungView>,
    w: WorkView,
    ids: Seq<Seq<char>>,
    n: nat,
) -> (WorkView, Seq<Seq<char>>)
    decreases n,
{
    if n == 0 {
        (w, ids)
    } else {
        let (w, ids) = journal_rungs_spec(
            answers,
            exch,
            label,
            pair,
            sym,
            ts_cut,
            xs,
            w,
            ids,
            (n - 1) as nat,
        );
        let r = xs[n - 1];
        let (w1, ids1) = journal_rung_spec(w, exch, pair, sym, r, ts_cut, label, ids, answers);
        (w1, ids1)
    }
}

fn journal_rungs(
    answers: &Vec<Answer>,
    exch: &str,
    label: Option<&str>,
    pair: &str,
    sym: &str,
    ts_cut: Double,
    xs: &Vec<Rung>,
    w: Work,
    ids: Vec<String>,
) -> (r: (Work, Vec<String>))
    ensures
        r.deep_view() == journal_rungs_spec(
            answers.deep_view(),
            exch@,
            label.deep_view(),
            pair@,
            sym@,
            ts_cut,
            xs.deep_view(),
            w.deep_view(),
            ids.deep_view(),
            xs@.len(),
        ),
{
    let ghost w0 = w.deep_view();
    let ghost ids0 = ids.deep_view();
    let mut w = w;
    let mut ids = ids;
    let mut i: usize = 0;
    while i < xs.len()
        invariant
            i <= xs@.len(),
            (w.deep_view(), ids.deep_view()) == journal_rungs_spec(
                answers.deep_view(),
                exch@,
                label.deep_view(),
                pair@,
                sym@,
                ts_cut,
                xs.deep_view(),
                w0,
                ids0,
                i as nat,
            ),
        decreases xs@.len() - i,
    {
        let r = &xs[i];
        let (w1, ids1) = journal_rung(w, exch, pair, sym, r, ts_cut, label, ids, answers);
        w = w1;
        ids = ids1;
        i = i + 1;
    }
    (w, ids)
}

/// Journal a coin's rungs.
pub open spec fn journal_coin_spec(
    w: WorkView,
    cfg: ConfigView,
    exch: Seq<char>,
    sym: Seq<char>,
    rungs: Seq<RungView>,
    ts_cut: Double,
    label: Option<Seq<char>>,
    ids: Seq<Seq<char>>,
    answers: Seq<AnswerView>,
) -> (WorkView, Seq<Seq<char>>) {
    if deploy::stopped_spec(w) {
        (w, ids)
    } else {
        match deploy::pair_for_spec(cfg, exch, sym) {
            Err(e) => (deploy::failing_spec(w, e), ids),
            Ok(pair) => {
                let (w, ids) = journal_rungs_spec(
                    answers,
                    exch,
                    label,
                    pair,
                    sym,
                    ts_cut,
                    rungs,
                    w,
                    ids,
                    rungs.len(),
                );
                if deploy::stopped_spec(w) {
                    (w, ids)
                } else {
                    let spot = first_spot_spec(rungs);
                    (
                        deploy::say_done_spec(
                            w,
                            Some(sym),
                            Some("buy"@),
                            true,
                            "DEPLOY "@
                                + sym
                                + " [spot $"@
                                + crate::watch::pyfmt::g_spec(spot, 6)
                                + "]: "@
                                + text::join_of(legs_spec(rungs), "; "@),
                        ),
                        ids,
                    )
                }
            },
        }
    }
}

fn journal_coin(
    w: Work,
    cfg: &Config,
    exch: &str,
    sym: &str,
    rungs: &Vec<Rung>,
    ts_cut: Double,
    label: Option<&str>,
    ids: Vec<String>,
    answers: &Vec<Answer>,
) -> (r: (Work, Vec<String>))
    ensures
        r.deep_view() == journal_coin_spec(
            w.deep_view(),
            cfg.deep_view(),
            exch@,
            sym@,
            rungs.deep_view(),
            ts_cut,
            label.deep_view(),
            ids.deep_view(),
            answers.deep_view(),
        ),
{
    let mut w = w;
    let mut ids = ids;
    if deploy::stopped(&w) {
        return (w, ids);
    }
    match deploy::pair_for(cfg, exch, sym) {
        Err(e) => (deploy::failing(w, e), ids),
        Ok(pair) => {
            let (next_w, next_ids) = journal_rungs(
                answers,
                exch,
                label,
                pair.as_str(),
                sym,
                ts_cut,
                rungs,
                w,
                ids,
            );
            w = next_w;
            ids = next_ids;
            if deploy::stopped(&w) {
                return (w, ids);
            }
            let spot = first_spot(rungs);
            let mut line = text::owned("DEPLOY ");
            line.push_str(sym);
            line.push_str(" [spot $");
            line.push_str(crate::watch::pyfmt::g(spot, 6).as_str());
            line.push_str("]: ");
            line.push_str(list::join(&legs(rungs), "; ").as_str());
            (deploy::say_done(w, Some(sym), Some("buy"), true, line), ids)
        },
    }
}

/// The first `n` coins.
pub open spec fn journal_coins_spec(
    answers: Seq<AnswerView>,
    cfg: ConfigView,
    exch: Seq<char>,
    label: Option<Seq<char>>,
    ts_cut: Double,
    xs: Seq<(Seq<char>, Seq<RungView>)>,
    w: WorkView,
    ids: Seq<Seq<char>>,
    n: nat,
) -> (WorkView, Seq<Seq<char>>)
    decreases n,
{
    if n == 0 {
        (w, ids)
    } else {
        let (w, ids) = journal_coins_spec(
            answers,
            cfg,
            exch,
            label,
            ts_cut,
            xs,
            w,
            ids,
            (n - 1) as nat,
        );
        let it = xs[n - 1];
        let sym = it.0;
        let rungs = it.1;
        let (w1, ids1) = journal_coin_spec(w, cfg, exch, sym, rungs, ts_cut, label, ids, answers);
        (w1, ids1)
    }
}

fn journal_coins(
    answers: &Vec<Answer>,
    cfg: &Config,
    exch: &str,
    label: Option<&str>,
    ts_cut: Double,
    xs: &Vec<(String, Vec<Rung>)>,
    w: Work,
    ids: Vec<String>,
) -> (r: (Work, Vec<String>))
    ensures
        r.deep_view() == journal_coins_spec(
            answers.deep_view(),
            cfg.deep_view(),
            exch@,
            label.deep_view(),
            ts_cut,
            xs.deep_view(),
            w.deep_view(),
            ids.deep_view(),
            xs@.len(),
        ),
{
    let ghost w0 = w.deep_view();
    let ghost ids0 = ids.deep_view();
    let mut w = w;
    let mut ids = ids;
    let mut i: usize = 0;
    while i < xs.len()
        invariant
            i <= xs@.len(),
            (w.deep_view(), ids.deep_view()) == journal_coins_spec(
                answers.deep_view(),
                cfg.deep_view(),
                exch@,
                label.deep_view(),
                ts_cut,
                xs.deep_view(),
                w0,
                ids0,
                i as nat,
            ),
        decreases xs@.len() - i,
    {
        let it = &xs[i];
        let sym = it.0.as_str();
        let rungs = &it.1;
        let (w1, ids1) = journal_coin(w, cfg, exch, sym, rungs, ts_cut, label, ids, answers);
        w = w1;
        ids = ids1;
        i = i + 1;
    }
    (w, ids)
}

/// Journal a plan's rungs (skipping ids already journaled) and return the new ids.
pub open spec fn journal_and_place_spec(
    w: WorkView,
    cfg: ConfigView,
    exch: Seq<char>,
    plans: Seq<(Seq<char>, Seq<RungView>)>,
    ts_cut: Double,
    label: Option<Seq<char>>,
    answers: Seq<AnswerView>,
) -> (WorkView, Seq<Seq<char>>) {
    journal_coins_spec(
        answers,
        cfg,
        exch,
        label,
        ts_cut,
        plans,
        w,
        Seq::<Seq<char>>::empty(),
        plans.len(),
    )
}

/// Journal a plan's rungs (skipping ids already journaled) and return the new ids.
pub fn journal_and_place(
    w: Work,
    cfg: &Config,
    exch: &str,
    plans: &Vec<(String, Vec<Rung>)>,
    ts_cut: Double,
    label: Option<&str>,
    answers: &Vec<Answer>,
) -> (r: (Work, Vec<String>))
    ensures
        r.deep_view() == journal_and_place_spec(
            w.deep_view(),
            cfg.deep_view(),
            exch@,
            plans.deep_view(),
            ts_cut,
            label.deep_view(),
            answers.deep_view(),
        ),
{
    let mut w = w;
    let mut ids: Vec<String> = list::none();
    let (next_w, next_ids) = journal_coins(answers, cfg, exch, label, ts_cut, plans, w, ids);
    w = next_w;
    ids = next_ids;
    (w, ids)
}

/// Of the first `n` rungs.
pub open spec fn add_held_prices_spec(xs: Seq<RungView>, out: Seq<Double>, n: nat) -> Seq<Double> {
    out + list::gathered(
        xs,
        |r: RungView| if r.held {
            Some(r.price)
        } else {
            None
        },
        n,
    )
}

fn add_held_prices(xs: &Vec<Rung>, out: Vec<Double>) -> (r: Vec<Double>)
    ensures
        r.deep_view() == add_held_prices_spec(xs.deep_view(), out.deep_view(), xs@.len()),
{
    let ghost out0 = out.deep_view();
    let mut out = out;
    let mut i: usize = 0;
    while i < xs.len()
        invariant
            i <= xs@.len(),
            out.deep_view() == add_held_prices_spec(xs.deep_view(), out0, i as nat),
        decreases xs@.len() - i,
    {
        let r = &xs[i];
        if r.held {
            list::push(&mut out, r.price);
        }
        assert(out.deep_view() =~= add_held_prices_spec(xs.deep_view(), out0, (i + 1) as nat));
        i = i + 1;
    }
    out
}

/// The prices of the rungs that were held.
pub open spec fn held_prices_spec(rungs: Seq<RungView>) -> Seq<Double> {
    add_held_prices_spec(rungs, Seq::<Double>::empty(), rungs.len())
}

fn held_prices(rungs: &Vec<Rung>) -> (r: Vec<Double>)
    ensures
        r.deep_view() == held_prices_spec(rungs.deep_view()),
{
    let mut out: Vec<Double> = list::none();
    out = add_held_prices(rungs, out);
    out
}

/// Of the first `n` coins.
pub open spec fn add_held_spec(
    xs: Seq<(Seq<char>, Seq<RungView>)>,
    out: Seq<Double>,
    n: nat,
) -> Seq<Double>
    decreases n,
{
    if n == 0 {
        out
    } else {
        let out = add_held_spec(xs, out, (n - 1) as nat);
        let it = xs[n - 1];
        let rungs = it.1;
        out + held_prices_spec(rungs)
    }
}

fn add_held(xs: &Vec<(String, Vec<Rung>)>, out: Vec<Double>) -> (r: Vec<Double>)
    ensures
        r.deep_view() == add_held_spec(xs.deep_view(), out.deep_view(), xs@.len()),
{
    let ghost out0 = out.deep_view();
    let mut out = out;
    let mut i: usize = 0;
    while i < xs.len()
        invariant
            i <= xs@.len(),
            out.deep_view() == add_held_spec(xs.deep_view(), out0, i as nat),
        decreases xs@.len() - i,
    {
        let it = &xs[i];
        let rungs = &it.1;
        out = list::joined(out, held_prices(rungs));
        i = i + 1;
    }
    out
}

/// The prices that were held.
pub open spec fn held_levels_spec(plans: Seq<(Seq<char>, Seq<RungView>)>) -> Seq<Double> {
    add_held_spec(plans, Seq::<Double>::empty(), plans.len())
}

fn held_levels(plans: &Vec<(String, Vec<Rung>)>) -> (r: Vec<Double>)
    ensures
        r.deep_view() == held_levels_spec(plans.deep_view()),
{
    let mut out: Vec<Double> = list::none();
    out = add_held(plans, out);
    out
}

/// Among the first `n` entries.
pub open spec fn see_alloc_spec(xs: Seq<(Seq<char>, Double)>, out: bool, n: nat) -> bool {
    out || list::some(
        xs,
        |it: (Seq<char>, Double)| {
            let v = it.1;
            !v.eq_spec(Double::zero_spec())
        },
        n,
    )
}

fn see_alloc(xs: &Vec<(String, Double)>, out: bool) -> (r: bool)
    ensures
        r == see_alloc_spec(xs.deep_view(), out, xs@.len()),
{
    let ghost out0 = out;
    let mut out = out;
    let mut i: usize = 0;
    while i < xs.len()
        invariant
            i <= xs@.len(),
            out == see_alloc_spec(xs.deep_view(), out0, i as nat),
        decreases xs@.len() - i,
    {
        let it = &xs[i];
        let v = it.1;
        if !v.same(Double::zero()) {
            out = true;
        }
        assert(xs.deep_view()[i as int] == xs@[i as int].deep_view());
        assert(out == see_alloc_spec(xs.deep_view(), out0, (i + 1) as nat));
        i = i + 1;
    }
    out
}

/// Whether the allocation gives any coin a share.
pub open spec fn any_alloc_spec(cfg: ConfigView) -> bool {
    see_alloc_spec(cfg.deploy_alloc, false, cfg.deploy_alloc.len())
}

fn any_alloc(cfg: &Config) -> (r: bool)
    ensures
        r == any_alloc_spec(cfg.deep_view()),
{
    let mut out = false;
    out = see_alloc(&cfg.deploy_alloc, out);
    out
}

/// The first `n` of them.
pub open spec fn say_each_skip_spec(xs: Seq<Seq<char>>, w: WorkView, n: nat) -> WorkView
    decreases n,
{
    if n == 0 {
        w
    } else {
        let w = say_each_skip_spec(xs, w, (n - 1) as nat);
        let s = xs[n - 1];
        deploy::warn_spec(w, "deploy skip "@ + s)
    }
}

fn say_each_skip(xs: &Vec<String>, w: Work) -> (r: Work)
    ensures
        r.deep_view() == say_each_skip_spec(xs.deep_view(), w.deep_view(), xs@.len()),
{
    let ghost w0 = w.deep_view();
    let mut w = w;
    let mut i: usize = 0;
    while i < xs.len()
        invariant
            i <= xs@.len(),
            w.deep_view() == say_each_skip_spec(xs.deep_view(), w0, i as nat),
        decreases xs@.len() - i,
    {
        let s = xs[i].as_str();
        let mut line = text::owned("deploy skip ");
        line.push_str(s);
        w = deploy::warn(w, line);
        i = i + 1;
    }
    w
}

/// Report the coins that were skipped.
pub open spec fn say_skips_spec(w: WorkView, skips: Seq<Seq<char>>) -> WorkView {
    say_each_skip_spec(skips, w, skips.len())
}

fn say_skips(w: Work, skips: &Vec<String>) -> (r: Work)
    ensures
        r.deep_view() == say_skips_spec(w.deep_view(), skips.deep_view()),
{
    let mut w = w;
    w = say_each_skip(skips, w);
    w
}

/// How a tranche begins to read.
pub open spec fn tranche_head_spec(
    exch: Seq<char>,
    quote: Seq<char>,
    tranche: Double,
    rolled: Double,
) -> Seq<char> {
    if tranche.lt_spec(Double::zero_spec()) {
        "DEPLOY re-ladder on "@
            + exch
            + ": $"@
            + pyfmt::fixed_spec(rolled, 2)
            + " rolled from unfilled zones minus $"@
            + pyfmt::fixed_spec(tranche.neg_spec(), 2)
            + " withheld for the "@
            + "Gate"@
            + " top-up"@
    } else if !rolled.eq_spec(Double::zero_spec()) {
        "DEPLOY tranche on "@
            + exch
            + ": $"@
            + pyfmt::fixed_spec(tranche, 2)
            + " fresh "@
            + quote
            + " + $"@
            + pyfmt::fixed_spec(rolled, 2)
            + " rolled from unfilled zones"@
    } else {
        "DEPLOY tranche on "@ + exch + ": $"@ + pyfmt::fixed_spec(tranche, 2) + " fresh "@ + quote
    }
}

fn tranche_head(exch: &str, quote: &str, tranche: Double, rolled: Double) -> (r: String)
    ensures
        r@ == tranche_head_spec(exch@, quote@, tranche, rolled),
{
    if tranche.lt(Double::zero()) {
        let mut line = text::owned("DEPLOY re-ladder on ");
        line.push_str(exch);
        line.push_str(": $");
        line.push_str(pyfmt::fixed(rolled, 2).as_str());
        line.push_str(" rolled from unfilled zones minus $");
        line.push_str(pyfmt::fixed(tranche.negated(), 2).as_str());
        line.push_str(" withheld for the ");
        line.push_str("Gate");
        line.push_str(" top-up");
        return line;
    }
    if !rolled.same(Double::zero()) {
        let mut line2 = text::owned("DEPLOY tranche on ");
        line2.push_str(exch);
        line2.push_str(": $");
        line2.push_str(pyfmt::fixed(tranche, 2).as_str());
        line2.push_str(" fresh ");
        line2.push_str(quote);
        line2.push_str(" + $");
        line2.push_str(pyfmt::fixed(rolled, 2).as_str());
        line2.push_str(" rolled from unfilled zones");
        return line2;
    }
    let mut line3 = text::owned("DEPLOY tranche on ");
    line3.push_str(exch);
    line3.push_str(": $");
    line3.push_str(pyfmt::fixed(tranche, 2).as_str());
    line3.push_str(" fresh ");
    line3.push_str(quote);
    line3
}

/// How a tranche reads.
pub open spec fn tranche_line_spec(
    cfg: ConfigView,
    exch: Seq<char>,
    quote: Seq<char>,
    tranche: Double,
    rolled: Double,
    label: Seq<char>,
    vp: VenuePlanView,
) -> Seq<char> {
    let text = tranche_head_spec(exch, quote, tranche, rolled)
        + " -> "@
        + text::dec(((vp.plans.len() as usize)) as nat)
        + " coins, regime "@
        + text::upper_case(label);
    if cfg.deploy_pin_prices {
        text
            + ("; held "@
                + text::dec(((held_levels_spec(vp.plans).len() as usize)) as nat)
                + " resting price level(s)"@)
    } else {
        text
    }
}

fn tranche_line(
    cfg: &Config,
    exch: &str,
    quote: &str,
    tranche: Double,
    rolled: Double,
    label: &str,
    vp: &VenuePlan,
) -> (r: String)
    ensures
        r@ == tranche_line_spec(
            cfg.deep_view(),
            exch@,
            quote@,
            tranche,
            rolled,
            label@,
            vp.deep_view(),
        ),
{
    let mut text = tranche_head(exch, quote, tranche, rolled);
    text.push_str(" -> ");
    text.push_str(text::dec_u64(vp.plans.len() as u64).as_str());
    text.push_str(" coins, regime ");
    text.push_str(text::uppercase(label).as_str());
    if cfg.deploy_pin_prices {
        let mut line = text::owned("; held ");
        line.push_str(text::dec_u64(held_levels(&vp.plans).len() as u64).as_str());
        line.push_str(" resting price level(s)");
        text.push_str(line.as_str());
    }
    text
}

/// Report a venue's plan.
pub open spec fn report_plan_spec(
    w: WorkView,
    cfg: ConfigView,
    exch: Seq<char>,
    quote: Seq<char>,
    tranche: Double,
    rolled: Double,
    label: Seq<char>,
    vp: VenuePlanView,
) -> WorkView {
    let w = if vp.fallback && any_alloc_spec(cfg) {
        deploy::warn_spec(
            w,
            "DEPLOY_ALLOC_JSON names no "@
                + exch
                + " coin — falling back to equal split for this venue"@,
        )
    } else {
        w
    };
    let w = say_skips_spec(w, vp.skips);
    deploy::say_done_spec(
        w,
        None,
        None,
        !(vp.plans.len() == 0),
        tranche_line_spec(cfg, exch, quote, tranche, rolled, label, vp),
    )
}

fn report_plan(
    w: Work,
    cfg: &Config,
    exch: &str,
    quote: &str,
    tranche: Double,
    rolled: Double,
    label: &str,
    vp: &VenuePlan,
) -> (r: Work)
    ensures
        r.deep_view() == report_plan_spec(
            w.deep_view(),
            cfg.deep_view(),
            exch@,
            quote@,
            tranche,
            rolled,
            label@,
            vp.deep_view(),
        ),
{
    let mut w = w;
    if vp.fallback && any_alloc(cfg) {
        let mut line = text::owned("DEPLOY_ALLOC_JSON names no ");
        line.push_str(exch);
        line.push_str(" coin — falling back to equal split for this venue");
        w = deploy::warn(w, line);
    }
    w = say_skips(w, &vp.skips);
    deploy::say_done(
        w,
        list::text_ref(&None),
        list::text_ref(&None),
        !(vp.plans.len() == 0),
        tranche_line(cfg, exch, quote, tranche, rolled, label, vp),
    )
}

/// The levels a re-ladder holds, where it holds any.
pub open spec fn pinned_levels_spec(
    w: WorkView,
    cfg: ConfigView,
    exch: Seq<char>,
    only: Option<Seq<Seq<char>>>,
    answers: Seq<AnswerView>,
) -> (WorkView, Seq<PinnedView>) {
    if cfg.deploy_pin_prices {
        resting_levels_spec(w, exch, only, answers)
    } else {
        (w, Seq::<PinnedView>::empty())
    }
}

fn pinned_levels(
    w: Work,
    cfg: &Config,
    exch: &str,
    only: Option<&Vec<String>>,
    answers: &Vec<Answer>,
) -> (r: (Work, Vec<Pinned>))
    ensures
        r.deep_view() == pinned_levels_spec(
            w.deep_view(),
            cfg.deep_view(),
            exch@,
            only.deep_view(),
            answers.deep_view(),
        ),
{
    if cfg.deploy_pin_prices {
        return resting_levels(w, exch, only, answers);
    }
    (w, list::none::<Pinned>())
}

/// Roll the venue's zones and ladder `tranche` plus what they held. A negative tranche re-ladders
/// lighter (the withhold). `only` re-ladders just those coins. Returns the new ids and the unspent
/// budget that was rolled in.
pub open spec fn deploy_tranche_rolled_spec(
    w: WorkView,
    cfg: ConfigView,
    exch: Seq<char>,
    quote: Seq<char>,
    tranche: Double,
    ts_cut: Double,
    only: Option<Seq<Seq<char>>>,
    answers: Seq<AnswerView>,
) -> (WorkView, Seq<Seq<char>>, Double) {
    let (w1, label) = deploy::regime_label_spec(w, answers);
    if deploy::stopped_spec(w1) {
        (w1, Seq::<Seq<char>>::empty(), Double::zero_spec())
    } else {
        let (w2, pinned) = pinned_levels_spec(w1, cfg, exch, only, answers);
        if deploy::stopped_spec(w2) {
            (w2, Seq::<Seq<char>>::empty(), Double::zero_spec())
        } else {
            let (w3, rolled) = cancel_open_zones_spec(w2, exch, only, answers);
            if deploy::stopped_spec(w3) {
                (w3, Seq::<Seq<char>>::empty(), rolled)
            } else {
                let (w4, vp) = venue_plan_spec(
                    w3,
                    cfg,
                    exch,
                    tranche.add_spec(rolled),
                    label,
                    only,
                    pinned,
                    answers,
                );
                if deploy::stopped_spec(w4) {
                    (w4, Seq::<Seq<char>>::empty(), rolled)
                } else {
                    let w5 = report_plan_spec(w4, cfg, exch, quote, tranche, rolled, label, vp);
                    if vp.plans.len() == 0 {
                        (w5, Seq::<Seq<char>>::empty(), rolled)
                    } else {
                        let (w6, ids) = journal_and_place_spec(
                            w5,
                            cfg,
                            exch,
                            vp.plans,
                            ts_cut,
                            Some(label),
                            answers,
                        );
                        (w6, ids, rolled)
                    }
                }
            }
        }
    }
}

/// Roll the venue's zones and ladder `tranche` plus what they held. A negative tranche re-ladders
/// lighter (the withhold). `only` re-ladders just those coins. Returns the new ids and the unspent
/// budget that was rolled in.
pub fn deploy_tranche_rolled(
    w: Work,
    cfg: &Config,
    exch: &str,
    quote: &str,
    tranche: Double,
    ts_cut: Double,
    only: Option<&Vec<String>>,
    answers: &Vec<Answer>,
) -> (r: (Work, Vec<String>, Double))
    ensures
        r.deep_view() == deploy_tranche_rolled_spec(
            w.deep_view(),
            cfg.deep_view(),
            exch@,
            quote@,
            tranche,
            ts_cut,
            only.deep_view(),
            answers.deep_view(),
        ),
{
    let (w1, label) = deploy::regime_label(w, answers);
    if deploy::stopped(&w1) {
        return (w1, list::none::<String>(), Double::zero());
    }
    let (w2, pinned) = pinned_levels(w1, cfg, exch, only, answers);
    if deploy::stopped(&w2) {
        return (w2, list::none::<String>(), Double::zero());
    }
    let (w3, rolled) = cancel_open_zones(w2, exch, only, answers);
    if deploy::stopped(&w3) {
        return (w3, list::none::<String>(), rolled);
    }
    let (w4, vp) = venue_plan(
        w3,
        cfg,
        exch,
        tranche.plus(rolled),
        label.as_str(),
        only,
        &pinned,
        answers,
    );
    if deploy::stopped(&w4) {
        return (w4, list::none::<String>(), rolled);
    }
    let w5 = report_plan(w4, cfg, exch, quote, tranche, rolled, label.as_str(), &vp);
    if vp.plans.len() == 0 {
        return (w5, list::none::<String>(), rolled);
    }
    let (w6, ids) = journal_and_place(
        w5,
        cfg,
        exch,
        &vp.plans,
        ts_cut,
        Some(label.as_str()),
        answers,
    );
    (w6, ids, rolled)
}

/// [`deploy_tranche_rolled`] without the unspent budget.
pub open spec fn deploy_tranche_spec(
    w: WorkView,
    cfg: ConfigView,
    exch: Seq<char>,
    quote: Seq<char>,
    tranche: Double,
    ts_cut: Double,
    only: Option<Seq<Seq<char>>>,
    answers: Seq<AnswerView>,
) -> (WorkView, Seq<Seq<char>>) {
    let (v, ids, rolled) = deploy_tranche_rolled_spec(
        w,
        cfg,
        exch,
        quote,
        tranche,
        ts_cut,
        only,
        answers,
    );
    (v, ids)
}

/// [`deploy_tranche_rolled`] without the unspent budget.
pub fn deploy_tranche(
    w: Work,
    cfg: &Config,
    exch: &str,
    quote: &str,
    tranche: Double,
    ts_cut: Double,
    only: Option<&Vec<String>>,
    answers: &Vec<Answer>,
) -> (r: (Work, Vec<String>))
    ensures
        r.deep_view() == deploy_tranche_spec(
            w.deep_view(),
            cfg.deep_view(),
            exch@,
            quote@,
            tranche,
            ts_cut,
            only.deep_view(),
            answers.deep_view(),
        ),
{
    let (v, ids, rolled) = deploy_tranche_rolled(
        w,
        cfg,
        exch,
        quote,
        tranche,
        ts_cut,
        only,
        answers,
    );
    (v, ids)
}

/// The amount that a coin is to be laddered with, as a round asks to have it cut to cents.
pub open spec fn asked_amount(w: WorkView) -> Option<Double> {
    match w.ask {
        Some(AskView::FloorCents(x)) => Some(x),
        _ => None,
    }
}

/// A coin is laddered with its share of the budget: its amount is to the budget as its weight is to
/// all the weights.
pub proof fn law_a_coin_gets_its_share(
    w: WorkView,
    cfg: ConfigView,
    exch: Seq<char>,
    budget: Double,
    total: Double,
    label: Seq<char>,
    pinned: Seq<PinnedView>,
    sym: Seq<char>,
    weight: Double,
    r: RoundView,
)
    requires
        !deploy::stopped_spec(w),
        deploy::pair_for_spec(cfg, exch, sym) is Ok,
        budget.finite(),
        weight.finite(),
        total.finite(),
        budget.amount() >= 0,
        weight.amount() >= 0,
        total.amount() > 0,
    ensures
        ({
            let after = plan_share_spec(
                w,
                cfg,
                exch,
                budget,
                total,
                label,
                pinned,
                sym,
                weight,
                r,
                Seq::empty(),
            ).0;
            asked_amount(after) matches Some(share) && (share.finite() ==> rounding::in_proportion(
                share,
                budget,
                weight,
                total,
            ))
        }),
{
    let share = budget.mul_spec(weight).div_spec(total);
    if share.finite() {
        rounding::lemma_proportion(budget, weight, total);
    }
}

/// Of two coins the one with the larger weight never gets less, and a coin never gets less of a
/// larger budget.
pub proof fn law_more_weight_never_gets_less(
    w: WorkView,
    cfg: ConfigView,
    exch: Seq<char>,
    budget: Double,
    larger: Double,
    total: Double,
    label: Seq<char>,
    pinned: Seq<PinnedView>,
    sym: Seq<char>,
    weight: Double,
    heavier: Double,
    r: RoundView,
)
    requires
        !deploy::stopped_spec(w),
        deploy::pair_for_spec(cfg, exch, sym) is Ok,
        budget.finite(),
        larger.finite(),
        weight.finite(),
        heavier.finite(),
        total.finite(),
        0 <= budget.amount() <= larger.amount(),
        0 <= weight.amount() <= heavier.amount(),
        total.amount() > 0,
        larger.mul_spec(heavier).finite(),
    ensures
        ({
            let less = plan_share_spec(
                w,
                cfg,
                exch,
                budget,
                total,
                label,
                pinned,
                sym,
                weight,
                r,
                Seq::empty(),
            ).0;
            let more = plan_share_spec(
                w,
                cfg,
                exch,
                larger,
                total,
                label,
                pinned,
                sym,
                heavier,
                r,
                Seq::empty(),
            ).0;
            asked_amount(less) matches Some(a) && asked_amount(more) matches Some(b) && a.le_spec(b)
        }),
{
    rounding::lemma_times_grows(weight, heavier, budget);
    rounding::lemma_mul_order(budget, larger, heavier);
    let x = budget.mul_spec(weight);
    let y = larger.mul_spec(heavier);
    rounding::lemma_infinite_is_last(x);
    rounding::lemma_infinite_is_last(y);
    rounding::lemma_infinite_is_last(budget.mul_spec(heavier));
    let zero = Double::zero_spec();
    crate::double::lemma_scaled_zero();
    vstd::arithmetic::power2::lemma_pow2_pos(1074);
    rounding::lemma_mul_order(zero, budget, weight);
    rounding::lemma_exact_product(zero, weight, zero);
    assert(x.finite()) by {
        if x.infinite() {
            assert(x.amount() == crate::double::scaled(crate::double::INFINITE as nat));
        }
    }
    rounding::lemma_div_order(x, y, total);
}

/// The first coin of a round gets its share by the weights of all the coins in it.
pub proof fn law_a_round_divides_by_all_its_weights(
    w: WorkView,
    cfg: ConfigView,
    exch: Seq<char>,
    budget: Double,
    label: Seq<char>,
    pinned: Seq<PinnedView>,
    r: RoundView,
)
    requires
        !deploy::stopped_spec(w),
        !r.finished,
        0 < r.weights.len() <= 0x10_0000,
        deploy::pair_for_spec(cfg, exch, r.weights[0].0) is Ok,
        budget.finite(),
        budget.amount() >= 0,
        rounding::are_amounts(weights_alone_spec(r.weights)),
        crate::watch::pyfmt::sum_spec(weights_alone_spec(r.weights)).finite(),
        crate::watch::pyfmt::sum_spec(weights_alone_spec(r.weights)).amount() > 0,
    ensures
        ({
            let after = plan_round_spec(w, cfg, exch, budget, label, pinned, r, Seq::empty()).0;
            let all = weights_alone_spec(r.weights);
            asked_amount(after) matches Some(share) && (share.finite() ==> exists|total: Double|
                {
                    &&& #[trigger] rounding::in_proportion(share, budget, r.weights[0].1, total)
                    &&& rounding::grain() * rounding::size(
                        total.amount() - rounding::exact_sum(all, all.len()),
                    ) <= 20 * all.len() * (rounding::exact_sum(all, all.len()) + rounding::least())
                })
        }),
{
    let all = weights_alone_spec(r.weights);
    assert(all.len() == r.weights.len());
    assert(all[0] == r.weights[0].1);
    assert(all[0].finite() && all[0].amount() >= 0);
    let total = crate::watch::pyfmt::sum_spec(all);
    rounding::law_the_sum_of_amounts_is_their_sum(all);
    let r0 = RoundView {
        plans: Seq::<(Seq<char>, Seq<RungView>)>::empty(),
        dropped: Seq::<Seq<char>>::empty(),
        ..r
    };
    law_a_coin_gets_its_share(
        w,
        cfg,
        exch,
        budget,
        total,
        label,
        pinned,
        r.weights[0].0,
        r.weights[0].1,
        r0,
    );
    let share = asked_amount(
        plan_share_spec(
            w,
            cfg,
            exch,
            budget,
            total,
            label,
            pinned,
            r.weights[0].0,
            r.weights[0].1,
            r0,
            Seq::empty(),
        ).0,
    )->0;
    lemma_first_waits(w, cfg, exch, budget, total, label, pinned, r.weights, r0, r.weights.len());
    if share.finite() {
        assert(rounding::in_proportion(share, budget, r.weights[0].1, total));
    }
}

/// A round goes no further than the first coin that waits.
proof fn lemma_first_waits(
    w: WorkView,
    cfg: ConfigView,
    exch: Seq<char>,
    budget: Double,
    total: Double,
    label: Seq<char>,
    pinned: Seq<PinnedView>,
    coins: Seq<(Seq<char>, Double)>,
    r: RoundView,
    n: nat,
)
    requires
        0 < n <= coins.len(),
        !deploy::stopped_spec(w),
        deploy::pair_for_spec(cfg, exch, coins[0].0) is Ok,
    ensures
        plan_shares_spec(
            Seq::empty(),
            budget,
            cfg,
            exch,
            label,
            pinned,
            total,
            coins,
            w,
            r,
            n,
        ).0.ask == plan_share_spec(
            w,
            cfg,
            exch,
            budget,
            total,
            label,
            pinned,
            coins[0].0,
            coins[0].1,
            r,
            Seq::empty(),
        ).0.ask,
        plan_share_spec(
            w,
            cfg,
            exch,
            budget,
            total,
            label,
            pinned,
            coins[0].0,
            coins[0].1,
            r,
            Seq::empty(),
        ).0.ask is Some,
    decreases n,
{
    reveal_with_fuel(plan_shares_spec, 2);
    if n > 1 {
        lemma_first_waits(
            w,
            cfg,
            exch,
            budget,
            total,
            label,
            pinned,
            coins,
            r,
            (n - 1) as nat,
        );
    }
}

/// The exact sum of the first `n` of some shares, each times what the weights make together.
pub open spec fn shares_times(shares: Seq<Double>, total: Double, n: nat) -> int
    decreases n,
{
    if n == 0 {
        0
    } else {
        shares_times(shares, total, (n - 1) as nat) + shares[n - 1].amount() * total.amount()
    }
}

/// Shares in proportion to the weights make the budget together, and no more, but for rounding:
/// cross-multiplied, their sum times the total is the budget times the sum of the weights.
pub proof fn law_the_shares_make_the_budget(
    budget: Double,
    weights: Seq<Double>,
    shares: Seq<Double>,
    total: Double,
    n: nat,
)
    requires
        n <= weights.len(),
        n <= shares.len(),
        forall|i: int|
            0 <= i < n ==> rounding::in_proportion(
                shares[i],
                budget,
                #[trigger] weights[i],
                total,
            ),
    ensures
        0x4_0000_0000_0000 * rounding::size(
            shares_times(shares, total, n) - budget.amount() * rounding::exact_sum(weights, n),
        ) <= budget.amount() * rounding::exact_sum(weights, n) + n * (0x4_0000_0000_0000 * (2
            * crate::double::unit() + total.amount())),
    decreases n,
{
    let b = budget.amount();
    if n > 0 {
        let k = (n - 1) as nat;
        law_the_shares_make_the_budget(budget, weights, shares, total, k);
        let e = rounding::exact_sum(weights, k);
        let w = weights[n - 1].amount();
        assert(rounding::in_proportion(shares[n - 1], budget, weights[n - 1], total));
        assert(b * (e + w) == b * e + b * w) by (nonlinear_arith);
        let t = 0x4_0000_0000_0000 * (2 * crate::double::unit() + total.amount());
        assert(n * t == k * t + t) by (nonlinear_arith)
            requires
                n == k + 1,
        ;
    } else {
        assert(b * 0 == 0 && 0 * (0x4_0000_0000_0000 * (2 * crate::double::unit()
            + total.amount())) == 0);
    }
}

/// What a cancelled zone never spent is no more than it held and never less than nothing; with what
/// it spent it makes what it held.
pub proof fn law_unspent_and_spent_make_the_zone(
    o: OrderView,
    kind: Settled,
    spent: Option<Double>,
    quote: Double,
    used: Double,
)
    requires
        o.quote == Some(quote),
        quote.finite(),
        quote.amount() >= 0,
        used.finite(),
        used.amount() >= 0,
        kind == Settled::Booked && spent == Some(used) && used.amount() > 0 || kind
            != Settled::Booked && o.part_quote == Some(used) || spent is None && o.part_quote
            == Some(used),
    ensures
        ({
            let left = unspent_spec(o, kind, spent);
            &&& 0 <= left.amount() <= quote.amount()
            &&& used.amount() == 0 ==> left.amount() == quote.amount()
            &&& used.amount() >= quote.amount() ==> left.amount() == 0
            &&& used.amount() < quote.amount() ==> rounding::grain() * rounding::size(
                left.amount() + used.amount() - quote.amount(),
            ) <= left.amount() + rounding::least()
        }),
{
    crate::double::lemma_scaled_zero();
    rounding::lemma_rest(quote, used);
}

/// A rung that is planned clears the venue's minimums, and its notional is its quantity at its
/// price, but for rounding.
pub proof fn law_a_planned_rung_clears_the_minimums(
    w: WorkView,
    exch: Seq<char>,
    pair: Seq<char>,
    spot: Double,
    minb: Double,
    minq: Double,
    k: usize,
    l: LevelView,
    rungs: Seq<RungView>,
    answers: Seq<AnswerView>,
)
    ensures
        ({
            let after = level_rung_spec(w, exch, pair, spot, minb, minq, k, l, rungs, answers).1;
            after != rungs ==> {
                let g = after.last();
                &&& after == rungs.push(g)
                &&& !g.qty.le_spec(Double::zero_spec())
                &&& !g.qty.lt_spec(minb)
                &&& !g.usd.lt_spec(minq)
                &&& g.spot == spot && g.note == l.note && g.held == l.held
                &&& g.qty.finite() && g.price.finite() && g.usd.finite() ==> rounding::grain()
                    * rounding::size(
                    g.usd.amount() * crate::double::unit() - g.qty.amount() * g.price.amount(),
                ) <= crate::double::unit() * (rounding::size(g.usd.amount()) + rounding::least())
            }
        }),
{
    let after = level_rung_spec(w, exch, pair, spot, minb, minq, k, l, rungs, answers).1;
    if after != rungs {
        let g = after.last();
        assert(after =~= rungs.push(g));
        if g.qty.finite() && g.price.finite() && g.usd.finite() {
            rounding::lemma_mul_error(g.qty, g.price);
        }
    }
}

proof fn lemma_kept_weights(
    ws: Seq<(Seq<char>, Double)>,
    dropped: Seq<Seq<char>>,
    n: nat,
)
    requires
        n <= ws.len(),
    ensures
        ({
            let kept = keep_weights_spec(dropped, ws, Seq::empty(), n);
            &&& forall|k: int|
                0 <= k < kept.len() ==> !dropped.contains((#[trigger] kept[k]).0) && exists|i: int|
                    0 <= i < n && #[trigger] ws[i] == kept[k]
            &&& forall|i: int|
                0 <= i < n && !dropped.contains((#[trigger] ws[i]).0) ==> kept.contains(ws[i])
        }),
    decreases n,
{
    if n > 0 {
        lemma_kept_weights(ws, dropped, (n - 1) as nat);
        let fewer = keep_weights_spec(dropped, ws, Seq::empty(), (n - 1) as nat);
        let kept = keep_weights_spec(dropped, ws, Seq::empty(), n);
        assert(kept =~= fewer || kept =~= fewer.push(ws[n - 1]) && !dropped.contains(ws[n - 1].0));
        assert forall|k: int| 0 <= k < kept.len() implies !dropped.contains((#[trigger] kept[k]).0)
            && exists|i: int| 0 <= i < n && #[trigger] ws[i] == kept[k] by {
            if k < fewer.len() {
                assert(kept[k] == fewer[k]);
                let i = choose|i: int| 0 <= i < n - 1 && #[trigger] ws[i] == fewer[k];
                assert(ws[i] == kept[k]);
            } else {
                assert(ws[n - 1] == kept[k]);
            }
        }
        assert forall|i: int| 0 <= i < n && !dropped.contains((#[trigger] ws[i]).0) implies kept.contains(
            ws[i],
        ) by {
            if i < n - 1 {
                let k = choose|k: int| 0 <= k < fewer.len() && fewer[k] == ws[i];
                assert(kept[k] == ws[i]);
            } else {
                assert(kept.last() == ws[i]);
            }
        }
    }
}

/// A coin that drops out leaves the next round, and every other coin stays in it with its weight.
pub proof fn law_only_dropped_coins_leave(
    ws: Seq<(Seq<char>, Double)>,
    dropped: Seq<Seq<char>>,
    i: int,
)
    requires
        0 <= i < ws.len(),
    ensures
        without_dropped_spec(ws, dropped).contains(ws[i]) <==> !dropped.contains(ws[i].0),
{
    lemma_kept_weights(ws, dropped, ws.len());
    let kept = without_dropped_spec(ws, dropped);
    if kept.contains(ws[i]) {
        let k = choose|k: int| 0 <= k < kept.len() && kept[k] == ws[i];
        assert(!dropped.contains(kept[k].0));
    }
}

/// A zone that is rolled adds what it never spent to what is rolled, and one whose cancel is refused
/// adds nothing.
pub proof fn law_a_rolled_zone_adds_what_it_never_spent(
    w: WorkView,
    o: OrderView,
    rolled: Double,
    after: Double,
    answers: Seq<AnswerView>,
)
    requires
        !deploy::stopped_spec(w),
        !deploy::stopped_spec(cancel_ours_spec(w, o, deploy::ROLL_NOTE@, answers).0),
        rolled.finite(),
        after.finite(),
        cancel_ours_spec(w, o, deploy::ROLL_NOTE@, answers).1 matches CancelledView::Gone(kind, spent)
            ==> unspent_spec(o, kind, spent).finite() && after.amount() == rolled.amount()
            + unspent_spec(o, kind, spent).amount(),
    ensures
        cancel_ours_spec(w, o, deploy::ROLL_NOTE@, answers).1 is Gone ==> roll_one_spec(
            w,
            o,
            rolled,
            answers,
        ).1.amount() == after.amount(),
        cancel_ours_spec(w, o, deploy::ROLL_NOTE@, answers).1 is Refused ==> roll_one_spec(
            w,
            o,
            rolled,
            answers,
        ).1 == rolled,
{
    match cancel_ours_spec(w, o, deploy::ROLL_NOTE@, answers).1 {
        CancelledView::Gone(kind, spent) => {
            rounding::lemma_exact_sum(rolled, unspent_spec(o, kind, spent), after);
        },
        CancelledView::Refused(_) => {},
    }
}

/// A tranche is laddered together with what its zones never spent.
pub proof fn law_a_tranche_is_laddered_with_the_rolled_money(
    w: WorkView,
    cfg: ConfigView,
    exch: Seq<char>,
    quote: Seq<char>,
    tranche: Double,
    ts_cut: Double,
    only: Option<Seq<Seq<char>>>,
    both: Double,
    answers: Seq<AnswerView>,
)
    requires
        ({
            let (w1, label) = deploy::regime_label_spec(w, answers);
            let (w2, pinned) = pinned_levels_spec(w1, cfg, exch, only, answers);
            let (w3, rolled) = cancel_open_zones_spec(w2, exch, only, answers);
            &&& !deploy::stopped_spec(w1) && !deploy::stopped_spec(w2) && !deploy::stopped_spec(w3)
            &&& tranche.finite() && rolled.finite() && both.finite()
            &&& both.amount() == tranche.amount() + rolled.amount()
        }),
    ensures
        ({
            let (w1, label) = deploy::regime_label_spec(w, answers);
            let (w2, pinned) = pinned_levels_spec(w1, cfg, exch, only, answers);
            let (w3, rolled) = cancel_open_zones_spec(w2, exch, only, answers);
            let r = deploy_tranche_rolled_spec(
                w,
                cfg,
                exch,
                quote,
                tranche,
                ts_cut,
                only,
                answers,
            );
            &&& r.2 == rolled
            &&& exists|budget: Double|
                {
                    &&& budget.amount() == both.amount()
                    &&& deploy::stopped_spec(
                        #[trigger] venue_plan_spec(
                            w3,
                            cfg,
                            exch,
                            budget,
                            label,
                            only,
                            pinned,
                            answers,
                        ).0,
                    ) ==> r.0 == venue_plan_spec(
                        w3,
                        cfg,
                        exch,
                        budget,
                        label,
                        only,
                        pinned,
                        answers,
                    ).0
                }
        }),
{
    let (w1, label) = deploy::regime_label_spec(w, answers);
    let (w2, pinned) = pinned_levels_spec(w1, cfg, exch, only, answers);
    let (w3, rolled) = cancel_open_zones_spec(w2, exch, only, answers);
    rounding::lemma_exact_sum(tranche, rolled, both);
    let b = tranche.add_spec(rolled);
    let p = venue_plan_spec(w3, cfg, exch, b, label, only, pinned, answers).0;
    let r = deploy_tranche_rolled_spec(w, cfg, exch, quote, tranche, ts_cut, only, answers);
    assert(deploy::stopped_spec(p) ==> r.0 == p);
}

/// A venue's minimum order is never less than a dollar, nor than what the venue asks.
pub proof fn law_an_order_is_a_dollar_at_least(
    w: WorkView,
    exch: Seq<char>,
    pair: Seq<char>,
    answers: Seq<AnswerView>,
    base: Double,
    quote: Double,
)
    requires
        deploy::asked_spec(w, AskView::Limits(exch, pair), answers).1 == AnswerView::Limits(
            base,
            quote,
        ),
        quote.finite(),
    ensures
        venue_mins_spec(w, exch, pair, answers).1 matches Ok(m) && {
            &&& m.0 == base
            &&& m.1.amount() >= crate::double::unit()
            &&& m.1.amount() >= quote.amount()
            &&& m.1.amount() == quote.amount() || m.1.amount() == crate::double::unit()
        },
{
    rounding::lemma_one_is_exact();
}

/// Every coin of an even split has the weight one.
pub proof fn law_an_even_split_is_even(syms: Seq<Seq<char>>, i: int)
    requires
        0 <= i < syms.len(),
    ensures
        equal_weights_spec(syms).len() == syms.len(),
        equal_weights_spec(syms)[i].0 == syms[i],
        equal_weights_spec(syms)[i].1.amount() == crate::double::unit(),
{
    rounding::lemma_one_is_exact();
}

proof fn lemma_weighted(cfg: ConfigView, syms: Seq<Seq<char>>, n: nat, k: int)
    requires
        n <= syms.len(),
        0 <= k < add_weighted_spec(cfg, syms, Seq::empty(), n).len(),
    ensures
        ({
            let it = add_weighted_spec(cfg, syms, Seq::empty(), n)[k];
            &&& it.1.amount() > 0
            &&& it.1 == deploy::alloc_weight_spec(cfg, it.0)
            &&& exists|i: int| 0 <= i < n && #[trigger] syms[i] == it.0
        }),
    decreases n,
{
    crate::double::lemma_scaled_zero();
    let give = |s: Seq<char>|
        {
            let x = deploy::alloc_weight_spec(cfg, s);
            if Double::zero_spec().lt_spec(x) {
                Some((s, x))
            } else {
                None
            }
        };
    let all = list::gathered(syms, give, n);
    assert(add_weighted_spec(cfg, syms, Seq::empty(), n) =~= all);
    if n > 0 {
        let fewer = list::gathered(syms, give, (n - 1) as nat);
        assert(add_weighted_spec(cfg, syms, Seq::empty(), (n - 1) as nat) =~= fewer);
        if k < fewer.len() {
            lemma_weighted(cfg, syms, (n - 1) as nat, k);
            assert(all[k] == fewer[k]);
        } else {
            assert(syms[n - 1] == all[k].0);
        }
    }
}

/// Only coins with a weight above zero take part, each with its own.
pub proof fn law_only_weighted_coins_take_part(cfg: ConfigView, syms: Seq<Seq<char>>, k: int)
    requires
        0 <= k < weighted_spec(cfg, syms).len(),
    ensures
        weighted_spec(cfg, syms)[k].1.amount() > 0,
        weighted_spec(cfg, syms)[k].1 == deploy::alloc_weight_spec(
            cfg,
            weighted_spec(cfg, syms)[k].0,
        ),
        syms.contains(weighted_spec(cfg, syms)[k].0),
{
    lemma_weighted(cfg, syms, syms.len(), k);
}

} // verus!
