//! The rails. Every order passes through here, and the defaults are deliberately small.
//!
//! These are backstops, not strategy. The ladder already decides sizes; this exists for the
//! run where something upstream is wrong — a bad price, a config typo, a loop that should not
//! have fired — and the only useful behaviour is to refuse.
//!
//! Four things must all be true before an order is placed:
//!
//! 1. The mode is [`Mode::Live`]. Anything else prints and places nothing.
//! 2. The halt file does not exist. Creating it stops trading with no config change and no
//!    restart, which is what you want when you want it.
//! 3. You have acknowledged live trading once, explicitly.
//! 4. The order is inside every cap.
//!
//! It is handed the facts and returns a verdict. Reading the halt file and the clock is the
//! caller's job.
use crate::double::Double;
use crate::list;
use crate::pyfmt;
use crate::rounding;
use crate::text;
use vstd::prelude::*;

verus! {

/// Whether orders are placed.
#[derive(Clone, Copy, Debug, PartialEq, Eq, Structural)]
pub enum Mode {
    /// Notify only. The default, and the only mode that needs no key.
    Off,
    /// Read balances and print the exact orders it would place. Places none.
    Dry,
    /// Place real orders.
    Live,
}

impl DeepView for Mode {
    type V = Mode;

    open spec fn deep_view(&self) -> Mode {
        *self
    }
}

impl Default for Mode {
    fn default() -> (r: Mode)
        ensures
            r == Mode::Off,
    {
        Mode::Off
    }
}

/// The mode a text names.
pub open spec fn mode_of(s: Seq<char>) -> Result<Mode, Seq<char>> {
    let t = text::ascii_lower(text::trim(s));
    if t == "off"@ || t == "false"@ || t == "no"@ {
        Ok(Mode::Off)
    } else if t == "dry"@ || t == "dry-run"@ || t == "dryrun"@ {
        Ok(Mode::Dry)
    } else if t == "live"@ {
        Ok(Mode::Live)
    } else {
        Err("mode must be off, dry or live, got "@ + text::debug_form(t))
    }
}

/// How a mode is written.
pub open spec fn mode_name(m: Mode) -> Seq<char> {
    match m {
        Mode::Off => "off"@,
        Mode::Dry => "dry"@,
        Mode::Live => "live"@,
    }
}

impl Mode {
    pub fn parse(s: &str) -> (r: Result<Mode, String>)
        ensures
            list::outcome(r) == mode_of(s@),
    {
        let low = text::to_ascii_lower(text::trimmed(s).as_str());
        let t = low.as_str();
        if text::same(t, "off") || text::same(t, "false") || text::same(t, "no") {
            Ok(Mode::Off)
        } else if text::same(t, "dry") || text::same(t, "dry-run") || text::same(t, "dryrun") {
            Ok(Mode::Dry)
        } else if text::same(t, "live") {
            Ok(Mode::Live)
        } else {
            let mut e = text::owned("mode must be off, dry or live, got ");
            e.push_str(text::debug_text(t).as_str());
            Err(e)
        }
    }

    pub fn as_str(&self) -> (r: &'static str)
        ensures
            r@ == mode_name(*self),
    {
        match self {
            Mode::Off => "off",
            Mode::Dry => "dry",
            Mode::Live => "live",
        }
    }
}

/// The caps.
#[derive(Clone, Copy, Debug, PartialEq, Eq, Structural)]
pub struct Caps {
    /// Largest single order, in quote currency. `0` disables the cap.
    pub max_order_quote: Double,
    /// Most that may be placed in a rolling day. `0` disables.
    pub max_daily_notional: Double,
    /// Most orders in a rolling day. `0` disables.
    pub max_daily_orders: usize,
    /// Refuse if the venue price has moved this far from the price the ladder decided on.
    pub max_slippage_pct: Double,
    /// Refuse an order smaller than the venue would accept anyway.
    pub min_order_quote: Double,
}

impl DeepView for Caps {
    type V = Caps;

    open spec fn deep_view(&self) -> Caps {
        *self
    }
}

impl Default for Caps {
    /// Small on purpose. Someone who wants bigger orders can say so; nobody should discover
    /// the size of their first live order by accident.
    fn default() -> (r: Caps)
        ensures
            r == (Caps {
                max_order_quote: Double::int_spec(50),
                max_daily_notional: Double::int_spec(200),
                max_daily_orders: 10,
                max_slippage_pct: Double::int_spec(2),
                min_order_quote: Double::int_spec(1),
            }),
    {
        Caps {
            max_order_quote: Double::of_int(50),
            max_daily_notional: Double::of_int(200),
            max_daily_orders: 10,
            max_slippage_pct: Double::of_int(2),
            min_order_quote: Double::of_int(1),
        }
    }
}

/// What the ladder wants to do, before the rails see it.
#[derive(Debug)]
pub struct Intent {
    pub sym: String,
    pub quote: Double,
    /// The price the decision was made at.
    pub decided_price: Double,
    /// The price the venue is showing now.
    pub venue_price: Double,
}

/// The facts the rails need that they cannot work out themselves.
#[derive(Clone, Copy, Debug, PartialEq, Eq, Structural)]
pub struct Context {
    pub mode: Mode,
    pub halted: bool,
    pub acknowledged: bool,
    pub today_notional: Double,
    pub today_orders: usize,
}

/// Why an order is refused.
#[derive(Clone, Copy, Debug, PartialEq, Eq, Structural)]
#[allow(inconsistent_fields)]
pub enum Refusal {
    NotLive(Mode),
    Halted,
    NotAcknowledged,
    TooSmall { quote: Double, min: Double },
    TooLarge { quote: Double, cap: Double },
    DailyNotional { would_be: Double, cap: Double },
    DailyOrders { placed: usize, cap: usize },
    Slippage { moved_pct: Double, cap: Double },
    BadPrice,
}

/// A refusal in words.
pub open spec fn refusal_text(r: Refusal) -> Seq<char> {
    match r {
        Refusal::NotLive(m) => "mode is "@ + mode_name(m) + ", so nothing is placed"@,
        Refusal::Halted => "the halt file exists; remove it to resume"@,
        Refusal::NotAcknowledged => "live trading has not been acknowledged; pass --i-understand once"@,
        Refusal::TooSmall { quote, min } => "order of "@ + pyfmt::fixed_spec(quote, 2)
            + " is below the "@ + pyfmt::fixed_spec(min, 2) + " minimum"@,
        Refusal::TooLarge { quote, cap } => "order of "@ + pyfmt::fixed_spec(quote, 2)
            + " exceeds the "@ + pyfmt::fixed_spec(cap, 2) + " per-order cap"@,
        Refusal::DailyNotional { would_be, cap } => "would put the day at "@ + pyfmt::fixed_spec(
            would_be,
            2,
        ) + ", over the "@ + pyfmt::fixed_spec(cap, 2) + " cap"@,
        Refusal::DailyOrders { placed, cap } => text::dec(placed as nat)
            + " orders already placed today, cap is "@ + text::dec(cap as nat),
        Refusal::Slippage { moved_pct, cap } => "the venue price moved "@ + pyfmt::fixed_spec(
            moved_pct,
            2,
        ) + "% from the decision, cap is "@ + pyfmt::fixed_spec(cap, 2) + "%"@,
        Refusal::BadPrice => "a price was zero or negative"@,
    }
}

fn between(a: &str, x: Double, b: &str, y: Double, c: &str) -> (r: String)
    ensures
        r@ == a@ + pyfmt::fixed_spec(x, 2) + b@ + pyfmt::fixed_spec(y, 2) + c@,
{
    let mut r = text::owned(a);
    r.push_str(pyfmt::fixed(x, 2).as_str());
    r.push_str(b);
    r.push_str(pyfmt::fixed(y, 2).as_str());
    r.push_str(c);
    r
}

impl Refusal {
    /// The refusal in words.
    pub fn text(&self) -> (r: String)
        ensures
            r@ == refusal_text(*self),
    {
        match *self {
            Refusal::NotLive(m) => {
                let mut r = text::owned("mode is ");
                r.push_str(m.as_str());
                r.push_str(", so nothing is placed");
                r
            },
            Refusal::Halted => text::owned("the halt file exists; remove it to resume"),
            Refusal::NotAcknowledged => text::owned(
                "live trading has not been acknowledged; pass --i-understand once",
            ),
            Refusal::TooSmall { quote, min } => between(
                "order of ",
                quote,
                " is below the ",
                min,
                " minimum",
            ),
            Refusal::TooLarge { quote, cap } => between(
                "order of ",
                quote,
                " exceeds the ",
                cap,
                " per-order cap",
            ),
            Refusal::DailyNotional { would_be, cap } => between(
                "would put the day at ",
                would_be,
                ", over the ",
                cap,
                " cap",
            ),
            Refusal::DailyOrders { placed, cap } => {
                let mut r = text::dec_u64(placed as u64);
                r.push_str(" orders already placed today, cap is ");
                r.push_str(text::dec_u64(cap as u64).as_str());
                r
            },
            Refusal::Slippage { moved_pct, cap } => between(
                "the venue price moved ",
                moved_pct,
                "% from the decision, cap is ",
                cap,
                "%",
            ),
            Refusal::BadPrice => text::owned("a price was zero or negative"),
        }
    }
}

/// Whether an amount is more than zero.
pub open spec fn above_zero(x: Double) -> bool {
    Double::zero_spec().lt_spec(x)
}

/// Whether a cap lets an amount through. A cap of zero, or less, is no cap. What is not a
/// number is inside no cap, and a cap that is not a number lets nothing through.
pub open spec fn inside(x: Double, cap: Double) -> bool {
    cap.le_spec(Double::zero_spec()) || x.le_spec(cap)
}

/// How far the venue's price is from the decision's, in percent.
pub open spec fn moved(decided: Double, venue: Double) -> Double {
    venue.div_spec(decided).sub_spec(Double::int_spec(1)).abs_spec().mul_spec(
        Double::int_spec(100),
    )
}

/// The verdict on an order of `quote`, decided at one price while the venue shows another.
pub open spec fn verdict_on(
    quote: Double,
    decided: Double,
    venue: Double,
    ctx: Context,
    caps: Caps,
) -> Result<(), Refusal> {
    let would_be = ctx.today_notional.add_spec(quote);
    let moved_pct = moved(decided, venue);
    if ctx.mode != Mode::Live {
        Err(Refusal::NotLive(ctx.mode))
    } else if ctx.halted {
        Err(Refusal::Halted)
    } else if !ctx.acknowledged {
        Err(Refusal::NotAcknowledged)
    } else if !(above_zero(decided) && above_zero(venue) && above_zero(quote)) {
        Err(Refusal::BadPrice)
    } else if !caps.min_order_quote.le_spec(quote) {
        Err(Refusal::TooSmall { quote, min: caps.min_order_quote })
    } else if !inside(quote, caps.max_order_quote) {
        Err(Refusal::TooLarge { quote, cap: caps.max_order_quote })
    } else if caps.max_daily_orders > 0 && ctx.today_orders >= caps.max_daily_orders {
        Err(Refusal::DailyOrders { placed: ctx.today_orders, cap: caps.max_daily_orders })
    } else if !inside(would_be, caps.max_daily_notional) {
        Err(Refusal::DailyNotional { would_be, cap: caps.max_daily_notional })
    } else if !inside(moved_pct, caps.max_slippage_pct) {
        Err(Refusal::Slippage { moved_pct, cap: caps.max_slippage_pct })
    } else {
        Ok(())
    }
}

/// The verdict on an order.
pub open spec fn verdict(intent: Intent, ctx: Context, caps: Caps) -> Result<(), Refusal> {
    verdict_on(intent.quote, intent.decided_price, intent.venue_price, ctx, caps)
}

fn within(x: Double, cap: Double) -> (r: bool)
    ensures
        r == inside(x, cap),
{
    cap.le(Double::zero()) || x.le(cap)
}

/// The only way an order gets placed.
pub fn check(intent: &Intent, ctx: Context, caps: Caps) -> (r: Result<(), Refusal>)
    ensures
        r == verdict(*intent, ctx, caps),
{
    let zero = Double::zero();
    if ctx.mode != Mode::Live {
        return Err(Refusal::NotLive(ctx.mode));
    }
    if ctx.halted {
        return Err(Refusal::Halted);
    }
    if !ctx.acknowledged {
        return Err(Refusal::NotAcknowledged);
    }
    if !(zero.lt(intent.decided_price) && zero.lt(intent.venue_price) && zero.lt(intent.quote)) {
        return Err(Refusal::BadPrice);
    }
    if !caps.min_order_quote.le(intent.quote) {
        return Err(Refusal::TooSmall { quote: intent.quote, min: caps.min_order_quote });
    }
    if !within(intent.quote, caps.max_order_quote) {
        return Err(Refusal::TooLarge { quote: intent.quote, cap: caps.max_order_quote });
    }
    if caps.max_daily_orders > 0 && ctx.today_orders >= caps.max_daily_orders {
        return Err(
            Refusal::DailyOrders { placed: ctx.today_orders, cap: caps.max_daily_orders },
        );
    }
    let would_be = ctx.today_notional.plus(intent.quote);
    if !within(would_be, caps.max_daily_notional) {
        return Err(Refusal::DailyNotional { would_be, cap: caps.max_daily_notional });
    }
    let moved_pct = intent.venue_price.over(intent.decided_price).minus(
        Double::of_int(1),
    ).abs().times(Double::of_int(100));
    if !within(moved_pct, caps.max_slippage_pct) {
        return Err(Refusal::Slippage { moved_pct, cap: caps.max_slippage_pct });
    }
    Ok(())
}

/// An order passes if and only if all four hold: the mode is live, nothing is halted, live
/// trading was acknowledged, and it is inside every cap, with prices and an amount above zero.
/// A cap of zero is no cap. A price, an amount or a cap that is not a number lets nothing pass.
pub proof fn law_what_passes_is_inside_the_rails(intent: Intent, ctx: Context, caps: Caps)
    ensures
        verdict(intent, ctx, caps) is Ok <==> {
            &&& ctx.mode == Mode::Live
            &&& !ctx.halted
            &&& ctx.acknowledged
            &&& above_zero(intent.decided_price)
            &&& above_zero(intent.venue_price)
            &&& above_zero(intent.quote)
            &&& caps.min_order_quote.le_spec(intent.quote)
            &&& inside(intent.quote, caps.max_order_quote)
            &&& caps.max_daily_orders == 0 || ctx.today_orders < caps.max_daily_orders
            &&& inside(ctx.today_notional.add_spec(intent.quote), caps.max_daily_notional)
            &&& inside(moved(intent.decided_price, intent.venue_price), caps.max_slippage_pct)
        },
        verdict(intent, ctx, caps) is Ok ==> !intent.quote.nan() && !intent.decided_price.nan()
            && !intent.venue_price.nan() && !caps.min_order_quote.nan()
            && !caps.max_order_quote.nan() && !caps.max_daily_notional.nan()
            && !caps.max_slippage_pct.nan(),
{
}

/// With every cap at zero, whatever is live, acknowledged, not halted, priced and not below
/// the minimum passes.
pub proof fn law_zero_caps_are_unlimited(intent: Intent, ctx: Context, caps: Caps)
    requires
        ctx.mode == Mode::Live,
        !ctx.halted,
        ctx.acknowledged,
        above_zero(intent.decided_price),
        above_zero(intent.venue_price),
        above_zero(intent.quote),
        caps.min_order_quote.le_spec(intent.quote),
        caps.max_order_quote.eq_spec(Double::zero_spec()),
        caps.max_daily_notional.eq_spec(Double::zero_spec()),
        caps.max_slippage_pct.eq_spec(Double::zero_spec()),
        caps.max_daily_orders == 0,
    ensures
        verdict(intent, ctx, caps) is Ok,
{
}

/// A price that stands has not moved, one that fell has moved by a hundred percent at most, and the
/// further it is from the decision's, the further it has moved.
pub proof fn law_a_move_is_the_distance_from_the_decision(
    decided: Double,
    near: Double,
    far: Double,
)
    requires
        decided.finite(),
        near.finite(),
        far.finite(),
        decided.amount() > 0,
        near.amount() >= 0,
        far.amount() >= 0,
        decided.amount() <= near.amount() <= far.amount() || far.amount() <= near.amount()
            <= decided.amount(),
        far.div_spec(decided).finite(),
        near.div_spec(decided).finite(),
    ensures
        moved(decided, far).amount() >= moved(decided, near).amount() >= 0,
        near.amount() == decided.amount() ==> moved(decided, near).amount() == 0,
        near.amount() < decided.amount() ==> moved(decided, near).amount() > 0,
        near.amount() <= decided.amount() ==> moved(decided, near).amount() <= 100
            * crate::double::unit(),
{
    let one = Double::int_spec(1);
    let h = Double::int_spec(100);
    let a = near.div_spec(decided);
    let b = far.div_spec(decided);
    let zero = Double::zero_spec();
    let u = crate::double::unit() as int;
    crate::double::lemma_scaled_zero();
    vstd::arithmetic::power2::lemma_pow2_pos(1074);
    rounding::lemma_one_is_exact();
    rounding::lemma_whole_is_exact(100);
    rounding::lemma_change(near, decided);
    rounding::lemma_change(far, decided);
    rounding::lemma_nothing_over(decided);
    rounding::lemma_div_order(zero, near, decided);
    let x = a.sub_spec(one);
    let y = b.sub_spec(one);
    if near.amount() <= far.amount() {
        rounding::lemma_div_order(near, far, decided);
        rounding::lemma_sub_order(a, b, one);
    }
    if far.amount() <= near.amount() {
        rounding::lemma_div_order(far, near, decided);
        rounding::lemma_sub_order(b, a, one);
    }
    assert(rounding::size(x.amount()) <= rounding::size(y.amount()));
    let p = x.abs_spec();
    let q = y.abs_spec();
    rounding::lemma_mul_order(p, q, h);
    rounding::lemma_times_more(p, h);
    rounding::lemma_times_more(q, h);
    if near.amount() <= decided.amount() {
        rounding::lemma_sub_order(zero, a, one);
        rounding::lemma_exact_difference(zero, one, one.neg_spec());
        assert(p.amount() <= u);
        rounding::lemma_mul_order(p, one, h);
        assert(u * (100 * u) == (100 * u) * u) by (nonlinear_arith);
        rounding::lemma_exact_product(one, h, h);
    }
}

/// What passes leaves the day's total inside its cap: what was placed before and the order together
/// come to no more.
pub proof fn law_a_day_stays_inside_its_cap(
    intent: Intent,
    ctx: Context,
    caps: Caps,
    together: Double,
)
    requires
        ctx.today_notional.finite(),
        intent.quote.finite(),
        together.finite(),
        together.amount() == ctx.today_notional.amount() + intent.quote.amount(),
        caps.max_daily_notional.amount() > 0,
        verdict(intent, ctx, caps) is Ok,
    ensures
        together.le_spec(caps.max_daily_notional),
{
    crate::double::lemma_scaled_zero();
    rounding::lemma_exact_sum(ctx.today_notional, intent.quote, together);
}

} // verus!
