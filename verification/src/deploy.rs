//! The monthly-capital deploy layer: fresh stable on a venue becomes resting limit-buy
//! zones below spot ("let price come to us") instead of a market buy the day it lands.
//!
//! Detection runs inside every live run ([`check::check`]):
//!
//! ```text
//! total(venue)  = free stable + stable locked in resting orders (venue-reported)
//! expected      = last baseline + journal-explained fills since then
//! new capital   = total - expected   >= deploy_min_usd  -> a tranche deploys
//! ```
//!
//! A cold start records the baseline without deploying. Withdrawals and noise re-baseline
//! silently; positive dust is carried until it sums to a tranche. The baseline is saved
//! **before** anything is journaled or placed, so a crash can only under-deploy.
//!
//! A tranche cancels the venue's unfilled zones and folds their unspent budget in; the
//! price levels still resting are held. Around it:
//!
//! * the Revolut X onramp ([`onramp`]): EUR -> USDC -> USD, keeping the pending transfer to
//!   Gate in USDC and ring-fencing it from the ladder, with an in-flight guard while it
//!   travels; when Gate's balances cannot be read the reserve is unknown and the layer fails
//!   closed (staged USDC stays USDC, no free Revolut X cash is laddered that run);
//! * Gate's USDC (the transfer's bridge asset) auto-converted to USDT;
//! * the idle sweep: cash a venue freed by cancelling a zone is re-laddered;
//! * the withhold: the onramp venue re-laddered lighter so the transfer can leave;
//! * the bull sweep ([`bull`]): a zone resting too long in a young bull is bought at market (a
//!   cancel whose final status is unreadable adds nothing, and the buy never exceeds
//!   the venue's free cash minus the reserve);
//! * resume ([`placing`]): journaled rungs that never reached the venue are placed (or adopted
//!   when they did), a rung short of free balance by pennies is trimmed once.
//!
//! # Questions and answers
//!
//! Nothing here talks to a venue, a clock or a file. Every step is a function of the
//! [`Answer`]s it has had so far: the [`Work`] it returns either holds the next [`Ask`],
//! together with the journal's rows and the state as they stand at that moment, or it is
//! finished. The caller performs what is asked, appends the answer and calls again with what
//! it started from.
use crate::double::Double;
use crate::housekeeping::{Route, RouteView};
use crate::journal;
use crate::journal::{Journal, Order, OrderView};
use crate::list;
use crate::list::Duplicate;
use crate::pyfmt;
use crate::text;
use crate::venue::{Balance, Limits, ParsedOrder, ParsedOrderView};
use crate::watch::json::{Doc, Json};
use vstd::prelude::*;

pub mod audit;
pub mod bull;
pub mod check;
pub mod churn;
pub mod cli;
pub mod fillodds;
pub mod onramp;
pub mod placing;
pub mod planning;

verus! {

/// Placement retries before a rung is given up on.
pub const MAX_RETRIES: i64 = 5;

/// Our cancel notes.
pub const ROLL_NOTE: &'static str = "rolled into new tranche";

pub const CANCEL_NOTE: &'static str = "manual --cancel";

pub const BULL_NOTE: &'static str = "bull sweep -> market";

/// A coin's own zones: how far below spot, and how the budget is split.
#[derive(Debug)]
pub struct Zones {
    pub depths: Vec<Double>,
    pub weights: Vec<Double>,
}

/// What a [`Zones`] holds.
pub struct ZonesView {
    pub depths: Seq<Double>,
    pub weights: Seq<Double>,
}

impl DeepView for Zones {
    type V = ZonesView;

    open spec fn deep_view(&self) -> ZonesView {
        ZonesView {
            depths: self.depths.deep_view(),
            weights: self.weights.deep_view(),
        }
    }
}

impl Duplicate for Zones {
    fn dup(&self) -> (r: Zones) {
        Zones {
            depths: self.depths.dup(),
            weights: self.weights.dup(),
        }
    }
}

/// What the layer reads of a run's configuration.
#[derive(Debug)]
pub struct Config {
    /// The layer's mode: it trades where this is `live`.
    pub deploy: String,
    pub live_trading_enabled: bool,
    /// The halt file, where it is present.
    pub halt_file: Option<String>,
    pub deploy_min_usd: Double,
    pub deploy_max_tranche_usd: Double,
    pub deploy_max_depth_pct: Double,
    pub deploy_pin_prices: bool,
    pub deploy_sweep_idle: bool,
    pub deploy_bull_sweep: bool,
    pub deploy_bull_sweep_days: Double,
    pub deploy_bull_sweep_max_age: Double,
    pub deploy_alloc: Vec<(String, Double)>,
    pub deploy_zones: Vec<(String, Zones)>,
    pub routing: Vec<Route>,
    pub revx_pairs: Vec<(String, String)>,
}

/// What a [`Config`] holds.
pub struct ConfigView {
    pub deploy: Seq<char>,
    pub live_trading_enabled: bool,
    pub halt_file: Option<Seq<char>>,
    pub deploy_min_usd: Double,
    pub deploy_max_tranche_usd: Double,
    pub deploy_max_depth_pct: Double,
    pub deploy_pin_prices: bool,
    pub deploy_sweep_idle: bool,
    pub deploy_bull_sweep: bool,
    pub deploy_bull_sweep_days: Double,
    pub deploy_bull_sweep_max_age: Double,
    pub deploy_alloc: Seq<(Seq<char>, Double)>,
    pub deploy_zones: Seq<(Seq<char>, ZonesView)>,
    pub routing: Seq<RouteView>,
    pub revx_pairs: Seq<(Seq<char>, Seq<char>)>,
}

impl DeepView for Config {
    type V = ConfigView;

    open spec fn deep_view(&self) -> ConfigView {
        ConfigView {
            deploy: self.deploy@,
            live_trading_enabled: self.live_trading_enabled,
            halt_file: self.halt_file.deep_view(),
            deploy_min_usd: self.deploy_min_usd,
            deploy_max_tranche_usd: self.deploy_max_tranche_usd,
            deploy_max_depth_pct: self.deploy_max_depth_pct,
            deploy_pin_prices: self.deploy_pin_prices,
            deploy_sweep_idle: self.deploy_sweep_idle,
            deploy_bull_sweep: self.deploy_bull_sweep,
            deploy_bull_sweep_days: self.deploy_bull_sweep_days,
            deploy_bull_sweep_max_age: self.deploy_bull_sweep_max_age,
            deploy_alloc: self.deploy_alloc.deep_view(),
            deploy_zones: self.deploy_zones.deep_view(),
            routing: self.routing.deep_view(),
            revx_pairs: self.revx_pairs.deep_view(),
        }
    }
}

/// One planned rung, rounded to the venue.
#[derive(Debug)]
pub struct Rung {
    /// 1-based position in the profile.
    pub rung: i64,
    pub price: Double,
    pub qty: Double,
    pub usd: Double,
    pub note: String,
    pub spot: Double,
    pub held: bool,
    pub since: Option<Double>,
}

/// What a [`Rung`] holds.
pub struct RungView {
    pub rung: i64,
    pub price: Double,
    pub qty: Double,
    pub usd: Double,
    pub note: Seq<char>,
    pub spot: Double,
    pub held: bool,
    pub since: Option<Double>,
}

impl DeepView for Rung {
    type V = RungView;

    open spec fn deep_view(&self) -> RungView {
        RungView {
            rung: self.rung,
            price: self.price,
            qty: self.qty,
            usd: self.usd,
            note: self.note@,
            spot: self.spot,
            held: self.held,
            since: self.since,
        }
    }
}

impl Duplicate for Rung {
    fn dup(&self) -> (r: Rung) {
        Rung {
            rung: self.rung,
            price: self.price,
            qty: self.qty,
            usd: self.usd,
            note: text::owned(self.note.as_str()),
            spot: self.spot,
            held: self.held,
            since: self.since,
        }
    }
}

/// A venue's zone plan: coins in allocation order, skip reasons, and whether the allocation named
/// none of the venue's coins (equal split).
#[derive(Debug)]
pub struct VenuePlan {
    pub plans: Vec<(String, Vec<Rung>)>,
    pub skips: Vec<String>,
    pub fallback: bool,
}

/// What a [`VenuePlan`] holds.
pub struct VenuePlanView {
    pub plans: Seq<(Seq<char>, Seq<RungView>)>,
    pub skips: Seq<Seq<char>>,
    pub fallback: bool,
}

impl DeepView for VenuePlan {
    type V = VenuePlanView;

    open spec fn deep_view(&self) -> VenuePlanView {
        VenuePlanView {
            plans: self.plans.deep_view(),
            skips: self.skips.deep_view(),
            fallback: self.fallback,
        }
    }
}

impl Duplicate for VenuePlan {
    fn dup(&self) -> (r: VenuePlan) {
        VenuePlan {
            plans: self.plans.dup(),
            skips: self.skips.dup(),
            fallback: self.fallback,
        }
    }
}

/// A price level still resting, which a re-ladder holds.
#[derive(Debug)]
pub struct Pinned {
    pub sym: String,
    pub rung: i64,
    pub price: Double,
    pub note: Option<String>,
    pub since: Option<Double>,
}

/// What a [`Pinned`] holds.
pub struct PinnedView {
    pub sym: Seq<char>,
    pub rung: i64,
    pub price: Double,
    pub note: Option<Seq<char>>,
    pub since: Option<Double>,
}

impl DeepView for Pinned {
    type V = PinnedView;

    open spec fn deep_view(&self) -> PinnedView {
        PinnedView {
            sym: self.sym@,
            rung: self.rung,
            price: self.price,
            note: self.note.deep_view(),
            since: self.since,
        }
    }
}

impl Duplicate for Pinned {
    fn dup(&self) -> (r: Pinned) {
        Pinned {
            sym: text::owned(self.sym.as_str()),
            rung: self.rung,
            price: self.price,
            note: self.note.dup(),
            since: self.since,
        }
    }
}

/// A price level of a plan, not yet rounded to the venue.
#[derive(Debug)]
pub struct Level {
    pub price: Double,
    pub usd: Double,
    pub note: String,
    pub held: bool,
    pub since: Option<Double>,
}

/// What a [`Level`] holds.
pub struct LevelView {
    pub price: Double,
    pub usd: Double,
    pub note: Seq<char>,
    pub held: bool,
    pub since: Option<Double>,
}

impl DeepView for Level {
    type V = LevelView;

    open spec fn deep_view(&self) -> LevelView {
        LevelView {
            price: self.price,
            usd: self.usd,
            note: self.note@,
            held: self.held,
            since: self.since,
        }
    }
}

impl Duplicate for Level {
    fn dup(&self) -> (r: Level) {
        Level {
            price: self.price,
            usd: self.usd,
            note: text::owned(self.note.as_str()),
            held: self.held,
            since: self.since,
        }
    }
}

/// What a coin's price levels depend on.
#[derive(Debug)]
pub struct LevelQuery {
    pub label: String,
    pub sym: Option<String>,
    pub overrides: Vec<(String, Zones)>,
    pub spot: Double,
    pub amount: Double,
    pub low: Option<Double>,
    /// The structure of the daily closes.
    pub high: Option<Double>,
    pub min_quote: Double,
    pub max_depth_pct: Double,
    pub pin_prices: bool,
    pub pinned: Vec<Pinned>,
}

/// What a [`LevelQuery`] holds.
pub struct LevelQueryView {
    pub label: Seq<char>,
    pub sym: Option<Seq<char>>,
    pub overrides: Seq<(Seq<char>, ZonesView)>,
    pub spot: Double,
    pub amount: Double,
    pub low: Option<Double>,
    pub high: Option<Double>,
    pub min_quote: Double,
    pub max_depth_pct: Double,
    pub pin_prices: bool,
    pub pinned: Seq<PinnedView>,
}

impl DeepView for LevelQuery {
    type V = LevelQueryView;

    open spec fn deep_view(&self) -> LevelQueryView {
        LevelQueryView {
            label: self.label@,
            sym: self.sym.deep_view(),
            overrides: self.overrides.deep_view(),
            spot: self.spot,
            amount: self.amount,
            low: self.low,
            high: self.high,
            min_quote: self.min_quote,
            max_depth_pct: self.max_depth_pct,
            pin_prices: self.pin_prices,
            pinned: self.pinned.deep_view(),
        }
    }
}

/// A deposit that a venue reports.
#[derive(Debug)]
pub struct Deposit {
    pub currency: Option<String>,
    pub amount: Double,
    pub status: Option<String>,
    pub ts: Double,
}

/// What a [`Deposit`] holds.
pub struct DepositView {
    pub currency: Option<Seq<char>>,
    pub amount: Double,
    pub status: Option<Seq<char>>,
    pub ts: Double,
}

impl DeepView for Deposit {
    type V = DepositView;

    open spec fn deep_view(&self) -> DepositView {
        DepositView {
            currency: self.currency.deep_view(),
            amount: self.amount,
            status: self.status.deep_view(),
            ts: self.ts,
        }
    }
}

impl Duplicate for Deposit {
    fn dup(&self) -> (r: Deposit) {
        Deposit {
            currency: self.currency.dup(),
            amount: self.amount,
            status: self.status.dup(),
            ts: self.ts,
        }
    }
}

/// What became of a cancelled order.
#[derive(Clone, Copy, Debug, PartialEq, Eq, Structural)]
pub enum Settled {
    /// What it had filled was booked.
    Booked,
    NothingFilled,
    NotPlaced,
    /// Its final status could not be read.
    Unreadable,
}

impl DeepView for Settled {
    type V = Settled;

    open spec fn deep_view(&self) -> Settled {
        *self
    }
}

/// What a step needs to know or to have done next.
#[derive(Debug)]
pub enum Ask {
    /// The time.
    Now,
    /// Wait some seconds.
    Sleep(Double),
    /// Write the journal's rows through.
    SaveJournal,
    /// Write the state.
    SaveState,
    /// Whether a venue's client can be had.
    Client(String),
    /// The market regime: `{market, coins: {SYM: {running, ...}}}`.
    Regime,
    /// The daily regime labels: `{labels: [...], ...}`.
    LabelHistory,
    /// How many days the bull at the end of some labels is old.
    BullAge(Vec<String>),
    /// The structure of a pair's daily closes on a venue.
    Structure(String, String),
    /// A coin's price levels.
    Levels(LevelQuery),
    /// An amount, rounded down to cents.
    FloorCents(Double),
    Price(String, String),
    /// The smallest order of a pair on a venue.
    Limits(String, String),
    RoundPrice(String, String, Double),
    RoundAmount(String, String, Double),
    /// The largest amount a budget buys at a price: venue, pair, budget, price.
    FitQty(String, String, Double, Double),
    /// The resting orders of a pair on a venue, each with whether its id is this client id and
    /// whether its price is this one.
    OpenOrders(String, String, String, Option<Double>),
    /// Cancel an order: venue, pair, order id.
    Cancel(String, String, String),
    /// What a cancelled order had filled: venue, client id, time.
    Settle(String, String, Double),
    /// Place a limit buy: venue, pair, base amount, price, client id.
    LimitBuy(String, String, Double, Double, String),
    /// Buy at market: venue, pair, quote amount, client id.
    MarketBuy(String, String, Double, Option<String>),
    /// Sell at market: venue, pair, base amount.
    MarketSell(String, String, Double),
    /// What is free on a venue, by asset.
    Balances(String),
    /// What is free and locked on a venue, by asset.
    BalancesFull(String),
    /// Gate's deposits since a time.
    Deposits(Double),
    /// The stable that a Revolut X book holds.
    RevxStable(Vec<(String, Balance)>),
    /// The stable that a Gate book holds.
    GateStable(Vec<(String, Balance)>),
    /// What the pending Gate top-up needs: the stable on Revolut X and on Gate, the allocation, and
    /// the venue of each coin.
    Reserve(Double, Double, Vec<(String, Double)>, Vec<(String, String)>),
}

/// What a [`Ask`] says.
#[allow(inconsistent_fields)]
pub enum AskView {
    Now,
    Sleep(Double),
    SaveJournal,
    SaveState,
    Client(Seq<char>),
    Regime,
    LabelHistory,
    BullAge(Seq<Seq<char>>),
    Structure(Seq<char>, Seq<char>),
    Levels(LevelQueryView),
    FloorCents(Double),
    Price(Seq<char>, Seq<char>),
    Limits(Seq<char>, Seq<char>),
    RoundPrice(Seq<char>, Seq<char>, Double),
    RoundAmount(Seq<char>, Seq<char>, Double),
    FitQty(Seq<char>, Seq<char>, Double, Double),
    OpenOrders(Seq<char>, Seq<char>, Seq<char>, Option<Double>),
    Cancel(Seq<char>, Seq<char>, Seq<char>),
    Settle(Seq<char>, Seq<char>, Double),
    LimitBuy(Seq<char>, Seq<char>, Double, Double, Seq<char>),
    MarketBuy(Seq<char>, Seq<char>, Double, Option<Seq<char>>),
    MarketSell(Seq<char>, Seq<char>, Double),
    Balances(Seq<char>),
    BalancesFull(Seq<char>),
    Deposits(Double),
    RevxStable(Seq<(Seq<char>, Balance)>),
    GateStable(Seq<(Seq<char>, Balance)>),
    Reserve(Double, Double, Seq<(Seq<char>, Double)>, Seq<(Seq<char>, Seq<char>)>),
}

impl DeepView for Ask {
    type V = AskView;

    open spec fn deep_view(&self) -> AskView {
        match self {
            Ask::Now => AskView::Now,
            Ask::Sleep(a) => AskView::Sleep(*a),
            Ask::SaveJournal => AskView::SaveJournal,
            Ask::SaveState => AskView::SaveState,
            Ask::Client(a) => AskView::Client(a@),
            Ask::Regime => AskView::Regime,
            Ask::LabelHistory => AskView::LabelHistory,
            Ask::BullAge(a) => AskView::BullAge(a.deep_view()),
            Ask::Structure(a, b) => AskView::Structure(a@, b@),
            Ask::Levels(a) => AskView::Levels(a.deep_view()),
            Ask::FloorCents(a) => AskView::FloorCents(*a),
            Ask::Price(a, b) => AskView::Price(a@, b@),
            Ask::Limits(a, b) => AskView::Limits(a@, b@),
            Ask::RoundPrice(a, b, c) => AskView::RoundPrice(a@, b@, *c),
            Ask::RoundAmount(a, b, c) => AskView::RoundAmount(a@, b@, *c),
            Ask::FitQty(a, b, c, d) => AskView::FitQty(a@, b@, *c, *d),
            Ask::OpenOrders(a, b, c, d) => AskView::OpenOrders(a@, b@, c@, *d),
            Ask::Cancel(a, b, c) => AskView::Cancel(a@, b@, c@),
            Ask::Settle(a, b, c) => AskView::Settle(a@, b@, *c),
            Ask::LimitBuy(a, b, c, d, e) => AskView::LimitBuy(a@, b@, *c, *d, e@),
            Ask::MarketBuy(a, b, c, d) => AskView::MarketBuy(a@, b@, *c, d.deep_view()),
            Ask::MarketSell(a, b, c) => AskView::MarketSell(a@, b@, *c),
            Ask::Balances(a) => AskView::Balances(a@),
            Ask::BalancesFull(a) => AskView::BalancesFull(a@),
            Ask::Deposits(a) => AskView::Deposits(*a),
            Ask::RevxStable(a) => AskView::RevxStable(a.deep_view()),
            Ask::GateStable(a) => AskView::GateStable(a.deep_view()),
            Ask::Reserve(a, b, c, d) => AskView::Reserve(*a, *b, c.deep_view(), d.deep_view()),
        }
    }
}

/// What came of an [`Ask`].
#[derive(Debug)]
pub enum Answer {
    /// It failed, and why.
    Failed(String),
    /// It was done.
    Done,
    Number(Double),
    Doc(Json),
    Age(Option<i64>),
    Structure(Option<Double>, Option<Double>),
    /// The levels, and a warning about the profile.
    Levels(Vec<Level>, Option<String>),
    /// The smallest base and quote amounts.
    Limits(Double, Double),
    Orders(Vec<(ParsedOrder, bool, bool)>),
    Placed(ParsedOrder),
    /// The order's row as settling left it, and what became of it.
    Settled(Order, Settled),
    Free(Vec<(String, Double)>),
    Book(Vec<(String, Balance)>),
    Deposits(Vec<Deposit>),
}

/// What a [`Answer`] says.
#[allow(inconsistent_fields)]
pub enum AnswerView {
    Failed(Seq<char>),
    Done,
    Number(Double),
    Doc(Doc),
    Age(Option<i64>),
    Structure(Option<Double>, Option<Double>),
    Levels(Seq<LevelView>, Option<Seq<char>>),
    Limits(Double, Double),
    Orders(Seq<(ParsedOrderView, bool, bool)>),
    Placed(ParsedOrderView),
    Settled(OrderView, Settled),
    Free(Seq<(Seq<char>, Double)>),
    Book(Seq<(Seq<char>, Balance)>),
    Deposits(Seq<DepositView>),
}

impl DeepView for Answer {
    type V = AnswerView;

    open spec fn deep_view(&self) -> AnswerView {
        match self {
            Answer::Failed(a) => AnswerView::Failed(a@),
            Answer::Done => AnswerView::Done,
            Answer::Number(a) => AnswerView::Number(*a),
            Answer::Doc(a) => AnswerView::Doc(a@),
            Answer::Age(a) => AnswerView::Age(*a),
            Answer::Structure(a, b) => AnswerView::Structure(*a, *b),
            Answer::Levels(a, b) => AnswerView::Levels(a.deep_view(), b.deep_view()),
            Answer::Limits(a, b) => AnswerView::Limits(*a, *b),
            Answer::Orders(a) => AnswerView::Orders(a.deep_view()),
            Answer::Placed(a) => AnswerView::Placed(a.deep_view()),
            Answer::Settled(a, b) => AnswerView::Settled(a.deep_view(), *b),
            Answer::Free(a) => AnswerView::Free(a.deep_view()),
            Answer::Book(a) => AnswerView::Book(a.deep_view()),
            Answer::Deposits(a) => AnswerView::Deposits(a.deep_view()),
        }
    }
}

impl Duplicate for Answer {
    fn dup(&self) -> (r: Answer) {
        match self {
            Answer::Failed(a) => Answer::Failed(text::owned(a.as_str())),
            Answer::Done => Answer::Done,
            Answer::Number(a) => Answer::Number(*a),
            Answer::Doc(a) => Answer::Doc(a.copy()),
            Answer::Age(a) => Answer::Age(*a),
            Answer::Structure(a, b) => Answer::Structure(*a, *b),
            Answer::Levels(a, b) => Answer::Levels(a.dup(), b.dup()),
            Answer::Limits(a, b) => Answer::Limits(*a, *b),
            Answer::Orders(a) => Answer::Orders(a.dup()),
            Answer::Placed(a) => Answer::Placed(a.dup()),
            Answer::Settled(a, b) => Answer::Settled(a.dup(), *b),
            Answer::Free(a) => Answer::Free(a.dup()),
            Answer::Book(a) => Answer::Book(a.dup()),
            Answer::Deposits(a) => Answer::Deposits(a.dup()),
        }
    }
}

/// One result line of a run.
#[derive(Debug)]
pub struct RunResult {
    pub sym: Option<String>,
    pub side: Option<String>,
    pub mode: Option<String>,
    pub hk: bool,
    pub deploy: bool,
    pub audit: bool,
    /// An order went to a venue.
    pub committed: bool,
    pub done: Option<String>,
    pub warn: Option<String>,
    pub err: Option<String>,
    pub info: Option<String>,
}

/// What a [`RunResult`] holds.
pub struct RunResultView {
    pub sym: Option<Seq<char>>,
    pub side: Option<Seq<char>>,
    pub mode: Option<Seq<char>>,
    pub hk: bool,
    pub deploy: bool,
    pub audit: bool,
    pub committed: bool,
    pub done: Option<Seq<char>>,
    pub warn: Option<Seq<char>>,
    pub err: Option<Seq<char>>,
    pub info: Option<Seq<char>>,
}

impl DeepView for RunResult {
    type V = RunResultView;

    open spec fn deep_view(&self) -> RunResultView {
        RunResultView {
            sym: self.sym.deep_view(),
            side: self.side.deep_view(),
            mode: self.mode.deep_view(),
            hk: self.hk,
            deploy: self.deploy,
            audit: self.audit,
            committed: self.committed,
            done: self.done.deep_view(),
            warn: self.warn.deep_view(),
            err: self.err.deep_view(),
            info: self.info.deep_view(),
        }
    }
}

/// What the layer changes, and how far it has come.
#[derive(Debug)]
pub struct Work {
    /// The journal.
    pub journal: Journal,
    /// The deploy state.
    pub st: Json,
    /// This run's results, in order.
    pub out: Vec<RunResult>,
    /// Warnings that are only printed.
    pub notes: Vec<String>,
    /// How many answers were used.
    pub at: usize,
    /// What is asked next.
    pub ask: Option<Ask>,
    /// Why the layer ended early.
    pub fault: Option<String>,
}

/// What a [`Work`] holds.
pub struct WorkView {
    pub journal: Seq<(Seq<char>, OrderView)>,
    pub st: Doc,
    pub out: Seq<RunResultView>,
    pub notes: Seq<Seq<char>>,
    pub at: usize,
    pub ask: Option<AskView>,
    pub fault: Option<Seq<char>>,
}

impl DeepView for Work {
    type V = WorkView;

    open spec fn deep_view(&self) -> WorkView {
        WorkView {
            journal: self.journal.deep_view(),
            st: self.st@,
            out: self.out.deep_view(),
            notes: self.notes.deep_view(),
            at: self.at,
            ask: self.ask.deep_view(),
            fault: self.fault.deep_view(),
        }
    }
}

/// The journal and the state at the start of a run.
pub open spec fn work_on_spec(journal: Seq<(Seq<char>, OrderView)>, st: Doc) -> WorkView {
    WorkView {
        journal,
        st,
        out: Seq::<RunResultView>::empty(),
        notes: Seq::<Seq<char>>::empty(),
        at: 0,
        ask: None,
        fault: None,
    }
}

/// The journal and the state at the start of a run.
pub fn work_on(journal: Journal, st: Json) -> (r: Work)
    ensures
        r.deep_view() == work_on_spec(journal.deep_view(), st@),
{
    Work {
        journal,
        st,
        out: list::none::<RunResult>(),
        notes: list::none::<String>(),
        at: 0,
        ask: None,
        fault: None,
    }
}

/// Whether a step waits for an answer or ended early.
pub open spec fn stopped_spec(w: WorkView) -> bool {
    w.ask is Some || w.fault is Some
}

/// Whether a step waits for an answer or ended early.
pub fn stopped(w: &Work) -> (r: bool)
    ensures
        r == stopped_spec(w.deep_view()),
{
    w.ask.is_some() || w.fault.is_some()
}

/// A step that waits for an answer.
pub open spec fn asking_spec(w: WorkView, q: AskView) -> WorkView {
    WorkView { ask: Some(q), ..w }
}

fn asking(w: Work, q: Ask) -> (r: Work)
    ensures
        r.deep_view() == asking_spec(w.deep_view(), q.deep_view()),
{
    let mut w = w;
    w.ask = Some(q);
    w
}

/// A step that ended early.
pub open spec fn failing_spec(w: WorkView, why: Seq<char>) -> WorkView {
    WorkView { fault: Some(why), ..w }
}

/// A step that ended early.
pub fn failing(w: Work, why: String) -> (r: Work)
    ensures
        r.deep_view() == failing_spec(w.deep_view(), why@),
{
    let mut w = w;
    w.fault = Some(why);
    w
}

/// The next answer, where there is one; otherwise the step waits for it.
pub open spec fn asked_spec(
    w: WorkView,
    q: AskView,
    answers: Seq<AnswerView>,
) -> (WorkView, AnswerView) {
    match list::item(answers, w.at) {
        Some(a) => (WorkView { at: (w.at + 1) as usize, ..w }, a),
        None => (asking_spec(w, q), AnswerView::Done),
    }
}

/// The next answer, where there is one; otherwise the step waits for it.
pub fn asked(w: Work, q: Ask, answers: &Vec<Answer>) -> (r: (Work, Answer))
    ensures
        r.deep_view() == asked_spec(w.deep_view(), q.deep_view(), answers.deep_view()),
{
    let mut w = w;
    let a = match list::at(answers, w.at) {
        Some(v) => v,
        None => {
            return (asking(w, q), Answer::Done);
        },
    };
    w.at = (w.at + 1);
    (w, a.dup())
}

/// Why an answer is not the one that was asked for.
pub open spec fn reason_of_spec(a: AnswerView) -> Seq<char> {
    match a {
        AnswerView::Failed(e) => e,
        _ => "answer out of turn"@,
    }
}

fn reason_of(a: &Answer) -> (r: String)
    ensures
        r@ == reason_of_spec(a.deep_view()),
{
    match a {
        Answer::Failed(e) => text::owned(e.as_str()),
        _ => text::owned("answer out of turn"),
    }
}

/// Ask for a number.
pub open spec fn ask_number_spec(
    w: WorkView,
    q: AskView,
    answers: Seq<AnswerView>,
) -> (WorkView, Result<Double, Seq<char>>) {
    let (v, a) = asked_spec(w, q, answers);
    match a {
        AnswerView::Number(x) => (v, Ok(x)),
        _ => (v, Err(reason_of_spec(a))),
    }
}

/// Ask for a number.
pub fn ask_number(w: Work, q: Ask, answers: &Vec<Answer>) -> (r: (Work, Result<Double, String>))
    ensures
        (r.0.deep_view(), list::outcome(r.1)) == ask_number_spec(
            w.deep_view(),
            q.deep_view(),
            answers.deep_view(),
        ),
{
    let (v, a) = asked(w, q, answers);
    match &a {
        Answer::Number(x) => (v, Ok(*x)),
        _ => (v, Err(reason_of(&a))),
    }
}

/// Have something done; the reason why it was not, if it was not.
pub open spec fn ask_done_spec(
    w: WorkView,
    q: AskView,
    answers: Seq<AnswerView>,
) -> (WorkView, Option<Seq<char>>) {
    let (v, a) = asked_spec(w, q, answers);
    match a {
        AnswerView::Done => (v, None),
        _ => (v, Some(reason_of_spec(a))),
    }
}

/// Have something done; the reason why it was not, if it was not.
pub fn ask_done(w: Work, q: Ask, answers: &Vec<Answer>) -> (r: (Work, Option<String>))
    ensures
        r.deep_view() == ask_done_spec(w.deep_view(), q.deep_view(), answers.deep_view()),
{
    let (v, a) = asked(w, q, answers);
    match &a {
        Answer::Done => (v, None),
        _ => (v, Some(reason_of(&a))),
    }
}

/// Ask for a venue's book.
pub open spec fn ask_book_spec(
    w: WorkView,
    q: AskView,
    answers: Seq<AnswerView>,
) -> (WorkView, Result<Seq<(Seq<char>, Balance)>, Seq<char>>) {
    let (v, a) = asked_spec(w, q, answers);
    match a {
        AnswerView::Book(b) => (v, Ok(b)),
        _ => (v, Err(reason_of_spec(a))),
    }
}

/// Ask for a venue's book.
pub fn ask_book(
    w: Work,
    q: Ask,
    answers: &Vec<Answer>,
) -> (r: (Work, Result<Vec<(String, Balance)>, String>))
    ensures
        (r.0.deep_view(), list::outcome(r.1)) == ask_book_spec(
            w.deep_view(),
            q.deep_view(),
            answers.deep_view(),
        ),
{
    let (v, a) = asked(w, q, answers);
    match &a {
        Answer::Book(b) => (v, Ok(b.dup())),
        _ => (v, Err(reason_of(&a))),
    }
}

/// Ask for what is free on a venue.
pub open spec fn ask_free_spec(
    w: WorkView,
    q: AskView,
    answers: Seq<AnswerView>,
) -> (WorkView, Result<Seq<(Seq<char>, Double)>, Seq<char>>) {
    let (v, a) = asked_spec(w, q, answers);
    match a {
        AnswerView::Free(b) => (v, Ok(b)),
        _ => (v, Err(reason_of_spec(a))),
    }
}

/// Ask for what is free on a venue.
pub fn ask_free(
    w: Work,
    q: Ask,
    answers: &Vec<Answer>,
) -> (r: (Work, Result<Vec<(String, Double)>, String>))
    ensures
        (r.0.deep_view(), list::outcome(r.1)) == ask_free_spec(
            w.deep_view(),
            q.deep_view(),
            answers.deep_view(),
        ),
{
    let (v, a) = asked(w, q, answers);
    match &a {
        Answer::Free(b) => (v, Ok(b.dup())),
        _ => (v, Err(reason_of(&a))),
    }
}

/// Ask for a document.
pub open spec fn ask_doc_spec(
    w: WorkView,
    q: AskView,
    answers: Seq<AnswerView>,
) -> (WorkView, Result<Doc, Seq<char>>) {
    let (v, a) = asked_spec(w, q, answers);
    match a {
        AnswerView::Doc(d) => (v, Ok(d)),
        _ => (v, Err(reason_of_spec(a))),
    }
}

/// Ask for a document.
pub fn ask_doc(w: Work, q: Ask, answers: &Vec<Answer>) -> (r: (Work, Result<Json, String>))
    ensures
        (r.0.deep_view(), list::outcome(r.1)) == ask_doc_spec(
            w.deep_view(),
            q.deep_view(),
            answers.deep_view(),
        ),
{
    let (v, a) = asked(w, q, answers);
    match &a {
        Answer::Doc(d) => (v, Ok(d.copy())),
        _ => (v, Err(reason_of(&a))),
    }
}

/// Have an order placed.
pub open spec fn ask_placed_spec(
    w: WorkView,
    q: AskView,
    answers: Seq<AnswerView>,
) -> (WorkView, Result<ParsedOrderView, Seq<char>>) {
    let (v, a) = asked_spec(w, q, answers);
    match a {
        AnswerView::Placed(p) => (v, Ok(p)),
        _ => (v, Err(reason_of_spec(a))),
    }
}

/// Have an order placed.
pub fn ask_placed(
    w: Work,
    q: Ask,
    answers: &Vec<Answer>,
) -> (r: (Work, Result<ParsedOrder, String>))
    ensures
        (r.0.deep_view(), list::outcome(r.1)) == ask_placed_spec(
            w.deep_view(),
            q.deep_view(),
            answers.deep_view(),
        ),
{
    let (v, a) = asked(w, q, answers);
    match &a {
        Answer::Placed(p) => (v, Ok(p.dup())),
        _ => (v, Err(reason_of(&a))),
    }
}

/// Ask for a number the layer cannot go on without.
pub open spec fn need_number_spec(
    w: WorkView,
    q: AskView,
    answers: Seq<AnswerView>,
) -> (WorkView, Double) {
    let (v, got) = ask_number_spec(w, q, answers);
    if stopped_spec(v) {
        (v, Double::zero_spec())
    } else {
        match got {
            Ok(x) => (v, x),
            Err(e) => (failing_spec(v, e), Double::zero_spec()),
        }
    }
}

/// Ask for a number the layer cannot go on without.
pub fn need_number(w: Work, q: Ask, answers: &Vec<Answer>) -> (r: (Work, Double))
    ensures
        r.deep_view() == need_number_spec(w.deep_view(), q.deep_view(), answers.deep_view()),
{
    let (v, got) = ask_number(w, q, answers);
    if stopped(&v) {
        return (v, Double::zero());
    }
    match got {
        Ok(x) => (v, x),
        Err(e) => (failing(v, e), Double::zero()),
    }
}

/// Have something done the layer cannot go on without.
pub open spec fn need_done_spec(w: WorkView, q: AskView, answers: Seq<AnswerView>) -> WorkView {
    let (v, got) = ask_done_spec(w, q, answers);
    if stopped_spec(v) {
        v
    } else {
        match got {
            Some(e) => failing_spec(v, e),
            None => v,
        }
    }
}

/// Have something done the layer cannot go on without.
pub fn need_done(w: Work, q: Ask, answers: &Vec<Answer>) -> (r: Work)
    ensures
        r.deep_view() == need_done_spec(w.deep_view(), q.deep_view(), answers.deep_view()),
{
    let (v, got) = ask_done(w, q, answers);
    if stopped(&v) {
        return v;
    }
    match got {
        Some(e) => failing(v, e),
        None => v,
    }
}

/// Write the journal through.
pub open spec fn save_spec(w: WorkView, answers: Seq<AnswerView>) -> WorkView {
    need_done_spec(w, AskView::SaveJournal, answers)
}

/// Write the journal through.
pub fn save(w: Work, answers: &Vec<Answer>) -> (r: Work)
    ensures
        r.deep_view() == save_spec(w.deep_view(), answers.deep_view()),
{
    need_done(w, Ask::SaveJournal, answers)
}

/// Write the state.
pub open spec fn save_state_spec(w: WorkView, answers: Seq<AnswerView>) -> WorkView {
    need_done_spec(w, AskView::SaveState, answers)
}

/// Write the state.
pub fn save_state(w: Work, answers: &Vec<Answer>) -> (r: Work)
    ensures
        r.deep_view() == save_state_spec(w.deep_view(), answers.deep_view()),
{
    need_done(w, Ask::SaveState, answers)
}

/// A result of the layer that says nothing yet.
pub open spec fn result_spec(
    sym: Option<Seq<char>>,
    side: Option<Seq<char>>,
    committed: bool,
) -> RunResultView {
    RunResultView {
        sym,
        side,
        mode: Some("live"@),
        hk: true,
        deploy: true,
        audit: false,
        committed,
        done: None,
        warn: None,
        err: None,
        info: None,
    }
}

fn result(sym: Option<&str>, side: Option<&str>, committed: bool) -> (r: RunResult)
    ensures
        r.deep_view() == result_spec(sym.deep_view(), side.deep_view(), committed),
{
    RunResult {
        sym: list::own_text(sym),
        side: list::own_text(side),
        mode: Some(text::owned("live")),
        hk: true,
        deploy: true,
        audit: false,
        committed,
        done: None,
        warn: None,
        err: None,
        info: None,
    }
}

/// Report something that was done.
pub open spec fn say_done_spec(
    w: WorkView,
    sym: Option<Seq<char>>,
    side: Option<Seq<char>>,
    committed: bool,
    text: Seq<char>,
) -> WorkView {
    let r = result_spec(sym, side, committed);
    let r = RunResultView { done: Some(text), ..r };
    WorkView { out: w.out.push(r), ..w }
}

/// Report something that was done.
pub fn say_done(
    w: Work,
    sym: Option<&str>,
    side: Option<&str>,
    committed: bool,
    text: String,
) -> (r: Work)
    ensures
        r.deep_view() == say_done_spec(
            w.deep_view(),
            sym.deep_view(),
            side.deep_view(),
            committed,
            text@,
        ),
{
    let mut w = w;
    let mut r = result(sym, side, committed);
    r.done = Some(text);
    list::push(&mut w.out, r);
    w
}

/// Report a warning.
pub open spec fn say_warn_spec(
    w: WorkView,
    sym: Option<Seq<char>>,
    side: Option<Seq<char>>,
    text: Seq<char>,
) -> WorkView {
    let r = result_spec(sym, side, false);
    let r = RunResultView { warn: Some(text), ..r };
    WorkView { out: w.out.push(r), ..w }
}

/// Report a warning.
pub fn say_warn(w: Work, sym: Option<&str>, side: Option<&str>, text: String) -> (r: Work)
    ensures
        r.deep_view() == say_warn_spec(w.deep_view(), sym.deep_view(), side.deep_view(), text@),
{
    let mut w = w;
    let mut r = result(sym, side, false);
    r.warn = Some(text);
    list::push(&mut w.out, r);
    w
}

/// Report an error.
pub open spec fn say_err_spec(w: WorkView, text: Seq<char>) -> WorkView {
    let r = result_spec(None, None, false);
    let r = RunResultView { err: Some(text), ..r };
    WorkView { out: w.out.push(r), ..w }
}

/// Report an error.
pub fn say_err(w: Work, text: String) -> (r: Work)
    ensures
        r.deep_view() == say_err_spec(w.deep_view(), text@),
{
    let mut w = w;
    let mut r = result(list::text_ref(&None), list::text_ref(&None), false);
    r.err = Some(text);
    list::push(&mut w.out, r);
    w
}

/// Report something about no coin in particular that was done.
pub open spec fn done_spec(w: WorkView, text: Seq<char>) -> WorkView {
    say_done_spec(w, None, None, false, text)
}

/// Report something about no coin in particular that was done.
pub fn done(w: Work, text: String) -> (r: Work)
    ensures
        r.deep_view() == done_spec(w.deep_view(), text@),
{
    say_done(w, list::text_ref(&None), list::text_ref(&None), false, text)
}

/// Report a warning about no coin in particular.
pub open spec fn warn_spec(w: WorkView, text: Seq<char>) -> WorkView {
    say_warn_spec(w, None, None, text)
}

/// Report a warning about no coin in particular.
pub fn warn(w: Work, text: String) -> (r: Work)
    ensures
        r.deep_view() == warn_spec(w.deep_view(), text@),
{
    say_warn(w, list::text_ref(&None), list::text_ref(&None), text)
}

/// Write a row under its client id: in its place, or at the end.
pub open spec fn write_row_spec(w: WorkView, row: OrderView) -> WorkView {
    WorkView { journal: journal::put_row_spec(w.journal, row), ..w }
}

/// Write a row under its client id: in its place, or at the end.
pub fn write_row(w: Work, row: Order) -> (r: Work)
    ensures
        r.deep_view() == write_row_spec(w.deep_view(), row.deep_view()),
{
    let mut w = w;
    w.journal = journal::put_row(w.journal.dup(), row);
    w
}

/// Change the row under a client id, where there is one.
pub open spec fn revise_row_spec(w: WorkView, row: OrderView) -> WorkView {
    WorkView { journal: journal::change_row_spec(w.journal, row), ..w }
}

/// Change the row under a client id, where there is one.
pub fn revise_row(w: Work, row: Order) -> (r: Work)
    ensures
        r.deep_view() == revise_row_spec(w.deep_view(), row.deep_view()),
{
    let mut w = w;
    w.journal = journal::change_row(w.journal.dup(), row);
    w
}

/// Make sure of a venue's client; where there is none, that is its name, quoted: `'kraken'`.
pub open spec fn reach_spec(
    w: WorkView,
    exch: Seq<char>,
    answers: Seq<AnswerView>,
) -> (WorkView, Option<Seq<char>>) {
    let (v, got) = ask_done_spec(w, AskView::Client(exch), answers);
    if got is None {
        (v, None)
    } else {
        (v, Some("'"@ + exch + "'"@))
    }
}

/// Make sure of a venue's client; where there is none, that is its name, quoted: `'kraken'`.
pub fn reach(w: Work, exch: &str, answers: &Vec<Answer>) -> (r: (Work, Option<String>))
    ensures
        r.deep_view() == reach_spec(w.deep_view(), exch@, answers.deep_view()),
{
    let (v, got) = ask_done(w, Ask::Client(text::owned(exch)), answers);
    if got.is_none() {
        return (v, None);
    }
    let mut line = text::owned("'");
    line.push_str(exch);
    line.push_str("'");
    (v, Some(line))
}

/// Make sure of a venue's client the layer cannot go on without.
pub open spec fn need_client_spec(
    w: WorkView,
    exch: Seq<char>,
    answers: Seq<AnswerView>,
) -> WorkView {
    let (v, got) = reach_spec(w, exch, answers);
    if stopped_spec(v) {
        v
    } else {
        match got {
            Some(e) => failing_spec(v, e),
            None => v,
        }
    }
}

/// Make sure of a venue's client the layer cannot go on without.
pub fn need_client(w: Work, exch: &str, answers: &Vec<Answer>) -> (r: Work)
    ensures
        r.deep_view() == need_client_spec(w.deep_view(), exch@, answers.deep_view()),
{
    let (v, got) = reach(w, exch, answers);
    if stopped(&v) {
        return v;
    }
    match got {
        Some(e) => failing(v, e),
        None => v,
    }
}

/// Is `err` a venue saying the rung costs a few cents more than the free balance?
pub open spec fn short_by_pennies_spec(err: Seq<char>) -> bool {
    let t = text::lower_case(err);
    if text::holds(t, "balance_not_enough"@) || text::holds(t, "not enough balance"@) {
        true
    } else {
        text::holds(t, "insufficient"@)
            && (text::holds(t, "balance"@) || text::holds(t, "funds"@))
    }
}

/// Is `err` a venue saying the rung costs a few cents more than the free balance?
pub fn short_by_pennies(err: &str) -> (r: bool)
    ensures
        r == short_by_pennies_spec(err@),
{
    let t = text::lowercase(err);
    if text::contains(t.as_str(), "balance_not_enough")
        || text::contains(t.as_str(), "not enough balance") {
        return true;
    }
    text::contains(t.as_str(), "insufficient")
        && (text::contains(t.as_str(), "balance") || text::contains(t.as_str(), "funds"))
}

/// Whether a re-ladder covers a coin: an empty set means every coin.
pub open spec fn in_only_spec(only: Option<Seq<Seq<char>>>, sym: Seq<char>) -> bool {
    match only {
        Some(l) => l.len() == 0 || l.contains(sym),
        None => true,
    }
}

/// Whether a re-ladder covers a coin: an empty set means every coin.
pub fn in_only(only: Option<&Vec<String>>, sym: &str) -> (r: bool)
    ensures
        r == in_only_spec(only.deep_view(), sym@),
{
    match only {
        Some(l) => l.len() == 0 || list::holds(l, sym),
        None => true,
    }
}

/// A value as a number, 0 where it is none.
pub open spec fn num_or_zero_spec(v: Option<Doc>) -> Double {
    match v {
        Some(x) => match x.num() {
            Some(v) => v,
            None => Double::zero_spec(),
        },
        None => Double::zero_spec(),
    }
}

/// A value as a number, 0 where it is none.
pub fn num_or_zero(v: Option<&Json>) -> (r: Double)
    ensures
        r == num_or_zero_spec(v.deep_view()),
{
    let x = match v {
        Some(v) => v,
        None => {
            return Double::zero();
        },
    };
    match x.num() {
        Some(v) => v,
        None => Double::zero(),
    }
}

/// Whether a number is there and not zero.
pub open spec fn truthy_num_spec(x: Option<Double>) -> bool {
    match x {
        Some(v) => !v.eq_spec(Double::zero_spec()),
        None => false,
    }
}

/// Whether a number is there and not zero.
pub fn truthy_num(x: Option<Double>) -> (r: bool)
    ensures
        r == truthy_num_spec(x),
{
    let v = match x {
        Some(v) => v,
        None => {
            return false;
        },
    };
    !v.same(Double::zero())
}

/// Whether a number is there and not zero.
pub open spec fn truthy_int_spec(x: Option<i64>) -> bool {
    match x {
        Some(v) => v != 0,
        None => false,
    }
}

/// Whether a number is there and not zero.
pub fn truthy_int(x: Option<i64>) -> (r: bool)
    ensures
        r == truthy_int_spec(x),
{
    let v: i64 = match x {
        Some(v) => v,
        None => {
            return false;
        },
    };
    v != 0
}

/// Whether a row has a venue id.
pub open spec fn has_id_spec(o: OrderView) -> bool {
    match o.order_id {
        Some(v) => v != ""@,
        None => false,
    }
}

/// Whether a row has a venue id.
pub fn has_id(o: &Order) -> (r: bool)
    ensures
        r == has_id_spec(o.deep_view()),
{
    let v = match &o.order_id {
        Some(v) => v.as_str(),
        None => {
            return false;
        },
    };
    !text::same(v, "")
}

/// Among the first `n` entries.
pub open spec fn find_held_spec(
    cur: Seq<char>,
    xs: Seq<(Seq<char>, Balance)>,
    out: Balance,
    n: nat,
) -> Balance
    decreases n,
{
    if n == 0 {
        out
    } else {
        let out = find_held_spec(cur, xs, out, (n - 1) as nat);
        let it = xs[n - 1];
        let k = it.0;
        let v = it.1;
        if k == cur {
            v
        } else {
            out
        }
    }
}

fn find_held(cur: &str, xs: &Vec<(String, Balance)>, out: Balance) -> (r: Balance)
    ensures
        r == find_held_spec(cur@, xs.deep_view(), out, xs@.len()),
{
    let ghost out0 = out;
    let mut out = out;
    let mut i: usize = 0;
    while i < xs.len()
        invariant
            i <= xs@.len(),
            out == find_held_spec(cur@, xs.deep_view(), out0, i as nat),
        decreases xs@.len() - i,
    {
        let it = &xs[i];
        let k = it.0.as_str();
        let v = it.1;
        if text::same(k, cur) {
            out = v;
        }
        i = i + 1;
    }
    out
}

/// What a book holds of an asset.
pub open spec fn held_of_spec(book: Seq<(Seq<char>, Balance)>, cur: Seq<char>) -> Balance {
    let out = Balance { free: Double::zero_spec(), locked: Double::zero_spec() };
    find_held_spec(cur, book, out, book.len())
}

/// What a book holds of an asset.
pub fn held_of(book: &Vec<(String, Balance)>, cur: &str) -> (r: Balance)
    ensures
        r == held_of_spec(book.deep_view(), cur@),
{
    let mut out = Balance { free: Double::zero(), locked: Double::zero() };
    out = find_held(cur, book, out);
    out
}

/// Among the first `n` entries.
pub open spec fn find_free_spec(
    cur: Seq<char>,
    xs: Seq<(Seq<char>, Double)>,
    out: Double,
    n: nat,
) -> Double
    decreases n,
{
    if n == 0 {
        out
    } else {
        let out = find_free_spec(cur, xs, out, (n - 1) as nat);
        let it = xs[n - 1];
        let k = it.0;
        let v = it.1;
        if k == cur {
            v
        } else {
            out
        }
    }
}

fn find_free(cur: &str, xs: &Vec<(String, Double)>, out: Double) -> (r: Double)
    ensures
        r == find_free_spec(cur@, xs.deep_view(), out, xs@.len()),
{
    let ghost out0 = out;
    let mut out = out;
    let mut i: usize = 0;
    while i < xs.len()
        invariant
            i <= xs@.len(),
            out == find_free_spec(cur@, xs.deep_view(), out0, i as nat),
        decreases xs@.len() - i,
    {
        let it = &xs[i];
        let k = it.0.as_str();
        let v = it.1;
        if text::same(k, cur) {
            out = v;
        }
        i = i + 1;
    }
    out
}

/// What is free of an asset.
pub open spec fn free_in_spec(book: Seq<(Seq<char>, Double)>, cur: Seq<char>) -> Double {
    find_free_spec(cur, book, Double::zero_spec(), book.len())
}

/// What is free of an asset.
pub fn free_in(book: &Vec<(String, Double)>, cur: &str) -> (r: Double)
    ensures
        r == free_in_spec(book.deep_view(), cur@),
{
    let mut out = Double::zero();
    out = find_free(cur, book, out);
    out
}

/// Among the first `n` entries.
pub open spec fn find_weight_spec(
    sym: Seq<char>,
    xs: Seq<(Seq<char>, Double)>,
    out: Option<Double>,
    n: nat,
) -> Option<Double> {
    match out {
        Some(v) => Some(v),
        None => list::first_given(
            xs,
            |it: (Seq<char>, Double)| {
                let k = it.0;
                let v = it.1;
                if text::upper_case(k) == sym {
                    Some(v)
                } else {
                    None
                }
            },
            n,
        ),
    }
}

fn find_weight(sym: &str, xs: &Vec<(String, Double)>, out: Option<Double>) -> (r: Option<Double>)
    ensures
        r == find_weight_spec(sym@, xs.deep_view(), out, xs@.len()),
{
    let ghost out0 = out;
    let mut out = out;
    let mut i: usize = 0;
    while i < xs.len()
        invariant
            i <= xs@.len(),
            out == find_weight_spec(sym@, xs.deep_view(), out0, i as nat),
        decreases xs@.len() - i,
    {
        let it = &xs[i];
        let k = it.0.as_str();
        let v = it.1;
        if out.is_none() && text::same(text::uppercase(k).as_str(), sym) {
            out = Some(v);
        }
        assert(xs.deep_view()[i as int] == xs@[i as int].deep_view());
        assert(out == find_weight_spec(sym@, xs.deep_view(), out0, (i + 1) as nat));
        i = i + 1;
    }
    out
}

/// A coin's share of the allocation: the first entry of it, whatever its case.
pub open spec fn alloc_weight_spec(cfg: ConfigView, sym: Seq<char>) -> Double {
    let out: Option<Double> = None;
    let out = find_weight_spec(sym, cfg.deploy_alloc, out, cfg.deploy_alloc.len());
    match out {
        Some(v) => v,
        None => Double::zero_spec(),
    }
}

/// A coin's share of the allocation: the first entry of it, whatever its case.
pub fn alloc_weight(cfg: &Config, sym: &str) -> (r: Double)
    ensures
        r == alloc_weight_spec(cfg.deep_view(), sym@),
{
    let mut out: Option<Double> = None;
    out = find_weight(sym, &cfg.deploy_alloc, out);
    match out {
        Some(v) => v,
        None => Double::zero(),
    }
}

/// The first `n` of them.
pub open spec fn add_override_spec(
    xs: Seq<(Seq<char>, ZonesView)>,
    out: Seq<(Seq<char>, ZonesView)>,
    n: nat,
) -> Seq<(Seq<char>, ZonesView)> {
    out + Seq::new(
        n,
        |i: int| {
            let it = xs[i];
            let k = it.0;
            let v = it.1;
            (text::upper_case(k), v)
        },
    )
}

fn add_override(xs: &Vec<(String, Zones)>, out: Vec<(String, Zones)>) -> (r: Vec<(String, Zones)>)
    ensures
        r.deep_view() == add_override_spec(xs.deep_view(), out.deep_view(), xs@.len()),
{
    let ghost out0 = out.deep_view();
    let mut out = out;
    let mut i: usize = 0;
    while i < xs.len()
        invariant
            i <= xs@.len(),
            out.deep_view() == add_override_spec(xs.deep_view(), out0, i as nat),
        decreases xs@.len() - i,
    {
        let it = &xs[i];
        let k = it.0.as_str();
        let v = &it.1;
        list::push(&mut out, (text::uppercase(k), v.dup()));
        assert(out.deep_view() =~= add_override_spec(xs.deep_view(), out0, (i + 1) as nat));
        i = i + 1;
    }
    out
}

/// The coins' own zones, by name in capitals.
pub open spec fn overrides_spec(cfg: ConfigView) -> Seq<(Seq<char>, ZonesView)> {
    add_override_spec(
        cfg.deploy_zones,
        Seq::<(Seq<char>, ZonesView)>::empty(),
        cfg.deploy_zones.len(),
    )
}

/// The coins' own zones, by name in capitals.
pub fn overrides(cfg: &Config) -> (r: Vec<(String, Zones)>)
    ensures
        r.deep_view() == overrides_spec(cfg.deep_view()),
{
    let mut out: Vec<(String, Zones)> = list::none();
    out = add_override(&cfg.deploy_zones, out);
    out
}

/// Among the first `n` routes.
pub open spec fn find_quote_spec(
    exch: Seq<char>,
    xs: Seq<RouteView>,
    out: Option<Seq<char>>,
    n: nat,
) -> Option<Seq<char>> {
    match list::last_given(
        xs,
        |r: RouteView| if r.exch == exch {
            Some(r.quote)
        } else {
            None
        },
        n,
    ) {
        Some(v) => Some(v),
        None => out,
    }
}

fn find_quote(exch: &str, xs: &Vec<Route>, out: Option<String>) -> (r: Option<String>)
    ensures
        r.deep_view() == find_quote_spec(exch@, xs.deep_view(), out.deep_view(), xs@.len()),
{
    let ghost out0 = out.deep_view();
    let mut out = out;
    let mut i: usize = 0;
    while i < xs.len()
        invariant
            i <= xs@.len(),
            out.deep_view() == find_quote_spec(exch@, xs.deep_view(), out0, i as nat),
        decreases xs@.len() - i,
    {
        let r = &xs[i];
        if text::same(r.exch.as_str(), exch) {
            out = Some(text::owned(r.quote.as_str()));
        }
        assert(xs.deep_view()[i as int] == xs@[i as int].deep_view());
        assert(out.deep_view() == find_quote_spec(exch@, xs.deep_view(), out0, (i + 1) as nat));
        i = i + 1;
    }
    out
}

/// A venue's quote asset: the routed one (the last route wins), Revolut X USD and Binance USDC when
/// nothing routes there.
pub open spec fn quote_of_spec(cfg: ConfigView, exch: Seq<char>) -> Seq<char> {
    let out: Option<Seq<char>> = None;
    let out = find_quote_spec(exch, cfg.routing, out, cfg.routing.len());
    match out {
        Some(s) => s,
        None => if exch == "revx"@ {
            "USD"@
        } else if exch == "binance"@ {
            "USDC"@
        } else {
            ""@
        },
    }
}

/// A venue's quote asset: the routed one (the last route wins), Revolut X USD and Binance USDC when
/// nothing routes there.
pub fn quote_of(cfg: &Config, exch: &str) -> (r: String)
    ensures
        r@ == quote_of_spec(cfg.deep_view(), exch@),
{
    let mut out: Option<String> = None;
    out = find_quote(exch, &cfg.routing, out);
    match out {
        Some(s) => s,
        None => {
            if text::same(exch, "revx") {
                return text::owned("USD");
            }
            if text::same(exch, "binance") {
                return text::owned("USDC");
            }
            text::owned("")
        },
    }
}

/// Of the first `n` routes.
pub open spec fn add_quoted_spec(
    xs: Seq<RouteView>,
    out: Seq<Seq<char>>,
    n: nat,
) -> Seq<Seq<char>>
    decreases n,
{
    if n == 0 {
        out
    } else {
        let out = add_quoted_spec(xs, out, (n - 1) as nat);
        let r = xs[n - 1];
        if !out.contains(r.exch) {
            out.push(r.exch)
        } else {
            out
        }
    }
}

fn add_quoted(xs: &Vec<Route>, out: Vec<String>) -> (r: Vec<String>)
    ensures
        r.deep_view() == add_quoted_spec(xs.deep_view(), out.deep_view(), xs@.len()),
{
    let ghost out0 = out.deep_view();
    let mut out = out;
    let mut i: usize = 0;
    while i < xs.len()
        invariant
            i <= xs@.len(),
            out.deep_view() == add_quoted_spec(xs.deep_view(), out0, i as nat),
        decreases xs@.len() - i,
    {
        let r = &xs[i];
        if !list::holds(&out, r.exch.as_str()) {
            list::push(&mut out, text::owned(r.exch.as_str()));
        }
        i = i + 1;
    }
    out
}

/// The venues with a quote asset.
pub open spec fn quoted_venues_spec(cfg: ConfigView) -> Seq<Seq<char>> {
    let out = add_quoted_spec(cfg.routing, Seq::<Seq<char>>::empty(), cfg.routing.len());
    let out = if !out.contains("revx"@) {
        out.push("revx"@)
    } else {
        out
    };
    if !out.contains("binance"@) {
        out.push("binance"@)
    } else {
        out
    }
}

fn quoted_venues(cfg: &Config) -> (r: Vec<String>)
    ensures
        r.deep_view() == quoted_venues_spec(cfg.deep_view()),
{
    let mut out: Vec<String> = list::none();
    out = add_quoted(&cfg.routing, out);
    if !list::holds(&out, "revx") {
        list::push(&mut out, text::owned("revx"));
    }
    if !list::holds(&out, "binance") {
        list::push(&mut out, text::owned("binance"));
    }
    out
}

/// Of the first `n` venues.
pub open spec fn add_quote_spec(
    cfg: ConfigView,
    xs: Seq<Seq<char>>,
    out: Seq<(Seq<char>, Seq<char>)>,
    n: nat,
) -> Seq<(Seq<char>, Seq<char>)> {
    out + Seq::new(
        n,
        |i: int| {
            let e = xs[i];
            (e, quote_of_spec(cfg, e))
        },
    )
}

fn add_quote(
    cfg: &Config,
    xs: &Vec<String>,
    out: Vec<(String, String)>,
) -> (r: Vec<(String, String)>)
    ensures
        r.deep_view() == add_quote_spec(
            cfg.deep_view(),
            xs.deep_view(),
            out.deep_view(),
            xs@.len(),
        ),
{
    let ghost out0 = out.deep_view();
    let mut out = out;
    let mut i: usize = 0;
    while i < xs.len()
        invariant
            i <= xs@.len(),
            out.deep_view() == add_quote_spec(cfg.deep_view(), xs.deep_view(), out0, i as nat),
        decreases xs@.len() - i,
    {
        let e = xs[i].as_str();
        list::push(&mut out, (text::owned(e), quote_of(cfg, e)));
        assert(out.deep_view() =~= add_quote_spec(
            cfg.deep_view(),
            xs.deep_view(),
            out0,
            (i + 1) as nat,
        ));
        i = i + 1;
    }
    out
}

/// Quote asset per venue, by name.
pub open spec fn quotes_spec(cfg: ConfigView) -> Seq<(Seq<char>, Seq<char>)> {
    add_quote_spec(
        cfg,
        list::sorted_texts(quoted_venues_spec(cfg)),
        Seq::<(Seq<char>, Seq<char>)>::empty(),
        list::sorted_texts(quoted_venues_spec(cfg)).len(),
    )
}

/// Quote asset per venue, by name.
pub fn quotes(cfg: &Config) -> (r: Vec<(String, String)>)
    ensures
        r.deep_view() == quotes_spec(cfg.deep_view()),
{
    let mut out: Vec<(String, String)> = list::none();
    out = add_quote(cfg, &list::sort_texts(&quoted_venues(cfg)), out);
    out
}

/// Among the first `n` routes.
pub open spec fn find_route_spec(
    sym: Seq<char>,
    xs: Seq<RouteView>,
    out: Option<RouteView>,
    n: nat,
) -> Option<RouteView> {
    match out {
        Some(v) => Some(v),
        None => list::first_given(
            xs,
            |r: RouteView| if r.sym == sym {
                Some(r)
            } else {
                None
            },
            n,
        ),
    }
}

fn find_route(sym: &str, xs: &Vec<Route>, out: Option<Route>) -> (r: Option<Route>)
    ensures
        r.deep_view() == find_route_spec(sym@, xs.deep_view(), out.deep_view(), xs@.len()),
{
    let ghost out0 = out.deep_view();
    let mut out = out;
    let mut i: usize = 0;
    while i < xs.len()
        invariant
            i <= xs@.len(),
            out.deep_view() == find_route_spec(sym@, xs.deep_view(), out0, i as nat),
        decreases xs@.len() - i,
    {
        let r = &xs[i];
        if out.is_none() && text::same(r.sym.as_str(), sym) {
            out = Some(r.dup());
        }
        assert(xs.deep_view()[i as int] == xs@[i as int].deep_view());
        assert(out.deep_view() == find_route_spec(sym@, xs.deep_view(), out0, (i + 1) as nat));
        i = i + 1;
    }
    out
}

/// Where a coin trades: the first route of it.
pub open spec fn route_spec(cfg: ConfigView, sym: Seq<char>) -> Option<RouteView> {
    let out: Option<RouteView> = None;
    find_route_spec(sym, cfg.routing, out, cfg.routing.len())
}

/// Where a coin trades: the first route of it.
pub fn route(cfg: &Config, sym: &str) -> (r: Option<Route>)
    ensures
        r.deep_view() == route_spec(cfg.deep_view(), sym@),
{
    let mut out: Option<Route> = None;
    out = find_route(sym, &cfg.routing, out);
    out
}

/// Among the first `n` listings.
pub open spec fn find_listing_spec(
    sym: Seq<char>,
    xs: Seq<(Seq<char>, Seq<char>)>,
    out: Option<Seq<char>>,
    n: nat,
) -> Option<Seq<char>> {
    match out {
        Some(v) => Some(v),
        None => list::first_given(
            xs,
            |it: (Seq<char>, Seq<char>)| {
                let k = it.0;
                let v = it.1;
                if k == sym {
                    Some(v)
                } else {
                    None
                }
            },
            n,
        ),
    }
}

fn find_listing(sym: &str, xs: &Vec<(String, String)>, out: Option<String>) -> (r: Option<String>)
    ensures
        r.deep_view() == find_listing_spec(sym@, xs.deep_view(), out.deep_view(), xs@.len()),
{
    let ghost out0 = out.deep_view();
    let mut out = out;
    let mut i: usize = 0;
    while i < xs.len()
        invariant
            i <= xs@.len(),
            out.deep_view() == find_listing_spec(sym@, xs.deep_view(), out0, i as nat),
        decreases xs@.len() - i,
    {
        let it = &xs[i];
        let k = it.0.as_str();
        let v = it.1.as_str();
        if out.is_none() && text::same(k, sym) {
            out = Some(text::owned(v));
        }
        assert(xs.deep_view()[i as int] == xs@[i as int].deep_view());
        assert(out.deep_view() == find_listing_spec(sym@, xs.deep_view(), out0, (i + 1) as nat));
        i = i + 1;
    }
    out
}

/// A coin's Revolut X listing.
pub open spec fn revx_pair_spec(cfg: ConfigView, sym: Seq<char>) -> Option<Seq<char>> {
    let out: Option<Seq<char>> = None;
    find_listing_spec(sym, cfg.revx_pairs, out, cfg.revx_pairs.len())
}

fn revx_pair(cfg: &Config, sym: &str) -> (r: Option<String>)
    ensures
        r.deep_view() == revx_pair_spec(cfg.deep_view(), sym@),
{
    let mut out: Option<String> = None;
    out = find_listing(sym, &cfg.revx_pairs, out);
    out
}

/// Whether a route leads to a venue.
pub open spec fn routed_to_spec(r: Option<RouteView>, exch: Seq<char>) -> bool {
    match r {
        Some(x) => x.exch == exch,
        None => false,
    }
}

fn routed_to(r: Option<&Route>, exch: &str) -> (out: bool)
    ensures
        out == routed_to_spec(r.deep_view(), exch@),
{
    let x = match r {
        Some(v) => v,
        None => {
            return false;
        },
    };
    text::same(x.exch.as_str(), exch)
}

/// A coin's pair on a venue: its route there, else its Revolut X listing.
pub open spec fn pair_for_spec(
    cfg: ConfigView,
    exch: Seq<char>,
    sym: Seq<char>,
) -> Result<Seq<char>, Seq<char>> {
    let r = route_spec(cfg, sym);
    if exch == "revx"@ && !routed_to_spec(r, "revx"@) {
        match revx_pair_spec(cfg, sym) {
            Some(p) => Ok(p),
            None => Err("'"@ + sym + "'"@),
        }
    } else {
        match r {
            Some(x) => Ok(x.pair),
            None => Err("'"@ + sym + "'"@),
        }
    }
}

/// A coin's pair on a venue: its route there, else its Revolut X listing.
pub fn pair_for(cfg: &Config, exch: &str, sym: &str) -> (r: Result<String, String>)
    ensures
        list::outcome(r) == pair_for_spec(cfg.deep_view(), exch@, sym@),
{
    let r = route(cfg, sym);
    if text::same(exch, "revx") && !routed_to(list::borrow(&r), "revx") {
        match revx_pair(cfg, sym) {
            Some(p) => {
                return Ok(p);
            },
            None => {
                let mut line = text::owned("'");
                line.push_str(sym);
                line.push_str("'");
                return Err(line);
            },
        }
    }
    match r {
        Some(x) => Ok(text::owned(x.pair.as_str())),
        None => {
            let mut line2 = text::owned("'");
            line2.push_str(sym);
            line2.push_str("'");
            Err(line2)
        },
    }
}

/// Of the first `n` routes.
pub open spec fn add_routed_spec(
    exch: Seq<char>,
    xs: Seq<RouteView>,
    out: Seq<Seq<char>>,
    n: nat,
) -> Seq<Seq<char>> {
    out + list::gathered(
        xs,
        |r: RouteView| if r.exch == exch {
            Some(r.sym)
        } else {
            None
        },
        n,
    )
}

fn add_routed(exch: &str, xs: &Vec<Route>, out: Vec<String>) -> (r: Vec<String>)
    ensures
        r.deep_view() == add_routed_spec(exch@, xs.deep_view(), out.deep_view(), xs@.len()),
{
    let ghost out0 = out.deep_view();
    let mut out = out;
    let mut i: usize = 0;
    while i < xs.len()
        invariant
            i <= xs@.len(),
            out.deep_view() == add_routed_spec(exch@, xs.deep_view(), out0, i as nat),
        decreases xs@.len() - i,
    {
        let r = &xs[i];
        if text::same(r.exch.as_str(), exch) {
            list::push(&mut out, text::owned(r.sym.as_str()));
        }
        assert(out.deep_view() =~= add_routed_spec(exch@, xs.deep_view(), out0, (i + 1) as nat));
        i = i + 1;
    }
    out
}

/// Of the first `n` listings.
pub open spec fn add_listed_spec(
    xs: Seq<(Seq<char>, Seq<char>)>,
    out: Seq<Seq<char>>,
    n: nat,
) -> Seq<Seq<char>> {
    out + Seq::new(
        n,
        |i: int| {
            let it = xs[i];
            let k = it.0;
            k
        },
    )
}

fn add_listed(xs: &Vec<(String, String)>, out: Vec<String>) -> (r: Vec<String>)
    ensures
        r.deep_view() == add_listed_spec(xs.deep_view(), out.deep_view(), xs@.len()),
{
    let ghost out0 = out.deep_view();
    let mut out = out;
    let mut i: usize = 0;
    while i < xs.len()
        invariant
            i <= xs@.len(),
            out.deep_view() == add_listed_spec(xs.deep_view(), out0, i as nat),
        decreases xs@.len() - i,
    {
        let it = &xs[i];
        let k = it.0.as_str();
        list::push(&mut out, text::owned(k));
        assert(out.deep_view() =~= add_listed_spec(xs.deep_view(), out0, (i + 1) as nat));
        i = i + 1;
    }
    out
}

/// The coins a venue ladders: those routed there, or the Revolut X listings when nothing routes to
/// it.
pub open spec fn venue_syms_spec(cfg: ConfigView, exch: Seq<char>) -> Seq<Seq<char>> {
    let out = add_routed_spec(exch, cfg.routing, Seq::<Seq<char>>::empty(), cfg.routing.len());
    if exch == "revx"@ && out.len() == 0 {
        add_listed_spec(cfg.revx_pairs, out, cfg.revx_pairs.len())
    } else {
        out
    }
}

/// The coins a venue ladders: those routed there, or the Revolut X listings when nothing routes to
/// it.
pub fn venue_syms(cfg: &Config, exch: &str) -> (r: Vec<String>)
    ensures
        r.deep_view() == venue_syms_spec(cfg.deep_view(), exch@),
{
    let mut out: Vec<String> = list::none();
    out = add_routed(exch, &cfg.routing, out);
    if text::same(exch, "revx") && out.len() == 0 {
        out = add_listed(&cfg.revx_pairs, out);
    }
    out
}

/// Why the layer may not trade, if it may not.
pub open spec fn blocked_spec(cfg: ConfigView) -> Option<Seq<char>> {
    if !cfg.live_trading_enabled {
        Some("LIVE_TRADING_ENABLED is not 'yes'"@)
    } else {
        match cfg.halt_file {
            Some(p) => Some("halt file present ("@ + p + ")"@),
            None => None,
        }
    }
}

/// Why the layer may not trade, if it may not.
pub fn blocked(cfg: &Config) -> (r: Option<String>)
    ensures
        r.deep_view() == blocked_spec(cfg.deep_view()),
{
    if !cfg.live_trading_enabled {
        return Some(text::owned("LIVE_TRADING_ENABLED is not 'yes'"));
    }
    match &cfg.halt_file {
        Some(p) => {
            let mut line = text::owned("halt file present (");
            line.push_str(p.as_str());
            line.push_str(")");
            Some(line)
        },
        None => None,
    }
}

/// The label of a regime.
pub open spec fn label_of_spec(reg: Doc) -> Seq<char> {
    match reg.get("market"@) {
        Some(v) => match v.as_text() {
            Some(s) => s,
            None => pyfmt::shown(pyfmt::ordered_doc(v)),
        },
        None => "chop"@,
    }
}

/// The label of a regime.
pub fn label_of(reg: &Json) -> (r: String)
    ensures
        r@ == label_of_spec(reg@),
{
    match reg.get("market") {
        Some(v) => match v.as_str() {
            Some(s) => text::owned(s),
            None => pyfmt::value_str(v),
        },
        None => text::owned("chop"),
    }
}

/// The regime label, `chop` when it cannot be read.
pub open spec fn regime_label_spec(w: WorkView, answers: Seq<AnswerView>) -> (WorkView, Seq<char>) {
    let (v, got) = ask_doc_spec(w, AskView::Regime, answers);
    match got {
        Ok(d) => (v, label_of_spec(d)),
        Err(e) => (v, "chop"@),
    }
}

/// The regime label, `chop` when it cannot be read.
pub fn regime_label(w: Work, answers: &Vec<Answer>) -> (r: (Work, String))
    ensures
        r.deep_view() == regime_label_spec(w.deep_view(), answers.deep_view()),
{
    let (v, got) = ask_doc(w, Ask::Regime, answers);
    match got {
        Ok(d) => (v, label_of(&d)),
        Err(e) => (v, text::owned("chop")),
    }
}

/// Whether a venue has a client; nothing is asked by a step that stopped.
pub open spec fn ask_if_going_spec(
    w: WorkView,
    exch: Seq<char>,
    answers: Seq<AnswerView>,
) -> (WorkView, bool) {
    if stopped_spec(w) {
        (w, false)
    } else {
        let (v, got) = ask_done_spec(w, AskView::Client(exch), answers);
        if stopped_spec(v) {
            (v, false)
        } else {
            (v, got is None)
        }
    }
}

fn ask_if_going(w: Work, exch: &str, answers: &Vec<Answer>) -> (r: (Work, bool))
    ensures
        r.deep_view() == ask_if_going_spec(w.deep_view(), exch@, answers.deep_view()),
{
    if stopped(&w) {
        return (w, false);
    }
    let (v, got) = ask_done(w, Ask::Client(text::owned(exch)), answers);
    if stopped(&v) {
        return (v, false);
    }
    (v, got.is_none())
}

/// The first `n` of them.
pub open spec fn reach_each_spec(
    answers: Seq<AnswerView>,
    xs: Seq<Seq<char>>,
    w: WorkView,
    out: Seq<Seq<char>>,
    n: nat,
) -> (WorkView, Seq<Seq<char>>)
    decreases n,
{
    if n == 0 {
        (w, out)
    } else {
        let (w, out) = reach_each_spec(answers, xs, w, out, (n - 1) as nat);
        let e = xs[n - 1];
        let (v, got) = ask_if_going_spec(w, e, answers);
        let w = v;
        let out = if got {
            out.push(e)
        } else {
            out
        };
        (w, out)
    }
}

fn reach_each(
    answers: &Vec<Answer>,
    xs: &Vec<String>,
    w: Work,
    out: Vec<String>,
) -> (r: (Work, Vec<String>))
    ensures
        r.deep_view() == reach_each_spec(
            answers.deep_view(),
            xs.deep_view(),
            w.deep_view(),
            out.deep_view(),
            xs@.len(),
        ),
{
    let ghost w0 = w.deep_view();
    let ghost out0 = out.deep_view();
    let mut w = w;
    let mut out = out;
    let mut i: usize = 0;
    while i < xs.len()
        invariant
            i <= xs@.len(),
            (w.deep_view(), out.deep_view()) == reach_each_spec(
                answers.deep_view(),
                xs.deep_view(),
                w0,
                out0,
                i as nat,
            ),
        decreases xs@.len() - i,
    {
        let e = xs[i].as_str();
        let (v, got) = ask_if_going(w, e, answers);
        w = v;
        if got {
            list::push(&mut out, text::owned(e));
        }
        i = i + 1;
    }
    (w, out)
}

/// The venues that have a client, in the layer's order.
pub open spec fn clients_spec(w: WorkView, answers: Seq<AnswerView>) -> (WorkView, Seq<Seq<char>>) {
    let names = Seq::<Seq<char>>::empty().push("binance"@).push("gate"@).push("revx"@);
    reach_each_spec(answers, names, w, Seq::<Seq<char>>::empty(), names.len())
}

/// The venues that have a client, in the layer's order.
pub fn clients(w: Work, answers: &Vec<Answer>) -> (r: (Work, Vec<String>))
    ensures
        r.deep_view() == clients_spec(w.deep_view(), answers.deep_view()),
{
    let mut w = w;
    let mut names: Vec<String> = list::none();
    list::push(&mut names, text::owned("binance"));
    list::push(&mut names, text::owned("gate"));
    list::push(&mut names, text::owned("revx"));
    let mut out: Vec<String> = list::none();
    let (next_w, next_out) = reach_each(answers, &names, w, out);
    w = next_w;
    out = next_out;
    (w, out)
}

proof fn lemma_last_held(
    cur: Seq<char>,
    xs: Seq<(Seq<char>, Balance)>,
    out: Balance,
    n: nat,
    i: int,
)
    requires
        n <= xs.len(),
        0 <= i < n ==> xs[i].0 == cur,
        forall|j: int| i < j < n && 0 <= j ==> (#[trigger] xs[j]).0 != cur,
        -1 <= i < n,
    ensures
        find_held_spec(cur, xs, out, n) == (if i >= 0 {
            xs[i].1
        } else {
            out
        }),
    decreases n,
{
    if n > 0 {
        if i < n - 1 {
            assert(xs[n - 1].0 != cur);
            lemma_last_held(cur, xs, out, (n - 1) as nat, i);
        }
    }
}

/// What is held of an asset is its last entry in the book.
pub proof fn law_the_last_entry_of_an_asset_is_held(
    book: Seq<(Seq<char>, Balance)>,
    cur: Seq<char>,
    i: int,
)
    requires
        0 <= i < book.len(),
        book[i].0 == cur,
        forall|j: int| i < j < book.len() ==> (#[trigger] book[j]).0 != cur,
    ensures
        held_of_spec(book, cur) == book[i].1,
{
    let none = Balance { free: Double::zero_spec(), locked: Double::zero_spec() };
    lemma_last_held(cur, book, none, book.len(), i);
}

/// Of an asset that is not in the book nothing is held.
pub proof fn law_nothing_is_held_of_a_missing_asset(book: Seq<(Seq<char>, Balance)>, cur: Seq<char>)
    requires
        forall|j: int| 0 <= j < book.len() ==> (#[trigger] book[j]).0 != cur,
    ensures
        held_of_spec(book, cur).free.amount() == 0,
        held_of_spec(book, cur).locked.amount() == 0,
{
    let none = Balance { free: Double::zero_spec(), locked: Double::zero_spec() };
    crate::double::lemma_scaled_zero();
    lemma_last_held(cur, book, none, book.len(), -1);
}

proof fn lemma_last_free(
    cur: Seq<char>,
    xs: Seq<(Seq<char>, Double)>,
    out: Double,
    n: nat,
    i: int,
)
    requires
        n <= xs.len(),
        0 <= i < n ==> xs[i].0 == cur,
        forall|j: int| i < j < n && 0 <= j ==> (#[trigger] xs[j]).0 != cur,
        -1 <= i < n,
    ensures
        find_free_spec(cur, xs, out, n) == (if i >= 0 {
            xs[i].1
        } else {
            out
        }),
    decreases n,
{
    if n > 0 {
        if i < n - 1 {
            assert(xs[n - 1].0 != cur);
            lemma_last_free(cur, xs, out, (n - 1) as nat, i);
        }
    }
}

/// What is free of an asset is its last entry in the book, and nothing where it has none.
pub proof fn law_the_last_entry_of_an_asset_is_free(
    book: Seq<(Seq<char>, Double)>,
    cur: Seq<char>,
    i: int,
)
    requires
        -1 <= i < book.len(),
        0 <= i ==> book[i].0 == cur,
        forall|j: int| i < j < book.len() && 0 <= j ==> (#[trigger] book[j]).0 != cur,
    ensures
        i >= 0 ==> free_in_spec(book, cur) == book[i].1,
        i < 0 ==> free_in_spec(book, cur).amount() == 0,
{
    crate::double::lemma_scaled_zero();
    lemma_last_free(cur, book, Double::zero_spec(), book.len(), i);
}

/// The layer trades exactly while live trading is on and no halt file is there.
pub proof fn law_trading_takes_consent_and_no_halt(cfg: ConfigView)
    ensures
        blocked_spec(cfg) is None <==> cfg.live_trading_enabled && cfg.halt_file is None,
{
}

/// A re-ladder of some coins covers those, and one of none covers all.
pub proof fn law_an_empty_choice_is_every_coin(only: Seq<Seq<char>>, sym: Seq<char>)
    ensures
        in_only_spec(None, sym),
        in_only_spec(Some(Seq::empty()), sym),
        only.len() > 0 ==> (in_only_spec(Some(only), sym) <==> only.contains(sym)),
{
}

/// A coin trades on its own route's pair, and on Revolut X only under a Revolut X pair.
pub proof fn law_a_coin_trades_on_its_venues_pair(
    cfg: ConfigView,
    exch: Seq<char>,
    sym: Seq<char>,
)
    ensures
        route_spec(cfg, sym) matches Some(r) ==> (r.exch == exch ==> pair_for_spec(cfg, exch, sym)
            == Ok::<Seq<char>, Seq<char>>(r.pair)),
        exch == "revx"@ && !routed_to_spec(route_spec(cfg, sym), "revx"@) ==> (
        pair_for_spec(cfg, exch, sym) matches Ok(p) ==> revx_pair_spec(cfg, sym) == Some(p)),
        exch == "revx"@ && route_spec(cfg, sym) is None && revx_pair_spec(cfg, sym) is None
            ==> pair_for_spec(cfg, exch, sym) is Err,
{
}

proof fn lemma_first_weight(sym: Seq<char>, xs: Seq<(Seq<char>, Double)>, n: nat, i: int)
    requires
        0 <= i < n <= xs.len(),
        text::upper_case(xs[i].0) == sym,
        forall|j: int| 0 <= j < i ==> text::upper_case((#[trigger] xs[j]).0) != sym,
    ensures
        find_weight_spec(sym, xs, None, n) == Some(xs[i].1),
    decreases n,
{
    let give = |it: (Seq<char>, Double)|
        {
            let k = it.0;
            let v = it.1;
            if text::upper_case(k) == sym {
                Some(v)
            } else {
                None
            }
        };
    assert(find_weight_spec(sym, xs, None, n) == list::first_given(xs, give, n));
    assert(find_weight_spec(sym, xs, None, (n - 1) as nat) == list::first_given(
        xs,
        give,
        (n - 1) as nat,
    ));
    if i < n - 1 {
        lemma_first_weight(sym, xs, (n - 1) as nat, i);
    } else {
        lemma_no_weight(sym, xs, (n - 1) as nat);
    }
}

proof fn lemma_no_weight(sym: Seq<char>, xs: Seq<(Seq<char>, Double)>, n: nat)
    requires
        n <= xs.len(),
        forall|j: int| 0 <= j < n ==> text::upper_case((#[trigger] xs[j]).0) != sym,
    ensures
        find_weight_spec(sym, xs, None, n) is None,
    decreases n,
{
    let give = |it: (Seq<char>, Double)|
        {
            let k = it.0;
            let v = it.1;
            if text::upper_case(k) == sym {
                Some(v)
            } else {
                None
            }
        };
    assert(find_weight_spec(sym, xs, None, n) == list::first_given(xs, give, n));
    if n > 0 {
        assert(find_weight_spec(sym, xs, None, (n - 1) as nat) == list::first_given(
            xs,
            give,
            (n - 1) as nat,
        ));
        assert(text::upper_case(xs[n - 1].0) != sym);
        lemma_no_weight(sym, xs, (n - 1) as nat);
    }
}

/// A coin's weight is the first entry of it, whatever its case.
pub proof fn law_a_coins_weight_is_its_first_entry(cfg: ConfigView, sym: Seq<char>, i: int)
    requires
        0 <= i < cfg.deploy_alloc.len(),
        text::upper_case(cfg.deploy_alloc[i].0) == sym,
        forall|j: int|
            0 <= j < i ==> text::upper_case((#[trigger] cfg.deploy_alloc[j]).0) != sym,
    ensures
        alloc_weight_spec(cfg, sym) == cfg.deploy_alloc[i].1,
{
    lemma_first_weight(sym, cfg.deploy_alloc, cfg.deploy_alloc.len(), i);
}

/// A coin without an entry has no weight.
pub proof fn law_a_coin_without_an_entry_has_no_weight(cfg: ConfigView, sym: Seq<char>)
    requires
        forall|j: int|
            0 <= j < cfg.deploy_alloc.len() ==> text::upper_case((#[trigger] cfg.deploy_alloc[j]).0)
                != sym,
    ensures
        alloc_weight_spec(cfg, sym).amount() == 0,
{
    crate::double::lemma_scaled_zero();
    lemma_no_weight(sym, cfg.deploy_alloc, cfg.deploy_alloc.len());
}

} // verus!
