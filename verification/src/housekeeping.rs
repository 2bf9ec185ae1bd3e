//! What a live run does before it looks at a single new signal.
//!
//! [`run`] takes the journal, the ladder state, the stale-order flags, the P&L ledger
//! and the venue balances, and does, in this order:
//!
//! 1. **Book every new fill** that reconciling with the venues found:
//!    * a filled market buy sets the fill-based cost basis and pairs a resting limit sell
//!      at fill +target net of the sell fee (no pair while the bull sell policy governs
//!      the coin: the buy is a core add);
//!    * a filled deploy buy is a core add: cost basis, no pair, no trade window. A fill on
//!      Revolut X for a coin routed elsewhere stays out of the ladder state;
//!    * a filled sell is logged to the P&L ledger and opens a sell window.
//! 2. **Retry failed limit sells**: adopt the order when it rests at the venue after all
//!    (same id, or a price within 0.3%), else place it again, five tries at most.
//! 3. **Manage resting limit sells**: move a sell whose price fell below the current
//!    cost-basis target up to it (a trailing coin's target rides the venue price instead),
//!    restoring the old cover at once if the venue refuses the new price; flag orders
//!    older than the regime's TTL, once per re-nag window.
//! 4. **Holding drift**: compare each coin's venue holding with the last snapshot plus
//!    what the journal booked since, per order. Venues whose balance read failed are
//!    skipped and carry their snapshot forward. The first run with no per-order snapshot
//!    only writes one.
//!
//! Steps 2 and 3 place orders and are skipped while trading is blocked; drift always runs.
//! Every step reports [`Outcome`]s whose texts are the mail and decision-log lines.
//!
//! A step that fails outright (an unknown venue, an order that cannot be printed) ends
//! that step with one `reconcile: ...` or `housekeeping: ...` error, and what it changed
//! before stays changed. The callers own every file: nothing here reads or writes one.
//!
//! # Questions and answers
//!
//! Nothing here talks to a venue either. Each step is a function of the [`Answer`]s it has
//! had so far: the [`Work`] it returns either holds the next [`Ask`] in `ask`, together with
//! the books as they stand at that moment (so that an order is journaled before it is sent),
//! or it is finished. The caller performs what is asked, appends the answer and calls again
//! with the books it started from.
use crate::ids;
use crate::journal;
use crate::journal::{Journal, Order, OrderView, Side};
use crate::venue::{Balance, ParsedOrder, ParsedOrderView};
use crate::double::Double;
use crate::list;
use crate::list::Duplicate;
use crate::pyfmt;
use crate::rounding;
use crate::text;
use crate::watch::fields;
use crate::watch::json;
use crate::watch::json::{Doc, Json};
use indexmap::IndexMap;
use vstd::prelude::*;

verus! {

/// A limit sell whose placement failed is retried this many times, then handed over.
pub const MAX_SELL_RETRIES: i64 = 5;

/// Text for a value that is missing where a line has to print it.
pub const NONE_FORMAT: &'static str =
    "unsupported format string passed to NoneType.__format__";

// ------------------------------------------------------------------ flags
/// The entries of a map of flags, in their order.
pub uninterp spec fn flags_in(m: IndexMap<String, Double>) -> Seq<(Seq<char>, Double)>;

/// The place of an id among flags at or after `i`, or their number.
pub open spec fn flag_place(flags: Seq<(Seq<char>, Double)>, cid: Seq<char>, i: int) -> int
    decreases flags.len() - i,
{
    if i >= flags.len() {
        flags.len() as int
    } else if flags[i].0 == cid {
        i
    } else {
        flag_place(flags, cid, i + 1)
    }
}

/// When an order was last flagged.
pub open spec fn flag_of_spec(flags: Seq<(Seq<char>, Double)>, cid: Seq<char>) -> Option<Double> {
    if flag_place(flags, cid, 0) < flags.len() {
        Some(flags[flag_place(flags, cid, 0)].1)
    } else {
        None
    }
}

/// The flags with one raised: in its place, or at the end.
pub open spec fn put_flag_spec(flags: Seq<(Seq<char>, Double)>, cid: Seq<char>, now: Double) -> Seq<
    (Seq<char>, Double),
> {
    if flag_place(flags, cid, 0) < flags.len() {
        flags.update(flag_place(flags, cid, 0), (cid, now))
    } else {
        flags.push((cid, now))
    }
}

/// Whether a flag stays: that of an open order, or of one more.
pub open spec fn stays_spec(k: Seq<char>, cid: Seq<char>, open: Seq<Seq<char>>) -> bool {
    open.contains(k) || k == cid
}

/// The flags of open orders, and of one more.
pub open spec fn keep_flags_spec(
    flags: Seq<(Seq<char>, Double)>,
    cid: Seq<char>,
    open: Seq<Seq<char>>,
) -> Seq<(Seq<char>, Double)> {
    list::kept(flags, |e: (Seq<char>, Double)| stays_spec(e.0, cid, open), flags.len())
}

fn stays(k: &str, cid: &str, open: &Vec<String>) -> (r: bool)
    ensures
        r == stays_spec(k@, cid@, open.deep_view()),
{
    list::holds(open, k) || text::same(k, cid)
}

/// `IndexMap::new`: a map without entries.
#[verifier::external_body]
fn no_flags() -> (r: IndexMap<String, Double>)
    ensures
        flags_in(r) == Seq::<(Seq<char>, Double)>::empty(),
{
    IndexMap::new()
}

/// `IndexMap::len`: the number of entries.
#[verifier::external_body]
fn flag_count(m: &IndexMap<String, Double>) -> (r: usize)
    ensures
        r == flags_in(*m).len(),
{
    m.len()
}

/// `IndexMap::get_index`: the entry at a place, where there is one. No other entry has its key.
#[verifier::external_body]
fn flag_at(m: &IndexMap<String, Double>, i: usize) -> (r: Option<(&String, &Double)>)
    ensures
        match r {
            Some(p) => i < flags_in(*m).len() && flags_in(*m)[i as int] == (p.0@, *p.1)
                && flag_place(flags_in(*m), p.0@, 0) == i,
            None => i >= flags_in(*m).len(),
        },
{
    m.get_index(i)
}

/// `IndexMap::get`: the value under a key, where there is one.
#[verifier::external_body]
fn find_flag<'a>(m: &'a IndexMap<String, Double>, cid: &str) -> (r: Option<&'a Double>)
    ensures
        match r {
            Some(x) => flag_of_spec(flags_in(*m), cid@) == Some(*x),
            None => flag_of_spec(flags_in(*m), cid@) is None,
        },
{
    m.get(cid)
}

/// `IndexMap::insert`: a key that is there keeps its place and takes the value, another one
/// comes last.
#[verifier::external_body]
fn write_flag(m: &mut IndexMap<String, Double>, cid: String, now: Double)
    ensures
        flags_in(*final(m)) == put_flag_spec(flags_in(*old(m)), cid@, now),
{
    m.insert(cid, now);
}

/// `IndexMap::retain`: the entries of which something holds, in their order.
#[verifier::external_body]
fn retain_flags(m: &mut IndexMap<String, Double>, cid: &str, open: &Vec<String>)
    ensures
        flags_in(*final(m)) == keep_flags_spec(flags_in(*old(m)), cid@, open.deep_view()),
{
    m.retain(|k, _| stays(k, cid, open));
}

/// Stale-order flags: when each order was last flagged, in the order in which they first were.
#[derive(Debug)]
pub struct TtlWarned {
    pub flags: IndexMap<String, Double>,
}

impl DeepView for TtlWarned {
    type V = Seq<(Seq<char>, Double)>;

    open spec fn deep_view(&self) -> Seq<(Seq<char>, Double)> {
        flags_in(self.flags)
    }
}

impl Default for TtlWarned {
    fn default() -> (r: TtlWarned)
        ensures
            r.deep_view() == Seq::<(Seq<char>, Double)>::empty(),
    {
        TtlWarned { flags: no_flags() }
    }
}

proof fn lemma_flag_place(flags: Seq<(Seq<char>, Double)>, cid: Seq<char>, i: int)
    requires
        0 <= i <= flags.len(),
    ensures
        i <= flag_place(flags, cid, i) <= flags.len(),
        flag_place(flags, cid, i) < flags.len() ==> flags[flag_place(flags, cid, i)].0 == cid,
        forall|k: int| i <= k < flag_place(flags, cid, i) ==> flags[k].0 != cid,
    decreases flags.len() - i,
{
    if i < flags.len() && flags[i].0 != cid {
        lemma_flag_place(flags, cid, i + 1);
    }
}

impl Duplicate for TtlWarned {
    fn dup(&self) -> (r: TtlWarned) {
        let ghost all = self.deep_view();
        let n: usize = flag_count(&self.flags);
        let mut m = no_flags();
        let mut i: usize = 0;
        assert(flags_in(m) =~= all.take(0));
        while i < n
            invariant
                i <= n,
                all == self.deep_view(),
                n == all.len(),
                flags_in(m) == all.take(i as int),
            decreases n - i,
        {
            match flag_at(&self.flags, i) {
                Some((k, x)) => {
                    proof {
                        lemma_flag_place(all, k@, 0);
                        lemma_flag_place(all.take(i as int), k@, 0);
                    }
                    write_flag(&mut m, text::owned(k.as_str()), *x);
                    assert(flags_in(m) =~= all.take(i + 1));
                },
                None => {
                    assert(false);
                },
            }
            i = i + 1;
        }
        assert(all.take(n as int) =~= all);
        TtlWarned { flags: m }
    }
}

/// When an order was last flagged.
pub fn flag_of(ttl: &TtlWarned, cid: &str) -> (r: Option<Double>)
    ensures
        r == flag_of_spec(ttl.deep_view(), cid@),
{
    match find_flag(&ttl.flags, cid) {
        Some(x) => Some(*x),
        None => None,
    }
}

/// The flags with one raised.
pub fn put_flag(ttl: TtlWarned, cid: &str, now: Double) -> (r: TtlWarned)
    ensures
        r.deep_view() == put_flag_spec(ttl.deep_view(), cid@, now),
{
    let mut r = ttl;
    write_flag(&mut r.flags, text::owned(cid), now);
    r
}

/// The flags of open orders, and of one more.
fn keep_flags(ttl: TtlWarned, cid: &str, open: &Vec<String>) -> (r: TtlWarned)
    ensures
        r.deep_view() == keep_flags_spec(ttl.deep_view(), cid@, open.deep_view()),
{
    let mut r = ttl;
    retain_flags(&mut r.flags, cid, open);
    r
}

/// Where a coin trades.
#[derive(Debug)]
pub struct Route {
    pub sym: String,
    pub exch: String,
    pub pair: String,
    pub quote: String,
}

/// What a [`Route`] holds.
pub struct RouteView {
    pub sym: Seq<char>,
    pub exch: Seq<char>,
    pub pair: Seq<char>,
    pub quote: Seq<char>,
}

impl DeepView for Route {
    type V = RouteView;

    open spec fn deep_view(&self) -> RouteView {
        RouteView {
            sym: self.sym@,
            exch: self.exch@,
            pair: self.pair@,
            quote: self.quote@,
        }
    }
}

impl Duplicate for Route {
    fn dup(&self) -> (r: Route) {
        Route {
            sym: text::owned(self.sym.as_str()),
            exch: text::owned(self.exch.as_str()),
            pair: text::owned(self.pair.as_str()),
            quote: text::owned(self.quote.as_str()),
        }
    }
}

/// The knobs housekeeping reads. Defaults are the documented defaults.
#[derive(Debug)]
pub struct Settings {
    /// Take-profit over the fill, in percent, net of the sell fee.
    pub target_pct: Double,
    /// How long a filled sell blocks the buy side, in hours.
    pub window_hours: Double,
    /// Stale-order warning age in a bull market, days. 0 turns the warning off.
    pub limit_ttl_days: Double,
    pub limit_ttl_days_bear: Double,
    pub limit_ttl_days_chop: Double,
    /// Re-flag a still-stale order after this many days. 0 = flag once, ever.
    pub ttl_renag_days: Double,
    /// Coin -> venue and pair, in the order drift reports coins.
    pub routing: Vec<Route>,
    /// Seed cost basis per coin, used until the state records one.
    pub entries: Vec<(String, Double)>,
}

/// What a [`Settings`] holds.
pub struct SettingsView {
    pub target_pct: Double,
    pub window_hours: Double,
    pub limit_ttl_days: Double,
    pub limit_ttl_days_bear: Double,
    pub limit_ttl_days_chop: Double,
    pub ttl_renag_days: Double,
    pub routing: Seq<RouteView>,
    pub entries: Seq<(Seq<char>, Double)>,
}

impl DeepView for Settings {
    type V = SettingsView;

    open spec fn deep_view(&self) -> SettingsView {
        SettingsView {
            target_pct: self.target_pct,
            window_hours: self.window_hours,
            limit_ttl_days: self.limit_ttl_days,
            limit_ttl_days_bear: self.limit_ttl_days_bear,
            limit_ttl_days_chop: self.limit_ttl_days_chop,
            ttl_renag_days: self.ttl_renag_days,
            routing: self.routing.deep_view(),
            entries: self.entries.deep_view(),
        }
    }
}

/// How a result reads: done, warn or err.
#[derive(Clone, Copy, Debug, PartialEq, Eq, Structural)]
pub enum Level {
    Done,
    Warn,
    Fail,
}

impl DeepView for Level {
    type V = Level;

    open spec fn deep_view(&self) -> Level {
        *self
    }
}

/// A level's name.
pub open spec fn level_name_spec(l: Level) -> Seq<char> {
    match l {
        Level::Done => "done"@,
        Level::Warn => "warn"@,
        Level::Fail => "err"@,
    }
}

fn level_name(l: Level) -> (r: String)
    ensures
        r@ == level_name_spec(l),
{
    match l {
        Level::Done => text::owned("done"),
        Level::Warn => text::owned("warn"),
        Level::Fail => text::owned("err"),
    }
}

/// One result line.
#[derive(Debug)]
pub struct Outcome {
    pub sym: Option<String>,
    pub side: Option<String>,
    pub mode: String,
    /// Housekeeping: never rolled back with a signal.
    pub hk: bool,
    /// An order went to a venue.
    pub committed: bool,
    pub level: Level,
    pub text: String,
}

/// What a [`Outcome`] holds.
pub struct OutcomeView {
    pub sym: Option<Seq<char>>,
    pub side: Option<Seq<char>>,
    pub mode: Seq<char>,
    pub hk: bool,
    pub committed: bool,
    pub level: Level,
    pub text: Seq<char>,
}

impl DeepView for Outcome {
    type V = OutcomeView;

    open spec fn deep_view(&self) -> OutcomeView {
        OutcomeView {
            sym: self.sym.deep_view(),
            side: self.side.deep_view(),
            mode: self.mode@,
            hk: self.hk,
            committed: self.committed,
            level: self.level,
            text: self.text@,
        }
    }
}

/// A result of a live housekeeping step.
pub open spec fn outcome_spec(
    sym: Option<Seq<char>>,
    level: Level,
    text: Seq<char>,
) -> OutcomeView {
    OutcomeView { sym, side: None, mode: "live"@, hk: true, committed: false, level, text }
}

fn outcome(sym: Option<&str>, level: Level, text: String) -> (r: Outcome)
    ensures
        r.deep_view() == outcome_spec(sym.deep_view(), level, text@),
{
    Outcome {
        sym: list::own_text(sym),
        side: None,
        mode: text::owned("live"),
        hk: true,
        committed: false,
        level,
        text,
    }
}

/// A result of an order of this side that went to a venue.
pub open spec fn on_side_spec(o: OutcomeView, side: Seq<char>) -> OutcomeView {
    let o = OutcomeView { side: Some(side), ..o };
    OutcomeView { committed: true, ..o }
}

fn on_side(o: Outcome, side: &str) -> (r: Outcome)
    ensures
        r.deep_view() == on_side_spec(o.deep_view(), side@),
{
    let mut o = o;
    o.side = Some(text::owned(side));
    o.committed = true;
    o
}

/// A result of an order that went to a venue.
pub open spec fn sent_spec(o: OutcomeView) -> OutcomeView {
    OutcomeView { committed: true, ..o }
}

fn sent(o: Outcome) -> (r: Outcome)
    ensures
        r.deep_view() == sent_spec(o.deep_view()),
{
    let mut o = o;
    o.committed = true;
    o
}

/// A result as an object: `{sym, side, mode, hk, committed, done|warn|err}`, absent keys left
/// out.
pub open spec fn outcome_json_spec(o: OutcomeView) -> Doc {
    let m = Doc::obj();
    let m = match o.sym {
        Some(s) => m.set("sym"@, Doc::Str(s)),
        None => m,
    };
    let m = match o.side {
        Some(s) => m.set("side"@, Doc::Str(s)),
        None => m,
    };
    let m = m.set("mode"@, Doc::Str(o.mode));
    let m = if o.hk {
        m.set("hk"@, Doc::Bool(true))
    } else {
        m
    };
    let m = if o.committed {
        m.set("committed"@, Doc::Bool(true))
    } else {
        m
    };
    m.set(level_name_spec(o.level), Doc::Str(o.text))
}

fn outcome_json(o: &Outcome) -> (r: Json)
    ensures
        r@ == outcome_json_spec(o.deep_view()),
{
    let mut m = Json::obj();
    match &o.sym {
        Some(s) => {
            m.set("sym", Json::text(s.as_str()));
        },
        None => {},
    }
    match &o.side {
        Some(s) => {
            m.set("side", Json::text(s.as_str()));
        },
        None => {},
    }
    m.set("mode", Json::text(o.mode.as_str()));
    if o.hk {
        m.set("hk", Json::Bool(true));
    }
    if o.committed {
        m.set("committed", Json::Bool(true));
    }
    m.set(level_name(o.level).as_str(), Json::text(o.text.as_str()));
    m
}

/// What a venue holds, by asset.
#[derive(Debug)]
pub struct VenueBook {
    pub venue: String,
    pub assets: Vec<(String, Balance)>,
}

/// What a [`VenueBook`] holds.
pub struct VenueBookView {
    pub venue: Seq<char>,
    pub assets: Seq<(Seq<char>, Balance)>,
}

impl DeepView for VenueBook {
    type V = VenueBookView;

    open spec fn deep_view(&self) -> VenueBookView {
        VenueBookView {
            venue: self.venue@,
            assets: self.assets.deep_view(),
        }
    }
}

/// Venue balances for this run.
#[derive(Debug)]
pub struct Balances {
    pub full: Vec<VenueBook>,
    /// Venues whose balance read failed this run.
    pub failed: Vec<String>,
}

/// What a [`Balances`] holds.
pub struct BalancesView {
    pub full: Seq<VenueBookView>,
    pub failed: Seq<Seq<char>>,
}

impl DeepView for Balances {
    type V = BalancesView;

    open spec fn deep_view(&self) -> BalancesView {
        BalancesView {
            full: self.full.deep_view(),
            failed: self.failed.deep_view(),
        }
    }
}

/// Among the first `n` venues.
pub open spec fn find_book_spec(
    exch: Seq<char>,
    xs: Seq<VenueBookView>,
    out: Seq<(Seq<char>, Balance)>,
    n: nat,
) -> Seq<(Seq<char>, Balance)>
    decreases n,
{
    if n == 0 {
        out
    } else {
        let out = find_book_spec(exch, xs, out, (n - 1) as nat);
        let v = xs[n - 1];
        if v.venue == exch {
            v.assets
        } else {
            out
        }
    }
}

fn find_book(
    exch: &str,
    xs: &Vec<VenueBook>,
    out: Vec<(String, Balance)>,
) -> (r: Vec<(String, Balance)>)
    ensures
        r.deep_view() == find_book_spec(exch@, xs.deep_view(), out.deep_view(), xs@.len()),
{
    let ghost out0 = out.deep_view();
    let mut out = out;
    let mut i: usize = 0;
    while i < xs.len()
        invariant
            i <= xs@.len(),
            out.deep_view() == find_book_spec(exch@, xs.deep_view(), out0, i as nat),
        decreases xs@.len() - i,
    {
        let v = &xs[i];
        if text::same(v.venue.as_str(), exch) {
            out = v.assets.dup();
        }
        i = i + 1;
    }
    out
}

/// What is held on a venue; the last read of it counts.
pub open spec fn book_of_spec(b: BalancesView, exch: Seq<char>) -> Seq<(Seq<char>, Balance)> {
    find_book_spec(exch, b.full, Seq::<(Seq<char>, Balance)>::empty(), b.full.len())
}

fn book_of(b: &Balances, exch: &str) -> (r: Vec<(String, Balance)>)
    ensures
        r.deep_view() == book_of_spec(b.deep_view(), exch@),
{
    let mut out: Vec<(String, Balance)> = list::none();
    out = find_book(exch, &b.full, out);
    out
}

/// Among the first `n` entries.
pub open spec fn find_asset_spec(
    asset: Seq<char>,
    xs: Seq<(Seq<char>, Balance)>,
    out: Option<Balance>,
    n: nat,
) -> Option<Balance> {
    match list::last_given(
        xs,
        |it: (Seq<char>, Balance)| {
            let k = it.0;
            let v = it.1;
            if k == asset {
                Some(v)
            } else {
                None
            }
        },
        n,
    ) {
        Some(v) => Some(v),
        None => out,
    }
}

fn find_asset(
    asset: &str,
    xs: &Vec<(String, Balance)>,
    out: Option<Balance>,
) -> (r: Option<Balance>)
    ensures
        r == find_asset_spec(asset@, xs.deep_view(), out, xs@.len()),
{
    let ghost out0 = out;
    let mut out = out;
    let mut i: usize = 0;
    while i < xs.len()
        invariant
            i <= xs@.len(),
            out == find_asset_spec(asset@, xs.deep_view(), out0, i as nat),
        decreases xs@.len() - i,
    {
        let it = &xs[i];
        let k = it.0.as_str();
        let v = it.1;
        if text::same(k, asset) {
            out = Some(v);
        }
        assert(xs.deep_view()[i as int] == xs@[i as int].deep_view());
        assert(out == find_asset_spec(asset@, xs.deep_view(), out0, (i + 1) as nat));
        i = i + 1;
    }
    out
}

/// What is held of an asset; the last entry of it counts.
pub open spec fn asset_in_spec(
    book: Seq<(Seq<char>, Balance)>,
    asset: Seq<char>,
) -> Option<Balance> {
    let out: Option<Balance> = None;
    find_asset_spec(asset, book, out, book.len())
}

fn asset_in(book: &Vec<(String, Balance)>, asset: &str) -> (r: Option<Balance>)
    ensures
        r == asset_in_spec(book.deep_view(), asset@),
{
    let mut out: Option<Balance> = None;
    out = find_asset(asset, book, out);
    out
}

/// The free amount of an asset on a venue, 0 when unknown.
pub open spec fn free_of_spec(b: BalancesView, exch: Seq<char>, asset: Seq<char>) -> Double {
    match asset_in_spec(book_of_spec(b, exch), asset) {
        Some(x) => x.free,
        None => Double::zero_spec(),
    }
}

fn free_of(b: &Balances, exch: &str, asset: &str) -> (r: Double)
    ensures
        r == free_of_spec(b.deep_view(), exch@, asset@),
{
    match asset_in(&book_of(b, exch), asset) {
        Some(x) => x.free,
        None => Double::zero(),
    }
}

/// One venue's read added to the balances and to what is reported.
pub open spec fn add_read_spec(
    b: BalancesView,
    out: Seq<OutcomeView>,
    mode: Seq<char>,
    name: Seq<char>,
    read: Result<Seq<(Seq<char>, Balance)>, Seq<char>>,
) -> (BalancesView, Seq<OutcomeView>) {
    match read {
        Ok(full) => {
            let b = BalancesView {
                full: b.full.push(VenueBookView { venue: name, assets: full }),
                ..b
            };
            (b, out)
        },
        Err(e) => {
            let b = BalancesView {
                full: b.full.push(
                    VenueBookView { venue: name, assets: Seq::<(Seq<char>, Balance)>::empty() },
                ),
                ..b
            };
            let b = BalancesView { failed: b.failed.push(name), ..b };
            let out = out.push(
                OutcomeView {
                    sym: None,
                    side: None,
                    mode,
                    hk: false,
                    committed: false,
                    level: Level::Fail,
                    text: name + " balances: "@ + e,
                },
            );
            (b, out)
        },
    }
}

fn add_read(
    b: Balances,
    out: Vec<Outcome>,
    mode: &str,
    name: &str,
    read: &Result<Vec<(String, Balance)>, String>,
) -> (r: (Balances, Vec<Outcome>))
    ensures
        r.deep_view() == add_read_spec(
            b.deep_view(),
            out.deep_view(),
            mode@,
            name@,
            list::outcome(*read),
        ),
{
    let mut b = b;
    let mut out = out;
    match read {
        Ok(full) => {
            list::push(&mut b.full, VenueBook { venue: text::owned(name), assets: full.dup() });
        },
        Err(e) => {
            list::push(
                &mut b.full,
                VenueBook { venue: text::owned(name), assets: list::none::<(String, Balance)>() },
            );
            list::push(&mut b.failed, text::owned(name));
            let mut line = text::owned(name);
            line.push_str(" balances: ");
            line.push_str(e.as_str());
            list::push(
                &mut out,
                Outcome {
                    sym: None,
                    side: None,
                    mode: text::owned(mode),
                    hk: false,
                    committed: false,
                    level: Level::Fail,
                    text: line,
                },
            );
        },
    }
    (b, out)
}

/// Every venue's balances, from what reading each of them gave. A venue that fails is recorded in
/// `failed` with an empty book, and reported as `{venue} balances: {error}` (not housekeeping: it
/// is mailed as an error every run the venue stays down).
pub open spec fn fetch_balances_spec(
    binance: Result<Seq<(Seq<char>, Balance)>, Seq<char>>,
    gate: Result<Seq<(Seq<char>, Balance)>, Seq<char>>,
    revx: Result<Seq<(Seq<char>, Balance)>, Seq<char>>,
    mode: Seq<char>,
) -> (BalancesView, Seq<OutcomeView>) {
    let none = Seq::<OutcomeView>::empty();
    let (b1, o1) = add_read_spec(
        BalancesView { full: Seq::<VenueBookView>::empty(), failed: Seq::<Seq<char>>::empty() },
        none,
        mode,
        "binance"@,
        binance,
    );
    let (b2, o2) = add_read_spec(b1, o1, mode, "gate"@, gate);
    add_read_spec(b2, o2, mode, "revx"@, revx)
}

/// Every venue's balances, from what reading each of them gave. A venue that fails is recorded in
/// `failed` with an empty book, and reported as `{venue} balances: {error}` (not housekeeping: it
/// is mailed as an error every run the venue stays down).
pub fn fetch_balances(
    binance: &Result<Vec<(String, Balance)>, String>,
    gate: &Result<Vec<(String, Balance)>, String>,
    revx: &Result<Vec<(String, Balance)>, String>,
    mode: &str,
) -> (r: (Balances, Vec<Outcome>))
    ensures
        r.deep_view() == fetch_balances_spec(
            list::outcome(*binance),
            list::outcome(*gate),
            list::outcome(*revx),
            mode@,
        ),
{
    let none: Vec<Outcome> = list::none();
    let (b1, o1) = add_read(
        Balances { full: list::none::<VenueBook>(), failed: list::none::<String>() },
        none,
        mode,
        "binance",
        binance,
    );
    let (b2, o2) = add_read(b1, o1, mode, "gate", gate);
    add_read(b2, o2, mode, "revx", revx)
}

/// What this run knows besides the stores.
#[derive(Debug)]
pub struct RunCtx {
    pub now: Double,
    /// Trading is blocked (disarmed or halted): no retry, no reprice.
    pub blocked: bool,
    /// The regime's market label (`bull`, `bear`, `chop`, ...), none when unreadable.
    pub market: Option<String>,
    /// Coins whose sell side trails the price this run.
    pub trailing: Vec<String>,
    /// Coins the bull sell policy governs this run.
    pub policy: Vec<String>,
}

/// What a [`RunCtx`] holds.
pub struct RunCtxView {
    pub now: Double,
    pub blocked: bool,
    pub market: Option<Seq<char>>,
    pub trailing: Seq<Seq<char>>,
    pub policy: Seq<Seq<char>>,
}

impl DeepView for RunCtx {
    type V = RunCtxView;

    open spec fn deep_view(&self) -> RunCtxView {
        RunCtxView {
            now: self.now,
            blocked: self.blocked,
            market: self.market.deep_view(),
            trailing: self.trailing.deep_view(),
            policy: self.policy.deep_view(),
        }
    }
}

/// What a step needs to know or to have done next.
#[derive(Debug)]
pub enum Ask {
    /// Whether a venue's client can be had.
    Client(String),
    /// The resting orders of a pair on a venue, each with whether its id is this client id.
    OpenOrders(String, String, String),
    /// The price of a pair on a venue.
    Price(String, String),
    /// Cancel an order: venue, pair, order id.
    Cancel(String, String, String),
    /// What a cancelled order had filled: venue, client id.
    Settle(String, String),
    /// Place a limit sell: venue, pair, base amount, price, client id.
    LimitSell(String, String, Double, Double, String),
    /// The take-profit price over a price on a venue.
    Target(Double, String),
    /// The cost basis after a buy: the recorded one, the seed, what was held before, and the fill's
    /// quote, base and price.
    Basis(Option<Double>, Option<Double>, Double, Double, Double, Double),
    /// What a sale realized: amount, quote, cost basis.
    Realized(Double, Double, Option<Double>),
    /// What a sale realized in percent: average price, cost basis.
    RealizedPct(Option<Double>, Option<Double>),
    /// A time as text.
    Iso(Double),
    /// The stale-order age, days: for bull, bear and chop, and the market's label.
    TtlDays(Double, Double, Double, Option<String>),
    /// Whether a stale order is flagged: when it last was, now, and the re-nag days.
    Due(Option<Double>, Double, Double),
    /// Whether a holding is off what is expected.
    Drift(Double, Double),
}

/// What a [`Ask`] says.
#[allow(inconsistent_fields)]
pub enum AskView {
    Client(Seq<char>),
    OpenOrders(Seq<char>, Seq<char>, Seq<char>),
    Price(Seq<char>, Seq<char>),
    Cancel(Seq<char>, Seq<char>, Seq<char>),
    Settle(Seq<char>, Seq<char>),
    LimitSell(Seq<char>, Seq<char>, Double, Double, Seq<char>),
    Target(Double, Seq<char>),
    Basis(Option<Double>, Option<Double>, Double, Double, Double, Double),
    Realized(Double, Double, Option<Double>),
    RealizedPct(Option<Double>, Option<Double>),
    Iso(Double),
    TtlDays(Double, Double, Double, Option<Seq<char>>),
    Due(Option<Double>, Double, Double),
    Drift(Double, Double),
}

impl DeepView for Ask {
    type V = AskView;

    open spec fn deep_view(&self) -> AskView {
        match self {
            Ask::Client(a) => AskView::Client(a@),
            Ask::OpenOrders(a, b, c) => AskView::OpenOrders(a@, b@, c@),
            Ask::Price(a, b) => AskView::Price(a@, b@),
            Ask::Cancel(a, b, c) => AskView::Cancel(a@, b@, c@),
            Ask::Settle(a, b) => AskView::Settle(a@, b@),
            Ask::LimitSell(a, b, c, d, e) => AskView::LimitSell(a@, b@, *c, *d, e@),
            Ask::Target(a, b) => AskView::Target(*a, b@),
            Ask::Basis(a, b, c, d, e, f) => AskView::Basis(*a, *b, *c, *d, *e, *f),
            Ask::Realized(a, b, c) => AskView::Realized(*a, *b, *c),
            Ask::RealizedPct(a, b) => AskView::RealizedPct(*a, *b),
            Ask::Iso(a) => AskView::Iso(*a),
            Ask::TtlDays(a, b, c, d) => AskView::TtlDays(*a, *b, *c, d.deep_view()),
            Ask::Due(a, b, c) => AskView::Due(*a, *b, *c),
            Ask::Drift(a, b) => AskView::Drift(*a, *b),
        }
    }
}

/// What came of an [`Ask`].
#[derive(Debug)]
pub enum Answer {
    /// It failed, and why.
    Failed(String),
    /// It was done.
    Done,
    Orders(Vec<(ParsedOrder, bool)>),
    Placed(ParsedOrder),
    /// The order's row as settling left it, and whether something it had filled was booked.
    Settled(Order, bool),
    Number(Double),
    Maybe(Option<Double>),
    Text(String),
    Yes(bool),
}

/// What a [`Answer`] says.
#[allow(inconsistent_fields)]
pub enum AnswerView {
    Failed(Seq<char>),
    Done,
    Orders(Seq<(ParsedOrderView, bool)>),
    Placed(ParsedOrderView),
    Settled(OrderView, bool),
    Number(Double),
    Maybe(Option<Double>),
    Text(Seq<char>),
    Yes(bool),
}

impl DeepView for Answer {
    type V = AnswerView;

    open spec fn deep_view(&self) -> AnswerView {
        match self {
            Answer::Failed(a) => AnswerView::Failed(a@),
            Answer::Done => AnswerView::Done,
            Answer::Orders(a) => AnswerView::Orders(a.deep_view()),
            Answer::Placed(a) => AnswerView::Placed(a.deep_view()),
            Answer::Settled(a, b) => AnswerView::Settled(a.deep_view(), *b),
            Answer::Number(a) => AnswerView::Number(*a),
            Answer::Maybe(a) => AnswerView::Maybe(*a),
            Answer::Text(a) => AnswerView::Text(a@),
            Answer::Yes(a) => AnswerView::Yes(*a),
        }
    }
}

/// The books a run changes, and how far it has come.
#[derive(Debug)]
pub struct Work {
    /// The journal.
    pub journal: Journal,
    /// The ladder state: `{SYM: {...}, "_bal": {...}, ...}`.
    pub ladder: Json,
    /// Stale-order flags: client id and when it was last flagged.
    pub ttl: TtlWarned,
    /// The realized-P&L ledger, one record per filled sell, oldest first.
    pub pnl: Vec<Json>,
    /// What there is to report.
    pub out: Vec<Outcome>,
    /// How many answers were used.
    pub at: usize,
    /// What is asked next.
    pub ask: Option<Ask>,
    /// Why the step ended early.
    pub fault: Option<String>,
}

/// What a [`Work`] holds.
pub struct WorkView {
    pub journal: Seq<(Seq<char>, OrderView)>,
    pub ladder: Doc,
    pub ttl: Seq<(Seq<char>, Double)>,
    pub pnl: Seq<Doc>,
    pub out: Seq<OutcomeView>,
    pub at: usize,
    pub ask: Option<AskView>,
    pub fault: Option<Seq<char>>,
}

impl DeepView for Work {
    type V = WorkView;

    open spec fn deep_view(&self) -> WorkView {
        WorkView {
            journal: self.journal.deep_view(),
            ladder: self.ladder@,
            ttl: self.ttl.deep_view(),
            pnl: self.pnl.deep_view(),
            out: self.out.deep_view(),
            at: self.at,
            ask: self.ask.deep_view(),
            fault: self.fault.deep_view(),
        }
    }
}

/// The books at the start of a run.
pub open spec fn work_on_spec(
    journal: Seq<(Seq<char>, OrderView)>,
    ladder: Doc,
    ttl: Seq<(Seq<char>, Double)>,
    pnl: Seq<Doc>,
) -> WorkView {
    WorkView {
        journal,
        ladder,
        ttl,
        pnl,
        out: Seq::<OutcomeView>::empty(),
        at: 0,
        ask: None,
        fault: None,
    }
}

/// The books at the start of a run.
pub fn work_on(journal: Journal, ladder: Json, ttl: TtlWarned, pnl: Vec<Json>) -> (r: Work)
    ensures
        r.deep_view() == work_on_spec(
            journal.deep_view(),
            ladder@,
            ttl.deep_view(),
            pnl.deep_view(),
        ),
{
    Work {
        journal,
        ladder,
        ttl,
        pnl,
        out: list::none::<Outcome>(),
        at: 0,
        ask: None,
        fault: None,
    }
}

/// Whether a step waits for an answer or ended early.
pub open spec fn stopped_spec(w: WorkView) -> bool {
    w.ask is Some || w.fault is Some
}

fn stopped(w: &Work) -> (r: bool)
    ensures
        r == stopped_spec(w.deep_view()),
{
    w.ask.is_some() || w.fault.is_some()
}

/// A step that waits for an answer.
pub open spec fn asking_spec(w: WorkView, q: AskView) -> WorkView {
    WorkView { ask: Some(q), ..w }
}

fn asking(w: Work, q: Ask) -> (r: Work)
    ensures
        r.deep_view() == asking_spec(w.deep_view(), q.deep_view()),
{
    let mut w = w;
    w.ask = Some(q);
    w
}

/// A step that ended early.
pub open spec fn failing_spec(w: WorkView, why: Seq<char>) -> WorkView {
    WorkView { fault: Some(why), ..w }
}

fn failing(w: Work, why: String) -> (r: Work)
    ensures
        r.deep_view() == failing_spec(w.deep_view(), why@),
{
    let mut w = w;
    w.fault = Some(why);
    w
}

/// A step with one more thing to report.
pub open spec fn saying_spec(w: WorkView, o: OutcomeView) -> WorkView {
    WorkView { out: w.out.push(o), ..w }
}

fn saying(w: Work, o: Outcome) -> (r: Work)
    ensures
        r.deep_view() == saying_spec(w.deep_view(), o.deep_view()),
{
    let mut w = w;
    list::push(&mut w.out, o);
    w
}

/// Why an answer is not the one that was asked for.
pub open spec fn reason_of_spec(a: AnswerView) -> Seq<char> {
    match a {
        AnswerView::Failed(e) => e,
        _ => "answer out of turn"@,
    }
}

fn reason_of(a: &Answer) -> (r: String)
    ensures
        r@ == reason_of_spec(a.deep_view()),
{
    match a {
        Answer::Failed(e) => text::owned(e.as_str()),
        _ => text::owned("answer out of turn"),
    }
}

/// A step that wrote a row.
pub open spec fn writing_spec(w: WorkView, row: OrderView) -> WorkView {
    WorkView { journal: journal::put_row_spec(w.journal, row), ..w }
}

fn writing(w: Work, row: Order) -> (r: Work)
    ensures
        r.deep_view() == writing_spec(w.deep_view(), row.deep_view()),
{
    let mut w = w;
    w.journal = journal::put_row(w.journal.dup(), row);
    w
}

/// A step that changed a row, where there is one under its client id.
pub open spec fn updating_spec(w: WorkView, row: OrderView) -> WorkView {
    WorkView { journal: journal::change_row_spec(w.journal, row), ..w }
}

fn updating(w: Work, row: Order) -> (r: Work)
    ensures
        r.deep_view() == updating_spec(w.deep_view(), row.deep_view()),
{
    let mut w = w;
    w.journal = journal::change_row(w.journal.dup(), row);
    w
}

/// Whether the run trades a venue.
pub open spec fn is_balance_venue_spec(exch: Seq<char>) -> bool {
    (exch == "binance"@ || exch == "gate"@ || exch == "revx"@)
}

fn is_balance_venue(exch: &str) -> (r: bool)
    ensures
        r == is_balance_venue_spec(exch@),
{
    (text::same(exch, "binance") || text::same(exch, "gate") || text::same(exch, "revx"))
}

/// A number other than zero.
pub open spec fn nonzero_spec(v: Option<Double>) -> Option<Double> {
    match v {
        Some(x) => if !x.eq_spec(Double::zero_spec()) {
            Some(x)
        } else {
            None
        },
        None => None,
    }
}

fn nonzero(v: Option<Double>) -> (r: Option<Double>)
    ensures
        r == nonzero_spec(v),
{
    let x = match v {
        Some(v) => v,
        None => {
            return None;
        },
    };
    if !x.same(Double::zero()) {
        return Some(x);
    }
    None
}

/// Among the first `n` of them.
pub open spec fn find_entry_spec(
    sym: Seq<char>,
    xs: Seq<(Seq<char>, Double)>,
    out: Option<Double>,
    n: nat,
) -> Option<Double>
    decreases n,
{
    if n == 0 {
        out
    } else {
        let out = find_entry_spec(sym, xs, out, (n - 1) as nat);
        let it = xs[n - 1];
        let k = it.0;
        let v = it.1;
        if k == sym {
            Some(v)
        } else {
            out
        }
    }
}

fn find_entry(sym: &str, xs: &Vec<(String, Double)>, out: Option<Double>) -> (r: Option<Double>)
    ensures
        r == find_entry_spec(sym@, xs.deep_view(), out, xs@.len()),
{
    let ghost out0 = out;
    let mut out = out;
    let mut i: usize = 0;
    while i < xs.len()
        invariant
            i <= xs@.len(),
            out == find_entry_spec(sym@, xs.deep_view(), out0, i as nat),
        decreases xs@.len() - i,
    {
        let it = &xs[i];
        let k = it.0.as_str();
        let v = it.1;
        if text::same(k, sym) {
            out = Some(v);
        }
        i = i + 1;
    }
    out
}

/// The number under a name; the last one counts.
pub open spec fn entry_of_spec(
    entries_: Seq<(Seq<char>, Double)>,
    sym: Seq<char>,
) -> Option<Double> {
    let out: Option<Double> = None;
    find_entry_spec(sym, entries_, out, entries_.len())
}

fn entry_of(entries_: &Vec<(String, Double)>, sym: &str) -> (r: Option<Double>)
    ensures
        r == entry_of_spec(entries_.deep_view(), sym@),
{
    let mut out: Option<Double> = None;
    out = find_entry(sym, entries_, out);
    out
}

/// Among the first `n` of them.
pub open spec fn find_route_spec(
    sym: Seq<char>,
    xs: Seq<RouteView>,
    out: Option<RouteView>,
    n: nat,
) -> Option<RouteView> {
    match out {
        Some(v) => Some(v),
        None => list::first_given(
            xs,
            |r: RouteView| if r.sym == sym {
                Some(r)
            } else {
                None
            },
            n,
        ),
    }
}

fn find_route(sym: &str, xs: &Vec<Route>, out: Option<Route>) -> (r: Option<Route>)
    ensures
        r.deep_view() == find_route_spec(sym@, xs.deep_view(), out.deep_view(), xs@.len()),
{
    let ghost out0 = out.deep_view();
    let mut out = out;
    let mut i: usize = 0;
    while i < xs.len()
        invariant
            i <= xs@.len(),
            out.deep_view() == find_route_spec(sym@, xs.deep_view(), out0, i as nat),
        decreases xs@.len() - i,
    {
        let r = &xs[i];
        if out.is_none() && text::same(r.sym.as_str(), sym) {
            out = Some(r.dup());
        }
        assert(xs.deep_view()[i as int] == xs@[i as int].deep_view());
        assert(out.deep_view() == find_route_spec(sym@, xs.deep_view(), out0, (i + 1) as nat));
        i = i + 1;
    }
    out
}

/// Where a coin trades: the first route of it.
pub open spec fn route_of_spec(routing: Seq<RouteView>, sym: Seq<char>) -> Option<RouteView> {
    let out: Option<RouteView> = None;
    find_route_spec(sym, routing, out, routing.len())
}

fn route_of(routing: &Vec<Route>, sym: &str) -> (r: Option<Route>)
    ensures
        r.deep_view() == route_of_spec(routing.deep_view(), sym@),
{
    let mut out: Option<Route> = None;
    out = find_route(sym, routing, out);
    out
}

/// The recorded cost basis of a coin, if any (zero counts as none).
pub open spec fn cost_basis_spec(state: Doc, sym: Seq<char>) -> Option<Double> {
    match state.get(sym) {
        Some(coin) => if !(coin is Obj) {
            None
        } else {
            match coin.get("cost_basis"@) {
                Some(v) => nonzero_spec(v.num()),
                None => None,
            }
        },
        None => None,
    }
}

/// The recorded cost basis of a coin, if any (zero counts as none).
pub fn cost_basis(state: &Json, sym: &str) -> (r: Option<Double>)
    ensures
        r == cost_basis_spec(state@, sym@),
{
    let coin = match state.get(sym) {
        Some(v) => v,
        None => {
            return None;
        },
    };
    if !coin.is_obj() {
        return None;
    }
    let v = match coin.get("cost_basis") {
        Some(v) => v,
        None => {
            return None;
        },
    };
    nonzero(v.num())
}

/// A ladder state with a coin's cost basis recorded.
pub open spec fn with_basis_spec(state: Doc, sym: Seq<char>, basis: Double) -> Doc {
    let coin = state.get_or_null(sym);
    let coin = if !(coin is Obj) {
        Doc::obj()
    } else {
        coin
    };
    let coin = coin.set("cost_basis"@, Doc::Float(basis));
    state.set(sym, coin)
}

fn with_basis(state: Json, sym: &str, basis: Double) -> (r: Json)
    ensures
        r@ == with_basis_spec(state@, sym@, basis),
{
    let mut state = state;
    let mut coin = state.get_copy(sym);
    if !coin.is_obj() {
        coin = Json::obj();
    }
    coin.set("cost_basis", Json::Float(basis));
    state.set(sym, coin);
    state
}

/// Fold a buy fill into a coin's cost basis.
pub open spec fn set_cost_basis_spec(
    s: SettingsView,
    w: WorkView,
    sym: Seq<char>,
    held: Double,
    fill_quote: Double,
    fill_base: Double,
    fill_price: Double,
    answers: Seq<AnswerView>,
) -> WorkView {
    let known = cost_basis_spec(w.ladder, sym);
    match list::item(answers, w.at) {
        Some(a) => {
            let w = WorkView { at: (w.at + 1) as usize, ..w };
            match a {
                AnswerView::Number(basis) => WorkView {
                    ladder: with_basis_spec(w.ladder, sym, basis),
                    ..w
                },
                _ => failing_spec(w, reason_of_spec(a)),
            }
        },
        None => asking_spec(
            w,
            AskView::Basis(
                known,
                entry_of_spec(s.entries, sym),
                held,
                fill_quote,
                fill_base,
                fill_price,
            ),
        ),
    }
}

/// Fold a buy fill into a coin's cost basis.
pub fn set_cost_basis(
    s: &Settings,
    w: Work,
    sym: &str,
    held: Double,
    fill_quote: Double,
    fill_base: Double,
    fill_price: Double,
    answers: &Vec<Answer>,
) -> (r: Work)
    ensures
        r.deep_view() == set_cost_basis_spec(
            s.deep_view(),
            w.deep_view(),
            sym@,
            held,
            fill_quote,
            fill_base,
            fill_price,
            answers.deep_view(),
        ),
{
    let mut w = w;
    let known = cost_basis(&w.ladder, sym);
    let a = match list::at(answers, w.at) {
        Some(v) => v,
        None => {
            return asking(
                w,
                Ask::Basis(
                    known,
                    entry_of(&s.entries, sym),
                    held,
                    fill_quote,
                    fill_base,
                    fill_price,
                ),
            );
        },
    };
    w.at = (w.at + 1);
    match a {
        Answer::Number(basis) => {
            w.ladder = with_basis(w.ladder.copy(), sym, *basis);
            w
        },
        _ => failing(w, reason_of(a)),
    }
}

/// A placed order's status; open where the venue says none.
pub open spec fn status_or_open_spec(p: ParsedOrderView) -> Seq<char> {
    if p.status == ""@ {
        "open"@
    } else {
        p.status
    }
}

fn status_or_open(p: &ParsedOrder) -> (r: String)
    ensures
        r@ == status_or_open_spec(p.deep_view()),
{
    if text::same(p.status.as_str(), "") {
        return text::owned("open");
    }
    text::owned(p.status.as_str())
}

/// A journal row of a limit sell.
pub open spec fn limit_sell_row_spec(
    cid: Seq<char>,
    sym: Seq<char>,
    exch: Seq<char>,
    pair: Seq<char>,
    base: Double,
    price: Double,
) -> OrderView {
    let row = journal::blank_row_spec(cid);
    let row = OrderView { sym, ..row };
    let row = OrderView { exch, ..row };
    let row = OrderView { pair, ..row };
    let row = OrderView { side: "sell"@, ..row };
    let row = OrderView { kind: "limit_sell"@, ..row };
    let row = OrderView { base: Some(base), ..row };
    OrderView { price: Some(price), ..row }
}

fn limit_sell_row(
    cid: &str,
    sym: &str,
    exch: &str,
    pair: &str,
    base: Double,
    price: Double,
) -> (r: Order)
    ensures
        r.deep_view() == limit_sell_row_spec(cid@, sym@, exch@, pair@, base, price),
{
    let mut row = Order::new(cid);
    row.sym = text::owned(sym);
    row.exch = text::owned(exch);
    row.pair = text::owned(pair);
    row.side = text::owned("sell");
    row.kind = text::owned("limit_sell");
    row.base = Some(base);
    row.price = Some(price);
    row
}

/// A row whose order is about to be sent.
pub open spec fn pending_row_spec(row: OrderView, rung: i64, now: Double) -> OrderView {
    let row = OrderView { status: "pending"@, ..row };
    let row = OrderView { rung: Some(rung), ..row };
    OrderView { ts: Some(now), ..row }
}

fn pending_row(row: Order, rung: i64, now: Double) -> (r: Order)
    ensures
        r.deep_view() == pending_row_spec(row.deep_view(), rung, now),
{
    let mut row = row;
    row.status = text::owned("pending");
    row.rung = Some(rung);
    row.ts = Some(now);
    row
}

/// A row whose order was placed.
pub open spec fn placed_row_spec(row: OrderView, lf: ParsedOrderView) -> OrderView {
    let row = OrderView { status: status_or_open_spec(lf), ..row };
    OrderView { order_id: Some(lf.order_id), ..row }
}

fn placed_row(row: Order, lf: &ParsedOrder) -> (r: Order)
    ensures
        r.deep_view() == placed_row_spec(row.deep_view(), lf.deep_view()),
{
    let mut row = row;
    row.status = status_or_open(lf);
    row.order_id = Some(text::owned(lf.order_id.as_str()));
    row
}

/// A row whose order was refused.
pub open spec fn refused_row_spec(row: OrderView, why: Seq<char>) -> OrderView {
    let row = OrderView { status: "error"@, ..row };
    OrderView { last_error: Some(why), ..row }
}

fn refused_row(row: Order, why: &str) -> (r: Order)
    ensures
        r.deep_view() == refused_row_spec(row.deep_view(), why@),
{
    let mut row = row;
    row.status = text::owned("error");
    row.last_error = Some(text::owned(why));
    row
}

/// An id within the journal's rules.
pub open spec fn legal_id_spec(c: Seq<char>) -> Result<Seq<char>, Seq<char>> {
    ids::coerced(c, ids::CID_MAX as nat, false)
}

fn legal_id(c: &str) -> (r: Result<String, String>)
    ensures
        list::outcome(r) == legal_id_spec(c@),
{
    match ids::safe_cid(c) {
        Ok(t) => Ok(t),
        Err(e) => Err(e.0),
    }
}

/// The id of a sell paired with a buy: this slot's sell id for the rung, and a suffix.
pub open spec fn pair_id_spec(
    sym: Seq<char>,
    now: Double,
    rung: i64,
    suffix: Seq<char>,
) -> Result<Seq<char>, Seq<char>> {
    legal_id_spec(journal::client_id_spec(sym, Side::Sell, now, rung) + suffix)
}

fn pair_id(sym: &str, now: Double, rung: i64, suffix: &str) -> (r: Result<String, String>)
    ensures
        list::outcome(r) == pair_id_spec(sym@, now, rung, suffix@),
{
    let mut line = journal::client_id(sym, Side::Sell, now, rung);
    line.push_str(suffix);
    legal_id(line.as_str())
}

/// How far a paired sell has come.
#[derive(Debug)]
pub enum Paired {
    /// It waits for an answer, or the step ended early.
    Waiting(Work),
    /// It was placed or refused, and how that reads.
    Placed(Work, Outcome),
}

/// What a [`Paired`] says.
#[allow(inconsistent_fields)]
pub enum PairedView {
    Waiting(WorkView),
    Placed(WorkView, OutcomeView),
}

impl DeepView for Paired {
    type V = PairedView;

    open spec fn deep_view(&self) -> PairedView {
        match self {
            Paired::Waiting(a) => PairedView::Waiting(a.deep_view()),
            Paired::Placed(a, b) => PairedView::Placed(a.deep_view(), b.deep_view()),
        }
    }
}

/// A paired sell after the venue's answer.
pub open spec fn placed_pair_spec(
    w: WorkView,
    row: OrderView,
    lim: Double,
    a: AnswerView,
) -> PairedView {
    match a {
        AnswerView::Placed(lf) => {
            let o = outcome_spec(
                Some(row.sym),
                Level::Done,
                "LIMIT SELL placed @ $"@ + crate::watch::pyfmt::g_spec(lim, 6),
            );
            let o = OutcomeView { hk: false, ..o };
            let w = writing_spec(w, placed_row_spec(row, lf));
            PairedView::Placed(w, o)
        },
        _ => {
            let e = reason_of_spec(a);
            let o = outcome_spec(
                Some(row.sym),
                Level::Fail,
                "LIMIT-SELL FAILED (auto-retries next runs): "@ + e,
            );
            let o = OutcomeView { hk: false, ..o };
            let w = writing_spec(w, refused_row_spec(row, e));
            PairedView::Placed(w, o)
        },
    }
}

fn placed_pair(w: Work, row: Order, lim: Double, a: &Answer) -> (r: Paired)
    ensures
        r.deep_view() == placed_pair_spec(w.deep_view(), row.deep_view(), lim, a.deep_view()),
{
    let mut w = w;
    match a {
        Answer::Placed(lf) => {
            let mut line = text::owned("LIMIT SELL placed @ $");
            line.push_str(crate::watch::pyfmt::g(lim, 6).as_str());
            let mut o = outcome(Some(row.sym.as_str()), Level::Done, line);
            o.hk = false;
            w = writing(w, placed_row(row, lf));
            Paired::Placed(w, o)
        },
        _ => {
            let e = reason_of(a);
            let mut line2 = text::owned("LIMIT-SELL FAILED (auto-retries next runs): ");
            line2.push_str(e.as_str());
            let mut o = outcome(Some(row.sym.as_str()), Level::Fail, line2);
            o.hk = false;
            w = writing(w, refused_row(row, e.as_str()));
            Paired::Placed(w, o)
        },
    }
}

/// Place the resting limit sell paired with a buy fill of `fill_base` at `fill_price`: at fill
/// +target net of the sell fee, journaled as `pending` before the venue call. The id is this
/// slot's sell id for `rung` plus `cid_suffix`. The outcome is not marked housekeeping; a caller
/// booking a reconciled fill marks it.
pub open spec fn pair_limit_sell_spec(
    w: WorkView,
    exch: Seq<char>,
    pair: Seq<char>,
    sym: Seq<char>,
    fill_base: Double,
    fill_price: Double,
    now: Double,
    rung: i64,
    cid_suffix: Seq<char>,
    answers: Seq<AnswerView>,
) -> PairedView {
    match list::item(answers, w.at) {
        Some(a) => {
            let w = WorkView { at: (w.at + 1) as usize, ..w };
            match a {
                AnswerView::Number(lim) => match pair_id_spec(sym, now, rung, cid_suffix) {
                    Ok(scid) => {
                        let row = pending_row_spec(
                            limit_sell_row_spec(scid, sym, exch, pair, fill_base, lim),
                            rung,
                            now,
                        );
                        let w = writing_spec(w, row);
                        match list::item(answers, w.at) {
                            Some(b) => {
                                let w = WorkView { at: (w.at + 1) as usize, ..w };
                                placed_pair_spec(w, row, lim, b)
                            },
                            None => PairedView::Waiting(
                                asking_spec(
                                    w,
                                    AskView::LimitSell(exch, pair, fill_base, lim, scid),
                                ),
                            ),
                        }
                    },
                    Err(e) => PairedView::Waiting(failing_spec(w, e)),
                },
                _ => PairedView::Waiting(failing_spec(w, reason_of_spec(a))),
            }
        },
        None => PairedView::Waiting(asking_spec(w, AskView::Target(fill_price, exch))),
    }
}

/// Place the resting limit sell paired with a buy fill of `fill_base` at `fill_price`: at fill
/// +target net of the sell fee, journaled as `pending` before the venue call. The id is this
/// slot's sell id for `rung` plus `cid_suffix`. The outcome is not marked housekeeping; a caller
/// booking a reconciled fill marks it.
pub fn pair_limit_sell(
    w: Work,
    exch: &str,
    pair: &str,
    sym: &str,
    fill_base: Double,
    fill_price: Double,
    now: Double,
    rung: i64,
    cid_suffix: &str,
    answers: &Vec<Answer>,
) -> (r: Paired)
    ensures
        r.deep_view() == pair_limit_sell_spec(
            w.deep_view(),
            exch@,
            pair@,
            sym@,
            fill_base,
            fill_price,
            now,
            rung,
            cid_suffix@,
            answers.deep_view(),
        ),
{
    let mut w = w;
    let a = match list::at(answers, w.at) {
        Some(v) => v,
        None => {
            return Paired::Waiting(asking(w, Ask::Target(fill_price, text::owned(exch))));
        },
    };
    w.at = (w.at + 1);
    match a {
        Answer::Number(lim) => match pair_id(sym, now, rung, cid_suffix) {
            Ok(scid) => {
                let row = pending_row(
                    limit_sell_row(scid.as_str(), sym, exch, pair, fill_base, *lim),
                    rung,
                    now,
                );
                w = writing(w, row.dup());
                let b = match list::at(answers, w.at) {
                    Some(v) => v,
                    None => {
                        return Paired::Waiting(
                            asking(
                                w,
                                Ask::LimitSell(
                                    text::owned(exch),
                                    text::owned(pair),
                                    fill_base,
                                    *lim,
                                    scid,
                                ),
                            ),
                        );
                    },
                };
                w.at = (w.at + 1);
                placed_pair(w, row, *lim, b)
            },
            Err(e) => Paired::Waiting(failing(w, e)),
        },
        _ => Paired::Waiting(failing(w, reason_of(a))),
    }
}

/// A realized-P&L record of a filled sell.
pub open spec fn pnl_record_spec(
    sym: Seq<char>,
    qty: Double,
    quote: Double,
    avg_price: Option<Double>,
    cost: Option<Double>,
    now: Double,
    iso: Seq<char>,
    kind: Seq<char>,
    realized: Option<Double>,
    pct: Option<Double>,
) -> Doc {
    Doc::obj().with("ts"@, Doc::Float(now)).with("iso"@, Doc::Str(iso)).with(
        "sym"@,
        Doc::Str(sym),
    ).with(
        "kind"@,
        Doc::Str(kind),
    ).with(
        "qty"@,
        Doc::Float(qty),
    ).with(
        "quote"@,
        Doc::Float(quote),
    ).with(
        "avg_price"@,
        json::float_or_null(avg_price),
    ).with(
        "cost_basis"@,
        json::float_or_null(cost),
    ).with(
        "realized_usd"@,
        json::float_or_null(realized),
    ).with(
        "realized_pct"@,
        json::float_or_null(pct),
    )
}

fn pnl_record(
    sym: &str,
    qty: Double,
    quote: Double,
    avg_price: Option<Double>,
    cost: Option<Double>,
    now: Double,
    iso: &str,
    kind: &str,
    realized: Option<Double>,
    pct: Option<Double>,
) -> (r: Json)
    ensures
        r@ == pnl_record_spec(sym@, qty, quote, avg_price, cost, now, iso@, kind@, realized, pct),
{
    Json::obj().with("ts", Json::Float(now)).with("iso", Json::text(iso)).with(
        "sym",
        Json::text(sym),
    ).with(
        "kind",
        Json::text(kind),
    ).with(
        "qty",
        Json::Float(qty),
    ).with(
        "quote",
        Json::Float(quote),
    ).with(
        "avg_price",
        json::number_or_null(avg_price),
    ).with(
        "cost_basis",
        json::number_or_null(cost),
    ).with(
        "realized_usd",
        json::number_or_null(realized),
    ).with(
        "realized_pct",
        json::number_or_null(pct),
    )
}

/// `; realized +1.23 USD (+4.5%)`, or nothing without a realized amount.
pub open spec fn pnl_tail_spec(realized: Option<Double>, pct: Option<Double>) -> Seq<char> {
    match realized {
        Some(r) => match pct {
            Some(p) => "; realized "@
                + pyfmt::signed_spec(r, 2)
                + " USD ("@
                + pyfmt::signed_spec(p, 1)
                + "%)"@,
            None => "; realized "@ + pyfmt::signed_spec(r, 2) + " USD"@,
        },
        None => ""@,
    }
}

/// `; realized +1.23 USD (+4.5%)`, or nothing without a realized amount.
pub fn pnl_tail(realized: Option<Double>, pct: Option<Double>) -> (r: String)
    ensures
        r@ == pnl_tail_spec(realized, pct),
{
    let r = match realized {
        Some(v) => v,
        None => {
            return text::owned("");
        },
    };
    match pct {
        Some(p) => {
            let mut line = text::owned("; realized ");
            line.push_str(pyfmt::signed(r, 2).as_str());
            line.push_str(" USD (");
            line.push_str(pyfmt::signed(p, 1).as_str());
            line.push_str("%)");
            line
        },
        None => {
            let mut line2 = text::owned("; realized ");
            line2.push_str(pyfmt::signed(r, 2).as_str());
            line2.push_str(" USD");
            line2
        },
    }
}

/// How far a P&L record has come.
#[derive(Debug)]
pub enum Logged {
    Waiting(Work),
    /// It was written; what was realized, and in percent.
    Written(Work, Option<Double>, Option<Double>),
}

/// What a [`Logged`] says.
#[allow(inconsistent_fields)]
pub enum LoggedView {
    Waiting(WorkView),
    Written(WorkView, Option<Double>, Option<Double>),
}

impl DeepView for Logged {
    type V = LoggedView;

    open spec fn deep_view(&self) -> LoggedView {
        match self {
            Logged::Waiting(a) => LoggedView::Waiting(a.deep_view()),
            Logged::Written(a, b, c) => LoggedView::Written(a.deep_view(), *b, *c),
        }
    }
}

/// Append a realized-P&L record for a filled sell: what was realized is none without a cost
/// basis.
pub open spec fn log_pnl_spec(
    w: WorkView,
    sym: Seq<char>,
    qty: Double,
    quote: Double,
    avg_price: Option<Double>,
    cost: Option<Double>,
    now: Double,
    kind: Seq<char>,
    answers: Seq<AnswerView>,
) -> LoggedView {
    match list::item(answers, w.at) {
        Some(a) => {
            let w = WorkView { at: (w.at + 1) as usize, ..w };
            match list::item(answers, w.at) {
                Some(b) => {
                    let w = WorkView { at: (w.at + 1) as usize, ..w };
                    match list::item(answers, w.at) {
                        Some(c) => {
                            let w = WorkView { at: (w.at + 1) as usize, ..w };
                            match a {
                                AnswerView::Maybe(realized) => match b {
                                    AnswerView::Text(iso) => match c {
                                        AnswerView::Maybe(pct) => {
                                            let w = WorkView {
                                                pnl: w.pnl.push(
                                                    pnl_record_spec(
                                                        sym,
                                                        qty,
                                                        quote,
                                                        avg_price,
                                                        cost,
                                                        now,
                                                        iso,
                                                        kind,
                                                        realized,
                                                        pct,
                                                    ),
                                                ),
                                                ..w
                                            };
                                            LoggedView::Written(w, realized, pct)
                                        },
                                        _ => LoggedView::Waiting(
                                            failing_spec(w, reason_of_spec(c)),
                                        ),
                                    },
                                    _ => LoggedView::Waiting(failing_spec(w, reason_of_spec(b))),
                                },
                                _ => LoggedView::Waiting(failing_spec(w, reason_of_spec(a))),
                            }
                        },
                        None => LoggedView::Waiting(
                            asking_spec(w, AskView::RealizedPct(avg_price, cost)),
                        ),
                    }
                },
                None => LoggedView::Waiting(asking_spec(w, AskView::Iso(now))),
            }
        },
        None => LoggedView::Waiting(asking_spec(w, AskView::Realized(qty, quote, cost))),
    }
}

/// Append a realized-P&L record for a filled sell: what was realized is none without a cost
/// basis.
pub fn log_pnl(
    w: Work,
    sym: &str,
    qty: Double,
    quote: Double,
    avg_price: Option<Double>,
    cost: Option<Double>,
    now: Double,
    kind: &str,
    answers: &Vec<Answer>,
) -> (r: Logged)
    ensures
        r.deep_view() == log_pnl_spec(
            w.deep_view(),
            sym@,
            qty,
            quote,
            avg_price,
            cost,
            now,
            kind@,
            answers.deep_view(),
        ),
{
    let mut w = w;
    let a = match list::at(answers, w.at) {
        Some(v) => v,
        None => {
            return Logged::Waiting(asking(w, Ask::Realized(qty, quote, cost)));
        },
    };
    w.at = (w.at + 1);
    let b = match list::at(answers, w.at) {
        Some(v) => v,
        None => {
            return Logged::Waiting(asking(w, Ask::Iso(now)));
        },
    };
    w.at = (w.at + 1);
    let c = match list::at(answers, w.at) {
        Some(v) => v,
        None => {
            return Logged::Waiting(asking(w, Ask::RealizedPct(avg_price, cost)));
        },
    };
    w.at = (w.at + 1);
    match a {
        Answer::Maybe(realized) => match b {
            Answer::Text(iso) => match c {
                Answer::Maybe(pct) => {
                    list::push(
                        &mut w.pnl,
                        pnl_record(
                            sym,
                            qty,
                            quote,
                            avg_price,
                            cost,
                            now,
                            iso.as_str(),
                            kind,
                            *realized,
                            *pct,
                        ),
                    );
                    Logged::Written(w, *realized, *pct)
                },
                _ => Logged::Waiting(failing(w, reason_of(c))),
            },
            _ => Logged::Waiting(failing(w, reason_of(b))),
        },
        _ => Logged::Waiting(failing(w, reason_of(a))),
    }
}

/// Make sure of a venue's client. A venue the run does not trade is an error that is just its
/// name, quoted: `'kraken'`.
pub open spec fn reach_spec(w: WorkView, exch: Seq<char>, answers: Seq<AnswerView>) -> WorkView {
    if !is_balance_venue_spec(exch) {
        failing_spec(w, pyfmt::repr_str_spec(exch))
    } else {
        match list::item(answers, w.at) {
            Some(a) => {
                let w = WorkView { at: (w.at + 1) as usize, ..w };
                match a {
                    AnswerView::Done => w,
                    _ => failing_spec(w, reason_of_spec(a)),
                }
            },
            None => asking_spec(w, AskView::Client(exch)),
        }
    }
}

fn reach(w: Work, exch: &str, answers: &Vec<Answer>) -> (r: Work)
    ensures
        r.deep_view() == reach_spec(w.deep_view(), exch@, answers.deep_view()),
{
    let mut w = w;
    if !is_balance_venue(exch) {
        return failing(w, pyfmt::repr_str(exch));
    }
    let a = match list::at(answers, w.at) {
        Some(v) => v,
        None => {
            return asking(w, Ask::Client(text::owned(exch)));
        },
    };
    w.at = (w.at + 1);
    match a {
        Answer::Done => w,
        _ => failing(w, reason_of(a)),
    }
}

/// What was filled, in base units.
pub open spec fn filled_base_of_spec(o: OrderView) -> Double {
    match o.filled_base {
        Some(v) => v,
        None => Double::zero_spec(),
    }
}

fn filled_base_of(o: &Order) -> (r: Double)
    ensures
        r == filled_base_of_spec(o.deep_view()),
{
    match o.filled_base {
        Some(v) => v,
        None => Double::zero(),
    }
}

/// What was filled, in quote units.
pub open spec fn filled_quote_of_spec(o: OrderView) -> Double {
    match o.filled_quote {
        Some(v) => v,
        None => Double::zero_spec(),
    }
}

fn filled_quote_of(o: &Order) -> (r: Double)
    ensures
        r == filled_quote_of_spec(o.deep_view()),
{
    match o.filled_quote {
        Some(v) => v,
        None => Double::zero(),
    }
}

/// The price of a fill: its average price, else what it cost per unit.
pub open spec fn fill_price_spec(o: OrderView) -> Double {
    match nonzero_spec(o.avg_price) {
        Some(p) => p,
        None => {
            let fb = filled_base_of_spec(o);
            if !fb.eq_spec(Double::zero_spec()) {
                filled_quote_of_spec(o).div_spec(fb)
            } else {
                Double::zero_spec()
            }
        },
    }
}

fn fill_price(o: &Order) -> (r: Double)
    ensures
        r == fill_price_spec(o.deep_view()),
{
    match nonzero(o.avg_price) {
        Some(p) => p,
        None => {
            let fb = filled_base_of(o);
            if !fb.same(Double::zero()) {
                return filled_quote_of(o).over(fb);
            }
            Double::zero()
        },
    }
}

/// How a fill begins to read.
pub open spec fn fill_head_spec(o: OrderView) -> Seq<char> {
    let fb = filled_base_of_spec(o);
    let fq = filled_quote_of_spec(o);
    "~"@ + crate::watch::pyfmt::g_spec(fb, 6) + " "@ + o.sym + " (~$"@ + pyfmt::fixed_spec(fq, 2)
}

fn fill_head(o: &Order) -> (r: String)
    ensures
        r@ == fill_head_spec(o.deep_view()),
{
    let fb = filled_base_of(o);
    let fq = filled_quote_of(o);
    let mut line = text::owned("~");
    line.push_str(crate::watch::pyfmt::g(fb, 6).as_str());
    line.push_str(" ");
    line.push_str(o.sym.as_str());
    line.push_str(" (~$");
    line.push_str(pyfmt::fixed(fq, 2).as_str());
    line
}

/// What was held before a fill: the balance was read after it landed, so it is left out.
pub open spec fn held_before_spec(bal: BalancesView, o: OrderView) -> Double {
    free_of_spec(bal, o.exch, o.sym).sub_spec(filled_base_of_spec(o)).max_spec(
        Double::zero_spec(),
    )
}

fn held_before(bal: &Balances, o: &Order) -> (r: Double)
    ensures
        r == held_before_spec(bal.deep_view(), o.deep_view()),
{
    free_of(bal, o.exch.as_str(), o.sym.as_str()).minus(filled_base_of(o)).max(Double::zero())
}

/// Book a filled market buy: the cost basis, and a paired sell.
pub open spec fn book_market_buy_spec(
    s: SettingsView,
    ctx: RunCtxView,
    bal: BalancesView,
    o: OrderView,
    w: WorkView,
    answers: Seq<AnswerView>,
) -> WorkView {
    let w = set_cost_basis_spec(
        s,
        w,
        o.sym,
        held_before_spec(bal, o),
        filled_quote_of_spec(o),
        filled_base_of_spec(o),
        fill_price_spec(o),
        answers,
    );
    if stopped_spec(w) {
        w
    } else if ctx.policy.contains(o.sym) {
        saying_spec(
            w,
            on_side_spec(
                outcome_spec(
                    Some(o.sym),
                    Level::Done,
                    "BUY FILLED "@
                        + fill_head_spec(o)
                        + "); core add under the bull sell policy (no pair)"@,
                ),
                "buy"@,
            ),
        )
    } else {
        let w = reach_spec(w, o.exch, answers);
        if stopped_spec(w) {
            w
        } else {
            match pair_limit_sell_spec(
                w,
                o.exch,
                o.pair,
                o.sym,
                filled_base_of_spec(o),
                fill_price_spec(o),
                ctx.now,
                match o.rung {
                    Some(v) => v,
                    None => 1,
                },
                "d"@,
                answers,
            ) {
                PairedView::Waiting(v) => v,
                PairedView::Placed(v, res) => {
                    let said = on_side_spec(
                        outcome_spec(
                            Some(o.sym),
                            res.level,
                            "BUY FILLED "@ + fill_head_spec(o) + "); "@ + res.text,
                        ),
                        "buy"@,
                    );
                    saying_spec(v, said)
                },
            }
        }
    }
}

fn book_market_buy(
    s: &Settings,
    ctx: &RunCtx,
    bal: &Balances,
    o: &Order,
    w: Work,
    answers: &Vec<Answer>,
) -> (r: Work)
    ensures
        r.deep_view() == book_market_buy_spec(
            s.deep_view(),
            ctx.deep_view(),
            bal.deep_view(),
            o.deep_view(),
            w.deep_view(),
            answers.deep_view(),
        ),
{
    let mut w = w;
    w = set_cost_basis(
        s,
        w,
        o.sym.as_str(),
        held_before(bal, o),
        filled_quote_of(o),
        filled_base_of(o),
        fill_price(o),
        answers,
    );
    if stopped(&w) {
        return w;
    }
    if list::holds(&ctx.policy, o.sym.as_str()) {
        let mut line = text::owned("BUY FILLED ");
        line.push_str(fill_head(o).as_str());
        line.push_str("); core add under the bull sell policy (no pair)");
        return saying(w, on_side(outcome(Some(o.sym.as_str()), Level::Done, line), "buy"));
    }
    w = reach(w, o.exch.as_str(), answers);
    if stopped(&w) {
        return w;
    }
    match pair_limit_sell(
        w,
        o.exch.as_str(),
        o.pair.as_str(),
        o.sym.as_str(),
        filled_base_of(o),
        fill_price(o),
        ctx.now,
        match o.rung {
            Some(v) => v,
            None => 1,
        },
        "d",
        answers,
    ) {
        Paired::Waiting(v) => v,
        Paired::Placed(v, res) => {
            let mut line2 = text::owned("BUY FILLED ");
            line2.push_str(fill_head(o).as_str());
            line2.push_str("); ");
            line2.push_str(res.text.as_str());
            let said = on_side(outcome(Some(o.sym.as_str()), res.level, line2), "buy");
            saying(v, said)
        },
    }
}

/// Whether a fill on Revolut X is of a coin that is routed elsewhere.
pub open spec fn held_elsewhere_spec(s: SettingsView, o: OrderView) -> bool {
    if o.exch != "revx"@ {
        false
    } else {
        match route_of_spec(s.routing, o.sym) {
            Some(r) => r.exch != "revx"@,
            None => true,
        }
    }
}

fn held_elsewhere(s: &Settings, o: &Order) -> (r: bool)
    ensures
        r == held_elsewhere_spec(s.deep_view(), o.deep_view()),
{
    if !text::same(o.exch.as_str(), "revx") {
        return false;
    }
    match route_of(&s.routing, o.sym.as_str()) {
        Some(r) => !text::same(r.exch.as_str(), "revx"),
        None => true,
    }
}

/// How a fill reads that was cut short.
pub open spec fn partial_note_spec(o: OrderView) -> Seq<char> {
    match o.partial {
        Some(p) => if p {
            " (partial, the rest was cancelled)"@
        } else {
            ""@
        },
        None => ""@,
    }
}

fn partial_note(o: &Order) -> (r: String)
    ensures
        r@ == partial_note_spec(o.deep_view()),
{
    match o.partial {
        Some(p) => if p {
            text::owned(" (partial, the rest was cancelled)")
        } else {
            text::owned("")
        },
        None => text::owned(""),
    }
}

/// Book a filled deploy buy: a core add.
pub open spec fn book_deploy_buy_spec(
    s: SettingsView,
    bal: BalancesView,
    o: OrderView,
    w: WorkView,
    answers: Seq<AnswerView>,
) -> WorkView {
    if held_elsewhere_spec(s, o) {
        saying_spec(
            w,
            on_side_spec(
                outcome_spec(
                    Some(o.sym),
                    Level::Done,
                    "REVX DEPLOY FILLED "@
                        + fill_head_spec(o)
                        + ") — held on revx, outside ladder-state"@,
                ),
                "buy"@,
            ),
        )
    } else {
        let w = set_cost_basis_spec(
            s,
            w,
            o.sym,
            held_before_spec(bal, o),
            filled_quote_of_spec(o),
            filled_base_of_spec(o),
            fill_price_spec(o),
            answers,
        );
        if stopped_spec(w) {
            w
        } else {
            let fp = fill_price_spec(o);
            saying_spec(
                w,
                on_side_spec(
                    outcome_spec(
                        Some(o.sym),
                        Level::Done,
                        "DEPLOY BUY FILLED "@
                            + fill_head_spec(o)
                            + " @ $"@
                            + crate::watch::pyfmt::g_spec(fp, 6)
                            + ")"@
                            + partial_note_spec(o)
                            + " — core add: cost basis updated, no paired sell"@,
                    ),
                    "buy"@,
                ),
            )
        }
    }
}

fn book_deploy_buy(
    s: &Settings,
    bal: &Balances,
    o: &Order,
    w: Work,
    answers: &Vec<Answer>,
) -> (r: Work)
    ensures
        r.deep_view() == book_deploy_buy_spec(
            s.deep_view(),
            bal.deep_view(),
            o.deep_view(),
            w.deep_view(),
            answers.deep_view(),
        ),
{
    let mut w = w;
    if held_elsewhere(s, o) {
        let mut line = text::owned("REVX DEPLOY FILLED ");
        line.push_str(fill_head(o).as_str());
        line.push_str(") — held on revx, outside ladder-state");
        return saying(w, on_side(outcome(Some(o.sym.as_str()), Level::Done, line), "buy"));
    }
    w = set_cost_basis(
        s,
        w,
        o.sym.as_str(),
        held_before(bal, o),
        filled_quote_of(o),
        filled_base_of(o),
        fill_price(o),
        answers,
    );
    if stopped(&w) {
        return w;
    }
    let fp = fill_price(o);
    let mut line2 = text::owned("DEPLOY BUY FILLED ");
    line2.push_str(fill_head(o).as_str());
    line2.push_str(" @ $");
    line2.push_str(crate::watch::pyfmt::g(fp, 6).as_str());
    line2.push_str(")");
    line2.push_str(partial_note(o).as_str());
    line2.push_str(" — core add: cost basis updated, no paired sell");
    saying(w, on_side(outcome(Some(o.sym.as_str()), Level::Done, line2), "buy"))
}

/// A ladder state with a coin's sell window opened, where it knows the coin.
pub open spec fn with_window_spec(state: Doc, sym: Seq<char>, until: Double) -> Doc {
    let coin = state.get_or_null(sym);
    if !(coin is Obj) {
        state
    } else {
        let coin = coin.set("win_until"@, Doc::Float(until));
        let coin = coin.set("win_dir"@, Doc::Str("sell"@));
        state.set(sym, coin)
    }
}

fn with_window(state: Json, sym: &str, until: Double) -> (r: Json)
    ensures
        r@ == with_window_spec(state@, sym@, until),
{
    let mut state = state;
    let mut coin = state.get_copy(sym);
    if !coin.is_obj() {
        return state;
    }
    coin.set("win_until", Json::Float(until));
    coin.set("win_dir", Json::text("sell"));
    state.set(sym, coin);
    state
}

/// The recorded cost basis of a coin, else its seed.
pub open spec fn known_basis_spec(s: SettingsView, w: WorkView, sym: Seq<char>) -> Option<Double> {
    match cost_basis_spec(w.ladder, sym) {
        Some(x) => Some(x),
        None => nonzero_spec(entry_of_spec(s.entries, sym)),
    }
}

fn known_basis(s: &Settings, w: &Work, sym: &str) -> (r: Option<Double>)
    ensures
        r == known_basis_spec(s.deep_view(), w.deep_view(), sym@),
{
    match cost_basis(&w.ladder, sym) {
        Some(x) => Some(x),
        None => nonzero(entry_of(&s.entries, sym)),
    }
}

/// Book a filled sell: the ledger, and the sell window.
pub open spec fn book_sell_spec(
    s: SettingsView,
    ctx: RunCtxView,
    o: OrderView,
    w: WorkView,
    answers: Seq<AnswerView>,
) -> WorkView {
    let cb = known_basis_spec(s, w, o.sym);
    let kind = if o.kind == ""@ {
        "limit_sell"@
    } else {
        o.kind
    };
    match log_pnl_spec(
        w,
        o.sym,
        filled_base_of_spec(o),
        filled_quote_of_spec(o),
        o.avg_price,
        cb,
        ctx.now,
        kind,
        answers,
    ) {
        LoggedView::Waiting(v) => v,
        LoggedView::Written(v, realized, pct) => {
            let out = saying_spec(
                v,
                on_side_spec(
                    outcome_spec(
                        Some(o.sym),
                        Level::Done,
                        "LIMIT SELL FILLED "@
                            + fill_head_spec(o)
                            + ")"@
                            + pnl_tail_spec(realized, pct),
                    ),
                    "sell"@,
                ),
            );
            WorkView {
                ladder: with_window_spec(
                    out.ladder,
                    o.sym,
                    ctx.now.add_spec(s.window_hours.mul_spec(Double::int_spec(3600))),
                ),
                ..out
            }
        },
    }
}

fn book_sell(s: &Settings, ctx: &RunCtx, o: &Order, w: Work, answers: &Vec<Answer>) -> (r: Work)
    ensures
        r.deep_view() == book_sell_spec(
            s.deep_view(),
            ctx.deep_view(),
            o.deep_view(),
            w.deep_view(),
            answers.deep_view(),
        ),
{
    let cb = known_basis(s, &w, o.sym.as_str());
    let kind = if text::same(o.kind.as_str(), "") {
        text::owned("limit_sell")
    } else {
        text::owned(o.kind.as_str())
    };
    match log_pnl(
        w,
        o.sym.as_str(),
        filled_base_of(o),
        filled_quote_of(o),
        o.avg_price,
        cb,
        ctx.now,
        kind.as_str(),
        answers,
    ) {
        Logged::Waiting(v) => v,
        Logged::Written(v, realized, pct) => {
            let mut line = text::owned("LIMIT SELL FILLED ");
            line.push_str(fill_head(o).as_str());
            line.push_str(")");
            line.push_str(pnl_tail(realized, pct).as_str());
            let mut out = saying(
                v,
                on_side(outcome(Some(o.sym.as_str()), Level::Done, line), "sell"),
            );
            out.ladder = with_window(
                out.ladder.copy(),
                o.sym.as_str(),
                ctx.now.plus(s.window_hours.times(Double::of_int(3600))),
            );
            out
        },
    }
}

/// Book one fill.
pub open spec fn book_fill_spec(
    s: SettingsView,
    ctx: RunCtxView,
    bal: BalancesView,
    o: OrderView,
    w: WorkView,
    answers: Seq<AnswerView>,
) -> WorkView {
    if stopped_spec(w) {
        w
    } else if o.kind == "market_buy"@ {
        book_market_buy_spec(s, ctx, bal, o, w, answers)
    } else if o.kind == "deploy_buy"@ {
        book_deploy_buy_spec(s, bal, o, w, answers)
    } else {
        book_sell_spec(s, ctx, o, w, answers)
    }
}

fn book_fill(
    s: &Settings,
    ctx: &RunCtx,
    bal: &Balances,
    o: &Order,
    w: Work,
    answers: &Vec<Answer>,
) -> (r: Work)
    ensures
        r.deep_view() == book_fill_spec(
            s.deep_view(),
            ctx.deep_view(),
            bal.deep_view(),
            o.deep_view(),
            w.deep_view(),
            answers.deep_view(),
        ),
{
    if stopped(&w) {
        return w;
    }
    if text::same(o.kind.as_str(), "market_buy") {
        return book_market_buy(s, ctx, bal, o, w, answers);
    }
    if text::same(o.kind.as_str(), "deploy_buy") {
        return book_deploy_buy(s, bal, o, w, answers);
    }
    book_sell(s, ctx, o, w, answers)
}

/// The first `n` of them.
pub open spec fn book_each_fill_spec(
    answers: Seq<AnswerView>,
    bal: BalancesView,
    ctx: RunCtxView,
    s: SettingsView,
    xs: Seq<OrderView>,
    w: WorkView,
    n: nat,
) -> WorkView
    decreases n,
{
    if n == 0 {
        w
    } else {
        let w = book_each_fill_spec(answers, bal, ctx, s, xs, w, (n - 1) as nat);
        let o = xs[n - 1];
        book_fill_spec(s, ctx, bal, o, w, answers)
    }
}

fn book_each_fill(
    answers: &Vec<Answer>,
    bal: &Balances,
    ctx: &RunCtx,
    s: &Settings,
    xs: &Vec<Order>,
    w: Work,
) -> (r: Work)
    ensures
        r.deep_view() == book_each_fill_spec(
            answers.deep_view(),
            bal.deep_view(),
            ctx.deep_view(),
            s.deep_view(),
            xs.deep_view(),
            w.deep_view(),
            xs@.len(),
        ),
{
    let ghost w0 = w.deep_view();
    let mut w = w;
    let mut i: usize = 0;
    while i < xs.len()
        invariant
            i <= xs@.len(),
            w.deep_view() == book_each_fill_spec(
                answers.deep_view(),
                bal.deep_view(),
                ctx.deep_view(),
                s.deep_view(),
                xs.deep_view(),
                w0,
                i as nat,
            ),
        decreases xs@.len() - i,
    {
        let o = &xs[i];
        w = book_fill(s, ctx, bal, o, w, answers);
        i = i + 1;
    }
    w
}

/// Book each fill that reconciling returned.
pub open spec fn book_fills_spec(
    s: SettingsView,
    ctx: RunCtxView,
    bal: BalancesView,
    fills: Seq<OrderView>,
    w: WorkView,
    answers: Seq<AnswerView>,
) -> WorkView {
    book_each_fill_spec(answers, bal, ctx, s, fills, w, fills.len())
}

/// Book each fill that reconciling returned.
pub fn book_fills(
    s: &Settings,
    ctx: &RunCtx,
    bal: &Balances,
    fills: &Vec<Order>,
    w: Work,
    answers: &Vec<Answer>,
) -> (r: Work)
    ensures
        r.deep_view() == book_fills_spec(
            s.deep_view(),
            ctx.deep_view(),
            bal.deep_view(),
            fills.deep_view(),
            w.deep_view(),
            answers.deep_view(),
        ),
{
    let mut w = w;
    w = book_each_fill(answers, bal, ctx, s, fills, w);
    w
}

/// Whether a row lacks what an order needs.
pub open spec fn nameless_spec(o: OrderView) -> bool {
    o.sym == ""@ || o.exch == ""@ || o.pair == ""@ || o.client_id == ""@
}

fn nameless(o: &Order) -> (r: bool)
    ensures
        r == nameless_spec(o.deep_view()),
{
    text::same(o.sym.as_str(), "")
        || text::same(o.exch.as_str(), "")
        || text::same(o.pair.as_str(), "")
        || text::same(o.client_id.as_str(), "")
}

/// Whether a resting order is a failed sell: the same id, or a price within 0.3%.
pub open spec fn is_adopted_spec(x: ParsedOrderView, same_id: bool, lim: Double) -> bool {
    if same_id {
        true
    } else {
        match nonzero_spec(x.price) {
            Some(p) => p.div_spec(lim).sub_spec(Double::int_spec(1)).abs_spec().lt_spec(
                Double::ratio_spec(3, 1000),
            ),
            None => false,
        }
    }
}

fn is_adopted(x: &ParsedOrder, same_id: bool, lim: Double) -> (r: bool)
    ensures
        r == is_adopted_spec(x.deep_view(), same_id, lim),
{
    if same_id {
        return true;
    }
    match nonzero(x.price) {
        Some(p) => p.over(lim).minus(Double::of_int(1)).abs().lt(Double::ratio(3, 1000)),
        None => false,
    }
}

/// Among the first `n` of them.
pub open spec fn find_adopted_spec(
    lim: Double,
    xs: Seq<(ParsedOrderView, bool)>,
    out: Option<ParsedOrderView>,
    n: nat,
) -> Option<ParsedOrderView> {
    match out {
        Some(v) => Some(v),
        None => list::first_given(
            xs,
            |it: (ParsedOrderView, bool)| {
                let x = it.0;
                let same_id = it.1;
                if is_adopted_spec(x, same_id, lim) {
                    Some(x)
                } else {
                    None
                }
            },
            n,
        ),
    }
}

fn find_adopted(
    lim: Double,
    xs: &Vec<(ParsedOrder, bool)>,
    out: Option<ParsedOrder>,
) -> (r: Option<ParsedOrder>)
    ensures
        r.deep_view() == find_adopted_spec(lim, xs.deep_view(), out.deep_view(), xs@.len()),
{
    let ghost out0 = out.deep_view();
    let mut out = out;
    let mut i: usize = 0;
    while i < xs.len()
        invariant
            i <= xs@.len(),
            out.deep_view() == find_adopted_spec(lim, xs.deep_view(), out0, i as nat),
        decreases xs@.len() - i,
    {
        let it = &xs[i];
        let x = &it.0;
        let same_id = it.1;
        if out.is_none() && is_adopted(x, same_id, lim) {
            out = Some(x.dup());
        }
        assert(xs.deep_view()[i as int] == xs@[i as int].deep_view());
        assert(out.deep_view() == find_adopted_spec(lim, xs.deep_view(), out0, (i + 1) as nat));
        i = i + 1;
    }
    out
}

/// The first resting order that is a failed sell.
pub open spec fn adopted_order_spec(
    resting: Seq<(ParsedOrderView, bool)>,
    lim: Double,
) -> Option<ParsedOrderView> {
    let out: Option<ParsedOrderView> = None;
    find_adopted_spec(lim, resting, out, resting.len())
}

fn adopted_order(resting: &Vec<(ParsedOrder, bool)>, lim: Double) -> (r: Option<ParsedOrder>)
    ensures
        r.deep_view() == adopted_order_spec(resting.deep_view(), lim),
{
    let mut out: Option<ParsedOrder> = None;
    out = find_adopted(lim, resting, out);
    out
}

/// Hand a sell over that failed too often, once.
pub open spec fn give_up_spec(
    o: OrderView,
    base: Double,
    lim: Double,
    tries: i64,
    w: WorkView,
) -> WorkView {
    if match o.gave_up {
        Some(v) => v,
        None => false,
    } {
        w
    } else {
        let row = o;
        let row = OrderView { gave_up: Some(true), ..row };
        let w = updating_spec(w, row);
        saying_spec(
            w,
            outcome_spec(
                Some(o.sym),
                Level::Warn,
                "limit sell failed "@
                    + text::dec_int(tries as int)
                    + "x, giving up -- place ~"@
                    + crate::watch::pyfmt::g_spec(base, 6)
                    + " "@
                    + o.sym
                    + " @ $"@
                    + crate::watch::pyfmt::g_spec(lim, 6)
                    + " manually"@,
            ),
        )
    }
}

fn give_up(o: &Order, base: Double, lim: Double, tries: i64, w: Work) -> (r: Work)
    ensures
        r.deep_view() == give_up_spec(o.deep_view(), base, lim, tries, w.deep_view()),
{
    let mut w = w;
    if match o.gave_up {
        Some(v) => v,
        None => false,
    } {
        return w;
    }
    let mut row = o.dup();
    row.gave_up = Some(true);
    w = updating(w, row);
    let mut line = text::owned("limit sell failed ");
    line.push_str(text::dec_i64(tries).as_str());
    line.push_str("x, giving up -- place ~");
    line.push_str(crate::watch::pyfmt::g(base, 6).as_str());
    line.push_str(" ");
    line.push_str(o.sym.as_str());
    line.push_str(" @ $");
    line.push_str(crate::watch::pyfmt::g(lim, 6).as_str());
    line.push_str(" manually");
    saying(w, outcome(Some(o.sym.as_str()), Level::Warn, line))
}

/// A failed sell that rests after all.
pub open spec fn adopt_spec(o: OrderView, a: ParsedOrderView, w: WorkView) -> WorkView {
    let row = o;
    let row = OrderView { status: "open"@, ..row };
    let row = OrderView { order_id: Some(a.order_id), ..row };
    let row = OrderView { last_error: None, ..row };
    let w = updating_spec(w, row);
    match a.price {
        Some(p) => saying_spec(
            w,
            outcome_spec(
                Some(o.sym),
                Level::Done,
                "adopted resting limit sell @ $"@
                    + crate::watch::pyfmt::g_spec(p, 6)
                    + " (original placement had succeeded)"@,
            ),
        ),
        None => failing_spec(w, NONE_FORMAT@),
    }
}

fn adopt(o: &Order, a: &ParsedOrder, w: Work) -> (r: Work)
    ensures
        r.deep_view() == adopt_spec(o.deep_view(), a.deep_view(), w.deep_view()),
{
    let mut w = w;
    let mut row = o.dup();
    row.status = text::owned("open");
    row.order_id = Some(text::owned(a.order_id.as_str()));
    row.last_error = None;
    w = updating(w, row);
    match a.price {
        Some(p) => {
            let mut line = text::owned("adopted resting limit sell @ $");
            line.push_str(crate::watch::pyfmt::g(p, 6).as_str());
            line.push_str(" (original placement had succeeded)");
            saying(w, outcome(Some(o.sym.as_str()), Level::Done, line))
        },
        None => failing(w, text::owned(NONE_FORMAT)),
    }
}

/// A sell that was refused once more.
pub open spec fn retry_failed_spec(
    o: OrderView,
    tries: i64,
    why: Seq<char>,
    w: WorkView,
) -> WorkView {
    let row = o;
    let row = OrderView { retries: Some(tries), ..row };
    let row = OrderView { last_error: Some(why), ..row };
    let w = updating_spec(w, row);
    saying_spec(
        w,
        outcome_spec(
            Some(o.sym),
            Level::Warn,
            "limit-sell retry "@ + text::dec_int(tries as int) + "/5 failed: "@ + why,
        ),
    )
}

fn retry_failed(o: &Order, tries: i64, why: &str, w: Work) -> (r: Work)
    ensures
        r.deep_view() == retry_failed_spec(o.deep_view(), tries, why@, w.deep_view()),
{
    let mut w = w;
    let mut row = o.dup();
    row.retries = Some(tries);
    row.last_error = Some(text::owned(why));
    w = updating(w, row);
    let mut line = text::owned("limit-sell retry ");
    line.push_str(text::dec_i64(tries).as_str());
    line.push_str("/5 failed: ");
    line.push_str(why);
    saying(w, outcome(Some(o.sym.as_str()), Level::Warn, line))
}

/// A sell that was placed at last.
pub open spec fn retry_done_spec(
    o: OrderView,
    base: Double,
    lim: Double,
    tries: i64,
    lf: ParsedOrderView,
    w: WorkView,
) -> WorkView {
    let row = placed_row_spec(o, lf);
    let row = OrderView { retries: Some(tries), ..row };
    let row = OrderView { last_error: None, ..row };
    let w = updating_spec(w, row);
    saying_spec(
        w,
        sent_spec(
            outcome_spec(
                Some(o.sym),
                Level::Done,
                "RETRY OK: limit sell "@
                    + crate::watch::pyfmt::g_spec(base, 6)
                    + " "@
                    + o.sym
                    + " @ $"@
                    + crate::watch::pyfmt::g_spec(lim, 6),
            ),
        ),
    )
}

fn retry_done(
    o: &Order,
    base: Double,
    lim: Double,
    tries: i64,
    lf: &ParsedOrder,
    w: Work,
) -> (r: Work)
    ensures
        r.deep_view() == retry_done_spec(
            o.deep_view(),
            base,
            lim,
            tries,
            lf.deep_view(),
            w.deep_view(),
        ),
{
    let mut w = w;
    let mut row = placed_row(o.dup(), lf);
    row.retries = Some(tries);
    row.last_error = None;
    w = updating(w, row);
    let mut line = text::owned("RETRY OK: limit sell ");
    line.push_str(crate::watch::pyfmt::g(base, 6).as_str());
    line.push_str(" ");
    line.push_str(o.sym.as_str());
    line.push_str(" @ $");
    line.push_str(crate::watch::pyfmt::g(lim, 6).as_str());
    saying(w, sent(outcome(Some(o.sym.as_str()), Level::Done, line)))
}

/// Place a failed sell again, under an id of its own.
pub open spec fn place_again_spec(
    o: OrderView,
    base: Double,
    lim: Double,
    tries: i64,
    w: WorkView,
    answers: Seq<AnswerView>,
) -> WorkView {
    match legal_id_spec(o.client_id + "x"@ + text::dec_int(tries as int)) {
        Ok(rcid) => match list::item(answers, w.at) {
            Some(a) => {
                let w = WorkView { at: (w.at + 1) as usize, ..w };
                match a {
                    AnswerView::Placed(lf) => retry_done_spec(o, base, lim, tries, lf, w),
                    _ => retry_failed_spec(o, tries, reason_of_spec(a), w),
                }
            },
            None => asking_spec(w, AskView::LimitSell(o.exch, o.pair, base, lim, rcid)),
        },
        Err(e) => retry_failed_spec(o, tries, e, w),
    }
}

fn place_again(
    o: &Order,
    base: Double,
    lim: Double,
    tries: i64,
    w: Work,
    answers: &Vec<Answer>,
) -> (r: Work)
    ensures
        r.deep_view() == place_again_spec(
            o.deep_view(),
            base,
            lim,
            tries,
            w.deep_view(),
            answers.deep_view(),
        ),
{
    let mut w = w;
    let mut line = text::owned(o.client_id.as_str());
    line.push_str("x");
    line.push_str(text::dec_i64(tries).as_str());
    match legal_id(line.as_str()) {
        Ok(rcid) => {
            let a = match list::at(answers, w.at) {
                Some(v) => v,
                None => {
                    return asking(
                        w,
                        Ask::LimitSell(
                            text::owned(o.exch.as_str()),
                            text::owned(o.pair.as_str()),
                            base,
                            lim,
                            rcid,
                        ),
                    );
                },
            };
            w.at = (w.at + 1);
            match a {
                Answer::Placed(lf) => retry_done(o, base, lim, tries, lf, w),
                _ => retry_failed(o, tries, reason_of(a).as_str(), w),
            }
        },
        Err(e) => retry_failed(o, tries, e.as_str(), w),
    }
}

/// Retry a failed sell whose size and price are known.
pub open spec fn retry_sized_spec(
    o: OrderView,
    base: Double,
    lim: Double,
    w: WorkView,
    answers: Seq<AnswerView>,
) -> WorkView {
    let tries = match o.retries {
        Some(v) => v,
        None => 0,
    };
    if tries >= MAX_SELL_RETRIES {
        give_up_spec(o, base, lim, tries, w)
    } else {
        let w = reach_spec(w, o.exch, answers);
        if stopped_spec(w) {
            w
        } else {
            match list::item(answers, w.at) {
                Some(a) => {
                    let w = WorkView { at: (w.at + 1) as usize, ..w };
                    match a {
                        AnswerView::Orders(resting) => match adopted_order_spec(resting, lim) {
                            Some(x) => adopt_spec(o, x, w),
                            None => place_again_spec(o, base, lim, (tries + 1) as i64, w, answers),
                        },
                        _ => saying_spec(
                            w,
                            outcome_spec(
                                Some(o.sym),
                                Level::Warn,
                                "limit-sell retry: open_orders failed: "@ + reason_of_spec(a),
                            ),
                        ),
                    }
                },
                None => asking_spec(w, AskView::OpenOrders(o.exch, o.pair, o.client_id)),
            }
        }
    }
}

fn retry_sized(o: &Order, base: Double, lim: Double, w: Work, answers: &Vec<Answer>) -> (r: Work)
    ensures
        r.deep_view() == retry_sized_spec(
            o.deep_view(),
            base,
            lim,
            w.deep_view(),
            answers.deep_view(),
        ),
{
    let mut w = w;
    let tries: i64 = match o.retries {
        Some(v) => v,
        None => 0,
    };
    if tries >= MAX_SELL_RETRIES {
        return give_up(o, base, lim, tries, w);
    }
    w = reach(w, o.exch.as_str(), answers);
    if stopped(&w) {
        return w;
    }
    let a = match list::at(answers, w.at) {
        Some(v) => v,
        None => {
            return asking(
                w,
                Ask::OpenOrders(
                    text::owned(o.exch.as_str()),
                    text::owned(o.pair.as_str()),
                    text::owned(o.client_id.as_str()),
                ),
            );
        },
    };
    w.at = (w.at + 1);
    match a {
        Answer::Orders(resting) => match adopted_order(resting, lim) {
            Some(x) => adopt(o, &x, w),
            None => place_again(o, base, lim, (tries + 1), w, answers),
        },
        _ => {
            let mut line = text::owned("limit-sell retry: open_orders failed: ");
            line.push_str(reason_of(a).as_str());
            saying(w, outcome(Some(o.sym.as_str()), Level::Warn, line))
        },
    }
}

/// Retry one failed sell.
pub open spec fn retry_one_spec(o: OrderView, w: WorkView, answers: Seq<AnswerView>) -> WorkView {
    if stopped_spec(w) || nameless_spec(o) {
        w
    } else {
        match nonzero_spec(o.base) {
            Some(base) => match nonzero_spec(o.price) {
                Some(lim) => retry_sized_spec(o, base, lim, w, answers),
                None => w,
            },
            None => w,
        }
    }
}

fn retry_one(o: &Order, w: Work, answers: &Vec<Answer>) -> (r: Work)
    ensures
        r.deep_view() == retry_one_spec(o.deep_view(), w.deep_view(), answers.deep_view()),
{
    if stopped(&w) || nameless(o) {
        return w;
    }
    match nonzero(o.base) {
        Some(base) => match nonzero(o.price) {
            Some(lim) => retry_sized(o, base, lim, w, answers),
            None => w,
        },
        None => w,
    }
}

/// The first `n` of them.
pub open spec fn retry_each_spec(
    answers: Seq<AnswerView>,
    xs: Seq<OrderView>,
    w: WorkView,
    n: nat,
) -> WorkView
    decreases n,
{
    if n == 0 {
        w
    } else {
        let w = retry_each_spec(answers, xs, w, (n - 1) as nat);
        let o = xs[n - 1];
        retry_one_spec(o, w, answers)
    }
}

fn retry_each(answers: &Vec<Answer>, xs: &Vec<Order>, w: Work) -> (r: Work)
    ensures
        r.deep_view() == retry_each_spec(
            answers.deep_view(),
            xs.deep_view(),
            w.deep_view(),
            xs@.len(),
        ),
{
    let ghost w0 = w.deep_view();
    let mut w = w;
    let mut i: usize = 0;
    while i < xs.len()
        invariant
            i <= xs@.len(),
            w.deep_view() == retry_each_spec(answers.deep_view(), xs.deep_view(), w0, i as nat),
        decreases xs@.len() - i,
    {
        let o = &xs[i];
        w = retry_one(o, w, answers);
        i = i + 1;
    }
    w
}

/// Retry every limit sell whose placement failed: adopt it where it rests after all, place it again
/// otherwise, five times at most.
pub open spec fn retry_failed_limit_sells_spec(w: WorkView, answers: Seq<AnswerView>) -> WorkView {
    let rows = journal::failed_rows_spec(journal::rows_alone(w.journal), Some("limit_sell"@));
    retry_each_spec(answers, rows, w, rows.len())
}

/// Retry every limit sell whose placement failed: adopt it where it rests after all, place it again
/// otherwise, five times at most.
pub fn retry_failed_limit_sells(w: Work, answers: &Vec<Answer>) -> (r: Work)
    ensures
        r.deep_view() == retry_failed_limit_sells_spec(w.deep_view(), answers.deep_view()),
{
    let mut w = w;
    let rows = journal::failed_rows(&&w.journal.rows(), Some("limit_sell"));
    w = retry_each(answers, &rows, w);
    w
}

/// The 30-minute slot a reprice or restore id is suffixed with.
pub open spec fn slot_spec(now: Double) -> i64 {
    let k = now.div_spec(Double::int_spec(1800)).floor_spec().cast_spec(
        i64::MIN as int,
        i64::MAX as int,
    );
    if k >= 0 {
        (k % 100_000) as i64
    } else {
        (-((-k) % 100_000)) as i64
    }
}

fn slot(now: Double) -> (r: i64)
    ensures
        r == slot_spec(now),
{
    let k: i64 = now.over(Double::of_int(1800)).floor().to_i64();
    if k >= 0 {
        k % 100_000
    } else {
        let up: i128 = -(k as i128);
        -((up % 100_000) as i64)
    }
}

/// The stale-order flags with one recorded, and without those of orders no longer open (when the
/// open ones are given).
pub open spec fn flagged_spec(
    ttl: Seq<(Seq<char>, Double)>,
    cid: Seq<char>,
    now: Double,
    open: Option<Seq<Seq<char>>>,
) -> Seq<(Seq<char>, Double)> {
    let marked = put_flag_spec(ttl, cid, now);
    match open {
        Some(l) => keep_flags_spec(marked, cid, l),
        None => marked,
    }
}

/// The stale-order flags with one recorded, and without those of orders no longer open (when the
/// open ones are given).
pub fn flagged(
    ttl: TtlWarned,
    cid: &str,
    now: Double,
    open: Option<&Vec<String>>,
) -> (r: TtlWarned)
    ensures
        r.deep_view() == flagged_spec(ttl.deep_view(), cid@, now, open.deep_view()),
{
    let marked = put_flag(ttl, cid, now);
    match open {
        Some(l) => keep_flags(marked, cid, l),
        None => marked,
    }
}

/// Whether a stale order is mentioned, and the flags then: only one that is due is, and it is flagged.
pub open spec fn ttl_should_warn_spec(
    ttl: Seq<(Seq<char>, Double)>,
    cid: Seq<char>,
    now: Double,
    open: Option<Seq<Seq<char>>>,
    due: bool,
) -> (Seq<(Seq<char>, Double)>, bool) {
    if !due {
        (ttl, false)
    } else {
        (flagged_spec(ttl, cid, now, open), true)
    }
}

/// Whether a stale order is mentioned, and the flags then: only one that is due is, and it is flagged.
pub fn ttl_should_warn(
    ttl: TtlWarned,
    cid: &str,
    now: Double,
    open: Option<&Vec<String>>,
    due: bool,
) -> (r: (TtlWarned, bool))
    ensures
        r.deep_view() == ttl_should_warn_spec(ttl.deep_view(), cid@, now, open.deep_view(), due),
{
    if !due {
        return (ttl, false);
    }
    (flagged(ttl, cid, now, open), true)
}

/// How far a target has come.
#[derive(Debug)]
pub enum Targeted {
    Waiting(Work),
    /// The target, and the share of it below which a price is moved up.
    At(Work, Option<Double>, Double),
}

/// What a [`Targeted`] says.
#[allow(inconsistent_fields)]
pub enum TargetedView {
    Waiting(WorkView),
    At(WorkView, Option<Double>, Double),
}

impl DeepView for Targeted {
    type V = TargetedView;

    open spec fn deep_view(&self) -> TargetedView {
        match self {
            Targeted::Waiting(a) => TargetedView::Waiting(a.deep_view()),
            Targeted::At(a, b, c) => TargetedView::At(a.deep_view(), *b, *c),
        }
    }
}

/// The take-profit price over the recorded cost basis.
pub open spec fn basis_target_spec(
    o: OrderView,
    w: WorkView,
    answers: Seq<AnswerView>,
) -> TargetedView {
    match cost_basis_spec(w.ladder, o.sym) {
        Some(cb) => match list::item(answers, w.at) {
            Some(a) => {
                let w = WorkView { at: (w.at + 1) as usize, ..w };
                match a {
                    AnswerView::Number(t) => TargetedView::At(
                        w,
                        Some(t),
                        Double::ratio_spec(999, 1000),
                    ),
                    _ => TargetedView::Waiting(failing_spec(w, reason_of_spec(a))),
                }
            },
            None => TargetedView::Waiting(asking_spec(w, AskView::Target(cb, o.exch))),
        },
        None => TargetedView::At(w, None, Double::ratio_spec(999, 1000)),
    }
}

fn basis_target(o: &Order, w: Work, answers: &Vec<Answer>) -> (r: Targeted)
    ensures
        r.deep_view() == basis_target_spec(o.deep_view(), w.deep_view(), answers.deep_view()),
{
    let mut w = w;
    match cost_basis(&w.ladder, o.sym.as_str()) {
        Some(cb) => {
            let a = match list::at(answers, w.at) {
                Some(v) => v,
                None => {
                    return Targeted::Waiting(
                        asking(w, Ask::Target(cb, text::owned(o.exch.as_str()))),
                    );
                },
            };
            w.at = (w.at + 1);
            match a {
                Answer::Number(t) => Targeted::At(w, Some(*t), Double::ratio(999, 1000)),
                _ => Targeted::Waiting(failing(w, reason_of(a))),
            }
        },
        None => Targeted::At(w, None, Double::ratio(999, 1000)),
    }
}

/// A trailing coin's target rides the venue price, where that can be read; its wider band keeps a
/// climbing price from churning a cancel and re-place every run.
pub open spec fn trailing_target_spec(
    o: OrderView,
    tgt: Option<Double>,
    w: WorkView,
    answers: Seq<AnswerView>,
) -> TargetedView {
    match list::item(answers, w.at) {
        Some(a) => {
            let w = WorkView { at: (w.at + 1) as usize, ..w };
            match a {
                AnswerView::Number(p) => match list::item(answers, w.at) {
                    Some(b) => {
                        let w = WorkView { at: (w.at + 1) as usize, ..w };
                        match b {
                            AnswerView::Number(t) => TargetedView::At(
                                w,
                                Some(
                                    (match tgt {
                                        Some(v) => v,
                                        None => Double::zero_spec(),
                                    }).max_spec(
                                        t,
                                    ),
                                ),
                                Double::ratio_spec(98, 100),
                            ),
                            _ => TargetedView::Waiting(failing_spec(w, reason_of_spec(b))),
                        }
                    },
                    None => TargetedView::Waiting(asking_spec(w, AskView::Target(p, o.exch))),
                },
                _ => TargetedView::At(w, tgt, Double::ratio_spec(999, 1000)),
            }
        },
        None => TargetedView::Waiting(asking_spec(w, AskView::Price(o.exch, o.pair))),
    }
}

fn trailing_target(
    o: &Order,
    tgt: Option<Double>,
    w: Work,
    answers: &Vec<Answer>,
) -> (r: Targeted)
    ensures
        r.deep_view() == trailing_target_spec(
            o.deep_view(),
            tgt,
            w.deep_view(),
            answers.deep_view(),
        ),
{
    let mut w = w;
    let a = match list::at(answers, w.at) {
        Some(v) => v,
        None => {
            return Targeted::Waiting(
                asking(w, Ask::Price(text::owned(o.exch.as_str()), text::owned(o.pair.as_str()))),
            );
        },
    };
    w.at = (w.at + 1);
    match a {
        Answer::Number(p) => {
            let b = match list::at(answers, w.at) {
                Some(v) => v,
                None => {
                    return Targeted::Waiting(
                        asking(w, Ask::Target(*p, text::owned(o.exch.as_str()))),
                    );
                },
            };
            w.at = (w.at + 1);
            match b {
                Answer::Number(t) => Targeted::At(
                    w,
                    Some(
                        (match tgt {
                            Some(v) => v,
                            None => Double::zero(),
                        }).max(
                            *t,
                        ),
                    ),
                    Double::ratio(98, 100),
                ),
                _ => Targeted::Waiting(failing(w, reason_of(b))),
            }
        },
        _ => Targeted::At(w, tgt, Double::ratio(999, 1000)),
    }
}

/// The target of a sell on a venue that can be reached.
pub open spec fn reached_target_spec(
    ctx: RunCtxView,
    o: OrderView,
    tgt: Option<Double>,
    w: WorkView,
    answers: Seq<AnswerView>,
) -> TargetedView {
    let w = reach_spec(w, o.exch, answers);
    if stopped_spec(w) {
        TargetedView::Waiting(w)
    } else if ctx.trailing.contains(o.sym) {
        trailing_target_spec(o, tgt, w, answers)
    } else {
        TargetedView::At(w, tgt, Double::ratio_spec(999, 1000))
    }
}

fn reached_target(
    ctx: &RunCtx,
    o: &Order,
    tgt: Option<Double>,
    w: Work,
    answers: &Vec<Answer>,
) -> (r: Targeted)
    ensures
        r.deep_view() == reached_target_spec(
            ctx.deep_view(),
            o.deep_view(),
            tgt,
            w.deep_view(),
            answers.deep_view(),
        ),
{
    let mut w = w;
    w = reach(w, o.exch.as_str(), answers);
    if stopped(&w) {
        return Targeted::Waiting(w);
    }
    if list::holds(&ctx.trailing, o.sym.as_str()) {
        return trailing_target(o, tgt, w, answers);
    }
    Targeted::At(w, tgt, Double::ratio(999, 1000))
}

/// The price a resting sell should be at.
pub open spec fn sell_target_spec(
    ctx: RunCtxView,
    o: OrderView,
    w: WorkView,
    answers: Seq<AnswerView>,
) -> TargetedView {
    match basis_target_spec(o, w, answers) {
        TargetedView::Waiting(v) => TargetedView::Waiting(v),
        TargetedView::At(v, tgt, band) => reached_target_spec(ctx, o, tgt, v, answers),
    }
}

fn sell_target(ctx: &RunCtx, o: &Order, w: Work, answers: &Vec<Answer>) -> (r: Targeted)
    ensures
        r.deep_view() == sell_target_spec(
            ctx.deep_view(),
            o.deep_view(),
            w.deep_view(),
            answers.deep_view(),
        ),
{
    match basis_target(o, w, answers) {
        Targeted::Waiting(v) => Targeted::Waiting(v),
        Targeted::At(v, tgt, band) => reached_target(ctx, o, tgt, v, answers),
    }
}

/// The target, the price and the base of a sell that sits too far below its target.
pub open spec fn needs_reprice_spec(
    o: OrderView,
    tgt: Option<Double>,
    band: Double,
) -> Option<(Double, Double, Double)> {
    match nonzero_spec(tgt) {
        Some(t) => match nonzero_spec(o.price) {
            Some(p) => match nonzero_spec(o.base) {
                Some(b) => if p.lt_spec(t.mul_spec(band)) {
                    Some((t, p, b))
                } else {
                    None
                },
                None => None,
            },
            None => None,
        },
        None => None,
    }
}

fn needs_reprice(
    o: &Order,
    tgt: Option<Double>,
    band: Double,
) -> (r: Option<(Double, Double, Double)>)
    ensures
        r == needs_reprice_spec(o.deep_view(), tgt, band),
{
    let t = match nonzero(tgt) {
        Some(v) => v,
        None => {
            return None;
        },
    };
    let p = match nonzero(o.price) {
        Some(v) => v,
        None => {
            return None;
        },
    };
    let b = match nonzero(o.base) {
        Some(v) => v,
        None => {
            return None;
        },
    };
    if p.lt(t.times(band)) {
        return Some((t, p, b));
    }
    None
}

/// The row of a cover that was restored.
pub open spec fn restored_row_spec(
    o: OrderView,
    rcid: Seq<char>,
    ncid: Seq<char>,
    base: Double,
    price: Double,
    now: Double,
    rf: ParsedOrderView,
) -> OrderView {
    let row = placed_row_spec(
        pending_row_spec(
            limit_sell_row_spec(rcid, o.sym, o.exch, o.pair, base, price),
            match o.rung {
                Some(v) => v,
                None => 1,
            },
            now,
        ),
        rf,
    );
    OrderView {
        note: Some("cover restored at prior price after "@ + ncid + " was rejected"@),
        ..row
    }
}

fn restored_row(
    o: &Order,
    rcid: &str,
    ncid: &str,
    base: Double,
    price: Double,
    now: Double,
    rf: &ParsedOrder,
) -> (r: Order)
    ensures
        r.deep_view() == restored_row_spec(
            o.deep_view(),
            rcid@,
            ncid@,
            base,
            price,
            now,
            rf.deep_view(),
        ),
{
    let mut row = placed_row(
        pending_row(
            limit_sell_row(rcid, o.sym.as_str(), o.exch.as_str(), o.pair.as_str(), base, price),
            match o.rung {
                Some(v) => v,
                None => 1,
            },
            now,
        ),
        rf,
    );
    let mut line = text::owned("cover restored at prior price after ");
    line.push_str(ncid);
    line.push_str(" was rejected");
    row.note = Some(line);
    row
}

/// The row of a refused reprice after its cover was restored, so that the retry path cannot add a
/// second cover.
pub open spec fn retired_row_spec(row: OrderView, rcid: Seq<char>) -> OrderView {
    let row = OrderView { status: "canceled"@, ..row };
    OrderView { note: Some("cover restored as "@ + rcid), ..row }
}

fn retired_row(row: Order, rcid: &str) -> (r: Order)
    ensures
        r.deep_view() == retired_row_spec(row.deep_view(), rcid@),
{
    let mut row = row;
    row.status = text::owned("canceled");
    let mut line = text::owned("cover restored as ");
    line.push_str(rcid);
    row.note = Some(line);
    row
}

/// The cancel went through and the new price was refused, so the position is uncovered right now:
/// restore cover at the old price, the one the venue already accepted.
pub open spec fn restore_cover_spec(
    ctx: RunCtxView,
    o: OrderView,
    row: OrderView,
    tgt: Double,
    price: Double,
    base: Double,
    why: Seq<char>,
    w: WorkView,
    answers: Seq<AnswerView>,
) -> WorkView {
    let rcid = journal::suffixed_spec(
        o.client_id,
        "v"@ + text::dec_int(slot_spec(ctx.now) as int),
    );
    if journal::has_row_spec(w.journal, rcid) {
        w
    } else {
        match list::item(answers, w.at) {
            Some(a) => {
                let w = WorkView { at: (w.at + 1) as usize, ..w };
                match a {
                    AnswerView::Placed(rf) => {
                        let w = writing_spec(
                            w,
                            restored_row_spec(o, rcid, row.client_id, base, price, ctx.now, rf),
                        );
                        let w = writing_spec(w, retired_row_spec(row, rcid));
                        saying_spec(
                            w,
                            sent_spec(
                                outcome_spec(
                                    Some(o.sym),
                                    Level::Warn,
                                    "reprice to $"@
                                        + crate::watch::pyfmt::g_spec(tgt, 6)
                                        + " rejected ("@
                                        + why
                                        + "); cover RESTORED at $"@
                                        + crate::watch::pyfmt::g_spec(price, 6)
                                        + " -- position is protected, retries next run"@,
                                ),
                            ),
                        )
                    },
                    _ => saying_spec(
                        w,
                        outcome_spec(
                            Some(o.sym),
                            Level::Warn,
                            "reprice re-place failed ("@
                                + why
                                + ") AND restore failed ("@
                                + reason_of_spec(a)
                                + ") -- "@
                                + crate::watch::pyfmt::g_spec(base, 6)
                                + " "@
                                + o.sym
                                + " is UNPROTECTED, place @ $"@
                                + crate::watch::pyfmt::g_spec(price, 6)
                                + " manually"@,
                        ),
                    ),
                }
            },
            None => asking_spec(w, AskView::LimitSell(o.exch, o.pair, base, price, rcid)),
        }
    }
}

fn restore_cover(
    ctx: &RunCtx,
    o: &Order,
    row: Order,
    tgt: Double,
    price: Double,
    base: Double,
    why: &str,
    w: Work,
    answers: &Vec<Answer>,
) -> (r: Work)
    ensures
        r.deep_view() == restore_cover_spec(
            ctx.deep_view(),
            o.deep_view(),
            row.deep_view(),
            tgt,
            price,
            base,
            why@,
            w.deep_view(),
            answers.deep_view(),
        ),
{
    let mut w = w;
    let mut line = text::owned("v");
    line.push_str(text::dec_i64(slot(ctx.now)).as_str());
    let rcid = journal::suffixed(o.client_id.as_str(), line.as_str());
    if journal::has_row(&w.journal, rcid.as_str()) {
        return w;
    }
    let a = match list::at(answers, w.at) {
        Some(v) => v,
        None => {
            return asking(
                w,
                Ask::LimitSell(
                    text::owned(o.exch.as_str()),
                    text::owned(o.pair.as_str()),
                    base,
                    price,
                    rcid,
                ),
            );
        },
    };
    w.at = (w.at + 1);
    match a {
        Answer::Placed(rf) => {
            w = writing(
                w,
                restored_row(o, rcid.as_str(), row.client_id.as_str(), base, price, ctx.now, rf),
            );
            w = writing(w, retired_row(row, rcid.as_str()));
            let mut line2 = text::owned("reprice to $");
            line2.push_str(crate::watch::pyfmt::g(tgt, 6).as_str());
            line2.push_str(" rejected (");
            line2.push_str(why);
            line2.push_str("); cover RESTORED at $");
            line2.push_str(crate::watch::pyfmt::g(price, 6).as_str());
            line2.push_str(" -- position is protected, retries next run");
            saying(w, sent(outcome(Some(o.sym.as_str()), Level::Warn, line2)))
        },
        _ => {
            let mut line3 = text::owned("reprice re-place failed (");
            line3.push_str(why);
            line3.push_str(") AND restore failed (");
            line3.push_str(reason_of(a).as_str());
            line3.push_str(") -- ");
            line3.push_str(crate::watch::pyfmt::g(base, 6).as_str());
            line3.push_str(" ");
            line3.push_str(o.sym.as_str());
            line3.push_str(" is UNPROTECTED, place @ $");
            line3.push_str(crate::watch::pyfmt::g(price, 6).as_str());
            line3.push_str(" manually");
            saying(w, outcome(Some(o.sym.as_str()), Level::Warn, line3))
        },
    }
}

/// Place a sell at its new target, journaled before it is sent.
pub open spec fn place_higher_spec(
    s: SettingsView,
    ctx: RunCtxView,
    o: OrderView,
    ncid: Seq<char>,
    tgt: Double,
    price: Double,
    base: Double,
    w: WorkView,
    answers: Seq<AnswerView>,
) -> WorkView {
    let row = pending_row_spec(
        limit_sell_row_spec(ncid, o.sym, o.exch, o.pair, base, tgt),
        match o.rung {
            Some(v) => v,
            None => 1,
        },
        ctx.now,
    );
    let w = writing_spec(w, row);
    match list::item(answers, w.at) {
        Some(a) => {
            let w = WorkView { at: (w.at + 1) as usize, ..w };
            match a {
                AnswerView::Placed(lf) => {
                    let w = writing_spec(w, placed_row_spec(row, lf));
                    saying_spec(
                        w,
                        sent_spec(
                            outcome_spec(
                                Some(o.sym),
                                Level::Done,
                                "REPRICED limit sell up: $"@
                                    + crate::watch::pyfmt::g_spec(price, 6)
                                    + " -> $"@
                                    + crate::watch::pyfmt::g_spec(tgt, 6)
                                    + " (cost basis rose; never sell below entry +"@
                                    + pyfmt::fixed_spec(s.target_pct, 0)
                                    + "%)"@,
                            ),
                        ),
                    )
                },
                _ => {
                    let e = reason_of_spec(a);
                    let row = refused_row_spec(row, e);
                    let w = writing_spec(w, row);
                    restore_cover_spec(ctx, o, row, tgt, price, base, e, w, answers)
                },
            }
        },
        None => asking_spec(w, AskView::LimitSell(o.exch, o.pair, base, tgt, ncid)),
    }
}

fn place_higher(
    s: &Settings,
    ctx: &RunCtx,
    o: &Order,
    ncid: &str,
    tgt: Double,
    price: Double,
    base: Double,
    w: Work,
    answers: &Vec<Answer>,
) -> (r: Work)
    ensures
        r.deep_view() == place_higher_spec(
            s.deep_view(),
            ctx.deep_view(),
            o.deep_view(),
            ncid@,
            tgt,
            price,
            base,
            w.deep_view(),
            answers.deep_view(),
        ),
{
    let mut w = w;
    let mut row = pending_row(
        limit_sell_row(ncid, o.sym.as_str(), o.exch.as_str(), o.pair.as_str(), base, tgt),
        match o.rung {
            Some(v) => v,
            None => 1,
        },
        ctx.now,
    );
    w = writing(w, row.dup());
    let a = match list::at(answers, w.at) {
        Some(v) => v,
        None => {
            return asking(
                w,
                Ask::LimitSell(
                    text::owned(o.exch.as_str()),
                    text::owned(o.pair.as_str()),
                    base,
                    tgt,
                    text::owned(ncid),
                ),
            );
        },
    };
    w.at = (w.at + 1);
    match a {
        Answer::Placed(lf) => {
            w = writing(w, placed_row(row, lf));
            let mut line = text::owned("REPRICED limit sell up: $");
            line.push_str(crate::watch::pyfmt::g(price, 6).as_str());
            line.push_str(" -> $");
            line.push_str(crate::watch::pyfmt::g(tgt, 6).as_str());
            line.push_str(" (cost basis rose; never sell below entry +");
            line.push_str(pyfmt::fixed(s.target_pct, 0).as_str());
            line.push_str("%)");
            saying(w, sent(outcome(Some(o.sym.as_str()), Level::Done, line)))
        },
        _ => {
            let e = reason_of(a);
            row = refused_row(row, e.as_str());
            w = writing(w, row.dup());
            restore_cover(ctx, o, row, tgt, price, base, e.as_str(), w, answers)
        },
    }
}

/// A sell whose order was cancelled: what it sold before the cancel is booked (its P&L comes with
/// the next reconcile), and only what is still held is placed again.
pub open spec fn after_cancel_spec(
    s: SettingsView,
    ctx: RunCtxView,
    o: OrderView,
    ncid: Seq<char>,
    tgt: Double,
    price: Double,
    base: Double,
    w: WorkView,
    answers: Seq<AnswerView>,
) -> WorkView {
    match list::item(answers, w.at) {
        Some(a) => {
            let w = WorkView { at: (w.at + 1) as usize, ..w };
            match a {
                AnswerView::Settled(done, booked) => {
                    let left = base.sub_spec(
                        match done.filled_base {
                            Some(v) => v,
                            None => Double::zero_spec(),
                        },
                    ).max_spec(
                        Double::zero_spec(),
                    );
                    let w = updating_spec(w, done);
                    if !booked {
                        place_higher_spec(s, ctx, o, ncid, tgt, price, base, w, answers)
                    } else if left.le_spec(Double::zero_spec()) {
                        w
                    } else {
                        place_higher_spec(s, ctx, o, ncid, tgt, price, left, w, answers)
                    }
                },
                _ => failing_spec(w, reason_of_spec(a)),
            }
        },
        None => asking_spec(w, AskView::Settle(o.exch, o.client_id)),
    }
}

fn after_cancel(
    s: &Settings,
    ctx: &RunCtx,
    o: &Order,
    ncid: &str,
    tgt: Double,
    price: Double,
    base: Double,
    w: Work,
    answers: &Vec<Answer>,
) -> (r: Work)
    ensures
        r.deep_view() == after_cancel_spec(
            s.deep_view(),
            ctx.deep_view(),
            o.deep_view(),
            ncid@,
            tgt,
            price,
            base,
            w.deep_view(),
            answers.deep_view(),
        ),
{
    let mut w = w;
    let a = match list::at(answers, w.at) {
        Some(v) => v,
        None => {
            return asking(
                w,
                Ask::Settle(text::owned(o.exch.as_str()), text::owned(o.client_id.as_str())),
            );
        },
    };
    w.at = (w.at + 1);
    match a {
        Answer::Settled(done, booked) => {
            let left = base.minus(
                match done.filled_base {
                    Some(v) => v,
                    None => Double::zero(),
                },
            ).max(
                Double::zero(),
            );
            w = updating(w, done.dup());
            if !*booked {
                return place_higher(s, ctx, o, ncid, tgt, price, base, w, answers);
            }
            if left.le(Double::zero()) {
                return w;
            }
            place_higher(s, ctx, o, ncid, tgt, price, left, w, answers)
        },
        _ => failing(w, reason_of(a)),
    }
}

/// The row of a sell that is moved up.
pub open spec fn cancelled_row_spec(o: OrderView) -> OrderView {
    let row = o;
    let row = OrderView { status: "canceled"@, ..row };
    OrderView { note: Some("repriced up to new cost-basis target"@), ..row }
}

fn cancelled_row(o: &Order) -> (r: Order)
    ensures
        r.deep_view() == cancelled_row_spec(o.deep_view()),
{
    let mut row = o.dup();
    row.status = text::owned("canceled");
    row.note = Some(text::owned("repriced up to new cost-basis target"));
    row
}

/// Move a resting sell up to its target, unless this slot already did.
pub open spec fn reprice_spec(
    s: SettingsView,
    ctx: RunCtxView,
    o: OrderView,
    order_id: Seq<char>,
    tgt: Double,
    price: Double,
    base: Double,
    w: WorkView,
    answers: Seq<AnswerView>,
) -> WorkView {
    let ncid = journal::suffixed_spec(
        o.client_id,
        "u"@ + text::dec_int(slot_spec(ctx.now) as int),
    );
    if journal::has_row_spec(w.journal, ncid) {
        w
    } else {
        match list::item(answers, w.at) {
            Some(a) => {
                let w = WorkView { at: (w.at + 1) as usize, ..w };
                match a {
                    AnswerView::Done => {
                        let w = updating_spec(w, cancelled_row_spec(o));
                        after_cancel_spec(s, ctx, o, ncid, tgt, price, base, w, answers)
                    },
                    _ => saying_spec(
                        w,
                        outcome_spec(
                            Some(o.sym),
                            Level::Warn,
                            "reprice: cancel failed (may have just filled, reconciles next run): "@
                                + reason_of_spec(a),
                        ),
                    ),
                }
            },
            None => asking_spec(w, AskView::Cancel(o.exch, o.pair, order_id)),
        }
    }
}

fn reprice(
    s: &Settings,
    ctx: &RunCtx,
    o: &Order,
    order_id: &str,
    tgt: Double,
    price: Double,
    base: Double,
    w: Work,
    answers: &Vec<Answer>,
) -> (r: Work)
    ensures
        r.deep_view() == reprice_spec(
            s.deep_view(),
            ctx.deep_view(),
            o.deep_view(),
            order_id@,
            tgt,
            price,
            base,
            w.deep_view(),
            answers.deep_view(),
        ),
{
    let mut w = w;
    let mut line = text::owned("u");
    line.push_str(text::dec_i64(slot(ctx.now)).as_str());
    let ncid = journal::suffixed(o.client_id.as_str(), line.as_str());
    if journal::has_row(&w.journal, ncid.as_str()) {
        return w;
    }
    let a = match list::at(answers, w.at) {
        Some(v) => v,
        None => {
            return asking(
                w,
                Ask::Cancel(
                    text::owned(o.exch.as_str()),
                    text::owned(o.pair.as_str()),
                    text::owned(order_id),
                ),
            );
        },
    };
    w.at = (w.at + 1);
    match a {
        Answer::Done => {
            w = updating(w, cancelled_row(o));
            after_cancel(s, ctx, o, ncid.as_str(), tgt, price, base, w, answers)
        },
        _ => {
            let mut line2 = text::owned(
                "reprice: cancel failed (may have just filled, reconciles next run): ",
            );
            line2.push_str(reason_of(a).as_str());
            saying(w, outcome(Some(o.sym.as_str()), Level::Warn, line2))
        },
    }
}

/// Report a stale order.
pub open spec fn stale_line_spec(o: OrderView, ttl_days: Double, w: WorkView) -> WorkView {
    match o.base {
        Some(base) => match o.price {
            Some(price) => saying_spec(
                w,
                outcome_spec(
                    Some(o.sym),
                    Level::Warn,
                    "resting limit sell ("@
                        + crate::watch::pyfmt::g_spec(base, 6)
                        + " "@
                        + o.sym
                        + " @ $"@
                        + crate::watch::pyfmt::g_spec(price, 6)
                        + ") is older than "@
                        + pyfmt::fixed_spec(ttl_days, 0)
                        + "d -- price never reached the target even for this regime; review whether to keep it"@,
                ),
            ),
            None => failing_spec(w, NONE_FORMAT@),
        },
        None => failing_spec(w, NONE_FORMAT@),
    }
}

fn stale_line(o: &Order, ttl_days: Double, w: Work) -> (r: Work)
    ensures
        r.deep_view() == stale_line_spec(o.deep_view(), ttl_days, w.deep_view()),
{
    match o.base {
        Some(base) => match o.price {
            Some(price) => {
                let mut line = text::owned("resting limit sell (");
                line.push_str(crate::watch::pyfmt::g(base, 6).as_str());
                line.push_str(" ");
                line.push_str(o.sym.as_str());
                line.push_str(" @ $");
                line.push_str(crate::watch::pyfmt::g(price, 6).as_str());
                line.push_str(") is older than ");
                line.push_str(pyfmt::fixed(ttl_days, 0).as_str());
                line.push_str(
                    "d -- price never reached the target even for this regime; review whether to keep it",
                );
                saying(w, outcome(Some(o.sym.as_str()), Level::Warn, line))
            },
            None => failing(w, text::owned(NONE_FORMAT)),
        },
        None => failing(w, text::owned(NONE_FORMAT)),
    }
}

/// Ask whether a stale order is flagged now.
pub open spec fn asking_due_spec(
    s: SettingsView,
    ctx: RunCtxView,
    o: OrderView,
    w: WorkView,
) -> WorkView {
    let last_flag = flag_of_spec(w.ttl, o.client_id);
    asking_spec(w, AskView::Due(last_flag, ctx.now, s.ttl_renag_days))
}

fn asking_due(s: &Settings, ctx: &RunCtx, o: &Order, w: Work) -> (r: Work)
    ensures
        r.deep_view() == asking_due_spec(
            s.deep_view(),
            ctx.deep_view(),
            o.deep_view(),
            w.deep_view(),
        ),
{
    let last_flag = flag_of(&w.ttl, o.client_id.as_str());
    asking(w, Ask::Due(last_flag, ctx.now, s.ttl_renag_days))
}

/// Flag an order older than the regime's TTL, once per re-nag window.
pub open spec fn flag_stale_spec(
    s: SettingsView,
    ctx: RunCtxView,
    o: OrderView,
    ttl_days: Double,
    open: Seq<Seq<char>>,
    w: WorkView,
    answers: Seq<AnswerView>,
) -> WorkView {
    let since = match nonzero_spec(o.ts) {
        Some(v) => v,
        None => ctx.now,
    };
    if !(Double::zero_spec().lt_spec(ttl_days)
        && ttl_days.mul_spec(Double::int_spec(86400)).lt_spec(ctx.now.sub_spec(since))) {
        w
    } else {
        match list::item(answers, w.at) {
            Some(a) => {
                let w = WorkView { at: (w.at + 1) as usize, ..w };
                match a {
                    AnswerView::Yes(due) => if !due {
                        w
                    } else {
                        let w = WorkView {
                            ttl: flagged_spec(w.ttl, o.client_id, ctx.now, Some(open)),
                            ..w
                        };
                        stale_line_spec(o, ttl_days, w)
                    },
                    _ => failing_spec(w, reason_of_spec(a)),
                }
            },
            None => asking_due_spec(s, ctx, o, w),
        }
    }
}

fn flag_stale(
    s: &Settings,
    ctx: &RunCtx,
    o: &Order,
    ttl_days: Double,
    open: &Vec<String>,
    w: Work,
    answers: &Vec<Answer>,
) -> (r: Work)
    ensures
        r.deep_view() == flag_stale_spec(
            s.deep_view(),
            ctx.deep_view(),
            o.deep_view(),
            ttl_days,
            open.deep_view(),
            w.deep_view(),
            answers.deep_view(),
        ),
{
    let mut w = w;
    let since = match nonzero(o.ts) {
        Some(v) => v,
        None => ctx.now,
    };
    if !(Double::zero().lt(ttl_days)
        && ttl_days.times(Double::of_int(86400)).lt(ctx.now.minus(since))) {
        return w;
    }
    let a = match list::at(answers, w.at) {
        Some(v) => v,
        None => {
            return asking_due(s, ctx, o, w);
        },
    };
    w.at = (w.at + 1);
    match a {
        Answer::Yes(due) => {
            if !*due {
                return w;
            }
            w.ttl = flagged(w.ttl.dup(), o.client_id.as_str(), ctx.now, Some(open));
            stale_line(o, ttl_days, w)
        },
        _ => failing(w, reason_of(a)),
    }
}

/// Move a resting sell up, or flag it.
pub open spec fn manage_priced_spec(
    s: SettingsView,
    ctx: RunCtxView,
    o: OrderView,
    order_id: Seq<char>,
    tgt: Option<Double>,
    band: Double,
    ttl_days: Double,
    open: Seq<Seq<char>>,
    w: WorkView,
    answers: Seq<AnswerView>,
) -> WorkView {
    match needs_reprice_spec(o, tgt, band) {
        Some(m) => reprice_spec(s, ctx, o, order_id, m.0, m.1, m.2, w, answers),
        None => flag_stale_spec(s, ctx, o, ttl_days, open, w, answers),
    }
}

fn manage_priced(
    s: &Settings,
    ctx: &RunCtx,
    o: &Order,
    order_id: &str,
    tgt: Option<Double>,
    band: Double,
    ttl_days: Double,
    open: &Vec<String>,
    w: Work,
    answers: &Vec<Answer>,
) -> (r: Work)
    ensures
        r.deep_view() == manage_priced_spec(
            s.deep_view(),
            ctx.deep_view(),
            o.deep_view(),
            order_id@,
            tgt,
            band,
            ttl_days,
            open.deep_view(),
            w.deep_view(),
            answers.deep_view(),
        ),
{
    match needs_reprice(o, tgt, band) {
        Some(m) => reprice(s, ctx, o, order_id, m.0, m.1, m.2, w, answers),
        None => flag_stale(s, ctx, o, ttl_days, open, w, answers),
    }
}

/// Manage one resting sell.
pub open spec fn manage_one_spec(
    s: SettingsView,
    ctx: RunCtxView,
    o: OrderView,
    ttl_days: Double,
    open: Seq<Seq<char>>,
    w: WorkView,
    answers: Seq<AnswerView>,
) -> WorkView {
    if stopped_spec(w) || nameless_spec(o) {
        w
    } else {
        match o.order_id {
            Some(order_id) => if order_id == ""@ {
                w
            } else {
                match sell_target_spec(ctx, o, w, answers) {
                    TargetedView::Waiting(v) => v,
                    TargetedView::At(v, tgt, band) => manage_priced_spec(
                        s,
                        ctx,
                        o,
                        order_id,
                        tgt,
                        band,
                        ttl_days,
                        open,
                        v,
                        answers,
                    ),
                }
            },
            None => w,
        }
    }
}

fn manage_one(
    s: &Settings,
    ctx: &RunCtx,
    o: &Order,
    ttl_days: Double,
    open: &Vec<String>,
    w: Work,
    answers: &Vec<Answer>,
) -> (r: Work)
    ensures
        r.deep_view() == manage_one_spec(
            s.deep_view(),
            ctx.deep_view(),
            o.deep_view(),
            ttl_days,
            open.deep_view(),
            w.deep_view(),
            answers.deep_view(),
        ),
{
    if stopped(&w) || nameless(o) {
        return w;
    }
    match &o.order_id {
        Some(order_id) => {
            if text::same(order_id.as_str(), "") {
                return w;
            }
            match sell_target(ctx, o, w, answers) {
                Targeted::Waiting(v) => v,
                Targeted::At(v, tgt, band) => manage_priced(
                    s,
                    ctx,
                    o,
                    order_id.as_str(),
                    tgt,
                    band,
                    ttl_days,
                    open,
                    v,
                    answers,
                ),
            }
        },
        None => w,
    }
}

/// Of the first `n` rows.
pub open spec fn add_ids_spec(xs: Seq<OrderView>, out: Seq<Seq<char>>, n: nat) -> Seq<Seq<char>> {
    out + Seq::new(
        n,
        |i: int| {
            let o = xs[i];
            o.client_id
        },
    )
}

fn add_ids(xs: &Vec<Order>, out: Vec<String>) -> (r: Vec<String>)
    ensures
        r.deep_view() == add_ids_spec(xs.deep_view(), out.deep_view(), xs@.len()),
{
    let ghost out0 = out.deep_view();
    let mut out = out;
    let mut i: usize = 0;
    while i < xs.len()
        invariant
            i <= xs@.len(),
            out.deep_view() == add_ids_spec(xs.deep_view(), out0, i as nat),
        decreases xs@.len() - i,
    {
        let o = &xs[i];
        list::push(&mut out, text::owned(o.client_id.as_str()));
        assert(out.deep_view() =~= add_ids_spec(xs.deep_view(), out0, (i + 1) as nat));
        i = i + 1;
    }
    out
}

/// The client ids of some rows.
pub open spec fn ids_of_spec(rows: Seq<OrderView>) -> Seq<Seq<char>> {
    add_ids_spec(rows, Seq::<Seq<char>>::empty(), rows.len())
}

fn ids_of(rows: &Vec<Order>) -> (r: Vec<String>)
    ensures
        r.deep_view() == ids_of_spec(rows.deep_view()),
{
    let mut out: Vec<String> = list::none();
    out = add_ids(rows, out);
    out
}

/// The first `n` of them.
pub open spec fn manage_each_spec(
    answers: Seq<AnswerView>,
    ctx: RunCtxView,
    open: Seq<Seq<char>>,
    s: SettingsView,
    ttl_days: Double,
    xs: Seq<OrderView>,
    w: WorkView,
    n: nat,
) -> WorkView
    decreases n,
{
    if n == 0 {
        w
    } else {
        let w = manage_each_spec(answers, ctx, open, s, ttl_days, xs, w, (n - 1) as nat);
        let o = xs[n - 1];
        manage_one_spec(s, ctx, o, ttl_days, open, w, answers)
    }
}

#[verifier::rlimit(60)]
fn manage_each(
    answers: &Vec<Answer>,
    ctx: &RunCtx,
    open: &Vec<String>,
    s: &Settings,
    ttl_days: Double,
    xs: &Vec<Order>,
    w: Work,
) -> (r: Work)
    ensures
        r.deep_view() == manage_each_spec(
            answers.deep_view(),
            ctx.deep_view(),
            open.deep_view(),
            s.deep_view(),
            ttl_days,
            xs.deep_view(),
            w.deep_view(),
            xs@.len(),
        ),
{
    let ghost w0 = w.deep_view();
    let mut w = w;
    let mut i: usize = 0;
    while i < xs.len()
        invariant
            i <= xs@.len(),
            w.deep_view() == manage_each_spec(
                answers.deep_view(),
                ctx.deep_view(),
                open.deep_view(),
                s.deep_view(),
                ttl_days,
                xs.deep_view(),
                w0,
                i as nat,
            ),
        decreases xs@.len() - i,
    {
        let o = &xs[i];
        w = manage_one(s, ctx, o, ttl_days, open, w, answers);
        i = i + 1;
    }
    w
}

/// Move resting limit sells up to a risen target, flag stale ones.
pub open spec fn manage_resting_sells_spec(
    s: SettingsView,
    ctx: RunCtxView,
    w: WorkView,
    answers: Seq<AnswerView>,
) -> WorkView {
    match list::item(answers, w.at) {
        Some(a) => {
            let w = WorkView { at: (w.at + 1) as usize, ..w };
            match a {
                AnswerView::Number(ttl_days) => {
                    let rows = journal::open_rows_spec(
                        journal::rows_alone(w.journal),
                        Some("limit_sell"@),
                    );
                    let open = ids_of_spec(rows);
                    manage_each_spec(answers, ctx, open, s, ttl_days, rows, w, rows.len())
                },
                _ => failing_spec(w, reason_of_spec(a)),
            }
        },
        None => asking_spec(
            w,
            AskView::TtlDays(
                s.limit_ttl_days,
                s.limit_ttl_days_bear,
                s.limit_ttl_days_chop,
                ctx.market,
            ),
        ),
    }
}

/// Move resting limit sells up to a risen target, flag stale ones.
pub fn manage_resting_sells(
    s: &Settings,
    ctx: &RunCtx,
    w: Work,
    answers: &Vec<Answer>,
) -> (r: Work)
    ensures
        r.deep_view() == manage_resting_sells_spec(
            s.deep_view(),
            ctx.deep_view(),
            w.deep_view(),
            answers.deep_view(),
        ),
{
    let mut w = w;
    let a = match list::at(answers, w.at) {
        Some(v) => v,
        None => {
            return asking(
                w,
                Ask::TtlDays(
                    s.limit_ttl_days,
                    s.limit_ttl_days_bear,
                    s.limit_ttl_days_chop,
                    ctx.market.dup(),
                ),
            );
        },
    };
    w.at = (w.at + 1);
    match a {
        Answer::Number(ttl_days) => {
            let rows = journal::open_rows(&&w.journal.rows(), Some("limit_sell"));
            let open = ids_of(&rows);
            w = manage_each(answers, ctx, &open, s, *ttl_days, &rows, w);
            w
        },
        _ => failing(w, reason_of(a)),
    }
}

/// What a coin's holding is now, and how much of its change the journal explains.
#[derive(Debug)]
pub struct Holding {
    pub sym: String,
    pub have: Double,
    pub explained: Double,
    /// The venue could not be read.
    pub skipped: bool,
}

/// What a [`Holding`] holds.
pub struct HoldingView {
    pub sym: Seq<char>,
    pub have: Double,
    pub explained: Double,
    pub skipped: bool,
}

impl DeepView for Holding {
    type V = HoldingView;

    open spec fn deep_view(&self) -> HoldingView {
        HoldingView {
            sym: self.sym@,
            have: self.have,
            explained: self.explained,
            skipped: self.skipped,
        }
    }
}

impl Duplicate for Holding {
    fn dup(&self) -> (r: Holding) {
        Holding {
            sym: text::owned(self.sym.as_str()),
            have: self.have,
            explained: self.explained,
            skipped: self.skipped,
        }
    }
}

/// The number under a key of an object.
pub open spec fn obj_num_spec(o: Doc, k: Seq<char>) -> Option<Double> {
    if !(o is Obj) {
        None
    } else {
        match o.get(k) {
            Some(v) => v.num(),
            None => None,
        }
    }
}

fn obj_num(o: &Json, k: &str) -> (r: Option<Double>)
    ensures
        r == obj_num_spec(o@, k@),
{
    if !o.is_obj() {
        return None;
    }
    let v = match o.get(k) {
        Some(v) => v,
        None => {
            return None;
        },
    };
    v.num()
}

/// The first `n` of them.
pub open spec fn copy_holdings_spec(
    h: HoldingView,
    xs: Seq<HoldingView>,
    known: bool,
    out: Seq<HoldingView>,
    n: nat,
) -> (bool, Seq<HoldingView>)
    decreases n,
{
    if n == 0 {
        (known, out)
    } else {
        let (known, out) = copy_holdings_spec(h, xs, known, out, (n - 1) as nat);
        let x = xs[n - 1];
        if x.sym == h.sym {
            (true, out.push(h))
        } else {
            (known, out.push(x))
        }
    }
}

fn copy_holdings(
    h: &Holding,
    xs: &Vec<Holding>,
    known: bool,
    out: Vec<Holding>,
) -> (r: (bool, Vec<Holding>))
    ensures
        r.deep_view() == copy_holdings_spec(
            h.deep_view(),
            xs.deep_view(),
            known,
            out.deep_view(),
            xs@.len(),
        ),
{
    let ghost known0 = known;
    let ghost out0 = out.deep_view();
    let mut known = known;
    let mut out = out;
    let mut i: usize = 0;
    while i < xs.len()
        invariant
            i <= xs@.len(),
            (known, out.deep_view()) == copy_holdings_spec(
                h.deep_view(),
                xs.deep_view(),
                known0,
                out0,
                i as nat,
            ),
        decreases xs@.len() - i,
    {
        let x = &xs[i];
        if text::same(x.sym.as_str(), h.sym.as_str()) {
            known = true;
            list::push(&mut out, h.dup());
        } else {
            list::push(&mut out, x.dup());
        }
        i = i + 1;
    }
    (known, out)
}

/// The holdings with one written under its coin: in its place, or at the end.
pub open spec fn put_holding_spec(hs: Seq<HoldingView>, h: HoldingView) -> Seq<HoldingView> {
    let out = Seq::<HoldingView>::empty();
    let known = false;
    let (known, out) = copy_holdings_spec(h, hs, known, out, hs.len());
    if !known {
        out.push(h)
    } else {
        out
    }
}

fn put_holding(hs: &Vec<Holding>, h: Holding) -> (r: Vec<Holding>)
    ensures
        r.deep_view() == put_holding_spec(hs.deep_view(), h.deep_view()),
{
    let mut out: Vec<Holding> = list::none();
    let mut known = false;
    let (next_known, next_out) = copy_holdings(&h, hs, known, out);
    known = next_known;
    out = next_out;
    if !known {
        list::push(&mut out, h);
    }
    out
}

/// Of the first `n` routes.
pub open spec fn add_skipped_spec(
    failed: Seq<Seq<char>>,
    xs: Seq<RouteView>,
    out: Seq<Seq<char>>,
    n: nat,
) -> Seq<Seq<char>> {
    out + list::gathered(
        xs,
        |r: RouteView| if failed.contains(r.exch) {
            Some(r.sym)
        } else {
            None
        },
        n,
    )
}

fn add_skipped(failed: &Vec<String>, xs: &Vec<Route>, out: Vec<String>) -> (r: Vec<String>)
    ensures
        r.deep_view() == add_skipped_spec(
            failed.deep_view(),
            xs.deep_view(),
            out.deep_view(),
            xs@.len(),
        ),
{
    let ghost out0 = out.deep_view();
    let mut out = out;
    let mut i: usize = 0;
    while i < xs.len()
        invariant
            i <= xs@.len(),
            out.deep_view() == add_skipped_spec(
                failed.deep_view(),
                xs.deep_view(),
                out0,
                i as nat,
            ),
        decreases xs@.len() - i,
    {
        let r = &xs[i];
        if list::holds(failed, r.exch.as_str()) {
            list::push(&mut out, text::owned(r.sym.as_str()));
        }
        assert(out.deep_view() =~= add_skipped_spec(
            failed.deep_view(),
            xs.deep_view(),
            out0,
            (i + 1) as nat,
        ));
        i = i + 1;
    }
    out
}

/// The coins of venues that could not be read.
pub open spec fn skipped_coins_spec(
    routing: Seq<RouteView>,
    failed: Seq<Seq<char>>,
) -> Seq<Seq<char>> {
    add_skipped_spec(failed, routing, Seq::<Seq<char>>::empty(), routing.len())
}

fn skipped_coins(routing: &Vec<Route>, failed: &Vec<String>) -> (r: Vec<String>)
    ensures
        r.deep_view() == skipped_coins_spec(routing.deep_view(), failed.deep_view()),
{
    let mut out: Vec<String> = list::none();
    out = add_skipped(failed, routing, out);
    out
}

/// Of the first `n` routes.
pub open spec fn add_holdings_spec(
    bal: BalancesView,
    prev_hold: Doc,
    skipped: Seq<Seq<char>>,
    xs: Seq<RouteView>,
    out: Seq<HoldingView>,
    n: nat,
) -> Seq<HoldingView>
    decreases n,
{
    if n == 0 {
        out
    } else {
        let out = add_holdings_spec(bal, prev_hold, skipped, xs, out, (n - 1) as nat);
        let r = xs[n - 1];
        if bal.failed.contains(r.exch) {
            match obj_num_spec(prev_hold, r.sym) {
                Some(v) => put_holding_spec(
                    out,
                    HoldingView {
                        sym: r.sym,
                        have: v,
                        explained: Double::zero_spec(),
                        skipped: true,
                    },
                ),
                None => out,
            }
        } else {
            match asset_in_spec(book_of_spec(bal, r.exch), r.sym) {
                Some(b) => put_holding_spec(
                    out,
                    HoldingView {
                        sym: r.sym,
                        have: b.free.add_spec(b.locked),
                        explained: Double::zero_spec(),
                        skipped: skipped.contains(r.sym),
                    },
                ),
                None => put_holding_spec(
                    out,
                    HoldingView {
                        sym: r.sym,
                        have: Double::zero_spec(),
                        explained: Double::zero_spec(),
                        skipped: skipped.contains(r.sym),
                    },
                ),
            }
        }
    }
}

fn add_holdings(
    bal: &Balances,
    prev_hold: &Json,
    skipped: &Vec<String>,
    xs: &Vec<Route>,
    out: Vec<Holding>,
) -> (r: Vec<Holding>)
    ensures
        r.deep_view() == add_holdings_spec(
            bal.deep_view(),
            prev_hold@,
            skipped.deep_view(),
            xs.deep_view(),
            out.deep_view(),
            xs@.len(),
        ),
{
    let ghost out0 = out.deep_view();
    let mut out = out;
    let mut i: usize = 0;
    while i < xs.len()
        invariant
            i <= xs@.len(),
            out.deep_view() == add_holdings_spec(
                bal.deep_view(),
                prev_hold@,
                skipped.deep_view(),
                xs.deep_view(),
                out0,
                i as nat,
            ),
        decreases xs@.len() - i,
    {
        let r = &xs[i];
        if list::holds(&bal.failed, r.exch.as_str()) {
            match obj_num(prev_hold, r.sym.as_str()) {
                Some(v) => {
                    out = put_holding(
                        &out,
                        Holding {
                            sym: text::owned(r.sym.as_str()),
                            have: v,
                            explained: Double::zero(),
                            skipped: true,
                        },
                    );
                },
                None => {},
            }
        } else {
            match asset_in(&book_of(bal, r.exch.as_str()), r.sym.as_str()) {
                Some(b) => {
                    out = put_holding(
                        &out,
                        Holding {
                            sym: text::owned(r.sym.as_str()),
                            have: b.free.plus(b.locked),
                            explained: Double::zero(),
                            skipped: list::holds(skipped, r.sym.as_str()),
                        },
                    );
                },
                None => {
                    out = put_holding(
                        &out,
                        Holding {
                            sym: text::owned(r.sym.as_str()),
                            have: Double::zero(),
                            explained: Double::zero(),
                            skipped: list::holds(skipped, r.sym.as_str()),
                        },
                    );
                },
            }
        }
        i = i + 1;
    }
    out
}

/// What each routed coin's holding is; a venue that could not be read carries its snapshot
/// forward.
pub open spec fn holdings_of_spec(
    s: SettingsView,
    bal: BalancesView,
    prev_hold: Doc,
) -> Seq<HoldingView> {
    let out = Seq::<HoldingView>::empty();
    let skipped = skipped_coins_spec(s.routing, bal.failed);
    add_holdings_spec(bal, prev_hold, skipped, s.routing, out, s.routing.len())
}

fn holdings_of(s: &Settings, bal: &Balances, prev_hold: &Json) -> (r: Vec<Holding>)
    ensures
        r.deep_view() == holdings_of_spec(s.deep_view(), bal.deep_view(), prev_hold@),
{
    let mut out: Vec<Holding> = list::none();
    let skipped = skipped_coins(&s.routing, &bal.failed);
    out = add_holdings(bal, prev_hold, &skipped, &s.routing, out);
    out
}

/// The first `n` of them.
pub open spec fn explain_each_spec(
    by: Double,
    sym: Seq<char>,
    xs: Seq<HoldingView>,
    out: Seq<HoldingView>,
    n: nat,
) -> Seq<HoldingView>
    decreases n,
{
    if n == 0 {
        out
    } else {
        let out = explain_each_spec(by, sym, xs, out, (n - 1) as nat);
        let h = xs[n - 1];
        if h.sym == sym {
            out.push(
                HoldingView {
                    sym: h.sym,
                    have: h.have,
                    explained: h.explained.add_spec(by),
                    skipped: h.skipped,
                },
            )
        } else {
            out.push(h)
        }
    }
}

fn explain_each(by: Double, sym: &str, xs: &Vec<Holding>, out: Vec<Holding>) -> (r: Vec<Holding>)
    ensures
        r.deep_view() == explain_each_spec(by, sym@, xs.deep_view(), out.deep_view(), xs@.len()),
{
    let ghost out0 = out.deep_view();
    let mut out = out;
    let mut i: usize = 0;
    while i < xs.len()
        invariant
            i <= xs@.len(),
            out.deep_view() == explain_each_spec(by, sym@, xs.deep_view(), out0, i as nat),
        decreases xs@.len() - i,
    {
        let h = &xs[i];
        if text::same(h.sym.as_str(), sym) {
            list::push(
                &mut out,
                Holding {
                    sym: text::owned(h.sym.as_str()),
                    have: h.have,
                    explained: h.explained.plus(by),
                    skipped: h.skipped,
                },
            );
        } else {
            list::push(&mut out, h.dup());
        }
        i = i + 1;
    }
    out
}

/// The holdings with a change of one coin explained.
pub open spec fn explain_spec(
    hs: Seq<HoldingView>,
    sym: Seq<char>,
    by: Double,
) -> Seq<HoldingView> {
    explain_each_spec(by, sym, hs, Seq::<HoldingView>::empty(), hs.len())
}

fn explain(hs: &Vec<Holding>, sym: &str, by: Double) -> (r: Vec<Holding>)
    ensures
        r.deep_view() == explain_spec(hs.deep_view(), sym@, by),
{
    let mut out: Vec<Holding> = list::none();
    out = explain_each(by, sym, hs, out);
    out
}

/// What a row booked: a buy up, a sell down.
pub open spec fn signed_booked_spec(o: OrderView) -> Double {
    journal::booked_spec(o).mul_spec(
        if o.side == "buy"@ {
            Double::int_spec(1)
        } else {
            Double::int_spec(1).neg_spec()
        },
    )
}

fn signed_booked(o: &Order) -> (r: Double)
    ensures
        r == signed_booked_spec(o.deep_view()),
{
    journal::booked(o).times(
        if text::same(o.side.as_str(), "buy") {
            Double::of_int(1)
        } else {
            Double::of_int(1).negated()
        },
    )
}

/// What the rows booked since a snapshot.
#[derive(Debug)]
pub struct Booked {
    pub holdings: Vec<Holding>,
    pub booked: Json,
}

/// What a [`Booked`] holds.
pub struct BookedView {
    pub holdings: Seq<HoldingView>,
    pub booked: Doc,
}

impl DeepView for Booked {
    type V = BookedView;

    open spec fn deep_view(&self) -> BookedView {
        BookedView {
            holdings: self.holdings.deep_view(),
            booked: self.booked@,
        }
    }
}

/// One row's booking. A coin of a venue that could not be read keeps what the snapshot says: the
/// recovery run explains it.
pub open spec fn add_booked_spec(
    b: BookedView,
    skipped: Seq<Seq<char>>,
    prev_booked: Doc,
    o: OrderView,
) -> BookedView {
    let was = match obj_num_spec(prev_booked, o.client_id) {
        Some(v) => v,
        None => Double::zero_spec(),
    };
    let amount = signed_booked_spec(o);
    let (amount, b) = if skipped.contains(o.sym) {
        (was, b)
    } else {
        let b = BookedView {
            holdings: explain_spec(b.holdings, o.sym, amount.sub_spec(was)),
            ..b
        };
        (amount, b)
    };
    if !amount.eq_spec(Double::zero_spec()) {
        BookedView { booked: b.booked.set(o.client_id, Doc::Float(amount)), ..b }
    } else {
        b
    }
}

fn add_booked(b: Booked, skipped: &Vec<String>, prev_booked: &Json, o: &Order) -> (r: Booked)
    ensures
        r.deep_view() == add_booked_spec(
            b.deep_view(),
            skipped.deep_view(),
            prev_booked@,
            o.deep_view(),
        ),
{
    let mut b = b;
    let was = match obj_num(prev_booked, o.client_id.as_str()) {
        Some(v) => v,
        None => Double::zero(),
    };
    let mut amount = signed_booked(o);
    if list::holds(skipped, o.sym.as_str()) {
        amount = was;
    } else {
        b.holdings = explain(&b.holdings, o.sym.as_str(), amount.minus(was));
    }
    if !amount.same(Double::zero()) {
        b.booked.set(o.client_id.as_str(), Json::Float(amount));
    }
    b
}

/// The first `n` of them.
pub open spec fn add_each_booked_spec(
    prev_booked: Doc,
    skipped: Seq<Seq<char>>,
    xs: Seq<OrderView>,
    b: BookedView,
    n: nat,
) -> BookedView
    decreases n,
{
    if n == 0 {
        b
    } else {
        let b = add_each_booked_spec(prev_booked, skipped, xs, b, (n - 1) as nat);
        let o = xs[n - 1];
        add_booked_spec(b, skipped, prev_booked, o)
    }
}

fn add_each_booked(
    prev_booked: &Json,
    skipped: &Vec<String>,
    xs: &Vec<Order>,
    b: Booked,
) -> (r: Booked)
    ensures
        r.deep_view() == add_each_booked_spec(
            prev_booked@,
            skipped.deep_view(),
            xs.deep_view(),
            b.deep_view(),
            xs@.len(),
        ),
{
    let ghost b0 = b.deep_view();
    let mut b = b;
    let mut i: usize = 0;
    while i < xs.len()
        invariant
            i <= xs@.len(),
            b.deep_view() == add_each_booked_spec(
                prev_booked@,
                skipped.deep_view(),
                xs.deep_view(),
                b0,
                i as nat,
            ),
        decreases xs@.len() - i,
    {
        let o = &xs[i];
        b = add_booked(b, skipped, prev_booked, o);
        i = i + 1;
    }
    b
}

/// What the rows booked since a snapshot.
pub open spec fn booked_since_spec(
    hs: Seq<HoldingView>,
    skipped: Seq<Seq<char>>,
    prev_booked: Doc,
    rows: Seq<OrderView>,
) -> BookedView {
    let b = BookedView { holdings: hs, booked: Doc::obj() };
    add_each_booked_spec(prev_booked, skipped, rows, b, rows.len())
}

fn booked_since(
    hs: Vec<Holding>,
    skipped: &Vec<String>,
    prev_booked: &Json,
    rows: &Vec<Order>,
) -> (r: Booked)
    ensures
        r.deep_view() == booked_since_spec(
            hs.deep_view(),
            skipped.deep_view(),
            prev_booked@,
            rows.deep_view(),
        ),
{
    let mut b = Booked { holdings: hs, booked: Json::obj() };
    b = add_each_booked(prev_booked, skipped, rows, b);
    b
}

/// Report a holding that is off what the journal expects.
pub open spec fn judge_spec(
    h: HoldingView,
    prev_hold: Doc,
    w: WorkView,
    answers: Seq<AnswerView>,
) -> WorkView {
    if stopped_spec(w) || h.skipped {
        w
    } else {
        match obj_num_spec(prev_hold, h.sym) {
            Some(prev) => {
                let expect = prev.add_spec(h.explained);
                match list::item(answers, w.at) {
                    Some(a) => {
                        let w = WorkView { at: (w.at + 1) as usize, ..w };
                        match a {
                            AnswerView::Yes(off) => if off {
                                saying_spec(
                                    w,
                                    outcome_spec(
                                        Some(h.sym),
                                        Level::Warn,
                                        "holding drift: have ~"@
                                            + crate::watch::pyfmt::g_spec(h.have, 6)
                                            + ", journal expects ~"@
                                            + crate::watch::pyfmt::g_spec(expect, 6)
                                            + " -- manual trade or transfer? cost basis and ladder ledgers may be stale for "@
                                            + h.sym,
                                    ),
                                )
                            } else {
                                w
                            },
                            _ => failing_spec(w, reason_of_spec(a)),
                        }
                    },
                    None => asking_spec(w, AskView::Drift(h.have, expect)),
                }
            },
            None => w,
        }
    }
}

fn judge(h: &Holding, prev_hold: &Json, w: Work, answers: &Vec<Answer>) -> (r: Work)
    ensures
        r.deep_view() == judge_spec(h.deep_view(), prev_hold@, w.deep_view(), answers.deep_view()),
{
    let mut w = w;
    if stopped(&w) || h.skipped {
        return w;
    }
    match obj_num(prev_hold, h.sym.as_str()) {
        Some(prev) => {
            let expect = prev.plus(h.explained);
            let a = match list::at(answers, w.at) {
                Some(v) => v,
                None => {
                    return asking(w, Ask::Drift(h.have, expect));
                },
            };
            w.at = (w.at + 1);
            match a {
                Answer::Yes(off) => {
                    if *off {
                        let mut line = text::owned("holding drift: have ~");
                        line.push_str(crate::watch::pyfmt::g(h.have, 6).as_str());
                        line.push_str(", journal expects ~");
                        line.push_str(crate::watch::pyfmt::g(expect, 6).as_str());
                        line.push_str(
                            " -- manual trade or transfer? cost basis and ladder ledgers may be stale for ",
                        );
                        line.push_str(h.sym.as_str());
                        return saying(w, outcome(Some(h.sym.as_str()), Level::Warn, line));
                    }
                    w
                },
                _ => failing(w, reason_of(a)),
            }
        },
        None => w,
    }
}

/// The first `n` of them.
pub open spec fn add_hold_spec(xs: Seq<HoldingView>, out: Doc, n: nat) -> Doc
    decreases n,
{
    if n == 0 {
        out
    } else {
        let out = add_hold_spec(xs, out, (n - 1) as nat);
        let h = xs[n - 1];
        out.set(h.sym, Doc::Float(h.have))
    }
}

fn add_hold(xs: &Vec<Holding>, out: Json) -> (r: Json)
    ensures
        r@ == add_hold_spec(xs.deep_view(), out@, xs@.len()),
{
    let ghost out0 = out@;
    let mut out = out;
    let mut i: usize = 0;
    while i < xs.len()
        invariant
            i <= xs@.len(),
            out@ == add_hold_spec(xs.deep_view(), out0, i as nat),
        decreases xs@.len() - i,
    {
        let h = &xs[i];
        out.set(h.sym.as_str(), Json::Float(h.have));
        i = i + 1;
    }
    out
}

/// The holdings as an object.
pub open spec fn hold_json_spec(hs: Seq<HoldingView>) -> Doc {
    let out = Doc::obj();
    add_hold_spec(hs, out, hs.len())
}

fn hold_json(hs: &Vec<Holding>) -> (r: Json)
    ensures
        r@ == hold_json_spec(hs.deep_view()),
{
    let mut out = Json::obj();
    out = add_hold(hs, out);
    out
}

/// The object under a key, an empty one where there is none.
pub open spec fn object_under_spec(o: Doc, k: Seq<char>) -> Doc {
    if !(o is Obj) {
        Doc::obj()
    } else {
        match o.get(k) {
            Some(v) => if v is Obj {
                v
            } else {
                Doc::obj()
            },
            None => Doc::obj(),
        }
    }
}

fn object_under(o: &Json, k: &str) -> (r: Json)
    ensures
        r@ == object_under_spec(o@, k@),
{
    if !o.is_obj() {
        return Json::obj();
    }
    match o.get(k) {
        Some(v) => {
            if v.is_obj() {
                return v.copy();
            }
            Json::obj()
        },
        None => Json::obj(),
    }
}

/// Whether there is an object under a key.
pub open spec fn has_object_spec(o: Doc, k: Seq<char>) -> bool {
    if !(o is Obj) {
        false
    } else {
        match o.get(k) {
            Some(v) => v is Obj,
            None => false,
        }
    }
}

fn has_object(o: &Json, k: &str) -> (r: bool)
    ensures
        r == has_object_spec(o@, k@),
{
    if !o.is_obj() {
        return false;
    }
    match o.get(k) {
        Some(v) => v.is_obj(),
        None => false,
    }
}

/// The first `n` of them.
pub open spec fn judge_each_spec(
    answers: Seq<AnswerView>,
    prev_hold: Doc,
    xs: Seq<HoldingView>,
    w: WorkView,
    n: nat,
) -> WorkView
    decreases n,
{
    if n == 0 {
        w
    } else {
        let w = judge_each_spec(answers, prev_hold, xs, w, (n - 1) as nat);
        let h = xs[n - 1];
        judge_spec(h, prev_hold, w, answers)
    }
}

fn judge_each(answers: &Vec<Answer>, prev_hold: &Json, xs: &Vec<Holding>, w: Work) -> (r: Work)
    ensures
        r.deep_view() == judge_each_spec(
            answers.deep_view(),
            prev_hold@,
            xs.deep_view(),
            w.deep_view(),
            xs@.len(),
        ),
{
    let ghost w0 = w.deep_view();
    let mut w = w;
    let mut i: usize = 0;
    while i < xs.len()
        invariant
            i <= xs@.len(),
            w.deep_view() == judge_each_spec(
                answers.deep_view(),
                prev_hold@,
                xs.deep_view(),
                w0,
                i as nat,
            ),
        decreases xs@.len() - i,
    {
        let h = &xs[i];
        w = judge(h, prev_hold, w, answers);
        i = i + 1;
    }
    w
}

/// Holding drift: compare each coin's holding with the last snapshot plus what the journal booked
/// since, and write the next snapshot. Without a per-order snapshot one is written, and judged
/// next run.
pub open spec fn detect_drift_spec(
    s: SettingsView,
    now: Double,
    bal: BalancesView,
    w: WorkView,
    answers: Seq<AnswerView>,
) -> WorkView {
    let snap = object_under_spec(w.ladder, "_bal"@);
    let prev_hold = object_under_spec(snap, "hold"@);
    let prev_booked = object_under_spec(snap, "booked"@);
    let skipped = skipped_coins_spec(s.routing, bal.failed);
    let b = booked_since_spec(
        holdings_of_spec(s, bal, prev_hold),
        skipped,
        prev_booked,
        journal::rows_alone(w.journal),
    );
    let w = if !(match obj_num_spec(snap, "ts"@) {
        Some(v) => v,
        None => Double::zero_spec(),
    }).eq_spec(
        Double::zero_spec(),
    )
        && has_object_spec(snap, "booked"@) {
        judge_each_spec(answers, prev_hold, b.holdings, w, b.holdings.len())
    } else {
        w
    };
    if stopped_spec(w) {
        w
    } else {
        WorkView {
            ladder: w.ladder.set(
                "_bal"@,
                Doc::obj().with("ts"@, Doc::Float(now)).with("hold"@, hold_json_spec(b.holdings)).with(
                    "booked"@,
                    b.booked,
                ),
            ),
            ..w
        }
    }
}

/// Holding drift: compare each coin's holding with the last snapshot plus what the journal booked
/// since, and write the next snapshot. Without a per-order snapshot one is written, and judged
/// next run.
pub fn detect_drift(
    s: &Settings,
    now: Double,
    bal: &Balances,
    w: Work,
    answers: &Vec<Answer>,
) -> (r: Work)
    ensures
        r.deep_view() == detect_drift_spec(
            s.deep_view(),
            now,
            bal.deep_view(),
            w.deep_view(),
            answers.deep_view(),
        ),
{
    let mut w = w;
    let snap = object_under(&w.ladder, "_bal");
    let prev_hold = object_under(&snap, "hold");
    let prev_booked = object_under(&snap, "booked");
    let skipped = skipped_coins(&s.routing, &bal.failed);
    let b = booked_since(
        holdings_of(s, bal, &prev_hold),
        &skipped,
        &prev_booked,
        &&w.journal.rows(),
    );
    if !(match obj_num(&snap, "ts") {
        Some(v) => v,
        None => Double::zero(),
    }).same(
        Double::zero(),
    )
        && has_object(&snap, "booked") {
        w = judge_each(answers, &prev_hold, &b.holdings, w);
    }
    if stopped(&w) {
        return w;
    }
    w.ladder.set(
        "_bal",
        Json::obj().with("ts", Json::Float(now)).with("hold", hold_json(&b.holdings)).with(
            "booked",
            b.booked.copy(),
        ),
    );
    w
}

/// An order that was resized at the venue.
#[derive(Debug)]
pub struct Adopted {
    pub order: Order,
    pub was_quote: Double,
}

/// What a [`Adopted`] holds.
pub struct AdoptedView {
    pub order: OrderView,
    pub was_quote: Double,
}

impl DeepView for Adopted {
    type V = AdoptedView;

    open spec fn deep_view(&self) -> AdoptedView {
        AdoptedView {
            order: self.order.deep_view(),
            was_quote: self.was_quote,
        }
    }
}

/// A rung, as it prints.
pub open spec fn rung_text_spec(r: Option<i64>) -> Seq<char> {
    match r {
        Some(k) => text::dec_int(k as int),
        None => "None"@,
    }
}

fn rung_text(r: Option<i64>) -> (out: String)
    ensures
        out@ == rung_text_spec(r),
{
    match r {
        Some(k) => text::dec_i64(k),
        None => text::owned("None"),
    }
}

/// How an adopted order reads.
pub open spec fn adopted_line_spec(a: AdoptedView) -> OutcomeView {
    let price = match a.order.price {
        Some(v) => v,
        None => Double::zero_spec(),
    };
    let quote = match a.order.quote {
        Some(v) => v,
        None => Double::zero_spec(),
    };
    sent_spec(
        outcome_spec(
            Some(a.order.sym),
            Level::Done,
            "ZONE RESIZED AT THE VENUE: "@
                + a.order.sym
                + " rung "@
                + rung_text_spec(a.order.rung)
                + " @ $"@
                + crate::watch::pyfmt::g_spec(price, 6)
                + " is now $"@
                + pyfmt::fixed_spec(quote, 2)
                + " (was $"@
                + pyfmt::fixed_spec(a.was_quote, 2)
                + ") — adopted the replacement order, the level is unchanged"@,
        ),
    )
}

fn adopted_line(a: &Adopted) -> (r: Outcome)
    ensures
        r.deep_view() == adopted_line_spec(a.deep_view()),
{
    let price = match a.order.price {
        Some(v) => v,
        None => Double::zero(),
    };
    let quote = match a.order.quote {
        Some(v) => v,
        None => Double::zero(),
    };
    let mut line = text::owned("ZONE RESIZED AT THE VENUE: ");
    line.push_str(a.order.sym.as_str());
    line.push_str(" rung ");
    line.push_str(rung_text(a.order.rung).as_str());
    line.push_str(" @ $");
    line.push_str(crate::watch::pyfmt::g(price, 6).as_str());
    line.push_str(" is now $");
    line.push_str(pyfmt::fixed(quote, 2).as_str());
    line.push_str(" (was $");
    line.push_str(pyfmt::fixed(a.was_quote, 2).as_str());
    line.push_str(") — adopted the replacement order, the level is unchanged");
    sent(outcome(Some(a.order.sym.as_str()), Level::Done, line))
}

/// Book the fills; what ends that early is reported, and the run goes on.
pub open spec fn book_step_spec(
    s: SettingsView,
    ctx: RunCtxView,
    bal: BalancesView,
    fills: Seq<OrderView>,
    w: WorkView,
    answers: Seq<AnswerView>,
) -> WorkView {
    let w = book_fills_spec(s, ctx, bal, fills, w, answers);
    match w.fault {
        Some(e) => {
            let said = outcome_spec(None, Level::Fail, "reconcile: "@ + e);
            let w = WorkView { fault: None, ..w };
            saying_spec(w, said)
        },
        None => w,
    }
}

fn book_step(
    s: &Settings,
    ctx: &RunCtx,
    bal: &Balances,
    fills: &Vec<Order>,
    w: Work,
    answers: &Vec<Answer>,
) -> (r: Work)
    ensures
        r.deep_view() == book_step_spec(
            s.deep_view(),
            ctx.deep_view(),
            bal.deep_view(),
            fills.deep_view(),
            w.deep_view(),
            answers.deep_view(),
        ),
{
    let mut w = w;
    w = book_fills(s, ctx, bal, fills, w, answers);
    match &w.fault {
        Some(e) => {
            let mut line = text::owned("reconcile: ");
            line.push_str(e.as_str());
            let said = outcome(list::text_ref(&None), Level::Fail, line);
            w.fault = None;
            saying(w, said)
        },
        None => w,
    }
}

/// A step that is over: what ended it early is reported, and the run goes on.
pub open spec fn reported_spec(w: WorkView) -> WorkView {
    match w.fault {
        Some(e) => {
            let said = outcome_spec(None, Level::Fail, "housekeeping: "@ + e);
            let w = WorkView { fault: None, ..w };
            saying_spec(w, said)
        },
        None => w,
    }
}

fn reported(w: Work) -> (r: Work)
    ensures
        r.deep_view() == reported_spec(w.deep_view()),
{
    let mut w = w;
    match &w.fault {
        Some(e) => {
            let mut line = text::owned("housekeeping: ");
            line.push_str(e.as_str());
            let said = outcome(list::text_ref(&None), Level::Fail, line);
            w.fault = None;
            saying(w, said)
        },
        None => w,
    }
}

/// Retry failed sells and manage resting ones, unless trading is blocked.
pub open spec fn trade_steps_spec(
    s: SettingsView,
    ctx: RunCtxView,
    w: WorkView,
    answers: Seq<AnswerView>,
) -> WorkView {
    if ctx.blocked {
        w
    } else {
        let w = reported_spec(retry_failed_limit_sells_spec(w, answers));
        if w.ask is Some {
            w
        } else {
            reported_spec(manage_resting_sells_spec(s, ctx, w, answers))
        }
    }
}

fn trade_steps(s: &Settings, ctx: &RunCtx, w: Work, answers: &Vec<Answer>) -> (r: Work)
    ensures
        r.deep_view() == trade_steps_spec(
            s.deep_view(),
            ctx.deep_view(),
            w.deep_view(),
            answers.deep_view(),
        ),
{
    let mut w = w;
    if ctx.blocked {
        return w;
    }
    w = reported(retry_failed_limit_sells(w, answers));
    if w.ask.is_some() {
        return w;
    }
    reported(manage_resting_sells(s, ctx, w, answers))
}

/// The first `n` of them.
pub open spec fn say_adopted_spec(xs: Seq<AdoptedView>, w: WorkView, n: nat) -> WorkView
    decreases n,
{
    if n == 0 {
        w
    } else {
        let w = say_adopted_spec(xs, w, (n - 1) as nat);
        let a = xs[n - 1];
        saying_spec(w, adopted_line_spec(a))
    }
}

fn say_adopted(xs: &Vec<Adopted>, w: Work) -> (r: Work)
    ensures
        r.deep_view() == say_adopted_spec(xs.deep_view(), w.deep_view(), xs@.len()),
{
    let ghost w0 = w.deep_view();
    let mut w = w;
    let mut i: usize = 0;
    while i < xs.len()
        invariant
            i <= xs@.len(),
            w.deep_view() == say_adopted_spec(xs.deep_view(), w0, i as nat),
        decreases xs@.len() - i,
    {
        let a = &xs[i];
        w = saying(w, adopted_line(a));
        i = i + 1;
    }
    w
}

/// Run every housekeeping step on books that were reconciled with the venues. A step that ends
/// early is reported and ends alone: the ones after it run.
pub open spec fn run_spec(
    s: SettingsView,
    ctx: RunCtxView,
    bal: BalancesView,
    adopted: Seq<AdoptedView>,
    fills: Seq<OrderView>,
    w: WorkView,
    answers: Seq<AnswerView>,
) -> WorkView {
    let w = say_adopted_spec(adopted, w, adopted.len());
    let w = book_step_spec(s, ctx, bal, fills, w, answers);
    if w.ask is Some {
        w
    } else {
        let w = trade_steps_spec(s, ctx, w, answers);
        if w.ask is Some {
            w
        } else {
            reported_spec(detect_drift_spec(s, ctx.now, bal, w, answers))
        }
    }
}

/// Run every housekeeping step on books that were reconciled with the venues. A step that ends
/// early is reported and ends alone: the ones after it run.
pub fn run(
    s: &Settings,
    ctx: &RunCtx,
    bal: &Balances,
    adopted: &Vec<Adopted>,
    fills: &Vec<Order>,
    w: Work,
    answers: &Vec<Answer>,
) -> (r: Work)
    ensures
        r.deep_view() == run_spec(
            s.deep_view(),
            ctx.deep_view(),
            bal.deep_view(),
            adopted.deep_view(),
            fills.deep_view(),
            w.deep_view(),
            answers.deep_view(),
        ),
{
    let mut w = w;
    w = say_adopted(adopted, w);
    w = book_step(s, ctx, bal, fills, w, answers);
    if w.ask.is_some() {
        return w;
    }
    w = trade_steps(s, ctx, w, answers);
    if w.ask.is_some() {
        return w;
    }
    reported(detect_drift(s, ctx.now, bal, w, answers))
}

impl Level {
    pub fn as_str(&self) -> (r: &'static str)
        ensures
            r@ == level_name_spec(*self),
    {
        match self {
            Level::Done => "done",
            Level::Warn => "warn",
            Level::Fail => "err",
        }
    }
}

impl Outcome {
    /// The result as a JSON object: `{sym, side, mode, hk, committed, done|warn|err}`, absent keys
    /// left out.
    pub fn to_json(&self) -> (r: Json)
        ensures
            r@ == outcome_json_spec(self.deep_view()),
    {
        outcome_json(self)
    }
}

impl Balances {
    /// The free amount of `asset` on `exch`, 0 when unknown.
    pub fn free(&self, exch: &str, asset: &str) -> (r: Double)
        ensures
            r == free_of_spec(self.deep_view(), exch@, asset@),
    {
        free_of(self, exch, asset)
    }
}

/// The documented defaults.
pub open spec fn default_settings() -> SettingsView {
    SettingsView {
        target_pct: Double::int_spec(10),
        window_hours: Double::int_spec(24),
        limit_ttl_days: Double::int_spec(14),
        limit_ttl_days_bear: Double::int_spec(45),
        limit_ttl_days_chop: Double::int_spec(30),
        ttl_renag_days: Double::int_spec(30),
        routing: Seq::empty(),
        entries: Seq::empty(),
    }
}

impl Default for Settings {
    fn default() -> (r: Settings)
        ensures
            r.deep_view() == default_settings(),
    {
        Settings {
            target_pct: Double::of_int(10),
            window_hours: Double::of_int(24),
            limit_ttl_days: Double::of_int(14),
            limit_ttl_days_bear: Double::of_int(45),
            limit_ttl_days_chop: Double::of_int(30),
            ttl_renag_days: Double::of_int(30),
            routing: list::none(),
            entries: list::none(),
        }
    }
}

// ------------------------------------------------------------------ laws
/// A reprice that the venue refuses leaves no position uncovered: the old price, which the venue
/// had accepted, is asked for at once.
pub proof fn law_a_refused_reprice_restores_the_cover(
    s: SettingsView,
    ctx: RunCtxView,
    o: OrderView,
    ncid: Seq<char>,
    tgt: Double,
    price: Double,
    base: Double,
    w: WorkView,
    why: Seq<char>,
    rcid: Seq<char>,
)
    requires
        w.at == 0,
        rcid == journal::suffixed_spec(
            o.client_id,
            "v"@ + text::dec_int(slot_spec(ctx.now) as int),
        ),
        rcid != ncid,
        !journal::has_row_spec(w.journal, rcid),
    ensures
        place_higher_spec(s, ctx, o, ncid, tgt, price, base, w, seq![AnswerView::Failed(why)]).ask
            == Some(AskView::LimitSell(o.exch, o.pair, base, price, rcid)),
{
    let rung = match o.rung {
        Some(v) => v,
        None => 1,
    };
    let row = pending_row_spec(
        limit_sell_row_spec(ncid, o.sym, o.exch, o.pair, base, tgt),
        rung,
        ctx.now,
    );
    journal::law_a_written_row_is_found(w.journal, ncid, row, rcid);
    journal::law_a_written_row_is_found(
        journal::put_row_spec(w.journal, row),
        ncid,
        refused_row_spec(row, why),
        rcid,
    );
}

/// A paired sell is journaled as pending, under the id it is sent with, before the venue is
/// asked to place it.
pub proof fn law_a_pair_is_journaled_before_it_is_sent(
    w: WorkView,
    exch: Seq<char>,
    pair: Seq<char>,
    sym: Seq<char>,
    fill_base: Double,
    fill_price: Double,
    now: Double,
    rung: i64,
    suffix: Seq<char>,
    answers: Seq<AnswerView>,
)
    requires
        w.ask is None,
    ensures
        pair_limit_sell_spec(
            w,
            exch,
            pair,
            sym,
            fill_base,
            fill_price,
            now,
            rung,
            suffix,
            answers,
        ) matches PairedView::Waiting(v) ==> (v.ask matches Some(AskView::LimitSell(e, p, b, l, cid))
            ==> journal::row_of(v.journal, cid) matches Some(row) && row.status == "pending"@ && row.base
            == Some(b) && row.price == Some(l) && row.exch == e && row.pair == p),
{
    if let Some(AnswerView::Number(lim)) = list::item(answers, w.at) {
        if let Ok(scid) = pair_id_spec(sym, now, rung, suffix) {
            journal::law_a_written_row_is_found(
                w.journal,
                scid,
                pending_row_spec(
                    limit_sell_row_spec(scid, sym, exch, pair, fill_base, lim),
                    rung,
                    now,
                ),
                scid,
            );
        }
    }
}

/// A sell that is moved up is journaled as pending, under the id it is sent with, before the
/// venue is asked to place it.
pub proof fn law_a_reprice_is_journaled_before_it_is_sent(
    s: SettingsView,
    ctx: RunCtxView,
    o: OrderView,
    ncid: Seq<char>,
    tgt: Double,
    price: Double,
    base: Double,
    w: WorkView,
)
    ensures
        ({
            let v = place_higher_spec(s, ctx, o, ncid, tgt, price, base, w, Seq::empty());
            &&& v.ask == Some(AskView::LimitSell(o.exch, o.pair, base, tgt, ncid))
            &&& journal::row_of(v.journal, ncid) matches Some(row) && row.status == "pending"@
        }),
{
    let rung = match o.rung {
        Some(v) => v,
        None => 1,
    };
    journal::law_a_written_row_is_found(
        w.journal,
        ncid,
        pending_row_spec(
            limit_sell_row_spec(ncid, o.sym, o.exch, o.pair, base, tgt),
            rung,
            ctx.now,
        ),
        ncid,
    );
}

/// While trading is blocked nothing is retried, moved or placed.
pub proof fn law_blocked_trades_nothing(
    s: SettingsView,
    ctx: RunCtxView,
    w: WorkView,
    answers: Seq<AnswerView>,
)
    requires
        ctx.blocked,
    ensures
        trade_steps_spec(s, ctx, w, answers) == w,
{
}

/// A sell is sent again five times at most: after that nothing is asked of the venue.
pub proof fn law_five_tries_at_most(o: OrderView, w: WorkView, answers: Seq<AnswerView>)
    requires
        o.retries matches Some(k) && k >= MAX_SELL_RETRIES,
    ensures
        retry_one_spec(o, w, answers).ask == w.ask,
        retry_one_spec(o, w, answers).at == w.at,
{
}

/// A sell that failed too often is handed over once: the row it leaves is silent from then on.
pub proof fn law_a_row_is_given_up_once(o: OrderView, w: WorkView, answers: Seq<AnswerView>)
    requires
        o.retries matches Some(k) && k >= MAX_SELL_RETRIES,
        o.gave_up != Some(true),
        !stopped_spec(w),
        !nameless_spec(o),
        nonzero_spec(o.base) is Some,
        nonzero_spec(o.price) is Some,
        journal::has_row_spec(w.journal, o.client_id),
    ensures
        ({
            let v = retry_one_spec(o, w, answers);
            &&& v.out.len() == w.out.len() + 1
            &&& journal::row_of(v.journal, o.client_id) matches Some(row) && retry_one_spec(
                row,
                v,
                answers,
            ) == v
        }),
{
    let row = OrderView { gave_up: Some(true), ..o };
    journal::law_a_written_row_is_found(w.journal, o.client_id, row, o.client_id);
}

proof fn lemma_judged(
    prev_hold: Doc,
    answers: Seq<AnswerView>,
    hs: Seq<HoldingView>,
    w: WorkView,
    n: nat,
)
    requires
        n <= hs.len(),
    ensures
        judge_each_spec(answers, prev_hold, hs, w, n).ladder == w.ladder,
    decreases n,
{
    if n > 0 {
        lemma_judged(prev_hold, answers, hs, w, (n - 1) as nat);
    }
}

/// A drift check that comes to its end writes a snapshot.
proof fn lemma_snapshot(
    s: SettingsView,
    now: Double,
    bal: BalancesView,
    w: WorkView,
    answers: Seq<AnswerView>,
)
    requires
        w.ladder is Obj,
        !stopped_spec(detect_drift_spec(s, now, bal, w, answers)),
    ensures
        object_under_spec(detect_drift_spec(s, now, bal, w, answers).ladder, "_bal"@).get("ts"@)
            == Some(Doc::Float(now)),
{
    let snap = object_under_spec(w.ladder, "_bal"@);
    let prev_hold = object_under_spec(snap, "hold"@);
    let b = booked_since_spec(
        holdings_of_spec(s, bal, prev_hold),
        skipped_coins_spec(s.routing, bal.failed),
        object_under_spec(snap, "booked"@),
        journal::rows_alone(w.journal),
    );
    lemma_judged(prev_hold, answers, b.holdings, w, b.holdings.len());
    let next = Doc::obj().with("ts"@, Doc::Float(now)).with("hold"@, hold_json_spec(b.holdings)).with(
        "booked"@,
        b.booked,
    );
    json::law_set_then_get(w.ladder, "_bal"@, next, "_bal"@);
    assert(next->Obj_0[0] == ("ts"@, Doc::Float(now)));
    assert(json::spot(next->Obj_0, "ts"@, 0) == 0);
}

/// Drift always runs: whatever ended a step before it early, and while trading is blocked too,
/// the run goes on to it once nothing is left to ask, and the snapshot it writes is of this
/// run.
pub proof fn law_drift_always_runs(
    s: SettingsView,
    ctx: RunCtxView,
    bal: BalancesView,
    adopted: Seq<AdoptedView>,
    fills: Seq<OrderView>,
    w: WorkView,
    answers: Seq<AnswerView>,
)
    ensures
        ({
            let w1 = book_step_spec(
                s,
                ctx,
                bal,
                fills,
                say_adopted_spec(adopted, w, adopted.len()),
                answers,
            );
            let w2 = trade_steps_spec(s, ctx, w1, answers);
            let d = detect_drift_spec(s, ctx.now, bal, w2, answers);
            w1.ask is None && w2.ask is None ==> {
                &&& w2.fault is None
                &&& run_spec(s, ctx, bal, adopted, fills, w, answers) == reported_spec(d)
                &&& !stopped_spec(d) && w2.ladder is Obj ==> object_under_spec(d.ladder, "_bal"@).get(
                    "ts"@,
                ) == Some(Doc::Float(ctx.now))
            }
        }),
{
    let w1 = book_step_spec(
        s,
        ctx,
        bal,
        fills,
        say_adopted_spec(adopted, w, adopted.len()),
        answers,
    );
    let w2 = trade_steps_spec(s, ctx, w1, answers);
    if w2.ladder is Obj && !stopped_spec(detect_drift_spec(s, ctx.now, bal, w2, answers)) {
        lemma_snapshot(s, ctx.now, bal, w2, answers);
    }
}

/// The first run without a per-order snapshot reports nothing: it writes one.
pub proof fn law_the_first_run_only_writes_a_snapshot(
    s: SettingsView,
    now: Double,
    bal: BalancesView,
    w: WorkView,
    answers: Seq<AnswerView>,
)
    requires
        !stopped_spec(w),
        !has_object_spec(object_under_spec(w.ladder, "_bal"@), "booked"@),
    ensures
        ({
            let v = detect_drift_spec(s, now, bal, w, answers);
            &&& v.out == w.out
            &&& v.journal == w.journal
            &&& v.ask is None
            &&& v.fault is None
        }),
{
}

/// What a row has booked counts up for a buy and down for a sell, to the last digit.
pub proof fn law_a_sell_books_down_and_a_buy_up(o: OrderView)
    requires
        journal::booked_spec(o).finite(),
    ensures
        signed_booked_spec(o).finite(),
        o.side == "buy"@ ==> signed_booked_spec(o).amount() == journal::booked_spec(o).amount(),
        o.side == "sell"@ ==> signed_booked_spec(o).amount() == -journal::booked_spec(o).amount(),
{
    rounding::lemma_times_one(journal::booked_spec(o));
    reveal_strlit("buy");
    reveal_strlit("sell");
    assert("buy"@.len() == 3 && "sell"@.len() == 4);
}

/// A row that filled has booked what filled of it; one that did not, what filled so far.
pub proof fn law_a_row_books_what_filled(o: OrderView, t: Double, q: Double)
    requires
        t.finite(),
        t.amount() != 0,
    ensures
        o.filled_ts == Some(t) && o.filled_base == Some(q) ==> journal::booked_spec(o) == q,
        o.filled_ts is None && o.part_base == Some(q) ==> journal::booked_spec(o) == q,
        o.filled_ts is None && o.part_base is None ==> journal::booked_spec(o).amount() == 0,
{
    crate::double::lemma_scaled_zero();
}

proof fn lemma_explained(by: Double, sym: Seq<char>, xs: Seq<HoldingView>, n: nat)
    requires
        n <= xs.len(),
    ensures
        ({
            let out = explain_each_spec(by, sym, xs, Seq::empty(), n);
            &&& out.len() == n
            &&& forall|i: int|
                0 <= i < n ==> {
                    &&& (#[trigger] out[i]).sym == xs[i].sym
                    &&& out[i].have == xs[i].have
                    &&& out[i].skipped == xs[i].skipped
                    &&& xs[i].sym != sym ==> out[i] == xs[i]
                    &&& xs[i].sym == sym ==> out[i].explained == xs[i].explained.add_spec(by)
                }
        }),
    decreases n,
{
    if n > 0 {
        lemma_explained(by, sym, xs, (n - 1) as nat);
    }
}

/// Booking a row moves what is expected of its own coin by what it filled since it was last booked,
/// down for a sell and up for a buy, but for rounding, and moves nothing else.
pub proof fn law_a_booking_moves_its_coin_by_its_fill(
    b: BookedView,
    prev_booked: Doc,
    o: OrderView,
    i: int,
)
    requires
        0 <= i < b.holdings.len(),
        obj_num_spec(prev_booked, o.client_id) is None,
        journal::booked_spec(o).finite(),
        b.holdings[i].explained.finite(),
        o.side == "buy"@ || o.side == "sell"@,
    ensures
        ({
            let after = add_booked_spec(b, Seq::empty(), prev_booked, o).holdings;
            let q = journal::booked_spec(o).amount();
            let was = b.holdings[i].explained.amount();
            let now = after[i].explained.amount();
            let off = if o.side == "buy"@ {
                now - (was + q)
            } else {
                now - (was - q)
            };
            &&& after.len() == b.holdings.len()
            &&& after[i].sym == b.holdings[i].sym && after[i].have == b.holdings[i].have
            &&& b.holdings[i].sym != o.sym ==> after[i] == b.holdings[i]
            &&& b.holdings[i].sym == o.sym && after[i].explained.finite() ==> rounding::grain()
                * rounding::size(off) <= rounding::size(now) + rounding::least()
            &&& b.holdings[i].sym == o.sym && was == 0 ==> now == (if o.side == "buy"@ {
                q
            } else {
                -q
            })
        }),
{
    law_a_sell_books_down_and_a_buy_up(o);
    let amount = signed_booked_spec(o);
    let zero = Double::zero_spec();
    crate::double::lemma_scaled_zero();
    let minus = zero.neg_spec();
    assert(minus.finite() && minus.amount() == 0);
    rounding::lemma_exact_sum(amount, minus, amount);
    let by = amount.sub_spec(zero);
    lemma_explained(by, o.sym, b.holdings, b.holdings.len());
    assert(!Seq::<Seq<char>>::empty().contains(o.sym));
    let h = b.holdings[i];
    let x = h.explained.add_spec(by);
    if h.sym == o.sym {
        if x.finite() {
            rounding::lemma_add_error(h.explained, by);
        }
        if h.explained.amount() == 0 {
            rounding::lemma_exact_sum(h.explained, by, by);
        }
    }
}

/// A holding that changed by exactly what a row filled since the last snapshot is held against
/// itself: a sell that took it down, or a buy that took it up, is no drift.
pub proof fn law_a_journaled_fill_is_no_drift(
    hs: Seq<HoldingView>,
    prev_booked: Doc,
    prev_hold: Doc,
    o: OrderView,
    i: int,
    w: WorkView,
    answers: Seq<AnswerView>,
    prev: Double,
)
    requires
        0 <= i < hs.len(),
        hs[i].sym == o.sym,
        !hs[i].skipped,
        hs[i].explained == Double::zero_spec(),
        hs[i].have.finite(),
        prev.finite(),
        obj_num_spec(prev_hold, o.sym) == Some(prev),
        obj_num_spec(prev_booked, o.client_id) is None,
        journal::booked_spec(o).finite(),
        o.side == "buy"@ && hs[i].have.amount() == prev.amount() + journal::booked_spec(o).amount()
            || o.side == "sell"@ && hs[i].have.amount() == prev.amount() - journal::booked_spec(
            o,
        ).amount(),
        !stopped_spec(w),
        w.at >= answers.len(),
    ensures
        ({
            let booked = booked_since_spec(hs, Seq::empty(), prev_booked, seq![o]);
            let asked = judge_spec(booked.holdings[i], prev_hold, w, answers).ask;
            asked matches Some(AskView::Drift(have, expect)) && have == hs[i].have
                && expect.eq_spec(have)
        }),
{
    let b = BookedView { holdings: hs, booked: Doc::obj() };
    crate::double::lemma_scaled_zero();
    law_a_booking_moves_its_coin_by_its_fill(b, prev_booked, o, i);
    law_a_sell_books_down_and_a_buy_up(o);
    reveal_with_fuel(add_each_booked_spec, 2);
    let booked = booked_since_spec(hs, Seq::empty(), prev_booked, seq![o]);
    assert(seq![o][0] == o);
    assert(booked == add_booked_spec(b, Seq::empty(), prev_booked, o));
    let h = booked.holdings[i];
    let by = signed_booked_spec(o).sub_spec(Double::zero_spec());
    lemma_explained(by, o.sym, hs, hs.len());
    let minus = Double::zero_spec().neg_spec();
    assert(minus.finite() && minus.amount() == 0);
    rounding::lemma_exact_sum(signed_booked_spec(o), minus, signed_booked_spec(o));
    rounding::lemma_exact_sum(Double::zero_spec(), by, by);
    assert(h.explained.finite());
    rounding::lemma_exact_sum(prev, h.explained, hs[i].have);
}

/// A trailing coin's target rides the price: it is no less than the take-profit over the price that
/// was read, no less than the one over the cost basis, and it is one of the two.
pub proof fn law_a_trailing_target_rides_the_price(
    o: OrderView,
    tgt: Option<Double>,
    w: WorkView,
    answers: Seq<AnswerView>,
    p: Double,
    t: Double,
)
    requires
        w.at + 1 < answers.len(),
        answers.len() <= usize::MAX,
        answers[w.at as int] == AnswerView::Number(p),
        answers[w.at + 1] == AnswerView::Number(t),
        !t.nan(),
        tgt matches Some(v) ==> !v.nan(),
    ensures
        trailing_target_spec(o, tgt, w, answers) matches TargetedView::At(after, found, band) && {
            &&& found matches Some(x) && {
                &&& t.le_spec(x)
                &&& tgt matches Some(v) ==> v.le_spec(x)
                &&& x == t || tgt == Some(x) || (tgt is None && t.amount() <= 0 && x.amount() == 0)
            }
            &&& band == Double::ratio_spec(98, 100)
        },
{
    crate::double::lemma_scaled_zero();
}

/// What a trailing coin's target is asked over is the price that was read.
pub proof fn law_a_trailing_target_asks_over_the_price(
    o: OrderView,
    tgt: Option<Double>,
    w: WorkView,
    answers: Seq<AnswerView>,
    p: Double,
)
    requires
        w.at + 1 == answers.len(),
        answers.len() <= usize::MAX,
        answers[w.at as int] == AnswerView::Number(p),
    ensures
        trailing_target_spec(o, tgt, w, answers) matches TargetedView::Waiting(v) && v.ask == Some(
            AskView::Target(p, o.exch),
        ),
{
}

/// A resting sell is only ever moved up: its target is above its price.
pub proof fn law_a_sell_is_only_moved_up(o: OrderView, tgt: Option<Double>, n: nat, d: nat)
    requires
        0 < d <= 0x1_0000,
        n <= d <= 2 * n,
        tgt matches Some(t) ==> t.finite() && t.amount() >= 0x100_0000,
    ensures
        needs_reprice_spec(o, tgt, Double::ratio_spec(n, d)) matches Some((t, p, b)) ==> {
            &&& p.lt_spec(t)
            &&& tgt == Some(t)
            &&& o.price == Some(p)
            &&& o.base == Some(b)
        },
{
    if let Some(t) = tgt {
        rounding::lemma_part_of(t, n, d);
    }
}

/// A resting sell that is a tenth below its target is moved.
pub proof fn law_a_sell_far_below_its_target_is_moved(
    o: OrderView,
    t: Double,
    p: Double,
    b: Double,
    n: nat,
    d: nat,
)
    requires
        0 < d <= 0x1_0000,
        100 * n >= 98 * d,
        n <= d,
        t.finite(),
        t.amount() >= 0x100_0000,
        !p.nan(),
        p.amount() != 0,
        !b.nan(),
        b.amount() != 0,
        10 * p.amount() <= 9 * t.amount(),
        o.price == Some(p),
        o.base == Some(b),
    ensures
        needs_reprice_spec(o, Some(t), Double::ratio_spec(n, d)) == Some((t, p, b)),
{
    crate::double::lemma_scaled_zero();
    rounding::lemma_part_of(t, n, d);
    let q = t.mul_spec(Double::ratio_spec(n, d)).amount();
    let a = t.amount();
    let x = p.amount();
    assert(10 * q > 9 * a) by (nonlinear_arith)
        requires
            0x10_0000 * d * q >= (0x10_0000 * n - d) * a,
            100 * n >= 98 * d,
            d > 0,
            a > 0,
    ;
}

/// The price of a fill that says none is what it cost per unit: with what filled it makes what was
/// paid, but for rounding.
pub proof fn law_a_fill_price_is_cost_per_unit(o: OrderView, base: Double, quote: Double)
    requires
        o.avg_price is None,
        o.filled_base == Some(base),
        o.filled_quote == Some(quote),
        base.finite(),
        quote.finite(),
        base.amount() != 0,
        fill_price_spec(o).finite(),
    ensures
        rounding::grain() * rounding::size(
            fill_price_spec(o).amount() * base.amount() - quote.amount() * crate::double::unit(),
        ) <= rounding::size(base.amount()) * (rounding::size(fill_price_spec(o).amount())
            + rounding::least()),
{
    crate::double::lemma_scaled_zero();
    rounding::lemma_div_error(quote, base);
}

/// What was held before a fill is never less than nothing nor more than what is free after it, and
/// with what filled it makes what is free, but for rounding.
pub proof fn law_held_before_leaves_the_fill_out(bal: BalancesView, o: OrderView, q: Double)
    requires
        o.filled_base == Some(q),
        q.finite(),
        q.amount() >= 0,
        free_of_spec(bal, o.exch, o.sym).finite(),
        free_of_spec(bal, o.exch, o.sym).amount() >= 0,
    ensures
        ({
            let free = free_of_spec(bal, o.exch, o.sym);
            let before = held_before_spec(bal, o);
            &&& before.amount() >= 0
            &&& before.le_spec(free)
            &&& free.amount() <= q.amount() ==> before.amount() == 0
            &&& free.amount() > q.amount() ==> rounding::grain() * rounding::size(
                before.amount() + q.amount() - free.amount(),
            ) <= before.amount() + rounding::least()
        }),
{
    let free = free_of_spec(bal, o.exch, o.sym);
    let zero = Double::zero_spec();
    crate::double::lemma_scaled_zero();
    let minus = q.neg_spec();
    let d = free.sub_spec(q);
    assert(minus.finite() && minus.amount() == -q.amount());
    rounding::lemma_infinite_is_last(free);
    let none = zero.neg_spec();
    rounding::lemma_sub_order(zero, q, free);
    assert(none.finite() && none.amount() == 0);
    rounding::lemma_exact_sum(free, none, free);
    rounding::lemma_add_order(zero, free, minus);
    rounding::lemma_exact_sum(zero, minus, minus);
    rounding::lemma_infinite_is_last(d);
    rounding::lemma_infinite_is_last(minus);
    assert(d.finite()) by {
        if d.infinite() {
            assert(rounding::size(d.amount()) == crate::double::scaled(
                crate::double::INFINITE as nat,
            ));
        }
    }
    rounding::lemma_add_error(free, minus);
    if free.amount() <= q.amount() {
        rounding::lemma_add_order(free, q, minus);
        rounding::lemma_exact_sum(q, minus, zero);
    } else {
        rounding::lemma_add_order(q, free, minus);
        rounding::lemma_exact_sum(q, minus, zero);
    }
}

/// A sell placed later is no staler, nor is one under a longer limit: what raises no flag raises
/// none then either. Without a limit nothing is flagged.
pub proof fn law_younger_sells_raise_no_flag(
    s: SettingsView,
    ctx: RunCtxView,
    o: OrderView,
    later: OrderView,
    ttl: Double,
    longer: Double,
    open: Seq<Seq<char>>,
    w: WorkView,
)
    requires
        ctx.now.finite(),
        o.ts matches Some(a) && later.ts matches Some(b) && a.finite() && b.finite()
            && 0 < a.amount() <= b.amount(),
        ttl.finite(),
        longer.finite(),
        0 < ttl.amount() <= longer.amount(),
        w.ask is None,
        flag_stale_spec(s, ctx, o, ttl, open, w, Seq::empty()).ask is None,
    ensures
        flag_stale_spec(s, ctx, later, longer, open, w, Seq::empty()) == w,
        flag_stale_spec(s, ctx, o, Double::zero_spec(), open, w, Seq::empty()) == w,
{
    crate::double::lemma_scaled_zero();
    let a = o.ts->0;
    let b = later.ts->0;
    let day = Double::int_spec(86400);
    rounding::lemma_count(86400);
    vstd::arithmetic::power2::lemma_pow2_pos(1074);
    rounding::lemma_sub_order(a, b, ctx.now);
    rounding::lemma_mul_order(ttl, longer, day);
}

/// A sell that is more than a day older than its limit is flagged, as far as the flags are due.
pub proof fn law_an_old_sell_is_flagged(
    s: SettingsView,
    ctx: RunCtxView,
    o: OrderView,
    days: int,
    open: Seq<Seq<char>>,
    w: WorkView,
)
    requires
        0 < days < 10_000,
        ctx.now.finite(),
        o.ts matches Some(a) && a.finite() && 0 < a.amount() && ctx.now.amount() - a.amount() >= (
        days + 1) * 86400 * crate::double::unit(),
    ensures
        flag_stale_spec(s, ctx, o, Double::int_spec(days), open, w, Seq::empty()).ask == Some(
            AskView::Due(flag_of_spec(w.ttl, o.client_id), ctx.now, s.ttl_renag_days),
        ),
{
    crate::double::lemma_scaled_zero();
    let u = crate::double::unit() as int;
    vstd::arithmetic::power2::lemma_pow2_pos(1074);
    let a = o.ts->0;
    let ttl = Double::int_spec(days);
    let day = Double::int_spec(86400);
    let limit = Double::int_spec(days * 86400);
    let more = Double::int_spec((days + 1) * 86400);
    rounding::lemma_whole_is_exact(days);
    rounding::lemma_whole_is_exact(86400);
    rounding::lemma_whole_is_exact(days * 86400);
    rounding::lemma_whole_is_exact((days + 1) * 86400);
    assert(ttl.amount() * day.amount() == limit.amount() * u) by (nonlinear_arith)
        requires
            ttl.amount() == days * u,
            day.amount() == 86400 * u,
            limit.amount() == (days * 86400) * u,
    ;
    rounding::lemma_exact_product(ttl, day, limit);
    assert(limit.amount() < more.amount()) by (nonlinear_arith)
        requires
            limit.amount() == (days * 86400) * u,
            more.amount() == ((days + 1) * 86400) * u,
            u > 0,
    ;
    assert(days * u > 0) by (nonlinear_arith)
        requires
            days > 0,
            u > 0,
    ;
    // What is at least as much as a number is no less when rounded.
    let minus = a.neg_spec();
    assert(minus.finite() && minus.amount() == -a.amount());
    let age = ctx.now.sub_spec(a);
    let sum = ctx.now.amount() + minus.amount();
    let m = more.mag();
    assert(sum >= more.amount());
    assert(!more.neg());
    assert(sum as nat >= crate::double::scaled(m) * 1);
    crate::double::lemma_nearest_exists(sum as nat, 1);
    crate::double::lemma_nearest_at_least(sum as nat, 1, m);
    rounding::lemma_at_most(m, crate::double::nearest(sum as nat, 1));
}

/// A resting order at the sell's price is the sell, one within a tenth of a percent too, and one a
/// whole percent off is not.
pub proof fn law_only_a_close_price_is_adopted(x: ParsedOrderView, price: Double, lim: Double)
    requires
        x.price == Some(price),
        price.finite(),
        lim.finite(),
        lim.amount() > 0,
        0 < price.amount() <= 2 * lim.amount(),
        price.div_spec(lim).sub_spec(Double::int_spec(1)).finite(),
    ensures
        1000 * rounding::size(price.amount() - lim.amount()) <= lim.amount() ==> is_adopted_spec(
            x,
            false,
            lim,
        ),
        100 * rounding::size(price.amount() - lim.amount()) >= lim.amount() ==> !is_adopted_spec(
            x,
            false,
            lim,
        ),
        is_adopted_spec(x, true, lim),
{
    let u = crate::double::unit() as int;
    crate::double::lemma_scaled_zero();
    vstd::arithmetic::power2::lemma_pow2_pos(1074);
    rounding::lemma_change_error(price, lim);
    rounding::lemma_ratio_error(3, 1000);
    let d = price.div_spec(lim).sub_spec(Double::int_spec(1)).amount();
    let t = Double::ratio_spec(3, 1000).amount();
    let g = rounding::grain();
    let l = rounding::least();
    assert(l <= u) by {
        vstd::arithmetic::power2::lemma2_to64();
        vstd::arithmetic::power2::lemma2_to64_rest();
        vstd::arithmetic::power2::lemma_pow2_strictly_increases(52, 1074);
    }
    // three thousandths lie between two and four of them
    assert(2 * u <= 1000 * t <= 4 * u) by (nonlinear_arith)
        requires
            g * rounding::size(t * 1000 - 3 * u) <= 1000 * (t + l),
            rounding::size(t * 1000 - 3 * u) >= t * 1000 - 3 * u,
            rounding::size(t * 1000 - 3 * u) >= 3 * u - t * 1000,
            0 <= t <= u,
            l <= u,
            u > 0,
            g == 0x20_0000_0000_0000,
    ;
    let p = price.amount();
    let b = lim.amount();
    let s = rounding::size(d);
    let v = (u + d) * b - p * u;
    let e = rounding::size(v);
    let gap = p - b;
    assert(d * b == gap * u + v) by (nonlinear_arith)
        requires
            v == (u + d) * b - p * u,
            gap == p - b,
    ;
    let z = rounding::size(gap);
    assert(z <= b);
    assert(rounding::size(d * b) == s * b) by (nonlinear_arith)
        requires
            b > 0,
            s == (if d < 0 { -d } else { d }),
            rounding::size(d * b) == (if d * b < 0 { -(d * b) } else { d * b }),
    ;
    assert(rounding::size(gap * u) == z * u) by (nonlinear_arith)
        requires
            u > 0,
            z == (if gap < 0 { -gap } else { gap }),
            rounding::size(gap * u) == (if gap * u < 0 { -(gap * u) } else { gap * u }),
    ;
    assert(s * b <= z * u + e && z * u <= s * b + e);
    assert(z * u <= b * u) by (nonlinear_arith)
        requires
            z <= b,
            u > 0,
    ;
    let sb = s * b;
    let bu = b * u;
    assert(b * (3 * s + 2 * u) == 3 * sb + 2 * bu) by (nonlinear_arith)
        requires
            sb == s * b,
            bu == b * u,
    ;
    assert(g * e <= 3 * sb + 2 * bu);
    assert(bu > 0) by (nonlinear_arith)
        requires
            bu == b * u,
            b > 0,
            u > 0,
    ;
    assert(sb <= 2 * bu);
    assert(1000000 * e <= bu);
    if 1000 * z <= b {
        assert(1000 * (z * u) <= bu) by (nonlinear_arith)
            requires
                1000 * z <= b,
                bu == b * u,
                u > 0,
        ;
        assert(1000 * sb < 2 * bu);
        assert(1000 * s < 2 * u) by (nonlinear_arith)
            requires
                1000 * sb < 2 * bu,
                sb == s * b,
                bu == b * u,
                b > 0,
        ;
    }
    if 100 * z >= b {
        assert(100 * (z * u) >= bu) by (nonlinear_arith)
            requires
                100 * z >= b,
                bu == b * u,
                u > 0,
        ;
        assert(1000 * sb > 4 * bu);
        assert(1000 * s > 4 * u) by (nonlinear_arith)
            requires
                1000 * sb > 4 * bu,
                sb == s * b,
                bu == b * u,
                b > 0,
        ;
    }
}

/// After a cancel only what the order did not sell is placed again: all of it where it sold nothing,
/// nothing where it sold it all.
pub proof fn law_only_what_is_left_is_placed_again(
    s: SettingsView,
    ctx: RunCtxView,
    o: OrderView,
    ncid: Seq<char>,
    tgt: Double,
    price: Double,
    base: Double,
    w: WorkView,
    answers: Seq<AnswerView>,
    done: OrderView,
    sold: Double,
)
    requires
        list::item(answers, w.at) == Some(AnswerView::Settled(done, true)),
        done.filled_base == Some(sold),
        base.finite(),
        sold.finite(),
        base.amount() >= 0,
        sold.amount() >= 0,
    ensures
        ({
            let next = updating_spec(WorkView { at: (w.at + 1) as usize, ..w }, done);
            let r = after_cancel_spec(s, ctx, o, ncid, tgt, price, base, w, answers);
            &&& sold.amount() >= base.amount() ==> r == next
            &&& sold.amount() < base.amount() ==> exists|left: Double|
                {
                    &&& 0 < left.amount() <= base.amount()
                    &&& sold.amount() == 0 ==> left.amount() == base.amount()
                    &&& rounding::grain() * rounding::size(
                        left.amount() + sold.amount() - base.amount(),
                    ) <= left.amount() + rounding::least()
                    &&& r == #[trigger] place_higher_spec(
                        s,
                        ctx,
                        o,
                        ncid,
                        tgt,
                        price,
                        left,
                        next,
                        answers,
                    )
                }
        }),
{
    crate::double::lemma_scaled_zero();
    rounding::lemma_rest(base, sold);
    rounding::lemma_sub_sign(base, sold);
    let left = base.sub_spec(sold).max_spec(Double::zero_spec());
    let next = updating_spec(WorkView { at: (w.at + 1) as usize, ..w }, done);
    if sold.amount() < base.amount() {
        assert(after_cancel_spec(s, ctx, o, ncid, tgt, price, base, w, answers)
            == place_higher_spec(s, ctx, o, ncid, tgt, price, left, next, answers));
    }
}

/// The slot of a time is the half hour it falls into, counted up to a hundred thousand.
pub proof fn law_a_slot_is_half_an_hour(now: Double, seconds: nat)
    requires
        now.finite(),
        now.amount() == seconds * crate::double::unit(),
        seconds < 0x100_0000_0000,
    ensures
        slot_spec(now) == (seconds / 1800) % 100_000,
{
    crate::double::lemma_scaled_zero();
    vstd::arithmetic::power2::lemma_pow2_pos(1074);
    rounding::lemma_slots(now, seconds, 1800);
    rounding::lemma_whole_of(
        now.div_spec(Double::int_spec(1800)).floor_spec(),
        (seconds / 1800) as int,
    );
}

/// A cost basis that is recorded is read back, and no other coin's changes.
pub proof fn law_a_recorded_basis_is_read_back(
    state: Doc,
    sym: Seq<char>,
    basis: Double,
    other: Seq<char>,
)
    requires
        state is Obj,
        !basis.eq_spec(Double::zero_spec()),
    ensures
        cost_basis_spec(with_basis_spec(state, sym, basis), sym) == Some(basis),
        other != sym ==> cost_basis_spec(with_basis_spec(state, sym, basis), other)
            == cost_basis_spec(state, other),
{
    let coin = state.get_or_null(sym);
    let coin = if !(coin is Obj) {
        Doc::obj()
    } else {
        coin
    };
    json::law_set_then_get(coin, "cost_basis"@, Doc::Float(basis), "cost_basis"@);
    json::law_set_then_get(state, sym, coin.set("cost_basis"@, Doc::Float(basis)), sym);
    json::law_set_then_get(state, sym, coin.set("cost_basis"@, Doc::Float(basis)), other);
}

/// A sell opens its coin's window: to the time given, in the direction of a sale.
pub proof fn law_a_sell_opens_its_coins_window(
    state: Doc,
    sym: Seq<char>,
    until: Double,
    other: Seq<char>,
)
    requires
        state is Obj,
        state.get(sym) matches Some(c) && c is Obj,
    ensures
        with_window_spec(state, sym, until).get(sym) matches Some(c) && c.get("win_until"@) == Some(
            Doc::Float(until),
        ) && c.get("win_dir"@) == Some(Doc::Str("sell"@)),
        other != sym ==> with_window_spec(state, sym, until).get(other) == state.get(other),
{
    let c0 = state.get_or_null(sym);
    let c1 = c0.set("win_until"@, Doc::Float(until));
    let c2 = c1.set("win_dir"@, Doc::Str("sell"@));
    reveal_strlit("win_until");
    reveal_strlit("win_dir");
    assert("win_until"@.len() == 9 && "win_dir"@.len() == 7);
    json::law_set_then_get(c0, "win_until"@, Doc::Float(until), "win_until"@);
    json::law_set_then_get(c1, "win_dir"@, Doc::Str("sell"@), "win_until"@);
    json::law_set_then_get(c1, "win_dir"@, Doc::Str("sell"@), "win_dir"@);
    json::law_set_then_get(state, sym, c2, sym);
    json::law_set_then_get(state, sym, c2, other);
}

/// A sale that is logged opens its coin's window for the hours from now.
pub proof fn law_a_sales_window_lasts_its_hours(
    s: SettingsView,
    ctx: RunCtxView,
    o: OrderView,
    w: WorkView,
    v: WorkView,
    realized: Option<Double>,
    pct: Option<Double>,
    answers: Seq<AnswerView>,
    span: Double,
    until: Double,
)
    requires
        o.kind != ""@,
        log_pnl_spec(
            w,
            o.sym,
            filled_base_of_spec(o),
            filled_quote_of_spec(o),
            o.avg_price,
            known_basis_spec(s, w, o.sym),
            ctx.now,
            o.kind,
            answers,
        ) == LoggedView::Written(v, realized, pct),
        ctx.now.finite(),
        s.window_hours.finite(),
        span.finite(),
        span.amount() == 3600 * s.window_hours.amount(),
        until.finite(),
        until.amount() == ctx.now.amount() + span.amount(),
    ensures
        exists|end: Double|
            {
                &&& end.amount() == until.amount()
                &&& book_sell_spec(s, ctx, o, w, answers).ladder == #[trigger] with_window_spec(
                    v.ladder,
                    o.sym,
                    end,
                )
            },
{
    rounding::lemma_whole_is_exact(3600);
    let h = s.window_hours.amount();
    let u = crate::double::unit() as int;
    assert(h * (3600 * u) == (3600 * h) * u) by (nonlinear_arith);
    rounding::lemma_exact_product(s.window_hours, Double::int_spec(3600), span);
    rounding::lemma_exact_sum(
        ctx.now,
        s.window_hours.mul_spec(Double::int_spec(3600)),
        until,
    );
    let end = ctx.now.add_spec(s.window_hours.mul_spec(Double::int_spec(3600)));
    assert(book_sell_spec(s, ctx, o, w, answers).ladder == with_window_spec(
        v.ladder,
        o.sym,
        end,
    ));
}

/// A coin's holding is what its venue has of it, free and locked, and a coin on a venue that was not
/// read keeps what it had before and is not judged.
pub proof fn law_a_holding_is_free_and_locked(
    bal: BalancesView,
    prev_hold: Doc,
    skipped: Seq<Seq<char>>,
    r: RouteView,
    b: Balance,
    together: Double,
)
    requires
        asset_in_spec(book_of_spec(bal, r.exch), r.sym) == Some(b),
        b.free.finite(),
        b.locked.finite(),
        together.finite(),
        together.amount() == b.free.amount() + b.locked.amount(),
    ensures
        ({
            let hs = add_holdings_spec(bal, prev_hold, skipped, seq![r], Seq::empty(), 1);
            &&& !bal.failed.contains(r.exch) ==> hs.len() == 1 && hs[0].sym == r.sym
                && hs[0].have.amount() == together.amount() && hs[0].explained.amount() == 0
                && hs[0].skipped == skipped.contains(r.sym)
            &&& bal.failed.contains(r.exch) ==> (obj_num_spec(prev_hold, r.sym) matches Some(v)
                ==> hs.len() == 1 && hs[0].have == v && hs[0].skipped)
        }),
{
    reveal_with_fuel(add_holdings_spec, 2);
    crate::double::lemma_scaled_zero();
    rounding::lemma_exact_sum(b.free, b.locked, together);
}

} // verus!
