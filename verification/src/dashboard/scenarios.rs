//! `scenarios.json`: the book from `data.json` run through the scenario model, with the
//! price history from the candle cache and the all-time highs refreshed from CoinGecko when
//! it answers.
use crate::dashboard;
use crate::dashboard::{ScenarioKnobs, ScenarioKnobsView};
use crate::double::Double;
use crate::housekeeping::{Route, RouteView};
use crate::list;
use crate::list::Duplicate;
use crate::rounding;
use crate::text;
use crate::watch::json;
use crate::watch::json::{Doc, Json};
use vstd::prelude::*;

verus! {

/// A coin in the book.
#[derive(Debug)]
pub struct BookCoin {
    pub sym: String,
    pub held: Double,
    pub price: Double,
    pub cost: Double,
}

/// What a [`BookCoin`] holds.
pub struct BookCoinView {
    pub sym: Seq<char>,
    pub held: Double,
    pub price: Double,
    pub cost: Double,
}

impl DeepView for BookCoin {
    type V = BookCoinView;

    open spec fn deep_view(&self) -> BookCoinView {
        BookCoinView {
            sym: self.sym@,
            held: self.held,
            price: self.price,
            cost: self.cost,
        }
    }
}

impl Duplicate for BookCoin {
    fn dup(&self) -> (r: BookCoin) {
        BookCoin {
            sym: text::owned(self.sym.as_str()),
            held: self.held,
            price: self.price,
            cost: self.cost,
        }
    }
}

/// A resting deploy zone.
#[derive(Debug)]
pub struct Zone {
    pub sym: String,
    pub price: Double,
    pub quote: Double,
}

/// What a [`Zone`] holds.
pub struct ZoneView {
    pub sym: Seq<char>,
    pub price: Double,
    pub quote: Double,
}

impl DeepView for Zone {
    type V = ZoneView;

    open spec fn deep_view(&self) -> ZoneView {
        ZoneView {
            sym: self.sym@,
            price: self.price,
            quote: self.quote,
        }
    }
}

/// Today's book: every coin's holding, price and cost basis, the free stable cash, and the resting
/// deploy zones.
#[derive(Debug)]
pub struct Book {
    pub coins: Vec<BookCoin>,
    pub cash_free: Double,
    pub zones: Vec<Zone>,
}

/// What a [`Book`] holds.
pub struct BookView {
    pub coins: Seq<BookCoinView>,
    pub cash_free: Double,
    pub zones: Seq<ZoneView>,
}

impl DeepView for Book {
    type V = BookView;

    open spec fn deep_view(&self) -> BookView {
        BookView {
            coins: self.coins.deep_view(),
            cash_free: self.cash_free,
            zones: self.zones.deep_view(),
        }
    }
}

/// The number under a key that has to be there.
pub open spec fn field_spec(c: Doc, key: Seq<char>) -> Result<Double, Seq<char>> {
    match c.get(key) {
        Some(v) => dashboard::py_float_spec(v),
        None => Err("KeyError: '"@ + key + "'"@),
    }
}

fn field(c: &Json, key: &str) -> (r: Result<Double, String>)
    ensures
        list::outcome(r) == field_spec(c@, key@),
{
    match c.get(key) {
        Some(v) => dashboard::py_float(v),
        None => {
            let mut line = text::owned("KeyError: '");
            line.push_str(key);
            line.push_str("'");
            Err(line)
        },
    }
}

/// A coin's cost basis, its price where there is none.
pub open spec fn cost_of_spec(c: Doc, price: Double) -> Result<Double, Seq<char>> {
    match c.get("entry"@) {
        Some(e) => if e.truthy() {
            dashboard::py_float_spec(e)
        } else {
            Ok(price)
        },
        None => Ok(price),
    }
}

fn cost_of(c: &Json, price: Double) -> (r: Result<Double, String>)
    ensures
        list::outcome(r) == cost_of_spec(c@, price),
{
    match c.get("entry") {
        Some(e) => {
            if e.truthy() {
                return dashboard::py_float(e);
            }
            Ok(price)
        },
        None => Ok(price),
    }
}

/// A coin of the snapshot.
pub open spec fn coin_of_spec(c: Doc) -> Result<BookCoinView, Seq<char>> {
    match c.get("sym"@) {
        Some(s) => match field_spec(c, "held"@) {
            Ok(held) => match field_spec(c, "price"@) {
                Ok(price) => match cost_of_spec(c, price) {
                    Ok(cost) => Ok(BookCoinView { sym: s.py_str(), held, price, cost }),
                    Err(e) => Err(e),
                },
                Err(e) => Err(e),
            },
            Err(e) => Err(e),
        },
        None => Err("KeyError: 'sym'"@),
    }
}

fn coin_of(c: &Json) -> (r: Result<BookCoin, String>)
    ensures
        list::outcome(r) == coin_of_spec(c@),
{
    match c.get("sym") {
        Some(s) => {
            let held = match field(c, "held") {
                Ok(v) => v,
                Err(e) => {
                    return Err(e);
                },
            };
            let price = match field(c, "price") {
                Ok(v) => v,
                Err(e) => {
                    return Err(e);
                },
            };
            let cost = match cost_of(c, price) {
                Ok(v) => v,
                Err(e) => {
                    return Err(e);
                },
            };
            Ok(BookCoin { sym: s.py_str(), held, price, cost })
        },
        None => Err(text::owned("KeyError: 'sym'")),
    }
}

/// The first `n` of them.
pub open spec fn copy_coins_spec(
    c: BookCoinView,
    xs: Seq<BookCoinView>,
    known: bool,
    out: Seq<BookCoinView>,
    n: nat,
) -> (bool, Seq<BookCoinView>)
    decreases n,
{
    if n == 0 {
        (known, out)
    } else {
        let (known, out) = copy_coins_spec(c, xs, known, out, (n - 1) as nat);
        let x = xs[n - 1];
        if x.sym == c.sym {
            (true, out.push(c))
        } else {
            (known, out.push(x))
        }
    }
}

fn copy_coins(
    c: &BookCoin,
    xs: &Vec<BookCoin>,
    known: bool,
    out: Vec<BookCoin>,
) -> (r: (bool, Vec<BookCoin>))
    ensures
        r.deep_view() == copy_coins_spec(
            c.deep_view(),
            xs.deep_view(),
            known,
            out.deep_view(),
            xs@.len(),
        ),
{
    let ghost known0 = known;
    let ghost out0 = out.deep_view();
    let mut known = known;
    let mut out = out;
    let mut i: usize = 0;
    while i < xs.len()
        invariant
            i <= xs@.len(),
            (known, out.deep_view()) == copy_coins_spec(
                c.deep_view(),
                xs.deep_view(),
                known0,
                out0,
                i as nat,
            ),
        decreases xs@.len() - i,
    {
        let x = &xs[i];
        if text::same(x.sym.as_str(), c.sym.as_str()) {
            known = true;
            list::push(&mut out, c.dup());
        } else {
            list::push(&mut out, x.dup());
        }
        i = i + 1;
    }
    (known, out)
}

/// The coins with one written under its name: in its place, or at the end.
pub open spec fn put_coin_spec(cs: Seq<BookCoinView>, c: BookCoinView) -> Seq<BookCoinView> {
    let out = Seq::<BookCoinView>::empty();
    let known = false;
    let (known, out) = copy_coins_spec(c, cs, known, out, cs.len());
    if !known {
        out.push(c)
    } else {
        out
    }
}

fn put_coin(cs: &Vec<BookCoin>, c: BookCoin) -> (r: Vec<BookCoin>)
    ensures
        r.deep_view() == put_coin_spec(cs.deep_view(), c.deep_view()),
{
    let mut out: Vec<BookCoin> = list::none();
    let mut known = false;
    let (next_known, next_out) = copy_coins(&c, cs, known, out);
    known = next_known;
    out = next_out;
    if !known {
        list::push(&mut out, c);
    }
    out
}

/// Of the first `n` coins.
pub open spec fn add_coin_spec(
    xs: Seq<Doc>,
    out: Seq<BookCoinView>,
    fault: Option<Seq<char>>,
    n: nat,
) -> (Seq<BookCoinView>, Option<Seq<char>>)
    decreases n,
{
    if n == 0 {
        (out, fault)
    } else {
        let (out, fault) = add_coin_spec(xs, out, fault, (n - 1) as nat);
        let c = xs[n - 1];
        if fault is None {
            match coin_of_spec(c) {
                Ok(x) => (put_coin_spec(out, x), fault),
                Err(e) => (out, Some(e)),
            }
        } else {
            (out, fault)
        }
    }
}

fn add_coin(
    xs: &Vec<Json>,
    out: Vec<BookCoin>,
    fault: Option<String>,
) -> (r: (Vec<BookCoin>, Option<String>))
    ensures
        r.deep_view() == add_coin_spec(
            xs.deep_view(),
            out.deep_view(),
            fault.deep_view(),
            xs@.len(),
        ),
{
    let ghost out0 = out.deep_view();
    let ghost fault0 = fault.deep_view();
    let mut out = out;
    let mut fault = fault;
    let mut i: usize = 0;
    while i < xs.len()
        invariant
            i <= xs@.len(),
            (out.deep_view(), fault.deep_view()) == add_coin_spec(
                xs.deep_view(),
                out0,
                fault0,
                i as nat,
            ),
        decreases xs@.len() - i,
    {
        let c = &xs[i];
        if fault.is_none() {
            match coin_of(c) {
                Ok(x) => {
                    out = put_coin(&out, x);
                },
                Err(e) => {
                    fault = Some(e);
                },
            }
        }
        i = i + 1;
    }
    (out, fault)
}

/// The coins of the snapshot.
pub open spec fn coins_of_spec(snap: Doc) -> Result<Seq<BookCoinView>, Seq<char>> {
    let out = Seq::<BookCoinView>::empty();
    let fault: Option<Seq<char>> = None;
    let (out, fault) = add_coin_spec(
        snap.get_or_null("coins"@).items(),
        out,
        fault,
        snap.get_or_null("coins"@).items().len(),
    );
    match fault {
        Some(e) => Err(e),
        None => Ok(out),
    }
}

fn coins_of(snap: &Json) -> (r: Result<Vec<BookCoin>, String>)
    ensures
        list::outcome(r) == coins_of_spec(snap@),
{
    let mut out: Vec<BookCoin> = list::none();
    let mut fault: Option<String> = None;
    let (next_out, next_fault) = add_coin(&json::items(&snap.get_copy("coins")), out, fault);
    out = next_out;
    fault = next_fault;
    match fault {
        Some(e) => Err(e),
        None => Ok(out),
    }
}

/// A number of the portfolio, 0 where there is none.
pub open spec fn portfolio_num_spec(port: Doc, key: Seq<char>) -> Result<Double, Seq<char>> {
    match port.get(key) {
        Some(v) => dashboard::py_float_spec(v),
        None => Ok(Double::zero_spec()),
    }
}

fn portfolio_num(port: &Json, key: &str) -> (r: Result<Double, String>)
    ensures
        list::outcome(r) == portfolio_num_spec(port@, key@),
{
    match port.get(key) {
        Some(v) => dashboard::py_float(v),
        None => Ok(Double::zero()),
    }
}

/// Whether a field is a word.
pub open spec fn is_word_spec(o: Doc, key: Seq<char>, word: Seq<char>) -> bool {
    match o.get(key) {
        Some(v) => v == Doc::Str(word),
        None => false,
    }
}

fn is_word(o: &Json, key: &str, word: &str) -> (r: bool)
    ensures
        r == is_word_spec(o@, key@, word@),
{
    let v = match o.get(key) {
        Some(v) => v,
        None => {
            return false;
        },
    };
    v.is_text(word)
}

/// Whether a journal row is a resting deploy zone.
pub open spec fn is_zone_spec(o: Doc) -> bool {
    let rung = o.get_or_null("rung"@);
    let resting = is_word_spec(o, "status"@, "open"@)
        || is_word_spec(o, "status"@, "new"@)
        || is_word_spec(o, "status"@, "NEW"@)
        || is_word_spec(o, "status"@, "placed"@);
    is_word_spec(o, "kind"@, "deploy_buy"@) && resting && rung.truthy()
}

fn is_zone(o: &Json) -> (r: bool)
    ensures
        r == is_zone_spec(o@),
{
    let rung = o.get_copy("rung");
    let resting = is_word(o, "status", "open")
        || is_word(o, "status", "new")
        || is_word(o, "status", "NEW")
        || is_word(o, "status", "placed");
    is_word(o, "kind", "deploy_buy") && resting && rung.truthy()
}

/// A resting deploy zone.
pub open spec fn zone_of_spec(o: Doc) -> Result<ZoneView, Seq<char>> {
    match o.get("sym"@) {
        Some(s) => match field_spec(o, "price"@) {
            Ok(price) => match field_spec(o, "quote"@) {
                Ok(quote) => Ok(ZoneView { sym: s.py_str(), price, quote }),
                Err(e) => Err(e),
            },
            Err(e) => Err(e),
        },
        None => Err("KeyError"@),
    }
}

fn zone_of(o: &Json) -> (r: Result<Zone, String>)
    ensures
        list::outcome(r) == zone_of_spec(o@),
{
    match o.get("sym") {
        Some(s) => {
            let price = match field(o, "price") {
                Ok(v) => v,
                Err(e) => {
                    return Err(e);
                },
            };
            let quote = match field(o, "quote") {
                Ok(v) => v,
                Err(e) => {
                    return Err(e);
                },
            };
            Ok(Zone { sym: s.py_str(), price, quote })
        },
        None => Err(text::owned("KeyError")),
    }
}

/// Of the first `n` entries.
pub open spec fn add_row_spec(xs: Seq<(Seq<char>, Doc)>, out: Seq<Doc>, n: nat) -> Seq<Doc> {
    out + Seq::new(
        n,
        |i: int| {
            let it = xs[i];
            let v = it.1;
            v
        },
    )
}

fn add_row(xs: &Vec<(String, Json)>, out: Vec<Json>) -> (r: Vec<Json>)
    ensures
        r.deep_view() == add_row_spec(xs.deep_view(), out.deep_view(), xs@.len()),
{
    let ghost out0 = out.deep_view();
    let mut out = out;
    let mut i: usize = 0;
    while i < xs.len()
        invariant
            i <= xs@.len(),
            out.deep_view() == add_row_spec(xs.deep_view(), out0, i as nat),
        decreases xs@.len() - i,
    {
        let it = &xs[i];
        let v = &it.1;
        list::push(&mut out, v.copy());
        assert(out.deep_view() =~= add_row_spec(xs.deep_view(), out0, (i + 1) as nat));
        i = i + 1;
    }
    out
}

/// The rows of a journal file.
pub open spec fn rows_of_spec(j: Doc) -> Seq<Doc> {
    if j is Obj {
        add_row_spec(j.entries(), Seq::<Doc>::empty(), j.entries().len())
    } else {
        j.items()
    }
}

fn rows_of(j: &Json) -> (r: Vec<Json>)
    ensures
        r.deep_view() == rows_of_spec(j@),
{
    if j.is_obj() {
        let mut out: Vec<Json> = list::none();
        out = add_row(&json::entries(j), out);
        return out;
    }
    json::items(j)
}

/// Of the first `n` rows.
pub open spec fn add_zone_spec(
    xs: Seq<Doc>,
    out: Seq<ZoneView>,
    ended: bool,
    n: nat,
) -> (Seq<ZoneView>, bool)
    decreases n,
{
    if n == 0 {
        (out, ended)
    } else {
        let (out, ended) = add_zone_spec(xs, out, ended, (n - 1) as nat);
        let o = xs[n - 1];
        if !ended && is_zone_spec(o) {
            match zone_of_spec(o) {
                Ok(z) => (out.push(z), ended),
                Err(e) => (out, true),
            }
        } else {
            (out, ended)
        }
    }
}

fn add_zone(xs: &Vec<Json>, out: Vec<Zone>, ended: bool) -> (r: (Vec<Zone>, bool))
    ensures
        r.deep_view() == add_zone_spec(xs.deep_view(), out.deep_view(), ended, xs@.len()),
{
    let ghost out0 = out.deep_view();
    let ghost ended0 = ended;
    let mut out = out;
    let mut ended = ended;
    let mut i: usize = 0;
    while i < xs.len()
        invariant
            i <= xs@.len(),
            (out.deep_view(), ended) == add_zone_spec(xs.deep_view(), out0, ended0, i as nat),
        decreases xs@.len() - i,
    {
        let o = &xs[i];
        if !ended && is_zone(o) {
            match zone_of(o) {
                Ok(z) => {
                    list::push(&mut out, z);
                },
                Err(e) => {
                    ended = true;
                },
            }
        }
        i = i + 1;
    }
    (out, ended)
}

/// The resting deploy zones of a journal file. A zone that cannot be read ends the list where it
/// stands.
pub open spec fn zones_of_spec(j: Doc) -> Seq<ZoneView> {
    let out = Seq::<ZoneView>::empty();
    let ended = false;
    let (out, ended) = add_zone_spec(rows_of_spec(j), out, ended, rows_of_spec(j).len());
    out
}

/// The resting deploy zones of a journal file. A zone that cannot be read ends the list where it
/// stands.
pub fn zones_of(j: &Json) -> (r: Vec<Zone>)
    ensures
        r.deep_view() == zones_of_spec(j@),
{
    let mut out: Vec<Zone> = list::none();
    let mut ended = false;
    let (next_out, next_ended) = add_zone(&rows_of(j), out, ended);
    out = next_out;
    ended = next_ended;
    out
}

/// Today's book from `data.json` and, where it can be read, the journal.
pub open spec fn book_spec(snap: Doc, journal: Option<Doc>) -> Result<BookView, Seq<char>> {
    match coins_of_spec(snap) {
        Ok(coins) => {
            let port = snap.get_or_null("portfolio"@);
            match portfolio_num_spec(port, "stable_bag"@) {
                Ok(bag) => match portfolio_num_spec(port, "stable_locked"@) {
                    Ok(locked) => {
                        let x = bag.sub_spec(locked);
                        let free = Double::zero_spec();
                        let free = if Double::zero_spec().lt_spec(x) {
                            x
                        } else {
                            free
                        };
                        match journal {
                            Some(j) => Ok(
                                BookView { coins, cash_free: free, zones: zones_of_spec(j) },
                            ),
                            None => Ok(
                                BookView {
                                    coins,
                                    cash_free: free,
                                    zones: Seq::<ZoneView>::empty(),
                                },
                            ),
                        }
                    },
                    Err(e) => Err(e),
                },
                Err(e) => Err(e),
            }
        },
        Err(e) => Err(e),
    }
}

/// Today's book from `data.json` and, where it can be read, the journal.
pub fn book(snap: &Json, journal: Option<&Json>) -> (r: Result<Book, String>)
    ensures
        list::outcome(r) == book_spec(snap@, journal.deep_view()),
{
    let coins = match coins_of(snap) {
        Ok(v) => v,
        Err(e) => {
            return Err(e);
        },
    };
    let port = snap.get_copy("portfolio");
    let bag = match portfolio_num(&port, "stable_bag") {
        Ok(v) => v,
        Err(e) => {
            return Err(e);
        },
    };
    let locked = match portfolio_num(&port, "stable_locked") {
        Ok(v) => v,
        Err(e) => {
            return Err(e);
        },
    };
    let x = bag.minus(locked);
    let mut free = Double::zero();
    if Double::zero().lt(x) {
        free = x;
    }
    match journal {
        Some(j) => Ok(Book { coins, cash_free: free, zones: zones_of(j) }),
        None => Ok(Book { coins, cash_free: free, zones: list::none::<Zone>() }),
    }
}

/// Among the first `n` of them.
pub open spec fn find_source_spec(
    sym: Seq<char>,
    xs: Seq<(Seq<char>, Seq<(Seq<char>, Seq<char>)>)>,
    found: bool,
    out: Seq<(Seq<char>, Seq<char>)>,
    n: nat,
) -> (bool, Seq<(Seq<char>, Seq<char>)>)
    decreases n,
{
    if n == 0 {
        (found, out)
    } else {
        let (found, out) = find_source_spec(sym, xs, found, out, (n - 1) as nat);
        let it = xs[n - 1];
        let s = it.0;
        let v = it.1;
        if !found && s == sym {
            (true, v)
        } else {
            (found, out)
        }
    }
}

fn find_source(
    sym: &str,
    xs: &Vec<(String, Vec<(String, String)>)>,
    found: bool,
    out: Vec<(String, String)>,
) -> (r: (bool, Vec<(String, String)>))
    ensures
        r.deep_view() == find_source_spec(sym@, xs.deep_view(), found, out.deep_view(), xs@.len()),
{
    let ghost found0 = found;
    let ghost out0 = out.deep_view();
    let mut found = found;
    let mut out = out;
    let mut i: usize = 0;
    while i < xs.len()
        invariant
            i <= xs@.len(),
            (found, out.deep_view()) == find_source_spec(
                sym@,
                xs.deep_view(),
                found0,
                out0,
                i as nat,
            ),
        decreases xs@.len() - i,
    {
        let it = &xs[i];
        let s = it.0.as_str();
        let v = &it.1;
        if !found && text::same(s, sym) {
            found = true;
            out = v.dup();
        }
        i = i + 1;
    }
    (found, out)
}

/// A coin's history files, first wins: the configured ones, else the candle cache's usual names.
pub open spec fn sources_for_spec(
    sources: Seq<(Seq<char>, Seq<(Seq<char>, Seq<char>)>)>,
    sym: Seq<char>,
) -> Seq<(Seq<char>, Seq<char>)> {
    let out = Seq::<(Seq<char>, Seq<char>)>::empty().push(
        ("binance_"@ + sym + "USDT.json"@, "ohlc"@),
    ).push(
        ("gate_"@ + sym + "_USDT.json"@, "ohlc"@),
    );
    let found = false;
    let (found, out) = find_source_spec(sym, sources, found, out, sources.len());
    out
}

/// A coin's history files, first wins: the configured ones, else the candle cache's usual names.
pub fn sources_for(
    sources: &Vec<(String, Vec<(String, String)>)>,
    sym: &str,
) -> (r: Vec<(String, String)>)
    ensures
        r.deep_view() == sources_for_spec(sources.deep_view(), sym@),
{
    let mut out: Vec<(String, String)> = list::none();
    let mut line = text::owned("binance_");
    line.push_str(sym);
    line.push_str("USDT.json");
    list::push(&mut out, (line, text::owned("ohlc")));
    let mut line2 = text::owned("gate_");
    line2.push_str(sym);
    line2.push_str("_USDT.json");
    list::push(&mut out, (line2, text::owned("ohlc")));
    let mut found = false;
    let (next_found, next_out) = find_source(sym, sources, found, out);
    found = next_found;
    out = next_out;
    out
}

/// Of the first `n` coins.
pub open spec fn add_high_id_spec(
    ids: Seq<(Seq<char>, Seq<char>)>,
    xs: Seq<(Seq<char>, Double, Seq<char>)>,
    out: Seq<Seq<char>>,
    n: nat,
) -> Seq<Seq<char>> {
    out + list::gathered(
        xs,
        |it: (Seq<char>, Double, Seq<char>)| {
            let s = it.0;
            match dashboard::id_of_spec(ids, s) {
                Some(x) => Some(x),
                None => None,
            }
        },
        n,
    )
}

fn add_high_id(
    ids: &Vec<(String, String)>,
    xs: &Vec<(String, Double, String)>,
    out: Vec<String>,
) -> (r: Vec<String>)
    ensures
        r.deep_view() == add_high_id_spec(
            ids.deep_view(),
            xs.deep_view(),
            out.deep_view(),
            xs@.len(),
        ),
{
    let ghost out0 = out.deep_view();
    let mut out = out;
    let mut i: usize = 0;
    while i < xs.len()
        invariant
            i <= xs@.len(),
            out.deep_view() == add_high_id_spec(ids.deep_view(), xs.deep_view(), out0, i as nat),
        decreases xs@.len() - i,
    {
        let it = &xs[i];
        let s = it.0.as_str();
        match dashboard::id_of(ids, s) {
            Some(x) => {
                list::push(&mut out, x);
            },
            None => {},
        }
        assert(out.deep_view() =~= add_high_id_spec(
            ids.deep_view(),
            xs.deep_view(),
            out0,
            (i + 1) as nat,
        ));
        i = i + 1;
    }
    out
}

/// The ids of the coins with an all-time high.
pub open spec fn high_ids_spec(
    ids: Seq<(Seq<char>, Seq<char>)>,
    ath: Seq<(Seq<char>, Double, Seq<char>)>,
) -> Seq<Seq<char>> {
    add_high_id_spec(ids, ath, Seq::<Seq<char>>::empty(), ath.len())
}

fn high_ids(ids: &Vec<(String, String)>, ath: &Vec<(String, Double, String)>) -> (r: Vec<String>)
    ensures
        r.deep_view() == high_ids_spec(ids.deep_view(), ath.deep_view()),
{
    let mut out: Vec<String> = list::none();
    out = add_high_id(ids, ath, out);
    out
}

/// Where the all-time highs are read, if any coin has an id.
pub open spec fn ath_url_spec(
    ids: Seq<(Seq<char>, Seq<char>)>,
    ath: Seq<(Seq<char>, Double, Seq<char>)>,
) -> Option<Seq<char>> {
    let known = high_ids_spec(ids, ath);
    if known.len() == 0 {
        None
    } else {
        Some(
            "https://api.coingecko.com/api/v3/coins/markets?vs_currency=usd&ids="@
                + text::join_of(known, ","@),
        )
    }
}

/// Where the all-time highs are read, if any coin has an id.
pub fn ath_url(
    ids: &Vec<(String, String)>,
    ath: &Vec<(String, Double, String)>,
) -> (r: Option<String>)
    ensures
        r.deep_view() == ath_url_spec(ids.deep_view(), ath.deep_view()),
{
    let known = high_ids(ids, ath);
    if known.len() == 0 {
        return None;
    }
    let mut line = text::owned(
        "https://api.coingecko.com/api/v3/coins/markets?vs_currency=usd&ids=",
    );
    line.push_str(list::join(&known, ",").as_str());
    Some(line)
}

/// The first `n` of them.
pub open spec fn copy_highs_spec(
    day: Seq<char>,
    sym: Seq<char>,
    x: Double,
    xs: Seq<(Seq<char>, Double, Seq<char>)>,
    done_: bool,
    out: Seq<(Seq<char>, Double, Seq<char>)>,
    n: nat,
) -> (bool, Seq<(Seq<char>, Double, Seq<char>)>)
    decreases n,
{
    if n == 0 {
        (done_, out)
    } else {
        let (done_, out) = copy_highs_spec(day, sym, x, xs, done_, out, (n - 1) as nat);
        let it = xs[n - 1];
        let s = it.0;
        let a = it.1;
        let d = it.2;
        if !done_ && s == sym {
            (true, out.push((s, x, day)))
        } else {
            (done_, out.push((s, a, d)))
        }
    }
}

fn copy_highs(
    day: &str,
    sym: &str,
    x: Double,
    xs: &Vec<(String, Double, String)>,
    done_: bool,
    out: Vec<(String, Double, String)>,
) -> (r: (bool, Vec<(String, Double, String)>))
    ensures
        r.deep_view() == copy_highs_spec(
            day@,
            sym@,
            x,
            xs.deep_view(),
            done_,
            out.deep_view(),
            xs@.len(),
        ),
{
    let ghost done_0 = done_;
    let ghost out0 = out.deep_view();
    let mut done_ = done_;
    let mut out = out;
    let mut i: usize = 0;
    while i < xs.len()
        invariant
            i <= xs@.len(),
            (done_, out.deep_view()) == copy_highs_spec(
                day@,
                sym@,
                x,
                xs.deep_view(),
                done_0,
                out0,
                i as nat,
            ),
        decreases xs@.len() - i,
    {
        let it = &xs[i];
        let s = it.0.as_str();
        let a = it.1;
        let d = it.2.as_str();
        if !done_ && text::same(s, sym) {
            done_ = true;
            list::push(&mut out, (text::owned(s), x, text::owned(day)));
        } else {
            list::push(&mut out, (text::owned(s), a, text::owned(d)));
        }
        i = i + 1;
    }
    (done_, out)
}

/// The all-time highs with the first of a coin's replaced.
pub open spec fn set_high_spec(
    ath: Seq<(Seq<char>, Double, Seq<char>)>,
    sym: Seq<char>,
    x: Double,
    day: Seq<char>,
) -> Seq<(Seq<char>, Double, Seq<char>)> {
    let out = Seq::<(Seq<char>, Double, Seq<char>)>::empty();
    let done_ = false;
    let (done_, out) = copy_highs_spec(day, sym, x, ath, done_, out, ath.len());
    out
}

fn set_high(
    ath: &Vec<(String, Double, String)>,
    sym: &str,
    x: Double,
    day: &str,
) -> (r: Vec<(String, Double, String)>)
    ensures
        r.deep_view() == set_high_spec(ath.deep_view(), sym@, x, day@),
{
    let mut out: Vec<(String, Double, String)> = list::none();
    let mut done_ = false;
    let (next_done_, next_out) = copy_highs(day, sym, x, ath, done_, out);
    done_ = next_done_;
    out = next_out;
    out
}

/// Among the first `n` of them.
pub open spec fn see_high_spec(
    sym: Seq<char>,
    xs: Seq<(Seq<char>, Double, Seq<char>)>,
    out: bool,
    n: nat,
) -> bool {
    out || list::some(
        xs,
        |it: (Seq<char>, Double, Seq<char>)| {
            let s = it.0;
            s == sym
        },
        n,
    )
}

fn see_high(sym: &str, xs: &Vec<(String, Double, String)>, out: bool) -> (r: bool)
    ensures
        r == see_high_spec(sym@, xs.deep_view(), out, xs@.len()),
{
    let ghost out0 = out;
    let mut out = out;
    let mut i: usize = 0;
    while i < xs.len()
        invariant
            i <= xs@.len(),
            out == see_high_spec(sym@, xs.deep_view(), out0, i as nat),
        decreases xs@.len() - i,
    {
        let it = &xs[i];
        let s = it.0.as_str();
        if text::same(s, sym) {
            out = true;
        }
        assert(xs.deep_view()[i as int] == xs@[i as int].deep_view());
        assert(out == see_high_spec(sym@, xs.deep_view(), out0, (i + 1) as nat));
        i = i + 1;
    }
    out
}

/// Whether a coin has an all-time high.
pub open spec fn has_high_spec(ath: Seq<(Seq<char>, Double, Seq<char>)>, sym: Seq<char>) -> bool {
    see_high_spec(sym, ath, false, ath.len())
}

fn has_high(ath: &Vec<(String, Double, String)>, sym: &str) -> (r: bool)
    ensures
        r == has_high_spec(ath.deep_view(), sym@),
{
    let mut out = false;
    out = see_high(sym, ath, out);
    out
}

/// The all-time highs as far as they were refreshed.
#[derive(Debug)]
pub struct Highs {
    pub ath: Vec<(String, Double, String)>,
    /// What came back could not be read any further.
    pub ended: bool,
}

/// What a [`Highs`] holds.
pub struct HighsView {
    pub ath: Seq<(Seq<char>, Double, Seq<char>)>,
    pub ended: bool,
}

impl DeepView for Highs {
    type V = HighsView;

    open spec fn deep_view(&self) -> HighsView {
        HighsView {
            ath: self.ath.deep_view(),
            ended: self.ended,
        }
    }
}

/// The day of an all-time high.
pub open spec fn day_text_spec(c: Doc) -> Seq<char> {
    match c.get("ath_date"@) {
        Some(v) => text::first(v.py_str(), 10),
        None => ""@,
    }
}

fn day_text(c: &Json) -> (r: String)
    ensures
        r@ == day_text_spec(c@),
{
    match c.get("ath_date") {
        Some(v) => text::head(v.py_str().as_str(), 10),
        None => text::owned(""),
    }
}

/// One coin's all-time high, where it came back.
pub open spec fn refresh_coin_spec(h: HighsView, c: Doc) -> HighsView {
    if h.ended {
        h
    } else {
        let name = c.get_or_null("symbol"@);
        match name.as_text() {
            Some(s) => {
                let sym = text::upper_case(s);
                if !has_high_spec(h.ath, sym) {
                    h
                } else {
                    let a = c.get_or_null("ath"@);
                    if !a.truthy() {
                        h
                    } else {
                        match dashboard::py_float_spec(a) {
                            Ok(x) => HighsView {
                                ath: set_high_spec(h.ath, sym, x, day_text_spec(c)),
                                ..h
                            },
                            Err(e) => HighsView { ended: true, ..h },
                        }
                    }
                }
            },
            None => HighsView { ended: true, ..h },
        }
    }
}

fn refresh_coin(h: Highs, c: &Json) -> (r: Highs)
    ensures
        r.deep_view() == refresh_coin_spec(h.deep_view(), c@),
{
    let mut h = h;
    if h.ended {
        return h;
    }
    let name = c.get_copy("symbol");
    match name.as_str() {
        Some(s) => {
            let sym = text::uppercase(s);
            if !has_high(&h.ath, sym.as_str()) {
                return h;
            }
            let a = c.get_copy("ath");
            if !a.truthy() {
                return h;
            }
            match dashboard::py_float(&a) {
                Ok(x) => {
                    h.ath = set_high(&h.ath, sym.as_str(), x, day_text(c).as_str());
                    h
                },
                Err(e) => {
                    h.ended = true;
                    h
                },
            }
        },
        None => {
            h.ended = true;
            h
        },
    }
}

/// The first `n` coins.
pub open spec fn refresh_each_spec(xs: Seq<Doc>, h: HighsView, n: nat) -> HighsView
    decreases n,
{
    if n == 0 {
        h
    } else {
        let h = refresh_each_spec(xs, h, (n - 1) as nat);
        let c = xs[n - 1];
        refresh_coin_spec(h, c)
    }
}

fn refresh_each(xs: &Vec<Json>, h: Highs) -> (r: Highs)
    ensures
        r.deep_view() == refresh_each_spec(xs.deep_view(), h.deep_view(), xs@.len()),
{
    let ghost h0 = h.deep_view();
    let mut h = h;
    let mut i: usize = 0;
    while i < xs.len()
        invariant
            i <= xs@.len(),
            h.deep_view() == refresh_each_spec(xs.deep_view(), h0, i as nat),
        decreases xs@.len() - i,
    {
        let c = &xs[i];
        h = refresh_coin(h, c);
        i = i + 1;
    }
    h
}

/// The all-time highs, refreshed from what came back; the configured values stand otherwise.
pub open spec fn refresh_ath_spec(
    ath: Seq<(Seq<char>, Double, Seq<char>)>,
    reply: Option<Doc>,
) -> Seq<(Seq<char>, Double, Seq<char>)> {
    let h = HighsView { ath, ended: false };
    let h = match reply {
        Some(r) => refresh_each_spec(r.items(), h, r.items().len()),
        None => h,
    };
    h.ath
}

/// The all-time highs, refreshed from what came back; the configured values stand otherwise.
pub fn refresh_ath(
    ath: Vec<(String, Double, String)>,
    reply: Option<&Json>,
) -> (r: Vec<(String, Double, String)>)
    ensures
        r.deep_view() == refresh_ath_spec(ath.deep_view(), reply.deep_view()),
{
    let mut h = Highs { ath, ended: false };
    match reply {
        Some(r) => {
            h = refresh_each(&json::items(r), h);
        },
        None => {},
    }
    h.ath.dup()
}

/// The venues' fees, in percent.
#[derive(Clone, Copy, Debug)]
pub struct Fees {
    pub revx: Double,
    pub gate: Double,
    pub binance: Double,
}

impl DeepView for Fees {
    type V = Fees;

    open spec fn deep_view(&self) -> Fees {
        *self
    }
}

/// Among the first `n` routes.
pub open spec fn find_venue_spec(
    sym: Seq<char>,
    xs: Seq<RouteView>,
    out: Option<Seq<char>>,
    n: nat,
) -> Option<Seq<char>> {
    match out {
        Some(v) => Some(v),
        None => list::first_given(
            xs,
            |r: RouteView| if r.sym == sym {
                Some(r.exch)
            } else {
                None
            },
            n,
        ),
    }
}

fn find_venue(sym: &str, xs: &Vec<Route>, out: Option<String>) -> (r: Option<String>)
    ensures
        r.deep_view() == find_venue_spec(sym@, xs.deep_view(), out.deep_view(), xs@.len()),
{
    let ghost out0 = out.deep_view();
    let mut out = out;
    let mut i: usize = 0;
    while i < xs.len()
        invariant
            i <= xs@.len(),
            out.deep_view() == find_venue_spec(sym@, xs.deep_view(), out0, i as nat),
        decreases xs@.len() - i,
    {
        let r = &xs[i];
        if out.is_none() && text::same(r.sym.as_str(), sym) {
            out = Some(text::owned(r.exch.as_str()));
        }
        assert(xs.deep_view()[i as int] == xs@[i as int].deep_view());
        assert(out.deep_view() == find_venue_spec(sym@, xs.deep_view(), out0, (i + 1) as nat));
        i = i + 1;
    }
    out
}

/// The venue a coin is routed to.
pub open spec fn route_for_spec(routing: Seq<RouteView>, sym: Seq<char>) -> Option<Seq<char>> {
    let out: Option<Seq<char>> = None;
    find_venue_spec(sym, routing, out, routing.len())
}

fn route_for(routing: &Vec<Route>, sym: &str) -> (r: Option<String>)
    ensures
        r.deep_view() == route_for_spec(routing.deep_view(), sym@),
{
    let mut out: Option<String> = None;
    out = find_venue(sym, routing, out);
    out
}

/// The venue fee for a coin, in percent: the override, else its route's venue.
pub open spec fn fee_pct_spec(
    routing: Seq<RouteView>,
    fees: Fees,
    all: Option<Double>,
    sym: Seq<char>,
) -> Double {
    match all {
        Some(f) => f,
        None => match route_for_spec(routing, sym) {
            Some(exch) => if exch == "revx"@ {
                fees.revx
            } else if exch == "gate"@ {
                fees.gate
            } else if exch == "binance"@ {
                fees.binance
            } else {
                Double::ratio_spec(1, 10)
            },
            None => Double::ratio_spec(1, 10),
        },
    }
}

/// The venue fee for a coin, in percent: the override, else its route's venue.
pub fn fee_pct(routing: &Vec<Route>, fees: Fees, all: Option<Double>, sym: &str) -> (r: Double)
    ensures
        r == fee_pct_spec(routing.deep_view(), fees, all, sym@),
{
    match all {
        Some(f) => f,
        None => match route_for(routing, sym) {
            Some(exch) => {
                if text::same(exch.as_str(), "revx") {
                    return fees.revx;
                }
                if text::same(exch.as_str(), "gate") {
                    return fees.gate;
                }
                if text::same(exch.as_str(), "binance") {
                    return fees.binance;
                }
                Double::ratio(1, 10)
            },
            None => Double::ratio(1, 10),
        },
    }
}

/// Of the first `n` coins.
pub open spec fn add_alt_spec(
    market: Seq<char>,
    xs: Seq<Seq<char>>,
    out: Seq<Seq<char>>,
    n: nat,
) -> Seq<Seq<char>> {
    out + list::kept(xs, |s: Seq<char>| s != market, n)
}

fn add_alt(market: &str, xs: &Vec<String>, out: Vec<String>) -> (r: Vec<String>)
    ensures
        r.deep_view() == add_alt_spec(market@, xs.deep_view(), out.deep_view(), xs@.len()),
{
    let ghost out0 = out.deep_view();
    let mut out = out;
    let mut i: usize = 0;
    while i < xs.len()
        invariant
            i <= xs@.len(),
            out.deep_view() == add_alt_spec(market@, xs.deep_view(), out0, i as nat),
        decreases xs@.len() - i,
    {
        let s = xs[i].as_str();
        if !text::same(s, market) {
            list::push(&mut out, text::owned(s));
        }
        assert(out.deep_view() =~= add_alt_spec(market@, xs.deep_view(), out0, (i + 1) as nat));
        i = i + 1;
    }
    out
}

/// The coins that follow the market: those configured, else the watchlist without it.
pub open spec fn alts_of_spec(
    k: ScenarioKnobsView,
    watchlist: Seq<Seq<char>>,
    market: Seq<char>,
) -> Seq<Seq<char>> {
    match k.alts {
        Some(l) => l,
        None => add_alt_spec(market, watchlist, Seq::<Seq<char>>::empty(), watchlist.len()),
    }
}

/// The coins that follow the market: those configured, else the watchlist without it.
pub fn alts_of(k: &ScenarioKnobs, watchlist: &Vec<String>, market: &str) -> (r: Vec<String>)
    ensures
        r.deep_view() == alts_of_spec(k.deep_view(), watchlist.deep_view(), market@),
{
    match &k.alts {
        Some(l) => l.dup(),
        None => {
            let mut out: Vec<String> = list::none();
            out = add_alt(market, watchlist, out);
            out
        },
    }
}

/// Of the first `n` weights.
pub open spec fn add_weight_spec(
    xs: Seq<(Seq<char>, Double)>,
    out: Seq<(Seq<char>, Double)>,
    n: nat,
) -> Seq<(Seq<char>, Double)> {
    out + Seq::new(
        n,
        |i: int| {
            let it = xs[i];
            let s = it.0;
            let w = it.1;
            (text::upper_case(s), w)
        },
    )
}

fn add_weight(
    xs: &Vec<(String, Double)>,
    out: Vec<(String, Double)>,
) -> (r: Vec<(String, Double)>)
    ensures
        r.deep_view() == add_weight_spec(xs.deep_view(), out.deep_view(), xs@.len()),
{
    let ghost out0 = out.deep_view();
    let mut out = out;
    let mut i: usize = 0;
    while i < xs.len()
        invariant
            i <= xs@.len(),
            out.deep_view() == add_weight_spec(xs.deep_view(), out0, i as nat),
        decreases xs@.len() - i,
    {
        let it = &xs[i];
        let s = it.0.as_str();
        let w = it.1;
        list::push(&mut out, (text::uppercase(s), w));
        assert(out.deep_view() =~= add_weight_spec(xs.deep_view(), out0, (i + 1) as nat));
        i = i + 1;
    }
    out
}

/// What new cash buys: the weights configured, else the deploy layer's, the coins in capitals.
pub open spec fn alloc_of_spec(
    k: ScenarioKnobsView,
    deploy_alloc: Seq<(Seq<char>, Double)>,
) -> Seq<(Seq<char>, Double)> {
    match k.alloc {
        Some(l) => l,
        None => add_weight_spec(
            deploy_alloc,
            Seq::<(Seq<char>, Double)>::empty(),
            deploy_alloc.len(),
        ),
    }
}

/// What new cash buys: the weights configured, else the deploy layer's, the coins in capitals.
pub fn alloc_of(
    k: &ScenarioKnobs,
    deploy_alloc: &Vec<(String, Double)>,
) -> (r: Vec<(String, Double)>)
    ensures
        r.deep_view() == alloc_of_spec(k.deep_view(), deploy_alloc.deep_view()),
{
    match &k.alloc {
        Some(l) => l.dup(),
        None => {
            let mut out: Vec<(String, Double)> = list::none();
            out = add_weight(deploy_alloc, out);
            out
        },
    }
}

/// Of the first `n` coins.
pub open spec fn add_coin_fee_spec(
    all: Option<Double>,
    fees: Fees,
    routing: Seq<RouteView>,
    xs: Seq<BookCoinView>,
    out: Seq<(Seq<char>, Double)>,
    n: nat,
) -> Seq<(Seq<char>, Double)> {
    out + Seq::new(
        n,
        |i: int| {
            let c = xs[i];
            (c.sym, fee_pct_spec(routing, fees, all, c.sym))
        },
    )
}

fn add_coin_fee(
    all: Option<Double>,
    fees: Fees,
    routing: &Vec<Route>,
    xs: &Vec<BookCoin>,
    out: Vec<(String, Double)>,
) -> (r: Vec<(String, Double)>)
    ensures
        r.deep_view() == add_coin_fee_spec(
            all,
            fees,
            routing.deep_view(),
            xs.deep_view(),
            out.deep_view(),
            xs@.len(),
        ),
{
    let ghost out0 = out.deep_view();
    let mut out = out;
    let mut i: usize = 0;
    while i < xs.len()
        invariant
            i <= xs@.len(),
            out.deep_view() == add_coin_fee_spec(
                all,
                fees,
                routing.deep_view(),
                xs.deep_view(),
                out0,
                i as nat,
            ),
        decreases xs@.len() - i,
    {
        let c = &xs[i];
        list::push(
            &mut out,
            (text::owned(c.sym.as_str()), fee_pct(routing, fees, all, c.sym.as_str())),
        );
        assert(out.deep_view() =~= add_coin_fee_spec(
            all,
            fees,
            routing.deep_view(),
            xs.deep_view(),
            out0,
            (i + 1) as nat,
        ));
        i = i + 1;
    }
    out
}

/// And of the first `n` zones.
pub open spec fn add_zone_fee_spec(
    all: Option<Double>,
    fees: Fees,
    routing: Seq<RouteView>,
    xs: Seq<ZoneView>,
    out: Seq<(Seq<char>, Double)>,
    n: nat,
) -> Seq<(Seq<char>, Double)> {
    out + Seq::new(
        n,
        |i: int| {
            let z = xs[i];
            (z.sym, fee_pct_spec(routing, fees, all, z.sym))
        },
    )
}

fn add_zone_fee(
    all: Option<Double>,
    fees: Fees,
    routing: &Vec<Route>,
    xs: &Vec<Zone>,
    out: Vec<(String, Double)>,
) -> (r: Vec<(String, Double)>)
    ensures
        r.deep_view() == add_zone_fee_spec(
            all,
            fees,
            routing.deep_view(),
            xs.deep_view(),
            out.deep_view(),
            xs@.len(),
        ),
{
    let ghost out0 = out.deep_view();
    let mut out = out;
    let mut i: usize = 0;
    while i < xs.len()
        invariant
            i <= xs@.len(),
            out.deep_view() == add_zone_fee_spec(
                all,
                fees,
                routing.deep_view(),
                xs.deep_view(),
                out0,
                i as nat,
            ),
        decreases xs@.len() - i,
    {
        let z = &xs[i];
        list::push(
            &mut out,
            (text::owned(z.sym.as_str()), fee_pct(routing, fees, all, z.sym.as_str())),
        );
        assert(out.deep_view() =~= add_zone_fee_spec(
            all,
            fees,
            routing.deep_view(),
            xs.deep_view(),
            out0,
            (i + 1) as nat,
        ));
        i = i + 1;
    }
    out
}

/// The fee of each coin in the book, held or resting.
pub open spec fn fee_table_spec(
    b: BookView,
    routing: Seq<RouteView>,
    fees: Fees,
    all: Option<Double>,
) -> Seq<(Seq<char>, Double)> {
    let out = add_coin_fee_spec(
        all,
        fees,
        routing,
        b.coins,
        Seq::<(Seq<char>, Double)>::empty(),
        b.coins.len(),
    );
    add_zone_fee_spec(all, fees, routing, b.zones, out, b.zones.len())
}

/// The fee of each coin in the book, held or resting.
pub fn fee_table(
    b: &Book,
    routing: &Vec<Route>,
    fees: Fees,
    all: Option<Double>,
) -> (r: Vec<(String, Double)>)
    ensures
        r.deep_view() == fee_table_spec(b.deep_view(), routing.deep_view(), fees, all),
{
    let mut out: Vec<(String, Double)> = list::none();
    out = add_coin_fee(all, fees, routing, &b.coins, out);
    out = add_zone_fee(all, fees, routing, &b.zones, out);
    out
}

/// Where no list of coins came back the configured all-time highs stand.
pub proof fn law_the_configured_highs_stand(
    ath: Seq<(Seq<char>, Double, Seq<char>)>,
    reply: Option<Doc>,
)
    requires
        reply matches Some(r) ==> r !is Arr,
    ensures
        refresh_ath_spec(ath, reply) == ath,
{
}

/// The free cash of a book is its stable less what is locked, never less than nothing.
pub proof fn law_locked_cash_is_not_free(
    snap: Doc,
    journal: Option<Doc>,
    bag: Double,
    locked: Double,
)
    requires
        portfolio_num_spec(snap.get_or_null("portfolio"@), "stable_bag"@) == Ok::<Double, Seq<char>>(bag),
        portfolio_num_spec(snap.get_or_null("portfolio"@), "stable_locked"@) == Ok::<
            Double,
            Seq<char>,
        >(locked),
        bag.finite(),
        locked.finite(),
        bag.amount() >= 0,
        locked.amount() >= 0,
    ensures
        book_spec(snap, journal) matches Ok(b) ==> {
            &&& 0 <= b.cash_free.amount() <= bag.amount()
            &&& locked.amount() == 0 ==> b.cash_free.amount() == bag.amount()
            &&& bag.amount() <= locked.amount() ==> b.cash_free.amount() == 0
            &&& bag.amount() > locked.amount() ==> rounding::grain() * rounding::size(
                b.cash_free.amount() + locked.amount() - bag.amount(),
            ) <= b.cash_free.amount() + rounding::least()
        },
{
    crate::double::lemma_scaled_zero();
    rounding::lemma_rest(bag, locked);
    rounding::lemma_sub_sign(bag, locked);
}

} // verus!
