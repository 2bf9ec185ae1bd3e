//! The opt-in executor's commands: what the command line says, which orders a plan implies, and
//! what each command does and prints.
//!
//! A plan becomes GTC limit orders only behind the rails, and a command that talks to a venue is
//! a function of the answers it has had so far: it says what it needs next, and is called again
//! with one answer more.
use crate::clients;
use crate::dashboard::Parts;
use crate::decimal;
use crate::deploy::Settled;
use crate::deploy::check::Tranche;
use crate::double::Double;
use crate::guard;
use crate::guard::{Caps, Context, Intent, Mode, Refusal};
use crate::journal;
use crate::journal::{Journal, Order, OrderView, Side};
use crate::keys;
use crate::list;
use crate::list::Duplicate;
use crate::pyfmt;
use crate::rounding;
use crate::text;
use crate::venue::{Balance, Limits, ParsedOrder, ParsedOrderView};
use crate::watch::json;
use crate::watch::json::{Doc, Json};
use vstd::prelude::*;

verus! {

/// The caps that hold unless others are asked for.
pub open spec fn default_caps_spec() -> Caps {
    Caps {
        max_order_quote: Double::int_spec(50),
        max_daily_notional: Double::int_spec(200),
        max_daily_orders: 10,
        max_slippage_pct: Double::int_spec(2),
        min_order_quote: Double::int_spec(1),
    }
}

fn default_caps() -> (r: Caps)
    ensures
        r == default_caps_spec(),
{
    Caps::default()
}

/// What the rails say of a live order: none where it may be placed.
pub open spec fn rails_spec(
    quote: Double,
    price: Double,
    halted: bool,
    acknowledged: bool,
    today_notional: Double,
    today_orders: usize,
    caps: Caps,
) -> Option<Refusal> {
    match guard::verdict_on(
        quote,
        price,
        price,
        (Context { mode: Mode::Live, halted, acknowledged, today_notional, today_orders }),
        caps,
    ) {
        Ok(u) => None,
        Err(r) => Some(r),
    }
}

fn rails(
    quote: Double,
    price: Double,
    halted: bool,
    acknowledged: bool,
    today_notional: Double,
    today_orders: usize,
    caps: Caps,
) -> (r: Option<Refusal>)
    ensures
        r == rails_spec(quote, price, halted, acknowledged, today_notional, today_orders, caps),
{
    let intent = Intent { sym: String::new(), quote, decided_price: price, venue_price: price };
    let ctx = Context { mode: Mode::Live, halted, acknowledged, today_notional, today_orders };
    match guard::check(&intent, ctx, caps) {
        Ok(_u) => None,
        Err(r) => Some(r),
    }
}

/// Whether a refusal holds of every other order too.
pub open spec fn ends_run_spec(r: Refusal) -> bool {
    r is Halted || r is NotAcknowledged || r is NotLive
}

fn ends_run(r: Refusal) -> (b: bool)
    ensures
        b == ends_run_spec(r),
{
    match r {
        Refusal::Halted => true,
        Refusal::NotAcknowledged => true,
        Refusal::NotLive(_) => true,
        _ => false,
    }
}

/// A flag without the dashes in front of it.
pub open spec fn bare_flag_spec(s: Seq<char>) -> Option<Seq<char>> {
    if text::begins(s, "--"@) {
        Some(s.skip(2))
    } else {
        None
    }
}

fn bare_flag(s: &str) -> (r: Option<String>)
    ensures
        r.deep_view() == bare_flag_spec(s@),
{
    if text::begins_with(s, "--") {
        proof {
            reveal_strlit("--");
        }
        let v = text::chars_of(s);
        let t = text::slice_of(&v, 2, v.len());
        assert(t@ =~= s@.skip(2));
        Some(t)
    } else {
        None
    }
}

fn to_size(x: Double) -> (r: usize)
    ensures
        r as int == x.cast_spec(0, usize::MAX as int),
{
    let w: u64 = x.to_u64();
    if w <= usize::MAX as u64 {
        w as usize
    } else {
        usize::MAX
    }
}

/// The whole number a text spells, where it fits in 64 bits and has no minus.
pub open spec fn read_u64_spec(s: Seq<char>) -> Option<u64> {
    if s.len() > 0 && s[0] == '-' {
        None
    } else {
        match decimal::whole_within(s, 0, u64::MAX as int) {
            Some(v) => Some(v as u64),
            None => None,
        }
    }
}

/// The whole number a text spells, where it fits in 64 bits with a sign.
pub open spec fn read_days_spec(s: Seq<char>) -> Option<i64> {
    match decimal::whole_within(s, i64::MIN as int, i64::MAX as int) {
        Some(v) => Some(v as i64),
        None => None,
    }
}

/// The count a text spells.
pub open spec fn read_size_spec(s: Seq<char>) -> Option<usize> {
    match read_u64_spec(s) {
        Some(v) => if v <= usize::MAX {
            Some(v as usize)
        } else {
            None
        },
        None => None,
    }
}

fn read_size(s: &str) -> (r: Option<usize>)
    ensures
        r == read_size_spec(s@),
{
    match decimal::read_u64(s) {
        Some(v) => if v <= usize::MAX as u64 {
            Some(v as usize)
        } else {
            None
        },
        None => None,
    }
}

/// A command and its flags; a bare word behind the command is the flag `sub`.
#[derive(Debug)]
pub struct Args {
    pub cmd: String,
    pub flags: Vec<(String, String)>,
}

/// What a [`Args`] holds.
pub struct ArgsView {
    pub cmd: Seq<char>,
    pub flags: Seq<(Seq<char>, Seq<char>)>,
}

impl DeepView for Args {
    type V = ArgsView;

    open spec fn deep_view(&self) -> ArgsView {
        ArgsView {
            cmd: self.cmd@,
            flags: self.flags.deep_view(),
        }
    }
}

/// Whether a flag is followed by its value.
pub open spec fn takes_value_spec(bare: Seq<char>) -> bool {
    bare == "config"@
        || bare == "from"@
        || bare == "journal"@
        || bare == "venue"@
        || bare == "days"@
        || bare == "pair"@
        || bare == "pair-map"@
        || bare == "budget"@
        || bare == "max-order"@
        || bare == "max-daily"@
        || bare == "max-orders"@
        || bare == "max-slippage"@
}

fn takes_value(bare: &str) -> (r: bool)
    ensures
        r == takes_value_spec(bare@),
{
    text::same(bare, "config")
        || text::same(bare, "from")
        || text::same(bare, "journal")
        || text::same(bare, "venue")
        || text::same(bare, "days")
        || text::same(bare, "pair")
        || text::same(bare, "pair-map")
        || text::same(bare, "budget")
        || text::same(bare, "max-order")
        || text::same(bare, "max-daily")
        || text::same(bare, "max-orders")
        || text::same(bare, "max-slippage")
}

/// The flags so far, and the flag whose value comes next.
#[derive(Debug)]
pub struct Parsing {
    pub flags: Vec<(String, String)>,
    pub awaited: Option<String>,
}

/// What a [`Parsing`] holds.
pub struct ParsingView {
    pub flags: Seq<(Seq<char>, Seq<char>)>,
    pub awaited: Option<Seq<char>>,
}

impl DeepView for Parsing {
    type V = ParsingView;

    open spec fn deep_view(&self) -> ParsingView {
        ParsingView {
            flags: self.flags.deep_view(),
            awaited: self.awaited.deep_view(),
        }
    }
}

/// One more flag.
pub open spec fn with_flag_spec(p: ParsingView, bare: Seq<char>) -> ParsingView {
    match keys::cut_at_spec(bare, '=') {
        Some(kv) => ParsingView { flags: p.flags.push((kv.0, kv.1)), ..p },
        None => if takes_value_spec(bare) {
            ParsingView { awaited: Some(bare), ..p }
        } else {
            ParsingView { flags: p.flags.push((bare, "1"@)), ..p }
        },
    }
}

fn with_flag(p: Parsing, bare: &str) -> (r: Parsing)
    ensures
        r.deep_view() == with_flag_spec(p.deep_view(), bare@),
{
    let mut p = p;
    match keys::cut_at(bare, '=') {
        Some(kv) => {
            list::push(&mut p.flags, (text::owned(kv.0.as_str()), text::owned(kv.1.as_str())));
            p
        },
        None => {
            if takes_value(bare) {
                p.awaited = Some(text::owned(bare));
                return p;
            }
            list::push(&mut p.flags, (text::owned(bare), text::owned("1")));
            p
        },
    }
}

/// One more word of the command line.
pub open spec fn with_word_spec(p: ParsingView, word: Seq<char>) -> ParsingView {
    match p.awaited {
        Some(k) => {
            let p = ParsingView { flags: p.flags.push((k, word)), ..p };
            ParsingView { awaited: None, ..p }
        },
        None => match bare_flag_spec(word) {
            Some(bare) => with_flag_spec(p, bare),
            None => ParsingView { flags: p.flags.push(("sub"@, word)), ..p },
        },
    }
}

fn with_word(p: Parsing, word: &str) -> (r: Parsing)
    ensures
        r.deep_view() == with_word_spec(p.deep_view(), word@),
{
    let mut p = p;
    match p.awaited.dup() {
        Some(k) => {
            list::push(&mut p.flags, (k, text::owned(word)));
            p.awaited = None;
            p
        },
        None => match bare_flag(word) {
            Some(bare) => with_flag(p, bare.as_str()),
            None => {
                list::push(&mut p.flags, (text::owned("sub"), text::owned(word)));
                p
            },
        },
    }
}

/// The first `n` of them.
pub open spec fn parse_words_spec(xs: Seq<Seq<char>>, p: ParsingView, n: nat) -> ParsingView
    decreases n,
{
    if n == 0 {
        p
    } else {
        let p = parse_words_spec(xs, p, (n - 1) as nat);
        let word = xs[n - 1];
        let k = (n - 1) as usize;
        if k > 0 {
            with_word_spec(p, word)
        } else {
            p
        }
    }
}

fn parse_words(xs: &Vec<String>, p: Parsing) -> (r: Parsing)
    ensures
        r.deep_view() == parse_words_spec(xs.deep_view(), p.deep_view(), xs@.len()),
{
    let ghost p0 = p.deep_view();
    let mut p = p;
    let mut i: usize = 0;
    while i < xs.len()
        invariant
            i <= xs@.len(),
            p.deep_view() == parse_words_spec(xs.deep_view(), p0, i as nat),
        decreases xs@.len() - i,
    {
        let word = xs[i].as_str();
        let k: usize = i;
        if k > 0 {
            p = with_word(p, word);
        }
        i = i + 1;
    }
    p
}

/// The command line: flags as `--key value` or `--key=value`.
pub open spec fn parse_args_spec(argv: Seq<Seq<char>>) -> Result<ArgsView, Seq<char>> {
    let p = ParsingView { flags: Seq::<(Seq<char>, Seq<char>)>::empty(), awaited: None };
    let p = parse_words_spec(argv, p, argv.len());
    match p.awaited {
        Some(k) => Err("--"@ + k + " needs a value"@),
        None => Ok(
            ArgsView {
                cmd: match list::item(argv, 0) {
                    Some(v) => v,
                    None => ""@,
                },
                flags: p.flags,
            },
        ),
    }
}

/// The command line: flags as `--key value` or `--key=value`.
pub fn parse_args(argv: &Vec<String>) -> (r: Result<Args, String>)
    ensures
        list::outcome(r) == parse_args_spec(argv.deep_view()),
{
    let mut p = Parsing { flags: list::none::<(String, String)>(), awaited: None };
    p = parse_words(argv, p);
    match &p.awaited {
        Some(k) => {
            let mut line = text::owned("--");
            line.push_str(k.as_str());
            line.push_str(" needs a value");
            Err(line)
        },
        None => Ok(
            Args {
                cmd: match list::str_ref(list::at(argv, 0)) {
                    Some(v) => text::owned(v),
                    None => text::owned(""),
                },
                flags: p.flags.dup(),
            },
        ),
    }
}

/// Among the first `n` flags.
pub open spec fn find_flag_spec(
    name: Seq<char>,
    xs: Seq<(Seq<char>, Seq<char>)>,
    out: Option<Seq<char>>,
    n: nat,
) -> Option<Seq<char>>
    decreases n,
{
    if n == 0 {
        out
    } else {
        let out = find_flag_spec(name, xs, out, (n - 1) as nat);
        let it = xs[n - 1];
        let k = it.0;
        let v = it.1;
        if k == name {
            Some(v)
        } else {
            out
        }
    }
}

fn find_flag(name: &str, xs: &Vec<(String, String)>, out: Option<String>) -> (r: Option<String>)
    ensures
        r.deep_view() == find_flag_spec(name@, xs.deep_view(), out.deep_view(), xs@.len()),
{
    let ghost out0 = out.deep_view();
    let mut out = out;
    let mut i: usize = 0;
    while i < xs.len()
        invariant
            i <= xs@.len(),
            out.deep_view() == find_flag_spec(name@, xs.deep_view(), out0, i as nat),
        decreases xs@.len() - i,
    {
        let it = &xs[i];
        let k = it.0.as_str();
        let v = it.1.as_str();
        if text::same(k, name) {
            out = Some(text::owned(v));
        }
        i = i + 1;
    }
    out
}

/// A flag's value; the last one counts.
pub open spec fn flag_of_spec(a: ArgsView, name: Seq<char>) -> Option<Seq<char>> {
    let out: Option<Seq<char>> = None;
    find_flag_spec(name, a.flags, out, a.flags.len())
}

/// A flag's value; the last one counts.
pub fn flag_of(a: &Args, name: &str) -> (r: Option<String>)
    ensures
        r.deep_view() == flag_of_spec(a.deep_view(), name@),
{
    let mut out: Option<String> = None;
    out = find_flag(name, &a.flags, out);
    out
}

/// Why a text is no number.
pub open spec fn float_error_spec(v: Seq<char>) -> Seq<char> {
    if v == ""@ {
        "cannot parse float from empty string"@
    } else {
        "invalid float literal"@
    }
}

fn float_error(v: &str) -> (r: String)
    ensures
        r@ == float_error_spec(v@),
{
    if text::same(v, "") {
        return text::owned("cannot parse float from empty string");
    }
    text::owned("invalid float literal")
}

/// A flag's number, another where it is not given.
pub open spec fn number_flag_spec(
    a: ArgsView,
    name: Seq<char>,
    other: Double,
) -> Result<Double, Seq<char>> {
    match flag_of_spec(a, name) {
        Some(v) => match crate::watch::pyfmt::number_or_word(v) {
            Some(x) => Ok(x),
            None => Err("--"@ + name + ": "@ + float_error_spec(v)),
        },
        None => Ok(other),
    }
}

/// A flag's number, another where it is not given.
pub fn number_flag(a: &Args, name: &str, other: Double) -> (r: Result<Double, String>)
    ensures
        list::outcome(r) == number_flag_spec(a.deep_view(), name@, other),
{
    match flag_of(a, name) {
        Some(v) => match crate::watch::pyfmt::read_number_or_word(v.as_str()) {
            Some(x) => Ok(x),
            None => {
                let mut line = text::owned("--");
                line.push_str(name);
                line.push_str(": ");
                line.push_str(float_error(v.as_str()).as_str());
                Err(line)
            },
        },
        None => Ok(other),
    }
}

/// A text that holds more than spaces.
pub open spec fn nonblank_spec(v: Option<Seq<char>>) -> Option<Seq<char>> {
    match v {
        Some(t) => if text::trim(t) == ""@ {
            None
        } else {
            Some(t)
        },
        None => None,
    }
}

fn nonblank(v: Option<&str>) -> (r: Option<String>)
    ensures
        r.deep_view() == nonblank_spec(v.deep_view()),
{
    let t = match v {
        Some(v) => v,
        None => {
            return None;
        },
    };
    if text::same(text::trimmed(t).as_str(), "") {
        return None;
    }
    Some(text::owned(t))
}

/// Where the configuration is kept.
pub open spec fn config_dir_spec(xdg: Option<Seq<char>>, home: Option<Seq<char>>) -> Seq<char> {
    match nonblank_spec(xdg) {
        Some(x) => crate::dashboard::path_join_spec(x, "rungbot"@),
        None => crate::dashboard::path_join_spec(
            crate::dashboard::path_join_spec(
                match home {
                    Some(v) => v,
                    None => "."@,
                },
                ".config"@,
            ),
            "rungbot"@,
        ),
    }
}

/// Where the configuration is kept.
pub fn config_dir(xdg: Option<&str>, home: Option<&str>) -> (r: String)
    ensures
        r@ == config_dir_spec(xdg.deep_view(), home.deep_view()),
{
    match nonblank(xdg) {
        Some(x) => crate::dashboard::path_join(x.as_str(), "rungbot"),
        None => crate::dashboard::path_join(
            crate::dashboard::path_join(
                match home {
                    Some(v) => v,
                    None => ".",
                },
                ".config",
            ).as_str(),
            "rungbot",
        ),
    }
}

/// Where the state is kept.
pub open spec fn state_dir_spec(xdg: Option<Seq<char>>, home: Option<Seq<char>>) -> Seq<char> {
    match nonblank_spec(xdg) {
        Some(x) => crate::dashboard::path_join_spec(x, "rungbot"@),
        None => crate::dashboard::path_join_spec(
            crate::dashboard::path_join_spec(
                crate::dashboard::path_join_spec(
                    match home {
                        Some(v) => v,
                        None => "."@,
                    },
                    ".local"@,
                ),
                "state"@,
            ),
            "rungbot"@,
        ),
    }
}

/// Where the state is kept.
pub fn state_dir(xdg: Option<&str>, home: Option<&str>) -> (r: String)
    ensures
        r@ == state_dir_spec(xdg.deep_view(), home.deep_view()),
{
    match nonblank(xdg) {
        Some(x) => crate::dashboard::path_join(x.as_str(), "rungbot"),
        None => crate::dashboard::path_join(
            crate::dashboard::path_join(
                crate::dashboard::path_join(
                    match home {
                        Some(v) => v,
                        None => ".",
                    },
                    ".local",
                ).as_str(),
                "state",
            ).as_str(),
            "rungbot",
        ),
    }
}

/// The halt file.
pub open spec fn halt_path_spec(halt: Option<Seq<char>>, config: Seq<char>) -> Seq<char> {
    match nonblank_spec(halt) {
        Some(x) => x,
        None => crate::dashboard::path_join_spec(config, "HALT"@),
    }
}

/// The halt file.
pub fn halt_path(halt: Option<&str>, config: &str) -> (r: String)
    ensures
        r@ == halt_path_spec(halt.deep_view(), config@),
{
    match nonblank(halt) {
        Some(x) => x,
        None => crate::dashboard::path_join(config, "HALT"),
    }
}

/// The order journal.
pub open spec fn journal_path_spec(a: ArgsView, state: Seq<char>) -> Seq<char> {
    match flag_of_spec(a, "journal"@) {
        Some(p) => p,
        None => crate::dashboard::path_join_spec(state, "orders-journal.json"@),
    }
}

/// The order journal.
pub fn journal_path(a: &Args, state: &str) -> (r: String)
    ensures
        r@ == journal_path_spec(a.deep_view(), state@),
{
    match flag_of(a, "journal") {
        Some(p) => p,
        None => crate::dashboard::path_join(state, "orders-journal.json"),
    }
}

/// How many seconds a second writer waits for the lock.
pub open spec fn lock_wait_spec(v: Option<Seq<char>>) -> u64 {
    match v {
        Some(t) => match read_u64_spec(text::trim(t)) {
            Some(v) => v,
            None => 120,
        },
        None => 120,
    }
}

/// How many seconds a second writer waits for the lock.
pub fn lock_wait(v: Option<&str>) -> (r: u64)
    ensures
        r == lock_wait_spec(v.deep_view()),
{
    let t = match v {
        Some(v) => v,
        None => {
            return 120;
        },
    };
    match decimal::read_u64(text::trimmed(t).as_str()) {
        Some(v) => v,
        None => 120,
    }
}

/// Among the first `n` words.
pub open spec fn find_value_spec(
    name: Seq<char>,
    xs: Seq<Seq<char>>,
    out: Option<Seq<char>>,
    taken: bool,
    found: bool,
    n: nat,
) -> (Option<Seq<char>>, bool, bool)
    decreases n,
{
    if n == 0 {
        (out, taken, found)
    } else {
        let (out, taken, found) = find_value_spec(name, xs, out, taken, found, (n - 1) as nat);
        let w = xs[n - 1];
        let (out, taken) = if found && !taken {
            (Some(w), true)
        } else {
            (out, taken)
        };
        let found = if w == name {
            true
        } else {
            found
        };
        (out, taken, found)
    }
}

fn find_value(
    name: &str,
    xs: &Vec<String>,
    out: Option<String>,
    taken: bool,
    found: bool,
) -> (r: (Option<String>, bool, bool))
    ensures
        r.deep_view() == find_value_spec(
            name@,
            xs.deep_view(),
            out.deep_view(),
            taken,
            found,
            xs@.len(),
        ),
{
    let ghost out0 = out.deep_view();
    let ghost taken0 = taken;
    let ghost found0 = found;
    let mut out = out;
    let mut taken = taken;
    let mut found = found;
    let mut i: usize = 0;
    while i < xs.len()
        invariant
            i <= xs@.len(),
            (out.deep_view(), taken, found) == find_value_spec(
                name@,
                xs.deep_view(),
                out0,
                taken0,
                found0,
                i as nat,
            ),
        decreases xs@.len() - i,
    {
        let w = xs[i].as_str();
        if found && !taken {
            out = Some(text::owned(w));
            taken = true;
        }
        if text::same(w, name) {
            found = true;
        }
        i = i + 1;
    }
    (out, taken, found)
}

/// The word behind the first mention of a flag.
pub open spec fn flag_value_spec(argv: Seq<Seq<char>>, name: Seq<char>) -> Option<Seq<char>> {
    let found = false;
    let out: Option<Seq<char>> = None;
    let taken = false;
    let (out, taken, found) = find_value_spec(name, argv, out, taken, found, argv.len());
    out
}

/// The word behind the first mention of a flag.
pub fn flag_value(argv: &Vec<String>, name: &str) -> (r: Option<String>)
    ensures
        r.deep_view() == flag_value_spec(argv.deep_view(), name@),
{
    let mut found = false;
    let mut out: Option<String> = None;
    let mut taken = false;
    let (next_out, next_taken, next_found) = find_value(name, argv, out, taken, found);
    out = next_out;
    taken = next_taken;
    found = next_found;
    out
}

/// Whether a flag is given.
pub open spec fn mentions_spec(argv: Seq<Seq<char>>, name: Seq<char>) -> bool {
    argv.contains(name)
}

/// Whether a flag is given.
pub fn mentions(argv: &Vec<String>, name: &str) -> (r: bool)
    ensures
        r == mentions_spec(argv.deep_view(), name@),
{
    list::holds(argv, name)
}

/// Among the first `n` words.
pub open spec fn find_config_spec(
    xs: Seq<Seq<char>>,
    out: Option<Seq<char>>,
    n: nat,
) -> Option<Seq<char>> {
    match out {
        Some(v) => Some(v),
        None => list::first_given(
            xs,
            |w: Seq<char>| match keys::cut_at_spec(w, '=') {
                Some(kv) => if kv.0 == "--config"@ {
                    Some(kv.1)
                } else {
                    None
                },
                None => None,
            },
            n,
        ),
    }
}

fn find_config(xs: &Vec<String>, out: Option<String>) -> (r: Option<String>)
    ensures
        r.deep_view() == find_config_spec(xs.deep_view(), out.deep_view(), xs@.len()),
{
    let ghost out0 = out.deep_view();
    let mut out = out;
    let mut i: usize = 0;
    while i < xs.len()
        invariant
            i <= xs@.len(),
            out.deep_view() == find_config_spec(xs.deep_view(), out0, i as nat),
        decreases xs@.len() - i,
    {
        let w = xs[i].as_str();
        if out.is_none() {
            match keys::cut_at(w, '=') {
                Some(kv) => {
                    if text::same(kv.0.as_str(), "--config") {
                        out = Some(text::owned(kv.1.as_str()));
                    }
                },
                None => {},
            }
        }
        assert(xs.deep_view()[i as int] == xs@[i as int].deep_view());
        assert(out.deep_view() == find_config_spec(xs.deep_view(), out0, (i + 1) as nat));
        i = i + 1;
    }
    out
}

/// The configuration given as `--config=FILE`.
pub open spec fn config_equals_spec(argv: Seq<Seq<char>>) -> Option<Seq<char>> {
    let out: Option<Seq<char>> = None;
    find_config_spec(argv, out, argv.len())
}

fn config_equals(argv: &Vec<String>) -> (r: Option<String>)
    ensures
        r.deep_view() == config_equals_spec(argv.deep_view()),
{
    let mut out: Option<String> = None;
    out = find_config(argv, out);
    out
}

/// The run's configuration: `--config FILE`, else the environment's, else the default.
pub open spec fn run_config_path_spec(
    argv: Seq<Seq<char>>,
    env: Option<Seq<char>>,
    config: Seq<char>,
) -> Seq<char> {
    match flag_value_spec(argv, "--config"@) {
        Some(p) => p,
        None => match config_equals_spec(argv) {
            Some(p) => p,
            None => match nonblank_spec(env) {
                Some(p) => p,
                None => crate::dashboard::path_join_spec(config, "run.yaml"@),
            },
        },
    }
}

/// The run's configuration: `--config FILE`, else the environment's, else the default.
pub fn run_config_path(argv: &Vec<String>, env: Option<&str>, config: &str) -> (r: String)
    ensures
        r@ == run_config_path_spec(argv.deep_view(), env.deep_view(), config@),
{
    match flag_value(argv, "--config") {
        Some(p) => p,
        None => match config_equals(argv) {
            Some(p) => p,
            None => match nonblank(env) {
                Some(p) => p,
                None => crate::dashboard::path_join(config, "run.yaml"),
            },
        },
    }
}

/// Whether the word behind a flag belongs to it.
pub open spec fn is_valued_spec(w: Seq<char>) -> bool {
    w == "--config"@ || w == "--only"@ || w == "--days"@ || w == "--horizons"@
}

fn is_valued(w: &str) -> (r: bool)
    ensures
        r == is_valued_spec(w@),
{
    text::same(w, "--config")
        || text::same(w, "--only")
        || text::same(w, "--days")
        || text::same(w, "--horizons")
}

/// Of the first `n` words.
pub open spec fn add_positional_spec(
    xs: Seq<Seq<char>>,
    skip: bool,
    out: Seq<Seq<char>>,
    n: nat,
) -> (bool, Seq<Seq<char>>)
    decreases n,
{
    if n == 0 {
        (skip, out)
    } else {
        let (skip, out) = add_positional_spec(xs, skip, out, (n - 1) as nat);
        let w = xs[n - 1];
        let k = (n - 1) as usize;
        if k > 0 {
            if skip {
                (false, out)
            } else if is_valued_spec(w) {
                (true, out)
            } else {
                let out = if !text::begins(w, "--"@) {
                    out.push(w)
                } else {
                    out
                };
                (skip, out)
            }
        } else {
            (skip, out)
        }
    }
}

fn add_positional(xs: &Vec<String>, skip: bool, out: Vec<String>) -> (r: (bool, Vec<String>))
    ensures
        r.deep_view() == add_positional_spec(xs.deep_view(), skip, out.deep_view(), xs@.len()),
{
    let ghost skip0 = skip;
    let ghost out0 = out.deep_view();
    let mut skip = skip;
    let mut out = out;
    let mut i: usize = 0;
    while i < xs.len()
        invariant
            i <= xs@.len(),
            (skip, out.deep_view()) == add_positional_spec(xs.deep_view(), skip0, out0, i as nat),
        decreases xs@.len() - i,
    {
        let w = xs[i].as_str();
        let k: usize = i;
        if k > 0 {
            if skip {
                skip = false;
            } else if is_valued(w) {
                skip = true;
            } else if !text::begins_with(w, "--") {
                list::push(&mut out, text::owned(w));
            }
        }
        i = i + 1;
    }
    (skip, out)
}

/// The words behind the command, flags and their values left out.
pub open spec fn positionals_spec(argv: Seq<Seq<char>>) -> Seq<Seq<char>> {
    let out = Seq::<Seq<char>>::empty();
    let skip = false;
    let (skip, out) = add_positional_spec(argv, skip, out, argv.len());
    out
}

/// The words behind the command, flags and their values left out.
pub fn positionals(argv: &Vec<String>) -> (r: Vec<String>)
    ensures
        r.deep_view() == positionals_spec(argv.deep_view()),
{
    let mut out: Vec<String> = list::none();
    let mut skip = false;
    let (next_skip, next_out) = add_positional(argv, skip, out);
    skip = next_skip;
    out = next_out;
    out
}

/// The first `n` of them.
pub open spec fn add_part_spec(xs: Seq<Seq<char>>, out: Seq<Seq<char>>, n: nat) -> Seq<Seq<char>> {
    out + Seq::new(
        n,
        |i: int| {
            let p = xs[i];
            text::trim(p)
        },
    )
}

fn add_part(xs: &Vec<String>, out: Vec<String>) -> (r: Vec<String>)
    ensures
        r.deep_view() == add_part_spec(xs.deep_view(), out.deep_view(), xs@.len()),
{
    let ghost out0 = out.deep_view();
    let mut out = out;
    let mut i: usize = 0;
    while i < xs.len()
        invariant
            i <= xs@.len(),
            out.deep_view() == add_part_spec(xs.deep_view(), out0, i as nat),
        decreases xs@.len() - i,
    {
        let p = xs[i].as_str();
        list::push(&mut out, text::trimmed(p));
        assert(out.deep_view() =~= add_part_spec(xs.deep_view(), out0, (i + 1) as nat));
        i = i + 1;
    }
    out
}

/// The parts of a list, without the spaces around them.
pub open spec fn trimmed_parts_spec(s: Seq<char>) -> Seq<Seq<char>> {
    add_part_spec(text::split(s, ','), Seq::<Seq<char>>::empty(), text::split(s, ',').len())
}

fn trimmed_parts(s: &str) -> (r: Vec<String>)
    ensures
        r.deep_view() == trimmed_parts_spec(s@),
{
    let mut out: Vec<String> = list::none();
    out = add_part(&list::split(s, ','), out);
    out
}

/// Which parts of a dashboard cycle are asked for.
pub open spec fn parts_of_spec(argv: Seq<Seq<char>>) -> Parts {
    let p = Parts { data: true, scenarios: true, wallets: true, deploy: true };
    let p = match flag_value_spec(argv, "--only"@) {
        Some(only) => {
            let want = trimmed_parts_spec(only);
            Parts {
                data: want.contains("data"@),
                scenarios: want.contains("scenarios"@),
                wallets: want.contains("wallets"@),
                deploy: true,
            }
        },
        None => p,
    };
    if mentions_spec(argv, "--no-deploy"@) {
        Parts { deploy: false, ..p }
    } else {
        p
    }
}

/// Which parts of a dashboard cycle are asked for.
pub fn parts_of(argv: &Vec<String>) -> (r: Parts)
    ensures
        r == parts_of_spec(argv.deep_view()),
{
    let mut p = Parts { data: true, scenarios: true, wallets: true, deploy: true };
    match flag_value(argv, "--only") {
        Some(only) => {
            let want = trimmed_parts(only.as_str());
            p = Parts {
                data: list::holds(&want, "data"),
                scenarios: list::holds(&want, "scenarios"),
                wallets: list::holds(&want, "wallets"),
                deploy: true,
            };
        },
        None => {},
    }
    if mentions(argv, "--no-deploy") {
        p.deploy = false;
    }
    p
}

/// One order the plan implies, before the rails see it.
#[derive(Debug)]
pub struct Planned {
    pub sym: String,
    pub pair: String,
    pub side: Side,
    pub rung: i64,
    pub price: Double,
    pub quote: Double,
    pub kind: String,
}

/// What a [`Planned`] holds.
pub struct PlannedView {
    pub sym: Seq<char>,
    pub pair: Seq<char>,
    pub side: Side,
    pub rung: i64,
    pub price: Double,
    pub quote: Double,
    pub kind: Seq<char>,
}

impl DeepView for Planned {
    type V = PlannedView;

    open spec fn deep_view(&self) -> PlannedView {
        PlannedView {
            sym: self.sym@,
            pair: self.pair@,
            side: self.side,
            rung: self.rung,
            price: self.price,
            quote: self.quote,
            kind: self.kind@,
        }
    }
}

impl Duplicate for Planned {
    fn dup(&self) -> (r: Planned) {
        Planned {
            sym: text::owned(self.sym.as_str()),
            pair: text::owned(self.pair.as_str()),
            side: self.side,
            rung: self.rung,
            price: self.price,
            quote: self.quote,
            kind: text::owned(self.kind.as_str()),
        }
    }
}

/// Of the first `n` parts.
pub open spec fn add_pair_spec(
    xs: Seq<Seq<char>>,
    out: Seq<(Seq<char>, Seq<char>)>,
    n: nat,
) -> Seq<(Seq<char>, Seq<char>)> {
    out + list::gathered(
        xs,
        |p: Seq<char>| match keys::cut_at_spec(p, '=') {
            Some(kv) => Some((text::upper_case(text::trim(kv.0)), text::trim(kv.1))),
            None => None,
        },
        n,
    )
}

fn add_pair(xs: &Vec<String>, out: Vec<(String, String)>) -> (r: Vec<(String, String)>)
    ensures
        r.deep_view() == add_pair_spec(xs.deep_view(), out.deep_view(), xs@.len()),
{
    let ghost out0 = out.deep_view();
    let mut out = out;
    let mut i: usize = 0;
    while i < xs.len()
        invariant
            i <= xs@.len(),
            out.deep_view() == add_pair_spec(xs.deep_view(), out0, i as nat),
        decreases xs@.len() - i,
    {
        let p = xs[i].as_str();
        match keys::cut_at(p, '=') {
            Some(kv) => {
                list::push(
                    &mut out,
                    (
                        text::uppercase(text::trimmed(kv.0.as_str()).as_str()),
                        text::trimmed(kv.1.as_str()),
                    ),
                );
            },
            None => {},
        }
        assert(out.deep_view() =~= add_pair_spec(xs.deep_view(), out0, (i + 1) as nat));
        i = i + 1;
    }
    out
}

/// Which pair each symbol trades as: `SYM=PAIR,...`, the symbols in capitals.
pub open spec fn parse_pair_map_spec(s: Option<Seq<char>>) -> Seq<(Seq<char>, Seq<char>)> {
    add_pair_spec(
        text::split(
            match s {
                Some(v) => v,
                None => ""@,
            },
            ',',
        ),
        Seq::<(Seq<char>, Seq<char>)>::empty(),
        text::split(
            match s {
                Some(v) => v,
                None => ""@,
            },
            ',',
        ).len(),
    )
}

/// Which pair each symbol trades as: `SYM=PAIR,...`, the symbols in capitals.
pub fn parse_pair_map(s: Option<&str>) -> (r: Vec<(String, String)>)
    ensures
        r.deep_view() == parse_pair_map_spec(s.deep_view()),
{
    let mut out: Vec<(String, String)> = list::none();
    out = add_pair(
        &list::split(
            match s {
                Some(v) => v,
                None => "",
            },
            ',',
        ),
        out,
    );
    out
}

/// Among the first `n` of them.
pub open spec fn find_pair_spec(
    sym: Seq<char>,
    xs: Seq<(Seq<char>, Seq<char>)>,
    out: Option<Seq<char>>,
    n: nat,
) -> Option<Seq<char>> {
    match list::last_given(
        xs,
        |it: (Seq<char>, Seq<char>)| {
            let k = it.0;
            let v = it.1;
            if k == sym {
                Some(v)
            } else {
                None
            }
        },
        n,
    ) {
        Some(v) => Some(v),
        None => out,
    }
}

fn find_pair(sym: &str, xs: &Vec<(String, String)>, out: Option<String>) -> (r: Option<String>)
    ensures
        r.deep_view() == find_pair_spec(sym@, xs.deep_view(), out.deep_view(), xs@.len()),
{
    let ghost out0 = out.deep_view();
    let mut out = out;
    let mut i: usize = 0;
    while i < xs.len()
        invariant
            i <= xs@.len(),
            out.deep_view() == find_pair_spec(sym@, xs.deep_view(), out0, i as nat),
        decreases xs@.len() - i,
    {
        let it = &xs[i];
        let k = it.0.as_str();
        let v = it.1.as_str();
        if text::same(k, sym) {
            out = Some(text::owned(v));
        }
        assert(xs.deep_view()[i as int] == xs@[i as int].deep_view());
        assert(out.deep_view() == find_pair_spec(sym@, xs.deep_view(), out0, (i + 1) as nat));
        i = i + 1;
    }
    out
}

/// The pair a symbol trades as; the last one given counts.
pub open spec fn pair_for_spec(
    map: Seq<(Seq<char>, Seq<char>)>,
    sym: Seq<char>,
) -> Option<Seq<char>> {
    let out: Option<Seq<char>> = None;
    find_pair_spec(sym, map, out, map.len())
}

/// The pair a symbol trades as; the last one given counts.
pub fn pair_for(map: &Vec<(String, String)>, sym: &str) -> (r: Option<String>)
    ensures
        r.deep_view() == pair_for_spec(map.deep_view(), sym@),
{
    let mut out: Option<String> = None;
    out = find_pair(sym, map, out);
    out
}

/// The order that an entry of a plan implies.
pub open spec fn planned_order_spec(
    t: Doc,
    key: Seq<char>,
    side: Side,
    kind: Seq<char>,
    map: Seq<(Seq<char>, Seq<char>)>,
    budget: Double,
) -> Result<PlannedView, Seq<char>> {
    match t.get_or_null("sym"@).as_text() {
        Some(sym) => match pair_for_spec(map, sym) {
            Some(pair) => Ok(
                PlannedView {
                    sym,
                    pair,
                    side,
                    rung: match t.get_or_null("rung"@).as_int() {
                        Some(v) => v,
                        None => 0,
                    },
                    price: match t.get_or_null("price"@).num() {
                        Some(v) => v,
                        None => Double::zero_spec(),
                    },
                    quote: budget.mul_spec(
                        match t.get_or_null("pct"@).num() {
                            Some(v) => v,
                            None => Double::zero_spec(),
                        },
                    ).div_spec(
                        Double::int_spec(100),
                    ),
                    kind,
                },
            ),
            None => Err("no pair for "@ + sym + "; pass --pair-map "@ + sym + "=<PAIR>"@),
        },
        None => Err("a "@ + key + " entry has no sym"@),
    }
}

fn planned_order(
    t: &Json,
    key: &str,
    side: Side,
    kind: &str,
    map: &Vec<(String, String)>,
    budget: Double,
) -> (r: Result<Planned, String>)
    ensures
        list::outcome(r) == planned_order_spec(t@, key@, side, kind@, map.deep_view(), budget),
{
    match t.get_copy("sym").as_str() {
        Some(sym) => match pair_for(map, sym) {
            Some(pair) => Ok(
                Planned {
                    sym: text::owned(sym),
                    pair,
                    side,
                    rung: match t.get_copy("rung").as_int() {
                        Some(v) => v,
                        None => 0,
                    },
                    price: match t.get_copy("price").num() {
                        Some(v) => v,
                        None => Double::zero(),
                    },
                    quote: budget.times(
                        match t.get_copy("pct").num() {
                            Some(v) => v,
                            None => Double::zero(),
                        },
                    ).over(
                        Double::of_int(100),
                    ),
                    kind: text::owned(kind),
                },
            ),
            None => {
                let mut line = text::owned("no pair for ");
                line.push_str(sym);
                line.push_str("; pass --pair-map ");
                line.push_str(sym);
                line.push_str("=<PAIR>");
                Err(line)
            },
        },
        None => {
            let mut line2 = text::owned("a ");
            line2.push_str(key);
            line2.push_str(" entry has no sym");
            Err(line2)
        },
    }
}

/// The first `n` of them.
pub open spec fn add_planned_spec(
    budget: Double,
    key: Seq<char>,
    kind: Seq<char>,
    map: Seq<(Seq<char>, Seq<char>)>,
    side: Side,
    xs: Seq<Doc>,
    out: Seq<PlannedView>,
    fault: Option<Seq<char>>,
    n: nat,
) -> (Seq<PlannedView>, Option<Seq<char>>)
    decreases n,
{
    if n == 0 {
        (out, fault)
    } else {
        let (out, fault) = add_planned_spec(
            budget,
            key,
            kind,
            map,
            side,
            xs,
            out,
            fault,
            (n - 1) as nat,
        );
        let t = xs[n - 1];
        if fault is None {
            match planned_order_spec(t, key, side, kind, map, budget) {
                Ok(p) => (out.push(p), fault),
                Err(e) => (out, Some(e)),
            }
        } else {
            (out, fault)
        }
    }
}

fn add_planned(
    budget: Double,
    key: &str,
    kind: &str,
    map: &Vec<(String, String)>,
    side: Side,
    xs: &Vec<Json>,
    out: Vec<Planned>,
    fault: Option<String>,
) -> (r: (Vec<Planned>, Option<String>))
    ensures
        r.deep_view() == add_planned_spec(
            budget,
            key@,
            kind@,
            map.deep_view(),
            side,
            xs.deep_view(),
            out.deep_view(),
            fault.deep_view(),
            xs@.len(),
        ),
{
    let ghost out0 = out.deep_view();
    let ghost fault0 = fault.deep_view();
    let mut out = out;
    let mut fault = fault;
    let mut i: usize = 0;
    while i < xs.len()
        invariant
            i <= xs@.len(),
            (out.deep_view(), fault.deep_view()) == add_planned_spec(
                budget,
                key@,
                kind@,
                map.deep_view(),
                side,
                xs.deep_view(),
                out0,
                fault0,
                i as nat,
            ),
        decreases xs@.len() - i,
    {
        let t = &xs[i];
        if fault.is_none() {
            match planned_order(t, key, side, kind, map, budget) {
                Ok(p) => {
                    list::push(&mut out, p);
                },
                Err(e) => {
                    fault = Some(e);
                },
            }
        }
        i = i + 1;
    }
    (out, fault)
}

/// The orders of one side of a plan.
pub open spec fn planned_side_spec(
    plan: Doc,
    key: Seq<char>,
    side: Side,
    kind: Seq<char>,
    map: Seq<(Seq<char>, Seq<char>)>,
    budget: Double,
) -> Result<Seq<PlannedView>, Seq<char>> {
    let out = Seq::<PlannedView>::empty();
    let fault: Option<Seq<char>> = None;
    let (out, fault) = add_planned_spec(
        budget,
        key,
        kind,
        map,
        side,
        plan.get_or_null(key).items(),
        out,
        fault,
        plan.get_or_null(key).items().len(),
    );
    match fault {
        Some(e) => Err(e),
        None => Ok(out),
    }
}

fn planned_side(
    plan: &Json,
    key: &str,
    side: Side,
    kind: &str,
    map: &Vec<(String, String)>,
    budget: Double,
) -> (r: Result<Vec<Planned>, String>)
    ensures
        list::outcome(r) == planned_side_spec(plan@, key@, side, kind@, map.deep_view(), budget),
{
    let mut out: Vec<Planned> = list::none();
    let mut fault: Option<String> = None;
    let (next_out, next_fault) = add_planned(
        budget,
        key,
        kind,
        map,
        side,
        &json::items(&plan.get_copy(key)),
        out,
        fault,
    );
    out = next_out;
    fault = next_fault;
    match fault {
        Some(e) => Err(e),
        None => Ok(out),
    }
}

/// Turn a plan into concrete orders. The ladder speaks in percentages because it does not know your
/// balances; the budget says what they are of.
pub open spec fn planned_orders_spec(
    plan: Doc,
    map: Seq<(Seq<char>, Seq<char>)>,
    budget: Double,
) -> Result<Seq<PlannedView>, Seq<char>> {
    match planned_side_spec(plan, "buys"@, Side::Buy, "ladder_buy"@, map, budget) {
        Ok(buys) => match planned_side_spec(
            plan,
            "sells"@,
            Side::Sell,
            "ladder_sell"@,
            map,
            budget,
        ) {
            Ok(sells) => {
                let buys = buys + sells;
                Ok(buys)
            },
            Err(e) => Err(e),
        },
        Err(e) => Err(e),
    }
}

/// Turn a plan into concrete orders. The ladder speaks in percentages because it does not know your
/// balances; the budget says what they are of.
pub fn planned_orders(
    plan: &Json,
    map: &Vec<(String, String)>,
    budget: Double,
) -> (r: Result<Vec<Planned>, String>)
    ensures
        list::outcome(r) == planned_orders_spec(plan@, map.deep_view(), budget),
{
    let mut buys = match planned_side(plan, "buys", Side::Buy, "ladder_buy", map, budget) {
        Ok(v) => v,
        Err(e) => {
            return Err(e);
        },
    };
    let sells = match planned_side(plan, "sells", Side::Sell, "ladder_sell", map, budget) {
        Ok(v) => v,
        Err(e) => {
            return Err(e);
        },
    };
    buys = list::joined(buys, sells);
    Ok(buys)
}

/// The venue that is asked for.
pub open spec fn venue_name_spec(a: ArgsView) -> Result<Seq<char>, Seq<char>> {
    let v = match flag_of_spec(a, "venue"@) {
        Some(v) => v,
        None => "gate"@,
    };
    if clients::venues_spec().contains(v) {
        Ok(v)
    } else {
        Err(
            "--venue "@
                + text::debug_form(v)
                + ": expected one of "@
                + text::join_of(clients::venues_spec(), ", "@),
        )
    }
}

/// The venue that is asked for.
pub fn venue_name(a: &Args) -> (r: Result<String, String>)
    ensures
        list::outcome(r) == venue_name_spec(a.deep_view()),
{
    let v = match flag_of(a, "venue") {
        Some(v) => v,
        None => text::owned("gate"),
    };
    if list::holds(&clients::venues(), v.as_str()) {
        return Ok(v);
    }
    let mut line = text::owned("--venue ");
    line.push_str(text::debug_text(v.as_str()).as_str());
    line.push_str(": expected one of ");
    line.push_str(list::join(&clients::venues(), ", ").as_str());
    Err(line)
}

/// The caps that are asked for.
pub open spec fn caps_from_spec(a: ArgsView) -> Result<Caps, Seq<char>> {
    let d = default_caps_spec();
    match number_flag_spec(a, "max-order"@, d.max_order_quote) {
        Ok(order) => match number_flag_spec(a, "max-daily"@, d.max_daily_notional) {
            Ok(daily) => match number_flag_spec(
                a,
                "max-orders"@,
                Double::int_spec(d.max_daily_orders as int),
            ) {
                Ok(count) => match number_flag_spec(a, "max-slippage"@, d.max_slippage_pct) {
                    Ok(slip) => Ok(
                        Caps {
                            max_order_quote: order,
                            max_daily_notional: daily,
                            max_daily_orders: count.cast_spec(0, usize::MAX as int) as usize,
                            max_slippage_pct: slip,
                            min_order_quote: d.min_order_quote,
                        },
                    ),
                    Err(e) => Err(e),
                },
                Err(e) => Err(e),
            },
            Err(e) => Err(e),
        },
        Err(e) => Err(e),
    }
}

/// The caps that are asked for.
pub fn caps_from(a: &Args) -> (r: Result<Caps, String>)
    ensures
        list::outcome(r) == caps_from_spec(a.deep_view()),
{
    let d = default_caps();
    let order = match number_flag(a, "max-order", d.max_order_quote) {
        Ok(v) => v,
        Err(e) => {
            return Err(e);
        },
    };
    let daily = match number_flag(a, "max-daily", d.max_daily_notional) {
        Ok(v) => v,
        Err(e) => {
            return Err(e);
        },
    };
    let count = match number_flag(a, "max-orders", Double::of_count(d.max_daily_orders)) {
        Ok(v) => v,
        Err(e) => {
            return Err(e);
        },
    };
    let slip = match number_flag(a, "max-slippage", d.max_slippage_pct) {
        Ok(v) => v,
        Err(e) => {
            return Err(e);
        },
    };
    Ok(
        Caps {
            max_order_quote: order,
            max_daily_notional: daily,
            max_daily_orders: to_size(count),
            max_slippage_pct: slip,
            min_order_quote: d.min_order_quote,
        },
    )
}

/// The orders of a plan, the caps, and the budget.
#[derive(Debug)]
pub struct Prepared {
    pub orders: Vec<Planned>,
    pub caps: Caps,
    pub budget: Double,
}

/// What a [`Prepared`] holds.
pub struct PreparedView {
    pub orders: Seq<PlannedView>,
    pub caps: Caps,
    pub budget: Double,
}

impl DeepView for Prepared {
    type V = PreparedView;

    open spec fn deep_view(&self) -> PreparedView {
        PreparedView {
            orders: self.orders.deep_view(),
            caps: self.caps,
            budget: self.budget,
        }
    }
}

/// The plan that is asked for.
pub open spec fn plan_path_spec(a: ArgsView) -> Result<Seq<char>, Seq<char>> {
    match flag_of_spec(a, "from"@) {
        Some(p) => Ok(p),
        None => Err("--from is required: rungbot plan --json > plan.json"@),
    }
}

/// The plan that is asked for.
pub fn plan_path(a: &Args) -> (r: Result<String, String>)
    ensures
        list::outcome(r) == plan_path_spec(a.deep_view()),
{
    match flag_of(a, "from") {
        Some(p) => Ok(p),
        None => Err(text::owned("--from is required: rungbot plan --json > plan.json")),
    }
}

/// The orders, the caps and the budget that a plan and the flags come to.
pub open spec fn prepare_spec(a: ArgsView, plan: Doc) -> Result<PreparedView, Seq<char>> {
    match number_flag_spec(a, "budget"@, Double::zero_spec()) {
        Ok(budget) => if budget.le_spec(Double::zero_spec()) {
            Err(
                "--budget is required: the ladder sizes in percent, so it cannot know how much a percent is worth without you saying"@,
            )
        } else {
            match planned_orders_spec(
                plan,
                parse_pair_map_spec(flag_of_spec(a, "pair-map"@)),
                budget,
            ) {
                Ok(orders) => match caps_from_spec(a) {
                    Ok(caps) => Ok(PreparedView { orders, caps, budget }),
                    Err(e) => Err(e),
                },
                Err(e) => Err(e),
            }
        },
        Err(e) => Err(e),
    }
}

/// The orders, the caps and the budget that a plan and the flags come to.
pub fn prepare(a: &Args, plan: &Json) -> (r: Result<Prepared, String>)
    ensures
        list::outcome(r) == prepare_spec(a.deep_view(), plan@),
{
    let budget = match number_flag(a, "budget", Double::zero()) {
        Ok(v) => v,
        Err(e) => {
            return Err(e);
        },
    };
    if budget.le(Double::zero()) {
        return Err(
            text::owned(
                "--budget is required: the ladder sizes in percent, so it cannot know how much a percent is worth without you saying",
            ),
        );
    }
    let orders = match planned_orders(
        plan,
        &parse_pair_map(list::text_ref(&flag_of(a, "pair-map"))),
        budget,
    ) {
        Ok(v) => v,
        Err(e) => {
            return Err(e);
        },
    };
    let caps = match caps_from(a) {
        Ok(v) => v,
        Err(e) => {
            return Err(e);
        },
    };
    Ok(Prepared { orders, caps, budget })
}

/// The journal id of a planned order: the same for the same order in one window, and in the shape every
/// venue accepts.
pub open spec fn planned_cid_spec(p: PlannedView, now: Double) -> Seq<char> {
    journal::safe_cid_or_spec(journal::client_id_spec(p.sym, p.side, now, p.rung))
}

/// The journal id of a planned order: the same for the same order in one window, and in the shape every
/// venue accepts.
pub fn planned_cid(p: &Planned, now: Double) -> (r: String)
    ensures
        r@ == planned_cid_spec(p.deep_view(), now),
{
    journal::safe_cid_or(journal::client_id(p.sym.as_str(), p.side, now, p.rung).as_str())
}

/// The first line of a preview.
pub open spec fn plan_head_spec(p: PreparedView) -> Seq<char> {
    "budget "@
        + pyfmt::fixed_spec(p.budget, 2)
        + " · per-order cap "@
        + pyfmt::fixed_spec(p.caps.max_order_quote, 2)
        + " · daily cap "@
        + pyfmt::fixed_spec(p.caps.max_daily_notional, 2)
        + " / "@
        + text::dec(p.caps.max_daily_orders as nat)
        + " orders"@
}

/// The first line of a preview.
pub fn plan_head(p: &Prepared) -> (r: String)
    ensures
        r@ == plan_head_spec(p.deep_view()),
{
    let mut line = text::owned("budget ");
    line.push_str(pyfmt::fixed(p.budget, 2).as_str());
    line.push_str(" · per-order cap ");
    line.push_str(pyfmt::fixed(p.caps.max_order_quote, 2).as_str());
    line.push_str(" · daily cap ");
    line.push_str(pyfmt::fixed(p.caps.max_daily_notional, 2).as_str());
    line.push_str(" / ");
    line.push_str(text::dec_u64(p.caps.max_daily_orders as u64).as_str());
    line.push_str(" orders");
    line
}

/// How much of the coin an order is for.
pub open spec fn base_of_spec(p: PlannedView) -> Double {
    if Double::zero_spec().lt_spec(p.price) {
        p.quote.div_spec(p.price)
    } else {
        Double::zero_spec()
    }
}

fn base_of(p: &Planned) -> (r: Double)
    ensures
        r == base_of_spec(p.deep_view()),
{
    if Double::zero().lt(p.price) {
        return p.quote.over(p.price);
    }
    Double::zero()
}

/// A side in capitals.
pub open spec fn side_word_spec(s: Side) -> Seq<char> {
    match s {
        Side::Buy => "BUY"@,
        Side::Sell => "SELL"@,
    }
}

fn side_word(s: Side) -> (r: String)
    ensures
        r@ == side_word_spec(s),
{
    match s {
        Side::Buy => text::owned("BUY"),
        Side::Sell => text::owned("SELL"),
    }
}

/// What would become of an order.
pub open spec fn plan_verdict_spec(
    p: PlannedView,
    journal: Seq<(Seq<char>, OrderView)>,
    caps: Caps,
    halted: bool,
    day_ago: Double,
    now: Double,
) -> Seq<char> {
    let counted = journal::counted_rows_spec(journal::rows_alone(journal), day_ago);
    match rails_spec(
        p.quote,
        p.price,
        halted,
        true,
        journal::notional_of_spec(counted),
        (counted.len() as usize),
        caps,
    ) {
        Some(r) => "REFUSED: "@ + guard::refusal_text(r),
        None => if journal::has_row_spec(journal, planned_cid_spec(p, now)) {
            "already placed (idempotent)"@
        } else {
            "would place"@
        },
    }
}

/// What would become of an order.
pub fn plan_verdict(
    p: &Planned,
    journal: &Journal,
    caps: Caps,
    halted: bool,
    day_ago: Double,
    now: Double,
) -> (r: String)
    ensures
        r@ == plan_verdict_spec(p.deep_view(), journal.deep_view(), caps, halted, day_ago, now),
{
    let counted = journal::counted_rows(&journal.rows(), day_ago);
    match rails(
        p.quote,
        p.price,
        halted,
        true,
        journal::notional_of(&counted),
        counted.len(),
        caps,
    ) {
        Some(r) => {
            let mut line = text::owned("REFUSED: ");
            line.push_str(r.text().as_str());
            line
        },
        None => {
            if journal::has_row(journal, planned_cid(p, now).as_str()) {
                return text::owned("already placed (idempotent)");
            }
            text::owned("would place")
        },
    }
}

/// A planned order as a preview shows it.
pub open spec fn plan_line_spec(
    p: PlannedView,
    journal: Seq<(Seq<char>, OrderView)>,
    caps: Caps,
    halted: bool,
    day_ago: Double,
    now: Double,
) -> Seq<char> {
    let amount = pyfmt::fixed_spec(base_of_spec(p), 6);
    let price = pyfmt::fixed_spec(p.price, 6);
    "  "@
        + crate::watch::pyfmt::ljust_spec(side_word_spec(p.side), 5)
        + " "@
        + crate::watch::pyfmt::ljust_spec(p.pair, 8)
        + " "@
        + crate::watch::pyfmt::rjust_spec(amount, 10)
        + " @ "@
        + crate::watch::pyfmt::rjust_spec(price, 12)
        + "  ≈ "@
        + pyfmt::fixed_spec(p.quote, 2)
        + "  "@
        + plan_verdict_spec(p, journal, caps, halted, day_ago, now)
}

/// A planned order as a preview shows it.
pub fn plan_line(
    p: &Planned,
    journal: &Journal,
    caps: Caps,
    halted: bool,
    day_ago: Double,
    now: Double,
) -> (r: String)
    ensures
        r@ == plan_line_spec(p.deep_view(), journal.deep_view(), caps, halted, day_ago, now),
{
    let amount = pyfmt::fixed(base_of(p), 6);
    let price = pyfmt::fixed(p.price, 6);
    let mut line = text::owned("  ");
    line.push_str(crate::watch::pyfmt::ljust(side_word(p.side).as_str(), 5).as_str());
    line.push_str(" ");
    line.push_str(crate::watch::pyfmt::ljust(p.pair.as_str(), 8).as_str());
    line.push_str(" ");
    line.push_str(crate::watch::pyfmt::rjust(amount.as_str(), 10).as_str());
    line.push_str(" @ ");
    line.push_str(crate::watch::pyfmt::rjust(price.as_str(), 12).as_str());
    line.push_str("  ≈ ");
    line.push_str(pyfmt::fixed(p.quote, 2).as_str());
    line.push_str("  ");
    line.push_str(plan_verdict(p, journal, caps, halted, day_ago, now).as_str());
    line
}

/// Why a rounded order is not one its venue takes.
pub open spec fn fit_spec(
    pair: Seq<char>,
    limits: Limits,
    amount: Double,
    price: Double,
) -> Option<Seq<char>> {
    if amount.le_spec(Double::zero_spec()) || price.le_spec(Double::zero_spec()) {
        Some(
            "rounded to "@
                + pyfmt::plain_spec(amount)
                + " @ "@
                + pyfmt::plain_spec(price)
                + ", which is not an order"@,
        )
    } else if amount.lt_spec(limits.min_base) {
        Some(
            pyfmt::plain_spec(amount)
                + " is below the venue minimum of "@
                + pyfmt::plain_spec(limits.min_base)
                + " on "@
                + pair,
        )
    } else if amount.mul_spec(price).lt_spec(limits.min_quote) {
        Some(
            pyfmt::fixed_spec(amount.mul_spec(price), 4)
                + " is below the venue's minimum order value of "@
                + pyfmt::plain_spec(limits.min_quote)
                + " on "@
                + pair,
        )
    } else {
        None
    }
}

/// Why a rounded order is not one its venue takes.
pub fn fit(pair: &str, limits: Limits, amount: Double, price: Double) -> (r: Option<String>)
    ensures
        r.deep_view() == fit_spec(pair@, limits, amount, price),
{
    if amount.le(Double::zero()) || price.le(Double::zero()) {
        let mut line = text::owned("rounded to ");
        line.push_str(pyfmt::plain(amount).as_str());
        line.push_str(" @ ");
        line.push_str(pyfmt::plain(price).as_str());
        line.push_str(", which is not an order");
        return Some(line);
    }
    if amount.lt(limits.min_base) {
        let mut line2 = pyfmt::plain(amount);
        line2.push_str(" is below the venue minimum of ");
        line2.push_str(pyfmt::plain(limits.min_base).as_str());
        line2.push_str(" on ");
        line2.push_str(pair);
        return Some(line2);
    }
    if amount.times(price).lt(limits.min_quote) {
        let mut line3 = pyfmt::fixed(amount.times(price), 4);
        line3.push_str(" is below the venue's minimum order value of ");
        line3.push_str(pyfmt::plain(limits.min_quote).as_str());
        line3.push_str(" on ");
        line3.push_str(pair);
        return Some(line3);
    }
    None
}

/// What a command needs to know or to have done next.
#[derive(Debug)]
pub enum Ask {
    /// The time.
    Now,
    /// Whether the halt file is there.
    Halted,
    /// The smallest order a venue takes of a pair.
    Limits(String),
    /// An amount in the precision of a pair.
    RoundAmount(String, Double),
    /// A price in the precision of a pair.
    RoundPrice(String, Double),
    /// Write the journal.
    Save(Journal),
    /// Send a limit order: side, pair, amount, price, client id.
    Place(Side, String, Double, Double, String),
    /// Cancel a venue order of a pair.
    Cancel(String, String),
    /// Read a cancelled order's final state once, and book what filled.
    Settle(Order),
}

/// What a [`Ask`] says.
#[allow(inconsistent_fields)]
pub enum AskView {
    Now,
    Halted,
    Limits(Seq<char>),
    RoundAmount(Seq<char>, Double),
    RoundPrice(Seq<char>, Double),
    Save(Seq<(Seq<char>, OrderView)>),
    Place(Side, Seq<char>, Double, Double, Seq<char>),
    Cancel(Seq<char>, Seq<char>),
    Settle(OrderView),
}

impl DeepView for Ask {
    type V = AskView;

    open spec fn deep_view(&self) -> AskView {
        match self {
            Ask::Now => AskView::Now,
            Ask::Halted => AskView::Halted,
            Ask::Limits(a) => AskView::Limits(a@),
            Ask::RoundAmount(a, b) => AskView::RoundAmount(a@, *b),
            Ask::RoundPrice(a, b) => AskView::RoundPrice(a@, *b),
            Ask::Save(a) => AskView::Save(a.deep_view()),
            Ask::Place(a, b, c, d, e) => AskView::Place(*a, b@, *c, *d, e@),
            Ask::Cancel(a, b) => AskView::Cancel(a@, b@),
            Ask::Settle(a) => AskView::Settle(a.deep_view()),
        }
    }
}

impl Duplicate for Ask {
    fn dup(&self) -> (r: Ask) {
        match self {
            Ask::Now => Ask::Now,
            Ask::Halted => Ask::Halted,
            Ask::Limits(a) => Ask::Limits(text::owned(a.as_str())),
            Ask::RoundAmount(a, b) => Ask::RoundAmount(text::owned(a.as_str()), *b),
            Ask::RoundPrice(a, b) => Ask::RoundPrice(text::owned(a.as_str()), *b),
            Ask::Save(a) => Ask::Save(a.dup()),
            Ask::Place(a, b, c, d, e) => Ask::Place(*a, text::owned(b.as_str()), *c, *d, text::owned(e.as_str())),
            Ask::Cancel(a, b) => Ask::Cancel(text::owned(a.as_str()), text::owned(b.as_str())),
            Ask::Settle(a) => Ask::Settle(a.dup()),
        }
    }
}

/// What a cancelled order came to.
#[derive(Debug)]
pub enum After {
    /// Something had filled, and is booked.
    Booked,
    /// Its final state could not be read, and why.
    Unreadable(String),
    /// Nothing had filled.
    Plain,
}

/// What a [`After`] says.
#[allow(inconsistent_fields)]
pub enum AfterView {
    Booked,
    Unreadable(Seq<char>),
    Plain,
}

impl DeepView for After {
    type V = AfterView;

    open spec fn deep_view(&self) -> AfterView {
        match self {
            After::Booked => AfterView::Booked,
            After::Unreadable(a) => AfterView::Unreadable(a@),
            After::Plain => AfterView::Plain,
        }
    }
}

impl Duplicate for After {
    fn dup(&self) -> (r: After) {
        match self {
            After::Booked => After::Booked,
            After::Unreadable(a) => After::Unreadable(text::owned(a.as_str())),
            After::Plain => After::Plain,
        }
    }
}

/// What came of an [`Ask`].
#[derive(Debug)]
pub enum Answer {
    /// It failed, and why.
    Failed(String),
    Done,
    Time(Double),
    Flag(bool),
    /// The smallest amount and the smallest value.
    Limits(Double, Double),
    Number(Double),
    /// The venue's id and status.
    Placed(String, String),
    /// The row as it is now, and what the order came to.
    Settled(Order, After),
}

/// What a [`Answer`] says.
#[allow(inconsistent_fields)]
pub enum AnswerView {
    Failed(Seq<char>),
    Done,
    Time(Double),
    Flag(bool),
    Limits(Double, Double),
    Number(Double),
    Placed(Seq<char>, Seq<char>),
    Settled(OrderView, AfterView),
}

impl DeepView for Answer {
    type V = AnswerView;

    open spec fn deep_view(&self) -> AnswerView {
        match self {
            Answer::Failed(a) => AnswerView::Failed(a@),
            Answer::Done => AnswerView::Done,
            Answer::Time(a) => AnswerView::Time(*a),
            Answer::Flag(a) => AnswerView::Flag(*a),
            Answer::Limits(a, b) => AnswerView::Limits(*a, *b),
            Answer::Number(a) => AnswerView::Number(*a),
            Answer::Placed(a, b) => AnswerView::Placed(a@, b@),
            Answer::Settled(a, b) => AnswerView::Settled(a.deep_view(), b.deep_view()),
        }
    }
}

impl Duplicate for Answer {
    fn dup(&self) -> (r: Answer) {
        match self {
            Answer::Failed(a) => Answer::Failed(text::owned(a.as_str())),
            Answer::Done => Answer::Done,
            Answer::Time(a) => Answer::Time(*a),
            Answer::Flag(a) => Answer::Flag(*a),
            Answer::Limits(a, b) => Answer::Limits(*a, *b),
            Answer::Number(a) => Answer::Number(*a),
            Answer::Placed(a, b) => Answer::Placed(text::owned(a.as_str()), text::owned(b.as_str())),
            Answer::Settled(a, b) => Answer::Settled(a.dup(), b.dup()),
        }
    }
}

/// A line that is printed, to the error stream where it says so.
#[derive(Debug)]
pub struct Line {
    pub err: bool,
    pub text: String,
}

/// What a [`Line`] holds.
pub struct LineView {
    pub err: bool,
    pub text: Seq<char>,
}

impl DeepView for Line {
    type V = LineView;

    open spec fn deep_view(&self) -> LineView {
        LineView {
            err: self.err,
            text: self.text@,
        }
    }
}

impl Duplicate for Line {
    fn dup(&self) -> (r: Line) {
        Line {
            err: self.err,
            text: text::owned(self.text.as_str()),
        }
    }
}

/// How far a command has come: the journal, what it printed, what it asks for next, or why it failed.
#[derive(Debug)]
pub struct Work {
    pub journal: Journal,
    pub lines: Vec<Line>,
    pub placed: Vec<String>,
    pub refused: Vec<String>,
    pub skipped: Vec<String>,
    pub stop: bool,
    /// How many answers were used.
    pub at: usize,
    pub ask: Option<Ask>,
    pub fault: Option<String>,
}

/// What a [`Work`] holds.
pub struct WorkView {
    pub journal: Seq<(Seq<char>, OrderView)>,
    pub lines: Seq<LineView>,
    pub placed: Seq<Seq<char>>,
    pub refused: Seq<Seq<char>>,
    pub skipped: Seq<Seq<char>>,
    pub stop: bool,
    pub at: usize,
    pub ask: Option<AskView>,
    pub fault: Option<Seq<char>>,
}

impl DeepView for Work {
    type V = WorkView;

    open spec fn deep_view(&self) -> WorkView {
        WorkView {
            journal: self.journal.deep_view(),
            lines: self.lines.deep_view(),
            placed: self.placed.deep_view(),
            refused: self.refused.deep_view(),
            skipped: self.skipped.deep_view(),
            stop: self.stop,
            at: self.at,
            ask: self.ask.deep_view(),
            fault: self.fault.deep_view(),
        }
    }
}

impl Duplicate for Work {
    fn dup(&self) -> (r: Work) {
        Work {
            journal: self.journal.dup(),
            lines: self.lines.dup(),
            placed: self.placed.dup(),
            refused: self.refused.dup(),
            skipped: self.skipped.dup(),
            stop: self.stop,
            at: self.at,
            ask: self.ask.dup(),
            fault: self.fault.dup(),
        }
    }
}

/// A command that has not begun.
pub open spec fn begun_spec(journal: Seq<(Seq<char>, OrderView)>) -> WorkView {
    WorkView {
        journal,
        lines: Seq::<LineView>::empty(),
        placed: Seq::<Seq<char>>::empty(),
        refused: Seq::<Seq<char>>::empty(),
        skipped: Seq::<Seq<char>>::empty(),
        stop: false,
        at: 0,
        ask: None,
        fault: None,
    }
}

/// A command that has not begun.
pub fn begun(journal: Journal) -> (r: Work)
    ensures
        r.deep_view() == begun_spec(journal.deep_view()),
{
    Work {
        journal,
        lines: list::none::<Line>(),
        placed: list::none::<String>(),
        refused: list::none::<String>(),
        skipped: list::none::<String>(),
        stop: false,
        at: 0,
        ask: None,
        fault: None,
    }
}

/// Whether a command goes no further for now: it waits for an answer, or failed.
pub open spec fn halted_work_spec(w: WorkView) -> bool {
    w.ask is Some || w.fault is Some
}

fn halted_work(w: &Work) -> (r: bool)
    ensures
        r == halted_work_spec(w.deep_view()),
{
    w.ask.is_some() || w.fault.is_some()
}

/// A command that waits for an answer.
pub open spec fn asking_spec(w: WorkView, a: AskView) -> WorkView {
    WorkView { ask: Some(a), ..w }
}

fn asking(w: Work, a: Ask) -> (r: Work)
    ensures
        r.deep_view() == asking_spec(w.deep_view(), a.deep_view()),
{
    let mut w = w;
    w.ask = Some(a);
    w
}

/// A command that failed.
pub open spec fn failing_spec(w: WorkView, why: Seq<char>) -> WorkView {
    WorkView { fault: Some(why), ..w }
}

fn failing(w: Work, why: &str) -> (r: Work)
    ensures
        r.deep_view() == failing_spec(w.deep_view(), why@),
{
    let mut w = w;
    w.fault = Some(text::owned(why));
    w
}

/// A command that printed a line.
pub open spec fn said_spec(w: WorkView, text_line: Seq<char>) -> WorkView {
    WorkView { lines: w.lines.push(LineView { err: false, text: text_line }), ..w }
}

fn said(w: Work, text_line: String) -> (r: Work)
    ensures
        r.deep_view() == said_spec(w.deep_view(), text_line@),
{
    let mut w = w;
    list::push(&mut w.lines, Line { err: false, text: text_line });
    w
}

/// A command that printed a line to the error stream.
pub open spec fn warned_spec(w: WorkView, text_line: Seq<char>) -> WorkView {
    WorkView { lines: w.lines.push(LineView { err: true, text: text_line }), ..w }
}

fn warned(w: Work, text_line: String) -> (r: Work)
    ensures
        r.deep_view() == warned_spec(w.deep_view(), text_line@),
{
    let mut w = w;
    list::push(&mut w.lines, Line { err: true, text: text_line });
    w
}

/// The next answer, where there is one; otherwise the command waits for it.
pub open spec fn asked_spec(
    w: WorkView,
    a: AskView,
    answers: Seq<AnswerView>,
) -> (WorkView, AnswerView) {
    match list::item(answers, w.at) {
        Some(x) => (WorkView { at: (w.at + 1) as usize, ..w }, x),
        None => (asking_spec(w, a), AnswerView::Done),
    }
}

fn asked(w: Work, a: Ask, answers: &Vec<Answer>) -> (r: (Work, Answer))
    ensures
        r.deep_view() == asked_spec(w.deep_view(), a.deep_view(), answers.deep_view()),
{
    let mut w = w;
    let x = match list::at(answers, w.at) {
        Some(v) => v,
        None => {
            return (asking(w, a), Answer::Done);
        },
    };
    w.at = (w.at + 1);
    (w, x.dup())
}

/// A number.
pub open spec fn number_of_spec(a: AnswerView) -> Result<Double, Seq<char>> {
    match a {
        AnswerView::Number(x) => Ok(x),
        AnswerView::Time(x) => Ok(x),
        AnswerView::Failed(e) => Err(e),
        _ => Err("answer out of turn"@),
    }
}

fn number_of(a: &Answer) -> (r: Result<Double, String>)
    ensures
        list::outcome(r) == number_of_spec(a.deep_view()),
{
    match a {
        Answer::Number(x) => Ok(*x),
        Answer::Time(x) => Ok(*x),
        Answer::Failed(e) => Err(text::owned(e.as_str())),
        _ => Err(text::owned("answer out of turn")),
    }
}

/// Whether something is so.
pub open spec fn flag_in_spec(a: AnswerView) -> Result<bool, Seq<char>> {
    match a {
        AnswerView::Flag(x) => Ok(x),
        AnswerView::Failed(e) => Err(e),
        _ => Err("answer out of turn"@),
    }
}

fn flag_in(a: &Answer) -> (r: Result<bool, String>)
    ensures
        list::outcome(r) == flag_in_spec(a.deep_view()),
{
    match a {
        Answer::Flag(x) => Ok(*x),
        Answer::Failed(e) => Err(text::owned(e.as_str())),
        _ => Err(text::owned("answer out of turn")),
    }
}

/// The smallest order.
pub open spec fn limits_in_spec(a: AnswerView) -> Result<Limits, Seq<char>> {
    match a {
        AnswerView::Limits(x, y) => Ok(Limits { min_base: x, min_quote: y }),
        AnswerView::Failed(e) => Err(e),
        _ => Err("answer out of turn"@),
    }
}

fn limits_in(a: &Answer) -> (r: Result<Limits, String>)
    ensures
        list::outcome(r) == limits_in_spec(a.deep_view()),
{
    match a {
        Answer::Limits(x, y) => Ok(Limits { min_base: *x, min_quote: *y }),
        Answer::Failed(e) => Err(text::owned(e.as_str())),
        _ => Err(text::owned("answer out of turn")),
    }
}

/// Write the journal.
pub open spec fn saved_spec(w: WorkView, answers: Seq<AnswerView>) -> WorkView {
    let copy = w.journal;
    let (w1, a) = asked_spec(w, AskView::Save(copy), answers);
    if halted_work_spec(w1) {
        w1
    } else {
        match a {
            AnswerView::Failed(e) => failing_spec(w1, e),
            _ => w1,
        }
    }
}

fn saved(w: Work, answers: &Vec<Answer>) -> (r: Work)
    ensures
        r.deep_view() == saved_spec(w.deep_view(), answers.deep_view()),
{
    let copy = w.journal.dup();
    let (w1, a) = asked(w, Ask::Save(copy), answers);
    if halted_work(&w1) {
        return w1;
    }
    match a {
        Answer::Failed(e) => failing(w1, e.as_str()),
        _ => w1,
    }
}

/// A side.
pub open spec fn side_name_spec(s: Side) -> Seq<char> {
    match s {
        Side::Buy => "buy"@,
        Side::Sell => "sell"@,
    }
}

fn side_name(s: Side) -> (r: String)
    ensures
        r@ == side_name_spec(s),
{
    match s {
        Side::Buy => text::owned("buy"),
        Side::Sell => text::owned("sell"),
    }
}

/// An order as it is journaled before it is sent.
pub open spec fn pending_row_spec(
    p: PlannedView,
    exch: Seq<char>,
    cid: Seq<char>,
    ts: Double,
) -> OrderView {
    let row = journal::blank_row_spec(cid);
    let row = OrderView { sym: p.sym, ..row };
    let row = OrderView { exch, ..row };
    let row = OrderView { pair: p.pair, ..row };
    let row = OrderView { side: side_name_spec(p.side), ..row };
    let row = OrderView { kind: p.kind, ..row };
    let row = OrderView { status: "pending"@, ..row };
    let row = OrderView { quote: Some(p.quote), ..row };
    let row = OrderView { price: Some(p.price), ..row };
    let row = OrderView { base: Some(base_of_spec(p)), ..row };
    let row = OrderView { rung: Some(p.rung), ..row };
    OrderView { ts: Some(ts), ..row }
}

/// An order as it is journaled before it is sent.
pub fn pending_row(p: &Planned, exch: &str, cid: &str, ts: Double) -> (r: Order)
    ensures
        r.deep_view() == pending_row_spec(p.deep_view(), exch@, cid@, ts),
{
    let mut row = Order::new(cid);
    row.sym = text::owned(p.sym.as_str());
    row.exch = text::owned(exch);
    row.pair = text::owned(p.pair.as_str());
    row.side = side_name(p.side);
    row.kind = text::owned(p.kind.as_str());
    row.status = text::owned("pending");
    row.quote = Some(p.quote);
    row.price = Some(p.price);
    row.base = Some(base_of(p));
    row.rung = Some(p.rung);
    row.ts = Some(ts);
    row
}

/// A row whose order rests at the venue.
pub open spec fn with_status_spec(
    row: OrderView,
    order_id: Seq<char>,
    status: Seq<char>,
) -> OrderView {
    let row = OrderView { status, ..row };
    let row = if status == ""@ {
        OrderView { status: "open"@, ..row }
    } else {
        row
    };
    OrderView { order_id: Some(order_id), ..row }
}

fn with_status(row: Order, order_id: &str, status: &str) -> (r: Order)
    ensures
        r.deep_view() == with_status_spec(row.deep_view(), order_id@, status@),
{
    let mut row = row;
    row.status = text::owned(status);
    if text::same(status, "") {
        row.status = text::owned("open");
    }
    row.order_id = Some(text::owned(order_id));
    row
}

/// A row whose order could not be placed.
pub open spec fn with_failure_spec(row: OrderView, why: Seq<char>) -> OrderView {
    let row = OrderView { status: "error"@, ..row };
    OrderView { last_error: Some(why), ..row }
}

fn with_failure(row: Order, why: &str) -> (r: Order)
    ensures
        r.deep_view() == with_failure_spec(row.deep_view(), why@),
{
    let mut row = row;
    row.status = text::owned("error");
    row.last_error = Some(text::owned(why));
    row
}

/// Note what the venue said of an order.
pub open spec fn sent_back_spec(
    w: WorkView,
    p: PlannedView,
    row: OrderView,
    a: AnswerView,
) -> WorkView {
    match a {
        AnswerView::Placed(id, status) => {
            let w = WorkView { placed: w.placed.push(row.client_id), ..w };
            let w1 = said_spec(w, "  "@ + p.sym + " "@ + row.client_id + " placed as "@ + id);
            WorkView {
                journal: journal::change_row_spec(w1.journal, with_status_spec(row, id, status)),
                ..w1
            }
        },
        AnswerView::Failed(e) => {
            let w = WorkView { refused: w.refused.push(p.sym), ..w };
            let w1 = warned_spec(w, "  "@ + p.sym + " "@ + row.client_id + " FAILED: "@ + e);
            WorkView {
                journal: journal::change_row_spec(w1.journal, with_failure_spec(row, e)),
                ..w1
            }
        },
        _ => failing_spec(w, "answer out of turn"@),
    }
}

fn sent_back(w: Work, p: &Planned, row: Order, a: &Answer) -> (r: Work)
    ensures
        r.deep_view() == sent_back_spec(
            w.deep_view(),
            p.deep_view(),
            row.deep_view(),
            a.deep_view(),
        ),
{
    let mut w = w;
    match a {
        Answer::Placed(id, status) => {
            list::push(&mut w.placed, text::owned(row.client_id.as_str()));
            let mut line = text::owned("  ");
            line.push_str(p.sym.as_str());
            line.push_str(" ");
            line.push_str(row.client_id.as_str());
            line.push_str(" placed as ");
            line.push_str(id.as_str());
            let mut w1 = said(w, line);
            w1.journal = journal::change_row(
                w1.journal.dup(),
                with_status(row, id.as_str(), status.as_str()),
            );
            w1
        },
        Answer::Failed(e) => {
            list::push(&mut w.refused, text::owned(p.sym.as_str()));
            let mut line2 = text::owned("  ");
            line2.push_str(p.sym.as_str());
            line2.push_str(" ");
            line2.push_str(row.client_id.as_str());
            line2.push_str(" FAILED: ");
            line2.push_str(e.as_str());
            let mut w1 = warned(w, line2);
            w1.journal = journal::change_row(w1.journal.dup(), with_failure(row, e.as_str()));
            w1
        },
        _ => failing(w, "answer out of turn"),
    }
}

/// Journal an order, then send it, then journal what came of it.
pub open spec fn sent_spec(
    w: WorkView,
    p: PlannedView,
    row: OrderView,
    answers: Seq<AnswerView>,
) -> WorkView {
    let w = WorkView { journal: journal::put_row_spec(w.journal, row), ..w };
    let w1 = saved_spec(w, answers);
    if halted_work_spec(w1) {
        w1
    } else {
        let (w2, a) = asked_spec(
            w1,
            AskView::Place(p.side, p.pair, base_of_spec(p), p.price, row.client_id),
            answers,
        );
        if halted_work_spec(w2) {
            w2
        } else {
            let w3 = sent_back_spec(w2, p, row, a);
            if halted_work_spec(w3) {
                w3
            } else {
                saved_spec(w3, answers)
            }
        }
    }
}

fn sent(w: Work, p: &Planned, row: Order, answers: &Vec<Answer>) -> (r: Work)
    ensures
        r.deep_view() == sent_spec(
            w.deep_view(),
            p.deep_view(),
            row.deep_view(),
            answers.deep_view(),
        ),
{
    let mut w = w;
    w.journal = journal::put_row(w.journal.dup(), row.dup());
    let w1 = saved(w, answers);
    if halted_work(&w1) {
        return w1;
    }
    let (w2, a) = asked(
        w1,
        Ask::Place(
            p.side,
            text::owned(p.pair.as_str()),
            base_of(p),
            p.price,
            text::owned(row.client_id.as_str()),
        ),
        answers,
    );
    if halted_work(&w2) {
        return w2;
    }
    let w3 = sent_back(w2, p, row, &a);
    if halted_work(&w3) {
        return w3;
    }
    saved(w3, answers)
}

/// Whether an order fits its venue.
#[derive(Debug)]
pub struct Fitted {
    pub work: Work,
    pub why: Option<String>,
}

/// What a [`Fitted`] holds.
pub struct FittedView {
    pub work: WorkView,
    pub why: Option<Seq<char>>,
}

impl DeepView for Fitted {
    type V = FittedView;

    open spec fn deep_view(&self) -> FittedView {
        FittedView {
            work: self.work.deep_view(),
            why: self.why.deep_view(),
        }
    }
}

/// An order that does not fit.
pub open spec fn not_fitting_spec(w: WorkView, why: Seq<char>) -> FittedView {
    FittedView { work: w, why: Some(why) }
}

fn not_fitting(w: Work, why: String) -> (r: Fitted)
    ensures
        r.deep_view() == not_fitting_spec(w.deep_view(), why@),
{
    Fitted { work: w, why: Some(why) }
}

/// Round an order's price, then hold it against what its venue takes.
pub open spec fn rounded_price_spec(
    w: WorkView,
    p: PlannedView,
    limits: Limits,
    amount: Double,
    answers: Seq<AnswerView>,
) -> FittedView {
    let (w1, a) = asked_spec(w, AskView::RoundPrice(p.pair, p.price), answers);
    if halted_work_spec(w1) {
        FittedView { work: w1, why: None }
    } else {
        match number_of_spec(a) {
            Ok(price) => FittedView { work: w1, why: fit_spec(p.pair, limits, amount, price) },
            Err(e) => not_fitting_spec(w1, e),
        }
    }
}

fn rounded_price(
    w: Work,
    p: &Planned,
    limits: Limits,
    amount: Double,
    answers: &Vec<Answer>,
) -> (r: Fitted)
    ensures
        r.deep_view() == rounded_price_spec(
            w.deep_view(),
            p.deep_view(),
            limits,
            amount,
            answers.deep_view(),
        ),
{
    let (w1, a) = asked(w, Ask::RoundPrice(text::owned(p.pair.as_str()), p.price), answers);
    if halted_work(&w1) {
        return Fitted { work: w1, why: None };
    }
    match number_of(&a) {
        Ok(price) => Fitted { work: w1, why: fit(p.pair.as_str(), limits, amount, price) },
        Err(e) => not_fitting(w1, e),
    }
}

/// Round an order's amount, then its price.
pub open spec fn rounded_amount_spec(
    w: WorkView,
    p: PlannedView,
    limits: Limits,
    answers: Seq<AnswerView>,
) -> FittedView {
    let (w1, a) = asked_spec(w, AskView::RoundAmount(p.pair, base_of_spec(p)), answers);
    if halted_work_spec(w1) {
        FittedView { work: w1, why: None }
    } else {
        match number_of_spec(a) {
            Ok(amount) => rounded_price_spec(w1, p, limits, amount, answers),
            Err(e) => not_fitting_spec(w1, e),
        }
    }
}

fn rounded_amount(w: Work, p: &Planned, limits: Limits, answers: &Vec<Answer>) -> (r: Fitted)
    ensures
        r.deep_view() == rounded_amount_spec(
            w.deep_view(),
            p.deep_view(),
            limits,
            answers.deep_view(),
        ),
{
    let (w1, a) = asked(w, Ask::RoundAmount(text::owned(p.pair.as_str()), base_of(p)), answers);
    if halted_work(&w1) {
        return Fitted { work: w1, why: None };
    }
    match number_of(&a) {
        Ok(amount) => rounded_price(w1, p, limits, amount, answers),
        Err(e) => not_fitting(w1, e),
    }
}

/// Round to the venue's precision and hold the order against its minimums before anything is journaled.
pub open spec fn fitted_spec(w: WorkView, p: PlannedView, answers: Seq<AnswerView>) -> FittedView {
    let (w1, a) = asked_spec(w, AskView::Limits(p.pair), answers);
    if halted_work_spec(w1) {
        FittedView { work: w1, why: None }
    } else {
        match limits_in_spec(a) {
            Ok(l) => rounded_amount_spec(w1, p, l, answers),
            Err(e) => not_fitting_spec(w1, e),
        }
    }
}

fn fitted(w: Work, p: &Planned, answers: &Vec<Answer>) -> (r: Fitted)
    ensures
        r.deep_view() == fitted_spec(w.deep_view(), p.deep_view(), answers.deep_view()),
{
    let (w1, a) = asked(w, Ask::Limits(text::owned(p.pair.as_str())), answers);
    if halted_work(&w1) {
        return Fitted { work: w1, why: None };
    }
    match limits_in(&a) {
        Ok(l) => rounded_amount(w1, p, l, answers),
        Err(e) => not_fitting(w1, e),
    }
}

/// An order the rails refuse; some refusals end the run.
pub open spec fn turned_down_spec(w: WorkView, p: PlannedView, r: Refusal) -> WorkView {
    let w = WorkView { refused: w.refused.push(p.sym), ..w };
    let w = WorkView { stop: ends_run_spec(r), ..w };
    said_spec(w, "  "@ + p.sym + " — REFUSED: "@ + guard::refusal_text(r))
}

fn turned_down(w: Work, p: &Planned, r: Refusal) -> (out: Work)
    ensures
        out.deep_view() == turned_down_spec(w.deep_view(), p.deep_view(), r),
{
    let mut w = w;
    list::push(&mut w.refused, text::owned(p.sym.as_str()));
    w.stop = ends_run(r);
    let mut line = text::owned("  ");
    line.push_str(p.sym.as_str());
    line.push_str(" — REFUSED: ");
    line.push_str(r.text().as_str());
    said(w, line)
}

/// An order the rails let through.
pub open spec fn allowed_spec(
    w: WorkView,
    p: PlannedView,
    exch: Seq<char>,
    cid: Seq<char>,
    ts: Double,
    answers: Seq<AnswerView>,
) -> WorkView {
    let f = fitted_spec(w, p, answers);
    let w1 = f.work;
    if halted_work_spec(w1) {
        w1
    } else {
        match f.why {
            Some(e) => {
                let w1 = WorkView { refused: w1.refused.push(p.sym), ..w1 };
                warned_spec(w1, "  "@ + p.sym + " — "@ + e)
            },
            None => sent_spec(w1, p, pending_row_spec(p, exch, cid, ts), answers),
        }
    }
}

fn allowed(
    w: Work,
    p: &Planned,
    exch: &str,
    cid: &str,
    ts: Double,
    answers: &Vec<Answer>,
) -> (r: Work)
    ensures
        r.deep_view() == allowed_spec(
            w.deep_view(),
            p.deep_view(),
            exch@,
            cid@,
            ts,
            answers.deep_view(),
        ),
{
    let f = fitted(w, p, answers);
    let mut w1 = f.work.dup();
    if halted_work(&w1) {
        return w1;
    }
    match &f.why {
        Some(e) => {
            list::push(&mut w1.refused, text::owned(p.sym.as_str()));
            let mut line = text::owned("  ");
            line.push_str(p.sym.as_str());
            line.push_str(" — ");
            line.push_str(e.as_str());
            warned(w1, line)
        },
        None => sent(w1, p, pending_row(p, exch, cid, ts), answers),
    }
}

/// Hold an order against the rails, then send it.
pub open spec fn railed_spec(
    w: WorkView,
    p: PlannedView,
    exch: Seq<char>,
    acknowledged: bool,
    caps: Caps,
    day_ago: Double,
    cid: Seq<char>,
    ts: Double,
    answers: Seq<AnswerView>,
) -> WorkView {
    let (w1, a) = asked_spec(w, AskView::Halted, answers);
    if halted_work_spec(w1) {
        w1
    } else {
        match flag_in_spec(a) {
            Ok(halted) => {
                let counted = journal::counted_rows_spec(journal::rows_alone(w1.journal), day_ago);
                match rails_spec(
                    p.quote,
                    p.price,
                    halted,
                    acknowledged,
                    journal::notional_of_spec(counted),
                    (counted.len() as usize),
                    caps,
                ) {
                    Some(r) => turned_down_spec(w1, p, r),
                    None => allowed_spec(w1, p, exch, cid, ts, answers),
                }
            },
            Err(e) => failing_spec(w1, e),
        }
    }
}

fn railed(
    w: Work,
    p: &Planned,
    exch: &str,
    acknowledged: bool,
    caps: Caps,
    day_ago: Double,
    cid: &str,
    ts: Double,
    answers: &Vec<Answer>,
) -> (r: Work)
    ensures
        r.deep_view() == railed_spec(
            w.deep_view(),
            p.deep_view(),
            exch@,
            acknowledged,
            caps,
            day_ago,
            cid@,
            ts,
            answers.deep_view(),
        ),
{
    let (w1, a) = asked(w, Ask::Halted, answers);
    if halted_work(&w1) {
        return w1;
    }
    match flag_in(&a) {
        Ok(halted) => {
            let counted = journal::counted_rows(&&w1.journal.rows(), day_ago);
            match rails(
                p.quote,
                p.price,
                halted,
                acknowledged,
                journal::notional_of(&counted),
                counted.len(),
                caps,
            ) {
                Some(r) => turned_down(w1, p, r),
                None => allowed(w1, p, exch, cid, ts, answers),
            }
        },
        Err(e) => failing(w1, e.as_str()),
    }
}

/// Place one planned order, unless it is journaled already.
pub open spec fn sync_one_spec(
    w: WorkView,
    p: PlannedView,
    exch: Seq<char>,
    acknowledged: bool,
    caps: Caps,
    day_ago: Double,
    answers: Seq<AnswerView>,
) -> WorkView {
    if halted_work_spec(w) || w.stop {
        w
    } else {
        let (w1, a) = asked_spec(w, AskView::Now, answers);
        if halted_work_spec(w1) {
            w1
        } else {
            match number_of_spec(a) {
                Ok(ts) => {
                    let cid = planned_cid_spec(p, ts);
                    if journal::has_row_spec(w1.journal, cid) {
                        let w1 = WorkView { skipped: w1.skipped.push(cid), ..w1 };
                        said_spec(
                            w1,
                            "  "@ + p.sym + " "@ + cid + " — already journaled, not re-placed"@,
                        )
                    } else {
                        railed_spec(w1, p, exch, acknowledged, caps, day_ago, cid, ts, answers)
                    }
                },
                Err(e) => failing_spec(w1, e),
            }
        }
    }
}

fn sync_one(
    w: Work,
    p: &Planned,
    exch: &str,
    acknowledged: bool,
    caps: Caps,
    day_ago: Double,
    answers: &Vec<Answer>,
) -> (r: Work)
    ensures
        r.deep_view() == sync_one_spec(
            w.deep_view(),
            p.deep_view(),
            exch@,
            acknowledged,
            caps,
            day_ago,
            answers.deep_view(),
        ),
{
    if halted_work(&w) || w.stop {
        return w;
    }
    let (mut w1, a) = asked(w, Ask::Now, answers);
    if halted_work(&w1) {
        return w1;
    }
    match number_of(&a) {
        Ok(ts) => {
            let cid = planned_cid(p, ts);
            if journal::has_row(&w1.journal, cid.as_str()) {
                list::push(&mut w1.skipped, text::owned(cid.as_str()));
                let mut line = text::owned("  ");
                line.push_str(p.sym.as_str());
                line.push_str(" ");
                line.push_str(cid.as_str());
                line.push_str(" — already journaled, not re-placed");
                return said(w1, line);
            }
            railed(w1, p, exch, acknowledged, caps, day_ago, cid.as_str(), ts, answers)
        },
        Err(e) => failing(w1, e.as_str()),
    }
}

/// The first `n` of them.
pub open spec fn sync_orders_spec(
    acknowledged: bool,
    answers: Seq<AnswerView>,
    caps: Caps,
    day_ago: Double,
    exch: Seq<char>,
    xs: Seq<PlannedView>,
    w: WorkView,
    n: nat,
) -> WorkView
    decreases n,
{
    if n == 0 {
        w
    } else {
        let w = sync_orders_spec(
            acknowledged,
            answers,
            caps,
            day_ago,
            exch,
            xs,
            w,
            (n - 1) as nat,
        );
        let p = xs[n - 1];
        sync_one_spec(w, p, exch, acknowledged, caps, day_ago, answers)
    }
}

fn sync_orders(
    acknowledged: bool,
    answers: &Vec<Answer>,
    caps: Caps,
    day_ago: Double,
    exch: &str,
    xs: &Vec<Planned>,
    w: Work,
) -> (r: Work)
    ensures
        r.deep_view() == sync_orders_spec(
            acknowledged,
            answers.deep_view(),
            caps,
            day_ago,
            exch@,
            xs.deep_view(),
            w.deep_view(),
            xs@.len(),
        ),
{
    let ghost w0 = w.deep_view();
    let mut w = w;
    let mut i: usize = 0;
    while i < xs.len()
        invariant
            i <= xs@.len(),
            w.deep_view() == sync_orders_spec(
                acknowledged,
                answers.deep_view(),
                caps,
                day_ago,
                exch@,
                xs.deep_view(),
                w0,
                i as nat,
            ),
        decreases xs@.len() - i,
    {
        let p = &xs[i];
        w = sync_one(w, p, exch, acknowledged, caps, day_ago, answers);
        i = i + 1;
    }
    w
}

/// Place the planned orders.
pub open spec fn sync_all_spec(
    w: WorkView,
    orders: Seq<PlannedView>,
    exch: Seq<char>,
    acknowledged: bool,
    caps: Caps,
    day_ago: Double,
    answers: Seq<AnswerView>,
) -> WorkView {
    sync_orders_spec(acknowledged, answers, caps, day_ago, exch, orders, w, orders.len())
}

fn sync_all(
    w: Work,
    orders: &Vec<Planned>,
    exch: &str,
    acknowledged: bool,
    caps: Caps,
    day_ago: Double,
    answers: &Vec<Answer>,
) -> (r: Work)
    ensures
        r.deep_view() == sync_all_spec(
            w.deep_view(),
            orders.deep_view(),
            exch@,
            acknowledged,
            caps,
            day_ago,
            answers.deep_view(),
        ),
{
    let mut w = w;
    w = sync_orders(acknowledged, answers, caps, day_ago, exch, orders, w);
    w
}

/// Whether a flag is given.
pub open spec fn has_flag_spec(a: ArgsView, name: Seq<char>) -> bool {
    flag_of_spec(a, name) is Some
}

fn has_flag(a: &Args, name: &str) -> (r: bool)
    ensures
        r == has_flag_spec(a.deep_view(), name@),
{
    flag_of(a, name).is_some()
}

/// Why a sync does nothing.
pub open spec fn sync_ready_spec(a: ArgsView) -> Option<Seq<char>> {
    if !has_flag_spec(a, "live"@) {
        Some("sync without --live does nothing; use `plan` to preview"@)
    } else {
        None
    }
}

/// Why a sync does nothing.
pub fn sync_ready(a: &Args) -> (r: Option<String>)
    ensures
        r.deep_view() == sync_ready_spec(a.deep_view()),
{
    if !has_flag(a, "live") {
        return Some(text::owned("sync without --live does nothing; use `plan` to preview"));
    }
    None
}

/// Place the orders of a plan: each is held against the rails, fitted to the venue, journaled, and only
/// then sent.
pub open spec fn sync_spec(
    a: ArgsView,
    p: PreparedView,
    exch: Seq<char>,
    journal: Seq<(Seq<char>, OrderView)>,
    answers: Seq<AnswerView>,
) -> WorkView {
    let w = begun_spec(journal);
    let (w1, t) = asked_spec(w, AskView::Now, answers);
    if halted_work_spec(w1) {
        w1
    } else {
        match number_of_spec(t) {
            Ok(now) => {
                let w2 = sync_all_spec(
                    w1,
                    p.orders,
                    exch,
                    has_flag_spec(a, "i-understand"@),
                    p.caps,
                    now.sub_spec(Double::int_spec(86400)),
                    answers,
                );
                if halted_work_spec(w2) {
                    w2
                } else {
                    let n1 = (w2.placed.len() as usize);
                    let n2 = (w2.refused.len() as usize);
                    let n3 = (w2.skipped.len() as usize);
                    said_spec(
                        w2,
                        "\nplaced "@
                            + text::dec(n1 as nat)
                            + " · refused "@
                            + text::dec(n2 as nat)
                            + " · already journaled "@
                            + text::dec(n3 as nat),
                    )
                }
            },
            Err(e) => failing_spec(w1, e),
        }
    }
}

/// Place the orders of a plan: each is held against the rails, fitted to the venue, journaled, and only
/// then sent.
pub fn sync(
    a: &Args,
    p: &Prepared,
    exch: &str,
    journal: &Journal,
    answers: &Vec<Answer>,
) -> (r: Work)
    ensures
        r.deep_view() == sync_spec(
            a.deep_view(),
            p.deep_view(),
            exch@,
            journal.deep_view(),
            answers.deep_view(),
        ),
{
    let w = begun(journal.dup());
    let (w1, t) = asked(w, Ask::Now, answers);
    if halted_work(&w1) {
        return w1;
    }
    match number_of(&t) {
        Ok(now) => {
            let w2 = sync_all(
                w1,
                &p.orders,
                exch,
                has_flag(a, "i-understand"),
                p.caps,
                now.minus(Double::of_int(86400)),
                answers,
            );
            if halted_work(&w2) {
                return w2;
            }
            let n1: usize = w2.placed.len();
            let n2: usize = w2.refused.len();
            let n3: usize = w2.skipped.len();
            let mut line = text::owned("\nplaced ");
            line.push_str(text::dec_u64(n1 as u64).as_str());
            line.push_str(" · refused ");
            line.push_str(text::dec_u64(n2 as u64).as_str());
            line.push_str(" · already journaled ");
            line.push_str(text::dec_u64(n3 as u64).as_str());
            said(w2, line)
        },
        Err(e) => failing(w1, e.as_str()),
    }
}

/// Among the first `n` rows.
pub open spec fn find_at_venue_spec(
    exch: Seq<char>,
    order_id: Seq<char>,
    xs: Seq<OrderView>,
    out: Option<OrderView>,
    n: nat,
) -> Option<OrderView> {
    match out {
        Some(v) => Some(v),
        None => list::first_given(
            xs,
            |o: OrderView| if o.exch == exch
                && (match o.order_id {
                    Some(v) => v,
                    None => ""@,
                })
                    == order_id
                && o.order_id is Some {
                Some(o)
            } else {
                None
            },
            n,
        ),
    }
}

fn find_at_venue(
    exch: &str,
    order_id: &str,
    xs: &Vec<Order>,
    out: Option<Order>,
) -> (r: Option<Order>)
    ensures
        r.deep_view() == find_at_venue_spec(
            exch@,
            order_id@,
            xs.deep_view(),
            out.deep_view(),
            xs@.len(),
        ),
{
    let ghost out0 = out.deep_view();
    let mut out = out;
    let mut i: usize = 0;
    while i < xs.len()
        invariant
            i <= xs@.len(),
            out.deep_view() == find_at_venue_spec(
                exch@,
                order_id@,
                xs.deep_view(),
                out0,
                i as nat,
            ),
        decreases xs@.len() - i,
    {
        let o = &xs[i];
        if out.is_none()
            && text::same(o.exch.as_str(), exch)
            && text::same(
                (match o.order_id.dup() {
                    Some(v) => v,
                    None => text::owned(""),
                }).as_str(),
                order_id,
            )
            && o.order_id.is_some() {
            out = Some(o.dup());
        }
        assert(xs.deep_view()[i as int] == xs@[i as int].deep_view());
        assert(out.deep_view() == find_at_venue_spec(
            exch@,
            order_id@,
            xs.deep_view(),
            out0,
            (i + 1) as nat,
        ));
        i = i + 1;
    }
    out
}

/// The journal's row of a venue order.
pub open spec fn row_at_venue_spec(
    rows: Seq<OrderView>,
    exch: Seq<char>,
    order_id: Seq<char>,
) -> Option<OrderView> {
    let out: Option<OrderView> = None;
    find_at_venue_spec(exch, order_id, rows, out, rows.len())
}

fn row_at_venue(rows: &Vec<Order>, exch: &str, order_id: &str) -> (r: Option<Order>)
    ensures
        r.deep_view() == row_at_venue_spec(rows.deep_view(), exch@, order_id@),
{
    let mut out: Option<Order> = None;
    out = find_at_venue(exch, order_id, rows, out);
    out
}

/// A row whose order was cancelled by hand.
pub open spec fn cancelled_row_spec(o: OrderView) -> OrderView {
    let o = OrderView { status: "canceled"@, ..o };
    OrderView { note: Some("manual --cancel"@), ..o }
}

fn cancelled_row(o: Order) -> (r: Order)
    ensures
        r.deep_view() == cancelled_row_spec(o.deep_view()),
{
    let mut o = o;
    o.status = text::owned("canceled");
    o.note = Some(text::owned("manual --cancel"));
    o
}

/// Print what a cancelled order came to.
pub open spec fn after_cancel_spec(
    w: WorkView,
    cid: Seq<char>,
    row: OrderView,
    after: AfterView,
) -> WorkView {
    match after {
        AfterView::Booked => said_spec(
            w,
            "  cancelled "@
                + cid
                + " after "@
                + pyfmt::fixed_spec(
                    match row.filled_base {
                        Some(v) => v,
                        None => Double::zero_spec(),
                    },
                    8,
                )
                + " filled ("@
                + pyfmt::fixed_spec(
                    match row.filled_quote {
                        Some(v) => v,
                        None => Double::zero_spec(),
                    },
                    2,
                )
                + " quote); booked on the next reconcile"@,
        ),
        AfterView::Unreadable(e) => said_spec(
            w,
            "  cancelled "@ + cid + "; its final fill could not be read: "@ + e,
        ),
        AfterView::Plain => said_spec(w, "  cancelled "@ + cid),
    }
}

fn after_cancel(w: Work, cid: &str, row: &Order, after: &After) -> (r: Work)
    ensures
        r.deep_view() == after_cancel_spec(
            w.deep_view(),
            cid@,
            row.deep_view(),
            after.deep_view(),
        ),
{
    match after {
        After::Booked => {
            let mut line = text::owned("  cancelled ");
            line.push_str(cid);
            line.push_str(" after ");
            line.push_str(
                pyfmt::fixed(
                    match row.filled_base {
                        Some(v) => v,
                        None => Double::zero(),
                    },
                    8,
                ).as_str(),
            );
            line.push_str(" filled (");
            line.push_str(
                pyfmt::fixed(
                    match row.filled_quote {
                        Some(v) => v,
                        None => Double::zero(),
                    },
                    2,
                ).as_str(),
            );
            line.push_str(" quote); booked on the next reconcile");
            said(w, line)
        },
        After::Unreadable(e) => {
            let mut line2 = text::owned("  cancelled ");
            line2.push_str(cid);
            line2.push_str("; its final fill could not be read: ");
            line2.push_str(e.as_str());
            said(w, line2)
        },
        After::Plain => {
            let mut line3 = text::owned("  cancelled ");
            line3.push_str(cid);
            said(w, line3)
        },
    }
}

/// Mark a row cancelled, read its final state, and journal it.
pub open spec fn settled_spec(w: WorkView, o: OrderView, answers: Seq<AnswerView>) -> WorkView {
    let row = cancelled_row_spec(o);
    let cid = row.client_id;
    let w = WorkView { journal: journal::change_row_spec(w.journal, row), ..w };
    let (w1, a) = asked_spec(w, AskView::Settle(row), answers);
    if halted_work_spec(w1) {
        w1
    } else {
        match a {
            AnswerView::Settled(now, after) => {
                let w1 = WorkView { journal: journal::change_row_spec(w1.journal, now), ..w1 };
                let w2 = after_cancel_spec(w1, cid, now, after);
                saved_spec(w2, answers)
            },
            AnswerView::Failed(e) => failing_spec(w1, e),
            _ => failing_spec(w1, "answer out of turn"@),
        }
    }
}

fn settled(w: Work, o: Order, answers: &Vec<Answer>) -> (r: Work)
    ensures
        r.deep_view() == settled_spec(w.deep_view(), o.deep_view(), answers.deep_view()),
{
    let mut w = w;
    let row = cancelled_row(o);
    let cid = row.client_id.dup();
    w.journal = journal::change_row(w.journal.dup(), row.dup());
    let (mut w1, a) = asked(w, Ask::Settle(row), answers);
    if halted_work(&w1) {
        return w1;
    }
    match a {
        Answer::Settled(now, after) => {
            w1.journal = journal::change_row(w1.journal.dup(), now.dup());
            let w2 = after_cancel(w1, cid.as_str(), &now, &after);
            saved(w2, answers)
        },
        Answer::Failed(e) => failing(w1, e.as_str()),
        _ => failing(w1, "answer out of turn"),
    }
}

/// Cancel one resting order.
pub open spec fn cancel_one_spec(
    w: WorkView,
    pair: Seq<char>,
    exch: Seq<char>,
    o: ParsedOrderView,
    answers: Seq<AnswerView>,
) -> WorkView {
    if halted_work_spec(w) {
        w
    } else {
        let (w1, a) = asked_spec(w, AskView::Cancel(pair, o.order_id), answers);
        if halted_work_spec(w1) {
            w1
        } else {
            match a {
                AnswerView::Failed(e) => warned_spec(
                    w1,
                    "  "@ + o.order_id + " failed: "@ + e + " (may have just filled)"@,
                ),
                _ => match row_at_venue_spec(journal::rows_alone(w1.journal), exch, o.order_id) {
                    Some(row) => settled_spec(w1, row, answers),
                    None => said_spec(w1, "  cancelled "@ + o.order_id + " (not in the journal)"@),
                },
            }
        }
    }
}

fn cancel_one(
    w: Work,
    pair: &str,
    exch: &str,
    o: &ParsedOrder,
    answers: &Vec<Answer>,
) -> (r: Work)
    ensures
        r.deep_view() == cancel_one_spec(
            w.deep_view(),
            pair@,
            exch@,
            o.deep_view(),
            answers.deep_view(),
        ),
{
    if halted_work(&w) {
        return w;
    }
    let (w1, a) = asked(
        w,
        Ask::Cancel(text::owned(pair), text::owned(o.order_id.as_str())),
        answers,
    );
    if halted_work(&w1) {
        return w1;
    }
    match a {
        Answer::Failed(e) => {
            let mut line = text::owned("  ");
            line.push_str(o.order_id.as_str());
            line.push_str(" failed: ");
            line.push_str(e.as_str());
            line.push_str(" (may have just filled)");
            warned(w1, line)
        },
        _ => match row_at_venue(&&w1.journal.rows(), exch, o.order_id.as_str()) {
            Some(row) => settled(w1, row, answers),
            None => {
                let mut line2 = text::owned("  cancelled ");
                line2.push_str(o.order_id.as_str());
                line2.push_str(" (not in the journal)");
                said(w1, line2)
            },
        },
    }
}

/// The first `n` of them.
pub open spec fn cancel_orders_spec(
    answers: Seq<AnswerView>,
    exch: Seq<char>,
    pair: Seq<char>,
    xs: Seq<ParsedOrderView>,
    w: WorkView,
    n: nat,
) -> WorkView
    decreases n,
{
    if n == 0 {
        w
    } else {
        let w = cancel_orders_spec(answers, exch, pair, xs, w, (n - 1) as nat);
        let o = xs[n - 1];
        cancel_one_spec(w, pair, exch, o, answers)
    }
}

fn cancel_orders(
    answers: &Vec<Answer>,
    exch: &str,
    pair: &str,
    xs: &Vec<ParsedOrder>,
    w: Work,
) -> (r: Work)
    ensures
        r.deep_view() == cancel_orders_spec(
            answers.deep_view(),
            exch@,
            pair@,
            xs.deep_view(),
            w.deep_view(),
            xs@.len(),
        ),
{
    let ghost w0 = w.deep_view();
    let mut w = w;
    let mut i: usize = 0;
    while i < xs.len()
        invariant
            i <= xs@.len(),
            w.deep_view() == cancel_orders_spec(
                answers.deep_view(),
                exch@,
                pair@,
                xs.deep_view(),
                w0,
                i as nat,
            ),
        decreases xs@.len() - i,
    {
        let o = &xs[i];
        w = cancel_one(w, pair, exch, o, answers);
        i = i + 1;
    }
    w
}

/// Cancel the resting orders.
pub open spec fn cancel_all_spec(
    w: WorkView,
    pair: Seq<char>,
    exch: Seq<char>,
    open: Seq<ParsedOrderView>,
    answers: Seq<AnswerView>,
) -> WorkView {
    cancel_orders_spec(answers, exch, pair, open, w, open.len())
}

fn cancel_all(
    w: Work,
    pair: &str,
    exch: &str,
    open: &Vec<ParsedOrder>,
    answers: &Vec<Answer>,
) -> (r: Work)
    ensures
        r.deep_view() == cancel_all_spec(
            w.deep_view(),
            pair@,
            exch@,
            open.deep_view(),
            answers.deep_view(),
        ),
{
    let mut w = w;
    w = cancel_orders(answers, exch, pair, open, w);
    w
}

/// A resting order as it prints.
pub open spec fn resting_line_spec(o: ParsedOrderView) -> Seq<char> {
    "  "@
        + o.order_id
        + " "@
        + o.side
        + " "@
        + pyfmt::fixed_spec(o.qty, 6)
        + " @ "@
        + pyfmt::fixed_spec(
            match o.price {
                Some(v) => v,
                None => Double::zero_spec(),
            },
            6,
        )
}

fn resting_line(o: &ParsedOrder) -> (r: String)
    ensures
        r@ == resting_line_spec(o.deep_view()),
{
    let mut line = text::owned("  ");
    line.push_str(o.order_id.as_str());
    line.push_str(" ");
    line.push_str(o.side.as_str());
    line.push_str(" ");
    line.push_str(pyfmt::fixed(o.qty, 6).as_str());
    line.push_str(" @ ");
    line.push_str(
        pyfmt::fixed(
            match o.price {
                Some(v) => v,
                None => Double::zero(),
            },
            6,
        ).as_str(),
    );
    line
}

/// The first `n` of them.
pub open spec fn preview_orders_spec(xs: Seq<ParsedOrderView>, w: WorkView, n: nat) -> WorkView
    decreases n,
{
    if n == 0 {
        w
    } else {
        let w = preview_orders_spec(xs, w, (n - 1) as nat);
        let o = xs[n - 1];
        said_spec(w, resting_line_spec(o))
    }
}

fn preview_orders(xs: &Vec<ParsedOrder>, w: Work) -> (r: Work)
    ensures
        r.deep_view() == preview_orders_spec(xs.deep_view(), w.deep_view(), xs@.len()),
{
    let ghost w0 = w.deep_view();
    let mut w = w;
    let mut i: usize = 0;
    while i < xs.len()
        invariant
            i <= xs@.len(),
            w.deep_view() == preview_orders_spec(xs.deep_view(), w0, i as nat),
        decreases xs@.len() - i,
    {
        let o = &xs[i];
        w = said(w, resting_line(o));
        i = i + 1;
    }
    w
}

/// Print what would be cancelled.
pub open spec fn preview_spec(
    w: WorkView,
    pair: Seq<char>,
    open: Seq<ParsedOrderView>,
) -> WorkView {
    let w = said_spec(
        w,
        text::dec(((open.len() as usize)) as nat) + " resting order(s) for "@ + pair + ":"@,
    );
    let w = preview_orders_spec(open, w, open.len());
    said_spec(w, "\nNothing cancelled. Add --live --i-understand to cancel these."@)
}

fn preview(w: Work, pair: &str, open: &Vec<ParsedOrder>) -> (r: Work)
    ensures
        r.deep_view() == preview_spec(w.deep_view(), pair@, open.deep_view()),
{
    let mut w = w;
    let mut line = text::dec_u64(open.len() as u64);
    line.push_str(" resting order(s) for ");
    line.push_str(pair);
    line.push_str(":");
    w = said(w, line);
    w = preview_orders(open, w);
    said(w, text::owned("\nNothing cancelled. Add --live --i-understand to cancel these."))
}

/// Cancel the orders that rest for a pair; without both flags only say which they are.
pub open spec fn cancel_spec(
    a: ArgsView,
    pair: Seq<char>,
    exch: Seq<char>,
    open: Seq<ParsedOrderView>,
    journal: Seq<(Seq<char>, OrderView)>,
    answers: Seq<AnswerView>,
) -> WorkView {
    let w = begun_spec(journal);
    if open.len() == 0 {
        said_spec(w, "nothing resting for "@ + pair)
    } else if !(has_flag_spec(a, "live"@) && has_flag_spec(a, "i-understand"@)) {
        preview_spec(w, pair, open)
    } else {
        let w1 = cancel_all_spec(w, pair, exch, open, answers);
        if halted_work_spec(w1) {
            w1
        } else {
            saved_spec(w1, answers)
        }
    }
}

/// Cancel the orders that rest for a pair; without both flags only say which they are.
pub fn cancel(
    a: &Args,
    pair: &str,
    exch: &str,
    open: &Vec<ParsedOrder>,
    journal: &Journal,
    answers: &Vec<Answer>,
) -> (r: Work)
    ensures
        r.deep_view() == cancel_spec(
            a.deep_view(),
            pair@,
            exch@,
            open.deep_view(),
            journal.deep_view(),
            answers.deep_view(),
        ),
{
    let w = begun(journal.dup());
    if open.len() == 0 {
        let mut line = text::owned("nothing resting for ");
        line.push_str(pair);
        return said(w, line);
    }
    if !(has_flag(a, "live") && has_flag(a, "i-understand")) {
        return preview(w, pair, open);
    }
    let w1 = cancel_all(w, pair, exch, open, answers);
    if halted_work(&w1) {
        return w1;
    }
    saved(w1, answers)
}

/// Of the first `n` open orders.
pub open spec fn add_unpolled_spec(
    xs: Seq<OrderView>,
    out: Seq<OrderView>,
    n: nat,
) -> Seq<OrderView> {
    out + list::kept(xs, |o: OrderView| o.last_error is Some, n)
}

fn add_unpolled(xs: &Vec<Order>, out: Vec<Order>) -> (r: Vec<Order>)
    ensures
        r.deep_view() == add_unpolled_spec(xs.deep_view(), out.deep_view(), xs@.len()),
{
    let ghost out0 = out.deep_view();
    let mut out = out;
    let mut i: usize = 0;
    while i < xs.len()
        invariant
            i <= xs@.len(),
            out.deep_view() == add_unpolled_spec(xs.deep_view(), out0, i as nat),
        decreases xs@.len() - i,
    {
        let o = &xs[i];
        if o.last_error.is_some() {
            list::push(&mut out, o.dup());
        }
        assert(out.deep_view() =~= add_unpolled_spec(xs.deep_view(), out0, (i + 1) as nat));
        i = i + 1;
    }
    out
}

/// The open orders whose last poll failed.
pub open spec fn polled_badly_spec(rows: Seq<OrderView>) -> Seq<OrderView> {
    add_unpolled_spec(
        journal::open_rows_spec(rows, None),
        Seq::<OrderView>::empty(),
        journal::open_rows_spec(rows, None).len(),
    )
}

fn polled_badly(rows: &Vec<Order>) -> (r: Vec<Order>)
    ensures
        r.deep_view() == polled_badly_spec(rows.deep_view()),
{
    let mut out: Vec<Order> = list::none();
    out = add_unpolled(&journal::open_rows(rows, list::text_ref(&None)), out);
    out
}

/// The first `n` of them.
pub open spec fn add_poll_line_spec(
    xs: Seq<OrderView>,
    out: Seq<Seq<char>>,
    n: nat,
) -> Seq<Seq<char>> {
    out + Seq::new(
        n,
        |i: int| {
            let o = xs[i];
            "  "@
                + o.client_id
                + " "@
                + o.exch
                + " "@
                + (match o.last_error {
                    Some(v) => v,
                    None => ""@,
                })
        },
    )
}

fn add_poll_line(xs: &Vec<Order>, out: Vec<String>) -> (r: Vec<String>)
    ensures
        r.deep_view() == add_poll_line_spec(xs.deep_view(), out.deep_view(), xs@.len()),
{
    let ghost out0 = out.deep_view();
    let mut out = out;
    let mut i: usize = 0;
    while i < xs.len()
        invariant
            i <= xs@.len(),
            out.deep_view() == add_poll_line_spec(xs.deep_view(), out0, i as nat),
        decreases xs@.len() - i,
    {
        let o = &xs[i];
        let mut line = text::owned("  ");
        line.push_str(o.client_id.as_str());
        line.push_str(" ");
        line.push_str(o.exch.as_str());
        line.push_str(" ");
        line.push_str(
            (match o.last_error.dup() {
                Some(v) => v,
                None => text::owned(""),
            }).as_str(),
        );
        list::push(&mut out, line);
        assert(out.deep_view() =~= add_poll_line_spec(xs.deep_view(), out0, (i + 1) as nat));
        i = i + 1;
    }
    out
}

/// The open orders whose last poll failed, as they print.
pub open spec fn poll_lines_spec(rows: Seq<OrderView>) -> Seq<Seq<char>> {
    let bad = polled_badly_spec(rows);
    let out = Seq::<Seq<char>>::empty();
    let out = if !(bad.len() == 0) {
        out.push(
            "\n"@
                + text::dec(((bad.len() as usize)) as nat)
                + " open order(s) whose last poll failed:"@,
        )
    } else {
        out
    };
    add_poll_line_spec(bad, out, bad.len())
}

fn poll_lines(rows: &Vec<Order>) -> (r: Vec<String>)
    ensures
        r.deep_view() == poll_lines_spec(rows.deep_view()),
{
    let bad = polled_badly(rows);
    let mut out: Vec<String> = list::none();
    if !(bad.len() == 0) {
        let mut line = text::owned("\n");
        line.push_str(text::dec_u64(bad.len() as u64).as_str());
        line.push_str(" open order(s) whose last poll failed:");
        list::push(&mut out, line);
    }
    out = add_poll_line(&bad, out);
    out
}

/// The first `n` of them.
pub open spec fn add_unswept_line_spec(
    xs: Seq<OrderView>,
    out: Seq<Seq<char>>,
    n: nat,
) -> Seq<Seq<char>> {
    out + Seq::new(
        n,
        |i: int| {
            let o = xs[i];
            "  "@
                + o.client_id
                + " "@
                + o.sym
                + " "@
                + pyfmt::fixed_spec(
                    match o.base {
                        Some(v) => v,
                        None => Double::zero_spec(),
                    },
                    6,
                )
                + " @ "@
                + pyfmt::fixed_spec(
                    match o.price {
                        Some(v) => v,
                        None => Double::zero_spec(),
                    },
                    6,
                )
        },
    )
}

fn add_unswept_line(xs: &Vec<Order>, out: Vec<String>) -> (r: Vec<String>)
    ensures
        r.deep_view() == add_unswept_line_spec(xs.deep_view(), out.deep_view(), xs@.len()),
{
    let ghost out0 = out.deep_view();
    let mut out = out;
    let mut i: usize = 0;
    while i < xs.len()
        invariant
            i <= xs@.len(),
            out.deep_view() == add_unswept_line_spec(xs.deep_view(), out0, i as nat),
        decreases xs@.len() - i,
    {
        let o = &xs[i];
        let mut line = text::owned("  ");
        line.push_str(o.client_id.as_str());
        line.push_str(" ");
        line.push_str(o.sym.as_str());
        line.push_str(" ");
        line.push_str(
            pyfmt::fixed(
                match o.base {
                    Some(v) => v,
                    None => Double::zero(),
                },
                6,
            ).as_str(),
        );
        line.push_str(" @ ");
        line.push_str(
            pyfmt::fixed(
                match o.price {
                    Some(v) => v,
                    None => Double::zero(),
                },
                6,
            ).as_str(),
        );
        list::push(&mut out, line);
        assert(out.deep_view() =~= add_unswept_line_spec(xs.deep_view(), out0, (i + 1) as nat));
        i = i + 1;
    }
    out
}

/// The orders the venue cancelled and whose cash is not laddered again, as they print.
pub open spec fn unswept_lines_spec(rows: Seq<OrderView>) -> Seq<Seq<char>> {
    let bad = journal::unswept_rows_spec(rows, None);
    let out = Seq::<Seq<char>>::empty();
    let out = if !(bad.len() == 0) {
        out.push(
            "\n"@
                + text::dec(((bad.len() as usize)) as nat)
                + " order(s) the venue cancelled, cash not re-laddered:"@,
        )
    } else {
        out
    };
    add_unswept_line_spec(bad, out, bad.len())
}

fn unswept_lines(rows: &Vec<Order>) -> (r: Vec<String>)
    ensures
        r.deep_view() == unswept_lines_spec(rows.deep_view()),
{
    let bad = journal::unswept_rows(rows, list::text_ref(&None));
    let mut out: Vec<String> = list::none();
    if !(bad.len() == 0) {
        let mut line = text::owned("\n");
        line.push_str(text::dec_u64(bad.len() as u64).as_str());
        line.push_str(" order(s) the venue cancelled, cash not re-laddered:");
        list::push(&mut out, line);
    }
    out = add_unswept_line(&bad, out);
    out
}

/// How the book stands, as `status` prints it.
pub open spec fn status_lines_spec(
    journal_file: Seq<char>,
    rows: Seq<OrderView>,
    halt_file: Seq<char>,
    halted: bool,
    now: Double,
) -> Seq<Seq<char>> {
    let day_ago = now.sub_spec(Double::int_spec(86400));
    let counted = journal::counted_rows_spec(rows, day_ago);
    let state = if halted {
        "PRESENT — trading stopped"@
    } else {
        "absent"@
    };
    let out = Seq::<Seq<char>>::empty().push("journal: "@ + journal_file).push(
        "open: "@
            + text::dec(((journal::open_rows_spec(rows, None).len() as usize)) as nat)
            + " · filled (24h): "@
            + text::dec(((journal::filled_rows_spec(rows, day_ago, false).len() as usize)) as nat)
            + " · placed today: "@
            + text::dec(((counted.len() as usize)) as nat)
            + " · notional today: "@
            + pyfmt::fixed_spec(journal::notional_of_spec(counted), 2),
    ).push(
        "halt file: "@ + halt_file + " ("@ + state + ")"@,
    );
    let out = out + poll_lines_spec(rows);
    out + unswept_lines_spec(rows)
}

/// How the book stands, as `status` prints it.
pub fn status_lines(
    journal_file: &str,
    rows: &Vec<Order>,
    halt_file: &str,
    halted: bool,
    now: Double,
) -> (r: Vec<String>)
    ensures
        r.deep_view() == status_lines_spec(
            journal_file@,
            rows.deep_view(),
            halt_file@,
            halted,
            now,
        ),
{
    let day_ago = now.minus(Double::of_int(86400));
    let counted = journal::counted_rows(rows, day_ago);
    let state = if halted {
        "PRESENT — trading stopped"
    } else {
        "absent"
    };
    let mut out: Vec<String> = list::none();
    let mut line = text::owned("journal: ");
    line.push_str(journal_file);
    list::push(&mut out, line);
    let mut line2 = text::owned("open: ");
    line2.push_str(
        text::dec_u64(journal::open_rows(rows, list::text_ref(&None)).len() as u64).as_str(),
    );
    line2.push_str(" · filled (24h): ");
    line2.push_str(
        text::dec_u64(journal::filled_rows(rows, day_ago, false).len() as u64).as_str(),
    );
    line2.push_str(" · placed today: ");
    line2.push_str(text::dec_u64(counted.len() as u64).as_str());
    line2.push_str(" · notional today: ");
    line2.push_str(pyfmt::fixed(journal::notional_of(&counted), 2).as_str());
    list::push(&mut out, line2);
    let mut line3 = text::owned("halt file: ");
    line3.push_str(halt_file);
    line3.push_str(" (");
    line3.push_str(state);
    line3.push_str(")");
    list::push(&mut out, line3);
    out = list::joined(out, poll_lines(rows));
    out = list::joined(out, unswept_lines(rows));
    out
}

/// The first `n` of them.
pub open spec fn add_resting_line_spec(
    xs: Seq<ParsedOrderView>,
    out: Seq<Seq<char>>,
    n: nat,
) -> Seq<Seq<char>> {
    out + Seq::new(
        n,
        |i: int| {
            let o = xs[i];
            resting_line_spec(o) + "  "@ + o.status + " ("@ + o.client_id + ")"@
        },
    )
}

fn add_resting_line(xs: &Vec<ParsedOrder>, out: Vec<String>) -> (r: Vec<String>)
    ensures
        r.deep_view() == add_resting_line_spec(xs.deep_view(), out.deep_view(), xs@.len()),
{
    let ghost out0 = out.deep_view();
    let mut out = out;
    let mut i: usize = 0;
    while i < xs.len()
        invariant
            i <= xs@.len(),
            out.deep_view() == add_resting_line_spec(xs.deep_view(), out0, i as nat),
        decreases xs@.len() - i,
    {
        let o = &xs[i];
        let mut line = resting_line(o);
        line.push_str("  ");
        line.push_str(o.status.as_str());
        line.push_str(" (");
        line.push_str(o.client_id.as_str());
        line.push_str(")");
        list::push(&mut out, line);
        assert(out.deep_view() =~= add_resting_line_spec(xs.deep_view(), out0, (i + 1) as nat));
        i = i + 1;
    }
    out
}

/// The orders that rest for a pair, as `status` prints them.
pub open spec fn resting_lines_spec(
    venue: Seq<char>,
    pair: Seq<char>,
    open: Seq<ParsedOrderView>,
) -> Seq<Seq<char>> {
    let out = Seq::<Seq<char>>::empty().push(
        "\nresting at "@
            + venue
            + " for "@
            + pair
            + ": "@
            + text::dec(((open.len() as usize)) as nat),
    );
    add_resting_line_spec(open, out, open.len())
}

/// The orders that rest for a pair, as `status` prints them.
pub fn resting_lines(venue: &str, pair: &str, open: &Vec<ParsedOrder>) -> (r: Vec<String>)
    ensures
        r.deep_view() == resting_lines_spec(venue@, pair@, open.deep_view()),
{
    let mut out: Vec<String> = list::none();
    let mut line = text::owned("\nresting at ");
    line.push_str(venue);
    line.push_str(" for ");
    line.push_str(pair);
    line.push_str(": ");
    line.push_str(text::dec_u64(open.len() as u64).as_str());
    list::push(&mut out, line);
    out = add_resting_line(open, out);
    out
}

/// A price, where it is known.
pub open spec fn price_or_unknown_spec(p: Option<Double>) -> Seq<char> {
    match p {
        Some(x) => pyfmt::fixed_spec(x, 8),
        None => "?"@,
    }
}

fn price_or_unknown(p: Option<Double>) -> (r: String)
    ensures
        r@ == price_or_unknown_spec(p),
{
    match p {
        Some(x) => pyfmt::fixed(x, 8),
        None => text::owned("?"),
    }
}

/// A fill, as it prints.
pub open spec fn fill_line_spec(o: OrderView) -> Seq<char> {
    let part = if match o.partial {
        Some(v) => v,
        None => false,
    } {
        " (part, then left the book)"@
    } else {
        ""@
    };
    "  filled"@
        + part
        + " "@
        + o.client_id
        + " "@
        + o.side
        + " "@
        + o.sym
        + " "@
        + pyfmt::fixed_spec(
            match o.filled_base {
                Some(v) => v,
                None => Double::zero_spec(),
            },
            8,
        )
        + " for "@
        + pyfmt::fixed_spec(
            match o.filled_quote {
                Some(v) => v,
                None => Double::zero_spec(),
            },
            2,
        )
        + " @ "@
        + price_or_unknown_spec(o.avg_price)
}

fn fill_line(o: &Order) -> (r: String)
    ensures
        r@ == fill_line_spec(o.deep_view()),
{
    let part = if match o.partial {
        Some(v) => v,
        None => false,
    } {
        " (part, then left the book)"
    } else {
        ""
    };
    let mut line = text::owned("  filled");
    line.push_str(part);
    line.push_str(" ");
    line.push_str(o.client_id.as_str());
    line.push_str(" ");
    line.push_str(o.side.as_str());
    line.push_str(" ");
    line.push_str(o.sym.as_str());
    line.push_str(" ");
    line.push_str(
        pyfmt::fixed(
            match o.filled_base {
                Some(v) => v,
                None => Double::zero(),
            },
            8,
        ).as_str(),
    );
    line.push_str(" for ");
    line.push_str(
        pyfmt::fixed(
            match o.filled_quote {
                Some(v) => v,
                None => Double::zero(),
            },
            2,
        ).as_str(),
    );
    line.push_str(" @ ");
    line.push_str(price_or_unknown(o.avg_price).as_str());
    line
}

/// The first `n` of them.
pub open spec fn add_fill_line_spec(
    xs: Seq<OrderView>,
    out: Seq<Seq<char>>,
    n: nat,
) -> Seq<Seq<char>> {
    out + Seq::new(
        n,
        |i: int| {
            let o = xs[i];
            fill_line_spec(o)
        },
    )
}

fn add_fill_line(xs: &Vec<Order>, out: Vec<String>) -> (r: Vec<String>)
    ensures
        r.deep_view() == add_fill_line_spec(xs.deep_view(), out.deep_view(), xs@.len()),
{
    let ghost out0 = out.deep_view();
    let mut out = out;
    let mut i: usize = 0;
    while i < xs.len()
        invariant
            i <= xs@.len(),
            out.deep_view() == add_fill_line_spec(xs.deep_view(), out0, i as nat),
        decreases xs@.len() - i,
    {
        let o = &xs[i];
        list::push(&mut out, fill_line(o));
        assert(out.deep_view() =~= add_fill_line_spec(xs.deep_view(), out0, (i + 1) as nat));
        i = i + 1;
    }
    out
}

/// And the first `n` of those.
pub open spec fn add_adopted_line_spec(
    xs: Seq<(OrderView, Double)>,
    out: Seq<Seq<char>>,
    n: nat,
) -> Seq<Seq<char>> {
    out + Seq::new(
        n,
        |i: int| {
            let it = xs[i];
            let o = it.0;
            let was = it.1;
            "  adopted "@
                + o.client_id
                + " onto venue order "@
                + (match o.order_id {
                    Some(v) => v,
                    None => ""@,
                })
                + " (was "@
                + pyfmt::fixed_spec(was, 2)
                + ", now "@
                + pyfmt::fixed_spec(
                    match o.quote {
                        Some(v) => v,
                        None => Double::zero_spec(),
                    },
                    2,
                )
                + ")"@
        },
    )
}

fn add_adopted_line(xs: &Vec<(Order, Double)>, out: Vec<String>) -> (r: Vec<String>)
    ensures
        r.deep_view() == add_adopted_line_spec(xs.deep_view(), out.deep_view(), xs@.len()),
{
    let ghost out0 = out.deep_view();
    let mut out = out;
    let mut i: usize = 0;
    while i < xs.len()
        invariant
            i <= xs@.len(),
            out.deep_view() == add_adopted_line_spec(xs.deep_view(), out0, i as nat),
        decreases xs@.len() - i,
    {
        let it = &xs[i];
        let o = &it.0;
        let was = it.1;
        let mut line = text::owned("  adopted ");
        line.push_str(o.client_id.as_str());
        line.push_str(" onto venue order ");
        line.push_str(
            (match o.order_id.dup() {
                Some(v) => v,
                None => text::owned(""),
            }).as_str(),
        );
        line.push_str(" (was ");
        line.push_str(pyfmt::fixed(was, 2).as_str());
        line.push_str(", now ");
        line.push_str(
            pyfmt::fixed(
                match o.quote {
                    Some(v) => v,
                    None => Double::zero(),
                },
                2,
            ).as_str(),
        );
        line.push_str(")");
        list::push(&mut out, line);
        assert(out.deep_view() =~= add_adopted_line_spec(xs.deep_view(), out0, (i + 1) as nat));
        i = i + 1;
    }
    out
}

/// What a reconcile found, as it prints: the fills, the rows adopted onto venue orders with what they were worth before, and the totals.
pub open spec fn reconcile_lines_spec(
    filled: Seq<OrderView>,
    adopted: Seq<(OrderView, Double)>,
    rows: Seq<OrderView>,
) -> Seq<Seq<char>> {
    let out = add_fill_line_spec(filled, Seq::<Seq<char>>::empty(), filled.len());
    let out = add_adopted_line_spec(adopted, out, adopted.len());
    out.push(
        "\nfilled "@
            + text::dec(((filled.len() as usize)) as nat)
            + " · adopted "@
            + text::dec(((adopted.len() as usize)) as nat)
            + " · poll errors "@
            + text::dec(((polled_badly_spec(rows).len() as usize)) as nat),
    )
}

/// What a reconcile found, as it prints: the fills, the rows adopted onto venue orders with what they were worth before, and the totals.
pub fn reconcile_lines(
    filled: &Vec<Order>,
    adopted: &Vec<(Order, Double)>,
    rows: &Vec<Order>,
) -> (r: Vec<String>)
    ensures
        r.deep_view() == reconcile_lines_spec(
            filled.deep_view(),
            adopted.deep_view(),
            rows.deep_view(),
        ),
{
    let mut out: Vec<String> = list::none();
    out = add_fill_line(filled, out);
    out = add_adopted_line(adopted, out);
    let mut line = text::owned("\nfilled ");
    line.push_str(text::dec_u64(filled.len() as u64).as_str());
    line.push_str(" · adopted ");
    line.push_str(text::dec_u64(adopted.len() as u64).as_str());
    line.push_str(" · poll errors ");
    line.push_str(text::dec_u64(polled_badly(rows).len() as u64).as_str());
    list::push(&mut out, line);
    out
}

/// What an archive run moved, as it prints.
pub open spec fn archive_line_spec(moved: usize, days: Double, archive: Seq<char>) -> Seq<char> {
    if moved == 0 {
        "nothing to archive"@
    } else {
        "archived "@
            + text::dec(moved as nat)
            + " finished cancel row(s) older than "@
            + pyfmt::plain_spec(days)
            + "d to "@
            + archive
    }
}

/// What an archive run moved, as it prints.
pub fn archive_line(moved: usize, days: Double, archive: &str) -> (r: String)
    ensures
        r@ == archive_line_spec(moved, days, archive@),
{
    if moved == 0 {
        return text::owned("nothing to archive");
    }
    let mut line = text::owned("archived ");
    line.push_str(text::dec_u64(moved as u64).as_str());
    line.push_str(" finished cancel row(s) older than ");
    line.push_str(pyfmt::plain(days).as_str());
    line.push_str("d to ");
    line.push_str(archive);
    line
}

/// Of the first `n` assets.
pub open spec fn add_funded_spec(
    xs: Seq<(Seq<char>, Balance)>,
    out: Seq<Seq<char>>,
    n: nat,
) -> Seq<Seq<char>> {
    out + list::gathered(
        xs,
        |it: (Seq<char>, Balance)| {
            let k = it.0;
            let x = it.1;
            if Double::zero_spec().lt_spec(x.free) || Double::zero_spec().lt_spec(x.locked) {
                Some(k)
            } else {
                None
            }
        },
        n,
    )
}

fn add_funded(xs: &Vec<(String, Balance)>, out: Vec<String>) -> (r: Vec<String>)
    ensures
        r.deep_view() == add_funded_spec(xs.deep_view(), out.deep_view(), xs@.len()),
{
    let ghost out0 = out.deep_view();
    let mut out = out;
    let mut i: usize = 0;
    while i < xs.len()
        invariant
            i <= xs@.len(),
            out.deep_view() == add_funded_spec(xs.deep_view(), out0, i as nat),
        decreases xs@.len() - i,
    {
        let it = &xs[i];
        let k = it.0.as_str();
        let x = it.1;
        if Double::zero().lt(x.free) || Double::zero().lt(x.locked) {
            list::push(&mut out, text::owned(k));
        }
        assert(out.deep_view() =~= add_funded_spec(xs.deep_view(), out0, (i + 1) as nat));
        i = i + 1;
    }
    out
}

/// How many assets there is a balance of.
pub open spec fn funded_spec(b: Seq<(Seq<char>, Balance)>) -> usize {
    let out = add_funded_spec(b, Seq::<Seq<char>>::empty(), b.len());
    (out.len() as usize)
}

/// How many assets there is a balance of.
pub fn funded(b: &Vec<(String, Balance)>) -> (r: usize)
    ensures
        r == funded_spec(b.deep_view()),
{
    let mut out: Vec<String> = list::none();
    out = add_funded(b, out);
    out.len()
}

/// What a key that was accepted can do, as `keys check` prints it.
pub open spec fn keys_lines_spec(venue: Seq<char>, b: Seq<(Seq<char>, Balance)>) -> Seq<Seq<char>> {
    let out = Seq::<Seq<char>>::empty().push("✓ "@ + venue + " accepted the key from this IP"@).push(
        "✓ it can read balances ("@
            + text::dec(funded_spec(b) as nat)
            + " assets with a balance)"@,
    ).push(
        ""@,
    ).push(
        "What this check cannot tell you: no venue here exposes a key's full"@,
    ).push(
        "permission set, so withdrawal scope cannot be verified from here."@,
    ).push(
        "Open the venue's API management page and confirm withdrawals are OFF."@,
    );
    if venue == "gate"@ {
        let out = out.push(""@);
        let out = out.push("If this key has no IP allowlist, Gate disables it 90 days after"@);
        out.push("creation, without telling you. Allowlisting also prevents that."@)
    } else {
        out
    }
}

/// What a key that was accepted can do, as `keys check` prints it.
pub fn keys_lines(venue: &str, b: &Vec<(String, Balance)>) -> (r: Vec<String>)
    ensures
        r.deep_view() == keys_lines_spec(venue@, b.deep_view()),
{
    let mut out: Vec<String> = list::none();
    let mut line = text::owned("✓ ");
    line.push_str(venue);
    line.push_str(" accepted the key from this IP");
    list::push(&mut out, line);
    let mut line2 = text::owned("✓ it can read balances (");
    line2.push_str(text::dec_u64(funded(b) as u64).as_str());
    line2.push_str(" assets with a balance)");
    list::push(&mut out, line2);
    list::push(&mut out, text::owned(""));
    list::push(
        &mut out,
        text::owned("What this check cannot tell you: no venue here exposes a key's full"),
    );
    list::push(
        &mut out,
        text::owned("permission set, so withdrawal scope cannot be verified from here."),
    );
    list::push(
        &mut out,
        text::owned("Open the venue's API management page and confirm withdrawals are OFF."),
    );
    if text::same(venue, "gate") {
        list::push(&mut out, text::owned(""));
        list::push(
            &mut out,
            text::owned("If this key has no IP allowlist, Gate disables it 90 days after"),
        );
        list::push(
            &mut out,
            text::owned("creation, without telling you. Allowlisting also prevents that."),
        );
    }
    out
}

/// That a key was not accepted.
pub open spec fn keys_refusal_spec(why: Seq<char>, hint: Option<Seq<char>>) -> Seq<char> {
    match hint {
        Some(h) => "✗ "@ + why + "\n  "@ + h,
        None => "✗ "@ + why,
    }
}

/// That a key was not accepted.
pub fn keys_refusal(why: &str, hint: Option<&str>) -> (r: String)
    ensures
        r@ == keys_refusal_spec(why@, hint.deep_view()),
{
    match hint {
        Some(h) => {
            let mut line = text::owned("✗ ");
            line.push_str(why);
            line.push_str("\n  ");
            line.push_str(h);
            line
        },
        None => {
            let mut line2 = text::owned("✗ ");
            line2.push_str(why);
            line2
        },
    }
}

/// What the deploy layer is asked to do.
#[derive(Debug)]
pub enum Layered {
    Status,
    Plan(Double),
    /// An amount, a venue, and the coins it is limited to.
    Tranche(Double, String, Option<Vec<String>>),
    /// A share in percent, a venue, a coin.
    Market(Double, String, String),
    /// One venue, or all.
    Cancel(Option<String>),
}

/// What a [`Layered`] says.
#[allow(inconsistent_fields)]
pub enum LayeredView {
    Status,
    Plan(Double),
    Tranche(Double, Seq<char>, Option<Seq<Seq<char>>>),
    Market(Double, Seq<char>, Seq<char>),
    Cancel(Option<Seq<char>>),
}

impl DeepView for Layered {
    type V = LayeredView;

    open spec fn deep_view(&self) -> LayeredView {
        match self {
            Layered::Status => LayeredView::Status,
            Layered::Plan(a) => LayeredView::Plan(*a),
            Layered::Tranche(a, b, c) => LayeredView::Tranche(*a, b@, c.deep_view()),
            Layered::Market(a, b, c) => LayeredView::Market(*a, b@, c@),
            Layered::Cancel(a) => LayeredView::Cancel(a.deep_view()),
        }
    }
}

/// How a deploy command is written.
pub open spec fn usage_of_spec(what: Seq<char>) -> Seq<char> {
    "usage: rungbot-exec deploy "@ + what
}

fn usage_of(what: &str) -> (r: String)
    ensures
        r@ == usage_of_spec(what@),
{
    let mut line = text::owned("usage: rungbot-exec deploy ");
    line.push_str(what);
    line
}

/// The number at a place.
pub open spec fn amount_at_spec(
    pos: Seq<Seq<char>>,
    k: usize,
    what: Seq<char>,
) -> Result<Double, Seq<char>> {
    match list::item(pos, k) {
        Some(s) => match crate::watch::pyfmt::number_or_word(s) {
            Some(x) => Ok(x),
            None => Err(what + ": "@ + float_error_spec(s)),
        },
        None => Err(usage_of_spec(what)),
    }
}

fn amount_at(pos: &Vec<String>, k: usize, what: &str) -> (r: Result<Double, String>)
    ensures
        list::outcome(r) == amount_at_spec(pos.deep_view(), k, what@),
{
    match list::str_ref(list::at(pos, k)) {
        Some(s) => match crate::watch::pyfmt::read_number_or_word(s) {
            Some(x) => Ok(x),
            None => {
                let mut line = text::owned(what);
                line.push_str(": ");
                line.push_str(float_error(s).as_str());
                Err(line)
            },
        },
        None => Err(usage_of(what)),
    }
}

/// The first `n` of them.
pub open spec fn add_capital_spec(
    xs: Seq<Seq<char>>,
    out: Seq<Seq<char>>,
    n: nat,
) -> Seq<Seq<char>> {
    out + Seq::new(
        n,
        |i: int| {
            let p = xs[i];
            text::upper_case(text::trim(p))
        },
    )
}

fn add_capital(xs: &Vec<String>, out: Vec<String>) -> (r: Vec<String>)
    ensures
        r.deep_view() == add_capital_spec(xs.deep_view(), out.deep_view(), xs@.len()),
{
    let ghost out0 = out.deep_view();
    let mut out = out;
    let mut i: usize = 0;
    while i < xs.len()
        invariant
            i <= xs@.len(),
            out.deep_view() == add_capital_spec(xs.deep_view(), out0, i as nat),
        decreases xs@.len() - i,
    {
        let p = xs[i].as_str();
        list::push(&mut out, text::uppercase(text::trimmed(p).as_str()));
        assert(out.deep_view() =~= add_capital_spec(xs.deep_view(), out0, (i + 1) as nat));
        i = i + 1;
    }
    out
}

/// The parts of a list, in capitals.
pub open spec fn capital_parts_spec(s: Seq<char>) -> Seq<Seq<char>> {
    add_capital_spec(text::split(s, ','), Seq::<Seq<char>>::empty(), text::split(s, ',').len())
}

fn capital_parts(s: &str) -> (r: Vec<String>)
    ensures
        r.deep_view() == capital_parts_spec(s@),
{
    let mut out: Vec<String> = list::none();
    out = add_capital(&list::split(s, ','), out);
    out
}

/// The coins a tranche is limited to.
pub open spec fn only_coins_spec(argv: Seq<Seq<char>>) -> Option<Seq<Seq<char>>> {
    match flag_value_spec(argv, "--only"@) {
        Some(v) => Some(capital_parts_spec(v)),
        None => None,
    }
}

fn only_coins(argv: &Vec<String>) -> (r: Option<Vec<String>>)
    ensures
        r.deep_view() == only_coins_spec(argv.deep_view()),
{
    let v = match flag_value(argv, "--only") {
        Some(v) => v,
        None => {
            return None;
        },
    };
    Some(capital_parts(v.as_str()))
}

/// The amount of a zone plan.
pub open spec fn plan_amount_spec(pos: Seq<Seq<char>>) -> Result<Double, Seq<char>> {
    match list::item(pos, 1) {
        Some(s) => match crate::watch::pyfmt::number_or_word(s) {
            Some(x) => Ok(x),
            None => Err("plan: "@ + float_error_spec(s)),
        },
        None => Ok(Double::int_spec(100)),
    }
}

fn plan_amount(pos: &Vec<String>) -> (r: Result<Double, String>)
    ensures
        list::outcome(r) == plan_amount_spec(pos.deep_view()),
{
    match list::str_ref(list::at(pos, 1)) {
        Some(s) => match crate::watch::pyfmt::read_number_or_word(s) {
            Some(x) => Ok(x),
            None => {
                let mut line = text::owned("plan: ");
                line.push_str(float_error(s).as_str());
                Err(line)
            },
        },
        None => Ok(Double::of_int(100)),
    }
}

/// A tranche.
pub open spec fn tranche_of_spec(
    argv: Seq<Seq<char>>,
    pos: Seq<Seq<char>>,
) -> Result<LayeredView, Seq<char>> {
    let usage = "tranche <usd> <binance|gate|revx> [--only A,B]"@;
    match amount_at_spec(pos, 1, usage) {
        Ok(b) => match list::item(pos, 2) {
            Some(v) => Ok(LayeredView::Tranche(b, v, only_coins_spec(argv))),
            None => Err(usage_of_spec(usage)),
        },
        Err(e) => Err(e),
    }
}

fn tranche_of(argv: &Vec<String>, pos: &Vec<String>) -> (r: Result<Layered, String>)
    ensures
        list::outcome(r) == tranche_of_spec(argv.deep_view(), pos.deep_view()),
{
    let usage = "tranche <usd> <binance|gate|revx> [--only A,B]";
    let b = match amount_at(pos, 1, usage) {
        Ok(v) => v,
        Err(e) => {
            return Err(e);
        },
    };
    match list::str_ref(list::at(pos, 2)) {
        Some(v) => Ok(Layered::Tranche(b, text::owned(v), only_coins(argv))),
        None => Err(usage_of(usage)),
    }
}

/// A market buy.
pub open spec fn market_of_spec(pos: Seq<Seq<char>>) -> Result<LayeredView, Seq<char>> {
    let usage = "market <share%> <binance|gate|revx> <SYM>"@;
    match amount_at_spec(pos, 1, usage) {
        Ok(share) => match list::item(pos, 2) {
            Some(v) => match list::item(pos, 3) {
                Some(s) => Ok(LayeredView::Market(share, v, text::upper_case(s))),
                None => Err(usage_of_spec(usage)),
            },
            None => Err(usage_of_spec(usage)),
        },
        Err(e) => Err(e),
    }
}

fn market_of(pos: &Vec<String>) -> (r: Result<Layered, String>)
    ensures
        list::outcome(r) == market_of_spec(pos.deep_view()),
{
    let usage = "market <share%> <binance|gate|revx> <SYM>";
    let share = match amount_at(pos, 1, usage) {
        Ok(v) => v,
        Err(e) => {
            return Err(e);
        },
    };
    match list::str_ref(list::at(pos, 2)) {
        Some(v) => match list::str_ref(list::at(pos, 3)) {
            Some(s) => Ok(Layered::Market(share, text::owned(v), text::uppercase(s))),
            None => Err(usage_of(usage)),
        },
        None => Err(usage_of(usage)),
    }
}

/// The venue whose zones are cancelled.
pub open spec fn cancelled_venue_spec(pos: Seq<Seq<char>>) -> Option<Seq<char>> {
    match list::item(pos, 1) {
        Some(v) => if v == "binance"@ || v == "gate"@ || v == "revx"@ {
            Some(v)
        } else {
            None
        },
        None => None,
    }
}

fn cancelled_venue(pos: &Vec<String>) -> (r: Option<String>)
    ensures
        r.deep_view() == cancelled_venue_spec(pos.deep_view()),
{
    let v = match list::str_ref(list::at(pos, 1)) {
        Some(v) => v,
        None => {
            return None;
        },
    };
    if text::same(v, "binance") || text::same(v, "gate") || text::same(v, "revx") {
        return Some(text::owned(v));
    }
    None
}

/// What the deploy layer is asked to do.
pub open spec fn layered_spec(argv: Seq<Seq<char>>) -> Result<LayeredView, Seq<char>> {
    let pos = positionals_spec(argv);
    let sub = match list::item(pos, 0) {
        Some(v) => v,
        None => ""@,
    };
    if sub == "status"@ {
        Ok(LayeredView::Status)
    } else if sub == "plan"@ {
        match plan_amount_spec(pos) {
            Ok(b) => Ok(LayeredView::Plan(b)),
            Err(e) => Err(e),
        }
    } else if sub == "tranche"@ {
        tranche_of_spec(argv, pos)
    } else if sub == "market"@ {
        market_of_spec(pos)
    } else if sub == "cancel"@ {
        Ok(LayeredView::Cancel(cancelled_venue_spec(pos)))
    } else {
        Err(
            "usage: rungbot-exec deploy status | plan [USD] | tranche USD VENUE [--only A,B] | market SHARE% VENUE SYM | cancel [VENUE]"@,
        )
    }
}

/// What the deploy layer is asked to do.
pub fn layered(argv: &Vec<String>) -> (r: Result<Layered, String>)
    ensures
        list::outcome(r) == layered_spec(argv.deep_view()),
{
    let pos = positionals(argv);
    let sub = match list::str_ref(list::at(&pos, 0)) {
        Some(v) => v,
        None => "",
    };
    if text::same(sub, "status") {
        return Ok(Layered::Status);
    }
    if text::same(sub, "plan") {
        let b = match plan_amount(&pos) {
            Ok(v) => v,
            Err(e) => {
                return Err(e);
            },
        };
        return Ok(Layered::Plan(b));
    }
    if text::same(sub, "tranche") {
        return tranche_of(argv, &pos);
    }
    if text::same(sub, "market") {
        return market_of(&pos);
    }
    if text::same(sub, "cancel") {
        return Ok(Layered::Cancel(cancelled_venue(&pos)));
    }
    Err(
        text::owned(
            "usage: rungbot-exec deploy status | plan [USD] | tranche USD VENUE [--only A,B] | market SHARE% VENUE SYM | cancel [VENUE]",
        ),
    )
}

/// Whether a deploy command writes the journal.
pub open spec fn takes_lock_spec(argv: Seq<Seq<char>>) -> bool {
    let pos = positionals_spec(argv);
    let sub = match list::item(pos, 0) {
        Some(v) => v,
        None => ""@,
    };
    sub == "tranche"@ || sub == "market"@ || sub == "cancel"@
}

/// Whether a deploy command writes the journal.
pub fn takes_lock(argv: &Vec<String>) -> (r: bool)
    ensures
        r == takes_lock_spec(argv.deep_view()),
{
    let pos = positionals(argv);
    let sub = match list::str_ref(list::at(&pos, 0)) {
        Some(v) => v,
        None => "",
    };
    text::same(sub, "tranche") || text::same(sub, "market") || text::same(sub, "cancel")
}

/// Why a text is no whole number that fits.
pub open spec fn whole_error_spec(s: Seq<char>) -> Seq<char> {
    if s == ""@ {
        "cannot parse integer from empty string"@
    } else {
        "invalid digit found in string"@
    }
}

fn whole_error(s: &str) -> (r: String)
    ensures
        r@ == whole_error_spec(s@),
{
    if text::same(s, "") {
        return text::owned("cannot parse integer from empty string");
    }
    text::owned("invalid digit found in string")
}

/// The first `n` of them.
pub open spec fn add_horizon_spec(
    xs: Seq<Seq<char>>,
    out: Seq<usize>,
    fault: Option<Seq<char>>,
    n: nat,
) -> (Seq<usize>, Option<Seq<char>>)
    decreases n,
{
    if n == 0 {
        (out, fault)
    } else {
        let (out, fault) = add_horizon_spec(xs, out, fault, (n - 1) as nat);
        let p = xs[n - 1];
        if fault is None {
            match read_size_spec(text::trim(p)) {
                Some(x) => (out.push(x), fault),
                None => (out, Some("--horizons: "@ + whole_error_spec(text::trim(p)))),
            }
        } else {
            (out, fault)
        }
    }
}

fn add_horizon(
    xs: &Vec<String>,
    out: Vec<usize>,
    fault: Option<String>,
) -> (r: (Vec<usize>, Option<String>))
    ensures
        r.deep_view() == add_horizon_spec(
            xs.deep_view(),
            out.deep_view(),
            fault.deep_view(),
            xs@.len(),
        ),
{
    let ghost out0 = out.deep_view();
    let ghost fault0 = fault.deep_view();
    let mut out = out;
    let mut fault = fault;
    let mut i: usize = 0;
    while i < xs.len()
        invariant
            i <= xs@.len(),
            (out.deep_view(), fault.deep_view()) == add_horizon_spec(
                xs.deep_view(),
                out0,
                fault0,
                i as nat,
            ),
        decreases xs@.len() - i,
    {
        let p = xs[i].as_str();
        if fault.is_none() {
            match read_size(text::trimmed(p).as_str()) {
                Some(x) => {
                    list::push(&mut out, x);
                },
                None => {
                    let mut line = text::owned("--horizons: ");
                    line.push_str(whole_error(text::trimmed(p).as_str()).as_str());
                    fault = Some(line);
                },
            }
        }
        i = i + 1;
    }
    (out, fault)
}

/// The horizons that fill odds are asked for.
pub open spec fn horizons_spec(argv: Seq<Seq<char>>) -> Result<Seq<usize>, Seq<char>> {
    let out = Seq::<usize>::empty();
    let fault: Option<Seq<char>> = None;
    let (out, fault) = match flag_value_spec(argv, "--horizons"@) {
        Some(h) => add_horizon_spec(text::split(h, ','), out, fault, text::split(h, ',').len()),
        None => {
            let out = out.push(30);
            (out.push(90), fault)
        },
    };
    match fault {
        Some(e) => Err(e),
        None => Ok(out),
    }
}

/// The horizons that fill odds are asked for.
pub fn horizons(argv: &Vec<String>) -> (r: Result<Vec<usize>, String>)
    ensures
        list::outcome(r) == horizons_spec(argv.deep_view()),
{
    let mut out: Vec<usize> = list::none();
    let mut fault: Option<String> = None;
    match flag_value(argv, "--horizons") {
        Some(h) => {
            let (next_out, next_fault) = add_horizon(&list::split(h.as_str(), ','), out, fault);
            out = next_out;
            fault = next_fault;
        },
        None => {
            list::push(&mut out, 30);
            list::push(&mut out, 90);
        },
    }
    match fault {
        Some(e) => Err(e),
        None => Ok(out),
    }
}

/// The days that churn is asked for.
pub open spec fn churn_days_spec(argv: Seq<Seq<char>>) -> Result<i64, Seq<char>> {
    match flag_value_spec(argv, "--days"@) {
        Some(d) => match read_days_spec(d) {
            Some(x) => Ok(x),
            None => Err("--days: "@ + whole_error_spec(d)),
        },
        None => Ok(7),
    }
}

/// The days that churn is asked for.
pub fn churn_days(argv: &Vec<String>) -> (r: Result<i64, String>)
    ensures
        list::outcome(r) == churn_days_spec(argv.deep_view()),
{
    match flag_value(argv, "--days") {
        Some(d) => match decimal::read_i64(d.as_str()) {
            Some(x) => Ok(x),
            None => {
                let mut line = text::owned("--days: ");
                line.push_str(whole_error(d.as_str()).as_str());
                Err(line)
            },
        },
        None => Ok(7),
    }
}

impl Args {
    pub fn parse(argv: &Vec<String>) -> (r: Result<Args, String>)
        ensures
            list::outcome(r) == parse_args_spec(argv.deep_view()),
    {
        parse_args(argv)
    }

    pub fn has(&self, k: &str) -> (r: bool)
        ensures
            r == flag_of_spec(self.deep_view(), k@) is Some,
    {
        has_flag(self, k)
    }

    pub fn get(&self, k: &str) -> (r: Option<String>)
        ensures
            r.deep_view() == flag_of_spec(self.deep_view(), k@),
    {
        flag_of(self, k)
    }

    pub fn num(&self, k: &str, default: Double) -> (r: Result<Double, String>)
        ensures
            list::outcome(r) == number_flag_spec(self.deep_view(), k@, default),
    {
        number_flag(self, k, default)
    }
}

/// Without a journal row under its id nothing is sent: an order is asked to be placed only once the
/// journal, with its row in it, was asked to be written.
pub proof fn law_an_order_is_journaled_before_it_is_sent(
    w: WorkView,
    p: PlannedView,
    row: OrderView,
    answers: Seq<AnswerView>,
)
    requires
        w.ask is None,
        w.fault is None,
        w.at >= answers.len(),
    ensures
        sent_spec(w, p, row, answers).ask == Some(
            AskView::Save(journal::put_row_spec(w.journal, row)),
        ),
{
}

/// An order that is journaled already is never asked to be placed again.
pub proof fn law_a_journaled_order_is_not_sent_again(
    w: WorkView,
    p: PlannedView,
    exch: Seq<char>,
    acknowledged: bool,
    caps: Caps,
    day_ago: Double,
    ts: Double,
    answers: Seq<AnswerView>,
)
    requires
        w.ask is None,
        w.fault is None,
        w.at < answers.len(),
        w.at < usize::MAX,
        answers[w.at as int] == AnswerView::Time(ts),
        journal::has_row_spec(w.journal, planned_cid_spec(p, ts)),
    ensures
        sync_one_spec(w, p, exch, acknowledged, caps, day_ago, answers).ask is None,
        sync_one_spec(w, p, exch, acknowledged, caps, day_ago, answers).journal == w.journal,
{
}

/// While the halt file is there the rails refuse every order, and the run ends with the first.
pub proof fn law_halted_places_nothing(
    w: WorkView,
    p: PlannedView,
    exch: Seq<char>,
    acknowledged: bool,
    caps: Caps,
    day_ago: Double,
    cid: Seq<char>,
    ts: Double,
    answers: Seq<AnswerView>,
)
    requires
        w.ask is None,
        w.fault is None,
        w.at < answers.len(),
        w.at < usize::MAX,
        answers[w.at as int] == AnswerView::Flag(true),
    ensures
        railed_spec(w, p, exch, acknowledged, caps, day_ago, cid, ts, answers).ask is None,
        railed_spec(w, p, exch, acknowledged, caps, day_ago, cid, ts, answers).journal == w.journal,
        railed_spec(w, p, exch, acknowledged, caps, day_ago, cid, ts, answers).stop,
{
}

/// Without both flags a cancel touches nothing: it asks for nothing and leaves the journal as it is.
pub proof fn law_an_unconfirmed_cancel_touches_nothing(
    a: ArgsView,
    pair: Seq<char>,
    exch: Seq<char>,
    open: Seq<ParsedOrderView>,
    rows: Seq<(Seq<char>, OrderView)>,
    answers: Seq<AnswerView>,
)
    requires
        flag_of_spec(a, "live"@) is None || flag_of_spec(a, "i-understand"@) is None,
    ensures
        cancel_spec(a, pair, exch, open, rows, answers).ask is None,
        cancel_spec(a, pair, exch, open, rows, answers).journal == rows,
{
    let w = begun_spec(rows);
    let w1 = said_spec(
        w,
        text::dec(((open.len() as usize)) as nat) + " resting order(s) for "@ + pair + ":"@,
    );
    lemma_preview(open, w1, open.len());
}

proof fn lemma_preview(open: Seq<ParsedOrderView>, w: WorkView, n: nat)
    requires
        n <= open.len(),
    ensures
        preview_orders_spec(open, w, n).ask == w.ask,
        preview_orders_spec(open, w, n).journal == w.journal,
    decreases n,
{
    if n > 0 {
        lemma_preview(open, w, (n - 1) as nat);
    }
}

proof fn lemma_flags(name: Seq<char>, xs: Seq<(Seq<char>, Seq<char>)>, ys: Seq<(Seq<char>, Seq<char>)>, n: nat)
    requires
        n <= xs.len(),
        n <= ys.len(),
        forall|i: int| 0 <= i < n ==> xs[i] == ys[i],
    ensures
        find_flag_spec(name, xs, None, n) == find_flag_spec(name, ys, None, n),
    decreases n,
{
    if n > 0 {
        lemma_flags(name, xs, ys, (n - 1) as nat);
    }
}

/// A flag given twice counts as it was given last, and leaves every other flag as it was.
pub proof fn law_the_last_flag_wins(a: ArgsView, name: Seq<char>, v: Seq<char>, other: Seq<char>)
    ensures
        flag_of_spec(ArgsView { flags: a.flags.push((name, v)), ..a }, name) == Some(v),
        other != name ==> flag_of_spec(ArgsView { flags: a.flags.push((name, v)), ..a }, other)
            == flag_of_spec(a, other),
{
    let w = a.flags.push((name, v));
    lemma_flags(name, a.flags, w, a.flags.len());
    lemma_flags(other, a.flags, w, a.flags.len());
}

proof fn lemma_planned(
    budget: Double,
    key: Seq<char>,
    kind: Seq<char>,
    map: Seq<(Seq<char>, Seq<char>)>,
    side: Side,
    xs: Seq<Doc>,
    n: nat,
)
    requires
        n <= xs.len(),
    ensures
        ({
            let (out, fault) = add_planned_spec(
                budget,
                key,
                kind,
                map,
                side,
                xs,
                Seq::empty(),
                None,
                n,
            );
            fault is None ==> {
                &&& out.len() == n
                &&& forall|i: int|
                    0 <= i < n ==> planned_order_spec(xs[i], key, side, kind, map, budget) == Ok::<
                        PlannedView,
                        Seq<char>,
                    >(#[trigger] out[i])
            }
        }),
    decreases n,
{
    if n > 0 {
        lemma_planned(budget, key, kind, map, side, xs, (n - 1) as nat);
    }
}

/// A plan is taken whole or not at all: where its orders are read there is one for every entry, in
/// the plan's order, each as that entry alone reads.
pub proof fn law_a_plan_is_taken_whole(
    plan: Doc,
    key: Seq<char>,
    side: Side,
    kind: Seq<char>,
    map: Seq<(Seq<char>, Seq<char>)>,
    budget: Double,
    i: int,
)
    requires
        planned_side_spec(plan, key, side, kind, map, budget) is Ok,
        plan.get_or_null(key) is Arr,
        0 <= i < plan.get_or_null(key).items().len(),
    ensures
        ({
            let xs = plan.get_or_null(key).items();
            let out = planned_side_spec(plan, key, side, kind, map, budget)->Ok_0;
            &&& out.len() == xs.len()
            &&& planned_order_spec(xs[i], key, side, kind, map, budget) == Ok::<
                PlannedView,
                Seq<char>,
            >(out[i])
        }),
{
    let xs = plan.get_or_null(key).items();
    lemma_planned(budget, key, kind, map, side, xs, xs.len());
}

/// An entry of a plan is for its percentage of the budget.
pub proof fn law_an_entry_gets_its_percentage(
    t: Doc,
    key: Seq<char>,
    side: Side,
    kind: Seq<char>,
    map: Seq<(Seq<char>, Seq<char>)>,
    budget: Double,
    pct: Double,
)
    requires
        t.get_or_null("pct"@).num() == Some(pct),
        budget.finite(),
        pct.finite(),
        budget.amount() >= 0,
        pct.amount() >= 0,
    ensures
        planned_order_spec(t, key, side, kind, map, budget) matches Ok(p) ==> {
            &&& p.quote.finite() ==> rounding::in_proportion(
                p.quote,
                budget,
                pct,
                Double::int_spec(100),
            )
            &&& Double::int_spec(100).amount() == 100 * crate::double::unit()
            &&& p.side == side
            &&& p.kind == kind
        },
{
    rounding::lemma_whole_is_exact(100);
    vstd::arithmetic::power2::lemma_pow2_pos(1074);
    if budget.mul_spec(pct).div_spec(Double::int_spec(100)).finite() {
        rounding::lemma_proportion(budget, pct, Double::int_spec(100));
    }
}

/// An order is for as much of the coin as its quote buys at its price: the two multiply to the quote,
/// but for rounding.
pub proof fn law_an_order_buys_its_quote_at_its_price(p: PlannedView)
    requires
        p.price.finite(),
        p.quote.finite(),
        p.price.amount() > 0,
        p.quote.amount() >= 0,
        base_of_spec(p).finite(),
    ensures
        rounding::grain() * rounding::size(
            base_of_spec(p).amount() * p.price.amount() - p.quote.amount() * crate::double::unit(),
        ) <= p.price.amount() * (rounding::size(base_of_spec(p).amount()) + rounding::least()),
{
    crate::double::lemma_scaled_zero();
    rounding::lemma_div_error(p.quote, p.price);
}

/// An order fits its venue exactly where amount and price are above zero, the amount is not under the
/// least amount, and the value not under the least value.
pub proof fn law_an_order_over_the_minimums_fits(
    pair: Seq<char>,
    limits: Limits,
    amount: Double,
    price: Double,
    worth: Double,
)
    requires
        amount.finite(),
        price.finite(),
        limits.min_base.finite(),
        limits.min_quote.finite(),
        worth.finite(),
        worth.amount() * crate::double::unit() == amount.amount() * price.amount(),
    ensures
        fit_spec(pair, limits, amount, price) is None <==> {
            &&& amount.amount() > 0
            &&& price.amount() > 0
            &&& amount.amount() >= limits.min_base.amount()
            &&& worth.amount() >= limits.min_quote.amount()
        },
{
    crate::double::lemma_scaled_zero();
    rounding::lemma_exact_product(amount, price, worth);
}

} // verus!
