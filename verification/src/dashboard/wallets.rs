//! `wallets.json`: self-custody holdings and staking, and the "start unbonding" alert.
//!
//! Read-only: public chain APIs, no keys. A wallet whose read fails keeps its last good
//! reading, marked `stale`; one that never read is left out. Staked coins take days to
//! unlock, so the alert fires while price is still inside a lead band below the coin's
//! first sell tranche (`wallet_tranche_x` times the bot's cost, or a manual target),
//! sized to the coin's unbonding time. Coins the sell policy only trails also need a
//! confirmed bull. One alert per crossing; it re-arms once price falls back
//! `wallet_rearm_pct` under the trigger.
//!
//! Nothing here reads a chain: a run is a function of the [`Answer`]s it has had so far, and
//! either waits for the next one or is finished.
use crate::dashboard;
use crate::dashboard::{BtcWallet, BtcWalletView, CosmosWallet, CosmosWalletView, DashConfig, DashConfigView, Leg, LegView, Num, VaultWallet, VaultWalletView, WalletKnobs, WalletKnobsView, WalletSpec, WalletSpecView};
use crate::dashboard::net;
use crate::decimal;
use crate::double::Double;
use crate::http::{Request, RequestView};
use crate::ids;
use crate::list;
use crate::list::Duplicate;
use crate::pyfmt;
use crate::rounding;
use crate::text;
use crate::watch::json;
use crate::watch::json::{Doc, Json};
use vstd::prelude::*;

verus! {

/// A sum, held to the range of `i128`.
pub open spec fn wide_plus_spec(a: i128, b: i128) -> i128 {
    if a + b > i128::MAX {
        i128::MAX
    } else if a + b < i128::MIN {
        i128::MIN
    } else {
        (a + b) as i128
    }
}

fn wide_plus(a: i128, b: i128) -> (r: i128)
    ensures
        r == wide_plus_spec(a, b),
{
    if b > 0 && a > i128::MAX - b {
        i128::MAX
    } else if b < 0 && a < i128::MIN - b {
        i128::MIN
    } else {
        a + b
    }
}

/// The whole number a text spells, underscores between its digits aside.
pub open spec fn read_wide_spec(s: Seq<char>) -> Option<i128> {
    match text::ungrouped(s) {
        Some(t) => match decimal::whole_within(t, i128::MIN as int, i128::MAX as int) {
            Some(v) => Some(v as i128),
            None => None,
        },
        None => None,
    }
}

fn read_wide(s: &str) -> (r: Option<i128>)
    ensures
        r == read_wide_spec(s@),
{
    match text::ungroup(s) {
        Some(t) => decimal::read_i128(t.as_str()),
        None => None,
    }
}

/// A whole number divided by a power of ten, rounded to nearest.
pub open spec fn wide_over_spec(v: i128, dec: u32) -> Double {
    match decimal::number_of(text::dec_int(v as int) + "e-"@ + text::dec(dec as nat)) {
        Some(x) => x,
        None => Double::zero_spec(),
    }
}

fn wide_over(v: i128, dec: u32) -> (r: Double)
    ensures
        r == wide_over_spec(v, dec),
{
    let mut t = text::dec_i128(v);
    t.push_str("e-");
    t.push_str(text::dec_u64(dec as u64).as_str());
    let c = text::chars_of(t.as_str());
    match decimal::read_number(&c) {
        Some(x) => x,
        None => Double::zero(),
    }
}

/// `s` without a prefix, however often it stands there.
pub open spec fn strip_all_spec(s: Seq<char>, p: Seq<char>) -> Seq<char>
    decreases s.len(),
{
    if p.len() > 0 && text::begins(s, p) {
        strip_all_spec(s.skip(p.len() as int), p)
    } else {
        s
    }
}

fn strip_all(s: &str, p: &str) -> (r: String)
    ensures
        r@ == strip_all_spec(s@, p@),
    decreases s@.len(),
{
    let w: usize = p.unicode_len();
    if w > 0 && text::begins_with(s, p) {
        let v = text::chars_of(s);
        let rest = text::slice_of(&v, w, v.len());
        assert(rest@ =~= s@.skip(w as int));
        strip_all(rest.as_str(), p)
    } else {
        text::owned(s)
    }
}

/// The number that the first `n` hexadecimal digits of a text spell.
pub open spec fn hex_number(s: Seq<char>, n: nat) -> nat
    decreases n,
{
    if n == 0 {
        0
    } else {
        hex_number(s, (n - 1) as nat) * 16 + ids::hex_value(s[n - 1]) as nat
    }
}

/// Whether a text is made of hexadecimal digits.
pub open spec fn all_hex(s: Seq<char>) -> bool {
    forall|i: int| 0 <= i < s.len() ==> ids::is_hex(#[trigger] s[i])
}

/// The number hexadecimal digits spell, in units of which 10^18 make a coin; none where there is
/// another character or it takes more than 128 bits.
pub open spec fn digits_units(t: Seq<char>) -> Option<Double> {
    if all_hex(t) && hex_number(t, t.len()) <= u128::MAX {
        Some(
            Double::int_spec(hex_number(t, t.len()) as int).div_spec(
                Double::int_spec(1_000_000_000_000_000_000),
            ),
        )
    } else {
        None
    }
}

/// What a text spells, a sign in front allowed.
pub open spec fn hex_units_spec(s: Seq<char>) -> Option<Double> {
    digits_units(
        if s.len() > 1 && s[0] == '+' {
            s.skip(1)
        } else {
            s
        },
    )
}

proof fn lemma_hex_grows(s: Seq<char>, k: nat, n: nat)
    requires
        k <= n,
    ensures
        hex_number(s, k) <= hex_number(s, n),
    decreases n,
{
    if k < n {
        lemma_hex_grows(s, k, (n - 1) as nat);
    }
}

fn hex_digit(c: char) -> (r: Option<u32>)
    ensures
        match r {
            Some(d) => ids::is_hex(c) && d == ids::hex_value(c) && d < 16,
            None => !ids::is_hex(c),
        },
{
    if '0' <= c && c <= '9' {
        Some(c as u32 - 48)
    } else if 'a' <= c && c <= 'f' {
        Some(c as u32 - 87)
    } else if 'A' <= c && c <= 'F' {
        Some(c as u32 - 55)
    } else {
        None
    }
}

fn hex_units(s: &str) -> (r: Option<Double>)
    ensures
        r == hex_units_spec(s@),
{
    let v = text::chars_of(s);
    let from: usize = if v.len() > 1 && v[0] == '+' {
        1
    } else {
        0
    };
    let bare = text::slice_of(&v, from, v.len());
    let t = text::chars_of(bare.as_str());
    assert(t@ =~= if s@.len() > 1 && s@[0] == '+' {
        s@.skip(1)
    } else {
        s@
    });
    let unit = Double::of_int(1_000_000_000_000_000_000);
    let mut n: u128 = 0;
    let mut i: usize = 0;
    while i < t.len()
        invariant
            i <= t@.len(),
            hex_units_spec(s@) == digits_units(t@),
            forall|k: int| 0 <= k < i ==> ids::is_hex(#[trigger] t@[k]),
            n == hex_number(t@, i as nat),
        decreases t@.len() - i,
    {
        match hex_digit(t[i]) {
            Some(d) => {
                proof {
                    lemma_hex_grows(t@, (i + 1) as nat, t@.len());
                }
                if n > 0x0fff_ffff_ffff_ffff_ffff_ffff_ffff_ffff {
                    return None;
                }
                n = n * 16 + d as u128;
            },
            None => {
                assert(!ids::is_hex(t@[i as int]));
                return None;
            },
        }
        i = i + 1;
    }
    Some(Double::of_u128(n).over(unit))
}

/// A text with zeros in front of it, up to 64 characters.
pub open spec fn zero_filled_spec(s: Seq<char>) -> Seq<char> {
    if s.len() < 64 {
        text::times('0', (64 - s.len()) as nat) + s
    } else {
        s
    }
}

fn zero_filled(s: &str) -> (r: String)
    ensures
        r@ == zero_filled_spec(s@),
{
    let w: usize = s.unicode_len();
    if w < 64 {
        let mut r = text::repeated('0', 64 - w);
        r.push_str(s);
        r
    } else {
        text::owned(s)
    }
}

/// A text behind its first two characters.
pub open spec fn after_two_spec(s: Seq<char>) -> Seq<char> {
    if s.len() >= 2 {
        s.skip(2)
    } else {
        Seq::empty()
    }
}

fn after_two(s: &str) -> (r: String)
    ensures
        r@ == after_two_spec(s@),
{
    let v = text::chars_of(s);
    if v.len() >= 2 {
        let r = text::slice_of(&v, 2, v.len());
        assert(r@ =~= s@.skip(2));
        r
    } else {
        let r = String::new();
        assert(r@ =~= Seq::empty());
        r
    }
}

/// What a run needs to know or to have done next.
#[derive(Debug)]
pub enum Ask {
    /// A public read: the address, and the body where something is posted.
    Fetch(String, Option<String>),
    /// Wait some seconds.
    Sleep(Double),
    /// The time.
    Now,
    /// The time, as text.
    Stamp,
}

/// What a [`Ask`] says.
#[allow(inconsistent_fields)]
pub enum AskView {
    Fetch(Seq<char>, Option<Seq<char>>),
    Sleep(Double),
    Now,
    Stamp,
}

impl DeepView for Ask {
    type V = AskView;

    open spec fn deep_view(&self) -> AskView {
        match self {
            Ask::Fetch(a, b) => AskView::Fetch(a@, b.deep_view()),
            Ask::Sleep(a) => AskView::Sleep(*a),
            Ask::Now => AskView::Now,
            Ask::Stamp => AskView::Stamp,
        }
    }
}

impl Duplicate for Ask {
    fn dup(&self) -> (r: Ask) {
        match self {
            Ask::Fetch(a, b) => Ask::Fetch(text::owned(a.as_str()), b.dup()),
            Ask::Sleep(a) => Ask::Sleep(*a),
            Ask::Now => Ask::Now,
            Ask::Stamp => Ask::Stamp,
        }
    }
}

/// What came of an [`Ask`].
#[derive(Debug)]
pub enum Answer {
    /// It failed, and why.
    Failed(String),
    Done,
    Value(Json),
    Time(Double),
    Text(String),
}

/// What a [`Answer`] says.
#[allow(inconsistent_fields)]
pub enum AnswerView {
    Failed(Seq<char>),
    Done,
    Value(Doc),
    Time(Double),
    Text(Seq<char>),
}

impl DeepView for Answer {
    type V = AnswerView;

    open spec fn deep_view(&self) -> AnswerView {
        match self {
            Answer::Failed(a) => AnswerView::Failed(a@),
            Answer::Done => AnswerView::Done,
            Answer::Value(a) => AnswerView::Value(a@),
            Answer::Time(a) => AnswerView::Time(*a),
            Answer::Text(a) => AnswerView::Text(a@),
        }
    }
}

impl Duplicate for Answer {
    fn dup(&self) -> (r: Answer) {
        match self {
            Answer::Failed(a) => Answer::Failed(text::owned(a.as_str())),
            Answer::Done => Answer::Done,
            Answer::Value(a) => Answer::Value(a.copy()),
            Answer::Time(a) => Answer::Time(*a),
            Answer::Text(a) => Answer::Text(text::owned(a.as_str())),
        }
    }
}

/// How far a run has come.
#[derive(Debug)]
pub struct Talk {
    /// How many answers were used.
    pub at: usize,
    /// What is asked next.
    pub ask: Option<Ask>,
}

/// What a [`Talk`] holds.
pub struct TalkView {
    pub at: usize,
    pub ask: Option<AskView>,
}

impl DeepView for Talk {
    type V = TalkView;

    open spec fn deep_view(&self) -> TalkView {
        TalkView {
            at: self.at,
            ask: self.ask.deep_view(),
        }
    }
}

/// Whether a run waits for an answer.
pub open spec fn waits_spec(t: TalkView) -> bool {
    t.ask is Some
}

fn waits(t: &Talk) -> (r: bool)
    ensures
        r == waits_spec(t.deep_view()),
{
    t.ask.is_some()
}

/// A run that waits for an answer.
pub open spec fn waiting_spec(t: TalkView, a: AskView) -> TalkView {
    TalkView { ask: Some(a), ..t }
}

fn waiting(t: Talk, a: Ask) -> (r: Talk)
    ensures
        r.deep_view() == waiting_spec(t.deep_view(), a.deep_view()),
{
    let mut t = t;
    t.ask = Some(a);
    t
}

/// The next answer, where there is one; otherwise the run waits for it.
pub open spec fn asked_spec(
    t: TalkView,
    a: AskView,
    answers: Seq<AnswerView>,
) -> (TalkView, AnswerView) {
    match list::item(answers, t.at) {
        Some(x) => (TalkView { at: (t.at + 1) as usize, ..t }, x),
        None => (waiting_spec(t, a), AnswerView::Done),
    }
}

fn asked(t: Talk, a: Ask, answers: &Vec<Answer>) -> (r: (Talk, Answer))
    ensures
        r.deep_view() == asked_spec(t.deep_view(), a.deep_view(), answers.deep_view()),
{
    let mut t = t;
    let x = match list::at(answers, t.at) {
        Some(v) => v,
        None => {
            return (waiting(t, a), Answer::Done);
        },
    };
    t.at = (t.at + 1);
    (t, x.dup())
}

/// Why an answer is not the one that was asked for.
pub open spec fn reason_of_spec(a: AnswerView) -> Seq<char> {
    match a {
        AnswerView::Failed(e) => e,
        _ => "answer out of turn"@,
    }
}

fn reason_of(a: &Answer) -> (r: String)
    ensures
        r@ == reason_of_spec(a.deep_view()),
{
    match a {
        Answer::Failed(e) => text::owned(e.as_str()),
        _ => text::owned("answer out of turn"),
    }
}

/// The value that was read.
pub open spec fn value_of_spec(a: AnswerView) -> Result<Doc, Seq<char>> {
    match a {
        AnswerView::Value(v) => Ok(v),
        AnswerView::Failed(e) => Err(e),
        _ => Err("answer out of turn"@),
    }
}

fn value_of(a: Answer) -> (r: Result<Json, String>)
    ensures
        list::outcome(r) == value_of_spec(a.deep_view()),
{
    match a {
        Answer::Value(v) => Ok(v),
        Answer::Failed(e) => Err(e),
        _ => Err(text::owned("answer out of turn")),
    }
}

/// A public read as it is sent.
pub open spec fn public_request_spec(url: Seq<char>, body: Option<Seq<char>>) -> RequestView {
    let headers = Seq::<(Seq<char>, Seq<char>)>::empty().push(("User-Agent"@, "Mozilla/5.0"@)).push(
        ("Content-Type"@, "application/json"@),
    );
    net::request_spec(url, body, headers, 15)
}

/// A public read as it is sent.
pub fn public_request(url: &str, body: Option<&str>) -> (r: Request)
    ensures
        r.deep_view() == public_request_spec(url@, body.deep_view()),
{
    let mut headers: Vec<(String, String)> = list::none();
    list::push(&mut headers, (text::owned("User-Agent"), text::owned("Mozilla/5.0")));
    list::push(&mut headers, (text::owned("Content-Type"), text::owned("application/json")));
    net::request(url, body, &headers, 15)
}

/// Whether something was read.
pub open spec fn is_value_spec(a: AnswerView) -> bool {
    match a {
        AnswerView::Value(v) => true,
        _ => false,
    }
}

fn is_value(a: &Answer) -> (r: bool)
    ensures
        r == is_value_spec(a.deep_view()),
{
    match a {
        Answer::Value(v) => true,
        _ => false,
    }
}

/// One public read, retried once after two seconds.
pub open spec fn get_spec(
    t: TalkView,
    url: Seq<char>,
    body: Option<Seq<char>>,
    answers: Seq<AnswerView>,
) -> (TalkView, Result<Doc, Seq<char>>) {
    let (t1, a) = asked_spec(t, AskView::Fetch(url, body), answers);
    if waits_spec(t1) {
        (t1, Err(""@))
    } else if is_value_spec(a) {
        (t1, value_of_spec(a))
    } else {
        let (t2, b) = asked_spec(t1, AskView::Sleep(Double::int_spec(2)), answers);
        if waits_spec(t2) {
            (t2, Err(""@))
        } else {
            let (t3, c) = asked_spec(t2, AskView::Fetch(url, body), answers);
            (t3, value_of_spec(c))
        }
    }
}

/// One public read, retried once after two seconds.
pub fn get(
    t: Talk,
    url: &str,
    body: Option<&str>,
    answers: &Vec<Answer>,
) -> (r: (Talk, Result<Json, String>))
    ensures
        (r.0.deep_view(), list::outcome(r.1)) == get_spec(
            t.deep_view(),
            url@,
            body.deep_view(),
            answers.deep_view(),
        ),
{
    let (t1, a) = asked(t, Ask::Fetch(text::owned(url), list::own_text(body)), answers);
    if waits(&t1) {
        return (t1, Err(text::owned("")));
    }
    if is_value(&a) {
        return (t1, value_of(a));
    }
    let (t2, b) = asked(t1, Ask::Sleep(Double::of_int(2)), answers);
    if waits(&t2) {
        return (t2, Err(text::owned("")));
    }
    let (t3, c) = asked(t2, Ask::Fetch(text::owned(url), list::own_text(body)), answers);
    (t3, value_of(c))
}

/// The value under a key that has to be there.
pub open spec fn under_spec(d: Doc, key: Seq<char>) -> Result<Doc, Seq<char>> {
    match d.get(key) {
        Some(v) => Ok(v),
        None => Err("'"@ + key + "'"@),
    }
}

fn under(d: &Json, key: &str) -> (r: Result<Json, String>)
    ensures
        list::outcome(r) == under_spec(d@, key@),
{
    match d.get(key) {
        Some(v) => Ok(v.copy()),
        None => {
            let mut line = text::owned("'");
            line.push_str(key);
            line.push_str("'");
            Err(line)
        },
    }
}

/// A whole number written as text or as a number.
pub open spec fn py_int_spec(v: Doc) -> Result<i128, Seq<char>> {
    match v.as_int() {
        Some(i) => Ok(i as i128),
        None => match v.as_text() {
            Some(s) => match read_wide_spec(text::trim(s)) {
                Some(x) => Ok(x),
                None => Err("invalid literal for int() with base 10: "@ + pyfmt::repr_str_spec(s)),
            },
            None => match v.num() {
                Some(f) => Ok(
                    f.trunc_spec().cast_spec(i128::MIN as int, i128::MAX as int) as i128,
                ),
                None => Err(
                    "int() argument must be a string, a bytes-like object or a real number, not '"@
                        + pyfmt::kind_name_spec(v)
                        + "'"@,
                ),
            },
        },
    }
}

fn py_int(v: &Json) -> (r: Result<i128, String>)
    ensures
        list::outcome(r) == py_int_spec(v@),
{
    match v.as_int() {
        Some(i) => Ok((i as i128)),
        None => match v.as_str() {
            Some(s) => match read_wide(text::trimmed(s).as_str()) {
                Some(x) => Ok(x),
                None => {
                    let mut line = text::owned("invalid literal for int() with base 10: ");
                    line.push_str(pyfmt::repr_str(s).as_str());
                    Err(line)
                },
            },
            None => match v.num() {
                Some(f) => Ok(f.trunc().to_i128()),
                None => {
                    let mut line2 = text::owned(
                        "int() argument must be a string, a bytes-like object or a real number, not '",
                    );
                    line2.push_str(text::owned(pyfmt::kind_name(v)).as_str());
                    line2.push_str("'");
                    Err(line2)
                },
            },
        },
    }
}

/// The whole number under a key that has to be there.
pub open spec fn amount_under_spec(d: Doc, key: Seq<char>) -> Result<i128, Seq<char>> {
    match under_spec(d, key) {
        Ok(v) => py_int_spec(v),
        Err(e) => Err(e),
    }
}

fn amount_under(d: &Json, key: &str) -> (r: Result<i128, String>)
    ensures
        list::outcome(r) == amount_under_spec(d@, key@),
{
    let v = match under(d, key) {
        Ok(v) => v,
        Err(e) => {
            return Err(e);
        },
    };
    py_int(&v)
}

/// Whether an amount is of a denomination.
pub open spec fn has_denom_spec(b: Doc, denom: Doc) -> Result<bool, Seq<char>> {
    match under_spec(b, "denom"@) {
        Ok(x) => Ok(x.py_eq(denom)),
        Err(e) => Err(e),
    }
}

fn has_denom(b: &Json, denom: &Json) -> (r: Result<bool, String>)
    ensures
        list::outcome(r) == has_denom_spec(b@, denom@),
{
    let x = match under(b, "denom") {
        Ok(v) => v,
        Err(e) => {
            return Err(e);
        },
    };
    Ok(x.py_eq(denom))
}

/// A sum with one balance added, where it is of a denomination.
pub open spec fn add_balance_spec(total: i128, b: Doc, denom: Doc) -> Result<i128, Seq<char>> {
    match has_denom_spec(b, denom) {
        Ok(ours) => if !ours {
            Ok(total)
        } else {
            match amount_under_spec(b, "amount"@) {
                Ok(x) => Ok(wide_plus_spec(total, x)),
                Err(e) => Err(e),
            }
        },
        Err(e) => Err(e),
    }
}

fn add_balance(total: i128, b: &Json, denom: &Json) -> (r: Result<i128, String>)
    ensures
        list::outcome(r) == add_balance_spec(total, b@, denom@),
{
    let ours = match has_denom(b, denom) {
        Ok(v) => v,
        Err(e) => {
            return Err(e);
        },
    };
    if !ours {
        return Ok(total);
    }
    let x: i128 = match amount_under(b, "amount") {
        Ok(v) => v,
        Err(e) => {
            return Err(e);
        },
    };
    Ok(wide_plus(total, x))
}

/// The first `n` of them.
pub open spec fn add_balances_spec(
    denom: Doc,
    xs: Seq<Doc>,
    total: i128,
    fault: Option<Seq<char>>,
    n: nat,
) -> (i128, Option<Seq<char>>)
    decreases n,
{
    if n == 0 {
        (total, fault)
    } else {
        let (total, fault) = add_balances_spec(denom, xs, total, fault, (n - 1) as nat);
        let b = xs[n - 1];
        if fault is None {
            match add_balance_spec(total, b, denom) {
                Ok(x) => (x, fault),
                Err(e) => (total, Some(e)),
            }
        } else {
            (total, fault)
        }
    }
}

fn add_balances(
    denom: &Json,
    xs: &Vec<Json>,
    total: i128,
    fault: Option<String>,
) -> (r: (i128, Option<String>))
    ensures
        r.deep_view() == add_balances_spec(
            denom@,
            xs.deep_view(),
            total,
            fault.deep_view(),
            xs@.len(),
        ),
{
    let ghost total0 = total;
    let ghost fault0 = fault.deep_view();
    let mut total: i128 = total;
    let mut fault = fault;
    let mut i: usize = 0;
    while i < xs.len()
        invariant
            i <= xs@.len(),
            (total, fault.deep_view()) == add_balances_spec(
                denom@,
                xs.deep_view(),
                total0,
                fault0,
                i as nat,
            ),
        decreases xs@.len() - i,
    {
        let b = &xs[i];
        if fault.is_none() {
            match add_balance(total, b, denom) {
                Ok(x) => {
                    total = x;
                },
                Err(e) => {
                    fault = Some(e);
                },
            }
        }
        i = i + 1;
    }
    (total, fault)
}

/// The liquid balance.
pub open spec fn liquid_of_spec(bank: Doc, denom: Doc) -> Result<i128, Seq<char>> {
    match under_spec(bank, "balances"@) {
        Ok(bs) => {
            let total = 0 as i128;
            let fault: Option<Seq<char>> = None;
            let (total, fault) = add_balances_spec(
                denom,
                bs.items(),
                total,
                fault,
                bs.items().len(),
            );
            match fault {
                Some(e) => Err(e),
                None => Ok(total),
            }
        },
        Err(e) => Err(e),
    }
}

fn liquid_of(bank: &Json, denom: &Json) -> (r: Result<i128, String>)
    ensures
        list::outcome(r) == liquid_of_spec(bank@, denom@),
{
    let bs = match under(bank, "balances") {
        Ok(v) => v,
        Err(e) => {
            return Err(e);
        },
    };
    let mut total: i128 = (0 as i128);
    let mut fault: Option<String> = None;
    let (next_total, next_fault): (i128, Option<String>) = add_balances(
        denom,
        &json::items(&bs),
        total,
        fault,
    );
    total = next_total;
    fault = next_fault;
    match fault {
        Some(e) => Err(e),
        None => Ok(total),
    }
}

/// What a delegation holds.
pub open spec fn delegated_spec(dl: Doc) -> Result<i128, Seq<char>> {
    match under_spec(dl, "balance"@) {
        Ok(b) => amount_under_spec(b, "amount"@),
        Err(e) => Err(e),
    }
}

fn delegated(dl: &Json) -> (r: Result<i128, String>)
    ensures
        list::outcome(r) == delegated_spec(dl@),
{
    let b = match under(dl, "balance") {
        Ok(v) => v,
        Err(e) => {
            return Err(e);
        },
    };
    amount_under(&b, "amount")
}

/// The first `n` of them.
pub open spec fn add_delegations_spec(
    xs: Seq<Doc>,
    total: i128,
    fault: Option<Seq<char>>,
    n: nat,
) -> (i128, Option<Seq<char>>)
    decreases n,
{
    if n == 0 {
        (total, fault)
    } else {
        let (total, fault) = add_delegations_spec(xs, total, fault, (n - 1) as nat);
        let dl = xs[n - 1];
        if fault is None {
            match delegated_spec(dl) {
                Ok(x) => (wide_plus_spec(total, x), fault),
                Err(e) => (total, Some(e)),
            }
        } else {
            (total, fault)
        }
    }
}

fn add_delegations(
    xs: &Vec<Json>,
    total: i128,
    fault: Option<String>,
) -> (r: (i128, Option<String>))
    ensures
        r.deep_view() == add_delegations_spec(xs.deep_view(), total, fault.deep_view(), xs@.len()),
{
    let ghost total0 = total;
    let ghost fault0 = fault.deep_view();
    let mut total: i128 = total;
    let mut fault = fault;
    let mut i: usize = 0;
    while i < xs.len()
        invariant
            i <= xs@.len(),
            (total, fault.deep_view()) == add_delegations_spec(
                xs.deep_view(),
                total0,
                fault0,
                i as nat,
            ),
        decreases xs@.len() - i,
    {
        let dl = &xs[i];
        if fault.is_none() {
            match delegated(dl) {
                Ok(x) => {
                    total = wide_plus(total, x);
                },
                Err(e) => {
                    fault = Some(e);
                },
            }
        }
        i = i + 1;
    }
    (total, fault)
}

/// What the delegations hold.
pub open spec fn staked_of_spec(dels: Seq<Doc>) -> Result<i128, Seq<char>> {
    let total = 0 as i128;
    let fault: Option<Seq<char>> = None;
    let (total, fault) = add_delegations_spec(dels, total, fault, dels.len());
    match fault {
        Some(e) => Err(e),
        None => Ok(total),
    }
}

fn staked_of(dels: &Vec<Json>) -> (r: Result<i128, String>)
    ensures
        list::outcome(r) == staked_of_spec(dels.deep_view()),
{
    let mut total: i128 = (0 as i128);
    let mut fault: Option<String> = None;
    let (next_total, next_fault): (i128, Option<String>) = add_delegations(dels, total, fault);
    total = next_total;
    fault = next_fault;
    match fault {
        Some(e) => Err(e),
        None => Ok(total),
    }
}

/// An amount that unbonds, and when it is done.
pub open spec fn unbonding_entry_spec(e: Doc, dec: u32) -> Result<Doc, Seq<char>> {
    match amount_under_spec(e, "balance"@) {
        Ok(x) => match under_spec(e, "completion_time"@) {
            Ok(when) => Ok(
                Doc::obj().with("amount"@, Doc::Float(wide_over_spec(x, dec))).with("done"@, when),
            ),
            Err(e) => Err(e),
        },
        Err(e) => Err(e),
    }
}

fn unbonding_entry(e: &Json, dec: u32) -> (r: Result<Json, String>)
    ensures
        list::outcome(r) == unbonding_entry_spec(e@, dec),
{
    let x: i128 = match amount_under(e, "balance") {
        Ok(v) => v,
        Err(e) => {
            return Err(e);
        },
    };
    let when = match under(e, "completion_time") {
        Ok(v) => v,
        Err(e) => {
            return Err(e);
        },
    };
    Ok(Json::obj().with("amount", Json::Float(wide_over(x, dec))).with("done", when))
}

/// The first `n` of them.
pub open spec fn add_unbonding_entry_spec(
    dec: u32,
    xs: Seq<Doc>,
    out: Seq<Doc>,
    fault: Option<Seq<char>>,
    n: nat,
) -> (Seq<Doc>, Option<Seq<char>>)
    decreases n,
{
    if n == 0 {
        (out, fault)
    } else {
        let (out, fault) = add_unbonding_entry_spec(dec, xs, out, fault, (n - 1) as nat);
        let e = xs[n - 1];
        if fault is None {
            match unbonding_entry_spec(e, dec) {
                Ok(x) => (out.push(x), fault),
                Err(why) => (out, Some(why)),
            }
        } else {
            (out, fault)
        }
    }
}

fn add_unbonding_entry(
    dec: u32,
    xs: &Vec<Json>,
    out: Vec<Json>,
    fault: Option<String>,
) -> (r: (Vec<Json>, Option<String>))
    ensures
        r.deep_view() == add_unbonding_entry_spec(
            dec,
            xs.deep_view(),
            out.deep_view(),
            fault.deep_view(),
            xs@.len(),
        ),
{
    let ghost out0 = out.deep_view();
    let ghost fault0 = fault.deep_view();
    let mut out = out;
    let mut fault = fault;
    let mut i: usize = 0;
    while i < xs.len()
        invariant
            i <= xs@.len(),
            (out.deep_view(), fault.deep_view()) == add_unbonding_entry_spec(
                dec,
                xs.deep_view(),
                out0,
                fault0,
                i as nat,
            ),
        decreases xs@.len() - i,
    {
        let e = &xs[i];
        if fault.is_none() {
            match unbonding_entry(e, dec) {
                Ok(x) => {
                    list::push(&mut out, x);
                },
                Err(why) => {
                    fault = Some(why);
                },
            }
        }
        i = i + 1;
    }
    (out, fault)
}

/// What unbonds from one validator.
pub open spec fn unbonding_entries_spec(u: Doc, dec: u32) -> Result<Seq<Doc>, Seq<char>> {
    match under_spec(u, "entries"@) {
        Ok(es) => {
            let out = Seq::<Doc>::empty();
            let fault: Option<Seq<char>> = None;
            let (out, fault) = add_unbonding_entry_spec(
                dec,
                es.items(),
                out,
                fault,
                es.items().len(),
            );
            match fault {
                Some(why) => Err(why),
                None => Ok(out),
            }
        },
        Err(e) => Err(e),
    }
}

fn unbonding_entries(u: &Json, dec: u32) -> (r: Result<Vec<Json>, String>)
    ensures
        list::outcome(r) == unbonding_entries_spec(u@, dec),
{
    let es = match under(u, "entries") {
        Ok(v) => v,
        Err(e) => {
            return Err(e);
        },
    };
    let mut out: Vec<Json> = list::none();
    let mut fault: Option<String> = None;
    let (next_out, next_fault) = add_unbonding_entry(dec, &json::items(&es), out, fault);
    out = next_out;
    fault = next_fault;
    match fault {
        Some(why) => Err(why),
        None => Ok(out),
    }
}

/// The first `n` of them.
pub open spec fn add_unbonding_spec(
    dec: u32,
    xs: Seq<Doc>,
    out: Seq<Doc>,
    fault: Option<Seq<char>>,
    n: nat,
) -> (Seq<Doc>, Option<Seq<char>>)
    decreases n,
{
    if n == 0 {
        (out, fault)
    } else {
        let (out, fault) = add_unbonding_spec(dec, xs, out, fault, (n - 1) as nat);
        let u = xs[n - 1];
        if fault is None {
            match unbonding_entries_spec(u, dec) {
                Ok(x) => (out + x, fault),
                Err(why) => (out, Some(why)),
            }
        } else {
            (out, fault)
        }
    }
}

fn add_unbonding(
    dec: u32,
    xs: &Vec<Json>,
    out: Vec<Json>,
    fault: Option<String>,
) -> (r: (Vec<Json>, Option<String>))
    ensures
        r.deep_view() == add_unbonding_spec(
            dec,
            xs.deep_view(),
            out.deep_view(),
            fault.deep_view(),
            xs@.len(),
        ),
{
    let ghost out0 = out.deep_view();
    let ghost fault0 = fault.deep_view();
    let mut out = out;
    let mut fault = fault;
    let mut i: usize = 0;
    while i < xs.len()
        invariant
            i <= xs@.len(),
            (out.deep_view(), fault.deep_view()) == add_unbonding_spec(
                dec,
                xs.deep_view(),
                out0,
                fault0,
                i as nat,
            ),
        decreases xs@.len() - i,
    {
        let u = &xs[i];
        if fault.is_none() {
            match unbonding_entries(u, dec) {
                Ok(x) => {
                    out = list::joined(out, x);
                },
                Err(why) => {
                    fault = Some(why);
                },
            }
        }
        i = i + 1;
    }
    (out, fault)
}

/// What unbonds.
pub open spec fn unbonding_of_spec(ub: Doc, dec: u32) -> Result<Seq<Doc>, Seq<char>> {
    match under_spec(ub, "unbonding_responses"@) {
        Ok(us) => {
            let out = Seq::<Doc>::empty();
            let fault: Option<Seq<char>> = None;
            let (out, fault) = add_unbonding_spec(dec, us.items(), out, fault, us.items().len());
            match fault {
                Some(why) => Err(why),
                None => Ok(out),
            }
        },
        Err(e) => Err(e),
    }
}

fn unbonding_of(ub: &Json, dec: u32) -> (r: Result<Vec<Json>, String>)
    ensures
        list::outcome(r) == unbonding_of_spec(ub@, dec),
{
    let us = match under(ub, "unbonding_responses") {
        Ok(v) => v,
        Err(e) => {
            return Err(e);
        },
    };
    let mut out: Vec<Json> = list::none();
    let mut fault: Option<String> = None;
    let (next_out, next_fault) = add_unbonding(dec, &json::items(&us), out, fault);
    out = next_out;
    fault = next_fault;
    match fault {
        Some(why) => Err(why),
        None => Ok(out),
    }
}

/// A reward, where it is of a denomination.
pub open spec fn reward_spec(r: Doc, denom: Doc) -> Result<Option<Double>, Seq<char>> {
    match has_denom_spec(r, denom) {
        Ok(ours) => if !ours {
            Ok(None)
        } else {
            match under_spec(r, "amount"@) {
                Ok(v) => match dashboard::py_float_spec(v) {
                    Ok(x) => Ok(Some(x)),
                    Err(e) => Err(e),
                },
                Err(e) => Err(e),
            }
        },
        Err(e) => Err(e),
    }
}

fn reward(r: &Json, denom: &Json) -> (out: Result<Option<Double>, String>)
    ensures
        list::outcome(out) == reward_spec(r@, denom@),
{
    let ours = match has_denom(r, denom) {
        Ok(v) => v,
        Err(e) => {
            return Err(e);
        },
    };
    if !ours {
        return Ok(None);
    }
    let v = match under(r, "amount") {
        Ok(v) => v,
        Err(e) => {
            return Err(e);
        },
    };
    let x = match dashboard::py_float(&v) {
        Ok(v) => v,
        Err(e) => {
            return Err(e);
        },
    };
    Ok(Some(x))
}

/// A power of ten.
pub open spec fn ten_to_spec(dec: u32) -> Double {
    match crate::watch::pyfmt::number_or_word("1e"@ + text::dec(dec as nat)) {
        Some(v) => v,
        None => Double::int_spec(1),
    }
}

fn ten_to(dec: u32) -> (r: Double)
    ensures
        r == ten_to_spec(dec),
{
    let mut line = text::owned("1e");
    line.push_str(text::dec_u64(dec as u64).as_str());
    let mut line2 = text::owned("1e");
    line2.push_str(text::dec_u64(dec as u64).as_str());
    match crate::watch::pyfmt::read_number_or_word(line2.as_str()) {
        Some(v) => v,
        None => Double::of_int(1),
    }
}

/// The first `n` of them.
pub open spec fn add_rewards_spec(
    denom: Doc,
    xs: Seq<Doc>,
    parts: Seq<Num>,
    fault: Option<Seq<char>>,
    n: nat,
) -> (Seq<Num>, Option<Seq<char>>)
    decreases n,
{
    if n == 0 {
        (parts, fault)
    } else {
        let (parts, fault) = add_rewards_spec(denom, xs, parts, fault, (n - 1) as nat);
        let r = xs[n - 1];
        if fault is None {
            match reward_spec(r, denom) {
                Ok(got) => {
                    let parts = match got {
                        Some(x) => parts.push(crate::dashboard::Num::Frac(x)),
                        None => parts,
                    };
                    (parts, fault)
                },
                Err(e) => (parts, Some(e)),
            }
        } else {
            (parts, fault)
        }
    }
}

fn add_rewards(
    denom: &Json,
    xs: &Vec<Json>,
    parts: Vec<Num>,
    fault: Option<String>,
) -> (r: (Vec<Num>, Option<String>))
    ensures
        r.deep_view() == add_rewards_spec(
            denom@,
            xs.deep_view(),
            parts.deep_view(),
            fault.deep_view(),
            xs@.len(),
        ),
{
    let ghost parts0 = parts.deep_view();
    let ghost fault0 = fault.deep_view();
    let mut parts = parts;
    let mut fault = fault;
    let mut i: usize = 0;
    while i < xs.len()
        invariant
            i <= xs@.len(),
            (parts.deep_view(), fault.deep_view()) == add_rewards_spec(
                denom@,
                xs.deep_view(),
                parts0,
                fault0,
                i as nat,
            ),
        decreases xs@.len() - i,
    {
        let r = &xs[i];
        if fault.is_none() {
            match reward(r, denom) {
                Ok(got) => {
                    match got {
                        Some(x) => {
                            list::push(&mut parts, crate::dashboard::Num::Frac(x));
                        },
                        None => {},
                    }
                },
                Err(e) => {
                    fault = Some(e);
                },
            }
        }
        i = i + 1;
    }
    (parts, fault)
}

/// The rewards.
pub open spec fn rewards_of_spec(rew: Doc, denom: Doc, dec: u32) -> Result<Double, Seq<char>> {
    let parts = Seq::<Num>::empty();
    let fault: Option<Seq<char>> = None;
    let (parts, fault) = add_rewards_spec(
        denom,
        rew.get_or_null("total"@).items(),
        parts,
        fault,
        rew.get_or_null("total"@).items().len(),
    );
    match fault {
        Some(e) => Err(e),
        None => if parts.len() == 0 {
            Ok(wide_over_spec(0 as i128, dec))
        } else {
            Ok(crate::dashboard::py_sum_spec(parts).f_spec().div_spec(ten_to_spec(dec)))
        },
    }
}

fn rewards_of(rew: &Json, denom: &Json, dec: u32) -> (r: Result<Double, String>)
    ensures
        list::outcome(r) == rewards_of_spec(rew@, denom@, dec),
{
    let mut parts: Vec<Num> = list::none();
    let mut fault: Option<String> = None;
    let (next_parts, next_fault) = add_rewards(
        denom,
        &json::items(&rew.get_copy("total")),
        parts,
        fault,
    );
    parts = next_parts;
    fault = next_fault;
    match fault {
        Some(e) => Err(e),
        None => {
            if parts.len() == 0 {
                return Ok(wide_over((0 as i128), dec));
            }
            Ok(crate::dashboard::py_sum(&parts).f().over(ten_to(dec)))
        },
    }
}

/// How many days unbonding takes.
pub open spec fn unbond_days_of_spec(params: Doc) -> Result<i64, Seq<char>> {
    match under_spec(params, "unbonding_time"@) {
        Ok(v) => match py_int_spec(Doc::Str(text::strip_end(v.py_str(), 's'))) {
            Ok(secs) => Ok(
                crate::watch::pyfmt::round_spec(
                    (Double::int_spec(secs as int)).div_spec(Double::int_spec(86400)),
                    0,
                ).cast_spec(i64::MIN as int, i64::MAX as int) as i64,
            ),
            Err(e) => Err(e),
        },
        Err(e) => Err(e),
    }
}

fn unbond_days_of(params: &Json) -> (r: Result<i64, String>)
    ensures
        list::outcome(r) == unbond_days_of_spec(params@),
{
    let v = match under(params, "unbonding_time") {
        Ok(v) => v,
        Err(e) => {
            return Err(e);
        },
    };
    let secs: i128 = match py_int(
        &Json::text(text::stripped_end(v.py_str().as_str(), 's').as_str()),
    ) {
        Ok(v) => v,
        Err(e) => {
            return Err(e);
        },
    };
    Ok(crate::watch::pyfmt::round(Double::of_i128(secs).over(Double::of_int(86400)), 0).to_i64())
}

/// What was read of a Cosmos wallet so far.
#[derive(Debug)]
pub struct Cosmos {
    pub params: Json,
    pub denom: Json,
    pub liquid: i128,
    pub staked: i128,
    pub validators: usize,
    pub unbonding: Vec<Json>,
}

/// What a [`Cosmos`] holds.
pub struct CosmosView {
    pub params: Doc,
    pub denom: Doc,
    pub liquid: i128,
    pub staked: i128,
    pub validators: usize,
    pub unbonding: Seq<Doc>,
}

impl DeepView for Cosmos {
    type V = CosmosView;

    open spec fn deep_view(&self) -> CosmosView {
        CosmosView {
            params: self.params@,
            denom: self.denom@,
            liquid: self.liquid,
            staked: self.staked,
            validators: self.validators,
            unbonding: self.unbonding.deep_view(),
        }
    }
}

/// A Cosmos wallet's reading.
pub open spec fn cosmos_row_spec(
    w: CosmosWalletView,
    c: CosmosView,
    rewards: Double,
    days: i64,
) -> Doc {
    Doc::obj().with("liquid"@, Doc::Float(wide_over_spec(c.liquid, w.decimals))).with(
        "staked"@,
        Doc::Float(wide_over_spec(c.staked, w.decimals)),
    ).with(
        "rewards"@,
        Doc::Float(rewards),
    ).with(
        "unbonding"@,
        Doc::Arr(c.unbonding),
    ).with(
        "unbond_days"@,
        Doc::Int(days),
    ).with(
        "validators"@,
        Doc::Int(c.validators as i64),
    ).with(
        "chain"@,
        Doc::Str(w.chain),
    ).with(
        "address"@,
        Doc::Str(w.address),
    )
}

fn cosmos_row(w: &CosmosWallet, c: &Cosmos, rewards: Double, days: i64) -> (r: Json)
    ensures
        r@ == cosmos_row_spec(w.deep_view(), c.deep_view(), rewards, days),
{
    Json::obj().with("liquid", Json::Float(wide_over(c.liquid, w.decimals))).with(
        "staked",
        Json::Float(wide_over(c.staked, w.decimals)),
    ).with(
        "rewards",
        Json::Float(rewards),
    ).with(
        "unbonding",
        json::array(c.unbonding.dup()),
    ).with(
        "unbond_days",
        Json::Int(days),
    ).with(
        "validators",
        Json::Int(c.validators as i64),
    ).with(
        "chain",
        Json::text(w.chain.as_str()),
    ).with(
        "address",
        Json::text(w.address.as_str()),
    )
}

/// A Cosmos wallet's reading, once its rewards came back.
pub open spec fn cosmos_end_spec(
    w: CosmosWalletView,
    c: CosmosView,
    rew: Doc,
) -> Result<Doc, Seq<char>> {
    match rewards_of_spec(rew, c.denom, w.decimals) {
        Ok(rewards) => match unbond_days_of_spec(c.params) {
            Ok(days) => Ok(cosmos_row_spec(w, c, rewards, days)),
            Err(e) => Err(e),
        },
        Err(e) => Err(e),
    }
}

fn cosmos_end(w: &CosmosWallet, c: &Cosmos, rew: &Json) -> (r: Result<Json, String>)
    ensures
        list::outcome(r) == cosmos_end_spec(w.deep_view(), c.deep_view(), rew@),
{
    let rewards = match rewards_of(rew, &c.denom, w.decimals) {
        Ok(v) => v,
        Err(e) => {
            return Err(e);
        },
    };
    let days: i64 = match unbond_days_of(&c.params) {
        Ok(v) => v,
        Err(e) => {
            return Err(e);
        },
    };
    Ok(cosmos_row(w, c, rewards, days))
}

/// Read a Cosmos wallet's rewards.
pub open spec fn cosmos_rewards_spec(
    t: TalkView,
    w: CosmosWalletView,
    c: CosmosView,
    answers: Seq<AnswerView>,
) -> (TalkView, Result<Doc, Seq<char>>) {
    let (t1, got) = get_spec(
        t,
        w.rest
            + "/"@
            + w.chain
            + "/cosmos/distribution/v1beta1/delegators/"@
            + w.address
            + "/rewards"@,
        None,
        answers,
    );
    if waits_spec(t1) {
        (t1, Err(""@))
    } else {
        match got {
            Ok(rew) => (t1, cosmos_end_spec(w, c, rew)),
            Err(e) => (t1, Err(e)),
        }
    }
}

fn cosmos_rewards(
    t: Talk,
    w: &CosmosWallet,
    c: &Cosmos,
    answers: &Vec<Answer>,
) -> (r: (Talk, Result<Json, String>))
    ensures
        (r.0.deep_view(), list::outcome(r.1)) == cosmos_rewards_spec(
            t.deep_view(),
            w.deep_view(),
            c.deep_view(),
            answers.deep_view(),
        ),
{
    let mut line = text::owned(w.rest.as_str());
    line.push_str("/");
    line.push_str(w.chain.as_str());
    line.push_str("/cosmos/distribution/v1beta1/delegators/");
    line.push_str(w.address.as_str());
    line.push_str("/rewards");
    let (t1, got) = get(t, line.as_str(), list::text_ref(&None), answers);
    if waits(&t1) {
        return (t1, Err(text::owned("")));
    }
    match got {
        Ok(rew) => (t1, cosmos_end(w, c, &rew)),
        Err(e) => (t1, Err(e)),
    }
}

/// Read what unbonds of a Cosmos wallet.
pub open spec fn cosmos_unbonding_spec(
    t: TalkView,
    w: CosmosWalletView,
    c: CosmosView,
    answers: Seq<AnswerView>,
) -> (TalkView, Result<Doc, Seq<char>>) {
    let (t1, got) = get_spec(
        t,
        w.rest
            + "/"@
            + w.chain
            + "/cosmos/staking/v1beta1/delegators/"@
            + w.address
            + "/unbonding_delegations"@,
        None,
        answers,
    );
    if waits_spec(t1) {
        (t1, Err(""@))
    } else {
        match got {
            Ok(ub) => match unbonding_of_spec(ub, w.decimals) {
                Ok(l) => {
                    let c = CosmosView { unbonding: l, ..c };
                    cosmos_rewards_spec(t1, w, c, answers)
                },
                Err(e) => (t1, Err(e)),
            },
            Err(e) => (t1, Err(e)),
        }
    }
}

fn cosmos_unbonding(
    t: Talk,
    w: &CosmosWallet,
    c: Cosmos,
    answers: &Vec<Answer>,
) -> (r: (Talk, Result<Json, String>))
    ensures
        (r.0.deep_view(), list::outcome(r.1)) == cosmos_unbonding_spec(
            t.deep_view(),
            w.deep_view(),
            c.deep_view(),
            answers.deep_view(),
        ),
{
    let mut c = c;
    let mut line = text::owned(w.rest.as_str());
    line.push_str("/");
    line.push_str(w.chain.as_str());
    line.push_str("/cosmos/staking/v1beta1/delegators/");
    line.push_str(w.address.as_str());
    line.push_str("/unbonding_delegations");
    let (t1, got) = get(t, line.as_str(), list::text_ref(&None), answers);
    if waits(&t1) {
        return (t1, Err(text::owned("")));
    }
    match got {
        Ok(ub) => match unbonding_of(&ub, w.decimals) {
            Ok(l) => {
                c.unbonding = l;
                cosmos_rewards(t1, w, &c, answers)
            },
            Err(e) => (t1, Err(e)),
        },
        Err(e) => (t1, Err(e)),
    }
}

/// The delegations that came back.
pub open spec fn delegations_of_spec(d: Doc) -> Result<Seq<Doc>, Seq<char>> {
    match under_spec(d, "delegation_responses"@) {
        Ok(v) => Ok(v.items()),
        Err(e) => Err(e),
    }
}

fn delegations_of(d: &Json) -> (r: Result<Vec<Json>, String>)
    ensures
        list::outcome(r) == delegations_of_spec(d@),
{
    let v = match under(d, "delegation_responses") {
        Ok(v) => v,
        Err(e) => {
            return Err(e);
        },
    };
    Ok(json::items(&v))
}

/// Read what is staked of a Cosmos wallet.
pub open spec fn cosmos_staked_spec(
    t: TalkView,
    w: CosmosWalletView,
    c: CosmosView,
    answers: Seq<AnswerView>,
) -> (TalkView, Result<Doc, Seq<char>>) {
    let (t1, got) = get_spec(
        t,
        w.rest + "/"@ + w.chain + "/cosmos/staking/v1beta1/delegations/"@ + w.address,
        None,
        answers,
    );
    if waits_spec(t1) {
        (t1, Err(""@))
    } else {
        match got {
            Ok(d) => match delegations_of_spec(d) {
                Ok(dels) => match staked_of_spec(dels) {
                    Ok(x) => {
                        let c = CosmosView { staked: x, ..c };
                        let c = CosmosView { validators: (dels.len() as usize), ..c };
                        cosmos_unbonding_spec(t1, w, c, answers)
                    },
                    Err(e) => (t1, Err(e)),
                },
                Err(e) => (t1, Err(e)),
            },
            Err(e) => (t1, Err(e)),
        }
    }
}

fn cosmos_staked(
    t: Talk,
    w: &CosmosWallet,
    c: Cosmos,
    answers: &Vec<Answer>,
) -> (r: (Talk, Result<Json, String>))
    ensures
        (r.0.deep_view(), list::outcome(r.1)) == cosmos_staked_spec(
            t.deep_view(),
            w.deep_view(),
            c.deep_view(),
            answers.deep_view(),
        ),
{
    let mut c = c;
    let mut line = text::owned(w.rest.as_str());
    line.push_str("/");
    line.push_str(w.chain.as_str());
    line.push_str("/cosmos/staking/v1beta1/delegations/");
    line.push_str(w.address.as_str());
    let (t1, got) = get(t, line.as_str(), list::text_ref(&None), answers);
    if waits(&t1) {
        return (t1, Err(text::owned("")));
    }
    match got {
        Ok(d) => match delegations_of(&d) {
            Ok(dels) => match staked_of(&dels) {
                Ok(x) => {
                    c.staked = x;
                    c.validators = dels.len();
                    cosmos_unbonding(t1, w, c, answers)
                },
                Err(e) => (t1, Err(e)),
            },
            Err(e) => (t1, Err(e)),
        },
        Err(e) => (t1, Err(e)),
    }
}

/// Read what is liquid of a Cosmos wallet.
pub open spec fn cosmos_liquid_spec(
    t: TalkView,
    w: CosmosWalletView,
    c: CosmosView,
    answers: Seq<AnswerView>,
) -> (TalkView, Result<Doc, Seq<char>>) {
    let (t1, got) = get_spec(
        t,
        w.rest + "/"@ + w.chain + "/cosmos/bank/v1beta1/balances/"@ + w.address,
        None,
        answers,
    );
    if waits_spec(t1) {
        (t1, Err(""@))
    } else {
        match got {
            Ok(bank) => match liquid_of_spec(bank, c.denom) {
                Ok(x) => {
                    let c = CosmosView { liquid: x, ..c };
                    cosmos_staked_spec(t1, w, c, answers)
                },
                Err(e) => (t1, Err(e)),
            },
            Err(e) => (t1, Err(e)),
        }
    }
}

fn cosmos_liquid(
    t: Talk,
    w: &CosmosWallet,
    c: Cosmos,
    answers: &Vec<Answer>,
) -> (r: (Talk, Result<Json, String>))
    ensures
        (r.0.deep_view(), list::outcome(r.1)) == cosmos_liquid_spec(
            t.deep_view(),
            w.deep_view(),
            c.deep_view(),
            answers.deep_view(),
        ),
{
    let mut c = c;
    let mut line = text::owned(w.rest.as_str());
    line.push_str("/");
    line.push_str(w.chain.as_str());
    line.push_str("/cosmos/bank/v1beta1/balances/");
    line.push_str(w.address.as_str());
    let (t1, got) = get(t, line.as_str(), list::text_ref(&None), answers);
    if waits(&t1) {
        return (t1, Err(text::owned("")));
    }
    match got {
        Ok(bank) => match liquid_of(&bank, &c.denom) {
            Ok(x) => {
                c.liquid = x;
                cosmos_staked(t1, w, c, answers)
            },
            Err(e) => (t1, Err(e)),
        },
        Err(e) => (t1, Err(e)),
    }
}

/// A Cosmos chain's parameters.
pub open spec fn cosmos_start_spec(d: Doc) -> Result<CosmosView, Seq<char>> {
    match under_spec(d, "params"@) {
        Ok(params) => match under_spec(params, "bond_denom"@) {
            Ok(denom) => Ok(
                CosmosView {
                    params,
                    denom,
                    liquid: 0 as i128,
                    staked: 0 as i128,
                    validators: 0,
                    unbonding: Seq::<Doc>::empty(),
                },
            ),
            Err(e) => Err(e),
        },
        Err(e) => Err(e),
    }
}

fn cosmos_start(d: &Json) -> (r: Result<Cosmos, String>)
    ensures
        list::outcome(r) == cosmos_start_spec(d@),
{
    let params = match under(d, "params") {
        Ok(v) => v,
        Err(e) => {
            return Err(e);
        },
    };
    let denom = match under(&params, "bond_denom") {
        Ok(v) => v,
        Err(e) => {
            return Err(e);
        },
    };
    Ok(
        Cosmos {
            params,
            denom,
            liquid: (0 as i128),
            staked: (0 as i128),
            validators: 0,
            unbonding: list::none::<Json>(),
        },
    )
}

/// Read a Cosmos wallet.
pub open spec fn cosmos_spec(
    t: TalkView,
    w: CosmosWalletView,
    answers: Seq<AnswerView>,
) -> (TalkView, Result<Doc, Seq<char>>) {
    let (t1, got) = get_spec(
        t,
        w.rest + "/"@ + w.chain + "/cosmos/staking/v1beta1/params"@,
        None,
        answers,
    );
    if waits_spec(t1) {
        (t1, Err(""@))
    } else {
        match got {
            Ok(d) => match cosmos_start_spec(d) {
                Ok(c) => cosmos_liquid_spec(t1, w, c, answers),
                Err(e) => (t1, Err(e)),
            },
            Err(e) => (t1, Err(e)),
        }
    }
}

fn cosmos(t: Talk, w: &CosmosWallet, answers: &Vec<Answer>) -> (r: (Talk, Result<Json, String>))
    ensures
        (r.0.deep_view(), list::outcome(r.1)) == cosmos_spec(
            t.deep_view(),
            w.deep_view(),
            answers.deep_view(),
        ),
{
    let mut line = text::owned(w.rest.as_str());
    line.push_str("/");
    line.push_str(w.chain.as_str());
    line.push_str("/cosmos/staking/v1beta1/params");
    let (t1, got) = get(t, line.as_str(), list::text_ref(&None), answers);
    if waits(&t1) {
        return (t1, Err(text::owned("")));
    }
    match got {
        Ok(d) => match cosmos_start(&d) {
            Ok(c) => cosmos_liquid(t1, w, c, answers),
            Err(e) => (t1, Err(e)),
        },
        Err(e) => (t1, Err(e)),
    }
}

/// A contract call as it is posted.
pub open spec fn call_body_spec(to: Seq<char>, data: Seq<char>) -> Seq<char> {
    let call = Seq::<Doc>::empty().push(
        Doc::obj().with("to"@, Doc::Str(to)).with("data"@, Doc::Str(data)),
    ).push(
        Doc::Str("latest"@),
    );
    Doc::obj().with("jsonrpc"@, Doc::Str("2.0"@)).with("id"@, Doc::Int(1)).with(
        "method"@,
        Doc::Str("eth_call"@),
    ).with(
        "params"@,
        Doc::Arr(call),
    ).dumps(None)
}

fn call_body(to: &str, data: &str) -> (r: String)
    ensures
        r@ == call_body_spec(to@, data@),
{
    let mut call: Vec<Json> = list::none();
    list::push(&mut call, Json::obj().with("to", Json::text(to)).with("data", Json::text(data)));
    list::push(&mut call, Json::text("latest"));
    pyfmt::dumps(&Json::obj().with("jsonrpc", Json::text("2.0")).with("id", Json::Int(1)).with(
        "method",
        Json::text("eth_call"),
    ).with(
        "params",
        json::array(call),
    ), None)
}

/// The number a contract call returned, in coins.
pub open spec fn units_of_spec(r: Doc) -> Result<Double, Seq<char>> {
    match under_spec(r, "result"@) {
        Ok(v) => {
            let hex = v.py_str();
            let digits = text::strip_start(
                strip_all_spec(strip_all_spec(text::trim(hex), "0x"@), "0X"@),
                '0',
            );
            match hex_units_spec(digits) {
                Some(x) => Ok(x),
                None => Err(
                    "invalid literal for int() with base 16: "@ + pyfmt::repr_str_spec(hex),
                ),
            }
        },
        Err(e) => Err(e),
    }
}

fn units_of(r: &Json) -> (out: Result<Double, String>)
    ensures
        list::outcome(out) == units_of_spec(r@),
{
    let v = match under(r, "result") {
        Ok(v) => v,
        Err(e) => {
            return Err(e);
        },
    };
    let hex = v.py_str();
    let digits = text::stripped_start(
        strip_all(strip_all(text::trimmed(hex.as_str()).as_str(), "0x").as_str(), "0X").as_str(),
        '0',
    );
    match hex_units(digits.as_str()) {
        Some(x) => Ok(x),
        None => {
            let mut line = text::owned("invalid literal for int() with base 16: ");
            line.push_str(pyfmt::repr_str(hex.as_str()).as_str());
            Err(line)
        },
    }
}

/// A contract call at the latest block, the 256-bit result read as a number of 18-decimal units.
pub open spec fn eth_call_spec(
    t: TalkView,
    rpc: Seq<char>,
    to: Seq<char>,
    data: Seq<char>,
    answers: Seq<AnswerView>,
) -> (TalkView, Result<Double, Seq<char>>) {
    let (t1, got) = get_spec(t, rpc, Some(call_body_spec(to, data)), answers);
    if waits_spec(t1) {
        (t1, Err(""@))
    } else {
        match got {
            Ok(r) => (t1, units_of_spec(r)),
            Err(e) => (t1, Err(e)),
        }
    }
}

fn eth_call(
    t: Talk,
    rpc: &str,
    to: &str,
    data: &str,
    answers: &Vec<Answer>,
) -> (r: (Talk, Result<Double, String>))
    ensures
        (r.0.deep_view(), list::outcome(r.1)) == eth_call_spec(
            t.deep_view(),
            rpc@,
            to@,
            data@,
            answers.deep_view(),
        ),
{
    let (t1, got) = get(t, rpc, Some(call_body(to, data).as_str()), answers);
    if waits(&t1) {
        return (t1, Err(text::owned("")));
    }
    match got {
        Ok(r) => (t1, units_of(&r)),
        Err(e) => (t1, Err(e)),
    }
}

/// What a holder has of a token.
pub open spec fn balance_of_spec(
    t: TalkView,
    rpc: Seq<char>,
    token: Seq<char>,
    holder: Seq<char>,
    answers: Seq<AnswerView>,
) -> (TalkView, Result<Double, Seq<char>>) {
    eth_call_spec(
        t,
        rpc,
        token,
        "0x70a08231"@ + zero_filled_spec(text::lower_case(after_two_spec(holder))),
        answers,
    )
}

fn balance_of(
    t: Talk,
    rpc: &str,
    token: &str,
    holder: &str,
    answers: &Vec<Answer>,
) -> (r: (Talk, Result<Double, String>))
    ensures
        (r.0.deep_view(), list::outcome(r.1)) == balance_of_spec(
            t.deep_view(),
            rpc@,
            token@,
            holder@,
            answers.deep_view(),
        ),
{
    let mut line = text::owned("0x70a08231");
    line.push_str(zero_filled(text::lowercase(after_two(holder).as_str()).as_str()).as_str());
    eth_call(t, rpc, token, line.as_str(), answers)
}

/// Amounts on each chain, or why one could not be read.
#[derive(Debug)]
pub struct Amounts {
    pub parts: Vec<Double>,
    pub fault: Option<String>,
}

/// What a [`Amounts`] holds.
pub struct AmountsView {
    pub parts: Seq<Double>,
    pub fault: Option<Seq<char>>,
}

impl DeepView for Amounts {
    type V = AmountsView;

    open spec fn deep_view(&self) -> AmountsView {
        AmountsView {
            parts: self.parts.deep_view(),
            fault: self.fault.deep_view(),
        }
    }
}

/// One chain's amount.
pub open spec fn leg_balance_spec(
    t: TalkView,
    rpc: Seq<char>,
    token: Seq<char>,
    holder: Seq<char>,
    a: AmountsView,
    answers: Seq<AnswerView>,
) -> (TalkView, AmountsView) {
    if waits_spec(t) || a.fault is Some {
        (t, a)
    } else {
        let (t1, got) = balance_of_spec(t, rpc, token, holder, answers);
        if waits_spec(t1) {
            (t1, a)
        } else {
            match got {
                Ok(x) => (t1, AmountsView { parts: a.parts.push(x), ..a }),
                Err(e) => (t1, AmountsView { fault: Some(e), ..a }),
            }
        }
    }
}

fn leg_balance(
    t: Talk,
    rpc: &str,
    token: &str,
    holder: &str,
    a: Amounts,
    answers: &Vec<Answer>,
) -> (r: (Talk, Amounts))
    ensures
        r.deep_view() == leg_balance_spec(
            t.deep_view(),
            rpc@,
            token@,
            holder@,
            a.deep_view(),
            answers.deep_view(),
        ),
{
    let mut a = a;
    if waits(&t) || a.fault.is_some() {
        return (t, a);
    }
    let (t1, got) = balance_of(t, rpc, token, holder, answers);
    if waits(&t1) {
        return (t1, a);
    }
    match got {
        Ok(x) => {
            list::push(&mut a.parts, x);
            (t1, a)
        },
        Err(e) => {
            a.fault = Some(e);
            (t1, a)
        },
    }
}

/// Of the first `n` chains.
pub open spec fn read_shares_spec(
    answers: Seq<AnswerView>,
    w: VaultWalletView,
    xs: Seq<LegView>,
    t: TalkView,
    a: AmountsView,
    n: nat,
) -> (TalkView, AmountsView)
    decreases n,
{
    if n == 0 {
        (t, a)
    } else {
        let (t, a) = read_shares_spec(answers, w, xs, t, a, (n - 1) as nat);
        let l = xs[n - 1];
        let (t1, a1) = leg_balance_spec(t, l.rpc, l.vault, w.address, a, answers);
        (t1, a1)
    }
}

fn read_shares(
    answers: &Vec<Answer>,
    w: &VaultWallet,
    xs: &Vec<Leg>,
    t: Talk,
    a: Amounts,
) -> (r: (Talk, Amounts))
    ensures
        r.deep_view() == read_shares_spec(
            answers.deep_view(),
            w.deep_view(),
            xs.deep_view(),
            t.deep_view(),
            a.deep_view(),
            xs@.len(),
        ),
{
    let ghost t0 = t.deep_view();
    let ghost a0 = a.deep_view();
    let mut t = t;
    let mut a = a;
    let mut i: usize = 0;
    while i < xs.len()
        invariant
            i <= xs@.len(),
            (t.deep_view(), a.deep_view()) == read_shares_spec(
                answers.deep_view(),
                w.deep_view(),
                xs.deep_view(),
                t0,
                a0,
                i as nat,
            ),
        decreases xs@.len() - i,
    {
        let l = &xs[i];
        let (t1, a1) = leg_balance(
            t,
            l.rpc.as_str(),
            l.vault.as_str(),
            w.address.as_str(),
            a,
            answers,
        );
        t = t1;
        a = a1;
        i = i + 1;
    }
    (t, a)
}

/// The vault shares on each chain.
pub open spec fn vault_shares_spec(
    t: TalkView,
    w: VaultWalletView,
    answers: Seq<AnswerView>,
) -> (TalkView, AmountsView) {
    let a = AmountsView { parts: Seq::<Double>::empty(), fault: None };
    read_shares_spec(answers, w, w.legs, t, a, w.legs.len())
}

fn vault_shares(t: Talk, w: &VaultWallet, answers: &Vec<Answer>) -> (r: (Talk, Amounts))
    ensures
        r.deep_view() == vault_shares_spec(t.deep_view(), w.deep_view(), answers.deep_view()),
{
    let mut t = t;
    let mut a = Amounts { parts: list::none::<Double>(), fault: None };
    let (next_t, next_a) = read_shares(answers, w, &w.legs, t, a);
    t = next_t;
    a = next_a;
    (t, a)
}

/// Of the first `n` chains.
pub open spec fn read_coins_spec(
    answers: Seq<AnswerView>,
    w: VaultWalletView,
    xs: Seq<LegView>,
    t: TalkView,
    a: AmountsView,
    n: nat,
) -> (TalkView, AmountsView)
    decreases n,
{
    if n == 0 {
        (t, a)
    } else {
        let (t, a) = read_coins_spec(answers, w, xs, t, a, (n - 1) as nat);
        let l = xs[n - 1];
        let (t1, a1) = leg_balance_spec(t, l.rpc, l.token, w.address, a, answers);
        (t1, a1)
    }
}

fn read_coins(
    answers: &Vec<Answer>,
    w: &VaultWallet,
    xs: &Vec<Leg>,
    t: Talk,
    a: Amounts,
) -> (r: (Talk, Amounts))
    ensures
        r.deep_view() == read_coins_spec(
            answers.deep_view(),
            w.deep_view(),
            xs.deep_view(),
            t.deep_view(),
            a.deep_view(),
            xs@.len(),
        ),
{
    let ghost t0 = t.deep_view();
    let ghost a0 = a.deep_view();
    let mut t = t;
    let mut a = a;
    let mut i: usize = 0;
    while i < xs.len()
        invariant
            i <= xs@.len(),
            (t.deep_view(), a.deep_view()) == read_coins_spec(
                answers.deep_view(),
                w.deep_view(),
                xs.deep_view(),
                t0,
                a0,
                i as nat,
            ),
        decreases xs@.len() - i,
    {
        let l = &xs[i];
        let (t1, a1) = leg_balance(
            t,
            l.rpc.as_str(),
            l.token.as_str(),
            w.address.as_str(),
            a,
            answers,
        );
        t = t1;
        a = a1;
        i = i + 1;
    }
    (t, a)
}

/// The coins on each chain.
pub open spec fn vault_coins_spec(
    t: TalkView,
    w: VaultWalletView,
    answers: Seq<AnswerView>,
) -> (TalkView, AmountsView) {
    let a = AmountsView { parts: Seq::<Double>::empty(), fault: None };
    read_coins_spec(answers, w, w.legs, t, a, w.legs.len())
}

fn vault_coins(t: Talk, w: &VaultWallet, answers: &Vec<Answer>) -> (r: (Talk, Amounts))
    ensures
        r.deep_view() == vault_coins_spec(t.deep_view(), w.deep_view(), answers.deep_view()),
{
    let mut t = t;
    let mut a = Amounts { parts: list::none::<Double>(), fault: None };
    let (next_t, next_a) = read_coins(answers, w, &w.legs, t, a);
    t = next_t;
    a = next_a;
    (t, a)
}

/// The first `n` of them.
pub open spec fn add_plainly_spec(xs: Seq<Double>, out: Option<Double>, n: nat) -> Option<Double>
    decreases n,
{
    if n == 0 {
        out
    } else {
        let out = add_plainly_spec(xs, out, (n - 1) as nat);
        let x = xs[n - 1];
        match out {
            Some(s) => Some(s.add_spec(x)),
            None => Some(x),
        }
    }
}

fn add_plainly(xs: &Vec<Double>, out: Option<Double>) -> (r: Option<Double>)
    ensures
        r == add_plainly_spec(xs.deep_view(), out, xs@.len()),
{
    let ghost out0 = out;
    let mut out = out;
    let mut i: usize = 0;
    while i < xs.len()
        invariant
            i <= xs@.len(),
            out == add_plainly_spec(xs.deep_view(), out0, i as nat),
        decreases xs@.len() - i,
    {
        let x = xs[i];
        match out {
            Some(s) => {
                out = Some(s.plus(x));
            },
            None => {
                out = Some(x);
            },
        }
        i = i + 1;
    }
    out
}

/// A sum, one after the other.
pub open spec fn plain_sum_spec(xs: Seq<Double>) -> Double {
    let out: Option<Double> = None;
    let out = add_plainly_spec(xs, out, xs.len());
    match out {
        Some(v) => v,
        None => Double::zero_spec(),
    }
}

fn plain_sum(xs: &Vec<Double>) -> (r: Double)
    ensures
        r == plain_sum_spec(xs.deep_view()),
{
    let mut out: Option<Double> = None;
    out = add_plainly(xs, out);
    match out {
        Some(v) => v,
        None => Double::zero(),
    }
}

/// The first `n` of them.
pub open spec fn add_share_text_spec(
    shares: Seq<Double>,
    xs: Seq<LegView>,
    out: Seq<Seq<char>>,
    n: nat,
) -> Seq<Seq<char>>
    decreases n,
{
    if n == 0 {
        out
    } else {
        let out = add_share_text_spec(shares, xs, out, (n - 1) as nat);
        let l = xs[n - 1];
        let k = (n - 1) as usize;
        match list::item(shares, k) {
            Some(s) => out.push(crate::watch::pyfmt::comma_spec(s, 0) + " on "@ + l.label),
            None => out,
        }
    }
}

fn add_share_text(shares: &Vec<Double>, xs: &Vec<Leg>, out: Vec<String>) -> (r: Vec<String>)
    ensures
        r.deep_view() == add_share_text_spec(
            shares.deep_view(),
            xs.deep_view(),
            out.deep_view(),
            xs@.len(),
        ),
{
    let ghost out0 = out.deep_view();
    let mut out = out;
    let mut i: usize = 0;
    while i < xs.len()
        invariant
            i <= xs@.len(),
            out.deep_view() == add_share_text_spec(
                shares.deep_view(),
                xs.deep_view(),
                out0,
                i as nat,
            ),
        decreases xs@.len() - i,
    {
        let l = &xs[i];
        let k: usize = i;
        match list::own(list::at(shares, k)) {
            Some(s) => {
                let mut line = crate::watch::pyfmt::comma(s, 0);
                line.push_str(" on ");
                line.push_str(l.label.as_str());
                list::push(&mut out, line);
            },
            None => {},
        }
        i = i + 1;
    }
    out
}

/// How the shares read.
pub open spec fn share_texts_spec(legs: Seq<LegView>, shares: Seq<Double>) -> Seq<Seq<char>> {
    add_share_text_spec(shares, legs, Seq::<Seq<char>>::empty(), legs.len())
}

fn share_texts(legs: &Vec<Leg>, shares: &Vec<Double>) -> (r: Vec<String>)
    ensures
        r.deep_view() == share_texts_spec(legs.deep_view(), shares.deep_view()),
{
    let mut out: Vec<String> = list::none();
    out = add_share_text(shares, legs, out);
    out
}

/// A vault's reading.
pub open spec fn vault_row_spec(
    sym: Seq<char>,
    w: VaultWalletView,
    rate: Double,
    shares: Seq<Double>,
    coins: Seq<Double>,
) -> Doc {
    let none = Seq::<Doc>::empty();
    Doc::obj().with("liquid"@, Doc::Float(plain_sum_spec(coins))).with(
        "staked"@,
        Doc::Float(plain_sum_spec(shares).mul_spec(rate)),
    ).with(
        "rewards"@,
        Doc::Float(Double::zero_spec()),
    ).with(
        "unbonding"@,
        Doc::Arr(none),
    ).with(
        "unbond_days"@,
        Doc::Int(w.unbond_days),
    ).with(
        "chain"@,
        Doc::Str(w.chain),
    ).with(
        "address"@,
        Doc::Str(w.address),
    ).with(
        "note"@,
        Doc::Str(
            "v"@
                + sym
                + " "@
                + text::join_of(share_texts_spec(w.legs, shares), " + "@)
                + " at "@
                + crate::watch::pyfmt::fixed_spec(rate, 4)
                + " "@
                + sym
                + "/v"@
                + sym
                + "; pending unstake requests not read"@,
        ),
    )
}

fn vault_row(
    sym: &str,
    w: &VaultWallet,
    rate: Double,
    shares: &Vec<Double>,
    coins: &Vec<Double>,
) -> (r: Json)
    ensures
        r@ == vault_row_spec(sym@, w.deep_view(), rate, shares.deep_view(), coins.deep_view()),
{
    let none: Vec<Json> = list::none();
    let mut line = text::owned("v");
    line.push_str(sym);
    line.push_str(" ");
    line.push_str(list::join(&share_texts(&w.legs, shares), " + ").as_str());
    line.push_str(" at ");
    line.push_str(crate::watch::pyfmt::fixed(rate, 4).as_str());
    line.push_str(" ");
    line.push_str(sym);
    line.push_str("/v");
    line.push_str(sym);
    line.push_str("; pending unstake requests not read");
    Json::obj().with("liquid", Json::Float(plain_sum(coins))).with(
        "staked",
        Json::Float(plain_sum(shares).times(rate)),
    ).with(
        "rewards",
        Json::Float(Double::zero()),
    ).with(
        "unbonding",
        json::array(none),
    ).with(
        "unbond_days",
        Json::Int(w.unbond_days),
    ).with(
        "chain",
        Json::text(w.chain.as_str()),
    ).with(
        "address",
        Json::text(w.address.as_str()),
    ).with(
        "note",
        Json::text(line.as_str()),
    )
}

/// Read a vault whose rate is known.
pub open spec fn vault_read_spec(
    t: TalkView,
    sym: Seq<char>,
    w: VaultWalletView,
    rate: Double,
    answers: Seq<AnswerView>,
) -> (TalkView, Result<Doc, Seq<char>>) {
    let (t1, shares) = vault_shares_spec(t, w, answers);
    if waits_spec(t1) {
        (t1, Err(""@))
    } else {
        match shares.fault {
            Some(e) => (t1, Err(e)),
            None => {
                let (t2, coins) = vault_coins_spec(t1, w, answers);
                if waits_spec(t2) {
                    (t2, Err(""@))
                } else {
                    match coins.fault {
                        Some(e) => (t2, Err(e)),
                        None => (t2, Ok(vault_row_spec(sym, w, rate, shares.parts, coins.parts))),
                    }
                }
            },
        }
    }
}

fn vault_read(
    t: Talk,
    sym: &str,
    w: &VaultWallet,
    rate: Double,
    answers: &Vec<Answer>,
) -> (r: (Talk, Result<Json, String>))
    ensures
        (r.0.deep_view(), list::outcome(r.1)) == vault_read_spec(
            t.deep_view(),
            sym@,
            w.deep_view(),
            rate,
            answers.deep_view(),
        ),
{
    let (t1, shares) = vault_shares(t, w, answers);
    if waits(&t1) {
        return (t1, Err(text::owned("")));
    }
    match &shares.fault {
        Some(e) => (t1, Err(text::owned(e.as_str()))),
        None => {
            let (t2, coins) = vault_coins(t1, w, answers);
            if waits(&t2) {
                return (t2, Err(text::owned("")));
            }
            match &coins.fault {
                Some(e) => (t2, Err(text::owned(e.as_str()))),
                None => (t2, Ok(vault_row(sym, w, rate, &shares.parts, &coins.parts))),
            }
        },
    }
}

/// Read a vault: the coin per share from the first chain, then the shares and the coins.
pub open spec fn vault_spec(
    t: TalkView,
    sym: Seq<char>,
    w: VaultWalletView,
    answers: Seq<AnswerView>,
) -> (TalkView, Result<Doc, Seq<char>>) {
    match list::item(w.legs, 0) {
        Some(l) => {
            let (t1, got) = eth_call_spec(
                t,
                l.rpc,
                l.vault,
                "0x07a2d13a"@ + zero_filled_spec("de0b6b3a7640000"@),
                answers,
            );
            if waits_spec(t1) {
                (t1, Err(""@))
            } else {
                match got {
                    Ok(rate) => vault_read_spec(t1, sym, w, rate, answers),
                    Err(e) => (t1, Err(e)),
                }
            }
        },
        None => (t, Err("no legs"@)),
    }
}

fn vault(
    t: Talk,
    sym: &str,
    w: &VaultWallet,
    answers: &Vec<Answer>,
) -> (r: (Talk, Result<Json, String>))
    ensures
        (r.0.deep_view(), list::outcome(r.1)) == vault_spec(
            t.deep_view(),
            sym@,
            w.deep_view(),
            answers.deep_view(),
        ),
{
    match list::at(&w.legs, 0) {
        Some(l) => {
            let mut line = text::owned("0x07a2d13a");
            line.push_str(zero_filled("de0b6b3a7640000").as_str());
            let (t1, got) = eth_call(t, l.rpc.as_str(), l.vault.as_str(), line.as_str(), answers);
            if waits(&t1) {
                return (t1, Err(text::owned("")));
            }
            match got {
                Ok(rate) => vault_read(t1, sym, w, rate, answers),
                Err(e) => (t1, Err(e)),
            }
        },
        None => (t, Err(text::owned("no legs"))),
    }
}

/// A sum of outputs.
pub open spec fn sum_under_spec(s: Doc, key: Seq<char>) -> Result<Num, Seq<char>> {
    match under_spec(s, key) {
        Ok(v) => match crate::dashboard::Num::of_spec(v) {
            Some(x) => Ok(x),
            None => Err("unsupported operand type(s) for -: '"@ + pyfmt::kind_name_spec(v) + "'"@),
        },
        Err(e) => Err(e),
    }
}

fn sum_under(s: &Json, key: &str) -> (r: Result<Num, String>)
    ensures
        list::outcome(r) == sum_under_spec(s@, key@),
{
    let v = match under(s, key) {
        Ok(v) => v,
        Err(e) => {
            return Err(e);
        },
    };
    match crate::dashboard::Num::of(&v) {
        Some(x) => Ok(x),
        None => {
            let mut line = text::owned("unsupported operand type(s) for -: '");
            line.push_str(text::owned(pyfmt::kind_name(&v)).as_str());
            line.push_str("'");
            Err(line)
        },
    }
}

/// A value that counts as a whole number.
pub open spec fn whole_of_value_spec(v: Doc) -> Option<i64> {
    if v is Bool {
        if v == Doc::Bool(true) {
            Some(1)
        } else {
            Some(0)
        }
    } else {
        v.as_int()
    }
}

fn whole_of_value(v: &Json) -> (r: Option<i64>)
    ensures
        r == whole_of_value_spec(v@),
{
    if v.is_bool() {
        return if v.is_true() {
            Some(1)
        } else {
            Some(0)
        };
    }
    v.as_int()
}

/// The exact difference of two whole numbers, rounded once.
pub open spec fn both_whole_spec(a: Doc, b: Doc) -> Option<Double> {
    match whole_of_value_spec(a) {
        Some(x) => match whole_of_value_spec(b) {
            Some(y) => Some(Double::int_spec(((x - y) as i128) as int)),
            None => None,
        },
        None => None,
    }
}

fn both_whole(a: &Json, b: &Json) -> (r: Option<Double>)
    ensures
        r == both_whole_spec(a@, b@),
{
    let x: i64 = match whole_of_value(a) {
        Some(v) => v,
        None => {
            return None;
        },
    };
    let y: i64 = match whole_of_value(b) {
        Some(v) => v,
        None => {
            return None;
        },
    };
    Some(Double::of_i128((x as i128 - y as i128)))
}

/// A Bitcoin address's reading.
pub open spec fn btc_row_spec(w: BtcWalletView, r: Doc) -> Result<Doc, Seq<char>> {
    match under_spec(r, "chain_stats"@) {
        Ok(s) => match sum_under_spec(s, "funded_txo_sum"@) {
            Ok(a) => match sum_under_spec(s, "spent_txo_sum"@) {
                Ok(b) => {
                    let diff = match both_whole_spec(
                        s.get_or_null("funded_txo_sum"@),
                        s.get_or_null("spent_txo_sum"@),
                    ) {
                        Some(v) => v,
                        None => a.f_spec().sub_spec(b.f_spec()),
                    };
                    let none = Seq::<Doc>::empty();
                    Ok(
                        Doc::obj().with(
                            "liquid"@,
                            Doc::Float(diff.div_spec(Double::int_spec(100000000))),
                        ).with(
                            "staked"@,
                            Doc::Float(Double::zero_spec()),
                        ).with(
                            "rewards"@,
                            Doc::Float(Double::zero_spec()),
                        ).with(
                            "unbonding"@,
                            Doc::Arr(none),
                        ).with(
                            "unbond_days"@,
                            Doc::Int(0),
                        ).with(
                            "chain"@,
                            Doc::Str(w.chain),
                        ).with(
                            "address"@,
                            Doc::Str(w.address),
                        ),
                    )
                },
                Err(e) => Err(e),
            },
            Err(e) => Err(e),
        },
        Err(e) => Err(e),
    }
}

fn btc_row(w: &BtcWallet, r: &Json) -> (out: Result<Json, String>)
    ensures
        list::outcome(out) == btc_row_spec(w.deep_view(), r@),
{
    let s = match under(r, "chain_stats") {
        Ok(v) => v,
        Err(e) => {
            return Err(e);
        },
    };
    let a = match sum_under(&s, "funded_txo_sum") {
        Ok(v) => v,
        Err(e) => {
            return Err(e);
        },
    };
    let b = match sum_under(&s, "spent_txo_sum") {
        Ok(v) => v,
        Err(e) => {
            return Err(e);
        },
    };
    let diff = match both_whole(&s.get_copy("funded_txo_sum"), &s.get_copy("spent_txo_sum")) {
        Some(v) => v,
        None => a.f().minus(b.f()),
    };
    let none: Vec<Json> = list::none();
    Ok(
        Json::obj().with("liquid", Json::Float(diff.over(Double::of_int(100000000)))).with(
            "staked",
            Json::Float(Double::zero()),
        ).with(
            "rewards",
            Json::Float(Double::zero()),
        ).with(
            "unbonding",
            json::array(none),
        ).with(
            "unbond_days",
            Json::Int(0),
        ).with(
            "chain",
            Json::text(w.chain.as_str()),
        ).with(
            "address",
            Json::text(w.address.as_str()),
        ),
    )
}

/// Read a Bitcoin address.
pub open spec fn btc_spec(
    t: TalkView,
    w: BtcWalletView,
    answers: Seq<AnswerView>,
) -> (TalkView, Result<Doc, Seq<char>>) {
    let (t1, got) = get_spec(t, w.api + "/address/"@ + w.address, None, answers);
    if waits_spec(t1) {
        (t1, Err(""@))
    } else {
        match got {
            Ok(r) => (t1, btc_row_spec(w, r)),
            Err(e) => (t1, Err(e)),
        }
    }
}

fn btc(t: Talk, w: &BtcWallet, answers: &Vec<Answer>) -> (r: (Talk, Result<Json, String>))
    ensures
        (r.0.deep_view(), list::outcome(r.1)) == btc_spec(
            t.deep_view(),
            w.deep_view(),
            answers.deep_view(),
        ),
{
    let mut line = text::owned(w.api.as_str());
    line.push_str("/address/");
    line.push_str(w.address.as_str());
    let (t1, got) = get(t, line.as_str(), list::text_ref(&None), answers);
    if waits(&t1) {
        return (t1, Err(text::owned("")));
    }
    match got {
        Ok(r) => (t1, btc_row(w, &r)),
        Err(e) => (t1, Err(e)),
    }
}

/// Read a wallet.
pub open spec fn read_spec(
    t: TalkView,
    sym: Seq<char>,
    spec: WalletSpecView,
    answers: Seq<AnswerView>,
) -> (TalkView, Result<Doc, Seq<char>>) {
    match spec {
        WalletSpecView::Cosmos(w) => cosmos_spec(t, w, answers),
        WalletSpecView::Vault(w) => vault_spec(t, sym, w, answers),
        WalletSpecView::Btc(w) => btc_spec(t, w, answers),
    }
}

/// Read a wallet.
pub fn read(
    t: Talk,
    sym: &str,
    spec: &WalletSpec,
    answers: &Vec<Answer>,
) -> (r: (Talk, Result<Json, String>))
    ensures
        (r.0.deep_view(), list::outcome(r.1)) == read_spec(
            t.deep_view(),
            sym@,
            spec.deep_view(),
            answers.deep_view(),
        ),
{
    match spec {
        WalletSpec::Cosmos(w) => cosmos(t, w, answers),
        WalletSpec::Vault(w) => vault(t, sym, w, answers),
        WalletSpec::Btc(w) => btc(t, w, answers),
    }
}

/// What a run starts from.
#[derive(Debug)]
pub struct Books {
    /// The snapshot (`data.json`).
    pub snap: Json,
    /// The manual targets, by coin.
    pub targets: Json,
    /// Which coins an alert has fired for.
    pub state: Json,
    /// The last good reading of each wallet.
    pub last_good: Json,
}

/// What a [`Books`] holds.
pub struct BooksView {
    pub snap: Doc,
    pub targets: Doc,
    pub state: Doc,
    pub last_good: Doc,
}

impl DeepView for Books {
    type V = BooksView;

    open spec fn deep_view(&self) -> BooksView {
        BooksView {
            snap: self.snap@,
            targets: self.targets@,
            state: self.state@,
            last_good: self.last_good@,
        }
    }
}

impl Duplicate for Books {
    fn dup(&self) -> (r: Books) {
        Books {
            snap: self.snap.copy(),
            targets: self.targets.copy(),
            state: self.state.copy(),
            last_good: self.last_good.copy(),
        }
    }
}

/// What a run writes and sends.
#[derive(Debug)]
pub struct Written {
    /// `wallets.json`.
    pub out: Json,
    pub state: Json,
    pub last_good: Json,
    pub alerts: Vec<String>,
    /// What the run prints.
    pub line: String,
}

/// What a [`Written`] holds.
pub struct WrittenView {
    pub out: Doc,
    pub state: Doc,
    pub last_good: Doc,
    pub alerts: Seq<Seq<char>>,
    pub line: Seq<char>,
}

impl DeepView for Written {
    type V = WrittenView;

    open spec fn deep_view(&self) -> WrittenView {
        WrittenView {
            out: self.out@,
            state: self.state@,
            last_good: self.last_good@,
            alerts: self.alerts.deep_view(),
            line: self.line@,
        }
    }
}

/// A run that has read some of its wallets.
#[derive(Debug)]
pub struct Progress {
    pub state: Json,
    pub last_good: Json,
    pub errors: Vec<String>,
    pub alerts: Vec<String>,
    pub rows: Vec<Json>,
    pub fault: Option<String>,
}

/// What a [`Progress`] holds.
pub struct ProgressView {
    pub state: Doc,
    pub last_good: Doc,
    pub errors: Seq<Seq<char>>,
    pub alerts: Seq<Seq<char>>,
    pub rows: Seq<Doc>,
    pub fault: Option<Seq<char>>,
}

impl DeepView for Progress {
    type V = ProgressView;

    open spec fn deep_view(&self) -> ProgressView {
        ProgressView {
            state: self.state@,
            last_good: self.last_good@,
            errors: self.errors.deep_view(),
            alerts: self.alerts.deep_view(),
            rows: self.rows.deep_view(),
            fault: self.fault.deep_view(),
        }
    }
}

impl Duplicate for Progress {
    fn dup(&self) -> (r: Progress) {
        Progress {
            state: self.state.copy(),
            last_good: self.last_good.copy(),
            errors: self.errors.dup(),
            alerts: self.alerts.dup(),
            rows: self.rows.dup(),
            fault: self.fault.dup(),
        }
    }
}

/// How far a run has come: what it asks for next, what it failed on, or what it writes.
#[derive(Debug)]
pub struct Work {
    pub ask: Option<Ask>,
    pub fault: Option<String>,
    pub written: Option<Written>,
}

/// What a [`Work`] holds.
pub struct WorkView {
    pub ask: Option<AskView>,
    pub fault: Option<Seq<char>>,
    pub written: Option<WrittenView>,
}

impl DeepView for Work {
    type V = WorkView;

    open spec fn deep_view(&self) -> WorkView {
        WorkView {
            ask: self.ask.deep_view(),
            fault: self.fault.deep_view(),
            written: self.written.deep_view(),
        }
    }
}

/// Among the first `n` coins.
pub open spec fn find_unnamed_spec(xs: Seq<Doc>, out: bool, n: nat) -> bool {
    out || list::some(xs, |c: Doc| !(c.get("sym"@) is Some), n)
}

fn find_unnamed(xs: &Vec<Json>, out: bool) -> (r: bool)
    ensures
        r == find_unnamed_spec(xs.deep_view(), out, xs@.len()),
{
    let ghost out0 = out;
    let mut out = out;
    let mut i: usize = 0;
    while i < xs.len()
        invariant
            i <= xs@.len(),
            out == find_unnamed_spec(xs.deep_view(), out0, i as nat),
        decreases xs@.len() - i,
    {
        let c = &xs[i];
        if !c.contains_key("sym") {
            out = true;
        }
        assert(xs.deep_view()[i as int] == xs@[i as int].deep_view());
        assert(out == find_unnamed_spec(xs.deep_view(), out0, (i + 1) as nat));
        i = i + 1;
    }
    out
}

/// Whether a coin of the snapshot has no name.
pub open spec fn unnamed_coin_spec(snap: Doc) -> bool {
    find_unnamed_spec(
        snap.get_or_null("coins"@).items(),
        false,
        snap.get_or_null("coins"@).items().len(),
    )
}

fn unnamed_coin(snap: &Json) -> (r: bool)
    ensures
        r == unnamed_coin_spec(snap@),
{
    let mut out = false;
    out = find_unnamed(&json::items(&snap.get_copy("coins")), out);
    out
}

/// Among the first `n` coins.
pub open spec fn find_bot_value_spec(
    key: Seq<char>,
    sym: Seq<char>,
    xs: Seq<Doc>,
    out: Doc,
    n: nat,
) -> Doc
    decreases n,
{
    if n == 0 {
        out
    } else {
        let out = find_bot_value_spec(key, sym, xs, out, (n - 1) as nat);
        let c = xs[n - 1];
        if c.get_or_null("sym"@).py_str() == sym {
            c.get_or_null(key)
        } else {
            out
        }
    }
}

fn find_bot_value(key: &str, sym: &str, xs: &Vec<Json>, out: Json) -> (r: Json)
    ensures
        r@ == find_bot_value_spec(key@, sym@, xs.deep_view(), out@, xs@.len()),
{
    let ghost out0 = out@;
    let mut out = out;
    let mut i: usize = 0;
    while i < xs.len()
        invariant
            i <= xs@.len(),
            out@ == find_bot_value_spec(key@, sym@, xs.deep_view(), out0, i as nat),
        decreases xs@.len() - i,
    {
        let c = &xs[i];
        if text::same(c.get_copy("sym").py_str().as_str(), sym) {
            out = c.get_copy(key);
        }
        i = i + 1;
    }
    out
}

/// A value of the bot's own coin of a name; the last one of that name counts.
pub open spec fn bot_value_spec(snap: Doc, sym: Seq<char>, key: Seq<char>) -> Doc {
    let out = Doc::Null;
    find_bot_value_spec(
        key,
        sym,
        snap.get_or_null("coins"@).items(),
        out,
        snap.get_or_null("coins"@).items().len(),
    )
}

fn bot_value(snap: &Json, sym: &str, key: &str) -> (r: Json)
    ensures
        r@ == bot_value_spec(snap@, sym@, key@),
{
    let mut out = Json::Null;
    out = find_bot_value(key, sym, &json::items(&snap.get_copy("coins")), out);
    out
}

/// Whether the snapshot's regime is a confirmed bull.
pub open spec fn confirmed_bull_spec(snap: Doc) -> bool {
    let r = snap.get_or_null("regime"@);
    r.truthy()
        && r.get_or_null("label"@) == Doc::Str("bull"@)
        && r.get_or_null("confirmed"@).truthy()
}

/// Whether the snapshot's regime is a confirmed bull.
pub fn confirmed_bull(snap: &Json) -> (r: bool)
    ensures
        r == confirmed_bull_spec(snap@),
{
    let r = snap.get_copy("regime");
    r.truthy() && r.get_copy("label").is_text("bull") && r.get_copy("confirmed").truthy()
}

/// The number under a key that has to be there.
pub open spec fn needed_spec(d: Doc, key: Seq<char>) -> Result<Num, Seq<char>> {
    match d.get(key) {
        Some(v) => match crate::dashboard::Num::of_spec(v) {
            Some(x) => Ok(x),
            None => Err("unsupported operand type: '"@ + pyfmt::kind_name_spec(v) + "'"@),
        },
        None => Err("KeyError"@),
    }
}

fn needed(d: &Json, key: &str) -> (r: Result<Num, String>)
    ensures
        list::outcome(r) == needed_spec(d@, key@),
{
    match d.get(key) {
        Some(v) => match crate::dashboard::Num::of(v) {
            Some(x) => Ok(x),
            None => {
                let mut line = text::owned("unsupported operand type: '");
                line.push_str(text::owned(pyfmt::kind_name(v)).as_str());
                line.push_str("'");
                Err(line)
            },
        },
        None => Err(text::owned("KeyError")),
    }
}

/// The first `n` of them.
pub open spec fn add_unbonding_amounts_spec(
    xs: Seq<Doc>,
    parts: Seq<Num>,
    fault: Option<Seq<char>>,
    n: nat,
) -> (Seq<Num>, Option<Seq<char>>)
    decreases n,
{
    if n == 0 {
        (parts, fault)
    } else {
        let (parts, fault) = add_unbonding_amounts_spec(xs, parts, fault, (n - 1) as nat);
        let x = xs[n - 1];
        if fault is None {
            match needed_spec(x, "amount"@) {
                Ok(a) => (parts.push(a), fault),
                Err(e) => (parts, Some(e)),
            }
        } else {
            (parts, fault)
        }
    }
}

fn add_unbonding_amounts(
    xs: &Vec<Json>,
    parts: Vec<Num>,
    fault: Option<String>,
) -> (r: (Vec<Num>, Option<String>))
    ensures
        r.deep_view() == add_unbonding_amounts_spec(
            xs.deep_view(),
            parts.deep_view(),
            fault.deep_view(),
            xs@.len(),
        ),
{
    let ghost parts0 = parts.deep_view();
    let ghost fault0 = fault.deep_view();
    let mut parts = parts;
    let mut fault = fault;
    let mut i: usize = 0;
    while i < xs.len()
        invariant
            i <= xs@.len(),
            (parts.deep_view(), fault.deep_view()) == add_unbonding_amounts_spec(
                xs.deep_view(),
                parts0,
                fault0,
                i as nat,
            ),
        decreases xs@.len() - i,
    {
        let x = &xs[i];
        if fault.is_none() {
            match needed(x, "amount") {
                Ok(a) => {
                    list::push(&mut parts, a);
                },
                Err(e) => {
                    fault = Some(e);
                },
            }
        }
        i = i + 1;
    }
    (parts, fault)
}

/// What unbonds of a wallet.
pub open spec fn unbonding_total_spec(wal: Doc) -> Result<Num, Seq<char>> {
    match wal.get("unbonding"@) {
        Some(u) => {
            let parts = Seq::<Num>::empty();
            let fault: Option<Seq<char>> = None;
            let (parts, fault) = add_unbonding_amounts_spec(
                u.items(),
                parts,
                fault,
                u.items().len(),
            );
            match fault {
                Some(e) => Err(e),
                None => Ok(crate::dashboard::py_sum_spec(parts)),
            }
        },
        None => Err("'unbonding'"@),
    }
}

fn unbonding_total(wal: &Json) -> (r: Result<Num, String>)
    ensures
        list::outcome(r) == unbonding_total_spec(wal@),
{
    match wal.get("unbonding") {
        Some(u) => {
            let mut parts: Vec<Num> = list::none();
            let mut fault: Option<String> = None;
            let (next_parts, next_fault) = add_unbonding_amounts(&json::items(u), parts, fault);
            parts = next_parts;
            fault = next_fault;
            match fault {
                Some(e) => Err(e),
                None => Ok(crate::dashboard::py_sum(&parts)),
            }
        },
        None => Err(text::owned("'unbonding'")),
    }
}

/// A coin's price: the one that was read where it counts, otherwise the bot's own.
pub open spec fn price_json_spec(cg: Doc, gid: Seq<char>, own: Doc) -> Doc {
    let p = cg.get_or_null(gid).get_or_null("usd"@);
    if p.truthy() {
        p
    } else {
        own
    }
}

/// A coin's price: the one that was read where it counts, otherwise the bot's own.
pub fn price_json(cg: &Json, gid: &str, own: &Json) -> (r: Json)
    ensures
        r@ == price_json_spec(cg@, gid@, own@),
{
    let p = cg.get_copy(gid).get_copy("usd");
    if p.truthy() {
        return p;
    }
    own.copy()
}

/// A number that is not zero.
pub open spec fn nonzero_spec(x: Option<Double>) -> Option<Double> {
    match x {
        Some(v) => if !v.eq_spec(Double::zero_spec()) {
            Some(v)
        } else {
            None
        },
        None => None,
    }
}

fn nonzero(x: Option<Double>) -> (r: Option<Double>)
    ensures
        r == nonzero_spec(x),
{
    match x {
        Some(v) => {
            if !v.same(Double::zero()) {
                return Some(v);
            }
            None
        },
        None => None,
    }
}

/// The first sell tranche of a coin, and where it is from.
#[derive(Debug)]
pub struct Rung {
    pub price: Option<Double>,
    pub src: Option<String>,
}

/// What a [`Rung`] holds.
pub struct RungView {
    pub price: Option<Double>,
    pub src: Option<Seq<char>>,
}

impl DeepView for Rung {
    type V = RungView;

    open spec fn deep_view(&self) -> RungView {
        RungView {
            price: self.price,
            src: self.src.deep_view(),
        }
    }
}

/// The first sell tranche of a coin: the manual target where there is one, otherwise a multiple of the bot's cost.
pub open spec fn rung_of_spec(
    targets: Doc,
    sym: Seq<char>,
    cost: Doc,
    tranche_x: Double,
) -> Result<RungView, Seq<char>> {
    match targets.get(sym) {
        Some(t) => match dashboard::py_float_spec(t) {
            Ok(x) => Ok(RungView { price: Some(x), src: Some("manual target"@) }),
            Err(e) => Err(e),
        },
        None => if cost.truthy() {
            Ok(
                RungView {
                    price: Some(
                        (match cost.to_float() {
                            Some(v) => v,
                            None => Double::zero_spec(),
                        }).mul_spec(
                            tranche_x,
                        ),
                    ),
                    src: Some(crate::watch::pyfmt::g_spec(tranche_x, 6) + "x bot cost"@),
                },
            )
        } else {
            Ok(RungView { price: None, src: None })
        },
    }
}

/// The first sell tranche of a coin: the manual target where there is one, otherwise a multiple of the bot's cost.
pub fn rung_of(
    targets: &Json,
    sym: &str,
    cost: &Json,
    tranche_x: Double,
) -> (r: Result<Rung, String>)
    ensures
        list::outcome(r) == rung_of_spec(targets@, sym@, cost@, tranche_x),
{
    match targets.get(sym) {
        Some(t) => {
            let x = match dashboard::py_float(t) {
                Ok(v) => v,
                Err(e) => {
                    return Err(e);
                },
            };
            Ok(Rung { price: Some(x), src: Some(text::owned("manual target")) })
        },
        None => {
            if cost.truthy() {
                let mut line = crate::watch::pyfmt::g(tranche_x, 6);
                line.push_str("x bot cost");
                return Ok(
                    Rung {
                        price: Some(
                            (match cost.to_float() {
                                Some(v) => v,
                                None => Double::zero(),
                            }).times(
                                tranche_x,
                            ),
                        ),
                        src: Some(line),
                    },
                );
            }
            Ok(Rung { price: None, src: None })
        },
    }
}

/// How far below the tranche the alert fires, in percent, for a coin that takes some days to unbond.
pub open spec fn lead_of_spec(lead_pct: Double, days: Double) -> Double {
    lead_pct.mul_spec(days).div_spec(Double::int_spec(21))
}

/// How far below the tranche the alert fires, in percent, for a coin that takes some days to unbond.
pub fn lead_of(lead_pct: Double, days: Double) -> (r: Double)
    ensures
        r == lead_of_spec(lead_pct, days),
{
    lead_pct.times(days).over(Double::of_int(21))
}

/// The price from which the alert fires.
pub open spec fn trigger_of_spec(rung: Option<Double>, lead: Double) -> Option<Double> {
    match nonzero_spec(rung) {
        Some(r) => Some(
            r.mul_spec(Double::int_spec(1).sub_spec(lead.div_spec(Double::int_spec(100)))),
        ),
        None => None,
    }
}

/// The price from which the alert fires.
pub fn trigger_of(rung: Option<Double>, lead: Double) -> (r: Option<Double>)
    ensures
        r == trigger_of_spec(rung, lead),
{
    match nonzero(rung) {
        Some(r) => Some(r.times(Double::of_int(1).minus(lead.over(Double::of_int(100))))),
        None => None,
    }
}

/// A price that is a number other than zero.
pub open spec fn price_number_spec(price: Doc) -> Option<Num> {
    match crate::dashboard::Num::of_spec(price) {
        Some(p) => if !p.f_spec().eq_spec(Double::zero_spec()) {
            Some(p)
        } else {
            None
        },
        None => None,
    }
}

/// A price that is a number other than zero.
pub fn price_number(price: &Json) -> (r: Option<Num>)
    ensures
        r == price_number_spec(price@),
{
    match crate::dashboard::Num::of(price) {
        Some(p) => {
            if !p.f().same(Double::zero()) {
                return Some(p);
            }
            None
        },
        None => None,
    }
}

/// Whether a coin's alert has fired and not been armed again.
pub open spec fn has_fired_spec(state: Doc, sym: Seq<char>) -> bool {
    state.get_or_null(sym).get_or_null("fired"@).truthy()
}

fn has_fired(state: &Json, sym: &str) -> (r: bool)
    ensures
        r == has_fired_spec(state@, sym@),
{
    state.get_copy(sym).get_copy("fired").truthy()
}

/// Whether unbonding is due.
pub open spec fn is_hit_spec(price: Double, trigger: Double, trail_only: bool, bull: bool) -> bool {
    trigger.le_spec(price) && (!trail_only || bull)
}

/// Whether unbonding is due.
pub fn is_hit(price: Double, trigger: Double, trail_only: bool, bull: bool) -> (r: bool)
    ensures
        r == is_hit_spec(price, trigger, trail_only, bull),
{
    trigger.le(price) && (!trail_only || bull)
}

/// Whether the price has fallen back far enough for the alert to be armed again.
pub open spec fn rearms_spec(price: Double, trigger: Double, rearm_pct: Double) -> bool {
    price.lt_spec(
        trigger.mul_spec(Double::int_spec(1).sub_spec(rearm_pct.div_spec(Double::int_spec(100)))),
    )
}

/// Whether the price has fallen back far enough for the alert to be armed again.
pub fn rearms(price: Double, trigger: Double, rearm_pct: Double) -> (r: bool)
    ensures
        r == rearms_spec(price, trigger, rearm_pct),
{
    price.lt(trigger.times(Double::of_int(1).minus(rearm_pct.over(Double::of_int(100)))))
}

/// The alert state after a reading: a hit fires an armed alert, a price that fell back arms a fired one.
pub open spec fn next_state_spec(
    state: Doc,
    sym: Seq<char>,
    hit: bool,
    rearm: bool,
    now: Double,
) -> Doc {
    let fired = has_fired_spec(state, sym);
    if hit && !fired {
        state.set(
            sym,
            Doc::obj().with("fired"@, Doc::Bool(true)).with(
                "ts"@,
                Doc::Int(now.trunc_spec().cast_spec(i64::MIN as int, i64::MAX as int) as i64),
            ),
        )
    } else if !hit && fired && rearm {
        state.set(
            sym,
            Doc::obj().with("fired"@, Doc::Bool(false)).with(
                "ts"@,
                Doc::Int(now.trunc_spec().cast_spec(i64::MIN as int, i64::MAX as int) as i64),
            ),
        )
    } else {
        state
    }
}

/// The alert state after a reading: a hit fires an armed alert, a price that fell back arms a fired one.
pub fn next_state(state: Json, sym: &str, hit: bool, rearm: bool, now: Double) -> (r: Json)
    ensures
        r@ == next_state_spec(state@, sym@, hit, rearm, now),
{
    let mut state = state;
    let fired = has_fired(&state, sym);
    if hit && !fired {
        state.set(
            sym,
            Json::obj().with("fired", Json::Bool(true)).with(
                "ts",
                Json::Int(now.trunc().to_i64()),
            ),
        );
    } else if !hit && fired && rearm {
        state.set(
            sym,
            Json::obj().with("fired", Json::Bool(false)).with(
                "ts",
                Json::Int(now.trunc().to_i64()),
            ),
        );
    }
    state
}

/// The numbers of one wallet.
#[derive(Clone, Copy, Debug)]
pub struct Reading {
    pub unbonding: Num,
    pub staked: Num,
    pub unbond_days: Num,
    pub total: Num,
}

impl DeepView for Reading {
    type V = Reading;

    open spec fn deep_view(&self) -> Reading {
        *self
    }
}

/// The numbers of one wallet.
pub open spec fn reading_of_spec(wal: Doc) -> Result<Reading, Seq<char>> {
    match unbonding_total_spec(wal) {
        Ok(u) => match needed_spec(wal, "staked"@) {
            Ok(s) => match needed_spec(wal, "unbond_days"@) {
                Ok(days) => match needed_spec(wal, "liquid"@) {
                    Ok(liquid) => match needed_spec(wal, "rewards"@) {
                        Ok(rewards) => Ok(
                            Reading {
                                unbonding: u,
                                staked: s,
                                unbond_days: days,
                                total: liquid.plus_spec(s).plus_spec(u).plus_spec(rewards),
                            },
                        ),
                        Err(e) => Err(e),
                    },
                    Err(e) => Err(e),
                },
                Err(e) => Err(e),
            },
            Err(e) => Err(e),
        },
        Err(e) => Err(e),
    }
}

fn reading_of(wal: &Json) -> (r: Result<Reading, String>)
    ensures
        list::outcome(r) == reading_of_spec(wal@),
{
    let u = match unbonding_total(wal) {
        Ok(v) => v,
        Err(e) => {
            return Err(e);
        },
    };
    let s = match needed(wal, "staked") {
        Ok(v) => v,
        Err(e) => {
            return Err(e);
        },
    };
    let days = match needed(wal, "unbond_days") {
        Ok(v) => v,
        Err(e) => {
            return Err(e);
        },
    };
    let liquid = match needed(wal, "liquid") {
        Ok(v) => v,
        Err(e) => {
            return Err(e);
        },
    };
    let rewards = match needed(wal, "rewards") {
        Ok(v) => v,
        Err(e) => {
            return Err(e);
        },
    };
    Ok(
        Reading {
            unbonding: u,
            staked: s,
            unbond_days: days,
            total: liquid.plus(s).plus(u).plus(rewards),
        },
    )
}

/// What an alert says.
pub open spec fn alert_text_spec(
    sym: Seq<char>,
    r: Reading,
    price: Double,
    lead: Double,
    rung: RungView,
) -> Seq<char> {
    let src = match rung.src {
        Some(v) => v,
        None => ""@,
    };
    sym
        + ": start unbonding "@
        + crate::watch::pyfmt::comma_spec(r.staked.f_spec(), 0)
        + " staked now. Price $"@
        + crate::watch::pyfmt::g_spec(price, 4)
        + " is inside the "@
        + crate::watch::pyfmt::fixed_spec(lead, 0)
        + "% lead band of the "@
        + src
        + " rung $"@
        + crate::watch::pyfmt::g_spec(
            match rung.price {
                Some(v) => v,
                None => Double::zero_spec(),
            },
            4,
        )
        + "; unlock takes "@
        + r.unbond_days.json_spec().py_str()
        + "d."@
}

fn alert_text(sym: &str, r: Reading, price: Double, lead: Double, rung: &Rung) -> (out: String)
    ensures
        out@ == alert_text_spec(sym@, r, price, lead, rung.deep_view()),
{
    let src = match rung.src.dup() {
        Some(v) => v,
        None => text::owned(""),
    };
    let mut line = text::owned(sym);
    line.push_str(": start unbonding ");
    line.push_str(crate::watch::pyfmt::comma(r.staked.f(), 0).as_str());
    line.push_str(" staked now. Price $");
    line.push_str(crate::watch::pyfmt::g(price, 4).as_str());
    line.push_str(" is inside the ");
    line.push_str(crate::watch::pyfmt::fixed(lead, 0).as_str());
    line.push_str("% lead band of the ");
    line.push_str(src.as_str());
    line.push_str(" rung $");
    line.push_str(
        crate::watch::pyfmt::g(
            match rung.price {
                Some(v) => v,
                None => Double::zero(),
            },
            4,
        ).as_str(),
    );
    line.push_str("; unlock takes ");
    line.push_str(r.unbond_days.json().py_str().as_str());
    line.push_str("d.");
    line
}

/// What a reading comes to: how the wallet stands, the alert state, and the alert that is due.
#[derive(Debug)]
pub struct Verdict {
    pub status: String,
    pub state: Json,
    pub alert: Option<String>,
}

/// What a [`Verdict`] holds.
pub struct VerdictView {
    pub status: Seq<char>,
    pub state: Doc,
    pub alert: Option<Seq<char>>,
}

impl DeepView for Verdict {
    type V = VerdictView;

    open spec fn deep_view(&self) -> VerdictView {
        VerdictView {
            status: self.status@,
            state: self.state@,
            alert: self.alert.deep_view(),
        }
    }
}

/// How a wallet stands with nothing staked.
pub open spec fn locked_status_spec(days: Double) -> Seq<char> {
    if !days.eq_spec(Double::zero_spec()) {
        "nothing staked"@
    } else {
        "liquid (no lock)"@
    }
}

/// How a wallet stands with nothing staked.
pub fn locked_status(days: Double) -> (r: String)
    ensures
        r@ == locked_status_spec(days),
{
    if !days.same(Double::zero()) {
        return text::owned("nothing staked");
    }
    text::owned("liquid (no lock)")
}

/// How a wallet stands before a price is looked at.
pub open spec fn resting_status_spec(rung: Option<Double>) -> Seq<char> {
    match nonzero_spec(rung) {
        Some(x) => "watching"@,
        None => "no rung"@,
    }
}

/// How a wallet stands before a price is looked at.
pub fn resting_status(rung: Option<Double>) -> (r: String)
    ensures
        r@ == resting_status_spec(rung),
{
    match nonzero(rung) {
        Some(x) => text::owned("watching"),
        None => text::owned("no rung"),
    }
}

/// What a reading comes to where there is a trigger and a price.
pub open spec fn judged_spec(
    w: WalletKnobsView,
    state: Doc,
    sym: Seq<char>,
    r: Reading,
    rung: RungView,
    lead: Double,
    price: Double,
    trigger: Double,
    bull: bool,
    now: Double,
) -> VerdictView {
    let trail_only = w.trail_only.contains(sym);
    let hit = is_hit_spec(price, trigger, trail_only, bull);
    let fired = has_fired_spec(state, sym);
    let status = resting_status_spec(rung.price);
    let status = if hit {
        "UNBOND NOW"@
    } else if trigger.le_spec(price) && trail_only {
        "in band, waits for confirmed bull"@
    } else {
        status
    };
    let alert: Option<Seq<char>> = None;
    let alert = if hit && !fired {
        Some(alert_text_spec(sym, r, price, lead, rung))
    } else {
        alert
    };
    VerdictView {
        status,
        state: next_state_spec(state, sym, hit, rearms_spec(price, trigger, w.rearm_pct), now),
        alert,
    }
}

fn judged(
    w: &WalletKnobs,
    state: Json,
    sym: &str,
    r: Reading,
    rung: &Rung,
    lead: Double,
    price: Double,
    trigger: Double,
    bull: bool,
    now: Double,
) -> (out: Verdict)
    ensures
        out.deep_view() == judged_spec(
            w.deep_view(),
            state@,
            sym@,
            r,
            rung.deep_view(),
            lead,
            price,
            trigger,
            bull,
            now,
        ),
{
    let trail_only = list::holds(&w.trail_only, sym);
    let hit = is_hit(price, trigger, trail_only, bull);
    let fired = has_fired(&state, sym);
    let mut status = resting_status(rung.price);
    if hit {
        status = text::owned("UNBOND NOW");
    } else if trigger.le(price) && trail_only {
        status = text::owned("in band, waits for confirmed bull");
    }
    let mut alert: Option<String> = None;
    if hit && !fired {
        alert = Some(alert_text(sym, r, price, lead, rung));
    }
    Verdict {
        status,
        state: next_state(state, sym, hit, rearms(price, trigger, w.rearm_pct), now),
        alert,
    }
}

/// What a reading comes to.
pub open spec fn verdict_of_spec(
    w: WalletKnobsView,
    state: Doc,
    sym: Seq<char>,
    r: Reading,
    rung: RungView,
    lead: Double,
    price: Option<Num>,
    bull: bool,
    now: Double,
) -> VerdictView {
    if r.staked.f_spec().le_spec(Double::zero_spec()) {
        VerdictView { status: locked_status_spec(r.unbond_days.f_spec()), state, alert: None }
    } else {
        match nonzero_spec(trigger_of_spec(rung.price, lead)) {
            Some(t) => match price {
                Some(p) => judged_spec(w, state, sym, r, rung, lead, p.f_spec(), t, bull, now),
                None => VerdictView {
                    status: resting_status_spec(rung.price),
                    state,
                    alert: None,
                },
            },
            None => VerdictView { status: resting_status_spec(rung.price), state, alert: None },
        }
    }
}

fn verdict_of(
    w: &WalletKnobs,
    state: Json,
    sym: &str,
    r: Reading,
    rung: &Rung,
    lead: Double,
    price: Option<Num>,
    bull: bool,
    now: Double,
) -> (out: Verdict)
    ensures
        out.deep_view() == verdict_of_spec(
            w.deep_view(),
            state@,
            sym@,
            r,
            rung.deep_view(),
            lead,
            price,
            bull,
            now,
        ),
{
    if r.staked.f().le(Double::zero()) {
        return Verdict { status: locked_status(r.unbond_days.f()), state, alert: None };
    }
    match nonzero(trigger_of(rung.price, lead)) {
        Some(t) => match price {
            Some(p) => judged(w, state, sym, r, rung, lead, p.f(), t, bull, now),
            None => Verdict { status: resting_status(rung.price), state, alert: None },
        },
        None => Verdict { status: resting_status(rung.price), state, alert: None },
    }
}

/// A part in percent of a whole, zero of nothing.
pub open spec fn share_spec(part: Double, whole: Double) -> Double {
    if !whole.eq_spec(Double::zero_spec()) {
        part.div_spec(whole).mul_spec(Double::int_spec(100))
    } else {
        Double::zero_spec()
    }
}

fn share(part: Double, whole: Double) -> (r: Double)
    ensures
        r == share_spec(part, whole),
{
    if !whole.same(Double::zero()) {
        return part.over(whole).times(Double::of_int(100));
    }
    Double::zero()
}

/// How far it is to the trigger, in percent.
pub open spec fn to_trigger_spec(trigger: Option<Double>, price: Option<Num>) -> Option<Double> {
    match nonzero_spec(trigger) {
        Some(t) => match price {
            Some(p) => Some(
                t.div_spec(p.f_spec()).sub_spec(Double::int_spec(1)).mul_spec(
                    Double::int_spec(100),
                ),
            ),
            None => None,
        },
        None => None,
    }
}

fn to_trigger(trigger: Option<Double>, price: Option<Num>) -> (r: Option<Double>)
    ensures
        r == to_trigger_spec(trigger, price),
{
    let t = match nonzero(trigger) {
        Some(v) => v,
        None => {
            return None;
        },
    };
    let p = match price {
        Some(v) => v,
        None => {
            return None;
        },
    };
    Some(t.over(p.f()).minus(Double::of_int(1)).times(Double::of_int(100)))
}

/// What a wallet is worth.
pub open spec fn value_json_spec(total: Num, price: Option<Num>) -> Doc {
    match price {
        Some(p) => total.times_spec(p).json_spec(),
        None => Doc::Null,
    }
}

fn value_json(total: Num, price: Option<Num>) -> (r: Json)
    ensures
        r@ == value_json_spec(total, price),
{
    match price {
        Some(p) => total.times(p).json(),
        None => Json::Null,
    }
}

/// The first `n` of them.
pub open spec fn copy_entries_spec(xs: Seq<(Seq<char>, Doc)>, row: Doc, n: nat) -> Doc
    decreases n,
{
    if n == 0 {
        row
    } else {
        let row = copy_entries_spec(xs, row, (n - 1) as nat);
        let e = xs[n - 1];
        row.set(e.0, e.1)
    }
}

fn copy_entries(xs: &Vec<(String, Json)>, row: Json) -> (r: Json)
    ensures
        r@ == copy_entries_spec(xs.deep_view(), row@, xs@.len()),
{
    let ghost row0 = row@;
    let mut row = row;
    let mut i: usize = 0;
    while i < xs.len()
        invariant
            i <= xs@.len(),
            row@ == copy_entries_spec(xs.deep_view(), row0, i as nat),
        decreases xs@.len() - i,
    {
        let e = &xs[i];
        row.set(e.0.as_str(), e.1.copy());
        i = i + 1;
    }
    row
}

/// A wallet's row.
pub open spec fn row_json_spec(
    sym: Seq<char>,
    wal: Doc,
    r: Reading,
    price: Doc,
    cost: Doc,
    rung: RungView,
    lead: Double,
    status: Seq<char>,
) -> Doc {
    let row = Doc::obj().with("sym"@, Doc::Str(sym));
    let row = copy_entries_spec(wal.entries(), row, wal.entries().len());
    let p = price_number_spec(price);
    let trigger = trigger_of_spec(rung.price, lead);
    let row = row.set("unbonding_total"@, r.unbonding.json_spec());
    let row = row.set("total"@, r.total.json_spec());
    let row = row.set("price"@, price);
    let row = row.set("value"@, value_json_spec(r.total, p));
    let row = row.set(
        "staked_pct"@,
        Doc::Float(share_spec(r.staked.plus_spec(r.unbonding).f_spec(), r.total.f_spec())),
    );
    let row = row.set("cost"@, cost);
    let row = row.set("rung"@, json::float_or_null(rung.price));
    let row = row.set("rung_src"@, json::text_or_null(rung.src));
    let row = row.set("lead_pct"@, Doc::Float(lead));
    let row = row.set("trigger"@, json::float_or_null(trigger));
    let row = row.set("to_trigger_pct"@, json::float_or_null(to_trigger_spec(trigger, p)));
    row.set("status"@, Doc::Str(status))
}

fn row_json(
    sym: &str,
    wal: &Json,
    r: Reading,
    price: &Json,
    cost: &Json,
    rung: &Rung,
    lead: Double,
    status: &str,
) -> (out: Json)
    ensures
        out@ == row_json_spec(sym@, wal@, r, price@, cost@, rung.deep_view(), lead, status@),
{
    let mut row = Json::obj().with("sym", Json::text(sym));
    row = copy_entries(&json::entries(wal), row);
    let p = price_number(price);
    let trigger = trigger_of(rung.price, lead);
    row.set("unbonding_total", r.unbonding.json());
    row.set("total", r.total.json());
    row.set("price", price.copy());
    row.set("value", value_json(r.total, p));
    row.set("staked_pct", Json::Float(share(r.staked.plus(r.unbonding).f(), r.total.f())));
    row.set("cost", cost.copy());
    row.set("rung", json::number_or_null(rung.price));
    row.set("rung_src", json::string_or_null(list::text_ref(&rung.src.dup())));
    row.set("lead_pct", Json::Float(lead));
    row.set("trigger", json::number_or_null(trigger));
    row.set("to_trigger_pct", json::number_or_null(to_trigger(trigger, p)));
    row.set("status", Json::text(status));
    row
}

/// A run that ends with an error.
pub open spec fn failed_with_spec(p: ProgressView, why: Seq<char>) -> ProgressView {
    ProgressView { fault: Some(why), ..p }
}

fn failed_with(p: Progress, why: &str) -> (r: Progress)
    ensures
        r.deep_view() == failed_with_spec(p.deep_view(), why@),
{
    let mut p = p;
    p.fault = Some(text::owned(why));
    p
}

/// Add a wallet that was read: its row, its alert and the alert state.
pub open spec fn judge_wallet_spec(
    d: DashConfigView,
    b: BooksView,
    p: ProgressView,
    sym: Seq<char>,
    wal: Doc,
    cg: Doc,
    now: Double,
) -> ProgressView {
    let price = price_json_spec(
        cg,
        match crate::dashboard::id_of_spec(d.coingecko, sym) {
            Some(v) => v,
            None => ""@,
        },
        bot_value_spec(b.snap, sym, "price"@),
    );
    let cost = bot_value_spec(b.snap, sym, "entry"@);
    match reading_of_spec(wal) {
        Ok(r) => match rung_of_spec(b.targets, sym, cost, d.wallets.tranche_x) {
            Ok(rung) => {
                let lead = lead_of_spec(d.wallets.lead_pct, r.unbond_days.f_spec());
                let v = verdict_of_spec(
                    d.wallets,
                    p.state,
                    sym,
                    r,
                    rung,
                    lead,
                    price_number_spec(price),
                    confirmed_bull_spec(b.snap),
                    now,
                );
                let p = match v.alert {
                    Some(a) => ProgressView { alerts: p.alerts.push(a), ..p },
                    None => p,
                };
                let p = ProgressView {
                    rows: p.rows.push(
                        row_json_spec(sym, wal, r, price, cost, rung, lead, v.status),
                    ),
                    ..p
                };
                ProgressView { state: v.state, ..p }
            },
            Err(e) => failed_with_spec(p, e),
        },
        Err(e) => failed_with_spec(p, e),
    }
}

/// Add a wallet that was read: its row, its alert and the alert state.
pub fn judge_wallet(
    d: &DashConfig,
    b: &Books,
    p: Progress,
    sym: &str,
    wal: &Json,
    cg: &Json,
    now: Double,
) -> (r: Progress)
    ensures
        r.deep_view() == judge_wallet_spec(
            d.deep_view(),
            b.deep_view(),
            p.deep_view(),
            sym@,
            wal@,
            cg@,
            now,
        ),
{
    let mut p = p;
    let price = price_json(
        cg,
        (match crate::dashboard::id_of(&d.coingecko, sym) {
            Some(v) => v,
            None => text::owned(""),
        }).as_str(),
        &bot_value(&b.snap, sym, "price"),
    );
    let cost = bot_value(&b.snap, sym, "entry");
    match reading_of(wal) {
        Ok(r) => match rung_of(&b.targets, sym, &cost, d.wallets.tranche_x) {
            Ok(rung) => {
                let lead = lead_of(d.wallets.lead_pct, r.unbond_days.f());
                let v = verdict_of(
                    &d.wallets,
                    p.state.dup(),
                    sym,
                    r,
                    &rung,
                    lead,
                    price_number(&price),
                    confirmed_bull(&b.snap),
                    now,
                );
                match &v.alert {
                    Some(a) => {
                        list::push(&mut p.alerts, a.dup());
                    },
                    None => {},
                }
                list::push(
                    &mut p.rows,
                    row_json(sym, wal, r, &price, &cost, &rung, lead, v.status.as_str()),
                );
                p.state = v.state.copy();
                p
            },
            Err(e) => failed_with(p, e.as_str()),
        },
        Err(e) => failed_with(p, e.as_str()),
    }
}

/// Add a wallet: the reading that came back, or the last good one marked `stale`; one that never read is left out.
pub open spec fn take_reading_spec(
    d: DashConfigView,
    b: BooksView,
    p: ProgressView,
    sym: Seq<char>,
    got: Result<Doc, Seq<char>>,
    cg: Doc,
    now: Double,
) -> ProgressView {
    match got {
        Ok(x) => {
            let wal = x;
            let wal = wal.set(
                "read_ts"@,
                Doc::Int(now.trunc_spec().cast_spec(i64::MIN as int, i64::MAX as int) as i64),
            );
            let good = p.last_good;
            let good = good.set(sym, wal);
            let p = ProgressView { last_good: good, ..p };
            judge_wallet_spec(d, b, p, sym, wal, cg, now)
        },
        Err(e) => {
            let p = ProgressView { errors: p.errors.push(sym + ": "@ + text::first(e, 120)), ..p };
            match p.last_good.get(sym) {
                Some(prev) => {
                    let wal = prev;
                    let wal = wal.set("stale"@, Doc::Bool(true));
                    judge_wallet_spec(d, b, p, sym, wal, cg, now)
                },
                None => p,
            }
        },
    }
}

/// Add a wallet: the reading that came back, or the last good one marked `stale`; one that never read is left out.
pub fn take_reading(
    d: &DashConfig,
    b: &Books,
    p: Progress,
    sym: &str,
    got: &Result<Json, String>,
    cg: &Json,
    now: Double,
) -> (r: Progress)
    ensures
        r.deep_view() == take_reading_spec(
            d.deep_view(),
            b.deep_view(),
            p.deep_view(),
            sym@,
            list::outcome(*got),
            cg@,
            now,
        ),
{
    let mut p = p;
    match got {
        Ok(x) => {
            let mut wal = x.dup();
            wal.set("read_ts", Json::Int(now.trunc().to_i64()));
            let mut good = p.last_good.dup();
            good.set(sym, wal.copy());
            p.last_good = good;
            judge_wallet(d, b, p, sym, &wal, cg, now)
        },
        Err(e) => {
            let mut line = text::owned(sym);
            line.push_str(": ");
            line.push_str(text::head(e.as_str(), 120).as_str());
            list::push(&mut p.errors, line);
            match p.last_good.get(sym) {
                Some(prev) => {
                    let mut wal = prev.dup();
                    wal.set("stale", Json::Bool(true));
                    judge_wallet(d, b, p, sym, &wal, cg, now)
                },
                None => p,
            }
        },
    }
}

/// The time.
pub open spec fn time_of_spec(a: AnswerView) -> Result<Double, Seq<char>> {
    match a {
        AnswerView::Time(t) => Ok(t),
        _ => Err(reason_of_spec(a)),
    }
}

fn time_of(a: &Answer) -> (r: Result<Double, String>)
    ensures
        list::outcome(r) == time_of_spec(a.deep_view()),
{
    match a {
        Answer::Time(t) => Ok(*t),
        _ => Err(reason_of(a)),
    }
}

/// Ask for the time.
pub open spec fn time_now_spec(
    t: TalkView,
    answers: Seq<AnswerView>,
) -> (TalkView, Result<Double, Seq<char>>) {
    let (t1, a) = asked_spec(t, AskView::Now, answers);
    if waits_spec(t1) {
        (t1, Err(""@))
    } else {
        (t1, time_of_spec(a))
    }
}

fn time_now(t: Talk, answers: &Vec<Answer>) -> (r: (Talk, Result<Double, String>))
    ensures
        (r.0.deep_view(), list::outcome(r.1)) == time_now_spec(t.deep_view(), answers.deep_view()),
{
    let (t1, a) = asked(t, Ask::Now, answers);
    if waits(&t1) {
        return (t1, Err(text::owned("")));
    }
    (t1, time_of(&a))
}

/// Read a wallet and add it.
pub open spec fn read_one_spec(
    d: DashConfigView,
    b: BooksView,
    t: TalkView,
    p: ProgressView,
    sym: Seq<char>,
    spec: WalletSpecView,
    cg: Doc,
    now: Double,
    answers: Seq<AnswerView>,
) -> (TalkView, ProgressView) {
    let (t1, got) = read_spec(t, sym, spec, answers);
    if waits_spec(t1) {
        (t1, p)
    } else {
        (t1, take_reading_spec(d, b, p, sym, got, cg, now))
    }
}

fn read_one(
    d: &DashConfig,
    b: &Books,
    t: Talk,
    p: Progress,
    sym: &str,
    spec: &WalletSpec,
    cg: &Json,
    now: Double,
    answers: &Vec<Answer>,
) -> (r: (Talk, Progress))
    ensures
        r.deep_view() == read_one_spec(
            d.deep_view(),
            b.deep_view(),
            t.deep_view(),
            p.deep_view(),
            sym@,
            spec.deep_view(),
            cg@,
            now,
            answers.deep_view(),
        ),
{
    let (t1, got) = read(t, sym, spec, answers);
    if waits(&t1) {
        return (t1, p);
    }
    (t1, take_reading(d, b, p, sym, &got, cg, now))
}

/// Read a wallet, unless the run has taken too long.
pub open spec fn wallet_at_spec(
    d: DashConfigView,
    b: BooksView,
    t: TalkView,
    p: ProgressView,
    sym: Seq<char>,
    spec: WalletSpecView,
    cg: Doc,
    answers: Seq<AnswerView>,
) -> (TalkView, ProgressView) {
    let (t2, again) = time_now_spec(t, answers);
    if waits_spec(t2) {
        (t2, p)
    } else {
        match again {
            Ok(x) => read_one_spec(d, b, t2, p, sym, spec, cg, x, answers),
            Err(e) => (t2, failed_with_spec(p, e)),
        }
    }
}

fn wallet_at(
    d: &DashConfig,
    b: &Books,
    t: Talk,
    p: Progress,
    sym: &str,
    spec: &WalletSpec,
    cg: &Json,
    answers: &Vec<Answer>,
) -> (r: (Talk, Progress))
    ensures
        r.deep_view() == wallet_at_spec(
            d.deep_view(),
            b.deep_view(),
            t.deep_view(),
            p.deep_view(),
            sym@,
            spec.deep_view(),
            cg@,
            answers.deep_view(),
        ),
{
    let (t2, again) = time_now(t, answers);
    if waits(&t2) {
        return (t2, p);
    }
    match again {
        Ok(x) => read_one(d, b, t2, p, sym, spec, cg, x, answers),
        Err(e) => (t2, failed_with(p, e.as_str())),
    }
}

/// Look at the clock, then read a wallet.
pub open spec fn wallet_step_spec(
    d: DashConfigView,
    b: BooksView,
    t: TalkView,
    p: ProgressView,
    sym: Seq<char>,
    spec: WalletSpecView,
    cg: Doc,
    started: Double,
    answers: Seq<AnswerView>,
) -> (TalkView, ProgressView) {
    if waits_spec(t) || p.fault is Some {
        (t, p)
    } else {
        let (t1, seen) = time_now_spec(t, answers);
        if waits_spec(t1) {
            (t1, p)
        } else {
            match seen {
                Ok(now) => if d.wallets.timeout_s.lt_spec(now.sub_spec(started)) {
                    (
                        t1,
                        failed_with_spec(
                            p,
                            "timed out after "@
                                + crate::watch::pyfmt::g_spec(d.wallets.timeout_s, 6)
                                + "s"@,
                        ),
                    )
                } else {
                    wallet_at_spec(d, b, t1, p, sym, spec, cg, answers)
                },
                Err(e) => (t1, failed_with_spec(p, e)),
            }
        }
    }
}

fn wallet_step(
    d: &DashConfig,
    b: &Books,
    t: Talk,
    p: Progress,
    sym: &str,
    spec: &WalletSpec,
    cg: &Json,
    started: Double,
    answers: &Vec<Answer>,
) -> (r: (Talk, Progress))
    ensures
        r.deep_view() == wallet_step_spec(
            d.deep_view(),
            b.deep_view(),
            t.deep_view(),
            p.deep_view(),
            sym@,
            spec.deep_view(),
            cg@,
            started,
            answers.deep_view(),
        ),
{
    if waits(&t) || p.fault.is_some() {
        return (t, p);
    }
    let (t1, seen) = time_now(t, answers);
    if waits(&t1) {
        return (t1, p);
    }
    match seen {
        Ok(now) => {
            if d.wallets.timeout_s.lt(now.minus(started)) {
                let mut line = text::owned("timed out after ");
                line.push_str(crate::watch::pyfmt::g(d.wallets.timeout_s, 6).as_str());
                line.push_str("s");
                return (t1, failed_with(p, line.as_str()));
            }
            wallet_at(d, b, t1, p, sym, spec, cg, answers)
        },
        Err(e) => (t1, failed_with(p, e.as_str())),
    }
}

/// The number under a key, nothing where there is none that counts.
pub open spec fn number_at_spec(r: Doc, key: Seq<char>) -> Num {
    let v = r.get_or_null(key);
    if v.truthy() {
        match crate::dashboard::Num::of_spec(v) {
            Some(x) => x,
            None => crate::dashboard::Num::Whole(0),
        }
    } else {
        crate::dashboard::Num::Whole(0)
    }
}

fn number_at(r: &Json, key: &str) -> (out: Num)
    ensures
        out == number_at_spec(r@, key@),
{
    let v = r.get_copy(key);
    if v.truthy() {
        match crate::dashboard::Num::of(&v) {
            Some(x) => {
                return x;
            },
            None => {
                return crate::dashboard::Num::Whole(0);
            },
        }
    }
    crate::dashboard::Num::Whole(0)
}

/// The first `n` of them.
pub open spec fn add_values_spec(xs: Seq<Doc>, out: Seq<Num>, n: nat) -> Seq<Num> {
    out + Seq::new(
        n,
        |i: int| {
            let r = xs[i];
            number_at_spec(r, "value"@)
        },
    )
}

fn add_values(xs: &Vec<Json>, out: Vec<Num>) -> (r: Vec<Num>)
    ensures
        r.deep_view() == add_values_spec(xs.deep_view(), out.deep_view(), xs@.len()),
{
    let ghost out0 = out.deep_view();
    let mut out = out;
    let mut i: usize = 0;
    while i < xs.len()
        invariant
            i <= xs@.len(),
            out.deep_view() == add_values_spec(xs.deep_view(), out0, i as nat),
        decreases xs@.len() - i,
    {
        let r = &xs[i];
        list::push(&mut out, number_at(r, "value"));
        assert(out.deep_view() =~= add_values_spec(xs.deep_view(), out0, (i + 1) as nat));
        i = i + 1;
    }
    out
}

/// What the wallets are worth.
pub open spec fn values_of_spec(rows: Seq<Doc>) -> Seq<Num> {
    add_values_spec(rows, Seq::<Num>::empty(), rows.len())
}

fn values_of(rows: &Vec<Json>) -> (r: Vec<Num>)
    ensures
        r.deep_view() == values_of_spec(rows.deep_view()),
{
    let mut out: Vec<Num> = list::none();
    out = add_values(rows, out);
    out
}

/// What is staked or unbonds of a wallet is worth.
pub open spec fn staked_worth_spec(r: Doc) -> Result<Num, Seq<char>> {
    match needed_spec(r, "staked"@) {
        Ok(s) => match needed_spec(r, "unbonding_total"@) {
            Ok(u) => Ok(s.plus_spec(u).times_spec(number_at_spec(r, "price"@))),
            Err(e) => Err(e),
        },
        Err(e) => Err(e),
    }
}

fn staked_worth(r: &Json) -> (out: Result<Num, String>)
    ensures
        list::outcome(out) == staked_worth_spec(r@),
{
    let s = match needed(r, "staked") {
        Ok(v) => v,
        Err(e) => {
            return Err(e);
        },
    };
    let u = match needed(r, "unbonding_total") {
        Ok(v) => v,
        Err(e) => {
            return Err(e);
        },
    };
    Ok(s.plus(u).times(number_at(r, "price")))
}

/// The first `n` of them.
pub open spec fn add_staked_worth_spec(
    xs: Seq<Doc>,
    parts: Seq<Num>,
    fault: Option<Seq<char>>,
    n: nat,
) -> (Seq<Num>, Option<Seq<char>>)
    decreases n,
{
    if n == 0 {
        (parts, fault)
    } else {
        let (parts, fault) = add_staked_worth_spec(xs, parts, fault, (n - 1) as nat);
        let r = xs[n - 1];
        if fault is None {
            match staked_worth_spec(r) {
                Ok(x) => (parts.push(x), fault),
                Err(e) => (parts, Some(e)),
            }
        } else {
            (parts, fault)
        }
    }
}

fn add_staked_worth(
    xs: &Vec<Json>,
    parts: Vec<Num>,
    fault: Option<String>,
) -> (r: (Vec<Num>, Option<String>))
    ensures
        r.deep_view() == add_staked_worth_spec(
            xs.deep_view(),
            parts.deep_view(),
            fault.deep_view(),
            xs@.len(),
        ),
{
    let ghost parts0 = parts.deep_view();
    let ghost fault0 = fault.deep_view();
    let mut parts = parts;
    let mut fault = fault;
    let mut i: usize = 0;
    while i < xs.len()
        invariant
            i <= xs@.len(),
            (parts.deep_view(), fault.deep_view()) == add_staked_worth_spec(
                xs.deep_view(),
                parts0,
                fault0,
                i as nat,
            ),
        decreases xs@.len() - i,
    {
        let r = &xs[i];
        if fault.is_none() {
            match staked_worth(r) {
                Ok(x) => {
                    list::push(&mut parts, x);
                },
                Err(e) => {
                    fault = Some(e);
                },
            }
        }
        i = i + 1;
    }
    (parts, fault)
}

/// What is staked or unbonds is worth.
pub open spec fn staked_value_spec(rows: Seq<Doc>) -> Result<Num, Seq<char>> {
    let parts = Seq::<Num>::empty();
    let fault: Option<Seq<char>> = None;
    let (parts, fault) = add_staked_worth_spec(rows, parts, fault, rows.len());
    match fault {
        Some(e) => Err(e),
        None => Ok(crate::dashboard::py_sum_spec(parts)),
    }
}

fn staked_value(rows: &Vec<Json>) -> (r: Result<Num, String>)
    ensures
        list::outcome(r) == staked_value_spec(rows.deep_view()),
{
    let mut parts: Vec<Num> = list::none();
    let mut fault: Option<String> = None;
    let (next_parts, next_fault) = add_staked_worth(rows, parts, fault);
    parts = next_parts;
    fault = next_fault;
    match fault {
        Some(e) => Err(e),
        None => Ok(crate::dashboard::py_sum(&parts)),
    }
}

/// Of the first `n` names.
pub open spec fn add_distinct_spec(
    xs: Seq<Seq<char>>,
    out: Seq<Seq<char>>,
    n: nat,
) -> Seq<Seq<char>>
    decreases n,
{
    if n == 0 {
        out
    } else {
        let out = add_distinct_spec(xs, out, (n - 1) as nat);
        let x = xs[n - 1];
        if !out.contains(x) {
            out.push(x)
        } else {
            out
        }
    }
}

fn add_distinct(xs: &Vec<String>, out: Vec<String>) -> (r: Vec<String>)
    ensures
        r.deep_view() == add_distinct_spec(xs.deep_view(), out.deep_view(), xs@.len()),
{
    let ghost out0 = out.deep_view();
    let mut out = out;
    let mut i: usize = 0;
    while i < xs.len()
        invariant
            i <= xs@.len(),
            out.deep_view() == add_distinct_spec(xs.deep_view(), out0, i as nat),
        decreases xs@.len() - i,
    {
        let x = xs[i].as_str();
        if !list::holds(&out, x) {
            list::push(&mut out, text::owned(x));
        }
        i = i + 1;
    }
    out
}

/// A list without repeats.
pub open spec fn distinct_spec(names: Seq<Seq<char>>) -> Seq<Seq<char>> {
    add_distinct_spec(names, Seq::<Seq<char>>::empty(), names.len())
}

fn distinct(names: &Vec<String>) -> (r: Vec<String>)
    ensures
        r.deep_view() == distinct_spec(names.deep_view()),
{
    let mut out: Vec<String> = list::none();
    out = add_distinct(names, out);
    out
}

/// The first `n` of them.
pub open spec fn add_text_doc_spec(xs: Seq<Seq<char>>, out: Seq<Doc>, n: nat) -> Seq<Doc> {
    out + Seq::new(
        n,
        |i: int| {
            let x = xs[i];
            Doc::Str(x)
        },
    )
}

fn add_text_doc(xs: &Vec<String>, out: Vec<Json>) -> (r: Vec<Json>)
    ensures
        r.deep_view() == add_text_doc_spec(xs.deep_view(), out.deep_view(), xs@.len()),
{
    let ghost out0 = out.deep_view();
    let mut out = out;
    let mut i: usize = 0;
    while i < xs.len()
        invariant
            i <= xs@.len(),
            out.deep_view() == add_text_doc_spec(xs.deep_view(), out0, i as nat),
        decreases xs@.len() - i,
    {
        let x = xs[i].as_str();
        list::push(&mut out, Json::text(x));
        assert(out.deep_view() =~= add_text_doc_spec(xs.deep_view(), out0, (i + 1) as nat));
        i = i + 1;
    }
    out
}

/// Texts as values.
pub open spec fn text_docs_spec(names: Seq<Seq<char>>) -> Seq<Doc> {
    add_text_doc_spec(names, Seq::<Doc>::empty(), names.len())
}

fn text_docs(names: &Vec<String>) -> (r: Vec<Json>)
    ensures
        r.deep_view() == text_docs_spec(names.deep_view()),
{
    let mut out: Vec<Json> = list::none();
    out = add_text_doc(names, out);
    out
}

/// The rule that the alerts follow.
pub open spec fn rule_json_spec(w: WalletKnobsView) -> Doc {
    Doc::obj().with("tranche_x"@, Doc::Float(w.tranche_x)).with(
        "lead_pct_per_21d"@,
        Doc::Float(w.lead_pct),
    ).with(
        "trail_only"@,
        Doc::Arr(text_docs_spec(distinct_spec(list::sorted_texts(w.trail_only)))),
    )
}

fn rule_json(w: &WalletKnobs) -> (r: Json)
    ensures
        r@ == rule_json_spec(w.deep_view()),
{
    Json::obj().with("tranche_x", Json::Float(w.tranche_x)).with(
        "lead_pct_per_21d",
        Json::Float(w.lead_pct),
    ).with(
        "trail_only",
        json::array(text_docs(&distinct(&list::sort_texts(&w.trail_only)))),
    )
}

/// What all wallets come to.
#[derive(Clone, Copy, Debug)]
pub struct Sums {
    pub value: Num,
    pub staked: Num,
    pub cex: Num,
    pub all: Num,
}

impl DeepView for Sums {
    type V = Sums;

    open spec fn deep_view(&self) -> Sums {
        *self
    }
}

/// What all wallets come to.
pub open spec fn sums_of_spec(snap: Doc, rows: Seq<Doc>, staked: Num) -> Sums {
    let value = crate::dashboard::py_sum_spec(values_of_spec(rows));
    let folio = snap.get_or_null("portfolio"@);
    let cex = if folio.truthy() {
        number_at_spec(folio, "total_value"@)
    } else {
        crate::dashboard::Num::Whole(0)
    };
    Sums { value, staked, cex, all: cex.plus_spec(value) }
}

fn sums_of(snap: &Json, rows: &Vec<Json>, staked: Num) -> (r: Sums)
    ensures
        r == sums_of_spec(snap@, rows.deep_view(), staked),
{
    let value = crate::dashboard::py_sum(&values_of(rows));
    let folio = snap.get_copy("portfolio");
    let cex = if folio.truthy() {
        number_at(&folio, "total_value")
    } else {
        crate::dashboard::Num::Whole(0)
    };
    Sums { value, staked, cex, all: cex.plus(value) }
}

/// `wallets.json`.
pub open spec fn out_json_spec(
    d: DashConfigView,
    b: BooksView,
    p: ProgressView,
    s: Sums,
    stamp: Seq<char>,
) -> Doc {
    Doc::obj().with("generated"@, Doc::Str(stamp)).with("wallets"@, Doc::Arr(p.rows)).with(
        "total_value"@,
        s.value.json_spec(),
    ).with(
        "staked_value"@,
        s.staked.json_spec(),
    ).with(
        "staked_pct"@,
        Doc::Float(share_spec(s.staked.f_spec(), s.value.f_spec())),
    ).with(
        "staked_pct_all"@,
        Doc::Float(share_spec(s.staked.f_spec(), s.all.f_spec())),
    ).with(
        "cex_value"@,
        s.cex.json_spec(),
    ).with(
        "all_holdings"@,
        s.all.json_spec(),
    ).with(
        "confirmed_bull"@,
        Doc::Bool(confirmed_bull_spec(b.snap)),
    ).with(
        "rule"@,
        rule_json_spec(d.wallets),
    ).with(
        "errors"@,
        Doc::Arr(text_docs_spec(p.errors)),
    )
}

fn out_json(d: &DashConfig, b: &Books, p: &Progress, s: Sums, stamp: &str) -> (r: Json)
    ensures
        r@ == out_json_spec(d.deep_view(), b.deep_view(), p.deep_view(), s, stamp@),
{
    Json::obj().with("generated", Json::text(stamp)).with("wallets", json::array(p.rows.dup())).with(
        "total_value",
        s.value.json(),
    ).with(
        "staked_value",
        s.staked.json(),
    ).with(
        "staked_pct",
        Json::Float(share(s.staked.f(), s.value.f())),
    ).with(
        "staked_pct_all",
        Json::Float(share(s.staked.f(), s.all.f())),
    ).with(
        "cex_value",
        s.cex.json(),
    ).with(
        "all_holdings",
        s.all.json(),
    ).with(
        "confirmed_bull",
        Json::Bool(confirmed_bull(&b.snap)),
    ).with(
        "rule",
        rule_json(&d.wallets),
    ).with(
        "errors",
        json::array(text_docs(&p.errors)),
    )
}

/// What the run prints.
pub open spec fn summary_line_spec(d: DashConfigView, p: ProgressView, s: Sums) -> Seq<char> {
    let path = crate::dashboard::path_join_spec(d.public_dir, "wallets.json"@);
    let line = "wrote "@
        + path
        + " | "@
        + text::dec(((p.rows.len() as usize)) as nat)
        + " wallets | $"@
        + crate::watch::pyfmt::comma_spec(s.value.f_spec(), 2)
        + " | staked "@
        + crate::watch::pyfmt::fixed_spec(share_spec(s.staked.f_spec(), s.value.f_spec()), 0)
        + "% | of all "@
        + crate::watch::pyfmt::fixed_spec(share_spec(s.staked.f_spec(), s.all.f_spec()), 0)
        + "% | alerts "@
        + text::dec(((p.alerts.len() as usize)) as nat)
        + " | errors "@
        + text::dec(((p.errors.len() as usize)) as nat);
    if !(p.errors.len() == 0) {
        line + (" ("@ + text::join_of(p.errors, "; "@) + ")"@)
    } else {
        line
    }
}

fn summary_line(d: &DashConfig, p: &Progress, s: Sums) -> (r: String)
    ensures
        r@ == summary_line_spec(d.deep_view(), p.deep_view(), s),
{
    let path = crate::dashboard::path_join(d.public_dir.as_str(), "wallets.json");
    let mut line = text::owned("wrote ");
    line.push_str(path.as_str());
    line.push_str(" | ");
    line.push_str(text::dec_u64(p.rows.len() as u64).as_str());
    line.push_str(" wallets | $");
    line.push_str(crate::watch::pyfmt::comma(s.value.f(), 2).as_str());
    line.push_str(" | staked ");
    line.push_str(crate::watch::pyfmt::fixed(share(s.staked.f(), s.value.f()), 0).as_str());
    line.push_str("% | of all ");
    line.push_str(crate::watch::pyfmt::fixed(share(s.staked.f(), s.all.f()), 0).as_str());
    line.push_str("% | alerts ");
    line.push_str(text::dec_u64(p.alerts.len() as u64).as_str());
    line.push_str(" | errors ");
    line.push_str(text::dec_u64(p.errors.len() as u64).as_str());
    if !(p.errors.len() == 0) {
        let mut line2 = text::owned(" (");
        line2.push_str(list::join(&p.errors, "; ").as_str());
        line2.push_str(")");
        line.push_str(line2.as_str());
    }
    line
}

/// The first `n` of them.
pub open spec fn add_mail_spec(xs: Seq<Seq<char>>, out: Seq<Seq<char>>, n: nat) -> Seq<Seq<char>> {
    out + Seq::new(
        n,
        |i: int| {
            let a = xs[i];
            "Wallet unbond alert. "@ + a
        },
    )
}

fn add_mail(xs: &Vec<String>, out: Vec<String>) -> (r: Vec<String>)
    ensures
        r.deep_view() == add_mail_spec(xs.deep_view(), out.deep_view(), xs@.len()),
{
    let ghost out0 = out.deep_view();
    let mut out = out;
    let mut i: usize = 0;
    while i < xs.len()
        invariant
            i <= xs@.len(),
            out.deep_view() == add_mail_spec(xs.deep_view(), out0, i as nat),
        decreases xs@.len() - i,
    {
        let a = xs[i].as_str();
        let mut line = text::owned("Wallet unbond alert. ");
        line.push_str(a);
        list::push(&mut out, line);
        assert(out.deep_view() =~= add_mail_spec(xs.deep_view(), out0, (i + 1) as nat));
        i = i + 1;
    }
    out
}

/// The messages that go out.
pub open spec fn mails_of_spec(alerts: Seq<Seq<char>>) -> Seq<Seq<char>> {
    add_mail_spec(alerts, Seq::<Seq<char>>::empty(), alerts.len())
}

fn mails_of(alerts: &Vec<String>) -> (r: Vec<String>)
    ensures
        r.deep_view() == mails_of_spec(alerts.deep_view()),
{
    let mut out: Vec<String> = list::none();
    out = add_mail(alerts, out);
    out
}

/// What a run writes and sends once every wallet was looked at.
pub open spec fn finished_spec(
    d: DashConfigView,
    b: BooksView,
    p: ProgressView,
    stamp: Seq<char>,
) -> Result<WrittenView, Seq<char>> {
    match staked_value_spec(p.rows) {
        Ok(staked) => {
            let s = sums_of_spec(b.snap, p.rows, staked);
            Ok(
                WrittenView {
                    out: out_json_spec(d, b, p, s, stamp),
                    state: p.state,
                    last_good: p.last_good,
                    alerts: mails_of_spec(p.alerts),
                    line: summary_line_spec(d, p, s),
                },
            )
        },
        Err(e) => Err(e),
    }
}

/// What a run writes and sends once every wallet was looked at.
pub fn finished(
    d: &DashConfig,
    b: &Books,
    p: Progress,
    stamp: &str,
) -> (r: Result<Written, String>)
    ensures
        list::outcome(r) == finished_spec(d.deep_view(), b.deep_view(), p.deep_view(), stamp@),
{
    let staked = match staked_value(&p.rows) {
        Ok(v) => v,
        Err(e) => {
            return Err(e);
        },
    };
    let s = sums_of(&b.snap, &p.rows, staked);
    Ok(
        Written {
            out: out_json(d, b, &p, s, stamp),
            state: p.state.copy(),
            last_good: p.last_good.copy(),
            alerts: mails_of(&p.alerts),
            line: summary_line(d, &p, s),
        },
    )
}

/// Of the first `n` wallets.
pub open spec fn add_id_spec(
    d: DashConfigView,
    xs: Seq<(Seq<char>, WalletSpecView)>,
    out: Seq<Seq<char>>,
    n: nat,
) -> Seq<Seq<char>> {
    out + Seq::new(
        n,
        |i: int| {
            let w = xs[i];
            match crate::dashboard::id_of_spec(d.coingecko, w.0) {
                Some(v) => v,
                None => ""@,
            }
        },
    )
}

fn add_id(d: &DashConfig, xs: &Vec<(String, WalletSpec)>, out: Vec<String>) -> (r: Vec<String>)
    ensures
        r.deep_view() == add_id_spec(d.deep_view(), xs.deep_view(), out.deep_view(), xs@.len()),
{
    let ghost out0 = out.deep_view();
    let mut out = out;
    let mut i: usize = 0;
    while i < xs.len()
        invariant
            i <= xs@.len(),
            out.deep_view() == add_id_spec(d.deep_view(), xs.deep_view(), out0, i as nat),
        decreases xs@.len() - i,
    {
        let w = &xs[i];
        list::push(
            &mut out,
            match crate::dashboard::id_of(&d.coingecko, w.0.as_str()) {
                Some(v) => v,
                None => text::owned(""),
            },
        );
        assert(out.deep_view() =~= add_id_spec(
            d.deep_view(),
            xs.deep_view(),
            out0,
            (i + 1) as nat,
        ));
        i = i + 1;
    }
    out
}

/// The ids of the coins that the wallets hold.
pub open spec fn ids_of_spec(d: DashConfigView) -> Seq<Seq<char>> {
    add_id_spec(d, d.wallets.list_, Seq::<Seq<char>>::empty(), d.wallets.list_.len())
}

fn ids_of(d: &DashConfig) -> (r: Vec<String>)
    ensures
        r.deep_view() == ids_of_spec(d.deep_view()),
{
    let mut out: Vec<String> = list::none();
    out = add_id(d, &d.wallets.list_, out);
    out
}

/// Where the prices are read.
pub open spec fn price_url_spec(d: DashConfigView) -> Seq<char> {
    "https://api.coingecko.com/api/v3/simple/price?vs_currencies=usd&ids="@
        + text::join_of(ids_of_spec(d), ","@)
}

fn price_url(d: &DashConfig) -> (r: String)
    ensures
        r@ == price_url_spec(d.deep_view()),
{
    let mut line = text::owned(
        "https://api.coingecko.com/api/v3/simple/price?vs_currencies=usd&ids=",
    );
    line.push_str(list::join(&ids_of(d), ",").as_str());
    line
}

/// The first `n` of them.
pub open spec fn read_wallets_spec(
    answers: Seq<AnswerView>,
    b: BooksView,
    cg: Doc,
    d: DashConfigView,
    started: Double,
    xs: Seq<(Seq<char>, WalletSpecView)>,
    t: TalkView,
    p: ProgressView,
    n: nat,
) -> (TalkView, ProgressView)
    decreases n,
{
    if n == 0 {
        (t, p)
    } else {
        let (t, p) = read_wallets_spec(answers, b, cg, d, started, xs, t, p, (n - 1) as nat);
        let w = xs[n - 1];
        let (t1, p1) = wallet_step_spec(d, b, t, p, w.0, w.1, cg, started, answers);
        (t1, p1)
    }
}

fn read_wallets(
    answers: &Vec<Answer>,
    b: &Books,
    cg: &Json,
    d: &DashConfig,
    started: Double,
    xs: &Vec<(String, WalletSpec)>,
    t: Talk,
    p: Progress,
) -> (r: (Talk, Progress))
    ensures
        r.deep_view() == read_wallets_spec(
            answers.deep_view(),
            b.deep_view(),
            cg@,
            d.deep_view(),
            started,
            xs.deep_view(),
            t.deep_view(),
            p.deep_view(),
            xs@.len(),
        ),
{
    let ghost t0 = t.deep_view();
    let ghost p0 = p.deep_view();
    let mut t = t;
    let mut p = p;
    let mut i: usize = 0;
    while i < xs.len()
        invariant
            i <= xs@.len(),
            (t.deep_view(), p.deep_view()) == read_wallets_spec(
                answers.deep_view(),
                b.deep_view(),
                cg@,
                d.deep_view(),
                started,
                xs.deep_view(),
                t0,
                p0,
                i as nat,
            ),
        decreases xs@.len() - i,
    {
        let w = &xs[i];
        let (t1, p1) = wallet_step(d, b, t, p, w.0.as_str(), &w.1, cg, started, answers);
        t = t1;
        p = p1;
        i = i + 1;
    }
    (t, p)
}

/// Read every wallet.
pub open spec fn read_all_spec(
    d: DashConfigView,
    b: BooksView,
    t: TalkView,
    p: ProgressView,
    cg: Doc,
    started: Double,
    answers: Seq<AnswerView>,
) -> (TalkView, ProgressView) {
    read_wallets_spec(answers, b, cg, d, started, d.wallets.list_, t, p, d.wallets.list_.len())
}

fn read_all(
    d: &DashConfig,
    b: &Books,
    t: Talk,
    p: Progress,
    cg: &Json,
    started: Double,
    answers: &Vec<Answer>,
) -> (r: (Talk, Progress))
    ensures
        r.deep_view() == read_all_spec(
            d.deep_view(),
            b.deep_view(),
            t.deep_view(),
            p.deep_view(),
            cg@,
            started,
            answers.deep_view(),
        ),
{
    let mut t = t;
    let mut p = p;
    let (next_t, next_p) = read_wallets(answers, b, cg, d, started, &d.wallets.list_, t, p);
    t = next_t;
    p = next_p;
    (t, p)
}

/// A run that failed.
pub open spec fn refused_spec(why: Seq<char>) -> WorkView {
    WorkView { ask: None, fault: Some(why), written: None }
}

fn refused(why: &str) -> (r: Work)
    ensures
        r.deep_view() == refused_spec(why@),
{
    Work { ask: None, fault: Some(text::owned(why)), written: None }
}

/// A run that waits for an answer.
pub open spec fn paused_spec(t: TalkView) -> WorkView {
    WorkView { ask: t.ask, fault: None, written: None }
}

fn paused(t: &Talk) -> (r: Work)
    ensures
        r.deep_view() == paused_spec(t.deep_view()),
{
    Work { ask: t.ask.dup(), fault: None, written: None }
}

/// The time as text.
pub open spec fn stamp_of_spec(a: AnswerView) -> Result<Seq<char>, Seq<char>> {
    match a {
        AnswerView::Text(s) => Ok(s),
        AnswerView::Failed(e) => Err(e),
        _ => Err("answer out of turn"@),
    }
}

fn stamp_of(a: Answer) -> (r: Result<String, String>)
    ensures
        list::outcome(r) == stamp_of_spec(a.deep_view()),
{
    match a {
        Answer::Text(s) => Ok(s),
        Answer::Failed(e) => Err(e),
        _ => Err(text::owned("answer out of turn")),
    }
}

/// A run that has every answer.
pub open spec fn complete_spec(
    d: DashConfigView,
    b: BooksView,
    p: ProgressView,
    a: AnswerView,
) -> WorkView {
    match stamp_of_spec(a) {
        Ok(stamp) => match finished_spec(d, b, p, stamp) {
            Ok(w) => WorkView { ask: None, fault: None, written: Some(w) },
            Err(e) => refused_spec(e),
        },
        Err(e) => refused_spec(e),
    }
}

fn complete(d: &DashConfig, b: &Books, p: Progress, a: Answer) -> (r: Work)
    ensures
        r.deep_view() == complete_spec(d.deep_view(), b.deep_view(), p.deep_view(), a.deep_view()),
{
    match stamp_of(a) {
        Ok(stamp) => match finished(d, b, p, stamp.as_str()) {
            Ok(w) => Work { ask: None, fault: None, written: Some(w) },
            Err(e) => refused(e.as_str()),
        },
        Err(e) => refused(e.as_str()),
    }
}

/// The end of a run: its time, then what it writes.
pub open spec fn run_end_spec(
    d: DashConfigView,
    b: BooksView,
    t: TalkView,
    p: ProgressView,
    answers: Seq<AnswerView>,
) -> WorkView {
    if waits_spec(t) {
        paused_spec(t)
    } else {
        match p.fault {
            Some(e) => refused_spec(e),
            None => {
                let (t1, a) = asked_spec(t, AskView::Stamp, answers);
                if waits_spec(t1) {
                    paused_spec(t1)
                } else {
                    complete_spec(d, b, p, a)
                }
            },
        }
    }
}

fn run_end(d: &DashConfig, b: &Books, t: Talk, p: Progress, answers: &Vec<Answer>) -> (r: Work)
    ensures
        r.deep_view() == run_end_spec(
            d.deep_view(),
            b.deep_view(),
            t.deep_view(),
            p.deep_view(),
            answers.deep_view(),
        ),
{
    if waits(&t) {
        return paused(&t);
    }
    match &p.fault {
        Some(e) => {
            return refused(e.as_str());
        },
        None => {},
    }
    let (t1, a) = asked(t, Ask::Stamp, answers);
    if waits(&t1) {
        return paused(&t1);
    }
    complete(d, b, p, a)
}

/// A run whose clock was read.
pub open spec fn run_from_spec(
    d: DashConfigView,
    b: BooksView,
    t: TalkView,
    started: Double,
    answers: Seq<AnswerView>,
) -> WorkView {
    if unnamed_coin_spec(b.snap) {
        refused_spec("KeyError: 'sym'"@)
    } else {
        let (t1, got) = get_spec(t, price_url_spec(d), None, answers);
        if waits_spec(t1) {
            paused_spec(t1)
        } else {
            let errors = Seq::<Seq<char>>::empty();
            let cg = Doc::obj();
            let (cg, errors) = match got {
                Ok(v) => (v, errors),
                Err(e) => (cg, errors.push("coingecko: "@ + e)),
            };
            let p = ProgressView {
                state: b.state,
                last_good: b.last_good,
                errors,
                alerts: Seq::<Seq<char>>::empty(),
                rows: Seq::<Doc>::empty(),
                fault: None,
            };
            let (t2, p1) = read_all_spec(d, b, t1, p, cg, started, answers);
            run_end_spec(d, b, t2, p1, answers)
        }
    }
}

fn run_from(
    d: &DashConfig,
    b: &Books,
    t: Talk,
    started: Double,
    answers: &Vec<Answer>,
) -> (r: Work)
    ensures
        r.deep_view() == run_from_spec(
            d.deep_view(),
            b.deep_view(),
            t.deep_view(),
            started,
            answers.deep_view(),
        ),
{
    if unnamed_coin(&b.snap) {
        return refused("KeyError: 'sym'");
    }
    let (t1, got) = get(t, price_url(d).as_str(), list::text_ref(&None), answers);
    if waits(&t1) {
        return paused(&t1);
    }
    let mut errors: Vec<String> = list::none();
    let mut cg = Json::obj();
    match got {
        Ok(v) => {
            cg = v;
        },
        Err(e) => {
            let mut line = text::owned("coingecko: ");
            line.push_str(e.as_str());
            list::push(&mut errors, line);
        },
    }
    let p = Progress {
        state: b.state.dup(),
        last_good: b.last_good.dup(),
        errors,
        alerts: list::none::<String>(),
        rows: list::none::<Json>(),
        fault: None,
    };
    let (t2, p1) = read_all(d, b, t1, p, &cg, started, answers);
    run_end(d, b, t2, p1, answers)
}

/// Read every wallet, then write `wallets.json`, the alert state and the last good readings, and send the alerts.
pub open spec fn run_spec(d: DashConfigView, b: BooksView, answers: Seq<AnswerView>) -> WorkView {
    let t = TalkView { at: 0, ask: None };
    let (t1, seen) = time_now_spec(t, answers);
    if waits_spec(t1) {
        paused_spec(t1)
    } else {
        match seen {
            Ok(started) => run_from_spec(d, b, t1, started, answers),
            Err(e) => refused_spec(e),
        }
    }
}

/// Read every wallet, then write `wallets.json`, the alert state and the last good readings, and send the alerts.
pub fn run(d: &DashConfig, b: &Books, answers: &Vec<Answer>) -> (r: Work)
    ensures
        r.deep_view() == run_spec(d.deep_view(), b.deep_view(), answers.deep_view()),
{
    let t = Talk { at: 0, ask: None };
    let (t1, seen) = time_now(t, answers);
    if waits(&t1) {
        return paused(&t1);
    }
    match seen {
        Ok(started) => run_from(d, b, t1, started, answers),
        Err(e) => refused(e.as_str()),
    }
}

/// A crossing is alerted once: an alert marks its coin as fired, and a coin that has fired gets no
/// alert.
pub proof fn law_one_alert_per_crossing(
    w: WalletKnobsView,
    state: Doc,
    sym: Seq<char>,
    r: Reading,
    rung: RungView,
    lead: Double,
    price: Option<Num>,
    bull: bool,
    now: Double,
)
    requires
        state is Obj,
    ensures
        has_fired_spec(state, sym) ==> verdict_of_spec(
            w,
            state,
            sym,
            r,
            rung,
            lead,
            price,
            bull,
            now,
        ).alert is None,
        verdict_of_spec(w, state, sym, r, rung, lead, price, bull, now).alert is Some
            ==> has_fired_spec(
            verdict_of_spec(w, state, sym, r, rung, lead, price, bull, now).state,
            sym,
        ),
{
    let ts = Doc::Int(now.trunc_spec().cast_spec(i64::MIN as int, i64::MAX as int) as i64);
    let one = Doc::obj().with("fired"@, Doc::Bool(true));
    let mark = one.with("ts"@, ts);
    reveal_strlit("fired");
    reveal_strlit("ts");
    json::law_set_then_get(state, sym, mark, sym);
    json::lemma_spot(mark->Obj_0, "fired"@, 0);
    assert(mark->Obj_0[0].0 == "fired"@);
}

/// A fired coin is armed again only once the price is back under the trigger by the margin; until
/// then the alert state stays as it is.
pub proof fn law_rearms_below_the_margin(
    w: WalletKnobsView,
    state: Doc,
    sym: Seq<char>,
    r: Reading,
    rung: RungView,
    lead: Double,
    price: Double,
    trigger: Double,
    bull: bool,
    now: Double,
)
    requires
        has_fired_spec(state, sym),
        !rearms_spec(price, trigger, w.rearm_pct),
    ensures
        judged_spec(w, state, sym, r, rung, lead, price, trigger, bull, now).state == state,
{
}

/// A coin that is only trailed gets no alert without a confirmed bull.
pub proof fn law_trailed_coins_wait_for_a_bull(
    w: WalletKnobsView,
    state: Doc,
    sym: Seq<char>,
    r: Reading,
    rung: RungView,
    lead: Double,
    price: Option<Num>,
    now: Double,
)
    requires
        w.trail_only.contains(sym),
    ensures
        verdict_of_spec(w, state, sym, r, rung, lead, price, false, now).alert is None,
{
}

/// A read that fails keeps the last good reading, and leaves out a wallet that never read.
pub proof fn law_a_failed_read_keeps_the_last_good(
    d: DashConfigView,
    b: BooksView,
    p: ProgressView,
    sym: Seq<char>,
    why: Seq<char>,
    cg: Doc,
    now: Double,
)
    ensures
        take_reading_spec(d, b, p, sym, Err(why), cg, now).last_good == p.last_good,
        p.last_good.get(sym) is None ==> take_reading_spec(d, b, p, sym, Err(why), cg, now).rows
            == p.rows,
{
}

/// The alert fires at or below the tranche: at it without a lead, and the lower the longer the
/// lead.
pub proof fn law_a_longer_lead_fires_lower(rung: Double, short: Double, long: Double)
    requires
        rung.finite(),
        rung.amount() > 0,
        short.finite(),
        long.finite(),
        0 <= short.amount() <= long.amount() <= 100 * crate::double::unit(),
    ensures
        trigger_of_spec(Some(rung), short) matches Some(a) && (trigger_of_spec(Some(rung), long) matches Some(
            b,
        ) && {
            &&& 0 <= b.amount() <= a.amount() <= rung.amount()
            &&& short.amount() == 0 ==> a.amount() == rung.amount()
            &&& long.amount() == 100 * crate::double::unit() ==> b.amount() == 0
        }),
        trigger_of_spec(None, short) is None,
{
    crate::double::lemma_scaled_zero();
    rounding::lemma_discount(rung, short);
    rounding::lemma_discount(rung, long);
    rounding::lemma_discount_order(rung, short, long);
}

/// The lead is in proportion to the days it takes to unbond: the full one at three weeks.
pub proof fn law_the_lead_is_in_proportion_to_the_days(lead_pct: Double, days: Double)
    requires
        lead_pct.finite(),
        days.finite(),
        lead_pct.amount() >= 0,
        days.amount() >= 0,
        lead_of_spec(lead_pct, days).finite(),
    ensures
        rounding::in_proportion(
            lead_of_spec(lead_pct, days),
            lead_pct,
            days,
            Double::int_spec(21),
        ),
        Double::int_spec(21).amount() == 21 * crate::double::unit(),
        lead_of_spec(lead_pct, days).amount() >= 0,
{
    rounding::lemma_whole_is_exact(21);
    vstd::arithmetic::power2::lemma_pow2_pos(1074);
    rounding::lemma_proportion(lead_pct, days, Double::int_spec(21));
}

/// An alert that fired is not armed again at the trigger or over it, and is once the price is under
/// all of the margin.
pub proof fn law_an_alert_is_armed_again_below_its_trigger(
    price: Double,
    trigger: Double,
    margin: Double,
    wider: Double,
)
    requires
        price.finite(),
        trigger.finite(),
        trigger.amount() >= 0,
        margin.finite(),
        wider.finite(),
        0 <= margin.amount() <= wider.amount() <= 100 * crate::double::unit(),
    ensures
        trigger.amount() <= price.amount() ==> !rearms_spec(price, trigger, margin),
        margin.amount() == 0 ==> (rearms_spec(price, trigger, margin) <==> price.amount()
            < trigger.amount()),
        rearms_spec(price, trigger, wider) ==> rearms_spec(price, trigger, margin),
        wider.amount() == 100 * crate::double::unit() && price.amount() >= 0 ==> !rearms_spec(
            price,
            trigger,
            wider,
        ),
{
    rounding::lemma_discount(trigger, margin);
    rounding::lemma_discount(trigger, wider);
    rounding::lemma_discount_order(trigger, margin, wider);
}

/// A part of a whole is between nothing and a hundred percent: nothing for nothing, a hundred for
/// all of it, and more for more.
pub proof fn law_a_share_is_a_percentage_of_the_whole(less: Double, more: Double, whole: Double)
    requires
        less.finite(),
        more.finite(),
        whole.finite(),
        0 <= less.amount() <= more.amount() <= whole.amount(),
        whole.amount() > 0,
    ensures
        0 <= share_spec(less, whole).amount() <= share_spec(more, whole).amount() <= 100
            * crate::double::unit(),
        less.amount() == 0 ==> share_spec(less, whole).amount() == 0,
        more.amount() == whole.amount() ==> share_spec(more, whole).amount() == 100
            * crate::double::unit(),
{
    crate::double::lemma_scaled_zero();
    rounding::lemma_percent(less, whole);
    rounding::lemma_percent(more, whole);
    rounding::lemma_div_order(less, more, whole);
    rounding::lemma_whole_is_exact(100);
    lemma_part_is_finite(less, whole);
    lemma_part_is_finite(more, whole);
    rounding::lemma_mul_order(
        less.div_spec(whole),
        more.div_spec(whole),
        Double::int_spec(100),
    );
}

proof fn lemma_part_is_finite(part: Double, whole: Double)
    requires
        part.finite(),
        whole.finite(),
        0 <= part.amount() <= whole.amount(),
        whole.amount() > 0,
    ensures
        part.div_spec(whole).finite(),
{
    if part.amount() < whole.amount() {
        rounding::lemma_part_is_less(part, whole);
    } else {
        rounding::lemma_whole_is_not_less(part, whole);
        rounding::lemma_one_is_exact();
        rounding::lemma_infinite_is_last(Double::int_spec(1));
        let q = part.div_spec(whole);
        if q.infinite() {
            assert(q.amount() == crate::double::scaled(crate::double::INFINITE as nat));
        }
    }
}

/// How far it is to the trigger is below zero exactly once the price is past it, and nothing at
/// it.
pub proof fn law_the_way_to_the_trigger_ends_at_it(trigger: Double, price: Num)
    requires
        trigger.finite(),
        price.f_spec().finite(),
        trigger.amount() > 0,
        price.f_spec().amount() > 0,
        trigger.div_spec(price.f_spec()).finite(),
    ensures
        to_trigger_spec(Some(trigger), Some(price)) matches Some(d) && {
            &&& d.amount() < 0 <==> trigger.amount() < price.f_spec().amount()
            &&& trigger.amount() == price.f_spec().amount() ==> d.amount() == 0
        },
{
    crate::double::lemma_scaled_zero();
    rounding::lemma_change(trigger, price.f_spec());
}

/// Without a manual target the first tranche is a multiple of the bot's cost, but for rounding; a
/// manual target stands as it is.
pub proof fn law_a_tranche_is_a_multiple_of_the_cost(
    targets: Doc,
    sym: Seq<char>,
    cost: Doc,
    tranche_x: Double,
    paid: Double,
)
    requires
        targets.get(sym) is None,
        cost.truthy(),
        cost.to_float() == Some(paid),
        paid.finite(),
        tranche_x.finite(),
    ensures
        rung_of_spec(targets, sym, cost, tranche_x) matches Ok(r) && (r.price matches Some(p) && (
        p.finite() ==> rounding::grain() * rounding::size(
            p.amount() * crate::double::unit() - paid.amount() * tranche_x.amount(),
        ) <= crate::double::unit() * (rounding::size(p.amount()) + rounding::least()))),
{
    if paid.mul_spec(tranche_x).finite() {
        rounding::lemma_mul_error(paid, tranche_x);
    }
}

/// The digits count in units of which ten to the eighteenth make a coin:
/// coins times the units of one are the units, but for rounding.
pub proof fn law_units_make_coins(t: Seq<char>)
    requires
        digits_units(t) is Some,
        hex_number(t, t.len()) < rounding::grain(),
    ensures
        digits_units(t) matches Some(c) && (c.finite() ==> rounding::grain() * rounding::size(
            c.amount() * Double::int_spec(1_000_000_000_000_000_000).amount() - hex_number(
                t,
                t.len(),
            ) * crate::double::unit() * crate::double::unit(),
        ) <= Double::int_spec(1_000_000_000_000_000_000).amount() * (c.amount()
            + rounding::least())),
{
    let n = hex_number(t, t.len()) as int;
    let a = Double::int_spec(n);
    let b = Double::int_spec(1_000_000_000_000_000_000);
    crate::double::lemma_scaled_zero();
    vstd::arithmetic::power2::lemma_pow2_pos(1074);
    rounding::lemma_whole_is_exact(n);
    rounding::lemma_count(1_000_000_000_000_000_000);
    let u = crate::double::unit() as int;
    assert(n * u >= 0) by (nonlinear_arith)
        requires
            n >= 0,
            u > 0,
    ;
    rounding::lemma_div_order(Double::zero_spec(), a, b);
    rounding::lemma_nothing_over(b);
    if a.div_spec(b).finite() {
        rounding::lemma_div_error(a, b);
    }
}

} // verus!
