//! Text formats the journal and the venue clients share with other programs.
//!
//! Venue request bodies are signed byte for byte, error text is stored in the journal and
//! mailed, and the journal file is read by other programs, so the formats are fixed:
//!
//! * [`float_repr`]: the shortest digits that read back, scientific below 1e-4 and from 1e16
//!   up (`1e-05`, `1e+16`), always a `.0` on integral values.
//! * [`fixed`] / [`fixed_stripped`]: a number of decimals, and the same without trailing zeros.
//! * [`py_str`]: a parsed JSON response as text (an object with single quotes and
//!   `True`/`None`), keeping the response's key order.
//! * [`dumps`]: JSON with a space behind its separators, or indented, ASCII only.
//! * [`urlencode`]: a query string.
use crate::big::Big;
use crate::decimal;
use crate::double::Double;
use crate::list;
use crate::text;
use crate::watch::json;
use crate::watch::json::{Doc, Json};
use crate::watch::pyfmt;
use vstd::prelude::*;

verus! {

// ------------------------------------------------------------------ numbers
/// The shortest digits that read back.
pub fn float_repr(x: Double) -> (r: String)
    ensures
        r@ == pyfmt::repr_spec(x),
{
    pyfmt::repr(x)
}

/// A number with `prec` decimals, rounded half to even.
pub open spec fn fixed_spec(x: Double, prec: nat) -> Seq<char> {
    if x.nan() {
        "NaN"@
    } else {
        pyfmt::fixed_spec(x, prec)
    }
}

pub fn fixed(x: Double, prec: usize) -> (r: String)
    ensures
        r@ == fixed_spec(x, prec as nat),
{
    if x.is_nan() {
        text::owned("NaN")
    } else {
        pyfmt::fixed(x, prec)
    }
}

/// `n` digits `all` without an exponent, the first of them worth ten to the power `e`.
pub open spec fn plain_body(all: nat, e: int, n: nat) -> Seq<char> {
    let d = text::digits(all, n);
    if e >= n - 1 {
        d + text::times('0', (e - n + 1) as nat)
    } else if e >= 0 {
        d.take(e + 1) + "."@ + d.skip(e + 1)
    } else {
        "0."@ + text::times('0', (-e - 1) as nat) + d
    }
}

/// The shortest digits that read back, never with an exponent, and no point on whole numbers.
pub open spec fn plain_spec(x: Double) -> Seq<char> {
    if x.nan() {
        "NaN"@
    } else {
        match pyfmt::nonfinite_spec(x) {
            Some(s) => s,
            None => if x.mag() == 0 {
                pyfmt::minus(x.neg()) + "0"@
            } else {
                let d = decimal::shortest(x.mag());
                pyfmt::minus(x.neg()) + plain_body(d.all, d.exp, d.count)
            },
        }
    }
}

fn plain_body_text(all: &Big, e: i64, n: usize) -> (r: String)
    requires
        0 < n <= decimal::MOST_DIGITS,
        -2001 <= e <= 2001,
    ensures
        r@ == plain_body(all@, e as int, n as nat),
{
    let mut d = text::digits_big(all, n);
    proof {
        pyfmt::lemma_digits_len(all@, n as nat);
    }
    if e >= n as i64 - 1 {
        let z = text::repeated('0', (e - n as i64 + 1) as usize);
        d.push_str(z.as_str());
        d
    } else if e >= 0 {
        let v = text::chars_of(d.as_str());
        let k: usize = (e + 1) as usize;
        let mut r = text::slice_of(&v, 0, k);
        let rest = text::slice_of(&v, k, v.len());
        assert(r@ =~= d@.take(e + 1));
        assert(rest@ =~= d@.skip(e + 1));
        r.push_str(".");
        r.push_str(rest.as_str());
        r
    } else {
        let z = text::repeated('0', (-e - 1) as usize);
        let mut r = text::owned("0.");
        r.push_str(z.as_str());
        r.push_str(d.as_str());
        r
    }
}

pub fn plain(x: Double) -> (r: String)
    ensures
        r@ == plain_spec(x),
{
    if x.is_nan() {
        return text::owned("NaN");
    }
    if !x.is_finite() {
        return pyfmt::repr(x);
    }
    let c: u64 = x.magnitude();
    let mut sign = pyfmt::minus_text(x.is_neg());
    if c == 0 {
        sign.push_str("0");
        return sign;
    }
    let (all, e, n) = decimal::shortest_of(c);
    let body = plain_body_text(&all, e, n as usize);
    sign.push_str(body.as_str());
    sign
}

/// [`fixed_spec`] with a sign in front of every number.
pub open spec fn signed_spec(x: Double, prec: nat) -> Seq<char> {
    if x.nan() {
        "NaN"@
    } else {
        pyfmt::signed_spec(x, prec)
    }
}

pub fn signed(x: Double, prec: usize) -> (r: String)
    ensures
        r@ == signed_spec(x, prec as nat),
{
    if x.is_nan() {
        text::owned("NaN")
    } else {
        pyfmt::signed(x, prec)
    }
}

/// [`fixed_spec`] without the zeros at its end and then without the points there: the amount
/// format two venues are sent.
pub open spec fn fixed_stripped_spec(x: Double, prec: nat) -> Seq<char> {
    text::strip_end(text::strip_end(fixed_spec(x, prec), '0'), '.')
}

pub fn fixed_stripped(x: Double, prec: usize) -> (r: String)
    ensures
        r@ == fixed_stripped_spec(x, prec as nat),
{
    let s = fixed(x, prec);
    text::stripped_end(text::stripped_end(s.as_str(), '0').as_str(), '.')
}

// ------------------------------------------------------------------ queries
/// Whether a byte stands for itself in a query.
pub open spec fn is_plain(b: u8) -> bool {
    ||| 65 <= b <= 90
    ||| 97 <= b <= 122
    ||| 48 <= b <= 57
    ||| b == 95
    ||| b == 46
    ||| b == 45
    ||| b == 126
}

/// A hexadecimal digit in capitals.
pub open spec fn hex_capital(d: int) -> char {
    if d < 10 {
        (48 + d) as char
    } else {
        (55 + d) as char
    }
}

/// A byte in a query.
pub open spec fn quoted_byte(b: u8) -> Seq<char> {
    if is_plain(b) {
        seq![b as char]
    } else if b == 32 {
        seq!['+']
    } else {
        seq!['%', hex_capital(b as int / 16), hex_capital(b as int % 16)]
    }
}

/// The first `n` bytes in a query.
pub open spec fn quoted_bytes(b: Seq<u8>, n: nat) -> Seq<char>
    decreases n,
{
    if n == 0 {
        Seq::empty()
    } else {
        quoted_bytes(b, (n - 1) as nat) + quoted_byte(b[n - 1])
    }
}

/// A text in a query: letters, digits and `_.-~` as they are, a space as `+`, every other
/// byte of its UTF-8 as `%` and two hexadecimal digits.
pub open spec fn quote_plus_spec(s: Seq<char>) -> Seq<char> {
    let b = vstd::utf8::encode_utf8(s);
    quoted_bytes(b, b.len())
}

fn hex_capital_char(d: u8) -> (c: char)
    requires
        d < 16,
    ensures
        c == hex_capital(d as int),
{
    if d < 10 {
        (48 + d) as char
    } else {
        (55 + d) as char
    }
}

fn quote_plus(s: &str) -> (r: String)
    ensures
        r@ == quote_plus_spec(s@),
{
    let b = s.as_bytes();
    let mut r = String::new();
    let mut i: usize = 0;
    while i < b.len()
        invariant
            i <= b@.len(),
            r@ == quoted_bytes(b@, i as nat),
        decreases b@.len() - i,
    {
        let c: u8 = b[i];
        let ghost start = r@;
        if (65 <= c && c <= 90) || (97 <= c && c <= 122) || (48 <= c && c <= 57) || c == 95 || c
            == 46 || c == 45 || c == 126 {
            r.push(c as char);
            assert(r@ =~= start + quoted_byte(c));
        } else if c == 32 {
            r.push('+');
            assert(r@ =~= start + quoted_byte(c));
        } else {
            r.push('%');
            r.push(hex_capital_char(c / 16));
            r.push(hex_capital_char(c % 16));
            assert(r@ =~= start + quoted_byte(c));
        }
        i = i + 1;
    }
    r
}

/// The first `n` pairs of a query string.
pub open spec fn query_of(pairs: Seq<(Seq<char>, Seq<char>)>, n: nat) -> Seq<char>
    decreases n,
{
    if n == 0 {
        Seq::empty()
    } else if n == 1 {
        quote_plus_spec(pairs[0].0) + "="@ + quote_plus_spec(pairs[0].1)
    } else {
        query_of(pairs, (n - 1) as nat) + "&"@ + quote_plus_spec(pairs[n - 1].0) + "="@
            + quote_plus_spec(pairs[n - 1].1)
    }
}

/// A query string: `key=value` pairs with `&` between them, each key and value quoted.
pub fn urlencode(pairs: &Vec<(String, String)>) -> (r: String)
    ensures
        r@ == query_of(pairs.deep_view(), pairs@.len()),
{
    let mut r = String::new();
    let mut i: usize = 0;
    while i < pairs.len()
        invariant
            i <= pairs@.len(),
            r@ == query_of(pairs.deep_view(), i as nat),
        decreases pairs@.len() - i,
    {
        assert(pairs.deep_view()[i as int] == (pairs@[i as int].0@, pairs@[i as int].1@));
        let k = quote_plus(pairs[i].0.as_str());
        if i == 0 {
            r = k;
        } else {
            r.push_str("&");
            r.push_str(k.as_str());
        }
        r.push_str("=");
        r.push_str(quote_plus(pairs[i].1.as_str()).as_str());
        i = i + 1;
    }
    r
}

// ------------------------------------------------------------------ JSON, ordered
/// A JSON value that keeps its object keys in document order. Only used where order is
/// visible: error text and signed bodies.
#[derive(Debug)]
pub enum PyVal {
    Null,
    Bool(bool),
    /// An integer literal, kept as written.
    Int(String),
    Float(Double),
    Str(String),
    List(Vec<PyVal>),
    Dict(Vec<(String, PyVal)>),
}

/// What a [`PyVal`] holds.
pub enum PyDoc {
    Null,
    Bool(bool),
    Int(Seq<char>),
    Float(Double),
    Str(Seq<char>),
    List(Seq<PyDoc>),
    Dict(Seq<(Seq<char>, PyDoc)>),
}

/// What a value holds.
pub open spec fn py_doc(v: PyVal) -> PyDoc
    decreases v,
{
    match v {
        PyVal::Null => PyDoc::Null,
        PyVal::Bool(b) => PyDoc::Bool(b),
        PyVal::Int(s) => PyDoc::Int(s@),
        PyVal::Float(f) => PyDoc::Float(f),
        PyVal::Str(s) => PyDoc::Str(s@),
        PyVal::List(a) => PyDoc::List(
            Seq::new(
                a@.len(),
                |i: int|
                    if 0 <= i < a@.len() {
                        py_doc(a@[i])
                    } else {
                        PyDoc::Null
                    },
            ),
        ),
        PyVal::Dict(o) => PyDoc::Dict(
            Seq::new(
                o@.len(),
                |i: int|
                    if 0 <= i < o@.len() {
                        (o@[i].0@, py_doc(o@[i].1))
                    } else {
                        (Seq::empty(), PyDoc::Null)
                    },
            ),
        ),
    }
}

impl View for PyVal {
    type V = PyDoc;

    open spec fn view(&self) -> PyDoc {
        py_doc(*self)
    }
}

impl DeepView for PyVal {
    type V = PyDoc;

    open spec fn deep_view(&self) -> PyDoc {
        py_doc(*self)
    }
}

impl PyVal {
    /// A text.
    pub fn text(s: &str) -> (r: PyVal)
        ensures
            r@ == PyDoc::Str(s@),
    {
        PyVal::Str(text::owned(s))
    }

    /// An object.
    pub fn dict(pairs: Vec<(String, PyVal)>) -> (r: PyVal)
        ensures
            r@ == PyDoc::Dict(pairs.deep_view()),
    {
        let r = PyVal::Dict(pairs);
        assert(r@->Dict_0 =~= pairs.deep_view());
        r
    }
}

/// Whether a text is a JSON string literal with nothing escaped in it: between its quotes there
/// is no quote, no backslash and no control character.
pub open spec fn is_bare_literal(raw: Seq<char>) -> bool {
    &&& raw.len() >= 2
    &&& raw[0] == '"'
    &&& raw.last() == '"'
    &&& forall|i: int|
        0 < i < raw.len() - 1 ==> (#[trigger] raw[i]) != '"' && raw[i] != '\\' && raw[i] as u32
            >= 32
}

/// What `serde_json` makes of a text that is no [bare literal](is_bare_literal): the text that it
/// stands for, none where it is no valid literal.
pub uninterp spec fn escaped_text(raw: Seq<char>) -> Option<Seq<char>>;

/// The text that a JSON string literal, its quotes included, stands for; none where it is no
/// valid one.
pub open spec fn json_text(raw: Seq<char>) -> Option<Seq<char>> {
    if is_bare_literal(raw) {
        Some(raw.subrange(1, raw.len() - 1))
    } else {
        escaped_text(raw)
    }
}

/// `serde_json::from_str` for a string: a literal without escapes stands for what is between its
/// quotes; of any other text the result is named [`escaped_text`], none where `serde_json`
/// refuses it.
#[verifier::external_body]
fn unescaped(raw: &str) -> (r: Option<String>)
    ensures
        r.deep_view() == if is_bare_literal(raw@) {
            Some(raw@.subrange(1, raw@.len() - 1))
        } else {
            escaped_text(raw@)
        },
{
    serde_json::from_str::<String>(raw).ok()
}

/// Whether JSON skips a character.
pub open spec fn is_blank(c: char) -> bool {
    c == ' ' || c == '\t' || c == '\n' || c == '\r'
}

/// The first place at or after `i` that is not blank.
pub open spec fn skip_blank(s: Seq<char>, i: int) -> int
    decreases s.len() - i,
{
    if 0 <= i < s.len() && is_blank(s[i]) {
        skip_blank(s, i + 1)
    } else {
        i
    }
}

/// Where the string whose quote was opened ends, behind its closing quote.
pub open spec fn string_end(s: Seq<char>, i: int, escaped: bool) -> Option<int>
    decreases s.len() - i,
{
    if i < 0 || i >= s.len() {
        None
    } else if escaped {
        string_end(s, i + 1, false)
    } else if s[i] == '\\' {
        string_end(s, i + 1, true)
    } else if s[i] == '"' {
        Some(i + 1)
    } else {
        string_end(s, i + 1, false)
    }
}

/// The string at `i` and where it ends.
pub open spec fn string_at(s: Seq<char>, i: int) -> Option<(Seq<char>, int)> {
    if 0 <= i < s.len() && s[i] == '"' {
        match string_end(s, i + 1, false) {
            Some(e) => match json_text(s.subrange(i, e)) {
                Some(t) => Some((t, e)),
                None => None,
            },
            None => None,
        }
    } else {
        None
    }
}

/// Whether a number literal may hold a character.
pub open spec fn is_numeral(c: char) -> bool {
    text::is_digit(c) || c == '-' || c == '+' || c == '.' || c == 'e' || c == 'E'
}

/// Where the number literal at `i` ends.
pub open spec fn numeral_end(s: Seq<char>, i: int) -> int
    decreases s.len() - i,
{
    if 0 <= i < s.len() && is_numeral(s[i]) {
        numeral_end(s, i + 1)
    } else {
        i
    }
}

/// Whether a literal is written as a fraction or with an exponent.
pub open spec fn is_fractional(s: Seq<char>) -> bool {
    s.contains('.') || s.contains('e') || s.contains('E')
}

/// The value of a number literal: a whole number of any size stays as it is written.
pub open spec fn number_value(lit: Seq<char>) -> Option<PyDoc> {
    if !decimal::is_json_number(lit) {
        None
    } else if is_fractional(lit) {
        match decimal::number_of(lit) {
            Some(f) => Some(PyDoc::Float(f)),
            None => None,
        }
    } else {
        Some(PyDoc::Int(lit))
    }
}

/// A word of JSON and the value it stands for.
pub open spec fn word_at(s: Seq<char>, i: int, word: Seq<char>, v: PyDoc) -> Option<(PyDoc, int)> {
    if text::stands_at(s, i, word) {
        Some((v, i + word.len()))
    } else {
        None
    }
}

/// The number at `i` and where it ends.
pub open spec fn number_at(s: Seq<char>, i: int) -> Option<(PyDoc, int)> {
    if text::stands_at(s, i, "-Infinity"@) {
        Some((PyDoc::Float(Double::infinity_spec(true)), i + "-Infinity"@.len()))
    } else {
        let e = numeral_end(s, i);
        match number_value(s.subrange(i, e)) {
            Some(v) => if i < e {
                Some((v, e))
            } else {
                None
            },
            None => None,
        }
    }
}

/// The place of a key among entries, their number where it is not there.
pub open spec fn place(e: Seq<(Seq<char>, PyDoc)>, key: Seq<char>, i: int) -> int
    decreases e.len() - i,
{
    if i >= e.len() {
        e.len() as int
    } else if e[i].0 == key {
        i
    } else {
        place(e, key, i + 1)
    }
}

/// Entries with one more: a key that is there keeps its place and takes the later value.
pub open spec fn entered(e: Seq<(Seq<char>, PyDoc)>, key: Seq<char>, v: PyDoc) -> Seq<
    (Seq<char>, PyDoc),
> {
    if place(e, key, 0) < e.len() {
        e.update(place(e, key, 0), (key, v))
    } else {
        e.push((key, v))
    }
}

/// The value at `i` and where it ends.
pub open spec fn value_at(s: Seq<char>, i: int) -> Option<(PyDoc, int)>
    decreases s.len() - i, 0nat,
{
    if i < 0 || i >= s.len() {
        None
    } else if s[i] == '{' {
        let j = skip_blank(s, i + 1);
        if 0 <= j < s.len() && s[j] == '}' {
            Some((PyDoc::Dict(Seq::empty()), j + 1))
        } else if !(i < j <= s.len()) {
            None
        } else {
            entries_from(s, j, Seq::empty())
        }
    } else if s[i] == '[' {
        let j = skip_blank(s, i + 1);
        if 0 <= j < s.len() && s[j] == ']' {
            Some((PyDoc::List(Seq::empty()), j + 1))
        } else if !(i < j <= s.len()) {
            None
        } else {
            items_from(s, j, Seq::empty())
        }
    } else if s[i] == '"' {
        match string_at(s, i) {
            Some((t, e)) => Some((PyDoc::Str(t), e)),
            None => None,
        }
    } else if s[i] == 't' {
        word_at(s, i, "true"@, PyDoc::Bool(true))
    } else if s[i] == 'f' {
        word_at(s, i, "false"@, PyDoc::Bool(false))
    } else if s[i] == 'n' {
        word_at(s, i, "null"@, PyDoc::Null)
    } else if s[i] == 'N' {
        word_at(s, i, "NaN"@, PyDoc::Float(Double::nan_spec()))
    } else if s[i] == 'I' {
        word_at(s, i, "Infinity"@, PyDoc::Float(Double::infinity_spec(false)))
    } else {
        number_at(s, i)
    }
}

/// The rest of an object from the place of its next key on.
pub open spec fn entries_from(s: Seq<char>, i: int, e: Seq<(Seq<char>, PyDoc)>) -> Option<
    (PyDoc, int),
>
    decreases s.len() - i, 1nat,
{
    match string_at(s, skip_blank(s, i)) {
        None => None,
        Some((key, k)) => {
            let c = skip_blank(s, k);
            if !(i < c < s.len() && s[c] == ':') {
                None
            } else {
                let v = skip_blank(s, c + 1);
                if !(i < v <= s.len()) {
                    None
                } else {
                    match value_at(s, v) {
                        None => None,
                        Some((d, k2)) => {
                            let c2 = skip_blank(s, k2);
                            if !(i < c2 < s.len()) {
                                None
                            } else if s[c2] == ',' {
                                entries_from(s, c2 + 1, entered(e, key, d))
                            } else if s[c2] == '}' {
                                Some((PyDoc::Dict(entered(e, key, d)), c2 + 1))
                            } else {
                                None
                            }
                        },
                    }
                }
            }
        },
    }
}

/// The rest of a list from the place of its next item on.
pub open spec fn items_from(s: Seq<char>, i: int, a: Seq<PyDoc>) -> Option<(PyDoc, int)>
    decreases s.len() - i, 1nat,
{
    let v = skip_blank(s, i);
    if !(i <= v <= s.len()) {
        None
    } else {
        match value_at(s, v) {
            None => None,
            Some((d, k)) => {
                let c = skip_blank(s, k);
                if !(i < c < s.len()) {
                    None
                } else if s[c] == ',' {
                    items_from(s, c + 1, a.push(d))
                } else if s[c] == ']' {
                    Some((PyDoc::List(a.push(d)), c + 1))
                } else {
                    None
                }
            },
        }
    }
}

/// The value a text spells, blanks around it aside; none where it is not JSON.
pub open spec fn ordered(s: Seq<char>) -> Option<PyDoc> {
    match value_at(s, skip_blank(s, 0)) {
        Some((d, e)) => if skip_blank(s, e) == s.len() {
            Some(d)
        } else {
            None
        },
        None => None,
    }
}

fn past_blank(v: &Vec<char>, i: usize) -> (r: usize)
    requires
        i <= v@.len(),
    ensures
        r == skip_blank(v@, i as int),
        i <= r <= v@.len(),
{
    let mut j: usize = i;
    while j < v.len() && (v[j] == ' ' || v[j] == '\t' || v[j] == '\n' || v[j] == '\r')
        invariant
            i <= j <= v@.len(),
            skip_blank(v@, i as int) == skip_blank(v@, j as int),
        decreases v@.len() - j,
    {
        j = j + 1;
    }
    j
}

fn past_string(v: &Vec<char>, i: usize) -> (r: Option<usize>)
    requires
        i <= v@.len(),
    ensures
        match r {
            Some(e) => string_end(v@, i as int, false) == Some(e as int) && i < e <= v@.len(),
            None => string_end(v@, i as int, false) is None,
        },
{
    let mut j: usize = i;
    let mut escaped = false;
    while j < v.len()
        invariant
            i <= j <= v@.len(),
            string_end(v@, i as int, false) == string_end(v@, j as int, escaped),
        decreases v@.len() - j,
    {
        let c = v[j];
        if escaped {
            escaped = false;
        } else if c == '\\' {
            escaped = true;
        } else if c == '"' {
            return Some(j + 1);
        }
        j = j + 1;
    }
    None
}

fn read_string(v: &Vec<char>, i: usize) -> (r: Option<(String, usize)>)
    requires
        i <= v@.len(),
    ensures
        match r {
            Some(p) => string_at(v@, i as int) == Some((p.0@, p.1 as int)) && i + 1 < p.1 <= v@.len(),
            None => string_at(v@, i as int) is None,
        },
{
    if i >= v.len() || v[i] != '"' {
        return None;
    }
    match past_string(v, i + 1) {
        Some(e) => {
            let raw = text::slice_of(v, i, e);
            match unescaped(raw.as_str()) {
                Some(t) => Some((t, e)),
                None => None,
            }
        },
        None => None,
    }
}

fn past_numeral(v: &Vec<char>, i: usize) -> (r: usize)
    requires
        i <= v@.len(),
    ensures
        r == numeral_end(v@, i as int),
        i <= r <= v@.len(),
{
    let mut j: usize = i;
    while j < v.len() && (text::digit_like(v[j]) || v[j] == '-' || v[j] == '+' || v[j] == '.'
        || v[j] == 'e' || v[j] == 'E')
        invariant
            i <= j <= v@.len(),
            numeral_end(v@, i as int) == numeral_end(v@, j as int),
        decreases v@.len() - j,
    {
        j = j + 1;
    }
    j
}

fn read_literal(lit: &str) -> (r: Option<PyVal>)
    ensures
        r.deep_view() == number_value(lit@),
{
    let v = text::chars_of(lit);
    if !decimal::json_number(&v) {
        None
    } else if text::has_char(lit, '.') || text::has_char(lit, 'e') || text::has_char(lit, 'E') {
        match decimal::read_number(&v) {
            Some(f) => Some(PyVal::Float(f)),
            None => None,
        }
    } else {
        Some(PyVal::Int(text::owned(lit)))
    }
}

/// A value and the place behind it.
pub open spec fn parsed(r: Option<(PyVal, usize)>) -> Option<(PyDoc, int)> {
    match r {
        Some(p) => Some((p.0@, p.1 as int)),
        None => None,
    }
}

fn read_word(v: &Vec<char>, i: usize, word: &str, value: PyVal) -> (r: Option<(PyVal, usize)>)
    requires
        i < v@.len(),
        word@.len() > 0,
    ensures
        parsed(r) == word_at(v@, i as int, word@, value@),
        r matches Some(p) ==> i < p.1 <= v@.len(),
{
    let w = text::chars_of(word);
    let _end: usize = v.len();
    if text::standing_at(v, i, &w) {
        Some((value, i + w.len()))
    } else {
        None
    }
}

fn read_numeral(v: &Vec<char>, i: usize) -> (r: Option<(PyVal, usize)>)
    requires
        i < v@.len(),
    ensures
        parsed(r) == number_at(v@, i as int),
        r matches Some(p) ==> i < p.1 <= v@.len(),
{
    let w = text::chars_of("-Infinity");
    proof {
        reveal_strlit("-Infinity");
    }
    let _end: usize = v.len();
    if text::standing_at(v, i, &w) {
        return Some((PyVal::Float(Double::infinity(true)), i + w.len()));
    }
    let e: usize = past_numeral(v, i);
    match read_literal(text::slice_of(v, i, e).as_str()) {
        Some(x) => if i < e {
            Some((x, e))
        } else {
            None
        },
        None => None,
    }
}

proof fn lemma_place(e: Seq<(Seq<char>, PyDoc)>, key: Seq<char>, i: int)
    requires
        0 <= i <= e.len(),
    ensures
        i <= place(e, key, i) <= e.len(),
    decreases e.len() - i,
{
    if i < e.len() && e[i].0 != key {
        lemma_place(e, key, i + 1);
    }
}

fn enter(e: &mut Vec<(String, PyVal)>, key: String, value: PyVal)
    ensures
        final(e).deep_view() == entered(old(e).deep_view(), key@, value@),
{
    let ghost before = e.deep_view();
    let mut i: usize = 0;
    while i < e.len()
        invariant
            i <= e@.len(),
            before == e.deep_view(),
            before == old(e).deep_view(),
            place(before, key@, 0) == place(before, key@, i as int),
        decreases e@.len() - i,
    {
        assert(before[i as int] == (e@[i as int].0@, e@[i as int].1@));
        if text::same(e[i].0.as_str(), key.as_str()) {
            e.set(i, (key, value));
            assert(e.deep_view() =~= before.update(i as int, (key@, value@)));
            return;
        }
        i = i + 1;
    }
    e.push((key, value));
    assert(e.deep_view() =~= before.push((key@, value@)));
}

fn read_value(v: &Vec<char>, i: usize) -> (r: Option<(PyVal, usize)>)
    requires
        i <= v@.len(),
    ensures
        parsed(r) == value_at(v@, i as int),
        r matches Some(p) ==> i < p.1 <= v@.len(),
    decreases v@.len() - i, 0nat,
{
    proof {
        reveal_strlit("true");
        reveal_strlit("false");
        reveal_strlit("null");
        reveal_strlit("NaN");
        reveal_strlit("Infinity");
    }
    if i >= v.len() {
        return None;
    }
    let c = v[i];
    if c == '{' {
        let j: usize = past_blank(v, i + 1);
        if j < v.len() && v[j] == '}' {
            let r = PyVal::Dict(Vec::new());
            assert(r@->Dict_0 =~= Seq::empty());
            Some((r, j + 1))
        } else {
            read_entries(v, j)
        }
    } else if c == '[' {
        let j: usize = past_blank(v, i + 1);
        if j < v.len() && v[j] == ']' {
            let r = PyVal::List(Vec::new());
            assert(r@->List_0 =~= Seq::empty());
            Some((r, j + 1))
        } else {
            read_items(v, j)
        }
    } else if c == '"' {
        match read_string(v, i) {
            Some((t, e)) => Some((PyVal::Str(t), e)),
            None => None,
        }
    } else if c == 't' {
        read_word(v, i, "true", PyVal::Bool(true))
    } else if c == 'f' {
        read_word(v, i, "false", PyVal::Bool(false))
    } else if c == 'n' {
        read_word(v, i, "null", PyVal::Null)
    } else if c == 'N' {
        read_word(v, i, "NaN", PyVal::Float(Double::nan_value()))
    } else if c == 'I' {
        read_word(v, i, "Infinity", PyVal::Float(Double::infinity(false)))
    } else {
        read_numeral(v, i)
    }
}

fn read_entries(v: &Vec<char>, start: usize) -> (r: Option<(PyVal, usize)>)
    requires
        start <= v@.len(),
    ensures
        parsed(r) == entries_from(v@, start as int, Seq::empty()),
        r matches Some(p) ==> start < p.1 <= v@.len(),
    decreases v@.len() - start, 1nat,
{
    let mut e: Vec<(String, PyVal)> = Vec::new();
    let mut i: usize = start;
    assert(e.deep_view() =~= Seq::empty());
    loop
        invariant
            start <= i <= v@.len(),
            entries_from(v@, start as int, Seq::empty()) == entries_from(
                v@,
                i as int,
                e.deep_view(),
            ),
        decreases v@.len() - i,
    {
        let k: usize = past_blank(v, i);
        match read_string(v, k) {
            None => {
                return None;
            },
            Some((key, k1)) => {
                let c: usize = past_blank(v, k1);
                if c >= v.len() || v[c] != ':' {
                    return None;
                }
                let at: usize = past_blank(v, c + 1);
                match read_value(v, at) {
                    None => {
                        return None;
                    },
                    Some((value, k2)) => {
                        let c2: usize = past_blank(v, k2);
                        if c2 >= v.len() {
                            return None;
                        }
                        if v[c2] == ',' {
                            enter(&mut e, key, value);
                            i = c2 + 1;
                        } else if v[c2] == '}' {
                            enter(&mut e, key, value);
                            let r = PyVal::Dict(e);
                            assert(r@->Dict_0 =~= e.deep_view());
                            return Some((r, c2 + 1));
                        } else {
                            return None;
                        }
                    },
                }
            },
        }
    }
}

fn read_items(v: &Vec<char>, start: usize) -> (r: Option<(PyVal, usize)>)
    requires
        start <= v@.len(),
    ensures
        parsed(r) == items_from(v@, start as int, Seq::empty()),
        r matches Some(p) ==> start < p.1 <= v@.len(),
    decreases v@.len() - start, 1nat,
{
    let mut a: Vec<PyVal> = Vec::new();
    let mut i: usize = start;
    assert(a.deep_view() =~= Seq::empty());
    loop
        invariant
            start <= i <= v@.len(),
            items_from(v@, start as int, Seq::empty()) == items_from(v@, i as int, a.deep_view()),
        decreases v@.len() - i,
    {
        let at: usize = past_blank(v, i);
        match read_value(v, at) {
            None => {
                return None;
            },
            Some((value, k)) => {
                let c: usize = past_blank(v, k);
                if c >= v.len() {
                    return None;
                }
                if v[c] == ',' {
                    list::push(&mut a, value);
                    i = c + 1;
                } else if v[c] == ']' {
                    list::push(&mut a, value);
                    let r = PyVal::List(a);
                    assert(r@->List_0 =~= a.deep_view());
                    return Some((r, c + 1));
                } else {
                    return None;
                }
            },
        }
    }
}

/// Parse JSON keeping key order; none when the text is not JSON. A key that is given twice
/// keeps its first place and its last value.
pub fn parse_ordered(s: &str) -> (r: Option<PyVal>)
    ensures
        r.deep_view() == ordered(s@),
{
    let v = text::chars_of(s);
    let i: usize = past_blank(&v, 0);
    match read_value(&v, i) {
        Some((d, e)) => if past_blank(&v, e) == v.len() {
            Some(d)
        } else {
            None
        },
        None => None,
    }
}

// ------------------------------------------------------------------ text of a value
/// A character inside a quoted text: one that does not print is escaped by its number.
pub open spec fn repr_char(c: char, q: char) -> Seq<char> {
    let n = c as nat;
    if c == '\\' {
        "\\\\"@
    } else if c == '\n' {
        "\\n"@
    } else if c == '\r' {
        "\\r"@
    } else if c == '\t' {
        "\\t"@
    } else if c == q {
        seq!['\\', c]
    } else if text::is_printable(c) {
        seq![c]
    } else if n < 0x100 {
        "\\x"@ + text::hex(n, 2)
    } else if n < 0x10000 {
        "\\u"@ + text::hex(n, 4)
    } else {
        "\\U"@ + text::hex(n, 8)
    }
}

/// The quote a text is written in: a single one, unless the text holds one and no double
/// quote.
pub open spec fn quote_for(s: Seq<char>) -> char {
    if s.contains('\'') && !s.contains('"') {
        '"'
    } else {
        '\''
    }
}

/// The opening quote and the first `n` characters.
pub open spec fn repr_start(s: Seq<char>, q: char, n: nat) -> Seq<char>
    decreases n,
{
    if n == 0 {
        seq![q]
    } else {
        repr_start(s, q, (n - 1) as nat) + repr_char(s[n - 1], q)
    }
}

/// A text in quotes.
pub open spec fn repr_str_spec(s: Seq<char>) -> Seq<char> {
    repr_start(s, quote_for(s), s.len()).push(quote_for(s))
}

fn push_repr(out: &mut String, c: char, q: char)
    ensures
        final(out)@ == old(out)@ + repr_char(c, q),
{
    let n: u32 = c as u32;
    let ghost start = out@;
    if c == '\\' {
        out.push_str("\\\\");
    } else if c == '\n' {
        out.push_str("\\n");
    } else if c == '\r' {
        out.push_str("\\r");
    } else if c == '\t' {
        out.push_str("\\t");
    } else if c == q {
        out.push('\\');
        out.push(c);
        assert(out@ =~= start + repr_char(c, q));
    } else if text::prints(c) {
        out.push(c);
        assert(out@ =~= start + repr_char(c, q));
    } else if n < 0x100 {
        out.push_str("\\x");
        out.push_str(text::hex_u32(n, 2).as_str());
        assert(out@ =~= start + repr_char(c, q));
    } else if n < 0x10000 {
        out.push_str("\\u");
        out.push_str(text::hex_u32(n, 4).as_str());
        assert(out@ =~= start + repr_char(c, q));
    } else {
        out.push_str("\\U");
        out.push_str(text::hex_u32(n, 8).as_str());
        assert(out@ =~= start + repr_char(c, q));
    }
}

/// A text in quotes: single ones unless it holds one and no double quote. What does not print
/// is escaped.
pub fn repr_str(s: &str) -> (r: String)
    ensures
        r@ == repr_str_spec(s@),
{
    let q: char = if text::has_char(s, '\'') && !text::has_char(s, '"') {
        '"'
    } else {
        '\''
    };
    let v = text::chars_of(s);
    let mut r = String::new();
    r.push(q);
    assert(r@ =~= seq![q]);
    let mut i: usize = 0;
    while i < v.len()
        invariant
            i <= v@.len(),
            v@ == s@,
            q == quote_for(s@),
            r@ == repr_start(s@, q, i as nat),
        decreases v@.len() - i,
    {
        push_repr(&mut r, v[i], q);
        i = i + 1;
    }
    r.push(q);
    r
}

/// A value as text: words for null and booleans, quotes around texts.
pub open spec fn repr_of(d: PyDoc) -> Seq<char>
    decreases d, 0nat,
{
    match d {
        PyDoc::Null => "None"@,
        PyDoc::Bool(b) => if b {
            "True"@
        } else {
            "False"@
        },
        PyDoc::Int(s) => s,
        PyDoc::Float(f) => pyfmt::repr_spec(f),
        PyDoc::Str(s) => repr_str_spec(s),
        PyDoc::List(a) => repr_items(a, a.len()) + "]"@,
        PyDoc::Dict(o) => repr_entries(o, o.len()) + "}"@,
    }
}

/// The opening bracket and the first `n` items.
pub open spec fn repr_items(a: Seq<PyDoc>, n: nat) -> Seq<char>
    decreases a, n,
{
    if n == 0 || n > a.len() {
        "["@
    } else if n == 1 {
        repr_items(a, 0) + repr_of(a[0])
    } else {
        repr_items(a, (n - 1) as nat) + ", "@ + repr_of(a[n - 1])
    }
}

/// The opening brace and the first `n` entries.
pub open spec fn repr_entries(o: Seq<(Seq<char>, PyDoc)>, n: nat) -> Seq<char>
    decreases o, n,
{
    if n == 0 || n > o.len() {
        "{"@
    } else if n == 1 {
        repr_entries(o, 0) + repr_str_spec(o[0].0) + ": "@ + repr_of(o[0].1)
    } else {
        repr_entries(o, (n - 1) as nat) + ", "@ + repr_str_spec(o[n - 1].0) + ": "@ + repr_of(
            o[n - 1].1,
        )
    }
}

/// A value as text.
pub fn py_repr(v: &PyVal) -> (r: String)
    ensures
        r@ == repr_of(v@),
    decreases v,
{
    match v {
        PyVal::Null => text::owned("None"),
        PyVal::Bool(b) => if *b {
            text::owned("True")
        } else {
            text::owned("False")
        },
        PyVal::Int(s) => text::owned(s.as_str()),
        PyVal::Float(f) => pyfmt::repr(*f),
        PyVal::Str(s) => repr_str(s.as_str()),
        PyVal::List(a) => {
            let mut r = text::owned("[");
            let mut i: usize = 0;
            while i < a.len()
                invariant
                    i <= a@.len(),
                    v == PyVal::List(*a),
                    r@ == repr_items(v@->List_0, i as nat),
                decreases a@.len() - i,
            {
                assert(v@->List_0[i as int] == a@[i as int]@);
                if i > 0 {
                    r.push_str(", ");
                }
                r.push_str(py_repr(&a[i]).as_str());
                i = i + 1;
            }
            r.push_str("]");
            r
        },
        PyVal::Dict(o) => {
            let mut r = text::owned("{");
            let mut i: usize = 0;
            while i < o.len()
                invariant
                    i <= o@.len(),
                    v == PyVal::Dict(*o),
                    r@ == repr_entries(v@->Dict_0, i as nat),
                decreases o@.len() - i,
            {
                assert(v@->Dict_0[i as int] == (o@[i as int].0@, o@[i as int].1@));
                if i > 0 {
                    r.push_str(", ");
                }
                r.push_str(repr_str(o[i].0.as_str()).as_str());
                r.push_str(": ");
                r.push_str(py_repr(&o[i].1).as_str());
                i = i + 1;
            }
            r.push_str("}");
            r
        },
    }
}

/// A value as it is shown: a text bare, anything else as [`repr_of`] writes it.
pub open spec fn shown(d: PyDoc) -> Seq<char> {
    match d {
        PyDoc::Str(s) => s,
        _ => repr_of(d),
    }
}

/// A value as it is shown: a text bare, anything else as [`py_repr`] writes it.
pub fn py_str(v: &PyVal) -> (r: String)
    ensures
        r@ == shown(v@),
{
    match v {
        PyVal::Str(s) => text::owned(s.as_str()),
        _ => py_repr(v),
    }
}

/// The body of a response as it is shown: what is JSON as a value, anything else as it is.
pub open spec fn body_spec(s: Seq<char>) -> Seq<char> {
    match ordered(s) {
        Some(d) => shown(d),
        None => s,
    }
}

/// The body of a venue response as it is shown: JSON as a value, anything else verbatim.
pub fn body_str(s: &str) -> (r: String)
    ensures
        r@ == body_spec(s@),
{
    match parse_ordered(s) {
        Some(v) => py_str(&v),
        None => text::owned(s),
    }
}

/// The first `n` characters.
pub fn head(s: &str, n: usize) -> (r: String)
    ensures
        r@ == text::first(s@, n as nat),
{
    text::head(s, n)
}

// ------------------------------------------------------------------ JSON, writing
/// A value as JSON, with or without a space behind its separators.
pub open spec fn dumped(d: PyDoc, compact: bool) -> Seq<char>
    decreases d, 0nat,
{
    match d {
        PyDoc::Null => "null"@,
        PyDoc::Bool(b) => if b {
            "true"@
        } else {
            "false"@
        },
        PyDoc::Int(s) => s,
        PyDoc::Float(f) => json::float_json_spec(f),
        PyDoc::Str(s) => json::quoted(s),
        PyDoc::List(a) => dumped_items(a, a.len(), compact) + "]"@,
        PyDoc::Dict(o) => dumped_entries(o, o.len(), compact) + "}"@,
    }
}

/// What stands between items.
pub open spec fn between(compact: bool) -> Seq<char> {
    if compact {
        ","@
    } else {
        ", "@
    }
}

/// What stands behind a key.
pub open spec fn behind_key(compact: bool) -> Seq<char> {
    if compact {
        ":"@
    } else {
        ": "@
    }
}

/// The opening bracket and the first `n` items.
pub open spec fn dumped_items(a: Seq<PyDoc>, n: nat, compact: bool) -> Seq<char>
    decreases a, n,
{
    if n == 0 || n > a.len() {
        "["@
    } else if n == 1 {
        dumped_items(a, 0, compact) + dumped(a[0], compact)
    } else {
        dumped_items(a, (n - 1) as nat, compact) + between(compact) + dumped(a[n - 1], compact)
    }
}

/// The opening brace and the first `n` entries.
pub open spec fn dumped_entries(o: Seq<(Seq<char>, PyDoc)>, n: nat, compact: bool) -> Seq<char>
    decreases o, n,
{
    if n == 0 || n > o.len() {
        "{"@
    } else if n == 1 {
        dumped_entries(o, 0, compact) + json::quoted(o[0].0) + behind_key(compact) + dumped(
            o[0].1,
            compact,
        )
    } else {
        dumped_entries(o, (n - 1) as nat, compact) + between(compact) + json::quoted(o[n - 1].0)
            + behind_key(compact) + dumped(o[n - 1].1, compact)
    }
}

/// JSON for an ordered value: `", "` and `": "` between, or `","` and `":"` when `compact`.
pub fn dumps_ordered(v: &PyVal, compact: bool) -> (r: String)
    ensures
        r@ == dumped(v@, compact),
    decreases v,
{
    let item = if compact {
        ","
    } else {
        ", "
    };
    let colon = if compact {
        ":"
    } else {
        ": "
    };
    match v {
        PyVal::Null => text::owned("null"),
        PyVal::Bool(b) => if *b {
            text::owned("true")
        } else {
            text::owned("false")
        },
        PyVal::Int(s) => text::owned(s.as_str()),
        PyVal::Float(f) => json::float_json(*f),
        PyVal::Str(s) => json::quote(s.as_str()),
        PyVal::List(a) => {
            let mut r = text::owned("[");
            let mut i: usize = 0;
            while i < a.len()
                invariant
                    i <= a@.len(),
                    v == PyVal::List(*a),
                    item@ == between(compact),
                    r@ == dumped_items(v@->List_0, i as nat, compact),
                decreases a@.len() - i,
            {
                assert(v@->List_0[i as int] == a@[i as int]@);
                if i > 0 {
                    r.push_str(item);
                }
                r.push_str(dumps_ordered(&a[i], compact).as_str());
                i = i + 1;
            }
            r.push_str("]");
            r
        },
        PyVal::Dict(o) => {
            let mut r = text::owned("{");
            let mut i: usize = 0;
            while i < o.len()
                invariant
                    i <= o@.len(),
                    v == PyVal::Dict(*o),
                    item@ == between(compact),
                    colon@ == behind_key(compact),
                    r@ == dumped_entries(v@->Dict_0, i as nat, compact),
                decreases o@.len() - i,
            {
                assert(v@->Dict_0[i as int] == (o@[i as int].0@, o@[i as int].1@));
                if i > 0 {
                    r.push_str(item);
                }
                r.push_str(json::quote(o[i].0.as_str()).as_str());
                r.push_str(colon);
                r.push_str(dumps_ordered(&o[i].1, compact).as_str());
                i = i + 1;
            }
            r.push_str("}");
            r
        },
    }
}

/// A JSON string literal, ASCII only.
pub fn json_str(s: &str) -> (r: String)
    ensures
        r@ == json::quoted(s@),
{
    json::quote(s)
}

/// JSON for a value, in its own key order: on one line, or with every item on a line of its
/// own, `indent` spaces deeper than what holds it.
pub fn dumps(value: &Json, indent: Option<usize>) -> (r: String)
    ensures
        r@ == value@.dumps(
            match indent {
                Some(n) => Some(n as nat),
                None => None,
            },
        ),
{
    value.dumps(indent)
}

// ------------------------------------------------------------------ loose values
/// Whether a value is there and counts as true.
pub fn truthy(v: Option<&Json>) -> (r: bool)
    ensures
        r == (v.deep_view() is Some && v.deep_view()->0.truthy()),
{
    match v {
        Some(j) => j.truthy(),
        None => false,
    }
}

/// What a text is not.
pub open spec fn not_a_float(s: Seq<char>) -> Seq<char> {
    "could not convert string to float: "@ + repr_str_spec(s)
}

/// What is left of a text without the signs it begins with.
pub open spec fn unsigned(t: Seq<char>) -> Seq<char>
    decreases t.len(),
{
    if t.len() > 0 && (t[0] == '+' || t[0] == '-') {
        unsigned(t.skip(1))
    } else {
        t
    }
}

/// The number a text spells. White space around it does not count, underscores between
/// digits neither, and the non-finite ones are words.
pub open spec fn float_of(s: Seq<char>) -> Result<Double, Seq<char>> {
    let t = text::trim(s);
    let w = text::ascii_lower(t);
    let u = unsigned(w);
    if u == "inf"@ || u == "infinity"@ || u == "nan"@ {
        match pyfmt::number_or_word(w) {
            Some(f) => Ok(f),
            None => Err(not_a_float(s)),
        }
    } else {
        match text::ungrouped(t) {
            Some(c) => match decimal::number_of(c) {
                Some(f) => Ok(f),
                None => Err(not_a_float(s)),
            },
            None => Err(not_a_float(s)),
        }
    }
}

fn not_a_float_text(s: &str) -> (r: String)
    ensures
        r@ == not_a_float(s@),
{
    let mut r = text::owned("could not convert string to float: ");
    r.push_str(repr_str(s).as_str());
    r
}

fn strip_signs(t: &str) -> (r: String)
    ensures
        r@ == unsigned(t@),
{
    let v = text::chars_of(t);
    let mut i: usize = 0;
    assert(v@.skip(0) =~= v@);
    while i < v.len() && (v[i] == '+' || v[i] == '-')
        invariant
            i <= v@.len(),
            unsigned(v@) == unsigned(v@.skip(i as int)),
        decreases v@.len() - i,
    {
        assert(v@.skip(i as int).skip(1) =~= v@.skip(i + 1));
        i = i + 1;
    }
    assert(v@.subrange(i as int, v@.len() as int) =~= v@.skip(i as int));
    text::slice_of(&v, i, v.len())
}

/// The number a text spells: white space around it, the words for the non-finite numbers and
/// underscores between digits are accepted.
pub fn parse_float(s: &str) -> (r: Result<Double, String>)
    ensures
        list::outcome(r) == float_of(s@),
{
    let t = text::trimmed(s);
    let w = text::to_ascii_lower(t.as_str());
    let u = strip_signs(w.as_str());
    if text::same(u.as_str(), "inf") || text::same(u.as_str(), "infinity") || text::same(
        u.as_str(),
        "nan",
    ) {
        return match pyfmt::read_number_or_word(w.as_str()) {
            Some(f) => Ok(f),
            None => Err(not_a_float_text(s)),
        };
    }
    match text::ungroup(t.as_str()) {
        Some(c) => match decimal::read_number(&text::chars_of(c.as_str())) {
            Some(f) => Ok(f),
            None => Err(not_a_float_text(s)),
        },
        None => Err(not_a_float_text(s)),
    }
}

/// How the kind of a value is called.
pub open spec fn kind_name_spec(d: Doc) -> Seq<char> {
    match d {
        Doc::Null => "NoneType"@,
        Doc::Bool(_) => "bool"@,
        Doc::Int(_) => "float"@,
        Doc::Float(_) => "float"@,
        Doc::Str(_) => "str"@,
        Doc::Arr(_) => "list"@,
        Doc::Obj(_) => "dict"@,
    }
}

pub fn kind_name(j: &Json) -> (r: &'static str)
    ensures
        r@ == kind_name_spec(j@),
{
    match j {
        Json::Null => "NoneType",
        Json::Bool(_) => "bool",
        Json::Int(_) => "float",
        Json::Float(_) => "float",
        Json::Str(_) => "str",
        Json::Arr(_) => "list",
        Json::Obj(_) => "dict",
    }
}

/// The number a value stands for.
pub open spec fn to_float_spec(d: Doc) -> Result<Double, Seq<char>> {
    match d {
        Doc::Int(i) => Ok(Double::int_spec(i as int)),
        Doc::Float(f) => Ok(f),
        Doc::Bool(b) => Ok(
            if b {
                Double::int_spec(1)
            } else {
                Double::zero_spec()
            },
        ),
        Doc::Str(s) => float_of(s),
        _ => Err(
            "float() argument must be a string or a real number, not '"@ + kind_name_spec(d) + "'"@,
        ),
    }
}

/// The number a value stands for: numbers, booleans and numeric text.
pub fn to_float(v: &Json) -> (r: Result<Double, String>)
    ensures
        list::outcome(r) == to_float_spec(v@),
{
    match v {
        Json::Int(i) => Ok(Double::of_int(*i)),
        Json::Float(f) => Ok(*f),
        Json::Bool(b) => Ok(
            if *b {
                Double::of_int(1)
            } else {
                Double::zero()
            },
        ),
        Json::Str(s) => parse_float(s.as_str()),
        _ => {
            let mut e = text::owned("float() argument must be a string or a real number, not '");
            e.push_str(kind_name(v));
            e.push_str("'");
            Err(e)
        },
    }
}

/// The number a value stands for, 0 where it is missing or counts as false.
pub open spec fn float_or_zero_spec(d: Option<Doc>) -> Result<Double, Seq<char>> {
    match d {
        Some(v) => if v.truthy() {
            to_float_spec(v)
        } else {
            Ok(Double::zero_spec())
        },
        None => Ok(Double::zero_spec()),
    }
}

/// The number a value stands for, 0 where it is missing or counts as false.
pub fn float_or_zero(v: Option<&Json>) -> (r: Result<Double, String>)
    ensures
        list::outcome(r) == float_or_zero_spec(v.deep_view()),
{
    match v {
        Some(j) => if j.truthy() {
            to_float(j)
        } else {
            Ok(Double::zero())
        },
        None => Ok(Double::zero()),
    }
}

/// A whole number, as a number where it does not fit an `i64`.
pub open spec fn plain_int(s: Seq<char>) -> Doc {
    match decimal::whole_within(s, i64::MIN as int, i64::MAX as int) {
        Some(i) => Doc::Int(i as i64),
        None => match decimal::number_of(s) {
            Some(f) => Doc::Float(f),
            None => Doc::Null,
        },
    }
}

/// A value that was read, as a JSON value.
pub open spec fn plain_doc(d: PyDoc) -> Doc
    decreases d,
{
    match d {
        PyDoc::Null => Doc::Null,
        PyDoc::Bool(b) => Doc::Bool(b),
        PyDoc::Int(s) => plain_int(s),
        PyDoc::Float(f) => Doc::Float(f),
        PyDoc::Str(s) => Doc::Str(s),
        PyDoc::List(a) => Doc::Arr(
            Seq::new(
                a.len(),
                |i: int|
                    if 0 <= i < a.len() {
                        plain_doc(a[i])
                    } else {
                        Doc::Null
                    },
            ),
        ),
        PyDoc::Dict(o) => Doc::Obj(
            Seq::new(
                o.len(),
                |i: int|
                    if 0 <= i < o.len() {
                        (o[i].0, plain_doc(o[i].1))
                    } else {
                        (Seq::empty(), Doc::Null)
                    },
            ),
        ),
    }
}

/// A value that was read, as a JSON value.
pub fn plain_value(v: &PyVal) -> (r: Json)
    ensures
        r@ == plain_doc(v@),
    decreases v,
{
    match v {
        PyVal::Null => Json::Null,
        PyVal::Bool(b) => Json::Bool(*b),
        PyVal::Int(s) => match decimal::read_i64(s.as_str()) {
            Some(i) => Json::Int(i),
            None => match decimal::read_number(&text::chars_of(s.as_str())) {
                Some(f) => Json::Float(f),
                None => Json::Null,
            },
        },
        PyVal::Float(f) => Json::Float(*f),
        PyVal::Str(s) => Json::Str(text::owned(s.as_str())),
        PyVal::List(a) => {
            let mut l: Vec<Json> = Vec::new();
            let mut i: usize = 0;
            while i < a.len()
                invariant
                    i <= a@.len(),
                    v == PyVal::List(*a),
                    l@.len() == i,
                    forall|x: int| 0 <= x < i ==> (#[trigger] l@[x])@ == plain_doc(v@->List_0[x]),
                decreases a@.len() - i,
            {
                assert(v@->List_0[i as int] == a@[i as int]@);
                l.push(plain_value(&a[i]));
                i = i + 1;
            }
            let r = Json::Arr(l);
            assert(r@->Arr_0 =~= plain_doc(v@)->Arr_0);
            r
        },
        PyVal::Dict(o) => {
            let mut l: Vec<(String, Json)> = Vec::new();
            let mut i: usize = 0;
            while i < o.len()
                invariant
                    i <= o@.len(),
                    v == PyVal::Dict(*o),
                    l@.len() == i,
                    forall|x: int|
                        0 <= x < i ==> (#[trigger] l@[x]).0@ == v@->Dict_0[x].0 && l@[x].1@
                            == plain_doc(v@->Dict_0[x].1),
                decreases o@.len() - i,
            {
                assert(v@->Dict_0[i as int] == (o@[i as int].0@, o@[i as int].1@));
                l.push((text::owned(o[i].0.as_str()), plain_value(&o[i].1)));
                i = i + 1;
            }
            let r = Json::Obj(l);
            assert(r@->Obj_0 =~= plain_doc(v@)->Obj_0);
            r
        },
    }
}

/// The object a text spells, where it spells one.
pub open spec fn object_in(s: Seq<char>) -> Option<Doc> {
    match ordered(s) {
        Some(PyDoc::Dict(e)) => Some(plain_doc(PyDoc::Dict(e))),
        _ => None,
    }
}

/// The object a text spells, where it spells one.
pub fn read_object(s: &str) -> (r: Option<Json>)
    ensures
        r.deep_view() == object_in(s@),
{
    match parse_ordered(s) {
        Some(v) => match &v {
            PyVal::Dict(_) => Some(plain_value(&v)),
            _ => None,
        },
        None => None,
    }
}

/// A JSON value with its keys in order.
pub open spec fn ordered_doc(d: Doc) -> PyDoc
    decreases d,
{
    match d {
        Doc::Null => PyDoc::Null,
        Doc::Bool(b) => PyDoc::Bool(b),
        Doc::Int(i) => PyDoc::Int(text::dec_int(i as int)),
        Doc::Float(f) => PyDoc::Float(f),
        Doc::Str(s) => PyDoc::Str(s),
        Doc::Arr(a) => PyDoc::List(
            Seq::new(
                a.len(),
                |i: int|
                    if 0 <= i < a.len() {
                        ordered_doc(a[i])
                    } else {
                        PyDoc::Null
                    },
            ),
        ),
        Doc::Obj(o) => PyDoc::Dict(
            Seq::new(
                o.len(),
                |i: int|
                    if 0 <= i < o.len() {
                        (o[i].0, ordered_doc(o[i].1))
                    } else {
                        (Seq::empty(), PyDoc::Null)
                    },
            ),
        ),
    }
}

/// A JSON value with its keys in order.
pub fn ordered_value(j: &Json) -> (r: PyVal)
    ensures
        r@ == ordered_doc(j@),
    decreases j,
{
    match j {
        Json::Null => PyVal::Null,
        Json::Bool(b) => PyVal::Bool(*b),
        Json::Int(i) => PyVal::Int(text::dec_i64(*i)),
        Json::Float(f) => PyVal::Float(*f),
        Json::Str(s) => PyVal::Str(text::owned(s.as_str())),
        Json::Arr(a) => {
            let mut v: Vec<PyVal> = Vec::new();
            let mut i: usize = 0;
            while i < a.len()
                invariant
                    i <= a@.len(),
                    j == Json::Arr(*a),
                    v@.len() == i,
                    forall|x: int| 0 <= x < i ==> (#[trigger] v@[x])@ == ordered_doc(j@->Arr_0[x]),
                decreases a@.len() - i,
            {
                assert(j@->Arr_0[i as int] == a@[i as int]@);
                v.push(ordered_value(&a[i]));
                i = i + 1;
            }
            let r = PyVal::List(v);
            assert(r@->List_0 =~= ordered_doc(j@)->List_0);
            r
        },
        Json::Obj(o) => {
            let mut v: Vec<(String, PyVal)> = Vec::new();
            let mut i: usize = 0;
            while i < o.len()
                invariant
                    i <= o@.len(),
                    j == Json::Obj(*o),
                    v@.len() == i,
                    forall|x: int|
                        0 <= x < i ==> (#[trigger] v@[x]).0@ == j@->Obj_0[x].0 && v@[x].1@
                            == ordered_doc(j@->Obj_0[x].1),
                decreases o@.len() - i,
            {
                assert(j@->Obj_0[i as int] == (o@[i as int].0@, o@[i as int].1@));
                v.push((text::owned(o[i].0.as_str()), ordered_value(&o[i].1)));
                i = i + 1;
            }
            let r = PyVal::Dict(v);
            assert(r@->Dict_0 =~= ordered_doc(j@)->Dict_0);
            r
        },
    }
}

/// A value as text: a text is itself, null is `None`.
pub fn value_str(v: &Json) -> (r: String)
    ensures
        r@ == shown(ordered_doc(v@)),
{
    py_str(&ordered_value(v))
}

// ------------------------------------------------------------------ laws
proof fn lemma_escape_is_ascii(c: char)
    ensures
        forall|i: int|
            0 <= i < json::escaped_char(c).len() ==> 0x20 <= (#[trigger] json::escaped_char(
                c,
            )[i]) as u32 <= 0x7e,
{
    reveal_strlit("\\\"");
    reveal_strlit("\\\\");
    reveal_strlit("\\n");
    reveal_strlit("\\r");
    reveal_strlit("\\t");
    reveal_strlit("\\b");
    reveal_strlit("\\f");
    reveal_strlit("\\u");
    let n = c as nat;
    lemma_hex_is_ascii(n, 4);
    if n >= 0x1_0000 {
        lemma_hex_is_ascii((0xD800 + (n - 0x1_0000) / 0x400) as nat, 4);
        lemma_hex_is_ascii((0xDC00 + (n - 0x1_0000) % 0x400) as nat, 4);
    }
}

proof fn lemma_hex_is_ascii(n: nat, w: nat)
    ensures
        forall|i: int|
            0 <= i < text::hex(n, w).len() ==> 0x20 <= (#[trigger] text::hex(n, w)[i]) as u32
                <= 0x7e,
    decreases w,
{
    if w > 0 {
        lemma_hex_is_ascii(n / 16, (w - 1) as nat);
        let d = n % 16;
        let before = text::hex(n / 16, (w - 1) as nat);
        assert(d < 16);
        assert(0x20 <= text::hex_digit(d) as u32 <= 0x7e);
        assert forall|i: int| 0 <= i < text::hex(n, w).len() implies 0x20 <= (#[trigger] text::hex(
            n,
            w,
        )[i]) as u32 <= 0x7e by {
            if i < before.len() {
                assert(text::hex(n, w)[i] == before[i]);
            } else {
                assert(text::hex(n, w)[i] == text::hex_digit(d));
            }
        }
    }
}

proof fn lemma_quoted_start_is_ascii(s: Seq<char>, n: nat)
    requires
        n <= s.len(),
    ensures
        forall|i: int|
            0 <= i < json::quoted_start(s, n).len() ==> 0x20 <= (#[trigger] json::quoted_start(
                s,
                n,
            )[i]) as u32 <= 0x7e,
    decreases n,
{
    reveal_strlit("\"");
    if n > 0 {
        lemma_quoted_start_is_ascii(s, (n - 1) as nat);
        lemma_escape_is_ascii(s[n - 1]);
        let before = json::quoted_start(s, (n - 1) as nat);
        assert forall|i: int| 0 <= i < json::quoted_start(s, n).len() implies 0x20 <= (
        #[trigger] json::quoted_start(s, n)[i]) as u32 <= 0x7e by {
            if i < before.len() {
                assert(json::quoted_start(s, n)[i] == before[i]);
            } else {
                assert(json::quoted_start(s, n)[i] == json::escaped_char(s[n - 1])[i
                    - before.len()]);
            }
        }
    }
}

/// A JSON string literal holds printable ASCII only, whatever the text.
pub proof fn law_json_strings_are_ascii(s: Seq<char>, i: int)
    requires
        0 <= i < json::quoted(s).len(),
    ensures
        0x20 <= json::quoted(s)[i] as u32 <= 0x7e,
{
    reveal_strlit("\"");
    lemma_quoted_start_is_ascii(s, s.len());
}

/// A query holds no character that has a meaning in it but what [`urlencode`] itself puts
/// there.
pub proof fn law_queries_are_plain(s: Seq<char>, i: int)
    requires
        0 <= i < quote_plus_spec(s).len(),
    ensures
        quote_plus_spec(s)[i] != '&',
        quote_plus_spec(s)[i] != '=',
        quote_plus_spec(s)[i] != ' ',
        quote_plus_spec(s)[i] != '#',
{
    let b = vstd::utf8::encode_utf8(s);
    lemma_quoted_bytes_are_plain(b, b.len());
}

proof fn lemma_quoted_bytes_are_plain(b: Seq<u8>, n: nat)
    requires
        n <= b.len(),
    ensures
        forall|i: int|
            #![trigger quoted_bytes(b, n)[i]]
            0 <= i < quoted_bytes(b, n).len() ==> quoted_bytes(b, n)[i] != '&' && quoted_bytes(
                b,
                n,
            )[i] != '=' && quoted_bytes(b, n)[i] != ' ' && quoted_bytes(b, n)[i] != '#',
    decreases n,
{
    if n > 0 {
        lemma_quoted_bytes_are_plain(b, (n - 1) as nat);
        let q = quoted_byte(b[n - 1]);
        assert forall|k: int| 0 <= k < q.len() implies (#[trigger] q[k]) != '&' && q[k] != '='
            && q[k] != ' ' && q[k] != '#' by {
            let h = b[n - 1] as int / 16;
            let l = b[n - 1] as int % 16;
            assert(0 <= h < 16 && 0 <= l < 16);
        }
        let before = quoted_bytes(b, (n - 1) as nat);
        assert forall|i: int|
            #![trigger quoted_bytes(b, n)[i]]
            0 <= i < quoted_bytes(b, n).len() implies quoted_bytes(b, n)[i] != '&' && quoted_bytes(
            b,
            n,
        )[i] != '=' && quoted_bytes(b, n)[i] != ' ' && quoted_bytes(b, n)[i] != '#' by {
            if i < before.len() {
                assert(quoted_bytes(b, n)[i] == before[i]);
            } else {
                assert(quoted_bytes(b, n)[i] == q[i - before.len()]);
            }
        }
    }
}

} // verus!
