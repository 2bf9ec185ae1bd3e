//! A JSON value that keeps its keys in document order and tells integers from floats.
//!
//! [`Json`] is the value, [`Doc`] what it holds: contracts speak of the second.
use crate::double;
use crate::double::Double;
use crate::ids;
use crate::list;
use crate::list::Duplicate;
use crate::text;
use crate::watch::pyfmt;
use vstd::prelude::*;

verus! {

/// A JSON value.
#[derive(Debug)]
pub enum Json {
    Null,
    Bool(bool),
    Int(i64),
    Float(Double),
    Str(String),
    Arr(Vec<Json>),
    Obj(Vec<(String, Json)>),
}

/// What a JSON value holds.
pub enum Doc {
    Null,
    Bool(bool),
    Int(i64),
    Float(Double),
    Str(Seq<char>),
    Arr(Seq<Doc>),
    Obj(Seq<(Seq<char>, Doc)>),
}

/// What a JSON value holds.
pub open spec fn doc(j: Json) -> Doc
    decreases j,
{
    match j {
        Json::Null => Doc::Null,
        Json::Bool(b) => Doc::Bool(b),
        Json::Int(i) => Doc::Int(i),
        Json::Float(f) => Doc::Float(f),
        Json::Str(s) => Doc::Str(s@),
        Json::Arr(a) => Doc::Arr(
            Seq::new(
                a@.len(),
                |i: int|
                    if 0 <= i < a@.len() {
                        doc(a@[i])
                    } else {
                        Doc::Null
                    },
            ),
        ),
        Json::Obj(o) => Doc::Obj(
            Seq::new(
                o@.len(),
                |i: int|
                    if 0 <= i < o@.len() {
                        (o@[i].0@, doc(o@[i].1))
                    } else {
                        (Seq::empty(), Doc::Null)
                    },
            ),
        ),
    }
}

impl View for Json {
    type V = Doc;

    open spec fn view(&self) -> Doc {
        doc(*self)
    }
}

/// The place of the first entry for `key` at or after `i`, or the number of entries.
pub open spec fn spot(e: Seq<(Seq<char>, Doc)>, key: Seq<char>, i: int) -> int
    decreases e.len() - i,
{
    if i >= e.len() {
        e.len() as int
    } else if e[i].0 == key {
        i
    } else {
        spot(e, key, i + 1)
    }
}

fn spot_of(e: &Vec<(String, Json)>, key: &str) -> (r: usize)
    ensures
        r == spot(e.deep_view(), key@, 0),
        r <= e@.len(),
{
    let mut i: usize = 0;
    while i < e.len()
        invariant
            i <= e@.len(),
            spot(e.deep_view(), key@, 0) == spot(e.deep_view(), key@, i as int),
        decreases e@.len() - i,
    {
        assert(e.deep_view()[i as int] == (e@[i as int].0@, e@[i as int].1@));
        if text::same(e[i].0.as_str(), key) {
            return i;
        }
        i = i + 1;
    }
    i
}

fn has_keys(x: &Vec<(String, Json)>, y: &Vec<(String, Json)>) -> (r: bool)
    ensures
        r == holds_keys(x.deep_view(), y.deep_view()),
{
    let mut i: usize = 0;
    while i < y.len()
        invariant
            i <= y@.len(),
            forall|j: int|
                0 <= j < i ==> spot(x.deep_view(), (#[trigger] y.deep_view()[j]).0, 0) < x@.len(),
        decreases y@.len() - i,
    {
        assert(y.deep_view()[i as int] == (y@[i as int].0@, y@[i as int].1@));
        if spot_of(x, y[i].0.as_str()) == x.len() {
            return false;
        }
        i = i + 1;
    }
    true
}

pub proof fn lemma_spot(e: Seq<(Seq<char>, Doc)>, key: Seq<char>, i: int)
    requires
        0 <= i <= e.len(),
    ensures
        i <= spot(e, key, i) <= e.len(),
        spot(e, key, i) < e.len() ==> e[spot(e, key, i)].0 == key,
        forall|x: int| i <= x < spot(e, key, i) ==> e[x].0 != key,
    decreases e.len() - i,
{
    if i < e.len() && e[i].0 != key {
        lemma_spot(e, key, i + 1);
    }
}

/// Whether one object is another with the value at a place replaced.
spec fn replaced(a: Json, b: Json, at: Option<usize>, v: Json) -> bool {
    &&& a is Obj
    &&& b is Obj
    &&& at is Some
    &&& at->0 < a->Obj_0@.len()
    &&& b->Obj_0@ == a->Obj_0@.update(at->0 as int, (a->Obj_0@[at->0 as int].0, v))
}

impl Doc {
    pub open spec fn obj() -> Doc {
        Doc::Obj(Seq::empty())
    }

    /// This object with one more entry at its end.
    pub open spec fn with(self, key: Seq<char>, v: Doc) -> Doc {
        match self {
            Doc::Obj(e) => Doc::Obj(e.push((key, v))),
            _ => self,
        }
    }

    /// The value under `key`, where this is an object that has one.
    pub open spec fn get(self, key: Seq<char>) -> Option<Doc> {
        match self {
            Doc::Obj(e) => if spot(e, key, 0) < e.len() {
                Some(e[spot(e, key, 0)].1)
            } else {
                None
            },
            _ => None,
        }
    }

    /// This object with `v` under `key`: in place where the key is there, else at the end.
    pub open spec fn set(self, key: Seq<char>, v: Doc) -> Doc {
        match self {
            Doc::Obj(e) => if spot(e, key, 0) < e.len() {
                Doc::Obj(e.update(spot(e, key, 0), (key, v)))
            } else {
                Doc::Obj(e.push((key, v)))
            },
            _ => self,
        }
    }

    /// This object without the entry for `key`.
    pub open spec fn removed(self, key: Seq<char>) -> Doc {
        match self {
            Doc::Obj(e) => if spot(e, key, 0) < e.len() {
                Doc::Obj(e.remove(spot(e, key, 0)))
            } else {
                self
            },
            _ => self,
        }
    }

    /// The entries of an object, none for anything else.
    pub open spec fn entries(self) -> Seq<(Seq<char>, Doc)> {
        match self {
            Doc::Obj(e) => e,
            _ => Seq::empty(),
        }
    }

    /// The items of a list, none for anything else.
    pub open spec fn items(self) -> Seq<Doc> {
        match self {
            Doc::Arr(a) => a,
            _ => Seq::empty(),
        }
    }

    /// A number; booleans are none.
    pub open spec fn num(self) -> Option<Double> {
        match self {
            Doc::Int(i) => Some(Double::int_spec(i as int)),
            Doc::Float(f) => Some(f),
            _ => None,
        }
    }

    /// What reads as a number: numbers, booleans and numeric text.
    pub open spec fn to_float(self) -> Option<Double> {
        match self {
            Doc::Int(i) => Some(Double::int_spec(i as int)),
            Doc::Float(f) => Some(f),
            Doc::Bool(b) => Some(
                Double::int_spec(
                    if b {
                        1
                    } else {
                        0
                    },
                ),
            ),
            Doc::Str(s) => pyfmt::parse_float_spec(s),
            _ => None,
        }
    }

    /// Whether this counts as true: what is neither null, false, zero nor empty.
    pub open spec fn truthy(self) -> bool {
        match self {
            Doc::Null => false,
            Doc::Bool(b) => b,
            Doc::Int(i) => i != 0,
            Doc::Float(f) => !f.eq_spec(Double::zero_spec()),
            Doc::Str(s) => s.len() > 0,
            Doc::Arr(a) => a.len() > 0,
            Doc::Obj(o) => o.len() > 0,
        }
    }

    /// The number under `key`, 0 where it is missing or falsy.
    pub open spec fn float_or0(self, key: Seq<char>) -> Option<Double> {
        match self.get(key) {
            Some(v) => if v.truthy() {
                v.to_float()
            } else {
                Some(Double::zero_spec())
            },
            None => Some(Double::zero_spec()),
        }
    }

    /// The value as a whole number where it counts as one, booleans included.
    pub open spec fn counted(self) -> Option<int> {
        match self {
            Doc::Int(i) => Some(i as int),
            Doc::Bool(b) => Some(
                if b {
                    1
                } else {
                    0
                },
            ),
            _ => None,
        }
    }

    /// Equality in which 1, 1.0 and true are the same, at any depth.
    pub open spec fn py_eq(self, o: Doc) -> bool {
        alike(self, o)
    }

    /// A scalar as text; lists and objects as JSON.
    pub open spec fn py_str(self) -> Seq<char> {
        match self {
            Doc::Null => "None"@,
            Doc::Bool(b) => if b {
                "True"@
            } else {
                "False"@
            },
            Doc::Int(i) => text::dec_int(i as int),
            Doc::Float(f) => pyfmt::repr_spec(f),
            Doc::Str(s) => s,
            _ => written(self, None, Seq::empty()),
        }
    }

    /// The JSON text: on one line, or with every item on its own, `indent` spaces deeper
    /// than what holds it.
    pub open spec fn dumps(self, indent: Option<nat>) -> Seq<char> {
        written(
            self,
            match indent {
                Some(n) => Some(text::times(' ', n)),
                None => None,
            },
            Seq::empty(),
        )
    }

    /// The text, where this is one.
    pub open spec fn as_text(self) -> Option<Seq<char>> {
        match self {
            Doc::Str(s) => Some(s),
            _ => None,
        }
    }

    /// The integer, where this is one.
    pub open spec fn as_int(self) -> Option<i64> {
        match self {
            Doc::Int(i) => Some(i),
            _ => None,
        }
    }

    /// The boolean, where this is one.
    pub open spec fn as_flag(self) -> Option<bool> {
        match self {
            Doc::Bool(b) => Some(b),
            _ => None,
        }
    }

    /// Whether the value under `key` counts as true.
    pub open spec fn has_truthy(self, key: Seq<char>) -> bool {
        self.get(key) is Some && self.get(key)->0.truthy()
    }

    /// The value under `key`, null where there is none.
    pub open spec fn get_or_null(self, key: Seq<char>) -> Doc {
        match self.get(key) {
            Some(v) => v,
            None => Doc::Null,
        }
    }
}

/// Whether two values are equal: numbers and booleans by their exact value, lists item by
/// item, objects entry by entry in whatever order.
pub open spec fn alike(a: Doc, b: Doc) -> bool
    decreases a, 0nat,
{
    match (a, b) {
        (Doc::Null, Doc::Null) => true,
        (Doc::Str(x), Doc::Str(y)) => x == y,
        (Doc::Arr(x), Doc::Arr(y)) => x.len() == y.len() && alike_items(x, y, x.len()),
        (Doc::Obj(x), Doc::Obj(y)) => x.len() == y.len() && alike_entries(x, y, x.len())
            && holds_keys(x, y),
        (Doc::Float(x), Doc::Float(y)) => x.eq_spec(y),
        (Doc::Float(x), _) => b.counted() is Some && x.is_int(b.counted()->0),
        (_, Doc::Float(y)) => a.counted() is Some && y.is_int(a.counted()->0),
        _ => a.counted() is Some && a.counted() == b.counted(),
    }
}

/// Whether the first `n` items are the same.
pub open spec fn alike_items(x: Seq<Doc>, y: Seq<Doc>, n: nat) -> bool
    decreases x, n,
{
    n == 0 || n > x.len() || (alike_items(x, y, (n - 1) as nat) && alike(x[n - 1], y[n - 1]))
}

/// Whether every key of `y` is a key of `x`.
pub open spec fn holds_keys(x: Seq<(Seq<char>, Doc)>, y: Seq<(Seq<char>, Doc)>) -> bool {
    forall|j: int| 0 <= j < y.len() ==> spot(x, (#[trigger] y[j]).0, 0) < x.len()
}

/// Whether each of the first `n` entries of `x` has its equal in `y`.
pub open spec fn alike_entries(
    x: Seq<(Seq<char>, Doc)>,
    y: Seq<(Seq<char>, Doc)>,
    n: nat,
) -> bool
    decreases x, n,
{
    n == 0 || n > x.len() || (alike_entries(x, y, (n - 1) as nat) && spot(y, x[n - 1].0, 0)
        < y.len() && alike(x[n - 1].1, y[spot(y, x[n - 1].0, 0)].1))
}

// ------------------------------------------------------------------ text
/// The escape of one UTF-16 unit.
pub open spec fn unit_escape(u: nat) -> Seq<char> {
    "\\u"@ + text::hex(u, 4)
}

/// A character inside a JSON string, ASCII only.
pub open spec fn escaped_char(c: char) -> Seq<char> {
    let n = c as nat;
    if c == '"' {
        "\\\""@
    } else if c == '\\' {
        "\\\\"@
    } else if c == '\n' {
        "\\n"@
    } else if c == '\r' {
        "\\r"@
    } else if c == '\t' {
        "\\t"@
    } else if n == 8 {
        "\\b"@
    } else if n == 12 {
        "\\f"@
    } else if 0x20 <= n <= 0x7e {
        seq![c]
    } else if n < 0x1_0000 {
        unit_escape(n)
    } else {
        unit_escape((0xD800 + (n - 0x1_0000) / 0x400) as nat) + unit_escape(
            (0xDC00 + (n - 0x1_0000) % 0x400) as nat,
        )
    }
}

/// The opening quote and the first `n` characters of a JSON string.
pub open spec fn quoted_start(s: Seq<char>, n: nat) -> Seq<char>
    decreases n,
{
    if n == 0 {
        "\""@
    } else {
        quoted_start(s, (n - 1) as nat) + escaped_char(s[n - 1])
    }
}

/// A JSON string.
pub open spec fn quoted(s: Seq<char>) -> Seq<char> {
    quoted_start(s, s.len()) + "\""@
}

/// A number in JSON.
pub open spec fn float_json_spec(f: Double) -> Seq<char> {
    if f.nan() {
        "NaN"@
    } else if f.infinite() {
        if f.neg() {
            "-Infinity"@
        } else {
            "Infinity"@
        }
    } else {
        pyfmt::repr_spec(f)
    }
}

/// What stands in front of an item.
pub open spec fn before_item(step: Option<Seq<char>>, pad: Seq<char>, first: bool) -> Seq<char> {
    match step {
        Some(_) => (if first {
            "\n"@
        } else {
            ",\n"@
        }) + pad,
        None => if first {
            ""@
        } else {
            ", "@
        },
    }
}

/// What stands behind the last item.
pub open spec fn after_items(step: Option<Seq<char>>, pad: Seq<char>) -> Seq<char> {
    match step {
        Some(_) => "\n"@ + pad,
        None => ""@,
    }
}

/// The indentation one level deeper.
pub open spec fn deeper(step: Option<Seq<char>>, pad: Seq<char>) -> Seq<char> {
    match step {
        Some(s) => pad + s,
        None => pad,
    }
}

/// The JSON text of a value that stands at the indentation `pad`.
pub open spec fn written(d: Doc, step: Option<Seq<char>>, pad: Seq<char>) -> Seq<char>
    decreases d, 0nat,
{
    match d {
        Doc::Null => "null"@,
        Doc::Bool(b) => if b {
            "true"@
        } else {
            "false"@
        },
        Doc::Int(i) => text::dec_int(i as int),
        Doc::Float(f) => float_json_spec(f),
        Doc::Str(s) => quoted(s),
        Doc::Arr(a) => if a.len() == 0 {
            "[]"@
        } else {
            written_items(a, a.len(), step, deeper(step, pad)) + after_items(step, pad) + "]"@
        },
        Doc::Obj(o) => if o.len() == 0 {
            "{}"@
        } else {
            written_entries(o, o.len(), step, deeper(step, pad)) + after_items(step, pad) + "}"@
        },
    }
}

/// The opening bracket and the first `n` items.
pub open spec fn written_items(
    a: Seq<Doc>,
    n: nat,
    step: Option<Seq<char>>,
    pad: Seq<char>,
) -> Seq<char>
    decreases a, n,
{
    if n == 0 || n > a.len() {
        "["@
    } else {
        written_items(a, (n - 1) as nat, step, pad) + before_item(step, pad, n == 1) + written(
            a[n - 1],
            step,
            pad,
        )
    }
}

/// The opening brace and the first `n` entries.
pub open spec fn written_entries(
    o: Seq<(Seq<char>, Doc)>,
    n: nat,
    step: Option<Seq<char>>,
    pad: Seq<char>,
) -> Seq<char>
    decreases o, n,
{
    if n == 0 || n > o.len() {
        "{"@
    } else {
        written_entries(o, (n - 1) as nat, step, pad) + before_item(step, pad, n == 1) + quoted(
            o[n - 1].0,
        ) + ": "@ + written(o[n - 1].1, step, pad)
    }
}

/// A character inside a JSON string that keeps what needs no escape.
pub open spec fn bare_char(c: char) -> Seq<char> {
    if c as nat >= 0x20 && c != '"' && c != '\\' {
        seq![c]
    } else {
        escaped_char(c)
    }
}

/// The opening quote and the first `n` characters of such a string.
pub open spec fn bare_start(s: Seq<char>, n: nat) -> Seq<char>
    decreases n,
{
    if n == 0 {
        "\""@
    } else {
        bare_start(s, (n - 1) as nat) + bare_char(s[n - 1])
    }
}

/// The JSON text of a value without a space and with nothing escaped that needs no escape; what is
/// no number is null.
pub open spec fn compact(d: Doc) -> Seq<char>
    decreases d, 0nat,
{
    match d {
        Doc::Null => "null"@,
        Doc::Bool(b) => if b {
            "true"@
        } else {
            "false"@
        },
        Doc::Int(i) => text::dec_int(i as int),
        Doc::Float(f) => if f.finite() {
            pyfmt::compact_spec(f)
        } else {
            "null"@
        },
        Doc::Str(s) => bare_start(s, s.len()) + "\""@,
        Doc::Arr(a) => compact_items(a, a.len()) + "]"@,
        Doc::Obj(o) => compact_entries(o, o.len()) + "}"@,
    }
}

/// What stands between items.
pub open spec fn comma_before(n: nat) -> Seq<char> {
    if n == 1 {
        ""@
    } else {
        ","@
    }
}

/// The opening bracket and the first `n` items.
pub open spec fn compact_items(a: Seq<Doc>, n: nat) -> Seq<char>
    decreases a, n,
{
    if n == 0 || n > a.len() {
        "["@
    } else {
        compact_items(a, (n - 1) as nat) + comma_before(n) + compact(a[n - 1])
    }
}

/// The opening brace and the first `n` entries.
pub open spec fn compact_entries(o: Seq<(Seq<char>, Doc)>, n: nat) -> Seq<char>
    decreases o, n,
{
    if n == 0 || n > o.len() {
        "{"@
    } else {
        compact_entries(o, (n - 1) as nat) + comma_before(n) + (bare_start(
            o[n - 1].0,
            o[n - 1].0.len(),
        ) + "\""@) + ":"@ + compact(o[n - 1].1)
    }
}

fn push_unit(out: &mut String, u: u32)
    ensures
        final(out)@ == old(out)@ + unit_escape(u as nat),
{
    let ghost start = out@;
    out.push_str("\\u");
    out.push_str(text::hex_u32(u, 4).as_str());
    assert(out@ =~= start + unit_escape(u as nat));
}

/// Append one character of a JSON string.
pub fn push_escaped(out: &mut String, c: char)
    ensures
        final(out)@ == old(out)@ + escaped_char(c),
{
    let n: u32 = c as u32;
    if c == '"' {
        out.push_str("\\\"");
    } else if c == '\\' {
        out.push_str("\\\\");
    } else if c == '\n' {
        out.push_str("\\n");
    } else if c == '\r' {
        out.push_str("\\r");
    } else if c == '\t' {
        out.push_str("\\t");
    } else if n == 8 {
        out.push_str("\\b");
    } else if n == 12 {
        out.push_str("\\f");
    } else if 0x20 <= n && n <= 0x7e {
        let ghost start = out@;
        out.push(c);
        assert(out@ =~= start + seq![c]);
    } else if n < 0x1_0000 {
        push_unit(out, n);
    } else {
        let ghost start = out@;
        push_unit(out, 0xD800 + (n - 0x1_0000) / 0x400);
        push_unit(out, 0xDC00 + (n - 0x1_0000) % 0x400);
        assert(out@ =~= start + escaped_char(c));
    }
}

/// `s` as a JSON string.
pub fn quote(s: &str) -> (r: String)
    ensures
        r@ == quoted(s@),
{
    let v = text::chars_of(s);
    let mut r = text::owned("\"");
    let mut i: usize = 0;
    while i < v.len()
        invariant
            i <= v@.len(),
            v@ == s@,
            r@ == quoted_start(s@, i as nat),
        decreases v@.len() - i,
    {
        push_escaped(&mut r, v[i]);
        i = i + 1;
    }
    r.push_str("\"");
    r
}

/// Append `s` as a JSON string, ASCII only.
pub fn write_str(out: &mut String, s: &str)
    ensures
        final(out)@ == old(out)@ + quoted(s@),
{
    out.push_str(quote(s).as_str());
}

fn push_bare(out: &mut String, c: char)
    ensures
        final(out)@ == old(out)@ + bare_char(c),
{
    let n: u32 = c as u32;
    if n >= 0x20 && c != '"' && c != '\\' {
        let ghost start = out@;
        out.push(c);
        assert(out@ =~= start + seq![c]);
    } else {
        push_escaped(out, c);
    }
}

/// `s` as a JSON string that keeps what needs no escape.
fn bare_quote(s: &str) -> (r: String)
    ensures
        r@ == bare_start(s@, s@.len()) + "\""@,
{
    let v = text::chars_of(s);
    let mut r = text::owned("\"");
    let mut i: usize = 0;
    while i < v.len()
        invariant
            i <= v@.len(),
            v@ == s@,
            r@ == bare_start(s@, i as nat),
        decreases v@.len() - i,
    {
        push_bare(&mut r, v[i]);
        i = i + 1;
    }
    r.push_str("\"");
    r
}

pub fn float_json(f: Double) -> (r: String)
    ensures
        r@ == float_json_spec(f),
{
    if f.is_nan() {
        text::owned("NaN")
    } else if f.is_infinite() {
        if f.is_neg() {
            text::owned("-Infinity")
        } else {
            text::owned("Infinity")
        }
    } else {
        pyfmt::repr(f)
    }
}

spec fn opt_view(s: Option<String>) -> Option<Seq<char>> {
    match s {
        Some(x) => Some(x@),
        None => None,
    }
}

fn push_before(out: &mut String, step: &Option<String>, pad: &str, first: bool)
    ensures
        final(out)@ == old(out)@ + before_item(opt_view(*step), pad@, first),
{
    let ghost start = out@;
    if step.is_some() {
        if first {
            out.push_str("\n");
        } else {
            out.push_str(",\n");
        }
        out.push_str(pad);
        assert(out@ =~= start + before_item(opt_view(*step), pad@, first));
    } else if first {
        out.push_str("");
    } else {
        out.push_str(", ");
    }
}

fn push_after(out: &mut String, step: &Option<String>, pad: &str)
    ensures
        final(out)@ == old(out)@ + after_items(opt_view(*step), pad@),
{
    let ghost start = out@;
    if step.is_some() {
        out.push_str("\n");
        out.push_str(pad);
        assert(out@ =~= start + after_items(opt_view(*step), pad@));
    } else {
        out.push_str("");
    }
}

impl Json {
    /// An empty object.
    pub fn obj() -> (r: Json)
        ensures
            r@ == Doc::obj(),
    {
        let r = Json::Obj(Vec::new());
        assert(r@->Obj_0 =~= Seq::empty());
        r
    }

    /// A text.
    pub fn text(s: &str) -> (r: Json)
        ensures
            r@ == Doc::Str(s@),
    {
        Json::Str(text::owned(s))
    }

    /// A list.
    pub fn list(items: Vec<Json>) -> (r: Json)
        ensures
            r@ == Doc::Arr(docs(items@)),
    {
        let r = Json::Arr(items);
        assert(r@->Arr_0 =~= docs(items@));
        r
    }

    /// A copy of this value.
    pub fn copy(&self) -> (r: Json)
        ensures
            r@ == self@,
        decreases self,
    {
        match self {
            Json::Null => Json::Null,
            Json::Bool(b) => Json::Bool(*b),
            Json::Int(i) => Json::Int(*i),
            Json::Float(f) => Json::Float(*f),
            Json::Str(s) => Json::Str(s.clone()),
            Json::Arr(a) => {
                let mut v: Vec<Json> = Vec::new();
                let mut i: usize = 0;
                while i < a.len()
                    invariant
                        i <= a@.len(),
                        v@.len() == i,
                        self == Json::Arr(*a),
                        forall|x: int| 0 <= x < i ==> doc(v@[x]) == doc(a@[x]),
                    decreases a@.len() - i,
                {
                    assert(self@->Arr_0[i as int] == a@[i as int]@);
                    v.push(a[i].copy());
                    i = i + 1;
                }
                let r = Json::Arr(v);
                assert(r@->Arr_0 =~= self@->Arr_0);
                r
            },
            Json::Obj(o) => {
                let mut v: Vec<(String, Json)> = Vec::new();
                let mut i: usize = 0;
                while i < o.len()
                    invariant
                        i <= o@.len(),
                        v@.len() == i,
                        self == Json::Obj(*o),
                        forall|x: int|
                            0 <= x < i ==> v@[x].0@ == o@[x].0@ && doc(v@[x].1) == doc(o@[x].1),
                    decreases o@.len() - i,
                {
                    assert(self@->Obj_0[i as int] == (o@[i as int].0@, o@[i as int].1@));
                    v.push((o[i].0.clone(), o[i].1.copy()));
                    i = i + 1;
                }
                let r = Json::Obj(v);
                assert(r@->Obj_0 =~= self@->Obj_0);
                r
            },
        }
    }

    fn place(&self, key: &str) -> (r: Option<usize>)
        ensures
            match r {
                Some(i) => self is Obj && i == spot(self@->Obj_0, key@, 0) && i
                    < self->Obj_0@.len(),
                None => self is Obj ==> spot(self@->Obj_0, key@, 0) == self->Obj_0@.len(),
            },
    {
        match self {
            Json::Obj(e) => {
                let mut i: usize = 0;
                while i < e.len()
                    invariant
                        i <= e@.len(),
                        self == Json::Obj(*e),
                        spot(self@->Obj_0, key@, 0) == spot(self@->Obj_0, key@, i as int),
                    decreases e@.len() - i,
                {
                    assert(self@->Obj_0[i as int].0 == e@[i as int].0@);
                    if text::same(e[i].0.as_str(), key) {
                        return Some(i);
                    }
                    i = i + 1;
                }
                None
            },
            _ => None,
        }
    }

    /// The value under `key`; none for a missing key or for what is no object.
    pub fn get(&self, key: &str) -> (r: Option<&Json>)
        ensures
            match r {
                Some(v) => self@.get(key@) == Some(v@),
                None => self@.get(key@) is None,
            },
    {
        match self {
            Json::Obj(e) => match self.place(key) {
                Some(i) => {
                    assert(self@->Obj_0[i as int].1 == e@[i as int].1@);
                    Some(&e[i].1)
                },
                None => None,
            },
            _ => None,
        }
    }

    /// A copy of the value under `key`, null where there is none.
    pub fn get_copy(&self, key: &str) -> (r: Json)
        ensures
            r@ == self@.get_or_null(key@),
    {
        match self.get(key) {
            Some(v) => v.copy(),
            None => Json::Null,
        }
    }

    pub fn contains_key(&self, key: &str) -> (r: bool)
        ensures
            r == self@.get(key@) is Some,
    {
        self.get(key).is_some()
    }

    /// Whether the value under `key` counts as true.
    pub fn has_truthy(&self, key: &str) -> (r: bool)
        ensures
            r == self@.has_truthy(key@),
    {
        match self.get(key) {
            Some(v) => v.truthy(),
            None => false,
        }
    }

    /// The value under `key`, to be changed where it is.
    pub fn get_mut(&mut self, key: &str) -> (r: Option<&mut Json>)
        ensures
            match r {
                Some(v) => old(self)@.get(key@) == Some(v@) && final(self)@ == old(self)@.set(
                    key@,
                    final(v)@,
                ),
                None => old(self)@.get(key@) is None && final(self)@ == old(self)@,
            },
    {
        let at = self.place(key);
        let ghost before = *self;
        proof {
            if before is Obj {
                lemma_spot(before@->Obj_0, key@, 0);
                assert forall|w: Json, v: Json|
                    #![trigger doc(w), doc(v)]
                    replaced(before, w, at, v) implies w@ == before@.set(key@, v@) by {
                    assert(w@->Obj_0 =~= before@.set(key@, v@)->Obj_0);
                }
            }
        }
        match self {
            Json::Obj(e) => match at {
                Some(i) => {
                    assert(before@->Obj_0[i as int].1 == e@[i as int].1@);
                    Some(&mut e[i].1)
                },
                None => None,
            },
            _ => None,
        }
    }

    /// Put `v` under `key`: in place where the key is there, else at the end.
    pub fn set(&mut self, key: &str, v: Json)
        ensures
            final(self)@ == old(self)@.set(key@, v@),
    {
        let at = self.place(key);
        let ghost before = self@;
        let ghost value = v@;
        match self {
            Json::Obj(e) => match at {
                Some(i) => {
                    let name = e[i].0.clone();
                    e.set(i, (name, v));
                },
                None => {
                    e.push((text::owned(key), v));
                },
            },
            _ => {},
        }
        proof {
            if before is Obj {
                lemma_spot(before->Obj_0, key@, 0);
                assert(self@->Obj_0 =~= before.set(key@, value)->Obj_0);
            }
        }
    }

    /// Put an empty object under `key` where nothing is there.
    pub fn setdefault_obj(&mut self, key: &str)
        ensures
            final(self)@ == if old(self)@.get(key@) is Some {
                old(self)@
            } else {
                old(self)@.set(key@, Doc::obj())
            },
    {
        if !self.contains_key(key) {
            self.set(key, Json::obj());
        }
    }

    /// Take the entry for `key` out.
    pub fn remove(&mut self, key: &str) -> (r: Option<Json>)
        ensures
            final(self)@ == old(self)@.removed(key@),
            match r {
                Some(v) => old(self)@.get(key@) == Some(v@),
                None => old(self)@.get(key@) is None,
            },
    {
        let at = self.place(key);
        let ghost before = *self;
        let mut r: Option<Json> = None;
        match self {
            Json::Obj(e) => match at {
                Some(i) => {
                    assert(before@->Obj_0[i as int].1 == e@[i as int].1@);
                    let (_k, v) = e.remove(i);
                    r = Some(v);
                },
                None => {},
            },
            _ => {},
        }
        proof {
            if before is Obj {
                lemma_spot(before@->Obj_0, key@, 0);
                assert(self@->Obj_0 =~= before@.removed(key@)->Obj_0);
            }
        }
        r
    }

    /// This object with one more entry at its end.
    pub fn with(self, key: &str, v: Json) -> (r: Json)
        ensures
            r@ == self@.with(key@, v@),
    {
        match self {
            Json::Obj(e) => {
                let ghost before = self@;
                let ghost value = v@;
                let mut e = e;
                e.push((text::owned(key), v));
                let r = Json::Obj(e);
                assert(r@->Obj_0 =~= before.with(key@, value)->Obj_0);
                r
            },
            _ => self,
        }
    }

    pub fn is_null(&self) -> (r: bool)
        ensures
            r == (self@ is Null),
    {
        match self {
            Json::Null => true,
            _ => false,
        }
    }

    pub fn is_obj(&self) -> (r: bool)
        ensures
            r == (self@ is Obj),
    {
        match self {
            Json::Obj(_) => true,
            _ => false,
        }
    }

    pub fn is_num(&self) -> (r: bool)
        ensures
            r == (self@ is Int || self@ is Float),
    {
        match self {
            Json::Int(_) => true,
            Json::Float(_) => true,
            _ => false,
        }
    }

    /// The text, where this is one.
    pub fn as_str(&self) -> (r: Option<&str>)
        ensures
            match r {
                Some(s) => self@ == Doc::Str(s@),
                None => !(self@ is Str),
            },
    {
        match self {
            Json::Str(s) => Some(s.as_str()),
            _ => None,
        }
    }

    /// Whether this is the text `s`.
    pub fn is_text(&self, s: &str) -> (r: bool)
        ensures
            r == (self@ == Doc::Str(s@)),
    {
        match self {
            Json::Str(t) => text::same(t.as_str(), s),
            _ => false,
        }
    }

    /// A number; booleans are none.
    pub fn num(&self) -> (r: Option<Double>)
        ensures
            r == self@.num(),
    {
        match self {
            Json::Int(i) => Some(Double::of_int(*i)),
            Json::Float(f) => Some(*f),
            _ => None,
        }
    }

    /// What reads as a number: numbers, booleans and numeric text.
    pub fn to_float(&self) -> (r: Option<Double>)
        ensures
            r == self@.to_float(),
    {
        match self {
            Json::Int(i) => Some(Double::of_int(*i)),
            Json::Float(f) => Some(*f),
            Json::Bool(b) => Some(
                Double::of_int(
                    if *b {
                        1
                    } else {
                        0
                    },
                ),
            ),
            Json::Str(s) => pyfmt::parse_float(s.as_str()),
            _ => None,
        }
    }

    /// Whether this counts as true.
    pub fn truthy(&self) -> (r: bool)
        ensures
            r == self@.truthy(),
    {
        match self {
            Json::Null => false,
            Json::Bool(b) => *b,
            Json::Int(i) => *i != 0,
            Json::Float(f) => !f.same(Double::zero()),
            Json::Str(s) => !s.as_str().is_empty(),
            Json::Arr(a) => a.len() > 0,
            Json::Obj(o) => o.len() > 0,
        }
    }

    /// The number under `key`, 0 where it is missing or falsy.
    pub fn float_or0(&self, key: &str) -> (r: Option<Double>)
        ensures
            r == self@.float_or0(key@),
    {
        match self.get(key) {
            Some(v) => if v.truthy() {
                v.to_float()
            } else {
                Some(Double::zero())
            },
            None => Some(Double::zero()),
        }
    }

    fn counted(&self) -> (r: Option<i64>)
        ensures
            match r {
                Some(i) => self@.counted() == Some(i as int),
                None => self@.counted() is None,
            },
    {
        match self {
            Json::Int(i) => Some(*i),
            Json::Bool(b) => Some(
                if *b {
                    1
                } else {
                    0
                },
            ),
            _ => None,
        }
    }

    /// Equality in which 1, 1.0 and true are the same, at any depth.
    pub fn py_eq(&self, other: &Json) -> (r: bool)
        ensures
            r == self@.py_eq(other@),
        decreases self,
    {
        match (self, other) {
            (Json::Null, Json::Null) => true,
            (Json::Str(x), Json::Str(y)) => text::same(x.as_str(), y.as_str()),
            (Json::Arr(x), Json::Arr(y)) => {
                if x.len() != y.len() {
                    return false;
                }
                let mut i: usize = 0;
                let mut ok: bool = true;
                while i < x.len()
                    invariant
                        i <= x@.len(),
                        x@.len() == y@.len(),
                        self == Json::Arr(*x),
                        other == Json::Arr(*y),
                        ok == alike_items(self@->Arr_0, other@->Arr_0, i as nat),
                    decreases x@.len() - i,
                {
                    assert(self@->Arr_0[i as int] == x@[i as int]@);
                    assert(other@->Arr_0[i as int] == y@[i as int]@);
                    let same: bool = x[i].py_eq(&y[i]);
                    ok = ok && same;
                    i = i + 1;
                }
                ok
            },
            (Json::Obj(x), Json::Obj(y)) => {
                if x.len() != y.len() {
                    return false;
                }
                assert(x.deep_view() =~= self@->Obj_0);
                assert(y.deep_view() =~= other@->Obj_0);
                let mut i: usize = 0;
                let mut ok: bool = true;
                while i < x.len()
                    invariant
                        i <= x@.len(),
                        x@.len() == y@.len(),
                        self == Json::Obj(*x),
                        x.deep_view() == self@->Obj_0,
                        y.deep_view() == other@->Obj_0,
                        ok == alike_entries(self@->Obj_0, other@->Obj_0, i as nat),
                    decreases x@.len() - i,
                {
                    assert(self@->Obj_0[i as int] == (x@[i as int].0@, x@[i as int].1@));
                    let at: usize = spot_of(y, x[i].0.as_str());
                    if at < y.len() {
                        assert(other@->Obj_0[at as int] == (y@[at as int].0@, y@[at as int].1@));
                        let same: bool = x[i].1.py_eq(&y[at].1);
                        ok = ok && same;
                    } else {
                        ok = false;
                    }
                    i = i + 1;
                }
                ok && has_keys(x, y)
            },
            (Json::Float(x), Json::Float(y)) => x.same(*y),
            (Json::Float(x), _) => match other.counted() {
                Some(i) => x.equals_int(i),
                None => false,
            },
            (_, Json::Float(y)) => match self.counted() {
                Some(i) => y.equals_int(i),
                None => false,
            },
            _ => match (self.counted(), other.counted()) {
                (Some(a), Some(b)) => a == b,
                _ => false,
            },
        }
    }

    /// A scalar as text; lists and objects as JSON.
    pub fn py_str(&self) -> (r: String)
        ensures
            r@ == self@.py_str(),
    {
        match self {
            Json::Null => text::owned("None"),
            Json::Bool(b) => if *b {
                text::owned("True")
            } else {
                text::owned("False")
            },
            Json::Int(i) => text::dec_i64(*i),
            Json::Float(f) => pyfmt::repr(*f),
            Json::Str(s) => s.clone(),
            other => other.dumps(None),
        }
    }

    /// The JSON text, ASCII only: on one line, or with every item on its own, `indent`
    /// spaces deeper than what holds it.
    pub fn dumps(&self, indent: Option<usize>) -> (r: String)
        ensures
            r@ == self@.dumps(
                match indent {
                    Some(n) => Some(n as nat),
                    None => None,
                },
            ),
    {
        let step: Option<String> = match indent {
            Some(n) => Some(text::repeated(' ', n)),
            None => None,
        };
        let pad = String::new();
        self.write(&step, pad.as_str())
    }

    fn write(&self, step: &Option<String>, pad: &str) -> (r: String)
        ensures
            r@ == written(self@, opt_view(*step), pad@),
        decreases self,
    {
        match self {
            Json::Null => text::owned("null"),
            Json::Bool(b) => if *b {
                text::owned("true")
            } else {
                text::owned("false")
            },
            Json::Int(i) => text::dec_i64(*i),
            Json::Float(f) => float_json(*f),
            Json::Str(s) => quote(s.as_str()),
            Json::Arr(a) => {
                if a.len() == 0 {
                    return text::owned("[]");
                }
                let inner = match step {
                    Some(s) => text::cat(pad, s.as_str()),
                    None => text::owned(pad),
                };
                let mut r = text::owned("[");
                let mut i: usize = 0;
                while i < a.len()
                    invariant
                        i <= a@.len(),
                        self == Json::Arr(*a),
                        inner@ == deeper(opt_view(*step), pad@),
                        r@ == written_items(self@->Arr_0, i as nat, opt_view(*step), inner@),
                    decreases a@.len() - i,
                {
                    assert(self@->Arr_0[i as int] == a@[i as int]@);
                    push_before(&mut r, step, inner.as_str(), i == 0);
                    r.push_str(a[i].write(step, inner.as_str()).as_str());
                    i = i + 1;
                }
                push_after(&mut r, step, pad);
                r.push_str("]");
                r
            },
            Json::Obj(o) => {
                if o.len() == 0 {
                    return text::owned("{}");
                }
                let inner = match step {
                    Some(s) => text::cat(pad, s.as_str()),
                    None => text::owned(pad),
                };
                let mut r = text::owned("{");
                let mut i: usize = 0;
                while i < o.len()
                    invariant
                        i <= o@.len(),
                        self == Json::Obj(*o),
                        inner@ == deeper(opt_view(*step), pad@),
                        r@ == written_entries(self@->Obj_0, i as nat, opt_view(*step), inner@),
                    decreases o@.len() - i,
                {
                    assert(self@->Obj_0[i as int] == (o@[i as int].0@, o@[i as int].1@));
                    push_before(&mut r, step, inner.as_str(), i == 0);
                    r.push_str(quote(o[i].0.as_str()).as_str());
                    r.push_str(": ");
                    r.push_str(o[i].1.write(step, inner.as_str()).as_str());
                    i = i + 1;
                }
                push_after(&mut r, step, pad);
                r.push_str("}");
                r
            },
        }
    }
}

impl Json {
    /// The JSON text without a space and with nothing escaped that needs no escape; what is no
    /// number is null.
    pub fn compact(&self) -> (r: String)
        ensures
            r@ == compact(self@),
        decreases self,
    {
        match self {
            Json::Null => text::owned("null"),
            Json::Bool(b) => if *b {
                text::owned("true")
            } else {
                text::owned("false")
            },
            Json::Int(i) => text::dec_i64(*i),
            Json::Float(f) => if f.is_finite() {
                pyfmt::compact(*f)
            } else {
                text::owned("null")
            },
            Json::Str(s) => bare_quote(s.as_str()),
            Json::Arr(a) => {
                let mut r = text::owned("[");
                let mut i: usize = 0;
                while i < a.len()
                    invariant
                        i <= a@.len(),
                        self == Json::Arr(*a),
                        r@ == compact_items(self@->Arr_0, i as nat),
                    decreases a@.len() - i,
                {
                    assert(self@->Arr_0[i as int] == a@[i as int]@);
                    if i > 0 {
                        r.push_str(",");
                    } else {
                        r.push_str("");
                    }
                    r.push_str(a[i].compact().as_str());
                    i = i + 1;
                }
                r.push_str("]");
                r
            },
            Json::Obj(o) => {
                let mut r = text::owned("{");
                let mut i: usize = 0;
                while i < o.len()
                    invariant
                        i <= o@.len(),
                        self == Json::Obj(*o),
                        r@ == compact_entries(self@->Obj_0, i as nat),
                    decreases o@.len() - i,
                {
                    assert(self@->Obj_0[i as int] == (o@[i as int].0@, o@[i as int].1@));
                    if i > 0 {
                        r.push_str(",");
                    } else {
                        r.push_str("");
                    }
                    r.push_str(bare_quote(o[i].0.as_str()).as_str());
                    r.push_str(":");
                    r.push_str(o[i].1.compact().as_str());
                    i = i + 1;
                }
                r.push_str("}");
                r
            },
        }
    }
}

/// What reads as a number, 0 for anything else.
pub open spec fn float_or_zero(d: Option<Doc>) -> Double {
    match d {
        Some(v) => match v.to_float() {
            Some(f) => f,
            None => Double::zero_spec(),
        },
        None => Double::zero_spec(),
    }
}

/// What reads as a number, 0 for anything else.
pub fn read_or_zero(j: Option<&Json>) -> (r: Double)
    ensures
        r == float_or_zero(
            match j {
                Some(v) => Some(v@),
                None => None,
            },
        ),
{
    match j {
        Some(v) => match v.to_float() {
            Some(f) => f,
            None => Double::zero(),
        },
        None => Double::zero(),
    }
}

/// The value, an empty object where there is none.
pub open spec fn or_empty(d: Option<Doc>) -> Doc {
    match d {
        Some(v) => v,
        None => Doc::obj(),
    }
}

/// What an optional value holds.
pub open spec fn opt_doc(j: Option<&Json>) -> Option<Doc> {
    match j {
        Some(v) => Some(v@),
        None => None,
    }
}

/// What an optional value holds.
pub open spec fn opt_own(j: Option<Json>) -> Option<Doc> {
    match j {
        Some(v) => Some(v@),
        None => None,
    }
}

/// A text, or null.
pub open spec fn text_or_null(s: Option<Seq<char>>) -> Doc {
    match s {
        Some(t) => Doc::Str(t),
        None => Doc::Null,
    }
}

/// A number, or null.
pub open spec fn float_or_null(f: Option<Double>) -> Doc {
    match f {
        Some(x) => Doc::Float(x),
        None => Doc::Null,
    }
}

pub fn number_or_null(f: Option<Double>) -> (r: Json)
    ensures
        r@ == float_or_null(f),
{
    match f {
        Some(x) => Json::Float(x),
        None => Json::Null,
    }
}

/// A whole number, or null.
pub open spec fn int_or_null(i: Option<i64>) -> Doc {
    match i {
        Some(x) => Doc::Int(x),
        None => Doc::Null,
    }
}

pub fn whole_or_null(i: Option<i64>) -> (r: Json)
    ensures
        r@ == int_or_null(i),
{
    match i {
        Some(x) => Json::Int(x),
        None => Json::Null,
    }
}

/// The value under `key` as text where it is one.
pub open spec fn str_at(d: Doc, key: Seq<char>) -> Option<Seq<char>> {
    match d.get(key) {
        Some(Doc::Str(s)) => Some(s),
        _ => None,
    }
}

/// What the values of a list hold.
pub open spec fn docs(v: Seq<Json>) -> Seq<Doc> {
    Seq::new(v.len(), |i: int| v[i]@)
}

pub proof fn lemma_docs_push(v: Seq<Json>, j: Json)
    ensures
        docs(v.push(j)) == docs(v).push(j@),
{
    assert(docs(v.push(j)) =~= docs(v).push(j@));
}

/// The pairs as an object's entries.
pub open spec fn paired(s: Seq<(&str, Json)>) -> Seq<(Seq<char>, Doc)> {
    Seq::new(s.len(), |i: int| (s[i].0@, s[i].1@))
}

/// An object of keys and values, in their order.
pub fn obj(pairs: Vec<(&str, Json)>) -> (r: Json)
    ensures
        r@ == Doc::Obj(paired(pairs@)),
{
    let mut out: Vec<(String, Json)> = Vec::new();
    let mut i: usize = 0;
    while i < pairs.len()
        invariant
            i <= pairs@.len(),
            out@.len() == i,
            forall|k: int|
                0 <= k < i ==> (#[trigger] out@[k]).0@ == pairs@[k].0@ && out@[k].1@
                    == pairs@[k].1@,
        decreases pairs@.len() - i,
    {
        out.push((text::owned(pairs[i].0), pairs[i].1.copy()));
        i = i + 1;
    }
    let r = object(out);
    assert(r@->Obj_0 =~= paired(pairs@));
    r
}

/// What is put under a key is found there, and every other key keeps its value.
pub proof fn law_set_then_get(d: Doc, key: Seq<char>, v: Doc, other: Seq<char>)
    requires
        d is Obj,
    ensures
        d.set(key, v).get(key) == Some(v),
        other != key ==> d.set(key, v).get(other) == d.get(other),
{
    let e = d->Obj_0;
    let f = d.set(key, v)->Obj_0;
    lemma_spot(e, key, 0);
    lemma_spot(f, key, 0);
    lemma_spot(e, other, 0);
    lemma_spot(f, other, 0);
    let i = spot(e, key, 0);
    assert(f[i] == (key, v));
    if spot(f, key, 0) != i {
        assert(f[spot(f, key, 0)].0 == e[spot(f, key, 0)].0);
    }
    if other != key {
        let x = spot(e, other, 0);
        let y = spot(f, other, 0);
        if x < e.len() {
            assert(f[x].0 == other);
        }
        if y < f.len() {
            assert(y != i);
            assert(e[y] == f[y]);
        }
    }
}

/// Replacing a value keeps the order of the keys; a new key comes last.
pub proof fn law_set_keeps_order(d: Doc, key: Seq<char>, v: Doc, i: int)
    requires
        d is Obj,
        0 <= i < d->Obj_0.len(),
    ensures
        d.set(key, v) is Obj,
        d.set(key, v)->Obj_0[i].0 == d->Obj_0[i].0,
        d.get(key) is None ==> d.set(key, v)->Obj_0.last() == (key, v),
        d.set(key, v)->Obj_0.len() == d->Obj_0.len() + (if d.get(key) is None {
            1int
        } else {
            0
        }),
{
    lemma_spot(d->Obj_0, key, 0);
}

impl DeepView for Json {
    type V = Doc;

    open spec fn deep_view(&self) -> Doc {
        doc(*self)
    }
}

/// The entries of an object, none for anything else.
pub fn entries(j: &Json) -> (r: Vec<(String, Json)>)
    ensures
        r.deep_view() == j@.entries(),
{
    match j {
        Json::Obj(e) => {
            let r = e.dup();
            assert(r.deep_view() =~= j@.entries());
            r
        },
        _ => list::none(),
    }
}

/// The items of a list, none for anything else.
pub fn items(j: &Json) -> (r: Vec<Json>)
    ensures
        r.deep_view() == j@.items(),
{
    match j {
        Json::Arr(a) => {
            let r = a.dup();
            assert(r.deep_view() =~= j@.items());
            r
        },
        _ => list::none(),
    }
}

/// A list value.
pub fn array(v: Vec<Json>) -> (r: Json)
    ensures
        r@ == Doc::Arr(v.deep_view()),
{
    assert(v.deep_view() =~= docs(v@));
    Json::list(v)
}

/// An object of the given entries.
pub fn object(v: Vec<(String, Json)>) -> (r: Json)
    ensures
        r@ == Doc::Obj(v.deep_view()),
{
    let r = Json::Obj(v);
    assert(r@->Obj_0 =~= v.deep_view());
    r
}

/// The value under a key.
pub fn value_at<'a>(j: &'a Json, key: &str) -> (r: Option<&'a Json>)
    ensures
        r.deep_view() == j@.get(key@),
{
    j.get(key)
}

/// This object with a value under a key.
pub fn with_set(j: Json, key: &str, v: Json) -> (r: Json)
    ensures
        r@ == j@.set(key@, v@),
{
    let mut r = j;
    r.set(key, v);
    r
}

/// This object without a key.
pub fn without(j: Json, key: &str) -> (r: Json)
    ensures
        r@ == j@.removed(key@),
{
    let mut r = j;
    let _gone = r.remove(key);
    r
}

/// The value, null where there is none.
pub open spec fn doc_or_null(d: Option<Doc>) -> Doc {
    match d {
        Some(v) => v,
        None => Doc::Null,
    }
}

pub fn value_or_null(j: Option<&Json>) -> (r: Json)
    ensures
        r@ == doc_or_null(j.deep_view()),
{
    match j {
        Some(v) => v.copy(),
        None => Json::Null,
    }
}

pub fn string_or_null(s: Option<&str>) -> (r: Json)
    ensures
        r@ == text_or_null(s.deep_view()),
{
    match s {
        Some(t) => Json::text(t),
        None => Json::Null,
    }
}

/// A list of texts.
pub open spec fn texts(l: Seq<Seq<char>>) -> Doc {
    Doc::Arr(Seq::new(l.len(), |i: int| Doc::Str(l[i])))
}

pub fn text_array(l: &Vec<String>) -> (r: Json)
    ensures
        r@ == texts(l.deep_view()),
{
    let mut v: Vec<Json> = Vec::new();
    let mut i: usize = 0;
    while i < l.len()
        invariant
            i <= l@.len(),
            v@.len() == i,
            forall|x: int| 0 <= x < i ==> (#[trigger] v@[x])@ == Doc::Str(l@[x]@),
        decreases l@.len() - i,
    {
        v.push(Json::text(l[i].as_str()));
        i = i + 1;
    }
    assert(docs(v@) =~= texts(l.deep_view())->Arr_0);
    Json::list(v)
}

impl Json {
    pub fn is_arr(&self) -> (r: bool)
        ensures
            r == (self@ is Arr),
    {
        match self {
            Json::Arr(_) => true,
            _ => false,
        }
    }

    pub fn is_str(&self) -> (r: bool)
        ensures
            r == (self@ is Str),
    {
        match self {
            Json::Str(_) => true,
            _ => false,
        }
    }

    /// Whether this is the value true itself.
    pub fn is_true(&self) -> (r: bool)
        ensures
            r == (self@ == Doc::Bool(true)),
    {
        match self {
            Json::Bool(b) => *b,
            _ => false,
        }
    }

    pub fn is_int(&self) -> (r: bool)
        ensures
            r == (self@ is Int),
    {
        match self {
            Json::Int(_) => true,
            _ => false,
        }
    }

    /// The integer, where this is one.
    pub fn as_int(&self) -> (r: Option<i64>)
        ensures
            r == self@.as_int(),
    {
        match self {
            Json::Int(i) => Some(*i),
            _ => None,
        }
    }

    /// The boolean, where this is one.
    pub fn as_flag(&self) -> (r: Option<bool>)
        ensures
            r == self@.as_flag(),
    {
        match self {
            Json::Bool(b) => Some(*b),
            _ => None,
        }
    }

    pub fn is_bool(&self) -> (r: bool)
        ensures
            r == (self@ is Bool),
    {
        match self {
            Json::Bool(_) => true,
            _ => false,
        }
    }
}

/// Whether four hexadecimal digits stand at `i`.
pub open spec fn has_unit(b: Seq<char>, i: int) -> bool {
    i + 4 <= b.len() && ids::is_hex(b[i]) && ids::is_hex(b[i + 1]) && ids::is_hex(b[i + 2])
        && ids::is_hex(b[i + 3])
}

/// The number four hexadecimal digits spell.
pub open spec fn unit_at(b: Seq<char>, i: int) -> int {
    4096 * ids::hex_value(b[i]) + 256 * ids::hex_value(b[i + 1]) + 16 * ids::hex_value(b[i + 2])
        + ids::hex_value(b[i + 3])
}

/// The character a backslash and a letter stand for.
pub open spec fn short_escape(c: char) -> Option<char> {
    if c == '"' || c == '\\' || c == '/' {
        Some(c)
    } else if c == 'n' {
        Some('\n')
    } else if c == 'r' {
        Some('\r')
    } else if c == 't' {
        Some('\t')
    } else if c == 'b' {
        Some(8 as char)
    } else if c == 'f' {
        Some(12 as char)
    } else {
        None
    }
}

/// The first character that the inside of a JSON string spells, and how much of it does.
pub open spec fn first_spelled(b: Seq<char>) -> Option<(char, int)> {
    if b.len() == 0 || b[0] == '"' || (b[0] as u32) < 0x20 {
        None
    } else if b[0] != '\\' {
        Some((b[0], 1))
    } else if b.len() < 2 {
        None
    } else if b[1] != 'u' {
        match short_escape(b[1]) {
            Some(c) => Some((c, 2)),
            None => None,
        }
    } else if !has_unit(b, 2) {
        None
    } else if 0xD800 <= unit_at(b, 2) < 0xDC00 {
        if b.len() >= 8 && b[6] == '\\' && b[7] == 'u' && has_unit(b, 8) && 0xDC00 <= unit_at(b, 8)
            < 0xE000 {
            Some(
                (
                    (0x1_0000 + (unit_at(b, 2) - 0xD800) * 0x400 + (unit_at(b, 8) - 0xDC00)) as char,
                    12,
                ),
            )
        } else {
            None
        }
    } else if 0xDC00 <= unit_at(b, 2) < 0xE000 {
        None
    } else {
        Some((unit_at(b, 2) as char, 6))
    }
}

/// What the inside of a JSON string spells, where it spells a text.
pub open spec fn spelled(b: Seq<char>) -> Option<Seq<char>>
    decreases b.len(),
{
    if b.len() == 0 {
        Some(Seq::empty())
    } else {
        match first_spelled(b) {
            Some((c, n)) => if 0 < n <= b.len() {
                match spelled(b.skip(n)) {
                    Some(rest) => Some(seq![c] + rest),
                    None => None,
                }
            } else {
                None
            },
            None => None,
        }
    }
}

/// What a JSON string spells.
pub open spec fn unquoted(l: Seq<char>) -> Option<Seq<char>> {
    if l.len() >= 2 && l[0] == '"' && l.last() == '"' {
        spelled(l.subrange(1, l.len() - 1))
    } else {
        None
    }
}

proof fn lemma_unit(u: nat, before: Seq<char>, rest: Seq<char>)
    requires
        u < 0x1_0000,
    ensures
        unit_escape(u).len() == 6,
        unit_escape(u)[0] == '\\',
        unit_escape(u)[1] == 'u',
        has_unit(before + unit_escape(u) + rest, before.len() as int + 2),
        unit_at(before + unit_escape(u) + rest, before.len() as int + 2) == u,
{
    reveal_strlit("\\u");
    reveal_with_fuel(text::hex, 5);
    let h = text::hex(u, 4);
    let (a, b, c, d) = (u / 16 / 16 / 16 % 16, u / 16 / 16 % 16, u / 16 % 16, u % 16);
    assert(h =~= seq![
        text::hex_digit(a),
        text::hex_digit(b),
        text::hex_digit(c),
        text::hex_digit(d),
    ]);
    let all = before + unit_escape(u) + rest;
    let i = before.len() as int + 2;
    assert(all[i] == h[0] && all[i + 1] == h[1] && all[i + 2] == h[2] && all[i + 3] == h[3]);
    assert(4096 * a + 256 * b + 16 * c + d == u);
}

/// What a character is written as spells it.
proof fn lemma_spells(c: char, rest: Seq<char>)
    ensures
        first_spelled(escaped_char(c) + rest) == Some((c, escaped_char(c).len() as int)),
        escaped_char(c).len() > 0,
{
    reveal_strlit("\\\"");
    reveal_strlit("\\\\");
    reveal_strlit("\\n");
    reveal_strlit("\\r");
    reveal_strlit("\\t");
    reveal_strlit("\\b");
    reveal_strlit("\\f");
    let n = c as nat;
    let all = escaped_char(c) + rest;
    assert(forall|k: int| 0 <= k < escaped_char(c).len() ==> all[k] == escaped_char(c)[k]);
    let short = c == '"' || c == '\\' || c == '\n' || c == '\r' || c == '\t' || n == 8 || n == 12;
    if !short && !(0x20 <= n <= 0x7e) {
        let none = Seq::<char>::empty();
        if n < 0x1_0000 {
            lemma_unit(n, none, rest);
            assert(none + unit_escape(n) + rest =~= all);
        } else {
            let hi = (0xD800 + (n - 0x1_0000) / 0x400) as nat;
            let lo = (0xDC00 + (n - 0x1_0000) % 0x400) as nat;
            lemma_unit(hi, none, unit_escape(lo) + rest);
            lemma_unit(lo, unit_escape(hi), rest);
            assert(none + unit_escape(hi) + (unit_escape(lo) + rest) =~= all);
            assert(unit_escape(hi) + unit_escape(lo) + rest =~= all);
            assert(all[6] == unit_escape(lo)[0] && all[7] == unit_escape(lo)[1]);
        }
    }
}

/// The characters from `i` on, as a JSON string writes them.
pub open spec fn escapes(s: Seq<char>, i: int) -> Seq<char>
    decreases s.len() - i,
{
    if 0 <= i < s.len() {
        escaped_char(s[i]) + escapes(s, i + 1)
    } else {
        Seq::empty()
    }
}

proof fn lemma_quoted_from(s: Seq<char>, n: nat)
    requires
        n <= s.len(),
    ensures
        quoted_start(s, n) + escapes(s, n as int) == "\""@ + escapes(s, 0),
    decreases n,
{
    if n > 0 {
        lemma_quoted_from(s, (n - 1) as nat);
        let a = quoted_start(s, (n - 1) as nat);
        let b = escaped_char(s[n - 1]);
        let c = escapes(s, n as int);
        assert((a + b) + c =~= a + (b + c));
    }
}

proof fn lemma_escapes_spell(s: Seq<char>, i: int)
    requires
        0 <= i <= s.len(),
    ensures
        spelled(escapes(s, i)) == Some(s.skip(i)),
    decreases s.len() - i,
{
    if i < s.len() {
        lemma_escapes_spell(s, i + 1);
        let rest = escapes(s, i + 1);
        lemma_spells(s[i], rest);
        let e = escaped_char(s[i]);
        assert((e + rest).skip(e.len() as int) =~= rest);
        assert(seq![s[i]] + s.skip(i + 1) =~= s.skip(i));
    } else {
        assert(s.skip(i) =~= Seq::empty());
    }
}

/// A text written as a JSON string reads back as that text.
pub proof fn law_a_string_reads_back(s: Seq<char>)
    ensures
        unquoted(quoted(s)) == Some(s),
{
    reveal_strlit("\"");
    lemma_quoted_from(s, s.len());
    lemma_escapes_spell(s, 0);
    let e = escapes(s, 0);
    assert(quoted_start(s, s.len()) + escapes(s, s.len() as int) =~= quoted_start(s, s.len()));
    let q = quoted(s);
    assert(q =~= "\""@ + e + "\""@);
    assert(q[0] == '"' && q.last() == '"');
    assert(q.subrange(1, q.len() - 1) =~= e);
    assert(s.skip(0) =~= s);
}

} // verus!
