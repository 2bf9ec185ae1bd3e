//! What each venue accepts as a client order id, and how a journal id becomes one.
//!
//! A venue's id constraint is a contract, and breaking it fails in a misleading way: Binance
//! reports an over-long id with the same "illegal characters" error as a bad character, so an
//! id that quietly grew reads like a charset bug. Coercion happens before the signed request,
//! so a bad id fails here, loudly.
//!
//! * Binance (and the journal itself): `[a-zA-Z0-9_-]`, at most 36 characters.
//! * Gate: a `t-` prefix on the wire, then `[a-zA-Z0-9_.-]`, at most 28 characters.
//! * Revolut X: a UUID. A journal id is turned into a version 5 UUID, so the same intent
//!   always derives the same UUID and the venue's duplicate check still applies.
//!
//! Over-long ids keep a readable prefix and end in a 6-character SHA-1 tail, so they stay
//! unique and still grep back to the order they belong to.
use crate::list;
use crate::text;
use sha1::{Digest, Sha1};
use vstd::prelude::*;

verus! {

pub const CID_MAX: usize = 36;

pub const GATE_CID_MAX: usize = 28;

/// The fixed namespace for Revolut X client ids. Changing it would change every derived id,
/// and with it the venue's duplicate protection across a restart.
pub const REVX_NAMESPACE: [u8; 16] = [
    0x6b,
    0x84,
    0x65,
    0xf2,
    0x75,
    0x2a,
    0x56,
    0x8d,
    0xa9,
    0x81,
    0x77,
    0x42,
    0x91,
    0x77,
    0x75,
    0xd0,
];

/// Why an id was refused.
#[derive(Debug)]
pub struct IdError(pub String);

impl DeepView for IdError {
    type V = Seq<char>;

    open spec fn deep_view(&self) -> Seq<char> {
        self.0@
    }
}

/// The SHA-1 of some bytes.
pub uninterp spec fn sha1_of(data: Seq<u8>) -> Seq<u8>;

/// `sha1::Sha1::digest`: the SHA-1 of the bytes, which is 20 bytes long.
#[verifier::external_body]
fn digest_of(data: &Vec<u8>) -> (r: Vec<u8>)
    ensures
        r@ == sha1_of(data@),
        r@.len() == 20,
{
    Sha1::digest(data.as_slice()).to_vec()
}

/// The first `n` bytes in hexadecimal.
pub open spec fn hex_of(b: Seq<u8>, n: nat) -> Seq<char>
    decreases n,
{
    if n == 0 {
        Seq::empty()
    } else {
        hex_of(b, (n - 1) as nat) + text::hex(b[n - 1] as nat, 2)
    }
}

/// Bytes in hexadecimal, lower case.
pub fn hex(b: &Vec<u8>) -> (r: String)
    ensures
        r@ == hex_of(b@, b@.len()),
{
    let mut r = String::new();
    let mut i: usize = 0;
    while i < b.len()
        invariant
            i <= b@.len(),
            r@ == hex_of(b@, i as nat),
        decreases b@.len() - i,
    {
        r.push_str(text::hex_u32(b[i] as u32, 2).as_str());
        i = i + 1;
    }
    r
}

/// The UTF-8 of a text.
pub fn bytes_of(s: &str) -> (r: Vec<u8>)
    ensures
        r@ == vstd::utf8::encode_utf8(s@),
{
    let b = s.as_bytes();
    let mut r: Vec<u8> = Vec::new();
    let mut i: usize = 0;
    while i < b.len()
        invariant
            i <= b@.len(),
            r@ == b@.subrange(0, i as int),
        decreases b@.len() - i,
    {
        r.push(b[i]);
        i = i + 1;
        assert(r@ =~= b@.subrange(0, i as int));
    }
    assert(b@.subrange(0, b@.len() as int) =~= b@);
    r
}

/// Whether an id may hold a character, with or without a point among those.
pub open spec fn is_legal(c: char, dots: bool) -> bool {
    ||| 'a' <= c && c <= 'z'
    ||| 'A' <= c && c <= 'Z'
    ||| '0' <= c && c <= '9'
    ||| c == '_'
    ||| c == '-'
    ||| dots && c == '.'
}

fn legal(c: char, dots: bool) -> (r: bool)
    ensures
        r == is_legal(c, dots),
{
    ('a' <= c && c <= 'z') || ('A' <= c && c <= 'Z') || ('0' <= c && c <= '9') || c == '_' || c
        == '-' || (dots && c == '.')
}

/// Illegal characters become `-`.
pub open spec fn cleaned(raw: Seq<char>, dots: bool) -> Seq<char> {
    Seq::new(
        raw.len(),
        |i: int|
            if is_legal(raw[i], dots) {
                raw[i]
            } else {
                '-'
            },
    )
}

/// The first characters of the hexadecimal SHA-1 of a text.
pub open spec fn hash_tail(s: Seq<char>) -> Seq<char> {
    let d = sha1_of(vstd::utf8::encode_utf8(s));
    hex_of(d, d.len()).take(6)
}

/// What is over `max` characters keeps the first ones, and ends in `-` and a hash.
pub open spec fn shortened(s: Seq<char>, max: nat) -> Seq<char> {
    if s.len() > max {
        s.take(max - 7) + "-"@ + hash_tail(s)
    } else {
        s
    }
}

/// An id within a venue's rules.
pub open spec fn coerced(raw: Seq<char>, max: nat, dots: bool) -> Result<Seq<char>, Seq<char>> {
    if raw.len() == 0 {
        Err("a client order id cannot be empty"@)
    } else {
        Ok(shortened(cleaned(raw, dots), max))
    }
}

pub proof fn lemma_hex_len(b: Seq<u8>, n: nat)
    ensures
        hex_of(b, n).len() == 2 * n,
    decreases n,
{
    if n > 0 {
        lemma_hex_len(b, (n - 1) as nat);
        assert(text::hex(b[n - 1] as nat, 2).len() == 2) by {
            reveal_with_fuel(text::hex, 3);
        }
    }
}

proof fn lemma_hex_legal(b: Seq<u8>, n: nat)
    ensures
        forall|i: int| 0 <= i < hex_of(b, n).len() ==> is_low_hex(#[trigger] hex_of(b, n)[i]),
    decreases n,
{
    if n > 0 {
        lemma_hex_legal(b, (n - 1) as nat);
        let before = hex_of(b, (n - 1) as nat);
        let h = text::hex(b[n - 1] as nat, 2);
        reveal_with_fuel(text::hex, 3);
        assert(h =~= seq![
            text::hex_digit((b[n - 1] as nat / 16) % 16),
            text::hex_digit(b[n - 1] as nat % 16),
        ]);
        assert forall|i: int| 0 <= i < hex_of(b, n).len() implies is_low_hex(
            #[trigger] hex_of(b, n)[i],
        ) by {
            if i < before.len() {
                assert(hex_of(b, n)[i] == before[i]);
            } else {
                assert(hex_of(b, n)[i] == h[i - before.len()]);
            }
        }
    }
}

/// Whether an id is within a venue's rules.
pub open spec fn fits(c: Seq<char>, max: nat, dots: bool) -> bool {
    0 < c.len() <= max && forall|i: int| 0 <= i < c.len() ==> is_legal(#[trigger] c[i], dots)
}

/// Whether a character is a hexadecimal digit in lower case.
pub open spec fn is_low_hex(c: char) -> bool {
    ('0' <= c && c <= '9') || ('a' <= c && c <= 'f')
}

/// Whether an id is `max` characters long: those that an over-long one begins with, `-`, and
/// six hexadecimal digits.
pub open spec fn ends_in_a_hash(c: Seq<char>, long: Seq<char>, max: nat) -> bool {
    &&& c.len() == max
    &&& c.take(max - 7) == long.take(max - 7)
    &&& c[max - 7] == '-'
    &&& forall|i: int| max - 6 <= i < max ==> is_low_hex(#[trigger] c[i])
}

/// An id within a venue's rules is coerced to itself.
pub proof fn law_coercion_keeps_what_fits(c: Seq<char>, max: nat, dots: bool)
    requires
        fits(c, max, dots),
    ensures
        coerced(c, max, dots) == Ok::<Seq<char>, Seq<char>>(c),
{
    assert(cleaned(c, dots) =~= c);
}

fn coerce(raw: &str, max: usize, dots: bool) -> (r: Result<String, IdError>)
    requires
        max >= 7,
    ensures
        list::outcome(r) == coerced(raw@, max as nat, dots),
        r matches Ok(c) ==> fits(c@, max as nat, dots) && coerced(c@, max as nat, dots) == Ok::<
            Seq<char>,
            Seq<char>,
        >(c@),
        r is Err <==> raw@.len() == 0,
        r matches Ok(c) ==> raw@.len() <= max ==> c@ == cleaned(raw@, dots),
        r matches Ok(c) ==> raw@.len() > max ==> ends_in_a_hash(c@, cleaned(raw@, dots), max as nat),
{
    let v = text::chars_of(raw);
    let mut candidate = String::new();
    let mut i: usize = 0;
    while i < v.len()
        invariant
            i <= v@.len(),
            v@ == raw@,
            candidate@ == cleaned(raw@, dots).take(i as int),
        decreases v@.len() - i,
    {
        if legal(v[i], dots) {
            candidate.push(v[i]);
        } else {
            candidate.push('-');
        }
        i = i + 1;
        assert(candidate@ =~= cleaned(raw@, dots).take(i as int));
    }
    assert(cleaned(raw@, dots).take(raw@.len() as int) =~= cleaned(raw@, dots));
    if v.len() == 0 {
        return Err(IdError(text::owned("a client order id cannot be empty")));
    }
    if v.len() > max {
        let d = digest_of(&bytes_of(candidate.as_str()));
        proof {
            lemma_hex_len(d@, d@.len());
            lemma_hex_legal(d@, d@.len());
            reveal_strlit("-");
        }
        let mut r = text::head(candidate.as_str(), max - 7);
        r.push_str("-");
        r.push_str(text::head(hex(&d).as_str(), 6).as_str());
        proof {
            assert(r@.take(max - 7) =~= candidate@.take(max - 7));
            law_coercion_keeps_what_fits(r@, max as nat, dots);
        }
        Ok(r)
    } else {
        proof {
            law_coercion_keeps_what_fits(candidate@, max as nat, dots);
        }
        Ok(candidate)
    }
}

/// A journal id the strictest venue accepts: illegal characters become `-`, an id over 36
/// characters keeps 29 of them plus `-` and a hash. Coercing the result changes nothing.
pub fn safe_cid(raw: &str) -> (r: Result<String, IdError>)
    ensures
        list::outcome(r) == coerced(raw@, CID_MAX as nat, false),
        r matches Ok(c) ==> fits(c@, CID_MAX as nat, false) && coerced(
            c@,
            CID_MAX as nat,
            false,
        ) == Ok::<Seq<char>, Seq<char>>(c@),
        r is Err <==> raw@.len() == 0,
        r matches Ok(c) ==> raw@.len() <= CID_MAX ==> c@ == cleaned(raw@, false),
        r matches Ok(c) ==> raw@.len() > CID_MAX ==> ends_in_a_hash(
            c@,
            cleaned(raw@, false),
            CID_MAX as nat,
        ),
{
    coerce(raw, CID_MAX, false)
}

/// An id without the prefix Gate wants on the wire.
pub open spec fn bare(raw: Seq<char>) -> Seq<char> {
    if text::begins(raw, "t-"@) {
        raw.skip(2)
    } else {
        raw
    }
}

/// An id without the prefix Gate wants on the wire.
pub fn without_prefix(raw: &str) -> (r: String)
    ensures
        r@ == bare(raw@),
{
    if text::begins_with(raw, "t-") {
        let v = text::chars_of(raw);
        proof {
            reveal_strlit("t-");
            assert(v@.subrange(2, v@.len() as int) =~= raw@.skip(2));
        }
        text::slice_of(&v, 2, v.len())
    } else {
        text::owned(raw)
    }
}

/// An id without any prefix it begins with: `t` and `-`, or `t` and a character that becomes
/// `-`, as often as it stands there.
pub open spec fn shed(raw: Seq<char>) -> Seq<char>
    decreases raw.len(),
{
    if raw.len() >= 2 && raw[0] == 't' && (raw[1] == '-' || !is_legal(raw[1], true)) {
        shed(raw.skip(2))
    } else {
        raw
    }
}

/// The part of Gate's `text` field after its prefix.
pub open spec fn gate_coerced(raw: Seq<char>) -> Result<Seq<char>, Seq<char>> {
    coerced(shed(raw), GATE_CID_MAX as nat, true)
}

fn shedded(raw: &str) -> (r: String)
    ensures
        r@ == shed(raw@),
        r@.len() >= 2 && r@[0] == 't' ==> r@[1] != '-' && is_legal(r@[1], true),
{
    let v = text::chars_of(raw);
    let mut i: usize = 0;
    assert(v@.skip(0) =~= v@);
    while v.len() - i >= 2 && v[i] == 't' && (v[i + 1] == '-' || !legal(v[i + 1], true))
        invariant
            i <= v@.len(),
            shed(v@) == shed(v@.skip(i as int)),
        decreases v@.len() - i,
    {
        assert(v@.skip(i as int).skip(2) =~= v@.skip(i + 2));
        i = i + 2;
    }
    assert(v@.subrange(i as int, v@.len() as int) =~= v@.skip(i as int));
    text::slice_of(&v, i, v.len())
}

/// The part of Gate's `text` field after its mandatory `t-`. A leading `t-` is tolerated, so
/// coercing twice changes nothing.
pub fn gate_cid(raw: &str) -> (r: Result<String, IdError>)
    ensures
        list::outcome(r) == gate_coerced(raw@),
        r is Err <==> shed(raw@).len() == 0,
        r matches Ok(c) ==> fits(c@, GATE_CID_MAX as nat, true) && gate_coerced(c@) == Ok::<
            Seq<char>,
            Seq<char>,
        >(c@),
        r matches Ok(c) ==> shed(raw@).len() > GATE_CID_MAX ==> ends_in_a_hash(
            c@,
            cleaned(shed(raw@), true),
            GATE_CID_MAX as nat,
        ),
{
    let t = shedded(raw);
    let r = coerce(t.as_str(), GATE_CID_MAX, true);
    proof {
        if let Ok(ref c) = r {
            assert(c@[0] == cleaned(t@, true)[0]);
            if c@.len() >= 2 {
                assert(c@[1] == cleaned(t@, true)[1]);
            }
            assert(shed(c@) == c@);
        }
    }
    r
}

/// Gate's `text` field.
pub open spec fn gate_text(raw: Seq<char>) -> Result<Seq<char>, Seq<char>> {
    match gate_coerced(raw) {
        Ok(c) => Ok("t-"@ + c),
        Err(e) => Err(e),
    }
}

/// Gate's `text` field as sent: `t-` plus [`gate_cid`]. Coercing the result changes nothing.
pub fn safe_gate_text(raw: &str) -> (r: Result<String, IdError>)
    ensures
        list::outcome(r) == gate_text(raw@),
        r matches Ok(t) ==> gate_text(t@) == Ok::<Seq<char>, Seq<char>>(t@),
        r matches Ok(t) ==> Ok::<Seq<char>, Seq<char>>(bare(t@)) == gate_coerced(raw@),
{
    match gate_cid(raw) {
        Ok(c) => {
            let t = text::cat("t-", c.as_str());
            proof {
                reveal_strlit("t-");
                assert(t@[0] == 't' && t@[1] == '-');
                assert(t@.subrange(0, 2) =~= "t-"@);
                assert(t@.skip(2) =~= c@);
            }
            Ok(t)
        },
        Err(e) => Err(e),
    }
}

// ------------------------------------------------------------------ UUIDs
/// The version 5 UUID of a name.
pub open spec fn uuid5_of(namespace: Seq<u8>, name: Seq<char>) -> Seq<u8> {
    let d = sha1_of(namespace + vstd::utf8::encode_utf8(name));
    d.take(16).update(6, (d[6] & 0x0f) | 0x50).update(8, (d[8] & 0x3f) | 0x80)
}

/// Version 5 UUID: SHA-1 of namespace and name, with the version and variant bits set.
pub fn uuid5(namespace: &[u8; 16], name: &str) -> (r: [u8; 16])
    ensures
        r@ == uuid5_of(namespace@, name@),
        r@[6] >> 4u8 == 5,
        r@[8] >> 6u8 == 2,
{
    let mut data: Vec<u8> = Vec::new();
    let mut i: usize = 0;
    while i < 16
        invariant
            i <= 16,
            data@ == namespace@.subrange(0, i as int),
        decreases 16 - i,
    {
        data.push(namespace[i]);
        i = i + 1;
        assert(data@ =~= namespace@.subrange(0, i as int));
    }
    assert(data@ =~= namespace@);
    let mut rest = bytes_of(name);
    data.append(&mut rest);
    let d = digest_of(&data);
    let a: u8 = d[6];
    let b: u8 = d[8];
    assert(((a & 0x0f) | 0x50) >> 4u8 == 5) by (bit_vector);
    assert(((b & 0x3f) | 0x80) >> 6u8 == 2) by (bit_vector);
    let r: [u8; 16] = [
        d[0],
        d[1],
        d[2],
        d[3],
        d[4],
        d[5],
        (a & 0x0f) | 0x50,
        d[7],
        (b & 0x3f) | 0x80,
        d[9],
        d[10],
        d[11],
        d[12],
        d[13],
        d[14],
        d[15],
    ];
    assert(r@ =~= uuid5_of(namespace@, name@));
    r
}

/// The usual form of a UUID: hexadecimal digits in groups of 8, 4, 4, 4 and 12.
pub open spec fn uuid_text(u: Seq<u8>) -> Seq<char> {
    let h = hex_of(u, 16);
    h.subrange(0, 8) + "-"@ + h.subrange(8, 12) + "-"@ + h.subrange(12, 16) + "-"@ + h.subrange(
        16,
        20,
    ) + "-"@ + h.subrange(20, 32)
}

/// The usual form of a UUID.
pub fn fmt_uuid(u: [u8; 16]) -> (r: String)
    ensures
        r@ == uuid_text(u@),
{
    let mut b: Vec<u8> = Vec::new();
    let mut i: usize = 0;
    while i < 16
        invariant
            i <= 16,
            b@ == u@.subrange(0, i as int),
        decreases 16 - i,
    {
        b.push(u[i]);
        i = i + 1;
        assert(b@ =~= u@.subrange(0, i as int));
    }
    assert(b@ =~= u@);
    let h = text::chars_of(hex(&b).as_str());
    proof {
        lemma_hex_len(u@, 16);
    }
    let mut r = text::slice_of(&h, 0, 8);
    r.push_str("-");
    r.push_str(text::slice_of(&h, 8, 12).as_str());
    r.push_str("-");
    r.push_str(text::slice_of(&h, 12, 16).as_str());
    r.push_str("-");
    r.push_str(text::slice_of(&h, 16, 20).as_str());
    r.push_str("-");
    r.push_str(text::slice_of(&h, 20, 32).as_str());
    r
}

/// A text without what it holds of `t`, from the left.
pub open spec fn cut_out(s: Seq<char>, t: Seq<char>) -> Seq<char>
    decreases s.len(),
{
    if s.len() == 0 || t.len() == 0 {
        s
    } else if text::begins(s, t) {
        cut_out(s.skip(t.len() as int), t)
    } else {
        seq![s[0]] + cut_out(s.skip(1), t)
    }
}

/// A text without the braces at its start.
pub open spec fn unbraced_start(s: Seq<char>) -> Seq<char>
    decreases s.len(),
{
    if s.len() > 0 && (s[0] == '{' || s[0] == '}') {
        unbraced_start(s.skip(1))
    } else {
        s
    }
}

/// A text without the braces at its end.
pub open spec fn unbraced_end(s: Seq<char>) -> Seq<char>
    decreases s.len(),
{
    if s.len() > 0 && (s.last() == '{' || s.last() == '}') {
        unbraced_end(s.drop_last())
    } else {
        s
    }
}

/// The 32 characters a UUID's digits stand in.
pub open spec fn uuid_core(raw: Seq<char>) -> Seq<char> {
    text::without(
        unbraced_end(unbraced_start(cut_out(cut_out(raw, "urn:"@), "uuid:"@))),
        '-',
    )
}

/// A numeral without white space around it and without a plus sign.
pub open spec fn unsigned(s: Seq<char>) -> Seq<char> {
    let t = text::trim(s);
    if t.len() > 0 && t[0] == '+' {
        t.skip(1)
    } else {
        t
    }
}

/// Whether a character is a hexadecimal digit.
pub open spec fn is_hex(c: char) -> bool {
    ('0' <= c && c <= '9') || ('a' <= c && c <= 'f') || ('A' <= c && c <= 'F')
}

/// The value of a hexadecimal digit.
pub open spec fn hex_value(c: char) -> int {
    if '0' <= c && c <= '9' {
        c as int - 48
    } else if 'a' <= c && c <= 'f' {
        c as int - 87
    } else {
        c as int - 55
    }
}

/// The digits of a numeral, where it is one: hexadecimal digits, with single underscores
/// between them.
pub open spec fn hex_numeral(d: Seq<char>) -> Option<Seq<char>> {
    let c = text::without(d, '_');
    if d.len() == 0 || text::begins(d, "_"@) || text::ends(d, "_"@) || text::holds(d, "__"@) {
        None
    } else if c.len() > 0 && forall|i: int| 0 <= i < c.len() ==> is_hex(#[trigger] c[i]) {
        Some(c)
    } else {
        None
    }
}

/// The digit that is `i`th of 32, with zeros in front of those that are there.
pub open spec fn padded_digit(c: Seq<char>, i: int) -> int {
    if i < 32 - c.len() {
        0
    } else {
        hex_value(c[i - (32 - c.len())])
    }
}

/// The bytes of up to 32 hexadecimal digits, the highest first.
pub open spec fn uuid_bytes(c: Seq<char>) -> Seq<u8> {
    Seq::new(
        16,
        |i: int| (16 * padded_digit(c, 2 * i) + padded_digit(c, 2 * i + 1)) as u8,
    )
}

/// The UUID a text spells.
pub open spec fn uuid_of(raw: Seq<char>) -> Option<Seq<u8>> {
    let s = uuid_core(raw);
    if s.len() != 32 {
        None
    } else {
        match hex_numeral(unsigned(s)) {
            Some(c) => Some(uuid_bytes(c)),
            None => None,
        }
    }
}

fn without_part(v: &Vec<char>, t: &Vec<char>, i: usize) -> (r: String)
    requires
        i <= v@.len(),
        t@.len() > 0,
    ensures
        r@ == cut_out(v@.skip(i as int), t@),
    decreases v@.len() - i,
{
    let ghost s = v@.skip(i as int);
    let n: usize = v.len();
    if i >= v.len() {
        assert(s =~= Seq::empty());
        let r = String::new();
        return r;
    }
    if text::standing_at(v, i, t) {
        assert(s.subrange(0, t@.len() as int) =~= v@.subrange(i as int, i + t@.len()));
        assert(text::begins(s, t@));
        assert(s.skip(t@.len() as int) =~= v@.skip(i + t@.len()));
        without_part(v, t, i + t.len())
    } else {
        proof {
            if text::begins(s, t@) {
                assert(v@.subrange(i as int, i + t@.len()) =~= s.subrange(0, t@.len() as int));
            }
        }
        assert(s.skip(1) =~= v@.skip(i + 1));
        let rest = without_part(v, t, i + 1);
        let mut r = String::new();
        r.push(v[i]);
        r.push_str(rest.as_str());
        assert(r@ =~= seq![s[0]] + rest@);
        r
    }
}

fn unbraced(s: &str) -> (r: String)
    ensures
        r@ == unbraced_end(unbraced_start(s@)),
{
    let v = text::chars_of(s);
    let mut a: usize = 0;
    assert(v@.skip(0) =~= v@);
    while a < v.len() && (v[a] == '{' || v[a] == '}')
        invariant
            a <= v@.len(),
            unbraced_start(v@) == unbraced_start(v@.skip(a as int)),
        decreases v@.len() - a,
    {
        assert(v@.skip(a as int).skip(1) =~= v@.skip(a + 1));
        a = a + 1;
    }
    let ghost w = v@.skip(a as int);
    assert(unbraced_start(v@) == w);
    let mut b: usize = v.len();
    assert(v@.subrange(a as int, b as int) =~= w);
    while b > a && (v[b - 1] == '{' || v[b - 1] == '}')
        invariant
            a <= b <= v@.len(),
            unbraced_end(w) == unbraced_end(v@.subrange(a as int, b as int)),
        decreases b,
    {
        assert(v@.subrange(a as int, b as int).drop_last() =~= v@.subrange(a as int, b - 1));
        b = b - 1;
    }
    text::slice_of(&v, a, b)
}

fn value_of_digit(c: char) -> (r: u8)
    requires
        is_hex(c),
    ensures
        r == hex_value(c),
        r < 16,
{
    if '0' <= c && c <= '9' {
        (c as u32 - 48) as u8
    } else if 'a' <= c && c <= 'f' {
        (c as u32 - 87) as u8
    } else {
        (c as u32 - 55) as u8
    }
}

fn all_hex(v: &Vec<char>) -> (r: bool)
    ensures
        r == forall|i: int| 0 <= i < v@.len() ==> is_hex(#[trigger] v@[i]),
{
    let mut i: usize = 0;
    while i < v.len()
        invariant
            i <= v@.len(),
            forall|x: int| 0 <= x < i ==> is_hex(#[trigger] v@[x]),
        decreases v@.len() - i,
    {
        let c = v[i];
        if !(('0' <= c && c <= '9') || ('a' <= c && c <= 'f') || ('A' <= c && c <= 'F')) {
            assert(!is_hex(v@[i as int]));
            return false;
        }
        i = i + 1;
    }
    true
}

fn read_hex_numeral(d: &str) -> (r: Option<Vec<char>>)
    ensures
        match r {
            Some(c) => hex_numeral(d@) == Some(c@),
            None => hex_numeral(d@) is None,
        },
{
    let n: usize = text::chars_of(d).len();
    if n == 0 || text::begins_with(d, "_") || text::ends_with(d, "_") || text::contains(d, "__") {
        return None;
    }
    let c = text::chars_of(text::removed(d, '_').as_str());
    if c.len() > 0 && all_hex(&c) {
        Some(c)
    } else {
        None
    }
}

fn digit_at(c: &Vec<char>, i: usize) -> (r: u8)
    requires
        i < 32,
        c@.len() <= 32,
        forall|i: int| 0 <= i < c@.len() ==> is_hex(#[trigger] c@[i]),
    ensures
        r == padded_digit(c@, i as int),
        r < 16,
{
    if i < 32 - c.len() {
        0
    } else {
        value_of_digit(c[i - (32 - c.len())])
    }
}

fn byte_at(c: &Vec<char>, i: usize) -> (r: u8)
    requires
        i < 16,
        c@.len() <= 32,
        forall|i: int| 0 <= i < c@.len() ==> is_hex(#[trigger] c@[i]),
    ensures
        r == uuid_bytes(c@)[i as int],
{
    16 * digit_at(c, 2 * i) + digit_at(c, 2 * i + 1)
}

proof fn lemma_without_len(s: Seq<char>, c: char)
    ensures
        text::without(s, c).len() <= s.len(),
    decreases s.len(),
{
    if s.len() > 0 {
        lemma_without_len(s.drop_last(), c);
    }
}

proof fn lemma_trim_len(s: Seq<char>)
    ensures
        text::trim(s).len() <= s.len(),
{
    lemma_trim_start_len(s);
    lemma_trim_end_len(text::trim_start(s));
}

proof fn lemma_trim_start_len(s: Seq<char>)
    ensures
        text::trim_start(s).len() <= s.len(),
    decreases s.len(),
{
    if s.len() > 0 && text::is_space(s[0]) {
        lemma_trim_start_len(s.skip(1));
    }
}

proof fn lemma_trim_end_len(s: Seq<char>)
    ensures
        text::trim_end(s).len() <= s.len(),
    decreases s.len(),
{
    if s.len() > 0 && text::is_space(s.last()) {
        lemma_trim_end_len(s.drop_last());
    }
}

/// Parse a UUID the permissive way: `urn:` and `uuid:` are dropped, braces stripped from the
/// ends, every hyphen removed, and the 32 characters left are read as a base-16 integer (which
/// also tolerates surrounding whitespace, a plus sign and single underscores between digits).
/// Anything else is not a UUID.
pub fn parse_uuid(raw: &str) -> (r: Option<[u8; 16]>)
    ensures
        match r {
            Some(u) => uuid_of(raw@) == Some(u@),
            None => uuid_of(raw@) is None,
        },
{
    let v = text::chars_of(raw);
    proof {
        reveal_strlit("urn:");
        reveal_strlit("uuid:");
        assert(v@.skip(0) =~= v@);
    }
    let a = text::chars_of(without_part(&v, &text::chars_of("urn:"), 0).as_str());
    assert(a@.skip(0) =~= a@);
    let b = without_part(&a, &text::chars_of("uuid:"), 0);
    let s = text::removed(unbraced(b.as_str()).as_str(), '-');
    let core = text::chars_of(s.as_str());
    if core.len() != 32 {
        return None;
    }
    let t = text::trimmed(s.as_str());
    let w = text::chars_of(t.as_str());
    let d = if w.len() > 0 && w[0] == '+' {
        assert(w@.subrange(1, w@.len() as int) =~= w@.skip(1));
        text::slice_of(&w, 1, w.len())
    } else {
        t
    };
    match read_hex_numeral(d.as_str()) {
        Some(c) => {
            proof {
                lemma_trim_len(s@);
                lemma_without_len(d@, '_');
            }
            let r: [u8; 16] = [
                byte_at(&c, 0),
                byte_at(&c, 1),
                byte_at(&c, 2),
                byte_at(&c, 3),
                byte_at(&c, 4),
                byte_at(&c, 5),
                byte_at(&c, 6),
                byte_at(&c, 7),
                byte_at(&c, 8),
                byte_at(&c, 9),
                byte_at(&c, 10),
                byte_at(&c, 11),
                byte_at(&c, 12),
                byte_at(&c, 13),
                byte_at(&c, 14),
                byte_at(&c, 15),
            ];
            assert(r@ =~= uuid_bytes(c@));
            Some(r)
        },
        None => None,
    }
}

/// A Revolut X client id.
pub open spec fn revx_cid(raw: Seq<char>) -> Result<Seq<char>, Seq<char>> {
    match uuid_of(raw) {
        Some(u) => Ok(uuid_text(u)),
        None => if raw.len() == 0 {
            Err("a client order id cannot be empty"@)
        } else {
            Ok(uuid_text(uuid5_of(REVX_NAMESPACE@, raw)))
        },
    }
}

/// A Revolut X client id: a UUID passes through in canonical lowercase form, anything else
/// becomes the version 5 UUID of it, so the same journal id always maps to the same UUID.
/// Coercing the result changes nothing.
pub fn safe_revx_cid(raw: &str) -> (r: Result<String, IdError>)
    ensures
        list::outcome(r) == revx_cid(raw@),
        r matches Ok(c) ==> revx_cid(c@) == Ok::<Seq<char>, Seq<char>>(c@),
{
    match parse_uuid(raw) {
        Some(u) => {
            proof {
                law_a_uuid_reads_back(u@);
            }
            Ok(fmt_uuid(u))
        },
        None => {
            if text::chars_of(raw).len() == 0 {
                Err(IdError(text::owned("a client order id cannot be empty")))
            } else {
                let u = uuid5(&REVX_NAMESPACE, raw);
                proof {
                    law_a_uuid_reads_back(u@);
                }
                Ok(fmt_uuid(u))
            }
        },
    }
}

// ------------------------------------------------------------------ laws
proof fn lemma_cut_nothing(s: Seq<char>, t: Seq<char>)
    requires
        forall|i: int| 0 <= i < s.len() ==> s[i] != ':',
        t.len() > 0,
        t.last() == ':',
    ensures
        cut_out(s, t) == s,
    decreases s.len(),
{
    if s.len() > 0 {
        if text::begins(s, t) {
            assert(s.subrange(0, t.len() as int)[t.len() - 1] == s[t.len() - 1]);
        }
        lemma_cut_nothing(s.skip(1), t);
        assert(seq![s[0]] + s.skip(1) =~= s);
    }
}

proof fn lemma_without_nothing(s: Seq<char>, c: char)
    requires
        forall|i: int| 0 <= i < s.len() ==> s[i] != c,
    ensures
        text::without(s, c) == s,
    decreases s.len(),
{
    if s.len() > 0 {
        lemma_without_nothing(s.drop_last(), c);
        assert(s.drop_last().push(s.last()) =~= s);
    }
}

proof fn lemma_without_both(a: Seq<char>, b: Seq<char>, c: char)
    ensures
        text::without(a + b, c) == text::without(a, c) + text::without(b, c),
    decreases b.len(),
{
    if b.len() == 0 {
        assert(a + b =~= a);
        assert(text::without(a, c) + text::without(b, c) =~= text::without(a, c));
    } else {
        lemma_without_both(a, b.drop_last(), c);
        assert((a + b).drop_last() =~= a + b.drop_last());
        assert((a + b).last() == b.last());
        assert(text::without(a + b, c) =~= text::without(a, c) + text::without(b, c));
    }
}

proof fn lemma_hex_digits(u: Seq<u8>, n: nat, i: int)
    requires
        0 <= i < n <= u.len(),
    ensures
        hex_of(u, n).len() == 2 * n,
        hex_of(u, n)[2 * i] == text::hex_digit(u[i] as nat / 16),
        hex_of(u, n)[2 * i + 1] == text::hex_digit(u[i] as nat % 16),
    decreases n,
{
    lemma_hex_len(u, n);
    lemma_hex_len(u, (n - 1) as nat);
    let h = text::hex(u[n - 1] as nat, 2);
    reveal_with_fuel(text::hex, 3);
    assert((u[n - 1] as nat / 16) % 16 == u[n - 1] as nat / 16);
    assert(h =~= seq![
        text::hex_digit(u[n - 1] as nat / 16),
        text::hex_digit(u[n - 1] as nat % 16),
    ]);
    if i < n - 1 {
        lemma_hex_digits(u, (n - 1) as nat, i);
        assert(hex_of(u, n)[2 * i] == hex_of(u, (n - 1) as nat)[2 * i]);
        assert(hex_of(u, n)[2 * i + 1] == hex_of(u, (n - 1) as nat)[2 * i + 1]);
    } else {
        assert(hex_of(u, n)[2 * i] == h[0]);
        assert(hex_of(u, n)[2 * i + 1] == h[1]);
    }
}

proof fn lemma_all_low_hex(u: Seq<u8>, i: int)
    requires
        u.len() == 16,
        0 <= i < 32,
    ensures
        hex_of(u, 16).len() == 32,
        is_low_hex(hex_of(u, 16)[i]),
{
    lemma_hex_digits(u, 16, i / 2);
    if i % 2 == 0 {
        assert(2 * (i / 2) == i);
    } else {
        assert(2 * (i / 2) + 1 == i);
    }
}

/// The usual form of a UUID reads back as that UUID.
pub proof fn law_a_uuid_reads_back(u: Seq<u8>)
    requires
        u.len() == 16,
    ensures
        uuid_of(uuid_text(u)) == Some(u),
{
    let h = hex_of(u, 16);
    lemma_hex_len(u, 16);
    assert forall|i: int| 0 <= i < 32 implies is_low_hex(#[trigger] h[i]) by {
        lemma_all_low_hex(u, i);
    }
    let t = uuid_text(u);
    reveal_strlit("-");
    reveal_strlit("urn:");
    reveal_strlit("uuid:");
    let p1 = h.subrange(0, 8);
    let p2 = h.subrange(8, 12);
    let p3 = h.subrange(12, 16);
    let p4 = h.subrange(16, 20);
    let p5 = h.subrange(20, 32);
    assert forall|i: int| 0 <= i < t.len() implies is_low_hex(#[trigger] t[i]) || t[i] == '-' by {}
    lemma_cut_nothing(t, "urn:"@);
    lemma_cut_nothing(t, "uuid:"@);
    assert(is_low_hex(t[0])) by {
        assert(t[0] == h[0]);
    }
    assert(is_low_hex(t[t.len() - 1])) by {
        assert(t[t.len() - 1] == h[31]);
    }
    assert(unbraced_start(t) == t);
    assert(unbraced_end(t) == t);
    let d = "-"@;
    assert(text::without(d, '-') =~= Seq::empty()) by {
        reveal_with_fuel(text::without, 2);
        assert(d.drop_last() =~= Seq::empty());
    }
    assert forall|i: int| 0 <= i < 32 implies (#[trigger] h[i]) != '-' by {
        assert(is_low_hex(h[i]));
    }
    let e = '-';
    lemma_without_both(p1 + d + p2 + d + p3 + d + p4 + d, p5, e);
    lemma_without_both(p1 + d + p2 + d + p3 + d + p4, d, e);
    lemma_without_both(p1 + d + p2 + d + p3 + d, p4, e);
    lemma_without_both(p1 + d + p2 + d + p3, d, e);
    lemma_without_both(p1 + d + p2 + d, p3, e);
    lemma_without_both(p1 + d + p2, d, e);
    lemma_without_both(p1 + d, p2, e);
    lemma_without_both(p1, d, e);
    lemma_without_nothing(p1, e);
    lemma_without_nothing(p2, e);
    lemma_without_nothing(p3, e);
    lemma_without_nothing(p4, e);
    lemma_without_nothing(p5, e);
    assert(text::without(t, e) =~= h);
    assert(uuid_core(t) == h);
    assert(is_low_hex(h[0]) && is_low_hex(h[31]));
    assert(text::trim_start(h) == h);
    assert(text::trim(h) == h);
    assert(unsigned(h) == h);
    reveal_strlit("_");
    reveal_strlit("__");
    if text::begins(h, "_"@) {
        assert(h.subrange(0, 1)[0] == h[0]);
    }
    if text::ends(h, "_"@) {
        assert(h.subrange(31, 32)[0] == h[31]);
    }
    if text::holds(h, "__"@) {
        let k = choose|i: int| text::stands_at(h, i, "__"@);
        assert(h.subrange(k, k + 2)[0] == h[k]);
        assert(is_low_hex(h[k]));
    }
    lemma_without_nothing(h, '_');
    assert forall|i: int| 0 <= i < h.len() implies is_hex(#[trigger] h[i]) by {
        assert(is_low_hex(h[i]));
    }
    assert(hex_numeral(h) == Some(h));
    assert forall|i: int| 0 <= i < 16 implies uuid_bytes(h)[i] == #[trigger] u[i] by {
        lemma_hex_digits(u, 16, i);
        let b = u[i] as nat;
        assert(padded_digit(h, 2 * i) == b / 16);
        assert(padded_digit(h, 2 * i + 1) == b % 16);
        assert(16 * (b / 16) + b % 16 == b);
    }
    assert(uuid_bytes(h) =~= u);
}

/// Without the two characters that `urn:` begins with side by side, nothing is cut out for it.
proof fn lemma_no_urn(s: Seq<char>)
    requires
        forall|i: int| 0 <= i < s.len() - 1 ==> !(#[trigger] s[i] == 'u' && s[i + 1] == 'r'),
    ensures
        cut_out(s, "urn:"@) == s,
    decreases s.len(),
{
    reveal_strlit("urn:");
    if s.len() > 0 {
        if text::begins(s, "urn:"@) {
            assert(s.subrange(0, 4)[0] == s[0] && s.subrange(0, 4)[1] == s[1]);
        }
        assert forall|i: int| 0 <= i < s.skip(1).len() - 1 implies !(#[trigger] s.skip(1)[i] == 'u'
            && s.skip(1)[i + 1] == 'r') by {
            assert(s[i + 1] == s.skip(1)[i]);
        }
        lemma_no_urn(s.skip(1));
        assert(seq![s[0]] + s.skip(1) =~= s);
    }
}

/// Whether a text is hexadecimal digits, with hyphens anywhere among them.
pub open spec fn is_hyphenated(t: Seq<char>) -> bool {
    forall|i: int| 0 <= i < t.len() ==> is_hex(#[trigger] t[i]) || t[i] == '-'
}

proof fn lemma_without_keeps(t: Seq<char>, i: int)
    requires
        is_hyphenated(t),
        0 <= i < text::without(t, '-').len(),
    ensures
        is_hex(text::without(t, '-')[i]),
    decreases t.len(),
{
    if t.len() > 0 {
        let d = t.drop_last();
        assert(t.last() == t[t.len() - 1]);
        assert forall|k: int| 0 <= k < d.len() implies is_hex(#[trigger] d[k]) || d[k] == '-' by {
            assert(d[k] == t[k]);
        }
        if i < text::without(d, '-').len() {
            lemma_without_keeps(d, i);
        }
    }
}

/// What is read from the digits once the dressing is off.
proof fn lemma_reads_digits(raw: Seq<char>, h: Seq<char>, u: Seq<u8>)
    requires
        uuid_core(raw) == h,
        h.len() == 32,
        forall|i: int| 0 <= i < 32 ==> is_hex(#[trigger] h[i]),
        u.len() == 16,
        forall|i: int|
            0 <= i < 16 ==> #[trigger] u[i] == 16 * hex_value(h[2 * i]) + hex_value(h[2 * i + 1]),
    ensures
        uuid_of(raw) == Some(u),
{
    reveal_strlit("_");
    reveal_strlit("__");
    assert(is_hex(h[0]) && is_hex(h[31]));
    assert(h.last() == h[31]);
    assert(text::trim_start(h) == h);
    assert(text::trim(h) == h);
    assert(unsigned(h) == h);
    if text::begins(h, "_"@) {
        assert(h.subrange(0, 1)[0] == h[0]);
    }
    if text::ends(h, "_"@) {
        assert(h.subrange(31, 32)[0] == h[31]);
    }
    assert(!text::holds(h, "__"@)) by {
        if text::holds(h, "__"@) {
            let k = choose|k: int| text::stands_at(h, k, "__"@);
            assert(h.subrange(k, k + 2)[0] == h[k]);
            assert(is_hex(h[k]));
        }
    }
    assert forall|i: int| 0 <= i < h.len() implies (#[trigger] h[i]) != '_' by {
        assert(is_hex(h[i]));
    }
    lemma_without_nothing(h, '_');
    assert(hex_numeral(h) == Some(h));
    assert forall|i: int| 0 <= i < 16 implies uuid_bytes(h)[i] == u[i] by {
        assert(is_hex(h[2 * i]) && is_hex(h[2 * i + 1]));
        assert(u[i] == 16 * hex_value(h[2 * i]) + hex_value(h[2 * i + 1]));
    }
    assert(uuid_bytes(h) =~= u);
}

/// Every form of a UUID reads as that UUID: its 32 digits in small letters, capitals or both,
/// with or without hyphens, as they are, in braces, or as a `urn:uuid:`.
pub proof fn law_every_form_of_a_uuid_reads_back(t: Seq<char>, u: Seq<u8>)
    requires
        is_hyphenated(t),
        text::without(t, '-').len() == 32,
        u.len() == 16,
        forall|i: int|
            0 <= i < 16 ==> #[trigger] u[i] == 16 * hex_value(text::without(t, '-')[2 * i])
                + hex_value(text::without(t, '-')[2 * i + 1]),
    ensures
        uuid_of(t) == Some(u),
        uuid_of(seq!['{'] + t + seq!['}']) == Some(u),
        uuid_of("urn:uuid:"@ + t) == Some(u),
{
    let h = text::without(t, '-');
    assert forall|i: int| 0 <= i < 32 implies is_hex(#[trigger] h[i]) by {
        lemma_without_keeps(t, i);
    }
    reveal_strlit("urn:");
    reveal_strlit("uuid:");
    reveal_strlit("urn:uuid:");
    assert(t.len() > 0);
    assert forall|i: int| 0 <= i < t.len() implies (#[trigger] t[i]) != ':' && t[i] != '{' && t[i]
        != '}' && t[i] != 'u' by {
        assert(is_hex(t[i]) || t[i] == '-');
    }
    assert(t.last() == t[t.len() - 1]);
    assert(unbraced_start(t) == t);
    assert(unbraced_end(t) == t);
    lemma_cut_nothing(t, "urn:"@);
    lemma_cut_nothing(t, "uuid:"@);
    assert(uuid_core(t) == h);
    lemma_reads_digits(t, h, u);

    let b = seq!['{'] + t + seq!['}'];
    assert forall|i: int| 0 <= i < b.len() implies b[i] != ':' by {
        if 0 < i < b.len() - 1 {
            assert(b[i] == t[i - 1]);
        }
    }
    lemma_cut_nothing(b, "urn:"@);
    lemma_cut_nothing(b, "uuid:"@);
    let c = t + seq!['}'];
    assert(b.skip(1) =~= c);
    assert(b[0] == '{');
    assert(c[0] == t[0]);
    assert(unbraced_start(c) == c);
    assert(unbraced_start(b) == c);
    assert(c.last() == '}');
    assert(c.drop_last() =~= t);
    assert(unbraced_end(c) == unbraced_end(t));
    assert(uuid_core(b) == h);
    lemma_reads_digits(b, h, u);

    let r = "urn:uuid:"@ + t;
    let v = "uuid:"@ + t;
    assert(r.subrange(0, 4) =~= "urn:"@);
    assert(r.skip(4) =~= v);
    assert(cut_out(r, "urn:"@) == cut_out(v, "urn:"@));
    assert forall|i: int| 0 <= i < v.len() - 1 implies !(#[trigger] v[i] == 'u' && v[i + 1] == 'r') by {
        if i >= 5 {
            assert(v[i] == t[i - 5]);
        }
    }
    lemma_no_urn(v);
    assert(v.subrange(0, 5) =~= "uuid:"@);
    assert(v.skip(5) =~= t);
    assert(cut_out(v, "uuid:"@) == t);
    assert(uuid_core(r) == h);
    lemma_reads_digits(r, h, u);
}

} // verus!
