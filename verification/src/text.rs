//! Text as sequences of characters.
use crate::big::Big;
use vstd::prelude::*;

verus! {

/// `str == str` compares the characters.
pub assume_specification[ <str as PartialEq>::eq ](a: &str, b: &str) -> (r: bool)
    ensures
        r == (a@ == b@),
;

/// `String::push` appends one character.
pub assume_specification[ String::push ](s: &mut String, c: char)
    ensures
        final(s)@ == old(s)@.push(c),
;

/// `String::push_str` appends the characters of another string.
pub assume_specification[ String::push_str ](s: &mut String, t: &str)
    ensures
        final(s)@ == old(s)@ + t@,
;

/// Whether a text holds ASCII characters alone.
pub open spec fn ascii_only(s: Seq<char>) -> bool {
    forall|i: int| 0 <= i < s.len() ==> (#[trigger] s[i]) as u32 <= 127
}

/// What `str::to_uppercase` makes of a text with a character beyond ASCII.
pub uninterp spec fn unicode_upper(s: Seq<char>) -> Seq<char>;

/// A text in capitals.
pub open spec fn upper_case(s: Seq<char>) -> Seq<char> {
    if ascii_only(s) {
        ascii_upper(s)
    } else {
        unicode_upper(s)
    }
}

/// `str::to_uppercase`: in an ASCII text each small letter becomes its capital and nothing else
/// changes; of any other text the result is named [`unicode_upper`].
#[verifier::external_body]
pub(crate) fn uppercase(s: &str) -> (r: String)
    ensures
        r@ == if ascii_only(s@) {
            ascii_upper(s@)
        } else {
            unicode_upper(s@)
        },
{
    s.to_uppercase()
}

/// What `str::to_lowercase` makes of a text with a character beyond ASCII.
pub uninterp spec fn unicode_lower(s: Seq<char>) -> Seq<char>;

/// A text in small letters.
pub open spec fn lower_case(s: Seq<char>) -> Seq<char> {
    if ascii_only(s) {
        ascii_lower(s)
    } else {
        unicode_lower(s)
    }
}

/// `str::to_lowercase`: in an ASCII text each capital becomes its small letter and nothing else
/// changes; of any other text the result is named [`unicode_lower`].
#[verifier::external_body]
pub(crate) fn lowercase(s: &str) -> (r: String)
    ensures
        r@ == if ascii_only(s@) {
            ascii_lower(s@)
        } else {
            unicode_lower(s@)
        },
{
    s.to_lowercase()
}

/// Whether two strings hold the same characters.
pub fn same(a: &str, b: &str) -> (r: bool)
    ensures
        r == (a@ == b@),
{
    a.eq(b)
}

/// The characters of `s`.
pub fn chars_of(s: &str) -> (r: Vec<char>)
    ensures
        r@ == s@,
{
    let mut r: Vec<char> = Vec::new();
    for c in it: s.chars()
        invariant
            r@ == s@.take(it.index()),
            it.seq() == s@,
    {
        r.push(c);
    }
    r
}

/// The text of the characters `from .. to` of `v`.
pub fn slice_of(v: &Vec<char>, from: usize, to: usize) -> (r: String)
    requires
        from <= to <= v@.len(),
    ensures
        r@ == v@.subrange(from as int, to as int),
{
    let mut r = String::new();
    let mut i: usize = from;
    while i < to
        invariant
            from <= i <= to <= v@.len(),
            r@ == v@.subrange(from as int, i as int),
        decreases to - i,
    {
        r.push(v[i]);
        assert(v@.subrange(from as int, i + 1) =~= v@.subrange(from as int, i as int).push(
            v@[i as int],
        ));
        i = i + 1;
    }
    r
}

/// The text of the characters of `v`.
pub fn text_of(v: &Vec<char>) -> (r: String)
    ensures
        r@ == v@,
{
    assert(v@.subrange(0, v@.len() as int) =~= v@);
    slice_of(v, 0, v.len())
}

/// A copy of a text.
pub fn owned(s: &str) -> (r: String)
    ensures
        r@ == s@,
{
    s.to_owned()
}

/// `a` followed by `b`.
pub fn cat(a: &str, b: &str) -> (r: String)
    ensures
        r@ == a@ + b@,
{
    let mut r = a.to_owned();
    r.push_str(b);
    r
}

// ------------------------------------------------------------------ numerals
/// The decimal digit `d`.
pub open spec fn digit(d: nat) -> char {
    (48 + d) as char
}

/// The decimal numeral of `n`, without leading zeros.
pub open spec fn dec(n: nat) -> Seq<char>
    decreases n,
{
    if n < 10 {
        seq![digit(n)]
    } else {
        dec(n / 10).push(digit(n % 10))
    }
}

/// The last `w` decimal digits of `n`.
pub open spec fn digits(n: nat, w: nat) -> Seq<char>
    decreases w,
{
    if w == 0 {
        Seq::empty()
    } else {
        digits(n / 10, (w - 1) as nat).push(digit(n % 10))
    }
}

/// The decimal numeral of `i`, with a minus sign below zero.
pub open spec fn dec_int(i: int) -> Seq<char> {
    if i < 0 {
        seq!['-'] + dec((-i) as nat)
    } else {
        dec(i as nat)
    }
}

pub fn digit_char(d: u32) -> (c: char)
    requires
        d < 10,
    ensures
        c == digit(d as nat),
{
    (48 + d as u8) as char
}

/// The decimal numeral of `n`.
pub fn dec_big(n: &Big) -> (r: String)
    ensures
        r@ == dec(n@),
    decreases n@,
{
    let ten = Big::of(10);
    let (q, d) = n.divide_small(10);
    if n.less(&ten) {
        let mut r = String::new();
        r.push(digit_char(d));
        assert(r@ =~= seq![digit(n@)]);
        r
    } else {
        let mut r = dec_big(&q);
        r.push(digit_char(d));
        r
    }
}

/// The last `w` decimal digits of `n`.
pub fn digits_big(n: &Big, w: usize) -> (r: String)
    ensures
        r@ == digits(n@, w as nat),
    decreases w,
{
    if w == 0 {
        String::new()
    } else {
        let (q, d) = n.divide_small(10);
        let mut r = digits_big(&q, w - 1);
        r.push(digit_char(d));
        r
    }
}

/// The decimal numeral of `n`.
pub fn dec_u64(n: u64) -> (r: String)
    ensures
        r@ == dec(n as nat),
    decreases n,
{
    if n < 10 {
        let mut r = String::new();
        r.push(digit_char(n as u32));
        assert(r@ =~= seq![digit(n as nat)]);
        r
    } else {
        let mut r = dec_u64(n / 10);
        r.push(digit_char((n % 10) as u32));
        r
    }
}

/// The decimal numeral of `i`.
pub fn dec_i64(i: i64) -> (r: String)
    ensures
        r@ == dec_int(i as int),
{
    if i < 0 {
        let m: u64 = (-(i as i128)) as u64;
        let mut r = String::new();
        r.push('-');
        assert(r@ =~= seq!['-']);
        let d = dec_u64(m);
        r.push_str(d.as_str());
        r
    } else {
        dec_u64(i as u64)
    }
}

/// The last `w` decimal digits of `n`.
pub fn digits_u64(n: u64, w: u32) -> (r: String)
    ensures
        r@ == digits(n as nat, w as nat),
    decreases w,
{
    if w == 0 {
        String::new()
    } else {
        let mut r = digits_u64(n / 10, w - 1);
        r.push(digit_char((n % 10) as u32));
        r
    }
}

/// The hexadecimal digit `d` in lower case.
pub open spec fn hex_digit(d: nat) -> char {
    if d < 10 {
        digit(d)
    } else {
        (87 + d) as char
    }
}

/// The last `w` hexadecimal digits of `n` in lower case.
pub open spec fn hex(n: nat, w: nat) -> Seq<char>
    decreases w,
{
    if w == 0 {
        Seq::empty()
    } else {
        hex(n / 16, (w - 1) as nat).push(hex_digit(n % 16))
    }
}

pub fn hex_char(d: u32) -> (c: char)
    requires
        d < 16,
    ensures
        c == hex_digit(d as nat),
{
    if d < 10 {
        digit_char(d)
    } else {
        (87 + d as u8) as char
    }
}

/// The last `w` hexadecimal digits of `n` in lower case.
pub fn hex_u32(n: u32, w: u32) -> (r: String)
    ensures
        r@ == hex(n as nat, w as nat),
    decreases w,
{
    if w == 0 {
        String::new()
    } else {
        let mut r = hex_u32(n / 16, w - 1);
        r.push(hex_char(n % 16));
        r
    }
}

// ------------------------------------------------------------------ classes of characters
/// Unicode white space.
pub open spec fn is_space(c: char) -> bool {
    let n = c as u32;
    ||| 9 <= n <= 13
    ||| n == 0x20
    ||| n == 0x85
    ||| n == 0xA0
    ||| n == 0x1680
    ||| 0x2000 <= n <= 0x200A
    ||| n == 0x2028
    ||| n == 0x2029
    ||| n == 0x202F
    ||| n == 0x205F
    ||| n == 0x3000
}

pub fn space(c: char) -> (r: bool)
    ensures
        r == is_space(c),
{
    let n: u32 = c as u32;
    (9 <= n && n <= 13) || n == 0x20 || n == 0x85 || n == 0xA0 || n == 0x1680 || (0x2000 <= n && n
        <= 0x200A) || n == 0x2028 || n == 0x2029 || n == 0x202F || n == 0x205F || n == 0x3000
}

pub open spec fn is_digit(c: char) -> bool {
    '0' <= c && c <= '9'
}

pub fn digit_like(c: char) -> (r: bool)
    ensures
        r == is_digit(c),
{
    '0' <= c && c <= '9'
}

/// A character with ASCII capitals made small.
pub open spec fn ascii_lower_char(c: char) -> char {
    if 'A' <= c && c <= 'Z' {
        (c as u32 + 32) as char
    } else {
        c
    }
}

pub open spec fn ascii_upper_char(c: char) -> char {
    if 'a' <= c && c <= 'z' {
        (c as u32 - 32) as char
    } else {
        c
    }
}

/// A text with small ASCII letters made capitals.
pub open spec fn ascii_upper(s: Seq<char>) -> Seq<char> {
    Seq::new(s.len(), |i: int| ascii_upper_char(s[i]))
}

/// A text with ASCII capitals made small.
pub open spec fn ascii_lower(s: Seq<char>) -> Seq<char> {
    Seq::new(s.len(), |i: int| ascii_lower_char(s[i]))
}

pub fn to_ascii_lower(s: &str) -> (r: String)
    ensures
        r@ == ascii_lower(s@),
{
    let v = chars_of(s);
    let mut r = String::new();
    let mut i: usize = 0;
    while i < v.len()
        invariant
            i <= v@.len(),
            v@ == s@,
            r@ == ascii_lower(s@).take(i as int),
        decreases v@.len() - i,
    {
        let c = v[i];
        let d: char = if 'A' <= c && c <= 'Z' {
            (c as u8 + 32) as char
        } else {
            c
        };
        r.push(d);
        assert(ascii_lower(s@).take(i + 1) =~= ascii_lower(s@).take(i as int).push(
            ascii_lower_char(c),
        ));
        i = i + 1;
    }
    assert(ascii_lower(s@).take(s@.len() as int) =~= ascii_lower(s@));
    r
}

// ------------------------------------------------------------------ parts of a text
/// Whether `t` stands in `s` at `i`.
pub open spec fn stands_at(s: Seq<char>, i: int, t: Seq<char>) -> bool {
    0 <= i && i + t.len() <= s.len() && s.subrange(i, i + t.len()) == t
}

/// Whether `s` begins with `t`.
pub open spec fn begins(s: Seq<char>, t: Seq<char>) -> bool {
    stands_at(s, 0, t)
}

/// Whether `s` ends with `t`.
pub open spec fn ends(s: Seq<char>, t: Seq<char>) -> bool {
    stands_at(s, s.len() - t.len(), t)
}

/// Whether `t` occurs in `s`.
pub open spec fn holds(s: Seq<char>, t: Seq<char>) -> bool {
    exists|i: int| stands_at(s, i, t)
}

pub fn standing_at(s: &Vec<char>, i: usize, t: &Vec<char>) -> (r: bool)
    ensures
        r == stands_at(s@, i as int, t@),
{
    if i > s.len() || s.len() - i < t.len() {
        return false;
    }
    let n: usize = s.len();
    let mut k: usize = 0;
    while k < t.len()
        invariant
            k <= t@.len(),
            i + t@.len() <= s@.len(),
            n == s@.len(),
            forall|x: int| 0 <= x < k ==> s@[i + x] == t@[x],
        decreases t@.len() - k,
    {
        if s[i + k] != t[k] {
            assert(s@.subrange(i as int, i + t@.len())[k as int] == s@[i + k]);
            return false;
        }
        k = k + 1;
    }
    assert(s@.subrange(i as int, i + t@.len()) =~= t@);
    true
}

pub fn begins_with(s: &str, t: &str) -> (r: bool)
    ensures
        r == begins(s@, t@),
{
    standing_at(&chars_of(s), 0, &chars_of(t))
}

pub fn ends_with(s: &str, t: &str) -> (r: bool)
    ensures
        r == ends(s@, t@),
{
    let a = chars_of(s);
    let b = chars_of(t);
    if a.len() < b.len() {
        return false;
    }
    standing_at(&a, a.len() - b.len(), &b)
}

pub fn contains(s: &str, t: &str) -> (r: bool)
    ensures
        r == holds(s@, t@),
{
    let a = chars_of(s);
    let b = chars_of(t);
    let mut i: usize = 0;
    while i < a.len()
        invariant
            i <= a@.len(),
            a@ == s@,
            b@ == t@,
            forall|x: int| 0 <= x < i ==> !stands_at(s@, x, t@),
        decreases a@.len() - i,
    {
        if standing_at(&a, i, &b) {
            return true;
        }
        i = i + 1;
    }
    let r = standing_at(&a, i, &b);
    assert(forall|x: int| stands_at(s@, x, t@) ==> 0 <= x <= s@.len());
    r
}

/// The first place of `c` in `s` at or after `i`, or the length of `s`.
pub open spec fn place_of(s: Seq<char>, c: char, i: int) -> int
    decreases s.len() - i,
{
    if i >= s.len() {
        s.len() as int
    } else if s[i] == c {
        i
    } else {
        place_of(s, c, i + 1)
    }
}

pub proof fn lemma_place(s: Seq<char>, c: char, i: int)
    requires
        0 <= i <= s.len(),
    ensures
        i <= place_of(s, c, i) <= s.len(),
        place_of(s, c, i) < s.len() ==> s[place_of(s, c, i)] == c,
        forall|x: int| i <= x < place_of(s, c, i) ==> s[x] != c,
    decreases s.len() - i,
{
    if i < s.len() && s[i] != c {
        lemma_place(s, c, i + 1);
    }
}

pub fn find_char(v: &Vec<char>, c: char, from: usize) -> (r: usize)
    requires
        from <= v@.len(),
    ensures
        r == place_of(v@, c, from as int),
        from <= r <= v@.len(),
{
    let mut i: usize = from;
    while i < v.len()
        invariant
            from <= i <= v@.len(),
            place_of(v@, c, from as int) == place_of(v@, c, i as int),
        decreases v@.len() - i,
    {
        if v[i] == c {
            return i;
        }
        i = i + 1;
    }
    i
}

/// Whether `c` occurs in `s`.
pub fn has_char(s: &str, c: char) -> (r: bool)
    ensures
        r == s@.contains(c),
{
    let v = chars_of(s);
    let i: usize = find_char(&v, c, 0);
    proof {
        lemma_place(s@, c, 0);
    }
    i < v.len()
}

/// `s` cut at every `c`.
pub open spec fn split(s: Seq<char>, c: char) -> Seq<Seq<char>>
    decreases s.len(),
{
    let i = place_of(s, c, 0);
    if 0 <= i < s.len() {
        seq![s.take(i)] + split(s.skip(i + 1), c)
    } else {
        seq![s]
    }
}

pub open spec fn views(v: Seq<String>) -> Seq<Seq<char>> {
    Seq::new(v.len(), |i: int| v[i]@)
}

pub proof fn lemma_views_push(v: Seq<String>, s: String)
    ensures
        views(v.push(s)) == views(v).push(s@),
{
    assert(views(v.push(s)) =~= views(v).push(s@));
}

proof fn lemma_place_skip(s: Seq<char>, c: char, k: int, i: int)
    requires
        0 <= k <= s.len(),
        0 <= i <= s.len() - k,
    ensures
        place_of(s.skip(k), c, i) + k == place_of(s, c, i + k),
    decreases s.len() - k - i,
{
    if i < s.len() - k {
        lemma_place_skip(s, c, k, i + 1);
    }
}

/// `s` cut at every `c`.
pub fn split_at(s: &str, c: char) -> (r: Vec<String>)
    ensures
        views(r@) == split(s@, c),
        r@.len() > 0,
{
    let v = chars_of(s);
    let mut r: Vec<String> = Vec::new();
    let mut from: usize = 0;
    assert(s@.skip(0) =~= s@);
    assert(views(r@) + split(s@, c) =~= split(s@, c));
    loop
        invariant
            v@ == s@,
            from <= v@.len(),
            views(r@) + split(s@.skip(from as int), c) == split(s@, c),
        decreases v@.len() - from,
    {
        let i: usize = find_char(&v, c, from);
        let ghost rest = s@.skip(from as int);
        proof {
            lemma_place_skip(s@, c, from as int, 0);
            lemma_place(s@, c, from as int);
        }
        let part = slice_of(&v, from, i);
        let ghost before = r@;
        proof {
            lemma_views_push(r@, part);
        }
        r.push(part);
        if i == v.len() {
            assert(part@ =~= rest);
            assert(views(r@) =~= views(before) + seq![rest]);
            return r;
        }
        assert(part@ =~= rest.take(i - from));
        assert(rest.skip(i - from + 1) =~= s@.skip(i + 1));
        assert(views(r@) + split(s@.skip(i + 1), c) =~= views(before) + (seq![rest.take(i - from)]
            + split(rest.skip(i - from + 1), c)));
        from = i + 1;
    }
}

/// `s` without leading white space.
pub open spec fn trim_start(s: Seq<char>) -> Seq<char>
    decreases s.len(),
{
    if s.len() > 0 && is_space(s[0]) {
        trim_start(s.skip(1))
    } else {
        s
    }
}

/// `s` without trailing white space.
pub open spec fn trim_end(s: Seq<char>) -> Seq<char>
    decreases s.len(),
{
    if s.len() > 0 && is_space(s.last()) {
        trim_end(s.drop_last())
    } else {
        s
    }
}

/// `s` without white space on either side.
pub open spec fn trim(s: Seq<char>) -> Seq<char> {
    trim_end(trim_start(s))
}

pub fn trimmed(s: &str) -> (r: String)
    ensures
        r@ == trim(s@),
{
    let v = chars_of(s);
    let mut a: usize = 0;
    let mut b: usize = v.len();
    assert(s@.subrange(0, s@.len() as int) =~= s@);
    while a < b && space(v[a])
        invariant
            a <= b == v@.len(),
            v@ == s@,
            trim_start(s@.subrange(a as int, b as int)) == trim_start(s@),
        decreases b - a,
    {
        assert(s@.subrange(a as int, b as int).skip(1) =~= s@.subrange(a + 1, b as int));
        a = a + 1;
    }
    assert(trim_start(s@) == s@.subrange(a as int, b as int));
    while b > a && space(v[b - 1])
        invariant
            a <= b <= v@.len(),
            v@ == s@,
            trim_end(s@.subrange(a as int, b as int)) == trim(s@),
        decreases b - a,
    {
        assert(s@.subrange(a as int, b as int).drop_last() =~= s@.subrange(a as int, b - 1));
        b = b - 1;
    }
    slice_of(&v, a, b)
}

/// `s` without the `c`s at its end.
pub open spec fn strip_end(s: Seq<char>, c: char) -> Seq<char>
    decreases s.len(),
{
    if s.len() > 0 && s.last() == c {
        strip_end(s.drop_last(), c)
    } else {
        s
    }
}

pub fn stripped_end(s: &str, c: char) -> (r: String)
    ensures
        r@ == strip_end(s@, c),
{
    let v = chars_of(s);
    let mut b: usize = v.len();
    assert(s@.subrange(0, s@.len() as int) =~= s@);
    while b > 0 && v[b - 1] == c
        invariant
            b <= v@.len(),
            v@ == s@,
            strip_end(s@.subrange(0, b as int), c) == strip_end(s@, c),
        decreases b,
    {
        assert(s@.subrange(0, b as int).drop_last() =~= s@.subrange(0, b - 1));
        b = b - 1;
    }
    slice_of(&v, 0, b)
}

/// `s` without the `c`s at its start.
pub open spec fn strip_start(s: Seq<char>, c: char) -> Seq<char>
    decreases s.len(),
{
    if s.len() > 0 && s[0] == c {
        strip_start(s.skip(1), c)
    } else {
        s
    }
}

pub fn stripped_start(s: &str, c: char) -> (r: String)
    ensures
        r@ == strip_start(s@, c),
{
    let v = chars_of(s);
    let mut a: usize = 0;
    assert(s@.subrange(0, s@.len() as int) =~= s@);
    while a < v.len() && v[a] == c
        invariant
            a <= v@.len(),
            v@ == s@,
            strip_start(s@.subrange(a as int, s@.len() as int), c) == strip_start(s@, c),
        decreases v@.len() - a,
    {
        assert(s@.subrange(a as int, s@.len() as int).skip(1) =~= s@.subrange(
            a + 1,
            s@.len() as int,
        ));
        a = a + 1;
    }
    slice_of(&v, a, v.len())
}

/// `s` without any `c`.
pub open spec fn without(s: Seq<char>, c: char) -> Seq<char>
    decreases s.len(),
{
    if s.len() == 0 {
        s
    } else if s.last() == c {
        without(s.drop_last(), c)
    } else {
        without(s.drop_last(), c).push(s.last())
    }
}

pub fn removed(s: &str, c: char) -> (r: String)
    ensures
        r@ == without(s@, c),
{
    let v = chars_of(s);
    let mut r = String::new();
    let mut i: usize = 0;
    while i < v.len()
        invariant
            i <= v@.len(),
            v@ == s@,
            r@ == without(s@.take(i as int), c),
        decreases v@.len() - i,
    {
        assert(s@.take(i + 1).drop_last() =~= s@.take(i as int));
        if v[i] != c {
            r.push(v[i]);
        }
        i = i + 1;
    }
    assert(s@.take(s@.len() as int) =~= s@);
    r
}

/// The first `n` characters of `s`.
pub open spec fn first(s: Seq<char>, n: nat) -> Seq<char> {
    if n <= s.len() {
        s.take(n as int)
    } else {
        s
    }
}

/// The first `n` characters, or all of them where there are fewer.
pub fn head(s: &str, n: usize) -> (r: String)
    ensures
        r@ == first(s@, n as nat),
{
    let v = chars_of(s);
    let m: usize = if n < v.len() {
        n
    } else {
        v.len()
    };
    assert(s@.subrange(0, m as int) =~= first(s@, n as nat));
    slice_of(&v, 0, m)
}

/// `n` times the character `c`.
pub open spec fn times(c: char, n: nat) -> Seq<char> {
    Seq::new(n, |i: int| c)
}

pub fn repeated(c: char, n: usize) -> (r: String)
    ensures
        r@ == times(c, n as nat),
{
    let mut r = String::new();
    let mut i: usize = 0;
    while i < n
        invariant
            i <= n,
            r@ == times(c, i as nat),
        decreases n - i,
    {
        r.push(c);
        i = i + 1;
        assert(r@ =~= times(c, i as nat));
    }
    r
}

/// The first `n` parts with `sep` between them.
pub open spec fn joined(parts: Seq<Seq<char>>, n: nat, sep: Seq<char>) -> Seq<char>
    decreases n,
{
    if n == 0 {
        Seq::empty()
    } else if n == 1 {
        parts[0]
    } else {
        joined(parts, (n - 1) as nat, sep) + sep + parts[n - 1]
    }
}

/// The parts with `sep` between them.
pub open spec fn join_of(parts: Seq<Seq<char>>, sep: Seq<char>) -> Seq<char> {
    joined(parts, parts.len(), sep)
}

pub fn join(parts: &Vec<String>, sep: &str) -> (r: String)
    ensures
        r@ == join_of(views(parts@), sep@),
{
    if parts.len() == 0 {
        return String::new();
    }
    let mut r = parts[0].clone();
    let mut i: usize = 1;
    while i < parts.len()
        invariant
            1 <= i <= parts@.len(),
            r@ == joined(views(parts@), i as nat, sep@),
        decreases parts@.len() - i,
    {
        r.push_str(sep);
        r.push_str(parts[i].as_str());
        i = i + 1;
    }
    r
}

/// Whether `s` comes before `t` by character codes.
pub open spec fn before(s: Seq<char>, t: Seq<char>) -> bool
    decreases s.len(),
{
    if t.len() == 0 {
        false
    } else if s.len() == 0 {
        true
    } else if s[0] != t[0] {
        s[0] < t[0]
    } else {
        before(s.skip(1), t.skip(1))
    }
}

pub fn sorts_before(s: &str, t: &str) -> (r: bool)
    ensures
        r == before(s@, t@),
{
    let a = chars_of(s);
    let b = chars_of(t);
    let mut i: usize = 0;
    assert(s@.skip(0) =~= s@);
    assert(t@.skip(0) =~= t@);
    while i < a.len() && i < b.len()
        invariant
            i <= a@.len(),
            i <= b@.len(),
            a@ == s@,
            b@ == t@,
            before(s@.skip(i as int), t@.skip(i as int)) == before(s@, t@),
        decreases a@.len() - i,
    {
        if a[i] != b[i] {
            return a[i] < b[i];
        }
        assert(s@.skip(i as int).skip(1) =~= s@.skip(i + 1));
        assert(t@.skip(i as int).skip(1) =~= t@.skip(i + 1));
        i = i + 1;
    }
    i < b.len()
}

// ------------------------------------------------------------------ lists of lines
/// One line.
pub fn single(s: String) -> (r: Vec<String>)
    ensures
        views(r@) == seq![s@],
{
    let mut v: Vec<String> = Vec::new();
    v.push(s);
    assert(views(v@) =~= seq![s@]);
    v
}

/// Append a line.
pub fn append(l: &mut Vec<String>, s: String)
    ensures
        views(final(l)@) == views(old(l)@).push(s@),
{
    proof {
        lemma_views_push(l@, s);
    }
    l.push(s);
}

/// Append a line.
pub fn add_line(l: &mut Vec<String>, s: &str)
    ensures
        views(final(l)@) == views(old(l)@).push(s@),
{
    append(l, owned(s));
}

/// No lines.
pub fn no_lines() -> (r: Vec<String>)
    ensures
        views(r@) == Seq::<Seq<char>>::empty(),
{
    let v: Vec<String> = Vec::new();
    assert(views(v@) =~= Seq::<Seq<char>>::empty());
    v
}

/// Whether `s` is in a list.
pub fn listed(v: &Vec<String>, s: &str) -> (r: bool)
    ensures
        r == views(v@).contains(s@),
{
    let mut i: usize = 0;
    while i < v.len()
        invariant
            i <= v@.len(),
            forall|x: int| 0 <= x < i ==> views(v@)[x] != s@,
        decreases v@.len() - i,
    {
        if same(v[i].as_str(), s) {
            assert(views(v@)[i as int] == s@);
            return true;
        }
        i = i + 1;
    }
    false
}

/// Whether two lists hold the same lines.
pub fn same_list(a: &Vec<String>, b: &Vec<String>) -> (r: bool)
    ensures
        r == (views(a@) == views(b@)),
{
    if a.len() != b.len() {
        assert(views(a@).len() != views(b@).len());
        return false;
    }
    let mut i: usize = 0;
    while i < a.len()
        invariant
            i <= a@.len(),
            a@.len() == b@.len(),
            forall|x: int| 0 <= x < i ==> a@[x]@ == b@[x]@,
        decreases a@.len() - i,
    {
        if !same(a[i].as_str(), b[i].as_str()) {
            assert(views(a@)[i as int] != views(b@)[i as int]);
            return false;
        }
        i = i + 1;
    }
    assert(views(a@) =~= views(b@));
    true
}

/// The decimal numeral of `n`.
pub fn dec_u128(n: u128) -> (r: String)
    ensures
        r@ == dec(n as nat),
    decreases n,
{
    if n < 10 {
        let mut r = String::new();
        r.push(digit_char(n as u32));
        assert(r@ =~= seq![digit(n as nat)]);
        r
    } else {
        let mut r = dec_u128(n / 10);
        r.push(digit_char((n % 10) as u32));
        r
    }
}

/// The decimal numeral of `i`.
pub fn dec_i128(i: i128) -> (r: String)
    ensures
        r@ == dec_int(i as int),
{
    if i < 0 {
        let mut r = String::new();
        r.push('-');
        assert(r@ =~= seq!['-']);
        r.push_str(dec_u128(((-(i + 1)) as u128) + 1).as_str());
        r
    } else {
        dec_u128(i as u128)
    }
}

/// Whether a text holds nothing but characters of ASCII that print.
pub open spec fn is_plain(s: Seq<char>) -> bool {
    forall|i: int| 0 <= i < s.len() ==> ' ' <= #[trigger] s[i] <= '~'
}

/// A text with a backslash before each quote and backslash.
pub open spec fn backslashed(s: Seq<char>) -> Seq<char>
    decreases s.len(),
{
    if s.len() == 0 {
        s
    } else if s.last() == '"' || s.last() == '\\' {
        backslashed(s.drop_last()) + seq!['\\', s.last()]
    } else {
        backslashed(s.drop_last()).push(s.last())
    }
}

/// A text in double quotes, with what does not print escaped.
pub uninterp spec fn debug_of(s: Seq<char>) -> Seq<char>;

/// A text in double quotes: one of ASCII that prints has its quotes and backslashes escaped.
pub open spec fn debug_form(s: Seq<char>) -> Seq<char> {
    if is_plain(s) {
        seq!['"'] + backslashed(s) + seq!['"']
    } else {
        debug_of(s)
    }
}

/// `std::fmt::Debug` for a text: the text in double quotes. One of ASCII that prints has a
/// backslash before each double quote and each backslash; how others are escaped is named,
/// not stated.
#[verifier::external_body]
pub(crate) fn debug_text(s: &str) -> (r: String)
    ensures
        r@ == (if is_plain(s@) {
            seq!['"'] + backslashed(s@) + seq!['"']
        } else {
            debug_of(s@)
        }),
{
    format!("{s:?}")
}

/// A text with what does not print escaped.
pub uninterp spec fn escaped_of(s: Seq<char>) -> Seq<char>;

/// `str::escape_debug`: each character as it stands, or escaped where it does not print. Which
/// ones do not is Unicode's to say, and is named, not stated.
#[verifier::external_body]
fn escaped(s: &str) -> (r: String)
    ensures
        r@ == escaped_of(s@),
{
    s.escape_debug().to_string()
}

/// Whether a code point outside ASCII never prints: the delete sign and the second block of
/// controls, blanks and separators, the marks that only direct or join text, and those kept
/// for private use.
pub open spec fn is_unseen(n: nat) -> bool {
    ||| 0x7f <= n <= 0xa0
    ||| n == 0xad
    ||| n == 0x1680
    ||| 0x2000 <= n <= 0x200f
    ||| 0x2028 <= n <= 0x202f
    ||| 0x205f <= n <= 0x206f
    ||| n == 0x3000
    ||| 0xe000 <= n <= 0xf8ff
    ||| n == 0xfeff
    ||| 0xfff9 <= n <= 0xfffb
    ||| 0xf0000 <= n
}

/// Whether a character prints: those of ASCII from the blank on, and outside it those that are
/// neither unseen nor escaped behind a letter.
pub open spec fn is_printable(c: char) -> bool {
    if (c as nat) < 0x7f {
        c as nat >= 0x20
    } else {
        !is_unseen(c as nat) && escaped_of(seq!['a', c]) == seq!['a', c]
    }
}

/// Whether a character prints.
pub fn prints(c: char) -> (r: bool)
    ensures
        r == is_printable(c),
{
    let n: u32 = c as u32;
    if n < 0x7f {
        return n >= 0x20;
    }
    if n <= 0xa0 || n == 0xad || n == 0x1680 || (0x2000 <= n && n <= 0x200f) || (0x2028 <= n && n
        <= 0x202f) || (0x205f <= n && n <= 0x206f) || n == 0x3000 || (0xe000 <= n && n <= 0xf8ff)
        || n == 0xfeff || (0xfff9 <= n && n <= 0xfffb) || 0xf0000 <= n {
        return false;
    }
    let mut t = String::new();
    t.push('a');
    t.push(c);
    assert(t@ =~= seq!['a', c]);
    same(escaped(t.as_str()).as_str(), t.as_str())
}

/// Whether every underscore of a text stands between two digits.
pub open spec fn is_grouped(s: Seq<char>) -> bool {
    forall|i: int|
        0 <= i < s.len() && #[trigger] s[i] == '_' ==> 0 < i < s.len() - 1 && is_digit(s[i - 1])
            && is_digit(s[i + 1])
}

/// A numeral without the underscores between its digits, where they stand nowhere else.
pub open spec fn ungrouped(s: Seq<char>) -> Option<Seq<char>> {
    if is_grouped(s) {
        Some(without(s, '_'))
    } else {
        None
    }
}

/// A numeral without the underscores between its digits, where they stand nowhere else.
pub fn ungroup(s: &str) -> (r: Option<String>)
    ensures
        r.deep_view() == ungrouped(s@),
{
    let v = chars_of(s);
    let mut i: usize = 0;
    while i < v.len()
        invariant
            i <= v@.len(),
            v@ == s@,
            forall|x: int|
                0 <= x < i && #[trigger] s@[x] == '_' ==> 0 < x < s@.len() - 1 && is_digit(s@[x - 1])
                    && is_digit(s@[x + 1]),
        decreases v@.len() - i,
    {
        if v[i] == '_' && !(i > 0 && i + 1 < v.len() && digit_like(v[i - 1]) && digit_like(
            v[i + 1],
        )) {
            assert(s@[i as int] == '_');
            return None;
        }
        i = i + 1;
    }
    Some(removed(s, '_'))
}

// ------------------------------------------------------------------ words
/// The words that end among the first `n` characters, and the one that has begun.
pub open spec fn words_in(s: Seq<char>, n: nat) -> (Seq<Seq<char>>, Seq<char>)
    decreases n,
{
    if n == 0 {
        (Seq::empty(), Seq::empty())
    } else {
        let (ws, cur) = words_in(s, (n - 1) as nat);
        if !is_space(s[n - 1]) {
            (ws, cur.push(s[n - 1]))
        } else if cur.len() > 0 {
            (ws.push(cur), Seq::empty())
        } else {
            (ws, cur)
        }
    }
}

/// What stands between white space.
pub open spec fn words(s: Seq<char>) -> Seq<Seq<char>> {
    let (ws, cur) = words_in(s, s.len());
    if cur.len() > 0 {
        ws.push(cur)
    } else {
        ws
    }
}

pub fn words_of(s: &str) -> (r: Vec<String>)
    ensures
        views(r@) == words(s@),
{
    let v = chars_of(s);
    let mut ws: Vec<String> = Vec::new();
    let mut cur = String::new();
    let mut any: bool = false;
    let mut i: usize = 0;
    assert(views(ws@) =~= Seq::empty());
    assert(cur@ =~= Seq::empty());
    while i < v.len()
        invariant
            i <= v@.len(),
            v@ == s@,
            (views(ws@), cur@) == words_in(s@, i as nat),
            any == (cur@.len() > 0),
        decreases v@.len() - i,
    {
        if !space(v[i]) {
            cur.push(v[i]);
            any = true;
        } else if any {
            let ghost before = ws@;
            ws.push(cur);
            assert(views(ws@) =~= views(before).push(cur@));
            cur = String::new();
            assert(cur@ =~= Seq::empty());
            any = false;
        }
        i = i + 1;
    }
    if any {
        let ghost before = ws@;
        ws.push(cur);
        assert(views(ws@) =~= views(before).push(cur@));
    }
    ws
}

/// `s` without `a`s and `b`s in front.
pub open spec fn bare_start(s: Seq<char>, a: char, b: char) -> Seq<char>
    decreases s.len(),
{
    if s.len() > 0 && (s[0] == a || s[0] == b) {
        bare_start(s.skip(1), a, b)
    } else {
        s
    }
}

/// `s` without `a`s and `b`s at its end.
pub open spec fn bare_end(s: Seq<char>, a: char, b: char) -> Seq<char>
    decreases s.len(),
{
    if s.len() > 0 && (s.last() == a || s.last() == b) {
        bare_end(s.drop_last(), a, b)
    } else {
        s
    }
}

/// `s` without `a`s and `b`s on either side.
pub open spec fn bare(s: Seq<char>, a: char, b: char) -> Seq<char> {
    bare_end(bare_start(s, a, b), a, b)
}

pub fn bared(s: &str, a: char, b: char) -> (r: String)
    ensures
        r@ == bare(s@, a, b),
{
    let v = chars_of(s);
    let mut i: usize = 0;
    let mut j: usize = v.len();
    assert(s@.subrange(0, s@.len() as int) =~= s@);
    while i < j && (v[i] == a || v[i] == b)
        invariant
            i <= j == v@.len(),
            v@ == s@,
            bare_start(s@.subrange(i as int, j as int), a, b) == bare_start(s@, a, b),
        decreases j - i,
    {
        assert(s@.subrange(i as int, j as int).skip(1) =~= s@.subrange(i + 1, j as int));
        i = i + 1;
    }
    let ghost front = s@.subrange(i as int, j as int);
    while i < j && (v[j - 1] == a || v[j - 1] == b)
        invariant
            i <= j <= v@.len(),
            v@ == s@,
            bare_end(s@.subrange(i as int, j as int), a, b) == bare_end(front, a, b),
        decreases j - i,
    {
        assert(s@.subrange(i as int, j as int).drop_last() =~= s@.subrange(i as int, j - 1));
        j = j - 1;
    }
    slice_of(&v, i, j)
}

/// Whether a character ends a line.
pub open spec fn is_break(c: char) -> bool {
    c == '\n' || c == '\r' || c == '\u{0b}' || c == '\u{0c}' || c == '\u{1c}' || c == '\u{1d}' || c
        == '\u{1e}' || c == '\u{85}' || c == '\u{2028}' || c == '\u{2029}'
}

/// The lines that end among the first `n` characters, and the one that has begun; none has
/// behind a line's end. A carriage return and the line feed behind it are one end.
pub open spec fn lines_in(s: Seq<char>, n: nat) -> (Seq<Seq<char>>, Option<Seq<char>>)
    decreases n,
{
    if n == 0 {
        (Seq::empty(), None)
    } else {
        let (ls, cur) = lines_in(s, (n - 1) as nat);
        let c = s[n - 1];
        if c == '\n' && n >= 2 && s[n - 2] == '\r' {
            (ls, cur)
        } else if is_break(c) {
            (
                ls.push(
                    match cur {
                        Some(l) => l,
                        None => Seq::empty(),
                    },
                ),
                None,
            )
        } else {
            (
                ls,
                Some(
                    match cur {
                        Some(l) => l.push(c),
                        None => seq![c],
                    },
                ),
            )
        }
    }
}

/// The lines of a text; what stands behind the last line's end is one only where it is not
/// empty.
pub open spec fn lines(s: Seq<char>) -> Seq<Seq<char>> {
    let (ls, cur) = lines_in(s, s.len());
    match cur {
        Some(l) => ls.push(l),
        None => ls,
    }
}

pub fn lines_of(s: &str) -> (r: Vec<String>)
    ensures
        views(r@) == lines(s@),
{
    let v = chars_of(s);
    let mut ls: Vec<String> = Vec::new();
    let mut cur = String::new();
    let mut begun: bool = false;
    let mut i: usize = 0;
    assert(views(ls@) =~= Seq::empty());
    assert(cur@ =~= Seq::empty());
    while i < v.len()
        invariant
            i <= v@.len(),
            v@ == s@,
            !begun ==> cur@ == Seq::<char>::empty(),
            (
                views(ls@),
                if begun {
                    Some(cur@)
                } else {
                    None
                },
            ) == lines_in(s@, i as nat),
        decreases v@.len() - i,
    {
        let c = v[i];
        if c == '\n' && i >= 1 && v[i - 1] == '\r' {
        } else if c == '\n' || c == '\r' || c == '\u{0b}' || c == '\u{0c}' || c == '\u{1c}' || c
            == '\u{1d}' || c == '\u{1e}' || c == '\u{85}' || c == '\u{2028}' || c == '\u{2029}' {
            let ghost before = ls@;
            ls.push(cur);
            assert(views(ls@) =~= views(before).push(cur@));
            cur = String::new();
            assert(cur@ =~= Seq::empty());
            begun = false;
        } else {
            let ghost was = cur@;
            cur.push(c);
            assert(was.len() == 0 ==> cur@ =~= seq![c]);
            begun = true;
        }
        i = i + 1;
    }
    if begun {
        let ghost before = ls@;
        ls.push(cur);
        assert(views(ls@) =~= views(before).push(cur@));
    }
    ls
}

} // verus!
