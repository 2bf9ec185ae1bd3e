//! Filling paragraphs: tabs expand to eight columns, every white space character becomes a
//! space, a line drops the white space it would begin with (the first one keeps it) and the run
//! of white space it would end with (kept only before a long word of which nothing fits
//! behind it), words longer than the width are broken, and words break after a hyphen between
//! letters (`re-`/`anchor`), not after one next to a digit (`30-min`).
use crate::text;
use vstd::prelude::*;

verus! {

/// Whether `char::is_alphanumeric` holds of a character beyond ASCII.
pub uninterp spec fn unicode_alphanumeric(c: char) -> bool;

/// A letter or a number.
pub open spec fn alphanumeric(c: char) -> bool {
    if c as u32 <= 127 {
        ('a' <= c && c <= 'z') || ('A' <= c && c <= 'Z') || ('0' <= c && c <= '9')
    } else {
        unicode_alphanumeric(c)
    }
}

/// `char::is_alphanumeric`: in ASCII the letters and digits; of any other character the result
/// is named [`unicode_alphanumeric`].
#[verifier::external_body]
fn is_alphanumeric(c: char) -> (r: bool)
    ensures
        r == if c as u32 <= 127 {
            ('a' <= c && c <= 'z') || ('A' <= c && c <= 'Z') || ('0' <= c && c <= '9')
        } else {
            unicode_alphanumeric(c)
        },
{
    c.is_alphanumeric()
}

/// Whether `char::is_numeric` holds of a character beyond ASCII.
pub uninterp spec fn unicode_numeric(c: char) -> bool;

/// A number.
pub open spec fn numeric(c: char) -> bool {
    if c as u32 <= 127 {
        '0' <= c && c <= '9'
    } else {
        unicode_numeric(c)
    }
}

/// `char::is_numeric`: in ASCII the digits; of any other character the result is named
/// [`unicode_numeric`].
#[verifier::external_body]
fn is_numeric(c: char) -> (r: bool)
    ensures
        r == if c as u32 <= 127 {
            '0' <= c && c <= '9'
        } else {
            unicode_numeric(c)
        },
{
    c.is_numeric()
}

/// White space that a line can be broken at.
pub open spec fn ws(c: char) -> bool {
    c == '\t' || c == '\n' || c == '\u{b}' || c == '\u{c}' || c == '\r' || c == ' '
}

fn is_ws(c: char) -> (r: bool)
    ensures
        r == ws(c),
{
    c == '\t' || c == '\n' || c == '\u{b}' || c == '\u{c}' || c == '\r' || c == ' '
}

/// A letter, a number or `_`.
pub open spec fn word(c: char) -> bool {
    alphanumeric(c) || c == '_'
}

fn is_word(c: char) -> (r: bool)
    ensures
        r == word(c),
{
    is_alphanumeric(c) || c == '_'
}

/// A word character that is no number.
pub open spec fn letter(c: char) -> bool {
    word(c) && !numeric(c)
}

fn is_letter(c: char) -> (r: bool)
    ensures
        r == letter(c),
{
    is_word(c) && !is_numeric(c)
}

/// A word character or a mark that can end a word.
pub open spec fn word_punct(c: char) -> bool {
    word(c) || c == '!' || c == '"' || c == '\'' || c == '&' || c == '.' || c == ',' || c == '?'
}

fn is_word_punct(c: char) -> (r: bool)
    ensures
        r == word_punct(c),
{
    is_word(c) || c == '!' || c == '"' || c == '\'' || c == '&' || c == '.' || c == ',' || c == '?'
}

// ------------------------------------------------------------------ white space
/// The first `n` characters with tabs expanded and white space turned into spaces, and the
/// column reached.
pub open spec fn munged(s: Seq<char>, n: nat) -> (Seq<char>, nat)
    decreases n,
{
    if n == 0 {
        (Seq::empty(), 0)
    } else {
        let (out, col) = munged(s, (n - 1) as nat);
        let c = s[n - 1];
        if c == '\t' {
            (out + text::times(' ', (8 - col % 8) as nat), 0)
        } else if c == '\n' || c == '\r' {
            (out.push(' '), 0)
        } else if ws(c) {
            (out.push(' '), (col + 1) % 8)
        } else {
            (out.push(c), (col + 1) % 8)
        }
    }
}

fn munge_whitespace(t: &str) -> (r: String)
    ensures
        r@ == munged(t@, t@.len()).0,
{
    let v = text::chars_of(t);
    let mut out = String::new();
    let mut col: usize = 0;
    let mut i: usize = 0;
    while i < v.len()
        invariant
            i <= v@.len(),
            v@ == t@,
            col < 8,
            (out@, col as nat) == munged(t@, i as nat),
        decreases v@.len() - i,
    {
        let c = v[i];
        if c == '\t' {
            out.push_str(text::repeated(' ', 8 - col % 8).as_str());
            col = 0;
        } else if c == '\n' || c == '\r' {
            out.push(' ');
            col = 0;
        } else if is_ws(c) {
            out.push(' ');
            col = (col + 1) % 8;
        } else {
            out.push(c);
            col = (col + 1) % 8;
        }
        i = i + 1;
    }
    out
}

// ------------------------------------------------------------------ chunks
/// Where the run of white space at `i` ends.
pub open spec fn ws_end(s: Seq<char>, i: int) -> int
    decreases s.len() - i,
{
    if 0 <= i < s.len() && ws(s[i]) {
        ws_end(s, i + 1)
    } else {
        i
    }
}

/// Where the run of hyphens at `i` ends.
pub open spec fn dash_end(s: Seq<char>, i: int) -> int
    decreases s.len() - i,
{
    if 0 <= i < s.len() && s[i] == '-' {
        dash_end(s, i + 1)
    } else {
        i
    }
}

/// The length of the run of two or more hyphens at `i` with a word behind it, or 0.
pub open spec fn em_dash(s: Seq<char>, i: int) -> int {
    let j = dash_end(s, i);
    if j - i >= 2 && 0 <= j < s.len() && word(s[j]) {
        j - i
    } else {
        0
    }
}

pub open spec fn letter_at(s: Seq<char>, k: int) -> bool {
    0 <= k < s.len() && letter(s[k])
}

pub open spec fn dash_at(s: Seq<char>, k: int) -> bool {
    0 <= k < s.len() && s[k] == '-'
}

/// Whether a word may break behind a hyphen at `j`: letters on both sides of it.
pub open spec fn breaks_behind(s: Seq<char>, j: int) -> bool {
    &&& dash_at(s, j)
    &&& (letter_at(s, j - 2) && letter_at(s, j - 1)) || (letter_at(s, j - 3) && dash_at(s, j - 2)
        && letter_at(s, j - 1))
    &&& letter_at(s, j + 1)
    &&& letter_at(s, j + 2) || (dash_at(s, j + 2) && letter_at(s, j + 3))
}

/// Where a word that reaches to `j` ends.
pub open spec fn word_end(s: Seq<char>, j: int) -> int
    decreases s.len() - j,
{
    if breaks_behind(s, j) {
        j + 1
    } else if j >= s.len() || j < 1 || ws(s[j]) {
        j
    } else if word_punct(s[j - 1]) && em_dash(s, j) > 0 {
        j
    } else {
        word_end(s, j + 1)
    }
}

/// Where the chunk that starts at `i` ends: a run of white space, a dash between words, or a
/// word.
pub open spec fn chunk_end(s: Seq<char>, i: int) -> int {
    if ws(s[i]) {
        ws_end(s, i)
    } else if i > 0 && word_punct(s[i - 1]) && em_dash(s, i) > 0 {
        i + em_dash(s, i)
    } else {
        word_end(s, i + 1)
    }
}

proof fn lemma_ws_end(s: Seq<char>, i: int)
    requires
        0 <= i <= s.len(),
    ensures
        i <= ws_end(s, i) <= s.len(),
        forall|x: int| i <= x < ws_end(s, i) ==> ws(s[x]),
        i < s.len() && ws(s[i]) ==> ws_end(s, i) > i,
    decreases s.len() - i,
{
    if i < s.len() && ws(s[i]) {
        lemma_ws_end(s, i + 1);
    }
}

proof fn lemma_dash_end(s: Seq<char>, i: int)
    requires
        0 <= i <= s.len(),
    ensures
        i <= dash_end(s, i) <= s.len(),
        forall|x: int| i <= x < dash_end(s, i) ==> s[x] == '-',
    decreases s.len() - i,
{
    if i < s.len() && s[i] == '-' {
        lemma_dash_end(s, i + 1);
    }
}

proof fn lemma_word_end(s: Seq<char>, i: int, j: int)
    requires
        0 <= i < j <= s.len(),
        forall|x: int| i <= x < j ==> !ws(s[x]),
    ensures
        j <= word_end(s, j) <= s.len(),
        forall|x: int| i <= x < word_end(s, j) ==> !ws(s[x]),
    decreases s.len() - j,
{
    if breaks_behind(s, j) {
    } else if j >= s.len() || ws(s[j]) {
    } else if word_punct(s[j - 1]) && em_dash(s, j) > 0 {
    } else {
        lemma_word_end(s, i, j + 1);
    }
}

/// A chunk is not empty, and all white space or free of it.
proof fn lemma_chunk_end(s: Seq<char>, i: int)
    requires
        0 <= i < s.len(),
    ensures
        i < chunk_end(s, i) <= s.len(),
        (forall|x: int| i <= x < chunk_end(s, i) ==> ws(s[x])) || (forall|x: int|
            i <= x < chunk_end(s, i) ==> !ws(s[x])),
{
    lemma_ws_end(s, i);
    lemma_dash_end(s, i);
    if !ws(s[i]) {
        lemma_word_end(s, i, i + 1);
    }
}

/// The chunks of `s` from `i` on.
pub open spec fn chunks_from(s: Seq<char>, i: int) -> Seq<Seq<char>>
    decreases s.len() - i,
{
    if 0 <= i < s.len() && i < chunk_end(s, i) <= s.len() {
        seq![s.subrange(i, chunk_end(s, i))] + chunks_from(s, chunk_end(s, i))
    } else {
        Seq::empty()
    }
}

fn char_is(s: &Vec<char>, k: usize, c: char) -> (r: bool)
    ensures
        r == (k < s@.len() && s@[k as int] == c),
{
    k < s.len() && s[k] == c
}

fn letter_is(s: &Vec<char>, k: usize) -> (r: bool)
    ensures
        r == letter_at(s@, k as int),
{
    k < s.len() && is_letter(s[k])
}

fn em_dash_at(s: &Vec<char>, i: usize) -> (r: usize)
    requires
        i <= s@.len(),
    ensures
        r == em_dash(s@, i as int),
        i + r <= s@.len(),
{
    let mut j: usize = i;
    while j < s.len() && s[j] == '-'
        invariant
            i <= j <= s@.len(),
            dash_end(s@, i as int) == dash_end(s@, j as int),
        decreases s@.len() - j,
    {
        j = j + 1;
    }
    if j - i >= 2 && j < s.len() && is_word(s[j]) {
        j - i
    } else {
        0
    }
}

fn breaks_at(s: &Vec<char>, j: usize) -> (r: bool)
    requires
        1 <= j <= s@.len(),
    ensures
        r == breaks_behind(s@, j as int),
{
    if !char_is(s, j, '-') {
        return false;
    }
    let behind: bool = (j >= 2 && letter_is(s, j - 2) && letter_is(s, j - 1)) || (j >= 3
        && letter_is(s, j - 3) && char_is(s, j - 2, '-') && letter_is(s, j - 1));
    if !behind {
        return false;
    }
    if s.len() - j < 3 {
        return false;
    }
    let far: bool = s.len() - j >= 4 && char_is(s, j + 2, '-') && letter_is(s, j + 3);
    letter_is(s, j + 1) && (letter_is(s, j + 2) || far)
}

/// The chunks of `s`: runs of white space, dashes between words, and words, which end behind
/// a hyphen between letters.
pub fn split(s: &Vec<char>) -> (r: Vec<String>)
    ensures
        text::views(r@) == chunks_from(s@, 0),
{
    let mut out: Vec<String> = Vec::new();
    let mut i: usize = 0;
    let full: usize = s.len();
    assert(text::views(out@) + chunks_from(s@, 0) =~= chunks_from(s@, 0));
    while i < s.len()
        invariant
            i <= s@.len(),
            full == s@.len(),
            text::views(out@) + chunks_from(s@, i as int) == chunks_from(s@, 0),
        decreases s@.len() - i,
    {
        let mut j: usize = i;
        if is_ws(s[i]) {
            while j < s.len() && is_ws(s[j])
                invariant
                    i <= j <= s@.len(),
                    ws_end(s@, i as int) == ws_end(s@, j as int),
                decreases s@.len() - j,
            {
                j = j + 1;
            }
        } else {
            let n: usize = if i > 0 && is_word_punct(s[i - 1]) {
                em_dash_at(s, i)
            } else {
                0
            };
            if n > 0 {
                j = i + n;
            } else {
                j = i + 1;
                loop
                    invariant_except_break
                        word_end(s@, i + 1) == word_end(s@, j as int),
                    invariant
                        i < j <= s@.len(),
                        full == s@.len(),
                    ensures
                        j == word_end(s@, i + 1),
                    decreases s@.len() - j,
                {
                    if breaks_at(s, j) {
                        j = j + 1;
                        break;
                    }
                    if j >= s.len() || is_ws(s[j]) {
                        break;
                    }
                    if is_word_punct(s[j - 1]) && em_dash_at(s, j) > 0 {
                        break;
                    }
                    j = j + 1;
                }
            }
        }
        proof {
            lemma_chunk_end(s@, i as int);
            assert(j == chunk_end(s@, i as int));
        }
        let part = text::slice_of(s, i, j);
        let ghost before = out@;
        proof {
            text::lemma_views_push(out@, part);
        }
        out.push(part);
        assert(text::views(out@) + chunks_from(s@, j as int) =~= text::views(before) + (seq![part@]
            + chunks_from(s@, j as int)));
        i = j;
    }
    assert(chunks_from(s@, i as int) =~= Seq::empty());
    assert(text::views(out@) + chunks_from(s@, i as int) =~= text::views(out@));
    out
}

// ------------------------------------------------------------------ lines
/// Whether a chunk is all white space.
pub open spec fn blank(s: Seq<char>) -> bool {
    forall|i: int| 0 <= i < s.len() ==> ws(s[i])
}

/// How many chunks from `n` on still fit a line that holds `len` characters.
pub open spec fn fitting(cs: Seq<Seq<char>>, n: nat, len: nat, width: nat) -> nat
    decreases cs.len() - n,
{
    if n < cs.len() && len + cs[n as int].len() <= width {
        fitting(cs, n + 1, len + cs[n as int].len(), width)
    } else {
        n
    }
}

/// The first `n` chunks in one piece.
pub open spec fn glued(cs: Seq<Seq<char>>, n: nat) -> Seq<char>
    decreases n,
{
    if n == 0 {
        Seq::empty()
    } else {
        glued(cs, (n - 1) as nat) + cs[n - 1]
    }
}

/// The place of the last hyphen before `n`, or -1.
pub open spec fn last_dash(s: Seq<char>, n: int) -> int
    decreases n,
{
    if n <= 0 {
        -1
    } else if s[n - 1] == '-' {
        n - 1
    } else {
        last_dash(s, n - 1)
    }
}

/// Where a chunk too long for a line with `room` characters left is cut: behind the last
/// hyphen that fits and has something other than hyphens before it, else where the room ends.
pub open spec fn cut(s: Seq<char>, room: nat) -> nat {
    let h = last_dash(s, room as int);
    if s.len() <= room {
        s.len()
    } else if h > 0 && exists|i: int| 0 <= i < h && s[i] != '-' {
        (h + 1) as nat
    } else {
        room
    }
}

/// The chunks a line is made of, and the chunks left.
pub open spec fn line_of(cs: Seq<Seq<char>>, width: nat) -> (Seq<Seq<char>>, Seq<Seq<char>>) {
    let n = fitting(cs, 0, 0, width);
    let used = glued(cs, n).len();
    let (cur, rest) = if n < cs.len() && cs[n as int].len() > width {
        let e = cut(cs[n as int], (width - used) as nat);
        (
            cs.take(n as int).push(cs[n as int].take(e as int)),
            seq![cs[n as int].skip(e as int)] + cs.skip(n as int + 1),
        )
    } else {
        (cs.take(n as int), cs.skip(n as int))
    };
    if cur.len() > 0 && blank(cur.last()) {
        (cur.drop_last(), rest)
    } else {
        (cur, rest)
    }
}

/// How much is left to lay out.
pub open spec fn size(cs: Seq<Seq<char>>) -> nat {
    glued(cs, cs.len()).len() + cs.len()
}

/// The chunks without a leading blank one, where a line has been written already.
pub open spec fn trimmed_chunks(cs: Seq<Seq<char>>, started: bool) -> Seq<Seq<char>> {
    if started && cs.len() > 0 && blank(cs[0]) {
        cs.skip(1)
    } else {
        cs
    }
}

/// The lines that the chunks fill.
pub open spec fn lines_of(cs: Seq<Seq<char>>, started: bool, width: nat) -> Seq<Seq<char>>
    decreases size(cs),
{
    let kept = trimmed_chunks(cs, started);
    let (cur, rest) = line_of(kept, width);
    if cs.len() == 0 || width == 0 || size(rest) >= size(cs) {
        Seq::empty()
    } else if cur.len() > 0 {
        seq![glued(cur, cur.len())] + lines_of(rest, true, width)
    } else {
        lines_of(rest, started, width)
    }
}

/// The lines of a paragraph.
pub open spec fn wrap_spec(t: Seq<char>, width: nat) -> Seq<Seq<char>> {
    let w = if width == 0 {
        1
    } else {
        width
    };
    lines_of(chunks_from(munged(t, t.len()).0, 0), false, w)
}

proof fn lemma_glued_agree(a: Seq<Seq<char>>, b: Seq<Seq<char>>, n: nat)
    requires
        n <= a.len(),
        n <= b.len(),
        forall|i: int| 0 <= i < n ==> a[i] == b[i],
    ensures
        glued(a, n) == glued(b, n),
    decreases n,
{
    if n > 0 {
        lemma_glued_agree(a, b, (n - 1) as nat);
    }
}

proof fn lemma_glued_split(cs: Seq<Seq<char>>, k: nat, n: nat)
    requires
        k <= n <= cs.len(),
    ensures
        glued(cs, n).len() == glued(cs, k).len() + glued(cs.skip(k as int), (n - k) as nat).len(),
    decreases n,
{
    if n > k {
        lemma_glued_split(cs, k, (n - 1) as nat);
        assert(cs.skip(k as int)[n - k - 1] == cs[n - 1]);
    }
}

proof fn lemma_fitting(cs: Seq<Seq<char>>, n: nat, len: nat, width: nat)
    requires
        n <= cs.len(),
        len == glued(cs, n).len(),
        len <= width,
    ensures
        n <= fitting(cs, n, len, width) <= cs.len(),
        glued(cs, fitting(cs, n, len, width)).len() <= width,
        n < cs.len() && len + cs[n as int].len() <= width ==> fitting(cs, n, len, width) > n,
    decreases cs.len() - n,
{
    if n < cs.len() && len + cs[n as int].len() <= width {
        assert((n + 1 - 1) as nat == n);
        lemma_fitting(cs, n + 1, len + cs[n as int].len(), width);
    }
}

proof fn lemma_last_dash(s: Seq<char>, n: int)
    requires
        0 <= n <= s.len(),
    ensures
        -1 <= last_dash(s, n) < n || (n == 0 && last_dash(s, n) == -1),
        last_dash(s, n) >= 0 ==> s[last_dash(s, n)] == '-',
    decreases n,
{
    if n > 0 && s[n - 1] != '-' {
        lemma_last_dash(s, n - 1);
    }
}

proof fn lemma_cut(s: Seq<char>, room: nat)
    ensures
        cut(s, room) <= s.len(),
        cut(s, room) <= room,
        room > 0 && s.len() > 0 ==> cut(s, room) > 0,
{
    if s.len() > room {
        lemma_last_dash(s, room as int);
    }
}

/// Laying out one line leaves less to do.
proof fn lemma_line_shrinks(cs: Seq<Seq<char>>, width: nat)
    requires
        cs.len() > 0,
        width > 0,
    ensures
        size(line_of(cs, width).1) < size(cs),
{
    lemma_fitting(cs, 0, 0, width);
    let n = fitting(cs, 0, 0, width);
    let used = glued(cs, n).len();
    lemma_glued_split(cs, n, cs.len());
    if n < cs.len() && cs[n as int].len() > width {
        let room = (width - used) as nat;
        let c = cs[n as int];
        let e = cut(c, room);
        lemma_cut(c, room);
        let rest = seq![c.skip(e as int)] + cs.skip(n as int + 1);
        let tail = cs.skip(n as int);
        lemma_glued_split(rest, 1, rest.len());
        lemma_glued_split(tail, 1, tail.len());
        assert(rest.skip(1) =~= tail.skip(1));
        reveal_with_fuel(glued, 2);
        assert(glued(rest, 1) =~= c.skip(e as int));
        assert(glued(tail, 1) =~= c);
        assert(rest.len() == tail.len());
        assert(glued(rest, rest.len()).len() == glued(tail, tail.len()).len() - e);
        if n == 0 {
            assert(used == 0);
        } else {
            assert(tail.len() < cs.len());
        }
    } else {
        assert(n > 0);
        assert(cs.skip(n as int).len() < cs.len());
    }
}

proof fn lemma_trimmed(cs: Seq<Seq<char>>, started: bool)
    ensures
        size(trimmed_chunks(cs, started)) <= size(cs),
        trimmed_chunks(cs, started).len() < cs.len() ==> size(trimmed_chunks(cs, started)) < size(
            cs,
        ),
{
    if started && cs.len() > 0 && blank(cs[0]) {
        lemma_glued_split(cs, 1, cs.len());
    }
}

/// The chunks that a line takes never leave as much as there was.
proof fn lemma_progress(cs: Seq<Seq<char>>, started: bool, width: nat)
    requires
        cs.len() > 0,
        width > 0,
    ensures
        size(line_of(trimmed_chunks(cs, started), width).1) < size(cs),
{
    let kept = trimmed_chunks(cs, started);
    lemma_trimmed(cs, started);
    if kept.len() > 0 {
        lemma_line_shrinks(kept, width);
    } else {
        assert(fitting(kept, 0, 0, width) == 0);
        assert(line_of(kept, width).1 =~= kept);
    }
}

fn is_blank(s: &Vec<char>) -> (r: bool)
    ensures
        r == blank(s@),
{
    let mut i: usize = 0;
    while i < s.len()
        invariant
            i <= s@.len(),
            forall|x: int| 0 <= x < i ==> ws(s@[x]),
        decreases s@.len() - i,
    {
        if !is_ws(s[i]) {
            return false;
        }
        i = i + 1;
    }
    true
}

fn cut_at(s: &Vec<char>, room: usize) -> (r: usize)
    ensures
        r == cut(s@, room as nat),
        r <= s@.len(),
{
    if s.len() <= room {
        return s.len();
    }
    let mut n: usize = room;
    proof {
        lemma_last_dash(s@, room as int);
    }
    while n > 0
        invariant
            n <= room < s@.len(),
            last_dash(s@, room as int) == last_dash(s@, n as int),
        decreases n,
    {
        if s[n - 1] == '-' {
            let h: usize = n - 1;
            let mut i: usize = 0;
            while i < h
                invariant
                    i <= h < s@.len(),
                    h < room,
                    room < s@.len(),
                    h == last_dash(s@, room as int),
                    forall|x: int| 0 <= x < i ==> s@[x] == '-',
                decreases h - i,
            {
                if s[i] != '-' {
                    return h + 1;
                }
                i = i + 1;
            }
            return room;
        }
        n = n - 1;
    }
    room
}

/// The chunks as characters.
pub open spec fn cviews(v: Seq<Vec<char>>) -> Seq<Seq<char>> {
    Seq::new(v.len(), |i: int| v[i]@)
}

fn glue(cur: &Vec<Vec<char>>) -> (r: String)
    ensures
        r@ == glued(cviews(cur@), cur@.len()),
{
    let mut r = String::new();
    let mut i: usize = 0;
    while i < cur.len()
        invariant
            i <= cur@.len(),
            r@ == glued(cviews(cur@), i as nat),
        decreases cur@.len() - i,
    {
        r.push_str(text::text_of(&cur[i]).as_str());
        i = i + 1;
    }
    r
}

fn copy_chars(v: &Vec<char>, from: usize, to: usize) -> (r: Vec<char>)
    requires
        from <= to <= v@.len(),
    ensures
        r@ == v@.subrange(from as int, to as int),
{
    text::chars_of(text::slice_of(v, from, to).as_str())
}

/// The chunks of one line, and the chunks left.
fn take_line(cs: &Vec<Vec<char>>, from: usize, width: usize) -> (r: (Vec<Vec<char>>, Vec<
    Vec<char>,
>))
    requires
        from <= cs@.len(),
    ensures
        (cviews(r.0@), cviews(r.1@)) == line_of(cviews(cs@).skip(from as int), width as nat),
{
    let ghost all = cviews(cs@).skip(from as int);
    let mut cur: Vec<Vec<char>> = Vec::new();
    let mut used: usize = 0;
    let mut n: usize = from;
    proof {
        lemma_fitting(all, 0, 0, width as nat);
    }
    while n < cs.len() && cs[n].len() <= width - used
        invariant
            from <= n <= cs@.len(),
            all == cviews(cs@).skip(from as int),
            cviews(cur@) == all.take(n - from),
            used == glued(all, (n - from) as nat).len(),
            used <= width,
            fitting(all, 0, 0, width as nat) == fitting(
                all,
                (n - from) as nat,
                used as nat,
                width as nat,
            ),
        decreases cs@.len() - n,
    {
        let ghost before = cur@;
        let c = copy_chars(&cs[n], 0, cs[n].len());
        assert(c@ =~= cs@[n as int]@);
        assert(all[n - from] == cs@[n as int]@);
        used = used + c.len();
        cur.push(c);
        n = n + 1;
        assert(cviews(cur@) =~= cviews(before).push(c@));
        assert(all.take(n - from) =~= all.take(n - 1 - from).push(all[n - 1 - from]));
        assert((n - from - 1) as nat == (n - 1 - from) as nat);
    }
    assert(n < cs@.len() ==> all[n - from] == cs@[n as int]@);
    let mut rest: Vec<Vec<char>> = Vec::new();
    let ghost k = (n - from) as nat;
    assert(fitting(all, 0, 0, width as nat) == k);
    let mut next: usize = n;
    if n < cs.len() && cs[n].len() > width {
        let e: usize = cut_at(&cs[n], width - used);
        let ghost before = cur@;
        let first = copy_chars(&cs[n], 0, e);
        let last = copy_chars(&cs[n], e, cs[n].len());
        assert(first@ =~= all[k as int].take(e as int));
        assert(last@ =~= all[k as int].skip(e as int));
        cur.push(first);
        rest.push(last);
        next = n + 1;
        assert(cviews(cur@) =~= all.take(k as int).push(all[k as int].take(e as int)));
        assert(cviews(rest@) =~= seq![all[k as int].skip(e as int)]);
    }
    let ghost start = cviews(rest@);
    let mut i: usize = next;
    assert(all.subrange(next - from, next - from) =~= Seq::empty());
    assert(start + all.subrange(next - from, next - from) =~= start);
    while i < cs.len()
        invariant
            from <= next <= i <= cs@.len(),
            all == cviews(cs@).skip(from as int),
            cviews(rest@) == start + all.subrange(next - from, i - from),
        decreases cs@.len() - i,
    {
        let ghost before = rest@;
        let c = copy_chars(&cs[i], 0, cs[i].len());
        assert(c@ =~= all[i - from]);
        rest.push(c);
        assert(cviews(rest@) =~= cviews(before).push(c@));
        assert(all.subrange(next - from, i + 1 - from) =~= all.subrange(
            next - from,
            i - from,
        ).push(all[i - from]));
        i = i + 1;
        assert(cviews(rest@) =~= start + all.subrange(next - from, i - from));
    }
    assert(all.subrange(next - from, i - from) =~= all.skip(next - from));
    assert(Seq::<Seq<char>>::empty() + all.skip(k as int) =~= all.skip(k as int));
    if cur.len() > 0 && is_blank(&cur[cur.len() - 1]) {
        let ghost before = cur@;
        assert(cviews(before).last() == before.last()@);
        cur.pop();
        assert(cviews(cur@) =~= cviews(before).drop_last());
    } else {
        assert(cur@.len() > 0 ==> cviews(cur@).last() == cur@.last()@);
    }
    (cur, rest)
}

/// The lines that chunks fill.
fn wrap_chunks(chunks: Vec<Vec<char>>, width: usize) -> (r: Vec<String>)
    requires
        width > 0,
    ensures
        text::views(r@) == lines_of(cviews(chunks@), false, width as nat),
{
    let mut lines: Vec<String> = Vec::new();
    let mut cs = chunks;
    assert(text::views(lines@) + lines_of(cviews(cs@), false, width as nat) =~= lines_of(
        cviews(cs@),
        false,
        width as nat,
    ));
    while cs.len() > 0
        invariant
            width > 0,
            text::views(lines@) + lines_of(cviews(cs@), lines@.len() > 0, width as nat) == lines_of(
                cviews(chunks@),
                false,
                width as nat,
            ),
        decreases size(cviews(cs@)),
    {
        let started: bool = lines.len() > 0;
        let ghost all = cviews(cs@);
        assert(all[0] == cs@[0]@);
        let from: usize = if started && is_blank(&cs[0]) {
            1
        } else {
            0
        };
        assert(all.skip(0) =~= all);
        assert(all.skip(from as int) == trimmed_chunks(all, started));
        proof {
            lemma_progress(all, started, width as nat);
        }
        let (cur, rest) = take_line(&cs, from, width);
        let ghost before = lines@;
        if cur.len() > 0 {
            let l = glue(&cur);
            proof {
                text::lemma_views_push(lines@, l);
            }
            lines.push(l);
            assert(text::views(lines@) + lines_of(cviews(rest@), true, width as nat)
                =~= text::views(before) + (seq![l@] + lines_of(cviews(rest@), true, width as nat)));
        }
        cs = rest;
    }
    assert(lines_of(cviews(cs@), lines@.len() > 0, width as nat) =~= Seq::empty());
    assert(text::views(lines@) + Seq::empty() =~= text::views(lines@));
    lines
}

/// The lines of a paragraph, none longer than `width` characters (0 behaves as 1).
pub fn wrap(t: &str, width: usize) -> (r: Vec<String>)
    ensures
        text::views(r@) == wrap_spec(t@, width as nat),
        r.deep_view() == wrap_spec(t@, width as nat),
{
    let m = munge_whitespace(t);
    let v = text::chars_of(m.as_str());
    let parts = split(&v);
    let mut cs: Vec<Vec<char>> = Vec::new();
    let mut i: usize = 0;
    while i < parts.len()
        invariant
            i <= parts@.len(),
            cs@.len() == i,
            forall|x: int| 0 <= x < i ==> cs@[x]@ == parts@[x]@,
        decreases parts@.len() - i,
    {
        cs.push(text::chars_of(parts[i].as_str()));
        i = i + 1;
    }
    assert(cviews(cs@) =~= text::views(parts@));
    let lines = wrap_chunks(
        cs,
        if width == 0 {
            1
        } else {
            width
        },
    );
    assert(lines.deep_view() =~= text::views(lines@));
    lines
}

// ------------------------------------------------------------------ laws
/// A chunk that is not empty, and all white space or free of it.
pub open spec fn clean(c: Seq<char>) -> bool {
    c.len() > 0 && (blank(c) || forall|i: int| 0 <= i < c.len() ==> !ws(c[i]))
}

/// Clean chunks, no two blank ones side by side.
pub open spec fn tidy(cs: Seq<Seq<char>>) -> bool {
    &&& forall|i: int| 0 <= i < cs.len() ==> clean(#[trigger] cs[i])
    &&& forall|i: int, j: int|
        0 <= i && j == i + 1 && j < cs.len() ==> !(blank(#[trigger] cs[i]) && blank(
            #[trigger] cs[j],
        ))
}

/// Whether every chunk fits a line.
pub open spec fn all_fit(cs: Seq<Seq<char>>, width: nat) -> bool {
    forall|i: int| 0 <= i < cs.len() ==> (#[trigger] cs[i]).len() <= width
}

proof fn lemma_chunks_clean(s: Seq<char>, i: int)
    requires
        0 <= i <= s.len(),
    ensures
        forall|k: int| 0 <= k < chunks_from(s, i).len() ==> clean(#[trigger] chunks_from(s, i)[k]),
        forall|k: int, l: int|
            0 <= k && l == k + 1 && l < chunks_from(s, i).len() ==> !(blank(
                #[trigger] chunks_from(s, i)[k],
            ) && blank(#[trigger] chunks_from(s, i)[l])),
        i < s.len() ==> chunks_from(s, i).len() > 0,
        i < s.len() && !ws(s[i]) ==> !blank(chunks_from(s, i)[0]),
    decreases s.len() - i,
{
    if i < s.len() {
        lemma_chunk_end(s, i);
        let j = chunk_end(s, i);
        lemma_chunks_clean(s, j);
        let c = s.subrange(i, j);
        let all = chunks_from(s, i);
        let rest = chunks_from(s, j);
        assert(forall|x: int| 0 <= x < c.len() ==> c[x] == s[i + x]);
        assert(c[0] == s[i]);
        assert(clean(c));
        assert(all[0] == c);
        assert(forall|k: int| 1 <= k < all.len() ==> all[k] == rest[k - 1]);
        assert forall|k: int| 0 <= k < all.len() implies clean(#[trigger] all[k]) by {
            if k > 0 {
                assert(all[k] == rest[k - 1]);
            }
        }
        if ws(s[i]) {
            lemma_ws_end_stops(s, i);
        }
        assert forall|k: int, l: int| 0 <= k && l == k + 1 && l < all.len() implies !(blank(
            #[trigger] all[k],
        ) && blank(#[trigger] all[l])) by {
            assert(all[l] == rest[l - 1]);
            if k > 0 {
                assert(all[k] == rest[k - 1]);
            } else if blank(c) {
                assert(ws(c[0]));
                assert(!ws(s[j]));
            }
        }
    }
}

proof fn lemma_ws_end_stops(s: Seq<char>, i: int)
    requires
        0 <= i <= s.len(),
    ensures
        ws_end(s, i) < s.len() ==> !ws(s[ws_end(s, i)]),
    decreases s.len() - i,
{
    if i < s.len() && ws(s[i]) {
        lemma_ws_end_stops(s, i + 1);
    }
}

proof fn lemma_line_len(cs: Seq<Seq<char>>, width: nat)
    ensures
        glued(line_of(cs, width).0, line_of(cs, width).0.len()).len() <= width,
{
    lemma_fitting(cs, 0, 0, width);
    let n = fitting(cs, 0, 0, width);
    let used = glued(cs, n).len();
    let cur = line_of(cs, width).0;
    lemma_glued_agree(cs.take(n as int), cs, n);
    if n < cs.len() && cs[n as int].len() > width {
        let room = (width - used) as nat;
        let e = cut(cs[n as int], room);
        lemma_cut(cs[n as int], room);
        let full = cs.take(n as int).push(cs[n as int].take(e as int));
        lemma_glued_agree(full, cs, n);
        assert(glued(full, n + 1).len() == used + e);
        assert((n + 1 - 1) as nat == n);
        if blank(full.last()) {
            lemma_glued_agree(full.drop_last(), cs, n);
        }
    } else if cur.len() < n {
        assert(cur =~= cs.take(n as int).drop_last());
        lemma_glued_agree(cur, cs, (n - 1) as nat);
    }
}

proof fn lemma_glued_ends(cs: Seq<Seq<char>>, n: nat)
    requires
        0 < n <= cs.len(),
        forall|i: int| 0 <= i < n ==> #[trigger] cs[i].len() > 0,
    ensures
        glued(cs, n).len() > 0,
        glued(cs, n)[0] == cs[0][0],
        glued(cs, n).last() == cs[n - 1].last(),
    decreases n,
{
    assert(cs[n - 1].len() > 0);
    if n > 1 {
        lemma_glued_ends(cs, (n - 1) as nat);
    } else {
        assert(glued(cs, 0) =~= Seq::empty());
        assert(glued(cs, 1) =~= cs[0]);
    }
}

/// One line of tidy chunks, and what it leaves.
proof fn lemma_line_tight(kept: Seq<Seq<char>>, width: nat)
    requires
        width > 0,
        tidy(kept),
    ensures
        ({
            let (cur, rest) = line_of(kept, width);
            let line = glued(cur, cur.len());
            &&& tidy(rest)
            &&& all_fit(kept, width) ==> all_fit(rest, width)
            &&& cur.len() > 0 ==> {
                &&& line.len() > 0
                &&& line[0] == kept[0][0]
                &&& ws(line.last()) ==> line.len() == width && !all_fit(kept, width)
            }
        }),
{
    let (cur, rest) = line_of(kept, width);
    lemma_fitting(kept, 0, 0, width);
    let n = fitting(kept, 0, 0, width);
    let used = glued(kept, n).len();
    let head = kept.take(n as int);
    lemma_glued_agree(head, kept, n);
    if n < kept.len() && kept[n as int].len() > width {
        let c = kept[n as int];
        let room = (width - used) as nat;
        let e = cut(c, room);
        lemma_cut(c, room);
        let piece = c.take(e as int);
        let full = head.push(piece);
        assert(clean(c));
        assert(rest == seq![c.skip(e as int)] + kept.skip(n as int + 1));
        assert(forall|k: int| 0 < k < rest.len() ==> #[trigger] rest[k] == kept[k + n]);
        assert(rest[0] == c.skip(e as int));
        assert(forall|k: int| 0 <= k < rest[0].len() ==> #[trigger] rest[0][k] == c[k + e]);
        assert(forall|k: int| 0 <= k < piece.len() ==> #[trigger] piece[k] == c[k]);
        assert(ws(c[0]) == blank(c));
        assert(ws(rest[0][0]) == ws(c[e as int]));
        assert(clean(rest[0]) && (blank(rest[0]) == blank(c)));
        assert(tidy(rest)) by {
            assert forall|k: int| 0 <= k < rest.len() implies clean(#[trigger] rest[k]) by {
                if k > 0 {
                    assert(rest[k] == kept[k + n]);
                }
            }
            assert forall|k: int, l: int| 0 <= k && l == k + 1 && l < rest.len() implies !(blank(
                #[trigger] rest[k],
            ) && blank(#[trigger] rest[l])) by {
                assert(rest[l] == kept[l + n]);
                if k > 0 {
                    assert(rest[k] == kept[k + n]);
                } else {
                    assert(!(blank(kept[n as int]) && blank(kept[n as int + 1])));
                }
            }
        }
        assert(full.last() == piece);
        if blank(piece) {
            assert(cur =~= head);
            if n > 0 {
                lemma_line_ends(kept, n, cur);
                if e > 0 {
                    assert(piece[0] == c[0]);
                    assert(blank(c));
                    assert(!blank(kept[n - 1]));
                }
            }
        } else {
            assert(cur == full);
            assert(piece.len() > 0);
            assert forall|k: int| 0 <= k < cur.len() implies #[trigger] cur[k].len() > 0 by {
                if k < n {
                    assert(clean(kept[k]));
                }
            }
            lemma_glued_ends(cur, cur.len());
            assert(cur[0][0] == kept[0][0]);
            assert(piece.last() == c[e - 1]);
            assert(!blank(c)) by {
                if blank(c) {
                    assert forall|k: int| 0 <= k < piece.len() implies ws(#[trigger] piece[k]) by {
                        assert(ws(c[k]));
                    }
                }
            }
        }
    } else {
        assert(rest == kept.skip(n as int));
        assert(forall|k: int| 0 <= k < rest.len() ==> #[trigger] rest[k] == kept[k + n]);
        assert(tidy(rest)) by {
            assert forall|k: int, l: int| 0 <= k && l == k + 1 && l < rest.len() implies !(blank(
                #[trigger] rest[k],
            ) && blank(#[trigger] rest[l])) by {
                assert(rest[k] == kept[k + n] && rest[l] == kept[l + n]);
            }
        }
        if cur.len() > 0 {
            if cur.len() < n {
                assert(cur =~= kept.take(n - 1));
                assert(head.last() == kept[n - 1]);
                lemma_line_ends(kept, (n - 1) as nat, cur);
                assert(!(blank(kept[n - 2]) && blank(kept[n - 1])));
            } else {
                lemma_line_ends(kept, n, cur);
                assert(head.last() == kept[n - 1]);
            }
        }
    }
}

/// The first chunks in one piece begin and end as they do.
proof fn lemma_line_ends(kept: Seq<Seq<char>>, n: nat, cur: Seq<Seq<char>>)
    requires
        tidy(kept),
        0 < n <= kept.len(),
        cur == kept.take(n as int),
    ensures
        glued(cur, n) == glued(kept, n),
        glued(cur, n).len() > 0,
        glued(cur, n)[0] == kept[0][0],
        glued(cur, n).last() == kept[n - 1].last(),
        ws(kept[n - 1].last()) == blank(kept[n - 1]),
{
    lemma_glued_agree(cur, kept, n);
    assert forall|k: int| 0 <= k < n implies #[trigger] kept[k].len() > 0 by {
        assert(clean(kept[k]));
    }
    lemma_glued_ends(kept, n);
    assert(clean(kept[n - 1]));
}

proof fn lemma_lines_tight(cs: Seq<Seq<char>>, started: bool, width: nat, i: int)
    requires
        width > 0,
        tidy(cs),
        0 <= i < lines_of(cs, started, width).len(),
    ensures
        ({
            let line = lines_of(cs, started, width)[i];
            &&& line.len() > 0
            &&& ws(line.last()) ==> line.len() == width && !all_fit(cs, width)
            &&& i > 0 || started ==> !ws(line[0])
        }),
    decreases size(cs),
{
    let kept = trimmed_chunks(cs, started);
    let (cur, rest) = line_of(kept, width);
    lemma_progress(cs, started, width);
    let d = if kept.len() < cs.len() {
        1int
    } else {
        0
    };
    assert(forall|k: int| 0 <= k < kept.len() ==> #[trigger] kept[k] == cs[k + d]);
    assert(tidy(kept)) by {
        assert forall|k: int, l: int| 0 <= k && l == k + 1 && l < kept.len() implies !(blank(
            #[trigger] kept[k],
        ) && blank(#[trigger] kept[l])) by {
            assert(kept[k] == cs[k + d] && kept[l] == cs[l + d]);
        }
    }
    lemma_line_tight(kept, width);
    assert(all_fit(cs, width) ==> all_fit(kept, width));
    if cur.len() > 0 {
        if started && kept.len() > 0 {
            assert(!blank(kept[0])) by {
                if d == 1 {
                    assert(blank(cs[0]));
                    assert(kept[0] == cs[1]);
                }
            }
            assert(clean(kept[0]));
        }
        if i > 0 {
            lemma_lines_tight(rest, true, width, i - 1);
        }
    } else {
        lemma_lines_tight(rest, started, width, i);
    }
}

proof fn lemma_lines_width(cs: Seq<Seq<char>>, started: bool, width: nat, i: int)
    requires
        width > 0,
        0 <= i < lines_of(cs, started, width).len(),
    ensures
        lines_of(cs, started, width)[i].len() <= width,
    decreases size(cs),
{
    let kept = trimmed_chunks(cs, started);
    let (cur, rest) = line_of(kept, width);
    lemma_line_len(kept, width);
    lemma_progress(cs, started, width);
    if cur.len() > 0 {
        if i > 0 {
            lemma_lines_width(rest, true, width, i - 1);
        }
    } else {
        lemma_lines_width(rest, started, width, i);
    }
}

/// No line is longer than the width.
pub proof fn law_lines_fit(t: Seq<char>, width: nat, i: int)
    requires
        width > 0,
        0 <= i < wrap_spec(t, width).len(),
    ensures
        wrap_spec(t, width)[i].len() <= width,
{
    lemma_lines_width(chunks_from(munged(t, t.len()).0, 0), false, width, i);
}

/// No line is empty, none but the first starts with white space, and one ends with it only where it
/// is as long as the width.
pub proof fn law_lines_are_trimmed(t: Seq<char>, width: nat, i: int)
    requires
        width > 0,
        0 <= i < wrap_spec(t, width).len(),
    ensures
        wrap_spec(t, width)[i].len() > 0,
        i > 0 ==> !ws(wrap_spec(t, width)[i][0]),
        wrap_spec(t, width)[i].len() < width ==> !ws(wrap_spec(t, width)[i].last()),
{
    lemma_chunks_clean(munged(t, t.len()).0, 0);
    law_lines_fit(t, width, i);
    lemma_lines_tight(chunks_from(munged(t, t.len()).0, 0), false, width, i);
}

/// Where no word is longer than the width, no line ends with white space.
pub proof fn law_lines_tight(t: Seq<char>, width: nat, i: int)
    requires
        width > 0,
        all_fit(chunks_from(munged(t, t.len()).0, 0), width),
        0 <= i < wrap_spec(t, width).len(),
    ensures
        !ws(wrap_spec(t, width)[i].last()),
{
    lemma_chunks_clean(munged(t, t.len()).0, 0);
    lemma_lines_tight(chunks_from(munged(t, t.len()).0, 0), false, width, i);
}

/// A text without its white space.
pub open spec fn dense(s: Seq<char>) -> Seq<char>
    decreases s.len(),
{
    if s.len() == 0 {
        s
    } else if ws(s.last()) {
        dense(s.drop_last())
    } else {
        dense(s.drop_last()).push(s.last())
    }
}

proof fn lemma_dense_add(a: Seq<char>, b: Seq<char>)
    ensures
        dense(a + b) == dense(a) + dense(b),
    decreases b.len(),
{
    if b.len() == 0 {
        assert(a + b =~= a);
        assert(dense(a) + dense(b) =~= dense(a));
    } else {
        lemma_dense_add(a, b.drop_last());
        assert((a + b).drop_last() =~= a + b.drop_last());
        assert((a + b).last() == b.last());
        assert(dense(a + b) =~= dense(a) + dense(b));
    }
}

proof fn lemma_dense_blank(s: Seq<char>)
    requires
        blank(s),
    ensures
        dense(s) == Seq::<char>::empty(),
    decreases s.len(),
{
    if s.len() > 0 {
        assert(ws(s[s.len() - 1]));
        lemma_dense_blank(s.drop_last());
    }
}

proof fn lemma_glued_add(a: Seq<Seq<char>>, b: Seq<Seq<char>>)
    ensures
        glued(a + b, (a + b).len()) == glued(a, a.len()) + glued(b, b.len()),
    decreases b.len(),
{
    if b.len() == 0 {
        assert(a + b =~= a);
        assert(glued(a, a.len()) + glued(b, 0) =~= glued(a, a.len()));
    } else {
        let c = b.drop_last();
        lemma_glued_add(a, c);
        lemma_glued_agree(a + b, a + c, (a + c).len());
        lemma_glued_agree(b, c, c.len());
        assert((a + b).last() == b.last());
        assert(glued(a + b, (a + b).len()) =~= glued(a, a.len()) + glued(b, b.len()));
    }
}

proof fn lemma_glued_one(c: Seq<char>)
    ensures
        glued(seq![c], 1) == c,
{
    reveal_with_fuel(glued, 2);
    assert(Seq::<char>::empty() + c =~= c);
}

proof fn lemma_chunks_glue(s: Seq<char>, i: int)
    requires
        0 <= i <= s.len(),
    ensures
        glued(chunks_from(s, i), chunks_from(s, i).len()) == s.skip(i),
    decreases s.len() - i,
{
    if i < s.len() {
        lemma_chunk_end(s, i);
        let e = chunk_end(s, i);
        let first = s.subrange(i, e);
        lemma_chunks_glue(s, e);
        lemma_glued_add(seq![first], chunks_from(s, e));
        lemma_glued_one(first);
        assert(first + s.skip(e) =~= s.skip(i));
    } else {
        assert(s.skip(i) =~= Seq::empty());
    }
}

/// The chunks of a text, one behind the other, are the text.
pub proof fn law_the_chunks_are_the_text(s: Seq<char>)
    ensures
        glued(chunks_from(s, 0), chunks_from(s, 0).len()) == s,
{
    lemma_chunks_glue(s, 0);
    assert(s.skip(0) =~= s);
}

/// A line and what it leaves hold what there was, white space aside.
proof fn lemma_line_keeps(cs: Seq<Seq<char>>, width: nat)
    ensures
        dense(glued(cs, cs.len())) == dense(
            glued(line_of(cs, width).0, line_of(cs, width).0.len()),
        ) + dense(glued(line_of(cs, width).1, line_of(cs, width).1.len())),
{
    assert(glued(cs, 0).len() == 0);
    lemma_fitting(cs, 0, 0, width);
    let n = fitting(cs, 0, 0, width);
    let used = glued(cs, n).len();
    let head = cs.take(n as int);
    let tail = cs.skip(n as int);
    lemma_glued_add(head, tail);
    assert(head + tail =~= cs);
    let (cur, rest) = if n < cs.len() && cs[n as int].len() > width {
        let c = cs[n as int];
        let e = cut(c, (width - used) as nat);
        lemma_cut(c, (width - used) as nat);
        let first = c.take(e as int);
        let last = c.skip(e as int);
        let behind = cs.skip(n as int + 1);
        lemma_glued_add(head, seq![first]);
        assert(head + seq![first] =~= head.push(first));
        lemma_glued_add(seq![last], behind);
        lemma_glued_add(seq![c], behind);
        assert(seq![c] + behind =~= tail);
        lemma_glued_one(c);
        lemma_glued_one(first);
        lemma_glued_one(last);
        assert(first + last =~= c);
        let x = glued(head, head.len());
        let z = glued(behind, behind.len());
        assert((x + first) + (last + z) =~= x + (c + z)) by {
            assert((x + first) + (last + z) =~= x + ((first + last) + z));
        }
        (head.push(first), seq![last] + behind)
    } else {
        (head, tail)
    };
    let g = glued(cur, cur.len());
    let h = glued(rest, rest.len());
    assert(g + h == glued(cs, cs.len()));
    lemma_dense_add(g, h);
    if cur.len() > 0 && blank(cur.last()) {
        let kept = cur.drop_last();
        lemma_glued_add(kept, seq![cur.last()]);
        assert(kept + seq![cur.last()] =~= cur);
        lemma_glued_one(cur.last());
        lemma_dense_add(glued(kept, kept.len()), cur.last());
        lemma_dense_blank(cur.last());
        assert(dense(glued(kept, kept.len())) + Seq::<char>::empty() =~= dense(
            glued(kept, kept.len()),
        ));
    }
}

proof fn lemma_lines_keep(cs: Seq<Seq<char>>, started: bool, width: nat)
    requires
        width > 0,
    ensures
        dense(
            glued(lines_of(cs, started, width), lines_of(cs, started, width).len()),
        ) == dense(glued(cs, cs.len())),
    decreases size(cs),
{
    if cs.len() > 0 {
        let kept = trimmed_chunks(cs, started);
        lemma_progress(cs, started, width);
        let (cur, rest) = line_of(kept, width);
        lemma_line_keeps(kept, width);
        if started && blank(cs[0]) {
            lemma_glued_add(seq![cs[0]], cs.skip(1));
            assert(seq![cs[0]] + cs.skip(1) =~= cs);
            lemma_glued_one(cs[0]);
            lemma_dense_add(cs[0], glued(kept, kept.len()));
            lemma_dense_blank(cs[0]);
            assert(Seq::<char>::empty() + dense(glued(kept, kept.len())) =~= dense(
                glued(kept, kept.len()),
            ));
        }
        if cur.len() > 0 {
            let line = glued(cur, cur.len());
            let more = lines_of(rest, true, width);
            lemma_lines_keep(rest, true, width);
            lemma_glued_add(seq![line], more);
            lemma_glued_one(line);
            lemma_dense_add(line, glued(more, more.len()));
        } else {
            lemma_lines_keep(rest, started, width);
            assert(Seq::<char>::empty() + dense(glued(rest, rest.len())) =~= dense(
                glued(rest, rest.len()),
            ));
        }
    }
}

proof fn lemma_munged_keeps(t: Seq<char>, n: nat)
    requires
        n <= t.len(),
    ensures
        dense(munged(t, n).0) == dense(t.take(n as int)),
    decreases n,
{
    if n > 0 {
        lemma_munged_keeps(t, (n - 1) as nat);
        let (out, col) = munged(t, (n - 1) as nat);
        let c = t[n - 1];
        assert(t.take(n as int).drop_last() =~= t.take(n - 1));
        if c == '\t' {
            let pad = text::times(' ', (8 - col % 8) as nat);
            lemma_dense_add(out, pad);
            assert(blank(pad));
            lemma_dense_blank(pad);
            assert(dense(out) + Seq::<char>::empty() =~= dense(out));
        } else if ws(c) {
            assert(out.push(' ').drop_last() =~= out);
        } else {
            assert(out.push(c).drop_last() =~= out);
        }
    } else {
        assert(t.take(0) =~= Seq::empty());
    }
}

/// Wrapping loses, adds and moves no character: white space aside, the lines one behind the
/// other are the text.
pub proof fn law_wrapping_keeps_every_character(t: Seq<char>, width: nat)
    ensures
        dense(glued(wrap_spec(t, width), wrap_spec(t, width).len())) == dense(t),
{
    let m = munged(t, t.len()).0;
    let w = if width == 0 {
        1
    } else {
        width
    };
    lemma_lines_keep(chunks_from(m, 0), false, w);
    law_the_chunks_are_the_text(m);
    lemma_munged_keeps(t, t.len());
    assert(t.take(t.len() as int) =~= t);
}

} // verus!
