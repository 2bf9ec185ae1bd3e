//! Lists, optional values and results as contracts speak of them, and how they are copied.
use crate::double::Double;
use crate::order;
use crate::text;
use crate::watch::json::Json;
use crate::watch::pyfmt;
use vstd::prelude::*;

verus! {

/// What a result holds.
pub open spec fn outcome<T: DeepView, E: DeepView>(r: Result<T, E>) -> Result<T::V, E::V> {
    match r {
        Ok(v) => Ok(v.deep_view()),
        Err(e) => Err(e.deep_view()),
    }
}

/// Those of the first `n` items of which something holds, in their order.
pub open spec fn kept<A>(xs: Seq<A>, holds: spec_fn(A) -> bool, n: nat) -> Seq<A>
    decreases n,
{
    if n == 0 {
        Seq::empty()
    } else if holds(xs[n - 1]) {
        kept(xs, holds, (n - 1) as nat).push(xs[n - 1])
    } else {
        kept(xs, holds, (n - 1) as nat)
    }
}

/// What the first `n` items give, of those that give anything, in their order.
pub open spec fn gathered<A, B>(xs: Seq<A>, give: spec_fn(A) -> Option<B>, n: nat) -> Seq<B>
    decreases n,
{
    if n == 0 {
        Seq::empty()
    } else {
        match give(xs[n - 1]) {
            Some(v) => gathered(xs, give, (n - 1) as nat).push(v),
            None => gathered(xs, give, (n - 1) as nat),
        }
    }
}

/// Whether something holds of one of the first `n` items.
pub open spec fn some<A>(xs: Seq<A>, holds: spec_fn(A) -> bool, n: nat) -> bool {
    exists|i: int| 0 <= i < n && holds(#[trigger] xs[i])
}

/// What the first of the first `n` items that gives anything gives.
pub open spec fn first_given<A, B>(xs: Seq<A>, give: spec_fn(A) -> Option<B>, n: nat) -> Option<B>
    decreases n,
{
    if n == 0 {
        None
    } else {
        match first_given(xs, give, (n - 1) as nat) {
            Some(v) => Some(v),
            None => give(xs[n - 1]),
        }
    }
}

/// What the last of the first `n` items that gives anything gives.
pub open spec fn last_given<A, B>(xs: Seq<A>, give: spec_fn(A) -> Option<B>, n: nat) -> Option<B>
    decreases n,
{
    if n == 0 {
        None
    } else {
        match give(xs[n - 1]) {
            Some(v) => Some(v),
            None => last_given(xs, give, (n - 1) as nat),
        }
    }
}

/// A value that can be had twice.
pub trait Duplicate: DeepView + Sized {
    fn dup(&self) -> (r: Self)
        ensures
            r.deep_view() == self.deep_view(),
    ;
}

impl Duplicate for String {
    fn dup(&self) -> (r: String) {
        text::owned(self.as_str())
    }
}

impl Duplicate for Double {
    fn dup(&self) -> (r: Double) {
        *self
    }
}

impl Duplicate for bool {
    fn dup(&self) -> (r: bool) {
        *self
    }
}

impl Duplicate for i64 {
    fn dup(&self) -> (r: i64) {
        *self
    }
}

impl Duplicate for usize {
    fn dup(&self) -> (r: usize) {
        *self
    }
}

impl Duplicate for Json {
    fn dup(&self) -> (r: Json) {
        self.copy()
    }
}

impl<T: Duplicate> Duplicate for Option<T> {
    fn dup(&self) -> (r: Option<T>) {
        match self {
            Some(v) => Some(v.dup()),
            None => None,
        }
    }
}

impl<A: Duplicate, B: Duplicate> Duplicate for (A, B) {
    fn dup(&self) -> (r: (A, B)) {
        (self.0.dup(), self.1.dup())
    }
}

impl<A: Duplicate, B: Duplicate, C: Duplicate> Duplicate for (A, B, C) {
    fn dup(&self) -> (r: (A, B, C)) {
        (self.0.dup(), self.1.dup(), self.2.dup())
    }
}

impl<T: Duplicate> Duplicate for Vec<T> {
    fn dup(&self) -> (r: Vec<T>) {
        let mut r: Vec<T> = Vec::new();
        let mut i: usize = 0;
        while i < self.len()
            invariant
                i <= self@.len(),
                r@.len() == i,
                forall|x: int| 0 <= x < i ==> (#[trigger] r@[x]).deep_view() == self@[x].deep_view(),
            decreases self@.len() - i,
        {
            r.push(self[i].dup());
            i = i + 1;
        }
        assert(r.deep_view() =~= self.deep_view());
        r
    }
}

/// An empty list.
pub fn none<T: DeepView>() -> (r: Vec<T>)
    ensures
        r.deep_view() == Seq::<T::V>::empty(),
{
    let r: Vec<T> = Vec::new();
    assert(r.deep_view() =~= Seq::<T::V>::empty());
    r
}

/// One more item at the end.
pub fn push<T: DeepView>(l: &mut Vec<T>, x: T)
    ensures
        final(l).deep_view() == old(l).deep_view().push(x.deep_view()),
{
    l.push(x);
    assert(l.deep_view() =~= old(l).deep_view().push(x.deep_view()));
}

/// The item at a place, where there is one.
pub open spec fn item<V>(s: Seq<V>, i: usize) -> Option<V> {
    if i < s.len() {
        Some(s[i as int])
    } else {
        None
    }
}

pub fn at<T: DeepView>(l: &Vec<T>, i: usize) -> (r: Option<&T>)
    ensures
        r.deep_view() == item(l.deep_view(), i),
        r is Some ==> i < usize::MAX,
{
    if i < l.len() {
        assert(l.deep_view()[i as int] == l@[i as int].deep_view());
        Some(&l[i])
    } else {
        None
    }
}

/// The last item.
pub open spec fn end<V>(s: Seq<V>) -> Option<V> {
    if s.len() > 0 {
        Some(s[s.len() - 1])
    } else {
        None
    }
}

pub fn last<T: DeepView>(l: &Vec<T>) -> (r: Option<&T>)
    ensures
        r.deep_view() == end(l.deep_view()),
{
    if l.len() > 0 {
        assert(l.deep_view()[l@.len() - 1] == l@[l@.len() - 1].deep_view());
        Some(&l[l.len() - 1])
    } else {
        None
    }
}

/// The items from a place on, none where there are fewer.
pub open spec fn from<V>(s: Seq<V>, i: usize) -> Seq<V> {
    if i <= s.len() {
        s.skip(i as int)
    } else {
        Seq::empty()
    }
}

pub fn rest<T: Duplicate>(l: &Vec<T>, i: usize) -> (r: Vec<T>)
    ensures
        r.deep_view() == from(l.deep_view(), i),
{
    let mut r: Vec<T> = Vec::new();
    let mut k: usize = i;
    while k < l.len()
        invariant
            i <= k,
            k <= l@.len() || k == i,
            r@.len() == k - i,
            forall|x: int|
                0 <= x < r@.len() ==> (#[trigger] r@[x]).deep_view() == l@[i + x].deep_view(),
        decreases l@.len() - k,
    {
        r.push(l[k].dup());
        k = k + 1;
    }
    assert(r.deep_view() =~= from(l.deep_view(), i));
    r
}

/// The first items, fewer where there are fewer.
pub open spec fn upto<V>(s: Seq<V>, n: usize) -> Seq<V> {
    if n <= s.len() {
        s.take(n as int)
    } else {
        s
    }
}

pub fn head<T: Duplicate>(l: &Vec<T>, n: usize) -> (r: Vec<T>)
    ensures
        r.deep_view() == upto(l.deep_view(), n),
{
    let mut r: Vec<T> = Vec::new();
    let mut k: usize = 0;
    while k < l.len() && k < n
        invariant
            k <= l@.len(),
            k <= n,
            r@.len() == k,
            forall|x: int|
                0 <= x < r@.len() ==> (#[trigger] r@[x]).deep_view() == l@[x].deep_view(),
        decreases l@.len() - k,
    {
        r.push(l[k].dup());
        k = k + 1;
    }
    assert(r.deep_view() =~= upto(l.deep_view(), n));
    r
}

/// The items in the order of a list of places.
pub open spec fn picked<V>(s: Seq<V>, o: Seq<int>) -> Seq<V> {
    Seq::new(o.len(), |i: int| s[o[i]])
}

pub fn pick<T: Duplicate>(l: &Vec<T>, o: &Vec<usize>) -> (r: Vec<T>)
    requires
        forall|i: int| 0 <= i < o@.len() ==> #[trigger] o@[i] < l@.len(),
    ensures
        r.deep_view() == picked(l.deep_view(), order::places(o@)),
{
    let mut r: Vec<T> = Vec::new();
    let mut k: usize = 0;
    while k < o.len()
        invariant
            k <= o@.len(),
            r@.len() == k,
            forall|i: int| 0 <= i < o@.len() ==> #[trigger] o@[i] < l@.len(),
            forall|x: int|
                0 <= x < r@.len() ==> (#[trigger] r@[x]).deep_view() == l@[o@[x] as int].deep_view(),
        decreases o@.len() - k,
    {
        r.push(l[o[k]].dup());
        k = k + 1;
    }
    assert(r.deep_view() =~= picked(l.deep_view(), order::places(o@)));
    r
}

/// Two lists, one behind the other.
pub fn joined<T: DeepView>(a: Vec<T>, b: Vec<T>) -> (r: Vec<T>)
    ensures
        r.deep_view() == a.deep_view() + b.deep_view(),
{
    let mut r = a;
    let mut rest = b;
    r.append(&mut rest);
    assert(r.deep_view() =~= a.deep_view() + b.deep_view());
    r
}

/// More items at the end.
pub fn extend<T: DeepView>(l: &mut Vec<T>, more: Vec<T>)
    ensures
        final(l).deep_view() == old(l).deep_view() + more.deep_view(),
{
    let mut rest = more;
    l.append(&mut rest);
    assert(l.deep_view() =~= old(l).deep_view() + more.deep_view());
}

/// An optional text of its own.
pub fn own_text(s: Option<&str>) -> (r: Option<String>)
    ensures
        r.deep_view() == s.deep_view(),
{
    match s {
        Some(t) => Some(text::owned(t)),
        None => None,
    }
}

/// An optional text, borrowed.
pub fn text_ref(s: &Option<String>) -> (r: Option<&str>)
    ensures
        r.deep_view() == s.deep_view(),
{
    match s {
        Some(t) => Some(t.as_str()),
        None => None,
    }
}

/// An optional value of its own.
pub fn own<T: Duplicate>(o: Option<&T>) -> (r: Option<T>)
    ensures
        r.deep_view() == o.deep_view(),
{
    match o {
        Some(v) => Some(v.dup()),
        None => None,
    }
}

/// An optional value, borrowed.
pub fn borrow<T: DeepView>(o: &Option<T>) -> (r: Option<&T>)
    ensures
        r.deep_view() == o.deep_view(),
{
    match o {
        Some(v) => Some(v),
        None => None,
    }
}

/// Whether a text is in a list.
pub fn holds(l: &Vec<String>, s: &str) -> (r: bool)
    ensures
        r == l.deep_view().contains(s@),
{
    assert(l.deep_view() =~= text::views(l@));
    text::listed(l, s)
}

/// The texts with a separator between them.
pub fn join(l: &Vec<String>, sep: &str) -> (r: String)
    ensures
        r@ == text::join_of(l.deep_view(), sep@),
{
    assert(l.deep_view() =~= text::views(l@));
    text::join(l, sep)
}

/// A text cut at every `c`.
pub fn split(s: &str, c: char) -> (r: Vec<String>)
    ensures
        r.deep_view() == text::split(s@, c),
        r@.len() > 0,
{
    let r = text::split_at(s, c);
    assert(r.deep_view() =~= text::views(r@));
    r
}

/// An optional text, borrowed.
pub fn str_ref(s: Option<&String>) -> (r: Option<&str>)
    ensures
        r.deep_view() == s.deep_view(),
{
    match s {
        Some(t) => Some(t.as_str()),
        None => None,
    }
}

/// Texts by character codes.
pub open spec fn sorted_texts(s: Seq<Seq<char>>) -> Seq<Seq<char>> {
    picked(s, order::sorted_by(s.len(), order::by_text(s)))
}

pub fn sort_texts(l: &Vec<String>) -> (r: Vec<String>)
    ensures
        r.deep_view() == sorted_texts(l.deep_view()),
{
    assert(l.deep_view() =~= text::views(l@));
    pick(l, &order::text_order(l))
}

/// The first of each pair.
pub open spec fn firsts<A, B>(s: Seq<(A, B)>) -> Seq<A> {
    Seq::new(s.len(), |i: int| s[i].0)
}

/// Entries by their keys.
pub open spec fn sorted_entries<V>(s: Seq<(Seq<char>, V)>) -> Seq<(Seq<char>, V)> {
    picked(s, order::sorted_by(s.len(), order::by_text(firsts(s))))
}

pub fn sort_entries<T: Duplicate>(l: &Vec<(String, T)>) -> (r: Vec<(String, T)>)
    ensures
        r.deep_view() == sorted_entries(l.deep_view()),
{
    let mut keys: Vec<String> = Vec::new();
    let mut i: usize = 0;
    while i < l.len()
        invariant
            i <= l@.len(),
            keys@.len() == i,
            forall|x: int| 0 <= x < i ==> (#[trigger] keys@[x])@ == l@[x].0@,
        decreases l@.len() - i,
    {
        keys.push(text::owned(l[i].0.as_str()));
        i = i + 1;
    }
    assert(text::views(keys@) =~= firsts(l.deep_view()));
    pick(l, &order::text_order(&keys))
}

/// Entries by their numbers.
pub open spec fn sorted_keyed<V>(s: Seq<(Double, V)>) -> Seq<(Double, V)> {
    picked(s, order::sorted_by(s.len(), order::by_number(firsts(s))))
}

pub fn sort_keyed<T: Duplicate>(l: &Vec<(Double, T)>) -> (r: Vec<(Double, T)>)
    ensures
        r.deep_view() == sorted_keyed(l.deep_view()),
{
    let mut keys: Vec<Double> = Vec::new();
    let mut i: usize = 0;
    while i < l.len()
        invariant
            i <= l@.len(),
            keys@.len() == i,
            forall|x: int| 0 <= x < i ==> #[trigger] keys@[x] == l@[x].0,
        decreases l@.len() - i,
    {
        keys.push(l[i].0);
        i = i + 1;
    }
    assert(keys@ =~= firsts(l.deep_view()));
    pick(l, &order::number_order(&keys))
}

/// Entries by the ranks of their numbers, the highest first.
pub open spec fn sorted_down<V>(s: Seq<(Double, V)>) -> Seq<(Double, V)> {
    picked(s, order::sorted_by(s.len(), order::by_rank_down(firsts(s))))
}

pub fn sort_down<T: Duplicate>(l: &Vec<(Double, T)>) -> (r: Vec<(Double, T)>)
    ensures
        r.deep_view() == sorted_down(l.deep_view()),
{
    let mut keys: Vec<Double> = Vec::new();
    let mut i: usize = 0;
    while i < l.len()
        invariant
            i <= l@.len(),
            keys@.len() == i,
            forall|x: int| 0 <= x < i ==> #[trigger] keys@[x] == l@[x].0,
        decreases l@.len() - i,
    {
        keys.push(l[i].0);
        i = i + 1;
    }
    assert(keys@ =~= firsts(l.deep_view()));
    pick(l, &order::rank_order_down(&keys))
}

/// A list from its end to its start.
pub fn reversed<T: Duplicate>(l: &Vec<T>) -> (r: Vec<T>)
    ensures
        r.deep_view() == l.deep_view().reverse(),
{
    let mut r: Vec<T> = Vec::new();
    let mut i: usize = l.len();
    while i > 0
        invariant
            i <= l@.len(),
            r@.len() == l@.len() - i,
            forall|x: int|
                0 <= x < r@.len() ==> (#[trigger] r@[x]).deep_view() == l@[l@.len() - 1 - x].deep_view(),
        decreases i,
    {
        i = i - 1;
        r.push(l[i].dup());
    }
    assert(r.deep_view() =~= l.deep_view().reverse());
    r
}

/// Numbers, the smaller first.
pub open spec fn sorted_numbers(s: Seq<Double>) -> Seq<Double> {
    picked(s, order::sorted_by(s.len(), order::by_number(s)))
}

pub fn sort_numbers(l: &Vec<Double>) -> (r: Vec<Double>)
    ensures
        r.deep_view() == sorted_numbers(l.deep_view()),
{
    assert(l.deep_view() =~= l@);
    pick(l, &order::number_order(l))
}

/// The sum of a list of numbers.
pub fn sum(l: &Vec<Double>) -> (r: Double)
    ensures
        r == pyfmt::sum_spec(l.deep_view()),
{
    assert(l.deep_view() =~= l@);
    pyfmt::sum(l)
}

/// The last items, fewer where there are fewer.
pub open spec fn ending<V>(s: Seq<V>, n: usize) -> Seq<V> {
    if s.len() <= n {
        s
    } else {
        s.skip(s.len() - n)
    }
}

pub fn tail<T: Duplicate>(l: &Vec<T>, n: usize) -> (r: Vec<T>)
    ensures
        r.deep_view() == ending(l.deep_view(), n),
{
    if l.len() <= n {
        l.dup()
    } else {
        rest(l, l.len() - n)
    }
}

/// What stands between white space.
pub fn words(s: &str) -> (r: Vec<String>)
    ensures
        r.deep_view() == text::words(s@),
{
    let r = text::words_of(s);
    assert(r.deep_view() =~= text::views(r@));
    r
}

/// The lines of a text.
pub fn lines(s: &str) -> (r: Vec<String>)
    ensures
        r.deep_view() == text::lines(s@),
{
    let r = text::lines_of(s);
    assert(r.deep_view() =~= text::views(r@));
    r
}

} // verus!
