//! Stable orderings of the places of a list.
use crate::double::Double;
use crate::text;
use vstd::prelude::*;

verus! {

/// Where `x` goes among `o`: before the first place that it comes before.
pub open spec fn slot(o: Seq<int>, x: int, less: spec_fn(int, int) -> bool, k: int) -> int
    decreases o.len() - k,
{
    if k >= o.len() || less(x, o[k]) {
        k
    } else {
        slot(o, x, less, k + 1)
    }
}

/// The places `0 .. n` in the order of `less`, equal ones as they come.
pub open spec fn sorted_by(n: nat, less: spec_fn(int, int) -> bool) -> Seq<int>
    decreases n,
{
    if n == 0 {
        Seq::empty()
    } else {
        let o = sorted_by((n - 1) as nat, less);
        o.insert(slot(o, n - 1, less, 0), n - 1)
    }
}

pub open spec fn places(v: Seq<usize>) -> Seq<int> {
    Seq::new(v.len(), |i: int| v[i] as int)
}

proof fn lemma_slot(o: Seq<int>, x: int, less: spec_fn(int, int) -> bool, k: int)
    requires
        0 <= k <= o.len(),
    ensures
        k <= slot(o, x, less, k) <= o.len(),
        slot(o, x, less, k) < o.len() ==> less(x, o[slot(o, x, less, k)]),
        forall|j: int| k <= j < slot(o, x, less, k) ==> !less(x, #[trigger] o[j]),
    decreases o.len() - k,
{
    if k < o.len() && !less(x, o[k]) {
        lemma_slot(o, x, less, k + 1);
    }
}

/// Every place occurs, and no other.
pub proof fn lemma_sorted_places(n: nat, less: spec_fn(int, int) -> bool)
    ensures
        sorted_by(n, less).len() == n,
        forall|i: int| 0 <= i < n ==> 0 <= #[trigger] sorted_by(n, less)[i] < n,
        forall|x: int| 0 <= x < n ==> #[trigger] sorted_by(n, less).contains(x),
    decreases n,
{
    if n > 0 {
        let o = sorted_by((n - 1) as nat, less);
        lemma_sorted_places((n - 1) as nat, less);
        lemma_slot(o, n - 1, less, 0);
        let s = slot(o, n - 1, less, 0);
        let r = sorted_by(n, less);
        assert forall|i: int| 0 <= i < n implies 0 <= #[trigger] r[i] < n by {
            if i < s {
                assert(r[i] == o[i]);
            } else if i > s {
                assert(r[i] == o[i - 1]);
            }
        }
        assert forall|x: int| 0 <= x < n implies #[trigger] r.contains(x) by {
            if x == n - 1 {
                assert(r[s] == x);
            } else {
                assert(o.contains(x));
                let i = choose|i: int| 0 <= i < o.len() && o[i] == x;
                if i < s {
                    assert(r[i] == x);
                } else {
                    assert(r[i + 1] == x);
                }
            }
        }
    }
}

/// No place comes after one that it should come before.
pub proof fn lemma_sorted_in_order(n: nat, less: spec_fn(int, int) -> bool, k: int)
    requires
        forall|a: int, b: int| #[trigger] less(a, b) ==> !less(b, a),
        0 <= k < n - 1,
    ensures
        !less(sorted_by(n, less)[k + 1], sorted_by(n, less)[k]),
    decreases n,
{
    let o = sorted_by((n - 1) as nat, less);
    lemma_sorted_places((n - 1) as nat, less);
    lemma_slot(o, n - 1, less, 0);
    let s = slot(o, n - 1, less, 0);
    let r = sorted_by(n, less);
    if k + 1 < s {
        lemma_sorted_in_order((n - 1) as nat, less, k);
        assert(r[k] == o[k] && r[k + 1] == o[k + 1]);
    } else if k > s {
        lemma_sorted_in_order((n - 1) as nat, less, k - 1);
        assert(r[k] == o[k - 1] && r[k + 1] == o[k]);
    } else if k + 1 == s {
        assert(r[k] == o[k] && r[k + 1] == n - 1);
    } else {
        assert(r[k] == n - 1 && r[k + 1] == o[k]);
    }
}

/// By character codes.
pub open spec fn by_text(keys: Seq<Seq<char>>) -> spec_fn(int, int) -> bool {
    |a: int, b: int| text::before(keys[a], keys[b])
}

/// The smaller first.
pub open spec fn by_number(keys: Seq<Double>) -> spec_fn(int, int) -> bool {
    |a: int, b: int| keys[a].lt_spec(keys[b])
}

/// The larger first, in the total order of all patterns.
pub open spec fn by_rank_down(keys: Seq<Double>) -> spec_fn(int, int) -> bool {
    |a: int, b: int| keys[b].rank() < keys[a].rank()
}

/// The larger first.
pub open spec fn by_number_down(keys: Seq<Double>) -> spec_fn(int, int) -> bool {
    |a: int, b: int| keys[b].lt_spec(keys[a])
}

fn insert_place(o: &mut Vec<usize>, at: usize, x: usize)
    requires
        at <= old(o)@.len(),
    ensures
        places(final(o)@) == places(old(o)@).insert(at as int, x as int),
        final(o)@.len() == old(o)@.len() + 1,
{
    let ghost before = o@;
    o.insert(at, x);
    assert(places(o@) =~= places(before).insert(at as int, x as int));
}

/// The places of a list of texts, by character codes.
pub fn text_order(keys: &Vec<String>) -> (r: Vec<usize>)
    ensures
        places(r@) == sorted_by(keys@.len(), by_text(text::views(keys@))),
        forall|i: int| 0 <= i < r@.len() ==> #[trigger] r@[i] < keys@.len(),
        r@.len() == keys@.len(),
{
    let ghost less = by_text(text::views(keys@));
    let mut o: Vec<usize> = Vec::new();
    assert(places(o@) =~= Seq::empty());
    let mut i: usize = 0;
    while i < keys.len()
        invariant
            i <= keys@.len(),
            less == by_text(text::views(keys@)),
            places(o@) == sorted_by(i as nat, less),
            o@.len() == i,
        decreases keys@.len() - i,
    {
        let mut k: usize = 0;
        proof {
            lemma_sorted_places(i as nat, less);
            lemma_slot(places(o@), i as int, less, 0);
        }
        while k < o.len()
            invariant_except_break
                slot(places(o@), i as int, less, 0) == slot(places(o@), i as int, less, k as int),
            invariant
                k <= o@.len(),
                i < keys@.len(),
                less == by_text(text::views(keys@)),
                forall|x: int| 0 <= x < o@.len() ==> 0 <= #[trigger] places(o@)[x] < i,
            ensures
                k == slot(places(o@), i as int, less, 0),
            decreases o@.len() - k,
        {
            assert(places(o@)[k as int] == o@[k as int]);
            if text::sorts_before(keys[i].as_str(), keys[o[k]].as_str()) {
                break;
            }
            k = k + 1;
        }
        insert_place(&mut o, k, i);
        i = i + 1;
    }
    proof {
        lemma_sorted_places(keys@.len(), less);
        assert forall|i: int| 0 <= i < o@.len() implies #[trigger] o@[i] < keys@.len() by {
            assert(places(o@)[i] == o@[i]);
        }
    }
    o
}

/// The places of a list of numbers, the smaller first.
pub fn number_order(keys: &Vec<Double>) -> (r: Vec<usize>)
    ensures
        places(r@) == sorted_by(keys@.len(), by_number(keys@)),
        forall|i: int| 0 <= i < r@.len() ==> #[trigger] r@[i] < keys@.len(),
        r@.len() == keys@.len(),
{
    let ghost less = by_number(keys@);
    let mut o: Vec<usize> = Vec::new();
    assert(places(o@) =~= Seq::empty());
    let mut i: usize = 0;
    while i < keys.len()
        invariant
            i <= keys@.len(),
            less == by_number(keys@),
            places(o@) == sorted_by(i as nat, less),
            o@.len() == i,
        decreases keys@.len() - i,
    {
        let mut k: usize = 0;
        proof {
            lemma_sorted_places(i as nat, less);
            lemma_slot(places(o@), i as int, less, 0);
        }
        while k < o.len()
            invariant_except_break
                slot(places(o@), i as int, less, 0) == slot(places(o@), i as int, less, k as int),
            invariant
                k <= o@.len(),
                i < keys@.len(),
                less == by_number(keys@),
                forall|x: int| 0 <= x < o@.len() ==> 0 <= #[trigger] places(o@)[x] < i,
            ensures
                k == slot(places(o@), i as int, less, 0),
            decreases o@.len() - k,
        {
            assert(places(o@)[k as int] == o@[k as int]);
            if keys[i].lt(keys[o[k]]) {
                break;
            }
            k = k + 1;
        }
        insert_place(&mut o, k, i);
        i = i + 1;
    }
    proof {
        lemma_sorted_places(keys@.len(), less);
        assert forall|i: int| 0 <= i < o@.len() implies #[trigger] o@[i] < keys@.len() by {
            assert(places(o@)[i] == o@[i]);
        }
    }
    o
}

/// The places of a list of numbers, the larger first.
pub fn number_order_down(keys: &Vec<Double>) -> (r: Vec<usize>)
    ensures
        places(r@) == sorted_by(keys@.len(), by_number_down(keys@)),
        forall|i: int| 0 <= i < r@.len() ==> #[trigger] r@[i] < keys@.len(),
        r@.len() == keys@.len(),
{
    let ghost less = by_number_down(keys@);
    let mut o: Vec<usize> = Vec::new();
    assert(places(o@) =~= Seq::empty());
    let mut i: usize = 0;
    while i < keys.len()
        invariant
            i <= keys@.len(),
            less == by_number_down(keys@),
            places(o@) == sorted_by(i as nat, less),
            o@.len() == i,
        decreases keys@.len() - i,
    {
        let mut k: usize = 0;
        proof {
            lemma_sorted_places(i as nat, less);
            lemma_slot(places(o@), i as int, less, 0);
        }
        while k < o.len()
            invariant_except_break
                slot(places(o@), i as int, less, 0) == slot(places(o@), i as int, less, k as int),
            invariant
                k <= o@.len(),
                i < keys@.len(),
                less == by_number_down(keys@),
                forall|x: int| 0 <= x < o@.len() ==> 0 <= #[trigger] places(o@)[x] < i,
            ensures
                k == slot(places(o@), i as int, less, 0),
            decreases o@.len() - k,
        {
            assert(places(o@)[k as int] == o@[k as int]);
            if keys[o[k]].lt(keys[i]) {
                break;
            }
            k = k + 1;
        }
        insert_place(&mut o, k, i);
        i = i + 1;
    }
    proof {
        lemma_sorted_places(keys@.len(), less);
        assert forall|i: int| 0 <= i < o@.len() implies #[trigger] o@[i] < keys@.len() by {
            assert(places(o@)[i] == o@[i]);
        }
    }
    o
}

/// The places of a list of numbers, the larger first, in the total order of all patterns.
pub fn rank_order_down(keys: &Vec<Double>) -> (r: Vec<usize>)
    ensures
        places(r@) == sorted_by(keys@.len(), by_rank_down(keys@)),
        forall|i: int| 0 <= i < r@.len() ==> #[trigger] r@[i] < keys@.len(),
        r@.len() == keys@.len(),
{
    let ghost less = by_rank_down(keys@);
    let mut o: Vec<usize> = Vec::new();
    assert(places(o@) =~= Seq::empty());
    let mut i: usize = 0;
    while i < keys.len()
        invariant
            i <= keys@.len(),
            less == by_rank_down(keys@),
            places(o@) == sorted_by(i as nat, less),
            o@.len() == i,
        decreases keys@.len() - i,
    {
        let mut k: usize = 0;
        proof {
            lemma_sorted_places(i as nat, less);
            lemma_slot(places(o@), i as int, less, 0);
        }
        while k < o.len()
            invariant_except_break
                slot(places(o@), i as int, less, 0) == slot(places(o@), i as int, less, k as int),
            invariant
                k <= o@.len(),
                i < keys@.len(),
                less == by_rank_down(keys@),
                forall|x: int| 0 <= x < o@.len() ==> 0 <= #[trigger] places(o@)[x] < i,
            ensures
                k == slot(places(o@), i as int, less, 0),
            decreases o@.len() - k,
        {
            assert(places(o@)[k as int] == o@[k as int]);
            if keys[o[k]].ranks_before(keys[i]) {
                break;
            }
            k = k + 1;
        }
        insert_place(&mut o, k, i);
        i = i + 1;
    }
    proof {
        lemma_sorted_places(keys@.len(), less);
        assert forall|i: int| 0 <= i < o@.len() implies #[trigger] o@[i] < keys@.len() by {
            assert(places(o@)[i] == o@[i]);
        }
    }
    o
}

} // verus!
