//! Sorting by a number, where items with the same number keep their order.

use vstd::prelude::*;

verus! {

/// A sorted sequence with one more item, before all others whose number is no smaller.
pub open spec fn inserted<V>(s: Seq<V>, x: V, f: spec_fn(V) -> int) -> Seq<V>
    decreases s.len(),
{
    if s.len() == 0 || f(x) <= f(s[0]) {
        seq![x] + s
    } else {
        seq![s[0]] + inserted(s.skip(1), x, f)
    }
}

/// The items of a sequence by their numbers, the smallest first.
pub open spec fn stable_sorted<V>(s: Seq<V>, f: spec_fn(V) -> int) -> Seq<V>
    decreases s.len(),
{
    if s.len() == 0 {
        s
    } else {
        inserted(stable_sorted(s.skip(1), f), s[0], f)
    }
}

/// The numbers do not decrease from item to item.
pub open spec fn in_order<V>(s: Seq<V>, f: spec_fn(V) -> int) -> bool {
    forall|i: int, j: int| 0 <= i <= j < s.len() ==> f(#[trigger] s[i]) <= f(#[trigger] s[j])
}

/// The items with one number, in their order.
pub open spec fn numbered<V>(s: Seq<V>, f: spec_fn(V) -> int, n: int) -> Seq<V>
    decreases s.len(),
{
    if s.len() == 0 {
        s
    } else if f(s[0]) == n {
        seq![s[0]] + numbered(s.skip(1), f, n)
    } else {
        numbered(s.skip(1), f, n)
    }
}

proof fn inserted_in_order<V>(s: Seq<V>, x: V, f: spec_fn(V) -> int)
    requires
        in_order(s, f),
    ensures
        in_order(inserted(s, x, f), f),
        inserted(s, x, f).len() == s.len() + 1,
        forall|i: int|
            0 <= i <= s.len() ==> f(x) <= f(#[trigger] inserted(s, x, f)[i]) || (s.len() > 0 && f(
                s[0],
            ) <= f(inserted(s, x, f)[i])),
    decreases s.len(),
{
    if s.len() == 0 || f(x) <= f(s[0]) {
        let t = seq![x] + s;
        assert forall|i: int, j: int| 0 <= i <= j < t.len() implies f(#[trigger] t[i]) <= f(
            #[trigger] t[j],
        ) by {
            if i > 0 {
                assert(t[i] == s[i - 1] && t[j] == s[j - 1]);
            } else if j > 0 {
                assert(t[j] == s[j - 1]);
                assert(f(s[0]) <= f(s[j - 1]));
            }
        }
        assert forall|i: int| 0 <= i <= s.len() implies f(x) <= f(#[trigger] t[i]) by {
            assert(f(t[0]) <= f(t[i]));
        }
    } else {
        let rest = s.skip(1);
        assert forall|i: int, j: int| 0 <= i <= j < rest.len() implies f(#[trigger] rest[i]) <= f(
            #[trigger] rest[j],
        ) by {
            assert(rest[i] == s[i + 1] && rest[j] == s[j + 1]);
        }
        inserted_in_order(rest, x, f);
        let u = inserted(rest, x, f);
        let t = seq![s[0]] + u;
        assert forall|i: int| 0 <= i < u.len() implies f(s[0]) <= f(#[trigger] u[i]) by {
            if rest.len() > 0 {
                assert(rest[0] == s[1]);
                assert(f(s[0]) <= f(s[1]));
            }
        }
        assert forall|i: int, j: int| 0 <= i <= j < t.len() implies f(#[trigger] t[i]) <= f(
            #[trigger] t[j],
        ) by {
            if i > 0 {
                assert(t[i] == u[i - 1] && t[j] == u[j - 1]);
            } else if j > 0 {
                assert(t[j] == u[j - 1]);
            }
        }
        assert forall|i: int| 0 <= i <= s.len() implies f(s[0]) <= f(#[trigger] t[i]) by {
            assert(f(t[0]) <= f(t[i]));
        }
    }
}

/// Sorting puts the smallest numbers first.
pub proof fn sorted_in_order<V>(s: Seq<V>, f: spec_fn(V) -> int)
    ensures
        in_order(stable_sorted(s, f), f),
        stable_sorted(s, f).len() == s.len(),
    decreases s.len(),
{
    if s.len() > 0 {
        sorted_in_order(s.skip(1), f);
        inserted_in_order(stable_sorted(s.skip(1), f), s[0], f);
    }
}

proof fn inserted_numbered<V>(s: Seq<V>, x: V, f: spec_fn(V) -> int, n: int)
    requires
        in_order(s, f),
    ensures
        numbered(inserted(s, x, f), f, n) == (if f(x) == n {
            seq![x] + numbered(s, f, n)
        } else {
            numbered(s, f, n)
        }),
    decreases s.len(),
{
    if s.len() == 0 || f(x) <= f(s[0]) {
        assert((seq![x] + s).skip(1) =~= s);
    } else {
        let rest = s.skip(1);
        assert forall|i: int, j: int| 0 <= i <= j < rest.len() implies f(#[trigger] rest[i]) <= f(
            #[trigger] rest[j],
        ) by {
            assert(rest[i] == s[i + 1] && rest[j] == s[j + 1]);
        }
        inserted_numbered(rest, x, f, n);
        assert((seq![s[0]] + inserted(rest, x, f)).skip(1) =~= inserted(rest, x, f));
    }
}

/// Sorting keeps all items, and those with the same number in their order.
pub proof fn sorted_keeps_items<V>(s: Seq<V>, f: spec_fn(V) -> int, n: int)
    ensures
        numbered(stable_sorted(s, f), f, n) == numbered(s, f, n),
    decreases s.len(),
{
    if s.len() > 0 {
        sorted_keeps_items(s.skip(1), f, n);
        sorted_in_order(s.skip(1), f);
        inserted_numbered(stable_sorted(s.skip(1), f), s[0], f, n);
    }
}

/// Sorting neither drops nor makes up an item.
pub proof fn sorting_keeps<V>(s: Seq<V>, f: spec_fn(V) -> int, x: V)
    ensures
        stable_sorted(s, f).contains(x) <==> s.contains(x),
{
    sorted_keeps_items(s, f, f(x));
    with_its_number(s, f, x);
    with_its_number(stable_sorted(s, f), f, x);
}

proof fn with_its_number<V>(s: Seq<V>, f: spec_fn(V) -> int, x: V)
    ensures
        s.contains(x) <==> numbered(s, f, f(x)).contains(x),
    decreases s.len(),
{
    if s.len() > 0 {
        let t = s.skip(1);
        with_its_number(t, f, x);
        let rest = numbered(t, f, f(x));
        let all = numbered(s, f, f(x));
        if s.contains(x) {
            let i = choose|i: int| 0 <= i < s.len() && s[i] == x;
            if i == 0 {
                assert(all[0] == x);
            } else {
                assert(t[i - 1] == x);
            }
        }
        if t.contains(x) {
            let i = choose|i: int| 0 <= i < t.len() && t[i] == x;
            assert(s[i + 1] == x);
        }
        if rest.contains(x) && f(s[0]) == f(x) {
            let i = choose|i: int| 0 <= i < rest.len() && rest[i] == x;
            assert(all[i + 1] == x);
        }
        if all.contains(x) && f(s[0]) == f(x) {
            let i = choose|i: int| 0 <= i < all.len() && all[i] == x;
            if i == 0 {
                assert(s[0] == x);
            } else {
                assert(rest[i - 1] == x);
            }
        }
    }
}

/// The number by which items are sorted.
pub trait SortNumber {
    type Item: DeepView;

    spec fn numbering(&self) -> spec_fn(<Self::Item as DeepView>::V) -> int;

    fn number(&self, x: &Self::Item) -> (r: i128)
        ensures
            r == (self.numbering())(x.deep_view()),
    ;
}

proof fn inserted_at<V>(s: Seq<V>, x: V, f: spec_fn(V) -> int, p: int)
    requires
        0 <= p <= s.len(),
        forall|i: int| 0 <= i < p ==> f(#[trigger] s[i]) < f(x),
        p < s.len() ==> f(x) <= f(s[p]),
    ensures
        inserted(s, x, f) == s.insert(p, x),
    decreases s.len(),
{
    if p == 0 {
        assert(s.insert(0, x) =~= seq![x] + s);
    } else {
        let rest = s.skip(1);
        assert(f(s[0]) < f(x));
        assert forall|i: int| 0 <= i < p - 1 implies f(#[trigger] rest[i]) < f(x) by {
            assert(rest[i] == s[i + 1]);
        }
        inserted_at(rest, x, f, p - 1);
        assert(s.insert(p, x) =~= seq![s[0]] + rest.insert(p - 1, x));
    }
}

/// Sorts items by their numbers.
pub fn sort_items<N: SortNumber>(items: Vec<N::Item>, by: &N) -> (r: Vec<N::Item>)
    ensures
        r.deep_view() == stable_sorted(items.deep_view(), by.numbering()),
{
    let ghost all = items.deep_view();
    let ghost f = by.numbering();
    let mut items: Vec<N::Item> = items;
    let mut out: Vec<N::Item> = Vec::new();
    proof {
        assert(all.skip(all.len() as int) =~= Seq::empty());
        assert(out.deep_view() =~= Seq::empty());
    }
    while items.len() > 0
        invariant
            f == by.numbering(),
            items@.len() <= all.len(),
            items.deep_view() == all.take(items@.len() as int),
            out.deep_view() == stable_sorted(all.skip(items@.len() as int), f),
        decreases items@.len(),
    {
        let ghost n = items@.len() as int;
        let ghost before = items.deep_view();
        match items.pop() {
            None => {},
            Some(x) => {
                let ghost s = out.deep_view();
                let ghost v = x.deep_view();
                proof {
                    assert(before[n - 1] == v);
                    assert(all[n - 1] == v);
                    assert(items.deep_view() =~= all.take(n - 1));
                    assert(all.skip(n - 1).skip(1) =~= all.skip(n));
                    assert(all.skip(n - 1)[0] == v);
                }
                let target: i128 = by.number(&x);
                let mut p: usize = 0;
                while p < out.len() && by.number(&out[p]) < target
                    invariant
                        p <= out@.len(),
                        f == by.numbering(),
                        s == out.deep_view(),
                        target == f(v),
                        forall|i: int| 0 <= i < p ==> f(#[trigger] s[i]) < f(v),
                    ensures
                        p <= out@.len(),
                        forall|i: int| 0 <= i < p ==> f(#[trigger] s[i]) < f(v),
                        p < out@.len() ==> f(v) <= f(s[p as int]),
                    decreases out.len() - p,
                {
                    p = p + 1;
                }
                proof {
                    inserted_at(s, v, f, p as int);
                }
                out.insert(p, x);
                assert(out.deep_view() =~= s.insert(p as int, v));
            },
        }
    }
    assert(all.skip(0) =~= all);
    out
}

} // verus!
