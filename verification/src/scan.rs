//! Reading rows and other items one after another: what is collected, and where it stops.

use vstd::prelude::*;

use crate::errors::{viewed, MetastoreError};
use crate::bytes::{lex_lt, lex_lt_asymmetric};
use crate::store::{ascending, lookup, write_one, write_row, write_rows, write_rows_concat, writes_key};
use crate::store::{RowView, Rows, WriteView};

verus! {

/// What one row or item contributes: nothing, a value, or an error.
pub type Contribution<T> = Result<Option<T>, MetastoreError>;

/// The values that rows contribute, in order, up to a limit. The first error ends the scan,
/// unless the limit is reached before it.
pub open spec fn collect<A, T>(
    rows: Seq<A>,
    f: spec_fn(A) -> Contribution<T>,
    limit: nat,
) -> Result<Seq<T>, MetastoreError>
    decreases rows.len(),
{
    if limit == 0 || rows.len() == 0 {
        Ok(Seq::empty())
    } else {
        match f(rows[0]) {
            Err(e) => Err(e),
            Ok(None) => collect(rows.skip(1), f, limit),
            Ok(Some(x)) => prepended(seq![x], collect(rows.skip(1), f, (limit - 1) as nat)),
        }
    }
}

/// All items that rows contribute.
pub open spec fn collect_all<A, T>(
    rows: Seq<A>,
    f: spec_fn(A) -> Contribution<T>,
) -> Result<Seq<T>, MetastoreError> {
    collect(rows, f, rows.len())
}

pub open spec fn prepended<T>(
    first: Seq<T>,
    rest: Result<Seq<T>, MetastoreError>,
) -> Result<Seq<T>, MetastoreError> {
    match rest {
        Ok(xs) => Ok(first + xs),
        Err(e) => Err(e),
    }
}

/// After `i` rows the scan has collected `out`.
spec fn at<A, T>(
    rows: Seq<A>,
    f: spec_fn(A) -> Contribution<T>,
    limit: nat,
    i: int,
    out: Seq<T>,
) -> bool {
    &&& out.len() <= limit
    &&& out.len() <= i
    &&& collect(rows, f, limit) == prepended(
        out,
        collect(rows.skip(i), f, (limit - out.len()) as nat),
    )
}

proof fn at_step<A, T>(
    rows: Seq<A>,
    f: spec_fn(A) -> Contribution<T>,
    limit: nat,
    i: int,
    out: Seq<T>,
)
    requires
        0 <= i < rows.len(),
        out.len() < limit,
        at(rows, f, limit, i, out),
    ensures
        match f(rows[i]) {
            Err(e) => collect(rows, f, limit) == Err::<Seq<T>, MetastoreError>(e),
            Ok(None) => at(rows, f, limit, i + 1, out),
            Ok(Some(x)) => at(rows, f, limit, i + 1, out.push(x)),
        },
{
    let rest = rows.skip(i);
    assert(rest[0] == rows[i]);
    assert(rest.skip(1) =~= rows.skip(i + 1));
    if let Ok(Some(x)) = f(rows[i]) {
        if let Ok(xs) = collect(rows.skip(i + 1), f, (limit - out.len() - 1) as nat) {
            assert(out + (seq![x] + xs) =~= out.push(x) + xs);
        }
    }
}

/// A row contributes at most a write to its own key.
pub open spec fn rewrites(row: RowView, c: Contribution<WriteView>) -> bool {
    c matches Ok(w) && (w matches Some(w) ==> writes_key(w) == row.key)
}

/// What a row holds after the write that it contributes.
pub open spec fn rewritten(row: RowView, c: Contribution<WriteView>) -> Option<Seq<u8>> {
    match c {
        Ok(Some(WriteView::Put { key, value })) => Some(value),
        Ok(Some(WriteView::Remove { key })) => None,
        _ => Some(row.value),
    }
}

/// Where each row of a scan contributes at most a write to itself, the writes change each
/// row as that row says, and no other row.
pub proof fn rewriting_rows(
    m: Rows,
    rows: Seq<RowView>,
    f: spec_fn(RowView) -> Contribution<WriteView>,
    limit: nat,
    key: Seq<u8>,
)
    requires
        limit >= rows.len(),
        ascending(rows),
        forall|i: int| 0 <= i < rows.len() ==> rewrites(#[trigger] rows[i], f(rows[i])),
        forall|i: int|
            0 <= i < rows.len() ==> m.contains_key((#[trigger] rows[i]).key) && m[rows[i].key]
                == rows[i].value,
    ensures
        collect(rows, f, limit) is Ok,
        forall|i: int|
            0 <= i < rows.len() && (#[trigger] rows[i]).key == key ==> lookup(
                write_rows(m, collect(rows, f, limit)->Ok_0),
                key,
            ) == rewritten(rows[i], f(rows[i])),
        (forall|i: int| 0 <= i < rows.len() ==> (#[trigger] rows[i]).key != key) ==> lookup(
            write_rows(m, collect(rows, f, limit)->Ok_0),
            key,
        ) == lookup(m, key),
    decreases rows.len(),
{
    if rows.len() > 0 {
        let t = rows.skip(1);
        let head = rows[0];
        assert(rewrites(head, f(head)));
        assert(ascending(t)) by {
            assert forall|i: int, j: int| 0 <= i < j < t.len() implies lex_lt(
                #[trigger] t[i].key,
                #[trigger] t[j].key,
            ) by {
                assert(t[i] == rows[i + 1] && t[j] == rows[j + 1]);
            }
        }
        assert forall|i: int| 0 <= i < t.len() implies rewrites(#[trigger] t[i], f(t[i]))
            && m.contains_key(t[i].key) && m[t[i].key] == t[i].value && t[i].key != head.key by {
            assert(t[i] == rows[i + 1]);
            lex_lt_asymmetric(rows[0].key, rows[i + 1].key);
        }
        if let Ok(Some(w)) = f(head) {
            let m2 = write_row(m, w);
            rewriting_rows(m2, t, f, (limit - 1) as nat, key);
            let ws = collect(t, f, (limit - 1) as nat)->Ok_0;
            write_one(m, w);
            write_rows_concat(m, seq![w], ws);
            assert(rewritten(head, f(head)) == lookup(m2, head.key));
            assert forall|i: int| 0 <= i < rows.len() && (#[trigger] rows[i]).key == key implies lookup(
                write_rows(m, collect(rows, f, limit)->Ok_0),
                key,
            ) == rewritten(rows[i], f(rows[i])) by {
                if i > 0 {
                    assert(t[i - 1].key == key);
                }
            }
            if forall|i: int| 0 <= i < rows.len() ==> (#[trigger] rows[i]).key != key {
                assert(rows[0].key != key);
                assert forall|i: int| 0 <= i < t.len() implies (#[trigger] t[i]).key != key by {
                    assert(rows[i + 1].key != key);
                }
            }
        } else {
            rewriting_rows(m, t, f, limit, key);
            assert forall|i: int| 0 <= i < rows.len() && (#[trigger] rows[i]).key == key implies lookup(
                write_rows(m, collect(rows, f, limit)->Ok_0),
                key,
            ) == rewritten(rows[i], f(rows[i])) by {
                if i > 0 {
                    assert(t[i - 1].key == key);
                }
            }
            if forall|i: int| 0 <= i < rows.len() ==> (#[trigger] rows[i]).key != key {
                assert forall|i: int| 0 <= i < t.len() implies (#[trigger] t[i]).key != key by {
                    assert(rows[i + 1].key != key);
                }
            }
        }
    }
}

/// Where no row contributes anything, nothing is collected.
pub proof fn collect_nothing<A, T>(
    rows: Seq<A>,
    f: spec_fn(A) -> Contribution<T>,
    limit: nat,
)
    requires
        forall|i: int| 0 <= i < rows.len() ==> f(#[trigger] rows[i]) == Contribution::<T>::Ok(None),
    ensures
        collect(rows, f, limit) == Ok::<Seq<T>, MetastoreError>(Seq::empty()),
    decreases rows.len(),
{
    if limit > 0 && rows.len() > 0 {
        let t = rows.skip(1);
        assert(f(rows[0]) == Contribution::<T>::Ok(None));
        assert forall|i: int| 0 <= i < t.len() implies f(#[trigger] t[i]) == Contribution::<T>::Ok(
            None,
        ) by {
            assert(t[i] == rows[i + 1]);
        }
        collect_nothing(t, f, limit);
    }
}

/// A limit cuts off what would be collected without one, and changes nothing else of it.
pub proof fn collect_is_first<A, T>(
    rows: Seq<A>,
    f: spec_fn(A) -> Contribution<T>,
    all: nat,
    limit: nat,
)
    requires
        all >= rows.len(),
        collect(rows, f, all) is Ok,
    ensures
        collect(rows, f, limit) matches Ok(xs) && {
            let ys = collect(rows, f, all)->Ok_0;
            &&& xs.len() == if limit <= ys.len() {
                limit
            } else {
                ys.len()
            }
            &&& forall|i: int| 0 <= i < xs.len() ==> #[trigger] xs[i] == ys[i]
        },
    decreases rows.len(),
{
    if rows.len() > 0 && limit > 0 {
        let t = rows.skip(1);
        match f(rows[0]) {
            Ok(Some(x)) => {
                collect_is_first(t, f, (all - 1) as nat, (limit - 1) as nat);
                let xs = collect(t, f, (limit - 1) as nat)->Ok_0;
                let ys = collect(t, f, (all - 1) as nat)->Ok_0;
                let xx = collect(rows, f, limit)->Ok_0;
                let yy = collect(rows, f, all)->Ok_0;
                assert(xx == seq![x] + xs);
                assert(yy == seq![x] + ys);
                assert forall|i: int| 0 <= i < xx.len() implies #[trigger] xx[i] == yy[i] by {
                    if i > 0 {
                        assert(xx[i] == xs[i - 1]);
                        assert(yy[i] == ys[i - 1]);
                    }
                }
            },
            _ => {
                collect_is_first(t, f, all, limit);
            },
        }
    }
}

/// What is collected is what the rows contribute.
pub proof fn collected<A, T>(
    rows: Seq<A>,
    f: spec_fn(A) -> Contribution<T>,
    limit: nat,
    x: T,
)
    requires
        limit >= rows.len(),
        collect(rows, f, limit) is Ok,
    ensures
        collect(rows, f, limit)->Ok_0.contains(x) <==> exists|i: int|
            0 <= i < rows.len() && f(#[trigger] rows[i]) == Contribution::<T>::Ok(Some(x)),
    decreases rows.len(),
{
    if rows.len() > 0 {
        let t = rows.skip(1);
        let all = collect(rows, f, limit)->Ok_0;
        match f(rows[0]) {
            Ok(Some(y)) => {
                collected(t, f, (limit - 1) as nat, x);
                let rest = collect(t, f, (limit - 1) as nat)->Ok_0;
                assert(all == seq![y] + rest);
                if all.contains(x) {
                    let i = choose|i: int| 0 <= i < all.len() && all[i] == x;
                    if i == 0 {
                        assert(f(rows[0]) == Contribution::<T>::Ok(Some(x)));
                    } else {
                        assert(rest[i - 1] == x);
                    }
                }
                if x == y {
                    assert(all[0] == x);
                }
                if rest.contains(x) {
                    let i = choose|i: int| 0 <= i < rest.len() && rest[i] == x;
                    assert(all[i + 1] == x);
                }
            },
            _ => {
                collected(t, f, limit, x);
            },
        }
        if exists|i: int| 0 <= i < t.len() && f(#[trigger] t[i]) == Contribution::<T>::Ok(Some(x)) {
            let i = choose|i: int|
                0 <= i < t.len() && f(#[trigger] t[i]) == Contribution::<T>::Ok(Some(x));
            assert(f(rows[i + 1]) == Contribution::<T>::Ok(Some(x)));
        }
        if exists|i: int|
            0 <= i < rows.len() && f(#[trigger] rows[i]) == Contribution::<T>::Ok(Some(x)) {
            let i = choose|i: int|
                0 <= i < rows.len() && f(#[trigger] rows[i]) == Contribution::<T>::Ok(Some(x));
            if i > 0 {
                assert(f(t[i - 1]) == Contribution::<T>::Ok(Some(x)));
            }
        }
    }
}

/// A way to read rows or other items.
pub trait Reader {
    type In: DeepView;

    type Item: DeepView;

    spec fn reading(&self) -> spec_fn(<Self::In as DeepView>::V) -> Contribution<
        <Self::Item as DeepView>::V,
    >;

    fn read(&self, x: &Self::In) -> (r: Contribution<Self::Item>)
        ensures
            viewed(r) == (self.reading())(x.deep_view()),
    ;
}

/// Collects the values that items contribute, up to a limit.
pub fn collect_items<R: Reader>(items: &[R::In], reader: &R, limit: usize) -> (r: Result<
    Vec<R::Item>,
    MetastoreError,
>)
    ensures
        viewed(r) == collect(items.deep_view(), reader.reading(), limit as nat),
{
    let ghost all = items.deep_view();
    let ghost f = reader.reading();
    let mut out: Vec<R::Item> = Vec::new();
    let mut i: usize = 0;
    proof {
        assert(all.skip(0) =~= all);
        assert(out.deep_view() =~= Seq::empty());
        if let Ok(xs) = collect(all, f, limit as nat) {
            assert(out.deep_view() + xs =~= xs);
        }
    }
    while i < items.len() && out.len() < limit
        invariant
            i <= items@.len(),
            all == items.deep_view(),
            f == reader.reading(),
            at(all, f, limit as nat, i as int, out.deep_view()),
        decreases items@.len() - i,
    {
        proof {
            at_step(all, f, limit as nat, i as int, out.deep_view());
        }
        let ghost before = out.deep_view();
        match reader.read(&items[i]) {
            Err(e) => {
                return Err(e);
            },
            Ok(None) => {},
            Ok(Some(x)) => {
                out.push(x);
                assert(out.deep_view() =~= before.push(x.deep_view()));
            },
        }
        i = i + 1;
    }
    proof {
        let rest = collect(all.skip(i as int), f, (limit - out.deep_view().len()) as nat);
        assert(rest == Ok::<Seq<<R::Item as DeepView>::V>, MetastoreError>(Seq::empty()));
        assert(out.deep_view() + Seq::empty() =~= out.deep_view());
    }
    Ok(out)
}

/// Collects all values that items contribute.
pub fn collect_all_items<R: Reader>(items: &[R::In], reader: &R) -> (r: Result<
    Vec<R::Item>,
    MetastoreError,
>)
    ensures
        viewed(r) == collect_all(items.deep_view(), reader.reading()),
{
    collect_items(items, reader, items.len())
}

/// A count as a signed number, at most the largest one.
pub open spec fn saturated(n: nat) -> i64 {
    if n <= i64::MAX {
        n as i64
    } else {
        i64::MAX
    }
}

pub fn saturate(n: usize) -> (r: i64)
    ensures
        r == saturated(n as nat),
{
    if n as u64 <= i64::MAX as u64 {
        n as i64
    } else {
        i64::MAX
    }
}

/// A limit as a count; a negative one counts as zero.
pub open spec fn count_limit(n: i64) -> nat {
    if n < 0 || n > usize::MAX {
        0
    } else {
        n as nat
    }
}

pub fn limit_of(n: i64) -> (r: usize)
    ensures
        r == count_limit(n),
{
    if n < 0 || n as u64 > usize::MAX as u64 {
        0
    } else {
        n as usize
    }
}

} // verus!
