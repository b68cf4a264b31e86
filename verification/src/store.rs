//! Keyspaces: ordered key-value rows, read by key, by prefix and by range, and changed
//! by batches of writes.
//!
//! A keyspace keeps a journal of the writes committed to it. Whoever owns the durable
//! copy takes the journal and performs the same writes there.

use vstd::prelude::*;

use crate::bytes::{copy_bytes, has_prefix, lex_le, lex_lt, lex_lt_asymmetric, lex_lt_irreflexive};
use crate::bytes::{lex_lt_total, lex_lt_transitive, precedes, same_bytes};
use crate::encoding::{exclusive_upper_bound, upper_bound, upper_bound_delimits_prefix};

verus! {

/// A row of a keyspace.
#[derive(Debug, PartialEq, Eq)]
pub struct Row {
    pub key: Vec<u8>,
    pub value: Vec<u8>,
}

pub struct RowView {
    pub key: Seq<u8>,
    pub value: Seq<u8>,
}

impl DeepView for Row {
    type V = RowView;

    open spec fn deep_view(&self) -> RowView {
        RowView { key: self.key@, value: self.value@ }
    }
}

/// A write to a keyspace.
#[derive(Debug, PartialEq, Eq)]
pub enum Write {
    Put { key: Vec<u8>, value: Vec<u8> },
    Remove { key: Vec<u8> },
}

pub enum WriteView {
    Put { key: Seq<u8>, value: Seq<u8> },
    Remove { key: Seq<u8> },
}

impl DeepView for Write {
    type V = WriteView;

    open spec fn deep_view(&self) -> WriteView {
        match self {
            Write::Put { key, value } => WriteView::Put { key: key@, value: value@ },
            Write::Remove { key } => WriteView::Remove { key: key@ },
        }
    }
}

/// The rows of a keyspace by key.
pub type Rows = Map<Seq<u8>, Seq<u8>>;

/// A keyspace: its rows, and the writes that its journal holds.
#[verifier::ext_equal]
pub struct KeyspaceView {
    pub rows: Rows,
    pub journal: Seq<WriteView>,
}

/// The rows after one write.
pub open spec fn write_row(rows: Rows, w: WriteView) -> Rows {
    match w {
        WriteView::Put { key, value } => rows.insert(key, value),
        WriteView::Remove { key } => rows.remove(key),
    }
}

/// The rows after a sequence of writes.
pub open spec fn write_rows(rows: Rows, ws: Seq<WriteView>) -> Rows
    decreases ws.len(),
{
    if ws.len() == 0 {
        rows
    } else {
        write_row(write_rows(rows, ws.drop_last()), ws.last())
    }
}

impl KeyspaceView {
    /// The keyspace after a batch: its writes in order, all of them entered in the journal.
    pub open spec fn commit(self, ws: Seq<WriteView>) -> KeyspaceView {
        KeyspaceView { rows: write_rows(self.rows, ws), journal: self.journal + ws }
    }

    pub open spec fn get(self, key: Seq<u8>) -> Option<Seq<u8>> {
        lookup(self.rows, key)
    }
}

pub open spec fn lookup(rows: Rows, key: Seq<u8>) -> Option<Seq<u8>> {
    if rows.contains_key(key) {
        Some(rows[key])
    } else {
        None
    }
}

/// A batch of one write is that write.
pub proof fn write_one(rows: Rows, w: WriteView)
    ensures
        write_rows(rows, seq![w]) == write_row(rows, w),
{
    reveal_with_fuel(write_rows, 2);
    assert(seq![w].drop_last() =~= Seq::empty());
}

/// Writing two batches one after the other is writing their concatenation.
pub proof fn write_rows_concat(rows: Rows, a: Seq<WriteView>, b: Seq<WriteView>)
    ensures
        write_rows(write_rows(rows, a), b) == write_rows(rows, a + b),
    decreases b.len(),
{
    if b.len() == 0 {
        assert(a + b =~= a);
    } else {
        write_rows_concat(rows, a, b.drop_last());
        assert((a + b).drop_last() =~= a + b.drop_last());
        assert((a + b).last() == b.last());
    }
}

/// What a batch leaves at a key depends on no other row.
pub proof fn write_rows_local(m: Rows, n: Rows, ws: Seq<WriteView>, key: Seq<u8>)
    requires
        lookup(m, key) == lookup(n, key),
    ensures
        lookup(write_rows(m, ws), key) == lookup(write_rows(n, ws), key),
    decreases ws.len(),
{
    if ws.len() > 0 {
        write_rows_local(m, n, ws.drop_last(), key);
    }
}

/// Batches that write different rows can change places.
pub proof fn batches_commute(rows: Rows, a: Seq<WriteView>, b: Seq<WriteView>)
    requires
        forall|i: int, j: int|
            0 <= i < a.len() && 0 <= j < b.len() ==> writes_key(#[trigger] a[i]) != writes_key(
                #[trigger] b[j],
            ),
    ensures
        write_rows(rows, a + b) == write_rows(rows, b + a),
{
    write_rows_concat(rows, a, b);
    write_rows_concat(rows, b, a);
    let x = write_rows(rows, a + b);
    let y = write_rows(rows, b + a);
    assert forall|k: Seq<u8>| lookup(x, k) == lookup(y, k) by {
        if exists|i: int| 0 <= i < a.len() && writes_key(#[trigger] a[i]) == k {
            let i = choose|i: int| 0 <= i < a.len() && writes_key(#[trigger] a[i]) == k;
            assert forall|j: int| 0 <= j < b.len() implies writes_key(#[trigger] b[j]) != k by {
                assert(writes_key(a[i]) != writes_key(b[j]));
            }
            write_rows_frame(rows, b, k);
            write_rows_frame(write_rows(rows, a), b, k);
            write_rows_local(write_rows(rows, b), rows, a, k);
        } else {
            write_rows_frame(rows, a, k);
            write_rows_frame(write_rows(rows, b), a, k);
            write_rows_local(write_rows(rows, a), rows, b, k);
        }
    }
    assert forall|k: Seq<u8>| x.contains_key(k) == y.contains_key(k) by {
        assert(lookup(x, k) == lookup(y, k));
    }
    assert forall|k: Seq<u8>| x.contains_key(k) implies x[k] == y[k] by {
        assert(lookup(x, k) == lookup(y, k));
    }
    assert(x =~= y);
}

/// Writes keep the rows finite.
pub proof fn write_rows_finite(rows: Rows, ws: Seq<WriteView>)
    requires
        rows.dom().finite(),
    ensures
        write_rows(rows, ws).dom().finite(),
    decreases ws.len(),
{
    if ws.len() > 0 {
        write_rows_finite(rows, ws.drop_last());
    }
}

/// An empty batch changes nothing.
pub proof fn commit_nothing(ks: KeyspaceView)
    ensures
        ks.commit(Seq::empty()) == ks,
{
    assert(ks.journal + Seq::<WriteView>::empty() =~= ks.journal);
}

/// Replaying its journal onto the rows that a keyspace started from gives its rows, and goes
/// on doing so with each batch.
pub proof fn journal_replays_to_rows(start: Rows, ks: KeyspaceView, ws: Seq<WriteView>)
    requires
        ks.rows == write_rows(start, ks.journal),
    ensures
        ks.commit(ws).rows == write_rows(start, ks.commit(ws).journal),
{
    write_rows_concat(start, ks.journal, ws);
}

pub open spec fn writes_key(w: WriteView) -> Seq<u8> {
    match w {
        WriteView::Put { key, value } => key,
        WriteView::Remove { key } => key,
    }
}

/// A batch leaves every row alone that none of its writes names.
pub proof fn write_rows_frame(rows: Rows, ws: Seq<WriteView>, key: Seq<u8>)
    requires
        forall|i: int| 0 <= i < ws.len() ==> writes_key(#[trigger] ws[i]) != key,
    ensures
        lookup(write_rows(rows, ws), key) == lookup(rows, key),
    decreases ws.len(),
{
    if ws.len() > 0 {
        assert(writes_key(ws[ws.len() - 1]) != key);
        assert forall|i: int| 0 <= i < ws.drop_last().len() implies writes_key(
            #[trigger] ws.drop_last()[i],
        ) != key by {
            assert(ws.drop_last()[i] == ws[i]);
        }
        write_rows_frame(rows, ws.drop_last(), key);
    }
}

/// The last write to a key decides what is read there.
pub proof fn write_rows_last(rows: Rows, ws: Seq<WriteView>, i: int)
    requires
        0 <= i < ws.len(),
        forall|j: int| i < j < ws.len() ==> writes_key(#[trigger] ws[j]) != writes_key(ws[i]),
    ensures
        lookup(write_rows(rows, ws), writes_key(ws[i])) == (match ws[i] {
            WriteView::Put { key, value } => Some(value),
            WriteView::Remove { key } => None,
        }),
    decreases ws.len(),
{
    if i < ws.len() - 1 {
        assert(writes_key(ws[ws.len() - 1]) != writes_key(ws[i]));
        assert(ws.drop_last()[i] == ws[i]);
        assert forall|j: int| i < j < ws.drop_last().len() implies writes_key(
            #[trigger] ws.drop_last()[j],
        ) != writes_key(ws.drop_last()[i]) by {
            assert(ws.drop_last()[j] == ws[j]);
        }
        write_rows_last(rows, ws.drop_last(), i);
    }
}

/// The keys that start with `p`.
pub open spec fn prefix_keys(p: Seq<u8>) -> Set<Seq<u8>> {
    Set::new(|k: Seq<u8>| has_prefix(k, p))
}

/// The keys from `lo` on that precede `hi`.
pub open spec fn range_keys(lo: Seq<u8>, hi: Seq<u8>) -> Set<Seq<u8>> {
    Set::new(|k: Seq<u8>| lex_le(lo, k) && lex_lt(k, hi))
}

/// The keys from `lo` on that precede `hi`, or all from `lo` on.
spec fn between(lo: Seq<u8>, hi: Option<Seq<u8>>) -> Set<Seq<u8>> {
    Set::new(|k: Seq<u8>| lex_le(lo, k) && (hi matches Some(h) ==> lex_lt(k, h)))
}

spec fn bound(hi: Option<&[u8]>) -> Option<Seq<u8>> {
    match hi {
        Some(h) => Some(h@),
        None => None,
    }
}

pub open spec fn ascending(s: Seq<RowView>) -> bool {
    forall|i: int, j: int| 0 <= i < j < s.len() ==> lex_lt(#[trigger] s[i].key, #[trigger] s[j].key)
}

/// `s` lists, in key order, the rows whose keys are in `keys`.
pub open spec fn lists(rows: Rows, keys: Set<Seq<u8>>, s: Seq<RowView>) -> bool {
    &&& ascending(s)
    &&& forall|i: int|
        0 <= i < s.len() ==> keys.contains((#[trigger] s[i]).key) && rows.contains_key(s[i].key)
            && rows[s[i].key] == s[i].value
    &&& forall|k: Seq<u8>| #[trigger]
        rows.contains_key(k) && keys.contains(k) ==> exists|i: int|
            0 <= i < s.len() && (#[trigger] s[i]).key == k
}

/// The rows whose keys are in `keys`, in key order.
pub open spec fn scan(rows: Rows, keys: Set<Seq<u8>>) -> Seq<RowView> {
    choose|s: Seq<RowView>| lists(rows, keys, s)
}

/// There is only one listing of a set of rows.
pub proof fn listing_unique(rows: Rows, keys: Set<Seq<u8>>, s: Seq<RowView>, t: Seq<RowView>)
    requires
        lists(rows, keys, s),
        lists(rows, keys, t),
    ensures
        s == t,
    decreases s.len(),
{
    if s.len() == 0 {
        if t.len() > 0 {
            assert(rows.contains_key(t[0].key) && keys.contains(t[0].key));
            assert(false);
        }
        assert(s =~= t);
    } else {
        assert(rows.contains_key(s[0].key) && keys.contains(s[0].key));
        let j = choose|j: int| 0 <= j < t.len() && (#[trigger] t[j]).key == s[0].key;
        if j > 0 {
            assert(rows.contains_key(t[0].key) && keys.contains(t[0].key));
            let i = choose|i: int| 0 <= i < s.len() && (#[trigger] s[i]).key == t[0].key;
            assert(lex_lt(t[0].key, t[j].key));
            lex_lt_asymmetric(t[0].key, s[0].key);
            if i > 0 {
                assert(lex_lt(s[0].key, s[i].key));
            }
            assert(false);
        }
        assert(s[0] == t[0]);
        listing_tail(rows, keys, s);
        listing_tail(rows, keys, t);
        listing_unique(rows.remove(s[0].key), keys, s.skip(1), t.skip(1));
        assert(s =~= seq![s[0]] + s.skip(1));
        assert(t =~= seq![t[0]] + t.skip(1));
    }
}

proof fn listing_tail(rows: Rows, keys: Set<Seq<u8>>, s: Seq<RowView>)
    requires
        lists(rows, keys, s),
        s.len() > 0,
    ensures
        lists(rows.remove(s[0].key), keys, s.skip(1)),
{
    let t = s.skip(1);
    let rest = rows.remove(s[0].key);
    assert forall|i: int| 0 <= i < t.len() implies keys.contains((#[trigger] t[i]).key)
        && rest.contains_key(t[i].key) && rest[t[i].key] == t[i].value by {
        assert(t[i] == s[i + 1]);
        assert(lex_lt(s[0].key, s[i + 1].key));
        lex_lt_asymmetric(s[0].key, s[i + 1].key);
    }
    assert forall|k: Seq<u8>| #[trigger] rest.contains_key(k) && keys.contains(k) implies exists|
        i: int,
    |
        0 <= i < t.len() && (#[trigger] t[i]).key == k by {
        assert(rows.contains_key(k) && keys.contains(k));
        let i = choose|i: int| 0 <= i < s.len() && (#[trigger] s[i]).key == k;
        assert(t[i - 1].key == k);
    }
    assert forall|i: int, j: int| 0 <= i < j < t.len() implies lex_lt(
        #[trigger] t[i].key,
        #[trigger] t[j].key,
    ) by {
        assert(lex_lt(s[i + 1].key, s[j + 1].key));
    }
}

/// A listing of a set of rows is what a scan of them gives.
pub proof fn listing_is_scan(rows: Rows, keys: Set<Seq<u8>>, s: Seq<RowView>)
    requires
        lists(rows, keys, s),
    ensures
        scan(rows, keys) == s,
{
    listing_unique(rows, keys, scan(rows, keys), s);
}

/// Every finite set of rows can be listed, so a scan of it gives the listing.
pub proof fn scan_lists(rows: Rows, keys: Set<Seq<u8>>)
    requires
        rows.dom().finite(),
    ensures
        lists(rows, keys, scan(rows, keys)),
    decreases rows.dom().len(),
{
    if rows.dom().len() == 0 {
        assert(rows.dom() =~= Set::empty());
        assert forall|k: Seq<u8>| #[trigger] rows.contains_key(k) implies false by {
            assert(rows.dom().contains(k));
        }
        assert(lists(rows, keys, Seq::empty()));
    } else {
        let k = rows.dom().choose();
        let rest = rows.remove(k);
        assert(rest.dom() =~= rows.dom().remove(k));
        scan_lists(rest, keys);
        let s = scan(rest, keys);
        if keys.contains(k) {
            assert(rest.insert(k, rows[k]) =~= rows);
            listing_insert(rest, keys, s, k, rows[k]);
        } else {
            assert(lists(rows, keys, s));
        }
    }
}

proof fn listing_insert(
    rows: Rows,
    keys: Set<Seq<u8>>,
    s: Seq<RowView>,
    k: Seq<u8>,
    v: Seq<u8>,
)
    requires
        lists(rows, keys, s),
        !rows.contains_key(k),
        keys.contains(k),
    ensures
        exists|t: Seq<RowView>| lists(rows.insert(k, v), keys, t),
{
    let p = position(s, k, s.len());
    position_splits(s, k, s.len());
    let row = RowView { key: k, value: v };
    let t = s.insert(p, row);
    let all = rows.insert(k, v);
    assert forall|i: int| 0 <= i < s.len() implies (#[trigger] s[i]).key != k by {
        assert(rows.contains_key(s[i].key));
    }
    assert forall|i: int, j: int| 0 <= i < j < t.len() implies lex_lt(
        #[trigger] t[i].key,
        #[trigger] t[j].key,
    ) by {
        if i < p && j < p {
            assert(lex_lt(s[i].key, s[j].key));
        } else if i < p && j == p {
            assert(lex_lt(s[i].key, k));
        } else if i < p {
            assert(lex_lt(s[i].key, s[j - 1].key));
        } else if i == p {
            lex_lt_total(s[j - 1].key, k);
        } else {
            assert(lex_lt(s[i - 1].key, s[j - 1].key));
        }
    }
    assert forall|i: int| 0 <= i < t.len() implies keys.contains((#[trigger] t[i]).key)
        && all.contains_key(t[i].key) && all[t[i].key] == t[i].value by {
        if i < p {
            assert(t[i] == s[i]);
        } else if i > p {
            assert(t[i] == s[i - 1]);
        }
    }
    assert forall|x: Seq<u8>| #[trigger] all.contains_key(x) && keys.contains(x) implies exists|
        i: int,
    |
        0 <= i < t.len() && (#[trigger] t[i]).key == x by {
        if x == k {
            assert(t[p].key == k);
        } else {
            assert(rows.contains_key(x));
            let i = choose|i: int| 0 <= i < s.len() && (#[trigger] s[i]).key == x;
            if i < p {
                assert(t[i].key == x);
            } else {
                assert(t[i + 1].key == x);
            }
        }
    }
    assert(lists(all, keys, t));
}

/// How many of the first `n` rows precede `k`, counted from the front.
spec fn position(s: Seq<RowView>, k: Seq<u8>, n: nat) -> int
    decreases n,
{
    if n == 0 {
        0
    } else if lex_lt(s[n - 1].key, k) {
        n as int
    } else {
        position(s, k, (n - 1) as nat)
    }
}

proof fn position_splits(s: Seq<RowView>, k: Seq<u8>, n: nat)
    requires
        ascending(s),
        n <= s.len(),
    ensures
        0 <= position(s, k, n) <= n,
        forall|i: int| 0 <= i < position(s, k, n) ==> lex_lt((#[trigger] s[i]).key, k),
        forall|i: int| position(s, k, n) <= i < n ==> !lex_lt((#[trigger] s[i]).key, k),
    decreases n,
{
    if n > 0 {
        if lex_lt(s[n - 1].key, k) {
            assert forall|i: int| 0 <= i < n implies lex_lt((#[trigger] s[i]).key, k) by {
                if i < n - 1 {
                    assert(lex_lt(s[i].key, s[n - 1].key));
                    lex_lt_transitive(s[i].key, s[n - 1].key, k);
                }
            }
        } else {
            position_splits(s, k, (n - 1) as nat);
        }
    }
}

/// The rows of a sequence, by key.
spec fn by_key(s: Seq<RowView>) -> Rows
    decreases s.len(),
{
    if s.len() == 0 {
        Map::empty()
    } else {
        by_key(s.drop_last()).insert(s.last().key, s.last().value)
    }
}

proof fn by_key_lists(s: Seq<RowView>)
    requires
        ascending(s),
    ensures
        by_key(s).dom().finite(),
        forall|i: int|
            0 <= i < s.len() ==> by_key(s).contains_key((#[trigger] s[i]).key)
                && by_key(s)[s[i].key] == s[i].value,
        forall|k: Seq<u8>| #[trigger]
            by_key(s).contains_key(k) ==> exists|i: int|
                0 <= i < s.len() && (#[trigger] s[i]).key == k,
    decreases s.len(),
{
    if s.len() > 0 {
        let t = s.drop_last();
        assert(ascending(t)) by {
            assert forall|i: int, j: int| 0 <= i < j < t.len() implies lex_lt(
                #[trigger] t[i].key,
                #[trigger] t[j].key,
            ) by {
                assert(t[i] == s[i] && t[j] == s[j]);
            }
        }
        by_key_lists(t);
        assert forall|i: int| 0 <= i < s.len() implies by_key(s).contains_key((#[trigger] s[i]).key)
            && by_key(s)[s[i].key] == s[i].value by {
            if i < t.len() {
                assert(t[i] == s[i]);
                assert(lex_lt(s[i].key, s[s.len() - 1].key));
                lex_lt_asymmetric(s[i].key, s[s.len() - 1].key);
            }
        }
        assert forall|k: Seq<u8>| #[trigger] by_key(s).contains_key(k) implies exists|i: int|
            0 <= i < s.len() && (#[trigger] s[i]).key == k by {
            if k == s.last().key {
                assert(s[s.len() - 1].key == k);
            } else {
                assert(by_key(t).contains_key(k));
                let i = choose|i: int| 0 <= i < t.len() && (#[trigger] t[i]).key == k;
                assert(s[i].key == k);
            }
        }
    }
}

/// Rows that a machine can hold: finitely many, none too long.
pub open spec fn storable(rows: Rows) -> bool {
    &&& rows.dom().finite()
    &&& forall|k: Seq<u8>| #[trigger] rows.contains_key(k) ==> rows[k].len() <= usize::MAX
}

/// Ordered rows with a journal of the writes made to them.
pub struct Keyspace {
    rows: Vec<Row>,
    journal: Vec<Write>,
}

impl View for Keyspace {
    type V = KeyspaceView;

    closed spec fn view(&self) -> KeyspaceView {
        KeyspaceView { rows: by_key(self.rows.deep_view()), journal: self.journal.deep_view() }
    }
}

impl Keyspace {
    #[verifier::type_invariant]
    spec fn ordered(self) -> bool {
        ascending(self.rows.deep_view())
    }

    /// A keyspace without rows.
    pub fn new() -> (r: Keyspace)
        ensures
            r@ == (KeyspaceView { rows: Map::empty(), journal: Seq::empty() }),
    {
        let r = Keyspace { rows: Vec::new(), journal: Vec::new() };
        assert(r.rows.deep_view() =~= Seq::empty());
        assert(r.journal.deep_view() =~= Seq::empty());
        r
    }

    /// The index of the first row that does not precede `key`.
    fn lower_bound(&self, key: &[u8]) -> (r: usize)
        ensures
            r <= self.rows@.len(),
            forall|i: int| 0 <= i < r ==> lex_lt((#[trigger] self.rows@[i]).key@, key@),
            forall|i: int| r <= i < self.rows@.len() ==> !lex_lt((#[trigger] self.rows@[i]).key@, key@),
    {
        proof {
            use_type_invariant(self);
        }
        let mut lo: usize = 0;
        let mut hi: usize = self.rows.len();
        while lo < hi
            invariant
                lo <= hi <= self.rows@.len(),
                ascending(self.rows.deep_view()),
                forall|i: int| 0 <= i < lo ==> lex_lt((#[trigger] self.rows@[i]).key@, key@),
                forall|i: int|
                    hi <= i < self.rows@.len() ==> !lex_lt((#[trigger] self.rows@[i]).key@, key@),
            decreases hi - lo,
        {
            let mid: usize = lo + (hi - lo) / 2;
            let ghost s = self.rows.deep_view();
            if precedes(self.rows[mid].key.as_slice(), key) {
                assert forall|i: int| 0 <= i < mid + 1 implies lex_lt(
                    (#[trigger] self.rows@[i]).key@,
                    key@,
                ) by {
                    if i < mid {
                        assert(lex_lt(s[i].key, s[mid as int].key));
                        lex_lt_transitive(s[i].key, s[mid as int].key, key@);
                    }
                }
                lo = mid + 1;
            } else {
                assert forall|i: int| mid <= i < self.rows@.len() implies !lex_lt(
                    (#[trigger] self.rows@[i]).key@,
                    key@,
                ) by {
                    if i > mid && lex_lt(s[i].key, key@) {
                        assert(lex_lt(s[mid as int].key, s[i].key));
                        lex_lt_transitive(s[mid as int].key, s[i].key, key@);
                    }
                }
                hi = mid;
            }
        }
        lo
    }

    /// The value at `key`.
    pub fn get(&self, key: &[u8]) -> (r: Option<Vec<u8>>)
        ensures
            match self@.get(key@) {
                Some(v) => r is Some && r->0@ == v,
                None => r is None,
            },
            self@.rows.dom().finite(),
    {
        let i: usize = self.lower_bound(key);
        let ghost s = self.rows.deep_view();
        proof {
            use_type_invariant(self);
            by_key_lists(s);
        }
        if i < self.rows.len() && same_bytes(self.rows[i].key.as_slice(), key) {
            assert(s[i as int].key == key@);
            Some(copy_bytes(self.rows[i].value.as_slice()))
        } else {
            proof {
                if by_key(s).contains_key(key@) {
                    let j = choose|j: int| 0 <= j < s.len() && (#[trigger] s[j]).key == key@;
                    lex_lt_irreflexive(key@);
                    assert(!(j < i)) by {
                        if j < i {
                            assert(lex_lt(self.rows@[j].key@, key@));
                        }
                    }
                    if j > i {
                        assert(lex_lt(s[i as int].key, s[j].key));
                        assert(lex_lt(self.rows@[i as int].key@, key@));
                    }
                }
            }
            None
        }
    }

    /// The rows from `lo` on that precede `hi`; all from `lo` on where there is no `hi`.
    fn rows_between(&self, lo: &[u8], hi: Option<&[u8]>) -> (r: Vec<Row>)
        ensures
            lists(self@.rows, between(lo@, bound(hi)), r.deep_view()),
    {
        let start: usize = self.lower_bound(lo);
        let ghost s = self.rows.deep_view();
        let ghost keys = between(lo@, bound(hi));
        proof {
            use_type_invariant(self);
            by_key_lists(s);
        }
        let mut out: Vec<Row> = Vec::new();
        let mut i: usize = start;
        assert(out.deep_view() =~= s.subrange(start as int, i as int));
        while i < self.rows.len()
            invariant
                start <= i <= self.rows@.len(),
                s == self.rows.deep_view(),
                out.deep_view() == s.subrange(start as int, i as int),
                forall|j: int|
                    start <= j < i ==> (hi matches Some(h) ==> lex_lt((#[trigger] s[j]).key, h@)),
            ensures
                start <= i <= self.rows@.len(),
                out.deep_view() == s.subrange(start as int, i as int),
                forall|j: int|
                    start <= j < i ==> (hi matches Some(h) ==> lex_lt((#[trigger] s[j]).key, h@)),
                i < self.rows@.len() ==> hi is Some && !lex_lt(s[i as int].key, hi->0@),
            decreases self.rows.len() - i,
        {
            if let Some(h) = hi {
                if !precedes(self.rows[i].key.as_slice(), h) {
                    break;
                }
            }
            let ghost before = out.deep_view();
            out.push(
                Row {
                    key: copy_bytes(self.rows[i].key.as_slice()),
                    value: copy_bytes(self.rows[i].value.as_slice()),
                },
            );
            assert(out.deep_view() =~= before.push(s[i as int]));
            assert(s.subrange(start as int, i + 1) =~= s.subrange(start as int, i as int).push(
                s[i as int],
            ));
            i = i + 1;
        }
        let ghost t = out.deep_view();
        proof {
            assert forall|a: int, b: int| 0 <= a < b < t.len() implies lex_lt(
                #[trigger] t[a].key,
                #[trigger] t[b].key,
            ) by {
                assert(lex_lt(s[start + a].key, s[start + b].key));
            }
            assert forall|a: int| 0 <= a < t.len() implies keys.contains((#[trigger] t[a]).key)
                && self@.rows.contains_key(t[a].key) && self@.rows[t[a].key] == t[a].value by {
                assert(t[a] == s[start + a]);
                assert(!lex_lt(self.rows@[start + a].key@, lo@));
                lex_lt_total(t[a].key, lo@);
            }
            assert forall|k: Seq<u8>| #[trigger]
                self@.rows.contains_key(k) && keys.contains(k) implies exists|a: int|
                0 <= a < t.len() && (#[trigger] t[a]).key == k by {
                let j = choose|j: int| 0 <= j < s.len() && (#[trigger] s[j]).key == k;
                if j < start {
                    assert(lex_lt(self.rows@[j].key@, lo@));
                    lex_lt_irreflexive(lo@);
                    lex_lt_asymmetric(k, lo@);
                }
                if j >= i {
                    if j > i {
                        assert(lex_lt(s[i as int].key, s[j].key));
                        lex_lt_transitive(s[i as int].key, s[j].key, hi->0@);
                    }
                    assert(false);
                }
                assert(t[j - start].key == k);
            }
        }
        out
    }

    /// The rows whose keys start with `prefix`, in key order.
    pub fn prefix(&self, prefix: &[u8]) -> (r: Vec<Row>)
        ensures
            r.deep_view() == scan(self@.rows, prefix_keys(prefix@)),
            lists(self@.rows, prefix_keys(prefix@), r.deep_view()),
            self@.rows.dom().finite(),
    {
        let upper: Option<Vec<u8>> = exclusive_upper_bound(prefix);
        let rows: Vec<Row> = match &upper {
            Some(u) => self.rows_between(prefix, Some(u.as_slice())),
            None => self.rows_between(prefix, None),
        };
        proof {
            use_type_invariant(self);
            by_key_lists(self.rows.deep_view());
            let keys = between(prefix@, upper_bound(prefix@));
            assert forall|k: Seq<u8>| keys.contains(k) == prefix_keys(prefix@).contains(k) by {
                upper_bound_delimits_prefix(prefix@, k);
            }
            assert(keys =~= prefix_keys(prefix@));
            listing_is_scan(self@.rows, prefix_keys(prefix@), rows.deep_view());
        }
        rows
    }

    /// The rows from `lo` on that precede `hi`, in key order.
    pub fn range(&self, lo: &[u8], hi: &[u8]) -> (r: Vec<Row>)
        ensures
            r.deep_view() == scan(self@.rows, range_keys(lo@, hi@)),
            lists(self@.rows, range_keys(lo@, hi@), r.deep_view()),
            self@.rows.dom().finite(),
    {
        let rows: Vec<Row> = self.rows_between(lo, Some(hi));
        proof {
            use_type_invariant(self);
            by_key_lists(self.rows.deep_view());
            assert(between(lo@, Some(hi@)) =~= range_keys(lo@, hi@));
            listing_is_scan(self@.rows, range_keys(lo@, hi@), rows.deep_view());
        }
        rows
    }

    /// Makes one write and enters it in the journal.
    fn write(&mut self, w: Write)
        ensures
            final(self)@ == old(self)@.commit(seq![w.deep_view()]),
    {
        let ghost wv = w.deep_view();
        let ghost s = self.rows.deep_view();
        let ghost j0 = self.journal.deep_view();
        proof {
            use_type_invariant(&*self);
            by_key_lists(s);
            write_one(self@.rows, wv);
        }
        let mut rows: Vec<Row> = Vec::new();
        let mut journal: Vec<Write> = Vec::new();
        match &w {
            Write::Put { key, value } => {
                let i: usize = self.lower_bound(key.as_slice());
                let row = Row {
                    key: copy_bytes(key.as_slice()),
                    value: copy_bytes(value.as_slice()),
                };
                let ghost rv = row.deep_view();
                let present: bool = i < self.rows.len() && same_bytes(
                    self.rows[i].key.as_slice(),
                    key.as_slice(),
                );
                proof {
                    assert forall|a: int| 0 <= a < i implies lex_lt((#[trigger] s[a]).key, key@) by {
                        assert(lex_lt(self.rows@[a].key@, key@));
                    }
                    assert forall|a: int| i <= a < s.len() implies !lex_lt((#[trigger] s[a]).key, key@) by {
                        assert(!lex_lt(self.rows@[a].key@, key@));
                    }
                }
                if present {
                    std::mem::swap(&mut rows, &mut self.rows);
                    rows.set(i, row);
                    assert(rows.deep_view() =~= s.update(i as int, rv));
                    proof {
                        put_present(s, i as int, rv);
                    }
                } else {
                    proof {
                        if i < s.len() {
                            assert(s[i as int].key == self.rows@[i as int].key@);
                        }
                    }
                    std::mem::swap(&mut rows, &mut self.rows);
                    rows.insert(i, row);
                    assert(rows.deep_view() =~= s.insert(i as int, rv));
                    proof {
                        put_absent(s, i as int, rv);
                    }
                }
            },
            Write::Remove { key } => {
                let i: usize = self.lower_bound(key.as_slice());
                let present: bool = i < self.rows.len() && same_bytes(
                    self.rows[i].key.as_slice(),
                    key.as_slice(),
                );
                proof {
                    assert forall|a: int| 0 <= a < i implies lex_lt((#[trigger] s[a]).key, key@) by {
                        assert(lex_lt(self.rows@[a].key@, key@));
                    }
                    assert forall|a: int| i <= a < s.len() implies !lex_lt((#[trigger] s[a]).key, key@) by {
                        assert(!lex_lt(self.rows@[a].key@, key@));
                    }
                    if i < s.len() {
                        assert(s[i as int].key == self.rows@[i as int].key@);
                    }
                }
                std::mem::swap(&mut rows, &mut self.rows);
                if present {
                    rows.remove(i);
                    assert(rows.deep_view() =~= s.remove(i as int));
                    proof {
                        remove_present(s, i as int);
                    }
                } else {
                    proof {
                        remove_absent(s, i as int, key@);
                    }
                }
            },
        }
        std::mem::swap(&mut journal, &mut self.journal);
        journal.push(w);
        assert(journal.deep_view() =~= j0 + seq![wv]);
        *self = Keyspace { rows, journal };
    }

    /// Commits a batch: its writes in order.
    pub fn commit(&mut self, batch: Vec<Write>)
        ensures
            final(self)@ == old(self)@.commit(batch.deep_view()),
    {
        let ghost ws = batch.deep_view();
        let mut batch = batch;
        let mut i: usize = 0;
        proof {
            commit_nothing(self@);
            assert(ws.take(0) =~= Seq::empty());
        }
        let n: usize = batch.len();
        while i < n
            invariant
                i <= n,
                n == ws.len(),
                batch@.len() == n,
                forall|k: int| i <= k < n ==> (#[trigger] batch@[k]).deep_view() == ws[k],
                self@ == old(self)@.commit(ws.take(i as int)),
            decreases n - i,
        {
            let mut w = Write::Remove { key: Vec::new() };
            let ghost b0 = batch@;
            std::mem::swap(&mut w, &mut batch[i]);
            assert(w.deep_view() == ws[i as int]);
            self.write(w);
            proof {
                let a = ws.take(i as int);
                write_rows_concat(old(self)@.rows, a, seq![ws[i as int]]);
                assert(ws.take(i + 1) =~= a + seq![ws[i as int]]);
                assert(old(self)@.journal + a + seq![ws[i as int]] =~= old(self)@.journal + ws.take(
                    i + 1,
                ));
            }
            i = i + 1;
        }
        assert(ws.take(n as int) =~= ws);
    }

    /// Takes the journal: the writes since it was last taken.
    pub fn take_journal(&mut self) -> (r: Vec<Write>)
        ensures
            r.deep_view() == old(self)@.journal,
            final(self)@ == (KeyspaceView { rows: old(self)@.rows, journal: Seq::empty() }),
    {
        proof {
            use_type_invariant(&*self);
        }
        let mut journal: Vec<Write> = Vec::new();
        std::mem::swap(&mut journal, &mut self.journal);
        assert(self.journal.deep_view() =~= Seq::empty());
        journal
    }
}

proof fn put_present(s: Seq<RowView>, i: int, row: RowView)
    requires
        ascending(s),
        0 <= i < s.len(),
        s[i].key == row.key,
    ensures
        ascending(s.update(i, row)),
        by_key(s.update(i, row)) == by_key(s).insert(row.key, row.value),
{
    let t = s.update(i, row);
    assert forall|a: int, b: int| 0 <= a < b < t.len() implies lex_lt(
        #[trigger] t[a].key,
        #[trigger] t[b].key,
    ) by {
        assert(lex_lt(s[a].key, s[b].key));
    }
    by_key_lists(s);
    by_key_lists(t);
    let m = by_key(s).insert(row.key, row.value);
    assert forall|k: Seq<u8>| by_key(t).contains_key(k) == m.contains_key(k) by {
        if by_key(t).contains_key(k) {
            let a = choose|a: int| 0 <= a < t.len() && (#[trigger] t[a]).key == k;
            assert(by_key(s).contains_key(s[a].key));
        }
        if m.contains_key(k) && k != row.key {
            let a = choose|a: int| 0 <= a < s.len() && (#[trigger] s[a]).key == k;
            assert(t[a].key == k);
        }
        assert(t[i].key == row.key);
    }
    assert forall|k: Seq<u8>| m.contains_key(k) implies by_key(t)[k] == m[k] by {
        if k == row.key {
            assert(t[i].key == row.key);
        } else {
            let a = choose|a: int| 0 <= a < s.len() && (#[trigger] s[a]).key == k;
            assert(t[a] == s[a]);
        }
    }
    assert(by_key(t) =~= m);
}

proof fn put_absent(s: Seq<RowView>, i: int, row: RowView)
    requires
        ascending(s),
        0 <= i <= s.len(),
        forall|a: int| 0 <= a < i ==> lex_lt((#[trigger] s[a]).key, row.key),
        forall|a: int| i <= a < s.len() ==> !lex_lt((#[trigger] s[a]).key, row.key),
        i < s.len() ==> s[i].key != row.key,
    ensures
        ascending(s.insert(i, row)),
        by_key(s.insert(i, row)) == by_key(s).insert(row.key, row.value),
{
    let t = s.insert(i, row);
    assert forall|a: int| i <= a < s.len() implies lex_lt(row.key, (#[trigger] s[a]).key) by {
        lex_lt_total(s[i].key, row.key);
        if a > i {
            assert(lex_lt(s[i].key, s[a].key));
            lex_lt_transitive(row.key, s[i].key, s[a].key);
        }
    }
    assert forall|a: int, b: int| 0 <= a < b < t.len() implies lex_lt(
        #[trigger] t[a].key,
        #[trigger] t[b].key,
    ) by {
        if b < i {
            assert(lex_lt(s[a].key, s[b].key));
        } else if b == i {
            assert(lex_lt(s[a].key, row.key));
        } else if a < i {
            assert(lex_lt(s[a].key, s[b - 1].key));
        } else if a == i {
            assert(lex_lt(row.key, s[b - 1].key));
        } else {
            assert(lex_lt(s[a - 1].key, s[b - 1].key));
        }
    }
    by_key_lists(s);
    by_key_lists(t);
    let m = by_key(s).insert(row.key, row.value);
    assert forall|k: Seq<u8>| by_key(t).contains_key(k) == m.contains_key(k) by {
        if by_key(t).contains_key(k) {
            let a = choose|a: int| 0 <= a < t.len() && (#[trigger] t[a]).key == k;
            if a < i {
                assert(by_key(s).contains_key(s[a].key));
            } else if a > i {
                assert(by_key(s).contains_key(s[a - 1].key));
            }
        }
        if m.contains_key(k) && k != row.key {
            let a = choose|a: int| 0 <= a < s.len() && (#[trigger] s[a]).key == k;
            if a < i {
                assert(t[a].key == k);
            } else {
                assert(t[a + 1].key == k);
            }
        }
        assert(t[i].key == row.key);
    }
    assert forall|k: Seq<u8>| m.contains_key(k) implies by_key(t)[k] == m[k] by {
        if k == row.key {
            assert(t[i].key == row.key);
        } else {
            let a = choose|a: int| 0 <= a < s.len() && (#[trigger] s[a]).key == k;
            if a < i {
                assert(t[a] == s[a]);
            } else {
                assert(t[a + 1] == s[a]);
            }
        }
    }
    assert(by_key(t) =~= m);
}

proof fn remove_present(s: Seq<RowView>, i: int)
    requires
        ascending(s),
        0 <= i < s.len(),
    ensures
        ascending(s.remove(i)),
        by_key(s.remove(i)) == by_key(s).remove(s[i].key),
{
    let t = s.remove(i);
    let key = s[i].key;
    assert forall|a: int, b: int| 0 <= a < b < t.len() implies lex_lt(
        #[trigger] t[a].key,
        #[trigger] t[b].key,
    ) by {
        let x = if a < i { a } else { a + 1 };
        let y = if b < i { b } else { b + 1 };
        assert(t[a] == s[x] && t[b] == s[y]);
        assert(lex_lt(s[x].key, s[y].key));
    }
    by_key_lists(s);
    by_key_lists(t);
    let m = by_key(s).remove(key);
    assert forall|a: int| 0 <= a < s.len() && a != i implies (#[trigger] s[a]).key != key by {
        if a < i {
            lex_lt_asymmetric(s[a].key, s[i].key);
        } else {
            lex_lt_asymmetric(s[i].key, s[a].key);
        }
    }
    assert forall|k: Seq<u8>| by_key(t).contains_key(k) == m.contains_key(k) by {
        if by_key(t).contains_key(k) {
            let a = choose|a: int| 0 <= a < t.len() && (#[trigger] t[a]).key == k;
            let x = if a < i { a } else { a + 1 };
            assert(t[a] == s[x]);
            assert(by_key(s).contains_key(s[x].key));
        }
        if m.contains_key(k) {
            let a = choose|a: int| 0 <= a < s.len() && (#[trigger] s[a]).key == k;
            if a < i {
                assert(t[a].key == k);
            } else {
                assert(t[a - 1].key == k);
            }
        }
    }
    assert forall|k: Seq<u8>| m.contains_key(k) implies by_key(t)[k] == m[k] by {
        let a = choose|a: int| 0 <= a < s.len() && (#[trigger] s[a]).key == k;
        if a < i {
            assert(t[a] == s[a]);
        } else {
            assert(t[a - 1] == s[a]);
        }
    }
    assert(by_key(t) =~= m);
}

proof fn remove_absent(s: Seq<RowView>, i: int, key: Seq<u8>)
    requires
        ascending(s),
        0 <= i <= s.len(),
        forall|a: int| 0 <= a < i ==> lex_lt((#[trigger] s[a]).key, key),
        forall|a: int| i <= a < s.len() ==> !lex_lt((#[trigger] s[a]).key, key),
        i < s.len() ==> s[i].key != key,
    ensures
        by_key(s) == by_key(s).remove(key),
{
    by_key_lists(s);
    if by_key(s).contains_key(key) {
        let a = choose|a: int| 0 <= a < s.len() && (#[trigger] s[a]).key == key;
        lex_lt_irreflexive(key);
        if a > i {
            assert(lex_lt(s[i].key, s[a].key));
        }
        assert(false);
    }
    assert(by_key(s) =~= by_key(s).remove(key));
}

/// The removals of some rows.
pub open spec fn row_removals(rows: Seq<RowView>) -> Seq<WriteView> {
    rows.map_values(|row: RowView| WriteView::Remove { key: row.key })
}

/// Appends the removals of some rows to a batch.
pub(crate) fn push_removals(batch: &mut Vec<Write>, rows: &Vec<Row>)
    ensures
        final(batch).deep_view() == old(batch).deep_view() + row_removals(rows.deep_view()),
{
    let ghost before = batch.deep_view();
    let ghost removals = row_removals(rows.deep_view());
    let mut i: usize = 0;
    assert(before + removals.take(0) =~= before);
    while i < rows.len()
        invariant
            i <= rows@.len(),
            removals == row_removals(rows.deep_view()),
            batch.deep_view() == before + removals.take(i as int),
        decreases rows.len() - i,
    {
        let ghost so_far = batch.deep_view();
        let w = Write::Remove { key: copy_bytes(rows[i].key.as_slice()) };
        assert(w.deep_view() == removals[i as int]);
        batch.push(w);
        assert(batch.deep_view() =~= so_far.push(removals[i as int]));
        assert(batch.deep_view() =~= before + removals.take(i + 1));
        i = i + 1;
    }
    assert(removals.take(removals.len() as int) =~= removals);
}

/// A row is listed by a scan of keys that hold its own.
pub proof fn row_is_listed(rows: Rows, keys: Set<Seq<u8>>, key: Seq<u8>) -> (i: int)
    requires
        rows.dom().finite(),
        rows.contains_key(key),
        keys.contains(key),
    ensures
        0 <= i < scan(rows, keys).len(),
        scan(rows, keys)[i] == (RowView { key, value: rows[key] }),
{
    scan_lists(rows, keys);
    assert(rows.contains_key(key) && keys.contains(key));
    let s = scan(rows, keys);
    let i = choose|i: int| 0 <= i < s.len() && (#[trigger] s[i]).key == key;
    assert(s[i] == RowView { key, value: rows[key] });
    i
}

/// The removals of some rows remove just those rows.
pub proof fn removing_rows(m: Rows, rows: Seq<RowView>, key: Seq<u8>)
    ensures
        lookup(write_rows(m, row_removals(rows)), key) == (if exists|i: int|
            0 <= i < rows.len() && (#[trigger] rows[i]).key == key {
            None
        } else {
            lookup(m, key)
        }),
    decreases rows.len(),
{
    if rows.len() > 0 {
        let before = rows.drop_last();
        removing_rows(m, before, key);
        assert(row_removals(rows).drop_last() =~= row_removals(before));
        assert(row_removals(rows).last() == WriteView::Remove { key: rows.last().key });
        if exists|i: int| 0 <= i < before.len() && (#[trigger] before[i]).key == key {
            let i = choose|i: int| 0 <= i < before.len() && (#[trigger] before[i]).key == key;
            assert(rows[i].key == key);
        }
        if exists|i: int| 0 <= i < rows.len() && (#[trigger] rows[i]).key == key {
            let i = choose|i: int| 0 <= i < rows.len() && (#[trigger] rows[i]).key == key;
            if i < before.len() {
                assert(before[i].key == key);
            }
        } else {
            assert(rows[rows.len() - 1].key != key);
        }
    }
}

} // verus!
