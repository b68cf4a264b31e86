//! Account preferences: named JSON values of a user.
//!
//! A user can have several preferences of one name. The first is stored under the name
//! itself, the others under the name, a zero character and a number.

use vstd::prelude::*;
use vstd::string::*;
use vstd::utf8::encode_utf8;

use crate::bytes::copy_bytes;
use crate::codec::same_text;
use crate::encoding::{escaped, escaped_round_trip, read_second_text, second_text};
use crate::encoding::second_text_round_trip;
use crate::errors::{viewed, MetastoreError};
use crate::infra_ops::{infra_committed, InfraOps};
use crate::infra_schema::{infra_keys_injective, owner_key, owner_key_bytes, owner_prefix, owner_prefix_bytes};
use crate::json::{compact_json, json_text};
use crate::keys::KeyTag;
use crate::metastore::MetastoreView;
use crate::scan::{collect_all, collect_all_items, collected, Contribution, Reader};
use crate::store::{lookup, prefix_keys, scan, scan_lists, write_one, write_rows, write_rows_concat};
use crate::store::{write_rows_frame, write_rows_last, writes_key, Row, RowView, Rows, Write, WriteView};
use crate::text::{decimal, decimal_injective, push_decimal};
use crate::types::{uuid_bytes, uuid_bytes_round_trip, Uuid};

verus! {

pub open spec fn pref_key(user: Uuid, name: Seq<char>) -> Seq<u8> {
    owner_key_bytes(KeyTag::AccountPref, user, name)
}

/// A user's preferences.
pub open spec fn pref_rows(infra: Rows, user: Uuid) -> Seq<RowView> {
    scan(infra, prefix_keys(owner_prefix_bytes(KeyTag::AccountPref, user)))
}

/// The part of a stored name before its first zero character.
pub open spec fn base_name(name: Seq<char>) -> Seq<char>
    decreases name.len(),
{
    if name.len() == 0 || name[0] == '\0' {
        Seq::empty()
    } else {
        seq![name[0]] + base_name(name.skip(1))
    }
}

proof fn base_name_at(name: Seq<char>, n: int)
    requires
        0 <= n <= name.len(),
        forall|i: int| 0 <= i < n ==> name[i] != '\0',
        n < name.len() ==> name[n] == '\0',
    ensures
        base_name(name) == name.take(n),
    decreases name.len(),
{
    if name.len() > 0 && n > 0 {
        assert(name[0] != '\0');
        let rest = name.skip(1);
        assert forall|i: int| 0 <= i < n - 1 implies rest[i] != '\0' by {
            assert(rest[i] == name[i + 1]);
        }
        base_name_at(rest, n - 1);
        assert(name.take(n) =~= seq![name[0]] + rest.take(n - 1));
    } else {
        assert(name.take(n) =~= Seq::empty());
    }
}

/// A name without zero characters is its own base.
pub proof fn plain_name_is_base(name: Seq<char>)
    requires
        !name.contains('\0'),
    ensures
        base_name(name) == name,
{
    assert forall|i: int| 0 <= i < name.len() implies name[i] != '\0' by {
        assert(name.contains(name[i]));
    }
    base_name_at(name, name.len() as int);
    assert(name.take(name.len() as int) =~= name);
}

/// The base of a name is a name up to its first zero character, whatever follows.
pub proof fn numbered_name_has_base(name: Seq<char>, tail: Seq<char>)
    requires
        !name.contains('\0'),
    ensures
        base_name(name + seq!['\0'] + tail) == name,
{
    let t = name + seq!['\0'] + tail;
    assert forall|i: int| 0 <= i < name.len() implies t[i] != '\0' by {
        assert(name.contains(name[i]));
    }
    base_name_at(t, name.len() as int);
    assert(t.take(name.len() as int) =~= name);
}

fn read_base_name(name: &str) -> (r: String)
    ensures
        r@ == base_name(name@),
{
    let len: usize = name.unicode_len();
    let mut n: usize = 0;
    while n < len && name.get_char(n) != '\0'
        invariant
            len == name@.len(),
            n <= len,
            forall|i: int| 0 <= i < n ==> name@[i] != '\0',
        ensures
            n <= len,
            forall|i: int| 0 <= i < n ==> name@[i] != '\0',
            n < len ==> name@[n as int] == '\0',
        decreases len - n,
    {
        n = n + 1;
    }
    proof {
        base_name_at(name@, n as int);
    }
    name.substring_char(0, n).to_owned()
}

/// The preference that a row holds.
pub open spec fn preference(row: RowView) -> Contribution<(Seq<char>, Seq<u8>)> {
    match second_text(row.key) {
        None => Err(MetastoreError::CorruptData("corrupt account pref key")),
        Some(name) => match compact_json(row.value) {
            None => Err(MetastoreError::CorruptData("corrupt account pref json")),
            Some(value) => Ok(Some((base_name(name), value))),
        },
    }
}

struct Preferences {}

impl Reader for Preferences {
    type In = Row;

    type Item = (String, Vec<u8>);

    closed spec fn reading(&self) -> spec_fn(RowView) -> Contribution<(Seq<char>, Seq<u8>)> {
        |row: RowView| preference(row)
    }

    fn read(&self, row: &Row) -> (r: Contribution<(String, Vec<u8>)>) {
        match read_second_text(row.key.as_slice()) {
            None => Err(MetastoreError::CorruptData("corrupt account pref key")),
            Some(name) => match json_text(row.value.as_slice()) {
                None => Err(MetastoreError::CorruptData("corrupt account pref json")),
                Some(value) => Ok(Some((read_base_name(name.as_str()), value))),
            },
        }
    }
}

/// Whether a text starts with another.
pub open spec fn begins_with(text: Seq<char>, start: Seq<char>) -> bool {
    start.len() <= text.len() && text.take(start.len() as int) == start
}

fn text_begins_with(text: &str, start: &str) -> (r: bool)
    ensures
        r == begins_with(text@, start@),
{
    let n: usize = start.unicode_len();
    if n <= text.unicode_len() {
        assert(text@.subrange(0, n as int) =~= text@.take(n as int));
        same_text(text.substring_char(0, n), start)
    } else {
        false
    }
}

/// The removal of a preference whose name starts with a namespace.
pub open spec fn namespace_removal(row: RowView, namespace: Seq<char>) -> Contribution<WriteView> {
    match second_text(row.key) {
        None => Err(MetastoreError::CorruptData("corrupt account pref key")),
        Some(name) => Ok(
            if begins_with(name, namespace) {
                Some(WriteView::Remove { key: row.key })
            } else {
                None
            },
        ),
    }
}

struct NamespaceRemovals<'b> {
    namespace: &'b str,
}

impl<'b> Reader for NamespaceRemovals<'b> {
    type In = Row;

    type Item = Write;

    closed spec fn reading(&self) -> spec_fn(RowView) -> Contribution<WriteView> {
        |row: RowView| namespace_removal(row, self.namespace@)
    }

    fn read(&self, row: &Row) -> (r: Contribution<Write>) {
        match read_second_text(row.key.as_slice()) {
            None => Err(MetastoreError::CorruptData("corrupt account pref key")),
            Some(name) => {
                if text_begins_with(name.as_str(), self.namespace) {
                    Ok(Some(Write::Remove { key: copy_bytes(row.key.as_slice()) }))
                } else {
                    Ok(None)
                }
            },
        }
    }
}

/// How often a name occurs in a list of preferences.
pub open spec fn occurrences(prefs: Seq<(Seq<char>, Seq<u8>)>, name: Seq<char>) -> nat
    decreases prefs.len(),
{
    if prefs.len() == 0 {
        0
    } else {
        occurrences(prefs.drop_last(), name) + if prefs.last().0 == name {
            1nat
        } else {
            0nat
        }
    }
}

/// The name under which the `n`th further preference of a name is stored.
pub open spec fn indexed_name(name: Seq<char>, n: nat) -> Seq<char> {
    if n == 0 {
        name
    } else {
        name + "\0"@ + decimal(n)
    }
}

/// The writes that store a list of preferences.
pub open spec fn pref_writes(user: Uuid, prefs: Seq<(Seq<char>, Seq<u8>)>) -> Result<
    Seq<WriteView>,
    MetastoreError,
>
    decreases prefs.len(),
{
    if prefs.len() == 0 {
        Ok(Seq::empty())
    } else {
        match pref_writes(user, prefs.drop_last()) {
            Err(e) => Err(e),
            Ok(before) => match compact_json(prefs.last().1) {
                None => Err(
                    MetastoreError::InvalidInput("invalid json for account preference"),
                ),
                Some(value) => Ok(
                    before.push(
                        WriteView::Put {
                            key: pref_key(
                                user,
                                indexed_name(
                                    prefs.last().0,
                                    occurrences(prefs.drop_last(), prefs.last().0),
                                ),
                            ),
                            value,
                        },
                    ),
                ),
            },
        }
    }
}

proof fn pref_writes_fail(user: Uuid, prefs: Seq<(Seq<char>, Seq<u8>)>, n: int)
    requires
        0 <= n <= prefs.len(),
        pref_writes(user, prefs.take(n)) is Err,
    ensures
        pref_writes(user, prefs) == pref_writes(user, prefs.take(n)),
    decreases prefs.len(),
{
    if n == prefs.len() {
        assert(prefs.take(n) =~= prefs);
    } else {
        assert(prefs.drop_last().take(n) =~= prefs.take(n));
        pref_writes_fail(user, prefs.drop_last(), n);
    }
}

/// The writes that replace the preferences of a namespace.
pub open spec fn replacement(
    infra: Rows,
    user: Uuid,
    namespace: Seq<char>,
    prefs: Seq<(Seq<char>, Seq<u8>)>,
) -> Result<Seq<WriteView>, MetastoreError> {
    match collect_all(
        pref_rows(infra, user),
        |row: RowView| namespace_removal(row, namespace),
    ) {
        Err(e) => Err(e),
        Ok(removals) => match pref_writes(user, prefs) {
            Err(e) => Err(e),
            Ok(writes) => Ok(removals + writes),
        },
    }
}

/// Counts how often a name occurs among the first preferences of a list.
fn count_name(prefs: &Vec<(String, Vec<u8>)>, n: usize, name: &str) -> (r: u64)
    requires
        n <= prefs@.len(),
    ensures
        r == occurrences(prefs.deep_view().take(n as int), name@),
        r <= n,
{
    let ghost all = prefs.deep_view();
    let mut count: u64 = 0;
    let mut i: usize = 0;
    while i < n
        invariant
            i <= n <= prefs@.len(),
            all == prefs.deep_view(),
            count <= i,
            count == occurrences(all.take(i as int), name@),
        decreases n - i,
    {
        proof {
            assert(all.take(i + 1).drop_last() =~= all.take(i as int));
            assert(all.take(i + 1).last() == prefs@[i as int].deep_view());
        }
        if same_text(prefs[i].0.as_str(), name) {
            count = count + 1;
        }
        i = i + 1;
    }
    count
}

fn name_at(name: &str, n: u64) -> (r: String)
    ensures
        r@ == indexed_name(name@, n as nat),
{
    let mut out: String = name.to_owned();
    if n > 0 {
        out.append("\0");
        push_decimal(&mut out, n);
    }
    out
}

/// Stores a preference.
pub open spec fn pref_stored(s: MetastoreView, user: Uuid, name: Seq<char>, value: Seq<u8>) -> (
    Result<(), MetastoreError>,
    MetastoreView,
) {
    match compact_json(value) {
        None => (
            Err(MetastoreError::InvalidInput("invalid json for account preference")),
            s,
        ),
        Some(t) => (
            Ok(()),
            infra_committed(s, seq![WriteView::Put { key: pref_key(user, name), value: t }]),
        ),
    }
}

/// A preference that was stored is what a reader sees at its key, as long as its text is
/// JSON that can be read.
pub proof fn stored_preference_is_read(
    s: MetastoreView,
    user: Uuid,
    name: Seq<char>,
    value: Seq<u8>,
)
    requires
        pref_stored(s, user, name, value).0 is Ok,
        compact_json(compact_json(value)->0) is Some,
        !name.contains('\0'),
    ensures
        lookup(pref_stored(s, user, name, value).1.infra.rows, pref_key(user, name)) == compact_json(
            value,
        ),
        preference(
            RowView { key: pref_key(user, name), value: compact_json(value)->0 },
        ) == Contribution::<(Seq<char>, Seq<u8>)>::Ok(
            Some((name, compact_json(compact_json(value)->0)->0)),
        ),
{
    write_one(
        s.infra.rows,
        WriteView::Put { key: pref_key(user, name), value: compact_json(value)->0 },
    );
    second_text_round_trip(
        KeyTag::AccountPref.byte(),
        uuid_bytes(user),
        name,
    );
    plain_name_is_base(name);
}

impl<'a> InfraOps<'a> {
    /// Stores a preference. Its value is JSON text, and what is stored of it can be read.
    pub fn upsert_account_preference(&mut self, user_id: Uuid, name: &str, value_json: &[u8]) -> (r:
        Result<(), MetastoreError>)
        ensures
            (r, final(self)@) == pref_stored(old(self)@, user_id, name@, value_json@),
            r is Ok ==> compact_json(compact_json(value_json@)->0) is Some,
            *final(final(self).store) == *final(old(self).store),
    {
        match json_text(value_json) {
            None => Err(MetastoreError::InvalidInput("invalid json for account preference")),
            Some(value) => {
                assert(value.deep_view() =~= value@);
                let batch: Vec<Write> = vec![
                    Write::Put { key: owner_key(KeyTag::AccountPref, user_id, name), value },
                ];
                assert(batch.deep_view() =~= seq![
                    WriteView::Put {
                        key: pref_key(user_id, name@),
                        value: compact_json(value_json@)->0,
                    },
                ]);
                self.store.infra.commit(batch);
                Ok(())
            },
        }
    }

    /// Stores a preference unless there is one of the name.
    pub fn insert_account_preference_if_not_exists(
        &mut self,
        user_id: Uuid,
        name: &str,
        value_json: &[u8],
    ) -> (r: Result<(), MetastoreError>)
        ensures
            (r, final(self)@) == (match old(self)@.infra.get(pref_key(user_id, name@)) {
                Some(_) => (Ok::<(), MetastoreError>(()), old(self)@),
                None => pref_stored(old(self)@, user_id, name@, value_json@),
            }),
            *final(final(self).store) == *final(old(self).store),
    {
        let key: Vec<u8> = owner_key(KeyTag::AccountPref, user_id, name);
        if self.store.infra.get(key.as_slice()).is_some() {
            return Ok(());
        }
        self.upsert_account_preference(user_id, name, value_json)
    }

    /// A user's preferences by name.
    pub fn get_account_preferences(&self, user_id: Uuid) -> (r: Result<
        Vec<(String, Vec<u8>)>,
        MetastoreError,
    >)
        ensures
            viewed(r) == collect_all(
                pref_rows(self@.infra.rows, user_id),
                |row: RowView| preference(row),
            ),
    {
        let prefix: Vec<u8> = owner_prefix(KeyTag::AccountPref, user_id);
        let rows: Vec<Row> = self.store.infra.prefix(prefix.as_slice());
        let reader = Preferences {  };
        assert(reader.reading() =~= |row: RowView| preference(row));
        collect_all_items(rows.as_slice(), &reader)
    }

    /// Replaces the preferences whose names start with a namespace.
    pub fn replace_namespace_preferences(
        &mut self,
        user_id: Uuid,
        namespace: &str,
        preferences: Vec<(String, Vec<u8>)>,
    ) -> (r: Result<(), MetastoreError>)
        ensures
            match replacement(
                old(self)@.infra.rows,
                user_id,
                namespace@,
                preferences.deep_view(),
            ) {
                Err(e) => r == Err::<(), MetastoreError>(e) && final(self)@ == old(self)@,
                Ok(ws) => r is Ok && final(self)@ == infra_committed(old(self)@, ws),
            },
            *final(final(self).store) == *final(old(self).store),
    {
        let prefix: Vec<u8> = owner_prefix(KeyTag::AccountPref, user_id);
        let rows: Vec<Row> = self.store.infra.prefix(prefix.as_slice());
        let reader = NamespaceRemovals { namespace };
        assert(reader.reading() =~= |row: RowView| namespace_removal(row, namespace@));
        let mut batch: Vec<Write> = match collect_all_items(rows.as_slice(), &reader) {
            Err(e) => {
                return Err(e);
            },
            Ok(removals) => removals,
        };
        let ghost removals = batch.deep_view();
        let ghost all = preferences.deep_view();
        let ghost mut writes: Seq<WriteView> = Seq::empty();
        let mut i: usize = 0;
        assert(all.take(0) =~= Seq::empty());
        assert(removals + writes =~= removals);
        while i < preferences.len()
            invariant
                i <= preferences@.len(),
                all == preferences.deep_view(),
                self@ == old(self)@,
                *final(self.store) == *final(old(self).store),
                replacement(old(self)@.infra.rows, user_id, namespace@, all) == (match pref_writes(
                    user_id,
                    all,
                ) {
                    Ok(ws) => Ok::<Seq<WriteView>, MetastoreError>(removals + ws),
                    Err(e) => Err(e),
                }),
                pref_writes(user_id, all.take(i as int)) == Ok::<Seq<WriteView>, MetastoreError>(
                    writes,
                ),
                batch.deep_view() == removals + writes,
            decreases preferences.len() - i,
        {
            let name: &str = preferences[i].0.as_str();
            let n: u64 = count_name(&preferences, i, name);
            proof {
                assert(all.take(i + 1).drop_last() =~= all.take(i as int));
                assert(all.take(i + 1).last() == preferences@[i as int].deep_view());
                assert(preferences@[i as int].1.deep_view() =~= preferences@[i as int].1@);
            }
            match json_text(preferences[i].1.as_slice()) {
                None => {
                    proof {
                        pref_writes_fail(user_id, all, i + 1);
                    }
                    return Err(
                        MetastoreError::InvalidInput("invalid json for account preference"),
                    );
                },
                Some(value) => {
                    assert(value.deep_view() =~= value@);
                    let key: Vec<u8> = owner_key(
                        KeyTag::AccountPref,
                        user_id,
                        name_at(name, n).as_str(),
                    );
                    let w = Write::Put { key, value };
                    let ghost wv = w.deep_view();
                    batch.push(w);
                    assert(batch.deep_view() =~= (removals + writes).push(wv));
                    proof {
                        assert(batch.deep_view() =~= removals + writes.push(wv));
                        writes = writes.push(wv);
                    }
                },
            }
            i = i + 1;
        }
        assert(all.take(i as int) =~= all);
        self.store.infra.commit(batch);
        Ok(())
    }
}

/// The name under which a preference of a list is stored.
pub open spec fn stored_name(prefs: Seq<(Seq<char>, Seq<u8>)>, i: int) -> Seq<char> {
    indexed_name(prefs[i].0, occurrences(prefs.take(i), prefs[i].0))
}

proof fn pref_write_at(user: Uuid, prefs: Seq<(Seq<char>, Seq<u8>)>, i: int)
    requires
        pref_writes(user, prefs) is Ok,
        0 <= i < prefs.len(),
    ensures
        pref_writes(user, prefs)->Ok_0.len() == prefs.len(),
        compact_json(prefs[i].1) is Some,
        pref_writes(user, prefs)->Ok_0[i] == (WriteView::Put {
            key: pref_key(user, stored_name(prefs, i)),
            value: compact_json(prefs[i].1)->0,
        }),
    decreases prefs.len(),
{
    let before = prefs.drop_last();
    if i < before.len() {
        pref_write_at(user, before, i);
        assert(before.take(i) =~= prefs.take(i));
    } else {
        assert(prefs.take(i) =~= before);
        if before.len() > 0 {
            pref_write_at(user, before, 0);
        }
    }
}

proof fn occurrences_grow(prefs: Seq<(Seq<char>, Seq<u8>)>, i: int, j: int)
    requires
        0 <= i < j < prefs.len(),
    ensures
        occurrences(prefs.take(i), prefs[i].0) < occurrences(prefs.take(j), prefs[i].0),
    decreases j,
{
    assert(prefs.take(j).drop_last() =~= prefs.take(j - 1));
    if i < j - 1 {
        occurrences_grow(prefs, i, j - 1);
    }
}

/// No two preferences of a list are stored under one name.
proof fn stored_names_differ(prefs: Seq<(Seq<char>, Seq<u8>)>, i: int, j: int)
    requires
        0 <= i < j < prefs.len(),
        !prefs[i].0.contains('\0'),
        !prefs[j].0.contains('\0'),
    ensures
        stored_name(prefs, i) != stored_name(prefs, j),
{
    reveal_strlit("\0");
    let a = prefs[i].0;
    let b = prefs[j].0;
    let n = occurrences(prefs.take(i), a);
    let m = occurrences(prefs.take(j), b);
    assert("\0"@ =~= seq!['\0']);
    if indexed_name(a, n) == indexed_name(b, m) {
        plain_name_is_base(a);
        plain_name_is_base(b);
        numbered_name_has_base(a, decimal(n));
        numbered_name_has_base(b, decimal(m));
        assert(a == b);
        occurrences_grow(prefs, i, j);
        let named = a + "\0"@;
        if n > 0 {
            assert(indexed_name(a, n).skip(named.len() as int) =~= decimal(n));
            assert(indexed_name(b, m).skip(named.len() as int) =~= decimal(m));
            decimal_injective(n, m);
        } else {
            assert(indexed_name(b, m)[a.len() as int] == '\0');
            assert(indexed_name(a, n).len() == a.len());
        }
    }
}

proof fn only_removals(rows: Rows, ws: Seq<WriteView>, key: Seq<u8>)
    requires
        forall|i: int| 0 <= i < ws.len() ==> #[trigger] ws[i] is Remove,
    ensures
        ws.contains(WriteView::Remove { key }) ==> lookup(write_rows(rows, ws), key) is None,
        !ws.contains(WriteView::Remove { key }) ==> lookup(write_rows(rows, ws), key) == lookup(
            rows,
            key,
        ),
    decreases ws.len(),
{
    if ws.len() > 0 {
        let before = ws.drop_last();
        let w = WriteView::Remove { key };
        assert forall|i: int| 0 <= i < before.len() implies #[trigger] before[i] is Remove by {
            assert(before[i] == ws[i]);
        }
        only_removals(rows, before, key);
        assert(ws[ws.len() - 1] is Remove);
        if before.contains(w) {
            let i = choose|i: int| 0 <= i < before.len() && before[i] == w;
            assert(ws[i] == w);
        }
        if ws.contains(w) && !before.contains(w) {
            let i = choose|i: int| 0 <= i < ws.len() && ws[i] == w;
            if i < before.len() {
                assert(before[i] == w);
            }
        } else if !ws.contains(w) {
            assert(ws[ws.len() - 1] != w);
        }
    }
}

/// Once the preferences of a namespace are replaced, also by none, a name of the user that no new
/// one is stored under has none where it is in the namespace, and has what it had where it is
/// not; and every other user's preferences are as they were.
pub proof fn replaced_namespace_is_cleared(
    s: MetastoreView,
    user: Uuid,
    namespace: Seq<char>,
    prefs: Seq<(Seq<char>, Seq<u8>)>,
    owner: Uuid,
    other: Seq<char>,
)
    requires
        s.infra.rows.dom().finite(),
        replacement(s.infra.rows, user, namespace, prefs) is Ok,
        owner == user ==> forall|k: int|
            0 <= k < prefs.len() ==> #[trigger] stored_name(prefs, k) != other,
    ensures
        ({
            let after = infra_committed(
                s,
                replacement(s.infra.rows, user, namespace, prefs)->Ok_0,
            ).infra.rows;
            lookup(after, pref_key(owner, other)) == (if owner == user && begins_with(
                other,
                namespace,
            ) {
                None
            } else {
                lookup(s.infra.rows, pref_key(owner, other))
            })
        }),
{
    let m = s.infra.rows;
    let f = |row: RowView| namespace_removal(row, namespace);
    let rows = pref_rows(m, user);
    let removals = collect_all(rows, f)->Ok_0;
    let writes = pref_writes(user, prefs)->Ok_0;
    let key = pref_key(owner, other);
    let removal = WriteView::Remove { key };
    write_rows_concat(m, removals, writes);
    if prefs.len() > 0 {
        pref_write_at(user, prefs, 0);
    }
    assert forall|j: int| 0 <= j < writes.len() implies writes_key(#[trigger] writes[j]) != key by {
        pref_write_at(user, prefs, j);
        infra_keys_injective(KeyTag::AccountPref, stored_name(prefs, j), other, user, owner);
    }
    write_rows_frame(write_rows(m, removals), writes, key);
    let prefix = owner_prefix_bytes(KeyTag::AccountPref, user);
    let keys = prefix_keys(prefix);
    scan_lists(m, keys);
    collected(rows, f, rows.len(), removal);
    assert forall|j: int| 0 <= j < removals.len() implies #[trigger] removals[j] is Remove by {
        assert(removals.contains(removals[j]));
        collected(rows, f, rows.len(), removals[j]);
    }
    only_removals(m, removals, key);
    second_text_round_trip(KeyTag::AccountPref.byte(), uuid_bytes(owner), other);
    if owner == user && m.contains_key(key) {
        assert(key.take(prefix.len() as int) =~= prefix);
        assert(m.contains_key(key) && keys.contains(key));
        let k = choose|k: int| 0 <= k < rows.len() && (#[trigger] rows[k]).key == key;
        if begins_with(other, namespace) {
            assert(f(rows[k]) == Contribution::<WriteView>::Ok(Some(removal)));
        }
    }
    if removals.contains(removal) {
        let k = choose|k: int|
            0 <= k < rows.len() && f(#[trigger] rows[k]) == Contribution::<WriteView>::Ok(
                Some(removal),
            );
        assert(rows[k].key == key);
        assert(keys.contains(rows[k].key));
        if owner != user {
            let (a, b) = (uuid_bytes(user), uuid_bytes(owner));
            let x = key.skip(prefix.len() as int);
            let y = escaped(encode_utf8(other));
            assert(key =~= prefix + x);
            assert((prefix + x).skip(1) =~= escaped(a) + x);
            assert(key.skip(1) =~= escaped(b) + y);
            escaped_round_trip(a, x);
            escaped_round_trip(b, y);
            uuid_bytes_round_trip(user);
            uuid_bytes_round_trip(owner);
        }
    }
}

/// Once the preferences of a namespace are replaced, each new one is stored under its name;
/// any other name in the namespace has none, and names outside it have what they had.
pub proof fn replaced_preferences_are_stored(
    s: MetastoreView,
    user: Uuid,
    namespace: Seq<char>,
    prefs: Seq<(Seq<char>, Seq<u8>)>,
    i: int,
    other: Seq<char>,
)
    requires
        s.infra.rows.dom().finite(),
        replacement(s.infra.rows, user, namespace, prefs) is Ok,
        forall|k: int| 0 <= k < prefs.len() ==> !(#[trigger] prefs[k]).0.contains('\0'),
        0 <= i < prefs.len(),
    ensures
        ({
            let after = infra_committed(
                s,
                replacement(s.infra.rows, user, namespace, prefs)->Ok_0,
            ).infra.rows;
            &&& lookup(after, pref_key(user, stored_name(prefs, i))) == compact_json(prefs[i].1)
            &&& (forall|k: int| 0 <= k < prefs.len() ==> #[trigger] stored_name(prefs, k) != other)
                ==> lookup(after, pref_key(user, other)) == (if begins_with(other, namespace) {
                None
            } else {
                lookup(s.infra.rows, pref_key(user, other))
            })
        }),
{
    let m = s.infra.rows;
    let f = |row: RowView| namespace_removal(row, namespace);
    let rows = pref_rows(m, user);
    let removals = collect_all(rows, f)->Ok_0;
    let writes = pref_writes(user, prefs)->Ok_0;
    let ws = removals + writes;
    pref_write_at(user, prefs, i);
    let at = removals.len() + i;
    assert(ws[at] == writes[i]);
    assert forall|j: int| at < j < ws.len() implies writes_key(#[trigger] ws[j]) != writes_key(
        ws[at],
    ) by {
        let k = j - removals.len();
        assert(ws[j] == writes[k]);
        pref_write_at(user, prefs, k);
        stored_names_differ(prefs, i, k);
        infra_keys_injective(KeyTag::AccountPref, stored_name(prefs, i), stored_name(prefs, k), user, user);
    }
    write_rows_last(m, ws, at);
    if forall|k: int| 0 <= k < prefs.len() ==> #[trigger] stored_name(prefs, k) != other {
        replaced_namespace_is_cleared(s, user, namespace, prefs, user, other);
    }
}

} // verus!
