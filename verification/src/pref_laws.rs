//! What is read of preferences, whatever was done before.

use vstd::prelude::*;

use crate::dispatch_infra::pref_inserted;
use crate::encoding::second_text_round_trip;
use crate::errors::MetastoreError;
use crate::infra_schema::{infra_keys_injective, owner_prefix_bytes};
use crate::json::compact_json;
use crate::keys::KeyTag;
use crate::metastore::MetastoreView;
use crate::infra_ops::infra_committed;
use crate::pref_ops::{begins_with, numbered_name_has_base, replaced_preferences_are_stored};
use crate::pref_ops::{replacement, stored_name};
use crate::pref_ops::{plain_name_is_base, pref_key, pref_rows, pref_stored, preference};
use crate::scan::{collect_all, collected, Contribution};
use crate::store::{lookup, prefix_keys, row_is_listed, write_one, write_rows_finite};
use crate::store::{write_rows_frame, RowView, WriteView};
use crate::types::{uuid_bytes, Uuid};

verus! {

/// A preference that was stored is among the preferences of its user, under its name and with
/// its value; no other preference, of its own user or of another, has changed. A value that is
/// not JSON is refused and changes nothing.
#[verifier::spinoff_prover]
pub proof fn stored_preference_is_listed(
    s: MetastoreView,
    user: Uuid,
    name: Seq<char>,
    value: Seq<u8>,
    other_user: Uuid,
    other: Seq<char>,
)
    requires
        s.infra.rows.dom().finite(),
        !name.contains('\0'),
    ensures
        ({
            let (r, t) = pref_stored(s, user, name, value);
            let list = collect_all(pref_rows(t.infra.rows, user), |row: RowView| preference(row));
            &&& r is Ok <==> compact_json(value) is Some
            &&& r is Err ==> t == s
            &&& r is Ok && compact_json(compact_json(value)->0) is Some && list is Ok
                ==> list->Ok_0.contains((name, compact_json(compact_json(value)->0)->0))
            &&& other_user != user || other != name ==> lookup(
                t.infra.rows,
                pref_key(other_user, other),
            ) == lookup(s.infra.rows, pref_key(other_user, other))
        }),
{
    if compact_json(value) is Some {
        let key = pref_key(user, name);
        let w = WriteView::Put { key, value: compact_json(value)->0 };
        let t = pref_stored(s, user, name, value).1;
        write_one(s.infra.rows, w);
        write_rows_finite(s.infra.rows, seq![w]);
        let prefix = owner_prefix_bytes(KeyTag::AccountPref, user);
        assert(key.take(prefix.len() as int) =~= prefix);
        let k = row_is_listed(t.infra.rows, prefix_keys(prefix), key);
        second_text_round_trip(KeyTag::AccountPref.byte(), uuid_bytes(user), name);
        plain_name_is_base(name);
        let rows = pref_rows(t.infra.rows, user);
        let f = |row: RowView| preference(row);
        if compact_json(compact_json(value)->0) is Some && collect_all(rows, f) is Ok {
            let x = (name, compact_json(compact_json(value)->0)->0);
            assert(f(rows[k]) == Contribution::<(Seq<char>, Seq<u8>)>::Ok(Some(x)));
            collected(rows, f, rows.len(), x);
        }
        infra_keys_injective(KeyTag::AccountPref, name, other, user, other_user);
        if other_user != user || other != name {
            write_rows_frame(s.infra.rows, seq![w], pref_key(other_user, other));
        }
    }
}

/// A preference that is there is not replaced by one that is only to be stored where there is
/// none.
pub proof fn present_preference_is_kept(
    s: MetastoreView,
    user: Uuid,
    name: Seq<char>,
    value: Seq<u8>,
)
    ensures
        lookup(s.infra.rows, pref_key(user, name)) is Some ==> pref_inserted(s, user, name, value)
            == (Ok::<(), MetastoreError>(()), s),
        lookup(s.infra.rows, pref_key(user, name)) is None && compact_json(value) is Some ==> lookup(
            pref_inserted(s, user, name, value).1.infra.rows,
            pref_key(user, name),
        ) == compact_json(value),
{
    if compact_json(value) is Some {
        write_one(
            s.infra.rows,
            WriteView::Put { key: pref_key(user, name), value: compact_json(value)->0 },
        );
    }
}

/// A name is in a namespace exactly where it goes on from it.
pub proof fn namespace_is_a_beginning(namespace: Seq<char>, rest: Seq<char>, name: Seq<char>)
    ensures
        begins_with(namespace + rest, namespace),
        begins_with(name, namespace) ==> name == namespace + name.skip(namespace.len() as int),
{
    assert((namespace + rest).take(namespace.len() as int) =~= namespace);
    if begins_with(name, namespace) {
        assert(name =~= name.take(namespace.len() as int) + name.skip(namespace.len() as int));
    }
}

/// Once the preferences of a namespace were replaced, each new one is among the preferences of
/// the user, under the name that it was given and with its value, however often the name is
/// given.
#[verifier::spinoff_prover]
pub proof fn replaced_preferences_are_listed(
    s: MetastoreView,
    user: Uuid,
    namespace: Seq<char>,
    prefs: Seq<(Seq<char>, Seq<u8>)>,
    i: int,
)
    requires
        s.infra.rows.dom().finite(),
        replacement(s.infra.rows, user, namespace, prefs) is Ok,
        forall|k: int| 0 <= k < prefs.len() ==> !(#[trigger] prefs[k]).0.contains('\0'),
        0 <= i < prefs.len(),
        compact_json(prefs[i].1) matches Some(text) && compact_json(text) is Some,
    ensures
        ({
            let t = infra_committed(s, replacement(s.infra.rows, user, namespace, prefs)->Ok_0);
            collect_all(pref_rows(t.infra.rows, user), |row: RowView| preference(row)) matches Ok(list)
                ==> list.contains((prefs[i].0, compact_json(compact_json(prefs[i].1)->0)->0))
        }),
{
    let ws = replacement(s.infra.rows, user, namespace, prefs)->Ok_0;
    let t = infra_committed(s, ws);
    let name = stored_name(prefs, i);
    let key = pref_key(user, name);
    replaced_preferences_are_stored(s, user, namespace, prefs, i, name);
    write_rows_finite(s.infra.rows, ws);
    let prefix = owner_prefix_bytes(KeyTag::AccountPref, user);
    assert(key.take(prefix.len() as int) =~= prefix);
    let k = row_is_listed(t.infra.rows, prefix_keys(prefix), key);
    second_text_round_trip(KeyTag::AccountPref.byte(), uuid_bytes(user), name);
    assert(!prefs[i].0.contains('\0'));
    plain_name_is_base(prefs[i].0);
    let n = crate::pref_ops::occurrences(prefs.take(i), prefs[i].0);
    numbered_name_has_base(prefs[i].0, crate::text::decimal(n));
    reveal_strlit("\0");
    assert("\0"@ =~= seq!['\0']);
    let rows = pref_rows(t.infra.rows, user);
    let f = |row: RowView| preference(row);
    if collect_all(rows, f) is Ok {
        let x = (prefs[i].0, compact_json(compact_json(prefs[i].1)->0)->0);
        assert(f(rows[k]) == Contribution::<(Seq<char>, Seq<u8>)>::Ok(Some(x)));
        collected(rows, f, rows.len(), x);
    }
}

} // verus!
