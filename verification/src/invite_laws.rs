//! What is read of invite codes, whatever was done before.

use vstd::prelude::*;
use vstd::utf8::encode_utf8;

use crate::account_laws::never_fails;
use crate::bytes::has_prefix;
use crate::clock::is_timestamp;
use crate::comms_laws::all_readable;
use crate::delegation_ops::did_text;
use crate::errors::MetastoreError;
use crate::infra_ops::{did_of_user, handle_of_user, infra_committed};
use crate::infra_schema::{infra_keys_injective, invite_at, invite_use_key_bytes, text_key_bytes};
use crate::infra_schema::{InviteRow, InviteUseRow};
use crate::invite_ops::{account_disable_write, after_code, disable_write, invite_by, invite_created};
use crate::invite_ops::{invite_for, invite_key, invite_list, invite_made, invite_page};
use crate::invite_ops::{invite_refusal, invite_rows, invite_use, invite_write, invite_writes};
use crate::invite_ops::{list_number, listed_invite, maker_removals, new_invite, use_rows, use_writes};
use crate::invite_ops::{uses_of_code, InviteCodeSortOrder, InviteErrorView};
use crate::dispatch_infra::{info_of_code, use_forgotten, uses_left};
use crate::infra_schema::id_key_bytes;
use crate::invite_ops::{code_used_by, one_less, use_taken, user_code, user_did, uses_of_codes};
use crate::invite_ops::{InviteInfo, InviteUse, ListedInvite};
use crate::types::is_handle;
use crate::user_hash::hash_of;
use crate::users::user_at;
use crate::keys::KeyTag;
use crate::metastore::MetastoreView;
use crate::scan::{collect, collect_all, collected, rewriting_rows, Contribution};
use crate::sort::{sorted_in_order, sorting_keeps, stable_sorted};
use crate::store::{lookup, prefix_keys, row_is_listed, row_removals, scan_lists, storable};
use crate::store::{write_one, write_rows, write_rows_finite, write_rows_frame, write_rows_last};
use crate::store::{writes_key, RowView, Rows, WriteView};
use crate::types::Uuid;
use crate::user_hash::UserHashes;

verus! {

/// A row of an invite code.
pub open spec fn is_invite_key(key: Seq<u8>) -> bool {
    has_prefix(key, seq![KeyTag::InviteCode.byte()])
}

/// Every invite code stands under its own name.
pub open spec fn codes_stand_under_names(infra: Rows) -> bool {
    forall|k: Seq<u8>|
        infra.contains_key(k) && #[trigger] is_invite_key(k) ==> (InviteRow::read(infra[k]) matches Some(
            v,
        ) ==> k == invite_key(v.code))
}

proof fn invite_key_tag(code: Seq<char>)
    ensures
        is_invite_key(invite_key(code)),
        prefix_keys(seq![KeyTag::InviteCode.byte()]).contains(invite_key(code)),
{
    assert(invite_key(code).take(1) =~= seq![KeyTag::InviteCode.byte()]);
}

/// A new code keeps every code under its own name, and so does each write that leaves a code's
/// name in its row.
pub proof fn renaming_no_code(infra: Rows, code: Seq<char>, v: InviteRow)
    requires
        codes_stand_under_names(infra),
        v.code == code,
        v.fits(),
    ensures
        codes_stand_under_names(
            write_rows(infra, seq![WriteView::Put { key: invite_key(code), value: v.stored() }]),
        ),
{
    let w = WriteView::Put { key: invite_key(code), value: v.stored() };
    write_one(infra, w);
    v.round_trip();
    let after = write_rows(infra, seq![w]);
    assert forall|k: Seq<u8>|
        after.contains_key(k) && #[trigger] is_invite_key(k) implies (InviteRow::read(
        after[k],
    ) matches Some(u) ==> k == invite_key(u.code)) by {
        if k != invite_key(code) {
            write_rows_frame(infra, seq![w], k);
            assert(infra.contains_key(k));
        }
    }
}

proof fn code_of_row(infra: Rows, row: RowView, v: InviteRow)
    requires
        codes_stand_under_names(infra),
        infra.contains_key(row.key),
        infra[row.key] == row.value,
        prefix_keys(seq![KeyTag::InviteCode.byte()]).contains(row.key),
        InviteRow::read(row.value) == Some(v),
    ensures
        invite_at(infra, invite_key(v.code)) == Ok::<Option<InviteRow>, MetastoreError>(Some(v)),
{
    assert(is_invite_key(row.key));
}

/// The list of invite codes names exactly the codes that there are, as many times as there are
/// rows. It gives each the uses that are left, its maker and the time at which it was made. It
/// says that a code is disabled exactly where the code is refused as disabled; of one that is
/// not, the uses are at an end exactly where it is refused as exhausted.
#[verifier::spinoff_prover]
#[verifier::rlimit(40)]
pub proof fn listed_codes_are_refused_alike(
    infra: Rows,
    sort: InviteCodeSortOrder,
    code: Seq<char>,
)
    requires
        infra.dom().finite(),
        codes_stand_under_names(infra),
        invite_list(infra, sort) is Ok,
    ensures
        ({
            let list = invite_list(infra, sort)->Ok_0;
            let refusal = invite_refusal(infra, code);
            &&& list.len() == invite_rows(infra).len()
            &&& (exists|i: int| 0 <= i < list.len() && (#[trigger] list[i]).code == code) <==> refusal
                != Some(InviteErrorView::NotFound)
            &&& forall|i: int|
                0 <= i < list.len() && (#[trigger] list[i]).code == code ==> {
                    &&& invite_at(infra, invite_key(code)) matches Ok(Some(v)) && {
                        &&& list[i].available_uses == v.available_uses
                        &&& v.created_by matches Some(id) ==> list[i].created_by_user == id
                        &&& v.created_by is None ==> list[i].created_by_user.bits == 0
                        &&& is_timestamp(v.created_at_ms as int) ==> list[i].created_at
                            == v.created_at_ms
                    }
                    &&& list[i].disabled == Some(refusal == Some(InviteErrorView::Disabled))
                    &&& list[i].disabled == Some(false) ==> (list[i].available_uses <= 0
                        <==> refusal == Some(InviteErrorView::ExhaustedUses)) && (
                    list[i].available_uses > 0 <==> refusal is None)
                }
        }),
{
    let rows = invite_rows(infra);
    let keys = prefix_keys(seq![KeyTag::InviteCode.byte()]);
    let f = |row: RowView| listed_invite(row);
    let num = |v: ListedInvite| list_number(v, sort);
    let found = collect_all(rows, f)->Ok_0;
    let list = invite_list(infra, sort)->Ok_0;
    assert(list == stable_sorted(found, num));
    sorted_in_order(found, num);
    scan_lists(infra, keys);
    every_code_counts(rows, rows.len());
    assert forall|i: int| 0 <= i < list.len() && (#[trigger] list[i]).code == code implies (
    invite_at(infra, invite_key(code)) matches Ok(Some(v)) && f(
        RowView { key: invite_key(code), value: infra[invite_key(code)] },
    ) == Contribution::<ListedInvite>::Ok(Some(list[i]))) by {
        assert(list.contains(list[i]));
        sorting_keeps(found, num, list[i]);
        collected(rows, f, rows.len(), list[i]);
        let k = choose|k: int|
            0 <= k < rows.len() && f(#[trigger] rows[k]) == Contribution::<ListedInvite>::Ok(
                Some(list[i]),
            );
        assert(keys.contains(rows[k].key) && infra.contains_key(rows[k].key));
        code_of_row(infra, rows[k], InviteRow::read(rows[k].value)->0);
    }
    if invite_refusal(infra, code) != Some(InviteErrorView::NotFound) {
        let key = invite_key(code);
        invite_key_tag(code);
        let k = row_is_listed(infra, keys, key);
        all_readable(rows, f, rows.len());
        assert(f(rows[k]) is Ok);
        let v = InviteRow::read(infra[key])->0;
        code_of_row(infra, rows[k], v);
        assert(is_invite_key(key));
        infra_keys_injective(KeyTag::InviteCode, v.code, code, Uuid { bits: 0 }, Uuid { bits: 0 });
        let x = f(rows[k])->Ok_0->0;
        collected(rows, f, rows.len(), x);
        sorting_keeps(found, num, x);
        let i = choose|i: int| 0 <= i < list.len() && list[i] == x;
        assert(list[i].code == code);
    }
}

proof fn every_code_counts(rows: Seq<RowView>, limit: nat)
    requires
        limit >= rows.len(),
        collect(rows, |row: RowView| listed_invite(row), limit) is Ok,
    ensures
        collect(rows, |row: RowView| listed_invite(row), limit)->Ok_0.len() == rows.len(),
    decreases rows.len(),
{
    if rows.len() > 0 {
        let f = |row: RowView| listed_invite(row);
        assert(f(rows[0]) matches Ok(Some(_)));
        every_code_counts(rows.skip(1), (limit - 1) as nat);
    }
}

/// The list of invite codes has the last made first, or those with the fewest uses left.
pub proof fn listed_codes_in_order(infra: Rows, sort: InviteCodeSortOrder, i: int, j: int)
    requires
        invite_list(infra, sort) is Ok,
        0 <= i < j < invite_list(infra, sort)->Ok_0.len(),
    ensures
        ({
            let list = invite_list(infra, sort)->Ok_0;
            &&& sort is Recent ==> list[i].created_at >= list[j].created_at
            &&& sort is Usage ==> list[i].available_uses <= list[j].available_uses
        }),
{
    let num = |v: ListedInvite| list_number(v, sort);
    let found = collect_all(invite_rows(infra), |row: RowView| listed_invite(row))->Ok_0;
    sorted_in_order(found, num);
    let list = invite_list(infra, sort)->Ok_0;
    assert(list == stable_sorted(found, num));
    assert(num(list[i]) <= num(list[j]));
}

/// A page of the list starts after the code that it names, or at the beginning, goes on in the
/// order of the list, and has no more entries than were asked for. After a code that is not
/// listed there is nothing.
pub proof fn page_follows_list(list: Seq<ListedInvite>, code: Seq<char>, limit: nat, i: int, k: int)
    requires
        0 <= k,
    ensures
        k < limit && k < list.len() ==> k < invite_page(list, None, limit).len() && invite_page(
            list,
            None,
            limit,
        )[k] == list[k],
        invite_page(list, None, limit).len() <= limit,
        invite_page(list, Some(code), limit).len() <= limit,
        (0 <= i < list.len() && list[i].code == code && forall|j: int|
            0 <= j < i ==> (#[trigger] list[j]).code != code) ==> {
            let page = invite_page(list, Some(code), limit);
            &&& page.len() == (if list.len() - i - 1 <= limit {
                (list.len() - i - 1) as nat
            } else {
                limit
            })
            &&& k < page.len() ==> page[k] == list[i + 1 + k]
        },
        (forall|j: int| 0 <= j < list.len() ==> (#[trigger] list[j]).code != code) ==> invite_page(
            list,
            Some(code),
            limit,
        ).len() == 0,
{
    if 0 <= i < list.len() && list[i].code == code && forall|j: int|
        0 <= j < i ==> (#[trigger] list[j]).code != code {
        after_first(list, code, i);
    }
    if forall|j: int| 0 <= j < list.len() ==> (#[trigger] list[j]).code != code {
        after_none(list, code);
    }
}

proof fn after_first(list: Seq<ListedInvite>, code: Seq<char>, i: int)
    requires
        0 <= i < list.len(),
        list[i].code == code,
        forall|j: int| 0 <= j < i ==> (#[trigger] list[j]).code != code,
    ensures
        after_code(list, code) == list.skip(i + 1),
    decreases list.len(),
{
    if i > 0 {
        assert(list[0].code != code);
        let t = list.skip(1);
        assert forall|j: int| 0 <= j < i - 1 implies (#[trigger] t[j]).code != code by {
            assert(list[j + 1].code != code);
        }
        after_first(t, code, i - 1);
        assert(t.skip(i) =~= list.skip(i + 1));
    }
}

proof fn after_none(list: Seq<ListedInvite>, code: Seq<char>)
    requires
        forall|j: int| 0 <= j < list.len() ==> (#[trigger] list[j]).code != code,
    ensures
        after_code(list, code).len() == 0,
    decreases list.len(),
{
    if list.len() > 0 {
        assert(list[0].code != code);
        let t = list.skip(1);
        assert forall|j: int| 0 <= j < t.len() implies (#[trigger] t[j]).code != code by {
            assert(list[j + 1].code != code);
        }
        after_none(t, code);
    }
}

/// A code that was made is listed as not disabled, with its uses, its maker and the time at
/// which it was made; and both its maker and its account read it so.
#[verifier::spinoff_prover]
#[verifier::rlimit(60)]
pub proof fn created_code_is_listed(
    s: MetastoreView,
    code: Seq<char>,
    uses: i32,
    for_account: Option<Seq<char>>,
    created_by: Option<Uuid>,
    now: i64,
    sort: InviteCodeSortOrder,
)
    requires
        s.infra.rows.dom().finite(),
        s.infra.get(invite_key(code)) is None,
        is_timestamp(now as int),
        for_account matches Some(a) ==> did_text(a),
        new_invite(code, uses, for_account, created_by, now).fits(),
    ensures
        ({
            let v = new_invite(code, uses, for_account, created_by, now);
            let t = invite_created(s, v).1;
            let list = invite_list(t.infra.rows, sort);
            let of_maker = collect_all(
                invite_rows(t.infra.rows),
                |row: RowView| invite_made(row, created_by->0, t.users.rows, t.user_hashes),
            );
            let of_account = collect_all(
                invite_rows(t.infra.rows),
                |row: RowView| invite_for(row, for_account->0, t.users.rows, t.user_hashes),
            );
            &&& list is Ok ==> exists|x: ListedInvite| #[trigger]
                list->Ok_0.contains(x) && x.code == code && x.available_uses == uses && x.disabled
                    == Some(false) && x.created_at == now && (created_by matches Some(id)
                    ==> x.created_by_user == id)
            &&& created_by is Some && of_maker is Ok ==> exists|x: InviteInfo| #[trigger]
                of_maker->Ok_0.contains(x) && as_made(x, t, code, uses, for_account, created_by, now)
            &&& for_account is Some && of_account is Ok ==> exists|x: InviteInfo| #[trigger]
                of_account->Ok_0.contains(x) && as_made(
                    x,
                    t,
                    code,
                    uses,
                    for_account,
                    created_by,
                    now,
                )
        }),
{
    let v = new_invite(code, uses, for_account, created_by, now);
    let t = invite_created(s, v).1;
    let key = invite_key(code);
    let keys = prefix_keys(seq![KeyTag::InviteCode.byte()]);
    v.round_trip();
    write_one(s.infra.rows, invite_write(v));
    write_rows_finite(s.infra.rows, seq![invite_write(v)]);
    invite_key_tag(code);
    let k = row_is_listed(t.infra.rows, keys, key);
    let rows = invite_rows(t.infra.rows);
    if invite_list(t.infra.rows, sort) is Ok {
        let f = |row: RowView| listed_invite(row);
        let num = |v: ListedInvite| list_number(v, sort);
        let x = f(rows[k])->Ok_0->0;
        assert(f(rows[k]) == Contribution::<ListedInvite>::Ok(Some(x)));
        collected(rows, f, rows.len(), x);
        let found = collect_all(rows, f)->Ok_0;
        sorting_keeps(found, num, x);
        let list = invite_list(t.infra.rows, sort)->Ok_0;
        assert(list == stable_sorted(found, num));
        assert(list.contains(x) && x.code == code);
    }
    let g = |row: RowView| invite_made(row, created_by->0, t.users.rows, t.user_hashes);
    if created_by is Some && collect_all(rows, g) is Ok {
        let x = g(rows[k])->Ok_0->0;
        assert(g(rows[k]) == Contribution::<InviteInfo>::Ok(Some(x)));
        collected(rows, g, rows.len(), x);
        assert(as_made(x, t, code, uses, for_account, created_by, now));
    }
    let h = |row: RowView| invite_for(row, for_account->0, t.users.rows, t.user_hashes);
    if for_account is Some && collect_all(rows, h) is Ok {
        let x = h(rows[k])->Ok_0->0;
        assert(h(rows[k]) == Contribution::<InviteInfo>::Ok(Some(x)));
        collected(rows, h, rows.len(), x);
        assert(as_made(x, t, code, uses, for_account, created_by, now));
    }
}

/// A code as it was made.
pub open spec fn as_made(
    x: InviteInfo,
    s: MetastoreView,
    code: Seq<char>,
    uses: i32,
    for_account: Option<Seq<char>>,
    created_by: Option<Uuid>,
    now: i64,
) -> bool {
    &&& x.code == code
    &&& x.available_uses == uses
    &&& x.state is Active
    &&& x.for_account == for_account
    &&& x.created_at == now
    &&& created_by matches Some(id) ==> x.created_by == did_of_user(s.users.rows, s.user_hashes, id)
    &&& created_by is None ==> x.created_by is None
}

/// What is read of a code agrees with its row and with how the code is refused.
pub open spec fn agrees_with_row(x: InviteInfo, s: MetastoreView, v: InviteRow) -> bool {
    &&& x.code == v.code
    &&& x.available_uses == v.available_uses
    &&& x.state is Disabled <==> invite_refusal(s.infra.rows, x.code) == Some(
        InviteErrorView::Disabled,
    )
    &&& v.for_account matches Some(a) ==> (did_text(a) ==> x.for_account == Some(a))
    &&& v.for_account is None ==> x.for_account is None
    &&& is_timestamp(v.created_at_ms as int) ==> x.created_at == v.created_at_ms
    &&& v.created_by matches Some(id) ==> x.created_by == did_of_user(
        s.users.rows,
        s.user_hashes,
        id,
    )
    &&& v.created_by is None ==> x.created_by is None
}

/// An account reads exactly the codes that were made for it, a maker exactly those that it made,
/// and those of some makers are each given with its maker. Each code is read with what its row
/// says, and as disabled exactly where it is refused as disabled.
#[verifier::spinoff_prover]
#[verifier::rlimit(60)]
pub proof fn codes_are_read_by_account_and_maker(
    s: MetastoreView,
    account: Seq<char>,
    maker: Uuid,
    makers: Seq<Uuid>,
    code: Seq<char>,
)
    requires
        s.infra.rows.dom().finite(),
        codes_stand_under_names(s.infra.rows),
        invite_at(s.infra.rows, invite_key(code)) is Ok,
    ensures
        ({
            let rows = invite_rows(s.infra.rows);
            let row = invite_at(s.infra.rows, invite_key(code))->Ok_0;
            let of_account = collect_all(
                rows,
                |r: RowView| invite_for(r, account, s.users.rows, s.user_hashes),
            );
            let of_maker = collect_all(
                rows,
                |r: RowView| invite_made(r, maker, s.users.rows, s.user_hashes),
            );
            let of_makers = collect_all(
                rows,
                |r: RowView| invite_by(r, makers, s.users.rows, s.user_hashes),
            );
            &&& of_account matches Ok(list) ==> {
                &&& (exists|x: InviteInfo| #[trigger] list.contains(x) && x.code == code) <==> (
                row matches Some(v) && v.for_account == Some(account))
                &&& forall|x: InviteInfo| #[trigger]
                    list.contains(x) && x.code == code ==> agrees_with_row(x, s, row->0)
            }
            &&& of_maker matches Ok(list) ==> {
                &&& (exists|x: InviteInfo| #[trigger] list.contains(x) && x.code == code) <==> (
                row matches Some(v) && v.created_by == Some(maker))
                &&& forall|x: InviteInfo| #[trigger]
                    list.contains(x) && x.code == code ==> agrees_with_row(x, s, row->0)
            }
            &&& of_makers matches Ok(list) ==> {
                &&& (exists|x: (Uuid, InviteInfo)| #[trigger]
                    list.contains(x) && x.1.code == code && x.0 == maker) <==> (row matches Some(v)
                    && v.created_by == Some(maker) && makers.contains(maker))
                &&& forall|x: (Uuid, InviteInfo)| #[trigger]
                    list.contains(x) && x.1.code == code ==> agrees_with_row(x.1, s, row->0)
            }
        }),
{
    let infra = s.infra.rows;
    let rows = invite_rows(infra);
    let keys = prefix_keys(seq![KeyTag::InviteCode.byte()]);
    let key = invite_key(code);
    scan_lists(infra, keys);
    invite_key_tag(code);
    assert forall|k: int|
        0 <= k < rows.len() && (InviteRow::read((#[trigger] rows[k]).value) matches Some(v)
            && v.code == code) implies invite_at(infra, key) == Ok::<
        Option<InviteRow>,
        MetastoreError,
    >(InviteRow::read(rows[k].value)) by {
        assert(keys.contains(rows[k].key) && infra.contains_key(rows[k].key));
        code_of_row(infra, rows[k], InviteRow::read(rows[k].value)->0);
    }
    let f = |r: RowView| invite_for(r, account, s.users.rows, s.user_hashes);
    let g = |r: RowView| invite_made(r, maker, s.users.rows, s.user_hashes);
    let h = |r: RowView| invite_by(r, makers, s.users.rows, s.user_hashes);
    let k = if infra.contains_key(key) {
        row_is_listed(infra, keys, key)
    } else {
        0
    };
    if infra.contains_key(key) {
        let v = InviteRow::read(infra[key])->0;
        assert(is_invite_key(key));
        infra_keys_injective(KeyTag::InviteCode, v.code, code, Uuid { bits: 0 }, Uuid { bits: 0 });
        assert(v.code == code);
    }
    if collect_all(rows, f) is Ok {
        let list = collect_all(rows, f)->Ok_0;
        assert forall|x: InviteInfo| #[trigger] list.contains(x) && x.code == code implies (
        invite_at(infra, key) matches Ok(Some(v)) && v.for_account == Some(account)
            && agrees_with_row(x, s, v)) by {
            collected(rows, f, rows.len(), x);
            let i = choose|i: int|
                0 <= i < rows.len() && f(#[trigger] rows[i]) == Contribution::<InviteInfo>::Ok(
                    Some(x),
                );
            let v = InviteRow::read(rows[i].value)->0;
            assert(InviteRow::read(rows[i].value) == Some(v));
        }
        if invite_at(infra, key) matches Ok(Some(v)) && v.for_account == Some(account) {
            let x = f(rows[k])->Ok_0->0;
            assert(f(rows[k]) == Contribution::<InviteInfo>::Ok(Some(x)));
            collected(rows, f, rows.len(), x);
            assert(list.contains(x) && x.code == code);
        }
    }
    if collect_all(rows, g) is Ok {
        let list = collect_all(rows, g)->Ok_0;
        assert forall|x: InviteInfo| #[trigger] list.contains(x) && x.code == code implies (
        invite_at(infra, key) matches Ok(Some(v)) && v.created_by == Some(maker)
            && agrees_with_row(x, s, v)) by {
            collected(rows, g, rows.len(), x);
            let i = choose|i: int|
                0 <= i < rows.len() && g(#[trigger] rows[i]) == Contribution::<InviteInfo>::Ok(
                    Some(x),
                );
            let v = InviteRow::read(rows[i].value)->0;
            assert(InviteRow::read(rows[i].value) == Some(v));
        }
        if invite_at(infra, key) matches Ok(Some(v)) && v.created_by == Some(maker) {
            let x = g(rows[k])->Ok_0->0;
            assert(g(rows[k]) == Contribution::<InviteInfo>::Ok(Some(x)));
            collected(rows, g, rows.len(), x);
            assert(list.contains(x) && x.code == code);
        }
    }
    if collect_all(rows, h) is Ok {
        let list = collect_all(rows, h)->Ok_0;
        assert forall|x: (Uuid, InviteInfo)| #[trigger]
            list.contains(x) && x.1.code == code implies (invite_at(infra, key) matches Ok(Some(v))
            && v.created_by == Some(x.0) && makers.contains(x.0) && agrees_with_row(x.1, s, v)) by {
            collected(rows, h, rows.len(), x);
            let i = choose|i: int|
                0 <= i < rows.len() && h(#[trigger] rows[i])
                    == Contribution::<(Uuid, InviteInfo)>::Ok(Some(x));
            let v = InviteRow::read(rows[i].value)->0;
            assert(InviteRow::read(rows[i].value) == Some(v));
        }
        if invite_at(infra, key) matches Ok(Some(v)) && v.created_by == Some(maker)
            && makers.contains(maker) {
            let x = h(rows[k])->Ok_0->0;
            assert(h(rows[k]) == Contribution::<(Uuid, InviteInfo)>::Ok(Some(x)));
            collected(rows, h, rows.len(), x);
            assert(list.contains(x) && x.1.code == code && x.0 == maker);
        }
    }
}

/// Disabling some codes disables just those, and changes nothing else of them.
pub proof fn disabled_codes_are_disabled(
    s: MetastoreView,
    codes: Seq<Seq<char>>,
    code: Seq<char>,
    v: InviteRow,
)
    requires
        storable(s.infra.rows),
        invite_at(s.infra.rows, invite_key(code)) == Ok::<Option<InviteRow>, MetastoreError>(Some(v)),
        collect_all(codes, |c: Seq<char>| disable_write(s.infra.rows, c)) is Ok,
    ensures
        ({
            let t = infra_committed(
                s,
                collect_all(codes, |c: Seq<char>| disable_write(s.infra.rows, c))->Ok_0,
            ).infra.rows;
            invite_at(t, invite_key(code)) matches Ok(Some(w)) && {
                &&& w.disabled == (v.disabled || codes.contains(code))
                &&& w.code == v.code
                &&& w.available_uses == v.available_uses
                &&& w.for_account == v.for_account
                &&& w.created_by == v.created_by
                &&& w.created_at_ms == v.created_at_ms
            }
        }),
{
    InviteRow::read_fits(s.infra.rows[invite_key(code)]);
    crate::infra_laws::disabling(s.infra.rows, s.infra.rows, codes, codes.len(), code, v);
    let w = InviteRow { disabled: true, ..v };
    assert(w.fits());
    w.round_trip();
}

/// Disabling the codes of some accounts disables just the codes that were made for one of them,
/// and changes nothing else of them.
pub proof fn codes_of_accounts_are_disabled(
    s: MetastoreView,
    accounts: Seq<Seq<char>>,
    code: Seq<char>,
    v: InviteRow,
)
    requires
        storable(s.infra.rows),
        invite_at(s.infra.rows, invite_key(code)) == Ok::<Option<InviteRow>, MetastoreError>(Some(v)),
        collect_all(
            invite_rows(s.infra.rows),
            |row: RowView| account_disable_write(row, accounts),
        ) is Ok,
    ensures
        ({
            let t = infra_committed(
                s,
                collect_all(
                    invite_rows(s.infra.rows),
                    |row: RowView| account_disable_write(row, accounts),
                )->Ok_0,
            ).infra.rows;
            invite_at(t, invite_key(code)) matches Ok(Some(w)) && {
                &&& w.disabled == (v.disabled || (v.for_account matches Some(a) && accounts.contains(
                    a,
                )))
                &&& w.code == v.code
                &&& w.available_uses == v.available_uses
                &&& w.for_account == v.for_account
                &&& w.created_by == v.created_by
                &&& w.created_at_ms == v.created_at_ms
            }
        }),
{
    let infra = s.infra.rows;
    let rows = invite_rows(infra);
    let keys = prefix_keys(seq![KeyTag::InviteCode.byte()]);
    let key = invite_key(code);
    let f = |row: RowView| account_disable_write(row, accounts);
    scan_lists(infra, keys);
    invite_key_tag(code);
    let k = row_is_listed(infra, keys, key);
    all_readable(rows, f, rows.len());
    assert forall|i: int| 0 <= i < rows.len() implies crate::scan::rewrites(
        #[trigger] rows[i],
        f(rows[i]),
    ) && infra.contains_key(rows[i].key) && infra[rows[i].key] == rows[i].value by {
        assert(f(rows[i]) is Ok);
    }
    rewriting_rows(infra, rows, f, rows.len(), key);
    assert(rows[k].key == key);
    InviteRow::read_fits(infra[key]);
    let w = InviteRow { disabled: true, ..v };
    assert(w.fits());
    w.round_trip();
}

/// Each of some codes that were made together is read with the uses, the account and the maker
/// that all of them were made with.
pub proof fn codes_made_together_are_read(
    infra: Rows,
    codes: Seq<Seq<char>>,
    uses: i32,
    for_account: Option<Seq<char>>,
    created_by: Uuid,
    now: i64,
    i: int,
)
    requires
        0 <= i < codes.len(),
        new_invite(codes[i], uses, for_account, Some(created_by), now).fits(),
    ensures
        ({
            let after = write_rows(infra, invite_writes(codes, uses, for_account, created_by, now));
            invite_at(after, invite_key(codes[i])) matches Ok(Some(v)) && {
                &&& v.code == codes[i]
                &&& v.available_uses == uses
                &&& !v.disabled
                &&& v.for_account == for_account
                &&& v.created_by == Some(created_by)
                &&& v.created_at_ms == now
            }
        }),
    decreases codes.len(),
{
    let ws = invite_writes(codes, uses, for_account, created_by, now);
    let v = new_invite(codes[i], uses, for_account, Some(created_by), now);
    v.round_trip();
    if i == codes.len() - 1 {
        write_rows_last(infra, ws, i);
    } else {
        let before = codes.drop_last();
        codes_made_together_are_read(infra, before, uses, for_account, created_by, now, i);
        assert(ws.drop_last() =~= invite_writes(before, uses, for_account, created_by, now));
        infra_keys_injective(
            KeyTag::InviteCode,
            codes.last(),
            codes[i],
            Uuid { bits: 0 },
            Uuid { bits: 0 },
        );
    }
}

/// A use of a code that was recorded is listed among the uses of the code, with the account that
/// used it and the time.
#[verifier::spinoff_prover]
pub proof fn recorded_use_is_listed(s: MetastoreView, code: Seq<char>, user: Uuid, now: i64)
    requires
        s.infra.rows.dom().finite(),
        is_timestamp(now as int),
    ensures
        ({
            let t = infra_committed(s, use_writes(code, user, now));
            let did = did_of_user(s.users.rows, s.user_hashes, user);
            uses_of_code(t, code) matches Ok(list) ==> exists|x: InviteUse| #[trigger]
                list.contains(x) && x.code == code && x.used_at == now && x.used_by_handle
                    == handle_of_user(s.users.rows, s.user_hashes, user) && (did matches Some(d)
                    ==> x.used_by_did == d) && (did is None ==> x.used_by_did
                    == "did:plc:unknown"@)
        }),
{
    let ws = use_writes(code, user, now);
    let t = infra_committed(s, ws);
    let v = InviteUseRow { used_by: user, used_at_ms: now };
    assert(v.fits());
    v.round_trip();
    let prefix = text_key_bytes(KeyTag::InviteUse, code);
    let key = invite_use_key_bytes(code, user);
    assert(key[0] == KeyTag::InviteUse.byte());
    assert(writes_key(ws[1])[0] == KeyTag::InviteUsedBy.byte());
    write_rows_last(s.infra.rows, ws, 0);
    write_rows_finite(s.infra.rows, ws);
    assert(key.take(prefix.len() as int) =~= prefix);
    let k = row_is_listed(t.infra.rows, prefix_keys(prefix), key);
    let rows = use_rows(t.infra.rows, code);
    let f = |row: RowView| invite_use(row, code, t.users.rows, t.user_hashes);
    if uses_of_code(t, code) is Ok {
        let x = f(rows[k])->Ok_0->0;
        assert(f(rows[k]) == Contribution::<InviteUse>::Ok(Some(x)));
        collected(rows, f, rows.len(), x);
        assert(uses_of_code(t, code)->Ok_0.contains(x));
    }
}

spec fn writes_to(ws: Seq<WriteView>, key: Seq<u8>) -> bool {
    exists|i: int| 0 <= i < ws.len() && writes_key(#[trigger] ws[i]) == key
}

spec fn made_by(row: RowView, maker: Uuid) -> bool {
    InviteRow::read(row.value) matches Some(v) && v.created_by == Some(maker)
}

spec fn removed_with_uses(infra: Rows, ws: Seq<WriteView>, row: RowView) -> bool {
    let uses = use_rows(infra, InviteRow::read(row.value)->0.code);
    &&& writes_to(ws, row.key)
    &&& forall|k: int| 0 <= k < uses.len() ==> writes_to(ws, (#[trigger] uses[k]).key)
}

proof fn removals_of_maker(infra: Rows, rows: Seq<RowView>, maker: Uuid)
    requires
        infra.dom().finite(),
        maker_removals(infra, rows, maker) is Ok,
    ensures
        ({
            let ws = maker_removals(infra, rows, maker)->Ok_0;
            &&& forall|i: int| 0 <= i < ws.len() ==> #[trigger] ws[i] is Remove
            &&& forall|j: int|
                0 <= j < rows.len() && made_by(#[trigger] rows[j], maker) ==> removed_with_uses(
                    infra,
                    ws,
                    rows[j],
                )
            &&& forall|i: int|
                0 <= i < ws.len() && is_invite_key(writes_key(#[trigger] ws[i])) ==> exists|k: int|
                    0 <= k < rows.len() && (#[trigger] rows[k]).key == writes_key(ws[i]) && made_by(
                        rows[k],
                        maker,
                    )
        }),
    decreases rows.len(),
{
    if rows.len() > 0 {
        let before = rows.drop_last();
        let n = before.len() as int;
        removals_of_maker(infra, before, maker);
        let head = maker_removals(infra, before, maker)->Ok_0;
        let ws = maker_removals(infra, rows, maker)->Ok_0;
        let last = rows.last();
        let v = InviteRow::read(last.value)->0;
        let uses = use_rows(infra, v.code);
        let tail = row_removals(uses);
        let made = v.created_by == Some(maker);
        assert(made ==> ws == head.push(WriteView::Remove { key: last.key }) + tail);
        assert(!made ==> ws == head);
        assert forall|i: int| 0 <= i < head.len() implies #[trigger] ws[i] == head[i] by {}
        assert forall|i: int| 0 <= i < ws.len() implies #[trigger] ws[i] is Remove by {
            if i < head.len() {
                assert(ws[i] == head[i]);
            }
        }
        assert forall|q: Seq<u8>| #[trigger] writes_to(head, q) implies writes_to(ws, q) by {
            let i = choose|i: int| 0 <= i < head.len() && writes_key(#[trigger] head[i]) == q;
            assert(ws[i] == head[i]);
        }
        assert forall|j: int|
            0 <= j < rows.len() && made_by(#[trigger] rows[j], maker) implies removed_with_uses(
            infra,
            ws,
            rows[j],
        ) by {
            if j < n {
                assert(before[j] == rows[j]);
                assert(removed_with_uses(infra, head, before[j]));
            } else {
                assert(writes_key(ws[head.len() as int]) == rows[j].key);
                assert forall|k: int| 0 <= k < uses.len() implies writes_to(
                    ws,
                    (#[trigger] uses[k]).key,
                ) by {
                    assert(writes_key(ws[head.len() + 1 + k]) == uses[k].key);
                }
            }
        }
        assert forall|i: int|
            0 <= i < ws.len() && is_invite_key(writes_key(#[trigger] ws[i])) implies exists|k: int|
            0 <= k < rows.len() && (#[trigger] rows[k]).key == writes_key(ws[i]) && made_by(
                rows[k],
                maker,
            ) by {
            if i < head.len() {
                assert(ws[i] == head[i]);
                let k = choose|k: int|
                    0 <= k < before.len() && (#[trigger] before[k]).key == writes_key(head[i])
                        && made_by(before[k], maker);
                assert(rows[k] == before[k]);
            } else if i == head.len() {
                assert(rows[n].key == writes_key(ws[i]));
            } else {
                let k = i - head.len() - 1;
                assert(ws[i] == tail[k]);
                use_row_tag(infra, v.code, k);
            }
        }
    }
}

/// Removing the codes that someone made removes just those, each with every use of it.
pub proof fn removed_codes_are_gone(
    s: MetastoreView,
    maker: Uuid,
    code: Seq<char>,
    v: InviteRow,
    user: Uuid,
)
    requires
        s.infra.rows.dom().finite(),
        codes_stand_under_names(s.infra.rows),
        invite_at(s.infra.rows, invite_key(code)) == Ok::<Option<InviteRow>, MetastoreError>(Some(v)),
        maker_removals(s.infra.rows, invite_rows(s.infra.rows), maker) is Ok,
    ensures
        ({
            let infra = s.infra.rows;
            let after = infra_committed(
                s,
                maker_removals(infra, invite_rows(infra), maker)->Ok_0,
            ).infra.rows;
            let key = invite_key(code);
            &&& v.created_by == Some(maker) ==> lookup(after, key) is None && lookup(
                after,
                invite_use_key_bytes(code, user),
            ) is None
            &&& v.created_by != Some(maker) ==> lookup(after, key) == lookup(infra, key)
        }),
{
    let infra = s.infra.rows;
    let rows = invite_rows(infra);
    let keys = prefix_keys(seq![KeyTag::InviteCode.byte()]);
    let key = invite_key(code);
    let ws = maker_removals(infra, rows, maker)->Ok_0;
    let after = write_rows(infra, ws);
    scan_lists(infra, keys);
    invite_key_tag(code);
    let k = row_is_listed(infra, keys, key);
    assert(is_invite_key(key));
    infra_keys_injective(KeyTag::InviteCode, v.code, code, Uuid { bits: 0 }, Uuid { bits: 0 });
    removals_of_maker(infra, rows, maker);
    if v.created_by == Some(maker) {
        assert(made_by(rows[k], maker));
        assert(removed_with_uses(infra, ws, rows[k]));
        let i = choose|i: int| 0 <= i < ws.len() && writes_key(#[trigger] ws[i]) == key;
        crate::commit_laws::removed(infra, ws, i);
        let used = invite_use_key_bytes(code, user);
        let prefix = text_key_bytes(KeyTag::InviteUse, code);
        if infra.contains_key(used) {
            assert(used.take(prefix.len() as int) =~= prefix);
            let m = row_is_listed(infra, prefix_keys(prefix), used);
            assert(writes_to(ws, use_rows(infra, code)[m].key));
            let j = choose|j: int| 0 <= j < ws.len() && writes_key(#[trigger] ws[j]) == used;
            crate::commit_laws::removed(infra, ws, j);
        } else {
            crate::link_laws::removals_add_nothing(infra, ws, used);
        }
    } else {
        assert forall|i: int| 0 <= i < ws.len() implies writes_key(#[trigger] ws[i]) != key by {
            if writes_key(ws[i]) == key {
                let m = choose|m: int|
                    0 <= m < rows.len() && (#[trigger] rows[m]).key == writes_key(ws[i]) && made_by(
                        rows[m],
                        maker,
                    );
                assert(infra.contains_key(rows[m].key) && infra[rows[m].key] == rows[m].value);
            }
        }
        write_rows_frame(infra, ws, key);
    }
}

proof fn use_row_tag(infra: Rows, code: Seq<char>, k: int)
    requires
        0 <= k < use_rows(infra, code).len(),
        infra.dom().finite(),
    ensures
        !is_invite_key(use_rows(infra, code)[k].key),
{
    let keys = prefix_keys(text_key_bytes(KeyTag::InviteUse, code));
    scan_lists(infra, keys);
    let key = use_rows(infra, code)[k].key;
    assert(keys.contains(key));
    let p = text_key_bytes(KeyTag::InviteUse, code);
    assert(key.take(p.len() as int)[0] == KeyTag::InviteUse.byte());
    if is_invite_key(key) {
        assert(key.take(1)[0] == KeyTag::InviteCode.byte());
    }
}

/// What is asked of one code agrees with its row: the uses that are left, and all that the row
/// says of it; of a code that there is not, nothing is read.
pub proof fn code_is_read_alone(s: MetastoreView, code: Seq<char>)
    requires
        codes_stand_under_names(s.infra.rows),
    ensures
        invite_at(s.infra.rows, invite_key(code)) == Ok::<Option<InviteRow>, MetastoreError>(None)
            ==> uses_left(s.infra.rows, code) == Ok::<Option<i32>, MetastoreError>(None)
            && info_of_code(s, code) == Ok::<Option<InviteInfo>, MetastoreError>(None)
            && invite_refusal(s.infra.rows, code) == Some(InviteErrorView::NotFound),
        invite_at(s.infra.rows, invite_key(code)) matches Ok(Some(v)) ==> v.code == code
            && uses_left(s.infra.rows, code) == Ok::<Option<i32>, MetastoreError>(
            Some(v.available_uses),
        ) && (info_of_code(s, code) matches Ok(Some(x)) && agrees_with_row(x, s, v)),
{
    let key = invite_key(code);
    invite_key_tag(code);
    if let Ok(Some(v)) = invite_at(s.infra.rows, key) {
        assert(is_invite_key(key));
        infra_keys_injective(KeyTag::InviteCode, v.code, code, Uuid { bits: 0 }, Uuid { bits: 0 });
    }
}

/// Taking a use of a code leaves one use less, even where none was left, and nothing else of
/// the code changes; of a code that there is not, none can be taken.
pub proof fn taken_use_is_counted(s: MetastoreView, code: Seq<char>)
    requires
        storable(s.infra.rows),
    ensures
        ({
            let (r, t) = use_taken(s, code);
            let before = invite_at(s.infra.rows, invite_key(code));
            &&& r is Ok <==> (before matches Ok(Some(_)))
            &&& r is Err ==> t == s
            &&& before matches Ok(Some(v)) ==> (v.available_uses > i32::MIN ==> (invite_at(
                t.infra.rows,
                invite_key(code),
            ) matches Ok(Some(w)) && w.available_uses == v.available_uses - 1 && w.disabled
                == v.disabled && w.code == v.code && w.for_account == v.for_account && w.created_by
                == v.created_by && w.created_at_ms == v.created_at_ms))
        }),
{
    let key = invite_key(code);
    if let Ok(Some(v)) = invite_at(s.infra.rows, key) {
        InviteRow::read_fits(s.infra.rows[key]);
        let w = InviteRow { available_uses: one_less(v.available_uses), ..v };
        assert(w.fits());
        w.round_trip();
        write_one(s.infra.rows, WriteView::Put { key, value: w.stored() });
    }
}

/// Once the use of a code by someone was forgotten, no code is read as used by them, the use is
/// not listed any more, and what others used is as it was.
pub proof fn forgotten_use_is_gone(s: MetastoreView, user: Uuid, code: Seq<char>, other: Uuid)
    requires
        code_used_by(s.infra.rows, user) == Ok::<Option<Seq<char>>, MetastoreError>(Some(code)),
    ensures
        ({
            let (r, t) = use_forgotten(s, user);
            &&& r is Ok
            &&& code_used_by(t.infra.rows, user) == Ok::<Option<Seq<char>>, MetastoreError>(None)
            &&& lookup(t.infra.rows, invite_use_key_bytes(code, user)) is None
            &&& other != user ==> code_used_by(t.infra.rows, other) == code_used_by(
                s.infra.rows,
                other,
            )
        }),
{
    let used = invite_use_key_bytes(code, user);
    let by_user = id_key_bytes(KeyTag::InviteUsedBy, user);
    let ws = seq![WriteView::Remove { key: used }, WriteView::Remove { key: by_user }];
    assert(used[0] == KeyTag::InviteUse.byte());
    assert(by_user[0] == KeyTag::InviteUsedBy.byte());
    write_rows_last(s.infra.rows, ws, 0);
    write_rows_last(s.infra.rows, ws, 1);
    if other != user {
        let key = id_key_bytes(KeyTag::InviteUsedBy, other);
        assert(key[0] == KeyTag::InviteUsedBy.byte());
        infra_keys_injective(KeyTag::InviteUsedBy, code, code, user, other);
        write_rows_frame(s.infra.rows, ws, key);
    }
}

/// The uses of several codes are those of each, one code after another.
pub proof fn uses_of_several_codes(s: MetastoreView, codes: Seq<Seq<char>>, x: InviteUse)
    requires
        uses_of_codes(s, codes) is Ok,
    ensures
        uses_of_codes(s, codes)->Ok_0.contains(x) <==> exists|i: int|
            0 <= i < codes.len() && (uses_of_code(s, #[trigger] codes[i]) matches Ok(list)
                && list.contains(x)),
    decreases codes.len(),
{
    if codes.len() > 0 {
        let before = codes.drop_last();
        uses_of_several_codes(s, before, x);
        let all = uses_of_codes(s, codes)->Ok_0;
        let head = uses_of_codes(s, before)->Ok_0;
        let tail = uses_of_code(s, codes.last())->Ok_0;
        assert(all == head + tail);
        if all.contains(x) {
            let i = choose|i: int| 0 <= i < all.len() && all[i] == x;
            if i < head.len() {
                assert(head[i] == x);
                let k = choose|k: int|
                    0 <= k < before.len() && (uses_of_code(s, #[trigger] before[k]) matches Ok(list)
                        && list.contains(x));
                assert(codes[k] == before[k]);
            } else {
                assert(tail[i - head.len()] == x);
                assert(codes[codes.len() - 1] == codes.last());
            }
        }
        if exists|i: int|
            0 <= i < codes.len() && (uses_of_code(s, #[trigger] codes[i]) matches Ok(list)
                && list.contains(x)) {
            let i = choose|i: int|
                0 <= i < codes.len() && (uses_of_code(s, #[trigger] codes[i]) matches Ok(list)
                    && list.contains(x));
            if i < before.len() {
                assert(before[i] == codes[i]);
                let k = choose|k: int| 0 <= k < head.len() && head[k] == x;
                assert(all[k] == x);
            } else {
                let k = choose|k: int| 0 <= k < tail.len() && tail[k] == x;
                assert(all[head.len() + k] == x);
            }
        }
    }
}

/// Of some users, exactly those are given with a DID that have one, and exactly those with a
/// code that used one.
pub proof fn users_are_given(s: MetastoreView, ids: Seq<Uuid>, x: (Uuid, Seq<char>))
    ensures
        collect_all(ids, |id: Uuid| user_did(id, s.users.rows, s.user_hashes)) matches Ok(list) && (
        list.contains(x) <==> ids.contains(x.0) && did_of_user(s.users.rows, s.user_hashes, x.0)
            == Some(x.1)),
        collect_all(ids, |id: Uuid| user_code(id, s.infra.rows)) matches Ok(list) && (list.contains(
            x,
        ) <==> ids.contains(x.0) && code_used_by(s.infra.rows, x.0) == Ok::<
            Option<Seq<char>>,
            MetastoreError,
        >(Some(x.1))),
{
    let f = |id: Uuid| user_did(id, s.users.rows, s.user_hashes);
    let g = |id: Uuid| user_code(id, s.infra.rows);
    never_fails(ids, f, ids.len());
    never_fails(ids, g, ids.len());
    collected(ids, f, ids.len(), x);
    collected(ids, g, ids.len(), x);
    if ids.contains(x.0) {
        let i = choose|i: int| 0 <= i < ids.len() && ids[i] == x.0;
        if did_of_user(s.users.rows, s.user_hashes, x.0) == Some(x.1) {
            assert(f(ids[i]) == Contribution::<(Uuid, Seq<char>)>::Ok(Some(x)));
        }
        if code_used_by(s.infra.rows, x.0) == Ok::<Option<Seq<char>>, MetastoreError>(Some(x.1)) {
            assert(g(ids[i]) == Contribution::<(Uuid, Seq<char>)>::Ok(Some(x)));
        }
    }
}

/// A user's DID and handle are those of the user row under the user's hash, where they are well
/// formed; of an unknown user there are none.
pub proof fn user_is_named(users: Rows, hashes: UserHashes, id: Uuid)
    ensures
        hash_of(hashes, id) is None ==> did_of_user(users, hashes, id) is None && handle_of_user(
            users,
            hashes,
            id,
        ) is None,
        hash_of(hashes, id) matches Some(h) ==> (user_at(users, h) matches Some(u) ==> (did_text(
            u.did,
        ) ==> did_of_user(users, hashes, id) == Some(u.did)) && (!did_text(u.did) ==> did_of_user(
            users,
            hashes,
            id,
        ) is None) && (is_handle(encode_utf8(u.handle)) ==> handle_of_user(users, hashes, id)
            == Some(u.handle)) && (!is_handle(encode_utf8(u.handle)) ==> handle_of_user(
            users,
            hashes,
            id,
        ) is None)),
{
}

} // verus!
