//! What clients are answered about account infrastructure when one of them reads what another
//! has asked to be stored.

use vstd::prelude::*;
use vstd::utf8::encode_utf8;

use crate::account_laws::{deletion_request_is_read, full_key_at, reserved_key_is_read};
use crate::account_laws::stored_token_is_read;
use crate::account_ops::{deletion_writes, new_signing_key};
use crate::account_ops::signing_key_writes;
use crate::account_laws::blob_is_found_until_removed;
use crate::account_ops::{blob_cid_key, deletion_did_key, deletion_key, deletion_token, key_used};
use crate::account_ops::signing_key_key;
use crate::clock::is_timestamp;
use crate::codec::text_round_trip;
use crate::comms_laws::{first_items_are_first, latest_messages_in_order, messages_are_counted};
use crate::comms_ops::{first_items, latest_messages};
use crate::encoding::be8;
use crate::errors::MetastoreError;
use crate::infra_schema::{blob_at, blob_meta_key_bytes, deletion_at, id_key_bytes};
use crate::infra_schema::{signing_key_at, BlobRow, SigningKeyRow};
use crate::invite_laws::{codes_made_together_are_read, codes_of_accounts_are_disabled};
use crate::invite_laws::{listed_codes_are_refused_alike, taken_use_is_counted};
use crate::invite_ops::{invite_list, invite_writes, InviteCodeSortOrder};
use crate::keys::KeyTag;
use crate::store::{lookup, write_rows_last, WriteView};
use crate::comms_laws::{metadata_read, queued_message_is_fetched};
use crate::comms_ops::{comms_rows, enqueued, new_message, QueuedMessage};
use crate::delegation_ops::did_text;
use crate::dispatch_infra::{full_key_of, infra_answer, InfraReply};
use crate::infra_laws::{recorded_use_is_read, setting_is_read};
use crate::infra_ops::infra_committed;
use crate::infra_schema::{invite_at, CommsChannel, CommsStatus, CommsType, DeletionRow};
use crate::invite_laws::{code_is_read_alone, codes_stand_under_names, disabled_codes_are_disabled};
use crate::invite_laws::{recorded_use_is_listed, renaming_no_code};
use crate::invite_ops::{invite_created, invite_key, invite_write, new_invite};
use crate::invite_ops::{use_writes, InviteErrorView, InviteUse};
use crate::json::compact_json;
use crate::metastore::MetastoreView;
use crate::pref_laws::stored_preference_is_listed;
use crate::request_laws::holds;
use crate::requests::InfraRequest;
use crate::scan::count_limit;
use crate::store::{storable, write_one};
use crate::types::{Did, Uuid};

verus! {

/// A client who fetches what is due, not before it was queued, finds the message that another
/// has asked to be queued, with all that was asked for, under the identifier that the other was
/// told.
#[verifier::spinoff_prover]
#[verifier::rlimit(60)]
pub proof fn queued_message_is_answered(
    s: MetastoreView,
    t: MetastoreView,
    u: MetastoreView,
    user_id: Option<Uuid>,
    channel: CommsChannel,
    comms_type: CommsType,
    recipient: String,
    subject: Option<String>,
    body: String,
    metadata: Option<Vec<u8>>,
    at: i64,
    batch_size: i64,
    made: InfraReply,
    read: InfraReply,
)
    requires
        s.infra.rows.dom().finite(),
        infra_answer(
            s,
            (InfraRequest::EnqueueComms {
                user_id,
                channel,
                comms_type,
                recipient,
                subject,
                body,
                metadata,
            }),
            made,
            t,
        ),
        infra_answer(t, (InfraRequest::FetchPendingComms { now: at, batch_size }), read, u),
        forall|id: Uuid, now: i64| #[trigger]
            new_message(
                id,
                user_id,
                channel,
                comms_type,
                recipient@,
                subject.deep_view(),
                body@,
                metadata.deep_view(),
                now,
            ).fits(),
        batch_size <= usize::MAX,
        batch_size >= comms_rows(t.infra.rows).len(),
        read matches InfraReply::Messages(Ok(_)),
    ensures
        u == t,
        exists|now: i64| #[trigger]
            is_timestamp(now as int) && (now <= at ==> (made matches InfraReply::Id(Ok(id)) && (
            read matches InfraReply::Messages(Ok(list)) && exists|m: QueuedMessage| #[trigger]
                list.deep_view().contains(m) && m.id == id && m.user_id == user_id && m.channel
                    == channel && m.comms_type == comms_type && m.status == CommsStatus::Pending
                    && m.recipient == recipient@ && m.subject == subject.deep_view() && m.body
                    == body@ && metadata_read(metadata.deep_view(), m.metadata) && m.created_at
                    == now))),
{
    let id = made->Id_0->Ok_0;
    let now = choose|now: i64| #[trigger]
        is_timestamp(now as int) && t == enqueued(
            s,
            new_message(
                id,
                user_id,
                channel,
                comms_type,
                recipient@,
                subject.deep_view(),
                body@,
                metadata.deep_view(),
                now,
            ),
        );
    assert(new_message(
        id,
        user_id,
        channel,
        comms_type,
        recipient@,
        subject.deep_view(),
        body@,
        metadata.deep_view(),
        now,
    ).fits());
    if now <= at {
        queued_message_is_fetched(
            s,
            id,
            user_id,
            channel,
            comms_type,
            recipient@,
            subject.deep_view(),
            body@,
            metadata.deep_view(),
            now,
            at,
            count_limit(batch_size),
        );
    }
}

/// A client who asks about a code that another has asked to be made is told that it is active,
/// with the uses and the account that were asked for, and may use it as long as it has uses.
#[verifier::spinoff_prover]
#[verifier::rlimit(40)]
pub proof fn made_code_is_answered(
    s: MetastoreView,
    t: MetastoreView,
    code: String,
    use_count: i32,
    for_account: Option<Did>,
    made: InfraReply,
    info: InfraReply,
    uses: InfraReply,
    validated: InfraReply,
)
    requires
        codes_stand_under_names(s.infra.rows),
        infra_answer(
            s,
            (InfraRequest::CreateInviteCode { code, use_count, for_account }),
            made,
            t,
        ),
        made == InfraReply::Flag(Ok(true)),
        for_account matches Some(a) ==> did_text(a@),
        holds(code@),
        for_account matches Some(a) ==> holds(a@),
        infra_answer(t, (InfraRequest::GetInviteCodeInfo { code }), info, t),
        infra_answer(t, (InfraRequest::GetInviteCodeAvailableUses { code }), uses, t),
        infra_answer(t, (InfraRequest::ValidateInviteCode { code }), validated, t),
    ensures
        uses == InfraReply::Uses(Ok(Some(use_count))),
        info matches InfraReply::Invite(Ok(Some(x))) && x.code@ == code@ && x.available_uses
            == use_count && x.state is Active && x.for_account.deep_view() == for_account.deep_view()
            && x.created_by is None,
        validated matches InfraReply::Validated(r) && (r is Ok <==> use_count > 0) && (r is Err
            ==> r->Err_0@ == InviteErrorView::ExhaustedUses),
{
    let account = for_account.deep_view();
    let now = choose|now: i64| #[trigger]
        is_timestamp(now as int) && (true, t) == invite_created(
            s,
            new_invite(code@, use_count, account, None, now),
        );
    let v = new_invite(code@, use_count, account, None, now);
    assert(account matches Some(a) ==> did_text(a) && holds(a));
    assert(v.fits());
    v.round_trip();
    write_one(s.infra.rows, invite_write(v));
    renaming_no_code(s.infra.rows, code@, v);
    code_is_read_alone(t, code@);
    let x = info->Invite_0->Ok_0->0;
    assert(x.deep_view().code == code@);
    assert(x.created_by.deep_view() is None ==> x.created_by is None);
}

/// A code that a client has asked to be disabled is refused as disabled.
pub proof fn disabled_code_is_answered(
    s: MetastoreView,
    t: MetastoreView,
    codes: Vec<String>,
    i: int,
    made: InfraReply,
    before: InfraReply,
    validated: InfraReply,
)
    requires
        storable(s.infra.rows),
        0 <= i < codes.len(),
        infra_answer(s, (InfraRequest::DisableInviteCodesByCode { codes }), made, t),
        made matches InfraReply::Done(Ok(_)),
        infra_answer(s, (InfraRequest::GetInviteCodeAvailableUses { code: codes[i] }), before, s),
        before matches InfraReply::Uses(Ok(Some(_))),
        infra_answer(t, (InfraRequest::ValidateInviteCode { code: codes[i] }), validated, t),
    ensures
        validated matches InfraReply::Validated(Err(e)) && e@ == InviteErrorView::Disabled,
{
    let all = codes.deep_view();
    let code = codes[i]@;
    assert(all[i] == code);
    assert(all.contains(code));
    let v = invite_at(s.infra.rows, invite_key(code))->Ok_0->0;
    disabled_codes_are_disabled(s, all, code, v);
}

/// A client who asks who used a code finds the user whom another has named, and one who asks
/// what the user used finds the code.
pub proof fn recorded_use_is_answered(
    s: MetastoreView,
    t: MetastoreView,
    code: String,
    used_by_user: Uuid,
    made: InfraReply,
    uses: InfraReply,
    used: InfraReply,
)
    requires
        s.infra.rows.dom().finite(),
        infra_answer(s, (InfraRequest::RecordInviteCodeUse { code, used_by_user }), made, t),
        infra_answer(t, (InfraRequest::GetInviteCodeUses { code }), uses, t),
        uses matches InfraReply::InviteUses(Ok(_)),
        infra_answer(
            t,
            (InfraRequest::GetInviteCodeUsedByUser { user_id: used_by_user }),
            used,
            t,
        ),
    ensures
        used matches InfraReply::Text(Ok(Some(c))) && c@ == code@,
        uses matches InfraReply::InviteUses(Ok(list)) && exists|x: InviteUse| #[trigger]
            list.deep_view().contains(x) && x.code == code@ && x.used_by_handle
                == crate::infra_ops::handle_of_user(s.users.rows, s.user_hashes, used_by_user),
{
    let now = choose|now: i64| #[trigger]
        is_timestamp(now as int) && t == infra_committed(s, use_writes(code@, used_by_user, now));
    recorded_use_is_read(s, code@, used_by_user, now);
    recorded_use_is_listed(s, code@, used_by_user, now);
    let c = used->Text_0->Ok_0;
    assert(c.deep_view() == Some(code@));
}

/// A client who asks for the key that another has asked to be reserved is given both its halves,
/// its account and its expiry, under the identifier that the other was told.
pub proof fn reserved_key_is_answered(
    s: MetastoreView,
    t: MetastoreView,
    did: Option<Did>,
    public_key_did_key: String,
    private_key_bytes: Vec<u8>,
    expires_at: i64,
    made: InfraReply,
    read: InfraReply,
)
    requires
        infra_answer(
            s,
            (InfraRequest::ReserveSigningKey {
                did,
                public_key_did_key,
                private_key_bytes,
                expires_at,
            }),
            made,
            t,
        ),
        infra_answer(
            t,
            (InfraRequest::GetReservedSigningKeyFull { public_key_did_key }),
            read,
            t,
        ),
        did matches Some(d) ==> did_text(d@) && holds(d@),
        holds(public_key_did_key@),
        private_key_bytes@.len() <= usize::MAX,
        is_timestamp(expires_at as int),
    ensures
        read matches InfraReply::SigningKeyFull(Ok(Some(k))) && made == InfraReply::Id(Ok(k.id))
            && k.did.deep_view() == did.deep_view() && k.public_key_did_key@ == public_key_did_key@
            && k.private_key_bytes.deep_view() == private_key_bytes@ && k.expires_at == expires_at
            && k.used_at is None,
{
    let id = made->Id_0->Ok_0;
    let owner = did.deep_view();
    let now = choose|now: i64| #[trigger]
        is_timestamp(now as int) && t == infra_committed(
            s,
            signing_key_writes(
                new_signing_key(
                    id,
                    owner,
                    public_key_did_key@,
                    private_key_bytes@,
                    expires_at,
                    now,
                ),
            ),
        );
    assert(owner matches Some(d) ==> did_text(d) && holds(d));
    assert(new_signing_key(
        id,
        owner,
        public_key_did_key@,
        private_key_bytes@,
        expires_at,
        now,
    ).fits());
    reserved_key_is_read(
        s,
        id,
        owner,
        public_key_did_key@,
        private_key_bytes@,
        expires_at,
        now,
        0,
        public_key_did_key@,
    );
    let k = read->SigningKeyFull_0->Ok_0->0;
    assert(full_key_of(t.infra.rows, public_key_did_key@)->Ok_0 == full_key_at(
        t.infra.rows,
        public_key_did_key@,
    ));
    assert(k.deep_view().id == id);
}

/// A client who asks for the deletion request that another has asked to be made is given its
/// account and expiry by the token, and the token by the account.
pub proof fn deletion_request_is_answered(
    s: MetastoreView,
    t: MetastoreView,
    token: String,
    did: Did,
    expires_at: i64,
    made: InfraReply,
    by_token: InfraReply,
    by_did: InfraReply,
)
    requires
        infra_answer(
            s,
            (InfraRequest::CreateDeletionRequest { token, did, expires_at }),
            made,
            t,
        ),
        infra_answer(t, (InfraRequest::GetDeletionRequest { token }), by_token, t),
        infra_answer(t, (InfraRequest::GetDeletionRequestByDid { did }), by_did, t),
        holds(token@),
        holds(did@),
        did_text(did@),
        is_timestamp(expires_at as int),
    ensures
        by_token matches InfraReply::Deletion(Ok(Some(d))) && d.did@ == did@ && d.expires_at
            == expires_at,
        by_did matches InfraReply::DeletionWithToken(Ok(Some(d))) && d.token@ == token@ && d.did@
            == did@ && d.expires_at == expires_at,
{
    let now = choose|now: i64| #[trigger]
        is_timestamp(now as int) && t == infra_committed(
            s,
            deletion_writes(
                DeletionRow {
                    token: token@,
                    did: did@,
                    created_at_ms: now,
                    expires_at_ms: expires_at,
                },
            ),
        );
    deletion_request_is_read(s, token@, did@, expires_at, now, 0);
    let d = by_token->Deletion_0->Ok_0->0;
    assert(d.deep_view().did == did@);
    let e = by_did->DeletionWithToken_0->Ok_0->0;
    assert(e.deep_view().token == token@);
}

/// A client who asks for the expiry of a token that another has asked to be stored is given it;
/// of one that another has asked to be removed, none.
pub proof fn stored_token_is_answered(
    s: MetastoreView,
    t: MetastoreView,
    user_id: Uuid,
    token: String,
    expires_at: i64,
    made: InfraReply,
    read: InfraReply,
)
    requires
        is_timestamp(expires_at as int),
        infra_answer(t, (InfraRequest::GetPlcTokenExpiry { user_id, token }), read, t),
    ensures
        infra_answer(s, (InfraRequest::InsertPlcToken { user_id, token, expires_at }), made, t)
            ==> read == InfraReply::Time(Ok(Some(expires_at))),
        infra_answer(s, (InfraRequest::DeletePlcToken { user_id, token }), made, t) ==> read
            == InfraReply::Time(Ok(None)),
{
    stored_token_is_read(s, user_id, token@, expires_at, user_id, token@);
}

/// A client who asks for a setting that another has asked to be stored is given its value; of
/// one that another has asked to be removed, none.
pub proof fn stored_setting_is_answered(
    s: MetastoreView,
    t: MetastoreView,
    key: String,
    value: String,
    made: InfraReply,
    read: InfraReply,
)
    requires
        infra_answer(t, (InfraRequest::GetServerConfig { key }), read, t),
    ensures
        infra_answer(s, (InfraRequest::UpsertServerConfig { key, value }), made, t) ==> (
        read matches InfraReply::Text(Ok(Some(v))) && v@ == value@),
        infra_answer(s, (InfraRequest::DeleteServerConfig { key }), made, t) ==> (
        read matches InfraReply::Text(Ok(None))),
{
    setting_is_read(s, key@, value@, key@);
    if read matches InfraReply::Text(Ok(_)) {
        let v = read->Text_0->Ok_0;
        assert(v.deep_view() is None ==> v is None);
        assert(v.deep_view() matches Some(c) ==> v is Some && v->0@ == c);
    }
}

/// A client who asks for a user's preferences finds the one that another has asked to be stored.
pub proof fn stored_preference_is_answered(
    s: MetastoreView,
    t: MetastoreView,
    user_id: Uuid,
    name: String,
    value_json: Vec<u8>,
    made: InfraReply,
    read: InfraReply,
)
    requires
        s.infra.rows.dom().finite(),
        !name@.contains('\0'),
        compact_json(value_json@) is Some,
        compact_json(compact_json(value_json@)->0) is Some,
        infra_answer(
            s,
            (InfraRequest::UpsertAccountPreference { user_id, name, value_json }),
            made,
            t,
        ),
        infra_answer(t, (InfraRequest::GetAccountPreferences { user_id }), read, t),
        read matches InfraReply::Preferences(Ok(_)),
    ensures
        made matches InfraReply::Preference { result: Ok(_), .. },
        read matches InfraReply::Preferences(Ok(list)) && list.deep_view().contains(
            (name@, compact_json(compact_json(value_json@)->0)->0),
        ),
{
    stored_preference_is_listed(s, user_id, name@, value_json@, user_id, name@);
}

/// A client who lists the invite codes is told of each that it is disabled exactly where a client
/// who has it validated is told so, with the uses that one who asks for them is told.
#[verifier::spinoff_prover]
#[verifier::rlimit(40)]
pub proof fn listed_codes_are_answered(
    s: MetastoreView,
    limit: i64,
    sort: InviteCodeSortOrder,
    listed: InfraReply,
    i: int,
    validated: InfraReply,
    uses: InfraReply,
)
    requires
        s.infra.rows.dom().finite(),
        codes_stand_under_names(s.infra.rows),
        infra_answer(
            s,
            (InfraRequest::ListInviteCodes { cursor: None, limit, sort }),
            listed,
            s,
        ),
        listed matches InfraReply::InviteList(Ok(list)) && 0 <= i < list.len() && infra_answer(
            s,
            (InfraRequest::ValidateInviteCode { code: list[i].code }),
            validated,
            s,
        ) && infra_answer(
            s,
            (InfraRequest::GetInviteCodeAvailableUses { code: list[i].code }),
            uses,
            s,
        ),
    ensures
        listed matches InfraReply::InviteList(Ok(list)) && validated matches InfraReply::Validated(r)
            && {
            &&& list[i].disabled == Some(r matches Err(e) && e@ == InviteErrorView::Disabled)
            &&& r is Ok ==> list[i].available_uses > 0
            &&& uses == InfraReply::Uses(Ok(Some(list[i].available_uses)))
        },
{
    let list = listed->InviteList_0->Ok_0;
    let all = invite_list(s.infra.rows, sort)->Ok_0;
    let none: Option<String> = None;
    assert(none.deep_view() is None);
    first_items_are_first(all, count_limit(limit), i);
    assert(list.deep_view()[i] == all[i]);
    assert(list.deep_view()[i] == list[i].deep_view());
    listed_codes_are_refused_alike(s.infra.rows, sort, list[i].code@);
    assert(all[i].code == list[i].code@);
}

/// A client who disables the codes of an account has each of them refused as disabled.
pub proof fn codes_of_account_are_refused(
    s: MetastoreView,
    t: MetastoreView,
    accounts: Vec<Did>,
    i: int,
    code: String,
    made: InfraReply,
    before: InfraReply,
    validated: InfraReply,
)
    requires
        storable(s.infra.rows),
        codes_stand_under_names(s.infra.rows),
        0 <= i < accounts.len(),
        did_text(accounts[i]@),
        infra_answer(s, (InfraRequest::DisableInviteCodesByAccount { accounts }), made, t),
        made matches InfraReply::Done(Ok(_)),
        infra_answer(s, (InfraRequest::GetInviteCodeInfo { code }), before, s),
        before matches InfraReply::Invite(Ok(Some(x))) && (x.for_account matches Some(a) && a@
            == accounts[i]@),
        infra_answer(t, (InfraRequest::ValidateInviteCode { code }), validated, t),
    ensures
        validated matches InfraReply::Validated(Err(e)) && e@ == InviteErrorView::Disabled,
{
    let all = accounts.deep_view();
    assert(all[i] == accounts[i]@);
    assert(all.contains(accounts[i]@));
    let x = before->Invite_0->Ok_0->0;
    assert(x.deep_view().for_account == Some(accounts[i]@));
    code_is_read_alone(s, code@);
    let v = invite_at(s.infra.rows, invite_key(code@))->Ok_0->0;
    assert(v.for_account == Some(accounts[i]@));
    codes_of_accounts_are_disabled(s, all, code@, v);
}

/// A client who takes a use of a code leaves it with one use less.
pub proof fn taken_use_is_answered(
    s: MetastoreView,
    t: MetastoreView,
    code: String,
    before: InfraReply,
    made: InfraReply,
    after: InfraReply,
)
    requires
        storable(s.infra.rows),
        infra_answer(s, (InfraRequest::GetInviteCodeAvailableUses { code }), before, s),
        infra_answer(s, (InfraRequest::DecrementInviteCodeUses { code }), made, t),
        infra_answer(t, (InfraRequest::GetInviteCodeAvailableUses { code }), after, t),
    ensures
        before matches InfraReply::Uses(Ok(Some(n))) ==> (n > i32::MIN ==> made == InfraReply::Done(
            Ok(()),
        ) && after == InfraReply::Uses(Ok(Some((n - 1) as i32)))),
        before matches InfraReply::Uses(Ok(None)) ==> (made matches InfraReply::Done(Err(_))) && t
            == s,
{
    taken_use_is_counted(s, code@);
}

/// A client who asks about one of several codes that another has asked to be made is told the
/// uses, the account and that it is active.
pub proof fn codes_made_together_are_answered(
    s: MetastoreView,
    t: MetastoreView,
    codes: Vec<String>,
    use_count: i32,
    created_by_user: Uuid,
    for_account: Option<Did>,
    i: int,
    made: InfraReply,
    uses: InfraReply,
    validated: InfraReply,
)
    requires
        0 <= i < codes.len(),
        holds(codes[i]@),
        for_account matches Some(a) ==> holds(a@),
        infra_answer(
            s,
            (InfraRequest::CreateInviteCodesBatch {
                codes,
                use_count,
                created_by_user,
                for_account,
            }),
            made,
            t,
        ),
        infra_answer(t, (InfraRequest::GetInviteCodeAvailableUses { code: codes[i] }), uses, t),
        infra_answer(t, (InfraRequest::ValidateInviteCode { code: codes[i] }), validated, t),
    ensures
        uses == InfraReply::Uses(Ok(Some(use_count))),
        validated matches InfraReply::Validated(r) && (r is Ok <==> use_count > 0),
        invite_at(t.infra.rows, invite_key(codes[i]@)) matches Ok(Some(v)) && v.created_by == Some(
            created_by_user,
        ) && v.for_account == for_account.deep_view(),
{
    let all = codes.deep_view();
    let account = for_account.deep_view();
    assert(all[i] == codes[i]@);
    assert(account matches Some(a) ==> holds(a));
    let now = choose|now: i64| #[trigger]
        is_timestamp(now as int) && t == infra_committed(
            s,
            invite_writes(all, use_count, account, created_by_user, now),
        );
    assert(new_invite(all[i], use_count, account, Some(created_by_user), now).fits());
    codes_made_together_are_read(
        s.infra.rows,
        all,
        use_count,
        account,
        created_by_user,
        now,
        i,
    );
}

/// A client who asks for a deletion request that another has asked to be removed, by its token or
/// for its account, is given none.
#[verifier::spinoff_prover]
#[verifier::rlimit(80)]
pub proof fn removed_request_is_answered(
    s: MetastoreView,
    t: MetastoreView,
    token: String,
    did: Did,
    made: InfraReply,
    by_token: InfraReply,
    v: DeletionRow,
)
    requires
        deletion_at(s.infra.rows, deletion_key(token@)) == Ok::<
            Option<DeletionRow>,
            MetastoreError,
        >(Some(v)),
        v.did == did@,
        deletion_token(s.infra.rows, did@) == Ok::<Option<Seq<char>>, MetastoreError>(
            Some(token@),
        ),
        infra_answer(t, (InfraRequest::GetDeletionRequest { token }), by_token, t),
    ensures
        infra_answer(s, (InfraRequest::DeleteDeletionRequest { token }), made, t) ==> (
        by_token matches InfraReply::Deletion(Ok(None))) && deletion_token(t.infra.rows, did@)
            == Ok::<Option<Seq<char>>, MetastoreError>(None),
        infra_answer(s, (InfraRequest::DeleteDeletionRequestsByDid { did }), made, t) ==> (
        by_token matches InfraReply::Deletion(Ok(None))) && deletion_token(t.infra.rows, did@)
            == Ok::<Option<Seq<char>>, MetastoreError>(None),
{
    let primary = deletion_key(token@);
    let index = deletion_did_key(did@);
    assert(primary[0] != index[0]);
    let ws = seq![WriteView::Remove { key: primary }, WriteView::Remove { key: index }];
    write_rows_last(s.infra.rows, ws, 0);
    write_rows_last(s.infra.rows, ws, 1);
    if by_token matches InfraReply::Deletion(Ok(_)) {
        let d = by_token->Deletion_0->Ok_0;
        assert(d.deep_view() is None ==> d is None);
    }
}

/// A client who asks for a reserved key that another has said was used is given none.
#[verifier::spinoff_prover]
#[verifier::rlimit(80)]
pub proof fn used_key_is_answered(
    s: MetastoreView,
    t: MetastoreView,
    public_key_did_key: String,
    v: SigningKeyRow,
    made: InfraReply,
    read: InfraReply,
)
    requires
        storable(s.infra.rows),
        signing_key_at(s.infra.rows, signing_key_key(public_key_did_key@)) == Ok::<
            Option<SigningKeyRow>,
            MetastoreError,
        >(Some(v)),
        lookup(s.infra.rows, id_key_bytes(KeyTag::SigningKeyById, v.id)) == Some(
            encode_utf8(public_key_did_key@),
        ),
        infra_answer(s, (InfraRequest::MarkSigningKeyUsed { key_id: v.id }), made, t),
        infra_answer(t, (InfraRequest::GetReservedSigningKey { public_key_did_key }), read, t),
    ensures
        made == InfraReply::Done(Ok(())),
        read matches InfraReply::SigningKey(Ok(None)),
{
    let key = signing_key_key(public_key_did_key@);
    SigningKeyRow::read_fits(s.infra.rows[key]);
    text_round_trip(public_key_did_key@);
    let now = choose|now: i64| #[trigger]
        is_timestamp(now as int) && crate::dispatch_infra::answered(
            made->Done_0,
            t,
            key_used(s, v.id, now),
        );
    let w = SigningKeyRow { used: true, used_at_ms: Some(now), ..v };
    assert(w.fits());
    w.round_trip();
    write_one(s.infra.rows, WriteView::Put { key, value: w.stored() });
    if read matches InfraReply::SigningKey(Ok(_)) {
        let k = read->SigningKey_0->Ok_0;
        assert(k.deep_view() is None ==> k is None);
    }
}

/// A client who asks where a blob is stored is told the key of its row, and none once another has
/// asked for the blob to be removed.
#[verifier::spinoff_prover]
#[verifier::rlimit(80)]
pub proof fn removed_blob_is_answered(
    s: MetastoreView,
    t: MetastoreView,
    cid: String,
    owner: u64,
    v: BlobRow,
    before: InfraReply,
    made: InfraReply,
    after: InfraReply,
)
    requires
        lookup(s.repo_data.rows, blob_cid_key(cid@)) == Some(be8(owner)),
        blob_at(s.repo_data.rows, blob_meta_key_bytes(owner, cid@)) == Ok::<
            Option<BlobRow>,
            MetastoreError,
        >(Some(v)),
        infra_answer(s, (InfraRequest::GetBlobStorageKeyByCid { cid }), before, s),
        infra_answer(s, (InfraRequest::DeleteBlobByCid { cid }), made, t),
        infra_answer(t, (InfraRequest::GetBlobStorageKeyByCid { cid }), after, t),
    ensures
        before matches InfraReply::Text(Ok(Some(k))) && k@ == v.storage_key,
        after matches InfraReply::Text(Ok(None)),
{
    blob_is_found_until_removed(s.repo_data.rows, owner, cid@, v, cid@);
    let a = before->Text_0->Ok_0;
    assert(a.deep_view() == Some(v.storage_key));
    let b = after->Text_0->Ok_0;
    assert(b.deep_view() is None ==> b is None);
}

/// A client who asks for the number of a user's messages of a type is told as many as one is given
/// who asks for all of them, and as many as are removed for one who asks for that.
#[verifier::spinoff_prover]
#[verifier::rlimit(80)]
pub proof fn counted_messages_are_answered(
    s: MetastoreView,
    t: MetastoreView,
    user_id: Uuid,
    comms_type: CommsType,
    limit: i64,
    listed: InfraReply,
    counted: InfraReply,
    removed: InfraReply,
)
    requires
        infra_answer(
            s,
            (InfraRequest::GetLatestCommsForUser { user_id, comms_type, limit }),
            listed,
            s,
        ),
        infra_answer(s, (InfraRequest::CountCommsByType { user_id, comms_type }), counted, s),
        infra_answer(
            s,
            (InfraRequest::DeleteCommsByTypeForUser { user_id, comms_type }),
            removed,
            t,
        ),
        latest_messages(s.infra.rows, user_id, comms_type) matches Ok(all) && all.len() <= limit
            <= usize::MAX,
    ensures
        listed matches InfraReply::Messages(Ok(list)) && counted == InfraReply::Number(
            Ok(list.len() as i64),
        ) && removed == InfraReply::Count(Ok(list.len() as u64)) && forall|i: int|
            0 <= i < list.len() ==> (#[trigger] list[i]).user_id == Some(user_id)
                && list[i].comms_type == comms_type,
{
    let all = latest_messages(s.infra.rows, user_id, comms_type)->Ok_0;
    messages_are_counted(s.infra.rows, user_id, comms_type);
    latest_messages_in_order(s.infra.rows, user_id, comms_type);
    first_items_are_first(all, count_limit(limit), 0);
    assert(first_items(all, count_limit(limit)) =~= all);
    let list = listed->Messages_0->Ok_0;
    assert(list.deep_view().len() == list.len());
    assert forall|i: int| 0 <= i < list.len() implies (#[trigger] list[i]).user_id == Some(user_id)
        && list[i].comms_type == comms_type by {
        assert(list.deep_view()[i] == list[i].deep_view());
        assert(all[i].user_id == Some(user_id));
    }
}

} // verus!
