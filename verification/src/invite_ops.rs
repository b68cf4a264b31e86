//! Invite codes: who may join, how often, and who did.

use vstd::prelude::*;
use vstd::utf8::encode_utf8;

use crate::bytes::copy_bytes;
use crate::clock::{is_timestamp, now_millis, time_or_epoch, timestamp_or_epoch};
use crate::codec::{same_text, text_from_bytes, text_of};
use crate::comms_ops::{first_items, keep_first};
use crate::delegation_ops::optional_did;
use crate::errors::{viewed, DbError, DbErrorView, MetastoreError};
use crate::infra_ops::{did_of_user, handle_of_user, infra_committed, resolve_did_for_uuid};
use crate::infra_ops::{resolve_handle_for_uuid, InfraOps};
use crate::infra_schema::{find_invite, id_key, id_key_bytes, invite_at, invite_use_key};
use crate::infra_schema::{invite_use_key_bytes, text_key, text_key_bytes, InviteCodeUseValue};
use crate::infra_schema::{InviteCodeValue, InviteRow, InviteUseRow};
use crate::keys::KeyTag;
use crate::metastore::MetastoreView;
use crate::scan::{collect_all, collect_all_items, count_limit, limit_of, prepended, Contribution};
use crate::scan::Reader;
use crate::sort::{sort_items, stable_sorted, SortNumber};
use crate::store::{prefix_keys, push_removals, row_removals, scan, Keyspace, Row, RowView, Rows, Write};
use crate::store::WriteView;
use crate::types::{optional_ref, owned_did, Did, Handle, Uuid};
use crate::user_hash::{UserHashMap, UserHashes};

verus! {

/// Whether an invite code is in force.
#[derive(Debug, Clone, Copy, PartialEq, Eq, Structural)]
pub enum InviteCodeState {
    Active,
    Disabled,
}

impl InviteCodeState {
    pub open spec fn flagged(disabled: bool) -> InviteCodeState {
        if disabled {
            InviteCodeState::Disabled
        } else {
            InviteCodeState::Active
        }
    }

    pub fn from_disabled_flag(disabled: bool) -> (r: InviteCodeState)
        ensures
            r == InviteCodeState::flagged(disabled),
    {
        if disabled {
            InviteCodeState::Disabled
        } else {
            InviteCodeState::Active
        }
    }
}

/// The order of a list of invite codes.
#[derive(Debug, Clone, Copy, PartialEq, Eq, Structural)]
pub enum InviteCodeSortOrder {
    /// The latest codes first.
    Recent,
    /// Those with the fewest uses left first.
    Usage,
}

/// Why an invite code cannot be used.
#[derive(Debug, PartialEq, Eq)]
pub enum InviteCodeError {
    NotFound,
    Disabled,
    ExhaustedUses,
    DatabaseError(DbError),
}

pub enum InviteErrorView {
    NotFound,
    Disabled,
    ExhaustedUses,
    DatabaseError(DbErrorView),
}

impl View for InviteCodeError {
    type V = InviteErrorView;

    open spec fn view(&self) -> InviteErrorView {
        match self {
            InviteCodeError::NotFound => InviteErrorView::NotFound,
            InviteCodeError::Disabled => InviteErrorView::Disabled,
            InviteCodeError::ExhaustedUses => InviteErrorView::ExhaustedUses,
            InviteCodeError::DatabaseError(e) => InviteErrorView::DatabaseError(e@),
        }
    }
}

/// What a caller is told of an error of the store.
pub open spec fn invite_database_error(e: MetastoreError) -> InviteErrorView {
    InviteErrorView::DatabaseError(DbErrorView::Query(e.text()))
}

fn database_error(e: MetastoreError) -> (r: InviteCodeError)
    ensures
        r@ == invite_database_error(e),
{
    InviteCodeError::DatabaseError(DbError::Query(e.message()))
}

/// An invite code that was found to be usable.
#[derive(Debug, PartialEq, Eq)]
pub struct ValidatedInviteCode<'c> {
    code: &'c str,
}

impl<'c> View for ValidatedInviteCode<'c> {
    type V = Seq<char>;

    closed spec fn view(&self) -> Seq<char> {
        self.code@
    }
}

impl<'c> ValidatedInviteCode<'c> {
    pub fn new_validated(code: &'c str) -> (r: ValidatedInviteCode<'c>)
        ensures
            r@ == code@,
    {
        ValidatedInviteCode { code }
    }

    pub fn code(&self) -> (r: &'c str)
        ensures
            r@ == self@,
    {
        self.code
    }
}

/// An invite code as its readers see it.
#[derive(Debug, PartialEq, Eq)]
pub struct InviteCodeInfo {
    pub code: String,
    pub available_uses: i32,
    pub state: InviteCodeState,
    pub for_account: Option<Did>,
    pub created_at: i64,
    pub created_by: Option<Did>,
}

#[verifier::ext_equal]
pub struct InviteInfo {
    pub code: Seq<char>,
    pub available_uses: i32,
    pub state: InviteCodeState,
    pub for_account: Option<Seq<char>>,
    pub created_at: i64,
    pub created_by: Option<Seq<char>>,
}

impl DeepView for InviteCodeInfo {
    type V = InviteInfo;

    open spec fn deep_view(&self) -> InviteInfo {
        InviteInfo {
            code: self.code@,
            available_uses: self.available_uses,
            state: self.state,
            for_account: self.for_account.deep_view(),
            created_at: self.created_at,
            created_by: self.created_by.deep_view(),
        }
    }
}

/// A use of an invite code as its readers see it.
#[derive(Debug, PartialEq, Eq)]
pub struct InviteCodeUse {
    pub code: String,
    pub used_by_did: Did,
    pub used_by_handle: Option<Handle>,
    pub used_at: i64,
}

#[verifier::ext_equal]
pub struct InviteUse {
    pub code: Seq<char>,
    pub used_by_did: Seq<char>,
    pub used_by_handle: Option<Seq<char>>,
    pub used_at: i64,
}

impl DeepView for InviteCodeUse {
    type V = InviteUse;

    open spec fn deep_view(&self) -> InviteUse {
        InviteUse {
            code: self.code@,
            used_by_did: self.used_by_did.deep_view(),
            used_by_handle: self.used_by_handle.deep_view(),
            used_at: self.used_at,
        }
    }
}

/// An invite code in a list.
#[derive(Debug, PartialEq, Eq)]
pub struct InviteCodeRow {
    pub code: String,
    pub available_uses: i32,
    pub disabled: Option<bool>,
    pub created_by_user: Uuid,
    pub created_at: i64,
}

#[verifier::ext_equal]
pub struct ListedInvite {
    pub code: Seq<char>,
    pub available_uses: i32,
    pub disabled: Option<bool>,
    pub created_by_user: Uuid,
    pub created_at: i64,
}

impl DeepView for InviteCodeRow {
    type V = ListedInvite;

    open spec fn deep_view(&self) -> ListedInvite {
        ListedInvite {
            code: self.code@,
            available_uses: self.available_uses,
            disabled: self.disabled,
            created_by_user: self.created_by_user,
            created_at: self.created_at,
        }
    }
}

/// The key of an invite code.
pub open spec fn invite_key(code: Seq<char>) -> Seq<u8> {
    text_key_bytes(KeyTag::InviteCode, code)
}

/// All invite codes.
pub open spec fn invite_rows(infra: Rows) -> Seq<RowView> {
    scan(infra, prefix_keys(seq![KeyTag::InviteCode.byte()]))
}

/// The uses of an invite code.
pub open spec fn use_rows(infra: Rows, code: Seq<char>) -> Seq<RowView> {
    scan(infra, prefix_keys(text_key_bytes(KeyTag::InviteUse, code)))
}

/// An invite code, if the bytes hold one.
pub open spec fn invite_row(b: Seq<u8>) -> Result<InviteRow, MetastoreError> {
    match InviteRow::read(b) {
        Some(v) => Ok(v),
        None => Err(MetastoreError::CorruptData("corrupt invite code")),
    }
}

/// What a reader sees of an invite code.
pub open spec fn invite_info(v: InviteRow, users: Rows, hashes: UserHashes) -> InviteInfo {
    InviteInfo {
        code: v.code,
        available_uses: v.available_uses,
        state: InviteCodeState::flagged(v.disabled),
        for_account: optional_did(v.for_account),
        created_at: timestamp_or_epoch(v.created_at_ms),
        created_by: match v.created_by {
            Some(id) => did_of_user(users, hashes, id),
            None => None,
        },
    }
}

fn value_to_invite_info(v: InviteCodeValue, users: &Keyspace, hashes: &UserHashMap) -> (r:
    InviteCodeInfo)
    ensures
        r.deep_view() == invite_info(v.deep_view(), users@.rows, hashes@),
{
    let for_account: Option<Did> = match v.for_account {
        Some(d) => Did::new(d),
        None => None,
    };
    let created_by: Option<Did> = match v.created_by {
        Some(id) => resolve_did_for_uuid(users, hashes, id),
        None => None,
    };
    InviteCodeInfo {
        code: v.code,
        available_uses: v.available_uses,
        state: InviteCodeState::from_disabled_flag(v.disabled),
        for_account,
        created_at: time_or_epoch(v.created_at_ms),
        created_by,
    }
}

/// An invite code that was made for an account.
pub open spec fn invite_for(
    row: RowView,
    account: Seq<char>,
    users: Rows,
    hashes: UserHashes,
) -> Contribution<InviteInfo> {
    match invite_row(row.value) {
        Err(e) => Err(e),
        Ok(v) => Ok(
            if v.for_account == Some(account) {
                Some(invite_info(v, users, hashes))
            } else {
                None
            },
        ),
    }
}

struct InvitesFor<'b> {
    account: &'b str,
    users: &'b Keyspace,
    hashes: &'b UserHashMap,
}

impl<'b> Reader for InvitesFor<'b> {
    type In = Row;

    type Item = InviteCodeInfo;

    closed spec fn reading(&self) -> spec_fn(RowView) -> Contribution<InviteInfo> {
        |row: RowView| invite_for(row, self.account@, self.users@.rows, self.hashes@)
    }

    fn read(&self, row: &Row) -> (r: Contribution<InviteCodeInfo>) {
        match InviteCodeValue::deserialize(row.value.as_slice()) {
            None => Err(MetastoreError::CorruptData("corrupt invite code")),
            Some(v) => {
                let matches: bool = match &v.for_account {
                    Some(d) => same_text(d.as_str(), self.account),
                    None => false,
                };
                if matches {
                    Ok(Some(value_to_invite_info(v, self.users, self.hashes)))
                } else {
                    Ok(None)
                }
            },
        }
    }
}

/// An invite code that one of some users made, with its maker.
pub open spec fn invite_by(
    row: RowView,
    makers: Seq<Uuid>,
    users: Rows,
    hashes: UserHashes,
) -> Contribution<(Uuid, InviteInfo)> {
    match invite_row(row.value) {
        Err(e) => Err(e),
        Ok(v) => Ok(
            match v.created_by {
                Some(id) => if makers.contains(id) {
                    Some((id, invite_info(v, users, hashes)))
                } else {
                    None
                },
                None => None,
            },
        ),
    }
}

struct InvitesBy<'b> {
    makers: &'b [Uuid],
    users: &'b Keyspace,
    hashes: &'b UserHashMap,
}

/// Whether a list of users names one.
fn names_user(ids: &[Uuid], id: Uuid) -> (r: bool)
    ensures
        r == ids@.contains(id),
{
    let mut i: usize = 0;
    while i < ids.len()
        invariant
            i <= ids@.len(),
            forall|j: int| 0 <= j < i ==> ids@[j] != id,
        decreases ids@.len() - i,
    {
        if ids[i] == id {
            return true;
        }
        i = i + 1;
    }
    false
}

impl<'b> Reader for InvitesBy<'b> {
    type In = Row;

    type Item = (Uuid, InviteCodeInfo);

    closed spec fn reading(&self) -> spec_fn(RowView) -> Contribution<(Uuid, InviteInfo)> {
        |row: RowView| invite_by(row, self.makers@, self.users@.rows, self.hashes@)
    }

    fn read(&self, row: &Row) -> (r: Contribution<(Uuid, InviteCodeInfo)>) {
        match InviteCodeValue::deserialize(row.value.as_slice()) {
            None => Err(MetastoreError::CorruptData("corrupt invite code")),
            Some(v) => match v.created_by {
                Some(id) => {
                    if names_user(self.makers, id) {
                        Ok(Some((id, value_to_invite_info(v, self.users, self.hashes))))
                    } else {
                        Ok(None)
                    }
                },
                None => Ok(None),
            },
        }
    }
}

/// An invite code that a user made.
pub open spec fn invite_made(
    row: RowView,
    maker: Uuid,
    users: Rows,
    hashes: UserHashes,
) -> Contribution<InviteInfo> {
    match invite_row(row.value) {
        Err(e) => Err(e),
        Ok(v) => Ok(
            if v.created_by == Some(maker) {
                Some(invite_info(v, users, hashes))
            } else {
                None
            },
        ),
    }
}

fn was_made_by(v: &InviteCodeValue, maker: Uuid) -> (r: bool)
    ensures
        r == (v.created_by == Some(maker)),
{
    match v.created_by {
        Some(id) => id == maker,
        None => false,
    }
}

struct InvitesMade<'b> {
    maker: Uuid,
    users: &'b Keyspace,
    hashes: &'b UserHashMap,
}

impl<'b> Reader for InvitesMade<'b> {
    type In = Row;

    type Item = InviteCodeInfo;

    closed spec fn reading(&self) -> spec_fn(RowView) -> Contribution<InviteInfo> {
        |row: RowView| invite_made(row, self.maker, self.users@.rows, self.hashes@)
    }

    fn read(&self, row: &Row) -> (r: Contribution<InviteCodeInfo>) {
        match InviteCodeValue::deserialize(row.value.as_slice()) {
            None => Err(MetastoreError::CorruptData("corrupt invite code")),
            Some(v) => {
                if was_made_by(&v, self.maker) {
                    Ok(Some(value_to_invite_info(v, self.users, self.hashes)))
                } else {
                    Ok(None)
                }
            },
        }
    }
}

/// What a reader sees of a use of an invite code.
pub open spec fn invite_use(row: RowView, code: Seq<char>, users: Rows, hashes: UserHashes) ->
    Contribution<InviteUse> {
    match InviteUseRow::read(row.value) {
        None => Err(MetastoreError::CorruptData("corrupt invite use")),
        Some(v) => Ok(
            Some(
                InviteUse {
                    code,
                    used_by_did: match did_of_user(users, hashes, v.used_by) {
                        Some(d) => d,
                        None => "did:plc:unknown"@,
                    },
                    used_by_handle: handle_of_user(users, hashes, v.used_by),
                    used_at: timestamp_or_epoch(v.used_at_ms),
                },
            ),
        ),
    }
}

struct InviteUses<'b> {
    code: &'b str,
    users: &'b Keyspace,
    hashes: &'b UserHashMap,
}

impl<'b> Reader for InviteUses<'b> {
    type In = Row;

    type Item = InviteCodeUse;

    closed spec fn reading(&self) -> spec_fn(RowView) -> Contribution<InviteUse> {
        |row: RowView| invite_use(row, self.code@, self.users@.rows, self.hashes@)
    }

    fn read(&self, row: &Row) -> (r: Contribution<InviteCodeUse>) {
        match InviteCodeUseValue::deserialize(row.value.as_slice()) {
            None => Err(MetastoreError::CorruptData("corrupt invite use")),
            Some(v) => {
                let used_by_did: Did = match resolve_did_for_uuid(
                    self.users,
                    self.hashes,
                    v.used_by,
                ) {
                    Some(d) => d,
                    None => Did::from("did:plc:unknown".to_owned()),
                };
                Ok(
                    Some(
                        InviteCodeUse {
                            code: self.code.to_owned(),
                            used_by_did,
                            used_by_handle: resolve_handle_for_uuid(
                                self.users,
                                self.hashes,
                                v.used_by,
                            ),
                            used_at: time_or_epoch(v.used_at_ms),
                        },
                    ),
                )
            },
        }
    }
}

/// The uses of an invite code as a reader sees them.
pub open spec fn uses_of_code(s: MetastoreView, code: Seq<char>) -> Result<
    Seq<InviteUse>,
    MetastoreError,
> {
    collect_all(
        use_rows(s.infra.rows, code),
        |row: RowView| invite_use(row, code, s.users.rows, s.user_hashes),
    )
}

/// The uses of some invite codes, code by code.
pub open spec fn uses_of_codes(s: MetastoreView, codes: Seq<Seq<char>>) -> Result<
    Seq<InviteUse>,
    MetastoreError,
>
    decreases codes.len(),
{
    if codes.len() == 0 {
        Ok(Seq::empty())
    } else {
        match uses_of_codes(s, codes.drop_last()) {
            Err(e) => Err(e),
            Ok(before) => prepended(before, uses_of_code(s, codes.last())),
        }
    }
}

/// A new invite code.
pub open spec fn new_invite(
    code: Seq<char>,
    uses: i32,
    for_account: Option<Seq<char>>,
    created_by: Option<Uuid>,
    now: i64,
) -> InviteRow {
    InviteRow {
        code,
        available_uses: uses,
        disabled: false,
        for_account,
        created_by,
        created_at_ms: now,
    }
}

/// The write of an invite code.
pub open spec fn invite_write(v: InviteRow) -> WriteView {
    WriteView::Put { key: invite_key(v.code), value: v.stored() }
}

/// The store with a new invite code, unless the code is taken.
pub open spec fn invite_created(s: MetastoreView, v: InviteRow) -> (bool, MetastoreView) {
    match s.infra.get(invite_key(v.code)) {
        Some(_) => (false, s),
        None => (true, infra_committed(s, seq![invite_write(v)])),
    }
}

/// The writes of some new invite codes.
pub open spec fn invite_writes(
    codes: Seq<Seq<char>>,
    uses: i32,
    for_account: Option<Seq<char>>,
    created_by: Uuid,
    now: i64,
) -> Seq<WriteView> {
    codes.map_values(
        |code: Seq<char>| invite_write(new_invite(code, uses, for_account, Some(created_by), now)),
    )
}

/// Why a code cannot be used, if it cannot.
pub open spec fn invite_refusal(infra: Rows, code: Seq<char>) -> Option<InviteErrorView> {
    match invite_at(infra, invite_key(code)) {
        Err(e) => Some(invite_database_error(e)),
        Ok(None) => Some(InviteErrorView::NotFound),
        Ok(Some(v)) => if v.disabled {
            Some(InviteErrorView::Disabled)
        } else if v.available_uses <= 0 {
            Some(InviteErrorView::ExhaustedUses)
        } else {
            None
        },
    }
}

pub open spec fn one_less(n: i32) -> i32 {
    if n == i32::MIN {
        n
    } else {
        (n - 1) as i32
    }
}

/// The store after a use of a code was taken.
pub open spec fn use_taken(s: MetastoreView, code: Seq<char>) -> (
    Result<(), MetastoreError>,
    MetastoreView,
) {
    match invite_at(s.infra.rows, invite_key(code)) {
        Err(e) => (Err(e), s),
        Ok(None) => (Err(MetastoreError::InvalidInput("invite code not found")), s),
        Ok(Some(v)) => (
            Ok(()),
            infra_committed(
                s,
                seq![
                    WriteView::Put {
                        key: invite_key(code),
                        value: InviteRow {
                            available_uses: one_less(v.available_uses),
                            ..v
                        }.stored(),
                    },
                ],
            ),
        ),
    }
}

/// Reserves a use of a code.
pub open spec fn reserved(s: MetastoreView, code: Seq<char>) -> (
    Option<InviteErrorView>,
    MetastoreView,
) {
    match invite_refusal(s.infra.rows, code) {
        Some(e) => (Some(e), s),
        None => (None, use_taken(s, code).1),
    }
}

/// Gives a use of a code back.
pub open spec fn refunded(s: MetastoreView, code: Seq<char>) -> (
    Option<InviteErrorView>,
    MetastoreView,
) {
    match invite_at(s.infra.rows, invite_key(code)) {
        Err(e) => (Some(invite_database_error(e)), s),
        Ok(None) => (Some(InviteErrorView::NotFound), s),
        Ok(Some(v)) => (
            None,
            infra_committed(
                s,
                seq![
                    WriteView::Put {
                        key: invite_key(code),
                        value: InviteRow {
                            available_uses: (v.available_uses + 1) as i32,
                            ..v
                        }.stored(),
                    },
                ],
            ),
        ),
    }
}

/// A code has as many uses as a counter can hold.
pub open spec fn uses_at_limit(infra: Rows, code: Seq<char>) -> bool {
    invite_at(infra, invite_key(code)) matches Ok(Some(v)) && v.available_uses == i32::MAX
}

/// What a refusal is reported as.
pub open spec fn refusal(r: Result<(), InviteCodeError>) -> Option<InviteErrorView> {
    match r {
        Ok(_) => None,
        Err(e) => Some(e@),
    }
}

/// The writes that record who used a code.
pub open spec fn use_writes(code: Seq<char>, user: Uuid, now: i64) -> Seq<WriteView> {
    seq![
        WriteView::Put {
            key: invite_use_key_bytes(code, user),
            value: InviteUseRow { used_by: user, used_at_ms: now }.stored(),
        },
        WriteView::Put {
            key: id_key_bytes(KeyTag::InviteUsedBy, user),
            value: encode_utf8(code),
        },
    ]
}

/// The code that a user joined with.
pub open spec fn code_used_by(infra: Rows, user: Uuid) -> Result<Option<Seq<char>>, MetastoreError> {
    match crate::store::lookup(infra, id_key_bytes(KeyTag::InviteUsedBy, user)) {
        None => Ok(None),
        Some(b) => match text_of(b) {
            Some(t) => Ok(Some(t)),
            None => Err(MetastoreError::CorruptData("invite code used_by not valid utf8")),
        },
    }
}

/// The write that disables a code, if there is such a code.
pub open spec fn disable_write(infra: Rows, code: Seq<char>) -> Contribution<WriteView> {
    match invite_at(infra, invite_key(code)) {
        Err(e) => Err(e),
        Ok(None) => Ok(None),
        Ok(Some(v)) => Ok(
            Some(
                WriteView::Put {
                    key: invite_key(code),
                    value: InviteRow { disabled: true, ..v }.stored(),
                },
            ),
        ),
    }
}

struct DisableWrites<'b> {
    infra: &'b Keyspace,
}

impl<'b> Reader for DisableWrites<'b> {
    type In = String;

    type Item = Write;

    closed spec fn reading(&self) -> spec_fn(Seq<char>) -> Contribution<WriteView> {
        |code: Seq<char>| disable_write(self.infra@.rows, code)
    }

    fn read(&self, code: &String) -> (r: Contribution<Write>) {
        let key: Vec<u8> = text_key(KeyTag::InviteCode, code.as_str());
        match find_invite(self.infra, key.as_slice()) {
            Err(e) => Err(e),
            Ok(None) => Ok(None),
            Ok(Some(v)) => {
                let ghost before = v.deep_view();
                let mut v: InviteCodeValue = v;
                v.disabled = true;
                assert(v.deep_view() == InviteRow { disabled: true, ..before });
                Ok(Some(Write::Put { key, value: v.serialize() }))
            },
        }
    }
}

/// The write that disables a code made for one of some accounts.
pub open spec fn account_disable_write(row: RowView, accounts: Seq<Seq<char>>) -> Contribution<
    WriteView,
> {
    match invite_row(row.value) {
        Err(e) => Err(e),
        Ok(v) => Ok(
            if v.for_account is Some && accounts.contains(v.for_account->0) {
                Some(
                    WriteView::Put {
                        key: row.key,
                        value: InviteRow { disabled: true, ..v }.stored(),
                    },
                )
            } else {
                None
            },
        ),
    }
}

struct AccountDisableWrites<'b> {
    accounts: &'b [Did],
}

fn names_account(accounts: &[Did], d: &str) -> (r: bool)
    ensures
        r == accounts.deep_view().contains(d@),
{
    let mut i: usize = 0;
    while i < accounts.len()
        invariant
            i <= accounts@.len(),
            forall|j: int| 0 <= j < i ==> accounts.deep_view()[j] != d@,
        decreases accounts@.len() - i,
    {
        if same_text(accounts[i].as_str(), d) {
            assert(accounts.deep_view()[i as int] == d@);
            return true;
        }
        i = i + 1;
    }
    false
}

impl<'b> Reader for AccountDisableWrites<'b> {
    type In = Row;

    type Item = Write;

    closed spec fn reading(&self) -> spec_fn(RowView) -> Contribution<WriteView> {
        |row: RowView| account_disable_write(row, self.accounts.deep_view())
    }

    fn read(&self, row: &Row) -> (r: Contribution<Write>) {
        match InviteCodeValue::deserialize(row.value.as_slice()) {
            None => Err(MetastoreError::CorruptData("corrupt invite code")),
            Some(v) => {
                let matches: bool = match &v.for_account {
                    Some(d) => names_account(self.accounts, d.as_str()),
                    None => false,
                };
                if matches {
                    let ghost before = v.deep_view();
                    let mut v: InviteCodeValue = v;
                    v.disabled = true;
                    assert(v.deep_view() == InviteRow { disabled: true, ..before });
                    Ok(
                        Some(
                            Write::Put {
                                key: copy_bytes(row.key.as_slice()),
                                value: v.serialize(),
                            },
                        ),
                    )
                } else {
                    Ok(None)
                }
            },
        }
    }
}

/// What a list shows of an invite code.
pub open spec fn listed_invite(row: RowView) -> Contribution<ListedInvite> {
    match invite_row(row.value) {
        Err(e) => Err(e),
        Ok(v) => Ok(
            Some(
                ListedInvite {
                    code: v.code,
                    available_uses: v.available_uses,
                    disabled: Some(v.disabled),
                    created_by_user: match v.created_by {
                        Some(id) => id,
                        None => Uuid { bits: 0 },
                    },
                    created_at: timestamp_or_epoch(v.created_at_ms),
                },
            ),
        ),
    }
}

struct ListedInvites {}

impl Reader for ListedInvites {
    type In = Row;

    type Item = InviteCodeRow;

    closed spec fn reading(&self) -> spec_fn(RowView) -> Contribution<ListedInvite> {
        |row: RowView| listed_invite(row)
    }

    fn read(&self, row: &Row) -> (r: Contribution<InviteCodeRow>) {
        match InviteCodeValue::deserialize(row.value.as_slice()) {
            None => Err(MetastoreError::CorruptData("corrupt invite code")),
            Some(v) => {
                let created_by_user: Uuid = match v.created_by {
                    Some(id) => id,
                    None => Uuid::nil(),
                };
                Ok(
                    Some(
                        InviteCodeRow {
                            code: v.code,
                            available_uses: v.available_uses,
                            disabled: Some(v.disabled),
                            created_by_user,
                            created_at: time_or_epoch(v.created_at_ms),
                        },
                    ),
                )
            },
        }
    }
}

/// The number by which a list is sorted.
pub open spec fn list_number(v: ListedInvite, sort: InviteCodeSortOrder) -> int {
    match sort {
        InviteCodeSortOrder::Recent => -(v.created_at as int),
        InviteCodeSortOrder::Usage => v.available_uses as int,
    }
}

struct ListOrder {
    sort: InviteCodeSortOrder,
}

impl SortNumber for ListOrder {
    type Item = InviteCodeRow;

    closed spec fn numbering(&self) -> spec_fn(ListedInvite) -> int {
        |v: ListedInvite| list_number(v, self.sort)
    }

    fn number(&self, x: &InviteCodeRow) -> (r: i128) {
        match self.sort {
            InviteCodeSortOrder::Recent => -(x.created_at as i128),
            InviteCodeSortOrder::Usage => x.available_uses as i128,
        }
    }
}

/// All invite codes in an order.
pub open spec fn invite_list(infra: Rows, sort: InviteCodeSortOrder) -> Result<
    Seq<ListedInvite>,
    MetastoreError,
> {
    match collect_all(invite_rows(infra), |row: RowView| listed_invite(row)) {
        Ok(vs) => Ok(stable_sorted(vs, |v: ListedInvite| list_number(v, sort))),
        Err(e) => Err(e),
    }
}

/// What stands behind the first entry with a code; nothing where no entry has it.
pub open spec fn after_code(s: Seq<ListedInvite>, code: Seq<char>) -> Seq<ListedInvite>
    decreases s.len(),
{
    if s.len() == 0 {
        s
    } else if s[0].code == code {
        s.skip(1)
    } else {
        after_code(s.skip(1), code)
    }
}

/// A page of a list.
pub open spec fn invite_page(
    s: Seq<ListedInvite>,
    cursor: Option<Seq<char>>,
    limit: nat,
) -> Seq<ListedInvite> {
    match cursor {
        Some(c) => first_items(after_code(s, c), limit),
        None => first_items(s, limit),
    }
}

proof fn after_code_at(s: Seq<ListedInvite>, code: Seq<char>, p: int)
    requires
        0 <= p <= s.len(),
        forall|i: int| 0 <= i < p ==> (#[trigger] s[i]).code != code,
        p < s.len() ==> s[p].code == code,
    ensures
        after_code(s, code) == (if p < s.len() {
            s.skip(p + 1)
        } else {
            Seq::empty()
        }),
    decreases s.len(),
{
    if s.len() > 0 && p > 0 {
        let t = s.skip(1);
        assert(s[0].code != code);
        assert forall|i: int| 0 <= i < p - 1 implies (#[trigger] t[i]).code != code by {
            assert(t[i] == s[i + 1]);
        }
        after_code_at(t, code, p - 1);
        if p < s.len() {
            assert(t.skip(p) =~= s.skip(p + 1));
        }
    }
    if s.len() == 0 {
        assert(s =~= Seq::empty());
    }
}

/// Where no two codes of a list are the same, a page whose cursor is the last code of
/// another page starts right behind that page.
pub proof fn pages_continue(s: Seq<ListedInvite>, n: int)
    requires
        0 <= n < s.len(),
        forall|i: int, j: int|
            0 <= i < j < s.len() ==> (#[trigger] s[i]).code != (#[trigger] s[j]).code,
    ensures
        after_code(s, s[n].code) == s.skip(n + 1),
{
    after_code_at(s, s[n].code, n);
}

/// Drops what stands up to the first entry with a code.
fn drop_to_code(rows: Vec<InviteCodeRow>, code: &str) -> (r: Vec<InviteCodeRow>)
    ensures
        r.deep_view() == after_code(rows.deep_view(), code@),
{
    let ghost all = rows.deep_view();
    let mut rows: Vec<InviteCodeRow> = rows;
    let mut p: usize = 0;
    while p < rows.len() && !same_text(rows[p].code.as_str(), code)
        invariant
            p <= rows@.len(),
            all == rows.deep_view(),
            forall|i: int| 0 <= i < p ==> (#[trigger] all[i]).code != code@,
        ensures
            p <= rows@.len(),
            forall|i: int| 0 <= i < p ==> (#[trigger] all[i]).code != code@,
            p < rows@.len() ==> all[p as int].code == code@,
        decreases rows.len() - p,
    {
        p = p + 1;
    }
    proof {
        after_code_at(all, code@, p as int);
    }
    if p < rows.len() {
        let rest: Vec<InviteCodeRow> = rows.split_off(p + 1);
        assert(rest.deep_view() =~= all.skip(p + 1));
        rest
    } else {
        let rest: Vec<InviteCodeRow> = Vec::new();
        assert(rest.deep_view() =~= Seq::empty());
        rest
    }
}

/// A user's DID, for those users that have one.
pub open spec fn user_did(id: Uuid, users: Rows, hashes: UserHashes) -> Contribution<
    (Uuid, Seq<char>),
> {
    Ok(
        match did_of_user(users, hashes, id) {
            Some(d) => Some((id, d)),
            None => None,
        },
    )
}

struct UserDids<'b> {
    users: &'b Keyspace,
    hashes: &'b UserHashMap,
}

impl<'b> Reader for UserDids<'b> {
    type In = Uuid;

    type Item = (Uuid, Did);

    closed spec fn reading(&self) -> spec_fn(Uuid) -> Contribution<(Uuid, Seq<char>)> {
        |id: Uuid| user_did(id, self.users@.rows, self.hashes@)
    }

    fn read(&self, id: &Uuid) -> (r: Contribution<(Uuid, Did)>) {
        match resolve_did_for_uuid(self.users, self.hashes, *id) {
            Some(d) => Ok(Some((*id, d))),
            None => Ok(None),
        }
    }
}

/// The code that a user joined with, for those users whose code can be read.
pub open spec fn user_code(id: Uuid, infra: Rows) -> Contribution<(Uuid, Seq<char>)> {
    Ok(
        match code_used_by(infra, id) {
            Ok(Some(code)) => Some((id, code)),
            _ => None,
        },
    )
}

struct UserCodes<'b> {
    infra: &'b Keyspace,
}

impl<'b> Reader for UserCodes<'b> {
    type In = Uuid;

    type Item = (Uuid, String);

    closed spec fn reading(&self) -> spec_fn(Uuid) -> Contribution<(Uuid, Seq<char>)> {
        |id: Uuid| user_code(id, self.infra@.rows)
    }

    fn read(&self, id: &Uuid) -> (r: Contribution<(Uuid, String)>) {
        match find_code_used_by(self.infra, *id) {
            Ok(Some(code)) => Ok(Some((*id, code))),
            _ => Ok(None),
        }
    }
}

fn find_code_used_by(infra: &Keyspace, user: Uuid) -> (r: Result<Option<String>, MetastoreError>)
    ensures
        viewed(r) == code_used_by(infra@.rows, user),
{
    let key: Vec<u8> = id_key(KeyTag::InviteUsedBy, user);
    match infra.get(key.as_slice()) {
        None => Ok(None),
        Some(raw) => match text_from_bytes(raw.as_slice()) {
            Some(t) => Ok(Some(t)),
            None => Err(MetastoreError::CorruptData("invite code used_by not valid utf8")),
        },
    }
}

/// The removals of the codes that a user made, each with its uses.
pub open spec fn maker_removals(infra: Rows, rows: Seq<RowView>, maker: Uuid) -> Result<
    Seq<WriteView>,
    MetastoreError,
>
    decreases rows.len(),
{
    if rows.len() == 0 {
        Ok(Seq::empty())
    } else {
        match maker_removals(infra, rows.drop_last(), maker) {
            Err(e) => Err(e),
            Ok(before) => match invite_row(rows.last().value) {
                Err(e) => Err(e),
                Ok(v) => if v.created_by == Some(maker) {
                    Ok(
                        before.push(WriteView::Remove { key: rows.last().key }) + row_removals(
                            use_rows(infra, v.code),
                        ),
                    )
                } else {
                    Ok(before)
                },
            },
        }
    }
}

/// A failure at a row ends the work.
proof fn maker_removals_fail(infra: Rows, rows: Seq<RowView>, maker: Uuid, n: int)
    requires
        0 <= n <= rows.len(),
        maker_removals(infra, rows.take(n), maker) is Err,
    ensures
        maker_removals(infra, rows, maker) == maker_removals(infra, rows.take(n), maker),
    decreases rows.len(),
{
    if n == rows.len() {
        assert(rows.take(n) =~= rows);
    } else {
        assert(rows.drop_last().take(n) =~= rows.take(n));
        maker_removals_fail(infra, rows.drop_last(), maker, n);
    }
}

proof fn uses_of_codes_fail(s: MetastoreView, codes: Seq<Seq<char>>, n: int)
    requires
        0 <= n <= codes.len(),
        uses_of_codes(s, codes.take(n)) is Err,
    ensures
        uses_of_codes(s, codes) == uses_of_codes(s, codes.take(n)),
    decreases codes.len(),
{
    if n == codes.len() {
        assert(codes.take(n) =~= codes);
    } else {
        assert(codes.drop_last().take(n) =~= codes.take(n));
        uses_of_codes_fail(s, codes.drop_last(), n);
    }
}

impl<'a> InfraOps<'a> {
    /// Makes an invite code, and says whether the code was free.
    pub fn create_invite_code(
        &mut self,
        code: &str,
        use_count: i32,
        for_account: Option<&Did>,
    ) -> (r: Result<bool, MetastoreError>)
        ensures
            r is Ok,
            exists|now: i64| #[trigger]
                is_timestamp(now as int) && (r->Ok_0, final(self)@) == invite_created(
                    old(self)@,
                    new_invite(code@, use_count, optional_ref(for_account), None, now),
                ),
            *final(final(self).store) == *final(old(self).store),
    {
        let now: i64 = now_millis();
        assert(is_timestamp(now as int));
        Ok(self.create_invite_code_at(code, use_count, for_account, now))
    }

    /// Makes an invite code at a given time.
    pub fn create_invite_code_at(
        &mut self,
        code: &str,
        use_count: i32,
        for_account: Option<&Did>,
        now: i64,
    ) -> (r: bool)
        ensures
            (r, final(self)@) == invite_created(
                old(self)@,
                new_invite(code@, use_count, optional_ref(for_account), None, now),
            ),
            *final(final(self).store) == *final(old(self).store),
    {
        let key: Vec<u8> = text_key(KeyTag::InviteCode, code);
        if self.store.infra.get(key.as_slice()).is_some() {
            return false;
        }
        let value = InviteCodeValue {
            code: code.to_owned(),
            available_uses: use_count,
            disabled: false,
            for_account: owned_did(for_account),
            created_by: None,
            created_at_ms: now,
        };
        let ghost v = new_invite(code@, use_count, optional_ref(for_account), None, now);
        assert(value.deep_view() == v);
        let batch: Vec<Write> = vec![Write::Put { key, value: value.serialize() }];
        assert(batch.deep_view() =~= seq![invite_write(v)]);
        self.store.infra.commit(batch);
        true
    }

    /// Makes some invite codes of a user.
    pub fn create_invite_codes_batch(
        &mut self,
        codes: &[String],
        use_count: i32,
        created_by_user: Uuid,
        for_account: Option<&Did>,
    ) -> (r: Result<(), MetastoreError>)
        ensures
            r is Ok,
            exists|now: i64| #[trigger]
                is_timestamp(now as int) && final(self)@ == infra_committed(
                    old(self)@,
                    invite_writes(
                        codes.deep_view(),
                        use_count,
                        optional_ref(for_account),
                        created_by_user,
                        now,
                    ),
                ),
            *final(final(self).store) == *final(old(self).store),
    {
        let now: i64 = now_millis();
        self.create_invite_codes_batch_at(codes, use_count, created_by_user, for_account, now);
        assert(is_timestamp(now as int));
        Ok(())
    }

    /// Makes some invite codes of a user at a given time.
    pub fn create_invite_codes_batch_at(
        &mut self,
        codes: &[String],
        use_count: i32,
        created_by_user: Uuid,
        for_account: Option<&Did>,
        now: i64,
    )
        ensures
            final(self)@ == infra_committed(
                old(self)@,
                invite_writes(
                    codes.deep_view(),
                    use_count,
                    optional_ref(for_account),
                    created_by_user,
                    now,
                ),
            ),
            *final(final(self).store) == *final(old(self).store),
    {
        let ghost all = invite_writes(
            codes.deep_view(),
            use_count,
            optional_ref(for_account),
            created_by_user,
            now,
        );
        let mut batch: Vec<Write> = Vec::new();
        let mut i: usize = 0;
        assert(batch.deep_view() =~= all.take(0));
        while i < codes.len()
            invariant
                i <= codes@.len(),
                all == invite_writes(
                    codes.deep_view(),
                    use_count,
                    optional_ref(for_account),
                    created_by_user,
                    now,
                ),
                batch.deep_view() == all.take(i as int),
            decreases codes.len() - i,
        {
            let code: &str = codes[i].as_str();
            assert(codes.deep_view()[i as int] == code@);
            let value = InviteCodeValue {
                code: code.to_owned(),
                available_uses: use_count,
                disabled: false,
                for_account: owned_did(for_account),
                created_by: Some(created_by_user),
                created_at_ms: now,
            };
            let ghost v = new_invite(
                code@,
                use_count,
                optional_ref(for_account),
                Some(created_by_user),
                now,
            );
            assert(value.deep_view() == v);
            let ghost before = batch.deep_view();
            let w = Write::Put {
                key: text_key(KeyTag::InviteCode, code),
                value: value.serialize(),
            };
            assert(w.deep_view() == all[i as int]);
            batch.push(w);
            assert(batch.deep_view() =~= before.push(all[i as int]));
            assert(batch.deep_view() =~= all.take(i + 1));
            i = i + 1;
        }
        assert(all.take(all.len() as int) =~= all);
        self.store.infra.commit(batch);
    }

    /// How many uses a code has left.
    pub fn get_invite_code_available_uses(&self, code: &str) -> (r: Result<
        Option<i32>,
        MetastoreError,
    >)
        ensures
            r == (match invite_at(self@.infra.rows, invite_key(code@)) {
                Err(e) => Err::<Option<i32>, MetastoreError>(e),
                Ok(Some(v)) => Ok(Some(v.available_uses)),
                Ok(None) => Ok(None),
            }),
    {
        let key: Vec<u8> = text_key(KeyTag::InviteCode, code);
        match find_invite(&self.store.infra, key.as_slice()) {
            Err(e) => Err(e),
            Ok(Some(v)) => Ok(Some(v.available_uses)),
            Ok(None) => Ok(None),
        }
    }

    /// Checks that a code can be used.
    pub fn validate_invite_code<'c>(&self, code: &'c str) -> (r: Result<
        ValidatedInviteCode<'c>,
        InviteCodeError,
    >)
        ensures
            match invite_refusal(self@.infra.rows, code@) {
                Some(e) => r is Err && r->Err_0@ == e,
                None => r is Ok && r->Ok_0@ == code@,
            },
    {
        let key: Vec<u8> = text_key(KeyTag::InviteCode, code);
        match find_invite(&self.store.infra, key.as_slice()) {
            Err(e) => Err(database_error(e)),
            Ok(None) => Err(InviteCodeError::NotFound),
            Ok(Some(v)) => {
                if v.disabled {
                    Err(InviteCodeError::Disabled)
                } else if v.available_uses <= 0 {
                    Err(InviteCodeError::ExhaustedUses)
                } else {
                    Ok(ValidatedInviteCode::new_validated(code))
                }
            },
        }
    }

    /// Takes a use of a code, if the code can be used.
    pub fn reserve_invite_code(&mut self, code: &str) -> (r: Result<(), InviteCodeError>)
        ensures
            (refusal(r), final(self)@) == reserved(old(self)@, code@),
            *final(final(self).store) == *final(old(self).store),
    {
        match self.validate_invite_code(code) {
            Err(e) => Err(e),
            Ok(validated) => match self.decrement_invite_code_uses(&validated) {
                Err(e) => Err(database_error(e)),
                Ok(()) => Ok(()),
            },
        }
    }

    /// Gives a use of a code back.
    pub fn refund_invite_code(&mut self, code: &str) -> (r: Result<(), InviteCodeError>)
        requires
            !uses_at_limit(old(self)@.infra.rows, code@),
        ensures
            (refusal(r), final(self)@) == refunded(old(self)@, code@),
            *final(final(self).store) == *final(old(self).store),
    {
        let key: Vec<u8> = text_key(KeyTag::InviteCode, code);
        match find_invite(&self.store.infra, key.as_slice()) {
            Err(e) => Err(database_error(e)),
            Ok(None) => Err(InviteCodeError::NotFound),
            Ok(Some(v)) => {
                let ghost before = v.deep_view();
                let mut v: InviteCodeValue = v;
                v.available_uses = v.available_uses + 1;
                assert(v.deep_view() == InviteRow {
                    available_uses: (before.available_uses + 1) as i32,
                    ..before
                });
                let batch: Vec<Write> = vec![Write::Put { key, value: v.serialize() }];
                assert(batch.deep_view() =~= seq![
                    WriteView::Put { key: invite_key(code@), value: v.deep_view().stored() },
                ]);
                self.store.infra.commit(batch);
                Ok(())
            },
        }
    }

    /// Takes a use of a code that was found to be usable.
    pub fn decrement_invite_code_uses(&mut self, code: &ValidatedInviteCode<'_>) -> (r: Result<
        (),
        MetastoreError,
    >)
        ensures
            (r, final(self)@) == use_taken(old(self)@, code@),
            *final(final(self).store) == *final(old(self).store),
    {
        let key: Vec<u8> = text_key(KeyTag::InviteCode, code.code());
        match find_invite(&self.store.infra, key.as_slice()) {
            Err(e) => Err(e),
            Ok(None) => Err(MetastoreError::InvalidInput("invite code not found")),
            Ok(Some(v)) => {
                let ghost before = v.deep_view();
                let mut v: InviteCodeValue = v;
                v.available_uses = if v.available_uses == i32::MIN {
                    v.available_uses
                } else {
                    v.available_uses - 1
                };
                assert(v.deep_view() == InviteRow {
                    available_uses: one_less(before.available_uses),
                    ..before
                });
                let batch: Vec<Write> = vec![Write::Put { key, value: v.serialize() }];
                assert(batch.deep_view() =~= seq![
                    WriteView::Put { key: invite_key(code@), value: v.deep_view().stored() },
                ]);
                self.store.infra.commit(batch);
                Ok(())
            },
        }
    }

    /// Records who used a code.
    pub fn record_invite_code_use(
        &mut self,
        code: &ValidatedInviteCode<'_>,
        used_by_user: Uuid,
    ) -> (r: Result<(), MetastoreError>)
        ensures
            r is Ok,
            exists|now: i64| #[trigger]
                is_timestamp(now as int) && final(self)@ == infra_committed(
                    old(self)@,
                    use_writes(code@, used_by_user, now),
                ),
            *final(final(self).store) == *final(old(self).store),
    {
        let now: i64 = now_millis();
        self.record_invite_code_use_at(code, used_by_user, now);
        assert(is_timestamp(now as int));
        Ok(())
    }

    /// Records who used a code at a given time.
    pub fn record_invite_code_use_at(
        &mut self,
        code: &ValidatedInviteCode<'_>,
        used_by_user: Uuid,
        now: i64,
    )
        ensures
            final(self)@ == infra_committed(old(self)@, use_writes(code@, used_by_user, now)),
            *final(final(self).store) == *final(old(self).store),
    {
        let value = InviteCodeUseValue { used_by: used_by_user, used_at_ms: now };
        assert(value.deep_view() == InviteUseRow { used_by: used_by_user, used_at_ms: now });
        let batch: Vec<Write> = vec![
            Write::Put {
                key: invite_use_key(code.code(), used_by_user),
                value: value.serialize(),
            },
            Write::Put {
                key: id_key(KeyTag::InviteUsedBy, used_by_user),
                value: copy_bytes(code.code().as_bytes()),
            },
        ];
        assert(batch.deep_view() =~= use_writes(code@, used_by_user, now));
        self.store.infra.commit(batch);
    }

    /// The codes that were made for an account.
    pub fn get_invite_codes_for_account(&self, for_account: &Did) -> (r: Result<
        Vec<InviteCodeInfo>,
        MetastoreError,
    >)
        ensures
            viewed(r) == collect_all(
                invite_rows(self@.infra.rows),
                |row: RowView|
                    invite_for(row, for_account@, self@.users.rows, self@.user_hashes),
            ),
    {
        let prefix: Vec<u8> = vec![KeyTag::InviteCode.raw()];
        assert(prefix@ =~= seq![KeyTag::InviteCode.byte()]);
        let rows: Vec<Row> = self.store.infra.prefix(prefix.as_slice());
        let reader = InvitesFor {
            account: for_account.as_str(),
            users: &self.store.users,
            hashes: &self.store.user_hashes,
        };
        assert(reader.reading() =~= |row: RowView|
            invite_for(row, for_account@, self@.users.rows, self@.user_hashes));
        collect_all_items(rows.as_slice(), &reader)
    }

    /// The uses of a code.
    pub fn get_invite_code_uses(&self, code: &str) -> (r: Result<
        Vec<InviteCodeUse>,
        MetastoreError,
    >)
        ensures
            viewed(r) == uses_of_code(self@, code@),
    {
        let prefix: Vec<u8> = text_key(KeyTag::InviteUse, code);
        let rows: Vec<Row> = self.store.infra.prefix(prefix.as_slice());
        let reader = InviteUses {
            code,
            users: &self.store.users,
            hashes: &self.store.user_hashes,
        };
        assert(reader.reading() =~= |row: RowView|
            invite_use(row, code@, self@.users.rows, self@.user_hashes));
        collect_all_items(rows.as_slice(), &reader)
    }

    /// Disables some codes; those that do not exist are passed over.
    pub fn disable_invite_codes_by_code(&mut self, codes: &[String]) -> (r: Result<
        (),
        MetastoreError,
    >)
        ensures
            match collect_all(
                codes.deep_view(),
                |code: Seq<char>| disable_write(old(self)@.infra.rows, code),
            ) {
                Ok(ws) => r is Ok && final(self)@ == infra_committed(old(self)@, ws),
                Err(e) => r == Err::<(), MetastoreError>(e) && final(self)@ == old(self)@,
            },
            *final(final(self).store) == *final(old(self).store),
    {
        let reader = DisableWrites { infra: &self.store.infra };
        assert(reader.reading() =~= |code: Seq<char>| disable_write(old(self)@.infra.rows, code));
        match collect_all_items(codes, &reader) {
            Err(e) => Err(e),
            Ok(batch) => {
                self.store.infra.commit(batch);
                Ok(())
            },
        }
    }

    /// Disables the codes that were made for some accounts.
    pub fn disable_invite_codes_by_account(&mut self, accounts: &[Did]) -> (r: Result<
        (),
        MetastoreError,
    >)
        ensures
            match collect_all(
                invite_rows(old(self)@.infra.rows),
                |row: RowView| account_disable_write(row, accounts.deep_view()),
            ) {
                Ok(ws) => r is Ok && final(self)@ == infra_committed(old(self)@, ws),
                Err(e) => r == Err::<(), MetastoreError>(e) && final(self)@ == old(self)@,
            },
            *final(final(self).store) == *final(old(self).store),
    {
        let prefix: Vec<u8> = vec![KeyTag::InviteCode.raw()];
        assert(prefix@ =~= seq![KeyTag::InviteCode.byte()]);
        let rows: Vec<Row> = self.store.infra.prefix(prefix.as_slice());
        let reader = AccountDisableWrites { accounts };
        assert(reader.reading() =~= |row: RowView|
            account_disable_write(row, accounts.deep_view()));
        match collect_all_items(rows.as_slice(), &reader) {
            Err(e) => Err(e),
            Ok(batch) => {
                self.store.infra.commit(batch);
                Ok(())
            },
        }
    }

    /// A page of the list of all codes.
    pub fn list_invite_codes(
        &self,
        cursor: Option<&str>,
        limit: i64,
        sort: InviteCodeSortOrder,
    ) -> (r: Result<Vec<InviteCodeRow>, MetastoreError>)
        ensures
            viewed(r) == (match invite_list(self@.infra.rows, sort) {
                Ok(list) => Ok(
                    invite_page(list, crate::types::optional_text(cursor), count_limit(limit)),
                ),
                Err(e) => Err(e),
            }),
    {
        let prefix: Vec<u8> = vec![KeyTag::InviteCode.raw()];
        assert(prefix@ =~= seq![KeyTag::InviteCode.byte()]);
        let rows: Vec<Row> = self.store.infra.prefix(prefix.as_slice());
        let reader = ListedInvites {  };
        assert(reader.reading() =~= |row: RowView| listed_invite(row));
        match collect_all_items(rows.as_slice(), &reader) {
            Err(e) => Err(e),
            Ok(found) => {
                let by = ListOrder { sort };
                assert(by.numbering() =~= |v: ListedInvite| list_number(v, sort));
                let list: Vec<InviteCodeRow> = sort_items(found, &by);
                match cursor {
                    Some(c) => Ok(keep_first(drop_to_code(list, c), limit_of(limit))),
                    None => Ok(keep_first(list, limit_of(limit))),
                }
            },
        }
    }

    /// The DIDs of those users that have one.
    pub fn get_user_dids_by_ids(&self, user_ids: &[Uuid]) -> (r: Result<
        Vec<(Uuid, Did)>,
        MetastoreError,
    >)
        ensures
            viewed(r) == collect_all(
                user_ids.deep_view(),
                |id: Uuid| user_did(id, self@.users.rows, self@.user_hashes),
            ),
    {
        let reader = UserDids { users: &self.store.users, hashes: &self.store.user_hashes };
        assert(reader.reading() =~= |id: Uuid| user_did(id, self@.users.rows, self@.user_hashes));
        collect_all_items(user_ids, &reader)
    }

    /// The uses of some codes, code by code.
    pub fn get_invite_code_uses_batch(&self, codes: &[String]) -> (r: Result<
        Vec<InviteCodeUse>,
        MetastoreError,
    >)
        ensures
            viewed(r) == uses_of_codes(self@, codes.deep_view()),
    {
        let ghost all = codes.deep_view();
        let mut out: Vec<InviteCodeUse> = Vec::new();
        let mut i: usize = 0;
        assert(out.deep_view() =~= Seq::empty());
        while i < codes.len()
            invariant
                i <= codes@.len(),
                all == codes.deep_view(),
                uses_of_codes(self@, all.take(i as int)) == Ok::<Seq<InviteUse>, MetastoreError>(
                    out.deep_view(),
                ),
            decreases codes.len() - i,
        {
            assert(all[i as int] == codes@[i as int]@);
            assert(all.take(i + 1).drop_last() =~= all.take(i as int));
            match self.get_invite_code_uses(codes[i].as_str()) {
                Err(e) => {
                    proof {
                        uses_of_codes_fail(self@, all, i + 1);
                    }
                    return Err(e);
                },
                Ok(uses) => {
                    let mut uses: Vec<InviteCodeUse> = uses;
                    let ghost before = out.deep_view();
                    let ghost more = uses.deep_view();
                    out.append(&mut uses);
                    assert(out.deep_view() =~= before + more);
                },
            }
            i = i + 1;
        }
        assert(all.take(i as int) =~= all);
        Ok(out)
    }

    /// The codes that a user made.
    pub fn get_invites_created_by_user(&self, user_id: Uuid) -> (r: Result<
        Vec<InviteCodeInfo>,
        MetastoreError,
    >)
        ensures
            viewed(r) == collect_all(
                invite_rows(self@.infra.rows),
                |row: RowView| invite_made(row, user_id, self@.users.rows, self@.user_hashes),
            ),
    {
        let prefix: Vec<u8> = vec![KeyTag::InviteCode.raw()];
        assert(prefix@ =~= seq![KeyTag::InviteCode.byte()]);
        let rows: Vec<Row> = self.store.infra.prefix(prefix.as_slice());
        let reader = InvitesMade {
            maker: user_id,
            users: &self.store.users,
            hashes: &self.store.user_hashes,
        };
        assert(reader.reading() =~= |row: RowView|
            invite_made(row, user_id, self@.users.rows, self@.user_hashes));
        collect_all_items(rows.as_slice(), &reader)
    }

    /// What is known of a code.
    pub fn get_invite_code_info(&self, code: &str) -> (r: Result<
        Option<InviteCodeInfo>,
        MetastoreError,
    >)
        ensures
            viewed(r) == (match invite_at(self@.infra.rows, invite_key(code@)) {
                Err(e) => Err(e),
                Ok(Some(v)) => Ok(Some(invite_info(v, self@.users.rows, self@.user_hashes))),
                Ok(None) => Ok(None),
            }),
    {
        let key: Vec<u8> = text_key(KeyTag::InviteCode, code);
        match find_invite(&self.store.infra, key.as_slice()) {
            Err(e) => Err(e),
            Ok(Some(v)) => Ok(
                Some(value_to_invite_info(v, &self.store.users, &self.store.user_hashes)),
            ),
            Ok(None) => Ok(None),
        }
    }

    /// The codes that some users made, each with its maker.
    pub fn get_invite_codes_by_users(&self, user_ids: &[Uuid]) -> (r: Result<
        Vec<(Uuid, InviteCodeInfo)>,
        MetastoreError,
    >)
        ensures
            viewed(r) == collect_all(
                invite_rows(self@.infra.rows),
                |row: RowView| invite_by(row, user_ids@, self@.users.rows, self@.user_hashes),
            ),
    {
        let prefix: Vec<u8> = vec![KeyTag::InviteCode.raw()];
        assert(prefix@ =~= seq![KeyTag::InviteCode.byte()]);
        let rows: Vec<Row> = self.store.infra.prefix(prefix.as_slice());
        let reader = InvitesBy {
            makers: user_ids,
            users: &self.store.users,
            hashes: &self.store.user_hashes,
        };
        assert(reader.reading() =~= |row: RowView|
            invite_by(row, user_ids@, self@.users.rows, self@.user_hashes));
        collect_all_items(rows.as_slice(), &reader)
    }

    /// The code that a user joined with.
    pub fn get_invite_code_used_by_user(&self, user_id: Uuid) -> (r: Result<
        Option<String>,
        MetastoreError,
    >)
        ensures
            viewed(r) == code_used_by(self@.infra.rows, user_id),
    {
        find_code_used_by(&self.store.infra, user_id)
    }

    /// The codes that some users joined with, where they can be read.
    pub fn get_invite_code_uses_by_users(&self, user_ids: &[Uuid]) -> (r: Result<
        Vec<(Uuid, String)>,
        MetastoreError,
    >)
        ensures
            viewed(r) == collect_all(
                user_ids.deep_view(),
                |id: Uuid| user_code(id, self@.infra.rows),
            ),
    {
        let reader = UserCodes { infra: &self.store.infra };
        assert(reader.reading() =~= |id: Uuid| user_code(id, self@.infra.rows));
        collect_all_items(user_ids, &reader)
    }

    /// Forgets which code a user joined with.
    pub fn delete_invite_code_uses_by_user(&mut self, user_id: Uuid) -> (r: Result<
        (),
        MetastoreError,
    >)
        ensures
            match code_used_by(old(self)@.infra.rows, user_id) {
                Err(e) => r == Err::<(), MetastoreError>(e) && final(self)@ == old(self)@,
                Ok(None) => r is Ok && final(self)@ == old(self)@,
                Ok(Some(code)) => r is Ok && final(self)@ == infra_committed(
                    old(self)@,
                    seq![
                        WriteView::Remove { key: invite_use_key_bytes(code, user_id) },
                        WriteView::Remove { key: id_key_bytes(KeyTag::InviteUsedBy, user_id) },
                    ],
                ),
            },
            *final(final(self).store) == *final(old(self).store),
    {
        match find_code_used_by(&self.store.infra, user_id) {
            Err(e) => Err(e),
            Ok(None) => Ok(()),
            Ok(Some(code)) => {
                let batch: Vec<Write> = vec![
                    Write::Remove { key: invite_use_key(code.as_str(), user_id) },
                    Write::Remove { key: id_key(KeyTag::InviteUsedBy, user_id) },
                ];
                assert(batch.deep_view() =~= seq![
                    WriteView::Remove { key: invite_use_key_bytes(code@, user_id) },
                    WriteView::Remove { key: id_key_bytes(KeyTag::InviteUsedBy, user_id) },
                ]);
                self.store.infra.commit(batch);
                Ok(())
            },
        }
    }

    /// Removes the codes that a user made, with their uses.
    pub fn delete_invite_codes_by_user(&mut self, user_id: Uuid) -> (r: Result<
        (),
        MetastoreError,
    >)
        ensures
            match maker_removals(
                old(self)@.infra.rows,
                invite_rows(old(self)@.infra.rows),
                user_id,
            ) {
                Err(e) => r == Err::<(), MetastoreError>(e) && final(self)@ == old(self)@,
                Ok(ws) => r is Ok && final(self)@ == infra_committed(
                    old(self)@,
                    ws.push(
                        WriteView::Remove { key: id_key_bytes(KeyTag::InviteByUser, user_id) },
                    ),
                ),
            },
            *final(final(self).store) == *final(old(self).store),
    {
        let ghost infra = self.store.infra@.rows;
        let prefix: Vec<u8> = vec![KeyTag::InviteCode.raw()];
        assert(prefix@ =~= seq![KeyTag::InviteCode.byte()]);
        let rows: Vec<Row> = self.store.infra.prefix(prefix.as_slice());
        let ghost all = rows.deep_view();
        let mut batch: Vec<Write> = Vec::new();
        let mut i: usize = 0;
        assert(batch.deep_view() =~= Seq::empty());
        while i < rows.len()
            invariant
                i <= rows@.len(),
                all == rows.deep_view(),
                infra == self.store.infra@.rows,
                infra == old(self)@.infra.rows,
                self@ == old(self)@,
                *final(self.store) == *final(old(self).store),
                all == invite_rows(infra),
                maker_removals(infra, all.take(i as int), user_id) == Ok::<
                    Seq<WriteView>,
                    MetastoreError,
                >(batch.deep_view()),
            decreases rows.len() - i,
        {
            let ghost before = batch.deep_view();
            proof {
                assert(all.take(i + 1).drop_last() =~= all.take(i as int));
                assert(all.take(i + 1).last() == rows@[i as int].deep_view());
            }
            match InviteCodeValue::deserialize(rows[i].value.as_slice()) {
                None => {
                    proof {
                        maker_removals_fail(infra, all, user_id, i + 1);
                    }
                    return Err(MetastoreError::CorruptData("corrupt invite code"));
                },
                Some(v) => {
                    if was_made_by(&v, user_id) {
                        let w = Write::Remove { key: copy_bytes(rows[i].key.as_slice()) };
                        let ghost wv = w.deep_view();
                        batch.push(w);
                        assert(batch.deep_view() =~= before.push(wv));
                        let use_prefix: Vec<u8> = text_key(KeyTag::InviteUse, v.code.as_str());
                        let uses: Vec<Row> = self.store.infra.prefix(use_prefix.as_slice());
                        push_removals(&mut batch, &uses);
                    }
                },
            }
            i = i + 1;
        }
        assert(all.take(i as int) =~= all);
        let ghost before = batch.deep_view();
        batch.push(Write::Remove { key: id_key(KeyTag::InviteByUser, user_id) });
        assert(batch.deep_view() =~= before.push(
            WriteView::Remove { key: id_key_bytes(KeyTag::InviteByUser, user_id) },
        ));
        self.store.infra.commit(batch);
        Ok(())
    }
}

} // verus!
