//! What clients are answered about blocks, links, blobs and invite codes, and which parts of the
//! store a request leaves alone.

use vstd::prelude::*;
use vstd::utf8::encode_utf8;

use crate::account_laws::registration_takes_a_use;
use crate::backlinks::{target_key_bytes, uri_key_bytes, BacklinkMutation, Link};
use crate::commit_ops::CommitState;
use crate::dispatch::{answer, backlink_answer, blob_answer, user_answer, user_block_answer};
use crate::dispatch::{Reply, RepoReply};
use crate::encoding::be8;
use crate::event_keys::{did_events_key_bytes, rev_to_seq_key_bytes};
use crate::event_ops::EventState;
use crate::event_reading_laws::{blobs_since_are_named, names_blob};
use crate::infra_schema::invite_at;
use crate::invite_ops::{invite_key, invite_refusal};
use crate::keys::did_hash;
use crate::link_laws::links_are_added_and_removed;
use crate::metastore::MetastoreView;
use crate::purge::removed_links_are_gone;
use crate::repo_row_laws::{other_users_keep_links, stored_blocks_have_revision};
use crate::requests::{BacklinkRequest, BlobRequest, MetastoreRequest, UserBlockRequest, UserRequest};
use crate::store::{lookup, storable};
use crate::types::{Did, Uuid};
use crate::user_blocks::user_block_key_bytes;
use crate::user_hash::hash_of;

verus! {

/// Blocks that a client asks to be stored for a known user stand under their identifiers with
/// the revision, and blocks that one asks to be deleted are gone. For an unknown user the client
/// is told of a failure, and nothing changes.
pub proof fn stored_blocks_are_answered(
    s: MetastoreView,
    t: MetastoreView,
    u: MetastoreView,
    user_id: Uuid,
    block_cids: Vec<Vec<u8>>,
    repo_rev: String,
    stored: RepoReply,
    deleted: RepoReply,
    i: int,
)
    requires
        user_block_answer(
            s,
            (UserBlockRequest::InsertUserBlocks { user_id, block_cids, repo_rev }),
            Some(stored),
            t,
        ),
        user_block_answer(
            t,
            (UserBlockRequest::DeleteUserBlocks { user_id, block_cids }),
            Some(deleted),
            u,
        ),
        0 <= i < block_cids@.len(),
    ensures
        match hash_of(s.user_hashes, user_id) {
            None => (stored matches RepoReply::Done(Err(_))) && (deleted matches RepoReply::Done(
                Err(_),
            )) && t == s && u == s,
            Some(hash) => {
                let key = user_block_key_bytes(hash, block_cids@[i]@);
                &&& stored == RepoReply::Done(Ok(()))
                &&& lookup(t.repo_data.rows, key) == Some(encode_utf8(repo_rev@))
                &&& deleted == RepoReply::Done(Ok(()))
                &&& lookup(u.repo_data.rows, key) is None
                &&& t.users == s.users && t.infra == s.infra && t.indexes == s.indexes
                &&& u.users == s.users && u.infra == s.infra && u.indexes == s.indexes
            },
        },
{
    let cids = block_cids.deep_view();
    assert(cids[i] =~= block_cids@[i]@);
    if hash_of(s.user_hashes, user_id) is Some {
        stored_blocks_have_revision(s, user_id, cids, repo_rev@, i);
        stored_blocks_have_revision(t, user_id, cids, repo_rev@, i);
    }
}

/// Links that a client asks to be added for a known user are found under their records and their
/// targets.
pub proof fn added_links_are_answered(
    s: MetastoreView,
    t: MetastoreView,
    repo_id: Uuid,
    backlinks: Vec<BacklinkMutation>,
    reply: RepoReply,
    i: int,
)
    requires
        s.indexes.rows.dom().finite(),
        backlink_answer(s, (BacklinkRequest::AddBacklinks { repo_id, backlinks }), Some(reply), t),
        0 <= i < backlinks@.len(),
    ensures
        match hash_of(s.user_hashes, repo_id) {
            None => (reply matches RepoReply::Done(Err(_))) && t == s,
            Some(hash) => {
                let link = Link {
                    uri: backlinks@[i].uri@,
                    path: backlinks@[i].path,
                    link_to: backlinks@[i].link_to@,
                };
                &&& reply == RepoReply::Done(Ok(()))
                &&& lookup(t.indexes.rows, target_key_bytes(hash, link)) is Some
                &&& lookup(t.indexes.rows, uri_key_bytes(hash, link)) is Some
            },
        },
{
    let links = backlinks.deep_view();
    links_are_added_and_removed(s, repo_id, links, i, Seq::empty(), Seq::empty(), 0, links[i]);
}

/// Once a client's request to remove the links of a record was answered with success, the record
/// has none, and every other link is as it was; one without an account is answered with a
/// failure, and changes nothing.
pub proof fn removed_links_are_answered(
    s: MetastoreView,
    t: MetastoreView,
    uri: String,
    did: Option<Did>,
    reply: RepoReply,
    h: u64,
    link: Link,
)
    requires
        s.indexes.rows.dom().finite(),
        backlink_answer(s, (BacklinkRequest::RemoveBacklinksByUri { uri, did }), Some(reply), t),
    ensures
        did is None ==> (reply matches RepoReply::Done(Err(_))) && t == s,
        (reply matches RepoReply::Done(Err(_))) ==> t == s,
        did matches Some(d) ==> (reply == RepoReply::Done(Ok(())) ==> {
            let (own, target) = (uri_key_bytes(h, link), target_key_bytes(h, link));
            let (before, after) = (s.indexes.rows, t.indexes.rows);
            if h == did_hash(d@) && link.uri == uri@ {
                &&& lookup(after, own) is None
                &&& lookup(before, own) is Some ==> lookup(after, target) is None
            } else {
                &&& lookup(after, own) == lookup(before, own)
                &&& lookup(after, target) == lookup(before, target)
            }
        }),
{
    let none = Uuid { bits: 0 };
    if let Some(d) = did {
        links_are_added_and_removed(s, none, seq![link], 0, uri@, d@, h, link);
    } else {
        links_are_added_and_removed(s, none, seq![link], 0, uri@, Seq::empty(), h, link);
    }
}

/// Once a client's request to remove a user's links was answered with success, the user has none,
/// and every other user's links are as they were; for an unknown user it is answered with a
/// failure, and changes nothing.
pub proof fn removed_links_of_user_are_answered(
    s: MetastoreView,
    t: MetastoreView,
    repo_id: Uuid,
    reply: RepoReply,
    h: u64,
    link: Link,
)
    requires
        s.indexes.rows.dom().finite(),
        backlink_answer(s, (BacklinkRequest::RemoveBacklinksByRepo { repo_id }), Some(reply), t),
    ensures
        (reply matches RepoReply::Done(Err(_))) ==> t == s,
        match hash_of(s.user_hashes, repo_id) {
            None => (reply matches RepoReply::Done(Err(_))) && t == s,
            Some(hash) => reply == RepoReply::Done(Ok(())) ==> {
                let (own, target) = (uri_key_bytes(h, link), target_key_bytes(h, link));
                let (before, after) = (s.indexes.rows, t.indexes.rows);
                if h == hash {
                    &&& lookup(after, own) is None
                    &&& lookup(before, own) is Some ==> lookup(after, target) is None
                } else {
                    &&& lookup(after, own) == lookup(before, own)
                    &&& lookup(after, target) == lookup(before, target)
                }
            },
        },
{
    if let Some(hash) = hash_of(s.user_hashes, repo_id) {
        if reply == RepoReply::Done(Ok(())) {
            if h == hash {
                removed_links_are_gone(s, hash, link);
            } else {
                other_users_keep_links(s, hash, h, link);
            }
        }
    }
}

/// The blobs that a client is given since a revision hold every blob that a visible event of the
/// account names which was recorded after the revision's, and no blob that no visible event
/// names. Since an unknown revision there are none.
pub proof fn blobs_since_are_answered(
    s: EventState,
    did: Did,
    since: String,
    reply: RepoReply,
    n: u64,
    b: Seq<char>,
    q: u64,
)
    requires
        s.repo_data.rows.dom().finite(),
        blob_answer(s, (BlobRequest::ListBlobsSinceRev { did, since }), Some(reply)),
    ensures
        reply is Blobs,
        lookup(s.repo_data.rows, rev_to_seq_key_bytes(did_hash(did@), since@)) is None ==> (
        reply matches RepoReply::Blobs(Ok(list)) && list@.len() == 0),
        lookup(s.repo_data.rows, rev_to_seq_key_bytes(did_hash(did@), since@)) == Some(be8(n)) ==> (
        reply matches RepoReply::Blobs(Ok(list)) ==> {
            &&& q > n && s.repo_data.rows.contains_key(did_events_key_bytes(did_hash(did@), q))
                && names_blob(s, q, b) ==> exists|i: int|
                0 <= i < list@.len() && (#[trigger] list@[i])@ == b
            &&& (exists|i: int| 0 <= i < list@.len() && (#[trigger] list@[i])@ == b) ==> exists|m: u64|
                #[trigger] names_blob(s, m, b)
        }),
{
    blobs_since_are_named(s, did@, since@, n, b, q);
    if let RepoReply::Blobs(Ok(list)) = reply {
        let given = list.deep_view();
        if given.contains(b) {
            let i = choose|i: int| 0 <= i < given.len() && given[i] == b;
            assert(list@[i]@ == b);
        }
        if exists|i: int| 0 <= i < list@.len() && (#[trigger] list@[i])@ == b {
            let i = choose|i: int| 0 <= i < list@.len() && (#[trigger] list@[i])@ == b;
            assert(given[i] == b);
            assert(given.contains(b));
        }
    }
}

/// A client who asks to take a use of an invite code is told yes exactly where the code is not
/// refused, and one use is taken then; where it is refused, nothing changes.
pub proof fn consumed_code_is_answered(
    s: MetastoreView,
    t: MetastoreView,
    code: String,
    reply: RepoReply,
)
    requires
        storable(s.infra.rows),
        user_answer(s, (UserRequest::CheckAndConsumeInviteCode { code }), Some(reply), t),
    ensures
        ({
            let refused = invite_refusal(s.infra.rows, code@) is Some;
            &&& reply matches RepoReply::Flag(Ok(yes)) && yes == !refused
            &&& refused ==> t == s
            &&& !refused ==> (invite_at(s.infra.rows, invite_key(code@)) matches Ok(Some(v)) && (
            invite_at(t.infra.rows, invite_key(code@)) matches Ok(Some(w)) && w.available_uses
                == v.available_uses - 1 && w.disabled == v.disabled))
        }),
{
    registration_takes_a_use(s, code@);
}

/// A request about grants, about repositories or about the service's own data leaves the log of
/// events as it is; one about blobs changes nothing; and one about events leaves all but the
/// repositories' data as it is.
pub proof fn requests_keep_to_their_side(
    s: CommitState,
    request: MetastoreRequest,
    store_blocks: bool,
    reply: Reply,
    t: CommitState,
)
    requires
        answer(s, request, store_blocks, reply, t),
    ensures
        !(request is Event) && !(request is Commit) ==> t.log == s.log,
        request is Blob ==> t == s,
        request is Event ==> t.store.users == s.store.users && t.store.infra == s.store.infra
            && t.store.indexes == s.store.indexes && t.store.user_hashes == s.store.user_hashes,
        request is Delegation <==> reply is Delegation,
        request is Event <==> reply is Event,
        request is Commit <==> reply is Commit,
        request is Infra <==> reply is Infra,
        reply is Repo ==> request is Repo || request is Record || request is UserBlock || request
            is Backlink || request is Blob || request is User,
        reply is Elsewhere ==> t == s,
{
}

} // verus!
