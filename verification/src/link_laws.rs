//! What a commit leaves of the links between records.

use vstd::prelude::*;
use vstd::utf8::encode_utf8;

use crate::backlinks::{link_in_key, link_writes, target_key_bytes};
use crate::backlinks::{unlink_rows, unlink_uri, unlink_writes, uri_key_bytes, uri_prefix_bytes};
use crate::backlinks::Link;
use crate::bytes::has_prefix;
use crate::codec::text_round_trip;
use crate::commit_laws::removed;
use crate::commit_ops::{commit_outcome, current_repo, mutations_of, CommitInput, CommitState};
use crate::encoding::{be8, be8_injective, be_len, escaped, escaped_injective, escaped_round_trip};
use crate::errors::MetastoreError;
use crate::keys::{did_hash, KeyTag};
use crate::metastore::MetastoreView;
use crate::repo_laws::added_link_is_found;
use crate::repo_steps::{links_added, links_removed};
use crate::store::{lookup, prefix_keys, scan, scan_lists, write_rows, write_rows_concat};
use crate::store::{write_rows_frame, writes_key, RowView, Rows, WriteView};
use crate::types::Uuid;
use crate::user_hash::hash_of;

verus! {

proof fn same_text_field(a: Seq<char>, b: Seq<char>, x: Seq<u8>, y: Seq<u8>)
    requires
        escaped(encode_utf8(a)) + x == escaped(encode_utf8(b)) + y,
    ensures
        a == b,
        x == y,
{
    escaped_injective(encode_utf8(a), encode_utf8(b), x, y);
    text_round_trip(a);
    text_round_trip(b);
}

/// Each link of a user has a row of its own under its target, and one under its record.
pub proof fn link_keys_injective(h1: u64, l1: Link, h2: u64, l2: Link)
    ensures
        target_key_bytes(h1, l1) == target_key_bytes(h2, l2) ==> h1 == h2 && l1 == l2,
        uri_key_bytes(h1, l1) == uri_key_bytes(h2, l2) ==> h1 == h2 && l1 == l2,
        target_key_bytes(h1, l1) != uri_key_bytes(h2, l2),
{
    be_len(h1 as nat, 8);
    be_len(h2 as nat, 8);
    let none = Seq::<u8>::empty();
    let t1 = target_key_bytes(h1, l1);
    let t2 = target_key_bytes(h2, l2);
    let u1 = uri_key_bytes(h1, l1);
    let u2 = uri_key_bytes(h2, l2);
    assert(t1[0] == KeyTag::BacklinkByTarget.byte());
    assert(u2[0] == KeyTag::BacklinkByUri.byte());
    if t1 == t2 {
        let x1 = seq![l1.path] + be8(h1) + escaped(encode_utf8(l1.uri));
        let x2 = seq![l2.path] + be8(h2) + escaped(encode_utf8(l2.uri));
        assert(t1.skip(1) =~= escaped(encode_utf8(l1.link_to)) + x1);
        assert(t2.skip(1) =~= escaped(encode_utf8(l2.link_to)) + x2);
        same_text_field(l1.link_to, l2.link_to, x1, x2);
        assert(x1[0] == l1.path && x2[0] == l2.path);
        assert(x1.subrange(1, 9) =~= be8(h1));
        assert(x2.subrange(1, 9) =~= be8(h2));
        be8_injective(h1, h2);
        assert(x1.skip(9) =~= escaped(encode_utf8(l1.uri)) + none);
        assert(x2.skip(9) =~= escaped(encode_utf8(l2.uri)) + none);
        same_text_field(l1.uri, l2.uri, none, none);
    }
    if u1 == u2 {
        let x1 = seq![l1.path] + escaped(encode_utf8(l1.link_to));
        let x2 = seq![l2.path] + escaped(encode_utf8(l2.link_to));
        assert(u1.subrange(1, 9) =~= be8(h1));
        assert(u2.subrange(1, 9) =~= be8(h2));
        be8_injective(h1, h2);
        assert(u1.skip(9) =~= escaped(encode_utf8(l1.uri)) + x1);
        assert(u2.skip(9) =~= escaped(encode_utf8(l2.uri)) + x2);
        same_text_field(l1.uri, l2.uri, x1, x2);
        assert(x1[0] == l1.path && x2[0] == l2.path);
        assert(x1.skip(1) =~= escaped(encode_utf8(l1.link_to)) + none);
        assert(x2.skip(1) =~= escaped(encode_utf8(l2.link_to)) + none);
        same_text_field(l1.link_to, l2.link_to, none, none);
    }
}

proof fn record_of_link(h: u64, link: Link, hash: u64, uri: Seq<char>)
    ensures
        has_prefix(uri_key_bytes(h, link), uri_prefix_bytes(hash, uri)) <==> h == hash && link.uri
            == uri,
        !has_prefix(target_key_bytes(h, link), uri_prefix_bytes(hash, uri)),
{
    be_len(h as nat, 8);
    be_len(hash as nat, 8);
    let key = uri_key_bytes(h, link);
    let p = uri_prefix_bytes(hash, uri);
    let x = seq![link.path] + escaped(encode_utf8(link.link_to));
    if h == hash && link.uri == uri {
        assert(key.take(p.len() as int) =~= p);
    }
    if has_prefix(key, p) {
        let y = key.skip(p.len() as int);
        assert(key =~= p + y);
        assert(key.subrange(1, 9) =~= be8(h));
        assert((p + y).subrange(1, 9) =~= be8(hash));
        be8_injective(h, hash);
        assert(key.skip(9) =~= escaped(encode_utf8(link.uri)) + x);
        assert((p + y).skip(9) =~= escaped(encode_utf8(uri)) + y);
        same_text_field(link.uri, uri, x, y);
    }
    let t = target_key_bytes(h, link);
    if has_prefix(t, p) {
        assert(t.take(p.len() as int)[0] == p[0]);
        assert(t[0] == KeyTag::BacklinkByTarget.byte());
        assert(p[0] == KeyTag::BacklinkByUri.byte());
    }
}

proof fn link_is_read(hash: u64, link: Link)
    ensures
        link_in_key(uri_key_bytes(hash, link), uri_prefix_bytes(hash, link.uri).len()) == Some(
            (link.path, link.link_to),
        ),
{
    let key = uri_key_bytes(hash, link);
    let n = uri_prefix_bytes(hash, link.uri).len() as int;
    assert(key[n] == link.path);
    assert(key.skip(n + 1) =~= escaped(encode_utf8(link.link_to)) + Seq::empty());
    escaped_round_trip(encode_utf8(link.link_to), Seq::empty());
    text_round_trip(link.link_to);
}

/// A row of a link from one of some records of a user.
spec fn of_records(hash: u64, uris: Seq<Seq<char>>, key: Seq<u8>) -> bool {
    exists|u: Seq<char>| #[trigger] uris.contains(u) && of_record(hash, u, key)
}

spec fn of_record(hash: u64, uri: Seq<char>, key: Seq<u8>) -> bool {
    ||| has_prefix(key, uri_prefix_bytes(hash, uri))
    ||| exists|path: u8, link_to: Seq<char>|
        key == #[trigger] target_key_bytes(hash, Link { uri, path, link_to })
}

proof fn unlink_rows_keys(hash: u64, uri: Seq<char>, rows: Seq<RowView>, i: int)
    requires
        unlink_rows(hash, uri, rows) is Ok,
        forall|j: int|
            0 <= j < rows.len() ==> has_prefix(
                (#[trigger] rows[j]).key,
                uri_prefix_bytes(hash, uri),
            ),
        0 <= i < unlink_rows(hash, uri, rows)->Ok_0.len(),
    ensures
        unlink_rows(hash, uri, rows)->Ok_0[i] is Remove,
        of_record(hash, uri, writes_key(unlink_rows(hash, uri, rows)->Ok_0[i])),
    decreases rows.len(),
{
    let t = rows.drop_last();
    let before = unlink_rows(hash, uri, t)->Ok_0;
    assert(has_prefix(rows[rows.len() - 1].key, uri_prefix_bytes(hash, uri)));
    if i < before.len() {
        assert forall|j: int| 0 <= j < t.len() implies has_prefix(
            (#[trigger] t[j]).key,
            uri_prefix_bytes(hash, uri),
        ) by {
            assert(t[j] == rows[j]);
        }
        unlink_rows_keys(hash, uri, t, i);
        assert(unlink_rows(hash, uri, rows)->Ok_0[i] == before[i]);
    } else {
        let (path, link_to) = link_in_key(rows.last().key, uri_prefix_bytes(hash, uri).len())->0;
        let k = target_key_bytes(hash, Link { uri, path, link_to });
        assert(of_record(hash, uri, k));
    }
}

proof fn unlink_rows_removes(hash: u64, link: Link, rows: Seq<RowView>, j: int)
    requires
        unlink_rows(hash, link.uri, rows) is Ok,
        0 <= j < rows.len(),
        rows[j].key == uri_key_bytes(hash, link),
    ensures
        unlink_rows(hash, link.uri, rows)->Ok_0.contains(
            WriteView::Remove { key: uri_key_bytes(hash, link) },
        ),
        unlink_rows(hash, link.uri, rows)->Ok_0.contains(
            WriteView::Remove { key: target_key_bytes(hash, link) },
        ),
    decreases rows.len(),
{
    let t = rows.drop_last();
    let before = unlink_rows(hash, link.uri, t)->Ok_0;
    let all = unlink_rows(hash, link.uri, rows)->Ok_0;
    if j < t.len() {
        assert(t[j] == rows[j]);
        unlink_rows_removes(hash, link, t, j);
        let a = before.index_of(WriteView::Remove { key: uri_key_bytes(hash, link) });
        let b = before.index_of(WriteView::Remove { key: target_key_bytes(hash, link) });
        assert(all[a] == before[a] && all[b] == before[b]);
    } else {
        link_is_read(hash, link);
        let n = before.len() as int;
        assert(Link { uri: link.uri, path: link.path, link_to: link.link_to } == link);
        assert(all[n] == WriteView::Remove { key: target_key_bytes(hash, link) });
        assert(all[n + 1] == WriteView::Remove { key: uri_key_bytes(hash, link) });
    }
}

proof fn unlink_writes_keys(indexes: Rows, hash: u64, uris: Seq<Seq<char>>, i: int)
    requires
        indexes.dom().finite(),
        unlink_writes(indexes, hash, uris) is Ok,
        0 <= i < unlink_writes(indexes, hash, uris)->Ok_0.len(),
    ensures
        unlink_writes(indexes, hash, uris)->Ok_0[i] is Remove,
        of_records(hash, uris, writes_key(unlink_writes(indexes, hash, uris)->Ok_0[i])),
    decreases uris.len(),
{
    let t = uris.drop_last();
    let u = uris.last();
    let before = unlink_writes(indexes, hash, t)->Ok_0;
    let all = unlink_writes(indexes, hash, uris)->Ok_0;
    if i < before.len() {
        unlink_writes_keys(indexes, hash, t, i);
        assert(all[i] == before[i]);
        let v = choose|v: Seq<char>| #[trigger]
            t.contains(v) && of_record(hash, v, writes_key(before[i]));
        let n = t.index_of(v);
        assert(uris[n] == v);
        assert(uris.contains(v));
    } else {
        let keys = prefix_keys(uri_prefix_bytes(hash, u));
        let rows = scan(indexes, keys);
        scan_lists(indexes, keys);
        assert forall|j: int| 0 <= j < rows.len() implies has_prefix(
            (#[trigger] rows[j]).key,
            uri_prefix_bytes(hash, u),
        ) by {
            assert(keys.contains(rows[j].key));
        }
        unlink_rows_keys(hash, u, rows, i - before.len());
        assert(all[i] == unlink_uri(indexes, hash, u)->Ok_0[i - before.len()]);
        assert(uris[uris.len() - 1] == u);
        assert(uris.contains(u));
    }
}

proof fn unlink_writes_removes(indexes: Rows, hash: u64, uris: Seq<Seq<char>>, link: Link)
    requires
        indexes.dom().finite(),
        unlink_writes(indexes, hash, uris) is Ok,
        uris.contains(link.uri),
        indexes.contains_key(uri_key_bytes(hash, link)),
    ensures
        unlink_writes(indexes, hash, uris)->Ok_0.contains(
            WriteView::Remove { key: uri_key_bytes(hash, link) },
        ),
        unlink_writes(indexes, hash, uris)->Ok_0.contains(
            WriteView::Remove { key: target_key_bytes(hash, link) },
        ),
    decreases uris.len(),
{
    let t = uris.drop_last();
    let u = uris.last();
    let before = unlink_writes(indexes, hash, t)->Ok_0;
    let more = unlink_uri(indexes, hash, u)->Ok_0;
    let all = unlink_writes(indexes, hash, uris)->Ok_0;
    let own = WriteView::Remove { key: uri_key_bytes(hash, link) };
    let other = WriteView::Remove { key: target_key_bytes(hash, link) };
    if u == link.uri {
        let keys = prefix_keys(uri_prefix_bytes(hash, u));
        let rows = scan(indexes, keys);
        scan_lists(indexes, keys);
        record_of_link(hash, link, hash, u);
        assert(indexes.contains_key(uri_key_bytes(hash, link)) && keys.contains(
            uri_key_bytes(hash, link),
        ));
        let j = choose|j: int|
            0 <= j < rows.len() && (#[trigger] rows[j]).key == uri_key_bytes(hash, link);
        unlink_rows_removes(hash, link, rows, j);
        let a = more.index_of(own);
        let b = more.index_of(other);
        assert(all[before.len() + a] == own);
        assert(all[before.len() + b] == other);
    } else {
        let n = uris.index_of(link.uri);
        assert(t[n] == link.uri);
        unlink_writes_removes(indexes, hash, t, link);
        let a = before.index_of(own);
        let b = before.index_of(other);
        assert(all[a] == own && all[b] == other);
    }
}

/// The rows that adding links writes are those of the links.
proof fn link_writes_keys(hash: u64, links: Seq<Link>, i: int)
    requires
        0 <= i < link_writes(hash, links).len(),
    ensures
        exists|l: Link| #[trigger]
            links.contains(l) && (writes_key(link_writes(hash, links)[i]) == target_key_bytes(
                hash,
                l,
            ) || writes_key(link_writes(hash, links)[i]) == uri_key_bytes(hash, l)),
    decreases links.len(),
{
    let t = links.drop_last();
    let before = link_writes(hash, t);
    if i < before.len() {
        link_writes_keys(hash, t, i);
        assert(link_writes(hash, links)[i] == before[i]);
        let l = choose|l: Link| #[trigger]
            t.contains(l) && (writes_key(before[i]) == target_key_bytes(hash, l) || writes_key(
                before[i],
            ) == uri_key_bytes(hash, l));
        let n = t.index_of(l);
        assert(links[n] == l);
        assert(links.contains(l));
    } else {
        assert(links[links.len() - 1] == links.last());
        assert(links.contains(links.last()));
    }
}

proof fn other_links_untouched(rows: Rows, hash: u64, links: Seq<Link>, h: u64, link: Link)
    requires
        !(h == hash && links.contains(link)),
    ensures
        ({
            let after = write_rows(rows, link_writes(hash, links));
            &&& lookup(after, target_key_bytes(h, link)) == lookup(rows, target_key_bytes(h, link))
            &&& lookup(after, uri_key_bytes(h, link)) == lookup(rows, uri_key_bytes(h, link))
        }),
{
    let ws = link_writes(hash, links);
    let target = target_key_bytes(h, link);
    let own = uri_key_bytes(h, link);
    assert forall|i: int| 0 <= i < ws.len() implies writes_key(#[trigger] ws[i]) != target
        && writes_key(ws[i]) != own by {
        link_writes_keys(hash, links, i);
        let l = choose|l: Link| #[trigger]
            links.contains(l) && (writes_key(ws[i]) == target_key_bytes(hash, l) || writes_key(ws[i])
                == uri_key_bytes(hash, l));
        link_keys_injective(hash, l, h, link);
        link_keys_injective(h, link, hash, l);
    }
    write_rows_frame(rows, ws, target);
    write_rows_frame(rows, ws, own);
}

proof fn unlinked_rows(indexes: Rows, hash: u64, uris: Seq<Seq<char>>, h: u64, link: Link)
    requires
        indexes.dom().finite(),
        unlink_writes(indexes, hash, uris) is Ok,
    ensures
        ({
            let after = write_rows(indexes, unlink_writes(indexes, hash, uris)->Ok_0);
            let target = target_key_bytes(h, link);
            let own = uri_key_bytes(h, link);
            if h == hash && uris.contains(link.uri) {
                &&& lookup(after, own) is None
                &&& indexes.contains_key(own) ==> lookup(after, target) is None
            } else {
                &&& lookup(after, own) == lookup(indexes, own)
                &&& lookup(after, target) == lookup(indexes, target)
            }
        }),
{
    let ws = unlink_writes(indexes, hash, uris)->Ok_0;
    let target = target_key_bytes(h, link);
    let own = uri_key_bytes(h, link);
    assert forall|i: int| 0 <= i < ws.len() implies #[trigger] ws[i] is Remove by {
        unlink_writes_keys(indexes, hash, uris, i);
    }
    if h == hash && uris.contains(link.uri) {
        if indexes.contains_key(own) {
            unlink_writes_removes(indexes, hash, uris, link);
            removed(indexes, ws, ws.index_of(WriteView::Remove { key: own }));
            removed(indexes, ws, ws.index_of(WriteView::Remove { key: target }));
        } else {
            removals_add_nothing(indexes, ws, own);
        }
    } else {
        assert forall|i: int| 0 <= i < ws.len() implies writes_key(#[trigger] ws[i]) != own
            && writes_key(ws[i]) != target by {
            unlink_writes_keys(indexes, hash, uris, i);
            let k = writes_key(ws[i]);
            let u = choose|u: Seq<char>| #[trigger] uris.contains(u) && of_record(hash, u, k);
            record_of_link(h, link, hash, u);
            if !has_prefix(k, uri_prefix_bytes(hash, u)) {
                let (path, link_to) = choose|path: u8, link_to: Seq<char>|
                    k == #[trigger] target_key_bytes(hash, Link { uri: u, path, link_to });
                link_keys_injective(hash, Link { uri: u, path, link_to }, h, link);
            }
        }
        write_rows_frame(indexes, ws, own);
        write_rows_frame(indexes, ws, target);
    }
}

pub(crate) proof fn removals_add_nothing(rows: Rows, ws: Seq<WriteView>, key: Seq<u8>)
    requires
        forall|i: int| 0 <= i < ws.len() ==> #[trigger] ws[i] is Remove,
        !rows.contains_key(key),
    ensures
        lookup(write_rows(rows, ws), key) is None,
    decreases ws.len(),
{
    if ws.len() > 0 {
        let t = ws.drop_last();
        assert(ws[ws.len() - 1] is Remove);
        assert forall|i: int| 0 <= i < t.len() implies #[trigger] t[i] is Remove by {
            assert(t[i] == ws[i]);
        }
        removals_add_nothing(rows, t, key);
    }
}

/// What an accepted commit leaves of a link. A link that the commit adds is found under its
/// target and under its record. Of the others, those from a record whose links the commit
/// removes are gone under both keys, and all that are left, of this user and of every other,
/// are as they were.
pub proof fn committed_links(s: CommitState, input: CommitInput, now: i64, h: u64, link: Link)
    requires
        s.store.indexes.rows.dom().finite(),
        commit_outcome(s, input, now).0 is Ok,
    ensures
        ({
            let hash = current_repo(s.store, input.user_id, input.expected_root_cid)->Ok_0.0;
            let before = s.store.indexes.rows;
            let after = commit_outcome(s, input, now).1.store.indexes.rows;
            let target = target_key_bytes(h, link);
            let own = uri_key_bytes(h, link);
            if h == hash && mutations_of(input).backlink_adds.contains(link) {
                &&& lookup(after, own) == Some(Seq::<u8>::empty())
                &&& lookup(after, target) == Some(Seq::<u8>::empty())
            } else if h == hash && input.backlinks_to_remove.contains(link.uri) {
                &&& lookup(after, own) is None
                &&& before.contains_key(own) ==> lookup(after, target) is None
            } else {
                &&& lookup(after, own) == lookup(before, own)
                &&& lookup(after, target) == lookup(before, target)
            }
        }),
{
    let hash = current_repo(s.store, input.user_id, input.expected_root_cid)->Ok_0.0;
    let ms = mutations_of(input);
    let rows = s.store.indexes.rows;
    let gone = unlink_writes(rows, hash, ms.backlink_remove_uris)->Ok_0;
    let adds = ms.backlink_adds;
    let m = write_rows(rows, gone);
    write_rows_concat(rows, gone, link_writes(hash, adds));
    if h == hash && adds.contains(link) {
        added_link_is_found(m, hash, adds, adds.index_of(link));
    } else {
        unlinked_rows(rows, hash, ms.backlink_remove_uris, h, link);
        other_links_untouched(m, hash, adds, h, link);
    }
}

/// Links that were added for a user are found under their records and their targets; those of a
/// record whose links were removed are gone, and all others are as they were.
pub proof fn links_are_added_and_removed(
    s: MetastoreView,
    user_id: Uuid,
    links: Seq<Link>,
    i: int,
    uri: Seq<char>,
    did: Seq<char>,
    h: u64,
    link: Link,
)
    requires
        s.indexes.rows.dom().finite(),
        0 <= i < links.len(),
    ensures
        hash_of(s.user_hashes, user_id) matches Some(hash) ==> {
            let (r, t) = links_added(s, user_id, links);
            &&& r is Ok
            &&& lookup(t.indexes.rows, target_key_bytes(hash, links[i])) is Some
            &&& lookup(t.indexes.rows, uri_key_bytes(hash, links[i])) is Some
        },
        links_removed(s, uri, None).0 is Err,
        links_removed(s, uri, None).1 == s,
        links_removed(s, uri, Some(did)).0 is Ok ==> {
            let t = links_removed(s, uri, Some(did)).1.indexes.rows;
            let (own, target) = (uri_key_bytes(h, link), target_key_bytes(h, link));
            if h == did_hash(did) && link.uri == uri {
                &&& lookup(t, own) is None
                &&& lookup(s.indexes.rows, own) is Some ==> lookup(t, target) is None
            } else {
                &&& lookup(t, own) == lookup(s.indexes.rows, own)
                &&& lookup(t, target) == lookup(s.indexes.rows, target)
            }
        },
{
    if let Some(hash) = hash_of(s.user_hashes, user_id) {
        added_link_is_found(s.indexes.rows, hash, links, i);
    }
    if links_removed(s, uri, Some(did)).0 is Ok {
        let hash = did_hash(did);
        let uris = seq![uri];
        let none = Seq::<Seq<char>>::empty();
        assert(uris.drop_last() =~= none);
        assert(unlink_writes(s.indexes.rows, hash, none) == Ok::<Seq<WriteView>, MetastoreError>(
            Seq::empty(),
        ));
        let ws = unlink_uri(s.indexes.rows, hash, uri)->Ok_0;
        assert(Seq::<WriteView>::empty() + ws =~= ws);
        assert(unlink_writes(s.indexes.rows, hash, uris) == Ok::<Seq<WriteView>, MetastoreError>(ws));
        unlinked_rows(s.indexes.rows, hash, uris, h, link);
        assert(uris.contains(link.uri) <==> link.uri == uri) by {
            assert(uris[0] == uri);
        }
    }
}

} // verus!
