//! Backlinks: which records point at a target.

use vstd::prelude::*;
use vstd::utf8::encode_utf8;

use crate::codec::{text_of, Field};
use crate::encoding::{be8, escaped, unescaped, KeyBuilder, KeyReader};
use crate::errors::MetastoreError;
use crate::keys::{KeyTag, UserHash};
use crate::store::{prefix_keys, scan, Keyspace, Row, RowView, Rows, Write, WriteView};

verus! {

/// Where in a record a link stands.
#[derive(Debug, Clone, Copy, PartialEq, Eq, Structural)]
pub enum BacklinkPath {
    Subject,
    SubjectUri,
}

impl BacklinkPath {
    /// The number of a path in stored rows.
    pub open spec fn number(self) -> u8 {
        match self {
            BacklinkPath::Subject => 0,
            BacklinkPath::SubjectUri => 1,
        }
    }

    pub open spec fn numbered(n: u8) -> Option<BacklinkPath> {
        if n == 0 {
            Some(BacklinkPath::Subject)
        } else if n == 1 {
            Some(BacklinkPath::SubjectUri)
        } else {
            None
        }
    }

    pub fn to_u8(self) -> (r: u8)
        ensures
            r == self.number(),
    {
        match self {
            BacklinkPath::Subject => 0,
            BacklinkPath::SubjectUri => 1,
        }
    }

    pub fn from_u8(n: u8) -> (r: Option<BacklinkPath>)
        ensures
            r == BacklinkPath::numbered(n),
    {
        match n {
            0 => Some(BacklinkPath::Subject),
            1 => Some(BacklinkPath::SubjectUri),
            _ => None,
        }
    }
}

impl DeepView for BacklinkPath {
    type V = BacklinkPath;

    open spec fn deep_view(&self) -> BacklinkPath {
        *self
    }
}

pub fn path_to_discriminant(path: BacklinkPath) -> (r: u8)
    ensures
        r == path.number(),
{
    path.to_u8()
}

/// A link from a record to a target.
#[derive(Debug, PartialEq, Eq)]
pub struct BacklinkMutation {
    pub uri: String,
    pub path: u8,
    pub link_to: String,
}

#[verifier::ext_equal]
pub struct Link {
    pub uri: Seq<char>,
    pub path: u8,
    pub link_to: Seq<char>,
}

impl DeepView for BacklinkMutation {
    type V = Link;

    open spec fn deep_view(&self) -> Link {
        Link {
            uri: self.uri@,
            path: self.path,
            link_to: self.link_to@,
        }
    }
}

/// The fields of a link in the order in which they are stored.
pub type LinkFields = (String, (u8, String));

impl Link {
    pub open spec fn fields(self) -> <LinkFields as DeepView>::V {
        (self.uri, (self.path, self.link_to))
    }

    pub open spec fn of(f: <LinkFields as DeepView>::V) -> Link {
        Link {
            uri: f.0,
            path: (f.1).0,
            link_to: (f.1).1,
        }
    }
}

impl Field for BacklinkMutation {
    open spec fn encoded(v: Link) -> Seq<u8> {
        LinkFields::encoded(v.fields())
    }

    open spec fn decoded(s: Seq<u8>) -> Option<(Link, Seq<u8>)> {
        match LinkFields::decoded(s) {
            Some((f, rest)) => Some((Link::of(f), rest)),
            None => None,
        }
    }

    open spec fn fits(v: Link) -> bool {
        LinkFields::fits(v.fields())
    }

    proof fn round_trip(v: Link, rest: Seq<u8>) {
        LinkFields::round_trip(v.fields(), rest);
    }

    proof fn read_fits(s: Seq<u8>) {
        LinkFields::read_fits(s);
    }

    fn encode(&self, out: &mut Vec<u8>) {
        let fields: LinkFields = (self.uri.clone(), (self.path, self.link_to.clone()));
        assert(fields.deep_view() == self.deep_view().fields());
        fields.encode(out);
    }

    fn decode<'a>(s: &'a [u8]) -> (r: Option<(BacklinkMutation, &'a [u8])>) {
        match LinkFields::decode(s) {
            None => None,
            Some(((uri, (path, link_to)), rest)) => Some((BacklinkMutation { uri, path, link_to }, rest)),
        }
    }

    fn duplicate(&self) -> (r: BacklinkMutation) {
        BacklinkMutation { uri: self.uri.clone(), path: self.path, link_to: self.link_to.clone() }
    }
}

/// The prefix of the links to a target.
pub open spec fn target_prefix_bytes(target: Seq<char>) -> Seq<u8> {
    seq![KeyTag::BacklinkByTarget.byte()] + escaped(encode_utf8(target))
}

/// The key of a link under its target.
pub open spec fn target_key_bytes(hash: u64, link: Link) -> Seq<u8> {
    target_prefix_bytes(link.link_to) + seq![link.path] + be8(hash) + escaped(encode_utf8(link.uri))
}

/// The prefix of a user's links.
pub open spec fn user_links_prefix_bytes(hash: u64) -> Seq<u8> {
    seq![KeyTag::BacklinkByUri.byte()] + be8(hash)
}

/// The prefix of the links from one of a user's records.
pub open spec fn uri_prefix_bytes(hash: u64, uri: Seq<char>) -> Seq<u8> {
    user_links_prefix_bytes(hash) + escaped(encode_utf8(uri))
}

/// The key of a link under its record.
pub open spec fn uri_key_bytes(hash: u64, link: Link) -> Seq<u8> {
    uri_prefix_bytes(hash, link.uri) + seq![link.path] + escaped(encode_utf8(link.link_to))
}

pub fn backlink_target_prefix(target: &str) -> (r: Vec<u8>)
    ensures
        r@ == target_prefix_bytes(target@),
{
    let r: Vec<u8> = KeyBuilder::new().tag(KeyTag::BacklinkByTarget.raw()).string(target).build();
    assert(r@ =~= target_prefix_bytes(target@));
    r
}

pub fn backlink_by_user_prefix(user_hash: UserHash) -> (r: Vec<u8>)
    ensures
        r@ == user_links_prefix_bytes(user_hash@),
{
    let r: Vec<u8> = KeyBuilder::new().tag(KeyTag::BacklinkByUri.raw()).u64(user_hash.raw()).build();
    assert(r@ =~= user_links_prefix_bytes(user_hash@));
    r
}

pub(crate) fn target_key(user_hash: UserHash, uri: &str, path: u8, link_to: &str) -> (r: Vec<u8>)
    ensures
        r@ == target_key_bytes(user_hash@, Link { uri: uri@, path, link_to: link_to@ }),
{
    let r: Vec<u8> = KeyBuilder::new().tag(KeyTag::BacklinkByTarget.raw()).string(link_to).tag(
        path,
    ).u64(user_hash.raw()).string(uri).build();
    assert(r@ =~= target_key_bytes(user_hash@, Link { uri: uri@, path, link_to: link_to@ }));
    r
}

fn uri_prefix(user_hash: UserHash, uri: &str) -> (r: Vec<u8>)
    ensures
        r@ == uri_prefix_bytes(user_hash@, uri@),
{
    let r: Vec<u8> = KeyBuilder::new().tag(KeyTag::BacklinkByUri.raw()).u64(user_hash.raw()).string(
        uri,
    ).build();
    assert(r@ =~= uri_prefix_bytes(user_hash@, uri@));
    r
}

fn uri_key(user_hash: UserHash, uri: &str, path: u8, link_to: &str) -> (r: Vec<u8>)
    ensures
        r@ == uri_key_bytes(user_hash@, Link { uri: uri@, path, link_to: link_to@ }),
{
    let r: Vec<u8> = KeyBuilder::new().tag(KeyTag::BacklinkByUri.raw()).u64(user_hash.raw()).string(
        uri,
    ).tag(path).string(link_to).build();
    assert(r@ =~= uri_key_bytes(user_hash@, Link { uri: uri@, path, link_to: link_to@ }));
    r
}

/// The writes that add links.
pub open spec fn link_writes(hash: u64, links: Seq<Link>) -> Seq<WriteView>
    decreases links.len(),
{
    if links.len() == 0 {
        Seq::empty()
    } else {
        link_writes(hash, links.drop_last()) + seq![
            WriteView::Put { key: target_key_bytes(hash, links.last()), value: Seq::empty() },
            WriteView::Put { key: uri_key_bytes(hash, links.last()), value: Seq::empty() },
        ]
    }
}

/// The path and the target that a key under a record's prefix names.
pub open spec fn link_in_key(key: Seq<u8>, prefix_len: nat) -> Option<(u8, Seq<char>)> {
    if key.len() <= prefix_len {
        None
    } else {
        match unescaped(key.skip(prefix_len as int + 1)) {
            Some((t, n)) => match text_of(t) {
                Some(target) => Some((key[prefix_len as int], target)),
                None => None,
            },
            None => None,
        }
    }
}

/// The writes that remove the links that rows name, or the first row that names none.
pub open spec fn unlink_rows(hash: u64, uri: Seq<char>, rows: Seq<RowView>) -> Result<
    Seq<WriteView>,
    MetastoreError,
>
    decreases rows.len(),
{
    if rows.len() == 0 {
        Ok(Seq::empty())
    } else {
        match unlink_rows(hash, uri, rows.drop_last()) {
            Err(e) => Err(e),
            Ok(ws) => match link_in_key(rows.last().key, uri_prefix_bytes(hash, uri).len()) {
                None => Err(MetastoreError::CorruptData("corrupt backlink key")),
                Some((path, link_to)) => Ok(
                    ws + seq![
                        WriteView::Remove {
                            key: target_key_bytes(hash, Link { uri, path, link_to }),
                        },
                        WriteView::Remove { key: rows.last().key },
                    ],
                ),
            },
        }
    }
}

/// The writes that remove all links from one of a user's records.
pub open spec fn unlink_uri(indexes: Rows, hash: u64, uri: Seq<char>) -> Result<
    Seq<WriteView>,
    MetastoreError,
> {
    unlink_rows(hash, uri, scan(indexes, prefix_keys(uri_prefix_bytes(hash, uri))))
}

/// The writes that remove all links from some of a user's records.
pub open spec fn unlink_writes(indexes: Rows, hash: u64, uris: Seq<Seq<char>>) -> Result<
    Seq<WriteView>,
    MetastoreError,
>
    decreases uris.len(),
{
    if uris.len() == 0 {
        Ok(Seq::empty())
    } else {
        match unlink_writes(indexes, hash, uris.drop_last()) {
            Err(e) => Err(e),
            Ok(ws) => match unlink_uri(indexes, hash, uris.last()) {
                Err(e) => Err(e),
                Ok(more) => Ok(ws + more),
            },
        }
    }
}

/// Stages links.
pub fn add_backlinks(batch: &mut Vec<Write>, user_hash: UserHash, links: &Vec<BacklinkMutation>)
    ensures
        final(batch).deep_view() == old(batch).deep_view() + link_writes(
            user_hash@,
            links.deep_view(),
        ),
{
    let ghost start = batch.deep_view();
    let ghost all = links.deep_view();
    let mut i: usize = 0;
    assert(all.take(0) =~= Seq::empty());
    assert(batch.deep_view() =~= start + link_writes(user_hash@, all.take(0)));
    while i < links.len()
        invariant
            i <= links@.len(),
            all == links.deep_view(),
            batch.deep_view() == start + link_writes(user_hash@, all.take(i as int)),
        decreases links.len() - i,
    {
        assert(all.take(i + 1).drop_last() =~= all.take(i as int));
        let link: &BacklinkMutation = &links[i];
        let ghost before = batch.deep_view();
        batch.push(
            Write::Put {
                key: target_key(user_hash, link.uri.as_str(), link.path, link.link_to.as_str()),
                value: Vec::new(),
            },
        );
        batch.push(
            Write::Put {
                key: uri_key(user_hash, link.uri.as_str(), link.path, link.link_to.as_str()),
                value: Vec::new(),
            },
        );
        proof {
            let l = all[i as int];
            let ws = seq![
                WriteView::Put { key: target_key_bytes(user_hash@, l), value: Seq::empty() },
                WriteView::Put { key: uri_key_bytes(user_hash@, l), value: Seq::empty() },
            ];
            assert(batch.deep_view() =~= before + ws);
            assert(before + ws =~= start + (link_writes(user_hash@, all.take(i as int)) + ws));
        }
        i = i + 1;
    }
    assert(all.take(i as int) =~= all);
}

proof fn unlink_rows_error(hash: u64, uri: Seq<char>, rows: Seq<RowView>, n: int)
    requires
        0 <= n <= rows.len(),
        unlink_rows(hash, uri, rows.take(n)) is Err,
    ensures
        unlink_rows(hash, uri, rows) == unlink_rows(hash, uri, rows.take(n)),
    decreases rows.len() - n,
{
    if n < rows.len() {
        assert(rows.take(n + 1).drop_last() =~= rows.take(n));
        unlink_rows_error(hash, uri, rows, n + 1);
    } else {
        assert(rows.take(n) =~= rows);
    }
}

fn read_link(key: &[u8], prefix_len: usize) -> (r: Option<(u8, String)>)
    ensures
        match link_in_key(key@, prefix_len as nat) {
            Some((path, target)) => r is Some && (r->0).0 == path && (r->0).1@ == target,
            None => r is None,
        },
{
    if key.len() <= prefix_len {
        return None;
    }
    let path: u8 = key[prefix_len];
    let mut reader: KeyReader<'_> = KeyReader::new(
        vstd::slice::slice_subrange(key, prefix_len + 1, key.len()),
    );
    assert(key@.subrange(prefix_len + 1, key@.len() as int) =~= key@.skip(prefix_len + 1));
    match reader.string() {
        Some(t) => Some((path, t)),
        None => None,
    }
}

/// Stages the removal of all links from one of a user's records.
pub fn remove_backlinks_by_uri(
    batch: &mut Vec<Write>,
    indexes: &Keyspace,
    user_hash: UserHash,
    uri: &str,
) -> (r: Result<(), MetastoreError>)
    ensures
        match unlink_uri(indexes@.rows, user_hash@, uri@) {
            Ok(ws) => r is Ok && final(batch).deep_view() == old(batch).deep_view() + ws,
            Err(e) => r is Err && r->Err_0 == e,
        },
{
    let prefix: Vec<u8> = uri_prefix(user_hash, uri);
    let rows: Vec<Row> = indexes.prefix(prefix.as_slice());
    let ghost all = rows.deep_view();
    let ghost start = batch.deep_view();
    let ghost hash = user_hash@;
    let mut i: usize = 0;
    assert(all.take(0) =~= Seq::empty());
    assert(start + Seq::<WriteView>::empty() =~= start);
    while i < rows.len()
        invariant
            i <= rows@.len(),
            all == rows.deep_view(),
            hash == user_hash@,
            prefix@ == uri_prefix_bytes(hash, uri@),
            unlink_uri(indexes@.rows, hash, uri@) == unlink_rows(hash, uri@, all),
            unlink_rows(hash, uri@, all.take(i as int)) is Ok,
            batch.deep_view() == start + unlink_rows(hash, uri@, all.take(i as int))->Ok_0,
        decreases rows.len() - i,
    {
        assert(all.take(i + 1).drop_last() =~= all.take(i as int));
        let ghost done = unlink_rows(hash, uri@, all.take(i as int))->Ok_0;
        let row: &Row = &rows[i];
        match read_link(row.key.as_slice(), prefix.len()) {
            None => {
                proof {
                    unlink_rows_error(hash, uri@, all, i + 1);
                }
                return Err(MetastoreError::CorruptData("corrupt backlink key"));
            },
            Some((path, link_to)) => {
                let ghost before = batch.deep_view();
                batch.push(
                    Write::Remove { key: target_key(user_hash, uri, path, link_to.as_str()) },
                );
                batch.push(
                    Write::Remove { key: crate::bytes::copy_bytes(row.key.as_slice()) },
                );
                proof {
                    let ws = seq![
                        WriteView::Remove {
                            key: target_key_bytes(
                                hash,
                                Link { uri: uri@, path, link_to: link_to@ },
                            ),
                        },
                        WriteView::Remove { key: row.key@ },
                    ];
                    assert(batch.deep_view() =~= before + ws);
                    assert(before + ws =~= start + (done + ws));
                }
            },
        }
        i = i + 1;
    }
    assert(all.take(i as int) =~= all);
    Ok(())
}

} // verus!
