//! The mapping between users and the hashes that stand for them in keys.

use vstd::prelude::*;

use crate::encoding::{be8, be_value, read_be8, KeyBuilder};
use crate::errors::MetastoreError;
use crate::keys::{KeyTag, UserHash};
use crate::store::{Row, RowView, Write, WriteView};
use crate::types::{push_uuid, read_uuid, uuid_bytes, Uuid};

verus! {

/// Each user's hash.
pub type UserHashes = Map<Uuid, u64>;

/// The user that a hash stands for.
pub open spec fn uuid_of(m: UserHashes, hash: u64) -> Option<Uuid> {
    if exists|u: Uuid| #[trigger] m.contains_key(u) && m[u] == hash {
        Some(choose|u: Uuid| #[trigger] m.contains_key(u) && m[u] == hash)
    } else {
        None
    }
}

pub open spec fn hash_of(m: UserHashes, id: Uuid) -> Option<u64> {
    if m.contains_key(id) {
        Some(m[id])
    } else {
        None
    }
}

/// No two users share a hash.
pub open spec fn injective(m: UserHashes) -> bool {
    forall|u: Uuid, v: Uuid| #[trigger]
        m.contains_key(u) && #[trigger] m.contains_key(v) && m[u] == m[v] ==> u == v
}

/// Where hashes are not shared, looking a hash up is the inverse of looking a user up.
pub proof fn lookups_are_inverse(m: UserHashes, id: Uuid, hash: u64)
    requires
        injective(m),
    ensures
        uuid_of(m, hash) == Some(id) <==> hash_of(m, id) == Some(hash),
{
    if hash_of(m, id) == Some(hash) {
        assert(m.contains_key(id) && m[id] == hash);
    }
}

/// The key of the row for a hash.
pub open spec fn user_hash_key_bytes(hash: u64) -> Seq<u8> {
    seq![KeyTag::UserHash.byte()] + be8(hash)
}

pub open spec fn user_hash_write(id: Uuid, hash: u64) -> WriteView {
    WriteView::Put { key: user_hash_key_bytes(hash), value: uuid_bytes(id) }
}

/// The user and the hash that a row holds.
pub open spec fn hash_row(row: RowView) -> Option<(Uuid, u64)> {
    if row.key.len() == 9 && row.value.len() == 16 {
        Some((Uuid { bits: be_value(row.value) as u128 }, be_value(row.key.skip(1)) as u64))
    } else {
        None
    }
}

/// The mapping that rows hold.
pub open spec fn hashes_in(rows: Seq<RowView>) -> Result<UserHashes, MetastoreError>
    decreases rows.len(),
{
    if rows.len() == 0 {
        Ok(Map::empty())
    } else {
        match hashes_in(rows.drop_last()) {
            Err(e) => Err(e),
            Ok(m) => match hash_row(rows.last()) {
                None => Err(MetastoreError::CorruptData("invalid user hash row")),
                Some((id, hash)) => if m.contains_key(id) || uuid_of(m, hash) is Some {
                    Err(MetastoreError::CorruptData("repeated user hash row"))
                } else {
                    Ok(m.insert(id, hash))
                },
            },
        }
    }
}

/// Whether a user can be given a hash.
pub open spec fn hash_refusal(m: UserHashes, id: Uuid, hash: u64) -> Option<MetastoreError> {
    match uuid_of(m, hash) {
        Some(existing) => if existing != id {
            Some(
                MetastoreError::UserHashCollision { hash, existing_uuid: existing, new_uuid: id },
            )
        } else {
            None
        },
        None => if m.contains_key(id) {
            Some(MetastoreError::InvalidInput("user already has a hash"))
        } else {
            None
        },
    }
}

pub struct UserHashMap {
    entries: Vec<(Uuid, u64)>,
}

spec fn by_user(s: Seq<(Uuid, u64)>) -> UserHashes
    decreases s.len(),
{
    if s.len() == 0 {
        Map::empty()
    } else {
        by_user(s.drop_last()).insert(s.last().0, s.last().1)
    }
}

spec fn distinct(s: Seq<(Uuid, u64)>) -> bool {
    forall|i: int, j: int|
        0 <= i < j < s.len() ==> (#[trigger] s[i]).0 != (#[trigger] s[j]).0 && s[i].1 != s[j].1
}

proof fn by_user_entries(s: Seq<(Uuid, u64)>)
    requires
        distinct(s),
    ensures
        forall|i: int|
            0 <= i < s.len() ==> by_user(s).contains_key((#[trigger] s[i]).0) && by_user(s)[s[i].0]
                == s[i].1,
        forall|u: Uuid| #[trigger]
            by_user(s).contains_key(u) ==> exists|i: int| 0 <= i < s.len() && (#[trigger] s[i]).0 == u,
        by_user(s).dom().finite(),
        by_user(s).len() == s.len(),
    decreases s.len(),
{
    if s.len() > 0 {
        let t = s.drop_last();
        by_user_entries(t);
        assert forall|i: int| 0 <= i < s.len() implies by_user(s).contains_key(
            (#[trigger] s[i]).0,
        ) && by_user(s)[s[i].0] == s[i].1 by {
            if i < t.len() {
                assert(t[i] == s[i]);
                assert(s[i].0 != s[s.len() - 1].0);
            }
        }
        assert forall|u: Uuid| #[trigger] by_user(s).contains_key(u) implies exists|i: int|
            0 <= i < s.len() && (#[trigger] s[i]).0 == u by {
            if u == s.last().0 {
                assert(s[s.len() - 1].0 == u);
            } else {
                let i = choose|i: int| 0 <= i < t.len() && (#[trigger] t[i]).0 == u;
                assert(s[i].0 == u);
            }
        }
        if by_user(t).contains_key(s.last().0) {
            let i = choose|i: int| 0 <= i < t.len() && (#[trigger] t[i]).0 == s.last().0;
            assert(s[i].0 != s[s.len() - 1].0);
        }
    }
}

impl View for UserHashMap {
    type V = UserHashes;

    closed spec fn view(&self) -> UserHashes {
        by_user(self.entries@)
    }
}

impl UserHashMap {
    #[verifier::type_invariant]
    spec fn well_formed(self) -> bool {
        distinct(self.entries@)
    }

    pub fn new() -> (r: UserHashMap)
        ensures
            r@ == Map::<Uuid, u64>::empty(),
    {
        UserHashMap { entries: Vec::new() }
    }

    /// The mapping that rows hold.
    pub fn load(rows: &Vec<Row>) -> (r: Result<UserHashMap, MetastoreError>)
        ensures
            match hashes_in(rows.deep_view()) {
                Ok(m) => r is Ok && r->Ok_0@ == m,
                Err(e) => r is Err && r->Err_0 == e,
            },
    {
        let mut map: UserHashMap = UserHashMap::new();
        let ghost all = rows.deep_view();
        let mut i: usize = 0;
        assert(all.take(0) =~= Seq::empty());
        while i < rows.len()
            invariant
                i <= rows.len(),
                all == rows.deep_view(),
                hashes_in(all.take(i as int)) == Ok::<UserHashes, MetastoreError>(map@),
            decreases rows.len() - i,
        {
            let row: &Row = &rows[i];
            let ghost k = i as int;
            assert(all.take(k + 1).drop_last() =~= all.take(k));
            assert(all.take(k + 1).last() == row.deep_view());
            let mut failure: Option<MetastoreError> = None;
            if row.key.len() != 9 || row.value.len() != 16 {
                failure = Some(MetastoreError::CorruptData("invalid user hash row"));
            } else {
                let id: Uuid = read_uuid(row.value.as_slice());
                let hash: u64 = read_be8(
                    vstd::slice::slice_subrange(row.key.as_slice(), 1, row.key.len()),
                );
                assert(hash_row(row.deep_view()) == Some((id, hash)));
                let user: UserHash = UserHash::from_raw(hash);
                if map.get(&id).is_some() || map.get_uuid(&user).is_some() {
                    failure = Some(MetastoreError::CorruptData("repeated user hash row"));
                } else {
                    map.add_entry(id, hash);
                }
            }
            if let Some(e) = failure {
                proof {
                    hashes_in_error(all, k + 1);
                }
                return Err(e);
            }
            i = i + 1;
        }
        assert(all.take(i as int) =~= all);
        Ok(map)
    }

    fn add_entry(&mut self, id: Uuid, hash: u64)
        requires
            !old(self)@.contains_key(id),
            uuid_of(old(self)@, hash) is None,
        ensures
            final(self)@ == old(self)@.insert(id, hash),
    {
        let ghost s = self.entries@;
        proof {
            use_type_invariant(&*self);
            by_user_entries(s);
        }
        let mut entries: Vec<(Uuid, u64)> = Vec::new();
        std::mem::swap(&mut entries, &mut self.entries);
        entries.push((id, hash));
        proof {
            let t = entries@;
            assert(t.drop_last() =~= s);
            assert forall|i: int, j: int| 0 <= i < j < t.len() implies (#[trigger] t[i]).0
                != (#[trigger] t[j]).0 && t[i].1 != t[j].1 by {
                assert(t[i] == s[i]);
                if j == s.len() {
                    assert(by_user(s).contains_key(s[i].0) && by_user(s)[s[i].0] == s[i].1);
                } else {
                    assert(t[j] == s[j]);
                }
            }
        }
        self.entries = entries;
    }

    /// How many users there are.
    pub fn len(&self) -> (r: usize)
        ensures
            r == self@.len(),
    {
        proof {
            use_type_invariant(self);
            by_user_entries(self.entries@);
        }
        self.entries.len()
    }

    /// A user's hash.
    pub fn get(&self, id: &Uuid) -> (r: Option<UserHash>)
        ensures
            match hash_of(self@, *id) {
                Some(h) => r is Some && r->0@ == h,
                None => r is None,
            },
    {
        proof {
            use_type_invariant(self);
            by_user_entries(self.entries@);
        }
        let mut i: usize = 0;
        while i < self.entries.len()
            invariant
                i <= self.entries@.len(),
                forall|k: int| 0 <= k < i ==> (#[trigger] self.entries@[k]).0 != *id,
                forall|k: int|
                    0 <= k < self.entries@.len() ==> self@.contains_key(
                        (#[trigger] self.entries@[k]).0,
                    ) && self@[self.entries@[k].0] == self.entries@[k].1,
            decreases self.entries.len() - i,
        {
            let entry: (Uuid, u64) = self.entries[i];
            if entry.0 == *id {
                return Some(UserHash::from_raw(entry.1));
            }
            i = i + 1;
        }
        None
    }

    /// The user that a hash stands for.
    pub fn get_uuid(&self, hash: &UserHash) -> (r: Option<Uuid>)
        ensures
            r == uuid_of(self@, hash@),
            r is Some ==> hash_of(self@, r->0) == Some(hash@),
            injective(self@),
    {
        proof {
            self.users_differ();
            use_type_invariant(self);
            by_user_entries(self.entries@);
        }
        let mut i: usize = 0;
        while i < self.entries.len()
            invariant
                i <= self.entries@.len(),
                injective(self@),
                forall|k: int| 0 <= k < i ==> (#[trigger] self.entries@[k]).1 != hash@,
                forall|k: int|
                    0 <= k < self.entries@.len() ==> self@.contains_key(
                        (#[trigger] self.entries@[k]).0,
                    ) && self@[self.entries@[k].0] == self.entries@[k].1,
            decreases self.entries.len() - i,
        {
            let entry: (Uuid, u64) = self.entries[i];
            if entry.1 == hash.raw() {
                proof {
                    assert(hash_of(self@, entry.0) == Some(hash@));
                    lookups_are_inverse(self@, entry.0, hash@);
                }
                return Some(entry.0);
            }
            i = i + 1;
        }
        proof {
            assert forall|u: Uuid| #[trigger] self@.contains_key(u) && self@[u] == hash@ implies false by {
                let k = choose|k: int|
                    0 <= k < self.entries@.len() && (#[trigger] self.entries@[k]).0 == u;
                assert(self@[self.entries@[k].0] == self.entries@[k].1);
            }
        }
        None
    }

    proof fn users_differ(&self)
        ensures
            distinct(self.entries@) ==> injective(self@),
    {
        if distinct(self.entries@) {
            let s = self.entries@;
            by_user_entries(s);
            assert forall|u: Uuid, v: Uuid| #[trigger]
                self@.contains_key(u) && #[trigger] self@.contains_key(v) && self@[u] == self@[v] implies u
                == v by {
                let i = choose|i: int| 0 <= i < s.len() && (#[trigger] s[i]).0 == u;
                let j = choose|j: int| 0 <= j < s.len() && (#[trigger] s[j]).0 == v;
                if i < j {
                    assert(s[i].1 != s[j].1);
                } else if j < i {
                    assert(s[j].1 != s[i].1);
                }
            }
        }
    }

    /// Gives a user a hash, and returns the write that records it.
    pub fn stage_insert(&mut self, id: Uuid, hash: UserHash) -> (r: Result<Write, MetastoreError>)
        ensures
            match hash_refusal(old(self)@, id, hash@) {
                Some(e) => r is Err && r->Err_0 == e && final(self)@ == old(self)@,
                None => r is Ok && r->Ok_0.deep_view() == user_hash_write(id, hash@)
                    && final(self)@ == old(self)@.insert(id, hash@),
            },
    {
        match self.get_uuid(&hash) {
            Some(existing) => {
                if existing != id {
                    return Err(
                        MetastoreError::UserHashCollision {
                            hash: hash.raw(),
                            existing_uuid: existing,
                            new_uuid: id,
                        },
                    );
                }
                assert(self@.insert(id, hash@) =~= self@);
            },
            None => {
                if self.get(&id).is_some() {
                    return Err(MetastoreError::InvalidInput("user already has a hash"));
                }
                self.add_entry(id, hash.raw());
            },
        }
        let key: Vec<u8> = KeyBuilder::new().tag(KeyTag::UserHash.raw()).u64(hash.raw()).build();
        assert(key@ =~= user_hash_key_bytes(hash@));
        let mut value: Vec<u8> = Vec::new();
        push_uuid(&mut value, id);
        assert(value@ =~= uuid_bytes(id));
        Ok(Write::Put { key, value })
    }
}

proof fn hashes_in_error(rows: Seq<RowView>, n: int)
    requires
        0 <= n <= rows.len(),
        hashes_in(rows.take(n)) is Err,
    ensures
        hashes_in(rows) == hashes_in(rows.take(n)),
    decreases rows.len() - n,
{
    if n < rows.len() {
        assert(rows.take(n + 1).drop_last() =~= rows.take(n));
        hashes_in_error(rows, n + 1);
    } else {
        assert(rows.take(n) =~= rows);
    }
}

} // verus!
