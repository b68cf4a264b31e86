//! What can go wrong, and how it is reported.

use vstd::prelude::*;
use vstd::string::*;

use crate::text::{decimal, hex, joined, push_decimal, push_hex};
use crate::types::Uuid;

verus! {

/// An error of the store.
#[derive(Debug, PartialEq, Eq)]
pub enum MetastoreError {
    /// The key-value database failed.
    Fjall(String),
    /// The tree under the database failed.
    Lsm(String),
    VersionMismatch { expected: u64, found: u64 },
    CorruptData(&'static str),
    InvalidInput(&'static str),
    UserHashCollision { hash: u64, existing_uuid: Uuid, new_uuid: Uuid },
    UniqueViolation(&'static str),
}

/// An error as the store's clients see it.
#[derive(Debug, PartialEq, Eq)]
pub enum DbError {
    Query(String),
    CorruptData(&'static str),
    Constraint(String),
    Connection(String),
}

pub enum DbErrorView {
    Query(Seq<char>),
    CorruptData(Seq<char>),
    Constraint(Seq<char>),
    Connection(Seq<char>),
}

impl View for DbError {
    type V = DbErrorView;

    open spec fn view(&self) -> DbErrorView {
        match self {
            DbError::Query(m) => DbErrorView::Query(m@),
            DbError::CorruptData(m) => DbErrorView::CorruptData(m@),
            DbError::Constraint(m) => DbErrorView::Constraint(m@),
            DbError::Connection(m) => DbErrorView::Connection(m@),
        }
    }
}

/// An outcome by what it holds.
pub open spec fn viewed<T: DeepView, E>(r: Result<T, E>) -> Result<T::V, E> {
    match r {
        Ok(v) => Ok(v.deep_view()),
        Err(e) => Err(e),
    }
}

/// An outcome as a client sees it.
pub open spec fn db_viewed<T: DeepView>(r: Result<T, DbError>) -> Result<T::V, DbErrorView> {
    match r {
        Ok(v) => Ok(v.deep_view()),
        Err(e) => Err(e@),
    }
}

/// An outcome of the store as a client sees it.
pub open spec fn db_result<T>(r: Result<T, MetastoreError>) -> Result<T, DbErrorView> {
    match r {
        Ok(v) => Ok(v),
        Err(e) => Err(db_error(e)),
    }
}

/// Reports an outcome of the store to a client.
pub fn to_db<T: DeepView>(r: Result<T, MetastoreError>) -> (out: Result<T, DbError>)
    ensures
        db_viewed(out) == db_result(viewed(r)),
{
    match r {
        Ok(v) => Ok(v),
        Err(e) => Err(metastore_to_db(e)),
    }
}

pub open spec fn version_mismatch_text(expected: u64, found: u64) -> Seq<char> {
    "format version mismatch: expected "@ + decimal(expected as nat) + ", found "@ + decimal(
        found as nat,
    )
}

pub open spec fn collision_text(lead: Seq<char>, hash: u64, existing: Uuid, new: Uuid) -> Seq<char> {
    lead + hex(hash as nat, 16) + " maps to both "@ + existing.text() + " and "@ + new.text()
}

impl MetastoreError {
    /// What the error says.
    pub open spec fn text(self) -> Seq<char> {
        match self {
            MetastoreError::Fjall(m) => "fjall: "@ + m@,
            MetastoreError::Lsm(m) => "lsm: "@ + m@,
            MetastoreError::VersionMismatch { expected, found } => version_mismatch_text(
                expected,
                found,
            ),
            MetastoreError::CorruptData(m) => "corrupt data: "@ + m@,
            MetastoreError::InvalidInput(m) => "invalid input: "@ + m@,
            MetastoreError::UserHashCollision { hash, existing_uuid, new_uuid } => collision_text(
                "user hash collision: hash "@,
                hash,
                existing_uuid,
                new_uuid,
            ),
            MetastoreError::UniqueViolation(m) => "unique constraint violated: "@ + m@,
        }
    }

    pub fn message(&self) -> (r: String)
        ensures
            r@ == self.text(),
    {
        match self {
            MetastoreError::Fjall(m) => joined("fjall: ", m.as_str()),
            MetastoreError::Lsm(m) => joined("lsm: ", m.as_str()),
            MetastoreError::VersionMismatch { expected, found } => version_mismatch(
                *expected,
                *found,
            ),
            MetastoreError::CorruptData(m) => joined("corrupt data: ", m),
            MetastoreError::InvalidInput(m) => joined("invalid input: ", m),
            MetastoreError::UserHashCollision { hash, existing_uuid, new_uuid } => collision(
                "user hash collision: hash ",
                *hash,
                *existing_uuid,
                *new_uuid,
            ),
            MetastoreError::UniqueViolation(m) => joined("unique constraint violated: ", m),
        }
    }
}

fn version_mismatch(expected: u64, found: u64) -> (r: String)
    ensures
        r@ == version_mismatch_text(expected, found),
{
    let mut out: String = "format version mismatch: expected ".to_owned();
    push_decimal(&mut out, expected);
    out.append(", found ");
    push_decimal(&mut out, found);
    out
}

fn collision(lead: &str, hash: u64, existing: Uuid, new: Uuid) -> (r: String)
    ensures
        r@ == collision_text(lead@, hash, existing, new),
{
    let mut out: String = lead.to_owned();
    push_hex(&mut out, hash as u128, 16);
    out.append(" maps to both ");
    out.append(existing.to_text().as_str());
    out.append(" and ");
    out.append(new.to_text().as_str());
    out
}

/// What a client is told of an error of the store.
pub open spec fn db_error(e: MetastoreError) -> DbErrorView {
    match e {
        MetastoreError::Fjall(m) => DbErrorView::Query(m@),
        MetastoreError::Lsm(m) => DbErrorView::Query(m@),
        MetastoreError::VersionMismatch { expected, found } => DbErrorView::Query(
            version_mismatch_text(expected, found),
        ),
        MetastoreError::CorruptData(m) => DbErrorView::CorruptData(m@),
        MetastoreError::InvalidInput(m) => DbErrorView::Query(m@),
        MetastoreError::UserHashCollision { hash, existing_uuid, new_uuid } =>
            DbErrorView::Constraint(
            collision_text("user hash collision: "@, hash, existing_uuid, new_uuid),
        ),
        MetastoreError::UniqueViolation(m) => DbErrorView::Constraint(
            "unique constraint violated: "@ + m@,
        ),
    }
}

/// Reports an error of the store to a client.
pub fn metastore_to_db(e: MetastoreError) -> (r: DbError)
    ensures
        r@ == db_error(e),
{
    match e {
        MetastoreError::Fjall(m) => DbError::Query(m),
        MetastoreError::Lsm(m) => DbError::Query(m),
        MetastoreError::VersionMismatch { expected, found } => DbError::Query(
            version_mismatch(expected, found),
        ),
        MetastoreError::CorruptData(m) => DbError::CorruptData(m),
        MetastoreError::InvalidInput(m) => DbError::Query(m.to_owned()),
        MetastoreError::UserHashCollision { hash, existing_uuid, new_uuid } => DbError::Constraint(
            collision("user hash collision: ", hash, existing_uuid, new_uuid),
        ),
        MetastoreError::UniqueViolation(m) => DbError::Constraint(
            joined("unique constraint violated: ", m),
        ),
    }
}

} // verus!
