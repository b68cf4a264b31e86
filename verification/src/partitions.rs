//! The partitions of the database.

use vstd::prelude::*;

verus! {

/// A partition: a keyspace of its own for one kind of data.
#[derive(Debug, Clone, Copy, PartialEq, Eq, Structural)]
pub enum Partition {
    RepoData,
    Indexes,
    Users,
    Infra,
    Auth,
    Signal,
}

/// How many partitions there are.
pub const PARTITION_COUNT: usize = 6;

impl Partition {
    pub open spec fn position(self) -> usize {
        match self {
            Partition::RepoData => 0,
            Partition::Indexes => 1,
            Partition::Users => 2,
            Partition::Infra => 3,
            Partition::Auth => 4,
            Partition::Signal => 5,
        }
    }

    pub open spec fn label(self) -> Seq<char> {
        match self {
            Partition::RepoData => "repo_data"@,
            Partition::Indexes => "indexes"@,
            Partition::Users => "users"@,
            Partition::Infra => "infra"@,
            Partition::Auth => "auth"@,
            Partition::Signal => "signal"@,
        }
    }

    /// All partitions, each at its index.
    pub fn all() -> (r: Vec<Partition>)
        ensures
            r@.len() == PARTITION_COUNT,
            forall|i: int| 0 <= i < r@.len() ==> (#[trigger] r@[i]).position() == i,
    {
        vec![
            Partition::RepoData,
            Partition::Indexes,
            Partition::Users,
            Partition::Infra,
            Partition::Auth,
            Partition::Signal,
        ]
    }

    pub fn index(self) -> (r: usize)
        ensures
            r == self.position(),
            r < PARTITION_COUNT,
    {
        match self {
            Partition::RepoData => 0,
            Partition::Indexes => 1,
            Partition::Users => 2,
            Partition::Infra => 3,
            Partition::Auth => 4,
            Partition::Signal => 5,
        }
    }

    pub fn name(self) -> (r: &'static str)
        ensures
            r@ == self.label(),
    {
        match self {
            Partition::RepoData => "repo_data",
            Partition::Indexes => "indexes",
            Partition::Users => "users",
            Partition::Infra => "infra",
            Partition::Auth => "auth",
            Partition::Signal => "signal",
        }
    }
}

} // verus!
