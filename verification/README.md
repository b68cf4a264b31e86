# tranquil-metastore

The metadata store of a personal data server, with its behaviour stated in contracts and
proved with Verus: repositories and their commits, the event log's indexes, delegations,
invite codes, messages, settings and the other rows that accounts need.

- `src/` is the library. It keeps the rows of six partitions in memory, ordered by key, with a
  journal of what changed. Keys and values are bytes, in formats that are stated and proved to
  be read back (`encoding`, `codec`, `keys`, and the `*_schema`, `*_meta` and `events` modules).
  - `metastore`, `store`, `partitions`, `user_hash`: the partitions and who is who in them.
  - `repo_ops`, `commit_ops`, `recovery`, `replay`, `repo_steps`, `purge`: repositories, commits
    and what is replayed after a crash.
  - `event_ops`, `eventlog`, `event_keys`, `retention`: events.
  - `delegation_ops`, `delegations`: who may act for whom.
  - `infra_ops` with `comms_ops`, `invite_ops`, `account_ops`, `pref_ops`, `account_steps`:
    account infrastructure.
  - `requests`, `routing`, `pool`, `dispatch`, `dispatch_infra`, `replies`: which handler takes a
    request, and how it is answered.
  - `*_laws`, `event_index`: what holds of these operations together.
- `app/` puts the library on a machine: a `fjall` database behind the partitions, handler
  threads, and clients.
- `tests/` run the library on concrete values.

What the library takes from other crates it takes through a few small functions whose
contracts are not proved; each says what it claims: integers in `postcard`'s wire format and
UTF-8 (`codec`), the clock and random identifiers (`clock`), SipHash (`keys`) and JSON (`json`).
