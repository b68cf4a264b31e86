//! Metadata store of a personal data server: repositories, events, delegations and
//! account infrastructure kept as ordered key-value rows.

pub mod account_laws;
pub mod account_ops;
pub mod account_steps;
pub mod backlinks;
pub mod bytes;
pub mod clock;
pub mod codec;
pub mod commit_laws;
pub mod commit_ops;
pub mod comms_laws;
pub mod comms_ops;
pub mod config;
pub mod delegation_laws;
pub mod delegation_ops;
pub mod delegations;
pub mod dispatch;
pub mod dispatch_infra;
pub mod encoding;
pub mod errors;
pub mod event_index;
pub mod event_keys;
pub mod event_laws;
pub mod event_ops;
pub mod eventlog;
pub mod event_reading_laws;
pub mod events;
pub mod grammar_laws;
pub mod grant_laws;
pub mod infra_laws;
pub mod infra_ops;
pub mod infra_schema;
pub mod invite_laws;
pub mod invite_ops;
pub mod json;
pub mod keys;
pub mod link_laws;
pub mod metastore;
pub mod partitions;
pub mod pool;
pub mod pref_laws;
pub mod pref_ops;
pub mod purge;
pub mod records;
pub mod recovery;
pub mod replay;
pub mod replay_laws;
pub mod replies;
pub mod reply_laws;
pub mod repo_laws;
pub mod repo_meta;
pub mod repo_ops;
pub mod repo_row_laws;
pub mod repo_steps;
pub mod request_infra_laws;
pub mod request_laws;
pub mod request_side_laws;
pub mod requests;
pub mod retention;
pub mod routing;
pub mod routing_laws;
pub mod scan;
pub mod service_laws;
pub mod sort;
pub mod store;
pub mod text;
pub mod types;
pub mod user_blocks;
pub mod user_hash;
pub mod users;
pub mod view_laws;
