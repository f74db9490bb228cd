//! A publish/subscribe message relay driven by file-defined mapping rules.
//!
//! Rules live as a directory tree of YAML documents, one rule per file, keyed
//! by the file's path; an incoming message on a subscribed topic triggers the
//! outgoing templates of its rule whose conditions hold of the payload. The
//! rule table can be reloaded while the relay serves, without tearing the
//! broker session down and without any reader seeing a half-built table.
//!
//! The library holds the verified core: the rule model and its loading, the
//! condition-matching algorithm, and the decisions of the dispatch loop and
//! of the reload supervisor. The surrounding process performs the I/O —
//! broker traffic, directory scans, change notifications — and hands plain
//! values in.

pub mod config;
pub mod evaluate;
pub mod mappings;
pub mod relay;
pub mod yaml;
