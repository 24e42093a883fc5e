//! Verified core of a contact-management tool: CSV lead import
//! (delimiter detection, header mapping, temporal parsing, row validation,
//! upsert by e-mail identity) and the backup/restore subsystem
//! (destination checks, backup-file validation, snapshot and rollback),
//! together with the shared error-tagging scheme.

pub mod backup;
pub mod clock;
pub mod csv;
pub mod headers;
pub mod import;
pub mod lead;
pub mod logging;
pub mod restore;
pub mod stage;
pub mod store;
pub mod tags;
pub mod text;
pub mod timestamp;
