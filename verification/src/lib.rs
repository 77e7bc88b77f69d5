//! Structured persistence boundaries: authorization vocabulary, collaboration
//! projections, queue and import rules, verified with Verus.
mod duration;
pub mod access;
pub mod collaboration;
pub mod compile_queue;
pub mod config;
pub mod credentials;
pub mod error;
pub mod front_matter;
pub mod front_matter_state;
pub mod governance;
pub mod identity_links;
pub mod import_batch;
pub mod import_catalog;
pub mod import_checks;
pub mod import_cross;
pub mod import_parse;
pub mod import_review;
pub mod import_rows;
pub mod import_sql;
pub mod import_support;
pub mod import_values;
pub mod import_workbook;
pub mod integration;
pub mod mail_outbox;
pub mod permissions;
pub mod policy;
pub mod publication;
pub mod restoration;
pub mod staging;
pub mod team_import;
pub mod templates;
pub mod text;
pub mod working_tree;

pub use collaboration::AccountType;
pub use compile_queue::{CompletionOutcome, InfrastructureOutcome, QueueError, QueueLimits};
pub use config::DatabaseConfig;
pub use credentials::{
    hash_password, hash_temporary_password, temporary_password, validate_password, verify_password,
    CredentialError, TEMPORARY_PASSWORD_LENGTH,
};
pub use duration::Duration;
pub use error::{AppError, PersistenceError, V2Error};
