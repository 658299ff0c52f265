//! What holds of masking, for every document and every set of names.

pub mod bumps;
pub mod by_field;
pub mod idempotence;
pub mod lock;
pub mod member;
pub mod resolution;
pub mod scopes;
pub mod structure;
pub mod workspace;
