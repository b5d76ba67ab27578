//! The migrators, one per kind of record. Each is a state machine: the caller
//! performs the `Action` that a step returns against the stores and hands the
//! outcome back as the next `Reply`.
pub mod common;
pub mod account;
pub mod origin;
pub mod account_origin;
pub mod invitation;
pub mod origin_member;
pub mod package;
pub mod secret_key;
pub mod origin_key;
pub mod public_keys;
