//! An in-memory store for a community: profiles, posts, replies and
//! likes, the relations between them, a ledger of tokens, and the rankings
//! of what is liked most.
//!
//! The store is one value that is handed to every operation. Each type
//! has a view as plain values, and each operation says in its contract
//! what it does to that view.

pub mod administration;
pub mod content;
pub mod controllers;
pub mod crypto;
pub mod entities;
pub mod handlers;
pub mod icrc7;
pub mod identity;
pub mod identity_index;
pub mod idgen;
pub mod ledger;
pub mod ledger_laws;
pub mod ledger_model;
pub mod likes;
pub mod listings;
pub mod login;
pub mod ordered;
pub mod paging;
pub mod policy;
pub mod principal_bytes;
pub mod queries;
pub mod rank;
pub mod rankings;
pub mod relation;
pub mod state;
pub mod store_model;
pub mod text;
