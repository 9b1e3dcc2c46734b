//! A URL-shortening store, verified with Verus.
//!
//! The store maps short aliases to destinations and counts the visits of each
//! alias. [`model`] holds the mathematical table in which every contract is
//! written, [`db`] the table in memory and its snapshot, [`codec`] the snapshot
//! text as `serde_json` writes and reads it, [`actions`] what the service does
//! for a request, [`persist`] the decisions of the task that saves the table,
//! [`config`] the parameters of a deployment, and [`laws`] what holds of the
//! table whatever the requests are.
//!
//! The table is changed through `&mut Db` alone, so no two requests ever act on
//! it at once; a program that serves many requests keeps it behind one lock.

pub mod actions;
pub mod codec;
pub mod config;
pub mod db;
pub mod laws;
pub mod model;
pub mod persist;

pub use crate::actions::{
    create_alias, handle_rejection, stats, view_data, CreateAliasRequest, Stats,
};
pub use crate::db::{load_db, save_db, Db};
pub use crate::persist::persist_db;
