//! A registry of installed packages and of the versions installed of each,
//! with the operations that install, remove, switch, update and list them.

mod clock;
pub mod document;
pub mod error;
pub mod install;
pub mod laws;
pub mod list;
pub mod model;
pub mod remove;
pub mod search;
pub mod store;
pub mod switch;
pub mod update;
