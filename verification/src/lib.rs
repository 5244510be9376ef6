//! State and view logic of a terminal dashboard for network interfaces.
//!
//! The crate holds the dashboard's state, the transition that every
//! action causes, and the description of what is drawn. Waiting for keys
//! and drawing on the terminal are left to the program that uses it.

pub mod action;
pub mod app;
pub mod history;
pub mod metrics;
pub mod networks;
pub mod text;

pub use action::Action;
