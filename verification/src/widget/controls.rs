//! Controls that several windows share.
pub mod action;
pub mod link;
pub mod list;
pub mod menu;

pub use action::{Action, Executor};
pub use link::Link;
pub use list::{List, ListItem};
pub use menu::{Menu, MenuItem};
