//! The logic of mvtool, a tool that copies build components into project
//! destinations, runs project scripts and takes Lua plugins: which files a copy
//! run touches, how plugin headers are read and plugins kept, what each command
//! of the main loop does, and the state of the tool's windows.
pub mod app_state;
pub mod data;
pub mod events;
pub mod plugin;
pub mod registry;
pub mod schema;
pub mod service;
pub mod session;
pub mod setting;
pub mod task;
pub mod text;
pub mod updater;
pub mod widget;
