//! The state and decisions of the tool's windows; drawing them is left to the
//! user interface.
pub mod console;
pub mod controls;
pub mod lists;
pub mod messagebox;
pub mod panels;

pub use console::ConsoleWidget;
pub use lists::{ComponentsWidget, ConfiguresWidget, ProjectsWidget, ScriptsWidget};
pub use messagebox::{MessageBox, MessageBoxData};
pub use panels::{AboutWidget, ItemMenuData, PluginWidget, SettingsData, SettingsWidget, UpdatesWidget};
