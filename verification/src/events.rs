//! The messages that the parts of the tool send to the main loop.
use vstd::prelude::*;

use crate::session::UpdateSession;
use crate::updater::Updater;

verus! {

/// How a console message is shown.
#[derive(PartialEq, Eq, Structural, Clone, Copy, Debug)]
pub enum Type {
    Message,
    Success,
    Warning,
    Error,
}

/// A request to the main loop. `A` is the action that a message box runs when
/// its user confirms it.
pub enum Command<A> {
    /// Show a message in the console.
    Devent(String, Type),
    /// Show a desktop notification with a title and a body.
    ShowNotification(String, String),
    /// Open a message box with a title, a message and the action of its `Ok` button.
    ShowMessageBox(String, String, A),
    /// Run a shell command under a name.
    Execute(String, String),
    /// An update was found.
    UpdaterReady(UpdateSession<Updater>),
    /// Download and install the update that was found.
    Update(),
    /// Copy the selected components.
    Copyng(),
    /// Open the plugin manager.
    PluginManager(),
    /// Open the about box.
    About(),
    /// Leave the program.
    Exit(),
}

} // verus!
