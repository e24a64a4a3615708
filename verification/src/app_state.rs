//! The main loop's handling of commands: each command changes the windows' state
//! and names the outside work to do (print, notify, run, copy, update, exit).
use vstd::prelude::*;

use crate::events::Command;
use crate::session::UpdateSession;
use crate::updater::Updater;
use crate::widget::console::log_after_add;
use crate::widget::messagebox::MessageBoxData;
use crate::widget::{AboutWidget, ConsoleWidget, MessageBox, UpdatesWidget};

verus! {

broadcast use vstd::string::group_string_axioms;

/// The outside work that a command asks for.
pub enum Effect {
    /// Nothing beyond the change of state.
    Nothing,
    /// Print the message on the standard output.
    Print(String),
    /// Show a desktop notification with this title and body.
    Notify(String, String),
    /// Run the command (second) under the name (first) and report how it ended.
    Execute(String, String),
    /// Report that copying starts and copy the selected components.
    StartCopy,
    /// Report that updating starts, and install the update of the session, if one
    /// was kept.
    StartUpdate(Option<UpdateSession<Updater>>),
    /// Leave the main loop.
    Exit,
}

/// The state that commands change.
pub struct AppState<A> {
    pub console: ConsoleWidget,
    pub messagebox: MessageBox<A>,
    pub updates: UpdatesWidget,
    pub about: AboutWidget,
    pub plugin_manager_open: bool,
    pub update_session: Option<UpdateSession<Updater>>,
}

impl<A> AppState<A> {
    /// Whether `self` and `other` agree on everything but the console.
    pub open spec fn same_but_console(&self, other: &Self) -> bool {
        &&& self.messagebox == other.messagebox
        &&& self.updates == other.updates
        &&& self.about == other.about
        &&& self.plugin_manager_open == other.plugin_manager_open
        &&& self.update_session == other.update_session
    }

    /// Whether `self` and `other` agree on everything.
    pub open spec fn unchanged(&self, other: &Self) -> bool {
        self.same_but_console(other) && self.console == other.console
    }

    /// Applies one command.
    pub fn event_process(&mut self, command: Command<A>) -> (effect: Effect)
        ensures
            match command {
                Command::Devent(message, message_type) => {
                    &&& final(self).console.log() == log_after_add(
                        old(self).console.log(),
                        message@,
                        message_type,
                    )
                    &&& final(self).console.follows() == old(self).console.follows()
                    &&& final(self).same_but_console(&*old(self))
                    &&& effect == Effect::Print(message)
                },
                Command::ShowNotification(title, message) => {
                    &&& final(self).unchanged(&*old(self))
                    &&& effect == Effect::Notify(title, message)
                },
                Command::ShowMessageBox(title, message, action) => {
                    &&& final(self).messagebox.content() == Some(
                        MessageBoxData { title, message, action: Some(action) },
                    )
                    &&& final(self).messagebox.shown()
                    &&& final(self).console == old(self).console
                    &&& final(self).updates == old(self).updates
                    &&& final(self).about == old(self).about
                    &&& final(self).plugin_manager_open == old(self).plugin_manager_open
                    &&& final(self).update_session == old(self).update_session
                    &&& effect == Effect::Nothing
                },
                Command::Execute(name, command) => {
                    &&& final(self).unchanged(&*old(self))
                    &&& effect == Effect::Execute(name, command)
                },
                Command::UpdaterReady(session) => {
                    &&& final(self).updates.version@ == session@.release().tag_name@
                    &&& final(self).updates.link matches Some(l) && l.text@
                        == session@.release().html_url@ && l.url@ == session@.release().html_url@
                        && !l.is_hovered
                    &&& final(self).updates.is_open
                    &&& final(self).updates.title == old(self).updates.title
                    &&& final(self).update_session == Some(session)
                    &&& final(self).console == old(self).console
                    &&& final(self).messagebox == old(self).messagebox
                    &&& final(self).about == old(self).about
                    &&& final(self).plugin_manager_open == old(self).plugin_manager_open
                    &&& effect == Effect::Nothing
                },
                Command::Update() => {
                    &&& final(self).update_session is None
                    &&& final(self).console == old(self).console
                    &&& final(self).messagebox == old(self).messagebox
                    &&& final(self).updates == old(self).updates
                    &&& final(self).about == old(self).about
                    &&& final(self).plugin_manager_open == old(self).plugin_manager_open
                    &&& effect == Effect::StartUpdate(old(self).update_session)
                },
                Command::Copyng() => {
                    &&& final(self).unchanged(&*old(self))
                    &&& effect == Effect::StartCopy
                },
                Command::PluginManager() => {
                    &&& final(self).plugin_manager_open
                    &&& final(self).console == old(self).console
                    &&& final(self).messagebox == old(self).messagebox
                    &&& final(self).updates == old(self).updates
                    &&& final(self).about == old(self).about
                    &&& final(self).update_session == old(self).update_session
                    &&& effect == Effect::Nothing
                },
                Command::About() => {
                    &&& final(self).about.is_open
                    &&& final(self).about.title == old(self).about.title
                    &&& final(self).about.qr == old(self).about.qr
                    &&& final(self).about.link == old(self).about.link
                    &&& final(self).console == old(self).console
                    &&& final(self).messagebox == old(self).messagebox
                    &&& final(self).updates == old(self).updates
                    &&& final(self).plugin_manager_open == old(self).plugin_manager_open
                    &&& final(self).update_session == old(self).update_session
                    &&& effect == Effect::Nothing
                },
                Command::Exit() => {
                    &&& final(self).unchanged(&*old(self))
                    &&& effect == Effect::Exit
                },
            },
    {
        match command {
            Command::Devent(message, message_type) => {
                self.console.add(message.as_str(), message_type);
                Effect::Print(message)
            },
            Command::ShowNotification(title, message) => Effect::Notify(title, message),
            Command::ShowMessageBox(title, message, action) => {
                self.messagebox = MessageBox::new().title(title).message(message).spawn(action);
                Effect::Nothing
            },
            Command::Execute(name, command) => Effect::Execute(name, command),
            Command::UpdaterReady(update_session) => {
                if let Some(updater) = update_session.as_ref_concrete() {
                    self.updates.set_version(String::from_str(updater.get_latest_version()));
                    self.updates.set_link(String::from_str(updater.get_release_link()));
                }
                self.update_session = Some(update_session);
                self.updates.open();
                Effect::Nothing
            },
            Command::Update() => {
                let session = self.update_session.take();
                Effect::StartUpdate(session)
            },
            Command::Copyng() => Effect::StartCopy,
            Command::PluginManager() => {
                self.plugin_manager_open = true;
                Effect::Nothing
            },
            Command::About() => {
                self.about.open();
                Effect::Nothing
            },
            Command::Exit() => Effect::Exit,
        }
    }
}

/// The keys that the main window handles itself.
#[derive(PartialEq, Eq, Structural, Clone, Copy, Debug)]
pub enum HotKey {
    F1,
    F2,
    Escape,
    /// Any other key; it goes to the user interface.
    Other,
}

/// What a handled key does.
#[derive(PartialEq, Eq, Structural, Clone, Copy, Debug)]
pub enum HotKeyAction {
    /// Copy the selected components.
    Copy,
    /// Send the projects to the plugins' `on_start` hook.
    StartHook,
    /// Leave the program.
    Exit,
}

/// What pressing `key` does: the first press (not a repeat) of `F1` copies, of
/// `F2` starts the plugins, of `Escape` exits. Anything else (`None`) goes to the
/// user interface.
pub fn hotkey_action(key: HotKey, pressed: bool, repeat: bool) -> (r: Option<HotKeyAction>)
    ensures
        r == if pressed && !repeat {
            match key {
                HotKey::F1 => Some(HotKeyAction::Copy),
                HotKey::F2 => Some(HotKeyAction::StartHook),
                HotKey::Escape => Some(HotKeyAction::Exit),
                HotKey::Other => None,
            }
        } else {
            None
        },
{
    if !pressed || repeat {
        return None;
    }
    match key {
        HotKey::F1 => Some(HotKeyAction::Copy),
        HotKey::F2 => Some(HotKeyAction::StartHook),
        HotKey::Escape => Some(HotKeyAction::Exit),
        HotKey::Other => None,
    }
}

} // verus!
