//! The windows that show the projects, their configurations, components and scripts.
use vstd::prelude::*;

use crate::schema::{Component, Configure, Project, Script};
use crate::widget::controls::{Action, Executor, ListItem, Menu, MenuItem};

verus! {

broadcast use vstd::string::group_string_axioms;

impl ListItem for Project {
    open spec fn item_name(&self) -> Seq<char> {
        self.name@
    }

    open spec fn is_selected(&self) -> bool {
        self.selected
    }

    fn name(&self) -> (r: &str) {
        self.name.as_str()
    }

    fn selected(&self) -> (r: bool) {
        self.selected
    }

    fn set_selected(&mut self, value: bool) {
        self.selected = value;
    }
}

impl ListItem for Configure {
    open spec fn item_name(&self) -> Seq<char> {
        self.name@
    }

    open spec fn is_selected(&self) -> bool {
        self.selected
    }

    fn name(&self) -> (r: &str) {
        self.name.as_str()
    }

    fn selected(&self) -> (r: bool) {
        self.selected
    }

    fn set_selected(&mut self, value: bool) {
        self.selected = value;
    }
}

impl MenuItem for Component {
    open spec fn item_name(&self) -> Seq<char> {
        self.name@
    }

    open spec fn is_selected(&self) -> bool {
        self.selected
    }

    fn name(&self) -> (r: &str) {
        self.name.as_str()
    }

    fn selected(&self) -> (r: bool) {
        self.selected
    }

    fn set_selected(&mut self, value: bool) {
        self.selected = value;
    }
}

impl Executor for Script {
    open spec fn executor_name(&self) -> Seq<char> {
        self.name@
    }

    open spec fn executor_command(&self) -> Seq<char> {
        self.command@
    }

    fn name(&self) -> (r: &str) {
        self.name.as_str()
    }

    fn command(&self) -> (r: &str) {
        self.command.as_str()
    }
}

/// The window of the projects.
pub struct ProjectsWidget;

impl ProjectsWidget {
    pub fn new() -> (r: Self) {
        ProjectsWidget
    }
}

/// The window of the selected project's configurations.
pub struct ConfiguresWidget;

impl ConfiguresWidget {
    pub fn new() -> (r: Self) {
        ConfiguresWidget
    }
}

/// The window of the selected configuration's components.
pub struct ComponentsWidget {
    pub menu: Menu,
}

impl ComponentsWidget {
    /// A vertical menu whose cursor is on the first component.
    pub fn new() -> (r: Self)
        ensures
            r.menu.label@ == "##components"@,
            !r.menu.horizontal,
            r.menu.index == 0,
    {
        ComponentsWidget {
            menu: Menu { label: String::from_str("##components"), horizontal: false, index: 0 },
        }
    }
}

/// The window of the selected configuration's scripts.
pub struct ScriptsWidget {
    pub action: Action,
}

impl ScriptsWidget {
    /// A vertical action list whose cursor is on the first script.
    pub fn new() -> (r: Self)
        ensures
            r.action.label@ == "##scripts"@,
            !r.action.horizontal,
            r.action.index == 0,
    {
        ScriptsWidget {
            action: Action { label: String::from_str("##scripts"), horizontal: false, index: 0 },
        }
    }
}

} // verus!
