//! The projects the tool works on, as the settings file stores them.
use vstd::prelude::*;

verus! {

/// Everything the settings file holds.
#[derive(Clone)]
pub struct Root {
    pub projects: Vec<Project>,
}

/// A destination directory and the configurations that copy into it.
#[derive(Clone)]
pub struct Project {
    pub name: String,
    pub selected: bool,
    pub destination_path: String,
    pub configures: Vec<Configure>,
}

/// A source directory, the components to copy from it and the scripts that go with it.
#[derive(Clone)]
pub struct Configure {
    pub name: String,
    pub source_path: String,
    pub selected: bool,
    pub clean_destination: bool,
    pub extension_mask: Vec<String>,
    pub components: Vec<Component>,
    pub scripts: Vec<Script>,
}

/// A file, or a path to a file below the source directory, to copy.
#[derive(Clone)]
pub struct Component {
    pub name: String,
    pub selected: bool,
}

/// A named shell command.
#[derive(Clone)]
pub struct Script {
    pub name: String,
    pub command: String,
}

/// The index of the first project that is selected, if any: the project whose
/// configurations the windows show.
pub fn first_selected_project(projects: &Vec<Project>) -> (r: Option<usize>)
    ensures
        match r {
            Some(k) => {
                &&& k < projects.len()
                &&& projects@[k as int].selected
                &&& forall|j: int| 0 <= j < k ==> !(#[trigger] projects@[j]).selected
            },
            None => forall|j: int| 0 <= j < projects.len() ==> !(#[trigger] projects@[j]).selected,
        },
{
    let mut i: usize = 0;
    while i < projects.len()
        invariant
            i <= projects.len(),
            forall|j: int| 0 <= j < i ==> !(#[trigger] projects@[j]).selected,
        decreases projects.len() - i,
    {
        if projects[i].selected {
            return Some(i);
        }
        i = i + 1;
    }
    None
}

/// The index of the first configuration that is selected, if any: the
/// configuration whose components and scripts the windows show.
pub fn first_selected_configure(configures: &Vec<Configure>) -> (r: Option<usize>)
    ensures
        match r {
            Some(k) => {
                &&& k < configures.len()
                &&& configures@[k as int].selected
                &&& forall|j: int| 0 <= j < k ==> !(#[trigger] configures@[j]).selected
            },
            None => forall|j: int|
                0 <= j < configures.len() ==> !(#[trigger] configures@[j]).selected,
        },
{
    let mut i: usize = 0;
    while i < configures.len()
        invariant
            i <= configures.len(),
            forall|j: int| 0 <= j < i ==> !(#[trigger] configures@[j]).selected,
        decreases configures.len() - i,
    {
        if configures[i].selected {
            return Some(i);
        }
        i = i + 1;
    }
    None
}

} // verus!
