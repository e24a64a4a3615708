use mvtool::schema::{first_selected_configure, first_selected_project, Component, Configure, Project};
use mvtool::task::{CopyProgress, FileOutcome, FileReport, component_path, components_to_copy, copy_jobs, file_passes_masks, is_archive, matches_pattern, select_files, should_remove};

fn component(name: &str, selected: bool) -> Component {
    Component { name: name.to_string(), selected }
}

fn configure(name: &str, selected: bool, components: Vec<Component>) -> Configure {
    Configure {
        name: name.to_string(),
        source_path: "src".to_string(),
        selected,
        clean_destination: false,
        extension_mask: vec![],
        components,
        scripts: vec![],
    }
}

fn project(name: &str, selected: bool, configures: Vec<Configure>) -> Project {
    Project { name: name.to_string(), selected, destination_path: "dst".to_string(), configures }
}

#[test]
fn jobs_are_the_selected_configures_of_selected_projects() {
    let projects = vec![
        project("p0", true, vec![configure("a", true, vec![]), configure("b", false, vec![]), configure("c", true, vec![])]),
        project("p1", false, vec![configure("d", true, vec![])]),
        project("p2", true, vec![configure("e", true, vec![])]),
    ];
    assert_eq!(copy_jobs(&projects), vec![(0, 0), (0, 2), (2, 0)]);
}

#[test]
fn nothing_selected_gives_no_job() {
    let projects = vec![project("p0", false, vec![configure("a", true, vec![])]), project("p1", true, vec![configure("b", false, vec![])])];
    assert!(copy_jobs(&projects).is_empty());
    assert!(copy_jobs(&vec![]).is_empty());
}

#[test]
fn selected_components_in_order() {
    let components = vec![component("a", false), component("b", true), component("c", true)];
    assert_eq!(components_to_copy(&components), vec![1, 2]);
    assert!(components_to_copy(&vec![component("a", false)]).is_empty());
}

#[test]
fn component_paths_split_at_both_separators() {
    let path = component_path("bin/plugins\\core.dll");
    assert_eq!(path.dirs, vec!["bin".to_string(), "plugins".to_string()]);
    assert_eq!(path.pattern, "core.dll");
    let path = component_path("core.dll");
    assert!(path.dirs.is_empty());
    assert_eq!(path.pattern, "core.dll");
    let path = component_path("bin/");
    assert_eq!(path.dirs, vec!["bin".to_string()]);
    assert_eq!(path.pattern, "");
    let path = component_path("/x");
    assert_eq!(path.dirs, vec!["".to_string()]);
    assert_eq!(path.pattern, "x");
}

#[test]
fn patterns_match_by_containment_or_case() {
    assert!(matches_pattern("libcore.so", "core"));
    assert!(matches_pattern("CORE.DLL", "core.dll"));
    assert!(!matches_pattern("CORE.DLL", "core"));
    assert!(!matches_pattern("engine.dll", "core"));
    assert!(matches_pattern("anything", ""));
}

#[test]
fn files_to_copy_pass_masks_and_pattern() {
    let names: Vec<String> = ["core.dll", "core.pdb", "CORE.DLL", "other.dll", "libcore.dll"].iter().map(|s| s.to_string()).collect();
    let masks = vec!["*.dll".to_string()];
    assert_eq!(select_files(&names, &masks, "core"), vec![0, 4]);
    assert_eq!(select_files(&names, &masks, "core.dll"), vec![0, 4]);
    assert_eq!(select_files(&names, &[], "core.dll"), vec![0, 2, 4]);
    assert_eq!(select_files(&names, &[], "core"), vec![0, 1, 4]);
}

#[test]
fn single_files_pass_only_the_masks() {
    assert!(file_passes_masks("core.dll", &["*.dll".to_string()]));
    assert!(!file_passes_masks("core.pdb", &["*.dll".to_string()]));
    assert!(file_passes_masks("core.pdb", &[]));
}

#[test]
fn archives_are_tar_files() {
    assert!(is_archive("build.tar.gz"));
    assert!(is_archive("build.tar"));
    assert!(!is_archive("build.tgz"));
    assert!(!is_archive("build.tar.bz2"));
}

#[test]
fn cleaning_removes_files_that_contain_a_pattern() {
    let components = vec![component("bin/core.dll", false), component("data\\assets", true)];
    assert!(should_remove("core.dll", &components));
    assert!(should_remove("old_core.dll.bak", &components));
    assert!(should_remove("assets.pak", &components));
    assert!(!should_remove("engine.dll", &components));
    assert!(!should_remove("engine.dll", &vec![]));
}

#[test]
fn unselected_parts_do_not_change_the_jobs() {
    let a = vec![
        project("p0", true, vec![configure("a", true, vec![]), configure("b", false, vec![])]),
        project("p1", false, vec![configure("d", true, vec![])]),
    ];
    let b = vec![
        project("p0", true, vec![configure("a", true, vec![]), configure("other", false, vec![component("x", true)])]),
        project("changed", false, vec![]),
    ];
    assert_eq!(copy_jobs(&a), vec![(0, 0)]);
    assert_eq!(copy_jobs(&a), copy_jobs(&b));
}

#[test]
fn first_selected_project_and_configure() {
    let projects = vec![
        project("p0", false, vec![]),
        project("p1", true, vec![configure("a", false, vec![]), configure("b", true, vec![]), configure("c", true, vec![])]),
        project("p2", true, vec![]),
    ];
    assert_eq!(first_selected_project(&projects), Some(1));
    assert_eq!(first_selected_configure(&projects[1].configures), Some(1));
    assert_eq!(first_selected_configure(&projects[0].configures), None);
    assert_eq!(first_selected_project(&vec![project("p", false, vec![])]), None);
}

fn job_reads(projects: &Vec<Project>) -> Vec<(String, String)> {
    copy_jobs(projects)
        .into_iter()
        .map(|(p, c)| (projects[p].destination_path.clone(), projects[p].configures[c].name.clone()))
        .collect()
}

#[test]
fn dropping_unselected_entries_keeps_the_work() {
    let full = vec![
        project("p0", true, vec![configure("a", true, vec![]), configure("b", false, vec![]), configure("c", true, vec![])]),
        project("p1", false, vec![configure("d", true, vec![])]),
        project("p2", true, vec![configure("e", false, vec![]), configure("f", true, vec![])]),
    ];
    let pruned = vec![
        project("p0", true, vec![configure("a", true, vec![]), configure("c", true, vec![])]),
        project("p2", true, vec![configure("f", true, vec![])]),
    ];
    assert_eq!(copy_jobs(&pruned), vec![(0, 0), (0, 1), (1, 0)]);
    assert_eq!(job_reads(&full), job_reads(&pruned));
}

#[test]
fn progress_counts_the_files_done() {
    let mut progress = CopyProgress::new(3);
    assert_eq!(progress.record(FileOutcome::Done), FileReport::Progress(1, 3));
    assert_eq!(progress.record(FileOutcome::CopyFailed), FileReport::CopyFailed);
    assert_eq!(progress.record(FileOutcome::Done), FileReport::Progress(2, 3));
    assert_eq!(progress.record(FileOutcome::UnpackFailed), FileReport::UnpackFailed);
    assert_eq!(progress.record(FileOutcome::MissingDir), FileReport::MissingDir);
    assert_eq!((progress.done, progress.total), (2, 3));
}
