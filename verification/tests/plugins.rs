use mvtool::plugin::{check_requirement, load_meta, plugin_name, LoadError, PluginMeta};
use mvtool::registry::{PluginEntry, PluginRegistry};

#[test]
fn header_is_read_until_the_first_code_line() {
    let code = "-- @name Foo\n-- @version 1.0\n--@author   Bob Smith  \n\n   -- @requirement 0.1.0\nlocal x = 1\n-- @description after the code\n";
    let meta = load_meta(code);
    assert_eq!(meta.name, "Foo");
    assert_eq!(meta.version, "1.0");
    assert_eq!(meta.author, "Bob Smith");
    assert_eq!(meta.requirement, "0.1.0");
    assert_eq!(meta.description, "");
}

#[test]
fn header_tags_need_a_space_and_a_known_name() {
    let meta = load_meta("-- @name\n-- @unknown value\n-- @description  two words \n");
    assert_eq!(meta.name, "");
    assert_eq!(meta.description, "two words");
}

#[test]
fn later_header_lines_override_earlier_ones() {
    let meta = load_meta("-- @name First\r\n-- @name Second\r\nreturn {}");
    assert_eq!(meta.name, "Second");
}

#[test]
fn header_tag_starts_at_the_first_at_sign() {
    let meta = load_meta("-- plugin by x@name Mail\n");
    assert_eq!(meta.name, "Mail");
    let meta = load_meta("-- @name a@b\n");
    assert_eq!(meta.name, "a@b");
}

#[test]
fn empty_script_has_empty_metadata() {
    let meta = load_meta("");
    let empty = PluginMeta::default();
    assert_eq!(meta.name, empty.name);
    assert_eq!(meta.requirement, "");
}

#[test]
fn requirement_is_checked() {
    let mut meta = PluginMeta::default();
    assert_eq!(check_requirement(&meta), Err(LoadError::MissingRequirement));
    meta.requirement = "99.0.0".to_string();
    assert_eq!(check_requirement(&meta), Err(LoadError::UnsupportedRequirement));
    meta.requirement = "0.1.0".to_string();
    assert_eq!(check_requirement(&meta), Ok(()));
    meta.requirement = "0.0.5".to_string();
    assert_eq!(check_requirement(&meta), Ok(()));
    meta.requirement = "any".to_string();
    assert_eq!(check_requirement(&meta), Ok(()));
}

#[test]
fn plugin_files_are_lua_scripts() {
    assert_eq!(plugin_name("deploy.lua"), Some("deploy".to_string()));
    assert_eq!(plugin_name("my.deploy.lua"), Some("my.deploy".to_string()));
    assert_eq!(plugin_name("deploy.txt"), None);
    assert_eq!(plugin_name("deploy.LUA"), None);
    assert_eq!(plugin_name(".lua"), None);
    assert_eq!(plugin_name("lua"), None);
    assert_eq!(plugin_name(".."), None);
    assert_eq!(plugin_name("deploy.lua.bak"), None);
}

fn entry(name: &str, enabled: bool, plugin: u32) -> PluginEntry<u32> {
    PluginEntry { name: name.to_string(), enabled, plugin }
}

#[test]
fn registry_replaces_by_name() {
    let mut registry = PluginRegistry::new();
    assert!(registry.is_empty());
    assert!(registry.insert(entry("a", true, 1)).is_none());
    assert!(registry.insert(entry("b", true, 2)).is_none());
    let replaced = registry.insert(entry("a", false, 3)).expect("a was there");
    assert_eq!(replaced.plugin, 1);
    assert_eq!(registry.len(), 2);
    assert_eq!(registry.get("a").map(|e| e.plugin), Some(3));
    assert_eq!(registry.get("b").map(|e| e.plugin), Some(2));
    assert!(registry.get("c").is_none());
    let names: Vec<&str> = registry.entries().iter().map(|e| e.name.as_str()).collect();
    assert_eq!(names, vec!["a", "b"]);
}

#[test]
fn hooks_go_to_enabled_plugins() {
    let mut registry = PluginRegistry::new();
    registry.insert(entry("a", true, 1));
    registry.insert(entry("b", false, 2));
    registry.insert(entry("c", true, 3));
    assert_eq!(registry.hook_targets(None), vec![0, 2]);
    assert_eq!(registry.hook_targets(Some("c")), vec![2]);
    assert_eq!(registry.hook_targets(Some("b")), Vec::<usize>::new());
    assert!(registry.set_enabled("b", true));
    assert!(!registry.set_enabled("z", true));
    assert_eq!(registry.hook_targets(None), vec![0, 1, 2]);
}

#[test]
fn header_values_are_trimmed_of_unicode_white_space() {
    let meta = load_meta("\u{3000}-- @author\u{00a0}Ann\u{2003}\t\n\u{feff}code");
    assert_eq!(meta.author, "");
    let meta = load_meta("\t-- @author  \u{2003}Ann\u{3000}\n-- @version 2.0\u{0085}\n");
    assert_eq!(meta.author, "Ann");
    assert_eq!(meta.version, "2.0");
}
