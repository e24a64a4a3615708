use mvtool::events::Type;
use mvtool::schema::{Component, Configure, Project, Script};
use mvtool::widget::controls::action::ActionInput;
use mvtool::widget::controls::list::{ListInput, Wheel};
use mvtool::widget::controls::menu::MenuInput;
use mvtool::widget::controls::{Action, Link, List, ListItem, Menu, MenuItem};
use mvtool::widget::{AboutWidget, ComponentsWidget, ConsoleWidget, ItemMenuData, MessageBox, MessageBoxData, PluginWidget, ScriptsWidget, UpdatesWidget};

fn project(name: &str, selected: bool) -> Project {
    Project { name: name.to_string(), selected, destination_path: String::new(), configures: vec![] }
}

fn selected_flags(items: &Vec<Project>) -> Vec<bool> {
    items.iter().map(|p| p.selected()).collect()
}

fn no_list_input() -> ListInput {
    ListInput { chosen: None, focused: false, arrow_pressed: false, hovered: false, wheel: Wheel::Still }
}

#[test]
fn console_keeps_the_newest_messages() {
    let mut console = ConsoleWidget::new();
    assert!(console.auto_scroll());
    for i in 1..=600 {
        console.add(&i.to_string(), Type::Message);
    }
    let entries = console.entries();
    assert_eq!(entries.len(), 501);
    assert_eq!(entries[0].message, "100");
    assert_eq!(entries[500].message, "600");
    console.add("last", Type::Error);
    assert_eq!(console.entries().len(), 501);
    assert_eq!(console.entries()[500].message_type, Type::Error);
    console.set_auto_scroll(false);
    assert!(!console.auto_scroll());
    console.clear();
    assert!(console.entries().is_empty());
}

#[test]
fn console_below_capacity_keeps_everything() {
    let mut console = ConsoleWidget::new();
    for i in 0..501 {
        console.add(&i.to_string(), Type::Success);
    }
    assert_eq!(console.entries().len(), 501);
    assert_eq!(console.entries()[0].message, "0");
}

#[test]
fn list_keeps_the_selected_item() {
    let list = List { label: "##projects".to_string() };
    let mut items = vec![project("a", false), project("b", true), project("c", false)];
    list.draw(&mut items, &no_list_input());
    assert_eq!(selected_flags(&items), vec![false, true, false]);
}

#[test]
fn list_without_selection_selects_the_first() {
    let list = List { label: String::new() };
    let mut items = vec![project("a", false), project("b", false)];
    list.draw(&mut items, &no_list_input());
    assert_eq!(selected_flags(&items), vec![true, false]);
}

#[test]
fn list_leaves_one_selected_when_several_were() {
    let list = List { label: String::new() };
    let mut items = vec![project("a", false), project("b", true), project("c", true)];
    list.draw(&mut items, &no_list_input());
    assert_eq!(selected_flags(&items), vec![false, true, false]);
}

#[test]
fn list_follows_choice_keys_and_wheel() {
    let list = List { label: String::new() };
    let mut items = vec![project("a", true), project("b", false), project("c", false)];
    list.draw(&mut items, &ListInput { chosen: Some(2), ..no_list_input() });
    assert_eq!(selected_flags(&items), vec![false, false, true]);
    list.draw(&mut items, &ListInput { focused: true, arrow_pressed: true, ..no_list_input() });
    assert_eq!(selected_flags(&items), vec![false, true, false]);
    list.draw(&mut items, &ListInput { hovered: true, wheel: Wheel::Down, ..no_list_input() });
    assert_eq!(selected_flags(&items), vec![false, false, true]);
    list.draw(&mut items, &ListInput { hovered: true, wheel: Wheel::Down, ..no_list_input() });
    assert_eq!(selected_flags(&items), vec![true, false, false]);
    list.draw(&mut items, &ListInput { hovered: true, wheel: Wheel::Up, ..no_list_input() });
    assert_eq!(selected_flags(&items), vec![false, false, true]);
    list.draw(&mut items, &ListInput { hovered: false, wheel: Wheel::Up, ..no_list_input() });
    assert_eq!(selected_flags(&items), vec![false, false, true]);
    list.draw(&mut items, &ListInput { focused: false, arrow_pressed: true, ..no_list_input() });
    assert_eq!(selected_flags(&items), vec![false, false, true]);
}

#[test]
fn arrow_key_wraps_from_first_to_last() {
    let list = List { label: String::new() };
    let mut items = vec![project("a", true), project("b", false), project("c", false)];
    list.draw(&mut items, &ListInput { focused: true, arrow_pressed: true, ..no_list_input() });
    assert_eq!(selected_flags(&items), vec![false, false, true]);
    let mut empty: Vec<Project> = vec![];
    list.draw(&mut empty, &ListInput { focused: true, arrow_pressed: true, ..no_list_input() });
    assert!(empty.is_empty());
}

fn components(flags: &[bool]) -> Vec<Component> {
    flags.iter().enumerate().map(|(i, f)| Component { name: format!("c{}", i), selected: *f }).collect()
}

fn checked(items: &Vec<Component>) -> Vec<bool> {
    items.iter().map(|c| MenuItem::selected(c)).collect()
}

fn no_menu_input() -> MenuInput {
    MenuInput { toggled: None, clicked: None, focused: false, up: false, down: false, left: false, right: false, select_all: false, space: false }
}

#[test]
fn menu_clicks_flip_items_and_move_the_cursor() {
    let mut menu = ComponentsWidget::new().menu;
    let mut items = components(&[false, true, false]);
    menu.draw(&mut items, &MenuInput { toggled: Some(2), ..no_menu_input() });
    assert_eq!(checked(&items), vec![false, true, true]);
    assert_eq!(menu.index, 2);
    menu.draw(&mut items, &MenuInput { clicked: Some(1), ..no_menu_input() });
    assert_eq!(checked(&items), vec![false, false, true]);
    assert_eq!(menu.index, 1);
}

#[test]
fn menu_keys_move_and_flip() {
    let mut menu = Menu { label: "m".to_string(), horizontal: false, index: 0 };
    let mut items = components(&[false, false, false]);
    menu.draw(&mut items, &MenuInput { focused: true, down: true, ..no_menu_input() });
    assert_eq!(menu.index, 1);
    menu.draw(&mut items, &MenuInput { focused: true, down: true, ..no_menu_input() });
    menu.draw(&mut items, &MenuInput { focused: true, down: true, ..no_menu_input() });
    assert_eq!(menu.index, 2);
    menu.draw(&mut items, &MenuInput { focused: true, space: true, ..no_menu_input() });
    assert_eq!(checked(&items), vec![false, false, true]);
    menu.draw(&mut items, &MenuInput { focused: true, up: true, space: true, ..no_menu_input() });
    assert_eq!(menu.index, 1);
    assert_eq!(checked(&items), vec![false, true, true]);
    menu.draw(&mut items, &MenuInput { focused: true, right: true, ..no_menu_input() });
    assert_eq!(menu.index, 1);
    menu.draw(&mut items, &MenuInput { focused: false, down: true, space: true, ..no_menu_input() });
    assert_eq!(menu.index, 1);
    assert_eq!(checked(&items), vec![false, true, true]);
}

#[test]
fn menu_select_all_toggles() {
    let mut menu = Menu { label: String::new(), horizontal: false, index: 0 };
    let mut items = components(&[false, true, false]);
    menu.draw(&mut items, &MenuInput { focused: true, select_all: true, ..no_menu_input() });
    assert_eq!(checked(&items), vec![true, true, true]);
    menu.draw(&mut items, &MenuInput { focused: true, select_all: true, ..no_menu_input() });
    assert_eq!(checked(&items), vec![false, false, false]);
}

#[test]
fn horizontal_menu_uses_left_and_right() {
    let mut menu = Menu { label: String::new(), horizontal: true, index: 1 };
    let mut items = components(&[false, false, false]);
    menu.draw(&mut items, &MenuInput { focused: true, down: true, ..no_menu_input() });
    assert_eq!(menu.index, 1);
    menu.draw(&mut items, &MenuInput { focused: true, left: true, ..no_menu_input() });
    assert_eq!(menu.index, 0);
    menu.draw(&mut items, &MenuInput { focused: true, left: true, ..no_menu_input() });
    assert_eq!(menu.index, 0);
}

fn scripts(n: usize) -> Vec<Script> {
    (0..n).map(|i| Script { name: format!("s{}", i), command: format!("echo {}", i) }).collect()
}

fn no_action_input() -> ActionInput {
    ActionInput { clicked: None, picked: None, focused: false, space: false, up: false, down: false, left: false, right: false }
}

#[test]
fn action_runs_clicked_and_spaced_items() {
    let mut action = ScriptsWidget::new().action;
    let items = scripts(3);
    assert_eq!(action.draw(&items, &ActionInput { clicked: Some(2), ..no_action_input() }), vec![2]);
    assert_eq!(action.draw(&items, &ActionInput { focused: true, space: true, ..no_action_input() }), vec![0]);
    assert_eq!(action.draw(&items, &ActionInput { focused: false, space: true, ..no_action_input() }), Vec::<usize>::new());
    assert_eq!(action.draw(&items, &ActionInput { clicked: Some(0), focused: true, space: true, ..no_action_input() }), vec![0, 0]);
}

#[test]
fn action_cursor_follows_picks_and_keys() {
    let mut action = Action::new();
    let items = scripts(3);
    action.draw(&items, &ActionInput { picked: Some(2), ..no_action_input() });
    assert_eq!(action.index, 2);
    action.draw(&items, &ActionInput { focused: true, down: true, ..no_action_input() });
    assert_eq!(action.index, 2);
    action.draw(&items, &ActionInput { focused: true, up: true, ..no_action_input() });
    assert_eq!(action.index, 1);
    let run = action.draw(&items, &ActionInput { picked: Some(0), focused: true, space: true, ..no_action_input() });
    assert_eq!(run, vec![]);
    assert_eq!(action.index, 0);
    let empty: Vec<Script> = vec![];
    assert!(action.draw(&empty, &ActionInput { focused: true, space: true, ..no_action_input() }).is_empty());
}

#[test]
fn link_opens_when_clicked() {
    let mut link = Link::new("text".to_string(), "https://example.org".to_string());
    assert!(!link.is_hovered);
    assert!(!link.draw(true, false));
    assert!(link.is_hovered);
    assert!(link.draw(false, true));
    assert!(!link.is_hovered);
}

#[test]
fn message_box_runs_its_action_once() {
    let boxed = MessageBox::new().title("Title".to_string()).message("Body".to_string()).spawn(7u32);
    assert!(boxed.is_open());
    let data = boxed.data.as_ref().expect("content");
    assert_eq!(data.title, "Title");
    assert_eq!(data.message, "Body");
    let mut boxed = boxed;
    assert_eq!(boxed.click_ok(), Some(7));
    assert!(!boxed.is_open());
    assert!(boxed.data.is_none());
    assert_eq!(boxed.click_ok(), None);
}

#[test]
fn cancelled_message_box_drops_its_action() {
    let mut boxed = MessageBox::new().spawn("action");
    boxed.click_cancel();
    assert!(!boxed.is_open());
    assert_eq!(boxed.click_ok(), None);
}

#[test]
fn message_box_without_action() {
    let mut boxed: MessageBox<u8> = MessageBox::new();
    assert!(!boxed.is_open());
    assert_eq!(boxed.click_ok(), None);
    let emptied = boxed.title("t".to_string()).spawn(1);
    assert!(emptied.is_open());
    assert!(emptied.data.is_none());
    let data = MessageBoxData::new("a", "b", 5u8);
    assert_eq!(data.action, Some(5));
}

#[test]
fn about_box_shows_the_repository() {
    let mut about = AboutWidget::new();
    assert_eq!(about.title, "О программе");
    assert_eq!(about.link.url, "https://github.com/Eunecod/mvtool-tui");
    assert!(!about.qr.is_empty());
    assert!(!about.is_open);
    about.open();
    assert!(about.is_open);
}

#[test]
fn update_box_shows_the_release() {
    let mut updates = UpdatesWidget::new();
    assert!(updates.link.is_none());
    updates.set_version("v2.0.0".to_string());
    updates.set_link("https://example.org/r".to_string());
    updates.open();
    assert_eq!(updates.version, "v2.0.0");
    let link = updates.link.as_ref().expect("link");
    assert_eq!(link.text, "https://example.org/r");
    assert_eq!(link.url, "https://example.org/r");
    assert!(updates.is_open);
}

#[test]
fn plugin_windows_carry_their_titles() {
    assert_eq!(PluginWidget::new("deploy").title, "deploy");
    assert_eq!(ItemMenuData::new("menu").title, "menu");
    assert_eq!(ItemMenuData::default().title, "");
}

#[test]
fn configures_are_list_items() {
    let mut c = Configure {
        name: "release".to_string(),
        source_path: String::new(),
        selected: false,
        clean_destination: false,
        extension_mask: vec![],
        components: vec![],
        scripts: vec![],
    };
    assert_eq!(ListItem::name(&c), "release");
    c.set_selected(true);
    assert!(c.selected);
}

#[test]
fn list_second_quiet_frame_changes_nothing() {
    let list = List { label: String::new() };
    let mut items = vec![project("a", false), project("b", true), project("c", true)];
    list.draw(&mut items, &no_list_input());
    assert_eq!(selected_flags(&items), vec![false, true, false]);
    list.draw(&mut items, &no_list_input());
    assert_eq!(selected_flags(&items), vec![false, true, false]);
}

#[test]
fn action_cursor_stops_at_both_ends() {
    let mut action = Action::new();
    let items = scripts(3);
    action.draw(&items, &ActionInput { focused: true, up: true, ..no_action_input() });
    assert_eq!(action.index, 0);
    action.draw(&items, &ActionInput { focused: true, down: true, ..no_action_input() });
    assert_eq!(action.index, 1);
    action.draw(&items, &ActionInput { focused: true, down: true, ..no_action_input() });
    assert_eq!(action.index, 2);
    action.draw(&items, &ActionInput { focused: true, down: true, ..no_action_input() });
    assert_eq!(action.index, 2);
    action.horizontal = true;
    action.draw(&items, &ActionInput { focused: true, up: true, ..no_action_input() });
    assert_eq!(action.index, 2);
    action.draw(&items, &ActionInput { focused: true, left: true, ..no_action_input() });
    assert_eq!(action.index, 1);
    assert_eq!(action.label, "");
    assert!(action.horizontal);
}
