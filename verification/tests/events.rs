use mvtool::app_state::{hotkey_action, AppState, Effect, HotKey, HotKeyAction};
use mvtool::data::SharedData;
use mvtool::events::{Command, Type};
use mvtool::schema::{Project, Root};
use mvtool::session::UpdateSession;
use mvtool::setting::{ApplicationSetting, Setting};
use mvtool::updater::{is_binary, Asset, Release, Updater};
use mvtool::widget::{AboutWidget, ConsoleWidget, MessageBox, UpdatesWidget};

fn state() -> AppState<u32> {
    AppState {
        console: ConsoleWidget::new(),
        messagebox: MessageBox::new(),
        updates: UpdatesWidget::new(),
        about: AboutWidget::new(),
        plugin_manager_open: false,
        update_session: None,
    }
}

fn release(tag: &str) -> Release {
    Release {
        tag_name: tag.to_string(),
        html_url: "https://example.org/release".to_string(),
        assets: vec![
            Asset { name: "mvtool-x86_64-windows.tar.gz".to_string(), browser_download_url: "u1".to_string(), size: 10 },
            Asset { name: "mvtool-x86_64-linux.tar.gz".to_string(), browser_download_url: "u2".to_string(), size: 0 },
        ],
    }
}

#[test]
fn messages_go_to_the_console_and_the_output() {
    let mut app = state();
    match app.event_process(Command::Devent("hello".to_string(), Type::Warning)) {
        Effect::Print(message) => assert_eq!(message, "hello"),
        _ => panic!("expected a print"),
    }
    assert_eq!(app.console.entries().len(), 1);
    assert_eq!(app.console.entries()[0].message, "hello");
    assert_eq!(app.console.entries()[0].message_type, Type::Warning);
}

#[test]
fn outside_work_is_named() {
    let mut app = state();
    assert!(matches!(app.event_process(Command::Exit()), Effect::Exit));
    assert!(matches!(app.event_process(Command::Copyng()), Effect::StartCopy));
    match app.event_process(Command::Execute("build".to_string(), "make".to_string())) {
        Effect::Execute(name, command) => {
            assert_eq!(name, "build");
            assert_eq!(command, "make");
        },
        _ => panic!("expected a run"),
    }
    match app.event_process(Command::ShowNotification("t".to_string(), "b".to_string())) {
        Effect::Notify(title, body) => {
            assert_eq!(title, "t");
            assert_eq!(body, "b");
        },
        _ => panic!("expected a notification"),
    }
    assert!(app.console.entries().is_empty());
}

#[test]
fn windows_open_on_command() {
    let mut app = state();
    assert!(matches!(app.event_process(Command::About()), Effect::Nothing));
    assert!(app.about.is_open);
    assert!(matches!(app.event_process(Command::PluginManager()), Effect::Nothing));
    assert!(app.plugin_manager_open);
    app.event_process(Command::ShowMessageBox("q".to_string(), "sure?".to_string(), 9));
    assert!(app.messagebox.is_open());
    assert_eq!(app.messagebox.click_ok(), Some(9));
}

#[test]
fn found_update_is_offered_then_installed() {
    let mut app = state();
    let session = UpdateSession::new(Updater::new(release("v1.2.3")));
    app.event_process(Command::UpdaterReady(session));
    assert!(app.updates.is_open);
    assert_eq!(app.updates.version, "v1.2.3");
    assert_eq!(app.updates.link.as_ref().map(|l| l.url.clone()), Some("https://example.org/release".to_string()));
    assert_eq!(app.updates.link.as_ref().map(|l| l.is_hovered), Some(false));
    match app.event_process(Command::Update()) {
        Effect::StartUpdate(Some(session)) => {
            let updater = session.extract().ok().expect("updater");
            assert_eq!(updater.get_latest_version(), "v1.2.3");
        },
        _ => panic!("expected the session"),
    }
    assert!(matches!(app.event_process(Command::Update()), Effect::StartUpdate(None)));
}

#[test]
fn updater_compares_tags_without_their_v() {
    assert!(Updater::new(release("v99.0.0")).is_update_available());
    assert!(Updater::new(release("vv99.0.0")).is_update_available());
    assert!(Updater::new(release("99.0.0")).is_update_available());
    assert!(!Updater::new(release("v0.1.0")).is_update_available());
    assert!(!Updater::new(release("v0.0.1")).is_update_available());
    assert!(!Updater::new(release("nightly")).is_update_available());
}

#[test]
fn updater_picks_the_asset_of_the_platform() {
    let updater = Updater::new(release("v1.0.0"));
    assert_eq!(updater.select_asset("x86_64-linux"), Some(1));
    assert_eq!(updater.select_asset("x86_64"), Some(0));
    assert_eq!(updater.select_asset("aarch64-macos"), None);
    assert_eq!(updater.get_release_link(), "https://example.org/release");
}

#[test]
fn new_binary_is_recognised() {
    assert!(is_binary("mvtool"));
    assert!(is_binary("mvtool.exe"));
    assert!(is_binary("other.exe"));
    assert!(!is_binary("mvtool.pdb"));
    assert!(!is_binary("mvtool2"));
}

#[test]
fn session_gives_back_its_updater() {
    let session = UpdateSession::new(41u32);
    assert_eq!(session.as_ref_concrete(), Some(&41));
    assert_eq!(session.extract().ok(), Some(41));
}

#[test]
fn hotkeys() {
    assert_eq!(hotkey_action(HotKey::F1, true, false), Some(HotKeyAction::Copy));
    assert_eq!(hotkey_action(HotKey::F2, true, false), Some(HotKeyAction::StartHook));
    assert_eq!(hotkey_action(HotKey::Escape, true, false), Some(HotKeyAction::Exit));
    assert_eq!(hotkey_action(HotKey::Escape, true, true), None);
    assert_eq!(hotkey_action(HotKey::F1, false, false), None);
    assert_eq!(hotkey_action(HotKey::Other, true, false), None);
}

#[test]
fn shared_data_reads_what_was_written() {
    let mut data = SharedData::new(Root { projects: vec![] });
    assert!(data.read().projects.is_empty());
    data.write().projects.push(Project { name: "p".to_string(), selected: true, destination_path: String::new(), configures: vec![] });
    assert_eq!(data.read().projects.len(), 1);
    assert_eq!(data.read().projects[0].name, "p");
}

#[test]
fn settings_round_trip() {
    let setting = ApplicationSetting { url_repository: "https://api.example.org/latest".to_string(), try_update: false };
    let mut buffer = String::from("# settings\n");
    setting.write(&mut buffer);
    assert_eq!(buffer, "# settings\nurl_repository=https://api.example.org/latest\ntry_update=false\n");
    let mut read = ApplicationSetting::default();
    assert!(read.try_update);
    for line in buffer.lines().skip(1) {
        let (key, value) = line.split_once('=').unwrap();
        read.read(key, value);
    }
    assert_eq!(read.url_repository, setting.url_repository);
    assert_eq!(read.try_update, setting.try_update);
}

#[test]
fn settings_ignore_unknown_keys_and_bad_values() {
    let mut setting = ApplicationSetting::default();
    setting.read("try_update", "yes");
    assert!(setting.try_update);
    setting.read("try_update", "false");
    assert!(!setting.try_update);
    setting.read("try_update", "True");
    assert!(!setting.try_update);
    setting.read("colour", "blue");
    assert_eq!(setting.url_repository, "");
    setting.read("url_repository", "");
    assert_eq!(setting.url_repository, "");
    setting.read("url_repository", "x=y");
    assert_eq!(setting.url_repository, "x=y");
}
