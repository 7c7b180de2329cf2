use frpdesk::preferences::{log_filter, AppSettings};
use frpdesk::startup::{log_level_names, log_level_position, position, run_app};
use frpdesk::state::AppView;
use frpdesk::table::{NameSet, ProcessTable};
use frpdesk::types::{
    Action, Discovered, FrpcConfigMeta, LogFilter, MessageLevel, Page, PreCheckResult,
};

fn found(name: &str, pid: u32, alive: bool) -> Discovered {
    Discovered { name: name.to_string(), pid, alive }
}

fn key(name: &str) -> String {
    name.to_string()
}

fn settings(level: &str) -> AppSettings {
    AppSettings { process_guard: true, log_level: level.to_string() }
}

fn status() -> Vec<Action> {
    vec![Action::Notify, Action::ClearStatusLater]
}

#[test]
fn the_state_at_the_start() {
    let config = FrpcConfigMeta {
        name: key("web"),
        auto_start: true,
        server_addr: key("srv"),
        proxies: Vec::new(),
    };
    let list = vec![found("a", 1, true), found("b", 2, false), found("a", 3, true)];
    let v = AppView::new(PreCheckResult::Registered, Ok(vec![config]), true, list, true);
    assert_eq!(v.page, Page::ConfigList);
    assert!(v.service_registered);
    assert_eq!(v.configs.len(), 1);
    assert_eq!(v.running.get(&key("a")), Some(3));
    assert_eq!(v.running.get(&key("b")), None);
    assert_eq!(v.edit_name, "");
    assert!(!v.edit_auto_start);
    assert_eq!(v.frpc_version, None);
    assert!(!v.is_checking_update && !v.is_downloading && !v.is_processing);
    assert_eq!(v.status_message, None);
    assert_eq!(v.status_level, MessageLevel::Info);
    assert_eq!(v.config_page, 0);
    assert!(v.process_guard);
}

#[test]
fn a_start_with_nothing() {
    let v = AppView::new(
        PreCheckResult::NotRegistered,
        Err("no access".to_string()),
        false,
        vec![found("a", 1, true)],
        false,
    );
    assert!(!v.service_registered);
    assert!(v.configs.is_empty());
    assert!(v.running.is_empty());
    assert!(!v.process_guard);
}

#[test]
fn the_application_is_put_together() {
    let themes = vec![key("Light"), key("Dark"), key("Dark")];
    let app = run_app(
        PreCheckResult::Registered,
        Ok(Vec::new()),
        false,
        Vec::new(),
        settings("WARN"),
        &themes,
        &key("Dark"),
    );
    assert_eq!(app.theme_index, Some(1));
    assert_eq!(app.log_levels, vec!["off", "error", "warn", "info", "debug", "trace"]);
    assert_eq!(app.log_level_index, Some(2));
    assert_eq!(app.actions, vec![Action::DetectVersion, Action::WaitProcessChanged]);
    assert!(app.view.process_guard);
    let other = run_app(
        PreCheckResult::Registered,
        Ok(Vec::new()),
        false,
        Vec::new(),
        settings("loud"),
        &themes,
        &key("Blue"),
    );
    assert_eq!(other.theme_index, None);
    assert_eq!(other.log_level_index, None);
}

#[test]
fn offered_levels_stand_for_filters() {
    let filters = [
        LogFilter::Off,
        LogFilter::Error,
        LogFilter::Warn,
        LogFilter::Info,
        LogFilter::Debug,
        LogFilter::Trace,
    ];
    let levels = log_level_names();
    assert_eq!(levels.len(), filters.len());
    for i in 0..levels.len() {
        assert_eq!(log_filter(&levels[i]), filters[i]);
        assert_eq!(log_level_position(&levels[i]), Some(i));
    }
    assert_eq!(log_filter(&key("verbose")), LogFilter::Info);
    assert_eq!(log_filter(&key("OFF")), LogFilter::Info);
    assert_eq!(position(&levels, &key("verbose")), None);
}

#[test]
fn a_log_level_is_set_and_stored() {
    let mut v = AppView::new(PreCheckResult::Registered, Ok(Vec::new()), true, Vec::new(), false);
    assert_eq!(v.on_log_level_selected(None), Vec::new());
    assert_eq!(
        v.on_log_level_selected(Some(key("DeBuG"))),
        vec![Action::SetLogLevel { filter: LogFilter::Debug, level: key("debug") }]
    );
    assert_eq!(
        v.on_log_level_selected(Some(key("ΌΣ"))),
        vec![Action::SetLogLevel { filter: LogFilter::Info, level: key("ός") }]
    );
    assert_eq!(v.log_level_set(key("debug"), Ok(())), vec![Action::SaveLogLevel(key("debug"))]);
    assert_eq!(v.log_level_saved("debug", Ok(())), status());
    assert_eq!(v.status_message.as_deref(), Some("日志级别已切换为 'debug'"));
    assert_eq!(v.log_level_set(key("debug"), Err("locked".to_string())), status());
    assert_eq!(v.status_message.as_deref(), Some("切换日志级别失败：locked"));
    assert_eq!(v.log_level_saved("debug", Err("ro".to_string())), status());
    assert_eq!(v.status_message.as_deref(), Some("保存设置失败：ro"));
    assert_eq!(v.status_level, MessageLevel::Error);
}

#[test]
fn a_theme_is_applied_and_kept() {
    let mut v = AppView::new(PreCheckResult::Registered, Ok(Vec::new()), true, Vec::new(), false);
    assert_eq!(v.on_theme_selected(None), Vec::new());
    assert_eq!(
        v.on_theme_selected(Some(key("Dark"))),
        vec![
            Action::ApplyTheme(key("Dark")),
            Action::SaveThemePreference(key("Dark")),
            Action::Notify,
            Action::ClearStatusLater
        ]
    );
    assert_eq!(v.status_message.as_deref(), Some("主题已切换为 'Dark'"));
}

#[test]
fn a_setting_changes_alone() {
    let s = settings("warn").with_process_guard(false);
    assert_eq!(s, AppSettings { process_guard: false, log_level: key("warn") });
    let t = settings("warn").with_log_level(key("off"));
    assert_eq!(t, AppSettings { process_guard: true, log_level: key("off") });
}

#[test]
fn the_process_table_has_one_process_for_a_name() {
    let mut t = ProcessTable::new();
    assert!(t.is_empty());
    t.insert(key("a"), 1);
    t.insert(key("b"), 2);
    t.insert(key("a"), 3);
    assert_eq!(t.list().len(), 2);
    assert_eq!(t.get(&key("a")), Some(3));
    assert_eq!(t.remove(&key("a")), Some(3));
    assert_eq!(t.remove(&key("a")), None);
    assert!(!t.contains_key(&key("a")));
    let gone = t.drain();
    assert_eq!(gone.len(), 1);
    assert_eq!((gone[0].name.as_str(), gone[0].pid), ("b", 2));
    assert!(t.is_empty());
}

#[test]
fn the_name_set_holds_each_name_once() {
    let mut s = NameSet::new();
    s.insert(&key("a"));
    s.insert(&key("a"));
    s.insert(&key("b"));
    assert!(s.contains(&key("a")));
    s.remove(&key("a"));
    assert!(!s.contains(&key("a")));
    assert!(s.contains(&key("b")));
    s.clear();
    assert!(!s.contains(&key("b")));
}
