use frpdesk::guard::{clear_command, start_command, stop_command, track_command};
use frpdesk::state::AppView;
use frpdesk::types::{Action, Discovered, MessageLevel, Page, PreCheckResult};

fn unregistered() -> AppView {
    AppView::new(PreCheckResult::NotRegistered, Ok(Vec::new()), true, Vec::new(), false)
}

fn registered() -> AppView {
    AppView::new(PreCheckResult::Registered, Ok(Vec::new()), true, Vec::new(), false)
}

fn found(name: &str, pid: u32, alive: bool) -> Discovered {
    Discovered { name: name.to_string(), pid, alive }
}

fn status() -> Vec<Action> {
    vec![Action::Notify, Action::ClearStatusLater]
}

fn send(text: &str) -> Action {
    Action::SendGuardCommand(text.to_string())
}

fn key(name: &str) -> String {
    name.to_string()
}

#[test]
fn texts_of_the_guard_commands() {
    assert_eq!(start_command("web"), "START:web");
    assert_eq!(stop_command("web"), "STOP:web");
    assert_eq!(track_command("web", 0), "TRACK:web:0");
    assert_eq!(track_command("web", 4294967295), "TRACK:web:4294967295");
    assert_eq!(clear_command(), "CLEAR");
}

#[test]
fn guard_commands_differ() {
    let mut texts = vec![
        start_command("a"),
        start_command("a:1"),
        stop_command("a"),
        track_command("a", 1),
        track_command("a:1", 1),
        track_command("a", 11),
        clear_command(),
    ];
    let n = texts.len();
    texts.sort();
    texts.dedup();
    assert_eq!(texts.len(), n);
}

#[test]
fn a_start_without_the_service() {
    let mut view = unregistered();
    view.stopped_configs.insert(&key("web"));
    view.stopped_configs.insert(&key("db"));
    assert_eq!(
        view.start_config("web"),
        vec![send("START:web"), Action::CheckExecutable(key("web"))]
    );
    assert!(!view.stopped_configs.contains(&key("web")));
    assert!(view.stopped_configs.contains(&key("db")));
    assert_eq!(
        view.start_config_checked("web", true),
        vec![Action::Notify, Action::SpawnProcess(key("web"))]
    );
    assert!(view.is_processing);
    assert_eq!(
        view.process_spawned("web", Ok(42)),
        vec![
            Action::Notify,
            Action::WatchConnection(key("web")),
            Action::CheckExitSoon(key("web"))
        ]
    );
    assert!(!view.is_processing);
    assert_eq!(view.running.get(&key("web")), Some(42));
    assert_eq!(view.start_config("web"), Vec::new());
}

#[test]
fn a_start_with_the_service_is_tracked() {
    let mut view = registered();
    assert_eq!(view.start_config("web"), vec![Action::FindProcess(key("web"))]);
    assert_eq!(
        view.start_config_found("web", &vec![found("db", 1, true)], true),
        vec![send("START:web"), Action::CheckExecutable(key("web"))]
    );
    view.start_config_checked("web", true);
    assert_eq!(
        view.process_spawned("web", Ok(42)),
        vec![
            send("TRACK:web:42"),
            Action::Notify,
            Action::WatchConnection(key("web")),
            Action::CheckExitSoon(key("web"))
        ]
    );
}

#[test]
fn a_process_of_the_service_is_taken_over() {
    let mut view = registered();
    let list = vec![found("db", 1, true), found("web", 2, true), found("web", 3, true)];
    assert_eq!(view.start_config_found("web", &list, true), vec![Action::Notify]);
    assert_eq!(view.running.get(&key("web")), Some(2));
    assert_eq!(view.running.get(&key("db")), None);
}

#[test]
fn a_dead_first_match_is_not_taken_over() {
    let mut view = registered();
    let list = vec![found("web", 2, false), found("web", 3, true)];
    assert_eq!(
        view.start_config_found("web", &list, true),
        vec![send("START:web"), Action::CheckExecutable(key("web"))]
    );
    assert!(view.running.is_empty());
    let alive = vec![found("web", 2, true)];
    assert_eq!(
        view.start_config_found("web", &alive, false),
        vec![send("START:web"), Action::CheckExecutable(key("web"))]
    );
}

#[test]
fn a_start_needs_the_program() {
    let mut view = unregistered();
    assert_eq!(view.start_config_checked("web", false), status());
    assert_eq!(view.status_message.as_deref(), Some("请先在设置中下载 frpc 程序"));
    assert_eq!(view.status_level, MessageLevel::Warning);
    assert!(!view.is_processing);
}

#[test]
fn a_failed_start_is_reported() {
    let mut view = unregistered();
    view.start_config_checked("web", true);
    assert_eq!(view.process_spawned("web", Err("denied".to_string())), status());
    assert_eq!(view.status_message.as_deref(), Some("启动失败：denied"));
    assert!(view.running.is_empty());
    assert!(!view.is_processing);
}

#[test]
fn connections_of_running_processes_are_reported() {
    let mut view = unregistered();
    assert_eq!(view.connection_reported("web", true), Vec::new());
    view.running.insert(key("web"), 1);
    assert_eq!(view.connection_reported("web", false), Vec::new());
    assert_eq!(view.connection_reported("web", true), status());
    assert_eq!(view.status_message.as_deref(), Some("'web' 连接成功"));
}

#[test]
fn an_early_exit_is_reported_once() {
    let mut view = unregistered();
    view.running.insert(key("web"), 1);
    assert_eq!(view.exit_checked("web", None), Vec::new());
    assert_eq!(view.exit_checked("web", Some("1".to_string())), status());
    assert_eq!(
        view.status_message.as_deref(),
        Some("'web' 启动失败，请检查配置是否正确 (退出码: 1)")
    );
    assert!(view.running.is_empty());
    view.status_message = None;
    assert_eq!(view.exit_checked("web", Some("1".to_string())), Vec::new());
    assert_eq!(view.status_message, None);
}

#[test]
fn a_stop_marks_and_stops() {
    let mut view = unregistered();
    view.running.insert(key("web"), 9);
    view.running.insert(key("db"), 10);
    assert_eq!(
        view.stop_config("web"),
        vec![
            send("STOP:web"),
            Action::Notify,
            Action::StopInBackground { name: key("web"), pid: 9 }
        ]
    );
    assert!(view.stopped_configs.contains(&key("web")));
    assert_eq!(view.running.get(&key("web")), None);
    assert_eq!(view.running.get(&key("db")), Some(10));
    assert!(view.is_processing);
    assert_eq!(
        view.process_stopped("web", Ok(())),
        vec![Action::Notify, Action::ClearStatusLater, Action::Notify]
    );
    assert_eq!(view.status_message.as_deref(), Some("'web'已停止"));
    assert!(!view.is_processing);
    view.process_stopped("web", Err("timeout".to_string()));
    assert_eq!(view.status_message.as_deref(), Some("停止失败：timeout"));
}

#[test]
fn a_stop_of_what_does_not_run_only_marks() {
    let mut view = unregistered();
    assert_eq!(view.stop_config("web"), vec![send("STOP:web")]);
    assert!(view.stopped_configs.contains(&key("web")));
    assert!(!view.is_processing);
}

#[test]
fn a_stop_undoes_a_start() {
    let mut view = unregistered();
    view.running.insert(key("db"), 10);
    view.start_config("web");
    view.start_config_checked("web", true);
    view.process_spawned("web", Ok(42));
    view.stop_config("web");
    view.process_stopped("web", Ok(()));
    assert_eq!(view.running.list().len(), 1);
    assert_eq!(view.running.get(&key("db")), Some(10));
    assert!(view.stopped_configs.contains(&key("web")));
}

#[test]
fn a_restart_stops_and_starts() {
    let mut view = unregistered();
    view.running.insert(key("web"), 9);
    view.status_message = Some("old".to_string());
    assert_eq!(
        view.restart_config("web"),
        vec![
            send("STOP:web"),
            Action::Notify,
            Action::StopForRestart { name: key("web"), pid: 9 }
        ]
    );
    assert_eq!(view.status_message, None);
    assert!(view.stopped_configs.contains(&key("web")));
    assert_eq!(
        view.restart_stopped("web", Ok(())),
        vec![
            send("START:web"),
            send("START:web"),
            Action::CheckExecutable(key("web")),
            Action::Notify
        ]
    );
    assert!(!view.stopped_configs.contains(&key("web")));
}

#[test]
fn a_restart_with_the_service_looks_for_its_process() {
    let mut view = registered();
    view.running.insert(key("web"), 9);
    view.restart_config("web");
    assert_eq!(
        view.restart_stopped("web", Ok(())),
        vec![send("START:web"), Action::FindProcess(key("web")), Action::Notify]
    );
}

#[test]
fn a_failed_restart_leaves_no_mark() {
    let mut view = unregistered();
    view.running.insert(key("web"), 9);
    view.restart_config("web");
    assert_eq!(
        view.restart_stopped("web", Err("stuck".to_string())),
        vec![
            send("START:web"),
            Action::Notify,
            Action::ClearStatusLater,
            Action::Notify
        ]
    );
    assert_eq!(view.status_message.as_deref(), Some("'web' 重启失败：stuck"));
    assert!(!view.stopped_configs.contains(&key("web")));
    assert!(!view.is_processing);
}

#[test]
fn a_restart_of_what_does_not_run_is_a_start() {
    let mut view = unregistered();
    assert_eq!(
        view.restart_config("web"),
        vec![send("START:web"), Action::CheckExecutable(key("web"))]
    );
}

#[test]
fn pages_and_messages() {
    let mut view = unregistered();
    view.config_page = 2;
    assert_eq!(view.set_status_message("hi".to_string(), MessageLevel::Info), status());
    view.switch_page(Page::Settings);
    assert_eq!(view.status_message, None);
    assert_eq!(view.config_page, 0);
    assert_eq!(view.page, Page::Settings);
    view.config_page = 1;
    assert_eq!(
        view.switch_page_with_message(Page::ConfigList, "done".to_string(), MessageLevel::Success),
        status()
    );
    assert_eq!(view.status_message.as_deref(), Some("done"));
    assert_eq!(view.status_level, MessageLevel::Success);
    assert_eq!(view.config_page, 0);
    assert_eq!(view.status_expired(), vec![Action::Notify]);
    assert_eq!(view.status_message, None);
}

#[test]
fn pages_are_copied_with_their_name() {
    for page in [
        Page::ConfigList,
        Page::ConfigEditor { original_name: None },
        Page::ConfigEditor { original_name: Some(key("web")) },
        Page::Settings,
    ] {
        assert_eq!(page.clone(), page);
    }
}
