use frpdesk::state::AppView;
use frpdesk::types::{Action, Discovered, MessageLevel, PreCheckResult};

fn view(registered: bool) -> AppView {
    let check = if registered {
        PreCheckResult::Registered
    } else {
        PreCheckResult::NotRegistered
    };
    AppView::new(check, Ok(Vec::new()), true, Vec::new(), false)
}

fn found(name: &str, pid: u32, alive: bool) -> Discovered {
    Discovered { name: name.to_string(), pid, alive }
}

fn status() -> Vec<Action> {
    vec![Action::Notify, Action::ClearStatusLater]
}

fn status_and_notify() -> Vec<Action> {
    vec![Action::Notify, Action::ClearStatusLater, Action::Notify]
}

fn key(name: &str) -> String {
    name.to_string()
}

#[test]
fn the_guard_needs_the_service() {
    let mut v = view(false);
    assert_eq!(v.toggle_process_guard(), status());
    assert_eq!(v.status_message.as_deref(), Some("请先注册服务后再开启进程守护"));
    assert_eq!(v.status_level, MessageLevel::Warning);
    assert!(!v.process_guard);
}

#[test]
fn the_guard_is_turned_on() {
    let mut v = view(true);
    assert_eq!(v.toggle_process_guard(), vec![Action::SaveGuardSetting(true)]);
    assert!(v.process_guard);
    assert_eq!(v.guard_setting_saved(Ok(())), vec![Action::StartService]);
    assert!(v.process_guard);
    assert_eq!(v.guard_service_started(Ok(())), status_and_notify());
    assert_eq!(v.status_message.as_deref(), Some("进程守护已开启，服务已启动"));
    assert_eq!(v.guard_service_started(Err("no".to_string())), status_and_notify());
    assert_eq!(v.status_message.as_deref(), Some("启动服务失败: no"));
    assert_eq!(v.status_level, MessageLevel::Error);
}

#[test]
fn the_guard_is_turned_off_again() {
    let mut v = view(true);
    v.toggle_process_guard();
    assert_eq!(v.toggle_process_guard(), vec![Action::SaveGuardSetting(false)]);
    assert!(!v.process_guard);
    assert_eq!(
        v.guard_setting_saved(Ok(())),
        vec![
            Action::SignalGuardChanged,
            Action::Notify,
            Action::ClearStatusLater,
            Action::Notify
        ]
    );
    assert_eq!(v.status_message.as_deref(), Some("进程守护已关闭"));
}

#[test]
fn a_setting_that_cannot_be_stored_is_reported() {
    let mut v = view(true);
    v.toggle_process_guard();
    assert_eq!(v.guard_setting_saved(Err("ro".to_string())), status_and_notify());
    assert_eq!(v.status_message.as_deref(), Some("保存设置失败: ro"));
    assert!(v.process_guard);
}

#[test]
fn registering_the_service() {
    let mut v = view(false);
    v.stopped_configs.insert(&key("web"));
    v.status_message = Some("old".to_string());
    assert_eq!(v.install_service(), vec![Action::Notify, Action::InstallService]);
    assert!(v.is_processing);
    assert_eq!(v.status_message, None);
    assert_eq!(v.service_installed(Ok(())), status_and_notify());
    assert!(v.service_registered);
    assert!(!v.is_processing);
    assert!(!v.stopped_configs.contains(&key("web")));
    assert_eq!(v.status_message.as_deref(), Some("注册成功，重启电脑后生效"));
}

#[test]
fn a_failed_registration_changes_nothing() {
    let mut v = view(false);
    v.stopped_configs.insert(&key("web"));
    v.install_service();
    assert_eq!(v.service_installed(Err("denied".to_string())), status_and_notify());
    assert!(!v.service_registered);
    assert!(v.stopped_configs.contains(&key("web")));
    assert_eq!(v.status_message.as_deref(), Some("注册失败：denied"));
}

#[test]
fn removing_the_service_keeps_the_processes() {
    let mut v = view(true);
    v.process_guard = true;
    v.running.insert(key("web"), 1);
    v.stopped_configs.insert(&key("db"));
    assert_eq!(v.uninstall_service(), vec![Action::Notify, Action::UninstallService]);
    assert_eq!(
        v.service_uninstalled(Ok(())),
        vec![
            Action::DropGuardSetting,
            Action::SendGuardCommand(key("CLEAR")),
            Action::FindProcessesAfterUninstall
        ]
    );
    assert!(!v.service_registered);
    assert!(!v.process_guard);
    assert!(!v.stopped_configs.contains(&key("db")));
    let list = vec![
        found("web", 5, true),
        found("db", 6, false),
        found("db", 7, true),
        found("db", 8, true),
    ];
    assert_eq!(v.uninstall_processes_found(&list, true), status_and_notify());
    assert_eq!(v.running.get(&key("web")), Some(1));
    assert_eq!(v.running.get(&key("db")), Some(7));
    assert_eq!(v.status_message.as_deref(), Some("已注销"));
}

#[test]
fn without_the_program_no_process_is_taken_over() {
    let mut v = view(true);
    v.uninstall_processes_found(&vec![found("db", 7, true)], false);
    assert!(v.running.is_empty());
}

#[test]
fn a_failed_removal_changes_nothing() {
    let mut v = view(true);
    v.process_guard = true;
    v.uninstall_service();
    assert_eq!(v.service_uninstalled(Err("busy".to_string())), status_and_notify());
    assert!(v.service_registered);
    assert!(v.process_guard);
    assert!(!v.is_processing);
    assert_eq!(v.status_message.as_deref(), Some("注销失败：busy"));
}

#[test]
fn the_end_clears_the_marks_of_the_guard() {
    assert_eq!(
        view(true).closing_actions(),
        vec![Action::SendGuardCommand(key("CLEAR"))]
    );
}
