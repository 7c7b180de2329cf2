use frpdesk::state::AppView;
use frpdesk::types::{Action, Discovered, MessageLevel, PreCheckResult};
use frpdesk::update::{progress_percent, version_text, VersionOutput};

fn view() -> AppView {
    AppView::new(PreCheckResult::NotRegistered, Ok(Vec::new()), true, Vec::new(), false)
}

fn found(name: &str, pid: u32) -> Discovered {
    Discovered { name: name.to_string(), pid, alive: true }
}

fn status() -> Vec<Action> {
    vec![Action::Notify, Action::ClearStatusLater]
}

fn send(text: &str) -> Action {
    Action::SendGuardCommand(text.to_string())
}

fn key(name: &str) -> String {
    name.to_string()
}

#[test]
fn an_update_begins_with_a_check() {
    let mut v = view();
    v.is_downloading = true;
    v.download_percent = 50;
    v.status_message = Some("old".to_string());
    assert_eq!(v.start_download(), vec![Action::Notify, Action::CheckUpdate]);
    assert!(v.is_checking_update);
    assert!(!v.is_downloading);
    assert_eq!(v.download_percent, 0);
    assert_eq!(v.status_message, None);
}

#[test]
fn without_a_newer_version_the_update_ends() {
    let mut v = view();
    v.start_download();
    assert_eq!(v.update_checked(Ok(None)), status());
    assert_eq!(v.status_message.as_deref(), Some("已经是最新版本"));
    assert_eq!(v.status_level, MessageLevel::Success);
    assert!(!v.is_checking_update);
    assert_eq!(v.update_checked(Err("offline".to_string())), status());
    assert_eq!(v.status_message.as_deref(), Some("检查版本失败：offline"));
    assert_eq!(v.status_level, MessageLevel::Error);
}

#[test]
fn running_processes_need_consent() {
    let mut v = view();
    v.running.insert(key("web"), 1);
    assert_eq!(
        v.update_checked(Ok(Some("v1".to_string()))),
        vec![Action::Notify, Action::ConfirmUpdate]
    );
    let mut w = view();
    assert_eq!(
        w.update_checked(Ok(Some("v1".to_string()))),
        vec![Action::Notify, Action::FindProcessesForUpdate]
    );
    assert_eq!(w.update_processes_found(&vec![found("x", 1)]), vec![Action::ConfirmUpdate]);
    assert!(!w.is_downloading);
    assert_eq!(
        w.update_processes_found(&Vec::new()),
        vec![Action::Notify, Action::FindProcessesForDownload(Vec::new())]
    );
    assert!(w.is_downloading);
}

#[test]
fn an_update_stops_everything_and_starts_it_again() {
    let mut v = view();
    v.running.insert(key("web"), 1);
    v.running.insert(key("db"), 2);
    v.stopped_configs.insert(&key("old"));
    v.stopped_configs.insert(&key("other"));
    let actions = v.do_download();
    assert_eq!(actions.len(), 6);
    assert_eq!(actions[0], Action::Notify);
    assert!(actions.contains(&Action::StopProcess { name: key("web"), pid: 1 }));
    assert!(actions.contains(&Action::StopProcess { name: key("db"), pid: 2 }));
    assert!(actions.contains(&send("STOP:web")));
    assert!(actions.contains(&send("STOP:db")));
    assert!(v.running.is_empty());
    let names = match actions.into_iter().last() {
        Some(Action::FindProcessesForDownload(names)) => names,
        other => panic!("unexpected {:?}", other),
    };
    let mut sorted = names.clone();
    sorted.sort();
    assert_eq!(sorted, vec![key("db"), key("web")]);

    let list = vec![found("web", 1), found("other", 3), found("other", 4)];
    let actions = v.download_processes_found(names.clone(), &list);
    let mut all = names;
    all.push(key("other"));
    assert_eq!(
        actions,
        vec![
            Action::KillProcess { name: key("web"), pid: 1 },
            send("STOP:other"),
            Action::KillProcess { name: key("other"), pid: 3 },
            Action::KillProcess { name: key("other"), pid: 4 },
            Action::StartDownload(all.clone())
        ]
    );
    for name in &all {
        assert!(v.stopped_configs.contains(name));
    }

    let actions = v.download_finished(&all, Err("404".to_string()));
    let mut expected = status();
    expected.extend(all.iter().map(|n| Action::Restart(n.clone())));
    expected.push(Action::Notify);
    assert_eq!(actions, expected);
    assert_eq!(v.status_message.as_deref(), Some("更新失败：404"));
    assert!(!v.is_downloading);

    for name in &all {
        assert_eq!(
            v.restart_after_download(name),
            vec![
                send(&format!("START:{}", name)),
                send(&format!("START:{}", name)),
                Action::CheckExecutable(name.clone())
            ]
        );
        assert!(!v.stopped_configs.contains(name));
    }
    assert!(v.stopped_configs.contains(&key("old")));
}

#[test]
fn two_processes_of_one_name_are_both_killed() {
    let mut v = view();
    assert_eq!(
        v.do_download(),
        vec![Action::Notify, Action::FindProcessesForDownload(Vec::new())]
    );
    assert_eq!(
        v.download_processes_found(Vec::new(), &vec![found("a", 1), found("a", 2)]),
        vec![
            send("STOP:a"),
            Action::KillProcess { name: key("a"), pid: 1 },
            Action::KillProcess { name: key("a"), pid: 2 },
            Action::StartDownload(vec![key("a")])
        ]
    );
    assert!(v.stopped_configs.contains(&key("a")));
}

#[test]
fn a_further_process_of_a_stopped_name_is_killed() {
    let mut v = view();
    v.running.insert(key("a"), 1);
    v.do_download();
    assert_eq!(
        v.download_processes_found(vec![key("a")], &vec![found("a", 7)]),
        vec![
            Action::KillProcess { name: key("a"), pid: 7 },
            Action::StartDownload(vec![key("a")])
        ]
    );
}

#[test]
fn a_successful_update_asks_for_the_version() {
    let mut v = view();
    v.is_downloading = true;
    assert_eq!(
        v.download_finished(&vec![key("web")], Ok(())),
        vec![
            Action::Notify,
            Action::ClearStatusLater,
            Action::DetectVersion,
            Action::Restart(key("web")),
            Action::Notify
        ]
    );
    assert_eq!(v.status_message.as_deref(), Some("frpc 更新成功"));
}

#[test]
fn progress_is_shown_while_downloading() {
    let mut v = view();
    assert_eq!(v.download_progress(10), (false, Vec::new()));
    assert_eq!(v.download_percent, 0);
    v.is_downloading = true;
    assert_eq!(v.download_progress(10), (true, vec![Action::Notify]));
    assert_eq!(v.download_percent, 10);
}

#[test]
fn percent_of_a_download() {
    assert_eq!(progress_percent(0, 0), 0);
    assert_eq!(progress_percent(5, 0), 0);
    assert_eq!(progress_percent(u64::MAX, 0), 0);
    assert_eq!(progress_percent(0, 3), 0);
    assert_eq!(progress_percent(1, 3), 33);
    assert_eq!(progress_percent(2, 3), 66);
    assert_eq!(progress_percent(999, 1000), 99);
    assert_eq!(progress_percent(3, 3), 100);
    assert_eq!(progress_percent(7, 3), 100);
    assert_eq!(progress_percent(u64::MAX / 100, u64::MAX), 0);
}

#[test]
fn version_comes_from_the_first_output_that_says_something() {
    assert_eq!(version_text(" 0.58.1\n", "warn"), "0.58.1");
    assert_eq!(version_text(" \n", " 0.5 \r\n"), "0.5");
    assert_eq!(version_text("", "\t"), "未知版本");
}

#[test]
fn version_of_a_program_that_is_there() {
    let mut v = view();
    assert_eq!(v.detect_frpc_version(true), vec![Action::RunVersionCommand]);
    let out = VersionOutput { stdout: b"0.58.1\n".to_vec(), stderr: Vec::new() };
    assert_eq!(v.version_reported(Ok(out)), vec![Action::Notify]);
    assert_eq!(v.frpc_version.as_deref(), Some("0.58.1"));
    let odd = VersionOutput { stdout: vec![b' '], stderr: vec![b'v', 0xff, b'1', b'\n'] };
    v.version_reported(Ok(odd));
    assert_eq!(v.frpc_version.as_deref(), Some("v\u{fffd}1"));
    v.version_reported(Err("denied".to_string()));
    assert_eq!(v.frpc_version.as_deref(), Some("无法运行"));
}

#[test]
fn version_of_a_program_that_is_not_there() {
    let mut v = view();
    v.frpc_version = Some("0.1".to_string());
    assert_eq!(v.detect_frpc_version(false), vec![Action::Notify]);
    assert_eq!(v.frpc_version, None);
}
