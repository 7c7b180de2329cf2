use frpdesk::state::AppView;
use frpdesk::types::{Action, Discovered, PreCheckResult};

fn view(registered: bool) -> AppView {
    let check = if registered {
        PreCheckResult::Registered
    } else {
        PreCheckResult::NotRegistered
    };
    AppView::new(check, Ok(Vec::new()), true, Vec::new(), false)
}

fn found(name: &str, pid: u32, alive: bool) -> Discovered {
    Discovered { name: name.to_string(), pid, alive }
}

fn key(name: &str) -> String {
    name.to_string()
}

fn searches(actions: &Vec<Action>) -> bool {
    actions.contains(&Action::FindProcesses)
}

#[test]
fn the_start_waits_for_the_first_check() {
    let (_, actions) = AppView::start_health_monitor();
    assert_eq!(actions, vec![Action::WaitProcessChanged]);
}

#[test]
fn a_signal_restarts_the_count() {
    let mut v = view(true);
    let (mut monitor, _) = AppView::start_health_monitor();
    let signal = 5;
    for check in 1..=20 {
        let actions = v.health_check(&mut monitor, check == signal, &Vec::new());
        let expected = if check < signal {
            check % 3 == 0
        } else {
            (check - signal) % 3 == 0
        };
        assert_eq!(searches(&actions), expected, "check {}", check);
    }
}

#[test]
fn every_third_check_searches() {
    let mut v = view(true);
    let (mut monitor, _) = AppView::start_health_monitor();
    for round in 1..=9 {
        let actions = v.health_check(&mut monitor, false, &Vec::new());
        if round % 3 == 0 {
            assert_eq!(actions, vec![Action::FindProcesses, Action::WaitProcessChanged]);
        } else {
            assert_eq!(actions, vec![Action::WaitProcessChanged]);
        }
    }
}

#[test]
fn a_signal_searches_at_once() {
    let mut v = view(true);
    let (mut monitor, _) = AppView::start_health_monitor();
    assert_eq!(
        v.health_check(&mut monitor, true, &Vec::new()),
        vec![Action::FindProcesses, Action::WaitProcessChanged]
    );
    assert_eq!(
        v.health_check(&mut monitor, false, &Vec::new()),
        vec![Action::WaitProcessChanged]
    );
}

#[test]
fn without_the_service_nothing_is_searched() {
    let mut v = view(false);
    let (mut monitor, _) = AppView::start_health_monitor();
    for _ in 0..5 {
        assert_eq!(
            v.health_check(&mut monitor, true, &Vec::new()),
            vec![Action::WaitProcessChanged]
        );
    }
    v.service_registered = true;
    assert_eq!(
        v.health_check(&mut monitor, false, &Vec::new()),
        vec![Action::FindProcesses, Action::WaitProcessChanged]
    );
}

#[test]
fn exited_processes_are_dropped() {
    let mut v = view(true);
    v.running.insert(key("web"), 1);
    v.running.insert(key("db"), 2);
    v.stopped_configs.insert(&key("web"));
    let (mut monitor, _) = AppView::start_health_monitor();
    assert_eq!(
        v.health_check(&mut monitor, true, &vec![key("web")]),
        vec![Action::Notify, Action::FindProcesses, Action::WaitProcessChanged]
    );
    assert_eq!(v.running.get(&key("web")), None);
    assert_eq!(v.running.get(&key("db")), Some(2));
    assert!(v.stopped_configs.contains(&key("web")));
}

#[test]
fn living_processes_are_taken_over() {
    let mut v = view(true);
    v.running.insert(key("web"), 1);
    v.stopped_configs.insert(&key("db"));
    v.stopped_configs.insert(&key("web"));
    v.stopped_configs.insert(&key("dead"));
    let list = vec![
        found("web", 9, true),
        found("db", 2, true),
        found("db", 3, true),
        found("dead", 4, false),
    ];
    assert_eq!(v.health_processes_found(&list, true), vec![Action::Notify]);
    assert_eq!(v.running.get(&key("web")), Some(1));
    assert_eq!(v.running.get(&key("db")), Some(2));
    assert_eq!(v.running.get(&key("dead")), None);
    assert!(!v.stopped_configs.contains(&key("db")));
    assert!(v.stopped_configs.contains(&key("web")));
    assert!(v.stopped_configs.contains(&key("dead")));
    assert_eq!(v.health_processes_found(&list, true), Vec::new());
}

#[test]
fn nothing_is_taken_over_without_the_program() {
    let mut v = view(true);
    v.stopped_configs.insert(&key("db"));
    assert_eq!(v.health_processes_found(&vec![found("db", 2, true)], false), Vec::new());
    assert!(v.running.is_empty());
    assert!(v.stopped_configs.contains(&key("db")));
}

#[test]
fn one_of_three_checks_in_a_row_searches() {
    for skipped in 0..3 {
        let mut v = view(true);
        let (mut monitor, _) = AppView::start_health_monitor();
        for _ in 0..skipped {
            v.health_check(&mut monitor, false, &Vec::new());
        }
        let count = (0..3)
            .filter(|_| searches(&v.health_check(&mut monitor, false, &Vec::new())))
            .count();
        assert_eq!(count, 1);
    }
}
