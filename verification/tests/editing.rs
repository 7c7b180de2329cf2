use frpdesk::editing::free_copy_name;
use frpdesk::state::AppView;
use frpdesk::types::{
    Action, ConfigEntry, FrpcConfigMeta, MessageLevel, Page, PreCheckResult,
};

fn meta(name: &str) -> FrpcConfigMeta {
    FrpcConfigMeta {
        name: name.to_string(),
        auto_start: false,
        server_addr: String::new(),
        proxies: Vec::new(),
    }
}

fn metas(n: usize) -> Vec<FrpcConfigMeta> {
    (0..n).map(|i| meta(&format!("c{}", i))).collect()
}

fn view_with(configs: Vec<FrpcConfigMeta>) -> AppView {
    AppView::new(PreCheckResult::NotRegistered, Ok(configs), false, Vec::new(), false)
}

fn status() -> Vec<Action> {
    vec![Action::Notify, Action::ClearStatusLater]
}

fn names(list: &[&str]) -> Vec<FrpcConfigMeta> {
    list.iter().map(|n| meta(n)).collect()
}

#[test]
fn copy_names_take_the_first_free_number() {
    assert_eq!(free_copy_name(&names(&[]), "web"), "web-copy");
    assert_eq!(free_copy_name(&names(&["web", "web-copy-2"]), "web"), "web-copy");
    assert_eq!(free_copy_name(&names(&["web", "web-copy"]), "web"), "web-copy-2");
    assert_eq!(
        free_copy_name(&names(&["web-copy", "web-copy-2", "web-copy-4"]), "web"),
        "web-copy-3"
    );
    let many: Vec<FrpcConfigMeta> = (2..=11)
        .map(|i| meta(&format!("web-copy-{}", i)))
        .chain([meta("web-copy")])
        .collect();
    assert_eq!(free_copy_name(&many, "web"), "web-copy-12");
}

#[test]
fn a_copy_of_a_copy_has_a_name_of_its_own() {
    let configs = names(&["web", "web-copy"]);
    assert_eq!(free_copy_name(&configs, "web-copy"), "web-copy-copy");
}

#[test]
fn duplicate_inherits_what_is_known() {
    let source = FrpcConfigMeta {
        name: "web".to_string(),
        auto_start: true,
        server_addr: "1.2.3.4:7000".to_string(),
        proxies: vec!["ssh".to_string(), "http".to_string()],
    };
    let mut view = view_with(vec![source, meta("web-copy")]);
    let actions = view.duplicate_config("web", Ok("serverAddr = 1".to_string()));
    assert_eq!(
        actions,
        vec![Action::SaveCopy(ConfigEntry {
            name: "web-copy-2".to_string(),
            content: "serverAddr = 1".to_string(),
            auto_start: true,
            server_addr: "1.2.3.4:7000".to_string(),
            proxies: vec!["ssh".to_string(), "http".to_string()],
        })]
    );
    assert_eq!(view.status_message, None);
}

#[test]
fn duplicate_of_an_unlisted_configuration_has_defaults() {
    let mut view = view_with(Vec::new());
    let actions = view.duplicate_config("x", Ok("c".to_string()));
    assert_eq!(
        actions,
        vec![Action::SaveCopy(ConfigEntry {
            name: "x-copy".to_string(),
            content: "c".to_string(),
            auto_start: false,
            server_addr: String::new(),
            proxies: Vec::new(),
        })]
    );
}

#[test]
fn duplicate_reports_an_unreadable_source() {
    let mut view = view_with(names(&["web"]));
    assert_eq!(view.duplicate_config("web", Err("gone".to_string())), status());
    assert_eq!(view.status_message.as_deref(), Some("复制失败：gone"));
    assert_eq!(view.status_level, MessageLevel::Error);
}

#[test]
fn a_stored_copy_is_reported() {
    let mut view = view_with(names(&["web"]));
    let actions = view.config_copied("web-copy", Ok(Ok(names(&["web", "web-copy"]))));
    assert_eq!(
        actions,
        vec![Action::Notify, Action::Notify, Action::ClearStatusLater]
    );
    assert_eq!(view.status_message.as_deref(), Some("已复制配置为 'web-copy'"));
    assert_eq!(view.configs.len(), 2);
    assert_eq!(view.config_copied("x", Err("full".to_string())), status());
    assert_eq!(view.status_message.as_deref(), Some("复制失败：full"));
}

#[test]
fn reload_keeps_the_list_on_a_page_that_exists() {
    let mut view = view_with(metas(17));
    view.config_page = 2;
    assert_eq!(view.reload_configs(Ok(metas(17))), vec![Action::Notify]);
    assert_eq!(view.config_page, 2);
    view.reload_configs(Ok(metas(16)));
    assert_eq!(view.config_page, 1);
    view.reload_configs(Ok(metas(8)));
    assert_eq!(view.config_page, 0);
    view.config_page = 5;
    view.reload_configs(Err("no access".to_string()));
    assert_eq!(view.config_page, 0);
    assert!(view.configs.is_empty());
    view.config_page = 9;
    view.reload_configs(Ok(metas(9)));
    assert_eq!(view.config_page, 1);
}

#[test]
fn adding_opens_an_empty_editor() {
    let mut view = view_with(names(&["web"]));
    view.status_message = Some("old".to_string());
    view.config_page = 3;
    let actions = view.open_add_config();
    assert_eq!(
        actions,
        vec![
            Action::SetNameInput(String::new()),
            Action::SetContentInput(String::new())
        ]
    );
    assert_eq!(view.page, Page::ConfigEditor { original_name: None });
    assert!(view.edit_auto_start);
    assert_eq!(view.status_message, None);
    assert_eq!(view.config_page, 0);
}

#[test]
fn editing_shows_what_is_stored() {
    let mut configs = names(&["a", "web", "web"]);
    configs[1].auto_start = true;
    let mut view = view_with(configs);
    let actions = view.open_edit_config("web", Ok("x = 1".to_string()));
    assert_eq!(
        actions,
        vec![
            Action::SetNameInput("web".to_string()),
            Action::SetContentInput("x = 1".to_string())
        ]
    );
    assert_eq!(
        view.page,
        Page::ConfigEditor { original_name: Some("web".to_string()) }
    );
    assert!(view.edit_auto_start);
    view.open_edit_config("unknown", Err("gone".to_string()));
    assert!(!view.edit_auto_start);
    assert_eq!(view.edit_content, "");
    assert_eq!(view.edit_name, "unknown");
}

#[test]
fn bad_names_and_contents_are_refused() {
    let cases = [
        ("", "c", "配置名称不能为空"),
        (" \t ", "c", "配置名称不能为空"),
        ("a b", "c", "配置名称只能包含字母、数字、下划线和连字符"),
        ("a.toml", "c", "配置名称只能包含字母、数字、下划线和连字符"),
        ("服务", "c", "配置名称只能包含字母、数字、下划线和连字符"),
        ("web", "", "配置内容不能为空"),
        ("web", " \n\u{3000}", "配置内容不能为空"),
    ];
    for (name, content, message) in cases {
        let mut view = view_with(Vec::new());
        view.open_edit_config("old", Ok(String::new()));
        assert_eq!(view.save_config(name.to_string(), content.to_string()), status());
        assert_eq!(view.status_message.as_deref(), Some(message));
        assert_eq!(view.status_level, MessageLevel::Error);
        assert_eq!(view.edit_name, name);
        assert_eq!(view.edit_content, content);
        assert_eq!(
            view.page,
            Page::ConfigEditor { original_name: Some("old".to_string()) }
        );
    }
}

#[test]
fn a_new_configuration_needs_a_free_name() {
    let mut view = view_with(Vec::new());
    view.open_add_config();
    assert_eq!(
        view.save_config("  web ".to_string(), "x = 1".to_string()),
        vec![Action::CheckConfigExists("web".to_string())]
    );
    assert_eq!(view.edit_name, "  web ");
    assert_eq!(view.save_config_checked("web", true), status());
    assert_eq!(view.status_message.as_deref(), Some("配置 'web' 已存在"));
    assert_eq!(
        view.save_config_checked("web", false),
        vec![Action::ValidateToml { name: "web".to_string(), content: "x = 1".to_string() }]
    );
}

#[test]
fn saving_under_the_same_name_deletes_nothing() {
    let mut configs = names(&["web"]);
    configs[0].auto_start = true;
    let mut view = view_with(configs);
    view.open_edit_config("web", Ok("x = 1".to_string()));
    assert_eq!(
        view.save_config("web".to_string(), "x = 1".to_string()),
        vec![Action::ValidateToml { name: "web".to_string(), content: "x = 1".to_string() }]
    );
    assert_eq!(
        view.save_config_validated("web", Ok(("srv".to_string(), vec!["p".to_string()]))),
        vec![Action::SaveConfig(ConfigEntry {
            name: "web".to_string(),
            content: "x = 1".to_string(),
            auto_start: true,
            server_addr: "srv".to_string(),
            proxies: vec!["p".to_string()],
        })]
    );
}

#[test]
fn saving_under_another_name_deletes_the_old_one() {
    let mut view = view_with(names(&["web"]));
    view.open_edit_config("web", Ok("x = 1".to_string()));
    assert_eq!(
        view.save_config("site".to_string(), "x = 1".to_string()),
        vec![
            Action::DeleteReplaced("web".to_string()),
            Action::ValidateToml { name: "site".to_string(), content: "x = 1".to_string() }
        ]
    );
}

#[test]
fn saving_outside_the_editor_goes_straight_on() {
    let mut view = view_with(Vec::new());
    assert_eq!(
        view.save_config("web".to_string(), "x".to_string()),
        vec![Action::ValidateToml { name: "web".to_string(), content: "x".to_string() }]
    );
}

#[test]
fn a_failed_save_is_reported() {
    let mut view = view_with(Vec::new());
    view.open_add_config();
    assert_eq!(view.save_config_validated("web", Err("line 1".to_string())), status());
    assert_eq!(view.status_message.as_deref(), Some("保存失败：line 1"));
    assert_eq!(view.config_saved("web", Err("disk full".to_string())), status());
    assert_eq!(view.status_message.as_deref(), Some("保存失败：disk full"));
    assert_eq!(view.page, Page::ConfigEditor { original_name: None });
}

#[test]
fn a_saved_configuration_leads_back_to_the_list() {
    let mut view = view_with(Vec::new());
    view.open_add_config();
    let actions = view.config_saved("web", Ok(Ok(names(&["web"]))));
    assert_eq!(
        actions,
        vec![Action::Notify, Action::Notify, Action::ClearStatusLater]
    );
    assert_eq!(view.page, Page::ConfigList);
    assert_eq!(view.status_message.as_deref(), Some("配置 'web' 保存成功"));
    assert_eq!(view.status_level, MessageLevel::Success);
    assert_eq!(view.configs, names(&["web"]));
}

#[test]
fn deleting_stops_the_process_first() {
    let mut view = view_with(names(&["web", "db"]));
    view.running.insert("web".to_string(), 7);
    assert_eq!(
        view.delete_config("web"),
        vec![
            Action::StopProcess { name: "web".to_string(), pid: 7 },
            Action::DeleteConfig("web".to_string())
        ]
    );
    assert!(view.running.is_empty());
    assert_eq!(view.delete_config("db"), vec![Action::DeleteConfig("db".to_string())]);
    view.config_deleted("web", Ok(Ok(names(&["db"]))));
    assert_eq!(view.status_message.as_deref(), Some("配置 'web' 已删除"));
    assert_eq!(view.configs.len(), 1);
    assert_eq!(view.config_deleted("db", Err("busy".to_string())), status());
    assert_eq!(view.status_message.as_deref(), Some("删除失败：busy"));
}
