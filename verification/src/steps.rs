//! What each operation does in every state: what it changes, what it keeps, and
//! what it asks for.
use crate::editing::{config_names, copy_name, first_config, total_pages};
use crate::monitor::{adopted, discovery_due, newly_adopted};
use crate::preferences::filter_of;
use crate::processes::first_named;
use crate::state::{restored, status_actions, AppModel, Step};
use crate::table::{process_names, ProcessModel};
use crate::text::{decimal, is_blank, is_config_name, trimmed};
use crate::types::{
    ActionModel, ConfigModel, DiscoveredModel, EntryModel, MessageLevel, PageModel, PreCheckResult,
};
use crate::update::{found_names, kill_actions, stop_actions, untracked};
use vstd::prelude::*;

verus! {

// The start and the pages.

/// The application opens on the list of all stored configurations, with nothing
/// going on, nothing marked and no message. The service counts as registered
/// just where it was found so.
pub proof fn law_initial_state(
    pre_check: PreCheckResult,
    configs: Seq<ConfigModel>,
    frpc_present: bool,
    found: Seq<DiscoveredModel>,
    process_guard: bool,
)
    ensures
        ({
            let s = AppModel::initial(pre_check, configs, frpc_present, found, process_guard);
            &&& s.page is ConfigList && s.config_page == 0
            &&& s.service_registered <==> pre_check is Registered
            &&& s.configs == configs
            &&& s.stopped_configs == Set::<Seq<char>>::empty()
            &&& s.edit_name.len() == 0 && s.edit_content.len() == 0 && !s.edit_auto_start
            &&& s.frpc_version is None && s.status_message is None && s.status_level is Info
            &&& !s.is_checking_update && !s.is_downloading && !s.is_processing
            &&& s.download_percent == 0
            &&& s.process_guard == process_guard
        }),
{
}

/// Whether the living process at `i` is the last one found for its name.
pub open spec fn last_alive_at(found: Seq<DiscoveredModel>, i: int) -> bool {
    &&& 0 <= i < found.len()
    &&& found[i].alive
    &&& forall|j: int|
        i < j < found.len() && (#[trigger] found[j]).alive ==> found[j].name != found[i].name
}

/// With frpc there, the application opens with just the processes that were
/// found alive, of several for one name the last; what the service is does not
/// matter. Without frpc it opens with none.
pub proof fn law_initial_processes(
    pre_check: PreCheckResult,
    configs: Seq<ConfigModel>,
    found: Seq<DiscoveredModel>,
    process_guard: bool,
)
    ensures
        AppModel::initial(pre_check, configs, false, found, process_guard).running == Map::<
            Seq<char>,
            u32,
        >::empty(),
        ({
            let running = AppModel::initial(
                pre_check,
                configs,
                true,
                found,
                process_guard,
            ).running;
            &&& forall|i: int| #[trigger]
                last_alive_at(found, i) ==> running.contains_key(found[i].name)
                    && running[found[i].name] == found[i].pid
            &&& forall|name: Seq<char>| #[trigger]
                running.contains_key(name) ==> exists|i: int| #[trigger]
                    last_alive_at(found, i) && found[i].name == name
            &&& forall|i: int|
                0 <= i < found.len() && (#[trigger] found[i]).alive ==> running.contains_key(
                    found[i].name,
                )
        }),
{
    lemma_restored_last(found);
}

proof fn lemma_restored_last(found: Seq<DiscoveredModel>)
    ensures
        forall|i: int| #[trigger]
            last_alive_at(found, i) ==> restored(found).contains_key(found[i].name) && restored(
                found,
            )[found[i].name] == found[i].pid,
        forall|name: Seq<char>| #[trigger]
            restored(found).contains_key(name) ==> exists|i: int| #[trigger]
                last_alive_at(found, i) && found[i].name == name,
        forall|i: int|
            0 <= i < found.len() && (#[trigger] found[i]).alive ==> restored(found).contains_key(
                found[i].name,
            ),
    decreases found.len(),
{
    if found.len() > 0 {
        let rest = found.drop_last();
        let last = found.len() - 1;
        lemma_restored_last(rest);
        assert forall|i: int| #[trigger] last_alive_at(found, i) implies restored(
            found,
        ).contains_key(found[i].name) && restored(found)[found[i].name] == found[i].pid by {
            if i < last {
                assert(rest[i] == found[i]);
                assert forall|j: int|
                    i < j < rest.len() && (#[trigger] rest[j]).alive implies rest[j].name
                    != rest[i].name by {
                    assert(found[j] == rest[j]);
                }
                assert(last_alive_at(rest, i));
                assert(found[last].alive ==> found[last].name != found[i].name);
            }
        }
        assert forall|name: Seq<char>| #[trigger] restored(found).contains_key(name) implies exists|
            i: int,
        | #[trigger] last_alive_at(found, i) && found[i].name == name by {
            if found[last].alive && found[last].name == name {
                assert(last_alive_at(found, last));
            } else {
                assert(restored(rest).contains_key(name));
                let i = choose|i: int| #[trigger] last_alive_at(rest, i) && rest[i].name == name;
                assert(found[i] == rest[i]);
                assert forall|j: int|
                    i < j < found.len() && (#[trigger] found[j]).alive implies found[j].name
                    != found[i].name by {
                    if j < last {
                        assert(rest[j] == found[j]);
                    }
                }
                assert(last_alive_at(found, i));
            }
        }
        assert forall|i: int| 0 <= i < found.len() && (#[trigger] found[i]).alive implies restored(
            found,
        ).contains_key(found[i].name) by {
            if i < last {
                assert(rest[i] == found[i]);
            }
        }
    }
}

/// Going to a page changes the page, takes the message down and goes to the
/// front of the list; nothing else changes.
pub proof fn law_switch_page(state: AppModel, page: PageModel)
    ensures
        ({
            let s = state.switch_page(page);
            &&& s.page == page && s.status_message is None && s.config_page == 0
            &&& s == (AppModel {
                page: s.page,
                status_message: s.status_message,
                config_page: s.config_page,
                ..state
            })
        }),
{
}

/// A message is shown with its level, is drawn, and is taken down later;
/// nothing else changes. Taking it down changes nothing else either.
pub proof fn law_status_message(state: AppModel, msg: Seq<char>, level: MessageLevel)
    ensures
        ({
            let step = state.set_status_message(msg, level);
            &&& step.state.status_message == Some(msg) && step.state.status_level == level
            &&& step.state == state.with_status(msg, level)
            &&& step.actions == seq![ActionModel::Notify, ActionModel::ClearStatusLater]
            &&& step.state.without_status() == (AppModel {
                status_message: None,
                status_level: level,
                ..state
            })
            &&& state.without_status() == (AppModel { status_message: None, ..state })
        }),
        status_actions() == seq![ActionModel::Notify, ActionModel::ClearStatusLater],
{
}

/// Where others run before an update, the user is asked; this, and any other
/// step that asks for one thing or for nothing, leaves the state as it is.
pub proof fn law_asking_changes_nothing(state: AppModel, action: ActionModel)
    ensures
        state.ask(action).state == state,
        state.ask(action).actions.len() == 1,
        state.ask(action).actions[0] == action,
        state.stay().state == state,
        state.stay().actions.len() == 0,
{
}

// The settings.

/// The process guard is turned, and the setting stored, just where the service
/// is registered; else the user is told to register it. Nothing else changes.
pub proof fn law_toggle_guard(state: AppModel)
    ensures
        ({
            let step = state.toggle_process_guard();
            &&& state.service_registered ==> step == (Step {
                state: AppModel { process_guard: !state.process_guard, ..state },
                actions: seq![ActionModel::SaveGuardSetting(!state.process_guard)],
            })
            &&& !state.service_registered ==> step == (Step {
                state: AppModel {
                    status_message: Some("请先注册服务后再开启进程守护"@),
                    status_level: MessageLevel::Warning,
                    ..state
                },
                actions: seq![ActionModel::Notify, ActionModel::ClearStatusLater],
            })
        }),
{
}

/// A stored guard setting starts the service where it is on, and is signaled to
/// the service and reported where it is off; one that could not be stored is
/// reported. Nothing changes but the message.
pub proof fn law_guard_setting_taken_up(state: AppModel, e: Seq<char>)
    ensures
        ({
            let stored = state.guard_setting_saved(Ok(()));
            let failed = state.guard_setting_saved(Err(e));
            &&& state.process_guard ==> stored == (Step {
                state,
                actions: seq![ActionModel::StartService],
            })
            &&& !state.process_guard ==> stored == (Step {
                state: AppModel {
                    status_message: Some("进程守护已关闭"@),
                    status_level: MessageLevel::Success,
                    ..state
                },
                actions: seq![
                    ActionModel::SignalGuardChanged,
                    ActionModel::Notify,
                    ActionModel::ClearStatusLater,
                    ActionModel::Notify,
                ],
            })
            &&& failed.state == (AppModel {
                status_message: Some("保存设置失败: "@ + e),
                status_level: MessageLevel::Error,
                ..state
            })
            &&& failed.actions == seq![
                ActionModel::Notify,
                ActionModel::ClearStatusLater,
                ActionModel::Notify,
            ]
        }),
{
}

/// Whether the service could be started for the guard is reported, and nothing
/// else changes.
pub proof fn law_guard_start_reported(state: AppModel, e: Seq<char>)
    ensures
        ({
            let started = state.guard_service_started(Ok(()));
            let failed = state.guard_service_started(Err(e));
            let drawn = seq![
                ActionModel::Notify,
                ActionModel::ClearStatusLater,
                ActionModel::Notify,
            ];
            &&& started.state == (AppModel {
                status_message: Some("进程守护已开启，服务已启动"@),
                status_level: MessageLevel::Success,
                ..state
            })
            &&& failed.state == (AppModel {
                status_message: Some("启动服务失败: "@ + e),
                status_level: MessageLevel::Error,
                ..state
            })
            &&& started.actions == drawn
            &&& failed.actions == drawn
        }),
{
}

/// A chosen theme is applied, kept for the next start and reported; without a
/// choice nothing happens.
pub proof fn law_theme_applied(state: AppModel, name: Seq<char>)
    ensures
        ({
            let step = state.on_theme_selected(Some(name));
            &&& step.actions == seq![
                ActionModel::ApplyTheme(name),
                ActionModel::SaveThemePreference(name),
                ActionModel::Notify,
                ActionModel::ClearStatusLater,
            ]
            &&& step.state == (AppModel {
                status_message: Some("主题已切换为 '"@ + name + "'"@),
                status_level: MessageLevel::Success,
                ..state
            })
        }),
        state.on_theme_selected(None) == (Step { state, actions: Seq::empty() }),
{
}

/// A chosen level is set; once it is set it is stored; once it is stored that is
/// reported. Each failure is reported instead, and only the message changes.
pub proof fn law_log_level_set_then_stored(state: AppModel, level: Seq<char>, e: Seq<char>)
    ensures
        state.log_level_chosen(level) == (Step {
            state,
            actions: seq![ActionModel::SetLogLevel { filter: filter_of(level), level }],
        }),
        state.log_level_set(level, Ok(())) == (Step {
            state,
            actions: seq![ActionModel::SaveLogLevel(level)],
        }),
        ({
            let drawn = seq![ActionModel::Notify, ActionModel::ClearStatusLater];
            let unset = state.log_level_set(level, Err(e));
            let stored = state.log_level_saved(level, Ok(()));
            let unstored = state.log_level_saved(level, Err(e));
            &&& unset.state == (AppModel {
                status_message: Some("切换日志级别失败："@ + e),
                status_level: MessageLevel::Error,
                ..state
            })
            &&& stored.state == (AppModel {
                status_message: Some("日志级别已切换为 '"@ + level + "'"@),
                status_level: MessageLevel::Success,
                ..state
            })
            &&& unstored.state == (AppModel {
                status_message: Some("保存设置失败："@ + e),
                status_level: MessageLevel::Error,
                ..state
            })
            &&& unset.actions == drawn && stored.actions == drawn && unstored.actions == drawn
        }),
{
}

// The stored configurations.

/// Taking up configurations replaces the list. The page stays where it still
/// shows one, or is the first; else it becomes the last page that shows one, or
/// the first. Nothing else changes.
pub proof fn law_reload(state: AppModel, configs: Seq<ConfigModel>)
    ensures
        ({
            let s = state.reload(configs);
            let n = configs.len();
            &&& s.configs == configs
            &&& state.config_page == 0 || state.config_page * 8 < n ==> s.config_page
                == state.config_page
            &&& state.config_page > 0 && n > 0 && state.config_page * 8 >= n ==> s.config_page * 8
                < n <= (s.config_page + 1) * 8
            &&& n == 0 ==> s.config_page == 0
            &&& s == (AppModel { configs: s.configs, config_page: s.config_page, ..state })
        }),
{
    assert(total_pages(configs.len()) == (configs.len() + 7) / 8);
}

/// The editor opens empty on a new configuration that starts by itself, and
/// with the stored content, or none, and the stored start flag on a stored one;
/// the two fields show the same. Only the page and what is edited change, and
/// the message goes.
pub proof fn law_editor_opened(
    state: AppModel,
    name: Seq<char>,
    content: Result<Seq<char>, Seq<char>>,
)
    ensures
        ({
            let step = state.open_add_config();
            &&& step.state == (AppModel {
                page: PageModel::ConfigEditor { original_name: None },
                edit_name: Seq::empty(),
                edit_content: Seq::empty(),
                edit_auto_start: true,
                status_message: None,
                config_page: 0,
                ..state
            })
            &&& step.actions == seq![
                ActionModel::SetNameInput(Seq::empty()),
                ActionModel::SetContentInput(Seq::empty()),
            ]
        }),
        ({
            let step = state.open_edit_config(name, content);
            &&& content matches Ok(text) ==> step.state.edit_content == text
            &&& content is Err ==> step.state.edit_content.len() == 0
            &&& match first_config(state.configs, name) {
                Some(c) => step.state.edit_auto_start == c.auto_start,
                None => !step.state.edit_auto_start,
            }
            &&& step.state == (AppModel {
                page: PageModel::ConfigEditor { original_name: Some(name) },
                edit_name: name,
                edit_content: step.state.edit_content,
                edit_auto_start: step.state.edit_auto_start,
                status_message: None,
                config_page: 0,
                ..state
            })
            &&& step.actions == seq![
                ActionModel::SetNameInput(name),
                ActionModel::SetContentInput(step.state.edit_content),
            ]
        }),
{
}

/// Saving takes up what stands in the two fields, and first of all refuses an
/// empty name, then a name with other characters, then a blank content, each
/// with its own message.
pub proof fn law_save_refusals(state: AppModel, name_text: Seq<char>, content_text: Seq<char>)
    ensures
        ({
            let step = state.save_config(name_text, content_text);
            let name = trimmed(name_text);
            let message = if name.len() == 0 {
                "配置名称不能为空"@
            } else if !is_config_name(name) {
                "配置名称只能包含字母、数字、下划线和连字符"@
            } else {
                "配置内容不能为空"@
            };
            name.len() == 0 || !is_config_name(name) || is_blank(content_text) ==> step == (Step {
                state: AppModel {
                    edit_name: name_text,
                    edit_content: content_text,
                    status_message: Some(message),
                    status_level: MessageLevel::Error,
                    ..state
                },
                actions: seq![ActionModel::Notify, ActionModel::ClearStatusLater],
            })
        }),
{
}

/// A good name and content are taken up without a message. A new configuration
/// has its name looked up first; one that was opened under another name has that
/// one deleted; then, and else at once, the content is read.
pub proof fn law_save_goes_on(state: AppModel, name_text: Seq<char>, content_text: Seq<char>)
    requires
        is_config_name(trimmed(name_text)),
        !is_blank(content_text),
    ensures
        ({
            let step = state.save_config(name_text, content_text);
            let name = trimmed(name_text);
            let read = ActionModel::ValidateToml { name, content: content_text };
            &&& step.state == (AppModel {
                edit_name: name_text,
                edit_content: content_text,
                ..state
            })
            &&& state.page matches PageModel::ConfigEditor { original_name: None }
                ==> step.actions == seq![ActionModel::CheckConfigExists(name)]
            &&& state.page matches PageModel::ConfigEditor { original_name: Some(orig) }
                ==> step.actions == (if orig == name {
                seq![read]
            } else {
                seq![ActionModel::DeleteReplaced(orig), read]
            })
            &&& !(state.page is ConfigEditor) ==> step.actions == seq![read]
        }),
{
    let step = state.save_config(name_text, content_text);
    let name = trimmed(name_text);
    let read = ActionModel::ValidateToml { name, content: content_text };
    assert(state.page matches PageModel::ConfigEditor { original_name: Some(orig) }
        ==> step.actions =~= (if orig == name {
        seq![read]
    } else {
        seq![ActionModel::DeleteReplaced(orig), read]
    }));
    assert(!(state.page is ConfigEditor) ==> step.actions =~= seq![read]);
}

/// A name that is taken is refused, on whatever page, and nothing is stored or
/// deleted; with a free name the edited content is read, and nothing changes.
pub proof fn law_save_checked(state: AppModel, name: Seq<char>)
    ensures
        state.save_config_checked(name, true) == (Step {
            state: AppModel {
                status_message: Some("配置 '"@ + name + "' 已存在"@),
                status_level: MessageLevel::Error,
                ..state
            },
            actions: seq![ActionModel::Notify, ActionModel::ClearStatusLater],
        }),
        ({
            let step = state.save_config_checked(name, false);
            let read = ActionModel::ValidateToml { name, content: state.edit_content };
            &&& step.state == state
            &&& step.actions.last() == read
            &&& match state.page {
                PageModel::ConfigEditor { original_name: Some(orig) } if orig != name =>
                    step.actions == seq![ActionModel::DeleteReplaced(orig), read],
                _ => step.actions == seq![read],
            }
        }),
{
    let step = state.save_config_checked(name, false);
    let read = ActionModel::ValidateToml { name, content: state.edit_content };
    match state.page {
        PageModel::ConfigEditor { original_name: Some(orig) } if orig != name => {
            assert(step.actions =~= seq![ActionModel::DeleteReplaced(orig), read]);
        },
        _ => {
            assert(step.actions =~= seq![read]);
        },
    }
}

/// On whatever page, a content that could be read is stored under the name, as
/// it was edited, with the edited start flag and with what was read; nothing
/// changes until then. One that could not be read is reported and not stored.
pub proof fn law_validated_is_stored(
    state: AppModel,
    name: Seq<char>,
    server_addr: Seq<char>,
    proxies: Seq<Seq<char>>,
    e: Seq<char>,
)
    ensures
        ({
            let step = state.save_config_validated(name, Ok((server_addr, proxies)));
            &&& step.state == state
            &&& step.actions.len() == 1
            &&& step.actions[0] matches ActionModel::SaveConfig(entry) && entry.name == name
                && entry.content == state.edit_content && entry.auto_start == state.edit_auto_start
                && entry.server_addr == server_addr && entry.proxies == proxies
        }),
        state.save_config_validated(name, Err(e)) == (Step {
            state: AppModel {
                status_message: Some("保存失败："@ + e),
                status_level: MessageLevel::Error,
                ..state
            },
            actions: seq![ActionModel::Notify, ActionModel::ClearStatusLater],
        }),
{
}

/// A new configuration with a good name that is free, and with a content that
/// can be read, is stored in the end, just as it was typed, and starts by
/// itself.
pub proof fn law_new_config_stored(
    state: AppModel,
    name: Seq<char>,
    content: Seq<char>,
    server_addr: Seq<char>,
    proxies: Seq<Seq<char>>,
)
    requires
        is_config_name(trimmed(name)),
        !is_blank(content),
    ensures
        ({
            let typed = state.open_add_config().state.save_config(name, content);
            let free = typed.state.save_config_checked(trimmed(name), false);
            let read = free.state.save_config_validated(
                trimmed(name),
                Ok((server_addr, proxies)),
            );
            &&& typed.actions == seq![ActionModel::CheckConfigExists(trimmed(name))]
            &&& free.actions == seq![ActionModel::ValidateToml { name: trimmed(name), content }]
            &&& read.actions == seq![
                ActionModel::SaveConfig(
                    EntryModel {
                        name: trimmed(name),
                        content,
                        auto_start: true,
                        server_addr,
                        proxies,
                    },
                ),
            ]
        }),
{
    let typed = state.open_add_config().state.save_config(name, content);
    let free = typed.state.save_config_checked(trimmed(name), false);
    assert(free.actions =~= seq![ActionModel::ValidateToml { name: trimmed(name), content }]);
}

/// A stored configuration leads back to the first page of the list, which shows
/// what is stored now, with a report. A failure is reported where the user is.
pub proof fn law_saved_reported(
    state: AppModel,
    name: Seq<char>,
    configs: Seq<ConfigModel>,
    e: Seq<char>,
)
    ensures
        state.config_saved(name, Ok(configs)) == (Step {
            state: AppModel {
                page: PageModel::ConfigList,
                configs,
                config_page: 0,
                status_message: Some("配置 '"@ + name + "' 保存成功"@),
                status_level: MessageLevel::Success,
                ..state
            },
            actions: seq![
                ActionModel::Notify,
                ActionModel::Notify,
                ActionModel::ClearStatusLater,
            ],
        }),
        state.config_saved(name, Err(e)) == (Step {
            state: AppModel {
                status_message: Some("保存失败："@ + e),
                status_level: MessageLevel::Error,
                ..state
            },
            actions: seq![ActionModel::Notify, ActionModel::ClearStatusLater],
        }),
{
}

/// A deletion takes the process out of the table and stops it, if there is one,
/// and then deletes; nothing else changes, not even a mark.
pub proof fn law_delete(state: AppModel, name: Seq<char>)
    ensures
        ({
            let step = state.delete_config(name);
            &&& step.state == (AppModel { running: state.running.remove(name), ..state })
            &&& state.running.contains_key(name) ==> step.actions == seq![
                ActionModel::StopProcess { name, pid: state.running[name] },
                ActionModel::DeleteConfig(name),
            ]
            &&& !state.running.contains_key(name) ==> step.actions == seq![
                ActionModel::DeleteConfig(name),
            ] && step.state == state
        }),
{
    if !state.running.contains_key(name) {
        assert(state.running.remove(name) =~= state.running);
        assert(state.delete_config(name).actions =~= seq![ActionModel::DeleteConfig(name)]);
    }
}

/// After a deletion and after a copy the list shows what is stored now, as after
/// any reload, with a report; a failure changes the message only.
pub proof fn law_deleted_and_copied_reported(
    state: AppModel,
    name: Seq<char>,
    configs: Seq<ConfigModel>,
    e: Seq<char>,
)
    ensures
        ({
            let drawn = seq![
                ActionModel::Notify,
                ActionModel::Notify,
                ActionModel::ClearStatusLater,
            ];
            let deleted = state.config_deleted(name, Ok(configs));
            let copied = state.config_copied(name, Ok(configs));
            &&& deleted.state == (AppModel {
                status_message: Some("配置 '"@ + name + "' 已删除"@),
                status_level: MessageLevel::Success,
                ..state.reload(configs)
            })
            &&& copied.state == (AppModel {
                status_message: Some("已复制配置为 '"@ + name + "'"@),
                status_level: MessageLevel::Success,
                ..state.reload(configs)
            })
            &&& deleted.actions == drawn && copied.actions == drawn
        }),
        state.config_deleted(name, Err(e)) == (Step {
            state: AppModel {
                status_message: Some("删除失败："@ + e),
                status_level: MessageLevel::Error,
                ..state
            },
            actions: seq![ActionModel::Notify, ActionModel::ClearStatusLater],
        }),
        state.config_copied(name, Err(e)) == (Step {
            state: AppModel {
                status_message: Some("复制失败："@ + e),
                status_level: MessageLevel::Error,
                ..state
            },
            actions: seq![ActionModel::Notify, ActionModel::ClearStatusLater],
        }),
{
}

/// A copy is asked for with the content that was read, under the copy's name,
/// with what is known of the first configuration of the name, and with defaults
/// where none is known. A source that cannot be read is reported.
pub proof fn law_duplicate(state: AppModel, name: Seq<char>, content: Seq<char>, e: Seq<char>)
    ensures
        ({
            let step = state.duplicate_config(name, Ok(content));
            &&& step.state == state
            &&& step.actions.len() == 1
            &&& step.actions[0] matches ActionModel::SaveCopy(entry) && entry.content == content
                && entry.name == copy_name(config_names(state.configs), name) && (
            match first_config(state.configs, name) {
                Some(c) => entry.auto_start == c.auto_start && entry.server_addr == c.server_addr
                    && entry.proxies == c.proxies,
                None => !entry.auto_start && entry.server_addr.len() == 0 && entry.proxies.len()
                    == 0,
            })
        }),
        state.duplicate_config(name, Err(e)) == (Step {
            state: AppModel {
                status_message: Some("复制失败："@ + e),
                status_level: MessageLevel::Error,
                ..state
            },
            actions: seq![ActionModel::Notify, ActionModel::ClearStatusLater],
        }),
{
}

// Processes.

/// What runs is left alone. What does not run is looked for where the service is
/// registered; else the guard is told at once, the mark goes, and the program is
/// looked for.
pub proof fn law_start(state: AppModel, name: Seq<char>)
    ensures
        ({
            let step = state.start_config(name);
            &&& state.running.contains_key(name) ==> step == (Step {
                state,
                actions: Seq::empty(),
            })
            &&& !state.running.contains_key(name) && state.service_registered ==> step == (Step {
                state,
                actions: seq![ActionModel::FindProcess(name)],
            })
            &&& !state.running.contains_key(name) && !state.service_registered ==> step == (Step {
                state: AppModel { stopped_configs: state.stopped_configs.remove(name), ..state },
                actions: seq![
                    ActionModel::SendGuardCommand("START:"@ + name),
                    ActionModel::CheckExecutable(name),
                ],
            })
        }),
{
}

/// The first process found for a name is taken over, and drawn, if it lives and
/// frpc is there. In every other case a start begins: the guard is told, the
/// mark goes, and the program is looked for.
pub proof fn law_start_found(
    state: AppModel,
    name: Seq<char>,
    found: Seq<DiscoveredModel>,
    frpc_present: bool,
)
    ensures
        ({
            let step = state.start_config_found(name, found, frpc_present);
            let first = first_named(found, name);
            let lives = frpc_present && first is Some && first->0.alive;
            &&& lives ==> step == (Step {
                state: AppModel { running: state.running.insert(name, first->0.pid), ..state },
                actions: seq![ActionModel::Notify],
            })
            &&& !lives ==> step == (Step {
                state: AppModel { stopped_configs: state.stopped_configs.remove(name), ..state },
                actions: seq![
                    ActionModel::SendGuardCommand("START:"@ + name),
                    ActionModel::CheckExecutable(name),
                ],
            })
        }),
{
}

/// In every state, with the service and without it, a start whose program is
/// there asks for exactly one process, and shows that something goes on;
/// without the program it asks for none, and says what is missing.
pub proof fn law_start_spawns(state: AppModel, name: Seq<char>)
    ensures
        ({
            let step = state.start_config_checked(name, true);
            &&& step.actions == seq![ActionModel::Notify, ActionModel::SpawnProcess(name)]
            &&& step.state.is_processing && step.state.status_message is None
            &&& step.state == (AppModel { is_processing: true, status_message: None, ..state })
        }),
        ({
            let step = state.start_config_checked(name, false);
            &&& step.actions == seq![ActionModel::Notify, ActionModel::ClearStatusLater]
            &&& step.state == (AppModel {
                status_message: Some("请先在设置中下载 frpc 程序"@),
                status_level: MessageLevel::Warning,
                ..state
            })
        }),
{
}

/// The actions of a start from its beginning to the look for the program, and on
/// to the process, one list behind the other.
pub open spec fn start_script(
    state: AppModel,
    name: Seq<char>,
    found: Seq<DiscoveredModel>,
    frpc_present: bool,
) -> Seq<ActionModel> {
    let asked = state.start_config(name);
    let begun = if state.service_registered {
        asked.state.start_config_found(name, found, frpc_present)
    } else {
        asked
    };
    let spawned = begun.state.start_config_checked(name, true);
    (if state.service_registered {
        asked.actions
    } else {
        Seq::empty()
    }) + begun.actions + spawned.actions
}

/// A start of what runs nowhere tells the guard, looks for the program and asks
/// for exactly one process, with the service registered and without it.
pub proof fn law_start_spawns_once(
    state: AppModel,
    name: Seq<char>,
    found: Seq<DiscoveredModel>,
    frpc_present: bool,
)
    requires
        !state.running.contains_key(name),
        forall|i: int| 0 <= i < found.len() ==> (#[trigger] found[i]).name != name,
    ensures
        start_script(state, name, found, frpc_present) == (if state.service_registered {
            seq![ActionModel::FindProcess(name)]
        } else {
            Seq::empty()
        }) + seq![
            ActionModel::SendGuardCommand("START:"@ + name),
            ActionModel::CheckExecutable(name),
            ActionModel::Notify,
            ActionModel::SpawnProcess(name),
        ],
{
    lemma_first_named_absent(found, name);
}

proof fn lemma_first_named_absent(found: Seq<DiscoveredModel>, name: Seq<char>)
    requires
        forall|i: int| 0 <= i < found.len() ==> (#[trigger] found[i]).name != name,
    ensures
        first_named(found, name) is None,
    decreases found.len(),
{
    if found.len() > 0 {
        let rest = found.drop_first();
        assert forall|i: int| 0 <= i < rest.len() implies (#[trigger] rest[i]).name != name by {
            assert(rest[i] == found[i + 1]);
        }
        lemma_first_named_absent(rest, name);
    }
}

/// A process that was started is in the table, its connection is watched and its
/// exit looked for, and the guard hears of it first if the service is
/// registered. A start that failed is reported. Either way nothing goes on any
/// more.
pub proof fn law_spawned(state: AppModel, name: Seq<char>, pid: u32, e: Seq<char>)
    ensures
        ({
            let step = state.process_spawned(name, Ok(pid));
            let watched = seq![
                ActionModel::Notify,
                ActionModel::WatchConnection(name),
                ActionModel::CheckExitSoon(name),
            ];
            &&& step.state == (AppModel {
                is_processing: false,
                running: state.running.insert(name, pid),
                ..state
            })
            &&& state.service_registered ==> step.actions == seq![
                ActionModel::SendGuardCommand("TRACK:"@ + name + ":"@ + decimal(pid as nat)),
            ] + watched
            &&& !state.service_registered ==> step.actions == watched
        }),
        state.process_spawned(name, Err(e)) == (Step {
            state: AppModel {
                is_processing: false,
                status_message: Some("启动失败："@ + e),
                status_level: MessageLevel::Error,
                ..state
            },
            actions: seq![ActionModel::Notify, ActionModel::ClearStatusLater],
        }),
{
    assert(!state.service_registered ==> state.process_spawned(name, Ok(pid)).actions =~= seq![
        ActionModel::Notify,
        ActionModel::WatchConnection(name),
        ActionModel::CheckExitSoon(name),
    ]);
}

/// A connection is reported just where there is one and the process is still in
/// the table; else nothing happens.
pub proof fn law_connection(state: AppModel, name: Seq<char>, connected: bool)
    ensures
        ({
            let step = state.connection_reported(name, connected);
            let shown = connected && state.running.contains_key(name);
            &&& shown ==> step == (Step {
                state: AppModel {
                    status_message: Some("'"@ + name + "' 连接成功"@),
                    status_level: MessageLevel::Success,
                    ..state
                },
                actions: seq![ActionModel::Notify, ActionModel::ClearStatusLater],
            })
            &&& !shown ==> step == (Step { state, actions: Seq::empty() })
        }),
{
}

/// A process in the table that has exited leaves it, and that is reported with
/// its status; else nothing happens.
pub proof fn law_exit(state: AppModel, name: Seq<char>, status: Seq<char>)
    ensures
        state.exit_checked(name, None) == (Step { state, actions: Seq::empty() }),
        !state.running.contains_key(name) ==> state.exit_checked(name, Some(status)) == (Step {
            state,
            actions: Seq::empty(),
        }),
        state.running.contains_key(name) ==> state.exit_checked(name, Some(status)) == (Step {
            state: AppModel {
                running: state.running.remove(name),
                status_message: Some(
                    "'"@ + name + "' 启动失败，请检查配置是否正确 (退出码: "@ + status + ")"@,
                ),
                status_level: MessageLevel::Error,
                ..state
            },
            actions: seq![ActionModel::Notify, ActionModel::ClearStatusLater],
        }),
{
}

/// A stop marks the configuration and tells the guard, always. A process in the
/// table leaves it and is stopped in the background, which shows.
pub proof fn law_stop(state: AppModel, name: Seq<char>)
    ensures
        ({
            let step = state.stop_config(name);
            let runs = state.running.contains_key(name);
            &&& step.state == (AppModel {
                stopped_configs: state.stopped_configs.insert(name),
                running: state.running.remove(name),
                is_processing: runs || state.is_processing,
                ..state
            })
            &&& runs ==> step.actions == seq![
                ActionModel::SendGuardCommand("STOP:"@ + name),
                ActionModel::Notify,
                ActionModel::StopInBackground { name, pid: state.running[name] },
            ]
            &&& !runs ==> step.actions == seq![ActionModel::SendGuardCommand("STOP:"@ + name)]
        }),
{
    if !state.running.contains_key(name) {
        assert(state.running.remove(name) =~= state.running);
    }
}

/// What came of a stop is reported, and nothing goes on any more.
pub proof fn law_stopped(state: AppModel, name: Seq<char>, e: Seq<char>)
    ensures
        ({
            let drawn = seq![
                ActionModel::Notify,
                ActionModel::ClearStatusLater,
                ActionModel::Notify,
            ];
            let done = state.process_stopped(name, Ok(()));
            let failed = state.process_stopped(name, Err(e));
            &&& done.state == (AppModel {
                is_processing: false,
                status_message: Some("'"@ + name + "'已停止"@),
                status_level: MessageLevel::Success,
                ..state
            })
            &&& failed.state == (AppModel {
                is_processing: false,
                status_message: Some("停止失败："@ + e),
                status_level: MessageLevel::Error,
                ..state
            })
            &&& done.actions == drawn && failed.actions == drawn
        }),
{
}

/// A restart of what runs marks it, tells the guard, takes the process out of
/// the table and stops it; a restart of what does not run is a start.
pub proof fn law_restart(state: AppModel, name: Seq<char>)
    ensures
        state.running.contains_key(name) ==> state.restart_config(name) == (Step {
            state: AppModel {
                stopped_configs: state.stopped_configs.insert(name),
                running: state.running.remove(name),
                is_processing: true,
                status_message: None,
                ..state
            },
            actions: seq![
                ActionModel::SendGuardCommand("STOP:"@ + name),
                ActionModel::Notify,
                ActionModel::StopForRestart { name, pid: state.running[name] },
            ],
        }),
        !state.running.contains_key(name) ==> state.restart_config(name) == state.start_config(
            name,
        ),
{
}

/// After the stop of a restart nothing goes on any more, the mark goes and the
/// guard is told so. A stop that went well is followed by a start; one that
/// failed is reported.
pub proof fn law_restart_goes_on(state: AppModel, name: Seq<char>, e: Seq<char>)
    ensures
        ({
            let step = state.restart_stopped(name, Ok(()));
            let idle = AppModel {
                is_processing: false,
                stopped_configs: state.stopped_configs.remove(name),
                ..state
            };
            let told = seq![ActionModel::SendGuardCommand("START:"@ + name)];
            &&& step.state == idle
            &&& step.actions == told + idle.start_config(name).actions + seq![ActionModel::Notify]
        }),
        state.restart_stopped(name, Err(e)) == (Step {
            state: AppModel {
                is_processing: false,
                stopped_configs: state.stopped_configs.remove(name),
                status_message: Some("'"@ + name + "' 重启失败："@ + e),
                status_level: MessageLevel::Error,
                ..state
            },
            actions: seq![
                ActionModel::SendGuardCommand("START:"@ + name),
                ActionModel::Notify,
                ActionModel::ClearStatusLater,
                ActionModel::Notify,
            ],
        }),
{
    assert(state.stopped_configs.remove(name).remove(name) =~= state.stopped_configs.remove(name));
}

// Updates.

/// An update begins by asking for a newer frpc, from whatever was shown before.
pub proof fn law_update_begins(state: AppModel)
    ensures
        state.start_download() == (Step {
            state: AppModel {
                is_checking_update: true,
                is_downloading: false,
                download_percent: 0,
                status_message: None,
                ..state
            },
            actions: seq![ActionModel::Notify, ActionModel::CheckUpdate],
        }),
{
}

/// In every state a newer frpc leads on: to the user's consent where a process
/// of the table runs, and to a search for others where none does. No message is
/// put up, and nothing changes but that the check is over. Only without a newer
/// frpc, or when the check failed, the update ends with a message that says so.
pub proof fn law_newer_leads_on(state: AppModel, tag: Seq<char>, e: Seq<char>)
    ensures
        ({
            let step = state.update_checked(Ok(Some(tag)));
            let runs = exists|name: Seq<char>| state.running.contains_key(name);
            &&& step.state == (AppModel { is_checking_update: false, ..state })
            &&& runs ==> step.actions == seq![ActionModel::Notify, ActionModel::ConfirmUpdate]
            &&& !runs ==> step.actions == seq![
                ActionModel::Notify,
                ActionModel::FindProcessesForUpdate,
            ]
        }),
        ({
            let drawn = seq![ActionModel::Notify, ActionModel::ClearStatusLater];
            let newest = state.update_checked(Ok(None));
            let failed = state.update_checked(Err(e));
            &&& newest.state == (AppModel {
                is_checking_update: false,
                status_message: Some("已经是最新版本"@),
                status_level: MessageLevel::Success,
                ..state
            })
            &&& failed.state == (AppModel {
                is_checking_update: false,
                status_message: Some("检查版本失败："@ + e),
                status_level: MessageLevel::Error,
                ..state
            })
            &&& newest.actions == drawn && failed.actions == drawn
        }),
{
    if !(exists|name: Seq<char>| state.running.contains_key(name)) {
        assert(state.running =~= Map::<Seq<char>, u32>::empty());
    }
}

/// Before a download the table is emptied, all that was in it is marked, each
/// process is stopped, and the others are looked for, with the names of those
/// that were stopped. Nothing else changes but that a download goes on.
pub proof fn law_download_stops_table(state: AppModel, procs: Seq<ProcessModel>)
    ensures
        ({
            let step = state.do_download(procs);
            let n = procs.len() as int;
            &&& step.state == (AppModel {
                is_downloading: true,
                running: Map::empty(),
                stopped_configs: state.stopped_configs.union(state.running.dom()),
                ..state
            })
            &&& step.actions.len() == 2 * n + 2
            &&& step.actions[0] == ActionModel::Notify
            &&& forall|i: int|
                0 <= i < n ==> step.actions[1 + 2 * i] == ActionModel::SendGuardCommand(
                    "STOP:"@ + (#[trigger] procs[i]).name,
                ) && step.actions[2 + 2 * i] == (ActionModel::StopProcess {
                    name: procs[i].name,
                    pid: procs[i].pid,
                })
            &&& step.actions.last() matches ActionModel::FindProcessesForDownload(names)
                && names.len() == n && forall|i: int|
                0 <= i < n ==> names[i] == (#[trigger] procs[i]).name
        }),
{
    lemma_stop_actions_at(procs);
    let step = state.do_download(procs);
    assert forall|i: int| 0 <= i < procs.len() implies step.actions[1 + 2 * i]
        == ActionModel::SendGuardCommand("STOP:"@ + (#[trigger] procs[i]).name) && step.actions[2
        + 2 * i] == (ActionModel::StopProcess { name: procs[i].name, pid: procs[i].pid }) by {
        assert(step.actions[1 + 2 * i] == stop_actions(procs)[2 * i]);
        assert(step.actions[2 + 2 * i] == stop_actions(procs)[2 * i + 1]);
    }
    assert(step.actions.last() == ActionModel::FindProcessesForDownload(process_names(procs)));
}

proof fn lemma_stop_actions_at(procs: Seq<ProcessModel>)
    ensures
        stop_actions(procs).len() == 2 * procs.len(),
        forall|i: int|
            0 <= i < procs.len() ==> stop_actions(procs)[2 * i] == ActionModel::SendGuardCommand(
                "STOP:"@ + (#[trigger] procs[i]).name,
            ) && stop_actions(procs)[2 * i + 1] == (ActionModel::StopProcess {
                name: procs[i].name,
                pid: procs[i].pid,
            }),
    decreases procs.len(),
{
    if procs.len() > 0 {
        let rest = procs.drop_last();
        lemma_stop_actions_at(rest);
        assert forall|i: int| 0 <= i < procs.len() implies stop_actions(procs)[2 * i]
            == ActionModel::SendGuardCommand("STOP:"@ + (#[trigger] procs[i]).name)
            && stop_actions(procs)[2 * i + 1] == (ActionModel::StopProcess {
            name: procs[i].name,
            pid: procs[i].pid,
        }) by {
            if i < rest.len() {
                assert(rest[i] == procs[i]);
            }
        }
    }
}

/// Whether the process at `i` is the first one found for its name, and the name
/// is not in `names`.
pub open spec fn first_other_at(
    names: Seq<Seq<char>>,
    found: Seq<DiscoveredModel>,
    i: int,
) -> bool {
    &&& 0 <= i < found.len()
    &&& !names.contains(found[i].name)
    &&& forall|j: int| 0 <= j < i ==> (#[trigger] found[j]).name != found[i].name
}

/// How many actions the processes before `n` lead to: one for each, and one more
/// for the first of each name that is not in `names`.
pub open spec fn kills_before(
    names: Seq<Seq<char>>,
    found: Seq<DiscoveredModel>,
    n: int,
) -> int
    decreases n,
{
    if n <= 0 {
        0
    } else {
        kills_before(names, found, n - 1) + (if first_other_at(names, found, n - 1) {
            2int
        } else {
            1
        })
    }
}

/// Before a download every process that was found is killed, in the order of
/// the listing. The guard is told before the first kill of each name that was
/// not stopped already, and of no other. These names, marked now, are handed on
/// behind the names that were stopped already. Nothing else changes.
pub proof fn law_download_kills_found(
    state: AppModel,
    names: Seq<Seq<char>>,
    found: Seq<DiscoveredModel>,
)
    ensures
        ({
            let step = state.download_processes_found(names, found);
            let total = kills_before(names, found, found.len() as int);
            &&& step.actions.len() == total + 1
            &&& forall|i: int|
                0 <= i < found.len() ==> {
                    let end = #[trigger] kills_before(names, found, i + 1);
                    &&& step.actions[end - 1] == (ActionModel::KillProcess {
                        name: found[i].name,
                        pid: found[i].pid,
                    })
                    &&& first_other_at(names, found, i) ==> step.actions[end - 2]
                        == ActionModel::SendGuardCommand("STOP:"@ + found[i].name)
                }
            &&& step.actions.last() matches ActionModel::StartDownload(all) && all.len()
                >= names.len() && all.take(names.len() as int) == names && (forall|i: int|
                #[trigger]
                first_other_at(names, found, i) ==> all[names.len() + kills_before(names, found, i)
                    - i] == found[i].name) && all.len() - names.len() == total - found.len()
            &&& step.state == (AppModel { stopped_configs: step.state.stopped_configs, ..state })
            &&& forall|name: Seq<char>| #[trigger]
                step.state.stopped_configs.contains(name) <==> state.stopped_configs.contains(name)
                    || (!names.contains(name) && exists|i: int|
                    0 <= i < found.len() && (#[trigger] found[i]).name == name)
        }),
{
    let step = state.download_processes_found(names, found);
    let others = found_names(untracked(names, found));
    let all = names + others;
    lemma_untracked_first(names, found);
    lemma_kills_at(names, found);
    lemma_kills_monotone(names, found, found.len() as int);
    let kills = kill_actions(names, found);
    assert forall|i: int| 0 <= i < found.len() implies {
        let end = #[trigger] kills_before(names, found, i + 1);
        &&& step.actions[end - 1] == (ActionModel::KillProcess {
            name: found[i].name,
            pid: found[i].pid,
        })
        &&& first_other_at(names, found, i) ==> step.actions[end - 2]
            == ActionModel::SendGuardCommand("STOP:"@ + found[i].name)
    } by {
        let end = kills_before(names, found, i + 1);
        assert(1 <= end <= kills.len());
        assert(step.actions[end - 1] == kills[end - 1]);
        if first_other_at(names, found, i) {
            assert(2 <= end);
            assert(step.actions[end - 2] == kills[end - 2]);
        }
    }
    assert(step.actions.last() == ActionModel::StartDownload(all));
    assert(all.take(names.len() as int) =~= names);
    assert forall|i: int| #[trigger] first_other_at(names, found, i) implies all[names.len()
        + kills_before(names, found, i) - i] == found[i].name by {
        let k = kills_before(names, found, i) - i;
        assert(0 <= k < others.len() && others[k] == found[i].name);
        assert(all[names.len() + k] == others[k]);
    }
    assert forall|name: Seq<char>| #[trigger]
        step.state.stopped_configs.contains(name) <==> state.stopped_configs.contains(name) || (
        !names.contains(name) && exists|i: int|
            0 <= i < found.len() && (#[trigger] found[i]).name == name) by {
        assert(others.to_set().contains(name) <==> others.contains(name));
    }
}

proof fn lemma_untracked_first(names: Seq<Seq<char>>, found: Seq<DiscoveredModel>)
    ensures
        forall|name: Seq<char>| #[trigger]
            found_names(untracked(names, found)).contains(name) <==> !names.contains(name)
                && exists|i: int| 0 <= i < found.len() && (#[trigger] found[i]).name == name,
        forall|i: int| #[trigger]
            first_other_at(names, found, i) ==> {
                let k = kills_before(names, found, i) - i;
                0 <= k < untracked(names, found).len() && found_names(untracked(names, found))[k]
                    == found[i].name
            },
        untracked(names, found).len() == kills_before(names, found, found.len() as int)
            - found.len(),
    decreases found.len(),
{
    let now = found_names(untracked(names, found));
    if found.len() > 0 {
        let rest = found.drop_last();
        let last = found.len() - 1;
        let earlier = found_names(untracked(names, rest));
        lemma_untracked_first(names, rest);
        lemma_kills_prefix(names, found, last);
        assert(earlier.contains(found[last].name) <==> !names.contains(found[last].name) && exists|
            i: int,
        | 0 <= i < last && (#[trigger] found[i]).name == found[last].name) by {
            if exists|i: int| 0 <= i < last && (#[trigger] found[i]).name == found[last].name {
                let i = choose|i: int|
                    0 <= i < last && (#[trigger] found[i]).name == found[last].name;
                assert(rest[i] == found[i]);
            }
            if earlier.contains(found[last].name) {
                let i = choose|i: int|
                    0 <= i < rest.len() && (#[trigger] rest[i]).name == found[last].name;
                assert(found[i] == rest[i]);
            }
        }
        if first_other_at(names, found, last) {
            assert(now =~= earlier.push(found[last].name));
            assert(now[earlier.len() as int] == found[last].name);
        } else {
            assert(now == earlier);
        }
        assert forall|i: int| #[trigger] first_other_at(names, found, i) implies {
            let k = kills_before(names, found, i) - i;
            0 <= k < now.len() && now[k] == found[i].name
        } by {
            let k = kills_before(names, found, i) - i;
            if i < last {
                lemma_kills_prefix(names, found, i);
                assert(first_other_at(names, rest, i)) by {
                    assert(forall|j: int| 0 <= j <= i ==> found[j] == rest[j]);
                }
                assert(earlier[k] == found[i].name);
                assert(now[k] == earlier[k]);
            } else {
                assert(k == earlier.len());
            }
        }
        assert forall|name: Seq<char>| #[trigger] now.contains(name) <==> !names.contains(name)
            && exists|i: int| 0 <= i < found.len() && (#[trigger] found[i]).name == name by {
            if now.contains(name) {
                let k = choose|k: int| 0 <= k < now.len() && now[k] == name;
                if k < earlier.len() {
                    assert(earlier[k] == name);
                    assert(earlier.contains(name));
                    let i = choose|i: int|
                        0 <= i < rest.len() && (#[trigger] rest[i]).name == name;
                    assert(found[i].name == name);
                } else {
                    assert(found[last].name == name);
                }
            }
            if !names.contains(name) && exists|i: int|
                0 <= i < found.len() && (#[trigger] found[i]).name == name {
                let i = choose|i: int| 0 <= i < found.len() && (#[trigger] found[i]).name == name;
                if i < last {
                    assert(rest[i].name == name);
                    assert(earlier.contains(name));
                    let k = choose|k: int| 0 <= k < earlier.len() && earlier[k] == name;
                    assert(now[k] == name);
                } else if !first_other_at(names, found, last) {
                    let j = choose|j: int| 0 <= j < i && (#[trigger] found[j]).name == name;
                    assert(rest[j].name == name);
                    assert(earlier.contains(name));
                }
            }
        }
    } else {
        assert(now =~= Seq::empty());
    }
}

/// What comes behind a process does not matter for the actions before it.
proof fn lemma_kills_prefix(names: Seq<Seq<char>>, found: Seq<DiscoveredModel>, n: int)
    requires
        0 <= n < found.len(),
    ensures
        kills_before(names, found, n) == kills_before(names, found.drop_last(), n),
    decreases n,
{
    if n > 0 {
        let rest = found.drop_last();
        lemma_kills_prefix(names, found, n - 1);
        assert(first_other_at(names, found, n - 1) <==> first_other_at(names, rest, n - 1)) by {
            assert(forall|j: int| 0 <= j < n ==> found[j] == rest[j]);
        }
    }
}

proof fn lemma_kills_monotone(names: Seq<Seq<char>>, found: Seq<DiscoveredModel>, n: int)
    requires
        0 <= n <= found.len(),
    ensures
        forall|i: int|
            0 <= i < n ==> {
                let end = #[trigger] kills_before(names, found, i + 1);
                &&& 1 <= end <= kills_before(names, found, n)
                &&& first_other_at(names, found, i) ==> 2 <= end
            },
        kills_before(names, found, n) >= 0,
    decreases n,
{
    if n > 0 {
        lemma_kills_monotone(names, found, n - 1);
    }
}

proof fn lemma_kills_at(names: Seq<Seq<char>>, found: Seq<DiscoveredModel>)
    ensures
        kill_actions(names, found).len() == kills_before(names, found, found.len() as int),
        forall|i: int|
            0 <= i < found.len() ==> {
                let end = #[trigger] kills_before(names, found, i + 1);
                &&& kill_actions(names, found)[end - 1] == (ActionModel::KillProcess {
                    name: found[i].name,
                    pid: found[i].pid,
                })
                &&& first_other_at(names, found, i) ==> kill_actions(names, found)[end - 2]
                    == ActionModel::SendGuardCommand("STOP:"@ + found[i].name)
            },
    decreases found.len(),
{
    if found.len() > 0 {
        let rest = found.drop_last();
        let last = found.len() - 1;
        let kills = kill_actions(names, found);
        let earlier = kill_actions(names, rest);
        lemma_kills_at(names, rest);
        lemma_untracked_first(names, rest);
        lemma_kills_prefix(names, found, last);
        lemma_kills_monotone(names, rest, last);
        let told = found_names(untracked(names, rest));
        assert(first_other_at(names, found, last) <==> !names.contains(found[last].name)
            && !told.contains(found[last].name)) by {
            if told.contains(found[last].name) {
                let i = choose|i: int|
                    0 <= i < rest.len() && (#[trigger] rest[i]).name == found[last].name;
                assert(found[i].name == found[last].name);
            }
            if !first_other_at(names, found, last) && !names.contains(found[last].name) {
                let j = choose|j: int|
                    0 <= j < last && (#[trigger] found[j]).name == found[last].name;
                assert(rest[j].name == found[last].name);
            }
        }
        assert forall|i: int| 0 <= i < found.len() implies {
            let end = #[trigger] kills_before(names, found, i + 1);
            &&& kills[end - 1] == (ActionModel::KillProcess {
                name: found[i].name,
                pid: found[i].pid,
            })
            &&& first_other_at(names, found, i) ==> kills[end - 2]
                == ActionModel::SendGuardCommand("STOP:"@ + found[i].name)
        } by {
            if i < last {
                lemma_kills_prefix(names, found, i + 1);
                let end = kills_before(names, rest, i + 1);
                assert(1 <= end <= earlier.len());
                assert(rest[i] == found[i]);
                assert(kills[end - 1] == earlier[end - 1]);
                if first_other_at(names, found, i) {
                    assert(first_other_at(names, rest, i)) by {
                        assert(forall|j: int| 0 <= j <= i ==> found[j] == rest[j]);
                    }
                    assert(kills[end - 2] == earlier[end - 2]);
                }
            }
        }
    }
}

/// Progress is shown while a download goes on, and passed over otherwise.
pub proof fn law_progress(state: AppModel, percent: u64)
    ensures
        state.is_downloading ==> state.download_progress(percent) == (Step {
            state: AppModel { download_percent: percent, ..state },
            actions: seq![ActionModel::Notify],
        }),
        !state.is_downloading ==> state.download_progress(percent) == (Step {
            state,
            actions: Seq::empty(),
        }),
{
}

/// A download that is over is reported, and every name that was handed on is
/// started again, in order, whatever came of it; after a good one the version is
/// asked for first. Nothing else changes.
pub proof fn law_download_over(
    state: AppModel,
    names: Seq<Seq<char>>,
    res: Result<(), Seq<char>>,
)
    ensures
        ({
            let step = state.download_finished(names, res);
            let n = names.len() as int;
            let at: int = if res is Ok {
                3
            } else {
                2
            };
            &&& step.actions.len() == at + n + 1
            &&& step.actions[0] == ActionModel::Notify
            &&& step.actions[1] == ActionModel::ClearStatusLater
            &&& res is Ok ==> step.actions[2] == ActionModel::DetectVersion
            &&& forall|i: int|
                0 <= i < n ==> step.actions[at + i] == ActionModel::Restart(#[trigger] names[i])
            &&& step.actions.last() == ActionModel::Notify
            &&& step.state == (AppModel {
                is_downloading: false,
                status_message: match res {
                    Ok(_) => Some("frpc 更新成功"@),
                    Err(e) => Some("更新失败："@ + e),
                },
                status_level: match res {
                    Ok(_) => MessageLevel::Success,
                    Err(_) => MessageLevel::Error,
                },
                ..state
            })
        }),
{
}

/// What was stopped for an update is let go by the guard, unmarked and started.
pub proof fn law_restart_after_download(state: AppModel, name: Seq<char>)
    ensures
        ({
            let step = state.restart_after_download(name);
            let free = AppModel {
                stopped_configs: state.stopped_configs.remove(name),
                ..state
            };
            &&& step.state == free
            &&& step.actions == seq![ActionModel::SendGuardCommand("START:"@ + name)]
                + free.start_config(name).actions
        }),
{
    assert(state.stopped_configs.remove(name).remove(name) =~= state.stopped_configs.remove(name));
}

/// The version is asked for where frpc is there, and not shown where it is not;
/// what is told is shown.
pub proof fn law_version_shown(state: AppModel, version: Seq<char>)
    ensures
        state.detect_frpc_version(true) == (Step {
            state,
            actions: seq![ActionModel::RunVersionCommand],
        }),
        state.detect_frpc_version(false) == (Step {
            state: AppModel { frpc_version: None, ..state },
            actions: seq![ActionModel::Notify],
        }),
        state.with_version(version) == (Step {
            state: AppModel { frpc_version: Some(version), ..state },
            actions: seq![ActionModel::Notify],
        }),
{
}

// The service and the regular checks.

/// Registering and removing the service are begun in the background, which
/// shows.
pub proof fn law_service_begun(state: AppModel)
    ensures
        state.install_service() == (Step {
            state: AppModel { is_processing: true, status_message: None, ..state },
            actions: seq![ActionModel::Notify, ActionModel::InstallService],
        }),
        state.uninstall_service() == (Step {
            state: AppModel { is_processing: true, status_message: None, ..state },
            actions: seq![ActionModel::Notify, ActionModel::UninstallService],
        }),
{
}

/// A registered service takes all marks away, and changes neither the guard nor
/// a process; a failure changes the message only. Nothing goes on any more.
pub proof fn law_service_installed(state: AppModel, e: Seq<char>)
    ensures
        ({
            let drawn = seq![
                ActionModel::Notify,
                ActionModel::ClearStatusLater,
                ActionModel::Notify,
            ];
            let done = state.service_installed(Ok(()));
            let failed = state.service_installed(Err(e));
            &&& done.state == (AppModel {
                is_processing: false,
                service_registered: true,
                stopped_configs: Set::empty(),
                status_message: Some("注册成功，重启电脑后生效"@),
                status_level: MessageLevel::Success,
                ..state
            })
            &&& failed.state == (AppModel {
                is_processing: false,
                status_message: Some("注册失败："@ + e),
                status_level: MessageLevel::Error,
                ..state
            })
            &&& done.actions == drawn && failed.actions == drawn
        }),
{
}

/// A removed service takes the guard and all marks with it, here, in the
/// settings and in the service itself; then the processes are looked for. A
/// failure changes the message only. Nothing goes on any more.
pub proof fn law_service_uninstalled(state: AppModel, e: Seq<char>)
    ensures
        state.service_uninstalled(Ok(())) == (Step {
            state: AppModel {
                is_processing: false,
                service_registered: false,
                process_guard: false,
                stopped_configs: Set::empty(),
                ..state
            },
            actions: seq![
                ActionModel::DropGuardSetting,
                ActionModel::SendGuardCommand("CLEAR"@),
                ActionModel::FindProcessesAfterUninstall,
            ],
        }),
        state.service_uninstalled(Err(e)) == (Step {
            state: AppModel {
                is_processing: false,
                status_message: Some("注销失败："@ + e),
                status_level: MessageLevel::Error,
                ..state
            },
            actions: seq![
                ActionModel::Notify,
                ActionModel::ClearStatusLater,
                ActionModel::Notify,
            ],
        }),
{
}

/// Whether the living process at `i` is the first one found for its name.
pub open spec fn first_alive_at(found: Seq<DiscoveredModel>, i: int) -> bool {
    &&& 0 <= i < found.len()
    &&& found[i].alive
    &&& forall|j: int|
        0 <= j < i && (#[trigger] found[j]).alive ==> found[j].name != found[i].name
}

/// Whether `after` is `before` with, for each name that it lacks, the first
/// living process that was found, and nothing else.
pub open spec fn taken_over(
    before: Map<Seq<char>, u32>,
    found: Seq<DiscoveredModel>,
    after: Map<Seq<char>, u32>,
) -> bool {
    &&& forall|name: Seq<char>| #[trigger]
        before.contains_key(name) ==> after.contains_key(name) && after[name] == before[name]
    &&& forall|i: int| #[trigger]
        first_alive_at(found, i) && !before.contains_key(found[i].name) ==> after.contains_key(
            found[i].name,
        ) && after[found[i].name] == found[i].pid
    &&& forall|name: Seq<char>| #[trigger]
        after.contains_key(name) && !before.contains_key(name) ==> exists|i: int| #[trigger]
            first_alive_at(found, i) && found[i].name == name
}

proof fn lemma_adopted_first(running: Map<Seq<char>, u32>, found: Seq<DiscoveredModel>)
    ensures
        taken_over(running, found, adopted(running, found)),
        forall|i: int|
            0 <= i < found.len() && (#[trigger] found[i]).alive ==> adopted(
                running,
                found,
            ).contains_key(found[i].name),
    decreases found.len(),
{
    if found.len() > 0 {
        let rest = found.drop_last();
        let last = found.len() - 1;
        let earlier = adopted(running, rest);
        let after = adopted(running, found);
        lemma_adopted_first(running, rest);
        assert forall|name: Seq<char>| #[trigger] running.contains_key(name) implies
            after.contains_key(name) && after[name] == running[name] by {
            assert(earlier.contains_key(name));
        }
        assert forall|i: int| #[trigger] first_alive_at(found, i) && !running.contains_key(
            found[i].name,
        ) implies after.contains_key(found[i].name) && after[found[i].name] == found[i].pid by {
            if i < last {
                assert(first_alive_at(rest, i)) by {
                    assert(forall|j: int| 0 <= j <= i ==> found[j] == rest[j]);
                }
            } else if earlier.contains_key(found[last].name) {
                let k = choose|k: int| #[trigger]
                    first_alive_at(rest, k) && rest[k].name == found[last].name;
                assert(found[k] == rest[k]);
            }
        }
        assert forall|name: Seq<char>| #[trigger] after.contains_key(name)
            && !running.contains_key(name) implies exists|i: int| #[trigger]
            first_alive_at(found, i) && found[i].name == name by {
            if earlier.contains_key(name) {
                let k = choose|k: int| #[trigger] first_alive_at(rest, k) && rest[k].name == name;
                assert(first_alive_at(found, k)) by {
                    assert(forall|j: int| 0 <= j <= k ==> found[j] == rest[j]);
                }
                assert(found[k].name == name);
            } else {
                assert forall|j: int| 0 <= j < last && (#[trigger] found[j]).alive implies
                    found[j].name != found[last].name by {
                    assert(rest[j] == found[j]);
                }
                assert(first_alive_at(found, last));
            }
        }
        assert forall|i: int|
            0 <= i < found.len() && (#[trigger] found[i]).alive implies after.contains_key(
            found[i].name,
        ) by {
            if i < last {
                assert(rest[i] == found[i]);
            }
        }
    }
}

/// After the service was removed the living processes that the table lacks are
/// taken over if frpc is there, the marks stay as they are, and the removal is
/// reported.
pub proof fn law_processes_after_removal(state: AppModel, found: Seq<DiscoveredModel>)
    ensures
        forall|frpc_present: bool|
            {
                let step = #[trigger] state.uninstall_processes_found(found, frpc_present);
                &&& frpc_present ==> taken_over(state.running, found, step.state.running)
                &&& !frpc_present ==> step.state.running == state.running
                &&& step.state == (AppModel {
                    running: step.state.running,
                    status_message: Some("已注销"@),
                    status_level: MessageLevel::Success,
                    ..state
                })
                &&& step.actions == seq![
                    ActionModel::Notify,
                    ActionModel::ClearStatusLater,
                    ActionModel::Notify,
                ]
            },
{
    lemma_adopted_first(state.running, found);
}

/// In every state a check drops just the processes that have exited, is drawn
/// just where there is one, searches just where that is due, and then waits.
pub proof fn law_check(state: AppModel, exited: Seq<Seq<char>>, due: bool)
    ensures
        ({
            let step = state.health_check(exited, due);
            let wait = ActionModel::WaitProcessChanged;
            &&& forall|name: Seq<char>| #[trigger]
                step.state.running.contains_key(name) <==> state.running.contains_key(name)
                    && !exited.contains(name)
            &&& forall|name: Seq<char>| #[trigger]
                step.state.running.contains_key(name) ==> step.state.running[name]
                    == state.running[name]
            &&& step.state == (AppModel { running: step.state.running, ..state })
            &&& exited.len() == 0 && !due ==> step.actions == seq![wait]
            &&& exited.len() == 0 && due ==> step.actions == seq![ActionModel::FindProcesses, wait]
            &&& exited.len() > 0 && !due ==> step.actions == seq![ActionModel::Notify, wait]
            &&& exited.len() > 0 && due ==> step.actions == seq![
                ActionModel::Notify,
                ActionModel::FindProcesses,
                wait,
            ]
            &&& step.actions.contains(ActionModel::FindProcesses) <==> due
        }),
{
    let step = state.health_check(exited, due);
    let wait = ActionModel::WaitProcessChanged;
    assert(exited.len() == 0 && !due ==> step.actions =~= seq![wait]);
    assert(exited.len() == 0 && due ==> step.actions =~= seq![ActionModel::FindProcesses, wait]);
    assert(exited.len() > 0 && !due ==> step.actions =~= seq![ActionModel::Notify, wait]);
    assert(exited.len() > 0 && due ==> step.actions =~= seq![
        ActionModel::Notify,
        ActionModel::FindProcesses,
        wait,
    ]);
    if due {
        let at: int = if exited.len() > 0 {
            1
        } else {
            0
        };
        assert(step.actions[at] == ActionModel::FindProcesses);
    }
    assert forall|name: Seq<char>| #[trigger]
        step.state.running.contains_key(name) <==> state.running.contains_key(name)
            && !exited.contains(name) by {
        assert(exited.to_set().contains(name) <==> exited.contains(name));
    }
}

/// A check asks for a search just where the service is registered, and it has
/// signaled or the two checks before asked for none.
pub proof fn law_check_searches(
    state: AppModel,
    exited: Seq<Seq<char>>,
    tick: nat,
    signaled: bool,
)
    ensures
        state.health_check(
            exited,
            discovery_due(tick, signaled, state.service_registered),
        ).actions.contains(ActionModel::FindProcesses) <==> state.service_registered && (signaled
            || tick >= 2),
{
    law_check(state, exited, discovery_due(tick, signaled, state.service_registered));
}

/// A search takes over the living processes that the table lacks, if frpc is
/// there, and takes the marks from just these; that is drawn. Where it takes
/// over none, or frpc is not there, nothing happens.
pub proof fn law_search_takes_over(state: AppModel, found: Seq<DiscoveredModel>)
    ensures
        state.health_processes_found(found, false) == (Step { state, actions: Seq::empty() }),
        ({
            let step = state.health_processes_found(found, true);
            let new = exists|name: Seq<char>|
                step.state.running.contains_key(name) && !state.running.contains_key(name);
            &&& taken_over(state.running, found, step.state.running)
            &&& forall|name: Seq<char>| #[trigger]
                step.state.stopped_configs.contains(name) <==> state.stopped_configs.contains(name)
                    && !(step.state.running.contains_key(name) && !state.running.contains_key(
                    name,
                ))
            &&& step.state == (AppModel {
                running: step.state.running,
                stopped_configs: step.state.stopped_configs,
                ..state
            })
            &&& new ==> step.actions == seq![ActionModel::Notify]
            &&& !new ==> step == (Step { state, actions: Seq::empty() })
        }),
{
    lemma_adopted_first(state.running, found);
    let step = state.health_processes_found(found, true);
    let after = adopted(state.running, found);
    let new_names = newly_adopted(state.running, found);
    assert forall|name: Seq<char>| #[trigger] new_names.contains(name) <==> after.contains_key(name)
        && !state.running.contains_key(name) by {}
    if new_names == Set::<Seq<char>>::empty() {
        assert forall|name: Seq<char>| after.contains_key(name) implies state.running.contains_key(
            name,
        ) by {
            assert(!new_names.contains(name));
        }
        assert(after =~= state.running);
    } else {
        let name = choose|name: Seq<char>| new_names.contains(name);
        assert(exists|n: Seq<char>| new_names.contains(n)) by {
            if forall|n: Seq<char>| !new_names.contains(n) {
                assert(new_names =~= Set::empty());
            }
        }
        assert(step.state.running.contains_key(name) && !state.running.contains_key(name));
    }
}

} // verus!
