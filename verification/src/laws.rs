//! What holds of the application across its operations.
use crate::editing::{
    config_names, copy_name, first_config, is_next_number, lemma_next_number_exists,
    numbered_copy, plain_copy, total_pages,
};
use crate::guard::GuardCommand;
use crate::monitor::{
    adopted, discovery_due, lemma_adopted_extends, newly_adopted, searches_at, tick_after, tick_at,
    CHECKS_PER_DISCOVERY,
};
use crate::preferences::{filter_of, log_levels};
use crate::processes::first_named;
use crate::startup::place_of;
use crate::state::{restored, status_actions, AppModel, Step};
use crate::table::{is_listing, process_names, ProcessModel};
use crate::text::{
    decimal, is_blank, is_config_name, is_name_char, is_white_space, lemma_config_name_trimmed,
    lemma_decimal_digits, lemma_decimal_injective, lemma_trimmed_blank, trimmed,
};
use crate::types::{
    ActionModel, ConfigModel, DiscoveredModel, EntryModel, LogFilter, MessageLevel, PageModel,
};
use crate::update::{
    found_names, kill_actions, percent_done, restart_actions, stop_actions, untracked, version,
};
use vstd::prelude::*;

verus! {

// Text.

/// Trimming a text twice is trimming it once.
pub proof fn law_trim_idempotent(s: Seq<char>)
    ensures
        trimmed(trimmed(s)) == trimmed(s),
    decreases s.len(),
{
    if s.len() > 0 {
        if is_white_space(s.first()) {
            law_trim_idempotent(s.drop_first());
        } else if is_white_space(s.last()) {
            law_trim_idempotent(s.drop_last());
        }
    }
}

/// The version that is shown is never empty.
pub proof fn law_version_not_empty(stdout: Seq<char>, stderr: Seq<char>)
    ensures
        version(stdout, stderr).len() > 0,
{
    lemma_trimmed_blank(stdout);
    lemma_trimmed_blank(stderr);
    reveal_strlit("未知版本");
}

// Commands to the guard.

/// The position behind which only digits follow is that of the last colon.
proof fn lemma_last_colon(a: Seq<char>, p: nat, b: Seq<char>, q: nat)
    requires
        a + ":"@ + decimal(p) == b + ":"@ + decimal(q),
    ensures
        a == b,
        p == q,
{
    reveal_strlit(":");
    lemma_decimal_digits(p);
    lemma_decimal_digits(q);
    let x = a + ":"@ + decimal(p);
    let y = b + ":"@ + decimal(q);
    assert(x.len() == a.len() + 1 + decimal(p).len());
    assert(y.len() == b.len() + 1 + decimal(q).len());
    assert(x[a.len() as int] == ':');
    assert(y[b.len() as int] == ':');
    if a.len() < b.len() {
        assert(b.len() < x.len());
        assert(x[b.len() as int] == decimal(p)[b.len() - a.len() - 1]);
    } else if b.len() < a.len() {
        assert(a.len() < y.len());
        assert(y[a.len() as int] == decimal(q)[a.len() - b.len() - 1]);
    }
    assert(a =~= x.take(a.len() as int));
    assert(b =~= y.take(b.len() as int));
    assert(decimal(p) =~= x.skip((a.len() + 1) as int));
    assert(decimal(q) =~= y.skip((b.len() + 1) as int));
    lemma_decimal_injective(p, q);
}

/// The guard can tell every command from every other by its text.
pub proof fn law_guard_commands_distinct(a: GuardCommand, b: GuardCommand)
    requires
        a.text() == b.text(),
    ensures
        a == b,
{
    reveal_strlit("START:");
    reveal_strlit("STOP:");
    reveal_strlit("TRACK:");
    reveal_strlit("CLEAR");
    let s = a.text();
    let t = b.text();
    assert(s[0] == t[0]);
    assert(s[1] == t[1]);
    assert(s[2] == t[2]);
    match (a, b) {
        (GuardCommand::Start(m), GuardCommand::Start(n)) => {
            assert(m =~= s.skip(6));
            assert(n =~= t.skip(6));
        },
        (GuardCommand::Stop(m), GuardCommand::Stop(n)) => {
            assert(m =~= s.skip(5));
            assert(n =~= t.skip(5));
        },
        (GuardCommand::Track(m, p), GuardCommand::Track(n, q)) => {
            assert(s.skip(6) =~= m + ":"@ + decimal(p as nat));
            assert(t.skip(6) =~= n + ":"@ + decimal(q as nat));
            lemma_last_colon(m, p as nat, n, q as nat);
        },
        _ => {},
    }
}

// Configurations.

/// The name for a copy belongs to no configuration yet, and is the name that
/// was copied with `-copy`, or with `-copy-` and a number from 2 on.
pub proof fn law_copy_name_free(existing: Seq<Seq<char>>, name: Seq<char>)
    ensures
        !existing.contains(copy_name(existing, name)),
        copy_name(existing, name) == plain_copy(name) || exists|n: nat|
            n >= 2 && copy_name(existing, name) == #[trigger] numbered_copy(name, n),
{
    if existing.contains(plain_copy(name)) {
        lemma_next_number_exists(existing, name);
        let n = choose|n: nat| is_next_number(existing, name, n);
        assert(is_next_number(existing, name, n));
        assert(copy_name(existing, name) == numbered_copy(name, n));
    }
}

/// The name for a copy is one that a configuration can be saved under, if the
/// name that was copied is.
pub proof fn law_copy_name_valid(existing: Seq<Seq<char>>, name: Seq<char>)
    requires
        is_config_name(name),
    ensures
        is_config_name(copy_name(existing, name)),
{
    reveal_strlit("-copy");
    reveal_strlit("-copy-");
    law_copy_name_free(existing, name);
    let copy = copy_name(existing, name);
    if copy == plain_copy(name) {
        assert forall|i: int| 0 <= i < copy.len() implies is_name_char(#[trigger] copy[i]) by {
            if i < name.len() {
                assert(copy[i] == name[i]);
            } else {
                assert(copy[i] == "-copy"@[i - name.len()]);
            }
        }
    } else {
        let n = choose|n: nat| n >= 2 && copy == #[trigger] numbered_copy(name, n);
        lemma_decimal_digits(n);
        assert forall|i: int| 0 <= i < copy.len() implies is_name_char(#[trigger] copy[i]) by {
            if i < name.len() {
                assert(copy[i] == name[i]);
            } else if i < name.len() + 6 {
                assert(copy[i] == "-copy-"@[i - name.len()]);
            } else {
                assert(copy[i] == decimal(n)[i - name.len() - 6]);
            }
        }
    }
}

/// A copy is stored with the content of its source, with what is known of the
/// source, and under a name that no configuration has; the state stays
/// as it is until then.
pub proof fn law_duplicate_keeps_the_rest(state: AppModel, name: Seq<char>, content: Seq<char>)
    ensures
        state.duplicate_config(name, Ok(content)).state == state,
        state.duplicate_config(name, Ok(content)).actions.len() == 1,
        state.duplicate_config(name, Ok(content)).actions[0] matches ActionModel::SaveCopy(entry)
            && entry.content == content && !config_names(state.configs).contains(entry.name) && (
        first_config(state.configs, name) matches Some(c) ==> entry.auto_start == c.auto_start
            && entry.server_addr == c.server_addr && entry.proxies == c.proxies),
{
    law_copy_name_free(config_names(state.configs), name);
}

/// After the configurations were taken up, the list is on a page that there
/// is, or on the first one; a page that there still is stays.
pub proof fn law_reload_page_exists(state: AppModel, configs: Seq<ConfigModel>)
    ensures
        state.reload(configs).config_page == 0 || state.reload(configs).config_page < total_pages(
            configs.len(),
        ),
        state.config_page < total_pages(configs.len()) ==> state.reload(configs).config_page
            == state.config_page,
        state.reload(configs).configs == configs,
{
}

/// The pages of the list are just enough for the configurations.
pub proof fn law_pages_suffice(n: nat)
    ensures
        n <= total_pages(n) * 8,
        n > 0 ==> (total_pages(n) - 1) * 8 < n,
        n == 0 ==> total_pages(n) == 0,
{
}

/// A name that is empty or has other characters than names have, and a blank
/// content, are refused with an error; nothing is deleted or stored, and
/// nothing changes but the message and what stands in the editor.
pub proof fn law_bad_input_refused(state: AppModel, name_text: Seq<char>, content_text: Seq<char>)
    requires
        !is_config_name(trimmed(name_text)) || is_blank(content_text),
    ensures
        ({
            let step = state.save_config(name_text, content_text);
            &&& step.actions == status_actions()
            &&& step.state.status_message is Some
            &&& step.state == (AppModel {
                edit_name: name_text,
                edit_content: content_text,
                status_message: step.state.status_message,
                status_level: MessageLevel::Error,
                ..state
            })
        }),
{
}

/// Everything else is saved under the name without the white space at its
/// ends, after a look at whether a new configuration's name is taken; no
/// message is put up.
pub proof fn law_good_input_accepted(state: AppModel, name_text: Seq<char>, content_text: Seq<char>)
    requires
        is_config_name(trimmed(name_text)),
        !is_blank(content_text),
    ensures
        ({
            let step = state.save_config(name_text, content_text);
            let name = trimmed(name_text);
            &&& step.state == (AppModel {
                edit_name: name_text,
                edit_content: content_text,
                ..state
            })
            &&& step.actions.len() > 0
            &&& step.actions.last() == (if state.page == (PageModel::ConfigEditor {
                original_name: None,
            }) {
                ActionModel::CheckConfigExists(name)
            } else {
                ActionModel::ValidateToml { name, content: content_text }
            })
        }),
{
}

/// A new configuration never replaces one that is stored.
pub proof fn law_taken_name_refused(state: AppModel, name: Seq<char>)
    ensures
        state.save_config_checked(name, true).actions == status_actions(),
        state.save_config_checked(name, true).state.page == state.page,
        state.page == (PageModel::ConfigEditor { original_name: None })
            ==> state.save_config_checked(name, false).actions == seq![
            ActionModel::ValidateToml { name, content: state.edit_content },
        ],
{
    assert(state.page == (PageModel::ConfigEditor { original_name: None })
        ==> state.save_config_checked(name, false).actions =~= seq![
        ActionModel::ValidateToml { name, content: state.edit_content },
    ]);
}

/// Saving a stored configuration as the editor shows it stores it under the
/// same name with the same content and the same start flag, and deletes
/// nothing.
pub proof fn law_edit_and_save_keeps(
    state: AppModel,
    name: Seq<char>,
    content: Seq<char>,
    server_addr: Seq<char>,
    proxies: Seq<Seq<char>>,
)
    requires
        is_config_name(name),
        !is_blank(content),
    ensures
        ({
            let opened = state.open_edit_config(name, Ok(content));
            let saving = opened.state.save_config(name, content);
            let stored = saving.state.save_config_validated(name, Ok((server_addr, proxies)));
            &&& opened.actions == seq![
                ActionModel::SetNameInput(name),
                ActionModel::SetContentInput(content),
            ]
            &&& saving.actions == seq![ActionModel::ValidateToml { name, content }]
            &&& stored.actions == seq![
                ActionModel::SaveConfig(
                    EntryModel {
                        name,
                        content,
                        auto_start: match first_config(state.configs, name) {
                            Some(c) => c.auto_start,
                            None => false,
                        },
                        server_addr,
                        proxies,
                    },
                ),
            ]
        }),
{
    lemma_config_name_trimmed(name);
    let opened = state.open_edit_config(name, Ok(content));
    let saving = opened.state.save_config(name, content);
    assert(saving.actions =~= seq![ActionModel::ValidateToml { name, content }]);
}

/// Saving a stored configuration under another name deletes it under its old
/// name.
pub proof fn law_rename_replaces(
    state: AppModel,
    name: Seq<char>,
    new_name: Seq<char>,
    content: Seq<char>,
)
    requires
        is_config_name(new_name),
        new_name != name,
        !is_blank(content),
        state.page == (PageModel::ConfigEditor { original_name: Some(name) }),
    ensures
        state.save_config(new_name, content).actions == seq![
            ActionModel::DeleteReplaced(name),
            ActionModel::ValidateToml { name: new_name, content },
        ],
{
    lemma_config_name_trimmed(new_name);
    assert(state.save_config(new_name, content).actions =~= seq![
        ActionModel::DeleteReplaced(name),
        ActionModel::ValidateToml { name: new_name, content },
    ]);
}

/// A configuration that is deleted does not run any more: its process is
/// stopped before it is deleted.
pub proof fn law_delete_stops(state: AppModel, name: Seq<char>)
    ensures
        !state.delete_config(name).state.running.contains_key(name),
        state.delete_config(name).actions.last() == ActionModel::DeleteConfig(name),
        state.running.contains_key(name) ==> state.delete_config(name).actions[0]
            == (ActionModel::StopProcess { name, pid: state.running[name] }),
{
}

// Processes.

/// Starting a configuration that runs does nothing.
pub proof fn law_start_of_running_does_nothing(state: AppModel, name: Seq<char>)
    requires
        state.running.contains_key(name),
    ensures
        state.start_config(name) == state.stay(),
{
}

/// With the service registered and frpc there, the first process that is found
/// for a configuration is taken over if it lives, and none is started beside it.
pub proof fn law_no_second_process(
    state: AppModel,
    name: Seq<char>,
    found: Seq<DiscoveredModel>,
    pid: u32,
)
    requires
        state.service_registered,
        !state.running.contains_key(name),
        first_named(found, name) == Some(DiscoveredModel { name, pid, alive: true }),
    ensures
        state.start_config(name).actions == seq![ActionModel::FindProcess(name)],
        state.start_config_found(name, found, true) == (Step {
            state: state.with_running(name, pid),
            actions: seq![ActionModel::Notify],
        }),
{
}

/// The state after a start that goes well from end to end.
pub open spec fn started(
    state: AppModel,
    name: Seq<char>,
    found: Seq<DiscoveredModel>,
    frpc_present: bool,
    pid: u32,
) -> AppModel {
    let begun = if state.service_registered {
        state.start_config(name).state.start_config_found(name, found, frpc_present).state
    } else {
        state.start_config(name).state
    };
    begun.start_config_checked(name, true).state.process_spawned(name, Ok(pid)).state
}

/// A start that goes well leaves the process in the table and the
/// configuration unmarked; all other processes and marks stay.
pub proof fn law_start_succeeds(
    state: AppModel,
    name: Seq<char>,
    found: Seq<DiscoveredModel>,
    frpc_present: bool,
    pid: u32,
)
    requires
        !state.running.contains_key(name),
        state.service_registered ==> first_named(found, name) is None,
    ensures
        started(state, name, found, frpc_present, pid) == (AppModel {
            running: state.running.insert(name, pid),
            stopped_configs: state.stopped_configs.remove(name),
            is_processing: false,
            status_message: None,
            ..state
        }),
{
}

/// Stopping what was started leaves the processes as they were before, with
/// the configuration marked as stopped by hand.
pub proof fn law_stop_undoes_start(
    state: AppModel,
    name: Seq<char>,
    found: Seq<DiscoveredModel>,
    frpc_present: bool,
    pid: u32,
)
    requires
        !state.running.contains_key(name),
        state.service_registered ==> first_named(found, name) is None,
    ensures
        ({
            let running = started(state, name, found, frpc_present, pid);
            let stopping = running.stop_config(name);
            let stopped = stopping.state.process_stopped(name, Ok(()));
            &&& stopping.actions.last() == (ActionModel::StopInBackground { name, pid })
            &&& stopped.state.running == state.running
            &&& stopped.state.stopped_configs == state.stopped_configs.insert(name)
            &&& !stopped.state.is_processing
        }),
{
    law_start_succeeds(state, name, found, frpc_present, pid);
    assert(state.running.insert(name, pid).remove(name) =~= state.running);
    assert(state.stopped_configs.remove(name).insert(name) =~= state.stopped_configs.insert(name));
}

/// A configuration that is stopped does not run, is marked as stopped by
/// hand, and the guard is told first of all; no other process changes.
pub proof fn law_stop_marks(state: AppModel, name: Seq<char>)
    ensures
        ({
            let step = state.stop_config(name);
            &&& step.actions[0] == ActionModel::SendGuardCommand(GuardCommand::Stop(name).text())
            &&& step.state.running == state.running.remove(name)
            &&& step.state.stopped_configs == state.stopped_configs.insert(name)
        }),
{
    if !state.running.contains_key(name) {
        assert(state.running.remove(name) =~= state.running);
    }
}

/// However the stop in a restart ends, the configuration is not left marked
/// as stopped by hand, and the guard is told so.
pub proof fn law_restart_leaves_no_mark(
    state: AppModel,
    name: Seq<char>,
    res: Result<(), Seq<char>>,
)
    ensures
        state.restart_stopped(name, res).state.stopped_configs == state.stopped_configs.remove(
            name,
        ),
        state.restart_stopped(name, res).actions[0] == ActionModel::SendGuardCommand(
            GuardCommand::Start(name).text(),
        ),
{
    assert(state.stopped_configs.remove(name).remove(name) =~= state.stopped_configs.remove(name));
}

/// A restart whose stop succeeds starts the configuration.
pub proof fn law_restart_starts_again(state: AppModel, name: Seq<char>)
    requires
        state.running.contains_key(name),
    ensures
        ({
            let stopping = state.restart_config(name);
            let restarted = stopping.state.restart_stopped(name, Ok(()));
            &&& stopping.actions.last() == (ActionModel::StopForRestart {
                name,
                pid: state.running[name],
            })
            &&& restarted.state.stopped_configs == state.stopped_configs.remove(name)
            &&& restarted.actions.contains(
                if state.service_registered {
                    ActionModel::FindProcess(name)
                } else {
                    ActionModel::CheckExecutable(name)
                },
            )
        }),
{
    let stopping = state.restart_config(name);
    let restarted = stopping.state.restart_stopped(name, Ok(()));
    law_restart_leaves_no_mark(stopping.state, name, Ok(()));
    assert(state.stopped_configs.insert(name).remove(name) =~= state.stopped_configs.remove(name));
    if state.service_registered {
        assert(restarted.actions[1] == ActionModel::FindProcess(name));
    } else {
        assert(restarted.actions[2] == ActionModel::CheckExecutable(name));
    }
}

/// A restart whose stop fails starts nothing, and says so.
pub proof fn law_failed_restart_starts_nothing(state: AppModel, name: Seq<char>, e: Seq<char>)
    ensures
        ({
            let step = state.restart_stopped(name, Err(e));
            &&& step.state.running == state.running
            &&& step.state.status_message is Some
            &&& step.state.status_level == MessageLevel::Error
            &&& step.actions == seq![
                ActionModel::SendGuardCommand(GuardCommand::Start(name).text()),
            ] + status_actions() + seq![ActionModel::Notify]
        }),
{
}

/// The guard is told of every process that is started if the service is
/// registered, and of none if it is not.
pub proof fn law_started_process_tracked(state: AppModel, name: Seq<char>, pid: u32)
    ensures
        ({
            let actions = state.process_spawned(name, Ok(pid)).actions;
            &&& state.service_registered ==> actions[0] == ActionModel::SendGuardCommand(
                GuardCommand::Track(name, pid).text(),
            )
            &&& !state.service_registered ==> forall|i: int|
                0 <= i < actions.len() ==> !(#[trigger] actions[i] is SendGuardCommand)
        }),
{
}

/// A report about a process that is not in the table any more is passed over.
pub proof fn law_late_reports_ignored(
    state: AppModel,
    name: Seq<char>,
    connected: bool,
    status: Option<Seq<char>>,
)
    requires
        !state.running.contains_key(name),
    ensures
        state.connection_reported(name, connected) == state.stay(),
        state.exit_checked(name, status) == state.stay(),
{
}

/// A process that exits right after its start is dropped, and reported as an
/// error.
pub proof fn law_early_exit_reported(state: AppModel, name: Seq<char>, status: Seq<char>)
    requires
        state.running.contains_key(name),
    ensures
        ({
            let step = state.exit_checked(name, Some(status));
            &&& step.state.running == state.running.remove(name)
            &&& step.state.status_message is Some
            &&& step.state.status_level == MessageLevel::Error
        }),
{
}

/// What goes on in the background ends with a report, whatever comes of it.
pub proof fn law_processing_ends(
    state: AppModel,
    name: Seq<char>,
    spawned: Result<u32, Seq<char>>,
    res: Result<(), Seq<char>>,
)
    ensures
        !state.process_spawned(name, spawned).state.is_processing,
        !state.process_stopped(name, res).state.is_processing,
        !state.restart_stopped(name, res).state.is_processing,
        !state.service_installed(res).state.is_processing,
        !state.service_uninstalled(res).state.is_processing,
{
}

// Processes that were found.

/// Whether `found` has a living process of this name and id.
pub open spec fn found_alive(found: Seq<DiscoveredModel>, name: Seq<char>, pid: u32) -> bool {
    found.contains(DiscoveredModel { name, pid, alive: true })
}

/// What an earlier session left running is just what was found alive.
pub proof fn law_restored_is_alive(found: Seq<DiscoveredModel>)
    ensures
        forall|name: Seq<char>| #[trigger]
            restored(found).contains_key(name) ==> found_alive(found, name, restored(found)[name]),
        forall|i: int|
            0 <= i < found.len() && (#[trigger] found[i]).alive ==> restored(found).contains_key(
                found[i].name,
            ),
    decreases found.len(),
{
    if found.len() > 0 {
        let rest = found.drop_last();
        law_restored_is_alive(rest);
        assert forall|name: Seq<char>| #[trigger]
            restored(found).contains_key(name) implies found_alive(
            found,
            name,
            restored(found)[name],
        ) by {
            if found.last().alive && found.last().name == name {
                assert(found[found.len() - 1] == (DiscoveredModel {
                    name,
                    pid: restored(found)[name],
                    alive: true,
                }));
            } else {
                let d = DiscoveredModel { name, pid: restored(rest)[name], alive: true };
                assert(rest.contains(d));
                let k = choose|k: int| 0 <= k < rest.len() && rest[k] == d;
                assert(found[k] == d);
            }
        }
        assert forall|i: int|
            0 <= i < found.len() && (#[trigger] found[i]).alive implies restored(
            found,
        ).contains_key(found[i].name) by {
            if i < rest.len() {
                assert(rest[i] == found[i]);
            }
        }
    }
}

/// Taking over processes keeps those in the table, adds only living ones, and
/// leaves out none.
pub proof fn law_adopted_is_alive(running: Map<Seq<char>, u32>, found: Seq<DiscoveredModel>)
    ensures
        running.submap_of(adopted(running, found)),
        forall|name: Seq<char>| #[trigger]
            adopted(running, found).contains_key(name) && !running.contains_key(name)
                ==> found_alive(found, name, adopted(running, found)[name]),
        forall|i: int|
            0 <= i < found.len() && (#[trigger] found[i]).alive ==> adopted(
                running,
                found,
            ).contains_key(found[i].name),
    decreases found.len(),
{
    lemma_adopted_extends(running, found);
    if found.len() > 0 {
        let rest = found.drop_last();
        law_adopted_is_alive(running, rest);
        let after = adopted(running, found);
        assert forall|name: Seq<char>| #[trigger]
            after.contains_key(name) && !running.contains_key(name) implies found_alive(
            found,
            name,
            after[name],
        ) by {
            if adopted(running, rest).contains_key(name) {
                let d = DiscoveredModel { name, pid: adopted(running, rest)[name], alive: true };
                assert(rest.contains(d));
                let k = choose|k: int| 0 <= k < rest.len() && rest[k] == d;
                assert(found[k] == d);
            } else {
                assert(found[found.len() - 1] == (DiscoveredModel {
                    name,
                    pid: after[name],
                    alive: true,
                }));
            }
        }
        assert forall|i: int| 0 <= i < found.len() && (#[trigger] found[i]).alive implies after.contains_key(
            found[i].name,
        ) by {
            if i < rest.len() {
                assert(rest[i] == found[i]);
            }
        }
    }
}

/// A process that a regular check takes over is not marked as stopped by
/// hand; the marks of all others stay.
pub proof fn law_adopted_not_marked(
    state: AppModel,
    found: Seq<DiscoveredModel>,
    frpc_present: bool,
    name: Seq<char>,
)
    ensures
        ({
            let after = state.health_processes_found(found, frpc_present).state;
            let new = after.running.contains_key(name) && !state.running.contains_key(name);
            after.stopped_configs.contains(name) == (state.stopped_configs.contains(name) && !new)
        }),
{
    let after = state.health_processes_found(found, frpc_present).state;
    if frpc_present && newly_adopted(state.running, found) != Set::<Seq<char>>::empty() {
        assert(newly_adopted(state.running, found).contains(name) <==> after.running.contains_key(
            name,
        ) && !state.running.contains_key(name));
    }
}

// Regular checks.

/// A regular check starts nothing and adds nothing: it drops the processes
/// that have exited, and keeps every other and every mark. The search that may
/// follow starts nothing either.
pub proof fn law_check_only_drops(state: AppModel, exited: Seq<Seq<char>>, due: bool)
    ensures
        ({
            let after = state.health_check(exited, due).state;
            &&& after.running.submap_of(state.running)
            &&& forall|name: Seq<char>| #[trigger]
                after.running.contains_key(name) <==> state.running.contains_key(name)
                    && !exited.contains(name)
            &&& after.stopped_configs == state.stopped_configs
        }),
        forall|i: int|
            0 <= i < state.health_check(exited, due).actions.len() ==> {
                let action = #[trigger] state.health_check(exited, due).actions[i];
                action is Notify || action is FindProcesses || action is WaitProcessChanged
            },
        forall|found: Seq<DiscoveredModel>, frpc_present: bool, i: int|
            0 <= i < state.health_processes_found(found, frpc_present).actions.len() ==> (
            #[trigger] state.health_processes_found(found, frpc_present).actions[i]) is Notify,
{
    let after = state.health_check(exited, due).state;
    assert forall|name: Seq<char>| #[trigger]
        after.running.contains_key(name) <==> state.running.contains_key(name) && !exited.contains(
        name,
    ) by {
        assert(exited.to_set().contains(name) <==> exited.contains(name));
    }
}

/// With the service registered and no signal from it, a run of checks searches
/// for processes that others started in exactly the checks 3, 6, 9 and so on.
pub proof fn law_search_every_third_check(
    signaled: spec_fn(nat) -> bool,
    registered: spec_fn(nat) -> bool,
    n: nat,
)
    requires
        n >= 1,
        forall|k: nat| 1 <= k <= n ==> #[trigger] registered(k) && !signaled(k),
    ensures
        searches_at(signaled, registered, n) <==> n % 3 == 0,
{
    lemma_tick_at(signaled, registered, n);
    assert(registered(n) && !signaled(n));
}

proof fn lemma_tick_at(signaled: spec_fn(nat) -> bool, registered: spec_fn(nat) -> bool, n: nat)
    requires
        n >= 1,
        forall|k: nat| 1 <= k < n ==> #[trigger] registered(k) && !signaled(k),
    ensures
        tick_at(signaled, registered, n) == (n - 1) % 3,
    decreases n,
{
    if n > 1 {
        let m = (n - 1) as nat;
        lemma_tick_at(signaled, registered, m);
        assert(registered(m) && !signaled(m));
    }
}

/// A search restarts the count: with the service registered and no signal since
/// the search in check `s`, every third check after it searches, and no other.
pub proof fn law_search_restarts_count(
    signaled: spec_fn(nat) -> bool,
    registered: spec_fn(nat) -> bool,
    s: nat,
    n: nat,
)
    requires
        1 <= s <= n,
        searches_at(signaled, registered, s),
        forall|k: nat| s < k <= n ==> #[trigger] registered(k) && !signaled(k),
    ensures
        searches_at(signaled, registered, n) <==> (n - s) % 3 == 0,
{
    if n > s {
        lemma_tick_after_search(signaled, registered, s, n);
        assert(registered(n) && !signaled(n));
    }
}

proof fn lemma_tick_after_search(
    signaled: spec_fn(nat) -> bool,
    registered: spec_fn(nat) -> bool,
    s: nat,
    n: nat,
)
    requires
        1 <= s < n,
        searches_at(signaled, registered, s),
        forall|k: nat| s < k < n ==> #[trigger] registered(k) && !signaled(k),
    ensures
        tick_at(signaled, registered, n) == (n - s - 1) % 3,
    decreases n,
{
    if n > s + 1 {
        let m = (n - 1) as nat;
        lemma_tick_after_search(signaled, registered, s, m);
        assert(registered(m) && !signaled(m));
    }
}

/// A signal before check `s` makes that check search and restarts the count:
/// with the service registered and no further signal, every third check after
/// it searches, and no other.
pub proof fn law_signal_restarts_count(
    signaled: spec_fn(nat) -> bool,
    registered: spec_fn(nat) -> bool,
    s: nat,
    n: nat,
)
    requires
        1 <= s <= n,
        signaled(s),
        registered(s),
        forall|k: nat| s < k <= n ==> #[trigger] registered(k) && !signaled(k),
    ensures
        searches_at(signaled, registered, s),
        searches_at(signaled, registered, n) <==> (n - s) % 3 == 0,
{
    law_search_restarts_count(signaled, registered, s, n);
}

/// A check that is made without the service registered does not search, in
/// whatever run.
pub proof fn law_no_search_without_service(
    signaled: spec_fn(nat) -> bool,
    registered: spec_fn(nat) -> bool,
    n: nat,
)
    requires
        !registered(n),
    ensures
        !searches_at(signaled, registered, n),
{
}

/// With the service registered and no signal from it, one of any three checks
/// in a row searches for processes that others started.
pub proof fn law_one_search_in_three_checks(tick: nat)
    requires
        tick < CHECKS_PER_DISCOVERY,
    ensures
        ({
            let second = tick_after(tick, false, true);
            let third = tick_after(second, false, true);
            let due = |t: nat| discovery_due(t, false, true);
            &&& due(tick) || due(second) || due(third)
            &&& !(due(tick) && due(second)) && !(due(tick) && due(third)) && !(due(second) && due(
                third,
            ))
            &&& tick_after(third, false, true) == tick
        }),
{
}

/// The count never runs past the number of checks between two searches, and
/// with the service registered it stays below.
pub proof fn law_count_bounded(tick: nat, signaled: bool, service_registered: bool)
    requires
        tick <= CHECKS_PER_DISCOVERY,
    ensures
        tick_after(tick, signaled, service_registered) <= CHECKS_PER_DISCOVERY,
        service_registered ==> tick_after(tick, signaled, service_registered)
            < CHECKS_PER_DISCOVERY,
{
}

/// A signal of the service makes the next check search at once; without the
/// service no check does.
pub proof fn law_signal_searches_at_once(tick: nat, signaled: bool)
    ensures
        discovery_due(tick, true, true),
        !discovery_due(tick, signaled, false),
{
}

/// A signal that comes while the service is not registered is not lost: the
/// first check after the registration searches.
pub proof fn law_signal_is_kept(tick: nat)
    ensures
        discovery_due(tick_after(tick, true, false), false, true),
{
}

// Updates.

/// The state and the last action once all processes were stopped for an
/// update.
pub open spec fn all_stopped(
    state: AppModel,
    procs: Seq<ProcessModel>,
    found: Seq<DiscoveredModel>,
) -> Step {
    state.do_download(procs).state.download_processes_found(process_names(procs), found)
}

/// The names of those that are killed are not among the names before, and no
/// name comes twice; together they are all the names that were found.
proof fn lemma_untracked(names: Seq<Seq<char>>, found: Seq<DiscoveredModel>)
    ensures
        found_names(untracked(names, found)).no_duplicates(),
        forall|n: Seq<char>| #[trigger]
            found_names(untracked(names, found)).contains(n) <==> found_names(found).contains(n)
                && !names.contains(n),
    decreases found.len(),
{
    let now = untracked(names, found);
    if found.len() == 0 {
        assert(found_names(now) =~= Seq::empty());
        assert(found_names(found) =~= Seq::empty());
    } else {
        let rest = found.drop_last();
        let last = found.last().name;
        lemma_untracked(names, rest);
        let earlier = untracked(names, rest);
        assert(found_names(found) =~= found_names(rest).push(last));
        lemma_push_contains(found_names(rest), last);
        if !(names.contains(last) || found_names(earlier).contains(last)) {
            assert(found_names(now) =~= found_names(earlier).push(last));
            lemma_push_contains(found_names(earlier), last);
            assert forall|i: int, j: int|
                0 <= i < found_names(now).len() && 0 <= j < found_names(now).len() && i
                    != j implies found_names(now)[i] != found_names(now)[j] by {
                let e = found_names(earlier);
                if i < e.len() {
                    assert(e.contains(e[i]));
                }
                if j < e.len() {
                    assert(e.contains(e[j]));
                }
            }
        }
    }
}

proof fn lemma_push_contains<A>(s: Seq<A>, a: A)
    ensures
        forall|x: A| #[trigger] s.push(a).contains(x) <==> s.contains(x) || x == a,
{
    assert forall|x: A| #[trigger] s.push(a).contains(x) <==> s.contains(x) || x == a by {
        if s.contains(x) {
            let k = choose|k: int| 0 <= k < s.len() && s[k] == x;
            assert(s.push(a)[k] == x);
        }
        assert(s.push(a)[s.len() as int] == a);
    }
}

/// Before frpc is fetched, the table is emptied, and the names of what was in
/// it and of what was found are handed on, each once, and marked as stopped.
pub proof fn law_update_hands_on_names(
    state: AppModel,
    procs: Seq<ProcessModel>,
    found: Seq<DiscoveredModel>,
)
    requires
        is_listing(procs, state.running),
    ensures
        ({
            let step = all_stopped(state, procs, found);
            let names = process_names(procs) + found_names(untracked(process_names(procs), found));
            &&& step.actions.last() == ActionModel::StartDownload(names)
            &&& names.no_duplicates()
            &&& names.to_set() == state.running.dom().union(found_names(found).to_set())
            &&& step.state.running == Map::<Seq<char>, u32>::empty()
            &&& step.state.stopped_configs == state.stopped_configs.union(names.to_set())
            &&& step.state.is_downloading
        }),
{
    let mine = process_names(procs);
    let others = found_names(untracked(mine, found));
    let names = mine + others;
    lemma_untracked(mine, found);
    assert forall|n: Seq<char>| names.contains(n) <==> mine.contains(n) || others.contains(n) by {
        if mine.contains(n) {
            let k = choose|k: int| 0 <= k < mine.len() && mine[k] == n;
            assert(names[k] == n);
        }
        if others.contains(n) {
            let k = choose|k: int| 0 <= k < others.len() && others[k] == n;
            assert(names[mine.len() + k] == n);
        }
        if names.contains(n) {
            let k = choose|k: int| 0 <= k < names.len() && names[k] == n;
            if k < mine.len() {
                assert(mine[k] == n);
            } else {
                assert(others[k - mine.len()] == n);
            }
        }
    }
    assert forall|i: int, j: int|
        0 <= i < names.len() && 0 <= j < names.len() && i != j implies names[i] != names[j] by {
        if i < mine.len() && j >= mine.len() {
            assert(mine.contains(mine[i]));
            assert(others.contains(others[j - mine.len()]));
        }
        if j < mine.len() && i >= mine.len() {
            assert(mine.contains(mine[j]));
            assert(others.contains(others[i - mine.len()]));
        }
    }
    assert(mine.to_set() == state.running.dom());
    assert forall|n: Seq<char>|
        #![trigger names.to_set().contains(n)]
        names.to_set().contains(n) <==> state.running.dom().union(
            found_names(found).to_set(),
        ).contains(n) by {
        assert(mine.to_set().contains(n) <==> mine.contains(n));
        assert(others.contains(n) <==> found_names(found).contains(n) && !mine.contains(n));
    }
    assert(names.to_set() =~= state.running.dom().union(found_names(found).to_set()));
    assert forall|n: Seq<char>|
        #![trigger state.stopped_configs.union(names.to_set()).contains(n)]
        state.stopped_configs.union(names.to_set()).contains(n) <==> all_stopped(
            state,
            procs,
            found,
        ).state.stopped_configs.contains(n) by {
        assert(mine.to_set().contains(n) <==> mine.contains(n));
        assert(others.to_set().contains(n) <==> others.contains(n));
    }
    assert(all_stopped(state, procs, found).state.stopped_configs
        =~= state.stopped_configs.union(names.to_set()));
}

/// Before frpc is fetched, every process of the table is told to stop, and the
/// guard is told so.
pub proof fn law_update_stops_each(state: AppModel, procs: Seq<ProcessModel>, name: Seq<char>)
    requires
        is_listing(procs, state.running),
        state.running.contains_key(name),
    ensures
        state.do_download(procs).actions.contains(
            ActionModel::StopProcess { name, pid: state.running[name] },
        ),
        state.do_download(procs).actions.contains(
            ActionModel::SendGuardCommand(GuardCommand::Stop(name).text()),
        ),
{
    let names = process_names(procs);
    let actions = state.do_download(procs).actions;
    assert(names.to_set().contains(name));
    let i = choose|i: int| 0 <= i < names.len() && names[i] == name;
    assert(procs[i].name == name);
    lemma_stop_actions(procs, i);
    assert(actions[1 + 2 * i] == stop_actions(procs)[2 * i]);
    assert(actions[2 + 2 * i] == stop_actions(procs)[2 * i + 1]);
}

proof fn lemma_stop_actions(procs: Seq<ProcessModel>, i: int)
    requires
        0 <= i < procs.len(),
    ensures
        stop_actions(procs).len() == 2 * procs.len(),
        stop_actions(procs)[2 * i] == ActionModel::SendGuardCommand(
            GuardCommand::Stop(procs[i].name).text(),
        ),
        stop_actions(procs)[2 * i + 1] == (ActionModel::StopProcess {
            name: procs[i].name,
            pid: procs[i].pid,
        }),
    decreases procs.len(),
{
    lemma_stop_actions_len(procs);
    let rest = procs.drop_last();
    lemma_stop_actions_len(rest);
    if i < rest.len() {
        lemma_stop_actions(rest, i);
    }
}

proof fn lemma_stop_actions_len(procs: Seq<ProcessModel>)
    ensures
        stop_actions(procs).len() == 2 * procs.len(),
    decreases procs.len(),
{
    if procs.len() > 0 {
        lemma_stop_actions_len(procs.drop_last());
    }
}

/// Before frpc is fetched, every process that still runs is killed, also one
/// of several with the same name, and also one whose name stood in the table.
/// Of a name that did not stand in the table the guard is told.
pub proof fn law_update_kills_each(
    state: AppModel,
    procs: Seq<ProcessModel>,
    found: Seq<DiscoveredModel>,
    i: int,
)
    requires
        0 <= i < found.len(),
    ensures
        ({
            let actions = all_stopped(state, procs, found).actions;
            &&& actions.contains(
                ActionModel::KillProcess { name: found[i].name, pid: found[i].pid },
            )
            &&& !process_names(procs).contains(found[i].name) ==> actions.contains(
                ActionModel::SendGuardCommand(GuardCommand::Stop(found[i].name).text()),
            )
            &&& actions.last() is StartDownload
        }),
{
    let names = process_names(procs);
    let actions = all_stopped(state, procs, found).actions;
    let kills = kill_actions(names, found);
    lemma_kill_actions(names, found, i);
    assert forall|a: ActionModel| kills.contains(a) implies actions.contains(a) by {
        let k = choose|k: int| 0 <= k < kills.len() && kills[k] == a;
        assert(actions[k] == a);
    }
}

proof fn lemma_kill_actions(names: Seq<Seq<char>>, found: Seq<DiscoveredModel>, i: int)
    requires
        0 <= i < found.len(),
    ensures
        kill_actions(names, found).contains(
            ActionModel::KillProcess { name: found[i].name, pid: found[i].pid },
        ),
        !names.contains(found[i].name) ==> kill_actions(names, found).contains(
            ActionModel::SendGuardCommand(GuardCommand::Stop(found[i].name).text()),
        ),
    decreases found.len(),
{
    let rest = found.drop_last();
    let kills = kill_actions(names, found);
    let earlier = kill_actions(names, rest);
    assert forall|a: ActionModel| earlier.contains(a) implies kills.contains(a) by {
        let k = choose|k: int| 0 <= k < earlier.len() && earlier[k] == a;
        assert(kills[k] == a);
    }
    if i < rest.len() {
        lemma_kill_actions(names, rest, i);
    } else {
        let name = found[i].name;
        assert(kills.last() == (ActionModel::KillProcess { name, pid: found[i].pid }));
        assert(kills.contains(kills.last()));
        if !names.contains(name) {
            lemma_untracked(names, rest);
            if found_names(untracked(names, rest)).contains(name) {
                let j = choose|j: int| 0 <= j < rest.len() && found_names(rest)[j] == name;
                assert(rest[j].name == name);
                lemma_kill_actions(names, rest, j);
            } else {
                assert(kills[earlier.len() as int] == ActionModel::SendGuardCommand(
                    GuardCommand::Stop(name).text(),
                ));
            }
        }
    }
}

/// Everything that was stopped for an update is started again, whatever came
/// of the download.
pub proof fn law_update_restarts_all(
    state: AppModel,
    names: Seq<Seq<char>>,
    res: Result<(), Seq<char>>,
    i: int,
)
    requires
        0 <= i < names.len(),
    ensures
        state.download_finished(names, res).actions.contains(ActionModel::Restart(names[i])),
        !state.download_finished(names, res).state.is_downloading,
{
    let actions = state.download_finished(names, res).actions;
    assert(restart_actions(names)[i] == ActionModel::Restart(names[i]));
    if res is Ok {
        assert(actions[3 + i] == ActionModel::Restart(names[i]));
    } else {
        assert(actions[2 + i] == ActionModel::Restart(names[i]));
    }
}

/// The state when the configurations were begun to be started again, one
/// after the other.
pub open spec fn restarted(state: AppModel, names: Seq<Seq<char>>) -> AppModel
    decreases names.len(),
{
    if names.len() == 0 {
        state
    } else {
        restarted(state, names.drop_last()).restart_after_download(names.last()).state
    }
}

/// The restarts take back the marks that the update has set, and those of the
/// same configurations from before; no other mark changes.
pub proof fn law_update_marks_taken_back(state: AppModel, names: Seq<Seq<char>>)
    ensures
        restarted(state, names).stopped_configs == state.stopped_configs.difference(
            names.to_set(),
        ),
    decreases names.len(),
{
    if names.len() == 0 {
        assert(names.to_set() =~= Set::empty());
        assert(state.stopped_configs.difference(names.to_set()) =~= state.stopped_configs);
    } else {
        let rest = names.drop_last();
        law_update_marks_taken_back(state, rest);
        assert(names =~= rest.push(names.last()));
        rest.lemma_push_to_set_commute(names.last());
        assert(state.stopped_configs.difference(names.to_set())
            =~= state.stopped_configs.difference(rest.to_set()).remove(names.last()));
        let before = restarted(state, rest);
        assert(before.stopped_configs.remove(names.last()).remove(names.last())
            =~= before.stopped_configs.remove(names.last()));
    }
}

/// An update that runs through, well or not, leaves no mark on what it has
/// stopped, and every other mark as it was.
pub proof fn law_update_leaves_no_mark(
    state: AppModel,
    procs: Seq<ProcessModel>,
    found: Seq<DiscoveredModel>,
    res: Result<(), Seq<char>>,
)
    requires
        is_listing(procs, state.running),
    ensures
        ({
            let names = process_names(procs) + found_names(untracked(process_names(procs), found));
            let fetched = all_stopped(state, procs, found).state.download_finished(names, res);
            restarted(fetched.state, names).stopped_configs == state.stopped_configs.difference(
                state.running.dom().union(found_names(found).to_set()),
            )
        }),
{
    let names = process_names(procs) + found_names(untracked(process_names(procs), found));
    let fetched = all_stopped(state, procs, found).state.download_finished(names, res);
    law_update_hands_on_names(state, procs, found);
    law_update_marks_taken_back(fetched.state, names);
    assert(state.stopped_configs.union(names.to_set()).difference(names.to_set())
        =~= state.stopped_configs.difference(names.to_set()));
}

/// A configuration that was stopped for an update is let go by the guard and
/// started, unless it runs by then.
pub proof fn law_update_restart_starts(state: AppModel, name: Seq<char>)
    ensures
        ({
            let actions = state.restart_after_download(name).actions;
            &&& actions[0] == ActionModel::SendGuardCommand(GuardCommand::Start(name).text())
            &&& !state.running.contains_key(name) ==> actions.last() == (
            if state.service_registered {
                ActionModel::FindProcess(name)
            } else {
                ActionModel::CheckExecutable(name)
            })
        }),
{
}

/// With a process running, frpc is not replaced without the user's consent.
pub proof fn law_update_asks_first(state: AppModel, tag: Seq<char>)
    requires
        state.running != Map::<Seq<char>, u32>::empty(),
    ensures
        state.update_checked(Ok(Some(tag))).actions == seq![
            ActionModel::Notify,
            ActionModel::ConfirmUpdate,
        ],
        state.update_checked(Ok(Some(tag))).state.running == state.running,
{
}

/// The share of a download is between 0 and 100, grows with what is done, and
/// is 100 when all is done and not before.
pub proof fn law_percent(done: int, more: int, total: int)
    requires
        0 <= done <= more,
        0 <= total,
    ensures
        0 <= percent_done(done, total) <= 100,
        percent_done(done, total) <= percent_done(more, total),
        0 < total <= done ==> percent_done(done, total) == 100,
        0 <= done < total ==> percent_done(done, total) < 100,
        total == 0 ==> percent_done(done, total) == 0,
{
    if total > 0 {
        assert(0 <= done * 100 / total <= more * 100 / total) by (nonlinear_arith)
            requires
                0 <= done <= more,
                0 < total,
        ;
        if total <= done {
            assert(done * 100 / total >= 100) by (nonlinear_arith)
                requires
                    0 < total <= done,
            ;
        } else {
            assert(done * 100 / total < 100) by (nonlinear_arith)
                requires
                    0 <= done < total,
            ;
        }
    }
}

/// The progress is shown only while a download goes on.
pub proof fn law_progress_while_downloading(state: AppModel, percent: u64)
    ensures
        !state.is_downloading ==> state.download_progress(percent) == state.stay(),
        state.is_downloading ==> state.download_progress(percent).state == (AppModel {
            download_percent: percent,
            ..state
        }),
{
}

// The service.

/// Turning the process guard twice leaves it as it was.
pub proof fn law_guard_toggles_back(state: AppModel)
    requires
        state.service_registered,
    ensures
        state.toggle_process_guard().state.process_guard != state.process_guard,
        state.toggle_process_guard().state.toggle_process_guard().state == state,
{
}

/// The service takes up every change of the process guard that is stored: it
/// is started for one that is turned on, and told of one that is turned off.
pub proof fn law_guard_change_reaches_service(state: AppModel)
    requires
        state.service_registered,
    ensures
        ({
            let turned = state.toggle_process_guard();
            let stored = turned.state.guard_setting_saved(Ok(()));
            &&& turned.actions == seq![ActionModel::SaveGuardSetting(!state.process_guard)]
            &&& !state.process_guard ==> stored.actions == seq![ActionModel::StartService]
            &&& state.process_guard ==> stored.actions[0] == ActionModel::SignalGuardChanged
        }),
{
}

/// Without the service the process guard cannot be turned: nothing is stored,
/// and nothing changes but the message.
pub proof fn law_guard_needs_service(state: AppModel)
    requires
        !state.service_registered,
    ensures
        state.toggle_process_guard().actions == status_actions(),
        state.toggle_process_guard().state == (AppModel {
            status_message: state.toggle_process_guard().state.status_message,
            status_level: MessageLevel::Warning,
            ..state
        }),
{
}

/// Removing the service stops no process: each one that ran runs still, and
/// those that the service had started come to it.
pub proof fn law_uninstall_keeps_processes(
    state: AppModel,
    found: Seq<DiscoveredModel>,
    frpc_present: bool,
)
    ensures
        ({
            let removed = state.service_uninstalled(Ok(())).state;
            let after = removed.uninstall_processes_found(found, frpc_present).state;
            &&& removed.running == state.running
            &&& state.running.submap_of(after.running)
            &&& !after.service_registered
            &&& !after.process_guard
            &&& after.stopped_configs == Set::<Seq<char>>::empty()
        }),
{
    lemma_adopted_extends(state.running, found);
}

/// With the service registered anew, nothing is marked as stopped by hand.
pub proof fn law_install_clears_marks(state: AppModel)
    ensures
        state.service_installed(Ok(())).state.service_registered,
        state.service_installed(Ok(())).state.stopped_configs == Set::<Seq<char>>::empty(),
        state.service_installed(Ok(())).state.running == state.running,
{
}

/// A failed registration, or a failed removal, changes nothing but the
/// message.
pub proof fn law_service_failure_changes_nothing(state: AppModel, e: Seq<char>)
    ensures
        ({
            let a = state.service_installed(Err(e)).state;
            a == (AppModel {
                is_processing: false,
                status_message: a.status_message,
                status_level: MessageLevel::Error,
                ..state
            })
        }),
        ({
            let b = state.service_uninstalled(Err(e)).state;
            b == (AppModel {
                is_processing: false,
                status_message: b.status_message,
                status_level: MessageLevel::Error,
                ..state
            })
        }),
{
}

// The log level.

/// Each level that is offered is found at its own place, and stands for a
/// filter of its own.
pub proof fn law_offered_levels(i: int, j: int)
    requires
        0 <= i < log_levels().len(),
        0 <= j < log_levels().len(),
    ensures
        place_of(log_levels(), log_levels()[i]) == Some(i as nat),
        filter_of(log_levels()[i]) == filter_of(log_levels()[j]) ==> i == j,
{
    lemma_levels_distinct();
    reveal_with_fuel(place_of, 7);
    let l = log_levels();
    let l1 = l.drop_first();
    let l2 = l1.drop_first();
    let l3 = l2.drop_first();
    let l4 = l3.drop_first();
    let l5 = l4.drop_first();
    assert(l1[0] == l[1] && l2[0] == l[2] && l3[0] == l[3] && l4[0] == l[4] && l5[0] == l[5]);
}

/// A level that is not offered stands for the filter `Info`.
pub proof fn law_unknown_level(level: Seq<char>)
    requires
        !log_levels().contains(level),
    ensures
        filter_of(level) == LogFilter::Info,
{
    let l = log_levels();
    assert(l[0] == "off"@ && l[1] == "error"@ && l[2] == "warn"@ && l[4] == "debug"@ && l[5]
        == "trace"@);
    assert(l.contains(l[0]) && l.contains(l[1]) && l.contains(l[2]) && l.contains(l[4])
        && l.contains(l[5]));
}

proof fn lemma_levels_distinct()
    ensures
        log_levels().no_duplicates(),
{
    reveal_strlit("off");
    reveal_strlit("error");
    reveal_strlit("warn");
    reveal_strlit("info");
    reveal_strlit("debug");
    reveal_strlit("trace");
    let l = log_levels();
    assert(l[0].len() == 3 && l[1].len() == 5 && l[2].len() == 4 && l[3].len() == 4 && l[4].len()
        == 5 && l[5].len() == 5);
    assert(l[1][0] == 'e' && l[4][0] == 'd' && l[5][0] == 't' && l[2][0] == 'w' && l[3][0] == 'i');
}

} // verus!
