//! All that can happen to the application, and what holds through all of it.
use crate::editing::total_pages;
use crate::laws::law_reload_page_exists;
use crate::monitor::lemma_adopted_extends;
use crate::state::{AppModel, Step};
use crate::table::ProcessModel;
use crate::types::{ActionModel, ConfigModel, DiscoveredModel, MessageLevel, PageModel, PreCheckResult};
use crate::update::{kill_actions, restart_actions, stop_actions};
use vstd::prelude::*;

verus! {

/// What can happen to the application: what the user does, and what comes of
/// the actions.
pub enum Event {
    SwitchPage(PageModel),
    SwitchPageWithMessage(PageModel, Seq<char>, MessageLevel),
    SetStatusMessage(Seq<char>, MessageLevel),
    StatusExpired,
    ToggleProcessGuard,
    GuardSettingSaved(Result<(), Seq<char>>),
    GuardServiceStarted(Result<(), Seq<char>>),
    ThemeSelected(Option<Seq<char>>),
    LogLevelChosen(Seq<char>),
    LogLevelSet(Seq<char>, Result<(), Seq<char>>),
    LogLevelSaved(Seq<char>, Result<(), Seq<char>>),
    ReloadConfigs(Seq<ConfigModel>),
    OpenAddConfig,
    OpenEditConfig(Seq<char>, Result<Seq<char>, Seq<char>>),
    SaveConfig(Seq<char>, Seq<char>),
    SaveConfigChecked(Seq<char>, bool),
    SaveConfigValidated(Seq<char>, Result<(Seq<char>, Seq<Seq<char>>), Seq<char>>),
    ConfigSaved(Seq<char>, Result<Seq<ConfigModel>, Seq<char>>),
    DeleteConfig(Seq<char>),
    ConfigDeleted(Seq<char>, Result<Seq<ConfigModel>, Seq<char>>),
    DuplicateConfig(Seq<char>, Result<Seq<char>, Seq<char>>),
    ConfigCopied(Seq<char>, Result<Seq<ConfigModel>, Seq<char>>),
    StartConfig(Seq<char>),
    StartConfigFound(Seq<char>, Seq<DiscoveredModel>, bool),
    StartConfigChecked(Seq<char>, bool),
    ProcessSpawned(Seq<char>, Result<u32, Seq<char>>),
    ConnectionReported(Seq<char>, bool),
    ExitChecked(Seq<char>, Option<Seq<char>>),
    StopConfig(Seq<char>),
    ProcessStopped(Seq<char>, Result<(), Seq<char>>),
    RestartConfig(Seq<char>),
    RestartStopped(Seq<char>, Result<(), Seq<char>>),
    StartDownload,
    UpdateChecked(Result<Option<Seq<char>>, Seq<char>>),
    /// Before an update, processes that others started were found.
    UpdateProcessesFound,
    /// Before an update, no other process was found, or the user agreed.
    DoDownload(Seq<ProcessModel>),
    DownloadProcessesFound(Seq<Seq<char>>, Seq<DiscoveredModel>),
    DownloadProgress(u64),
    DownloadFinished(Seq<Seq<char>>, Result<(), Seq<char>>),
    RestartAfterDownload(Seq<char>),
    DetectVersion(bool),
    VersionReported(Seq<char>),
    InstallService,
    ServiceInstalled(Result<(), Seq<char>>),
    UninstallService,
    ServiceUninstalled(Result<(), Seq<char>>),
    UninstallProcessesFound(Seq<DiscoveredModel>, bool),
    HealthCheck(Seq<Seq<char>>, bool),
    HealthProcessesFound(Seq<DiscoveredModel>, bool),
}

impl AppModel {
    /// What an event makes of the state.
    pub open spec fn after(self, event: Event) -> Step {
        match event {
            Event::SwitchPage(page) => self.switch_page(page).stay(),
            Event::SwitchPageWithMessage(page, msg, level) => self.switch_page(
                page,
            ).set_status_message(msg, level),
            Event::SetStatusMessage(msg, level) => self.set_status_message(msg, level),
            Event::StatusExpired => self.without_status().ask(ActionModel::Notify),
            Event::ToggleProcessGuard => self.toggle_process_guard(),
            Event::GuardSettingSaved(res) => self.guard_setting_saved(res),
            Event::GuardServiceStarted(res) => self.guard_service_started(res),
            Event::ThemeSelected(choice) => self.on_theme_selected(choice),
            Event::LogLevelChosen(level) => self.log_level_chosen(level),
            Event::LogLevelSet(level, res) => self.log_level_set(level, res),
            Event::LogLevelSaved(level, res) => self.log_level_saved(level, res),
            Event::ReloadConfigs(configs) => self.reload(configs).ask(ActionModel::Notify),
            Event::OpenAddConfig => self.open_add_config(),
            Event::OpenEditConfig(name, content) => self.open_edit_config(name, content),
            Event::SaveConfig(name, content) => self.save_config(name, content),
            Event::SaveConfigChecked(name, exists) => self.save_config_checked(name, exists),
            Event::SaveConfigValidated(name, res) => self.save_config_validated(name, res),
            Event::ConfigSaved(name, res) => self.config_saved(name, res),
            Event::DeleteConfig(name) => self.delete_config(name),
            Event::ConfigDeleted(name, res) => self.config_deleted(name, res),
            Event::DuplicateConfig(name, content) => self.duplicate_config(name, content),
            Event::ConfigCopied(name, res) => self.config_copied(name, res),
            Event::StartConfig(name) => self.start_config(name),
            Event::StartConfigFound(name, found, present) => self.start_config_found(
                name,
                found,
                present,
            ),
            Event::StartConfigChecked(name, present) => self.start_config_checked(name, present),
            Event::ProcessSpawned(name, res) => self.process_spawned(name, res),
            Event::ConnectionReported(name, connected) => self.connection_reported(
                name,
                connected,
            ),
            Event::ExitChecked(name, status) => self.exit_checked(name, status),
            Event::StopConfig(name) => self.stop_config(name),
            Event::ProcessStopped(name, res) => self.process_stopped(name, res),
            Event::RestartConfig(name) => self.restart_config(name),
            Event::RestartStopped(name, res) => self.restart_stopped(name, res),
            Event::StartDownload => self.start_download(),
            Event::UpdateChecked(res) => self.update_checked(res),
            Event::UpdateProcessesFound => self.ask(ActionModel::ConfirmUpdate),
            Event::DoDownload(procs) => self.do_download(procs),
            Event::DownloadProcessesFound(names, found) => self.download_processes_found(
                names,
                found,
            ),
            Event::DownloadProgress(percent) => self.download_progress(percent),
            Event::DownloadFinished(names, res) => self.download_finished(names, res),
            Event::RestartAfterDownload(name) => self.restart_after_download(name),
            Event::DetectVersion(present) => self.detect_frpc_version(present),
            Event::VersionReported(version) => self.with_version(version),
            Event::InstallService => self.install_service(),
            Event::ServiceInstalled(res) => self.service_installed(res),
            Event::UninstallService => self.uninstall_service(),
            Event::ServiceUninstalled(res) => self.service_uninstalled(res),
            Event::UninstallProcessesFound(found, present) => self.uninstall_processes_found(
                found,
                present,
            ),
            Event::HealthCheck(exited, due) => self.health_check(exited, due),
            Event::HealthProcessesFound(found, present) => self.health_processes_found(
                found,
                present,
            ),
        }
    }

    /// The list is on a page that there is, or on the first one.
    pub open spec fn page_exists(self) -> bool {
        self.config_page == 0 || self.config_page < total_pages(self.configs.len())
    }

    /// The process guard is on only with the service registered.
    pub open spec fn guard_has_service(self) -> bool {
        self.process_guard ==> self.service_registered
    }
}

/// At the start the list is on a page that there is.
pub proof fn law_initial_page_exists(
    pre_check: PreCheckResult,
    configs: Seq<ConfigModel>,
    frpc_present: bool,
    found: Seq<DiscoveredModel>,
    process_guard: bool,
)
    ensures
        AppModel::initial(pre_check, configs, frpc_present, found, process_guard).page_exists(),
{
}

/// Whatever happens, the list stays on a page that there is.
#[verifier::spinoff_prover]
#[verifier::rlimit(60)]
pub proof fn law_page_always_exists(state: AppModel, event: Event)
    requires
        state.page_exists(),
    ensures
        state.after(event).state.page_exists(),
{
    match event {
        Event::ReloadConfigs(configs) => {
            law_reload_page_exists(state, configs);
        },
        Event::ConfigDeleted(_, Ok(configs)) => {
            law_reload_page_exists(state, configs);
        },
        Event::ConfigCopied(_, Ok(configs)) => {
            law_reload_page_exists(state, configs);
        },
        Event::ConfigSaved(_, Ok(_)) => {
            assert(state.after(event).state.config_page == 0);
        },
        _ => {
            assert(state.after(event).state.config_page == 0 || (state.after(event).state.configs
                == state.configs && state.after(event).state.config_page == state.config_page));
        },
    }
}

/// Whatever happens, the process guard is never on without the service, if it
/// was not so at the start.
pub proof fn law_guard_always_has_service(state: AppModel, event: Event)
    requires
        state.guard_has_service(),
    ensures
        state.after(event).state.guard_has_service(),
{
}

/// Whatever happens, a status message that is put up is taken down later.
pub proof fn law_messages_always_expire(state: AppModel, event: Event)
    ensures
        ({
            let step = state.after(event);
            step.state.status_message is Some && step.state.status_message != state.status_message
                ==> step.actions.contains(ActionModel::ClearStatusLater)
        }),
        state.after(Event::StatusExpired).state.status_message is None,
{
    let step = state.after(event);
    let later = ActionModel::ClearStatusLater;
    if step.state.status_message is Some && step.state.status_message != state.status_message {
        let actions = step.actions;
        assert((actions.len() > 1 && actions[1] == later) || (actions.len() > 2 && actions[2]
            == later) || (actions.len() > 3 && actions[3] == later));
    }
}

/// A configuration comes to be marked as stopped by hand only where it is
/// stopped: by the user, for a restart, or for an update.
pub proof fn law_marks_come_from_stops(state: AppModel, event: Event, name: Seq<char>)
    requires
        !state.stopped_configs.contains(name),
        state.after(event).state.stopped_configs.contains(name),
    ensures
        event == Event::StopConfig(name) || event == Event::RestartConfig(name)
            || event is DoDownload || event is DownloadProcessesFound,
{
}

/// A process comes into the table only where one was started or found.
pub proof fn law_processes_come_from_starts(state: AppModel, event: Event, name: Seq<char>)
    requires
        !state.running.contains_key(name),
        state.after(event).state.running.contains_key(name),
    ensures
        event is StartConfigFound || event is ProcessSpawned || event is UninstallProcessesFound
            || event is HealthProcessesFound,
{
}

/// A process leaves the table only where it is stopped or has exited: by a
/// stop, a restart or a deletion of its configuration, for an update, or in a
/// check.
pub proof fn law_processes_leave_by_stops(state: AppModel, event: Event, name: Seq<char>)
    requires
        state.running.contains_key(name),
        !state.after(event).state.running.contains_key(name),
    ensures
        event == Event::StopConfig(name) || event == Event::RestartConfig(name) || event
            == Event::DeleteConfig(name) || event is DoDownload || event is ExitChecked
            || event is HealthCheck,
{
    match event {
        Event::UninstallProcessesFound(found, _) => {
            lemma_adopted_extends(state.running, found);
        },
        Event::HealthProcessesFound(found, _) => {
            lemma_adopted_extends(state.running, found);
        },
        _ => {},
    }
}

/// Whether no action waits for the next check.
pub open spec fn never_waits(actions: Seq<ActionModel>) -> bool {
    forall|i: int| 0 <= i < actions.len() ==> !(#[trigger] actions[i] is WaitProcessChanged)
}

/// Each regular check has the next one waited for, just once and as its last
/// action; nothing else that happens asks for a wait. So the checks go on as
/// long as they find a state to check, and end once they do not.
pub proof fn law_checks_go_on_by_checks(state: AppModel, event: Event)
    ensures
        ({
            let actions = state.after(event).actions;
            &&& event is HealthCheck ==> actions.len() > 0 && actions.last()
                is WaitProcessChanged && never_waits(actions.drop_last())
            &&& !(event is HealthCheck) ==> never_waits(actions)
        }),
{
    match event {
        Event::HealthCheck(exited, due) => {
            lemma_check_waits(state, exited, due);
        },
        _ => {
            lemma_quiet(state, event);
            lemma_quiet_never_waits(state.after(event).actions);
        },
    }
}

/// `never_waits`, to be taken as a whole.
#[verifier::opaque]
spec fn quiet(actions: Seq<ActionModel>) -> bool {
    never_waits(actions)
}

proof fn lemma_quiet_never_waits(actions: Seq<ActionModel>)
    requires
        quiet(actions),
    ensures
        never_waits(actions),
{
    reveal(quiet);
}

proof fn lemma_check_waits(state: AppModel, exited: Seq<Seq<char>>, due: bool)
    ensures
        ({
            let actions = state.health_check(exited, due).actions;
            actions.len() > 0 && actions.last() is WaitProcessChanged && never_waits(
                actions.drop_last(),
            )
        }),
{
}

#[verifier::spinoff_prover]
proof fn lemma_quiet(state: AppModel, event: Event)
    requires
        !(event is HealthCheck),
    ensures
        quiet(state.after(event).actions),
{
    match event {
        Event::DoDownload(procs) => {
            lemma_do_download_does_not_wait(state, procs);
        },
        Event::DownloadProcessesFound(names, found) => {
            lemma_kills_do_not_wait(state, names, found);
        },
        Event::DownloadFinished(names, res) => {
            lemma_download_finished_does_not_wait(state, names, res);
        },
        _ => {
            lemma_plain_steps_do_not_wait();
            lemma_settings_do_not_wait(state);
            lemma_configs_do_not_wait(state);
            lemma_processes_do_not_wait(state);
            lemma_updates_do_not_wait(state);
            lemma_service_do_not_wait(state);
        },
    }
}

proof fn lemma_plain_steps_do_not_wait()
    ensures
        forall|state: AppModel| quiet((#[trigger] state.stay()).actions),
        forall|state: AppModel, action: ActionModel|
            !(action is WaitProcessChanged) ==> quiet((#[trigger] state.ask(action)).actions),
        forall|state: AppModel, msg: Seq<char>, level: MessageLevel|
            quiet((#[trigger] state.set_status_message(msg, level)).actions),
{
    reveal(quiet);
}

proof fn lemma_do_download_does_not_wait(state: AppModel, procs: Seq<ProcessModel>)
    ensures
        quiet(state.do_download(procs).actions),
{
    lemma_stop_actions_do_not_wait(procs);
    reveal(quiet);
}

proof fn lemma_kills_do_not_wait(
    state: AppModel,
    names: Seq<Seq<char>>,
    found: Seq<DiscoveredModel>,
)
    ensures
        quiet(state.download_processes_found(names, found).actions),
{
    lemma_kill_actions_do_not_wait(names, found);
    reveal(quiet);
}

#[verifier::spinoff_prover]
proof fn lemma_settings_do_not_wait(state: AppModel)
    ensures
        quiet(state.toggle_process_guard().actions),
        forall|res: Result<(), Seq<char>>|
            quiet((#[trigger] state.guard_setting_saved(res)).actions),
        forall|res: Result<(), Seq<char>>|
            quiet((#[trigger] state.guard_service_started(res)).actions),
        forall|choice: Option<Seq<char>>|
            quiet((#[trigger] state.on_theme_selected(choice)).actions),
        forall|level: Seq<char>|
            quiet((#[trigger] state.log_level_chosen(level)).actions),
        forall|level: Seq<char>, res: Result<(), Seq<char>>|
            quiet((#[trigger] state.log_level_set(level, res)).actions),
        forall|level: Seq<char>, res: Result<(), Seq<char>>|
            quiet((#[trigger] state.log_level_saved(level, res)).actions),
{
    reveal(quiet);
}

#[verifier::spinoff_prover]
proof fn lemma_configs_do_not_wait(state: AppModel)
    ensures
        quiet(state.open_add_config().actions),
        forall|name: Seq<char>, text: Result<Seq<char>, Seq<char>>|
            quiet((#[trigger] state.open_edit_config(name, text)).actions),
        forall|name: Seq<char>, content: Seq<char>|
            quiet((#[trigger] state.save_config(name, content)).actions),
        forall|name: Seq<char>, taken: bool|
            quiet((#[trigger] state.save_config_checked(name, taken)).actions),
        forall|name: Seq<char>, toml: Result<(Seq<char>, Seq<Seq<char>>), Seq<char>>|
            quiet((#[trigger] state.save_config_validated(name, toml)).actions),
        forall|name: Seq<char>, listing: Result<Seq<ConfigModel>, Seq<char>>|
            quiet((#[trigger] state.config_saved(name, listing)).actions),
        forall|name: Seq<char>|
            quiet((#[trigger] state.delete_config(name)).actions),
        forall|name: Seq<char>, listing: Result<Seq<ConfigModel>, Seq<char>>|
            quiet((#[trigger] state.config_deleted(name, listing)).actions),
        forall|name: Seq<char>, text: Result<Seq<char>, Seq<char>>|
            quiet((#[trigger] state.duplicate_config(name, text)).actions),
        forall|name: Seq<char>, listing: Result<Seq<ConfigModel>, Seq<char>>|
            quiet((#[trigger] state.config_copied(name, listing)).actions),
{
    reveal(quiet);
}

#[verifier::spinoff_prover]
proof fn lemma_processes_do_not_wait(state: AppModel)
    ensures
        forall|name: Seq<char>|
            quiet((#[trigger] state.start_config(name)).actions),
        forall|name: Seq<char>, found: Seq<DiscoveredModel>, present: bool|
            quiet((#[trigger] state.start_config_found(name, found, present)).actions),
        forall|name: Seq<char>, present: bool|
            quiet((#[trigger] state.start_config_checked(name, present)).actions),
        forall|name: Seq<char>, spawned: Result<u32, Seq<char>>|
            quiet((#[trigger] state.process_spawned(name, spawned)).actions),
        forall|name: Seq<char>, flag: bool|
            quiet((#[trigger] state.connection_reported(name, flag)).actions),
        forall|name: Seq<char>, status: Option<Seq<char>>|
            quiet((#[trigger] state.exit_checked(name, status)).actions),
        forall|name: Seq<char>|
            quiet((#[trigger] state.stop_config(name)).actions),
        forall|name: Seq<char>, res: Result<(), Seq<char>>|
            quiet((#[trigger] state.process_stopped(name, res)).actions),
        forall|name: Seq<char>|
            quiet((#[trigger] state.restart_config(name)).actions),
        forall|name: Seq<char>, res: Result<(), Seq<char>>|
            quiet((#[trigger] state.restart_stopped(name, res)).actions),
        forall|name: Seq<char>|
            quiet((#[trigger] state.restart_after_download(name)).actions),
{
    reveal(quiet);
}

#[verifier::spinoff_prover]
proof fn lemma_updates_do_not_wait(state: AppModel)
    ensures
        quiet(state.start_download().actions),
        forall|newer: Result<Option<Seq<char>>, Seq<char>>|
            quiet((#[trigger] state.update_checked(newer)).actions),
        forall|percent: u64|
            quiet((#[trigger] state.download_progress(percent)).actions),
        forall|present: bool|
            quiet((#[trigger] state.detect_frpc_version(present)).actions),
        forall|version: Seq<char>|
            quiet((#[trigger] state.with_version(version)).actions),
{
    reveal(quiet);
}

#[verifier::spinoff_prover]
proof fn lemma_service_do_not_wait(state: AppModel)
    ensures
        quiet(state.install_service().actions),
        forall|res: Result<(), Seq<char>>|
            quiet((#[trigger] state.service_installed(res)).actions),
        quiet(state.uninstall_service().actions),
        forall|res: Result<(), Seq<char>>|
            quiet((#[trigger] state.service_uninstalled(res)).actions),
        forall|found: Seq<DiscoveredModel>, present: bool|
            quiet((#[trigger] state.uninstall_processes_found(found, present)).actions),
        forall|found: Seq<DiscoveredModel>, present: bool|
            quiet((#[trigger] state.health_processes_found(found, present)).actions),
{
    reveal(quiet);
}

proof fn lemma_download_finished_does_not_wait(
    state: AppModel,
    names: Seq<Seq<char>>,
    res: Result<(), Seq<char>>,
)
    ensures
        quiet(state.download_finished(names, res).actions),
{
    reveal(quiet);
    let actions = state.download_finished(names, res).actions;
    let before: int = if res is Ok { 3 } else { 2 };
    assert(actions.len() == before + names.len() + 1);
    assert forall|i: int| 0 <= i < actions.len() implies !(#[trigger] actions[i]
        is WaitProcessChanged) by {
        if before <= i < before + names.len() {
            assert(actions[i] == restart_actions(names)[i - before]);
        }
    }
}

proof fn lemma_stop_actions_do_not_wait(procs: Seq<ProcessModel>)
    ensures
        quiet(stop_actions(procs)),
    decreases procs.len(),
{
    reveal(quiet);
    if procs.len() > 0 {
        lemma_stop_actions_do_not_wait(procs.drop_last());
    }
}

proof fn lemma_kill_actions_do_not_wait(names: Seq<Seq<char>>, found: Seq<DiscoveredModel>)
    ensures
        quiet(kill_actions(names, found)),
    decreases found.len(),
{
    reveal(quiet);
    if found.len() > 0 {
        lemma_kill_actions_do_not_wait(names, found.drop_last());
    }
}

} // verus!
