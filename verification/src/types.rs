//! The data that the application handles, and the actions that it asks its
//! surroundings to perform.
use crate::table::name_views;
use vstd::prelude::*;

verus! {

/// The page on show.
#[derive(Debug, PartialEq, Eq)]
pub enum Page {
    ConfigList,
    ConfigEditor { original_name: Option<String> },
    Settings,
}

/// What a [`Page`] is.
pub enum PageModel {
    ConfigList,
    ConfigEditor { original_name: Option<Seq<char>> },
    Settings,
}

/// The text in an optional string.
pub open spec fn text_option(text: Option<String>) -> Option<Seq<char>> {
    match text {
        Some(s) => Some(s@),
        None => None,
    }
}

impl View for Page {
    type V = PageModel;

    open spec fn view(&self) -> PageModel {
        match self {
            Page::ConfigList => PageModel::ConfigList,
            Page::ConfigEditor { original_name } => PageModel::ConfigEditor {
                original_name: text_option(*original_name),
            },
            Page::Settings => PageModel::Settings,
        }
    }
}

impl Clone for Page {
    fn clone(&self) -> (res: Page)
        ensures
            res@ == self@,
    {
        match self {
            Page::ConfigList => Page::ConfigList,
            Page::ConfigEditor { original_name: Some(name) } => Page::ConfigEditor {
                original_name: Some(name.clone()),
            },
            Page::ConfigEditor { original_name: None } => Page::ConfigEditor {
                original_name: None,
            },
            Page::Settings => Page::Settings,
        }
    }
}

/// How a status message is shown.
#[derive(Clone, Copy, Debug, PartialEq, Eq)]
pub enum MessageLevel {
    Info,
    Success,
    Warning,
    Error,
}

/// What is known of a stored configuration.
#[derive(Debug, PartialEq, Eq)]
pub struct FrpcConfigMeta {
    pub name: String,
    pub auto_start: bool,
    pub server_addr: String,
    pub proxies: Vec<String>,
}

/// What a [`FrpcConfigMeta`] is.
#[verifier::ext_equal]
pub struct ConfigModel {
    pub name: Seq<char>,
    pub auto_start: bool,
    pub server_addr: Seq<char>,
    pub proxies: Seq<Seq<char>>,
}

impl View for FrpcConfigMeta {
    type V = ConfigModel;

    open spec fn view(&self) -> ConfigModel {
        ConfigModel {
            name: self.name@,
            auto_start: self.auto_start,
            server_addr: self.server_addr@,
            proxies: name_views(self.proxies@),
        }
    }
}

/// The configurations in `configs`.
pub open spec fn config_views(configs: Seq<FrpcConfigMeta>) -> Seq<ConfigModel> {
    configs.map_values(|c: FrpcConfigMeta| c@)
}

/// What came of listing the stored configurations.
pub type Listing = Result<Vec<FrpcConfigMeta>, String>;

/// The configurations of a listing: none where it failed.
pub open spec fn listed(listing: Listing) -> Seq<ConfigModel> {
    match listing {
        Ok(configs) => config_views(configs@),
        Err(_) => Seq::empty(),
    }
}

/// The configurations of a listing: none where it failed.
pub fn configs_or_none(listing: Listing) -> (res: Vec<FrpcConfigMeta>)
    ensures
        config_views(res@) == listed(listing),
{
    match listing {
        Ok(configs) => configs,
        Err(_) => Vec::new(),
    }
}

/// What came of an operation without a value, with the message of its error.
pub open spec fn outcome(res: Result<(), String>) -> Result<(), Seq<char>> {
    match res {
        Ok(_) => Ok(()),
        Err(e) => Err(e@),
    }
}

/// What came of an operation that yields a text.
pub open spec fn text_outcome(res: Result<String, String>) -> Result<Seq<char>, Seq<char>> {
    match res {
        Ok(s) => Ok(s@),
        Err(e) => Err(e@),
    }
}

/// What came of an operation after which the configurations were listed.
pub open spec fn listing_outcome(res: Result<Listing, String>) -> Result<
    Seq<ConfigModel>,
    Seq<char>,
> {
    match res {
        Ok(listing) => Ok(listed(listing)),
        Err(e) => Err(e@),
    }
}

/// A configuration to be stored.
#[derive(Debug, PartialEq, Eq)]
pub struct ConfigEntry {
    pub name: String,
    pub content: String,
    pub auto_start: bool,
    pub server_addr: String,
    pub proxies: Vec<String>,
}

/// What a [`ConfigEntry`] is.
#[verifier::ext_equal]
pub struct EntryModel {
    pub name: Seq<char>,
    pub content: Seq<char>,
    pub auto_start: bool,
    pub server_addr: Seq<char>,
    pub proxies: Seq<Seq<char>>,
}

impl View for ConfigEntry {
    type V = EntryModel;

    open spec fn view(&self) -> EntryModel {
        EntryModel {
            name: self.name@,
            content: self.content@,
            auto_start: self.auto_start,
            server_addr: self.server_addr@,
            proxies: name_views(self.proxies@),
        }
    }
}

/// What the check before the start found out about the system service.
#[derive(Clone, Copy, Debug, PartialEq, Eq)]
pub enum PreCheckResult {
    NotRegistered,
    Registered,
}

/// A frpc process that was found in the process list of the system.
#[derive(Debug, PartialEq, Eq)]
pub struct Discovered {
    /// The configuration that it runs.
    pub name: String,
    pub pid: u32,
    /// Whether a process of this id runs still.
    pub alive: bool,
}

/// What a [`Discovered`] is.
#[verifier::ext_equal]
pub struct DiscoveredModel {
    pub name: Seq<char>,
    pub pid: u32,
    pub alive: bool,
}

impl View for Discovered {
    type V = DiscoveredModel;

    open spec fn view(&self) -> DiscoveredModel {
        DiscoveredModel { name: self.name@, pid: self.pid, alive: self.alive }
    }
}

/// The processes in `found`.
pub open spec fn found_views(found: Seq<Discovered>) -> Seq<DiscoveredModel> {
    found.map_values(|d: Discovered| d@)
}

/// The most detailed messages that the log takes up.
#[derive(Clone, Copy, Debug, PartialEq, Eq)]
pub enum LogFilter {
    Off,
    Error,
    Warn,
    Info,
    Debug,
    Trace,
}

/// What a method of the application state asks its caller to do.
///
/// A caller performs the actions of a list in order, and each one with all
/// that follows from it before the next. An action that names a method hands
/// what came of it to that method of [`AppView`](crate::state::AppView), and
/// performs the actions that the method returns.
#[derive(Debug, PartialEq, Eq)]
pub enum Action {
    /// Redraw the window.
    Notify,
    /// Call `status_expired` when three seconds have passed.
    ClearStatusLater,
    /// Send a command to the guard in the system service.
    SendGuardCommand(String),
    /// Store the settings with this process guard flag: `guard_setting_saved`.
    SaveGuardSetting(bool),
    /// Store the settings with the process guard off, whatever comes of it.
    DropGuardSetting,
    /// Start the system service: `guard_service_started`.
    StartService,
    /// Tell the system service that the process guard setting has changed.
    SignalGuardChanged,
    /// Show the window in a theme.
    ApplyTheme(String),
    /// Keep a theme for the next start.
    SaveThemePreference(String),
    /// Set what the log takes up: `log_level_set`, with the level.
    SetLogLevel { filter: LogFilter, level: String },
    /// Store the settings with this log level: `log_level_saved`, with the level.
    SaveLogLevel(String),
    /// Put a text into the name field of the editor.
    SetNameInput(String),
    /// Put a text into the content field of the editor.
    SetContentInput(String),
    /// Look whether a configuration is stored: `save_config_checked`, with the name.
    CheckConfigExists(String),
    /// Delete a stored configuration, whatever comes of it.
    DeleteReplaced(String),
    /// Read a configuration as TOML: `save_config_validated`, with the name.
    ValidateToml { name: String, content: String },
    /// Store a configuration: `config_saved`, with the name.
    SaveConfig(ConfigEntry),
    /// Store a copy: `config_copied`, with its name.
    SaveCopy(ConfigEntry),
    /// Delete a stored configuration: `config_deleted`, with the name.
    DeleteConfig(String),
    /// List the frpc processes: `start_config_found`, with the name.
    FindProcess(String),
    /// Look for the frpc program: `start_config_checked`, with the name.
    CheckExecutable(String),
    /// Start frpc in the background: `process_spawned`, with the name.
    SpawnProcess(String),
    /// Wait up to ten seconds for the connection: `connection_reported`, with the name.
    WatchConnection(String),
    /// Look after 500 ms whether the process has exited: `exit_checked`, with the name.
    CheckExitSoon(String),
    /// Stop a process, whatever comes of it.
    StopProcess { name: String, pid: u32 },
    /// Stop a process in the background: `process_stopped`, with the name.
    StopInBackground { name: String, pid: u32 },
    /// Stop a process in the background: `restart_stopped`, with the name.
    StopForRestart { name: String, pid: u32 },
    /// Kill the process of this id, whatever comes of it.
    KillProcess { name: String, pid: u32 },
    /// Ask in the background for a newer frpc: `update_checked`.
    CheckUpdate,
    /// List the frpc processes: `update_processes_found`.
    FindProcessesForUpdate,
    /// Ask the user whether frpc may be stopped and updated; if so: `do_download`.
    ConfirmUpdate,
    /// List the frpc processes: `download_processes_found`, with the names.
    FindProcessesForDownload(Vec<String>),
    /// Fetch frpc in the background, with `download_progress` every 200 ms:
    /// `download_finished`, with the names.
    StartDownload(Vec<String>),
    /// Look for the frpc program: `detect_frpc_version`.
    DetectVersion,
    /// Run frpc for its version in the background: `version_reported`.
    RunVersionCommand,
    /// Call `restart_after_download` with this name.
    Restart(String),
    /// Register the system service in the background: `service_installed`.
    InstallService,
    /// Remove the system service in the background: `service_uninstalled`.
    UninstallService,
    /// List the frpc processes: `uninstall_processes_found`.
    FindProcessesAfterUninstall,
    /// List the frpc processes: `health_processes_found`.
    FindProcesses,
    /// Wait in the background for the service to signal that it has restarted a
    /// process, up to three seconds; look then which processes have exited:
    /// `health_check`.
    WaitProcessChanged,
}

/// What an [`Action`] is.
pub enum ActionModel {
    Notify,
    ClearStatusLater,
    SendGuardCommand(Seq<char>),
    SaveGuardSetting(bool),
    DropGuardSetting,
    StartService,
    SignalGuardChanged,
    ApplyTheme(Seq<char>),
    SaveThemePreference(Seq<char>),
    SetLogLevel { filter: LogFilter, level: Seq<char> },
    SaveLogLevel(Seq<char>),
    SetNameInput(Seq<char>),
    SetContentInput(Seq<char>),
    CheckConfigExists(Seq<char>),
    DeleteReplaced(Seq<char>),
    ValidateToml { name: Seq<char>, content: Seq<char> },
    SaveConfig(EntryModel),
    SaveCopy(EntryModel),
    DeleteConfig(Seq<char>),
    FindProcess(Seq<char>),
    CheckExecutable(Seq<char>),
    SpawnProcess(Seq<char>),
    WatchConnection(Seq<char>),
    CheckExitSoon(Seq<char>),
    StopProcess { name: Seq<char>, pid: u32 },
    StopInBackground { name: Seq<char>, pid: u32 },
    StopForRestart { name: Seq<char>, pid: u32 },
    KillProcess { name: Seq<char>, pid: u32 },
    CheckUpdate,
    FindProcessesForUpdate,
    ConfirmUpdate,
    FindProcessesForDownload(Seq<Seq<char>>),
    StartDownload(Seq<Seq<char>>),
    DetectVersion,
    RunVersionCommand,
    Restart(Seq<char>),
    InstallService,
    UninstallService,
    FindProcessesAfterUninstall,
    FindProcesses,
    WaitProcessChanged,
}

impl View for Action {
    type V = ActionModel;

    open spec fn view(&self) -> ActionModel {
        match self {
            Action::Notify => ActionModel::Notify,
            Action::ClearStatusLater => ActionModel::ClearStatusLater,
            Action::SendGuardCommand(text) => ActionModel::SendGuardCommand(text@),
            Action::SaveGuardSetting(on) => ActionModel::SaveGuardSetting(*on),
            Action::DropGuardSetting => ActionModel::DropGuardSetting,
            Action::StartService => ActionModel::StartService,
            Action::SignalGuardChanged => ActionModel::SignalGuardChanged,
            Action::ApplyTheme(name) => ActionModel::ApplyTheme(name@),
            Action::SaveThemePreference(name) => ActionModel::SaveThemePreference(name@),
            Action::SetLogLevel { filter, level } => ActionModel::SetLogLevel {
                filter: *filter,
                level: level@,
            },
            Action::SaveLogLevel(level) => ActionModel::SaveLogLevel(level@),
            Action::SetNameInput(text) => ActionModel::SetNameInput(text@),
            Action::SetContentInput(text) => ActionModel::SetContentInput(text@),
            Action::CheckConfigExists(name) => ActionModel::CheckConfigExists(name@),
            Action::DeleteReplaced(name) => ActionModel::DeleteReplaced(name@),
            Action::ValidateToml { name, content } => ActionModel::ValidateToml {
                name: name@,
                content: content@,
            },
            Action::SaveConfig(entry) => ActionModel::SaveConfig(entry@),
            Action::SaveCopy(entry) => ActionModel::SaveCopy(entry@),
            Action::DeleteConfig(name) => ActionModel::DeleteConfig(name@),
            Action::FindProcess(name) => ActionModel::FindProcess(name@),
            Action::CheckExecutable(name) => ActionModel::CheckExecutable(name@),
            Action::SpawnProcess(name) => ActionModel::SpawnProcess(name@),
            Action::WatchConnection(name) => ActionModel::WatchConnection(name@),
            Action::CheckExitSoon(name) => ActionModel::CheckExitSoon(name@),
            Action::StopProcess { name, pid } => ActionModel::StopProcess {
                name: name@,
                pid: *pid,
            },
            Action::StopInBackground { name, pid } => ActionModel::StopInBackground {
                name: name@,
                pid: *pid,
            },
            Action::StopForRestart { name, pid } => ActionModel::StopForRestart {
                name: name@,
                pid: *pid,
            },
            Action::KillProcess { name, pid } => ActionModel::KillProcess {
                name: name@,
                pid: *pid,
            },
            Action::CheckUpdate => ActionModel::CheckUpdate,
            Action::FindProcessesForUpdate => ActionModel::FindProcessesForUpdate,
            Action::ConfirmUpdate => ActionModel::ConfirmUpdate,
            Action::FindProcessesForDownload(names) => ActionModel::FindProcessesForDownload(
                name_views(names@),
            ),
            Action::StartDownload(names) => ActionModel::StartDownload(name_views(names@)),
            Action::DetectVersion => ActionModel::DetectVersion,
            Action::RunVersionCommand => ActionModel::RunVersionCommand,
            Action::Restart(name) => ActionModel::Restart(name@),
            Action::InstallService => ActionModel::InstallService,
            Action::UninstallService => ActionModel::UninstallService,
            Action::FindProcessesAfterUninstall => ActionModel::FindProcessesAfterUninstall,
            Action::FindProcesses => ActionModel::FindProcesses,
            Action::WaitProcessChanged => ActionModel::WaitProcessChanged,
        }
    }
}

/// The actions in a list.
pub open spec fn script(actions: Seq<Action>) -> Seq<ActionModel> {
    actions.map_values(|a: Action| a@)
}

/// Two lists of actions, one behind the other.
pub fn joined(first: Vec<Action>, second: Vec<Action>) -> (res: Vec<Action>)
    ensures
        script(res@) == script(first@) + script(second@),
{
    let mut res = first;
    let mut rest = second;
    res.append(&mut rest);
    assert(script(res@) =~= script(first@) + script(second@));
    res
}

} // verus!
