//! The settings: the theme and the log level.
use crate::state::{AppModel, AppView, Step};
use crate::text::{ascii_lowered, lowercase, to_lowercase};
use crate::types::{
    joined, outcome, script, text_option, Action, ActionModel, LogFilter, MessageLevel,
};
use vstd::prelude::*;
use vstd::string::*;
use vstd::utf8::*;

verus! {

/// The settings that are stored.
#[derive(Debug, PartialEq, Eq)]
pub struct AppSettings {
    pub process_guard: bool,
    pub log_level: String,
}

/// What [`AppSettings`] are.
#[verifier::ext_equal]
pub struct SettingsModel {
    pub process_guard: bool,
    pub log_level: Seq<char>,
}

impl View for AppSettings {
    type V = SettingsModel;

    open spec fn view(&self) -> SettingsModel {
        SettingsModel { process_guard: self.process_guard, log_level: self.log_level@ }
    }
}

impl AppSettings {
    /// The settings with this process guard flag; the others stay.
    pub fn with_process_guard(self, on: bool) -> (res: AppSettings)
        ensures
            res@ == (SettingsModel { process_guard: on, ..self@ }),
    {
        AppSettings { process_guard: on, ..self }
    }

    /// The settings with this log level; the others stay.
    pub fn with_log_level(self, level: String) -> (res: AppSettings)
        ensures
            res@ == (SettingsModel { log_level: level@, ..self@ }),
    {
        AppSettings { log_level: level, ..self }
    }
}

/// The log levels to choose from, in the order in which they are offered.
pub open spec fn log_levels() -> Seq<Seq<char>> {
    seq!["off"@, "error"@, "warn"@, "info"@, "debug"@, "trace"@]
}

/// What the log takes up at a level: at one that is not known, what it takes
/// up at `info`.
pub open spec fn filter_of(level: Seq<char>) -> LogFilter {
    if level == "off"@ {
        LogFilter::Off
    } else if level == "error"@ {
        LogFilter::Error
    } else if level == "warn"@ {
        LogFilter::Warn
    } else if level == "debug"@ {
        LogFilter::Debug
    } else if level == "trace"@ {
        LogFilter::Trace
    } else {
        LogFilter::Info
    }
}

impl AppModel {
    /// Shows the window in a theme, now and after the next start.
    pub open spec fn on_theme_selected(self, choice: Option<Seq<char>>) -> Step {
        match choice {
            Some(name) => self.set_status_message(
                "主题已切换为 '"@ + name + "'"@,
                MessageLevel::Success,
            ).preceded_by(
                seq![ActionModel::ApplyTheme(name), ActionModel::SaveThemePreference(name)],
            ),
            None => self.stay(),
        }
    }

    /// Sets what the log takes up, by a level in lower case.
    pub open spec fn log_level_chosen(self, level: Seq<char>) -> Step {
        self.ask(ActionModel::SetLogLevel { filter: filter_of(level), level })
    }

    /// Stores a log level that was set.
    pub open spec fn log_level_set(self, level: Seq<char>, res: Result<(), Seq<char>>) -> Step {
        match res {
            Ok(_) => self.ask(ActionModel::SaveLogLevel(level)),
            Err(e) => self.set_status_message("切换日志级别失败："@ + e, MessageLevel::Error),
        }
    }

    /// Reports what came of storing a log level.
    pub open spec fn log_level_saved(self, level: Seq<char>, res: Result<(), Seq<char>>) -> Step {
        match res {
            Ok(_) => self.set_status_message(
                "日志级别已切换为 '"@ + level + "'"@,
                MessageLevel::Success,
            ),
            Err(e) => self.set_status_message("保存设置失败："@ + e, MessageLevel::Error),
        }
    }
}

/// What the log takes up at a level.
pub fn log_filter(level: &String) -> (res: LogFilter)
    ensures
        res == filter_of(level@),
{
    if *level == "off".to_string() {
        LogFilter::Off
    } else if *level == "error".to_string() {
        LogFilter::Error
    } else if *level == "warn".to_string() {
        LogFilter::Warn
    } else if *level == "debug".to_string() {
        LogFilter::Debug
    } else if *level == "trace".to_string() {
        LogFilter::Trace
    } else {
        LogFilter::Info
    }
}

impl AppView {
    /// Takes up a choice in the list of themes.
    pub fn on_theme_selected(&mut self, choice: Option<String>) -> (actions: Vec<Action>)
        ensures
            (Step { state: final(self)@, actions: script(actions@) })
                == old(self)@.on_theme_selected(text_option(choice)),
    {
        match choice {
            Some(name) => {
                let msg = "主题已切换为 '".to_string().concat(name.as_str()).concat("'");
                let report = self.set_status_message(msg, MessageLevel::Success);
                joined(
                    vec![Action::ApplyTheme(name.clone()), Action::SaveThemePreference(name)],
                    report,
                )
            },
            None => Vec::new(),
        }
    }

    /// Takes up a choice in the list of log levels, whatever its letter case.
    pub fn on_log_level_selected(&mut self, choice: Option<String>) -> (actions: Vec<Action>)
        ensures
            (Step { state: final(self)@, actions: script(actions@) }) == (match choice {
                Some(level) => old(self)@.log_level_chosen(lowercase(level@)),
                None => old(self)@.stay(),
            }),
            choice matches Some(level) && is_ascii_chars(level@) ==> (Step {
                state: final(self)@,
                actions: script(actions@),
            }) == old(self)@.log_level_chosen(ascii_lowered(choice->0@)),
    {
        match choice {
            Some(level) => self.log_level_chosen(to_lowercase(level.as_str())),
            None => Vec::new(),
        }
    }

    /// Sets what the log takes up, by a level in lower case.
    pub fn log_level_chosen(&mut self, level: String) -> (actions: Vec<Action>)
        ensures
            (Step { state: final(self)@, actions: script(actions@) })
                == old(self)@.log_level_chosen(level@),
    {
        vec![Action::SetLogLevel { filter: log_filter(&level), level }]
    }

    /// Goes on with the log level, after it was set or was not.
    pub fn log_level_set(&mut self, level: String, res: Result<(), String>) -> (actions: Vec<Action>)
        ensures
            (Step { state: final(self)@, actions: script(actions@) }) == old(self)@.log_level_set(
                level@,
                outcome(res),
            ),
    {
        match res {
            Ok(_) => vec![Action::SaveLogLevel(level)],
            Err(e) => self.set_status_message(
                "切换日志级别失败：".to_string().concat(e.as_str()),
                MessageLevel::Error,
            ),
        }
    }

    /// Takes up what came of storing the log level.
    pub fn log_level_saved(&mut self, level: &str, res: Result<(), String>) -> (actions: Vec<Action>)
        ensures
            (Step { state: final(self)@, actions: script(actions@) }) == old(self)@.log_level_saved(
                level@,
                outcome(res),
            ),
    {
        match res {
            Ok(_) => self.set_status_message(
                "日志级别已切换为 '".to_string().concat(level).concat("'"),
                MessageLevel::Success,
            ),
            Err(e) => self.set_status_message(
                "保存设置失败：".to_string().concat(e.as_str()),
                MessageLevel::Error,
            ),
        }
    }
}

} // verus!
