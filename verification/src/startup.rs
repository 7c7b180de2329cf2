//! What the application begins with.
use crate::monitor::HealthMonitor;
use crate::preferences::{log_levels, AppSettings};
use crate::state::{AppModel, AppView};
use crate::table::name_views;
use crate::text::{ascii_lowered, lowercase, to_lowercase};
use crate::types::{
    found_views, joined, listed, script, Action, ActionModel, Discovered, Listing, PreCheckResult,
};
use vstd::prelude::*;
use vstd::utf8::*;

verus! {

/// The place of the first `name` in `names`.
pub open spec fn place_of(names: Seq<Seq<char>>, name: Seq<char>) -> Option<nat>
    decreases names.len(),
{
    if names.len() == 0 {
        None
    } else if names.first() == name {
        Some(0)
    } else {
        match place_of(names.drop_first(), name) {
            Some(i) => Some(i + 1),
            None => None,
        }
    }
}

/// A place in a list.
pub open spec fn place(i: Option<usize>) -> Option<nat> {
    match i {
        Some(i) => Some(i as nat),
        None => None,
    }
}

/// The place of the first `name` in `names`.
pub fn position(names: &Vec<String>, name: &String) -> (res: Option<usize>)
    ensures
        place(res) == place_of(name_views(names@), name@),
{
    let ghost all = name_views(names@);
    let mut i: usize = 0;
    assert(all.skip(0) =~= all);
    while i < names.len()
        invariant
            i <= names.len(),
            all == name_views(names@),
            place_of(all, name@) == (match place_of(all.skip(i as int), name@) {
                Some(k) => Some((k + i) as nat),
                None => None,
            }),
        decreases names.len() - i,
    {
        assert(all.skip(i as int).first() == names@[i as int]@);
        assert(all.skip(i as int).drop_first() =~= all.skip(i + 1));
        if names[i] == *name {
            return Some(i);
        }
        i = i + 1;
    }
    None
}

/// The log levels to choose from.
pub fn log_level_names() -> (res: Vec<String>)
    ensures
        name_views(res@) == log_levels(),
{
    let res = vec![
        "off".to_string(),
        "error".to_string(),
        "warn".to_string(),
        "info".to_string(),
        "debug".to_string(),
        "trace".to_string(),
    ];
    assert(name_views(res@) =~= log_levels());
    res
}

/// The place of a log level, in lower case, among those to choose from.
pub fn log_level_position(level: &String) -> (res: Option<usize>)
    ensures
        place(res) == place_of(log_levels(), level@),
{
    position(&log_level_names(), level)
}

/// The application at its start.
#[derive(Debug)]
pub struct Startup {
    pub view: AppView,
    /// The count of the regular checks.
    pub monitor: HealthMonitor,
    /// What is to be done first.
    pub actions: Vec<Action>,
    /// The place of the theme in use among the themes.
    pub theme_index: Option<usize>,
    /// The log levels to choose from.
    pub log_levels: Vec<String>,
    /// The place of the log level in use among them.
    pub log_level_index: Option<usize>,
}

/// Puts the application together from what is stored and what was found on
/// the system.
pub fn run_app(
    pre_check: PreCheckResult,
    configs: Listing,
    frpc_present: bool,
    found: Vec<Discovered>,
    settings: AppSettings,
    themes: &Vec<String>,
    current_theme: &String,
) -> (res: Startup)
    ensures
        res.view@ == AppModel::initial(
            pre_check,
            listed(configs),
            frpc_present,
            found_views(found@),
            settings@.process_guard,
        ),
        res.monitor@ == 0,
        script(res.actions@) == seq![ActionModel::DetectVersion, ActionModel::WaitProcessChanged],
        place(res.theme_index) == place_of(name_views(themes@), current_theme@),
        name_views(res.log_levels@) == log_levels(),
        place(res.log_level_index) == place_of(log_levels(), lowercase(settings@.log_level)),
        is_ascii_chars(settings@.log_level) ==> place(res.log_level_index) == place_of(
            log_levels(),
            ascii_lowered(settings@.log_level),
        ),
{
    let level = to_lowercase(settings.log_level.as_str());
    let (monitor, checks) = AppView::start_health_monitor();
    let actions = joined(vec![Action::DetectVersion], checks);
    assert(script(actions@) =~= seq![ActionModel::DetectVersion, ActionModel::WaitProcessChanged]);
    Startup {
        view: AppView::new(pre_check, configs, frpc_present, found, settings.process_guard),
        monitor,
        actions,
        theme_index: position(themes, current_theme),
        log_levels: log_level_names(),
        log_level_index: log_level_position(&level),
    }
}

} // verus!
