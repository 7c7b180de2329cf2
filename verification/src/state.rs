//! The state of the application, what it starts as, its pages and its status
//! message.
use crate::table::{NameSet, ProcessTable};
use crate::types::{
    config_views, configs_or_none, found_views, listed, script, text_option, Action, ActionModel,
    ConfigModel, Discovered, DiscoveredModel, FrpcConfigMeta, Listing, MessageLevel, Page,
    PageModel, PreCheckResult,
};
use vstd::prelude::*;

verus! {

/// The state of the application.
#[derive(Debug)]
pub struct AppView {
    pub page: Page,
    /// Whether the system service is registered.
    pub service_registered: bool,
    /// The stored configurations.
    pub configs: Vec<FrpcConfigMeta>,
    /// The processes that run.
    pub running: ProcessTable,
    /// The configurations that were stopped by hand.
    pub stopped_configs: NameSet,
    pub edit_name: String,
    pub edit_content: String,
    pub edit_auto_start: bool,
    pub frpc_version: Option<String>,
    pub is_checking_update: bool,
    pub is_downloading: bool,
    pub download_percent: u64,
    /// Whether an operation goes on in the background.
    pub is_processing: bool,
    pub status_message: Option<String>,
    pub status_level: MessageLevel,
    /// The page of the configuration list, counted from 0.
    pub config_page: usize,
    /// Whether the system service keeps the processes running.
    pub process_guard: bool,
}

/// What an [`AppView`] is.
#[verifier::ext_equal]
pub struct AppModel {
    pub page: PageModel,
    pub service_registered: bool,
    pub configs: Seq<ConfigModel>,
    pub running: Map<Seq<char>, u32>,
    pub stopped_configs: Set<Seq<char>>,
    pub edit_name: Seq<char>,
    pub edit_content: Seq<char>,
    pub edit_auto_start: bool,
    pub frpc_version: Option<Seq<char>>,
    pub is_checking_update: bool,
    pub is_downloading: bool,
    pub download_percent: u64,
    pub is_processing: bool,
    pub status_message: Option<Seq<char>>,
    pub status_level: MessageLevel,
    pub config_page: nat,
    pub process_guard: bool,
}

impl View for AppView {
    type V = AppModel;

    open spec fn view(&self) -> AppModel {
        AppModel {
            page: self.page@,
            service_registered: self.service_registered,
            configs: config_views(self.configs@),
            running: self.running@,
            stopped_configs: self.stopped_configs@,
            edit_name: self.edit_name@,
            edit_content: self.edit_content@,
            edit_auto_start: self.edit_auto_start,
            frpc_version: text_option(self.frpc_version),
            is_checking_update: self.is_checking_update,
            is_downloading: self.is_downloading,
            download_percent: self.download_percent,
            is_processing: self.is_processing,
            status_message: text_option(self.status_message),
            status_level: self.status_level,
            config_page: self.config_page as nat,
            process_guard: self.process_guard,
        }
    }
}

/// A state and the actions that go with the step to it.
#[verifier::ext_equal]
pub struct Step {
    pub state: AppModel,
    pub actions: Seq<ActionModel>,
}

impl Step {
    /// The step with further actions before its own.
    pub open spec fn preceded_by(self, actions: Seq<ActionModel>) -> Step {
        Step { actions: actions + self.actions, ..self }
    }

    /// The step with further actions behind its own.
    pub open spec fn followed_by(self, actions: Seq<ActionModel>) -> Step {
        Step { actions: self.actions + actions, ..self }
    }
}

/// The processes that were left running by an earlier session: of those that
/// live, the last one found for each name.
pub open spec fn restored(found: Seq<DiscoveredModel>) -> Map<Seq<char>, u32>
    decreases found.len(),
{
    if found.len() == 0 {
        Map::empty()
    } else if found.last().alive {
        restored(found.drop_last()).insert(found.last().name, found.last().pid)
    } else {
        restored(found.drop_last())
    }
}

/// What a status message leads to: it is drawn, and goes away by itself.
pub open spec fn status_actions() -> Seq<ActionModel> {
    seq![ActionModel::Notify, ActionModel::ClearStatusLater]
}

impl AppModel {
    /// The state at the start.
    pub open spec fn initial(
        pre_check: PreCheckResult,
        configs: Seq<ConfigModel>,
        frpc_present: bool,
        found: Seq<DiscoveredModel>,
        process_guard: bool,
    ) -> AppModel {
        AppModel {
            page: PageModel::ConfigList,
            service_registered: pre_check != PreCheckResult::NotRegistered,
            configs,
            running: if frpc_present {
                restored(found)
            } else {
                Map::empty()
            },
            stopped_configs: Set::empty(),
            edit_name: Seq::empty(),
            edit_content: Seq::empty(),
            edit_auto_start: false,
            frpc_version: None,
            is_checking_update: false,
            is_downloading: false,
            download_percent: 0,
            is_processing: false,
            status_message: None,
            status_level: MessageLevel::Info,
            config_page: 0,
            process_guard,
        }
    }

    /// The step that changes nothing and asks for nothing.
    pub open spec fn stay(self) -> Step {
        Step { state: self, actions: Seq::empty() }
    }

    /// The step that changes nothing and asks for one action.
    pub open spec fn ask(self, action: ActionModel) -> Step {
        Step { state: self, actions: seq![action] }
    }

    /// The state with a status message.
    pub open spec fn with_status(self, msg: Seq<char>, level: MessageLevel) -> AppModel {
        AppModel { status_message: Some(msg), status_level: level, ..self }
    }

    /// The state without its status message.
    pub open spec fn without_status(self) -> AppModel {
        AppModel { status_message: None, ..self }
    }

    /// Puts a status message up.
    pub open spec fn set_status_message(self, msg: Seq<char>, level: MessageLevel) -> Step {
        Step { state: self.with_status(msg, level), actions: status_actions() }
    }

    /// Goes to a page: without a status message, and on the first page of the list.
    pub open spec fn switch_page(self, page: PageModel) -> AppModel {
        AppModel { page, status_message: None, config_page: 0, ..self }
    }
}

impl AppView {
    /// The state at the start: what was stored, what the check before the
    /// start found, and the processes that an earlier session left running,
    /// as far as the frpc program is there.
    pub fn new(
        pre_check: PreCheckResult,
        configs: Listing,
        frpc_present: bool,
        found: Vec<Discovered>,
        process_guard: bool,
    ) -> (res: AppView)
        ensures
            res@ == AppModel::initial(
                pre_check,
                listed(configs),
                frpc_present,
                found_views(found@),
                process_guard,
            ),
    {
        let configs = configs_or_none(configs);
        let service_registered = match pre_check {
            PreCheckResult::NotRegistered => false,
            _ => true,
        };
        let mut running = ProcessTable::new();
        if frpc_present {
            let mut i: usize = 0;
            assert(found_views(found@).take(0) =~= Seq::empty());
            while i < found.len()
                invariant
                    i <= found.len(),
                    running@ == restored(found_views(found@).take(i as int)),
                decreases found.len() - i,
            {
                proof {
                    let next = found_views(found@).take(i + 1);
                    assert(next.drop_last() =~= found_views(found@).take(i as int));
                    assert(next.last() == found@[i as int]@);
                }
                if found[i].alive {
                    running.insert(found[i].name.clone(), found[i].pid);
                }
                i = i + 1;
            }
            assert(found_views(found@).take(i as int) =~= found_views(found@));
        }
        AppView {
            page: Page::ConfigList,
            service_registered,
            configs,
            running,
            stopped_configs: NameSet::new(),
            edit_name: String::new(),
            edit_content: String::new(),
            edit_auto_start: false,
            frpc_version: None,
            is_checking_update: false,
            is_downloading: false,
            download_percent: 0,
            is_processing: false,
            status_message: None,
            status_level: MessageLevel::Info,
            config_page: 0,
            process_guard,
        }
    }

    /// Goes to a page, without a status message.
    pub fn switch_page(&mut self, page: Page)
        ensures
            final(self)@ == old(self)@.switch_page(page@),
    {
        self.page = page;
        self.status_message = None;
        self.config_page = 0;
    }

    /// Goes to a page, with a status message.
    pub fn switch_page_with_message(
        &mut self,
        page: Page,
        msg: String,
        level: MessageLevel,
    ) -> (actions: Vec<Action>)
        ensures
            final(self)@ == old(self)@.switch_page(page@).with_status(msg@, level),
            script(actions@) == status_actions(),
    {
        self.page = page;
        self.status_message = Some(msg);
        self.status_level = level;
        self.config_page = 0;
        vec![Action::Notify, Action::ClearStatusLater]
    }

    /// Puts a status message up.
    pub fn set_status_message(&mut self, msg: String, level: MessageLevel) -> (actions: Vec<Action>)
        ensures
            (Step { state: final(self)@, actions: script(actions@) })
                == old(self)@.set_status_message(msg@, level),
    {
        self.status_message = Some(msg);
        self.status_level = level;
        vec![Action::Notify, Action::ClearStatusLater]
    }

    /// Takes the status message down, three seconds after one was put up:
    /// also where it is another one by then.
    pub fn status_expired(&mut self) -> (actions: Vec<Action>)
        ensures
            final(self)@ == old(self)@.without_status(),
            script(actions@) == seq![ActionModel::Notify],
    {
        self.status_message = None;
        vec![Action::Notify]
    }
}

} // verus!
