//! Starting, stopping and restarting the process of a configuration.
use crate::guard::{start_command, stop_command, track_command, GuardCommand};
use crate::state::{AppModel, AppView, Step};
use crate::types::{
    found_views, joined, outcome, script, text_option, Action, ActionModel, Discovered,
    DiscoveredModel, MessageLevel,
};
use vstd::prelude::*;
use vstd::string::*;

verus! {

/// The first process that was found for a name.
pub open spec fn first_named(found: Seq<DiscoveredModel>, name: Seq<char>) -> Option<
    DiscoveredModel,
>
    decreases found.len(),
{
    if found.len() == 0 {
        None
    } else if found.first().name == name {
        Some(found.first())
    } else {
        first_named(found.drop_first(), name)
    }
}

/// What came of starting a process.
pub open spec fn spawn_outcome(res: Result<u32, String>) -> Result<u32, Seq<char>> {
    match res {
        Ok(pid) => Ok(pid),
        Err(e) => Err(e@),
    }
}

impl AppModel {
    /// The state with a configuration marked as stopped by hand.
    pub open spec fn marked_stopped(self, name: Seq<char>) -> AppModel {
        AppModel { stopped_configs: self.stopped_configs.insert(name), ..self }
    }

    /// The state with a configuration not marked as stopped by hand.
    pub open spec fn unmarked(self, name: Seq<char>) -> AppModel {
        AppModel { stopped_configs: self.stopped_configs.remove(name), ..self }
    }

    /// The state with a process in the table.
    pub open spec fn with_running(self, name: Seq<char>, pid: u32) -> AppModel {
        AppModel { running: self.running.insert(name, pid), ..self }
    }

    /// The state without the process of a configuration.
    pub open spec fn without_running(self, name: Seq<char>) -> AppModel {
        AppModel { running: self.running.remove(name), ..self }
    }

    /// The state in which an operation goes on in the background, or none.
    pub open spec fn processing(self, on: bool) -> AppModel {
        AppModel { is_processing: on, ..self }
    }

    /// Starts a configuration that runs nowhere.
    pub open spec fn begin_start(self, name: Seq<char>) -> Step {
        Step {
            state: self.unmarked(name),
            actions: seq![
                ActionModel::SendGuardCommand(GuardCommand::Start(name).text()),
                ActionModel::CheckExecutable(name),
            ],
        }
    }

    /// Starts a configuration. One that runs is left alone; with the service
    /// registered, the service may have started it already.
    pub open spec fn start_config(self, name: Seq<char>) -> Step {
        if self.running.contains_key(name) {
            self.stay()
        } else if self.service_registered {
            self.ask(ActionModel::FindProcess(name))
        } else {
            self.begin_start(name)
        }
    }

    /// Takes over the process that the service started, if there is one.
    pub open spec fn start_config_found(
        self,
        name: Seq<char>,
        found: Seq<DiscoveredModel>,
        frpc_present: bool,
    ) -> Step {
        match first_named(found, name) {
            Some(d) => if d.alive && frpc_present {
                self.with_running(name, d.pid).ask(ActionModel::Notify)
            } else {
                self.begin_start(name)
            },
            None => self.begin_start(name),
        }
    }

    /// Starts the process, if the frpc program is there.
    pub open spec fn start_config_checked(self, name: Seq<char>, has_executable: bool) -> Step {
        if has_executable {
            Step {
                state: self.processing(true).without_status(),
                actions: seq![ActionModel::Notify, ActionModel::SpawnProcess(name)],
            }
        } else {
            self.set_status_message("请先在设置中下载 frpc 程序"@, MessageLevel::Warning)
        }
    }

    /// Takes up the process that was started, or reports why none was.
    pub open spec fn process_spawned(self, name: Seq<char>, res: Result<u32, Seq<char>>) -> Step {
        match res {
            Ok(pid) => Step {
                state: self.processing(false).with_running(name, pid),
                actions: (if self.service_registered {
                    seq![ActionModel::SendGuardCommand(GuardCommand::Track(name, pid).text())]
                } else {
                    Seq::empty()
                }) + seq![
                    ActionModel::Notify,
                    ActionModel::WatchConnection(name),
                    ActionModel::CheckExitSoon(name),
                ],
            },
            Err(e) => self.processing(false).set_status_message(
                "启动失败："@ + e,
                MessageLevel::Error,
            ),
        }
    }

    /// Reports a connection, of a process that still runs.
    pub open spec fn connection_reported(self, name: Seq<char>, connected: bool) -> Step {
        if connected && self.running.contains_key(name) {
            self.set_status_message("'"@ + name + "' 连接成功"@, MessageLevel::Success)
        } else {
            self.stay()
        }
    }

    /// Reports a process that exited right after its start, and drops it.
    pub open spec fn exit_checked(self, name: Seq<char>, status: Option<Seq<char>>) -> Step {
        match status {
            Some(status) if self.running.contains_key(name) => {
                self.without_running(name).set_status_message(
                    "'"@ + name + "' 启动失败，请检查配置是否正确 (退出码: "@ + status + ")"@,
                    MessageLevel::Error,
                )
            },
            _ => self.stay(),
        }
    }

    /// Stops a configuration, and has the service leave it stopped.
    pub open spec fn stop_config(self, name: Seq<char>) -> Step {
        let command = ActionModel::SendGuardCommand(GuardCommand::Stop(name).text());
        if self.running.contains_key(name) {
            Step {
                state: self.marked_stopped(name).without_running(name).processing(true),
                actions: seq![
                    command,
                    ActionModel::Notify,
                    ActionModel::StopInBackground { name, pid: self.running[name] },
                ],
            }
        } else {
            self.marked_stopped(name).ask(command)
        }
    }

    /// Reports what came of stopping a process.
    pub open spec fn process_stopped(self, name: Seq<char>, res: Result<(), Seq<char>>) -> Step {
        let idle = self.processing(false);
        match res {
            Ok(_) => idle.set_status_message("'"@ + name + "'已停止"@, MessageLevel::Success),
            Err(e) => idle.set_status_message("停止失败："@ + e, MessageLevel::Error),
        }.followed_by(seq![ActionModel::Notify])
    }

    /// Stops the process of a configuration in order to start it again; one
    /// that does not run is started.
    pub open spec fn restart_config(self, name: Seq<char>) -> Step {
        if self.running.contains_key(name) {
            Step {
                state: self.marked_stopped(name).without_running(name).processing(
                    true,
                ).without_status(),
                actions: seq![
                    ActionModel::SendGuardCommand(GuardCommand::Stop(name).text()),
                    ActionModel::Notify,
                    ActionModel::StopForRestart { name, pid: self.running[name] },
                ],
            }
        } else {
            self.start_config(name)
        }
    }

    /// Starts a configuration whose process was stopped for that, or reports
    /// why it was not; either way it is no longer marked as stopped.
    pub open spec fn restart_stopped(self, name: Seq<char>, res: Result<(), Seq<char>>) -> Step {
        let idle = self.processing(false).unmarked(name);
        match res {
            Ok(_) => idle.start_config(name),
            Err(e) => idle.set_status_message(
                "'"@ + name + "' 重启失败："@ + e,
                MessageLevel::Error,
            ),
        }.preceded_by(
            seq![ActionModel::SendGuardCommand(GuardCommand::Start(name).text())],
        ).followed_by(seq![ActionModel::Notify])
    }
}

/// The first process that was found for a name.
fn find_named(found: &Vec<Discovered>, name: &String) -> (res: Option<usize>)
    ensures
        match res {
            Some(i) => i < found@.len() && first_named(found_views(found@), name@) == Some(
                found@[i as int]@,
            ),
            None => first_named(found_views(found@), name@) is None,
        },
{
    let ghost all = found_views(found@);
    let mut i: usize = 0;
    assert(all.skip(0) =~= all);
    while i < found.len()
        invariant
            i <= found.len(),
            all == found_views(found@),
            first_named(all, name@) == first_named(all.skip(i as int), name@),
        decreases found.len() - i,
    {
        assert(all.skip(i as int).first() == found@[i as int]@);
        assert(all.skip(i as int).drop_first() =~= all.skip(i + 1));
        if found[i].name == *name {
            return Some(i);
        }
        i = i + 1;
    }
    None
}

impl AppView {
    fn begin_start(&mut self, name: &String) -> (actions: Vec<Action>)
        ensures
            (Step { state: final(self)@, actions: script(actions@) }) == old(self)@.begin_start(
                name@,
            ),
    {
        self.stopped_configs.remove(name);
        vec![
            Action::SendGuardCommand(start_command(name.as_str())),
            Action::CheckExecutable(name.clone()),
        ]
    }

    /// Starts a configuration.
    pub fn start_config(&mut self, name: &str) -> (actions: Vec<Action>)
        ensures
            (Step { state: final(self)@, actions: script(actions@) }) == old(self)@.start_config(
                name@,
            ),
    {
        let name = name.to_string();
        if self.running.contains_key(&name) {
            return Vec::new();
        }
        if self.service_registered {
            return vec![Action::FindProcess(name)];
        }
        self.begin_start(&name)
    }

    /// Goes on with a start, after the frpc processes were listed: takes over
    /// the process that the service started, or starts one.
    pub fn start_config_found(
        &mut self,
        name: &str,
        found: &Vec<Discovered>,
        frpc_present: bool,
    ) -> (actions: Vec<Action>)
        ensures
            (Step { state: final(self)@, actions: script(actions@) })
                == old(self)@.start_config_found(name@, found_views(found@), frpc_present),
    {
        let name = name.to_string();
        match find_named(found, &name) {
            Some(i) => {
                if found[i].alive && frpc_present {
                    self.running.insert(name, found[i].pid);
                    return vec![Action::Notify];
                }
            },
            None => {},
        }
        self.begin_start(&name)
    }

    /// Goes on with a start, after the frpc program was looked for.
    pub fn start_config_checked(&mut self, name: &str, has_executable: bool) -> (actions: Vec<
        Action,
    >)
        ensures
            (Step { state: final(self)@, actions: script(actions@) })
                == old(self)@.start_config_checked(name@, has_executable),
    {
        if !has_executable {
            return self.set_status_message(
                "请先在设置中下载 frpc 程序".to_string(),
                MessageLevel::Warning,
            );
        }
        self.is_processing = true;
        self.status_message = None;
        vec![Action::Notify, Action::SpawnProcess(name.to_string())]
    }

    /// Goes on with a start, after the process was started or was not.
    pub fn process_spawned(&mut self, name: &str, res: Result<u32, String>) -> (actions: Vec<
        Action,
    >)
        ensures
            (Step { state: final(self)@, actions: script(actions@) }) == old(self)@.process_spawned(
                name@,
                spawn_outcome(res),
            ),
    {
        self.is_processing = false;
        match res {
            Ok(pid) => {
                let mut actions: Vec<Action> = Vec::new();
                if self.service_registered {
                    actions.push(Action::SendGuardCommand(track_command(name, pid)));
                }
                self.running.insert(name.to_string(), pid);
                actions.push(Action::Notify);
                actions.push(Action::WatchConnection(name.to_string()));
                actions.push(Action::CheckExitSoon(name.to_string()));
                actions
            },
            Err(e) => self.set_status_message(
                "启动失败：".to_string().concat(e.as_str()),
                MessageLevel::Error,
            ),
        }
    }

    /// Reports that the process of a configuration has its connection, or
    /// that none came up in time.
    pub fn connection_reported(&mut self, name: &str, connected: bool) -> (actions: Vec<Action>)
        ensures
            (Step { state: final(self)@, actions: script(actions@) })
                == old(self)@.connection_reported(name@, connected),
    {
        if connected && self.running.contains_key(&name.to_string()) {
            self.set_status_message(
                "'".to_string().concat(name).concat("' 连接成功"),
                MessageLevel::Success,
            )
        } else {
            Vec::new()
        }
    }

    /// Takes up the exit status that a process has soon after its start, if
    /// it has one.
    pub fn exit_checked(&mut self, name: &str, status: Option<String>) -> (actions: Vec<Action>)
        ensures
            (Step { state: final(self)@, actions: script(actions@) }) == old(self)@.exit_checked(
                name@,
                text_option(status),
            ),
    {
        let key = name.to_string();
        match status {
            Some(status) => {
                if self.running.contains_key(&key) {
                    let _ = self.running.remove(&key);
                    self.set_status_message(
                        "'".to_string().concat(name).concat(
                            "' 启动失败，请检查配置是否正确 (退出码: ",
                        ).concat(status.as_str()).concat(")"),
                        MessageLevel::Error,
                    )
                } else {
                    Vec::new()
                }
            },
            None => Vec::new(),
        }
    }

    /// Stops a configuration by hand.
    pub fn stop_config(&mut self, name: &str) -> (actions: Vec<Action>)
        ensures
            (Step { state: final(self)@, actions: script(actions@) }) == old(self)@.stop_config(
                name@,
            ),
    {
        let name = name.to_string();
        self.stopped_configs.insert(&name);
        let command = Action::SendGuardCommand(stop_command(name.as_str()));
        match self.running.remove(&name) {
            Some(pid) => {
                self.is_processing = true;
                vec![command, Action::Notify, Action::StopInBackground { name, pid }]
            },
            None => {
                assert(self.running@ =~= old(self).running@);
                vec![command]
            },
        }
    }

    /// Takes up what came of stopping a process by hand.
    pub fn process_stopped(&mut self, name: &str, res: Result<(), String>) -> (actions: Vec<Action>)
        ensures
            (Step { state: final(self)@, actions: script(actions@) }) == old(self)@.process_stopped(
                name@,
                outcome(res),
            ),
    {
        self.is_processing = false;
        let actions = match res {
            Ok(_) => self.set_status_message(
                "'".to_string().concat(name).concat("'已停止"),
                MessageLevel::Success,
            ),
            Err(e) => self.set_status_message(
                "停止失败：".to_string().concat(e.as_str()),
                MessageLevel::Error,
            ),
        };
        joined(actions, vec![Action::Notify])
    }

    /// Starts a configuration again, or for the first time.
    pub fn restart_config(&mut self, name: &str) -> (actions: Vec<Action>)
        ensures
            (Step { state: final(self)@, actions: script(actions@) }) == old(self)@.restart_config(
                name@,
            ),
    {
        let key = name.to_string();
        if !self.running.contains_key(&key) {
            return self.start_config(name);
        }
        self.stopped_configs.insert(&key);
        let command = Action::SendGuardCommand(stop_command(name));
        match self.running.remove(&key) {
            Some(pid) => {
                self.is_processing = true;
                self.status_message = None;
                vec![command, Action::Notify, Action::StopForRestart { name: key, pid }]
            },
            None => vec![command],
        }
    }

    /// Goes on with a restart, after the process was stopped or was not.
    pub fn restart_stopped(&mut self, name: &str, res: Result<(), String>) -> (actions: Vec<Action>)
        ensures
            (Step { state: final(self)@, actions: script(actions@) }) == old(self)@.restart_stopped(
                name@,
                outcome(res),
            ),
    {
        self.is_processing = false;
        self.stopped_configs.remove(&name.to_string());
        let command = vec![Action::SendGuardCommand(start_command(name))];
        let actions = match res {
            Ok(_) => self.start_config(name),
            Err(e) => self.set_status_message(
                "'".to_string().concat(name).concat("' 重启失败：").concat(e.as_str()),
                MessageLevel::Error,
            ),
        };
        joined(joined(command, actions), vec![Action::Notify])
    }
}

} // verus!
