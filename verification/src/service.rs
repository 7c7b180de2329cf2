//! The system service: registering it, removing it, and its process guard.
use crate::guard::{clear_command, GuardCommand};
use crate::monitor::{adopt, adopted};
use crate::state::{AppModel, AppView, Step};
use crate::types::{
    found_views, joined, outcome, script, Action, ActionModel, Discovered, DiscoveredModel,
    MessageLevel,
};
use vstd::prelude::*;
use vstd::string::*;

verus! {

impl AppModel {
    /// Turns the process guard on or off, which takes the service.
    pub open spec fn toggle_process_guard(self) -> Step {
        if self.service_registered {
            AppModel { process_guard: !self.process_guard, ..self }.ask(
                ActionModel::SaveGuardSetting(!self.process_guard),
            )
        } else {
            self.set_status_message("请先注册服务后再开启进程守护"@, MessageLevel::Warning)
        }
    }

    /// Has the service take up the stored setting.
    pub open spec fn guard_setting_saved(self, res: Result<(), Seq<char>>) -> Step {
        match res {
            Ok(_) => if self.process_guard {
                self.ask(ActionModel::StartService)
            } else {
                self.set_status_message("进程守护已关闭"@, MessageLevel::Success).preceded_by(
                    seq![ActionModel::SignalGuardChanged],
                ).followed_by(seq![ActionModel::Notify])
            },
            Err(e) => self.set_status_message(
                "保存设置失败: "@ + e,
                MessageLevel::Error,
            ).followed_by(seq![ActionModel::Notify]),
        }
    }

    /// Reports what came of starting the service.
    pub open spec fn guard_service_started(self, res: Result<(), Seq<char>>) -> Step {
        match res {
            Ok(_) => self.set_status_message(
                "进程守护已开启，服务已启动"@,
                MessageLevel::Success,
            ),
            Err(e) => self.set_status_message("启动服务失败: "@ + e, MessageLevel::Error),
        }.followed_by(seq![ActionModel::Notify])
    }

    /// Begins to register the service.
    pub open spec fn install_service(self) -> Step {
        Step {
            state: self.processing(true).without_status(),
            actions: seq![ActionModel::Notify, ActionModel::InstallService],
        }
    }

    /// Takes up that the service is registered; nothing counts as stopped by
    /// hand any more.
    pub open spec fn service_installed(self, res: Result<(), Seq<char>>) -> Step {
        let idle = self.processing(false);
        match res {
            Ok(_) => AppModel {
                service_registered: true,
                stopped_configs: Set::empty(),
                ..idle
            }.set_status_message("注册成功，重启电脑后生效"@, MessageLevel::Success),
            Err(e) => idle.set_status_message("注册失败："@ + e, MessageLevel::Error),
        }.followed_by(seq![ActionModel::Notify])
    }

    /// Begins to remove the service.
    pub open spec fn uninstall_service(self) -> Step {
        Step {
            state: self.processing(true).without_status(),
            actions: seq![ActionModel::Notify, ActionModel::UninstallService],
        }
    }

    /// Takes up that the service is removed, and the process guard with it;
    /// nothing counts as stopped by hand any more.
    pub open spec fn service_uninstalled(self, res: Result<(), Seq<char>>) -> Step {
        let idle = self.processing(false);
        match res {
            Ok(_) => Step {
                state: AppModel {
                    service_registered: false,
                    process_guard: false,
                    stopped_configs: Set::empty(),
                    ..idle
                },
                actions: seq![
                    ActionModel::DropGuardSetting,
                    ActionModel::SendGuardCommand(GuardCommand::Clear.text()),
                    ActionModel::FindProcessesAfterUninstall,
                ],
            },
            Err(e) => idle.set_status_message("注销失败："@ + e, MessageLevel::Error).followed_by(
                seq![ActionModel::Notify],
            ),
        }
    }

    /// Takes over the processes that the service left running.
    pub open spec fn uninstall_processes_found(
        self,
        found: Seq<DiscoveredModel>,
        frpc_present: bool,
    ) -> Step {
        AppModel {
            running: if frpc_present {
                adopted(self.running, found)
            } else {
                self.running
            },
            ..self
        }.set_status_message("已注销"@, MessageLevel::Success).followed_by(
            seq![ActionModel::Notify],
        )
    }
}

impl AppView {
    /// Turns the process guard on or off.
    pub fn toggle_process_guard(&mut self) -> (actions: Vec<Action>)
        ensures
            (Step { state: final(self)@, actions: script(actions@) })
                == old(self)@.toggle_process_guard(),
    {
        if !self.service_registered {
            return self.set_status_message(
                "请先注册服务后再开启进程守护".to_string(),
                MessageLevel::Warning,
            );
        }
        self.process_guard = !self.process_guard;
        vec![Action::SaveGuardSetting(self.process_guard)]
    }

    /// Goes on with the process guard, after the setting was stored or was not.
    pub fn guard_setting_saved(&mut self, res: Result<(), String>) -> (actions: Vec<Action>)
        ensures
            (Step { state: final(self)@, actions: script(actions@) })
                == old(self)@.guard_setting_saved(outcome(res)),
    {
        match res {
            Ok(_) => {
                if self.process_guard {
                    vec![Action::StartService]
                } else {
                    let report = self.set_status_message(
                        "进程守护已关闭".to_string(),
                        MessageLevel::Success,
                    );
                    joined(joined(vec![Action::SignalGuardChanged], report), vec![Action::Notify])
                }
            },
            Err(e) => {
                let report = self.set_status_message(
                    "保存设置失败: ".to_string().concat(e.as_str()),
                    MessageLevel::Error,
                );
                joined(report, vec![Action::Notify])
            },
        }
    }

    /// Goes on with the process guard, after the service was started or was not.
    pub fn guard_service_started(&mut self, res: Result<(), String>) -> (actions: Vec<Action>)
        ensures
            (Step { state: final(self)@, actions: script(actions@) })
                == old(self)@.guard_service_started(outcome(res)),
    {
        let report = match res {
            Ok(_) => self.set_status_message(
                "进程守护已开启，服务已启动".to_string(),
                MessageLevel::Success,
            ),
            Err(e) => self.set_status_message(
                "启动服务失败: ".to_string().concat(e.as_str()),
                MessageLevel::Error,
            ),
        };
        joined(report, vec![Action::Notify])
    }

    /// Begins to register the service.
    pub fn install_service(&mut self) -> (actions: Vec<Action>)
        ensures
            (Step { state: final(self)@, actions: script(actions@) })
                == old(self)@.install_service(),
    {
        self.is_processing = true;
        self.status_message = None;
        vec![Action::Notify, Action::InstallService]
    }

    /// Takes up what came of registering the service.
    pub fn service_installed(&mut self, res: Result<(), String>) -> (actions: Vec<Action>)
        ensures
            (Step { state: final(self)@, actions: script(actions@) })
                == old(self)@.service_installed(outcome(res)),
    {
        self.is_processing = false;
        let report = match res {
            Ok(_) => {
                self.service_registered = true;
                self.stopped_configs.clear();
                self.set_status_message(
                    "注册成功，重启电脑后生效".to_string(),
                    MessageLevel::Success,
                )
            },
            Err(e) => self.set_status_message(
                "注册失败：".to_string().concat(e.as_str()),
                MessageLevel::Error,
            ),
        };
        joined(report, vec![Action::Notify])
    }

    /// Begins to remove the service.
    pub fn uninstall_service(&mut self) -> (actions: Vec<Action>)
        ensures
            (Step { state: final(self)@, actions: script(actions@) })
                == old(self)@.uninstall_service(),
    {
        self.is_processing = true;
        self.status_message = None;
        vec![Action::Notify, Action::UninstallService]
    }

    /// Takes up what came of removing the service.
    pub fn service_uninstalled(&mut self, res: Result<(), String>) -> (actions: Vec<Action>)
        ensures
            (Step { state: final(self)@, actions: script(actions@) })
                == old(self)@.service_uninstalled(outcome(res)),
    {
        self.is_processing = false;
        match res {
            Ok(_) => {
                self.service_registered = false;
                self.process_guard = false;
                self.stopped_configs.clear();
                vec![
                    Action::DropGuardSetting,
                    Action::SendGuardCommand(clear_command()),
                    Action::FindProcessesAfterUninstall,
                ]
            },
            Err(e) => {
                let report = self.set_status_message(
                    "注销失败：".to_string().concat(e.as_str()),
                    MessageLevel::Error,
                );
                joined(report, vec![Action::Notify])
            },
        }
    }

    /// Goes on with the removal, after the frpc processes were listed.
    pub fn uninstall_processes_found(&mut self, found: &Vec<Discovered>, frpc_present: bool) -> (
    actions: Vec<Action>)
        ensures
            (Step { state: final(self)@, actions: script(actions@) })
                == old(self)@.uninstall_processes_found(found_views(found@), frpc_present),
    {
        if frpc_present {
            let _ = adopt(&mut self.running, found);
        }
        let report = self.set_status_message("已注销".to_string(), MessageLevel::Success);
        joined(report, vec![Action::Notify])
    }

    /// What is left to do when the application ends: the service forgets what
    /// was stopped by hand.
    pub fn closing_actions(&self) -> (actions: Vec<Action>)
        ensures
            script(actions@) == seq![ActionModel::SendGuardCommand(GuardCommand::Clear.text())],
    {
        vec![Action::SendGuardCommand(clear_command())]
    }
}

} // verus!
