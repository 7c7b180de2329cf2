//! Updating the frpc program, and telling its version.
use crate::guard::{start_command, stop_command, GuardCommand};
use crate::state::{AppModel, AppView, Step};
use crate::table::{
    is_listing, name_views, process_names, process_views, ProcessModel, RunningProcess,
};
use crate::text::{blank, from_utf8_lossy, is_blank, trim, trimmed, utf8_lossy};
use crate::types::{
    found_views, joined, outcome, script, Action, ActionModel, Discovered, DiscoveredModel,
    MessageLevel,
};
use vstd::prelude::*;
use vstd::string::*;
use vstd::utf8::*;

verus! {

/// What came of asking for a newer frpc: its tag, if there is one.
pub open spec fn update_outcome(res: Result<Option<String>, String>) -> Result<
    Option<Seq<char>>,
    Seq<char>,
> {
    match res {
        Ok(Some(tag)) => Ok(Some(tag@)),
        Ok(None) => Ok(None),
        Err(e) => Err(e@),
    }
}

/// The actions that stop processes one after the other.
pub open spec fn stop_actions(procs: Seq<ProcessModel>) -> Seq<ActionModel>
    decreases procs.len(),
{
    if procs.len() == 0 {
        Seq::empty()
    } else {
        let p = procs.last();
        stop_actions(procs.drop_last()) + seq![
            ActionModel::SendGuardCommand(GuardCommand::Stop(p.name).text()),
            ActionModel::StopProcess { name: p.name, pid: p.pid },
        ]
    }
}

/// The names of processes that were found.
pub open spec fn found_names(found: Seq<DiscoveredModel>) -> Seq<Seq<char>> {
    found.map_values(|d: DiscoveredModel| d.name)
}

/// Of the processes that were found, the first one for each name that is not
/// in `names`.
pub open spec fn untracked(names: Seq<Seq<char>>, found: Seq<DiscoveredModel>) -> Seq<
    DiscoveredModel,
>
    decreases found.len(),
{
    if found.len() == 0 {
        Seq::empty()
    } else {
        let earlier = untracked(names, found.drop_last());
        if names.contains(found.last().name) || found_names(earlier).contains(found.last().name) {
            earlier
        } else {
            earlier.push(found.last())
        }
    }
}

/// The actions that kill every process that was found, one after the other.
/// The guard is told once of each name that is not in `names`.
pub open spec fn kill_actions(names: Seq<Seq<char>>, found: Seq<DiscoveredModel>) -> Seq<
    ActionModel,
>
    decreases found.len(),
{
    if found.len() == 0 {
        Seq::empty()
    } else {
        let d = found.last();
        let told = names.contains(d.name) || found_names(
            untracked(names, found.drop_last()),
        ).contains(d.name);
        kill_actions(names, found.drop_last()) + (if told {
            Seq::empty()
        } else {
            seq![ActionModel::SendGuardCommand(GuardCommand::Stop(d.name).text())]
        }) + seq![ActionModel::KillProcess { name: d.name, pid: d.pid }]
    }
}

/// The actions that start configurations one after the other.
pub open spec fn restart_actions(names: Seq<Seq<char>>) -> Seq<ActionModel> {
    names.map_values(|name: Seq<char>| ActionModel::Restart(name))
}

/// The share of a download that is done, in percent: at most 100, and 0 where
/// the size is not known.
pub open spec fn percent_done(done: int, total: int) -> int {
    if total <= 0 {
        0
    } else if done * 100 / total <= 100 {
        done * 100 / total
    } else {
        100
    }
}

/// The version that frpc tells, on its output or else on its error output.
pub open spec fn version(stdout: Seq<char>, stderr: Seq<char>) -> Seq<char> {
    if !is_blank(stdout) {
        trimmed(stdout)
    } else if !is_blank(stderr) {
        trimmed(stderr)
    } else {
        "未知版本"@
    }
}

/// What frpc wrote when it was asked for its version.
#[derive(Debug)]
pub struct VersionOutput {
    pub stdout: Vec<u8>,
    pub stderr: Vec<u8>,
}

impl AppModel {
    /// Begins an update by asking for a newer frpc.
    pub open spec fn start_download(self) -> Step {
        Step {
            state: AppModel {
                is_checking_update: true,
                is_downloading: false,
                download_percent: 0,
                status_message: None,
                ..self
            },
            actions: seq![ActionModel::Notify, ActionModel::CheckUpdate],
        }
    }

    /// Goes on with an update where there is a newer frpc: with the user's
    /// consent, if a process runs.
    pub open spec fn update_checked(self, res: Result<Option<Seq<char>>, Seq<char>>) -> Step {
        let checked = AppModel { is_checking_update: false, ..self };
        match res {
            Ok(Some(tag)) => Step {
                state: checked,
                actions: seq![
                    ActionModel::Notify,
                    if self.running == Map::<Seq<char>, u32>::empty() {
                        ActionModel::FindProcessesForUpdate
                    } else {
                        ActionModel::ConfirmUpdate
                    },
                ],
            },
            Ok(None) => checked.set_status_message("已经是最新版本"@, MessageLevel::Success),
            Err(e) => checked.set_status_message("检查版本失败："@ + e, MessageLevel::Error),
        }
    }

    /// Stops every process of the table, in the order of `procs`, as the
    /// program of a process that runs cannot be replaced.
    pub open spec fn do_download(self, procs: Seq<ProcessModel>) -> Step {
        Step {
            state: AppModel {
                is_downloading: true,
                running: Map::empty(),
                stopped_configs: self.stopped_configs.union(self.running.dom()),
                ..self
            },
            actions: seq![ActionModel::Notify] + stop_actions(procs) + seq![
                ActionModel::FindProcessesForDownload(process_names(procs)),
            ],
        }
    }

    /// Kills every process that still runs, and fetches frpc. What was stopped
    /// is remembered, each name once.
    pub open spec fn download_processes_found(
        self,
        names: Seq<Seq<char>>,
        found: Seq<DiscoveredModel>,
    ) -> Step {
        let others = untracked(names, found);
        Step {
            state: AppModel {
                stopped_configs: self.stopped_configs.union(found_names(others).to_set()),
                ..self
            },
            actions: kill_actions(names, found) + seq![
                ActionModel::StartDownload(names + found_names(others)),
            ],
        }
    }

    /// Shows how far the download is.
    pub open spec fn download_progress(self, percent: u64) -> Step {
        if self.is_downloading {
            AppModel { download_percent: percent, ..self }.ask(ActionModel::Notify)
        } else {
            self.stay()
        }
    }

    /// Reports what came of the download, and starts again what was stopped
    /// for it, whatever came of it.
    pub open spec fn download_finished(
        self,
        names: Seq<Seq<char>>,
        res: Result<(), Seq<char>>,
    ) -> Step {
        let idle = AppModel { is_downloading: false, ..self };
        match res {
            Ok(_) => idle.set_status_message(
                "frpc 更新成功"@,
                MessageLevel::Success,
            ).followed_by(seq![ActionModel::DetectVersion]),
            Err(e) => idle.set_status_message("更新失败："@ + e, MessageLevel::Error),
        }.followed_by(restart_actions(names)).followed_by(seq![ActionModel::Notify])
    }

    /// Starts a configuration that was stopped for the download.
    pub open spec fn restart_after_download(self, name: Seq<char>) -> Step {
        self.unmarked(name).start_config(name).preceded_by(
            seq![ActionModel::SendGuardCommand(GuardCommand::Start(name).text())],
        )
    }

    /// Asks frpc for its version, if it is there.
    pub open spec fn detect_frpc_version(self, frpc_present: bool) -> Step {
        if frpc_present {
            self.ask(ActionModel::RunVersionCommand)
        } else {
            AppModel { frpc_version: None, ..self }.ask(ActionModel::Notify)
        }
    }

    /// Shows the version of frpc.
    pub open spec fn with_version(self, version: Seq<char>) -> Step {
        AppModel { frpc_version: Some(version), ..self }.ask(ActionModel::Notify)
    }
}

/// The share of a download that is done, in percent.
pub fn progress_percent(done: u64, total: u64) -> (res: u64)
    requires
        total > 0 ==> done * 100 <= u64::MAX,
    ensures
        res == percent_done(done as int, total as int),
{
    if total > 0 {
        let percent: u64 = done * 100 / total;
        if percent < 100 {
            percent
        } else {
            100
        }
    } else {
        0
    }
}

/// The version that frpc tells.
pub fn version_text(stdout: &str, stderr: &str) -> (res: String)
    ensures
        res@ == version(stdout@, stderr@),
{
    if !blank(stdout) {
        trim(stdout)
    } else if !blank(stderr) {
        trim(stderr)
    } else {
        "未知版本".to_string()
    }
}

fn name_in(names: &Vec<String>, name: &String) -> (res: bool)
    ensures
        res == name_views(names@).contains(name@),
{
    let mut i: usize = 0;
    while i < names.len()
        invariant
            i <= names.len(),
            forall|j: int| 0 <= j < i ==> name_views(names@)[j] != name@,
        decreases names.len() - i,
    {
        if names[i] == *name {
            assert(name_views(names@)[i as int] == name@);
            return true;
        }
        i = i + 1;
    }
    false
}

impl AppView {
    /// Begins an update of frpc.
    pub fn start_download(&mut self) -> (actions: Vec<Action>)
        ensures
            (Step { state: final(self)@, actions: script(actions@) })
                == old(self)@.start_download(),
    {
        self.is_checking_update = true;
        self.is_downloading = false;
        self.download_percent = 0;
        self.status_message = None;
        vec![Action::Notify, Action::CheckUpdate]
    }

    /// Goes on with an update, after a newer frpc was asked for.
    pub fn update_checked(&mut self, res: Result<Option<String>, String>) -> (actions: Vec<Action>)
        ensures
            (Step { state: final(self)@, actions: script(actions@) }) == old(self)@.update_checked(
                update_outcome(res),
            ),
    {
        self.is_checking_update = false;
        match res {
            Ok(Some(_)) => {
                if self.running.is_empty() {
                    vec![Action::Notify, Action::FindProcessesForUpdate]
                } else {
                    vec![Action::Notify, Action::ConfirmUpdate]
                }
            },
            Ok(None) => self.set_status_message(
                "已经是最新版本".to_string(),
                MessageLevel::Success,
            ),
            Err(e) => self.set_status_message(
                "检查版本失败：".to_string().concat(e.as_str()),
                MessageLevel::Error,
            ),
        }
    }

    /// Goes on with an update, after the frpc processes were listed: with the
    /// user's consent, if there is one.
    pub fn update_processes_found(&mut self, found: &Vec<Discovered>) -> (actions: Vec<Action>)
        ensures
            found@.len() > 0 ==> (Step { state: final(self)@, actions: script(actions@) })
                == old(self)@.ask(ActionModel::ConfirmUpdate),
            found@.len() == 0 ==> exists|procs: Seq<ProcessModel>|
                is_listing(procs, old(self)@.running) && (Step {
                    state: final(self)@,
                    actions: script(actions@),
                }) == #[trigger] old(self)@.do_download(procs),
    {
        if found.is_empty() {
            self.do_download()
        } else {
            vec![Action::ConfirmUpdate]
        }
    }

    /// Stops every process of the table and goes on with the update. The order
    /// in which they are stopped is left open.
    pub fn do_download(&mut self) -> (actions: Vec<Action>)
        ensures
            exists|procs: Seq<ProcessModel>|
                is_listing(procs, old(self)@.running) && (Step {
                    state: final(self)@,
                    actions: script(actions@),
                }) == #[trigger] old(self)@.do_download(procs),
    {
        self.is_downloading = true;
        let mut actions: Vec<Action> = vec![Action::Notify];
        let mut names: Vec<String> = Vec::new();
        let entries: Vec<RunningProcess> = self.running.drain();
        let ghost procs = process_views(entries@);
        let ghost before = old(self)@;
        proof {
            assert(procs.take(0) =~= Seq::empty());
            assert(script(actions@) =~= seq![ActionModel::Notify] + stop_actions(procs.take(0)));
            assert(self.stopped_configs@ =~= before.stopped_configs.union(
                process_names(procs.take(0)).to_set(),
            ));
        }
        let mut i: usize = 0;
        while i < entries.len()
            invariant
                i <= entries.len(),
                procs == process_views(entries@),
                before == old(self)@,
                self@ == (AppModel {
                    is_downloading: true,
                    running: Map::empty(),
                    stopped_configs: before.stopped_configs.union(
                        process_names(procs.take(i as int)).to_set(),
                    ),
                    ..before
                }),
                name_views(names@) == process_names(procs.take(i as int)),
                script(actions@) == seq![ActionModel::Notify] + stop_actions(
                    procs.take(i as int),
                ),
            decreases entries.len() - i,
        {
            let name = entries[i].name.clone();
            let pid = entries[i].pid;
            let ghost so_far = procs.take(i as int);
            let ghost next = procs.take(i + 1);
            let ghost asked = script(actions@);
            self.stopped_configs.insert(&name);
            actions.push(Action::SendGuardCommand(stop_command(name.as_str())));
            actions.push(Action::StopProcess { name: name.clone(), pid });
            names.push(name);
            proof {
                assert(next.drop_last() =~= so_far);
                assert(next.last() == entries@[i as int]@);
                assert(script(actions@) =~= asked + seq![
                    ActionModel::SendGuardCommand(GuardCommand::Stop(next.last().name).text()),
                    ActionModel::StopProcess { name: next.last().name, pid: next.last().pid },
                ]);
                assert(script(actions@) =~= seq![ActionModel::Notify] + stop_actions(next));
                assert(process_names(next) =~= process_names(so_far).push(next.last().name));
                process_names(so_far).lemma_push_to_set_commute(next.last().name);
                assert(before.stopped_configs.union(process_names(next).to_set())
                    =~= before.stopped_configs.union(process_names(so_far).to_set()).insert(
                    next.last().name,
                ));
                assert(name_views(names@) =~= process_names(next));
            }
            i = i + 1;
        }
        proof {
            assert(procs.take(i as int) =~= procs);
            assert(is_listing(procs, before.running));
        }
        let res = joined(actions, vec![Action::FindProcessesForDownload(names)]);
        assert((Step { state: self@, actions: script(res@) }) =~= before.do_download(procs));
        res
    }

    /// Goes on with an update, after the frpc processes that still run were
    /// listed: kills each of them.
    pub fn download_processes_found(
        &mut self,
        names: Vec<String>,
        found: &Vec<Discovered>,
    ) -> (actions: Vec<Action>)
        ensures
            (Step { state: final(self)@, actions: script(actions@) })
                == old(self)@.download_processes_found(name_views(names@), found_views(found@)),
    {
        let ghost tracked_names = name_views(names@);
        let ghost all = found_views(found@);
        let ghost before = old(self)@;
        let mut names = names;
        let mut actions: Vec<Action> = Vec::new();
        proof {
            assert(all.take(0) =~= Seq::empty());
            assert(script(actions@) =~= kill_actions(tracked_names, all.take(0)));
            assert(name_views(names@) =~= tracked_names + found_names(
                untracked(tracked_names, all.take(0)),
            ));
            assert(before.stopped_configs =~= before.stopped_configs.union(
                found_names(untracked(tracked_names, all.take(0))).to_set(),
            ));
        }
        let mut i: usize = 0;
        while i < found.len()
            invariant
                i <= found.len(),
                all == found_views(found@),
                before == old(self)@,
                self@ == (AppModel {
                    stopped_configs: before.stopped_configs.union(
                        found_names(untracked(tracked_names, all.take(i as int))).to_set(),
                    ),
                    ..before
                }),
                name_views(names@) == tracked_names + found_names(
                    untracked(tracked_names, all.take(i as int)),
                ),
                script(actions@) == kill_actions(tracked_names, all.take(i as int)),
            decreases found.len() - i,
        {
            let ghost earlier = untracked(tracked_names, all.take(i as int));
            let ghost next = all.take(i + 1);
            let ghost asked = script(actions@);
            let ghost listed_names = name_views(names@);
            proof {
                assert(next.drop_last() =~= all.take(i as int));
                assert(next.last() == found@[i as int]@);
                lemma_concat_contains(tracked_names, found_names(earlier), next.last().name);
            }
            let name = found[i].name.clone();
            let pid = found[i].pid;
            let ghost told = name_views(names@).contains(name@);
            if !name_in(&names, &name) {
                self.stopped_configs.insert(&name);
                actions.push(Action::SendGuardCommand(stop_command(name.as_str())));
                names.push(name.clone());
                proof {
                    let now = untracked(tracked_names, next);
                    assert(now == earlier.push(next.last()));
                    assert(found_names(now) =~= found_names(earlier).push(next.last().name));
                    assert(name_views(names@) =~= listed_names.push(next.last().name));
                    assert(name_views(names@) =~= tracked_names + found_names(now));
                    found_names(earlier).lemma_push_to_set_commute(next.last().name);
                    assert(before.stopped_configs.union(found_names(now).to_set())
                        =~= before.stopped_configs.union(found_names(earlier).to_set()).insert(
                        next.last().name,
                    ));
                }
            }
            actions.push(Action::KillProcess { name, pid });
            proof {
                let command = if told {
                    Seq::empty()
                } else {
                    seq![ActionModel::SendGuardCommand(GuardCommand::Stop(next.last().name).text())]
                };
                assert(script(actions@) =~= asked + command + seq![
                    ActionModel::KillProcess { name: next.last().name, pid: next.last().pid },
                ]);
            }
            i = i + 1;
        }
        assert(all.take(i as int) =~= all);
        joined(actions, vec![Action::StartDownload(names)])
    }

    /// Takes up how far the download is, as long as one goes on; says whether
    /// one does.
    pub fn download_progress(&mut self, percent: u64) -> (res: (bool, Vec<Action>))
        ensures
            res.0 == old(self)@.is_downloading,
            (Step { state: final(self)@, actions: script(res.1@) })
                == old(self)@.download_progress(percent),
    {
        if self.is_downloading {
            self.download_percent = percent;
            (true, vec![Action::Notify])
        } else {
            (false, Vec::new())
        }
    }

    /// Takes up what came of the download, and has all that was stopped for
    /// it started again.
    pub fn download_finished(&mut self, names: &Vec<String>, res: Result<(), String>) -> (actions:
        Vec<Action>)
        ensures
            (Step { state: final(self)@, actions: script(actions@) })
                == old(self)@.download_finished(name_views(names@), outcome(res)),
    {
        self.is_downloading = false;
        let report = match res {
            Ok(_) => {
                let report = self.set_status_message(
                    "frpc 更新成功".to_string(),
                    MessageLevel::Success,
                );
                joined(report, vec![Action::DetectVersion])
            },
            Err(e) => self.set_status_message(
                "更新失败：".to_string().concat(e.as_str()),
                MessageLevel::Error,
            ),
        };
        let mut restarts: Vec<Action> = Vec::new();
        let mut i: usize = 0;
        while i < names.len()
            invariant
                i <= names.len(),
                script(restarts@) == restart_actions(name_views(names@).take(i as int)),
            decreases names.len() - i,
        {
            let ghost asked = script(restarts@);
            restarts.push(Action::Restart(names[i].clone()));
            proof {
                let all = name_views(names@);
                assert(all.take(i + 1) =~= all.take(i as int).push(names@[i as int]@));
                assert(script(restarts@) =~= asked.push(ActionModel::Restart(names@[i as int]@)));
                assert(script(restarts@) =~= restart_actions(all.take(i + 1)));
            }
            i = i + 1;
        }
        assert(name_views(names@).take(i as int) =~= name_views(names@));
        joined(joined(report, restarts), vec![Action::Notify])
    }

    /// Starts a configuration that was stopped for a download.
    pub fn restart_after_download(&mut self, name: &str) -> (actions: Vec<Action>)
        ensures
            (Step { state: final(self)@, actions: script(actions@) })
                == old(self)@.restart_after_download(name@),
    {
        self.stopped_configs.remove(&name.to_string());
        let command = vec![Action::SendGuardCommand(start_command(name))];
        let actions = self.start_config(name);
        joined(command, actions)
    }

    /// Asks frpc for its version, if the program is there.
    pub fn detect_frpc_version(&mut self, frpc_present: bool) -> (actions: Vec<Action>)
        ensures
            (Step { state: final(self)@, actions: script(actions@) })
                == old(self)@.detect_frpc_version(frpc_present),
    {
        if frpc_present {
            vec![Action::RunVersionCommand]
        } else {
            self.frpc_version = None;
            vec![Action::Notify]
        }
    }

    /// Takes up what frpc wrote when it was asked for its version, or that it
    /// could not be run.
    pub fn version_reported(&mut self, res: Result<VersionOutput, String>) -> (actions: Vec<Action>)
        ensures
            (Step { state: final(self)@, actions: script(actions@) }) == old(self)@.with_version(
                match res {
                    Ok(out) => version(utf8_lossy(out.stdout@), utf8_lossy(out.stderr@)),
                    Err(_) => "无法运行"@,
                },
            ),
            res matches Ok(out) && valid_utf8(out.stdout@) && valid_utf8(out.stderr@) ==> (Step {
                state: final(self)@,
                actions: script(actions@),
            }) == old(self)@.with_version(
                version(decode_utf8(res->Ok_0.stdout@), decode_utf8(res->Ok_0.stderr@)),
            ),
    {
        let text = match res {
            Ok(out) => version_text(
                from_utf8_lossy(out.stdout.as_slice()).as_str(),
                from_utf8_lossy(out.stderr.as_slice()).as_str(),
            ),
            Err(_) => "无法运行".to_string(),
        };
        self.frpc_version = Some(text);
        vec![Action::Notify]
    }
}

proof fn lemma_concat_contains<A>(s: Seq<A>, t: Seq<A>, x: A)
    ensures
        (s + t).contains(x) <==> s.contains(x) || t.contains(x),
{
    if s.contains(x) {
        let k = choose|k: int| 0 <= k < s.len() && s[k] == x;
        assert((s + t)[k] == x);
    }
    if t.contains(x) {
        let k = choose|k: int| 0 <= k < t.len() && t[k] == x;
        assert((s + t)[s.len() + k] == x);
    }
    if (s + t).contains(x) {
        let k = choose|k: int| 0 <= k < s.len() + t.len() && (s + t)[k] == x;
        if k < s.len() {
            assert(s[k] == x);
        } else {
            assert(t[k - s.len()] == x);
        }
    }
}

} // verus!
