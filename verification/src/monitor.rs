//! The regular check of the processes, and taking over processes that others
//! started.
use crate::state::{AppModel, AppView, Step};
use crate::table::{name_views, ProcessTable};
use crate::types::{found_views, script, Action, ActionModel, Discovered, DiscoveredModel};
use vstd::prelude::*;

verus! {

/// The processes together with those that were found and live: for each name
/// that has none, the first one.
pub open spec fn adopted(running: Map<Seq<char>, u32>, found: Seq<DiscoveredModel>) -> Map<
    Seq<char>,
    u32,
>
    decreases found.len(),
{
    if found.len() == 0 {
        running
    } else {
        let earlier = adopted(running, found.drop_last());
        if found.last().alive && !earlier.contains_key(found.last().name) {
            earlier.insert(found.last().name, found.last().pid)
        } else {
            earlier
        }
    }
}

/// The names that `adopted` adds.
pub open spec fn newly_adopted(running: Map<Seq<char>, u32>, found: Seq<DiscoveredModel>) -> Set<
    Seq<char>,
> {
    adopted(running, found).dom().difference(running.dom())
}

/// Adds to the table, for each name that it lacks, the first process that was
/// found and lives; gives the names.
pub(crate) fn adopt(running: &mut ProcessTable, found: &Vec<Discovered>) -> (names: Vec<String>)
    ensures
        final(running)@ == adopted(old(running)@, found_views(found@)),
        name_views(names@).to_set() == newly_adopted(old(running)@, found_views(found@)),
{
    let ghost all = found_views(found@);
    let ghost before = running@;
    let mut names: Vec<String> = Vec::new();
    let mut i: usize = 0;
    proof {
        assert(all.take(0) =~= Seq::empty());
        assert(name_views(names@).to_set() =~= newly_adopted(before, all.take(0)));
    }
    while i < found.len()
        invariant
            i <= found.len(),
            all == found_views(found@),
            running@ == adopted(before, all.take(i as int)),
            before.dom().subset_of(running@.dom()),
            name_views(names@).to_set() == newly_adopted(before, all.take(i as int)),
        decreases found.len() - i,
    {
        let ghost next = all.take(i + 1);
        proof {
            assert(next.drop_last() =~= all.take(i as int));
            assert(next.last() == found@[i as int]@);
        }
        if found[i].alive && !running.contains_key(&found[i].name) {
            let ghost listed = name_views(names@);
            let name = found[i].name.clone();
            running.insert(name.clone(), found[i].pid);
            names.push(name);
            proof {
                let added = next.last().name;
                assert(name_views(names@) =~= listed.push(added));
                listed.lemma_push_to_set_commute(added);
                assert(name_views(names@).to_set() =~= newly_adopted(before, next));
            }
        }
        i = i + 1;
    }
    assert(all.take(i as int) =~= all);
    names
}

/// Counts the checks between two searches for processes that others started.
#[derive(Debug)]
pub struct HealthMonitor {
    discover_tick: u32,
}

impl View for HealthMonitor {
    type V = nat;

    closed spec fn view(&self) -> nat {
        self.discover_tick as nat
    }
}

/// Every so many checks, processes that others started are searched for.
pub const CHECKS_PER_DISCOVERY: u32 = 3;

/// The count that a check goes by: a signal of the service makes the search due.
pub open spec fn tick_before(tick: nat, signaled: bool) -> nat {
    if signaled {
        CHECKS_PER_DISCOVERY as nat
    } else {
        tick
    }
}

/// Whether a check searches for processes that others started.
pub open spec fn discovery_due(tick: nat, signaled: bool, service_registered: bool) -> bool {
    service_registered && tick_before(tick, signaled) + 1 >= CHECKS_PER_DISCOVERY
}

/// The count after a check.
pub open spec fn tick_after(tick: nat, signaled: bool, service_registered: bool) -> nat {
    if discovery_due(tick, signaled, service_registered) {
        0
    } else if service_registered {
        tick_before(tick, signaled) + 1
    } else {
        tick_before(tick, signaled)
    }
}

/// The count before check `n` of a run of checks, numbered from 1 on.
/// `signaled` and `registered` say of each check whether the service signaled
/// before it, and whether the service was registered.
pub open spec fn tick_at(
    signaled: spec_fn(nat) -> bool,
    registered: spec_fn(nat) -> bool,
    n: nat,
) -> nat
    decreases n,
{
    if n <= 1 {
        0
    } else {
        let m = (n - 1) as nat;
        tick_after(tick_at(signaled, registered, m), signaled(m), registered(m))
    }
}

/// Whether check `n` of a run of checks searches for processes that others
/// started.
pub open spec fn searches_at(
    signaled: spec_fn(nat) -> bool,
    registered: spec_fn(nat) -> bool,
    n: nat,
) -> bool {
    discovery_due(tick_at(signaled, registered, n), signaled(n), registered(n))
}

impl AppModel {
    /// Drops the processes that have exited; then searches for others, if
    /// that is due; then waits for the next check.
    pub open spec fn health_check(self, exited: Seq<Seq<char>>, due: bool) -> Step {
        Step {
            state: AppModel { running: self.running.remove_keys(exited.to_set()), ..self },
            actions: (if exited.len() > 0 {
                seq![ActionModel::Notify]
            } else {
                Seq::empty()
            }) + (if due {
                seq![ActionModel::FindProcesses]
            } else {
                Seq::empty()
            }) + seq![ActionModel::WaitProcessChanged],
        }
    }

    /// Takes over the processes that others started. What runs is no longer
    /// marked as stopped.
    pub open spec fn health_processes_found(
        self,
        found: Seq<DiscoveredModel>,
        frpc_present: bool,
    ) -> Step {
        let new_names = newly_adopted(self.running, found);
        if frpc_present && new_names != Set::<Seq<char>>::empty() {
            AppModel {
                running: adopted(self.running, found),
                stopped_configs: self.stopped_configs.difference(new_names),
                ..self
            }.ask(ActionModel::Notify)
        } else {
            self.stay()
        }
    }
}

impl HealthMonitor {
    #[verifier::type_invariant]
    spec fn inv(self) -> bool {
        self.discover_tick <= CHECKS_PER_DISCOVERY
    }

    /// The count at the start.
    pub(crate) fn new() -> (res: HealthMonitor)
        ensures
            res@ == 0,
    {
        HealthMonitor { discover_tick: 0 }
    }

    /// Counts a check; says whether it searches for processes that others
    /// started.
    pub fn tick(&mut self, signaled: bool, service_registered: bool) -> (due: bool)
        ensures
            due == discovery_due(old(self)@, signaled, service_registered),
            final(self)@ == tick_after(old(self)@, signaled, service_registered),
    {
        proof {
            use_type_invariant(&*self);
        }
        let mut tick: u32 = if signaled {
            CHECKS_PER_DISCOVERY
        } else {
            self.discover_tick
        };
        let mut due = false;
        if service_registered {
            tick = tick + 1;
            if tick >= CHECKS_PER_DISCOVERY {
                tick = 0;
                due = true;
            }
        }
        self.discover_tick = tick;
        due
    }
}

impl AppView {
    /// Begins the regular checks: gives the count that they begin with, and has
    /// the first one waited for.
    pub fn start_health_monitor() -> (res: (HealthMonitor, Vec<Action>))
        ensures
            res.0@ == 0,
            script(res.1@) == seq![ActionModel::WaitProcessChanged],
    {
        (HealthMonitor::new(), vec![Action::WaitProcessChanged])
    }

    /// Makes a regular check. It comes three seconds after the one before, or
    /// as soon as the service signals that it has restarted a process;
    /// `exited` are the names of the processes that have exited. The next check
    /// is waited for when this one is done.
    pub fn health_check(
        &mut self,
        monitor: &mut HealthMonitor,
        signaled: bool,
        exited: &Vec<String>,
    ) -> (actions: Vec<Action>)
        ensures
            final(monitor)@ == tick_after(
                old(monitor)@,
                signaled,
                old(self)@.service_registered,
            ),
            (Step { state: final(self)@, actions: script(actions@) }) == old(self)@.health_check(
                name_views(exited@),
                discovery_due(old(monitor)@, signaled, old(self)@.service_registered),
            ),
    {
        let ghost names = name_views(exited@);
        let ghost before = old(self)@;
        let mut actions: Vec<Action> = Vec::new();
        let mut i: usize = 0;
        proof {
            assert(before.running =~= before.running.remove_keys(names.take(0).to_set()));
        }
        while i < exited.len()
            invariant
                i <= exited.len(),
                names == name_views(exited@),
                self@ == (AppModel {
                    running: before.running.remove_keys(names.take(i as int).to_set()),
                    ..before
                }),
            decreases exited.len() - i,
        {
            let _ = self.running.remove(&exited[i]);
            proof {
                let so_far = names.take(i as int);
                let gone = exited@[i as int]@;
                assert(names.take(i + 1) =~= so_far.push(gone));
                so_far.lemma_push_to_set_commute(gone);
                assert(before.running.remove_keys(names.take(i + 1).to_set())
                    =~= before.running.remove_keys(so_far.to_set()).remove(gone));
            }
            i = i + 1;
        }
        assert(names.take(i as int) =~= names);
        if !exited.is_empty() {
            actions.push(Action::Notify);
        }
        if monitor.tick(signaled, self.service_registered) {
            actions.push(Action::FindProcesses);
        }
        actions.push(Action::WaitProcessChanged);
        actions
    }

    /// Goes on with a check, after the frpc processes were listed.
    pub fn health_processes_found(&mut self, found: &Vec<Discovered>, frpc_present: bool) -> (actions:
        Vec<Action>)
        ensures
            (Step { state: final(self)@, actions: script(actions@) })
                == old(self)@.health_processes_found(found_views(found@), frpc_present),
    {
        if !frpc_present {
            return Vec::new();
        }
        let ghost before = old(self)@;
        let names = adopt(&mut self.running, found);
        let ghost new_names = newly_adopted(before.running, found_views(found@));
        let ghost all = name_views(names@);
        proof {
            assert(before.stopped_configs =~= before.stopped_configs.difference(
                all.take(0).to_set(),
            ));
        }
        let mut i: usize = 0;
        while i < names.len()
            invariant
                i <= names.len(),
                all == name_views(names@),
                self@ == (AppModel {
                    running: adopted(before.running, found_views(found@)),
                    stopped_configs: before.stopped_configs.difference(
                        all.take(i as int).to_set(),
                    ),
                    ..before
                }),
            decreases names.len() - i,
        {
            self.stopped_configs.remove(&names[i]);
            proof {
                let so_far = all.take(i as int);
                let name = names@[i as int]@;
                assert(all.take(i + 1) =~= so_far.push(name));
                so_far.lemma_push_to_set_commute(name);
                assert(before.stopped_configs.difference(all.take(i + 1).to_set())
                    =~= before.stopped_configs.difference(so_far.to_set()).remove(name));
            }
            i = i + 1;
        }
        assert(all.take(i as int) =~= all);
        if names.is_empty() {
            proof {
                assert(new_names =~= Set::empty());
                assert(before.stopped_configs.difference(new_names) =~= before.stopped_configs);
                lemma_nothing_adopted(before.running, found_views(found@));
            }
            Vec::new()
        } else {
            proof {
                assert(all.contains(all[0]));
                assert(new_names.contains(all[0]));
            }
            vec![Action::Notify]
        }
    }
}

/// Taking over processes keeps every process of the table as it is.
pub proof fn lemma_adopted_extends(running: Map<Seq<char>, u32>, found: Seq<DiscoveredModel>)
    ensures
        running.submap_of(adopted(running, found)),
    decreases found.len(),
{
    if found.len() > 0 {
        lemma_adopted_extends(running, found.drop_last());
    }
}

proof fn lemma_nothing_adopted(running: Map<Seq<char>, u32>, found: Seq<DiscoveredModel>)
    requires
        newly_adopted(running, found) == Set::<Seq<char>>::empty(),
    ensures
        adopted(running, found) == running,
{
    lemma_adopted_extends(running, found);
    let after = adopted(running, found);
    assert forall|n: Seq<char>| after.contains_key(n) implies running.contains_key(n) by {
        assert(!newly_adopted(running, found).contains(n));
    }
    assert(after =~= running);
}

} // verus!
