//! The two name-keyed collections of the application state: the processes
//! that run and the configurations that were stopped by hand.
use vstd::prelude::*;

verus! {

/// A running frpc process.
#[derive(Debug, PartialEq, Eq)]
pub struct RunningProcess {
    /// The configuration that it runs.
    pub name: String,
    /// Its process id.
    pub pid: u32,
}

/// What a [`RunningProcess`] is.
#[verifier::ext_equal]
pub struct ProcessModel {
    pub name: Seq<char>,
    pub pid: u32,
}

impl View for RunningProcess {
    type V = ProcessModel;

    open spec fn view(&self) -> ProcessModel {
        ProcessModel { name: self.name@, pid: self.pid }
    }
}

/// The processes in `entries`.
pub open spec fn process_views(entries: Seq<RunningProcess>) -> Seq<ProcessModel> {
    entries.map_values(|p: RunningProcess| p@)
}

/// The names of processes.
pub open spec fn process_names(procs: Seq<ProcessModel>) -> Seq<Seq<char>> {
    procs.map_values(|p: ProcessModel| p.name)
}

/// The running processes, at most one for each configuration name.
#[derive(Debug)]
pub struct ProcessTable {
    entries: Vec<RunningProcess>,
}

/// Whether no two entries have the same name.
spec fn distinct_names(entries: Seq<RunningProcess>) -> bool {
    forall|i: int, j: int|
        0 <= i < j < entries.len() ==> (#[trigger] entries[i]).name@ != (#[trigger] entries[j]).name@
}

/// Whether `procs` lists each process of `m`, and each of them once.
pub open spec fn is_listing(procs: Seq<ProcessModel>, m: Map<Seq<char>, u32>) -> bool {
    &&& process_names(procs).no_duplicates()
    &&& process_names(procs).to_set() == m.dom()
    &&& forall|i: int| 0 <= i < procs.len() ==> m[(#[trigger] procs[i]).name] == procs[i].pid
}

/// Whether the entry at `i` is named `name`.
spec fn named_at(entries: Seq<RunningProcess>, i: int, name: Seq<char>) -> bool {
    0 <= i < entries.len() && entries[i].name@ == name
}

/// The process ids by name.
spec fn pids(entries: Seq<RunningProcess>) -> Map<Seq<char>, u32> {
    Map::new(
        |name: Seq<char>| exists|i: int| named_at(entries, i, name),
        |name: Seq<char>| entries[choose|i: int| named_at(entries, i, name)].pid,
    )
}

impl View for ProcessTable {
    type V = Map<Seq<char>, u32>;

    closed spec fn view(&self) -> Map<Seq<char>, u32> {
        pids(self.entries@)
    }
}

impl ProcessTable {
    #[verifier::type_invariant]
    spec fn inv(self) -> bool {
        distinct_names(self.entries@)
    }

    /// The table of no process.
    pub fn new() -> (res: ProcessTable)
        ensures
            res@ == Map::<Seq<char>, u32>::empty(),
    {
        let res = ProcessTable { entries: Vec::new() };
        assert(res@ =~= Map::empty());
        res
    }

    fn position(&self, name: &String) -> (res: Option<usize>)
        ensures
            res is Some <==> self@.contains_key(name@),
            res matches Some(i) ==> named_at(self.entries@, i as int, name@) && self@[name@]
                == self.entries@[i as int].pid,
    {
        proof {
            use_type_invariant(self);
        }
        let mut i: usize = 0;
        while i < self.entries.len()
            invariant
                i <= self.entries.len(),
                distinct_names(self.entries@),
                forall|j: int| 0 <= j < i ==> !#[trigger] named_at(self.entries@, j, name@),
            decreases self.entries.len() - i,
        {
            if self.entries[i].name == *name {
                proof {
                    assert(named_at(self.entries@, i as int, name@));
                    let k = choose|k: int| named_at(self.entries@, k, name@);
                    assert(named_at(self.entries@, k, name@));
                    assert(k == i) by {
                        if k < i {
                            assert(self.entries@[k].name@ != self.entries@[i as int].name@);
                        } else if k > i {
                            assert(self.entries@[i as int].name@ != self.entries@[k].name@);
                        }
                    }
                }
                return Some(i);
            }
            i = i + 1;
        }
        None
    }

    /// Whether a process runs for `name`.
    pub fn contains_key(&self, name: &String) -> (res: bool)
        ensures
            res == self@.contains_key(name@),
    {
        self.position(name).is_some()
    }

    /// The id of the process that runs for `name`.
    pub fn get(&self, name: &String) -> (res: Option<u32>)
        ensures
            res == (if self@.contains_key(name@) {
                Some(self@[name@])
            } else {
                None
            }),
    {
        match self.position(name) {
            Some(i) => Some(self.entries[i].pid),
            None => None,
        }
    }

    /// Enters a process, in place of one of the same name.
    pub fn insert(&mut self, name: String, pid: u32)
        ensures
            final(self)@ == old(self)@.insert(name@, pid),
    {
        let _ = self.remove(&name);
        proof {
            use_type_invariant(&*self);
        }
        let ghost before = self.entries@;
        let mut entries: Vec<RunningProcess> = Vec::new();
        std::mem::swap(&mut entries, &mut self.entries);
        let ghost key = name@;
        entries.push(RunningProcess { name, pid });
        proof {
            assert forall|i: int, j: int| 0 <= i < j < entries@.len() implies (
            #[trigger] entries@[i]).name@ != (#[trigger] entries@[j]).name@ by {
                if j == before.len() {
                    assert(!pids(before).contains_key(key));
                    assert(!named_at(before, i, key));
                }
            }
            lemma_pids_push(before, entries@[before.len() as int]);
            assert(entries@ =~= before.push(entries@[before.len() as int]));
        }
        self.entries = entries;
        assert(self@ =~= old(self)@.insert(key, pid));
    }

    /// Takes the process of `name` out, and gives its id.
    pub fn remove(&mut self, name: &String) -> (res: Option<u32>)
        ensures
            final(self)@ == old(self)@.remove(name@),
            res == (if old(self)@.contains_key(name@) {
                Some(old(self)@[name@])
            } else {
                None
            }),
    {
        match self.position(name) {
            Some(i) => {
                proof {
                    use_type_invariant(&*self);
                }
                let ghost before = self.entries@;
                let mut entries: Vec<RunningProcess> = Vec::new();
                std::mem::swap(&mut entries, &mut self.entries);
                let gone = entries.remove(i);
                proof {
                    lemma_pids_remove(before, i as int);
                    assert(entries@ =~= before.remove(i as int));
                }
                self.entries = entries;
                Some(gone.pid)
            },
            None => {
                assert(self@ =~= self@.remove(name@));
                None
            },
        }
    }

    /// The processes, each once.
    pub fn list(&self) -> (res: Vec<RunningProcess>)
        ensures
            is_listing(process_views(res@), self@),
    {
        proof {
            use_type_invariant(self);
            lemma_listing(self.entries@);
        }
        let mut res: Vec<RunningProcess> = Vec::new();
        let mut i: usize = 0;
        while i < self.entries.len()
            invariant
                i <= self.entries.len(),
                res@ == self.entries@.take(i as int),
            decreases self.entries.len() - i,
        {
            res.push(
                RunningProcess { name: self.entries[i].name.clone(), pid: self.entries[i].pid },
            );
            i = i + 1;
            assert(res@ =~= self.entries@.take(i as int));
        }
        assert(self.entries@.take(i as int) =~= self.entries@);
        res
    }

    /// Takes every process out, each once.
    pub fn drain(&mut self) -> (res: Vec<RunningProcess>)
        ensures
            final(self)@ == Map::<Seq<char>, u32>::empty(),
            is_listing(process_views(res@), old(self)@),
    {
        proof {
            use_type_invariant(&*self);
            lemma_listing(self.entries@);
        }
        let mut res: Vec<RunningProcess> = Vec::new();
        std::mem::swap(&mut res, &mut self.entries);
        assert(self@ =~= Map::empty());
        res
    }

    /// Whether no process runs.
    pub fn is_empty(&self) -> (res: bool)
        ensures
            res == (self@ == Map::<Seq<char>, u32>::empty()),
    {
        let res = self.entries.is_empty();
        proof {
            if res {
                assert(self@ =~= Map::empty());
            } else {
                assert(named_at(self.entries@, 0, self.entries@[0].name@));
                assert(self@.contains_key(self.entries@[0].name@));
            }
        }
        res
    }
}

proof fn lemma_listing(entries: Seq<RunningProcess>)
    requires
        distinct_names(entries),
    ensures
        is_listing(process_views(entries), pids(entries)),
{
    let procs = process_views(entries);
    let names = process_names(procs);
    assert forall|i: int, j: int|
        0 <= i < names.len() && 0 <= j < names.len() && i != j implies names[i] != names[j] by {
        if i < j {
            assert(entries[i].name@ != entries[j].name@);
        } else {
            assert(entries[j].name@ != entries[i].name@);
        }
    }
    assert forall|i: int| 0 <= i < procs.len() implies pids(entries)[(#[trigger] procs[i]).name]
        == procs[i].pid by {
        let name = entries[i].name@;
        assert(named_at(entries, i, name));
        let k = choose|k: int| named_at(entries, k, name);
        assert(named_at(entries, k, name));
        assert(entries[k].name@ == entries[i].name@);
    }
    assert forall|name: Seq<char>| names.to_set().contains(name) <==> pids(entries).dom().contains(
        name,
    ) by {
        if names.contains(name) {
            let i = choose|i: int| 0 <= i < names.len() && names[i] == name;
            assert(named_at(entries, i, name));
        }
        if pids(entries).contains_key(name) {
            let i = choose|i: int| named_at(entries, i, name);
            assert(names[i] == name);
        }
    }
    assert(names.to_set() =~= pids(entries).dom());
}

proof fn lemma_pids_push(entries: Seq<RunningProcess>, e: RunningProcess)
    requires
        distinct_names(entries),
        distinct_names(entries.push(e)),
    ensures
        pids(entries.push(e)) == pids(entries).insert(e.name@, e.pid),
{
    let longer = entries.push(e);
    assert forall|n: Seq<char>|
        #![trigger pids(longer).contains_key(n)]
        pids(longer).contains_key(n) <==> pids(entries).insert(e.name@, e.pid).contains_key(n) by {
        if pids(longer).contains_key(n) {
            let i = choose|i: int| named_at(longer, i, n);
            if i < entries.len() {
                assert(named_at(entries, i, n));
            }
        }
        if pids(entries).contains_key(n) {
            let i = choose|i: int| named_at(entries, i, n);
            assert(named_at(longer, i, n));
        }
        if n == e.name@ {
            assert(named_at(longer, entries.len() as int, n));
        }
    }
    assert forall|n: Seq<char>| #[trigger] pids(longer).contains_key(n) implies pids(longer)[n]
        == pids(entries).insert(e.name@, e.pid)[n] by {
        let i = choose|i: int| named_at(longer, i, n);
        assert(named_at(longer, i, n));
        if n == e.name@ {
            assert(longer[entries.len() as int].name@ == longer[i].name@);
        } else {
            assert(named_at(entries, i, n));
            let k = choose|k: int| named_at(entries, k, n);
            assert(named_at(entries, k, n));
            assert(longer[i].name@ == longer[k].name@);
        }
    }
    assert(pids(longer) =~= pids(entries).insert(e.name@, e.pid));
}

proof fn lemma_pids_remove(entries: Seq<RunningProcess>, at: int)
    requires
        distinct_names(entries),
        0 <= at < entries.len(),
    ensures
        distinct_names(entries.remove(at)),
        pids(entries.remove(at)) == pids(entries).remove(entries[at].name@),
{
    let rest = entries.remove(at);
    let gone = entries[at].name@;
    assert forall|i: int, j: int| 0 <= i < j < rest.len() implies (#[trigger] rest[i]).name@ != (
    #[trigger] rest[j]).name@ by {
        let i2 = if i < at { i } else { i + 1 };
        let j2 = if j < at { j } else { j + 1 };
        assert(entries[i2].name@ != entries[j2].name@);
    }
    assert forall|n: Seq<char>|
        #![trigger pids(rest).contains_key(n)]
        pids(rest).contains_key(n) <==> pids(entries).remove(gone).contains_key(n) by {
        if pids(rest).contains_key(n) {
            let i = choose|i: int| named_at(rest, i, n);
            let i2 = if i < at { i } else { i + 1 };
            assert(named_at(entries, i2, n));
            assert(entries[i2].name@ != entries[at].name@);
        }
        if pids(entries).contains_key(n) && n != gone {
            let i = choose|i: int| named_at(entries, i, n);
            let i2 = if i < at { i } else { i - 1 };
            assert(named_at(rest, i2, n));
        }
    }
    assert forall|n: Seq<char>| #[trigger] pids(rest).contains_key(n) implies pids(rest)[n]
        == pids(entries).remove(gone)[n] by {
        let i = choose|i: int| named_at(rest, i, n);
        assert(named_at(rest, i, n));
        let i2 = if i < at { i } else { i + 1 };
        assert(named_at(entries, i2, n));
        let k = choose|k: int| named_at(entries, k, n);
        assert(named_at(entries, k, n));
        assert(entries[k].name@ == entries[i2].name@);
    }
    assert(pids(rest) =~= pids(entries).remove(gone));
}

/// A set of configuration names.
#[derive(Debug)]
pub struct NameSet {
    names: Vec<String>,
}

/// The names in `names`.
pub open spec fn name_views(names: Seq<String>) -> Seq<Seq<char>> {
    names.map_values(|name: String| name@)
}

impl View for NameSet {
    type V = Set<Seq<char>>;

    closed spec fn view(&self) -> Set<Seq<char>> {
        name_views(self.names@).to_set()
    }
}

impl NameSet {
    #[verifier::type_invariant]
    spec fn inv(self) -> bool {
        name_views(self.names@).no_duplicates()
    }

    /// The set of no name.
    pub fn new() -> (res: NameSet)
        ensures
            res@ == Set::<Seq<char>>::empty(),
    {
        let res = NameSet { names: Vec::new() };
        assert(res@ =~= Set::empty());
        res
    }

    fn position(&self, name: &String) -> (res: Option<usize>)
        ensures
            res is Some <==> self@.contains(name@),
            res matches Some(i) ==> i < self.names@.len() && self.names@[i as int]@ == name@,
    {
        let mut i: usize = 0;
        while i < self.names.len()
            invariant
                i <= self.names.len(),
                forall|j: int| 0 <= j < i ==> name_views(self.names@)[j] != name@,
            decreases self.names.len() - i,
        {
            if self.names[i] == *name {
                assert(name_views(self.names@)[i as int] == name@);
                return Some(i);
            }
            i = i + 1;
        }
        None
    }

    /// Whether `name` is in the set.
    pub fn contains(&self, name: &String) -> (res: bool)
        ensures
            res == self@.contains(name@),
    {
        self.position(name).is_some()
    }

    /// Puts `name` in.
    pub fn insert(&mut self, name: &String)
        ensures
            final(self)@ == old(self)@.insert(name@),
    {
        if self.contains(name) {
            assert(self@ =~= self@.insert(name@));
        } else {
            proof {
                use_type_invariant(&*self);
            }
            let ghost before = name_views(self.names@);
            let mut names: Vec<String> = Vec::new();
            std::mem::swap(&mut names, &mut self.names);
            names.push(name.clone());
            proof {
                assert(name_views(names@) =~= before.push(name@));
                assert(!before.to_set().contains(name@));
                assert forall|i: int, j: int|
                    0 <= i < before.len() + 1 && 0 <= j < before.len() + 1 && i
                        != j implies before.push(name@)[i] != before.push(name@)[j] by {
                    if i < before.len() {
                        assert(before.contains(before[i]));
                    }
                    if j < before.len() {
                        assert(before.contains(before[j]));
                    }
                }
                before.lemma_push_to_set_commute(name@);
            }
            self.names = names;
            assert(self@ =~= old(self)@.insert(name@));
        }
    }

    /// Takes `name` out.
    pub fn remove(&mut self, name: &String)
        ensures
            final(self)@ == old(self)@.remove(name@),
    {
        match self.position(name) {
            Some(i) => {
                proof {
                    use_type_invariant(&*self);
                }
                let ghost before = name_views(self.names@);
                let ghost at = i as int;
                let mut names: Vec<String> = Vec::new();
                std::mem::swap(&mut names, &mut self.names);
                let _ = names.remove(i);
                proof {
                    let after = name_views(names@);
                    assert(after =~= before.remove(at));
                    assert forall|n: Seq<char>|
                        after.contains(n) <==> before.contains(n) && n != before[at] by {
                        if after.contains(n) {
                            let k = choose|k: int| 0 <= k < after.len() && after[k] == n;
                            let k2 = if k < at { k } else { k + 1 };
                            assert(before[k2] == n);
                        }
                        if before.contains(n) && n != before[at] {
                            let k = choose|k: int| 0 <= k < before.len() && before[k] == n;
                            let k2 = if k < at { k } else { k - 1 };
                            assert(after[k2] == n);
                        }
                    }
                }
                self.names = names;
                assert(self@ =~= old(self)@.remove(name@));
            },
            None => {
                assert(self@ =~= self@.remove(name@));
            },
        }
    }

    /// Takes every name out.
    pub fn clear(&mut self)
        ensures
            final(self)@ == Set::<Seq<char>>::empty(),
    {
        self.names = Vec::new();
        assert(self@ =~= Set::empty());
    }
}

} // verus!
