//! The routing table of agent hook events, and the bookkeeping decisions of
//! the hook settings injection.
//!
//! Every pane spawned by the app gets a fresh id in its environment; an
//! incoming hook event names that id, and the table gives the Task and pane
//! the event belongs to. Registering an id again replaces its route;
//! unregistering forgets it.
//!
//! Injection edits `settings.local.json` in the agent's settings directory
//! of a working directory,
//! keeping a `.labolabo-bak` copy of a file it found there; at quit a
//! backup is put back, and a file the app created itself is removed. The
//! injection ledger records each injected directory once, decides when an
//! injection has nothing to do, and lists the restore steps at quit; the
//! file operations between those steps belong to the caller.
use vstd::prelude::*;
use crate::text::str_is;
use crate::ghostty_config::{join, join_path};

verus! {

/// Where an event of one pane id goes: the Task and the pane.
#[derive(Debug, Clone, PartialEq, Eq)]
pub struct PaneRoute {
    pub task_id: String,
    pub pane_id: u64,
}

/// The plain value of a route.
pub open spec fn route_view(r: PaneRoute) -> (Seq<char>, u64) {
    (r.task_id@, r.pane_id)
}

/// The routing table: pane id to route.
pub struct PaneRoutes {
    entries: Vec<(String, PaneRoute)>,
}

/// Whether no two entries share a pane id.
pub open spec fn unique_keys(e: Seq<(String, PaneRoute)>) -> bool {
    forall|i: int, j: int| 0 <= i < j < e.len() ==> (#[trigger] e[i]).0@ != (#[trigger] e[j]).0@
}

/// The map of a list of entries with distinct keys.
pub open spec fn route_map(e: Seq<(String, PaneRoute)>) -> Map<Seq<char>, (Seq<char>, u64)> {
    Map::new(
        |k: Seq<char>| exists|i: int| 0 <= i < e.len() && (#[trigger] e[i]).0@ == k,
        |k: Seq<char>|
            {
                let i = choose|i: int| 0 <= i < e.len() && (#[trigger] e[i]).0@ == k;
                route_view(e[i].1)
            },
    )
}

proof fn lemma_route_at(e: Seq<(String, PaneRoute)>, j: int)
    requires
        unique_keys(e),
        0 <= j < e.len(),
    ensures
        route_map(e).contains_key(e[j].0@),
        route_map(e)[e[j].0@] == route_view(e[j].1),
{
    let k = e[j].0@;
    assert(route_map(e).dom().contains(k));
    let i = choose|i: int| 0 <= i < e.len() && (#[trigger] e[i]).0@ == k;
    if i != j {
        if i < j {
            assert(e[i].0@ != e[j].0@);
        } else {
            assert(e[j].0@ != e[i].0@);
        }
    }
}

impl PaneRoutes {
    #[verifier::type_invariant]
    spec fn well_formed(&self) -> bool {
        unique_keys(self.entries@)
    }
}

impl View for PaneRoutes {
    type V = Map<Seq<char>, (Seq<char>, u64)>;

    closed spec fn view(&self) -> Map<Seq<char>, (Seq<char>, u64)> {
        route_map(self.entries@)
    }
}

fn position_in(entries: &Vec<(String, PaneRoute)>, pane_uuid: &str) -> (r: Option<usize>)
    ensures
        match r {
            Some(i) => i < entries@.len() && entries@[i as int].0@ == pane_uuid@,
            None => forall|i: int| 0 <= i < entries@.len() ==> (#[trigger] entries@[i]).0@ != pane_uuid@,
        },
{
    let n = entries.len();
    let mut i: usize = 0;
    while i < n
        invariant
            n == entries@.len(),
            i <= n,
            forall|j: int| 0 <= j < i ==> (#[trigger] entries@[j]).0@ != pane_uuid@,
        decreases n - i,
    {
        if str_is(entries[i].0.as_str(), pane_uuid) {
            return Some(i);
        }
        i += 1;
    }
    None
}

impl PaneRoutes {
    /// The empty table.
    pub fn new() -> (r: Self)
        ensures
            r@ == Map::<Seq<char>, (Seq<char>, u64)>::empty(),
    {
        let r = PaneRoutes { entries: Vec::new() };
        assert(r@ =~= Map::<Seq<char>, (Seq<char>, u64)>::empty());
        r
    }

    /// Routes events of `pane_uuid` to (`task_id`, `pane_id`), replacing any
    /// route it had.
    pub fn register_pane(&mut self, pane_uuid: String, task_id: String, pane_id: u64)
        ensures
            final(self)@ == old(self)@.insert(pane_uuid@, (task_id@, pane_id)),
    {
        proof {
            use_type_invariant(&*self);
        }
        let ghost k = pane_uuid@;
        let ghost old_map = self@;
        let ghost v = (task_id@, pane_id);
        let mut entries = Vec::new();
        std::mem::swap(&mut entries, &mut self.entries);
        let ghost e0 = entries@;
        let ghost mut e1 = e0;
        match position_in(&entries, pane_uuid.as_str()) {
            Some(i) => {
                entries.remove(i);
                proof {
                    e1 = e0.remove(i as int);
                }
            },
            None => {},
        }
        assert(entries@ == e1);
        assert(forall|j: int| 0 <= j < e1.len() ==> (#[trigger] e1[j]).0@ != k);
        assert(unique_keys(e1)) by {
            assert forall|a: int, b: int| 0 <= a < b < e1.len() implies (#[trigger] e1[a]).0@ != (#[trigger] e1[b]).0@ by {
                if e1.len() < e0.len() {
                    let i = choose|i: int| 0 <= i < e0.len() && e1 == e0.remove(i);
                    let a0 = if a < i { a } else { a + 1 };
                    let b0 = if b < i { b } else { b + 1 };
                    assert(e1[a] == e0[a0]);
                    assert(e1[b] == e0[b0]);
                }
            }
        }
        entries.push((pane_uuid, PaneRoute { task_id, pane_id }));
        let ghost e2 = entries@;
        assert(unique_keys(e2)) by {
            assert forall|a: int, b: int| 0 <= a < b < e2.len() implies (#[trigger] e2[a]).0@ != (#[trigger] e2[b]).0@ by {
                if b == e2.len() - 1 {
                    assert(e2[a] == e1[a]);
                } else {
                    assert(e2[a] == e1[a]);
                    assert(e2[b] == e1[b]);
                }
            }
        }
        proof {
            assert forall|x: Seq<char>| #[trigger] route_map(e2).contains_key(x) <==> old_map.insert(k, v).contains_key(x) by {
                if route_map(e2).contains_key(x) {
                    let j = choose|j: int| 0 <= j < e2.len() && (#[trigger] e2[j]).0@ == x;
                    if j < e1.len() {
                        assert(e2[j] == e1[j]);
                        lemma_in_old(e0, e1, j, k);
                    }
                }
                if old_map.contains_key(x) && x != k {
                    let j = choose|j: int| 0 <= j < e0.len() && (#[trigger] e0[j]).0@ == x;
                    let j1 = lemma_kept(e0, e1, j, k);
                    assert(e2[j1] == e1[j1]);
                }
                if x == k {
                    assert(e2[e2.len() - 1].0@ == k);
                }
            }
            assert forall|x: Seq<char>| #[trigger] route_map(e2).contains_key(x) implies route_map(e2)[x] == old_map.insert(k, v)[x] by {
                if x == k {
                    lemma_route_at(e2, e2.len() - 1);
                } else {
                    let j = choose|j: int| 0 <= j < e2.len() && (#[trigger] e2[j]).0@ == x;
                    assert(j < e1.len());
                    assert(e2[j] == e1[j]);
                    lemma_route_at(e2, j);
                    let j0 = lemma_in_old(e0, e1, j, k);
                    lemma_route_at(e0, j0);
                }
            }
            assert(route_map(e2) =~= old_map.insert(k, v));
        }
        self.entries = entries;
    }

    /// Forgets the route of `pane_uuid`.
    pub fn unregister_pane(&mut self, pane_uuid: &str)
        ensures
            final(self)@ == old(self)@.remove(pane_uuid@),
    {
        proof {
            use_type_invariant(&*self);
        }
        let ghost k = pane_uuid@;
        let ghost old_map = self@;
        let mut entries = Vec::new();
        std::mem::swap(&mut entries, &mut self.entries);
        let ghost e0 = entries@;
        let ghost mut e1 = e0;
        match position_in(&entries, pane_uuid) {
            Some(i) => {
                entries.remove(i);
                proof {
                    e1 = e0.remove(i as int);
                }
            },
            None => {},
        }
        assert(entries@ == e1);
        assert(unique_keys(e1)) by {
            assert forall|a: int, b: int| 0 <= a < b < e1.len() implies (#[trigger] e1[a]).0@ != (#[trigger] e1[b]).0@ by {
                if e1.len() < e0.len() {
                    let i = choose|i: int| 0 <= i < e0.len() && e1 == e0.remove(i);
                    let a0 = if a < i { a } else { a + 1 };
                    let b0 = if b < i { b } else { b + 1 };
                    assert(e1[a] == e0[a0]);
                    assert(e1[b] == e0[b0]);
                }
            }
        }
        proof {
            assert forall|x: Seq<char>| #[trigger] route_map(e1).contains_key(x) <==> old_map.remove(k).contains_key(x) by {
                if route_map(e1).contains_key(x) {
                    let j = choose|j: int| 0 <= j < e1.len() && (#[trigger] e1[j]).0@ == x;
                    lemma_in_old(e0, e1, j, k);
                }
                if old_map.contains_key(x) && x != k {
                    let j = choose|j: int| 0 <= j < e0.len() && (#[trigger] e0[j]).0@ == x;
                    lemma_kept(e0, e1, j, k);
                }
            }
            assert forall|x: Seq<char>| #[trigger] route_map(e1).contains_key(x) implies route_map(e1)[x] == old_map.remove(k)[x] by {
                let j = choose|j: int| 0 <= j < e1.len() && (#[trigger] e1[j]).0@ == x;
                lemma_route_at(e1, j);
                let j0 = lemma_in_old(e0, e1, j, k);
                lemma_route_at(e0, j0);
            }
            assert(route_map(e1) =~= old_map.remove(k));
        }
        self.entries = entries;
    }

    /// The route of `pane_uuid`, if it has one.
    pub fn resolve_pane(&self, pane_uuid: &str) -> (r: Option<PaneRoute>)
        ensures
            match r {
                Some(p) => self@.contains_key(pane_uuid@) && self@[pane_uuid@] == route_view(p),
                None => !self@.contains_key(pane_uuid@),
            },
    {
        proof {
            use_type_invariant(self);
        }
        match position_in(&self.entries, pane_uuid) {
            Some(i) => {
                proof {
                    lemma_route_at(self.entries@, i as int);
                }
                let route = &self.entries[i].1;
                Some(PaneRoute { task_id: route.task_id.clone(), pane_id: route.pane_id })
            },
            None => None,
        }
    }
}

proof fn lemma_in_old(e0: Seq<(String, PaneRoute)>, e1: Seq<(String, PaneRoute)>, j: int, k: Seq<char>) -> (j0: int)
    requires
        0 <= j < e1.len(),
        e1 == e0 || exists|i: int| 0 <= i < e0.len() && e1 == e0.remove(i),
    ensures
        0 <= j0 < e0.len(),
        e0[j0] == e1[j],
{
    if e1 == e0 {
        j
    } else {
        let i = choose|i: int| 0 <= i < e0.len() && e1 == e0.remove(i);
        if j < i {
            j
        } else {
            j + 1
        }
    }
}

proof fn lemma_kept(e0: Seq<(String, PaneRoute)>, e1: Seq<(String, PaneRoute)>, j: int, k: Seq<char>) -> (j1: int)
    requires
        0 <= j < e0.len(),
        e0[j].0@ != k,
        e1 == e0 || exists|i: int| 0 <= i < e0.len() && e0[i].0@ == k && e1 == e0.remove(i),
    ensures
        0 <= j1 < e1.len(),
        e1[j1] == e0[j],
{
    if e1 == e0 {
        j
    } else {
        let i = choose|i: int| 0 <= i < e0.len() && e0[i].0@ == k && e1 == e0.remove(i);
        assert(i != j);
        if j < i {
            j
        } else {
            j - 1
        }
    }
}

/// What to do with a directory's settings file at quit: put the backup
/// back, remove a file the app created, or leave it alone.
#[derive(Debug, Clone, Copy, PartialEq, Eq, Structural)]
pub enum RestoreAction {
    RestoreBackup,
    RemoveCreated,
    LeaveAlone,
}

/// The restore decision as a value.
pub open spec fn restore_decision(backup_exists: bool, created: bool) -> RestoreAction {
    if backup_exists {
        RestoreAction::RestoreBackup
    } else if created {
        RestoreAction::RemoveCreated
    } else {
        RestoreAction::LeaveAlone
    }
}

/// The restore decision: a backup on disk wins; otherwise a file the app
/// created goes; otherwise nothing changes.
pub fn restore_action(backup_exists: bool, created: bool) -> (r: RestoreAction)
    ensures
        r == restore_decision(backup_exists, created),
{
    if backup_exists {
        RestoreAction::RestoreBackup
    } else if created {
        RestoreAction::RemoveCreated
    } else {
        RestoreAction::LeaveAlone
    }
}

/// One injected directory, as putting it back at quit needs it: its
/// settings file, the file's backup, and whether the app created the
/// settings file afresh.
pub struct InjectedDir {
    pub settings_path: String,
    pub backup_path: String,
    pub created: bool,
}

/// One step of putting the injected directories back at quit.
pub struct RestoreStep {
    pub action: RestoreAction,
    pub settings_path: String,
    pub backup_path: String,
}

/// The directories injected so far, in the order they were injected; each
/// directory at most once.
pub struct InjectionLedger {
    entries: Vec<(String, InjectedDir)>,
}

/// The plain value of one ledger entry: directory, settings file, backup,
/// created afresh.
pub open spec fn ledger_entry(e: (String, InjectedDir)) -> (Seq<char>, Seq<char>, Seq<char>, bool) {
    (e.0@, e.1.settings_path@, e.1.backup_path@, e.1.created)
}

/// Whether `dir` is one of the ledger's directories.
pub open spec fn recorded(l: Seq<(Seq<char>, Seq<char>, Seq<char>, bool)>, dir: Seq<char>) -> bool {
    exists|i: int| 0 <= i < l.len() && (#[trigger] l[i]).0 == dir
}

/// The ledger after `e` finished injecting: a directory already in it keeps
/// its first entry (whose backup holds the file as it was before any
/// injection); a new one is appended.
pub open spec fn finished(
    l: Seq<(Seq<char>, Seq<char>, Seq<char>, bool)>,
    e: (Seq<char>, Seq<char>, Seq<char>, bool),
) -> Seq<(Seq<char>, Seq<char>, Seq<char>, bool)> {
    if recorded(l, e.0) {
        l
    } else {
        l.push(e)
    }
}

impl InjectionLedger {
    #[verifier::type_invariant]
    spec fn well_formed(&self) -> bool {
        forall|i: int, j: int|
            0 <= i < j < self.entries@.len() ==> (#[trigger] self.entries@[i]).0@ != (#[trigger] self.entries@[j]).0@
    }
}

impl View for InjectionLedger {
    type V = Seq<(Seq<char>, Seq<char>, Seq<char>, bool)>;

    closed spec fn view(&self) -> Seq<(Seq<char>, Seq<char>, Seq<char>, bool)> {
        self.entries@.map_values(|e: (String, InjectedDir)| ledger_entry(e))
    }
}

impl InjectionLedger {
    /// Nothing injected yet.
    pub fn new() -> (r: Self)
        ensures
            r@ == Seq::<(Seq<char>, Seq<char>, Seq<char>, bool)>::empty(),
    {
        let r = InjectionLedger { entries: Vec::new() };
        assert(r@ =~= Seq::<(Seq<char>, Seq<char>, Seq<char>, bool)>::empty());
        r
    }

    /// Whether `dir` was injected.
    pub fn is_injected(&self, dir: &str) -> (r: bool)
        ensures
            r == recorded(self@, dir@),
    {
        let n = self.entries.len();
        let mut i: usize = 0;
        while i < n
            invariant
                n == self.entries@.len(),
                n == self@.len(),
                i <= n,
                forall|j: int| 0 <= j < i ==> (#[trigger] self@[j]).0 != dir@,
            decreases n - i,
        {
            assert(self@[i as int] == ledger_entry(self.entries@[i as int]));
            if str_is(self.entries[i].0.as_str(), dir) {
                return true;
            }
            i += 1;
        }
        false
    }

    /// The first step of injecting `dir`: nothing to do (`None`) without a
    /// hook forwarder or when `dir` was injected before; otherwise the
    /// agent's settings directory, settings file and backup to work on.
    pub fn begin_injection(&self, has_forwarder: bool, dir: &str, agent_dir: &str) -> (r: Option<(String, String, String)>)
        ensures
            r is None <==> (!has_forwarder || recorded(self@, dir@)),
            r matches Some(p) ==> (p.0@, p.1@, p.2@) == settings_paths(dir@, agent_dir@),
    {
        if !has_forwarder || self.is_injected(dir) {
            None
        } else {
            Some(injection_paths(dir, agent_dir))
        }
    }

    /// The last step of injecting `dir`, once its settings were written:
    /// records it (see [`finished`]).
    pub fn finish_injection(&mut self, dir: String, entry: InjectedDir)
        ensures
            final(self)@ == finished(old(self)@, (dir@, entry.settings_path@, entry.backup_path@, entry.created)),
    {
        proof {
            use_type_invariant(&*self);
        }
        if self.is_injected(dir.as_str()) {
            return;
        }
        let ghost e0 = self.entries@;
        let ghost d = dir@;
        let ghost v = (dir@, entry.settings_path@, entry.backup_path@, entry.created);
        assert forall|j: int| 0 <= j < e0.len() implies (#[trigger] e0[j]).0@ != d by {
            assert(self@[j] == ledger_entry(e0[j]));
        }
        let mut entries = Vec::new();
        std::mem::swap(&mut entries, &mut self.entries);
        entries.push((dir, entry));
        assert(entries@.map_values(|e: (String, InjectedDir)| ledger_entry(e)) =~= e0.map_values(
            |e: (String, InjectedDir)| ledger_entry(e),
        ).push(v));
        self.entries = entries;
    }

    /// The steps of putting every injected directory back, in injection
    /// order, given whether each directory's backup exists now.
    pub fn restore_steps(&self, backup_exists: &[bool]) -> (r: Vec<RestoreStep>)
        requires
            backup_exists@.len() == self@.len(),
        ensures
            r@.len() == self@.len(),
            forall|i: int|
                0 <= i < r@.len() ==> {
                    &&& (#[trigger] r@[i]).action == restore_decision(backup_exists@[i], self@[i].3)
                    &&& r@[i].settings_path@ == self@[i].1
                    &&& r@[i].backup_path@ == self@[i].2
                },
    {
        let n = self.entries.len();
        let mut r: Vec<RestoreStep> = Vec::new();
        let mut i: usize = 0;
        while i < n
            invariant
                n == self.entries@.len(),
                n == self@.len(),
                backup_exists@.len() == n,
                i <= n,
                r@.len() == i,
                forall|j: int|
                    0 <= j < i ==> {
                        &&& (#[trigger] r@[j]).action == restore_decision(backup_exists@[j], self@[j].3)
                        &&& r@[j].settings_path@ == self@[j].1
                        &&& r@[j].backup_path@ == self@[j].2
                    },
            decreases n - i,
        {
            assert(self@[i as int] == ledger_entry(self.entries@[i as int]));
            let e = &self.entries[i].1;
            let action = restore_action(backup_exists[i], e.created);
            r.push(
                RestoreStep {
                    action,
                    settings_path: String::from_str(e.settings_path.as_str()),
                    backup_path: String::from_str(e.backup_path.as_str()),
                },
            );
            i += 1;
        }
        r
    }

    /// The backup file of every injected directory, in injection order.
    pub fn backup_paths(&self) -> (r: Vec<String>)
        ensures
            r@.len() == self@.len(),
            forall|i: int| 0 <= i < r@.len() ==> (#[trigger] r@[i])@ == self@[i].2,
    {
        let n = self.entries.len();
        let mut r: Vec<String> = Vec::new();
        let mut i: usize = 0;
        while i < n
            invariant
                n == self.entries@.len(),
                n == self@.len(),
                i <= n,
                r@.len() == i,
                forall|j: int| 0 <= j < i ==> (#[trigger] r@[j])@ == self@[j].2,
            decreases n - i,
        {
            assert(self@[i as int] == ledger_entry(self.entries@[i as int]));
            r.push(String::from_str(self.entries[i].1.backup_path.as_str()));
            i += 1;
        }
        r
    }
}

/// Each directory is injected once: after it finished, injecting it again
/// has nothing to do and finishing it again changes nothing, so its first
/// backup (the file as it was) is the one put back at quit.
pub proof fn law_injection_once_per_directory(
    l: Seq<(Seq<char>, Seq<char>, Seq<char>, bool)>,
    e: (Seq<char>, Seq<char>, Seq<char>, bool),
    again: (Seq<char>, Seq<char>, Seq<char>, bool),
)
    requires
        again.0 == e.0,
    ensures
        recorded(finished(l, e), e.0),
        finished(finished(l, e), again) == finished(l, e),
        !recorded(l, e.0) ==> finished(l, e).last() == e,
{
    if !recorded(l, e.0) {
        let l2 = l.push(e);
        assert(l2[l.len() as int].0 == e.0);
    }
}

/// Whether injection keeps a backup: only of a file it found and did not
/// create afresh.
pub fn needs_backup(created: bool, existing_found: bool) -> (r: bool)
    ensures
        r == (!created && existing_found),
{
    !created && existing_found
}

/// The agent's settings directory (`agent_dir` under the working
/// directory), its settings file, and the file's backup.
pub open spec fn settings_paths(dir: Seq<char>, agent_dir: Seq<char>) -> (Seq<char>, Seq<char>, Seq<char>) {
    let settings_dir = join_path(dir, agent_dir);
    (
        settings_dir,
        join_path(settings_dir, "settings.local.json"@),
        join_path(settings_dir, "settings.local.json.labolabo-bak"@),
    )
}

/// The agent's settings directory `agent_dir` under `dir`, the settings
/// file in it, and that file's backup.
pub fn injection_paths(dir: &str, agent_dir: &str) -> (r: (String, String, String))
    ensures
        (r.0@, r.1@, r.2@) == settings_paths(dir@, agent_dir@),
{
    let settings_dir = join(dir, agent_dir);
    let settings = join(settings_dir.as_str(), "settings.local.json");
    let backup = join(settings_dir.as_str(), "settings.local.json.labolabo-bak");
    (settings_dir, settings, backup)
}

/// Reading a route back gives what was last registered for its id;
/// unregistering an id leaves no route for it; other ids are untouched.
pub proof fn law_routes_read_back(m: Map<Seq<char>, (Seq<char>, u64)>, k: Seq<char>, other: Seq<char>, v: (Seq<char>, u64))
    requires
        other != k,
    ensures
        m.insert(k, v).contains_key(k) && m.insert(k, v)[k] == v,
        !m.remove(k).contains_key(k),
        m.insert(k, v).contains_key(other) == m.contains_key(other),
        m.contains_key(other) ==> m.insert(k, v)[other] == m[other] && m.remove(k)[other] == m[other],
{
}

} // verus!
