//! The interactive update engine: the two dependency tables' selection state,
//! the event dispatch that drives them, and the applier that writes toggled
//! updates through the manifest model.

use vstd::prelude::*;
use vstd::string::StrSliceExecFns;

use crate::entries::{distinct_keys, has_pkey, lookup_val, pairs_view, replace_val};
use crate::fetched::VersionMap;
use crate::project::{compose_version, sections_frame, Project};
use crate::registry::{FetchError, Metadata};

verus! {

/// Which dependency table is active.
#[derive(Clone, Copy, PartialEq, Eq, Structural, Debug)]
pub enum DependencyTable {
    Runtime,
    Dev,
}

/// One table's cursor: the highlighted row, or none when the table is empty.
#[derive(Clone, Copy, PartialEq, Eq, Structural, Debug)]
pub struct TableState {
    pub selected: Option<usize>,
}

/// One table's toggle set, as a flag per row.
pub struct ToggleSet {
    flags: Vec<bool>,
}

impl View for ToggleSet {
    type V = Seq<bool>;

    closed spec fn view(&self) -> Seq<bool> {
        self.flags@
    }
}

/// Some row of `t` is toggled.
pub open spec fn any_toggled(t: Seq<bool>) -> bool {
    exists|i: int| 0 <= i < t.len() && t[i]
}

impl ToggleSet {
    /// An all-clear toggle set for a table of `len` rows.
    pub fn new(len: usize) -> (t: ToggleSet)
        ensures
            t@.len() == len,
            forall|i: int| 0 <= i < len ==> !t@[i],
    {
        let mut flags: Vec<bool> = Vec::new();
        let mut i: usize = 0;
        while i < len
            invariant
                i <= len,
                flags@.len() == i,
                forall|j: int| 0 <= j < i ==> !flags@[j],
            decreases len - i,
        {
            flags.push(false);
            i = i + 1;
        }
        ToggleSet { flags }
    }

    /// Whether row `i` is toggled.
    pub fn contains(&self, i: usize) -> (b: bool)
        requires
            i < self@.len(),
        ensures
            b == self@[i as int],
    {
        self.flags[i]
    }

    /// Flip row `i`'s membership.
    pub fn flip(&mut self, i: usize)
        requires
            i < old(self)@.len(),
        ensures
            final(self)@ == old(self)@.update(i as int, !old(self)@[i as int]),
    {
        let cur = self.flags[i];
        self.flags[i] = !cur;
    }

    /// Whether any row is toggled.
    pub fn any(&self) -> (b: bool)
        ensures
            b == any_toggled(self@),
    {
        let mut i: usize = 0;
        while i < self.flags.len()
            invariant
                i <= self@.len(),
                forall|j: int| 0 <= j < i ==> !self@[j],
            decreases self@.len() - i,
        {
            if self.flags[i] {
                return true;
            }
            i = i + 1;
        }
        false
    }
}

/// The selection state of both tables.
pub struct State {
    pub dependencies_len: usize,
    pub dev_dependencies_len: usize,
    pub active_table: DependencyTable,
    pub dependencies_table_state: TableState,
    pub dev_dependencies_table_state: TableState,
    pub update_index: ToggleSet,
    pub dev_update_index: ToggleSet,
}

/// A cursor fits its table: some in-range row when the table is non-empty,
/// unset when it is empty.
pub open spec fn cursor_wf(len: usize, ts: TableState) -> bool {
    if len > 0 {
        ts.selected matches Some(i) && i < len
    } else {
        ts.selected is None
    }
}

impl State {
    /// Cursors fit their tables, toggle sets have one flag per row, and the
    /// active table is non-empty whenever any table is.
    pub open spec fn wf(self) -> bool {
        &&& cursor_wf(self.dependencies_len, self.dependencies_table_state)
        &&& cursor_wf(self.dev_dependencies_len, self.dev_dependencies_table_state)
        &&& self.update_index@.len() == self.dependencies_len
        &&& self.dev_update_index@.len() == self.dev_dependencies_len
        &&& (self.active_table is Dev ==> self.dev_dependencies_len > 0)
        &&& (self.active_table is Runtime ==> self.dependencies_len > 0
            || self.dev_dependencies_len == 0)
    }

    /// The number of rows of the active table.
    pub open spec fn active_len(self) -> usize {
        match self.active_table {
            DependencyTable::Runtime => self.dependencies_len,
            DependencyTable::Dev => self.dev_dependencies_len,
        }
    }

    /// The active table's cursor.
    pub open spec fn active_cursor(self) -> Option<usize> {
        match self.active_table {
            DependencyTable::Runtime => self.dependencies_table_state.selected,
            DependencyTable::Dev => self.dev_dependencies_table_state.selected,
        }
    }
}

/// The row after `cur`, wrapping from the last row to row zero; an unset
/// cursor moves to row zero.
pub open spec fn next_index(len: usize, cur: Option<usize>) -> usize {
    match cur {
        Some(i) => if i + 1 >= len {
            0
        } else {
            (i + 1) as usize
        },
        None => 0,
    }
}

/// The row before `cur`, wrapping from row zero to the last row; an unset
/// cursor moves to row zero.
pub open spec fn prev_index(len: usize, cur: Option<usize>) -> usize {
    match cur {
        Some(i) => if i == 0 {
            (len - 1) as usize
        } else {
            (i - 1) as usize
        },
        None => 0,
    }
}

/// `next`: advance the active table's cursor with wraparound; a no-op when
/// the active table is empty.
pub open spec fn spec_next(s: State) -> State {
    if s.active_len() == 0 {
        s
    } else if s.active_table is Runtime {
        State {
            dependencies_table_state: (TableState {
                selected: Some(next_index(s.dependencies_len, s.dependencies_table_state.selected)),
            }),
            ..s
        }
    } else {
        State {
            dev_dependencies_table_state: (TableState {
                selected: Some(
                    next_index(s.dev_dependencies_len, s.dev_dependencies_table_state.selected),
                ),
            }),
            ..s
        }
    }
}

/// `previous`: move the active table's cursor back with wraparound; a no-op
/// when the active table is empty.
pub open spec fn spec_previous(s: State) -> State {
    if s.active_len() == 0 {
        s
    } else if s.active_table is Runtime {
        State {
            dependencies_table_state: (TableState {
                selected: Some(prev_index(s.dependencies_len, s.dependencies_table_state.selected)),
            }),
            ..s
        }
    } else {
        State {
            dev_dependencies_table_state: (TableState {
                selected: Some(
                    prev_index(s.dev_dependencies_len, s.dev_dependencies_table_state.selected),
                ),
            }),
            ..s
        }
    }
}

/// `switchTable`: flip the active table; a no-op unless both tables are
/// non-empty.
pub open spec fn spec_switch(s: State) -> State {
    if s.dependencies_len == 0 || s.dev_dependencies_len == 0 {
        s
    } else {
        State {
            active_table: match s.active_table {
                DependencyTable::Runtime => DependencyTable::Dev,
                DependencyTable::Dev => DependencyTable::Runtime,
            },
            ..s
        }
    }
}

/// `toggleUpdate`: flip the active table's toggle at its cursor; a no-op
/// when the active table is empty.  Everything but that one toggle set is
/// untouched.
pub open spec fn spec_toggled(pre: State, post: State) -> bool {
    &&& post.dependencies_len == pre.dependencies_len
    &&& post.dev_dependencies_len == pre.dev_dependencies_len
    &&& post.active_table == pre.active_table
    &&& post.dependencies_table_state == pre.dependencies_table_state
    &&& post.dev_dependencies_table_state == pre.dev_dependencies_table_state
    &&& if pre.active_len() == 0 {
        post.update_index@ == pre.update_index@ && post.dev_update_index@
            == pre.dev_update_index@
    } else {
        let i = pre.active_cursor().unwrap() as int;
        if pre.active_table is Runtime {
            post.update_index@ == pre.update_index@.update(i, !pre.update_index@[i])
                && post.dev_update_index@ == pre.dev_update_index@
        } else {
            post.dev_update_index@ == pre.dev_update_index@.update(
                i,
                !pre.dev_update_index@[i],
            ) && post.update_index@ == pre.update_index@
        }
    }
}

/// The number of runtime dependency rows of a project.
pub open spec fn dep_len(p: Project) -> int {
    match p.dep_entries() {
        Some(es) => es.len() as int,
        None => 0,
    }
}

/// The number of development dependency rows of a project.
pub open spec fn dev_len(p: Project) -> int {
    match p.dev_entries() {
        Some(es) => es.len() as int,
        None => 0,
    }
}

/// The engine: the manifest, the versions fetched so far, and the selection
/// state.
pub struct Application {
    project: Project,
    fetched_packages: VersionMap,
    state: State,
}

impl Application {
    /// The manifest held by the engine.
    pub closed spec fn spec_project(self) -> Project {
        self.project
    }

    /// The fetched name/latest-version pairs.
    pub closed spec fn spec_fetched(self) -> Seq<(Seq<char>, Seq<char>)> {
        self.fetched_packages@
    }

    /// The selection state.
    pub closed spec fn spec_state(self) -> State {
        self.state
    }

    /// The manifest is well formed, the fetched map's keys are distinct, the
    /// selection state fits, and the recorded table lengths are the
    /// manifest's.
    pub closed spec fn wf(self) -> bool {
        &&& self.project.wf()
        &&& self.fetched_packages.wf()
        &&& self.state.wf()
        &&& self.state.dependencies_len as int == dep_len(self.project)
        &&& self.state.dev_dependencies_len as int == dev_len(self.project)
    }

    /// Build the engine around a loaded manifest: table lengths from the two
    /// mappings, the runtime table active when it is non-empty (else the
    /// development table when that one is), each non-empty table's cursor on
    /// row zero, no toggles, nothing fetched.
    pub fn new(project: Project) -> (app: Application)
        requires
            project.wf(),
        ensures
            app.wf(),
            app.spec_project() == project,
            app.spec_fetched() == Seq::<(Seq<char>, Seq<char>)>::empty(),
            app.spec_state().dependencies_len as int == dep_len(project),
            app.spec_state().dev_dependencies_len as int == dev_len(project),
            app.spec_state().active_table == (if dep_len(project) > 0 {
                DependencyTable::Runtime
            } else if dev_len(project) > 0 {
                DependencyTable::Dev
            } else {
                DependencyTable::Runtime
            }),
            app.spec_state().dependencies_table_state.selected == (if dep_len(project) > 0 {
                Some(0usize)
            } else {
                None::<usize>
            }),
            app.spec_state().dev_dependencies_table_state.selected == (if dev_len(project) > 0 {
                Some(0usize)
            } else {
                None::<usize>
            }),
            forall|i: int|
                0 <= i < dep_len(project) ==> !app.spec_state().update_index@[i],
            forall|i: int|
                0 <= i < dev_len(project) ==> !app.spec_state().dev_update_index@[i],
    {
        let dependencies_len = match project.dependencies() {
            Some(es) => es.len(),
            None => 0,
        };
        let dev_dependencies_len = match project.dev_dependencies() {
            Some(es) => es.len(),
            None => 0,
        };
        let active_table = if dependencies_len != 0 {
            DependencyTable::Runtime
        } else if dev_dependencies_len != 0 {
            DependencyTable::Dev
        } else {
            DependencyTable::Runtime
        };
        let state = State {
            dependencies_len,
            dev_dependencies_len,
            active_table,
            dependencies_table_state: TableState {
                selected: if dependencies_len != 0 {
                    Some(0)
                } else {
                    None
                },
            },
            dev_dependencies_table_state: TableState {
                selected: if dev_dependencies_len != 0 {
                    Some(0)
                } else {
                    None
                },
            },
            update_index: ToggleSet::new(dependencies_len),
            dev_update_index: ToggleSet::new(dev_dependencies_len),
        };
        Application { project, fetched_packages: VersionMap::new(), state }
    }

    /// The selection state, for rendering.
    pub fn state(&self) -> (s: &State)
        ensures
            *s == self.spec_state(),
    {
        &self.state
    }

    /// The manifest, for rendering and persisting.
    pub fn project(&self) -> (p: &Project)
        ensures
            *p == self.spec_project(),
    {
        &self.project
    }

    /// The fetched versions, for rendering.
    pub fn fetched_packages(&self) -> (m: &VersionMap)
        ensures
            m@ == self.spec_fetched(),
    {
        &self.fetched_packages
    }

    /// Move the active table's cursor down one row, wrapping.
    pub fn next(&mut self)
        requires
            old(self).wf(),
        ensures
            final(self).wf(),
            final(self).spec_project() == old(self).spec_project(),
            final(self).spec_fetched() == old(self).spec_fetched(),
            final(self).spec_state() == spec_next(old(self).spec_state()),
    {
        match self.state.active_table {
            DependencyTable::Runtime => {
                if self.state.dependencies_len == 0 {
                    return ;
                }
                let i: usize = match self.state.dependencies_table_state.selected {
                    Some(i) => if i + 1 >= self.state.dependencies_len {
                        0
                    } else {
                        i + 1
                    },
                    None => 0,
                };
                self.state.dependencies_table_state.selected = Some(i);
            },
            DependencyTable::Dev => {
                if self.state.dev_dependencies_len == 0 {
                    return ;
                }
                let i: usize = match self.state.dev_dependencies_table_state.selected {
                    Some(i) => if i + 1 >= self.state.dev_dependencies_len {
                        0
                    } else {
                        i + 1
                    },
                    None => 0,
                };
                self.state.dev_dependencies_table_state.selected = Some(i);
            },
        }
    }

    /// Move the active table's cursor up one row, wrapping.
    pub fn previous(&mut self)
        requires
            old(self).wf(),
        ensures
            final(self).wf(),
            final(self).spec_project() == old(self).spec_project(),
            final(self).spec_fetched() == old(self).spec_fetched(),
            final(self).spec_state() == spec_previous(old(self).spec_state()),
    {
        match self.state.active_table {
            DependencyTable::Runtime => {
                if self.state.dependencies_len == 0 {
                    return ;
                }
                let i: usize = match self.state.dependencies_table_state.selected {
                    Some(i) => if i == 0 {
                        self.state.dependencies_len - 1
                    } else {
                        i - 1
                    },
                    None => 0,
                };
                self.state.dependencies_table_state.selected = Some(i);
            },
            DependencyTable::Dev => {
                if self.state.dev_dependencies_len == 0 {
                    return ;
                }
                let i: usize = match self.state.dev_dependencies_table_state.selected {
                    Some(i) => if i == 0 {
                        self.state.dev_dependencies_len - 1
                    } else {
                        i - 1
                    },
                    None => 0,
                };
                self.state.dev_dependencies_table_state.selected = Some(i);
            },
        }
    }

    /// Flip which table is active; a no-op unless both are non-empty.
    pub fn switch_table(&mut self)
        requires
            old(self).wf(),
        ensures
            final(self).wf(),
            final(self).spec_project() == old(self).spec_project(),
            final(self).spec_fetched() == old(self).spec_fetched(),
            final(self).spec_state() == spec_switch(old(self).spec_state()),
    {
        if self.state.dependencies_len == 0 || self.state.dev_dependencies_len == 0 {
            return ;
        }
        match self.state.active_table {
            DependencyTable::Runtime => {
                self.state.active_table = DependencyTable::Dev;
            },
            DependencyTable::Dev => {
                self.state.active_table = DependencyTable::Runtime;
            },
        }
    }

    /// Flip the toggle under the active table's cursor; a no-op when the
    /// active table is empty.
    pub fn toggle_update(&mut self)
        requires
            old(self).wf(),
        ensures
            final(self).wf(),
            final(self).spec_project() == old(self).spec_project(),
            final(self).spec_fetched() == old(self).spec_fetched(),
            spec_toggled(old(self).spec_state(), final(self).spec_state()),
    {
        match self.state.active_table {
            DependencyTable::Runtime => {
                match self.state.dependencies_table_state.selected {
                    Some(i) => self.state.update_index.flip(i),
                    None => {},
                }
            },
            DependencyTable::Dev => {
                match self.state.dev_dependencies_table_state.selected {
                    Some(i) => self.state.dev_update_index.flip(i),
                    None => {},
                }
            },
        }
    }
}


/// The range prefix recorded on a version string: its first character when
/// that is a caret or a tilde.
pub open spec fn prefix_of(v: Seq<char>) -> Option<char> {
    if v.len() > 0 && (v[0] == '^' || v[0] == '~') {
        Some(v[0])
    } else {
        None
    }
}

/// The value an entry is rewritten to: its recorded range prefix put in
/// front of the fetched latest version of its package.
pub open spec fn newval(entry: (Seq<char>, Seq<char>), f: Seq<(Seq<char>, Seq<char>)>) -> Seq<
    char,
> {
    compose_version(prefix_of(entry.1), lookup_val(f, entry.0).unwrap())
}

/// The runtime table after its first `upto` rows were applied: each toggled
/// row rewritten, the rest untouched.
pub open spec fn run_pass_view(
    es: Seq<(Seq<char>, Seq<char>)>,
    t: Seq<bool>,
    f: Seq<(Seq<char>, Seq<char>)>,
    upto: int,
) -> Seq<(Seq<char>, Seq<char>)> {
    Seq::new(
        es.len(),
        |k: int|
            if k < upto && t[k] {
                (es[k].0, newval(es[k], f))
            } else {
                es[k]
            },
    )
}

/// Some toggled development row among the first `upto` has key `key`.
pub open spec fn dev_hit(
    v0: Seq<(Seq<char>, Seq<char>)>,
    t: Seq<bool>,
    upto: int,
    key: Seq<char>,
) -> bool {
    exists|j: int| 0 <= j < upto && t[j] && v0[j].0 == key
}

/// The value that toggled development row writes for `key`.
pub open spec fn dev_hit_val(
    v0: Seq<(Seq<char>, Seq<char>)>,
    t: Seq<bool>,
    upto: int,
    key: Seq<char>,
    f: Seq<(Seq<char>, Seq<char>)>,
) -> Seq<char> {
    let j = choose|j: int| 0 <= j < upto && t[j] && v0[j].0 == key;
    newval(v0[j], f)
}

/// The runtime table after the first `upto` development rows were applied: a
/// development row whose package name shadows a runtime key rewrites the
/// runtime entry instead of its own.
pub open spec fn dev_pass_dep_view(
    ds: Seq<(Seq<char>, Seq<char>)>,
    v0: Seq<(Seq<char>, Seq<char>)>,
    t: Seq<bool>,
    f: Seq<(Seq<char>, Seq<char>)>,
    upto: int,
) -> Seq<(Seq<char>, Seq<char>)> {
    Seq::new(
        ds.len(),
        |k: int|
            if dev_hit(v0, t, upto, ds[k].0) {
                (ds[k].0, dev_hit_val(v0, t, upto, ds[k].0, f))
            } else {
                ds[k]
            },
    )
}

/// The development table after its first `upto` rows were applied: a toggled
/// row is rewritten only when its name does not shadow a runtime key.
pub open spec fn dev_pass_dev_view(
    dkeys: Seq<(Seq<char>, Seq<char>)>,
    v0: Seq<(Seq<char>, Seq<char>)>,
    t: Seq<bool>,
    f: Seq<(Seq<char>, Seq<char>)>,
    upto: int,
) -> Seq<(Seq<char>, Seq<char>)> {
    Seq::new(
        v0.len(),
        |j: int|
            if 0 <= j < upto && t[j] && !has_pkey(dkeys, v0[j].0) {
                (v0[j].0, newval(v0[j], f))
            } else {
                v0[j]
            },
    )
}

/// Extending the processed prefix past a row that does not write `key`
/// changes nothing about `key`.
proof fn lemma_dev_hit_step(
    v0: Seq<(Seq<char>, Seq<char>)>,
    td: Seq<bool>,
    f: Seq<(Seq<char>, Seq<char>)>,
    j: int,
    key: Seq<char>,
)
    requires
        distinct_keys(v0),
        0 <= j < v0.len(),
        !(td[j] && v0[j].0 == key),
    ensures
        dev_hit(v0, td, j + 1, key) == dev_hit(v0, td, j, key),
        dev_hit(v0, td, j, key) ==> dev_hit_val(v0, td, j + 1, key, f) == dev_hit_val(
            v0,
            td,
            j,
            key,
            f,
        ),
{
    if dev_hit(v0, td, j + 1, key) {
        let j1 = choose|j1: int| 0 <= j1 < j + 1 && td[j1] && v0[j1].0 == key;
        assert(j1 != j);
        assert(dev_hit(v0, td, j, key));
    }
    if dev_hit(v0, td, j, key) {
        let a = choose|a: int| 0 <= a < j && td[a] && v0[a].0 == key;
        assert(0 <= a < j + 1 && td[a] && v0[a].0 == key);
        assert(dev_hit(v0, td, j + 1, key));
        assert(dev_hit_val(v0, td, j, key, f) == newval(v0[a], f)) by {
            let c = choose|c: int| 0 <= c < j && td[c] && v0[c].0 == key;
            if c != a {
                assert(v0[c].0 != v0[a].0);
            }
        }
        assert(dev_hit_val(v0, td, j + 1, key, f) == newval(v0[a], f)) by {
            let c = choose|c: int| 0 <= c < j + 1 && td[c] && v0[c].0 == key;
            if c != a {
                assert(v0[c].0 != v0[a].0);
            }
        }
    }
}

/// A toggled row `j` writes its own key, and what it writes.
proof fn lemma_dev_hit_new(
    v0: Seq<(Seq<char>, Seq<char>)>,
    td: Seq<bool>,
    f: Seq<(Seq<char>, Seq<char>)>,
    j: int,
)
    requires
        distinct_keys(v0),
        0 <= j < v0.len(),
        td[j],
    ensures
        dev_hit(v0, td, j + 1, v0[j].0),
        dev_hit_val(v0, td, j + 1, v0[j].0, f) == newval(v0[j], f),
{
    assert(0 <= j < j + 1 && td[j] && v0[j].0 == v0[j].0);
    assert(dev_hit(v0, td, j + 1, v0[j].0));
    let c = choose|c: int| 0 <= c < j + 1 && td[c] && v0[c].0 == v0[j].0;
    if c != j {
        assert(v0[c].0 != v0[j].0);
    }
}

/// `has_pkey` only looks at keys.
proof fn lemma_has_pkey_same_keys(
    a: Seq<(Seq<char>, Seq<char>)>,
    b: Seq<(Seq<char>, Seq<char>)>,
    k: Seq<char>,
)
    requires
        a.len() == b.len(),
        forall|i: int| 0 <= i < a.len() ==> (#[trigger] a[i]).0 == b[i].0,
    ensures
        has_pkey(a, k) == has_pkey(b, k),
{
    if has_pkey(a, k) {
        let i = choose|i: int| 0 <= i < a.len() && a[i].0 == k;
        assert(b[i].0 == k);
    }
    if has_pkey(b, k) {
        let i = choose|i: int| 0 <= i < b.len() && b[i].0 == k;
        assert(a[i].0 == k);
    }
}

/// The range prefix of a version string: its first character when that is a
/// caret or a tilde, else none.
pub fn range_prefix_of(v: &String) -> (r: Option<char>)
    ensures
        r == prefix_of(v@),
        r matches Some(c) ==> c == '^' || c == '~',
{
    let s = v.as_str();
    if s.unicode_len() > 0 {
        let c = s.get_char(0);
        if c == '^' || c == '~' {
            Some(c)
        } else {
            None
        }
    } else {
        None
    }
}

/// An owned copy of an entry list.
fn copy_entries(es: &Vec<(String, String)>) -> (r: Vec<(String, String)>)
    ensures
        pairs_view(r@) == pairs_view(es@),
{
    let mut out: Vec<(String, String)> = Vec::new();
    let mut i: usize = 0;
    while i < es.len()
        invariant
            i <= es@.len(),
            out@.len() == i,
            forall|j: int|
                0 <= j < i ==> (#[trigger] out@[j]).0@ == es@[j].0@ && out@[j].1@ == es@[j].1@,
        decreases es@.len() - i,
    {
        let k = es[i].0.clone();
        let v = es[i].1.clone();
        out.push((k, v));
        i = i + 1;
    }
    proof {
        assert(pairs_view(out@) =~= pairs_view(es@));
    }
    out
}


impl Application {
    /// Every toggled row's package already has a fetched latest version.
    pub closed spec fn toggles_fetched(self) -> bool {
        &&& match self.project.dep_entries() {
            Some(d0) => forall|i: int|
                0 <= i < d0.len() && i < self.state.update_index@.len()
                    && self.state.update_index@[i] ==> lookup_val(
                    self.fetched_packages@,
                    (#[trigger] d0[i]).0,
                ) is Some,
            None => true,
        }
        &&& match self.project.dev_entries() {
            Some(v0) => forall|j: int|
                0 <= j < v0.len() && j < self.state.dev_update_index@.len()
                    && self.state.dev_update_index@[j] ==> lookup_val(
                    self.fetched_packages@,
                    (#[trigger] v0[j]).0,
                ) is Some,
            None => true,
        }
    }

    /// How `update_package_json` relates the manifest after the call to the
    /// one before: the runtime pass rewrites every toggled runtime row, then
    /// the development pass rewrites every toggled development row — into the
    /// runtime entry instead when the package name appears there too.  Every
    /// document field outside the two sections is untouched.
    pub closed spec fn spec_applied(pre: Application, post: Application) -> bool {
        let f = pre.fetched_packages@;
        let tr = pre.state.update_index@;
        let td = pre.state.dev_update_index@;
        &&& match pre.project.dep_entries() {
            Some(d0) => {
                let after_run = run_pass_view(d0, tr, f, d0.len() as int);
                match pre.project.dev_entries() {
                    Some(v0) => post.project.dep_entries() == Some(
                        dev_pass_dep_view(after_run, v0, td, f, v0.len() as int),
                    ) && post.project.dev_entries() == Some(
                        dev_pass_dev_view(d0, v0, td, f, v0.len() as int),
                    ),
                    None => post.project.dep_entries() == Some(after_run)
                        && post.project.dev_entries() is None,
                }
            },
            None => {
                &&& post.project.dep_entries() is None
                &&& match pre.project.dev_entries() {
                    Some(v0) => post.project.dev_entries() == Some(
                        dev_pass_dev_view(
                            Seq::<(Seq<char>, Seq<char>)>::empty(),
                            v0,
                            td,
                            f,
                            v0.len() as int,
                        ),
                    ),
                    None => post.project.dev_entries() is None,
                }
            },
        }
        &&& sections_frame(pre.project.doc(), post.project.doc())
    }

    /// Apply every toggled row to the manifest in memory: the recorded range
    /// prefix of each current value is kept, the fetched latest version put
    /// behind it.  The selection state, the toggle sets, and the fetched map
    /// are untouched; the caller persists the manifest afterwards.
    #[verifier::loop_isolation(false)]
    pub fn update_package_json(&mut self)
        requires
            old(self).wf(),
            old(self).toggles_fetched(),
        ensures
            final(self).wf(),
            final(self).spec_state() == old(self).spec_state(),
            final(self).spec_fetched() == old(self).spec_fetched(),
            Self::spec_applied(*old(self), *final(self)),
    {
        let ghost f = self.fetched_packages@;
        let ghost tr = self.state.update_index@;
        let ghost td = self.state.dev_update_index@;
        let any_r = self.state.update_index.any();
        let any_d = self.state.dev_update_index.any();
        if !any_r && !any_d {
            proof {
                if self.project.dep_entries() is Some {
                    let d0 = self.project.dep_entries().unwrap();
                    assert(run_pass_view(d0, tr, f, d0.len() as int) =~= d0);
                    if self.project.dev_entries() is Some {
                        let v0 = self.project.dev_entries().unwrap();
                        assert(dev_pass_dep_view(d0, v0, td, f, v0.len() as int) =~= d0);
                        assert(dev_pass_dev_view(d0, v0, td, f, v0.len() as int) =~= v0);
                    }
                } else if self.project.dev_entries() is Some {
                    let v0 = self.project.dev_entries().unwrap();
                    assert(dev_pass_dev_view(
                        Seq::<(Seq<char>, Seq<char>)>::empty(),
                        v0,
                        td,
                        f,
                        v0.len() as int,
                    ) =~= v0);
                }
            }
            return ;
        }
        let (deps_snap, has_deps): (Vec<(String, String)>, bool) = match self.project
            .dependencies() {
            Some(es) => (copy_entries(es), true),
            None => (Vec::new(), false),
        };
        let (dev_snap, has_dev): (Vec<(String, String)>, bool) = match self.project
            .dev_dependencies() {
            Some(es) => (copy_entries(es), true),
            None => (Vec::new(), false),
        };
        let ghost d0 = pairs_view(deps_snap@);
        let ghost v0 = pairs_view(dev_snap@);
        proof {
            assert(d0.len() == 0 || has_deps);
            if !has_deps {
                assert(d0 =~= Seq::<(Seq<char>, Seq<char>)>::empty());
            }
            if !has_dev {
                assert(v0 =~= Seq::<(Seq<char>, Seq<char>)>::empty());
            }
            assert(has_deps ==> self.project.dep_entries() == Some(d0));
            assert(has_dev ==> self.project.dev_entries() == Some(v0));
        }
        let mut i: usize = 0;
        while i < deps_snap.len()
            invariant
                i <= deps_snap.len(),
                self.project.wf(),
                self.state == old(self).state,
                self.fetched_packages == old(self).fetched_packages,
                self.project.dev_entries() == old(self).project.dev_entries(),
                has_deps ==> self.project.dep_entries() == Some(
                    run_pass_view(d0, tr, f, i as int),
                ),
                !has_deps ==> self.project.dep_entries() is None,
                sections_frame(old(self).project.doc(), self.project.doc()),
            decreases deps_snap.len() - i,
        {
            let toggled = self.state.update_index.contains(i);
            if toggled {
                let nm = deps_snap[i].0.clone();
                let ver = deps_snap[i].1.clone();
                let prefix = range_prefix_of(&ver);
                let latest: String = match self.fetched_packages.get(&nm) {
                    Some(lv) => lv.clone(),
                    None => {
                        proof {
                            assert(lookup_val(f, d0[i as int].0) is Some);
                            assert(false);
                        }
                        vstd::pervasive::unreached()
                    },
                };
                let ghost pre_proj = self.project;
                let ghost cur = run_pass_view(d0, tr, f, i as int);
                proof {
                    crate::project::lemma_wf_entries(self.project);
                    assert(distinct_keys(cur));
                    assert forall|k: int| 0 <= k < cur.len() implies (#[trigger] cur[k]).0
                        == d0[k].0 by {}
                    crate::entries::lemma_distinct_same_keys(cur, d0);
                    assert(cur[i as int].0 == d0[i as int].0);
                    assert(has_pkey(cur, nm@));
                }
                self.project.update_dependency_version(nm.as_str(), &latest, prefix);
                proof {
                    let nv = compose_version(prefix_of(ver@), latest@);
                    assert(self.project.dep_entries() == Some(replace_val(cur, nm@, nv)));
                    assert(distinct_keys(cur));
                    assert(nv == newval(d0[i as int], f));
                    assert(replace_val(cur, nm@, nv) =~= run_pass_view(d0, tr, f, i as int + 1))
                        by {
                        assert(forall|k: int|
                            0 <= k < d0.len() && k != i ==> (#[trigger] cur[k]).0 != nm@);
                    }
                }
            } else {
                proof {
                    if has_deps {
                        assert(run_pass_view(d0, tr, f, i as int) =~= run_pass_view(
                            d0,
                            tr,
                            f,
                            i as int + 1,
                        ));
                    }
                }
            }
            i = i + 1;
        }
        let ghost after_run = if has_deps {
            run_pass_view(d0, tr, f, d0.len() as int)
        } else {
            Seq::<(Seq<char>, Seq<char>)>::empty()
        };
        proof {
            if has_deps {
                assert(self.project.dep_entries() == Some(after_run));
            }
        }
        let mut j: usize = 0;
        while j < dev_snap.len()
            invariant
                j <= dev_snap.len(),
                self.project.wf(),
                self.state == old(self).state,
                self.fetched_packages == old(self).fetched_packages,
                has_deps ==> self.project.dep_entries() == Some(
                    dev_pass_dep_view(after_run, v0, td, f, j as int),
                ),
                !has_deps ==> self.project.dep_entries() is None,
                has_dev ==> self.project.dev_entries() == Some(
                    dev_pass_dev_view(d0, v0, td, f, j as int),
                ),
                !has_dev ==> self.project.dev_entries() is None,
                sections_frame(old(self).project.doc(), self.project.doc()),
            decreases dev_snap.len() - j,
        {
            proof {
                if has_deps && j == 0 {
                    assert(dev_pass_dep_view(after_run, v0, td, f, 0) =~= after_run);
                }
                if has_dev && j == 0 {
                    assert(dev_pass_dev_view(d0, v0, td, f, 0) =~= v0);
                }
            }
            let toggled = self.state.dev_update_index.contains(j);
            if toggled {
                let nm = dev_snap[j].0.clone();
                let ver = dev_snap[j].1.clone();
                let prefix = range_prefix_of(&ver);
                let latest: String = match self.fetched_packages.get(&nm) {
                    Some(lv) => lv.clone(),
                    None => {
                        proof {
                            assert(lookup_val(f, v0[j as int].0) is Some);
                            assert(false);
                        }
                        vstd::pervasive::unreached()
                    },
                };
                let ghost pre_proj = self.project;
                let ghost cur_dep = dev_pass_dep_view(after_run, v0, td, f, j as int);
                let ghost cur_dev = dev_pass_dev_view(d0, v0, td, f, j as int);
                proof {
                    crate::project::lemma_wf_entries(pre_proj);
                    if has_dev {
                        assert(distinct_keys(cur_dev));
                        assert forall|k: int| 0 <= k < cur_dev.len() implies (
                        #[trigger] cur_dev[k]).0 == v0[k].0 by {}
                        crate::entries::lemma_distinct_same_keys(cur_dev, v0);
                    } else {
                        assert(v0.len() == 0);
                        assert(distinct_keys(v0));
                    }
                    if has_deps {
                        assert(self.project.dep_entries() == Some(cur_dep));
                        assert(distinct_keys(cur_dep));
                        assert forall|k: int| 0 <= k < cur_dep.len() implies (
                        #[trigger] cur_dep[k]).0 == d0[k].0 by {}
                        crate::entries::lemma_distinct_same_keys(cur_dep, d0);
                    } else {
                        assert(d0.len() == 0);
                        assert(distinct_keys(d0));
                    }
                    if has_deps {
                        assert(forall|k: int|
                            0 <= k < after_run.len() ==> (#[trigger] after_run[k]).0 == d0[k].0);
                        assert(forall|k: int|
                            0 <= k < cur_dep.len() ==> (#[trigger] cur_dep[k]).0 == d0[k].0);
                        lemma_has_pkey_same_keys(cur_dep, d0, nm@);
                    }
                    assert(forall|k: int|
                        0 <= k < cur_dev.len() ==> (#[trigger] cur_dev[k]).0 == v0[k].0);
                }
                self.project.update_dependency_version(nm.as_str(), &latest, prefix);
                proof {
                    let nv = compose_version(prefix_of(ver@), latest@);
                    assert(nv == newval(v0[j as int], f));
                    if has_deps && has_pkey(d0, nm@) {
                        // shadowed: the runtime entry took the write
                        assert(self.project.dep_entries() == Some(replace_val(cur_dep, nm@, nv)));
                        assert(self.project.dev_entries() == pre_proj.dev_entries());
                        assert(replace_val(cur_dep, nm@, nv) =~= dev_pass_dep_view(
                            after_run,
                            v0,
                            td,
                            f,
                            j as int + 1,
                        )) by {
                            lemma_dev_hit_new(v0, td, f, j as int);
                            assert forall|k: int| 0 <= k < cur_dep.len() implies replace_val(
                                cur_dep,
                                nm@,
                                nv,
                            )[k] == dev_pass_dep_view(after_run, v0, td, f, j as int + 1)[k] by {
                                if cur_dep[k].0 != nm@ {
                                    lemma_dev_hit_step(v0, td, f, j as int, after_run[k].0);
                                }
                            }
                        }
                        assert(dev_pass_dev_view(d0, v0, td, f, j as int) =~= dev_pass_dev_view(
                            d0,
                            v0,
                            td,
                            f,
                            j as int + 1,
                        ));
                    } else {
                        // the write lands in the development section itself
                        if has_deps {
                            assert(!has_pkey(cur_dep, nm@));
                        }
                        assert(has_pkey(cur_dev, nm@)) by {
                            assert(cur_dev[j as int].0 == v0[j as int].0);
                        }
                        assert(self.project.dev_entries() == Some(replace_val(cur_dev, nm@, nv)));
                        assert(self.project.dep_entries() == pre_proj.dep_entries());
                        assert(replace_val(cur_dev, nm@, nv) =~= dev_pass_dev_view(
                            d0,
                            v0,
                            td,
                            f,
                            j as int + 1,
                        )) by {
                            assert(forall|k: int|
                                0 <= k < v0.len() && k != j ==> (#[trigger] cur_dev[k]).0 != nm@);
                        }
                        if has_deps {
                            assert(dev_pass_dep_view(after_run, v0, td, f, j as int)
                                =~= dev_pass_dep_view(after_run, v0, td, f, j as int + 1)) by {
                                assert forall|k: int| 0 <= k < after_run.len() implies
                                    dev_pass_dep_view(after_run, v0, td, f, j as int)[k]
                                    == dev_pass_dep_view(after_run, v0, td, f, j as int + 1)[k] by {
                                    lemma_dev_hit_step(v0, td, f, j as int, after_run[k].0);
                                }
                            }
                        }
                    }
                }
            } else {
                proof {
                    crate::project::lemma_wf_entries(self.project);
                    if has_dev {
                        let cur_dev = dev_pass_dev_view(d0, v0, td, f, j as int);
                        assert(distinct_keys(cur_dev));
                        assert forall|k: int| 0 <= k < cur_dev.len() implies (
                        #[trigger] cur_dev[k]).0 == v0[k].0 by {}
                        crate::entries::lemma_distinct_same_keys(cur_dev, v0);
                        assert(dev_pass_dev_view(d0, v0, td, f, j as int) =~= dev_pass_dev_view(
                            d0,
                            v0,
                            td,
                            f,
                            j as int + 1,
                        ));
                    } else {
                        assert(v0.len() == 0);
                        assert(distinct_keys(v0));
                    }
                    if has_deps {
                        assert(dev_pass_dep_view(after_run, v0, td, f, j as int)
                            =~= dev_pass_dep_view(after_run, v0, td, f, j as int + 1)) by {
                            assert forall|k: int| 0 <= k < after_run.len() implies dev_pass_dep_view(
                                after_run,
                                v0,
                                td,
                                f,
                                j as int,
                            )[k] == dev_pass_dep_view(after_run, v0, td, f, j as int + 1)[k] by {
                                lemma_dev_hit_step(v0, td, f, j as int, after_run[k].0);
                            }
                        }
                    }
                }
            }
            j = j + 1;
        }
        proof {
            if has_deps && !has_dev {
                assert(dev_pass_dep_view(after_run, v0, td, f, 0) =~= after_run);
            }
            if has_dev && dev_snap@.len() == 0 {
                assert(dev_pass_dev_view(d0, v0, td, f, 0) =~= v0);
            }
        }
    }
}


/// A typed key press, as the control loop receives it.
#[derive(Clone, Copy, PartialEq, Eq, Structural, Debug)]
pub enum InputKey {
    Down,
    Up,
    Tab,
    BackTab,
    Enter,
    Space,
    LowerU,
    Esc,
    LowerQ,
    UpperQ,
    Other,
}

/// What the input producer sends: a key press, or a pacing tick.
#[derive(Clone, Copy, PartialEq, Eq, Structural, Debug)]
pub enum ApplicationEvent {
    Input(InputKey),
    Tick,
}

/// What the control loop should do after one dispatch.
#[derive(Clone, Copy, PartialEq, Eq, Structural, Debug)]
pub enum Action {
    Continue,
    PersistManifest,
    Quit,
}

impl Application {
    /// Dispatch one event of the control loop: arrows move the cursor, tab
    /// switches tables, enter and space toggle, `u` applies the toggled
    /// updates (the manifest must then be persisted), escape and `q` quit,
    /// a tick and any other key change nothing.
    pub fn dispatch(&mut self, event: ApplicationEvent) -> (a: Action)
        requires
            old(self).wf(),
            event == ApplicationEvent::Input(InputKey::LowerU) ==> old(self).toggles_fetched(),
        ensures
            final(self).wf(),
            match event {
                ApplicationEvent::Tick => a == Action::Continue && *final(self) == *old(self),
                ApplicationEvent::Input(k) => match k {
                    InputKey::Down => a == Action::Continue && final(self).spec_project() == old(self).spec_project() && final(self).spec_fetched() == old(self).spec_fetched()
                        && final(self).spec_state() == spec_next(old(self).spec_state()),
                    InputKey::Up => a == Action::Continue && final(self).spec_project() == old(self).spec_project() && final(self).spec_fetched() == old(self).spec_fetched()
                        && final(self).spec_state() == spec_previous(old(self).spec_state()),
                    InputKey::Tab | InputKey::BackTab => a == Action::Continue && final(self).spec_project() == old(self).spec_project() && final(self).spec_fetched()
                        == old(self).spec_fetched() && final(self).spec_state() == spec_switch(
                        old(self).spec_state(),
                    ),
                    InputKey::Enter | InputKey::Space => a == Action::Continue && final(self).spec_project() == old(self).spec_project() && final(self).spec_fetched()
                        == old(self).spec_fetched() && spec_toggled(
                        old(self).spec_state(),
                        final(self).spec_state(),
                    ),
                    InputKey::LowerU => final(self).spec_state() == old(self).spec_state()
                        && final(self).spec_fetched() == old(self).spec_fetched()
                        && Self::spec_applied(*old(self), *final(self)) && a == (if any_toggled(
                        old(self).spec_state().update_index@,
                    ) || any_toggled(old(self).spec_state().dev_update_index@) {
                        Action::PersistManifest
                    } else {
                        Action::Continue
                    }),
                    InputKey::Esc | InputKey::LowerQ | InputKey::UpperQ => a == Action::Quit
                        && *final(self) == *old(self),
                    InputKey::Other => a == Action::Continue && *final(self) == *old(self),
                },
            },
    {
        match event {
            ApplicationEvent::Tick => Action::Continue,
            ApplicationEvent::Input(k) => match k {
                InputKey::Down => {
                    self.next();
                    Action::Continue
                },
                InputKey::Up => {
                    self.previous();
                    Action::Continue
                },
                InputKey::Tab | InputKey::BackTab => {
                    self.switch_table();
                    Action::Continue
                },
                InputKey::Enter | InputKey::Space => {
                    self.toggle_update();
                    Action::Continue
                },
                InputKey::LowerU => {
                    let any_r = self.state.update_index.any();
                    let any_d = self.state.dev_update_index.any();
                    self.update_package_json();
                    if any_r || any_d {
                        Action::PersistManifest
                    } else {
                        Action::Continue
                    }
                },
                InputKey::Esc | InputKey::LowerQ | InputKey::UpperQ => Action::Quit,
                InputKey::Other => Action::Continue,
            },
        }
    }

    /// Merge one completed fetch into the fetched map.  A failed fetch is
    /// dropped: its package simply never gets a recorded latest version, and
    /// nothing else is disturbed.
    pub fn absorb_fetch(&mut self, result: Result<Metadata, FetchError>)
        requires
            old(self).wf(),
        ensures
            final(self).wf(),
            final(self).spec_project() == old(self).spec_project(),
            final(self).spec_state() == old(self).spec_state(),
            match result {
                Ok(m) => final(self).spec_fetched() == (if has_pkey(
                    old(self).spec_fetched(),
                    m.name@,
                ) {
                    replace_val(old(self).spec_fetched(), m.name@, m.dist_tags.latest@)
                } else {
                    old(self).spec_fetched().push((m.name@, m.dist_tags.latest@))
                }),
                Err(_) => *final(self) == *old(self),
            },
    {
        match result {
            Ok(m) => {
                self.fetched_packages.insert(m.name, m.dist_tags.latest);
            },
            Err(_) => {},
        }
    }
}

} // verus!
