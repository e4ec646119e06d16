//! The process locator: which of the live processes is the bottle's init,
//! and what its process id says about the bottle.

use vstd::prelude::*;

verus! {

/// One process of the process table, as far as the locator reads it.
#[derive(Clone, Debug, PartialEq, Eq)]
pub struct ProcessEntry {
    /// The process id.
    pub pid: i32,
    /// The user id that owns the process.
    pub uid: u32,
    /// When the process started, in seconds since the epoch.
    pub start_time: u64,
    /// The name of the program.
    pub name: String,
}

/// A [`ProcessEntry`] with its name as a sequence of characters.
pub struct ProcessModel {
    pub pid: i32,
    pub uid: u32,
    pub start_time: u64,
    pub name: Seq<char>,
}

impl View for ProcessEntry {
    type V = ProcessModel;

    open spec fn view(&self) -> ProcessModel {
        ProcessModel {
            pid: self.pid,
            uid: self.uid,
            start_time: self.start_time,
            name: self.name@,
        }
    }
}

/// What a process table holds, each entry by its view.
pub open spec fn table(v: Seq<ProcessEntry>) -> Seq<ProcessModel> {
    v.map_values(|p: ProcessEntry| p@)
}

/// The name of the init program.
pub open spec fn init_name() -> Seq<char> {
    "systemd"@
}

/// The name of the init program, as the process table shows it.
pub fn init_program() -> (name: &'static str)
    ensures
        name@ == init_name(),
{
    "systemd"
}

/// Whether `p` may be the bottle's init: it is named exactly as the init
/// program and is owned by root.
pub open spec fn is_init(p: ProcessModel) -> bool {
    p.name == init_name() && p.uid == 0
}

/// Whether the entry at `k` is the one that the locator picks: it may be
/// the init, none that may be started earlier, and of those that started
/// at the same time it stands first in the table.
pub open spec fn is_located(ps: Seq<ProcessModel>, k: int) -> bool {
    &&& 0 <= k < ps.len()
    &&& is_init(ps[k])
    &&& forall|j: int|
        0 <= j < ps.len() && is_init(#[trigger] ps[j]) ==> ps[k].start_time <= ps[j].start_time
    &&& forall|j: int|
        0 <= j < k && is_init(#[trigger] ps[j]) ==> ps[k].start_time < ps[j].start_time
}

/// The process id of the bottle's init in the table `ps`; 0 if the table
/// holds no process that may be it.
pub open spec fn located_pid(ps: Seq<ProcessModel>) -> int {
    if exists|k: int| is_located(ps, k) {
        ps[choose|k: int| is_located(ps, k)].pid as int
    } else {
        0
    }
}

/// At most one entry is picked.
pub proof fn lemma_located_once(ps: Seq<ProcessModel>, a: int, b: int)
    requires
        is_located(ps, a),
        is_located(ps, b),
    ensures
        a == b,
{
}

/// Finds the bottle's init in the process table: of the processes that are
/// named exactly as the init program and owned by root, the one that
/// started first, and of several that started together the one that comes
/// first in `procs`. Returns its process id, or 0 if there is none.
pub fn locate_init(procs: &Vec<ProcessEntry>) -> (pid: i32)
    ensures
        pid == located_pid(table(procs@)),
        (forall|j: int| 0 <= j < procs@.len() ==> !is_init(#[trigger] table(procs@)[j])) ==> pid
            == 0,
{
    let ghost ps = table(procs@);
    let wanted = init_program().to_owned();
    let mut best: Option<usize> = None;
    let mut i: usize = 0;
    while i < procs.len()
        invariant
            i <= procs.len(),
            ps == table(procs@),
            wanted@ == init_name(),
            match best {
                Some(k) => is_located(ps.take(i as int), k as int),
                None => forall|j: int| 0 <= j < i ==> !is_init(#[trigger] ps[j]),
            },
        decreases procs.len() - i,
    {
        let ghost seen = ps.take(i as int);
        let ghost next = ps.take(i + 1);
        assert(ps[i as int] == procs@[i as int]@);
        assert(forall|j: int| 0 <= j < i ==> next[j] == seen[j]);
        assert(next[i as int] == ps[i as int]);
        let entry = &procs[i];
        if entry.uid == 0 && entry.name == wanted {
            match best {
                Some(k) => {
                    if entry.start_time < procs[k].start_time {
                        assert(seen[k as int] == ps[k as int]);
                        best = Some(i);
                        assert(is_located(next, i as int)) by {
                            assert forall|j: int|
                                0 <= j < next.len() && is_init(
                                    #[trigger] next[j],
                                ) implies next[i as int].start_time <= next[j].start_time by {
                                if j < i {
                                    assert(is_init(seen[j]));
                                }
                            }
                            assert forall|j: int|
                                0 <= j < i && is_init(
                                    #[trigger] next[j],
                                ) implies next[i as int].start_time < next[j].start_time by {
                                assert(is_init(seen[j]));
                            }
                        }
                    } else {
                        assert(seen[k as int] == ps[k as int]);
                        assert(is_located(next, k as int)) by {
                            assert forall|j: int|
                                0 <= j < next.len() && is_init(
                                    #[trigger] next[j],
                                ) implies next[k as int].start_time <= next[j].start_time by {
                                if j < i {
                                    assert(is_init(seen[j]));
                                }
                            }
                            assert forall|j: int|
                                0 <= j < k && is_init(
                                    #[trigger] next[j],
                                ) implies next[k as int].start_time < next[j].start_time by {
                                assert(is_init(seen[j]));
                            }
                        }
                    }
                },
                None => {
                    best = Some(i);
                    assert(is_located(next, i as int));
                },
            }
        } else {
            match best {
                Some(k) => {
                    assert(seen[k as int] == ps[k as int]);
                    assert(is_located(next, k as int)) by {
                        assert forall|j: int|
                            0 <= j < next.len() && is_init(
                                #[trigger] next[j],
                            ) implies next[k as int].start_time <= next[j].start_time by {
                            assert(is_init(seen[j]));
                        }
                        assert forall|j: int|
                            0 <= j < k && is_init(
                                #[trigger] next[j],
                            ) implies next[k as int].start_time < next[j].start_time by {
                            assert(is_init(seen[j]));
                        }
                    }
                },
                None => {},
            }
        }
        i = i + 1;
    }
    assert(ps.take(procs.len() as int) == ps);
    match best {
        Some(k) => {
            proof {
                let c = choose|c: int| is_located(ps, c);
                lemma_located_once(ps, k as int, c);
            }
            assert(ps[k as int] == procs@[k as int]@);
            procs[k].pid
        },
        None => {
            assert(forall|c: int| !is_located(ps, c));
            0
        },
    }
}

/// Where the caller stands with respect to the bottle.
#[derive(Clone, Copy, Debug, PartialEq, Eq, Structural)]
pub enum BottleState {
    /// No init process was found: there is no bottle.
    Absent,
    /// A bottle exists and the caller is outside of it.
    ExistsOutside,
    /// The init process is the root of the caller's own process
    /// namespace: the caller is inside the bottle.
    ExistsInside,
}

/// The state that the located process id stands for: 0 for no bottle, 1 for
/// a caller inside the bottle, anything else for a bottle seen from outside.
pub open spec fn state_of(pid: int) -> BottleState {
    if pid == 0 {
        BottleState::Absent
    } else if pid == 1 {
        BottleState::ExistsInside
    } else {
        BottleState::ExistsOutside
    }
}

/// Classifies the bottle from the process id of the located init.
pub fn classify(pid: i32) -> (s: BottleState)
    ensures
        s == state_of(pid as int),
{
    if pid == 0 {
        BottleState::Absent
    } else if pid == 1 {
        BottleState::ExistsInside
    } else {
        BottleState::ExistsOutside
    }
}

} // verus!
