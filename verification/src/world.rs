//! A model of the host that the controller works on, and of a driver that
//! performs every action on it as asked. The model serves to state what a
//! whole operation does to the host.

use crate::machine::{initial_model, step_model, ControllerModel, RequestModel};
use crate::protocol::{ActionModel, EventModel, HostFile, Job};
use vstd::prelude::*;

verus! {

/// The state of a host.
pub struct HostModel {
    /// What each file that is there holds on disk.
    pub files: Map<HostFile, Seq<char>>,
    /// Which file has another bound over it, and which.
    pub bound: Map<HostFile, HostFile>,
    /// How often each file was written.
    pub writes: Map<HostFile, nat>,
    /// The variables of the caller's environment.
    pub env: Map<Seq<char>, Seq<char>>,
    /// Whether the marker directory is there.
    pub marker: bool,
    /// Whether the init program is installed.
    pub init_installed: bool,
    /// The process id of the init as the locator sees it, 0 if none runs.
    pub init_pid: i32,
    /// The process id that the next init will have.
    pub next_pid: i32,
    /// The user id of the calling process.
    pub uid: u32,
    /// The group id of the calling process.
    pub gid: u32,
}

/// The file that is reached under the name of `file`: what is bound over
/// it, if anything is, else the file itself.
pub open spec fn reached(h: HostModel, file: HostFile) -> HostFile {
    if h.bound.dom().contains(file) {
        h.bound[file]
    } else {
        file
    }
}

/// How often `file` was written so far.
pub open spec fn write_count(h: HostModel, file: HostFile) -> nat {
    if h.writes.dom().contains(file) {
        h.writes[file]
    } else {
        0
    }
}

/// The values of the variables `names` on the host.
pub open spec fn values_of(h: HostModel, names: Seq<Seq<char>>) -> Seq<Option<Seq<char>>> {
    Seq::new(
        names.len(),
        |i: int|
            if h.env.dom().contains(names[i]) {
                Some(h.env[names[i]])
            } else {
                None
            },
    )
}

/// What the host is after the driver has performed `action`, and what the
/// driver answers. Every action succeeds, but that a file which is not
/// there cannot be read or removed, and that nothing can be taken away
/// from a file that nothing is bound over. A new init is seen at once, and
/// so is the end of one that was asked to power off. The model keeps one
/// binding for each file: a file that is bound over a file which has one
/// bound over it already takes that one's place, where a kernel would stack
/// the two.
#[verifier::opaque]
pub open spec fn react(h: HostModel, action: ActionModel) -> (HostModel, EventModel) {
    match action {
        ActionModel::Read(file) => {
            let target = reached(h, file);
            if h.files.dom().contains(target) {
                (h, EventModel::Text(h.files[target]))
            } else {
                (h, EventModel::Missing)
            }
        },
        ActionModel::CheckMarker => (h, EventModel::Flag(h.marker)),
        ActionModel::CheckInit => (h, EventModel::Flag(h.init_installed)),
        ActionModel::Lookup(names) => (h, EventModel::Values(values_of(h, names))),
        ActionModel::Locate => (h, EventModel::Pid(h.init_pid)),
        ActionModel::SetGroup(gid) => (HostModel { gid, ..h }, EventModel::Done),
        ActionModel::SetUser(uid) => (HostModel { uid, ..h }, EventModel::Done),
        ActionModel::Write(file, text) => {
            let target = reached(h, file);
            (
                HostModel {
                    files: h.files.insert(target, text),
                    writes: h.writes.insert(target, write_count(h, target) + 1),
                    ..h
                },
                EventModel::Done,
            )
        },
        ActionModel::Bind(source, target) => (
            HostModel { bound: h.bound.insert(target, source), ..h },
            EventModel::Done,
        ),
        ActionModel::Unbind(target) => if h.bound.dom().contains(target) {
            (HostModel { bound: h.bound.remove(target), ..h }, EventModel::Done)
        } else {
            (h, EventModel::Failed)
        },
        ActionModel::Remove(file) => if h.files.dom().contains(file) {
            (HostModel { files: h.files.remove(file), ..h }, EventModel::Done)
        } else {
            (h, EventModel::Missing)
        },
        ActionModel::Spawn(job, command) => match job {
            Job::StartInit => (HostModel { init_pid: h.next_pid, ..h }, EventModel::Done),
            Job::PowerOff => (HostModel { init_pid: 0, ..h }, EventModel::Done),
        },
        _ => (h, EventModel::Done),
    }
}

/// An operation under way: the controller, the host, and the answer that
/// the controller gets next.
pub struct Session {
    pub controller: ControllerModel,
    pub host: HostModel,
    pub event: EventModel,
    /// Whether the controller has asked to stop.
    pub ended: bool,
}

/// The beginning of the operation `request` on the host `host`.
pub open spec fn begin(request: RequestModel, host: HostModel) -> Session {
    Session { controller: initial_model(request), host, event: EventModel::Start, ended: false }
}

/// One round: the controller takes the answer and asks for an action, and
/// the driver performs it. A session that has ended stays as it is.
pub open spec fn advance(s: Session) -> Session {
    if s.ended {
        s
    } else {
        let (controller, action) = step_model(s.controller, s.event);
        match action {
            ActionModel::Finish(_) => Session { controller, ended: true, ..s },
            _ => {
                let (host, event) = react(s.host, action);
                Session { controller, host, event, ended: false }
            },
        }
    }
}

/// `n` rounds.
pub open spec fn advance_by(s: Session, n: nat) -> Session
    decreases n,
{
    if n == 0 {
        s
    } else {
        advance(advance_by(s, (n - 1) as nat))
    }
}

/// The number of rounds within which an operation ends on a host where no
/// wait is needed.
pub open spec fn round_limit() -> nat {
    64
}

/// The operation `request` carried out on the host `host`.
pub open spec fn perform(request: RequestModel, host: HostModel) -> Session {
    advance_by(begin(request, host), round_limit())
}

/// A session that has ended stays as it is, however many rounds follow.
pub proof fn lemma_ended_stays(s: Session, n: nat)
    requires
        s.ended,
    ensures
        advance_by(s, n) == s,
    decreases n,
{
    if n > 0 {
        lemma_ended_stays(s, (n - 1) as nat);
    }
}

/// Rounds add up.
pub proof fn lemma_rounds_add(s: Session, a: nat, b: nat)
    ensures
        advance_by(s, a + b) == advance_by(advance_by(s, a), b),
    decreases b,
{
    if b > 0 {
        lemma_rounds_add(s, a, (b - 1) as nat);
        assert(a + b - 1 == a + (b - 1));
    }
}

/// A session that has ended after `n` rounds, within the limit, is what
/// the whole operation gives.
pub proof fn lemma_performed(request: RequestModel, host: HostModel, n: nat)
    requires
        n <= round_limit(),
        advance_by(begin(request, host), n).ended,
    ensures
        perform(request, host) == advance_by(begin(request, host), n),
{
    let s = begin(request, host);
    lemma_rounds_add(s, n, (round_limit() - n) as nat);
    lemma_ended_stays(advance_by(s, n), (round_limit() - n) as nat);
}

} // verus!
