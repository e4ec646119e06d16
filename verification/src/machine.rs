//! The lifecycle of the bottle as a state machine: from the state of the
//! controller and the driver's answer to the next state and the next
//! action. This file holds the machine as a mathematical model; the controller
//! that runs it is verified against it.

use crate::chars::lines;
use crate::config::ConfigModel;
use crate::environ::{
    allow_list_names, is_assignment, loaded_entries, loaded_names, missing_names, saved_text,
    terminal_name, value_at,
};
use crate::hosts::{host_name, hostname_file, patched_hosts};
use crate::launch::{poweroff_model, run_model, shell_model, start_model};
use crate::locator::{state_of, BottleState};
use crate::probe::{root_kind, RootKind};
use crate::protocol::{
    ActionModel, Entry, EventModel, Failure, HostFile, Job, NoticeModel, Operation, Outcome,
    POLL_INTERVAL_MS,
};
use vstd::prelude::*;

verus! {

/// The user and group that invoked the tool.
#[derive(Clone, Copy, Debug, PartialEq, Eq, Structural)]
pub struct CallerIdentity {
    /// The real user id.
    pub uid: u32,
    /// The real group id.
    pub gid: u32,
}

/// What the caller asked for, with its texts as sequences of characters.
pub struct RequestModel {
    pub operation: Operation,
    pub command: Seq<Seq<char>>,
    pub working_dir: Seq<char>,
    pub effective_uid: u32,
    pub caller: CallerIdentity,
    pub config: ConfigModel,
}

/// Where the controller stands: the action whose answer it awaits.
#[derive(Clone, Copy, Debug, PartialEq, Eq, Structural)]
pub enum Phase {
    /// Nothing was asked yet.
    Idle,
    /// The mount table is being read.
    CheckingMounts,
    /// The marker directory is being examined.
    CheckingMarker,
    /// The caller's login name is being looked up.
    ReadingUser,
    /// The process table is being scanned for the first time.
    Locating,
    /// The init program is being looked for.
    CheckingInit,
    /// The group id is being set to root's.
    RaisingGroup,
    /// The user id is being set to root's.
    RaisingUser,
    /// The backup of the hostname file is being read.
    ReadingHostnameBackup,
    /// The hostname file is being read, to be backed up.
    ReadingHostname,
    /// The backup of the hostname file is being written.
    SavingHostname,
    /// The backup of the hosts file is being read.
    ReadingHostsBackup,
    /// The hosts file is being read, to be backed up.
    ReadingHostsLive,
    /// The backup of the hosts file is being written.
    SavingHosts,
    /// The virtual hostname file is being written.
    StagingHostname,
    /// The virtual hostname file is being bound over the hostname file.
    BindingHostname,
    /// The hosts file is being read, to be patched.
    ReadingHosts,
    /// The virtual hosts file is being written.
    StagingHosts,
    /// The virtual hosts file is being bound over the hosts file.
    BindingHosts,
    /// The host variables are being looked up.
    CapturingEnv,
    /// The user is being told of host variables without a value.
    WarningMissing,
    /// The saved environment is being written.
    SavingEnv,
    /// The init is being started.
    StartingInit,
    /// The process table is being scanned for the new init.
    AwaitingInit,
    /// A pause before the next scan for the new init.
    PausingForInit,
    /// The terminal type is being looked up.
    ReadingTerminal,
    /// The saved environment is being read.
    ReadingSavedEnv,
    /// The user is being told that no environment was saved.
    WarningNoEnv,
    /// The shell or command is being launched.
    Launching,
    /// The init is being asked to power off.
    PoweringOff,
    /// The process table is being scanned for the init that is to go.
    AwaitingExit,
    /// A pause before the next scan for the init that is to go.
    PausingForExit,
    /// The hostname file is being freed.
    UnbindingHostname,
    /// The hosts file is being freed.
    UnbindingHosts,
    /// The backup of the hosts file is being read, to be put back.
    ReadingHostsForRestore,
    /// The hosts file is being put back.
    RestoringHosts,
    /// The given file is being removed.
    Removing(HostFile),
    /// The group id is being set back to the caller's.
    DroppingGroup,
    /// The user id is being set back to the caller's.
    DroppingUser,
    /// The operation has ended.
    Finished,
}

/// The state of the controller, with its texts as sequences of characters.
pub struct ControllerModel {
    /// What the caller asked for.
    pub request: RequestModel,
    /// The action whose answer is awaited.
    pub phase: Phase,
    /// Whether the process runs as root by the controller's doing.
    pub raised: bool,
    /// How the operation ended, or will end once the privilege is dropped.
    pub outcome: Outcome,
    /// Where the caller stood when the operation began.
    pub state: BottleState,
    /// The process id of the init, 0 while there is none.
    pub pid: i32,
    /// The caller's login name.
    pub user: Seq<char>,
    /// The host's own name.
    pub host_name: Seq<char>,
    /// The caller's terminal type.
    pub term: Seq<char>,
    /// The environment that is to be saved.
    pub pending_text: Seq<char>,
    /// The environment for the launch.
    pub entries: Seq<Seq<char>>,
    /// The names of the variables to keep across the launch.
    pub names: Seq<char>,
    /// Whether the hostname file could not be freed.
    pub unbind_failed: bool,
}

/// The name of the variable that holds the caller's login name.
pub open spec fn user_variable() -> Seq<char> {
    "LOGNAME"@
}

/// The controller before anything was asked.
pub open spec fn initial_model(request: RequestModel) -> ControllerModel {
    ControllerModel {
        request,
        phase: Phase::Idle,
        raised: false,
        outcome: Outcome::Completed,
        state: BottleState::Absent,
        pid: 0,
        user: Seq::empty(),
        host_name: Seq::empty(),
        term: Seq::empty(),
        pending_text: Seq::empty(),
        entries: Seq::empty(),
        names: Seq::empty(),
        unbind_failed: false,
    }
}

/// The name of the bottle.
pub open spec fn bottle_name_of(c: ControllerModel) -> Seq<char> {
    c.host_name + c.request.config.suffix
}

/// Moves on to `phase` and asks for `action`.
pub open spec fn go(c: ControllerModel, phase: Phase, action: ActionModel) -> (
    ControllerModel,
    ActionModel,
) {
    (ControllerModel { phase, ..c }, action)
}

/// Ends the operation at once.
pub open spec fn finish(c: ControllerModel, outcome: Outcome) -> (ControllerModel, ActionModel) {
    (ControllerModel { phase: Phase::Finished, outcome, ..c }, ActionModel::Finish(outcome))
}

/// Ends the operation: at once if the privilege was never raised, else
/// after it is given back, the group first.
pub open spec fn leave(c: ControllerModel, outcome: Outcome) -> (ControllerModel, ActionModel) {
    if c.raised {
        (
            ControllerModel { phase: Phase::DroppingGroup, raised: false, outcome, ..c },
            ActionModel::SetGroup(c.request.caller.gid),
        )
    } else {
        finish(c, outcome)
    }
}

/// Gives the operation up.
pub open spec fn fail(c: ControllerModel, failure: Failure) -> (ControllerModel, ActionModel) {
    leave(c, Outcome::Failed(failure))
}

/// Begins to take root privilege, the group first.
pub open spec fn raise(c: ControllerModel) -> (ControllerModel, ActionModel) {
    go(c, Phase::RaisingGroup, ActionModel::SetGroup(0))
}

/// Looks for the init program before anything is changed, so that no
/// bottle is begun that cannot be finished.
pub open spec fn check_init(c: ControllerModel) -> (ControllerModel, ActionModel) {
    go(c, Phase::CheckingInit, ActionModel::CheckInit)
}

/// Begins to make the bottle.
pub open spec fn begin_init(c: ControllerModel) -> (ControllerModel, ActionModel) {
    go(c, Phase::ReadingHostnameBackup, ActionModel::Read(HostFile::HostnameBackup))
}

/// Begins to enter the bottle.
pub open spec fn begin_entry(c: ControllerModel) -> (ControllerModel, ActionModel) {
    go(c, Phase::ReadingTerminal, ActionModel::Lookup(seq![terminal_name()]))
}

/// Begins to stop the bottle.
pub open spec fn begin_cleanup(c: ControllerModel) -> (ControllerModel, ActionModel) {
    go(c, Phase::PoweringOff, ActionModel::Spawn(Job::PowerOff, poweroff_model(c.pid as int)))
}

/// Writes the virtual hostname file.
pub open spec fn stage_hostname(c: ControllerModel) -> (ControllerModel, ActionModel) {
    go(
        c,
        Phase::StagingHostname,
        ActionModel::Write(HostFile::StagedHostname, hostname_file(bottle_name_of(c))),
    )
}

/// The file that is removed after `file` when the host is put back; `None`
/// after the last one.
pub open spec fn next_artifact(file: HostFile) -> Option<HostFile> {
    match file {
        HostFile::SavedEnvironment => Some(HostFile::StagedHosts),
        HostFile::StagedHosts => Some(HostFile::StagedHostname),
        HostFile::StagedHostname => Some(HostFile::HostsBackup),
        HostFile::HostsBackup => Some(HostFile::HostnameBackup),
        _ => None,
    }
}

/// Begins to remove what the bottle left on the host.
pub open spec fn begin_removal(c: ControllerModel) -> (ControllerModel, ActionModel) {
    go(
        c,
        Phase::Removing(HostFile::SavedEnvironment),
        ActionModel::Remove(HostFile::SavedEnvironment),
    )
}

/// Whether every line of a saved environment holds a `=`.
pub open spec fn well_formed(saved: Seq<char>) -> bool {
    forall|i: int| 0 <= i < lines(saved).len() ==> is_assignment(#[trigger] lines(saved)[i])
}

/// Decides what to do once the bottle's state is known. Where the bottle
/// has to be made, the init program is looked for first.
pub open spec fn dispatch(c: ControllerModel) -> (ControllerModel, ActionModel) {
    match c.request.operation {
        Operation::Init => if c.state == BottleState::Absent {
            check_init(c)
        } else {
            finish(c, Outcome::AlreadyExists)
        },
        Operation::Shell => if c.state == BottleState::ExistsInside {
            finish(c, Outcome::AlreadyInside)
        } else if c.state == BottleState::Absent {
            check_init(c)
        } else {
            raise(c)
        },
        Operation::Run => if c.state == BottleState::ExistsInside {
            begin_entry(c)
        } else if c.state == BottleState::Absent {
            check_init(c)
        } else {
            raise(c)
        },
        Operation::Cleanup => if c.state == BottleState::ExistsInside {
            finish(c, Outcome::InsideBottle)
        } else if c.state == BottleState::Absent {
            finish(c, Outcome::NoBottle)
        } else {
            raise(c)
        },
    }
}

/// Launches what the caller asked for.
pub open spec fn launch(c: ControllerModel) -> (ControllerModel, ActionModel) {
    match c.request.operation {
        Operation::Shell => go(
            c,
            Phase::Launching,
            ActionModel::Launch(
                Entry::Shell,
                shell_model(c.pid as int, c.user, c.names),
                c.entries,
            ),
        ),
        Operation::Run => if c.state == BottleState::ExistsInside {
            go(
                c,
                Phase::Launching,
                ActionModel::Launch(Entry::Direct, c.request.command, c.entries),
            )
        } else {
            go(
                c,
                Phase::Launching,
                ActionModel::Launch(
                    Entry::Command,
                    run_model(c.pid as int, c.request.working_dir, c.user, c.request.command),
                    c.entries,
                ),
            )
        },
        _ => fail(c, Failure::Protocol),
    }
}

/// The first step: refuses a run without a command and a caller without
/// root privilege, then begins to probe the host.
pub open spec fn on_start(c: ControllerModel, e: EventModel) -> (ControllerModel, ActionModel) {
    match e {
        EventModel::Start => if c.request.operation == Operation::Run
            && c.request.command.len() == 0 {
            finish(c, Outcome::Failed(Failure::NoCommand))
        } else if c.request.effective_uid != 0 {
            finish(c, Outcome::NotRoot)
        } else {
            go(c, Phase::CheckingMounts, ActionModel::Read(HostFile::Mounts))
        },
        _ => finish(c, Outcome::Failed(Failure::Protocol)),
    }
}

/// The steps that probe the host and find out where the caller stands.
pub open spec fn probe_step(c: ControllerModel, e: EventModel) -> (ControllerModel, ActionModel) {
    match c.phase {
        Phase::CheckingMounts => match e {
            EventModel::Text(t) => match root_kind(t) {
                RootKind::Translated => finish(c, Outcome::NotVirtualized),
                RootKind::Malformed => finish(c, Outcome::Failed(Failure::Malformed)),
                _ => go(c, Phase::CheckingMarker, ActionModel::CheckMarker),
            },
            _ => finish(c, Outcome::Failed(Failure::File(HostFile::Mounts))),
        },
        Phase::CheckingMarker => match e {
            EventModel::Flag(there) => if there {
                go(c, Phase::ReadingUser, ActionModel::Lookup(seq![user_variable()]))
            } else {
                finish(c, Outcome::NotVirtualized)
            },
            _ => finish(c, Outcome::Failed(Failure::Marker)),
        },
        Phase::ReadingUser => match e {
            EventModel::Values(vs) => match value_at(vs, 0) {
                Some(name) => go(
                    ControllerModel { user: name, ..c },
                    Phase::Locating,
                    ActionModel::Locate,
                ),
                None => finish(c, Outcome::Failed(Failure::Variable)),
            },
            _ => finish(c, Outcome::Failed(Failure::Variable)),
        },
        Phase::CheckingInit => match e {
            EventModel::Flag(there) => if there {
                raise(c)
            } else {
                finish(c, Outcome::Failed(Failure::NoInit))
            },
            _ => finish(c, Outcome::Failed(Failure::NoInit)),
        },
        _ => match e {
            EventModel::Pid(p) => dispatch(
                ControllerModel { pid: p, state: state_of(p as int), ..c },
            ),
            _ => finish(c, Outcome::Failed(Failure::Locate)),
        },
    }
}

/// The steps that take root privilege and give it back. Each sets the
/// group before the user, and a step that fails ends the operation at once.
pub open spec fn privilege_step(c: ControllerModel, e: EventModel) -> (
    ControllerModel,
    ActionModel,
) {
    match e {
        EventModel::Done => match c.phase {
            Phase::RaisingGroup => go(c, Phase::RaisingUser, ActionModel::SetUser(0)),
            Phase::RaisingUser => {
                let r = ControllerModel { raised: true, ..c };
                match c.request.operation {
                    Operation::Cleanup => begin_cleanup(r),
                    Operation::Init => begin_init(r),
                    _ => if c.state == BottleState::Absent {
                        begin_init(r)
                    } else {
                        begin_entry(r)
                    },
                }
            },
            Phase::DroppingGroup => go(
                c,
                Phase::DroppingUser,
                ActionModel::SetUser(c.request.caller.uid),
            ),
            _ => finish(c, c.outcome),
        },
        _ => finish(c, Outcome::Failed(Failure::Privilege)),
    }
}

/// The steps that back up the hostname and hosts files. A backup that is
/// there is read and kept; only where none is there is the live file read
/// and written to the backup, as it stands.
pub open spec fn backup_step(c: ControllerModel, e: EventModel) -> (ControllerModel, ActionModel) {
    match c.phase {
        Phase::ReadingHostnameBackup => match e {
            EventModel::Text(t) => go(
                ControllerModel { host_name: host_name(t), ..c },
                Phase::ReadingHostsBackup,
                ActionModel::Read(HostFile::HostsBackup),
            ),
            EventModel::Missing => go(
                c,
                Phase::ReadingHostname,
                ActionModel::Read(HostFile::Hostname),
            ),
            _ => fail(c, Failure::File(HostFile::HostnameBackup)),
        },
        Phase::ReadingHostname => match e {
            EventModel::Text(t) => go(
                ControllerModel { host_name: host_name(t), ..c },
                Phase::SavingHostname,
                ActionModel::Write(HostFile::HostnameBackup, t),
            ),
            _ => fail(c, Failure::File(HostFile::Hostname)),
        },
        Phase::SavingHostname => match e {
            EventModel::Done => go(
                c,
                Phase::ReadingHostsBackup,
                ActionModel::Read(HostFile::HostsBackup),
            ),
            _ => fail(c, Failure::File(HostFile::HostnameBackup)),
        },
        Phase::ReadingHostsBackup => match e {
            EventModel::Text(t) => stage_hostname(c),
            EventModel::Missing => go(
                c,
                Phase::ReadingHostsLive,
                ActionModel::Read(HostFile::Hosts),
            ),
            _ => fail(c, Failure::File(HostFile::HostsBackup)),
        },
        Phase::ReadingHostsLive => match e {
            EventModel::Text(t) => go(
                c,
                Phase::SavingHosts,
                ActionModel::Write(HostFile::HostsBackup, t),
            ),
            _ => fail(c, Failure::File(HostFile::Hosts)),
        },
        _ => match e {
            EventModel::Done => stage_hostname(c),
            _ => fail(c, Failure::File(HostFile::HostsBackup)),
        },
    }
}

/// The steps that put the virtual hostname and hosts files in place. The
/// virtual hosts file is made from the hosts file as it stands now.
pub open spec fn install_step(c: ControllerModel, e: EventModel) -> (
    ControllerModel,
    ActionModel,
) {
    match c.phase {
        Phase::StagingHostname => match e {
            EventModel::Done => go(
                c,
                Phase::BindingHostname,
                ActionModel::Bind(HostFile::StagedHostname, HostFile::Hostname),
            ),
            _ => fail(c, Failure::File(HostFile::StagedHostname)),
        },
        Phase::BindingHostname => match e {
            EventModel::Done => go(c, Phase::ReadingHosts, ActionModel::Read(HostFile::Hosts)),
            _ => fail(c, Failure::Mount(HostFile::Hostname)),
        },
        Phase::ReadingHosts => match e {
            EventModel::Text(t) => go(
                c,
                Phase::StagingHosts,
                ActionModel::Write(
                    HostFile::StagedHosts,
                    patched_hosts(t, c.host_name, bottle_name_of(c)),
                ),
            ),
            _ => fail(c, Failure::File(HostFile::Hosts)),
        },
        Phase::StagingHosts => match e {
            EventModel::Done => go(
                c,
                Phase::BindingHosts,
                ActionModel::Bind(HostFile::StagedHosts, HostFile::Hosts),
            ),
            _ => fail(c, Failure::File(HostFile::StagedHosts)),
        },
        _ => match e {
            EventModel::Done => go(
                c,
                Phase::CapturingEnv,
                ActionModel::Lookup(allow_list_names()),
            ),
            _ => fail(c, Failure::Mount(HostFile::Hosts)),
        },
    }
}

/// The steps that save the environment, start the init and wait until the
/// process table shows it.
pub open spec fn start_step(c: ControllerModel, e: EventModel) -> (ControllerModel, ActionModel) {
    match c.phase {
        Phase::CapturingEnv => match e {
            EventModel::Values(vs) => {
                let names = allow_list_names();
                let text = saved_text(names, vs);
                let missing = missing_names(names, vs, names.len());
                if missing.len() > 0 {
                    go(
                        ControllerModel { pending_text: text, ..c },
                        Phase::WarningMissing,
                        ActionModel::Warn(NoticeModel::MissingVariables(missing)),
                    )
                } else {
                    go(c, Phase::SavingEnv, ActionModel::Write(HostFile::SavedEnvironment, text))
                }
            },
            _ => fail(c, Failure::Variable),
        },
        Phase::WarningMissing => go(
            c,
            Phase::SavingEnv,
            ActionModel::Write(HostFile::SavedEnvironment, c.pending_text),
        ),
        Phase::SavingEnv => match e {
            EventModel::Done => go(
                c,
                Phase::StartingInit,
                ActionModel::Spawn(Job::StartInit, start_model(c.request.config)),
            ),
            _ => fail(c, Failure::File(HostFile::SavedEnvironment)),
        },
        Phase::StartingInit => match e {
            EventModel::Done => go(c, Phase::AwaitingInit, ActionModel::Locate),
            _ => fail(c, Failure::Spawn),
        },
        Phase::AwaitingInit => match e {
            EventModel::Pid(p) => if p == 0 {
                go(c, Phase::PausingForInit, ActionModel::Sleep(POLL_INTERVAL_MS))
            } else {
                let found = ControllerModel { pid: p, ..c };
                if c.request.operation == Operation::Init {
                    leave(found, Outcome::Completed)
                } else {
                    begin_entry(found)
                }
            },
            _ => fail(c, Failure::Locate),
        },
        _ => go(c, Phase::AwaitingInit, ActionModel::Locate),
    }
}

/// The steps that enter the bottle: the terminal type is looked up anew,
/// the saved environment is read, and the shell or command is launched.
pub open spec fn entry_step(c: ControllerModel, e: EventModel) -> (ControllerModel, ActionModel) {
    match c.phase {
        Phase::ReadingTerminal => match e {
            EventModel::Values(vs) => match value_at(vs, 0) {
                Some(t) => go(
                    ControllerModel { term: t, ..c },
                    Phase::ReadingSavedEnv,
                    ActionModel::Read(HostFile::SavedEnvironment),
                ),
                None => fail(c, Failure::Variable),
            },
            _ => fail(c, Failure::Variable),
        },
        Phase::ReadingSavedEnv => {
            let saved = match e {
                EventModel::Text(t) => t,
                _ => Seq::empty(),
            };
            if !well_formed(saved) {
                fail(c, Failure::Malformed)
            } else {
                let loaded = ControllerModel {
                    entries: loaded_entries(c.term, saved),
                    names: loaded_names(saved),
                    ..c
                };
                if saved.len() == 0 {
                    go(
                        loaded,
                        Phase::WarningNoEnv,
                        ActionModel::Warn(NoticeModel::NoSavedEnvironment),
                    )
                } else {
                    launch(loaded)
                }
            }
        },
        Phase::WarningNoEnv => launch(c),
        _ => match e {
            EventModel::Done => leave(c, Outcome::Completed),
            _ => fail(c, Failure::Launch),
        },
    }
}

/// The steps that stop the bottle: the init is asked to power off, the
/// controller waits until the process table shows it no more, both files
/// are freed, the hosts file is put back and what the bottle left is
/// removed. Both files are freed even if the first cannot be.
pub open spec fn cleanup_step(c: ControllerModel, e: EventModel) -> (
    ControllerModel,
    ActionModel,
) {
    match c.phase {
        Phase::PoweringOff => match e {
            EventModel::Done => go(c, Phase::AwaitingExit, ActionModel::Locate),
            _ => fail(c, Failure::Spawn),
        },
        Phase::AwaitingExit => match e {
            EventModel::Pid(p) => if p == 0 {
                go(c, Phase::UnbindingHostname, ActionModel::Unbind(HostFile::Hostname))
            } else {
                go(c, Phase::PausingForExit, ActionModel::Sleep(POLL_INTERVAL_MS))
            },
            _ => fail(c, Failure::Locate),
        },
        Phase::PausingForExit => go(c, Phase::AwaitingExit, ActionModel::Locate),
        Phase::UnbindingHostname => go(
            ControllerModel { unbind_failed: !(e is Done), ..c },
            Phase::UnbindingHosts,
            ActionModel::Unbind(HostFile::Hosts),
        ),
        Phase::UnbindingHosts => if c.unbind_failed {
            fail(c, Failure::Mount(HostFile::Hostname))
        } else {
            match e {
                EventModel::Done => go(
                    c,
                    Phase::ReadingHostsForRestore,
                    ActionModel::Read(HostFile::HostsBackup),
                ),
                _ => fail(c, Failure::Mount(HostFile::Hosts)),
            }
        },
        Phase::ReadingHostsForRestore => match e {
            EventModel::Text(t) => go(
                c,
                Phase::RestoringHosts,
                ActionModel::Write(HostFile::Hosts, t),
            ),
            EventModel::Missing => begin_removal(c),
            _ => fail(c, Failure::File(HostFile::HostsBackup)),
        },
        Phase::RestoringHosts => match e {
            EventModel::Done => begin_removal(c),
            _ => fail(c, Failure::File(HostFile::Hosts)),
        },
        Phase::Removing(file) => if e is Done || e is Missing {
            match next_artifact(file) {
                Some(next) => go(c, Phase::Removing(next), ActionModel::Remove(next)),
                None => leave(c, Outcome::Completed),
            }
        } else {
            fail(c, Failure::File(file))
        },
        _ => fail(c, Failure::Protocol),
    }
}

/// One step of the controller: from its state and the driver's answer to
/// its next state and the action that it asks for next.
#[verifier::opaque]
pub open spec fn step_model(c: ControllerModel, e: EventModel) -> (ControllerModel, ActionModel) {
    match c.phase {
        Phase::Idle => on_start(c, e),
        Phase::CheckingMounts
        | Phase::CheckingMarker
        | Phase::ReadingUser
        | Phase::Locating
        | Phase::CheckingInit => probe_step(c, e),
        Phase::RaisingGroup
        | Phase::RaisingUser
        | Phase::DroppingGroup
        | Phase::DroppingUser => privilege_step(c, e),
        Phase::ReadingHostnameBackup
        | Phase::ReadingHostname
        | Phase::SavingHostname
        | Phase::ReadingHostsBackup
        | Phase::ReadingHostsLive
        | Phase::SavingHosts => backup_step(c, e),
        Phase::StagingHostname
        | Phase::BindingHostname
        | Phase::ReadingHosts
        | Phase::StagingHosts
        | Phase::BindingHosts => install_step(c, e),
        Phase::CapturingEnv
        | Phase::WarningMissing
        | Phase::SavingEnv
        | Phase::StartingInit
        | Phase::AwaitingInit
        | Phase::PausingForInit => start_step(c, e),
        Phase::ReadingTerminal
        | Phase::ReadingSavedEnv
        | Phase::WarningNoEnv
        | Phase::Launching => entry_step(c, e),
        Phase::PoweringOff
        | Phase::AwaitingExit
        | Phase::PausingForExit
        | Phase::UnbindingHostname
        | Phase::UnbindingHosts
        | Phase::ReadingHostsForRestore
        | Phase::RestoringHosts
        | Phase::Removing(_) => cleanup_step(c, e),
        Phase::Finished => (c, ActionModel::Finish(c.outcome)),
    }
}

} // verus!
