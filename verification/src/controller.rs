//! The controller of the bottle's lifecycle. It performs no system call
//! itself: it asks its driver for one action at a time and decides, from
//! the driver's answer, what comes next.

use crate::chars::texts;
use crate::config::Config;
use crate::environ::{allow_list, load, lookups, save, value_at};
use crate::hosts::{hostname_text, patch_hosts, read_host_name, virtual_name};
use crate::launch::{copy_texts, poweroff_command, run_argv, shell_argv, start_command};
use crate::locator::{classify, BottleState};
use crate::machine::{
    backup_step, begin_cleanup, begin_entry, begin_init, begin_removal, bottle_name_of,
    check_init, cleanup_step, dispatch,
    entry_step, fail, finish, initial_model, install_step, launch, leave, next_artifact, on_start,
    privilege_step, probe_step, raise, stage_hostname, start_step, step_model, CallerIdentity,
    ControllerModel, Phase, RequestModel,
};
use crate::probe::{root_filesystem, RootKind};
use crate::protocol::{
    Action, Entry, Event, Failure, HostFile, Job, Notice, Operation, Outcome, POLL_INTERVAL_MS,
};
use vstd::prelude::*;

verus! {

/// What the caller asked for.
pub struct Request {
    /// The operation.
    pub operation: Operation,
    /// The command to run, for [`Operation::Run`]; empty otherwise.
    pub command: Vec<String>,
    /// The caller's working directory, which a command is run in.
    pub working_dir: String,
    /// The effective user id of the calling process.
    pub effective_uid: u32,
    /// The user and group to give the process back to in the end.
    pub caller: CallerIdentity,
    /// The settings.
    pub config: Config,
}

impl View for Request {
    type V = RequestModel;

    open spec fn view(&self) -> RequestModel {
        RequestModel {
            operation: self.operation,
            command: texts(self.command@),
            working_dir: self.working_dir@,
            effective_uid: self.effective_uid,
            caller: self.caller,
            config: self.config@,
        }
    }
}

/// The state of one operation on the bottle.
pub struct Controller {
    /// What the caller asked for.
    pub request: Request,
    /// The action whose answer is awaited.
    pub phase: Phase,
    /// Whether the process runs as root by the controller's doing.
    pub raised: bool,
    /// How the operation ended, or will end once the privilege is dropped.
    pub outcome: Outcome,
    /// Where the caller stood when the operation began.
    pub state: BottleState,
    /// The process id of the init, 0 while there is none.
    pub pid: i32,
    /// The caller's login name.
    pub user: String,
    /// The host's own name.
    pub host_name: String,
    /// The caller's terminal type.
    pub term: String,
    /// The environment that is to be saved.
    pub pending_text: String,
    /// The environment for the launch.
    pub entries: Vec<String>,
    /// The names of the variables to keep across the launch.
    pub names: String,
    /// Whether the hostname file could not be freed.
    pub unbind_failed: bool,
}

impl View for Controller {
    type V = ControllerModel;

    open spec fn view(&self) -> ControllerModel {
        ControllerModel {
            request: self.request@,
            phase: self.phase,
            raised: self.raised,
            outcome: self.outcome,
            state: self.state,
            pid: self.pid,
            user: self.user@,
            host_name: self.host_name@,
            term: self.term@,
            pending_text: self.pending_text@,
            entries: texts(self.entries@),
            names: self.names@,
            unbind_failed: self.unbind_failed,
        }
    }
}

/// The first of the looked-up values, if it is there and set.
fn first_value(values: &Vec<Option<String>>) -> (v: Option<String>)
    ensures
        match v {
            Some(t) => value_at(lookups(values@), 0) == Some(t@),
            None => value_at(lookups(values@), 0) is None,
        },
{
    if values.len() == 0 {
        return None;
    }
    match &values[0] {
        Some(t) => Some(t.clone()),
        None => None,
    }
}

/// A list that holds `name` alone.
fn single(name: &str) -> (names: Vec<String>)
    ensures
        texts(names@) == seq![name@],
{
    let mut names: Vec<String> = Vec::new();
    names.push(name.to_owned());
    assert(texts(names@) == seq![name@]);
    names
}

impl Controller {
    /// A controller for `request`, which awaits [`Event::Start`].
    pub fn new(request: Request) -> (c: Controller)
        ensures
            c@ == initial_model(request@),
    {
        let entries: Vec<String> = Vec::new();
        assert(texts(entries@) == Seq::<Seq<char>>::empty());
        Controller {
            request,
            phase: Phase::Idle,
            raised: false,
            outcome: Outcome::Completed,
            state: BottleState::Absent,
            pid: 0,
            user: String::new(),
            host_name: String::new(),
            term: String::new(),
            pending_text: String::new(),
            entries,
            names: String::new(),
            unbind_failed: false,
        }
    }

    /// Whether the operation has ended.
    pub fn is_finished(&self) -> (b: bool)
        ensures
            b == (self@.phase == Phase::Finished),
    {
        match self.phase {
            Phase::Finished => true,
            _ => false,
        }
    }

    fn finish(&mut self, outcome: Outcome) -> (action: Action)
        ensures
            (final(self)@, action@) == finish(old(self)@, outcome),
    {
        self.phase = Phase::Finished;
        self.outcome = outcome;
        Action::Finish(outcome)
    }

    fn leave(&mut self, outcome: Outcome) -> (action: Action)
        ensures
            (final(self)@, action@) == leave(old(self)@, outcome),
    {
        if self.raised {
            self.phase = Phase::DroppingGroup;
            self.raised = false;
            self.outcome = outcome;
            Action::SetGroup(self.request.caller.gid)
        } else {
            self.finish(outcome)
        }
    }

    fn fail(&mut self, failure: Failure) -> (action: Action)
        ensures
            (final(self)@, action@) == fail(old(self)@, failure),
    {
        self.leave(Outcome::Failed(failure))
    }

    fn raise(&mut self) -> (action: Action)
        ensures
            (final(self)@, action@) == raise(old(self)@),
    {
        self.phase = Phase::RaisingGroup;
        Action::SetGroup(0)
    }

    fn check_init(&mut self) -> (action: Action)
        ensures
            (final(self)@, action@) == check_init(old(self)@),
    {
        self.phase = Phase::CheckingInit;
        Action::CheckInit
    }

    fn begin_init(&mut self) -> (action: Action)
        ensures
            (final(self)@, action@) == begin_init(old(self)@),
    {
        self.phase = Phase::ReadingHostnameBackup;
        Action::Read(HostFile::HostnameBackup)
    }

    fn begin_entry(&mut self) -> (action: Action)
        ensures
            (final(self)@, action@) == begin_entry(old(self)@),
    {
        self.phase = Phase::ReadingTerminal;
        Action::Lookup(single("TERM"))
    }

    fn begin_cleanup(&mut self) -> (action: Action)
        ensures
            (final(self)@, action@) == begin_cleanup(old(self)@),
    {
        self.phase = Phase::PoweringOff;
        Action::Spawn(Job::PowerOff, poweroff_command(self.pid))
    }

    fn begin_removal(&mut self) -> (action: Action)
        ensures
            (final(self)@, action@) == begin_removal(old(self)@),
    {
        self.phase = Phase::Removing(HostFile::SavedEnvironment);
        Action::Remove(HostFile::SavedEnvironment)
    }

    fn bottle_name(&self) -> (name: String)
        ensures
            name@ == bottle_name_of(self@),
    {
        virtual_name(self.host_name.as_str(), self.request.config.suffix.as_str())
    }

    fn stage_hostname(&mut self) -> (action: Action)
        ensures
            (final(self)@, action@) == stage_hostname(old(self)@),
    {
        let name = self.bottle_name();
        self.phase = Phase::StagingHostname;
        Action::Write(HostFile::StagedHostname, hostname_text(name.as_str()))
    }

    fn dispatch(&mut self) -> (action: Action)
        ensures
            (final(self)@, action@) == dispatch(old(self)@),
    {
        match self.request.operation {
            Operation::Init => match self.state {
                BottleState::Absent => self.check_init(),
                _ => self.finish(Outcome::AlreadyExists),
            },
            Operation::Shell => match self.state {
                BottleState::ExistsInside => self.finish(Outcome::AlreadyInside),
                BottleState::Absent => self.check_init(),
                BottleState::ExistsOutside => self.raise(),
            },
            Operation::Run => match self.state {
                BottleState::ExistsInside => self.begin_entry(),
                BottleState::Absent => self.check_init(),
                BottleState::ExistsOutside => self.raise(),
            },
            Operation::Cleanup => match self.state {
                BottleState::ExistsInside => self.finish(Outcome::InsideBottle),
                BottleState::Absent => self.finish(Outcome::NoBottle),
                BottleState::ExistsOutside => self.raise(),
            },
        }
    }

    fn launch(&mut self) -> (action: Action)
        ensures
            (final(self)@, action@) == launch(old(self)@),
    {
        match self.request.operation {
            Operation::Shell => {
                let argv = shell_argv(self.pid, self.user.as_str(), self.names.as_str());
                let env = copy_texts(&self.entries);
                self.phase = Phase::Launching;
                Action::Launch(Entry::Shell, argv, env)
            },
            Operation::Run => {
                let env = copy_texts(&self.entries);
                match self.state {
                    BottleState::ExistsInside => {
                        let argv = copy_texts(&self.request.command);
                        self.phase = Phase::Launching;
                        Action::Launch(Entry::Direct, argv, env)
                    },
                    _ => {
                        let argv = run_argv(
                            self.pid,
                            self.request.working_dir.as_str(),
                            self.user.as_str(),
                            &self.request.command,
                        );
                        self.phase = Phase::Launching;
                        Action::Launch(Entry::Command, argv, env)
                    },
                }
            },
            _ => self.fail(Failure::Protocol),
        }
    }

    fn on_start(&mut self, event: Event) -> (action: Action)
        ensures
            (final(self)@, action@) == on_start(old(self)@, event@),
    {
        match event {
            Event::Start => {
                let no_command = match self.request.operation {
                    Operation::Run => self.request.command.len() == 0,
                    _ => false,
                };
                if no_command {
                    self.finish(Outcome::Failed(Failure::NoCommand))
                } else if self.request.effective_uid != 0 {
                    self.finish(Outcome::NotRoot)
                } else {
                    self.phase = Phase::CheckingMounts;
                    Action::Read(HostFile::Mounts)
                }
            },
            _ => self.finish(Outcome::Failed(Failure::Protocol)),
        }
    }

    fn probe_step(&mut self, event: Event) -> (action: Action)
        ensures
            (final(self)@, action@) == probe_step(old(self)@, event@),
    {
        match self.phase {
            Phase::CheckingMounts => match event {
                Event::Text(t) => match root_filesystem(t.as_str()) {
                    RootKind::Translated => self.finish(Outcome::NotVirtualized),
                    RootKind::Malformed => self.finish(Outcome::Failed(Failure::Malformed)),
                    _ => {
                        self.phase = Phase::CheckingMarker;
                        Action::CheckMarker
                    },
                },
                _ => self.finish(Outcome::Failed(Failure::File(HostFile::Mounts))),
            },
            Phase::CheckingMarker => match event {
                Event::Flag(there) => if there {
                    self.phase = Phase::ReadingUser;
                    Action::Lookup(single("LOGNAME"))
                } else {
                    self.finish(Outcome::NotVirtualized)
                },
                _ => self.finish(Outcome::Failed(Failure::Marker)),
            },
            Phase::ReadingUser => match event {
                Event::Values(vs) => match first_value(&vs) {
                    Some(name) => {
                        self.user = name;
                        self.phase = Phase::Locating;
                        Action::Locate
                    },
                    None => self.finish(Outcome::Failed(Failure::Variable)),
                },
                _ => self.finish(Outcome::Failed(Failure::Variable)),
            },
            Phase::CheckingInit => match event {
                Event::Flag(there) => if there {
                    self.raise()
                } else {
                    self.finish(Outcome::Failed(Failure::NoInit))
                },
                _ => self.finish(Outcome::Failed(Failure::NoInit)),
            },
            _ => match event {
                Event::Pid(p) => {
                    self.pid = p;
                    self.state = classify(p);
                    self.dispatch()
                },
                _ => self.finish(Outcome::Failed(Failure::Locate)),
            },
        }
    }

    fn privilege_step(&mut self, event: Event) -> (action: Action)
        ensures
            (final(self)@, action@) == privilege_step(old(self)@, event@),
    {
        match event {
            Event::Done => match self.phase {
                Phase::RaisingGroup => {
                    self.phase = Phase::RaisingUser;
                    Action::SetUser(0)
                },
                Phase::RaisingUser => {
                    self.raised = true;
                    match self.request.operation {
                        Operation::Cleanup => self.begin_cleanup(),
                        Operation::Init => self.begin_init(),
                        _ => match self.state {
                            BottleState::Absent => self.begin_init(),
                            _ => self.begin_entry(),
                        },
                    }
                },
                Phase::DroppingGroup => {
                    self.phase = Phase::DroppingUser;
                    Action::SetUser(self.request.caller.uid)
                },
                _ => {
                    let outcome = self.outcome;
                    self.finish(outcome)
                },
            },
            _ => self.finish(Outcome::Failed(Failure::Privilege)),
        }
    }

    fn backup_step(&mut self, event: Event) -> (action: Action)
        ensures
            (final(self)@, action@) == backup_step(old(self)@, event@),
    {
        match self.phase {
            Phase::ReadingHostnameBackup => match event {
                Event::Text(t) => {
                    self.host_name = read_host_name(t.as_str());
                    self.phase = Phase::ReadingHostsBackup;
                    Action::Read(HostFile::HostsBackup)
                },
                Event::Missing => {
                    self.phase = Phase::ReadingHostname;
                    Action::Read(HostFile::Hostname)
                },
                _ => self.fail(Failure::File(HostFile::HostnameBackup)),
            },
            Phase::ReadingHostname => match event {
                Event::Text(t) => {
                    self.host_name = read_host_name(t.as_str());
                    self.phase = Phase::SavingHostname;
                    Action::Write(HostFile::HostnameBackup, t)
                },
                _ => self.fail(Failure::File(HostFile::Hostname)),
            },
            Phase::SavingHostname => match event {
                Event::Done => {
                    self.phase = Phase::ReadingHostsBackup;
                    Action::Read(HostFile::HostsBackup)
                },
                _ => self.fail(Failure::File(HostFile::HostnameBackup)),
            },
            Phase::ReadingHostsBackup => match event {
                Event::Text(_) => self.stage_hostname(),
                Event::Missing => {
                    self.phase = Phase::ReadingHostsLive;
                    Action::Read(HostFile::Hosts)
                },
                _ => self.fail(Failure::File(HostFile::HostsBackup)),
            },
            Phase::ReadingHostsLive => match event {
                Event::Text(t) => {
                    self.phase = Phase::SavingHosts;
                    Action::Write(HostFile::HostsBackup, t)
                },
                _ => self.fail(Failure::File(HostFile::Hosts)),
            },
            _ => match event {
                Event::Done => self.stage_hostname(),
                _ => self.fail(Failure::File(HostFile::HostsBackup)),
            },
        }
    }

    fn install_step(&mut self, event: Event) -> (action: Action)
        ensures
            (final(self)@, action@) == install_step(old(self)@, event@),
    {
        match self.phase {
            Phase::StagingHostname => match event {
                Event::Done => {
                    self.phase = Phase::BindingHostname;
                    Action::Bind(HostFile::StagedHostname, HostFile::Hostname)
                },
                _ => self.fail(Failure::File(HostFile::StagedHostname)),
            },
            Phase::BindingHostname => match event {
                Event::Done => {
                    self.phase = Phase::ReadingHosts;
                    Action::Read(HostFile::Hosts)
                },
                _ => self.fail(Failure::Mount(HostFile::Hostname)),
            },
            Phase::ReadingHosts => match event {
                Event::Text(t) => {
                    let name = self.bottle_name();
                    let patched = patch_hosts(t.as_str(), self.host_name.as_str(), name.as_str());
                    self.phase = Phase::StagingHosts;
                    Action::Write(HostFile::StagedHosts, patched)
                },
                _ => self.fail(Failure::File(HostFile::Hosts)),
            },
            Phase::StagingHosts => match event {
                Event::Done => {
                    self.phase = Phase::BindingHosts;
                    Action::Bind(HostFile::StagedHosts, HostFile::Hosts)
                },
                _ => self.fail(Failure::File(HostFile::StagedHosts)),
            },
            _ => match event {
                Event::Done => {
                    self.phase = Phase::CapturingEnv;
                    Action::Lookup(allow_list())
                },
                _ => self.fail(Failure::Mount(HostFile::Hosts)),
            },
        }
    }

    fn start_step(&mut self, event: Event) -> (action: Action)
        ensures
            (final(self)@, action@) == start_step(old(self)@, event@),
    {
        match self.phase {
            Phase::CapturingEnv => match event {
                Event::Values(vs) => {
                    let names = allow_list();
                    let saved = save(&names, &vs);
                    assert(texts(saved.missing@).len() == saved.missing.len());
                    if saved.missing.len() > 0 {
                        self.pending_text = saved.text;
                        self.phase = Phase::WarningMissing;
                        Action::Warn(Notice::MissingVariables(saved.missing))
                    } else {
                        self.phase = Phase::SavingEnv;
                        Action::Write(HostFile::SavedEnvironment, saved.text)
                    }
                },
                _ => self.fail(Failure::Variable),
            },
            Phase::WarningMissing => {
                self.phase = Phase::SavingEnv;
                Action::Write(HostFile::SavedEnvironment, self.pending_text.clone())
            },
            Phase::SavingEnv => match event {
                Event::Done => {
                    self.phase = Phase::StartingInit;
                    Action::Spawn(Job::StartInit, start_command(&self.request.config))
                },
                _ => self.fail(Failure::File(HostFile::SavedEnvironment)),
            },
            Phase::StartingInit => match event {
                Event::Done => {
                    self.phase = Phase::AwaitingInit;
                    Action::Locate
                },
                _ => self.fail(Failure::Spawn),
            },
            Phase::AwaitingInit => match event {
                Event::Pid(p) => if p == 0 {
                    self.phase = Phase::PausingForInit;
                    Action::Sleep(POLL_INTERVAL_MS)
                } else {
                    self.pid = p;
                    match self.request.operation {
                        Operation::Init => self.leave(Outcome::Completed),
                        _ => self.begin_entry(),
                    }
                },
                _ => self.fail(Failure::Locate),
            },
            _ => {
                self.phase = Phase::AwaitingInit;
                Action::Locate
            },
        }
    }

    fn entry_step(&mut self, event: Event) -> (action: Action)
        ensures
            (final(self)@, action@) == entry_step(old(self)@, event@),
    {
        match self.phase {
            Phase::ReadingTerminal => match event {
                Event::Values(vs) => match first_value(&vs) {
                    Some(t) => {
                        self.term = t;
                        self.phase = Phase::ReadingSavedEnv;
                        Action::Read(HostFile::SavedEnvironment)
                    },
                    None => self.fail(Failure::Variable),
                },
                _ => self.fail(Failure::Variable),
            },
            Phase::ReadingSavedEnv => {
                let saved = match event {
                    Event::Text(t) => t,
                    _ => String::new(),
                };
                match load(self.term.as_str(), saved.as_str()) {
                    Ok(env) => {
                        self.entries = env.entries;
                        self.names = env.names;
                        if saved.as_str().is_empty() {
                            self.phase = Phase::WarningNoEnv;
                            Action::Warn(Notice::NoSavedEnvironment)
                        } else {
                            self.launch()
                        }
                    },
                    Err(_) => self.fail(Failure::Malformed),
                }
            },
            Phase::WarningNoEnv => self.launch(),
            _ => match event {
                Event::Done => self.leave(Outcome::Completed),
                _ => self.fail(Failure::Launch),
            },
        }
    }

    fn cleanup_step(&mut self, event: Event) -> (action: Action)
        ensures
            (final(self)@, action@) == cleanup_step(old(self)@, event@),
    {
        match self.phase {
            Phase::PoweringOff => match event {
                Event::Done => {
                    self.phase = Phase::AwaitingExit;
                    Action::Locate
                },
                _ => self.fail(Failure::Spawn),
            },
            Phase::AwaitingExit => match event {
                Event::Pid(p) => if p == 0 {
                    self.phase = Phase::UnbindingHostname;
                    Action::Unbind(HostFile::Hostname)
                } else {
                    self.phase = Phase::PausingForExit;
                    Action::Sleep(POLL_INTERVAL_MS)
                },
                _ => self.fail(Failure::Locate),
            },
            Phase::PausingForExit => {
                self.phase = Phase::AwaitingExit;
                Action::Locate
            },
            Phase::UnbindingHostname => {
                self.unbind_failed = match event {
                    Event::Done => false,
                    _ => true,
                };
                self.phase = Phase::UnbindingHosts;
                Action::Unbind(HostFile::Hosts)
            },
            Phase::UnbindingHosts => if self.unbind_failed {
                self.fail(Failure::Mount(HostFile::Hostname))
            } else {
                match event {
                    Event::Done => {
                        self.phase = Phase::ReadingHostsForRestore;
                        Action::Read(HostFile::HostsBackup)
                    },
                    _ => self.fail(Failure::Mount(HostFile::Hosts)),
                }
            },
            Phase::ReadingHostsForRestore => match event {
                Event::Text(t) => {
                    self.phase = Phase::RestoringHosts;
                    Action::Write(HostFile::Hosts, t)
                },
                Event::Missing => self.begin_removal(),
                _ => self.fail(Failure::File(HostFile::HostsBackup)),
            },
            Phase::RestoringHosts => match event {
                Event::Done => self.begin_removal(),
                _ => self.fail(Failure::File(HostFile::Hosts)),
            },
            Phase::Removing(file) => {
                let removed = match event {
                    Event::Done => true,
                    Event::Missing => true,
                    _ => false,
                };
                if removed {
                    match following(file) {
                        Some(next) => {
                            self.phase = Phase::Removing(next);
                            Action::Remove(next)
                        },
                        None => self.leave(Outcome::Completed),
                    }
                } else {
                    self.fail(Failure::File(file))
                }
            },
            _ => self.fail(Failure::Protocol),
        }
    }

    /// Takes the driver's answer to the last action and says what to do
    /// next. The first answer is [`Event::Start`]; after
    /// [`Action::Finish`] every answer gives the same `Finish` again.
    pub fn step(&mut self, event: Event) -> (action: Action)
        ensures
            (final(self)@, action@) == step_model(old(self)@, event@),
    {
        reveal(step_model);
        match self.phase {
            Phase::Idle => self.on_start(event),
            Phase::CheckingMounts
            | Phase::CheckingMarker
            | Phase::ReadingUser
            | Phase::Locating
            | Phase::CheckingInit => self.probe_step(event),
            Phase::RaisingGroup
            | Phase::RaisingUser
            | Phase::DroppingGroup
            | Phase::DroppingUser => self.privilege_step(event),
            Phase::ReadingHostnameBackup
            | Phase::ReadingHostname
            | Phase::SavingHostname
            | Phase::ReadingHostsBackup
            | Phase::ReadingHostsLive
            | Phase::SavingHosts => self.backup_step(event),
            Phase::StagingHostname
            | Phase::BindingHostname
            | Phase::ReadingHosts
            | Phase::StagingHosts
            | Phase::BindingHosts => self.install_step(event),
            Phase::CapturingEnv
            | Phase::WarningMissing
            | Phase::SavingEnv
            | Phase::StartingInit
            | Phase::AwaitingInit
            | Phase::PausingForInit => self.start_step(event),
            Phase::ReadingTerminal
            | Phase::ReadingSavedEnv
            | Phase::WarningNoEnv
            | Phase::Launching => self.entry_step(event),
            Phase::PoweringOff
            | Phase::AwaitingExit
            | Phase::PausingForExit
            | Phase::UnbindingHostname
            | Phase::UnbindingHosts
            | Phase::ReadingHostsForRestore
            | Phase::RestoringHosts
            | Phase::Removing(_) => self.cleanup_step(event),
            Phase::Finished => Action::Finish(self.outcome),
        }
    }
}

/// The file that is removed after `file`; `None` after the last one.
fn following(file: HostFile) -> (next: Option<HostFile>)
    ensures
        next == next_artifact(file),
{
    match file {
        HostFile::SavedEnvironment => Some(HostFile::StagedHosts),
        HostFile::StagedHosts => Some(HostFile::StagedHostname),
        HostFile::StagedHostname => Some(HostFile::HostsBackup),
        HostFile::HostsBackup => Some(HostFile::HostnameBackup),
        _ => None,
    }
}

} // verus!
