//! What the controller and its driver say to each other: the controller
//! asks for one action at a time, the driver performs it and answers with
//! an event.

use crate::chars::texts;
use crate::environ::lookups;
use crate::launch::{Command, CommandModel};
use vstd::prelude::*;

verus! {

/// The operation that the caller asked for.
#[derive(Clone, Copy, Debug, PartialEq, Eq, Structural)]
pub enum Operation {
    /// Make the bottle.
    Init,
    /// Open a login shell in the bottle, making it first if need be.
    Shell,
    /// Run a command in the bottle, making it first if need be.
    Run,
    /// Stop the bottle and put the host back as it was.
    Cleanup,
}

/// A file of the host that the controller reads or changes.
#[derive(Clone, Copy, Debug, PartialEq, Eq, Hash, Structural)]
pub enum HostFile {
    /// The host's hostname file.
    Hostname,
    /// The host's hosts file.
    Hosts,
    /// The copy of the hostname file as it was before the bottle.
    HostnameBackup,
    /// The copy of the hosts file as it was before the bottle.
    HostsBackup,
    /// The virtual hostname file, bound over the hostname file.
    StagedHostname,
    /// The virtual hosts file, bound over the hosts file.
    StagedHosts,
    /// The saved environment.
    SavedEnvironment,
    /// The mount table of the calling process.
    Mounts,
}

/// Whether `file` is one that the bottle leaves on the host: a backup, a
/// virtual file or the saved environment.
pub open spec fn is_artifact(file: HostFile) -> bool {
    ||| file == HostFile::HostnameBackup
    ||| file == HostFile::HostsBackup
    ||| file == HostFile::StagedHostname
    ||| file == HostFile::StagedHosts
    ||| file == HostFile::SavedEnvironment
}

/// Where a [`HostFile`] lies.
pub open spec fn path_model(file: HostFile) -> Seq<char> {
    match file {
        HostFile::Hostname => "/etc/hostname"@,
        HostFile::Hosts => "/etc/hosts"@,
        HostFile::HostnameBackup => "/run/djinn.hostname.orig"@,
        HostFile::HostsBackup => "/run/djinn.hosts.orig"@,
        HostFile::StagedHostname => "/run/djinn.hostname"@,
        HostFile::StagedHosts => "/run/djinn.hosts"@,
        HostFile::SavedEnvironment => "/run/djinn.env"@,
        HostFile::Mounts => "/proc/self/mounts"@,
    }
}

/// The path of `file`.
pub fn path_of(file: HostFile) -> (p: &'static str)
    ensures
        p@ == path_model(file),
{
    match file {
        HostFile::Hostname => "/etc/hostname",
        HostFile::Hosts => "/etc/hosts",
        HostFile::HostnameBackup => "/run/djinn.hostname.orig",
        HostFile::HostsBackup => "/run/djinn.hosts.orig",
        HostFile::StagedHostname => "/run/djinn.hostname",
        HostFile::StagedHosts => "/run/djinn.hosts",
        HostFile::SavedEnvironment => "/run/djinn.env",
        HostFile::Mounts => "/proc/self/mounts",
    }
}

/// The directory whose presence marks the virtualized host.
pub open spec fn marker_path_model() -> Seq<char> {
    "/run/WSL"@
}

/// The path of the directory whose presence marks the virtualized host.
pub fn marker_path() -> (p: &'static str)
    ensures
        p@ == marker_path_model(),
{
    "/run/WSL"
}

/// How long the controller pauses between two looks at the process table,
/// in milliseconds.
pub const POLL_INTERVAL_MS: u64 = 500;

/// A program that the controller has run to its end.
#[derive(Clone, Copy, Debug, PartialEq, Eq, Structural)]
pub enum Job {
    /// Start the init in new namespaces, in the background.
    StartInit,
    /// Ask the init to power off.
    PowerOff,
}

/// How the caller's process is replaced when the bottle is entered.
#[derive(Clone, Copy, Debug, PartialEq, Eq, Structural)]
pub enum Entry {
    /// By a login shell in the bottle's namespaces.
    Shell,
    /// By a command in the bottle's namespaces.
    Command,
    /// By the command itself, found on the search path: the caller is in
    /// the bottle already and no namespace is entered.
    Direct,
}

/// Why an operation could not be carried out.
#[derive(Clone, Copy, Debug, PartialEq, Eq, Structural)]
pub enum Failure {
    /// The group or user id could not be set.
    Privilege,
    /// The file could not be read, written or removed.
    File(HostFile),
    /// The file could not be bound over, or be freed again.
    Mount(HostFile),
    /// The marker directory could not be examined.
    Marker,
    /// The process table could not be read.
    Locate,
    /// A variable that is needed has no value.
    Variable,
    /// The mount table or the saved environment is malformed.
    Malformed,
    /// A program could not be run.
    Spawn,
    /// The shell or command could not be launched.
    Launch,
    /// There is no command to run.
    NoCommand,
    /// The init program is not installed.
    NoInit,
    /// The driver answered a request that was never made.
    Protocol,
}

/// How an operation ended.
#[derive(Clone, Copy, Debug, PartialEq, Eq, Structural)]
pub enum Outcome {
    /// The operation was carried out.
    Completed,
    /// Refused: the caller lacks root privilege.
    NotRoot,
    /// Refused: the host is not the virtualized one that bottles need.
    NotVirtualized,
    /// Nothing to do: the bottle exists already.
    AlreadyExists,
    /// Nothing to do: the caller is inside the bottle already.
    AlreadyInside,
    /// Refused: the bottle cannot be stopped from inside.
    InsideBottle,
    /// Nothing to do: there is no bottle to stop.
    NoBottle,
    /// The operation failed.
    Failed(Failure),
}

/// Something worth telling the user that stops nothing.
#[derive(Clone, Debug, PartialEq, Eq)]
pub enum Notice {
    /// These host variables have no value and were not saved.
    MissingVariables(Vec<String>),
    /// No saved environment was found; only the terminal type is kept.
    NoSavedEnvironment,
}

/// A [`Notice`] with its texts as sequences of characters.
pub enum NoticeModel {
    MissingVariables(Seq<Seq<char>>),
    NoSavedEnvironment,
}

impl View for Notice {
    type V = NoticeModel;

    open spec fn view(&self) -> NoticeModel {
        match self {
            Notice::MissingVariables(names) => NoticeModel::MissingVariables(texts(names@)),
            Notice::NoSavedEnvironment => NoticeModel::NoSavedEnvironment,
        }
    }
}

/// What the driver is asked to do next.
#[derive(Clone, Debug, PartialEq, Eq)]
pub enum Action {
    /// Read the file. Answer `Text` with what it holds, `Missing` if there
    /// is no such file, `Failed` otherwise.
    Read(HostFile),
    /// See whether the marker directory is there. Answer `Flag`.
    CheckMarker,
    /// See whether the init program is installed. Answer `Flag`.
    CheckInit,
    /// Look up these variables in the caller's environment. Answer
    /// `Values`, one value for each name, in order.
    Lookup(Vec<String>),
    /// Scan the process table for the init. Answer `Pid`.
    Locate,
    /// Set the real, effective and saved group id. Answer `Done`.
    SetGroup(u32),
    /// Set the real, effective and saved user id. Answer `Done`.
    SetUser(u32),
    /// Write the text to the file, replacing what it held. Answer `Done`.
    Write(HostFile, String),
    /// Bind the first file over the second. Answer `Done`.
    Bind(HostFile, HostFile),
    /// Take away what is bound over the file. Answer `Done`.
    Unbind(HostFile),
    /// Remove the file. Answer `Done`, or `Missing` if it was not there.
    Remove(HostFile),
    /// Tell the user. Any answer will do.
    Warn(Notice),
    /// Run the program and wait for it to end. Answer `Done`.
    Spawn(Job, Command),
    /// Wait for so many milliseconds. Any answer will do.
    Sleep(u64),
    /// Replace the calling process by the program `argv[0]`, with the
    /// arguments `argv` and the environment `env`. Answer `Done` if the
    /// program was run and has ended.
    Launch(Entry, Vec<String>, Vec<String>),
    /// Stop: the operation has ended in this way.
    Finish(Outcome),
}

/// An [`Action`] with its texts as sequences of characters.
pub enum ActionModel {
    Read(HostFile),
    CheckMarker,
    CheckInit,
    Lookup(Seq<Seq<char>>),
    Locate,
    SetGroup(u32),
    SetUser(u32),
    Write(HostFile, Seq<char>),
    Bind(HostFile, HostFile),
    Unbind(HostFile),
    Remove(HostFile),
    Warn(NoticeModel),
    Spawn(Job, CommandModel),
    Sleep(u64),
    Launch(Entry, Seq<Seq<char>>, Seq<Seq<char>>),
    Finish(Outcome),
}

impl View for Action {
    type V = ActionModel;

    open spec fn view(&self) -> ActionModel {
        match self {
            Action::Read(f) => ActionModel::Read(*f),
            Action::CheckMarker => ActionModel::CheckMarker,
            Action::CheckInit => ActionModel::CheckInit,
            Action::Lookup(names) => ActionModel::Lookup(texts(names@)),
            Action::Locate => ActionModel::Locate,
            Action::SetGroup(g) => ActionModel::SetGroup(*g),
            Action::SetUser(u) => ActionModel::SetUser(*u),
            Action::Write(f, t) => ActionModel::Write(*f, t@),
            Action::Bind(s, t) => ActionModel::Bind(*s, *t),
            Action::Unbind(f) => ActionModel::Unbind(*f),
            Action::Remove(f) => ActionModel::Remove(*f),
            Action::Warn(n) => ActionModel::Warn(n@),
            Action::Spawn(j, c) => ActionModel::Spawn(*j, c@),
            Action::Sleep(ms) => ActionModel::Sleep(*ms),
            Action::Launch(e, argv, env) => ActionModel::Launch(*e, texts(argv@), texts(env@)),
            Action::Finish(o) => ActionModel::Finish(*o),
        }
    }
}

/// What the driver answers.
#[derive(Clone, Debug, PartialEq, Eq)]
pub enum Event {
    /// The operation is to begin.
    Start,
    /// The action was performed.
    Done,
    /// The action could not be performed.
    Failed,
    /// The file is not there.
    Missing,
    /// What the file holds.
    Text(String),
    /// The values of the variables, `None` for one that is not set.
    Values(Vec<Option<String>>),
    /// The process id of the init, 0 if there is none.
    Pid(i32),
    /// Whether what was looked for is there.
    Flag(bool),
}

/// An [`Event`] with its texts as sequences of characters.
pub enum EventModel {
    Start,
    Done,
    Failed,
    Missing,
    Text(Seq<char>),
    Values(Seq<Option<Seq<char>>>),
    Pid(i32),
    Flag(bool),
}

impl View for Event {
    type V = EventModel;

    open spec fn view(&self) -> EventModel {
        match self {
            Event::Start => EventModel::Start,
            Event::Done => EventModel::Done,
            Event::Failed => EventModel::Failed,
            Event::Missing => EventModel::Missing,
            Event::Text(t) => EventModel::Text(t@),
            Event::Values(vs) => EventModel::Values(lookups(vs@)),
            Event::Pid(p) => EventModel::Pid(*p),
            Event::Flag(b) => EventModel::Flag(*b),
        }
    }
}

} // verus!
