use std::collections::HashMap;

use djinn::config::Config;
use djinn::controller::{Controller, Request};
use djinn::launch::Command;
use djinn::machine::{CallerIdentity, Phase};
use djinn::protocol::{
    Action, Entry, Event, Failure, HostFile, Job, Notice, Operation, Outcome, POLL_INTERVAL_MS,
};

/// A host that lives in memory and performs what it is asked.
struct FakeHost {
    files: HashMap<HostFile, String>,
    bound: HashMap<HostFile, HostFile>,
    writes: HashMap<HostFile, u32>,
    env: HashMap<String, String>,
    marker: bool,
    init_installed: bool,
    init_pid: i32,
    next_pid: i32,
    uid: u32,
    gid: u32,
    failing: Vec<Action>,
    log: Vec<Action>,
}

impl FakeHost {
    fn new() -> FakeHost {
        let mut files = HashMap::new();
        files.insert(
            HostFile::Mounts,
            "rootfs / lxfs rw,noatime 0 0\n".replace("lxfs", "ext4")
                + "proc /proc proc rw,nosuid,nodev,noexec,noatime 0 0\n",
        );
        files.insert(HostFile::Hostname, "devbox\n".to_string());
        files.insert(
            HostFile::Hosts,
            "127.0.0.1 localhost\n127.0.1.1 devbox\n10.0.0.5 devboxmirror\n".to_string(),
        );
        let mut env = HashMap::new();
        env.insert("LOGNAME".to_string(), "alice".to_string());
        env.insert("TERM".to_string(), "xterm-256color".to_string());
        env.insert("WSL_DISTRO_NAME".to_string(), "Ubuntu".to_string());
        env.insert("WSL_INTEROP".to_string(), "/run/WSL/8_interop".to_string());
        env.insert("WSLENV".to_string(), "WT_SESSION::WT_PROFILE_ID".to_string());
        FakeHost {
            files,
            bound: HashMap::new(),
            writes: HashMap::new(),
            env,
            marker: true,
            init_installed: true,
            init_pid: 0,
            next_pid: 4242,
            uid: 1000,
            gid: 1000,
            failing: Vec::new(),
            log: Vec::new(),
        }
    }

    fn reached(&self, file: HostFile) -> HostFile {
        match self.bound.get(&file) {
            Some(over) => *over,
            None => file,
        }
    }

    fn shown(&self, file: HostFile) -> Option<&String> {
        self.files.get(&self.reached(file))
    }

    fn perform(&mut self, action: &Action) -> Event {
        if self.failing.contains(action) {
            return Event::Failed;
        }
        match action {
            Action::Read(file) => match self.shown(*file) {
                Some(text) => Event::Text(text.clone()),
                None => Event::Missing,
            },
            Action::CheckMarker => Event::Flag(self.marker),
            Action::CheckInit => Event::Flag(self.init_installed),
            Action::Lookup(names) => {
                Event::Values(names.iter().map(|n| self.env.get(n).cloned()).collect())
            }
            Action::Locate => Event::Pid(self.init_pid),
            Action::SetGroup(gid) => {
                self.gid = *gid;
                Event::Done
            }
            Action::SetUser(uid) => {
                self.uid = *uid;
                Event::Done
            }
            Action::Write(file, text) => {
                let target = self.reached(*file);
                self.files.insert(target, text.clone());
                *self.writes.entry(target).or_insert(0) += 1;
                Event::Done
            }
            Action::Bind(source, target) => {
                self.bound.insert(*target, *source);
                Event::Done
            }
            Action::Unbind(target) => match self.bound.remove(target) {
                Some(_) => Event::Done,
                None => Event::Failed,
            },
            Action::Remove(file) => match self.files.remove(file) {
                Some(_) => Event::Done,
                None => Event::Missing,
            },
            Action::Warn(_) => Event::Done,
            Action::Spawn(job, _) => {
                match job {
                    Job::StartInit => self.init_pid = self.next_pid,
                    Job::PowerOff => self.init_pid = 0,
                }
                Event::Done
            }
            Action::Sleep(_) => Event::Done,
            Action::Launch(_, _, _) => Event::Done,
            Action::Finish(_) => Event::Done,
        }
    }
}

fn request(operation: Operation) -> Request {
    Request {
        operation,
        command: Vec::new(),
        working_dir: "/home/alice/src".to_string(),
        effective_uid: 0,
        caller: CallerIdentity { uid: 1000, gid: 1000 },
        config: Config::default(),
    }
}

fn run_request(command: &[&str]) -> Request {
    let mut r = request(Operation::Run);
    r.command = command.iter().map(|s| s.to_string()).collect();
    r
}

fn drive(request: Request, host: &mut FakeHost) -> Outcome {
    let mut controller = Controller::new(request);
    let mut event = Event::Start;
    for _ in 0..200 {
        let action = controller.step(event);
        host.log.push(action.clone());
        if let Action::Finish(outcome) = action {
            assert!(controller.is_finished());
            assert!(!controller.raised);
            return outcome;
        }
        event = host.perform(&action);
    }
    panic!("the controller did not finish");
}

fn strings(items: &[&str]) -> Vec<String> {
    items.iter().map(|s| s.to_string()).collect()
}

fn position(log: &[Action], wanted: &Action) -> usize {
    match log.iter().position(|a| a == wanted) {
        Some(i) => i,
        None => panic!("{:?} was never asked for", wanted),
    }
}

#[test]
fn init_virtualizes_hostname_and_hosts() {
    let mut host = FakeHost::new();
    assert_eq!(drive(request(Operation::Init), &mut host), Outcome::Completed);
    assert_eq!(host.files[&HostFile::StagedHostname], "devbox-wsl\n");
    assert_eq!(
        host.files[&HostFile::StagedHosts],
        "127.0.0.1 localhost\n127.0.1.1\tdevbox-wsl\n10.0.0.5 devboxmirror\n"
    );
    assert_eq!(host.bound[&HostFile::Hostname], HostFile::StagedHostname);
    assert_eq!(host.bound[&HostFile::Hosts], HostFile::StagedHosts);
    assert_eq!(host.files[&HostFile::Hostname], "devbox\n");
    assert_eq!(host.shown(HostFile::Hostname).unwrap(), "devbox-wsl\n");
    assert_eq!(host.init_pid, 4242);
    assert_eq!((host.uid, host.gid), (1000, 1000));
}

#[test]
fn init_asks_for_its_actions_in_order() {
    let mut host = FakeHost::new();
    drive(request(Operation::Init), &mut host);
    let start = Command {
        program: "/usr/sbin/daemonize".to_string(),
        args: strings(&[
            "/usr/bin/unshare",
            "-fp",
            "--propagation",
            "shared",
            "--mount-proc",
            "/lib/systemd/systemd",
        ]),
    };
    let expected = vec![
        Action::Read(HostFile::Mounts),
        Action::CheckMarker,
        Action::Lookup(strings(&["LOGNAME"])),
        Action::Locate,
        Action::CheckInit,
        Action::SetGroup(0),
        Action::SetUser(0),
        Action::Read(HostFile::HostnameBackup),
        Action::Read(HostFile::Hostname),
        Action::Write(HostFile::HostnameBackup, "devbox\n".to_string()),
        Action::Read(HostFile::HostsBackup),
        Action::Read(HostFile::Hosts),
        Action::Write(
            HostFile::HostsBackup,
            "127.0.0.1 localhost\n127.0.1.1 devbox\n10.0.0.5 devboxmirror\n".to_string(),
        ),
        Action::Write(HostFile::StagedHostname, "devbox-wsl\n".to_string()),
        Action::Bind(HostFile::StagedHostname, HostFile::Hostname),
        Action::Read(HostFile::Hosts),
        Action::Write(
            HostFile::StagedHosts,
            "127.0.0.1 localhost\n127.0.1.1\tdevbox-wsl\n10.0.0.5 devboxmirror\n".to_string(),
        ),
        Action::Bind(HostFile::StagedHosts, HostFile::Hosts),
        Action::Lookup(strings(&["WSL_DISTRO_NAME", "WSL_INTEROP", "WSLENV"])),
        Action::Write(
            HostFile::SavedEnvironment,
            "INSIDE_DJINN=true\nWSL_DISTRO_NAME=Ubuntu\nWSL_INTEROP=/run/WSL/8_interop\nWSLENV=WT_SESSION::WT_PROFILE_ID\n"
                .to_string(),
        ),
        Action::Spawn(Job::StartInit, start),
        Action::Locate,
        Action::SetGroup(1000),
        Action::SetUser(1000),
        Action::Finish(Outcome::Completed),
    ];
    assert_eq!(host.log, expected);
}

#[test]
fn init_with_a_bottle_has_nothing_to_do() {
    let mut host = FakeHost::new();
    host.init_pid = 77;
    assert_eq!(drive(request(Operation::Init), &mut host), Outcome::AlreadyExists);
    assert_eq!(
        host.log,
        vec![
            Action::Read(HostFile::Mounts),
            Action::CheckMarker,
            Action::Lookup(strings(&["LOGNAME"])),
            Action::Locate,
            Action::Finish(Outcome::AlreadyExists),
        ]
    );
    host.log.clear();
    host.init_pid = 1;
    assert_eq!(drive(request(Operation::Init), &mut host), Outcome::AlreadyExists);
    assert!(host.writes.is_empty());
}

#[test]
fn repeated_init_writes_each_backup_once() {
    let mut host = FakeHost::new();
    let hostname = host.files[&HostFile::Hostname].clone();
    let hosts = host.files[&HostFile::Hosts].clone();
    assert_eq!(drive(request(Operation::Init), &mut host), Outcome::Completed);
    for round in 0..4 {
        if round % 2 == 0 {
            host.init_pid = 0;
        }
        let outcome = drive(request(Operation::Init), &mut host);
        if round % 2 == 0 {
            assert_eq!(outcome, Outcome::Completed);
        } else {
            assert_eq!(outcome, Outcome::AlreadyExists);
        }
        assert_eq!(host.files[&HostFile::HostnameBackup], hostname);
        assert_eq!(host.files[&HostFile::HostsBackup], hosts);
        assert_eq!(host.writes[&HostFile::HostnameBackup], 1);
        assert_eq!(host.writes[&HostFile::HostsBackup], 1);
    }
    assert_eq!(host.files[&HostFile::StagedHostname], "devbox-wsl\n");
    assert_eq!(
        host.files[&HostFile::StagedHosts],
        "127.0.0.1 localhost\n127.0.1.1\tdevbox-wsl\n10.0.0.5 devboxmirror\n"
    );
}

#[test]
fn init_after_a_crash_names_the_bottle_after_the_backup() {
    let mut host = FakeHost::new();
    drive(request(Operation::Init), &mut host);
    host.init_pid = 0;
    host.log.clear();
    drive(request(Operation::Init), &mut host);
    assert!(!host.log.contains(&Action::Read(HostFile::Hostname)));
    assert!(host
        .log
        .contains(&Action::Write(HostFile::StagedHostname, "devbox-wsl\n".to_string())));
}

#[test]
fn cleanup_after_init_puts_the_host_back() {
    let mut host = FakeHost::new();
    let before = host.files.clone();
    assert_eq!(drive(request(Operation::Init), &mut host), Outcome::Completed);
    let backup = host.files[&HostFile::HostsBackup].clone();
    host.log.clear();
    assert_eq!(drive(request(Operation::Cleanup), &mut host), Outcome::Completed);
    assert_eq!(host.files[&HostFile::Hosts], backup);
    assert_eq!(host.files, before);
    assert!(host.bound.is_empty());
    assert_eq!(host.init_pid, 0);
    assert_eq!((host.uid, host.gid), (1000, 1000));
    for file in [
        HostFile::HostnameBackup,
        HostFile::HostsBackup,
        HostFile::StagedHostname,
        HostFile::StagedHosts,
        HostFile::SavedEnvironment,
    ] {
        assert!(!host.files.contains_key(&file));
        assert!(host.log.contains(&Action::Remove(file)));
    }
}

#[test]
fn cleanup_asks_for_its_actions_in_order() {
    let mut host = FakeHost::new();
    drive(request(Operation::Init), &mut host);
    host.log.clear();
    drive(request(Operation::Cleanup), &mut host);
    let poweroff = Command {
        program: "/usr/bin/nsenter".to_string(),
        args: strings(&[
            "/usr/bin/nsenter",
            "-t",
            "4242",
            "-m",
            "-p",
            "/usr/sbin/systemctl",
            "poweroff",
        ]),
    };
    let expected = vec![
        Action::Read(HostFile::Mounts),
        Action::CheckMarker,
        Action::Lookup(strings(&["LOGNAME"])),
        Action::Locate,
        Action::SetGroup(0),
        Action::SetUser(0),
        Action::Spawn(Job::PowerOff, poweroff),
        Action::Locate,
        Action::Unbind(HostFile::Hostname),
        Action::Unbind(HostFile::Hosts),
        Action::Read(HostFile::HostsBackup),
        Action::Write(
            HostFile::Hosts,
            "127.0.0.1 localhost\n127.0.1.1 devbox\n10.0.0.5 devboxmirror\n".to_string(),
        ),
        Action::Remove(HostFile::SavedEnvironment),
        Action::Remove(HostFile::StagedHosts),
        Action::Remove(HostFile::StagedHostname),
        Action::Remove(HostFile::HostsBackup),
        Action::Remove(HostFile::HostnameBackup),
        Action::SetGroup(1000),
        Action::SetUser(1000),
        Action::Finish(Outcome::Completed),
    ];
    assert_eq!(host.log, expected);
}

#[test]
fn cleanup_without_a_bottle_has_nothing_to_do() {
    let mut host = FakeHost::new();
    assert_eq!(drive(request(Operation::Cleanup), &mut host), Outcome::NoBottle);
    assert!(!host.log.iter().any(|a| matches!(a, Action::SetGroup(_) | Action::SetUser(_))));
}

#[test]
fn cleanup_from_inside_is_refused() {
    let mut host = FakeHost::new();
    host.init_pid = 1;
    assert_eq!(drive(request(Operation::Cleanup), &mut host), Outcome::InsideBottle);
    assert_eq!(host.log.len(), 5);
}

#[test]
fn cleanup_tries_to_free_both_files() {
    let mut host = FakeHost::new();
    drive(request(Operation::Init), &mut host);
    host.log.clear();
    host.failing.push(Action::Unbind(HostFile::Hostname));
    let outcome = drive(request(Operation::Cleanup), &mut host);
    assert_eq!(outcome, Outcome::Failed(Failure::Mount(HostFile::Hostname)));
    let first = position(&host.log, &Action::Unbind(HostFile::Hostname));
    assert_eq!(host.log[first + 1], Action::Unbind(HostFile::Hosts));
    assert_eq!(host.log[first + 2], Action::SetGroup(1000));
    assert_eq!(host.log[first + 3], Action::SetUser(1000));
    assert!(!host.log.iter().any(|a| matches!(a, Action::Remove(_) | Action::Write(_, _))));
    assert!(host.files.contains_key(&HostFile::HostsBackup));
}

#[test]
fn cleanup_reports_the_second_file_that_stays_bound() {
    let mut host = FakeHost::new();
    drive(request(Operation::Init), &mut host);
    host.failing.push(Action::Unbind(HostFile::Hosts));
    let outcome = drive(request(Operation::Cleanup), &mut host);
    assert_eq!(outcome, Outcome::Failed(Failure::Mount(HostFile::Hosts)));
    assert_eq!((host.uid, host.gid), (1000, 1000));
}

#[test]
fn cleanup_waits_until_the_init_is_gone() {
    let mut host = FakeHost::new();
    drive(request(Operation::Init), &mut host);
    let mut controller = Controller::new(request(Operation::Cleanup));
    let mut event = Event::Start;
    let mut answers = vec![4242, 4242, 4242, 0];
    let mut log = Vec::new();
    loop {
        let action = controller.step(event);
        log.push(action.clone());
        if let Action::Finish(outcome) = action {
            assert_eq!(outcome, Outcome::Completed);
            break;
        }
        event = host.perform(&action);
        if controller.phase == Phase::AwaitingExit {
            event = Event::Pid(answers.remove(0));
        }
    }
    let spawn = log.iter().position(|a| matches!(a, Action::Spawn(_, _))).unwrap();
    assert_eq!(
        log[spawn + 1..spawn + 8],
        [
            Action::Locate,
            Action::Sleep(POLL_INTERVAL_MS),
            Action::Locate,
            Action::Sleep(POLL_INTERVAL_MS),
            Action::Locate,
            Action::Sleep(POLL_INTERVAL_MS),
            Action::Locate,
        ]
    );
    assert_eq!(log[spawn + 8], Action::Unbind(HostFile::Hostname));
    assert_eq!(log.iter().filter(|a| **a == Action::Sleep(500)).count(), 3);
}

#[test]
fn init_waits_until_the_init_is_seen() {
    let mut host = FakeHost::new();
    let mut controller = Controller::new(request(Operation::Init));
    let mut event = Event::Start;
    let mut sleeps = 0;
    let mut answers = vec![0, 0, 0, 0, 4242];
    loop {
        let action = controller.step(event);
        if let Action::Finish(outcome) = action {
            assert_eq!(outcome, Outcome::Completed);
            break;
        }
        event = host.perform(&action);
        if controller.phase == Phase::AwaitingInit {
            event = Event::Pid(answers.remove(0));
        }
        if let Action::Sleep(ms) = action {
            assert_eq!(ms, 500);
            sleeps += 1;
        }
    }
    assert_eq!(sleeps, 4);
    assert_eq!(controller.pid, 4242);
}

#[test]
fn shell_enters_an_existing_bottle() {
    let mut host = FakeHost::new();
    drive(request(Operation::Init), &mut host);
    host.log.clear();
    assert_eq!(drive(request(Operation::Shell), &mut host), Outcome::Completed);
    let launch = Action::Launch(
        Entry::Shell,
        strings(&[
            "/usr/bin/nsenter",
            "-t",
            "4242",
            "-m",
            "-p",
            "/sbin/runuser",
            "-l",
            "alice",
            "-w",
            "TERM,INSIDE_DJINN,WSL_DISTRO_NAME,WSL_INTEROP,WSLENV",
        ]),
        strings(&[
            "TERM=xterm-256color",
            "INSIDE_DJINN=true",
            "WSL_DISTRO_NAME=Ubuntu",
            "WSL_INTEROP=/run/WSL/8_interop",
            "WSLENV=WT_SESSION::WT_PROFILE_ID",
        ]),
    );
    assert_eq!(
        host.log,
        vec![
            Action::Read(HostFile::Mounts),
            Action::CheckMarker,
            Action::Lookup(strings(&["LOGNAME"])),
            Action::Locate,
            Action::SetGroup(0),
            Action::SetUser(0),
            Action::Lookup(strings(&["TERM"])),
            Action::Read(HostFile::SavedEnvironment),
            launch,
            Action::SetGroup(1000),
            Action::SetUser(1000),
            Action::Finish(Outcome::Completed),
        ]
    );
}

#[test]
fn shell_makes_the_bottle_first_if_there_is_none() {
    let mut host = FakeHost::new();
    assert_eq!(drive(request(Operation::Shell), &mut host), Outcome::Completed);
    let spawn = host.log.iter().position(|a| matches!(a, Action::Spawn(Job::StartInit, _)));
    let launch = host.log.iter().position(|a| matches!(a, Action::Launch(Entry::Shell, _, _)));
    assert!(spawn.unwrap() < launch.unwrap());
    match &host.log[launch.unwrap()] {
        Action::Launch(_, argv, _) => assert_eq!(argv[2], "4242"),
        other => panic!("unexpected {:?}", other),
    }
    let raises = host.log.iter().filter(|a| **a == Action::SetUser(0)).count();
    assert_eq!(raises, 1);
}

#[test]
fn shell_uses_the_terminal_of_this_invocation() {
    let mut host = FakeHost::new();
    drive(request(Operation::Init), &mut host);
    host.env.insert("TERM".to_string(), "vt100".to_string());
    host.env.insert("WSLENV".to_string(), "changed-later".to_string());
    host.log.clear();
    drive(request(Operation::Shell), &mut host);
    let launch = host.log.iter().find(|a| matches!(a, Action::Launch(_, _, _))).unwrap();
    match launch {
        Action::Launch(_, _, env) => {
            assert_eq!(env[0], "TERM=vt100");
            assert!(env.contains(&"WSLENV=WT_SESSION::WT_PROFILE_ID".to_string()));
        }
        other => panic!("unexpected {:?}", other),
    }
}

#[test]
fn shell_inside_the_bottle_short_circuits() {
    let mut host = FakeHost::new();
    host.init_pid = 1;
    assert_eq!(drive(request(Operation::Shell), &mut host), Outcome::AlreadyInside);
    assert!(!host
        .log
        .iter()
        .any(|a| matches!(a, Action::Launch(_, _, _) | Action::Spawn(_, _) | Action::SetUser(_))));
}

#[test]
fn run_inside_the_bottle_launches_the_command_itself() {
    let mut host = FakeHost::new();
    host.init_pid = 1;
    host.files.insert(HostFile::SavedEnvironment, "INSIDE_DJINN=true\nWSLENV=x\n".to_string());
    assert_eq!(drive(run_request(&["ls", "-l"]), &mut host), Outcome::Completed);
    assert_eq!(
        host.log,
        vec![
            Action::Read(HostFile::Mounts),
            Action::CheckMarker,
            Action::Lookup(strings(&["LOGNAME"])),
            Action::Locate,
            Action::Lookup(strings(&["TERM"])),
            Action::Read(HostFile::SavedEnvironment),
            Action::Launch(
                Entry::Direct,
                strings(&["ls", "-l"]),
                strings(&["TERM=xterm-256color", "INSIDE_DJINN=true", "WSLENV=x"]),
            ),
            Action::Finish(Outcome::Completed),
        ]
    );
}

#[test]
fn run_hands_the_working_directory_into_the_bottle() {
    let mut host = FakeHost::new();
    drive(request(Operation::Init), &mut host);
    host.log.clear();
    assert_eq!(drive(run_request(&["make", "-j", "4"]), &mut host), Outcome::Completed);
    let launch = host.log.iter().find(|a| matches!(a, Action::Launch(_, _, _))).unwrap();
    match launch {
        Action::Launch(entry, argv, env) => {
            assert_eq!(*entry, Entry::Command);
            assert_eq!(
                *argv,
                strings(&[
                    "/usr/bin/nsenter",
                    "-t",
                    "4242",
                    "--wd=/home/alice/src",
                    "-m",
                    "-p",
                    "/sbin/runuser",
                    "-u",
                    "alice",
                    "--",
                    "make",
                    "-j",
                    "4",
                ])
            );
            assert_eq!(env.len(), 5);
        }
        other => panic!("unexpected {:?}", other),
    }
}

#[test]
fn run_without_a_command_is_refused() {
    let mut host = FakeHost::new();
    let outcome = drive(run_request(&[]), &mut host);
    assert_eq!(outcome, Outcome::Failed(Failure::NoCommand));
    assert_eq!(host.log.len(), 1);
}

#[test]
fn launch_that_fails_gives_the_privilege_back() {
    let mut host = FakeHost::new();
    drive(request(Operation::Init), &mut host);
    host.log.clear();
    let mut controller = Controller::new(request(Operation::Shell));
    let mut event = Event::Start;
    let mut actions = Vec::new();
    loop {
        let action = controller.step(event);
        actions.push(action.clone());
        event = match &action {
            Action::Finish(outcome) => {
                assert_eq!(*outcome, Outcome::Failed(Failure::Launch));
                break;
            }
            Action::Launch(_, _, _) => Event::Failed,
            other => host.perform(other),
        };
    }
    let n = actions.len();
    assert_eq!(actions[n - 3], Action::SetGroup(1000));
    assert_eq!(actions[n - 2], Action::SetUser(1000));
}

#[test]
fn missing_saved_environment_is_warned_about() {
    let mut host = FakeHost::new();
    host.init_pid = 99;
    assert_eq!(drive(request(Operation::Shell), &mut host), Outcome::Completed);
    let warn = position(&host.log, &Action::Warn(Notice::NoSavedEnvironment));
    match &host.log[warn + 1] {
        Action::Launch(Entry::Shell, argv, env) => {
            assert_eq!(argv[9], "TERM");
            assert_eq!(*env, strings(&["TERM=xterm-256color"]));
        }
        other => panic!("unexpected {:?}", other),
    }
}

#[test]
fn malformed_saved_environment_fails() {
    let mut host = FakeHost::new();
    host.init_pid = 99;
    host.files.insert(HostFile::SavedEnvironment, "INSIDE_DJINN=true\nbroken\n".to_string());
    let outcome = drive(request(Operation::Shell), &mut host);
    assert_eq!(outcome, Outcome::Failed(Failure::Malformed));
    assert!(!host.log.iter().any(|a| matches!(a, Action::Launch(_, _, _))));
    assert_eq!((host.uid, host.gid), (1000, 1000));
}

#[test]
fn missing_terminal_fails() {
    let mut host = FakeHost::new();
    host.init_pid = 99;
    host.env.remove("TERM");
    let outcome = drive(request(Operation::Shell), &mut host);
    assert_eq!(outcome, Outcome::Failed(Failure::Variable));
}

#[test]
fn missing_host_variables_are_warned_about_and_left_out() {
    let mut host = FakeHost::new();
    host.env.remove("WSL_INTEROP");
    host.env.remove("WSLENV");
    assert_eq!(drive(request(Operation::Init), &mut host), Outcome::Completed);
    let warn = position(
        &host.log,
        &Action::Warn(Notice::MissingVariables(strings(&["WSL_INTEROP", "WSLENV"]))),
    );
    assert_eq!(
        host.log[warn + 1],
        Action::Write(
            HostFile::SavedEnvironment,
            "INSIDE_DJINN=true\nWSL_DISTRO_NAME=Ubuntu\n".to_string()
        )
    );
}

#[test]
fn missing_init_program_fails_before_anything_is_changed() {
    for operation in [Operation::Init, Operation::Shell, Operation::Run] {
        let mut host = FakeHost::new();
        host.init_installed = false;
        let mut r = request(operation);
        r.command = strings(&["true"]);
        assert_eq!(drive(r, &mut host), Outcome::Failed(Failure::NoInit));
        assert_eq!(
            host.log,
            vec![
                Action::Read(HostFile::Mounts),
                Action::CheckMarker,
                Action::Lookup(strings(&["LOGNAME"])),
                Action::Locate,
                Action::CheckInit,
                Action::Finish(Outcome::Failed(Failure::NoInit)),
            ]
        );
        assert!(host.writes.is_empty() && host.bound.is_empty());
    }
}

#[test]
fn init_program_is_not_looked_for_when_the_bottle_exists() {
    for operation in [Operation::Shell, Operation::Run, Operation::Cleanup] {
        let mut host = FakeHost::new();
        drive(request(Operation::Init), &mut host);
        host.init_installed = false;
        host.log.clear();
        let mut r = request(operation);
        r.command = strings(&["true"]);
        assert_eq!(drive(r, &mut host), Outcome::Completed);
        assert!(!host.log.contains(&Action::CheckInit));
    }
}

#[test]
fn caller_without_root_is_refused() {
    let mut host = FakeHost::new();
    let mut r = request(Operation::Init);
    r.effective_uid = 1000;
    assert_eq!(drive(r, &mut host), Outcome::NotRoot);
    assert_eq!(host.log, vec![Action::Finish(Outcome::NotRoot)]);
}

#[test]
fn translated_root_filesystem_is_refused() {
    for kind in ["lxfs", "wslfs"] {
        let mut host = FakeHost::new();
        host.files.insert(
            HostFile::Mounts,
            format!("sysfs /sys sysfs rw 0 0\nrootfs / {} rw,noatime 0 0\n", kind),
        );
        assert_eq!(drive(request(Operation::Init), &mut host), Outcome::NotVirtualized);
        assert_eq!(host.log.len(), 2);
    }
}

#[test]
fn unreadable_mount_table_fails() {
    let mut host = FakeHost::new();
    host.files.remove(&HostFile::Mounts);
    let outcome = drive(request(Operation::Init), &mut host);
    assert_eq!(outcome, Outcome::Failed(Failure::File(HostFile::Mounts)));
    let mut host = FakeHost::new();
    host.files.insert(HostFile::Mounts, "short\n".to_string());
    let outcome = drive(request(Operation::Init), &mut host);
    assert_eq!(outcome, Outcome::Failed(Failure::Malformed));
}

#[test]
fn host_without_marker_is_refused() {
    let mut host = FakeHost::new();
    host.marker = false;
    assert_eq!(drive(request(Operation::Shell), &mut host), Outcome::NotVirtualized);
    assert_eq!(host.log.len(), 3);
}

#[test]
fn missing_login_name_fails() {
    let mut host = FakeHost::new();
    host.env.remove("LOGNAME");
    let outcome = drive(request(Operation::Init), &mut host);
    assert_eq!(outcome, Outcome::Failed(Failure::Variable));
}

#[test]
fn group_is_set_before_user() {
    let mut host = FakeHost::new();
    let mut r = request(Operation::Init);
    r.caller = CallerIdentity { uid: 1000, gid: 1000 };
    drive(r, &mut host);
    let users: Vec<usize> = host
        .log
        .iter()
        .enumerate()
        .filter(|(_, a)| matches!(a, Action::SetUser(_)))
        .map(|(i, _)| i)
        .collect();
    assert_eq!(users.len(), 2);
    assert_eq!(host.log[users[0] - 1], Action::SetGroup(0));
    assert_eq!(host.log[users[0]], Action::SetUser(0));
    assert_eq!(host.log[users[1] - 1], Action::SetGroup(1000));
    assert_eq!(host.log[users[1]], Action::SetUser(1000));
}

#[test]
fn caller_identity_is_restored_as_given() {
    let mut host = FakeHost::new();
    let mut r = request(Operation::Init);
    r.caller = CallerIdentity { uid: 1001, gid: 27 };
    drive(r, &mut host);
    assert_eq!((host.uid, host.gid), (1001, 27));
    let n = host.log.len();
    assert_eq!(host.log[n - 3], Action::SetGroup(27));
    assert_eq!(host.log[n - 2], Action::SetUser(1001));
}

#[test]
fn failed_group_change_is_fatal_and_skips_the_user() {
    let mut host = FakeHost::new();
    host.failing.push(Action::SetGroup(0));
    let outcome = drive(request(Operation::Init), &mut host);
    assert_eq!(outcome, Outcome::Failed(Failure::Privilege));
    assert!(!host.log.iter().any(|a| matches!(a, Action::SetUser(_))));
    assert_eq!(host.log.last(), Some(&Action::Finish(Outcome::Failed(Failure::Privilege))));
    assert!(host.writes.is_empty());
}

#[test]
fn failed_group_drop_is_fatal_and_skips_the_user() {
    let mut host = FakeHost::new();
    host.failing.push(Action::SetGroup(1000));
    let outcome = drive(request(Operation::Init), &mut host);
    assert_eq!(outcome, Outcome::Failed(Failure::Privilege));
    assert!(!host.log.contains(&Action::SetUser(1000)));
    let n = host.log.len();
    assert_eq!(host.log[n - 2], Action::SetGroup(1000));
}

#[test]
fn failed_user_change_is_fatal() {
    let mut host = FakeHost::new();
    host.failing.push(Action::SetUser(0));
    let outcome = drive(request(Operation::Cleanup), &mut host);
    assert_eq!(outcome, Outcome::NoBottle);
    host.init_pid = 50;
    host.log.clear();
    let outcome = drive(request(Operation::Cleanup), &mut host);
    assert_eq!(outcome, Outcome::Failed(Failure::Privilege));
    assert!(!host.log.iter().any(|a| matches!(a, Action::Spawn(_, _))));
}

#[test]
fn failed_bind_gives_the_privilege_back_and_fails() {
    let mut host = FakeHost::new();
    host.failing.push(Action::Bind(HostFile::StagedHosts, HostFile::Hosts));
    let outcome = drive(request(Operation::Init), &mut host);
    assert_eq!(outcome, Outcome::Failed(Failure::Mount(HostFile::Hosts)));
    assert_eq!((host.uid, host.gid), (1000, 1000));
    assert!(host.bound.contains_key(&HostFile::Hostname));
    assert!(!host.log.iter().any(|a| matches!(a, Action::Spawn(_, _))));
    let n = host.log.len();
    assert_eq!(host.log[n - 3], Action::SetGroup(1000));
    assert_eq!(host.log[n - 2], Action::SetUser(1000));
}

#[test]
fn half_made_bottle_is_completed_by_the_next_init() {
    let mut host = FakeHost::new();
    let hosts = host.files[&HostFile::Hosts].clone();
    host.failing.push(Action::Read(HostFile::Hosts));
    let outcome = drive(request(Operation::Init), &mut host);
    assert_eq!(outcome, Outcome::Failed(Failure::File(HostFile::Hosts)));
    assert!(host.files.contains_key(&HostFile::HostnameBackup));
    assert!(!host.files.contains_key(&HostFile::HostsBackup));
    host.failing.clear();
    assert_eq!(drive(request(Operation::Init), &mut host), Outcome::Completed);
    assert_eq!(host.files[&HostFile::HostsBackup], hosts);
    assert_eq!(host.writes[&HostFile::HostnameBackup], 1);
}

#[test]
fn finished_controller_repeats_its_outcome() {
    let mut controller = Controller::new(request(Operation::Init));
    assert!(!controller.is_finished());
    assert_eq!(controller.step(Event::Done), Action::Finish(Outcome::Failed(Failure::Protocol)));
    assert!(controller.is_finished());
    for event in [Event::Start, Event::Pid(3), Event::Text("x".to_string())] {
        assert_eq!(controller.step(event), Action::Finish(Outcome::Failed(Failure::Protocol)));
    }
}

#[test]
fn suffix_comes_from_the_settings() {
    let mut host = FakeHost::new();
    let mut r = request(Operation::Init);
    r.config.suffix = ".bottle".to_string();
    r.config.daemonize = "/opt/daemonize".to_string();
    r.config.unshare = "/opt/unshare".to_string();
    drive(r, &mut host);
    assert_eq!(host.files[&HostFile::StagedHostname], "devbox.bottle\n");
    let spawn = host.log.iter().find(|a| matches!(a, Action::Spawn(_, _))).unwrap();
    match spawn {
        Action::Spawn(Job::StartInit, command) => {
            assert_eq!(command.program, "/opt/daemonize");
            assert_eq!(command.args[0], "/opt/unshare");
        }
        other => panic!("unexpected {:?}", other),
    }
}

#[test]
fn marker_that_cannot_be_examined_fails() {
    let mut host = FakeHost::new();
    host.failing.push(Action::CheckMarker);
    assert_eq!(drive(request(Operation::Init), &mut host), Outcome::Failed(Failure::Marker));
    assert_eq!(host.log.len(), 3);
}

#[test]
fn process_table_that_cannot_be_read_fails() {
    let mut host = FakeHost::new();
    host.failing.push(Action::Locate);
    assert_eq!(drive(request(Operation::Shell), &mut host), Outcome::Failed(Failure::Locate));
    assert_eq!(host.log.len(), 5);
    assert!(!host.log.iter().any(|a| matches!(a, Action::SetGroup(_))));
}

#[test]
fn init_that_cannot_be_started_fails_with_the_privilege_given_back() {
    let mut host = FakeHost::new();
    let start = djinn::launch::start_command(&Config::default());
    host.failing.push(Action::Spawn(Job::StartInit, start));
    assert_eq!(drive(request(Operation::Init), &mut host), Outcome::Failed(Failure::Spawn));
    assert_eq!((host.uid, host.gid), (1000, 1000));
    assert_eq!(host.init_pid, 0);
}

#[test]
fn poweroff_that_cannot_be_run_fails_and_leaves_the_bottle() {
    let mut host = FakeHost::new();
    drive(request(Operation::Init), &mut host);
    host.failing.push(Action::Spawn(Job::PowerOff, djinn::launch::poweroff_command(4242)));
    assert_eq!(drive(request(Operation::Cleanup), &mut host), Outcome::Failed(Failure::Spawn));
    assert_eq!(host.bound.len(), 2);
    assert!(host.files.contains_key(&HostFile::SavedEnvironment));
    assert_eq!((host.uid, host.gid), (1000, 1000));
}

#[test]
fn every_file_failure_is_reported_with_its_file() {
    let cases = vec![
        (Action::Read(HostFile::HostnameBackup), HostFile::HostnameBackup),
        (Action::Read(HostFile::Hostname), HostFile::Hostname),
        (Action::Write(HostFile::HostnameBackup, "devbox\n".to_string()), HostFile::HostnameBackup),
        (Action::Read(HostFile::HostsBackup), HostFile::HostsBackup),
        (Action::Read(HostFile::Hosts), HostFile::Hosts),
        (
            Action::Write(HostFile::StagedHostname, "devbox-wsl\n".to_string()),
            HostFile::StagedHostname,
        ),
    ];
    for (failing, file) in cases {
        let mut host = FakeHost::new();
        host.failing.push(failing);
        let outcome = drive(request(Operation::Init), &mut host);
        assert_eq!(outcome, Outcome::Failed(Failure::File(file)));
        assert_eq!((host.uid, host.gid), (1000, 1000));
        assert_eq!(host.init_pid, 0);
    }
}

#[test]
fn failed_removal_stops_the_cleanup() {
    let mut host = FakeHost::new();
    drive(request(Operation::Init), &mut host);
    host.failing.push(Action::Remove(HostFile::StagedHosts));
    let outcome = drive(request(Operation::Cleanup), &mut host);
    assert_eq!(outcome, Outcome::Failed(Failure::File(HostFile::StagedHosts)));
    assert!(!host.files.contains_key(&HostFile::SavedEnvironment));
    assert!(host.files.contains_key(&HostFile::StagedHostname));
    assert_eq!((host.uid, host.gid), (1000, 1000));
}

#[test]
fn cleanup_without_a_backup_still_removes_what_is_left() {
    let mut host = FakeHost::new();
    drive(request(Operation::Init), &mut host);
    host.files.remove(&HostFile::HostsBackup);
    host.files.remove(&HostFile::HostnameBackup);
    host.log.clear();
    assert_eq!(drive(request(Operation::Cleanup), &mut host), Outcome::Completed);
    assert!(!host.log.iter().any(|a| matches!(a, Action::Write(_, _))));
    assert!(!host.files.contains_key(&HostFile::StagedHosts));
    assert!(host.bound.is_empty());
}
