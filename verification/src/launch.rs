//! The command lines of the programs that make, enter and stop the bottle.

use crate::chars::{from_chars, push_signed_decimal, signed_decimal, texts};
use crate::config::{Config, ConfigModel};
use vstd::prelude::*;

verus! {

/// A program to run, with the arguments that follow its name.
#[derive(Clone, Debug, PartialEq, Eq)]
pub struct Command {
    /// Path of the program.
    pub program: String,
    /// The arguments, without the program's own name in front.
    pub args: Vec<String>,
}

/// A [`Command`] with its texts as sequences of characters.
pub struct CommandModel {
    pub program: Seq<char>,
    pub args: Seq<Seq<char>>,
}

impl View for Command {
    type V = CommandModel;

    open spec fn view(&self) -> CommandModel {
        CommandModel { program: self.program@, args: texts(self.args@) }
    }
}

/// Where the init program lies.
pub open spec fn init_path_model() -> Seq<char> {
    "/lib/systemd/systemd"@
}

/// The path of the init program.
pub fn init_path() -> (p: &'static str)
    ensures
        p@ == init_path_model(),
{
    "/lib/systemd/systemd"
}

/// The command that starts the bottle: the daemonizer runs the unshare
/// program, which forks into new PID and mount namespaces with shared
/// propagation and a fresh `/proc`, and runs the init there.
pub open spec fn start_model(config: ConfigModel) -> CommandModel {
    CommandModel {
        program: config.daemonize,
        args: seq![
            config.unshare,
            "-fp"@,
            "--propagation"@,
            "shared"@,
            "--mount-proc"@,
            init_path_model(),
        ],
    }
}

/// The command that stops the bottle: it enters the mount and PID
/// namespaces of the init with process id `pid` and asks it to power off.
pub open spec fn poweroff_model(pid: int) -> CommandModel {
    CommandModel {
        program: "/usr/bin/nsenter"@,
        args: seq![
            "/usr/bin/nsenter"@,
            "-t"@,
            signed_decimal(pid),
            "-m"@,
            "-p"@,
            "/usr/sbin/systemctl"@,
            "poweroff"@,
        ],
    }
}

/// The argument vector that opens a login shell in the bottle: it enters
/// the namespaces of the init with process id `pid` and becomes `user`,
/// keeping the variables named in `names`.
pub open spec fn shell_model(pid: int, user: Seq<char>, names: Seq<char>) -> Seq<Seq<char>> {
    seq![
        "/usr/bin/nsenter"@,
        "-t"@,
        signed_decimal(pid),
        "-m"@,
        "-p"@,
        "/sbin/runuser"@,
        "-l"@,
        user,
        "-w"@,
        names,
    ]
}

/// The option that hands the working directory `dir` into the bottle.
pub open spec fn working_dir_option(dir: Seq<char>) -> Seq<char> {
    "--wd="@ + dir
}

/// The argument vector that runs `command` in the bottle: it enters the
/// namespaces of the init with process id `pid`, in the working directory
/// `dir`, and runs `command` as `user`.
pub open spec fn run_model(
    pid: int,
    dir: Seq<char>,
    user: Seq<char>,
    command: Seq<Seq<char>>,
) -> Seq<Seq<char>> {
    seq![
        "/usr/bin/nsenter"@,
        "-t"@,
        signed_decimal(pid),
        working_dir_option(dir),
        "-m"@,
        "-p"@,
        "/sbin/runuser"@,
        "-u"@,
        user,
        "--"@,
    ] + command
}

/// `pid` in decimal.
pub fn pid_text(pid: i32) -> (t: String)
    ensures
        t@ == signed_decimal(pid as int),
{
    let mut digits: Vec<char> = Vec::new();
    push_signed_decimal(&mut digits, pid);
    assert(Seq::<char>::empty() + signed_decimal(pid as int) == signed_decimal(pid as int));
    from_chars(&digits)
}

/// A copy of `items`.
pub fn copy_texts(items: &Vec<String>) -> (out: Vec<String>)
    ensures
        texts(out@) == texts(items@),
{
    let mut out: Vec<String> = Vec::new();
    let mut i: usize = 0;
    assert(texts(out@) == texts(items@).take(0));
    while i < items.len()
        invariant
            i <= items.len(),
            texts(out@) == texts(items@).take(i as int),
        decreases items.len() - i,
    {
        let ghost before = texts(out@);
        let item = items[i].clone();
        assert(texts(out@.push(item)) == before.push(item@));
        assert(texts(items@).take(i + 1) == texts(items@).take(i as int).push(items@[i as int]@));
        out.push(item);
        i = i + 1;
    }
    assert(texts(items@).take(items.len() as int) == texts(items@));
    out
}

/// Builds the command that starts the bottle.
pub fn start_command(config: &Config) -> (c: Command)
    ensures
        c@ == start_model(config@),
{
    let mut args: Vec<String> = Vec::new();
    args.push(config.unshare.clone());
    args.push("-fp".to_owned());
    args.push("--propagation".to_owned());
    args.push("shared".to_owned());
    args.push("--mount-proc".to_owned());
    args.push(init_path().to_owned());
    assert(texts(args@) == start_model(config@).args);
    Command { program: config.daemonize.clone(), args }
}

/// Builds the command that stops the bottle whose init has process id `pid`.
pub fn poweroff_command(pid: i32) -> (c: Command)
    ensures
        c@ == poweroff_model(pid as int),
{
    let mut args: Vec<String> = Vec::new();
    args.push("/usr/bin/nsenter".to_owned());
    args.push("-t".to_owned());
    args.push(pid_text(pid));
    args.push("-m".to_owned());
    args.push("-p".to_owned());
    args.push("/usr/sbin/systemctl".to_owned());
    args.push("poweroff".to_owned());
    assert(texts(args@) == poweroff_model(pid as int).args);
    Command { program: "/usr/bin/nsenter".to_owned(), args }
}

/// Builds the argument vector that opens a login shell in the bottle.
pub fn shell_argv(pid: i32, user: &str, names: &str) -> (argv: Vec<String>)
    ensures
        texts(argv@) == shell_model(pid as int, user@, names@),
{
    let mut argv: Vec<String> = Vec::new();
    argv.push("/usr/bin/nsenter".to_owned());
    argv.push("-t".to_owned());
    argv.push(pid_text(pid));
    argv.push("-m".to_owned());
    argv.push("-p".to_owned());
    argv.push("/sbin/runuser".to_owned());
    argv.push("-l".to_owned());
    argv.push(user.to_owned());
    argv.push("-w".to_owned());
    argv.push(names.to_owned());
    assert(texts(argv@) == shell_model(pid as int, user@, names@));
    argv
}

/// Builds the argument vector that runs `command` in the bottle.
pub fn run_argv(pid: i32, dir: &str, user: &str, command: &Vec<String>) -> (argv: Vec<String>)
    ensures
        texts(argv@) == run_model(pid as int, dir@, user@, texts(command@)),
{
    let mut argv: Vec<String> = Vec::new();
    let mut option = "--wd=".to_owned();
    option.append(dir);
    argv.push("/usr/bin/nsenter".to_owned());
    argv.push("-t".to_owned());
    argv.push(pid_text(pid));
    argv.push(option);
    argv.push("-m".to_owned());
    argv.push("-p".to_owned());
    argv.push("/sbin/runuser".to_owned());
    argv.push("-u".to_owned());
    argv.push(user.to_owned());
    argv.push("--".to_owned());
    let ghost head = texts(argv@);
    assert(head == run_model(pid as int, dir@, user@, Seq::<Seq<char>>::empty()));
    let mut i: usize = 0;
    assert(texts(command@).take(0) == Seq::<Seq<char>>::empty());
    while i < command.len()
        invariant
            i <= command.len(),
            texts(argv@) == head + texts(command@).take(i as int),
        decreases command.len() - i,
    {
        let ghost before = texts(argv@);
        let item = command[i].clone();
        assert(texts(argv@.push(item)) == before.push(item@));
        assert(texts(command@).take(i + 1) == texts(command@).take(i as int).push(
            command@[i as int]@,
        ));
        argv.push(item);
        i = i + 1;
    }
    assert(texts(command@).take(command.len() as int) == texts(command@));
    argv
}

} // verus!
