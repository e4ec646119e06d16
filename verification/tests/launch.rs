use djinn::config::{config_path, Config};
use djinn::launch::{
    copy_texts, pid_text, poweroff_command, run_argv, shell_argv, start_command,
};
use djinn::protocol::{marker_path, path_of, HostFile};

fn strings(items: &[&str]) -> Vec<String> {
    items.iter().map(|s| s.to_string()).collect()
}

#[test]
fn default_settings() {
    let config = Config::default();
    assert!(!config.verbose);
    assert!(!config.preserve_env);
    assert_eq!(config.suffix, "-wsl");
    assert_eq!(config.unshare, "/usr/bin/unshare");
    assert_eq!(config.daemonize, "/usr/sbin/daemonize");
    assert_eq!(config.duplicate(), config);
}

#[test]
fn start_command_line() {
    let command = start_command(&Config::default());
    assert_eq!(command.program, "/usr/sbin/daemonize");
    assert_eq!(
        command.args,
        strings(&[
            "/usr/bin/unshare",
            "-fp",
            "--propagation",
            "shared",
            "--mount-proc",
            "/lib/systemd/systemd",
        ])
    );
}

#[test]
fn poweroff_command_line() {
    let command = poweroff_command(318);
    assert_eq!(command.program, "/usr/bin/nsenter");
    assert_eq!(
        command.args,
        strings(&["/usr/bin/nsenter", "-t", "318", "-m", "-p", "/usr/sbin/systemctl", "poweroff"])
    );
}

#[test]
fn shell_argument_vector() {
    assert_eq!(
        shell_argv(318, "alice", "TERM,INSIDE_DJINN"),
        strings(&[
            "/usr/bin/nsenter",
            "-t",
            "318",
            "-m",
            "-p",
            "/sbin/runuser",
            "-l",
            "alice",
            "-w",
            "TERM,INSIDE_DJINN",
        ])
    );
}

#[test]
fn run_argument_vector() {
    assert_eq!(
        run_argv(318, "/tmp/my dir", "alice", &strings(&["echo", "a b", ""])),
        strings(&[
            "/usr/bin/nsenter",
            "-t",
            "318",
            "--wd=/tmp/my dir",
            "-m",
            "-p",
            "/sbin/runuser",
            "-u",
            "alice",
            "--",
            "echo",
            "a b",
            "",
        ])
    );
    assert_eq!(run_argv(1, "", "", &Vec::new()).len(), 10);
}

#[test]
fn process_ids_in_decimal() {
    assert_eq!(pid_text(0), "0");
    assert_eq!(pid_text(1), "1");
    assert_eq!(pid_text(4242), "4242");
    assert_eq!(pid_text(-17), "-17");
    assert_eq!(pid_text(i32::MAX), "2147483647");
    assert_eq!(pid_text(i32::MIN), "-2147483648");
}

#[test]
fn texts_are_copied() {
    let items = strings(&["a", "", "b c"]);
    assert_eq!(copy_texts(&items), items);
    assert!(copy_texts(&Vec::new()).is_empty());
}

#[test]
fn paths_of_the_host_files() {
    assert_eq!(path_of(HostFile::Hostname), "/etc/hostname");
    assert_eq!(path_of(HostFile::Hosts), "/etc/hosts");
    assert_eq!(path_of(HostFile::HostnameBackup), "/run/djinn.hostname.orig");
    assert_eq!(path_of(HostFile::HostsBackup), "/run/djinn.hosts.orig");
    assert_eq!(path_of(HostFile::StagedHostname), "/run/djinn.hostname");
    assert_eq!(path_of(HostFile::StagedHosts), "/run/djinn.hosts");
    assert_eq!(path_of(HostFile::SavedEnvironment), "/run/djinn.env");
    assert_eq!(path_of(HostFile::Mounts), "/proc/self/mounts");
    assert_eq!(marker_path(), "/run/WSL");
    assert_eq!(config_path(), "/etc/djinn.cfg");
    assert_eq!(djinn::launch::init_path(), "/lib/systemd/systemd");
    assert_eq!(djinn::locator::init_program(), "systemd");
}
