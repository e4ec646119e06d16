use djinn::hosts::{hostname_text, patch_hosts, read_host_name, virtual_name};

#[test]
fn exact_name_is_replaced_and_line_is_tab_joined() {
    let out = patch_hosts("127.0.1.1 devbox\n", "devbox", "devbox-wsl");
    assert_eq!(out, "127.0.1.1\tdevbox-wsl\n");
}

#[test]
fn longer_name_is_left_alone() {
    let out = patch_hosts("10.0.0.5 devboxmirror\n", "devbox", "devbox-wsl");
    assert_eq!(out, "10.0.0.5 devboxmirror\n");
}

#[test]
fn scenario_of_a_host_named_devbox() {
    let name = virtual_name(&read_host_name("devbox\n"), "-wsl");
    assert_eq!(hostname_text(&name), "devbox-wsl\n");
    let hosts = "127.0.0.1 localhost\n127.0.1.1 devbox\n10.0.0.5 devboxmirror\n";
    let out = patch_hosts(hosts, "devbox", &name);
    let lines: Vec<&str> = out.split('\n').collect();
    assert_eq!(lines, vec!["127.0.0.1 localhost", "127.0.1.1\tdevbox-wsl", "10.0.0.5 devboxmirror", ""]);
}

#[test]
fn address_column_is_never_replaced() {
    let out = patch_hosts("devbox devbox other\n", "devbox", "devbox-wsl");
    assert_eq!(out, "devbox\tdevbox-wsl other\n");
    let out = patch_hosts("devbox other\n", "devbox", "devbox-wsl");
    assert_eq!(out, "devbox other\n");
}

#[test]
fn every_matching_name_of_a_line_is_replaced() {
    let out = patch_hosts("::1  devbox   localhost\tdevbox devbox.lan", "devbox", "box");
    assert_eq!(out, "::1\tbox localhost box devbox.lan\n");
}

#[test]
fn lines_without_the_name_stay_as_they_are() {
    let hosts = "127.0.0.1   localhost\n\n   \n# devbox.lan\t devboxes\r\n127.0.1.1\tdevbox.lan   devbox  \r\n::1 ip6-localhost";
    let out = patch_hosts(hosts, "devbox", "devbox-wsl");
    assert_eq!(
        out,
        "127.0.0.1   localhost\n\n   \n# devbox.lan\t devboxes\r\n127.0.1.1\tdevbox.lan devbox-wsl\n::1 ip6-localhost\n"
    );
}

#[test]
fn hosts_file_without_the_name_is_returned_as_it_is() {
    for hosts in [
        "",
        "\n",
        "127.0.0.1 localhost\n",
        "127.0.0.1\tlocalhost\r\n\r\n::1\t\tip6-localhost ip6-loopback \n\n",
        "devbox\n devbox\ndevbox devboxmirror mydevbox dev box\n",
    ] {
        assert_eq!(patch_hosts(hosts, "devbox", "devbox-wsl"), hosts);
        assert_eq!(patch_hosts(hosts, "devbox", "not a field"), hosts);
    }
}

#[test]
fn every_staged_line_ends_in_a_newline() {
    assert_eq!(patch_hosts("1 a", "a", "b"), "1\tb\n");
    assert_eq!(patch_hosts("1 a\n", "a", "b"), "1\tb\n");
    assert_eq!(patch_hosts("1 a\n2 a", "a", "b"), "1\tb\n2\tb\n");
    assert_eq!(patch_hosts("1 x", "a", "b"), "1 x\n");
    assert_eq!(patch_hosts("1 a\n2 x", "a", "b"), "1\tb\n2 x\n");
    assert_eq!(patch_hosts(" ", "a", "b"), " \n");
    assert_eq!(patch_hosts("\n1 a\n\n", "a", "b"), "\n1\tb\n\n");
    assert_eq!(patch_hosts("1 a\r\n2 a\r\n", "a", "b"), "1\tb\n2\tb\n");
}

#[test]
fn staged_line_holds_the_fields_of_the_line() {
    let hosts = "10.0.0.1  a\tb  a   ab  ba a\n::1 x a\n3 y z";
    let out = patch_hosts(hosts, "a", "new");
    assert_eq!(out, "10.0.0.1\tnew b new ab ba new\n::1\tx new\n3 y z\n");
    let before: Vec<usize> = hosts.lines().map(|l| l.split_whitespace().count()).collect();
    let after: Vec<usize> = out.lines().map(|l| l.split_whitespace().count()).collect();
    assert_eq!(before, after);
}

#[test]
fn line_with_only_an_address_is_kept() {
    assert_eq!(patch_hosts("127.0.0.1\n", "127.0.0.1", "b"), "127.0.0.1\n");
}

#[test]
fn empty_hosts_file_stays_empty() {
    assert_eq!(patch_hosts("", "devbox", "devbox-wsl"), "");
}

#[test]
fn patching_twice_changes_nothing_more() {
    let hosts = "127.0.0.1 localhost\n127.0.1.1 devbox devbox.lan\n10.0.0.5 devboxmirror devbox\n";
    let once = patch_hosts(hosts, "devbox", "devbox-wsl");
    let twice = patch_hosts(&once, "devbox", "devbox-wsl");
    assert_eq!(once, twice);
    assert_eq!(
        once,
        "127.0.0.1 localhost\n127.0.1.1\tdevbox-wsl devbox.lan\n10.0.0.5\tdevboxmirror devbox-wsl\n"
    );
    let same = patch_hosts("1  a  a\n", "a", "a");
    assert_eq!(same, "1\ta a\n");
    assert_eq!(patch_hosts(&same, "a", "a"), same);
}

#[test]
fn new_name_that_is_no_field_can_be_patched_again() {
    let once = patch_hosts("1 a", "a", "a b");
    assert_eq!(once, "1\ta b\n");
    assert_eq!(patch_hosts(&once, "a", "a b"), "1\ta b b\n");
}

#[test]
fn unicode_space_separates_fields() {
    let out = patch_hosts("1.2.3.4\u{3000}devbox\u{a0}x\n", "devbox", "D");
    assert_eq!(out, "1.2.3.4\tD x\n");
}

#[test]
fn host_name_is_the_trimmed_file() {
    assert_eq!(read_host_name("devbox\n"), "devbox");
    assert_eq!(read_host_name("  \t devbox \r\n\n"), "devbox");
    assert_eq!(read_host_name(" \n"), "");
    assert_eq!(read_host_name("dev box\n"), "dev box");
}

#[test]
fn bottle_is_named_after_the_host() {
    let name = virtual_name(&read_host_name("devbox\n"), "-wsl");
    assert_eq!(name, "devbox-wsl");
    assert_eq!(hostname_text(&name), "devbox-wsl\n");
    assert_eq!(virtual_name("", ""), "");
    assert_eq!(hostname_text(""), "\n");
}
