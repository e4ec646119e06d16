use djinn::probe::{root_filesystem, RootKind};

#[test]
fn native_root_is_accepted() {
    let mounts = "sysfs /sys sysfs rw,nosuid 0 0\n/dev/sdb / ext4 rw,relatime 0 0\nnone /mnt lxfs rw 0 0\n";
    assert_eq!(root_filesystem(mounts), RootKind::Native);
}

#[test]
fn translated_root_is_found() {
    assert_eq!(root_filesystem("rootfs / lxfs rw,noatime 0 0\n"), RootKind::Translated);
    assert_eq!(root_filesystem("rootfs / wslfs rw,noatime 0 0\n"), RootKind::Translated);
    assert_eq!(
        root_filesystem("proc /proc proc rw 0 0\nrootfs\t/\twslfs\trw\n/dev/sdb / ext4 rw 0 0\n"),
        RootKind::Translated
    );
}

#[test]
fn first_root_line_decides() {
    let mounts = "/dev/sdb / ext4 rw 0 0\nrootfs / lxfs rw 0 0\n";
    assert_eq!(root_filesystem(mounts), RootKind::Native);
}

#[test]
fn table_without_root_is_unlisted() {
    assert_eq!(root_filesystem(""), RootKind::Unlisted);
    assert_eq!(root_filesystem("proc /proc proc rw 0 0\n"), RootKind::Unlisted);
    assert_eq!(root_filesystem("/ /mnt lxfs rw 0 0\n"), RootKind::Unlisted);
}

#[test]
fn short_lines_are_malformed() {
    assert_eq!(root_filesystem("proc\n/dev/sdb / ext4 rw 0 0\n"), RootKind::Malformed);
    assert_eq!(root_filesystem("\n/dev/sdb / ext4 rw 0 0\n"), RootKind::Malformed);
    assert_eq!(root_filesystem("rootfs /\n"), RootKind::Malformed);
    assert_eq!(root_filesystem("/dev/sdb / ext4 rw 0 0\nshort\n"), RootKind::Native);
}

#[test]
fn filesystem_kind_is_matched_exactly() {
    assert_eq!(root_filesystem("rootfs / lxfs2 rw\n"), RootKind::Native);
    assert_eq!(root_filesystem("rootfs / LXFS rw\n"), RootKind::Native);
    assert_eq!(root_filesystem("rootfs // lxfs rw\n"), RootKind::Unlisted);
}
