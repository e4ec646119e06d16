use djinn::locator::{classify, locate_init, BottleState, ProcessEntry};

fn entry(pid: i32, uid: u32, start_time: u64, name: &str) -> ProcessEntry {
    ProcessEntry { pid, uid, start_time, name: name.to_string() }
}

fn reference(procs: &[ProcessEntry]) -> i32 {
    procs
        .iter()
        .filter(|p| p.name == "systemd" && p.uid == 0)
        .min_by_key(|p| p.start_time)
        .map(|p| p.pid)
        .unwrap_or(0)
}

#[test]
fn pid_zero_is_absent() {
    assert_eq!(classify(0), BottleState::Absent);
}

#[test]
fn pid_one_is_inside() {
    assert_eq!(classify(1), BottleState::ExistsInside);
}

#[test]
fn other_pids_are_outside() {
    for pid in [2, 3, 77, 4242, i32::MAX, -1, i32::MIN] {
        assert_eq!(classify(pid), BottleState::ExistsOutside);
    }
}

#[test]
fn empty_table_has_no_init() {
    assert_eq!(locate_init(&Vec::new()), 0);
}

#[test]
fn init_must_be_named_exactly_and_owned_by_root() {
    let procs = vec![
        entry(10, 0, 5, "systemd-journald"),
        entry(11, 1000, 1, "systemd"),
        entry(12, 0, 9, "(systemd)"),
        entry(13, 0, 2, "bash"),
        entry(14, 0, 3, "system"),
    ];
    assert_eq!(locate_init(&procs), 0);
    let mut procs = procs;
    procs.push(entry(15, 0, 100, "systemd"));
    assert_eq!(locate_init(&procs), 15);
}

#[test]
fn earliest_start_wins() {
    let procs = vec![
        entry(300, 0, 50, "systemd"),
        entry(200, 0, 20, "systemd"),
        entry(900, 1000, 1, "systemd"),
        entry(100, 0, 30, "systemd"),
    ];
    assert_eq!(locate_init(&procs), 200);
}

#[test]
fn first_of_equal_starts_wins() {
    let procs = vec![
        entry(7, 0, 20, "systemd"),
        entry(5, 0, 10, "systemd"),
        entry(6, 0, 10, "systemd"),
        entry(4, 0, 10, "systemd"),
    ];
    assert_eq!(locate_init(&procs), 5);
}

#[test]
fn locator_agrees_with_the_iterator_chain() {
    let names = ["systemd", "systemd-logind", "init", "systemd"];
    let mut seed: u64 = 0x2545f4914f6cdd1d;
    for _ in 0..500 {
        let mut procs = Vec::new();
        seed ^= seed << 13;
        seed ^= seed >> 7;
        seed ^= seed << 17;
        let n = (seed % 7) as usize;
        for k in 0..n {
            seed ^= seed << 13;
            seed ^= seed >> 7;
            seed ^= seed << 17;
            procs.push(entry(
                (k as i32) + 2,
                ((seed >> 8) % 2) as u32 * 1000,
                (seed >> 16) % 4,
                names[((seed >> 32) % 4) as usize],
            ));
        }
        assert_eq!(locate_init(&procs), reference(&procs), "{:?}", procs);
    }
}
