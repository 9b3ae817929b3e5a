use icy::config::{Config, FilesystemType, RetentionPolicy};
use icy::snapshots::{
    sort_snapshots, Command, DiffPlan, Snapshot, SnapshotError, SnapshotManager, SnapshotOrder,
    Timestamp,
};
use icy::find_new::{diff_from_find_new, generation_from_find_new, parse_find_new_output};

fn config(fs: FilesystemType) -> Config {
    Config {
        name: "root".to_string(),
        path: "/".to_string(),
        snapshot_dir: "/.icy-snapshots/root".to_string(),
        retention: RetentionPolicy::default(),
        fs_type: fs,
        lvm_snapshot_size: "5G".to_string(),
    }
}

fn snap(id: usize, secs: i64, desc: &str) -> Snapshot {
    Snapshot {
        id,
        timestamp: Timestamp { secs, nanos: 0 },
        description: desc.to_string(),
        path: format!("/.icy-snapshots/root/snapshot-{}", id),
    }
}

fn args(c: &Command) -> Vec<&str> {
    c.args.iter().map(|a| a.as_str()).collect()
}

fn ids(s: &[Snapshot]) -> Vec<usize> {
    s.iter().map(|x| x.id).collect()
}

#[test]
fn manager_resolves_filesystem_and_metadata_file() {
    let m = SnapshotManager::new(config(FilesystemType::Auto), FilesystemType::Lvm);
    assert_eq!(m.fs_type, FilesystemType::Lvm);
    assert_eq!(m.metadata_file, "/.icy-snapshots/root/metadata.yaml");
    let m = SnapshotManager::new(config(FilesystemType::Btrfs), FilesystemType::Lvm);
    assert_eq!(m.fs_type, FilesystemType::Btrfs);
    let mut c = config(FilesystemType::Btrfs);
    c.snapshot_dir = "/snaps/".to_string();
    let m = SnapshotManager::new(c, FilesystemType::Auto);
    assert_eq!(m.metadata_file, "/snaps/metadata.yaml");
}

#[test]
fn list_sorts_by_id_stably() {
    let m = SnapshotManager::new(config(FilesystemType::Btrfs), FilesystemType::Auto);
    let s = vec![snap(3, 10, "c"), snap(1, 20, "a"), snap(3, 30, "c2"), snap(2, 40, "b")];
    let r = m.list_snapshots(s);
    assert_eq!(ids(&r), vec![1, 2, 3, 3]);
    assert_eq!(r[2].description, "c");
    assert_eq!(r[3].description, "c2");
}

#[test]
fn newest_first_order() {
    let s = vec![snap(1, 10, "a"), snap(2, 30, "b"), snap(3, 20, "c"), snap(4, 30, "d")];
    let r = sort_snapshots(s, SnapshotOrder::NewestFirst);
    assert_eq!(ids(&r), vec![2, 4, 3, 1]);
    let mut s = vec![snap(1, 10, "a"), snap(2, 10, "b")];
    s[0].timestamp.nanos = 5;
    assert_eq!(ids(&sort_snapshots(s, SnapshotOrder::NewestFirst)), vec![1, 2]);
}

#[test]
fn create_takes_next_id_and_btrfs_command() {
    let m = SnapshotManager::new(config(FilesystemType::Btrfs), FilesystemType::Auto);
    let s = vec![snap(2, 10, "a"), snap(7, 20, "b")];
    let now = Timestamp { secs: 1000, nanos: 5 };
    let plan = m.create_snapshot(s, "Before update", now).ok().unwrap();
    assert_eq!(plan.snapshot.id, 8);
    assert_eq!(plan.snapshot.path, "/.icy-snapshots/root/snapshot-8");
    assert_eq!(plan.snapshot.description, "Before update");
    assert_eq!(plan.snapshot.timestamp, now);
    assert_eq!(ids(&plan.snapshots), vec![2, 7, 8]);
    assert_eq!(plan.command.program, "btrfs");
    assert_eq!(args(&plan.command),
        vec!["subvolume", "snapshot", "-r", "/", "/.icy-snapshots/root/snapshot-8"]);
    assert_eq!(plan.log_message, "Created snapshot #8 for root");
}

#[test]
fn first_snapshot_gets_id_one_and_lvm_command() {
    let m = SnapshotManager::new(config(FilesystemType::Lvm), FilesystemType::Auto);
    let plan = m.create_snapshot(vec![], "x", Timestamp { secs: 0, nanos: 0 }).ok().unwrap();
    assert_eq!(plan.snapshot.id, 1);
    assert_eq!(plan.command.program, "lvcreate");
    assert_eq!(args(&plan.command),
        vec!["--snapshot", "--name", "snapshot-1", "--size", "5G", "/"]);
    let mut c = config(FilesystemType::Lvm);
    c.lvm_snapshot_size = "20G".to_string();
    let m = SnapshotManager::new(c, FilesystemType::Auto);
    let plan = m.create_snapshot(vec![], "x", Timestamp { secs: 0, nanos: 0 }).ok().unwrap();
    assert_eq!(args(&plan.command),
        vec!["--snapshot", "--name", "snapshot-1", "--size", "20G", "/"]);
}

#[test]
fn operations_refused_while_filesystem_unknown() {
    let m = SnapshotManager::new(config(FilesystemType::Auto), FilesystemType::Auto);
    let s = vec![snap(1, 10, "a")];
    assert!(matches!(m.create_snapshot(vec![], "x", Timestamp { secs: 0, nanos: 0 }),
        Err(SnapshotError::DetectionFailed)));
    assert!(matches!(m.delete_snapshot(s.clone(), 1), Err(SnapshotError::DetectionFailed)));
    assert!(matches!(m.rollback_snapshot(&s, 1), Err(SnapshotError::DetectionFailed)));
    assert!(matches!(m.diff_snapshots(&s, 1, 1), Err(SnapshotError::DetectionFailed)));
    assert_eq!(SnapshotError::DetectionFailed.message(), "Filesystem type detection failed");
}

#[test]
fn missing_snapshots_are_reported() {
    let m = SnapshotManager::new(config(FilesystemType::Btrfs), FilesystemType::Auto);
    let s = vec![snap(1, 10, "a")];
    assert!(matches!(m.delete_snapshot(s.clone(), 5), Err(SnapshotError::NotFound(5))));
    assert!(matches!(m.rollback_snapshot(&s, 5), Err(SnapshotError::NotFound(5))));
    assert!(matches!(m.diff_snapshots(&s, 4, 5), Err(SnapshotError::NotFound(4))));
    assert!(matches!(m.diff_snapshots(&s, 1, 5), Err(SnapshotError::NotFound(5))));
    assert_eq!(SnapshotError::NotFound(5).message(), "Snapshot #5 not found");
    let m = SnapshotManager::new(config(FilesystemType::Auto), FilesystemType::Auto);
    assert!(matches!(m.delete_snapshot(s, 5), Err(SnapshotError::NotFound(5))));
}

#[test]
fn delete_removes_every_snapshot_with_the_id() {
    let m = SnapshotManager::new(config(FilesystemType::Btrfs), FilesystemType::Auto);
    let mut s = vec![snap(1, 10, "a"), snap(2, 20, "b"), snap(3, 30, "c")];
    s.push(Snapshot { path: "/other".to_string(), ..snap(2, 40, "dup") });
    let plan = m.delete_snapshot(s, 2).ok().unwrap();
    assert_eq!(ids(&plan.snapshots), vec![1, 3]);
    assert_eq!(args(&plan.command), vec!["subvolume", "delete", "/.icy-snapshots/root/snapshot-2"]);
    assert_eq!(plan.log_message, "Deleted snapshot #2 for root");
    let m = SnapshotManager::new(config(FilesystemType::Lvm), FilesystemType::Auto);
    let plan = m.delete_snapshot(vec![snap(4, 0, "d")], 4).ok().unwrap();
    assert_eq!(plan.command.program, "lvremove");
    assert_eq!(args(&plan.command), vec!["-f", "/.icy-snapshots/root/snapshot-4"]);
}

#[test]
fn delete_undoes_create() {
    let m = SnapshotManager::new(config(FilesystemType::Btrfs), FilesystemType::Auto);
    let s = vec![snap(3, 10, "a"), snap(1, 20, "b")];
    let plan = m.create_snapshot(s.clone(), "new", Timestamp { secs: 99, nanos: 0 }).ok().unwrap();
    let back = m.delete_snapshot(plan.snapshots, plan.snapshot.id).ok().unwrap();
    assert_eq!(ids(&back.snapshots), ids(&s));
    assert_eq!(back.snapshots[0].description, "a");
}

#[test]
fn rollback_commands() {
    let m = SnapshotManager::new(config(FilesystemType::Btrfs), FilesystemType::Auto);
    let s = vec![snap(1, 10, "a")];
    let plan = m.rollback_snapshot(&s, 1).ok().unwrap();
    assert_eq!(plan.commands.len(), 3);
    assert_eq!(args(&plan.commands[0]), vec!["subvolume", "snapshot", "/", "/.backup"]);
    assert_eq!(args(&plan.commands[1]), vec!["subvolume", "delete", "/"]);
    assert_eq!(args(&plan.commands[2]),
        vec!["subvolume", "snapshot", "/.icy-snapshots/root/snapshot-1", "/"]);
    assert_eq!(plan.log_message, "Rolled back to snapshot #1 for root");
    let m = SnapshotManager::new(config(FilesystemType::Lvm), FilesystemType::Auto);
    let plan = m.rollback_snapshot(&s, 1).ok().unwrap();
    assert_eq!(plan.commands.len(), 1);
    assert_eq!(plan.commands[0].program, "lvconvert");
    assert_eq!(args(&plan.commands[0]), vec!["--merge", "/.icy-snapshots/root/snapshot-1"]);
}

#[test]
fn diff_plans() {
    let m = SnapshotManager::new(config(FilesystemType::Btrfs), FilesystemType::Auto);
    let s = vec![snap(1, 10, "a"), snap(2, 20, "b")];
    match m.diff_snapshots(&s, 1, 2) {
        Ok(DiffPlan::FindNew { generation_probe, to_path }) => {
            assert_eq!(generation_probe.program, "btrfs");
            assert_eq!(args(&generation_probe),
                vec!["subvolume", "find-new", "/.icy-snapshots/root/snapshot-1", "9999999"]);
            assert_eq!(to_path, "/.icy-snapshots/root/snapshot-2");
        }
        _ => panic!("expected find-new"),
    }
    let c = m.diff_btrfs_snapshots("/.icy-snapshots/root/snapshot-2", 42);
    assert_eq!(c.program, "btrfs");
    assert_eq!(args(&c), vec!["subvolume", "find-new", "/.icy-snapshots/root/snapshot-2", "42"]);
    let c = m.generation_probe("/a");
    assert_eq!(args(&c), vec!["subvolume", "find-new", "/a", "9999999"]);
    let m = SnapshotManager::new(config(FilesystemType::Lvm), FilesystemType::Auto);
    match m.diff_snapshots(&s, 1, 2) {
        Ok(DiffPlan::Lines(l)) => assert_eq!(l, vec!["LVM diff not yet implemented"]),
        _ => panic!("expected lines"),
    }
}

#[test]
fn find_new_output_names_files() {
    let out = "inode 257 file offset 0 len 4096 disk start 0 offset 0 gen 10 flags NONE etc/hosts\n\
               inode 300 file offset 0 len 1 disk start 0 offset 0 gen 11 flags INLINE|COMPRESS my docs/a b.txt\n\
               \n\
               transid marker was 12\n";
    assert_eq!(parse_find_new_output(out), vec!["etc/hosts", "my docs/a b.txt"]);
    assert!(parse_find_new_output("").is_empty());
    assert!(parse_find_new_output("transid marker was 12").is_empty());
    assert!(parse_find_new_output("some other line\n").is_empty());
    assert!(matches!(diff_from_find_new(false, "x"), Err(SnapshotError::FindNewFailed)));
    assert_eq!(
        diff_from_find_new(true, "inode 1 file offset 0 len 1 disk start 0 offset 0 gen 3 flags NONE x\ntransid marker was 3\n")
            .ok().unwrap(),
        vec!["x"]
    );
    assert!(diff_from_find_new(true, "transid marker was 12").ok().unwrap().is_empty());
    assert_eq!(SnapshotError::FindNewFailed.message(), "btrfs find-new failed");
}

#[test]
fn find_new_agrees_with_std_search() {
    let samples = [
        "inode 1 file offset 0 len 1 disk start 0 offset 0 gen 2 flags NONE a\nb flags X c d\n",
        " flags X\n flags  lead\nno flags here\n flags F  two  spaces \n",
        "x\r\ny flags Z tail\r\n",
        "transid marker was 99",
        "\n\n",
    ];
    for s in samples {
        let expected: Vec<String> = s
            .split('\n')
            .filter_map(|line| {
                let k = line.find(" flags ")?;
                let rest = &line[k + " flags ".len()..];
                let j = rest.find(' ')?;
                Some(rest[j + 1..].to_string())
            })
            .collect();
        assert_eq!(parse_find_new_output(s), expected, "input {:?}", s);
    }
}

#[test]
fn created_snapshot_is_listed_last() {
    let m = SnapshotManager::new(config(FilesystemType::Btrfs), FilesystemType::Auto);
    let s = vec![snap(9, 10, "a"), snap(2, 20, "b"), snap(5, 30, "c")];
    let plan = m.create_snapshot(s, "new", Timestamp { secs: 1, nanos: 0 }).ok().unwrap();
    let listed = m.list_snapshots(plan.snapshots);
    assert_eq!(ids(&listed), vec![2, 5, 9, 10]);
    assert_eq!(listed[3].description, "new");
}

#[test]
fn generation_read_from_find_new() {
    assert_eq!(generation_from_find_new(true, "transid marker was 42\n").ok().unwrap(), 42);
    let out = "inode 1 file offset 0 len 1 disk start 0 offset 0 gen 3 flags NONE a\n\
               transid marker was 7\n\
               transid marker was 1234\n";
    assert_eq!(generation_from_find_new(true, out).ok().unwrap(), 1234);
    assert!(matches!(generation_from_find_new(true, "no marker here\n"),
        Err(SnapshotError::NoGeneration)));
    assert!(matches!(generation_from_find_new(true, ""), Err(SnapshotError::NoGeneration)));
    assert!(matches!(generation_from_find_new(true, "transid marker was 18446744073709551616"),
        Err(SnapshotError::NoGeneration)));
    assert_eq!(generation_from_find_new(true, "transid marker was 18446744073709551615")
        .ok().unwrap(), u64::MAX);
    assert!(matches!(generation_from_find_new(false, "transid marker was 42"),
        Err(SnapshotError::FindNewFailed)));
    assert_eq!(SnapshotError::NoGeneration.message(), "btrfs find-new gave no generation");
}

#[test]
fn second_step_of_a_comparison() {
    let m = SnapshotManager::new(config(FilesystemType::Btrfs), FilesystemType::Auto);
    let c = m.diff_after_probe("/s/snapshot-2", true, "transid marker was 77\n").ok().unwrap();
    assert_eq!(c.program, "btrfs");
    assert_eq!(args(&c), vec!["subvolume", "find-new", "/s/snapshot-2", "77"]);
    assert!(matches!(m.diff_after_probe("/s/snapshot-2", false, "transid marker was 77\n"),
        Err(SnapshotError::FindNewFailed)));
    assert!(matches!(m.diff_after_probe("/s/snapshot-2", true, "garbage\n"),
        Err(SnapshotError::NoGeneration)));
}
