use icy::config::{Config, FilesystemType, RetentionPolicy};
use icy::retention::{classify, cleanup_ids_at, removed_count, AgeClass};
use icy::snapshots::{Snapshot, SnapshotManager, Timestamp};

fn snap(id: usize, secs: i64) -> Snapshot {
    Snapshot {
        id,
        timestamp: Timestamp { secs, nanos: 0 },
        description: String::new(),
        path: format!("/s/snapshot-{}", id),
    }
}

const NOW: i64 = 1_700_000_000;

fn policy(h: usize, d: usize, w: usize, m: usize) -> RetentionPolicy {
    RetentionPolicy { hourly: h, daily: d, weekly: w, monthly: m }
}

#[test]
fn age_classes() {
    let now = Timestamp { secs: NOW, nanos: 500 };
    assert_eq!(classify(Timestamp { secs: NOW - 10, nanos: 0 }, now), AgeClass::Hourly);
    assert_eq!(classify(Timestamp { secs: NOW - 3600, nanos: 501 }, now), AgeClass::Hourly);
    assert_eq!(classify(Timestamp { secs: NOW - 3600, nanos: 500 }, now), AgeClass::Daily);
    assert_eq!(classify(Timestamp { secs: NOW - 86399, nanos: 0 }, now), AgeClass::Daily);
    assert_eq!(classify(Timestamp { secs: NOW - 86400, nanos: 0 }, now), AgeClass::Weekly);
    assert_eq!(classify(Timestamp { secs: NOW - 604800, nanos: 0 }, now), AgeClass::Monthly);
    assert_eq!(classify(Timestamp { secs: NOW + 10, nanos: 0 }, now), AgeClass::Hourly);
}

#[test]
fn cleanup_keeps_newest_of_each_class() {
    let now = Timestamp { secs: NOW, nanos: 0 };
    let s = vec![
        snap(1, NOW - 100),
        snap(2, NOW - 200),
        snap(3, NOW - 5000),
        snap(4, NOW - 6000),
        snap(5, NOW - 7000),
        snap(6, NOW - 200_000),
        snap(7, NOW - 2_000_000),
        snap(8, NOW - 3_000_000),
    ];
    // keep 1 hourly, 2 daily, 0 weekly, 1 monthly
    let removed = cleanup_ids_at(s, policy(1, 2, 0, 1), now);
    assert_eq!(removed, vec![2, 5, 6, 8]);
}

#[test]
fn cleanup_with_default_policy_removes_all_hourly() {
    let now = Timestamp { secs: NOW, nanos: 0 };
    let s = vec![snap(1, NOW - 10), snap(2, NOW - 20), snap(3, NOW - 90_000)];
    assert_eq!(cleanup_ids_at(s, RetentionPolicy::default(), now), vec![1, 2]);
}

#[test]
fn cleanup_order_is_newest_first_and_ids_shared_are_kept() {
    let now = Timestamp { secs: NOW, nanos: 0 };
    let s = vec![snap(1, NOW - 1_000_000), snap(2, NOW - 900_000), snap(3, NOW - 800_000)];
    assert_eq!(cleanup_ids_at(s, policy(0, 0, 0, 0), now), vec![3, 2, 1]);
    // two records with id 9: the newer is kept, so neither is removed
    let s = vec![snap(9, NOW - 10), snap(9, NOW - 20)];
    assert!(cleanup_ids_at(s, policy(1, 0, 0, 0), now).is_empty());
}

#[test]
fn cleanup_is_idempotent_on_survivors() {
    let now = Timestamp { secs: NOW, nanos: 0 };
    let all: Vec<Snapshot> = (1..=30).map(|i| snap(i, NOW - (i as i64) * 20_000)).collect();
    let p = policy(2, 3, 1, 2);
    let removed = cleanup_ids_at(all.clone(), p, now);
    let survivors: Vec<Snapshot> = all.into_iter().filter(|s| !removed.contains(&s.id)).collect();
    assert!(cleanup_ids_at(survivors, p, now).is_empty());
}

#[test]
fn manager_cleanup_uses_configured_policy() {
    let cfg = Config {
        name: "root".to_string(),
        path: "/".to_string(),
        snapshot_dir: "/s".to_string(),
        retention: policy(0, 0, 0, 1),
        fs_type: FilesystemType::Btrfs,
        lvm_snapshot_size: "5G".to_string(),
    };
    let m = SnapshotManager::new(cfg, FilesystemType::Auto);
    let old = NOW - 10_000_000;
    let s = vec![snap(1, old), snap(2, old + 1)];
    assert_eq!(m.cleanup_snapshots(s, Timestamp { secs: old + 10_000_000, nanos: 0 }), vec![1]);
}

#[test]
fn raising_limits_removes_a_subset() {
    let now = Timestamp { secs: NOW, nanos: 0 };
    let all: Vec<Snapshot> = (1..=30).map(|i| snap(i, NOW - (i as i64) * 20_000)).collect();
    let low = cleanup_ids_at(all.clone(), policy(1, 1, 0, 1), now);
    let high = cleanup_ids_at(all, policy(2, 3, 1, 2), now);
    assert!(high.len() < low.len());
    for id in &high {
        assert!(low.contains(id));
    }
}

#[test]
fn deleting_removed_ids_in_turn_leaves_survivors() {
    let now = Timestamp { secs: NOW, nanos: 0 };
    let all: Vec<Snapshot> = (1..=12).map(|i| snap(i, NOW - (i as i64) * 50_000)).collect();
    let p = policy(1, 1, 1, 1);
    let removed = cleanup_ids_at(all.clone(), p, now);
    let mut left = all;
    for id in &removed {
        left.retain(|s| s.id != *id);
    }
    let left_ids: Vec<usize> = left.iter().map(|s| s.id).collect();
    assert_eq!(left_ids, vec![1, 2]);
    assert!(cleanup_ids_at(left, p, now).is_empty());
}

#[test]
fn removed_count_counts_successes() {
    assert_eq!(removed_count(&vec![]), 0);
    assert_eq!(removed_count(&vec![true, false, true, true]), 3);
    assert_eq!(removed_count(&vec![false, false]), 0);
}
