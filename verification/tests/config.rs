use icy::config::{
    default_daily, default_hourly, default_monthly, default_snapshot_dir, default_weekly, Config,
    ConfigManager, FilesystemType, RetentionPolicy,
};
use icy::paths::join_path;

fn named(name: &str, path: &str) -> Config {
    Config {
        name: name.to_string(),
        path: path.to_string(),
        snapshot_dir: String::new(),
        retention: RetentionPolicy::default(),
        fs_type: FilesystemType::default(),
        lvm_snapshot_size: "5G".to_string(),
    }
}

#[test]
fn defaults() {
    assert_eq!((default_hourly(), default_daily(), default_weekly(), default_monthly()), (0, 7, 4, 3));
    let r = RetentionPolicy::default();
    assert_eq!((r.hourly, r.daily, r.weekly, r.monthly), (0, 7, 4, 3));
    assert_eq!(FilesystemType::default(), FilesystemType::Auto);
}

#[test]
fn config_paths() {
    let m = ConfigManager::new();
    assert_eq!(m.config_dir, "/etc/icy/configs");
    assert_eq!(m.config_path("root"), "/etc/icy/configs/root.yaml");
    assert_eq!(join_path("/a/", "b"), "/a/b");
    assert_eq!(join_path("", "b"), "b");
    assert_eq!(join_path("/a", "/abs"), "/abs");
    assert_eq!(join_path("/a", "b"), std::path::Path::new("/a").join("b").to_str().unwrap());
}

#[test]
fn created_config_has_defaults() {
    let c = ConfigManager::new().create_config("home", "/home", "/home/.icy-snapshots");
    assert_eq!(c.name, "home");
    assert_eq!(c.path, "/home");
    assert_eq!(c.snapshot_dir, "/home/.icy-snapshots");
    assert_eq!(c.retention.daily, 7);
    assert_eq!(c.fs_type, FilesystemType::Auto);
    assert!(c.needs_fs_detection());
    assert_eq!(default_snapshot_dir("root", "/"), "//.icy-snapshots/root");
    assert_eq!(default_snapshot_dir("data", "/mnt/data"), "/mnt/data/.icy-snapshots/data");
}

#[test]
fn config_names_from_file_names() {
    let f = ConfigManager::config_name_from_file;
    assert_eq!(f("root.yaml"), Some("root".to_string()));
    assert_eq!(f("a.b.yaml"), Some("a.b".to_string()));
    assert_eq!(f(".yaml"), None);
    assert_eq!(f("root.yml"), None);
    assert_eq!(f("root"), None);
    assert_eq!(f("root.yaml.bak"), None);
    for name in ["root.yaml", "a.b.yaml", ".yaml", "x.", "..", "noext", ".hidden.yaml"] {
        let p = std::path::Path::new(name);
        let expected = if p.extension().and_then(|s| s.to_str()) == Some("yaml") {
            p.file_stem().and_then(|s| s.to_str()).map(|s| s.to_string())
        } else {
            None
        };
        assert_eq!(f(name), expected, "{}", name);
    }
}

#[test]
fn configs_sorted_by_name_stably() {
    let cs = vec![named("home", "1"), named("Zeta", "2"), named("data", "3"), named("home", "4"),
        named("é", "5"), named("", "6")];
    let mut expected = cs.clone();
    expected.sort_by(|a, b| a.name.cmp(&b.name));
    let r = ConfigManager::sort_configs(cs);
    let got: Vec<(String, String)> = r.iter().map(|c| (c.name.clone(), c.path.clone())).collect();
    let want: Vec<(String, String)> =
        expected.iter().map(|c| (c.name.clone(), c.path.clone())).collect();
    assert_eq!(got, want);
}
