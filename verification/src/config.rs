//! Snapshot configurations: the filesystem kind, the retention policy, the
//! configuration record, and where and in which order configurations are
//! kept on disk.
use vstd::prelude::*;
use crate::paths::{join_path, joined_path, extension_of, stem_of, find_last_dot};
use crate::sorting::{sorted_by, is_sorted_by, class_of, strict_weak_order, lemma_insert_sorted_at,
    lemma_sorted_by_sorted, lemma_sorted_by_stable};
use crate::text::{chars_of, chars_less, chars_lt, string_of_range, lemma_chars_lt_irreflexive,
    lemma_chars_lt_transitive, lemma_chars_lt_total};

verus! {

/// The kind of filesystem that snapshots are taken on.
#[derive(Debug, Clone, Copy, PartialEq, Eq, Structural)]
pub enum FilesystemType {
    Btrfs,
    Lvm,
    Auto,
}

impl Default for FilesystemType {
    fn default() -> (r: Self)
        ensures
            r == FilesystemType::Auto,
    {
        FilesystemType::Auto
    }
}

/// How many snapshots of each age class a cleanup keeps.
#[derive(Debug, Clone, Copy)]
pub struct RetentionPolicy {
    pub hourly: usize,
    pub daily: usize,
    pub weekly: usize,
    pub monthly: usize,
}

/// Hourly snapshots kept when a configuration does not say: none.
pub fn default_hourly() -> (r: usize)
    ensures
        r == 0,
{
    0
}

/// Daily snapshots kept when a configuration does not say: seven.
pub fn default_daily() -> (r: usize)
    ensures
        r == 7,
{
    7
}

/// Weekly snapshots kept when a configuration does not say: four.
pub fn default_weekly() -> (r: usize)
    ensures
        r == 4,
{
    4
}

/// Monthly snapshots kept when a configuration does not say: three.
pub fn default_monthly() -> (r: usize)
    ensures
        r == 3,
{
    3
}

/// The LVM snapshot size when a configuration does not say: `5G`.
pub fn default_lvm_snapshot_size() -> (r: String)
    ensures
        r@ == "5G"@,
{
    "5G".to_owned()
}

impl Default for RetentionPolicy {
    fn default() -> (r: Self)
        ensures
            r.hourly == 0,
            r.daily == 7,
            r.weekly == 4,
            r.monthly == 3,
    {
        RetentionPolicy {
            hourly: default_hourly(),
            daily: default_daily(),
            weekly: default_weekly(),
            monthly: default_monthly(),
        }
    }
}

/// One snapshot configuration: what is snapshotted, where snapshots go, and
/// how many are kept.
#[derive(Debug, Clone)]
pub struct Config {
    pub name: String,
    pub path: String,
    pub snapshot_dir: String,
    pub retention: RetentionPolicy,
    pub fs_type: FilesystemType,
    /// The size given to `lvcreate --size` for LVM snapshots.
    pub lvm_snapshot_size: String,
}

impl Config {
    /// The filesystem kind must be found out before snapshots are taken.
    pub fn needs_fs_detection(&self) -> (b: bool)
        ensures
            b == (self.fs_type == FilesystemType::Auto),
    {
        match self.fs_type {
            FilesystemType::Auto => true,
            _ => false,
        }
    }
}

/// The directory that holds the configuration files.
pub open spec fn config_dir_text() -> Seq<char> {
    "/etc/icy/configs"@
}

/// Where configurations are stored: one `<name>.yaml` file per
/// configuration in one directory.
pub struct ConfigManager {
    pub config_dir: String,
}

/// The file that holds configuration `name` under `dir`.
pub open spec fn config_file(dir: Seq<char>, name: Seq<char>) -> Seq<char> {
    joined_path(dir, name + ".yaml"@)
}

/// Configurations in name order ("strictly before" is the order of names).
pub open spec fn by_name() -> spec_fn(Config, Config) -> bool {
    |a: Config, b: Config| chars_lt(a.name@, b.name@)
}

/// The name of the configuration stored in the directory entry
/// `file_name`: its stem, when its extension is `yaml`.
pub open spec fn config_name_of_file(file_name: Seq<char>) -> Option<Seq<char>> {
    match extension_of(file_name) {
        Some(ext) => if ext == "yaml"@ {
            Some(stem_of(file_name))
        } else {
            None
        },
        None => None,
    }
}

/// The name order is a strict weak order.
pub proof fn lemma_by_name_order()
    ensures
        strict_weak_order(by_name()),
{
    let lt = by_name();
    assert forall|a: Config| !#[trigger] lt(a, a) by {
        lemma_chars_lt_irreflexive(a.name@);
    }
    assert forall|a: Config, b: Config, c: Config| #[trigger]
        lt(a, b) && #[trigger] lt(b, c) implies lt(a, c) by {
        lemma_chars_lt_transitive(a.name@, b.name@, c.name@);
    }
    assert forall|a: Config, b: Config, c: Config| #[trigger] lt(a, b) implies lt(a, c) || #[trigger] lt(
        c,
        b,
    ) by {
        lemma_chars_lt_total(a.name@, c.name@);
        if chars_lt(c.name@, a.name@) {
            lemma_chars_lt_transitive(c.name@, a.name@, b.name@);
        }
    }
}

impl ConfigManager {
    /// The manager of the standard configuration directory.
    pub fn new() -> (r: ConfigManager)
        ensures
            r.config_dir@ == config_dir_text(),
    {
        ConfigManager { config_dir: "/etc/icy/configs".to_owned() }
    }

    /// The file that holds configuration `name`.
    pub fn config_path(&self, name: &str) -> (r: String)
        ensures
            r@ == config_file(self.config_dir@, name@),
    {
        let mut file = name.to_owned();
        file.append(".yaml");
        join_path(self.config_dir.as_str(), file.as_str())
    }

    /// The configuration that `init` creates: the given name, path and
    /// snapshot directory, the default retention and LVM snapshot size, and
    /// a filesystem kind that is found out when snapshots are taken.
    pub fn create_config(&self, name: &str, path: &str, snapshot_dir: &str) -> (c: Config)
        ensures
            c.name@ == name@,
            c.path@ == path@,
            c.snapshot_dir@ == snapshot_dir@,
            c.retention.hourly == 0,
            c.retention.daily == 7,
            c.retention.weekly == 4,
            c.retention.monthly == 3,
            c.fs_type == FilesystemType::Auto,
            c.lvm_snapshot_size@ == "5G"@,
    {
        Config {
            name: name.to_owned(),
            path: path.to_owned(),
            snapshot_dir: snapshot_dir.to_owned(),
            retention: RetentionPolicy::default(),
            fs_type: FilesystemType::Auto,
            lvm_snapshot_size: default_lvm_snapshot_size(),
        }
    }

    /// The configuration name that a directory entry holds, if it holds one.
    pub fn config_name_from_file(file_name: &str) -> (r: Option<String>)
        ensures
            match r {
                Some(n) => config_name_of_file(file_name@) == Some(n@),
                None => config_name_of_file(file_name@) is None,
            },
    {
        let cs = chars_of(file_name);
        match find_last_dot(&cs) {
            None => None,
            Some(k) => {
                if k == 0 {
                    return None;
                }
                let ext = string_of_range(&cs, k + 1, cs.len());
                let is_yaml = ext == "yaml".to_owned();
                proof {
                    reveal_strlit("yaml");
                }
                if is_yaml {
                    Some(string_of_range(&cs, 0, k))
                } else {
                    None
                }
            },
        }
    }

    /// Configurations in name order, keeping the given order among equal
    /// names.
    pub fn sort_configs(configs: Vec<Config>) -> (r: Vec<Config>)
        ensures
            r@ == sorted_by(configs@, by_name()),
            is_sorted_by(r@, by_name()),
            r@.len() == configs@.len(),
            forall|v: Config| class_of(r@, v, by_name()) == #[trigger] class_of(configs@, v, by_name()),
    {
        let ghost s = configs@;
        let mut rest = configs;
        let mut r: Vec<Config> = Vec::new();
        let mut i: usize = 0;
        let n = rest.len();
        while rest.len() > 0
            invariant
                rest@ == s.skip(i as int),
                i + rest.len() == s.len(),
                n == s.len(),
                r@ == sorted_by(s.take(i as int), by_name()),
            decreases rest.len(),
        {
            let x = rest.remove(0);
            let xc = chars_of(x.name.as_str());
            let mut p: usize = r.len();
            loop
                invariant
                    p <= r.len(),
                    xc@ == x.name@,
                    forall|j: int| p <= j < r.len() ==> (by_name())(x, #[trigger] r@[j]),
                ensures
                    p <= r.len(),
                    forall|j: int| p <= j < r.len() ==> (by_name())(x, #[trigger] r@[j]),
                    p == 0 || !(by_name())(x, r@[p - 1]),
                decreases p,
            {
                if p == 0 {
                    break;
                }
                let yc = chars_of(r[p - 1].name.as_str());
                if !chars_less(&xc, &yc) {
                    break;
                }
                p = p - 1;
            }
            proof {
                lemma_insert_sorted_at(r@, x, by_name(), p as int);
                assert(s.take(i + 1).drop_last() =~= s.take(i as int));
                assert(s.take(i + 1).last() == x);
                assert(rest@ =~= s.skip(i + 1));
            }
            r.insert(p, x);
            i = i + 1;
        }
        proof {
            assert(s.take(n as int) =~= s);
            lemma_by_name_order();
            lemma_sorted_by_sorted(s, by_name());
            crate::sorting::lemma_sorted_by_len(s, by_name());
            assert forall|v: Config| class_of(r@, v, by_name()) == #[trigger] class_of(
                s,
                v,
                by_name(),
            ) by {
                lemma_sorted_by_stable(s, v, by_name());
            }
        }
        r
    }
}

/// The snapshot directory that `init` uses when none is given:
/// `<path>/.icy-snapshots/<name>`.
pub fn default_snapshot_dir(name: &str, path: &str) -> (r: String)
    ensures
        r@ == path@ + "/.icy-snapshots/"@ + name@,
{
    let mut r = path.to_owned();
    r.append("/.icy-snapshots/");
    r.append(name);
    r
}

} // verus!
