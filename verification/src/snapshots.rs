//! Snapshots and their manager. The manager decides, from the recorded
//! snapshots, what each operation does: which commands run, what the
//! snapshot record becomes, and what is logged. Running the commands and
//! reading and writing the record are left to the caller.
use vstd::prelude::*;
use crate::config::{Config, FilesystemType};
use crate::paths::{join_path, joined_path};
use crate::sorting::{sorted_by, is_sorted_by, class_of, strict_weak_order, lemma_insert_sorted_at,
    lemma_sorted_by_sorted, lemma_sorted_by_stable, lemma_sorted_by_len};
use crate::text::{decimal, decimal_string, push_decimal};

verus! {

/// A point in time: whole seconds since the Unix epoch and the nanoseconds
/// within that second (a leap second shows as nanoseconds of one billion or
/// more).
#[derive(Debug, Clone, Copy, PartialEq, Eq, Structural)]
pub struct Timestamp {
    pub secs: i64,
    pub nanos: u32,
}

/// The position of a timestamp on the time line: later times have larger
/// keys.
pub open spec fn ts_key(t: Timestamp) -> int {
    t.secs * 4294967296 + t.nanos
}

/// The key order is the order of (seconds, nanoseconds) pairs.
pub proof fn lemma_ts_key_order(a: Timestamp, b: Timestamp)
    ensures
        ts_key(a) > ts_key(b) <==> (a.secs > b.secs || (a.secs == b.secs && a.nanos > b.nanos)),
        ts_key(a) == ts_key(b) <==> a == b,
{
    let sa = a.secs as int;
    let sb = b.secs as int;
    let na = a.nanos as int;
    let nb = b.nanos as int;
    assert(sa > sb ==> sa * 4294967296 >= sb * 4294967296 + 4294967296) by (nonlinear_arith);
    assert(sa < sb ==> sb * 4294967296 >= sa * 4294967296 + 4294967296) by (nonlinear_arith);
}

/// `a` is strictly later than the time `secs_before` seconds before `now`.
pub fn later_than_offset(a: Timestamp, now: Timestamp, secs_before: i64) -> (b: bool)
    ensures
        b == (ts_key(a) > ts_key(now) - secs_before * 4294967296),
{
    let s = (now.secs as i128) - (secs_before as i128);
    let r = (a.secs as i128) > s || ((a.secs as i128) == s && a.nanos > now.nanos);
    proof {
        let sa = a.secs as int;
        let na = a.nanos as int;
        let nn = now.nanos as int;
        let t = s as int;
        assert(ts_key(now) - secs_before * 4294967296 == t * 4294967296 + nn) by (nonlinear_arith)
            requires
                t == now.secs - secs_before,
                nn == now.nanos,
        ;
        assert(sa > t ==> sa * 4294967296 >= t * 4294967296 + 4294967296) by (nonlinear_arith);
        assert(sa < t ==> t * 4294967296 >= sa * 4294967296 + 4294967296) by (nonlinear_arith);
    }
    r
}

/// One recorded snapshot.
#[derive(Debug, Clone)]
pub struct Snapshot {
    pub id: usize,
    pub timestamp: Timestamp,
    pub description: String,
    pub path: String,
}

impl Snapshot {
    /// An identical copy.
    pub fn duplicate(&self) -> (r: Snapshot)
        ensures
            r == *self,
    {
        Snapshot {
            id: self.id,
            timestamp: self.timestamp,
            description: self.description.clone(),
            path: self.path.clone(),
        }
    }
}

/// An external command as text: the program and its arguments.
pub struct CommandView {
    pub program: Seq<char>,
    pub args: Seq<Seq<char>>,
}

/// An external command to run: the program and its arguments.
#[derive(Debug, Clone)]
pub struct Command {
    pub program: String,
    pub args: Vec<String>,
}

impl View for Command {
    type V = CommandView;

    open spec fn view(&self) -> CommandView {
        CommandView { program: self.program@, args: self.args@.map_values(|a: String| a@) }
    }
}

/// A command with the given program and no arguments yet.
fn command(program: &str) -> (c: Command)
    ensures
        c@.program == program@,
        c@.args == Seq::<Seq<char>>::empty(),
{
    let c = Command { program: program.to_owned(), args: Vec::new() };
    assert(c@.args =~= Seq::<Seq<char>>::empty());
    c
}

/// Appends one argument.
fn arg(c: &mut Command, a: &str)
    ensures
        final(c)@.program == old(c)@.program,
        final(c)@.args == old(c)@.args.push(a@),
{
    c.args.push(a.to_owned());
    assert(c@.args =~= old(c)@.args.push(a@));
}

/// `btrfs subvolume snapshot -r <source> <dest>`.
pub open spec fn btrfs_create_cmd(source: Seq<char>, dest: Seq<char>) -> CommandView {
    CommandView {
        program: "btrfs"@,
        args: seq!["subvolume"@, "snapshot"@, "-r"@, source, dest],
    }
}

/// `btrfs subvolume delete <path>`.
pub open spec fn btrfs_delete_cmd(path: Seq<char>) -> CommandView {
    CommandView { program: "btrfs"@, args: seq!["subvolume"@, "delete"@, path] }
}

/// `btrfs subvolume snapshot <source> <dest>` (writable).
pub open spec fn btrfs_copy_cmd(source: Seq<char>, dest: Seq<char>) -> CommandView {
    CommandView { program: "btrfs"@, args: seq!["subvolume"@, "snapshot"@, source, dest] }
}

/// `btrfs subvolume find-new <path> <since>`: the files of `path` changed
/// after generation `since`, and a last line `transid marker was <gen>`
/// with the generation of `path`.
pub open spec fn btrfs_find_new_cmd(path: Seq<char>, since: Seq<char>) -> CommandView {
    CommandView { program: "btrfs"@, args: seq!["subvolume"@, "find-new"@, path, since] }
}

/// `lvcreate --snapshot --name <name> --size <size> <origin>`.
pub open spec fn lvm_create_cmd(name: Seq<char>, size: Seq<char>, origin: Seq<char>) -> CommandView {
    CommandView {
        program: "lvcreate"@,
        args: seq!["--snapshot"@, "--name"@, name, "--size"@, size, origin],
    }
}

/// `lvremove -f <path>`.
pub open spec fn lvm_delete_cmd(path: Seq<char>) -> CommandView {
    CommandView { program: "lvremove"@, args: seq!["-f"@, path] }
}

/// `lvconvert --merge <path>`.
pub open spec fn lvm_merge_cmd(path: Seq<char>) -> CommandView {
    CommandView { program: "lvconvert"@, args: seq!["--merge"@, path] }
}

/// Why a snapshot operation was refused.
#[derive(Debug, Clone, Copy, PartialEq, Eq, Structural)]
pub enum SnapshotError {
    /// No recorded snapshot has this id.
    NotFound(usize),
    /// The filesystem kind is still unknown.
    DetectionFailed,
    /// `btrfs subvolume find-new` reported failure.
    FindNewFailed,
    /// `btrfs subvolume find-new` did not tell the generation.
    NoGeneration,
}

/// The text of an error.
pub open spec fn error_text(e: SnapshotError) -> Seq<char> {
    match e {
        SnapshotError::NotFound(id) => "Snapshot #"@ + decimal(id as nat) + " not found"@,
        SnapshotError::DetectionFailed => "Filesystem type detection failed"@,
        SnapshotError::FindNewFailed => "btrfs find-new failed"@,
        SnapshotError::NoGeneration => "btrfs find-new gave no generation"@,
    }
}

impl SnapshotError {
    /// The message that reports this error.
    pub fn message(&self) -> (m: String)
        ensures
            m@ == error_text(*self),
    {
        match self {
            SnapshotError::NotFound(id) => {
                let mut m = "Snapshot #".to_owned();
                push_decimal(&mut m, *id as u128);
                m.append(" not found");
                m
            },
            SnapshotError::DetectionFailed => "Filesystem type detection failed".to_owned(),
            SnapshotError::FindNewFailed => "btrfs find-new failed".to_owned(),
            SnapshotError::NoGeneration => "btrfs find-new gave no generation".to_owned(),
        }
    }
}

/// The orders in which snapshots are listed.
#[derive(Debug, Clone, Copy, PartialEq, Eq, Structural)]
pub enum SnapshotOrder {
    /// Ascending id.
    ById,
    /// Latest timestamp first.
    NewestFirst,
}

/// "Strictly before" for an order.
pub open spec fn snapshot_lt(order: SnapshotOrder) -> spec_fn(Snapshot, Snapshot) -> bool {
    match order {
        SnapshotOrder::ById => |a: Snapshot, b: Snapshot| a.id < b.id,
        SnapshotOrder::NewestFirst => |a: Snapshot, b: Snapshot|
            ts_key(a.timestamp) > ts_key(b.timestamp),
    }
}

/// Both orders are strict weak orders.
pub proof fn lemma_snapshot_order(order: SnapshotOrder)
    ensures
        strict_weak_order(snapshot_lt(order)),
{
}

fn precedes(a: &Snapshot, b: &Snapshot, order: SnapshotOrder) -> (r: bool)
    ensures
        r == (snapshot_lt(order))(*a, *b),
{
    match order {
        SnapshotOrder::ById => a.id < b.id,
        SnapshotOrder::NewestFirst => {
            proof {
                lemma_ts_key_order(a.timestamp, b.timestamp);
            }
            a.timestamp.secs > b.timestamp.secs || (a.timestamp.secs == b.timestamp.secs
                && a.timestamp.nanos > b.timestamp.nanos)
        },
    }
}

/// Snapshots in the given order, keeping the recorded order among
/// snapshots that the order does not tell apart (a stable sort).
pub fn sort_snapshots(snapshots: Vec<Snapshot>, order: SnapshotOrder) -> (r: Vec<Snapshot>)
    ensures
        r@ == sorted_by(snapshots@, snapshot_lt(order)),
        is_sorted_by(r@, snapshot_lt(order)),
        r@.len() == snapshots@.len(),
        forall|v: Snapshot|
            class_of(r@, v, snapshot_lt(order)) == #[trigger] class_of(
                snapshots@,
                v,
                snapshot_lt(order),
            ),
{
    let ghost s = snapshots@;
    let ghost lt = snapshot_lt(order);
    let mut rest = snapshots;
    let mut r: Vec<Snapshot> = Vec::new();
    let mut i: usize = 0;
    let n = rest.len();
    while rest.len() > 0
        invariant
            rest@ == s.skip(i as int),
            i + rest.len() == s.len(),
            n == s.len(),
            lt == snapshot_lt(order),
            r@ == sorted_by(s.take(i as int), lt),
        decreases rest.len(),
    {
        let x = rest.remove(0);
        let mut p: usize = r.len();
        loop
            invariant
                p <= r.len(),
                lt == snapshot_lt(order),
                forall|j: int| p <= j < r.len() ==> lt(x, #[trigger] r@[j]),
            ensures
                p <= r.len(),
                forall|j: int| p <= j < r.len() ==> lt(x, #[trigger] r@[j]),
                p == 0 || !lt(x, r@[p - 1]),
            decreases p,
        {
            if p == 0 {
                break;
            }
            if !precedes(&x, &r[p - 1], order) {
                break;
            }
            p = p - 1;
        }
        proof {
            lemma_insert_sorted_at(r@, x, lt, p as int);
            assert(s.take(i + 1).drop_last() =~= s.take(i as int));
            assert(s.take(i + 1).last() == x);
            assert(rest@ =~= s.skip(i + 1));
        }
        r.insert(p, x);
        i = i + 1;
    }
    proof {
        assert(s.take(n as int) =~= s);
        lemma_snapshot_order(order);
        lemma_sorted_by_sorted(s, lt);
        lemma_sorted_by_len(s, lt);
        assert forall|v: Snapshot| class_of(r@, v, lt) == #[trigger] class_of(s, v, lt) by {
            lemma_sorted_by_stable(s, v, lt);
        }
    }
    r
}

/// The largest id among `s`, or 0 when `s` is empty.
pub open spec fn max_id(s: Seq<Snapshot>) -> nat
    decreases s.len(),
{
    if s.len() == 0 {
        0
    } else if s.last().id > max_id(s.drop_last()) {
        s.last().id as nat
    } else {
        max_id(s.drop_last())
    }
}

/// The id that a new snapshot gets: one more than the largest recorded.
pub open spec fn next_id(s: Seq<Snapshot>) -> nat {
    max_id(s) + 1
}

/// The position of the first snapshot with this id, or -1.
pub open spec fn index_of_id(s: Seq<Snapshot>, id: usize) -> int
    decreases s.len(),
{
    if s.len() == 0 {
        -1
    } else if s[0].id == id {
        0
    } else if index_of_id(s.drop_first(), id) < 0 {
        -1
    } else {
        index_of_id(s.drop_first(), id) + 1
    }
}

/// `s` without the snapshots with this id.
pub open spec fn without_id(s: Seq<Snapshot>, id: usize) -> Seq<Snapshot>
    decreases s.len(),
{
    if s.len() == 0 {
        s
    } else if s.last().id == id {
        without_id(s.drop_last(), id)
    } else {
        without_id(s.drop_last(), id).push(s.last())
    }
}

/// Some recorded snapshot has this id.
pub open spec fn has_id(s: Seq<Snapshot>, id: usize) -> bool {
    exists|i: int| 0 <= i < s.len() && #[trigger] s[i].id == id
}

/// `max_id` bounds every id, and some snapshot has it when there is one.
pub proof fn lemma_max_id(s: Seq<Snapshot>)
    ensures
        forall|i: int| 0 <= i < s.len() ==> #[trigger] s[i].id <= max_id(s),
        s.len() > 0 ==> exists|i: int| 0 <= i < s.len() && #[trigger] s[i].id == max_id(s),
    decreases s.len(),
{
    if s.len() > 0 {
        lemma_max_id(s.drop_last());
        assert forall|i: int| 0 <= i < s.len() implies #[trigger] s[i].id <= max_id(s) by {
            if i < s.len() - 1 {
                assert(s[i] == s.drop_last()[i]);
            }
        }
        if s.last().id > max_id(s.drop_last()) || s.len() == 1 {
            assert(s[s.len() - 1].id == max_id(s));
        } else {
            let k = choose|k: int|
                0 <= k < s.drop_last().len() && #[trigger] s.drop_last()[k].id == max_id(
                    s.drop_last(),
                );
            assert(s[k] == s.drop_last()[k]);
        }
    }
}

proof fn lemma_index_of_id(s: Seq<Snapshot>, id: usize, i: int)
    requires
        0 <= i <= s.len(),
        forall|j: int| 0 <= j < i ==> #[trigger] s[j].id != id,
        i == s.len() || s[i].id == id,
    ensures
        index_of_id(s, id) == if i == s.len() {
            -1
        } else {
            i
        },
    decreases i,
{
    if i > 0 {
        assert forall|j: int| 0 <= j < i - 1 implies #[trigger] s.drop_first()[j].id != id by {
            assert(s.drop_first()[j] == s[j + 1]);
        }
        if i < s.len() {
            assert(s.drop_first()[i - 1] == s[i]);
        }
        lemma_index_of_id(s.drop_first(), id, i - 1);
    }
}

/// The position of the first snapshot with this id.
pub fn find_snapshot(snapshots: &Vec<Snapshot>, id: usize) -> (r: Option<usize>)
    ensures
        match r {
            Some(i) => i < snapshots.len() && index_of_id(snapshots@, id) == i as int,
            None => index_of_id(snapshots@, id) == -1,
        },
{
    let mut i: usize = 0;
    while i < snapshots.len()
        invariant
            i <= snapshots.len(),
            forall|j: int| 0 <= j < i ==> #[trigger] snapshots@[j].id != id,
        decreases snapshots.len() - i,
    {
        if snapshots[i].id == id {
            proof {
                lemma_index_of_id(snapshots@, id, i as int);
            }
            return Some(i);
        }
        i = i + 1;
    }
    proof {
        lemma_index_of_id(snapshots@, id, i as int);
    }
    None
}

/// `index_of_id` finds a snapshot exactly when one has the id.
pub proof fn lemma_index_of_id_has_id(s: Seq<Snapshot>, id: usize)
    ensures
        index_of_id(s, id) >= 0 <==> has_id(s, id),
        index_of_id(s, id) >= 0 ==> index_of_id(s, id) < s.len() && s[index_of_id(s, id)].id
            == id,
        index_of_id(s, id) < 0 ==> index_of_id(s, id) == -1,
    decreases s.len(),
{
    if s.len() > 0 {
        lemma_index_of_id_has_id(s.drop_first(), id);
        if has_id(s, id) && s[0].id != id {
            let k = choose|k: int| 0 <= k < s.len() && #[trigger] s[k].id == id;
            assert(s.drop_first()[k - 1] == s[k]);
        }
        if has_id(s.drop_first(), id) {
            let k = choose|k: int| 0 <= k < s.drop_first().len() && #[trigger] s.drop_first()[k].id
                == id;
            assert(s[k + 1] == s.drop_first()[k]);
        }
    }
}

/// `s` without the snapshots with this id, in their recorded order.
pub fn remove_snapshots_with_id(snapshots: Vec<Snapshot>, id: usize) -> (r: Vec<Snapshot>)
    ensures
        r@ == without_id(snapshots@, id),
{
    let ghost s = snapshots@;
    let mut rest = snapshots;
    let mut r: Vec<Snapshot> = Vec::new();
    let mut i: usize = 0;
    let n = rest.len();
    while rest.len() > 0
        invariant
            rest@ == s.skip(i as int),
            i + rest.len() == s.len(),
            n == s.len(),
            r@ == without_id(s.take(i as int), id),
        decreases rest.len(),
    {
        let x = rest.remove(0);
        proof {
            assert(s.take(i + 1).drop_last() =~= s.take(i as int));
            assert(s.take(i + 1).last() == x);
            assert(rest@ =~= s.skip(i + 1));
        }
        if x.id != id {
            r.push(x);
        }
        i = i + 1;
    }
    assert(s.take(n as int) =~= s);
    r
}

/// The name of the snapshot with this id: `snapshot-<id>`.
pub open spec fn snapshot_name(id: nat) -> Seq<char> {
    "snapshot-"@ + decimal(id)
}

/// A log line `<what> #<id> for <config name>`.
pub open spec fn log_text(what: Seq<char>, id: nat, config: Seq<char>) -> Seq<char> {
    what + " #"@ + decimal(id) + " for "@ + config
}

fn log_message(what: &str, id: usize, config: &str) -> (m: String)
    ensures
        m@ == log_text(what@, id as nat, config@),
{
    let mut m = what.to_owned();
    m.append(" #");
    push_decimal(&mut m, id as u128);
    m.append(" for ");
    m.append(config);
    assert(m@ =~= log_text(what@, id as nat, config@));
    m
}

/// What creating a snapshot does: run `command`, record `snapshots`
/// (the old record with `snapshot` appended), and log `log_message`.
pub struct CreatePlan {
    pub snapshot: Snapshot,
    pub command: Command,
    pub snapshots: Vec<Snapshot>,
    pub log_message: String,
}

/// What deleting a snapshot does: run `command`, record `snapshots`, log
/// `log_message`.
pub struct DeletePlan {
    pub command: Command,
    pub snapshots: Vec<Snapshot>,
    pub log_message: String,
}

/// What rolling back does: run `commands` in order, then log
/// `log_message`.
pub struct RollbackPlan {
    pub commands: Vec<Command>,
    pub log_message: String,
}

/// What comparing two snapshots does: learn the first snapshot's
/// generation and list what changed in the second after it, or answer these
/// lines directly.
pub enum DiffPlan {
    /// Run `generation_probe` to learn the generation of the first
    /// snapshot, then list what changed in the snapshot at `to_path` after
    /// it (`diff_after_probe` reads the probe's output).
    FindNew { generation_probe: Command, to_path: String },
    Lines(Vec<String>),
}

/// Manages the snapshots of one configuration.
pub struct SnapshotManager {
    pub config: Config,
    pub fs_type: FilesystemType,
    pub metadata_file: String,
}

/// `plan` is what creating a snapshot described `description` at time
/// `now` does, given the record `s`.
pub open spec fn is_create_plan(
    m: SnapshotManager,
    s: Seq<Snapshot>,
    description: Seq<char>,
    now: Timestamp,
    plan: CreatePlan,
) -> bool {
    let id = next_id(s);
    let name = snapshot_name(id);
    let path = joined_path(m.config.snapshot_dir@, name);
    &&& plan.snapshot.id == id
    &&& plan.snapshot.timestamp == now
    &&& plan.snapshot.description@ == description
    &&& plan.snapshot.path@ == path
    &&& plan.snapshots@ == s.push(plan.snapshot)
    &&& plan.command@ == match m.fs_type {
        FilesystemType::Lvm => lvm_create_cmd(name, m.config.lvm_snapshot_size@, m.config.path@),
        _ => btrfs_create_cmd(m.config.path@, path),
    }
    &&& plan.log_message@ == log_text("Created snapshot"@, id, m.config.name@)
}

impl SnapshotManager {
    /// The manager of `config`. When the configuration leaves the
    /// filesystem kind to be found out, `detected` is the kind found;
    /// otherwise it is not used.
    pub fn new(config: Config, detected: FilesystemType) -> (m: SnapshotManager)
        ensures
            m.config == config,
            m.fs_type == if config.fs_type == FilesystemType::Auto {
                detected
            } else {
                config.fs_type
            },
            m.metadata_file@ == joined_path(config.snapshot_dir@, "metadata.yaml"@),
    {
        let fs_type = match config.fs_type {
            FilesystemType::Auto => detected,
            other => other,
        };
        let metadata_file = join_path(config.snapshot_dir.as_str(), "metadata.yaml");
        SnapshotManager { config, fs_type, metadata_file }
    }

    /// `btrfs subvolume snapshot -r <config path> <dest>`.
    pub fn create_btrfs_snapshot(&self, dest: &str) -> (c: Command)
        ensures
            c@ == btrfs_create_cmd(self.config.path@, dest@),
    {
        let mut c = command("btrfs");
        arg(&mut c, "subvolume");
        arg(&mut c, "snapshot");
        arg(&mut c, "-r");
        arg(&mut c, self.config.path.as_str());
        arg(&mut c, dest);
        assert(c@.args =~= btrfs_create_cmd(self.config.path@, dest@).args);
        c
    }

    /// `btrfs subvolume delete <path>`.
    pub fn delete_btrfs_snapshot(&self, path: &str) -> (c: Command)
        ensures
            c@ == btrfs_delete_cmd(path@),
    {
        let mut c = command("btrfs");
        arg(&mut c, "subvolume");
        arg(&mut c, "delete");
        arg(&mut c, path);
        assert(c@.args =~= btrfs_delete_cmd(path@).args);
        c
    }

    /// Rolling back a btrfs subvolume: keep the current state as
    /// `<config path>.backup`, delete the subvolume, and make it anew from
    /// the snapshot.
    pub fn rollback_btrfs_snapshot(&self, snapshot_path: &str) -> (cs: Vec<Command>)
        ensures
            cs@.len() == 3,
            cs@[0]@ == btrfs_copy_cmd(self.config.path@, self.config.path@ + ".backup"@),
            cs@[1]@ == btrfs_delete_cmd(self.config.path@),
            cs@[2]@ == btrfs_copy_cmd(snapshot_path@, self.config.path@),
    {
        let mut backup = self.config.path.clone();
        backup.append(".backup");
        let mut c1 = command("btrfs");
        arg(&mut c1, "subvolume");
        arg(&mut c1, "snapshot");
        arg(&mut c1, self.config.path.as_str());
        arg(&mut c1, backup.as_str());
        assert(c1@.args =~= btrfs_copy_cmd(self.config.path@, self.config.path@ + ".backup"@).args);
        let c2 = self.delete_btrfs_snapshot(self.config.path.as_str());
        let mut c3 = command("btrfs");
        arg(&mut c3, "subvolume");
        arg(&mut c3, "snapshot");
        arg(&mut c3, snapshot_path);
        arg(&mut c3, self.config.path.as_str());
        assert(c3@.args =~= btrfs_copy_cmd(snapshot_path@, self.config.path@).args);
        let mut cs: Vec<Command> = Vec::new();
        cs.push(c1);
        cs.push(c2);
        cs.push(c3);
        cs
    }

    /// `btrfs subvolume find-new <from> 9999999`: no file is that new, so
    /// it only tells the generation of `from`.
    pub fn generation_probe(&self, from: &str) -> (c: Command)
        ensures
            c@ == btrfs_find_new_cmd(from@, "9999999"@),
    {
        let mut c = command("btrfs");
        arg(&mut c, "subvolume");
        arg(&mut c, "find-new");
        arg(&mut c, from);
        arg(&mut c, "9999999");
        assert(c@.args =~= btrfs_find_new_cmd(from@, "9999999"@).args);
        c
    }

    /// `btrfs subvolume find-new <to> <generation>`: the files of `to`
    /// changed after `generation`, the generation of the snapshot compared
    /// with.
    pub fn diff_btrfs_snapshots(&self, to: &str, generation: u64) -> (c: Command)
        ensures
            c@ == btrfs_find_new_cmd(to@, decimal(generation as nat)),
    {
        let since = decimal_string(generation as u128);
        let mut c = command("btrfs");
        arg(&mut c, "subvolume");
        arg(&mut c, "find-new");
        arg(&mut c, to);
        arg(&mut c, since.as_str());
        assert(c@.args =~= btrfs_find_new_cmd(to@, decimal(generation as nat)).args);
        c
    }

    /// `lvcreate --snapshot --name <name> --size <configured size> <config
    /// path>`.
    pub fn create_lvm_snapshot(&self, name: &str) -> (c: Command)
        ensures
            c@ == lvm_create_cmd(name@, self.config.lvm_snapshot_size@, self.config.path@),
    {
        let mut c = command("lvcreate");
        arg(&mut c, "--snapshot");
        arg(&mut c, "--name");
        arg(&mut c, name);
        arg(&mut c, "--size");
        arg(&mut c, self.config.lvm_snapshot_size.as_str());
        arg(&mut c, self.config.path.as_str());
        assert(c@.args =~= lvm_create_cmd(
            name@,
            self.config.lvm_snapshot_size@,
            self.config.path@,
        ).args);
        c
    }

    /// `lvremove -f <path>`.
    pub fn delete_lvm_snapshot(&self, path: &str) -> (c: Command)
        ensures
            c@ == lvm_delete_cmd(path@),
    {
        let mut c = command("lvremove");
        arg(&mut c, "-f");
        arg(&mut c, path);
        assert(c@.args =~= lvm_delete_cmd(path@).args);
        c
    }

    /// `lvconvert --merge <path>`.
    pub fn rollback_lvm_snapshot(&self, snapshot_path: &str) -> (c: Command)
        ensures
            c@ == lvm_merge_cmd(snapshot_path@),
    {
        let mut c = command("lvconvert");
        arg(&mut c, "--merge");
        arg(&mut c, snapshot_path);
        assert(c@.args =~= lvm_merge_cmd(snapshot_path@).args);
        c
    }

    /// The recorded snapshots in ascending id order (stable among equal
    /// ids).
    pub fn list_snapshots(&self, snapshots: Vec<Snapshot>) -> (r: Vec<Snapshot>)
        ensures
            r@ == sorted_by(snapshots@, snapshot_lt(SnapshotOrder::ById)),
            is_sorted_by(r@, snapshot_lt(SnapshotOrder::ById)),
            r@.len() == snapshots@.len(),
            forall|v: Snapshot|
                class_of(r@, v, snapshot_lt(SnapshotOrder::ById)) == #[trigger] class_of(
                    snapshots@,
                    v,
                    snapshot_lt(SnapshotOrder::ById),
                ),
    {
        sort_snapshots(snapshots, SnapshotOrder::ById)
    }

    /// Creating a snapshot described `description` at time `now` (the
    /// caller reads the clock): its id is one more than the largest recorded
    /// (1 for the first), its path is `snapshot-<id>` under the snapshot
    /// directory; refused while the filesystem kind is unknown.
    pub fn create_snapshot(&self, snapshots: Vec<Snapshot>, description: &str, now: Timestamp) -> (r:
        Result<CreatePlan, SnapshotError>)
        requires
            max_id(snapshots@) < usize::MAX,
        ensures
            self.fs_type == FilesystemType::Auto ==> r == Err::<CreatePlan, SnapshotError>(
                SnapshotError::DetectionFailed,
            ),
            self.fs_type != FilesystemType::Auto ==> (r matches Ok(plan) && is_create_plan(
                *self,
                snapshots@,
                description@,
                now,
                plan,
            )),
    {
        let ghost s = snapshots@;
        let mut max: usize = 0;
        let mut i: usize = 0;
        while i < snapshots.len()
            invariant
                i <= snapshots.len(),
                s == snapshots@,
                max == max_id(s.take(i as int)),
                max_id(s) < usize::MAX,
            decreases snapshots.len() - i,
        {
            proof {
                assert(s.take(i + 1).drop_last() =~= s.take(i as int));
                assert(s.take(i + 1).last() == s[i as int]);
            }
            if snapshots[i].id > max {
                max = snapshots[i].id;
            }
            i = i + 1;
        }
        assert(s.take(i as int) =~= s);
        let id = max + 1;
        let mut name = "snapshot-".to_owned();
        push_decimal(&mut name, id as u128);
        let path = join_path(self.config.snapshot_dir.as_str(), name.as_str());
        let command = match self.fs_type {
            FilesystemType::Btrfs => self.create_btrfs_snapshot(path.as_str()),
            FilesystemType::Lvm => self.create_lvm_snapshot(name.as_str()),
            FilesystemType::Auto => {
                return Err(SnapshotError::DetectionFailed);
            },
        };
        let snapshot = Snapshot {
            id,
            timestamp: now,
            description: description.to_owned(),
            path,
        };
        let mut list = snapshots;
        list.push(snapshot.duplicate());
        let log = log_message("Created snapshot", id, self.config.name.as_str());
        Ok(CreatePlan { snapshot, command, snapshots: list, log_message: log })
    }

    /// Deleting snapshot `id`: refused when no snapshot has the id, then
    /// while the filesystem kind is unknown; otherwise the first snapshot
    /// with the id is deleted on disk and every snapshot with the id leaves
    /// the record.
    pub fn delete_snapshot(&self, snapshots: Vec<Snapshot>, id: usize) -> (r: Result<
        DeletePlan,
        SnapshotError,
    >)
        ensures
            !has_id(snapshots@, id) ==> r == Err::<DeletePlan, SnapshotError>(
                SnapshotError::NotFound(id),
            ),
            has_id(snapshots@, id) && self.fs_type == FilesystemType::Auto ==> r == Err::<
                DeletePlan,
                SnapshotError,
            >(SnapshotError::DetectionFailed),
            has_id(snapshots@, id) && self.fs_type != FilesystemType::Auto ==> (r matches Ok(plan)
                && plan.snapshots@ == without_id(snapshots@, id) && plan.log_message@ == log_text(
                "Deleted snapshot"@,
                id as nat,
                self.config.name@,
            ) && plan.command@ == ({
                let path = snapshots@[index_of_id(snapshots@, id)].path@;
                if self.fs_type == FilesystemType::Btrfs {
                    btrfs_delete_cmd(path)
                } else {
                    lvm_delete_cmd(path)
                }
            })),
    {
        proof {
            lemma_index_of_id_has_id(snapshots@, id);
        }
        let k = match find_snapshot(&snapshots, id) {
            Some(k) => k,
            None => {
                return Err(SnapshotError::NotFound(id));
            },
        };
        let command = match self.fs_type {
            FilesystemType::Btrfs => self.delete_btrfs_snapshot(snapshots[k].path.as_str()),
            FilesystemType::Lvm => self.delete_lvm_snapshot(snapshots[k].path.as_str()),
            FilesystemType::Auto => {
                return Err(SnapshotError::DetectionFailed);
            },
        };
        let list = remove_snapshots_with_id(snapshots, id);
        let log = log_message("Deleted snapshot", id, self.config.name.as_str());
        Ok(DeletePlan { command, snapshots: list, log_message: log })
    }

    /// Rolling back to snapshot `id`: refused when no snapshot has the id,
    /// then while the filesystem kind is unknown.
    pub fn rollback_snapshot(&self, snapshots: &Vec<Snapshot>, id: usize) -> (r: Result<
        RollbackPlan,
        SnapshotError,
    >)
        ensures
            !has_id(snapshots@, id) ==> r == Err::<RollbackPlan, SnapshotError>(
                SnapshotError::NotFound(id),
            ),
            has_id(snapshots@, id) && self.fs_type == FilesystemType::Auto ==> r == Err::<
                RollbackPlan,
                SnapshotError,
            >(SnapshotError::DetectionFailed),
            has_id(snapshots@, id) && self.fs_type != FilesystemType::Auto ==> (r matches Ok(plan)
                && plan.log_message@ == log_text(
                "Rolled back to snapshot"@,
                id as nat,
                self.config.name@,
            ) && ({
                let path = snapshots@[index_of_id(snapshots@, id)].path@;
                let cs = plan.commands@;
                if self.fs_type == FilesystemType::Btrfs {
                    &&& cs.len() == 3
                    &&& cs[0]@ == btrfs_copy_cmd(self.config.path@, self.config.path@ + ".backup"@)
                    &&& cs[1]@ == btrfs_delete_cmd(self.config.path@)
                    &&& cs[2]@ == btrfs_copy_cmd(path, self.config.path@)
                } else {
                    &&& cs.len() == 1
                    &&& cs[0]@ == lvm_merge_cmd(path)
                }
            })),
    {
        proof {
            lemma_index_of_id_has_id(snapshots@, id);
        }
        let k = match find_snapshot(snapshots, id) {
            Some(k) => k,
            None => {
                return Err(SnapshotError::NotFound(id));
            },
        };
        let commands = match self.fs_type {
            FilesystemType::Btrfs => self.rollback_btrfs_snapshot(snapshots[k].path.as_str()),
            FilesystemType::Lvm => {
                let mut cs: Vec<Command> = Vec::new();
                cs.push(self.rollback_lvm_snapshot(snapshots[k].path.as_str()));
                cs
            },
            FilesystemType::Auto => {
                return Err(SnapshotError::DetectionFailed);
            },
        };
        let log = log_message("Rolled back to snapshot", id, self.config.name.as_str());
        Ok(RollbackPlan { commands, log_message: log })
    }

    /// Comparing snapshots `from` and `to`: refused when either is not
    /// recorded (`from` is looked up first), then while the filesystem kind
    /// is unknown. On btrfs, the generation of `from` is probed and the
    /// files of `to` changed after it are listed; LVM has no comparison and
    /// says so.
    pub fn diff_snapshots(&self, snapshots: &Vec<Snapshot>, from_id: usize, to_id: usize) -> (r:
        Result<DiffPlan, SnapshotError>)
        ensures
            !has_id(snapshots@, from_id) ==> r == Err::<DiffPlan, SnapshotError>(
                SnapshotError::NotFound(from_id),
            ),
            has_id(snapshots@, from_id) && !has_id(snapshots@, to_id) ==> r == Err::<
                DiffPlan,
                SnapshotError,
            >(SnapshotError::NotFound(to_id)),
            has_id(snapshots@, from_id) && has_id(snapshots@, to_id) ==> match self.fs_type {
                FilesystemType::Auto => r == Err::<DiffPlan, SnapshotError>(
                    SnapshotError::DetectionFailed,
                ),
                FilesystemType::Btrfs => r matches Ok(DiffPlan::FindNew { generation_probe: c, to_path: p })
                    && c@ == btrfs_find_new_cmd(
                    snapshots@[index_of_id(snapshots@, from_id)].path@,
                    "9999999"@,
                ) && p@ == snapshots@[index_of_id(snapshots@, to_id)].path@,
                FilesystemType::Lvm => r matches Ok(DiffPlan::Lines(lines)) && lines@.map_values(
                    |l: String| l@,
                ) == seq!["LVM diff not yet implemented"@],
            },
    {
        proof {
            lemma_index_of_id_has_id(snapshots@, from_id);
            lemma_index_of_id_has_id(snapshots@, to_id);
        }
        let f = match find_snapshot(snapshots, from_id) {
            Some(k) => k,
            None => {
                return Err(SnapshotError::NotFound(from_id));
            },
        };
        let t = match find_snapshot(snapshots, to_id) {
            Some(k) => k,
            None => {
                return Err(SnapshotError::NotFound(to_id));
            },
        };
        match self.fs_type {
            FilesystemType::Btrfs => Ok(
                DiffPlan::FindNew {
                    generation_probe: self.generation_probe(snapshots[f].path.as_str()),
                    to_path: snapshots[t].path.clone(),
                },
            ),
            FilesystemType::Lvm => {
                let mut lines: Vec<String> = Vec::new();
                lines.push("LVM diff not yet implemented".to_owned());
                assert(lines@.map_values(|l: String| l@) =~= seq![
                    "LVM diff not yet implemented"@,
                ]);
                Ok(DiffPlan::Lines(lines))
            },
            FilesystemType::Auto => Err(SnapshotError::DetectionFailed),
        }
    }
}

/// Removing an id that no snapshot has changes nothing.
pub proof fn lemma_without_absent_id(s: Seq<Snapshot>, id: usize)
    requires
        !has_id(s, id),
    ensures
        without_id(s, id) == s,
    decreases s.len(),
{
    if s.len() > 0 {
        let s2 = s.drop_last();
        assert(!has_id(s2, id)) by {
            if has_id(s2, id) {
                let k = choose|k: int| 0 <= k < s2.len() && #[trigger] s2[k].id == id;
                assert(s[k] == s2[k]);
            }
        }
        lemma_without_absent_id(s2, id);
        assert(s[s.len() - 1].id != id);
        assert(s2.push(s.last()) =~= s);
    }
}

/// After removing an id, no snapshot has it, and every other snapshot
/// stays.
pub proof fn lemma_without_id(s: Seq<Snapshot>, id: usize)
    ensures
        !has_id(without_id(s, id), id),
        forall|e: Snapshot| e.id != id ==> (s.contains(e) <==> #[trigger] without_id(s, id).contains(e)),
    decreases s.len(),
{
    if s.len() > 0 {
        let s2 = s.drop_last();
        lemma_without_id(s2, id);
        let w2 = without_id(s2, id);
        assert forall|e: Snapshot| e.id != id implies (s.contains(e) <==> #[trigger] without_id(
            s,
            id,
        ).contains(e)) by {
            let w = without_id(s, id);
            assert(s2.contains(e) <==> w2.contains(e));
            if s.contains(e) {
                let k = choose|k: int| 0 <= k < s.len() && s[k] == e;
                if k < s.len() - 1 {
                    assert(s2[k] == e);
                    assert(w2.contains(e));
                    let j = choose|j: int| 0 <= j < w2.len() && w2[j] == e;
                    if s.last().id != id {
                        assert(w[j] == e);
                    } else {
                        assert(w[j] == e);
                    }
                } else {
                    assert(s.last() == e);
                    assert(w[w2.len() as int] == e);
                }
            }
            if w.contains(e) {
                let j = choose|j: int| 0 <= j < w.len() && w[j] == e;
                if s.last().id != id && j == w2.len() {
                    assert(s[s.len() - 1] == e);
                } else {
                    assert(w2[j] == e);
                    assert(w2.contains(e));
                    let k = choose|k: int| 0 <= k < s2.len() && s2[k] == e;
                    assert(s[k] == e);
                }
            }
        }
        assert(!has_id(without_id(s, id), id)) by {
            let w = without_id(s, id);
            if has_id(w, id) {
                let k = choose|k: int| 0 <= k < w.len() && #[trigger] w[k].id == id;
                if s.last().id != id && k == w2.len() {
                } else {
                    assert(w2[k] == w[k]);
                }
            }
        }
    }
}

/// A new snapshot's id is larger than every recorded id, so no recorded
/// snapshot has it.
pub proof fn lemma_next_id_fresh(s: Seq<Snapshot>)
    ensures
        forall|i: int| 0 <= i < s.len() ==> #[trigger] s[i].id < next_id(s),
        next_id(s) <= usize::MAX ==> !has_id(s, next_id(s) as usize),
{
    lemma_max_id(s);
}

/// Deleting the snapshot that a creation made gives back the record as it
/// was before the creation.
pub proof fn lemma_delete_undoes_create(
    m: SnapshotManager,
    s: Seq<Snapshot>,
    description: Seq<char>,
    now: Timestamp,
    plan: CreatePlan,
)
    requires
        is_create_plan(m, s, description, now, plan),
    ensures
        has_id(plan.snapshots@, plan.snapshot.id),
        without_id(plan.snapshots@, plan.snapshot.id) == s,
{
    lemma_next_id_fresh(s);
    let t = plan.snapshots@;
    assert(t[t.len() - 1].id == plan.snapshot.id);
    assert(t.drop_last() =~= s);
    lemma_without_absent_id(s, plan.snapshot.id);
}

/// A created snapshot comes last in the id order: listing puts it after
/// every snapshot recorded before it.
pub proof fn lemma_created_listed_last(
    m: SnapshotManager,
    s: Seq<Snapshot>,
    description: Seq<char>,
    now: Timestamp,
    plan: CreatePlan,
)
    requires
        is_create_plan(m, s, description, now, plan),
    ensures
        sorted_by(plan.snapshots@, snapshot_lt(SnapshotOrder::ById)) == sorted_by(
            s,
            snapshot_lt(SnapshotOrder::ById),
        ).push(plan.snapshot),
{
    let lt = snapshot_lt(SnapshotOrder::ById);
    let t = plan.snapshots@;
    assert(t.drop_last() =~= s);
    let r = sorted_by(s, lt);
    lemma_next_id_fresh(s);
    lemma_sorted_by_len(s, lt);
    if r.len() > 0 {
        crate::sorting::lemma_insert_sorted_elements(
            sorted_by(s.drop_last(), lt),
            s.last(),
            lt,
        );
        assert(r.contains(r.last()) ) by {
            assert(r[r.len() - 1] == r.last());
        }
        lemma_sorted_contains(s, r.last());
        let k = choose|k: int| 0 <= k < s.len() && s[k] == r.last();
        assert(s[k].id < next_id(s));
    }
}

/// Every element of the sorted arrangement is an element of `s`.
pub proof fn lemma_sorted_contains(s: Seq<Snapshot>, e: Snapshot)
    requires
        sorted_by(s, snapshot_lt(SnapshotOrder::ById)).contains(e),
    ensures
        s.contains(e),
    decreases s.len(),
{
    let lt = snapshot_lt(SnapshotOrder::ById);
    if s.len() > 0 {
        let r2 = sorted_by(s.drop_last(), lt);
        crate::sorting::lemma_insert_sorted_elements(r2, s.last(), lt);
        let res = sorted_by(s, lt);
        let k = choose|k: int| 0 <= k < res.len() && res[k] == e;
        if e != s.last() {
            assert(res[k] == e);
            assert(r2.contains(e));
            lemma_sorted_contains(s.drop_last(), e);
            let j = choose|j: int| 0 <= j < s.drop_last().len() && s.drop_last()[j] == e;
            assert(s[j] == e);
        } else {
            assert(s[s.len() - 1] == e);
        }
    }
}

} // verus!
