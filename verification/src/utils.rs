//! Utilities: human-readable sizes, the root check, filesystem detection,
//! path checks and log lines.
use vstd::prelude::*;
use crate::config::FilesystemType;
use crate::snapshots::{Command, CommandView};
use crate::text::{decimal, digit_char, push_decimal, chars_of, trim_chars, trimmed, to_lowercase,
    unicode_lowercase, contains_chars, contains_seq};

verus! {

/// 2^53: below it every integer is exactly an `f64`.
pub open spec fn f64_exact_limit() -> nat {
    9007199254740992
}

/// Halves `q` (doubling the scale `p`) until it fits in the 53 bits of an
/// `f64` significand.
pub open spec fn significand_scale(q: nat, p: nat) -> (nat, nat)
    decreases q,
{
    if q < f64_exact_limit() {
        (q, p)
    } else {
        significand_scale(q / 2, p * 2)
    }
}

/// `b as f64`, as an integer: `b` rounded to 53 significant bits, to
/// nearest with ties to even (the rounding of Rust's `as`).
pub open spec fn f64_of(b: nat) -> nat {
    let (q, p) = significand_scale(b, 1);
    let r = b % p;
    if 2 * r > p || (2 * r == p && q % 2 == 1) {
        (q + 1) * p
    } else {
        q * p
    }
}

/// 1024 to the power `i`.
pub open spec fn kib_pow(i: nat) -> nat
    decreases i,
{
    if i == 0 {
        1
    } else {
        1024 * kib_pow((i - 1) as nat)
    }
}

/// The unit that a size of `v` bytes is shown in: the largest of B, KB,
/// MB, GB, TB that `v` reaches.
pub open spec fn unit_index(v: nat) -> nat {
    if v >= kib_pow(4) {
        4
    } else if v >= kib_pow(3) {
        3
    } else if v >= kib_pow(2) {
        2
    } else if v >= kib_pow(1) {
        1
    } else {
        0
    }
}

/// The unit names.
pub open spec fn unit_name(i: nat) -> Seq<char> {
    if i == 0 {
        "B"@
    } else if i == 1 {
        "KB"@
    } else if i == 2 {
        "MB"@
    } else if i == 3 {
        "GB"@
    } else {
        "TB"@
    }
}

/// `n / d` rounded to the nearest integer, ties to even.
pub open spec fn div_round_even(n: nat, d: nat) -> nat {
    let q = n / d;
    let r = n % d;
    if 2 * r > d || (2 * r == d && q % 2 == 1) {
        q + 1
    } else {
        q
    }
}

/// The size in hundredths of its unit, as `{:.2}` rounds it (to nearest,
/// ties to even).
pub open spec fn hundredths(v: nat) -> nat {
    div_round_even(v * 100, kib_pow(unit_index(v)))
}

/// What `format_bytes` shows for `bytes`: `0 B`, or the size as an `f64`
/// divided down to its unit, with two decimals, a space and the unit.
pub open spec fn format_bytes_text(bytes: nat) -> Seq<char> {
    if bytes == 0 {
        "0 B"@
    } else {
        let v = f64_of(bytes);
        let h = hundredths(v);
        decimal(h / 100) + seq!['.', digit_char((h % 100) / 10), digit_char(h % 10), ' ']
            + unit_name(unit_index(v))
    }
}

proof fn lemma_scale_step(b: nat, q: nat, p: nat)
    requires
        p > 0,
        q == b / p,
    ensures
        q / 2 == b / (p * 2),
{
    vstd::arithmetic::div_mod::lemma_div_denominator(b as int, p as int, 2);
}

/// A byte count for people: `0 B`, or e.g. `1.50 KB`, in the largest unit
/// (up to TB) that the count reaches, with two decimals.
pub fn format_bytes(bytes: u64) -> (s: String)
    ensures
        s@ == format_bytes_text(bytes as nat),
{
    if bytes == 0 {
        return "0 B".to_owned();
    }
    let b: u128 = bytes as u128;
    let mut q: u128 = b;
    let mut p: u128 = 1;
    while q >= 9007199254740992
        invariant
            p >= 1,
            p <= 4096,
            q >= 1,
            q == b / p,
            p * q <= b,
            b < 18446744073709551616,
            significand_scale(q as nat, p as nat) == significand_scale(b as nat, 1),
        decreases q,
    {
        assert(p < 2048) by (nonlinear_arith)
            requires
                q >= 9007199254740992,
                p * q <= b,
                b < 18446744073709551616,
                p >= 1,
        ;
        proof {
            lemma_scale_step(b as nat, q as nat, p as nat);
        }
        assert((p * 2) * (q / 2) <= p * q) by (nonlinear_arith)
            requires
                p >= 1,
        ;
        q = q / 2;
        p = p * 2;
    }
    let r = b % p;
    assert((q + 1) * p <= 9007199254740992 * 4096) by (nonlinear_arith)
        requires
            p <= 4096,
            q < 9007199254740992,
    ;
    assert(q * p <= (q + 1) * p) by (nonlinear_arith);
    let v: u128 = if 2 * r > p || (2 * r == p && q % 2 == 1) {
        (q + 1) * p
    } else {
        q * p
    };
    assert(v as nat == f64_of(b as nat));
    assert(v <= 9007199254740992 * 4096) by (nonlinear_arith)
        requires
            p <= 4096,
            q < 9007199254740992,
            v == (q + 1) * p || v == q * p,
    ;
    let (d, idx): (u128, usize) = if v >= 1099511627776 {
        (1099511627776, 4)
    } else if v >= 1073741824 {
        (1073741824, 3)
    } else if v >= 1048576 {
        (1048576, 2)
    } else if v >= 1024 {
        (1024, 1)
    } else {
        (1, 0)
    };
    reveal_with_fuel(kib_pow, 5);
    assert(kib_pow(1) == 1024);
    assert(kib_pow(2) == 1048576);
    assert(kib_pow(3) == 1073741824);
    assert(kib_pow(4) == 1099511627776);
    assert(idx as nat == unit_index(v as nat));
    assert(d as nat == kib_pow(idx as nat));
    let n = v * 100;
    let q2 = n / d;
    let r2 = n % d;
    let h: u128 = if 2 * r2 > d || (2 * r2 == d && q2 % 2 == 1) {
        q2 + 1
    } else {
        q2
    };
    assert(h as nat == hundredths(v as nat));
    let mut s = String::new();
    push_decimal(&mut s, h / 100);
    s.push('.');
    let t = (h % 100) / 10;
    let u = h % 10;
    s.push(((48 + t) as u8) as char);
    s.push(((48 + u) as u8) as char);
    s.push(' ');
    let unit = match idx {
        0 => "B",
        1 => "KB",
        2 => "MB",
        3 => "GB",
        _ => "TB",
    };
    s.append(unit);
    proof {
        reveal_strlit("B");
        reveal_strlit("KB");
        reveal_strlit("MB");
        reveal_strlit("GB");
        reveal_strlit("TB");
        assert(s@ =~= format_bytes_text(bytes as nat));
    }
    s
}

/// Rounding a quotient to nearest, ties to even, keeps the order of
/// numerators.
pub proof fn lemma_div_round_even_monotone(n1: nat, n2: nat, d: nat)
    requires
        n1 <= n2,
        d > 0,
    ensures
        div_round_even(n1, d) <= div_round_even(n2, d),
{
    let q1 = n1 / d;
    let q2 = n2 / d;
    vstd::arithmetic::div_mod::lemma_div_is_ordered(n1 as int, n2 as int, d as int);
    vstd::arithmetic::div_mod::lemma_fundamental_div_mod(n1 as int, d as int);
    vstd::arithmetic::div_mod::lemma_fundamental_div_mod(n2 as int, d as int);
    vstd::arithmetic::div_mod::lemma_mod_bound(n1 as int, d as int);
    vstd::arithmetic::div_mod::lemma_mod_bound(n2 as int, d as int);
    if q1 == q2 {
        assert(n1 % d <= n2 % d);
    }
}

proof fn lemma_scale_facts(x: nat, q: nat, p: nat)
    requires
        p >= 1,
        q == x / p,
    ensures
        ({
            let (q2, p2) = significand_scale(q, p);
            &&& p2 >= p
            &&& q2 == x / p2
            &&& q2 < f64_exact_limit()
            &&& p2 > p ==> q2 >= f64_exact_limit() / 2 && p2 >= 2 * p
        }),
    decreases q,
{
    if q >= f64_exact_limit() {
        lemma_scale_step(x, q, p);
        lemma_scale_facts(x, q / 2, p * 2);
    }
}

proof fn lemma_scale_pair(a: nat, b: nat, qa: nat, qb: nat, p: nat)
    requires
        a <= b,
        p >= 1,
        qa == a / p,
        qb == b / p,
    ensures
        ({
            let (qa2, pa2) = significand_scale(qa, p);
            let (qb2, pb2) = significand_scale(qb, p);
            pa2 == pb2 || (pa2 < pb2 && qb2 >= f64_exact_limit() / 2 && pb2 >= 2 * pa2)
        }),
    decreases qb,
{
    vstd::arithmetic::div_mod::lemma_div_is_ordered(a as int, b as int, p as int);
    if qb < f64_exact_limit() {
    } else if qa < f64_exact_limit() {
        lemma_scale_facts(b, qb, p);
    } else {
        lemma_scale_step(a, qa, p);
        lemma_scale_step(b, qb, p);
        lemma_scale_pair(a, b, qa / 2, qb / 2, p * 2);
    }
}

proof fn lemma_f64_of_bounds(x: nat)
    ensures
        ({
            let (q, p) = significand_scale(x, 1);
            &&& p >= 1
            &&& q == x / p
            &&& q < f64_exact_limit()
            &&& q * p <= f64_of(x) <= (q + 1) * p
            &&& f64_of(x) == div_round_even(x, p) * p
        }),
{
    lemma_scale_facts(x, x, 1);
    let (q, p) = significand_scale(x, 1);
    assert(q * p <= (q + 1) * p) by (nonlinear_arith);
}

/// `b as f64` keeps the order of integers.
pub proof fn lemma_f64_of_monotone(a: nat, b: nat)
    requires
        a <= b,
    ensures
        f64_of(a) <= f64_of(b),
{
    lemma_scale_pair(a, b, a, b, 1);
    lemma_f64_of_bounds(a);
    lemma_f64_of_bounds(b);
    let (qa, pa) = significand_scale(a, 1);
    let (qb, pb) = significand_scale(b, 1);
    if pa == pb {
        lemma_div_round_even_monotone(a, b, pa);
        assert(div_round_even(a, pa) * pa <= div_round_even(b, pa) * pa) by (nonlinear_arith)
            requires
                div_round_even(a, pa) <= div_round_even(b, pa),
        ;
    } else {
        assert((qa + 1) * pa <= f64_exact_limit() * pa) by (nonlinear_arith)
            requires
                qa < f64_exact_limit(),
        ;
        assert(f64_exact_limit() * pa <= (f64_exact_limit() / 2) * pb) by (nonlinear_arith)
            requires
                pb >= 2 * pa,
                f64_exact_limit() == 9007199254740992,
        ;
        assert((f64_exact_limit() / 2) * pb <= qb * pb) by (nonlinear_arith)
            requires
                qb >= f64_exact_limit() / 2,
        ;
    }
}

/// More bytes never show less: the unit of `format_bytes` does not go down
/// as the count grows, and within one unit the number shown (in
/// hundredths) does not go down either.
pub proof fn lemma_format_bytes_monotone(a: nat, b: nat)
    requires
        a <= b,
    ensures
        unit_index(f64_of(a)) <= unit_index(f64_of(b)),
        unit_index(f64_of(a)) == unit_index(f64_of(b)) ==> hundredths(f64_of(a)) <= hundredths(
            f64_of(b),
        ),
{
    lemma_f64_of_monotone(a, b);
    let va = f64_of(a);
    let vb = f64_of(b);
    if unit_index(va) == unit_index(vb) {
        let d = kib_pow(unit_index(va));
        reveal_with_fuel(kib_pow, 5);
        assert(d > 0);
        lemma_div_round_even_monotone(va * 100, vb * 100, d);
    }
}

/// Why a utility refused.
#[derive(Debug, Clone)]
pub enum UtilError {
    /// The process does not run as root.
    RootRequired,
    /// Neither `findmnt` nor `lvdisplay` recognised the path.
    UndetectedFilesystem(String),
    /// The path does not exist.
    PathMissing(String),
    /// The path exists but its metadata cannot be read.
    PathInaccessible(String),
}

/// The text of an error.
pub open spec fn util_error_text(e: UtilError) -> Seq<char> {
    match e {
        UtilError::RootRequired => "Root privileges required"@,
        UtilError::UndetectedFilesystem(p) => "Unable to detect filesystem type for "@ + p@,
        UtilError::PathMissing(p) => "Path '"@ + p@ + "' does not exist"@,
        UtilError::PathInaccessible(p) => "Cannot access path '"@ + p@ + "'"@,
    }
}

impl UtilError {
    /// The message that reports this error.
    pub fn message(&self) -> (m: String)
        ensures
            m@ == util_error_text(*self),
    {
        match self {
            UtilError::RootRequired => "Root privileges required".to_owned(),
            UtilError::UndetectedFilesystem(p) => {
                let mut m = "Unable to detect filesystem type for ".to_owned();
                m.append(p.as_str());
                m
            },
            UtilError::PathMissing(p) => {
                let mut m = "Path '".to_owned();
                m.append(p.as_str());
                m.append("' does not exist");
                m
            },
            UtilError::PathInaccessible(p) => {
                let mut m = "Cannot access path '".to_owned();
                m.append(p.as_str());
                m.append("'");
                m
            },
        }
    }
}

/// nix's `Uid::effective().is_root()`: whether the process runs with
/// effective user id 0. It reads the process's credentials, so nothing is
/// stated of the answer.
#[verifier::external_body]
fn effective_uid_is_root() -> bool {
    nix::unistd::Uid::effective().is_root()
}

/// The answer of the root check, given whether the process runs as root:
/// `Ok` for root, `RootRequired` otherwise.
pub fn root_verdict(is_root: bool) -> (r: Result<(), UtilError>)
    ensures
        is_root ==> r matches Ok(_),
        !is_root ==> r matches Err(UtilError::RootRequired),
{
    if !is_root {
        return Err(UtilError::RootRequired);
    }
    Ok(())
}

/// Refuses unless the process runs as root. Whether it does is read from
/// the process's credentials (nix), so the answer is one of the two that
/// `root_verdict` gives.
pub fn check_root_privileges() -> (r: Result<(), UtilError>)
    ensures
        r matches Ok(_) || r matches Err(UtilError::RootRequired),
{
    root_verdict(effective_uid_is_root())
}

/// `findmnt -n -o FSTYPE <path>`: prints the filesystem type of the mount
/// that holds `path`.
pub fn findmnt_command(path: &str) -> (c: Command)
    ensures
        c@ == (CommandView { program: "findmnt"@, args: seq!["-n"@, "-o"@, "FSTYPE"@, path@] }),
{
    let mut args: Vec<String> = Vec::new();
    args.push("-n".to_owned());
    args.push("-o".to_owned());
    args.push("FSTYPE".to_owned());
    args.push(path.to_owned());
    let c = Command { program: "findmnt".to_owned(), args };
    assert(c@.args =~= seq!["-n"@, "-o"@, "FSTYPE"@, path@]);
    c
}

/// `lvdisplay <path>`: succeeds when `path` is an LVM logical volume.
pub fn lvdisplay_command(path: &str) -> (c: Command)
    ensures
        c@ == (CommandView { program: "lvdisplay"@, args: seq![path@] }),
{
    let mut args: Vec<String> = Vec::new();
    args.push(path.to_owned());
    let c = Command { program: "lvdisplay".to_owned(), args };
    assert(c@.args =~= seq![path@]);
    c
}

/// `findmnt` names btrfs: it succeeded, and its output, trimmed and in
/// lower case, contains `btrfs`.
pub open spec fn findmnt_names_btrfs(success: bool, stdout: Seq<char>) -> bool {
    success && contains_seq(unicode_lowercase(trimmed(stdout)), "btrfs"@)
}

/// Reads what `findmnt` gave back.
pub fn findmnt_says_btrfs(success: bool, stdout: &str) -> (b: bool)
    ensures
        b == findmnt_names_btrfs(success, stdout@),
{
    if !success {
        return false;
    }
    let cs = chars_of(stdout);
    let t = trim_chars(&cs);
    let mut ts = String::new();
    let mut i: usize = 0;
    while i < t.len()
        invariant
            i <= t.len(),
            ts@ == t@.take(i as int),
        decreases t.len() - i,
    {
        ts.push(t[i]);
        i = i + 1;
        assert(ts@ =~= t@.take(i as int));
    }
    assert(t@.take(t.len() as int) =~= t@);
    let lower = to_lowercase(ts.as_str());
    let hay = chars_of(lower.as_str());
    let needle = chars_of("btrfs");
    contains_chars(&hay, &needle)
}

/// The filesystem kind of `path` from the probes: btrfs when `findmnt`
/// named it, else LVM when `lvdisplay` succeeded on it, else refused.
pub fn detect_filesystem_type(path: &str, findmnt_btrfs: bool, lvdisplay_ok: bool) -> (r: Result<
    FilesystemType,
    UtilError,
>)
    ensures
        findmnt_btrfs ==> r matches Ok(FilesystemType::Btrfs),
        !findmnt_btrfs && lvdisplay_ok ==> r matches Ok(FilesystemType::Lvm),
        !findmnt_btrfs && !lvdisplay_ok ==> (r matches Err(UtilError::UndetectedFilesystem(p))
            && p@ == path@),
{
    if findmnt_btrfs {
        return Ok(FilesystemType::Btrfs);
    }
    if lvdisplay_ok {
        return Ok(FilesystemType::Lvm);
    }
    Err(UtilError::UndetectedFilesystem(path.to_owned()))
}

/// Whether `path` can be used, from the probes: refused when it does not
/// exist, then when its metadata cannot be read.
pub fn check_path_accessible(path: &str, exists: bool, metadata_readable: bool) -> (r: Result<
    (),
    UtilError,
>)
    ensures
        !exists ==> (r matches Err(UtilError::PathMissing(p)) && p@ == path@),
        exists && !metadata_readable ==> (r matches Err(UtilError::PathInaccessible(p)) && p@
            == path@),
        exists && metadata_readable ==> r matches Ok(_),
{
    if !exists {
        return Err(UtilError::PathMissing(path.to_owned()));
    }
    if !metadata_readable {
        return Err(UtilError::PathInaccessible(path.to_owned()));
    }
    Ok(())
}

/// The line written to the log for `message` at `timestamp`:
/// `[<timestamp>] <message>` and a line feed.
pub fn log_line(timestamp: &str, message: &str) -> (s: String)
    ensures
        s@ == seq!['['] + timestamp@ + "] "@ + message@ + seq!['\n'],
{
    let mut s = String::new();
    s.push('[');
    s.append(timestamp);
    s.append("] ");
    s.append(message);
    s.push('\n');
    assert(s@ =~= seq!['['] + timestamp@ + "] "@ + message@ + seq!['\n']);
    s
}

} // verus!
