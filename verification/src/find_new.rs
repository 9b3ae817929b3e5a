//! Reading the output of `btrfs subvolume find-new`: each file line names a
//! changed file after its flags field, and the line
//! `transid marker was <generation>` tells the generation of the subvolume.
use vstd::prelude::*;
use crate::snapshots::SnapshotError;
use crate::text::{chars_of, string_of, decimal, occurs_at};
use crate::snapshots::{Snapshot, SnapshotManager, Command, btrfs_find_new_cmd};

verus! {

/// The text between line feeds, in order (std's `str::lines`, except that a
/// final empty piece after a closing line feed, or the single empty piece
/// of empty text, is kept; such pieces hold no word and add nothing below).
pub open spec fn pieces(cs: Seq<char>) -> Seq<Seq<char>>
    decreases cs.len(),
{
    if cs.len() == 0 {
        seq![Seq::<char>::empty()]
    } else {
        let p = pieces(cs.drop_last());
        if cs.last() == '\n' {
            p.push(Seq::<char>::empty())
        } else {
            p.update(p.len() - 1, p.last().push(cs.last()))
        }
    }
}

/// The first position at or after `i` where `needle` occurs in `hay`.
pub open spec fn find_from(hay: Seq<char>, needle: Seq<char>, i: int) -> Option<int>
    decreases hay.len() - i,
{
    if i < 0 || i >= hay.len() {
        None
    } else if occurs_at(hay, needle, i) {
        Some(i)
    } else {
        find_from(hay, needle, i + 1)
    }
}

/// The text before the flags field of a file line of `find-new`.
pub open spec fn flags_marker() -> Seq<char> {
    " flags "@
}

/// The file that a line of `find-new` output names. A file line reads
/// `inode <n> file offset <n> len <n> disk start <n> offset <n> gen <n>
/// flags <flags> <path>`: the file is all the text after the flags field,
/// spaces included. Other lines, the generation marker among them, name no
/// file.
pub open spec fn file_of_line(line: Seq<char>) -> Option<Seq<char>> {
    match find_from(line, flags_marker(), 0) {
        Some(k) => {
            let rest = line.skip(k + flags_marker().len());
            match find_from(rest, " "@, 0) {
                Some(j) => Some(rest.skip(j + 1)),
                None => None,
            }
        },
        None => None,
    }
}

/// The files that `lines` name, in order.
pub open spec fn files_of_lines(lines: Seq<Seq<char>>) -> Seq<Seq<char>>
    decreases lines.len(),
{
    if lines.len() == 0 {
        Seq::empty()
    } else {
        match file_of_line(lines.last()) {
            Some(f) => files_of_lines(lines.drop_last()).push(f),
            None => files_of_lines(lines.drop_last()),
        }
    }
}

/// The changed files that `find-new` output `out` names, one per file
/// line, in order.
pub open spec fn changed_files(out: Seq<char>) -> Seq<Seq<char>> {
    files_of_lines(pieces(out))
}

proof fn lemma_find_from_absent(hay: Seq<char>, needle: Seq<char>, i: int)
    requires
        forall|j: int| i <= j ==> !occurs_at(hay, needle, j),
    ensures
        find_from(hay, needle, i) is None,
    decreases hay.len() - i,
{
    if 0 <= i < hay.len() {
        lemma_find_from_absent(hay, needle, i + 1);
    }
}

/// A generation marker line names no changed file.
pub proof fn lemma_marker_line_names_no_file(line: Seq<char>)
    requires
        marker_value(line) is Some,
    ensures
        file_of_line(line) is None,
{
    reveal_strlit(" flags ");
    reveal_strlit("transid marker was ");
    let n = marker_prefix().len() as int;
    assert forall|j: int| 0 <= j implies !occurs_at(line, flags_marker(), j) by {
        if occurs_at(line, flags_marker(), j) {
            assert(line.subrange(j, j + 7)[1] == 'f');
            assert(line[j + 1] == 'f');
            if j + 1 < n {
                assert(line.take(n)[j + 1] == line[j + 1]);
            } else {
                assert(is_digit(line[j + 1]));
            }
        }
    }
    lemma_find_from_absent(line, flags_marker(), 0);
}

/// The characters of `cs` from position `from` on.
fn chars_from(cs: &Vec<char>, from: usize) -> (r: Vec<char>)
    requires
        from <= cs.len(),
    ensures
        r@ == cs@.skip(from as int),
{
    let mut r: Vec<char> = Vec::new();
    let mut i: usize = from;
    while i < cs.len()
        invariant
            from <= i <= cs.len(),
            r@ == cs@.subrange(from as int, i as int),
        decreases cs.len() - i,
    {
        r.push(cs[i]);
        i = i + 1;
        assert(r@ =~= cs@.subrange(from as int, i as int));
    }
    assert(r@ =~= cs@.skip(from as int));
    r
}

/// Whether `needle` occurs in `hay` at position `i`, compared directly.
fn occurs_at_exec(hay: &Vec<char>, needle: &Vec<char>, i: usize) -> (b: bool)
    ensures
        b == occurs_at(hay@, needle@, i as int),
{
    if i > hay.len() || needle.len() > hay.len() - i {
        return false;
    }
    let mut j: usize = 0;
    while j < needle.len()
        invariant
            i + needle.len() <= hay.len(),
            j <= needle.len(),
            forall|q: int| 0 <= q < j ==> hay@[i + q] == needle@[q],
        decreases needle.len() - j,
    {
        if hay[i + j] != needle[j] {
            assert(hay@.subrange(i as int, i + needle@.len())[j as int] != needle@[j as int]);
            return false;
        }
        j = j + 1;
    }
    assert(hay@.subrange(i as int, i + needle@.len()) =~= needle@);
    true
}

/// `find_from`, by a search from `from` on.
fn find_chars(hay: &Vec<char>, needle: &Vec<char>, from: usize) -> (r: Option<usize>)
    requires
        from <= hay.len(),
    ensures
        match r {
            Some(k) => find_from(hay@, needle@, from as int) == Some(k as int) && occurs_at(
                hay@,
                needle@,
                k as int,
            ),
            None => find_from(hay@, needle@, from as int) is None,
        },
{
    let mut i: usize = from;
    while i < hay.len()
        invariant
            from <= i <= hay.len(),
            find_from(hay@, needle@, from as int) == find_from(hay@, needle@, i as int),
        decreases hay.len() - i,
    {
        if occurs_at_exec(hay, needle, i) {
            return Some(i);
        }
        i = i + 1;
    }
    None
}

/// The file that `line` names, as `file_of_line` says.
fn file_of(line: &Vec<char>, flags: &Vec<char>, space: &Vec<char>) -> (r: Option<Vec<char>>)
    requires
        flags@ == flags_marker(),
        space@ == " "@,
    ensures
        match r {
            Some(f) => file_of_line(line@) == Some(f@),
            None => file_of_line(line@) is None,
        },
{
    match find_chars(line, flags, 0) {
        Some(k) => {
            let line_len = line.len();
            assert(occurs_at(line@, flags@, k as int));
            assert(k + flags@.len() <= line_len);
            let rest = chars_from(line, k + flags.len());
            match find_chars(&rest, space, 0) {
                Some(j) => {
                    let rest_len = rest.len();
                    proof {
                        reveal_strlit(" ");
                    }
                    assert(occurs_at(rest@, space@, j as int));
                    assert(j + 1 <= rest_len);
                    Some(chars_from(&rest, j + 1))
                },
                None => None,
            }
        },
        None => None,
    }
}

/// The changed files that `find-new` output `out` names.
pub fn parse_find_new_output(out: &str) -> (files: Vec<String>)
    ensures
        files@.map_values(|f: String| f@) == changed_files(out@),
{
    let cs = chars_of(out);
    let lines = split_pieces(&cs);
    let ghost ls = lines@.map_values(|l: Vec<char>| l@);
    let flags = chars_of(" flags ");
    let space = chars_of(" ");
    let mut files: Vec<String> = Vec::new();
    let mut i: usize = 0;
    proof {
        assert(ls.take(0) =~= Seq::<Seq<char>>::empty());
        assert(files@.map_values(|f: String| f@) =~= Seq::<Seq<char>>::empty());
    }
    while i < lines.len()
        invariant
            i <= lines.len(),
            ls == lines@.map_values(|l: Vec<char>| l@),
            flags@ == flags_marker(),
            space@ == " "@,
            files@.map_values(|f: String| f@) == files_of_lines(ls.take(i as int)),
        decreases lines.len() - i,
    {
        proof {
            assert(ls.take(i + 1).drop_last() =~= ls.take(i as int));
            assert(ls.take(i + 1).last() == lines@[i as int]@);
        }
        match file_of(&lines[i], &flags, &space) {
            Some(f) => {
                let ghost before = files@;
                files.push(string_of(&f));
                assert(files@.map_values(|f: String| f@) =~= before.map_values(|f: String| f@).push(
                    f@,
                ));
            },
            None => {},
        }
        i = i + 1;
    }
    assert(ls.take(lines.len() as int) =~= ls);
    files
}

/// The files changed in the compared snapshot, from what its `find-new`
/// gave back: refused when it reported failure.
pub fn diff_from_find_new(success: bool, stdout: &str) -> (r: Result<Vec<String>, SnapshotError>)
    ensures
        !success ==> r == Err::<Vec<String>, SnapshotError>(SnapshotError::FindNewFailed),
        success ==> (r matches Ok(files) && files@.map_values(|f: String| f@) == changed_files(
            stdout@,
        )),
{
    if !success {
        return Err(SnapshotError::FindNewFailed);
    }
    Ok(parse_find_new_output(stdout))
}

/// The text before a generation in `find-new` output.
pub open spec fn marker_prefix() -> Seq<char> {
    "transid marker was "@
}

/// An ASCII decimal digit.
pub open spec fn is_digit(c: char) -> bool {
    48 <= (c as u32) <= 57
}

/// The value of a sequence of decimal digits.
pub open spec fn digits_value(d: Seq<char>) -> nat
    decreases d.len(),
{
    if d.len() == 0 {
        0
    } else {
        digits_value(d.drop_last()) * 10 + ((d.last() as u32) - 48) as nat
    }
}

/// The generation that `line` tells, when it is the prefix followed by
/// decimal digits and nothing else.
pub open spec fn marker_value(line: Seq<char>) -> Option<nat> {
    let n = marker_prefix().len() as int;
    if line.len() > n && line.take(n) == marker_prefix() && (forall|i: int|
        n <= i < line.len() ==> is_digit(#[trigger] line[i])) {
        Some(digits_value(line.skip(n)))
    } else {
        None
    }
}

/// The generation that the last marker line among `lines` tells.
pub open spec fn last_marker(lines: Seq<Seq<char>>) -> Option<nat>
    decreases lines.len(),
{
    if lines.len() == 0 {
        None
    } else {
        match marker_value(lines.last()) {
            Some(v) => Some(v),
            None => last_marker(lines.drop_last()),
        }
    }
}

/// The generation that `find-new` output tells.
pub open spec fn find_new_generation(out: Seq<char>) -> Option<nat> {
    last_marker(pieces(out))
}

/// The text between line feeds, as `pieces` says.
fn split_pieces(cs: &Vec<char>) -> (lines: Vec<Vec<char>>)
    ensures
        lines@.map_values(|l: Vec<char>| l@) == pieces(cs@),
{
    let mut lines: Vec<Vec<char>> = Vec::new();
    lines.push(Vec::new());
    let mut i: usize = 0;
    proof {
        assert(cs@.take(0) =~= Seq::<char>::empty());
        assert(lines@.map_values(|l: Vec<char>| l@) =~= seq![Seq::<char>::empty()]);
    }
    while i < cs.len()
        invariant
            i <= cs.len(),
            lines.len() >= 1,
            lines@.map_values(|l: Vec<char>| l@) == pieces(cs@.take(i as int)),
        decreases cs.len() - i,
    {
        let c = cs[i];
        let ghost before = lines@.map_values(|l: Vec<char>| l@);
        proof {
            assert(cs@.take(i + 1).drop_last() =~= cs@.take(i as int));
            assert(cs@.take(i + 1).last() == c);
        }
        if c == '\n' {
            lines.push(Vec::new());
            assert(lines@.map_values(|l: Vec<char>| l@) =~= before.push(Seq::<char>::empty()));
        } else {
            let mut last = lines.pop().unwrap();
            last.push(c);
            lines.push(last);
            assert(lines@.map_values(|l: Vec<char>| l@) =~= before.update(
                before.len() - 1,
                before.last().push(c),
            ));
        }
        i = i + 1;
    }
    assert(cs@.take(cs.len() as int) =~= cs@);
    lines
}

proof fn lemma_digits_value_prefix(d: Seq<char>, i: int, j: int)
    requires
        0 <= i <= j <= d.len(),
        forall|k: int| 0 <= k < d.len() ==> is_digit(#[trigger] d[k]),
    ensures
        digits_value(d.take(i)) <= digits_value(d.take(j)),
    decreases j - i,
{
    if i < j {
        lemma_digits_value_prefix(d, i, j - 1);
        assert(d.take(j).drop_last() =~= d.take(j - 1));
    }
}

/// The generation that `line` tells: `(true, Some(g))` for a marker whose
/// value `g` fits in 64 bits, `(true, None)` for a larger one, `(false, _)`
/// when `line` is no marker.
fn marker_of(line: &Vec<char>, prefix: &Vec<char>) -> (r: (bool, Option<u64>))
    requires
        prefix@ == marker_prefix(),
    ensures
        r.0 == (marker_value(line@) is Some),
        r.0 ==> (r.1 == if marker_value(line@)->0 <= u64::MAX {
            Some(marker_value(line@)->0 as u64)
        } else {
            None::<u64>
        }),
{
    let n = prefix.len();
    if line.len() <= n {
        return (false, None);
    }
    let mut i: usize = 0;
    while i < n
        invariant
            i <= n < line.len(),
            n == prefix.len(),
            prefix@ == marker_prefix(),
            forall|k: int| 0 <= k < i ==> line@[k] == prefix@[k],
        decreases n - i,
    {
        if line[i] != prefix[i] {
            assert(line@.take(n as int)[i as int] != prefix@[i as int]);
            assert(line@.take(n as int) != marker_prefix());
            return (false, None);
        }
        i = i + 1;
    }
    assert(line@.take(n as int) =~= prefix@);
    let ghost digits = line@.skip(n as int);
    let mut j: usize = n;
    while j < line.len()
        invariant
            n <= j <= line.len(),
            n == prefix.len(),
            n < line.len(),
            prefix@ == marker_prefix(),
            line@.take(n as int) == marker_prefix(),
            forall|k: int| n <= k < j ==> is_digit(#[trigger] line@[k]),
        decreases line.len() - j,
    {
        let u = line[j] as u32;
        if u < 48 || u > 57 {
            assert(!is_digit(line@[j as int]));
            return (false, None);
        }
        j = j + 1;
    }
    assert forall|k: int| 0 <= k < digits.len() implies is_digit(#[trigger] digits[k]) by {
        assert(digits[k] == line@[k + n]);
    }
    let mut acc: u128 = 0;
    let mut big = false;
    let mut j: usize = n;
    proof {
        assert(digits.take(0) =~= Seq::<char>::empty());
    }
    while j < line.len()
        invariant
            n <= j <= line.len(),
            digits == line@.skip(n as int),
            forall|k: int| 0 <= k < digits.len() ==> is_digit(#[trigger] digits[k]),
            !big ==> acc == digits_value(digits.take(j - n)),
            !big ==> acc <= u64::MAX,
            big ==> digits_value(digits.take(j - n)) > u64::MAX,
        decreases line.len() - j,
    {
        proof {
            assert(digits.take(j - n + 1).drop_last() =~= digits.take(j - n));
            assert(digits.take(j - n + 1).last() == line@[j as int]);
            assert(digits[j - n] == line@[j as int]);
            lemma_digits_value_prefix(digits, j - n, j - n + 1);
        }
        if !big {
            let d = (line[j] as u32 - 48) as u128;
            let next = acc * 10 + d;
            if next > 18446744073709551615 {
                big = true;
            } else {
                acc = next;
            }
        }
        j = j + 1;
    }
    assert(digits.take(digits.len() as int) =~= digits);
    if big {
        (true, None)
    } else {
        (true, Some(acc as u64))
    }
}

proof fn lemma_last_marker_suffix(lines: Seq<Seq<char>>, k: int)
    requires
        0 <= k <= lines.len(),
        forall|j: int| k <= j < lines.len() ==> marker_value(#[trigger] lines[j]) is None,
    ensures
        last_marker(lines) == last_marker(lines.take(k)),
    decreases lines.len() - k,
{
    if k < lines.len() {
        lemma_last_marker_suffix(lines.drop_last(), k);
        assert(lines.drop_last().take(k) =~= lines.take(k));
        assert(marker_value(lines[lines.len() - 1]) is None);
    } else {
        assert(lines.take(k) =~= lines);
    }
}

/// The generation that `find-new` gave back: refused when it reported
/// failure, or when its output tells no generation that fits in 64 bits.
pub fn generation_from_find_new(success: bool, stdout: &str) -> (r: Result<u64, SnapshotError>)
    ensures
        !success ==> r == Err::<u64, SnapshotError>(SnapshotError::FindNewFailed),
        success ==> r == match find_new_generation(stdout@) {
            Some(g) => if g <= u64::MAX {
                Ok::<u64, SnapshotError>(g as u64)
            } else {
                Err::<u64, SnapshotError>(SnapshotError::NoGeneration)
            },
            None => Err::<u64, SnapshotError>(SnapshotError::NoGeneration),
        },
{
    if !success {
        return Err(SnapshotError::FindNewFailed);
    }
    let cs = chars_of(stdout);
    let lines = split_pieces(&cs);
    let ghost ls = lines@.map_values(|l: Vec<char>| l@);
    let prefix = chars_of("transid marker was ");
    let mut k: usize = lines.len();
    while k > 0
        invariant
            success,
            k <= lines.len(),
            ls == lines@.map_values(|l: Vec<char>| l@),
            ls == pieces(stdout@),
            prefix@ == marker_prefix(),
            forall|j: int| k <= j < ls.len() ==> marker_value(#[trigger] ls[j]) is None,
        decreases k,
    {
        let (found, value) = marker_of(&lines[k - 1], &prefix);
        assert(ls[k - 1] == lines@[k - 1]@);
        if found {
            proof {
                lemma_last_marker_suffix(ls, k as int);
                assert(ls.take(k as int).last() == ls[k - 1]);
                assert(ls.take(k as int).len() > 0);
                assert(find_new_generation(stdout@) == marker_value(ls[k - 1]));
            }
            match value {
                Some(g) => {
                    return Ok(g);
                },
                None => {
                    return Err(SnapshotError::NoGeneration);
                },
            }
        }
        k = k - 1;
    }
    proof {
        lemma_last_marker_suffix(ls, 0);
        assert(ls.take(0) =~= Seq::<Seq<char>>::empty());
    }
    Err(SnapshotError::NoGeneration)
}

impl SnapshotManager {
    /// The second step of a btrfs comparison, from what the generation
    /// probe reported: the `find-new` of the snapshot at `to_path` after the
    /// generation it told, or the error that ends the comparison.
    pub fn diff_after_probe(&self, to_path: &str, success: bool, stdout: &str) -> (r: Result<
        Command,
        SnapshotError,
    >)
        ensures
            !success ==> r == Err::<Command, SnapshotError>(SnapshotError::FindNewFailed),
            success ==> match find_new_generation(stdout@) {
                Some(g) => if g <= u64::MAX {
                    r matches Ok(c) && c@ == btrfs_find_new_cmd(to_path@, decimal(g))
                } else {
                    r == Err::<Command, SnapshotError>(SnapshotError::NoGeneration)
                },
                None => r == Err::<Command, SnapshotError>(SnapshotError::NoGeneration),
            },
    {
        match generation_from_find_new(success, stdout) {
            Ok(g) => Ok(self.diff_btrfs_snapshots(to_path, g)),
            Err(e) => Err(e),
        }
    }
}

} // verus!
