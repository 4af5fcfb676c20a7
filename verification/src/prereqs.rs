//! Host prerequisites: a mounted cgroup-v2 hierarchy.

use vstd::prelude::*;

use crate::text::{
    find, lines, occurs_at, same_chars, slice_chars, split_lines, split_words, texts, to_chars,
    to_text, words,
};

verus! {

/// Why the host cannot run the daemon.
#[derive(Debug)]
pub enum PrereqError {
    /// The mount table could not be read.
    ReadMountInfo { path: String, source: String },
    /// No cgroup-v2 hierarchy is mounted.
    MissingCgroupV2,
}

/// The file system type of a mount table line: the first word after its first
/// ` - `.
#[verifier::opaque]
pub open spec fn line_fstype(line: Seq<char>) -> Option<Seq<char>> {
    if exists|at: int| occurs_at(line, " - "@, at) {
        let at = choose|at: int|
            occurs_at(line, " - "@, at) && forall|j: int|
                0 <= j < at ==> !occurs_at(line, " - "@, j);
        let fields = words(line.skip(at + 3));
        if fields.len() == 0 {
            None
        } else {
            Some(fields[0])
        }
    } else {
        None
    }
}

/// Whether a line of the mount table has the type `cgroup2`.
pub open spec fn mounts_cgroup2(mountinfo: Seq<char>) -> bool {
    exists|i: int|
        0 <= i < lines(mountinfo).len() && line_fstype(#[trigger] lines(mountinfo)[i]) == Some(
            "cgroup2"@,
        )
}

/// The file system type of a mount table line is the first word behind the first ` - `,
/// and a line without one, or with nothing behind it, has none.
pub proof fn fstype_follows_the_separator(line: Seq<char>, before: Seq<char>, after: Seq<char>)
    ensures
        line == before + seq![' ', '-', ' '] + after && (forall|j: int|
            0 <= j < before.len() ==> !(#[trigger] line[j] == ' ' && line[j + 1] == '-' && line[j
                + 2] == ' ')) ==> line_fstype(line) == (if words(after).len() > 0 {
            Some(words(after)[0])
        } else {
            None
        }),
        (forall|j: int|
            0 <= j < line.len() - 2 ==> !(#[trigger] line[j] == ' ' && line[j + 1] == '-' && line[j
                + 2] == ' ')) ==> line_fstype(line) is None,
{
    reveal(line_fstype);
    reveal_strlit(" - ");
    let separator = " - "@;
    assert(separator =~= seq![' ', '-', ' ']);
    assert forall|at: int| #[trigger] occurs_at(line, separator, at) implies 0 <= at <= line.len()
        - 3 && line[at] == ' ' && line[at + 1] == '-' && line[at + 2] == ' ' by {
        let part = line.subrange(at, at + 3);
        assert(part[0] == line[at] && part[1] == line[at + 1] && part[2] == line[at + 2]);
    }
    if line == before + seq![' ', '-', ' '] + after && (forall|j: int|
        0 <= j < before.len() ==> !(#[trigger] line[j] == ' ' && line[j + 1] == '-' && line[j + 2]
            == ' ')) {
        let n = before.len() as int;
        assert(line.subrange(n, n + 3) =~= separator);
        assert(occurs_at(line, separator, n));
        assert forall|j: int| 0 <= j < n implies !occurs_at(line, separator, j) by {
            if occurs_at(line, separator, j) {
                assert(line[j] == ' ');
            }
        }
        let at = choose|at: int|
            occurs_at(line, separator, at) && forall|j: int|
                0 <= j < at ==> !occurs_at(line, separator, j);
        assert(at == n);
        assert(line.skip(n + 3) =~= after);
    }
}

fn fstype_of(line: &[char]) -> (r: Option<Vec<char>>)
    ensures
        match r {
            Some(fstype) => line_fstype(line@) == Some(fstype@),
            None => line_fstype(line@) is None,
        },
{
    reveal(line_fstype);
    let separator = to_chars(" - ");
    let len: usize = line.len();
    match find(line, separator.as_slice()) {
        None => None,
        Some(at) => {
            proof {
                reveal_strlit(" - ");
                let chosen = choose|k: int|
                    occurs_at(line@, " - "@, k) && forall|j: int|
                        0 <= j < k ==> !occurs_at(line@, " - "@, j);
                assert(occurs_at(line@, " - "@, at as int));
                assert(chosen == at);
            }
            let rest = slice_chars(line, at + 3, len);
            assert(rest@ =~= line@.skip(at + 3));
            let mut fields = split_words(rest.as_slice());
            assert(texts(fields@).len() == fields@.len());
            if fields.len() == 0 {
                None
            } else {
                assert(texts(fields@)[0] == fields@[0]@);
                Some(fields.remove(0))
            }
        },
    }
}

/// The file system type of a mount table line.
pub fn parse_fstype_from_mountinfo_line(line: &str) -> (r: Option<String>)
    ensures
        match r {
            Some(fstype) => line_fstype(line@) == Some(fstype@),
            None => line_fstype(line@) is None,
        },
{
    let chars = to_chars(line);
    match fstype_of(chars.as_slice()) {
        Some(fstype) => Some(to_text(fstype.as_slice())),
        None => None,
    }
}

/// Whether the mount table lists a cgroup-v2 hierarchy.
pub fn has_cgroup2_mount(mountinfo: &str) -> (r: bool)
    ensures
        r == mounts_cgroup2(mountinfo@),
{
    let chars = to_chars(mountinfo);
    let all = split_lines(chars.as_slice());
    let wanted = to_chars("cgroup2");
    let mut i: usize = 0;
    assert(texts(all@).len() == all@.len());
    while i < all.len()
        invariant
            i <= all@.len(),
            texts(all@) == lines(mountinfo@),
            texts(all@).len() == all@.len(),
            wanted@ == "cgroup2"@,
            forall|j: int|
                0 <= j < i ==> line_fstype(#[trigger] lines(mountinfo@)[j]) != Some("cgroup2"@),
        decreases all@.len() - i,
    {
        assert(texts(all@)[i as int] == all@[i as int]@);
        if let Some(fstype) = fstype_of(all[i].as_slice()) {
            if same_chars(fstype.as_slice(), wanted.as_slice()) {
                return true;
            }
        }
        i += 1;
    }
    false
}

/// One line of the type `cgroup2` is enough, wherever it stands in the mount table, and
/// one is needed.
pub proof fn one_cgroup2_line_is_enough(mountinfo: Seq<char>, i: int)
    ensures
        0 <= i < lines(mountinfo).len() && line_fstype(lines(mountinfo)[i]) == Some("cgroup2"@)
            ==> mounts_cgroup2(mountinfo),
        (forall|j: int|
            0 <= j < lines(mountinfo).len() ==> line_fstype(#[trigger] lines(mountinfo)[j]) != Some(
                "cgroup2"@,
            )) ==> !mounts_cgroup2(mountinfo),
{
}

/// Decides whether the host can run the daemon, given its mount table.
pub fn ensure_cgroup_v2_mounted(path: &str, mountinfo: Result<&str, String>) -> (r: Result<
    (),
    PrereqError,
>)
    ensures
        match mountinfo {
            Ok(text) => if mounts_cgroup2(text@) {
                r is Ok
            } else {
                r matches Err(PrereqError::MissingCgroupV2)
            },
            Err(failure) => r matches Err(
                PrereqError::ReadMountInfo { path: where_, source },
            ) && where_@ == path@ && source@ == failure@,
        },
{
    match mountinfo {
        Ok(text) => {
            if has_cgroup2_mount(text) {
                return Ok(());
            }
            Err(PrereqError::MissingCgroupV2)
        },
        Err(source) => Err(PrereqError::ReadMountInfo { path: path.to_owned(), source }),
    }
}

/// The wording of a failed prerequisite.
pub open spec fn prereq_error_text(error: PrereqError) -> Seq<char> {
    match error {
        PrereqError::ReadMountInfo { path, source } => "failed to read "@ + path@ + ": "@ + source@,
        PrereqError::MissingCgroupV2 =>
            "missing cgroup2 mount; cgroup-v2 is required for kernel identity extraction. verify with: mount | grep cgroup2"@,
    }
}

/// A mount table that cannot be read is named with the reason, and a missing hierarchy is
/// told with a way to look for it.
pub proof fn missing_prerequisites_are_worded(path: String, source: String)
    ensures
        prereq_error_text(PrereqError::ReadMountInfo { path, source }) == "failed to read "@ + path@
            + ": "@ + source@,
        prereq_error_text(PrereqError::MissingCgroupV2)
            == "missing cgroup2 mount; cgroup-v2 is required for kernel identity extraction. verify with: mount | grep cgroup2"@,
{
}

impl PrereqError {
    /// The wording of the error.
    pub fn message(&self) -> (text: String)
        ensures
            text@ == prereq_error_text(*self),
    {
        let mut text = String::new();
        match self {
            PrereqError::ReadMountInfo { path, source } => {
                text.append("failed to read ");
                text.append(path.as_str());
                text.append(": ");
                text.append(source.as_str());
            },
            PrereqError::MissingCgroupV2 => {
                text.append(
                    "missing cgroup2 mount; cgroup-v2 is required for kernel identity extraction. verify with: mount | grep cgroup2",
                );
            },
        }
        assert(text@ =~= prereq_error_text(*self));
        text
    }
}

} // verus!
