use vstd::prelude::*;
use vstd::string::*;

use crate::pattern::views;
use crate::text::{ends_with_char, join2, str_eq};

verus! {

/// Why a directory was flagged as large.
#[derive(Clone, Copy, Debug, PartialEq, Eq, Structural)]
pub enum DetectionReason {
    KnownDirectory,
    TooManyFiles,
    TooLarge,
}

/// A directory flagged as large on the first run, with what its bounded
/// walk counted.
pub struct DetectionResult {
    pub path: String,
    pub file_count: usize,
    pub total_size: u64,
    pub reason: DetectionReason,
}

/// Whether a directory name is one of the well-known bulky directories.
pub open spec fn is_known_large(name: Seq<char>) -> bool {
    name == "node_modules"@ || name == "venv"@ || name == ".venv"@ || name == "env"@ || name
        == "target"@ || name == "dist"@ || name == "build"@ || name == "vendor"@ || name
        == "__pycache__"@ || name == ".git"@
}

/// Whether a directory name is one of the well-known bulky directories.
pub fn known_large_dir(name: &str) -> (r: bool)
    ensures
        r == is_known_large(name@),
{
    str_eq(name, "node_modules") || str_eq(name, "venv") || str_eq(name, ".venv") || str_eq(
        name,
        "env",
    ) || str_eq(name, "target") || str_eq(name, "dist") || str_eq(name, "build") || str_eq(
        name,
        "vendor",
    ) || str_eq(name, "__pycache__") || str_eq(name, ".git")
}

/// Why a top-level directory is flagged, if it is: a well-known name first,
/// then more files than `max_files`, then more bytes than `max_size`.
pub open spec fn reason_for(
    name: Seq<char>,
    file_count: usize,
    total_size: u64,
    max_files: usize,
    max_size: u64,
) -> Option<DetectionReason> {
    if is_known_large(name) {
        Some(DetectionReason::KnownDirectory)
    } else if file_count > max_files {
        Some(DetectionReason::TooManyFiles)
    } else if total_size > max_size {
        Some(DetectionReason::TooLarge)
    } else {
        None
    }
}

/// Decides whether a top-level directory is flagged (see `reason_for`).
pub fn detection_reason(
    name: &str,
    file_count: usize,
    total_size: u64,
    max_files: usize,
    max_size: u64,
) -> (r: Option<DetectionReason>)
    ensures
        r == reason_for(name@, file_count, total_size, max_files, max_size),
{
    if known_large_dir(name) {
        Some(DetectionReason::KnownDirectory)
    } else if file_count > max_files {
        Some(DetectionReason::TooManyFiles)
    } else if total_size > max_size {
        Some(DetectionReason::TooLarge)
    } else {
        None
    }
}

/// A short description of a reason.
pub fn reason_text(r: DetectionReason) -> (s: &'static str)
    ensures
        s@ == (match r {
            DetectionReason::KnownDirectory => "一般的な大規模ディレクトリ"@,
            DetectionReason::TooManyFiles => "ファイル数超過"@,
            DetectionReason::TooLarge => "サイズ超過"@,
        }),
{
    match r {
        DetectionReason::KnownDirectory => "一般的な大規模ディレクトリ",
        DetectionReason::TooManyFiles => "ファイル数超過",
        DetectionReason::TooLarge => "サイズ超過",
    }
}

/// `path` relative to `root`, for slash-separated paths: empty when they are
/// equal; what follows `root` and a `/` when `root` is a leading run of whole
/// components of `path`; nothing otherwise.
pub open spec fn relative_to(path: Seq<char>, root: Seq<char>) -> Option<Seq<char>> {
    if path == root {
        Some(seq![])
    } else if path.len() > root.len() && path.subrange(0, root.len() as int) == root {
        if ends_with_char(root, '/') {
            Some(path.subrange(root.len() as int, path.len() as int))
        } else if path[root.len() as int] == '/' {
            Some(path.subrange(root.len() as int + 1, path.len() as int))
        } else {
            None
        }
    } else {
        None
    }
}

/// A relative directory path as a directory pattern: with a trailing `/`.
pub open spec fn dir_pattern(rel: Seq<char>) -> Seq<char> {
    if ends_with_char(rel, '/') {
        rel
    } else {
        rel.push('/')
    }
}

/// The exclude patterns for a list of flagged directories, in order: each
/// path that lies under `root`, made relative and given a trailing `/`.
pub open spec fn exclude_patterns_spec(paths: Seq<Seq<char>>, root: Seq<char>) -> Seq<Seq<char>>
    decreases paths.len(),
{
    if paths.len() == 0 {
        seq![]
    } else {
        let prev = exclude_patterns_spec(paths.drop_last(), root);
        match relative_to(paths.last(), root) {
            Some(rel) => prev.push(dir_pattern(rel)),
            None => prev,
        }
    }
}

/// `path` relative to `root` (see `relative_to`).
pub fn relative_path<'a>(path: &'a str, root: &str) -> (r: Option<&'a str>)
    ensures
        r matches Some(s) ==> relative_to(path@, root@) == Some(s@),
        r is None ==> relative_to(path@, root@) is None,
{
    let n = path.unicode_len();
    let m = root.unicode_len();
    if str_eq(path, root) {
        return Some(path.substring_char(0, 0));
    }
    if n <= m {
        return None;
    }
    if !str_eq(path.substring_char(0, m), root) {
        return None;
    }
    if m > 0 && root.get_char(m - 1) == '/' {
        Some(path.substring_char(m, n))
    } else if path.get_char(m) == '/' {
        Some(path.substring_char(m + 1, n))
    } else {
        None
    }
}

/// The exclude patterns that the first run proposes for the flagged
/// directories (see `exclude_patterns_spec`).
pub fn generate_exclude_patterns(results: &Vec<DetectionResult>, root: &str) -> (r: Vec<String>)
    ensures
        views(r@) == exclude_patterns_spec(
            results@.map_values(|d: DetectionResult| d.path@),
            root@,
        ),
{
    let ghost ps = results@.map_values(|d: DetectionResult| d.path@);
    let mut v: Vec<String> = Vec::new();
    let mut i: usize = 0;
    while i < results.len()
        invariant
            i <= results@.len(),
            ps == results@.map_values(|d: DetectionResult| d.path@),
            views(v@) == exclude_patterns_spec(ps.subrange(0, i as int), root@),
        decreases results.len() - i,
    {
        assert(ps.subrange(0, i + 1).drop_last() =~= ps.subrange(0, i as int));
        assert(ps.subrange(0, i + 1).last() == results@[i as int].path@);
        match relative_path(results[i].path.as_str(), root) {
            Some(rel) => {
                let k = rel.unicode_len();
                let p = if k > 0 && rel.get_char(k - 1) == '/' {
                    String::from_str(rel)
                } else {
                    let s = join2(rel, "/");
                    proof {
                        reveal_strlit("/");
                    }
                    assert(s@ =~= rel@.push('/'));
                    s
                };
                let ghost before = v@;
                v.push(p);
                assert(views(v@) =~= views(before).push(dir_pattern(rel@)));
            },
            None => {},
        }
        i = i + 1;
    }
    assert(ps.subrange(0, ps.len() as int) =~= ps);
    v
}

} // verus!
