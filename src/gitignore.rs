use vstd::prelude::*;
use vstd::string::*;

use crate::pattern::views;
use crate::text::{starts_with_char, trim, trim_spec};

verus! {

/// A `.gitignore` pattern as an exclude pattern: a leading `/` is dropped
/// (the pattern is relative to the root already); a negated pattern (`!`)
/// is not supported and becomes empty.
pub open spec fn normalized(p: Seq<char>) -> Seq<char> {
    let q = if starts_with_char(p, '/') {
        p.drop_first()
    } else {
        p
    };
    if starts_with_char(q, '!') {
        seq![]
    } else {
        q
    }
}

/// Turns one `.gitignore` pattern into an exclude pattern (see `normalized`).
pub fn normalize_pattern(pattern: &str) -> (r: String)
    ensures
        r@ == normalized(pattern@),
{
    let n = pattern.unicode_len();
    let q = if n > 0 && pattern.get_char(0) == '/' {
        pattern.substring_char(1, n)
    } else {
        pattern
    };
    assert(starts_with_char(pattern@, '/') ==> q@ =~= pattern@.drop_first());
    let m = q.unicode_len();
    if m > 0 && q.get_char(0) == '!' {
        String::new()
    } else {
        String::from_str(q)
    }
}

/// Whether a trimmed `.gitignore` line holds a pattern: it is neither
/// blank nor a comment.
pub open spec fn holds_pattern(t: Seq<char>) -> bool {
    t.len() > 0 && !starts_with_char(t, '#')
}

/// The exclude patterns of the lines of a `.gitignore`, in order: each
/// line is trimmed, blank lines and comments are skipped, and the rest are
/// normalized (negated patterns come out empty).
pub open spec fn gitignore_spec(lines: Seq<Seq<char>>) -> Seq<Seq<char>>
    decreases lines.len(),
{
    if lines.len() == 0 {
        seq![]
    } else if holds_pattern(trim_spec(lines.last())) {
        gitignore_spec(lines.drop_last()).push(normalized(trim_spec(lines.last())))
    } else {
        gitignore_spec(lines.drop_last())
    }
}

/// The exclude patterns of the lines of a `.gitignore` (see `gitignore_spec`).
pub fn gitignore_patterns(lines: &Vec<String>) -> (r: Vec<String>)
    ensures
        views(r@) == gitignore_spec(views(lines@)),
{
    let ghost ls = views(lines@);
    let mut r: Vec<String> = Vec::new();
    let mut i: usize = 0;
    while i < lines.len()
        invariant
            i <= lines@.len(),
            ls == views(lines@),
            views(r@) == gitignore_spec(ls.subrange(0, i as int)),
        decreases lines.len() - i,
    {
        assert(ls.subrange(0, i + 1).drop_last() =~= ls.subrange(0, i as int));
        assert(ls.subrange(0, i + 1).last() == lines@[i as int]@);
        let t = trim(lines[i].as_str());
        let n = t.unicode_len();
        if n > 0 && t.get_char(0) != '#' {
            let ghost before = r@;
            r.push(normalize_pattern(t));
            assert(views(r@) =~= views(before).push(normalized(t@)));
        }
        i = i + 1;
    }
    assert(ls.subrange(0, ls.len() as int) =~= ls);
    r
}

} // verus!
