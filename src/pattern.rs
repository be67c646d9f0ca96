use vstd::prelude::*;
use vstd::string::*;

use crate::text::{chars_of, contains_char, ends_with_char, has_char, join2, join3, starts_with_char};

verus! {

#[verifier::external_type_specification]
#[verifier::external_body]
pub struct ExGlob(globset::Glob);

#[verifier::external_type_specification]
#[verifier::external_body]
pub struct ExGlobSet(globset::GlobSet);

#[verifier::external_type_specification]
#[verifier::external_body]
pub struct ExGlobError(globset::Error);

/// Whether globset accepts `pattern` as glob syntax.
pub uninterp spec fn glob_parses(pattern: Seq<char>) -> bool;

/// The pattern text that a compiled glob was built from.
pub uninterp spec fn glob_text(g: globset::Glob) -> Seq<char>;

/// The glob patterns that a compiled set holds, in the order they were given.
pub uninterp spec fn set_globs(s: globset::GlobSet) -> Seq<Seq<char>>;

/// Whether globset manages to compile a set out of these glob patterns.
pub uninterp spec fn set_builds(globs: Seq<Seq<char>>) -> bool;

/// Whether the glob `pattern` matches the slash-separated `path`
/// (case-sensitive, globset's default options).
pub uninterp spec fn glob_matches(pattern: Seq<char>, path: Seq<char>) -> bool;

/// Relies on `globset::Glob::new`: it parses a pattern, fails exactly on the
/// patterns it rejects, and keeps the text it was given (`Glob::glob`).
#[verifier::external_body]
fn new_glob(pattern: &str) -> (r: Result<globset::Glob, globset::Error>)
    ensures
        r is Ok <==> glob_parses(pattern@),
        r matches Ok(g) ==> glob_text(g) == pattern@,
{
    globset::Glob::new(pattern)
}

/// Relies on `globset::GlobSet::new`: it compiles the given globs, in order,
/// into one set; an empty list gives the empty set.
#[verifier::external_body]
fn new_glob_set(globs: &Vec<globset::Glob>) -> (r: Result<globset::GlobSet, globset::Error>)
    ensures
        r is Ok <==> set_builds(globs@.map_values(|g: globset::Glob| glob_text(g))),
        r matches Ok(s) ==> set_globs(s) == globs@.map_values(|g: globset::Glob| glob_text(g)),
        globs@.len() == 0 ==> r is Ok,
{
    globset::GlobSet::new(globs.iter())
}

/// Relies on `globset::GlobSet::is_match`: true iff some glob of the set
/// matches the path.
#[verifier::external_body]
fn glob_set_is_match(s: &globset::GlobSet, path: &str) -> (r: bool)
    ensures
        r == (exists|i: int| 0 <= i < set_globs(*s).len() && glob_matches(set_globs(*s)[i], path@)),
{
    s.is_match(path)
}

/// `s` with every trailing `/` removed.
pub open spec fn strip_trailing_slashes(s: Seq<char>) -> Seq<char>
    decreases s.len(),
{
    if ends_with_char(s, '/') {
        strip_trailing_slashes(s.drop_last())
    } else {
        s
    }
}

/// The globs that one raw pattern stands for.
///
/// - `dir/`: the directory at any depth, everything beneath it at any depth,
///   and everything beneath it at the root;
/// - `.ext` (no `/`, no `*`): any file with that suffix at any depth;
/// - `name` (no `/`, no `*`): the name at any depth, and everything beneath it;
/// - anything else is taken as it stands.
pub open spec fn expand_pattern(raw: Seq<char>) -> Seq<Seq<char>> {
    if ends_with_char(raw, '/') {
        let d = strip_trailing_slashes(raw);
        seq!["**/"@ + d, "**/"@ + d + "/**"@, d + "/**"@]
    } else if starts_with_char(raw, '.') && !has_char(raw, '/') && !has_char(raw, '*') {
        seq!["**/*"@ + raw]
    } else if !has_char(raw, '/') && !has_char(raw, '*') {
        seq!["**/"@ + raw, "**/"@ + raw + "/**"@]
    } else {
        seq![raw]
    }
}

/// The globs that a list of raw patterns stands for, in order.
pub open spec fn expand_all(raws: Seq<Seq<char>>) -> Seq<Seq<char>>
    decreases raws.len(),
{
    if raws.len() == 0 {
        seq![]
    } else {
        expand_all(raws.drop_last()) + expand_pattern(raws.last())
    }
}

/// The globs of `globs` that globset accepts, in order.
pub open spec fn accepted(globs: Seq<Seq<char>>) -> Seq<Seq<char>>
    decreases globs.len(),
{
    if globs.len() == 0 {
        seq![]
    } else if glob_parses(globs.last()) {
        accepted(globs.drop_last()).push(globs.last())
    } else {
        accepted(globs.drop_last())
    }
}

/// The globs of `globs` that globset rejects, in order.
pub open spec fn rejected(globs: Seq<Seq<char>>) -> Seq<Seq<char>>
    decreases globs.len(),
{
    if globs.len() == 0 {
        seq![]
    } else if !glob_parses(globs.last()) {
        rejected(globs.drop_last()).push(globs.last())
    } else {
        rejected(globs.drop_last())
    }
}

/// The views of a list of strings.
pub open spec fn views(v: Seq<String>) -> Seq<Seq<char>> {
    v.map_values(|s: String| s@)
}

/// The globs that one raw pattern stands for (see `expand_pattern`).
pub fn expand_raw_pattern(raw: &str) -> (r: Vec<String>)
    ensures
        views(r@) == expand_pattern(raw@),
{
    let cs = chars_of(raw);
    let n = cs.len();
    if n > 0 && cs[n - 1] == '/' {
        let mut end: usize = n;
        assert(raw@.subrange(0, n as int) =~= raw@);
        while end > 0 && cs[end - 1] == '/'
            invariant
                end <= n,
                n == raw@.len(),
                cs@ == raw@,
                strip_trailing_slashes(raw@) == strip_trailing_slashes(raw@.subrange(0, end as int)),
            decreases end,
        {
            assert(raw@.subrange(0, end as int).drop_last() =~= raw@.subrange(0, end - 1));
            end = end - 1;
        }
        assert(strip_trailing_slashes(raw@.subrange(0, end as int)) == raw@.subrange(0, end as int));
        let d = raw.substring_char(0, end);
        let mut r: Vec<String> = Vec::new();
        r.push(join2("**/", d));
        r.push(join3("**/", d, "/**"));
        r.push(join2(d, "/**"));
        assert(views(r@) =~= expand_pattern(raw@));
        r
    } else {
        let has_slash = contains_char(&cs, '/');
        let has_star = contains_char(&cs, '*');
        let mut r: Vec<String> = Vec::new();
        if n > 0 && cs[0] == '.' && !has_slash && !has_star {
            r.push(join2("**/*", raw));
        } else if !has_slash && !has_star {
            r.push(join2("**/", raw));
            r.push(join3("**/", raw, "/**"));
        } else {
            r.push(String::from_str(raw));
        }
        assert(views(r@) =~= expand_pattern(raw@));
        r
    }
}

/// A compiled set of glob rules, built from one category of raw patterns.
pub struct PatternSet {
    set: Option<globset::GlobSet>,
    dropped: Vec<String>,
}

impl PatternSet {
    /// The globs that the set matches with.
    pub closed spec fn globs(&self) -> Seq<Seq<char>> {
        match self.set {
            Some(s) => set_globs(s),
            None => seq![],
        }
    }

    /// Whether some glob of the set matches `path`.
    pub open spec fn matches(&self, path: Seq<char>) -> bool {
        exists|i: int| 0 <= i < self.globs().len() && glob_matches(self.globs()[i], path)
    }

    /// The expanded globs that were dropped because globset rejected them.
    pub closed spec fn dropped_globs(&self) -> Seq<Seq<char>> {
        views(self.dropped@)
    }

    /// Whether this set is what `build_globset` makes of these raw patterns:
    /// the globs that their expansion gives and globset accepts (none at all
    /// should globset fail to compile them into one set), with the rejected
    /// ones recorded.
    pub open spec fn built_from(&self, raws: Seq<Seq<char>>) -> bool {
        &&& self.dropped_globs() == rejected(expand_all(raws))
        &&& set_builds(accepted(expand_all(raws))) ==> self.globs() == accepted(expand_all(raws))
        &&& !set_builds(accepted(expand_all(raws))) ==> self.globs().len() == 0
        &&& raws.len() == 0 ==> self.globs().len() == 0
    }

    /// Whether `path` matches the set.
    pub fn is_match(&self, path: &str) -> (r: bool)
        ensures
            r == self.matches(path@),
    {
        match &self.set {
            Some(s) => glob_set_is_match(s, path),
            None => false,
        }
    }

    /// Whether the set holds no glob at all.
    pub fn is_empty(&self) -> (r: bool)
        ensures
            r == (self.globs().len() == 0),
    {
        match &self.set {
            Some(s) => glob_set_len(s) == 0,
            None => true,
        }
    }

    /// The expanded globs that globset rejected, for the caller to warn about.
    pub fn dropped(&self) -> (r: &Vec<String>)
        ensures
            views(r@) == self.dropped_globs(),
    {
        &self.dropped
    }
}

/// Relies on `globset::GlobSet::len`: the number of globs in the set.
#[verifier::external_body]
fn glob_set_len(s: &globset::GlobSet) -> (r: usize)
    ensures
        r == set_globs(*s).len(),
{
    s.len()
}

/// Compiles raw patterns into a `PatternSet`: each pattern is expanded by
/// its shorthand, the globs that globset rejects are dropped (and recorded),
/// and the rest are compiled into one set. Should globset fail to compile
/// that set, the result holds no glob.
pub fn build_globset(patterns: &Vec<String>) -> (r: PatternSet)
    ensures
        r.built_from(views(patterns@)),
{
    let ghost raws = views(patterns@);
    let mut globs: Vec<globset::Glob> = Vec::new();
    let mut dropped: Vec<String> = Vec::new();
    let mut k: usize = 0;
    while k < patterns.len()
        invariant
            k <= patterns@.len(),
            raws == views(patterns@),
            globs@.map_values(|g: globset::Glob| glob_text(g)) == accepted(
                expand_all(raws.subrange(0, k as int)),
            ),
            views(dropped@) == rejected(expand_all(raws.subrange(0, k as int))),
        decreases patterns.len() - k,
    {
        let ex = expand_raw_pattern(patterns[k].as_str());
        let ghost before = expand_all(raws.subrange(0, k as int));
        assert(raws.subrange(0, k + 1).drop_last() =~= raws.subrange(0, k as int));
        assert(expand_all(raws.subrange(0, k + 1)) == before + views(ex@));
        let mut j: usize = 0;
        while j < ex.len()
            invariant
                j <= ex@.len(),
                globs@.map_values(|g: globset::Glob| glob_text(g)) == accepted(
                    before + views(ex@).subrange(0, j as int),
                ),
                views(dropped@) == rejected(before + views(ex@).subrange(0, j as int)),
            decreases ex.len() - j,
        {
            let ghost prev = before + views(ex@).subrange(0, j as int);
            let ghost next = before + views(ex@).subrange(0, j + 1);
            assert(next.drop_last() =~= prev);
            assert(next.last() == ex@[j as int]@);
            match new_glob(ex[j].as_str()) {
                Ok(g) => {
                    let ghost old_globs = globs@;
                    globs.push(g);
                    assert(globs@.map_values(|g: globset::Glob| glob_text(g)) =~= old_globs.map_values(
                        |g: globset::Glob| glob_text(g),
                    ).push(ex@[j as int]@));
                },
                Err(_) => {
                    let ghost old_dropped = dropped@;
                    dropped.push(ex[j].clone());
                    assert(views(dropped@) =~= views(old_dropped).push(ex@[j as int]@));
                },
            }
            j = j + 1;
        }
        assert(views(ex@).subrange(0, ex@.len() as int) =~= views(ex@));
        k = k + 1;
    }
    assert(raws.subrange(0, patterns@.len() as int) =~= raws);
    if patterns.len() == 0 {
        assert(expand_all(raws) =~= seq![]);
    }
    let set = match new_glob_set(&globs) {
        Ok(s) => Some(s),
        Err(_) => None,
    };
    PatternSet { set, dropped }
}

} // verus!
