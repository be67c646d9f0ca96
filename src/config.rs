use vstd::prelude::*;
use vstd::string::*;

use crate::model::{
    ConfigParams, DEFAULT_MAX_AUTO_FILE_SIZE, DEFAULT_MAX_FILES_PER_DIR, DEFAULT_MAX_LINES,
};
use crate::pattern::views;
use crate::sort::{all_digits, digits_value};
use crate::text::{join2, starts_with_char, str_eq, trim, trim_spec};

verus! {

/// The lowercase form of `s`, by Unicode's case mapping.
pub uninterp spec fn lower_of(s: Seq<char>) -> Seq<char>;

/// Relies on `str::to_lowercase`: the result depends on the characters alone.
#[verifier::external_body]
fn lowercase(s: &str) -> (r: String)
    ensures
        r@ == lower_of(s@),
{
    s.to_lowercase()
}

/// The digits of an unsigned decimal: `s` without one leading `+`.
pub open spec fn unsigned_digits(s: Seq<char>) -> Seq<char> {
    if starts_with_char(s, '+') {
        s.drop_first()
    } else {
        s
    }
}

/// The value of an unsigned decimal (an optional `+`, then one or more
/// ASCII digits), if `s` is one.
pub open spec fn decimal_value(s: Seq<char>) -> Option<nat> {
    let d = unsigned_digits(s);
    if d.len() > 0 && all_digits(d) {
        Some(digits_value(d))
    } else {
        None
    }
}

/// Relies on `usize::from_str`: an optional `+` and decimal digits, whose
/// value fits; anything else is an error.
#[verifier::external_body]
fn parse_usize(s: &str) -> (r: Option<usize>)
    ensures
        r == (match decimal_value(s@) {
            Some(n) => if n <= usize::MAX {
                Some(n as usize)
            } else {
                None
            },
            None => None,
        }),
{
    s.parse::<usize>().ok()
}

/// Relies on `u64::from_str`: an optional `+` and decimal digits, whose
/// value fits; anything else is an error.
#[verifier::external_body]
fn parse_u64(s: &str) -> (r: Option<u64>)
    ensures
        r == (match decimal_value(s@) {
            Some(n) => if n <= u64::MAX {
                Some(n as u64)
            } else {
                None
            },
            None => None,
        }),
{
    s.parse::<u64>().ok()
}

/// The value of a `usize` setting (see `parse_usize`).
pub open spec fn usize_of(s: Seq<char>) -> Option<usize> {
    match decimal_value(s) {
        Some(n) => if n <= usize::MAX {
            Some(n as usize)
        } else {
            None
        },
        None => None,
    }
}

/// The value of a `u64` setting (see `parse_u64`).
pub open spec fn u64_of(s: Seq<char>) -> Option<u64> {
    match decimal_value(s) {
        Some(n) => if n <= u64::MAX {
            Some(n as u64)
        } else {
            None
        },
        None => None,
    }
}

/// The section of a config file that a line belongs to.
#[derive(Clone, Copy, Debug, PartialEq, Eq, Structural)]
pub enum Section {
    Outside,
    Settings,
    Exclude,
    Skip,
    Include,
    Outline,
}

/// The configuration as plain values.
pub struct ConfigView {
    pub max_lines: usize,
    pub max_file_size: Option<u64>,
    pub skip_binary: bool,
    pub output_dir: Option<Seq<char>>,
    pub exclude_patterns: Seq<Seq<char>>,
    pub skip_content_patterns: Seq<Seq<char>>,
    pub include_patterns: Seq<Seq<char>>,
    pub outline_patterns: Seq<Seq<char>>,
    pub use_timestamp: bool,
    pub open_output: bool,
    pub use_gitignore: bool,
    pub first_run_completed: bool,
    pub max_files_per_dir: usize,
    pub max_auto_file_size: u64,
}

impl View for ConfigParams {
    type V = ConfigView;

    open spec fn view(&self) -> ConfigView {
        ConfigView {
            max_lines: self.max_lines,
            max_file_size: self.max_file_size,
            skip_binary: self.skip_binary,
            output_dir: match self.output_dir {
                Some(s) => Some(s@),
                None => None,
            },
            exclude_patterns: views(self.exclude_patterns@),
            skip_content_patterns: views(self.skip_content_patterns@),
            include_patterns: views(self.include_patterns@),
            outline_patterns: views(self.outline_patterns@),
            use_timestamp: self.use_timestamp,
            open_output: self.open_output,
            use_gitignore: self.use_gitignore,
            first_run_completed: self.first_run_completed,
            max_files_per_dir: self.max_files_per_dir,
            max_auto_file_size: self.max_auto_file_size,
        }
    }
}

/// The position of the first `c` in `s`, if any.
pub open spec fn first_index(s: Seq<char>, c: char) -> Option<int> {
    if exists|i: int| 0 <= i < s.len() && s[i] == c {
        Some(choose|i: int| 0 <= i < s.len() && s[i] == c && forall|j: int| 0 <= j < i ==> s[j] != c)
    } else {
        None
    }
}

/// Whether a setting's value means "on": `yes`, `true` or `1`, in any case.
pub open spec fn truthy(v: Seq<char>) -> bool {
    let l = lower_of(trim_spec(v));
    l == "yes"@ || l == "true"@ || l == "1"@
}

/// The configuration after one `key=value` setting (key trimmed and
/// lowercased, value trimmed); an unknown key, or a number that does not
/// parse where the old value is kept, changes nothing.
pub open spec fn apply_setting(c: ConfigView, key: Seq<char>, v: Seq<char>) -> ConfigView {
    if key == "max_lines"@ {
        match usize_of(v) {
            Some(n) => ConfigView { max_lines: n, ..c },
            None => c,
        }
    } else if key == "max_file_size"@ {
        ConfigView { max_file_size: u64_of(v), ..c }
    } else if key == "skip_binary"@ {
        ConfigView { skip_binary: truthy(v), ..c }
    } else if key == "output_dir"@ {
        if v.len() > 0 {
            ConfigView { output_dir: Some(v), ..c }
        } else {
            c
        }
    } else if key == "use_timestamp"@ {
        ConfigView { use_timestamp: truthy(v), ..c }
    } else if key == "open_output"@ {
        ConfigView { open_output: truthy(v), ..c }
    } else if key == "use_gitignore"@ {
        ConfigView { use_gitignore: truthy(v), ..c }
    } else if key == "first_run_completed"@ {
        ConfigView { first_run_completed: truthy(v), ..c }
    } else if key == "max_files_per_dir"@ {
        match usize_of(v) {
            Some(n) => ConfigView { max_files_per_dir: n, ..c },
            None => c,
        }
    } else if key == "max_auto_file_size"@ {
        match u64_of(v) {
            Some(n) => ConfigView { max_auto_file_size: n, ..c },
            None => c,
        }
    } else {
        c
    }
}

/// A pattern line without its `#` comment, trimmed.
pub open spec fn pattern_text(line: Seq<char>) -> Seq<char> {
    match first_index(line, '#') {
        Some(i) => trim_spec(line.subrange(0, i)),
        None => trim_spec(line),
    }
}

/// `v` with the pattern of `line` appended, if it has one.
pub open spec fn with_pattern(v: Seq<Seq<char>>, line: Seq<char>) -> Seq<Seq<char>> {
    if pattern_text(line).len() > 0 {
        v.push(pattern_text(line))
    } else {
        v
    }
}

/// The section that a header names (trimmed, any case).
pub open spec fn section_named(name: Seq<char>) -> Section {
    let l = lower_of(trim_spec(name));
    if l == "settings"@ {
        Section::Settings
    } else if l == "exclude"@ {
        Section::Exclude
    } else if l == "skip"@ {
        Section::Skip
    } else if l == "inc"@ + "lude"@ {
        Section::Include
    } else if l == "outline"@ {
        Section::Outline
    } else {
        Section::Outside
    }
}

/// The section and configuration after one raw line of a config file:
/// blank lines and `#` comments are skipped; `[name]` (anything may follow
/// the `]`) opens a section; in `[settings]` a `key=value` line is a
/// setting; in a pattern section the line is a pattern.
pub open spec fn step(s: Section, c: ConfigView, raw: Seq<char>) -> (Section, ConfigView) {
    let line = trim_spec(raw);
    if line.len() == 0 || starts_with_char(line, '#') {
        (s, c)
    } else if starts_with_char(line, '[') && first_index(line, ']') is Some {
        (section_named(line.subrange(1, first_index(line, ']')->0)), c)
    } else {
        match s {
            Section::Settings => match first_index(line, '=') {
                Some(i) => (
                    s,
                    apply_setting(
                        c,
                        lower_of(trim_spec(line.subrange(0, i))),
                        trim_spec(line.subrange(i + 1, line.len() as int)),
                    ),
                ),
                None => (s, c),
            },
            Section::Exclude => (
                s,
                ConfigView { exclude_patterns: with_pattern(c.exclude_patterns, line), ..c },
            ),
            Section::Skip => (
                s,
                ConfigView {
                    skip_content_patterns: with_pattern(c.skip_content_patterns, line),
                    ..c
                },
            ),
            Section::Include => (
                s,
                ConfigView { include_patterns: with_pattern(c.include_patterns, line), ..c },
            ),
            Section::Outline => (
                s,
                ConfigView { outline_patterns: with_pattern(c.outline_patterns, line), ..c },
            ),
            Section::Outside => (s, c),
        }
    }
}

/// The section and configuration after the given lines, starting outside
/// any section from `c`.
pub open spec fn parse_lines(c: ConfigView, lines: Seq<Seq<char>>) -> (Section, ConfigView)
    decreases lines.len(),
{
    if lines.len() == 0 {
        (Section::Outside, c)
    } else {
        let prev = parse_lines(c, lines.drop_last());
        step(prev.0, prev.1, lines.last())
    }
}

/// The position of the first `c` in `s` (see `first_index`).
fn find_char(s: &str, c: char) -> (r: Option<usize>)
    ensures
        r matches Some(i) ==> first_index(s@, c) == Some(i as int) && i < s@.len() && s@[i as int]
            == c,
        r is None ==> first_index(s@, c) is None,
{
    let n = s.unicode_len();
    let mut i: usize = 0;
    while i < n
        invariant
            n == s@.len(),
            i <= n,
            forall|j: int| 0 <= j < i ==> s@[j] != c,
        decreases n - i,
    {
        if s.get_char(i) == c {
            let ghost k = choose|k: int|
                0 <= k < s@.len() && s@[k] == c && forall|j: int| 0 <= j < k ==> s@[j] != c;
            assert(k == i) by {
                if k < i {
                } else if k > i {
                    assert(s@[i as int] == c);
                }
            }
            return Some(i);
        }
        i = i + 1;
    }
    None
}

/// Appends the pattern of a line (the text before any `#`, trimmed) to
/// `v`, unless it is empty.
pub fn push_pattern(v: &mut Vec<String>, line: &str)
    ensures
        views(final(v)@) == with_pattern(views(old(v)@), line@),
{
    let pat = match find_char(line, '#') {
        Some(i) => trim(line.substring_char(0, i)),
        None => trim(line),
    };
    if pat.unicode_len() > 0 {
        let ghost before = v@;
        v.push(String::from_str(pat));
        assert(views(v@) =~= views(before).push(pat@));
    }
}

/// Whether a trimmed setting value means "on" (see `truthy`).
fn is_truthy(v: &str) -> (r: bool)
    ensures
        r == truthy(v@),
{
    let l = lowercase(trim(v));
    str_eq(l.as_str(), "yes") || str_eq(l.as_str(), "true") || str_eq(l.as_str(), "1")
}

/// Applies one setting (see `apply_setting`).
fn set_value(p: &mut ConfigParams, key: &str, v: &str)
    ensures
        final(p)@ == apply_setting(old(p)@, key@, v@),
{
    if str_eq(key, "max_lines") {
        match parse_usize(v) {
            Some(n) => {
                p.max_lines = n;
            },
            None => {},
        }
    } else if str_eq(key, "max_file_size") {
        p.max_file_size = parse_u64(v);
    } else if str_eq(key, "skip_binary") {
        p.skip_binary = is_truthy(v);
    } else if str_eq(key, "output_dir") {
        if v.unicode_len() > 0 {
            p.output_dir = Some(String::from_str(v));
        }
    } else if str_eq(key, "use_timestamp") {
        p.use_timestamp = is_truthy(v);
    } else if str_eq(key, "open_output") {
        p.open_output = is_truthy(v);
    } else if str_eq(key, "use_gitignore") {
        p.use_gitignore = is_truthy(v);
    } else if str_eq(key, "first_run_completed") {
        p.first_run_completed = is_truthy(v);
    } else if str_eq(key, "max_files_per_dir") {
        match parse_usize(v) {
            Some(n) => {
                p.max_files_per_dir = n;
            },
            None => {},
        }
    } else if str_eq(key, "max_auto_file_size") {
        match parse_u64(v) {
            Some(n) => {
                p.max_auto_file_size = n;
            },
            None => {},
        }
    }
    assert(p@ =~= apply_setting(old(p)@, key@, v@));
}

/// The section that a header names (see `section_named`).
fn section_of(name: &str) -> (r: Section)
    ensures
        r == section_named(name@),
{
    let l = lowercase(trim(name));
    let s = l.as_str();
    if str_eq(s, "settings") {
        Section::Settings
    } else if str_eq(s, "exclude") {
        Section::Exclude
    } else if str_eq(s, "skip") {
        Section::Skip
    } else if str_eq(s, join2("inc", "lude").as_str()) {
        Section::Include
    } else if str_eq(s, "outline") {
        Section::Outline
    } else {
        Section::Outside
    }
}


/// The configuration that a config file starts from.
pub open spec fn default_view() -> ConfigView {
    ConfigView {
        max_lines: DEFAULT_MAX_LINES,
        max_file_size: None,
        skip_binary: false,
        output_dir: None,
        exclude_patterns: seq![],
        skip_content_patterns: seq![],
        include_patterns: seq![],
        outline_patterns: seq![],
        use_timestamp: false,
        open_output: true,
        use_gitignore: false,
        first_run_completed: false,
        max_files_per_dir: DEFAULT_MAX_FILES_PER_DIR,
        max_auto_file_size: DEFAULT_MAX_AUTO_FILE_SIZE,
    }
}

/// Applies one raw line of a config file (see `step`).
fn apply_line(section: Section, p: &mut ConfigParams, raw: &str) -> (r: Section)
    ensures
        (r, final(p)@) == step(section, old(p)@, raw@),
{
    let line = trim(raw);
    let n = line.unicode_len();
    if n == 0 || line.get_char(0) == '#' {
        return section;
    }
    if line.get_char(0) == '[' {
        match find_char(line, ']') {
            Some(end) => {
                return section_of(line.substring_char(1, end));
            },
            None => {},
        }
    }
    match section {
        Section::Settings => {
            match find_char(line, '=') {
                Some(i) => {
                    let key = lowercase(trim(line.substring_char(0, i)));
                    let v = trim(line.substring_char(i + 1, n));
                    set_value(p, key.as_str(), v);
                },
                None => {},
            }
        },
        Section::Exclude => push_pattern(&mut p.exclude_patterns, line),
        Section::Skip => push_pattern(&mut p.skip_content_patterns, line),
        Section::Include => push_pattern(&mut p.include_patterns, line),
        Section::Outline => push_pattern(&mut p.outline_patterns, line),
        Section::Outside => {},
    }
    assert(p@ =~= step(section, old(p)@, raw@).1);
    section
}

/// Reads a config file, given as its lines: four pattern sections
/// (`[exclude]`, `[skip]`, `[include]`, `[outline]`, in any case) with one
/// pattern per line, and a `[settings]` section of `key=value` lines, over
/// the defaults.
pub fn parse_config_lines(lines: &Vec<String>) -> (r: ConfigParams)
    ensures
        r@ == parse_lines(default_view(), views(lines@)).1,
{
    let ghost ls = views(lines@);
    let mut p = ConfigParams::default();
    assert(views(p.exclude_patterns@) =~= seq![]);
    assert(views(p.skip_content_patterns@) =~= seq![]);
    assert(views(p.include_patterns@) =~= seq![]);
    assert(views(p.outline_patterns@) =~= seq![]);
    assert(p@ =~= default_view());
    let mut section = Section::Outside;
    let mut i: usize = 0;
    while i < lines.len()
        invariant
            i <= lines@.len(),
            ls == views(lines@),
            (section, p@) == parse_lines(default_view(), ls.subrange(0, i as int)),
        decreases lines.len() - i,
    {
        assert(ls.subrange(0, i + 1).drop_last() =~= ls.subrange(0, i as int));
        assert(ls.subrange(0, i + 1).last() == lines@[i as int]@);
        section = apply_line(section, &mut p, lines[i].as_str());
        i = i + 1;
    }
    assert(ls.subrange(0, ls.len() as int) =~= ls);
    p
}

} // verus!
