use vstd::prelude::*;
use vstd::string::*;

use crate::classify::ScanConfig;
use crate::pattern::{build_globset, views};
use crate::text::str_eq;

verus! {

/// The run mode named on the command line.
#[derive(Clone, Copy, Debug, PartialEq, Eq, Structural)]
pub enum ModeArg {
    Gather,
    Outline,
}

/// The outline format named on the command line.
#[derive(Clone, Copy, Debug, PartialEq, Eq, Structural)]
pub enum FormatArg {
    Md,
    Json,
}

/// The format of a stand-alone outline.
#[derive(Clone, Copy, Debug, PartialEq, Eq, Structural)]
pub enum OutlineFormat {
    Md,
    Json,
}

/// What a run does: gather files, or write an outline in some format.
#[derive(Clone, Copy, Debug, PartialEq, Eq, Structural)]
pub enum RunMode {
    Gather,
    Outline(OutlineFormat),
}

impl ModeArg {
    /// The mode that a command-line value names: `gather` or `outline`.
    pub fn from_name(s: &str) -> (r: Option<ModeArg>)
        ensures
            r == (if s@ == "gather"@ {
                Some(ModeArg::Gather)
            } else if s@ == "outline"@ {
                Some(ModeArg::Outline)
            } else {
                None
            }),
    {
        if str_eq(s, "gather") {
            Some(ModeArg::Gather)
        } else if str_eq(s, "outline") {
            Some(ModeArg::Outline)
        } else {
            None
        }
    }
}

impl FormatArg {
    /// The format that a command-line value names: `md` or `json`.
    pub fn from_name(s: &str) -> (r: Option<FormatArg>)
        ensures
            r == (if s@ == "md"@ {
                Some(FormatArg::Md)
            } else if s@ == "json"@ {
                Some(FormatArg::Json)
            } else {
                None
            }),
    {
        if str_eq(s, "md") {
            Some(FormatArg::Md)
        } else if str_eq(s, "json") {
            Some(FormatArg::Json)
        } else {
            None
        }
    }
}

/// The run mode of the parsed arguments: the outline format defaults to
/// Markdown, and only matters in outline mode.
pub fn run_mode(mode: ModeArg, format: Option<FormatArg>) -> (r: RunMode)
    ensures
        mode == ModeArg::Gather ==> r == RunMode::Gather,
        mode == ModeArg::Outline ==> r == RunMode::Outline(
            if format == Some(FormatArg::Json) {
                OutlineFormat::Json
            } else {
                OutlineFormat::Md
            },
        ),
{
    let f = match format {
        Some(FormatArg::Json) => OutlineFormat::Json,
        _ => OutlineFormat::Md,
    };
    match mode {
        ModeArg::Gather => RunMode::Gather,
        ModeArg::Outline => RunMode::Outline(f),
    }
}

/// The options given on the command line.
pub struct CLIOptions {
    pub mode: RunMode,
    pub target_dir: String,
    pub output_file: Option<String>,
    pub config_file: Option<String>,
    pub max_lines: Option<usize>,
    pub max_file_size: Option<u64>,
    pub extra_exclude_patterns: Vec<String>,
    pub extra_skip_patterns: Vec<String>,
    pub include_patterns: Vec<String>,
    pub use_timestamp: bool,
    pub no_open: bool,
    pub use_gitignore: bool,
}

/// The effective configuration of a run: the config file's settings and
/// patterns, with the command line merged in.
pub struct ConfigParams {
    pub max_lines: usize,
    pub max_file_size: Option<u64>,
    pub skip_binary: bool,
    pub output_dir: Option<String>,
    pub exclude_patterns: Vec<String>,
    pub skip_content_patterns: Vec<String>,
    pub include_patterns: Vec<String>,
    pub outline_patterns: Vec<String>,
    pub use_timestamp: bool,
    pub open_output: bool,
    pub use_gitignore: bool,
    pub first_run_completed: bool,
    pub max_files_per_dir: usize,
    pub max_auto_file_size: u64,
}

/// The per-file line cap when none is configured.
pub const DEFAULT_MAX_LINES: usize = 1000;

/// The file count above which the first run proposes excluding a directory.
pub const DEFAULT_MAX_FILES_PER_DIR: usize = 100;

/// The total size above which the first run proposes excluding a directory.
pub const DEFAULT_MAX_AUTO_FILE_SIZE: u64 = 1_000_000;

impl Default for ConfigParams {
    fn default() -> (r: Self)
        ensures
            r.max_lines == DEFAULT_MAX_LINES,
            r.max_file_size is None,
            !r.skip_binary,
            r.output_dir is None,
            r.exclude_patterns@.len() == 0,
            r.skip_content_patterns@.len() == 0,
            r.include_patterns@.len() == 0,
            r.outline_patterns@.len() == 0,
            !r.use_timestamp,
            r.open_output,
            !r.use_gitignore,
            !r.first_run_completed,
            r.max_files_per_dir == DEFAULT_MAX_FILES_PER_DIR,
            r.max_auto_file_size == DEFAULT_MAX_AUTO_FILE_SIZE,
    {
        ConfigParams {
            max_lines: DEFAULT_MAX_LINES,
            max_file_size: None,
            skip_binary: false,
            output_dir: None,
            exclude_patterns: Vec::new(),
            skip_content_patterns: Vec::new(),
            include_patterns: Vec::new(),
            outline_patterns: Vec::new(),
            use_timestamp: false,
            open_output: true,
            use_gitignore: false,
            first_run_completed: false,
            max_files_per_dir: DEFAULT_MAX_FILES_PER_DIR,
            max_auto_file_size: DEFAULT_MAX_AUTO_FILE_SIZE,
        }
    }
}

/// Appends copies of `extra` to `v`.
pub fn extend_strings(v: &mut Vec<String>, extra: &Vec<String>)
    ensures
        views(final(v)@) == views(old(v)@) + views(extra@),
{
    let ghost start = views(v@);
    let mut i: usize = 0;
    while i < extra.len()
        invariant
            i <= extra@.len(),
            views(v@) == start + views(extra@).subrange(0, i as int),
        decreases extra.len() - i,
    {
        let ghost before = v@;
        v.push(extra[i].clone());
        assert(views(v@) =~= views(before).push(extra@[i as int]@));
        assert(views(extra@).subrange(0, i + 1) =~= views(extra@).subrange(0, i as int).push(
            extra@[i as int]@,
        ));
        i = i + 1;
    }
    assert(views(extra@).subrange(0, extra@.len() as int) =~= views(extra@));
}

/// Merges the command line into the configuration: a given line cap or
/// size cap replaces the configured one, extra patterns are appended to
/// their category, and the three switches can only be turned on
/// (`--no-open` turns opening off).
pub fn merge_cli_into_config(opts: &CLIOptions, cfg: &mut ConfigParams)
    ensures
        final(cfg).max_lines == (match opts.max_lines {
            Some(n) => n,
            None => old(cfg).max_lines,
        }),
        final(cfg).max_file_size == (match opts.max_file_size {
            Some(b) => Some(b),
            None => old(cfg).max_file_size,
        }),
        views(final(cfg).exclude_patterns@) == views(old(cfg).exclude_patterns@) + views(
            opts.extra_exclude_patterns@,
        ),
        views(final(cfg).skip_content_patterns@) == views(old(cfg).skip_content_patterns@) + views(
            opts.extra_skip_patterns@,
        ),
        views(final(cfg).include_patterns@) == views(old(cfg).include_patterns@) + views(
            opts.include_patterns@,
        ),
        final(cfg).outline_patterns == old(cfg).outline_patterns,
        final(cfg).use_timestamp == (old(cfg).use_timestamp || opts.use_timestamp),
        final(cfg).open_output == (old(cfg).open_output && !opts.no_open),
        final(cfg).use_gitignore == (old(cfg).use_gitignore || opts.use_gitignore),
        final(cfg).skip_binary == old(cfg).skip_binary,
        final(cfg).output_dir == old(cfg).output_dir,
        final(cfg).first_run_completed == old(cfg).first_run_completed,
        final(cfg).max_files_per_dir == old(cfg).max_files_per_dir,
        final(cfg).max_auto_file_size == old(cfg).max_auto_file_size,
{
    match opts.max_lines {
        Some(n) => {
            cfg.max_lines = n;
        },
        None => {},
    }
    match opts.max_file_size {
        Some(b) => {
            cfg.max_file_size = Some(b);
        },
        None => {},
    }
    extend_strings(&mut cfg.exclude_patterns, &opts.extra_exclude_patterns);
    extend_strings(&mut cfg.skip_content_patterns, &opts.extra_skip_patterns);
    extend_strings(&mut cfg.include_patterns, &opts.include_patterns);
    cfg.use_timestamp = cfg.use_timestamp || opts.use_timestamp;
    cfg.open_output = cfg.open_output && !opts.no_open;
    cfg.use_gitignore = cfg.use_gitignore || opts.use_gitignore;
}

/// `existing` followed by each non-empty pattern of `new` that is not
/// already there (earlier additions included), in order.
pub open spec fn add_missing(existing: Seq<Seq<char>>, new: Seq<Seq<char>>) -> Seq<Seq<char>>
    decreases new.len(),
{
    if new.len() == 0 {
        existing
    } else {
        let acc = add_missing(existing, new.drop_last());
        if new.last().len() == 0 || acc.contains(new.last()) {
            acc
        } else {
            acc.push(new.last())
        }
    }
}

/// Whether `v` holds a string equal to `s`.
pub fn contains_string(v: &Vec<String>, s: &str) -> (r: bool)
    ensures
        r == views(v@).contains(s@),
{
    let mut i: usize = 0;
    while i < v.len()
        invariant
            i <= v@.len(),
            forall|k: int| 0 <= k < i ==> v@[k]@ != s@,
        decreases v.len() - i,
    {
        if str_eq(v[i].as_str(), s) {
            assert(views(v@)[i as int] == s@);
            return true;
        }
        i = i + 1;
    }
    assert forall|k: int| 0 <= k < views(v@).len() implies views(v@)[k] != s@ by {
        assert(views(v@)[k] == v@[k]@);
    }
    false
}

/// Adds the patterns of a `.gitignore` to the exclude patterns: each
/// non-empty one that is not already there.
pub fn merge_gitignore_patterns(cfg: &mut ConfigParams, patterns: &Vec<String>)
    ensures
        views(final(cfg).exclude_patterns@) == add_missing(
            views(old(cfg).exclude_patterns@),
            views(patterns@),
        ),
        final(cfg).skip_content_patterns == old(cfg).skip_content_patterns,
        final(cfg).include_patterns == old(cfg).include_patterns,
        final(cfg).outline_patterns == old(cfg).outline_patterns,
        final(cfg).max_lines == old(cfg).max_lines,
        final(cfg).max_file_size == old(cfg).max_file_size,
        final(cfg).skip_binary == old(cfg).skip_binary,
{
    let ghost start = views(cfg.exclude_patterns@);
    let ghost ps = views(patterns@);
    let mut i: usize = 0;
    while i < patterns.len()
        invariant
            i <= patterns@.len(),
            ps == views(patterns@),
            views(cfg.exclude_patterns@) == add_missing(start, ps.subrange(0, i as int)),
            cfg.skip_content_patterns == old(cfg).skip_content_patterns,
            cfg.include_patterns == old(cfg).include_patterns,
            cfg.outline_patterns == old(cfg).outline_patterns,
            cfg.max_lines == old(cfg).max_lines,
            cfg.max_file_size == old(cfg).max_file_size,
            cfg.skip_binary == old(cfg).skip_binary,
        decreases patterns.len() - i,
    {
        let p = patterns[i].as_str();
        assert(ps.subrange(0, i + 1).drop_last() =~= ps.subrange(0, i as int));
        assert(ps.subrange(0, i + 1).last() == p@);
        if p.unicode_len() > 0 && !contains_string(&cfg.exclude_patterns, p) {
            let ghost before = cfg.exclude_patterns@;
            cfg.exclude_patterns.push(patterns[i].clone());
            assert(views(cfg.exclude_patterns@) =~= views(before).push(p@));
        }
        i = i + 1;
    }
    assert(ps.subrange(0, ps.len() as int) =~= ps);
}

/// The compiled rules of a scan under this configuration.
pub fn scan_config(params: &ConfigParams) -> (r: ScanConfig)
    ensures
        r.max_lines == params.max_lines,
        r.max_file_size == params.max_file_size,
        r.skip_binary == params.skip_binary,
        r.exclude.built_from(views(params.exclude_patterns@)),
        r.skip.built_from(views(params.skip_content_patterns@)),
        r.includes.built_from(views(params.include_patterns@)),
        r.outline.built_from(views(params.outline_patterns@)),
{
    ScanConfig {
        exclude: build_globset(&params.exclude_patterns),
        skip: build_globset(&params.skip_content_patterns),
        includes: build_globset(&params.include_patterns),
        outline: build_globset(&params.outline_patterns),
        max_lines: params.max_lines,
        max_file_size: params.max_file_size,
        skip_binary: params.skip_binary,
    }
}

} // verus!
