use vstd::prelude::*;
use vstd::string::*;

use crate::outline::Symbol;
use crate::pattern::views;
use crate::render::symbol_line;
use crate::text::{join2, join3, str_eq};

verus! {

/// The name of the output file: stamped with the given time when asked,
/// `output.txt` otherwise.
pub fn output_file_name(use_timestamp: bool, stamp: &str) -> (r: String)
    ensures
        r@ == (if use_timestamp {
            "output_"@ + stamp@ + ".txt"@
        } else {
            "output.txt"@
        }),
{
    if use_timestamp {
        join3("output_", stamp, ".txt")
    } else {
        String::from_str("output.txt")
    }
}

/// The last component of a slash-separated path.
pub open spec fn last_component(path: Seq<char>) -> Seq<char> {
    if exists|i: int| 0 <= i < path.len() && path[i] == '/' {
        let k = choose|i: int|
            0 <= i < path.len() && path[i] == '/' && forall|j: int| i < j < path.len() ==> path[j]
                != '/';
        path.subrange(k + 1, path.len() as int)
    } else {
        path
    }
}

/// The extension of a file name: what follows its last `.`, unless that
/// `.` is the name's first character.
pub open spec fn extension(name: Seq<char>) -> Option<Seq<char>> {
    if exists|i: int| 0 < i < name.len() && name[i] == '.' {
        let k = choose|i: int|
            0 < i < name.len() && name[i] == '.' && forall|j: int| i < j < name.len() ==> name[j]
                != '.';
        Some(name.subrange(k + 1, name.len() as int))
    } else {
        None
    }
}

/// The position of the last `c` in `s` at or after `from`, if any.
fn last_index_from(s: &str, c: char, from: usize) -> (r: Option<usize>)
    ensures
        r matches Some(k) ==> from <= k < s@.len() && s@[k as int] == c && forall|j: int|
            k < j < s@.len() ==> s@[j] != c,
        r is None ==> forall|j: int| from <= j < s@.len() ==> s@[j] != c,
{
    let n = s.unicode_len();
    let mut i: usize = n;
    while i > from
        invariant
            n == s@.len(),
            i <= n,
            forall|j: int| i <= j < n ==> s@[j] != c,
        decreases i,
    {
        if s.get_char(i - 1) == c {
            return Some(i - 1);
        }
        i = i - 1;
    }
    None
}

/// Whether the file at a slash-separated path has the extension `rs`.
pub fn is_rust_source(path: &str) -> (r: bool)
    ensures
        r == (extension(last_component(path@)) == Some("rs"@)),
{
    let n = path.unicode_len();
    let start: usize = match last_index_from(path, '/', 0) {
        Some(k) => k + 1,
        None => 0,
    };
    let name = path.substring_char(start, n);
    assert(name@ == last_component(path@)) by {
        if exists|i: int| 0 <= i < path@.len() && path@[i] == '/' {
            let k = choose|i: int|
                0 <= i < path@.len() && path@[i] == '/' && forall|j: int|
                    i < j < path@.len() ==> path@[j] != '/';
            assert(k == start - 1) by {
                if k < start - 1 {
                    assert(path@[start - 1] == '/');
                } else if k > start - 1 {
                    assert(path@[k] == '/');
                }
            }
        }
    }
    let m = name.unicode_len();
    match last_index_from(name, '.', 1) {
        Some(k) => {
            let ext = name.substring_char(k + 1, m);
            assert(extension(name@) == Some(ext@)) by {
                let kk = choose|i: int|
                    0 < i < name@.len() && name@[i] == '.' && forall|j: int|
                        i < j < name@.len() ==> name@[j] != '.';
                assert(kk == k) by {
                    if kk < k {
                        assert(name@[k as int] == '.');
                    } else if kk > k {
                        assert(name@[kk] == '.');
                    }
                }
            }
            str_eq(ext, "rs")
        },
        None => false,
    }
}

/// The release target that the self-update looks for on a platform.
pub open spec fn target_for(os: Seq<char>, arch: Seq<char>) -> Seq<char> {
    if os == "linux"@ && arch == "x86_64"@ {
        "linux-musl-amd64"@
    } else if os == "linux"@ && arch == "aarch64"@ {
        "linux-arm64"@
    } else if os == "macos"@ && arch == "x86_64"@ {
        "macos-amd64"@
    } else if os == "macos"@ && arch == "aarch64"@ {
        "macos-arm64"@
    } else if os == "windows"@ && arch == "x86_64"@ {
        "windows-amd64.exe"@
    } else {
        os + "-"@ + arch
    }
}

/// The release target that the self-update looks for (see `target_for`).
pub fn platform_target(os: &str, arch: &str) -> (r: String)
    ensures
        r@ == target_for(os@, arch@),
{
    if str_eq(os, "linux") && str_eq(arch, "x86_64") {
        String::from_str("linux-musl-amd64")
    } else if str_eq(os, "linux") && str_eq(arch, "aarch64") {
        String::from_str("linux-arm64")
    } else if str_eq(os, "macos") && str_eq(arch, "x86_64") {
        String::from_str("macos-amd64")
    } else if str_eq(os, "macos") && str_eq(arch, "aarch64") {
        String::from_str("macos-arm64")
    } else if str_eq(os, "windows") && str_eq(arch, "x86_64") {
        String::from_str("windows-amd64.exe")
    } else {
        join3(os, "-", arch)
    }
}

/// The Markdown outline of one file: a header, one line per symbol, a
/// blank line.
pub fn render_outline_md(path: &str, symbols: &Vec<Symbol>) -> (r: Vec<String>)
    ensures
        views(r@) == seq!["### "@ + path@] + Seq::new(
            symbols@.len(),
            |k: int| symbol_line(symbols@[k].kind@, symbols@[k].ident@),
        ) + seq![seq![]],
{
    let ghost lines = Seq::new(
        symbols@.len(),
        |k: int| symbol_line(symbols@[k].kind@, symbols@[k].ident@),
    );
    let mut r: Vec<String> = Vec::new();
    r.push(join2("### ", path));
    let mut i: usize = 0;
    while i < symbols.len()
        invariant
            i <= symbols@.len(),
            lines == Seq::new(
                symbols@.len(),
                |k: int| symbol_line(symbols@[k].kind@, symbols@[k].ident@),
            ),
            views(r@) == seq!["### "@ + path@] + lines.subrange(0, i as int),
        decreases symbols.len() - i,
    {
        let ghost before = r@;
        let mut line = join3("- **", symbols[i].kind.as_str(), "** ");
        line.append(symbols[i].ident.as_str());
        r.push(line);
        assert(views(r@) =~= views(before).push(lines[i as int]));
        assert(lines.subrange(0, i + 1) =~= lines.subrange(0, i as int).push(lines[i as int]));
        i = i + 1;
    }
    assert(lines.subrange(0, symbols@.len() as int) =~= lines);
    let ghost mid = r@;
    r.push(String::new());
    assert(views(r@) =~= views(mid).push(seq![]));
    r
}

} // verus!

verus! {

/// The lines of the default config file up to and including the fixed
/// exclude patterns.
pub open spec fn template_head() -> Seq<Seq<char>> {
    seq![
        "[settings]"@,
        "max_lines=1000"@,
        "max_file_size=500000"@,
        "skip_binary=yes"@,
        "output_dir=gather"@,
        "use_timestamp=no"@,
        "open_output=yes"@,
        "use_gitignore=yes"@,
        "first_run_completed=no"@,
        "max_files_per_dir=100"@,
        "max_auto_file_size=1000000"@,
        seq![],
        "[exclude]"@,
        "gather/"@,
        ".gather"@,
    ]
}

/// The lines of the default config file after the exclude patterns.
pub open spec fn template_tail() -> Seq<Seq<char>> {
    seq![
        seq![],
        "[skip]"@,
        "*.pdf"@,
        seq![],
        "[inc"@ + "lude]"@,
        "# (パターン未指定の場合、すべて含む想定)"@,
        "# 例："@,
        "# *.md         # すべてのMarkdownファイル"@,
        "# src/**/*.rs  # srcディレクトリ以下のRustファイル"@,
        "# *.{js,ts}    # すべてのJavaScriptとTypeScriptファイル"@,
        seq![],
        "[outline]"@,
    ]
}

/// Appends a copy of each string of `lines` to `r`.
fn push_all(r: &mut Vec<String>, lines: &Vec<String>)
    ensures
        views(final(r)@) == views(old(r)@) + views(lines@),
{
    let ghost start = views(r@);
    let mut i: usize = 0;
    while i < lines.len()
        invariant
            i <= lines@.len(),
            views(r@) == start + views(lines@).subrange(0, i as int),
        decreases lines.len() - i,
    {
        let ghost before = r@;
        r.push(lines[i].clone());
        assert(views(r@) =~= views(before).push(lines@[i as int]@));
        assert(views(lines@).subrange(0, i + 1) =~= views(lines@).subrange(0, i as int).push(
            lines@[i as int]@,
        ));
        i = i + 1;
    }
    assert(views(lines@).subrange(0, lines@.len() as int) =~= views(lines@));
}

/// The lines of the config file that a first run writes: the default
/// settings, the fixed exclude patterns followed by the proposed ones, and
/// the other sections.
pub fn default_template(auto_patterns: &Vec<String>) -> (r: Vec<String>)
    ensures
        views(r@) == template_head() + views(auto_patterns@) + template_tail(),
{
    let mut head: Vec<String> = Vec::new();
    head.push(String::from_str("[settings]"));
    head.push(String::from_str("max_lines=1000"));
    head.push(String::from_str("max_file_size=500000"));
    head.push(String::from_str("skip_binary=yes"));
    head.push(String::from_str("output_dir=gather"));
    head.push(String::from_str("use_timestamp=no"));
    head.push(String::from_str("open_output=yes"));
    head.push(String::from_str("use_gitignore=yes"));
    head.push(String::from_str("first_run_completed=no"));
    head.push(String::from_str("max_files_per_dir=100"));
    head.push(String::from_str("max_auto_file_size=1000000"));
    head.push(String::new());
    head.push(String::from_str("[exclude]"));
    head.push(String::from_str("gather/"));
    head.push(String::from_str(".gather"));
    assert(views(head@) =~= template_head());
    let mut tail: Vec<String> = Vec::new();
    tail.push(String::new());
    tail.push(String::from_str("[skip]"));
    tail.push(String::from_str("*.pdf"));
    tail.push(String::new());
    tail.push(join2("[inc", "lude]"));
    tail.push(String::from_str("# (パターン未指定の場合、すべて含む想定)"));
    tail.push(String::from_str("# 例："));
    tail.push(String::from_str("# *.md         # すべてのMarkdownファイル"));
    tail.push(String::from_str("# src/**/*.rs  # srcディレクトリ以下のRustファイル"));
    tail.push(String::from_str("# *.{js,ts}    # すべてのJavaScriptとTypeScriptファイル"));
    tail.push(String::new());
    tail.push(String::from_str("[outline]"));
    assert(views(tail@) =~= template_tail());
    let mut r = head;
    push_all(&mut r, auto_patterns);
    push_all(&mut r, &tail);
    r
}

} // verus!
