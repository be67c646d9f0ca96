use vstd::prelude::*;
use vstd::string::*;

use crate::classify::{disposition, lemma_skip_beats_outline, Disposition, ScanConfig};
use crate::outline::OutlineResult;
use crate::pattern::views;
use crate::text::{join2, join3};
use crate::walk::WalkedEntry;

verus! {

/// The number of `c` in `s`.
pub open spec fn count_char(s: Seq<char>, c: char) -> nat
    decreases s.len(),
{
    if s.len() == 0 {
        0
    } else {
        count_char(s.drop_last(), c) + if s.last() == c {
            1nat
        } else {
            0nat
        }
    }
}

/// The number of components of a relative path (none for the root).
pub open spec fn depth(rel: Seq<char>) -> nat {
    if rel.len() == 0 {
        0
    } else {
        count_char(rel, '/') + 1
    }
}

/// Four spaces, `n` times.
pub open spec fn indent(n: nat) -> Seq<char>
    decreases n,
{
    if n == 0 {
        seq![]
    } else {
        indent((n - 1) as nat) + "    "@
    }
}

/// The tag of an omission reason, as the tree shows it.
pub open spec fn reason_label(d: Disposition) -> Seq<char> {
    match d {
        Disposition::OmitPattern => "pattern"@,
        Disposition::OmitBinary => "binary"@,
        Disposition::OmitTooLarge => "too-large"@,
        Disposition::OmitOutline => "outline"@,
        Disposition::Include => seq![],
    }
}

/// The disposition recorded for `rel`: the first file path that equals it.
pub open spec fn lookup(paths: Seq<Seq<char>>, ds: Seq<Disposition>, rel: Seq<char>) -> Option<
    Disposition,
>
    decreases paths.len(),
{
    if paths.len() == 0 || ds.len() == 0 {
        None
    } else if paths[0] == rel {
        Some(ds[0])
    } else {
        lookup(paths.drop_first(), ds.drop_first(), rel)
    }
}

/// One line of the tree: indentation by depth less one (the number of `/`), then the name; a `/` after
/// a directory; an omission tag after a file that is not included.
pub open spec fn tree_line(e: WalkedEntry, d: Option<Disposition>) -> Seq<char> {
    let ind = indent(count_char(e.rel@, '/'));
    if d is Some && d->0 != Disposition::Include {
        ind + e.name@ + "   [omitted:"@ + reason_label(d->0) + "]"@
    } else if e.is_dir {
        ind + e.name@ + "/"@
    } else {
        ind + e.name@
    }
}

/// The opening and closing line of a fenced block.
pub open spec fn fence() -> Seq<char> {
    "```"@
}

/// The whole tree block: a fence, one line per entry, a fence, a blank line.
pub open spec fn tree_block(
    entries: Seq<WalkedEntry>,
    paths: Seq<Seq<char>>,
    ds: Seq<Disposition>,
) -> Seq<Seq<char>> {
    seq![fence()] + Seq::new(
        entries.len(),
        |k: int| tree_line(entries[k], lookup(paths, ds, entries[k].rel@)),
    ) + seq![fence(), seq![]]
}

/// The number of `/` in a relative path: its depth less one.
pub fn path_nesting(rel: &str) -> (r: usize)
    ensures
        r == count_char(rel@, '/'),
        rel@.len() > 0 ==> r + 1 == depth(rel@),
{
    let n = rel.unicode_len();
    let mut count: usize = 0;
    let mut i: usize = 0;
    assert(rel@.subrange(0, 0) =~= seq![]);
    while i < n
        invariant
            n == rel@.len(),
            i <= n,
            count == count_char(rel@.subrange(0, i as int), '/'),
            count <= i,
        decreases n - i,
    {
        assert(rel@.subrange(0, i + 1).drop_last() =~= rel@.subrange(0, i as int));
        if rel.get_char(i) == '/' {
            count = count + 1;
        }
        i = i + 1;
    }
    assert(rel@.subrange(0, n as int) =~= rel@);
    count
}

/// Four spaces, `n` times.
pub fn make_indent(n: usize) -> (r: String)
    ensures
        r@ == indent(n as nat),
{
    let mut r = String::new();
    let mut i: usize = 0;
    while i < n
        invariant
            i <= n,
            r@ == indent(i as nat),
        decreases n - i,
    {
        r.append("    ");
        i = i + 1;
    }
    r
}

/// The tag of an omission reason (see `reason_label`).
pub fn omit_reason_label(d: Disposition) -> (r: &'static str)
    ensures
        r@ == reason_label(d),
{
    match d {
        Disposition::OmitPattern => "pattern",
        Disposition::OmitBinary => "binary",
        Disposition::OmitTooLarge => "too-large",
        Disposition::OmitOutline => "outline",
        Disposition::Include => {
            proof {
                reveal_strlit("");
            }
            ""
        },
    }
}

/// One line of the tree (see `tree_line`).
pub fn render_tree_line(e: &WalkedEntry, d: Option<Disposition>) -> (r: String)
    ensures
        r@ == tree_line(*e, d),
{
    let ind = make_indent(path_nesting(e.rel.as_str()));
    let mut r = join2(ind.as_str(), e.name.as_str());
    match d {
        Some(reason) => {
            if reason != Disposition::Include {
                r.append("   [omitted:");
                r.append(omit_reason_label(reason));
                r.append("]");
                return r;
            }
        },
        None => {},
    }
    if e.is_dir {
        r.append("/");
    }
    r
}

/// The disposition recorded for `rel` (see `lookup`).
pub fn find_disposition(paths: &Vec<String>, ds: &Vec<Disposition>, rel: &String) -> (r: Option<
    Disposition,
>)
    ensures
        r == lookup(views(paths@), ds@, rel@),
{
    let ghost ps = views(paths@);
    let mut i: usize = 0;
    assert(ps.subrange(0, ps.len() as int) =~= ps);
    assert(ds@.subrange(0, ds@.len() as int) =~= ds@);
    while i < paths.len() && i < ds.len()
        invariant
            ps == views(paths@),
            i <= paths@.len(),
            i <= ds@.len(),
            lookup(ps, ds@, rel@) == lookup(
                ps.subrange(i as int, ps.len() as int),
                ds@.subrange(i as int, ds@.len() as int),
                rel@,
            ),
        decreases paths.len() - i,
    {
        let ghost xp = ps.subrange(i as int, ps.len() as int);
        let ghost xd = ds@.subrange(i as int, ds@.len() as int);
        assert(xp[0] == paths@[i as int]@);
        assert(xd[0] == ds@[i as int]);
        if paths[i].eq(rel) {
            return Some(ds[i]);
        }
        assert(xp.drop_first() =~= ps.subrange(i + 1, ps.len() as int));
        assert(xd.drop_first() =~= ds@.subrange(i + 1, ds@.len() as int));
        i = i + 1;
    }
    None
}

/// The tree block of the output: the walked entries (already pruned and
/// sorted), each annotated with the disposition recorded for its path.
pub fn render_tree(entries: &Vec<WalkedEntry>, paths: &Vec<String>, ds: &Vec<Disposition>) -> (r:
    Vec<String>)
    ensures
        views(r@) == tree_block(entries@, views(paths@), ds@),
{
    let mut r: Vec<String> = Vec::new();
    r.push(String::from_str("```"));
    let mut i: usize = 0;
    while i < entries.len()
        invariant
            i <= entries@.len(),
            r@.len() == i + 1,
            r@[0]@ == fence(),
            forall|k: int|
                0 <= k < i ==> (#[trigger] r@[k + 1])@ == tree_line(
                    entries@[k],
                    lookup(views(paths@), ds@, entries@[k].rel@),
                ),
        decreases entries.len() - i,
    {
        let d = find_disposition(paths, ds, &entries[i].rel);
        r.push(render_tree_line(&entries[i], d));
        i = i + 1;
    }
    r.push(String::from_str("```"));
    r.push(String::new());
    let ghost tb = tree_block(entries@, views(paths@), ds@);
    assert(views(r@).len() == tb.len());
    assert forall|k: int| 0 <= k < tb.len() implies views(r@)[k] == tb[k] by {
        if 1 <= k <= entries@.len() {
            assert(r@[(k - 1) + 1] == r@[k]);
        }
    }
    assert(views(r@) =~= tb);
    r
}

} // verus!

verus! {

/// The header line of a file's block.
pub open spec fn header(rel: Seq<char>) -> Seq<char> {
    "### "@ + rel
}

/// A file block: the header, a fence, the given lines, a fence, a blank line.
pub open spec fn block(rel: Seq<char>, body: Seq<Seq<char>>) -> Seq<Seq<char>> {
    seq![header(rel), fence()] + body + seq![fence(), seq![]]
}

/// The lines of an included file as they are emitted: at most `max_lines`
/// of them; when the file has more, the marker `...`, `(省略)` follows them;
/// otherwise a read error that stopped the reading shows on its own line.
pub open spec fn text_body(lines: Seq<Seq<char>>, error: Option<Seq<char>>, max_lines: nat) -> Seq<
    Seq<char>,
> {
    if lines.len() > max_lines {
        lines.subrange(0, max_lines as int) + seq!["..."@, "(省略)"@]
    } else if error is Some {
        lines + seq!["Error reading line: "@ + error->0]
    } else {
        lines
    }
}

/// The view of an optional string.
pub open spec fn opt_view(o: Option<String>) -> Option<Seq<char>> {
    match o {
        Some(s) => Some(s@),
        None => None,
    }
}

/// The line for one outline symbol.
pub open spec fn symbol_line(kind: Seq<char>, ident: Seq<char>) -> Seq<char> {
    "- **"@ + kind + "** "@ + ident
}

/// The lines of an outline block.
pub open spec fn outline_body(o: OutlineResult) -> Seq<Seq<char>> {
    match o {
        OutlineResult::Symbols(syms) => Seq::new(
            syms@.len(),
            |k: int| symbol_line(syms@[k].kind@, syms@[k].ident@),
        ),
        OutlineResult::Failed(msg) => seq!["(outline failed: "@ + msg@ + ")"@],
        OutlineResult::Unsupported => seq!["(outline not supported)"@],
    }
}

/// The placeholder that stands for the body of an omitted file.
pub open spec fn placeholder(d: Disposition) -> Seq<char> {
    match d {
        Disposition::OmitBinary => "(略) バイナリファイル"@,
        _ => "(略)"@,
    }
}

/// The block of an included file, from the lines that were read of it (at
/// most `max_lines + 1` are needed) and the error that stopped the reading,
/// if any.
pub fn render_text_block(
    rel: &str,
    lines: &Vec<String>,
    error: &Option<String>,
    max_lines: usize,
) -> (r: Vec<String>)
    ensures
        views(r@) == block(
            rel@,
            text_body(views(lines@), opt_view(*error), max_lines as nat),
        ),
{
    let mut r: Vec<String> = Vec::new();
    r.push(join2("### ", rel));
    r.push(String::from_str("```"));
    let n: usize = if lines.len() > max_lines {
        max_lines
    } else {
        lines.len()
    };
    let mut i: usize = 0;
    while i < n
        invariant
            n <= lines@.len(),
            i <= n,
            r@.len() == i + 2,
            views(r@) == seq![header(rel@), fence()] + views(lines@).subrange(0, i as int),
        decreases n - i,
    {
        let ghost before = r@;
        r.push(lines[i].clone());
        assert(views(r@) =~= views(before).push(lines@[i as int]@));
        assert(views(lines@).subrange(0, i + 1) =~= views(lines@).subrange(0, i as int).push(
            lines@[i as int]@,
        ));
        i = i + 1;
    }
    let ghost shown = views(r@);
    let ghost body = text_body(views(lines@), opt_view(*error), max_lines as nat);
    if lines.len() > max_lines {
        let dots = String::from_str("...");
        let mark = String::from_str("(省略)");
        r.push(dots);
        assert(views(r@) =~= shown.push("..."@));
        r.push(mark);
        assert(views(r@) =~= shown.push("..."@).push("(省略)"@));
        assert(views(r@) =~= seq![header(rel@), fence()] + body);
    } else {
        assert(views(lines@).subrange(0, n as int) =~= views(lines@));
        match error {
            Some(e) => {
                let line = join2("Error reading line: ", e.as_str());
                r.push(line);
                assert(views(r@) =~= shown.push("Error reading line: "@ + e@));
                assert(views(r@) =~= seq![header(rel@), fence()] + body);
            },
            None => {
                assert(views(r@) =~= seq![header(rel@), fence()] + body);
            },
        }
    }
    let ghost mid = views(r@);
    r.push(String::from_str("```"));
    r.push(String::new());
    assert(views(r@) =~= mid + seq![fence(), seq![]]);
    assert(views(r@) =~= block(
        rel@,
        text_body(views(lines@), opt_view(*error), max_lines as nat),
    ));
    r
}

/// The block of an included file that could not be opened.
pub fn render_open_error_block(rel: &str, message: &str) -> (r: Vec<String>)
    ensures
        views(r@) == block(rel@, seq!["Error: "@ + message@]),
{
    let mut r: Vec<String> = Vec::new();
    r.push(join2("### ", rel));
    r.push(String::from_str("```"));
    r.push(join2("Error: ", message));
    r.push(String::from_str("```"));
    r.push(String::new());
    assert(views(r@) =~= block(rel@, seq!["Error: "@ + message@]));
    r
}

/// The block of an outlined file: one line per symbol, or a placeholder
/// when the outline failed or no provider supports the file.
pub fn render_outline_block(rel: &str, outline: &OutlineResult) -> (r: Vec<String>)
    ensures
        views(r@) == block(rel@, outline_body(*outline)),
{
    let mut r: Vec<String> = Vec::new();
    r.push(join2("### ", rel));
    r.push(String::from_str("```"));
    match outline {
        OutlineResult::Symbols(syms) => {
            let mut i: usize = 0;
            while i < syms.len()
                invariant
                    i <= syms@.len(),
                    r@.len() == i + 2,
                    views(r@) == seq![header(rel@), fence()] + outline_body(*outline).subrange(
                        0,
                        i as int,
                    ),
                    *outline == OutlineResult::Symbols(*syms),
                decreases syms.len() - i,
            {
                let ghost before = r@;
                let mut line = join3("- **", syms[i].kind.as_str(), "** ");
                line.append(syms[i].ident.as_str());
                r.push(line);
                assert(views(r@) =~= views(before).push(
                    symbol_line(syms@[i as int].kind@, syms@[i as int].ident@),
                ));
                assert(outline_body(*outline).subrange(0, i + 1) =~= outline_body(
                    *outline,
                ).subrange(0, i as int).push(
                    symbol_line(syms@[i as int].kind@, syms@[i as int].ident@),
                ));
                i = i + 1;
            }
            assert(outline_body(*outline).subrange(0, syms@.len() as int) =~= outline_body(
                *outline,
            ));
        },
        OutlineResult::Failed(msg) => {
            r.push(join3("(outline failed: ", msg.as_str(), ")"));
        },
        OutlineResult::Unsupported => {
            r.push(String::from_str("(outline not supported)"));
        },
    }
    r.push(String::from_str("```"));
    r.push(String::new());
    assert(views(r@) =~= block(rel@, outline_body(*outline)));
    r
}

/// The block of a file omitted by pattern, as binary or as too large: a
/// placeholder in place of its body, which is never read.
pub fn render_placeholder_block(rel: &str, d: Disposition) -> (r: Vec<String>)
    ensures
        views(r@) == block(rel@, seq![placeholder(d)]),
{
    let mut r: Vec<String> = Vec::new();
    r.push(join2("### ", rel));
    r.push(String::from_str("```"));
    match d {
        Disposition::OmitBinary => r.push(String::from_str("(略) バイナリファイル")),
        _ => r.push(String::from_str("(略)")),
    }
    r.push(String::from_str("```"));
    r.push(String::new());
    assert(views(r@) =~= block(rel@, seq![placeholder(d)]));
    r
}

} // verus!

verus! {

/// What has to be read of a file before its block can be written.
#[derive(Clone, Copy, Debug, PartialEq, Eq, Structural)]
pub enum ReadNeed {
    /// Its lines, up to `max_lines + 1` of them.
    Lines,
    /// Its whole text, for the outline provider.
    Source,
    /// Nothing: the file's content is never opened.
    Nothing,
}

/// What a file's disposition asks to read of it.
pub open spec fn need_of(d: Disposition) -> ReadNeed {
    match d {
        Disposition::Include => ReadNeed::Lines,
        Disposition::OmitOutline => ReadNeed::Source,
        _ => ReadNeed::Nothing,
    }
}

/// What a file's disposition asks to read of it (see `need_of`).
pub fn read_need(d: Disposition) -> (r: ReadNeed)
    ensures
        r == need_of(d),
{
    match d {
        Disposition::Include => ReadNeed::Lines,
        Disposition::OmitOutline => ReadNeed::Source,
        _ => ReadNeed::Nothing,
    }
}

/// What was read of a file for its block.
pub enum FileBody {
    /// The lines read (at most `max_lines + 1` are needed), and the error
    /// that stopped the reading, if any.
    Lines(Vec<String>, Option<String>),
    /// The file could not be opened.
    OpenFailed(String),
    /// The outline of the file.
    Outline(OutlineResult),
    /// Nothing was read.
    Nothing,
}

/// The block of a file, by its disposition and what was read of it: its
/// lines (or the error) when it is included, its outline when it is
/// outlined, a placeholder otherwise. A body that does not fit the
/// disposition counts as nothing read: no lines, no symbols.
pub open spec fn file_block(rel: Seq<char>, d: Disposition, body: FileBody, max_lines: nat) -> Seq<
    Seq<char>,
> {
    match d {
        Disposition::Include => match body {
            FileBody::Lines(lines, err) => block(
                rel,
                text_body(views(lines@), opt_view(err), max_lines),
            ),
            FileBody::OpenFailed(msg) => block(rel, seq!["Error: "@ + msg@]),
            _ => block(rel, seq![]),
        },
        Disposition::OmitOutline => match body {
            FileBody::Outline(o) => block(rel, outline_body(o)),
            _ => block(rel, seq![]),
        },
        _ => block(rel, seq![placeholder(d)]),
    }
}

/// The block of one file of the content pass (see `file_block`).
pub fn render_file_block(rel: &str, d: Disposition, body: &FileBody, max_lines: usize) -> (r: Vec<
    String,
>)
    ensures
        views(r@) == file_block(rel@, d, *body, max_lines as nat),
{
    match d {
        Disposition::Include => match body {
            FileBody::Lines(lines, err) => render_text_block(rel, lines, err, max_lines),
            FileBody::OpenFailed(msg) => render_open_error_block(rel, msg.as_str()),
            _ => render_text_block(rel, &Vec::new(), &None, max_lines),
        },
        Disposition::OmitOutline => match body {
            FileBody::Outline(o) => render_outline_block(rel, o),
            _ => render_outline_block(rel, &OutlineResult::Symbols(Vec::new())),
        },
        _ => render_placeholder_block(rel, d),
    }
}

} // verus!

verus! {

/// Skip wins over outline in the output: a file that matches both a skip
/// and an outline pattern shows the skip placeholder, whatever was read of
/// it, and nothing of it is read.
pub proof fn lemma_skipped_file_shows_placeholder(
    cfg: &ScanConfig,
    rel: Seq<char>,
    sample: Seq<u8>,
    size: Option<u64>,
    body: FileBody,
    max_lines: nat,
)
    requires
        cfg.skip.matches(rel),
        cfg.outline.matches(rel),
    ensures
        file_block(rel, disposition(cfg, rel, sample, size), body, max_lines) == block(
            rel,
            seq!["(略)"@],
        ),
        need_of(disposition(cfg, rel, sample, size)) == ReadNeed::Nothing,
{
    lemma_skip_beats_outline(cfg, rel, sample, size);
}

/// Truncation: a file with more than `max_lines` lines shows exactly its
/// first `max_lines` lines and then the marker, never more of its lines.
pub proof fn lemma_truncation(lines: Seq<Seq<char>>, error: Option<Seq<char>>, max_lines: nat)
    requires
        lines.len() > max_lines,
    ensures
        text_body(lines, error, max_lines).len() == max_lines + 2,
        text_body(lines, error, max_lines).subrange(0, max_lines as int) == lines.subrange(
            0,
            max_lines as int,
        ),
        text_body(lines, error, max_lines)[max_lines as int] == "..."@,
        text_body(lines, error, max_lines)[max_lines as int + 1] == "(省略)"@,
{
    let t = text_body(lines, error, max_lines);
    assert(t.subrange(0, max_lines as int) =~= lines.subrange(0, max_lines as int));
}

} // verus!
