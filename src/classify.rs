use vstd::prelude::*;

use crate::pattern::PatternSet;

verus! {

/// What becomes of one file in the output: exactly one per file.
#[derive(Clone, Copy, Debug, PartialEq, Eq, Structural)]
pub enum Disposition {
    Include,
    OmitPattern,
    OmitOutline,
    OmitBinary,
    OmitTooLarge,
}

/// The number of leading bytes that the binary sniff looks at.
pub const SNIFF_LEN: usize = 1024;

/// Whether a byte counts against a text file: NUL, a control byte below
/// TAB other than line breaks, or DEL.
pub open spec fn is_non_text(b: u8) -> bool {
    b == 0 || (b < 9 && b != 10 && b != 13) || b == 127
}

/// The number of non-text bytes in `s`.
pub open spec fn count_non_text(s: Seq<u8>) -> nat
    decreases s.len(),
{
    if s.len() == 0 {
        0
    } else {
        count_non_text(s.drop_last()) + if is_non_text(s.last()) {
            1nat
        } else {
            0nat
        }
    }
}

/// The bytes that the sniff reads: at most the first `SNIFF_LEN`.
pub open spec fn sniffed(bytes: Seq<u8>) -> Seq<u8> {
    if bytes.len() <= SNIFF_LEN {
        bytes
    } else {
        bytes.subrange(0, SNIFF_LEN as int)
    }
}

/// A file is taken for binary when more than an eighth of the bytes read
/// are non-text; no bytes read means text.
pub open spec fn looks_binary(bytes: Seq<u8>) -> bool {
    count_non_text(sniffed(bytes)) * 8 > sniffed(bytes).len()
}

/// The binary sniff on the leading bytes of a file (only the first
/// `SNIFF_LEN` of `sample` are looked at).
pub fn is_binary_sample(sample: &[u8]) -> (r: bool)
    ensures
        r == looks_binary(sample@),
{
    let n: usize = if sample.len() <= SNIFF_LEN {
        sample.len()
    } else {
        SNIFF_LEN
    };
    let mut count: usize = 0;
    let mut i: usize = 0;
    while i < n
        invariant
            n <= sample@.len(),
            n <= SNIFF_LEN,
            n == sniffed(sample@).len(),
            i <= n,
            count == count_non_text(sample@.subrange(0, i as int)),
            count <= i,
        decreases n - i,
    {
        let b = sample[i];
        assert(sample@.subrange(0, i + 1).drop_last() =~= sample@.subrange(0, i as int));
        if b == 0 || (b < 9 && b != 10 && b != 13) || b == 127 {
            count = count + 1;
        }
        i = i + 1;
    }
    assert(sample@.subrange(0, n as int) =~= sniffed(sample@));
    count * 8 > n
}

/// The compiled rules of one scan.
pub struct ScanConfig {
    pub exclude: PatternSet,
    pub skip: PatternSet,
    pub includes: PatternSet,
    pub outline: PatternSet,
    pub max_lines: usize,
    pub max_file_size: Option<u64>,
    pub skip_binary: bool,
}

/// What the classifier knows of a file: its relative path, its leading
/// bytes (only looked at when binary files are skipped), and its size from
/// the file system's metadata (`None` where that could not be read).
pub struct FileFacts {
    pub rel: String,
    pub sample: Vec<u8>,
    pub size: Option<u64>,
}

/// The disposition of a file, by the fixed precedence, first match wins:
/// a list of wanted patterns that it misses, a skip pattern, an outline pattern, the
/// binary sniff, the size cap; else the file is included.
pub open spec fn disposition(
    cfg: &ScanConfig,
    rel: Seq<char>,
    sample: Seq<u8>,
    size: Option<u64>,
) -> Disposition {
    if cfg.includes.globs().len() > 0 && !cfg.includes.matches(rel) {
        Disposition::OmitPattern
    } else if cfg.skip.matches(rel) {
        Disposition::OmitPattern
    } else if cfg.outline.matches(rel) {
        Disposition::OmitOutline
    } else if cfg.skip_binary && looks_binary(sample) {
        Disposition::OmitBinary
    } else if cfg.max_file_size is Some && size is Some && size->0 > cfg.max_file_size->0 {
        Disposition::OmitTooLarge
    } else {
        Disposition::Include
    }
}

/// The disposition of the file that `f` describes.
pub open spec fn disposition_of(cfg: &ScanConfig, f: FileFacts) -> Disposition {
    disposition(cfg, f.rel@, f.sample@, f.size)
}

/// Resolves the disposition of one file (see `disposition`).
pub fn classify(cfg: &ScanConfig, f: &FileFacts) -> (r: Disposition)
    ensures
        r == disposition_of(cfg, *f),
{
    let rel = f.rel.as_str();
    if !cfg.includes.is_empty() && !cfg.includes.is_match(rel) {
        Disposition::OmitPattern
    } else if cfg.skip.is_match(rel) {
        Disposition::OmitPattern
    } else if cfg.outline.is_match(rel) {
        Disposition::OmitOutline
    } else if cfg.skip_binary && is_binary_sample(f.sample.as_slice()) {
        Disposition::OmitBinary
    } else {
        match (cfg.max_file_size, f.size) {
            (Some(max), Some(size)) => {
                if size > max {
                    Disposition::OmitTooLarge
                } else {
                    Disposition::Include
                }
            },
            _ => Disposition::Include,
        }
    }
}

/// The dispositions of a list of files, one per file, in the same order.
pub fn classify_files(cfg: &ScanConfig, files: &Vec<FileFacts>) -> (r: Vec<Disposition>)
    ensures
        r@.len() == files@.len(),
        forall|i: int| 0 <= i < files@.len() ==> r@[i] == disposition_of(cfg, #[trigger] files@[i]),
{
    let mut r: Vec<Disposition> = Vec::new();
    let mut i: usize = 0;
    while i < files.len()
        invariant
            i <= files@.len(),
            r@.len() == i,
            forall|k: int| 0 <= k < i ==> r@[k] == disposition_of(cfg, #[trigger] files@[k]),
        decreases files.len() - i,
    {
        let d = classify(cfg, &files[i]);
        r.push(d);
        i = i + 1;
    }
    r
}

/// The disposition of a file depends on its path, its bytes and the
/// configuration alone: two files alike in these get the same disposition,
/// wherever each stands in the list that it was classified in.
pub proof fn lemma_disposition_is_pure(
    cfg: &ScanConfig,
    a: Seq<FileFacts>,
    b: Seq<FileFacts>,
    i: int,
    j: int,
    ra: Seq<Disposition>,
    rb: Seq<Disposition>,
)
    requires
        0 <= i < a.len(),
        0 <= j < b.len(),
        a[i].rel@ == b[j].rel@,
        a[i].sample@ == b[j].sample@,
        a[i].size == b[j].size,
        ra.len() == a.len(),
        rb.len() == b.len(),
        forall|k: int| 0 <= k < a.len() ==> ra[k] == disposition_of(cfg, #[trigger] a[k]),
        forall|k: int| 0 <= k < b.len() ==> rb[k] == disposition_of(cfg, #[trigger] b[k]),
    ensures
        ra[i] == rb[j],
{
    assert(ra[i] == disposition_of(cfg, a[i]));
    assert(rb[j] == disposition_of(cfg, b[j]));
}

/// A skip pattern wins over an outline pattern: a file that matches both
/// is omitted by pattern, never outlined nor included.
pub proof fn lemma_skip_beats_outline(
    cfg: &ScanConfig,
    rel: Seq<char>,
    sample: Seq<u8>,
    size: Option<u64>,
)
    requires
        cfg.skip.matches(rel),
        cfg.outline.matches(rel),
    ensures
        disposition(cfg, rel, sample, size) == Disposition::OmitPattern,
{
}

} // verus!

verus! {

proof fn lemma_count_bounds(s: Seq<u8>)
    ensures
        (forall|i: int| 0 <= i < s.len() ==> is_non_text(#[trigger] s[i])) ==> count_non_text(s)
            == s.len(),
        (forall|i: int| 0 <= i < s.len() ==> !is_non_text(#[trigger] s[i])) ==> count_non_text(s)
            == 0,
    decreases s.len(),
{
    if s.len() > 0 {
        let t = s.drop_last();
        lemma_count_bounds(t);
        if forall|i: int| 0 <= i < s.len() ==> is_non_text(#[trigger] s[i]) {
            assert forall|i: int| 0 <= i < t.len() implies is_non_text(#[trigger] t[i]) by {
                assert(t[i] == s[i]);
            }
        }
        if forall|i: int| 0 <= i < s.len() ==> !is_non_text(#[trigger] s[i]) {
            assert forall|i: int| 0 <= i < t.len() implies !is_non_text(#[trigger] t[i]) by {
                assert(t[i] == s[i]);
            }
        }
    }
}

/// The sniff at its extremes: leading bytes that are all non-text (all NUL,
/// say) make a binary file; leading bytes with no non-text byte (printable
/// ASCII, say) make a text file.
pub proof fn lemma_sniff_extremes(bytes: Seq<u8>)
    ensures
        bytes.len() > 0 && (forall|i: int| 0 <= i < bytes.len() ==> is_non_text(#[trigger] bytes[i]))
            ==> looks_binary(bytes),
        (forall|i: int| 0 <= i < bytes.len() ==> !is_non_text(#[trigger] bytes[i])) ==> !looks_binary(
            bytes,
        ),
{
    let s = sniffed(bytes);
    assert forall|i: int| 0 <= i < s.len() implies s[i] == bytes[i] by {}
    lemma_count_bounds(s);
}

} // verus!
