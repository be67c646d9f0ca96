use gather_files::classify::{classify, classify_files, is_binary_sample, Disposition, FileFacts};
use gather_files::counter::ProcessCounter;
use gather_files::model::{scan_config, ConfigParams};
use gather_files::outline::{OutlineResult, Symbol};
use gather_files::pattern::build_globset;
use gather_files::render::{
    read_need, render_file_block, render_open_error_block, render_outline_block,
    render_placeholder_block, render_text_block, render_tree, render_tree_line, FileBody, ReadNeed,
};
use gather_files::walk::{collect_entries, sort_entries, WalkedEntry};

fn strings(v: &[&str]) -> Vec<String> {
    v.iter().map(|s| s.to_string()).collect()
}

fn entry(rel: &str, is_dir: bool) -> WalkedEntry {
    let name = rel.rsplit('/').next().unwrap_or("").to_string();
    WalkedEntry { rel: rel.to_string(), name, is_dir }
}

fn facts(rel: &str, sample: Vec<u8>, size: Option<u64>) -> FileFacts {
    FileFacts { rel: rel.to_string(), sample, size }
}

#[test]
fn all_zero_sample_is_binary() {
    assert!(is_binary_sample(&[0u8; 1024]));
}

#[test]
fn printable_sample_is_text() {
    let sample: Vec<u8> = (0..1024).map(|i| b' ' + (i % 90) as u8).collect();
    assert!(!is_binary_sample(&sample));
}

#[test]
fn binary_threshold_is_one_eighth() {
    assert!(!is_binary_sample(&[]));
    let mut s = vec![b'a'; 16];
    s[0] = 0;
    s[1] = 1;
    assert!(!is_binary_sample(&s));
    s[2] = 0x7f;
    assert!(is_binary_sample(&s));
    assert!(!is_binary_sample(b"\t\n\r plain"));
}

#[test]
fn only_first_kilobyte_is_sniffed() {
    let mut s = vec![b'a'; 1024];
    s.extend(vec![0u8; 4096]);
    assert!(!is_binary_sample(&s));
}

#[test]
fn skip_beats_outline() {
    let mut p = ConfigParams::default();
    p.skip_content_patterns = strings(&["*.txt"]);
    p.outline_patterns = strings(&["*.txt"]);
    let cfg = scan_config(&p);
    let d = classify(&cfg, &facts("main.txt", b"dummy".to_vec(), Some(5)));
    assert_eq!(d, Disposition::OmitPattern);
    let block = render_file_block("main.txt", d, &FileBody::Nothing, 1000);
    assert_eq!(block, strings(&["### main.txt", "```", "(略)", "```", ""]));
    assert_eq!(read_need(d), ReadNeed::Nothing);
}

#[test]
fn precedence_of_each_rule() {
    let mut p = ConfigParams::default();
    p.include_patterns = strings(&["src/"]);
    p.skip_content_patterns = strings(&["*.lock"]);
    p.outline_patterns = strings(&["*.rs"]);
    p.skip_binary = true;
    p.max_file_size = Some(10);
    let cfg = scan_config(&p);
    let files = vec![
        facts("README.md", b"hi".to_vec(), Some(2)),
        facts("src/Cargo.lock", b"x".to_vec(), Some(1)),
        facts("src/lib.rs", b"pub fn f() {}".to_vec(), Some(13)),
        facts("src/blob.bin", vec![0u8; 64], Some(64)),
        facts("src/big.txt", b"text".to_vec(), Some(11)),
        facts("src/small.txt", b"text".to_vec(), Some(10)),
        facts("src/unknown.txt", b"text".to_vec(), None),
    ];
    assert_eq!(
        classify_files(&cfg, &files),
        vec![
            Disposition::OmitPattern,
            Disposition::OmitPattern,
            Disposition::OmitOutline,
            Disposition::OmitBinary,
            Disposition::OmitTooLarge,
            Disposition::Include,
            Disposition::Include,
        ]
    );
}

#[test]
fn disposition_is_the_same_on_a_second_run_and_in_any_order() {
    let mut p = ConfigParams::default();
    p.skip_content_patterns = strings(&["*.log"]);
    let cfg = scan_config(&p);
    let a = vec![facts("a.log", b"x".to_vec(), None), facts("b.rs", b"y".to_vec(), None)];
    let b = vec![facts("b.rs", b"y".to_vec(), None), facts("a.log", b"x".to_vec(), None)];
    let ra = classify_files(&cfg, &a);
    let rb = classify_files(&cfg, &b);
    assert_eq!(ra[0], rb[1]);
    assert_eq!(ra[1], rb[0]);
    assert_eq!(ra, classify_files(&cfg, &a));
}

#[test]
fn exclude_dir_is_skipped() {
    let ex = build_globset(&strings(&["skip/"]));
    let walked = vec![
        entry("", true),
        entry("keep", true),
        entry("keep/file", false),
        entry("skip", true),
        entry("skip/file", false),
    ];
    let kept = collect_entries(walked, &ex, true);
    let paths: Vec<&str> = kept.iter().map(|e| e.rel.as_str()).collect();
    assert_eq!(paths, vec!["keep/file"]);
}

#[test]
fn exclude_file_is_skipped() {
    let ex = build_globset(&strings(&["Cargo.lock"]));
    let walked = vec![entry("", true), entry("Cargo.lock", false), entry("Cargo.toml", false)];
    let kept = collect_entries(walked, &ex, true);
    let paths: Vec<&str> = kept.iter().map(|e| e.rel.as_str()).collect();
    assert_eq!(paths, vec!["Cargo.toml"]);
}

#[test]
fn nothing_under_an_excluded_directory_survives() {
    let ex = build_globset(&strings(&["build/"]));
    let walked = vec![
        entry("", true),
        entry("a", true),
        entry("a/build", true),
        entry("a/build/deep", true),
        entry("a/build/deep/x.o", false),
        entry("a/rebuild", true),
        entry("a/rebuild/x", false),
    ];
    let kept = collect_entries(walked, &ex, false);
    let paths: Vec<&str> = kept.iter().map(|e| e.rel.as_str()).collect();
    assert_eq!(paths, vec!["", "a", "a/rebuild", "a/rebuild/x"]);
}

#[test]
fn entries_sort_naturally_with_directories_keyed_by_slash() {
    let walked = vec![
        entry("dir2", true),
        entry("dir1/file10.md", false),
        entry("dir1", true),
        entry("dir1/file2.md", false),
    ];
    let sorted = sort_entries(&walked);
    let paths: Vec<&str> = sorted.iter().map(|e| e.rel.as_str()).collect();
    assert_eq!(paths, vec!["dir1", "dir1/file2.md", "dir1/file10.md", "dir2"]);
}

#[test]
fn truncation_emits_exactly_max_lines_then_marker() {
    let lines: Vec<String> = (1..=10).map(|i| format!("line {i}")).collect();
    let block = render_text_block("f.txt", &lines, &None, 5);
    let mut expected = strings(&["### f.txt", "```"]);
    expected.extend(strings(&["line 1", "line 2", "line 3", "line 4", "line 5"]));
    expected.extend(strings(&["...", "(省略)", "```", ""]));
    assert_eq!(block, expected);
}

#[test]
fn file_within_cap_is_emitted_whole() {
    let lines = strings(&["a", "b"]);
    let block = render_text_block("f.txt", &lines, &None, 2);
    assert_eq!(block, strings(&["### f.txt", "```", "a", "b", "```", ""]));
}

#[test]
fn read_error_shows_inline() {
    let lines = strings(&["a"]);
    let block = render_text_block("f.txt", &lines, &Some("bad utf-8".to_string()), 5);
    assert_eq!(
        block,
        strings(&["### f.txt", "```", "a", "Error reading line: bad utf-8", "```", ""])
    );
    let open = render_open_error_block("g.txt", "denied");
    assert_eq!(open, strings(&["### g.txt", "```", "Error: denied", "```", ""]));
}

#[test]
fn outline_blocks() {
    let syms = vec![
        Symbol { kind: "struct".to_string(), ident: "Foo".to_string() },
        Symbol { kind: "fn".to_string(), ident: "baz".to_string() },
    ];
    let b = render_outline_block("src/lib.rs", &OutlineResult::Symbols(syms));
    assert_eq!(
        b,
        strings(&["### src/lib.rs", "```", "- **struct** Foo", "- **fn** baz", "```", ""])
    );
    let u = render_outline_block("a.py", &OutlineResult::Unsupported);
    assert_eq!(u, strings(&["### a.py", "```", "(outline not supported)", "```", ""]));
    let f = render_outline_block("b.rs", &OutlineResult::Failed("expected item".to_string()));
    assert_eq!(f, strings(&["### b.rs", "```", "(outline failed: expected item)", "```", ""]));
}

#[test]
fn placeholders() {
    assert_eq!(
        render_placeholder_block("x.bin", Disposition::OmitBinary),
        strings(&["### x.bin", "```", "(略) バイナリファイル", "```", ""])
    );
    assert_eq!(
        render_placeholder_block("big.txt", Disposition::OmitTooLarge),
        strings(&["### big.txt", "```", "(略)", "```", ""])
    );
}

#[test]
fn tree_lines_are_indented_and_annotated() {
    assert_eq!(render_tree_line(&entry("a/b/c.txt", false), None), "        c.txt");
    assert_eq!(render_tree_line(&entry("a", true), None), "a/");
    assert_eq!(
        render_tree_line(&entry("a/x.bin", false), Some(Disposition::OmitBinary)),
        "    x.bin   [omitted:binary]"
    );
    assert_eq!(render_tree_line(&entry("y.rs", false), Some(Disposition::Include)), "y.rs");
    let tree = render_tree(
        &vec![entry("a", true), entry("a/b.txt", false), entry("c.rs", false)],
        &strings(&["a/b.txt", "c.rs"]),
        &vec![Disposition::OmitTooLarge, Disposition::OmitOutline],
    );
    assert_eq!(
        tree,
        strings(&[
            "```",
            "a/",
            "    b.txt   [omitted:too-large]",
            "c.rs   [omitted:outline]",
            "```",
            ""
        ])
    );
}

#[test]
fn same_inputs_render_identically() {
    let entries = vec![entry("a", true), entry("a/b.txt", false)];
    let paths = strings(&["a/b.txt"]);
    let ds = vec![Disposition::OmitPattern];
    assert_eq!(render_tree(&entries, &paths, &ds), render_tree(&entries, &paths, &ds));
    let lines = strings(&["x", "y"]);
    assert_eq!(
        render_text_block("a/b.txt", &lines, &None, 1),
        render_text_block("a/b.txt", &lines, &None, 1)
    );
}

#[test]
fn counts_increment_and_summary_do_not_panic() {
    let mut c = ProcessCounter::new();
    c.set_total_files(4);
    c.increment_processed();
    c.increment_skipped_pattern();
    c.increment_skipped_binary();
    c.increment_skipped_size();
    assert_eq!(c.total_files(), 4);
    assert_eq!(c.processed_files(), 1);
    assert_eq!(c.skipped_by_pattern(), 1);
    assert_eq!(c.skipped_binary(), 1);
    assert_eq!(c.skipped_size(), 1);
    assert_eq!(c.total_skipped(), 3);
}

#[test]
fn record_counts_by_disposition() {
    let mut c = ProcessCounter::new();
    c.record(Disposition::Include);
    c.record(Disposition::OmitOutline);
    c.record(Disposition::OmitPattern);
    c.record(Disposition::OmitTooLarge);
    assert_eq!(c.processed_files(), 2);
    assert_eq!(c.skipped_by_pattern(), 1);
    assert_eq!(c.skipped_binary(), 0);
    assert_eq!(c.skipped_size(), 1);
}
