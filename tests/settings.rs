use gather_files::config::parse_config_lines;
use gather_files::detector::{
    detection_reason, generate_exclude_patterns, DetectionReason, DetectionResult,
};
use gather_files::gather::{default_template, is_rust_source, output_file_name, platform_target, render_outline_md};
use gather_files::gitignore::{gitignore_patterns, normalize_pattern};
use gather_files::model::{
    merge_cli_into_config, merge_gitignore_patterns, run_mode, CLIOptions, ConfigParams, FormatArg,
    ModeArg, OutlineFormat, RunMode,
};
use gather_files::outline::Symbol;

fn lines(text: &str) -> Vec<String> {
    text.lines().map(|s| s.to_string()).collect()
}

fn strings(v: &[&str]) -> Vec<String> {
    v.iter().map(|s| s.to_string()).collect()
}

fn mode_command() -> clap::Command {
    clap::Command::new("gather")
        .arg(clap::Arg::new("mode").long("mode").default_value("gather"))
        .arg(clap::Arg::new("outline_format").long("outline-format"))
        .arg(clap::Arg::new("target_directory").required(true))
}

fn parse_mode(argv: &[&str]) -> (ModeArg, Option<FormatArg>) {
    let m = mode_command().try_get_matches_from(argv).unwrap();
    let mode = ModeArg::from_name(m.get_one::<String>("mode").unwrap()).unwrap();
    let fmt = m.get_one::<String>("outline_format").map(|s| FormatArg::from_name(s).unwrap());
    (mode, fmt)
}

#[test]
fn default_mode_is_gather() {
    let (mode, _) = parse_mode(&["gather", "."]);
    assert!(matches!(mode, ModeArg::Gather));
}

#[test]
fn outline_mode_parses_with_format() {
    let (mode, fmt) =
        parse_mode(&["gather", "--mode", "outline", "--outline-format", "json", "."]);
    assert!(matches!(mode, ModeArg::Outline));
    assert!(matches!(fmt, Some(FormatArg::Json)));
    assert_eq!(run_mode(mode, fmt), RunMode::Outline(OutlineFormat::Json));
    assert_eq!(run_mode(ModeArg::Outline, None), RunMode::Outline(OutlineFormat::Md));
    assert_eq!(run_mode(ModeArg::Gather, fmt), RunMode::Gather);
    assert_eq!(ModeArg::from_name("other"), None);
}

#[test]
fn test_normalize_pattern() {
    assert_eq!(normalize_pattern("/node_modules"), "node_modules");
    assert_eq!(normalize_pattern("*.log"), "*.log");
    assert_eq!(normalize_pattern("dist/"), "dist/");
    assert_eq!(normalize_pattern("**/*.tmp"), "**/*.tmp");
    assert_eq!(normalize_pattern("!temp"), "");
}

#[test]
fn test_parse_gitignore() {
    let text = "# Node.js\n/node_modules\n*.log\n\ndist/\n# 否定パターン\n!keep.log\n";
    let patterns = gitignore_patterns(&lines(text));
    let filtered: Vec<String> = patterns.into_iter().filter(|p| !p.is_empty()).collect();
    assert_eq!(filtered, strings(&["node_modules", "*.log", "dist/"]));
}

#[test]
fn outline_section_is_parsed() {
    let sample = "\n[settings]\nuse_gitignore = yes\n\n[outline]\n*.rs\n\n[exclude]\nnode_modules/\n";
    let cfg = parse_config_lines(&lines(sample));
    assert_eq!(cfg.outline_patterns, vec!["*.rs"]);
    assert_eq!(cfg.exclude_patterns, vec!["node_modules/"]);
    assert!(cfg.use_gitignore);
}

#[test]
fn settings_and_comments_are_read() {
    let sample = "[Settings]  # main\nmax_lines = 20\nmax_file_size=+300\nskip_binary=TRUE\nopen_output=no\nmax_files_per_dir=x\noutput_dir=\n[skip]\n*.pdf   # documents\n# only a comment\n[nothing]\nignored\n[SKIP]\n*.png\n";
    let cfg = parse_config_lines(&lines(sample));
    assert_eq!(cfg.max_lines, 20);
    assert_eq!(cfg.max_file_size, Some(300));
    assert!(cfg.skip_binary);
    assert!(!cfg.open_output);
    assert_eq!(cfg.max_files_per_dir, 100);
    assert_eq!(cfg.output_dir, None);
    assert_eq!(cfg.skip_content_patterns, vec!["*.pdf", "*.png"]);
    let bad = parse_config_lines(&lines("[settings]\nmax_file_size=big\nmax_lines=-3\n"));
    assert_eq!(bad.max_file_size, None);
    assert_eq!(bad.max_lines, 1000);
}

#[test]
fn defaults() {
    let cfg = ConfigParams::default();
    assert_eq!(cfg.max_lines, 1000);
    assert!(cfg.open_output);
    assert!(!cfg.skip_binary);
    assert_eq!(cfg.max_files_per_dir, 100);
    assert_eq!(cfg.max_auto_file_size, 1_000_000);
}

#[test]
fn cli_overrides_and_extends() {
    let opts = CLIOptions {
        mode: RunMode::Gather,
        target_dir: ".".to_string(),
        output_file: None,
        config_file: None,
        max_lines: Some(7),
        max_file_size: None,
        extra_exclude_patterns: strings(&["target/"]),
        extra_skip_patterns: vec![],
        include_patterns: strings(&["*.rs"]),
        use_timestamp: true,
        no_open: true,
        use_gitignore: false,
    };
    let mut cfg = ConfigParams::default();
    cfg.exclude_patterns = strings(&["gather/"]);
    cfg.max_file_size = Some(5);
    merge_cli_into_config(&opts, &mut cfg);
    assert_eq!(cfg.max_lines, 7);
    assert_eq!(cfg.max_file_size, Some(5));
    assert_eq!(cfg.exclude_patterns, strings(&["gather/", "target/"]));
    assert_eq!(cfg.include_patterns, strings(&["*.rs"]));
    assert!(cfg.use_timestamp);
    assert!(!cfg.open_output);
    assert!(!cfg.use_gitignore);
}

#[test]
fn gitignore_patterns_are_added_once() {
    let mut cfg = ConfigParams::default();
    cfg.exclude_patterns = strings(&["dist/"]);
    merge_gitignore_patterns(&mut cfg, &strings(&["dist/", "", "*.log", "*.log"]));
    assert_eq!(cfg.exclude_patterns, strings(&["dist/", "*.log"]));
}

#[test]
fn detects_known_large_directory() {
    assert_eq!(
        detection_reason("node_modules", 1, 0, 100, 1_000_000),
        Some(DetectionReason::KnownDirectory)
    );
    assert_eq!(detection_reason("assets", 101, 0, 100, 1_000_000), Some(DetectionReason::TooManyFiles));
    assert_eq!(detection_reason("assets", 3, 2_000_000, 100, 1_000_000), Some(DetectionReason::TooLarge));
    assert_eq!(detection_reason("src", 3, 10, 100, 1_000_000), None);
}

#[test]
fn generate_exclude_patterns_returns_dir_slash() {
    let reason = detection_reason("dist", 1, 2, 1, 1).unwrap();
    let results = vec![
        DetectionResult { path: "/tmp/proj/dist".to_string(), file_count: 1, total_size: 2, reason },
        DetectionResult {
            path: "/elsewhere/x".to_string(),
            file_count: 1,
            total_size: 2,
            reason: DetectionReason::TooLarge,
        },
    ];
    let patterns = generate_exclude_patterns(&results, "/tmp/proj");
    assert!(patterns.contains(&"dist/".to_string()), "exclude patterns should contain 'dist/'");
    assert_eq!(patterns, strings(&["dist/"]));
}

#[test]
fn output_names_and_targets() {
    assert_eq!(output_file_name(false, "20240101120000"), "output.txt");
    assert_eq!(output_file_name(true, "20240101120000"), "output_20240101120000.txt");
    assert_eq!(platform_target("linux", "x86_64"), "linux-musl-amd64");
    assert_eq!(platform_target("freebsd", "x86_64"), "freebsd-x86_64");
}

#[test]
fn rust_sources_are_recognised_by_extension() {
    assert!(is_rust_source("/p/src/lib.rs"));
    assert!(is_rust_source("main.rs"));
    assert!(!is_rust_source("/p/.rs"));
    assert!(!is_rust_source("/p.rs/readme"));
    assert!(!is_rust_source("notes.rst"));
}

#[test]
fn outline_markdown() {
    let syms = vec![Symbol { kind: "fn".to_string(), ident: "foo".to_string() }];
    assert_eq!(render_outline_md("src/lib.rs", &syms), strings(&["### src/lib.rs", "- **fn** foo", ""]));
}

#[test]
fn template_holds_proposed_patterns_under_exclude() {
    let t = default_template(&strings(&["node_modules/"]));
    let i = t.iter().position(|l| l == ".gather").unwrap();
    assert_eq!(t[i + 1], "node_modules/");
    assert_eq!(t[0], "[settings]");
    assert!(t.contains(&"[skip]".to_string()));
}
