use std::cmp::Ordering;

use gather_files::sort::{natural_compare, natural_order, path_string_for_sort, tokenize_for_natural_sort};
use gather_files::walk::{compare_dir_entry, WalkedEntry};

#[test]
fn numbers_compare_by_value() {
    assert_eq!(natural_compare("file2", "file10"), Ordering::Less);
    assert_eq!(natural_compare("file10", "file2"), Ordering::Greater);
    assert_eq!(natural_compare("doc2.md", "doc10.md"), Ordering::Less);
}

#[test]
fn shorter_token_list_first() {
    assert_eq!(natural_compare("a", "a1"), Ordering::Less);
    assert_eq!(natural_compare("a1", "a"), Ordering::Greater);
    assert_eq!(natural_compare("", "a"), Ordering::Less);
    assert_eq!(natural_compare("same", "same"), Ordering::Equal);
}

#[test]
fn digits_before_other_characters() {
    assert_eq!(natural_compare("1", "a"), Ordering::Less);
    assert_eq!(natural_compare("x/", "x1"), Ordering::Greater);
}

#[test]
fn leading_zeros_and_long_numbers() {
    assert_eq!(natural_compare("a01", "a1"), Ordering::Equal);
    assert_eq!(natural_compare("v007", "v10"), Ordering::Less);
    assert_eq!(
        natural_compare("n99999999999999999999999", "n100000000000000000000000"),
        Ordering::Less
    );
}

#[test]
fn directory_key_sorts_like_any_key() {
    assert_eq!(path_string_for_sort("dir", true), "dir/");
    assert_eq!(path_string_for_sort("dir/", true), "dir/");
    assert_eq!(path_string_for_sort("file", false), "file");
    assert_eq!(natural_compare("dir1/", "dir1/file1.md"), Ordering::Less);
    assert_eq!(natural_compare("dir1/file1.md", "dir2/"), Ordering::Less);
}

#[test]
fn tokenizer_splits_runs() {
    let toks = tokenize_for_natural_sort("doc10.md");
    let strs: Vec<String> = toks.iter().map(|t| t.iter().collect()).collect();
    assert_eq!(strs, vec!["doc", "10", ".md"]);
}

#[test]
fn order_is_stable_and_natural() {
    let keys: Vec<String> = ["file10", "file2", "a01", "a1", "b"].iter().map(|s| s.to_string()).collect();
    assert_eq!(natural_order(&keys), vec![2, 3, 4, 1, 0]);
    assert_eq!(natural_order(&Vec::new()), Vec::<usize>::new());
}

#[test]
fn entries_compare_by_key() {
    let d = WalkedEntry { rel: "dir1".to_string(), name: "dir1".to_string(), is_dir: true };
    let f = WalkedEntry { rel: "dir1.md".to_string(), name: "dir1.md".to_string(), is_dir: false };
    assert_eq!(compare_dir_entry(&d, &f), Ordering::Greater);
    assert_eq!(compare_dir_entry(&f, &d), Ordering::Less);
}
