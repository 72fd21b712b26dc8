use saba::order::{sort_order, sort_rows, text_less};

fn row(v: &[&str]) -> Vec<String> {
    v.iter().map(|s| s.to_string()).collect()
}

#[test]
fn texts_compare_as_str_does() {
    assert!(text_less("a", "b"));
    assert!(text_less("ab", "abc"));
    assert!(!text_less("abc", "ab"));
    assert!(!text_less("x", "x"));
    assert!(text_less("", "a"));
    assert!(text_less("10", "9"));
    assert!(text_less("Z", "a"));
    assert!(text_less("é", "日"));
    assert_eq!(text_less("日本", "日付"), "日本" < "日付");
}

#[test]
fn order_of_keys_is_stable() {
    let keys = row(&["b", "a", "b", "c", "a"]);
    assert_eq!(sort_order(&keys, true), vec![1, 4, 0, 2, 3]);
    assert_eq!(sort_order(&keys, false), vec![3, 0, 2, 1, 4]);
    assert_eq!(sort_order(&row(&[]), true), Vec::<usize>::new());
}

#[test]
fn rows_sorted_by_a_column() {
    let records = vec![row(&["3", "c"]), row(&["1", "a"]), row(&["2", "b"]), row(&["1", "z"])];
    let up = sort_rows(&records, 0, true);
    assert_eq!(up, vec![row(&["1", "a"]), row(&["1", "z"]), row(&["2", "b"]), row(&["3", "c"])]);
    let down = sort_rows(&records, 1, false);
    assert_eq!(down, vec![row(&["1", "z"]), row(&["3", "c"]), row(&["2", "b"]), row(&["1", "a"])]);
    let one = vec![row(&["x"])];
    assert_eq!(sort_rows(&one, 5, true), one);
}
