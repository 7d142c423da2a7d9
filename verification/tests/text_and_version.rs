use palawija::sorting::{is_before, sort, sort_versions, text_less, SortOrder};
use palawija::text::{
    chars_of, contains_char, contains_numeric, copy_range, find, matches_at, position_of,
    same_chars, split, starts_with, string_of, to_strings, to_texts,
};
use palawija::version::{
    key_less, key_of, looks_like_version, read_component, read_number, VersionId,
};

fn chars(s: &str) -> Vec<char> {
    s.chars().collect()
}

fn texts(items: &[&str]) -> Vec<Vec<char>> {
    items.iter().map(|s| chars(s)).collect()
}

#[test]
fn chars_and_strings_round_trip() {
    assert_eq!(chars_of("php-8.3"), vec!['p', 'h', 'p', '-', '8', '.', '3']);
    assert_eq!(chars_of(""), Vec::<char>::new());
    assert_eq!(string_of(&['8', '.', '3']), "8.3".to_string());
    assert_eq!(string_of(&chars_of("größe ٣")), "größe ٣".to_string());
    let strings = vec!["8.3.0".to_string(), "".to_string(), "x".to_string()];
    assert_eq!(to_strings(&to_texts(&strings)), strings);
}

#[test]
fn find_gives_the_first_occurrence() {
    let hay = chars("a php-1 php-2");
    let needle = chars("php-");
    assert_eq!(find(&hay, &needle, 0), Some(2));
    assert_eq!(find(&hay, &needle, 2), Some(2));
    assert_eq!(find(&hay, &needle, 3), Some(8));
    assert_eq!(find(&hay, &needle, 9), None);
    assert_eq!(find(&hay, &needle, 100), None);
    assert_eq!(find(&chars("ph"), &needle, 0), None);
    assert_eq!(find(&hay, &[], 5), Some(5));
    assert_eq!(find(&hay, &[], 13), Some(13));
    assert_eq!(find(&hay, &[], 14), None);
}

#[test]
fn matches_at_checks_one_place() {
    let hay = chars("xphp-");
    let needle = chars("php-");
    assert!(matches_at(&hay, &needle, 1));
    assert!(!matches_at(&hay, &needle, 0));
    assert!(!matches_at(&hay, &needle, 2));
    assert!(!matches_at(&hay, &needle, usize::MAX));
}

#[test]
fn position_and_membership() {
    assert_eq!(position_of(&chars("8.3.0"), '.'), 1);
    assert_eq!(position_of(&chars("830"), '.'), 3);
    assert_eq!(position_of(&[], '.'), 0);
    assert!(contains_char(&chars("8.3"), '.'));
    assert!(!contains_char(&chars("83"), '.'));
}

#[test]
fn prefixes_and_equality() {
    assert!(starts_with(&chars("php-8.3.0"), &chars("php-")));
    assert!(starts_with(&chars("php-"), &chars("php-")));
    assert!(!starts_with(&chars("php"), &chars("php-")));
    assert!(!starts_with(&chars("xphp-8"), &chars("php-")));
    assert!(starts_with(&chars("abc"), &[]));
    assert!(same_chars(&chars("8.3"), &chars("8.3")));
    assert!(!same_chars(&chars("8.3"), &chars("8.30")));
    assert!(!same_chars(&chars("8.3"), &chars("8.2")));
}

#[test]
fn copy_range_takes_a_slice() {
    assert_eq!(copy_range(&chars("php-8.3.0"), 4, 9), chars("8.3.0"));
    assert_eq!(copy_range(&chars("php-8.3.0"), 4, 4), chars(""));
}

#[test]
fn split_cuts_at_every_separator() {
    assert_eq!(split(&chars("8.10.0"), '.'), texts(&["8", "10", "0"]));
    assert_eq!(split(&chars(""), '.'), texts(&[""]));
    assert_eq!(split(&chars("8."), '.'), texts(&["8", ""]));
    assert_eq!(split(&chars(".."), '.'), texts(&["", "", ""]));
    assert_eq!(split(&chars("a\nb\n"), '\n'), texts(&["a", "b", ""]));
}

#[test]
fn numeric_characters_are_found() {
    assert!(contains_numeric(&chars("v8")));
    assert!(contains_numeric(&chars("x٣")));
    assert!(contains_numeric(&chars("¾")));
    assert!(!contains_numeric(&chars("abc.def")));
    assert!(!contains_numeric(&[]));
}

#[test]
fn loose_version_check() {
    assert!(looks_like_version(&chars("8.3.0")));
    assert!(looks_like_version(&chars(".1")));
    assert!(looks_like_version(&chars("a.٣")));
    assert!(!looks_like_version(&chars("830")));
    assert!(!looks_like_version(&chars("a.b")));
    assert!(!looks_like_version(&chars("")));
}

#[test]
fn numbers_are_read_in_decimal() {
    assert_eq!(read_number(&chars("0")), Some(0));
    assert_eq!(read_number(&chars("007")), Some(7));
    assert_eq!(read_number(&chars("4294967295")), Some(4294967295));
    assert_eq!(read_number(&chars("4294967296")), None);
    assert_eq!(read_number(&chars("99999999999999999999")), None);
    assert_eq!(read_number(&chars("")), None);
    assert_eq!(read_number(&chars("1a")), None);
    assert_eq!(read_number(&chars("+1")), None);
    assert_eq!(read_number(&chars("٣")), None);
}

#[test]
fn components_may_carry_a_plus_sign() {
    assert_eq!(read_component(&chars("+15")), Some(15));
    assert_eq!(read_component(&chars("15")), Some(15));
    assert_eq!(read_component(&chars("+")), None);
    assert_eq!(read_component(&chars("++1")), None);
    assert_eq!(read_component(&chars("-1")), None);
    assert_eq!(read_component(&chars(" 1")), None);
    assert_eq!(read_component(&chars("0RC1")), None);
}

#[test]
fn keys_keep_the_numbers_and_skip_the_rest() {
    assert_eq!(key_of(&chars("8.10.0")), vec![8, 10, 0]);
    assert_eq!(key_of(&chars("8.1.0RC1")), vec![8, 1]);
    assert_eq!(key_of(&chars("+5.x.007")), vec![5, 7]);
    assert_eq!(key_of(&chars("4294967295.4294967296")), vec![4294967295]);
    assert_eq!(key_of(&chars("")), Vec::<u32>::new());
    assert_eq!(key_of(&chars("..")), Vec::<u32>::new());
}

#[test]
fn keys_are_ordered_number_by_number() {
    assert!(key_less(&[8, 9, 0], &[8, 10, 0]));
    assert!(!key_less(&[8, 10, 0], &[8, 9, 0]));
    assert!(key_less(&[8, 1], &[8, 1, 0]));
    assert!(!key_less(&[8, 1, 0], &[8, 1]));
    assert!(!key_less(&[8, 1, 0], &[8, 1, 0]));
    assert!(key_less(&[], &[0]));
    assert!(!key_less(&[], &[]));
    assert!(key_less(&[7, 99, 99], &[8]));
}

#[test]
fn version_ids_have_three_numbers() {
    assert_eq!(VersionId::parse("8.3.0"), Some(VersionId { major: 8, minor: 3, patch: 0 }));
    assert_eq!(VersionId::parse("08.03.00"), Some(VersionId { major: 8, minor: 3, patch: 0 }));
    assert_eq!(
        VersionId::parse("4294967295.0.1"),
        Some(VersionId { major: 4294967295, minor: 0, patch: 1 })
    );
    assert_eq!(VersionId::parse("8.3"), None);
    assert_eq!(VersionId::parse("8.3.0.1"), None);
    assert_eq!(VersionId::parse("8.3.x"), None);
    assert_eq!(VersionId::parse("+8.3.0"), None);
    assert_eq!(VersionId::parse("8..0"), None);
    assert_eq!(VersionId::parse("4294967296.0.0"), None);
    assert_eq!(VersionId::parse(""), None);
}

#[test]
fn release_order_is_numeric() {
    let a = VersionId::parse("8.9.0").unwrap();
    let b = VersionId::parse("8.10.0").unwrap();
    assert!(a.is_older_than(&b));
    assert!(!b.is_older_than(&a));
    assert!(!a.is_older_than(&a));
    assert_eq!(
        a.is_older_than(&b),
        key_less(&key_of(&chars("8.9.0")), &key_of(&chars("8.10.0")))
    );
    let c = VersionId { major: 8, minor: 9, patch: 1 };
    assert!(a.is_older_than(&c));
    let d = VersionId { major: 9, minor: 0, patch: 0 };
    assert!(b.is_older_than(&d));
}

#[test]
fn dictionary_order_of_texts() {
    assert!(text_less(&chars("8.10.0"), &chars("8.9.0")));
    assert!(!text_less(&chars("8.9.0"), &chars("8.10.0")));
    assert!(text_less(&chars("8.1"), &chars("8.1.0")));
    assert!(!text_less(&chars("8.1"), &chars("8.1")));
    assert!(text_less(&chars(""), &chars("a")));
    assert!(text_less(&chars("z"), &chars("é")));
}

#[test]
fn the_two_orders_disagree_on_ten_and_nine() {
    let ten = chars("8.10.0");
    let nine = chars("8.9.0");
    assert!(is_before(SortOrder::NewestFirst, &ten, &nine));
    assert!(!is_before(SortOrder::NewestFirst, &nine, &ten));
    assert!(is_before(SortOrder::Lexicographic, &ten, &nine));
    assert!(!is_before(SortOrder::NewestFirst, &ten, &ten));
}

#[test]
fn sort_newest_first() {
    let sorted = sort(texts(&["8.3.0", "8.10.0", "7.4.33", "8.9.0"]), SortOrder::NewestFirst);
    assert_eq!(sorted, texts(&["8.10.0", "8.9.0", "8.3.0", "7.4.33"]));
}

#[test]
fn sort_in_dictionary_order() {
    let sorted = sort(texts(&["8.9.0", "8.10.0", "7.4", ""]), SortOrder::Lexicographic);
    assert_eq!(sorted, texts(&["", "7.4", "8.10.0", "8.9.0"]));
}

#[test]
fn sort_keeps_equal_ranks_in_their_order() {
    let sorted = sort(texts(&["8.1.x", "8.1.y", "8.1.x", "9.0"]), SortOrder::NewestFirst);
    assert_eq!(sorted, texts(&["9.0", "8.1.x", "8.1.y", "8.1.x"]));
    assert_eq!(sort(Vec::new(), SortOrder::NewestFirst), Vec::<Vec<char>>::new());
}

#[test]
fn sorting_a_sorted_list_changes_nothing() {
    let once = sort(texts(&["1.0", "3.0", "2.0", "2.0.1"]), SortOrder::NewestFirst);
    let twice = sort(once.clone(), SortOrder::NewestFirst);
    assert_eq!(once, twice);
}

#[test]
fn a_dictionary_list_can_be_sorted_again_by_number() {
    let installed: Vec<String> =
        ["7.4.33", "8.10.0", "8.3.0", "8.9.1"].iter().map(|s| s.to_string()).collect();
    assert_eq!(sort_versions(&installed, SortOrder::Lexicographic), installed);
    let newest: Vec<String> =
        ["8.10.0", "8.9.1", "8.3.0", "7.4.33"].iter().map(|s| s.to_string()).collect();
    assert_eq!(sort_versions(&installed, SortOrder::NewestFirst), newest);
}
