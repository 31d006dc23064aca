use lr::display::{is_visible, normalize, starts_with_dot};
use lr::identity::name_or_id;
use lr::number::{decimal_text, signed_decimal_text};

#[test]
fn child_of_a_directory_is_shown_by_its_bare_name() {
    assert_eq!(normalize("tests/inputs/dir1"), "dir1");
    assert_eq!(normalize("tests/inputs/file1.txt"), "file1.txt");
    assert_eq!(normalize("tests/inputs/.hidden_file.txt"), ".hidden_file.txt");
}

#[test]
fn leading_dot_slash_is_stripped() {
    assert_eq!(normalize("./Cargo.toml"), "Cargo.toml");
    assert_eq!(normalize("./.git"), ".git");
    assert_eq!(normalize("../sibling"), "sibling");
}

#[test]
fn bare_name_is_shown_as_it_is() {
    assert_eq!(normalize("file.txt"), "file.txt");
    assert_eq!(normalize(".profile"), ".profile");
}

#[test]
fn absolute_path_is_shown_by_its_last_component() {
    assert_eq!(normalize("/etc/passwd"), "passwd");
    assert_eq!(normalize("/bin"), "bin");
}

#[test]
fn repeated_and_trailing_separators_do_not_show() {
    assert_eq!(normalize("a//b"), "b");
    assert_eq!(normalize("a/b/"), "b");
    assert_eq!(normalize("a/b///"), "b");
}

#[test]
fn path_without_a_component_is_shown_whole() {
    assert_eq!(normalize(""), "");
    assert_eq!(normalize("/"), "/");
    assert_eq!(normalize("//"), "//");
}

#[test]
fn names_in_other_scripts_are_cut_at_characters() {
    assert_eq!(normalize("d\u{e9}p\u{f4}t/\u{4e2d}\u{6587}.txt"), "\u{4e2d}\u{6587}.txt");
    assert_eq!(normalize("\u{1f600}/\u{1f600}"), "\u{1f600}");
}

#[test]
fn name_in_a_hidden_directory_is_not_hidden_by_it() {
    let name = normalize(".config/settings.toml");
    assert_eq!(name, "settings.toml");
    assert!(is_visible(&name, false));
    let hidden = normalize(".config/.secret");
    assert_eq!(hidden, ".secret");
    assert!(!is_visible(&hidden, false));
    assert!(is_visible(&hidden, true));
}

#[test]
fn hidden_name_begins_with_a_dot() {
    assert!(starts_with_dot(".hidden_file.txt"));
    assert!(starts_with_dot("."));
    assert!(starts_with_dot(".."));
    assert!(!starts_with_dot("file1.txt"));
    assert!(!starts_with_dot("a.b"));
    assert!(!starts_with_dot(""));
}

#[test]
fn hidden_name_is_visible_only_when_all_are_shown() {
    assert!(!is_visible(".hidden_file.txt", false));
    assert!(is_visible(".hidden_file.txt", true));
    assert!(is_visible("file1.txt", false));
    assert!(is_visible("file1.txt", true));
    assert!(is_visible("", false));
}

#[test]
fn decimal_of_small_and_large_numbers() {
    assert_eq!(decimal_text(0), "0");
    assert_eq!(decimal_text(7), "7");
    assert_eq!(decimal_text(10), "10");
    assert_eq!(decimal_text(4096), "4096");
    assert_eq!(decimal_text(1_000_000), "1000000");
    assert_eq!(decimal_text(u64::MAX), "18446744073709551615");
}

#[test]
fn decimal_agrees_with_the_standard_notation() {
    for n in (0..100_000u64).step_by(37) {
        assert_eq!(decimal_text(n), format!("{}", n));
    }
}

#[test]
fn signed_decimal_carries_its_sign() {
    assert_eq!(signed_decimal_text(0), "0");
    assert_eq!(signed_decimal_text(42), "42");
    assert_eq!(signed_decimal_text(-1), "-1");
    assert_eq!(signed_decimal_text(-4096), "-4096");
    assert_eq!(signed_decimal_text(i64::MAX), "9223372036854775807");
    assert_eq!(signed_decimal_text(i64::MIN), "-9223372036854775808");
}

#[test]
fn found_name_is_shown() {
    assert_eq!(name_or_id(1000, Some("renato".to_string())), "renato");
    assert_eq!(name_or_id(0, Some("root".to_string())), "root");
}

#[test]
fn unmapped_identifier_is_shown_as_a_number() {
    assert_eq!(name_or_id(1000, None), "1000");
    assert_eq!(name_or_id(0, None), "0");
    assert_eq!(name_or_id(u32::MAX, None), "4294967295");
}
