use osrs_random::answers::{menu_choice, trimmed, wants_exclusions, MenuChoice};
use osrs_random::exclusions::{is_blank, parse_exclusions};
use osrs_random::listing::{wrap_names, LINE_WIDTH};
use osrs_random::release::{update_status, UpdateStatus};

#[test]
fn exclusion_tokens_parse_in_order() {
    assert_eq!(parse_exclusions("1 3 +2 -1 7 8", 7), vec![1, 3, 2, 7]);
    assert_eq!(parse_exclusions("  2\t\n4  ", 7), vec![2, 4]);
    assert_eq!(parse_exclusions("1\u{3000}2", 7), vec![1, 2]);
    assert_eq!(parse_exclusions("", 7), Vec::<usize>::new());
    assert_eq!(parse_exclusions("007 ++1 1+", 7), vec![7]);
    assert_eq!(parse_exclusions("99999999999999999999999999 5", 7), vec![5]);
    assert_eq!(parse_exclusions("1 2", 0), Vec::<usize>::new());
}

#[test]
fn blanks_are_unicode_white_space() {
    assert!(is_blank(' '));
    assert!(is_blank('\u{a0}'));
    assert!(is_blank('\u{2028}'));
    assert!(!is_blank('x'));
    assert!(!is_blank('\u{200b}'));
}

#[test]
fn menu_answers() {
    assert_eq!(menu_choice("1"), MenuChoice::Boss);
    assert_eq!(menu_choice(" 2\n"), MenuChoice::Skill);
    assert_eq!(menu_choice("3"), MenuChoice::ListBosses);
    assert_eq!(menu_choice("4"), MenuChoice::Version);
    assert_eq!(menu_choice("\t5 "), MenuChoice::Exit);
    assert_eq!(menu_choice("6"), MenuChoice::Invalid);
    assert_eq!(menu_choice("12"), MenuChoice::Invalid);
    assert_eq!(menu_choice(""), MenuChoice::Invalid);
    assert_eq!(menu_choice("1 2"), MenuChoice::Invalid);
}

#[test]
fn yes_answers() {
    assert!(wants_exclusions("yes"));
    assert!(wants_exclusions(" YeS\n"));
    assert!(!wants_exclusions("y"));
    assert!(!wants_exclusions("yess"));
    assert!(!wants_exclusions("no"));
    assert!(!wants_exclusions("y es"));
}

#[test]
fn trimming_keeps_inner_blanks() {
    assert_eq!(trimmed("  a b \n"), vec!['a', ' ', 'b']);
    assert_eq!(trimmed("   "), Vec::<char>::new());
}

#[test]
fn release_tags() {
    assert_eq!(update_status("v1.2.0", "1.2.0"), UpdateStatus::UpToDate);
    assert_eq!(update_status("1.2.0", "1.2.0"), UpdateStatus::UpToDate);
    assert_eq!(
        update_status("v1.3.0", "1.2.0"),
        UpdateStatus::UpdateAvailable("1.3.0".to_string())
    );
    assert_eq!(update_status("vv2", "1.0"), UpdateStatus::UpdateAvailable("2".to_string()));
    assert_eq!(update_status("20250304093829", "1.0.0"), UpdateStatus::UpToDate);
    assert_eq!(update_status("v20250304093829", "1.0.0"), UpdateStatus::UpToDate);
    assert_eq!(
        update_status("12345678", "1.0.0"),
        UpdateStatus::UpdateAvailable("12345678".to_string())
    );
}

#[test]
fn names_wrap_at_the_width() {
    let items: Vec<String> = vec!["Alpha", "Beta", "Gamma", "Delta", "Epsilon"]
        .into_iter()
        .map(String::from)
        .collect();
    assert_eq!(
        wrap_names(&items, 20),
        vec!["Alpha, Beta, Gamma", "Delta, Epsilon"]
    );
    assert_eq!(wrap_names(&items, 3), vec!["Alpha", "Beta", "Gamma", "Delta", "Epsilon"]);
    assert_eq!(wrap_names(&vec![], 20), Vec::<String>::new());
    let long = vec!["x".repeat(100)];
    assert_eq!(wrap_names(&long, LINE_WIDTH), long);
}
