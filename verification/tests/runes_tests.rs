use krugg_lcu::runes::RunePageInfo;
use krugg_lcu::runes::pick_rune_page;
use krugg_lcu::runes::starts_with_str;

fn page(id: i64, name: &str, current: bool, is_deletable: bool) -> RunePageInfo {
    RunePageInfo {
        id,
        name: String::from(name),
        current,
        is_deletable,
    }
}

#[test]
fn picks_current_deletable_page_without_prefix() {
    let pages = vec![
        page(1, "Preset: Domination", true, false),
        page(2, "Old build", false, true),
        page(3, "My page", true, true),
    ];
    assert_eq!(pick_rune_page(&pages, None), Some(2));
}

#[test]
fn picks_first_prefixed_deletable_page() {
    let prefix = String::from("krugg:");
    let pages = vec![
        page(1, "krugg: Ahri", true, false),
        page(2, "other", false, true),
        page(3, "krugg: Annie", false, true),
        page(4, "krugg: Akali", false, true),
    ];
    assert_eq!(pick_rune_page(&pages, Some(&prefix)), Some(2));
    assert_eq!(pages[2].id, 3);
}

#[test]
fn yields_nothing_when_no_page_qualifies() {
    let prefix = String::from("krugg:");
    let pages = vec![
        page(1, "Preset: Domination", true, false),
        page(2, "other", false, true),
    ];
    assert_eq!(pick_rune_page(&pages, Some(&prefix)), None);
    assert_eq!(pick_rune_page(&Vec::new(), None), None);
}

#[test]
fn prefix_check_is_exact() {
    assert!(starts_with_str("krugg: Annie", "krugg:"));
    assert!(starts_with_str("abc", ""));
    assert!(starts_with_str("abc", "abc"));
    assert!(!starts_with_str("abc", "abcd"));
    assert!(!starts_with_str("abc", "b"));
}
