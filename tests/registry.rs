use white_hole::{label_less, Tab, TabMap};

fn map_of(labels: &[&str]) -> TabMap {
    let mut m = TabMap::new();
    for l in labels {
        m.insert(Tab::with_label(l.to_string(), "https://example.com/", false));
    }
    m
}

#[test]
fn scenario_neighbours() {
    let m = map_of(&["b", "d", "f"]);
    assert_eq!(m.next("d"), Some("b".to_string()));
    assert_eq!(m.next("b"), Some("f".to_string()));
    assert_eq!(m.near("b"), Some("d".to_string()));
    // Nothing follows `f`, so the choice falls back to the greatest label before it.
    assert_eq!(m.near("f"), Some("d".to_string()));
}

#[test]
fn neighbours_of_sole_or_missing_tab() {
    let m = map_of(&["b"]);
    assert_eq!(m.next("b"), None);
    assert_eq!(m.near("b"), None);
    let empty = TabMap::new();
    assert_eq!(empty.next("x"), None);
    assert_eq!(empty.near("x"), None);
    let m = map_of(&["b", "d"]);
    assert_eq!(m.next("c"), Some("b".to_string()));
    assert_eq!(m.next("a"), Some("d".to_string()));
}

#[test]
fn label_order_is_byte_order() {
    assert!(label_less("a", "b"));
    assert!(label_less("a", "ab"));
    assert!(!label_less("b", "ab"));
    assert!(!label_less("a", "a"));
    assert!(label_less("Z", "a"));
}

#[test]
fn any_open_respects_incognito_kind() {
    let mut m = TabMap::new();
    let mut t = Tab::with_label("n".to_string(), "u", false);
    t.insert_history(3, 1);
    t.insert_history(7, 2);
    m.insert(t);
    assert_eq!(m.any_open(7, false), Some(("n".to_string(), 1)));
    assert_eq!(m.any_open(7, true), None);
    assert_eq!(m.any_open(8, false), None);
}

#[test]
fn close_incognito_keeps_normal_tabs() {
    let mut m = TabMap::new();
    m.insert(Tab::with_label("a".to_string(), "u", false));
    m.insert(Tab::with_label("b".to_string(), "u", true));
    m.insert(Tab::with_label("c".to_string(), "u", true));
    let mut closed = m.close_incognito();
    closed.sort();
    assert_eq!(closed, vec!["b".to_string(), "c".to_string()]);
    assert!(m.contains("a"));
    assert!(!m.contains("b"));
    assert!(!m.contains("c"));
}

#[test]
fn updates_reach_the_named_tab() {
    let mut m = map_of(&["a", "b"]);
    m.set_title("a", "Title".to_string());
    m.set_icon("a", "https://example.com/i.png".to_string());
    m.set_loading("a", false);
    m.insert_history("a", 5, 1);
    m.insert_history("a", 6, 2);
    assert!(m.back("a", true));
    assert!(!m.back("a", true));
    assert!(m.forward("a", true));
    assert!(m.go("a", 0, true));
    m.replace_history("a", 9, 0);
    let a = m.get("a").unwrap();
    assert_eq!(a.title(), "Title");
    assert_eq!(a.icon_url(), "https://example.com/i.png");
    assert!(!a.loading());
    assert_eq!(a.history().entries(), vec![9, 6]);
    let b = m.get("b").unwrap();
    assert_eq!(b.title(), "https://example.com/");
    assert!(b.loading());
    assert!(!m.close("x"));
    assert!(m.close("b"));
    assert!(m.get("b").is_none());
}

#[test]
fn state_maps_blank_page_to_empty_address() {
    let mut m = map_of(&["a"]);
    m.insert_history("a", 1, 1);
    m.insert_history("a", 2, 2);
    let s = m.get_state("a", "about:blank").unwrap();
    assert_eq!(s.url, "");
    assert!(s.can_back);
    assert!(!s.can_forward);
    assert!(s.loading);
    let s = m.get_state("a", "https://x.org/").unwrap();
    assert_eq!(s.url, "https://x.org/");
    assert!(m.get_state("z", "https://x.org/").is_none());
}

#[test]
fn new_tab_has_uuid_label() {
    let t = Tab::new("https://example.com/", true);
    assert_eq!(t.label().len(), 36);
    assert_eq!(t.label().as_bytes()[8], b'-');
    assert_eq!(t.title(), "https://example.com/");
    assert!(t.incognito());
    assert!(t.loading());
    assert_eq!(t.icon_url(), "");
}

#[test]
fn dark_mode_changes_only_after_script_ran() {
    let mut t = Tab::with_label("a".to_string(), "u", false);
    assert!(!t.dark_mode());
    assert!(!t.set_dark_mode(true, false));
    assert!(!t.dark_mode());
    assert!(t.set_dark_mode(true, true));
    assert!(t.dark_mode());
    assert_eq!(Tab::dark_mode_script(false), "DarkReader.auto(false)");
    assert!(Tab::dark_mode_script(true).starts_with("DarkReader.auto({"));
}

#[test]
fn any_open_reports_first_position() {
    let mut m = TabMap::new();
    let mut t = Tab::with_label("n".to_string(), "u", false);
    t.insert_history(3, 1);
    t.insert_history(4, 2);
    t.insert_history(3, 3);
    assert_eq!(t.index(3), Some(0));
    m.insert(t);
    assert_eq!(m.any_open(3, false), Some(("n".to_string(), 0)));
}
