use white_hole::{Browser, BrowserState, FocusTarget, IncognitoChange, OpenPlan, Tab};

fn browser_with(labels: &[&str]) -> Browser {
    let mut b = Browser::new(0);
    for l in labels {
        assert!(b.add_tab(Tab::with_label(l.to_string(), "https://example.com/", false)));
    }
    b
}

#[test]
fn scenario_open_existing_url_switches() {
    let mut b = browser_with(&["a", "c"]);
    b.push_history_state("a", 7, 1);
    b.push_history_state("a", 8, 2);
    assert_eq!(b.active_tab(), Some("c".to_string()));
    b.focus();
    match b.open_tab_by_url(Some(7)) {
        OpenPlan::Switch { label, index, delta } => {
            assert_eq!(label, "a");
            assert_eq!(index, 0);
            assert_eq!(delta, Some(-1));
        }
        OpenPlan::Create => panic!("expected a switch"),
    }
    assert_eq!(b.active_tab(), Some("a".to_string()));
    assert!(!b.is_focused());
    assert!(b.go_tab("a", 0, true));
    assert!(!b.tabs().get("a").unwrap().can_back());
}

#[test]
fn scenario_open_existing_url_in_incognito_creates() {
    let mut b = browser_with(&["a"]);
    b.push_history_state("a", 7, 1);
    assert!(matches!(b.incognito(), IncognitoChange::Entered));
    assert!(matches!(b.open_tab_by_url(Some(7)), OpenPlan::Create));
    assert_eq!(b.active_tab(), None);
    assert!(matches!(b.open_tab_by_url(None), OpenPlan::Create));
    let t = Tab::new("https://example.com/", b.is_incognito());
    let label = t.label().to_string();
    assert!(b.add_tab(t));
    assert_eq!(b.active_tab(), Some(label));
}

#[test]
fn scenario_incognito_twice_restores() {
    let mut b = browser_with(&["a", "b"]);
    b.switch_tab("a");
    assert!(matches!(b.incognito(), IncognitoChange::Entered));
    assert!(b.is_incognito());
    assert!(b.add_tab(Tab::with_label("p".to_string(), "https://x.org/", true)));
    assert!(!b.add_tab(Tab::with_label("q".to_string(), "https://x.org/", false)));
    match b.incognito() {
        IncognitoChange::Left { closed } => assert_eq!(closed, vec!["p".to_string()]),
        IncognitoChange::Entered => panic!("expected to leave"),
    }
    assert!(!b.is_incognito());
    assert_eq!(b.active_tab(), Some("a".to_string()));
    assert!(b.tabs().contains("a"));
    assert!(b.tabs().contains("b"));
    assert!(!b.tabs().contains("p"));
}

#[test]
fn close_tab_selects_previous_neighbour() {
    let mut b = browser_with(&["b", "d", "f"]);
    b.switch_tab("d");
    let c = b.close_tab().unwrap();
    assert_eq!(c.closed, "d");
    assert_eq!(c.switched_to, Some("b".to_string()));
    assert_eq!(b.active_tab(), Some("b".to_string()));
    let c = b.close_tab().unwrap();
    assert_eq!(c.switched_to, Some("f".to_string()));
    let c = b.close_tab().unwrap();
    assert_eq!(c.switched_to, None);
    assert_eq!(b.active_tab(), None);
}

#[test]
fn close_tab_is_ignored_while_chrome_focused() {
    let mut b = browser_with(&["a"]);
    assert!(b.focus());
    assert!(!b.focus());
    assert!(b.close_tab().is_none());
    assert!(b.tabs().contains("a"));
    assert!(b.next_tab().is_none());
}

#[test]
fn next_and_near_tab_cycle() {
    let mut b = browser_with(&["b", "d", "f"]);
    b.switch_tab("d");
    assert_eq!(b.next_tab(), Some("b".to_string()));
    assert_eq!(b.near_tab(), Some("d".to_string()));
    assert_eq!(b.near_tab(), Some("f".to_string()));
    assert_eq!(b.active_tab(), Some("f".to_string()));
}

#[test]
fn navigation_commands_target_active_tab() {
    let mut b = browser_with(&["a"]);
    b.push_history_state("a", 1, 1);
    b.push_history_state("a", 2, 2);
    assert_eq!(b.back_command(), Some("a".to_string()));
    assert_eq!(b.forward_command(), None);
    assert!(b.back(true));
    assert_eq!(b.forward_command(), Some("a".to_string()));
    assert_eq!(b.go_command(1), Some(("a".to_string(), 1)));
    assert!(b.go(1, true));
    assert_eq!(b.go_command(1), None);
    assert!(!b.forward(true));
    assert_eq!(b.reload(), Some("a".to_string()));
    b.focus();
    assert_eq!(b.reload(), None);
    assert_eq!(b.back_command(), None);
    assert!(!b.back(true));
}

#[test]
fn tab_events_report_whether_tab_is_current() {
    let mut b = browser_with(&["a", "b"]);
    assert!(b.change_tab_title("b", "B".to_string()));
    assert!(!b.change_tab_title("a", "A".to_string()));
    assert!(!b.change_tab_icon("a", "i".to_string()));
    assert!(b.change_tab_loading_state("b", false));
    assert!(b.hash_changed("b", 4, 1));
    assert!(b.replace_history_state("b", 5, 0));
    let t = b.tabs().get("b").unwrap();
    assert_eq!(t.title(), "B");
    assert!(!t.loading());
    assert_eq!(t.history().entries(), vec![5]);
    assert!(b.is_current_tab("b"));
    assert!(!b.is_current_tab("a"));
}

#[test]
fn focus_changed_is_debounced() {
    let mut b = browser_with(&["a"]);
    assert!(b.focus_changed(10).is_none());
    match b.focus_changed(50) {
        Some(FocusTarget::Tab(l)) => assert_eq!(l, "a"),
        _ => panic!("expected the active tab"),
    }
    assert!(b.focus_changed(99).is_none());
    b.focus();
    assert!(matches!(b.focus_changed(100), Some(FocusTarget::MainView)));
}

#[test]
fn layout_follows_fullscreen() {
    let mut b = Browser::new(0);
    assert_eq!(b.resize(1024, 768), None);
    assert!(b.add_tab(Tab::with_label("a".to_string(), "u", false)));
    assert_eq!(b.resize(1024, 768), Some((1024, 728)));
    assert_eq!(b.resize(700, 768), None);
    assert_eq!(b.fullscreen(), Some(true));
    assert_eq!(b.fullscreen_changed(true), 0);
    assert_eq!(b.resize(1024, 768), Some((1024, 768)));
    assert_eq!(b.fullscreen_changed(false), 40);
    b.focus();
    assert_eq!(b.fullscreen(), None);
}

#[test]
fn state_snapshot_combines_tab_and_window() {
    let mut b = browser_with(&["a"]);
    b.change_tab_title("a", "Page".to_string());
    b.maximize();
    let s = b.get_state(None, "https://example.com/");
    assert_eq!(s.title, "Page");
    assert_eq!(s.url, "https://example.com/");
    assert!(s.maximized);
    assert!(!s.focus);
    b.unmaximize();
    b.focus();
    let s = b.get_state(Some("zz"), "https://example.com/");
    assert_eq!(s.title, "白洞");
    assert_eq!(s.url, "White Hole");
    assert!(!s.maximized);
    assert!(s.focus);
    let d = BrowserState::default();
    assert_eq!(d.icon_url, "");
    assert!(!d.can_back);
}

#[test]
fn leaving_picture_in_picture_activates_tab() {
    let mut b = browser_with(&["a", "b"]);
    b.focus();
    assert!(b.leave_picture_in_picture("a"));
    assert!(!b.is_focused());
    assert_eq!(b.active_tab(), Some("a".to_string()));
    assert!(!b.leave_picture_in_picture("zz"));
    assert_eq!(b.active_tab(), Some("a".to_string()));
}

#[test]
fn add_tab_refuses_empty_label() {
    let mut b = Browser::new(0);
    assert!(!b.add_tab(Tab::with_label(String::new(), "u", false)));
    assert_eq!(b.active_tab(), None);
}

#[test]
fn main_view_and_icon_data() {
    assert!(white_hole::is_main_view("main-view"));
    assert!(!white_hole::is_main_view("0190a2b4-0000-7000-8000-000000000000"));
    let mut s = BrowserState::default();
    s = s.with_icon_data(Some("data:image/png;base64,AA".to_string()));
    assert_eq!(s.icon_url, "");
    s.icon_url = "https://example.com/favicon.ico".to_string();
    let kept = s.duplicate().with_icon_data(None);
    assert_eq!(kept.icon_url, "https://example.com/favicon.ico");
    let inlined = s.with_icon_data(Some("data:image/png;base64,AA".to_string()));
    assert_eq!(inlined.icon_url, "data:image/png;base64,AA");
    assert_eq!(inlined.title, "白洞");
}

#[test]
fn add_tab_refuses_open_label() {
    let mut b = browser_with(&["a"]);
    b.change_tab_title("a", "kept".to_string());
    assert!(!b.add_tab(Tab::with_label("a".to_string(), "https://other.org/", false)));
    assert_eq!(b.tabs().get("a").unwrap().title(), "kept");
}

#[test]
fn open_moves_to_first_occurrence() {
    let mut b = browser_with(&["a"]);
    b.push_history_state("a", 7, 1);
    b.push_history_state("a", 8, 2);
    b.push_history_state("a", 7, 3);
    match b.open_tab_by_url(Some(7)) {
        OpenPlan::Switch { index, delta, .. } => {
            assert_eq!(index, 0);
            assert_eq!(delta, Some(-2));
        }
        OpenPlan::Create => panic!("expected a switch"),
    }
}
