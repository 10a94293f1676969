use all_smi::tabs::{calculate_tab_visibility, visible_tab_labels, TabState};

fn create_test_state() -> TabState {
    TabState {
        tabs: vec![
            "All".to_string(),
            "host1".to_string(),
            "host2".to_string(),
            "host3".to_string(),
        ],
        current_tab: 0,
        tab_scroll_offset: 0,
    }
}

#[test]
fn test_tab_visibility_calculation() {
    let state = create_test_state();
    let visibility = calculate_tab_visibility(&state, 80);

    assert_eq!(visibility.first_visible, 0);
    assert!(!visibility.has_more_left);
    assert!(!visibility.has_more_right || state.tabs.len() > 4);
}

#[test]
fn test_tab_visibility_with_scroll() {
    let mut state = create_test_state();
    state.tab_scroll_offset = 1;
    let visibility = calculate_tab_visibility(&state, 80);

    assert_eq!(visibility.first_visible, 1);
    assert!(visibility.has_more_left);
}

#[test]
fn test_tab_visibility_narrow_terminal() {
    // 80 columns: 72 left, "All" takes 5, each host tab 7: all three fit.
    let state = create_test_state();
    let v = calculate_tab_visibility(&state, 80);
    assert_eq!(v.last_visible, 3);
    assert!(!v.has_more_right);
    // 22 columns: 14 left, 9 after "All": one host tab fits.
    let v = calculate_tab_visibility(&state, 22);
    assert_eq!(v.last_visible, 1);
    assert!(v.has_more_right);
    // Too narrow for any host tab.
    let v = calculate_tab_visibility(&state, 10);
    assert_eq!(v.last_visible, 1);
    assert_eq!(v.first_visible, 0);
}

#[test]
fn test_visible_tab_labels() {
    let mut state = create_test_state();
    state.current_tab = 2;
    let labels = visible_tab_labels(&state, 22);
    assert_eq!(labels.len(), 2);
    assert_eq!(labels[0].text, " All ");
    assert!(!labels[0].selected);
    assert_eq!(labels[1].text, " host1 ");
    assert!(!labels[1].selected);
    let labels = visible_tab_labels(&state, 80);
    assert_eq!(labels.len(), 4);
    assert_eq!(labels[2].text, " host2 ");
    assert!(labels[2].selected);
    // Scrolled by one: host2 and host3 follow "All".
    state.tab_scroll_offset = 1;
    let labels = visible_tab_labels(&state, 80);
    assert_eq!(labels.len(), 3);
    assert_eq!(labels[1].text, " host2 ");
    // Nothing fits in 8 columns.
    assert_eq!(visible_tab_labels(&state, 8).len(), 0);
}
