use material_icon_browser::focus::MyState;

#[test]
fn a_new_tracker_knows_no_focus() {
    assert!(!MyState::new().focused());
    assert!(!MyState::default().focused());
}

#[test]
fn one_pass_reports_the_net_change_once() {
    // During the pass the field goes true, false, true; it is asked once, at
    // the end, and answers true.
    let mut state = MyState::new();
    let notifications: Vec<bool> = state.observe(true).into_iter().collect();
    assert_eq!(notifications, vec![true]);
    assert!(state.focused());
}

#[test]
fn a_pass_without_a_net_change_reports_nothing() {
    // The field goes true and false again within one pass.
    let mut state = MyState::new();
    assert_eq!(state.observe(false), None);
    assert!(!state.focused());
}

#[test]
fn each_change_is_reported_in_its_pass() {
    let mut state = MyState::new();
    assert_eq!(state.observe(true), Some(true));
    assert_eq!(state.observe(true), None);
    assert_eq!(state.observe(false), Some(false));
    assert_eq!(state.observe(false), None);
    assert_eq!(state.observe(true), Some(true));
    assert!(state.focused());
}
