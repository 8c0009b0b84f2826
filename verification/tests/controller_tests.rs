use ide_shell::IDEApplication;

#[test]
fn new_controller_has_default_layout() {
    let app = IDEApplication::new();
    assert_eq!(app.selected_left_tab, 0);
    assert_eq!(app.selected_main_tab, 0);
    assert_eq!(app.selected_bottom_tab, 0);
    assert_eq!(app.left_panel_width, 300);
    assert_eq!(app.bottom_panel_height, 200);
    assert!(!app.is_dragging_left_divider);
    assert!(!app.is_dragging_bottom_divider);
    assert_eq!(app.drag_start_x, None);
    assert_eq!(app.drag_start_y, None);
}

#[test]
fn left_drag_clamps_at_max() {
    let mut app = IDEApplication::new();
    assert_eq!(app.left_panel_width, 300);
    app.start_left_divider_drag(0);
    app.update_left_panel_width(1000);
    assert_eq!(app.left_panel_width, 800);
}

#[test]
fn left_drag_clamps_at_min() {
    let mut app = IDEApplication::new();
    assert_eq!(app.left_panel_width, 300);
    app.start_left_divider_drag(0);
    app.update_left_panel_width(-1000);
    assert_eq!(app.left_panel_width, 150);
}

#[test]
fn left_drag_moves_by_delta_within_bounds() {
    let mut app = IDEApplication::new();
    app.start_left_divider_drag(400);
    app.update_left_panel_width(450);
    assert_eq!(app.left_panel_width, 350);
    app.update_left_panel_width(430);
    assert_eq!(app.left_panel_width, 330);
}

#[test]
fn left_width_stays_in_range_for_many_deltas() {
    let deltas: [i32; 9] = [0, 1, -1, 500, -500, 100000, -100000, i32::MAX / 2, i32::MIN / 2];
    for &d in deltas.iter() {
        let mut app = IDEApplication::new();
        app.start_left_divider_drag(0);
        app.update_left_panel_width(d);
        assert!(150 <= app.left_panel_width && app.left_panel_width <= 800);
    }
}

#[test]
fn bottom_height_stays_in_range_for_many_deltas() {
    let deltas: [i32; 9] = [0, 1, -1, 300, -300, 100000, -100000, i32::MAX / 2, i32::MIN / 2];
    for &d in deltas.iter() {
        let mut app = IDEApplication::new();
        app.start_bottom_divider_drag(0);
        app.update_bottom_panel_height(d);
        assert!(80 <= app.bottom_panel_height && app.bottom_panel_height <= 500);
    }
}

#[test]
fn bottom_drag_upward_grows_panel() {
    let mut app = IDEApplication::new();
    assert_eq!(app.bottom_panel_height, 200);
    app.start_bottom_divider_drag(600);
    app.update_bottom_panel_height(550);
    assert_eq!(app.bottom_panel_height, 250);
}

#[test]
fn bottom_drag_clamps_at_both_ends() {
    let mut app = IDEApplication::new();
    app.start_bottom_divider_drag(0);
    app.update_bottom_panel_height(-2000);
    assert_eq!(app.bottom_panel_height, 500);
    app.update_bottom_panel_height(2000);
    assert_eq!(app.bottom_panel_height, 80);
}

#[test]
fn update_without_drag_changes_nothing() {
    let mut app = IDEApplication::new();
    app.update_left_panel_width(700);
    app.update_bottom_panel_height(700);
    assert_eq!(app.left_panel_width, 300);
    assert_eq!(app.bottom_panel_height, 200);
    assert_eq!(app.drag_start_x, None);
    assert_eq!(app.drag_start_y, None);
}

#[test]
fn stop_dragging_clears_all_drag_state() {
    let mut app = IDEApplication::new();
    app.start_left_divider_drag(10);
    app.start_bottom_divider_drag(20);
    app.stop_dragging();
    assert!(!app.is_dragging_left_divider);
    assert!(!app.is_dragging_bottom_divider);
    assert_eq!(app.drag_start_x, None);
    assert_eq!(app.drag_start_y, None);
    assert_eq!(app.left_panel_width, 300);
    assert_eq!(app.bottom_panel_height, 200);
}

#[test]
fn stop_dragging_is_safe_when_idle() {
    let mut app = IDEApplication::new();
    app.stop_dragging();
    assert!(!app.is_dragging_left_divider);
    assert!(!app.is_dragging_bottom_divider);
    assert_eq!(app.drag_start_x, None);
    assert_eq!(app.drag_start_y, None);
}

#[test]
fn restarting_a_drag_overwrites_the_origin() {
    let mut app = IDEApplication::new();
    app.start_left_divider_drag(100);
    app.start_left_divider_drag(250);
    assert!(app.is_dragging_left_divider);
    assert_eq!(app.drag_start_x, Some(250));
    app.update_left_panel_width(300);
    assert_eq!(app.left_panel_width, 350);
}
