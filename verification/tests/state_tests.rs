use ide_shell::AppState;
use ide_shell::PanelState;
use ide_shell::TabState;
use ide_shell::WindowBounds;

#[test]
fn default_window_bounds_values() {
    let wb = WindowBounds::default();
    assert_eq!(wb.x, 100);
    assert_eq!(wb.y, 100);
    assert_eq!(wb.width, 1200);
    assert_eq!(wb.height, 800);
    assert!(!wb.is_maximized);
}

#[test]
fn default_panel_state_values() {
    let ps = PanelState::default();
    assert_eq!(ps.left_panel_width, 300);
    assert_eq!(ps.bottom_panel_height, 200);
    assert_eq!(ps.selected_left_tab, 0);
    assert_eq!(ps.selected_main_tab, 0);
    assert_eq!(ps.selected_bottom_tab, 0);
}

#[test]
fn default_app_state_tabs() {
    let st = AppState::default();
    assert_eq!(st.open_tabs.len(), 3);
    assert_eq!(st.open_tabs[0].name, b"main.rs".to_vec());
    assert_eq!(st.open_tabs[0].file_path, Some(b"src/main.rs".to_vec()));
    assert!(!st.open_tabs[0].is_dirty);
    assert_eq!(st.open_tabs[1].name, b"Cargo.toml".to_vec());
    assert_eq!(st.open_tabs[1].file_path, Some(b"Cargo.toml".to_vec()));
    assert_eq!(st.open_tabs[2].name, b"README.md".to_vec());
    assert_eq!(st.open_tabs[2].file_path, Some(b"README.md".to_vec()));
    assert_eq!(st.version, b"0.1.0".to_vec());
}

#[test]
fn update_window_bounds_replaces_geometry() {
    let mut st = AppState::default();
    st.update_window_bounds(-5, 40, 640, 480, true);
    assert_eq!(st.window_bounds.x, -5);
    assert_eq!(st.window_bounds.y, 40);
    assert_eq!(st.window_bounds.width, 640);
    assert_eq!(st.window_bounds.height, 480);
    assert!(st.window_bounds.is_maximized);
    assert_eq!(st.panel_state, PanelState::default());
    assert_eq!(st.open_tabs.len(), 3);
}

#[test]
fn update_panel_state_replaces_layout() {
    let mut st = AppState::default();
    st.update_panel_state(450, 120, 1, 2, 0);
    assert_eq!(st.panel_state.left_panel_width, 450);
    assert_eq!(st.panel_state.bottom_panel_height, 120);
    assert_eq!(st.panel_state.selected_left_tab, 1);
    assert_eq!(st.panel_state.selected_main_tab, 2);
    assert_eq!(st.panel_state.selected_bottom_tab, 0);
    assert_eq!(st.window_bounds, WindowBounds::default());
}

#[test]
fn tab_state_fields_carry_through() {
    let tab = TabState { name: b"notes.txt".to_vec(), file_path: None, is_dirty: true };
    assert_eq!(tab.name, b"notes.txt".to_vec());
    assert_eq!(tab.file_path, None);
    assert!(tab.is_dirty);
}
