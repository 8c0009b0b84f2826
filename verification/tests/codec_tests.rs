use ide_shell::AppState;
use ide_shell::PanelState;
use ide_shell::TabState;
use ide_shell::WindowBounds;

fn small_state() -> AppState {
    AppState {
        window_bounds: WindowBounds { x: -7, y: 0, width: 640, height: 480, is_maximized: true },
        panel_state: PanelState {
            left_panel_width: 151,
            bottom_panel_height: 499,
            selected_left_tab: 2,
            selected_main_tab: 1,
            selected_bottom_tab: 0,
        },
        open_tabs: vec![TabState {
            name: b"a.rs".to_vec(),
            file_path: None,
            is_dirty: true,
        }],
        version: b"0.1.0".to_vec(),
    }
}

#[test]
fn encoding_has_the_exact_expected_bytes() {
    let bytes = small_state().to_json_bytes();
    let expected = r#"{
  "window_bounds": {
    "x": -7,
    "y": 0,
    "width": 640,
    "height": 480,
    "is_maximized": true
  },
  "panel_state": {
    "left_panel_width": 151,
    "bottom_panel_height": 499,
    "selected_left_tab": 2,
    "selected_main_tab": 1,
    "selected_bottom_tab": 0
  },
  "open_tabs": [
    {
      "name": "a.rs",
      "file_path": null,
      "is_dirty": true
    }
  ],
  "version": "0.1.0"
}"#;
    assert_eq!(String::from_utf8(bytes).unwrap(), expected);
}

#[test]
fn round_trip_of_default_state() {
    let st = AppState::default();
    let bytes = st.to_json_bytes();
    let parsed = AppState::from_json_bytes(&bytes);
    assert_eq!(parsed, Some(st));
}

#[test]
fn round_trip_of_small_state() {
    let st = small_state();
    let bytes = st.to_json_bytes();
    assert_eq!(AppState::from_json_bytes(&bytes), Some(st));
}

#[test]
fn round_trip_with_escaped_and_odd_strings() {
    let mut st = AppState::default();
    st.open_tabs = vec![
        TabState {
            name: b"we \"quote\" it".to_vec(),
            file_path: Some(b"C:\\dev\\tmp\\x.rs".to_vec()),
            is_dirty: false,
        },
        TabState { name: Vec::new(), file_path: Some(Vec::new()), is_dirty: true },
        TabState { name: b"\\\"\\".to_vec(), file_path: None, is_dirty: false },
    ];
    st.version = b"2.0.0-rc.1".to_vec();
    let bytes = st.to_json_bytes();
    assert_eq!(AppState::from_json_bytes(&bytes), Some(st));
}

#[test]
fn round_trip_with_empty_tab_list() {
    let mut st = AppState::default();
    st.open_tabs = Vec::new();
    let bytes = st.to_json_bytes();
    assert_eq!(AppState::from_json_bytes(&bytes), Some(st));
}

#[test]
fn round_trip_with_extreme_numbers() {
    let mut st = AppState::default();
    st.window_bounds = WindowBounds {
        x: i32::MIN,
        y: i32::MAX,
        width: 0,
        height: -1,
        is_maximized: false,
    };
    st.panel_state.selected_left_tab = usize::MAX;
    st.panel_state.selected_main_tab = 0;
    st.panel_state.left_panel_width = i32::MAX;
    st.panel_state.bottom_panel_height = i32::MIN;
    let bytes = st.to_json_bytes();
    assert_eq!(AppState::from_json_bytes(&bytes), Some(st));
}

#[test]
fn parse_rejects_corrupted_input() {
    assert_eq!(AppState::from_json_bytes(b""), None);
    assert_eq!(AppState::from_json_bytes(b"not json at all"), None);
    assert_eq!(AppState::from_json_bytes(b"{}"), None);
    let mut bytes = AppState::default().to_json_bytes();
    bytes[0] = b'x';
    assert_eq!(AppState::from_json_bytes(&bytes), None);
}

#[test]
fn parse_rejects_truncated_input() {
    let bytes = AppState::default().to_json_bytes();
    let truncated = &bytes[..bytes.len() - 1];
    assert_eq!(AppState::from_json_bytes(truncated), None);
}

#[test]
fn parse_rejects_trailing_garbage() {
    let mut bytes = AppState::default().to_json_bytes();
    bytes.push(b' ');
    assert_eq!(AppState::from_json_bytes(&bytes), None);
}

#[test]
fn parse_rejects_out_of_range_numbers() {
    let good = small_state().to_json_bytes();
    let text = String::from_utf8(good).unwrap();
    assert!(text.contains("\"x\": -7"));
    let bad = text.replace("\"x\": -7", "\"x\": 99999999999");
    assert_eq!(AppState::from_json_bytes(bad.as_bytes()), None);
}

#[test]
fn load_with_missing_file_yields_default() {
    let st = AppState::load_from_contents(None);
    assert_eq!(st, AppState::default());
}

#[test]
fn load_with_corrupted_file_yields_default() {
    let st = AppState::load_from_contents(Some(b"{\"window_bounds\":oops"));
    assert_eq!(st, AppState::default());
    let st2 = AppState::load_from_contents(Some(b""));
    assert_eq!(st2, AppState::default());
}

#[test]
fn save_then_load_restores_the_saved_state() {
    let st = small_state();
    let saved = st.to_json_bytes();
    let loaded = AppState::load_from_contents(Some(&saved));
    assert_eq!(loaded, st);
}

#[test]
fn encoding_is_json_that_serde_reads_back() {
    let st = small_state();
    let bytes = st.to_json_bytes();
    let value: serde_json::Value = serde_json::from_slice(&bytes).unwrap();
    assert_eq!(value["window_bounds"]["x"].as_i64(), Some(-7));
    assert_eq!(value["window_bounds"]["is_maximized"].as_bool(), Some(true));
    assert_eq!(value["panel_state"]["left_panel_width"].as_i64(), Some(151));
    assert_eq!(value["open_tabs"][0]["name"].as_str(), Some("a.rs"));
    assert!(value["open_tabs"][0]["file_path"].is_null());
    assert_eq!(value["version"].as_str(), Some("0.1.0"));
}

#[test]
fn escaped_strings_are_json_that_serde_reads_back() {
    let mut st = AppState::default();
    st.open_tabs = vec![TabState {
        name: b"we \"quote\" \\ it".to_vec(),
        file_path: None,
        is_dirty: false,
    }];
    let bytes = st.to_json_bytes();
    let value: serde_json::Value = serde_json::from_slice(&bytes).unwrap();
    assert_eq!(value["open_tabs"][0]["name"].as_str(), Some("we \"quote\" \\ it"));
}
