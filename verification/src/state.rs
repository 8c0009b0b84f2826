//! The persisted application state: window geometry, panel layout, and the
//! list of open editor tabs, together with the defaults that are used when no
//! saved state is available.

use vstd::prelude::*;

verus! {

/// Smallest width, in pixels, that the left sidebar panel may take.
pub const LEFT_PANEL_MIN_WIDTH: i32 = 150;

/// Largest width, in pixels, that the left sidebar panel may take.
pub const LEFT_PANEL_MAX_WIDTH: i32 = 800;

/// Smallest height, in pixels, that the bottom panel may take.
pub const BOTTOM_PANEL_MIN_HEIGHT: i32 = 80;

/// Largest height, in pixels, that the bottom panel may take.
pub const BOTTOM_PANEL_MAX_HEIGHT: i32 = 500;

/// Position and size of the application window, in pixels.
#[derive(Clone, Copy, Debug, PartialEq, Eq, Structural)]
pub struct WindowBounds {
    pub x: i32,
    pub y: i32,
    pub width: i32,
    pub height: i32,
    pub is_maximized: bool,
}

/// Sizes of the resizable panels and the selected tab of each tab region.
#[derive(Clone, Copy, Debug, PartialEq, Eq, Structural)]
pub struct PanelState {
    pub left_panel_width: i32,
    pub bottom_panel_height: i32,
    pub selected_left_tab: usize,
    pub selected_main_tab: usize,
    pub selected_bottom_tab: usize,
}

/// One open editor tab. The name and path are byte strings, as they appear
/// in the persisted file.
#[derive(Clone, Debug, PartialEq, Eq)]
pub struct TabState {
    pub name: Vec<u8>,
    pub file_path: Option<Vec<u8>>,
    pub is_dirty: bool,
}

/// Mathematical model of a [`TabState`].
pub ghost struct TabStateV {
    pub name: Seq<u8>,
    pub file_path: Option<Seq<u8>>,
    pub is_dirty: bool,
}

impl View for TabState {
    type V = TabStateV;

    open spec fn view(&self) -> TabStateV {
        TabStateV {
            name: self.name@,
            file_path: match self.file_path {
                Some(p) => Some(p@),
                None => None,
            },
            is_dirty: self.is_dirty,
        }
    }
}

/// Everything that is persisted across runs: window geometry, panel layout,
/// the ordered list of open tabs, and a version string.
#[derive(Clone, Debug, PartialEq, Eq)]
pub struct AppState {
    pub window_bounds: WindowBounds,
    pub panel_state: PanelState,
    pub open_tabs: Vec<TabState>,
    pub version: Vec<u8>,
}

/// Mathematical model of an [`AppState`].
pub ghost struct AppStateV {
    pub window_bounds: WindowBounds,
    pub panel_state: PanelState,
    pub open_tabs: Seq<TabStateV>,
    pub version: Seq<u8>,
}

/// Model of a sequence of tabs.
pub open spec fn tabs_view(tabs: Seq<TabState>) -> Seq<TabStateV> {
    tabs.map_values(|t: TabState| t@)
}

impl View for AppState {
    type V = AppStateV;

    open spec fn view(&self) -> AppStateV {
        AppStateV {
            window_bounds: self.window_bounds,
            panel_state: self.panel_state,
            open_tabs: tabs_view(self.open_tabs@),
            version: self.version@,
        }
    }
}

impl PanelState {
    /// The panel-size invariant: both resizable dimensions lie within their
    /// clamp bounds.
    pub open spec fn wf(self) -> bool {
        &&& LEFT_PANEL_MIN_WIDTH <= self.left_panel_width <= LEFT_PANEL_MAX_WIDTH
        &&& BOTTOM_PANEL_MIN_HEIGHT <= self.bottom_panel_height <= BOTTOM_PANEL_MAX_HEIGHT
    }
}

/// The window geometry used when no saved state exists.
pub open spec fn default_window_bounds() -> WindowBounds {
    WindowBounds { x: 100, y: 100, width: 1200, height: 800, is_maximized: false }
}

/// The panel layout used when no saved state exists.
pub open spec fn default_panel_state() -> PanelState {
    PanelState {
        left_panel_width: 300,
        bottom_panel_height: 200,
        selected_left_tab: 0,
        selected_main_tab: 0,
        selected_bottom_tab: 0,
    }
}

/// The three tabs that are open by default.
pub open spec fn default_tabs() -> Seq<TabStateV> {
    seq![
        TabStateV { name: name_main_rs(), file_path: Some(path_src_main_rs()), is_dirty: false },
        TabStateV { name: name_cargo_toml(), file_path: Some(name_cargo_toml()), is_dirty: false },
        TabStateV { name: name_readme_md(), file_path: Some(name_readme_md()), is_dirty: false },
    ]
}

/// The complete state used when no saved state exists or it fails to parse.
pub open spec fn default_app_state() -> AppStateV {
    AppStateV {
        window_bounds: default_window_bounds(),
        panel_state: default_panel_state(),
        open_tabs: default_tabs(),
        version: version_0_1_0(),
    }
}

impl Default for WindowBounds {
    fn default() -> (r: Self)
        ensures
            r == default_window_bounds(),
    {
        WindowBounds { x: 100, y: 100, width: 1200, height: 800, is_maximized: false }
    }
}

impl Default for PanelState {
    fn default() -> (r: Self)
        ensures
            r == default_panel_state(),
            r.wf(),
    {
        PanelState {
            left_panel_width: 300,
            bottom_panel_height: 200,
            selected_left_tab: 0,
            selected_main_tab: 0,
            selected_bottom_tab: 0,
        }
    }
}

impl Default for AppState {
    fn default() -> (r: Self)
        ensures
            r@ == default_app_state(),
    {
        let tabs: Vec<TabState> = default_tabs_v();
        AppState {
            window_bounds: WindowBounds::default(),
            panel_state: PanelState::default(),
            open_tabs: tabs,
            version: version_0_1_0_v(),
        }
    }
}

/// Builds the default open-tab list.
pub fn default_tabs_v() -> (r: Vec<TabState>)
    ensures
        tabs_view(r@) == default_tabs(),
{
    let mut tabs: Vec<TabState> = Vec::new();
    tabs.push(TabState {
        name: name_main_rs_v(),
        file_path: Some(path_src_main_rs_v()),
        is_dirty: false,
    });
    tabs.push(TabState {
        name: name_cargo_toml_v(),
        file_path: Some(name_cargo_toml_v()),
        is_dirty: false,
    });
    tabs.push(TabState {
        name: name_readme_md_v(),
        file_path: Some(name_readme_md_v()),
        is_dirty: false,
    });
    proof {
        assert(tabs_view(tabs@) =~= default_tabs());
    }
    tabs
}

impl AppState {
    /// Replaces the stored window geometry with the given values.
    pub fn update_window_bounds(&mut self, x: i32, y: i32, width: i32, height: i32, is_maximized: bool)
        ensures
            final(self).window_bounds == (WindowBounds { x, y, width, height, is_maximized }),
            final(self).panel_state == old(self).panel_state,
            final(self).open_tabs == old(self).open_tabs,
            final(self).version == old(self).version,
    {
        self.window_bounds.x = x;
        self.window_bounds.y = y;
        self.window_bounds.width = width;
        self.window_bounds.height = height;
        self.window_bounds.is_maximized = is_maximized;
    }

    /// Replaces the stored panel layout with the given values.
    pub fn update_panel_state(
        &mut self,
        left_width: i32,
        bottom_height: i32,
        left_tab: usize,
        main_tab: usize,
        bottom_tab: usize,
    )
        ensures
            final(self).panel_state == (PanelState {
                left_panel_width: left_width,
                bottom_panel_height: bottom_height,
                selected_left_tab: left_tab,
                selected_main_tab: main_tab,
                selected_bottom_tab: bottom_tab,
            }),
            final(self).window_bounds == old(self).window_bounds,
            final(self).open_tabs == old(self).open_tabs,
            final(self).version == old(self).version,
    {
        self.panel_state.left_panel_width = left_width;
        self.panel_state.bottom_panel_height = bottom_height;
        self.panel_state.selected_left_tab = left_tab;
        self.panel_state.selected_main_tab = main_tab;
        self.panel_state.selected_bottom_tab = bottom_tab;
    }
}

pub open spec fn name_main_rs() -> Seq<u8> {
    seq!['m' as u8, 'a' as u8, 'i' as u8, 'n' as u8, '.' as u8, 'r' as u8, 's' as u8]
}

pub fn name_main_rs_v() -> (r: Vec<u8>)
    ensures
        r@ == name_main_rs(),
{
    let mut v: Vec<u8> = Vec::new();
    v.push('m' as u8);
    v.push('a' as u8);
    v.push('i' as u8);
    v.push('n' as u8);
    v.push('.' as u8);
    v.push('r' as u8);
    v.push('s' as u8);
    proof {
        assert(v@ =~= name_main_rs());
    }
    v
}

pub open spec fn path_src_main_rs() -> Seq<u8> {
    seq!['s' as u8, 'r' as u8, 'c' as u8, '/' as u8, 'm' as u8, 'a' as u8, 'i' as u8, 'n' as u8, '.' as u8, 'r' as u8, 's' as u8]
}

pub fn path_src_main_rs_v() -> (r: Vec<u8>)
    ensures
        r@ == path_src_main_rs(),
{
    let mut v: Vec<u8> = Vec::new();
    v.push('s' as u8);
    v.push('r' as u8);
    v.push('c' as u8);
    v.push('/' as u8);
    v.push('m' as u8);
    v.push('a' as u8);
    v.push('i' as u8);
    v.push('n' as u8);
    v.push('.' as u8);
    v.push('r' as u8);
    v.push('s' as u8);
    proof {
        assert(v@ =~= path_src_main_rs());
    }
    v
}

pub open spec fn name_cargo_toml() -> Seq<u8> {
    seq!['C' as u8, 'a' as u8, 'r' as u8, 'g' as u8, 'o' as u8, '.' as u8, 't' as u8, 'o' as u8, 'm' as u8, 'l' as u8]
}

pub fn name_cargo_toml_v() -> (r: Vec<u8>)
    ensures
        r@ == name_cargo_toml(),
{
    let mut v: Vec<u8> = Vec::new();
    v.push('C' as u8);
    v.push('a' as u8);
    v.push('r' as u8);
    v.push('g' as u8);
    v.push('o' as u8);
    v.push('.' as u8);
    v.push('t' as u8);
    v.push('o' as u8);
    v.push('m' as u8);
    v.push('l' as u8);
    proof {
        assert(v@ =~= name_cargo_toml());
    }
    v
}

pub open spec fn name_readme_md() -> Seq<u8> {
    seq!['R' as u8, 'E' as u8, 'A' as u8, 'D' as u8, 'M' as u8, 'E' as u8, '.' as u8, 'm' as u8, 'd' as u8]
}

pub fn name_readme_md_v() -> (r: Vec<u8>)
    ensures
        r@ == name_readme_md(),
{
    let mut v: Vec<u8> = Vec::new();
    v.push('R' as u8);
    v.push('E' as u8);
    v.push('A' as u8);
    v.push('D' as u8);
    v.push('M' as u8);
    v.push('E' as u8);
    v.push('.' as u8);
    v.push('m' as u8);
    v.push('d' as u8);
    proof {
        assert(v@ =~= name_readme_md());
    }
    v
}

pub open spec fn version_0_1_0() -> Seq<u8> {
    seq!['0' as u8, '.' as u8, '1' as u8, '.' as u8, '0' as u8]
}

pub fn version_0_1_0_v() -> (r: Vec<u8>)
    ensures
        r@ == version_0_1_0(),
{
    let mut v: Vec<u8> = Vec::new();
    v.push('0' as u8);
    v.push('.' as u8);
    v.push('1' as u8);
    v.push('.' as u8);
    v.push('0' as u8);
    proof {
        assert(v@ =~= version_0_1_0());
    }
    v
}

} // verus!
