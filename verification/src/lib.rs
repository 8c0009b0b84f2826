//! State and interaction logic for an IDE-style desktop window: a drag
//! controller for resizable panel dividers, the persisted application state
//! record, and the byte-level codec for its on-disk representation.

pub mod controller;
pub mod codec;
pub mod json;
pub mod state;

pub use controller::IDEApplication;
pub use state::AppState;
pub use state::AppStateV;
pub use state::PanelState;
pub use state::TabState;
pub use state::TabStateV;
pub use state::WindowBounds;
