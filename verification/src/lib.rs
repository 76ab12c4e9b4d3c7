//! GridSnap: window snapping to a per-monitor grid, with the grid geometry,
//! the configuration model and the snapping decisions verified.

pub mod arith;
pub mod axis;
pub mod grid;
pub mod text;
pub mod config;
pub mod snap;
pub mod auto_place;
pub mod monitor;
pub mod capture;
pub mod overlay;
pub mod tray;
pub mod titlebar;
pub mod drag;
