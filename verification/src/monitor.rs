//! A monitor's work area and the grid laid over it.

use vstd::prelude::*;
use crate::arith::fits_i32;
use crate::config::{Config, GridConfig, grid_for};
use crate::grid::{Grid, GridView};

verus! {

/// DPI assumed when the system reports none.
pub const DEFAULT_DPI: u32 = 96;

/// One monitor.
#[derive(Debug)]
pub struct MonitorInfo {
    /// Monitor handle (raw value).
    pub handle: isize,
    /// Device name (`szDevice`), the key of per-monitor overrides.
    pub device_name: String,
    /// Work area without the taskbar, physical pixels: (left, top, right, bottom).
    pub work_rect: (i32, i32, i32, i32),
    /// Effective DPI.
    pub dpi: u32,
}

/// The DPI to use for a reported value: the value itself, or 96 when it is zero.
pub fn effective_dpi(reported: u32) -> (r: u32)
    ensures
        r == (if reported > 0 { reported } else { DEFAULT_DPI }),
{
    if reported > 0 { reported } else { DEFAULT_DPI }
}

impl Clone for MonitorInfo {
    fn clone(&self) -> (r: Self)
        ensures
            r.handle == self.handle,
            r.device_name@ == self.device_name@,
            r.work_rect == self.work_rect,
            r.dpi == self.dpi,
    {
        MonitorInfo {
            handle: self.handle,
            device_name: self.device_name.clone(),
            work_rect: self.work_rect,
            dpi: self.dpi,
        }
    }
}

impl MonitorInfo {
    /// Width of the work area.
    pub fn work_width(&self) -> (r: i32)
        requires
            fits_i32(self.work_rect.2 - self.work_rect.0),
        ensures
            r == self.work_rect.2 - self.work_rect.0,
    {
        self.work_rect.2 - self.work_rect.0
    }

    /// Height of the work area.
    pub fn work_height(&self) -> (r: i32)
        requires
            fits_i32(self.work_rect.3 - self.work_rect.1),
        ensures
            r == self.work_rect.3 - self.work_rect.1,
    {
        self.work_rect.3 - self.work_rect.1
    }

    /// The grid of this monitor's work area, with the monitor's grid settings.
    pub fn to_grid(&self, config: &Config) -> (g: Grid)
        requires
            fits_i32(self.work_rect.2 - self.work_rect.0),
            fits_i32(self.work_rect.3 - self.work_rect.1),
            1 <= grid_for(config.grid, config.monitor_grids@, self.device_name@).columns <= i32::MAX,
            1 <= grid_for(config.grid, config.monitor_grids@, self.device_name@).rows <= i32::MAX,
        ensures
            g.wf(),
            g@ == (GridView {
                origin_x: self.work_rect.0 as int,
                origin_y: self.work_rect.1 as int,
                width: self.work_rect.2 - self.work_rect.0,
                height: self.work_rect.3 - self.work_rect.1,
                columns: grid_for(config.grid, config.monitor_grids@, self.device_name@).columns as int,
                rows: grid_for(config.grid, config.monitor_grids@, self.device_name@).rows as int,
            }),
    {
        let gc: GridConfig = config.grid_for_monitor(self.device_name.as_str());
        Grid::new(
            self.work_rect.0,
            self.work_rect.1,
            self.work_width(),
            self.work_height(),
            gc.columns,
            gc.rows,
        )
    }
}

} // verus!
