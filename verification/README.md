# GridSnap

GridSnap snaps windows to a per-monitor grid when a drag ends, places newly opened
windows by rules from `gridsnap.toml`, and draws the grid while a window is dragged.
It runs on Windows and macOS.

## Layout

- `src/` — the `gridsnap` library, verified with Verus:
  - `arith`, `axis` — integer division facts and the one-dimensional grid (lines,
    cells, which cell holds a pixel, nearest line);
  - `grid` — the two-dimensional grid of a monitor, with laws on tiling, line order,
    snapping and cell round trips;
  - `config` — the configuration model, per-monitor overrides and the rule upsert;
  - `auto_place`, `capture` — which windows are placed, which rule applies, and the
    rule that records where a window is;
  - `snap` — dragged-edge detection, snapping a window's visible rectangle and the
    compensation of the invisible DWM frame;
  - `drag` — the macOS drag state machine (events in, actions out);
  - `monitor`, `overlay`, `tray`, `titlebar`, `text` — monitor grids, overlay segments,
    menu commands, title bar hover and small string helpers.
- `tests/` — tests of the library.
- `app/` — the program: configuration file I/O, Win32 and Cocoa/Accessibility calls,
  event loops. It hands plain values to the library and carries out what it returns.
