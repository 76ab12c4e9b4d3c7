//! Tray menu: command identifiers, what a chosen command does to the configuration,
//! and the UTF-16 text the Win32 menu API takes.

use vstd::prelude::*;
use crate::config::Config;
use crate::text::chars_of;

verus! {

/// Command id of the first column preset (the preset value is added to it).
pub const ID_COL_BASE: u16 = 1000;
/// Command id of the first row preset (the preset value is added to it).
pub const ID_ROW_BASE: u16 = 2000;
/// "Capture this app's position".
pub const ID_CAPTURE: u16 = 8000;
/// "Quit".
pub const ID_QUIT: u16 = 9999;

/// Column counts offered in the menu.
pub const COLUMN_PRESETS: [u32; 6] = [4, 6, 8, 12, 16, 20];
/// Row counts offered in the menu.
pub const ROW_PRESETS: [u32; 6] = [2, 3, 4, 6, 8, 12];

/// What a menu command asks for.
#[derive(Debug, Clone, Copy, PartialEq, Eq, Structural)]
pub enum TrayCommand {
    Quit,
    Capture,
    SetColumns(u32),
    SetRows(u32),
    Ignore,
}

/// The command behind menu id `id`.
pub open spec fn spec_decode(id: u16) -> TrayCommand {
    if id == ID_QUIT {
        TrayCommand::Quit
    } else if id == ID_CAPTURE {
        TrayCommand::Capture
    } else if ID_COL_BASE <= id < ID_ROW_BASE {
        TrayCommand::SetColumns((id - ID_COL_BASE) as u32)
    } else if ID_ROW_BASE <= id < ID_CAPTURE {
        TrayCommand::SetRows((id - ID_ROW_BASE) as u32)
    } else {
        TrayCommand::Ignore
    }
}

/// Decodes a menu command id.
pub fn decode_command(id: u16) -> (r: TrayCommand)
    ensures
        r == spec_decode(id),
{
    if id == ID_QUIT {
        TrayCommand::Quit
    } else if id == ID_CAPTURE {
        TrayCommand::Capture
    } else if id >= ID_COL_BASE && id < ID_ROW_BASE {
        TrayCommand::SetColumns((id - ID_COL_BASE) as u32)
    } else if id >= ID_ROW_BASE && id < ID_CAPTURE {
        TrayCommand::SetRows((id - ID_ROW_BASE) as u32)
    } else {
        TrayCommand::Ignore
    }
}

/// The command behind a macOS menu item tag: capture and quit have their own tags;
/// any other tag in `1000..2000` sets the columns to `tag - 1000`, and every other tag
/// sets the rows to `tag - 2000` (as a `u32`).
pub open spec fn spec_decode_tag(tag: isize) -> TrayCommand {
    if tag == ID_CAPTURE as isize {
        TrayCommand::Capture
    } else if tag == ID_QUIT as isize {
        TrayCommand::Quit
    } else if ID_COL_BASE as isize <= tag < ID_ROW_BASE as isize {
        TrayCommand::SetColumns((tag - ID_COL_BASE) as u32)
    } else {
        TrayCommand::SetRows((tag - ID_ROW_BASE) as u32)
    }
}

/// Decodes the tag of a macOS menu item.
pub fn decode_menu_tag(tag: isize) -> (r: TrayCommand)
    requires
        tag >= isize::MIN + 2000,
    ensures
        r == spec_decode_tag(tag),
{
    if tag == 8000 {
        TrayCommand::Capture
    } else if tag == 9999 {
        TrayCommand::Quit
    } else if tag >= 1000 && tag < 2000 {
        TrayCommand::SetColumns((tag - 1000) as u32)
    } else {
        TrayCommand::SetRows((tag - 2000) as u32)
    }
}

/// Number of UTF-16 units of `len` that fit a fixed buffer of `capacity` units while
/// leaving room for the terminating NUL.
pub fn units_that_fit(len: usize, capacity: usize) -> (r: usize)
    requires
        capacity >= 1,
    ensures
        r == (if len <= capacity - 1 { len } else { (capacity - 1) as usize }),
{
    if len <= capacity - 1 { len } else { capacity - 1 }
}

/// Applies a grid command to the configuration; returns whether it changed the
/// configuration (which must then be saved). Other commands leave it alone.
pub fn apply_grid_command(config: &mut Config, cmd: TrayCommand) -> (changed: bool)
    ensures
        changed == (cmd is SetColumns || cmd is SetRows),
        final(config).grid.columns == (if let TrayCommand::SetColumns(v) = cmd { v } else { old(config).grid.columns }),
        final(config).grid.rows == (if let TrayCommand::SetRows(v) = cmd { v } else { old(config).grid.rows }),
        final(config).monitor_grids@ == old(config).monitor_grids@,
        final(config).app_rules@ == old(config).app_rules@,
        final(config).auto_place_exclude@ == old(config).auto_place_exclude@,
        final(config).overlay == old(config).overlay,
        final(config).titlebar.hide_for_classes@ == old(config).titlebar.hide_for_classes@,
{
    match cmd {
        TrayCommand::SetColumns(v) => {
            config.grid.columns = v;
            true
        },
        TrayCommand::SetRows(v) => {
            config.grid.rows = v;
            true
        },
        _ => false,
    }
}

/// Menu ids of a preset list and of the current value, for the radio check:
/// (first, last, current) = base + first preset, base + last preset, base + current.
pub fn radio_ids(base: u16, presets: &[u32], current: u32) -> (r: (u32, u32, u32))
    requires
        presets@.len() >= 1,
        base + (presets@[0] as u16) <= u16::MAX,
        base + (presets@[presets@.len() - 1] as u16) <= u16::MAX,
        base + (current as u16) <= u16::MAX,
    ensures
        r.0 == base + (presets@[0] as u16),
        r.1 == base + (presets@[presets@.len() - 1] as u16),
        r.2 == base + (current as u16),
{
    let first = base + presets[0] as u16;
    let last = base + presets[presets.len() - 1] as u16;
    let cur = base + current as u16;
    (first as u32, last as u32, cur as u32)
}

/// Menu id of preset `value`: base + value.
pub fn preset_id(base: u16, value: u32) -> (r: usize)
    requires
        base + (value as u16) <= u16::MAX,
    ensures
        r == base + (value as u16),
{
    (base + value as u16) as usize
}

// ───────────────────────── UTF-16 ─────────────────────────

/// UTF-16 code units of one character.
pub open spec fn utf16_char(c: char) -> Seq<u16> {
    let v = c as u32;
    if v < 0x10000 {
        seq![v as u16]
    } else {
        seq![(0xD800 + (v - 0x10000) / 0x400) as u16, (0xDC00 + (v - 0x10000) % 0x400) as u16]
    }
}

/// UTF-16 code units of a text.
pub open spec fn utf16(s: Seq<char>) -> Seq<u16>
    decreases s.len(),
{
    if s.len() == 0 {
        Seq::empty()
    } else {
        utf16(s.drop_last()) + utf16_char(s.last())
    }
}

/// A text as NUL-terminated UTF-16, as the wide-string Win32 functions take it.
pub fn to_wide(s: &str) -> (r: Vec<u16>)
    ensures
        r@ == utf16(s@).push(0u16),
{
    let cs = chars_of(s);
    let mut r: Vec<u16> = Vec::new();
    let mut i: usize = 0;
    while i < cs.len()
        invariant
            cs@ == s@,
            i <= cs@.len(),
            r@ == utf16(cs@.subrange(0, i as int)),
        decreases cs@.len() - i,
    {
        let c = cs[i];
        let v = c as u32;
        if v < 0x10000 {
            r.push(v as u16);
        } else {
            let u = v - 0x10000;
            r.push((0xD800 + u / 0x400) as u16);
            r.push((0xDC00 + u % 0x400) as u16);
        }
        proof {
            let p = cs@.subrange(0, i + 1);
            assert(p.drop_last() =~= cs@.subrange(0, i as int));
            assert(p.last() == c);
        }
        i = i + 1;
    }
    assert(cs@.subrange(0, cs@.len() as int) =~= cs@);
    r.push(0);
    r
}

} // verus!
