use gridsnap::auto_place::{
    app_names_match, is_target_window, take_deferred, DeferredPlacement, WindowTraits, WS_CAPTION,
    WS_EX_NOACTIVATE, WS_EX_TOOLWINDOW, WS_POPUP,
};
use gridsnap::capture::{capture_rule, is_capture_candidate};
use gridsnap::config::{AppRule, Config, GridConfig, MonitorGridConfig, MonitorGridMap, OverlayConfig};
use gridsnap::drag::{record_gui_pid, DragEvent, DragState};
use gridsnap::grid::Grid;
use gridsnap::monitor::{effective_dpi, MonitorInfo};
use gridsnap::overlay::{center_segments, grid_segments, Segment};
use gridsnap::snap::{
    corrected_outer_rect, detect_drag_edge, outer_rect_for, snap_visible_rect, DwmBorders, WinRect,
    WMSZ_BOTTOM, WMSZ_BOTTOMLEFT, WMSZ_LEFT, WMSZ_RIGHT, WMSZ_TOP, WMSZ_TOPRIGHT,
};
use gridsnap::text::{file_name_of, str_contains};
use gridsnap::titlebar::{control_overlay_rect, hidden_titlebar_top, hover_target, TitlebarHider};
use gridsnap::tray::{
    apply_grid_command, decode_command, decode_menu_tag, preset_id, radio_ids, to_wide, units_that_fit,
    TrayCommand, COLUMN_PRESETS, ID_COL_BASE, ROW_PRESETS, ID_ROW_BASE,
};

fn rule(monitor: Option<&str>, class: Option<&str>, exe: Option<&str>, cells: (u32, u32, u32, u32)) -> AppRule {
    AppRule {
        monitor: monitor.map(|s| s.to_string()),
        class_name: class.map(|s| s.to_string()),
        exe_name: exe.map(|s| s.to_string()),
        col: cells.0,
        row: cells.1,
        col_span: cells.2,
        row_span: cells.3,
    }
}

// ───────────── grid laws on concrete values ─────────────

#[test]
fn snap_is_nearest_line_everywhere() {
    let g = Grid::new(10, 0, 1926, 1201, 20, 12);
    let xs: Vec<i32> = (0..=20).map(|c| g.col_to_x(c)).collect();
    for px in -50..2000 {
        let s = g.snap_x(px);
        assert!(xs.contains(&s));
        let best = xs.iter().map(|x| (px - x).abs()).min().unwrap();
        assert_eq!((px - s).abs(), best, "px={}", px);
    }
}

#[test]
fn snap_tie_goes_to_lower_line() {
    let g = Grid::new(0, 0, 100, 100, 10, 10);
    assert_eq!(g.snap_x(15), 10);
    assert_eq!(g.snap_y(25), 20);
    assert_eq!(g.snap_y(26), 30);
}

#[test]
fn cells_tile_area_uneven() {
    let g = Grid::new(-300, 50, 1001, 777, 7, 9);
    let w: i32 = (0..7).map(|c| g.cell_width_at(c)).sum();
    let h: i32 = (0..9).map(|r| g.cell_height_at(r)).sum();
    assert_eq!(w, 1001);
    assert_eq!(h, 777);
    for c in 0..7 {
        assert_eq!(g.cell_width_at(c), g.col_to_x(c + 1) - g.col_to_x(c));
    }
    // 1001 = 7 * 143 + 0; 777 = 9 * 86 + 3 → top row 86 + 1, bottom row 86 + 2
    assert_eq!(g.cell_height_at(0), 87);
    assert_eq!(g.cell_height_at(8), 88);
    assert_eq!(g.cell_height_at(4), 86);
}

#[test]
fn cell_roundtrip_every_span_uneven_grid() {
    let g = Grid::new(5, 7, 1926, 1201, 20, 12);
    for col in 0..20u32 {
        for cs in 1..=(20 - col) {
            let r = g.cell_rect(col, 0, cs, 1);
            assert_eq!(g.edges_to_cell(r.x, r.y, r.x + r.w, r.y + r.h), (col, 0, cs, 1));
        }
    }
    for row in 0..12u32 {
        for rs in 1..=(12 - row) {
            let r = g.cell_rect(0, row, 1, rs);
            assert_eq!(g.edges_to_cell(r.x, r.y, r.x + r.w, r.y + r.h), (0, row, 1, rs));
        }
    }
}

#[test]
fn edges_to_cell_grid_with_empty_cells() {
    // 5 px across 10 columns: interior cells are empty, one cell at the origin is returned
    let g = Grid::new(0, 0, 5, 100, 10, 4);
    assert_eq!(g.cell_width(), 0);
    assert_eq!(g.edges_to_cell(1, 1, 4, 50), (0, 0, 1, 1));
}

#[test]
fn cell_rect_clamps_out_of_grid_cells() {
    let g = Grid::new(0, 0, 1000, 500, 10, 5);
    let r = g.cell_rect(8, 4, 5, 5);
    assert_eq!((r.x, r.y, r.w, r.h), (800, 400, 200, 100));
}

#[test]
fn grid_lines_negative_origin() {
    let g = Grid::new(-1920, -100, 1920, 1080, 8, 4);
    let l = g.grid_lines();
    assert_eq!(l.verticals, vec![-1920, -1680, -1440, -1200, -960, -720, -480, -240, -1]);
    assert_eq!(l.horizontals, vec![-100, 170, 440, 710, 979]);
}

// ───────────── configuration ─────────────

#[test]
fn config_defaults() {
    let c = Config::default();
    assert_eq!(c.grid, GridConfig { columns: 20, rows: 12 });
    assert!(c.app_rules.is_empty());
    assert_eq!(c.auto_place_exclude, vec!["Shell_TrayWnd", "NotifyIconOverflowWindow", "tooltips_class32"]);
    assert_eq!(c.overlay, OverlayConfig { enabled: true, color_argb: 0x4000_80FF });
    assert!(c.titlebar.hide_for_classes.is_empty());
    assert_eq!(c.monitor_grids.entries().len(), 0);
    assert_eq!(MonitorGridConfig::default(), MonitorGridConfig { columns: None, rows: None });
}

#[test]
fn grid_for_monitor_field_by_field_override() {
    let mut c = Config::default();
    c.monitor_grids.insert("DISPLAY3".to_string(), MonitorGridConfig { columns: Some(6), rows: None });
    assert_eq!(c.grid_for_monitor("DISPLAY3"), GridConfig { columns: 6, rows: 12 });
    assert_eq!(c.grid_for_monitor("DISPLAY"), GridConfig { columns: 20, rows: 12 });
}

#[test]
fn monitor_grid_map_insert_get_replace() {
    let mut m = MonitorGridMap::new();
    assert_eq!(m.insert("A".to_string(), MonitorGridConfig { columns: Some(1), rows: Some(2) }), None);
    assert_eq!(m.insert("B".to_string(), MonitorGridConfig { columns: None, rows: Some(3) }), None);
    assert_eq!(
        m.insert("A".to_string(), MonitorGridConfig { columns: Some(9), rows: None }),
        Some(MonitorGridConfig { columns: Some(1), rows: Some(2) })
    );
    assert_eq!(m.get("A"), Some(MonitorGridConfig { columns: Some(9), rows: None }));
    assert_eq!(m.get("B"), Some(MonitorGridConfig { columns: None, rows: Some(3) }));
    assert_eq!(m.get("C"), None);
    assert_eq!(m.entries().len(), 2);
    let m2 = m.clone();
    assert_eq!(m2.get("A"), Some(MonitorGridConfig { columns: Some(9), rows: None }));
}

#[test]
fn upsert_updates_same_exe_and_monitor() {
    let mut c = Config::default();
    c.upsert_app_rule(rule(Some("DISPLAY1"), None, Some("Code.exe"), (0, 0, 10, 12)));
    c.upsert_app_rule(rule(Some("DISPLAY2"), None, Some("Code.exe"), (1, 1, 2, 2)));
    c.upsert_app_rule(rule(Some("DISPLAY1"), Some("Chrome_WidgetWin_1"), Some("Code.exe"), (3, 4, 5, 6)));
    assert_eq!(c.app_rules.len(), 2);
    let r = &c.app_rules[0];
    assert_eq!(r.monitor.as_deref(), Some("DISPLAY1"));
    assert_eq!(r.class_name.as_deref(), Some("Chrome_WidgetWin_1"));
    assert_eq!((r.col, r.row, r.col_span, r.row_span), (3, 4, 5, 6));
    let r = &c.app_rules[1];
    assert_eq!((r.col, r.row, r.col_span, r.row_span), (1, 1, 2, 2));
}

#[test]
fn upsert_without_exe_always_appends() {
    let mut c = Config::default();
    c.upsert_app_rule(rule(None, Some("X"), None, (0, 0, 1, 1)));
    c.upsert_app_rule(rule(None, Some("X"), None, (0, 0, 1, 1)));
    assert_eq!(c.app_rules.len(), 2);
}

#[test]
fn upsert_twice_is_upsert_once() {
    let mut once = Config::default();
    once.upsert_app_rule(rule(None, None, Some("a.exe"), (0, 0, 1, 1)));
    once.upsert_app_rule(rule(Some("D"), None, Some("b.exe"), (2, 2, 2, 2)));
    let mut twice = once.clone();
    once.upsert_app_rule(rule(Some("D"), None, Some("a.exe"), (5, 5, 1, 1)));
    twice.upsert_app_rule(rule(Some("D"), None, Some("a.exe"), (5, 5, 1, 1)));
    twice.upsert_app_rule(rule(Some("D"), None, Some("a.exe"), (5, 5, 1, 1)));
    assert_eq!(format!("{:?}", once.app_rules), format!("{:?}", twice.app_rules));
    assert_eq!(once.app_rules.len(), 3);
}

// ───────────── rule lookup ─────────────

#[test]
fn find_rule_monitor_specific_first_then_common() {
    let mut c = Config::default();
    c.app_rules.push(rule(None, None, Some("Code.exe"), (0, 0, 1, 1)));
    c.app_rules.push(rule(Some("DISPLAY2"), None, Some("Code"), (1, 0, 1, 1)));
    c.app_rules.push(rule(Some("DISPLAY2"), None, Some("Code.exe"), (2, 0, 1, 1)));
    assert_eq!(c.find_app_rule("Chrome_WidgetWin_1", "Code.exe", "\\\\.\\DISPLAY2"), Some(1));
    assert_eq!(c.find_app_rule("Chrome_WidgetWin_1", "Code.exe", "\\\\.\\DISPLAY1"), Some(0));
    assert_eq!(c.find_app_rule("Chrome_WidgetWin_1", "notepad.exe", "\\\\.\\DISPLAY2"), None);
}

#[test]
fn find_rule_class_pattern_must_match() {
    let mut c = Config::default();
    c.app_rules.push(rule(None, Some("Notepad"), None, (0, 0, 1, 1)));
    assert_eq!(c.find_app_rule("Notepad", "notepad.exe", "DISPLAY1"), Some(0));
    assert_eq!(c.find_app_rule("CabinetWClass", "explorer.exe", "DISPLAY1"), None);
}

#[test]
fn find_rule_by_name_ignores_case_and_direction() {
    let mut c = Config::default();
    c.app_rules.push(rule(Some("7"), None, Some("CODE"), (0, 0, 1, 1)));
    c.app_rules.push(rule(None, None, Some("Google Chrome Helper"), (1, 0, 1, 1)));
    assert_eq!(c.find_app_rule_by_name("17", "Visual Studio Code"), Some(0));
    assert_eq!(c.find_app_rule_by_name("2", "code"), None);
    assert_eq!(c.find_app_rule_by_name("2", "google chrome"), Some(1));
    assert!(app_names_match("code", "cod"));
    assert!(app_names_match("cod", "code"));
    assert!(!app_names_match("code", "cobe"));
}

#[test]
fn captured_rule_is_found_for_later_windows() {
    let g = Grid::new(0, 0, 2560, 1440, 20, 12);
    let mut c = Config::default();
    c.app_rules.push(rule(Some("DISPLAY1"), Some("Other"), Some("Code.exe"), (9, 9, 1, 1)));
    let captured = capture_rule(
        &g,
        "DISPLAY1".to_string(),
        "Code.exe".to_string(),
        WinRect { left: 256, top: 120, right: 768, bottom: 480 },
    );
    assert_eq!((captured.col, captured.row, captured.col_span, captured.row_span), (2, 1, 4, 3));
    c.upsert_app_rule(captured);
    let k = c.find_app_rule("AnyClass", "Code.exe", "DISPLAY1").unwrap();
    let r = &c.app_rules[k];
    assert_eq!((r.col, r.row, r.col_span, r.row_span), (2, 1, 4, 3));
}

#[test]
fn target_window_filter() {
    let c = Config::default();
    let ok = WindowTraits {
        visible: true,
        style: WS_CAPTION,
        ex_style: 0,
        class_name: "Notepad".to_string(),
        rect: Some(WinRect { left: 0, top: 0, right: 800, bottom: 600 }),
    };
    assert!(is_target_window(&ok, &c));
    let mut w = ok.clone();
    w.visible = false;
    assert!(!is_target_window(&w, &c));
    let mut w = ok.clone();
    w.ex_style = WS_EX_TOOLWINDOW;
    assert!(!is_target_window(&w, &c));
    let mut w = ok.clone();
    w.ex_style = WS_EX_NOACTIVATE;
    assert!(!is_target_window(&w, &c));
    let mut w = ok.clone();
    w.style = WS_POPUP;
    assert!(!is_target_window(&w, &c));
    let mut w = ok.clone();
    w.style = WS_POPUP | WS_CAPTION;
    assert!(is_target_window(&w, &c));
    for class in ["#32768", "tooltips_class32", "#32770", "ApplicationFrameWindow", "Windows.UI.Core.CoreWindow",
        "xShell_TrayWndx"] {
        let mut w = ok.clone();
        w.class_name = class.to_string();
        assert!(!is_target_window(&w, &c), "{}", class);
    }
    let mut w = ok.clone();
    w.class_name = "#327680".to_string();
    assert!(is_target_window(&w, &c));
    let mut w = ok.clone();
    w.rect = Some(WinRect { left: 0, top: 0, right: 99, bottom: 600 });
    assert!(!is_target_window(&w, &c));
    let mut w = ok.clone();
    w.rect = None;
    assert!(is_target_window(&w, &c));
}

#[test]
fn deferred_queue_takes_first_match() {
    let mk = |h: isize, col: u32| DeferredPlacement {
        hwnd: h,
        rule: rule(None, None, Some("a"), (col, 0, 1, 1)),
        device_name: "D".to_string(),
    };
    let mut q = vec![mk(1, 0), mk(2, 1), mk(2, 2)];
    let d = take_deferred(&mut q, 2).unwrap();
    assert_eq!(d.rule.col, 1);
    assert_eq!(q.len(), 2);
    assert_eq!(q[1].rule.col, 2);
    assert!(take_deferred(&mut q, 7).is_none());
    assert_eq!(q.len(), 2);
}

// ───────────── snapping ─────────────

#[test]
fn move_snap_keeps_size_and_lands_on_intersection() {
    let g = Grid::new(0, 0, 2560, 1440, 20, 12);
    let vis = WinRect { left: 300, top: 190, right: 900, bottom: 700 };
    assert_eq!(snap_visible_rect(&g, vis, None), Some((256, 240, 600, 510)));
}

#[test]
fn resize_snap_keeps_undragged_edges() {
    let g = Grid::new(0, 0, 2560, 1440, 20, 12);
    let vis = WinRect { left: 300, top: 190, right: 900, bottom: 700 };
    assert_eq!(snap_visible_rect(&g, vis, Some(WMSZ_RIGHT)), Some((300, 190, 596, 510)));
    assert_eq!(snap_visible_rect(&g, vis, Some(WMSZ_TOPRIGHT)), Some((300, 240, 596, 460)));
    assert_eq!(snap_visible_rect(&g, vis, Some(WMSZ_BOTTOMLEFT)), Some((256, 190, 644, 530)));
}

#[test]
fn resize_snap_to_empty_is_skipped() {
    let g = Grid::new(0, 0, 2560, 1440, 20, 12);
    let vis = WinRect { left: 300, top: 190, right: 310, bottom: 700 };
    assert_eq!(snap_visible_rect(&g, vis, Some(WMSZ_RIGHT)), None);
}

#[test]
fn drag_edge_sides() {
    let pre = WinRect { left: 100, top: 100, right: 500, bottom: 400 };
    assert_eq!(detect_drag_edge(pre, WinRect { top: 20, ..pre }), Some(WMSZ_TOP));
    assert_eq!(detect_drag_edge(pre, WinRect { bottom: 480, ..pre }), Some(WMSZ_BOTTOM));
    assert_eq!(detect_drag_edge(pre, WinRect { left: 40, bottom: 480, ..pre }), Some(WMSZ_BOTTOMLEFT));
    assert_eq!(detect_drag_edge(pre, pre), None);
    // three sides moved: not a side or a corner
    assert_eq!(detect_drag_edge(pre, WinRect { left: 40, right: 560, bottom: 480, ..pre }), None);
}

#[test]
fn dwm_border_compensation() {
    let z = DwmBorders::zero();
    assert_eq!((z.left, z.top, z.right, z.bottom), (0, 0, 0, 0));
    let b = DwmBorders::between(
        WinRect { left: 93, top: 100, right: 807, bottom: 607 },
        WinRect { left: 100, top: 100, right: 800, bottom: 600 },
    );
    assert_eq!(b, DwmBorders { left: 7, top: 0, right: 7, bottom: 7 });
    assert_eq!(outer_rect_for(100, 100, 700, 500, b), (93, 100, 714, 507));
    let exact = WinRect { left: 100, top: 100, right: 800, bottom: 600 };
    assert_eq!(corrected_outer_rect(100, 100, 700, 500, b, exact), None);
    let off = WinRect { left: 101, top: 100, right: 800, bottom: 599 };
    assert_eq!(corrected_outer_rect(100, 100, 700, 500, b, off), Some((92, 100, 715, 508)));
}

// ───────────── text ─────────────

#[test]
fn substring_and_file_name() {
    assert!(str_contains("\\\\.\\DISPLAY1", "DISPLAY1"));
    assert!(str_contains("abc", ""));
    assert!(!str_contains("ab", "abc"));
    assert!(str_contains("日本語テキスト", "語テ"));
    assert_eq!(file_name_of("C:\\Program Files\\App\\Code.exe"), "Code.exe");
    assert_eq!(file_name_of("/usr/bin/zsh"), "zsh");
    assert_eq!(file_name_of("plain"), "plain");
    assert_eq!(file_name_of("dir/"), "");
    assert_eq!(file_name_of(""), "");
}

// ───────────── tray ─────────────

#[test]
fn tray_commands() {
    assert_eq!(decode_command(9999), TrayCommand::Quit);
    assert_eq!(decode_command(8000), TrayCommand::Capture);
    assert_eq!(decode_command(1012), TrayCommand::SetColumns(12));
    assert_eq!(decode_command(2006), TrayCommand::SetRows(6));
    assert_eq!(decode_command(7999), TrayCommand::SetRows(5999));
    assert_eq!(decode_command(999), TrayCommand::Ignore);
    assert_eq!(decode_command(8001), TrayCommand::Ignore);
    assert_eq!(decode_menu_tag(1016), TrayCommand::SetColumns(16));
    assert_eq!(decode_menu_tag(2003), TrayCommand::SetRows(3));
    assert_eq!(decode_menu_tag(8000), TrayCommand::Capture);
    assert_eq!(decode_menu_tag(9999), TrayCommand::Quit);
    let mut c = Config::default();
    assert!(apply_grid_command(&mut c, TrayCommand::SetColumns(8)));
    assert!(apply_grid_command(&mut c, TrayCommand::SetRows(4)));
    assert!(!apply_grid_command(&mut c, TrayCommand::Quit));
    assert_eq!(c.grid, GridConfig { columns: 8, rows: 4 });
}

#[test]
fn tray_menu_ids() {
    assert_eq!(radio_ids(ID_COL_BASE, &COLUMN_PRESETS, 12), (1004, 1020, 1012));
    assert_eq!(radio_ids(ID_ROW_BASE, &ROW_PRESETS, 6), (2002, 2012, 2006));
    assert_eq!(preset_id(ID_ROW_BASE, 8), 2008);
    assert_eq!(units_that_fit(8, 128), 8);
    assert_eq!(units_that_fit(300, 128), 127);
}

#[test]
fn wide_strings() {
    assert_eq!(to_wide("Rows"), vec![0x52, 0x6f, 0x77, 0x73, 0]);
    assert_eq!(to_wide(""), vec![0]);
    let s = "\u{1F4CD} é";
    let mut expected: Vec<u16> = s.encode_utf16().collect();
    expected.push(0);
    assert_eq!(to_wide(s), expected);
}

// ───────────── overlay ─────────────

#[test]
fn overlay_segments() {
    let g = Grid::new(100, 200, 1000, 500, 4, 2);
    let l = g.grid_lines();
    let s = grid_segments(&l, -50, 10);
    assert_eq!(s.len(), 5 + 3);
    assert_eq!(s[0], Segment { x0: 150, y0: 190, x1: 150, y1: 690 });
    assert_eq!(s[4], Segment { x0: 1149, y0: 190, x1: 1149, y1: 690 });
    assert_eq!(s[5], Segment { x0: 150, y0: 190, x1: 1150, y1: 190 });
    assert_eq!(s[7], Segment { x0: 150, y0: 689, x1: 1150, y1: 689 });
    let c = center_segments(&l, 4, 2, -50, 10);
    assert_eq!(c, vec![Segment { x0: 650, y0: 190, x1: 650, y1: 690 }, Segment { x0: 150, y0: 440, x1: 1150, y1: 440 }]);
}

// ───────────── title bar ─────────────

#[test]
fn titlebar_hover_and_layout() {
    let mut h = TitlebarHider::new();
    h.add_target(11);
    h.add_target(22);
    assert_eq!(h.targets(), &vec![11, 22]);
    let wins = vec![
        (11isize, WinRect { left: 0, top: 0, right: 100, bottom: 100 }),
        (22isize, WinRect { left: 50, top: 0, right: 300, bottom: 100 }),
    ];
    assert_eq!(hover_target(60, 3, &wins, 5), Some(11));
    assert_eq!(hover_target(200, 5, &wins, 5), Some(22));
    assert_eq!(hover_target(200, 6, &wins, 5), None);
    assert_eq!(hidden_titlebar_top(100, 31), 69);
    assert_eq!(control_overlay_rect(WinRect { left: 0, top: 40, right: 800, bottom: 600 }), (680, 40, 120, 24));
}

// ───────────── monitors and capture ─────────────

#[test]
fn monitor_grid_uses_override() {
    let mut c = Config::default();
    c.monitor_grids.insert("\\\\.\\DISPLAY2".to_string(), MonitorGridConfig { columns: Some(10), rows: Some(6) });
    let m = MonitorInfo { handle: 1, device_name: "\\\\.\\DISPLAY2".to_string(), work_rect: (1920, 0, 3840, 1040), dpi: 96 };
    assert_eq!(m.work_width(), 1920);
    assert_eq!(m.work_height(), 1040);
    let g = m.to_grid(&c);
    assert_eq!((g.origin_x, g.origin_y, g.width, g.height, g.columns, g.rows), (1920, 0, 1920, 1040, 10, 6));
    assert_eq!(g.cell_width(), 192);
    assert_eq!(effective_dpi(0), 96);
    assert_eq!(effective_dpi(144), 144);
}

#[test]
fn capture_candidates() {
    let r = Some(WinRect { left: 0, top: 0, right: 10, bottom: 10 });
    assert!(is_capture_candidate(true, 5, 1, 0, r));
    assert!(!is_capture_candidate(false, 5, 1, 0, r));
    assert!(!is_capture_candidate(true, 1, 1, 0, r));
    assert!(!is_capture_candidate(true, 5, 1, WS_EX_TOOLWINDOW, r));
    assert!(!is_capture_candidate(true, 5, 1, WS_EX_NOACTIVATE, r));
    assert!(!is_capture_candidate(true, 5, 1, 0, Some(WinRect { left: 0, top: 0, right: 0, bottom: 10 })));
    assert!(is_capture_candidate(true, 5, 1, 0, None));
}

// ───────────── drag tracking ─────────────

#[test]
fn drag_sequence_snaps_once() {
    let mut s = DragState::new();
    let a = s.step(DragEvent::MouseDragged { cursor_outside_overlay: true });
    assert!(!a.show_overlay_at_cursor);
    let a = s.step(DragEvent::WindowChanged);
    assert!(a.show_overlay_at_window && a.remember_window);
    let a = s.step(DragEvent::WindowChanged);
    assert!(!a.show_overlay_at_window && a.remember_window);
    let a = s.step(DragEvent::MouseDragged { cursor_outside_overlay: true });
    assert!(a.show_overlay_at_cursor);
    let a = s.step(DragEvent::MouseUp);
    assert!(a.hide_overlay && a.snap_remembered);
    let a = s.step(DragEvent::MouseUp);
    assert!(!a.hide_overlay && !a.snap_remembered);
    let a = s.step(DragEvent::WindowChanged);
    assert!(a.snap_now);
}

#[test]
fn drag_missed_release_recovered_by_tick() {
    let mut s = DragState::new();
    s.step(DragEvent::MouseDragged { cursor_outside_overlay: false });
    s.step(DragEvent::WindowChanged);
    s.dragging = false;
    let a = s.step(DragEvent::Tick { mouse_down: true });
    assert!(!a.snap_remembered);
    let a = s.step(DragEvent::Tick { mouse_down: false });
    assert!(a.hide_overlay && a.snap_remembered);
    let a = s.step(DragEvent::Tick { mouse_down: false });
    assert!(!a.snap_remembered);
}

#[test]
fn gui_pid_collection() {
    let mut pids = Vec::new();
    record_gui_pid(&mut pids, Some(0), Some(42));
    record_gui_pid(&mut pids, None, Some(7));
    record_gui_pid(&mut pids, Some(0), Some(42));
    record_gui_pid(&mut pids, Some(25), Some(9));
    record_gui_pid(&mut pids, Some(0), Some(0));
    record_gui_pid(&mut pids, Some(0), None);
    assert_eq!(pids, vec![42, 7]);
}
