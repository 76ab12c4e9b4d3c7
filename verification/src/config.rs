//! Configuration model: the default grid, per-monitor overrides, placement rules
//! and the rule upsert used when a window position is captured.

use vstd::prelude::*;

verus! {

/// Grid resolution. Each monitor may override it.
#[derive(Debug, Clone, Copy, PartialEq, Eq, Structural)]
pub struct GridConfig {
    /// Number of columns.
    pub columns: u32,
    /// Number of rows.
    pub rows: u32,
}

impl Default for GridConfig {
    fn default() -> (r: Self)
        ensures
            r.columns == 20,
            r.rows == 12,
    {
        GridConfig { columns: 20, rows: 12 }
    }
}

/// Per-monitor grid override; a missing value falls back to the common grid.
#[derive(Debug, Clone, Copy, PartialEq, Eq, Structural)]
pub struct MonitorGridConfig {
    pub columns: Option<u32>,
    pub rows: Option<u32>,
}

impl Default for MonitorGridConfig {
    fn default() -> (r: Self)
        ensures
            r.columns is None,
            r.rows is None,
    {
        MonitorGridConfig { columns: None, rows: None }
    }
}

/// Automatic placement rule: windows that match are put on the given cells.
#[derive(Debug, Clone)]
pub struct AppRule {
    /// Monitor name to match (substring); `None` applies on every monitor.
    pub monitor: Option<String>,
    /// Window class name to match (substring).
    pub class_name: Option<String>,
    /// Executable name to match (substring).
    pub exe_name: Option<String>,
    /// First cell (0-based, from the top left).
    pub col: u32,
    pub row: u32,
    /// Number of cells covered.
    pub col_span: u32,
    pub row_span: u32,
}

/// Grid overlay settings.
#[derive(Debug, Clone, Copy, PartialEq, Eq, Structural)]
pub struct OverlayConfig {
    /// Whether the overlay is shown.
    pub enabled: bool,
    /// Line colour (ARGB).
    pub color_argb: u32,
}

impl Default for OverlayConfig {
    fn default() -> (r: Self)
        ensures
            r.enabled,
            r.color_argb == 0x4000_80FF,
    {
        OverlayConfig { enabled: true, color_argb: 0x4000_80FF }
    }
}

/// Title-bar hiding settings.
#[derive(Debug, Clone)]
pub struct TitlebarConfig {
    /// Window classes whose title bar is hidden.
    pub hide_for_classes: Vec<String>,
}

impl Default for TitlebarConfig {
    fn default() -> (r: Self)
        ensures
            r.hide_for_classes@.len() == 0,
    {
        TitlebarConfig { hide_for_classes: Vec::new() }
    }
}

/// The text of an optional string.
pub open spec fn opt_view(o: Option<String>) -> Option<Seq<char>> {
    match o {
        Some(s) => Some(s@),
        None => None,
    }
}

/// `o`, or `d` when it is missing.
pub open spec fn or_else_u32(o: Option<u32>, d: u32) -> u32 {
    match o {
        Some(v) => v,
        None => d,
    }
}

// ───────────────────────── per-monitor overrides ─────────────────────────

/// Per-monitor grid overrides keyed by monitor name; each name occurs at most once.
#[derive(Debug)]
pub struct MonitorGridMap {
    entries: Vec<(String, MonitorGridConfig)>,
}

/// No two entries share a name.
pub open spec fn keys_distinct(e: Seq<(String, MonitorGridConfig)>) -> bool {
    forall|i: int, j: int| 0 <= i < j < e.len() ==> (#[trigger] e[i]).0@ != (#[trigger] e[j]).0@
}

/// Some entry is named `k`.
pub open spec fn has_key(e: Seq<(String, MonitorGridConfig)>, k: Seq<char>) -> bool {
    exists|i: int| 0 <= i < e.len() && (#[trigger] e[i]).0@ == k
}

/// The value stored under `k`.
pub open spec fn value_for(e: Seq<(String, MonitorGridConfig)>, k: Seq<char>) -> MonitorGridConfig {
    e[choose|i: int| 0 <= i < e.len() && (#[trigger] e[i]).0@ == k].1
}

/// The entries read as a map from monitor name to override.
pub open spec fn entries_map(e: Seq<(String, MonitorGridConfig)>) -> Map<Seq<char>, MonitorGridConfig> {
    Map::new(|k: Seq<char>| has_key(e, k), |k: Seq<char>| value_for(e, k))
}

/// With distinct names, the entry at `i` is what the map holds under its name.
proof fn lemma_entry_in_map(e: Seq<(String, MonitorGridConfig)>, i: int)
    requires
        keys_distinct(e),
        0 <= i < e.len(),
    ensures
        entries_map(e).dom().contains(e[i].0@),
        entries_map(e)[e[i].0@] == e[i].1,
{
    assert(has_key(e, e[i].0@));
    let j = choose|j: int| 0 <= j < e.len() && (#[trigger] e[j]).0@ == e[i].0@;
    if j != i {
        if j < i {
            assert(e[j].0@ != e[i].0@);
        } else {
            assert(e[i].0@ != e[j].0@);
        }
    }
}

impl View for MonitorGridMap {
    type V = Map<Seq<char>, MonitorGridConfig>;

    closed spec fn view(&self) -> Map<Seq<char>, MonitorGridConfig> {
        entries_map(self.entries@)
    }
}

impl MonitorGridMap {
    #[verifier::type_invariant]
    closed spec fn inv(self) -> bool {
        keys_distinct(self.entries@)
    }

    /// An empty set of overrides.
    pub fn new() -> (r: Self)
        ensures
            r@ == Map::<Seq<char>, MonitorGridConfig>::empty(),
    {
        let r = MonitorGridMap { entries: Vec::new() };
        assert(r@ =~= Map::<Seq<char>, MonitorGridConfig>::empty());
        r
    }

    /// The overrides as (monitor name, override) pairs, each name once.
    pub fn entries(&self) -> (r: &Vec<(String, MonitorGridConfig)>)
        ensures
            keys_distinct(r@),
            entries_map(r@) == self@,
    {
        proof {
            use_type_invariant(self);
        }
        &self.entries
    }

    /// Position of the entry named `key`, if any.
    fn find(&self, key: &String) -> (r: Option<usize>)
        ensures
            match r {
                Some(i) => i < self.entries@.len() && self.entries@[i as int].0@ == key@,
                None => !has_key(self.entries@, key@),
            },
    {
        let mut i: usize = 0;
        while i < self.entries.len()
            invariant
                i <= self.entries@.len(),
                forall|j: int| 0 <= j < i ==> (#[trigger] self.entries@[j]).0@ != key@,
            decreases self.entries@.len() - i,
        {
            if self.entries[i].0 == *key {
                return Some(i);
            }
            i = i + 1;
        }
        None
    }

    /// The override for monitor `key`, if there is one.
    pub fn get(&self, key: &str) -> (r: Option<MonitorGridConfig>)
        ensures
            r == (if self@.dom().contains(key@) { Some(self@[key@]) } else { None::<MonitorGridConfig> }),
    {
        proof {
            use_type_invariant(self);
        }
        let k = key.to_owned();
        match self.find(&k) {
            Some(i) => {
                proof {
                    lemma_entry_in_map(self.entries@, i as int);
                }
                Some(self.entries[i].1)
            },
            None => None,
        }
    }

    /// Sets the override for monitor `key`, returning the one it replaces.
    pub fn insert(&mut self, key: String, value: MonitorGridConfig) -> (r: Option<MonitorGridConfig>)
        ensures
            final(self)@ == old(self)@.insert(key@, value),
            r == (if old(self)@.dom().contains(key@) { Some(old(self)@[key@]) } else { None::<MonitorGridConfig> }),
    {
        proof {
            use_type_invariant(&*self);
        }
        let ghost old_e = self.entries@;
        match self.find(&key) {
            Some(i) => {
                proof {
                    lemma_entry_in_map(old_e, i as int);
                    lemma_entries_update(old_e, i as int, value);
                }
                let prev = self.entries[i].1;
                let mut e: Vec<(String, MonitorGridConfig)> = Vec::new();
                std::mem::swap(&mut e, &mut self.entries);
                e[i].1 = value;
                self.entries = e;
                Some(prev)
            },
            None => {
                proof {
                    lemma_entries_push(old_e, key, value);
                }
                let mut e: Vec<(String, MonitorGridConfig)> = Vec::new();
                std::mem::swap(&mut e, &mut self.entries);
                e.push((key, value));
                self.entries = e;
                None
            },
        }
    }
}

impl Clone for MonitorGridMap {
    fn clone(&self) -> (r: Self)
        ensures
            r@ == self@,
    {
        proof {
            use_type_invariant(self);
        }
        let mut e: Vec<(String, MonitorGridConfig)> = Vec::new();
        let mut i: usize = 0;
        while i < self.entries.len()
            invariant
                keys_distinct(self.entries@),
                i <= self.entries@.len(),
                e@.len() == i,
                forall|j: int| 0 <= j < i ==> (#[trigger] e@[j]).0@ == self.entries@[j].0@ && e@[j].1
                    == self.entries@[j].1,
            decreases self.entries@.len() - i,
        {
            let k = self.entries[i].0.clone();
            e.push((k, self.entries[i].1));
            i = i + 1;
        }
        proof {
            assert forall|a: int, b: int| 0 <= a < b < e@.len() implies (#[trigger] e@[a]).0@ != (
            #[trigger] e@[b]).0@ by {
                assert(self.entries@[a].0@ != self.entries@[b].0@);
            }
            assert forall|k: Seq<char>| has_key(e@, k) <==> has_key(self.entries@, k) by {
                if has_key(e@, k) {
                    let j = choose|j: int| 0 <= j < e@.len() && (#[trigger] e@[j]).0@ == k;
                    assert(self.entries@[j].0@ == k);
                }
                if has_key(self.entries@, k) {
                    let j = choose|j: int| 0 <= j < self.entries@.len() && (#[trigger] self.entries@[j]).0@ == k;
                    assert(e@[j].0@ == k);
                }
            }
            assert forall|k: Seq<char>| #[trigger] entries_map(e@).dom().contains(k) implies entries_map(e@)[k]
                == entries_map(self.entries@)[k] by {
                let j = choose|j: int| 0 <= j < e@.len() && (#[trigger] e@[j]).0@ == k;
                lemma_entry_in_map(e@, j);
                lemma_entry_in_map(self.entries@, j);
            }
            assert(entries_map(e@) =~= entries_map(self.entries@));
        }
        MonitorGridMap { entries: e }
    }
}

// ───────────────────────── configuration ─────────────────────────

/// The whole configuration.
#[derive(Debug, Clone)]
pub struct Config {
    /// Grid used on monitors without an override.
    pub grid: GridConfig,
    /// Grid overrides keyed by monitor name.
    pub monitor_grids: MonitorGridMap,
    /// Automatic placement rules.
    pub app_rules: Vec<AppRule>,
    /// Window classes never placed automatically (substring match).
    pub auto_place_exclude: Vec<String>,
    /// Grid overlay.
    pub overlay: OverlayConfig,
    /// Title-bar hiding.
    pub titlebar: TitlebarConfig,
}

/// The texts of a list of strings.
pub open spec fn strings_view(v: Seq<String>) -> Seq<Seq<char>> {
    v.map_values(|s: String| s@)
}

impl Default for Config {
    fn default() -> (r: Self)
        ensures
            r.grid.columns == 20,
            r.grid.rows == 12,
            r.monitor_grids@ == Map::<Seq<char>, MonitorGridConfig>::empty(),
            r.app_rules@.len() == 0,
            strings_view(r.auto_place_exclude@) == seq![
                "Shell_TrayWnd"@,
                "NotifyIconOverflowWindow"@,
                "tooltips_class32"@,
            ],
            r.overlay.enabled,
            r.overlay.color_argb == 0x4000_80FF,
            r.titlebar.hide_for_classes@.len() == 0,
    {
        let mut exclude: Vec<String> = Vec::new();
        exclude.push("Shell_TrayWnd".to_owned());
        exclude.push("NotifyIconOverflowWindow".to_owned());
        exclude.push("tooltips_class32".to_owned());
        let r = Config {
            grid: GridConfig::default(),
            monitor_grids: MonitorGridMap::new(),
            app_rules: Vec::new(),
            auto_place_exclude: exclude,
            overlay: OverlayConfig::default(),
            titlebar: TitlebarConfig::default(),
        };
        assert(strings_view(r.auto_place_exclude@) =~= seq![
            "Shell_TrayWnd"@,
            "NotifyIconOverflowWindow"@,
            "tooltips_class32"@,
        ]);
        r
    }
}

/// The grid for a monitor: its override where there is one, field by field,
/// and the common grid otherwise.
pub open spec fn grid_for(grid: GridConfig, overrides: Map<Seq<char>, MonitorGridConfig>, name: Seq<char>) -> GridConfig {
    if overrides.dom().contains(name) {
        GridConfig {
            columns: or_else_u32(overrides[name].columns, grid.columns),
            rows: or_else_u32(overrides[name].rows, grid.rows),
        }
    } else {
        grid
    }
}

/// Law: a monitor override replaces the common grid field by field. For a monitor with
/// an override, each field the override gives is used and each field it leaves out is
/// the same field of the common grid (columns from columns, rows from rows); a monitor
/// without an override gets the common grid.
pub proof fn lemma_grid_for_field_by_field(grid: GridConfig, overrides: Map<Seq<char>, MonitorGridConfig>, name: Seq<char>)
    ensures
        !overrides.dom().contains(name) ==> grid_for(grid, overrides, name) == grid,
        overrides.dom().contains(name) ==> {
            let m = overrides[name];
            let r = grid_for(grid, overrides, name);
            &&& (m.columns matches Some(c) ==> r.columns == c)
            &&& (m.columns is None ==> r.columns == grid.columns)
            &&& (m.rows matches Some(v) ==> r.rows == v)
            &&& (m.rows is None ==> r.rows == grid.rows)
        },
{
}

/// A rule captured for the same window: same executable (present) and same monitor.
pub open spec fn same_target(r: AppRule, rule: AppRule) -> bool {
    &&& r.exe_name is Some
    &&& opt_view(r.exe_name) == opt_view(rule.exe_name)
    &&& opt_view(r.monitor) == opt_view(rule.monitor)
}

/// Index of the first rule at or after `i` with the same target as `rule`, or -1.
pub open spec fn first_target_from(rules: Seq<AppRule>, rule: AppRule, i: int) -> int
    decreases rules.len() - i,
{
    if i < 0 || i >= rules.len() {
        -1
    } else if same_target(rules[i], rule) {
        i
    } else {
        first_target_from(rules, rule, i + 1)
    }
}

/// `rules` after upserting `rule`: the first rule with the same target takes over the
/// placement and class of `rule`; without one, `rule` is appended.
pub open spec fn upserted(rules: Seq<AppRule>, rule: AppRule) -> Seq<AppRule> {
    let k = first_target_from(rules, rule, 0);
    if k < 0 {
        rules.push(rule)
    } else {
        rules.update(
            k,
            AppRule {
                class_name: rule.class_name,
                col: rule.col,
                row: rule.row,
                col_span: rule.col_span,
                row_span: rule.row_span,
                ..rules[k]
            },
        )
    }
}

impl Config {
    /// Grid settings for the monitor named `device_name`: a monitor override replaces
    /// the common setting field by field.
    pub fn grid_for_monitor(&self, device_name: &str) -> (r: GridConfig)
        ensures
            r == grid_for(self.grid, self.monitor_grids@, device_name@),
    {
        match self.monitor_grids.get(device_name) {
            Some(m) => GridConfig {
                columns: match m.columns {
                    Some(c) => c,
                    None => self.grid.columns,
                },
                rows: match m.rows {
                    Some(r) => r,
                    None => self.grid.rows,
                },
            },
            None => GridConfig { columns: self.grid.columns, rows: self.grid.rows },
        }
    }

    /// Inserts `rule`, or updates the first rule for the same executable and monitor
    /// (its cells and class); a rule without executable is always appended.
    pub fn upsert_app_rule(&mut self, rule: AppRule)
        ensures
            final(self).app_rules@ == upserted(old(self).app_rules@, rule),
            final(self).grid == old(self).grid,
            final(self).monitor_grids@ == old(self).monitor_grids@,
            final(self).auto_place_exclude@ == old(self).auto_place_exclude@,
            final(self).overlay == old(self).overlay,
            final(self).titlebar.hide_for_classes@ == old(self).titlebar.hide_for_classes@,
    {
        let ghost rules = self.app_rules@;
        let mut i: usize = 0;
        while i < self.app_rules.len()
            invariant
                self.app_rules@ == rules,
                rules == old(self).app_rules@,
                self.grid == old(self).grid,
                self.monitor_grids@ == old(self).monitor_grids@,
                self.auto_place_exclude@ == old(self).auto_place_exclude@,
                self.overlay == old(self).overlay,
                self.titlebar.hide_for_classes@ == old(self).titlebar.hide_for_classes@,
                i <= rules.len(),
                first_target_from(rules, rule, 0) == first_target_from(rules, rule, i as int),
            decreases rules.len() - i,
        {
            if Self::targets_match(&self.app_rules[i], &rule) {
                let AppRule { monitor: _, class_name, exe_name: _, col, row, col_span, row_span } = rule;
                self.app_rules[i].col = col;
                self.app_rules[i].row = row;
                self.app_rules[i].col_span = col_span;
                self.app_rules[i].row_span = row_span;
                self.app_rules[i].class_name = class_name;
                proof {
                    assert(self.app_rules@ =~= upserted(rules, rule));
                }
                return;
            }
            i = i + 1;
        }
        self.app_rules.push(rule);
    }

    /// `existing` was captured for the same window as `rule`.
    fn targets_match(existing: &AppRule, rule: &AppRule) -> (r: bool)
        ensures
            r == same_target(*existing, *rule),
    {
        existing.exe_name.is_some() && opt_str_eq(&existing.exe_name, &rule.exe_name) && opt_str_eq(
            &existing.monitor,
            &rule.monitor,
        )
    }
}

/// `first_target_from` finds the first rule at or after `i` with the target of `rule`.
pub proof fn lemma_first_target(s: Seq<AppRule>, rule: AppRule, i: int)
    requires
        0 <= i <= s.len(),
    ensures
        first_target_from(s, rule, i) == -1 || (i <= first_target_from(s, rule, i) < s.len()
            && same_target(s[first_target_from(s, rule, i)], rule)),
        forall|j: int|
            i <= j < s.len() && (first_target_from(s, rule, i) == -1 || j < first_target_from(s, rule, i))
                ==> !same_target(#[trigger] s[j], rule),
    decreases s.len() - i,
{
    if i < s.len() && !same_target(s[i], rule) {
        lemma_first_target(s, rule, i + 1);
    }
}

/// A rule with the target of `rule`, preceded by none, is the first one.
proof fn lemma_first_target_is(s: Seq<AppRule>, rule: AppRule, k: int)
    requires
        0 <= k < s.len(),
        same_target(s[k], rule),
        forall|j: int| 0 <= j < k ==> !same_target(#[trigger] s[j], rule),
    ensures
        first_target_from(s, rule, 0) == k,
{
    lemma_first_target(s, rule, 0);
}

/// After an upsert of a rule with an executable, the first rule for that executable
/// and monitor carries the new cells and class; every other rule is kept, and the list
/// grows by one only when no rule had that target before.
pub proof fn lemma_upsert_places_rule(rules: Seq<AppRule>, rule: AppRule)
    requires
        rule.exe_name is Some,
    ensures
        ({
            let r = upserted(rules, rule);
            let k = first_target_from(r, rule, 0);
            &&& 0 <= k < r.len()
            &&& opt_view(r[k].exe_name) == opt_view(rule.exe_name)
            &&& opt_view(r[k].monitor) == opt_view(rule.monitor)
            &&& r[k].class_name == rule.class_name
            &&& r[k].col == rule.col
            &&& r[k].row == rule.row
            &&& r[k].col_span == rule.col_span
            &&& r[k].row_span == rule.row_span
            &&& r.len() == rules.len() + (if first_target_from(rules, rule, 0) < 0 { 1int } else { 0int })
            &&& forall|j: int| 0 <= j < rules.len() && j != k ==> #[trigger] r[j] == rules[j]
        }),
{
    lemma_first_target(rules, rule, 0);
    let k0 = first_target_from(rules, rule, 0);
    let r = upserted(rules, rule);
    if k0 < 0 {
        assert forall|j: int| 0 <= j < rules.len() implies !same_target(#[trigger] r[j], rule) by {
            assert(r[j] == rules[j]);
        }
        lemma_first_target_is(r, rule, rules.len() as int);
    } else {
        assert forall|j: int| 0 <= j < k0 implies !same_target(#[trigger] r[j], rule) by {
            assert(r[j] == rules[j]);
        }
        lemma_first_target_is(r, rule, k0);
    }
}

/// Upserting the same rule (with an executable) twice is the same as upserting it once.
pub proof fn lemma_upsert_idempotent(rules: Seq<AppRule>, rule: AppRule)
    requires
        rule.exe_name is Some,
    ensures
        upserted(upserted(rules, rule), rule) == upserted(rules, rule),
{
    lemma_upsert_places_rule(rules, rule);
    lemma_first_target(rules, rule, 0);
    let r = upserted(rules, rule);
    let k = first_target_from(r, rule, 0);
    let r2 = upserted(r, rule);
    assert(r2[k] == r[k]);
    assert(r2 =~= r);
}

/// Equality of optional strings by their text.
fn opt_str_eq(a: &Option<String>, b: &Option<String>) -> (r: bool)
    ensures
        r == (opt_view(*a) == opt_view(*b)),
{
    match (a, b) {
        (Some(x), Some(y)) => *x == *y,
        (None, None) => true,
        _ => false,
    }
}

/// Replacing the value of entry `i` keeps the names distinct and updates the map there.
proof fn lemma_entries_update(e: Seq<(String, MonitorGridConfig)>, i: int, v: MonitorGridConfig)
    requires
        keys_distinct(e),
        0 <= i < e.len(),
    ensures
        keys_distinct(e.update(i, (e[i].0, v))),
        entries_map(e.update(i, (e[i].0, v))) == entries_map(e).insert(e[i].0@, v),
{
    let e2 = e.update(i, (e[i].0, v));
    assert forall|a: int, b: int| 0 <= a < b < e2.len() implies (#[trigger] e2[a]).0@ != (#[trigger] e2[b]).0@ by {
        assert(e[a].0@ != e[b].0@);
    }
    let m2 = entries_map(e2);
    let m1 = entries_map(e).insert(e[i].0@, v);
    assert forall|k: Seq<char>| m2.dom().contains(k) <==> m1.dom().contains(k) by {
        if has_key(e, k) {
            let j = choose|j: int| 0 <= j < e.len() && (#[trigger] e[j]).0@ == k;
            assert(e2[j].0@ == k);
        }
        if has_key(e2, k) {
            let j = choose|j: int| 0 <= j < e2.len() && (#[trigger] e2[j]).0@ == k;
            assert(e[j].0@ == k);
        }
        assert(e2[i].0@ == e[i].0@);
    }
    assert forall|k: Seq<char>| m2.dom().contains(k) implies m2[k] == m1[k] by {
        let j = choose|j: int| 0 <= j < e2.len() && (#[trigger] e2[j]).0@ == k;
        lemma_entry_in_map(e2, j);
        if j != i {
            lemma_entry_in_map(e, j);
        }
    }
    assert(m2 =~= m1);
}

/// Appending an entry under a new name keeps the names distinct and adds it to the map.
proof fn lemma_entries_push(e: Seq<(String, MonitorGridConfig)>, k: String, v: MonitorGridConfig)
    requires
        keys_distinct(e),
        !has_key(e, k@),
    ensures
        keys_distinct(e.push((k, v))),
        entries_map(e.push((k, v))) == entries_map(e).insert(k@, v),
{
    let e2 = e.push((k, v));
    assert forall|a: int, b: int| 0 <= a < b < e2.len() implies (#[trigger] e2[a]).0@ != (#[trigger] e2[b]).0@ by {
        if b == e.len() {
            assert(e[a].0@ != k@);
        } else {
            assert(e[a].0@ != e[b].0@);
        }
    }
    let m2 = entries_map(e2);
    let m1 = entries_map(e).insert(k@, v);
    assert forall|q: Seq<char>| m2.dom().contains(q) <==> m1.dom().contains(q) by {
        if has_key(e, q) {
            let j = choose|j: int| 0 <= j < e.len() && (#[trigger] e[j]).0@ == q;
            assert(e2[j].0@ == q);
        }
        if has_key(e2, q) {
            let j = choose|j: int| 0 <= j < e2.len() && (#[trigger] e2[j]).0@ == q;
            if j < e.len() {
                assert(e[j].0@ == q);
            }
        }
        assert(e2[e.len() as int].0@ == k@);
    }
    assert forall|q: Seq<char>| m2.dom().contains(q) implies m2[q] == m1[q] by {
        let j = choose|j: int| 0 <= j < e2.len() && (#[trigger] e2[j]).0@ == q;
        lemma_entry_in_map(e2, j);
        if j < e.len() {
            lemma_entry_in_map(e, j);
        }
    }
    assert(m2 =~= m1);
}

} // verus!
