//! Automatic placement of new windows: which windows are candidates, which rule
//! applies to a window, and the queue of placements waiting for their window.

use vstd::prelude::*;
use crate::config::{AppRule, Config, strings_view, upserted, lemma_upsert_places_rule, first_target_from};
use crate::snap::WinRect;
use crate::text::{seq_contains, str_contains, lemma_contains_self};

verus! {

/// Window style bits (`GWL_STYLE` / `GWL_EXSTYLE` values of the Win32 API).
pub const WS_POPUP: u32 = 0x8000_0000;
pub const WS_CAPTION: u32 = 0x00C0_0000;
pub const WS_EX_TOOLWINDOW: u32 = 0x0000_0080;
pub const WS_EX_NOACTIVATE: u32 = 0x0800_0000;

/// Windows smaller than this (either way) are not placed.
pub const MIN_PLACE_SIZE: i32 = 100;

/// What the placement filter looks at in a newly shown window.
#[derive(Debug, Clone)]
pub struct WindowTraits {
    /// The window is visible.
    pub visible: bool,
    /// `GWL_STYLE` bits.
    pub style: u32,
    /// `GWL_EXSTYLE` bits.
    pub ex_style: u32,
    /// Window class name.
    pub class_name: String,
    /// Outer rectangle, when it could be read.
    pub rect: Option<WinRect>,
}

/// The class is one that is never placed: menus, tooltips, common dialogs,
/// UWP / WinUI frames, or a class listed in `exclude` (substring).
pub open spec fn class_excluded(class: Seq<char>, exclude: Seq<Seq<char>>) -> bool {
    ||| class == "#32768"@
    ||| class == "tooltips_class32"@
    ||| class == "#32770"@
    ||| seq_contains(class, "ApplicationFrameWindow"@)
    ||| seq_contains(class, "Windows.UI.Core.CoreWindow"@)
    ||| exists|i: int| 0 <= i < exclude.len() && seq_contains(class, #[trigger] exclude[i])
}

/// A newly shown window is placed automatically when it is visible, neither a tool
/// window nor a no-activate window, not a caption-less popup, of a class that is not
/// excluded, and (when its rectangle is known) at least 100 x 100 pixels.
pub open spec fn spec_is_target_window(w: WindowTraits, exclude: Seq<Seq<char>>) -> bool {
    &&& w.visible
    &&& w.ex_style & WS_EX_TOOLWINDOW == 0
    &&& w.ex_style & WS_EX_NOACTIVATE == 0
    &&& !(w.style & WS_POPUP != 0 && w.style & WS_CAPTION == 0)
    &&& !class_excluded(w.class_name@, exclude)
    &&& match w.rect {
        Some(r) => r.right - r.left >= MIN_PLACE_SIZE && r.bottom - r.top >= MIN_PLACE_SIZE,
        None => true,
    }
}

/// Computing the window size does not overflow.
pub open spec fn traits_ok(w: WindowTraits) -> bool {
    match w.rect {
        Some(r) => i32::MIN <= r.right - r.left <= i32::MAX && i32::MIN <= r.bottom - r.top <= i32::MAX,
        None => true,
    }
}

/// Whether two strings have the same text.
pub fn str_eq(a: &str, b: &str) -> (r: bool)
    ensures
        r == (a@ == b@),
{
    let x = a.to_owned();
    let y = b.to_owned();
    x == y
}

/// Whether a newly shown window is a candidate for automatic placement.
pub fn is_target_window(w: &WindowTraits, config: &Config) -> (r: bool)
    requires
        traits_ok(*w),
    ensures
        r == spec_is_target_window(*w, strings_view(config.auto_place_exclude@)),
{
    if !w.visible {
        return false;
    }
    if (w.ex_style & WS_EX_TOOLWINDOW) != 0 {
        return false;
    }
    if (w.ex_style & WS_EX_NOACTIVATE) != 0 {
        return false;
    }
    if (w.style & WS_POPUP) != 0 && (w.style & WS_CAPTION) == 0 {
        return false;
    }
    let class_name = w.class_name.as_str();
    if str_eq(class_name, "#32768") || str_eq(class_name, "tooltips_class32") || str_eq(class_name, "#32770") {
        return false;
    }
    if str_contains(class_name, "ApplicationFrameWindow") || str_contains(class_name, "Windows.UI.Core.CoreWindow") {
        return false;
    }
    let ghost ex = strings_view(config.auto_place_exclude@);
    let mut i: usize = 0;
    while i < config.auto_place_exclude.len()
        invariant
            ex == strings_view(config.auto_place_exclude@),
            i <= ex.len(),
            class_name@ == w.class_name@,
            forall|j: int| 0 <= j < i ==> !seq_contains(class_name@, #[trigger] ex[j]),
        decreases ex.len() - i,
    {
        if str_contains(class_name, config.auto_place_exclude[i].as_str()) {
            assert(seq_contains(w.class_name@, ex[i as int]));
            return false;
        }
        i = i + 1;
    }
    match w.rect {
        Some(rect) => {
            let width = rect.right - rect.left;
            let height = rect.bottom - rect.top;
            width >= MIN_PLACE_SIZE && height >= MIN_PLACE_SIZE
        },
        None => true,
    }
}

/// Law: every entry of the exclusion list counts, the last one included: a window whose
/// class name holds the entry at index `i` (as a run of characters starting at `p`) is
/// never a target for automatic placement, whatever its other traits.
pub proof fn lemma_excluded_class_not_target(w: WindowTraits, exclude: Seq<Seq<char>>, i: int, p: int)
    requires
        0 <= i < exclude.len(),
        0 <= p,
        p + exclude[i].len() <= w.class_name@.len(),
        w.class_name@.subrange(p, p + exclude[i].len()) == exclude[i],
    ensures
        !spec_is_target_window(w, exclude),
{
    assert(seq_contains(w.class_name@, exclude[i]));
}

// ───────────────────────── rule lookup ─────────────────────────

/// The rule's class and executable patterns (each optional) occur in the window's.
pub open spec fn rule_app_matches(r: AppRule, class: Seq<char>, exe: Seq<char>) -> bool {
    &&& match r.class_name {
        Some(c) => seq_contains(class, c@),
        None => true,
    }
    &&& match r.exe_name {
        Some(e) => seq_contains(exe, e@),
        None => true,
    }
}

/// A monitor-specific rule whose monitor pattern occurs in `device` and which matches the window.
pub open spec fn monitor_rule_matches(r: AppRule, class: Seq<char>, exe: Seq<char>, device: Seq<char>) -> bool {
    &&& r.monitor matches Some(m) && seq_contains(device, m@)
    &&& rule_app_matches(r, class, exe)
}

/// A rule for every monitor that matches the window.
pub open spec fn common_rule_matches(r: AppRule, class: Seq<char>, exe: Seq<char>) -> bool {
    &&& r.monitor is None
    &&& rule_app_matches(r, class, exe)
}

/// `k` is the rule picked for the window: the first matching monitor-specific rule, or,
/// when there is none, the first matching rule for every monitor.
pub open spec fn is_picked_rule(rules: Seq<AppRule>, class: Seq<char>, exe: Seq<char>, device: Seq<char>, k: int) -> bool {
    &&& 0 <= k < rules.len()
    &&& {
        ||| monitor_rule_matches(rules[k], class, exe, device)
            && forall|j: int| 0 <= j < k ==> !monitor_rule_matches(#[trigger] rules[j], class, exe, device)
        ||| (forall|j: int| 0 <= j < rules.len() ==> !monitor_rule_matches(#[trigger] rules[j], class, exe, device))
            && common_rule_matches(rules[k], class, exe)
            && forall|j: int| 0 <= j < k ==> !common_rule_matches(#[trigger] rules[j], class, exe)
    }
}

/// No rule applies to the window.
pub open spec fn no_rule_matches(rules: Seq<AppRule>, class: Seq<char>, exe: Seq<char>, device: Seq<char>) -> bool {
    forall|j: int| 0 <= j < rules.len() ==> !monitor_rule_matches(#[trigger] rules[j], class, exe, device)
        && !common_rule_matches(rules[j], class, exe)
}

fn opt_contains(hay: &str, pat: &Option<String>) -> (r: bool)
    ensures
        r == match *pat {
            Some(p) => seq_contains(hay@, p@),
            None => true,
        },
{
    match pat {
        Some(p) => str_contains(hay, p.as_str()),
        None => true,
    }
}

fn app_matches(r: &AppRule, class_name: &str, exe_name: &str) -> (b: bool)
    ensures
        b == rule_app_matches(*r, class_name@, exe_name@),
{
    opt_contains(class_name, &r.class_name) && opt_contains(exe_name, &r.exe_name)
}

impl Config {
    /// Index of the rule that places a window of class `class_name` from executable
    /// `exe_name` on monitor `device_name`: monitor-specific rules first, then rules
    /// for every monitor, the first match winning in each pass.
    pub fn find_app_rule(&self, class_name: &str, exe_name: &str, device_name: &str) -> (r: Option<usize>)
        ensures
            match r {
                Some(k) => is_picked_rule(self.app_rules@, class_name@, exe_name@, device_name@, k as int),
                None => no_rule_matches(self.app_rules@, class_name@, exe_name@, device_name@),
            },
    {
        let ghost rules = self.app_rules@;
        let mut i: usize = 0;
        while i < self.app_rules.len()
            invariant
                rules == self.app_rules@,
                i <= rules.len(),
                forall|j: int| 0 <= j < i ==> !monitor_rule_matches(#[trigger] rules[j], class_name@, exe_name@, device_name@),
            decreases rules.len() - i,
        {
            let rule = &self.app_rules[i];
            if let Some(mon) = &rule.monitor {
                if str_contains(device_name, mon.as_str()) && app_matches(rule, class_name, exe_name) {
                    return Some(i);
                }
            }
            i = i + 1;
        }
        let mut i: usize = 0;
        while i < self.app_rules.len()
            invariant
                rules == self.app_rules@,
                i <= rules.len(),
                forall|j: int| 0 <= j < rules.len() ==> !monitor_rule_matches(#[trigger] rules[j], class_name@, exe_name@, device_name@),
                forall|j: int| 0 <= j < i ==> !common_rule_matches(#[trigger] rules[j], class_name@, exe_name@),
            decreases rules.len() - i,
        {
            let rule = &self.app_rules[i];
            if rule.monitor.is_none() && app_matches(rule, class_name, exe_name) {
                return Some(i);
            }
            i = i + 1;
        }
        None
    }
}

/// Law: patterns match by substring. A rule for every monitor whose class pattern (if
/// any) occurs in the window's class name as a run of characters (at `pc`) and whose
/// executable pattern (if any) occurs in the executable name (at `pe`) makes the lookup
/// find a rule; when no monitor-specific rule and no earlier rule for every monitor
/// matches, it is the rule picked.
pub proof fn lemma_substring_rule_found(rules: Seq<AppRule>, class: Seq<char>, exe: Seq<char>, device: Seq<char>, k: int, pc: int, pe: int)
    requires
        0 <= k < rules.len(),
        rules[k].monitor is None,
        rules[k].class_name matches Some(c) ==> 0 <= pc && pc + c@.len() <= class.len()
            && class.subrange(pc, pc + c@.len()) == c@,
        rules[k].exe_name matches Some(e) ==> 0 <= pe && pe + e@.len() <= exe.len()
            && exe.subrange(pe, pe + e@.len()) == e@,
    ensures
        !no_rule_matches(rules, class, exe, device),
        ((forall|j: int| 0 <= j < rules.len() ==> !monitor_rule_matches(#[trigger] rules[j], class, exe, device))
            && (forall|j: int| 0 <= j < k ==> !common_rule_matches(#[trigger] rules[j], class, exe)))
            ==> is_picked_rule(rules, class, exe, device, k),
{
    let r = rules[k];
    if let Some(c) = r.class_name {
        assert(class.subrange(pc, pc + c@.len()) == c@);
        assert(seq_contains(class, c@));
    }
    if let Some(e) = r.exe_name {
        assert(exe.subrange(pe, pe + e@.len()) == e@);
        assert(seq_contains(exe, e@));
    }
    assert(common_rule_matches(rules[k], class, exe));
}

// ───────────────────────── lookup by application name ─────────────────────────

/// The lowercase form of a text, as `str::to_lowercase` computes it.
pub uninterp spec fn lowercase_of(s: Seq<char>) -> Seq<char>;

/// Calls `str::to_lowercase`. Trusted to return `lowercase_of` of the text: the result
/// depends on the text alone. The Unicode case mapping itself is not stated.
#[verifier::external_body]
fn to_lowercase(s: &str) -> (r: String)
    ensures
        r@ == lowercase_of(s@),
{
    s.to_lowercase()
}

/// An application name and a rule's executable pattern (both already lowercase) are
/// related when either occurs in the other.
pub open spec fn names_related(name: Seq<char>, exe: Seq<char>) -> bool {
    seq_contains(name, exe) || seq_contains(exe, name)
}

/// Whether a lowercase application name and a lowercase executable pattern are related.
pub fn app_names_match(name_lower: &str, exe_lower: &str) -> (r: bool)
    ensures
        r == names_related(name_lower@, exe_lower@),
{
    str_contains(name_lower, exe_lower) || str_contains(exe_lower, name_lower)
}

/// The rule names an executable related to the application, ignoring case.
pub open spec fn rule_names_app(r: AppRule, app: Seq<char>) -> bool {
    r.exe_name matches Some(e) && names_related(lowercase_of(app), lowercase_of(e@))
}

/// A monitor-specific rule for monitor `key` that names the application.
pub open spec fn monitor_rule_names_app(r: AppRule, key: Seq<char>, app: Seq<char>) -> bool {
    &&& r.monitor matches Some(m) && seq_contains(key, m@)
    &&& rule_names_app(r, app)
}

/// A rule for every monitor that names the application.
pub open spec fn common_rule_names_app(r: AppRule, app: Seq<char>) -> bool {
    &&& r.monitor is None
    &&& rule_names_app(r, app)
}

/// `k` is the rule picked for the application: the first matching monitor-specific
/// rule, or, when there is none, the first matching rule for every monitor.
pub open spec fn is_picked_by_name(rules: Seq<AppRule>, key: Seq<char>, app: Seq<char>, k: int) -> bool {
    &&& 0 <= k < rules.len()
    &&& {
        ||| monitor_rule_names_app(rules[k], key, app)
            && forall|j: int| 0 <= j < k ==> !monitor_rule_names_app(#[trigger] rules[j], key, app)
        ||| (forall|j: int| 0 <= j < rules.len() ==> !monitor_rule_names_app(#[trigger] rules[j], key, app))
            && common_rule_names_app(rules[k], app)
            && forall|j: int| 0 <= j < k ==> !common_rule_names_app(#[trigger] rules[j], app)
    }
}

fn names_app(r: &AppRule, app_lower: &String, Ghost(app): Ghost<Seq<char>>) -> (b: bool)
    requires
        app_lower@ == lowercase_of(app),
    ensures
        b == rule_names_app(*r, app),
{
    match &r.exe_name {
        Some(e) => {
            let exe_lower = to_lowercase(e.as_str());
            app_names_match(app_lower.as_str(), exe_lower.as_str())
        },
        None => false,
    }
}

impl Config {
    /// Index of the rule that places application `app_name` on the monitor keyed
    /// `monitor_key`, matching executable patterns to the name either way and ignoring
    /// case: monitor-specific rules first, then rules for every monitor.
    pub fn find_app_rule_by_name(&self, monitor_key: &str, app_name: &str) -> (r: Option<usize>)
        ensures
            match r {
                Some(k) => is_picked_by_name(self.app_rules@, monitor_key@, app_name@, k as int),
                None => forall|j: int| 0 <= j < self.app_rules@.len() ==> !monitor_rule_names_app(
                    #[trigger] self.app_rules@[j],
                    monitor_key@,
                    app_name@,
                ) && !common_rule_names_app(self.app_rules@[j], app_name@),
            },
    {
        let app_lower = to_lowercase(app_name);
        let ghost rules = self.app_rules@;
        let mut i: usize = 0;
        while i < self.app_rules.len()
            invariant
                rules == self.app_rules@,
                app_lower@ == lowercase_of(app_name@),
                i <= rules.len(),
                forall|j: int| 0 <= j < i ==> !monitor_rule_names_app(#[trigger] rules[j], monitor_key@, app_name@),
            decreases rules.len() - i,
        {
            let rule = &self.app_rules[i];
            if let Some(mon) = &rule.monitor {
                if str_contains(monitor_key, mon.as_str()) && names_app(rule, &app_lower, Ghost(app_name@)) {
                    return Some(i);
                }
            }
            i = i + 1;
        }
        let mut i: usize = 0;
        while i < self.app_rules.len()
            invariant
                rules == self.app_rules@,
                app_lower@ == lowercase_of(app_name@),
                i <= rules.len(),
                forall|j: int| 0 <= j < rules.len() ==> !monitor_rule_names_app(#[trigger] rules[j], monitor_key@, app_name@),
                forall|j: int| 0 <= j < i ==> !common_rule_names_app(#[trigger] rules[j], app_name@),
            decreases rules.len() - i,
        {
            let rule = &self.app_rules[i];
            if rule.monitor.is_none() && names_app(rule, &app_lower, Ghost(app_name@)) {
                return Some(i);
            }
            i = i + 1;
        }
        None
    }
}

// ───────────────────────── capture then place ─────────────────────────

/// A captured position is applied to later windows of that application: after a rule
/// for executable `exe` on monitor `device` (without a class) is upserted, a window of
/// any class from that executable, shown on that monitor, has a rule that applies, and
/// on macOS the application of that name has one too.
pub proof fn lemma_captured_rule_applies(rules: Seq<AppRule>, rule: AppRule, class: Seq<char>)
    requires
        rule.exe_name is Some,
        rule.monitor is Some,
        rule.class_name is None,
    ensures
        !no_rule_matches(upserted(rules, rule), class, rule.exe_name->0@, rule.monitor->0@),
        exists|j: int| 0 <= j < upserted(rules, rule).len()
            && #[trigger] monitor_rule_names_app(upserted(rules, rule)[j], rule.monitor->0@, rule.exe_name->0@),
{
    lemma_upsert_places_rule(rules, rule);
    let r = upserted(rules, rule);
    let k = first_target_from(r, rule, 0);
    let exe = rule.exe_name->0@;
    let dev = rule.monitor->0@;
    lemma_contains_self(exe);
    lemma_contains_self(dev);
    lemma_contains_self(lowercase_of(exe));
    assert(r[k].exe_name->0@ == exe);
    assert(r[k].monitor->0@ == dev);
    assert(monitor_rule_matches(r[k], class, exe, dev));
    assert(monitor_rule_names_app(r[k], dev, exe));
}

// ───────────────────────── deferred placements ─────────────────────────

/// A placement waiting until its window is ready to be moved.
#[derive(Debug, Clone)]
pub struct DeferredPlacement {
    /// Window handle (raw value).
    pub hwnd: isize,
    /// Rule to apply.
    pub rule: AppRule,
    /// Monitor the window appeared on.
    pub device_name: String,
}

/// Takes the first queued placement for window `hwnd` out of the queue.
pub fn take_deferred(queue: &mut Vec<DeferredPlacement>, hwnd: isize) -> (r: Option<DeferredPlacement>)
    ensures
        match r {
            Some(d) => exists|k: int|
                0 <= k < old(queue)@.len() && #[trigger] old(queue)@[k].hwnd == hwnd
                    && (forall|j: int| 0 <= j < k ==> (#[trigger] old(queue)@[j]).hwnd != hwnd)
                    && d == old(queue)@[k] && final(queue)@ == old(queue)@.remove(k),
            None => (forall|j: int| 0 <= j < old(queue)@.len() ==> (#[trigger] old(queue)@[j]).hwnd != hwnd)
                && final(queue)@ == old(queue)@,
        },
{
    let mut i: usize = 0;
    while i < queue.len()
        invariant
            queue@ == old(queue)@,
            i <= queue@.len(),
            forall|j: int| 0 <= j < i ==> (#[trigger] queue@[j]).hwnd != hwnd,
        decreases queue@.len() - i,
    {
        if queue[i].hwnd == hwnd {
            let d = queue.remove(i);
            return Some(d);
        }
        i = i + 1;
    }
    None
}

} // verus!
