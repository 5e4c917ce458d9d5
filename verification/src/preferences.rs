//! Desktop preferences: theme and task choices, where the preference files live, how the saved
//! theme and the KDE color scheme are read, and the zoom steps.

use vstd::prelude::*;
use crate::text::{
    ascii_lowercase, char_vec, chars_contain, chars_eq, chars_lowercase, chars_skip, chars_start_with,
    chars_trim, chars_trim_start, concat2, concat3, contains_text, decimal, decimal_string, eq_ignore_case, has_prefix,
    join_path, lines, path_join, split_lines, str_eq, trim, trim_start, TrimSet,
};

verus! {

broadcast use vstd::string::group_string_axioms;

/// The color theme of the desktop window.
#[derive(Clone, Copy, Debug, PartialEq, Eq, Structural)]
pub enum ThemeMode {
    System,
    Light,
    Dark,
}

impl Default for ThemeMode {
    fn default() -> (r: ThemeMode)
        ensures
            r == ThemeMode::System,
    {
        ThemeMode::System
    }
}

/// The value the window uses for a theme.
pub open spec fn theme_ui_value(t: ThemeMode) -> Seq<char> {
    match t {
        ThemeMode::System => "system"@,
        ThemeMode::Light => "light"@,
        ThemeMode::Dark => "dark"@,
    }
}

/// The theme that a window value names.
pub open spec fn spec_theme(value: Seq<char>) -> Option<ThemeMode> {
    if value == "system"@ {
        Some(ThemeMode::System)
    } else if value == "light"@ {
        Some(ThemeMode::Light)
    } else if value == "dark"@ {
        Some(ThemeMode::Dark)
    } else {
        None
    }
}

impl ThemeMode {
    /// The window value of this theme.
    pub fn as_ui_value(self) -> (r: &'static str)
        ensures
            r@ == theme_ui_value(self),
    {
        match self {
            ThemeMode::System => "system",
            ThemeMode::Light => "light",
            ThemeMode::Dark => "dark",
        }
    }

    /// Parses `system`, `light` or `dark`.
    pub fn parse_ui_value(value: &str) -> (r: Option<ThemeMode>)
        ensures
            r == spec_theme(value@),
    {
        if str_eq(value, "system") {
            Some(ThemeMode::System)
        } else if str_eq(value, "light") {
            Some(ThemeMode::Light)
        } else if str_eq(value, "dark") {
            Some(ThemeMode::Dark)
        } else {
            None
        }
    }
}

/// The task tab of the desktop window.
#[derive(Clone, Copy, Debug, PartialEq, Eq, Structural)]
pub enum TaskMode {
    Create,
    Mount,
    Unmount,
}

impl Default for TaskMode {
    fn default() -> (r: TaskMode)
        ensures
            r == TaskMode::Create,
    {
        TaskMode::Create
    }
}

/// The value the window uses for a task.
pub open spec fn task_ui_value(t: TaskMode) -> Seq<char> {
    match t {
        TaskMode::Create => "create"@,
        TaskMode::Mount => "mount"@,
        TaskMode::Unmount => "unmount"@,
    }
}

/// The task that a window value names.
pub open spec fn spec_task(value: Seq<char>) -> Option<TaskMode> {
    if value == "create"@ {
        Some(TaskMode::Create)
    } else if value == "mount"@ {
        Some(TaskMode::Mount)
    } else if value == "unmount"@ {
        Some(TaskMode::Unmount)
    } else {
        None
    }
}

impl TaskMode {
    /// The value the window uses for a task.
    pub fn as_ui_value(self) -> (r: &'static str)
        ensures
            r@ == task_ui_value(self),
    {
        match self {
            TaskMode::Create => "create",
            TaskMode::Mount => "mount",
            TaskMode::Unmount => "unmount",
        }
    }

    /// Parses `create`, `mount` or `unmount`.
    pub fn parse_ui_value(value: &str) -> (r: Option<TaskMode>)
        ensures
            r == spec_task(value@),
    {
        if str_eq(value, "create") {
            Some(TaskMode::Create)
        } else if str_eq(value, "mount") {
            Some(TaskMode::Mount)
        } else if str_eq(value, "unmount") {
            Some(TaskMode::Unmount)
        } else {
            None
        }
    }
}

/// Parsing the window value of a theme gives the theme back.
pub proof fn theme_ui_value_round_trip(t: ThemeMode)
    ensures
        spec_theme(theme_ui_value(t)) == Some(t),
{
    reveal_strlit("system");
    reveal_strlit("light");
    reveal_strlit("dark");
    assert("light"@.len() != "system"@.len());
    assert("dark"@.len() != "system"@.len());
    assert("dark"@.len() != "light"@.len());
}

/// Parsing the window value of a task gives the task back.
pub proof fn task_ui_value_round_trip(t: TaskMode)
    ensures
        spec_task(task_ui_value(t)) == Some(t),
{
    reveal_strlit("create");
    reveal_strlit("mount");
    reveal_strlit("unmount");
    assert("mount"@.len() != "create"@.len());
    assert("unmount"@.len() != "create"@.len());
    assert("unmount"@.len() != "mount"@.len());
}

/// A window value that parses as a theme or task is that theme's or task's value.
pub proof fn ui_value_parse_is_value(value: Seq<char>)
    ensures
        spec_theme(value) matches Some(t) ==> theme_ui_value(t) == value,
        spec_task(value) matches Some(t) ==> task_ui_value(t) == value,
{
}

pub const PREFERENCES_FILE: &'static str = "desktop-ui.json";

/// Where the desktop preferences live: under `$XDG_CONFIG_HOME/lurker` when that is set,
/// under `$HOME/.config/lurker` otherwise, and nowhere when neither is set.
pub open spec fn spec_preferences_path(config_home: Option<Seq<char>>, home: Option<Seq<char>>) -> Option<Seq<char>> {
    match config_home {
        Some(c) => Some(path_join(path_join(c, "lurker"@), PREFERENCES_FILE@)),
        None => match home {
            Some(h) => Some(path_join(path_join(path_join(h, ".config"@), "lurker"@), PREFERENCES_FILE@)),
            None => None,
        },
    }
}

/// The preferences file for the given `XDG_CONFIG_HOME` and `HOME` values.
pub fn resolve_preferences_path(config_home: Option<String>, home: Option<String>) -> (r: Option<String>)
    ensures
        crate::api::opt_text(r) == spec_preferences_path(crate::api::opt_text(config_home), crate::api::opt_text(home)),
{
    match config_home {
        Some(c) => {
            let dir = join_path(c.as_str(), "lurker");
            Some(join_path(dir.as_str(), PREFERENCES_FILE))
        },
        None => match home {
            Some(h) => {
                let config = join_path(h.as_str(), ".config");
                let dir = join_path(config.as_str(), "lurker");
                Some(join_path(dir.as_str(), PREFERENCES_FILE))
            },
            None => None,
        },
    }
}

/// The desktop configuration directory: `$XDG_CONFIG_HOME/lurker`, else `$HOME/.config/lurker`.
pub open spec fn spec_config_dir(config_home: Option<Seq<char>>, home: Option<Seq<char>>) -> Option<Seq<char>> {
    match config_home {
        Some(c) => Some(path_join(c, "lurker"@)),
        None => match home {
            Some(h) => Some(path_join(path_join(h, ".config"@), "lurker"@)),
            None => None,
        },
    }
}

/// The desktop configuration directory for the given `XDG_CONFIG_HOME` and `HOME` values.
pub fn config_dir(config_home: Option<String>, home: Option<String>) -> (r: Option<String>)
    ensures
        crate::api::opt_text(r) == spec_config_dir(crate::api::opt_text(config_home), crate::api::opt_text(home)),
{
    match config_home {
        Some(c) => Some(join_path(c.as_str(), "lurker")),
        None => match home {
            Some(h) => {
                let config = join_path(h.as_str(), ".config");
                Some(join_path(config.as_str(), "lurker"))
            },
            None => None,
        },
    }
}

/// The file that keeps the saved theme choice.
pub fn theme_config_path(config_home: Option<String>, home: Option<String>) -> (r: Option<String>)
    ensures
        crate::api::opt_text(r) == match spec_config_dir(crate::api::opt_text(config_home), crate::api::opt_text(home)) {
            Some(d) => Some(path_join(d, "ui.toml"@)),
            None => None,
        },
{
    match config_dir(config_home, home) {
        Some(dir) => Some(join_path(dir.as_str(), "ui.toml")),
        None => None,
    }
}

/// The contents written for a saved theme choice.
pub fn theme_preference_text(dark: bool) -> (r: String)
    ensures
        r@ == "dark = "@ + (if dark { "true"@ } else { "false"@ }) + "\n"@,
{
    if dark {
        concat3("dark = ", "true", "\n")
    } else {
        concat3("dark = ", "false", "\n")
    }
}

/// The boolean that `str::parse::<bool>` reads.
pub open spec fn parse_bool(s: Seq<char>) -> Option<bool> {
    if s == "true"@ {
        Some(true)
    } else if s == "false"@ {
        Some(false)
    } else {
        None
    }
}

fn parse_bool_exec(s: &Vec<char>) -> (r: Option<bool>)
    ensures
        r == parse_bool(s@),
{
    let t = char_vec("true");
    let f = char_vec("false");
    if chars_eq(s, &t) {
        Some(true)
    } else if chars_eq(s, &f) {
        Some(false)
    } else {
        None
    }
}

/// The saved theme choice in the given lines: the first line that starts with `dark` (after
/// trimming) decides, its value being what follows `dark`, spaces and `=` skipped.
pub open spec fn saved_theme_in(lines: Seq<Seq<char>>) -> Option<bool>
    decreases lines.len(),
{
    if lines.len() == 0 {
        None
    } else {
        let line = trim(lines[0]);
        if has_prefix(line, "dark"@) {
            parse_bool(trim(trim_start(TrimSet::SpaceOrEquals, line.skip(4))))
        } else {
            saved_theme_in(lines.drop_first())
        }
    }
}

/// The saved theme choice in the contents of the theme file.
pub fn theme_preference_from(contents: &str) -> (r: Option<bool>)
    ensures
        r == saved_theme_in(lines(contents@)),
{
    let all = split_lines(contents);
    let prefix = char_vec("dark");
    proof { reveal_strlit("dark"); }
    let ghost ls = lines(contents@);
    assert(ls.skip(0) =~= ls);
    let mut i: usize = 0;
    while i < all.len()
        invariant
            i <= all.len(),
            all@.len() == ls.len(),
            forall|j: int| 0 <= j < all@.len() ==> #[trigger] all@[j]@ == ls[j],
            ls == lines(contents@),
            prefix@ == "dark"@,
            "dark"@.len() == 4,
            saved_theme_in(ls) == saved_theme_in(ls.skip(i as int)),
        decreases all.len() - i,
    {
        assert(ls.skip(i as int).drop_first() =~= ls.skip(i + 1));
        assert(ls.skip(i as int)[0] == ls[i as int]);
        let line = chars_trim(TrimSet::Space, &all[i]);
        if chars_start_with(&line, &prefix) {
            let rest = chars_skip(&line, 4);
            let value = chars_trim_start(TrimSet::SpaceOrEquals, &rest);
            let value = chars_trim(TrimSet::Space, &value);
            assert(rest@ =~= line@.skip(4));
            assert(saved_theme_in(ls.skip(i as int)) == parse_bool(value@));
            return parse_bool_exec(&value);
        }
        i = i + 1;
    }
    None
}

/// Whether a trimmed line is a `[section]` header.
pub open spec fn is_section(line: Seq<char>) -> bool {
    line.len() >= 2 && line[0] == '[' && line.last() == ']'
}

/// Whether the KDE settings in the given lines choose a dark color scheme: the first
/// `ColorScheme` entry of a `[General]` section decides by whether its value mentions `dark`.
pub open spec fn kde_dark_in(lines: Seq<Seq<char>>, in_general: bool) -> Option<bool>
    decreases lines.len(),
{
    if lines.len() == 0 {
        None
    } else {
        let line = trim(lines[0]);
        if is_section(line) {
            kde_dark_in(lines.drop_first(), eq_ignore_case(line.subrange(1, line.len() - 1), "General"@))
        } else if in_general && has_prefix(line, "ColorScheme"@) {
            Some(contains_text(ascii_lowercase(trim_start(TrimSet::SpaceOrEquals, line.skip(11))), "dark"@))
        } else {
            kde_dark_in(lines.drop_first(), in_general)
        }
    }
}

/// Whether the contents of `kdeglobals` choose a dark color scheme.
pub fn kde_dark_from(contents: &str) -> (r: Option<bool>)
    ensures
        r == kde_dark_in(lines(contents@), false),
{
    let all = split_lines(contents);
    let key = char_vec("ColorScheme");
    let general = char_vec("general");
    let dark = char_vec("dark");
    proof {
        reveal_strlit("ColorScheme");
        reveal_strlit("General");
        reveal_strlit("general");
        assert(ascii_lowercase("General"@) =~= "general"@);
    }
    let ghost ls = lines(contents@);
    assert(ls.skip(0) =~= ls);
    let mut in_general = false;
    let mut i: usize = 0;
    while i < all.len()
        invariant
            i <= all.len(),
            all@.len() == ls.len(),
            forall|j: int| 0 <= j < all@.len() ==> #[trigger] all@[j]@ == ls[j],
            ls == lines(contents@),
            key@ == "ColorScheme"@,
            "ColorScheme"@.len() == 11,
            general@ == ascii_lowercase("General"@),
            dark@ == "dark"@,
            kde_dark_in(ls, false) == kde_dark_in(ls.skip(i as int), in_general),
        decreases all.len() - i,
    {
        assert(ls.skip(i as int).drop_first() =~= ls.skip(i + 1));
        assert(ls.skip(i as int)[0] == ls[i as int]);
        let line = chars_trim(TrimSet::Space, &all[i]);
        if line.len() >= 2 && line[0] == '[' && line[line.len() - 1] == ']' {
            let mut name: Vec<char> = Vec::new();
            let mut k: usize = 1;
            while k < line.len() - 1
                invariant
                    line@.len() >= 2,
                    1 <= k <= line@.len() - 1,
                    name@ == line@.subrange(1, k as int),
                decreases line.len() - 1 - k,
            {
                name.push(line[k]);
                k = k + 1;
                assert(name@ =~= line@.subrange(1, k as int));
            }
            let lowered = chars_lowercase(&name);
            in_general = chars_eq(&lowered, &general);
        } else if in_general && chars_start_with(&line, &key) {
            let rest = chars_skip(&line, 11);
            let value = chars_trim_start(TrimSet::SpaceOrEquals, &rest);
            let value = chars_lowercase(&value);
            assert(rest@ =~= line@.skip(11));
            return Some(chars_contain(&value, &dark));
        }
        i = i + 1;
    }
    None
}

/// The initial theme: the saved choice, else the KDE scheme, else light.
pub fn initial_dark_mode(saved: Option<bool>, kde: Option<bool>) -> (r: bool)
    ensures
        r == match saved {
            Some(d) => d,
            None => match kde {
                Some(d) => d,
                None => false,
            },
        },
{
    match saved {
        Some(d) => d,
        None => match kde {
            Some(d) => d,
            None => false,
        },
    }
}

/// The default zoom, in percent.
pub const DEFAULT_UI_SCALE: u32 = 100;
/// The smallest zoom, in percent.
pub const MIN_UI_SCALE: u32 = 80;
/// The largest zoom, in percent.
pub const MAX_UI_SCALE: u32 = 200;
/// One zoom step, in percent.
pub const UI_SCALE_STEP: u32 = 10;

/// A zoom kept within the allowed range.
pub open spec fn clamp_scale(scale: int) -> int {
    if scale < MIN_UI_SCALE {
        MIN_UI_SCALE as int
    } else if scale > MAX_UI_SCALE {
        MAX_UI_SCALE as int
    } else {
        scale
    }
}

/// A zoom (in percent) kept within the allowed range.
pub fn clamp_ui_scale(scale: u32) -> (r: u32)
    ensures
        r == clamp_scale(scale as int),
{
    if scale < MIN_UI_SCALE {
        MIN_UI_SCALE
    } else if scale > MAX_UI_SCALE {
        MAX_UI_SCALE
    } else {
        scale
    }
}

/// One step larger, at most the largest zoom.
pub fn zoom_in_scale(scale: u32) -> (r: u32)
    ensures
        r == if scale + UI_SCALE_STEP > MAX_UI_SCALE { MAX_UI_SCALE as int } else { scale + UI_SCALE_STEP },
{
    if scale >= MAX_UI_SCALE - UI_SCALE_STEP {
        MAX_UI_SCALE
    } else {
        scale + UI_SCALE_STEP
    }
}

/// One step smaller, at least the smallest zoom.
pub fn zoom_out_scale(scale: u32) -> (r: u32)
    ensures
        r == if scale < MIN_UI_SCALE + UI_SCALE_STEP { MIN_UI_SCALE as int } else { scale - UI_SCALE_STEP },
{
    if scale < MIN_UI_SCALE + UI_SCALE_STEP {
        MIN_UI_SCALE
    } else {
        scale - UI_SCALE_STEP
    }
}

/// The zoom label shown for a zoom, such as `120%`.
pub fn zoom_label(scale: u32) -> (r: String)
    ensures
        r@ == decimal(scale as nat) + "%"@,
{
    let digits = decimal_string(scale as u64);
    concat2(digits.as_str(), "%")
}

/// Every zoom that the steps and the clamp produce lies in the allowed range.
pub proof fn zoom_stays_in_range(scale: u32)
    ensures
        MIN_UI_SCALE <= clamp_scale(scale as int) <= MAX_UI_SCALE,
        MIN_UI_SCALE <= scale <= MAX_UI_SCALE ==> {
            &&& MIN_UI_SCALE <= (if scale + UI_SCALE_STEP > MAX_UI_SCALE { MAX_UI_SCALE as int } else { scale + UI_SCALE_STEP }) <= MAX_UI_SCALE
            &&& MIN_UI_SCALE <= (if scale < MIN_UI_SCALE + UI_SCALE_STEP { MIN_UI_SCALE as int } else { scale - UI_SCALE_STEP }) <= MAX_UI_SCALE
        },
{
}

} // verus!
