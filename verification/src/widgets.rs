//! The decisions the bar makes while it builds its window and widgets: where the window
//! sits, which widget each layout entry becomes, what clicks and scrolls run, and how
//! module texts are written.
use vstd::prelude::*;

use crate::config::{
    distinct_names, BarConfig, Config, CssConfig, CustomEntry, CustomModule, LogoConfig, LogoTextConfig, ModuleConfig,
    StyleConfig,
};
use crate::style::{
    all_sliceable, apply_custom_css, apply_module_css, builtin_module_colors, custom_css,
    custom_module_colors, module_css,
};
use crate::text::{
    append_chars, chars_of, contains, eq_ignore_ascii_case, eq_ignore_ascii_case_chars, lowercase_of,
    law_replace_without_match, replace, replace_chars, starts_with, starts_with_chars,
    string_of, string_views, to_lowercase, trim, trim_chars,
};

verus! {

broadcast use vstd::string::group_string_axioms;

// ------------------------------------------------------------
// The window
// ------------------------------------------------------------

/// The layer-shell layer of the bar window.
#[derive(Clone, Copy, Debug, PartialEq, Eq, Structural)]
pub enum BarLayer {
    Top,
    Bottom,
    Overlay,
}

/// How the bar window takes keyboard input.
#[derive(Clone, Copy, Debug, PartialEq, Eq, Structural)]
pub enum KeyboardInput {
    Ignored,
    Exclusive,
    OnDemand,
}

/// The layer named by an already lower-cased name: `bottom`, `overlay`, else the top.
pub open spec fn layer_named(lower: Seq<char>) -> BarLayer {
    if lower == "bottom"@ {
        BarLayer::Bottom
    } else if lower == "overlay"@ {
        BarLayer::Overlay
    } else {
        BarLayer::Top
    }
}

/// The keyboard mode named by an already lower-cased name: `exclusive`, `on_demand`,
/// else no keyboard input.
pub open spec fn keyboard_named(lower: Seq<char>) -> KeyboardInput {
    if lower == "exclusive"@ {
        KeyboardInput::Exclusive
    } else if lower == "on_demand"@ {
        KeyboardInput::OnDemand
    } else {
        KeyboardInput::Ignored
    }
}

fn same_text(a: &str, b: &str) -> (r: bool)
    ensures
        r == (a@ == b@),
{
    let av = chars_of(a);
    let bv = chars_of(b);
    if av.len() != bv.len() {
        return false;
    }
    let mut i: usize = 0;
    while i < av.len()
        invariant
            i <= av@.len(),
            av@.len() == bv@.len(),
            av@ == a@,
            bv@ == b@,
            forall|j: int| 0 <= j < i ==> av@[j] == bv@[j],
        decreases av.len() - i,
    {
        if av[i] != bv[i] {
            return false;
        }
        i = i + 1;
    }
    assert(av@ =~= bv@);
    true
}

/// The layer named by the lower-cased name `lower`.
pub fn layer_from_lowercase(lower: &str) -> (r: BarLayer)
    ensures
        r == layer_named(lower@),
{
    if same_text(lower, "bottom") {
        BarLayer::Bottom
    } else if same_text(lower, "overlay") {
        BarLayer::Overlay
    } else {
        BarLayer::Top
    }
}

/// The keyboard mode named by the lower-cased name `lower`.
pub fn keyboard_from_lowercase(lower: &str) -> (r: KeyboardInput)
    ensures
        r == keyboard_named(lower@),
{
    if same_text(lower, "exclusive") {
        KeyboardInput::Exclusive
    } else if same_text(lower, "on_demand") {
        KeyboardInput::OnDemand
    } else {
        KeyboardInput::Ignored
    }
}

/// The layer of the bar: its configured name, lower-cased, read by `layer_named`.
pub fn bar_layer(bar: &BarConfig) -> (r: BarLayer)
    ensures
        r == layer_named(lowercase_of(bar.layer@)),
{
    let lower = to_lowercase(bar.layer.as_str());
    layer_from_lowercase(lower.as_str())
}

/// The keyboard mode of the bar: its configured name, lower-cased, read by
/// `keyboard_named`.
pub fn bar_keyboard(bar: &BarConfig) -> (r: KeyboardInput)
    ensures
        r == keyboard_named(lowercase_of(bar.keyboard_mode@)),
{
    let lower = to_lowercase(bar.keyboard_mode.as_str());
    keyboard_from_lowercase(lower.as_str())
}

/// Where the bar window is anchored and how large it is.
#[derive(Clone, Copy, Debug, PartialEq, Eq, Structural)]
pub struct BarPlacement {
    pub anchor_left: bool,
    pub anchor_right: bool,
    pub anchor_top: bool,
    pub anchor_bottom: bool,
    /// The width the bar widget asks for, when it is not stretched over the screen.
    pub fixed_width: Option<i32>,
    /// The default size of the window (`-1` lets the width follow the content).
    pub default_width: i32,
    pub default_height: i32,
}

/// The placement of the bar: at the bottom when `position` is `bottom` in any case, else
/// at the top; stretched over the whole width when `width` is 0; a bar of positive
/// width asks for that width and sets it as the window's default width.
pub open spec fn placement_of(bar: BarConfig) -> BarPlacement {
    let bottom = eq_ignore_ascii_case(bar.position@, "bottom"@);
    let full_width = bar.width == 0;
    BarPlacement {
        anchor_left: full_width,
        anchor_right: full_width,
        anchor_top: !bottom,
        anchor_bottom: bottom,
        fixed_width: if bar.width > 0 {
            Some(bar.width)
        } else {
            None
        },
        default_width: if bar.width > 0 {
            bar.width
        } else {
            -1i32
        },
        default_height: bar.height,
    }
}

/// The placement of the bar window (see `placement_of`).
pub fn bar_placement(bar: &BarConfig) -> (r: BarPlacement)
    ensures
        r == placement_of(*bar),
{
    let position = chars_of(bar.position.as_str());
    let word = chars_of("bottom");
    let bottom = eq_ignore_ascii_case_chars(position.as_slice(), word.as_slice());
    let full_width = bar.width == 0;
    BarPlacement {
        anchor_left: full_width,
        anchor_right: full_width,
        anchor_top: !bottom,
        anchor_bottom: bottom,
        fixed_width: if bar.width > 0 {
            Some(bar.width)
        } else {
            None
        },
        default_width: if bar.width > 0 {
            bar.width
        } else {
            -1
        },
        default_height: bar.height,
    }
}


// ------------------------------------------------------------
// Layout entries
// ------------------------------------------------------------

/// The built-in system modules.
#[derive(Clone, Copy, Debug, PartialEq, Eq, Structural)]
pub enum BuiltinModule {
    Cpu,
    Ram,
    Network,
    Volume,
    Battery,
}

/// What a layout entry becomes in its zone.
#[derive(Clone, Copy, Debug, PartialEq, Eq, Structural)]
pub enum ModuleSlot {
    /// The logo (whose parts `logo_parts` decides).
    Logo,
    /// The box of workspace buttons.
    Workspaces,
    /// The label of an enabled built-in module.
    Builtin(BuiltinModule),
    /// The clock label.
    Clock,
    /// A dimmed `│` label.
    Separator,
    /// The label of the enabled custom module at this index of `Config::custom`.
    Custom(usize),
    /// Nothing: the module is disabled, or no custom module has that name.
    Nothing,
    /// Nothing, and the name is reported as unknown.
    Unknown,
}

/// The index of the first custom module named `key`.
pub open spec fn custom_index(custom: Seq<CustomEntry>, key: Seq<char>) -> Option<int>
    decreases custom.len(),
{
    if custom.len() == 0 {
        None
    } else if custom.last().name@ == key && custom_index(custom.drop_last(), key) is None {
        Some(custom.len() - 1)
    } else {
        custom_index(custom.drop_last(), key)
    }
}

/// The prefix of the layout entries that name custom modules.
pub open spec fn custom_prefix() -> Seq<char> {
    "custom."@
}

pub open spec fn builtin_slot(enabled: bool, kind: BuiltinModule) -> ModuleSlot {
    if enabled {
        ModuleSlot::Builtin(kind)
    } else {
        ModuleSlot::Nothing
    }
}

/// What the layout entry `name` becomes: a known module (when it is enabled), a
/// separator, an enabled custom module named after `custom.`, or an unknown name.
pub open spec fn slot_for(name: Seq<char>, config: Config) -> ModuleSlot {
    if name == "logo"@ {
        ModuleSlot::Logo
    } else if name == "workspaces"@ {
        if config.workspaces.enabled {
            ModuleSlot::Workspaces
        } else {
            ModuleSlot::Nothing
        }
    } else if name == "cpu"@ {
        builtin_slot(config.cpu.enabled, BuiltinModule::Cpu)
    } else if name == "ram"@ {
        builtin_slot(config.ram.enabled, BuiltinModule::Ram)
    } else if name == "network"@ {
        builtin_slot(config.network.enabled, BuiltinModule::Network)
    } else if name == "volume"@ {
        builtin_slot(config.volume.enabled, BuiltinModule::Volume)
    } else if name == "battery"@ {
        builtin_slot(config.battery.enabled, BuiltinModule::Battery)
    } else if name == "clock"@ {
        if config.clock.enabled {
            ModuleSlot::Clock
        } else {
            ModuleSlot::Nothing
        }
    } else if name == "separator"@ {
        ModuleSlot::Separator
    } else if starts_with(name, custom_prefix()) {
        match custom_index(config.custom@, name.skip(custom_prefix().len() as int)) {
            Some(i) => if config.custom@[i].module.enabled {
                ModuleSlot::Custom(i as usize)
            } else {
                ModuleSlot::Nothing
            },
            None => ModuleSlot::Nothing,
        }
    } else {
        ModuleSlot::Unknown
    }
}

/// The index of the first custom module named `key`.
pub fn find_custom(custom: &Vec<CustomEntry>, key: &str) -> (r: Option<usize>)
    ensures
        match r {
            Some(i) => custom_index(custom@, key@) == Some(i as int) && i < custom@.len(),
            None => custom_index(custom@, key@) is None,
        },
{
    let mut i: usize = 0;
    assert(custom@.take(0) =~= Seq::<CustomEntry>::empty());
    while i < custom.len()
        invariant
            i <= custom@.len(),
            custom_index(custom@.take(i as int), key@) is None,
        decreases custom.len() - i,
    {
        assert(custom@.take(i + 1).drop_last() =~= custom@.take(i as int));
        if same_text(custom[i].name.as_str(), key) {
            proof {
                lemma_custom_index_prefix(custom@, key@, i + 1);
            }
            return Some(i);
        }
        i = i + 1;
    }
    assert(custom@.take(i as int) =~= custom@);
    None
}

proof fn lemma_custom_index_prefix(custom: Seq<CustomEntry>, key: Seq<char>, n: int)
    requires
        0 < n <= custom.len(),
        custom_index(custom.take(n), key) is Some,
    ensures
        custom_index(custom, key) == custom_index(custom.take(n), key),
    decreases custom.len() - n,
{
    if n < custom.len() {
        assert(custom.take(n + 1).drop_last() =~= custom.take(n));
        lemma_custom_index_prefix(custom, key, n + 1);
    } else {
        assert(custom.take(n) =~= custom);
    }
}

/// What the layout entry `name` becomes (see `slot_for`).
pub fn add_module(name: &str, config: &Config) -> (r: ModuleSlot)
    ensures
        r == slot_for(name@, *config),
{
    if same_text(name, "logo") {
        ModuleSlot::Logo
    } else if same_text(name, "workspaces") {
        if config.workspaces.enabled {
            ModuleSlot::Workspaces
        } else {
            ModuleSlot::Nothing
        }
    } else if same_text(name, "cpu") {
        if config.cpu.enabled {
            ModuleSlot::Builtin(BuiltinModule::Cpu)
        } else {
            ModuleSlot::Nothing
        }
    } else if same_text(name, "ram") {
        if config.ram.enabled {
            ModuleSlot::Builtin(BuiltinModule::Ram)
        } else {
            ModuleSlot::Nothing
        }
    } else if same_text(name, "network") {
        if config.network.enabled {
            ModuleSlot::Builtin(BuiltinModule::Network)
        } else {
            ModuleSlot::Nothing
        }
    } else if same_text(name, "volume") {
        if config.volume.enabled {
            ModuleSlot::Builtin(BuiltinModule::Volume)
        } else {
            ModuleSlot::Nothing
        }
    } else if same_text(name, "battery") {
        if config.battery.enabled {
            ModuleSlot::Builtin(BuiltinModule::Battery)
        } else {
            ModuleSlot::Nothing
        }
    } else if same_text(name, "clock") {
        if config.clock.enabled {
            ModuleSlot::Clock
        } else {
            ModuleSlot::Nothing
        }
    } else if same_text(name, "separator") {
        ModuleSlot::Separator
    } else {
        let name_chars = chars_of(name);
        let prefix = chars_of("custom.");
        if starts_with_chars(name_chars.as_slice(), prefix.as_slice()) {
            let key_chars = crate::text::slice_chars(
                name_chars.as_slice(),
                prefix.len(),
                name_chars.len(),
            );
            assert(key_chars@ =~= name@.skip(custom_prefix().len() as int));
            let key = string_of(key_chars.as_slice());
            match find_custom(&config.custom, key.as_str()) {
                Some(i) => if config.custom[i].module.enabled {
                    ModuleSlot::Custom(i)
                } else {
                    ModuleSlot::Nothing
                },
                None => ModuleSlot::Nothing,
            }
        } else {
            ModuleSlot::Unknown
        }
    }
}

/// The name of a built-in module: its layout entry and the key of its label.
pub open spec fn builtin_name(kind: BuiltinModule) -> Seq<char> {
    match kind {
        BuiltinModule::Cpu => "cpu"@,
        BuiltinModule::Ram => "ram"@,
        BuiltinModule::Network => "network"@,
        BuiltinModule::Volume => "volume"@,
        BuiltinModule::Battery => "battery"@,
    }
}

/// The name of a built-in module.
pub fn builtin_module_name(kind: BuiltinModule) -> (r: &'static str)
    ensures
        r@ == builtin_name(kind),
{
    match kind {
        BuiltinModule::Cpu => "cpu",
        BuiltinModule::Ram => "ram",
        BuiltinModule::Network => "network",
        BuiltinModule::Volume => "volume",
        BuiltinModule::Battery => "battery",
    }
}

/// The built-in module with layout name `name`, if any.
pub fn builtin_module_named(name: &str) -> (r: Option<BuiltinModule>)
    ensures
        match r {
            Some(k) => builtin_name(k) == name@,
            None => forall|k: BuiltinModule| builtin_name(k) != name@,
        },
{
    if same_text(name, "cpu") {
        Some(BuiltinModule::Cpu)
    } else if same_text(name, "ram") {
        Some(BuiltinModule::Ram)
    } else if same_text(name, "network") {
        Some(BuiltinModule::Network)
    } else if same_text(name, "volume") {
        Some(BuiltinModule::Volume)
    } else if same_text(name, "battery") {
        Some(BuiltinModule::Battery)
    } else {
        None
    }
}

// ------------------------------------------------------------
// Logo, sizes, clicks
// ------------------------------------------------------------

/// Which parts of the logo are shown.
#[derive(Clone, Copy, Debug, PartialEq, Eq, Structural)]
pub struct LogoParts {
    pub icon: bool,
    pub text: bool,
}

/// Nothing when the logo is disabled; else the icon when it is enabled and not empty,
/// and the text when it is enabled and not empty.
pub open spec fn logo_parts_of(logo: LogoConfig, logo_text: LogoTextConfig) -> LogoParts {
    if !logo.enabled {
        LogoParts { icon: false, text: false }
    } else {
        LogoParts {
            icon: logo.icon_enabled && logo.icon@.len() > 0,
            text: logo_text.enabled && logo_text.text@.len() > 0,
        }
    }
}

/// Which parts of the logo `add_logo` shows (see `logo_parts_of`).
pub fn add_logo(config: &Config) -> (r: LogoParts)
    ensures
        r == logo_parts_of(config.logo, config.logo_text),
{
    if !config.logo.enabled {
        return LogoParts { icon: false, text: false };
    }
    LogoParts {
        icon: config.logo.icon_enabled && !config.logo.icon.as_str().is_empty(),
        text: config.logo_text.enabled && !config.logo_text.text.as_str().is_empty(),
    }
}

/// A size a widget asks for: only positive sizes are asked for.
pub open spec fn size_request(size: i32) -> Option<i32> {
    if size > 0 {
        Some(size)
    } else {
        None
    }
}

pub fn requested_size(size: i32) -> (r: Option<i32>)
    ensures
        r == size_request(size),
{
    if size > 0 {
        Some(size)
    } else {
        None
    }
}

/// The width and height a module label asks for: its own when positive, else the
/// shared module size, each asked for only when positive.
pub open spec fn module_size_of(width: i32, height: i32, global: StyleConfig) -> (
    Option<i32>,
    Option<i32>,
) {
    (
        size_request(
            if width > 0 {
                width
            } else {
                global.module_width
            },
        ),
        size_request(
            if height > 0 {
                height
            } else {
                global.module_height
            },
        ),
    )
}

/// The size requests of a module label (see `module_size_of`).
pub fn apply_size(width: i32, height: i32, global: &StyleConfig) -> (r: (Option<i32>, Option<i32>))
    ensures
        r == module_size_of(width, height, *global),
{
    let final_width = if width > 0 {
        width
    } else {
        global.module_width
    };
    let final_height = if height > 0 {
        height
    } else {
        global.module_height
    };
    (requested_size(final_width), requested_size(final_height))
}

/// Which event handlers a widget gets.
#[derive(Clone, Copy, Debug, PartialEq, Eq, Structural)]
pub struct ClickSetup {
    /// A click handler, when one of the three click commands is not empty.
    pub clicks: bool,
    /// A vertical scroll handler, when one of the two scroll commands is not empty.
    pub scroll: bool,
}

pub open spec fn click_setup_of(
    left: Seq<char>,
    right: Seq<char>,
    middle: Seq<char>,
    scroll_up: Seq<char>,
    scroll_down: Seq<char>,
) -> ClickSetup {
    ClickSetup {
        clicks: left.len() > 0 || right.len() > 0 || middle.len() > 0,
        scroll: scroll_up.len() > 0 || scroll_down.len() > 0,
    }
}

/// Which handlers `setup_clicks` installs (see `click_setup_of`).
pub fn setup_clicks(left: &str, right: &str, middle: &str, scroll_up: &str, scroll_down: &str) -> (r:
    ClickSetup)
    ensures
        r == click_setup_of(left@, right@, middle@, scroll_up@, scroll_down@),
{
    ClickSetup {
        clicks: !left.is_empty() || !right.is_empty() || !middle.is_empty(),
        scroll: !scroll_up.is_empty() || !scroll_down.is_empty(),
    }
}

/// The command a mouse button runs: button 1 the left command, 2 the middle one, 3 the
/// right one; other buttons none.
pub open spec fn button_command_of(button: u32, left: Seq<char>, right: Seq<char>, middle: Seq<char>) -> Option<Seq<char>> {
    if button == 1 {
        Some(left)
    } else if button == 2 {
        Some(middle)
    } else if button == 3 {
        Some(right)
    } else {
        None
    }
}

/// The command a released mouse button runs (see `button_command_of`).
pub fn button_command<'a>(button: u32, left: &'a str, right: &'a str, middle: &'a str) -> (r: Option<
    &'a str,
>)
    ensures
        match r {
            Some(c) => button_command_of(button, left@, right@, middle@) == Some(c@),
            None => button_command_of(button, left@, right@, middle@) is None,
        },
{
    if button == 1 {
        Some(left)
    } else if button == 2 {
        Some(middle)
    } else if button == 3 {
        Some(right)
    } else {
        None
    }
}

/// The shell command `run_command` starts: the command trimmed, and nothing when that
/// is empty.
pub open spec fn command_to_run(command: Seq<char>) -> Option<Seq<char>> {
    if trim(command).len() == 0 {
        None
    } else {
        Some(trim(command))
    }
}

/// The command line `run_command` hands to `sh -c` (see `command_to_run`).
pub fn run_command(command: &str) -> (r: Option<String>)
    ensures
        match r {
            Some(c) => command_to_run(command@) == Some(c@),
            None => command_to_run(command@) is None,
        },
{
    let v = chars_of(command);
    let t = trim_chars(v.as_slice());
    if t.len() == 0 {
        None
    } else {
        Some(string_of(t.as_slice()))
    }
}

/// Whether `command_output` runs `command` at all: not when it is blank.
pub fn command_output(command: &str) -> (r: bool)
    ensures
        r == (trim(command@).len() > 0),
{
    let v = chars_of(command);
    let t = trim_chars(v.as_slice());
    t.len() > 0
}

/// What a command's output shows: its standard output, trimmed, when it succeeded;
/// else nothing.
pub open spec fn command_text_of(success: bool, stdout: Seq<char>) -> Seq<char> {
    if success {
        trim(stdout)
    } else {
        Seq::empty()
    }
}

/// The text of a command's output (see `command_text_of`).
pub fn command_text(success: bool, stdout: &str) -> (r: String)
    ensures
        r@ == command_text_of(success, stdout@),
{
    if success {
        crate::text::trim_str(stdout)
    } else {
        String::new()
    }
}

// ------------------------------------------------------------
// Texts
// ------------------------------------------------------------

/// The text of a module: `format` with `{icon}` replaced by the icon, then `{value}`
/// replaced by the value.
pub open spec fn module_text(format: Seq<char>, icon: Seq<char>, value: Seq<char>) -> Seq<char> {
    replace(replace(format, "{icon}"@, icon), "{value}"@, value)
}

/// The text of a module (see `module_text`).
pub fn format_module(format: &str, icon: &str, value: &str) -> (r: String)
    ensures
        r@ == module_text(format@, icon@, value@),
{
    let f = chars_of(format);
    let i = chars_of(icon);
    let v = chars_of(value);
    let icon_key = chars_of("{icon}");
    let value_key = chars_of("{value}");
    proof {
        reveal_strlit("{icon}");
        reveal_strlit("{value}");
    }
    let once = replace_chars(f.as_slice(), icon_key.as_slice(), i.as_slice());
    let twice = replace_chars(once.as_slice(), value_key.as_slice(), v.as_slice());
    string_of(twice.as_slice())
}

/// A format with neither `{icon}` nor `{value}` is shown as written.
pub proof fn law_format_without_placeholders(format: Seq<char>, icon: Seq<char>, value: Seq<char>)
    requires
        !contains(format, "{icon}"@),
        !contains(format, "{value}"@),
    ensures
        module_text(format, icon, value) == format,
{
    reveal_strlit("{icon}");
    reveal_strlit("{value}");
    law_replace_without_match(format, "{icon}"@, icon);
    law_replace_without_match(format, "{value}"@, value);
}

/// The character a CSS class name keeps: ASCII letters and digits, `-` and `_`; any
/// other character becomes `-`.
pub open spec fn css_char(c: char) -> char {
    if crate::text::is_ascii_alphanumeric(c) || c == '-' || c == '_' {
        c
    } else {
        '-'
    }
}

/// `name` made fit for a CSS class name (see `css_char`).
pub open spec fn safe_css(name: Seq<char>) -> Seq<char> {
    name.map_values(|c: char| css_char(c))
}

/// `name` made fit for a CSS class name (see `safe_css`).
pub fn safe_css_name(name: &str) -> (r: String)
    ensures
        r@ == safe_css(name@),
{
    let v = chars_of(name);
    let mut out: Vec<char> = Vec::new();
    for i in 0..v.len()
        invariant
            v@ == name@,
            out@ == safe_css(v@.take(i as int)),
    {
        let c = v[i];
        let kept = if ('0' <= c && c <= '9') || ('a' <= c && c <= 'z') || ('A' <= c && c <= 'Z')
            || c == '-' || c == '_' {
            c
        } else {
            '-'
        };
        out.push(kept);
        assert(safe_css(v@.take(i + 1)) =~= safe_css(v@.take(i as int)).push(kept));
    }
    assert(v@.take(v@.len() as int) =~= v@);
    string_of(out.as_slice())
}

/// `prefix` followed by `name`.
pub fn joined(prefix: &str, name: &str) -> (r: String)
    ensures
        r@ == prefix@ + name@,
{
    let mut v = chars_of(prefix);
    let n = chars_of(name);
    append_chars(&mut v, n.as_slice());
    string_of(v.as_slice())
}

/// The CSS class of custom module `name`: `custom-<name>`, made safe.
pub fn custom_class_name(name: &str) -> (r: String)
    ensures
        r@ == safe_css("custom-"@ + name@),
{
    let raw = joined("custom-", name);
    safe_css_name(raw.as_str())
}

/// The key under which the label of custom module `name` is kept: `custom.<name>`.
pub fn custom_label_key(name: &str) -> (r: String)
    ensures
        r@ == custom_prefix() + name@,
{
    joined("custom.", name)
}

// ------------------------------------------------------------
// Module labels
// ------------------------------------------------------------

/// A module label as the bar builds it: the key it is kept and updated under, the text
/// it starts with, its CSS classes and style sheet, its tooltip, the size it asks for
/// and its event handlers.
#[derive(Clone, Debug)]
pub struct ModuleLabel {
    pub key: String,
    pub text: String,
    pub classes: Vec<String>,
    /// The style sheet installed for the label; empty for the clock, which has none.
    pub css: String,
    pub tooltip: Option<String>,
    pub width: Option<i32>,
    pub height: Option<i32>,
    pub clicks: ClickSetup,
}

/// The tooltip of a module: its text, when that is not empty.
pub open spec fn tooltip_of(text: Seq<char>) -> Option<Seq<char>> {
    if text.len() > 0 {
        Some(text)
    } else {
        None
    }
}

/// The view of an optional string.
pub open spec fn opt_view(o: Option<String>) -> Option<Seq<char>> {
    match o {
        Some(t) => Some(t@),
        None => None,
    }
}

fn tooltip(text: &String) -> (r: Option<String>)
    ensures
        opt_view(r) == tooltip_of(text@),
{
    if text.as_str().is_empty() {
        None
    } else {
        Some(text.clone())
    }
}

/// The label of the built-in module `name`: kept under `name`, showing `...` until its
/// first update, with the classes `module`, `module-<name>` and `raix-module-<name>` (the
/// class its style sheet is written for, so that the module's own colors, border,
/// radius and padding reach it), the module's style sheet (see `module_css`), its
/// tooltip when it has one, its size (see `module_size_of`) and its click and scroll
/// commands.
pub fn add_builtin_module(name: &str, module: &ModuleConfig, config: &Config) -> (r: ModuleLabel)
    requires
        all_sliceable(builtin_module_colors(*module, *config)),
    ensures
        r.key@ == name@,
        r.text@ == "..."@,
        string_views(r.classes@) == seq!["module"@, "module-"@ + name@, "raix-module-"@ + name@],
        r.css@ == module_css(name@, *module, *config),
        opt_view(r.tooltip) == tooltip_of(module.tooltip@),
        (r.width, r.height) == module_size_of(module.width, module.height, config.style),
        r.clicks == click_setup_of(
            module.left_click@,
            module.right_click@,
            module.middle_click@,
            module.scroll_up@,
            module.scroll_down@,
        ),
{
    let css = apply_module_css(name, module, config);
    let size = apply_size(module.width, module.height, &config.style);
    let clicks = setup_clicks(
        module.left_click.as_str(),
        module.right_click.as_str(),
        module.middle_click.as_str(),
        module.scroll_up.as_str(),
        module.scroll_down.as_str(),
    );
    let classes = vec![
        String::from_str("module"),
        joined("module-", name),
        joined("raix-module-", name),
    ];
    assert(string_views(classes@) =~= seq!["module"@, "module-"@ + name@, "raix-module-"@ + name@]);
    ModuleLabel {
        key: string_of(chars_of(name).as_slice()),
        text: String::from_str("..."),
        classes,
        css,
        tooltip: tooltip(&module.tooltip),
        width: size.0,
        height: size.1,
        clicks,
    }
}

/// The label of the custom module `name`: kept under `custom.<name>`, showing `...`
/// until its first update, with the classes `module` and its class name (see
/// `custom_class_name`), the module's style sheet (see `custom_css`), its tooltip when it
/// has one, its size (see `module_size_of`) and its click and scroll commands.
pub fn add_custom_module(name: &str, module: &CustomModule, config: &Config) -> (r: ModuleLabel)
    requires
        all_sliceable(custom_module_colors(*module, *config)),
    ensures
        r.key@ == custom_prefix() + name@,
        r.text@ == "..."@,
        string_views(r.classes@) == seq!["module"@, safe_css("custom-"@ + name@)],
        r.css@ == custom_css(safe_css("custom-"@ + name@), *module, *config),
        opt_view(r.tooltip) == tooltip_of(module.tooltip@),
        (r.width, r.height) == module_size_of(module.width, module.height, config.style),
        r.clicks == click_setup_of(
            module.left_click@,
            module.right_click@,
            module.middle_click@,
            module.scroll_up@,
            module.scroll_down@,
        ),
{
    let class_name = custom_class_name(name);
    let css = apply_custom_css(class_name.as_str(), module, config);
    let size = apply_size(module.width, module.height, &config.style);
    let clicks = setup_clicks(
        module.left_click.as_str(),
        module.right_click.as_str(),
        module.middle_click.as_str(),
        module.scroll_up.as_str(),
        module.scroll_down.as_str(),
    );
    let classes = vec![String::from_str("module"), class_name];
    assert(string_views(classes@) =~= seq!["module"@, safe_css("custom-"@ + name@)]);
    ModuleLabel {
        key: custom_label_key(name),
        text: String::from_str("..."),
        classes,
        css,
        tooltip: tooltip(&module.tooltip),
        width: size.0,
        height: size.1,
        clicks,
    }
}

/// The clock label: kept under `clock`, showing `--:--` until its first update, with
/// the classes `module` and `module-clock`, no style sheet or tooltip of its own, the
/// clock's size where it is positive, and its click commands.
pub fn add_clock(config: &Config) -> (r: ModuleLabel)
    ensures
        r.key@ == "clock"@,
        r.text@ == "--:--"@,
        string_views(r.classes@) == seq!["module"@, "module-clock"@],
        r.css@ == Seq::<char>::empty(),
        r.tooltip is None,
        r.width == size_request(config.clock.width),
        r.height == size_request(config.clock.height),
        r.clicks == click_setup_of(
            config.clock.left_click@,
            config.clock.right_click@,
            config.clock.middle_click@,
            Seq::empty(),
            Seq::empty(),
        ),
{
    let clicks = setup_clicks(
        config.clock.left_click.as_str(),
        config.clock.right_click.as_str(),
        config.clock.middle_click.as_str(),
        "",
        "",
    );
    proof {
        reveal_strlit("");
    }
    let classes = vec![String::from_str("module"), String::from_str("module-clock")];
    assert(string_views(classes@) =~= seq!["module"@, "module-clock"@]);
    ModuleLabel {
        key: String::from_str("clock"),
        text: String::from_str("--:--"),
        classes,
        css: String::new(),
        tooltip: None,
        width: requested_size(config.clock.width),
        height: requested_size(config.clock.height),
        clicks,
    }
}

/// The user's own style sheet, the text of `[css] custom`, when it is not blank.
pub open spec fn user_css_of(css: CssConfig) -> Option<Seq<char>> {
    if trim(css.custom@).len() > 0 {
        Some(css.custom@)
    } else {
        None
    }
}

/// The user's own style sheet (see `user_css_of`), installed after the bar's style sheet
/// so that its rules win.
pub fn custom_stylesheet(config: &Config) -> (r: Option<String>)
    ensures
        opt_view(r) == user_css_of(config.css),
{
    let v = chars_of(config.css.custom.as_str());
    let t = trim_chars(v.as_slice());
    if t.len() == 0 {
        None
    } else {
        Some(config.css.custom.clone())
    }
}

/// The configuration of built-in module `kind`.
pub open spec fn module_config_of(config: Config, kind: BuiltinModule) -> ModuleConfig {
    match kind {
        BuiltinModule::Cpu => config.cpu,
        BuiltinModule::Ram => config.ram,
        BuiltinModule::Network => config.network,
        BuiltinModule::Volume => config.volume,
        BuiltinModule::Battery => config.battery,
    }
}

/// The layout entry of a built-in module gives that module's label exactly when the
/// module is enabled, and nothing when it is disabled.
pub proof fn law_builtin_entry_follows_enabled(config: Config, kind: BuiltinModule)
    ensures
        slot_for(builtin_name(kind), config) == (if module_config_of(config, kind).enabled {
            ModuleSlot::Builtin(kind)
        } else {
            ModuleSlot::Nothing
        }),
{
    reveal_strlit("logo");
    reveal_strlit("workspaces");
    reveal_strlit("cpu");
    reveal_strlit("ram");
    reveal_strlit("network");
    reveal_strlit("volume");
    reveal_strlit("battery");
    reveal_strlit("clock");
    reveal_strlit("separator");
    let n = builtin_name(kind);
    assert(n != "logo"@);
    assert(n != "workspaces"@);
    assert(n != "clock"@);
    assert(n != "separator"@);
    match kind {
        BuiltinModule::Cpu => {},
        BuiltinModule::Ram => {
            assert(n[0] != "cpu"@[0]);
        },
        BuiltinModule::Network => {
            assert(n != "cpu"@);
            assert(n != "ram"@);
        },
        BuiltinModule::Volume => {
            assert(n != "cpu"@);
            assert(n != "ram"@);
            assert(n != "network"@);
        },
        BuiltinModule::Battery => {
            assert(n != "cpu"@);
            assert(n != "ram"@);
            assert(n[0] != "network"@[0]);
            assert(n != "volume"@);
        },
    }
}

/// When no two custom modules share a name, the layout entry `custom.<name>` finds the
/// module of that name: its label when it is enabled, nothing when it is disabled.
pub proof fn law_custom_entry_found(config: Config, i: int)
    requires
        config.well_formed(),
        0 <= i < config.custom@.len(),
    ensures
        slot_for(custom_prefix() + config.custom@[i].name@, config) == if config.custom@[i].module.enabled {
            ModuleSlot::Custom(i as usize)
        } else {
            ModuleSlot::Nothing
        },
{
    let key = config.custom@[i].name@;
    let name = custom_prefix() + key;
    reveal_strlit("custom.");
    reveal_strlit("logo");
    reveal_strlit("workspaces");
    reveal_strlit("cpu");
    reveal_strlit("ram");
    reveal_strlit("network");
    reveal_strlit("volume");
    reveal_strlit("battery");
    reveal_strlit("clock");
    reveal_strlit("separator");
    assert(name.take(7) =~= custom_prefix());
    assert(name.skip(7) =~= key);
    assert(name[0] == 'c' && name[1] == 'u');
    assert(name != "logo"@);
    assert(name != "workspaces"@);
    assert(name != "cpu"@);
    assert(name != "ram"@);
    assert(name != "network"@);
    assert(name != "volume"@);
    assert(name != "battery"@);
    assert(name != "clock"@);
    assert(name != "separator"@);
    lemma_custom_index_unique(config.custom@, key, i);
}

proof fn lemma_custom_index_unique(custom: Seq<CustomEntry>, key: Seq<char>, i: int)
    requires
        distinct_names(custom),
        0 <= i < custom.len(),
        custom[i].name@ == key,
    ensures
        custom_index(custom, key) == Some(i),
    decreases custom.len(),
{
    if i < custom.len() - 1 {
        let d = custom.drop_last();
        assert(distinct_names(d)) by {
            assert forall|a: int, c: int|
                0 <= a < d.len() && 0 <= c < d.len() && a != c implies #[trigger] d[a].name@
                    != #[trigger] d[c].name@ by {
                assert(d[a] == custom[a] && d[c] == custom[c]);
            }
        }
        assert(d[i] == custom[i]);
        lemma_custom_index_unique(d, key, i);
        assert(custom.last() == custom[custom.len() - 1]);
        assert(custom[custom.len() - 1].name@ != custom[i].name@);
    } else {
        lemma_custom_index_none(custom.drop_last(), key, custom);
    }
}

proof fn lemma_custom_index_none(d: Seq<CustomEntry>, key: Seq<char>, custom: Seq<CustomEntry>)
    requires
        distinct_names(custom),
        custom.len() > 0,
        d == custom.drop_last(),
        custom.last().name@ == key,
    ensures
        custom_index(d, key) is None,
{
    lemma_custom_index_absent(d, key, custom);
}

proof fn lemma_custom_index_absent(d: Seq<CustomEntry>, key: Seq<char>, custom: Seq<CustomEntry>)
    requires
        distinct_names(custom),
        custom.len() > 0,
        d.len() < custom.len(),
        forall|k: int| 0 <= k < d.len() ==> d[k] == custom[k],
        custom[custom.len() - 1].name@ == key,
    ensures
        custom_index(d, key) is None,
    decreases d.len(),
{
    if d.len() > 0 {
        assert(d.last() == custom[d.len() - 1]);
        assert(custom[d.len() - 1].name@ != custom[custom.len() - 1].name@);
        let e = d.drop_last();
        assert forall|k: int| 0 <= k < e.len() implies e[k] == custom[k] by {
            assert(e[k] == d[k]);
        }
        lemma_custom_index_absent(e, key, custom);
    }
}

/// The argument handed to `date`: `+` followed by the clock format.
pub fn clock_argument(format: &str) -> (r: String)
    ensures
        r@ == "+"@ + format@,
{
    joined("+", format)
}

/// What the clock shows: the trimmed output of `date` when it succeeded and printed
/// something, else `--:--`.
pub open spec fn clock_text_of(success: bool, stdout: Seq<char>) -> Seq<char> {
    if success && trim(stdout).len() > 0 {
        trim(stdout)
    } else {
        "--:--"@
    }
}

/// The text of the clock label (see `clock_text_of`).
pub fn update_clock(success: bool, stdout: &str) -> (r: String)
    ensures
        r@ == clock_text_of(success, stdout@),
{
    if success {
        let text = crate::text::trim_str(stdout);
        if !text.as_str().is_empty() {
            return text;
        }
    }
    String::from_str("--:--")
}


// ------------------------------------------------------------
// Timers
// ------------------------------------------------------------

/// What a timer refreshes.
#[derive(Clone, Copy, Debug, PartialEq, Eq, Structural)]
pub enum TimerSource {
    Builtin(BuiltinModule),
    /// The custom module at this index of `Config::custom`.
    Custom(usize),
    Clock,
}

/// A periodic refresh of a module label.
#[derive(Clone, Copy, Debug, PartialEq, Eq, Structural)]
pub struct ModuleTimer {
    pub source: TimerSource,
    pub interval_ms: u64,
}

/// `interval`, but at least `floor` milliseconds.
pub open spec fn at_least(interval: u64, floor: u64) -> u64 {
    if interval > floor {
        interval
    } else {
        floor
    }
}

/// The timer of a built-in module, when it is enabled: every `interval` milliseconds,
/// at least every 100.
pub open spec fn builtin_timer(enabled: bool, interval: u64, kind: BuiltinModule) -> Seq<
    ModuleTimer,
> {
    if enabled {
        seq![ModuleTimer { source: TimerSource::Builtin(kind), interval_ms: at_least(interval, 100) }]
    } else {
        seq![]
    }
}

/// The timers of the enabled custom modules among `custom[from..]`, in order.
pub open spec fn custom_timers(custom: Seq<CustomEntry>, from: int) -> Seq<ModuleTimer>
    decreases custom.len() - from,
{
    if from < 0 || from >= custom.len() {
        seq![]
    } else {
        let rest = custom_timers(custom, from + 1);
        if custom[from].module.enabled {
            seq![
                ModuleTimer {
                    source: TimerSource::Custom(from as usize),
                    interval_ms: at_least(custom[from].module.interval, 100),
                },
            ] + rest
        } else {
            rest
        }
    }
}

/// The timers the bar starts: the enabled built-in modules in the order cpu, ram,
/// network, volume, battery; the enabled custom modules; the clock when it is enabled,
/// at least every 200 milliseconds.
pub open spec fn timers_of(config: Config) -> Seq<ModuleTimer> {
    builtin_timer(config.cpu.enabled, config.cpu.interval, BuiltinModule::Cpu) + builtin_timer(
        config.ram.enabled,
        config.ram.interval,
        BuiltinModule::Ram,
    ) + builtin_timer(config.network.enabled, config.network.interval, BuiltinModule::Network)
        + builtin_timer(config.volume.enabled, config.volume.interval, BuiltinModule::Volume)
        + builtin_timer(config.battery.enabled, config.battery.interval, BuiltinModule::Battery)
        + custom_timers(config.custom@, 0) + if config.clock.enabled {
        seq![ModuleTimer { source: TimerSource::Clock, interval_ms: at_least(config.clock.interval, 200) }]
    } else {
        seq![]
    }
}

fn push_builtin_timer(out: &mut Vec<ModuleTimer>, enabled: bool, interval: u64, kind: BuiltinModule)
    ensures
        final(out)@ == old(out)@ + builtin_timer(enabled, interval, kind),
{
    if enabled {
        let ms = if interval > 100 {
            interval
        } else {
            100
        };
        out.push(ModuleTimer { source: TimerSource::Builtin(kind), interval_ms: ms });
        assert(old(out)@ + builtin_timer(enabled, interval, kind) =~= final(out)@);
    } else {
        assert(old(out)@ + builtin_timer(enabled, interval, kind) =~= old(out)@);
    }
}

/// The timers the bar starts (see `timers_of`).
pub fn start_module_timers(config: &Config) -> (r: Vec<ModuleTimer>)
    ensures
        r@ == timers_of(*config),
{
    let mut out: Vec<ModuleTimer> = Vec::new();
    push_builtin_timer(&mut out, config.cpu.enabled, config.cpu.interval, BuiltinModule::Cpu);
    push_builtin_timer(&mut out, config.ram.enabled, config.ram.interval, BuiltinModule::Ram);
    push_builtin_timer(
        &mut out,
        config.network.enabled,
        config.network.interval,
        BuiltinModule::Network,
    );
    push_builtin_timer(
        &mut out,
        config.volume.enabled,
        config.volume.interval,
        BuiltinModule::Volume,
    );
    push_builtin_timer(
        &mut out,
        config.battery.enabled,
        config.battery.interval,
        BuiltinModule::Battery,
    );
    let ghost builtins = out@;
    let mut i: usize = 0;
    assert(out@ + custom_timers(config.custom@, 0) =~= builtins + custom_timers(config.custom@, 0));
    while i < config.custom.len()
        invariant
            i <= config.custom@.len(),
            out@ + custom_timers(config.custom@, i as int) == builtins + custom_timers(
                config.custom@,
                0,
            ),
        decreases config.custom.len() - i,
    {
        let ghost before = out@;
        if config.custom[i].module.enabled {
            let interval = config.custom[i].module.interval;
            let ms = if interval > 100 {
                interval
            } else {
                100
            };
            out.push(ModuleTimer { source: TimerSource::Custom(i), interval_ms: ms });
            assert(before + custom_timers(config.custom@, i as int) =~= out@ + custom_timers(
                config.custom@,
                i + 1,
            ));
        }
        i = i + 1;
    }
    assert(out@ + custom_timers(config.custom@, i as int) =~= out@);
    let ghost with_custom = out@;
    if config.clock.enabled {
        let interval = config.clock.interval;
        let ms = if interval > 200 {
            interval
        } else {
            200
        };
        out.push(ModuleTimer { source: TimerSource::Clock, interval_ms: ms });
    }
    assert(out@ =~= timers_of(*config));
    out
}

/// How often the workspace buttons are rebuilt: every `interval` milliseconds, at least
/// every 100; not at all when the workspaces are disabled.
pub fn workspace_refresh_interval(config: &Config) -> (r: Option<u64>)
    ensures
        r == (if config.workspaces.enabled {
            Some(at_least(config.workspaces.interval, 100))
        } else {
            None
        }),
{
    if config.workspaces.enabled {
        let interval = config.workspaces.interval;
        Some(
            if interval > 100 {
                interval
            } else {
                100
            },
        )
    } else {
        None
    }
}


// ------------------------------------------------------------
// Properties
// ------------------------------------------------------------

/// Whether `c` may stand in a CSS class name as the bar writes them.
pub open spec fn is_css_name_char(c: char) -> bool {
    crate::text::is_ascii_alphanumeric(c) || c == '-' || c == '_'
}

/// A name made fit for CSS keeps its length, holds only letters, digits, `-` and `_`,
/// and is left unchanged when made fit again.
pub proof fn law_safe_css(name: Seq<char>)
    ensures
        safe_css(name).len() == name.len(),
        forall|i: int| 0 <= i < name.len() ==> is_css_name_char(#[trigger] safe_css(name)[i]),
        safe_css(safe_css(name)) == safe_css(name),
{
    assert(safe_css(safe_css(name)) =~= safe_css(name));
}

proof fn lemma_custom_timer_floor(custom: Seq<CustomEntry>, from: int)
    ensures
        forall|i: int|
            0 <= i < custom_timers(custom, from).len() ==> (#[trigger] custom_timers(
                custom,
                from,
            )[i]).interval_ms >= 100 && custom_timers(custom, from)[i].source is Custom,
    decreases custom.len() - from,
{
    if !(from < 0 || from >= custom.len()) {
        lemma_custom_timer_floor(custom, from + 1);
    }
}

/// No timer the bar starts runs more often than every 100 milliseconds, and the clock's
/// timer not more often than every 200.
pub proof fn law_timer_floors(config: Config)
    ensures
        forall|i: int|
            0 <= i < timers_of(config).len() ==> (#[trigger] timers_of(config)[i]).interval_ms >= 100,
        forall|i: int|
            0 <= i < timers_of(config).len() && (#[trigger] timers_of(config)[i]).source
                is Clock ==> timers_of(config)[i].interval_ms >= 200,
{
    lemma_custom_timer_floor(config.custom@, 0);
    let b = builtin_timer(config.cpu.enabled, config.cpu.interval, BuiltinModule::Cpu)
        + builtin_timer(config.ram.enabled, config.ram.interval, BuiltinModule::Ram)
        + builtin_timer(config.network.enabled, config.network.interval, BuiltinModule::Network)
        + builtin_timer(config.volume.enabled, config.volume.interval, BuiltinModule::Volume)
        + builtin_timer(config.battery.enabled, config.battery.interval, BuiltinModule::Battery);
    let c = custom_timers(config.custom@, 0);
    let k: Seq<ModuleTimer> = if config.clock.enabled {
        seq![ModuleTimer { source: TimerSource::Clock, interval_ms: at_least(config.clock.interval, 200) }]
    } else {
        seq![]
    };
    let t = timers_of(config);
    assert(t == b + c + k);
    assert(b.len() <= 5);
    assert forall|i: int| 0 <= i < b.len() implies (#[trigger] b[i]).interval_ms >= 100
        && b[i].source is Builtin by {
        let b1 = builtin_timer(config.cpu.enabled, config.cpu.interval, BuiltinModule::Cpu);
        let b2 = builtin_timer(config.ram.enabled, config.ram.interval, BuiltinModule::Ram);
        let b3 = builtin_timer(config.network.enabled, config.network.interval, BuiltinModule::Network);
        let b4 = builtin_timer(config.volume.enabled, config.volume.interval, BuiltinModule::Volume);
        let b5 = builtin_timer(config.battery.enabled, config.battery.interval, BuiltinModule::Battery);
        let p1 = b1;
        let p2 = p1 + b2;
        let p3 = p2 + b3;
        let p4 = p3 + b4;
        assert(b == p4 + b5);
        if i < p4.len() {
            assert(b[i] == p4[i]);
            if i < p3.len() {
                assert(p4[i] == p3[i]);
                if i < p2.len() {
                    assert(p3[i] == p2[i]);
                    if i < p1.len() {
                        assert(p2[i] == p1[i]);
                    } else {
                        assert(p2[i] == b2[i - p1.len()]);
                    }
                } else {
                    assert(p3[i] == b3[i - p2.len()]);
                }
            } else {
                assert(p4[i] == b4[i - p3.len()]);
            }
        } else {
            assert(b[i] == b5[i - p4.len()]);
        }
    }
    assert forall|i: int| 0 <= i < t.len() implies (#[trigger] t[i]).interval_ms >= 100 && (t[i].source
        is Clock ==> t[i].interval_ms >= 200) by {
        if i < b.len() {
            assert(t[i] == b[i]);
        } else if i < b.len() + c.len() {
            assert(t[i] == c[i - b.len()]);
        } else {
            assert(t[i] == k[i - b.len() - c.len()]);
        }
    }
}

} // verus!
