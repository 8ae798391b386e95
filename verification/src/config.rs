//! The configuration of the bar and its defaults.
use vstd::prelude::*;

verus! {

broadcast use vstd::string::group_string_axioms;

/// An opacity as the configuration holds it: the bit pattern of the `f32` that was
/// written (by which it is compared with 0), and the text by which CSS writes it once it
/// is limited to the range 0 to 1 (`Display` of the clamped value).
#[derive(Clone, Debug)]
pub struct Opacity {
    pub bits: u32,
    pub css: String,
}

/// A named custom module; the names of a configuration's custom modules are distinct.
#[derive(Clone, Debug)]
pub struct CustomEntry {
    pub name: String,
    pub module: CustomModule,
}

/// The whole configuration of the bar, as `config.toml` holds it.
#[derive(Clone, Debug)]
pub struct Config {
    pub bar: BarConfig,
    pub style: StyleConfig,
    pub font: FontConfig,
    pub spacing: SpacingConfig,
    pub layout: LayoutConfig,
    pub logo: LogoConfig,
    pub logo_text: LogoTextConfig,
    pub workspaces: WorkspaceConfig,
    pub cpu: ModuleConfig,
    pub ram: ModuleConfig,
    pub network: ModuleConfig,
    pub volume: ModuleConfig,
    pub battery: ModuleConfig,
    pub clock: ClockConfig,
    pub custom: Vec<CustomEntry>,
    pub css: CssConfig,
}

impl Config {
    /// Whether every field holds its default value.
    pub open spec fn is_default(&self) -> bool {
        &&& self.bar.is_default()
        &&& self.style.is_default()
        &&& self.font.is_default()
        &&& self.spacing.is_default()
        &&& self.layout.is_default()
        &&& self.logo.is_default()
        &&& self.logo_text.is_default()
        &&& self.workspaces.is_default()
        &&& self.cpu.is_cpu_default()
        &&& self.ram.is_ram_default()
        &&& self.network.is_network_default()
        &&& self.volume.is_volume_default()
        &&& self.battery.is_battery_default()
        &&& self.clock.is_default()
        &&& self.custom@.len() == 0
        &&& self.css.is_default()
    }

    /// Whether the configuration is one a file can hold: no two custom modules share a
    /// name (the file holds them as a table keyed by name).
    pub open spec fn well_formed(&self) -> bool {
        distinct_names(self.custom@)
    }
}

/// Whether no two entries of `custom` have the same name.
pub open spec fn distinct_names(custom: Seq<CustomEntry>) -> bool {
    forall|i: int, j: int|
        0 <= i < custom.len() && 0 <= j < custom.len() && i != j ==> #[trigger] custom[i].name@
            != #[trigger] custom[j].name@
}

fn same_name(a: &String, b: &String) -> (r: bool)
    ensures
        r == (a@ == b@),
{
    let av = crate::text::chars_of(a.as_str());
    let bv = crate::text::chars_of(b.as_str());
    if av.len() != bv.len() {
        return false;
    }
    let mut k: usize = 0;
    while k < av.len()
        invariant
            k <= av@.len(),
            av@.len() == bv@.len(),
            av@ == a@,
            bv@ == b@,
            forall|m: int| 0 <= m < k ==> av@[m] == bv@[m],
        decreases av.len() - k,
    {
        if av[k] != bv[k] {
            return false;
        }
        k = k + 1;
    }
    assert(av@ =~= bv@);
    true
}

/// Whether no two custom modules of `custom` share a name (see `distinct_names`).
pub fn custom_names_are_distinct(custom: &Vec<CustomEntry>) -> (b: bool)
    ensures
        b == distinct_names(custom@),
{
    let mut i: usize = 0;
    while i < custom.len()
        invariant
            i <= custom@.len(),
            forall|a: int, c: int|
                0 <= a < i && 0 <= c < custom@.len() && a != c ==> #[trigger] custom@[a].name@
                    != #[trigger] custom@[c].name@,
        decreases custom.len() - i,
    {
        let mut j: usize = 0;
        while j < custom.len()
            invariant
                i < custom@.len(),
                j <= custom@.len(),
                forall|a: int, c: int|
                    0 <= a < i && 0 <= c < custom@.len() && a != c ==> #[trigger] custom@[a].name@
                        != #[trigger] custom@[c].name@,
                forall|c: int| 0 <= c < j && c != i ==> custom@[i as int].name@ != #[trigger] custom@[c].name@,
            decreases custom.len() - j,
        {
            if j != i && same_name(&custom[i].name, &custom[j].name) {
                return false;
            }
            j = j + 1;
        }
        i = i + 1;
    }
    true
}

/// `short` when it is set (not blank), else `full`.
pub open spec fn text_or(short: String, full: String) -> String {
    if crate::text::trim(short@).len() > 0 {
        short
    } else {
        full
    }
}

/// `short` when it is set (not below zero), else `full`.
pub open spec fn opacity_or(short: Opacity, full: Opacity) -> Opacity {
    if crate::style::below_zero(short.bits) {
        full
    } else {
        short
    }
}

/// `short` when it is set (not negative), else `full`.
pub open spec fn number_or(short: i32, full: i32) -> i32 {
    if short < 0 {
        full
    } else {
        short
    }
}

/// The configuration with its short keys read: `[style]` `background`, `opacity`,
/// `border_color`, `border_width` and `border_radius` set the bar's background, opacity,
/// border and radius, and `background_hover` the modules' hover background;
/// `[workspaces]` `inactive_color` and `inactive_background` set the buttons' color and
/// background, and `active_color`, `active_background`, `urgent_color` and
/// `urgent_background` those of the active and urgent buttons. A short key that is
/// unset leaves its setting as it was.
pub open spec fn short_keys_applied(c: Config) -> Config {
    Config {
        style: StyleConfig {
            bar_background: text_or(c.style.background, c.style.bar_background),
            module_hover_background: text_or(c.style.background_hover, c.style.module_hover_background),
            bar_opacity: opacity_or(c.style.opacity, c.style.bar_opacity),
            bar_border_color: text_or(c.style.border_color, c.style.bar_border_color),
            bar_border_width: number_or(c.style.border_width, c.style.bar_border_width),
            bar_radius: number_or(c.style.border_radius, c.style.bar_radius),
            ..c.style
        },
        workspaces: WorkspaceConfig {
            color: text_or(c.workspaces.inactive_color, c.workspaces.color),
            background: text_or(c.workspaces.inactive_background, c.workspaces.background),
            active: WorkspaceStateStyle {
                color: text_or(c.workspaces.active_color, c.workspaces.active.color),
                background: text_or(c.workspaces.active_background, c.workspaces.active.background),
                ..c.workspaces.active
            },
            urgent: WorkspaceStateStyle {
                color: text_or(c.workspaces.urgent_color, c.workspaces.urgent.color),
                background: text_or(c.workspaces.urgent_background, c.workspaces.urgent.background),
                ..c.workspaces.urgent
            },
            ..c.workspaces
        },
        ..c
    }
}

fn is_set(s: &String) -> (b: bool)
    ensures
        b == (crate::text::trim(s@).len() > 0),
{
    let v = crate::text::chars_of(s.as_str());
    crate::text::trim_chars(v.as_slice()).len() > 0
}

fn copy_if_set(short: &String, full: &mut String)
    ensures
        *final(full) == text_or(*short, *old(full)),
{
    if is_set(short) {
        *full = short.clone();
    }
}

/// Reads the short keys of the configuration (see `short_keys_applied`).
pub fn apply_short_keys(config: &mut Config)
    ensures
        *final(config) == short_keys_applied(*old(config)),
{
    copy_if_set(&config.style.background, &mut config.style.bar_background);
    copy_if_set(&config.style.background_hover, &mut config.style.module_hover_background);
    if !(0x8000_0000 < config.style.opacity.bits && config.style.opacity.bits <= 0xFF80_0000) {
        config.style.bar_opacity = Opacity {
            bits: config.style.opacity.bits,
            css: config.style.opacity.css.clone(),
        };
    }
    copy_if_set(&config.style.border_color, &mut config.style.bar_border_color);
    if config.style.border_width >= 0 {
        config.style.bar_border_width = config.style.border_width;
    }
    if config.style.border_radius >= 0 {
        config.style.bar_radius = config.style.border_radius;
    }
    copy_if_set(&config.workspaces.inactive_color, &mut config.workspaces.color);
    copy_if_set(&config.workspaces.inactive_background, &mut config.workspaces.background);
    copy_if_set(&config.workspaces.active_color, &mut config.workspaces.active.color);
    copy_if_set(&config.workspaces.active_background, &mut config.workspaces.active.background);
    copy_if_set(&config.workspaces.urgent_color, &mut config.workspaces.urgent.color);
    copy_if_set(&config.workspaces.urgent_background, &mut config.workspaces.urgent.background);
}

/// The `[css]` table: a style sheet of the user's own, added after the bar's.
#[derive(Clone, Debug)]
pub struct CssConfig {
    pub custom: String,
}

impl CssConfig {
    /// Whether every field holds its default value.
    pub open spec fn is_default(&self) -> bool {
        self.custom@ == Seq::<char>::empty()
    }
}

impl Default for CssConfig {
    fn default() -> (r: Self)
        ensures
            r.is_default(),
    {
        CssConfig { custom: String::new() }
    }
}

impl Default for Config {
    fn default() -> (r: Self)
        ensures
            r.is_default(),
            r.well_formed(),
    {
        Config {
            bar: BarConfig::default(),
            style: StyleConfig::default(),
            font: FontConfig::default(),
            spacing: SpacingConfig::default(),
            layout: LayoutConfig::default(),
            logo: LogoConfig::default(),
            logo_text: LogoTextConfig::default(),
            workspaces: WorkspaceConfig::default(),
            cpu: ModuleConfig::cpu(),
            ram: ModuleConfig::ram(),
            network: ModuleConfig::network(),
            volume: ModuleConfig::volume(),
            battery: ModuleConfig::battery(),
            clock: ClockConfig::default(),
            custom: Vec::new(),
            css: CssConfig::default(),
        }
    }
}

/// Size, position and layer of the bar window.
#[derive(Clone, Debug)]
pub struct BarConfig {
    pub width: i32,
    pub height: i32,
    pub position: String,
    pub margin_top: i32,
    pub margin_bottom: i32,
    pub margin_left: i32,
    pub margin_right: i32,
    pub exclusive_zone: i32,
    pub layer: String,
    pub keyboard_mode: String,
}

impl BarConfig {
    /// Whether every field holds its default value.
    pub open spec fn is_default(&self) -> bool {
        &&& self.width == 0
        &&& self.height == 32
        &&& self.position@ == "top"@
        &&& self.margin_top == 0
        &&& self.margin_bottom == 0
        &&& self.margin_left == 0
        &&& self.margin_right == 0
        &&& self.exclusive_zone == 32
        &&& self.layer@ == "top"@
        &&& self.keyboard_mode@ == "none"@
    }
}

impl Default for BarConfig {
    fn default() -> (r: Self)
        ensures
            r.is_default(),
    {
        BarConfig {
            width: 0,
            height: 32,
            position: String::from_str("top"),
            margin_top: 0,
            margin_bottom: 0,
            margin_left: 0,
            margin_right: 0,
            exclusive_zone: 32,
            layer: String::from_str("top"),
            keyboard_mode: String::from_str("none"),
        }
    }
}

/// Colors, borders and sizes shared by all modules.
#[derive(Clone, Debug)]
pub struct StyleConfig {
    pub bar_background: String,
    pub bar_opacity: Opacity,
    pub bar_border_color: String,
    pub bar_border_opacity: Opacity,
    pub bar_border_width: i32,
    pub bar_radius: i32,
    pub module_background: String,
    pub module_opacity: Opacity,
    pub module_hover_background: String,
    pub module_hover_opacity: Opacity,
    pub module_border_color: String,
    pub module_border_opacity: Opacity,
    pub module_border_width: i32,
    pub module_radius: i32,
    pub module_padding: i32,
    pub module_width: i32,
    pub module_height: i32,
    pub text_color: String,
    pub muted_color: String,
    pub accent_color: String,
    pub workspace_background: String,
    pub workspace_active_background: String,
    pub workspace_hover_background: String,
    pub workspace_urgent_background: String,
    pub workspace_active_color: String,
    pub workspace_inactive_color: String,
    pub workspace_urgent_color: String,
    pub workspace_border_color: String,
    pub workspace_border_width: i32,
    pub workspace_radius: i32,
    pub clock_background: String,
    pub clock_opacity: Opacity,
    pub clock_hover_background: String,
    pub clock_border_color: String,
    pub clock_border_width: i32,
    pub clock_radius: i32,
    /// Short keys for the bar itself, read by `apply_short_keys`: its background, the
    /// modules' hover background, its opacity, border color, border width and corner
    /// radius. Blank text, a negative opacity or a negative number means unset.
    pub background: String,
    pub background_hover: String,
    pub opacity: Opacity,
    pub border_color: String,
    pub border_width: i32,
    pub border_radius: i32,
}

impl StyleConfig {
    /// Whether every field holds its default value.
    pub open spec fn is_default(&self) -> bool {
        &&& self.bar_background@ == "#000000"@
        &&& self.bar_opacity.bits == 0x3F266666 && self.bar_opacity.css@ == "0.65"@  // 0.65
        &&& self.bar_border_color@ == "#ffffff"@
        &&& self.bar_border_opacity.bits == 0x3DA3D70A && self.bar_border_opacity.css@ == "0.08"@  // 0.08
        &&& self.bar_border_width == 0
        &&& self.bar_radius == 0
        &&& self.module_background@ == "#000000"@
        &&& self.module_opacity.bits == 0x3F266666 && self.module_opacity.css@ == "0.65"@  // 0.65
        &&& self.module_hover_background@ == "#ffffff"@
        &&& self.module_hover_opacity.bits == 0x3DCCCCCD && self.module_hover_opacity.css@ == "0.1"@  // 0.10
        &&& self.module_border_color@ == "#ffffff"@
        &&& self.module_border_opacity.bits == 0x3DCCCCCD && self.module_border_opacity.css@ == "0.1"@  // 0.10
        &&& self.module_border_width == 1
        &&& self.module_radius == 8
        &&& self.module_padding == 10
        &&& self.module_width == 0
        &&& self.module_height == 0
        &&& self.text_color@ == "#ffffff"@
        &&& self.muted_color@ == "#888888"@
        &&& self.accent_color@ == "#ffffff"@
        &&& self.workspace_background@ == "transparent"@
        &&& self.workspace_active_background@ == "#ffffff"@
        &&& self.workspace_hover_background@ == "#ffffff"@
        &&& self.workspace_urgent_background@ == "#ffffff"@
        &&& self.workspace_active_color@ == "#ffffff"@
        &&& self.workspace_inactive_color@ == "#8f8f98"@
        &&& self.workspace_urgent_color@ == "#ffffff"@
        &&& self.workspace_border_color@ == "#ffffff"@
        &&& self.workspace_border_width == 0
        &&& self.workspace_radius == 8
        &&& self.clock_background@ == "#000000"@
        &&& self.clock_opacity.bits == 0x3F266666 && self.clock_opacity.css@ == "0.65"@  // 0.65
        &&& self.clock_hover_background@ == "#ffffff"@
        &&& self.clock_border_color@ == "#ffffff"@
        &&& self.clock_border_width == 1
        &&& self.clock_radius == 8
        &&& self.background@ == Seq::<char>::empty()
        &&& self.background_hover@ == Seq::<char>::empty()
        &&& self.opacity.bits == 0xBF800000 && self.opacity.css@ == "0"@
        &&& self.border_color@ == Seq::<char>::empty()
        &&& self.border_width == -1
        &&& self.border_radius == -1
    }
}

impl Default for StyleConfig {
    fn default() -> (r: Self)
        ensures
            r.is_default(),
    {
        StyleConfig {
            bar_background: String::from_str("#000000"),
            bar_opacity: Opacity { bits: 0x3F266666, css: String::from_str("0.65") },  // 0.65
            bar_border_color: String::from_str("#ffffff"),
            bar_border_opacity: Opacity { bits: 0x3DA3D70A, css: String::from_str("0.08") },  // 0.08
            bar_border_width: 0,
            bar_radius: 0,
            module_background: String::from_str("#000000"),
            module_opacity: Opacity { bits: 0x3F266666, css: String::from_str("0.65") },  // 0.65
            module_hover_background: String::from_str("#ffffff"),
            module_hover_opacity: Opacity { bits: 0x3DCCCCCD, css: String::from_str("0.1") },  // 0.10
            module_border_color: String::from_str("#ffffff"),
            module_border_opacity: Opacity { bits: 0x3DCCCCCD, css: String::from_str("0.1") },  // 0.10
            module_border_width: 1,
            module_radius: 8,
            module_padding: 10,
            module_width: 0,
            module_height: 0,
            text_color: String::from_str("#ffffff"),
            muted_color: String::from_str("#888888"),
            accent_color: String::from_str("#ffffff"),
            workspace_background: String::from_str("transparent"),
            workspace_active_background: String::from_str("#ffffff"),
            workspace_hover_background: String::from_str("#ffffff"),
            workspace_urgent_background: String::from_str("#ffffff"),
            workspace_active_color: String::from_str("#ffffff"),
            workspace_inactive_color: String::from_str("#8f8f98"),
            workspace_urgent_color: String::from_str("#ffffff"),
            workspace_border_color: String::from_str("#ffffff"),
            workspace_border_width: 0,
            workspace_radius: 8,
            clock_background: String::from_str("#000000"),
            clock_opacity: Opacity { bits: 0x3F266666, css: String::from_str("0.65") },  // 0.65
            clock_hover_background: String::from_str("#ffffff"),
            clock_border_color: String::from_str("#ffffff"),
            clock_border_width: 1,
            clock_radius: 8,
            background: String::new(),
            background_hover: String::new(),
            opacity: Opacity { bits: 0xBF800000, css: String::from_str("0") },
            border_color: String::new(),
            border_width: -1,
            border_radius: -1,
        }
    }
}

/// The font of the bar.
#[derive(Clone, Debug)]
pub struct FontConfig {
    pub family: String,
    pub size: i32,
    pub weight: i32,
    pub logo_size: i32,
    pub workspace_size: i32,
}

impl FontConfig {
    /// Whether every field holds its default value.
    pub open spec fn is_default(&self) -> bool {
        &&& self.family@ == "JetBrainsMono Nerd Font"@
        &&& self.size == 12
        &&& self.weight == 600
        &&& self.logo_size == 18
        &&& self.workspace_size == 12
    }
}

impl Default for FontConfig {
    fn default() -> (r: Self)
        ensures
            r.is_default(),
    {
        FontConfig {
            family: String::from_str("JetBrainsMono Nerd Font"),
            size: 12,
            weight: 600,
            logo_size: 18,
            workspace_size: 12,
        }
    }
}

/// Gaps and paddings.
#[derive(Clone, Debug)]
pub struct SpacingConfig {
    pub zone: i32,
    pub module: i32,
    pub horizontal: i32,
    pub vertical: i32,
    pub bar_horizontal: i32,
    pub bar_vertical: i32,
}

impl SpacingConfig {
    /// Whether every field holds its default value.
    pub open spec fn is_default(&self) -> bool {
        &&& self.zone == 0
        &&& self.module == 4
        &&& self.horizontal == 10
        &&& self.vertical == 3
        &&& self.bar_horizontal == 5
        &&& self.bar_vertical == 4
    }
}

impl Default for SpacingConfig {
    fn default() -> (r: Self)
        ensures
            r.is_default(),
    {
        SpacingConfig {
            zone: 0,
            module: 4,
            horizontal: 10,
            vertical: 3,
            bar_horizontal: 5,
            bar_vertical: 4,
        }
    }
}

/// Which modules stand in the left, center and right zones, in order.
#[derive(Clone, Debug)]
pub struct LayoutConfig {
    pub left: Vec<String>,
    pub center: Vec<String>,
    pub right: Vec<String>,
}

impl LayoutConfig {
    /// Whether every field holds its default value.
    pub open spec fn is_default(&self) -> bool {
        &&& self.left@.len() == 2
        &&& self.left@[0]@ == "logo"@
        &&& self.left@[1]@ == "workspaces"@
        &&& self.center@.len() == 1
        &&& self.center@[0]@ == "clock"@
        &&& self.right@.len() == 5
        &&& self.right@[0]@ == "cpu"@
        &&& self.right@[1]@ == "ram"@
        &&& self.right@[2]@ == "network"@
        &&& self.right@[3]@ == "volume"@
        &&& self.right@[4]@ == "battery"@
    }
}

impl Default for LayoutConfig {
    fn default() -> (r: Self)
        ensures
            r.is_default(),
    {
        LayoutConfig {
            left: vec![String::from_str("logo"), String::from_str("workspaces")],
            center: vec![String::from_str("clock")],
            right: vec![String::from_str("cpu"), String::from_str("ram"), String::from_str("network"), String::from_str("volume"), String::from_str("battery")],
        }
    }
}

/// The logo icon at the start of the bar.
#[derive(Clone, Debug)]
pub struct LogoConfig {
    pub enabled: bool,
    pub icon_enabled: bool,
    pub icon: String,
    pub icon_color: String,
    pub background: String,
    pub hover_background: String,
    pub opacity: Opacity,
    pub border_color: String,
    pub border_width: i32,
    pub border_opacity: Opacity,
    pub padding: i32,
    pub radius: i32,
    pub width: i32,
    pub height: i32,
    pub left_click: String,
    pub right_click: String,
    pub middle_click: String,
}

impl LogoConfig {
    /// Whether every field holds its default value.
    pub open spec fn is_default(&self) -> bool {
        &&& self.enabled == true
        &&& self.icon_enabled == true
        &&& self.icon@ == "\u{f303}"@
        &&& self.icon_color@ == "#ffffff"@
        &&& self.background@ == "transparent"@
        &&& self.hover_background@ == "#ffffff"@
        &&& self.opacity.bits == 0x3F800000 && self.opacity.css@ == "1"@  // 1.0
        &&& self.border_color@ == "#ffffff"@
        &&& self.border_width == 0
        &&& self.border_opacity.bits == 0x00000000 && self.border_opacity.css@ == "0"@  // 0.0
        &&& self.padding == 9
        &&& self.radius == 8
        &&& self.width == 0
        &&& self.height == 0
        &&& self.left_click@ == "wofi --show drun"@
        &&& self.right_click@ == Seq::<char>::empty()
        &&& self.middle_click@ == Seq::<char>::empty()
    }
}

impl Default for LogoConfig {
    fn default() -> (r: Self)
        ensures
            r.is_default(),
    {
        LogoConfig {
            enabled: true,
            icon_enabled: true,
            icon: String::from_str("\u{f303}"),
            icon_color: String::from_str("#ffffff"),
            background: String::from_str("transparent"),
            hover_background: String::from_str("#ffffff"),
            opacity: Opacity { bits: 0x3F800000, css: String::from_str("1") },  // 1.0
            border_color: String::from_str("#ffffff"),
            border_width: 0,
            border_opacity: Opacity { bits: 0x00000000, css: String::from_str("0") },  // 0.0
            padding: 9,
            radius: 8,
            width: 0,
            height: 0,
            left_click: String::from_str("wofi --show drun"),
            right_click: String::new(),
            middle_click: String::new(),
        }
    }
}

/// The text that may follow the logo icon.
#[derive(Clone, Debug)]
pub struct LogoTextConfig {
    pub enabled: bool,
    pub text: String,
    pub color: String,
    pub background: String,
    pub hover_background: String,
    pub opacity: Opacity,
    pub border_color: String,
    pub border_width: i32,
    pub border_opacity: Opacity,
    pub padding: i32,
    pub radius: i32,
    pub width: i32,
    pub height: i32,
}

impl LogoTextConfig {
    /// Whether every field holds its default value.
    pub open spec fn is_default(&self) -> bool {
        &&& self.enabled == false
        &&& self.text@ == "Raix"@
        &&& self.color@ == "#ffffff"@
        &&& self.background@ == "transparent"@
        &&& self.hover_background@ == "#ffffff"@
        &&& self.opacity.bits == 0x3F800000 && self.opacity.css@ == "1"@  // 1.0
        &&& self.border_color@ == "#ffffff"@
        &&& self.border_width == 0
        &&& self.border_opacity.bits == 0x00000000 && self.border_opacity.css@ == "0"@  // 0.0
        &&& self.padding == 9
        &&& self.radius == 8
        &&& self.width == 0
        &&& self.height == 0
    }
}

impl Default for LogoTextConfig {
    fn default() -> (r: Self)
        ensures
            r.is_default(),
    {
        LogoTextConfig {
            enabled: false,
            text: String::from_str("Raix"),
            color: String::from_str("#ffffff"),
            background: String::from_str("transparent"),
            hover_background: String::from_str("#ffffff"),
            opacity: Opacity { bits: 0x3F800000, css: String::from_str("1") },  // 1.0
            border_color: String::from_str("#ffffff"),
            border_width: 0,
            border_opacity: Opacity { bits: 0x00000000, css: String::from_str("0") },  // 0.0
            padding: 9,
            radius: 8,
            width: 0,
            height: 0,
        }
    }
}

/// How an active or urgent workspace button looks.
#[derive(Clone, Debug)]
pub struct WorkspaceStateStyle {
    pub color: String,
    pub background: String,
    pub opacity: Opacity,
    pub border_color: String,
    pub border_width: i32,
    pub border_opacity: Opacity,
    pub radius: i32,
}

impl WorkspaceStateStyle {
    /// Whether every field holds its default value.
    pub open spec fn is_default(&self) -> bool {
        &&& self.color@ == "#ffffff"@
        &&& self.background@ == "#ffffff"@
        &&& self.opacity.bits == 0x3E19999A && self.opacity.css@ == "0.15"@  // 0.15
        &&& self.border_color@ == "#ffffff"@
        &&& self.border_width == 1
        &&& self.border_opacity.bits == 0x3E19999A && self.border_opacity.css@ == "0.15"@  // 0.15
        &&& self.radius == 8
    }
}

impl Default for WorkspaceStateStyle {
    fn default() -> (r: Self)
        ensures
            r.is_default(),
    {
        WorkspaceStateStyle {
            color: String::from_str("#ffffff"),
            background: String::from_str("#ffffff"),
            opacity: Opacity { bits: 0x3E19999A, css: String::from_str("0.15") },  // 0.15
            border_color: String::from_str("#ffffff"),
            border_width: 1,
            border_opacity: Opacity { bits: 0x3E19999A, css: String::from_str("0.15") },  // 0.15
            radius: 8,
        }
    }
}

/// The Hyprland workspace buttons.
#[derive(Clone, Debug)]
pub struct WorkspaceConfig {
    pub enabled: bool,
    pub numbers: Vec<i32>,
    pub show_empty: bool,
    pub format: String,
    pub color: String,
    pub background: String,
    pub opacity: Opacity,
    pub hover_color: String,
    pub hover_background: String,
    pub hover_opacity: Opacity,
    pub hover_border_color: String,
    pub hover_border_width: i32,
    pub hover_border_opacity: Opacity,
    pub hover_radius: i32,
    pub border_color: String,
    pub border_width: i32,
    pub border_opacity: Opacity,
    pub radius: i32,
    pub padding: i32,
    pub gap: i32,
    pub width: i32,
    pub height: i32,
    pub active: WorkspaceStateStyle,
    pub urgent: WorkspaceStateStyle,
    pub container_background: String,
    pub container_opacity: Opacity,
    pub container_border_color: String,
    pub container_border_width: i32,
    pub container_border_opacity: Opacity,
    pub container_radius: i32,
    pub container_padding: i32,
    pub left_click: String,
    pub right_click: String,
    pub middle_click: String,
    pub scroll_switch: bool,
    pub scroll_up: String,
    pub scroll_down: String,
    pub interval: u64,
    /// Whether the buttons of special workspaces (negative ids) are shown when no
    /// numbers are configured.
    pub show_special: bool,
    /// Short keys for the colors of the buttons, read by `apply_short_keys`: the text
    /// color of the active, inactive and urgent buttons and their backgrounds. Blank
    /// means unset.
    pub active_color: String,
    pub inactive_color: String,
    pub urgent_color: String,
    pub active_background: String,
    pub inactive_background: String,
    pub urgent_background: String,
}

impl WorkspaceConfig {
    /// Whether every field holds its default value.
    pub open spec fn is_default(&self) -> bool {
        &&& self.enabled == true
        &&& self.numbers@ == seq![1i32, 2i32, 3i32, 4i32, 5i32]
        &&& self.show_empty == true
        &&& self.format@ == "{id}"@
        &&& self.color@ == "#8f8f98"@
        &&& self.background@ == "transparent"@
        &&& self.opacity.bits == 0x3F800000 && self.opacity.css@ == "1"@  // 1.0
        &&& self.hover_color@ == "#ffffff"@
        &&& self.hover_background@ == "#ffffff"@
        &&& self.hover_opacity.bits == 0x3DCCCCCD && self.hover_opacity.css@ == "0.1"@  // 0.10
        &&& self.hover_border_color@ == "#ffffff"@
        &&& self.hover_border_width == 0
        &&& self.hover_border_opacity.bits == 0x3E19999A && self.hover_border_opacity.css@ == "0.15"@  // 0.15
        &&& self.hover_radius == 8
        &&& self.border_color@ == "#ffffff"@
        &&& self.border_width == 0
        &&& self.border_opacity.bits == 0x00000000 && self.border_opacity.css@ == "0"@  // 0.0
        &&& self.radius == 8
        &&& self.padding == 9
        &&& self.gap == 3
        &&& self.width == 0
        &&& self.height == 30
        &&& self.active.color@ == "#ffffff"@
        &&& self.active.background@ == "#ffffff"@
        &&& self.active.opacity.bits == 0x3E19999A && self.active.opacity.css@ == "0.15"@  // 0.15
        &&& self.active.border_color@ == "#ffffff"@
        &&& self.active.border_width == 0
        &&& self.active.border_opacity.bits == 0x00000000 && self.active.border_opacity.css@ == "0"@  // 0.0
        &&& self.active.radius == 0
        &&& self.urgent.color@ == "#ffffff"@
        &&& self.urgent.background@ == "#ffffff"@
        &&& self.urgent.opacity.bits == 0x3E4CCCCD && self.urgent.opacity.css@ == "0.2"@  // 0.20
        &&& self.urgent.border_color@ == "#ffffff"@
        &&& self.urgent.border_width == 0
        &&& self.urgent.border_opacity.bits == 0x00000000 && self.urgent.border_opacity.css@ == "0"@  // 0.0
        &&& self.urgent.radius == 0
        &&& self.container_background@ == "#000000"@
        &&& self.container_opacity.bits == 0x3EB33333 && self.container_opacity.css@ == "0.35"@  // 0.35
        &&& self.container_border_color@ == "#ffffff"@
        &&& self.container_border_width == 0
        &&& self.container_border_opacity.bits == 0x3DA3D70A && self.container_border_opacity.css@ == "0.08"@  // 0.08
        &&& self.container_radius == 8
        &&& self.container_padding == 2
        &&& self.left_click@ == "hyprctl dispatch workspace {id}"@
        &&& self.right_click@ == Seq::<char>::empty()
        &&& self.middle_click@ == Seq::<char>::empty()
        &&& self.scroll_switch == true
        &&& self.scroll_up@ == "hyprctl dispatch workspace e-1"@
        &&& self.scroll_down@ == "hyprctl dispatch workspace e+1"@
        &&& self.interval == 500
        &&& self.show_special
        &&& self.active_color@ == Seq::<char>::empty()
        &&& self.inactive_color@ == Seq::<char>::empty()
        &&& self.urgent_color@ == Seq::<char>::empty()
        &&& self.active_background@ == Seq::<char>::empty()
        &&& self.inactive_background@ == Seq::<char>::empty()
        &&& self.urgent_background@ == Seq::<char>::empty()
    }
}

impl Default for WorkspaceConfig {
    fn default() -> (r: Self)
        ensures
            r.is_default(),
    {
        WorkspaceConfig {
            enabled: true,
            numbers: vec![1, 2, 3, 4, 5],
            show_empty: true,
            format: String::from_str("{id}"),
            color: String::from_str("#8f8f98"),
            background: String::from_str("transparent"),
            opacity: Opacity { bits: 0x3F800000, css: String::from_str("1") },  // 1.0
            hover_color: String::from_str("#ffffff"),
            hover_background: String::from_str("#ffffff"),
            hover_opacity: Opacity { bits: 0x3DCCCCCD, css: String::from_str("0.1") },  // 0.10
            hover_border_color: String::from_str("#ffffff"),
            hover_border_width: 0,
            hover_border_opacity: Opacity { bits: 0x3E19999A, css: String::from_str("0.15") },  // 0.15
            hover_radius: 8,
            border_color: String::from_str("#ffffff"),
            border_width: 0,
            border_opacity: Opacity { bits: 0x00000000, css: String::from_str("0") },  // 0.0
            radius: 8,
            padding: 9,
            gap: 3,
            width: 0,
            height: 30,
            active: WorkspaceStateStyle { color: String::from_str("#ffffff"), background: String::from_str("#ffffff"), opacity: Opacity { bits: 0x3E19999A, css: String::from_str("0.15") }, border_color: String::from_str("#ffffff"), border_width: 0, border_opacity: Opacity { bits: 0x00000000, css: String::from_str("0") }, radius: 0 },
            urgent: WorkspaceStateStyle { color: String::from_str("#ffffff"), background: String::from_str("#ffffff"), opacity: Opacity { bits: 0x3E4CCCCD, css: String::from_str("0.2") }, border_color: String::from_str("#ffffff"), border_width: 0, border_opacity: Opacity { bits: 0x00000000, css: String::from_str("0") }, radius: 0 },
            container_background: String::from_str("#000000"),
            container_opacity: Opacity { bits: 0x3EB33333, css: String::from_str("0.35") },  // 0.35
            container_border_color: String::from_str("#ffffff"),
            container_border_width: 0,
            container_border_opacity: Opacity { bits: 0x3DA3D70A, css: String::from_str("0.08") },  // 0.08
            container_radius: 8,
            container_padding: 2,
            left_click: String::from_str("hyprctl dispatch workspace {id}"),
            right_click: String::new(),
            middle_click: String::new(),
            scroll_switch: true,
            scroll_up: String::from_str("hyprctl dispatch workspace e-1"),
            scroll_down: String::from_str("hyprctl dispatch workspace e+1"),
            interval: 500,
            show_special: true,
            active_color: String::new(),
            inactive_color: String::new(),
            urgent_color: String::new(),
            active_background: String::new(),
            inactive_background: String::new(),
            urgent_background: String::new(),
        }
    }
}

/// A built-in module (cpu, ram, network, volume, battery).
#[derive(Clone, Debug)]
pub struct ModuleConfig {
    pub enabled: bool,
    pub format: String,
    pub icon: String,
    pub color: String,
    pub background: String,
    pub hover_background: String,
    pub opacity: Opacity,
    pub border_color: String,
    pub border_width: i32,
    pub border_opacity: Opacity,
    pub padding: i32,
    pub width: i32,
    pub height: i32,
    pub radius: i32,
    pub interval: u64,
    pub tooltip: String,
    pub left_click: String,
    pub right_click: String,
    pub middle_click: String,
    pub scroll_up: String,
    pub scroll_down: String,
}

impl ModuleConfig {
    /// Whether every field holds its default value.
    pub open spec fn is_default(&self) -> bool {
        &&& self.enabled == true
        &&& self.format@ == "{icon}  {value}"@
        &&& self.icon@ == Seq::<char>::empty()
        &&& self.color@ == Seq::<char>::empty()
        &&& self.background@ == Seq::<char>::empty()
        &&& self.hover_background@ == Seq::<char>::empty()
        &&& self.opacity.bits == 0xBF800000 && self.opacity.css@ == "0"@  // -1.0
        &&& self.border_color@ == Seq::<char>::empty()
        &&& self.border_width == -1
        &&& self.border_opacity.bits == 0xBF800000 && self.border_opacity.css@ == "0"@  // -1.0
        &&& self.padding == 0
        &&& self.width == 0
        &&& self.height == 0
        &&& self.radius == -1
        &&& self.interval == 1000
        &&& self.tooltip@ == Seq::<char>::empty()
        &&& self.left_click@ == Seq::<char>::empty()
        &&& self.right_click@ == Seq::<char>::empty()
        &&& self.middle_click@ == Seq::<char>::empty()
        &&& self.scroll_up@ == Seq::<char>::empty()
        &&& self.scroll_down@ == Seq::<char>::empty()
    }

    /// Whether every field but `format` and `icon` holds its default value.
    pub open spec fn is_default_but_text(&self) -> bool {
        &&& self.enabled == true
        &&& self.color@ == Seq::<char>::empty()
        &&& self.background@ == Seq::<char>::empty()
        &&& self.hover_background@ == Seq::<char>::empty()
        &&& self.opacity.bits == 0xBF800000 && self.opacity.css@ == "0"@  // -1.0
        &&& self.border_color@ == Seq::<char>::empty()
        &&& self.border_width == -1
        &&& self.border_opacity.bits == 0xBF800000 && self.border_opacity.css@ == "0"@  // -1.0
        &&& self.padding == 0
        &&& self.width == 0
        &&& self.height == 0
        &&& self.radius == -1
        &&& self.interval == 1000
        &&& self.tooltip@ == Seq::<char>::empty()
        &&& self.left_click@ == Seq::<char>::empty()
        &&& self.right_click@ == Seq::<char>::empty()
        &&& self.middle_click@ == Seq::<char>::empty()
        &&& self.scroll_up@ == Seq::<char>::empty()
        &&& self.scroll_down@ == Seq::<char>::empty()
    }

    /// Whether this is the default configuration of the cpu module.
    pub open spec fn is_cpu_default(&self) -> bool {
        &&& self.is_default_but_text()
        &&& self.format@ == "{icon}  {value}%"@
        &&& self.icon@ == "\u{f035b}"@
    }

    /// Whether this is the default configuration of the ram module.
    pub open spec fn is_ram_default(&self) -> bool {
        &&& self.is_default_but_text()
        &&& self.format@ == "{icon}  {value}%"@
        &&& self.icon@ == "\u{f061a}"@
    }

    /// Whether this is the default configuration of the network module.
    pub open spec fn is_network_default(&self) -> bool {
        &&& self.is_default_but_text()
        &&& self.format@ == "{icon}  {value}"@
        &&& self.icon@ == "\u{f05a9}"@
    }

    /// Whether this is the default configuration of the volume module.
    pub open spec fn is_volume_default(&self) -> bool {
        &&& self.is_default_but_text()
        &&& self.format@ == "{icon}  {value}%"@
        &&& self.icon@ == "\u{f057e}"@
    }

    /// Whether this is the default configuration of the battery module.
    pub open spec fn is_battery_default(&self) -> bool {
        &&& self.is_default_but_text()
        &&& self.format@ == "{icon}  {value}%"@
        &&& self.icon@ == "\u{f0079}"@
    }
}

impl Default for ModuleConfig {
    fn default() -> (r: Self)
        ensures
            r.is_default(),
    {
        ModuleConfig {
            enabled: true,
            format: String::from_str("{icon}  {value}"),
            icon: String::new(),
            color: String::new(),
            background: String::new(),
            hover_background: String::new(),
            opacity: Opacity { bits: 0xBF800000, css: String::from_str("0") },  // -1.0
            border_color: String::new(),
            border_width: -1,
            border_opacity: Opacity { bits: 0xBF800000, css: String::from_str("0") },  // -1.0
            padding: 0,
            width: 0,
            height: 0,
            radius: -1,
            interval: 1000,
            tooltip: String::new(),
            left_click: String::new(),
            right_click: String::new(),
            middle_click: String::new(),
            scroll_up: String::new(),
            scroll_down: String::new(),
        }
    }
}

impl ModuleConfig {
    /// The default configuration of the cpu module.
    pub fn cpu() -> (r: Self)
        ensures
            r.is_cpu_default(),
    {
        let mut r = ModuleConfig::default();
        r.format = String::from_str("{icon}  {value}%");
        r.icon = String::from_str("\u{f035b}");
        r
    }

    /// The default configuration of the ram module.
    pub fn ram() -> (r: Self)
        ensures
            r.is_ram_default(),
    {
        let mut r = ModuleConfig::default();
        r.format = String::from_str("{icon}  {value}%");
        r.icon = String::from_str("\u{f061a}");
        r
    }

    /// The default configuration of the network module.
    pub fn network() -> (r: Self)
        ensures
            r.is_network_default(),
    {
        let mut r = ModuleConfig::default();
        r.format = String::from_str("{icon}  {value}");
        r.icon = String::from_str("\u{f05a9}");
        r
    }

    /// The default configuration of the volume module.
    pub fn volume() -> (r: Self)
        ensures
            r.is_volume_default(),
    {
        let mut r = ModuleConfig::default();
        r.format = String::from_str("{icon}  {value}%");
        r.icon = String::from_str("\u{f057e}");
        r
    }

    /// The default configuration of the battery module.
    pub fn battery() -> (r: Self)
        ensures
            r.is_battery_default(),
    {
        let mut r = ModuleConfig::default();
        r.format = String::from_str("{icon}  {value}%");
        r.icon = String::from_str("\u{f0079}");
        r
    }

}

/// A module that shows the output of a shell command.
#[derive(Clone, Debug)]
pub struct CustomModule {
    pub enabled: bool,
    pub command: String,
    pub format: String,
    pub icon: String,
    pub color: String,
    pub background: String,
    pub hover_background: String,
    pub opacity: Opacity,
    pub border_color: String,
    pub border_width: i32,
    pub border_opacity: Opacity,
    pub padding: i32,
    pub width: i32,
    pub height: i32,
    pub radius: i32,
    pub interval: u64,
    pub tooltip: String,
    pub left_click: String,
    pub right_click: String,
    pub middle_click: String,
    pub scroll_up: String,
    pub scroll_down: String,
}

impl CustomModule {
    /// Whether every field holds its default value.
    pub open spec fn is_default(&self) -> bool {
        &&& self.enabled == true
        &&& self.command@ == Seq::<char>::empty()
        &&& self.format@ == "{icon} {value}"@
        &&& self.icon@ == Seq::<char>::empty()
        &&& self.color@ == Seq::<char>::empty()
        &&& self.background@ == Seq::<char>::empty()
        &&& self.hover_background@ == Seq::<char>::empty()
        &&& self.opacity.bits == 0xBF800000 && self.opacity.css@ == "0"@  // -1.0
        &&& self.border_color@ == Seq::<char>::empty()
        &&& self.border_width == -1
        &&& self.border_opacity.bits == 0xBF800000 && self.border_opacity.css@ == "0"@  // -1.0
        &&& self.padding == 0
        &&& self.width == 0
        &&& self.height == 0
        &&& self.radius == -1
        &&& self.interval == 1000
        &&& self.tooltip@ == Seq::<char>::empty()
        &&& self.left_click@ == Seq::<char>::empty()
        &&& self.right_click@ == Seq::<char>::empty()
        &&& self.middle_click@ == Seq::<char>::empty()
        &&& self.scroll_up@ == Seq::<char>::empty()
        &&& self.scroll_down@ == Seq::<char>::empty()
    }
}

impl Default for CustomModule {
    fn default() -> (r: Self)
        ensures
            r.is_default(),
    {
        CustomModule {
            enabled: true,
            command: String::new(),
            format: String::from_str("{icon} {value}"),
            icon: String::new(),
            color: String::new(),
            background: String::new(),
            hover_background: String::new(),
            opacity: Opacity { bits: 0xBF800000, css: String::from_str("0") },  // -1.0
            border_color: String::new(),
            border_width: -1,
            border_opacity: Opacity { bits: 0xBF800000, css: String::from_str("0") },  // -1.0
            padding: 0,
            width: 0,
            height: 0,
            radius: -1,
            interval: 1000,
            tooltip: String::new(),
            left_click: String::new(),
            right_click: String::new(),
            middle_click: String::new(),
            scroll_up: String::new(),
            scroll_down: String::new(),
        }
    }
}

/// The clock module.
#[derive(Clone, Debug)]
pub struct ClockConfig {
    pub enabled: bool,
    pub format: String,
    pub color: String,
    pub background: String,
    pub hover_background: String,
    pub opacity: Opacity,
    pub border_color: String,
    pub border_width: i32,
    pub border_opacity: Opacity,
    pub font_size: i32,
    pub font_weight: i32,
    pub padding: i32,
    pub width: i32,
    pub height: i32,
    pub radius: i32,
    pub interval: u64,
    pub left_click: String,
    pub right_click: String,
    pub middle_click: String,
}

impl ClockConfig {
    /// Whether every field holds its default value.
    pub open spec fn is_default(&self) -> bool {
        &&& self.enabled == true
        &&& self.format@ == "%H:%M"@
        &&& self.color@ == "#ffffff"@
        &&& self.background@ == Seq::<char>::empty()
        &&& self.hover_background@ == Seq::<char>::empty()
        &&& self.opacity.bits == 0xBF800000 && self.opacity.css@ == "0"@  // -1.0
        &&& self.border_color@ == Seq::<char>::empty()
        &&& self.border_width == -1
        &&& self.border_opacity.bits == 0xBF800000 && self.border_opacity.css@ == "0"@  // -1.0
        &&& self.font_size == 12
        &&& self.font_weight == 700
        &&& self.padding == 12
        &&& self.width == 0
        &&& self.height == 0
        &&& self.radius == -1
        &&& self.interval == 1000
        &&& self.left_click@ == Seq::<char>::empty()
        &&& self.right_click@ == Seq::<char>::empty()
        &&& self.middle_click@ == Seq::<char>::empty()
    }
}

impl Default for ClockConfig {
    fn default() -> (r: Self)
        ensures
            r.is_default(),
    {
        ClockConfig {
            enabled: true,
            format: String::from_str("%H:%M"),
            color: String::from_str("#ffffff"),
            background: String::new(),
            hover_background: String::new(),
            opacity: Opacity { bits: 0xBF800000, css: String::from_str("0") },  // -1.0
            border_color: String::new(),
            border_width: -1,
            border_opacity: Opacity { bits: 0xBF800000, css: String::from_str("0") },  // -1.0
            font_size: 12,
            font_weight: 700,
            padding: 12,
            width: 0,
            height: 0,
            radius: -1,
            interval: 1000,
            left_click: String::new(),
            right_click: String::new(),
            middle_click: String::new(),
        }
    }
}

} // verus!
