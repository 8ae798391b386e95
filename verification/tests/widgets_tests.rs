use raixbar::config::{Config, CustomEntry, CustomModule, StyleConfig};
use raixbar::style::apply_module_css;
use raixbar::widgets::{
    add_builtin_module, add_clock, add_custom_module, custom_stylesheet, add_logo, add_module, apply_size,
    bar_keyboard, bar_layer, bar_placement, builtin_module_name, builtin_module_named,
    button_command, clock_argument, command_output, command_text, custom_class_name,
    custom_label_key, find_custom, format_module, joined, layer_from_lowercase, requested_size,
    run_command, safe_css_name, setup_clicks, start_module_timers, update_clock,
    workspace_refresh_interval, BarLayer, BuiltinModule, ClickSetup, KeyboardInput, LogoParts,
    ModuleSlot, ModuleTimer, TimerSource,
};

#[test]
fn layer_names_ignore_case() {
    let mut c = Config::default();
    assert_eq!(bar_layer(&c.bar), BarLayer::Top);
    c.bar.layer = "OVERLAY".to_string();
    assert_eq!(bar_layer(&c.bar), BarLayer::Overlay);
    c.bar.layer = "Bottom".to_string();
    assert_eq!(bar_layer(&c.bar), BarLayer::Bottom);
    c.bar.layer = "background".to_string();
    assert_eq!(bar_layer(&c.bar), BarLayer::Top);
    assert_eq!(layer_from_lowercase("Bottom"), BarLayer::Top);
}

#[test]
fn keyboard_names_ignore_case() {
    let mut c = Config::default();
    assert_eq!(bar_keyboard(&c.bar), KeyboardInput::Ignored);
    c.bar.keyboard_mode = "On_Demand".to_string();
    assert_eq!(bar_keyboard(&c.bar), KeyboardInput::OnDemand);
    c.bar.keyboard_mode = "EXCLUSIVE".to_string();
    assert_eq!(bar_keyboard(&c.bar), KeyboardInput::Exclusive);
    c.bar.keyboard_mode = "on-demand".to_string();
    assert_eq!(bar_keyboard(&c.bar), KeyboardInput::Ignored);
}

#[test]
fn full_width_bar_at_the_top() {
    let c = Config::default();
    let p = bar_placement(&c.bar);
    assert!(p.anchor_left && p.anchor_right && p.anchor_top && !p.anchor_bottom);
    assert_eq!(p.fixed_width, None);
    assert_eq!((p.default_width, p.default_height), (-1, 32));
}

#[test]
fn fixed_width_bar_at_the_bottom() {
    let mut c = Config::default();
    c.bar.position = "BOTTOM".to_string();
    c.bar.width = 800;
    c.bar.height = 40;
    let p = bar_placement(&c.bar);
    assert!(!p.anchor_left && !p.anchor_right && !p.anchor_top && p.anchor_bottom);
    assert_eq!(p.fixed_width, Some(800));
    assert_eq!((p.default_width, p.default_height), (800, 40));
}

#[test]
fn negative_width_is_neither_full_nor_fixed() {
    let mut c = Config::default();
    c.bar.width = -5;
    let p = bar_placement(&c.bar);
    assert!(!p.anchor_left && !p.anchor_right);
    assert_eq!(p.fixed_width, None);
    assert_eq!(p.default_width, -1);
}

fn with_custom(names: &[(&str, bool)]) -> Config {
    let mut c = Config::default();
    for (name, enabled) in names {
        let mut m = CustomModule::default();
        m.enabled = *enabled;
        c.custom.push(CustomEntry { name: name.to_string(), module: m });
    }
    c
}

#[test]
fn layout_entries() {
    let mut c = with_custom(&[("weather", true), ("off", false)]);
    assert_eq!(add_module("logo", &c), ModuleSlot::Logo);
    assert_eq!(add_module("workspaces", &c), ModuleSlot::Workspaces);
    assert_eq!(add_module("cpu", &c), ModuleSlot::Builtin(BuiltinModule::Cpu));
    assert_eq!(add_module("battery", &c), ModuleSlot::Builtin(BuiltinModule::Battery));
    assert_eq!(add_module("clock", &c), ModuleSlot::Clock);
    assert_eq!(add_module("separator", &c), ModuleSlot::Separator);
    assert_eq!(add_module("custom.weather", &c), ModuleSlot::Custom(0));
    assert_eq!(add_module("custom.off", &c), ModuleSlot::Nothing);
    assert_eq!(add_module("custom.missing", &c), ModuleSlot::Nothing);
    assert_eq!(add_module("CPU", &c), ModuleSlot::Unknown);
    assert_eq!(add_module("weather", &c), ModuleSlot::Unknown);
    c.cpu.enabled = false;
    c.clock.enabled = false;
    c.workspaces.enabled = false;
    assert_eq!(add_module("cpu", &c), ModuleSlot::Nothing);
    assert_eq!(add_module("clock", &c), ModuleSlot::Nothing);
    assert_eq!(add_module("workspaces", &c), ModuleSlot::Nothing);
}

#[test]
fn custom_modules_by_name() {
    let c = with_custom(&[("a", true), ("b", true)]);
    assert_eq!(find_custom(&c.custom, "b"), Some(1));
    assert_eq!(find_custom(&c.custom, "c"), None);
}

#[test]
fn builtin_names() {
    assert_eq!(builtin_module_name(BuiltinModule::Network), "network");
    assert_eq!(builtin_module_named("volume"), Some(BuiltinModule::Volume));
    assert_eq!(builtin_module_named("clock"), None);
}

#[test]
fn logo_parts() {
    let mut c = Config::default();
    assert_eq!(add_logo(&c), LogoParts { icon: true, text: false });
    c.logo_text.enabled = true;
    assert_eq!(add_logo(&c), LogoParts { icon: true, text: true });
    c.logo.icon = String::new();
    assert_eq!(add_logo(&c), LogoParts { icon: false, text: true });
    c.logo.enabled = false;
    assert_eq!(add_logo(&c), LogoParts { icon: false, text: false });
}

#[test]
fn sizes() {
    let mut style = StyleConfig::default();
    assert_eq!(apply_size(0, 0, &style), (None, None));
    assert_eq!(apply_size(30, -2, &style), (Some(30), None));
    style.module_width = 20;
    style.module_height = 25;
    assert_eq!(apply_size(0, 0, &style), (Some(20), Some(25)));
    assert_eq!(apply_size(40, 0, &style), (Some(40), Some(25)));
    assert_eq!(requested_size(0), None);
    assert_eq!(requested_size(7), Some(7));
}

#[test]
fn click_handlers() {
    assert_eq!(setup_clicks("", "", "", "", ""), ClickSetup { clicks: false, scroll: false });
    assert_eq!(setup_clicks("", "x", "", "", "y"), ClickSetup { clicks: true, scroll: true });
    assert_eq!(setup_clicks(" ", "", "", "", ""), ClickSetup { clicks: true, scroll: false });
    assert_eq!(button_command(1, "l", "r", "m"), Some("l"));
    assert_eq!(button_command(2, "l", "r", "m"), Some("m"));
    assert_eq!(button_command(3, "l", "r", "m"), Some("r"));
    assert_eq!(button_command(8, "l", "r", "m"), None);
}

#[test]
fn commands() {
    assert_eq!(run_command("  kitty -e btop \n"), Some("kitty -e btop".to_string()));
    assert_eq!(run_command("   "), None);
    assert!(command_output(" date "));
    assert!(!command_output(" \t"));
    assert_eq!(command_text(true, "  sunny 21°\n"), "sunny 21°");
    assert_eq!(command_text(false, "error"), "");
}

#[test]
fn module_formats() {
    assert_eq!(format_module("{icon}  {value}%", "X", "42"), "X  42%");
    assert_eq!(format_module("{value} {value}", "X", "1"), "1 1");
    assert_eq!(format_module("plain", "X", "1"), "plain");
    assert_eq!(format_module("{value}", "X", "{icon}"), "{icon}");
    assert_eq!(format_module("{icon}", "{value}", "7"), "7");
    assert_eq!(format_module("{ICON}", "X", "7"), "{ICON}");
}

#[test]
fn css_names() {
    assert_eq!(safe_css_name("my module!"), "my-module-");
    assert_eq!(safe_css_name("ok_name-1"), "ok_name-1");
    assert_eq!(safe_css_name("ä"), "-");
    assert_eq!(safe_css_name(&safe_css_name("a b")), safe_css_name("a b"));
    assert_eq!(custom_class_name("my.mod"), "custom-my-mod");
    assert_eq!(custom_label_key("my.mod"), "custom.my.mod");
    assert_eq!(joined("ab", "cd"), "abcd");
}

#[test]
fn clock_text() {
    assert_eq!(clock_argument("%H:%M"), "+%H:%M");
    assert_eq!(update_clock(true, " 12:00\n"), "12:00");
    assert_eq!(update_clock(true, "   "), "--:--");
    assert_eq!(update_clock(false, "12:00"), "--:--");
}

#[test]
fn default_timers() {
    let c = Config::default();
    let timers = start_module_timers(&c);
    let expected = vec![
        ModuleTimer { source: TimerSource::Builtin(BuiltinModule::Cpu), interval_ms: 1000 },
        ModuleTimer { source: TimerSource::Builtin(BuiltinModule::Ram), interval_ms: 1000 },
        ModuleTimer { source: TimerSource::Builtin(BuiltinModule::Network), interval_ms: 1000 },
        ModuleTimer { source: TimerSource::Builtin(BuiltinModule::Volume), interval_ms: 1000 },
        ModuleTimer { source: TimerSource::Builtin(BuiltinModule::Battery), interval_ms: 1000 },
        ModuleTimer { source: TimerSource::Clock, interval_ms: 1000 },
    ];
    assert_eq!(timers, expected);
}

#[test]
fn timer_floors() {
    let mut c = with_custom(&[("fast", true), ("off", false), ("slow", true)]);
    c.cpu.interval = 10;
    c.ram.enabled = false;
    c.network.enabled = false;
    c.volume.enabled = false;
    c.battery.enabled = false;
    c.custom[0].module.interval = 0;
    c.custom[2].module.interval = 5000;
    c.clock.interval = 150;
    let timers = start_module_timers(&c);
    let expected = vec![
        ModuleTimer { source: TimerSource::Builtin(BuiltinModule::Cpu), interval_ms: 100 },
        ModuleTimer { source: TimerSource::Custom(0), interval_ms: 100 },
        ModuleTimer { source: TimerSource::Custom(2), interval_ms: 5000 },
        ModuleTimer { source: TimerSource::Clock, interval_ms: 200 },
    ];
    assert_eq!(timers, expected);
    assert!(timers.iter().all(|t| t.interval_ms >= 100));
}

#[test]
fn workspace_refresh() {
    let mut c = Config::default();
    assert_eq!(workspace_refresh_interval(&c), Some(500));
    c.workspaces.interval = 3;
    assert_eq!(workspace_refresh_interval(&c), Some(100));
    c.workspaces.enabled = false;
    assert_eq!(workspace_refresh_interval(&c), None);
}

#[test]
fn builtin_module_label() {
    let mut c = Config::default();
    c.cpu.tooltip = "CPU Usage".to_string();
    c.cpu.left_click = "kitty -e btop".to_string();
    let label = add_builtin_module("cpu", &c.cpu, &c);
    assert_eq!(label.key, "cpu");
    assert_eq!(label.text, "...");
    assert_eq!(
        label.classes,
        vec!["module".to_string(), "module-cpu".to_string(), "raix-module-cpu".to_string()]
    );
    assert!(label.css.starts_with("\n.raix-module-cpu {\n"));
    assert_eq!(label.css, apply_module_css("cpu", &c.cpu, &c));
    assert_eq!(label.tooltip, Some("CPU Usage".to_string()));
    assert_eq!((label.width, label.height), (None, None));
    assert_eq!(label.clicks, ClickSetup { clicks: true, scroll: false });
    let quiet = add_builtin_module("ram", &c.ram, &c);
    assert_eq!(quiet.tooltip, None);
    assert_eq!(quiet.clicks, ClickSetup { clicks: false, scroll: false });
}

#[test]
fn custom_module_label() {
    let mut c = with_custom(&[("my mod", true)]);
    c.custom[0].module.width = 50;
    c.custom[0].module.scroll_up = "up".to_string();
    let label = add_custom_module("my mod", &c.custom[0].module, &c);
    assert_eq!(label.key, "custom.my mod");
    assert_eq!(label.text, "...");
    assert_eq!(label.classes, vec!["module".to_string(), "custom-my-mod".to_string()]);
    assert!(label.css.starts_with("\n.custom-my-mod {\n    color:\n        #ffffff;\n"));
    assert_eq!((label.width, label.height), (Some(50), None));
    assert_eq!(label.clicks, ClickSetup { clicks: false, scroll: true });
}

#[test]
fn clock_label() {
    let mut c = Config::default();
    c.clock.height = 22;
    c.clock.middle_click = "gnome-calendar".to_string();
    let label = add_clock(&c);
    assert_eq!(label.key, "clock");
    assert_eq!(label.text, "--:--");
    assert_eq!(label.classes, vec!["module".to_string(), "module-clock".to_string()]);
    assert_eq!(label.css, "");
    assert_eq!(label.tooltip, None);
    assert_eq!((label.width, label.height), (None, Some(22)));
    assert_eq!(label.clicks, ClickSetup { clicks: true, scroll: false });
}

#[test]
fn user_style_sheet() {
    let mut c = Config::default();
    assert_eq!(custom_stylesheet(&c), None);
    c.css.custom = "  \n ".to_string();
    assert_eq!(custom_stylesheet(&c), None);
    c.css.custom = ".module:hover { background: red; }".to_string();
    assert_eq!(custom_stylesheet(&c), Some(".module:hover { background: red; }".to_string()));
}

#[test]
fn custom_entry_found_by_its_name() {
    let c = with_custom(&[("a", false), ("b", true), ("c", true)]);
    assert!(raixbar::config::custom_names_are_distinct(&c.custom));
    assert_eq!(add_module("custom.b", &c), ModuleSlot::Custom(1));
    assert_eq!(add_module("custom.c", &c), ModuleSlot::Custom(2));
    assert_eq!(add_module("custom.a", &c), ModuleSlot::Nothing);
}

#[test]
fn repeated_custom_names() {
    let c = with_custom(&[("a", true), ("b", true), ("a", false)]);
    assert!(!raixbar::config::custom_names_are_distinct(&c.custom));
    assert!(raixbar::config::custom_names_are_distinct(&vec![]));
}
