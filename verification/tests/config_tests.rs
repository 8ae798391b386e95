use raixbar::config::{ClockConfig, Config, CustomModule, ModuleConfig, Opacity, WorkspaceConfig};

fn same_opacity(o: &Opacity, f: f32) -> bool {
    o.bits == f.to_bits() && o.css == format!("{}", f.clamp(0.0, 1.0))
}

#[test]
fn bar_defaults() {
    let c = Config::default();
    assert_eq!(c.bar.width, 0);
    assert_eq!(c.bar.height, 32);
    assert_eq!(c.bar.position, "top");
    assert_eq!(c.bar.exclusive_zone, 32);
    assert_eq!(c.bar.layer, "top");
    assert_eq!(c.bar.keyboard_mode, "none");
    assert_eq!(
        (c.bar.margin_top, c.bar.margin_bottom, c.bar.margin_left, c.bar.margin_right),
        (0, 0, 0, 0)
    );
}

#[test]
fn style_defaults() {
    let c = Config::default();
    assert_eq!(c.style.bar_background, "#000000");
    assert!(same_opacity(&c.style.bar_opacity, 0.65));
    assert!(same_opacity(&c.style.bar_border_opacity, 0.08));
    assert!(same_opacity(&c.style.module_hover_opacity, 0.10));
    assert_eq!(c.style.module_border_width, 1);
    assert_eq!(c.style.module_radius, 8);
    assert_eq!(c.style.module_padding, 10);
    assert_eq!(c.style.text_color, "#ffffff");
    assert_eq!(c.style.workspace_inactive_color, "#8f8f98");
    assert!(same_opacity(&c.style.clock_opacity, 0.65));
    assert_eq!(c.style.clock_radius, 8);
}

#[test]
fn font_spacing_and_layout_defaults() {
    let c = Config::default();
    assert_eq!(c.font.family, "JetBrainsMono Nerd Font");
    assert_eq!((c.font.size, c.font.weight, c.font.logo_size, c.font.workspace_size), (12, 600, 18, 12));
    assert_eq!(
        (c.spacing.zone, c.spacing.module, c.spacing.horizontal, c.spacing.vertical),
        (0, 4, 10, 3)
    );
    assert_eq!((c.spacing.bar_horizontal, c.spacing.bar_vertical), (5, 4));
    assert_eq!(c.layout.left, vec!["logo".to_string(), "workspaces".to_string()]);
    assert_eq!(c.layout.center, vec!["clock".to_string()]);
    assert_eq!(c.layout.right, vec!["cpu", "ram", "network", "volume", "battery"]);
}

#[test]
fn logo_defaults() {
    let c = Config::default();
    assert!(c.logo.enabled && c.logo.icon_enabled);
    assert_eq!(c.logo.icon, "\u{f303}");
    assert!(same_opacity(&c.logo.opacity, 1.0));
    assert!(same_opacity(&c.logo.border_opacity, 0.0));
    assert_eq!(c.logo.left_click, "wofi --show drun");
    assert_eq!(c.logo.padding, 9);
    assert!(!c.logo_text.enabled);
    assert_eq!(c.logo_text.text, "Raix");
}

#[test]
fn workspace_defaults() {
    let w = WorkspaceConfig::default();
    assert!(w.enabled && w.show_empty && w.scroll_switch);
    assert_eq!(w.numbers, vec![1, 2, 3, 4, 5]);
    assert_eq!(w.format, "{id}");
    assert_eq!(w.left_click, "hyprctl dispatch workspace {id}");
    assert_eq!(w.scroll_up, "hyprctl dispatch workspace e-1");
    assert_eq!(w.scroll_down, "hyprctl dispatch workspace e+1");
    assert_eq!(w.interval, 500);
    assert_eq!(w.height, 30);
    assert_eq!(w.gap, 3);
    assert!(same_opacity(&w.active.opacity, 0.15));
    assert!(same_opacity(&w.urgent.opacity, 0.20));
    assert_eq!(w.active.radius, 0);
    assert!(same_opacity(&w.container_opacity, 0.35));
}

#[test]
fn module_defaults() {
    let m = ModuleConfig::default();
    assert!(m.enabled);
    assert_eq!(m.format, "{icon}  {value}");
    assert_eq!(m.icon, "");
    assert!(same_opacity(&m.opacity, -1.0));
    assert_eq!(m.border_width, -1);
    assert_eq!(m.radius, -1);
    assert_eq!(m.interval, 1000);
}

#[test]
fn builtin_module_defaults() {
    assert_eq!(ModuleConfig::cpu().format, "{icon}  {value}%");
    assert_eq!(ModuleConfig::cpu().icon, "󰍛");
    assert_eq!(ModuleConfig::ram().icon, "󰘚");
    assert_eq!(ModuleConfig::network().format, "{icon}  {value}");
    assert_eq!(ModuleConfig::network().icon, "󰖩");
    assert_eq!(ModuleConfig::volume().icon, "󰕾");
    assert_eq!(ModuleConfig::battery().icon, "󰁹");
    assert_eq!(ModuleConfig::battery().format, "{icon}  {value}%");
    let c = Config::default();
    assert_eq!(c.cpu.icon, "󰍛");
    assert_eq!(c.battery.icon, "󰁹");
    assert!(c.battery.enabled);
    assert!(c.custom.is_empty());
    assert_eq!(c.css.custom, "");
}

#[test]
fn custom_and_clock_defaults() {
    let m = CustomModule::default();
    assert!(m.enabled);
    assert_eq!(m.format, "{icon} {value}");
    assert_eq!(m.command, "");
    assert!(same_opacity(&m.border_opacity, -1.0));
    let k = ClockConfig::default();
    assert!(k.enabled);
    assert_eq!(k.format, "%H:%M");
    assert_eq!(k.color, "#ffffff");
    assert_eq!((k.font_size, k.font_weight, k.padding, k.radius, k.border_width), (12, 700, 12, -1, -1));
    assert_eq!(k.interval, 1000);
}

#[test]
fn short_keys_are_unset_by_default() {
    let c = Config::default();
    assert_eq!(c.style.background, "");
    assert_eq!(c.style.background_hover, "");
    assert!(same_opacity(&c.style.opacity, -1.0));
    assert_eq!((c.style.border_width, c.style.border_radius), (-1, -1));
    assert!(c.workspaces.show_special);
    assert_eq!(c.workspaces.active_color, "");
    assert_eq!(c.workspaces.urgent_background, "");
    let mut d = Config::default();
    raixbar::config::apply_short_keys(&mut d);
    assert_eq!(d.style.bar_background, c.style.bar_background);
    assert_eq!(d.style.bar_opacity.bits, c.style.bar_opacity.bits);
    assert_eq!(d.style.bar_radius, c.style.bar_radius);
    assert_eq!(d.workspaces.color, c.workspaces.color);
    assert_eq!(d.workspaces.active.color, c.workspaces.active.color);
}

#[test]
fn short_keys_set_their_settings() {
    let mut c = Config::default();
    c.style.background = "rgba(17, 17, 27, 0.94)".to_string();
    c.style.background_hover = "rgba(255, 255, 255, 0.07)".to_string();
    c.style.opacity = raixbar::config::Opacity { bits: 0.95f32.to_bits(), css: "0.95".to_string() };
    c.style.border_color = "rgba(255,255,255,0.08)".to_string();
    c.style.border_width = 0;
    c.style.border_radius = 4;
    c.workspaces.active_color = "#ffffff".to_string();
    c.workspaces.inactive_color = "#6c7086".to_string();
    c.workspaces.urgent_color = "#f38ba8".to_string();
    c.workspaces.active_background = "rgba(137,180,250,0.20)".to_string();
    c.workspaces.inactive_background = "transparent".to_string();
    c.workspaces.urgent_background = "rgba(243,139,168,0.22)".to_string();
    c.style.bar_border_width = 3;
    raixbar::config::apply_short_keys(&mut c);
    assert_eq!(c.style.bar_background, "rgba(17, 17, 27, 0.94)");
    assert_eq!(c.style.module_hover_background, "rgba(255, 255, 255, 0.07)");
    assert_eq!(c.style.bar_opacity.css, "0.95");
    assert_eq!(c.style.bar_border_color, "rgba(255,255,255,0.08)");
    assert_eq!((c.style.bar_border_width, c.style.bar_radius), (0, 4));
    assert_eq!(c.workspaces.active.color, "#ffffff");
    assert_eq!(c.workspaces.color, "#6c7086");
    assert_eq!(c.workspaces.urgent.color, "#f38ba8");
    assert_eq!(c.workspaces.active.background, "rgba(137,180,250,0.20)");
    assert_eq!(c.workspaces.background, "transparent");
    assert_eq!(c.workspaces.urgent.background, "rgba(243,139,168,0.22)");
}

#[test]
fn blank_short_key_is_unset() {
    let mut c = Config::default();
    c.style.background = "   ".to_string();
    c.workspaces.active_color = " ".to_string();
    raixbar::config::apply_short_keys(&mut c);
    assert_eq!(c.style.bar_background, "#000000");
    assert_eq!(c.workspaces.active.color, "#ffffff");
}
