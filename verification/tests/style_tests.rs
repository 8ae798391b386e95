use raixbar::color::color_with_opacity;
use raixbar::config::{Config, CustomModule, Opacity};
use raixbar::style::{
    apply_custom_css, apply_module_css, bar_css, bar_css_is_renderable, custom_css_is_renderable,
    effective_f32, effective_i32, effective_string, module_css_is_renderable,
};

fn value(o: &Opacity) -> f32 {
    f32::from_bits(o.bits)
}

fn opacity(f: f32) -> Opacity {
    Opacity { bits: f.to_bits(), css: format!("{}", f.clamp(0.0, 1.0)) }
}

fn paint(color: &str, o: f32) -> String {
    color_with_opacity(color, &format!("{}", o.clamp(0.0, 1.0)))
}

fn pick(individual: f32, global: f32) -> f32 {
    if individual < 0.0 {
        global
    } else {
        individual
    }
}

#[test]
fn effective_values() {
    assert_eq!(effective_string("  ", "global"), "global");
    assert_eq!(effective_string(" own ", "global"), " own ");
    assert_eq!(effective_i32(-1, 5), 5);
    assert_eq!(effective_i32(0, 5), 0);
    let own = opacity(0.3);
    let global = opacity(0.9);
    assert_eq!(effective_f32(&own, &global).bits, own.bits);
    let unset = opacity(-1.0);
    assert_eq!(effective_f32(&unset, &global).bits, global.bits);
    let negative_zero = opacity(-0.0);
    assert_eq!(effective_f32(&negative_zero, &global).bits, negative_zero.bits);
    let nan = opacity(f32::NAN);
    assert_eq!(effective_f32(&nan, &global).bits, nan.bits);
    let minus_infinity = opacity(f32::NEG_INFINITY);
    assert_eq!(effective_f32(&minus_infinity, &global).bits, global.bits);
}

fn module_reference(class_name: &str, m_color: &str, m_bg: &str, m_hover: &str, m_op: f32, m_border: &str, m_bw: i32, m_bop: f32, m_pad: i32, m_radius: i32, c: &Config, two_line_color: bool) -> String {
    let s = &c.style;
    let op = pick(m_op, value(&s.module_opacity));
    let background = paint(&effective_string(m_bg, &s.module_background), op);
    let hover = paint(&effective_string(m_hover, &s.module_hover_background), value(&s.module_hover_opacity));
    let border_color = paint(
        &effective_string(m_border, &s.module_border_color),
        pick(m_bop, value(&s.module_border_opacity)),
    );
    let border_width = if m_bw < 0 { s.module_border_width } else { m_bw };
    let radius = if m_radius < 0 { s.module_radius } else { m_radius };
    let padding = if m_pad > 0 { m_pad } else { s.module_padding };
    let color = if m_color.trim().is_empty() { s.text_color.clone() } else { m_color.to_string() };
    let color_line = if two_line_color {
        format!("    color:\n        {color};")
    } else {
        format!("    color: {color};")
    };
    format!(
        "\n.{class_name} {{\n{color_line}\n\n    background:\n        {background};\n\n    border:\n        {border_width}px solid\n        {border_color};\n\n    border-radius:\n        {radius}px;\n\n    padding-left:\n        {padding}px;\n\n    padding-right:\n        {padding}px;\n\n    padding-top:\n        {vertical}px;\n\n    padding-bottom:\n        {vertical}px;\n}}\n\n.{class_name}:hover {{\n    background:\n        {hover};\n}}\n",
        vertical = c.spacing.vertical,
    )
}

#[test]
fn builtin_module_style_sheet() {
    let mut c = Config::default();
    c.cpu.color = "#cba6f7".to_string();
    c.cpu.padding = 14;
    c.cpu.border_width = 2;
    c.cpu.opacity = opacity(0.5);
    assert!(module_css_is_renderable(&c.cpu, &c));
    let m = &c.cpu;
    let expected = module_reference(
        "raix-module-cpu",
        &m.color,
        &m.background,
        &m.hover_background,
        value(&m.opacity),
        &m.border_color,
        m.border_width,
        value(&m.border_opacity),
        m.padding,
        m.radius,
        &c,
        false,
    );
    assert_eq!(apply_module_css("cpu", &c.cpu, &c), expected);
    assert!(expected.contains("rgba(0,0,0,0.5)"));
}

#[test]
fn default_module_style_sheet() {
    let c = Config::default();
    let m = &c.ram;
    let expected = module_reference(
        "raix-module-ram",
        &m.color,
        &m.background,
        &m.hover_background,
        value(&m.opacity),
        &m.border_color,
        m.border_width,
        value(&m.border_opacity),
        m.padding,
        m.radius,
        &c,
        false,
    );
    assert_eq!(apply_module_css("ram", &c.ram, &c), expected);
    assert!(expected.contains("color: #ffffff;"));
    assert!(expected.contains("rgba(0,0,0,0.65)"));
    assert!(expected.contains("1px solid\n        rgba(255,255,255,0.1);"));
}

#[test]
fn custom_module_style_sheet() {
    let c = Config::default();
    let mut m = CustomModule::default();
    m.background = "rgb(1, 2, 3)".to_string();
    m.radius = 0;
    assert!(custom_css_is_renderable(&m, &c));
    let expected = module_reference(
        "custom-weather",
        &m.color,
        &m.background,
        &m.hover_background,
        value(&m.opacity),
        &m.border_color,
        m.border_width,
        value(&m.border_opacity),
        m.padding,
        m.radius,
        &c,
        true,
    );
    assert_eq!(apply_custom_css("custom-weather", &m, &c), expected);
    assert!(expected.contains("rgba(1,2,3,0.65)"));
}

#[test]
fn style_sheet_with_unreadable_color() {
    let mut c = Config::default();
    c.cpu.background = "#€".to_string();
    assert!(!module_css_is_renderable(&c.cpu, &c));
    let mut m = CustomModule::default();
    m.border_color = "#aé123".to_string();
    assert!(!custom_css_is_renderable(&m, &c));
    c.style.bar_background = "#€".to_string();
    assert!(!bar_css_is_renderable(&c));
}

fn bar_reference(config: &Config) -> String {
    let bar_background = paint(&config.style.bar_background, value(&config.style.bar_opacity));
    let bar_border_color = paint(&config.style.bar_border_color, value(&config.style.bar_border_opacity));
    let module_background = paint(&config.style.module_background, value(&config.style.module_opacity));
    let module_hover_background =
        paint(&config.style.module_hover_background, value(&config.style.module_hover_opacity));
    let logo_background = paint(&config.logo.background, value(&config.logo.opacity));
    let logo_hover_background = paint(&config.logo.hover_background, value(&config.logo.opacity));
    let logo_border_color = paint(&config.logo.border_color, value(&config.logo.border_opacity));
    let logo_text_background = paint(&config.logo_text.background, value(&config.logo_text.opacity));
    let logo_text_hover_background =
        paint(&config.logo_text.hover_background, value(&config.logo_text.opacity));
    let logo_text_border_color =
        paint(&config.logo_text.border_color, value(&config.logo_text.border_opacity));
    let workspace_container_background = paint(
        &config.workspaces.container_background,
        value(&config.workspaces.container_opacity),
    );
    let workspace_container_border = paint(
        &config.workspaces.container_border_color,
        value(&config.workspaces.container_border_opacity),
    );
    let workspace_background = paint(&config.workspaces.background, value(&config.workspaces.opacity));
    let workspace_hover_background =
        paint(&config.workspaces.hover_background, value(&config.workspaces.hover_opacity));
    let workspace_active_background =
        paint(&config.workspaces.active.background, value(&config.workspaces.active.opacity));
    let workspace_urgent_background =
        paint(&config.workspaces.urgent.background, value(&config.workspaces.urgent.opacity));
    let clock_opacity = pick(value(&config.clock.opacity), value(&config.style.clock_opacity));
    let clock_background =
        paint(&effective_string(&config.clock.background, &config.style.clock_background), clock_opacity);
    let clock_hover_background = paint(
        &effective_string(&config.clock.hover_background, &config.style.clock_hover_background),
        clock_opacity,
    );
    let clock_border = paint(
        &effective_string(&config.clock.border_color, &config.style.clock_border_color),
        pick(value(&config.clock.border_opacity), 1.0),
    );
    format!(
        r#"
* {{
    font-family:
        "{font}",
        "Noto Sans",
        sans-serif;
}}

window {{
    background: transparent;
}}


/* ==========================================================
   BAR
   ========================================================== */

.raix-bar {{
    background:
        {bar_background};

    border:
        {bar_border_width}px solid
        {bar_border_color};

    border-radius:
        {bar_radius}px;

    padding-left:
        {bar_horizontal}px;

    padding-right:
        {bar_horizontal}px;

    padding-top:
        {bar_vertical}px;

    padding-bottom:
        {bar_vertical}px;
}}


/* ==========================================================
   CENTER BOX
   ========================================================== */

.bar-center {{
    min-height:
        {bar_height}px;
}}

.left-zone,
.center-zone,
.right-zone {{
    padding-top: 0;
    padding-bottom: 0;
}}

.left-zone {{
    padding-left:
        {zone}px;
}}

.right-zone {{
    padding-right:
        {zone}px;
}}


/* ==========================================================
   NORMAL MODULE
   ========================================================== */

.module {{
    color:
        {text_color};

    background:
        {module_background};

    border:
        {module_border_width}px solid
        {module_border_color};

    border-radius:
        {module_radius}px;

    padding-left:
        {module_padding}px;

    padding-right:
        {module_padding}px;

    padding-top:
        {vertical}px;

    padding-bottom:
        {vertical}px;

    font-size:
        {font_size}px;

    font-weight:
        {font_weight};
}}

.module:hover {{
    background:
        {module_hover_background};
}}


/* ==========================================================
   LOGO
   ========================================================== */

.logo-icon {{
    color:
        {logo_color};

    background:
        {logo_background};

    border:
        {logo_border_width}px solid
        {logo_border_color};

    border-radius:
        {logo_radius}px;

    font-size:
        {logo_size}px;

    padding-left:
        {logo_padding}px;

    padding-right:
        {logo_padding}px;
}}

.logo-icon:hover {{
    background:
        {logo_hover_background};
}}


/* ==========================================================
   LOGO TEXT
   ========================================================== */

.logo-text {{
    color:
        {logo_text_color};

    background:
        {logo_text_background};

    border:
        {logo_text_border_width}px solid
        {logo_text_border_color};

    border-radius:
        {logo_text_radius}px;

    font-size:
        {font_size}px;

    font-weight:
        800;

    padding-left:
        {logo_text_padding}px;

    padding-right:
        {logo_text_padding}px;
}}

.logo-text:hover {{
    background:
        {logo_text_hover_background};
}}


/* ==========================================================
   WORKSPACE CONTAINER
   ========================================================== */

.workspace-container {{
    background:
        {workspace_container_background};

    border:
        {workspace_container_border_width}px solid
        {workspace_container_border_color};

    border-radius:
        {workspace_container_radius}px;

    padding:
        {workspace_container_padding}px;
}}


/* ==========================================================
   WORKSPACE NORMAL
   ========================================================== */

label.workspace {{
    color: {workspace_color};
    background: {workspace_background};

    padding-left: {workspace_padding}px;
    padding-right: {workspace_padding}px;

    min-width: 14px;
    min-height: {workspace_height}px;

    font-size: {workspace_size}px;
    font-weight: 700;
}}

label.workspace:hover {{
    color: {workspace_hover_color};
    background: {workspace_hover_background};
}}

label.workspace.active {{
    color: {workspace_active_color} !important;
    background: {workspace_active_background} !important;
}}

label.workspace.active:hover {{
    color: {workspace_active_color} !important;
    background: {workspace_active_background} !important;
}}

label.workspace.urgent {{
    color: {workspace_urgent_color} !important;
    background: {workspace_urgent_background} !important;
}}

label.workspace.urgent:hover {{
    color: {workspace_urgent_color} !important;
    background: {workspace_urgent_background} !important;
}}

/* ==========================================================
   CLOCK
   ========================================================== */

label.module-clock {{
    color:
        {clock_color};

    background:
        {clock_background};

    border:
        {clock_border_width}px solid
        {clock_border_color};

    border-radius:
        {clock_radius}px;

    padding-left:
        {clock_padding}px;

    padding-right:
        {clock_padding}px;

    font-size:
        {clock_font_size}px;

    font-weight:
        {clock_font_weight};
}}

label.module-clock:hover {{
    background:
        {clock_hover_background};
}}
"#,
        font = config.font.family,
        bar_height = config.bar.height,
        bar_background = bar_background.trim(),
        bar_border_color = bar_border_color.trim(),
        bar_border_width = config.style.bar_border_width,
        bar_radius = config.style.bar_radius,
        bar_horizontal = config.spacing.bar_horizontal,
        bar_vertical = config.spacing.bar_vertical,
        zone = config.spacing.zone,
        text_color = config.style.text_color.trim(),
        module_background = module_background.trim(),
        module_hover_background = module_hover_background.trim(),
        module_border_color = paint(
            config.style.module_border_color.trim(),
            value(&config.style.module_border_opacity),
        ),
        module_border_width = config.style.module_border_width,
        module_radius = config.style.module_radius,
        module_padding = config.style.module_padding,
        vertical = config.spacing.vertical,
        font_size = config.font.size,
        font_weight = config.font.weight,
        logo_color = config.logo.icon_color.trim(),
        logo_background = logo_background.trim(),
        logo_hover_background = logo_hover_background.trim(),
        logo_border_color = logo_border_color,
        logo_border_width = config.logo.border_width,
        logo_radius = config.logo.radius,
        logo_size = config.font.logo_size,
        logo_padding = config.logo.padding,
        logo_text_color = config.logo_text.color.trim(),
        logo_text_background = logo_text_background.trim(),
        logo_text_hover_background = logo_text_hover_background.trim(),
        logo_text_border_color = logo_text_border_color,
        logo_text_border_width = config.logo_text.border_width,
        logo_text_radius = config.logo_text.radius,
        logo_text_padding = config.logo_text.padding,
        workspace_container_background = workspace_container_background.trim(),
        workspace_container_border_color = workspace_container_border,
        workspace_container_border_width = config.workspaces.container_border_width,
        workspace_container_radius = config.workspaces.container_radius,
        workspace_container_padding = config.workspaces.container_padding,
        workspace_color = config.workspaces.color.trim(),
        workspace_background = workspace_background.trim(),
        workspace_padding = config.workspaces.padding,
        workspace_height = config.workspaces.height,
        workspace_size = config.font.workspace_size,
        workspace_hover_color = config.workspaces.hover_color.trim(),
        workspace_hover_background = workspace_hover_background.trim(),
        workspace_active_background = workspace_active_background.trim(),
        workspace_urgent_color = config.workspaces.urgent.color.trim(),
        workspace_active_color = config.workspaces.active.color.trim(),
        workspace_urgent_background = workspace_urgent_background.trim(),
        clock_color = config.clock.color.trim(),
        clock_background = clock_background.trim(),
        clock_hover_background = clock_hover_background.trim(),
        clock_border_color = clock_border,
        clock_border_width = effective_i32(config.clock.border_width, config.style.clock_border_width),
        clock_radius = effective_i32(config.clock.radius, config.style.clock_radius),
        clock_padding = config.clock.padding,
        clock_font_size = config.clock.font_size,
        clock_font_weight = config.clock.font_weight,
    )
}

#[test]
fn default_bar_style_sheet() {
    let c = Config::default();
    assert!(bar_css_is_renderable(&c));
    let css = bar_css(&c);
    assert_eq!(css, bar_reference(&c));
    assert!(css.contains("background:\n        rgba(0,0,0,0.65);"));
    assert!(css.contains("\"JetBrainsMono Nerd Font\""));
}

#[test]
fn configured_bar_style_sheet() {
    let mut c = Config::default();
    c.style.bar_background = " #1e1e2e ".to_string();
    c.style.bar_opacity = opacity(0.94);
    c.style.text_color = "  #cdd6f4  ".to_string();
    c.clock.background = "#89b4fa".to_string();
    c.clock.opacity = opacity(0.2);
    c.clock.border_width = 3;
    c.clock.border_opacity = opacity(2.5);
    c.workspaces.urgent.color = "#f38ba8".to_string();
    c.workspaces.active.color = " #89b4fa ".to_string();
    c.logo.border_color = "  weird  ".to_string();
    c.font.family = "Fira Code".to_string();
    c.bar.height = 44;
    let css = bar_css(&c);
    assert_eq!(css, bar_reference(&c));
    assert!(css.contains("rgba(30,30,46,0.94)"));
    assert!(css.contains("rgba(137,180,250,0.2)"));
    assert!(css.contains("color:\n        #cdd6f4;"));
    assert!(css.contains("label.workspace.active {\n    color: #89b4fa !important;"));
}

#[test]
fn default_active_workspace_color() {
    let css = bar_css(&Config::default());
    assert!(css.contains("label.workspace.active {\n    color: #ffffff !important;"));
    assert!(css.contains("label.workspace.active:hover {\n    color: #ffffff !important;"));
}
