//! The CSS of the bar: the style sheet of the whole bar and the rules of each module.
//! Values that a module leaves unset (an empty color, a negative number) fall back to
//! the shared style.
use vstd::prelude::*;

use crate::color::{color_is_sliceable, color_slicing_fails, color_text, color_with_opacity};
use crate::config::{ClockConfig, Config, CustomModule, ModuleConfig, Opacity, StyleConfig};
use crate::text::{
    chars_of, fill, fill_template, i32_to_string, signed_decimal, slot_ints, str_views,
    string_of, string_views, trim, trim_chars, trim_str,
};

verus! {

broadcast use vstd::string::group_string_axioms;

// ------------------------------------------------------------
// Effective values
// ------------------------------------------------------------

/// Whether the `f32` with bit pattern `bits` compares below zero: the sign bit is set,
/// the value is not `-0.0`, and it is not a NaN (which compares false).
pub open spec fn below_zero(bits: u32) -> bool {
    0x8000_0000 < bits <= 0xFF80_0000
}

/// The module's own text, or the shared one when the module's is blank.
pub open spec fn effective_text(individual: Seq<char>, global: Seq<char>) -> Seq<char> {
    if trim(individual).len() == 0 {
        global
    } else {
        individual
    }
}

/// The module's own number, or the shared one when the module's is negative (unset).
pub open spec fn effective_int(individual: i32, global: i32) -> i32 {
    if individual < 0 {
        global
    } else {
        individual
    }
}

/// The CSS text of the opacity `individual`, or `fallback` when it is below zero (unset).
pub open spec fn opacity_css_or(individual: Opacity, fallback: Seq<char>) -> Seq<char> {
    if below_zero(individual.bits) {
        fallback
    } else {
        individual.css@
    }
}

/// The module's own text, or the shared one when the module's is blank.
pub fn effective_string(individual: &str, global: &str) -> (r: String)
    ensures
        r@ == effective_text(individual@, global@),
{
    let v = chars_of(individual);
    let t = trim_chars(v.as_slice());
    if t.len() == 0 {
        String::from_str(global)
    } else {
        String::from_str(individual)
    }
}

/// The module's own number, or the shared one when the module's is negative (unset).
pub fn effective_i32(individual: i32, global: i32) -> (r: i32)
    ensures
        r == effective_int(individual, global),
{
    if individual < 0 {
        global
    } else {
        individual
    }
}

/// The module's own opacity, or the shared one when the module's is below zero (unset).
pub fn effective_f32<'a>(individual: &'a Opacity, global: &'a Opacity) -> (r: &'a Opacity)
    ensures
        r == (if below_zero(individual.bits) {
            global
        } else {
            individual
        }),
{
    if 0x8000_0000 < individual.bits && individual.bits <= 0xFF80_0000 {
        global
    } else {
        individual
    }
}

/// Whether none of `colors` would be sliced inside a character.
pub open spec fn all_sliceable(colors: Seq<Seq<char>>) -> bool {
    forall|i: int| 0 <= i < colors.len() ==> !color_slicing_fails(#[trigger] colors[i])
}

fn all_sliceable_exec(colors: &Vec<String>) -> (b: bool)
    ensures
        b == all_sliceable(string_views(colors@)),
{
    let mut i: usize = 0;
    while i < colors.len()
        invariant
            i <= colors@.len(),
            forall|j: int| 0 <= j < i ==> !color_slicing_fails(#[trigger] colors@[j]@),
        decreases colors.len() - i,
    {
        if !color_is_sliceable(colors[i].as_str()) {
            assert(!!color_slicing_fails(string_views(colors@)[i as int]));
            return false;
        }
        i = i + 1;
    }
    true
}

// ------------------------------------------------------------
// Module rules
// ------------------------------------------------------------

/// The look of a module, resolved against the shared style: its text color,
/// background, border and paddings.
pub open spec fn module_values(
    class_name: Seq<char>,
    color: Seq<char>,
    background: Seq<char>,
    hover_background: Seq<char>,
    opacity: Opacity,
    border_color: Seq<char>,
    border_opacity: Opacity,
    border_width: i32,
    radius: i32,
    padding: i32,
    style: StyleConfig,
    vertical: i32,
) -> Seq<Seq<char>> {
    seq![
        class_name,
        effective_text(color, style.text_color@),
        color_text(
            effective_text(background, style.module_background@),
            opacity_css_or(opacity, style.module_opacity.css@),
        ),
        signed_decimal(effective_int(border_width, style.module_border_width) as int),
        color_text(
            effective_text(border_color, style.module_border_color@),
            opacity_css_or(border_opacity, style.module_border_opacity.css@),
        ),
        signed_decimal(effective_int(radius, style.module_radius) as int),
        signed_decimal(
            (if padding > 0 {
                padding
            } else {
                style.module_padding
            }) as int,
        ),
        signed_decimal(vertical as int),
        color_text(
            effective_text(hover_background, style.module_hover_background@),
            style.module_hover_opacity.css@,
        ),
    ]
}

/// The colors a module rule reads.
pub open spec fn module_colors(
    background: Seq<char>,
    hover_background: Seq<char>,
    border_color: Seq<char>,
    style: StyleConfig,
) -> Seq<Seq<char>> {
    seq![
        effective_text(background, style.module_background@),
        effective_text(hover_background, style.module_hover_background@),
        effective_text(border_color, style.module_border_color@),
    ]
}

fn module_values_exec(
    class_name: &str,
    color: &str,
    background: &str,
    hover_background: &str,
    opacity: &Opacity,
    border_color: &str,
    border_opacity: &Opacity,
    border_width: i32,
    radius: i32,
    padding: i32,
    style: &StyleConfig,
    vertical: i32,
) -> (r: Vec<String>)
    requires
        all_sliceable(module_colors(background@, hover_background@, border_color@, *style)),
    ensures
        string_views(r@) == module_values(
            class_name@,
            color@,
            background@,
            hover_background@,
            *opacity,
            border_color@,
            *border_opacity,
            border_width,
            radius,
            padding,
            *style,
            vertical,
        ),
{
    let ghost colors = module_colors(background@, hover_background@, border_color@, *style);
    assert(!color_slicing_fails(colors[0]));
    assert(!color_slicing_fails(colors[1]));
    assert(!color_slicing_fails(colors[2]));
    let bg = effective_string(background, style.module_background.as_str());
    let hover = effective_string(hover_background, style.module_hover_background.as_str());
    let border = effective_string(border_color, style.module_border_color.as_str());
    let final_padding = if padding > 0 {
        padding
    } else {
        style.module_padding
    };
    let r = vec![
        String::from_str(class_name),
        effective_string(color, style.text_color.as_str()),
        color_with_opacity(bg.as_str(), effective_f32(opacity, &style.module_opacity).css.as_str()),
        i32_to_string(effective_i32(border_width, style.module_border_width)),
        color_with_opacity(
            border.as_str(),
            effective_f32(border_opacity, &style.module_border_opacity).css.as_str(),
        ),
        i32_to_string(effective_i32(radius, style.module_radius)),
        i32_to_string(final_padding),
        i32_to_string(vertical),
        color_with_opacity(hover.as_str(), style.module_hover_opacity.css.as_str()),
    ];
    assert(string_views(r@) =~= module_values(
        class_name@,
        color@,
        background@,
        hover_background@,
        *opacity,
        border_color@,
        *border_opacity,
        border_width,
        radius,
        padding,
        *style,
        vertical,
    ));
    r
}

/// The template of a built-in module's rule.
pub open spec fn module_pieces() -> Seq<Seq<char>> {
    seq![
            "\n."@,
            " {\n    color: "@,
            ";\n\n    background:\n        "@,
            ";\n\n    border:\n        "@,
            "px solid\n        "@,
            ";\n\n    border-radius:\n        "@,
            "px;\n\n    padding-left:\n        "@,
            "px;\n\n    padding-right:\n        "@,
            "px;\n\n    padding-top:\n        "@,
            "px;\n\n    padding-bottom:\n        "@,
            "px;\n}\n\n."@,
            ":hover {\n    background:\n        "@,
            ";\n}\n"@,
        ]
}

/// The template of a custom module's rule.
pub open spec fn custom_pieces() -> Seq<Seq<char>> {
    seq![
            "\n."@,
            " {\n    color:\n        "@,
            ";\n\n    background:\n        "@,
            ";\n\n    border:\n        "@,
            "px solid\n        "@,
            ";\n\n    border-radius:\n        "@,
            "px;\n\n    padding-left:\n        "@,
            "px;\n\n    padding-right:\n        "@,
            "px;\n\n    padding-top:\n        "@,
            "px;\n\n    padding-bottom:\n        "@,
            "px;\n}\n\n."@,
            ":hover {\n    background:\n        "@,
            ";\n}\n"@,
        ]
}

/// Which value fills each hole of a module rule template.
pub open spec fn module_slots() -> Seq<int> {
    seq![0int, 1int, 2int, 3int, 4int, 5int, 6int, 6int, 7int, 7int, 0int, 8int]
}

/// The colors the rule of built-in module `module` reads.
pub open spec fn builtin_module_colors(module: ModuleConfig, config: Config) -> Seq<Seq<char>> {
    module_colors(
        module.background@,
        module.hover_background@,
        module.border_color@,
        config.style,
    )
}

/// The colors the rule of custom module `module` reads.
pub open spec fn custom_module_colors(module: CustomModule, config: Config) -> Seq<Seq<char>> {
    module_colors(
        module.background@,
        module.hover_background@,
        module.border_color@,
        config.style,
    )
}

/// The CSS rule of built-in module `name`: class `raix-module-<name>`, with the
/// module's color, background, border and paddings, each falling back to the shared
/// style where the module leaves it unset.
pub open spec fn module_css(name: Seq<char>, module: ModuleConfig, config: Config) -> Seq<char> {
    fill(
        module_pieces(),
        module_slots(),
        module_values(
            "raix-module-"@ + name,
            module.color@,
            module.background@,
            module.hover_background@,
            module.opacity,
            module.border_color@,
            module.border_opacity,
            module.border_width,
            module.radius,
            module.padding,
            config.style,
            config.spacing.vertical,
        ),
    )
}

/// The CSS rule of a custom module, for the CSS class `class_name`.
pub open spec fn custom_css(class_name: Seq<char>, module: CustomModule, config: Config) -> Seq<
    char,
> {
    fill(
        custom_pieces(),
        module_slots(),
        module_values(
            class_name,
            module.color@,
            module.background@,
            module.hover_background@,
            module.opacity,
            module.border_color@,
            module.border_opacity,
            module.border_width,
            module.radius,
            module.padding,
            config.style,
            config.spacing.vertical,
        ),
    )
}

proof fn lemma_module_slots_in_range()
    ensures
        forall|k: int| 0 <= k < module_slots().len() ==> 0 <= #[trigger] module_slots()[k] < 9,
{
}

/// Whether `apply_module_css` can render the rule of `module` (see `color_slicing_fails`).
pub fn module_css_is_renderable(module: &ModuleConfig, config: &Config) -> (b: bool)
    ensures
        b == all_sliceable(builtin_module_colors(*module, *config)),
{
    let colors = vec![
        effective_string(module.background.as_str(), config.style.module_background.as_str()),
        effective_string(
            module.hover_background.as_str(),
            config.style.module_hover_background.as_str(),
        ),
        effective_string(module.border_color.as_str(), config.style.module_border_color.as_str()),
    ];
    assert(string_views(colors@) =~= builtin_module_colors(*module, *config));
    all_sliceable_exec(&colors)
}

/// Whether `apply_custom_css` can render the rule of `module` (see `color_slicing_fails`).
pub fn custom_css_is_renderable(module: &CustomModule, config: &Config) -> (b: bool)
    ensures
        b == all_sliceable(custom_module_colors(*module, *config)),
{
    let colors = vec![
        effective_string(module.background.as_str(), config.style.module_background.as_str()),
        effective_string(
            module.hover_background.as_str(),
            config.style.module_hover_background.as_str(),
        ),
        effective_string(module.border_color.as_str(), config.style.module_border_color.as_str()),
    ];
    assert(string_views(colors@) =~= custom_module_colors(*module, *config));
    all_sliceable_exec(&colors)
}

/// The CSS rule that styles built-in module `name` (see `module_css`).
pub fn apply_module_css(name: &str, module: &ModuleConfig, config: &Config) -> (r: String)
    requires
        all_sliceable(builtin_module_colors(*module, *config)),
    ensures
        r@ == module_css(name@, *module, *config),
{
    let prefix = chars_of("raix-module-");
    let mut class_chars = prefix;
    let name_chars = chars_of(name);
    crate::text::append_chars(&mut class_chars, name_chars.as_slice());
    let class_name = string_of(class_chars.as_slice());
    let values = module_values_exec(
        class_name.as_str(),
        module.color.as_str(),
        module.background.as_str(),
        module.hover_background.as_str(),
        &module.opacity,
        module.border_color.as_str(),
        &module.border_opacity,
        module.border_width,
        module.radius,
        module.padding,
        &config.style,
        config.spacing.vertical,
    );
    let pieces: Vec<&str> = vec![
            "\n.",
            " {\n    color: ",
            ";\n\n    background:\n        ",
            ";\n\n    border:\n        ",
            "px solid\n        ",
            ";\n\n    border-radius:\n        ",
            "px;\n\n    padding-left:\n        ",
            "px;\n\n    padding-right:\n        ",
            "px;\n\n    padding-top:\n        ",
            "px;\n\n    padding-bottom:\n        ",
            "px;\n}\n\n.",
            ":hover {\n    background:\n        ",
            ";\n}\n",
        ];
    let slots: Vec<usize> = vec![0usize, 1usize, 2usize, 3usize, 4usize, 5usize, 6usize, 6usize, 7usize, 7usize, 0usize, 8usize];
    assert(str_views(pieces@) =~= module_pieces());
    assert(slot_ints(slots@) =~= module_slots());
    proof {
        lemma_module_slots_in_range();
        assert(string_views(values@).len() == values@.len());
        assert forall|k: int| 0 <= k < slots@.len() implies slots@[k] < values@.len() by {
            assert(slot_ints(slots@)[k] == module_slots()[k]);
        }
    }
    fill_template(&pieces, &slots, &values)
}

/// The CSS rule that styles a custom module whose CSS class is `class_name` (see
/// `custom_css`).
pub fn apply_custom_css(class_name: &str, module: &CustomModule, config: &Config) -> (r: String)
    requires
        all_sliceable(custom_module_colors(*module, *config)),
    ensures
        r@ == custom_css(class_name@, *module, *config),
{
    let values = module_values_exec(
        class_name,
        module.color.as_str(),
        module.background.as_str(),
        module.hover_background.as_str(),
        &module.opacity,
        module.border_color.as_str(),
        &module.border_opacity,
        module.border_width,
        module.radius,
        module.padding,
        &config.style,
        config.spacing.vertical,
    );
    let pieces: Vec<&str> = vec![
            "\n.",
            " {\n    color:\n        ",
            ";\n\n    background:\n        ",
            ";\n\n    border:\n        ",
            "px solid\n        ",
            ";\n\n    border-radius:\n        ",
            "px;\n\n    padding-left:\n        ",
            "px;\n\n    padding-right:\n        ",
            "px;\n\n    padding-top:\n        ",
            "px;\n\n    padding-bottom:\n        ",
            "px;\n}\n\n.",
            ":hover {\n    background:\n        ",
            ";\n}\n",
        ];
    let slots: Vec<usize> = vec![0usize, 1usize, 2usize, 3usize, 4usize, 5usize, 6usize, 6usize, 7usize, 7usize, 0usize, 8usize];
    assert(str_views(pieces@) =~= custom_pieces());
    assert(slot_ints(slots@) =~= module_slots());
    proof {
        lemma_module_slots_in_range();
        assert(string_views(values@).len() == values@.len());
        assert forall|k: int| 0 <= k < slots@.len() implies slots@[k] < values@.len() by {
            assert(slot_ints(slots@)[k] == module_slots()[k]);
        }
    }
    fill_template(&pieces, &slots, &values)
}

// ------------------------------------------------------------
// The style sheet of the bar
// ------------------------------------------------------------

/// The template of the bar's style sheet.
#[verifier::opaque]
pub open spec fn global_pieces() -> Seq<Seq<char>> {
    seq![
            "\n* {\n    font-family:\n        \""@,
            "\",\n        \"Noto Sans\",\n        sans-serif;\n}\n\nwindow {\n    background: transparent;\n}\n\n\n/* ==========================================================\n   BAR\n   ========================================================== */\n\n.raix-bar {\n    background:\n        "@,
            ";\n\n    border:\n        "@,
            "px solid\n        "@,
            ";\n\n    border-radius:\n        "@,
            "px;\n\n    padding-left:\n        "@,
            "px;\n\n    padding-right:\n        "@,
            "px;\n\n    padding-top:\n        "@,
            "px;\n\n    padding-bottom:\n        "@,
            "px;\n}\n\n\n/* ==========================================================\n   CENTER BOX\n   ========================================================== */\n\n.bar-center {\n    min-height:\n        "@,
            "px;\n}\n\n.left-zone,\n.center-zone,\n.right-zone {\n    padding-top: 0;\n    padding-bottom: 0;\n}\n\n.left-zone {\n    padding-left:\n        "@,
            "px;\n}\n\n.right-zone {\n    padding-right:\n        "@,
            "px;\n}\n\n\n/* ==========================================================\n   NORMAL MODULE\n   ========================================================== */\n\n.module {\n    color:\n        "@,
            ";\n\n    background:\n        "@,
            ";\n\n    border:\n        "@,
            "px solid\n        "@,
            ";\n\n    border-radius:\n        "@,
            "px;\n\n    padding-left:\n        "@,
            "px;\n\n    padding-right:\n        "@,
            "px;\n\n    padding-top:\n        "@,
            "px;\n\n    padding-bottom:\n        "@,
            "px;\n\n    font-size:\n        "@,
            "px;\n\n    font-weight:\n        "@,
            ";\n}\n\n.module:hover {\n    background:\n        "@,
            ";\n}\n\n\n/* ==========================================================\n   LOGO\n   ========================================================== */\n\n.logo-icon {\n    color:\n        "@,
            ";\n\n    background:\n        "@,
            ";\n\n    border:\n        "@,
            "px solid\n        "@,
            ";\n\n    border-radius:\n        "@,
            "px;\n\n    font-size:\n        "@,
            "px;\n\n    padding-left:\n        "@,
            "px;\n\n    padding-right:\n        "@,
            "px;\n}\n\n.logo-icon:hover {\n    background:\n        "@,
            ";\n}\n\n\n/* ==========================================================\n   LOGO TEXT\n   ========================================================== */\n\n.logo-text {\n    color:\n        "@,
            ";\n\n    background:\n        "@,
            ";\n\n    border:\n        "@,
            "px solid\n        "@,
            ";\n\n    border-radius:\n        "@,
            "px;\n\n    font-size:\n        "@,
            "px;\n\n    font-weight:\n        800;\n\n    padding-left:\n        "@,
            "px;\n\n    padding-right:\n        "@,
            "px;\n}\n\n.logo-text:hover {\n    background:\n        "@,
            ";\n}\n\n\n/* ==========================================================\n   WORKSPACE CONTAINER\n   ========================================================== */\n\n.workspace-container {\n    background:\n        "@,
            ";\n\n    border:\n        "@,
            "px solid\n        "@,
            ";\n\n    border-radius:\n        "@,
            "px;\n\n    padding:\n        "@,
            "px;\n}\n\n\n/* ==========================================================\n   WORKSPACE NORMAL\n   ========================================================== */\n\nlabel.workspace {\n    color: "@,
            ";\n    background: "@,
            ";\n\n    padding-left: "@,
            "px;\n    padding-right: "@,
            "px;\n\n    min-width: 14px;\n    min-height: "@,
            "px;\n\n    font-size: "@,
            "px;\n    font-weight: 700;\n}\n\nlabel.workspace:hover {\n    color: "@,
            ";\n    background: "@,
            ";\n}\n\nlabel.workspace.active {\n    color: "@,
            " !important;\n    background: "@,
            " !important;\n}\n\nlabel.workspace.active:hover {\n    color: "@,
            " !important;\n    background: "@,
            " !important;\n}\n\nlabel.workspace.urgent {\n    color: "@,
            " !important;\n    background: "@,
            " !important;\n}\n\nlabel.workspace.urgent:hover {\n    color: "@,
            " !important;\n    background: "@,
            " !important;\n}\n\n/* ==========================================================\n   CLOCK\n   ========================================================== */\n\nlabel.module-clock {\n    color:\n        "@,
            ";\n\n    background:\n        "@,
            ";\n\n    border:\n        "@,
            "px solid\n        "@,
            ";\n\n    border-radius:\n        "@,
            "px;\n\n    padding-left:\n        "@,
            "px;\n\n    padding-right:\n        "@,
            "px;\n\n    font-size:\n        "@,
            "px;\n\n    font-weight:\n        "@,
            ";\n}\n\nlabel.module-clock:hover {\n    background:\n        "@,
            ";\n}\n"@,
        ]
}

/// Which value fills each hole of the bar's style sheet.
#[verifier::opaque]
pub open spec fn global_slots() -> Seq<int> {
    seq![0int, 2int, 4int, 3int, 5int, 6int, 6int, 7int, 7int, 1int, 8int, 8int, 9int, 10int, 13int, 12int, 14int, 15int, 15int, 16int, 16int, 17int, 18int, 11int, 19int, 20int, 23int, 22int, 24int, 25int, 26int, 26int, 21int, 27int, 28int, 31int, 30int, 32int, 17int, 33int, 33int, 29int, 34int, 36int, 35int, 37int, 38int, 39int, 40int, 41int, 41int, 42int, 43int, 44int, 45int, 58int, 46int, 58int, 46int, 47int, 48int, 47int, 48int, 49int, 50int, 53int, 52int, 54int, 55int, 55int, 56int, 57int, 51int]
}

/// The values of the bar's style sheet: font, sizes, and the colors of the bar, the
/// modules, the logo, the workspace buttons and the clock.
#[verifier::opaque]
pub open spec fn global_values(c: Config) -> Seq<Seq<char>> {
    seq![
        c.font.family@,
        signed_decimal(c.bar.height as int),
        trim(color_text(c.style.bar_background@, c.style.bar_opacity.css@)),
        trim(color_text(c.style.bar_border_color@, c.style.bar_border_opacity.css@)),
        signed_decimal(c.style.bar_border_width as int),
        signed_decimal(c.style.bar_radius as int),
        signed_decimal(c.spacing.bar_horizontal as int),
        signed_decimal(c.spacing.bar_vertical as int),
        signed_decimal(c.spacing.zone as int),
        trim(c.style.text_color@),
        trim(color_text(c.style.module_background@, c.style.module_opacity.css@)),
        trim(color_text(c.style.module_hover_background@, c.style.module_hover_opacity.css@)),
        color_text(trim(c.style.module_border_color@), c.style.module_border_opacity.css@),
        signed_decimal(c.style.module_border_width as int),
        signed_decimal(c.style.module_radius as int),
        signed_decimal(c.style.module_padding as int),
        signed_decimal(c.spacing.vertical as int),
        signed_decimal(c.font.size as int),
        signed_decimal(c.font.weight as int),
        trim(c.logo.icon_color@),
        trim(color_text(c.logo.background@, c.logo.opacity.css@)),
        trim(color_text(c.logo.hover_background@, c.logo.opacity.css@)),
        color_text(c.logo.border_color@, c.logo.border_opacity.css@),
        signed_decimal(c.logo.border_width as int),
        signed_decimal(c.logo.radius as int),
        signed_decimal(c.font.logo_size as int),
        signed_decimal(c.logo.padding as int),
        trim(c.logo_text.color@),
        trim(color_text(c.logo_text.background@, c.logo_text.opacity.css@)),
        trim(color_text(c.logo_text.hover_background@, c.logo_text.opacity.css@)),
        color_text(c.logo_text.border_color@, c.logo_text.border_opacity.css@),
        signed_decimal(c.logo_text.border_width as int),
        signed_decimal(c.logo_text.radius as int),
        signed_decimal(c.logo_text.padding as int),
        trim(color_text(c.workspaces.container_background@, c.workspaces.container_opacity.css@)),
        color_text(c.workspaces.container_border_color@, c.workspaces.container_border_opacity.css@),
        signed_decimal(c.workspaces.container_border_width as int),
        signed_decimal(c.workspaces.container_radius as int),
        signed_decimal(c.workspaces.container_padding as int),
        trim(c.workspaces.color@),
        trim(color_text(c.workspaces.background@, c.workspaces.opacity.css@)),
        signed_decimal(c.workspaces.padding as int),
        signed_decimal(c.workspaces.height as int),
        signed_decimal(c.font.workspace_size as int),
        trim(c.workspaces.hover_color@),
        trim(color_text(c.workspaces.hover_background@, c.workspaces.hover_opacity.css@)),
        trim(color_text(c.workspaces.active.background@, c.workspaces.active.opacity.css@)),
        trim(c.workspaces.urgent.color@),
        trim(color_text(c.workspaces.urgent.background@, c.workspaces.urgent.opacity.css@)),
        trim(c.clock.color@),
        trim(color_text(effective_text(c.clock.background@, c.style.clock_background@), opacity_css_or(c.clock.opacity, c.style.clock_opacity.css@))),
        trim(color_text(effective_text(c.clock.hover_background@, c.style.clock_hover_background@), opacity_css_or(c.clock.opacity, c.style.clock_opacity.css@))),
        color_text(effective_text(c.clock.border_color@, c.style.clock_border_color@), opacity_css_or(c.clock.border_opacity, "1"@)),
        signed_decimal(effective_int(c.clock.border_width, c.style.clock_border_width) as int),
        signed_decimal(effective_int(c.clock.radius, c.style.clock_radius) as int),
        signed_decimal(c.clock.padding as int),
        signed_decimal(c.clock.font_size as int),
        signed_decimal(c.clock.font_weight as int),
        trim(c.workspaces.active.color@),
    ]
}

/// The colors the bar's style sheet reads.
pub open spec fn global_colors(c: Config) -> Seq<Seq<char>> {
    seq![
        c.style.bar_background@,
        c.style.bar_border_color@,
        c.style.module_background@,
        c.style.module_hover_background@,
        c.logo.background@,
        c.logo.hover_background@,
        c.logo.border_color@,
        c.logo_text.background@,
        c.logo_text.hover_background@,
        c.logo_text.border_color@,
        c.workspaces.container_background@,
        c.workspaces.container_border_color@,
        c.workspaces.background@,
        c.workspaces.hover_background@,
        c.workspaces.active.background@,
        c.workspaces.urgent.background@,
        effective_text(c.clock.background@, c.style.clock_background@),
        effective_text(c.clock.hover_background@, c.style.clock_hover_background@),
        effective_text(c.clock.border_color@, c.style.clock_border_color@),
        trim(c.style.module_border_color@),
    ]
}

/// The style sheet of the bar.
pub open spec fn global_css(c: Config) -> Seq<char> {
    fill(global_pieces(), global_slots(), global_values(c))
}

proof fn lemma_global_slots_in_range()
    ensures
        forall|k: int| 0 <= k < global_slots().len() ==> 0 <= #[trigger] global_slots()[k] < 59,
{
    reveal(global_slots);
}

/// Whether `bar_css` can render the style sheet of `config` (see `color_slicing_fails`).
pub fn bar_css_is_renderable(config: &Config) -> (b: bool)
    ensures
        b == all_sliceable(global_colors(*config)),
{
    let colors = vec![
        config.style.bar_background.clone(),
        config.style.bar_border_color.clone(),
        config.style.module_background.clone(),
        config.style.module_hover_background.clone(),
        config.logo.background.clone(),
        config.logo.hover_background.clone(),
        config.logo.border_color.clone(),
        config.logo_text.background.clone(),
        config.logo_text.hover_background.clone(),
        config.logo_text.border_color.clone(),
        config.workspaces.container_background.clone(),
        config.workspaces.container_border_color.clone(),
        config.workspaces.background.clone(),
        config.workspaces.hover_background.clone(),
        config.workspaces.active.background.clone(),
        config.workspaces.urgent.background.clone(),
        effective_string(config.clock.background.as_str(), config.style.clock_background.as_str()),
        effective_string(config.clock.hover_background.as_str(), config.style.clock_hover_background.as_str()),
        effective_string(config.clock.border_color.as_str(), config.style.clock_border_color.as_str()),
        trim_str(config.style.module_border_color.as_str()),
    ];
    assert(string_views(colors@) =~= global_colors(*config));
    all_sliceable_exec(&colors)
}

#[verifier::rlimit(60)]
fn global_values_exec(config: &Config) -> (values: Vec<String>)
    requires
        all_sliceable(global_colors(*config)),
    ensures
        string_views(values@) == global_values(*config),
        values@.len() == 59,
{
    let ghost colors = global_colors(*config);
    proof {
        assert(!color_slicing_fails(colors[0]));
        assert(!color_slicing_fails(colors[1]));
        assert(!color_slicing_fails(colors[2]));
        assert(!color_slicing_fails(colors[3]));
        assert(!color_slicing_fails(colors[4]));
        assert(!color_slicing_fails(colors[5]));
        assert(!color_slicing_fails(colors[6]));
        assert(!color_slicing_fails(colors[7]));
        assert(!color_slicing_fails(colors[8]));
        assert(!color_slicing_fails(colors[9]));
        assert(!color_slicing_fails(colors[10]));
        assert(!color_slicing_fails(colors[11]));
        assert(!color_slicing_fails(colors[12]));
        assert(!color_slicing_fails(colors[13]));
        assert(!color_slicing_fails(colors[14]));
        assert(!color_slicing_fails(colors[15]));
        assert(!color_slicing_fails(colors[16]));
        assert(!color_slicing_fails(colors[17]));
        assert(!color_slicing_fails(colors[18]));
        assert(!color_slicing_fails(colors[19]));
    }
    let full = Opacity { bits: 0x3F80_0000, css: String::from_str("1") };
    let clock_background = effective_string(
        config.clock.background.as_str(),
        config.style.clock_background.as_str(),
    );
    let clock_hover_background = effective_string(
        config.clock.hover_background.as_str(),
        config.style.clock_hover_background.as_str(),
    );
    let clock_border_color = effective_string(
        config.clock.border_color.as_str(),
        config.style.clock_border_color.as_str(),
    );
    let values = vec![
        config.font.family.clone(),
        i32_to_string(config.bar.height),
        trim_str(color_with_opacity(config.style.bar_background.as_str(), config.style.bar_opacity.css.as_str()).as_str()),
        trim_str(color_with_opacity(config.style.bar_border_color.as_str(), config.style.bar_border_opacity.css.as_str()).as_str()),
        i32_to_string(config.style.bar_border_width),
        i32_to_string(config.style.bar_radius),
        i32_to_string(config.spacing.bar_horizontal),
        i32_to_string(config.spacing.bar_vertical),
        i32_to_string(config.spacing.zone),
        trim_str(config.style.text_color.as_str()),
        trim_str(color_with_opacity(config.style.module_background.as_str(), config.style.module_opacity.css.as_str()).as_str()),
        trim_str(color_with_opacity(config.style.module_hover_background.as_str(), config.style.module_hover_opacity.css.as_str()).as_str()),
        color_with_opacity(trim_str(config.style.module_border_color.as_str()).as_str(), config.style.module_border_opacity.css.as_str()),
        i32_to_string(config.style.module_border_width),
        i32_to_string(config.style.module_radius),
        i32_to_string(config.style.module_padding),
        i32_to_string(config.spacing.vertical),
        i32_to_string(config.font.size),
        i32_to_string(config.font.weight),
        trim_str(config.logo.icon_color.as_str()),
        trim_str(color_with_opacity(config.logo.background.as_str(), config.logo.opacity.css.as_str()).as_str()),
        trim_str(color_with_opacity(config.logo.hover_background.as_str(), config.logo.opacity.css.as_str()).as_str()),
        color_with_opacity(config.logo.border_color.as_str(), config.logo.border_opacity.css.as_str()),
        i32_to_string(config.logo.border_width),
        i32_to_string(config.logo.radius),
        i32_to_string(config.font.logo_size),
        i32_to_string(config.logo.padding),
        trim_str(config.logo_text.color.as_str()),
        trim_str(color_with_opacity(config.logo_text.background.as_str(), config.logo_text.opacity.css.as_str()).as_str()),
        trim_str(color_with_opacity(config.logo_text.hover_background.as_str(), config.logo_text.opacity.css.as_str()).as_str()),
        color_with_opacity(config.logo_text.border_color.as_str(), config.logo_text.border_opacity.css.as_str()),
        i32_to_string(config.logo_text.border_width),
        i32_to_string(config.logo_text.radius),
        i32_to_string(config.logo_text.padding),
        trim_str(color_with_opacity(config.workspaces.container_background.as_str(), config.workspaces.container_opacity.css.as_str()).as_str()),
        color_with_opacity(config.workspaces.container_border_color.as_str(), config.workspaces.container_border_opacity.css.as_str()),
        i32_to_string(config.workspaces.container_border_width),
        i32_to_string(config.workspaces.container_radius),
        i32_to_string(config.workspaces.container_padding),
        trim_str(config.workspaces.color.as_str()),
        trim_str(color_with_opacity(config.workspaces.background.as_str(), config.workspaces.opacity.css.as_str()).as_str()),
        i32_to_string(config.workspaces.padding),
        i32_to_string(config.workspaces.height),
        i32_to_string(config.font.workspace_size),
        trim_str(config.workspaces.hover_color.as_str()),
        trim_str(color_with_opacity(config.workspaces.hover_background.as_str(), config.workspaces.hover_opacity.css.as_str()).as_str()),
        trim_str(color_with_opacity(config.workspaces.active.background.as_str(), config.workspaces.active.opacity.css.as_str()).as_str()),
        trim_str(config.workspaces.urgent.color.as_str()),
        trim_str(color_with_opacity(config.workspaces.urgent.background.as_str(), config.workspaces.urgent.opacity.css.as_str()).as_str()),
        trim_str(config.clock.color.as_str()),
        trim_str(color_with_opacity(clock_background.as_str(), effective_f32(&config.clock.opacity, &config.style.clock_opacity).css.as_str()).as_str()),
        trim_str(color_with_opacity(clock_hover_background.as_str(), effective_f32(&config.clock.opacity, &config.style.clock_opacity).css.as_str()).as_str()),
        color_with_opacity(clock_border_color.as_str(), effective_f32(&config.clock.border_opacity, &full).css.as_str()),
        i32_to_string(effective_i32(config.clock.border_width, config.style.clock_border_width)),
        i32_to_string(effective_i32(config.clock.radius, config.style.clock_radius)),
        i32_to_string(config.clock.padding),
        i32_to_string(config.clock.font_size),
        i32_to_string(config.clock.font_weight),
        trim_str(config.workspaces.active.color.as_str()),
    ];
    reveal(global_values);
    assert(string_views(values@) =~= global_values(*config));
    values
}

fn global_pieces_exec() -> (pieces: Vec<&'static str>)
    ensures
        str_views(pieces@) == global_pieces(),
        pieces@.len() == 73 + 1,
{
    let pieces: Vec<&str> = vec![
            "\n* {\n    font-family:\n        \"",
            "\",\n        \"Noto Sans\",\n        sans-serif;\n}\n\nwindow {\n    background: transparent;\n}\n\n\n/* ==========================================================\n   BAR\n   ========================================================== */\n\n.raix-bar {\n    background:\n        ",
            ";\n\n    border:\n        ",
            "px solid\n        ",
            ";\n\n    border-radius:\n        ",
            "px;\n\n    padding-left:\n        ",
            "px;\n\n    padding-right:\n        ",
            "px;\n\n    padding-top:\n        ",
            "px;\n\n    padding-bottom:\n        ",
            "px;\n}\n\n\n/* ==========================================================\n   CENTER BOX\n   ========================================================== */\n\n.bar-center {\n    min-height:\n        ",
            "px;\n}\n\n.left-zone,\n.center-zone,\n.right-zone {\n    padding-top: 0;\n    padding-bottom: 0;\n}\n\n.left-zone {\n    padding-left:\n        ",
            "px;\n}\n\n.right-zone {\n    padding-right:\n        ",
            "px;\n}\n\n\n/* ==========================================================\n   NORMAL MODULE\n   ========================================================== */\n\n.module {\n    color:\n        ",
            ";\n\n    background:\n        ",
            ";\n\n    border:\n        ",
            "px solid\n        ",
            ";\n\n    border-radius:\n        ",
            "px;\n\n    padding-left:\n        ",
            "px;\n\n    padding-right:\n        ",
            "px;\n\n    padding-top:\n        ",
            "px;\n\n    padding-bottom:\n        ",
            "px;\n\n    font-size:\n        ",
            "px;\n\n    font-weight:\n        ",
            ";\n}\n\n.module:hover {\n    background:\n        ",
            ";\n}\n\n\n/* ==========================================================\n   LOGO\n   ========================================================== */\n\n.logo-icon {\n    color:\n        ",
            ";\n\n    background:\n        ",
            ";\n\n    border:\n        ",
            "px solid\n        ",
            ";\n\n    border-radius:\n        ",
            "px;\n\n    font-size:\n        ",
            "px;\n\n    padding-left:\n        ",
            "px;\n\n    padding-right:\n        ",
            "px;\n}\n\n.logo-icon:hover {\n    background:\n        ",
            ";\n}\n\n\n/* ==========================================================\n   LOGO TEXT\n   ========================================================== */\n\n.logo-text {\n    color:\n        ",
            ";\n\n    background:\n        ",
            ";\n\n    border:\n        ",
            "px solid\n        ",
            ";\n\n    border-radius:\n        ",
            "px;\n\n    font-size:\n        ",
            "px;\n\n    font-weight:\n        800;\n\n    padding-left:\n        ",
            "px;\n\n    padding-right:\n        ",
            "px;\n}\n\n.logo-text:hover {\n    background:\n        ",
            ";\n}\n\n\n/* ==========================================================\n   WORKSPACE CONTAINER\n   ========================================================== */\n\n.workspace-container {\n    background:\n        ",
            ";\n\n    border:\n        ",
            "px solid\n        ",
            ";\n\n    border-radius:\n        ",
            "px;\n\n    padding:\n        ",
            "px;\n}\n\n\n/* ==========================================================\n   WORKSPACE NORMAL\n   ========================================================== */\n\nlabel.workspace {\n    color: ",
            ";\n    background: ",
            ";\n\n    padding-left: ",
            "px;\n    padding-right: ",
            "px;\n\n    min-width: 14px;\n    min-height: ",
            "px;\n\n    font-size: ",
            "px;\n    font-weight: 700;\n}\n\nlabel.workspace:hover {\n    color: ",
            ";\n    background: ",
            ";\n}\n\nlabel.workspace.active {\n    color: ",
            " !important;\n    background: ",
            " !important;\n}\n\nlabel.workspace.active:hover {\n    color: ",
            " !important;\n    background: ",
            " !important;\n}\n\nlabel.workspace.urgent {\n    color: ",
            " !important;\n    background: ",
            " !important;\n}\n\nlabel.workspace.urgent:hover {\n    color: ",
            " !important;\n    background: ",
            " !important;\n}\n\n/* ==========================================================\n   CLOCK\n   ========================================================== */\n\nlabel.module-clock {\n    color:\n        ",
            ";\n\n    background:\n        ",
            ";\n\n    border:\n        ",
            "px solid\n        ",
            ";\n\n    border-radius:\n        ",
            "px;\n\n    padding-left:\n        ",
            "px;\n\n    padding-right:\n        ",
            "px;\n\n    font-size:\n        ",
            "px;\n\n    font-weight:\n        ",
            ";\n}\n\nlabel.module-clock:hover {\n    background:\n        ",
            ";\n}\n",
        ];
    reveal(global_pieces);
    assert(str_views(pieces@) =~= global_pieces());
    pieces
}

fn global_slots_exec() -> (slots: Vec<usize>)
    ensures
        slot_ints(slots@) == global_slots(),
        slots@.len() == 73,
        forall|k: int| 0 <= k < slots@.len() ==> #[trigger] slots@[k] < 59,
{
    let slots: Vec<usize> = vec![0usize, 2usize, 4usize, 3usize, 5usize, 6usize, 6usize, 7usize, 7usize, 1usize, 8usize, 8usize, 9usize, 10usize, 13usize, 12usize, 14usize, 15usize, 15usize, 16usize, 16usize, 17usize, 18usize, 11usize, 19usize, 20usize, 23usize, 22usize, 24usize, 25usize, 26usize, 26usize, 21usize, 27usize, 28usize, 31usize, 30usize, 32usize, 17usize, 33usize, 33usize, 29usize, 34usize, 36usize, 35usize, 37usize, 38usize, 39usize, 40usize, 41usize, 41usize, 42usize, 43usize, 44usize, 45usize, 58usize, 46usize, 58usize, 46usize, 47usize, 48usize, 47usize, 48usize, 49usize, 50usize, 53usize, 52usize, 54usize, 55usize, 55usize, 56usize, 57usize, 51usize];
    reveal(global_slots);
    assert(slot_ints(slots@) =~= global_slots());
    proof {
        lemma_global_slots_in_range();
        assert forall|k: int| 0 <= k < slots@.len() implies #[trigger] slots@[k] < 59 by {
            assert(slot_ints(slots@)[k] == global_slots()[k]);
        }
    }
    slots
}

/// The style sheet of the bar, built from the configuration (see `global_css`).
pub fn bar_css(config: &Config) -> (r: String)
    requires
        all_sliceable(global_colors(*config)),
    ensures
        r@ == global_css(*config),
{
    let values = global_values_exec(config);
    let pieces = global_pieces_exec();
    let slots = global_slots_exec();
    assert(string_views(values@).len() == values@.len());
    fill_template(&pieces, &slots, &values)
}

// ------------------------------------------------------------
// Properties
// ------------------------------------------------------------

/// A module's own border opacity, when it is set, is what its border color is written
/// with: the rule is the one written for the same module with the opacity unset and
/// the shared module border opacity equal to it.
pub proof fn law_module_border_opacity(
    name: Seq<char>,
    module: ModuleConfig,
    config: Config,
    unset: Opacity,
)
    requires
        !below_zero(module.border_opacity.bits),
        below_zero(unset.bits),
    ensures
        module_css(name, module, config) == module_css(
            name,
            ModuleConfig { border_opacity: unset, ..module },
            Config {
                style: StyleConfig { module_border_opacity: module.border_opacity, ..config.style },
                ..config
            },
        ),
{
    let other = ModuleConfig { border_opacity: unset, ..module };
    let c2 = Config {
        style: StyleConfig { module_border_opacity: module.border_opacity, ..config.style },
        ..config
    };
    assert(module_values(
        "raix-module-"@ + name,
        module.color@,
        module.background@,
        module.hover_background@,
        module.opacity,
        module.border_color@,
        module.border_opacity,
        module.border_width,
        module.radius,
        module.padding,
        config.style,
        config.spacing.vertical,
    ) =~= module_values(
        "raix-module-"@ + name,
        other.color@,
        other.background@,
        other.hover_background@,
        other.opacity,
        other.border_color@,
        other.border_opacity,
        other.border_width,
        other.radius,
        other.padding,
        c2.style,
        c2.spacing.vertical,
    ));
}

/// The same for a custom module: its own border opacity, when set, is what its border
/// color is written with.
pub proof fn law_custom_border_opacity(
    class_name: Seq<char>,
    module: CustomModule,
    config: Config,
    unset: Opacity,
)
    requires
        !below_zero(module.border_opacity.bits),
        below_zero(unset.bits),
    ensures
        custom_css(class_name, module, config) == custom_css(
            class_name,
            CustomModule { border_opacity: unset, ..module },
            Config {
                style: StyleConfig { module_border_opacity: module.border_opacity, ..config.style },
                ..config
            },
        ),
{
    let other = CustomModule { border_opacity: unset, ..module };
    let c2 = Config {
        style: StyleConfig { module_border_opacity: module.border_opacity, ..config.style },
        ..config
    };
    assert(module_values(
        class_name,
        module.color@,
        module.background@,
        module.hover_background@,
        module.opacity,
        module.border_color@,
        module.border_opacity,
        module.border_width,
        module.radius,
        module.padding,
        config.style,
        config.spacing.vertical,
    ) =~= module_values(
        class_name,
        other.color@,
        other.background@,
        other.hover_background@,
        other.opacity,
        other.border_color@,
        other.border_opacity,
        other.border_width,
        other.radius,
        other.padding,
        c2.style,
        c2.spacing.vertical,
    ));
}

/// The clock's own radius, when it is set (not negative), is what the clock rule of the
/// bar's style sheet writes: the sheet is the one written with the clock's radius unset
/// and the shared clock radius equal to it. An unset clock radius takes the shared one.
pub proof fn law_clock_radius(config: Config)
    ensures
        config.clock.radius >= 0 ==> global_css(config) == global_css(
            Config {
                clock: ClockConfig { radius: -1i32, ..config.clock },
                style: StyleConfig { clock_radius: config.clock.radius, ..config.style },
                ..config
            },
        ),
        forall|shared: i32|
            config.clock.radius >= 0 ==> global_css(config) == global_css(
                Config { style: StyleConfig { clock_radius: shared, ..config.style }, ..config },
            ),
{
    reveal(global_values);
    if config.clock.radius >= 0 {
        let c2 = Config {
            clock: ClockConfig { radius: -1i32, ..config.clock },
            style: StyleConfig { clock_radius: config.clock.radius, ..config.style },
            ..config
        };
        assert(global_values(config) =~= global_values(c2));
        assert forall|shared: i32|
            global_css(config) == global_css(
                Config { style: StyleConfig { clock_radius: shared, ..config.style }, ..config },
            ) by {
            let c3 = Config { style: StyleConfig { clock_radius: shared, ..config.style }, ..config };
            assert(global_values(config) =~= global_values(c3));
        }
    }
}

} // verus!
