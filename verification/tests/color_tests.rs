use raixbar::color::{color_is_sliceable, color_with_opacity};

fn alpha(opacity: f32) -> String {
    format!("{}", opacity.clamp(0.0, 1.0))
}

#[test]
fn short_hex_is_doubled() {
    assert_eq!(color_with_opacity("#abc", &alpha(0.5)), "rgba(170,187,204,0.5)");
}

#[test]
fn six_digit_hex() {
    assert_eq!(color_with_opacity("#89b4fa", &alpha(0.2)), "rgba(137,180,250,0.2)");
}

#[test]
fn eight_digit_hex_ignores_its_alpha() {
    assert_eq!(color_with_opacity("#AABBCCDD", &alpha(0.5)), "rgba(170,187,204,0.5)");
    assert_eq!(
        color_with_opacity("#89b4fa00", &alpha(1.0)),
        color_with_opacity("#89b4fa", &alpha(1.0))
    );
}

#[test]
fn short_and_long_hex_agree() {
    assert_eq!(
        color_with_opacity("#f0a", &alpha(0.3)),
        color_with_opacity("#ff00aa", &alpha(0.3))
    );
    assert_eq!(color_with_opacity("#f0a", &alpha(0.3)), "rgba(255,0,170,0.3)");
}

#[test]
fn opacity_is_clamped() {
    assert_eq!(color_with_opacity("#000000", &alpha(3.0)), "rgba(0,0,0,1)");
    assert_eq!(color_with_opacity("#000000", &alpha(-2.0)), "rgba(0,0,0,0)");
}

#[test]
fn plus_sign_reads_as_hex_byte() {
    assert_eq!(color_with_opacity("#+f0000", &alpha(1.0)), "rgba(15,0,0,1)");
}

#[test]
fn empty_and_transparent() {
    assert_eq!(color_with_opacity("", &alpha(0.5)), "transparent");
    assert_eq!(color_with_opacity("   ", &alpha(0.5)), "transparent");
    assert_eq!(color_with_opacity("  TransParent ", &alpha(0.5)), "transparent");
}

#[test]
fn functional_colors_take_three_channels() {
    assert_eq!(color_with_opacity("rgb(1, 2, 3)", &alpha(0.25)), "rgba(1,2,3,0.25)");
    assert_eq!(
        color_with_opacity("rgba( 10 ,20,30, 0.9)", &alpha(0.25)),
        "rgba(10,20,30,0.25)"
    );
}

#[test]
fn functional_color_with_two_channels_is_kept() {
    assert_eq!(color_with_opacity("rgb(1,2)", &alpha(0.5)), "rgb(1,2)");
    assert_eq!(color_with_opacity("rgb(1,2,3", &alpha(0.5)), "rgb(1,2,3");
}

#[test]
fn other_colors_are_kept_trimmed() {
    assert_eq!(color_with_opacity("  red  ", &alpha(0.5)), "red");
    assert_eq!(color_with_opacity("#ggg", &alpha(0.5)), "#ggg");
    assert_eq!(color_with_opacity("#12345", &alpha(0.5)), "#12345");
    assert_eq!(color_with_opacity("#éa", &alpha(0.5)), "#éa");
}

#[test]
fn hex_digits_inside_a_character_cannot_be_read() {
    assert!(!color_is_sliceable("#€"));
    assert!(!color_is_sliceable("#aé123"));
    assert!(color_is_sliceable("#abc"));
    assert!(color_is_sliceable("#éa"));
    assert!(color_is_sliceable("red"));
    assert!(color_is_sliceable(""));
}

#[test]
fn writing_a_color_twice_changes_nothing() {
    for color in ["#abc", " #89b4fa80 ", "rgb(1, 2, 3)", "rgba( 9,8 ,7,0.1)", "red", "", "TRANSPARENT", "#ggg", "rgb((1,2,3)"] {
        let once = color_with_opacity(color, &alpha(0.4));
        assert_eq!(color_with_opacity(&once, &alpha(0.4)), once);
    }
}
