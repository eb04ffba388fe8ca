use gvpaint::palette::{BACKGROUND, Color, code_for_color, color_for_code, color_of_rgb,
    return_color, return_color_int, rgb_of_color};
use gvpaint::input::{KEY, cursor_input, color_code_of_key};

#[test]
fn palette_codes_name_the_ten_colors() {
    assert_eq!(color_for_code(1), Color::Black);
    assert_eq!(color_for_code(2), Color::Blue);
    assert_eq!(color_for_code(3), Color::Green);
    assert_eq!(color_for_code(4), Color::Cyan);
    assert_eq!(color_for_code(5), Color::Red);
    assert_eq!(color_for_code(6), Color::Magenta);
    assert_eq!(color_for_code(7), Color::Rgb { r: 170, g: 85, b: 0 });
    assert_eq!(color_for_code(8), Color::Grey);
    assert_eq!(color_for_code(9), Color::Yellow);
    assert_eq!(color_for_code(0), Color::White);
}

#[test]
fn unknown_code_resolves_to_background() {
    assert_eq!(color_for_code(10), BACKGROUND);
    assert_eq!(color_for_code(4_000_000_000), Color::White);
}

#[test]
fn codes_round_trip_through_colors() {
    let mut code: u32 = 0;
    while code <= 9 {
        assert_eq!(code_for_color(color_for_code(code)), code);
        code += 1;
    }
}

#[test]
fn off_palette_color_falls_back_to_code_zero() {
    assert_eq!(code_for_color(Color::DarkRed), 0);
    assert_eq!(code_for_color(Color::Rgb { r: 1, g: 2, b: 3 }), 0);
    assert_eq!(code_for_color(Color::White), 0);
}

#[test]
fn return_color_matches_the_digit_keys() {
    assert_eq!(return_color(KEY::C1), Color::Black);
    assert_eq!(return_color(KEY::C5), Color::Red);
    assert_eq!(return_color(KEY::C7), Color::Rgb { r: 170, g: 85, b: 0 });
    assert_eq!(return_color(KEY::C0), Color::White);
    assert_eq!(return_color(KEY::W), Color::Black);
}

#[test]
fn return_color_int_inverts_palette_colors() {
    assert!(matches!(return_color_int(Color::Red), KEY::C5));
    assert!(matches!(return_color_int(Color::Blue), KEY::C2));
    assert!(matches!(return_color_int(Color::Rgb { r: 170, g: 85, b: 0 }), KEY::C7));
    assert!(matches!(return_color_int(Color::DarkCyan), KEY::C0));
}

#[test]
fn rgb_export_table() {
    assert_eq!(rgb_of_color(Color::Black), (0, 0, 0));
    assert_eq!(rgb_of_color(Color::White), (255, 255, 255));
    assert_eq!(rgb_of_color(Color::Red), (255, 0, 0));
    assert_eq!(rgb_of_color(Color::DarkGreen), (0, 128, 0));
    assert_eq!(rgb_of_color(Color::Rgb { r: 7, g: 8, b: 9 }), (7, 8, 9));
}

#[test]
fn rgb_import_is_true_color() {
    assert_eq!(color_of_rgb(255, 0, 0), Color::Rgb { r: 255, g: 0, b: 0 });
}

#[test]
fn keys_map_from_characters() {
    assert!(matches!(cursor_input(Some('w')), KEY::W));
    assert!(matches!(cursor_input(Some('W')), KEY::W));
    assert!(matches!(cursor_input(Some('s')), KEY::S));
    assert!(matches!(cursor_input(Some('a')), KEY::A));
    assert!(matches!(cursor_input(Some('D')), KEY::D));
    assert!(matches!(cursor_input(Some('f')), KEY::FILE));
    assert!(matches!(cursor_input(Some('h')), KEY::HELP));
    assert!(matches!(cursor_input(Some('p')), KEY::PLACE));
    assert!(matches!(cursor_input(Some('e')), KEY::ERASE));
    assert!(matches!(cursor_input(Some('q')), KEY::QUIT));
    assert!(matches!(cursor_input(Some('1')), KEY::C1));
    assert!(matches!(cursor_input(Some('0')), KEY::C0));
    assert!(matches!(cursor_input(Some('x')), KEY::NONE));
    assert!(matches!(cursor_input(None), KEY::NONE));
}

#[test]
fn digit_keys_carry_their_codes() {
    assert_eq!(color_code_of_key(KEY::C1), Some(1));
    assert_eq!(color_code_of_key(KEY::C9), Some(9));
    assert_eq!(color_code_of_key(KEY::C0), Some(0));
    assert_eq!(color_code_of_key(KEY::PLACE), None);
}
