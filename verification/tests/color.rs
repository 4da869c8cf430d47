use lib::color::{AnsiColor, Color};
use lib::utils::{write_bg_color, write_bg_reset, write_fg_color, write_fg_reset, write_move_to};

#[test]
fn color_escapes_rgb() {
    let c = Color::Rgb(12, 0, 255);
    assert_eq!(c.escape_fg(), "\x1b[38;2;12;0;255m");
    assert_eq!(c.escape_bg(), "\x1b[48;2;12;0;255m");
}

#[test]
fn color_escapes_ansi() {
    assert_eq!(Color::Ansi(AnsiColor::Black).escape_fg(), "\x1b[30m");
    assert_eq!(Color::Ansi(AnsiColor::Black).escape_bg(), "\x1b[40m");
    assert_eq!(Color::Ansi(AnsiColor::White).escape_fg(), "\x1b[37m");
    assert_eq!(Color::Ansi(AnsiColor::BrightBlack).escape_fg(), "\x1b[90m");
    assert_eq!(Color::Ansi(AnsiColor::BrightWhite).escape_bg(), "\x1b[107m");
}

#[test]
fn color_write_appends() {
    let mut s = String::from("ab");
    Color::Ansi(AnsiColor::Cyan).write_fg(&mut s);
    Color::Rgb(1, 2, 3).write_bg(&mut s);
    assert_eq!(s, "ab\x1b[36m\x1b[48;2;1;2;3m");
}

#[test]
fn color_from_tuple() {
    assert_eq!(Color::from((7, 8, 9)), Color::Rgb(7, 8, 9));
}

#[test]
fn utils_writers() {
    let mut s = String::new();
    write_move_to(&mut s, 41, 0);
    write_fg_color(&mut s, Color::Ansi(AnsiColor::Green));
    write_bg_color(&mut s, Color::Rgb(100, 0, 0));
    write_fg_reset(&mut s);
    write_bg_reset(&mut s);
    assert_eq!(s, "\x1b[42;1H\x1b[32m\x1b[48;2;100;0;0m\x1b[39m\x1b[49m");
}
