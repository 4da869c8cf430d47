use lib::braille::BrailleCanvas;
use lib::color::{AnsiColor, Color};

#[test]
fn braille_dimensions() {
    let canvas = BrailleCanvas::new((3, 5), (0, 0));
    assert_eq!(canvas.width(), 10);
    assert_eq!(canvas.height(), 12);
}

#[test]
fn braille_single_dot_pattern() {
    let mut canvas = BrailleCanvas::new((1, 1), (0, 0));
    canvas.set(0, 0, Color::Rgb(1, 2, 3));
    let output = canvas.render();
    assert_eq!(output, "\x1b[1;1H\x1b[38;2;1;2;3m\u{2801}");
}

#[test]
fn braille_dot_layout() {
    // each dot of a cell, alone, maps to its bit
    let expected = [(0, 0, 0x01), (0, 1, 0x02), (0, 2, 0x04), (1, 0, 0x08), (1, 1, 0x10), (1, 2, 0x20), (0, 3, 0x40), (1, 3, 0x80)];
    for (x, y, bit) in expected {
        let mut canvas = BrailleCanvas::new((1, 1), (0, 0));
        canvas.set(x, y, Color::Ansi(AnsiColor::Red));
        let output = canvas.render();
        let ch = char::from_u32(0x2800 + bit).unwrap();
        assert_eq!(output, format!("\x1b[1;1H\x1b[31m{ch}"));
    }
}

#[test]
fn braille_full_cell_and_blank_cell() {
    let mut canvas = BrailleCanvas::new((1, 2), (4, 6));
    for y in 0..4 {
        for x in 0..2 {
            canvas.set(x, y, Color::Rgb(0, 0, 0));
        }
    }
    let output = canvas.render();
    assert_eq!(output, "\x1b[5;7H\x1b[38;2;0;0;0m\u{28FF} ");
}

#[test]
fn braille_out_of_bounds_ignored_and_buffer_cleared() {
    let mut canvas = BrailleCanvas::new((1, 1), (0, 0));
    canvas.set(2, 0, Color::Rgb(1, 1, 1));
    canvas.set(0, 4, Color::Rgb(1, 1, 1));
    assert_eq!(canvas.render(), "\x1b[1;1H ");
    canvas.set(1, 3, Color::Rgb(1, 1, 1));
    let _ = canvas.render();
    assert_eq!(canvas.render(), "\x1b[1;1H ");
}

#[test]
fn braille_background_and_last_color_wins() {
    let mut canvas = BrailleCanvas::new((2, 1), (0, 0));
    canvas.set_bg_color(Color::Ansi(AnsiColor::Blue));
    canvas.set(0, 0, Color::Rgb(1, 1, 1));
    canvas.set(1, 1, Color::Rgb(2, 2, 2));
    canvas.set(0, 4, Color::Rgb(2, 2, 2));
    let output = canvas.render();
    assert_eq!(
        output,
        "\x1b[44m\x1b[1;1H\x1b[38;2;2;2;2m\u{2811}\x1b[2;1H\u{2801}"
    );
    // the background stays for later frames
    assert_eq!(canvas.render(), "\x1b[44m\x1b[1;1H \x1b[2;1H ");
}
