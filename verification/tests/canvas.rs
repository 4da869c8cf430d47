use lib::{write_bg_color, write_bg_reset, write_fg_color, write_fg_reset, write_move_to};
use lib::{Color, HalfCellCanvas};

#[test]
fn lib_render_only_outputs_changed_pixels() {
    let mut canvas = HalfCellCanvas::new((1, 6), (0, 0));

    // fill the canvas
    for x in 0..canvas.width() {
        canvas.set_color(x, 0, Color::new(0, 0, 0));
    }

    // render
    let _ = canvas.render();

    // fill canvas again; changing the first and last pixel
    for x in 1..canvas.width() - 1 {
        canvas.set_color(x, 0, Color::new(0, 0, 0));
    }
    canvas.set_color(0, 0, Color::new(100, 100, 100));
    canvas.set_color(canvas.width() - 1, 0, Color::new(200, 200, 200));

    // render again and look for a "move" escape seq
    let output = canvas.render();
    assert!(output.contains(&format!("\x1b[{};{}H", 1, canvas.width())));
}

#[test]
fn canvas_first_frame_exact_output() {
    let mut canvas = HalfCellCanvas::new((1, 2), (2, 7));
    canvas.set_color(0, 0, Color::new(1, 2, 3));
    canvas.set_color(1, 1, Color::new(4, 5, 6));
    let output = canvas.render();
    assert_eq!(
        output,
        "\x1b[3;8H\x1b[3;8H\x1b[38;2;1;2;3m\u{2580}\x1b[39m\x1b[48;2;4;5;6m\u{2580}"
    );
}

#[test]
fn canvas_second_frame_redraws_only_changes() {
    let mut canvas = HalfCellCanvas::new((1, 3), (0, 0));
    canvas.set_color(0, 0, Color::new(1, 1, 1));
    canvas.set_color(2, 0, Color::new(1, 1, 1));
    let _ = canvas.render();
    canvas.set_color(0, 0, Color::new(1, 1, 1));
    let output = canvas.render();
    assert_eq!(output, "\x1b[1;1H\x1b[1;3H\u{2580}");
}

#[test]
fn canvas_reset_forces_redraw() {
    let mut canvas = HalfCellCanvas::new((1, 1), (0, 0));
    canvas.set_color(0, 1, Color::new(3, 3, 3));
    let first = canvas.render();
    canvas.set_color(0, 1, Color::new(3, 3, 3));
    canvas.reset();
    canvas.set_color(0, 1, Color::new(3, 3, 3));
    let second = canvas.render();
    assert_eq!(first, second);
}

#[test]
fn canvas_dimensions_and_default_color() {
    let canvas = HalfCellCanvas::new((4, 9), (0, 0));
    assert_eq!(canvas.width(), 9);
    assert_eq!(canvas.height(), 8);
    assert_eq!(Color::default(), Color::new(0, 0, 0));
}

#[test]
fn canvas_escape_writers() {
    let mut s = String::from("x");
    write_move_to(&mut s, 0, 9);
    write_fg_color(&mut s, Color::new(255, 0, 10));
    write_bg_color(&mut s, Color::new(0, 1, 200));
    write_fg_reset(&mut s);
    write_bg_reset(&mut s);
    assert_eq!(
        s,
        "x\x1b[1;10H\x1b[38;2;255;0;10m\x1b[48;2;0;1;200m\x1b[39m\x1b[49m"
    );
}
