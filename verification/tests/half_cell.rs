use lib::color::AnsiColor;
use lib::half_cell::{Color, HalfCellCanvas};

#[test]
fn half_cell_render_only_outputs_changed_pixels() {
    let mut canvas = HalfCellCanvas::new((6, 1), (0, 0));

    // fill the canvas
    for x in 0..canvas.width() {
        canvas.set_color(x, 0, Color::Rgb(0, 0, 0));
    }

    // render
    let _ = canvas.render();

    // fill canvas again; changing the first and last pixel
    for x in 1..canvas.width() - 1 {
        canvas.set_color(x, 0, Color::Rgb(0, 0, 0));
    }
    canvas.set_color(0, 0, Color::Rgb(100, 100, 100));
    canvas.set_color(canvas.width() - 1, 0, Color::Rgb(200, 200, 200));

    // render again and look for a "move" escape seq
    let output = canvas.render();
    assert!(output.contains(&format!("\x1b[{};{}H", 1, canvas.width())));
}

#[test]
fn cleared_cell_renders_space_not_half_block() {
    let mut canvas = HalfCellCanvas::new((3, 1), (0, 0));

    // frame 1: color one cell (top pixel only)
    canvas.set_color(1, 0, Color::Rgb(255, 0, 0));
    let _ = canvas.render();

    // frame 2: don't set that cell, so it should be cleared
    let output = canvas.render();

    // both halves are None, so it should emit a space (not ▀)
    assert!(
        output.contains(' '),
        "expected space for fully cleared cell, got: {output:?}"
    );
    assert!(
        !output.contains('▀'),
        "should not contain ▀ for fully cleared cell, got: {output:?}"
    );
}

#[test]
fn only_bottom_colored_uses_lower_half_block() {
    let mut canvas = HalfCellCanvas::new((3, 1), (0, 0));

    // color only the bottom pixel of cell at col 1
    canvas.set_color(1, 1, Color::Rgb(0, 255, 0));
    let output = canvas.render();

    assert!(
        output.contains('▄'),
        "expected ▄ when only bottom is colored, got: {output:?}"
    );
}

#[test]
fn set_color_ignores_out_of_bounds_input() {
    let mut canvas = HalfCellCanvas::new((20, 40), (0, 0));

    // shouldn't panic
    canvas.set_color(25, 10, Color::Rgb(0, 0, 0));
    canvas.set_color(10, 90, Color::Rgb(0, 0, 0));
    canvas.set_color(25, 90, Color::Rgb(0, 0, 0));

    // no colors should have been set
    let (_, buf) = canvas.buffers();
    assert!(buf.iter().all(|c| c.is_none()));
}

#[test]
fn re_establishes_color_each_render() {
    // the canvas must not assume it still owns the terminal's color state
    // across renders: something else may write to the terminal between them.
    let mut canvas = HalfCellCanvas::new((3, 1), (0, 0));
    let green = Color::Rgb(140, 240, 140);
    let dark = Color::Rgb(20, 20, 20);

    // frame 1: fill dark, end on green in the last cell
    for x in 0..3 {
        canvas.set_color(x, 0, dark);
        canvas.set_color(x, 1, dark);
    }
    canvas.set_color(2, 0, green);
    canvas.set_color(2, 1, green);
    let _ = canvas.render();

    // frame 2: a different cell becomes green
    for x in 0..3 {
        canvas.set_color(x, 0, dark);
        canvas.set_color(x, 1, dark);
    }
    canvas.set_color(0, 0, green);
    canvas.set_color(0, 1, green);
    let output = canvas.render();

    // the newly-green cell must carry its own fg escape
    assert!(
        output.contains("38;2;140;240;140"),
        "expected the green cell to re-emit its fg color, got: {output:?}"
    );
}

#[test]
fn cleared_cell_falls_back_to_terminal_bg() {
    // a cleared cell must reset the bg so it shows the terminal's own
    // background, not the leftover bg from a previously drawn cell.
    let mut canvas = HalfCellCanvas::new((3, 1), (0, 0));
    let green = Color::Rgb(140, 240, 140);

    // frame 1: a solid green cell at col 0 leaves the terminal bg green
    canvas.set_color(0, 0, green);
    canvas.set_color(0, 1, green);
    let _ = canvas.render();

    // frame 2: col 0 is vacated (no background fill), col 1 becomes green
    canvas.set_color(1, 0, green);
    canvas.set_color(1, 1, green);
    let output = canvas.render();

    // the vacated cell's space must sit on a reset bg, not leftover green
    let space_idx = output
        .find(' ')
        .expect("expected a space for the cleared cell");
    assert!(
        output[..space_idx].contains("\x1b[49m"),
        "expected a bg reset before the cleared cell, got: {output:?}"
    );
}

#[test]
fn half_cell_first_frame_exact_output() {
    let mut canvas = HalfCellCanvas::new((2, 1), (3, 4));
    canvas.set_color(0, 0, Color::Rgb(1, 2, 3));
    canvas.set_color(0, 1, Color::Rgb(4, 5, 6));
    canvas.set_color(1, 1, Color::Rgb(7, 8, 9));
    let output = canvas.render();
    assert_eq!(
        output,
        "\x1b[39m\x1b[49m\x1b[5;4H\x1b[5;4H\x1b[38;2;1;2;3m\x1b[48;2;4;5;6m\u{2580}\x1b[38;2;7;8;9m\x1b[49m\u{2584}"
    );
}

#[test]
fn half_cell_unchanged_frame_writes_no_cells() {
    let mut canvas = HalfCellCanvas::new((2, 2), (0, 0));
    canvas.set_color(0, 0, Color::Rgb(1, 1, 1));
    let _ = canvas.render();
    canvas.set_color(0, 0, Color::Rgb(1, 1, 1));
    let output = canvas.render();
    assert_eq!(output, "\x1b[39m\x1b[49m\x1b[1;1H\x1b[2;1H");
}

#[test]
fn half_cell_render_swaps_and_clears_buffers() {
    let mut canvas = HalfCellCanvas::new((2, 1), (0, 0));
    canvas.set_color(1, 1, Color::Rgb(9, 9, 9));
    let _ = canvas.render();
    let (front, back) = canvas.buffers();
    assert_eq!(front, &vec![None, None, None, Some(Color::Rgb(9, 9, 9))]);
    assert!(back.iter().all(|c| c.is_none()));
}

#[test]
fn half_cell_reset_forces_redraw() {
    let mut canvas = HalfCellCanvas::new((1, 1), (0, 0));
    canvas.set_color(0, 0, Color::Rgb(5, 5, 5));
    let first = canvas.render();
    canvas.set_color(0, 0, Color::Rgb(5, 5, 5));
    canvas.reset();
    let (front, back) = canvas.buffers();
    assert!(front.iter().all(|c| c.is_none()));
    assert!(back.iter().all(|c| c.is_none()));
    canvas.set_color(0, 0, Color::Rgb(5, 5, 5));
    let second = canvas.render();
    assert_eq!(first, second);
}

#[test]
fn half_cell_dimensions() {
    let canvas = HalfCellCanvas::new((7, 3), (0, 0));
    assert_eq!(canvas.width(), 7);
    assert_eq!(canvas.height(), 6);
}

#[test]
fn half_cell_set_color_edge_is_ignored() {
    let mut canvas = HalfCellCanvas::new((3, 2), (0, 0));
    canvas.set_color(3, 0, Color::Rgb(1, 1, 1));
    canvas.set_color(0, 4, Color::Rgb(1, 1, 1));
    canvas.set_color(2, 3, Color::Rgb(1, 1, 1));
    let (_, back) = canvas.buffers();
    let set: Vec<usize> = (0..back.len()).filter(|i| back[*i].is_some()).collect();
    assert_eq!(set, vec![11]);
}

#[test]
fn half_cell_ansi_colors() {
    let mut canvas = HalfCellCanvas::new((1, 1), (0, 0));
    canvas.set_color(0, 0, Color::Ansi(AnsiColor::Red));
    canvas.set_color(0, 1, Color::Ansi(AnsiColor::BrightBlue));
    let output = canvas.render();
    assert_eq!(output, "\x1b[39m\x1b[49m\x1b[1;1H\x1b[1;1H\x1b[31m\x1b[104m\u{2580}");
}
