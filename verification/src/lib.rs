//! Terminal pixel canvases that render to strings of text and escape
//! sequences: a half-block canvas with two pixels per cell, and a braille
//! canvas with eight dots per cell.
//!
//! The crate root holds the RGB-only half-block canvas; the `half_cell`,
//! `braille` and `color` modules hold the canvases that also take the ANSI
//! colours.
pub mod braille;
pub mod color;
pub mod half_cell;
pub mod term;
pub mod text;
pub mod utils;

use vstd::prelude::*;

use crate::term::{
    bg_cmds, encode_all, fg_cmds, lemma_encode_append, lemma_encode_push, lemma_run_append,
    lemma_run_bg, lemma_run_fg, lemma_run_one, run, Cell, Cmd, Pen, Term,
};
use crate::text::{
    bg_lead, bg_reset_escape, fg_lead, fg_reset_escape, move_to_escape, push_bg_reset, push_char,
    push_fg_reset, push_move_to, push_truecolor, sgr, truecolor_params,
};

verus! {

/// The character whose upper half is drawn in the foreground colour.
pub const UPPER_HALF_CELL: char = '\u{2580}';

/// A 24-bit colour: red, green and blue.
#[derive(Debug, Clone, Copy, PartialEq, Eq, Structural)]
pub struct Color(u8, u8, u8);

impl Color {
    /// The red component.
    pub closed spec fn red(self) -> u8 {
        self.0
    }

    /// The green component.
    pub closed spec fn green(self) -> u8 {
        self.1
    }

    /// The blue component.
    pub closed spec fn blue(self) -> u8 {
        self.2
    }

    /// The colour with the given components.
    pub fn new(r: u8, g: u8, b: u8) -> (c: Self)
        ensures
            c.red() == r,
            c.green() == g,
            c.blue() == b,
    {
        Color(r, g, b)
    }

    /// Colours with the same components are the same colour.
    pub proof fn lemma_components_determine(a: Color, b: Color)
        ensures
            (a == b) <==> (a.red() == b.red() && a.green() == b.green() && a.blue() == b.blue()),
    {
    }
}

impl Default for Color {
    /// Black.
    fn default() -> (c: Self)
        ensures
            c.red() == 0 && c.green() == 0 && c.blue() == 0,
    {
        Color(0, 0, 0)
    }
}

/// The escape sequence that makes `c` the foreground colour.
pub open spec fn rgb_fg_escape(c: Color) -> Seq<char> {
    sgr(truecolor_params(fg_lead(), c.red(), c.green(), c.blue()))
}

/// The escape sequence that makes `c` the background colour.
pub open spec fn rgb_bg_escape(c: Color) -> Seq<char> {
    sgr(truecolor_params(bg_lead(), c.red(), c.green(), c.blue()))
}

/// Writes a move-to escape sequence to a string buffer.  `row` and `col` are
/// zero-based; the sequence counts from one.
pub fn write_move_to(str: &mut String, row: usize, col: usize)
    requires
        row < usize::MAX,
        col < usize::MAX,
    ensures
        final(str)@ == old(str)@ + move_to_escape(row as nat, col as nat),
{
    push_move_to(str, row, col);
}

/// Writes the escape sequence that makes `color` the foreground.
pub fn write_fg_color(str: &mut String, color: Color)
    ensures
        final(str)@ == old(str)@ + rgb_fg_escape(color),
{
    push_truecolor(str, true, color.0, color.1, color.2);
}

/// Writes the escape sequence that makes `color` the background.
pub fn write_bg_color(str: &mut String, color: Color)
    ensures
        final(str)@ == old(str)@ + rgb_bg_escape(color),
{
    push_truecolor(str, false, color.0, color.1, color.2);
}

/// Writes the escape sequence that restores the default foreground.
pub fn write_fg_reset(str: &mut String)
    ensures
        final(str)@ == old(str)@ + fg_reset_escape(),
{
    push_fg_reset(str);
}

/// Writes the escape sequence that restores the default background.
pub fn write_bg_reset(str: &mut String)
    ensures
        final(str)@ == old(str)@ + bg_reset_escape(),
{
    push_bg_reset(str);
}

/// The abstract state of a [`HalfCellCanvas`]: its size and position in
/// cells, and the pixels of the front buffer (the frame last rendered) and of
/// the back buffer (the frame being drawn), stored row by row, `cols` to a
/// row, two pixel rows to a cell row.
pub struct CanvasView {
    pub rows: nat,
    pub cols: nat,
    pub row_off: nat,
    pub col_off: nat,
    pub front: Seq<Option<Color>>,
    pub back: Seq<Option<Color>>,
}

/// A buffer with `n` empty pixels.
pub open spec fn empty_pixels(n: nat) -> Seq<Option<Color>> {
    Seq::new(n, |i: int| None)
}

impl CanvasView {
    /// The buffers have one pixel for each of the `cols` by `2 * rows`
    /// positions, and that number fits in a `usize`.
    pub open spec fn wf(self) -> bool {
        &&& 2 * self.rows <= usize::MAX
        &&& 2 * self.rows * self.cols <= usize::MAX
        &&& self.front.len() == 2 * self.rows * self.cols
        &&& self.back.len() == 2 * self.rows * self.cols
    }

    /// The positions that a render writes to are all addressable: the row and
    /// column numbers, counted from one, fit in a `usize`.
    pub open spec fn positions_fit(self) -> bool {
        self.rows > 0 ==> {
            &&& self.row_off + self.rows <= usize::MAX
            &&& self.col_off + self.cols <= usize::MAX
            &&& self.col_off < usize::MAX
        }
    }

    /// The upper pixel of cell (`r`, `c`) in `buf`.
    pub open spec fn top(self, buf: Seq<Option<Color>>, r: int, c: int) -> Option<Color> {
        buf[(2 * r) * self.cols + c]
    }

    /// The lower pixel of cell (`r`, `c`) in `buf`.
    pub open spec fn bottom(self, buf: Seq<Option<Color>>, r: int, c: int) -> Option<Color> {
        buf[(2 * r + 1) * self.cols + c]
    }

    /// Whether cell (`r`, `c`) differs between the back and the front buffer.
    pub open spec fn changed(self, r: int, c: int) -> bool {
        !(self.top(self.front, r, c) == self.top(self.back, r, c) && self.bottom(self.front, r, c)
            == self.bottom(self.back, r, c))
    }

    /// The state after a render: the back buffer becomes the front buffer and
    /// the new back buffer is empty.
    pub open spec fn rendered(self) -> CanvasView {
        CanvasView { front: self.back, back: empty_pixels(self.back.len()), ..self }
    }
}

/// The commands rendered for a cell at terminal position (`row`, `col`) whose
/// pixels were `front_top`/`front_bottom` in the last frame and are
/// `top`/`bottom` now, from pen state `p`; and the pen state after them.  An
/// unchanged cell is skipped; a changed one is preceded by a cursor movement
/// if the cell before it was skipped, and printed as the upper half block in
/// the upper pixel's colour on the lower pixel's colour.
pub open spec fn canvas_cell_step(
    front_top: Option<Color>,
    front_bottom: Option<Color>,
    top: Option<Color>,
    bottom: Option<Color>,
    row: nat,
    col: nat,
    p: Pen<Color>,
) -> (Seq<Cmd<Color>>, Pen<Color>) {
    if front_top == top && front_bottom == bottom {
        (Seq::empty(), Pen { skipping: true, ..p })
    } else {
        let mv = if p.skipping {
            seq![Cmd::MoveTo(row, col)]
        } else {
            Seq::empty()
        };
        (
            mv + fg_cmds(p.fg, top) + bg_cmds(p.bg, bottom) + seq![Cmd::Glyph(UPPER_HALF_CELL)],
            Pen { fg: top, bg: bottom, skipping: false },
        )
    }
}

/// The commands rendered for cell (`r`, `c`) of the canvas from pen state `p`.
pub open spec fn canvas_cell_cmds(v: CanvasView, r: nat, c: nat, p: Pen<Color>) -> (
    Seq<Cmd<Color>>,
    Pen<Color>,
) {
    canvas_cell_step(
        v.top(v.front, r as int, c as int),
        v.bottom(v.front, r as int, c as int),
        v.top(v.back, r as int, c as int),
        v.bottom(v.back, r as int, c as int),
        v.row_off + r,
        v.col_off + c,
        p,
    )
}

/// The commands rendered for the first `n` cells of row `r`, from pen state `p`.
pub open spec fn canvas_row_cmds(v: CanvasView, r: nat, n: nat, p: Pen<Color>) -> (
    Seq<Cmd<Color>>,
    Pen<Color>,
)
    decreases n,
{
    if n == 0 {
        (Seq::empty(), p)
    } else {
        let prev = canvas_row_cmds(v, r, (n - 1) as nat, p);
        let cell = canvas_cell_cmds(v, r, (n - 1) as nat, prev.1);
        (prev.0 + cell.0, cell.1)
    }
}

/// The commands rendered for the first `m` rows.  The pen starts with no
/// colour; each row starts with a cursor movement to its first cell.
pub open spec fn canvas_frame_cmds(v: CanvasView, m: nat) -> (Seq<Cmd<Color>>, Pen<Color>)
    decreases m,
{
    if m == 0 {
        (Seq::empty(), Pen { fg: None, bg: None, skipping: true })
    } else {
        let prev = canvas_frame_cmds(v, (m - 1) as nat);
        let row = canvas_row_cmds(
            v,
            (m - 1) as nat,
            v.cols,
            Pen { fg: prev.1.fg, bg: prev.1.bg, skipping: true },
        );
        (prev.0 + seq![Cmd::MoveTo((v.row_off + m - 1) as nat, v.col_off)] + row.0, row.1)
    }
}

/// The commands of a whole frame.
pub open spec fn canvas_render_cmds(v: CanvasView) -> Seq<Cmd<Color>> {
    canvas_frame_cmds(v, v.rows).0
}

/// The text of one command.
pub open spec fn canvas_encode_cmd(cmd: Cmd<Color>) -> Seq<char> {
    match cmd {
        Cmd::MoveTo(r, c) => move_to_escape(r, c),
        Cmd::Fg(x) => rgb_fg_escape(x),
        Cmd::FgReset => fg_reset_escape(),
        Cmd::Bg(x) => rgb_bg_escape(x),
        Cmd::BgReset => bg_reset_escape(),
        Cmd::Glyph(ch) => seq![ch],
    }
}

/// The encoding of commands used by this canvas.
pub open spec fn canvas_enc() -> spec_fn(Cmd<Color>) -> Seq<char> {
    |cmd: Cmd<Color>| canvas_encode_cmd(cmd)
}

/// The text of a whole frame.
pub open spec fn canvas_render_text(v: CanvasView) -> Seq<char> {
    encode_all(canvas_render_cmds(v), canvas_enc())
}

/// renders to strings using the half block character
/// - allows setting color values
/// - renders to a string that the caller can write to their screen
pub struct HalfCellCanvas {
    /// (rows, columns) in *cells*
    dimensions: (usize, usize),
    /// (row_offset, col_offset) in *cells*
    offset: (usize, usize),
    front: Vec<Option<Color>>,
    back: Vec<Option<Color>>,
}

impl View for HalfCellCanvas {
    type V = CanvasView;

    closed spec fn view(&self) -> CanvasView {
        CanvasView {
            rows: self.dimensions.0 as nat,
            cols: self.dimensions.1 as nat,
            row_off: self.offset.0 as nat,
            col_off: self.offset.1 as nat,
            front: self.front@,
            back: self.back@,
        }
    }
}

proof fn lemma_canvas_cell_index(rows: nat, cols: nat, r: nat, c: nat)
    requires
        r < rows,
        c < cols,
    ensures
        2 * r <= (2 * r) * cols,
        (2 * r) * cols + c < (2 * r + 1) * cols + c,
        (2 * r + 1) * cols + c < 2 * rows * cols,
{
    assert(2 * r <= (2 * r) * cols) by (nonlinear_arith)
        requires
            c < cols,
    ;
    assert((2 * r) * cols + c < (2 * r + 1) * cols + c) by (nonlinear_arith)
        requires
            c < cols,
    ;
    assert((2 * r + 1) * cols + c < 2 * rows * cols) by (nonlinear_arith)
        requires
            r < rows,
            c < cols,
    ;
}

fn empty_buffer(n: usize) -> (v: Vec<Option<Color>>)
    ensures
        v@ == empty_pixels(n as nat),
{
    let mut v: Vec<Option<Color>> = Vec::new();
    for i in 0..n
        invariant
            v@ == empty_pixels(i as nat),
    {
        v.push(None);
        assert(v@ =~= empty_pixels((i + 1) as nat));
    }
    v
}

fn clear_pixels(v: &mut Vec<Option<Color>>)
    ensures
        final(v)@ == empty_pixels(old(v)@.len()),
{
    let n = v.len();
    for i in 0..n
        invariant
            v@.len() == n,
            forall|j: int| 0 <= j < i ==> v@[j] is None,
    {
        v.set(i, None);
    }
    assert(v@ =~= empty_pixels(n as nat));
}

fn same_rgb(a: Option<Color>, b: Option<Color>) -> (r: bool)
    ensures
        r == (a == b),
{
    match (a, b) {
        (Some(x), Some(y)) => x == y,
        (None, None) => true,
        _ => false,
    }
}

/// Brings the terminal's foreground from `*current` to `want`.
fn sync_rgb_fg(out: &mut String, current: &mut Option<Color>, want: Option<Color>)
    ensures
        *final(current) == want,
        final(out)@ == old(out)@ + encode_all(fg_cmds(*old(current), want), canvas_enc()),
{
    let ghost cmds = fg_cmds(*current, want);
    if let Some(top_color) = want {
        if !same_rgb(*current, Some(top_color)) {
            write_fg_color(out, top_color);
            *current = Some(top_color);
            proof {
                lemma_encode_push(Seq::empty(), Cmd::Fg(top_color), canvas_enc());
                assert(seq![Cmd::Fg(top_color)] =~= Seq::<Cmd<Color>>::empty().push(
                    Cmd::Fg(top_color),
                ));
            }
        }
    } else if current.is_some() {
        write_fg_reset(out);
        *current = None;
        proof {
            lemma_encode_push(Seq::empty(), Cmd::FgReset, canvas_enc());
            assert(seq![Cmd::FgReset] =~= Seq::<Cmd<Color>>::empty().push(Cmd::FgReset));
        }
    }
    assert(out@ =~= old(out)@ + encode_all(cmds, canvas_enc()));
}

/// Brings the terminal's background from `*current` to `want`.
fn sync_rgb_bg(out: &mut String, current: &mut Option<Color>, want: Option<Color>)
    ensures
        *final(current) == want,
        final(out)@ == old(out)@ + encode_all(bg_cmds(*old(current), want), canvas_enc()),
{
    let ghost cmds = bg_cmds(*current, want);
    if let Some(bottom_color) = want {
        if !same_rgb(*current, Some(bottom_color)) {
            write_bg_color(out, bottom_color);
            *current = Some(bottom_color);
            proof {
                lemma_encode_push(Seq::empty(), Cmd::Bg(bottom_color), canvas_enc());
                assert(seq![Cmd::Bg(bottom_color)] =~= Seq::<Cmd<Color>>::empty().push(
                    Cmd::Bg(bottom_color),
                ));
            }
        }
    } else if current.is_some() {
        write_bg_reset(out);
        *current = None;
        proof {
            lemma_encode_push(Seq::empty(), Cmd::BgReset, canvas_enc());
            assert(seq![Cmd::BgReset] =~= Seq::<Cmd<Color>>::empty().push(Cmd::BgReset));
        }
    }
    assert(out@ =~= old(out)@ + encode_all(cmds, canvas_enc()));
}

/// Renders one cell at terminal position (`row`, `col`): see [`canvas_cell_step`].
fn render_rgb_cell(
    out: &mut String,
    front_top: Option<Color>,
    front_bottom: Option<Color>,
    back_top: Option<Color>,
    back_bottom: Option<Color>,
    row: usize,
    col: usize,
    current_top: &mut Option<Color>,
    current_bottom: &mut Option<Color>,
    skipping: &mut bool,
)
    requires
        row < usize::MAX,
        col < usize::MAX,
    ensures
        ({
            let step = canvas_cell_step(
                front_top,
                front_bottom,
                back_top,
                back_bottom,
                row as nat,
                col as nat,
                Pen { fg: *old(current_top), bg: *old(current_bottom), skipping: *old(skipping) },
            );
            &&& final(out)@ == old(out)@ + encode_all(step.0, canvas_enc())
            &&& *final(current_top) == step.1.fg
            &&& *final(current_bottom) == step.1.bg
            &&& *final(skipping) == step.1.skipping
        }),
{
    let ghost p = Pen { fg: *current_top, bg: *current_bottom, skipping: *skipping };
    // compare to front. if it's the same, skip
    if same_rgb(front_top, back_top) && same_rgb(front_bottom, back_bottom) {
        *skipping = true;
        assert(encode_all(Seq::<Cmd<Color>>::empty(), canvas_enc()) =~= Seq::empty());
        assert(out@ =~= old(out)@ + encode_all(Seq::<Cmd<Color>>::empty(), canvas_enc()));
        return;
    }
    let ghost mv: Seq<Cmd<Color>> = if p.skipping {
        seq![Cmd::MoveTo(row as nat, col as nat)]
    } else {
        Seq::empty()
    };
    // emit a move-to sequence before writing if cells were skipped
    if *skipping {
        *skipping = false;
        write_move_to(out, row, col);
        proof {
            lemma_encode_push(Seq::empty(), Cmd::MoveTo(row as nat, col as nat), canvas_enc());
            assert(mv =~= Seq::<Cmd<Color>>::empty().push(Cmd::MoveTo(row as nat, col as nat)));
        }
    } else {
        assert(encode_all(mv, canvas_enc()) =~= Seq::empty());
    }
    assert(out@ =~= old(out)@ + encode_all(mv, canvas_enc()));
    let ghost f = fg_cmds(p.fg, back_top);
    let ghost g = bg_cmds(p.bg, back_bottom);
    sync_rgb_fg(out, current_top, back_top);
    sync_rgb_bg(out, current_bottom, back_bottom);
    push_char(out, UPPER_HALF_CELL);
    proof {
        lemma_encode_append(mv, f, canvas_enc());
        lemma_encode_append(mv + f, g, canvas_enc());
        lemma_encode_push(mv + f + g, Cmd::Glyph(UPPER_HALF_CELL), canvas_enc());
        assert(mv + f + g + seq![Cmd::Glyph(UPPER_HALF_CELL)] =~= (mv + f + g).push(
            Cmd::Glyph(UPPER_HALF_CELL),
        ));
    }
    assert(out@ =~= old(out)@ + encode_all(
        mv + f + g + seq![Cmd::Glyph(UPPER_HALF_CELL)],
        canvas_enc(),
    ));
}

impl HalfCellCanvas {
    /// The invariant of the canvas: see [`CanvasView::wf`].
    pub open spec fn inv(&self) -> bool {
        self@.wf()
    }

    /// A canvas of `dimensions.0` rows by `dimensions.1` columns of cells,
    /// placed `offset.0` rows and `offset.1` columns from the terminal's
    /// top-left corner, with both buffers empty.
    pub fn new(dimensions: (usize, usize), offset: (usize, usize)) -> (c: Self)
        requires
            2 * dimensions.0 <= usize::MAX,
            2 * dimensions.0 * dimensions.1 <= usize::MAX,
        ensures
            c.inv(),
            c@.rows == dimensions.0,
            c@.cols == dimensions.1,
            c@.row_off == offset.0,
            c@.col_off == offset.1,
            c@.front == empty_pixels((2 * dimensions.0 * dimensions.1) as nat),
            c@.back == empty_pixels((2 * dimensions.0 * dimensions.1) as nat),
    {
        let (rows, cols) = dimensions;
        let n = 2 * rows * cols;
        let front = empty_buffer(n);
        let back = empty_buffer(n);
        HalfCellCanvas { dimensions, offset, front, back }
    }

    /// The width of the canvas in pixels: one per cell column.
    pub fn width(&self) -> (w: usize)
        ensures
            w == self@.cols,
    {
        self.dimensions.1
    }

    /// The height of the canvas in pixels: two per cell row.
    pub fn height(&self) -> (h: usize)
        requires
            self.inv(),
        ensures
            h == 2 * self@.rows,
    {
        2 * self.dimensions.0
    }

    /// The front buffer (the frame last rendered) and the back buffer (the
    /// frame being drawn).
    fn buffers(&self) -> (bufs: (&Vec<Option<Color>>, &Vec<Option<Color>>))
        ensures
            bufs.0@ == self@.front,
            bufs.1@ == self@.back,
    {
        (&self.front, &self.back)
    }

    fn swap_buffers(&mut self)
        ensures
            final(self)@ == (CanvasView { front: old(self)@.back, back: old(self)@.front, ..old(self)@ }),
    {
        std::mem::swap(&mut self.front, &mut self.back);
    }

    fn clear_back_buffer(&mut self)
        ensures
            final(self)@ == (CanvasView { back: empty_pixels(old(self)@.back.len()), ..old(self)@ }),
    {
        clear_pixels(&mut self.back);
    }

    /// Sets the pixel at `x`, `y` of the back buffer to `color`.  `x` and `y`
    /// are in canvas space, not terminal space: `x` is the distance from the
    /// left edge, `y` the distance from the top.  The pixel is the one at
    /// index `y * width + x` of the buffer, which must exist.
    pub fn set_color(&mut self, x: usize, y: usize, color: Color)
        requires
            old(self).inv(),
            y * old(self)@.cols + x < 2 * old(self)@.rows * old(self)@.cols,
        ensures
            final(self).inv(),
            final(self)@ == (CanvasView {
                back: old(self)@.back.update(y * old(self)@.cols + x, Some(color)),
                ..old(self)@
            }),
    {
        proof {
            assert(y * self@.cols <= y * self@.cols + x);
        }
        let idx = y * self.width() + x;
        self.back.set(idx, Some(color));
    }

    /// Resets the internal buffers, guaranteeing a full redraw on the next
    /// render.
    pub fn reset(&mut self)
        requires
            old(self).inv(),
        ensures
            final(self).inv(),
            final(self)@ == (CanvasView {
                front: empty_pixels(old(self)@.front.len()),
                back: empty_pixels(old(self)@.back.len()),
                ..old(self)@
            }),
    {
        self.clear_back_buffer();
        self.swap_buffers();
        self.clear_back_buffer();
    }

    /// Renders the changed cells into a new string (see
    /// [`canvas_render_text`]), then makes the back buffer the front buffer
    /// and clears the new back buffer.
    pub fn render(&mut self) -> (out: String)
        requires
            old(self).inv(),
            old(self)@.positions_fit(),
        ensures
            final(self).inv(),
            final(self)@ == old(self)@.rendered(),
            out@ == canvas_render_text(old(self)@),
    {
        let ghost v = self@;
        let mut out = String::new();

        let (row_offset, col_offset) = self.offset;
        let width = self.width();

        let mut current_top: Option<Color> = None;
        let mut current_bottom: Option<Color> = None;

        let (rows, cols) = self.dimensions;

        let (front, back) = self.buffers();
        let ghost mut cmds: Seq<Cmd<Color>> = Seq::empty();

        for row in 0..rows
            invariant
                v.wf(),
                v.positions_fit(),
                rows == v.rows,
                cols == v.cols,
                width == v.cols,
                row_offset == v.row_off,
                col_offset == v.col_off,
                front@ == v.front,
                back@ == v.back,
                cmds == canvas_frame_cmds(v, row as nat).0,
                current_top == canvas_frame_cmds(v, row as nat).1.fg,
                current_bottom == canvas_frame_cmds(v, row as nat).1.bg,
                out@ == encode_all(cmds, canvas_enc()),
        {
            write_move_to(&mut out, row_offset + row, col_offset);
            proof {
                let m = Cmd::MoveTo((v.row_off + row) as nat, v.col_off);
                lemma_encode_push(cmds, m, canvas_enc());
                cmds = cmds.push(m);
            }
            let ghost row_start = cmds;
            let ghost pen0 = Pen { fg: current_top, bg: current_bottom, skipping: true };
            let mut skipping = true;
            assert(row_start + canvas_row_cmds(v, row as nat, 0, pen0).0 =~= row_start);

            for col in 0..cols
                invariant
                    v.wf(),
                    v.positions_fit(),
                    row < rows,
                    rows == v.rows,
                    cols == v.cols,
                    width == v.cols,
                    row_offset == v.row_off,
                    col_offset == v.col_off,
                    front@ == v.front,
                    back@ == v.back,
                    cmds == row_start + canvas_row_cmds(v, row as nat, col as nat, pen0).0,
                    current_top == canvas_row_cmds(v, row as nat, col as nat, pen0).1.fg,
                    current_bottom == canvas_row_cmds(v, row as nat, col as nat, pen0).1.bg,
                    skipping == canvas_row_cmds(v, row as nat, col as nat, pen0).1.skipping,
                    out@ == encode_all(cmds, canvas_enc()),
            {
                proof {
                    lemma_canvas_cell_index(rows as nat, cols as nat, row as nat, col as nat);
                }
                let top_idx = (2 * row) * width + col;
                let bottom_idx = (2 * row + 1) * width + col;
                let back_top = back[top_idx];
                let back_bottom = back[bottom_idx];
                let front_top = front[top_idx];
                let front_bottom = front[bottom_idx];
                let ghost p = canvas_row_cmds(v, row as nat, col as nat, pen0).1;
                let ghost cell = canvas_cell_cmds(v, row as nat, col as nat, p);
                render_rgb_cell(
                    &mut out,
                    front_top,
                    front_bottom,
                    back_top,
                    back_bottom,
                    row_offset + row,
                    col_offset + col,
                    &mut current_top,
                    &mut current_bottom,
                    &mut skipping,
                );
                proof {
                    lemma_encode_append(cmds, cell.0, canvas_enc());
                    cmds = cmds + cell.0;
                }
                assert(cmds =~= row_start + canvas_row_cmds(v, row as nat, (col + 1) as nat, pen0).0);
            }
            assert(cmds =~= canvas_frame_cmds(v, (row + 1) as nat).0);
        }

        self.swap_buffers();
        self.clear_back_buffer();

        out
    }
}

/// What a frame shows in cell (`r`, `c`): the upper half block, in the upper
/// pixel's colour on the lower pixel's colour.
pub open spec fn canvas_expected_cell(v: CanvasView, r: int, c: int) -> Cell<Color> {
    Cell {
        glyph: UPPER_HALF_CELL,
        fg: v.top(v.back, r, c),
        bg: v.bottom(v.back, r, c),
    }
}

/// The terminal cells that a frame paints in row `r` among its first `n` cells.
pub open spec fn canvas_row_painted(v: CanvasView, r: int, n: int) -> Map<(int, int), Cell<Color>> {
    Map::new(
        |pos: (int, int)|
            pos.0 == v.row_off + r && 0 <= pos.1 - v.col_off < n && v.changed(r, pos.1 - v.col_off),
        |pos: (int, int)| canvas_expected_cell(v, r, pos.1 - v.col_off),
    )
}

/// The terminal cells that a frame paints in its first `m` rows.
pub open spec fn canvas_rows_painted(v: CanvasView, m: int) -> Map<(int, int), Cell<Color>> {
    Map::new(
        |pos: (int, int)|
            0 <= pos.0 - v.row_off < m && 0 <= pos.1 - v.col_off < v.cols && v.changed(
                pos.0 - v.row_off,
                pos.1 - v.col_off,
            ),
        |pos: (int, int)| canvas_expected_cell(v, pos.0 - v.row_off, pos.1 - v.col_off),
    )
}

/// The terminal cells that a frame paints: every changed cell of the canvas,
/// at its terminal position, with its expected content.
pub open spec fn canvas_painted(v: CanvasView) -> Map<(int, int), Cell<Color>> {
    canvas_rows_painted(v, v.rows as int)
}

proof fn lemma_canvas_cell(v: CanvasView, r: nat, c: nat, p: Pen<Color>, t: Term<Color>)
    requires
        t.fg == p.fg,
        t.bg == p.bg,
        !p.skipping ==> t.row == v.row_off + r && t.col == v.col_off + c,
    ensures
        ({
            let step = canvas_cell_cmds(v, r, c, p);
            let t2 = run(t, step.0);
            &&& t2.fg == step.1.fg
            &&& t2.bg == step.1.bg
            &&& !step.1.skipping ==> t2.row == v.row_off + r && t2.col == v.col_off + c + 1
            &&& v.changed(r as int, c as int) ==> t2.screen == t.screen.insert(
                ((v.row_off + r) as int, (v.col_off + c) as int),
                canvas_expected_cell(v, r as int, c as int),
            )
            &&& !v.changed(r as int, c as int) ==> t2.screen == t.screen
        }),
{
    if v.changed(r as int, c as int) {
        let top = v.top(v.back, r as int, c as int);
        let bottom = v.bottom(v.back, r as int, c as int);
        let mv: Seq<Cmd<Color>> = if p.skipping {
            seq![Cmd::MoveTo(v.row_off + r, v.col_off + c)]
        } else {
            Seq::empty()
        };
        let f = fg_cmds(p.fg, top);
        let g = bg_cmds(p.bg, bottom);
        let gl = seq![Cmd::Glyph(UPPER_HALF_CELL)];
        lemma_run_append(t, mv + f + g, gl);
        lemma_run_append(t, mv + f, g);
        lemma_run_append(t, mv, f);
        if p.skipping {
            lemma_run_one(t, Cmd::MoveTo(v.row_off + r, v.col_off + c));
        }
        let t1 = run(t, mv);
        assert(t1.row == v.row_off + r && t1.col == v.col_off + c);
        lemma_run_fg(t1, top);
        let t2 = run(t1, f);
        lemma_run_bg(t2, bottom);
        let t3 = run(t2, g);
        lemma_run_one(t3, Cmd::Glyph(UPPER_HALF_CELL));
    }
}

proof fn lemma_canvas_row(v: CanvasView, r: nat, n: nat, p0: Pen<Color>, t: Term<Color>)
    requires
        p0.skipping,
        t.fg == p0.fg,
        t.bg == p0.bg,
    ensures
        ({
            let rc = canvas_row_cmds(v, r, n, p0);
            let t2 = run(t, rc.0);
            &&& t2.fg == rc.1.fg
            &&& t2.bg == rc.1.bg
            &&& !rc.1.skipping ==> t2.row == v.row_off + r && t2.col == v.col_off + n
            &&& t2.screen == t.screen.union_prefer_right(canvas_row_painted(v, r as int, n as int))
        }),
    decreases n,
{
    if n == 0 {
        assert(t.screen.union_prefer_right(canvas_row_painted(v, r as int, 0)) =~= t.screen);
    } else {
        let prev = canvas_row_cmds(v, r, (n - 1) as nat, p0);
        lemma_canvas_row(v, r, (n - 1) as nat, p0, t);
        let t1 = run(t, prev.0);
        let cell = canvas_cell_cmds(v, r, (n - 1) as nat, prev.1);
        lemma_run_append(t, prev.0, cell.0);
        lemma_canvas_cell(v, r, (n - 1) as nat, prev.1, t1);
        let pos = ((v.row_off + r) as int, (v.col_off + n - 1) as int);
        if v.changed(r as int, n - 1) {
            assert(t.screen.union_prefer_right(canvas_row_painted(v, r as int, n as int))
                =~= t.screen.union_prefer_right(canvas_row_painted(v, r as int, n - 1)).insert(
                pos,
                canvas_expected_cell(v, r as int, n - 1),
            ));
        } else {
            assert(t.screen.union_prefer_right(canvas_row_painted(v, r as int, n as int))
                =~= t.screen.union_prefer_right(canvas_row_painted(v, r as int, n - 1)));
        }
    }
}

proof fn lemma_canvas_frame(v: CanvasView, m: nat, t0: Term<Color>)
    requires
        t0.fg is None,
        t0.bg is None,
    ensures
        ({
            let fc = canvas_frame_cmds(v, m);
            let t = run(t0, fc.0);
            &&& t.fg == fc.1.fg
            &&& t.bg == fc.1.bg
            &&& t.screen == t0.screen.union_prefer_right(canvas_rows_painted(v, m as int))
        }),
    decreases m,
{
    if m == 0 {
        assert(t0.screen.union_prefer_right(canvas_rows_painted(v, 0)) =~= t0.screen);
    } else {
        let prev = canvas_frame_cmds(v, (m - 1) as nat);
        lemma_canvas_frame(v, (m - 1) as nat, t0);
        let t1 = run(t0, prev.0);
        let mv = seq![Cmd::MoveTo((v.row_off + m - 1) as nat, v.col_off)];
        let p0 = Pen { fg: prev.1.fg, bg: prev.1.bg, skipping: true };
        let row = canvas_row_cmds(v, (m - 1) as nat, v.cols, p0);
        lemma_run_append(t0, prev.0 + mv, row.0);
        lemma_run_append(t0, prev.0, mv);
        lemma_run_one(t1, Cmd::MoveTo((v.row_off + m - 1) as nat, v.col_off));
        let t2 = run(t0, prev.0 + mv);
        lemma_canvas_row(v, (m - 1) as nat, v.cols, p0, t2);
        assert(t0.screen.union_prefer_right(canvas_rows_painted(v, m - 1)).union_prefer_right(
            canvas_row_painted(v, m - 1, v.cols as int),
        ) =~= t0.screen.union_prefer_right(canvas_rows_painted(v, m as int)));
    }
}

/// What a frame does to a terminal in its default colours: the cells of the
/// canvas that changed since the last frame are printed at their terminal
/// positions, each as the upper half block in the upper pixel's colour on
/// the lower pixel's colour (the terminal's default where a pixel is empty);
/// no other cell of the terminal is written.
pub proof fn lemma_canvas_render_paints_changed_cells(v: CanvasView, t0: Term<Color>)
    requires
        t0.fg is None,
        t0.bg is None,
    ensures
        run(t0, canvas_render_cmds(v)).screen == t0.screen.union_prefer_right(canvas_painted(v)),
{
    lemma_canvas_frame(v, v.rows, t0);
}

/// After [`HalfCellCanvas::reset`] the front buffer is empty, so the next
/// frame draws every cell that has a pixel set; a cell with no pixel set is
/// not written.
pub proof fn lemma_canvas_render_after_reset(v: CanvasView, r: int, c: int)
    requires
        v.wf(),
        v.front == empty_pixels(v.front.len()),
        0 <= r < v.rows,
        0 <= c < v.cols,
    ensures
        v.changed(r, c) <==> (v.top(v.back, r, c) is Some || v.bottom(v.back, r, c) is Some),
{
    lemma_canvas_cell_index(v.rows, v.cols, r as nat, c as nat);
}

/// A frame identical to the last one paints nothing.
pub proof fn lemma_canvas_unchanged_frame_paints_nothing(v: CanvasView)
    requires
        v.front == v.back,
    ensures
        canvas_painted(v) == Map::<(int, int), Cell<Color>>::empty(),
{
    assert(canvas_painted(v) =~= Map::<(int, int), Cell<Color>>::empty());
}

/// What a frame leaves in the terminal cell of canvas cell (`r`, `c`), on a
/// terminal in its default colours, stated on the pixels themselves.  If
/// either pixel (colour included) differs between the last frame and this
/// one, the cell is printed as the upper half block (U+2580) in the upper
/// pixel's colour on the lower pixel's colour (`None` standing for the
/// terminal's default); if both are unchanged the terminal cell keeps
/// whatever it held.
pub proof fn lemma_canvas_render_cell_on_screen(v: CanvasView, t0: Term<Color>, r: int, c: int)
    requires
        t0.fg is None,
        t0.bg is None,
        0 <= r < v.rows,
        0 <= c < v.cols,
    ensures
        ({
            let pos = (v.row_off + r, v.col_off + c);
            let ft = v.front[(2 * r) * v.cols + c];
            let fb = v.front[(2 * r + 1) * v.cols + c];
            let bt = v.back[(2 * r) * v.cols + c];
            let bb = v.back[(2 * r + 1) * v.cols + c];
            let screen = run(t0, canvas_render_cmds(v)).screen;
            &&& (ft != bt || fb != bb) ==> screen.contains_key(pos)
            &&& (ft != bt || fb != bb) ==> screen[pos] == (Cell {
                glyph: '\u{2580}',
                fg: bt,
                bg: bb,
            })
            &&& (ft == bt && fb == bb) ==> screen.contains_key(pos) == t0.screen.contains_key(pos)
            &&& (ft == bt && fb == bb) && t0.screen.contains_key(pos) ==> screen[pos]
                == t0.screen[pos]
        }),
{
    lemma_canvas_render_paints_changed_cells(v, t0);
    let pos = (v.row_off + r, v.col_off + c);
    assert(pos.0 - v.row_off == r && pos.1 - v.col_off == c);
}

} // verus!
