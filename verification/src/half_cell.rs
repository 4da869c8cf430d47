//! A canvas that draws two pixels per terminal cell with the half-block
//! characters, keeps a front and a back buffer, and renders only the cells
//! whose pixels changed since the last frame.
use vstd::prelude::*;

pub use crate::color::Color;
use crate::color::{bg_escape, fg_escape, same_color};
use crate::term::{
    apply, bg_cmds, encode_all, fg_cmds, lemma_encode_append, lemma_encode_push, lemma_run_append,
    lemma_run_bg, lemma_run_fg, lemma_run_one, run, Cell, Cmd, Pen, Term,
};
use crate::text::{bg_reset_escape, fg_reset_escape, move_to_escape, push_char};
use crate::utils::{write_bg_color, write_bg_reset, write_fg_color, write_fg_reset, write_move_to};

verus! {

/// The character whose upper half is drawn in the foreground colour.
pub const UPPER_HALF: char = '\u{2580}';

/// The character whose lower half is drawn in the foreground colour.
pub const LOWER_HALF: char = '\u{2584}';

/// The abstract state of a [`HalfCellCanvas`]: its size and position in
/// cells, and the pixels of the front buffer (the frame last rendered) and of
/// the back buffer (the frame being drawn).  Pixels are stored row by row,
/// `cols` to a row, two pixel rows to a cell row.
pub struct HalfCellView {
    pub cols: nat,
    pub rows: nat,
    pub col_off: nat,
    pub row_off: nat,
    pub front: Seq<Option<Color>>,
    pub back: Seq<Option<Color>>,
}

/// A buffer with `n` empty pixels.
pub open spec fn blank(n: nat) -> Seq<Option<Color>> {
    Seq::new(n, |i: int| None)
}

/// The colour with which a cell's character is printed: the upper pixel's
/// colour, or the lower one's where the upper pixel is empty.
pub open spec fn desired_fg(top: Option<Color>, bottom: Option<Color>) -> Option<Color> {
    if top is Some { top } else { bottom }
}

/// The background with which a cell's character is printed: the lower pixel's
/// colour where the upper pixel is set, the terminal's own background otherwise.
pub open spec fn desired_bg(top: Option<Color>, bottom: Option<Color>) -> Option<Color> {
    if top is Some { bottom } else { None }
}

/// The character printed for a cell: the upper half block where the upper
/// pixel is set, the lower half block where only the lower one is, a space
/// where neither is.
pub open spec fn glyph_for(top: Option<Color>, bottom: Option<Color>) -> char {
    if top is Some { UPPER_HALF } else if bottom is Some { LOWER_HALF } else { ' ' }
}

impl HalfCellView {
    /// The buffers have one pixel for each of the `cols` by `2 * rows`
    /// positions, and that number fits in a `usize`.
    pub open spec fn wf(self) -> bool {
        &&& 2 * self.rows <= usize::MAX
        &&& 2 * self.rows * self.cols <= usize::MAX
        &&& self.front.len() == 2 * self.rows * self.cols
        &&& self.back.len() == 2 * self.rows * self.cols
    }

    /// The positions that a render writes to are all addressable: the row and
    /// column numbers, counted from one, fit in a `usize`.
    pub open spec fn positions_fit(self) -> bool {
        self.rows > 0 ==> {
            &&& self.row_off + self.rows <= usize::MAX
            &&& self.col_off + self.cols <= usize::MAX
            &&& self.col_off < usize::MAX
        }
    }

    /// The upper pixel of cell (`r`, `c`) in `buf`.
    pub open spec fn top(self, buf: Seq<Option<Color>>, r: int, c: int) -> Option<Color> {
        buf[(2 * r) * self.cols + c]
    }

    /// The lower pixel of cell (`r`, `c`) in `buf`.
    pub open spec fn bottom(self, buf: Seq<Option<Color>>, r: int, c: int) -> Option<Color> {
        buf[(2 * r + 1) * self.cols + c]
    }

    /// Whether cell (`r`, `c`) differs between the back and the front buffer.
    pub open spec fn changed(self, r: int, c: int) -> bool {
        !(self.top(self.front, r, c) == self.top(self.back, r, c) && self.bottom(self.front, r, c)
            == self.bottom(self.back, r, c))
    }

    /// The state after a render: the back buffer becomes the front buffer and
    /// the new back buffer is empty.
    pub open spec fn rendered(self) -> HalfCellView {
        HalfCellView { front: self.back, back: blank(self.back.len()), ..self }
    }
}

/// The commands rendered for a cell at terminal position (`row`, `col`) whose
/// pixels were `front_top`/`front_bottom` in the last frame and are
/// `top`/`bottom` now, from pen state `p`; and the pen state after them.  An
/// unchanged cell is skipped; a changed one is preceded by a cursor movement
/// if the cell before it was skipped.
pub open spec fn cell_step(
    front_top: Option<Color>,
    front_bottom: Option<Color>,
    top: Option<Color>,
    bottom: Option<Color>,
    row: nat,
    col: nat,
    p: Pen<Color>,
) -> (Seq<Cmd<Color>>, Pen<Color>) {
    if front_top == top && front_bottom == bottom {
        (Seq::empty(), Pen { skipping: true, ..p })
    } else {
        let mv = if p.skipping {
            seq![Cmd::MoveTo(row, col)]
        } else {
            Seq::empty()
        };
        (
            mv + fg_cmds(p.fg, desired_fg(top, bottom)) + bg_cmds(p.bg, desired_bg(top, bottom))
                + seq![Cmd::Glyph(glyph_for(top, bottom))],
            Pen { fg: desired_fg(top, bottom), bg: desired_bg(top, bottom), skipping: false },
        )
    }
}

/// The commands rendered for cell (`r`, `c`) of the canvas from pen state `p`,
/// and the pen state after them.
pub open spec fn cell_cmds(v: HalfCellView, r: nat, c: nat, p: Pen<Color>) -> (Seq<Cmd<Color>>, Pen<Color>) {
    cell_step(
        v.top(v.front, r as int, c as int),
        v.bottom(v.front, r as int, c as int),
        v.top(v.back, r as int, c as int),
        v.bottom(v.back, r as int, c as int),
        v.row_off + r,
        v.col_off + c,
        p,
    )
}

/// The commands rendered for the first `n` cells of row `r`, starting from
/// pen state `p`, and the pen state after them.
pub open spec fn row_cmds(v: HalfCellView, r: nat, n: nat, p: Pen<Color>) -> (Seq<Cmd<Color>>, Pen<Color>)
    decreases n,
{
    if n == 0 {
        (Seq::empty(), p)
    } else {
        let prev = row_cmds(v, r, (n - 1) as nat, p);
        let cell = cell_cmds(v, r, (n - 1) as nat, prev.1);
        (prev.0 + cell.0, cell.1)
    }
}

/// The commands rendered for the first `m` rows, and the pen state after
/// them.  A frame starts by restoring the terminal's default colours; each
/// row starts with a cursor movement to its first cell.
pub open spec fn frame_cmds(v: HalfCellView, m: nat) -> (Seq<Cmd<Color>>, Pen<Color>)
    decreases m,
{
    if m == 0 {
        (seq![Cmd::FgReset, Cmd::BgReset], Pen { fg: None, bg: None, skipping: true })
    } else {
        let prev = frame_cmds(v, (m - 1) as nat);
        let row = row_cmds(
            v,
            (m - 1) as nat,
            v.cols,
            Pen { fg: prev.1.fg, bg: prev.1.bg, skipping: true },
        );
        (prev.0 + seq![Cmd::MoveTo((v.row_off + m - 1) as nat, v.col_off)] + row.0, row.1)
    }
}

/// The commands of a whole frame.
pub open spec fn render_cmds(v: HalfCellView) -> Seq<Cmd<Color>> {
    frame_cmds(v, v.rows).0
}

/// The text of one command.
pub open spec fn encode_cmd(cmd: Cmd<Color>) -> Seq<char> {
    match cmd {
        Cmd::MoveTo(r, c) => move_to_escape(r, c),
        Cmd::Fg(x) => fg_escape(x),
        Cmd::FgReset => fg_reset_escape(),
        Cmd::Bg(x) => bg_escape(x),
        Cmd::BgReset => bg_reset_escape(),
        Cmd::Glyph(ch) => seq![ch],
    }
}

/// The encoding of commands used by this canvas.
pub open spec fn enc() -> spec_fn(Cmd<Color>) -> Seq<char> {
    |cmd: Cmd<Color>| encode_cmd(cmd)
}

/// The text of a whole frame.
pub open spec fn render_text(v: HalfCellView) -> Seq<char> {
    encode_all(render_cmds(v), enc())
}

/// renders to strings using the half block character
/// - allows setting color values
/// - renders to a string that the caller can write to their screen
pub struct HalfCellCanvas {
    /// (cols, rows) in *cells*
    dimensions: (usize, usize),
    /// (col_offset, row_offset) in *cells*
    offset: (usize, usize),
    front: Vec<Option<Color>>,
    back: Vec<Option<Color>>,
}

impl View for HalfCellCanvas {
    type V = HalfCellView;

    closed spec fn view(&self) -> HalfCellView {
        HalfCellView {
            cols: self.dimensions.0 as nat,
            rows: self.dimensions.1 as nat,
            col_off: self.offset.0 as nat,
            row_off: self.offset.1 as nat,
            front: self.front@,
            back: self.back@,
        }
    }
}

proof fn lemma_cell_index(rows: nat, cols: nat, r: nat, c: nat)
    requires
        r < rows,
        c < cols,
    ensures
        2 * r <= (2 * r) * cols,
        (2 * r) * cols + c < (2 * r + 1) * cols + c,
        (2 * r + 1) * cols + c < 2 * rows * cols,
{
    assert(2 * r <= (2 * r) * cols) by (nonlinear_arith)
        requires
            c < cols,
    ;
    assert((2 * r) * cols + c < (2 * r + 1) * cols + c) by (nonlinear_arith)
        requires
            c < cols,
    ;
    assert((2 * r + 1) * cols + c < 2 * rows * cols) by (nonlinear_arith)
        requires
            r < rows,
            c < cols,
    ;
}

proof fn lemma_pixel_index(height: nat, width: nat, x: nat, y: nat)
    requires
        x < width,
        y < height,
    ensures
        y * width <= y * width + x,
        y * width + x < height * width,
{
    assert(y * width + x < height * width) by (nonlinear_arith)
        requires
            x < width,
            y < height,
    ;
}

/// A buffer of `n` empty pixels.
fn blank_buffer(n: usize) -> (v: Vec<Option<Color>>)
    ensures
        v@ == blank(n as nat),
{
    let mut v: Vec<Option<Color>> = Vec::new();
    for i in 0..n
        invariant
            v@ == blank(i as nat),
    {
        v.push(None);
        assert(v@ =~= blank((i + 1) as nat));
    }
    v
}

/// Empties every pixel of `v`.
fn clear_buffer(v: &mut Vec<Option<Color>>)
    ensures
        final(v)@ == blank(old(v)@.len()),
{
    let n = v.len();
    for i in 0..n
        invariant
            v@.len() == n,
            forall|j: int| 0 <= j < i ==> v@[j] is None,
    {
        v.set(i, None);
    }
    assert(v@ =~= blank(n as nat));
}

impl HalfCellCanvas {
    /// The invariant of the canvas: see [`HalfCellView::wf`].
    pub open spec fn inv(&self) -> bool {
        self@.wf()
    }

    /// A canvas of `dimensions.0` columns by `dimensions.1` rows of cells,
    /// placed `offset.0` columns and `offset.1` rows from the terminal's
    /// top-left corner, with both buffers empty.
    pub fn new(dimensions: (usize, usize), offset: (usize, usize)) -> (c: Self)
        requires
            2 * dimensions.1 <= usize::MAX,
            2 * dimensions.1 * dimensions.0 <= usize::MAX,
        ensures
            c.inv(),
            c@.cols == dimensions.0,
            c@.rows == dimensions.1,
            c@.col_off == offset.0,
            c@.row_off == offset.1,
            c@.front == blank((2 * dimensions.1 * dimensions.0) as nat),
            c@.back == blank((2 * dimensions.1 * dimensions.0) as nat),
    {
        let (cols, rows) = dimensions;
        let n = 2 * rows * cols;
        let front = blank_buffer(n);
        let back = blank_buffer(n);
        HalfCellCanvas { dimensions, offset, front, back }
    }

    /// The width of the canvas in pixels: one per cell column.
    pub fn width(&self) -> (w: usize)
        ensures
            w == self@.cols,
    {
        self.dimensions.0
    }

    /// The height of the canvas in pixels: two per cell row.
    pub fn height(&self) -> (h: usize)
        requires
            self.inv(),
        ensures
            h == 2 * self@.rows,
    {
        2 * self.dimensions.1
    }

    /// The front buffer (the frame last rendered) and the back buffer (the
    /// frame being drawn).
    pub fn buffers(&self) -> (bufs: (&Vec<Option<Color>>, &Vec<Option<Color>>))
        ensures
            bufs.0@ == self@.front,
            bufs.1@ == self@.back,
    {
        (&self.front, &self.back)
    }

    fn swap_buffers(&mut self)
        ensures
            final(self)@ == (HalfCellView { front: old(self)@.back, back: old(self)@.front, ..old(self)@ }),
    {
        std::mem::swap(&mut self.front, &mut self.back);
    }

    fn clear_back_buffer(&mut self)
        ensures
            final(self)@ == (HalfCellView { back: blank(old(self)@.back.len()), ..old(self)@ }),
    {
        clear_buffer(&mut self.back);
    }

    /// Sets the pixel at `x`, `y` of the back buffer to `color`.  `x` and `y`
    /// are in canvas space, not terminal space: `x` is the distance from the
    /// left edge, `y` the distance from the top.  Out-of-bounds input is
    /// ignored.
    pub fn set_color(&mut self, x: usize, y: usize, color: Color)
        requires
            old(self).inv(),
        ensures
            final(self).inv(),
            x < old(self)@.cols && y < 2 * old(self)@.rows ==> final(self)@ == (HalfCellView {
                back: old(self)@.back.update(y * old(self)@.cols + x, Some(color)),
                ..old(self)@
            }),
            !(x < old(self)@.cols && y < 2 * old(self)@.rows) ==> final(self)@ == old(self)@,
    {
        let height = self.height();
        if x >= self.width() || y >= height {
            return;
        }
        proof {
            lemma_pixel_index(2 * self@.rows, self@.cols, x as nat, y as nat);
        }
        let idx = y * self.width() + x;
        self.back.set(idx, Some(color));
    }

    /// Resets the internal buffers, guaranteeing a full redraw on the next
    /// render.
    pub fn reset(&mut self)
        requires
            old(self).inv(),
        ensures
            final(self).inv(),
            final(self)@ == (HalfCellView {
                front: blank(old(self)@.front.len()),
                back: blank(old(self)@.back.len()),
                ..old(self)@
            }),
    {
        self.clear_back_buffer();
        self.swap_buffers();
        self.clear_back_buffer();
    }
}


/// Brings the terminal's foreground from `*current` to `want`.
fn sync_fg(buf: &mut String, current: &mut Option<Color>, want: Option<Color>)
    ensures
        *final(current) == want,
        final(buf)@ == old(buf)@ + encode_all(fg_cmds(*old(current), want), enc()),
{
    let ghost cmds = fg_cmds(*current, want);
    match want {
        Some(fg) => {
            if !same_color(*current, Some(fg)) {
                write_fg_color(buf, fg);
                *current = Some(fg);
                proof {
                    lemma_encode_push(Seq::empty(), Cmd::Fg(fg), enc());
                }
                assert(seq![Cmd::Fg(fg)] =~= Seq::<Cmd<Color>>::empty().push(Cmd::Fg(fg)));
            }
        },
        None => {
            if current.is_some() {
                write_fg_reset(buf);
                *current = None;
                proof {
                    lemma_encode_push(Seq::empty(), Cmd::FgReset, enc());
                }
                assert(seq![Cmd::FgReset] =~= Seq::<Cmd<Color>>::empty().push(Cmd::FgReset));
            }
        },
    }
    assert(buf@ =~= old(buf)@ + encode_all(cmds, enc()));
}

/// Brings the terminal's background from `*current` to `want`.
fn sync_bg(buf: &mut String, current: &mut Option<Color>, want: Option<Color>)
    ensures
        *final(current) == want,
        final(buf)@ == old(buf)@ + encode_all(bg_cmds(*old(current), want), enc()),
{
    let ghost cmds = bg_cmds(*current, want);
    match want {
        Some(bg) => {
            if !same_color(*current, Some(bg)) {
                write_bg_color(buf, bg);
                *current = Some(bg);
                proof {
                    lemma_encode_push(Seq::empty(), Cmd::Bg(bg), enc());
                }
                assert(seq![Cmd::Bg(bg)] =~= Seq::<Cmd<Color>>::empty().push(Cmd::Bg(bg)));
            }
        },
        None => {
            if current.is_some() {
                write_bg_reset(buf);
                *current = None;
                proof {
                    lemma_encode_push(Seq::empty(), Cmd::BgReset, enc());
                }
                assert(seq![Cmd::BgReset] =~= Seq::<Cmd<Color>>::empty().push(Cmd::BgReset));
            }
        },
    }
    assert(buf@ =~= old(buf)@ + encode_all(cmds, enc()));
}

/// Renders one cell at terminal position (`row`, `col`): see [`cell_step`].
fn render_cell(
    buf: &mut String,
    front_top: Option<Color>,
    front_bottom: Option<Color>,
    back_top: Option<Color>,
    back_bottom: Option<Color>,
    row: usize,
    col: usize,
    current_top: &mut Option<Color>,
    current_bottom: &mut Option<Color>,
    skipping: &mut bool,
)
    requires
        row < usize::MAX,
        col < usize::MAX,
    ensures
        ({
            let step = cell_step(
                front_top,
                front_bottom,
                back_top,
                back_bottom,
                row as nat,
                col as nat,
                Pen { fg: *old(current_top), bg: *old(current_bottom), skipping: *old(skipping) },
            );
            &&& final(buf)@ == old(buf)@ + encode_all(step.0, enc())
            &&& *final(current_top) == step.1.fg
            &&& *final(current_bottom) == step.1.bg
            &&& *final(skipping) == step.1.skipping
        }),
{
    let ghost p = Pen { fg: *current_top, bg: *current_bottom, skipping: *skipping };
    if same_color(front_top, back_top) && same_color(front_bottom, back_bottom) {
        *skipping = true;
        assert(encode_all(Seq::<Cmd<Color>>::empty(), enc()) =~= Seq::empty());
        assert(buf@ =~= old(buf)@ + encode_all(Seq::<Cmd<Color>>::empty(), enc()));
        return;
    }
    let ghost mv: Seq<Cmd<Color>> = if p.skipping {
        seq![Cmd::MoveTo(row as nat, col as nat)]
    } else {
        Seq::empty()
    };
    // emit a move-to sequence before writing if cells were skipped
    if *skipping {
        *skipping = false;
        write_move_to(buf, row, col);
        proof {
            lemma_encode_push(Seq::empty(), Cmd::MoveTo(row as nat, col as nat), enc());
        }
        assert(mv =~= Seq::<Cmd<Color>>::empty().push(Cmd::MoveTo(row as nat, col as nat)));
    } else {
        assert(encode_all(mv, enc()) =~= Seq::empty());
    }
    assert(buf@ =~= old(buf)@ + encode_all(mv, enc()));
    let desired_fg = if back_top.is_some() {
        back_top
    } else {
        back_bottom
    };
    let desired_bg = if back_top.is_some() {
        back_bottom
    } else {
        None
    };
    let ch = if back_top.is_some() {
        UPPER_HALF
    } else if back_bottom.is_some() {
        LOWER_HALF
    } else {
        ' '
    };
    let ghost f = fg_cmds(p.fg, desired_fg);
    let ghost g = bg_cmds(p.bg, desired_bg);
    sync_fg(buf, current_top, desired_fg);
    sync_bg(buf, current_bottom, desired_bg);
    push_char(buf, ch);
    proof {
        lemma_encode_append(mv, f, enc());
        lemma_encode_append(mv + f, g, enc());
        lemma_encode_push(mv + f + g, Cmd::Glyph(ch), enc());
        assert(mv + f + g + seq![Cmd::Glyph(ch)] =~= (mv + f + g).push(Cmd::Glyph(ch)));
    }
    assert(buf@ =~= old(buf)@ + encode_all(mv + f + g + seq![Cmd::Glyph(ch)], enc()));
}

impl HalfCellCanvas {
    /// Renders the changed cells to `buf` (see [`render_text`]), then makes
    /// the back buffer the front buffer and clears the new back buffer.
    pub fn render_to(&mut self, buf: &mut String)
        requires
            old(self).inv(),
            old(self)@.positions_fit(),
        ensures
            final(self).inv(),
            final(self)@ == old(self)@.rendered(),
            final(buf)@ == old(buf)@ + render_text(old(self)@),
    {
        let ghost v = self@;
        let (col_offset, row_offset) = self.offset;
        let width = self.width();

        // reset the terminal's colour state at the start of every frame so
        // that `current_*` is an accurate model of the terminal and cleared
        // cells fall back to the terminal's own background.
        write_fg_reset(buf);
        write_bg_reset(buf);
        let ghost mut cmds: Seq<Cmd<Color>> = Seq::empty();
        proof {
            lemma_encode_push(cmds, Cmd::FgReset, enc());
            cmds = cmds.push(Cmd::FgReset);
            lemma_encode_push(cmds, Cmd::BgReset, enc());
            cmds = cmds.push(Cmd::BgReset);
            assert(cmds =~= frame_cmds(v, 0).0);
            assert(encode_all(Seq::<Cmd<Color>>::empty(), enc()) =~= Seq::empty());
            assert(buf@ =~= old(buf)@ + encode_all(cmds, enc()));
        }
        let mut current_top: Option<Color> = None;
        let mut current_bottom: Option<Color> = None;

        let (cols, rows) = self.dimensions;
        let (front, back) = self.buffers();

        for row in 0..rows
            invariant
                v.wf(),
                v.positions_fit(),
                cols == v.cols,
                rows == v.rows,
                width == v.cols,
                col_offset == v.col_off,
                row_offset == v.row_off,
                front@ == v.front,
                back@ == v.back,
                cmds == frame_cmds(v, row as nat).0,
                current_top == frame_cmds(v, row as nat).1.fg,
                current_bottom == frame_cmds(v, row as nat).1.bg,
                buf@ == old(buf)@ + encode_all(cmds, enc()),
        {
            write_move_to(buf, row_offset + row, col_offset);
            proof {
                lemma_encode_push(cmds, Cmd::MoveTo((v.row_off + row) as nat, v.col_off), enc());
                cmds = cmds.push(Cmd::MoveTo((v.row_off + row) as nat, v.col_off));
            }
            let ghost row_start = cmds;
            let ghost pen0 = Pen { fg: current_top, bg: current_bottom, skipping: true };
            let mut skipping = true;
            assert(row_start + row_cmds(v, row as nat, 0, pen0).0 =~= row_start);

            for col in 0..cols
                invariant
                    v.wf(),
                    v.positions_fit(),
                    row < rows,
                    cols == v.cols,
                    rows == v.rows,
                    width == v.cols,
                    col_offset == v.col_off,
                    row_offset == v.row_off,
                    front@ == v.front,
                    back@ == v.back,
                    cmds == row_start + row_cmds(v, row as nat, col as nat, pen0).0,
                    current_top == row_cmds(v, row as nat, col as nat, pen0).1.fg,
                    current_bottom == row_cmds(v, row as nat, col as nat, pen0).1.bg,
                    skipping == row_cmds(v, row as nat, col as nat, pen0).1.skipping,
                    buf@ == old(buf)@ + encode_all(cmds, enc()),
            {
                proof {
                    lemma_cell_index(rows as nat, cols as nat, row as nat, col as nat);
                }
                let top_idx = (2 * row) * width + col;
                let bottom_idx = (2 * row + 1) * width + col;
                let back_top = back[top_idx];
                let back_bottom = back[bottom_idx];

                // compare to front. if it's the same, skip
                let front_top = front[top_idx];
                let front_bottom = front[bottom_idx];
                let ghost p = row_cmds(v, row as nat, col as nat, pen0).1;
                let ghost cell = cell_cmds(v, row as nat, col as nat, p);
                render_cell(
                    buf,
                    front_top,
                    front_bottom,
                    back_top,
                    back_bottom,
                    row_offset + row,
                    col_offset + col,
                    &mut current_top,
                    &mut current_bottom,
                    &mut skipping,
                );
                proof {
                    lemma_encode_append(cmds, cell.0, enc());
                    cmds = cmds + cell.0;
                }
                assert(cmds =~= row_start + row_cmds(v, row as nat, (col + 1) as nat, pen0).0);
            }
            assert(cmds =~= frame_cmds(v, (row + 1) as nat).0);
        }

        self.swap_buffers();
        self.clear_back_buffer();
    }

    /// Renders the changed cells into a new string (see [`render_to`]).
    pub fn render(&mut self) -> (out: String)
        requires
            old(self).inv(),
            old(self)@.positions_fit(),
        ensures
            final(self).inv(),
            final(self)@ == old(self)@.rendered(),
            out@ == render_text(old(self)@),
    {
        let mut buf = String::new();
        self.render_to(&mut buf);
        assert(buf@ =~= render_text(old(self)@));
        buf
    }
}

/// What a frame shows in cell (`r`, `c`): its character, printed in its
/// foreground and background.
pub open spec fn expected_cell(v: HalfCellView, r: int, c: int) -> Cell<Color> {
    let t = v.top(v.back, r, c);
    let b = v.bottom(v.back, r, c);
    Cell { glyph: glyph_for(t, b), fg: desired_fg(t, b), bg: desired_bg(t, b) }
}

/// The terminal cells that a frame paints in row `r` among its first `n`
/// cells: those that changed, keyed by their terminal position.
pub open spec fn row_painted(v: HalfCellView, r: int, n: int) -> Map<(int, int), Cell<Color>> {
    Map::new(
        |pos: (int, int)|
            pos.0 == v.row_off + r && 0 <= pos.1 - v.col_off < n && v.changed(r, pos.1 - v.col_off),
        |pos: (int, int)| expected_cell(v, r, pos.1 - v.col_off),
    )
}

/// The terminal cells that a frame paints in its first `m` rows.
pub open spec fn rows_painted(v: HalfCellView, m: int) -> Map<(int, int), Cell<Color>> {
    Map::new(
        |pos: (int, int)|
            0 <= pos.0 - v.row_off < m && 0 <= pos.1 - v.col_off < v.cols && v.changed(
                pos.0 - v.row_off,
                pos.1 - v.col_off,
            ),
        |pos: (int, int)| expected_cell(v, pos.0 - v.row_off, pos.1 - v.col_off),
    )
}

/// The terminal cells that a frame paints: every changed cell of the canvas,
/// at its terminal position, with its expected content.
pub open spec fn painted(v: HalfCellView) -> Map<(int, int), Cell<Color>> {
    rows_painted(v, v.rows as int)
}

/// One cell: an unchanged cell leaves the screen alone; a changed one is
/// printed at its terminal position with its expected content, and leaves the
/// cursor just after it.
proof fn lemma_cell(v: HalfCellView, r: nat, c: nat, p: Pen<Color>, t: Term<Color>)
    requires
        t.fg == p.fg,
        t.bg == p.bg,
        !p.skipping ==> t.row == v.row_off + r && t.col == v.col_off + c,
    ensures
        ({
            let step = cell_cmds(v, r, c, p);
            let t2 = run(t, step.0);
            &&& t2.fg == step.1.fg
            &&& t2.bg == step.1.bg
            &&& !step.1.skipping ==> t2.row == v.row_off + r && t2.col == v.col_off + c + 1
            &&& v.changed(r as int, c as int) ==> t2.screen == t.screen.insert(
                ((v.row_off + r) as int, (v.col_off + c) as int),
                expected_cell(v, r as int, c as int),
            )
            &&& !v.changed(r as int, c as int) ==> t2.screen == t.screen
        }),
{
    if v.changed(r as int, c as int) {
        let top = v.top(v.back, r as int, c as int);
        let bottom = v.bottom(v.back, r as int, c as int);
        let mv: Seq<Cmd<Color>> = if p.skipping {
            seq![Cmd::MoveTo(v.row_off + r, v.col_off + c)]
        } else {
            Seq::empty()
        };
        let f = fg_cmds(p.fg, desired_fg(top, bottom));
        let g = bg_cmds(p.bg, desired_bg(top, bottom));
        let gl = seq![Cmd::Glyph(glyph_for(top, bottom))];
        lemma_run_append(t, mv + f + g, gl);
        lemma_run_append(t, mv + f, g);
        lemma_run_append(t, mv, f);
        if p.skipping {
            lemma_run_one(t, Cmd::MoveTo(v.row_off + r, v.col_off + c));
        }
        let t1 = run(t, mv);
        assert(t1.row == v.row_off + r && t1.col == v.col_off + c);
        assert(t1.fg == p.fg && t1.bg == p.bg && t1.screen == t.screen);
        lemma_run_fg(t1, desired_fg(top, bottom));
        let t2 = run(t1, f);
        lemma_run_bg(t2, desired_bg(top, bottom));
        let t3 = run(t2, g);
        lemma_run_one(t3, Cmd::Glyph(glyph_for(top, bottom)));
    }
}

/// The first `n` cells of row `r`, started at the beginning of the row.
proof fn lemma_row(v: HalfCellView, r: nat, n: nat, p0: Pen<Color>, t: Term<Color>)
    requires
        p0.skipping,
        t.fg == p0.fg,
        t.bg == p0.bg,
    ensures
        ({
            let rc = row_cmds(v, r, n, p0);
            let t2 = run(t, rc.0);
            &&& t2.fg == rc.1.fg
            &&& t2.bg == rc.1.bg
            &&& !rc.1.skipping ==> t2.row == v.row_off + r && t2.col == v.col_off + n
            &&& t2.screen == t.screen.union_prefer_right(row_painted(v, r as int, n as int))
        }),
    decreases n,
{
    if n == 0 {
        assert(t.screen.union_prefer_right(row_painted(v, r as int, 0)) =~= t.screen);
    } else {
        let prev = row_cmds(v, r, (n - 1) as nat, p0);
        lemma_row(v, r, (n - 1) as nat, p0, t);
        let t1 = run(t, prev.0);
        let cell = cell_cmds(v, r, (n - 1) as nat, prev.1);
        lemma_run_append(t, prev.0, cell.0);
        lemma_cell(v, r, (n - 1) as nat, prev.1, t1);
        let pos = ((v.row_off + r) as int, (v.col_off + n - 1) as int);
        if v.changed(r as int, n - 1) {
            assert(t.screen.union_prefer_right(row_painted(v, r as int, n as int)) =~= t.screen.union_prefer_right(
                row_painted(v, r as int, n - 1),
            ).insert(pos, expected_cell(v, r as int, n - 1)));
        } else {
            assert(t.screen.union_prefer_right(row_painted(v, r as int, n as int)) =~= t.screen.union_prefer_right(
                row_painted(v, r as int, n - 1),
            ));
        }
    }
}

/// The first `m` rows of a frame.
proof fn lemma_frame(v: HalfCellView, m: nat, t0: Term<Color>)
    ensures
        ({
            let fc = frame_cmds(v, m);
            let t = run(t0, fc.0);
            &&& t.fg == fc.1.fg
            &&& t.bg == fc.1.bg
            &&& t.screen == t0.screen.union_prefer_right(rows_painted(v, m as int))
        }),
    decreases m,
{
    if m == 0 {
        let cmds: Seq<Cmd<Color>> = seq![Cmd::FgReset, Cmd::BgReset];
        lemma_run_append(t0, seq![Cmd::FgReset], seq![Cmd::BgReset]);
        assert(seq![Cmd::<Color>::FgReset] + seq![Cmd::<Color>::BgReset] =~= cmds);
        lemma_run_one(t0, Cmd::FgReset);
        lemma_run_one(apply(t0, Cmd::FgReset), Cmd::BgReset);
        assert(t0.screen.union_prefer_right(rows_painted(v, 0)) =~= t0.screen);
    } else {
        let prev = frame_cmds(v, (m - 1) as nat);
        lemma_frame(v, (m - 1) as nat, t0);
        let t1 = run(t0, prev.0);
        let mv = seq![Cmd::MoveTo((v.row_off + m - 1) as nat, v.col_off)];
        let p0 = Pen { fg: prev.1.fg, bg: prev.1.bg, skipping: true };
        let row = row_cmds(v, (m - 1) as nat, v.cols, p0);
        lemma_run_append(t0, prev.0 + mv, row.0);
        lemma_run_append(t0, prev.0, mv);
        lemma_run_one(t1, Cmd::MoveTo((v.row_off + m - 1) as nat, v.col_off));
        let t2 = run(t0, prev.0 + mv);
        lemma_row(v, (m - 1) as nat, v.cols, p0, t2);
        assert(t0.screen.union_prefer_right(rows_painted(v, m - 1)).union_prefer_right(
            row_painted(v, m - 1, v.cols as int),
        ) =~= t0.screen.union_prefer_right(rows_painted(v, m as int)));
    }
}

/// What a frame does to any terminal: the cells of the canvas that changed
/// since the last frame are printed at their terminal positions, each with
/// its character and colours (a cleared cell as a space on the terminal's own
/// background); no other cell of the terminal is written.  This holds
/// whatever colours the terminal was left in before the frame.
pub proof fn lemma_render_paints_changed_cells(v: HalfCellView, t0: Term<Color>)
    ensures
        run(t0, render_cmds(v)).screen == t0.screen.union_prefer_right(painted(v)),
{
    lemma_frame(v, v.rows, t0);
}

/// After [`HalfCellCanvas::reset`] the front buffer is empty, so the next
/// frame draws every cell that has a pixel set; a cell with no pixel set is
/// not written.
pub proof fn lemma_render_after_reset(v: HalfCellView, r: int, c: int)
    requires
        v.wf(),
        v.front == blank(v.front.len()),
        0 <= r < v.rows,
        0 <= c < v.cols,
    ensures
        v.changed(r, c) <==> (v.top(v.back, r, c) is Some || v.bottom(v.back, r, c) is Some),
{
    lemma_cell_index(v.rows, v.cols, r as nat, c as nat);
}

/// A frame identical to the last one paints nothing.
pub proof fn lemma_unchanged_frame_paints_nothing(v: HalfCellView)
    requires
        v.front == v.back,
    ensures
        painted(v) == Map::<(int, int), Cell<Color>>::empty(),
{
    assert(painted(v) =~= Map::<(int, int), Cell<Color>>::empty());
}

/// What a frame leaves in the terminal cell of canvas cell (`r`, `c`), stated
/// on the pixels themselves.  If either pixel (colour included) differs
/// between the last frame and this one, the cell is printed: with both
/// pixels set, as the upper half block (U+2580) in the upper colour on the
/// lower colour; with only the upper pixel set, as the upper half block in
/// its colour on the terminal's default background; with only the lower
/// pixel set, as the lower half block (U+2584) in its colour on the default
/// background; with neither, as a space in the default colours.  If both
/// pixels are unchanged the terminal cell keeps whatever it held.
pub proof fn lemma_render_cell_on_screen(v: HalfCellView, t0: Term<Color>, r: int, c: int)
    requires
        0 <= r < v.rows,
        0 <= c < v.cols,
    ensures
        ({
            let pos = (v.row_off + r, v.col_off + c);
            let ft = v.front[(2 * r) * v.cols + c];
            let fb = v.front[(2 * r + 1) * v.cols + c];
            let bt = v.back[(2 * r) * v.cols + c];
            let bb = v.back[(2 * r + 1) * v.cols + c];
            let screen = run(t0, render_cmds(v)).screen;
            &&& (ft != bt || fb != bb) ==> screen.contains_key(pos)
            &&& (ft != bt || fb != bb) && bt is Some && bb is Some ==> screen[pos] == (Cell {
                glyph: '\u{2580}',
                fg: bt,
                bg: bb,
            })
            &&& (ft != bt || fb != bb) && bt is Some && bb is None ==> screen[pos] == (Cell {
                glyph: '\u{2580}',
                fg: bt,
                bg: None,
            })
            &&& (ft != bt || fb != bb) && bt is None && bb is Some ==> screen[pos] == (Cell {
                glyph: '\u{2584}',
                fg: bb,
                bg: None,
            })
            &&& (ft != bt || fb != bb) && bt is None && bb is None ==> screen[pos] == (Cell::<Color> {
                glyph: ' ',
                fg: None,
                bg: None,
            })
            &&& (ft == bt && fb == bb) ==> screen.contains_key(pos) == t0.screen.contains_key(pos)
            &&& (ft == bt && fb == bb) && t0.screen.contains_key(pos) ==> screen[pos]
                == t0.screen[pos]
        }),
{
    lemma_render_paints_changed_cells(v, t0);
    let pos = (v.row_off + r, v.col_off + c);
    assert(pos.0 - v.row_off == r && pos.1 - v.col_off == c);
}

} // verus!
