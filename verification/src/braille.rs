//! A canvas that draws eight dots per terminal cell with the braille
//! characters.
use vstd::prelude::*;

use crate::color::{bg_escape, fg_escape, same_color, Color};
use crate::term::{
    encode_all, lemma_encode_push, lemma_run_append, lemma_run_one, run, Cell, Cmd, Term,
};
use crate::text::{bg_reset_escape, char_from_u32, fg_reset_escape, move_to_escape, push_char};
use crate::utils::{write_bg_color, write_fg_color, write_move_to};

verus! {

/// The abstract state of a [`BrailleCanvas`]: its size and position in
/// cells, which dots are set (row by row, `2 * cols` to a row, four dot rows
/// to a cell row), the colour of each cell (row by row), and the colour of
/// the whole canvas's background.
pub struct BrailleView {
    pub rows: nat,
    pub cols: nat,
    pub row_off: nat,
    pub col_off: nat,
    pub dots: Seq<bool>,
    pub colors: Seq<Option<Color>>,
    pub bg: Option<Color>,
}

impl BrailleView {
    /// The dot buffer has one entry for each of the `2 * cols` by `4 * rows`
    /// dots, the colour buffer one for each cell, and the width in dots and
    /// the number of dots fit in a `usize`.
    pub open spec fn wf(self) -> bool {
        &&& 2 * self.cols <= usize::MAX
        &&& 8 * self.rows <= usize::MAX
        &&& 8 * self.rows * self.cols <= usize::MAX
        &&& self.dots.len() == 8 * self.rows * self.cols
        &&& self.colors.len() == self.rows * self.cols
    }

    /// The positions that a render writes to are all addressable.
    pub open spec fn positions_fit(self) -> bool {
        self.rows > 0 ==> {
            &&& self.row_off + self.rows <= usize::MAX
            &&& self.col_off < usize::MAX
        }
    }

    /// The width in dots.
    pub open spec fn width(self) -> nat {
        2 * self.cols
    }

    /// The height in dots.
    pub open spec fn height(self) -> nat {
        4 * self.rows
    }

    /// Whether the dot at `x`, `y` is set.
    pub open spec fn dot(self, x: int, y: int) -> bool {
        self.dots[y * self.width() + x]
    }

    /// The colour of cell (`r`, `c`).
    pub open spec fn cell_color(self, r: int, c: int) -> Option<Color> {
        self.colors[r * self.cols + c]
    }

    /// The state after a render: every dot and cell colour cleared, the
    /// background kept.
    pub open spec fn cleared(self) -> BrailleView {
        BrailleView {
            dots: Seq::new(self.dots.len(), |i: int| false),
            colors: Seq::new(self.colors.len(), |i: int| None),
            ..self
        }
    }
}

/// The braille pattern of cell (`r`, `c`): the sum of the bits of its set
/// dots, laid out as
///
/// ```text
/// 0 3
/// 1 4
/// 2 5
/// 6 7
/// ```
pub open spec fn cell_byte(v: BrailleView, r: int, c: int) -> nat {
    let x = 2 * c;
    let y = 4 * r;
    (if v.dot(x, y) { 1nat } else { 0 }) + (if v.dot(x + 1, y) { 8nat } else { 0 }) + (if v.dot(
        x,
        y + 1,
    ) { 2nat } else { 0 }) + (if v.dot(x + 1, y + 1) { 16nat } else { 0 }) + (if v.dot(x, y + 2) {
        4nat
    } else { 0 }) + (if v.dot(x + 1, y + 2) { 32nat } else { 0 }) + (if v.dot(x, y + 3) {
        64nat
    } else { 0 }) + (if v.dot(x + 1, y + 3) { 128nat } else { 0 })
}

/// The character shown for a braille pattern: a space for the empty pattern,
/// the braille character `0x2800 + byte` otherwise.
pub open spec fn braille_glyph(byte: nat) -> char {
    if byte == 0 { ' ' } else { (0x2800 + byte) as char }
}

/// The last colour among the first `k` cell colours, if any: the colour the
/// terminal was last given when cell `k` (in row-major order) is drawn.
pub open spec fn last_color(colors: Seq<Option<Color>>, k: nat) -> Option<Color>
    decreases k,
{
    if k == 0 {
        None
    } else if colors[k - 1] is Some {
        colors[k - 1]
    } else {
        last_color(colors, (k - 1) as nat)
    }
}

/// The commands rendered for cell (`r`, `c`): its colour where it has one
/// that the terminal was not last given, then its character.
pub open spec fn braille_cell_cmds(v: BrailleView, r: nat, c: nat) -> Seq<Cmd<Color>> {
    let k = r * v.cols + c;
    let cc = v.colors[k as int];
    let fg: Seq<Cmd<Color>> = if cc is Some && cc != last_color(v.colors, k) {
        seq![Cmd::Fg(cc->0)]
    } else {
        Seq::empty()
    };
    fg + seq![Cmd::Glyph(braille_glyph(cell_byte(v, r as int, c as int)))]
}

/// The commands rendered for the first `n` cells of row `r`.
pub open spec fn braille_row_cmds(v: BrailleView, r: nat, n: nat) -> Seq<Cmd<Color>>
    decreases n,
{
    if n == 0 {
        Seq::empty()
    } else {
        braille_row_cmds(v, r, (n - 1) as nat) + braille_cell_cmds(v, r, (n - 1) as nat)
    }
}

/// The commands rendered for the first `m` rows: the background first, if the
/// canvas has one; then each row, after a cursor movement to its first cell.
pub open spec fn braille_frame_cmds(v: BrailleView, m: nat) -> Seq<Cmd<Color>>
    decreases m,
{
    if m == 0 {
        match v.bg {
            Some(b) => seq![Cmd::Bg(b)],
            None => Seq::empty(),
        }
    } else {
        braille_frame_cmds(v, (m - 1) as nat) + seq![
            Cmd::MoveTo((v.row_off + m - 1) as nat, v.col_off),
        ] + braille_row_cmds(v, (m - 1) as nat, v.cols)
    }
}

/// The commands of a whole frame.
pub open spec fn braille_render_cmds(v: BrailleView) -> Seq<Cmd<Color>> {
    braille_frame_cmds(v, v.rows)
}

/// The text of one command.
pub open spec fn braille_encode_cmd(cmd: Cmd<Color>) -> Seq<char> {
    match cmd {
        Cmd::MoveTo(r, c) => move_to_escape(r, c),
        Cmd::Fg(x) => fg_escape(x),
        Cmd::FgReset => fg_reset_escape(),
        Cmd::Bg(x) => bg_escape(x),
        Cmd::BgReset => bg_reset_escape(),
        Cmd::Glyph(ch) => seq![ch],
    }
}

/// The encoding of commands used by this canvas.
pub open spec fn braille_enc() -> spec_fn(Cmd<Color>) -> Seq<char> {
    |cmd: Cmd<Color>| braille_encode_cmd(cmd)
}

/// The text of a whole frame.
pub open spec fn braille_render_text(v: BrailleView) -> Seq<char> {
    encode_all(braille_render_cmds(v), braille_enc())
}

/// renders to strings using braille characters
///
/// - sets colors of dots
///
///   NOTE: color works on a "last-wins" strategy. the last color
///   set for a dot within a single terminal cell dictates the
///   color of every dot in the cell
///
/// - renders to a string that the caller can write to their screen
pub struct BrailleCanvas {
    /// (rows, columns) in *cells*
    dimensions: (usize, usize),
    /// (row_offset, col_offset) in *cells*
    offset: (usize, usize),
    /// data is per *dot*
    buffer: Vec<bool>,
    /// data is per *cell*
    colors: Vec<Option<Color>>,
    /// optional color used for the entire canvas background
    bg_color: Option<Color>,
}

impl View for BrailleCanvas {
    type V = BrailleView;

    closed spec fn view(&self) -> BrailleView {
        BrailleView {
            rows: self.dimensions.0 as nat,
            cols: self.dimensions.1 as nat,
            row_off: self.offset.0 as nat,
            col_off: self.offset.1 as nat,
            dots: self.buffer@,
            colors: self.colors@,
            bg: self.bg_color,
        }
    }
}

proof fn lemma_dot_index(rows: nat, cols: nat, x: nat, y: nat)
    requires
        x < 2 * cols,
        y < 4 * rows,
    ensures
        y * (2 * cols) <= y * (2 * cols) + x,
        y * (2 * cols) + x < 8 * rows * cols,
        y / 4 < rows,
        x / 2 < cols,
        (y / 4) * cols + x / 2 < rows * cols,
        rows * cols <= 8 * rows * cols,
{
    assert(rows * cols <= 8 * rows * cols) by (nonlinear_arith);
    assert(y * (2 * cols) + x < 8 * rows * cols) by (nonlinear_arith)
        requires
            x < 2 * cols,
            y < 4 * rows,
    ;
    assert((y / 4) * cols + x / 2 < rows * cols) by (nonlinear_arith)
        requires
            x / 2 < cols,
            y / 4 < rows,
    ;
}

proof fn lemma_cell_dots(rows: nat, cols: nat, r: nat, c: nat)
    requires
        r < rows,
        c < cols,
    ensures
        4 * r + 3 <= (4 * r + 3) * (2 * cols),
        (4 * r) * (2 * cols) <= (4 * r + 1) * (2 * cols),
        (4 * r + 1) * (2 * cols) <= (4 * r + 2) * (2 * cols),
        (4 * r + 2) * (2 * cols) <= (4 * r + 3) * (2 * cols),
        (4 * r + 3) * (2 * cols) + 2 * c + 1 < 8 * rows * cols,
        r * cols + c < rows * cols,
        r * cols <= r * cols + c,
        rows * cols <= 8 * rows * cols,
{
    assert(rows * cols <= 8 * rows * cols) by (nonlinear_arith);
    assert(4 * r + 3 <= (4 * r + 3) * (2 * cols)) by (nonlinear_arith)
        requires
            c < cols,
    ;
    assert((4 * r) * (2 * cols) <= (4 * r + 1) * (2 * cols)) by (nonlinear_arith);
    assert((4 * r + 1) * (2 * cols) <= (4 * r + 2) * (2 * cols)) by (nonlinear_arith);
    assert((4 * r + 2) * (2 * cols) <= (4 * r + 3) * (2 * cols)) by (nonlinear_arith);
    assert((4 * r + 3) * (2 * cols) + 2 * c + 1 < 8 * rows * cols) by (nonlinear_arith)
        requires
            r < rows,
            c < cols,
    ;
    assert(r * cols + c < rows * cols) by (nonlinear_arith)
        requires
            r < rows,
            c < cols,
    ;
}

fn filled<T: Copy>(n: usize, x: T) -> (v: Vec<T>)
    ensures
        v@ == Seq::new(n as nat, |i: int| x),
{
    let mut v: Vec<T> = Vec::new();
    for i in 0..n
        invariant
            v@ == Seq::new(i as nat, |j: int| x),
    {
        v.push(x);
        assert(v@ =~= Seq::new((i + 1) as nat, |j: int| x));
    }
    v
}

fn fill<T: Copy>(v: &mut Vec<T>, x: T)
    ensures
        final(v)@ == Seq::new(old(v)@.len(), |i: int| x),
{
    let n = v.len();
    for i in 0..n
        invariant
            v@.len() == n,
            forall|j: int| 0 <= j < i ==> v@[j] == x,
    {
        v.set(i, x);
    }
    assert(v@ =~= Seq::new(n as nat, |i: int| x));
}

impl BrailleCanvas {
    /// The invariant of the canvas: see [`BrailleView::wf`].
    pub open spec fn inv(&self) -> bool {
        self@.wf()
    }

    /// A canvas of `dimensions.0` rows by `dimensions.1` columns of cells,
    /// placed `offset.0` rows and `offset.1` columns from the terminal's
    /// top-left corner, with no dot set, no colour and no background.
    pub fn new(dimensions: (usize, usize), offset: (usize, usize)) -> (c: BrailleCanvas)
        requires
            2 * dimensions.1 <= usize::MAX,
            8 * dimensions.0 <= usize::MAX,
            8 * dimensions.0 * dimensions.1 <= usize::MAX,
        ensures
            c.inv(),
            c@.rows == dimensions.0,
            c@.cols == dimensions.1,
            c@.row_off == offset.0,
            c@.col_off == offset.1,
            c@.dots == Seq::new((8 * dimensions.0 * dimensions.1) as nat, |i: int| false),
            c@.colors == Seq::new((dimensions.0 * dimensions.1) as nat, |i: int| None::<Color>),
            c@.bg is None,
    {
        let (rows, cols) = dimensions;
        proof {
            assert(rows * cols <= 8 * rows * cols) by (nonlinear_arith);
        }
        let buffer = filled(8 * rows * cols, false);
        let colors: Vec<Option<Color>> = filled(rows * cols, None);
        BrailleCanvas { dimensions, offset, buffer, colors, bg_color: None }
    }

    /// The width of the canvas in dots: two per cell column.
    pub fn width(&self) -> (w: usize)
        requires
            self.inv(),
        ensures
            w == self@.width(),
    {
        2 * self.dimensions.1
    }

    /// The height of the canvas in dots: four per cell row.
    pub fn height(&self) -> (h: usize)
        requires
            self.inv(),
        ensures
            h == self@.height(),
    {
        4 * self.dimensions.0
    }

    /// Sets the dot at `x`, `y` (in canvas coordinates) and gives its cell the
    /// colour `color`.  Out-of-bounds input is ignored.
    pub fn set(&mut self, x: usize, y: usize, color: Color)
        requires
            old(self).inv(),
        ensures
            final(self).inv(),
            x < old(self)@.width() && y < old(self)@.height() ==> final(self)@ == (BrailleView {
                dots: old(self)@.dots.update(y * old(self)@.width() + x, true),
                colors: old(self)@.colors.update((y / 4) * old(self)@.cols + x / 2, Some(color)),
                ..old(self)@
            }),
            !(x < old(self)@.width() && y < old(self)@.height()) ==> final(self)@ == old(self)@,
    {
        if x >= self.width() || y >= self.height() {
            return;
        }
        proof {
            lemma_dot_index(self@.rows, self@.cols, x as nat, y as nat);
        }
        let buffer_idx = y * self.width() + x;
        self.buffer.set(buffer_idx, true);

        let cell_idx = (y / 4) * self.dimensions.1 + (x / 2);
        self.colors.set(cell_idx, Some(color));
    }

    /// Sets a background colour for the entire canvas.
    pub fn set_bg_color(&mut self, color: Color)
        ensures
            final(self)@ == (BrailleView { bg: Some(color), ..old(self)@ }),
    {
        self.bg_color = Some(color);
    }

    fn clear_buffer(&mut self)
        ensures
            final(self)@ == old(self)@.cleared(),
    {
        fill(&mut self.buffer, false);
        fill(&mut self.colors, None);
    }
}

impl BrailleCanvas {
    /// The braille pattern of cell (`row`, `col`): see [`cell_byte`].
    fn cell_pattern(&self, row: usize, col: usize) -> (byte: u32)
        requires
            self.inv(),
            row < self@.rows,
            col < self@.cols,
        ensures
            byte == cell_byte(self@, row as int, col as int),
            byte < 256,
    {
        let width = self.width();
        proof {
            lemma_cell_dots(self@.rows, self@.cols, row as nat, col as nat);
        }
        // the braille character 0x28XX puts dots according to the bits of
        // XX, laid out as
        //
        // 0 3
        // 1 4
        // 2 5
        // 6 7   <- annoying bottom row
        let mut byte: u32 = 0;
        if self.buffer[4 * row * width + 2 * col] {
            byte += 1;
        }
        if self.buffer[4 * row * width + 2 * col + 1] {
            byte += 8;
        }
        if self.buffer[(4 * row + 1) * width + 2 * col] {
            byte += 2;
        }
        if self.buffer[(4 * row + 1) * width + 2 * col + 1] {
            byte += 16;
        }
        if self.buffer[(4 * row + 2) * width + 2 * col] {
            byte += 4;
        }
        if self.buffer[(4 * row + 2) * width + 2 * col + 1] {
            byte += 32;
        }
        if self.buffer[(4 * row + 3) * width + 2 * col] {
            byte += 64;
        }
        if self.buffer[(4 * row + 3) * width + 2 * col + 1] {
            byte += 128;
        }
        byte
    }

    /// Renders every cell into a new string (see [`braille_render_text`]),
    /// then clears the dots and cell colours to prepare the next render.
    pub fn render(&mut self) -> (out: String)
        requires
            old(self).inv(),
            old(self)@.positions_fit(),
        ensures
            final(self).inv(),
            final(self)@ == old(self)@.cleared(),
            out@ == braille_render_text(old(self)@),
    {
        let ghost v = self@;
        let mut out = String::new();
        let ghost mut cmds: Seq<Cmd<Color>> = Seq::empty();

        if let Some(bg_color) = self.bg_color {
            write_bg_color(&mut out, bg_color);
            proof {
                lemma_encode_push(cmds, Cmd::Bg(bg_color), braille_enc());
                cmds = cmds.push(Cmd::Bg(bg_color));
            }
        }
        assert(cmds =~= braille_frame_cmds(v, 0));
        assert(out@ =~= encode_all(cmds, braille_enc()));

        let mut current_color: Option<Color> = None;
        let rows = self.dimensions.0;
        let cols = self.dimensions.1;
        assert(0 * v.cols == 0);

        for row in 0..rows
            invariant
                self@ == v,
                v.wf(),
                v.positions_fit(),
                rows == v.rows,
                cols == v.cols,
                cmds == braille_frame_cmds(v, row as nat),
                current_color == last_color(v.colors, (row * v.cols) as nat),
                out@ == encode_all(cmds, braille_enc()),
        {
            write_move_to(&mut out, row + self.offset.0, self.offset.1);
            proof {
                let m = Cmd::MoveTo((v.row_off + row) as nat, v.col_off);
                lemma_encode_push(cmds, m, braille_enc());
                cmds = cmds.push(m);
            }
            let ghost row_start = cmds;
            assert(row_start + braille_row_cmds(v, row as nat, 0) =~= row_start);
            for col in 0..cols
                invariant
                    self@ == v,
                    v.wf(),
                        row < rows,
                    rows == v.rows,
                    cols == v.cols,
                    cmds == row_start + braille_row_cmds(v, row as nat, col as nat),
                    current_color == last_color(v.colors, (row * v.cols + col) as nat),
                    out@ == encode_all(cmds, braille_enc()),
            {
                proof {
                    lemma_cell_dots(v.rows, v.cols, row as nat, col as nat);
                }
                let ghost before = cmds;
                let ghost k = (row * v.cols + col) as nat;
                // write a colour sequence if the colour has changed in this cell
                let cell_color = self.colors[row * cols + col];
                if let Some(c) = cell_color {
                    if !same_color(cell_color, current_color) {
                        write_fg_color(&mut out, c);
                        current_color = Some(c);
                        proof {
                            lemma_encode_push(cmds, Cmd::Fg(c), braille_enc());
                            cmds = cmds.push(Cmd::Fg(c));
                        }
                    }
                }
                let byte = self.cell_pattern(row, col);
                let ch = if byte == 0 {
                    ' '
                } else {
                    char_from_u32(0x2800 + byte).unwrap()
                };
                push_char(&mut out, ch);
                proof {
                    lemma_encode_push(cmds, Cmd::Glyph(ch), braille_enc());
                    cmds = cmds.push(Cmd::Glyph(ch));
                    assert(cmds =~= before + braille_cell_cmds(v, row as nat, col as nat));
                    assert(cmds =~= row_start + braille_row_cmds(v, row as nat, (col + 1) as nat));
                    assert(row * v.cols + col + 1 == row * v.cols + (col + 1));
                }
            }
            proof {
                assert(cmds =~= braille_frame_cmds(v, (row + 1) as nat));
                assert((row + 1) * v.cols == row * v.cols + v.cols) by (nonlinear_arith);
            }
        }

        // clear to prepare the next render
        self.clear_buffer();

        out
    }
}

/// The foreground in effect when the cell at row-major index `k` has been
/// drawn, on a terminal whose foreground was `fg0` before the frame: the last
/// cell colour up to and including that cell, or `fg0` if there is none.
pub open spec fn fg_in_effect(v: BrailleView, k: nat, fg0: Option<Color>) -> Option<Color> {
    if last_color(v.colors, k) is Some {
        last_color(v.colors, k)
    } else {
        fg0
    }
}

/// The background of a frame on a terminal whose background was `bg0`: the
/// canvas's background if it has one, `bg0` otherwise.
pub open spec fn bg_in_effect(v: BrailleView, bg0: Option<Color>) -> Option<Color> {
    if v.bg is Some {
        v.bg
    } else {
        bg0
    }
}

/// What a frame shows in cell (`r`, `c`) on a terminal whose colours were
/// `fg0` and `bg0` before the frame.
pub open spec fn braille_expected_cell(
    v: BrailleView,
    r: int,
    c: int,
    fg0: Option<Color>,
    bg0: Option<Color>,
) -> Cell<Color> {
    Cell {
        glyph: braille_glyph(cell_byte(v, r, c)),
        fg: fg_in_effect(v, (r * v.cols + c + 1) as nat, fg0),
        bg: bg_in_effect(v, bg0),
    }
}

/// The terminal cells that a frame paints in row `r` among its first `n` cells.
pub open spec fn braille_row_painted(
    v: BrailleView,
    r: int,
    n: int,
    fg0: Option<Color>,
    bg0: Option<Color>,
) -> Map<(int, int), Cell<Color>> {
    Map::new(
        |pos: (int, int)| pos.0 == v.row_off + r && 0 <= pos.1 - v.col_off < n,
        |pos: (int, int)| braille_expected_cell(v, r, pos.1 - v.col_off, fg0, bg0),
    )
}

/// The terminal cells that a frame paints in its first `m` rows.
pub open spec fn braille_rows_painted(
    v: BrailleView,
    m: int,
    fg0: Option<Color>,
    bg0: Option<Color>,
) -> Map<(int, int), Cell<Color>> {
    Map::new(
        |pos: (int, int)| 0 <= pos.0 - v.row_off < m && 0 <= pos.1 - v.col_off < v.cols,
        |pos: (int, int)| braille_expected_cell(v, pos.0 - v.row_off, pos.1 - v.col_off, fg0, bg0),
    )
}

/// The terminal cells that a frame paints: every cell of the canvas.
pub open spec fn braille_painted(v: BrailleView, fg0: Option<Color>, bg0: Option<Color>) -> Map<
    (int, int),
    Cell<Color>,
> {
    braille_rows_painted(v, v.rows as int, fg0, bg0)
}

proof fn lemma_braille_cell(v: BrailleView, r: nat, c: nat, t: Term<Color>, fg0: Option<Color>, bg0: Option<Color>)
    requires
        t.fg == fg_in_effect(v, r * v.cols + c, fg0),
        t.bg == bg_in_effect(v, bg0),
        t.row == v.row_off + r,
        t.col == v.col_off + c,
    ensures
        ({
            let t2 = run(t, braille_cell_cmds(v, r, c));
            &&& t2.fg == fg_in_effect(v, r * v.cols + c + 1, fg0)
            &&& t2.bg == t.bg
            &&& t2.row == t.row
            &&& t2.col == t.col + 1
            &&& t2.screen == t.screen.insert(
                (t.row, t.col),
                braille_expected_cell(v, r as int, c as int, fg0, bg0),
            )
        }),
{
    let k = r * v.cols + c;
    let cc = v.colors[k as int];
    let fg: Seq<Cmd<Color>> = if cc is Some && cc != last_color(v.colors, k) {
        seq![Cmd::Fg(cc->0)]
    } else {
        Seq::empty()
    };
    let gl = seq![Cmd::Glyph(braille_glyph(cell_byte(v, r as int, c as int)))];
    lemma_run_append(t, fg, gl);
    if cc is Some && cc != last_color(v.colors, k) {
        lemma_run_one(t, Cmd::Fg(cc->0));
    }
    let t1 = run(t, fg);
    assert(t1.fg == fg_in_effect(v, k + 1, fg0));
    lemma_run_one(t1, Cmd::Glyph(braille_glyph(cell_byte(v, r as int, c as int))));
}

proof fn lemma_braille_row(v: BrailleView, r: nat, n: nat, t: Term<Color>, fg0: Option<Color>, bg0: Option<Color>)
    requires
        t.fg == fg_in_effect(v, r * v.cols, fg0),
        t.bg == bg_in_effect(v, bg0),
        t.row == v.row_off + r,
        t.col == v.col_off,
    ensures
        ({
            let t2 = run(t, braille_row_cmds(v, r, n));
            &&& t2.fg == fg_in_effect(v, r * v.cols + n, fg0)
            &&& t2.bg == t.bg
            &&& t2.row == t.row
            &&& t2.col == t.col + n
            &&& t2.screen == t.screen.union_prefer_right(braille_row_painted(v, r as int, n as int, fg0, bg0))
        }),
    decreases n,
{
    if n == 0 {
        assert(t.screen.union_prefer_right(braille_row_painted(v, r as int, 0, fg0, bg0)) =~= t.screen);
    } else {
        lemma_braille_row(v, r, (n - 1) as nat, t, fg0, bg0);
        let prev = braille_row_cmds(v, r, (n - 1) as nat);
        let t1 = run(t, prev);
        lemma_run_append(t, prev, braille_cell_cmds(v, r, (n - 1) as nat));
        lemma_braille_cell(v, r, (n - 1) as nat, t1, fg0, bg0);
        assert(t.screen.union_prefer_right(braille_row_painted(v, r as int, n as int, fg0, bg0))
            =~= t.screen.union_prefer_right(braille_row_painted(v, r as int, n - 1, fg0, bg0)).insert(
            (t1.row, t1.col),
            braille_expected_cell(v, r as int, n - 1, fg0, bg0),
        ));
    }
}

proof fn lemma_braille_frame(v: BrailleView, m: nat, t0: Term<Color>)
    ensures
        ({
            let t = run(t0, braille_frame_cmds(v, m));
            &&& t.fg == fg_in_effect(v, m * v.cols, t0.fg)
            &&& t.bg == bg_in_effect(v, t0.bg)
            &&& t.screen == t0.screen.union_prefer_right(braille_rows_painted(v, m as int, t0.fg, t0.bg))
        }),
    decreases m,
{
    if m == 0 {
        assert(0 * v.cols == 0);
        match v.bg {
            Some(b) => {
                lemma_run_one(t0, Cmd::Bg(b));
            },
            None => {},
        }
        assert(t0.screen.union_prefer_right(braille_rows_painted(v, 0, t0.fg, t0.bg)) =~= t0.screen);
    } else {
        lemma_braille_frame(v, (m - 1) as nat, t0);
        let prev = braille_frame_cmds(v, (m - 1) as nat);
        let t1 = run(t0, prev);
        let mv = seq![Cmd::MoveTo((v.row_off + m - 1) as nat, v.col_off)];
        let row = braille_row_cmds(v, (m - 1) as nat, v.cols);
        lemma_run_append(t0, prev + mv, row);
        lemma_run_append(t0, prev, mv);
        lemma_run_one(t1, Cmd::MoveTo((v.row_off + m - 1) as nat, v.col_off));
        let t2 = run(t0, prev + mv);
        lemma_braille_row(v, (m - 1) as nat, v.cols, t2, t0.fg, t0.bg);
        assert((m - 1) * v.cols + v.cols == m * v.cols) by (nonlinear_arith);
        assert(t0.screen.union_prefer_right(braille_rows_painted(v, m - 1, t0.fg, t0.bg)).union_prefer_right(
            braille_row_painted(v, m - 1, v.cols as int, t0.fg, t0.bg),
        ) =~= t0.screen.union_prefer_right(braille_rows_painted(v, m as int, t0.fg, t0.bg)));
    }
}

/// What a frame does to any terminal: every cell of the canvas is printed at
/// its terminal position with its braille character, in the last cell colour
/// drawn so far in the frame (the terminal's foreground before any), on the
/// canvas's background (the terminal's background where it has none); no
/// other cell of the terminal is written.
pub proof fn lemma_braille_render_paints_every_cell(v: BrailleView, t0: Term<Color>)
    ensures
        run(t0, braille_render_cmds(v)).screen == t0.screen.union_prefer_right(
            braille_painted(v, t0.fg, t0.bg),
        ),
{
    lemma_braille_frame(v, v.rows, t0);
}

/// Colour works last-wins per cell: a cell that has a colour is drawn in
/// that colour, whatever colours the terminal or the cells before it had.
pub proof fn lemma_braille_cell_in_its_color(
    v: BrailleView,
    r: int,
    c: int,
    fg0: Option<Color>,
    bg0: Option<Color>,
)
    requires
        0 <= r < v.rows,
        0 <= c < v.cols,
        v.cell_color(r, c) is Some,
    ensures
        braille_expected_cell(v, r, c, fg0, bg0).fg == v.cell_color(r, c),
{
    assert(0 <= r * v.cols) by (nonlinear_arith)
        requires
            0 <= r,
    ;
}

/// The bit of the braille pattern that stands for dot (`dx`, `dy`) of a cell
/// (`dx` in 0..2 from the left, `dy` in 0..4 from the top).
pub open spec fn dot_bit(dx: int, dy: int) -> nat {
    if dy == 3 {
        if dx == 0 { 64 } else { 128 }
    } else if dx == 0 {
        if dy == 0 { 1 } else if dy == 1 { 2 } else { 4 }
    } else {
        if dy == 0 { 8 } else if dy == 1 { 16 } else { 32 }
    }
}

proof fn lemma_pattern_bits(b0: bool, b1: bool, b2: bool, b3: bool, b4: bool, b5: bool, b6: bool, b7: bool)
    ensures
        ({
            let n: int = (if b0 { 1int } else { 0 }) + (if b3 { 8int } else { 0 }) + (if b1 { 2int } else { 0 })
                + (if b4 { 16int } else { 0 }) + (if b2 { 4int } else { 0 }) + (if b5 { 32int } else { 0 })
                + (if b6 { 64int } else { 0 }) + (if b7 { 128int } else { 0 });
            &&& n < 256
            &&& b0 <==> (n / 1) % 2 == 1
            &&& b1 <==> (n / 2) % 2 == 1
            &&& b2 <==> (n / 4) % 2 == 1
            &&& b3 <==> (n / 8) % 2 == 1
            &&& b4 <==> (n / 16) % 2 == 1
            &&& b5 <==> (n / 32) % 2 == 1
            &&& b6 <==> (n / 64) % 2 == 1
            &&& b7 <==> (n / 128) % 2 == 1
        }),
{
}

/// A cell's braille character shows exactly its set dots: its pattern is
/// below 256, and each dot is set if and only if its bit is set in the
/// pattern.
pub proof fn lemma_pattern_shows_dots(v: BrailleView, r: int, c: int, dx: int, dy: int)
    requires
        0 <= dx < 2,
        0 <= dy < 4,
    ensures
        cell_byte(v, r, c) < 256,
        v.dot(2 * c + dx, 4 * r + dy) <==> (cell_byte(v, r, c) / dot_bit(dx, dy)) % 2 == 1,
{
    let x = 2 * c;
    let y = 4 * r;
    lemma_pattern_bits(
        v.dot(x, y),
        v.dot(x, y + 1),
        v.dot(x, y + 2),
        v.dot(x + 1, y),
        v.dot(x + 1, y + 1),
        v.dot(x + 1, y + 2),
        v.dot(x, y + 3),
        v.dot(x + 1, y + 3),
    );
}

/// What a frame leaves in the terminal cell of canvas cell (`r`, `c`), stated
/// on the dots and colours themselves.  The cell is always printed: as a
/// space if none of its eight dots is set, otherwise as the braille character
/// U+2800 plus the sum of the bits of its set dots (left column, top to
/// bottom: 1, 2, 4, 64; right column: 8, 16, 32, 128).  A cell with a colour
/// is printed in that colour; the background is the canvas's where it has
/// one, the terminal's previous one otherwise.
pub proof fn lemma_braille_cell_on_screen(v: BrailleView, t0: Term<Color>, r: int, c: int)
    requires
        0 <= r < v.rows,
        0 <= c < v.cols,
    ensures
        ({
            let pos = (v.row_off + r, v.col_off + c);
            let w = 2 * v.cols;
            let n: int = (if v.dots[(4 * r) * w + 2 * c] { 1int } else { 0 }) + (if v.dots[(4 * r + 1)
                * w + 2 * c] { 2int } else { 0 }) + (if v.dots[(4 * r + 2) * w + 2 * c] {
                4int
            } else { 0 }) + (if v.dots[(4 * r + 3) * w + 2 * c] { 64int } else { 0 }) + (if v.dots[(4
                * r) * w + 2 * c + 1] { 8int } else { 0 }) + (if v.dots[(4 * r + 1) * w + 2 * c + 1] {
                16int
            } else { 0 }) + (if v.dots[(4 * r + 2) * w + 2 * c + 1] { 32int } else { 0 }) + (if v.dots[(
            4 * r + 3) * w + 2 * c + 1] { 128int } else { 0 });
            let screen = run(t0, braille_render_cmds(v)).screen;
            &&& screen.contains_key(pos)
            &&& n == 0 ==> screen[pos].glyph == ' '
            &&& n != 0 ==> screen[pos].glyph == (0x2800 + n) as char
            &&& v.colors[r * v.cols + c] is Some ==> screen[pos].fg == v.colors[r * v.cols + c]
            &&& v.bg is Some ==> screen[pos].bg == v.bg
            &&& v.bg is None ==> screen[pos].bg == t0.bg
        }),
{
    lemma_braille_render_paints_every_cell(v, t0);
    let pos = (v.row_off + r, v.col_off + c);
    assert(pos.0 - v.row_off == r && pos.1 - v.col_off == c);
    if v.colors[r * v.cols + c] is Some {
        lemma_braille_cell_in_its_color(v, r, c, t0.fg, t0.bg);
    }
}

} // verus!
