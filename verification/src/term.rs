//! A model of the terminal that rendered text drives: a cursor, a current
//! foreground and background, and the cells written so far.  Renderers are
//! specified as sequences of commands, each of which has a textual encoding;
//! running the commands on the model says what a frame paints.
use vstd::prelude::*;

verus! {

/// One action that a rendered frame asks of the terminal.
pub enum Cmd<C> {
    /// Move the cursor to a zero-based row and column.
    MoveTo(nat, nat),
    /// Select a foreground colour.
    Fg(C),
    /// Restore the terminal's default foreground.
    FgReset,
    /// Select a background colour.
    Bg(C),
    /// Restore the terminal's default background.
    BgReset,
    /// Print a character at the cursor and advance the cursor by one column.
    Glyph(char),
}

/// What one screen cell shows: a character and the colours it was printed
/// with (`None` standing for the terminal's default).
pub struct Cell<C> {
    pub glyph: char,
    pub fg: Option<C>,
    pub bg: Option<C>,
}

/// The state of the terminal model.
pub struct Term<C> {
    pub row: int,
    pub col: int,
    pub fg: Option<C>,
    pub bg: Option<C>,
    pub screen: Map<(int, int), Cell<C>>,
}

/// The effect of one command.
pub open spec fn apply<C>(t: Term<C>, cmd: Cmd<C>) -> Term<C> {
    match cmd {
        Cmd::MoveTo(r, c) => Term { row: r as int, col: c as int, ..t },
        Cmd::Fg(x) => Term { fg: Some(x), ..t },
        Cmd::FgReset => Term { fg: None, ..t },
        Cmd::Bg(x) => Term { bg: Some(x), ..t },
        Cmd::BgReset => Term { bg: None, ..t },
        Cmd::Glyph(ch) => Term {
            col: t.col + 1,
            screen: t.screen.insert((t.row, t.col), Cell { glyph: ch, fg: t.fg, bg: t.bg }),
            ..t
        },
    }
}

/// The effect of a sequence of commands, applied in order.
pub open spec fn run<C>(t: Term<C>, cmds: Seq<Cmd<C>>) -> Term<C>
    decreases cmds.len(),
{
    if cmds.len() == 0 {
        t
    } else {
        apply(run(t, cmds.drop_last()), cmds.last())
    }
}

/// The text of a sequence of commands, given the text of each.
pub open spec fn encode_all<C>(cmds: Seq<Cmd<C>>, enc: spec_fn(Cmd<C>) -> Seq<char>) -> Seq<char>
    decreases cmds.len(),
{
    if cmds.len() == 0 {
        Seq::empty()
    } else {
        encode_all(cmds.drop_last(), enc) + enc(cmds.last())
    }
}

/// Running `a` then `b` is running `a + b`.
pub proof fn lemma_run_append<C>(t: Term<C>, a: Seq<Cmd<C>>, b: Seq<Cmd<C>>)
    ensures
        run(t, a + b) == run(run(t, a), b),
    decreases b.len(),
{
    if b.len() == 0 {
        assert(a + b =~= a);
    } else {
        lemma_run_append(t, a, b.drop_last());
        assert((a + b).drop_last() =~= a + b.drop_last());
        assert((a + b).last() == b.last());
    }
}

/// The text of `a + b` is the text of `a` followed by the text of `b`.
pub proof fn lemma_encode_append<C>(
    a: Seq<Cmd<C>>,
    b: Seq<Cmd<C>>,
    enc: spec_fn(Cmd<C>) -> Seq<char>,
)
    ensures
        encode_all(a + b, enc) == encode_all(a, enc) + encode_all(b, enc),
    decreases b.len(),
{
    if b.len() == 0 {
        assert(a + b =~= a);
        assert(encode_all(a, enc) + encode_all(b, enc) =~= encode_all(a, enc));
    } else {
        lemma_encode_append(a, b.drop_last(), enc);
        assert((a + b).drop_last() =~= a + b.drop_last());
        assert((a + b).last() == b.last());
        assert(encode_all(a + b, enc) =~= encode_all(a, enc) + encode_all(b, enc));
    }
}

/// Appending one command appends its text.
pub proof fn lemma_encode_push<C>(a: Seq<Cmd<C>>, c: Cmd<C>, enc: spec_fn(Cmd<C>) -> Seq<char>)
    ensures
        encode_all(a.push(c), enc) == encode_all(a, enc) + enc(c),
{
    assert(a.push(c).drop_last() =~= a);
}

/// The pen state while a frame is rendered: the colours the terminal was
/// last given, and whether a cell was skipped since the last cursor movement.
pub struct Pen<C> {
    pub fg: Option<C>,
    pub bg: Option<C>,
    pub skipping: bool,
}

/// The commands that bring the terminal's foreground from `cur` to `want`:
/// none where it is already `want`.
pub open spec fn fg_cmds<C>(cur: Option<C>, want: Option<C>) -> Seq<Cmd<C>> {
    match want {
        Some(x) => if cur != Some(x) { seq![Cmd::Fg(x)] } else { Seq::empty() },
        None => if cur is Some { seq![Cmd::FgReset] } else { Seq::empty() },
    }
}

/// The commands that bring the terminal's background from `cur` to `want`:
/// none where it is already `want`.
pub open spec fn bg_cmds<C>(cur: Option<C>, want: Option<C>) -> Seq<Cmd<C>> {
    match want {
        Some(x) => if cur != Some(x) { seq![Cmd::Bg(x)] } else { Seq::empty() },
        None => if cur is Some { seq![Cmd::BgReset] } else { Seq::empty() },
    }
}

/// Running a single command applies it.
pub proof fn lemma_run_one<C>(t: Term<C>, c: Cmd<C>)
    ensures
        run(t, seq![c]) == apply(t, c),
{
    assert(seq![c].drop_last() =~= Seq::<Cmd<C>>::empty());
    assert(run(t, Seq::<Cmd<C>>::empty()) == t);
    assert(seq![c].last() == c);
}

/// Bringing the foreground to `want` changes nothing else.
pub proof fn lemma_run_fg<C>(t: Term<C>, want: Option<C>)
    ensures
        run(t, fg_cmds(t.fg, want)) == (Term { fg: want, ..t }),
{
    match want {
        Some(x) => {
            if t.fg != Some(x) {
                lemma_run_one(t, Cmd::Fg(x));
            }
        },
        None => {
            if t.fg is Some {
                lemma_run_one(t, Cmd::FgReset);
            }
        },
    }
}

/// Bringing the background to `want` changes nothing else.
pub proof fn lemma_run_bg<C>(t: Term<C>, want: Option<C>)
    ensures
        run(t, bg_cmds(t.bg, want)) == (Term { bg: want, ..t }),
{
    match want {
        Some(x) => {
            if t.bg != Some(x) {
                lemma_run_one(t, Cmd::Bg(x));
            }
        },
        None => {
            if t.bg is Some {
                lemma_run_one(t, Cmd::BgReset);
            }
        },
    }
}

} // verus!
