//! Building terminal text: characters appended to a `String`, and decimal numbers.
use vstd::prelude::*;

verus! {

/// Appends one character to a string.
///
/// Calls `String::push`, which, as std documents it, appends the given `char`
/// to the end of the string; the contract states exactly that.
#[verifier::external_body]
pub(crate) fn push_char(s: &mut String, c: char)
    ensures
        final(s)@ == old(s)@.push(c),
{
    s.push(c);
}

/// The character of a decimal digit `d` (for `d < 10`).
pub open spec fn digit_char(d: nat) -> char {
    if d == 0 { '0' }
    else if d == 1 { '1' }
    else if d == 2 { '2' }
    else if d == 3 { '3' }
    else if d == 4 { '4' }
    else if d == 5 { '5' }
    else if d == 6 { '6' }
    else if d == 7 { '7' }
    else if d == 8 { '8' }
    else { '9' }
}

/// The decimal representation of `n`, most significant digit first, without leading zeros.
pub open spec fn decimal(n: nat) -> Seq<char>
    decreases n,
{
    if n < 10 {
        seq![digit_char(n)]
    } else {
        decimal(n / 10).push(digit_char(n % 10))
    }
}

/// The number that a string of decimal digits stands for.
pub open spec fn digits_value(s: Seq<char>) -> int
    decreases s.len(),
{
    if s.len() == 0 {
        0
    } else {
        10 * digits_value(s.drop_last()) + (s.last() as int - 48)
    }
}

proof fn lemma_digit_char(d: nat)
    requires
        d < 10,
    ensures
        digit_char(d) as int == 48 + d,
{
}

/// `decimal(n)` is the decimal representation of `n`: a non-empty string of
/// the digits `'0'` to `'9'` (code points 48 to 57) that stands for `n`, with
/// no leading zero.
pub proof fn lemma_decimal_digits(n: nat)
    ensures
        decimal(n).len() > 0,
        forall|i: int| 0 <= i < decimal(n).len() ==> 48 <= #[trigger] (decimal(n)[i] as int) <= 57,
        digits_value(decimal(n)) == n,
        n > 0 ==> decimal(n)[0] != '0',
    decreases n,
{
    lemma_digit_char(n % 10);
    assert(decimal(n).last() == digit_char(n % 10));
    assert(digits_value(decimal(n)) == 10 * digits_value(decimal(n).drop_last()) + (
    decimal(n).last() as int - 48));
    if n < 10 {
        assert(decimal(n).drop_last() =~= Seq::<char>::empty());
        assert(digits_value(Seq::<char>::empty()) == 0);
    } else {
        lemma_decimal_digits(n / 10);
        let s = decimal(n / 10);
        assert(decimal(n).drop_last() =~= s);
        assert forall|i: int| 0 <= i < decimal(n).len() implies 48 <= #[trigger] (decimal(
            n,
        )[i] as int) <= 57 by {
            if i < s.len() {
                assert(decimal(n)[i] == s[i]);
            }
        }
    }
}

fn exec_digit_char(d: u64) -> (c: char)
    requires
        d < 10,
    ensures
        c == digit_char(d as nat),
{
    if d == 0 { '0' }
    else if d == 1 { '1' }
    else if d == 2 { '2' }
    else if d == 3 { '3' }
    else if d == 4 { '4' }
    else if d == 5 { '5' }
    else if d == 6 { '6' }
    else if d == 7 { '7' }
    else if d == 8 { '8' }
    else { '9' }
}

/// Appends the decimal representation of `n` to `s`.
pub(crate) fn push_decimal(s: &mut String, n: u64)
    ensures
        final(s)@ == old(s)@ + decimal(n as nat),
    decreases n,
{
    if n >= 10 {
        push_decimal(s, n / 10);
    }
    let d = exec_digit_char(n % 10);
    push_char(s, d);
    proof {
        if n < 10 {
            assert(decimal(n as nat) =~= seq![digit_char(n as nat)]);
        }
    }
    assert(s@ =~= old(s)@ + decimal(n as nat));
}

/// The control sequence introducer: escape followed by `[`.
pub open spec fn csi() -> Seq<char> {
    seq!['\x1b', '[']
}

/// A "select graphic rendition" sequence with the given parameters.
pub open spec fn sgr(params: Seq<char>) -> Seq<char> {
    csi() + params + seq!['m']
}

/// The parameters of a 24-bit colour: `lead`, then `;2;r;g;b`.
pub open spec fn truecolor_params(lead: Seq<char>, r: u8, g: u8, b: u8) -> Seq<char> {
    lead + seq![';', '2', ';'] + decimal(r as nat) + seq![';'] + decimal(g as nat) + seq![';']
        + decimal(b as nat)
}

/// The parameter that selects a 24-bit foreground colour.
pub open spec fn fg_lead() -> Seq<char> {
    seq!['3', '8']
}

/// The parameter that selects a 24-bit background colour.
pub open spec fn bg_lead() -> Seq<char> {
    seq!['4', '8']
}

/// The sequence that moves the cursor to the zero-based `row` and `col`
/// (the terminal counts from one).
pub open spec fn move_to_escape(row: nat, col: nat) -> Seq<char> {
    csi() + decimal(row + 1) + seq![';'] + decimal(col + 1) + seq!['H']
}

/// The sequence that restores the terminal's default foreground.
pub open spec fn fg_reset_escape() -> Seq<char> {
    sgr(seq!['3', '9'])
}

/// The sequence that restores the terminal's default background.
pub open spec fn bg_reset_escape() -> Seq<char> {
    sgr(seq!['4', '9'])
}

/// Appends the control sequence introducer.
pub(crate) fn push_csi(s: &mut String)
    ensures
        final(s)@ == old(s)@ + csi(),
{
    push_char(s, '\x1b');
    push_char(s, '[');
    assert(s@ =~= old(s)@ + csi());
}

/// Appends a 24-bit colour escape sequence; `foreground` selects between the
/// foreground (`38`) and the background (`48`) form.
pub(crate) fn push_truecolor(s: &mut String, foreground: bool, r: u8, g: u8, b: u8)
    ensures
        final(s)@ == old(s)@ + sgr(
            truecolor_params(if foreground { fg_lead() } else { bg_lead() }, r, g, b),
        ),
{
    push_csi(s);
    if foreground {
        push_char(s, '3');
    } else {
        push_char(s, '4');
    }
    push_char(s, '8');
    push_char(s, ';');
    push_char(s, '2');
    push_char(s, ';');
    push_decimal(s, r as u64);
    push_char(s, ';');
    push_decimal(s, g as u64);
    push_char(s, ';');
    push_decimal(s, b as u64);
    push_char(s, 'm');
    let ghost lead = if foreground { fg_lead() } else { bg_lead() };
    assert(s@ =~= old(s)@ + sgr(truecolor_params(lead, r, g, b)));
}

/// Appends a cursor movement to the zero-based `row` and `col`.
pub(crate) fn push_move_to(s: &mut String, row: usize, col: usize)
    requires
        row < usize::MAX,
        col < usize::MAX,
    ensures
        final(s)@ == old(s)@ + move_to_escape(row as nat, col as nat),
{
    push_csi(s);
    push_decimal(s, (row + 1) as u64);
    push_char(s, ';');
    push_decimal(s, (col + 1) as u64);
    push_char(s, 'H');
    assert(s@ =~= old(s)@ + move_to_escape(row as nat, col as nat));
}

/// Appends the default-foreground sequence.
pub(crate) fn push_fg_reset(s: &mut String)
    ensures
        final(s)@ == old(s)@ + fg_reset_escape(),
{
    push_csi(s);
    push_char(s, '3');
    push_char(s, '9');
    push_char(s, 'm');
    assert(s@ =~= old(s)@ + fg_reset_escape());
}

/// Appends the default-background sequence.
pub(crate) fn push_bg_reset(s: &mut String)
    ensures
        final(s)@ == old(s)@ + bg_reset_escape(),
{
    push_csi(s);
    push_char(s, '4');
    push_char(s, '9');
    push_char(s, 'm');
    assert(s@ =~= old(s)@ + bg_reset_escape());
}

/// Whether `i` is a Unicode scalar value: not above `0x10FFFF` and not a
/// surrogate.
pub open spec fn is_scalar(i: u32) -> bool {
    i <= 0xD7FF || (0xE000 <= i && i <= 0x10FFFF)
}

/// Converts a code point to a character.
///
/// Calls `char::from_u32`, which, as std documents it, returns the character
/// with the given code point where that is a Unicode scalar value, and `None`
/// otherwise; the contract states exactly that.
#[verifier::external_body]
pub(crate) fn char_from_u32(i: u32) -> (c: Option<char>)
    ensures
        is_scalar(i) ==> c == Some(i as char),
        !is_scalar(i) ==> c is None,
{
    char::from_u32(i)
}

} // verus!
