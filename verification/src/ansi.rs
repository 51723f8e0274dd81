//! Terminal colors and text styles, the ANSI escape sequences that select
//! them, and small byte-sequence helpers. The byte-level shape of every escape
//! sequence is stated as a spec function and the executable builders are
//! proved against it.

use vstd::prelude::*;

verus! {

/// The sixteen terminal foreground colors: eight standard and eight bright.
#[derive(Clone, Copy, Debug, PartialEq, Eq, Structural)]
pub enum Color {
    Black,
    Red,
    Green,
    Yellow,
    Blue,
    Magenta,
    Cyan,
    White,
    BrightBlack,
    BrightRed,
    BrightGreen,
    BrightYellow,
    BrightBlue,
    BrightMagenta,
    BrightCyan,
    BrightWhite,
}

/// Text styles; `Plain` adds no style code to the escape sequence.
#[derive(Clone, Copy, Debug, PartialEq, Eq, Structural)]
pub enum Style {
    Plain,
    Bold,
    Dim,
    Italic,
    Underline,
    Blink,
    Reversed,
    Hidden,
    Strikethrough,
}

/// The decimal digits of a color's SGR foreground parameter ("31" for red,
/// "90" for bright black, ...), as ASCII bytes.
pub open spec fn spec_color_code(c: Color) -> Seq<u8> {
    match c {
        Color::Black => seq![51u8, 48u8],
        Color::Red => seq![51u8, 49u8],
        Color::Green => seq![51u8, 50u8],
        Color::Yellow => seq![51u8, 51u8],
        Color::Blue => seq![51u8, 52u8],
        Color::Magenta => seq![51u8, 53u8],
        Color::Cyan => seq![51u8, 54u8],
        Color::White => seq![51u8, 55u8],
        Color::BrightBlack => seq![57u8, 48u8],
        Color::BrightRed => seq![57u8, 49u8],
        Color::BrightGreen => seq![57u8, 50u8],
        Color::BrightYellow => seq![57u8, 51u8],
        Color::BrightBlue => seq![57u8, 52u8],
        Color::BrightMagenta => seq![57u8, 53u8],
        Color::BrightCyan => seq![57u8, 54u8],
        Color::BrightWhite => seq![57u8, 55u8],
    }
}

/// The single decimal digit of a style's SGR parameter, as an ASCII byte;
/// `Plain` has none.
pub open spec fn spec_style_code(st: Style) -> Seq<u8> {
    match st {
        Style::Plain => seq![],
        Style::Bold => seq![49u8],
        Style::Dim => seq![50u8],
        Style::Italic => seq![51u8],
        Style::Underline => seq![52u8],
        Style::Blink => seq![53u8],
        Style::Reversed => seq![55u8],
        Style::Hidden => seq![56u8],
        Style::Strikethrough => seq![57u8],
    }
}

/// The escape sequence that turns a color and style on: `ESC [` then the style
/// digit and a `;` (omitted for `Plain`), the color digits, and `m`.
pub open spec fn spec_prefix(c: Color, st: Style) -> Seq<u8> {
    if st == Style::Plain {
        seq![27u8, 91u8] + spec_color_code(c) + seq![109u8]
    } else {
        seq![27u8, 91u8] + spec_style_code(st) + seq![59u8] + spec_color_code(c) + seq![109u8]
    }
}

/// The escape sequence that resets all styling: `ESC [ 0 m`.
pub open spec fn spec_reset() -> Seq<u8> {
    seq![27u8, 91u8, 48u8, 109u8]
}

/// A span of text wrapped in a color/style: prefix, the text, then reset.
pub open spec fn spec_wrap(c: Color, st: Style, text: Seq<u8>) -> Seq<u8> {
    spec_prefix(c, st) + text + spec_reset()
}

/// True when the sequence holds no escape byte.
pub open spec fn esc_free(s: Seq<u8>) -> bool {
    forall|i: int| 0 <= i < s.len() ==> s[i] != 27u8
}

/// The index of the first `b` in `s`, or `s.len()` when it has none.
pub open spec fn first_of(s: Seq<u8>, b: u8) -> int
    decreases s.len(),
{
    if s.len() == 0 {
        0
    } else if s[0] == b {
        0
    } else {
        1 + first_of(s.drop_first(), b)
    }
}

/// A position before which `b` does not stand, and which holds `b` or is the
/// end, is exactly `first_of`.
pub proof fn lemma_first_of_at(s: Seq<u8>, b: u8, i: int)
    requires
        0 <= i <= s.len(),
        forall|k: int| 0 <= k < i ==> s[k] != b,
        i < s.len() ==> s[i] == b,
    ensures
        first_of(s, b) == i,
    decreases s.len(),
{
    if i == 0 {
    } else {
        assert(s[0] != b);
        assert forall|k: int| 0 <= k < i - 1 implies s.drop_first()[k] != b by {
            assert(s.drop_first()[k] == s[k + 1]);
        }
        if i - 1 < s.drop_first().len() {
            assert(s.drop_first()[i - 1] == s[i]);
        }
        lemma_first_of_at(s.drop_first(), b, i - 1);
    }
}

/// Every color's SGR parameter is exactly two ASCII digits.
pub proof fn lemma_color_code_digits(c: Color)
    ensures
        spec_color_code(c).len() == 2,
        forall|k: int| 0 <= k < 2 ==> 48 <= #[trigger] spec_color_code(c)[k] <= 57,
{
    assert(spec_color_code(c)[0] == 51u8 || spec_color_code(c)[0] == 57u8);
    assert(48 <= spec_color_code(c)[1] <= 55);
}

/// Every style's SGR parameter is at most one ASCII digit.
pub proof fn lemma_style_code_digits(st: Style)
    ensures
        spec_style_code(st).len() <= 1,
        forall|k: int| 0 <= k < spec_style_code(st).len() ==> 49 <= #[trigger] spec_style_code(
            st,
        )[k] <= 57,
{
}

/// The styling prefix starts with the escape byte, ends with `m`, and holds no
/// other `m`; the reset sequence has the same shape.
pub proof fn lemma_prefix_shape(c: Color, st: Style)
    ensures
        spec_prefix(c, st).len() >= 3,
        spec_prefix(c, st)[0] == 27u8,
        spec_prefix(c, st)[spec_prefix(c, st).len() - 1] == 109u8,
        forall|k: int|
            0 <= k < spec_prefix(c, st).len() - 1 ==> #[trigger] spec_prefix(c, st)[k] != 109u8,
{
    lemma_color_code_digits(c);
    lemma_style_code_digits(st);
    let p = spec_prefix(c, st);
    if st == Style::Plain {
        assert(p.len() == 5);
        assert forall|k: int| 0 <= k < p.len() - 1 implies #[trigger] p[k] != 109u8 by {
            if k >= 2 {
                assert(p[k] == spec_color_code(c)[k - 2]);
            }
        }
    } else {
        assert(spec_style_code(st).len() == 1);
        assert(p.len() == 7);
        assert forall|k: int| 0 <= k < p.len() - 1 implies #[trigger] p[k] != 109u8 by {
            if k == 2 {
                assert(p[k] == spec_style_code(st)[0]);
            }
            if k >= 4 {
                assert(p[k] == spec_color_code(c)[k - 4]);
            }
        }
    }
}

/// Appends `src[from..to]` to `dst`.
pub(crate) fn push_range(dst: &mut Vec<u8>, src: &Vec<u8>, from: usize, to: usize)
    requires
        from <= to <= old(dst)@.len() + src@.len(),
        from <= to <= src@.len(),
    ensures
        final(dst)@ == old(dst)@ + src@.subrange(from as int, to as int),
{
    let mut i: usize = from;
    while i < to
        invariant
            from <= i <= to <= src@.len(),
            dst@ == old(dst)@ + src@.subrange(from as int, i as int),
        decreases to - i,
    {
        dst.push(src[i]);
        proof {
            assert(old(dst)@ + src@.subrange(from as int, i + 1 as int) =~= (old(dst)@
                + src@.subrange(from as int, i as int)).push(src@[i as int]));
        }
        i = i + 1;
    }
    proof {
        assert(dst@ =~= old(dst)@ + src@.subrange(from as int, to as int));
    }
}

/// Appends the two ASCII digits of the color's SGR parameter.
pub(crate) fn push_color_code(out: &mut Vec<u8>, c: Color)
    ensures
        final(out)@ == old(out)@ + spec_color_code(c),
{
    let (a, b): (u8, u8) = match c {
        Color::Black => (51, 48),
        Color::Red => (51, 49),
        Color::Green => (51, 50),
        Color::Yellow => (51, 51),
        Color::Blue => (51, 52),
        Color::Magenta => (51, 53),
        Color::Cyan => (51, 54),
        Color::White => (51, 55),
        Color::BrightBlack => (57, 48),
        Color::BrightRed => (57, 49),
        Color::BrightGreen => (57, 50),
        Color::BrightYellow => (57, 51),
        Color::BrightBlue => (57, 52),
        Color::BrightMagenta => (57, 53),
        Color::BrightCyan => (57, 54),
        Color::BrightWhite => (57, 55),
    };
    out.push(a);
    out.push(b);
    proof {
        assert(out@ =~= old(out)@ + spec_color_code(c));
    }
}

/// Appends the escape sequence that turns the color and style on.
pub(crate) fn push_prefix(out: &mut Vec<u8>, c: Color, st: Style)
    ensures
        final(out)@ == old(out)@ + spec_prefix(c, st),
{
    out.push(27);
    out.push(91);
    match st {
        Style::Plain => {},
        Style::Bold => out.push(49),
        Style::Dim => out.push(50),
        Style::Italic => out.push(51),
        Style::Underline => out.push(52),
        Style::Blink => out.push(53),
        Style::Reversed => out.push(55),
        Style::Hidden => out.push(56),
        Style::Strikethrough => out.push(57),
    }
    if !matches!(st, Style::Plain) {
        out.push(59);
    }
    push_color_code(out, c);
    out.push(109);
    proof {
        assert(out@ =~= old(out)@ + spec_prefix(c, st));
    }
}

/// Appends the escape sequence that resets all styling.
pub(crate) fn push_reset(out: &mut Vec<u8>)
    ensures
        final(out)@ == old(out)@ + spec_reset(),
{
    out.push(27);
    out.push(91);
    out.push(48);
    out.push(109);
    proof {
        assert(out@ =~= old(out)@ + spec_reset());
    }
}

} // verus!
