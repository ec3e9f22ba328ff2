use vstd::prelude::*;
use crate::image_data::Color;

verus! {

/// The two averaged colors one character cell shows: `top` becomes the cell
/// background, `bot` the ink of the lower-half-block glyph.
#[derive(Clone, Copy, Debug, PartialEq, Eq, Structural)]
pub struct CellColors {
    pub top: Color,
    pub bot: Color,
}

/// The decimal digit character for `d`.
pub open spec fn digit_char(d: int) -> char {
    if d == 0 {
        '0'
    } else if d == 1 {
        '1'
    } else if d == 2 {
        '2'
    } else if d == 3 {
        '3'
    } else if d == 4 {
        '4'
    } else if d == 5 {
        '5'
    } else if d == 6 {
        '6'
    } else if d == 7 {
        '7'
    } else if d == 8 {
        '8'
    } else {
        '9'
    }
}

/// The decimal digits of `n`, most significant first.
pub open spec fn dec_digits(n: int) -> Seq<char>
    decreases n,
{
    if n < 10 {
        seq![digit_char(n)]
    } else {
        dec_digits(n / 10).push(digit_char(n % 10))
    }
}

/// Start of the truecolor background escape.
pub open spec fn bg_prefix() -> Seq<char> {
    seq!['\u{1b}', '[', '4', '8', ';', '2', ';']
}

/// Start of the truecolor foreground escape.
pub open spec fn fg_prefix() -> Seq<char> {
    seq!['\u{1b}', '[', '3', '8', ';', '2', ';']
}

/// Style reset plus line break, closing a rendered row.
pub open spec fn reset_newline() -> Seq<char> {
    seq!['\u{1b}', '[', '0', 'm', '\n']
}

/// One styled cell: set the background to `top`, the foreground to `bot`,
/// then emit the lower-half-block glyph.
pub open spec fn cell_chars(top: Color, bot: Color) -> Seq<char> {
    bg_prefix() + dec_digits(top.r as int) + seq![';'] + dec_digits(top.g as int) + seq![';']
        + dec_digits(top.b as int) + seq!['m'] + fg_prefix() + dec_digits(bot.r as int) + seq![';']
        + dec_digits(bot.g as int) + seq![';'] + dec_digits(bot.b as int) + seq!['m', '\u{2584}']
}

/// The encoding of a row's cells, left to right.
pub open spec fn cells_chars(row: Seq<CellColors>) -> Seq<char>
    decreases row.len(),
{
    if row.len() == 0 {
        Seq::empty()
    } else {
        cells_chars(row.drop_last()) + cell_chars(row.last().top, row.last().bot)
    }
}

/// A full encoded row: its cells, then the reset and the line break.
pub open spec fn row_chars(row: Seq<CellColors>) -> Seq<char> {
    cells_chars(row) + reset_newline()
}

/// The encoding of a whole buffer of rows, top to bottom.
pub open spec fn buffer_chars(buf: Seq<Seq<CellColors>>) -> Seq<char>
    decreases buf.len(),
{
    if buf.len() == 0 {
        Seq::empty()
    } else {
        buffer_chars(buf.drop_last()) + row_chars(buf.last())
    }
}

/// How often `c` occurs in `s`.
pub open spec fn count_char(s: Seq<char>, c: char) -> int
    decreases s.len(),
{
    if s.len() == 0 {
        0
    } else {
        count_char(s.drop_last(), c) + if s.last() == c {
            1int
        } else {
            0
        }
    }
}

/// Occurrences add up over concatenation.
proof fn lemma_count_char_concat(a: Seq<char>, b: Seq<char>, c: char)
    ensures
        count_char(a + b, c) == count_char(a, c) + count_char(b, c),
    decreases b.len(),
{
    if b.len() == 0 {
        assert(a + b =~= a);
    } else {
        lemma_count_char_concat(a, b.drop_last(), c);
        assert((a + b).drop_last() =~= a + b.drop_last());
        assert((a + b).last() == b.last());
    }
}

/// Every decimal digit character is a digit.
proof fn lemma_digit_char_is_digit(d: int)
    ensures
        48 <= digit_char(d) as u32 <= 57,
{
}

/// A decimal number's digits hold no occurrence of a non-digit character.
proof fn lemma_dec_digits_no_other(n: int, c: char)
    requires
        !(48 <= c as u32 <= 57),
    ensures
        count_char(dec_digits(n), c) == 0,
    decreases n,
{
    lemma_digit_char_is_digit(if n < 10 {
        n
    } else {
        n % 10
    });
    if n < 10 {
        assert(dec_digits(n) == seq![digit_char(n)]);
        assert(dec_digits(n).last() == digit_char(n));
        assert(digit_char(n) != c);
        assert(dec_digits(n).drop_last() =~= Seq::<char>::empty());
        assert(count_char(dec_digits(n), c) == count_char(Seq::<char>::empty(), c));
        assert(count_char(Seq::<char>::empty(), c) == 0);
    } else {
        lemma_dec_digits_no_other(n / 10, c);
        lemma_digit_char_is_digit(n % 10);
        assert(dec_digits(n) == dec_digits(n / 10).push(digit_char(n % 10)));
        assert(dec_digits(n).last() == digit_char(n % 10));
        assert(digit_char(n % 10) != c);
        assert(dec_digits(n).drop_last() =~= dec_digits(n / 10));
        assert(count_char(dec_digits(n), c) == count_char(dec_digits(n / 10), c));
    }
}

/// One cell's encoding holds no line break and exactly one half-block glyph.
proof fn lemma_cell_chars_counts(top: Color, bot: Color)
    ensures
        count_char(cell_chars(top, bot), '\n') == 0,
        count_char(cell_chars(top, bot), '\u{2584}') == 1,
{
    reveal_with_fuel(count_char, 9);
    lemma_dec_digits_no_other(top.r as int, '\n');
    lemma_dec_digits_no_other(top.g as int, '\n');
    lemma_dec_digits_no_other(top.b as int, '\n');
    lemma_dec_digits_no_other(bot.r as int, '\n');
    lemma_dec_digits_no_other(bot.g as int, '\n');
    lemma_dec_digits_no_other(bot.b as int, '\n');
    lemma_dec_digits_no_other(top.r as int, '\u{2584}');
    lemma_dec_digits_no_other(top.g as int, '\u{2584}');
    lemma_dec_digits_no_other(top.b as int, '\u{2584}');
    lemma_dec_digits_no_other(bot.r as int, '\u{2584}');
    lemma_dec_digits_no_other(bot.g as int, '\u{2584}');
    lemma_dec_digits_no_other(bot.b as int, '\u{2584}');
    assert(count_char(bg_prefix(), '\n') == 0);
    assert(count_char(fg_prefix(), '\n') == 0);
    assert(count_char(seq![';'], '\n') == 0);
    assert(count_char(seq!['m'], '\n') == 0);
    assert(count_char(seq!['m', '\u{2584}'], '\n') == 0);
    assert(count_char(bg_prefix(), '\u{2584}') == 0);
    assert(count_char(fg_prefix(), '\u{2584}') == 0);
    assert(count_char(seq![';'], '\u{2584}') == 0);
    assert(count_char(seq!['m'], '\u{2584}') == 0);
    assert(count_char(seq!['m', '\u{2584}'], '\u{2584}') == 1);
    lemma_cell_concat_counts(top, bot, '\n');
    lemma_cell_concat_counts(top, bot, '\u{2584}');
}

/// Splits a cell encoding's occurrence count over its thirteen pieces.
proof fn lemma_cell_concat_counts(top: Color, bot: Color, c: char)
    ensures
        count_char(cell_chars(top, bot), c) == count_char(bg_prefix(), c) + count_char(
            dec_digits(top.r as int),
            c,
        ) + count_char(seq![';'], c) + count_char(dec_digits(top.g as int), c) + count_char(
            seq![';'],
            c,
        ) + count_char(dec_digits(top.b as int), c) + count_char(seq!['m'], c) + count_char(
            fg_prefix(),
            c,
        ) + count_char(dec_digits(bot.r as int), c) + count_char(seq![';'], c) + count_char(
            dec_digits(bot.g as int),
            c,
        ) + count_char(seq![';'], c) + count_char(dec_digits(bot.b as int), c) + count_char(
            seq!['m', '\u{2584}'],
            c,
        ),
{
    let p1 = bg_prefix();
    let p2 = p1 + dec_digits(top.r as int);
    let p3 = p2 + seq![';'];
    let p4 = p3 + dec_digits(top.g as int);
    let p5 = p4 + seq![';'];
    let p6 = p5 + dec_digits(top.b as int);
    let p7 = p6 + seq!['m'];
    let p8 = p7 + fg_prefix();
    let p9 = p8 + dec_digits(bot.r as int);
    let p10 = p9 + seq![';'];
    let p11 = p10 + dec_digits(bot.g as int);
    let p12 = p11 + seq![';'];
    let p13 = p12 + dec_digits(bot.b as int);
    lemma_count_char_concat(p1, dec_digits(top.r as int), c);
    lemma_count_char_concat(p2, seq![';'], c);
    lemma_count_char_concat(p3, dec_digits(top.g as int), c);
    lemma_count_char_concat(p4, seq![';'], c);
    lemma_count_char_concat(p5, dec_digits(top.b as int), c);
    lemma_count_char_concat(p6, seq!['m'], c);
    lemma_count_char_concat(p7, fg_prefix(), c);
    lemma_count_char_concat(p8, dec_digits(bot.r as int), c);
    lemma_count_char_concat(p9, seq![';'], c);
    lemma_count_char_concat(p10, dec_digits(bot.g as int), c);
    lemma_count_char_concat(p11, seq![';'], c);
    lemma_count_char_concat(p12, dec_digits(bot.b as int), c);
    lemma_count_char_concat(p13, seq!['m', '\u{2584}'], c);
}

/// One encoded row ends in exactly one line break and shows exactly one
/// half-block glyph per cell.
pub proof fn lemma_row_chars_counts(row: Seq<CellColors>)
    ensures
        count_char(row_chars(row), '\n') == 1,
        count_char(row_chars(row), '\u{2584}') == row.len(),
    decreases row.len(),
{
    reveal_with_fuel(count_char, 6);
    assert(count_char(reset_newline(), '\n') == 1);
    assert(count_char(reset_newline(), '\u{2584}') == 0);
    lemma_cells_chars_counts(row);
    lemma_count_char_concat(cells_chars(row), reset_newline(), '\n');
    lemma_count_char_concat(cells_chars(row), reset_newline(), '\u{2584}');
}

/// A row's cells alone hold no line break and one glyph per cell.
proof fn lemma_cells_chars_counts(row: Seq<CellColors>)
    ensures
        count_char(cells_chars(row), '\n') == 0,
        count_char(cells_chars(row), '\u{2584}') == row.len(),
    decreases row.len(),
{
    if row.len() > 0 {
        lemma_cells_chars_counts(row.drop_last());
        lemma_cell_chars_counts(row.last().top, row.last().bot);
        lemma_count_char_concat(
            cells_chars(row.drop_last()),
            cell_chars(row.last().top, row.last().bot),
            '\n',
        );
        lemma_count_char_concat(
            cells_chars(row.drop_last()),
            cell_chars(row.last().top, row.last().bot),
            '\u{2584}',
        );
    }
}

/// The whole encoded buffer holds one line break per row, and as many glyphs
/// as the rows hold cells.
pub proof fn lemma_buffer_chars_counts(buf: Seq<Seq<CellColors>>)
    ensures
        count_char(buffer_chars(buf), '\n') == buf.len(),
        count_char(buffer_chars(buf), '\u{2584}') == cell_total(buf),
    decreases buf.len(),
{
    if buf.len() > 0 {
        lemma_buffer_chars_counts(buf.drop_last());
        lemma_row_chars_counts(buf.last());
        lemma_count_char_concat(buffer_chars(buf.drop_last()), row_chars(buf.last()), '\n');
        lemma_count_char_concat(buffer_chars(buf.drop_last()), row_chars(buf.last()), '\u{2584}');
    }
}

/// How many cells the buffer's rows hold together.
pub open spec fn cell_total(buf: Seq<Seq<CellColors>>) -> int
    decreases buf.len(),
{
    if buf.len() == 0 {
        0
    } else {
        cell_total(buf.drop_last()) + buf.last().len()
    }
}

/// When every row holds `w` cells, the buffer holds `len * w` cells.
pub proof fn lemma_cell_total_uniform(buf: Seq<Seq<CellColors>>, w: int)
    requires
        forall|i: int| 0 <= i < buf.len() ==> #[trigger] buf[i].len() == w,
    ensures
        cell_total(buf) == buf.len() * w,
    decreases buf.len(),
{
    if buf.len() == 0 {
        assert(0int * w == 0) by (nonlinear_arith);
    } else {
        lemma_cell_total_uniform(buf.drop_last(), w);
        assert(buf.last().len() == w);
        assert(buf.len() * w == (buf.len() - 1) * w + w) by (nonlinear_arith);
    }
}

/// Appends one decimal digit.
fn push_digit(out: &mut String, d: u8)
    requires
        d < 10,
    ensures
        final(out)@ == old(out)@.push(digit_char(d as int)),
{
    let s: &str = if d == 0 {
        "0"
    } else if d == 1 {
        "1"
    } else if d == 2 {
        "2"
    } else if d == 3 {
        "3"
    } else if d == 4 {
        "4"
    } else if d == 5 {
        "5"
    } else if d == 6 {
        "6"
    } else if d == 7 {
        "7"
    } else if d == 8 {
        "8"
    } else {
        "9"
    };
    proof {
        reveal_strlit("0");
        reveal_strlit("1");
        reveal_strlit("2");
        reveal_strlit("3");
        reveal_strlit("4");
        reveal_strlit("5");
        reveal_strlit("6");
        reveal_strlit("7");
        reveal_strlit("8");
        reveal_strlit("9");
    }
    out.append(s);
    proof {
        assert(out@ =~= old(out)@.push(digit_char(d as int)));
    }
}

/// Appends the decimal form of `n`.
fn push_u8_decimal(out: &mut String, n: u8)
    ensures
        final(out)@ == old(out)@ + dec_digits(n as int),
{
    if n >= 100 {
        push_digit(out, n / 100);
        push_digit(out, (n / 10) % 10);
        push_digit(out, n % 10);
        proof {
            assert(dec_digits(n as int) == dec_digits(n as int / 10).push(digit_char(
                n as int % 10,
            )));
            assert(n as int / 10 == (n / 10) as int);
            assert(dec_digits((n / 10) as int) == dec_digits((n / 10) as int / 10).push(digit_char(
                (n / 10) as int % 10,
            )));
            assert((n / 10) as int / 10 == (n / 100) as int);
            assert(out@ =~= old(out)@ + dec_digits(n as int));
        }
    } else if n >= 10 {
        push_digit(out, n / 10);
        push_digit(out, n % 10);
        proof {
            assert(dec_digits(n as int) == dec_digits(n as int / 10).push(digit_char(
                n as int % 10,
            )));
            assert(out@ =~= old(out)@ + dec_digits(n as int));
        }
    } else {
        push_digit(out, n);
        proof {
            assert(out@ =~= old(out)@ + dec_digits(n as int));
        }
    }
}

/// Appends the escape codes and the glyph for one cell: background `top`,
/// foreground `bot`, lower half block.
#[verifier::rlimit(50)]
pub fn composite(out: &mut String, top: Color, bot: Color)
    ensures
        final(out)@ == old(out)@ + cell_chars(top, bot),
{
    proof {
        reveal_strlit("\u{1b}[48;2;");
        reveal_strlit("m\u{1b}[38;2;");
        reveal_strlit(";");
        reveal_strlit("m\u{2584}");
    }
    out.append("\u{1b}[48;2;");
    push_u8_decimal(out, top.r);
    out.append(";");
    push_u8_decimal(out, top.g);
    out.append(";");
    push_u8_decimal(out, top.b);
    out.append("m\u{1b}[38;2;");
    push_u8_decimal(out, bot.r);
    out.append(";");
    push_u8_decimal(out, bot.g);
    out.append(";");
    push_u8_decimal(out, bot.b);
    out.append("m\u{2584}");
    proof {
        assert(out@ =~= old(out)@ + cell_chars(top, bot));
    }
}

/// Encodes a whole buffer of cell rows into one text block, each row closed
/// by a style reset and a line break.
pub fn encode_buffer(cells: &Vec<Vec<CellColors>>) -> (s: String)
    ensures
        s@ == buffer_chars(cells@.map_values(|row: Vec<CellColors>| row@)),
{
    let ghost bs: Seq<Seq<CellColors>> = cells@.map_values(|row: Vec<CellColors>| row@);
    let mut out = String::new();
    let mut yi: usize = 0;
    while yi < cells.len()
        invariant
            yi <= cells@.len(),
            bs == cells@.map_values(|row: Vec<CellColors>| row@),
            out@ == buffer_chars(bs.subrange(0, yi as int)),
        decreases cells@.len() - yi,
    {
        let row: &Vec<CellColors> = &cells[yi];
        let mut xi: usize = 0;
        while xi < row.len()
            invariant
                xi <= row@.len(),
                yi < cells@.len(),
                bs == cells@.map_values(|r: Vec<CellColors>| r@),
                row@ == bs[yi as int],
                out@ == buffer_chars(bs.subrange(0, yi as int)) + cells_chars(
                    row@.subrange(0, xi as int),
                ),
            decreases row@.len() - xi,
        {
            let c = row[xi];
            composite(&mut out, c.top, c.bot);
            proof {
                assert(row@.subrange(0, xi + 1).drop_last() =~= row@.subrange(0, xi as int));
                assert(row@.subrange(0, xi + 1).last() == row@[xi as int]);
                assert(out@ =~= buffer_chars(bs.subrange(0, yi as int)) + cells_chars(
                    row@.subrange(0, xi + 1),
                ));
            }
            xi = xi + 1;
        }
        finalize_row(&mut out);
        proof {
            assert(row@.subrange(0, row@.len() as int) =~= row@);
            assert(bs.subrange(0, yi + 1).drop_last() =~= bs.subrange(0, yi as int));
            assert(bs.subrange(0, yi + 1).last() == bs[yi as int]);
            assert(out@ =~= buffer_chars(bs.subrange(0, yi + 1)));
        }
        yi = yi + 1;
    }
    proof {
        assert(bs.subrange(0, bs.len() as int) =~= bs);
    }
    out
}

/// Appends the row terminator: style reset and line break.
pub fn finalize_row(out: &mut String)
    ensures
        final(out)@ == old(out)@ + reset_newline(),
{
    proof {
        reveal_strlit("\u{1b}[0m\n");
    }
    out.append("\u{1b}[0m\n");
    proof {
        assert(out@ =~= old(out)@ + reset_newline());
    }
}

} // verus!
