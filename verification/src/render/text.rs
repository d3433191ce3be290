//! Laying out the text a frame is built from.

use vstd::prelude::*;

use crate::numerals::{push_char, push_repeated, repeat};

verus! {

/// How many rows a block character is drawn in.
pub const GLYPH_HEIGHT: usize = 9;

/// How many columns a block character is drawn in.
pub const GLYPH_WIDTH: usize = 9;

/// The character that fills a drawn cell.
pub open spec fn block() -> char {
    '\u{2588}'
}

/// The rows of the glyph for `c`, each a mask of the nine cells from left
/// (`0b1_0000_0000`) to right (`0b1`); blank for a character with no glyph.
pub open spec fn glyph_rows(c: char) -> Seq<u16> {
    match c {
        '0' => seq![0b001111100u16, 0b011000110u16, 0b110000011u16, 0b110000011u16, 0b110000011u16, 0b110000011u16, 0b110000011u16, 0b011000110u16, 0b001111100u16],
        '1' => seq![0b000011000u16, 0b001111000u16, 0b000011000u16, 0b000011000u16, 0b000011000u16, 0b000011000u16, 0b000011000u16, 0b000011000u16, 0b011111110u16],
        '2' => seq![0b011111100u16, 0b110000110u16, 0b000000110u16, 0b000001100u16, 0b000111000u16, 0b011000000u16, 0b110000000u16, 0b110000000u16, 0b111111110u16],
        '3' => seq![0b111111100u16, 0b000000110u16, 0b000000110u16, 0b000111100u16, 0b000000110u16, 0b000000110u16, 0b000000110u16, 0b000000110u16, 0b111111100u16],
        '4' => seq![0b110000110u16, 0b110000110u16, 0b110000110u16, 0b110000110u16, 0b111111110u16, 0b000000110u16, 0b000000110u16, 0b000000110u16, 0b000000110u16],
        '5' => seq![0b111111110u16, 0b110000000u16, 0b110000000u16, 0b111111100u16, 0b000000110u16, 0b000000110u16, 0b000000110u16, 0b000000110u16, 0b111111100u16],
        '6' => seq![0b001111100u16, 0b011000000u16, 0b110000000u16, 0b110000000u16, 0b111111100u16, 0b110000110u16, 0b110000110u16, 0b110000110u16, 0b011111100u16],
        '7' => seq![0b111111110u16, 0b000000110u16, 0b000001100u16, 0b000001100u16, 0b000011000u16, 0b000110000u16, 0b000110000u16, 0b001100000u16, 0b001100000u16],
        '8' => seq![0b001111100u16, 0b011000110u16, 0b011000110u16, 0b001111100u16, 0b011000110u16, 0b110000011u16, 0b110000011u16, 0b011000110u16, 0b001111100u16],
        '9' => seq![0b001111100u16, 0b011000110u16, 0b110000011u16, 0b110000011u16, 0b011111110u16, 0b000000110u16, 0b000000110u16, 0b000001100u16, 0b011111000u16],
        '.' => seq![0b000000000u16, 0b000000000u16, 0b000000000u16, 0b000000000u16, 0b000000000u16, 0b000000000u16, 0b000000000u16, 0b000110000u16, 0b000110000u16],
        _ => seq![0u16, 0u16, 0u16, 0u16, 0u16, 0u16, 0u16, 0u16, 0u16],
    }
}

/// Whether `c` has a glyph of its own.
pub open spec fn has_glyph(c: char) -> bool {
    ('0' <= c && c <= '9') || c == '.'
}

/// Two to the power `e`.
pub open spec fn pow2(e: nat) -> nat
    decreases e,
{
    if e == 0 {
        1
    } else {
        2 * pow2((e - 1) as nat)
    }
}

/// Powers of two are positive.
pub proof fn lemma_pow2_positive(e: nat)
    ensures
        pow2(e) >= 1,
    decreases e,
{
    if e > 0 {
        lemma_pow2_positive((e - 1) as nat);
    }
}

/// The character drawn in column `column` of a row with cell mask `mask`.
pub open spec fn cell(mask: u16, column: int) -> char {
    if (mask as nat / pow2((8 - column) as nat)) % 2 == 1 {
        block()
    } else {
        ' '
    }
}

/// Row `row` of the glyph for `c`, nine characters wide.
pub open spec fn glyph_line(c: char, row: int) -> Seq<char> {
    Seq::new(9, |column: int| cell(glyph_rows(c)[row], column))
}

/// Row `row` of `text` drawn as block characters, one space between glyphs.
pub open spec fn enlarged_row(text: Seq<char>, row: int) -> Seq<char>
    decreases text.len(),
{
    if text.len() == 0 {
        Seq::empty()
    } else if text.len() == 1 {
        glyph_line(text[0], row)
    } else {
        enlarged_row(text.drop_last(), row).push(' ') + glyph_line(text.last(), row)
    }
}

/// How many columns `text` takes when drawn as block characters.
pub open spec fn spec_enlarged_width(text: Seq<char>) -> nat {
    if text.len() == 0 {
        0
    } else {
        (10 * text.len() - 1) as nat
    }
}

/// Whether every character of `text` has a glyph.
pub open spec fn drawable(text: Seq<char>) -> bool {
    forall|i: int| 0 <= i < text.len() ==> has_glyph(#[trigger] text[i])
}

/// How each character is drawn, row by row, as the characters shown:
/// the designed picture of every digit and of the point; blank rows for
/// a character without a glyph.
pub open spec fn glyph_drawing(c: char) -> Seq<Seq<char>> {
    match c {
        '0' => seq![
            "  █████  "@,
            " ██   ██ "@,
            "██     ██"@,
            "██     ██"@,
            "██     ██"@,
            "██     ██"@,
            "██     ██"@,
            " ██   ██ "@,
            "  █████  "@,
        ],
        '1' => seq![
            "    ██   "@,
            "  ████   "@,
            "    ██   "@,
            "    ██   "@,
            "    ██   "@,
            "    ██   "@,
            "    ██   "@,
            "    ██   "@,
            " ███████ "@,
        ],
        '2' => seq![
            " ██████  "@,
            "██    ██ "@,
            "      ██ "@,
            "     ██  "@,
            "   ███   "@,
            " ██      "@,
            "██       "@,
            "██       "@,
            "████████ "@,
        ],
        '3' => seq![
            "███████  "@,
            "      ██ "@,
            "      ██ "@,
            "   ████  "@,
            "      ██ "@,
            "      ██ "@,
            "      ██ "@,
            "      ██ "@,
            "███████  "@,
        ],
        '4' => seq![
            "██    ██ "@,
            "██    ██ "@,
            "██    ██ "@,
            "██    ██ "@,
            "████████ "@,
            "      ██ "@,
            "      ██ "@,
            "      ██ "@,
            "      ██ "@,
        ],
        '5' => seq![
            "████████ "@,
            "██       "@,
            "██       "@,
            "███████  "@,
            "      ██ "@,
            "      ██ "@,
            "      ██ "@,
            "      ██ "@,
            "███████  "@,
        ],
        '6' => seq![
            "  █████  "@,
            " ██      "@,
            "██       "@,
            "██       "@,
            "███████  "@,
            "██    ██ "@,
            "██    ██ "@,
            "██    ██ "@,
            " ██████  "@,
        ],
        '7' => seq![
            "████████ "@,
            "      ██ "@,
            "     ██  "@,
            "     ██  "@,
            "    ██   "@,
            "   ██    "@,
            "   ██    "@,
            "  ██     "@,
            "  ██     "@,
        ],
        '8' => seq![
            "  █████  "@,
            " ██   ██ "@,
            " ██   ██ "@,
            "  █████  "@,
            " ██   ██ "@,
            "██     ██"@,
            "██     ██"@,
            " ██   ██ "@,
            "  █████  "@,
        ],
        '9' => seq![
            "  █████  "@,
            " ██   ██ "@,
            "██     ██"@,
            "██     ██"@,
            " ███████ "@,
            "      ██ "@,
            "      ██ "@,
            "     ██  "@,
            " █████   "@,
        ],
        '.' => seq![
            "         "@,
            "         "@,
            "         "@,
            "         "@,
            "         "@,
            "         "@,
            "         "@,
            "   ██    "@,
            "   ██    "@,
        ],
        _ => seq![
            "         "@,
            "         "@,
            "         "@,
            "         "@,
            "         "@,
            "         "@,
            "         "@,
            "         "@,
            "         "@,
        ],
    }
}

/// The powers of two that pick the cells of a glyph row.
proof fn lemma_column_places()
    ensures
        pow2(0) == 1,
        pow2(1) == 2,
        pow2(2) == 4,
        pow2(3) == 8,
        pow2(4) == 16,
        pow2(5) == 32,
        pow2(6) == 64,
        pow2(7) == 128,
        pow2(8) == 256,
{
    reveal_with_fuel(pow2, 9);
}

/// The cells of the glyph row `0b000000000`.
proof fn lemma_cells_000000000()
    ensures
        cell(0b000000000u16, 0) == ' ',
        cell(0b000000000u16, 1) == ' ',
        cell(0b000000000u16, 2) == ' ',
        cell(0b000000000u16, 3) == ' ',
        cell(0b000000000u16, 4) == ' ',
        cell(0b000000000u16, 5) == ' ',
        cell(0b000000000u16, 6) == ' ',
        cell(0b000000000u16, 7) == ' ',
        cell(0b000000000u16, 8) == ' ',
{
    lemma_column_places();
    assert((0nat / 256) % 2 == 0 && (0nat / 128) % 2 == 0 && (0nat / 64) % 2 == 0 && (0nat / 32) % 2 == 0 && (0nat / 16) % 2 == 0 && (0nat / 8) % 2 == 0 && (0nat / 4) % 2 == 0 && (0nat / 2) % 2 == 0 && (0nat / 1) % 2 == 0) by (nonlinear_arith);
}

/// The cells of the glyph row `0b000000110`.
proof fn lemma_cells_000000110()
    ensures
        cell(0b000000110u16, 0) == ' ',
        cell(0b000000110u16, 1) == ' ',
        cell(0b000000110u16, 2) == ' ',
        cell(0b000000110u16, 3) == ' ',
        cell(0b000000110u16, 4) == ' ',
        cell(0b000000110u16, 5) == ' ',
        cell(0b000000110u16, 6) == block(),
        cell(0b000000110u16, 7) == block(),
        cell(0b000000110u16, 8) == ' ',
{
    lemma_column_places();
    assert((6nat / 256) % 2 == 0 && (6nat / 128) % 2 == 0 && (6nat / 64) % 2 == 0 && (6nat / 32) % 2 == 0 && (6nat / 16) % 2 == 0 && (6nat / 8) % 2 == 0 && (6nat / 4) % 2 == 1 && (6nat / 2) % 2 == 1 && (6nat / 1) % 2 == 0) by (nonlinear_arith);
}

/// The cells of the glyph row `0b000001100`.
proof fn lemma_cells_000001100()
    ensures
        cell(0b000001100u16, 0) == ' ',
        cell(0b000001100u16, 1) == ' ',
        cell(0b000001100u16, 2) == ' ',
        cell(0b000001100u16, 3) == ' ',
        cell(0b000001100u16, 4) == ' ',
        cell(0b000001100u16, 5) == block(),
        cell(0b000001100u16, 6) == block(),
        cell(0b000001100u16, 7) == ' ',
        cell(0b000001100u16, 8) == ' ',
{
    lemma_column_places();
    assert((12nat / 256) % 2 == 0 && (12nat / 128) % 2 == 0 && (12nat / 64) % 2 == 0 && (12nat / 32) % 2 == 0 && (12nat / 16) % 2 == 0 && (12nat / 8) % 2 == 1 && (12nat / 4) % 2 == 1 && (12nat / 2) % 2 == 0 && (12nat / 1) % 2 == 0) by (nonlinear_arith);
}

/// The cells of the glyph row `0b000011000`.
proof fn lemma_cells_000011000()
    ensures
        cell(0b000011000u16, 0) == ' ',
        cell(0b000011000u16, 1) == ' ',
        cell(0b000011000u16, 2) == ' ',
        cell(0b000011000u16, 3) == ' ',
        cell(0b000011000u16, 4) == block(),
        cell(0b000011000u16, 5) == block(),
        cell(0b000011000u16, 6) == ' ',
        cell(0b000011000u16, 7) == ' ',
        cell(0b000011000u16, 8) == ' ',
{
    lemma_column_places();
    assert((24nat / 256) % 2 == 0 && (24nat / 128) % 2 == 0 && (24nat / 64) % 2 == 0 && (24nat / 32) % 2 == 0 && (24nat / 16) % 2 == 1 && (24nat / 8) % 2 == 1 && (24nat / 4) % 2 == 0 && (24nat / 2) % 2 == 0 && (24nat / 1) % 2 == 0) by (nonlinear_arith);
}

/// The cells of the glyph row `0b000110000`.
proof fn lemma_cells_000110000()
    ensures
        cell(0b000110000u16, 0) == ' ',
        cell(0b000110000u16, 1) == ' ',
        cell(0b000110000u16, 2) == ' ',
        cell(0b000110000u16, 3) == block(),
        cell(0b000110000u16, 4) == block(),
        cell(0b000110000u16, 5) == ' ',
        cell(0b000110000u16, 6) == ' ',
        cell(0b000110000u16, 7) == ' ',
        cell(0b000110000u16, 8) == ' ',
{
    lemma_column_places();
    assert((48nat / 256) % 2 == 0 && (48nat / 128) % 2 == 0 && (48nat / 64) % 2 == 0 && (48nat / 32) % 2 == 1 && (48nat / 16) % 2 == 1 && (48nat / 8) % 2 == 0 && (48nat / 4) % 2 == 0 && (48nat / 2) % 2 == 0 && (48nat / 1) % 2 == 0) by (nonlinear_arith);
}

/// The cells of the glyph row `0b000111000`.
proof fn lemma_cells_000111000()
    ensures
        cell(0b000111000u16, 0) == ' ',
        cell(0b000111000u16, 1) == ' ',
        cell(0b000111000u16, 2) == ' ',
        cell(0b000111000u16, 3) == block(),
        cell(0b000111000u16, 4) == block(),
        cell(0b000111000u16, 5) == block(),
        cell(0b000111000u16, 6) == ' ',
        cell(0b000111000u16, 7) == ' ',
        cell(0b000111000u16, 8) == ' ',
{
    lemma_column_places();
    assert((56nat / 256) % 2 == 0 && (56nat / 128) % 2 == 0 && (56nat / 64) % 2 == 0 && (56nat / 32) % 2 == 1 && (56nat / 16) % 2 == 1 && (56nat / 8) % 2 == 1 && (56nat / 4) % 2 == 0 && (56nat / 2) % 2 == 0 && (56nat / 1) % 2 == 0) by (nonlinear_arith);
}

/// The cells of the glyph row `0b000111100`.
proof fn lemma_cells_000111100()
    ensures
        cell(0b000111100u16, 0) == ' ',
        cell(0b000111100u16, 1) == ' ',
        cell(0b000111100u16, 2) == ' ',
        cell(0b000111100u16, 3) == block(),
        cell(0b000111100u16, 4) == block(),
        cell(0b000111100u16, 5) == block(),
        cell(0b000111100u16, 6) == block(),
        cell(0b000111100u16, 7) == ' ',
        cell(0b000111100u16, 8) == ' ',
{
    lemma_column_places();
    assert((60nat / 256) % 2 == 0 && (60nat / 128) % 2 == 0 && (60nat / 64) % 2 == 0 && (60nat / 32) % 2 == 1 && (60nat / 16) % 2 == 1 && (60nat / 8) % 2 == 1 && (60nat / 4) % 2 == 1 && (60nat / 2) % 2 == 0 && (60nat / 1) % 2 == 0) by (nonlinear_arith);
}

/// The cells of the glyph row `0b001100000`.
proof fn lemma_cells_001100000()
    ensures
        cell(0b001100000u16, 0) == ' ',
        cell(0b001100000u16, 1) == ' ',
        cell(0b001100000u16, 2) == block(),
        cell(0b001100000u16, 3) == block(),
        cell(0b001100000u16, 4) == ' ',
        cell(0b001100000u16, 5) == ' ',
        cell(0b001100000u16, 6) == ' ',
        cell(0b001100000u16, 7) == ' ',
        cell(0b001100000u16, 8) == ' ',
{
    lemma_column_places();
    assert((96nat / 256) % 2 == 0 && (96nat / 128) % 2 == 0 && (96nat / 64) % 2 == 1 && (96nat / 32) % 2 == 1 && (96nat / 16) % 2 == 0 && (96nat / 8) % 2 == 0 && (96nat / 4) % 2 == 0 && (96nat / 2) % 2 == 0 && (96nat / 1) % 2 == 0) by (nonlinear_arith);
}

/// The cells of the glyph row `0b001111000`.
proof fn lemma_cells_001111000()
    ensures
        cell(0b001111000u16, 0) == ' ',
        cell(0b001111000u16, 1) == ' ',
        cell(0b001111000u16, 2) == block(),
        cell(0b001111000u16, 3) == block(),
        cell(0b001111000u16, 4) == block(),
        cell(0b001111000u16, 5) == block(),
        cell(0b001111000u16, 6) == ' ',
        cell(0b001111000u16, 7) == ' ',
        cell(0b001111000u16, 8) == ' ',
{
    lemma_column_places();
    assert((120nat / 256) % 2 == 0 && (120nat / 128) % 2 == 0 && (120nat / 64) % 2 == 1 && (120nat / 32) % 2 == 1 && (120nat / 16) % 2 == 1 && (120nat / 8) % 2 == 1 && (120nat / 4) % 2 == 0 && (120nat / 2) % 2 == 0 && (120nat / 1) % 2 == 0) by (nonlinear_arith);
}

/// The cells of the glyph row `0b001111100`.
proof fn lemma_cells_001111100()
    ensures
        cell(0b001111100u16, 0) == ' ',
        cell(0b001111100u16, 1) == ' ',
        cell(0b001111100u16, 2) == block(),
        cell(0b001111100u16, 3) == block(),
        cell(0b001111100u16, 4) == block(),
        cell(0b001111100u16, 5) == block(),
        cell(0b001111100u16, 6) == block(),
        cell(0b001111100u16, 7) == ' ',
        cell(0b001111100u16, 8) == ' ',
{
    lemma_column_places();
    assert((124nat / 256) % 2 == 0 && (124nat / 128) % 2 == 0 && (124nat / 64) % 2 == 1 && (124nat / 32) % 2 == 1 && (124nat / 16) % 2 == 1 && (124nat / 8) % 2 == 1 && (124nat / 4) % 2 == 1 && (124nat / 2) % 2 == 0 && (124nat / 1) % 2 == 0) by (nonlinear_arith);
}

/// The cells of the glyph row `0b011000000`.
proof fn lemma_cells_011000000()
    ensures
        cell(0b011000000u16, 0) == ' ',
        cell(0b011000000u16, 1) == block(),
        cell(0b011000000u16, 2) == block(),
        cell(0b011000000u16, 3) == ' ',
        cell(0b011000000u16, 4) == ' ',
        cell(0b011000000u16, 5) == ' ',
        cell(0b011000000u16, 6) == ' ',
        cell(0b011000000u16, 7) == ' ',
        cell(0b011000000u16, 8) == ' ',
{
    lemma_column_places();
    assert((192nat / 256) % 2 == 0 && (192nat / 128) % 2 == 1 && (192nat / 64) % 2 == 1 && (192nat / 32) % 2 == 0 && (192nat / 16) % 2 == 0 && (192nat / 8) % 2 == 0 && (192nat / 4) % 2 == 0 && (192nat / 2) % 2 == 0 && (192nat / 1) % 2 == 0) by (nonlinear_arith);
}

/// The cells of the glyph row `0b011000110`.
proof fn lemma_cells_011000110()
    ensures
        cell(0b011000110u16, 0) == ' ',
        cell(0b011000110u16, 1) == block(),
        cell(0b011000110u16, 2) == block(),
        cell(0b011000110u16, 3) == ' ',
        cell(0b011000110u16, 4) == ' ',
        cell(0b011000110u16, 5) == ' ',
        cell(0b011000110u16, 6) == block(),
        cell(0b011000110u16, 7) == block(),
        cell(0b011000110u16, 8) == ' ',
{
    lemma_column_places();
    assert((198nat / 256) % 2 == 0 && (198nat / 128) % 2 == 1 && (198nat / 64) % 2 == 1 && (198nat / 32) % 2 == 0 && (198nat / 16) % 2 == 0 && (198nat / 8) % 2 == 0 && (198nat / 4) % 2 == 1 && (198nat / 2) % 2 == 1 && (198nat / 1) % 2 == 0) by (nonlinear_arith);
}

/// The cells of the glyph row `0b011111000`.
proof fn lemma_cells_011111000()
    ensures
        cell(0b011111000u16, 0) == ' ',
        cell(0b011111000u16, 1) == block(),
        cell(0b011111000u16, 2) == block(),
        cell(0b011111000u16, 3) == block(),
        cell(0b011111000u16, 4) == block(),
        cell(0b011111000u16, 5) == block(),
        cell(0b011111000u16, 6) == ' ',
        cell(0b011111000u16, 7) == ' ',
        cell(0b011111000u16, 8) == ' ',
{
    lemma_column_places();
    assert((248nat / 256) % 2 == 0 && (248nat / 128) % 2 == 1 && (248nat / 64) % 2 == 1 && (248nat / 32) % 2 == 1 && (248nat / 16) % 2 == 1 && (248nat / 8) % 2 == 1 && (248nat / 4) % 2 == 0 && (248nat / 2) % 2 == 0 && (248nat / 1) % 2 == 0) by (nonlinear_arith);
}

/// The cells of the glyph row `0b011111100`.
proof fn lemma_cells_011111100()
    ensures
        cell(0b011111100u16, 0) == ' ',
        cell(0b011111100u16, 1) == block(),
        cell(0b011111100u16, 2) == block(),
        cell(0b011111100u16, 3) == block(),
        cell(0b011111100u16, 4) == block(),
        cell(0b011111100u16, 5) == block(),
        cell(0b011111100u16, 6) == block(),
        cell(0b011111100u16, 7) == ' ',
        cell(0b011111100u16, 8) == ' ',
{
    lemma_column_places();
    assert((252nat / 256) % 2 == 0 && (252nat / 128) % 2 == 1 && (252nat / 64) % 2 == 1 && (252nat / 32) % 2 == 1 && (252nat / 16) % 2 == 1 && (252nat / 8) % 2 == 1 && (252nat / 4) % 2 == 1 && (252nat / 2) % 2 == 0 && (252nat / 1) % 2 == 0) by (nonlinear_arith);
}

/// The cells of the glyph row `0b011111110`.
proof fn lemma_cells_011111110()
    ensures
        cell(0b011111110u16, 0) == ' ',
        cell(0b011111110u16, 1) == block(),
        cell(0b011111110u16, 2) == block(),
        cell(0b011111110u16, 3) == block(),
        cell(0b011111110u16, 4) == block(),
        cell(0b011111110u16, 5) == block(),
        cell(0b011111110u16, 6) == block(),
        cell(0b011111110u16, 7) == block(),
        cell(0b011111110u16, 8) == ' ',
{
    lemma_column_places();
    assert((254nat / 256) % 2 == 0 && (254nat / 128) % 2 == 1 && (254nat / 64) % 2 == 1 && (254nat / 32) % 2 == 1 && (254nat / 16) % 2 == 1 && (254nat / 8) % 2 == 1 && (254nat / 4) % 2 == 1 && (254nat / 2) % 2 == 1 && (254nat / 1) % 2 == 0) by (nonlinear_arith);
}

/// The cells of the glyph row `0b110000000`.
proof fn lemma_cells_110000000()
    ensures
        cell(0b110000000u16, 0) == block(),
        cell(0b110000000u16, 1) == block(),
        cell(0b110000000u16, 2) == ' ',
        cell(0b110000000u16, 3) == ' ',
        cell(0b110000000u16, 4) == ' ',
        cell(0b110000000u16, 5) == ' ',
        cell(0b110000000u16, 6) == ' ',
        cell(0b110000000u16, 7) == ' ',
        cell(0b110000000u16, 8) == ' ',
{
    lemma_column_places();
    assert((384nat / 256) % 2 == 1 && (384nat / 128) % 2 == 1 && (384nat / 64) % 2 == 0 && (384nat / 32) % 2 == 0 && (384nat / 16) % 2 == 0 && (384nat / 8) % 2 == 0 && (384nat / 4) % 2 == 0 && (384nat / 2) % 2 == 0 && (384nat / 1) % 2 == 0) by (nonlinear_arith);
}

/// The cells of the glyph row `0b110000011`.
proof fn lemma_cells_110000011()
    ensures
        cell(0b110000011u16, 0) == block(),
        cell(0b110000011u16, 1) == block(),
        cell(0b110000011u16, 2) == ' ',
        cell(0b110000011u16, 3) == ' ',
        cell(0b110000011u16, 4) == ' ',
        cell(0b110000011u16, 5) == ' ',
        cell(0b110000011u16, 6) == ' ',
        cell(0b110000011u16, 7) == block(),
        cell(0b110000011u16, 8) == block(),
{
    lemma_column_places();
    assert((387nat / 256) % 2 == 1 && (387nat / 128) % 2 == 1 && (387nat / 64) % 2 == 0 && (387nat / 32) % 2 == 0 && (387nat / 16) % 2 == 0 && (387nat / 8) % 2 == 0 && (387nat / 4) % 2 == 0 && (387nat / 2) % 2 == 1 && (387nat / 1) % 2 == 1) by (nonlinear_arith);
}

/// The cells of the glyph row `0b110000110`.
proof fn lemma_cells_110000110()
    ensures
        cell(0b110000110u16, 0) == block(),
        cell(0b110000110u16, 1) == block(),
        cell(0b110000110u16, 2) == ' ',
        cell(0b110000110u16, 3) == ' ',
        cell(0b110000110u16, 4) == ' ',
        cell(0b110000110u16, 5) == ' ',
        cell(0b110000110u16, 6) == block(),
        cell(0b110000110u16, 7) == block(),
        cell(0b110000110u16, 8) == ' ',
{
    lemma_column_places();
    assert((390nat / 256) % 2 == 1 && (390nat / 128) % 2 == 1 && (390nat / 64) % 2 == 0 && (390nat / 32) % 2 == 0 && (390nat / 16) % 2 == 0 && (390nat / 8) % 2 == 0 && (390nat / 4) % 2 == 1 && (390nat / 2) % 2 == 1 && (390nat / 1) % 2 == 0) by (nonlinear_arith);
}

/// The cells of the glyph row `0b111111100`.
proof fn lemma_cells_111111100()
    ensures
        cell(0b111111100u16, 0) == block(),
        cell(0b111111100u16, 1) == block(),
        cell(0b111111100u16, 2) == block(),
        cell(0b111111100u16, 3) == block(),
        cell(0b111111100u16, 4) == block(),
        cell(0b111111100u16, 5) == block(),
        cell(0b111111100u16, 6) == block(),
        cell(0b111111100u16, 7) == ' ',
        cell(0b111111100u16, 8) == ' ',
{
    lemma_column_places();
    assert((508nat / 256) % 2 == 1 && (508nat / 128) % 2 == 1 && (508nat / 64) % 2 == 1 && (508nat / 32) % 2 == 1 && (508nat / 16) % 2 == 1 && (508nat / 8) % 2 == 1 && (508nat / 4) % 2 == 1 && (508nat / 2) % 2 == 0 && (508nat / 1) % 2 == 0) by (nonlinear_arith);
}

/// The cells of the glyph row `0b111111110`.
proof fn lemma_cells_111111110()
    ensures
        cell(0b111111110u16, 0) == block(),
        cell(0b111111110u16, 1) == block(),
        cell(0b111111110u16, 2) == block(),
        cell(0b111111110u16, 3) == block(),
        cell(0b111111110u16, 4) == block(),
        cell(0b111111110u16, 5) == block(),
        cell(0b111111110u16, 6) == block(),
        cell(0b111111110u16, 7) == block(),
        cell(0b111111110u16, 8) == ' ',
{
    lemma_column_places();
    assert((510nat / 256) % 2 == 1 && (510nat / 128) % 2 == 1 && (510nat / 64) % 2 == 1 && (510nat / 32) % 2 == 1 && (510nat / 16) % 2 == 1 && (510nat / 8) % 2 == 1 && (510nat / 4) % 2 == 1 && (510nat / 2) % 2 == 1 && (510nat / 1) % 2 == 0) by (nonlinear_arith);
}

proof fn lemma_drawing_of_0()
    ensures
        forall|row: int| 0 <= row < GLYPH_HEIGHT ==> #[trigger] glyph_line('0', row) == glyph_drawing('0')[row],
{
    lemma_cells_001111100();
    lemma_cells_011000110();
    lemma_cells_110000011();
    reveal_strlit("  █████  ");
    reveal_strlit(" ██   ██ ");
    reveal_strlit("██     ██");
    assert(glyph_line('0', 0) =~= glyph_drawing('0')[0]);
    assert(glyph_line('0', 1) =~= glyph_drawing('0')[1]);
    assert(glyph_line('0', 2) =~= glyph_drawing('0')[2]);
    assert(glyph_line('0', 3) =~= glyph_drawing('0')[3]);
    assert(glyph_line('0', 4) =~= glyph_drawing('0')[4]);
    assert(glyph_line('0', 5) =~= glyph_drawing('0')[5]);
    assert(glyph_line('0', 6) =~= glyph_drawing('0')[6]);
    assert(glyph_line('0', 7) =~= glyph_drawing('0')[7]);
    assert(glyph_line('0', 8) =~= glyph_drawing('0')[8]);
}

proof fn lemma_drawing_of_1()
    ensures
        forall|row: int| 0 <= row < GLYPH_HEIGHT ==> #[trigger] glyph_line('1', row) == glyph_drawing('1')[row],
{
    lemma_cells_000011000();
    lemma_cells_001111000();
    lemma_cells_011111110();
    reveal_strlit("    ██   ");
    reveal_strlit("  ████   ");
    reveal_strlit(" ███████ ");
    assert(glyph_line('1', 0) =~= glyph_drawing('1')[0]);
    assert(glyph_line('1', 1) =~= glyph_drawing('1')[1]);
    assert(glyph_line('1', 2) =~= glyph_drawing('1')[2]);
    assert(glyph_line('1', 3) =~= glyph_drawing('1')[3]);
    assert(glyph_line('1', 4) =~= glyph_drawing('1')[4]);
    assert(glyph_line('1', 5) =~= glyph_drawing('1')[5]);
    assert(glyph_line('1', 6) =~= glyph_drawing('1')[6]);
    assert(glyph_line('1', 7) =~= glyph_drawing('1')[7]);
    assert(glyph_line('1', 8) =~= glyph_drawing('1')[8]);
}

proof fn lemma_drawing_of_2()
    ensures
        forall|row: int| 0 <= row < GLYPH_HEIGHT ==> #[trigger] glyph_line('2', row) == glyph_drawing('2')[row],
{
    lemma_cells_000000110();
    lemma_cells_000001100();
    lemma_cells_000111000();
    lemma_cells_011000000();
    lemma_cells_011111100();
    lemma_cells_110000000();
    lemma_cells_110000110();
    lemma_cells_111111110();
    reveal_strlit("      ██ ");
    reveal_strlit("     ██  ");
    reveal_strlit("   ███   ");
    reveal_strlit(" ██      ");
    reveal_strlit(" ██████  ");
    reveal_strlit("██       ");
    reveal_strlit("██    ██ ");
    reveal_strlit("████████ ");
    assert(glyph_line('2', 0) =~= glyph_drawing('2')[0]);
    assert(glyph_line('2', 1) =~= glyph_drawing('2')[1]);
    assert(glyph_line('2', 2) =~= glyph_drawing('2')[2]);
    assert(glyph_line('2', 3) =~= glyph_drawing('2')[3]);
    assert(glyph_line('2', 4) =~= glyph_drawing('2')[4]);
    assert(glyph_line('2', 5) =~= glyph_drawing('2')[5]);
    assert(glyph_line('2', 6) =~= glyph_drawing('2')[6]);
    assert(glyph_line('2', 7) =~= glyph_drawing('2')[7]);
    assert(glyph_line('2', 8) =~= glyph_drawing('2')[8]);
}

proof fn lemma_drawing_of_3()
    ensures
        forall|row: int| 0 <= row < GLYPH_HEIGHT ==> #[trigger] glyph_line('3', row) == glyph_drawing('3')[row],
{
    lemma_cells_000000110();
    lemma_cells_000111100();
    lemma_cells_111111100();
    reveal_strlit("      ██ ");
    reveal_strlit("   ████  ");
    reveal_strlit("███████  ");
    assert(glyph_line('3', 0) =~= glyph_drawing('3')[0]);
    assert(glyph_line('3', 1) =~= glyph_drawing('3')[1]);
    assert(glyph_line('3', 2) =~= glyph_drawing('3')[2]);
    assert(glyph_line('3', 3) =~= glyph_drawing('3')[3]);
    assert(glyph_line('3', 4) =~= glyph_drawing('3')[4]);
    assert(glyph_line('3', 5) =~= glyph_drawing('3')[5]);
    assert(glyph_line('3', 6) =~= glyph_drawing('3')[6]);
    assert(glyph_line('3', 7) =~= glyph_drawing('3')[7]);
    assert(glyph_line('3', 8) =~= glyph_drawing('3')[8]);
}

proof fn lemma_drawing_of_4()
    ensures
        forall|row: int| 0 <= row < GLYPH_HEIGHT ==> #[trigger] glyph_line('4', row) == glyph_drawing('4')[row],
{
    lemma_cells_000000110();
    lemma_cells_110000110();
    lemma_cells_111111110();
    reveal_strlit("      ██ ");
    reveal_strlit("██    ██ ");
    reveal_strlit("████████ ");
    assert(glyph_line('4', 0) =~= glyph_drawing('4')[0]);
    assert(glyph_line('4', 1) =~= glyph_drawing('4')[1]);
    assert(glyph_line('4', 2) =~= glyph_drawing('4')[2]);
    assert(glyph_line('4', 3) =~= glyph_drawing('4')[3]);
    assert(glyph_line('4', 4) =~= glyph_drawing('4')[4]);
    assert(glyph_line('4', 5) =~= glyph_drawing('4')[5]);
    assert(glyph_line('4', 6) =~= glyph_drawing('4')[6]);
    assert(glyph_line('4', 7) =~= glyph_drawing('4')[7]);
    assert(glyph_line('4', 8) =~= glyph_drawing('4')[8]);
}

proof fn lemma_drawing_of_5()
    ensures
        forall|row: int| 0 <= row < GLYPH_HEIGHT ==> #[trigger] glyph_line('5', row) == glyph_drawing('5')[row],
{
    lemma_cells_000000110();
    lemma_cells_110000000();
    lemma_cells_111111100();
    lemma_cells_111111110();
    reveal_strlit("      ██ ");
    reveal_strlit("██       ");
    reveal_strlit("███████  ");
    reveal_strlit("████████ ");
    assert(glyph_line('5', 0) =~= glyph_drawing('5')[0]);
    assert(glyph_line('5', 1) =~= glyph_drawing('5')[1]);
    assert(glyph_line('5', 2) =~= glyph_drawing('5')[2]);
    assert(glyph_line('5', 3) =~= glyph_drawing('5')[3]);
    assert(glyph_line('5', 4) =~= glyph_drawing('5')[4]);
    assert(glyph_line('5', 5) =~= glyph_drawing('5')[5]);
    assert(glyph_line('5', 6) =~= glyph_drawing('5')[6]);
    assert(glyph_line('5', 7) =~= glyph_drawing('5')[7]);
    assert(glyph_line('5', 8) =~= glyph_drawing('5')[8]);
}

proof fn lemma_drawing_of_6()
    ensures
        forall|row: int| 0 <= row < GLYPH_HEIGHT ==> #[trigger] glyph_line('6', row) == glyph_drawing('6')[row],
{
    lemma_cells_001111100();
    lemma_cells_011000000();
    lemma_cells_011111100();
    lemma_cells_110000000();
    lemma_cells_110000110();
    lemma_cells_111111100();
    reveal_strlit("  █████  ");
    reveal_strlit(" ██      ");
    reveal_strlit(" ██████  ");
    reveal_strlit("██       ");
    reveal_strlit("██    ██ ");
    reveal_strlit("███████  ");
    assert(glyph_line('6', 0) =~= glyph_drawing('6')[0]);
    assert(glyph_line('6', 1) =~= glyph_drawing('6')[1]);
    assert(glyph_line('6', 2) =~= glyph_drawing('6')[2]);
    assert(glyph_line('6', 3) =~= glyph_drawing('6')[3]);
    assert(glyph_line('6', 4) =~= glyph_drawing('6')[4]);
    assert(glyph_line('6', 5) =~= glyph_drawing('6')[5]);
    assert(glyph_line('6', 6) =~= glyph_drawing('6')[6]);
    assert(glyph_line('6', 7) =~= glyph_drawing('6')[7]);
    assert(glyph_line('6', 8) =~= glyph_drawing('6')[8]);
}

proof fn lemma_drawing_of_7()
    ensures
        forall|row: int| 0 <= row < GLYPH_HEIGHT ==> #[trigger] glyph_line('7', row) == glyph_drawing('7')[row],
{
    lemma_cells_000000110();
    lemma_cells_000001100();
    lemma_cells_000011000();
    lemma_cells_000110000();
    lemma_cells_001100000();
    lemma_cells_111111110();
    reveal_strlit("      ██ ");
    reveal_strlit("     ██  ");
    reveal_strlit("    ██   ");
    reveal_strlit("   ██    ");
    reveal_strlit("  ██     ");
    reveal_strlit("████████ ");
    assert(glyph_line('7', 0) =~= glyph_drawing('7')[0]);
    assert(glyph_line('7', 1) =~= glyph_drawing('7')[1]);
    assert(glyph_line('7', 2) =~= glyph_drawing('7')[2]);
    assert(glyph_line('7', 3) =~= glyph_drawing('7')[3]);
    assert(glyph_line('7', 4) =~= glyph_drawing('7')[4]);
    assert(glyph_line('7', 5) =~= glyph_drawing('7')[5]);
    assert(glyph_line('7', 6) =~= glyph_drawing('7')[6]);
    assert(glyph_line('7', 7) =~= glyph_drawing('7')[7]);
    assert(glyph_line('7', 8) =~= glyph_drawing('7')[8]);
}

proof fn lemma_drawing_of_8()
    ensures
        forall|row: int| 0 <= row < GLYPH_HEIGHT ==> #[trigger] glyph_line('8', row) == glyph_drawing('8')[row],
{
    lemma_cells_001111100();
    lemma_cells_011000110();
    lemma_cells_110000011();
    reveal_strlit("  █████  ");
    reveal_strlit(" ██   ██ ");
    reveal_strlit("██     ██");
    assert(glyph_line('8', 0) =~= glyph_drawing('8')[0]);
    assert(glyph_line('8', 1) =~= glyph_drawing('8')[1]);
    assert(glyph_line('8', 2) =~= glyph_drawing('8')[2]);
    assert(glyph_line('8', 3) =~= glyph_drawing('8')[3]);
    assert(glyph_line('8', 4) =~= glyph_drawing('8')[4]);
    assert(glyph_line('8', 5) =~= glyph_drawing('8')[5]);
    assert(glyph_line('8', 6) =~= glyph_drawing('8')[6]);
    assert(glyph_line('8', 7) =~= glyph_drawing('8')[7]);
    assert(glyph_line('8', 8) =~= glyph_drawing('8')[8]);
}

proof fn lemma_drawing_of_9()
    ensures
        forall|row: int| 0 <= row < GLYPH_HEIGHT ==> #[trigger] glyph_line('9', row) == glyph_drawing('9')[row],
{
    lemma_cells_000000110();
    lemma_cells_000001100();
    lemma_cells_001111100();
    lemma_cells_011000110();
    lemma_cells_011111000();
    lemma_cells_011111110();
    lemma_cells_110000011();
    reveal_strlit("      ██ ");
    reveal_strlit("     ██  ");
    reveal_strlit("  █████  ");
    reveal_strlit(" ██   ██ ");
    reveal_strlit(" █████   ");
    reveal_strlit(" ███████ ");
    reveal_strlit("██     ██");
    assert(glyph_line('9', 0) =~= glyph_drawing('9')[0]);
    assert(glyph_line('9', 1) =~= glyph_drawing('9')[1]);
    assert(glyph_line('9', 2) =~= glyph_drawing('9')[2]);
    assert(glyph_line('9', 3) =~= glyph_drawing('9')[3]);
    assert(glyph_line('9', 4) =~= glyph_drawing('9')[4]);
    assert(glyph_line('9', 5) =~= glyph_drawing('9')[5]);
    assert(glyph_line('9', 6) =~= glyph_drawing('9')[6]);
    assert(glyph_line('9', 7) =~= glyph_drawing('9')[7]);
    assert(glyph_line('9', 8) =~= glyph_drawing('9')[8]);
}

proof fn lemma_drawing_of_point()
    ensures
        forall|row: int| 0 <= row < GLYPH_HEIGHT ==> #[trigger] glyph_line('.', row) == glyph_drawing('.')[row],
{
    lemma_cells_000000000();
    lemma_cells_000110000();
    reveal_strlit("         ");
    reveal_strlit("   ██    ");
    assert(glyph_line('.', 0) =~= glyph_drawing('.')[0]);
    assert(glyph_line('.', 1) =~= glyph_drawing('.')[1]);
    assert(glyph_line('.', 2) =~= glyph_drawing('.')[2]);
    assert(glyph_line('.', 3) =~= glyph_drawing('.')[3]);
    assert(glyph_line('.', 4) =~= glyph_drawing('.')[4]);
    assert(glyph_line('.', 5) =~= glyph_drawing('.')[5]);
    assert(glyph_line('.', 6) =~= glyph_drawing('.')[6]);
    assert(glyph_line('.', 7) =~= glyph_drawing('.')[7]);
    assert(glyph_line('.', 8) =~= glyph_drawing('.')[8]);
}

proof fn lemma_drawing_of_blank(c: char)
    requires
        !has_glyph(c),
    ensures
        forall|row: int| 0 <= row < GLYPH_HEIGHT ==> #[trigger] glyph_line(c, row) == glyph_drawing(c)[row],
{
    lemma_cells_000000000();
    assert(glyph_rows(c) == seq![0u16, 0u16, 0u16, 0u16, 0u16, 0u16, 0u16, 0u16, 0u16]);
    reveal_strlit("         ");
    assert(glyph_line(c, 0) =~= glyph_drawing(c)[0]);
    assert(glyph_line(c, 1) =~= glyph_drawing(c)[1]);
    assert(glyph_line(c, 2) =~= glyph_drawing(c)[2]);
    assert(glyph_line(c, 3) =~= glyph_drawing(c)[3]);
    assert(glyph_line(c, 4) =~= glyph_drawing(c)[4]);
    assert(glyph_line(c, 5) =~= glyph_drawing(c)[5]);
    assert(glyph_line(c, 6) =~= glyph_drawing(c)[6]);
    assert(glyph_line(c, 7) =~= glyph_drawing(c)[7]);
    assert(glyph_line(c, 8) =~= glyph_drawing(c)[8]);
}

/// Every character is drawn as designed: each digit and the point with
/// its own picture, so no digit is drawn as another, and a character
/// without a glyph as blank rows.
pub proof fn lemma_glyphs_are_drawn_as_designed(c: char, row: int)
    requires
        0 <= row < GLYPH_HEIGHT,
    ensures
        glyph_line(c, row) == glyph_drawing(c)[row],
{
    match c {
        '0' => lemma_drawing_of_0(),
        '1' => lemma_drawing_of_1(),
        '2' => lemma_drawing_of_2(),
        '3' => lemma_drawing_of_3(),
        '4' => lemma_drawing_of_4(),
        '5' => lemma_drawing_of_5(),
        '6' => lemma_drawing_of_6(),
        '7' => lemma_drawing_of_7(),
        '8' => lemma_drawing_of_8(),
        '9' => lemma_drawing_of_9(),
        '.' => lemma_drawing_of_point(),
        _ => lemma_drawing_of_blank(c),
    }
}

/// Returns the rows of the glyph for `character`.
fn glyph(character: char) -> (rows: [u16; 9])
    ensures
        rows@ == glyph_rows(character),
{
    let rows = match character {
        '0' => [0b001111100, 0b011000110, 0b110000011, 0b110000011, 0b110000011, 0b110000011, 0b110000011, 0b011000110, 0b001111100],
        '1' => [0b000011000, 0b001111000, 0b000011000, 0b000011000, 0b000011000, 0b000011000, 0b000011000, 0b000011000, 0b011111110],
        '2' => [0b011111100, 0b110000110, 0b000000110, 0b000001100, 0b000111000, 0b011000000, 0b110000000, 0b110000000, 0b111111110],
        '3' => [0b111111100, 0b000000110, 0b000000110, 0b000111100, 0b000000110, 0b000000110, 0b000000110, 0b000000110, 0b111111100],
        '4' => [0b110000110, 0b110000110, 0b110000110, 0b110000110, 0b111111110, 0b000000110, 0b000000110, 0b000000110, 0b000000110],
        '5' => [0b111111110, 0b110000000, 0b110000000, 0b111111100, 0b000000110, 0b000000110, 0b000000110, 0b000000110, 0b111111100],
        '6' => [0b001111100, 0b011000000, 0b110000000, 0b110000000, 0b111111100, 0b110000110, 0b110000110, 0b110000110, 0b011111100],
        '7' => [0b111111110, 0b000000110, 0b000001100, 0b000001100, 0b000011000, 0b000110000, 0b000110000, 0b001100000, 0b001100000],
        '8' => [0b001111100, 0b011000110, 0b011000110, 0b001111100, 0b011000110, 0b110000011, 0b110000011, 0b011000110, 0b001111100],
        '9' => [0b001111100, 0b011000110, 0b110000011, 0b110000011, 0b011111110, 0b000000110, 0b000000110, 0b000001100, 0b011111000],
        '.' => [0b000000000, 0b000000000, 0b000000000, 0b000000000, 0b000000000, 0b000000000, 0b000000000, 0b000110000, 0b000110000],
        _ => [0, 0, 0, 0, 0, 0, 0, 0, 0],
    };
    assert(rows@ =~= glyph_rows(character));
    rows
}

/// Returns whether `character` has a glyph of its own.
pub fn glyph_exists(character: char) -> (exists: bool)
    ensures
        exists == has_glyph(character),
{
    ('0' <= character && character <= '9') || character == '.'
}

/// Appends row `row` of the glyph for `character`.
fn push_glyph_line(text: &mut String, character: char, row: usize)
    requires
        row < GLYPH_HEIGHT,
    ensures
        final(text)@ == old(text)@ + glyph_line(character, row as int),
{
    let rows = glyph(character);
    let mask = rows[row];
    let mut column: usize = 0;
    let mut place: u16 = 256;
    proof {
        reveal_with_fuel(pow2, 9);
        assert(glyph_line(character, row as int).take(0) =~= Seq::<char>::empty());
    }
    while column < GLYPH_WIDTH
        invariant
            column <= GLYPH_WIDTH,
            mask == glyph_rows(character)[row as int],
            column < GLYPH_WIDTH ==> place as nat == pow2((8 - column) as nat),
            text@ == old(text)@ + glyph_line(character, row as int).take(column as int),
        decreases GLYPH_WIDTH - column,
    {
        proof {
            lemma_pow2_positive((8 - column) as nat);
            if column < 8 {
                assert(pow2((8 - column) as nat) == 2 * pow2((7 - column) as nat));
            }
        }
        let filled = (mask / place) % 2 == 1;
        if filled {
            push_char(text, '\u{2588}');
        } else {
            push_char(text, ' ');
        }
        proof {
            assert(glyph_line(character, row as int).take(column + 1) =~= glyph_line(
                character,
                row as int,
            ).take(column as int).push(cell(mask, column as int)));
        }
        column = column + 1;
        place = place / 2;
    }
    assert(glyph_line(character, row as int).take(9) =~= glyph_line(character, row as int));
}

/// Draws `text` as block digits, nine rows tall.
///
/// Characters with no glyph render as blank space rather than as a
/// substitute digit, so a formatting slip shows up as a gap instead of a
/// plausible wrong number.
pub fn enlarge(text: &str) -> (rows: Vec<String>)
    ensures
        rows@.len() == GLYPH_HEIGHT,
        forall|row: int| 0 <= row < GLYPH_HEIGHT ==> #[trigger] rows@[row]@ == enlarged_row(text@, row),
{
    let chars = crate::numerals::chars_of(text);
    let mut rows: Vec<String> = Vec::new();
    let mut row: usize = 0;
    while row < GLYPH_HEIGHT
        invariant
            row <= GLYPH_HEIGHT,
            chars@ == text@,
            rows@.len() == row,
            forall|r: int| 0 <= r < row ==> #[trigger] rows@[r]@ == enlarged_row(text@, r),
        decreases GLYPH_HEIGHT - row,
    {
        let mut line = String::new();
        let mut i: usize = 0;
        while i < chars.len()
            invariant
                row < GLYPH_HEIGHT,
                i <= chars@.len(),
                chars@ == text@,
                line@ == enlarged_row(chars@.take(i as int), row as int),
            decreases chars@.len() - i,
        {
            if i > 0 {
                push_char(&mut line, ' ');
            }
            push_glyph_line(&mut line, chars[i], row);
            proof {
                let t = chars@.take(i + 1);
                assert(t.drop_last() =~= chars@.take(i as int));
                if i == 0 {
                    assert(chars@.take(0) =~= Seq::<char>::empty());
                    assert(line@ =~= enlarged_row(t, row as int));
                }
            }
            i = i + 1;
        }
        proof {
            assert(chars@.take(chars@.len() as int) =~= chars@);
        }
        rows.push(line);
        row = row + 1;
    }
    rows
}

/// Returns whether every character of `text` has a glyph.
pub fn can_draw(text: &str) -> (all_drawn: bool)
    ensures
        all_drawn == drawable(text@),
{
    let chars = crate::numerals::chars_of(text);
    let mut i: usize = 0;
    while i < chars.len()
        invariant
            i <= chars@.len(),
            chars@ == text@,
            forall|j: int| 0 <= j < i ==> has_glyph(#[trigger] chars@[j]),
        decreases chars@.len() - i,
    {
        if !glyph_exists(chars[i]) {
            return false;
        }
        i = i + 1;
    }
    true
}

/// Returns how many columns `text` takes when drawn as block digits, or
/// `usize::MAX` for a text too long to count them.
pub fn enlarged_width(text: &str) -> (width: usize)
    ensures
        width == if spec_enlarged_width(text@) <= usize::MAX {
            spec_enlarged_width(text@)
        } else {
            usize::MAX as nat
        },
{
    let count = crate::numerals::chars_of(text).len();
    if count == 0 {
        0
    } else if count > (usize::MAX - 1) / 10 {
        usize::MAX
    } else {
        10 * count - 1
    }
}

/// A glyph row is nine characters wide.
pub proof fn lemma_enlarged_width(text: Seq<char>, row: int)
    ensures
        enlarged_row(text, row).len() == spec_enlarged_width(text),
    decreases text.len(),
{
    if text.len() > 1 {
        lemma_enlarged_width(text.drop_last(), row);
    }
}

/// Block text shows each character's picture in its own nine columns, one
/// blank column between neighbours: column `10 * i + j` of a row is column
/// `j` of that row of the picture of character `i`.
pub proof fn lemma_enlarged_text_shows_each_character(text: Seq<char>, row: int, i: int, j: int)
    requires
        0 <= row < GLYPH_HEIGHT,
        0 <= i < text.len(),
        0 <= j < GLYPH_WIDTH,
    ensures
        enlarged_row(text, row)[10 * i + j] == glyph_drawing(text[i])[row][j],
        i + 1 < text.len() ==> enlarged_row(text, row)[10 * i + 9] == ' ',
    decreases text.len(),
{
    lemma_glyphs_are_drawn_as_designed(text[i], row);
    if text.len() > 1 {
        let front = text.drop_last();
        let earlier = enlarged_row(front, row).push(' ');
        lemma_enlarged_width(front, row);
        if i < text.len() - 1 {
            lemma_enlarged_text_shows_each_character(front, row, i, j);
            assert(enlarged_row(text, row)[10 * i + j] == earlier[10 * i + j]);
            assert(enlarged_row(text, row)[10 * i + 9] == earlier[10 * i + 9]);
        } else {
            assert(enlarged_row(text, row)[10 * i + j] == glyph_line(text.last(), row)[j]);
        }
    }
}

/// A character without a glyph leaves a gap: text with no glyph at all is
/// drawn as rows of spaces.
pub proof fn lemma_unknown_characters_are_blank(text: Seq<char>, row: int)
    requires
        0 <= row < GLYPH_HEIGHT,
        forall|i: int| 0 <= i < text.len() ==> !has_glyph(#[trigger] text[i]),
    ensures
        forall|i: int| 0 <= i < enlarged_row(text, row).len() ==> #[trigger] enlarged_row(text, row)[i] == ' ',
    decreases text.len(),
{
    if text.len() > 0 {
        let c = text.last();
        assert(!has_glyph(c));
        assert(glyph_rows(c)[row] == 0u16);
        assert forall|j: int| 0 <= j < 9 implies #[trigger] glyph_line(c, row)[j] == ' ' by {
            lemma_pow2_positive((8 - j) as nat);
            assert(0nat / pow2((8 - j) as nat) == 0) by (nonlinear_arith)
                requires
                    pow2((8 - j) as nat) >= 1,
            ;
        }
        if text.len() > 1 {
            lemma_unknown_characters_are_blank(text.drop_last(), row);
            let earlier = enlarged_row(text.drop_last(), row).push(' ');
            assert forall|i: int| 0 <= i < enlarged_row(text, row).len() implies #[trigger] enlarged_row(text, row)[i] == ' ' by {
                if i < earlier.len() {
                    if i < earlier.len() - 1 {
                        assert(earlier[i] == enlarged_row(text.drop_last(), row)[i]);
                    }
                } else {
                    assert(enlarged_row(text, row)[i] == glyph_line(c, row)[i - earlier.len()]);
                }
            }
        }
    }
}


/// `line` padded so it sits centred in `width` columns, measured in
/// characters; a blank line stays blank and a line wider than the frame is
/// left alone.
pub open spec fn centered_line(line: Seq<char>, width: nat) -> Seq<char> {
    if line.len() == 0 {
        Seq::empty()
    } else {
        let left = if width >= line.len() {
            ((width - line.len()) / 2) as nat
        } else {
            0
        };
        repeat(' ', left) + line
    }
}

/// The blank rows above content of `count` lines in a frame `height` tall.
pub open spec fn top_margin(count: nat, height: nat) -> nat {
    if height >= count {
        ((height - count) / 2) as nat
    } else {
        0
    }
}

/// `lines` centred in a `width` by `height` frame: blank rows above, the
/// lines that fit, blank rows below, exactly `height` rows in all.
pub open spec fn centered_frame(lines: Seq<Seq<char>>, width: nat, height: nat) -> Seq<Seq<char>> {
    let top = top_margin(lines.len(), height);
    Seq::new(
        height,
        |i: int|
            if i < top || i - top >= lines.len() {
                Seq::empty()
            } else {
                centered_line(lines[i - top], width)
            },
    )
}

/// The text of each string.
pub open spec fn texts(lines: Seq<String>) -> Seq<Seq<char>> {
    lines.map_values(|line: String| line@)
}

/// Pads a line so it sits centred, measuring in characters rather than bytes.
pub fn center_line(line: &str, width: usize) -> (centred: String)
    ensures
        centred@ == centered_line(line@, width as nat),
{
    let visible = crate::numerals::chars_of(line).len();
    if visible == 0 {
        return String::new();
    }
    let left = if width >= visible {
        (width - visible) / 2
    } else {
        0
    };
    let mut centred = String::new();
    push_repeated(&mut centred, ' ', left);
    centred.append(line);
    assert(centred@ =~= centered_line(line@, width as nat));
    centred
}

/// Centres `lines` in a `width` by `height` frame.
///
/// Always returns exactly `height` rows so a caller can paint the frame
/// without tracking what the previous one left behind.
pub fn center(lines: &[String], width: u16, height: u16) -> (frame: Vec<String>)
    ensures
        texts(frame@) == centered_frame(texts(lines@), width as nat, height as nat),
        frame@.len() == height,
{
    let ghost want = centered_frame(texts(lines@), width as nat, height as nat);
    let count = lines.len();
    let height = height as usize;
    let width = width as usize;
    let top = if height >= count {
        (height - count) / 2
    } else {
        0
    };
    let mut frame: Vec<String> = Vec::new();
    let mut i: usize = 0;
    while i < height
        invariant
            i <= height,
            count == lines@.len(),
            top == top_margin(count as nat, height as nat),
            want.len() == height,
            frame@.len() == i,
            forall|j: int| 0 <= j < i ==> #[trigger] frame@[j]@ == want[j],
            want == centered_frame(texts(lines@), width as nat, height as nat),
        decreases height - i,
    {
        if i < top || i - top >= count {
            frame.push(String::new());
        } else {
            frame.push(center_line(lines[i - top].as_str(), width));
        }
        i = i + 1;
    }
    assert(texts(frame@) =~= want);
    frame
}

} // verus!
