//! The frames drawn while a run happens.
//!
//! The terminal itself, its size and the painting, belong to the program;
//! what a frame shows for a sample is decided here.

use vstd::prelude::*;

use crate::numerals::{
    fixed_point, lemma_fixed_point_denotes, lemma_round_half_even_is_nearest, push_char, push_fixed,
    round_half_even, rounded_half_even, writes_fixed,
};
use crate::probe::transfer::{Progress, Stage};
use crate::render::text::{
    can_draw, drawable, enlarge, enlarged_row, enlarged_width, lemma_enlarged_width,
    spec_enlarged_width,
};
use crate::units::{magnitude_of, scaled_units};

verus! {

/// What `str::to_uppercase` returns for a text.
pub uninterp spec fn uppercase_of(text: Seq<char>) -> Seq<char>;

/// A text made only of ASCII characters.
pub open spec fn is_ascii_text(text: Seq<char>) -> bool {
    forall|i: int| 0 <= i < text.len() ==> (#[trigger] text[i] as u32) < 128
}

/// `text` with its ASCII lower-case letters made upper-case.
pub open spec fn ascii_uppercase(text: Seq<char>) -> Seq<char> {
    text.map_values(
        |c: char|
            if 'a' <= c && c <= 'z' {
                ((c as u32) - 32) as char
            } else {
                c
            },
    )
}

/// Returns the upper-case equivalent of `text`.
///
/// Trusted: calls `str::to_uppercase`. Its result is named
/// `uppercase_of`; the contract also states what std documents for ASCII
/// text, that each lower-case letter becomes its upper-case letter and
/// every other character stays. What it does to other scripts is left unsaid.
#[verifier::external_body]
fn to_uppercase(text: &str) -> (upper: String)
    ensures
        upper@ == uppercase_of(text@),
        is_ascii_text(text@) ==> upper@ == ascii_uppercase(text@),
{
    text.to_uppercase()
}

/// The rows of `text` drawn in block characters.
pub open spec fn enlarged_rows(text: Seq<char>) -> Seq<Seq<char>> {
    Seq::new(9, |row: int| enlarged_row(text, row))
}

/// The reading of a rate and its unit: `(number, unit)`, such as
/// `("200.0", "Mbps")`.
pub open spec fn reading_parts(rate: (nat, nat)) -> (Seq<char>, Seq<char>) {
    let m = magnitude_of(rate);
    (fixed_point(scaled_units(rate, m), m.spec_decimals()), m.spec_symbol())
}

/// The rate drawn as large as `width` columns and the font allow: the unit
/// beside the number, the unit as small text under it, or both as small text.
pub open spec fn reading_lines(rate: (nat, nat), width: nat) -> Seq<Seq<char>> {
    let (number, unit) = reading_parts(rate);
    let beside = number.push(' ') + ascii_uppercase(unit);
    if drawable(beside) && spec_enlarged_width(beside) <= width {
        enlarged_rows(beside)
    } else if drawable(number) && spec_enlarged_width(number) <= width {
        enlarged_rows(number) + seq![Seq::empty(), unit]
    } else {
        seq![number.push(' ') + unit]
    }
}

/// The text of the elapsed time, whole seconds: `5s`.
pub open spec fn elapsed_text(nanos: nat) -> Seq<char> {
    fixed_point(round_half_even(nanos, 1_000_000_000), 0) + "s"@
}

/// The elapsed time is shown in whole seconds, to the nearest second with a
/// tie going to the even one, followed by `s`.
pub proof fn lemma_elapsed_reads_to_the_nearest_second(nanos: nat)
    ensures
        ({
            let text = elapsed_text(nanos);
            let secs = round_half_even(nanos, 1_000_000_000);
            &&& text.len() >= 2
            &&& text.last() == 's'
            &&& writes_fixed(text.drop_last(), secs, 0)
            &&& (2 * secs - 1) * 1_000_000_000 <= 2 * nanos <= (2 * secs + 1) * 1_000_000_000
        }),
{
    let secs = round_half_even(nanos, 1_000_000_000);
    lemma_round_half_even_is_nearest(nanos, 1_000_000_000);
    lemma_fixed_point_denotes(secs, 0);
    reveal_strlit("s");
    assert(elapsed_text(nanos).drop_last() =~= fixed_point(secs, 0));
}

/// The frame for a transfer sample `width` columns wide: the direction, then
/// the reading once it has settled, then the time since the phase began.
pub open spec fn frame_lines(progress: Progress, width: nat) -> Seq<Seq<char>> {
    let middle = match progress.stage {
        Stage::Warmup => seq!["warming up"@],
        Stage::Measuring => reading_lines(progress.rate@, width),
    };
    seq![uppercase_of(progress.direction@), Seq::empty()] + middle + seq![
        Seq::empty(),
        elapsed_text(progress.elapsed@),
    ]
}

/// The text of each string.
pub open spec fn line_texts(lines: Seq<String>) -> Seq<Seq<char>> {
    lines.map_values(|line: String| line@)
}

/// The lines of a frame for a transfer sample.
///
/// Showing the unsettled figure would mean displaying a number several
/// times the real one and then walking it back as the window fills, so a
/// warming sample says so instead.
pub fn frame(progress: Progress, width: u16) -> (lines: Vec<String>)
    ensures
        line_texts(lines@) == frame_lines(progress, width as nat),
        is_ascii_text(progress.direction@) ==> line_texts(lines@)[0] == ascii_uppercase(
            progress.direction@,
        ),
{
    let mut lines: Vec<String> = Vec::new();
    lines.push(to_uppercase(progress.direction));
    lines.push(String::new());
    let ghost head = line_texts(lines@);
    match progress.stage {
        Stage::Warmup => {
            lines.push(String::from_str("warming up"));
        },
        Stage::Measuring => {
            let mut drawn = reading(progress, width);
            lines.append(&mut drawn);
        },
    }
    lines.push(String::new());
    let whole = rounded_half_even(progress.elapsed.as_nanos() as u128, 1_000_000_000);
    let mut elapsed = String::new();
    push_fixed(&mut elapsed, whole, 0);
    elapsed.append("s");
    lines.push(elapsed);
    assert(line_texts(lines@) =~= frame_lines(progress, width as nat));
    lines
}

/// Draws the rate as large as the screen and the font allow.
///
/// Three layouts, each the fallback for the one above it: the unit beside
/// the number, the unit as small text under it, and both as small text. A
/// unit set beside the number nearly doubles its width, which overruns a
/// normal terminal, and a narrow window cannot hold even the number.
/// Wrapping the art would look like a fault, so the display gives up size
/// instead: whatever is drawn large fits the width.
pub fn reading(progress: Progress, width: u16) -> (lines: Vec<String>)
    ensures
        line_texts(lines@) == reading_lines(progress.rate@, width as nat),
        lines@.len() > 1 ==> forall|i: int|
            0 <= i < lines@.len() ==> (#[trigger] lines@[i])@.len() <= width,
{
    let (units, magnitude) = progress.rate.scaled();
    let mut number = String::new();
    push_fixed(&mut number, units, magnitude.decimals());
    let unit = magnitude.symbol();
    let mut beside = number.clone();
    push_char(&mut beside, ' ');
    proof {
        let symbol = magnitude.spec_symbol();
        assert forall|i: int| 0 <= i < symbol.len() implies (#[trigger] symbol[i] as u32) < 128 by {
            assert(symbol.len() == 4);
            assert(i == 0 || i == 1 || i == 2 || i == 3);
        }
    }
    beside.append(to_uppercase(unit).as_str());
    let ghost rate = progress.rate@;
    proof {
        assert forall|r: int| 0 <= r < 9 implies #[trigger] enlarged_row(beside@, r).len()
            == spec_enlarged_width(beside@) by {
            lemma_enlarged_width(beside@, r);
        }
        assert forall|r: int| 0 <= r < 9 implies #[trigger] enlarged_row(number@, r).len()
            == spec_enlarged_width(number@) by {
            lemma_enlarged_width(number@, r);
        }
    }
    if can_draw(beside.as_str()) && enlarged_width(beside.as_str()) <= width as usize {
        let drawn = enlarge(beside.as_str());
        assert(line_texts(drawn@) =~= reading_lines(rate, width as nat));
        return drawn;
    }
    if can_draw(number.as_str()) && enlarged_width(number.as_str()) <= width as usize {
        let mut drawn = enlarge(number.as_str());
        drawn.push(String::new());
        drawn.push(String::from_str(unit));
        assert(line_texts(drawn@) =~= reading_lines(rate, width as nat));
        return drawn;
    }
    let mut text = number;
    push_char(&mut text, ' ');
    text.append(unit);
    let mut lines: Vec<String> = Vec::new();
    lines.push(text);
    assert(line_texts(lines@) =~= reading_lines(rate, width as nat));
    lines
}

} // verus!
