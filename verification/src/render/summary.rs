//! Presenting a finished report.

use vstd::prelude::*;

use crate::endpoint::optional_text;
use crate::numerals::{
    fixed_point, lemma_fixed_point_denotes, lemma_round_half_even_is_nearest, push_char, push_fixed,
    push_repeated, repeat, round_half_even, rounded_half_even, writes_fixed,
};
use crate::report::Report;
use crate::units::{Duration, rate_text, transfer_rate};

verus! {

/// How wide the label column of a summary is, in characters.
pub const LABEL_WIDTH: usize = 10;

/// How much of a report to show.
#[derive(Clone, Copy, Debug, Default, PartialEq, Eq, Structural)]
pub enum Detail {
    /// Just the measurements.
    #[default]
    Plain,
    /// The measurements plus where they were taken.
    Verbose,
}

/// A labelled line: the label left-aligned in its column, then the value.
pub open spec fn row_text(label: Seq<char>, value: Seq<char>) -> Seq<char> {
    let pad = if label.len() < LABEL_WIDTH {
        (LABEL_WIDTH - label.len()) as nat
    } else {
        0
    };
    label + repeat(' ', pad) + seq![' '] + value
}

/// A value with an optional note in brackets after it.
pub open spec fn annotated(value: Seq<char>, note: Option<Seq<char>>) -> Seq<char> {
    match note {
        Some(note) => value + " ("@ + note + ")"@,
        None => value,
    }
}

/// A span in milliseconds with one decimal, such as `13.0 ms`.
pub open spec fn milliseconds_text(nanos: nat) -> Seq<char> {
    fixed_point(round_half_even(nanos, 100_000), 1) + " ms"@
}

/// A span in seconds with one decimal, such as `24.5s`.
pub open spec fn seconds_text(nanos: nat) -> Seq<char> {
    fixed_point(round_half_even(nanos, 100_000_000), 1) + "s"@
}

/// A span is shown in tenths to the nearest tenth, a tie going to the even
/// one: `nanos` nanoseconds read as `t / 10` milliseconds followed by ` ms`,
/// and as `u / 10` seconds followed by `s`, each give or take half a tenth.
pub proof fn lemma_spans_read_to_the_nearest_tenth(nanos: nat)
    ensures
        ({
            let ms = milliseconds_text(nanos);
            let t = round_half_even(nanos, 100_000);
            &&& ms.len() >= 3
            &&& ms.skip(ms.len() - 3) == " ms"@
            &&& writes_fixed(ms.take(ms.len() - 3), t, 1)
            &&& (2 * t - 1) * 1_000_000 <= 2 * 10 * nanos <= (2 * t + 1) * 1_000_000
        }),
        ({
            let secs = seconds_text(nanos);
            let u = round_half_even(nanos, 100_000_000);
            &&& secs.len() >= 1
            &&& secs.last() == 's'
            &&& writes_fixed(secs.drop_last(), u, 1)
            &&& (2 * u - 1) * 1_000_000_000 <= 2 * 10 * nanos <= (2 * u + 1) * 1_000_000_000
        }),
{
    let t = round_half_even(nanos, 100_000);
    let u = round_half_even(nanos, 100_000_000);
    lemma_round_half_even_is_nearest(nanos, 100_000);
    lemma_round_half_even_is_nearest(nanos, 100_000_000);
    lemma_fixed_point_denotes(t, 1);
    lemma_fixed_point_denotes(u, 1);
    reveal_strlit(" ms");
    reveal_strlit("s");
    let ms = milliseconds_text(nanos);
    assert(ms.take(ms.len() - 3) =~= fixed_point(t, 1));
    assert(ms.skip(ms.len() - 3) =~= " ms"@);
    let secs = seconds_text(nanos);
    assert(secs.drop_last() =~= fixed_point(u, 1));
    assert((2 * t - 1) * 1_000_000 <= 2 * 10 * nanos <= (2 * t + 1) * 1_000_000) by (
    nonlinear_arith)
        requires
            (2 * t - 1) * 100_000 <= 2 * nanos,
            2 * nanos <= (2 * t + 1) * 100_000,
    ;
    assert((2 * u - 1) * 1_000_000_000 <= 2 * 10 * nanos <= (2 * u + 1) * 1_000_000_000) by (
    nonlinear_arith)
        requires
            (2 * u - 1) * 100_000_000 <= 2 * nanos,
            2 * nanos <= (2 * u + 1) * 100_000_000,
    ;
}

/// The latency reading: median, then jitter in brackets.
pub open spec fn latency_text(median: nat, jitter: nat) -> Seq<char> {
    milliseconds_text(median) + " (\u{b1}"@ + milliseconds_text(jitter) + " jitter)"@
}

/// An address, or `unknown` when the server did not say.
pub open spec fn known_or_unknown(text: Option<Seq<char>>) -> Seq<char> {
    match text {
        Some(text) => text,
        None => "unknown"@,
    }
}

/// The lines a summary of `report` shows at `detail`.
pub open spec fn summary_lines(report: crate::report::ReportView, detail: Detail) -> Seq<Seq<char>> {
    let measurements = seq![
        row_text("Latency"@, latency_text(report.latency.0, report.latency.1)),
        row_text("Download"@, rate_text(transfer_rate(report.download.0, report.download.1))),
    ];
    let with_upload = match report.upload {
        Some(up) => measurements.push(row_text("Upload"@, rate_text(transfer_rate(up.0, up.1)))),
        None => measurements,
    };
    match detail {
        Detail::Plain => with_upload,
        Detail::Verbose => with_upload + seq![
            row_text("Server"@, annotated(report.host, report.client.1)),
            row_text("Client"@, annotated(known_or_unknown(report.client.0), report.client.2)),
            row_text("Duration"@, seconds_text(report.duration)),
        ],
    }
}

/// A summary has its two measurements, an upload row exactly when the
/// upload was measured, and three more rows when verbose. A skipped upload
/// leaves no row rather than a zero: no line begins with `Upload`.
pub proof fn lemma_summary_shape(report: crate::report::ReportView, detail: Detail)
    ensures
        summary_lines(report, detail).len() == 2 + (if report.upload is Some {
            1int
        } else {
            0int
        }) + (if detail == Detail::Verbose {
            3int
        } else {
            0int
        }),
        match report.upload {
            Some(up) => summary_lines(report, detail)[2] == row_text(
                "Upload"@,
                rate_text(transfer_rate(up.0, up.1)),
            ),
            None => true,
        },
        report.upload is None ==> forall|i: int|
            0 <= i < summary_lines(report, detail).len() ==> !"Upload"@.is_prefix_of(
                #[trigger] summary_lines(report, detail)[i],
            ),
{
    reveal_strlit("Upload");
    reveal_strlit("Latency");
    reveal_strlit("Download");
    reveal_strlit("Server");
    reveal_strlit("Client");
    reveal_strlit("Duration");
    let lines = summary_lines(report, detail);
    if report.upload is None {
        assert forall|i: int| 0 <= i < lines.len() implies !"Upload"@.is_prefix_of(
            #[trigger] lines[i],
        ) by {
            assert(lines[i][0] != 'U');
            if "Upload"@.is_prefix_of(lines[i]) {
                assert(lines[i].subrange(0, 6)[0] == lines[i][0]);
                assert("Upload"@[0] == 'U');
            }
        }
    }
}

/// Returns a labelled line.
pub fn row(label: &str, value: &str) -> (line: String)
    ensures
        line@ == row_text(label@, value@),
{
    let width = crate::numerals::chars_of(label).len();
    let mut line = String::from_str(label);
    if width < LABEL_WIDTH {
        push_repeated(&mut line, ' ', LABEL_WIDTH - width);
    }
    push_char(&mut line, ' ');
    line.append(value);
    proof {
        if width >= LABEL_WIDTH {
            assert(repeat(' ', 0) =~= Seq::<char>::empty());
        }
        assert(line@ =~= row_text(label@, value@));
    }
    line
}

/// Returns `value` with `note` in brackets after it, if there is a note.
pub fn annotate(value: &str, note: Option<&str>) -> (text: String)
    ensures
        text@ == annotated(
            value@,
            match note {
                Some(n) => Some(n@),
                None => None,
            },
        ),
{
    let mut text = String::from_str(value);
    match note {
        Some(note) => {
            text.append(" (");
            text.append(note);
            text.append(")");
        },
        None => {},
    }
    text
}

/// Returns a span in milliseconds with one decimal, such as `13.0 ms`.
pub fn milliseconds(duration: Duration) -> (text: String)
    ensures
        text@ == milliseconds_text(duration@),
{
    let tenths = rounded_half_even(duration.as_nanos() as u128, 100_000);
    let mut text = String::new();
    push_fixed(&mut text, tenths, 1);
    text.append(" ms");
    text
}

/// Returns a span in seconds with one decimal, such as `24.5s`.
pub fn seconds(duration: Duration) -> (text: String)
    ensures
        text@ == seconds_text(duration@),
{
    let tenths = rounded_half_even(duration.as_nanos() as u128, 100_000_000);
    let mut text = String::new();
    push_fixed(&mut text, tenths, 1);
    text.append("s");
    text
}

/// The text of an optional string slice.
pub open spec fn optional_str(text: Option<&str>) -> Option<Seq<char>> {
    match text {
        Some(t) => Some(t@),
        None => None,
    }
}

/// Borrows the text of an optional string.
fn as_deref(text: &Option<String>) -> (borrowed: Option<&str>)
    ensures
        optional_str(borrowed) == optional_text(*text),
{
    match text {
        Some(t) => Some(t.as_str()),
        None => None,
    }
}

/// Formats a finished report as lines for a person to read.
///
/// A skipped upload leaves no row rather than a zero, so the output never
/// implies a measurement that was not taken.
pub fn summary(report: &Report, detail: Detail) -> (lines: Vec<String>)
    ensures
        lines@.map_values(|line: String| line@) == summary_lines(report@, detail),
{
    let latency = report.latency();
    let mut reading = milliseconds(latency.median());
    reading.append(" (\u{b1}");
    reading.append(milliseconds(latency.jitter()).as_str());
    reading.append(" jitter)");
    let mut lines: Vec<String> = Vec::new();
    lines.push(row("Latency", reading.as_str()));
    lines.push(row("Download", report.download().bitrate().to_text().as_str()));
    match report.upload() {
        Some(upload) => {
            lines.push(row("Upload", upload.bitrate().to_text().as_str()));
        },
        None => {},
    }
    if detail == Detail::Verbose {
        let client = report.client();
        lines.push(row("Server", annotate(report.endpoint().host(), as_deref(&client.colo)).as_str()));
        let ip = match as_deref(&client.ip) {
            Some(ip) => ip,
            None => "unknown",
        };
        lines.push(row("Client", annotate(ip, as_deref(&client.country)).as_str()));
        lines.push(row("Duration", seconds(report.duration()).as_str()));
    }
    assert(lines@.map_values(|line: String| line@) =~= summary_lines(report@, detail));
    lines
}

} // verus!
