//! The outcome of a completed speed test.

use vstd::prelude::*;

use crate::endpoint::{ClientInfo, Endpoint, optional_text};
use crate::numerals::{lemma_round_half_away_is_nearest, round_half_away, rounded_half_away};
use crate::probe::latency::Latency;
use crate::units::{
    Download, Duration, Throughput, Upload, megabit_hundredths, transfer_rate,
};

verus! {

/// What a report holds, as plain values.
pub struct ReportView {
    /// The host that served the test.
    pub host: Seq<char>,
    /// `(ip, colo, country)` as the server reported them.
    pub client: (Option<Seq<char>>, Option<Seq<char>>, Option<Seq<char>>),
    /// `(median, jitter, samples)`, the spans in nanoseconds.
    pub latency: (nat, nat, nat),
    /// `(bytes, nanoseconds)` of the download.
    pub download: (nat, nat),
    /// `(bytes, nanoseconds)` of the upload, absent when it was skipped.
    pub upload: Option<(nat, nat)>,
    /// How long the whole run took, in nanoseconds.
    pub duration: nat,
}

/// Everything a finished run has to say.
///
/// Holds the measurements in their own types rather than as loose numbers,
/// so the upload being absent is the type saying it was never run, not a
/// zero that has to be interpreted.
#[derive(Clone, Debug)]
pub struct Report {
    endpoint: Endpoint,
    client: ClientInfo,
    latency: Latency,
    download: Throughput<Download>,
    upload: Option<Throughput<Upload>>,
    duration: Duration,
}

/// The view of an optional upload measurement.
pub open spec fn optional_transfer(upload: Option<Throughput<Upload>>) -> Option<(nat, nat)> {
    match upload {
        Some(t) => Some(t@),
        None => None,
    }
}

impl View for Report {
    type V = ReportView;

    closed spec fn view(&self) -> ReportView {
        ReportView {
            host: self.endpoint@,
            client: self.client.fields(),
            latency: self.latency@,
            download: self.download@,
            upload: optional_transfer(self.upload),
            duration: self.duration@,
        }
    }
}

impl Report {
    /// Assembles a report from the measurements a run produced.
    pub fn new(
        endpoint: Endpoint,
        client: ClientInfo,
        latency: Latency,
        download: Throughput<Download>,
        upload: Option<Throughput<Upload>>,
        duration: Duration,
    ) -> (report: Self)
        ensures
            report@ == (ReportView {
                host: endpoint@,
                client: client.fields(),
                latency: latency@,
                download: download@,
                upload: optional_transfer(upload),
                duration: duration@,
            }),
    {
        Report { endpoint, client, latency, download, upload, duration }
    }

    /// Returns the host that served the test.
    pub fn endpoint(&self) -> (endpoint: &Endpoint)
        ensures
            endpoint@ == self@.host,
    {
        &self.endpoint
    }

    /// Returns what the server reported about this connection.
    pub fn client(&self) -> (client: &ClientInfo)
        ensures
            client.fields() == self@.client,
    {
        &self.client
    }

    /// Returns the round trip time and its variation.
    pub fn latency(&self) -> (latency: Latency)
        ensures
            latency@ == self@.latency,
    {
        self.latency
    }

    /// Returns the download measurement.
    pub fn download(&self) -> (download: Throughput<Download>)
        ensures
            download@ == self@.download,
    {
        self.download
    }

    /// Returns the upload measurement, absent when the phase was skipped.
    pub fn upload(&self) -> (upload: Option<Throughput<Upload>>)
        ensures
            optional_transfer(upload) == self@.upload,
    {
        self.upload
    }

    /// Returns how long the whole run took, probing included.
    pub fn duration(&self) -> (duration: Duration)
        ensures
            duration@ == self@.duration,
    {
        self.duration
    }
}

/// The numbers of the machine-readable output, with every field present:
/// readings rounded to two decimals and counted in hundredths, byte counts
/// exact, so a rate can be recomputed at full precision.
#[derive(Clone, Debug, PartialEq, Eq)]
pub struct Readings {
    pub host: String,
    /// Airport code of the point of presence that served the test.
    pub colo: Option<String>,
    pub ip: Option<String>,
    pub country: Option<String>,
    pub latency_ms_hundredths: u64,
    pub jitter_ms_hundredths: u64,
    pub download_mbps_hundredths: u128,
    pub downloaded_bytes: u64,
    /// Absent when the upload was skipped, rather than a measured zero.
    pub upload_mbps_hundredths: Option<u128>,
    pub uploaded_bytes: Option<u64>,
    pub duration_s_hundredths: u64,
}

/// Nanoseconds as milliseconds rounded to two decimals, in hundredths.
pub open spec fn millisecond_hundredths(nanos: nat) -> nat {
    round_half_away(nanos, 10_000)
}

/// Nanoseconds as seconds rounded to two decimals, in hundredths.
pub open spec fn second_hundredths(nanos: nat) -> nat {
    round_half_away(nanos, 10_000_000)
}

/// The JSON spans are the nearest hundredth, a tie rounding up: `nanos`
/// nanoseconds are `h / 100` milliseconds, and `g / 100` seconds, give or
/// take half a hundredth.
pub proof fn lemma_spans_are_nearest_hundredths(nanos: nat)
    ensures
        (2 * millisecond_hundredths(nanos) - 1) * 1_000_000 <= 2 * 100 * nanos,
        2 * 100 * nanos < (2 * millisecond_hundredths(nanos) + 1) * 1_000_000,
        (2 * second_hundredths(nanos) - 1) * 1_000_000_000 <= 2 * 100 * nanos,
        2 * 100 * nanos < (2 * second_hundredths(nanos) + 1) * 1_000_000_000,
{
    let h = millisecond_hundredths(nanos);
    let g = second_hundredths(nanos);
    lemma_round_half_away_is_nearest(nanos, 10_000);
    lemma_round_half_away_is_nearest(nanos, 10_000_000);
    assert((2 * h - 1) * 1_000_000 <= 2 * 100 * nanos < (2 * h + 1) * 1_000_000) by (
    nonlinear_arith)
        requires
            (2 * h - 1) * 10_000 <= 2 * nanos,
            2 * nanos < (2 * h + 1) * 10_000,
    ;
    assert((2 * g - 1) * 1_000_000_000 <= 2 * 100 * nanos < (2 * g + 1) * 1_000_000_000) by (
    nonlinear_arith)
        requires
            (2 * g - 1) * 10_000_000 <= 2 * nanos,
            2 * nanos < (2 * g + 1) * 10_000_000,
    ;
}

/// The upload rate in hundredths of a megabit per second, if measured.
pub open spec fn optional_rate(upload: Option<(nat, nat)>) -> Option<nat> {
    match upload {
        Some(t) => Some(megabit_hundredths(transfer_rate(t.0, t.1))),
        None => None,
    }
}

/// The uploaded byte count, if measured.
pub open spec fn optional_bytes(upload: Option<(nat, nat)>) -> Option<nat> {
    match upload {
        Some(t) => Some(t.0),
        None => None,
    }
}

/// The value of an optional 128-bit count.
pub open spec fn optional_u128(value: Option<u128>) -> Option<nat> {
    match value {
        Some(v) => Some(v as nat),
        None => None,
    }
}

/// The value of an optional 64-bit count.
pub open spec fn optional_u64(value: Option<u64>) -> Option<nat> {
    match value {
        Some(v) => Some(v as nat),
        None => None,
    }
}

/// A copy of an optional string.
fn copy_text(text: &Option<String>) -> (copy: Option<String>)
    ensures
        optional_text(copy) == optional_text(*text),
{
    match text {
        Some(t) => Some(t.clone()),
        None => None,
    }
}

/// Returns `nanos` rounded half away from zero to a multiple of `unit`,
/// counted in units.
fn rounded_span(nanos: u64, unit: u64) -> (units: u64)
    requires
        unit >= 2,
    ensures
        units == round_half_away(nanos as nat, unit as nat),
{
    assert(nanos / unit < u64::MAX) by (nonlinear_arith)
        requires
            unit >= 2,
    ;
    rounded_half_away(nanos as u128, unit as u128) as u64
}

impl Report {
    /// Returns the numbers the machine-readable output is made of.
    pub fn readings(&self) -> (readings: Readings)
        ensures
            readings.host@ == self@.host,
            optional_text(readings.colo) == self@.client.1,
            optional_text(readings.ip) == self@.client.0,
            optional_text(readings.country) == self@.client.2,
            readings.latency_ms_hundredths == millisecond_hundredths(self@.latency.0),
            readings.jitter_ms_hundredths == millisecond_hundredths(self@.latency.1),
            readings.download_mbps_hundredths == megabit_hundredths(
                transfer_rate(self@.download.0, self@.download.1),
            ),
            readings.downloaded_bytes == self@.download.0,
            optional_u128(readings.upload_mbps_hundredths) == optional_rate(self@.upload),
            optional_u64(readings.uploaded_bytes) == optional_bytes(self@.upload),
            readings.duration_s_hundredths == second_hundredths(self@.duration),
    {
        let latency = self.latency;
        let (upload_mbps_hundredths, uploaded_bytes) = match self.upload {
            Some(upload) => (
                Some(upload.bitrate().megabits_per_second_hundredths()),
                Some(upload.bytes().get()),
            ),
            None => (None, None),
        };
        Readings {
            host: String::from_str(self.endpoint.host()),
            colo: copy_text(&self.client.colo),
            ip: copy_text(&self.client.ip),
            country: copy_text(&self.client.country),
            latency_ms_hundredths: rounded_span(latency.median().as_nanos(), 10_000),
            jitter_ms_hundredths: rounded_span(latency.jitter().as_nanos(), 10_000),
            download_mbps_hundredths: self.download.bitrate().megabits_per_second_hundredths(),
            downloaded_bytes: self.download.bytes().get(),
            upload_mbps_hundredths,
            uploaded_bytes,
            duration_s_hundredths: rounded_span(self.duration.as_nanos(), 10_000_000),
        }
    }
}

} // verus!
