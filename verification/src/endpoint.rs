//! The server side of a measurement.
//!
//! No token is needed and no server list has to be ranked: the host is
//! anycast, so the network already routes each client to a nearby point of
//! presence.

use vstd::prelude::*;

use crate::error::Error;
use crate::numerals::{chars_of, decimal, push_decimal, string_of};

verus! {

/// The host the speed test routes are served from.
pub open spec fn cloudflare_host() -> Seq<char> {
    "speed.cloudflare.com"@
}

/// A host exposing download, upload and trace routes.
#[derive(Clone, Debug)]
pub struct Endpoint {
    host: String,
}

impl View for Endpoint {
    /// The host name.
    type V = Seq<char>;

    closed spec fn view(&self) -> Seq<char> {
        self.host@
    }
}

impl Endpoint {
    /// Returns the Cloudflare speed test host.
    pub fn cloudflare() -> (endpoint: Self)
        ensures
            endpoint@ == cloudflare_host(),
    {
        Endpoint { host: String::from_str("speed.cloudflare.com") }
    }

    /// Returns the host name, for latency probes that dial it directly.
    pub fn host(&self) -> (host: &str)
        ensures
            host@ == self@,
    {
        self.host.as_str()
    }

    /// Returns the `host:port` pair to open a TCP connection to.
    pub fn socket_address(&self) -> (address: String)
        ensures
            address@ == self@ + ":443"@,
    {
        let mut address = self.host.clone();
        address.append(":443");
        address
    }

    /// Returns the URL serving a body of exactly `bytes` bytes.
    pub fn download_url(&self, bytes: u64) -> (url: String)
        ensures
            url@ == "https://"@ + self@ + "/__down?bytes="@ + decimal(bytes as nat),
    {
        let mut url = String::from_str("https://");
        url.append(self.host.as_str());
        url.append("/__down?bytes=");
        push_decimal(&mut url, bytes as u128);
        url
    }

    /// Returns the URL that discards whatever body is posted to it.
    pub fn upload_url(&self) -> (url: String)
        ensures
            url@ == "https://"@ + self@ + "/__up"@,
    {
        let mut url = String::from_str("https://");
        url.append(self.host.as_str());
        url.append("/__up");
        url
    }

    /// Returns the URL describing the connection as the server sees it.
    pub fn trace_url(&self) -> (url: String)
        ensures
            url@ == "https://"@ + self@ + "/cdn-cgi/trace"@,
    {
        let mut url = String::from_str("https://");
        url.append(self.host.as_str());
        url.append("/cdn-cgi/trace");
        url
    }
}


/// The value of an optional string.
pub open spec fn optional_text(text: Option<String>) -> Option<Seq<char>> {
    match text {
        Some(text) => Some(text@),
        None => None,
    }
}

/// What the edge server reports about the connection.
///
/// Every field is optional because this is diagnostic detail shown under
/// `--verbose`; a trace missing a key must not fail the measurement.
#[derive(Clone, Debug, Default, PartialEq, Eq)]
pub struct ClientInfo {
    /// Public IP address the request arrived from.
    pub ip: Option<String>,
    /// IATA code of the point of presence that served the request.
    pub colo: Option<String>,
    /// Two letter country code the request was geolocated to.
    pub country: Option<String>,
}

/// The fields a trace response fills in, and whether it held any
/// `key=value` line at all.
pub struct TraceFields {
    pub ip: Option<Seq<char>>,
    pub colo: Option<Seq<char>>,
    pub country: Option<Seq<char>>,
    pub any_pair: bool,
}

impl ClientInfo {
    /// The fields, in the order `(ip, colo, country)`.
    pub open spec fn fields(self) -> (Option<Seq<char>>, Option<Seq<char>>, Option<Seq<char>>) {
        (optional_text(self.ip), optional_text(self.colo), optional_text(self.country))
    }

    /// Returns the connection metadata with no field known.
    pub fn unknown() -> (info: Self)
        ensures
            info.fields() == (None::<Seq<char>>, None::<Seq<char>>, None::<Seq<char>>),
    {
        ClientInfo { ip: None, colo: None, country: None }
    }
}

/// Whether `c` is white space as Unicode defines it, the set that
/// `char::is_whitespace` and `str::trim` use.
pub open spec fn is_white_space(c: char) -> bool {
    let u = c as u32;
    ||| 9 <= u <= 13
    ||| u == 32
    ||| u == 0x85
    ||| u == 0xA0
    ||| u == 0x1680
    ||| 0x2000 <= u <= 0x200A
    ||| u == 0x2028
    ||| u == 0x2029
    ||| u == 0x202F
    ||| u == 0x205F
    ||| u == 0x3000
}

/// Returns whether `c` is white space.
pub fn white_space(c: char) -> (ws: bool)
    ensures
        ws == is_white_space(c),
{
    let u = c as u32;
    (9 <= u && u <= 13) || u == 32 || u == 0x85 || u == 0xA0 || u == 0x1680 || (0x2000 <= u && u
        <= 0x200A) || u == 0x2028 || u == 0x2029 || u == 0x202F || u == 0x205F || u == 0x3000
}

/// `s` without its leading white space.
pub open spec fn trim_start(s: Seq<char>) -> Seq<char>
    decreases s.len(),
{
    if s.len() > 0 && is_white_space(s[0]) {
        trim_start(s.drop_first())
    } else {
        s
    }
}

/// `s` without its trailing white space.
pub open spec fn trim_end(s: Seq<char>) -> Seq<char>
    decreases s.len(),
{
    if s.len() > 0 && is_white_space(s.last()) {
        trim_end(s.drop_last())
    } else {
        s
    }
}

/// `s` without leading and trailing white space.
pub open spec fn trim(s: Seq<char>) -> Seq<char> {
    trim_end(trim_start(s))
}

/// Where `c` first occurs in `s`, if it does.
pub open spec fn first_index_of(s: Seq<char>, c: char) -> Option<int> {
    if exists|i: int| 0 <= i < s.len() && s[i] == c && forall|j: int| 0 <= j < i ==> s[j] != c {
        Some(choose|i: int| 0 <= i < s.len() && s[i] == c && forall|j: int| 0 <= j < i ==> s[j] != c)
    } else {
        None
    }
}

/// The pieces of `s` between newline characters, the last one being the
/// text after the final newline (possibly empty).
pub open spec fn newline_pieces(s: Seq<char>) -> Seq<Seq<char>>
    decreases s.len(),
{
    if s.len() == 0 {
        seq![Seq::empty()]
    } else {
        let pieces = newline_pieces(s.drop_last());
        if s.last() == '\n' {
            pieces.push(Seq::empty())
        } else {
            pieces.update(pieces.len() - 1, pieces.last().push(s.last()))
        }
    }
}

/// A newline-terminated line without the carriage return before its newline.
pub open spec fn strip_cr(line: Seq<char>) -> Seq<char> {
    if line.len() > 0 && line.last() == '\r' {
        line.drop_last()
    } else {
        line
    }
}

/// The lines of `s` as `str::lines` yields them: split at `\n` or `\r\n`,
/// with no empty line after a final line ending.
pub open spec fn text_lines(s: Seq<char>) -> Seq<Seq<char>> {
    let pieces = newline_pieces(s);
    let ended = pieces.drop_last().map_values(|p: Seq<char>| strip_cr(p));
    if pieces.last().len() == 0 {
        ended
    } else {
        ended.push(pieces.last())
    }
}

/// A trace with nothing read from it yet.
pub open spec fn no_fields() -> TraceFields {
    TraceFields { ip: None, colo: None, country: None, any_pair: false }
}

/// Reads one trace line: a `key=value` pair whose trimmed value is not empty
/// sets the field its key names (`ip`, `colo`, or `loc` for the country).
pub open spec fn absorb_line(acc: TraceFields, line: Seq<char>) -> TraceFields {
    match first_index_of(line, '=') {
        None => acc,
        Some(k) => {
            let key = line.take(k);
            let value = trim(line.skip(k + 1));
            if value.len() == 0 {
                TraceFields { any_pair: true, ..acc }
            } else if key == seq!['i', 'p'] {
                TraceFields { ip: Some(value), any_pair: true, ..acc }
            } else if key == seq!['c', 'o', 'l', 'o'] {
                TraceFields { colo: Some(value), any_pair: true, ..acc }
            } else if key == seq!['l', 'o', 'c'] {
                TraceFields { country: Some(value), any_pair: true, ..acc }
            } else {
                TraceFields { any_pair: true, ..acc }
            }
        },
    }
}

/// What a `/cdn-cgi/trace` body says, read line by line.
pub open spec fn parse_trace(body: Seq<char>) -> TraceFields {
    text_lines(body).fold_left(no_fields(), |acc: TraceFields, line: Seq<char>| absorb_line(acc, line))
}

/// The line `key=value`.
pub open spec fn pair_line(key: Seq<char>, value: Seq<char>) -> Seq<char> {
    key + seq!['='] + value
}

/// The keys a trace is read for: `ip`, `colo` and `loc`.
pub open spec fn is_trace_key(key: Seq<char>) -> bool {
    key == seq!['i', 'p'] || key == seq!['c', 'o', 'l', 'o'] || key == seq!['l', 'o', 'c']
}

/// The field that the trace key `key` fills: `ip` the address, `colo` the
/// point of presence, `loc` the country.
pub open spec fn field_for(fields: TraceFields, key: Seq<char>) -> Option<Seq<char>> {
    if key == seq!['i', 'p'] {
        fields.ip
    } else if key == seq!['c', 'o', 'l', 'o'] {
        fields.colo
    } else {
        fields.country
    }
}

/// The first `=` of `key=value` is the one after the key, when the key has none.
proof fn lemma_first_equals_sign(key: Seq<char>, value: Seq<char>)
    requires
        forall|i: int| 0 <= i < key.len() ==> key[i] != '=',
    ensures
        first_index_of(pair_line(key, value), '=') == Some(key.len() as int),
{
    let line = pair_line(key, value);
    let k = key.len() as int;
    assert(line[k] == '=');
    assert(forall|j: int| 0 <= j < k ==> line[j] == key[j]);
    assert(exists|i: int|
        0 <= i < line.len() && line[i] == '=' && forall|j: int| 0 <= j < i ==> line[j] != '=') by {
        assert(0 <= k < line.len() && line[k] == '=' && forall|j: int| 0 <= j < k ==> line[j] != '=');
    }
    let w = choose|i: int|
        0 <= i < line.len() && line[i] == '=' && forall|j: int| 0 <= j < i ==> line[j] != '=';
    if w < k {
        assert(line[w] == key[w]);
    } else if w > k {
        assert(line[k] != '=');
    }
}

/// A `key=value` line whose trimmed value is not empty fills the key's
/// field with that value, whatever characters it holds.
pub proof fn lemma_pair_fills_its_field(acc: TraceFields, key: Seq<char>, value: Seq<char>)
    requires
        is_trace_key(key),
        trim(value).len() > 0,
    ensures
        field_for(absorb_line(acc, pair_line(key, value)), key) == Some(trim(value)),
        absorb_line(acc, pair_line(key, value)).any_pair,
{
    lemma_first_equals_sign(key, value);
    let line = pair_line(key, value);
    let k = key.len() as int;
    assert(line.take(k) =~= key);
    assert(line.skip(k + 1) =~= value);
}

/// A line that does not begin with `key=` leaves the key's field as it was.
proof fn lemma_other_line_keeps_field(acc: TraceFields, key: Seq<char>, line: Seq<char>)
    requires
        is_trace_key(key),
        !pair_line(key, Seq::empty()).is_prefix_of(line),
    ensures
        field_for(absorb_line(acc, line), key) == field_for(acc, key),
        acc.any_pair ==> absorb_line(acc, line).any_pair,
{
    match first_index_of(line, '=') {
        None => {},
        Some(k) => {
            let witness = choose|i: int|
                0 <= i < line.len() && line[i] == '=' && forall|j: int| 0 <= j < i ==> line[j] != '=';
            assert(k == witness);
            if line.take(k) == key {
                let prefix = pair_line(key, Seq::empty());
                assert(prefix.len() == k + 1);
                assert(forall|j: int| 0 <= j < prefix.len() ==> prefix[j] == line[j]) by {
                    assert forall|j: int| 0 <= j < prefix.len() implies prefix[j] == line[j] by {
                        if j < k {
                            assert(prefix[j] == key[j]);
                            assert(line.take(k)[j] == line[j]);
                        }
                    }
                }
                assert(prefix =~= line.subrange(0, prefix.len() as int));
            }
        },
    }
}

/// Lines none of which begins with `key=` leave the key's field as it was.
proof fn lemma_other_lines_keep_field(acc: TraceFields, key: Seq<char>, lines: Seq<Seq<char>>)
    requires
        is_trace_key(key),
        forall|m: int| 0 <= m < lines.len() ==> !pair_line(key, Seq::empty()).is_prefix_of(
            #[trigger] lines[m],
        ),
    ensures
        field_for(
            lines.fold_left(acc, |a: TraceFields, line: Seq<char>| absorb_line(a, line)),
            key,
        ) == field_for(acc, key),
        acc.any_pair ==> lines.fold_left(
            acc,
            |a: TraceFields, line: Seq<char>| absorb_line(a, line),
        ).any_pair,
    decreases lines.len(),
{
    if lines.len() > 0 {
        let front = lines.drop_last();
        assert forall|m: int| 0 <= m < front.len() implies !pair_line(
            key,
            Seq::empty(),
        ).is_prefix_of(#[trigger] front[m]) by {
            assert(front[m] == lines[m]);
        }
        lemma_other_lines_keep_field(acc, key, front);
        let f = |a: TraceFields, line: Seq<char>| absorb_line(a, line);
        lemma_other_line_keeps_field(front.fold_left(acc, f), key, lines.last());
    }
}

/// The last `ip=`, `colo=` or `loc=` line of a trace decides that field:
/// when its trimmed value is not empty, the field is exactly that value,
/// whatever characters it holds, and the trace counts as one.
pub proof fn lemma_last_pair_decides_its_field(
    body: Seq<char>,
    key: Seq<char>,
    value: Seq<char>,
    k: int,
)
    requires
        is_trace_key(key),
        0 <= k < text_lines(body).len(),
        text_lines(body)[k] == pair_line(key, value),
        trim(value).len() > 0,
        forall|m: int|
            k < m < text_lines(body).len() ==> !pair_line(key, Seq::empty()).is_prefix_of(
                #[trigger] text_lines(body)[m],
            ),
    ensures
        field_for(parse_trace(body), key) == Some(trim(value)),
        parse_trace(body).any_pair,
{
    let lines = text_lines(body);
    let f = |a: TraceFields, line: Seq<char>| absorb_line(a, line);
    lines.lemma_fold_left_split(no_fields(), f, k + 1);
    let upto = lines.subrange(0, k + 1);
    assert(upto.drop_last() =~= lines.subrange(0, k));
    assert(upto.last() == pair_line(key, value));
    let before = lines.subrange(0, k).fold_left(no_fields(), f);
    lemma_pair_fills_its_field(before, key, value);
    let rest = lines.subrange(k + 1, lines.len() as int);
    assert forall|m: int| 0 <= m < rest.len() implies !pair_line(key, Seq::empty()).is_prefix_of(
        #[trigger] rest[m],
    ) by {
        assert(rest[m] == lines[k + 1 + m]);
    }
    lemma_other_lines_keep_field(upto.fold_left(no_fields(), f), key, rest);
}

/// The view of the fields filled in so far.
pub open spec fn fields_of(info: ClientInfo, any_pair: bool) -> TraceFields {
    TraceFields {
        ip: optional_text(info.ip),
        colo: optional_text(info.colo),
        country: optional_text(info.country),
        any_pair,
    }
}

/// Every text has at least one newline piece.
pub proof fn lemma_newline_pieces_nonempty(s: Seq<char>)
    ensures
        newline_pieces(s).len() >= 1,
    decreases s.len(),
{
    if s.len() > 0 {
        lemma_newline_pieces_nonempty(s.drop_last());
    }
}

/// Returns `chars[start..end]` without its leading and trailing white space,
/// as a range.
fn trimmed_range(chars: &Vec<char>, start: usize, end: usize) -> (range: (usize, usize))
    requires
        start <= end <= chars@.len(),
    ensures
        start <= range.0 <= range.1 <= end,
        chars@.subrange(range.0 as int, range.1 as int) == trim(
            chars@.subrange(start as int, end as int),
        ),
{
    let mut a = start;
    while a < end && white_space(chars[a])
        invariant
            start <= a <= end <= chars@.len(),
            trim_start(chars@.subrange(start as int, end as int)) == trim_start(
                chars@.subrange(a as int, end as int),
            ),
        decreases end - a,
    {
        assert(chars@.subrange(a as int, end as int).drop_first() =~= chars@.subrange(
            a + 1,
            end as int,
        ));
        a = a + 1;
    }
    assert(trim_start(chars@.subrange(a as int, end as int)) == chars@.subrange(
        a as int,
        end as int,
    ));
    let mut b = end;
    while b > a && white_space(chars[b - 1])
        invariant
            start <= a <= b <= end <= chars@.len(),
            trim_end(chars@.subrange(a as int, end as int)) == trim_end(
                chars@.subrange(a as int, b as int),
            ),
        decreases b - a,
    {
        assert(chars@.subrange(a as int, b as int).drop_last() =~= chars@.subrange(
            a as int,
            b - 1,
        ));
        b = b - 1;
    }
    assert(trim_end(chars@.subrange(a as int, b as int)) == chars@.subrange(a as int, b as int));
    (a, b)
}

/// Returns where `c` first occurs in `chars[start..end]`, relative to `start`.
fn find_char(chars: &Vec<char>, start: usize, end: usize, c: char) -> (found: Option<usize>)
    requires
        start <= end <= chars@.len(),
    ensures
        match found {
            Some(k) => first_index_of(chars@.subrange(start as int, end as int), c) == Some(
                k as int,
            ) && k < end - start,
            None => first_index_of(chars@.subrange(start as int, end as int), c) == None::<int>,
        },
{
    let ghost s = chars@.subrange(start as int, end as int);
    let mut i = start;
    while i < end
        invariant
            start <= i <= end <= chars@.len(),
            s == chars@.subrange(start as int, end as int),
            forall|j: int| 0 <= j < i - start ==> s[j] != c,
        decreases end - i,
    {
        if chars[i] == c {
            let k = i - start;
            proof {
                assert(s[k as int] == c);
                let w = choose|w: int|
                    0 <= w < s.len() && s[w] == c && forall|j: int| 0 <= j < w ==> s[j] != c;
                assert(0 <= k < s.len() && s[k as int] == c && forall|j: int|
                    0 <= j < k ==> s[j] != c);
                if w < k {
                    assert(s[w] != c);
                } else if w > k {
                    assert(s[k as int] != c);
                }
            }
            return Some(k);
        }
        i = i + 1;
    }
    None
}

impl ClientInfo {
    /// Parses the `key=value` lines of a `/cdn-cgi/trace` response.
    ///
    /// A body without a single `key=value` line is not a trace at all, such
    /// as an HTML error page, and is rejected.
    pub fn from_trace(body: &str) -> (result: Result<Self, Error>)
        ensures
            match result {
                Ok(info) => parse_trace(body@).any_pair && fields_of(info, true) == parse_trace(
                    body@,
                ),
                Err(e) => !parse_trace(body@).any_pair && (e matches Error::MalformedResponse {
                    detail,
                } && detail@ == "trace response contained no key=value pairs"@),
            },
    {
        let chars = chars_of(body);
        let ghost s = chars@;
        let mut info = ClientInfo { ip: None, colo: None, country: None };
        let mut any_pair = false;
        let mut line_start: usize = 0;
        let mut i: usize = 0;
        proof {
            assert(s.take(0) =~= Seq::<char>::empty());
            assert(newline_pieces(s.take(0)).drop_last() =~= Seq::<Seq<char>>::empty());
            assert(newline_pieces(s.take(0)).drop_last().map_values(|p: Seq<char>| strip_cr(p))
                =~= Seq::<Seq<char>>::empty());
            assert(s.subrange(0, 0) =~= Seq::<char>::empty());
        }
        while i < chars.len()
            invariant
                s == chars@,
                line_start <= i <= chars@.len(),
                newline_pieces(s.take(i as int)).last() == s.subrange(line_start as int, i as int),
                fields_of(info, any_pair) == newline_pieces(s.take(i as int)).drop_last().map_values(
                    |p: Seq<char>| strip_cr(p),
                ).fold_left(
                    no_fields(),
                    |acc: TraceFields, line: Seq<char>| absorb_line(acc, line),
                ),
            decreases chars@.len() - i,
        {
            let ghost pieces = newline_pieces(s.take(i as int));
            proof {
                lemma_newline_pieces_nonempty(s.take(i as int));
                assert(s.take(i + 1).drop_last() =~= s.take(i as int));
                assert(s.take(i + 1).last() == s[i as int]);
            }
            if chars[i] == '\n' {
                let end = if i > line_start && chars[i - 1] == '\r' {
                    i - 1
                } else {
                    i
                };
                proof {
                    let piece = s.subrange(line_start as int, i as int);
                    if i > line_start && chars[i - 1] == '\r' {
                        assert(piece.drop_last() =~= s.subrange(line_start as int, end as int));
                    }
                    assert(strip_cr(piece) == s.subrange(line_start as int, end as int));
                }
                absorb(&chars, line_start, end, &mut info, &mut any_pair);
                proof {
                    let next = newline_pieces(s.take(i + 1));
                    assert(next == pieces.push(Seq::<char>::empty()));
                    assert(next.drop_last() =~= pieces);
                    let f = |p: Seq<char>| strip_cr(p);
                    assert(pieces.map_values(f) =~= pieces.drop_last().map_values(f).push(
                        f(pieces.last()),
                    ));
                    assert(pieces.map_values(f).drop_last() =~= pieces.drop_last().map_values(f));
                    assert(s.subrange(i + 1, i + 1) =~= Seq::<char>::empty());
                }
                line_start = i + 1;
            } else {
                proof {
                    let next = newline_pieces(s.take(i + 1));
                    assert(next == pieces.update(pieces.len() - 1, pieces.last().push(s[i as int])));
                    assert(next.drop_last() =~= pieces.drop_last());
                    assert(next.last() =~= s.subrange(line_start as int, i + 1));
                }
            }
            i = i + 1;
        }
        proof {
            assert(s.take(chars@.len() as int) =~= s);
        }
        if line_start < chars.len() {
            absorb(&chars, line_start, chars.len(), &mut info, &mut any_pair);
            proof {
                let pieces = newline_pieces(s);
                let f = |p: Seq<char>| strip_cr(p);
                let ended = pieces.drop_last().map_values(f);
                assert(ended.push(pieces.last()).drop_last() =~= ended);
            }
        }
        if any_pair {
            Ok(info)
        } else {
            Err(Error::MalformedResponse {
                detail: String::from_str("trace response contained no key=value pairs"),
            })
        }
    }
}

impl ClientInfo {
    /// Reads the reply to a trace request: the status must report success
    /// before the body is parsed as a trace.
    pub fn from_reply(status: u16, body: &str) -> (result: Result<Self, Error>)
        ensures
            !(200 <= status <= 299) ==> (result matches Err(Error::UnexpectedStatus { status: s })
                && s == status),
            200 <= status <= 299 ==> match result {
                Ok(info) => parse_trace(body@).any_pair && fields_of(info, true) == parse_trace(
                    body@,
                ),
                Err(e) => !parse_trace(body@).any_pair && (e matches Error::MalformedResponse {
                    detail,
                } && detail@ == "trace response contained no key=value pairs"@),
            },
    {
        if status < 200 || status > 299 {
            return Err(Error::UnexpectedStatus { status });
        }
        ClientInfo::from_trace(body)
    }
}

/// Reads the line `chars[start..end]` into the fields gathered so far.
fn absorb(
    chars: &Vec<char>,
    start: usize,
    end: usize,
    info: &mut ClientInfo,
    any_pair: &mut bool,
)
    requires
        start <= end <= chars@.len(),
    ensures
        fields_of(*final(info), *final(any_pair)) == absorb_line(
            fields_of(*old(info), *old(any_pair)),
            chars@.subrange(start as int, end as int),
        ),
{
    let ghost line = chars@.subrange(start as int, end as int);
    match find_char(chars, start, end, '=') {
        None => {},
        Some(k) => {
            let key_end = start + k;
            let (a, b) = trimmed_range(chars, key_end + 1, end);
            proof {
                assert(line.take(k as int) =~= chars@.subrange(start as int, key_end as int));
                assert(line.skip(k + 1) =~= chars@.subrange(key_end + 1, end as int));
            }
            let ghost key = chars@.subrange(start as int, key_end as int);
            *any_pair = true;
            if a == b {
            } else if k == 2 && chars[start] == 'i' && chars[start + 1] == 'p' {
                assert(key =~= seq!['i', 'p']);
                info.ip = Some(string_of(chars, a, b));
            } else if k == 4 && chars[start] == 'c' && chars[start + 1] == 'o' && chars[start + 2]
                == 'l' && chars[start + 3] == 'o' {
                assert(key =~= seq!['c', 'o', 'l', 'o']);
                assert(key != seq!['i', 'p']);
                info.colo = Some(string_of(chars, a, b));
            } else if k == 3 && chars[start] == 'l' && chars[start + 1] == 'o' && chars[start + 2]
                == 'c' {
                assert(key =~= seq!['l', 'o', 'c']);
                assert(key != seq!['i', 'p']);
                assert(key != seq!['c', 'o', 'l', 'o']);
                info.country = Some(string_of(chars, a, b));
            } else {
                proof {
                    if key == seq!['i', 'p'] {
                        assert(key[0] == 'i' && key[1] == 'p');
                    }
                    if key == seq!['c', 'o', 'l', 'o'] {
                        assert(key[0] == 'c' && key[1] == 'o' && key[2] == 'l' && key[3] == 'o');
                    }
                    if key == seq!['l', 'o', 'c'] {
                        assert(key[0] == 'l' && key[1] == 'o' && key[2] == 'c');
                    }
                }
            }
        },
    }
}

} // verus!
