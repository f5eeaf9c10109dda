//! The `Range` header of a single range.

use vstd::prelude::*;
use vstd::string::*;
use vstd::pervasive::unreached;
use crate::decimal::{decimal, push_decimal};
use crate::headers::{
    has_sign_prefix, lemma_bounds_round_trip, lemma_unprefixed_u64_ok,
    lemma_unprefixed_u64_round_trip, parse_bounds, read_bounds, render_interval,
    u64_unprefixed_parse, unit_text, unprefixed_u64, Interval, OrderedRange, ParseErrorView,
    ParseHttpRangeOrContentRangeError, UNIT,
};
use crate::headers::value::{
    all_visible_ascii, ascii_bytes, ascii_text, header_bytes, header_value_of,
    lemma_plain_text_bytes, plain_text,
};
use crate::text::{
    lemma_split_first_joined, same_text, split_first, split_once, trim, trimmed,
};
use core::str::FromStr;
use http::HeaderValue;

verus! {

/// What a `Range` header asks for, as a mathematical value.
pub enum HttpRangeView {
    StartingPoint(int),
    Range(Interval),
    Suffix(int),
}

impl HttpRangeView {
    /// Whether the numbers are `u64`s and the range, if it is one, is ordered.
    pub open spec fn valid(self) -> bool {
        match self {
            HttpRangeView::StartingPoint(n) => 0 <= n <= u64::MAX,
            HttpRangeView::Range(i) => i.ordered(),
            HttpRangeView::Suffix(n) => 0 <= n <= u64::MAX,
        }
    }
}

/// A `Range` header that asks for one range of bytes.
#[derive(Debug, Clone, Copy, PartialEq, Eq)]
pub enum HttpRange {
    /// From this position to the end of the resource: `bytes=N-`.
    StartingPoint(u64),
    /// From a first to a last position: `bytes=N-M`.
    Range(OrderedRange),
    /// The last bytes of the resource, this many: `bytes=-N`.
    Suffix(u64),
}

impl View for HttpRange {
    type V = HttpRangeView;

    open spec fn view(&self) -> HttpRangeView {
        match self {
            HttpRange::StartingPoint(n) => HttpRangeView::StartingPoint(*n as int),
            HttpRange::Range(r) => HttpRangeView::Range(r@),
            HttpRange::Suffix(n) => HttpRangeView::Suffix(*n as int),
        }
    }
}

/// What the text behind `bytes=` asks for. It is cut at its first `-`; a
/// bound on both sides makes a range, one on the left a starting point, one
/// on the right a suffix.
pub open spec fn parse_range_spec(t: Seq<char>) -> Result<HttpRangeView, ParseErrorView> {
    match split_first(t, '-') {
        None => Err(ParseErrorView::MalformedRange),
        Some((start, end)) => if start.len() > 0 && end.len() > 0 {
            match parse_bounds(start, end) {
                Ok(i) => Ok(HttpRangeView::Range(i)),
                Err(e) => Err(e),
            }
        } else if start.len() > 0 {
            match unprefixed_u64(start) {
                Ok(n) => Ok(HttpRangeView::StartingPoint(n)),
                Err(_) => Err(ParseErrorView::MalformedRange),
            }
        } else if end.len() > 0 {
            match unprefixed_u64(end) {
                Ok(n) => Ok(HttpRangeView::Suffix(n)),
                Err(_) => Err(ParseErrorView::MalformedRange),
            }
        } else {
            Err(ParseErrorView::Malformed)
        },
    }
}

/// What the value `s` of a `Range` header asks for: once trimmed, `s` is cut
/// at its first `=` into the unit, which has to be `bytes`, and the range.
pub open spec fn parse_http_range(s: Seq<char>) -> Result<HttpRangeView, ParseErrorView> {
    let t = trimmed(s);
    if t.len() == 0 {
        Err(ParseErrorView::Empty)
    } else {
        match split_first(t, '=') {
            None => Err(ParseErrorView::Malformed),
            Some((unit, spec)) => if unit != unit_text() {
                Err(ParseErrorView::InvalidUnit)
            } else {
                parse_range_spec(spec)
            },
        }
    }
}

/// The value of the `Range` header that asks for `v`.
pub open spec fn render_http_range(v: HttpRangeView) -> Seq<char> {
    unit_text() + seq!['='] + match v {
        HttpRangeView::StartingPoint(n) => decimal(n) + seq!['-'],
        HttpRangeView::Range(i) => render_interval(i),
        HttpRangeView::Suffix(n) => seq!['-'] + decimal(n),
    }
}

/// Reads the text behind `bytes=`.
fn read_range_spec(t: &str) -> (r: Result<HttpRange, ParseHttpRangeOrContentRangeError>)
    ensures
        match r {
            Ok(v) => parse_range_spec(t@) matches Ok(w) && w == v@,
            Err(e) => parse_range_spec(t@) matches Err(f) && f == e@,
        },
{
    let (start_str, end_str) = match split_once(t, '-') {
        Some(halves) => halves,
        None => {
            return Err(ParseHttpRangeOrContentRangeError::MalformedRange);
        },
    };
    match (start_str.is_empty(), end_str.is_empty()) {
        (false, false) => {
            match read_bounds(start_str, end_str) {
                Ok(range) => Ok(HttpRange::Range(range)),
                Err(e) => Err(e),
            }
        },
        (false, true) => {
            match u64_unprefixed_parse(start_str) {
                Ok(start) => Ok(HttpRange::StartingPoint(start)),
                Err(_) => Err(ParseHttpRangeOrContentRangeError::MalformedRange),
            }
        },
        (true, false) => {
            match u64_unprefixed_parse(end_str) {
                Ok(suffix) => Ok(HttpRange::Suffix(suffix)),
                Err(_) => Err(ParseHttpRangeOrContentRangeError::MalformedRange),
            }
        },
        (true, true) => Err(ParseHttpRangeOrContentRangeError::Malformed),
    }
}

impl core::str::FromStr for HttpRange {
    type Err = ParseHttpRangeOrContentRangeError;

    /// Reads the value of a `Range` header.
    fn from_str(s: &str) -> (r: Result<Self, Self::Err>)
        ensures
            match r {
                Ok(v) => parse_http_range(s@) matches Ok(w) && w == v@,
                Err(e) => parse_http_range(s@) matches Err(f) && f == e@,
            },
    {
        let s = trim(s);
        if s.is_empty() {
            return Err(ParseHttpRangeOrContentRangeError::Empty);
        }
        let (unit_str, range_str) = match split_once(s, '=') {
            Some(halves) => halves,
            None => {
                return Err(ParseHttpRangeOrContentRangeError::Malformed);
            },
        };
        proof {
            reveal_strlit("bytes");
            assert(UNIT@ =~= unit_text());
        }
        if !same_text(unit_str, UNIT) {
            return Err(ParseHttpRangeOrContentRangeError::InvalidUnit);
        }
        read_range_spec(range_str)
    }
}

impl HttpRange {
    /// Writes the value of the `Range` header that asks for this range.
    pub fn to_string(&self) -> (r: String)
        ensures
            r@ == render_http_range(self@),
    {
        proof {
            reveal_strlit("bytes");
            reveal_strlit("=");
            reveal_strlit("-");
        }
        let mut out = String::new();
        out.append(UNIT);
        out.append("=");
        match self {
            HttpRange::StartingPoint(start) => {
                push_decimal(&mut out, *start);
                out.append("-");
            },
            HttpRange::Range(range) => {
                let text = range.to_string();
                out.append(text.as_str());
            },
            HttpRange::Suffix(suffix) => {
                out.append("-");
                push_decimal(&mut out, *suffix);
            },
        }
        out
    }
}

/// What the bytes of a `Range` header ask for: they have to be visible ASCII
/// before they are read as text.
pub open spec fn parse_http_range_bytes(bytes: Seq<u8>) -> Result<HttpRangeView, ParseErrorView> {
    if !all_visible_ascii(bytes) {
        Err(ParseErrorView::ContainsNonVisibleASCII)
    } else {
        parse_http_range(ascii_text(bytes))
    }
}

impl vstd::std_specs::convert::TryFromSpecImpl<&HeaderValue> for HttpRange {
    /// The conversion is specified by its own contract, over views.
    open spec fn obeys_try_from_spec() -> bool {
        false
    }

    open spec fn try_from_spec(value: &HeaderValue) -> Result<Self, Self::Error> {
        arbitrary()
    }
}

impl TryFrom<&HeaderValue> for HttpRange {
    type Error = ParseHttpRangeOrContentRangeError;

    /// Reads a `Range` header value as it came off the wire.
    fn try_from(value: &HeaderValue) -> (r: Result<Self, Self::Error>)
        ensures
            match r {
                Ok(v) => parse_http_range_bytes(header_bytes(*value)) matches Ok(w) && w == v@,
                Err(e) => parse_http_range_bytes(header_bytes(*value)) matches Err(f) && f == e@,
            },
    {
        match value.to_str() {
            Ok(text) => HttpRange::from_str(text),
            Err(_) => Err(ParseHttpRangeOrContentRangeError::ContainsNonVisibleASCII),
        }
    }
}

impl vstd::std_specs::convert::FromSpecImpl<&HttpRange> for HeaderValue {
    /// The conversion is specified by its own contract, over views.
    open spec fn obeys_from_spec() -> bool {
        false
    }

    open spec fn from_spec(value: &HttpRange) -> Self {
        arbitrary()
    }
}

impl From<&HttpRange> for HeaderValue {
    /// The header value that holds the text of `value`.
    fn from(value: &HttpRange) -> (r: HeaderValue)
        ensures
            header_bytes(r) == ascii_bytes(render_http_range(value@)),
    {
        let text = value.to_string();
        proof {
            match value {
                HttpRange::Range(range) => {
                    use_type_invariant(range);
                },
                _ => {},
            }
            lemma_render_http_range_plain(value@);
            lemma_plain_text_bytes(text@);
        }
        match header_value_of(text) {
            Ok(header) => header,
            Err(_) => unreached(),
        }
    }
}

/// Every request is written in visible ASCII.
pub proof fn lemma_render_http_range_plain(v: HttpRangeView)
    requires
        v.valid(),
    ensures
        plain_text(render_http_range(v)),
{
    match v {
        HttpRangeView::StartingPoint(n) => {
            lemma_unprefixed_u64_round_trip(n);
        },
        HttpRangeView::Range(i) => {
            lemma_unprefixed_u64_round_trip(i.start);
            lemma_unprefixed_u64_round_trip(i.end);
        },
        HttpRangeView::Suffix(n) => {
            lemma_unprefixed_u64_round_trip(n);
        },
    }
}

/// Every request that is written out and read again is the request it was.
pub proof fn lemma_http_range_round_trip(v: HttpRangeView)
    requires
        v.valid(),
    ensures
        parse_http_range(render_http_range(v)) == Ok::<HttpRangeView, ParseErrorView>(v),
{
    let spec = match v {
        HttpRangeView::StartingPoint(n) => decimal(n) + seq!['-'],
        HttpRangeView::Range(i) => render_interval(i),
        HttpRangeView::Suffix(n) => seq!['-'] + decimal(n),
    };
    let none = Seq::<char>::empty();
    // The digits before the `-` hold no `-`, so the range is cut where it
    // was joined, and each number reads back as itself.
    match v {
        HttpRangeView::StartingPoint(n) => {
            lemma_unprefixed_u64_round_trip(n);
            lemma_split_first_joined(decimal(n), '-', none);
        },
        HttpRangeView::Range(i) => {
            lemma_unprefixed_u64_round_trip(i.start);
            lemma_bounds_round_trip(i);
            lemma_split_first_joined(decimal(i.start), '-', decimal(i.end));
        },
        HttpRangeView::Suffix(n) => {
            lemma_unprefixed_u64_round_trip(n);
            lemma_split_first_joined(none, '-', decimal(n));
        },
    }
    // The unit holds no `=`, and the whole neither starts nor ends with
    // whitespace.
    lemma_split_first_joined(unit_text(), '=', spec);
}

/// Every request that went out as a header value and came back is the
/// request it was.
pub proof fn lemma_http_range_bytes_round_trip(v: HttpRangeView)
    requires
        v.valid(),
    ensures
        parse_http_range_bytes(ascii_bytes(render_http_range(v))) == Ok::<
            HttpRangeView,
            ParseErrorView,
        >(v),
{
    lemma_render_http_range_plain(v);
    lemma_plain_text_bytes(render_http_range(v));
    lemma_http_range_round_trip(v);
}

/// Whatever is read from text is a valid request.
pub proof fn lemma_parse_http_range_valid(s: Seq<char>)
    ensures
        parse_http_range(s) matches Ok(v) ==> v.valid(),
{
    let t = trimmed(s);
    if let Some((_, spec)) = split_first(t, '=') {
        if let Some((start, end)) = split_first(spec, '-') {
            lemma_unprefixed_u64_ok(start);
            lemma_unprefixed_u64_ok(end);
        }
    }
}

/// A value in which a bound of the range starts with `+` is refused.
pub proof fn lemma_http_range_refuses_sign(s: Seq<char>)
    requires
        split_first(trimmed(s), '=') matches Some((_, spec)) && split_first(spec, '-') matches Some(
            (start, end),
        ) && (has_sign_prefix(start) || has_sign_prefix(end)),
    ensures
        parse_http_range(s) is Err,
{
}

} // verus!
