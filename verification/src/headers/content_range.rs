//! The `Content-Range` header of a single range.

use vstd::prelude::*;
use vstd::string::*;
use core::ops::RangeInclusive;
use vstd::pervasive::unreached;
use crate::decimal::{decimal, push_decimal};
use crate::headers::range::{HttpRange, HttpRangeView};
use crate::headers::value::{
    all_visible_ascii, ascii_bytes, ascii_text, header_bytes, header_value_of,
    lemma_plain_text_bytes, plain_text,
};
use crate::headers::{
    has_sign_prefix, lemma_parse_bounds_ordered, lemma_unprefixed_u64_ok,
    lemma_unprefixed_u64_round_trip, parse_bounds, read_bounds, render_interval,
    u64_unprefixed_parse, unit_text, unprefixed_u64, Interval, InvalidOrderedRange, OrderedRange,
    ParseErrorView, ParseHttpRangeOrContentRangeError, UNIT,
};
use crate::text::{
    lemma_split_first_joined, same_text, split_first, split_once, trim, trimmed,
};
use core::str::FromStr;
use http::HeaderValue;

verus! {

/// The size as a mathematical integer.
pub open spec fn size_view(size: Option<u64>) -> Option<int> {
    match size {
        Some(s) => Some(s as int),
        None => None,
    }
}

/// A served range and, where it is known, the size of the whole resource, as
/// a mathematical value.
pub struct BoundView {
    pub range: Interval,
    pub size: Option<int>,
}

impl BoundView {
    /// Whether the range is ordered and ends before the size, where one is
    /// stated.
    pub open spec fn valid(self) -> bool {
        &&& self.range.ordered()
        &&& self.size matches Some(s) ==> self.range.end < s <= u64::MAX
    }
}

/// Why a range and a size make no `Bound`, as a mathematical value.
pub enum InvalidBoundView {
    InvalidRange(Interval),
    InvalidSize { range: Interval, size: int },
}

/// The bound from `start` to `end` within `size`, or why there is none: the
/// order of the range is looked at first, then the size.
pub open spec fn checked_bound(start: int, end: int, size: Option<int>) -> Result<
    BoundView,
    InvalidBoundView,
> {
    let range = Interval { start, end };
    if start > end {
        Err(InvalidBoundView::InvalidRange(range))
    } else {
        match size {
            Some(s) if end >= s => Err(InvalidBoundView::InvalidSize { range, size: s }),
            _ => Ok(BoundView { range, size }),
        }
    }
}

/// Why a range and a size make no `Bound`.
#[derive(Debug, Clone, PartialEq, Eq)]
pub enum InvalidBound {
    /// The start of the range lies behind its end.
    InvalidRange(InvalidOrderedRange),
    /// The range ends at or behind the size.
    InvalidSize { range: OrderedRange, size: u64 },
}

impl View for InvalidBound {
    type V = InvalidBoundView;

    open spec fn view(&self) -> InvalidBoundView {
        match self {
            InvalidBound::InvalidRange(e) => InvalidBoundView::InvalidRange(e@),
            InvalidBound::InvalidSize { range, size } => InvalidBoundView::InvalidSize {
                range: range@,
                size: *size as int,
            },
        }
    }
}

/// A served range and, where it is known, the size of the whole resource.
#[derive(Debug, Clone, Copy, PartialEq, Eq)]
pub struct Bound {
    range: OrderedRange,
    size: Option<u64>,
}

impl View for Bound {
    type V = BoundView;

    closed spec fn view(&self) -> BoundView {
        BoundView { range: self.range@, size: size_view(self.size) }
    }
}

impl Bound {
    /// What holds of every bound.
    #[verifier::type_invariant]
    pub open spec fn well_formed(&self) -> bool {
        self@.valid()
    }

    /// Makes the bound of `range` within `size`.
    pub fn new(range: RangeInclusive<u64>, size: Option<u64>) -> (r: Result<Self, InvalidBound>)
        ensures
            r is Ok <==> range@.start <= range@.end && (size matches Some(s) ==> range@.end < s),
            match r {
                Ok(b) => checked_bound(range@.start as int, range@.end as int, size_view(size))
                    matches Ok(v) && v == b@,
                Err(e) => checked_bound(range@.start as int, range@.end as int, size_view(size))
                    matches Err(v) && v == e@,
            },
    {
        let range = match OrderedRange::new(range) {
            Ok(range) => range,
            Err(e) => {
                return Err(InvalidBound::InvalidRange(e));
            },
        };
        Self::within(range, size)
    }

    /// Makes the bound of the ordered `range` within `size`.
    pub(crate) fn within(range: OrderedRange, size: Option<u64>) -> (r: Result<Self, InvalidBound>)
        ensures
            r is Ok <==> (size matches Some(s) ==> range@.end < s),
            match r {
                Ok(b) => b@ == (BoundView { range: range@, size: size_view(size) }),
                Err(e) => size matches Some(s) && e@ == (InvalidBoundView::InvalidSize {
                    range: range@,
                    size: s as int,
                }),
            },
    {
        proof {
            use_type_invariant(range);
        }
        if let Some(s) = size {
            if range.end() >= s {
                return Err(InvalidBound::InvalidSize { range, size: s });
            }
        }
        Ok(Self { range, size })
    }

    /// The served range.
    pub fn range(&self) -> (r: OrderedRange)
        ensures
            r@ == self@.range,
    {
        self.range
    }

    /// The size of the whole resource, where it is known.
    pub fn size(&self) -> (r: Option<u64>)
        ensures
            size_view(r) == self@.size,
            r matches Some(s) ==> self@.range.end < s,
    {
        proof {
            use_type_invariant(self);
        }
        self.size
    }
}

/// The size of a resource of which no requested range can be served.
#[derive(Debug, Clone, Copy, PartialEq, Eq)]
pub struct Unsatisfiable {
    size: u64,
}

impl View for Unsatisfiable {
    type V = int;

    closed spec fn view(&self) -> int {
        self.size as int
    }
}

impl Unsatisfiable {
    /// Records `size` as the size of the resource.
    pub fn new(size: u64) -> (r: Self)
        ensures
            r@ == size,
    {
        Self { size }
    }
}

/// What a `Content-Range` header states, as a mathematical value.
pub enum HttpContentRangeView {
    Bound(BoundView),
    Unsatisfiable(int),
}

impl HttpContentRangeView {
    /// Whether the numbers are `u64`s and the bound, if it is one, is valid.
    pub open spec fn valid(self) -> bool {
        match self {
            HttpContentRangeView::Bound(b) => b.valid(),
            HttpContentRangeView::Unsatisfiable(size) => 0 <= size <= u64::MAX,
        }
    }
}

/// A `Content-Range` header that answers a request for one range of bytes.
#[derive(Debug, Clone, Copy, PartialEq, Eq)]
pub enum HttpContentRange {
    /// The range that is served: `bytes N-M/S` or `bytes N-M/*`.
    Bound(Bound),
    /// No range can be served from a resource of this size: `bytes */S`.
    Unsatisfiable(Unsatisfiable),
}

impl View for HttpContentRange {
    type V = HttpContentRangeView;

    open spec fn view(&self) -> HttpContentRangeView {
        match self {
            HttpContentRange::Bound(b) => HttpContentRangeView::Bound(b@),
            HttpContentRange::Unsatisfiable(u) => HttpContentRangeView::Unsatisfiable(u@),
        }
    }
}

/// Whether the answer `content` is what a server owes to the request
/// `expected`: a served range that starts, lies or ends where it was asked
/// to, or a refusal that the size justifies.
pub open spec fn answers_request(content: HttpContentRangeView, expected: HttpRangeView) -> bool {
    match (expected, content) {
        (HttpRangeView::StartingPoint(start), HttpContentRangeView::Bound(b)) => start
            == b.range.start,
        (HttpRangeView::Range(i), HttpContentRangeView::Bound(b)) => i.start == b.range.start
            && i.end == b.range.end,
        (HttpRangeView::Suffix(n), HttpContentRangeView::Bound(b)) => b.range.end - b.range.start
            + 1 == n,
        (HttpRangeView::StartingPoint(n), HttpContentRangeView::Unsatisfiable(size)) => n >= size,
        (HttpRangeView::Range(i), HttpContentRangeView::Unsatisfiable(size)) => i.end >= size,
        (HttpRangeView::Suffix(n), HttpContentRangeView::Unsatisfiable(size)) => n > size,
    }
}

/// The text of a lone `*`.
pub open spec fn star_text() -> Seq<char> {
    seq!['*']
}

/// The range that the text before the `/` states: none for `*`, else both
/// bounds around a `-`.
pub open spec fn parse_range_part(s: Seq<char>) -> Result<Option<Interval>, ParseErrorView> {
    if s == star_text() {
        Ok(None)
    } else {
        match split_first(s, '-') {
            None => Err(ParseErrorView::MalformedRange),
            Some((start, end)) => if start.len() == 0 || end.len() == 0 {
                Err(ParseErrorView::MalformedRange)
            } else {
                match parse_bounds(start, end) {
                    Ok(i) => Ok(Some(i)),
                    Err(e) => Err(e),
                }
            },
        }
    }
}

/// The size that the text behind the `/` states: none for `*`, else a number.
pub open spec fn parse_size_part(s: Seq<char>) -> Result<Option<int>, ParseErrorView> {
    if s == star_text() {
        Ok(None)
    } else {
        match unprefixed_u64(s) {
            Ok(n) => Ok(Some(n)),
            Err(e) => Err(ParseErrorView::InvalidSize(e)),
        }
    }
}

/// What a range and a size state together. A header has to state one of
/// them at least, and a range has to end before the size stated with it.
pub open spec fn combine_parts(range: Option<Interval>, size: Option<int>) -> Result<
    HttpContentRangeView,
    ParseErrorView,
> {
    match range {
        None => match size {
            None => Err(ParseErrorView::Malformed),
            Some(n) => Ok(HttpContentRangeView::Unsatisfiable(n)),
        },
        Some(i) => match checked_bound(i.start, i.end, size) {
            Ok(b) => Ok(HttpContentRangeView::Bound(b)),
            Err(e) => Err(ParseErrorView::InvalidBound(e)),
        },
    }
}

/// What the value `s` of a `Content-Range` header states: once trimmed, `s`
/// is cut at its first space into the unit, which has to be `bytes`, and the
/// rest, which is cut at its first `/` into the range and the size. The range
/// is read before the size.
pub open spec fn parse_content_range(s: Seq<char>) -> Result<
    HttpContentRangeView,
    ParseErrorView,
> {
    let t = trimmed(s);
    if t.len() == 0 {
        Err(ParseErrorView::Empty)
    } else {
        match split_first(t, ' ') {
            None => Err(ParseErrorView::Malformed),
            Some((unit, rest)) => if unit != unit_text() {
                Err(ParseErrorView::InvalidUnit)
            } else {
                match split_first(rest, '/') {
                    None => Err(ParseErrorView::Malformed),
                    Some((range, size)) => match parse_range_part(range) {
                        Err(e) => Err(e),
                        Ok(r) => match parse_size_part(size) {
                            Err(e) => Err(e),
                            Ok(z) => combine_parts(r, z),
                        },
                    },
                }
            },
        }
    }
}

/// How a size is written: the number, or `*` where it is not known.
pub open spec fn render_size(size: Option<int>) -> Seq<char> {
    match size {
        Some(s) => decimal(s),
        None => star_text(),
    }
}

/// The value of the `Content-Range` header that states `v`.
pub open spec fn render_content_range(v: HttpContentRangeView) -> Seq<char> {
    unit_text() + seq![' '] + match v {
        HttpContentRangeView::Bound(b) => render_interval(b.range) + seq!['/'] + render_size(
            b.size,
        ),
        HttpContentRangeView::Unsatisfiable(size) => star_text() + seq!['/'] + decimal(size),
    }
}

/// Reads the text before the `/`.
fn read_range_part(s: &str) -> (r: Result<Option<OrderedRange>, ParseHttpRangeOrContentRangeError>)
    ensures
        match r {
            Ok(Some(o)) => parse_range_part(s@) matches Ok(Some(i)) && i == o@,
            Ok(None) => parse_range_part(s@) matches Ok(None),
            Err(e) => parse_range_part(s@) matches Err(f) && f == e@,
        },
{
    proof {
        reveal_strlit("*");
        assert("*"@ =~= star_text());
    }
    if same_text(s, "*") {
        return Ok(None);
    }
    let (start_str, end_str) = match split_once(s, '-') {
        Some(halves) => halves,
        None => {
            return Err(ParseHttpRangeOrContentRangeError::MalformedRange);
        },
    };
    if start_str.is_empty() || end_str.is_empty() {
        return Err(ParseHttpRangeOrContentRangeError::MalformedRange);
    }
    match read_bounds(start_str, end_str) {
        Ok(range) => Ok(Some(range)),
        Err(e) => Err(e),
    }
}

/// Reads the text behind the `/`.
fn read_size_part(s: &str) -> (r: Result<Option<u64>, ParseHttpRangeOrContentRangeError>)
    ensures
        match r {
            Ok(z) => parse_size_part(s@) matches Ok(y) && y == size_view(z),
            Err(e) => parse_size_part(s@) matches Err(f) && f == e@,
        },
{
    proof {
        reveal_strlit("*");
        assert("*"@ =~= star_text());
    }
    if same_text(s, "*") {
        return Ok(None);
    }
    match u64_unprefixed_parse(s) {
        Ok(size) => Ok(Some(size)),
        Err(e) => Err(ParseHttpRangeOrContentRangeError::InvalidSize(e)),
    }
}

impl core::str::FromStr for HttpContentRange {
    type Err = ParseHttpRangeOrContentRangeError;

    /// Reads the value of a `Content-Range` header.
    fn from_str(s: &str) -> (r: Result<Self, Self::Err>)
        ensures
            match r {
                Ok(v) => parse_content_range(s@) matches Ok(w) && w == v@,
                Err(e) => parse_content_range(s@) matches Err(f) && f == e@,
            },
    {
        let s = trim(s);
        if s.is_empty() {
            return Err(ParseHttpRangeOrContentRangeError::Empty);
        }
        let (unit_str, range_and_size_str) = match split_once(s, ' ') {
            Some(halves) => halves,
            None => {
                return Err(ParseHttpRangeOrContentRangeError::Malformed);
            },
        };
        proof {
            reveal_strlit("bytes");
            assert(UNIT@ =~= unit_text());
        }
        if !same_text(unit_str, UNIT) {
            return Err(ParseHttpRangeOrContentRangeError::InvalidUnit);
        }
        let (range_str, size_str) = match split_once(range_and_size_str, '/') {
            Some(halves) => halves,
            None => {
                return Err(ParseHttpRangeOrContentRangeError::Malformed);
            },
        };
        let range = match read_range_part(range_str) {
            Ok(range) => range,
            Err(e) => {
                return Err(e);
            },
        };
        let size = match read_size_part(size_str) {
            Ok(size) => size,
            Err(e) => {
                return Err(e);
            },
        };
        match (range, size) {
            (None, None) => Err(ParseHttpRangeOrContentRangeError::Malformed),
            (None, Some(size)) => Ok(HttpContentRange::Unsatisfiable(Unsatisfiable { size })),
            (Some(range), size) => {
                match Bound::within(range, size) {
                    Ok(bound) => Ok(HttpContentRange::Bound(bound)),
                    Err(e) => Err(ParseHttpRangeOrContentRangeError::InvalidBound(e)),
                }
            },
        }
    }
}

impl HttpContentRange {
    /// Tells whether this header is what a server owes to a request for
    /// `expected_range`.
    pub fn matches_requested_range(&self, expected_range: HttpRange) -> (r: bool)
        ensures
            r == answers_request(self@, expected_range@),
    {
        match self {
            HttpContentRange::Bound(bound) => {
                let range = bound.range;
                let start = range.start();
                let end = range.end();
                match expected_range {
                    HttpRange::StartingPoint(expected) => expected == start,
                    HttpRange::Range(expected) => expected.start() == start && expected.end()
                        == end,
                    HttpRange::Suffix(suffix) => match (end - start).checked_add(1) {
                        Some(len) => len == suffix,
                        None => false,
                    },
                }
            },
            HttpContentRange::Unsatisfiable(unsatisfiable) => {
                let size = unsatisfiable.size;
                match expected_range {
                    HttpRange::StartingPoint(n) => n >= size,
                    HttpRange::Range(expected) => expected.end() >= size,
                    HttpRange::Suffix(suffix) => suffix > size,
                }
            },
        }
    }

    /// Writes the value of the `Content-Range` header that states this.
    pub fn to_string(&self) -> (r: String)
        ensures
            r@ == render_content_range(self@),
    {
        proof {
            reveal_strlit("bytes");
            reveal_strlit(" ");
            reveal_strlit("/");
            reveal_strlit("*");
        }
        let mut out = String::new();
        out.append(UNIT);
        out.append(" ");
        match self {
            HttpContentRange::Bound(bound) => {
                let text = bound.range.to_string();
                out.append(text.as_str());
                out.append("/");
                match bound.size {
                    Some(size) => {
                        push_decimal(&mut out, size);
                    },
                    None => {
                        out.append("*");
                    },
                }
            },
            HttpContentRange::Unsatisfiable(unsatisfiable) => {
                out.append("*");
                out.append("/");
                push_decimal(&mut out, unsatisfiable.size);
            },
        }
        out
    }
}

/// What the bytes of a `Content-Range` header state: they have to be visible
/// ASCII before they are read as text.
pub open spec fn parse_content_range_bytes(bytes: Seq<u8>) -> Result<
    HttpContentRangeView,
    ParseErrorView,
> {
    if !all_visible_ascii(bytes) {
        Err(ParseErrorView::ContainsNonVisibleASCII)
    } else {
        parse_content_range(ascii_text(bytes))
    }
}

impl vstd::std_specs::convert::TryFromSpecImpl<&HeaderValue> for HttpContentRange {
    /// The conversion is specified by its own contract, over views.
    open spec fn obeys_try_from_spec() -> bool {
        false
    }

    open spec fn try_from_spec(value: &HeaderValue) -> Result<Self, Self::Error> {
        arbitrary()
    }
}

impl TryFrom<&HeaderValue> for HttpContentRange {
    type Error = ParseHttpRangeOrContentRangeError;

    /// Reads a `Content-Range` header value as it came off the wire.
    fn try_from(value: &HeaderValue) -> (r: Result<Self, Self::Error>)
        ensures
            match r {
                Ok(v) => parse_content_range_bytes(header_bytes(*value)) matches Ok(w) && w == v@,
                Err(e) => parse_content_range_bytes(header_bytes(*value)) matches Err(f) && f
                    == e@,
            },
    {
        match value.to_str() {
            Ok(text) => HttpContentRange::from_str(text),
            Err(_) => Err(ParseHttpRangeOrContentRangeError::ContainsNonVisibleASCII),
        }
    }
}

impl vstd::std_specs::convert::FromSpecImpl<&HttpContentRange> for HeaderValue {
    /// The conversion is specified by its own contract, over views.
    open spec fn obeys_from_spec() -> bool {
        false
    }

    open spec fn from_spec(value: &HttpContentRange) -> Self {
        arbitrary()
    }
}

impl From<&HttpContentRange> for HeaderValue {
    /// The header value that holds the text of `value`.
    fn from(value: &HttpContentRange) -> (r: HeaderValue)
        ensures
            header_bytes(r) == ascii_bytes(render_content_range(value@)),
    {
        let text = value.to_string();
        proof {
            match value {
                HttpContentRange::Bound(bound) => {
                    use_type_invariant(bound);
                },
                _ => {},
            }
            lemma_render_content_range_plain(value@);
            lemma_plain_text_bytes(text@);
        }
        match header_value_of(text) {
            Ok(header) => header,
            Err(_) => unreached(),
        }
    }
}

/// Every answer is written in visible ASCII.
pub proof fn lemma_render_content_range_plain(v: HttpContentRangeView)
    requires
        v.valid(),
    ensures
        plain_text(render_content_range(v)),
{
    match v {
        HttpContentRangeView::Bound(b) => {
            lemma_unprefixed_u64_round_trip(b.range.start);
            lemma_unprefixed_u64_round_trip(b.range.end);
            if let Some(s) = b.size {
                lemma_unprefixed_u64_round_trip(s);
            }
        },
        HttpContentRangeView::Unsatisfiable(size) => {
            lemma_unprefixed_u64_round_trip(size);
        },
    }
}

/// Every answer that is written out and read again is the answer it was.
pub proof fn lemma_content_range_round_trip(v: HttpContentRangeView)
    requires
        v.valid(),
    ensures
        parse_content_range(render_content_range(v)) == Ok::<HttpContentRangeView, ParseErrorView>(
            v,
        ),
{
    // Neither the digits before the `-` hold a `-`, nor the range a `/`,
    // nor the unit a space: the value is cut where it was joined, and each
    // number reads back as itself.
    match v {
        HttpContentRangeView::Bound(b) => {
            let range = render_interval(b.range);
            let size = render_size(b.size);
            let rest = range + seq!['/'] + size;
            lemma_unprefixed_u64_round_trip(b.range.start);
            lemma_unprefixed_u64_round_trip(b.range.end);
            lemma_split_first_joined(decimal(b.range.start), '-', decimal(b.range.end));
            match b.size {
                Some(n) => {
                    lemma_unprefixed_u64_round_trip(n);
                },
                None => {},
            }
            lemma_split_first_joined(range, '/', size);
            lemma_split_first_joined(unit_text(), ' ', rest);
        },
        HttpContentRangeView::Unsatisfiable(n) => {
            let rest = star_text() + seq!['/'] + decimal(n);
            lemma_unprefixed_u64_round_trip(n);
            lemma_split_first_joined(star_text(), '/', decimal(n));
            lemma_split_first_joined(unit_text(), ' ', rest);
        },
    }
}

/// Every answer that went out as a header value and came back is the answer
/// it was.
pub proof fn lemma_content_range_bytes_round_trip(v: HttpContentRangeView)
    requires
        v.valid(),
    ensures
        parse_content_range_bytes(ascii_bytes(render_content_range(v))) == Ok::<
            HttpContentRangeView,
            ParseErrorView,
        >(v),
{
    lemma_render_content_range_plain(v);
    lemma_plain_text_bytes(render_content_range(v));
    lemma_content_range_round_trip(v);
}

/// Whatever is read from text is a valid answer.
pub proof fn lemma_parse_content_range_valid(s: Seq<char>)
    ensures
        parse_content_range(s) matches Ok(v) ==> v.valid(),
{
    let t = trimmed(s);
    if let Some((_, rest)) = split_first(t, ' ') {
        if let Some((range, size)) = split_first(rest, '/') {
            lemma_unprefixed_u64_ok(size);
            if let Some((start, end)) = split_first(range, '-') {
                lemma_parse_bounds_ordered(start, end);
            }
        }
    }
}

/// A value in which a bound of the range or the size starts with `+` is
/// refused.
pub proof fn lemma_content_range_refuses_sign(s: Seq<char>)
    requires
        split_first(trimmed(s), ' ') matches Some((_, rest)) && split_first(rest, '/') matches Some(
            (range, size),
        ) && (has_sign_prefix(size) || (split_first(range, '-') matches Some((start, end)) && (
        has_sign_prefix(start) || has_sign_prefix(end)))),
    ensures
        parse_content_range(s) is Err,
{
    let t = trimmed(s);
    if let Some((_, rest)) = split_first(t, ' ') {
        if let Some((range, _)) = split_first(rest, '/') {
            if split_first(range, '-') is Some {
                // A range that holds a `-` is no lone `*`.
                range.index_of_first_ensures('-');
            }
        }
    }
}

} // verus!
