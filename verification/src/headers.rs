//! What the `Range` and `Content-Range` headers share: the ordered range, the
//! integer token of the grammar, and the errors of parsing.

use vstd::prelude::*;
use vstd::string::*;
use core::ops::RangeInclusive;
use crate::decimal::{
    all_digits, decimal, decimal_value, lemma_decimal_denotes, lemma_decimal_round_trip,
    lemma_parse_decimal_ok, parse_decimal, parse_u64, push_decimal, IntErrorKind,
};
use crate::headers::content_range::{InvalidBound, InvalidBoundView};
use crate::text::chars_of;

pub mod content_range;
pub mod range;
pub mod value;

verus! {

/// `core::ops::RangeInclusive::start`: the lower bound that the range was
/// made with.
pub assume_specification<Idx>[ RangeInclusive::<Idx>::start ](r: &RangeInclusive<Idx>) -> (ret:
    &Idx)
    ensures
        *ret == r@.start,
;

/// `core::ops::RangeInclusive::end`: the upper bound that the range was made
/// with.
pub assume_specification<Idx>[ RangeInclusive::<Idx>::end ](r: &RangeInclusive<Idx>) -> (ret: &Idx)
    ensures
        *ret == r@.end,
;

/// The unit of every range that this library reads and writes.
pub const UNIT: &'static str = "bytes";

/// The characters of the unit token.
pub open spec fn unit_text() -> Seq<char> {
    seq!['b', 'y', 't', 'e', 's']
}

/// A first and a last position, both inclusive.
pub struct Interval {
    pub start: int,
    pub end: int,
}

impl Interval {
    /// Whether the positions are `u64`s and the first is not behind the last.
    pub open spec fn ordered(self) -> bool {
        0 <= self.start <= self.end <= u64::MAX
    }
}

/// The ordered range from `start` to `end`, or the pair as it is where
/// `start` lies behind `end`.
pub open spec fn checked_interval(start: int, end: int) -> Result<Interval, Interval> {
    if start > end {
        Err(Interval { start, end })
    } else {
        Ok(Interval { start, end })
    }
}

/// The bounds of a range that is refused because `start` lies behind `end`.
#[derive(Debug, Clone, PartialEq, Eq)]
pub struct InvalidOrderedRange {
    pub start: u64,
    pub end: u64,
}

impl View for InvalidOrderedRange {
    type V = Interval;

    open spec fn view(&self) -> Interval {
        Interval { start: self.start as int, end: self.end as int }
    }
}

/// An inclusive range of positions whose start is not behind its end.
#[derive(Debug, Clone, Copy, PartialEq, Eq)]
pub struct OrderedRange {
    start: u64,
    end: u64,
}

impl View for OrderedRange {
    type V = Interval;

    closed spec fn view(&self) -> Interval {
        Interval { start: self.start as int, end: self.end as int }
    }
}

impl OrderedRange {
    /// What holds of every ordered range.
    #[verifier::type_invariant]
    pub open spec fn well_formed(&self) -> bool {
        self@.ordered()
    }

    /// Makes the range from `range.start()` to `range.end()`, if they are in
    /// order.
    pub fn new(range: RangeInclusive<u64>) -> (r: Result<Self, InvalidOrderedRange>)
        ensures
            r is Ok <==> range@.start <= range@.end,
            match r {
                Ok(o) => checked_interval(range@.start as int, range@.end as int) matches Ok(i)
                    && i == o@,
                Err(e) => checked_interval(range@.start as int, range@.end as int) matches Err(i)
                    && i == e@,
            },
    {
        let start = *range.start();
        let end = *range.end();

        if start > end {
            return Err(InvalidOrderedRange { start, end });
        }
        Ok(Self { start, end })
    }

    /// The first position of the range.
    pub fn start(&self) -> (r: u64)
        ensures
            r == self@.start,
            r <= self@.end,
    {
        proof {
            use_type_invariant(self);
        }
        self.start
    }

    /// The last position of the range.
    pub fn end(&self) -> (r: u64)
        ensures
            r == self@.end,
            r >= self@.start,
    {
        proof {
            use_type_invariant(self);
        }
        self.end
    }

    /// The range as it is written inside a header: `<start>-<end>`, without
    /// the unit.
    pub fn to_string(&self) -> (r: String)
        ensures
            r@ == render_interval(self@),
    {
        let mut out = String::new();
        push_decimal(&mut out, self.start);
        proof {
            reveal_strlit("-");
        }
        out.append("-");
        push_decimal(&mut out, self.end);
        out
    }
}

/// Why a token is not an integer of the grammar, as a mathematical value.
pub enum InvalidHttpU64View {
    HasSignPrefix(Seq<char>),
    InvalidInt(IntErrorKind),
}

/// Why a token is not an integer of the grammar.
#[derive(Debug, Clone, PartialEq, Eq)]
pub enum InvalidHttpU64 {
    /// The token starts with `+`; it is carried along.
    HasSignPrefix(String),
    /// The token is no decimal `u64`.
    InvalidInt(IntErrorKind),
}

impl View for InvalidHttpU64 {
    type V = InvalidHttpU64View;

    open spec fn view(&self) -> InvalidHttpU64View {
        match self {
            InvalidHttpU64::HasSignPrefix(s) => InvalidHttpU64View::HasSignPrefix(s@),
            InvalidHttpU64::InvalidInt(k) => InvalidHttpU64View::InvalidInt(*k),
        }
    }
}

/// Whether the token `s` starts with a `+`.
pub open spec fn has_sign_prefix(s: Seq<char>) -> bool {
    s.len() > 0 && s.first() == '+'
}

/// The number that the token `s` denotes in the grammar of both headers: a
/// decimal `u64` without a sign.
pub open spec fn unprefixed_u64(s: Seq<char>) -> Result<int, InvalidHttpU64View> {
    if has_sign_prefix(s) {
        Err(InvalidHttpU64View::HasSignPrefix(s))
    } else {
        match parse_decimal(s) {
            Ok(n) => Ok(n),
            Err(k) => Err(InvalidHttpU64View::InvalidInt(k)),
        }
    }
}

/// A token that starts with `+` is no integer of the grammar.
pub proof fn lemma_sign_prefix_refused(s: Seq<char>)
    requires
        has_sign_prefix(s),
    ensures
        unprefixed_u64(s) == Err::<int, InvalidHttpU64View>(InvalidHttpU64View::HasSignPrefix(s)),
{
}

/// A token is an integer of the grammar exactly when it is a non-empty digit
/// string that denotes at most `u64::MAX`.
pub proof fn lemma_unprefixed_u64_ok(s: Seq<char>)
    ensures
        unprefixed_u64(s) is Ok <==> s.len() > 0 && all_digits(s) && decimal_value(s) <= u64::MAX,
        unprefixed_u64(s) matches Ok(n) ==> n == decimal_value(s) && 0 <= n <= u64::MAX,
{
    lemma_parse_decimal_ok(s);
}

/// A `u64` that is written in base ten reads back as itself.
pub proof fn lemma_unprefixed_u64_round_trip(n: int)
    requires
        0 <= n <= u64::MAX,
    ensures
        unprefixed_u64(decimal(n)) == Ok::<int, InvalidHttpU64View>(n),
        decimal(n).len() > 0,
        all_digits(decimal(n)),
{
    lemma_decimal_denotes(n);
    lemma_decimal_round_trip(n);
}

/// Reads the token `s` as a decimal `u64` that carries no sign.
pub fn u64_unprefixed_parse(s: &str) -> (r: Result<u64, InvalidHttpU64>)
    ensures
        match r {
            Ok(n) => unprefixed_u64(s@) matches Ok(m) && m == n,
            Err(e) => unprefixed_u64(s@) matches Err(f) && f == e@,
        },
        has_sign_prefix(s@) ==> r is Err,
{
    let v = chars_of(s);
    if v.len() > 0 && v[0] == '+' {
        Err(InvalidHttpU64::HasSignPrefix(s.to_owned()))
    } else {
        match parse_u64(s) {
            Ok(n) => Ok(n),
            Err(k) => Err(InvalidHttpU64::InvalidInt(k)),
        }
    }
}

/// Why a header value is refused, as a mathematical value.
pub enum ParseErrorView {
    Malformed,
    ContainsNonVisibleASCII,
    Empty,
    InvalidUnit,
    MalformedRange,
    UnorderedRange(Interval),
    InvalidRangePiece(InvalidHttpU64View),
    InvalidSize(InvalidHttpU64View),
    InvalidBound(InvalidBoundView),
}

/// Why the value of a `Range` or `Content-Range` header is refused.
#[derive(Debug, Clone, PartialEq, Eq)]
pub enum ParseHttpRangeOrContentRangeError {
    /// A separator of the grammar is missing, or nothing stands where a
    /// number or `*` has to.
    Malformed,
    /// The value holds a byte that is not visible ASCII.
    ContainsNonVisibleASCII,
    /// Nothing is left of the value once it is trimmed.
    Empty,
    /// The unit is not `bytes`.
    InvalidUnit,
    /// The range has no `-`, or lacks a bound where both are needed, or its
    /// only bound is no number.
    MalformedRange,
    /// The start of the range lies behind its end.
    UnorderedRange(InvalidOrderedRange),
    /// A bound of the range is no number.
    InvalidRangePiece(InvalidHttpU64),
    /// The size is neither `*` nor a number.
    InvalidSize(InvalidHttpU64),
    /// The range does not end before the size that is stated with it.
    InvalidBound(InvalidBound),
}

impl View for ParseHttpRangeOrContentRangeError {
    type V = ParseErrorView;

    open spec fn view(&self) -> ParseErrorView {
        match self {
            ParseHttpRangeOrContentRangeError::Malformed => ParseErrorView::Malformed,
            ParseHttpRangeOrContentRangeError::ContainsNonVisibleASCII => {
                ParseErrorView::ContainsNonVisibleASCII
            },
            ParseHttpRangeOrContentRangeError::Empty => ParseErrorView::Empty,
            ParseHttpRangeOrContentRangeError::InvalidUnit => ParseErrorView::InvalidUnit,
            ParseHttpRangeOrContentRangeError::MalformedRange => ParseErrorView::MalformedRange,
            ParseHttpRangeOrContentRangeError::UnorderedRange(e) => ParseErrorView::UnorderedRange(
                e@,
            ),
            ParseHttpRangeOrContentRangeError::InvalidRangePiece(e) => {
                ParseErrorView::InvalidRangePiece(e@)
            },
            ParseHttpRangeOrContentRangeError::InvalidSize(e) => ParseErrorView::InvalidSize(e@),
            ParseHttpRangeOrContentRangeError::InvalidBound(e) => ParseErrorView::InvalidBound(e@),
        }
    }
}

/// The ordered range whose bounds are the tokens `start` and `end`.
pub open spec fn parse_bounds(start: Seq<char>, end: Seq<char>) -> Result<
    Interval,
    ParseErrorView,
> {
    match unprefixed_u64(start) {
        Err(e) => Err(ParseErrorView::InvalidRangePiece(e)),
        Ok(a) => match unprefixed_u64(end) {
            Err(e) => Err(ParseErrorView::InvalidRangePiece(e)),
            Ok(b) => match checked_interval(a, b) {
                Ok(i) => Ok(i),
                Err(i) => Err(ParseErrorView::UnorderedRange(i)),
            },
        },
    }
}

/// How a range is written inside a header: `<start>-<end>`.
pub open spec fn render_interval(i: Interval) -> Seq<char> {
    decimal(i.start) + seq!['-'] + decimal(i.end)
}

/// The bounds of an ordered range that are written in base ten read back as
/// that range.
pub proof fn lemma_bounds_round_trip(i: Interval)
    requires
        i.ordered(),
    ensures
        parse_bounds(decimal(i.start), decimal(i.end)) == Ok::<Interval, ParseErrorView>(i),
{
    lemma_unprefixed_u64_round_trip(i.start);
    lemma_unprefixed_u64_round_trip(i.end);
}

/// Bounds that are read from text make an ordered range.
pub proof fn lemma_parse_bounds_ordered(start: Seq<char>, end: Seq<char>)
    ensures
        parse_bounds(start, end) matches Ok(i) ==> i.ordered(),
{
    lemma_unprefixed_u64_ok(start);
    lemma_unprefixed_u64_ok(end);
}

/// Reads the tokens `start` and `end` as the bounds of an ordered range.
pub fn read_bounds(start: &str, end: &str) -> (r: Result<
    OrderedRange,
    ParseHttpRangeOrContentRangeError,
>)
    ensures
        match r {
            Ok(o) => parse_bounds(start@, end@) matches Ok(i) && i == o@,
            Err(e) => parse_bounds(start@, end@) matches Err(f) && f == e@,
        },
{
    let a = match u64_unprefixed_parse(start) {
        Ok(a) => a,
        Err(e) => {
            return Err(ParseHttpRangeOrContentRangeError::InvalidRangePiece(e));
        },
    };
    let b = match u64_unprefixed_parse(end) {
        Ok(b) => b,
        Err(e) => {
            return Err(ParseHttpRangeOrContentRangeError::InvalidRangePiece(e));
        },
    };
    match OrderedRange::new(a..=b) {
        Ok(o) => Ok(o),
        Err(e) => Err(ParseHttpRangeOrContentRangeError::UnorderedRange(e)),
    }
}

} // verus!
