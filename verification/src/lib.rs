//! Typed HTTP `Range` and `Content-Range` headers for single byte ranges, and
//! the resolution of a requested range against a resource of known size.

use vstd::prelude::*;
use bytes::Bytes;
use core::ops::RangeInclusive;
use crate::buffer::{bytes_content, slice_inclusive};
use crate::headers::content_range::{
    answers_request, Bound, BoundView, HttpContentRange, HttpContentRangeView, Unsatisfiable,
};
use crate::headers::range::{HttpRange, HttpRangeView};
use crate::headers::Interval;

pub mod buffer;
pub mod decimal;
pub mod headers;
pub mod text;

verus! {

/// The header as a mathematical value, where there is one.
pub open spec fn header_view(header: Option<HttpContentRange>) -> Option<HttpContentRangeView> {
    match header {
        Some(h) => Some(h@),
        None => None,
    }
}

/// The request as a mathematical value, where there is one.
pub open spec fn request_view(request: Option<HttpRange>) -> Option<HttpRangeView> {
    match request {
        Some(r) => Some(r@),
        None => None,
    }
}

/// The positions to serve, from `first` to `last`, and the header to send
/// with them, as a mathematical value. Nothing is served where `first`
/// is `last + 1`.
pub struct ContentRangeView {
    pub first: int,
    pub last: int,
    pub header: Option<HttpContentRangeView>,
}

/// The positions to serve and the `Content-Range` header to send with them.
///
/// The header is `None` where the body is not cut: no range was asked for, or
/// the last zero bytes were.
#[derive(Debug, PartialEq, Eq)]
pub struct ContentRange {
    header: Option<HttpContentRange>,
    range: RangeInclusive<u64>,
}

impl Clone for ContentRange {
    fn clone(&self) -> (r: Self)
        ensures
            r@ == self@,
    {
        ContentRange { header: self.header, range: *self.range.start()..=*self.range.end() }
    }
}

impl View for ContentRange {
    type V = ContentRangeView;

    closed spec fn view(&self) -> ContentRangeView {
        ContentRangeView {
            first: self.range@.start as int,
            last: self.range@.end as int,
            header: header_view(self.header),
        }
    }
}

impl ContentRange {
    /// What holds of every such answer: its range was never iterated over,
    /// so that it still stands for all of its positions.
    #[verifier::type_invariant]
    closed spec fn fresh(&self) -> bool {
        !self.range@.exhausted
    }

    /// The header to send, if any.
    pub fn header(&self) -> (r: Option<HttpContentRange>)
        ensures
            header_view(r) == self@.header,
    {
        self.header
    }

    /// The positions to serve, for a caller that cuts the body itself.
    pub fn range(&self) -> (r: &RangeInclusive<u64>)
        ensures
            r@.start == self@.first,
            r@.end == self@.last,
            !r@.exhausted,
    {
        proof {
            use_type_invariant(self);
        }
        &self.range
    }
}

/// A body and the header to send with it, as a mathematical value.
pub struct BodyRangeView<T> {
    pub body: T,
    pub header: Option<HttpContentRangeView>,
}

/// The part of a body to serve and the `Content-Range` header to send with it.
///
/// The header is `None` where the body was not cut.
#[derive(Debug, Clone, PartialEq, Eq)]
pub struct BodyRange<T> {
    body: T,
    header: Option<HttpContentRange>,
}

impl<T> View for BodyRange<T> {
    type V = BodyRangeView<T>;

    closed spec fn view(&self) -> BodyRangeView<T> {
        BodyRangeView { body: self.body, header: header_view(self.header) }
    }
}

impl<T> BodyRange<T> {
    /// The part of the body to serve.
    pub fn body(&self) -> (r: &T)
        ensures
            *r == self@.body,
    {
        &self.body
    }

    /// The part of the body to serve, by value.
    pub fn into_body(self) -> (r: T)
        ensures
            r == self@.body,
    {
        self.body
    }

    /// The header to send, if any.
    pub fn header(&self) -> (r: Option<HttpContentRange>)
        ensures
            header_view(r) == self@.header,
    {
        self.header
    }
}

/// The answer to a request that no part of the resource satisfies.
#[derive(Debug, PartialEq, Eq)]
pub struct UnsatisfiableRange(HttpContentRange);

impl Clone for UnsatisfiableRange {
    fn clone(&self) -> (r: Self)
        ensures
            r@ == self@,
    {
        proof {
            use_type_invariant(self);
        }
        UnsatisfiableRange(self.0)
    }
}

impl View for UnsatisfiableRange {
    type V = HttpContentRangeView;

    closed spec fn view(&self) -> HttpContentRangeView {
        self.0@
    }
}

impl UnsatisfiableRange {
    /// What holds of every such answer: it names the size of the resource
    /// and no range.
    #[verifier::type_invariant]
    pub open spec fn well_formed(&self) -> bool {
        self@ is Unsatisfiable
    }

    /// The header to send: the size of the resource, without a range.
    pub fn header(&self) -> (r: HttpContentRange)
        ensures
            r@ == self@,
            r is Unsatisfiable,
    {
        proof {
            use_type_invariant(self);
        }
        self.0
    }
}

/// The answer that serves the positions `first` to `last` of a resource of
/// `size` bytes.
pub open spec fn served(first: int, last: int, size: int) -> ContentRangeView {
    ContentRangeView {
        first,
        last,
        header: Some(
            HttpContentRangeView::Bound(
                BoundView { range: Interval { start: first, end: last }, size: Some(size) },
            ),
        ),
    }
}

/// What a resource of `size` bytes, `size > 0`, owes to `request`.
///
/// Without a request the whole resource is served and no header is sent. A
/// starting point or a range is served where it lies within the resource,
/// and a suffix where it is no longer than the resource, each with the header
/// that names the positions and the size. A suffix of zero bytes serves
/// nothing: no position is named, so no header is sent. Every other request
/// is refused with the size.
pub open spec fn resolve(size: int, request: Option<HttpRangeView>) -> Result<
    ContentRangeView,
    HttpContentRangeView,
> {
    match request {
        None => Ok(ContentRangeView { first: 0, last: size - 1, header: None }),
        Some(HttpRangeView::StartingPoint(start)) => if size > start {
            Ok(served(start, size - 1, size))
        } else {
            Err(HttpContentRangeView::Unsatisfiable(size))
        },
        Some(HttpRangeView::Range(i)) => if size > i.end {
            Ok(served(i.start, i.end, size))
        } else {
            Err(HttpContentRangeView::Unsatisfiable(size))
        },
        Some(HttpRangeView::Suffix(n)) => if n == 0 {
            Ok(ContentRangeView { first: size, last: size - 1, header: None })
        } else if n <= size {
            Ok(served(size - n, size - 1, size))
        } else {
            Err(HttpContentRangeView::Unsatisfiable(size))
        },
    }
}

/// Whatever is resolved answers the request: a header that is sent is a
/// valid one and matches what was asked for, and a refusal is one that the
/// size justifies.
pub proof fn lemma_resolve_answers_request(size: int, request: HttpRangeView)
    requires
        0 < size <= u64::MAX,
        request.valid(),
    ensures
        match resolve(size, Some(request)) {
            Ok(c) => c.header matches Some(h) ==> h.valid() && answers_request(h, request),
            Err(u) => u.valid() && answers_request(u, request),
        },
{
}

/// The positions that are served lie within the resource, and all of it is
/// served where nothing was asked for.
pub proof fn lemma_resolve_within_resource(size: int, request: Option<HttpRangeView>)
    requires
        0 < size <= u64::MAX,
        request matches Some(r) ==> r.valid(),
    ensures
        resolve(size, request) matches Ok(c) ==> 0 <= c.first <= c.last + 1 <= size,
        request is None ==> resolve(size, request) == Ok::<ContentRangeView, HttpContentRangeView>(
            ContentRangeView { first: 0, last: size - 1, header: None },
        ),
{
}

/// The answer that serves the positions `start` to `end` of a resource of
/// `size` bytes.
fn serve_range(start: u64, end: u64, size: u64) -> (r: ContentRange)
    requires
        start <= end < size,
    ensures
        r@ == served(start as int, end as int, size as int),
{
    let bound = Bound::new(start..=end, Some(size)).unwrap();
    ContentRange { header: Some(HttpContentRange::Bound(bound)), range: start..=end }
}

/// Resolves `http_range` against a resource of `size` bytes: the positions to
/// serve, or the refusal.
pub fn file_range(size: u64, http_range: Option<HttpRange>) -> (r: Result<
    ContentRange,
    UnsatisfiableRange,
>)
    requires
        size > 0,
    ensures
        match r {
            Ok(c) => resolve(size as int, request_view(http_range)) matches Ok(v) && v == c@,
            Err(u) => resolve(size as int, request_view(http_range)) matches Err(v) && v == u@,
        },
        http_range is None ==> (r matches Ok(c) && c@ == (ContentRangeView {
            first: 0,
            last: size - 1,
            header: None,
        })),
        r matches Ok(c) ==> 0 <= c@.first <= c@.last + 1 <= size,
{
    let request = match http_range {
        Some(request) => request,
        None => {
            return Ok(ContentRange { header: None, range: 0..=(size - 1) });
        },
    };
    match request {
        HttpRange::StartingPoint(start) if size > start => Ok(serve_range(start, size - 1, size)),
        HttpRange::Range(ordered_range) if size > ordered_range.end() => Ok(
            serve_range(ordered_range.start(), ordered_range.end(), size),
        ),
        HttpRange::Suffix(suffix) if suffix == 0 => Ok(
            ContentRange { header: None, range: size..=(size - 1) },
        ),
        HttpRange::Suffix(suffix) if suffix <= size => Ok(
            serve_range(size - suffix, size - 1, size),
        ),
        _ => Err(UnsatisfiableRange(HttpContentRange::Unsatisfiable(Unsatisfiable::new(size)))),
    }
}

/// What a body of the bytes `content` owes to `request`: the bytes to serve
/// and the header to send, or the refusal. An empty body satisfies no
/// request, not even the absent one.
pub open spec fn serve(content: Seq<u8>, request: Option<HttpRangeView>) -> Result<
    BodyRangeView<Seq<u8>>,
    HttpContentRangeView,
> {
    if content.len() == 0 {
        Err(HttpContentRangeView::Unsatisfiable(0))
    } else {
        match resolve(content.len() as int, request) {
            Ok(c) => Ok(
                BodyRangeView { body: content.subrange(c.first, c.last + 1), header: c.header },
            ),
            Err(e) => Err(e),
        }
    }
}

/// Resolves `http_range` against `body` and cuts the part to serve out of it.
pub fn serve_file_with_http_range(body: Bytes, http_range: Option<HttpRange>) -> (r: Result<
    BodyRange<Bytes>,
    UnsatisfiableRange,
>)
    ensures
        match r {
            Ok(b) => serve(bytes_content(body), request_view(http_range)) matches Ok(v)
                && v.body == bytes_content(b@.body) && v.header == b@.header,
            Err(u) => serve(bytes_content(body), request_view(http_range)) matches Err(v) && v
                == u@,
        },
{
    let size = body.len() as u64;
    if size == 0 {
        return Err(UnsatisfiableRange(HttpContentRange::Unsatisfiable(Unsatisfiable::new(size))));
    }
    let content_range = match file_range(size, http_range) {
        Ok(content_range) => content_range,
        Err(e) => {
            return Err(e);
        },
    };
    let start = *content_range.range.start() as usize;
    let end = *content_range.range.end() as usize;

    Ok(BodyRange { body: slice_inclusive(&body, start, end), header: content_range.header })
}

} // verus!
