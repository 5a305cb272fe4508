use vstd::prelude::*;

verus! {

/// The largest number of headers a request head may carry.
pub const MAX_HEADERS: usize = 16;

/// The error type of the HTTP/1 request-head parser.
#[verifier::external_type_specification]
#[verifier::external_body]
pub struct ExParseError(httparse::Error);

/// One request header: its name and its raw value, borrowed from the bytes read.
#[derive(Clone, Copy)]
pub struct HeaderRef<'a> {
    pub name: &'a [u8],
    pub value: &'a [u8],
}

/// A request head that was read in full; its parts borrow from the bytes read.
/// Only the first `header_count` entries of `headers` hold headers.
pub struct RequestHead<'a> {
    pub method: Option<&'a [u8]>,
    pub path: Option<&'a [u8]>,
    pub headers: [HeaderRef<'a>; MAX_HEADERS],
    pub header_count: usize,
}

/// What the parser made of a buffer that held no invalid byte.
pub enum ParseStatus<'a> {
    /// The head is not complete yet: more bytes are needed.
    Partial,
    /// The head was read in full.
    Complete(RequestHead<'a>),
}

/// A request head as plain values.
pub struct SpecHead {
    pub method: Option<Seq<u8>>,
    pub path: Option<Seq<u8>>,
    pub headers: Seq<(Seq<u8>, Seq<u8>)>,
}

/// What the parser made of a buffer.
pub enum SpecParse {
    /// The parser rejected the bytes, with this error.
    Invalid(httparse::Error),
    Partial,
    Complete(SpecHead),
}

pub open spec fn opt_bytes_view(o: Option<&[u8]>) -> Option<Seq<u8>> {
    match o {
        Some(v) => Some(v@),
        None => None,
    }
}

pub open spec fn header_view(h: HeaderRef) -> (Seq<u8>, Seq<u8>) {
    (h.name@, h.value@)
}

/// A list of headers as plain values.
pub open spec fn headers_view(headers: Seq<HeaderRef>) -> Seq<(Seq<u8>, Seq<u8>)> {
    headers.map_values(|h: HeaderRef| header_view(h))
}

/// The first `count` entries of a header table (all of it if it is shorter).
pub open spec fn listed_headers(table: Seq<HeaderRef>, count: usize) -> Seq<(Seq<u8>, Seq<u8>)> {
    headers_view(table.take(if count <= table.len() { count as int } else { table.len() as int }))
}

impl<'a> RequestHead<'a> {
    pub open spec fn spec_head(&self) -> SpecHead {
        SpecHead {
            method: opt_bytes_view(self.method),
            path: opt_bytes_view(self.path),
            headers: listed_headers(self.headers@, self.header_count),
        }
    }
}

impl<'a> ParseStatus<'a> {
    pub open spec fn spec_parse(&self) -> SpecParse {
        match self {
            ParseStatus::Partial => SpecParse::Partial,
            ParseStatus::Complete(h) => SpecParse::Complete(h.spec_head()),
        }
    }
}

/// The outcome of a parse as plain values; a parser error is kept as it is.
pub open spec fn parse_outcome(r: Result<ParseStatus, httparse::Error>) -> SpecParse {
    match r {
        Ok(s) => s.spec_parse(),
        Err(e) => SpecParse::Invalid(e),
    }
}

/// What `httparse::Request::parse` makes of `buf`, given room for `max_headers`
/// headers.
pub uninterp spec fn httparse_request(buf: Seq<u8>, max_headers: usize) -> SpecParse;

/// Calls `httparse::Request::parse` on `buf` with a header table of `max_headers`
/// entries and hands out method, path and the parsed headers as slices of `buf`.
/// The contract claims only that the outcome is a function of `buf` and
/// `max_headers`, named `httparse_request`; the parser's grammar is not restated.
/// The header table lives on the stack and holds at most `MAX_HEADERS` entries.
#[verifier::external_body]
pub(crate) fn parse_request_head<'a>(buf: &'a [u8], max_headers: usize) -> (res: Result<ParseStatus<'a>, httparse::Error>)
    requires
        max_headers <= MAX_HEADERS,
    ensures
        parse_outcome(res) == httparse_request(buf@, max_headers),
{
    let mut table = [httparse::EMPTY_HEADER; MAX_HEADERS];
    let mut req = httparse::Request::new(&mut table[..max_headers]);
    if req.parse(buf)?.is_partial() {
        return Ok(ParseStatus::Partial);
    }
    let mut headers = [HeaderRef { name: &[], value: &[] }; MAX_HEADERS];
    headers.iter_mut().zip(req.headers.iter()).for_each(|(slot, h)| *slot = HeaderRef { name: h.name.as_bytes(), value: h.value });
    let (method, path) = (req.method.map(str::as_bytes), req.path.map(str::as_bytes));
    Ok(ParseStatus::Complete(RequestHead { method, path, headers, header_count: req.headers.len() }))
}

} // verus!
