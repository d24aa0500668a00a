//! The text-protocol parser: turns a raw datagram into a structured request
//! (method, path, ordered header list) or signals that the datagram is
//! incomplete (no terminating empty line yet) or invalid.
//!
//! The grammar is the HTTP/1.1-style request shape SSDP uses: a request line
//! of two space-separated tokens followed by trailing text, then CRLF-ended
//! `name: value` header lines, then an empty line. Bytes after the empty
//! line are ignored, and the third request-line field is not validated, so
//! a status line such as `HTTP/1.1 200 OK` also parses.
use vstd::prelude::*;
use crate::text::{CR, LF, bytes_range};

verus! {

/// A parsed header: name and raw value (leading spaces and tabs stripped).
pub struct HeaderField {
    pub name: Vec<u8>,
    pub value: Vec<u8>,
}

/// The mathematical model of a parsed header.
#[verifier::ext_equal]
pub struct SpecHeader {
    pub name: Seq<u8>,
    pub value: Seq<u8>,
}

impl View for HeaderField {
    type V = SpecHeader;

    open spec fn view(&self) -> SpecHeader {
        SpecHeader { name: self.name@, value: self.value@ }
    }
}

/// A parsed request: method, path and the headers in wire order.
pub struct ParsedRequest {
    pub method: Vec<u8>,
    pub path: Vec<u8>,
    pub headers: Vec<HeaderField>,
}

/// The mathematical model of a parsed request.
#[verifier::ext_equal]
pub struct SpecRequest {
    pub method: Seq<u8>,
    pub path: Seq<u8>,
    pub headers: Seq<SpecHeader>,
}

impl View for ParsedRequest {
    type V = SpecRequest;

    open spec fn view(&self) -> SpecRequest {
        SpecRequest {
            method: self.method@,
            path: self.path@,
            headers: self.headers@.map_values(|h: HeaderField| h@),
        }
    }
}

/// What parsing a datagram yields.
pub enum ParseOutcome {
    /// No terminating empty line yet.
    Incomplete,
    /// Structurally malformed text.
    Invalid,
    /// A complete request.
    Complete(ParsedRequest),
}

/// The mathematical model of a parse outcome.
#[verifier::ext_equal]
pub enum SpecParse {
    Incomplete,
    Invalid,
    Complete(SpecRequest),
}

impl View for ParseOutcome {
    type V = SpecParse;

    open spec fn view(&self) -> SpecParse {
        match self {
            ParseOutcome::Incomplete => SpecParse::Incomplete,
            ParseOutcome::Invalid => SpecParse::Invalid,
            ParseOutcome::Complete(req) => SpecParse::Complete(req@),
        }
    }
}

/// The position of the first CRLF at or after `i`, if any.
pub open spec fn find_line_end(b: Seq<u8>, i: int) -> Option<int>
    decreases b.len() - i,
{
    if i + 2 > b.len() {
        None
    } else if b[i] == CR && b[i + 1] == LF {
        Some(i)
    } else {
        find_line_end(b, i + 1)
    }
}

/// A found line end lies between `i` and the end of the buffer.
pub proof fn lemma_find_line_end_bounds(b: Seq<u8>, i: int)
    ensures
        find_line_end(b, i) is Some ==> {
            let e = find_line_end(b, i)->0;
            i <= e && e + 2 <= b.len() && b[e] == CR && b[e + 1] == LF
        },
    decreases b.len() - i,
{
    if i + 2 <= b.len() && !(b[i] == CR && b[i + 1] == LF) {
        lemma_find_line_end_bounds(b, i + 1);
    }
}

/// The position of the first `x` in `b[i..e]`, if any.
pub open spec fn find_byte_from(b: Seq<u8>, i: int, e: int, x: u8) -> Option<int>
    decreases e - i,
{
    if i >= e {
        None
    } else if b[i] == x {
        Some(i)
    } else {
        find_byte_from(b, i + 1, e, x)
    }
}

/// A found byte lies between `i` and `e`.
pub proof fn lemma_find_byte_bounds(b: Seq<u8>, i: int, e: int, x: u8)
    ensures
        find_byte_from(b, i, e, x) is Some ==> {
            let c = find_byte_from(b, i, e, x)->0;
            i <= c < e && b[c] == x
        },
    decreases e - i,
{
    if i < e && b[i] != x {
        lemma_find_byte_bounds(b, i + 1, e, x);
    }
}

/// The first position in `b[j..e]` that is not a space or tab, or `e`.
pub open spec fn ws_start(b: Seq<u8>, j: int, e: int) -> int
    decreases e - j,
{
    if j >= e {
        e
    } else if b[j] == 32 || b[j] == 9 {
        ws_start(b, j + 1, e)
    } else {
        j
    }
}

/// The header parsed from the line `b[i..e]`: the name before the first
/// colon (which must not come first), the value after it with leading
/// spaces and tabs stripped.
pub open spec fn spec_header_at(b: Seq<u8>, i: int, e: int) -> Option<SpecHeader> {
    match find_byte_from(b, i, e, 58) {
        None => None,
        Some(c) => if c == i {
            None
        } else {
            Some(
                SpecHeader {
                    name: b.subrange(i, c),
                    value: b.subrange(ws_start(b, c + 1, e), e),
                },
            )
        },
    }
}

/// The method and path parsed from the request line `b[i..e]`: the two
/// non-empty tokens before the first two spaces. Whatever follows the
/// second space (the protocol version field) is not inspected.
pub open spec fn spec_request_line_at(b: Seq<u8>, i: int, e: int) -> Option<(Seq<u8>, Seq<u8>)> {
    match find_byte_from(b, i, e, 32) {
        None => None,
        Some(s1) => if s1 == i {
            None
        } else {
            match find_byte_from(b, s1 + 1, e, 32) {
                None => None,
                Some(s2) => if s2 == s1 + 1 {
                    None
                } else {
                    Some((b.subrange(i, s1), b.subrange(s1 + 1, s2)))
                },
            }
        },
    }
}

/// What parsing the header section yields.
#[verifier::ext_equal]
pub enum SpecHeaders {
    Incomplete,
    Invalid,
    Done(Seq<SpecHeader>),
}

/// The header section starting at `i`: header lines up to the first empty
/// line, each parsed by [`spec_header_at`].
pub open spec fn parse_headers_from(b: Seq<u8>, i: int) -> SpecHeaders
    decreases b.len() - i,
    when 0 <= i
    via parse_headers_from_decreases
{
    match find_line_end(b, i) {
        None => SpecHeaders::Incomplete,
        Some(e) => if e == i {
            SpecHeaders::Done(Seq::empty())
        } else {
            match spec_header_at(b, i, e) {
                None => SpecHeaders::Invalid,
                Some(h) => match parse_headers_from(b, e + 2) {
                    SpecHeaders::Incomplete => SpecHeaders::Incomplete,
                    SpecHeaders::Invalid => SpecHeaders::Invalid,
                    SpecHeaders::Done(rest) => SpecHeaders::Done(seq![h] + rest),
                },
            }
        },
    }
}

#[via_fn]
proof fn parse_headers_from_decreases(b: Seq<u8>, i: int) {
    lemma_find_line_end_bounds(b, i);
}

/// The outcome of parsing a whole datagram: the request line, then the
/// header section, then an empty line; bytes past it are ignored.
pub open spec fn spec_parse(b: Seq<u8>) -> SpecParse {
    match find_line_end(b, 0) {
        None => SpecParse::Incomplete,
        Some(e) => match spec_request_line_at(b, 0, e) {
            None => SpecParse::Invalid,
            Some(rl) => match parse_headers_from(b, e + 2) {
                SpecHeaders::Incomplete => SpecParse::Incomplete,
                SpecHeaders::Invalid => SpecParse::Invalid,
                SpecHeaders::Done(hs) => SpecParse::Complete(
                    SpecRequest { method: rl.0, path: rl.1, headers: hs },
                ),
            },
        },
    }
}

fn find_line_end_exec(buf: &[u8], i: usize) -> (r: Option<usize>)
    requires
        i <= buf@.len(),
    ensures
        r is Some ==> find_line_end(buf@, i as int) == Some(r->0 as int),
        r is None ==> find_line_end(buf@, i as int) is None,
    decreases buf@.len() - i,
{
    if buf.len() < 2 || i > buf.len() - 2 {
        None
    } else if buf[i] == 13 && buf[i + 1] == 10 {
        Some(i)
    } else {
        find_line_end_exec(buf, i + 1)
    }
}

fn find_byte_in(buf: &[u8], i: usize, e: usize, x: u8) -> (r: Option<usize>)
    requires
        i <= e <= buf@.len(),
    ensures
        r is Some ==> find_byte_from(buf@, i as int, e as int, x) == Some(r->0 as int) && i <= r->0
            < e,
        r is None ==> find_byte_from(buf@, i as int, e as int, x) is None,
    decreases e - i,
{
    if i >= e {
        None
    } else if buf[i] == x {
        Some(i)
    } else {
        find_byte_in(buf, i + 1, e, x)
    }
}

fn ws_start_exec(buf: &[u8], j: usize, e: usize) -> (r: usize)
    requires
        j <= e <= buf@.len(),
    ensures
        r as int == ws_start(buf@, j as int, e as int),
        j <= r <= e,
    decreases e - j,
{
    if j >= e {
        e
    } else if buf[j] == 32 || buf[j] == 9 {
        ws_start_exec(buf, j + 1, e)
    } else {
        j
    }
}

fn parse_header_exec(buf: &[u8], i: usize, e: usize) -> (r: Option<HeaderField>)
    requires
        i <= e <= buf@.len(),
    ensures
        r is Some ==> spec_header_at(buf@, i as int, e as int) == Some(r->0@),
        r is None ==> spec_header_at(buf@, i as int, e as int) is None,
{
    match find_byte_in(buf, i, e, 58) {
        None => None,
        Some(c) => {
            if c == i {
                None
            } else {
                let vs = ws_start_exec(buf, c + 1, e);
                let name = bytes_range(buf, i, c);
                let value = bytes_range(buf, vs, e);
                Some(HeaderField { name, value })
            }
        },
    }
}

fn parse_request_line_exec(buf: &[u8], i: usize, e: usize) -> (r: Option<(Vec<u8>, Vec<u8>)>)
    requires
        i <= e <= buf@.len(),
    ensures
        r is Some ==> spec_request_line_at(buf@, i as int, e as int) == Some(
            ((r->0).0@, (r->0).1@),
        ),
        r is None ==> spec_request_line_at(buf@, i as int, e as int) is None,
{
    match find_byte_in(buf, i, e, 32) {
        None => None,
        Some(s1) => {
            if s1 == i {
                None
            } else {
                match find_byte_in(buf, s1 + 1, e, 32) {
                    None => None,
                    Some(s2) => {
                        if s2 == s1 + 1 {
                            None
                        } else {
                            let method = bytes_range(buf, i, s1);
                            let path = bytes_range(buf, s1 + 1, s2);
                            Some((method, path))
                        }
                    },
                }
            }
        },
    }
}

enum HeadersOutcome {
    Incomplete,
    Invalid,
    Done(Vec<HeaderField>),
}

impl View for HeadersOutcome {
    type V = SpecHeaders;

    closed spec fn view(&self) -> SpecHeaders {
        match self {
            HeadersOutcome::Incomplete => SpecHeaders::Incomplete,
            HeadersOutcome::Invalid => SpecHeaders::Invalid,
            HeadersOutcome::Done(hs) => SpecHeaders::Done(
                hs@.map_values(|h: HeaderField| h@),
            ),
        }
    }
}

fn parse_headers_exec(buf: &[u8], i: usize) -> (r: HeadersOutcome)
    requires
        i <= buf@.len(),
    ensures
        r@ == parse_headers_from(buf@, i as int),
    decreases buf@.len() - i,
{
    let _n: usize = buf.len();
    match find_line_end_exec(buf, i) {
        None => HeadersOutcome::Incomplete,
        Some(e) => {
            proof {
                lemma_find_line_end_bounds(buf@, i as int);
            }
            if e == i {
                let r = HeadersOutcome::Done(Vec::new());
                proof {
                    assert(r@ =~= parse_headers_from(buf@, i as int));
                }
                r
            } else {
                match parse_header_exec(buf, i, e) {
                    None => HeadersOutcome::Invalid,
                    Some(h) => {
                        match parse_headers_exec(buf, e + 2) {
                            HeadersOutcome::Incomplete => HeadersOutcome::Incomplete,
                            HeadersOutcome::Invalid => HeadersOutcome::Invalid,
                            HeadersOutcome::Done(rest) => {
                                let ghost old_rest = rest@;
                                let ghost hv = h@;
                                let mut rest = rest;
                                rest.insert(0, h);
                                let r = HeadersOutcome::Done(rest);
                                proof {
                                    assert(rest@.map_values(|x: HeaderField| x@) =~= seq![hv]
                                        + old_rest.map_values(|x: HeaderField| x@));
                                    assert(r@ =~= parse_headers_from(buf@, i as int));
                                }
                                r
                            },
                        }
                    },
                }
            }
        },
    }
}

/// Parse one datagram. The result is exactly what the grammar
/// ([`spec_parse`]) assigns to the bytes.
pub fn parse_request(buf: &[u8]) -> (r: ParseOutcome)
    ensures
        r@ == spec_parse(buf@),
{
    let _n: usize = buf.len();
    match find_line_end_exec(buf, 0) {
        None => ParseOutcome::Incomplete,
        Some(e) => {
            proof {
                lemma_find_line_end_bounds(buf@, 0);
            }
            match parse_request_line_exec(buf, 0, e) {
                None => ParseOutcome::Invalid,
                Some(rl) => {
                    match parse_headers_exec(buf, e + 2) {
                        HeadersOutcome::Incomplete => ParseOutcome::Incomplete,
                        HeadersOutcome::Invalid => ParseOutcome::Invalid,
                        HeadersOutcome::Done(hs) => {
                            let r = ParseOutcome::Complete(
                                ParsedRequest { method: rl.0, path: rl.1, headers: hs },
                            );
                            proof {
                                assert(r@ =~~= spec_parse(buf@));
                            }
                            r
                        },
                    }
                },
            }
        },
    }
}

} // verus!
