//! The message formatter: builds the three SSDP wire messages (search
//! response, `ssdp:alive` notification, `ssdp:byebye` notification) from a
//! device, the server configuration and pre-concatenated extra headers.
//!
//! Every message is CRLF-terminated HTTP/1.1-style text ending in an empty
//! line, with the header order fixed for wire compatibility with clients
//! that parse positionally.
use vstd::prelude::*;
use crate::text::{dec_text, u64_to_string};

verus! {

/// The CRLF line terminator.
pub open spec fn crlf() -> Seq<char> {
    seq!['\r', '\n']
}

/// One header line: `NAME: value` followed by CRLF.
pub open spec fn header_line(name: Seq<char>, value: Seq<char>) -> Seq<char> {
    name + seq![':', ' '] + value + crlf()
}

/// The pre-concatenated text of the configured extra headers, one header
/// line per `(name, value)` pair, in order.
pub open spec fn extra_headers_text(headers: Seq<(Seq<char>, Seq<char>)>) -> Seq<char>
    decreases headers.len(),
{
    if headers.len() == 0 {
        Seq::empty()
    } else {
        header_line(headers[0].0, headers[0].1) + extra_headers_text(headers.drop_first())
    }
}

/// Extending the extra headers by one pair appends one header line.
pub proof fn lemma_extra_headers_snoc(s: Seq<(Seq<char>, Seq<char>)>, p: (Seq<char>, Seq<char>))
    ensures
        extra_headers_text(s.push(p)) == extra_headers_text(s) + header_line(p.0, p.1),
    decreases s.len(),
{
    if s.len() == 0 {
        let t = s.push(p);
        assert(t[0] == p);
        assert(t.drop_first() =~= Seq::<(Seq<char>, Seq<char>)>::empty());
        assert(extra_headers_text(t.drop_first()) == Seq::<char>::empty());
        assert(extra_headers_text(t) == header_line(t[0].0, t[0].1) + extra_headers_text(
            t.drop_first(),
        ));
        assert(extra_headers_text(t) =~= extra_headers_text(s) + header_line(p.0, p.1));
    } else {
        assert(s.push(p)[0] == s[0]);
        assert(s.push(p).drop_first() =~= s.drop_first().push(p));
        lemma_extra_headers_snoc(s.drop_first(), p);
        assert(extra_headers_text(s.push(p)) =~= extra_headers_text(s) + header_line(p.0, p.1));
    }
}

/// The complete search response: status line, the six mandatory headers in
/// fixed order (`EXT` has an empty value and no space after the colon),
/// the extra headers, and a final empty line.
pub open spec fn search_response_text(
    max_age: nat,
    date: Seq<char>,
    location: Seq<char>,
    server: Seq<char>,
    st: Seq<char>,
    usn: Seq<char>,
    extra: Seq<char>,
) -> Seq<char> {
    "HTTP/1.1 200 OK"@ + crlf() + header_line("CACHE-CONTROL"@, "max-age="@ + dec_text(max_age))
        + header_line("DATE"@, date) + "EXT:"@ + crlf() + header_line("LOCATION"@, location)
        + header_line("SERVER"@, server) + header_line("ST"@, st) + header_line("USN"@, usn)
        + extra + crlf()
}

/// The complete `ssdp:alive` notification for one device.
pub open spec fn alive_text(
    max_age: nat,
    location: Seq<char>,
    server: Seq<char>,
    nt: Seq<char>,
    usn: Seq<char>,
    extra: Seq<char>,
) -> Seq<char> {
    "NOTIFY * HTTP/1.1"@ + crlf() + header_line("HOST"@, "239.255.255.250:1900"@) + header_line(
        "CACHE-CONTROL"@,
        "max-age="@ + dec_text(max_age),
    ) + header_line("LOCATION"@, location) + header_line("NT"@, nt) + header_line(
        "NTS"@,
        "ssdp:alive"@,
    ) + header_line("SERVER"@, server) + header_line("USN"@, usn) + extra + crlf()
}

/// The complete `ssdp:byebye` notification for one device. Its `NTS` value
/// is `ssdp:alive`: the observed wire behaviour, preserved deliberately
/// rather than corrected to `ssdp:byebye`.
pub open spec fn byebye_text(nt: Seq<char>, usn: Seq<char>, extra: Seq<char>) -> Seq<char> {
    "NOTIFY * HTTP/1.1"@ + crlf() + header_line("HOST"@, "239.255.255.250:1900"@) + header_line(
        "NT"@,
        nt,
    ) + header_line("NTS"@, "ssdp:alive"@) + header_line("USN"@, usn) + extra + crlf()
}

/// Append one CRLF to `out`.
fn push_crlf(out: &mut String)
    ensures
        final(out)@ == old(out)@ + crlf(),
{
    proof {
        reveal_strlit("\r\n");
    }
    out.append("\r\n");
    proof {
        assert(final(out)@ =~= old(out)@ + crlf());
    }
}

/// Append one `NAME: value` header line to `out`.
fn push_header(out: &mut String, name: &str, value: &str)
    ensures
        final(out)@ == old(out)@ + header_line(name@, value@),
{
    proof {
        reveal_strlit(": ");
        reveal_strlit("\r\n");
    }
    out.append(name);
    out.append(": ");
    out.append(value);
    out.append("\r\n");
    proof {
        assert(final(out)@ =~= old(out)@ + header_line(name@, value@));
    }
}

/// Build a search response from its already-chosen pieces: the `DATE` value,
/// the effective server name, and the pre-concatenated extra headers.
pub fn format_search_response(
    max_age: u64,
    date: &str,
    location: &str,
    server: &str,
    st: &str,
    usn: &str,
    extra: &str,
) -> (r: String)
    ensures
        r@ == search_response_text(max_age as nat, date@, location@, server@, st@, usn@, extra@),
{
    let mut out = String::new();
    out.append("HTTP/1.1 200 OK");
    push_crlf(&mut out);
    let mut cache: String = "max-age=".to_owned();
    let age = u64_to_string(max_age);
    cache.append(age.as_str());
    push_header(&mut out, "CACHE-CONTROL", cache.as_str());
    push_header(&mut out, "DATE", date);
    out.append("EXT:");
    push_crlf(&mut out);
    push_header(&mut out, "LOCATION", location);
    push_header(&mut out, "SERVER", server);
    push_header(&mut out, "ST", st);
    push_header(&mut out, "USN", usn);
    out.append(extra);
    push_crlf(&mut out);
    proof {
        assert(out@ =~= search_response_text(
            max_age as nat,
            date@,
            location@,
            server@,
            st@,
            usn@,
            extra@,
        ));
    }
    out
}

/// Build the `ssdp:alive` notification for one device.
pub fn format_alive(
    max_age: u64,
    location: &str,
    server: &str,
    nt: &str,
    usn: &str,
    extra: &str,
) -> (r: String)
    ensures
        r@ == alive_text(max_age as nat, location@, server@, nt@, usn@, extra@),
{
    let mut out = String::new();
    out.append("NOTIFY * HTTP/1.1");
    push_crlf(&mut out);
    push_header(&mut out, "HOST", "239.255.255.250:1900");
    let mut cache: String = "max-age=".to_owned();
    let age = u64_to_string(max_age);
    cache.append(age.as_str());
    push_header(&mut out, "CACHE-CONTROL", cache.as_str());
    push_header(&mut out, "LOCATION", location);
    push_header(&mut out, "NT", nt);
    push_header(&mut out, "NTS", "ssdp:alive");
    push_header(&mut out, "SERVER", server);
    push_header(&mut out, "USN", usn);
    out.append(extra);
    push_crlf(&mut out);
    proof {
        assert(out@ =~= alive_text(max_age as nat, location@, server@, nt@, usn@, extra@));
    }
    out
}

/// Build the `ssdp:byebye` notification for one device.
pub fn format_byebye(nt: &str, usn: &str, extra: &str) -> (r: String)
    ensures
        r@ == byebye_text(nt@, usn@, extra@),
{
    let mut out = String::new();
    out.append("NOTIFY * HTTP/1.1");
    push_crlf(&mut out);
    push_header(&mut out, "HOST", "239.255.255.250:1900");
    push_header(&mut out, "NT", nt);
    push_header(&mut out, "NTS", "ssdp:alive");
    push_header(&mut out, "USN", usn);
    out.append(extra);
    push_crlf(&mut out);
    proof {
        assert(out@ =~= byebye_text(nt@, usn@, extra@));
    }
    out
}

/// Formatting is a pure function of its inputs: two messages built from the
/// same device, configuration and date are identical, character for
/// character.
pub proof fn lemma_format_deterministic(
    m1: Seq<char>,
    m2: Seq<char>,
    max_age: nat,
    date: Seq<char>,
    location: Seq<char>,
    server: Seq<char>,
    st: Seq<char>,
    usn: Seq<char>,
    extra: Seq<char>,
)
    requires
        m1 == search_response_text(max_age, date, location, server, st, usn, extra),
        m2 == search_response_text(max_age, date, location, server, st, usn, extra),
    ensures
        m1 == m2,
{
}

} // verus!
