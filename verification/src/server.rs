//! The server configuration: the immutable device registry, the builder
//! options, the partial-request workaround, and the routing of parsed
//! datagrams by method and path.
use vstd::prelude::*;
use crate::Device;
use crate::message::{extra_headers_text, header_line, lemma_extra_headers_snoc};
use crate::parse::ParsedRequest;
use crate::text::{CR, LF, bytes_eq};

verus! {

/// The size of the datagram receive buffer.
pub const RECV_BUFFER_LEN: usize = 2048;

/// The `SERVER` name advertised when none is configured.
pub open spec fn default_server_name_text() -> Seq<char> {
    "Tokio-SSDP/1.0 UPnP/1.0"@
}

/// The `SERVER` name advertised when none is configured.
pub fn default_server_name() -> (r: &'static str)
    ensures
        r@ == default_server_name_text(),
{
    "Tokio-SSDP/1.0 UPnP/1.0"
}

/// An SSDP server: a fixed registry of advertised devices plus the
/// configuration that shapes every outgoing message. It answers `M-SEARCH`
/// requests and provides the `alive` and `byebye` notifications.
pub struct Server {
    /// Overrides [`DEFAULT_SERVER_NAME`] when set.
    pub server_name: Option<String>,
    /// Cache validity in seconds, and the alive re-announcement period.
    pub max_age: u64,
    /// The advertised devices, in registration order.
    pub devices: Vec<Device>,
    /// Extra `(name, value)` headers appended to every outgoing message.
    pub headers: Vec<(String, String)>,
    /// Tolerate requests that end in a single CRLF instead of an empty line.
    pub partial_req_workaround: bool,
}

/// The views of the configured extra header pairs.
pub open spec fn header_pair_views(hs: Seq<(String, String)>) -> Seq<(Seq<char>, Seq<char>)> {
    hs.map_values(|p: (String, String)| (p.0@, p.1@))
}

impl Server {
    /// The advertised server name: the configured one, or the default.
    pub open spec fn spec_server_name(self) -> Seq<char> {
        match self.server_name {
            Some(n) => n@,
            None => default_server_name_text(),
        }
    }

    /// The pre-concatenated extra header text appended to every message.
    pub open spec fn spec_extra_headers(self) -> Seq<char> {
        extra_headers_text(header_pair_views(self.headers@))
    }

    /// Create a server advertising `devices`, with the default name, a
    /// `max_age` of 100 seconds, no extra headers and the workaround off.
    pub fn new(devices: Vec<Device>) -> (r: Server)
        ensures
            r.server_name is None,
            r.max_age == 100,
            r.devices == devices,
            r.headers@.len() == 0,
            !r.partial_req_workaround,
    {
        Server {
            server_name: None,
            max_age: 100,
            devices,
            headers: Vec::new(),
            partial_req_workaround: false,
        }
    }

    /// Set the advertised server name.
    pub fn server_name(self, server_name: &str) -> (r: Server)
        ensures
            r.server_name is Some && (r.server_name->0)@ == server_name@,
            r.spec_server_name() == server_name@,
            r.max_age == self.max_age,
            r.devices == self.devices,
            r.headers == self.headers,
            r.partial_req_workaround == self.partial_req_workaround,
    {
        Server { server_name: Some(server_name.to_owned()), ..self }
    }

    /// Set the advertised cache validity and re-announcement period.
    pub fn max_age(self, max_age: u64) -> (r: Server)
        ensures
            r.max_age == max_age,
            r.server_name == self.server_name,
            r.devices == self.devices,
            r.headers == self.headers,
            r.partial_req_workaround == self.partial_req_workaround,
    {
        Server { max_age, ..self }
    }

    /// Toggle lenient handling of requests that end in a bare CRLF.
    pub fn partial_request_workaround(self, partial_req_workaround: bool) -> (r: Server)
        ensures
            r.partial_req_workaround == partial_req_workaround,
            r.server_name == self.server_name,
            r.max_age == self.max_age,
            r.devices == self.devices,
            r.headers == self.headers,
    {
        Server { partial_req_workaround, ..self }
    }

    /// Append one extra header to every outgoing message.
    pub fn extra_header(self, name: &str, value: &str) -> (r: Server)
        ensures
            r.headers@.len() == self.headers@.len() + 1,
            r.headers@.drop_last() == self.headers@,
            (r.headers@.last().0)@ == name@,
            (r.headers@.last().1)@ == value@,
            r.server_name == self.server_name,
            r.max_age == self.max_age,
            r.devices == self.devices,
            r.partial_req_workaround == self.partial_req_workaround,
    {
        let ghost orig = self.headers@;
        let mut headers = self.headers;
        headers.push((name.to_owned(), value.to_owned()));
        proof {
            assert(headers@.drop_last() =~= orig);
        }
        Server { headers, ..self }
    }

    /// Render the extra headers as wire text, one `NAME: value` line each,
    /// in configuration order.
    pub fn render_extra_headers(&self) -> (r: String)
        ensures
            r@ == self.spec_extra_headers(),
    {
        let mut out = String::new();
        let n = self.headers.len();
        let mut i: usize = 0;
        while i < n
            invariant
                0 <= i <= n,
                n == self.headers@.len(),
                out@ == extra_headers_text(header_pair_views(self.headers@.subrange(0, i as int))),
            decreases n - i,
        {
            proof {
                reveal_strlit(": ");
                reveal_strlit("\r\n");
                lemma_extra_headers_snoc(
                    header_pair_views(self.headers@.subrange(0, i as int)),
                    (self.headers@[i as int].0@, self.headers@[i as int].1@),
                );
                assert(header_pair_views(self.headers@.subrange(0, i + 1))
                    =~= header_pair_views(self.headers@.subrange(0, i as int)).push(
                    (self.headers@[i as int].0@, self.headers@[i as int].1@),
                ));
            }
            let pair = &self.headers[i];
            out.append(pair.0.as_str());
            out.append(": ");
            out.append(pair.1.as_str());
            out.append("\r\n");
            proof {
                assert(out@ =~= extra_headers_text(
                    header_pair_views(self.headers@.subrange(0, i + 1)),
                ));
            }
            i += 1;
        }
        proof {
            assert(self.headers@.subrange(0, n as int) =~= self.headers@);
        }
        out
    }

    /// Whether the partial-request workaround rewrites this datagram: the
    /// workaround is on, the data ends in a bare CRLF rather than an empty
    /// line, and the receive buffer has room for two more bytes.
    pub open spec fn fixup_applies(self, b: Seq<u8>) -> bool {
        self.partial_req_workaround && ends_with_crlf(b) && !ends_with_crlfcrlf(b) && b.len() + 2
            < RECV_BUFFER_LEN
    }

    /// Append the missing CRLF to a datagram from a lenient client, so that
    /// a request ending in a bare CRLF parses as complete; leave every
    /// other datagram untouched.
    pub fn apply_partial_request_workaround(&self, data: &mut Vec<u8>)
        ensures
            self.fixup_applies(old(data)@) ==> final(data)@ == old(data)@ + seq![CR, LF],
            !self.fixup_applies(old(data)@) ==> final(data)@ == old(data)@,
    {
        if !self.partial_req_workaround {
            return ;
        }
        let n = data.len();
        if n < 2 || data[n - 1] != 10 || data[n - 2] != 13 {
            return ;
        }
        if n >= 4 && data[n - 3] == 10 && data[n - 4] == 13 {
            return ;
        }
        if n >= RECV_BUFFER_LEN - 2 {
            return ;
        }
        data.push(13);
        data.push(10);
        proof {
            assert(final(data)@ =~= old(data)@ + seq![CR, LF]);
        }
    }
}

/// The data ends in CRLF.
pub open spec fn ends_with_crlf(b: Seq<u8>) -> bool {
    b.len() >= 2 && b[b.len() - 2] == CR && b[b.len() - 1] == LF
}

/// The data ends in an empty line (CRLF twice).
pub open spec fn ends_with_crlfcrlf(b: Seq<u8>) -> bool {
    b.len() >= 4 && b[b.len() - 4] == CR && b[b.len() - 3] == LF && b[b.len() - 2] == CR && b[b.len()
        - 1] == LF
}

/// Where the dispatch loop routes a parsed datagram.
pub enum Dispatch {
    /// `M-SEARCH *`: hand to the search responder.
    Search,
    /// `NOTIFY *`: another device's announcement, logged only.
    Notify,
    /// Anything else: logged and dropped.
    Unknown,
}

/// The routing rule, by method and path bytes.
pub open spec fn spec_classify(method: Seq<u8>, path: Seq<u8>) -> Dispatch {
    if method == vstd::utf8::encode_utf8("M-SEARCH"@) && path == vstd::utf8::encode_utf8("*"@) {
        Dispatch::Search
    } else if method == vstd::utf8::encode_utf8("NOTIFY"@) && path == vstd::utf8::encode_utf8(
        "*"@,
    ) {
        Dispatch::Notify
    } else {
        Dispatch::Unknown
    }
}

/// Route a parsed datagram by its method and path.
pub fn classify(req: &ParsedRequest) -> (r: Dispatch)
    ensures
        r == spec_classify(req.method@, req.path@),
{
    let star = "*".as_bytes();
    if bytes_eq(req.method.as_slice(), "M-SEARCH".as_bytes()) && bytes_eq(
        req.path.as_slice(),
        star,
    ) {
        Dispatch::Search
    } else if bytes_eq(req.method.as_slice(), "NOTIFY".as_bytes()) && bytes_eq(
        req.path.as_slice(),
        star,
    ) {
        Dispatch::Notify
    } else {
        Dispatch::Unknown
    }
}

} // verus!
