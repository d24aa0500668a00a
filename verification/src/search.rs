//! The search responder: walks the headers of a parsed `M-SEARCH` request,
//! validates the SSDP constraints (`MAN`, `MX`, `ST`), looks the search
//! target up in the device registry, and assembles the reply and its
//! jittered send delay.
use vstd::prelude::*;
use crate::Device;
use crate::message::search_response_text;
use crate::outside::rand_below;
use crate::parse::{HeaderField, ParsedRequest, SpecHeader};
use crate::server::{Server, default_server_name};
use crate::text::{bytes_eq, bytes_eq_ignore_case, bytes_range, lower_bytes, spec_parse_u32};

verus! {

/// Why a parseable search request was rejected. Rejection is reported to
/// the caller (for logging) but never answered on the wire.
#[derive(Clone, Copy, Debug, PartialEq, Eq, Structural)]
pub enum SearchError {
    /// The `MX` value is not an unsigned decimal number.
    InvalidMx,
    /// The `MAN` value differs from the quoted literal `"ssdp:discover"`.
    BadMan,
    /// No `MAN` header is present.
    MissingMan,
    /// No `ST` header is present.
    MissingSt,
}

impl SearchError {
    /// A short description of the rejection, for logging.
    pub fn describe(&self) -> (r: &'static str)
        ensures
            r@ == match self {
                SearchError::InvalidMx => "MX is not a number"@,
                SearchError::BadMan => "MAN != \"ssdp:discover\""@,
                SearchError::MissingMan => "MAN header not found"@,
                SearchError::MissingSt => "ST header not found"@,
            },
    {
        match self {
            SearchError::InvalidMx => "MX is not a number",
            SearchError::BadMan => "MAN != \"ssdp:discover\"",
            SearchError::MissingMan => "MAN header not found",
            SearchError::MissingSt => "ST header not found",
        }
    }
}

/// A header name equals a given name up to ASCII case.
pub open spec fn name_matches(name: Seq<u8>, lit: Seq<u8>) -> bool {
    lower_bytes(name) == lower_bytes(lit)
}

/// The exact `MAN` value a search request must carry.
pub open spec fn man_literal() -> Seq<u8> {
    vstd::utf8::encode_utf8("\"ssdp:discover\""@)
}

/// The running state of the header walk: the last `ST` value seen, the
/// last `MX` value parsed, and whether a correct `MAN` was seen.
#[verifier::ext_equal]
pub struct SpecScan {
    pub st: Option<Seq<u8>>,
    pub mx: u32,
    pub man: bool,
}

/// The header walk: every header is visited in order; `ST` assigns the
/// search target (last occurrence wins), `MX` must parse as an unsigned
/// number, and `MAN` must equal the quoted `"ssdp:discover"` literal.
pub open spec fn scan_headers(hs: Seq<SpecHeader>, acc: SpecScan) -> Result<SpecScan, SearchError>
    decreases hs.len(),
{
    if hs.len() == 0 {
        Ok(acc)
    } else {
        let h = hs[0];
        let rest = hs.drop_first();
        if name_matches(h.name, vstd::utf8::encode_utf8("st"@)) {
            scan_headers(rest, SpecScan { st: Some(h.value), ..acc })
        } else if name_matches(h.name, vstd::utf8::encode_utf8("mx"@)) {
            match spec_parse_u32(h.value) {
                None => Err(SearchError::InvalidMx),
                Some(v) => scan_headers(rest, SpecScan { mx: v, ..acc }),
            }
        } else if name_matches(h.name, vstd::utf8::encode_utf8("man"@)) {
            if h.value != man_literal() {
                Err(SearchError::BadMan)
            } else {
                scan_headers(rest, SpecScan { man: true, ..acc })
            }
        } else {
            scan_headers(rest, acc)
        }
    }
}

/// What a search request's headers yield: the search target and maximum
/// wait, or the first reason for rejection. After the walk, a missing
/// correct `MAN` and then a missing `ST` are rejections of their own.
pub open spec fn spec_extract(hs: Seq<SpecHeader>) -> Result<(Seq<u8>, u32), SearchError> {
    match scan_headers(hs, SpecScan { st: None, mx: 0, man: false }) {
        Err(e) => Err(e),
        Ok(s) => if !s.man {
            Err(SearchError::MissingMan)
        } else {
            match s.st {
                None => Err(SearchError::MissingSt),
                Some(st) => Ok((st, s.mx)),
            }
        },
    }
}

/// The validated parameters of a search request.
pub struct SearchParams {
    /// The requested search target (`ST` value).
    pub st: Vec<u8>,
    /// The requested maximum wait in seconds (`MX` value, default 0).
    pub mx: u32,
}

/// The view of a header list.
pub open spec fn header_views(hs: Seq<HeaderField>) -> Seq<SpecHeader> {
    hs.map_values(|h: HeaderField| h@)
}

/// Walk a search request's headers and validate them, as
/// [`spec_extract`] describes.
pub fn extract_search(headers: &Vec<HeaderField>) -> (r: Result<SearchParams, SearchError>)
    ensures
        match r {
            Ok(p) => spec_extract(header_views(headers@)) == Ok::<(Seq<u8>, u32), SearchError>(
                (p.st@, p.mx),
            ),
            Err(e) => spec_extract(header_views(headers@)) == Err::<(Seq<u8>, u32), SearchError>(e),
        },
{
    let ghost hview = header_views(headers@);
    let ghost init = SpecScan { st: None, mx: 0, man: false };
    let mut st: Option<Vec<u8>> = None;
    let mut mx: u32 = 0;
    let mut man: bool = false;
    let n = headers.len();
    let mut i: usize = 0;
    proof {
        assert(hview.skip(0) =~= hview);
    }
    while i < n
        invariant
            0 <= i <= n,
            n == headers@.len(),
            hview == header_views(headers@),
            init == (SpecScan { st: None, mx: 0, man: false }),
            scan_headers(hview, init) == scan_headers(
                hview.skip(i as int),
                SpecScan {
                    st: match st {
                        Some(v) => Some(v@),
                        None => None,
                    },
                    mx,
                    man,
                },
            ),
        decreases n - i,
    {
        proof {
            assert(hview.skip(i as int)[0] == hview[i as int]);
            assert(hview.skip(i as int).drop_first() =~= hview.skip(i + 1));
            assert(hview[i as int] == headers@[i as int]@);
        }
        let h = &headers[i];
        if bytes_eq_ignore_case(h.name.as_slice(), "st".as_bytes()) {
            let v = bytes_range(h.value.as_slice(), 0, h.value.len());
            proof {
                assert(v@ =~= h.value@);
            }
            st = Some(v);
        } else if bytes_eq_ignore_case(h.name.as_slice(), "mx".as_bytes()) {
            match crate::text::parse_u32_ascii(h.value.as_slice()) {
                Some(v) => {
                    mx = v;
                },
                None => {
                    return Err(SearchError::InvalidMx);
                },
            }
        } else if bytes_eq_ignore_case(h.name.as_slice(), "man".as_bytes()) {
            if !bytes_eq(h.value.as_slice(), "\"ssdp:discover\"".as_bytes()) {
                return Err(SearchError::BadMan);
            }
            man = true;
        }
        i += 1;
    }
    proof {
        assert(hview.skip(n as int) =~= Seq::<SpecHeader>::empty());
    }
    if !man {
        return Err(SearchError::MissingMan);
    }
    match st {
        None => Err(SearchError::MissingSt),
        Some(stv) => Ok(SearchParams { st: stv, mx }),
    }
}

/// A device answers for a search target when its own target equals it up
/// to ASCII case.
pub open spec fn target_matches(d: Device, st: Seq<u8>) -> bool {
    lower_bytes(vstd::utf8::encode_utf8(d.search_target@)) == lower_bytes(st)
}

/// The index of the first registered device whose search target matches,
/// in registration order; duplicates resolve to the earliest registration.
pub open spec fn spec_find_device(ds: Seq<Device>, st: Seq<u8>) -> Option<int>
    decreases ds.len(),
{
    if ds.len() == 0 {
        None
    } else if target_matches(ds[0], st) {
        Some(0)
    } else {
        match spec_find_device(ds.drop_first(), st) {
            None => None,
            Some(i) => Some(i + 1),
        }
    }
}

proof fn lemma_find_device_prefix(ds: Seq<Device>, st: Seq<u8>, i: int)
    requires
        0 <= i <= ds.len(),
        forall|j: int| 0 <= j < i ==> !target_matches(ds[j], st),
    ensures
        i < ds.len() && target_matches(ds[i], st) ==> spec_find_device(ds, st) == Some(i),
        i == ds.len() ==> spec_find_device(ds, st) is None,
    decreases i,
{
    if i == 0 {
        if 0 < ds.len() && target_matches(ds[0], st) {
        } else if ds.len() == 0 {
        }
    } else {
        assert(!target_matches(ds[0], st));
        lemma_find_device_prefix(ds.drop_first(), st, i - 1);
        assert(forall|j: int|
            0 <= j < i - 1 ==> ds.drop_first()[j] == ds[j + 1] && !target_matches(
                ds.drop_first()[j],
                st,
            ));
        if i < ds.len() && target_matches(ds[i], st) {
            assert(ds.drop_first()[i - 1] == ds[i]);
        }
    }
}

/// When the registered devices carry pairwise distinct search targets
/// (up to ASCII case), a search for a target that some device `k` matches
/// finds exactly that device: the reply built for the request is the one
/// reply of device `k`, with its location and its unique service name.
pub proof fn lemma_distinct_targets_find_unique(ds: Seq<Device>, st: Seq<u8>, k: int)
    requires
        0 <= k < ds.len(),
        forall|i: int, j: int|
            0 <= i < j < ds.len() ==> lower_bytes(
                vstd::utf8::encode_utf8((#[trigger] ds[i]).search_target@),
            ) != lower_bytes(vstd::utf8::encode_utf8((#[trigger] ds[j]).search_target@)),
        target_matches(ds[k], st),
    ensures
        spec_find_device(ds, st) == Some(k),
{
    assert forall|j: int| 0 <= j < k implies !target_matches(ds[j], st) by {
        assert(lower_bytes(vstd::utf8::encode_utf8(ds[j].search_target@)) != lower_bytes(
            vstd::utf8::encode_utf8(ds[k].search_target@),
        ));
    }
    lemma_find_device_prefix(ds, st, k);
}

/// Find the first device matching a search target, scanning the registry
/// in order, case-insensitively.
pub fn find_device(devices: &Vec<Device>, st: &[u8]) -> (r: Option<usize>)
    ensures
        match r {
            Some(i) => spec_find_device(devices@, st@) == Some(i as int) && i < devices@.len(),
            None => spec_find_device(devices@, st@) is None,
        },
{
    let n = devices.len();
    let mut i: usize = 0;
    while i < n
        invariant
            0 <= i <= n,
            n == devices@.len(),
            forall|j: int| 0 <= j < i ==> !target_matches(devices@[j], st@),
        decreases n - i,
    {
        let d = &devices[i];
        if bytes_eq_ignore_case(d.search_target.as_str().as_bytes(), st) {
            proof {
                lemma_find_device_prefix(devices@, st@, i as int);
            }
            return Some(i);
        }
        i += 1;
    }
    proof {
        lemma_find_device_prefix(devices@, st@, n as int);
    }
    None
}

/// A search reply: the formatted response text and the delay, in seconds,
/// after which it should be sent to the querying address.
pub struct SearchReply {
    /// The complete wire text of the response.
    pub message: String,
    /// The jittered delay before the unicast send.
    pub delay_secs: u32,
}

/// The jittered reply delay: zero when `MX` is zero, otherwise a random
/// number of seconds below `MX` clamped to 3.
pub fn reply_delay(mx: u32) -> (d: u32)
    ensures
        mx == 0 ==> d == 0,
        mx > 0 ==> d < (if mx < 3 {
            mx as int
        } else {
            3
        }),
{
    if mx == 0 {
        0
    } else {
        let bound = if mx < 3 {
            mx
        } else {
            3
        };
        rand_below(bound)
    }
}

impl Server {
    /// Answer one parsed `M-SEARCH` request: validate its headers, look the
    /// search target up, and on a match build the response (dated `date`)
    /// and choose its send delay. An unknown target is no error: the
    /// request is simply not answered. A rejected request is reported and
    /// not answered.
    pub fn handle_search(&self, req: &ParsedRequest, date: &str) -> (r: Result<
        Option<SearchReply>,
        SearchError,
    >)
        ensures
            ({
                let ext = spec_extract(header_views(req.headers@));
                match r {
                    Err(e) => ext == Err::<(Seq<u8>, u32), SearchError>(e),
                    Ok(None) => ext is Ok && spec_find_device(self.devices@, (ext->Ok_0).0)
                        is None,
                    Ok(Some(reply)) => ext is Ok && {
                        let st = (ext->Ok_0).0;
                        let mx = (ext->Ok_0).1;
                        let idx = spec_find_device(self.devices@, st);
                        idx is Some && {
                            let d = self.devices@[idx->0];
                            reply.message@ == search_response_text(
                                self.max_age as nat,
                                date@,
                                d.location@,
                                self.spec_server_name(),
                                d.search_target@,
                                d.usn@,
                                self.spec_extra_headers(),
                            ) && (mx == 0 ==> reply.delay_secs == 0) && (mx > 0
                                ==> reply.delay_secs < (if mx < 3 {
                                mx as int
                            } else {
                                3
                            }))
                        }
                    },
                }
            }),
    {
        let params = match extract_search(&req.headers) {
            Ok(p) => p,
            Err(e) => {
                return Err(e);
            },
        };
        match find_device(&self.devices, params.st.as_slice()) {
            None => Ok(None),
            Some(i) => {
                let extra = self.render_extra_headers();
                let server_disp: &str = match &self.server_name {
                    Some(n) => n.as_str(),
                    None => default_server_name(),
                };
                let d = &self.devices[i];
                let message = crate::message::format_search_response(
                    self.max_age,
                    date,
                    d.location.as_str(),
                    server_disp,
                    d.search_target.as_str(),
                    d.usn.as_str(),
                    extra.as_str(),
                );
                let delay_secs = reply_delay(params.mx);
                Ok(Some(SearchReply { message, delay_secs }))
            },
        }
    }
}

} // verus!
