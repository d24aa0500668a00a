//! The few points where the library leans on outside code: the HTTP date
//! formatter, the system clock, and the random jitter source. Each is a
//! small trusted wrapper; everything computed from their results is
//! verified.
use vstd::prelude::*;
use crate::text::printable_ascii;
use std::time::{SystemTime, UNIX_EPOCH, Duration};
use rand::Rng;

verus! {

/// Seconds since the Unix epoch at which `httpdate` would format the year
/// 9999; dates from there on cannot be formatted.
pub const HTTP_DATE_LIMIT_SECS: u64 = 253402300800;

/// The RFC 1123 text of a Unix timestamp, e.g.
/// `Sun, 06 Nov 1994 08:49:37 GMT`: whatever `httpdate` prints for it.
pub uninterp spec fn http_date_of(secs: u64) -> Seq<char>;

/// Relies on `httpdate::fmt_http_date`: the date text depends on the
/// timestamp alone, is always 29 bytes of printable ASCII (day name,
/// digits, spaces, colons and `GMT`), and the conversion panics from the
/// year 9999 on, which the precondition excludes.
#[verifier::external_body]
fn fmt_http_date(secs: u64) -> (r: String)
    requires
        secs < HTTP_DATE_LIMIT_SECS,
    ensures
        r@ == http_date_of(secs),
        r@.len() == 29,
        printable_ascii(r@),
{
    httpdate::fmt_http_date(UNIX_EPOCH + Duration::from_secs(secs))
}

/// Relies on `std::time::SystemTime::now`: seconds since the Unix epoch,
/// zero if the clock reads before the epoch. Nothing is assumed of the
/// value.
#[verifier::external_body]
fn now_unix_secs() -> u64 {
    match SystemTime::now().duration_since(UNIX_EPOCH) {
        Ok(d) => d.as_secs(),
        Err(_) => 0,
    }
}

/// Relies on `rand::Rng::gen_range` on `rand::thread_rng`: a uniformly
/// random integer below the bound; the call panics only on an empty range,
/// which the precondition excludes. Nothing more is assumed of which value
/// comes back.
#[verifier::external_body]
pub(crate) fn rand_below(bound: u32) -> (r: u32)
    requires
        bound > 0,
    ensures
        r < bound,
{
    rand::thread_rng().gen_range(0..bound)
}

/// The current time formatted as an RFC 1123 date, for the `DATE` header of
/// search responses: 29 printable ASCII characters, so in particular free
/// of CR and LF.
pub fn http_date_now() -> (r: String)
    ensures
        r@.len() == 29,
        printable_ascii(r@),
        exists|t: u64| t < HTTP_DATE_LIMIT_SECS && r@ == http_date_of(t),
{
    let t = now_unix_secs();
    let clamped = if t >= HTTP_DATE_LIMIT_SECS {
        HTTP_DATE_LIMIT_SECS - 1
    } else {
        t
    };
    fmt_http_date(clamped)
}

} // verus!
