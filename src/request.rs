//! The query parameters of one page request.
use vstd::prelude::*;
use crate::json::{all_digits, digits_value};
use crate::time::{Instant, MAX_ABS_SECS};

verus! {

/// `YYYY-MM-DD HH:MM:SS` text of the UTC time `secs` seconds after the
/// epoch.
pub uninterp spec fn utc_text(secs: int) -> Seq<char>;

/// Relies on chrono's `DateTime::from_timestamp`, which returns `Some` for
/// every second count within a few hundred thousand years of the epoch, and
/// `DateTime::format` with a fixed pattern of valid items, whose text
/// depends on the time alone.
#[verifier::external_body]
fn format_utc(secs: i64) -> (r: Option<String>)
    requires
        -MAX_ABS_SECS <= secs <= MAX_ABS_SECS,
    ensures
        r is Some,
        r.unwrap()@ == utc_text(secs as int),
{
    chrono::DateTime::from_timestamp(secs, 0).map(|d| d.format("%Y-%m-%d %H:%M:%S").to_string())
}

/// Relies on the `Display` of `u64` (through `ToString`): the decimal digits
/// of `n`, without sign or leading zeros.
#[verifier::external_body]
fn decimal_text(n: u64) -> (r: String)
    ensures
        r@.len() > 0,
        all_digits(r@),
        digits_value(r@) == n,
        r@.len() > 1 ==> r@[0] != '0',
{
    n.to_string()
}

/// The value of a parameter named `name` among `params`.
pub open spec fn param_is(params: Seq<(String, String)>, k: int, name: Seq<char>, value: Seq<char>) -> bool {
    0 <= k < params.len() && params[k].0@ == name && params[k].1@ == value
}

/// Query parameters of a page request over the time range `start`..`end`:
/// the range as UTC text, the page size in decimal, and the continuation
/// token when there is one.
pub fn query_params(start: Instant, end: Instant, page_size: u64, page_token: Option<String>) -> (r: Vec<
    (String, String),
>)
    requires
        start.wf(),
        end.wf(),
    ensures
        r@.len() == if page_token is Some { 4nat } else { 3nat },
        param_is(r@, 0, "start_time"@, utc_text(start.secs as int)),
        param_is(r@, 1, "end_time"@, utc_text(end.secs as int)),
        r@[2].0@ == "page_size"@,
        all_digits(r@[2].1@) && digits_value(r@[2].1@) == page_size,
        r@[2].1@.len() > 1 ==> r@[2].1@[0] != '0',
        page_token matches Some(t) ==> param_is(r@, 3, "page_token"@, t@),
{
    let mut r: Vec<(String, String)> = Vec::new();
    let s = format_utc(start.secs).unwrap();
    r.push((String::from_str("start_time"), s));
    let e = format_utc(end.secs).unwrap();
    r.push((String::from_str("end_time"), e));
    r.push((String::from_str("page_size"), decimal_text(page_size)));
    if let Some(t) = page_token {
        r.push((String::from_str("page_token"), t));
    }
    r
}

} // verus!
