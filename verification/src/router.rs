//! The request router: parses the method and path, validates the id, looks
//! the id up in the cache, and builds exactly one of four terminal
//! responses (Success, BadRequest, NotFound, Busy).
//!
//! Methods and paths are handled as their raw bytes; the spec functions
//! here pin down, byte for byte, which response every request receives.

use vstd::prelude::*;
use vstd::string::StringSliceAdditionalSpecFns;

use crate::cache::Cache;

verus! {

/// Whether a byte is an ASCII decimal digit, '0' through '9'.
pub open spec fn is_digit(b: u8) -> bool {
    48 <= b && b <= 57
}

/// Whether every byte of `s` is an ASCII decimal digit.
pub open spec fn all_digits(s: Seq<u8>) -> bool {
    forall|j: int| 0 <= j < s.len() ==> is_digit(#[trigger] s[j])
}

/// The numeric value of a sequence of ASCII digits, most significant first.
pub open spec fn digits_val(s: Seq<u8>) -> nat
    decreases s.len(),
{
    if s.len() == 0 {
        0
    } else {
        digits_val(s.drop_last()) * 10 + ((s.last() - 48) as nat)
    }
}

/// The value of a non-empty, all-digit byte string, when it fits in 32
/// unsigned bits; `None` otherwise.
pub open spec fn digits_to_u32(s: Seq<u8>) -> Option<u32> {
    if s.len() > 0 && all_digits(s) && digits_val(s) <= u32::MAX {
        Some(digits_val(s) as u32)
    } else {
        None
    }
}

/// What parsing a byte string as an unsigned 32-bit decimal integer yields:
/// an optional leading '+', then one or more digits whose value fits.
pub open spec fn u32_of_decimal(s: Seq<u8>) -> Option<u32> {
    if s.len() > 0 && s[0] == 43 {  // '+'
        digits_to_u32(s.skip(1))
    } else {
        digits_to_u32(s)
    }
}

/// Extending an all-digit prefix by further digits never shrinks its value.
proof fn lemma_digits_val_prefix_le(s: Seq<u8>, n: int)
    requires
        0 <= n <= s.len(),
        all_digits(s),
    ensures
        digits_val(s.take(n)) <= digits_val(s),
    decreases s.len() - n,
{
    if n < s.len() {
        assert(s.take(n + 1).drop_last() =~= s.take(n));
        assert(s.take(n + 1).last() == s[n]);
        assert(digits_val(s.take(n + 1)) == digits_val(s.take(n)) * 10 + ((s[n] - 48) as nat));
        lemma_digits_val_prefix_le(s, n + 1);
        assert(s.take(s.len() as int) =~= s);
    } else {
        assert(s.take(n) =~= s);
    }
}

/// Parses a non-empty, all-digit byte string into its 32-bit value, and
/// rejects anything else: an empty string, a non-digit byte, or a value
/// over `u32::MAX`.
fn parse_digits(s: &[u8]) -> (r: Option<u32>)
    ensures
        r == digits_to_u32(s@),
{
    if s.len() == 0 {
        return None;
    }
    let mut val: u64 = 0;
    let mut i: usize = 0;
    while i < s.len()
        invariant
            i <= s@.len(),
            forall|j: int| 0 <= j < i ==> is_digit(#[trigger] s@[j]),
            val == digits_val(s@.take(i as int)),
            val <= u32::MAX as u64,
        decreases s@.len() - i,
    {
        let b = s[i];
        if b < 48 || b > 57 {
            assert(!all_digits(s@));
            return None;
        }
        let d: u64 = (b - 48) as u64;
        let next: u64 = val * 10 + d;
        proof {
            assert(s@.take(i + 1).drop_last() =~= s@.take(i as int));
            assert(s@.take(i + 1).last() == s@[i as int]);
            assert(digits_val(s@.take(i + 1)) == digits_val(s@.take(i as int)) * 10 + ((b
                - 48) as nat));
        }
        if next > u32::MAX as u64 {
            proof {
                if all_digits(s@) {
                    lemma_digits_val_prefix_le(s@, i + 1);
                }
            }
            return None;
        }
        val = next;
        i = i + 1;
    }
    proof {
        assert(s@.take(s@.len() as int) =~= s@);
    }
    Some(val as u32)
}

/// Parses a byte string as `str::parse::<u32>` reads a decimal: an optional
/// leading '+', then one or more ASCII digits whose value fits in 32 bits.
pub fn parse_u32(s: &[u8]) -> (r: Option<u32>)
    ensures
        r == u32_of_decimal(s@),
{
    if s.len() > 0 && s[0] == 43 {
        let rest = vstd::slice::slice_subrange(s, 1, s.len());
        proof {
            assert(rest@ =~= s@.skip(1));
        }
        parse_digits(rest)
    } else {
        parse_digits(s)
    }
}

/// The canonical decimal rendering of a number, most significant digit
/// first and without a sign or leading zeros.
pub open spec fn decimal_of(n: nat) -> Seq<u8>
    decreases n,
{
    if n < 10 {
        seq![(48 + n) as u8]
    } else {
        decimal_of(n / 10).push((48 + n % 10) as u8)
    }
}

/// The canonical rendering is a non-empty digit string with the rendered
/// value.
pub proof fn lemma_decimal_of_digits(n: nat)
    ensures
        decimal_of(n).len() > 0,
        all_digits(decimal_of(n)),
        digits_val(decimal_of(n)) == n,
    decreases n,
{
    if n < 10 {
        let s = decimal_of(n);
        assert(s.drop_last() =~= Seq::<u8>::empty());
        assert(digits_val(Seq::<u8>::empty()) == 0);
        assert(digits_val(s) == ((s.last() - 48) as nat));
    } else {
        lemma_decimal_of_digits(n / 10);
        let prev = decimal_of(n / 10);
        let d = (48 + n % 10) as u8;
        let s = prev.push(d);
        assert(s.drop_last() =~= prev);
        assert(s.last() == d);
        assert(digits_val(s) == digits_val(prev) * 10 + ((d - 48) as nat));
        vstd::arithmetic::div_mod::lemma_fundamental_div_mod(n as int, 10);
        assert(digits_val(s) == n);
        assert forall|j: int| 0 <= j < s.len() implies is_digit(#[trigger] s[j]) by {
            if j < prev.len() {
                assert(s[j] == prev[j]);
            } else {
                assert(s[j] == d);
            }
        }
    }
}

/// Parsing inverts the canonical rendering: the decimal segment of every
/// 32-bit id names exactly that id.
pub proof fn lemma_decimal_round_trip(id: u32)
    ensures
        u32_of_decimal(decimal_of(id as nat)) == Some(id),
{
    lemma_decimal_of_digits(id as nat);
    let s = decimal_of(id as nat);
    assert(is_digit(s[0]));
}

/// The bytes of the method "GET".
pub open spec fn get_method() -> Seq<u8> {
    seq![71u8, 69u8, 84u8]
}

/// The bytes of the route prefix "/user/".
pub open spec fn user_prefix() -> Seq<u8> {
    seq![47u8, 117u8, 115u8, 101u8, 114u8, 47u8]
}

/// Whether `rest` is one single path segment: it contains no further '/'.
pub open spec fn single_segment(rest: Seq<u8>) -> bool {
    forall|j: int| 0 <= j < rest.len() ==> rest[j] != 47
}

/// The id segment of a request: `Some(segment)` when the method is GET and
/// the path is exactly "/user/" followed by one slash-free segment, and
/// `None` for every unmatched route — a wrong method, a missing prefix, or
/// anything after a further '/'.
pub open spec fn route_segment(method: Seq<u8>, path: Seq<u8>) -> Option<Seq<u8>> {
    if method == get_method() && path.len() >= 6 && path.take(6) == user_prefix()
        && single_segment(path.skip(6)) {
        Some(path.skip(6))
    } else {
        None
    }
}

/// The canonical request path for an id: "/user/" followed by the id's
/// decimal rendering.
pub open spec fn user_path(id: u32) -> Seq<u8> {
    user_prefix() + decimal_of(id as nat)
}

/// A GET of the canonical path for an id routes to exactly that id's
/// decimal segment.
pub proof fn lemma_user_path_routes(id: u32)
    ensures
        route_segment(get_method(), user_path(id)) == Some(decimal_of(id as nat)),
{
    let path = user_path(id);
    let dec = decimal_of(id as nat);
    lemma_decimal_of_digits(id as nat);
    assert(path.take(6) =~= user_prefix());
    assert(path.skip(6) =~= dec);
    assert forall|j: int| 0 <= j < dec.len() implies dec[j] != 47 by {
        assert(is_digit(dec[j]));
    }
}

/// The four terminal states a request can reach.
pub enum RequestOutcome {
    /// No admission permit was free: the request is answered 503 at once.
    Busy,
    /// The route is unmatched or the id is absent from the cache: 404.
    NotFound,
    /// The id segment is not an unsigned 32-bit decimal integer: 400.
    BadRequest,
    /// The id is cached: 200 with the stored bytes as body.
    Success(u32),
}

/// The terminal state of one request, as a function of the admission
/// decision, the raw method and path bytes, and the cache contents.
pub open spec fn request_outcome(
    admitted: bool,
    method: Seq<u8>,
    path: Seq<u8>,
    cache: Map<u32, Seq<u8>>,
) -> RequestOutcome {
    if !admitted {
        RequestOutcome::Busy
    } else {
        match route_segment(method, path) {
            Option::None => RequestOutcome::NotFound,
            Option::Some(seg) => match u32_of_decimal(seg) {
                Option::None => RequestOutcome::BadRequest,
                Option::Some(id) => if cache.contains_key(id) {
                    RequestOutcome::Success(id)
                } else {
                    RequestOutcome::NotFound
                },
            },
        }
    }
}

/// The HTTP status each terminal state answers with.
pub open spec fn status_of(o: RequestOutcome) -> u16 {
    match o {
        RequestOutcome::Busy => 503,
        RequestOutcome::NotFound => 404,
        RequestOutcome::BadRequest => 400,
        RequestOutcome::Success(_) => 200,
    }
}

/// The body of the 503 response.
pub open spec fn busy_body() -> Seq<u8> {
    "{\"error\":\"Server busy\"}".spec_bytes()
}

/// The body of the 404 response.
pub open spec fn not_found_body() -> Seq<u8> {
    "{\"error\":\"User not found\"}".spec_bytes()
}

/// The body of the 400 response.
pub open spec fn bad_request_body() -> Seq<u8> {
    "{\"error\":\"Invalid user ID\"}".spec_bytes()
}

/// The exact response body of each terminal state: the stored bytes on
/// success, and the fixed JSON error otherwise.
pub open spec fn body_of(o: RequestOutcome, cache: Map<u32, Seq<u8>>) -> Seq<u8> {
    match o {
        RequestOutcome::Busy => busy_body(),
        RequestOutcome::NotFound => not_found_body(),
        RequestOutcome::BadRequest => bad_request_body(),
        RequestOutcome::Success(id) => cache[id],
    }
}

/// A terminal response: status, the two headers the service sets, and the
/// body bytes.
pub struct HttpResponse {
    pub status: u16,
    pub content_type: String,
    pub cache_control: Option<String>,
    pub body: Vec<u8>,
}

/// The headers every response carries: JSON content, and the public
/// one-hour cache directive exactly on a success.
pub open spec fn headers_set(r: HttpResponse, cacheable: bool) -> bool {
    &&& r.content_type@ == "application/json"@
    &&& (match r.cache_control {
        Option::Some(cc) => cacheable && cc@ == "public, max-age=3600"@,
        Option::None => !cacheable,
    })
}

/// What the router owes for one request: the status, body and headers of
/// the terminal state that the admission decision, method, path and cache
/// contents determine.
pub open spec fn response_matches(
    r: HttpResponse,
    admitted: bool,
    method: Seq<u8>,
    path: Seq<u8>,
    cache: Map<u32, Seq<u8>>,
) -> bool {
    let o = request_outcome(admitted, method, path, cache);
    &&& r.status == status_of(o)
    &&& r.body@ == body_of(o, cache)
    &&& headers_set(r, status_of(o) == 200)
}

/// The 404 response: unmatched route or id absent from the cache.
pub fn not_found() -> (r: HttpResponse)
    ensures
        r.status == 404,
        r.body@ == not_found_body(),
        headers_set(r, false),
{
    HttpResponse {
        status: 404,
        content_type: "application/json".to_owned(),
        cache_control: None,
        body: vstd::slice::slice_to_vec("{\"error\":\"User not found\"}".as_bytes()),
    }
}

/// The 400 response: the id segment is not an unsigned 32-bit integer.
pub fn bad_request() -> (r: HttpResponse)
    ensures
        r.status == 400,
        r.body@ == bad_request_body(),
        headers_set(r, false),
{
    HttpResponse {
        status: 400,
        content_type: "application/json".to_owned(),
        cache_control: None,
        body: vstd::slice::slice_to_vec("{\"error\":\"Invalid user ID\"}".as_bytes()),
    }
}

/// The 503 response: no admission permit was free.
pub fn service_unavailable() -> (r: HttpResponse)
    ensures
        r.status == 503,
        r.body@ == busy_body(),
        headers_set(r, false),
{
    HttpResponse {
        status: 503,
        content_type: "application/json".to_owned(),
        cache_control: None,
        body: vstd::slice::slice_to_vec("{\"error\":\"Server busy\"}".as_bytes()),
    }
}

/// The 200 response: the stored bytes, verbatim, marked publicly cacheable
/// for an hour.
fn success(payload: &Vec<u8>) -> (r: HttpResponse)
    ensures
        r.status == 200,
        r.body@ == payload@,
        headers_set(r, true),
{
    HttpResponse {
        status: 200,
        content_type: "application/json".to_owned(),
        cache_control: Some("public, max-age=3600".to_owned()),
        body: vstd::slice::slice_to_vec(payload.as_slice()),
    }
}

/// Whether the method bytes spell "GET".
fn is_get(method: &[u8]) -> (r: bool)
    ensures
        r == (method@ == get_method()),
{
    if method.len() == 3 && method[0] == 71 && method[1] == 69 && method[2] == 84 {
        proof {
            assert(method@ =~= get_method());
        }
        true
    } else {
        false
    }
}

/// Whether the path bytes begin with "/user/".
fn has_user_prefix(path: &[u8]) -> (r: bool)
    ensures
        r == (path@.len() >= 6 && path@.take(6) == user_prefix()),
{
    if path.len() >= 6 && path[0] == 47 && path[1] == 117 && path[2] == 115 && path[3] == 101
        && path[4] == 114 && path[5] == 47 {
        proof {
            assert(path@.take(6) =~= user_prefix());
        }
        true
    } else {
        proof {
            if path@.len() >= 6 && path@.take(6) == user_prefix() {
                assert(path@[0] == path@.take(6)[0]);
                assert(path@[1] == path@.take(6)[1]);
                assert(path@[2] == path@.take(6)[2]);
                assert(path@[3] == path@.take(6)[3]);
                assert(path@[4] == path@.take(6)[4]);
                assert(path@[5] == path@.take(6)[5]);
            }
        }
        false
    }
}

/// Serves one request, terminal in exactly one of four states: Busy when no
/// permit was granted, NotFound for an unmatched route or an id the cache
/// lacks, BadRequest for an id segment that is no unsigned 32-bit decimal,
/// and Success, with the cached bytes verbatim, for an id the cache holds.
pub fn router(admitted: bool, method: &[u8], path: &[u8], cache: &Cache) -> (r: HttpResponse)
    ensures
        response_matches(r, admitted, method@, path@, cache@),
{
    if !admitted {
        return service_unavailable();
    }
    if !is_get(method) {
        return not_found();
    }
    if !has_user_prefix(path) {
        return not_found();
    }
    let ghost rest = path@.skip(6);
    let mut i: usize = 6;
    while i < path.len()
        invariant
            admitted,
            6 <= i <= path@.len(),
            rest == path@.skip(6),
            forall|j: int| 6 <= j < i ==> path@[j] != 47,
        decreases path@.len() - i,
    {
        if path[i] == 47 {
            proof {
                assert(rest.len() == path@.len() - 6);
                assert(rest[i - 6] == path@[i as int]);
                assert(!single_segment(rest));
            }
            return not_found();
        }
        i = i + 1;
    }
    proof {
        assert forall|j: int| 0 <= j < rest.len() implies rest[j] != 47 by {
            assert(rest[j] == path@[j + 6]);
        }
        assert(rest =~= path@.subrange(6, path@.len() as int));
    }
    let seg = vstd::slice::slice_subrange(path, 6, path.len());
    match parse_u32(seg) {
        Option::None => bad_request(),
        Option::Some(id) => match cache.get(id) {
            Option::Some(payload) => success(payload),
            Option::None => not_found(),
        },
    }
}

} // verus!
