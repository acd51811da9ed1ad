use vstd::prelude::*;
use crate::paths::{path_segments, seg_views, split_path, str_eq};

verus! {

/// Whitespace that may surround an encoding token in a header value.
pub open spec fn is_ws(c: char) -> bool {
    c == ' ' || c == '\t'
}

/// The first index in `[lo, hi)` holding a non-whitespace character, or
/// `hi` if there is none.
pub open spec fn ltrim(s: Seq<char>, lo: int, hi: int) -> int
    decreases hi - lo,
{
    if lo < hi && is_ws(s[lo]) {
        ltrim(s, lo + 1, hi)
    } else {
        lo
    }
}

/// The first index in `[lo, hi)` holding a `;`, or `hi` if there is none:
/// the token of a header element ends where its parameters begin.
pub open spec fn cut_semi(s: Seq<char>, lo: int, hi: int) -> int
    decreases hi - lo,
{
    if lo < hi && s[lo] != ';' {
        cut_semi(s, lo + 1, hi)
    } else {
        lo
    }
}

/// One past the last index in `[lo, hi)` holding a non-whitespace
/// character, or `lo` if there is none.
pub open spec fn rtrim(s: Seq<char>, lo: int, hi: int) -> int
    decreases hi - lo,
{
    if hi > lo && is_ws(s[hi - 1]) {
        rtrim(s, lo, hi - 1)
    } else {
        hi
    }
}

/// Whether the header element occupying `[lo, hi)` of `s` offers the
/// encoding `gzip`: its token — the element stripped of surrounding
/// whitespace and of anything from the first `;` on — is the four
/// characters `gzip`.
pub open spec fn token_is_gzip(s: Seq<char>, lo: int, hi: int) -> bool {
    let a = ltrim(s, lo, hi);
    let c = cut_semi(s, a, hi);
    let b = rtrim(s, a, c);
    &&& b - a == 4
    &&& s[a] == 'g'
    &&& s[a + 1] == 'z'
    &&& s[a + 2] == 'i'
    &&& s[a + 3] == 'p'
}

/// Whether any comma-separated element of `s`, from position `i` on, offers
/// `gzip`; `start` marks where the current element began.
pub open spec fn gzip_from(s: Seq<char>, i: int, start: int) -> bool
    decreases s.len() - i,
{
    if i >= s.len() {
        token_is_gzip(s, start, s.len() as int)
    } else if s[i] == ',' {
        token_is_gzip(s, start, i) || gzip_from(s, i + 1, i + 1)
    } else {
        gzip_from(s, i + 1, start)
    }
}

/// Whether an Accept-Encoding header value offers the encoding `gzip`.
pub open spec fn spec_accepts_gzip(h: Seq<char>) -> bool {
    gzip_from(h, 0, 0)
}

fn ltrim_exec(s: &str, lo: usize, hi: usize) -> (r: usize)
    requires
        lo <= hi <= s@.len(),
    ensures
        r == ltrim(s@, lo as int, hi as int),
        lo <= r <= hi,
    decreases hi - lo,
{
    if lo < hi {
        let c = s.get_char(lo);
        if c == ' ' || c == '\t' {
            return ltrim_exec(s, lo + 1, hi);
        }
    }
    lo
}

fn cut_semi_exec(s: &str, lo: usize, hi: usize) -> (r: usize)
    requires
        lo <= hi <= s@.len(),
    ensures
        r == cut_semi(s@, lo as int, hi as int),
        lo <= r <= hi,
    decreases hi - lo,
{
    if lo < hi && s.get_char(lo) != ';' {
        cut_semi_exec(s, lo + 1, hi)
    } else {
        lo
    }
}

fn rtrim_exec(s: &str, lo: usize, hi: usize) -> (r: usize)
    requires
        lo <= hi <= s@.len(),
    ensures
        r == rtrim(s@, lo as int, hi as int),
        lo <= r <= hi,
    decreases hi - lo,
{
    if hi > lo {
        let c = s.get_char(hi - 1);
        if c == ' ' || c == '\t' {
            return rtrim_exec(s, lo, hi - 1);
        }
    }
    hi
}

fn token_is_gzip_exec(s: &str, lo: usize, hi: usize) -> (r: bool)
    requires
        lo <= hi <= s@.len(),
    ensures
        r == token_is_gzip(s@, lo as int, hi as int),
{
    let a = ltrim_exec(s, lo, hi);
    let c = cut_semi_exec(s, a, hi);
    let b = rtrim_exec(s, a, c);
    if b - a != 4 {
        return false;
    }
    s.get_char(a) == 'g' && s.get_char(a + 1) == 'z' && s.get_char(a + 2) == 'i' && s.get_char(
        a + 3,
    ) == 'p'
}

fn gzip_from_exec(s: &str, i: usize, start: usize) -> (r: bool)
    requires
        start <= i <= s@.len(),
    ensures
        r == gzip_from(s@, i as int, start as int),
    decreases s@.len() - i,
{
    let n = s.unicode_len();
    if i >= n {
        token_is_gzip_exec(s, start, n)
    } else if s.get_char(i) == ',' {
        if token_is_gzip_exec(s, start, i) {
            true
        } else {
            gzip_from_exec(s, i + 1, i + 1)
        }
    } else {
        gzip_from_exec(s, i + 1, start)
    }
}

/// Whether an Accept-Encoding header value offers `gzip`, as
/// `spec_accepts_gzip` describes: any comma-separated element whose token —
/// whitespace-trimmed, parameters after `;` ignored — equals `gzip`.
pub fn accepts_gzip(h: &str) -> (r: bool)
    ensures
        r == spec_accepts_gzip(h@),
{
    gzip_from_exec(h, 0, 0)
}

/// What the request-accepting layer is to do for a request, decided from
/// the method and headers alone: reject a non-GET outright, or fetch the
/// file the path's segments name, compressed only if the client asked.
pub enum RequestPlan {
    NotAllowed,
    Fetch { segments: Vec<String>, gzip: bool },
}

/// Decides the plan for one request.  A method other than GET is rejected
/// whatever the path holds; a GET is turned into the path's segments plus
/// gzip eligibility read off the Accept-Encoding header.
pub fn plan_request(method: &str, path: &str, accept_encoding: Option<&str>) -> (r: RequestPlan)
    ensures
        (r is NotAllowed) <==> method@ != "GET"@,
        r matches RequestPlan::Fetch { segments, gzip } ==> {
            &&& seg_views(segments@) == path_segments(path@)
            &&& gzip == match accept_encoding {
                Some(h) => spec_accepts_gzip(h@),
                None => false,
            }
        },
{
    if !str_eq(method, "GET") {
        return RequestPlan::NotAllowed;
    }
    let gz = match accept_encoding {
        Some(h) => accepts_gzip(h),
        None => false,
    };
    RequestPlan::Fetch { segments: split_path(path), gzip: gz }
}

/// The whole microseconds elapsed between two monotonic nanosecond
/// readings, as a request log line reports them.
pub fn elapsed_micros(start_ns: u64, now_ns: u64) -> (r: u64)
    requires
        start_ns <= now_ns,
    ensures
        r == (now_ns - start_ns) / 1000,
{
    (now_ns - start_ns) / 1000
}

} // verus!
