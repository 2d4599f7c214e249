//! The request line: its target token, percent-decoding, the `/raw/`
//! marker, and the route that follows from them.
use vstd::prelude::*;
use vstd::string::*;
use crate::path::{chars_of, resolution, resolve, texts};

verus! {

/// Whitespace in the sense of Unicode's `White_Space` property.
pub open spec fn is_white(c: char) -> bool {
    ('\t' <= c && c <= '\r') || c == ' ' || c == '\u{85}' || c == '\u{a0}' || c == '\u{1680}'
        || ('\u{2000}' <= c && c <= '\u{200a}') || c == '\u{2028}' || c == '\u{2029}'
        || c == '\u{202f}' || c == '\u{205f}' || c == '\u{3000}'
}

/// The end of the run of whitespace (`ws`) or of other characters (`!ws`)
/// that starts at `i`.
pub open spec fn run_end(s: Seq<char>, i: int, ws: bool) -> int
    decreases s.len() - i,
{
    if 0 <= i < s.len() && is_white(s[i]) == ws {
        run_end(s, i + 1, ws)
    } else {
        i
    }
}

/// The second whitespace-delimited field of `s`, if it has one.
pub open spec fn second_field(s: Seq<char>) -> Option<Seq<char>> {
    let a = run_end(s, 0, true);
    let b = run_end(s, a, false);
    let c = run_end(s, b, true);
    let d = run_end(s, c, false);
    if c < d {
        Some(s.subrange(c, d))
    } else {
        None
    }
}

/// What percent-decoding yields for `s` (invalid UTF-8 replaced lossily).
pub uninterp spec fn percent_decoded(s: Seq<char>) -> Seq<char>;

/// Relies on `url_escape::decode`: the result depends on `s` alone, and a
/// text without `%` comes back unchanged.
#[verifier::external_body]
fn percent_decode(s: &str) -> (r: String)
    ensures
        r@ == percent_decoded(s@),
        !s@.contains('%') ==> r@ == s@,
{
    url_escape::decode(s).into_owned()
}

/// Where a request goes, as far as the request line decides.
pub enum Route {
    /// No target could be read from the request line.
    Malformed,
    /// The target climbs above the served root.
    Forbidden,
    /// The target names `segments` under the root; `raw` when it carried
    /// the `/raw/` marker.
    Lookup { segments: Vec<String>, raw: bool },
}

pub ghost enum RouteView {
    Malformed,
    Forbidden,
    Lookup { segments: Seq<Seq<char>>, raw: bool },
}

impl View for Route {
    type V = RouteView;

    open spec fn view(&self) -> RouteView {
        match self {
            Route::Malformed => RouteView::Malformed,
            Route::Forbidden => RouteView::Forbidden,
            Route::Lookup { segments, raw } => RouteView::Lookup { segments: texts(segments@), raw: *raw },
        }
    }
}

/// Whether the decoded path `p` asks for a file's bytes unrendered.
pub open spec fn has_raw_marker(p: Seq<char>) -> bool {
    p.len() >= 5 && p.subrange(0, 5) == seq!['/', 'r', 'a', 'w', '/']
}

/// The route for the decoded path `p`: the `/raw` marker comes off, and
/// what remains is resolved under the root.
pub open spec fn target_route(p: Seq<char>) -> RouteView {
    let raw = has_raw_marker(p);
    let rest = if raw { p.subrange(4, p.len() as int) } else { p };
    match resolution(rest) {
        None => RouteView::Forbidden,
        Some(segs) => RouteView::Lookup { segments: segs, raw },
    }
}

/// The route for a request line.
pub open spec fn route_of(line: Seq<char>) -> RouteView {
    match second_field(line) {
        None => RouteView::Malformed,
        Some(t) => target_route(percent_decoded(t)),
    }
}

/// Whether `c` is whitespace.
pub fn is_whitespace(c: char) -> (r: bool)
    ensures
        r == is_white(c),
{
    ('\t' <= c && c <= '\r') || c == ' ' || c == '\u{85}' || c == '\u{a0}' || c == '\u{1680}'
        || ('\u{2000}' <= c && c <= '\u{200a}') || c == '\u{2028}' || c == '\u{2029}'
        || c == '\u{202f}' || c == '\u{205f}' || c == '\u{3000}'
}

fn skip_run(cs: &Vec<char>, i: usize, ws: bool) -> (j: usize)
    requires
        i <= cs@.len(),
    ensures
        j == run_end(cs@, i as int, ws),
        i <= j <= cs@.len(),
{
    let mut j = i;
    while j < cs.len() && is_whitespace(cs[j]) == ws
        invariant
            i <= j <= cs@.len(),
            run_end(cs@, j as int, ws) == run_end(cs@, i as int, ws),
        decreases cs@.len() - j,
    {
        j = j + 1;
    }
    j
}

/// The target of a request line: its second whitespace-delimited field.
pub fn request_target(line: &str) -> (r: Option<String>)
    ensures
        match second_field(line@) {
            None => r is None,
            Some(t) => r is Some && r->Some_0@ == t,
        },
{
    let cs = chars_of(line);
    let a = skip_run(&cs, 0, true);
    let b = skip_run(&cs, a, false);
    let c = skip_run(&cs, b, true);
    let d = skip_run(&cs, c, false);
    if c < d {
        Some(String::from_str(line.substring_char(c, d)))
    } else {
        None
    }
}

/// The route for an already decoded target path.
pub fn route_target(path: &str) -> (r: Route)
    ensures
        r@ == target_route(path@),
{
    let cs = chars_of(path);
    let raw = cs.len() >= 5 && cs[0] == '/' && cs[1] == 'r' && cs[2] == 'a' && cs[3] == 'w' && cs[4] == '/';
    proof {
        if path@.len() >= 5 {
            let m = seq!['/', 'r', 'a', 'w', '/'];
            if raw {
                assert(path@.subrange(0, 5) =~= m);
            } else if path@.subrange(0, 5) == m {
                assert(path@[0] == path@.subrange(0, 5)[0]);
                assert(path@[1] == path@.subrange(0, 5)[1]);
                assert(path@[2] == path@.subrange(0, 5)[2]);
                assert(path@[3] == path@.subrange(0, 5)[3]);
                assert(path@[4] == path@.subrange(0, 5)[4]);
            }
        }
    }
    let segs = if raw {
        resolve(path.substring_char(4, cs.len()))
    } else {
        resolve(path)
    };
    match segs {
        None => Route::Forbidden,
        Some(segments) => Route::Lookup { segments, raw },
    }
}

/// The route for a request line: `Malformed` without a target, else the
/// route of the percent-decoded target.
pub fn route(line: &str) -> (r: Route)
    ensures
        r@ == route_of(line@),
{
    match request_target(line) {
        None => Route::Malformed,
        Some(t) => {
            let p = percent_decode(t.as_str());
            route_target(p.as_str())
        },
    }
}

} // verus!
