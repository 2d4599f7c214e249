//! HTTP/1.1 response framing: a status line, headers whose
//! `Content-Length` always equals the body's byte count, a blank line and
//! the body.
use vstd::prelude::*;
use vstd::string::*;
use vstd::utf8::encode_utf8;

verus! {

/// The decimal digit for `d` (below ten).
pub open spec fn digit(d: nat) -> char {
    "0123456789"@[d as int]
}

/// The decimal notation of `n`, without leading zeros.
pub open spec fn decimal(n: nat) -> Seq<char>
    decreases n,
{
    if n < 10 {
        seq![digit(n)]
    } else {
        decimal(n / 10).push(digit(n % 10))
    }
}

/// The headers that file responses carry beyond type and length.
pub open spec fn file_headers() -> Seq<char> {
    "Content-Disposition: inline\r\nX-Content-Type-Options: nosniff\r\n"@
}

/// The text before the body: status line, headers and the blank line.
pub open spec fn head_text(status: Seq<char>, content_type: Seq<char>, file: bool, len: nat) -> Seq<char> {
    "HTTP/1.1 "@ + status + "\r\nContent-Type: "@ + content_type + "\r\nContent-Length: "@
        + decimal(len) + "\r\n"@ + (if file { file_headers() } else { Seq::empty() }) + "\r\n"@
}

/// The bytes of a whole response.
pub open spec fn response_bytes(status: Seq<char>, content_type: Seq<char>, file: bool, body: Seq<u8>) -> Seq<u8> {
    encode_utf8(head_text(status, content_type, file, body.len())) + body
}

/// A response whose body is the text `body`.
pub open spec fn text_response(status: Seq<char>, content_type: Seq<char>, body: Seq<char>) -> Seq<u8> {
    response_bytes(status, content_type, false, encode_utf8(body))
}

pub open spec fn not_found_response() -> Seq<u8> {
    text_response("404 Not Found"@, "text/plain"@, "404 Not Found"@)
}

pub open spec fn forbidden_response() -> Seq<u8> {
    text_response("403 Forbidden"@, "text/plain"@, "403 Forbidden"@)
}

pub open spec fn server_error_response() -> Seq<u8> {
    text_response("500 Internal Server Error"@, "text/plain"@, "500 Internal Server Error"@)
}

/// The decimal notation of `n`.
pub fn decimal_text(n: usize) -> (r: String)
    ensures
        r@ == decimal(n as nat),
    decreases n,
{
    let digits = "0123456789";
    proof {
        reveal_strlit("0123456789");
    }
    let d = n % 10;
    let last = digits.substring_char(d, d + 1);
    assert(last@ =~= seq![digit(d as nat)]);
    if n < 10 {
        String::from_str(last)
    } else {
        let mut s = decimal_text(n / 10);
        s.append(last);
        s
    }
}

/// Appends the bytes of `s` to `out`.
pub fn push_text(out: &mut Vec<u8>, s: &str)
    ensures
        final(out)@ == old(out)@ + encode_utf8(s@),
{
    let b = s.as_bytes();
    push_bytes(out, b);
}

/// Appends `b` to `out`.
pub fn push_bytes(out: &mut Vec<u8>, b: &[u8])
    ensures
        final(out)@ == old(out)@ + b@,
{
    let ghost start = out@;
    let mut i: usize = 0;
    while i < b.len()
        invariant
            i <= b@.len(),
            out@ == start + b@.subrange(0, i as int),
        decreases b@.len() - i,
    {
        out.push(b[i]);
        i = i + 1;
        assert(out@ =~= start + b@.subrange(0, i as int));
    }
    assert(b@.subrange(0, i as int) =~= b@);
}

/// Writes a complete response: status line, `Content-Type`,
/// `Content-Length` (the byte count of `body`), the file headers when
/// `file` holds, a blank line, then `body`.
pub fn send_response(stream: &mut Vec<u8>, status: &str, content_type: &str, file: bool, body: &[u8])
    ensures
        final(stream)@ == old(stream)@ + response_bytes(status@, content_type@, file, body@),
{
    let mut head = String::from_str("HTTP/1.1 ");
    head.append(status);
    head.append("\r\nContent-Type: ");
    head.append(content_type);
    head.append("\r\nContent-Length: ");
    let len = decimal_text(body.len());
    head.append(len.as_str());
    head.append("\r\n");
    if file {
        head.append("Content-Disposition: inline\r\nX-Content-Type-Options: nosniff\r\n");
    }
    head.append("\r\n");
    assert(head@ =~= head_text(status@, content_type@, file, body@.len()));
    push_text(stream, head.as_str());
    push_bytes(stream, body);
    assert(final(stream)@ =~= old(stream)@ + response_bytes(status@, content_type@, file, body@));
}

/// Writes a response whose body is the text `body`.
pub fn send_text(stream: &mut Vec<u8>, status: &str, content_type: &str, body: &str)
    ensures
        final(stream)@ == old(stream)@ + text_response(status@, content_type@, body@),
{
    send_response(stream, status, content_type, false, body.as_bytes());
}

/// Writes the response for a path that does not exist or cannot be read.
pub fn send_404(stream: &mut Vec<u8>)
    ensures
        final(stream)@ == old(stream)@ + not_found_response(),
{
    send_text(stream, "404 Not Found", "text/plain", "404 Not Found");
}

/// Writes the response for a path that lies outside the served root.
pub fn send_403(stream: &mut Vec<u8>)
    ensures
        final(stream)@ == old(stream)@ + forbidden_response(),
{
    send_text(stream, "403 Forbidden", "text/plain", "403 Forbidden");
}

/// Writes the response for a request line that could not be read or parsed.
pub fn send_500(stream: &mut Vec<u8>)
    ensures
        final(stream)@ == old(stream)@ + server_error_response(),
{
    send_text(stream, "500 Internal Server Error", "text/plain", "500 Internal Server Error");
}

} // verus!
