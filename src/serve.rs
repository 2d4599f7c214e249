//! Choosing and writing the response for a routed request, given what the
//! filesystem holds at the resolved path.
use vstd::prelude::*;
use vstd::string::*;
use crate::listing::{child_views, listing_response, send_directory_listing, Child};
use crate::path::{is_safe_path, slash_joined, texts, within};
use crate::request::{Route, RouteView};
use crate::response::{
    forbidden_response, not_found_response, response_bytes, send_403, send_404, send_500,
    send_response, send_text, server_error_response, text_response,
};

verus! {

/// The content type that the MIME table gives for the file name `name`
/// (`application/octet-stream` where it knows none).
pub uninterp spec fn mime_of(name: Seq<char>) -> Seq<char>;

/// Relies on `mime_guess::from_path(..).first_or_octet_stream()`: the type
/// depends on the name's extension alone.
#[verifier::external_body]
fn guess_mime(name: &str) -> (r: String)
    ensures
        r@ == mime_of(name@),
{
    mime_guess::from_path(name).first_or_octet_stream().essence_str().to_string()
}

/// What the filesystem holds at a resolved path.
pub enum Entry {
    /// Nothing: the path does not canonicalize.
    Missing,
    /// Something whose canonical path is `canonical`.
    Found { canonical: String, kind: Kind },
}

/// The kind of a path that exists.
pub enum Kind {
    /// A directory with these entries; unreadable entries left out.
    Directory(Vec<Child>),
    /// A regular file with these contents, `None` where reading failed.
    File(Option<Vec<u8>>),
    /// Anything else.
    Other,
}

/// The bytes that a read produced, if it succeeded.
pub open spec fn read_view(contents: Option<Vec<u8>>) -> Option<Seq<u8>> {
    match contents {
        None => None,
        Some(v) => Some(v@),
    }
}

/// The last segment, the file's own name.
pub open spec fn file_name(segs: Seq<Seq<char>>) -> Seq<char> {
    if segs.len() == 0 {
        Seq::empty()
    } else {
        segs.last()
    }
}

/// The content type that is shown through the in-page viewer.
pub open spec fn viewer_type() -> Seq<char> {
    "application/pdf"@
}

pub open spec fn viewer_start() -> Seq<char> {
    "<!DOCTYPE html><html><head><meta charset=\"utf-8\"><title>Document</title><script src=\"https://cdnjs.cloudflare.com/ajax/libs/pdf.js/3.11.174/pdf.min.js\"></script></head><body><div id=\"pages\"></div><script>pdfjsLib.GlobalWorkerOptions.workerSrc=\"https://cdnjs.cloudflare.com/ajax/libs/pdf.js/3.11.174/pdf.worker.min.js\";pdfjsLib.getDocument(\""@
}

pub open spec fn viewer_end() -> Seq<char> {
    "\").promise.then(function(pdf){for(let n=1;n<=pdf.numPages;n++){const c=document.createElement(\"canvas\");document.getElementById(\"pages\").appendChild(c);pdf.getPage(n).then(function(page){const v=page.getViewport({scale:1.5});c.width=v.width;c.height=v.height;page.render({canvasContext:c.getContext(\"2d\"),viewport:v});});}});</script></body></html>"@
}

/// The address under which the file `segs` is served unrendered.
pub open spec fn raw_link(segs: Seq<Seq<char>>) -> Seq<char> {
    "/raw"@ + slash_joined(segs)
}

/// The page that shows the document `segs` by fetching its raw bytes.
pub open spec fn viewer_page(segs: Seq<Seq<char>>) -> Seq<char> {
    viewer_start() + raw_link(segs) + viewer_end()
}

/// The response for the file `segs` with bytes `b` and content type `ct`:
/// the viewer page for the viewer's type unless `raw`, else the bytes
/// themselves.
pub open spec fn typed_file_response(segs: Seq<Seq<char>>, b: Seq<u8>, ct: Seq<char>, raw: bool) -> Seq<u8> {
    if !raw && ct == viewer_type() {
        text_response("200 OK"@, "text/html"@, viewer_page(segs))
    } else {
        response_bytes("200 OK"@, ct, true, b)
    }
}

/// The response for the file `segs` with read result `contents`: 404 when
/// the read failed, else the typed response with the content type that
/// the file name gives.
pub open spec fn file_response(segs: Seq<Seq<char>>, contents: Option<Seq<u8>>, raw: bool) -> Seq<u8> {
    match contents {
        None => not_found_response(),
        Some(b) => typed_file_response(segs, b, mime_of(file_name(segs)), raw),
    }
}

/// The response to a request with route `route`, under the canonical root
/// `root`, when the filesystem holds `entry` at the resolved path.
pub open spec fn response_for(root: Seq<char>, route: RouteView, entry: Entry) -> Seq<u8> {
    match route {
        RouteView::Malformed => server_error_response(),
        RouteView::Forbidden => forbidden_response(),
        RouteView::Lookup { segments, raw } => match entry {
            Entry::Missing => not_found_response(),
            Entry::Found { canonical, kind } => if !within(root, canonical@) {
                forbidden_response()
            } else {
                match kind {
                    Kind::Directory(children) => listing_response(segments, child_views(children@)),
                    Kind::File(contents) => file_response(segments, read_view(contents), raw),
                    Kind::Other => not_found_response(),
                }
            },
        },
    }
}

/// The last segment of `segs`, or the empty text.
fn last_segment(segs: &Vec<String>) -> (r: &str)
    ensures
        r@ == file_name(texts(segs@)),
{
    if segs.len() == 0 {
        proof {
            reveal_strlit("");
        }
        ""
    } else {
        segs[segs.len() - 1].as_str()
    }
}

/// `/raw/s1/.../sn` for the segments `segs`.
fn raw_link_text(segs: &Vec<String>) -> (r: String)
    ensures
        r@ == raw_link(texts(segs@)),
{
    let joined = crate::path::join_path("/raw", segs);
    joined
}

/// Writes the bytes `contents` of a file with content type `content_type`.
fn send_raw_content(stream: &mut Vec<u8>, contents: &Vec<u8>, content_type: &str)
    ensures
        final(stream)@ == old(stream)@ + response_bytes("200 OK"@, content_type@, true, contents@),
{
    send_response(stream, "200 OK", content_type, true, contents.as_slice());
}

/// Writes the file `segments` (relative to the served root), whose bytes
/// are `contents` and whose content type is `content_type`: a document of
/// the viewer's type, unless `raw`, as a page that fetches its raw bytes;
/// anything else as its bytes.
pub fn send_typed_file(stream: &mut Vec<u8>, segments: &Vec<String>, contents: &Vec<u8>, content_type: &str, raw: bool)
    ensures
        final(stream)@ == old(stream)@ + typed_file_response(texts(segments@), contents@, content_type@, raw),
{
    if !raw && String::from_str(content_type) == String::from_str("application/pdf") {
        let mut page = String::from_str(
            "<!DOCTYPE html><html><head><meta charset=\"utf-8\"><title>Document</title><script src=\"https://cdnjs.cloudflare.com/ajax/libs/pdf.js/3.11.174/pdf.min.js\"></script></head><body><div id=\"pages\"></div><script>pdfjsLib.GlobalWorkerOptions.workerSrc=\"https://cdnjs.cloudflare.com/ajax/libs/pdf.js/3.11.174/pdf.worker.min.js\";pdfjsLib.getDocument(\"",
        );
        let link = raw_link_text(segments);
        page.append(link.as_str());
        page.append(
            "\").promise.then(function(pdf){for(let n=1;n<=pdf.numPages;n++){const c=document.createElement(\"canvas\");document.getElementById(\"pages\").appendChild(c);pdf.getPage(n).then(function(page){const v=page.getViewport({scale:1.5});c.width=v.width;c.height=v.height;page.render({canvasContext:c.getContext(\"2d\"),viewport:v});});}});</script></body></html>",
        );
        send_text(stream, "200 OK", "text/html", page.as_str());
    } else {
        send_raw_content(stream, contents, content_type);
    }
}

/// Writes the file `segments` (relative to the served root) as a client
/// views it, with the content type that its name gives; 404 when
/// `contents` is `None`.
pub fn send_file(stream: &mut Vec<u8>, segments: &Vec<String>, contents: &Option<Vec<u8>>)
    ensures
        final(stream)@ == old(stream)@ + file_response(texts(segments@), read_view(*contents), false),
{
    match contents {
        None => send_404(stream),
        Some(bytes) => {
            let content_type = guess_mime(last_segment(segments));
            send_typed_file(stream, segments, bytes, content_type.as_str(), false);
        },
    }
}

/// Writes the bytes of the file `segments` unchanged, with the content type
/// that its name gives; 404 when `contents` is `None`.
pub fn send_raw_file(stream: &mut Vec<u8>, segments: &Vec<String>, contents: &Option<Vec<u8>>)
    ensures
        final(stream)@ == old(stream)@ + file_response(texts(segments@), read_view(*contents), true),
{
    match contents {
        None => send_404(stream),
        Some(bytes) => {
            let content_type = guess_mime(last_segment(segments));
            send_typed_file(stream, segments, bytes, content_type.as_str(), true);
        },
    }
}

/// Writes the response to a request with route `route` under the canonical
/// root `root`, where the filesystem holds `entry` at the resolved path:
/// 500 for a malformed request line, 403 for a path that leaves the root
/// (lexically, or once canonical), 404 for one that is missing, else the
/// listing, the file as viewed, or its raw bytes.
pub fn handle_connection(stream: &mut Vec<u8>, root: &str, route: &Route, entry: &Entry)
    ensures
        final(stream)@ == old(stream)@ + response_for(root@, route@, *entry),
{
    match route {
        Route::Malformed => send_500(stream),
        Route::Forbidden => send_403(stream),
        Route::Lookup { segments, raw } => match entry {
            Entry::Missing => send_404(stream),
            Entry::Found { canonical, kind } => {
                if !is_safe_path(root, canonical.as_str()) {
                    send_403(stream);
                } else {
                    match kind {
                        Kind::Directory(children) => send_directory_listing(stream, segments, children),
                        Kind::File(contents) => {
                            if *raw {
                                send_raw_file(stream, segments, contents);
                            } else {
                                send_file(stream, segments, contents);
                            }
                        },
                        Kind::Other => send_404(stream),
                    }
                }
            },
        },
    }
}

} // verus!
