use file_server::listing::{name_le_exec, send_directory_listing, sort_children, Child};
use file_server::path::{is_safe_path, join_path, resolve};
use file_server::request::{request_target, route, route_target, Route};
use file_server::response::{decimal_text, send_403, send_404, send_500};
use file_server::serve::{handle_connection, send_file, send_raw_file, send_typed_file, Entry, Kind};

fn respond(root: &str, line: &str, entry: &Entry) -> Vec<u8> {
    let r = route(line);
    let mut out = Vec::new();
    handle_connection(&mut out, root, &r, entry);
    out
}

fn file(canonical: &str, bytes: &[u8]) -> Entry {
    Entry::Found { canonical: canonical.to_string(), kind: Kind::File(Some(bytes.to_vec())) }
}

fn text(b: &[u8]) -> String {
    String::from_utf8(b.to_vec()).unwrap()
}

fn segs(v: &[&str]) -> Vec<String> {
    v.iter().map(|s| s.to_string()).collect()
}

fn lookup(r: &Route) -> (Vec<String>, bool) {
    match r {
        Route::Lookup { segments, raw } => (segments.clone(), *raw),
        _ => panic!("expected a lookup"),
    }
}

const NOT_FOUND: &str = "HTTP/1.1 404 Not Found\r\nContent-Type: text/plain\r\nContent-Length: 13\r\n\r\n404 Not Found";
const FORBIDDEN: &str = "HTTP/1.1 403 Forbidden\r\nContent-Type: text/plain\r\nContent-Length: 13\r\n\r\n403 Forbidden";

#[test]
fn text_file_is_served_with_its_type() {
    let out = respond("/srv", "GET /a.txt HTTP/1.1", &file("/srv/a.txt", b"hello"));
    assert_eq!(
        text(&out),
        "HTTP/1.1 200 OK\r\nContent-Type: text/plain\r\nContent-Length: 5\r\nContent-Disposition: inline\r\nX-Content-Type-Options: nosniff\r\n\r\nhello"
    );
}

#[test]
fn climbing_above_the_root_is_forbidden() {
    let r = route("GET /../etc/passwd HTTP/1.1");
    assert!(matches!(r, Route::Forbidden));
    let out = respond("/srv", "GET /../etc/passwd HTTP/1.1", &file("/etc/passwd", b"root:x:0:0"));
    assert_eq!(text(&out), FORBIDDEN);
}

#[test]
fn symlink_leaving_the_root_is_forbidden() {
    let out = respond("/srv", "GET /link HTTP/1.1", &file("/etc/passwd", b"root:x:0:0"));
    assert_eq!(text(&out), FORBIDDEN);
    let out = respond("/srv", "GET /x HTTP/1.1", &file("/srvx/x", b"x"));
    assert_eq!(text(&out), FORBIDDEN);
}

#[test]
fn missing_file_is_not_found() {
    let out = respond("/srv", "GET /missing.txt HTTP/1.1", &Entry::Missing);
    assert_eq!(text(&out), NOT_FOUND);
    assert!(text(&out).ends_with("404 Not Found"));
}

#[test]
fn unreadable_file_and_other_kinds_are_not_found() {
    let unreadable = Entry::Found { canonical: "/srv/f".to_string(), kind: Kind::File(None) };
    assert_eq!(text(&respond("/srv", "GET /f HTTP/1.1", &unreadable)), NOT_FOUND);
    let other = Entry::Found { canonical: "/srv/p".to_string(), kind: Kind::Other };
    assert_eq!(text(&respond("/srv", "GET /p HTTP/1.1", &other)), NOT_FOUND);
}

#[test]
fn malformed_request_line_is_a_server_error() {
    let expected = "HTTP/1.1 500 Internal Server Error\r\nContent-Type: text/plain\r\nContent-Length: 25\r\n\r\n500 Internal Server Error";
    assert_eq!(text(&respond("/srv", "GET", &Entry::Missing)), expected);
    assert_eq!(text(&respond("/srv", "   ", &Entry::Missing)), expected);
    assert_eq!(text(&respond("/srv", "", &Entry::Missing)), expected);
}

#[test]
fn directory_listing_has_links_and_parent() {
    let entry = Entry::Found {
        canonical: "/srv/docs".to_string(),
        kind: Kind::Directory(vec![Child { name: "x.txt".to_string(), is_dir: false }]),
    };
    let page = text(&respond("/srv", "GET /docs HTTP/1.1", &entry));
    assert!(page.starts_with("HTTP/1.1 200 OK\r\nContent-Type: text/html\r\n"));
    assert!(page.contains("href=\"/docs/x.txt\""));
    assert!(page.contains("<p><a href=\"/\">&larr; Go back up a directory</a></p>"));
    assert!(page.contains("<h1>Directory: /docs/</h1>"));
}

#[test]
fn listing_has_one_item_per_child() {
    let children = vec![
        Child { name: "a.txt".to_string(), is_dir: false },
        Child { name: "sub".to_string(), is_dir: true },
        Child { name: "z".to_string(), is_dir: false },
    ];
    let mut out = Vec::new();
    send_directory_listing(&mut out, &segs(&["docs", "deep"]), &children);
    let page = text(&out);
    assert_eq!(page.matches("<li>").count(), 3);
    assert!(page.contains("<li><a href=\"/docs/deep/sub/\">sub/</a></li>"));
    assert!(page.contains("<li><a href=\"/docs/deep/a.txt\">a.txt</a></li>"));
    assert!(page.contains("<a href=\"/docs/\">&larr;"));
    let body_len = page.split("\r\n\r\n").nth(1).unwrap().len();
    assert!(page.contains(&format!("Content-Length: {}\r\n", body_len)));
}

#[test]
fn root_listing_has_no_parent_link() {
    let mut out = Vec::new();
    send_directory_listing(&mut out, &Vec::new(), &Vec::new());
    let page = text(&out);
    assert!(!page.contains("Go back up"));
    assert_eq!(page.matches("<li>").count(), 0);
    assert!(page.contains("<h1>Directory: /</h1><ul></ul>"));
}

#[test]
fn raw_request_returns_the_exact_bytes() {
    let bytes: Vec<u8> = vec![0, 255, 10, 13, 7, 200];
    let out = respond("/srv", "GET /raw/blob.bin HTTP/1.1", &file("/srv/blob.bin", &bytes));
    let head = b"HTTP/1.1 200 OK\r\nContent-Type: application/octet-stream\r\nContent-Length: 6\r\nContent-Disposition: inline\r\nX-Content-Type-Options: nosniff\r\n\r\n";
    assert_eq!(&out[..head.len()], &head[..]);
    assert_eq!(&out[head.len()..], &bytes[..]);
}

#[test]
fn raw_marker_is_taken_off_the_path() {
    let (s, raw) = lookup(&route("GET /raw/docs/a.pdf HTTP/1.1"));
    assert_eq!(s, segs(&["docs", "a.pdf"]));
    assert!(raw);
    let (s, raw) = lookup(&route("GET /rawfile HTTP/1.1"));
    assert_eq!(s, segs(&["rawfile"]));
    assert!(!raw);
}

#[test]
fn document_is_wrapped_in_a_viewer_page() {
    let out = respond("/srv", "GET /report.pdf HTTP/1.1", &file("/srv/report.pdf", b"%PDF-1.4"));
    let page = text(&out);
    assert!(page.starts_with("HTTP/1.1 200 OK\r\nContent-Type: text/html\r\n"));
    assert!(page.contains("/raw/report.pdf"));
    assert!(!page.contains("%PDF-1.4"));
    let raw = respond("/srv", "GET /raw/report.pdf HTTP/1.1", &file("/srv/report.pdf", b"%PDF-1.4"));
    let raw = text(&raw);
    assert!(raw.contains("Content-Type: application/pdf\r\n"));
    assert!(raw.ends_with("\r\n\r\n%PDF-1.4"));
}

#[test]
fn identical_requests_give_identical_bytes() {
    let entry = file("/srv/a.txt", b"hello");
    let first = respond("/srv", "GET /a.txt HTTP/1.1", &entry);
    let second = respond("/srv", "GET /a.txt HTTP/1.1", &entry);
    assert_eq!(first, second);
}

#[test]
fn percent_escapes_are_decoded() {
    let (s, _) = lookup(&route("GET /my%20file.txt HTTP/1.1"));
    assert_eq!(s, segs(&["my file.txt"]));
    assert!(matches!(route("GET /%2e%2e/etc HTTP/1.1"), Route::Forbidden));
}

#[test]
fn resolution_handles_dots_and_empty_segments() {
    assert_eq!(resolve("/a/./b//c/../d").unwrap(), segs(&["a", "b", "d"]));
    assert_eq!(resolve("a/b").unwrap(), segs(&["a", "b"]));
    assert_eq!(resolve("/").unwrap(), segs(&[]));
    assert_eq!(resolve("/a/..").unwrap(), segs(&[]));
    assert!(resolve("/a/../..").is_none());
    assert!(resolve("..").is_none());
    assert_eq!(resolve("/...").unwrap(), segs(&["..."]));
}

#[test]
fn safe_path_compares_whole_components() {
    assert!(is_safe_path("/srv", "/srv"));
    assert!(is_safe_path("/srv", "/srv/a/b"));
    assert!(!is_safe_path("/srv", "/srvx"));
    assert!(!is_safe_path("/srv", "/etc/passwd"));
    assert!(!is_safe_path("/srv/a", "/srv"));
    assert!(is_safe_path("/", "/etc"));
}

#[test]
fn join_path_puts_segments_under_the_root() {
    assert_eq!(join_path("/srv", &segs(&["docs", "x.txt"])), "/srv/docs/x.txt");
    assert_eq!(join_path("/srv", &Vec::new()), "/srv");
}

#[test]
fn request_target_is_the_second_field() {
    assert_eq!(request_target("GET /a HTTP/1.1"), Some("/a".to_string()));
    assert_eq!(request_target("  GET \t /b  "), Some("/b".to_string()));
    assert_eq!(request_target("GET"), None);
    assert_eq!(request_target(""), None);
}

#[test]
fn route_target_without_leading_slash_stays_under_root() {
    assert_eq!(lookup(&route_target("etc/passwd")).0, segs(&["etc", "passwd"]));
}

#[test]
fn decimal_text_writes_numbers() {
    assert_eq!(decimal_text(0), "0");
    assert_eq!(decimal_text(7), "7");
    assert_eq!(decimal_text(1234), "1234");
    assert_eq!(decimal_text(1000000), "1000000");
}

#[test]
fn error_responses_are_complete() {
    let mut out = Vec::new();
    send_404(&mut out);
    send_403(&mut out);
    assert_eq!(text(&out), format!("{}{}", NOT_FOUND, FORBIDDEN));
    let mut out = Vec::new();
    send_500(&mut out);
    assert!(text(&out).starts_with("HTTP/1.1 500 Internal Server Error\r\n"));
}

#[test]
fn file_types_follow_the_extension() {
    let mut out = Vec::new();
    send_raw_file(&mut out, &segs(&["index.html"]), &Some(b"<p>".to_vec()));
    assert!(text(&out).contains("Content-Type: text/html\r\n"));
    let mut out = Vec::new();
    send_file(&mut out, &segs(&["noext"]), &Some(b"x".to_vec()));
    assert!(text(&out).contains("Content-Type: application/octet-stream\r\n"));
    let mut out = Vec::new();
    send_file(&mut out, &segs(&["gone.txt"]), &None);
    assert_eq!(text(&out), NOT_FOUND);
}

#[test]
fn children_are_sorted_by_name() {
    let names = ["zeta", "alpha", "beta", "Alpha", "al", "beta2", "\u{e9}t\u{e9}"];
    let children: Vec<Child> = names.iter().map(|n| Child { name: n.to_string(), is_dir: n.len() == 2 }).collect();
    let sorted = sort_children(children);
    let got: Vec<&str> = sorted.iter().map(|c| c.name.as_str()).collect();
    assert_eq!(got, vec!["Alpha", "al", "alpha", "beta", "beta2", "zeta", "\u{e9}t\u{e9}"]);
    assert!(sorted[1].is_dir);
    assert!(sort_children(Vec::new()).is_empty());
}

#[test]
fn name_order_is_character_order() {
    assert!(name_le_exec("a", "b"));
    assert!(!name_le_exec("b", "a"));
    assert!(name_le_exec("ab", "abc"));
    assert!(!name_le_exec("abc", "ab"));
    assert!(name_le_exec("same", "same"));
    assert!(name_le_exec("", ""));
    assert!(name_le_exec("Z", "a"));
}

#[test]
fn typed_file_chooses_viewer_or_bytes() {
    let name = segs(&["docs", "r.pdf"]);
    let mut out = Vec::new();
    send_typed_file(&mut out, &name, &b"%PDF".to_vec(), "application/pdf", false);
    let page = text(&out);
    assert!(page.starts_with("HTTP/1.1 200 OK\r\nContent-Type: text/html\r\n"));
    assert!(page.contains("getDocument(\"/raw/docs/r.pdf\")"));
    let mut out = Vec::new();
    send_typed_file(&mut out, &name, &b"%PDF".to_vec(), "application/pdf", true);
    assert!(text(&out).ends_with("Content-Type: application/pdf\r\nContent-Length: 4\r\nContent-Disposition: inline\r\nX-Content-Type-Options: nosniff\r\n\r\n%PDF"));
    let mut out = Vec::new();
    send_typed_file(&mut out, &name, &b"abc".to_vec(), "text/plain", false);
    assert!(text(&out).ends_with("Content-Length: 3\r\nContent-Disposition: inline\r\nX-Content-Type-Options: nosniff\r\n\r\nabc"));
}
