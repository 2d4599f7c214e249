//! Properties of the whole request-to-response pipeline.
use vstd::prelude::*;
use vstd::utf8::encode_utf8;
use crate::listing::{child_href, listing_item, listing_items, parent_link};
use crate::path::{slash_joined, within};
use crate::request::{route_of, RouteView};
use crate::response::{
    decimal, forbidden_response, head_text, not_found_response, response_bytes, text_response,
};
use crate::serve::{file_name, mime_of, raw_link, response_for, viewer_page, viewer_start, viewer_type, Entry, Kind};

verus! {

/// A request whose path leaves the served root, lexically or once
/// canonical, gets the 403 response, never a 200.
pub proof fn lemma_outside_root_forbidden(root: Seq<char>, route: RouteView, entry: Entry)
    requires
        route is Forbidden || (route is Lookup && entry is Found && !within(root, entry->canonical@)),
    ensures
        response_for(root, route, entry) == forbidden_response(),
{
}

/// A request for a path that does not exist gets the 404 response.
pub proof fn lemma_missing_not_found(root: Seq<char>, route: RouteView, entry: Entry)
    requires
        route is Lookup,
        entry is Missing,
    ensures
        response_for(root, route, entry) == not_found_response(),
{
}

/// A listing holds one list item per entry of the directory, in order;
/// the link of each directory entry ends in `/`; the parent link is there
/// exactly when the directory is not the root.
pub proof fn lemma_listing_items(segs: Seq<Seq<char>>, children: Seq<(Seq<char>, bool)>)
    ensures
        listing_items(segs, children).len() == children.len(),
        forall|i: int|
            0 <= i < children.len() ==> listing_items(segs, children)[i] == listing_item(
                segs,
                children[i].0,
                children[i].1,
            ),
        forall|i: int|
            0 <= i < children.len() && children[i].1 ==> #[trigger] child_href(segs, children[i].0, children[i].1).last()
                == '/',
        (parent_link(segs).len() == 0) == (segs.len() == 0),
{
    assert forall|i: int| 0 <= i < children.len() && children[i].1 implies #[trigger] child_href(
        segs,
        children[i].0,
        children[i].1,
    ).last() == '/' by {
        let h = child_href(segs, children[i].0, children[i].1);
        assert(h.last() == h[h.len() - 1]);
    }
    if segs.len() > 0 {
        reveal_strlit("<p><a href=\"/");
        assert(parent_link(segs).len() > 0);
    }
}

/// A `/raw/` request for a readable file under the root is answered with
/// the file's bytes exactly, after a head whose `Content-Length` is their
/// count.
pub proof fn lemma_raw_round_trip(
    root: Seq<char>,
    segs: Seq<Seq<char>>,
    canonical: String,
    contents: Vec<u8>,
)
    requires
        within(root, canonical@),
    ensures
        ({
            let r = response_for(
                root,
                RouteView::Lookup { segments: segs, raw: true },
                Entry::Found { canonical, kind: Kind::File(Some(contents)) },
            );
            let head = head_text("200 OK"@, mime_of(file_name(segs)), true, contents@.len());
            &&& r == encode_utf8(head) + contents@
            &&& r.subrange(r.len() - contents@.len(), r.len() as int) == contents@
            &&& exists|k: int|
                0 <= k && k + 18 + decimal(contents@.len()).len() <= head.len() && #[trigger] head.subrange(
                    k,
                    k + 18 + decimal(contents@.len()).len(),
                ) == "Content-Length: "@ + decimal(contents@.len()) + "\r\n"@
        }),
{
    let r = response_for(
        root,
        RouteView::Lookup { segments: segs, raw: true },
        Entry::Found { canonical, kind: Kind::File(Some(contents)) },
    );
    let b = contents@;
    let ct = mime_of(file_name(segs));
    let head = head_text("200 OK"@, ct, true, b.len());
    assert(r == response_bytes("200 OK"@, ct, true, b));
    assert(r.subrange(r.len() - b.len(), r.len() as int) =~= b);
    reveal_strlit("HTTP/1.1 ");
    reveal_strlit("\r\nContent-Type: ");
    reveal_strlit("\r\nContent-Length: ");
    reveal_strlit("Content-Length: ");
    reveal_strlit("\r\n");
    reveal_strlit("200 OK");
    let k: int = 33 + ct.len() as int;
    let m = "Content-Length: "@ + decimal(b.len()) + "\r\n"@;
    assert(head.subrange(k, k + 18 + decimal(b.len()).len()) =~= m);
}

/// A request without the `/raw/` marker for a document of the viewer's
/// type gets an HTML page that refers to the document's raw address, not
/// the document's bytes; for a file at the root that address is
/// `/raw/<name>`.
pub proof fn lemma_viewer_page(root: Seq<char>, segs: Seq<Seq<char>>, canonical: String, contents: Vec<u8>)
    requires
        within(root, canonical@),
        mime_of(file_name(segs)) == viewer_type(),
    ensures
        response_for(
            root,
            RouteView::Lookup { segments: segs, raw: false },
            Entry::Found { canonical, kind: Kind::File(Some(contents)) },
        ) == text_response("200 OK"@, "text/html"@, viewer_page(segs)),
        viewer_page(segs).subrange(
            viewer_start().len() as int,
            (viewer_start().len() + raw_link(segs).len()) as int,
        ) == raw_link(segs),
        segs.len() == 1 ==> raw_link(segs) == "/raw/"@ + segs[0],
{
    let p = viewer_page(segs);
    assert(p.subrange(viewer_start().len() as int, (viewer_start().len() + raw_link(segs).len()) as int) =~= raw_link(segs));
    if segs.len() == 1 {
        reveal_strlit("/raw");
        reveal_strlit("/raw/");
        assert(segs.drop_last().len() == 0);
        assert(slash_joined(segs.drop_last()) =~= Seq::<char>::empty());
        assert(raw_link(segs) =~= "/raw/"@ + segs[0]);
    }
}

/// Two identical requests against an unchanged filesystem get the same
/// bytes.
pub proof fn lemma_repeatable(root: Seq<char>, line: Seq<char>, entry: Entry, first: Seq<u8>, second: Seq<u8>)
    requires
        first == response_for(root, route_of(line), entry),
        second == response_for(root, route_of(line), entry),
    ensures
        first == second,
{
}

} // verus!
