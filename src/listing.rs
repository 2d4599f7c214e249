//! The HTML index of a directory.
use vstd::prelude::*;
use vstd::string::*;
use crate::path::{chars_of, texts};
use crate::response::{send_text, text_response};

verus! {

/// One entry of a directory: its file name and whether it is a directory.
pub struct Child {
    pub name: String,
    pub is_dir: bool,
}

/// The names and kinds of `children`.
pub open spec fn child_views(children: Seq<Child>) -> Seq<(Seq<char>, bool)> {
    children.map_values(|c: Child| (c.name@, c.is_dir))
}

/// `s1/s2/.../sn/` for the segments `segs` (empty when there are none).
pub open spec fn rel_dir(segs: Seq<Seq<char>>) -> Seq<char>
    decreases segs.len(),
{
    if segs.len() == 0 {
        Seq::empty()
    } else {
        rel_dir(segs.drop_last()) + segs.last() + seq!['/']
    }
}

/// `/` for a directory, nothing for anything else.
pub open spec fn dir_mark(is_dir: bool) -> Seq<char> {
    if is_dir {
        seq!['/']
    } else {
        Seq::empty()
    }
}

/// The link target of the entry `name` of the directory `segs`.
pub open spec fn child_href(segs: Seq<Seq<char>>, name: Seq<char>, is_dir: bool) -> Seq<char> {
    seq!['/'] + rel_dir(segs) + name + dir_mark(is_dir)
}

/// The list item for the entry `name` of the directory `segs`.
pub open spec fn listing_item(segs: Seq<Seq<char>>, name: Seq<char>, is_dir: bool) -> Seq<char> {
    "<li><a href=\""@ + child_href(segs, name, is_dir) + "\">"@ + name + dir_mark(is_dir) + "</a></li>"@
}

/// The list items of the directory `segs`, one per child, in order.
pub open spec fn listing_items(segs: Seq<Seq<char>>, children: Seq<(Seq<char>, bool)>) -> Seq<Seq<char>> {
    children.map_values(|c: (Seq<char>, bool)| listing_item(segs, c.0, c.1))
}

/// The texts of `items`, one after the other.
pub open spec fn flatten(items: Seq<Seq<char>>) -> Seq<char>
    decreases items.len(),
{
    if items.len() == 0 {
        Seq::empty()
    } else {
        flatten(items.drop_last()) + items.last()
    }
}

/// The link to the parent directory; none at the root.
pub open spec fn parent_link(segs: Seq<Seq<char>>) -> Seq<char> {
    if segs.len() == 0 {
        Seq::empty()
    } else {
        "<p><a href=\"/"@ + rel_dir(segs.drop_last()) + "\">&larr; Go back up a directory</a></p>"@
    }
}

pub open spec fn page_start() -> Seq<char> {
    "<!DOCTYPE html><html><head><meta charset=\"utf-8\"><title>Directory Listing</title></head><body><h1>Directory: /"@
}

/// The index page of the directory `segs` with the entries `children`.
pub open spec fn listing_page(segs: Seq<Seq<char>>, children: Seq<(Seq<char>, bool)>) -> Seq<char> {
    page_start() + rel_dir(segs) + "</h1>"@ + parent_link(segs) + "<ul>"@ + flatten(listing_items(segs, children))
        + "</ul></body></html>"@
}

/// The response that lists the directory `segs`.
pub open spec fn listing_response(segs: Seq<Seq<char>>, children: Seq<(Seq<char>, bool)>) -> Seq<u8> {
    text_response("200 OK"@, "text/html"@, listing_page(segs, children))
}

/// `s1/s2/.../sn/` for the first `n` segments of `segs`.
pub fn rel_dir_text(segs: &Vec<String>, n: usize) -> (r: String)
    requires
        n <= segs@.len(),
    ensures
        r@ == rel_dir(texts(segs@).subrange(0, n as int)),
{
    let mut r = String::new();
    let mut i: usize = 0;
    assert(texts(segs@).subrange(0, 0) =~= Seq::<Seq<char>>::empty());
    while i < n
        invariant
            n <= segs@.len(),
            i <= n,
            r@ == rel_dir(texts(segs@).subrange(0, i as int)),
        decreases n - i,
    {
        r.append(segs[i].as_str());
        r.append("/");
        proof {
            reveal_strlit("/");
            let t = texts(segs@);
            assert(t.subrange(0, i + 1).drop_last() =~= t.subrange(0, i as int));
            assert(t.subrange(0, i + 1).last() == segs@[i as int]@);
        }
        i = i + 1;
        assert(r@ =~= rel_dir(texts(segs@).subrange(0, i as int)));
    }
    r
}

/// Appends the list item of `c` in the directory `segs`, whose relative
/// form is `rel`.
fn append_item(page: &mut String, rel: &str, c: &Child, Ghost(segs): Ghost<Seq<Seq<char>>>)
    requires
        rel@ == rel_dir(segs),
    ensures
        final(page)@ == old(page)@ + listing_item(segs, c.name@, c.is_dir),
{
    page.append("<li><a href=\"/");
    page.append(rel);
    page.append(c.name.as_str());
    if c.is_dir {
        page.append("/");
    }
    page.append("\">");
    page.append(c.name.as_str());
    if c.is_dir {
        page.append("/");
    }
    page.append("</a></li>");
    proof {
        reveal_strlit("/");
        reveal_strlit("<li><a href=\"/");
        reveal_strlit("<li><a href=\"");
    }
    assert(final(page)@ =~= old(page)@ + listing_item(segs, c.name@, c.is_dir));
}

/// Writes the index page of the directory `segments` (relative to the
/// served root) with the entries `children`: a heading with the
/// directory's relative path, a link to the parent unless it is the root,
/// and one list item per child, in order, whose link ends in `/` exactly
/// for directories.
pub fn send_directory_listing(stream: &mut Vec<u8>, segments: &Vec<String>, children: &Vec<Child>)
    ensures
        final(stream)@ == old(stream)@ + listing_response(texts(segments@), child_views(children@)),
{
    let ghost segs = texts(segments@);
    let rel = rel_dir_text(segments, segments.len());
    assert(texts(segments@).subrange(0, segments@.len() as int) =~= segs);
    let mut page = String::from_str(
        "<!DOCTYPE html><html><head><meta charset=\"utf-8\"><title>Directory Listing</title></head><body><h1>Directory: /",
    );
    page.append(rel.as_str());
    page.append("</h1>");
    if segments.len() > 0 {
        let parent = rel_dir_text(segments, segments.len() - 1);
        assert(texts(segments@).subrange(0, segments@.len() - 1) =~= segs.drop_last());
        page.append("<p><a href=\"/");
        page.append(parent.as_str());
        page.append("\">&larr; Go back up a directory</a></p>");
    }
    page.append("<ul>");
    let ghost before = page@;
    let ghost items = listing_items(segs, child_views(children@));
    let mut i: usize = 0;
    assert(items.subrange(0, 0) =~= Seq::<Seq<char>>::empty());
    while i < children.len()
        invariant
            i <= children@.len(),
            rel@ == rel_dir(segs),
            items == listing_items(segs, child_views(children@)),
            page@ == before + flatten(items.subrange(0, i as int)),
        decreases children@.len() - i,
    {
        append_item(&mut page, rel.as_str(), &children[i], Ghost(segs));
        proof {
            assert(items.subrange(0, i + 1).drop_last() =~= items.subrange(0, i as int));
            assert(items.subrange(0, i + 1).last() == items[i as int]);
            assert(items[i as int] == listing_item(segs, children@[i as int].name@, children@[i as int].is_dir));
        }
        i = i + 1;
        assert(page@ =~= before + flatten(items.subrange(0, i as int)));
    }
    assert(items.subrange(0, i as int) =~= items);
    page.append("</ul></body></html>");
    assert(page@ =~= listing_page(segs, child_views(children@)));
    send_text(stream, "200 OK", "text/html", page.as_str());
}

/// Whether `a` comes no later than `b` in character order, comparing from
/// position `i` on (a prefix comes first).
pub open spec fn le_from(a: Seq<char>, b: Seq<char>, i: int) -> bool
    decreases a.len() - i,
{
    if i >= a.len() {
        true
    } else if i >= b.len() {
        false
    } else if a[i] != b[i] {
        a[i] < b[i]
    } else {
        le_from(a, b, i + 1)
    }
}

/// Whether the name `a` comes no later than `b`.
pub open spec fn name_le(a: Seq<char>, b: Seq<char>) -> bool {
    le_from(a, b, 0)
}

/// Whether `children` are in order of name.
pub open spec fn sorted_by_name(children: Seq<Child>) -> bool {
    forall|i: int, j: int| 0 <= i < j < children.len() ==> name_le(children[i].name@, children[j].name@)
}

/// Of two names, one comes no later than the other.
pub proof fn lemma_le_from_total(a: Seq<char>, b: Seq<char>, i: int)
    requires
        0 <= i,
    ensures
        le_from(a, b, i) || le_from(b, a, i),
    decreases a.len() - i,
{
    if i < a.len() && i < b.len() && a[i] == b[i] {
        lemma_le_from_total(a, b, i + 1);
    }
}

/// Whether the name `a` comes no later than `b`.
pub fn name_le_exec(a: &str, b: &str) -> (r: bool)
    ensures
        r == name_le(a@, b@),
{
    let x = chars_of(a);
    let y = chars_of(b);
    let mut i: usize = 0;
    while i < x.len() && i < y.len() && x[i] == y[i]
        invariant
            x@ == a@,
            y@ == b@,
            i <= x@.len(),
            i <= y@.len(),
            le_from(a@, b@, 0) == le_from(a@, b@, i as int),
        decreases x@.len() - i,
    {
        i = i + 1;
    }
    if i == x.len() {
        true
    } else if i == y.len() {
        false
    } else {
        x[i] < y[i]
    }
}

proof fn lemma_insert_multiset(s: Seq<Child>, pos: int, x: Child)
    requires
        0 <= pos <= s.len(),
    ensures
        s.insert(pos, x).to_multiset() == s.to_multiset().insert(x),
{
    broadcast use vstd::seq_lib::group_to_multiset_ensures;
    let t = s.insert(pos, x);
    assert(t.remove(pos) =~= s);
    assert(t[pos] == x);
    assert(t.contains(x));
    assert(t.to_multiset() =~= s.to_multiset().insert(x));
}

/// `children` in order of name: the same entries, each name no later than
/// the next one's.
pub fn sort_children(children: Vec<Child>) -> (r: Vec<Child>)
    ensures
        r@.to_multiset() == children@.to_multiset(),
        sorted_by_name(r@),
{
    broadcast use vstd::seq_lib::group_to_multiset_ensures;
    let mut input = children;
    let ghost all = input@;
    let mut out: Vec<Child> = Vec::new();
    let ghost mut rest: Seq<Child> = Seq::empty();
    while input.len() > 0
        invariant
            all == input@ + rest,
            out@.to_multiset() == rest.to_multiset(),
            sorted_by_name(out@),
        decreases input@.len(),
    {
        let ghost before = input@;
        let x = input.pop().unwrap();
        assert(before =~= input@.push(x));
        let mut pos: usize = 0;
        while pos < out.len() && name_le_exec(out[pos].name.as_str(), x.name.as_str())
            invariant
                pos <= out@.len(),
                forall|j: int| 0 <= j < pos ==> name_le(out@[j].name@, x.name@),
            decreases out@.len() - pos,
        {
            pos = pos + 1;
        }
        proof {
            if pos < out@.len() {
                lemma_le_from_total(out@[pos as int].name@, x.name@, 0);
            }
            assert forall|j: int| pos <= j < out@.len() implies name_le(x.name@, out@[j].name@) by {
                if j > pos {
                    assert(name_le(out@[pos as int].name@, out@[j].name@));
                    lemma_le_from_total(out@[j].name@, x.name@, 0);
                    if name_le(out@[j].name@, x.name@) && !name_le(x.name@, out@[j].name@) {
                        lemma_le_from_trans(out@[pos as int].name@, out@[j].name@, x.name@, 0);
                    }
                }
            }
            lemma_insert_multiset(out@, pos as int, x);
            assert(rest.insert(0, x) =~= seq![x] + rest);
            lemma_insert_multiset(rest, 0, x);
        }
        let ghost old_out = out@;
        out.insert(pos, x);
        proof {
            rest = seq![x] + rest;
            assert(all =~= input@ + rest);
            assert forall|i: int, j: int| 0 <= i < j < out@.len() implies name_le(out@[i].name@, out@[j].name@) by {
                let p = pos as int;
                if j < p {
                } else if j == p {
                } else if i < p {
                    assert(out@[j] == old_out[j - 1]);
                } else if i == p {
                    assert(out@[j] == old_out[j - 1]);
                } else {
                    assert(out@[i] == old_out[i - 1]);
                    assert(out@[j] == old_out[j - 1]);
                }
            }
        }
    }
    assert(all =~= rest);
    out
}

/// The order of names is transitive.
pub proof fn lemma_le_from_trans(a: Seq<char>, b: Seq<char>, c: Seq<char>, i: int)
    requires
        0 <= i,
        le_from(a, b, i),
        le_from(b, c, i),
    ensures
        le_from(a, c, i),
    decreases a.len() - i,
{
    if i < a.len() && i < b.len() && i < c.len() && a[i] == b[i] && b[i] == c[i] {
        lemma_le_from_trans(a, b, c, i + 1);
    }
}

} // verus!
