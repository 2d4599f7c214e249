//! Confinement of request paths to the served root: lexical resolution of
//! `.`, `..` and empty segments, and the prefix test on canonical paths.
use vstd::prelude::*;
use vstd::string::*;

verus! {

/// The character sequences held by a list of strings.
pub open spec fn texts(v: Seq<String>) -> Seq<Seq<char>> {
    v.map_values(|s: String| s@)
}

/// The stack of segments after one more segment `seg` is read: an empty
/// segment or `.` changes nothing, `..` drops the last segment (and has no
/// result when there is none: it would leave the root), any other segment
/// is pushed.
pub open spec fn push_segment(stack: Seq<Seq<char>>, seg: Seq<char>) -> Option<Seq<Seq<char>>> {
    if seg.len() == 0 || seg == seq!['.'] {
        Some(stack)
    } else if seg == seq!['.', '.'] {
        if stack.len() == 0 {
            None
        } else {
            Some(stack.drop_last())
        }
    } else {
        Some(stack.push(seg))
    }
}

/// Reads `p` from position `i` on, with `stack` the segments so far and
/// `cur` the segment being read; `/` ends a segment.
pub open spec fn walk(p: Seq<char>, i: int, stack: Seq<Seq<char>>, cur: Seq<char>) -> Option<Seq<Seq<char>>>
    decreases p.len() - i,
{
    if i >= p.len() {
        push_segment(stack, cur)
    } else if p[i] == '/' {
        match push_segment(stack, cur) {
            None => None,
            Some(st) => walk(p, i + 1, st, Seq::empty()),
        }
    } else {
        walk(p, i + 1, stack, cur.push(p[i]))
    }
}

/// The segments, relative to the root, that the path `p` names, read from
/// the root whether or not `p` starts with `/`; no result when a `..`
/// would climb above the root.
pub open spec fn resolution(p: Seq<char>) -> Option<Seq<Seq<char>>> {
    walk(p, 0, Seq::empty(), Seq::empty())
}

/// `/s1/s2/.../sn` for the segments `segs` (empty when there are none).
pub open spec fn slash_joined(segs: Seq<Seq<char>>) -> Seq<char>
    decreases segs.len(),
{
    if segs.len() == 0 {
        Seq::empty()
    } else {
        slash_joined(segs.drop_last()) + seq!['/'] + segs.last()
    }
}

/// Whether `path` is `root` or lies below it, comparing whole components:
/// `/srv/a` lies below `/srv`, `/srvx` does not.
pub open spec fn within(root: Seq<char>, path: Seq<char>) -> bool {
    &&& root.len() <= path.len()
    &&& path.subrange(0, root.len() as int) == root
    &&& (path.len() == root.len() || (root.len() > 0 && root.last() == '/') || path[root.len() as int] == '/')
}

/// The characters of `s`, one by one.
pub fn chars_of(s: &str) -> (r: Vec<char>)
    ensures
        r@ == s@,
{
    let n = s.unicode_len();
    let mut r: Vec<char> = Vec::new();
    let mut i: usize = 0;
    while i < n
        invariant
            n == s@.len(),
            i <= n,
            r@ == s@.subrange(0, i as int),
        decreases n - i,
    {
        r.push(s.get_char(i));
        i = i + 1;
        assert(r@ =~= s@.subrange(0, i as int));
    }
    assert(r@ =~= s@);
    r
}

/// Applies the segment `p[start..end]` (whose characters are `cs`) to `stack`.
fn apply_segment(stack: &mut Vec<String>, p: &str, cs: &Vec<char>, start: usize, end: usize) -> (ok: bool)
    requires
        cs@ == p@,
        start <= end <= p@.len(),
    ensures
        match push_segment(texts(old(stack)@), p@.subrange(start as int, end as int)) {
            None => !ok,
            Some(st) => ok && texts(final(stack)@) == st,
        },
{
    let ghost seg = p@.subrange(start as int, end as int);
    let len = end - start;
    if len == 0 {
        return true;
    }
    if len == 1 && cs[start] == '.' {
        assert(seg =~= seq!['.']);
        return true;
    }
    if len == 2 && cs[start] == '.' && cs[start + 1] == '.' {
        assert(seg =~= seq!['.', '.']);
        if stack.len() == 0 {
            return false;
        }
        let _ = stack.pop();
        assert(texts(stack@) =~= texts(old(stack)@).drop_last());
        return true;
    }
    assert(seg != seq!['.']) by {
        assert(seq!['.'].len() == 1 && seq!['.'][0] == '.');
        if len == 1 {
            assert(seg[0] == cs@[start as int]);
        }
    }
    assert(seg != seq!['.', '.']) by {
        assert(seq!['.', '.'].len() == 2 && seq!['.', '.'][0] == '.' && seq!['.', '.'][1] == '.');
        if len == 2 {
            assert(seg[0] == cs@[start as int]);
            assert(seg[1] == cs@[start + 1]);
        }
    }
    stack.push(String::from_str(p.substring_char(start, end)));
    assert(texts(stack@) =~= texts(old(stack)@).push(seg));
    true
}

/// The segments, relative to the root, that the request path `p` names;
/// `None` when it would leave the root.
pub fn resolve(p: &str) -> (r: Option<Vec<String>>)
    ensures
        match resolution(p@) {
            None => r is None,
            Some(segs) => r is Some && texts(r->Some_0@) == segs,
        },
{
    let cs = chars_of(p);
    let n = cs.len();
    let mut stack: Vec<String> = Vec::new();
    let mut start: usize = 0;
    let mut i: usize = 0;
    assert(texts(stack@) =~= Seq::<Seq<char>>::empty());
    assert(p@.subrange(0, 0) =~= Seq::<char>::empty());
    while i < n
        invariant
            cs@ == p@,
            n == p@.len(),
            start <= i <= n,
            resolution(p@) == walk(p@, i as int, texts(stack@), p@.subrange(start as int, i as int)),
        decreases n - i,
    {
        if cs[i] == '/' {
            let ok = apply_segment(&mut stack, p, &cs, start, i);
            if !ok {
                return None;
            }
            start = i + 1;
            assert(p@.subrange(start as int, start as int) =~= Seq::<char>::empty());
        } else {
            assert(p@.subrange(start as int, i + 1) =~= p@.subrange(start as int, i as int).push(p@[i as int]));
        }
        i = i + 1;
    }
    let ok = apply_segment(&mut stack, p, &cs, start, n);
    if ok {
        Some(stack)
    } else {
        None
    }
}

/// Whether the canonical path `requested_path` is the canonical root
/// `root_dir` or lies below it.
pub fn is_safe_path(root_dir: &str, requested_path: &str) -> (r: bool)
    ensures
        r == within(root_dir@, requested_path@),
{
    let root = chars_of(root_dir);
    let path = chars_of(requested_path);
    if root.len() > path.len() {
        return false;
    }
    let mut i: usize = 0;
    while i < root.len()
        invariant
            root@ == root_dir@,
            path@ == requested_path@,
            root@.len() <= path@.len(),
            i <= root@.len(),
            path@.subrange(0, i as int) == root@.subrange(0, i as int),
        decreases root@.len() - i,
    {
        if root[i] != path[i] {
            assert(path@.subrange(0, root@.len() as int)[i as int] != root@[i as int]);
            return false;
        }
        i = i + 1;
        assert(path@.subrange(0, i as int) =~= root@.subrange(0, i as int));
    }
    assert(root@.subrange(0, i as int) =~= root@);
    if path.len() == root.len() {
        return true;
    }
    if root.len() > 0 && root[root.len() - 1] == '/' {
        return true;
    }
    path[root.len()] == '/'
}

/// The filesystem path of the segments `segs` under `root`.
pub fn join_path(root: &str, segs: &Vec<String>) -> (r: String)
    ensures
        r@ == root@ + slash_joined(texts(segs@)),
{
    let mut r = String::from_str(root);
    let mut i: usize = 0;
    assert(texts(segs@).subrange(0, 0) =~= Seq::<Seq<char>>::empty());
    assert(r@ =~= root@ + slash_joined(texts(segs@).subrange(0, 0)));
    while i < segs.len()
        invariant
            i <= segs@.len(),
            r@ == root@ + slash_joined(texts(segs@).subrange(0, i as int)),
        decreases segs@.len() - i,
    {
        r.append("/");
        r.append(segs[i].as_str());
        proof {
            reveal_strlit("/");
            let t = texts(segs@);
            assert(t.subrange(0, i + 1).drop_last() =~= t.subrange(0, i as int));
            assert(t.subrange(0, i + 1).last() == segs@[i as int]@);
        }
        i = i + 1;
        assert(r@ =~= root@ + slash_joined(texts(segs@).subrange(0, i as int)));
    }
    assert(texts(segs@).subrange(0, i as int) =~= texts(segs@));
    r
}

} // verus!
