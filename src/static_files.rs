//! Static resolution: how a request path becomes a file path under a root.

use vstd::prelude::*;

use crate::text::{begins_with, char_views, chars_of, text_of};

verus! {

/// `s` ends with `suffix`.
pub open spec fn ends_with(s: Seq<char>, suffix: Seq<char>) -> bool {
    suffix.len() <= s.len() && s.subrange(s.len() - suffix.len(), s.len() as int) == suffix
}

/// `s` is not empty and its first character is `c`.
pub open spec fn starts_with_char(s: Seq<char>, c: char) -> bool {
    s.len() > 0 && s[0] == c
}

/// Whether `s` ends with `suffix`, compared character by character.
pub fn text_ends_with(s: &str, suffix: &str) -> (r: bool)
    ensures
        r == ends_with(s@, suffix@),
{
    let n = s.unicode_len();
    let k = suffix.unicode_len();
    if k > n {
        return false;
    }
    let tail = s.substring_char(n - k, n).to_owned();
    let want = suffix.to_owned();
    tail == want
}

/// The file suffixes that name a file rather than a directory.
pub open spec fn has_known_extension(p: Seq<char>) -> bool {
    ||| ends_with(p, ".html"@)
    ||| ends_with(p, ".js"@)
    ||| ends_with(p, ".css"@)
    ||| ends_with(p, ".ico"@)
    ||| ends_with(p, ".jpg"@)
    ||| ends_with(p, ".png"@)
    ||| ends_with(p, ".woff2"@)
    ||| ends_with(p, ".ttf"@)
    ||| ends_with(p, ".txt"@)
    ||| ends_with(p, ".xml"@)
}

/// The request path after the directory-index rules: a trailing `/` gets
/// `index.html`; a path without a known extension is taken for a directory
/// and gets `/index.html`; any other path is kept.
pub open spec fn request_file(path: Seq<char>) -> Seq<char> {
    if ends_with(path, seq!['/']) {
        path + "index.html"@
    } else if has_known_extension(path) {
        path
    } else {
        path + "/index.html"@
    }
}

/// `root` followed by `rel`, with one of the two separators dropped when
/// `root` ends with `/` and `rel` starts with one.
pub open spec fn join_root(root: Seq<char>, rel: Seq<char>) -> Seq<char> {
    if ends_with(root, seq!['/']) && starts_with_char(rel, '/') {
        root + rel.drop_first()
    } else {
        root + rel
    }
}

/// The file that a request path names under a static root.
pub open spec fn static_file_path(root: Seq<char>, path: Seq<char>) -> Seq<char> {
    join_root(root, request_file(path))
}

/// Where the root ends with `/` and the request path starts with a single
/// `/`, the two meet in exactly one separator: the file path is the root
/// followed by the adjusted request path without its leading `/`, and the
/// character after the root's `/` is not another `/`.
pub proof fn lemma_single_separator(root: Seq<char>, path: Seq<char>)
    requires
        ends_with(root, seq!['/']),
        starts_with_char(path, '/'),
        !(path.len() > 1 && path[1] == '/'),
    ensures
        static_file_path(root, path) == root + request_file(path).drop_first(),
        static_file_path(root, path)[root.len() - 1] == '/',
        static_file_path(root, path)[root.len() as int] != '/',
{
    reveal_strlit("index.html");
    reveal_strlit("/index.html");
    let f = request_file(path);
    if path.len() == 1 {
        assert(path.subrange(0, 1) =~= seq!['/']);
    }
    assert(f.len() > 1 && f[0] == '/' && f[1] != '/') by {
        if ends_with(path, seq!['/']) {
            assert(f == path + "index.html"@);
            if path.len() == 1 {
                assert(f[1] == 'i');
            }
        } else if has_known_extension(path) {
            assert(f == path);
            assert(path.len() > 1);
        } else {
            assert(f == path + "/index.html"@);
            assert(path.len() > 1);
        }
    }
    let r = static_file_path(root, path);
    assert(r == root + f.drop_first());
    assert(root[root.len() - 1] == root.subrange(root.len() - 1, root.len() as int)[0]);
    assert(r[root.len() - 1] == root[root.len() - 1]);
    assert(r[root.len() as int] == f[1]);
}

/// Whether `path` ends in one of the known file extensions.
pub fn has_know_extention(path: &str) -> (r: bool)
    ensures
        r == has_known_extension(path@),
{
    text_ends_with(path, ".html") || text_ends_with(path, ".js") || text_ends_with(path, ".css")
        || text_ends_with(path, ".ico") || text_ends_with(path, ".jpg") || text_ends_with(
        path,
        ".png",
    ) || text_ends_with(path, ".woff2") || text_ends_with(path, ".ttf") || text_ends_with(
        path,
        ".txt",
    ) || text_ends_with(path, ".xml")
}

/// Joins `rel` to `root` with a single separator between them.
pub fn join_to_root(root: &str, rel: &str) -> (r: String)
    ensures
        r@ == join_root(root@, rel@),
{
    proof {
        reveal_strlit("/");
        assert("/"@ =~= seq!['/']);
    }
    let n = rel.unicode_len();
    let joined = if text_ends_with(root, "/") && n > 0 && rel.get_char(0) == '/' {
        root.to_owned().concat(rel.substring_char(1, n))
    } else {
        root.to_owned().concat(rel)
    };
    proof {
        if ends_with(root@, seq!['/']) && starts_with_char(rel@, '/') {
            assert(rel@.subrange(1, n as int) =~= rel@.drop_first());
        }
    }
    joined
}

/// The file path that `path` names under the static root `root`.
pub fn resolve_static_path(root: &str, path: &str) -> (r: String)
    ensures
        r@ == static_file_path(root@, path@),
{
    proof {
        reveal_strlit("/");
        assert("/"@ =~= seq!['/']);
    }
    let incoming = if text_ends_with(path, "/") {
        path.to_owned().concat("index.html")
    } else if !has_know_extention(path) {
        path.to_owned().concat("/index.html")
    } else {
        path.to_owned()
    };
    join_to_root(root, incoming.as_str())
}

/// The `/`-separated segments of `cur + rest`, where `cur` is a segment begun
/// before `rest`; empty segments are kept.
pub open spec fn segments_from(rest: Seq<char>, cur: Seq<char>) -> Seq<Seq<char>>
    decreases rest.len(),
{
    if rest.len() == 0 {
        seq![cur]
    } else if rest[0] == '/' {
        seq![cur] + segments_from(rest.drop_first(), Seq::empty())
    } else {
        segments_from(rest.drop_first(), cur.push(rest[0]))
    }
}

/// The `/`-separated segments of `p`: `""` has one empty segment, `"/a"` has
/// `""` and `"a"`.
pub open spec fn segments(p: Seq<char>) -> Seq<Seq<char>> {
    segments_from(p, Seq::empty())
}

/// A segment that names the directory it stands in (`""` or `.`).
pub open spec fn is_here_segment(seg: Seq<char>) -> bool {
    seg.len() == 0 || seg == seq!['.']
}

/// A segment that names the parent directory.
pub open spec fn is_parent_segment(seg: Seq<char>) -> bool {
    seg == seq!['.', '.']
}

/// The directories entered so far, after one more segment; `None` once a
/// `..` has gone above the root.
pub open spec fn walk(dirs: Option<Seq<Seq<char>>>, seg: Seq<char>) -> Option<Seq<Seq<char>>> {
    match dirs {
        None => None,
        Some(d) => if is_here_segment(seg) {
            Some(d)
        } else if is_parent_segment(seg) {
            if d.len() == 0 {
                None
            } else {
                Some(d.drop_last())
            }
        } else {
            Some(d.push(seg))
        },
    }
}

/// The directories that `segs` lead to from the root, or `None` where they
/// go above it.
pub open spec fn walk_all(segs: Seq<Seq<char>>) -> Option<Seq<Seq<char>>>
    decreases segs.len(),
{
    if segs.len() == 0 {
        Some(Seq::empty())
    } else {
        walk(walk_all(segs.drop_last()), segs.last())
    }
}

/// Each of `dirs` preceded by `/`.
pub open spec fn joined_segments(dirs: Seq<Seq<char>>) -> Seq<char>
    decreases dirs.len(),
{
    if dirs.len() == 0 {
        Seq::empty()
    } else {
        joined_segments(dirs.drop_last()) + seq!['/'] + dirs.last()
    }
}

/// The request path with its dot segments and empty segments resolved, as
/// an absolute path: `None` when a `..` goes above the root. A path whose
/// last segment is empty, `.` or `..` names a directory and keeps a trailing
/// `/`.
pub open spec fn normalized(p: Seq<char>) -> Option<Seq<char>> {
    match walk_all(segments(p)) {
        None => None,
        Some(d) => Some(
            if d.len() == 0 {
                seq!['/']
            } else if is_here_segment(segments(p).last()) || is_parent_segment(segments(p).last()) {
                joined_segments(d) + seq!['/']
            } else {
                joined_segments(d)
            },
        ),
    }
}

/// The file that a request path names under the static root once its dot
/// segments are resolved; `None` when it would lie above the root.
pub open spec fn static_target(root: Seq<char>, p: Seq<char>) -> Option<Seq<char>> {
    match normalized(p) {
        Some(n) => Some(static_file_path(root, n)),
        None => None,
    }
}

/// Once a walk has gone above the root, more segments do not bring it back.
proof fn lemma_walk_stays_above(a: Seq<Seq<char>>, b: Seq<Seq<char>>)
    requires
        walk_all(a) is None,
    ensures
        walk_all(a + b) is None,
    decreases b.len(),
{
    if b.len() == 0 {
        assert(a + b =~= a);
    } else {
        lemma_walk_stays_above(a, b.drop_last());
        assert((a + b).drop_last() =~= a + b.drop_last());
    }
}

/// A non-empty list of segments, joined, begins with `/`.
proof fn lemma_joined_begins_with_separator(dirs: Seq<Seq<char>>)
    requires
        dirs.len() > 0,
    ensures
        joined_segments(dirs).len() > 0,
        joined_segments(dirs)[0] == '/',
    decreases dirs.len(),
{
    let prev = joined_segments(dirs.drop_last());
    let whole = prev + seq!['/'] + dirs.last();
    if dirs.len() > 1 {
        lemma_joined_begins_with_separator(dirs.drop_last());
        assert(whole[0] == prev[0]);
    } else {
        assert(prev.len() == 0);
        assert(whole[0] == '/');
    }
    assert(joined_segments(dirs) == whole);
}

/// Every file the static resolver serves lies under the root: its path is
/// the root followed by a separator.
pub proof fn lemma_static_target_under_root(root: Seq<char>, p: Seq<char>)
    ensures
        static_target(root, p) is Some ==> begins_with(
            static_target(root, p).unwrap(),
            join_root(root, seq!['/']),
        ),
{
    if let Some(n) = normalized(p) {
        let d = walk_all(segments(p)).unwrap();
        if d.len() > 0 {
            lemma_joined_begins_with_separator(d);
        }
        assert(n.len() > 0 && n[0] == '/');
        let f = request_file(n);
        assert(f.len() > 0 && f[0] == '/');
        let r = join_root(root, f);
        let want = join_root(root, seq!['/']);
        if ends_with(root, seq!['/']) {
            assert(want =~= root);
            assert(r.take(want.len() as int) =~= want);
        } else {
            assert(want =~= root + seq!['/']);
            assert(r.take(want.len() as int) =~= want);
        }
    }
}

/// The directories after one more segment, in place; `false` when the
/// segment goes above the root.
fn walk_segment(dirs: &mut Vec<Vec<char>>, seg: &Vec<char>) -> (ok: bool)
    ensures
        ok == walk(Some(char_views(old(dirs)@)), seg@) is Some,
        ok ==> walk(Some(char_views(old(dirs)@)), seg@) == Some(char_views(final(dirs)@)),
{
    let here = seg.len() == 0 || (seg.len() == 1 && seg[0] == '.');
    let parent = seg.len() == 2 && seg[0] == '.' && seg[1] == '.';
    proof {
        if seg@.len() == 1 {
            assert(is_here_segment(seg@) == (seg@[0] == '.')) by {
                if seg@[0] == '.' {
                    assert(seg@ =~= seq!['.']);
                }
            }
        }
        if seg@.len() == 2 && seg@[0] == '.' && seg@[1] == '.' {
            assert(seg@ =~= seq!['.', '.']);
        }
    }
    if here {
        true
    } else if parent {
        if dirs.len() == 0 {
            false
        } else {
            let ghost before = char_views(dirs@);
            dirs.pop();
            assert(char_views(dirs@) =~= before.drop_last());
            true
        }
    } else {
        let ghost before = char_views(dirs@);
        dirs.push(seg.clone());
        assert(char_views(dirs@) =~= before.push(seg@));
        true
    }
}

/// The request path with its dot segments resolved, as `normalized` says.
pub fn normalize_path(path: &str) -> (r: Option<String>)
    ensures
        r is Some == normalized(path@) is Some,
        r is Some ==> r.unwrap()@ == normalized(path@).unwrap(),
{
    let chars = chars_of(path);
    let mut dirs: Vec<Vec<char>> = Vec::new();
    let mut cur: Vec<char> = Vec::new();
    let ghost mut done: Seq<Seq<char>> = Seq::empty();
    let mut i: usize = 0;
    assert(chars@.skip(0) =~= chars@);
    assert(done + segments(path@) =~= segments(path@));
    assert(char_views(dirs@) =~= Seq::<Seq<char>>::empty());
    while i < chars.len()
        invariant
            i <= chars@.len(),
            chars@ == path@,
            segments(path@) == done + segments_from(chars@.skip(i as int), cur@),
            walk_all(done) == Some(char_views(dirs@)),
        decreases chars@.len() - i,
    {
        let ghost rest = chars@.skip(i as int);
        assert(rest[0] == chars@[i as int]);
        assert(rest.drop_first() =~= chars@.skip(i + 1));
        if chars[i] == '/' {
            let ghost next = done.push(cur@);
            assert(next.drop_last() =~= done);
            assert(done + (seq![cur@] + segments_from(rest.drop_first(), Seq::empty())) =~= next
                + segments_from(rest.drop_first(), Seq::empty()));
            if !walk_segment(&mut dirs, &cur) {
                proof {
                    lemma_walk_stays_above(next, segments_from(rest.drop_first(), Seq::empty()));
                }
                return None;
            }
            proof {
                done = next;
            }
            cur = Vec::new();
        } else {
            cur.push(chars[i]);
        }
        i = i + 1;
    }
    assert(chars@.skip(i as int) =~= Seq::<char>::empty());
    let ghost all = done.push(cur@);
    assert(all.drop_last() =~= done);
    assert(segments(path@) =~= all);
    if !walk_segment(&mut dirs, &cur) {
        return None;
    }
    let mut out: Vec<char> = Vec::new();
    let mut k: usize = 0;
    while k < dirs.len()
        invariant
            k <= dirs@.len(),
            out@ == joined_segments(char_views(dirs@).take(k as int)),
        decreases dirs@.len() - k,
    {
        let ghost before = out@;
        out.push('/');
        let seg = &dirs[k];
        let mut c: usize = 0;
        while c < seg.len()
            invariant
                c <= seg@.len(),
                out@ == before + seq!['/'] + seg@.take(c as int),
            decreases seg@.len() - c,
        {
            out.push(seg[c]);
            assert(seg@.take(c + 1) =~= seg@.take(c as int).push(seg@[c as int]));
            c = c + 1;
        }
        proof {
            let taken = char_views(dirs@).take(k + 1);
            assert(taken.drop_last() =~= char_views(dirs@).take(k as int));
            assert(taken.last() == dirs@[k as int]@);
            assert(seg@.take(c as int) =~= seg@);
        }
        k = k + 1;
    }
    assert(char_views(dirs@).take(k as int) =~= char_views(dirs@));
    let here = cur.len() == 0 || (cur.len() == 1 && cur[0] == '.');
    let parent = cur.len() == 2 && cur[0] == '.' && cur[1] == '.';
    proof {
        if cur@.len() == 1 && cur@[0] == '.' {
            assert(cur@ =~= seq!['.']);
        }
        if cur@.len() == 2 && cur@[0] == '.' && cur@[1] == '.' {
            assert(cur@ =~= seq!['.', '.']);
        }
        assert(segments(path@).last() == cur@);
    }
    if dirs.len() == 0 {
        out.push('/');
        assert(out@ =~= seq!['/']);
    } else if here || parent {
        out.push('/');
    }
    Some(text_of(&out))
}

} // verus!
