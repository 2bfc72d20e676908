//! Unix path handling on text: joining, the final component, the parent,
//! home-directory expansion and shortened display.
use vstd::prelude::*;
use crate::text::{
    char_pred, chars_of, concat_chars, extend_chars, fields, join_chars, join_with, split_fields,
    string_from_chars, sub_chars,
};
use crate::trusted::home_dir;

verus! {

broadcast use vstd::string::group_string_axioms;

// ---------------------------------------------------------------------------
// Specifications (the semantics of `std::path` on Unix)
// ---------------------------------------------------------------------------

/// `base.join(p)`: an absolute `p` replaces `base`; otherwise `p` is appended,
/// with a `'/'` between them unless `base` is empty or already ends in one.
pub open spec fn join_path_spec(base: Seq<char>, p: Seq<char>) -> Seq<char> {
    if p.len() > 0 && p[0] == '/' {
        p
    } else if base.len() == 0 || base.last() == '/' {
        base + p
    } else {
        base + seq!['/'] + p
    }
}

/// A relative path that starts with the component `.`.
pub open spec fn starts_with_cur_dir(p: Seq<char>) -> bool {
    p.len() > 0 && p[0] == '.' && (p.len() == 1 || p[1] == '/')
}

/// Length of what precedes the components that can be dropped from the end:
/// the root `'/'`, or a leading `.` component.
pub open spec fn body_start(p: Seq<char>) -> int {
    if p.len() > 0 && p[0] == '/' {
        1
    } else if starts_with_cur_dir(p) {
        1
    } else {
        0
    }
}

/// Start of the last `'/'`-separated piece of `p[lo..n]`.
pub open spec fn piece_start(p: Seq<char>, n: int, lo: int) -> int
    decreases n - lo,
{
    if n <= lo {
        n
    } else if p[n - 1] == '/' {
        n
    } else {
        piece_start(p, n - 1, lo)
    }
}

/// The length that remains of `p[..n]` once its last piece, and the `'/'`
/// before it, are removed.
pub open spec fn cut_piece(p: Seq<char>, n: int, lo: int) -> int {
    let j = piece_start(p, n, lo);
    if j > lo {
        j - 1
    } else {
        j
    }
}

/// Pieces that are not components: empty ones (from repeated or trailing
/// `'/'`) and `.`.
pub open spec fn is_skipped(piece: Seq<char>) -> bool {
    piece.len() == 0 || piece == seq!['.']
}

/// The length of `p[..n]` once trailing empty and `.` pieces are dropped.
pub open spec fn trim_back(p: Seq<char>, n: int, lo: int) -> int
    decreases n - lo,
{
    if n <= lo {
        n
    } else if is_skipped(p.subrange(piece_start(p, n, lo), n)) && lo <= cut_piece(p, n, lo) < n {
        trim_back(p, cut_piece(p, n, lo), lo)
    } else {
        n
    }
}

/// `Path::file_name`: the last component when it is a name (not `..`, the
/// root or a leading `.`).
pub open spec fn file_name_spec(p: Seq<char>) -> Option<Seq<char>> {
    let lo = body_start(p);
    let n = trim_back(p, p.len() as int, lo);
    if n > lo {
        let piece = p.subrange(piece_start(p, n, lo), n);
        if piece == seq!['.', '.'] {
            None
        } else {
            Some(piece)
        }
    } else {
        None
    }
}

/// `Path::parent`: the path without its last component; none for the root and
/// for the empty path.
pub open spec fn parent_spec(p: Seq<char>) -> Option<Seq<char>> {
    let lo = body_start(p);
    let n = trim_back(p, p.len() as int, lo);
    if n > lo {
        Some(p.take(trim_back(p, cut_piece(p, n, lo), lo)))
    } else if starts_with_cur_dir(p) {
        Some(seq![])
    } else {
        None
    }
}

/// The non-empty `'/'`-separated parts of a path.
pub open spec fn segments(p: Seq<char>) -> Seq<Seq<char>> {
    fields(p, char_pred('/'))
}

/// What `Path` compares: whether the path is absolute, whether it begins with
/// the component `.`, and its other components (the non-empty parts other
/// than `.`), in order.
pub open spec fn path_components(p: Seq<char>) -> (bool, bool, Seq<Seq<char>>) {
    (
        p.len() > 0 && p[0] == '/',
        starts_with_cur_dir(p),
        segments(p).filter(|part: Seq<char>| part != seq!['.']),
    )
}

/// Two texts naming the same path, as `Path`'s `==` compares them (component
/// by component: `"/a/"` and `"/a"` are one path).
pub open spec fn same_path(a: Seq<char>, b: Seq<char>) -> bool {
    path_components(a) == path_components(b)
}

/// `shorten_path`: the path itself when it has at most `max_levels` non-empty
/// parts; otherwise `"..."` followed by its last `max_levels` parts joined by `'/'`.
pub open spec fn shorten_path_spec(p: Seq<char>, max_levels: nat) -> Seq<char> {
    let parts = segments(p);
    if parts.len() <= max_levels {
        p
    } else {
        seq!['.', '.', '.'] + join_with(parts.skip(parts.len() - max_levels), seq!['/'])
    }
}

/// `display_name`: the file name (the whole path when it has none), with a
/// trailing `'/'` for a directory.
pub open spec fn display_name_spec(p: Seq<char>, is_dir: bool) -> Seq<char> {
    let name = match file_name_spec(p) {
        Some(n) => n,
        None => p,
    };
    if is_dir {
        name.push('/')
    } else {
        name
    }
}

/// `expand_home`: a leading `~` is replaced by the home directory, when there
/// is one, for `~` itself and for paths under `~/`; other paths are unchanged.
pub open spec fn expand_home_spec(p: Seq<char>, home: Option<Seq<char>>) -> Seq<char> {
    match home {
        Some(h) => if p == seq!['~'] {
            h
        } else if p.len() >= 2 && p[0] == '~' && p[1] == '/' {
            join_path_spec(h, p.skip(2))
        } else {
            p
        },
        None => p,
    }
}

/// How an `IdentityFile` or `Include` value of an SSH config becomes a path:
/// `~` and `~/...` go under `home`, other `~...` forms stay as written,
/// absolute paths stay, relative paths go under `ssh_dir`.
pub open spec fn expand_tilde_spec(p: Seq<char>, ssh_dir: Seq<char>, home: Seq<char>) -> Seq<char> {
    if p.len() > 0 && p[0] == '~' {
        if p == seq!['~'] {
            home
        } else if p.len() >= 2 && p[1] == '/' {
            join_path_spec(home, p.skip(2))
        } else {
            p
        }
    } else if p.len() > 0 && p[0] == '/' {
        p
    } else {
        join_path_spec(ssh_dir, p)
    }
}

// ---------------------------------------------------------------------------
// Executable functions on characters
// ---------------------------------------------------------------------------

fn join_path_chars(base: &Vec<char>, p: &Vec<char>) -> (r: Vec<char>)
    ensures
        r@ == join_path_spec(base@, p@),
{
    if p.len() > 0 && p[0] == '/' {
        sub_chars(p, 0, p.len())
    } else if base.len() == 0 || base[base.len() - 1] == '/' {
        concat_chars(base, p)
    } else {
        let mut r = sub_chars(base, 0, base.len());
        r.push('/');
        extend_chars(&mut r, p);
        r
    }
}

fn body_start_exec(v: &Vec<char>) -> (r: usize)
    ensures
        r == body_start(v@),
        r <= v.len(),
{
    if v.len() > 0 && v[0] == '/' {
        1
    } else if v.len() > 0 && v[0] == '.' && (v.len() == 1 || v[1] == '/') {
        1
    } else {
        0
    }
}

fn piece_start_exec(v: &Vec<char>, n: usize, lo: usize) -> (r: usize)
    requires
        lo <= n <= v.len(),
    ensures
        r == piece_start(v@, n as int, lo as int),
        lo <= r <= n,
        r > lo ==> v@[r - 1] == '/',
        forall|k: int| r <= k < n ==> #[trigger] v@[k] != '/',
{
    let mut k = n;
    while k > lo && v[k - 1] != '/'
        invariant
            lo <= k <= n <= v.len(),
            piece_start(v@, n as int, lo as int) == piece_start(v@, k as int, lo as int),
            forall|i: int| k <= i < n ==> #[trigger] v@[i] != '/',
        decreases k,
    {
        k -= 1;
    }
    k
}

fn cut_piece_exec(v: &Vec<char>, n: usize, lo: usize) -> (r: usize)
    requires
        lo <= n <= v.len(),
    ensures
        r == cut_piece(v@, n as int, lo as int),
        lo <= r <= n,
{
    let j = piece_start_exec(v, n, lo);
    if j > lo {
        j - 1
    } else {
        j
    }
}

fn trim_back_exec(v: &Vec<char>, n: usize, lo: usize) -> (r: usize)
    requires
        lo <= n <= v.len(),
    ensures
        r == trim_back(v@, n as int, lo as int),
        lo <= r <= n,
{
    let mut m = n;
    while m > lo
        invariant
            lo <= m <= n <= v.len(),
            trim_back(v@, n as int, lo as int) == trim_back(v@, m as int, lo as int),
        decreases m,
    {
        let j = piece_start_exec(v, m, lo);
        let skipped = j == m || (j + 1 == m && v[j] == '.');
        let ghost piece = v@.subrange(j as int, m as int);
        assert(skipped == is_skipped(piece)) by {
            if j + 1 == m && v@[j as int] == '.' {
                assert(piece =~= seq!['.']);
            }
            if piece == seq!['.'] {
                assert(seq!['.'].len() == 1);
                assert(piece.len() == 1);
                assert(piece[0] == v@[j as int]);
                assert(seq!['.'][0] == '.');
            }
        }
        if !skipped {
            return m;
        }
        let c = cut_piece_exec(v, m, lo);
        if c >= m {
            return m;
        }
        m = c;
    }
    m
}

fn file_name_chars(v: &Vec<char>) -> (r: Option<Vec<char>>)
    ensures
        r.deep_view() == file_name_spec(v@),
{
    let lo = body_start_exec(v);
    let n = trim_back_exec(v, v.len(), lo);
    if n > lo {
        let j = piece_start_exec(v, n, lo);
        let piece = sub_chars(v, j, n);
        if piece.len() == 2 && piece[0] == '.' && piece[1] == '.' {
            assert(piece@ =~= seq!['.', '.']);
            None
        } else {
            assert(piece@ != seq!['.', '.']) by {
                if piece@ == seq!['.', '.'] {
                    assert(piece@[0] == '.' && piece@[1] == '.');
                }
            }
            Some(piece)
        }
    } else {
        None
    }
}

fn parent_chars(v: &Vec<char>) -> (r: Option<Vec<char>>)
    ensures
        r.deep_view() == parent_spec(v@),
{
    let lo = body_start_exec(v);
    let n = trim_back_exec(v, v.len(), lo);
    if n > lo {
        let c = cut_piece_exec(v, n, lo);
        let m = trim_back_exec(v, c, lo);
        Some(sub_chars(v, 0, m))
    } else if v.len() > 0 && v[0] == '.' && (v.len() == 1 || v[1] == '/') {
        Some(Vec::new())
    } else {
        None
    }
}

// ---------------------------------------------------------------------------
// Public functions on strings
// ---------------------------------------------------------------------------

/// `base.join(p)` on Unix.
pub fn join_path(base: &str, p: &str) -> (r: String)
    ensures
        r@ == join_path_spec(base@, p@),
{
    string_from_chars(&join_path_chars(&chars_of(base), &chars_of(p)))
}

/// The final component of `path` when it is a name (`Path::file_name`).
pub fn file_name(path: &str) -> (r: Option<String>)
    ensures
        r.deep_view() == file_name_spec(path@),
{
    match file_name_chars(&chars_of(path)) {
        Some(n) => Some(string_from_chars(&n)),
        None => None,
    }
}

/// `path` without its final component (`Path::parent`).
pub fn parent_path(path: &str) -> (r: Option<String>)
    ensures
        r.deep_view() == parent_spec(path@),
{
    match parent_chars(&chars_of(path)) {
        Some(n) => Some(string_from_chars(&n)),
        None => None,
    }
}

/// Shortens a path for display to its last `max_levels` levels, behind `"..."`.
pub fn shorten_path(path: &str, max_levels: usize) -> (r: String)
    ensures
        r@ == shorten_path_spec(path@, max_levels as nat),
{
    let v = chars_of(path);
    let parts = split_fields(&v, false, '/');
    let ghost ps = parts@.map_values(|w: Vec<char>| w@);
    if parts.len() <= max_levels {
        return string_from_chars(&v);
    }
    let mut tail: Vec<Vec<char>> = Vec::new();
    let first = parts.len() - max_levels;
    let mut i = first;
    while i < parts.len()
        invariant
            first <= i <= parts.len(),
            first == parts.len() - max_levels,
            ps == parts@.map_values(|w: Vec<char>| w@),
            tail@.map_values(|w: Vec<char>| w@) == ps.subrange(first as int, i as int),
        decreases parts.len() - i,
    {
        let ghost before = tail@.map_values(|w: Vec<char>| w@);
        let part = sub_chars(&parts[i], 0, parts[i].len());
        assert(part@ =~= parts@[i as int]@);
        tail.push(part);
        assert(tail@.map_values(|w: Vec<char>| w@) =~= before.push(ps[i as int]));
        assert(ps.subrange(first as int, i + 1) =~= ps.subrange(first as int, i as int).push(
            ps[i as int],
        ));
        i += 1;
    }
    assert(ps.subrange(first as int, parts.len() as int) =~= ps.skip(first as int));
    let mut sep: Vec<char> = Vec::new();
    sep.push('/');
    let joined = join_chars(&tail, &sep);
    let mut r: Vec<char> = Vec::new();
    r.push('.');
    r.push('.');
    r.push('.');
    extend_chars(&mut r, &joined);
    assert(sep@ =~= seq!['/']);
    assert(r@ =~= seq!['.', '.', '.'] + joined@);
    string_from_chars(&r)
}

/// The name to show for a path: its file name (or the whole path when it has
/// none), with a trailing `'/'` for a directory. Whether the path is a
/// directory is the caller's to find out.
pub fn display_name(path: &str, is_dir: bool) -> (r: String)
    ensures
        r@ == display_name_spec(path@, is_dir),
{
    let v = chars_of(path);
    let mut name = match file_name_chars(&v) {
        Some(n) => n,
        None => v,
    };
    if is_dir {
        name.push('/');
    }
    string_from_chars(&name)
}

/// `expand_home` for a given home directory (`None` when it is unknown).
pub fn expand_home_with(path: &str, home: &Option<String>) -> (r: String)
    ensures
        r@ == expand_home_spec(path@, home.deep_view()),
{
    let v = chars_of(path);
    match home {
        Some(h) => {
            if v.len() == 1 && v[0] == '~' {
                assert(v@ =~= seq!['~']);
                return h.clone();
            }
            assert(v@ != seq!['~'] ==> !(v.len() == 1 && v@[0] == '~'));
            if v.len() >= 2 && v[0] == '~' && v[1] == '/' {
                let rest = sub_chars(&v, 2, v.len());
                assert(rest@ =~= v@.skip(2));
                return string_from_chars(&join_path_chars(&chars_of(h.as_str()), &rest));
            }
            string_from_chars(&v)
        },
        None => string_from_chars(&v),
    }
}

/// Expands a leading `~` of `path` to the user's home directory, when one is
/// known. The result rests on what the machine reports as the home directory.
pub fn expand_home(path: &str) -> (r: String)
    ensures
        exists|home: Option<Seq<char>>| r@ == expand_home_spec(path@, home),
{
    let home = home_dir();
    expand_home_with(path, &home)
}

/// How an SSH config value naming a file becomes a path, given the directory of
/// the config file and the home directory (empty when unknown).
pub fn expand_tilde(path: &str, ssh_dir: &str, home: &str) -> (r: String)
    ensures
        r@ == expand_tilde_spec(path@, ssh_dir@, home@),
{
    let v = chars_of(path);
    if v.len() > 0 && v[0] == '~' {
        if v.len() == 1 {
            assert(v@ =~= seq!['~']);
            return string_from_chars(&chars_of(home));
        }
        assert(v@ != seq!['~']) by {
            assert(v@.len() != 1);
        }
        if v[1] == '/' {
            let rest = sub_chars(&v, 2, v.len());
            assert(rest@ =~= v@.skip(2));
            return string_from_chars(&join_path_chars(&chars_of(home), &rest));
        }
        string_from_chars(&v)
    } else if v.len() > 0 && v[0] == '/' {
        string_from_chars(&v)
    } else {
        string_from_chars(&join_path_chars(&chars_of(ssh_dir), &v))
    }
}


// ---------------------------------------------------------------------------
// Laws
// ---------------------------------------------------------------------------

/// A single path component that names a file: not empty, without `'/'`, and
/// neither `.` nor `..`.
pub open spec fn is_plain_name(n: Seq<char>) -> bool {
    n.len() > 0 && (forall|i: int| 0 <= i < n.len() ==> #[trigger] n[i] != '/') && n != seq!['.']
        && n != seq!['.', '.']
}

proof fn lemma_piece_start_at(p: Seq<char>, lo: int, start: int, n: int)
    requires
        0 <= lo <= start <= n <= p.len(),
        start == lo || p[start - 1] == '/',
        forall|k: int| start <= k < n ==> #[trigger] p[k] != '/',
    ensures
        piece_start(p, n, lo) == start,
    decreases n - start,
{
    if n > start {
        lemma_piece_start_at(p, lo, start, n - 1);
    }
}

/// The file name of a name joined onto any path is that name.
pub proof fn law_file_name_of_join(base: Seq<char>, name: Seq<char>)
    requires
        is_plain_name(name),
    ensures
        file_name_spec(join_path_spec(base, name)) == Some(name),
{
    let p = join_path_spec(base, name);
    let pre = if base.len() == 0 || base.last() == '/' {
        base
    } else {
        base + seq!['/']
    };
    assert(p =~= pre + name);
    let lo = body_start(p);
    let start = pre.len() as int;
    assert(lo <= start) by {
        if pre.len() == 0 {
            assert(p =~= name);
            assert(name[0] != '/');
            if starts_with_cur_dir(p) {
                if name.len() == 1 {
                    assert(name =~= seq!['.']);
                } else {
                    assert(name[1] != '/');
                }
            }
        }
    }
    assert(start == lo || p[start - 1] == '/') by {
        if start > 0 {
            if base.len() == 0 || base.last() == '/' {
                assert(p[start - 1] == base.last());
            } else {
                assert(p[start - 1] == pre[start - 1]);
            }
        }
    }
    assert forall|k: int| start <= k < p.len() implies #[trigger] p[k] != '/' by {
        assert(p[k] == name[k - start]);
    }
    lemma_piece_start_at(p, lo, start, p.len() as int);
    assert(p.subrange(start, p.len() as int) =~= name);
    assert(!is_skipped(name));
}

proof fn lemma_piece_start_prefix(p: Seq<char>, q: Seq<char>, n: int, lo: int)
    requires
        0 <= lo,
        0 <= n <= p.len(),
        n <= q.len(),
        p.take(n) == q.take(n),
    ensures
        piece_start(p, n, lo) == piece_start(q, n, lo),
    decreases n - lo,
{
    if n > lo {
        assert(p[n - 1] == p.take(n)[n - 1]);
        assert(q[n - 1] == q.take(n)[n - 1]);
        assert(p.take(n - 1) =~= p.take(n).take(n - 1));
        assert(q.take(n - 1) =~= q.take(n).take(n - 1));
        lemma_piece_start_prefix(p, q, n - 1, lo);
    }
}

proof fn lemma_piece_start_bounds(p: Seq<char>, n: int, lo: int)
    requires
        lo <= n,
    ensures
        lo <= piece_start(p, n, lo) <= n,
    decreases n - lo,
{
    if n > lo && p[n - 1] != '/' {
        lemma_piece_start_bounds(p, n - 1, lo);
    }
}

proof fn lemma_trim_back_prefix(p: Seq<char>, q: Seq<char>, n: int, lo: int)
    requires
        0 <= lo,
        0 <= n <= p.len(),
        n <= q.len(),
        p.take(n) == q.take(n),
    ensures
        trim_back(p, n, lo) == trim_back(q, n, lo),
    decreases n - lo,
{
    if n > lo {
        lemma_piece_start_prefix(p, q, n, lo);
        lemma_piece_start_bounds(p, n, lo);
        let j = piece_start(p, n, lo);
        assert(p.subrange(j, n) =~= p.take(n).subrange(j, n));
        assert(q.subrange(j, n) =~= q.take(n).subrange(j, n));
        let c = cut_piece(p, n, lo);
        if is_skipped(p.subrange(j, n)) && lo <= c < n {
            assert(p.take(c) =~= p.take(n).take(c));
            assert(q.take(c) =~= q.take(n).take(c));
            lemma_trim_back_prefix(p, q, c, lo);
        }
    }
}

/// A directory path as a listing gives it: not empty, and either the root or
/// not ending in `'/'` nor in a `.` component.
pub open spec fn is_clean_dir(base: Seq<char>) -> bool {
    &&& base.len() > 0
    &&& base == seq!['/'] || base.last() != '/'
    &&& trim_back(base, base.len() as int, body_start(base)) == base.len()
}

/// The name shown for a path ends in `'/'` exactly for a directory, and is
/// otherwise the path's file name (the whole path when it has none).
pub proof fn law_display_name(p: Seq<char>, is_dir: bool)
    ensures
        ({
            let shown = display_name_spec(p, is_dir);
            let name = match file_name_spec(p) {
                Some(n) => n,
                None => p,
            };
            &&& is_dir ==> shown == name.push('/')
            &&& !is_dir ==> shown == name
        }),
{
}

/// The parent of a name joined onto a directory is that directory.
pub proof fn law_parent_of_join(base: Seq<char>, name: Seq<char>)
    requires
        is_clean_dir(base),
        is_plain_name(name),
    ensures
        parent_spec(join_path_spec(base, name)) == Some(base),
{
    let p = join_path_spec(base, name);
    let root = base == seq!['/'];
    let pre = if root {
        base
    } else {
        base + seq!['/']
    };
    assert(p =~= pre + name);
    let lo = body_start(p);
    let start = pre.len() as int;
    assert(body_start(p) == body_start(base)) by {
        assert(p[0] == base[0]);
        if base.len() >= 2 {
            assert(p[1] == base[1]);
        } else if !root {
            assert(p[1] == '/');
        }
    }
    assert(lo <= base.len());
    assert forall|k: int| start <= k < p.len() implies #[trigger] p[k] != '/' by {
        assert(p[k] == name[k - start]);
    }
    assert(p[start - 1] == '/');
    lemma_piece_start_at(p, lo, start, p.len() as int);
    assert(p.subrange(start, p.len() as int) =~= name);
    assert(!is_skipped(name));
    assert(trim_back(p, p.len() as int, lo) == p.len());
    let c = cut_piece(p, p.len() as int, lo);
    if root {
        assert(lo == 1);
        assert(c == 1);
        assert(p.take(1) =~= base);
    } else {
        assert(c == base.len());
        assert(p.take(c) =~= base.take(c));
        assert(base.take(c) =~= base);
        lemma_trim_back_prefix(p, base, c, lo);
        assert(p.take(base.len() as int) =~= base);
    }
}

} // verus!
