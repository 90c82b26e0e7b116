//! Windows-style path text: joining, final component and parent, with both
//! `\` and `/` accepted as separators.
use vstd::prelude::*;
use crate::text::{concat_chars, is_ascii_alpha, slice_prefix};

verus! {

pub open spec fn is_path_sep(c: char) -> bool {
    c == '\\' || c == '/'
}

/// Length of the drive prefix of `p`: 2 for `X:` with an ASCII letter `X`,
/// else 0. UNC (`\\server\share`) and verbatim (`\\?\`) prefixes are not
/// recognised: such a path reads as a rooted one.
pub open spec fn drive_len(p: Seq<char>) -> int {
    if p.len() >= 2 && p[1] == ':' && is_ascii_alpha(p[0]) {
        2
    } else {
        0
    }
}

/// Length of the root of `p`: its drive prefix and the separator that
/// follows it, if any.
pub open spec fn root_len(p: Seq<char>) -> int {
    let d = drive_len(p);
    if p.len() > d && is_path_sep(p[d]) {
        d + 1
    } else {
        d
    }
}

/// `base` joined with `comp` as `PathBuf::push` does on Windows: a `comp`
/// with a drive replaces `base`; a rooted `comp` keeps only the drive of
/// `base`; otherwise a backslash goes between the two unless `base` is
/// empty, is a bare drive, or already ends with a separator.
pub open spec fn path_join(base: Seq<char>, comp: Seq<char>) -> Seq<char> {
    if drive_len(comp) > 0 {
        comp
    } else if comp.len() > 0 && is_path_sep(comp[0]) {
        base.take(drive_len(base)) + comp
    } else if base.len() == 0 || is_path_sep(base.last()) || (base.len() == 2
        && drive_len(base) == 2) {
        base + comp
    } else {
        base + seq!['\\'] + comp
    }
}

/// `p` without its trailing separators.
pub open spec fn trim_trailing_seps(p: Seq<char>) -> Seq<char>
    decreases p.len(),
{
    if p.len() > 0 && is_path_sep(p.last()) {
        trim_trailing_seps(p.drop_last())
    } else {
        p
    }
}

/// Position just after the last separator of `p` (0 when there is none).
pub open spec fn after_last_sep(p: Seq<char>) -> int
    decreases p.len(),
{
    if p.len() == 0 {
        0
    } else if is_path_sep(p.last()) {
        p.len() as int
    } else {
        after_last_sep(p.drop_last())
    }
}

/// The final component of `p`, trailing separators and a leading drive
/// ignored.
pub open spec fn file_name(p: Seq<char>) -> Seq<char> {
    let t = trim_trailing_seps(p);
    let a = after_last_sep(t);
    t.skip(if a < drive_len(t) { drive_len(t) } else { a })
}

/// The path above `p`, as `Path::parent` gives it on Windows: everything
/// before its final component without the separators in between, but with
/// the root kept whole (`C:\\game.exe` gives `C:\\`); `None` when `p` is
/// empty or no more than a root.
pub open spec fn parent(p: Seq<char>) -> Option<Seq<char>> {
    let r = root_len(p);
    let t = trim_trailing_seps(p);
    if t.len() <= r {
        None
    } else {
        let h = trim_trailing_seps(t.take(after_last_sep(t)));
        if h.len() < r {
            Some(p.take(r))
        } else {
            Some(h)
        }
    }
}

fn drive_len_of(p: &[char]) -> (d: usize)
    ensures
        d as int == drive_len(p@),
{
    if p.len() >= 2 && p[1] == ':' && (('a' <= p[0] && p[0] <= 'z') || ('A' <= p[0] && p[0] <= 'Z')) {
        2
    } else {
        0
    }
}

fn root_len_of(p: &[char]) -> (r: usize)
    ensures
        r as int == root_len(p@),
        r <= p.len(),
{
    let d = drive_len_of(p);
    if p.len() > d && (p[d] == '\\' || p[d] == '/') {
        d + 1
    } else {
        d
    }
}

pub fn join(base: &[char], comp: &[char]) -> (r: Vec<char>)
    ensures
        r@ == path_join(base@, comp@),
{
    if drive_len_of(comp) > 0 {
        slice_prefix(comp, comp.len())
    } else if comp.len() > 0 && (comp[0] == '\\' || comp[0] == '/') {
        let d = drive_len_of(base);
        let b = slice_prefix(base, d);
        concat_chars(b.as_slice(), comp)
    } else if base.len() == 0 || base[base.len() - 1] == '\\' || base[base.len() - 1] == '/'
        || (base.len() == 2 && drive_len_of(base) == 2) {
        concat_chars(base, comp)
    } else {
        let sep = ['\\'];
        let with_sep = concat_chars(base, &sep);
        concat_chars(with_sep.as_slice(), comp)
    }
}

fn trailing_seps_end(p: &[char]) -> (k: usize)
    ensures
        k <= p.len(),
        trim_trailing_seps(p@) == p@.take(k as int),
{
    let mut k = p.len();
    assert(p@.take(p.len() as int) =~= p@);
    while k > 0 && (p[k - 1] == '\\' || p[k - 1] == '/')
        invariant
            k <= p.len(),
            trim_trailing_seps(p@) == trim_trailing_seps(p@.take(k as int)),
        decreases k,
    {
        assert(p@.take(k as int).drop_last() =~= p@.take(k - 1));
        k -= 1;
    }
    k
}

fn last_sep_end(p: &[char], n: usize) -> (k: usize)
    requires
        n <= p.len(),
    ensures
        k <= n,
        k as int == after_last_sep(p@.take(n as int)),
{
    let mut k = n;
    while k > 0 && !(p[k - 1] == '\\' || p[k - 1] == '/')
        invariant
            k <= n <= p.len(),
            after_last_sep(p@.take(n as int)) == after_last_sep(p@.take(k as int)),
        decreases k,
    {
        assert(p@.take(k as int).drop_last() =~= p@.take(k - 1));
        k -= 1;
    }
    proof {
        if k > 0 {
            assert(p@.take(k as int).last() == p@[k - 1]);
        }
    }
    k
}

/// The final component of `p`.
pub fn file_name_of(p: &[char]) -> (r: Vec<char>)
    ensures
        r@ == file_name(p@),
{
    let e = trailing_seps_end(p);
    let t = slice_prefix(p, e);
    let a = last_sep_end(p, e);
    let d = drive_len_of(t.as_slice());
    let s = if a < d { d } else { a };
    let mut r: Vec<char> = Vec::new();
    let mut i = s;
    while i < e
        invariant
            s <= i <= e <= p.len(),
            r@ == p@.subrange(s as int, i as int),
        decreases e - i,
    {
        r.push(p[i]);
        i += 1;
        assert(r@ =~= p@.subrange(s as int, i as int));
    }
    assert(t@.skip(s as int) =~= p@.subrange(s as int, e as int));
    r
}

/// The parent of `p`.
pub fn parent_of(p: &[char]) -> (r: Option<Vec<char>>)
    ensures
        r matches Some(v) ==> parent(p@) == Some(v@),
        r is None ==> parent(p@) is None,
{
    let rl = root_len_of(p);
    let e = trailing_seps_end(p);
    if e <= rl {
        return None;
    }
    let s = last_sep_end(p, e);
    let head = slice_prefix(p, s);
    let k = trailing_seps_end(head.as_slice());
    let t = slice_prefix(p, e);
    assert(t@.take(s as int) =~= head@);
    if k < rl {
        Some(slice_prefix(p, rl))
    } else {
        Some(slice_prefix(head.as_slice(), k))
    }
}

/// The final component of `p` as `Path::file_name` gives it on Windows:
/// none for an empty path, for `..`, or for a bare drive such as `C:`.
/// (A trailing `.` component is not folded away.)
pub open spec fn component_name(p: Seq<char>) -> Option<Seq<char>> {
    let f = file_name(p);
    if f.len() == 0 || f == ".."@ {
        None
    } else {
        Some(f)
    }
}

/// Index of the last `.` in `f`, or -1.
pub open spec fn last_dot(f: Seq<char>) -> int
    decreases f.len(),
{
    if f.len() == 0 {
        -1
    } else if f.last() == '.' {
        f.len() - 1
    } else {
        last_dot(f.drop_last())
    }
}

/// `Path::extension`: what follows the last `.` of the final component;
/// none when there is no such dot or the name starts with its only dot.
pub open spec fn extension(p: Seq<char>) -> Option<Seq<char>> {
    match component_name(p) {
        None => None,
        Some(f) => if last_dot(f) <= 0 {
            None
        } else {
            Some(f.skip(last_dot(f) + 1))
        },
    }
}

/// The final component of `p`, when it has one.
pub fn component_name_of(p: &[char]) -> (r: Option<Vec<char>>)
    ensures
        match r {
            Some(v) => component_name(p@) == Some(v@),
            None => component_name(p@) is None,
        },
{
    let f = file_name_of(p);
    proof {
        reveal_strlit("..");
    }
    if f.len() == 0 || (f.len() == 2 && f[0] == '.' && f[1] == '.') {
        proof {
            if f.len() == 2 && f[0] == '.' && f[1] == '.' {
                assert(f@ =~= ".."@);
            }
        }
        None
    } else {
        proof {
            if f@ == ".."@ {
                assert(f@[0] == '.' && f@[1] == '.');
            }
        }
        Some(f)
    }
}

fn last_dot_of(f: &[char]) -> (k: usize)
    ensures
        k <= f.len(),
        k == 0 ==> last_dot(f@) < 0,
        k > 0 ==> last_dot(f@) == k - 1,
{
    let mut k = f.len();
    assert(f@.take(f.len() as int) =~= f@);
    while k > 0 && f[k - 1] != '.'
        invariant
            k <= f.len(),
            last_dot(f@) == last_dot(f@.take(k as int)),
        decreases k,
    {
        assert(f@.take(k as int).drop_last() =~= f@.take(k - 1));
        k -= 1;
    }
    proof {
        if k > 0 {
            assert(f@.take(k as int).last() == f@[k - 1]);
        }
    }
    k
}

/// The extension of `p`, when it has one.
pub fn extension_of(p: &[char]) -> (r: Option<Vec<char>>)
    ensures
        match r {
            Some(v) => extension(p@) == Some(v@),
            None => extension(p@) is None,
        },
{
    match component_name_of(p) {
        None => None,
        Some(f) => {
            let k = last_dot_of(f.as_slice());
            if k <= 1 {
                None
            } else {
                Some(crate::text::slice_from(f.as_slice(), k))
            }
        },
    }
}

} // verus!
