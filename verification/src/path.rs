use vstd::prelude::*;
use vstd::string::*;

use crate::errors::LoadError;

verus! {

/// True when the path begins with a `/` root.
pub open spec fn has_root(s: Seq<char>) -> bool {
    s.len() > 0 && s[0] == '/'
}

/// True when the path begins with a leading `.` component (and no root):
/// the one place the platform keeps a `.` as a component of its own.
pub open spec fn starts_cur_dir(s: Seq<char>) -> bool {
    &&& !has_root(s)
    &&& s.len() > 0
    &&& s[0] == '.'
    &&& (s.len() == 1 || s[1] == '/')
}

/// Where the body of the path begins: after the one-character root or
/// leading `.` component, when the path has one.
pub open spec fn body_start(s: Seq<char>) -> int {
    if has_root(s) || starts_cur_dir(s) {
        1
    } else {
        0
    }
}

/// True when a separator-free piece of a path is normalized away by the
/// platform: an empty piece (from repeated or trailing separators) or a
/// non-leading `.` component.
pub open spec fn is_skip(piece: Seq<char>) -> bool {
    piece.len() == 0 || (piece.len() == 1 && piece[0] == '.')
}

/// Index of the last `/` separator of `s` in `[b, e)`, or `b - 1` when
/// that range holds none.
pub open spec fn last_sep_in(s: Seq<char>, b: int, e: int) -> int
    decreases e - b,
{
    if e <= b {
        b - 1
    } else if s[e - 1] == '/' {
        e - 1
    } else {
        last_sep_in(s, b, e - 1)
    }
}

proof fn lemma_last_sep_in_bounds(s: Seq<char>, b: int, e: int)
    requires
        b <= e,
    ensures
        b - 1 <= last_sep_in(s, b, e) <= e - 1,
    decreases e - b,
{
    if e > b && s[e - 1] != '/' {
        lemma_last_sep_in_bounds(s, b, e - 1);
    }
}

/// The end of the path once the platform has dropped trailing separators
/// and trailing non-leading `.` components from its body `[b, e)`.
pub open spec fn norm_end(s: Seq<char>, b: int, e: int) -> int
    decreases e - b,
    via norm_end_decreases
{
    if e <= b {
        e
    } else {
        let j = last_sep_in(s, b, e);
        if is_skip(s.subrange(j + 1, e)) {
            if j < b {
                b
            } else {
                norm_end(s, b, j)
            }
        } else {
            e
        }
    }
}

#[via_fn]
proof fn norm_end_decreases(s: Seq<char>, b: int, e: int) {
    if e > b {
        lemma_last_sep_in_bounds(s, b, e);
    }
}

/// The directory portion of a path: the path without its final component,
/// following the platform's component rules.
///
/// Trailing separators and non-leading `.` components are normalized away
/// when locating the final component, and the component is then dropped
/// together with the separators and `.` components before it: `a/b`,
/// `a/b/`, `a//b`, `a/./b` and `a/b/.` all have the parent `a`.  When the
/// body holds a single component, the parent is what stands before the
/// body: the empty path, the root `/`, or the leading `.` component.  The
/// empty path, and a root followed by no component at all, have no parent.
pub open spec fn parent_of(s: Seq<char>) -> Option<Seq<char>> {
    let b = body_start(s);
    let e = norm_end(s, b, s.len() as int);
    if e <= b {
        if starts_cur_dir(s) {
            Some(Seq::empty())
        } else {
            None
        }
    } else {
        let j = last_sep_in(s, b, e);
        if j < b {
            Some(s.take(b))
        } else {
            Some(s.take(norm_end(s, b, j)))
        }
    }
}

/// Standard path joining: an absolute `rel` stands on its own; otherwise
/// `rel` is appended to `dir`, with a separator in between unless `dir` is
/// empty or already ends with one.
pub open spec fn join_of(dir: Seq<char>, rel: Seq<char>) -> Seq<char> {
    if rel.len() > 0 && rel[0] == '/' {
        rel
    } else if dir.len() == 0 {
        rel
    } else if dir.last() == '/' {
        dir + rel
    } else {
        dir + "/"@ + rel
    }
}

/// The path a `(base, rel)` pair resolves to, when `base` has a directory
/// portion.
pub open spec fn resolved_spec(base: Seq<char>, rel: Seq<char>) -> Option<Seq<char>> {
    match parent_of(base) {
        Some(dir) => Some(join_of(dir, rel)),
        None => None,
    }
}

/// One past the last `/` separator of `base` in `[b, e)`, or `b` when that
/// range holds none.
fn find_last_sep(base: &str, b: usize, e: usize) -> (j: usize)
    requires
        b <= e <= base@.len(),
    ensures
        b <= j <= e,
        j == last_sep_in(base@, b as int, e as int) + 1,
{
    let mut k = e;
    while k > b && base.get_char(k - 1) != '/'
        invariant
            b <= k <= e <= base@.len(),
            last_sep_in(base@, b as int, e as int) == last_sep_in(base@, b as int, k as int),
        decreases k,
    {
        k = k - 1;
    }
    k
}

/// The end of `base` once trailing separators and non-leading `.`
/// components are dropped from its body `[b, e)`.
fn drop_trailing_skips(base: &str, b: usize, e: usize) -> (r: usize)
    requires
        b <= e <= base@.len(),
    ensures
        b <= r <= e,
        r == norm_end(base@, b as int, e as int),
    decreases e,
{
    if e == b {
        return e;
    }
    let j = find_last_sep(base, b, e);
    let piece_len = e - j;
    let skip = if piece_len == 0 {
        true
    } else if piece_len == 1 {
        base.get_char(j) == '.'
    } else {
        false
    };
    proof {
        let piece = base@.subrange(j as int, e as int);
        assert(piece.len() == e - j);
        if piece_len == 1 {
            assert(piece[0] == base@[j as int]);
        }
        assert(skip == is_skip(piece));
    }
    if skip {
        if j == b {
            b
        } else {
            drop_trailing_skips(base, b, j - 1)
        }
    } else {
        e
    }
}

/// Join `rel` onto the directory `dir` with standard path-join rules.
fn join_paths(dir: &str, rel: &str) -> (r: String)
    ensures
        r@ == join_of(dir@, rel@),
{
    let rel_len = rel.unicode_len();
    if rel_len > 0 && rel.get_char(0) == '/' {
        return rel.to_owned();
    }
    let dir_len = dir.unicode_len();
    if dir_len == 0 {
        return rel.to_owned();
    }
    let mut out = dir.to_owned();
    if dir.get_char(dir_len - 1) != '/' {
        out.append("/");
    }
    out.append(rel);
    out
}

/// Compute the path that `rel` names relative to the directory containing
/// the source file `base`.
///
/// The directory portion of `base` (the path without its final component,
/// as [`parent_of`] defines it) is joined with `rel` using standard
/// path-join rules; no further normalization is performed.  When `base`
/// has no directory portion (it is empty, or a root followed by no
/// component), the call fails with [`LoadError::InvalidBase`] instead of
/// panicking.
pub fn resolve_path(base: &str, rel: &str) -> (r: Result<String, LoadError>)
    ensures
        r is Ok <==> parent_of(base@) is Some,
        r matches Ok(p) ==> p@ == resolved_spec(base@, rel@)->0,
        r matches Err(e) ==> e == LoadError::InvalidBase,
{
    let n = base.unicode_len();
    let root = n > 0 && base.get_char(0) == '/';
    let cur = !root && n > 0 && base.get_char(0) == '.' && (n == 1 || base.get_char(1) == '/');
    let b: usize = if root || cur {
        1
    } else {
        0
    };
    proof {
        assert(root == has_root(base@));
        assert(cur == starts_cur_dir(base@));
        assert(b as int == body_start(base@));
    }
    let e = drop_trailing_skips(base, b, n);
    if e == b {
        if cur {
            proof {
                reveal_strlit("");
                assert(""@ =~= Seq::<char>::empty());
            }
            Ok(join_paths("", rel))
        } else {
            Err(LoadError::InvalidBase)
        }
    } else {
        let j = find_last_sep(base, b, e);
        let d_end: usize = if j == b {
            b
        } else {
            drop_trailing_skips(base, b, j - 1)
        };
        if d_end == b {
            if root {
                proof {
                    reveal_strlit("/");
                    assert("/"@ =~= base@.take(1));
                }
                Ok(join_paths("/", rel))
            } else if cur {
                proof {
                    reveal_strlit(".");
                    assert("."@ =~= base@.take(1));
                }
                Ok(join_paths(".", rel))
            } else {
                proof {
                    reveal_strlit("");
                    assert(""@ =~= base@.take(0));
                }
                Ok(join_paths("", rel))
            }
        } else {
            let dir = base.substring_char(0, d_end);
            proof {
                assert(dir@ =~= base@.take(d_end as int));
            }
            Ok(join_paths(dir, rel))
        }
    }
}

} // verus!
