//! Namespace glob matching. A namespace is split into segments at `/`;
//! in a pattern, `*` matches one non-empty segment, `**` matches any run
//! of segments, and every other segment matches only itself.

use vstd::prelude::*;

verus! {

/// The fold that splits the first `i` characters: the completed segments
/// and the segment still open.
pub open spec fn split_rec(s: Seq<char>, i: int) -> (Seq<Seq<char>>, Seq<char>)
    decreases i,
{
    if i <= 0 {
        (Seq::empty(), Seq::empty())
    } else {
        let (segs, cur) = split_rec(s, i - 1);
        if s[i - 1] == '/' {
            (segs.push(cur), Seq::empty())
        } else {
            (segs, cur.push(s[i - 1]))
        }
    }
}

/// A string's segments, split at `/`. The empty string has one empty
/// segment.
pub open spec fn split_segs(s: Seq<char>) -> Seq<Seq<char>> {
    split_rec(s, s.len() as int).0.push(split_rec(s, s.len() as int).1)
}

/// Whether pattern segments from `pi` on match path segments from `si`
/// on.
pub open spec fn glob_match_from(pat: Seq<Seq<char>>, path: Seq<Seq<char>>, pi: int, si: int) -> bool
    decreases pat.len() - pi, path.len() - si,
{
    if pi < 0 || si < 0 {
        false
    } else if pi >= pat.len() {
        si >= path.len()
    } else if pat[pi] == seq!['*', '*'] {
        glob_match_from(pat, path, pi + 1, si) || (si < path.len() && glob_match_from(
            pat,
            path,
            pi,
            si + 1,
        ))
    } else if pat[pi] == seq!['*'] {
        si < path.len() && path[si].len() > 0 && glob_match_from(pat, path, pi + 1, si + 1)
    } else {
        si < path.len() && pat[pi] == path[si] && glob_match_from(pat, path, pi + 1, si + 1)
    }
}

/// Whether the glob pattern matches the namespace.
pub open spec fn glob_matches(pattern: Seq<char>, ns: Seq<char>) -> bool {
    glob_match_from(split_segs(pattern), split_segs(ns), 0, 0)
}

/// A pattern segment is valid when any `*` it contains makes up the
/// whole segment: exactly `*` or `**`.
pub open spec fn valid_glob_seg(seg: Seq<char>) -> bool {
    seg == seq!['*'] || seg == seq!['*', '*'] || !seg.contains('*')
}

/// Whether every segment of the pattern is valid.
pub open spec fn valid_glob(pattern: Seq<char>) -> bool {
    forall|i: int|
        0 <= i < split_segs(pattern).len() ==> valid_glob_seg(#[trigger] split_segs(pattern)[i])
}

/// The characters of a string, in order.
pub fn str_chars(s: &str) -> (r: Vec<char>)
    ensures
        r@ == s@,
{
    let n = s.unicode_len();
    let mut out: Vec<char> = Vec::new();
    let mut i: usize = 0;
    while i < n
        invariant
            n == s@.len(),
            0 <= i <= n,
            out@ == s@.take(i as int),
        decreases n - i,
    {
        let c = s.get_char(i);
        out.push(c);
        proof {
            assert(out@ =~= s@.take(i as int + 1));
        }
        i += 1;
    }
    proof {
        assert(s@.take(n as int) =~= s@);
    }
    out
}

/// Splits a character sequence into its `/`-separated segments.
fn split_chars(cs: &Vec<char>) -> (r: Vec<Vec<char>>)
    ensures
        r@.map_values(|v: Vec<char>| v@) == split_segs(cs@),
{
    let n = cs.len();
    let mut segs: Vec<Vec<char>> = Vec::new();
    let mut cur: Vec<char> = Vec::new();
    let mut i: usize = 0;
    while i < n
        invariant
            n == cs@.len(),
            0 <= i <= n,
            segs@.map_values(|v: Vec<char>| v@) == split_rec(cs@, i as int).0,
            cur@ == split_rec(cs@, i as int).1,
        decreases n - i,
    {
        let ghost prev = segs@.map_values(|v: Vec<char>| v@);
        if cs[i] == '/' {
            let finished = cur;
            cur = Vec::new();
            segs.push(finished);
            proof {
                assert(segs@.map_values(|v: Vec<char>| v@) =~= prev.push(
                    split_rec(cs@, i as int).1,
                ));
            }
        } else {
            cur.push(cs[i]);
        }
        i += 1;
    }
    segs.push(cur);
    proof {
        assert(segs@.map_values(|v: Vec<char>| v@) =~= split_rec(cs@, n as int).0.push(
            split_rec(cs@, n as int).1,
        ));
    }
    segs
}

fn chars_eq(a: &Vec<char>, b: &Vec<char>) -> (r: bool)
    ensures
        r == (a@ == b@),
{
    if a.len() != b.len() {
        proof {
            assert(a@ != b@);
        }
        return false;
    }
    let n = a.len();
    let mut i: usize = 0;
    while i < n
        invariant
            n == a@.len() == b@.len(),
            0 <= i <= n,
            forall|j: int| 0 <= j < i ==> a@[j] == b@[j],
        decreases n - i,
    {
        if a[i] != b[i] {
            proof {
                assert(a@[i as int] != b@[i as int]);
            }
            return false;
        }
        i += 1;
    }
    proof {
        assert(a@ =~= b@);
    }
    true
}

/// Whether a segment is exactly `*`.
fn is_star(seg: &Vec<char>) -> (r: bool)
    ensures
        r == (seg@ == seq!['*']),
{
    let r = seg.len() == 1 && seg[0] == '*';
    proof {
        if r {
            assert(seg@ =~= seq!['*']);
        }
        if seg@ == seq!['*'] {
            assert(seg@.len() == 1 && seg@[0] == '*');
        }
    }
    r
}

/// Whether a segment is exactly `**`.
fn is_star_star(seg: &Vec<char>) -> (r: bool)
    ensures
        r == (seg@ == seq!['*', '*']),
{
    let r = seg.len() == 2 && seg[0] == '*' && seg[1] == '*';
    proof {
        if r {
            assert(seg@ =~= seq!['*', '*']);
        }
        if seg@ == seq!['*', '*'] {
            assert(seg@.len() == 2 && seg@[0] == '*' && seg@[1] == '*');
        }
    }
    r
}

fn match_from(pat: &Vec<Vec<char>>, path: &Vec<Vec<char>>, pi: usize, si: usize) -> (r: bool)
    requires
        pi <= pat@.len(),
        si <= path@.len(),
    ensures
        r == glob_match_from(
            pat@.map_values(|v: Vec<char>| v@),
            path@.map_values(|v: Vec<char>| v@),
            pi as int,
            si as int,
        ),
    decreases pat@.len() - pi, path@.len() - si,
{
    let ghost pv = pat@.map_values(|v: Vec<char>| v@);
    let ghost sv = path@.map_values(|v: Vec<char>| v@);
    if pi == pat.len() {
        return si == path.len();
    }
    if is_star_star(&pat[pi]) {
        if match_from(pat, path, pi + 1, si) {
            return true;
        }
        return si < path.len() && match_from(pat, path, pi, si + 1);
    }
    if is_star(&pat[pi]) {
        return si < path.len() && path[si].len() > 0 && match_from(pat, path, pi + 1, si + 1);
    }
    if si == path.len() {
        return false;
    }
    chars_eq(&pat[pi], &path[si]) && match_from(pat, path, pi + 1, si + 1)
}

/// Whether the glob pattern matches the namespace: segments split at
/// `/`, `*` one non-empty segment, `**` any run of segments, anything
/// else itself.
pub fn matches_glob(pattern: &str, namespace: &str) -> (r: bool)
    ensures
        r == glob_matches(pattern@, namespace@),
{
    let pat_chars = str_chars(pattern);
    let ns_chars = str_chars(namespace);
    let pat = split_chars(&pat_chars);
    let path = split_chars(&ns_chars);
    match_from(&pat, &path, 0, 0)
}

fn seg_has_star(seg: &Vec<char>) -> (r: bool)
    ensures
        r == seg@.contains('*'),
{
    let n = seg.len();
    let mut i: usize = 0;
    while i < n
        invariant
            n == seg@.len(),
            0 <= i <= n,
            forall|j: int| 0 <= j < i ==> seg@[j] != '*',
        decreases n - i,
    {
        if seg[i] == '*' {
            return true;
        }
        i += 1;
    }
    proof {
        assert(!seg@.contains('*'));
    }
    false
}

/// Whether the pattern is a valid glob: every segment containing `*` is
/// exactly `*` or `**`.
pub fn is_valid_glob(pattern: &str) -> (r: bool)
    ensures
        r == valid_glob(pattern@),
{
    let chars = str_chars(pattern);
    let segs = split_chars(&chars);
    let ghost sv = segs@.map_values(|v: Vec<char>| v@);
    let n = segs.len();
    let mut i: usize = 0;
    while i < n
        invariant
            n == segs@.len(),
            sv == segs@.map_values(|v: Vec<char>| v@),
            sv == split_segs(pattern@),
            0 <= i <= n,
            forall|j: int| 0 <= j < i ==> valid_glob_seg(#[trigger] sv[j]),
        decreases n - i,
    {
        let seg = &segs[i];
        let ok = is_star(seg) || is_star_star(seg) || !seg_has_star(seg);
        if !ok {
            proof {
                assert(!valid_glob_seg(sv[i as int]));
            }
            return false;
        }
        i += 1;
    }
    true
}

} // verus!
