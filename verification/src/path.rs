//! A model of path text on Unix and on Windows: which component a path ends
//! with, and how a path is joined onto a base, as `std::path::Path::ends_with`
//! and `std::path::PathBuf::join` treat them on each platform.
use vstd::prelude::*;
use crate::verbatim::spec_verbatim_join;

verus! {

/// The platform whose path rules apply.
#[derive(Clone, Copy, Debug, PartialEq, Eq, Structural)]
pub enum PathStyle {
    /// `/` separates components; there are no prefixes.
    Unix,
    /// `\` and `/` separate components (only `\` in a verbatim path), and a
    /// path may start with a prefix such as `C:` or `\\server\share`.
    Windows,
}

/// `c` separates components, in a verbatim Windows path when `verbatim`.
pub open spec fn is_separator(style: PathStyle, verbatim: bool, c: char) -> bool {
    match style {
        PathStyle::Unix => c == '/',
        PathStyle::Windows => c == '\\' || (!verbatim && c == '/'),
    }
}

/// The separator that `join` puts between two paths.
pub open spec fn main_separator(style: PathStyle) -> char {
    match style {
        PathStyle::Unix => '/',
        PathStyle::Windows => '\\',
    }
}

/// An ASCII letter, as a drive letter must be.
pub open spec fn is_ascii_letter(c: char) -> bool {
    ('a' <= c && c <= 'z') || ('A' <= c && c <= 'Z')
}

/// The first index at or after `from` that holds a Windows separator, or the
/// length of `s` where there is none.
pub open spec fn next_separator(s: Seq<char>, from: int, verbatim: bool) -> int
    decreases s.len() - from,
{
    if from >= s.len() {
        s.len() as int
    } else if is_separator(PathStyle::Windows, verbatim, s[from]) {
        from
    } else {
        next_separator(s, from + 1, verbatim)
    }
}

/// The prefix of a Windows path: its length in characters, whether it is
/// verbatim (`\\?\..`), and whether it names a drive (`C:` or `\\?\C:`).
/// A path with no prefix has length 0.
/// - `\\?\UNC\server\share`, `\\?\C:`, `\\?\name`: verbatim prefixes;
/// - `\\.\device`: a device namespace;
/// - `\\server\share`, with both parts non-empty: a network share;
/// - `C:`: a drive.
pub open spec fn windows_prefix(s: Seq<char>) -> (int, bool, bool) {
    if s.len() >= 4 && s[0] == '\\' && s[1] == '\\' && s[2] == '?' && s[3] == '\\' {
        if s.len() >= 8 && s[4] == 'U' && s[5] == 'N' && s[6] == 'C' && s[7] == '\\' {
            let e1 = next_separator(s, 8, true);
            if e1 < s.len() && next_separator(s, e1 + 1, true) > e1 + 1 {
                (next_separator(s, e1 + 1, true), true, false)
            } else {
                (e1, true, false)
            }
        } else if s.len() >= 6 && is_ascii_letter(s[4]) && s[5] == ':' && (s.len() == 6 || s[6]
            == '\\') {
            (6, true, true)
        } else {
            (next_separator(s, 4, true), true, false)
        }
    } else if s.len() >= 4 && is_separator(PathStyle::Windows, false, s[0]) && is_separator(
        PathStyle::Windows,
        false,
        s[1],
    ) && s[2] == '.' && is_separator(PathStyle::Windows, false, s[3]) {
        (next_separator(s, 4, false), false, false)
    } else if s.len() >= 2 && is_separator(PathStyle::Windows, false, s[0]) && is_separator(
        PathStyle::Windows,
        false,
        s[1],
    ) {
        let e1 = next_separator(s, 2, false);
        if e1 > 2 && e1 < s.len() && next_separator(s, e1 + 1, false) > e1 + 1 {
            (next_separator(s, e1 + 1, false), false, false)
        } else {
            (0, false, false)
        }
    } else if s.len() >= 2 && s[1] == ':' && is_ascii_letter(s[0]) {
        (2, false, true)
    } else {
        (0, false, false)
    }
}

/// The length of the prefix of `s` (0 where it has none).
pub open spec fn prefix_len(style: PathStyle, s: Seq<char>) -> int {
    match style {
        PathStyle::Unix => 0,
        PathStyle::Windows => windows_prefix(s).0,
    }
}

/// `s` is a verbatim path, whose components are not normalized.
pub open spec fn prefix_verbatim(style: PathStyle, s: Seq<char>) -> bool {
    match style {
        PathStyle::Unix => false,
        PathStyle::Windows => windows_prefix(s).1,
    }
}

/// The prefix of `s` names a drive.
pub open spec fn prefix_is_drive(style: PathStyle, s: Seq<char>) -> bool {
    match style {
        PathStyle::Unix => false,
        PathStyle::Windows => windows_prefix(s).2,
    }
}

/// `name` is a single normal component: not empty, no separator, and neither
/// `.` nor `..`.
pub open spec fn is_normal_component(style: PathStyle, name: Seq<char>) -> bool {
    &&& name.len() > 0
    &&& forall|k: int| 0 <= k < name.len() ==> !is_separator(style, false, #[trigger] name[k])
    &&& name != seq!['.']
    &&& name != seq!['.', '.']
}

/// The character at `k` carries no component once the path is read up to
/// `k`: it is a separator, or (outside verbatim paths) a lone `.` segment
/// after the first segment, which `Path::components` drops.
pub open spec fn is_noise_at(style: PathStyle, path: Seq<char>, k: int) -> bool {
    let v = prefix_verbatim(style, path);
    ||| is_separator(style, v, path[k])
    ||| {
        &&& !v
        &&& path[k] == '.'
        &&& k > 0
        &&& is_separator(style, v, path[k - 1])
        &&& (k + 1 == path.len() || is_separator(style, v, path[k + 1]))
    }
}

/// From `start` on, `path` holds no further component.
pub open spec fn only_noise_from(style: PathStyle, path: Seq<char>, start: int) -> bool {
    forall|k: int| start <= k < path.len() ==> #[trigger] is_noise_at(style, path, k)
}

/// `name` stands in `path` at `i`, after the prefix, as the path's last
/// component.
pub open spec fn last_component_at(style: PathStyle, path: Seq<char>, name: Seq<char>, i: int) -> bool {
    &&& prefix_len(style, path) <= i
    &&& 0 <= i
    &&& i + name.len() <= path.len()
    &&& path.subrange(i, i + name.len()) == name
    &&& (i == prefix_len(style, path) || is_separator(
        style,
        prefix_verbatim(style, path),
        path[i - 1],
    ))
    &&& only_noise_from(style, path, i + name.len())
}

/// The last component of `path` is the normal component `name`: what
/// `Path::new(path).ends_with(name)` answers.
pub open spec fn ends_with_component(style: PathStyle, path: Seq<char>, name: Seq<char>) -> bool {
    exists|i: int| last_component_at(style, path, name, i)
}

/// `p` replaces the base it is joined onto: it has a prefix, or, on Unix, it
/// starts at the root.
pub open spec fn replaces_base(style: PathStyle, p: Seq<char>) -> bool {
    ||| prefix_len(style, p) > 0
    ||| (style == PathStyle::Unix && p.len() > 0 && p[0] == '/')
}

/// `base` needs a separator before a relative path is appended: it is not
/// empty, does not end in a separator, and is not just a drive such as `C:`.
pub open spec fn needs_separator(style: PathStyle, base: Seq<char>) -> bool {
    &&& base.len() > 0
    &&& !is_separator(style, false, base.last())
    &&& !(prefix_len(style, base) > 0 && prefix_len(style, base) == base.len() && prefix_is_drive(
        style,
        base,
    ))
}

/// `base.join(p)`: a path with a prefix (or, on Unix, an absolute path)
/// replaces the base; a non-empty path joined onto a verbatim Windows base is
/// rebuilt from components; a Windows path that starts with a separator keeps
/// only the base's prefix; otherwise `p` is appended, with a separator between
/// them where the base needs one.
pub open spec fn spec_join(style: PathStyle, base: Seq<char>, p: Seq<char>) -> Seq<char> {
    if replaces_base(style, p) {
        p
    } else if prefix_verbatim(style, base) && p.len() > 0 {
        spec_verbatim_join(base, p)
    } else if style == PathStyle::Windows && p.len() > 0 && is_separator(style, false, p[0]) {
        base.subrange(0, prefix_len(style, base)) + p
    } else if needs_separator(style, base) {
        base + seq![main_separator(style)] + p
    } else {
        base + p
    }
}

/// Whether `a` and `b` hold the same characters.
pub fn str_equal(a: &str, b: &str) -> (eq: bool)
    ensures
        eq == (a@ == b@),
{
    let n: usize = a.unicode_len();
    let m: usize = b.unicode_len();
    if n != m {
        return false;
    }
    let mut i: usize = 0;
    while i < n
        invariant
            n == a@.len(),
            m == b@.len(),
            n == m,
            i <= n,
            a@.subrange(0, i as int) == b@.subrange(0, i as int),
        decreases n - i,
    {
        if a.get_char(i) != b.get_char(i) {
            assert(a@[i as int] != b@[i as int]);
            return false;
        }
        assert(a@.subrange(0, i + 1) =~= a@.subrange(0, i as int).push(a@[i as int]));
        assert(b@.subrange(0, i + 1) =~= b@.subrange(0, i as int).push(b@[i as int]));
        i = i + 1;
    }
    assert(a@ =~= a@.subrange(0, n as int));
    assert(b@ =~= b@.subrange(0, n as int));
    true
}

/// Whether `c` separates components.
pub fn is_separator_char(style: PathStyle, verbatim: bool, c: char) -> (sep: bool)
    ensures
        sep == is_separator(style, verbatim, c),
{
    match style {
        PathStyle::Unix => c == '/',
        PathStyle::Windows => c == '\\' || (!verbatim && c == '/'),
    }
}

fn is_ascii_letter_char(c: char) -> (letter: bool)
    ensures
        letter == is_ascii_letter(c),
{
    ('a' <= c && c <= 'z') || ('A' <= c && c <= 'Z')
}

proof fn lemma_next_separator(s: Seq<char>, from: int, verbatim: bool, e: int)
    requires
        0 <= from <= e <= s.len(),
        forall|k: int| from <= k < e ==> !is_separator(PathStyle::Windows, verbatim, #[trigger] s[k]),
        e == s.len() || is_separator(PathStyle::Windows, verbatim, s[e]),
    ensures
        next_separator(s, from, verbatim) == e,
    decreases e - from,
{
    if from < e {
        lemma_next_separator(s, from + 1, verbatim, e);
    }
}

pub(crate) fn next_separator_exec(s: &str, from: usize, verbatim: bool) -> (e: usize)
    requires
        from <= s@.len(),
    ensures
        from <= e <= s@.len(),
        e == next_separator(s@, from as int, verbatim),
{
    let n: usize = s.unicode_len();
    let mut e: usize = from;
    while e < n
        invariant
            n == s@.len(),
            from <= e <= n,
            forall|k: int| from <= k < e ==> !is_separator(PathStyle::Windows, verbatim, #[trigger] s@[k]),
        decreases n - e,
    {
        if is_separator_char(PathStyle::Windows, verbatim, s.get_char(e)) {
            proof {
                lemma_next_separator(s@, from as int, verbatim, e as int);
            }
            return e;
        }
        e = e + 1;
    }
    proof {
        lemma_next_separator(s@, from as int, verbatim, e as int);
    }
    e
}

/// The prefix of `s`: its length, whether it is verbatim, and whether it names
/// a drive.
pub fn prefix_of(style: PathStyle, s: &str) -> (info: (usize, bool, bool))
    ensures
        info.0 == prefix_len(style, s@),
        info.0 <= s@.len(),
        info.1 == prefix_verbatim(style, s@),
        info.2 == prefix_is_drive(style, s@),
{
    if style == PathStyle::Unix {
        return (0, false, false);
    }
    let n: usize = s.unicode_len();
    if n >= 4 && s.get_char(0) == '\\' && s.get_char(1) == '\\' && s.get_char(2) == '?'
        && s.get_char(3) == '\\' {
        if n >= 8 && s.get_char(4) == 'U' && s.get_char(5) == 'N' && s.get_char(6) == 'C'
            && s.get_char(7) == '\\' {
            let e1: usize = next_separator_exec(s, 8, true);
            if e1 < n {
                let e2: usize = next_separator_exec(s, e1 + 1, true);
                if e2 > e1 + 1 {
                    return (e2, true, false);
                }
            }
            (e1, true, false)
        } else if n >= 6 && is_ascii_letter_char(s.get_char(4)) && s.get_char(5) == ':' && (n == 6
            || s.get_char(6) == '\\') {
            (6, true, true)
        } else {
            (next_separator_exec(s, 4, true), true, false)
        }
    } else if n >= 4 && is_separator_char(style, false, s.get_char(0)) && is_separator_char(
        style,
        false,
        s.get_char(1),
    ) && s.get_char(2) == '.' && is_separator_char(style, false, s.get_char(3)) {
        (next_separator_exec(s, 4, false), false, false)
    } else if n >= 2 && is_separator_char(style, false, s.get_char(0)) && is_separator_char(
        style,
        false,
        s.get_char(1),
    ) {
        let e1: usize = next_separator_exec(s, 2, false);
        if e1 > 2 && e1 < n {
            let e2: usize = next_separator_exec(s, e1 + 1, false);
            if e2 > e1 + 1 {
                return (e2, false, false);
            }
        }
        (0, false, false)
    } else if n >= 2 && s.get_char(1) == ':' && is_ascii_letter_char(s.get_char(0)) {
        (2, false, true)
    } else {
        (0, false, false)
    }
}

/// The start of the trailing stretch of `path` that holds no component: the
/// smallest `j`, not before the prefix, from which only noise follows.
fn noise_start(style: PathStyle, path: &str, lo: usize, verbatim: bool) -> (j: usize)
    requires
        lo <= path@.len(),
        verbatim == prefix_verbatim(style, path@),
    ensures
        lo <= j <= path@.len(),
        only_noise_from(style, path@, j as int),
        j == lo || !is_noise_at(style, path@, j - 1),
{
    let n: usize = path.unicode_len();
    let mut j: usize = n;
    while j > lo
        invariant
            n == path@.len(),
            lo <= j <= n,
            verbatim == prefix_verbatim(style, path@),
            only_noise_from(style, path@, j as int),
        decreases j,
    {
        let c: char = path.get_char(j - 1);
        let noise: bool = if is_separator_char(style, verbatim, c) {
            true
        } else if !verbatim && c == '.' && j >= 2 {
            is_separator_char(style, verbatim, path.get_char(j - 2)) && (j == n
                || is_separator_char(style, verbatim, path.get_char(j)))
        } else {
            false
        };
        if !noise {
            return j;
        }
        j = j - 1;
    }
    j
}

/// Any place where `name` stands as the last component ends exactly where the
/// trailing noise starts.
proof fn lemma_last_component_ends_at_noise_start(
    style: PathStyle,
    path: Seq<char>,
    name: Seq<char>,
    j: int,
)
    requires
        is_normal_component(style, name),
        prefix_len(style, path) <= j <= path.len(),
        only_noise_from(style, path, j),
        j == prefix_len(style, path) || !is_noise_at(style, path, j - 1),
    ensures
        forall|i: int| #[trigger] last_component_at(style, path, name, i) ==> i + name.len() == j,
{
    let v = prefix_verbatim(style, path);
    assert forall|i: int| #[trigger] last_component_at(style, path, name, i) implies i + name.len()
        == j by {
        let e: int = i + name.len();
        if e < j {
            assert(is_noise_at(style, path, j - 1));
        } else if e > j {
            let k: int = e - 1;
            assert(is_noise_at(style, path, k));
            assert(path[k] == path.subrange(i, e)[name.len() - 1]);
            assert(path[k] == name[name.len() - 1]);
            assert(!is_separator(style, false, name[name.len() - 1]));
            assert(!is_separator(style, v, name[name.len() - 1]));
            if name.len() == 1 {
                assert(name =~= seq!['.']);
            } else {
                assert(path[k - 1] == path.subrange(i, e)[name.len() - 2]);
                assert(path[k - 1] == name[name.len() - 2]);
                assert(!is_separator(style, false, name[name.len() - 2]));
            }
        }
    }
}

/// Whether `path` ends with `name` as its last component, as
/// `Path::ends_with` decides it for a single normal component.
pub fn ends_with_component_exec(style: PathStyle, path: &str, name: &str) -> (ends: bool)
    requires
        is_normal_component(style, name@),
    ensures
        ends == ends_with_component(style, path@, name@),
{
    let (lo, verbatim, _drive) = prefix_of(style, path);
    let j: usize = noise_start(style, path, lo, verbatim);
    let n: usize = name.unicode_len();
    if j - lo < n {
        proof {
            lemma_last_component_ends_at_noise_start(style, path@, name@, j as int);
        }
        return false;
    }
    let start: usize = j - n;
    let mut k: usize = 0;
    while k < n
        invariant
            n == name@.len(),
            start + n == j,
            lo <= start,
            j <= path@.len(),
            k <= n,
            forall|t: int| 0 <= t < k ==> path@[start + t] == name@[t],
            is_normal_component(style, name@),
            lo == prefix_len(style, path@),
            only_noise_from(style, path@, j as int),
            j == lo || !is_noise_at(style, path@, j - 1),
        decreases n - k,
    {
        if path.get_char(start + k) != name.get_char(k) {
            proof {
                assert(path@[start + k] != name@[k as int]);
                if exists|i: int| last_component_at(style, path@, name@, i) {
                    let i: int = choose|i: int| last_component_at(style, path@, name@, i);
                    lemma_last_component_ends_at_noise_start(style, path@, name@, j as int);
                    assert(path@.subrange(i, i + n)[k as int] == path@[start + k]);
                }
            }
            return false;
        }
        k = k + 1;
    }
    let boundary: bool = start == lo || is_separator_char(style, verbatim, path.get_char(start - 1));
    proof {
        if boundary {
            assert(path@.subrange(start as int, start + n) =~= name@);
            assert(last_component_at(style, path@, name@, start as int));
        } else if exists|i: int| last_component_at(style, path@, name@, i) {
            lemma_last_component_ends_at_noise_start(style, path@, name@, j as int);
        }
    }
    boundary
}

/// `base.join(p)`, as `PathBuf::join` builds it.
pub fn join(style: PathStyle, base: &str, p: &str) -> (joined: String)
    ensures
        joined@ == spec_join(style, base@, p@),
{
    let (pp, _pv, _pd) = prefix_of(style, p);
    let pn: usize = p.unicode_len();
    if pp > 0 || (style == PathStyle::Unix && pn > 0 && p.get_char(0) == '/') {
        return String::from_str(p);
    }
    let (pb, bv, bd) = prefix_of(style, base);
    if bv && pn > 0 {
        return crate::verbatim::verbatim_join(base, p);
    }
    if style == PathStyle::Windows && pn > 0 && is_separator_char(style, false, p.get_char(0)) {
        let kept: &str = base.substring_char(0, pb);
        return String::from_str(kept).concat(p);
    }
    let bn: usize = base.unicode_len();
    let mut joined = String::from_str(base);
    if bn > 0 && !is_separator_char(style, false, base.get_char(bn - 1)) && !(pb > 0 && pb == bn
        && bd) {
        match style {
            PathStyle::Unix => {
                joined.append("/");
                proof {
                    reveal_strlit("/");
                }
            },
            PathStyle::Windows => {
                joined.append("\\");
                proof {
                    reveal_strlit("\\");
                }
            },
        }
    }
    joined.append(p);
    joined
}

/// The first separator at or after `from` lies between `from` and the end.
pub proof fn lemma_next_separator_bounds(s: Seq<char>, from: int, verbatim: bool)
    requires
        0 <= from <= s.len(),
    ensures
        from <= next_separator(s, from, verbatim) <= s.len(),
    decreases s.len() - from,
{
    if from < s.len() && !is_separator(PathStyle::Windows, verbatim, s[from]) {
        lemma_next_separator_bounds(s, from + 1, verbatim);
    }
}

/// A path with no prefix is not verbatim.
proof fn lemma_verbatim_has_prefix(style: PathStyle, s: Seq<char>)
    ensures
        prefix_verbatim(style, s) ==> prefix_len(style, s) >= 4,
{
    if style == PathStyle::Windows && s.len() >= 4 && s[0] == '\\' && s[1] == '\\' && s[2] == '?'
        && s[3] == '\\' {
        lemma_next_separator_bounds(s, 4, true);
        if s.len() >= 8 {
            lemma_next_separator_bounds(s, 8, true);
        }
    }
}

/// Joining a relative path onto a base that is not a verbatim path keeps the
/// relative path's last component as the last component of the result, unless
/// the join folds that component into a Windows prefix or makes the result a
/// verbatim path.
pub proof fn lemma_join_keeps_last_component(
    style: PathStyle,
    base: Seq<char>,
    p: Seq<char>,
    name: Seq<char>,
)
    requires
        prefix_len(style, p) == 0,
        !prefix_verbatim(style, base),
        p.len() == 0 || !is_separator(style, false, p[0]),
        ends_with_component(style, p, name),
        prefix_len(style, spec_join(style, base, p)) <= spec_join(style, base, p).len() - p.len(),
        !prefix_verbatim(style, spec_join(style, base, p)),
    ensures
        ends_with_component(style, spec_join(style, base, p), name),
{
    lemma_verbatim_has_prefix(style, p);
    let i: int = choose|i: int| last_component_at(style, p, name, i);
    let joined = spec_join(style, base, p);
    let off: int = joined.len() - p.len();
    assert(!replaces_base(style, p));
    assert(joined.subrange(off, joined.len() as int) =~= p);
    assert forall|k: int| 0 <= k < p.len() implies joined[off + k] == #[trigger] p[k] by {
        assert(joined.subrange(off, joined.len() as int)[k] == joined[off + k]);
    }
    assert(joined.subrange(off + i, off + i + name.len()) =~= p.subrange(i, i + name.len()));
    assert forall|k: int| off + i + name.len() <= k < joined.len() implies #[trigger] is_noise_at(
        style,
        joined,
        k,
    ) by {
        assert(is_noise_at(style, p, k - off));
        assert(joined[k] == p[k - off]);
        if k + 1 < joined.len() {
            assert(joined[k + 1] == p[k + 1 - off]);
        }
        if k - off > 0 {
            assert(joined[k - 1] == p[k - 1 - off]);
        }
    }
    if i == 0 && off > 0 {
        if needs_separator(style, base) {
            assert(joined[off - 1] == main_separator(style));
        } else {
            assert(base.len() > 0);
            assert(joined[off - 1] == base.last());
            if !is_separator(style, false, base.last()) {
                // the base is just a drive, such as `C:`
                assert(style == PathStyle::Windows);
                assert(prefix_is_drive(style, base));
                assert(joined.subrange(0, base.len() as int) =~= base);
                assert(joined[0] == base[0] && joined[1] == base[1]);
                if prefix_verbatim(style, base) {
                    assert(joined[2] == base[2] && joined[3] == base[3]);
                    assert(base.len() >= 4);
                }
                assert(prefix_len(style, joined) == off);
            }
        }
    } else if i > 0 {
        assert(joined[off + i - 1] == p[i - 1]);
    }
    assert(last_component_at(style, joined, name, off + i));
}

/// The last character of a normal component standing at `i` is no noise.
proof fn lemma_name_end_is_not_noise(style: PathStyle, path: Seq<char>, name: Seq<char>, i: int)
    requires
        is_normal_component(style, name),
        0 <= i,
        i + name.len() <= path.len(),
        path.subrange(i, i + name.len()) == name,
    ensures
        !is_noise_at(style, path, i + name.len() - 1),
{
    let v = prefix_verbatim(style, path);
    let k: int = i + name.len() - 1;
    assert(path[k] == path.subrange(i, i + name.len())[name.len() - 1]);
    assert(!is_separator(style, false, name[name.len() - 1]));
    assert(!is_separator(style, v, path[k]));
    if name.len() == 1 {
        if path[k] == '.' {
            assert(name =~= seq!['.']);
        }
    } else {
        assert(path[k - 1] == path.subrange(i, i + name.len())[name.len() - 2]);
        assert(!is_separator(style, false, name[name.len() - 2]));
    }
}

/// A path has at most one last component: two normal components that both
/// stand last in the same path are the same.
pub proof fn lemma_last_component_unique(
    style: PathStyle,
    path: Seq<char>,
    a: Seq<char>,
    b: Seq<char>,
)
    requires
        is_normal_component(style, a),
        is_normal_component(style, b),
        ends_with_component(style, path, a),
        ends_with_component(style, path, b),
    ensures
        a == b,
{
    let v = prefix_verbatim(style, path);
    let i1: int = choose|i: int| last_component_at(style, path, a, i);
    let i2: int = choose|i: int| last_component_at(style, path, b, i);
    let e1: int = i1 + a.len();
    let e2: int = i2 + b.len();
    if e1 < e2 {
        lemma_name_end_is_not_noise(style, path, b, i2);
        assert(is_noise_at(style, path, e2 - 1));
    }
    if e2 < e1 {
        lemma_name_end_is_not_noise(style, path, a, i1);
        assert(is_noise_at(style, path, e1 - 1));
    }
    assert(e1 == e2);
    if i1 > i2 {
        assert(path[i1 - 1] == path.subrange(i2, e2)[i1 - 1 - i2]);
        assert(!is_separator(style, false, b[i1 - 1 - i2]));
        assert(!is_separator(style, v, path[i1 - 1]));
    }
    if i2 > i1 {
        assert(path[i2 - 1] == path.subrange(i1, e1)[i2 - 1 - i1]);
        assert(!is_separator(style, false, a[i2 - 1 - i1]));
        assert(!is_separator(style, v, path[i2 - 1]));
    }
    assert(i1 == i2);
    assert(a =~= path.subrange(i1, e1));
    assert(b =~= path.subrange(i2, e2));
}

/// A Windows base that is just a drive, such as `C:`.
pub open spec fn is_bare_drive(style: PathStyle, base: Seq<char>) -> bool {
    style == PathStyle::Windows && base.len() == 2 && base[1] == ':' && is_ascii_letter(base[0])
}

/// Joining a relative path (no prefix, not starting with a separator) onto a
/// base that is not verbatim keeps the whole base and then the whole path:
/// the result is `base + p` when the base is empty, ends in a separator or is
/// just a drive such as `C:`, and `base`, the main separator, `p` otherwise.
pub proof fn law_join_relative_keeps_base(style: PathStyle, base: Seq<char>, p: Seq<char>)
    requires
        !prefix_verbatim(style, base),
        prefix_len(style, p) == 0,
        p.len() == 0 || !is_separator(style, false, p[0]),
    ensures
        base.len() == 0 || is_separator(style, false, base.last()) || is_bare_drive(style, base)
            ==> spec_join(style, base, p) == base + p,
        !(base.len() == 0 || is_separator(style, false, base.last()) || is_bare_drive(style, base))
            ==> spec_join(style, base, p) == base + seq![main_separator(style)] + p,
        spec_join(style, base, p).subrange(0, base.len() as int) == base,
{
    assert(!replaces_base(style, p));
    if style == PathStyle::Windows {
        if is_bare_drive(style, base) {
            assert(windows_prefix(base) == (2int, false, true));
        }
        if base.len() > 0 && prefix_len(style, base) > 0 && prefix_len(style, base) == base.len()
            && prefix_is_drive(style, base) {
            assert(is_bare_drive(style, base));
        }
    }
    assert((base + p).subrange(0, base.len() as int) =~= base);
    assert((base + seq![main_separator(style)] + p).subrange(0, base.len() as int) =~= base);
}

} // verus!
