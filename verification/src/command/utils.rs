//! Utility functions for commands.
use vstd::prelude::*;
use crate::path::{
    ends_with_component, ends_with_component_exec, is_normal_component, last_component_at,
    lemma_join_keeps_last_component, lemma_last_component_unique, prefix_len, prefix_verbatim,
    spec_join, PathStyle, is_separator, main_separator,
};

verus! {

/// What the file system reported of one path: its text and whether it exists
/// and is a directory.
#[derive(Debug)]
pub struct PathStatus {
    /// The path's text.
    pub path: String,
    /// The path exists.
    pub exists: bool,
    /// The path is a directory.
    pub is_dir: bool,
}

/// The name of the package directory.
pub open spec fn pkg_name() -> Seq<char> {
    seq!['p', 'k', 'g']
}

/// The path given, or the current directory `.` where none is.
pub open spec fn spec_crate_path(path: Option<Seq<char>>) -> Seq<char> {
    match path {
        Some(p) => p,
        None => seq!['.'],
    }
}

/// If an explicit path is given, then use it, otherwise assume the current
/// directory is the crate path. The result is the path that is then
/// canonicalized.
pub fn set_crate_path(path: Option<String>) -> (crate_path: String)
    ensures
        crate_path@ == spec_crate_path(
            match path {
                Some(p) => Some(p@),
                None => None,
            },
        ),
{
    match path {
        Some(p) => p,
        None => {
            proof {
                reveal_strlit(".");
            }
            String::from_str(".")
        },
    }
}

/// A path is a package directory when it exists, is a directory, and its
/// last component is `pkg`.
pub open spec fn spec_is_pkg_directory(style: PathStyle, status: PathStatus) -> bool {
    &&& status.exists
    &&& status.is_dir
    &&& ends_with_component(style, status.path@, pkg_name())
}

/// Whether `status` describes a package directory, under the path rules of
/// `style`.
pub fn is_pkg_directory(style: PathStyle, status: &PathStatus) -> (is_pkg: bool)
    ensures
        is_pkg == spec_is_pkg_directory(style, *status),
{
    proof {
        reveal_strlit("pkg");
        assert("pkg"@ =~= pkg_name());
        assert(is_normal_component(style, pkg_name()));
    }
    status.exists && status.is_dir && ends_with_component_exec(style, status.path.as_str(), "pkg")
}

/// The directory entry at `i` was read and is a package directory.
pub open spec fn entry_is_pkg_directory(style: PathStyle, entries: Seq<Option<PathStatus>>, i: int) -> bool {
    match entries[i] {
        Some(e) => spec_is_pkg_directory(style, e),
        None => false,
    }
}

/// The entry at `i` is the first package directory of the listing.
pub open spec fn is_first_pkg_entry(style: PathStyle, entries: Seq<Option<PathStatus>>, i: int) -> bool {
    &&& 0 <= i < entries.len()
    &&& entry_is_pkg_directory(style, entries, i)
    &&& forall|j: int| 0 <= j < i ==> !#[trigger] entry_is_pkg_directory(style, entries, j)
}

/// Locates the pkg directory from a specific path: the path itself when it is
/// one, otherwise the first entry of its listing that is one. `entries` is the
/// listing of `path` in the order the directory was read (`None` where it
/// could not be read), each entry `None` where it could not be read.
/// Paths are read under the rules of `style`.
/// Returns None if unable to find the 'pkg' directory.
pub fn find_pkg_directory(style: PathStyle, path: &PathStatus, entries: Option<Vec<Option<PathStatus>>>) -> (found:
    Option<String>)
    ensures
        spec_is_pkg_directory(style, *path) ==> (found matches Some(p) && p@ == path.path@),
        !spec_is_pkg_directory(style, *path) && entries is None ==> found is None,
        !spec_is_pkg_directory(style, *path) && entries is Some ==> {
            let es = entries->0@;
            &&& found is None <==> forall|j: int|
                0 <= j < es.len() ==> !#[trigger] entry_is_pkg_directory(style, es, j)
            &&& found matches Some(p) ==> exists|i: int|
                #[trigger] is_first_pkg_entry(style, es, i) && p@ == es[i]->0.path@
        },
{
    if is_pkg_directory(style, path) {
        return Some(path.path.clone());
    }
    match &entries {
        None => None,
        Some(es) => {
            let n: usize = es.len();
            let mut i: usize = 0;
            while i < n
                invariant
                    n == es@.len(),
                    i <= n,
                    !spec_is_pkg_directory(style, *path),
                    entries matches Some(all) && all@ == es@,
                    forall|j: int| 0 <= j < i ==> !#[trigger] entry_is_pkg_directory(style, es@, j),
                decreases n - i,
            {
                match &es[i] {
                    Some(e) => {
                        if is_pkg_directory(style, e) {
                            assert(is_first_pkg_entry(style, es@, i as int));
                            return Some(e.path.clone());
                        }
                    },
                    None => {},
                }
                i = i + 1;
            }
            None
        },
    }
}

/// The verbatim prefix `\\?\` that Windows puts before a canonical path, as
/// UTF-16 code units.
pub open spec fn verbatim_prefix() -> Seq<u16> {
    seq![92u16, 92u16, 63u16, 92u16]
}

/// The verbatim prefix `\\?\UNC\` that Windows puts before the canonical path
/// of a network share, as UTF-16 code units.
pub open spec fn verbatim_unc_prefix() -> Seq<u16> {
    seq![92u16, 92u16, 63u16, 92u16, 85u16, 78u16, 67u16, 92u16]
}

/// The UNC prefix `\\` that starts the usual form of a network share path.
pub open spec fn unc_prefix() -> Seq<u16> {
    seq![92u16, 92u16]
}

/// A canonical Windows path in its usual form: a network share
/// `\\?\UNC\server\share\..` becomes `\\server\share\..`, a path
/// `\\?\C:\..` becomes `C:\..`, and any other path is kept.
pub open spec fn spec_strip_unc_prefix(wide: Seq<u16>) -> Seq<u16> {
    if wide.len() >= 8 && wide.subrange(0, 8) == verbatim_unc_prefix() {
        unc_prefix() + wide.subrange(8, wide.len() as int)
    } else if wide.subrange(0, 4) == verbatim_prefix() {
        wide.subrange(4, wide.len() as int)
    } else {
        wide
    }
}

/// Strips the verbatim prefix from a canonical path on Windows, given as
/// UTF-16 code units, so that the path keeps naming the same place in its
/// usual form. See https://github.com/rust-lang/rust/issues/42869 for why this
/// is needed.
pub fn strip_unc_prefix(wide: &[u16]) -> (stripped: Vec<u16>)
    requires
        wide@.len() >= 4,
    ensures
        stripped@ == spec_strip_unc_prefix(wide@),
{
    let n: usize = wide.len();
    let verbatim: bool = wide[0] == 92 && wide[1] == 92 && wide[2] == 63 && wide[3] == 92;
    let verbatim_unc: bool = verbatim && n >= 8 && wide[4] == 85 && wide[5] == 78 && wide[6] == 67
        && wide[7] == 92;
    proof {
        if verbatim {
            assert(wide@.subrange(0, 4) =~= verbatim_prefix());
        } else {
            assert(wide@.subrange(0, 4)[0] == wide@[0]);
            assert(wide@.subrange(0, 4)[1] == wide@[1]);
            assert(wide@.subrange(0, 4)[2] == wide@[2]);
            assert(wide@.subrange(0, 4)[3] == wide@[3]);
            assert(wide@.subrange(0, 4) != verbatim_prefix());
        }
        if n >= 8 {
            if verbatim_unc {
                assert(wide@.subrange(0, 8) =~= verbatim_unc_prefix());
            } else {
                let head = wide@.subrange(0, 8);
                assert(forall|k: int| 0 <= k < 8 ==> head[k] == wide@[k]);
                assert(head != verbatim_unc_prefix()) by {
                    if head == verbatim_unc_prefix() {
                        assert(head[0] == 92u16 && head[1] == 92u16 && head[2] == 63u16);
                        assert(head[3] == 92u16 && head[4] == 85u16 && head[5] == 78u16);
                        assert(head[6] == 67u16 && head[7] == 92u16);
                    }
                }
            }
        }
    }
    let mut stripped: Vec<u16> = Vec::new();
    let start: usize = if verbatim_unc {
        stripped.push(92);
        stripped.push(92);
        8
    } else if verbatim {
        4
    } else {
        0
    };
    let ghost kept: Seq<u16> = stripped@;
    let mut i: usize = start;
    while i < n
        invariant
            n == wide@.len(),
            start <= i <= n,
            stripped@ == kept + wide@.subrange(start as int, i as int),
        decreases n - i,
    {
        stripped.push(wide[i]);
        assert(wide@.subrange(start as int, i + 1) =~= wide@.subrange(start as int, i as int).push(
            wide@[i as int],
        ));
        i = i + 1;
    }
    proof {
        if verbatim_unc {
            assert(kept =~= unc_prefix());
        } else {
            assert(kept =~= Seq::<u16>::empty());
            if !verbatim {
                assert(wide@.subrange(0, n as int) =~= wide@);
            }
        }
        assert(stripped@ =~= kept + wide@.subrange(start as int, n as int));
    }
    stripped
}

/// Taking the verbatim prefix off `\\?\` followed by a drive path (a drive
/// letter and `:`) gives that drive path back.
pub proof fn law_strip_verbatim_drive_path(q: Seq<u16>)
    requires
        q.len() >= 2,
        (65u16 <= q[0] <= 90u16) || (97u16 <= q[0] <= 122u16),
        q[1] == 58u16,
    ensures
        spec_strip_unc_prefix(verbatim_prefix() + q) == q,
{
    let w = verbatim_prefix() + q;
    assert(w[5] == q[1]);
    if w.len() >= 8 {
        assert(w.subrange(0, 8)[5] == w[5]);
        assert(w.subrange(0, 8) != verbatim_unc_prefix());
    }
    assert(w.subrange(0, 4) =~= verbatim_prefix());
    assert(w.subrange(4, w.len() as int) =~= q);
}

/// A normal name joined onto a base that is not verbatim stays the last
/// component, unless the join folds it into a Windows prefix or makes a
/// verbatim path.
proof fn lemma_joined_name_is_last(style: PathStyle, base: Seq<char>, name: Seq<char>)
    requires
        is_normal_component(style, name),
        prefix_len(style, name) == 0,
        !prefix_verbatim(style, base),
        prefix_len(style, spec_join(style, base, name)) <= spec_join(style, base, name).len()
            - name.len(),
        !prefix_verbatim(style, spec_join(style, base, name)),
    ensures
        ends_with_component(style, spec_join(style, base, name), name),
{
    assert(name.subrange(0, name.len() as int) =~= name);
    assert(last_component_at(style, name, name, 0));
    assert(!crate::path::is_separator(style, false, name[0]));
    lemma_join_keeps_last_component(style, base, name, name);
}

/// Once a directory named `pkg` is listed under a path that is not itself a
/// package directory, the search finds it: it is the first package directory
/// of the listing and the only one. The listing is what reading a directory
/// gives: each readable entry is the path joined with a name of its own, and
/// no two entries share a name. On Windows, joins that fold a name into the
/// path's prefix or make a verbatim path are left out, as is a verbatim path.
pub proof fn law_listed_pkg_child_is_found(
    style: PathStyle,
    dir: PathStatus,
    entries: Seq<Option<PathStatus>>,
    names: Seq<Seq<char>>,
    k: int,
)
    requires
        !spec_is_pkg_directory(style, dir),
        !prefix_verbatim(style, dir.path@),
        names.len() == entries.len(),
        forall|j: int|
            0 <= j < entries.len() && #[trigger] entries[j] is Some ==> {
                let joined = spec_join(style, dir.path@, names[j]);
                &&& is_normal_component(style, names[j])
                &&& prefix_len(style, names[j]) == 0
                &&& entries[j]->0.path@ == joined
                &&& prefix_len(style, joined) <= joined.len() - names[j].len()
                &&& !prefix_verbatim(style, joined)
            },
        forall|i: int, j: int|
            0 <= i < entries.len() && 0 <= j < entries.len() && i != j && entries[i] is Some
                && entries[j] is Some ==> names[i] != names[j],
        0 <= k < entries.len(),
        names[k] == pkg_name(),
        entries[k] matches Some(e) && e.exists && e.is_dir,
    ensures
        entries[k]->0.path@ == spec_join(style, dir.path@, pkg_name()),
        is_first_pkg_entry(style, entries, k),
        forall|i: int| #[trigger] is_first_pkg_entry(style, entries, i) ==> i == k,
{
    assert(entries[k] is Some);
    lemma_joined_name_is_last(style, dir.path@, pkg_name());
    assert(entry_is_pkg_directory(style, entries, k));
    assert forall|j: int| 0 <= j < entries.len() && j != k implies !#[trigger] entry_is_pkg_directory(
        style,
        entries,
        j,
    ) by {
        if entries[j] is Some && entry_is_pkg_directory(style, entries, j) {
            let joined = spec_join(style, dir.path@, names[j]);
            lemma_joined_name_is_last(style, dir.path@, names[j]);
            assert(is_normal_component(style, pkg_name()));
            lemma_last_component_unique(style, joined, names[j], pkg_name());
        }
    }
}

/// Whenever a path is given, the crate path is exactly that path, relative or
/// absolute; the current directory `.` is chosen only when no path is given
/// (or `.` itself is).
pub proof fn law_given_crate_path_is_kept(path: Option<Seq<char>>)
    ensures
        forall|p: Seq<char>| path == Some(p) ==> spec_crate_path(path) == p,
        spec_crate_path(path) == seq!['.'] ==> (path is None || path == Some(seq!['.'])),
        path is None ==> spec_crate_path(path) == seq!['.'],
{
}

/// Whether a path is a package directory does not depend on trailing
/// separators: a path and the same path with one more separator at its end
/// (where that leaves its prefix as it is) are classified alike.
pub proof fn law_trailing_separator_keeps_pkg_directory(
    style: PathStyle,
    s: PathStatus,
    t: PathStatus,
)
    requires
        t.exists == s.exists,
        t.is_dir == s.is_dir,
        t.path@ == s.path@.push(main_separator(style)),
        prefix_len(style, t.path@) == prefix_len(style, s.path@),
        prefix_verbatim(style, t.path@) == prefix_verbatim(style, s.path@),
    ensures
        spec_is_pkg_directory(style, t) == spec_is_pkg_directory(style, s),
{
    let a = s.path@;
    let b = t.path@;
    let v = prefix_verbatim(style, a);
    assert(is_separator(style, v, b[a.len() as int]));
    assert forall|k: int| 0 <= k < a.len() implies b[k] == #[trigger] a[k] by {}
    assert forall|k: int| 0 <= k < a.len() implies #[trigger] crate::path::is_noise_at(style, a, k)
        == crate::path::is_noise_at(style, b, k) by {
        if k + 1 < a.len() {
            assert(b[k + 1] == a[k + 1]);
        }
        if k > 0 {
            assert(b[k - 1] == a[k - 1]);
        }
    }
    if ends_with_component(style, a, pkg_name()) {
        let i: int = choose|i: int| last_component_at(style, a, pkg_name(), i);
        assert(b.subrange(i, i + 3) =~= a.subrange(i, i + 3));
        assert(crate::path::is_noise_at(style, b, a.len() as int));
        if i > prefix_len(style, a) {
            assert(b[i - 1] == a[i - 1]);
        }
        assert forall|k: int| i + 3 <= k < b.len() implies #[trigger] crate::path::is_noise_at(
            style,
            b,
            k,
        ) by {
            if k < a.len() {
                assert(crate::path::is_noise_at(style, a, k));
            }
        }
        assert(last_component_at(style, b, pkg_name(), i));
    }
    if ends_with_component(style, b, pkg_name()) {
        let i: int = choose|i: int| last_component_at(style, b, pkg_name(), i);
        if i + 3 > a.len() {
            assert(b[a.len() as int] == b.subrange(i, i + 3)[a.len() - i]);
            assert(!is_separator(style, false, pkg_name()[a.len() - i]));
        }
        assert(b.subrange(i, i + 3) =~= a.subrange(i, i + 3));
        if i > prefix_len(style, a) {
            assert(b[i - 1] == a[i - 1]);
        }
        assert forall|k: int| i + 3 <= k < a.len() implies #[trigger] crate::path::is_noise_at(
            style,
            a,
            k,
        ) by {
            assert(crate::path::is_noise_at(style, b, k));
        }
        assert(last_component_at(style, a, pkg_name(), i));
    }
}

/// A directory whose path is a base that is not verbatim, a separator and
/// `pkg` is a package directory, whatever separators follow it, unless on
/// Windows the path's prefix takes in `pkg` or the path is verbatim.
pub proof fn law_dir_named_pkg_is_pkg_directory(
    style: PathStyle,
    base: Seq<char>,
    trailing: nat,
    status: PathStatus,
)
    requires
        status.path@ == base + seq![main_separator(style)] + pkg_name() + Seq::new(
            trailing,
            |k: int| main_separator(style),
        ),
        prefix_len(style, status.path@) <= base.len() + 1,
        !prefix_verbatim(style, status.path@),
        status.exists,
        status.is_dir,
    ensures
        spec_is_pkg_directory(style, status),
{
    let s = status.path@;
    let i: int = base.len() as int + 1;
    assert(s[i - 1] == main_separator(style));
    assert(s.subrange(i, i + 3) =~= pkg_name());
    assert forall|k: int| i + 3 <= k < s.len() implies #[trigger] crate::path::is_noise_at(
        style,
        s,
        k,
    ) by {
        assert(s[k] == main_separator(style));
    }
    assert(last_component_at(style, s, pkg_name(), i));
}

} // verus!
