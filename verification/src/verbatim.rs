//! Joining a relative path onto a verbatim Windows path. A verbatim path is
//! not normalized when it is read, so `PathBuf::push` rebuilds the joined path
//! from components: it reads the base's components, applies the new path's
//! components to them (a root keeps only the prefix, `.` is dropped, `..`
//! removes a preceding normal component), and writes them out with `\`
//! between them.
use vstd::prelude::*;
use crate::path::{
    is_separator, is_separator_char, next_separator, prefix_is_drive, prefix_len, prefix_of,
    PathStyle, lemma_next_separator_bounds, next_separator_exec,
};

verus! {

/// The kind of a path component.
#[derive(Clone, Copy, Debug, PartialEq, Eq, Structural)]
pub enum ComponentKind {
    /// The prefix of a Windows path.
    Prefix,
    /// The root separator.
    RootDir,
    /// A `.` component, which only verbatim paths keep.
    CurDir,
    /// A `..` component.
    ParentDir,
    /// Any other component.
    Normal,
}

/// A component with its text.
pub type Component = (ComponentKind, Seq<char>);

/// The components that one segment between separators stands for: none for
/// an empty segment or (outside verbatim paths) for `.`.
pub open spec fn classify(seg: Seq<char>, verbatim: bool) -> Seq<Component> {
    if seg.len() == 0 {
        seq![]
    } else if seg == seq!['.'] {
        if verbatim {
            seq![(ComponentKind::CurDir, seg)]
        } else {
            seq![]
        }
    } else if seg == seq!['.', '.'] {
        seq![(ComponentKind::ParentDir, seg)]
    } else {
        seq![(ComponentKind::Normal, seg)]
    }
}

/// The components of the segments of `s` from `from` on.
pub open spec fn body_components(s: Seq<char>, from: int, verbatim: bool) -> Seq<Component>
    decreases s.len() - from,
{
    if from < 0 || from > s.len() {
        seq![]
    } else {
        let e = next_separator(s, from, verbatim);
        let here = classify(s.subrange(from, e), verbatim);
        if e >= s.len() {
            here
        } else {
            proof {
                lemma_next_separator_bounds(s, from, verbatim);
            }
            here + body_components(s, e + 1, verbatim)
        }
    }
}

/// The root component, whose text is the main separator.
pub open spec fn root_component() -> Component {
    (ComponentKind::RootDir, seq!['\\'])
}

/// The components of a verbatim Windows path: its prefix, its root if a `\`
/// follows the prefix, and the components of the rest.
pub open spec fn verbatim_components(b: Seq<char>) -> Seq<Component> {
    let pl = prefix_len(PathStyle::Windows, b);
    seq![(ComponentKind::Prefix, b.subrange(0, pl))] + (if pl < b.len() && b[pl] == '\\' {
        seq![root_component()]
    } else {
        seq![]
    }) + body_components(b, pl, true)
}

/// The components of a Windows path without a prefix.
pub open spec fn plain_components(p: Seq<char>) -> Seq<Component> {
    (if p.len() > 0 && is_separator(PathStyle::Windows, false, p[0]) {
        seq![root_component()]
    } else {
        seq![]
    }) + body_components(p, 0, false)
}

/// One component applied to the components built so far.
pub open spec fn push_one(buf: Seq<Component>, c: Component) -> Seq<Component> {
    match c.0 {
        ComponentKind::RootDir => (if buf.len() > 1 {
            buf.take(1)
        } else {
            buf
        }).push(c),
        ComponentKind::CurDir => buf,
        ComponentKind::ParentDir => if buf.len() > 0 && buf.last().0 == ComponentKind::Normal {
            buf.drop_last()
        } else {
            buf
        },
        _ => buf.push(c),
    }
}

/// The components in `parts` applied in order.
pub open spec fn push_all(buf: Seq<Component>, parts: Seq<Component>) -> Seq<Component>
    decreases parts.len(),
{
    if parts.len() == 0 {
        buf
    } else {
        push_all(push_one(buf, parts[0]), parts.drop_first())
    }
}

/// Whether a separator follows component `c` when the next is written.
pub open spec fn separator_after(c: Component, drive: bool) -> bool {
    match c.0 {
        ComponentKind::RootDir => false,
        ComponentKind::Prefix => !drive && c.1.len() > 0,
        _ => true,
    }
}

/// The components written out: each after a `\` where the one before asks for
/// a separator and it is not the root.
pub open spec fn render(buf: Seq<Component>, need_sep: bool, drive: bool) -> Seq<char>
    decreases buf.len(),
{
    if buf.len() == 0 {
        seq![]
    } else {
        let c = buf[0];
        let lead = if need_sep && c.0 != ComponentKind::RootDir {
            seq!['\\']
        } else {
            seq![]
        };
        lead + c.1 + render(buf.drop_first(), separator_after(c, drive), drive)
    }
}

/// `base.join(p)` for a verbatim Windows `base` and a `p` without a prefix.
pub open spec fn spec_verbatim_join(base: Seq<char>, p: Seq<char>) -> Seq<char> {
    render(
        push_all(verbatim_components(base), plain_components(p)),
        false,
        prefix_is_drive(PathStyle::Windows, base),
    )
}

/// A component, as the running code holds it.
pub struct PathPart {
    /// Its kind.
    pub kind: ComponentKind,
    /// Its text.
    pub text: String,
}

/// The components that `parts` hold.
pub open spec fn parts_view(parts: Seq<PathPart>) -> Seq<Component> {
    parts.map_values(|q: PathPart| (q.kind, q.text@))
}

fn classify_exec(seg: &str, verbatim: bool, parts: &mut Vec<PathPart>)
    ensures
        parts_view(final(parts)@) == parts_view(old(parts)@) + classify(seg@, verbatim),
{
    let n: usize = seg.unicode_len();
    let ghost before = parts_view(parts@);
    if n == 0 {
        assert(parts_view(parts@) =~= before + classify(seg@, verbatim));
        return ;
    }
    let dot: bool = n == 1 && seg.get_char(0) == '.';
    let dots: bool = n == 2 && seg.get_char(0) == '.' && seg.get_char(1) == '.';
    proof {
        if dot {
            assert(seg@ =~= seq!['.']);
        } else if seg@ == seq!['.'] {
            assert(seg@[0] == '.');
        }
        if dots {
            assert(seg@ =~= seq!['.', '.']);
        } else if seg@ == seq!['.', '.'] {
            assert(seg@[0] == '.' && seg@[1] == '.');
        }
    }
    let kind: ComponentKind = if dot {
        ComponentKind::CurDir
    } else if dots {
        ComponentKind::ParentDir
    } else {
        ComponentKind::Normal
    };
    if dot && !verbatim {
        assert(parts_view(parts@) =~= before + classify(seg@, verbatim));
        return ;
    }
    parts.push(PathPart { kind, text: String::from_str(seg) });
    assert(parts_view(parts@) =~= before + classify(seg@, verbatim));
}

/// Reads the components of the segments of `s` from `from` on.
fn read_body(s: &str, from: usize, verbatim: bool, parts: &mut Vec<PathPart>)
    requires
        from <= s@.len(),
    ensures
        parts_view(final(parts)@) == parts_view(old(parts)@) + body_components(
            s@,
            from as int,
            verbatim,
        ),
{
    let n: usize = s.unicode_len();
    let ghost before = parts_view(parts@);
    let mut at: usize = from;
    loop
        invariant
            n == s@.len(),
            from <= at <= n,
            before == parts_view(old(parts)@),
            before + body_components(s@, from as int, verbatim) == parts_view(parts@)
                + body_components(s@, at as int, verbatim),
        decreases n - at,
    {
        let e: usize = next_separator_exec(s, at, verbatim);
        let seg: &str = s.substring_char(at, e);
        let ghost mid = parts_view(parts@);
        classify_exec(seg, verbatim, parts);
        if e >= n {
            assert(body_components(s@, at as int, verbatim) == classify(seg@, verbatim));
            assert(parts_view(parts@) == mid + body_components(s@, at as int, verbatim));
            assert(parts_view(parts@) == before + body_components(s@, from as int, verbatim)) by {
                assert(mid + body_components(s@, at as int, verbatim) == before + body_components(s@, from as int, verbatim));
            }
            return ;
        }
        assert(body_components(s@, at as int, verbatim) == classify(seg@, verbatim)
            + body_components(s@, e + 1, verbatim));
        assert(mid + body_components(s@, at as int, verbatim) =~= parts_view(parts@)
            + body_components(s@, e + 1, verbatim));
        at = e + 1;
    }
}

/// Applies one component to the components built so far.
fn push_one_exec(buf: &mut Vec<PathPart>, c: PathPart)
    ensures
        parts_view(final(buf)@) == push_one(parts_view(old(buf)@), (c.kind, c.text@)),
{
    let ghost before = parts_view(buf@);
    match c.kind {
        ComponentKind::RootDir => {
            if buf.len() > 1 {
                let ghost full = buf@;
                buf.truncate(1);
                assert(buf@ =~= full.take(1));
                assert(parts_view(buf@) =~= before.take(1));
            }
            let ghost kept = parts_view(buf@);
            buf.push(c);
            assert(parts_view(buf@) =~= kept.push((c.kind, c.text@)));
        },
        ComponentKind::CurDir => {},
        ComponentKind::ParentDir => {
            let n: usize = buf.len();
            if n > 0 && buf[n - 1].kind == ComponentKind::Normal {
                assert(before.last().0 == buf@[n - 1].kind);
                let _ = buf.pop();
                assert(parts_view(buf@) =~= before.drop_last());
            }
        },
        _ => {
            buf.push(c);
            assert(parts_view(buf@) =~= before.push((c.kind, c.text@)));
        },
    }
}

/// Writes out the components.
fn render_exec(buf: &Vec<PathPart>, drive: bool) -> (out: String)
    ensures
        out@ == render(parts_view(buf@), false, drive),
{
    let n: usize = buf.len();
    let mut out = String::from_str("");
    proof {
        reveal_strlit("");
        reveal_strlit("\\");
    }
    let mut need_sep: bool = false;
    let mut k: usize = 0;
    assert(parts_view(buf@).skip(0) =~= parts_view(buf@));
    assert(out@ =~= Seq::<char>::empty());
    assert(out@ + render(parts_view(buf@), false, drive) =~= render(parts_view(buf@), false, drive));
    while k < n
        invariant
            n == buf@.len(),
            k <= n,
            out@ + render(parts_view(buf@).skip(k as int), need_sep, drive) == render(
                parts_view(buf@),
                false,
                drive,
            ),
        decreases n - k,
    {
        proof {
            reveal_strlit("\\");
        }
        let ghost rest = parts_view(buf@).skip(k as int);
        let ghost old_need = need_sep;
        let ghost before = out@;
        let c: &PathPart = &buf[k];
        assert(rest[0] == (c.kind, c.text@));
        assert(rest.drop_first() =~= parts_view(buf@).skip(k + 1));
        let lead: bool = need_sep && c.kind != ComponentKind::RootDir;
        if lead {
            out.append("\\");
        }
        out.append(c.text.as_str());
        need_sep = match c.kind {
            ComponentKind::RootDir => false,
            ComponentKind::Prefix => !drive && c.text.as_str().unicode_len() > 0,
            _ => true,
        };
        proof {
            let lead_seq: Seq<char> = if lead {
                seq!['\\']
            } else {
                seq![]
            };
            assert(out@ =~= before + lead_seq + c.text@);
            assert(need_sep == separator_after(rest[0], drive));
            assert(render(rest, old_need, drive) == lead_seq + c.text@ + render(
                rest.drop_first(),
                need_sep,
                drive,
            ));
            assert(out@ + render(parts_view(buf@).skip(k + 1), need_sep, drive) =~= before
                + render(rest, old_need, drive));
        }
        k = k + 1;
    }
    assert(parts_view(buf@).skip(n as int) =~= Seq::<Component>::empty());
    assert(out@ =~= out@ + render(Seq::<Component>::empty(), need_sep, drive));
    out
}

fn root_part() -> (part: PathPart)
    ensures
        (part.kind, part.text@) == root_component(),
{
    proof {
        reveal_strlit("\\");
    }
    PathPart { kind: ComponentKind::RootDir, text: String::from_str("\\") }
}

/// `base.join(p)` for a verbatim Windows `base`: the components of `p` applied
/// to those of `base`, written out with `\` between them.
pub fn verbatim_join(base: &str, p: &str) -> (joined: String)
    ensures
        joined@ == spec_verbatim_join(base@, p@),
{
    let w = PathStyle::Windows;
    let (pl, _v, drive) = prefix_of(w, base);
    let bn: usize = base.unicode_len();
    let mut buf: Vec<PathPart> = Vec::new();
    buf.push(PathPart { kind: ComponentKind::Prefix, text: String::from_str(base.substring_char(0, pl)) });
    if pl < bn && base.get_char(pl) == '\\' {
        buf.push(root_part());
    }
    read_body(base, pl, true, &mut buf);
    assert(parts_view(buf@) =~= verbatim_components(base@));
    let pn: usize = p.unicode_len();
    let mut parts: Vec<PathPart> = Vec::new();
    if pn > 0 && is_separator_char(w, false, p.get_char(0)) {
        parts.push(root_part());
    }
    read_body(p, 0, false, &mut parts);
    assert(parts_view(parts@) =~= plain_components(p@));
    let ghost start = parts_view(buf@);
    let ghost pv = parts_view(parts@);
    let m: usize = parts.len();
    let mut k: usize = 0;
    assert(pv.skip(0) =~= pv);
    while k < m
        invariant
            m == parts@.len(),
            k <= m,
            pv == parts_view(parts@),
            push_all(parts_view(buf@), pv.skip(k as int)) == push_all(start, pv),
        decreases m - k,
    {
        let ghost rest = pv.skip(k as int);
        assert(rest[0] == (parts[k as int].kind, parts[k as int].text@));
        assert(rest.drop_first() =~= pv.skip(k + 1));
        let c = PathPart { kind: parts[k].kind, text: parts[k].text.clone() };
        push_one_exec(&mut buf, c);
        k = k + 1;
    }
    assert(pv.skip(m as int) =~= Seq::<Component>::empty());
    render_exec(&buf, drive)
}

} // verus!
