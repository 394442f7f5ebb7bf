//! Unix paths as bytes, compared component by component as the standard
//! library's `Path` compares them: repeated separators, a trailing
//! separator and `.` components (but a leading one) do not count.

use crate::text::bytes_eq_bytes;
use vstd::prelude::*;

verus! {

/// A component of a path.
#[derive(Debug)]
pub enum Component {
    /// The leading `/`.
    RootDir,
    /// A leading `.`.
    CurDir,
    /// A `..`.
    ParentDir,
    /// Any other name.
    Normal(Vec<u8>),
}

/// The mathematical value of a [`Component`].
pub enum ComponentView {
    RootDir,
    CurDir,
    ParentDir,
    Normal(Seq<u8>),
}

impl View for Component {
    type V = ComponentView;

    open spec fn view(&self) -> ComponentView {
        match self {
            Component::RootDir => ComponentView::RootDir,
            Component::CurDir => ComponentView::CurDir,
            Component::ParentDir => ComponentView::ParentDir,
            Component::Normal(n) => ComponentView::Normal(n@),
        }
    }
}

/// The views of a list of components.
pub open spec fn components_view(c: Seq<Component>) -> Seq<ComponentView> {
    c.map_values(|x: Component| x@)
}

/// The separator `/`.
pub open spec fn is_sep(b: u8) -> bool {
    b == 0x2fu8
}

/// The end of the segment that starts at `i`: the next separator, or the end.
pub open spec fn seg_end(p: Seq<u8>, i: nat) -> nat
    decreases p.len() - i,
{
    if i >= p.len() {
        p.len()
    } else if is_sep(p[i as int]) {
        i
    } else {
        seg_end(p, i + 1)
    }
}

/// `.`
pub open spec fn dot() -> Seq<u8> {
    seq![0x2eu8]
}

/// `..`
pub open spec fn dot_dot() -> Seq<u8> {
    seq![0x2eu8, 0x2eu8]
}

/// The component a segment between separators stands for, if any: empty
/// segments and `.` stand for none.
pub open spec fn segment_component(seg: Seq<u8>) -> Seq<ComponentView> {
    if seg.len() == 0 || seg == dot() {
        Seq::empty()
    } else if seg == dot_dot() {
        seq![ComponentView::ParentDir]
    } else {
        seq![ComponentView::Normal(seg)]
    }
}

/// The components of the segments from `start` on.
pub open spec fn components_from(p: Seq<u8>, start: nat) -> Seq<ComponentView>
    decreases p.len() + 1 - start,
{
    if start > p.len() {
        Seq::empty()
    } else {
        let e = seg_end(p, start);
        let head = segment_component(p.subrange(start as int, e as int));
        if e >= p.len() {
            head
        } else {
            proof {
                lemma_seg_end(p, start);
            }
            head + components_from(p, e + 1)
        }
    }
}

/// The components of a path.
pub open spec fn spec_components(p: Seq<u8>) -> Seq<ComponentView> {
    if p.len() == 0 {
        Seq::empty()
    } else if is_sep(p[0]) {
        seq![ComponentView::RootDir] + components_from(p, 1)
    } else if p.subrange(0, seg_end(p, 0) as int) == dot() {
        if seg_end(p, 0) >= p.len() {
            seq![ComponentView::CurDir]
        } else {
            seq![ComponentView::CurDir] + components_from(p, seg_end(p, 0) + 1)
        }
    } else {
        components_from(p, 0)
    }
}

/// A segment ends at the next separator, or at the end, and not before it starts.
pub proof fn lemma_seg_end(p: Seq<u8>, i: nat)
    ensures
        i <= p.len() ==> i <= seg_end(p, i) <= p.len(),
        i > p.len() ==> seg_end(p, i) == p.len(),
        seg_end(p, i) < p.len() ==> is_sep(p[seg_end(p, i) as int]),
        forall|j: int| i <= j < seg_end(p, i) ==> !is_sep(p[j]),
    decreases p.len() - i,
{
    if i < p.len() && !is_sep(p[i as int]) {
        lemma_seg_end(p, i + 1);
    }
}

/// The end of the segment starting at `i`.
fn find_seg_end(p: &[u8], i: usize) -> (r: usize)
    requires
        i <= p@.len(),
    ensures
        r == seg_end(p@, i as nat),
        i <= r <= p@.len(),
{
    let mut j = i;
    while j < p.len() && p[j] != 0x2f
        invariant
            i <= j <= p@.len(),
            seg_end(p@, j as nat) == seg_end(p@, i as nat),
        decreases p@.len() - j,
    {
        j = j + 1;
    }
    proof {
        lemma_seg_end(p@, j as nat);
    }
    j
}

/// Whether a segment is `.`.
fn is_dot(seg: &[u8]) -> (r: bool)
    ensures
        r == (seg@ == dot()),
{
    let r = seg.len() == 1 && seg[0] == 0x2e;
    proof {
        if r {
            assert(seg@ =~= dot());
        }
    }
    r
}

/// Whether a segment is `..`.
fn is_dot_dot(seg: &[u8]) -> (r: bool)
    ensures
        r == (seg@ == dot_dot()),
{
    let r = seg.len() == 2 && seg[0] == 0x2e && seg[1] == 0x2e;
    proof {
        if r {
            assert(seg@ =~= dot_dot());
        }
    }
    r
}

/// Appends the component of a segment, if it stands for one.
fn push_segment(out: &mut Vec<Component>, seg: &[u8])
    ensures
        components_view(final(out)@) == components_view(old(out)@) + segment_component(seg@),
{
    let ghost before = out@;
    if seg.len() == 0 || is_dot(seg) {
    } else if is_dot_dot(seg) {
        out.push(Component::ParentDir);
    } else {
        out.push(Component::Normal(crate::text::copy_bytes(seg)));
    }
    assert(components_view(out@) =~= components_view(before) + segment_component(seg@));
}

/// The components of the segments from `start` on, after `out`.
fn push_components_from(out: &mut Vec<Component>, p: &[u8], start: usize)
    requires
        start <= p@.len(),
    ensures
        components_view(final(out)@) == components_view(old(out)@) + components_from(
            p@,
            start as nat,
        ),
{
    let ghost before = components_view(out@);
    let mut s = start;
    loop
        invariant_except_break
            s <= p@.len(),
            before + components_from(p@, start as nat) == components_view(out@)
                + components_from(p@, s as nat),
        ensures
            components_view(out@) == before + components_from(p@, start as nat),
        decreases p@.len() - s,
    {
        let e = find_seg_end(p, s);
        let ghost mid = components_view(out@);
        push_segment(out, &p[s..e]);
        assert(p@.subrange(s as int, e as int) =~= p@.subrange(s as int, e as int));
        if e >= p.len() {
            assert(components_from(p@, s as nat) == segment_component(
                p@.subrange(s as int, e as int),
            ));
            break;
        }
        assert(components_from(p@, s as nat) == segment_component(p@.subrange(s as int, e as int))
            + components_from(p@, (e + 1) as nat));
        assert(mid + components_from(p@, s as nat) =~= components_view(out@) + components_from(
            p@,
            (e + 1) as nat,
        ));
        s = e + 1;
    }
}

/// The components of a path.
pub fn components(p: &[u8]) -> (r: Vec<Component>)
    ensures
        components_view(r@) == spec_components(p@),
{
    let mut out: Vec<Component> = Vec::new();
    if p.len() == 0 {
        assert(components_view(out@) =~= spec_components(p@));
        return out;
    }
    if p[0] == 0x2f {
        out.push(Component::RootDir);
        push_components_from(&mut out, p, 1);
        assert(components_view(out@) =~= spec_components(p@)) by {
            assert(components_view(seq![Component::RootDir]) =~= seq![ComponentView::RootDir]);
        }
        return out;
    }
    let e = find_seg_end(p, 0);
    if is_dot(&p[0..e]) {
        out.push(Component::CurDir);
        assert(components_view(out@) =~= seq![ComponentView::CurDir]);
        if e < p.len() {
            push_components_from(&mut out, p, e + 1);
        }
    } else {
        assert(components_view(out@) =~= Seq::<ComponentView>::empty());
        push_components_from(&mut out, p, 0);
    }
    assert(components_view(out@) =~= spec_components(p@));
    out
}

} // verus!

verus! {

/// Whether two paths have the same components.
pub open spec fn spec_path_eq(a: Seq<u8>, b: Seq<u8>) -> bool {
    spec_components(a) == spec_components(b)
}

/// Whether the components of `child` are the last components of `path`.
pub open spec fn spec_path_ends_with(path: Seq<u8>, child: Seq<u8>) -> bool {
    let cp = spec_components(path);
    let cc = spec_components(child);
    cc.len() <= cp.len() && cp.skip(cp.len() - cc.len()) == cc
}

/// The final component of a path, if it is a name.
pub open spec fn spec_file_name(path: Seq<u8>) -> Option<Seq<u8>> {
    let c = spec_components(path);
    if c.len() > 0 {
        match c.last() {
            ComponentView::Normal(n) => Some(n),
            _ => None,
        }
    } else {
        None
    }
}

/// A name that can stand alone as a component: nonempty, no separator, and
/// neither `.` nor `..`.
pub open spec fn is_name(n: Seq<u8>) -> bool {
    &&& n.len() > 0
    &&& n != dot()
    &&& n != dot_dot()
    &&& forall|j: int| 0 <= j < n.len() ==> !is_sep(n[j])
}

/// In a segment without separators, the segment runs to the end.
proof fn lemma_seg_end_no_sep(p: Seq<u8>, i: nat)
    requires
        i <= p.len(),
        forall|j: int| i <= j < p.len() ==> !is_sep(p[j]),
    ensures
        seg_end(p, i) == p.len(),
    decreases p.len() - i,
{
    if i < p.len() {
        lemma_seg_end_no_sep(p, i + 1);
    }
}

/// A name is a path of one component, itself.
proof fn lemma_name_components(n: Seq<u8>)
    requires
        is_name(n),
    ensures
        spec_components(n) == seq![ComponentView::Normal(n)],
{
    lemma_seg_end_no_sep(n, 0);
    assert(n.subrange(0, n.len() as int) =~= n);
    assert(!is_sep(n[0]));
}

/// Every name component of the segments from `start` on is a name.
proof fn lemma_components_from_names(p: Seq<u8>, start: nat)
    ensures
        forall|k: int|
            0 <= k < components_from(p, start).len() ==> (#[trigger] components_from(p, start)[k]
                matches ComponentView::Normal(n) ==> is_name(n)),
    decreases p.len() + 1 - start,
{
    if start <= p.len() {
        let e = seg_end(p, start);
        lemma_seg_end(p, start);
        let seg = p.subrange(start as int, e as int);
        let head = segment_component(seg);
        assert forall|k: int| 0 <= k < head.len() implies (#[trigger] head[k]
            matches ComponentView::Normal(n) ==> is_name(n)) by {
            if let ComponentView::Normal(n) = head[k] {
                assert(n == seg);
                assert forall|j: int| 0 <= j < n.len() implies !is_sep(n[j]) by {
                    assert(n[j] == p[start + j]);
                }
            }
        }
        if e < p.len() {
            lemma_components_from_names(p, e + 1);
            let rest = components_from(p, e + 1);
            assert(components_from(p, start) == head + rest);
            assert forall|k: int| 0 <= k < components_from(p, start).len() implies (
            #[trigger] components_from(p, start)[k] matches ComponentView::Normal(n) ==> is_name(
                n,
            )) by {
                if k >= head.len() {
                    assert(components_from(p, start)[k] == rest[k - head.len()]);
                }
            }
        }
    }
}

/// A path ends with its own file name: the name is a component of its own,
/// and the last one of the path.
pub proof fn law_path_ends_with_file_name(path: Seq<u8>)
    ensures
        spec_file_name(path) matches Some(n) ==> spec_path_ends_with(path, n),
{
    let c = spec_components(path);
    if let Some(n) = spec_file_name(path) {
        if path.len() > 0 && is_sep(path[0]) {
            lemma_components_from_names(path, 1);
            assert(c == seq![ComponentView::RootDir] + components_from(path, 1));
            assert(c.last() == components_from(path, 1)[components_from(path, 1).len() - 1]);
        } else if path.len() > 0 && path.subrange(0, seg_end(path, 0) as int) == dot() {
            if seg_end(path, 0) < path.len() {
                let rest = components_from(path, seg_end(path, 0) + 1);
                lemma_components_from_names(path, seg_end(path, 0) + 1);
                assert(c == seq![ComponentView::CurDir] + rest);
                assert(c.last() == rest[rest.len() - 1]);
            }
        } else {
            lemma_components_from_names(path, 0);
            assert(c.last() == components_from(path, 0)[c.len() - 1]);
        }
        lemma_name_components(n);
        assert(c.skip(c.len() - 1) =~= seq![c.last()]);
    }
}

/// Whether two components are the same.
fn component_eq(a: &Component, b: &Component) -> (r: bool)
    ensures
        r == (a@ == b@),
{
    match (a, b) {
        (Component::RootDir, Component::RootDir) => true,
        (Component::CurDir, Component::CurDir) => true,
        (Component::ParentDir, Component::ParentDir) => true,
        (Component::Normal(x), Component::Normal(y)) => bytes_eq_bytes(x.as_slice(), y.as_slice()),
        _ => false,
    }
}

/// Whether `suffix` ends `all`, compared component by component.
fn components_end_with(all: &Vec<Component>, suffix: &Vec<Component>) -> (r: bool)
    ensures
        r == (suffix@.len() <= all@.len() && components_view(all@).skip(
            all@.len() - suffix@.len(),
        ) == components_view(suffix@)),
{
    if suffix.len() > all.len() {
        return false;
    }
    let offset = all.len() - suffix.len();
    let ghost va = components_view(all@);
    let ghost vs = components_view(suffix@);
    let mut i: usize = 0;
    while i < suffix.len()
        invariant
            offset + suffix@.len() == all@.len(),
            all@.len() == all.len(),
            0 <= i <= suffix@.len(),
            va == components_view(all@),
            vs == components_view(suffix@),
            forall|j: int| 0 <= j < i ==> va[offset + j] == vs[j],
        decreases suffix@.len() - i,
    {
        if !component_eq(&all[offset + i], &suffix[i]) {
            assert(va.skip(offset as int)[i as int] != vs[i as int]);
            return false;
        }
        i = i + 1;
    }
    assert(va.skip(offset as int) =~= vs);
    true
}

/// Whether two paths have the same components.
pub fn path_eq(a: &[u8], b: &[u8]) -> (r: bool)
    ensures
        r == spec_path_eq(a@, b@),
{
    let ca = components(a);
    let cb = components(b);
    if ca.len() != cb.len() {
        assert(components_view(ca@).len() != components_view(cb@).len());
        return false;
    }
    let r = components_end_with(&ca, &cb);
    assert(components_view(ca@).skip(0) =~= components_view(ca@));
    r
}

/// Whether the components of `child` are the last components of `path`.
pub fn path_ends_with(path: &[u8], child: &[u8]) -> (r: bool)
    ensures
        r == spec_path_ends_with(path@, child@),
{
    let cp = components(path);
    let cc = components(child);
    components_end_with(&cp, &cc)
}

/// The final component of a path, if it is a name.
pub fn path_file_name(path: &[u8]) -> (r: Option<Vec<u8>>)
    ensures
        match r {
            Some(n) => spec_file_name(path@) == Some(n@),
            None => spec_file_name(path@) is None,
        },
{
    let mut c = components(path);
    let ghost v = components_view(c@);
    match c.pop() {
        Some(Component::Normal(n)) => {
            assert(v.last() == ComponentView::Normal(n@));
            Some(n)
        },
        Some(other) => {
            assert(v.last() == other@);
            None
        },
        None => None,
    }
}

/// A path ends with another exactly when its components are some components
/// followed by all of the other's, in order.
pub proof fn law_ends_with_is_component_suffix(path: Seq<u8>, child: Seq<u8>)
    ensures
        spec_path_ends_with(path, child) <==> exists|q: Seq<ComponentView>|
            spec_components(path) == q + spec_components(child),
{
    let cp = spec_components(path);
    let cc = spec_components(child);
    if spec_path_ends_with(path, child) {
        let q = cp.take(cp.len() - cc.len());
        assert(cp =~= q + cc);
    }
    if exists|q: Seq<ComponentView>| cp == q + cc {
        let q = choose|q: Seq<ComponentView>| cp == q + cc;
        assert(cp.skip(cp.len() - cc.len()) =~= cc);
    }
}

} // verus!
