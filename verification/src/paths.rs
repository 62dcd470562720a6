//! Paths compared the way `Path` compares them: by their components, so
//! that repeated separators, `.` segments after the start, and a trailing
//! separator make no difference.
use crate::text::{chars_equal, chars_of, find_char_from, find_char_starting_at, lemma_find_char_from_bounds, slice_chars};
use vstd::prelude::*;

verus! {

/// What a segment between separators contributes: nothing when it is empty
/// or `.`, else itself.
pub open spec fn segment_component(segment: Seq<char>) -> Seq<Seq<char>> {
    if segment.len() == 0 || segment == seq!['.'] {
        Seq::empty()
    } else {
        seq![segment]
    }
}

/// The components made of the segments from position `i` on.
pub open spec fn segments_from(p: Seq<char>, i: int) -> Seq<Seq<char>>
    decreases p.len() - i,
{
    if i < 0 || i >= p.len() {
        Seq::empty()
    } else {
        proof {
            lemma_find_char_from_bounds(p, '/', i);
        }
        match find_char_from(p, '/', i) {
            Some(k) => segment_component(p.subrange(i, k)) + segments_from(p, k + 1),
            None => segment_component(p.subrange(i, p.len() as int)),
        }
    }
}

/// The first component: the root (written `/`) for a path that starts with
/// `/`, the current directory (written `.`) for a path that is `.` or starts
/// with `./`, none otherwise.
pub open spec fn leading_component(p: Seq<char>) -> Seq<Seq<char>> {
    if p.len() > 0 && p[0] == '/' {
        seq![seq!['/']]
    } else if p == seq!['.'] || (p.len() >= 2 && p[0] == '.' && p[1] == '/') {
        seq![seq!['.']]
    } else {
        Seq::empty()
    }
}

/// `Path::components` of a Unix path.
pub open spec fn path_components(p: Seq<char>) -> Seq<Seq<char>> {
    leading_component(p) + segments_from(p, 0)
}

/// The views of a list of components.
pub open spec fn component_views(components: Seq<Vec<char>>) -> Seq<Seq<char>> {
    components.map_values(|c: Vec<char>| c@)
}

/// Two paths are the same path (`Path::eq`).
pub open spec fn same_path(a: Seq<char>, b: Seq<char>) -> bool {
    path_components(a) == path_components(b)
}

fn push_segment(components: &mut Vec<Vec<char>>, p: &Vec<char>, lo: usize, hi: usize)
    requires
        lo <= hi <= p@.len(),
    ensures
        component_views(final(components)@) == component_views(old(components)@) + segment_component(p@.subrange(lo as int, hi as int)),
{
    let segment = slice_chars(p, lo, hi);
    let dot = chars_of(".");
    proof {
        reveal_strlit(".");
        assert(dot@ =~= seq!['.']);
    }
    if segment.len() == 0 || chars_equal(&segment, &dot) {
        assert(component_views(components@) + Seq::<Seq<char>>::empty()
            =~= component_views(components@));
        return;
    }
    let ghost before = components@;
    components.push(segment);
    assert(component_views(components@) =~= component_views(before)
        + seq![segment@]);
}

/// The components of the path `path`.
pub fn components_of(path: &str) -> (r: Vec<Vec<char>>)
    ensures
        component_views(r@) == path_components(path@),
{
    let p = chars_of(path);
    let mut components: Vec<Vec<char>> = Vec::new();
    if p.len() > 0 && p[0] == '/' {
        let root = chars_of("/");
        proof {
            reveal_strlit("/");
            assert(root@ =~= seq!['/']);
        }
        components.push(root);
    } else if (p.len() == 1 && p[0] == '.') || (p.len() >= 2 && p[0] == '.' && p[1] == '/') {
        let cur = chars_of(".");
        proof {
            reveal_strlit(".");
            assert(cur@ =~= seq!['.']);
        }
        components.push(cur);
        proof {
            if p.len() == 1 {
                assert(p@ =~= seq!['.']);
            }
        }
    } else {
        proof {
            if p@ == seq!['.'] {
                assert(p@[0] == '.');
            }
        }
    }
    assert(component_views(components@) =~= leading_component(p@));
    let mut i: usize = 0;
    while i < p.len()
        invariant
            p@ == path@,
            i <= p@.len(),
            path_components(p@) == component_views(components@) + segments_from(
                p@,
                i as int,
            ),
        decreases p@.len() - i,
    {
        let ghost before = component_views(components@);
        match find_char_starting_at(&p, '/', i) {
            Some(k) => {
                push_segment(&mut components, &p, i, k);
                assert(path_components(p@) == component_views(components@)
                    + segments_from(p@, k + 1));
                i = k + 1;
            },
            None => {
                push_segment(&mut components, &p, i, p.len());
                assert(segments_from(p@, p@.len() as int) == Seq::<Seq<char>>::empty());
                i = p.len();
            },
        }
    }
    components
}

/// Whether two component lists are equal.
fn components_equal(a: &Vec<Vec<char>>, b: &Vec<Vec<char>>) -> (r: bool)
    ensures
        r == (component_views(a@) == component_views(b@)),
{
    let ghost va = component_views(a@);
    let ghost vb = component_views(b@);
    if a.len() != b.len() {
        assert(va.len() != vb.len());
        return false;
    }
    for i in 0..a.len()
        invariant
            a@.len() == b@.len(),
            va == component_views(a@),
            vb == component_views(b@),
            forall|k: int| 0 <= k < i ==> va[k] == vb[k],
    {
        if !chars_equal(&a[i], &b[i]) {
            assert(va[i as int] != vb[i as int]);
            return false;
        }
    }
    assert(va =~= vb);
    true
}

/// Whether `a` and `b` are the same path (see [`same_path`]).
pub fn paths_equal(a: &str, b: &str) -> (r: bool)
    ensures
        r == same_path(a@, b@),
{
    components_equal(&components_of(a), &components_of(b))
}

} // verus!
