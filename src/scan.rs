use crate::text::{is_dotted, starts_with_dot, views};
use vstd::prelude::*;

verus! {

/// What the directory walk does with the entry it just handed over.
#[derive(Debug, Clone, Copy, PartialEq, Eq, Structural)]
pub enum ScanAction {
    /// Not a directory: nothing to do.
    Ignore,
    /// An ordinary directory: walk into it.
    Descend,
    /// Do not walk into this directory.
    SkipDir,
    /// A working-copy root, now recorded: do not walk into it.
    Found,
}

/// `a` is `b` or one of its ancestors.
pub open spec fn prefix_of(a: Seq<Seq<char>>, b: Seq<Seq<char>>) -> bool {
    a.len() <= b.len() && b.subrange(0, a.len() as int) == a
}

/// No root lies inside another and no root appears twice.
pub open spec fn no_nesting(roots: Seq<Seq<Seq<char>>>) -> bool {
    forall|i: int, j: int|
        0 <= i < roots.len() && 0 <= j < roots.len() && i != j ==> !prefix_of(
            #[trigger] roots[i],
            #[trigger] roots[j],
        )
}

pub open spec fn comps_view(v: Seq<Vec<String>>) -> Seq<Seq<Seq<char>>> {
    v.map_values(|c: Vec<String>| views(c@))
}

/// Some recorded root is `p`, an ancestor of `p`, or lies inside `p`.
pub open spec fn overlaps_any(roots: Seq<Seq<Seq<char>>>, p: Seq<Seq<char>>) -> bool {
    exists|i: int| 0 <= i < roots.len() && (prefix_of(#[trigger] roots[i], p) || prefix_of(p, roots[i]))
}

/// The decision for an entry at `depth` with path components `p`.
pub open spec fn scan_decision(
    roots: Seq<Seq<Seq<char>>>,
    p: Seq<Seq<char>>,
    depth: usize,
    is_dir: bool,
    has_marker: bool,
) -> ScanAction {
    if !is_dir {
        ScanAction::Ignore
    } else if depth > 0 && p.len() > 0 && is_dotted(p.last()) {
        ScanAction::SkipDir
    } else if overlaps_any(roots, p) {
        ScanAction::SkipDir
    } else if has_marker {
        ScanAction::Found
    } else {
        ScanAction::Descend
    }
}

/// Decisions of a depth-first walk that collects working-copy roots.
pub struct Scanner {
    roots: Vec<Vec<String>>,
}

impl View for Scanner {
    type V = Seq<Seq<Seq<char>>>;

    closed spec fn view(&self) -> Seq<Seq<Seq<char>>> {
        comps_view(self.roots@)
    }
}

/// Whether `a` is `b` or one of its ancestors.
pub fn is_prefix(a: &Vec<String>, b: &Vec<String>) -> (r: bool)
    ensures
        r == prefix_of(views(a@), views(b@)),
{
    if a.len() > b.len() {
        return false;
    }
    let mut k: usize = 0;
    while k < a.len()
        invariant
            a@.len() <= b@.len(),
            k <= a@.len(),
            forall|j: int| 0 <= j < k ==> a@[j]@ == b@[j]@,
        decreases a@.len() - k,
    {
        if a[k] != b[k] {
            assert(views(b@).subrange(0, a@.len() as int)[k as int] != views(a@)[k as int]);
            return false;
        }
        k = k + 1;
    }
    assert(views(b@).subrange(0, a@.len() as int) =~= views(a@));
    true
}

impl Scanner {
    pub open spec fn wf(&self) -> bool {
        no_nesting(self@)
    }

    pub fn new() -> (r: Self)
        ensures
            r@ == Seq::<Seq<Seq<char>>>::empty(),
            r.wf(),
    {
        let r = Scanner { roots: Vec::new() };
        assert(r@ =~= Seq::<Seq<Seq<char>>>::empty());
        r
    }

    /// The roots recorded so far, in walk order, each as its path components.
    pub fn roots(&self) -> (r: &Vec<Vec<String>>)
        requires
            self.wf(),
        ensures
            comps_view(r@) == self@,
            no_nesting(comps_view(r@)),
    {
        &self.roots
    }

    /// Decides on one entry of the walk: `path` holds its components,
    /// `depth` is 0 for the walk's own starting directory, `has_marker` says
    /// whether the directory holds the working-copy marker. A directory whose
    /// name starts with `.` is skipped unless it is the starting directory;
    /// a directory that is, holds or lies inside a recorded root is skipped;
    /// a directory with the marker is recorded and not walked into.
    pub fn visit(&mut self, path: Vec<String>, depth: usize, is_dir: bool, has_marker: bool) -> (r:
        ScanAction)
        requires
            old(self).wf(),
        ensures
            r == scan_decision(old(self)@, views(path@), depth, is_dir, has_marker),
            final(self)@ == if r == ScanAction::Found {
                old(self)@.push(views(path@))
            } else {
                old(self)@
            },
            final(self).wf(),
    {
        if !is_dir {
            return ScanAction::Ignore;
        }
        if depth > 0 && path.len() > 0 && starts_with_dot(path[path.len() - 1].as_str()) {
            return ScanAction::SkipDir;
        }
        assert(path@.len() > 0 ==> views(path@).last() == path@[path@.len() - 1]@);
        let mut i: usize = 0;
        let mut overlap = false;
        while i < self.roots.len() && !overlap
            invariant
                i <= self.roots@.len(),
                self.roots@ == old(self).roots@,
                overlap ==> overlaps_any(old(self)@, views(path@)),
                !overlap ==> forall|k: int|
                    0 <= k < i ==> !prefix_of(#[trigger] self@[k], views(path@)) && !prefix_of(
                        views(path@),
                        self@[k],
                    ),
            decreases self.roots@.len() - i,
        {
            if is_prefix(&self.roots[i], &path) || is_prefix(&path, &self.roots[i]) {
                assert(self@[i as int] == views(self.roots@[i as int]@));
                overlap = true;
            }
            i = i + 1;
        }
        if overlap {
            return ScanAction::SkipDir;
        }
        if !has_marker {
            return ScanAction::Descend;
        }
        let ghost pv = views(path@);
        let ghost before = self@;
        self.roots.push(path);
        assert(self@ =~= before.push(pv));
        assert forall|i: int, j: int|
            0 <= i < self@.len() && 0 <= j < self@.len() && i != j implies !prefix_of(
            #[trigger] self@[i],
            #[trigger] self@[j],
        ) by {
            if i < before.len() && j < before.len() {
                assert(before[i] == self@[i] && before[j] == self@[j]);
            }
        }
        ScanAction::Found
    }
}

} // verus!
