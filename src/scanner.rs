//! The scan as a state machine: the walk offers entries one by one, and the
//! scanner decides for each whether it is reported, skipped or descended into.
//!
//! Whatever order entries arrive in, the reported list keeps its invariant:
//! every reported path is a directory named `node_modules` with no such name
//! above it, lies within the depth limit below the root, and is not excluded.
use vstd::prelude::*;
use crate::policy::{
    admits, is_match, path_of, spec_admits, spec_is_match, is_target, target_before,
    bytes_equal,
};

verus! {

/// `a` is `b` itself or one of its ancestors.
pub open spec fn is_prefix(a: Seq<Seq<u8>>, b: Seq<Seq<u8>>) -> bool {
    a.len() <= b.len() && b.subrange(0, a.len() as int) == a
}

/// `a` is a proper ancestor of `b`.
pub open spec fn is_ancestor(a: Seq<Seq<u8>>, b: Seq<Seq<u8>>) -> bool {
    a.len() < b.len() && is_prefix(a, b)
}

/// `p` lies under `root`, at most `max_depth` components below it when a
/// limit is set.
pub open spec fn within_depth(root: Seq<Seq<u8>>, max_depth: Option<nat>, p: Seq<Seq<u8>>) -> bool {
    &&& is_prefix(root, p)
    &&& match max_depth {
        Some(d) => p.len() <= root.len() + d,
        None => true,
    }
}

pub open spec fn is_excluded(exclude: Seq<Seq<Seq<u8>>>, p: Seq<Seq<u8>>) -> bool {
    exists|k: int| 0 <= k < exclude.len() && exclude[k] == p
}

pub open spec fn paths_of(s: Seq<Vec<Vec<u8>>>) -> Seq<Seq<Seq<u8>>> {
    s.map_values(|p: Vec<Vec<u8>>| path_of(p@))
}

pub open spec fn depth_of(d: Option<usize>) -> Option<nat> {
    match d {
        Some(n) => Some(n as nat),
        None => None,
    }
}

/// What the scanner knows: its settings and the paths reported so far.
pub struct ScanModel {
    pub root: Seq<Seq<u8>>,
    pub max_depth: Option<nat>,
    pub exclude: Seq<Seq<Seq<u8>>>,
    pub found: Seq<Seq<Seq<u8>>>,
}

impl ScanModel {
    /// The walk may visit the entry: the pruning rule and the depth limit
    /// both let it through.
    pub open spec fn visitable(self, p: Seq<Seq<u8>>, is_dir: bool) -> bool {
        spec_admits(p, is_dir) && within_depth(self.root, self.max_depth, p)
    }

    /// The entry is reported.
    pub open spec fn reports(self, p: Seq<Seq<u8>>, is_dir: bool) -> bool {
        self.visitable(p, is_dir) && spec_is_match(p, is_dir) && !is_excluded(self.exclude, p)
    }

    /// Every reported path is one that would be reported now.
    pub open spec fn wf(self) -> bool {
        forall|i: int| 0 <= i < self.found.len() ==> #[trigger] self.reports(self.found[i], true)
    }

    pub open spec fn outcome(self, p: Seq<Seq<u8>>, is_dir: bool) -> Visit {
        if !self.visitable(p, is_dir) {
            Visit::Rejected
        } else if !spec_is_match(p, is_dir) {
            Visit::Passed
        } else if is_excluded(self.exclude, p) {
            Visit::Excluded
        } else {
            Visit::Found
        }
    }
}

/// The decision for one entry offered by the walk.
#[derive(PartialEq, Eq, Structural, Clone, Copy, Debug)]
pub enum Visit {
    /// Outside the pruning rule or the depth limit: neither reported nor
    /// descended into.
    Rejected,
    /// Visited and, if a directory, descended into.
    Passed,
    /// A target directory on the exclusion list: not reported, not descended into.
    Excluded,
    /// A target directory: reported, not descended into.
    Found,
}

impl Visit {
    /// Whether the walk goes on below this entry.
    pub fn descends(&self) -> (r: bool)
        ensures
            r == (*self == Visit::Passed),
    {
        match self {
            Visit::Passed => true,
            _ => false,
        }
    }
}

/// Collects the `node_modules` directories offered by a walk from `root`.
pub struct Scanner {
    root: Vec<Vec<u8>>,
    max_depth: Option<usize>,
    exclude: Vec<Vec<Vec<u8>>>,
    found: Vec<Vec<Vec<u8>>>,
}

impl View for Scanner {
    type V = ScanModel;

    closed spec fn view(&self) -> ScanModel {
        ScanModel {
            root: path_of(self.root@),
            max_depth: depth_of(self.max_depth),
            exclude: paths_of(self.exclude@),
            found: paths_of(self.found@),
        }
    }
}

fn paths_equal(a: &Vec<Vec<u8>>, b: &Vec<Vec<u8>>) -> (r: bool)
    ensures
        r == (path_of(a@) == path_of(b@)),
{
    if a.len() != b.len() {
        assert(path_of(a@).len() != path_of(b@).len());
        return false;
    }
    let mut i: usize = 0;
    while i < a.len()
        invariant
            a.len() == b.len(),
            i <= a.len(),
            forall|k: int| 0 <= k < i ==> a@[k]@ == b@[k]@,
        decreases a.len() - i,
    {
        if !bytes_equal(&a[i], &b[i]) {
            assert(path_of(a@)[i as int] != path_of(b@)[i as int]);
            return false;
        }
        i = i + 1;
    }
    assert(path_of(a@) =~= path_of(b@));
    true
}

fn starts_with(root: &Vec<Vec<u8>>, p: &Vec<Vec<u8>>) -> (r: bool)
    ensures
        r == is_prefix(path_of(root@), path_of(p@)),
{
    if root.len() > p.len() {
        return false;
    }
    let ghost pr = path_of(root@);
    let ghost pp = path_of(p@);
    let mut i: usize = 0;
    while i < root.len()
        invariant
            root.len() <= p.len(),
            i <= root.len(),
            pr == path_of(root@),
            pp == path_of(p@),
            forall|k: int| 0 <= k < i ==> pr[k] == pp[k],
        decreases root.len() - i,
    {
        if !bytes_equal(&root[i], &p[i]) {
            assert(pp.subrange(0, pr.len() as int)[i as int] != pr[i as int]);
            return false;
        }
        i = i + 1;
    }
    assert(pp.subrange(0, pr.len() as int) =~= pr);
    true
}

fn excluded(exclude: &Vec<Vec<Vec<u8>>>, p: &Vec<Vec<u8>>) -> (r: bool)
    ensures
        r == is_excluded(paths_of(exclude@), path_of(p@)),
{
    let ghost ex = paths_of(exclude@);
    let mut k: usize = 0;
    while k < exclude.len()
        invariant
            k <= exclude.len(),
            ex == paths_of(exclude@),
            forall|j: int| 0 <= j < k ==> ex[j] != path_of(p@),
        decreases exclude.len() - k,
    {
        if paths_equal(&exclude[k], p) {
            assert(ex[k as int] == path_of(p@));
            return true;
        }
        k = k + 1;
    }
    false
}

impl Scanner {
    /// A scanner for a walk from `root`, limited to `max_depth` components
    /// below it when given, that skips the paths in `exclude`.
    pub fn new(root: Vec<Vec<u8>>, max_depth: Option<usize>, exclude: Vec<Vec<Vec<u8>>>) -> (r: Self)
        ensures
            r@.root == path_of(root@),
            r@.max_depth == depth_of(max_depth),
            r@.exclude == paths_of(exclude@),
            r@.found == Seq::<Seq<Seq<u8>>>::empty(),
            r@.wf(),
    {
        let r = Scanner { root, max_depth, exclude, found: Vec::new() };
        assert(r@.found =~= Seq::<Seq<Seq<u8>>>::empty());
        r
    }

    /// Whether the walk may visit the entry at `p` at all.
    pub fn visitable(&self, p: &Vec<Vec<u8>>, is_dir: bool) -> (r: bool)
        ensures
            r == self@.visitable(path_of(p@), is_dir),
    {
        if !admits(p, is_dir) {
            return false;
        }
        if !starts_with(&self.root, p) {
            return false;
        }
        match self.max_depth {
            Some(d) => p.len() - self.root.len() <= d,
            None => true,
        }
    }

    /// Decides on one entry of the walk and reports it when it is a target.
    pub fn visit(&mut self, p: Vec<Vec<u8>>, is_dir: bool) -> (r: Visit)
        requires
            old(self)@.wf(),
        ensures
            final(self)@.wf(),
            r == old(self)@.outcome(path_of(p@), is_dir),
            final(self)@.root == old(self)@.root,
            final(self)@.max_depth == old(self)@.max_depth,
            final(self)@.exclude == old(self)@.exclude,
            final(self)@.found == if r == Visit::Found {
                old(self)@.found.push(path_of(p@))
            } else {
                old(self)@.found
            },
    {
        if !self.visitable(&p, is_dir) {
            return Visit::Rejected;
        }
        if !is_match(&p, is_dir) {
            return Visit::Passed;
        }
        if excluded(&self.exclude, &p) {
            return Visit::Excluded;
        }
        let ghost before = self@;
        let ghost pv = path_of(p@);
        self.found.push(p);
        assert(self@.found =~= before.found.push(pv));
        assert forall|i: int| 0 <= i < self@.found.len() implies #[trigger] self@.reports(self@.found[i], true) by {
            if i < before.found.len() {
                assert(before.reports(before.found[i], true));
            }
        }
        Visit::Found
    }

    /// The paths reported so far, in the order they were offered.
    pub fn found(&self) -> (r: &Vec<Vec<Vec<u8>>>)
        ensures
            paths_of(r@) == self@.found,
    {
        &self.found
    }

    /// Number of paths reported so far.
    pub fn found_count(&self) -> (r: usize)
        ensures
            r == self@.found.len(),
    {
        self.found.len()
    }

    /// Gives up the scanner for its reported paths.
    pub fn into_found(self) -> (r: Vec<Vec<Vec<u8>>>)
        ensures
            paths_of(r@) == self@.found,
    {
        self.found
    }
}

/// No reported path lies inside another reported path: a directory named
/// `node_modules` is reported, but nothing beneath it is.
pub proof fn lemma_found_not_nested(m: ScanModel)
    requires
        m.wf(),
    ensures
        forall|i: int, j: int|
            0 <= i < m.found.len() && 0 <= j < m.found.len()
                ==> !is_ancestor(#[trigger] m.found[i], #[trigger] m.found[j]),
{
    assert forall|i: int, j: int|
        0 <= i < m.found.len() && 0 <= j < m.found.len()
            implies !is_ancestor(#[trigger] m.found[i], #[trigger] m.found[j]) by {
        let a = m.found[i];
        let b = m.found[j];
        assert(m.reports(a, true));
        assert(m.reports(b, true));
        if is_ancestor(a, b) {
            let k = a.len() - 1;
            assert(b.subrange(0, a.len() as int)[k] == b[k]);
            assert(is_target(b[k]));
            assert(target_before(b, b.len() - 1));
        }
    }
}

/// A path on the exclusion list is never reported, at whatever depth it lies.
pub proof fn lemma_excluded_never_found(m: ScanModel)
    requires
        m.wf(),
    ensures
        forall|i: int, k: int|
            0 <= i < m.found.len() && 0 <= k < m.exclude.len()
                ==> #[trigger] m.found[i] != #[trigger] m.exclude[k],
{
    assert forall|i: int, k: int|
        0 <= i < m.found.len() && 0 <= k < m.exclude.len()
            implies #[trigger] m.found[i] != #[trigger] m.exclude[k] by {
        assert(m.reports(m.found[i], true));
    }
}

/// With a depth limit `d`, every reported path lies under the root and has at
/// most `d` components below it.
pub proof fn lemma_found_within_depth(m: ScanModel, d: nat)
    requires
        m.wf(),
        m.max_depth == Some(d),
    ensures
        forall|i: int| 0 <= i < m.found.len() ==> {
            &&& is_prefix(m.root, #[trigger] m.found[i])
            &&& m.found[i].len() - m.root.len() <= d
        },
{
    assert forall|i: int| 0 <= i < m.found.len() implies {
        &&& is_prefix(m.root, #[trigger] m.found[i])
        &&& m.found[i].len() - m.root.len() <= d
    } by {
        assert(m.reports(m.found[i], true));
    }
}

} // verus!
