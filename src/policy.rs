//! Which walk entries are targets and which may be visited at all.
//!
//! A path is a sequence of components, each component the raw bytes of one
//! name. The target name is `node_modules`.
use vstd::prelude::*;

verus! {

/// The bytes of `node_modules`.
pub open spec fn spec_target() -> Seq<u8> {
    seq![110u8, 111, 100, 101, 95, 109, 111, 100, 117, 108, 101, 115]
}

/// The components of a path, each as its bytes.
pub open spec fn path_of(p: Seq<Vec<u8>>) -> Seq<Seq<u8>> {
    p.map_values(|c: Vec<u8>| c@)
}

pub open spec fn is_target(c: Seq<u8>) -> bool {
    c == spec_target()
}

/// Some component at an index below `n` is the target name.
pub open spec fn target_before(p: Seq<Seq<u8>>, n: int) -> bool {
    exists|i: int| 0 <= i < n && #[trigger] is_target(p[i])
}

/// A directory whose own name is the target name.
pub open spec fn spec_is_match(p: Seq<Seq<u8>>, is_dir: bool) -> bool {
    is_dir && p.len() > 0 && is_target(p.last())
}

/// The walk may visit an entry unless it lies inside a target directory: a
/// match may carry the target name only as its last component, anything else
/// nowhere.
pub open spec fn spec_admits(p: Seq<Seq<u8>>, is_dir: bool) -> bool {
    if spec_is_match(p, is_dir) {
        !target_before(p, p.len() - 1)
    } else {
        !target_before(p, p.len() as int)
    }
}

/// The target name as bytes.
pub fn target_name() -> (r: Vec<u8>)
    ensures
        r@ == spec_target(),
{
    let r: Vec<u8> = vec![110u8, 111, 100, 101, 95, 109, 111, 100, 117, 108, 101, 115];
    assert(r@ =~= spec_target());
    r
}

/// Byte-wise equality of two names.
pub(crate) fn bytes_equal(a: &Vec<u8>, b: &Vec<u8>) -> (r: bool)
    ensures
        r == (a@ == b@),
{
    if a.len() != b.len() {
        return false;
    }
    let mut i: usize = 0;
    while i < a.len()
        invariant
            a.len() == b.len(),
            i <= a.len(),
            forall|k: int| 0 <= k < i ==> a@[k] == b@[k],
        decreases a.len() - i,
    {
        if a[i] != b[i] {
            return false;
        }
        i = i + 1;
    }
    assert(a@ =~= b@);
    true
}

/// Whether one component is the target name.
pub fn is_target_name(c: &Vec<u8>) -> (r: bool)
    ensures
        r == is_target(c@),
{
    let t = target_name();
    bytes_equal(c, &t)
}

/// Whether some component at an index below `n` is the target name.
fn has_target_before(p: &Vec<Vec<u8>>, n: usize) -> (r: bool)
    requires
        n <= p.len(),
    ensures
        r == target_before(path_of(p@), n as int),
{
    let ghost dv = path_of(p@);
    assert(dv.len() == p.len());
    let mut i: usize = 0;
    while i < n
        invariant
            n <= p.len(),
            i <= n,
            dv == path_of(p@),
            forall|k: int| 0 <= k < i ==> !is_target(#[trigger] dv[k]),
        decreases n - i,
    {
        if is_target_name(&p[i]) {
            assert(is_target(dv[i as int]));
            return true;
        }
        i = i + 1;
    }
    false
}

/// Whether the entry is a directory named `node_modules`.
pub fn is_match(p: &Vec<Vec<u8>>, is_dir: bool) -> (r: bool)
    ensures
        r == spec_is_match(path_of(p@), is_dir),
{
    if !is_dir || p.len() == 0 {
        return false;
    }
    let r = is_target_name(&p[p.len() - 1]);
    assert(path_of(p@).last() == p@[p.len() - 1]@);
    r
}

/// Whether the walk may visit (and report) the entry at path `p`.
pub fn admits(p: &Vec<Vec<u8>>, is_dir: bool) -> (r: bool)
    ensures
        r == spec_admits(path_of(p@), is_dir),
{
    if is_match(p, is_dir) {
        !has_target_before(p, p.len() - 1)
    } else {
        !has_target_before(p, p.len())
    }
}

} // verus!
