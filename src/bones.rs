//! Skeleton bones and their resolution into a parent-indexed hierarchy.
//!
//! Bone numbers are fixed-point thousandths: `1000` stands for `1.0`.
//! Rotations are in thousandths of a degree, counter-clockwise about Z, as
//! the skeleton source gives them; no other unit is used anywhere.
use vstd::prelude::*;
use crate::error::{BoneField, ImportError};
use crate::text::{bytes_eq, copy_bytes};

verus! {

/// Fixed-point value of one (`1.0`), the default scale.
pub const ONE: i64 = 1000;

/// A bone as read from the skeleton source, every field optional.
#[derive(Clone, Debug, PartialEq, Eq)]
pub struct BoneRecord {
    pub name: Option<Vec<u8>>,
    pub parent: Option<Vec<u8>>,
    pub x: Option<i64>,
    pub y: Option<i64>,
    pub rotation: Option<i64>,
    pub scale_x: Option<i64>,
    pub scale_y: Option<i64>,
}

/// A bone with its defaults filled in. `parent` names another bone, or is
/// absent for a bone attached to the root.
#[derive(Clone, Debug, PartialEq, Eq)]
pub struct Bone {
    pub name: Vec<u8>,
    pub parent: Option<Vec<u8>>,
    pub x: i64,
    pub y: i64,
    pub rotation: i64,
    pub scale_x: i64,
    pub scale_y: i64,
}

/// The bones of a skeleton, in source order.
#[derive(Clone, Debug, PartialEq, Eq)]
pub struct Skeleton {
    pub bones: Vec<Bone>,
}

/// The records before index `n` are all named, with distinct names.
pub open spec fn records_valid_upto(recs: Seq<BoneRecord>, n: int) -> bool {
    forall|i: int|
        0 <= i < n ==> {
            &&& (#[trigger] recs[i]).name is Some
            &&& forall|j: int| 0 <= j < i ==> recs[j].name->0@ != recs[i].name->0@
        }
}

/// The error that the record at index `k` raises.
pub open spec fn record_error(recs: Seq<BoneRecord>, k: int, e: ImportError) -> bool {
    match recs[k].name {
        None => e == ImportError::MalformedSkeleton { bone: k as usize, field: BoneField::Name },
        Some(n) => e matches ImportError::DuplicateBoneName { name } && name@ == n@,
    }
}

/// The bone that a record yields, with the documented defaults.
pub open spec fn bone_of(rec: BoneRecord, b: Bone) -> bool {
    &&& b.name@ == rec.name->0@
    &&& b.parent is Some == rec.parent is Some
    &&& (b.parent is Some ==> b.parent->0@ == rec.parent->0@)
    &&& b.x == (if rec.x is Some { rec.x->0 } else { 0 })
    &&& b.y == (if rec.y is Some { rec.y->0 } else { 0 })
    &&& b.rotation == (if rec.rotation is Some { rec.rotation->0 } else { 0 })
    &&& b.scale_x == (if rec.scale_x is Some { rec.scale_x->0 } else { ONE })
    &&& b.scale_y == (if rec.scale_y is Some { rec.scale_y->0 } else { ONE })
}

fn copy_opt(s: &Option<Vec<u8>>) -> (r: Option<Vec<u8>>)
    ensures
        r is Some == s is Some,
        r is Some ==> r->0@ == s->0@,
{
    match s {
        Some(v) => Some(copy_bytes(v)),
        None => None,
    }
}

fn or_default(v: Option<i64>, d: i64) -> (r: i64)
    ensures
        r == (if v is Some { v->0 } else { d }),
{
    match v {
        Some(x) => x,
        None => d,
    }
}

/// Builds a skeleton from bone records in source order, filling in the
/// defaults (`x`, `y`, `rotation` zero; scales one). The first record that is
/// unnamed, or repeats an earlier name, is the error.
pub fn parse_skeleton(recs: &Vec<BoneRecord>) -> (r: Result<Skeleton, ImportError>)
    ensures
        r is Ok <==> records_valid_upto(recs@, recs@.len() as int),
        r matches Ok(s) ==> s.bones.len() == recs.len() && forall|i: int|
            0 <= i < recs.len() ==> bone_of(recs@[i], #[trigger] s.bones@[i]),
        r matches Err(e) ==> exists|k: int|
            0 <= k < recs.len() && records_valid_upto(recs@, k) && !records_valid_upto(
                recs@,
                k + 1,
            ) && #[trigger] record_error(recs@, k, e),
{
    let mut bones: Vec<Bone> = Vec::new();
    let mut k: usize = 0;
    while k < recs.len()
        invariant
            k <= recs.len(),
            records_valid_upto(recs@, k as int),
            bones.len() == k,
            forall|i: int| 0 <= i < k ==> bone_of(recs@[i], #[trigger] bones@[i]),
        decreases recs.len() - k,
    {
        let rec = &recs[k];
        match &rec.name {
            None => {
                let e = ImportError::MalformedSkeleton { bone: k, field: BoneField::Name };
                assert(record_error(recs@, k as int, e));
                return Err(e);
            },
            Some(name) => {
                let mut j: usize = 0;
                while j < k
                    invariant
                        j <= k < recs.len(),
                        recs@[k as int].name == Some(*name),
                        records_valid_upto(recs@, k as int),
                        forall|i: int| 0 <= i < j ==> recs@[i].name->0@ != name@,
                    decreases k - j,
                {
                    let other = recs[j].name.as_ref().unwrap();
                    if bytes_eq(other, name) {
                        let e = ImportError::DuplicateBoneName { name: copy_bytes(name) };
                        assert(record_error(recs@, k as int, e));
                        assert(!records_valid_upto(recs@, k + 1));
                        return Err(e);
                    }
                    j = j + 1;
                }
                bones.push(
                    Bone {
                        name: copy_bytes(name),
                        parent: copy_opt(&rec.parent),
                        x: or_default(rec.x, 0),
                        y: or_default(rec.y, 0),
                        rotation: or_default(rec.rotation, 0),
                        scale_x: or_default(rec.scale_x, ONE),
                        scale_y: or_default(rec.scale_y, ONE),
                    },
                );
                k = k + 1;
            },
        }
    }
    Ok(Skeleton { bones })
}

/// Where a resolved bone attaches.
#[derive(Clone, Copy, Debug, PartialEq, Eq, Structural)]
pub enum ParentRef {
    /// The synthetic root: one node with the identity transform, per import.
    Root,
    /// The resolved bone at this index of the hierarchy.
    Bone(usize),
}

/// Translation, counter-clockwise rotation about Z, and scale, in the units
/// of `Bone`.
#[derive(Clone, Copy, Debug, PartialEq, Eq, Structural)]
pub struct LocalTransform {
    pub x: i64,
    pub y: i64,
    pub rotation: i64,
    pub scale_x: i64,
    pub scale_y: i64,
}

/// A resolved bone. Its parent is a back-reference by index, never owning.
#[derive(Clone, Debug, PartialEq, Eq)]
pub struct BoneNode {
    pub name: Vec<u8>,
    pub parent: ParentRef,
    pub local_transform: LocalTransform,
}

/// Resolved bones, in source order, below the synthetic root.
#[derive(Clone, Debug, PartialEq, Eq)]
pub struct Hierarchy {
    pub nodes: Vec<BoneNode>,
}

/// The transform of the synthetic root.
pub open spec fn spec_identity() -> LocalTransform {
    LocalTransform { x: 0, y: 0, rotation: 0, scale_x: ONE, scale_y: ONE }
}

pub fn identity() -> (t: LocalTransform)
    ensures
        t == spec_identity(),
{
    LocalTransform { x: 0, y: 0, rotation: 0, scale_x: ONE, scale_y: ONE }
}

/// No two bones share a name.
pub open spec fn names_distinct(bs: Seq<Bone>) -> bool {
    forall|i: int, j: int| 0 <= i < j < bs.len() ==> bs[i].name@ != bs[j].name@
}

/// The first index below `n` of a bone named `name`.
pub open spec fn index_in(bs: Seq<Bone>, name: Seq<u8>, n: int) -> Option<int>
    decreases n,
{
    if n <= 0 {
        None
    } else {
        match index_in(bs, name, n - 1) {
            Some(k) => Some(k),
            None => if bs[n - 1].name@ == name { Some(n - 1) } else { None },
        }
    }
}

/// The bone that bone `i` names as its parent, looked up among all bones.
pub open spec fn named_parent(bs: Seq<Bone>, i: int) -> Option<int> {
    match bs[i].parent {
        Some(p) => index_in(bs, p@, bs.len() as int),
        None => None,
    }
}

/// The `k`-th ancestor of bone `i` by named parents, if the chain is that long.
pub open spec fn ancestor(bs: Seq<Bone>, i: int, k: nat) -> Option<int>
    decreases k,
{
    if k == 0 {
        Some(i)
    } else {
        match ancestor(bs, i, (k - 1) as nat) {
            Some(j) => named_parent(bs, j),
            None => None,
        }
    }
}

/// Bone `i`'s chain of named parents runs past the number of bones, so it
/// returns to a bone it has passed.
pub open spec fn cyclic_from(bs: Seq<Bone>, i: int) -> bool {
    ancestor(bs, i, bs.len()) is Some
}

/// Some bone names itself as an ancestor, directly or transitively.
pub open spec fn cyclic(bs: Seq<Bone>) -> bool {
    exists|i: int| 0 <= i < bs.len() && #[trigger] cyclic_from(bs, i)
}

/// Where bone `i` attaches: to the earlier bone that its parent names, else
/// to the root (no parent named, or none of that name before it).
pub open spec fn linked_parent(bs: Seq<Bone>, i: int) -> ParentRef {
    match bs[i].parent {
        Some(p) => match index_in(bs, p@, i) {
            Some(k) => ParentRef::Bone(k as usize),
            None => ParentRef::Root,
        },
        None => ParentRef::Root,
    }
}

/// The node that bone `i` resolves to.
pub open spec fn node_of(bs: Seq<Bone>, i: int, n: BoneNode) -> bool {
    let b = bs[i];
    &&& n.name@ == b.name@
    &&& n.parent == linked_parent(bs, i)
    &&& n.local_transform == LocalTransform {
        x: b.x,
        y: b.y,
        rotation: b.rotation,
        scale_x: b.scale_x,
        scale_y: b.scale_y,
    }
}

proof fn lemma_index_in_found(bs: Seq<Bone>, name: Seq<u8>, n: int)
    requires
        0 <= n <= bs.len(),
    ensures
        index_in(bs, name, n) matches Some(k) ==> 0 <= k < n && bs[k].name@ == name,
        index_in(bs, name, n) is None ==> forall|k: int| 0 <= k < n ==> bs[k].name@ != name,
    decreases n,
{
    if n > 0 {
        lemma_index_in_found(bs, name, n - 1);
    }
}

proof fn lemma_ancestor_ends(bs: Seq<Bone>, i: int, k: nat, m: nat)
    requires
        k <= m,
        ancestor(bs, i, k) is None,
    ensures
        ancestor(bs, i, m) is None,
    decreases m,
{
    if k < m {
        lemma_ancestor_ends(bs, i, k, (m - 1) as nat);
    }
}

/// The first index below `n` of a bone named `name`.
fn find_bone(bs: &Vec<Bone>, name: &Vec<u8>, n: usize) -> (r: Option<usize>)
    requires
        n <= bs.len(),
    ensures
        r is Some == index_in(bs@, name@, n as int) is Some,
        r is Some ==> r->0 as int == index_in(bs@, name@, n as int)->0,
{
    let mut i: usize = 0;
    while i < n
        invariant
            i <= n <= bs.len(),
            index_in(bs@, name@, i as int) is None,
        decreases n - i,
    {
        if bytes_eq(&bs[i].name, name) {
            assert(index_in(bs@, name@, i + 1) == Some(i as int));
            proof {
                lemma_index_in_prefix(bs@, name@, i + 1, n as int);
            }
            return Some(i);
        }
        i = i + 1;
    }
    None
}

proof fn lemma_index_in_prefix(bs: Seq<Bone>, name: Seq<u8>, k: int, n: int)
    requires
        0 <= k <= n,
        index_in(bs, name, k) is Some,
    ensures
        index_in(bs, name, n) == index_in(bs, name, k),
    decreases n - k,
{
    if k < n {
        lemma_index_in_prefix(bs, name, k, n - 1);
    }
}

/// Index of the first pair of bones with one name: the later bone's index.
fn first_duplicate(bs: &Vec<Bone>) -> (r: Option<usize>)
    ensures
        r is None <==> names_distinct(bs@),
        r matches Some(j) ==> j < bs.len() && exists|i: int|
            0 <= i < j && #[trigger] bs@[i].name@ == bs@[j as int].name@,
{
    let mut j: usize = 0;
    while j < bs.len()
        invariant
            j <= bs.len(),
            forall|a: int, b: int| 0 <= a < b < j ==> bs@[a].name@ != bs@[b].name@,
        decreases bs.len() - j,
    {
        let mut i: usize = 0;
        while i < j
            invariant
                i <= j < bs.len(),
                forall|a: int| 0 <= a < i ==> bs@[a].name@ != bs@[j as int].name@,
            decreases j - i,
        {
            if bytes_eq(&bs[i].name, &bs[j].name) {
                return Some(j);
            }
            i = i + 1;
        }
        j = j + 1;
    }
    None
}

/// Whether bone `i`'s chain of named parents is longer than the bone count.
fn chain_is_cyclic(bs: &Vec<Bone>, i: usize) -> (r: bool)
    requires
        i < bs.len(),
    ensures
        r == cyclic_from(bs@, i as int),
{
    let n = bs.len();
    let mut cur: usize = i;
    let mut step: usize = 0;
    while step < n
        invariant
            n == bs.len(),
            step <= n,
            cur < n,
            ancestor(bs@, i as int, step as nat) == Some(cur as int),
        decreases n - step,
    {
        assert(ancestor(bs@, i as int, (step + 1) as nat) == named_parent(bs@, cur as int));
        let next = match &bs[cur].parent {
            Some(p) => find_bone(bs, p, n),
            None => None,
        };
        match next {
            Some(k) => {
                proof {
                    lemma_index_in_found(bs@, bs@[cur as int].parent->0@, n as int);
                }
                cur = k;
                step = step + 1;
            },
            None => {
                proof {
                    lemma_ancestor_ends(bs@, i as int, (step + 1) as nat, n as nat);
                }
                return false;
            },
        }
    }
    true
}

/// A bone that names no parent, or a parent that no bone before it is
/// called, resolves to a node attached to the synthetic root.
pub proof fn lemma_unresolved_parent_is_root(bs: Seq<Bone>, i: int, node: BoneNode)
    requires
        0 <= i < bs.len(),
        node_of(bs, i, node),
        bs[i].parent matches Some(p) ==> forall|k: int| 0 <= k < i ==> bs[k].name@ != p@,
    ensures
        node.parent == ParentRef::Root,
{
    if let Some(p) = bs[i].parent {
        lemma_index_in_found(bs, p@, i);
    }
}

/// A bone attached to another bone is attached to one that comes before it
/// and carries the name it gives as its parent; so following parents always
/// reaches the root.
pub proof fn lemma_parent_precedes(bs: Seq<Bone>, i: int)
    requires
        0 <= i < bs.len() <= usize::MAX,
    ensures
        linked_parent(bs, i) matches ParentRef::Bone(k) ==> k < i && bs[k as int].name@
            == bs[i].parent->0@,
{
    if let Some(p) = bs[i].parent {
        lemma_index_in_found(bs, p@, i);
    }
}

/// Resolves a skeleton into its hierarchy, in one pass in source order: each
/// bone attaches to the earlier bone that its parent names, or to the root
/// when it names none, or a name not seen before it. A parent named only
/// further down therefore also attaches to the root. This order dependence
/// is kept on purpose, since existing content may rely on it; linking after
/// all bones are known would let such forward references resolve.
///
/// Fails with `DuplicateBoneName` when two bones share a name, else with
/// `CyclicBoneHierarchy`, for the first bone whose chain of named parents
/// (looked up among all bones) never ends.
pub fn resolve_bones(skeleton: &Skeleton) -> (r: Result<Hierarchy, ImportError>)
    ensures
        r is Ok <==> names_distinct(skeleton.bones@) && !cyclic(skeleton.bones@),
        r matches Err(ImportError::DuplicateBoneName { name }) ==> exists|i: int, j: int|
            0 <= i < j < skeleton.bones.len() && #[trigger] skeleton.bones@[i].name@
                == name@ && #[trigger] skeleton.bones@[j].name@ == name@,
        r matches Err(e) ==> (e is DuplicateBoneName <==> !names_distinct(skeleton.bones@)),
        r matches Err(ImportError::CyclicBoneHierarchy { bone }) ==> {
            &&& bone < skeleton.bones.len()
            &&& cyclic_from(skeleton.bones@, bone as int)
            &&& forall|i: int| 0 <= i < bone ==> !cyclic_from(skeleton.bones@, i)
        },
        r matches Err(e) ==> e is DuplicateBoneName || e is CyclicBoneHierarchy,
        r matches Ok(h) ==> h.nodes.len() == skeleton.bones.len() && forall|i: int|
            0 <= i < h.nodes.len() ==> node_of(skeleton.bones@, i, #[trigger] h.nodes@[i]),
{
    let bs = &skeleton.bones;
    match first_duplicate(bs) {
        Some(j) => {
            return Err(ImportError::DuplicateBoneName { name: copy_bytes(&bs[j].name) });
        },
        None => {},
    }
    let mut c: usize = 0;
    while c < bs.len()
        invariant
            c <= bs.len(),
            bs@ == skeleton.bones@,
            names_distinct(bs@),
            forall|i: int| 0 <= i < c ==> !cyclic_from(bs@, i),
        decreases bs.len() - c,
    {
        if chain_is_cyclic(bs, c) {
            return Err(ImportError::CyclicBoneHierarchy { bone: c });
        }
        c = c + 1;
    }
    assert(!cyclic(bs@));
    let mut nodes: Vec<BoneNode> = Vec::new();
    let mut i: usize = 0;
    while i < bs.len()
        invariant
            i <= bs.len(),
            bs@ == skeleton.bones@,
            nodes.len() == i,
            forall|k: int| 0 <= k < i ==> node_of(bs@, k, #[trigger] nodes@[k]),
        decreases bs.len() - i,
    {
        let b = &bs[i];
        let parent = match &b.parent {
            Some(p) => match find_bone(bs, p, i) {
                Some(k) => ParentRef::Bone(k),
                None => ParentRef::Root,
            },
            None => ParentRef::Root,
        };
        nodes.push(
            BoneNode {
                name: copy_bytes(&b.name),
                parent,
                local_transform: LocalTransform {
                    x: b.x,
                    y: b.y,
                    rotation: b.rotation,
                    scale_x: b.scale_x,
                    scale_y: b.scale_y,
                },
            },
        );
        i = i + 1;
    }
    Ok(Hierarchy { nodes })
}

} // verus!
