//! The errors an import can end with. Each is terminal for that import.
use vstd::prelude::*;

verus! {

/// The field of an atlas page or region that was missing or unreadable.
#[derive(Clone, Copy, Debug, PartialEq, Eq, Structural)]
pub enum AtlasField {
    PageName,
    PageSize,
    Rotate,
    Xy,
    Size,
    Orig,
}

/// The field of a bone record that was missing.
#[derive(Clone, Copy, Debug, PartialEq, Eq, Structural)]
pub enum BoneField {
    Name,
}

#[derive(Clone, Debug, PartialEq, Eq)]
pub enum ImportError {
    /// A page or region field is missing or cannot be read. `line` is the
    /// 1-based line of the unreadable value, or of the header of the block
    /// that lacks the field; `region` is empty for the page itself.
    MalformedAtlas { line: usize, region: Vec<u8>, field: AtlasField },
    /// Two regions of one atlas share a name.
    DuplicateRegionName { name: Vec<u8> },
    /// A bone record lacks a required field; `bone` is its index.
    MalformedSkeleton { bone: usize, field: BoneField },
    /// Two bones of one skeleton share a name.
    DuplicateBoneName { name: Vec<u8> },
    /// The atlas page has a zero width or height.
    DegenerateAtlasPage,
    /// Following named parents from the bone at index `bone` never ends.
    CyclicBoneHierarchy { bone: usize },
    /// No atlas accompanies the skeleton.
    AtlasNotFound,
}

} // verus!
