//! Sequencing of one import: atlas text to sprite table, skeleton to bone
//! hierarchy. Either both are produced whole, or the import fails.
use vstd::prelude::*;
use crate::atlas::{atlas_model, error_model, parse_atlas, region_model, spec_parse_atlas};
use crate::bones::{cyclic, names_distinct, node_of, resolve_bones, Hierarchy, Skeleton};
use crate::error::ImportError;
use crate::uv::{resolve_atlas, resolved, sprite_model, SpriteTable};

verus! {

/// The outcome of an import: the page's sprites and the bone hierarchy.
#[derive(Clone, Debug, PartialEq, Eq)]
pub struct Import {
    pub sprites: SpriteTable,
    pub hierarchy: Hierarchy,
}

/// Imports a skeleton together with the text of its companion atlas.
///
/// Without an atlas the import fails with `AtlasNotFound`: loose images are
/// not supported, and an empty sprite table is never produced. Otherwise the
/// atlas is parsed, its page must have a non-zero size, and the bones are
/// resolved; the first failure among these is the result.
pub fn import(skeleton: &Skeleton, atlas_text: Option<&Vec<u8>>) -> (r: Result<Import, ImportError>)
    requires
        atlas_text matches Some(t) ==> t.len() < usize::MAX - 1,
    ensures
        atlas_text is None ==> r == Err::<Import, ImportError>(ImportError::AtlasNotFound),
        atlas_text matches Some(t) ==> match spec_parse_atlas(t@) {
            Err(e) => r matches Err(x) && error_model(x) == e,
            Ok(m) => if m.size.x == 0 || m.size.y == 0 {
                r == Err::<Import, ImportError>(ImportError::DegenerateAtlasPage)
            } else if !names_distinct(skeleton.bones@) {
                r matches Err(ImportError::DuplicateBoneName { .. })
            } else if cyclic(skeleton.bones@) {
                r matches Err(ImportError::CyclicBoneHierarchy { .. })
            } else {
                r matches Ok(imp) && {
                    &&& imp.sprites.texture@ == m.name
                    &&& imp.sprites.sprites.len() == m.regions.len()
                    &&& forall|i: int|
                        0 <= i < m.regions.len() ==> sprite_model(
                            #[trigger] imp.sprites.sprites[i],
                        ) == resolved(m.regions[i], m.size)
                    &&& imp.hierarchy.nodes.len() == skeleton.bones.len()
                    &&& forall|i: int|
                        0 <= i < skeleton.bones.len() ==> node_of(
                            skeleton.bones@,
                            i,
                            #[trigger] imp.hierarchy.nodes@[i],
                        )
                }
            },
        },
{
    let text = match atlas_text {
        None => {
            return Err(ImportError::AtlasNotFound);
        },
        Some(t) => t,
    };
    let atlas = match parse_atlas(text) {
        Err(e) => {
            return Err(e);
        },
        Ok(a) => a,
    };
    let sprites = match resolve_atlas(&atlas) {
        Err(e) => {
            return Err(e);
        },
        Ok(s) => s,
    };
    let hierarchy = match resolve_bones(skeleton) {
        Err(e) => {
            return Err(e);
        },
        Ok(h) => h,
    };
    assert forall|i: int| 0 <= i < atlas.regions.len() implies #[trigger] atlas_model(
        atlas,
    ).regions[i] == region_model(atlas.regions[i]) by {}
    Ok(Import { sprites, hierarchy })
}

} // verus!
