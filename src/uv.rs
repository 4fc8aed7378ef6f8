//! Resolution of atlas regions into normalized texture rectangles.
//!
//! Known limitation: the one-pixel border of each region is not compensated
//! for, so tightly packed atlases may bleed texels of neighbouring regions.
//! Atlases that need bleed-free sampling must pad their regions upstream.
use vstd::prelude::*;
use crate::atlas::{region_model, Atlas, Region, RegionModel};
use crate::error::ImportError;
use crate::geometry::{Pixels, Ratio, Uv};
use crate::text::copy_bytes;

verus! {

/// How a sprite's texels are oriented in the page.
#[derive(Clone, Copy, Debug, PartialEq, Eq, Structural)]
pub enum Rotation {
    Upright,
    /// Stored rotated 90 degrees counter-clockwise.
    Ccw,
}

/// A region resolved against its page.
///
/// `min.y` and `max.y` are exchanged with respect to the pixel rows: the
/// page's rows run top to bottom from `xy`, texture space runs bottom to top.
#[derive(Clone, Debug, PartialEq, Eq)]
pub struct ResolvedSprite {
    pub name: Vec<u8>,
    pub min: Uv,
    pub max: Uv,
    pub rotation: Rotation,
    /// The packed pixel size of the region, as stored.
    pub size: Pixels,
    /// Anchor: the original size divided by the footprint, both in page
    /// orientation. A footprint of zero width or height leaves a zero
    /// denominator here.
    pub pivot: Uv,
}

/// A page's sprites; they all sample the one texture named `texture`.
#[derive(Clone, Debug, PartialEq, Eq)]
pub struct SpriteTable {
    pub texture: Vec<u8>,
    pub sprites: Vec<ResolvedSprite>,
}

/// A resolved sprite, as a mathematical value.
pub struct SpriteModel {
    pub name: Seq<u8>,
    pub min: Uv,
    pub max: Uv,
    pub rotation: Rotation,
    pub size: Pixels,
    pub pivot: Uv,
}

pub open spec fn sprite_model(s: ResolvedSprite) -> SpriteModel {
    SpriteModel {
        name: s.name@,
        min: s.min,
        max: s.max,
        rotation: s.rotation,
        size: s.size,
        pivot: s.pivot,
    }
}

/// The footprint in page orientation: `size`, exchanged when rotated.
pub open spec fn footprint(r: RegionModel) -> Pixels {
    if r.rotate { r.size.spec_swapped() } else { r.size }
}

/// The footprint of `r` lies within a page of size `page`.
pub open spec fn footprint_fits(r: RegionModel, page: Pixels) -> bool {
    r.xy.x + footprint(r).x <= page.x && r.xy.y + footprint(r).y <= page.y
}

pub open spec fn ratio(num: int, den: int) -> Ratio {
    Ratio { num: num as u64, den: den as u64 }
}

/// What `resolve_region` yields for a region on a page of size `page`.
pub open spec fn resolved(r: RegionModel, page: Pixels) -> SpriteModel {
    let f = footprint(r);
    let o = if r.rotate { r.orig.spec_swapped() } else { r.orig };
    SpriteModel {
        name: r.name,
        min: Uv { x: ratio(r.xy.x as int, page.x as int), y: ratio(r.xy.y + f.y, page.y as int) },
        max: Uv { x: ratio(r.xy.x + f.x, page.x as int), y: ratio(r.xy.y as int, page.y as int) },
        rotation: if r.rotate { Rotation::Ccw } else { Rotation::Upright },
        size: r.size,
        pivot: Uv { x: ratio(o.x as int, f.x as int), y: ratio(o.y as int, f.y as int) },
    }
}

/// Resolves one region against a page of size `page`.
pub fn resolve_region(region: &Region, page: Pixels) -> (s: ResolvedSprite)
    ensures
        sprite_model(s) == resolved(region_model(*region), page),
{
    let f = if region.rotate { region.size.swapped() } else { region.size };
    let o = if region.rotate { region.orig.swapped() } else { region.orig };
    let (px, py) = (page.x as u64, page.y as u64);
    let min = Uv {
        x: Ratio { num: region.xy.x as u64, den: px },
        y: Ratio { num: region.xy.y as u64 + f.y as u64, den: py },
    };
    let max = Uv {
        x: Ratio { num: region.xy.x as u64 + f.x as u64, den: px },
        y: Ratio { num: region.xy.y as u64, den: py },
    };
    ResolvedSprite {
        name: copy_bytes(&region.name),
        min,
        max,
        rotation: if region.rotate { Rotation::Ccw } else { Rotation::Upright },
        size: region.size,
        pivot: Uv {
            x: Ratio { num: o.x as u64, den: f.x as u64 },
            y: Ratio { num: o.y as u64, den: f.y as u64 },
        },
    }
}

/// Resolves every region of `atlas` against its page, in order. Fails with
/// `DegenerateAtlasPage` exactly when the page has a zero component.
pub fn resolve_atlas(atlas: &Atlas) -> (r: Result<SpriteTable, ImportError>)
    ensures
        r is Err <==> (atlas.size.x == 0 || atlas.size.y == 0),
        r is Err ==> r->Err_0 == ImportError::DegenerateAtlasPage,
        r matches Ok(t) ==> {
            &&& t.texture@ == atlas.name@
            &&& t.sprites.len() == atlas.regions.len()
            &&& forall|i: int|
                0 <= i < t.sprites.len() ==> sprite_model(#[trigger] t.sprites[i]) == resolved(
                    region_model(atlas.regions[i]),
                    atlas.size,
                )
        },
{
    if atlas.size.x == 0 || atlas.size.y == 0 {
        return Err(ImportError::DegenerateAtlasPage);
    }
    let mut sprites: Vec<ResolvedSprite> = Vec::new();
    let mut i: usize = 0;
    while i < atlas.regions.len()
        invariant
            i <= atlas.regions.len(),
            sprites.len() == i,
            forall|j: int|
                0 <= j < i ==> sprite_model(#[trigger] sprites[j]) == resolved(
                    region_model(atlas.regions[j]),
                    atlas.size,
                ),
        decreases atlas.regions.len() - i,
    {
        let s = resolve_region(&atlas.regions[i], atlas.size);
        sprites.push(s);
        i = i + 1;
    }
    Ok(SpriteTable { texture: copy_bytes(&atlas.name), sprites })
}

/// An unrotated region keeps its packed size, and its texture rectangle
/// (with the row interval turned back) spans exactly `region.size` over
/// `page` along each axis.
pub proof fn lemma_unrotated_extent(region: RegionModel, page: Pixels)
    requires
        !region.rotate,
    ensures
        ({
            let s = resolved(region, page);
            &&& s.size == region.size
            &&& s.min.x.den == page.x && s.max.x.den == page.x
            &&& s.min.y.den == page.y && s.max.y.den == page.y
            &&& s.max.x.num - s.min.x.num == region.size.x
            &&& s.min.y.num - s.max.y.num == region.size.y
        }),
{
}

/// A rotated region's texture rectangle has the packed width and height
/// exchanged: it spans `size.y` pixels of the page horizontally and `size.x`
/// vertically.
pub proof fn lemma_rotated_extent(region: RegionModel, page: Pixels)
    requires
        region.rotate,
    ensures
        ({
            let s = resolved(region, page);
            &&& s.size == region.size
            &&& s.rotation == Rotation::Ccw
            &&& s.min.x.den == page.x && s.max.x.den == page.x
            &&& s.min.y.den == page.y && s.max.y.den == page.y
            &&& s.max.x.num - s.min.x.num == region.size.y
            &&& s.min.y.num - s.max.y.num == region.size.x
        }),
{
}

/// The row interval is inverted exactly once: `max.y` is the top row of the
/// region and `min.y` the row below its bottom, so `max.y <= min.y` on a
/// common denominator, strictly when the footprint has height.
pub proof fn lemma_rows_inverted_once(region: RegionModel, page: Pixels)
    ensures
        ({
            let s = resolved(region, page);
            &&& s.min.y.den == s.max.y.den
            &&& s.max.y.num == region.xy.y
            &&& s.min.y.num == region.xy.y + footprint(region).y
            &&& s.max.y.num <= s.min.y.num
            &&& (footprint(region).y > 0 ==> s.max.y.num < s.min.y.num)
        }),
{
}

/// A region whose footprint lies within the page resolves to corners inside
/// the unit square.
pub proof fn lemma_corners_in_unit_square(region: RegionModel, page: Pixels)
    requires
        footprint_fits(region, page),
    ensures
        ({
            let s = resolved(region, page);
            &&& s.min.x.spec_le_one() && s.min.y.spec_le_one()
            &&& s.max.x.spec_le_one() && s.max.y.spec_le_one()
        }),
{
}

} // verus!
