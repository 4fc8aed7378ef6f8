use spine_import::atlas::{parse_atlas, Atlas, Region};
use spine_import::error::ImportError;
use spine_import::geometry::{Pixels, Ratio};
use spine_import::uv::{resolve_atlas, resolve_region, Rotation};

fn value(r: Ratio) -> f64 {
    r.num as f64 / r.den as f64
}

fn region(xy: (u32, u32), size: (u32, u32), orig: (u32, u32), rotate: bool) -> Region {
    Region {
        name: b"r".to_vec(),
        xy: Pixels { x: xy.0, y: xy.1 },
        size: Pixels { x: size.0, y: size.1 },
        orig: Pixels { x: orig.0, y: orig.1 },
        rotate,
    }
}

#[test]
fn icon_end_to_end() {
    let text = b"page.png\nsize: 100, 50\nicon\n  rotate: false\n  xy: 0, 0\n  size: 10, 10\n  orig: 10, 10\n".to_vec();
    let atlas = parse_atlas(&text).unwrap();
    let table = resolve_atlas(&atlas).unwrap();
    assert_eq!(table.texture, b"page.png".to_vec());
    assert_eq!(table.sprites.len(), 1);
    let s = &table.sprites[0];
    assert_eq!(s.name, b"icon".to_vec());
    assert_eq!((value(s.min.x), value(s.min.y)), (0.0, 0.2));
    assert_eq!((value(s.max.x), value(s.max.y)), (0.1, 0.0));
    assert_eq!((value(s.pivot.x), value(s.pivot.y)), (1.0, 1.0));
    assert_eq!(s.rotation, Rotation::Upright);
    assert_eq!(s.size, Pixels { x: 10, y: 10 });
}

#[test]
fn unrotated_extent_is_size_over_page() {
    let page = Pixels { x: 64, y: 32 };
    let s = resolve_region(&region((8, 4), (16, 6), (20, 10), false), page);
    assert_eq!(s.size, Pixels { x: 16, y: 6 });
    assert_eq!(s.min.x, Ratio { num: 8, den: 64 });
    assert_eq!(s.max.x, Ratio { num: 24, den: 64 });
    assert_eq!(s.max.x.num - s.min.x.num, 16);
    assert_eq!(s.min.y.num - s.max.y.num, 6);
    assert_eq!(s.pivot, spine_import::geometry::Uv { x: Ratio { num: 20, den: 16 }, y: Ratio { num: 10, den: 6 } });
}

#[test]
fn rotated_extent_is_swapped() {
    let page = Pixels { x: 64, y: 32 };
    let s = resolve_region(&region((8, 4), (16, 6), (20, 10), true), page);
    assert_eq!(s.rotation, Rotation::Ccw);
    assert_eq!(s.size, Pixels { x: 16, y: 6 });
    assert_eq!(s.max.x.num - s.min.x.num, 6);
    assert_eq!(s.min.y.num - s.max.y.num, 16);
    assert_eq!(s.min.y, Ratio { num: 20, den: 32 });
    assert_eq!(s.max.y, Ratio { num: 4, den: 32 });
    assert_eq!(s.pivot.x, Ratio { num: 10, den: 6 });
    assert_eq!(s.pivot.y, Ratio { num: 20, den: 16 });
}

#[test]
fn rows_are_inverted_exactly_once() {
    let page = Pixels { x: 10, y: 10 };
    let s = resolve_region(&region((2, 3), (4, 5), (4, 5), false), page);
    assert_eq!(s.max.y, Ratio { num: 3, den: 10 });
    assert_eq!(s.min.y, Ratio { num: 8, den: 10 });
    assert!(value(s.max.y) < value(s.min.y));
}

#[test]
fn corners_stay_in_unit_square() {
    let page = Pixels { x: 10, y: 10 };
    let s = resolve_region(&region((6, 0), (4, 10), (4, 10), false), page);
    for r in [s.min.x, s.min.y, s.max.x, s.max.y] {
        assert!(r.num <= r.den);
    }
    assert_eq!(value(s.max.x), 1.0);
}

#[test]
fn zero_sized_page_is_degenerate() {
    let mut atlas = Atlas { name: b"p.png".to_vec(), size: Pixels { x: 0, y: 5 }, regions: vec![] };
    assert_eq!(resolve_atlas(&atlas), Err(ImportError::DegenerateAtlasPage));
    atlas.size = Pixels { x: 5, y: 0 };
    assert_eq!(resolve_atlas(&atlas), Err(ImportError::DegenerateAtlasPage));
    atlas.size = Pixels { x: 5, y: 5 };
    assert_eq!(resolve_atlas(&atlas).unwrap().sprites.len(), 0);
}
