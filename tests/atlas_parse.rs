use spine_import::atlas::{parse_atlas, parse_bool, parse_pair, Atlas};
use spine_import::error::{AtlasField, ImportError};
use spine_import::geometry::Pixels;
use spine_import::text::{find_in, parse_u32, trim_range};

const SAMPLE: &str = "
page.png
size: 100,50
format: RGBA8888
filter: Linear,Linear
repeat: none
icon
  rotate: false
  xy: 0, 0
  size: 10, 10
  orig: 10, 10
  offset: 0, 0
  index: -1
arm
  rotate: true
  xy: 20, 4
  size: 8, 30
  orig: 30, 8
  offset: 0, 0
  index: -1
";

fn parse(s: &str) -> Result<Atlas, ImportError> {
    parse_atlas(&s.as_bytes().to_vec())
}

fn malformed(line: usize, region: &str, field: AtlasField) -> ImportError {
    ImportError::MalformedAtlas { line, region: region.as_bytes().to_vec(), field }
}

#[test]
fn parses_page_and_regions() {
    let a = parse(SAMPLE).unwrap();
    assert_eq!(a.name, b"page.png".to_vec());
    assert_eq!(a.size, Pixels { x: 100, y: 50 });
    assert_eq!(a.regions.len(), 2);
    let icon = &a.regions[0];
    assert_eq!(icon.name, b"icon".to_vec());
    assert_eq!(icon.xy, Pixels { x: 0, y: 0 });
    assert_eq!(icon.size, Pixels { x: 10, y: 10 });
    assert_eq!(icon.orig, Pixels { x: 10, y: 10 });
    assert!(!icon.rotate);
    let arm = &a.regions[1];
    assert_eq!(arm.name, b"arm".to_vec());
    assert_eq!(arm.xy, Pixels { x: 20, y: 4 });
    assert_eq!(arm.size, Pixels { x: 8, y: 30 });
    assert_eq!(arm.orig, Pixels { x: 30, y: 8 });
    assert!(arm.rotate);
}

#[test]
fn crlf_lines_and_no_regions() {
    let a = parse("p.png\r\nsize: 4, 2\r\n").unwrap();
    assert_eq!(a.name, b"p.png".to_vec());
    assert_eq!(a.size, Pixels { x: 4, y: 2 });
    assert!(a.regions.is_empty());
}

#[test]
fn unknown_keys_are_ignored() {
    let a = parse("p.png\nsize: 8,8\nr\n colour: red\n xy: 1,2\n size: 3,4\n orig: 3,4\n rotate: false\n").unwrap();
    assert_eq!(a.regions[0].xy, Pixels { x: 1, y: 2 });
}

#[test]
fn duplicate_region_name_is_rejected() {
    let text = "p.png\nsize: 8,8\nhead\nxy: 0,0\nsize: 1,1\norig: 1,1\nrotate: false\nhead\nxy: 1,1\nsize: 1,1\norig: 1,1\nrotate: false\n";
    assert_eq!(
        parse(text),
        Err(ImportError::DuplicateRegionName { name: b"head".to_vec() })
    );
}

#[test]
fn missing_region_field_names_region_and_field() {
    let text = "p.png\nsize: 8,8\nhand\nxy: 0,0\nsize: 1,1\nrotate: false\n";
    assert_eq!(parse(text), Err(malformed(3, "hand", AtlasField::Orig)));
    let text = "p.png\nsize: 8,8\nhand\nsize: 1,1\norig: 1,1\nrotate: false\n";
    assert_eq!(parse(text), Err(malformed(3, "hand", AtlasField::Xy)));
    let text = "p.png\nsize: 8,8\nhand\nxy: 0,0\nsize: 1,1\norig: 1,1\nfoot\n";
    assert_eq!(parse(text), Err(malformed(3, "hand", AtlasField::Rotate)));
}

#[test]
fn unreadable_values_name_their_line() {
    let text = "p.png\nsize: 8,8\nhand\nxy: 0;0\n";
    assert_eq!(parse(text), Err(malformed(4, "hand", AtlasField::Xy)));
    let text = "p.png\nsize: 8,8\nhand\nrotate: yes\n";
    assert_eq!(parse(text), Err(malformed(4, "hand", AtlasField::Rotate)));
    let text = "p.png\nsize: 8,-8\n";
    assert_eq!(parse(text), Err(malformed(2, "", AtlasField::PageSize)));
}

#[test]
fn page_without_name_or_size_is_rejected() {
    assert_eq!(parse(""), Err(malformed(1, "", AtlasField::PageName)));
    assert_eq!(parse("size: 1,1\n"), Err(malformed(1, "", AtlasField::PageName)));
    assert_eq!(parse("\np.png\nformat: RGBA8888\n"), Err(malformed(2, "", AtlasField::PageSize)));
}

#[test]
fn value_parsers() {
    let t = b"  12 , 345 \t".to_vec();
    assert_eq!(parse_pair(&t, 0, t.len()), Some(Pixels { x: 12, y: 345 }));
    let t = b"4294967295,4294967296".to_vec();
    assert_eq!(parse_u32(&t, 0, 10), Some(u32::MAX));
    assert_eq!(parse_u32(&t, 11, t.len()), None);
    assert_eq!(parse_pair(&t, 0, t.len()), None);
    assert_eq!(parse_u32(&t, 0, 0), None);
    let t = b"truefalse".to_vec();
    assert_eq!(parse_bool(&t, 0, 4), Some(true));
    assert_eq!(parse_bool(&t, 4, 9), Some(false));
    assert_eq!(parse_bool(&t, 0, 9), None);
}

#[test]
fn trimming_and_search() {
    let t = b" \t ab c \r".to_vec();
    assert_eq!(trim_range(&t, 0, t.len()), (3, 7));
    assert_eq!(find_in(&t, 0, t.len(), b'c'), 6);
    assert_eq!(find_in(&t, 0, t.len(), b':'), t.len());
}
