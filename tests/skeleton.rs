use spine_import::bones::{
    identity, parse_skeleton, resolve_bones, Bone, BoneRecord, LocalTransform, ParentRef,
    Skeleton, ONE,
};
use spine_import::error::{BoneField, ImportError};
use spine_import::import::import;

fn record(name: &str, parent: Option<&str>) -> BoneRecord {
    BoneRecord {
        name: Some(name.as_bytes().to_vec()),
        parent: parent.map(|p| p.as_bytes().to_vec()),
        x: None,
        y: None,
        rotation: None,
        scale_x: None,
        scale_y: None,
    }
}

fn bone(name: &str, parent: Option<&str>) -> Bone {
    Bone {
        name: name.as_bytes().to_vec(),
        parent: parent.map(|p| p.as_bytes().to_vec()),
        x: 0,
        y: 0,
        rotation: 0,
        scale_x: ONE,
        scale_y: ONE,
    }
}

#[test]
fn defaults_are_filled_in() {
    let mut r = record("root", None);
    r.scale_y = Some(2500);
    let s = parse_skeleton(&vec![r]).unwrap();
    assert_eq!(s.bones.len(), 1);
    let b = &s.bones[0];
    assert_eq!(b.name, b"root".to_vec());
    assert_eq!(b.parent, None);
    assert_eq!((b.x, b.y, b.rotation, b.scale_x, b.scale_y), (0, 0, 0, 1000, 2500));
}

#[test]
fn unnamed_bone_is_malformed() {
    let mut r = record("x", None);
    r.name = None;
    let recs = vec![record("root", None), r];
    assert_eq!(
        parse_skeleton(&recs),
        Err(ImportError::MalformedSkeleton { bone: 1, field: BoneField::Name })
    );
}

#[test]
fn duplicate_hip_is_rejected() {
    let recs = vec![record("hip", None), record("leg", Some("hip")), record("hip", None)];
    assert_eq!(
        parse_skeleton(&recs),
        Err(ImportError::DuplicateBoneName { name: b"hip".to_vec() })
    );
    let skel = Skeleton { bones: vec![bone("hip", None), bone("hip", None)] };
    assert_eq!(
        resolve_bones(&skel),
        Err(ImportError::DuplicateBoneName { name: b"hip".to_vec() })
    );
}

#[test]
fn two_bone_cycle_is_rejected() {
    let skel = Skeleton { bones: vec![bone("A", Some("B")), bone("B", Some("A"))] };
    assert_eq!(resolve_bones(&skel), Err(ImportError::CyclicBoneHierarchy { bone: 0 }));
    let skel = Skeleton { bones: vec![bone("root", None), bone("self", Some("self"))] };
    assert_eq!(resolve_bones(&skel), Err(ImportError::CyclicBoneHierarchy { bone: 1 }));
}

#[test]
fn root_arm_end_to_end() {
    let mut arm = record("arm", Some("root"));
    arm.x = Some(5 * ONE);
    arm.y = Some(0);
    arm.rotation = Some(90 * ONE);
    let skel = parse_skeleton(&vec![record("root", None), arm]).unwrap();
    let h = resolve_bones(&skel).unwrap();
    assert_eq!(h.nodes.len(), 2);
    assert_eq!(h.nodes[0].name, b"root".to_vec());
    assert_eq!(h.nodes[0].parent, ParentRef::Root);
    assert_eq!(h.nodes[1].name, b"arm".to_vec());
    assert_eq!(h.nodes[1].parent, ParentRef::Bone(0));
    assert_eq!(
        h.nodes[1].local_transform,
        LocalTransform { x: 5000, y: 0, rotation: 90000, scale_x: 1000, scale_y: 1000 }
    );
    assert_eq!(h.nodes[0].local_transform, identity());
}

#[test]
fn unresolvable_parents_attach_to_root() {
    let skel = Skeleton {
        bones: vec![
            bone("hand", Some("arm")),
            bone("arm", None),
            bone("ghost", Some("nobody")),
            bone("finger", Some("hand")),
        ],
    };
    let h = resolve_bones(&skel).unwrap();
    assert_eq!(h.nodes[0].parent, ParentRef::Root);
    assert_eq!(h.nodes[1].parent, ParentRef::Root);
    assert_eq!(h.nodes[2].parent, ParentRef::Root);
    assert_eq!(h.nodes[3].parent, ParentRef::Bone(0));
}

#[test]
fn missing_atlas_is_an_error() {
    let skel = Skeleton { bones: vec![bone("root", None)] };
    assert_eq!(import(&skel, None), Err(ImportError::AtlasNotFound));
}

#[test]
fn import_resolves_both_sides() {
    let skel = Skeleton { bones: vec![bone("root", None), bone("arm", Some("root"))] };
    let text = b"p.png\nsize: 10,10\nicon\nxy: 0,0\nsize: 5,5\norig: 5,5\nrotate: false\n".to_vec();
    let imp = import(&skel, Some(&text)).unwrap();
    assert_eq!(imp.sprites.texture, b"p.png".to_vec());
    assert_eq!(imp.sprites.sprites.len(), 1);
    assert_eq!(imp.hierarchy.nodes[1].parent, ParentRef::Bone(0));
    let flat = b"p.png\nsize: 0,10\n".to_vec();
    assert_eq!(import(&skel, Some(&flat)), Err(ImportError::DegenerateAtlasPage));
    let cyc = Skeleton { bones: vec![bone("A", Some("B")), bone("B", Some("A"))] };
    assert_eq!(import(&cyc, Some(&text)), Err(ImportError::CyclicBoneHierarchy { bone: 0 }));
}
