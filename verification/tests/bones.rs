use ragnarek_core::bones::{body_part_from_index, body_part_index, BodyPart, BoneMap, Hitbox};

fn model(names: &[&str]) -> Vec<String> {
    names.iter().map(|s| s.to_string()).collect()
}

#[test]
fn bone_lookup_tries_names_in_preference_order() {
    let map = BoneMap::new();
    // A model that uses the most preferred head name.
    let m1 = model(&["pelvis", "head", "neck_0"]);
    assert_eq!(map.find_bone_index(BodyPart::Head, &m1), Some(1));
    // One that only has a fallback naming convention.
    let m2 = model(&["bip_head", "bip_neck"]);
    assert_eq!(map.find_bone_index(BodyPart::Head, &m2), Some(0));
    assert_eq!(map.find_bone_index(BodyPart::Neck, &m2), Some(1));
    // The earlier listed name wins even when both are present.
    let m3 = model(&["bip_head", "head"]);
    assert_eq!(map.find_bone_index(BodyPart::Head, &m3), Some(1));
    assert_eq!(map.find_bone_index(BodyPart::Pelvis, &m3), None);
}

#[test]
fn bone_name_lists_are_the_stock_ones() {
    let map = BoneMap::new();
    let head = map.get_bone_names(BodyPart::Head);
    assert_eq!(head, model(&["head", "head_0", "face", "bip_head", "ValveBiped.Bip01_Head1"]));
    assert_eq!(map.get_primary_bone_name(BodyPart::Pelvis), Some(String::from("pelvis")));
}

#[test]
fn whole_model_mapping_resolves_in_canonical_order() {
    let map = BoneMap::new();
    let m = model(&["head", "pelvis", "spine_2", "foot_l"]);
    let resolved = map.map_bones_to_model(&m);
    let parts: Vec<BodyPart> = resolved.iter().map(|p| p.0).collect();
    assert_eq!(
        parts,
        vec![BodyPart::Head, BodyPart::UpperSpine, BodyPart::Pelvis, BodyPart::LeftFoot]
    );
    assert_eq!(resolved[0].1, 0);
    assert_eq!(resolved[2].1, 1);
}

#[test]
fn extract_bone_names_copies_in_order() {
    let names = BoneMap::extract_bone_names(&["head", "neck_0", "pelvis"]);
    assert_eq!(names, model(&["head", "neck_0", "pelvis"]));
}

#[test]
fn body_part_indices_round_trip() {
    for i in 0..18usize {
        let p = body_part_from_index(i).expect("valid index");
        assert_eq!(body_part_index(p), i);
    }
    assert!(body_part_from_index(18).is_none());
}

#[test]
fn hitbox_priorities_order_head_first() {
    assert_eq!(Hitbox::Head.priority(), 8);
    assert_eq!(Hitbox::Neck.priority(), 7);
    assert_eq!(Hitbox::UpperChest.priority(), 6);
    assert_eq!(Hitbox::Chest.priority(), 5);
    assert_eq!(Hitbox::LowerChest.priority(), 4);
    assert_eq!(Hitbox::Stomach.priority(), 3);
    assert_eq!(Hitbox::Pelvis.priority(), 2);
    assert_eq!(Hitbox::Head.get_bone_name(), "head_0");
    assert_eq!(Hitbox::Pelvis.get_bone_name(), "pelvis");
}
