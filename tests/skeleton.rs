use actionq::{coco18_keypoint, skeleton_map_body_coco18, COCO18_LEN};

#[test]
fn names_follow_coco18_order() {
    let skeleton = vec![(1, 2), (3, 4), (5, 6)];
    let named = skeleton_map_body_coco18(&skeleton);
    assert_eq!(
        named,
        vec![
            ("nose".to_string(), (1, 2)),
            ("neck".to_string(), (3, 4)),
            ("right_shoulder".to_string(), (5, 6)),
        ]
    );
}

#[test]
fn full_body_has_eighteen_names() {
    let skeleton: Vec<u32> = (0..COCO18_LEN as u32).collect();
    let named = skeleton_map_body_coco18(&skeleton);
    assert_eq!(named.len(), 18);
    assert_eq!(named[17], ("left_ear".to_string(), 17));
    assert_eq!(coco18_keypoint(13), "left_ankle");
}

#[test]
fn empty_skeleton_maps_to_nothing() {
    let skeleton: Vec<u8> = vec![];
    assert!(skeleton_map_body_coco18(&skeleton).is_empty());
}
