//! Keypoint vocabulary of the pose source and the frames it delivers.

use vstd::prelude::*;

verus! {

/// Number of keypoints in the COCO18 body.
pub const COCO18_LEN: usize = 18;

/// Name of keypoint `i` of the COCO18 body.
pub open spec fn coco18_name(i: int) -> Seq<char> {
    if i == 0 { "nose"@ }
    else if i == 1 { "neck"@ }
    else if i == 2 { "right_shoulder"@ }
    else if i == 3 { "right_elbow"@ }
    else if i == 4 { "right_wrist"@ }
    else if i == 5 { "left_shoulder"@ }
    else if i == 6 { "left_elbow"@ }
    else if i == 7 { "left_wrist"@ }
    else if i == 8 { "right_hip"@ }
    else if i == 9 { "right_knee"@ }
    else if i == 10 { "right_ankle"@ }
    else if i == 11 { "left_hip"@ }
    else if i == 12 { "left_knee"@ }
    else if i == 13 { "left_ankle"@ }
    else if i == 14 { "right_eye"@ }
    else if i == 15 { "left_eye"@ }
    else if i == 16 { "right_ear"@ }
    else { "left_ear"@ }
}

/// The name of keypoint `i` of the COCO18 body.
pub fn coco18_keypoint(i: usize) -> (r: String)
    requires
        i < COCO18_LEN,
    ensures
        r@ == coco18_name(i as int),
{
    let s = match i {
        0 => "nose",
        1 => "neck",
        2 => "right_shoulder",
        3 => "right_elbow",
        4 => "right_wrist",
        5 => "left_shoulder",
        6 => "left_elbow",
        7 => "left_wrist",
        8 => "right_hip",
        9 => "right_knee",
        10 => "right_ankle",
        11 => "left_hip",
        12 => "left_knee",
        13 => "left_ankle",
        14 => "right_eye",
        15 => "left_eye",
        16 => "right_ear",
        _ => "left_ear",
    };
    s.to_owned()
}

/// Keypoints named after the COCO18 body: entry `i` pairs the name of
/// keypoint `i` with its position.
pub fn skeleton_map_body_coco18<T: Clone>(skeleton: &Vec<T>) -> (r: Vec<(String, T)>)
    requires
        skeleton@.len() <= COCO18_LEN,
    ensures
        r@.len() == skeleton@.len(),
        forall|i: int|
            0 <= i < r@.len() ==> (#[trigger] r@[i]).0@ == coco18_name(i) && cloned(skeleton@[i], r@[i].1),
{
    let mut r: Vec<(String, T)> = Vec::new();
    let mut i: usize = 0;
    while i < skeleton.len()
        invariant
            i <= skeleton@.len() <= COCO18_LEN,
            r@.len() == i,
            forall|j: int|
                0 <= j < i ==> (#[trigger] r@[j]).0@ == coco18_name(j) && cloned(skeleton@[j], r@[j].1),
        decreases skeleton@.len() - i,
    {
        let pos = skeleton[i].clone();
        r.push((coco18_keypoint(i), pos));
        i = i + 1;
    }
    r
}

/// Width and height of a frame, in pixels.
#[derive(Clone, Copy, Debug, PartialEq, Eq, Structural)]
pub struct Resolution {
    pub w: usize,
    pub h: usize,
}

/// Raw pixels of a frame and its size.
#[derive(Debug)]
pub struct Framebuffer {
    pub storage: Vec<u8>,
    pub size: (u32, u32),
}

} // verus!
