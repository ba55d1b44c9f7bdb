//! Skeletal aim-point resolution.
//!
//! A `BoneMap` maps anatomical body parts to candidate bone names in
//! preference order, so a desired target zone resolves to a concrete
//! bone index of whatever model the snapshot provider reports.

use vstd::prelude::*;

verus! {

/// Anatomical regions of a player model.
#[derive(Clone, Copy, Debug, PartialEq, Eq, Structural)]
pub enum BodyPart {
    Head,
    Neck,
    UpperSpine,
    MiddleSpine,
    LowerSpine,
    Pelvis,
    LeftShoulder,
    LeftElbow,
    LeftHand,
    RightShoulder,
    RightElbow,
    RightHand,
    LeftHip,
    LeftKnee,
    LeftFoot,
    RightHip,
    RightKnee,
    RightFoot,
}

/// How many body parts exist; bone lists are indexed by part.
pub const BODY_PART_COUNT: usize = 18;

/// Closed body-part-to-index mapping; `body_part_from_index` inverts it.
pub open spec fn spec_body_part_index(p: BodyPart) -> int {
    match p {
        BodyPart::Head => 0,
        BodyPart::Neck => 1,
        BodyPart::UpperSpine => 2,
        BodyPart::MiddleSpine => 3,
        BodyPart::LowerSpine => 4,
        BodyPart::Pelvis => 5,
        BodyPart::LeftShoulder => 6,
        BodyPart::LeftElbow => 7,
        BodyPart::LeftHand => 8,
        BodyPart::RightShoulder => 9,
        BodyPart::RightElbow => 10,
        BodyPart::RightHand => 11,
        BodyPart::LeftHip => 12,
        BodyPart::LeftKnee => 13,
        BodyPart::LeftFoot => 14,
        BodyPart::RightHip => 15,
        BodyPart::RightKnee => 16,
        BodyPart::RightFoot => 17,
    }
}

/// Index of a body part in the canonical order.
pub fn body_part_index(p: BodyPart) -> (r: usize)
    ensures
        r == spec_body_part_index(p),
        r < BODY_PART_COUNT,
{
    match p {
        BodyPart::Head => 0,
        BodyPart::Neck => 1,
        BodyPart::UpperSpine => 2,
        BodyPart::MiddleSpine => 3,
        BodyPart::LowerSpine => 4,
        BodyPart::Pelvis => 5,
        BodyPart::LeftShoulder => 6,
        BodyPart::LeftElbow => 7,
        BodyPart::LeftHand => 8,
        BodyPart::RightShoulder => 9,
        BodyPart::RightElbow => 10,
        BodyPart::RightHand => 11,
        BodyPart::LeftHip => 12,
        BodyPart::LeftKnee => 13,
        BodyPart::LeftFoot => 14,
        BodyPart::RightHip => 15,
        BodyPart::RightKnee => 16,
        BodyPart::RightFoot => 17,
    }
}

/// The body part at an index of the canonical order.
pub fn body_part_from_index(i: usize) -> (r: Option<BodyPart>)
    ensures
        i < BODY_PART_COUNT ==> (r matches Some(p) && spec_body_part_index(p) == i),
        i >= BODY_PART_COUNT ==> r is None,
{
    match i {
        0 => Some(BodyPart::Head),
        1 => Some(BodyPart::Neck),
        2 => Some(BodyPart::UpperSpine),
        3 => Some(BodyPart::MiddleSpine),
        4 => Some(BodyPart::LowerSpine),
        5 => Some(BodyPart::Pelvis),
        6 => Some(BodyPart::LeftShoulder),
        7 => Some(BodyPart::LeftElbow),
        8 => Some(BodyPart::LeftHand),
        9 => Some(BodyPart::RightShoulder),
        10 => Some(BodyPart::RightElbow),
        11 => Some(BodyPart::RightHand),
        12 => Some(BodyPart::LeftHip),
        13 => Some(BodyPart::LeftKnee),
        14 => Some(BodyPart::LeftFoot),
        15 => Some(BodyPart::RightHip),
        16 => Some(BodyPart::RightKnee),
        17 => Some(BodyPart::RightFoot),
        _ => None,
    }
}

/// The two index mappings invert each other.
pub proof fn lemma_body_part_index_roundtrip(p: BodyPart)
    ensures
        spec_body_part_index(p) < BODY_PART_COUNT,
        0 <= spec_body_part_index(p),
{
}

/// No two body parts share an index.
pub proof fn lemma_body_part_index_injective(p: BodyPart, q: BodyPart)
    requires
        spec_body_part_index(p) == spec_body_part_index(q),
    ensures
        p == q,
{
}

/// Hitboxes a shot can be aimed at, by decreasing targeting priority.
#[derive(Clone, Copy, Debug, PartialEq, Eq, Structural)]
pub enum Hitbox {
    Head,
    Neck,
    UpperChest,
    Chest,
    LowerChest,
    Stomach,
    Pelvis,
}

impl Hitbox {
    /// Targeting priority: the head scores highest, the pelvis lowest.
    pub fn priority(&self) -> (r: u8)
        ensures
            r == self.spec_priority(),
            2 <= r <= 8,
    {
        match self {
            Hitbox::Head => 8,
            Hitbox::Neck => 7,
            Hitbox::UpperChest => 6,
            Hitbox::Chest => 5,
            Hitbox::LowerChest => 4,
            Hitbox::Stomach => 3,
            Hitbox::Pelvis => 2,
        }
    }

    pub open spec fn spec_priority(&self) -> u8 {
        match self {
            Hitbox::Head => 8,
            Hitbox::Neck => 7,
            Hitbox::UpperChest => 6,
            Hitbox::Chest => 5,
            Hitbox::LowerChest => 4,
            Hitbox::Stomach => 3,
            Hitbox::Pelvis => 2,
        }
    }

    /// The bone name this hitbox resolves to on standard models.
    pub fn get_bone_name(&self) -> (r: &'static str)
        ensures
            r@ == self.spec_bone_name(),
    {
        match self {
            Hitbox::Head => "head_0",
            Hitbox::Neck => "neck_0",
            Hitbox::UpperChest => "spine_2",
            Hitbox::Chest => "spine_1",
            Hitbox::LowerChest => "spine_0",
            Hitbox::Stomach => "spine_0",
            Hitbox::Pelvis => "pelvis",
        }
    }

    pub open spec fn spec_bone_name(&self) -> Seq<char> {
        match self {
            Hitbox::Head => "head_0"@,
            Hitbox::Neck => "neck_0"@,
            Hitbox::UpperChest => "spine_2"@,
            Hitbox::Chest => "spine_1"@,
            Hitbox::LowerChest => "spine_0"@,
            Hitbox::Stomach => "spine_0"@,
            Hitbox::Pelvis => "pelvis"@,
        }
    }
}

/// Index of the first bone whose name equals `name`; negative if none.
pub open spec fn spec_name_index(bones: Seq<Seq<char>>, name: Seq<char>) -> int
    decreases bones.len(),
{
    if bones.len() == 0 {
        -1
    } else if bones.first() == name {
        0
    } else {
        let r = spec_name_index(bones.drop_first(), name);
        if r < 0 {
            -1
        } else {
            r + 1
        }
    }
}

/// Resolution of a preference-ordered name list against a model's
/// bones: the match of the earliest listed name that resolves.
pub open spec fn spec_resolve(names: Seq<Seq<char>>, bones: Seq<Seq<char>>) -> Option<int>
    decreases names.len(),
{
    if names.len() == 0 {
        None
    } else if spec_name_index(bones, names.first()) >= 0 {
        Some(spec_name_index(bones, names.first()))
    } else {
        spec_resolve(names.drop_first(), bones)
    }
}

/// The character sequences of a list of strings.
pub open spec fn names_view(s: Seq<String>) -> Seq<Seq<char>> {
    s.map(|i: int, x: String| x@)
}

/// Preference-ordered candidate bone names per body part.
#[derive(Debug)]
pub struct BoneMap {
    mappings: Vec<Vec<String>>,
}

impl BoneMap {
    /// The name lists this map holds, by body-part index.
    pub closed spec fn contents(&self) -> Seq<Seq<Seq<char>>> {
        self.mappings@.map(|i: int, v: Vec<String>| names_view(v@))
    }

    pub open spec fn wf(&self) -> bool {
        self.contents().len() == BODY_PART_COUNT
    }

    /// The candidate names for one body part, most preferred first.
    pub open spec fn spec_names(&self, p: BodyPart) -> Seq<Seq<char>>
        recommends
            self.wf(),
    {
        self.contents()[spec_body_part_index(p)]
    }

    /// Creates the map with the stock name lists of `spec_default_names`.
    pub fn new() -> (r: BoneMap)
        ensures
            r.wf(),
            forall|p: BodyPart| r.spec_names(p) == spec_default_names(p),
    {
        Self::default_map()
    }

    /// Finds the model bone index for a body part: candidate names are
    /// tried most-preferred first, each against the model's bone list.
    pub fn find_bone_index(&self, body_part: BodyPart, bone_names: &[String]) -> (r: Option<
        usize,
    >)
        requires
            self.wf(),
        ensures
            match r {
                Some(i) => spec_resolve(self.spec_names(body_part), names_view(bone_names@))
                    == Some(i as int) && i < bone_names@.len(),
                None => spec_resolve(self.spec_names(body_part), names_view(bone_names@))
                    is None,
            },
    {
        let pi = body_part_index(body_part);
        let names = &self.mappings[pi];
        let ghost nseq = names_view(names@);
        proof {
            assert(nseq == self.spec_names(body_part));
            assert(nseq.skip(0) =~= nseq);
        }
        let mut k: usize = 0;
        while k < names.len()
            invariant
                self.wf(),
                nseq == self.spec_names(body_part),
                k <= names@.len(),
                nseq == names_view(names@),
                nseq.len() == names@.len(),
                spec_resolve(nseq, names_view(bone_names@)) == spec_resolve(
                    nseq.skip(k as int),
                    names_view(bone_names@),
                ),
            decreases names@.len() - k,
        {
            proof {
                assert(nseq.skip(k as int).first() == nseq[k as int]);
                assert(nseq.skip(k as int).drop_first() =~= nseq.skip(k + 1));
                assert(nseq[k as int] == names@[k as int]@);
            }
            let found = name_index(&names[k], bone_names);
            match found {
                Some(i) => {
                    return Some(i);
                },
                None => {},
            }
            k = k + 1;
        }
        proof {
            assert(nseq.skip(k as int).len() == 0);
        }
        None
    }

    /// The candidate names stored for a body part, most preferred first.
    pub fn get_bone_names(&self, body_part: BodyPart) -> (r: Vec<String>)
        requires
            self.wf(),
        ensures
            names_view(r@) =~= self.spec_names(body_part),
    {
        let pi = body_part_index(body_part);
        let names = &self.mappings[pi];
        let mut out: Vec<String> = Vec::new();
        let mut k: usize = 0;
        while k < names.len()
            invariant
                k <= names@.len(),
                names_view(out@) =~= names_view(names@).subrange(0, k as int),
            decreases names@.len() - k,
        {
            let ghost prev = out@;
            out.push(names[k].clone());
            proof {
                assert(names_view(out@) =~= names_view(prev).push(names@[k as int]@));
                assert(names_view(names@).subrange(0, k + 1) =~= names_view(names@).subrange(
                    0,
                    k as int,
                ).push(names@[k as int]@));
            }
            k = k + 1;
        }
        proof {
            assert(names_view(out@) =~= names_view(names@));
        }
        out
    }

    /// The most preferred candidate name for a body part.
    pub fn get_primary_bone_name(&self, body_part: BodyPart) -> (r: Option<String>)
        requires
            self.wf(),
        ensures
            self.spec_names(body_part).len() == 0 ==> r is None,
            self.spec_names(body_part).len() > 0 ==> (r matches Some(s) && s@ == self.spec_names(
                body_part,
            ).first()),
    {
        let pi = body_part_index(body_part);
        let names = &self.mappings[pi];
        if names.len() == 0 {
            None
        } else {
            Some(names[0].clone())
        }
    }

    /// Resolves every body part against a model's bone list: exactly
    /// the parts that resolve appear, in canonical order, each with the
    /// index its name list resolves to.
    pub fn map_bones_to_model(&self, bone_names: &[String]) -> (r: Vec<(BodyPart, usize)>)
        requires
            self.wf(),
        ensures
            forall|k: int|
                0 <= k < r@.len() ==> spec_resolve(
                    self.spec_names((#[trigger] r@[k]).0),
                    names_view(bone_names@),
                ) == Some(r@[k].1 as int) && r@[k].1 < bone_names@.len(),
            forall|k1: int, k2: int|
                #![trigger r@[k1], r@[k2]]
                0 <= k1 < k2 < r@.len() ==> spec_body_part_index(r@[k1].0) < spec_body_part_index(
                    r@[k2].0,
                ),
            // Completeness: every body part that resolves appears.
            forall|p: BodyPart|
                (#[trigger] spec_resolve(self.spec_names(p), names_view(bone_names@))) is Some
                    ==> exists|k: int| 0 <= k < r@.len() && (#[trigger] r@[k]).0 == p,
    {
        let mut out: Vec<(BodyPart, usize)> = Vec::new();
        let mut i: usize = 0;
        while i < BODY_PART_COUNT
            invariant
                self.wf(),
                i <= BODY_PART_COUNT,
                forall|k: int|
                    0 <= k < out@.len() ==> spec_resolve(
                        self.spec_names((#[trigger] out@[k]).0),
                        names_view(bone_names@),
                    ) == Some(out@[k].1 as int) && out@[k].1 < bone_names@.len(),
                forall|k: int|
                    0 <= k < out@.len() ==> spec_body_part_index((#[trigger] out@[k]).0) < i,
                forall|k1: int, k2: int|
                    #![trigger out@[k1], out@[k2]]
                    0 <= k1 < k2 < out@.len() ==> spec_body_part_index(out@[k1].0)
                        < spec_body_part_index(out@[k2].0),
                forall|p: BodyPart|
                    spec_body_part_index(p) < i && (#[trigger] spec_resolve(
                        self.spec_names(p),
                        names_view(bone_names@),
                    )) is Some ==> exists|k: int| 0 <= k < out@.len() && (#[trigger] out@[k]).0
                        == p,
            decreases BODY_PART_COUNT - i,
        {
            let part = body_part_from_index(i);
            match part {
                Some(p) => {
                    let ghost before = out@;
                    match self.find_bone_index(p, bone_names) {
                        Some(idx) => {
                            out.push((p, idx));
                            proof {
                                assert(out@[out@.len() - 1].0 == p);
                                assert forall|q: BodyPart|
                                    spec_body_part_index(q) < i + 1 && (#[trigger] spec_resolve(
                                        self.spec_names(q),
                                        names_view(bone_names@),
                                    )) is Some implies exists|k: int|
                                    0 <= k < out@.len() && (#[trigger] out@[k]).0 == q by {
                                    if spec_body_part_index(q) < i {
                                        let k = choose|k: int|
                                            0 <= k < before.len() && (#[trigger] before[k]).0
                                                == q;
                                        assert(out@[k].0 == q);
                                    } else {
                                        lemma_body_part_index_injective(q, p);
                                        assert(out@[out@.len() - 1].0 == q);
                                    }
                                }
                            }
                        },
                        None => {
                            proof {
                                assert forall|q: BodyPart|
                                    spec_body_part_index(q) < i + 1 && (#[trigger] spec_resolve(
                                        self.spec_names(q),
                                        names_view(bone_names@),
                                    )) is Some implies exists|k: int|
                                    0 <= k < out@.len() && (#[trigger] out@[k]).0 == q by {
                                    if spec_body_part_index(q) >= i {
                                        lemma_body_part_index_injective(q, p);
                                    }
                                }
                            }
                        },
                    }
                },
                None => {},
            }
            i = i + 1;
        }
        proof {
            assert forall|p: BodyPart|
                (#[trigger] spec_resolve(self.spec_names(p), names_view(bone_names@))) is Some
                    implies exists|k: int| 0 <= k < out@.len() && (#[trigger] out@[k]).0 == p by {
                lemma_body_part_index_roundtrip(p);
            }
        }
        out
    }

    /// Copies a model's bone names into an owned, ordered list.
    pub fn extract_bone_names(bones: &[&str]) -> (r: Vec<String>)
        ensures
            r@.len() == bones@.len(),
            forall|i: int| 0 <= i < bones@.len() ==> (#[trigger] r@[i])@ == bones@[i]@,
    {
        let mut out: Vec<String> = Vec::new();
        let mut i: usize = 0;
        while i < bones.len()
            invariant
                i <= bones@.len(),
                out@.len() == i,
                forall|k: int| 0 <= k < i ==> (#[trigger] out@[k])@ == bones@[k]@,
            decreases bones@.len() - i,
        {
            let s: &str = bones[i];
            out.push(s.to_owned());
            i = i + 1;
        }
        out
    }
}

/// The stock candidate names for one body part, covering the naming
/// conventions of the model families the snapshot provider reports.
pub open spec fn spec_default_names(p: BodyPart) -> Seq<Seq<char>> {
    match p {
        BodyPart::Head => seq!["head"@, "head_0"@, "face"@, "bip_head"@, "ValveBiped.Bip01_Head1"@],
        BodyPart::Neck => seq!["neck_0"@, "neck_01"@, "neck"@, "bip_neck"@, "ValveBiped.Bip01_Neck1"@],
        BodyPart::UpperSpine => seq![
            "spine_2"@,
            "spine_02"@,
            "spine2"@,
            "chest"@,
            "bip_spine_2"@,
            "ValveBiped.Bip01_Spine2"@,
        ],
        BodyPart::MiddleSpine => seq![
            "spine_1"@,
            "spine_01"@,
            "spine1"@,
            "bip_spine_1"@,
            "ValveBiped.Bip01_Spine1"@,
        ],
        BodyPart::LowerSpine => seq![
            "spine_0"@,
            "spine_00"@,
            "spine0"@,
            "spine"@,
            "bip_spine_0"@,
            "ValveBiped.Bip01_Spine"@,
        ],
        BodyPart::Pelvis => seq!["pelvis"@, "hips"@, "bip_pelvis"@, "ValveBiped.Bip01_Pelvis"@],
        BodyPart::LeftShoulder => seq![
            "shoulder_l"@,
            "clavicle_l"@,
            "l_shoulder"@,
            "bip_collar_l"@,
            "ValveBiped.Bip01_L_Clavicle"@,
        ],
        BodyPart::LeftElbow => seq![
            "elbow_l"@,
            "arm_l"@,
            "l_elbow"@,
            "bip_upperArm_l"@,
            "ValveBiped.Bip01_L_UpperArm"@,
        ],
        BodyPart::LeftHand => seq!["hand_l"@, "l_hand"@, "bip_hand_l"@, "ValveBiped.Bip01_L_Hand"@],
        BodyPart::RightShoulder => seq![
            "shoulder_r"@,
            "clavicle_r"@,
            "r_shoulder"@,
            "bip_collar_r"@,
            "ValveBiped.Bip01_R_Clavicle"@,
        ],
        BodyPart::RightElbow => seq![
            "elbow_r"@,
            "arm_r"@,
            "r_elbow"@,
            "bip_upperArm_r"@,
            "ValveBiped.Bip01_R_UpperArm"@,
        ],
        BodyPart::RightHand => seq!["hand_r"@, "r_hand"@, "bip_hand_r"@, "ValveBiped.Bip01_R_Hand"@],
        BodyPart::LeftHip => seq![
            "thigh_l"@,
            "hip_l"@,
            "l_hip"@,
            "bip_hip_l"@,
            "ValveBiped.Bip01_L_Thigh"@,
        ],
        BodyPart::LeftKnee => seq![
            "knee_l"@,
            "calf_l"@,
            "l_knee"@,
            "bip_knee_l"@,
            "ValveBiped.Bip01_L_Calf"@,
        ],
        BodyPart::LeftFoot => seq!["foot_l"@, "l_foot"@, "bip_foot_l"@, "ValveBiped.Bip01_L_Foot"@],
        BodyPart::RightHip => seq![
            "thigh_r"@,
            "hip_r"@,
            "r_hip"@,
            "bip_hip_r"@,
            "ValveBiped.Bip01_R_Thigh"@,
        ],
        BodyPart::RightKnee => seq![
            "knee_r"@,
            "calf_r"@,
            "r_knee"@,
            "bip_knee_r"@,
            "ValveBiped.Bip01_R_Calf"@,
        ],
        BodyPart::RightFoot => seq!["foot_r"@, "r_foot"@, "bip_foot_r"@, "ValveBiped.Bip01_R_Foot"@],
    }
}

impl BoneMap {
    fn default_map() -> (r: BoneMap)
        ensures
            r.wf(),
            forall|p: BodyPart| r.spec_names(p) == spec_default_names(p),
    {
        let mut mappings: Vec<Vec<String>> = Vec::new();

        let mut head: Vec<String> = Vec::new();
        head.push(String::from_str("head"));
        head.push(String::from_str("head_0"));
        head.push(String::from_str("face"));
        head.push(String::from_str("bip_head"));
        head.push(String::from_str("ValveBiped.Bip01_Head1"));
        proof {
            assert(names_view(head@) =~= spec_default_names(BodyPart::Head));
        }
        mappings.push(head);

        let mut neck: Vec<String> = Vec::new();
        neck.push(String::from_str("neck_0"));
        neck.push(String::from_str("neck_01"));
        neck.push(String::from_str("neck"));
        neck.push(String::from_str("bip_neck"));
        neck.push(String::from_str("ValveBiped.Bip01_Neck1"));
        proof {
            assert(names_view(neck@) =~= spec_default_names(BodyPart::Neck));
        }
        mappings.push(neck);

        let mut upper_spine: Vec<String> = Vec::new();
        upper_spine.push(String::from_str("spine_2"));
        upper_spine.push(String::from_str("spine_02"));
        upper_spine.push(String::from_str("spine2"));
        upper_spine.push(String::from_str("chest"));
        upper_spine.push(String::from_str("bip_spine_2"));
        upper_spine.push(String::from_str("ValveBiped.Bip01_Spine2"));
        proof {
            assert(names_view(upper_spine@) =~= spec_default_names(BodyPart::UpperSpine));
        }
        mappings.push(upper_spine);

        let mut middle_spine: Vec<String> = Vec::new();
        middle_spine.push(String::from_str("spine_1"));
        middle_spine.push(String::from_str("spine_01"));
        middle_spine.push(String::from_str("spine1"));
        middle_spine.push(String::from_str("bip_spine_1"));
        middle_spine.push(String::from_str("ValveBiped.Bip01_Spine1"));
        proof {
            assert(names_view(middle_spine@) =~= spec_default_names(BodyPart::MiddleSpine));
        }
        mappings.push(middle_spine);

        let mut lower_spine: Vec<String> = Vec::new();
        lower_spine.push(String::from_str("spine_0"));
        lower_spine.push(String::from_str("spine_00"));
        lower_spine.push(String::from_str("spine0"));
        lower_spine.push(String::from_str("spine"));
        lower_spine.push(String::from_str("bip_spine_0"));
        lower_spine.push(String::from_str("ValveBiped.Bip01_Spine"));
        proof {
            assert(names_view(lower_spine@) =~= spec_default_names(BodyPart::LowerSpine));
        }
        mappings.push(lower_spine);

        let mut pelvis: Vec<String> = Vec::new();
        pelvis.push(String::from_str("pelvis"));
        pelvis.push(String::from_str("hips"));
        pelvis.push(String::from_str("bip_pelvis"));
        pelvis.push(String::from_str("ValveBiped.Bip01_Pelvis"));
        proof {
            assert(names_view(pelvis@) =~= spec_default_names(BodyPart::Pelvis));
        }
        mappings.push(pelvis);

        let mut shoulder_l: Vec<String> = Vec::new();
        shoulder_l.push(String::from_str("shoulder_l"));
        shoulder_l.push(String::from_str("clavicle_l"));
        shoulder_l.push(String::from_str("l_shoulder"));
        shoulder_l.push(String::from_str("bip_collar_l"));
        shoulder_l.push(String::from_str("ValveBiped.Bip01_L_Clavicle"));
        proof {
            assert(names_view(shoulder_l@) =~= spec_default_names(BodyPart::LeftShoulder));
        }
        mappings.push(shoulder_l);

        let mut elbow_l: Vec<String> = Vec::new();
        elbow_l.push(String::from_str("elbow_l"));
        elbow_l.push(String::from_str("arm_l"));
        elbow_l.push(String::from_str("l_elbow"));
        elbow_l.push(String::from_str("bip_upperArm_l"));
        elbow_l.push(String::from_str("ValveBiped.Bip01_L_UpperArm"));
        proof {
            assert(names_view(elbow_l@) =~= spec_default_names(BodyPart::LeftElbow));
        }
        mappings.push(elbow_l);

        let mut hand_l: Vec<String> = Vec::new();
        hand_l.push(String::from_str("hand_l"));
        hand_l.push(String::from_str("l_hand"));
        hand_l.push(String::from_str("bip_hand_l"));
        hand_l.push(String::from_str("ValveBiped.Bip01_L_Hand"));
        proof {
            assert(names_view(hand_l@) =~= spec_default_names(BodyPart::LeftHand));
        }
        mappings.push(hand_l);

        let mut shoulder_r: Vec<String> = Vec::new();
        shoulder_r.push(String::from_str("shoulder_r"));
        shoulder_r.push(String::from_str("clavicle_r"));
        shoulder_r.push(String::from_str("r_shoulder"));
        shoulder_r.push(String::from_str("bip_collar_r"));
        shoulder_r.push(String::from_str("ValveBiped.Bip01_R_Clavicle"));
        proof {
            assert(names_view(shoulder_r@) =~= spec_default_names(BodyPart::RightShoulder));
        }
        mappings.push(shoulder_r);

        let mut elbow_r: Vec<String> = Vec::new();
        elbow_r.push(String::from_str("elbow_r"));
        elbow_r.push(String::from_str("arm_r"));
        elbow_r.push(String::from_str("r_elbow"));
        elbow_r.push(String::from_str("bip_upperArm_r"));
        elbow_r.push(String::from_str("ValveBiped.Bip01_R_UpperArm"));
        proof {
            assert(names_view(elbow_r@) =~= spec_default_names(BodyPart::RightElbow));
        }
        mappings.push(elbow_r);

        let mut hand_r: Vec<String> = Vec::new();
        hand_r.push(String::from_str("hand_r"));
        hand_r.push(String::from_str("r_hand"));
        hand_r.push(String::from_str("bip_hand_r"));
        hand_r.push(String::from_str("ValveBiped.Bip01_R_Hand"));
        proof {
            assert(names_view(hand_r@) =~= spec_default_names(BodyPart::RightHand));
        }
        mappings.push(hand_r);

        let mut hip_l: Vec<String> = Vec::new();
        hip_l.push(String::from_str("thigh_l"));
        hip_l.push(String::from_str("hip_l"));
        hip_l.push(String::from_str("l_hip"));
        hip_l.push(String::from_str("bip_hip_l"));
        hip_l.push(String::from_str("ValveBiped.Bip01_L_Thigh"));
        proof {
            assert(names_view(hip_l@) =~= spec_default_names(BodyPart::LeftHip));
        }
        mappings.push(hip_l);

        let mut knee_l: Vec<String> = Vec::new();
        knee_l.push(String::from_str("knee_l"));
        knee_l.push(String::from_str("calf_l"));
        knee_l.push(String::from_str("l_knee"));
        knee_l.push(String::from_str("bip_knee_l"));
        knee_l.push(String::from_str("ValveBiped.Bip01_L_Calf"));
        proof {
            assert(names_view(knee_l@) =~= spec_default_names(BodyPart::LeftKnee));
        }
        mappings.push(knee_l);

        let mut foot_l: Vec<String> = Vec::new();
        foot_l.push(String::from_str("foot_l"));
        foot_l.push(String::from_str("l_foot"));
        foot_l.push(String::from_str("bip_foot_l"));
        foot_l.push(String::from_str("ValveBiped.Bip01_L_Foot"));
        proof {
            assert(names_view(foot_l@) =~= spec_default_names(BodyPart::LeftFoot));
        }
        mappings.push(foot_l);

        let mut hip_r: Vec<String> = Vec::new();
        hip_r.push(String::from_str("thigh_r"));
        hip_r.push(String::from_str("hip_r"));
        hip_r.push(String::from_str("r_hip"));
        hip_r.push(String::from_str("bip_hip_r"));
        hip_r.push(String::from_str("ValveBiped.Bip01_R_Thigh"));
        proof {
            assert(names_view(hip_r@) =~= spec_default_names(BodyPart::RightHip));
        }
        mappings.push(hip_r);

        let mut knee_r: Vec<String> = Vec::new();
        knee_r.push(String::from_str("knee_r"));
        knee_r.push(String::from_str("calf_r"));
        knee_r.push(String::from_str("r_knee"));
        knee_r.push(String::from_str("bip_knee_r"));
        knee_r.push(String::from_str("ValveBiped.Bip01_R_Calf"));
        proof {
            assert(names_view(knee_r@) =~= spec_default_names(BodyPart::RightKnee));
        }
        mappings.push(knee_r);

        let mut foot_r: Vec<String> = Vec::new();
        foot_r.push(String::from_str("foot_r"));
        foot_r.push(String::from_str("r_foot"));
        foot_r.push(String::from_str("bip_foot_r"));
        foot_r.push(String::from_str("ValveBiped.Bip01_R_Foot"));
        proof {
            assert(names_view(foot_r@) =~= spec_default_names(BodyPart::RightFoot));
        }
        mappings.push(foot_r);

        let r = BoneMap { mappings };
        proof {
            assert forall|p: BodyPart| r.spec_names(p) == spec_default_names(p) by {
                lemma_body_part_index_roundtrip(p);
            }
        }
        r
    }
}

/// Index of the first bone in `bones` whose name equals `name`.
fn name_index(name: &String, bones: &[String]) -> (r: Option<usize>)
    ensures
        match r {
            Some(i) => spec_name_index(names_view(bones@), name@) == i as int && i < bones@.len(),
            None => spec_name_index(names_view(bones@), name@) < 0,
        },
{
    let ghost bseq = names_view(bones@);
    proof {
        assert(bseq.skip(0) =~= bseq);
    }
    let mut j: usize = 0;
    while j < bones.len()
        invariant
            j <= bones@.len(),
            bseq == names_view(bones@),
            bseq.len() == bones@.len(),
            spec_name_index(bseq.skip(j as int), name@) >= 0 ==> spec_name_index(bseq, name@)
                == spec_name_index(bseq.skip(j as int), name@) + j,
            spec_name_index(bseq.skip(j as int), name@) < 0 ==> spec_name_index(bseq, name@) < 0,
        decreases bones@.len() - j,
    {
        proof {
            assert(bseq.skip(j as int).first() == bseq[j as int]);
            assert(bseq.skip(j as int).drop_first() =~= bseq.skip(j + 1));
        }
        if bones[j].eq(name) {
            return Some(j);
        }
        j = j + 1;
    }
    proof {
        assert(bseq.skip(j as int).len() == 0);
    }
    None
}

} // verus!
