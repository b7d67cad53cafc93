//! The protocol versions, in the order in which they came out.
use vstd::prelude::*;

verus! {

/// A version of the Java edition.
#[derive(Clone, Copy, Debug, PartialEq, Eq, Structural)]
#[allow(non_camel_case_types)]
pub enum JavaMinecraftVersion {
    V_1_8,
    V_1_9,
    V_1_10,
    V_1_11,
    V_1_12,
    V_1_12_2,
    V_1_13,
    V_1_13_1,
    V_1_13_2,
    V_1_14,
    V_1_15,
    V_1_16,
    V_1_17,
    V_1_18,
    V_1_18_2,
    V_1_19,
    V_1_19_1,
    V_1_19_3,
    V_1_19_4,
    V_1_20,
    V_1_20_2,
    V_1_20_3,
    V_1_20_5,
    V_1_21,
    V_1_21_2,
    V_1_21_4,
    V_1_21_5,
    V_1_21_6,
    V_1_21_9,
    V_1_21_11,
    V_26_1,
    V_26_2,
}

/// The place of a version in the order of all.
pub open spec fn version_rank(v: JavaMinecraftVersion) -> int {
    match v {
        JavaMinecraftVersion::V_1_8 => 0,
        JavaMinecraftVersion::V_1_9 => 1,
        JavaMinecraftVersion::V_1_10 => 2,
        JavaMinecraftVersion::V_1_11 => 3,
        JavaMinecraftVersion::V_1_12 => 4,
        JavaMinecraftVersion::V_1_12_2 => 5,
        JavaMinecraftVersion::V_1_13 => 6,
        JavaMinecraftVersion::V_1_13_1 => 7,
        JavaMinecraftVersion::V_1_13_2 => 8,
        JavaMinecraftVersion::V_1_14 => 9,
        JavaMinecraftVersion::V_1_15 => 10,
        JavaMinecraftVersion::V_1_16 => 11,
        JavaMinecraftVersion::V_1_17 => 12,
        JavaMinecraftVersion::V_1_18 => 13,
        JavaMinecraftVersion::V_1_18_2 => 14,
        JavaMinecraftVersion::V_1_19 => 15,
        JavaMinecraftVersion::V_1_19_1 => 16,
        JavaMinecraftVersion::V_1_19_3 => 17,
        JavaMinecraftVersion::V_1_19_4 => 18,
        JavaMinecraftVersion::V_1_20 => 19,
        JavaMinecraftVersion::V_1_20_2 => 20,
        JavaMinecraftVersion::V_1_20_3 => 21,
        JavaMinecraftVersion::V_1_20_5 => 22,
        JavaMinecraftVersion::V_1_21 => 23,
        JavaMinecraftVersion::V_1_21_2 => 24,
        JavaMinecraftVersion::V_1_21_4 => 25,
        JavaMinecraftVersion::V_1_21_5 => 26,
        JavaMinecraftVersion::V_1_21_6 => 27,
        JavaMinecraftVersion::V_1_21_9 => 28,
        JavaMinecraftVersion::V_1_21_11 => 29,
        JavaMinecraftVersion::V_26_1 => 30,
        JavaMinecraftVersion::V_26_2 => 31,
    }
}

impl JavaMinecraftVersion {
    /// The place in the order of all versions.
    pub fn rank(self) -> (r: u32)
        ensures
            r == version_rank(self),
    {
        match self {
            JavaMinecraftVersion::V_1_8 => 0,
            JavaMinecraftVersion::V_1_9 => 1,
            JavaMinecraftVersion::V_1_10 => 2,
            JavaMinecraftVersion::V_1_11 => 3,
            JavaMinecraftVersion::V_1_12 => 4,
            JavaMinecraftVersion::V_1_12_2 => 5,
            JavaMinecraftVersion::V_1_13 => 6,
            JavaMinecraftVersion::V_1_13_1 => 7,
            JavaMinecraftVersion::V_1_13_2 => 8,
            JavaMinecraftVersion::V_1_14 => 9,
            JavaMinecraftVersion::V_1_15 => 10,
            JavaMinecraftVersion::V_1_16 => 11,
            JavaMinecraftVersion::V_1_17 => 12,
            JavaMinecraftVersion::V_1_18 => 13,
            JavaMinecraftVersion::V_1_18_2 => 14,
            JavaMinecraftVersion::V_1_19 => 15,
            JavaMinecraftVersion::V_1_19_1 => 16,
            JavaMinecraftVersion::V_1_19_3 => 17,
            JavaMinecraftVersion::V_1_19_4 => 18,
            JavaMinecraftVersion::V_1_20 => 19,
            JavaMinecraftVersion::V_1_20_2 => 20,
            JavaMinecraftVersion::V_1_20_3 => 21,
            JavaMinecraftVersion::V_1_20_5 => 22,
            JavaMinecraftVersion::V_1_21 => 23,
            JavaMinecraftVersion::V_1_21_2 => 24,
            JavaMinecraftVersion::V_1_21_4 => 25,
            JavaMinecraftVersion::V_1_21_5 => 26,
            JavaMinecraftVersion::V_1_21_6 => 27,
            JavaMinecraftVersion::V_1_21_9 => 28,
            JavaMinecraftVersion::V_1_21_11 => 29,
            JavaMinecraftVersion::V_26_1 => 30,
            JavaMinecraftVersion::V_26_2 => 31,
        }
    }

    /// Whether this version is `other` or came after it.
    pub fn at_least(self, other: JavaMinecraftVersion) -> (r: bool)
        ensures
            r == (version_rank(self) >= version_rank(other)),
    {
        self.rank() >= other.rank()
    }
}

/// No two versions have the same place.
pub proof fn lemma_rank_is_unique(a: JavaMinecraftVersion, b: JavaMinecraftVersion)
    ensures
        version_rank(a) == version_rank(b) ==> a == b,
{
}

} // verus!
