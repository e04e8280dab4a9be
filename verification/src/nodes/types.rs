//! What every node of a scene graph holds, whatever its kind, and the values
//! of the kinds.

use crate::types::{Vec2, Vec3, F32};
use vstd::prelude::*;

verus! {

/// The node is active.
pub const ACTIVE: u32 = 4;

/// The node takes part in the search for the surface below a point.
pub const ALTITUDE_SURFACE: u32 = 8;

/// The node takes part in the search for the surface a ray meets.
pub const INTERSECT_SURFACE: u32 = 16;

/// A flag whose meaning is not known.
pub const UNK08: u32 = 256;

/// The tree below the node is valid.
pub const TREE_VALID: u32 = 524288;

/// The zone of the node is checked.
pub const ID_ZONE_CHECK: u32 = 16777216;

/// The flags that every node has.
pub const DEFAULT: u32 = 17301532;

/// The zone of a node that is in no zone of its own.
pub const ZONE_DEFAULT: u32 = 255;

/// The flags of a node, as the word that holds them.
#[derive(Clone, Copy, Debug, PartialEq, Eq, Structural)]
pub struct NodeBitFlags {
    pub bits: u32,
}

/// The default flags are the five flags that make them up.
pub proof fn lemma_default_flags()
    ensures
        DEFAULT == ACTIVE + TREE_VALID + ID_ZONE_CHECK + ALTITUDE_SURFACE + INTERSECT_SURFACE,
        DEFAULT == ACTIVE | TREE_VALID | ID_ZONE_CHECK | ALTITUDE_SURFACE | INTERSECT_SURFACE,
{
    assert(17301532u32 == 4u32 | 524288u32 | 16777216u32 | 8u32 | 16u32) by (bit_vector);
}

/// A box: two corners, three numbers each.
#[derive(Clone, Copy, Debug, PartialEq, Eq, Structural)]
pub struct Block(pub F32, pub F32, pub F32, pub F32, pub F32, pub F32);

/// The part of an area that a node lies in.
#[derive(Clone, Copy, Debug, PartialEq, Eq, Structural)]
pub struct AreaPartition {
    pub x: i32,
    pub y: i32,
}

/// What the record of a node holds besides what is particular to its kind.
#[derive(Clone, Debug, PartialEq, Eq)]
pub struct NodeVariants {
    pub name: String,
    pub flags: NodeBitFlags,
    pub unk044: u32,
    pub zone_id: u32,
    pub data_ptr: u32,
    pub mesh_index: i32,
    pub area_partition: Option<AreaPartition>,
    pub has_parent: bool,
    pub parent_array_ptr: u32,
    pub children_count: u32,
    pub children_array_ptr: u32,
    pub unk116: Block,
    pub unk140: Block,
    pub unk164: Block,
    pub unk196: u32,
}

pub struct NodeVariantsView {
    pub name: Seq<char>,
    pub flags: NodeBitFlags,
    pub unk044: u32,
    pub zone_id: u32,
    pub data_ptr: u32,
    pub mesh_index: i32,
    pub area_partition: Option<AreaPartition>,
    pub has_parent: bool,
    pub parent_array_ptr: u32,
    pub children_count: u32,
    pub children_array_ptr: u32,
    pub unk116: Block,
    pub unk140: Block,
    pub unk164: Block,
    pub unk196: u32,
}

impl View for NodeVariants {
    type V = NodeVariantsView;

    open spec fn view(&self) -> NodeVariantsView {
        NodeVariantsView {
            name: self.name@,
            flags: self.flags,
            unk044: self.unk044,
            zone_id: self.zone_id,
            data_ptr: self.data_ptr,
            mesh_index: self.mesh_index,
            area_partition: self.area_partition,
            has_parent: self.has_parent,
            parent_array_ptr: self.parent_array_ptr,
            children_count: self.children_count,
            children_array_ptr: self.children_array_ptr,
            unk116: self.unk116,
            unk140: self.unk140,
            unk164: self.unk164,
            unk196: self.unk196,
        }
    }
}

/// The kind of a node, with the pointer to what is particular to it.
#[derive(Clone, Copy, Debug, PartialEq, Eq, Structural)]
pub enum NodeVariant {
    Light(u32),
}

/// A light.  The last three numbers are held by the file beside the range:
/// the squares of its two ends and the inverse of its length.  They are
/// handed on as they are.
#[derive(Clone, Debug, PartialEq, Eq)]
pub struct Light {
    pub name: String,
    pub direction: Vec3,
    pub diffuse: F32,
    pub ambient: F32,
    pub color: Vec3,
    pub range: Vec2,
    pub range_near_sq: F32,
    pub range_far_sq: F32,
    pub range_inv: F32,
    pub parent_ptr: u32,
    pub data_ptr: u32,
}

pub struct LightView {
    pub name: Seq<char>,
    pub direction: Vec3,
    pub diffuse: F32,
    pub ambient: F32,
    pub color: Vec3,
    pub range: Vec2,
    pub range_near_sq: F32,
    pub range_far_sq: F32,
    pub range_inv: F32,
    pub parent_ptr: u32,
    pub data_ptr: u32,
}

impl View for Light {
    type V = LightView;

    open spec fn view(&self) -> LightView {
        LightView {
            name: self.name@,
            direction: self.direction,
            diffuse: self.diffuse,
            ambient: self.ambient,
            color: self.color,
            range: self.range,
            range_near_sq: self.range_near_sq,
            range_far_sq: self.range_far_sq,
            range_inv: self.range_inv,
            parent_ptr: self.parent_ptr,
            data_ptr: self.data_ptr,
        }
    }
}

} // verus!
