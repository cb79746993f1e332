//! Replication core for a multi-user VR scene.
//!
//! Clients create scene objects locally and announce them to a server, which
//! assigns each object a globally unique identifier and rebroadcasts the
//! creation to every other connected peer.  Later mutations travel as small
//! delta payloads over an unreliable channel.  A bijective entity map ties each
//! process's local identifiers to the server-assigned ones, and a catch-up
//! handshake brings late joiners up to date.
//!
//! All geometric and color fields are carried as raw IEEE-754 bit patterns
//! (`u32` per component): the replication layer never interprets them, it only
//! copies them between peers, so the bit pattern is the exact value of record.

use vstd::prelude::*;

pub mod entity_map;
pub mod inspector;
pub mod interaction;
pub mod networking;
pub mod ui;
pub mod voice;

verus! {

/// Bit patterns of a 3-component vector, one `u32` per component.
#[derive(Clone, Copy, Debug, PartialEq, Eq, Structural)]
pub struct Vec3Bits {
    pub x: u32,
    pub y: u32,
    pub z: u32,
}

/// Bit patterns of a rotation quaternion.
#[derive(Clone, Copy, Debug, PartialEq, Eq, Structural)]
pub struct QuatBits {
    pub x: u32,
    pub y: u32,
    pub z: u32,
    pub w: u32,
}

/// The replicated geometric state of a scene object.
#[derive(Clone, Copy, Debug, PartialEq, Eq, Structural)]
pub struct Transform {
    pub translation: Vec3Bits,
    pub rotation: QuatBits,
    pub scale: Vec3Bits,
}

/// The replicated render color, one `u32` bit pattern per channel.
#[derive(Clone, Copy, Debug, PartialEq, Eq, Structural)]
pub struct Color128 {
    pub r: u32,
    pub g: u32,
    pub b: u32,
    pub a: u32,
}

/// The render layer tag of a scene object.
#[derive(Clone, Copy, Debug, PartialEq, Eq, Structural)]
pub struct RenderLayer(pub u32);

/// Bit pattern of the component value 1.0.
pub const UNIT_BITS: u32 = 0x3F800000;

/// Bit pattern of the component value 0.0.
pub const ZERO_BITS: u32 = 0;

impl Vec3Bits {
    /// A vector with all three components set to the same bit pattern.
    pub fn splat(v: u32) -> (r: Self)
        ensures
            r == (Vec3Bits { x: v, y: v, z: v }),
    {
        Vec3Bits { x: v, y: v, z: v }
    }
}

impl QuatBits {
    /// The identity rotation.
    pub fn identity() -> (r: Self)
        ensures
            r == (QuatBits { x: ZERO_BITS, y: ZERO_BITS, z: ZERO_BITS, w: UNIT_BITS }),
    {
        QuatBits { x: ZERO_BITS, y: ZERO_BITS, z: ZERO_BITS, w: UNIT_BITS }
    }
}

impl Default for Transform {
    /// The identity transform: zero translation, identity rotation, unit scale.
    fn default() -> (r: Self)
        ensures
            r == (Transform {
                translation: Vec3Bits { x: ZERO_BITS, y: ZERO_BITS, z: ZERO_BITS },
                rotation: QuatBits { x: ZERO_BITS, y: ZERO_BITS, z: ZERO_BITS, w: UNIT_BITS },
                scale: Vec3Bits { x: UNIT_BITS, y: UNIT_BITS, z: UNIT_BITS },
            }),
    {
        Transform {
            translation: Vec3Bits { x: ZERO_BITS, y: ZERO_BITS, z: ZERO_BITS },
            rotation: QuatBits { x: ZERO_BITS, y: ZERO_BITS, z: ZERO_BITS, w: UNIT_BITS },
            scale: Vec3Bits { x: UNIT_BITS, y: UNIT_BITS, z: UNIT_BITS },
        }
    }
}

/// The visual descriptor of a scene object: either raw model bytes loaded from
/// memory, or a generated cube of a given size.
#[derive(Debug, PartialEq, Eq)]
pub enum ModelInfo {
    Mem { name: String, mem: Vec<u8> },
    Cube(Vec3Bits),
}

/// Mathematical model of [`ModelInfo`].
#[verifier::ext_equal]
pub enum ModelInfoView {
    Mem { name: Seq<char>, mem: Seq<u8> },
    Cube(Vec3Bits),
}

impl View for ModelInfo {
    type V = ModelInfoView;

    open spec fn view(&self) -> ModelInfoView {
        match self {
            ModelInfo::Mem { name, mem } => ModelInfoView::Mem { name: name@, mem: mem@ },
            ModelInfo::Cube(size) => ModelInfoView::Cube(*size),
        }
    }
}

impl DeepView for ModelInfo {
    type V = ModelInfoView;

    open spec fn deep_view(&self) -> ModelInfoView {
        self.view()
    }
}

impl Clone for ModelInfo {
    fn clone(&self) -> (r: Self)
        ensures
            r@ == self@,
    {
        match self {
            ModelInfo::Mem { name, mem } => ModelInfo::Mem {
                name: name.clone(),
                mem: clone_bytes(mem),
            },
            ModelInfo::Cube(size) => ModelInfo::Cube(*size),
        }
    }
}

/// A byte-for-byte copy of a byte vector.
pub(crate) fn clone_bytes(v: &Vec<u8>) -> (r: Vec<u8>)
    ensures
        r@ == v@,
{
    let mut r: Vec<u8> = Vec::new();
    let mut i: usize = 0;
    while i < v.len()
        invariant
            i <= v.len(),
            r@ == v@.take(i as int),
        decreases v.len() - i,
    {
        r.push(v[i]);
        i = i + 1;
        proof {
            assert(r@ =~= v@.take(i as int));
        }
    }
    proof {
        assert(r@ =~= v@);
    }
    r
}

impl Default for ModelInfo {
    /// A unit cube.
    fn default() -> (r: Self)
        ensures
            r@ == ModelInfoView::Cube(Vec3Bits { x: UNIT_BITS, y: UNIT_BITS, z: UNIT_BITS }),
    {
        ModelInfo::Cube(Vec3Bits { x: UNIT_BITS, y: UNIT_BITS, z: UNIT_BITS })
    }
}

/// The full replicated payload of a scene object, sent on creation.
#[derive(Debug, PartialEq, Eq)]
pub struct ModelData {
    pub model_info: ModelInfo,
    pub transform: Transform,
    pub color128: Color128,
    pub render_layer: RenderLayer,
}

/// Mathematical model of [`ModelData`].
#[verifier::ext_equal]
pub struct ModelDataView {
    pub model_info: ModelInfoView,
    pub transform: Transform,
    pub color128: Color128,
    pub render_layer: RenderLayer,
}

impl View for ModelData {
    type V = ModelDataView;

    open spec fn view(&self) -> ModelDataView {
        ModelDataView {
            model_info: self.model_info@,
            transform: self.transform,
            color128: self.color128,
            render_layer: self.render_layer,
        }
    }
}

impl DeepView for ModelData {
    type V = ModelDataView;

    open spec fn deep_view(&self) -> ModelDataView {
        self.view()
    }
}

impl Clone for ModelData {
    fn clone(&self) -> (r: Self)
        ensures
            r@ == self@,
    {
        ModelData {
            model_info: self.model_info.clone(),
            transform: self.transform,
            color128: self.color128,
            render_layer: self.render_layer,
        }
    }
}

/// The delta payload of a scene object, sent on every mutation frame.
#[derive(Clone, Copy, Debug, PartialEq, Eq, Structural)]
pub struct ModelData2 {
    pub transform: Transform,
    pub color128: Color128,
    pub render_layer: RenderLayer,
}

impl ModelData {
    /// The delta payload carrying this full payload's mutable fields.
    pub fn delta(&self) -> (r: ModelData2)
        ensures
            r == (ModelData2 {
                transform: self.transform,
                color128: self.color128,
                render_layer: self.render_layer,
            }),
    {
        ModelData2 {
            transform: self.transform,
            color128: self.color128,
            render_layer: self.render_layer,
        }
    }
}

impl ModelDataView {
    /// The delta payload carried by this full payload.
    pub open spec fn delta(self) -> ModelData2 {
        ModelData2 {
            transform: self.transform,
            color128: self.color128,
            render_layer: self.render_layer,
        }
    }

    /// This payload with its mutable fields overwritten by a delta.
    pub open spec fn with_delta(self, d: ModelData2) -> ModelDataView {
        ModelDataView {
            model_info: self.model_info,
            transform: d.transform,
            color128: d.color128,
            render_layer: d.render_layer,
        }
    }
}

/// Everything needed to instantiate a replicated scene object locally.
#[derive(Debug, PartialEq, Eq)]
pub struct ModelBundle {
    pub model_info: ModelInfo,
    pub transform: Transform,
    pub color: Color128,
    pub render_layer: RenderLayer,
}

impl View for ModelBundle {
    /// A bundle's mathematical content is exactly the full replication payload
    /// it instantiates to.
    type V = ModelDataView;

    open spec fn view(&self) -> ModelDataView {
        ModelDataView {
            model_info: self.model_info@,
            transform: self.transform,
            color128: self.color,
            render_layer: self.render_layer,
        }
    }
}

impl ModelBundle {
    pub fn new(
        model_info: ModelInfo,
        transform: Transform,
        color: Color128,
        render_layer: RenderLayer,
    ) -> (r: Self)
        ensures
            r.model_info@ == model_info@,
            r.transform == transform,
            r.color == color,
            r.render_layer == render_layer,
    {
        ModelBundle { model_info, transform, color, render_layer }
    }

    /// The full replication payload for this bundle.
    pub fn data(self) -> (r: ModelData)
        ensures
            r@ == (ModelDataView {
                model_info: self.model_info@,
                transform: self.transform,
                color128: self.color,
                render_layer: self.render_layer,
            }),
    {
        ModelData {
            model_info: self.model_info,
            transform: self.transform,
            color128: self.color,
            render_layer: self.render_layer,
        }
    }
}

} // verus!
