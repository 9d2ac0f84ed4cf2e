//! The unified in-memory scene description produced by either grammar, and
//! the axis-swap rule shared by both.

use vstd::prelude::*;
use crate::color::Color;

verus! {

/// An unsigned 3D extent or position, in the stored axis order (X, Y, Z).
#[derive(Clone, Copy, Debug, PartialEq, Eq, Structural)]
pub struct Vec3u {
    pub x: u32,
    pub y: u32,
    pub z: u32,
}

/// A unit cube at an integer grid position carrying a palette color index.
#[derive(Clone, Copy, Debug)]
pub struct Voxel {
    pub pos: Vec3u,
    pub color: u32,
}

/// A parsed model: colored voxel positions, a palette addressed by the
/// voxels' color indices, and the declared bounding grid size.
#[derive(Clone, Debug)]
pub struct Scene {
    pub voxels: Vec<Voxel>,
    pub colors: Vec<Color>,
    pub grid_size: Vec3u,
}

/// The mathematical value of a `Scene`.
pub ghost struct SceneModel {
    pub voxels: Seq<Voxel>,
    pub colors: Seq<Color>,
    pub grid_size: Vec3u,
}

impl View for Scene {
    type V = SceneModel;

    open spec fn view(&self) -> SceneModel {
        SceneModel {
            voxels: self.voxels@,
            colors: self.colors@,
            grid_size: self.grid_size,
        }
    }
}

/// The axis-swap rule: a triple met on disk in order (X, Z, Y) is stored in
/// order (X, Y, Z), i.e. the second and third components change places.
/// Both grammars apply this one function to grid sizes and voxel positions.
pub open spec fn swizzled(a: u32, b: u32, c: u32) -> Vec3u {
    Vec3u { x: a, y: c, z: b }
}

/// Builds the stored vector from three values in on-disk encounter order.
pub fn swizzle(a: u32, b: u32, c: u32) -> (v: Vec3u)
    ensures
        v == swizzled(a, b, c),
{
    Vec3u { x: a, y: c, z: b }
}

/// Axis swap, stated once for every caller: the produced vector keeps the
/// first encountered value and exchanges the second and third.
pub proof fn lemma_swizzle_swaps(a: u32, b: u32, c: u32)
    ensures
        swizzled(a, b, c).x == a,
        swizzled(a, b, c).y == c,
        swizzled(a, b, c).z == b,
{
}

/// Merges parsed geometry and a resolved palette into the `Scene` value
/// handed to the caller. No cross-validation of color indices against the
/// palette length happens here; that is the consumer's contract.
pub fn assemble_scene(voxels: Vec<Voxel>, colors: Vec<Color>, grid_size: Vec3u) -> (s: Scene)
    ensures
        s@ == (SceneModel { voxels: voxels@, colors: colors@, grid_size }),
{
    Scene { voxels, colors, grid_size }
}

} // verus!
