//! Data model for primitives and levels.
//!
//! All scalar quantities (coordinates, angles, colour channels, material
//! properties) are fixed-point values in micro-units: `1_000_000` stands for
//! `1.0`.  Angles are radians in micro-units.

use vstd::prelude::*;

verus! {

/// One unit (`1.0`) in micro-units.
pub const MICRO: i64 = 1_000_000;

/// Bound (exclusive) on the magnitude of every scalar that the level file
/// format can carry: one million million units, in micro-units.
pub const FIXED_LIMIT: i64 = 1_000_000_000_000_000_000;

/// A three-component vector of fixed-point micro-unit values.
#[derive(Clone, Copy, PartialEq, Eq, Structural, Debug)]
pub struct Vec3 {
    pub x: i64,
    pub y: i64,
    pub z: i64,
}

impl Vec3 {
    /// The zero vector.
    pub fn zero() -> (v: Vec3)
        ensures
            v == (Vec3 { x: 0, y: 0, z: 0 }),
    {
        Vec3 { x: 0, y: 0, z: 0 }
    }

    /// Every component has magnitude below `bound`.
    pub open spec fn in_bounds(self, bound: int) -> bool {
        -bound < self.x < bound && -bound < self.y < bound && -bound < self.z < bound
    }
}

/// Width and depth of the ground rectangle, in micro-units.
#[derive(Clone, Copy, PartialEq, Eq, Structural, Debug)]
pub struct Extent {
    pub width: i64,
    pub depth: i64,
}

/// An RGB colour; each channel ranges over `0 ..= MICRO` for `0.0 ..= 1.0`.
#[derive(Clone, Copy, PartialEq, Eq, Structural, Debug)]
pub struct Colour {
    pub r: i64,
    pub g: i64,
    pub b: i64,
}

/// The shape kinds a collider definition can take.
#[derive(Clone, Copy, PartialEq, Eq, Structural, Debug)]
pub enum ColliderType {
    Cuboid,
    Ball,
}

/// How a loaded mesh is issued to the renderer.
#[derive(Clone, Copy, PartialEq, Eq, Structural, Debug)]
pub enum RenderMethod {
    DrawArrays,
    DrawElements,
}

/// One collision shape of a primitive, relative to the primitive's origin.
///
/// For a cuboid, `dimensions` holds the half-extents; for a ball, the radius
/// is carried in `dimensions.x`.
#[derive(Clone, Copy, PartialEq, Eq, Structural, Debug)]
pub struct ColliderDefinition {
    pub collider_type: ColliderType,
    pub origin: Vec3,
    pub dimensions: Vec3,
}

/// A named, reusable object template: mesh references, scale, material
/// properties and collision shapes.
#[derive(Clone, Debug)]
pub struct PrimitiveDefinition {
    pub name: String,
    /// Path to the mesh file, relative to the assets directory.
    pub path_obj: String,
    /// Path to the directory of material files, relative to the assets directory.
    pub path_mtl: String,
    pub scale: Vec3,
    pub density: i64,
    pub restitution: i64,
    pub friction: i64,
    pub collider_def: Vec<ColliderDefinition>,
}

/// One placed primitive: the append-only record that a level persists.
#[derive(Clone, Debug, PartialEq)]
pub struct LevelPrimitiveDefinition {
    pub name: String,
    pub position: Vec3,
    pub rotation: Vec3,
    /// `true` for a static body, `false` for a dynamic one.
    pub is_static: bool,
}

/// A level document: scene-wide settings plus the ordered placement log.
#[derive(Clone, Debug, PartialEq)]
pub struct LevelDefinition {
    pub name: String,
    pub ground_dimensions: Extent,
    pub ground_colour: Colour,
    pub background_colour: Colour,
    pub primitives: Vec<LevelPrimitiveDefinition>,
}

/// Mathematical model of a primitive definition.
pub struct PrimitiveModel {
    pub name: Seq<char>,
    pub path_obj: Seq<char>,
    pub path_mtl: Seq<char>,
    pub scale: Vec3,
    pub density: i64,
    pub restitution: i64,
    pub friction: i64,
    pub collider_def: Seq<ColliderDefinition>,
}

impl View for PrimitiveDefinition {
    type V = PrimitiveModel;

    open spec fn view(&self) -> PrimitiveModel {
        PrimitiveModel {
            name: self.name@,
            path_obj: self.path_obj@,
            path_mtl: self.path_mtl@,
            scale: self.scale,
            density: self.density,
            restitution: self.restitution,
            friction: self.friction,
            collider_def: self.collider_def@,
        }
    }
}

/// Mathematical model of a placed-primitive record.
pub struct LevelPrimitiveModel {
    pub name: Seq<char>,
    pub position: Vec3,
    pub rotation: Vec3,
    pub is_static: bool,
}

/// Mathematical model of a level document.
pub struct LevelModel {
    pub name: Seq<char>,
    pub ground_dimensions: Extent,
    pub ground_colour: Colour,
    pub background_colour: Colour,
    pub primitives: Seq<LevelPrimitiveModel>,
}

impl View for LevelPrimitiveDefinition {
    type V = LevelPrimitiveModel;

    open spec fn view(&self) -> LevelPrimitiveModel {
        LevelPrimitiveModel {
            name: self.name@,
            position: self.position,
            rotation: self.rotation,
            is_static: self.is_static,
        }
    }
}

impl View for LevelDefinition {
    type V = LevelModel;

    open spec fn view(&self) -> LevelModel {
        LevelModel {
            name: self.name@,
            ground_dimensions: self.ground_dimensions,
            ground_colour: self.ground_colour,
            background_colour: self.background_colour,
            primitives: self.primitives@.map_values(|p: LevelPrimitiveDefinition| p@),
        }
    }
}

/// A character that may appear in a name stored by the level file format:
/// printable ASCII without the double quote (code 34) or the backslash
/// (code 92).  The last conjunct pins the character to its one-byte
/// encoding: writing it as a byte and reading it back is the identity.
pub open spec fn name_char_ok(c: char) -> bool {
    32 <= c as u8 <= 126 && c as u8 != 34 && c as u8 != 92 && ((c as u8) as char) == c
}

/// A well-formed stored name: every character survives the file format.
pub open spec fn name_ok(s: Seq<char>) -> bool {
    forall|i: int| 0 <= i < s.len() ==> name_char_ok(#[trigger] s[i])
}

/// A well-formed record: its name survives the file format and its scalars
/// fit the file format's numeric range.
pub open spec fn record_ok(r: LevelPrimitiveModel) -> bool {
    &&& name_ok(r.name)
    &&& r.position.in_bounds(FIXED_LIMIT as int)
    &&& r.rotation.in_bounds(FIXED_LIMIT as int)
}

/// A well-formed level: every stored name and scalar fits the file format.
pub open spec fn level_ok(l: LevelModel) -> bool {
    &&& name_ok(l.name)
    &&& -FIXED_LIMIT < l.ground_dimensions.width < FIXED_LIMIT
    &&& -FIXED_LIMIT < l.ground_dimensions.depth < FIXED_LIMIT
    &&& -FIXED_LIMIT < l.ground_colour.r < FIXED_LIMIT
    &&& -FIXED_LIMIT < l.ground_colour.g < FIXED_LIMIT
    &&& -FIXED_LIMIT < l.ground_colour.b < FIXED_LIMIT
    &&& -FIXED_LIMIT < l.background_colour.r < FIXED_LIMIT
    &&& -FIXED_LIMIT < l.background_colour.g < FIXED_LIMIT
    &&& -FIXED_LIMIT < l.background_colour.b < FIXED_LIMIT
    &&& forall|i: int| 0 <= i < l.primitives.len() ==> record_ok(#[trigger] l.primitives[i])
}

} // verus!
