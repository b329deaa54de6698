//! The editor placement controller: turns discrete input events into
//! primitive-placement decisions over the level's placement log.
//!
//! The controller works on plain values only.  Callers own the window,
//! camera and physics engines; they hand the controller a pick ray already
//! unprojected from the cursor, and receive back the record of any placement
//! to materialise.  All coordinates are fixed-point micro-units.

use vstd::prelude::*;

use vstd::arithmetic::div_mod::lemma_div_is_ordered;
use vstd::arithmetic::div_mod::lemma_div_multiples_vanish;

use crate::types::LevelDefinition;
use crate::types::LevelPrimitiveDefinition;
use crate::types::LevelPrimitiveModel;
use crate::types::PrimitiveDefinition;
use crate::types::Vec3;
use crate::types::level_ok;
use crate::types::name_ok;
use crate::level::spec_record;
use crate::library::PrimitiveLibrary;
use vstd::string::StringExecFns;

verus! {

/// Bound (inclusive) on the magnitude of a pick-ray origin component.
pub const POS_LIMIT: i64 = 1_000_000_000_000_000;

/// Bound (inclusive) on the magnitude of a pick-ray direction component.
pub const DIR_LIMIT: i64 = 1_000_000_000_000;

/// Largest accepted time-of-intersection along a pick ray; a crossing
/// farther out counts as no hit.
pub const TOI_LIMIT: i64 = 10_000;

/// Bound (inclusive) on the magnitude of a ground-hit component: an origin
/// component plus a direction component scaled by the farthest accepted
/// time of intersection.
pub const WORLD_LIMIT: i64 = 11_000_000_000_000_000;

/// A pick ray in world space: an origin and a direction, as handed back by
/// the caller's camera unprojection.
#[derive(Clone, Copy, PartialEq, Eq, Structural, Debug)]
pub struct PickRay {
    pub origin: Vec3,
    pub dir: Vec3,
}

impl PickRay {
    /// Components small enough for exact intersection arithmetic.
    pub open spec fn wf(self) -> bool {
        self.origin.in_bounds(POS_LIMIT as int + 1) && self.dir.in_bounds(DIR_LIMIT as int + 1)
    }

    /// Runtime check of [`PickRay::wf`], for callers that build rays from
    /// unchecked camera output.
    pub fn check_wf(&self) -> (b: bool)
        ensures
            b == self.wf(),
    {
        -POS_LIMIT <= self.origin.x && self.origin.x <= POS_LIMIT && -POS_LIMIT <= self.origin.y
            && self.origin.y <= POS_LIMIT && -POS_LIMIT <= self.origin.z && self.origin.z
            <= POS_LIMIT && -DIR_LIMIT <= self.dir.x && self.dir.x <= DIR_LIMIT && -DIR_LIMIT
            <= self.dir.y && self.dir.y <= DIR_LIMIT && -DIR_LIMIT <= self.dir.z && self.dir.z
            <= DIR_LIMIT
    }
}

/// The walkable ground: the top rectangle of the ground volume, at height
/// `top`, spanning `half_width` either way in `x` and `half_depth` in `z`.
#[derive(Clone, Copy, PartialEq, Eq, Structural, Debug)]
pub struct GroundRect {
    pub half_width: i64,
    pub half_depth: i64,
    pub top: i64,
}

impl GroundRect {
    /// Extents are non-negative and small enough for exact arithmetic.
    pub open spec fn wf(self) -> bool {
        &&& 0 <= self.half_width <= POS_LIMIT
        &&& 0 <= self.half_depth <= POS_LIMIT
        &&& -POS_LIMIT <= self.top <= POS_LIMIT
    }
}

/// Offset of a hit-point component from the ray origin: the direction
/// component scaled by the time of intersection `num_abs / dy_abs`, with the
/// quotient truncated toward zero.
pub open spec fn spec_scaled_offset(d: int, num_abs: int, dy_abs: int) -> int {
    if d >= 0 {
        (d * num_abs) / dy_abs
    } else {
        -(((-d) * num_abs) / dy_abs)
    }
}

/// Where a pick ray crosses the ground's top plane, if it does so in front
/// of its origin, within [`TOI_LIMIT`], and inside the ground rectangle.
///
/// A ray parallel to the plane (vertical direction component zero), a ray
/// starting on the plane, and a ray pointing away from the plane all miss.
pub open spec fn spec_ray_ground_hit(ground: GroundRect, ray: PickRay) -> Option<Vec3> {
    let num = ground.top - ray.origin.y;
    let dy = ray.dir.y as int;
    if dy == 0 || num == 0 || ((num < 0) != (dy < 0)) {
        None
    } else {
        let num_abs = if num < 0 {
            -num
        } else {
            num
        };
        let dy_abs = if dy < 0 {
            -dy
        } else {
            dy
        };
        if num_abs > TOI_LIMIT * dy_abs {
            None
        } else {
            let hx = ray.origin.x + spec_scaled_offset(ray.dir.x as int, num_abs, dy_abs);
            let hz = ray.origin.z + spec_scaled_offset(ray.dir.z as int, num_abs, dy_abs);
            if hx < -ground.half_width || hx > ground.half_width || hz < -ground.half_depth || hz
                > ground.half_depth {
                None
            } else {
                Some(Vec3 { x: hx as i64, y: ground.top, z: hz as i64 })
            }
        }
    }
}

/// Scales a direction component by the time of intersection, exactly as
/// [`spec_scaled_offset`] states.
fn scaled_offset(d: i64, num_abs: i64, dy_abs: i64) -> (q: i64)
    requires
        -DIR_LIMIT <= d <= DIR_LIMIT,
        0 < dy_abs <= DIR_LIMIT,
        0 < num_abs <= TOI_LIMIT * dy_abs,
    ensures
        q == spec_scaled_offset(d as int, num_abs as int, dy_abs as int),
        -10_000_000_000_000_000 <= q <= 10_000_000_000_000_000,
{
    let da: u64 = if d < 0 {
        (-d) as u64
    } else {
        d as u64
    };
    proof {
        assert(num_abs <= TOI_LIMIT * DIR_LIMIT);
        assert((da as int) * (num_abs as int) <= 10_000_000_000_000_000_000_000_000_000int)
            by (nonlinear_arith)
            requires
                0 <= da <= DIR_LIMIT,
                0 <= num_abs <= TOI_LIMIT * DIR_LIMIT,
        ;
    }
    let prod: u128 = (da as u128) * (num_abs as u128);
    let quot: u128 = prod / (dy_abs as u128);
    proof {
        assert(prod <= (da as int) * (TOI_LIMIT as int) * (dy_abs as int)) by (nonlinear_arith)
            requires
                prod == (da as int) * (num_abs as int),
                num_abs <= TOI_LIMIT * dy_abs,
                0 <= da,
                0 < dy_abs,
        ;
        lemma_div_is_ordered(
            prod as int,
            (da as int) * (TOI_LIMIT as int) * (dy_abs as int),
            dy_abs as int,
        );
        lemma_div_multiples_vanish((da as int) * (TOI_LIMIT as int), dy_abs as int);
        assert((da as int) * (TOI_LIMIT as int) * (dy_abs as int) == (dy_abs as int) * ((
        da as int) * (TOI_LIMIT as int))) by (nonlinear_arith);
        assert(quot <= (da as int) * (TOI_LIMIT as int));
        assert((da as int) * (TOI_LIMIT as int) <= 10_000_000_000_000_000int)
            by (nonlinear_arith)
            requires
                0 <= da <= DIR_LIMIT,
        ;
    }
    let q64: i64 = quot as i64;
    if d < 0 {
        -q64
    } else {
        q64
    }
}

/// Computes where the pick ray crosses the ground's top plane, if it does:
/// exactly the value of [`spec_ray_ground_hit`].
pub fn ray_ground_intersection(ground: &GroundRect, ray: &PickRay) -> (hit: Option<Vec3>)
    requires
        ground.wf(),
        ray.wf(),
    ensures
        hit == spec_ray_ground_hit(*ground, *ray),
        match hit {
            Some(p) => p.in_bounds(WORLD_LIMIT as int + 1),
            None => true,
        },
{
    let dy: i64 = ray.dir.y;
    if dy == 0 {
        return None;
    }
    let num: i64 = ground.top - ray.origin.y;
    if num == 0 {
        return None;
    }
    if (num < 0) != (dy < 0) {
        return None;
    }
    let num_abs: i64 = if num < 0 {
        -num
    } else {
        num
    };
    let dy_abs: i64 = if dy < 0 {
        -dy
    } else {
        dy
    };
    if num_abs > TOI_LIMIT * dy_abs {
        return None;
    }
    let off_x: i64 = scaled_offset(ray.dir.x, num_abs, dy_abs);
    let off_z: i64 = scaled_offset(ray.dir.z, num_abs, dy_abs);
    let hx: i64 = ray.origin.x + off_x;
    let hz: i64 = ray.origin.z + off_z;
    if hx < -ground.half_width || hx > ground.half_width || hz < -ground.half_depth || hz
        > ground.half_depth {
        return None;
    }
    Some(Vec3 { x: hx, y: ground.top, z: hz })
}

/// One full turn, in micro-radians.
pub const TWO_PI: i64 = 6_283_185;

/// The fixed rotation step of the rotate keys: fifteen degrees in
/// micro-radians.
pub const ROTATION_DELTA: i64 = 261_799;

/// Spawn-height policy: the adjust keys step by half a unit, the offset
/// never drops below half a unit, and it saturates at [`SPAWN_HEIGHT_MAX`].
pub const SPAWN_HEIGHT_STEP: i64 = 500_000;

/// Least spawn-height offset: half a unit.
pub const SPAWN_HEIGHT_MIN: i64 = 500_000;

/// Greatest spawn-height offset: one million units.
pub const SPAWN_HEIGHT_MAX: i64 = 1_000_000_000_000;

/// Initial spawn spacing: `1.2` units.
pub const SPACING_DEFAULT: i64 = 1_200_000;

/// Greatest spawn spacing: one million units.
pub const SPACING_MAX: i64 = 1_000_000_000_000;

/// Bound (inclusive) on the magnitude of a stored cursor or spawn
/// coordinate: a ground hit raised by at most the spawn-height ceiling.
pub const CURSOR_LIMIT: i64 = 11_001_000_000_000_000;

/// Squared Euclidean distance between two points exceeds `s`: compared as
/// `dist^2 > s^2`, which for non-negative `s` is exactly `dist > s`.
pub open spec fn spec_dist_exceeds(a: Vec3, b: Vec3, s: int) -> bool {
    let dx = a.x - b.x;
    let dy = a.y - b.y;
    let dz = a.z - b.z;
    dx * dx + dy * dy + dz * dz > s * s
}

/// Whether two points lie farther apart than `s`, exactly as
/// [`spec_dist_exceeds`] states.
pub fn dist_exceeds(a: &Vec3, b: &Vec3, s: i64) -> (r: bool)
    requires
        a.in_bounds(CURSOR_LIMIT as int + 1),
        b.in_bounds(CURSOR_LIMIT as int + 1),
        0 <= s <= SPACING_MAX,
    ensures
        r == spec_dist_exceeds(*a, *b, s as int),
{
    let dx: i64 = a.x - b.x;
    let dy: i64 = a.y - b.y;
    let dz: i64 = a.z - b.z;
    proof {
        assert(0 <= (dx as int) * (dx as int)
            <= 1_000_000_000_000_000_000_000_000_000_000_000int) by (nonlinear_arith)
            requires
                -22_002_000_000_000_000 <= dx <= 22_002_000_000_000_000,
        ;
        assert(0 <= (dy as int) * (dy as int)
            <= 1_000_000_000_000_000_000_000_000_000_000_000int) by (nonlinear_arith)
            requires
                -22_002_000_000_000_000 <= dy <= 22_002_000_000_000_000,
        ;
        assert(0 <= (dz as int) * (dz as int)
            <= 1_000_000_000_000_000_000_000_000_000_000_000int) by (nonlinear_arith)
            requires
                -22_002_000_000_000_000 <= dz <= 22_002_000_000_000_000,
        ;
        assert(0 <= (s as int) * (s as int) <= 1_000_000_000_000_000_000_000_000int)
            by (nonlinear_arith)
            requires
                0 <= s <= 1_000_000_000_000,
        ;
    }
    let qx: i128 = (dx as i128) * (dx as i128);
    let qy: i128 = (dy as i128) * (dy as i128);
    let qz: i128 = (dz as i128) * (dz as i128);
    let ss: i128 = (s as i128) * (s as i128);
    qx + qy + qz > ss
}

/// Brings an angle within one turn either way back into `[0, TWO_PI)`.
pub open spec fn spec_normalized_angle(a: int) -> int {
    if a < 0 {
        a + TWO_PI
    } else if a >= TWO_PI {
        a - TWO_PI
    } else {
        a
    }
}

/// Normalises an angle into `[0, TWO_PI)`, exactly as
/// [`spec_normalized_angle`] states.
pub fn normalized_angle(a: i64) -> (r: i64)
    requires
        -TWO_PI < a < 2 * TWO_PI,
    ensures
        r == spec_normalized_angle(a as int),
        0 <= r < TWO_PI,
{
    if a < 0 {
        a + TWO_PI
    } else if a >= TWO_PI {
        a - TWO_PI
    } else {
        a
    }
}

/// The keys the placement controller reacts to; anything else is `Other`.
#[derive(Clone, Copy, PartialEq, Eq, Structural, Debug)]
pub enum Key {
    /// Cycle the selected primitive.
    Tab,
    /// Lower the spawn-height offset.
    Q,
    /// Raise the spawn-height offset.
    E,
    /// Rotate the pending primitive left around the vertical axis.
    A,
    /// Rotate the pending primitive right around the vertical axis.
    D,
    /// With the control modifier: request a level save.
    S,
    /// Grow the spawn spacing.
    R,
    /// Shrink the spawn spacing.
    F,
    /// Toggle auto-rotation.
    C,
    /// Cycle the placement mode.
    X,
    /// Toggle static placement.
    Z,
    /// Any key without a binding.
    Other,
}

/// The mouse buttons the controller distinguishes.
#[derive(Clone, Copy, PartialEq, Eq, Structural, Debug)]
pub enum MouseButton {
    /// The primary (placement) button.
    Button1,
    /// Any other button.
    Other,
}

/// The two placement modes: one primitive per click, or a trail of
/// primitives while dragging.
#[derive(Clone, Copy, PartialEq, Eq, Structural, Debug)]
pub enum EditorPlacementMode {
    Singular,
    Instanced,
}

/// Mathematical model of the controller state.
pub struct ControllerModel {
    pub ground_collision_rect: GroundRect,
    pub primitive_name: Seq<char>,
    pub cursor_ray: Option<PickRay>,
    pub cursor_position_world: Vec3,
    pub primitive_rotation: Vec3,
    pub primitive_rotation_delta: i64,
    pub primitive_spawn_height: i64,
    pub primitive_spawn_spacing: i64,
    pub primitive_last_spawn_pos: Vec3,
    pub primitive_auto_rotate: bool,
    pub primitive_placement_mode: EditorPlacementMode,
    pub primitive_placement_static: bool,
    pub mouse_button1_pressed: bool,
}

impl ControllerModel {
    /// Well-formed controller state: every stored quantity is inside the
    /// range the exact arithmetic of the controller relies on.
    pub open spec fn wf(self) -> bool {
        &&& self.ground_collision_rect.wf()
        &&& match self.cursor_ray {
            Some(r) => r.wf(),
            None => true,
        }
        &&& self.cursor_position_world.in_bounds(CURSOR_LIMIT as int + 1)
        &&& self.primitive_last_spawn_pos.in_bounds(CURSOR_LIMIT as int + 1)
        &&& 0 <= self.primitive_rotation.y < TWO_PI
        &&& -TWO_PI < self.primitive_rotation.x < TWO_PI
        &&& -TWO_PI < self.primitive_rotation.z < TWO_PI
        &&& self.primitive_rotation_delta == ROTATION_DELTA
        &&& SPAWN_HEIGHT_MIN <= self.primitive_spawn_height <= SPAWN_HEIGHT_MAX
        &&& 0 <= self.primitive_spawn_spacing <= SPACING_MAX
    }
}

/// The candidate spawn position for a stored ray and spawn-height offset:
/// the ground hit, raised by the offset; `None` when there is no ray yet or
/// the ray misses the ground.
pub open spec fn spec_spawn_position(
    ground: GroundRect,
    cursor_ray: Option<PickRay>,
    height: i64,
) -> Option<Vec3> {
    match cursor_ray {
        None => None,
        Some(ray) => match spec_ray_ground_hit(ground, ray) {
            None => None,
            Some(p) => Some(Vec3 { x: p.x, y: (p.y + height) as i64, z: p.z }),
        },
    }
}

/// Spawn-height lowered one step, not below the floor.
pub open spec fn spec_height_lowered(h: int) -> int {
    if h - SPAWN_HEIGHT_STEP >= SPAWN_HEIGHT_MIN {
        h - SPAWN_HEIGHT_STEP
    } else {
        SPAWN_HEIGHT_MIN as int
    }
}

/// Spawn-height raised one step, saturating at the ceiling.
pub open spec fn spec_height_raised(h: int) -> int {
    if h + SPAWN_HEIGHT_STEP <= SPAWN_HEIGHT_MAX {
        h + SPAWN_HEIGHT_STEP
    } else {
        SPAWN_HEIGHT_MAX as int
    }
}

/// Spawn spacing grown by a tenth, saturating at the ceiling.
pub open spec fn spec_spacing_grown(s: int) -> int {
    if s * 11 / 10 <= SPACING_MAX {
        s * 11 / 10
    } else {
        SPACING_MAX as int
    }
}

/// Spawn spacing shrunk by a tenth.
pub open spec fn spec_spacing_shrunk(s: int) -> int {
    s * 9 / 10
}

/// The placement mode the mode key advances to.
pub open spec fn spec_mode_toggled(m: EditorPlacementMode) -> EditorPlacementMode {
    match m {
        EditorPlacementMode::Singular => EditorPlacementMode::Instanced,
        EditorPlacementMode::Instanced => EditorPlacementMode::Singular,
    }
}

/// What a key press does to the controller state, and whether it requests a
/// level save: the whole key-binding policy in one place.
pub open spec fn spec_on_key_down(
    m: ControllerModel,
    library: PrimitiveLibrary,
    k: Key,
    ctrl: bool,
) -> (ControllerModel, bool) {
    match k {
        Key::Tab => (
            ControllerModel { primitive_name: library.spec_cycled(m.primitive_name), ..m },
            false,
        ),
        Key::Q => {
            let h = spec_height_lowered(m.primitive_spawn_height as int) as i64;
            let s1 = ControllerModel { primitive_spawn_height: h, ..m };
            let s2 = match spec_spawn_position(m.ground_collision_rect, m.cursor_ray, h) {
                Some(p) => ControllerModel { cursor_position_world: p, ..s1 },
                None => s1,
            };
            (s2, false)
        },
        Key::E => {
            let h = spec_height_raised(m.primitive_spawn_height as int) as i64;
            let s1 = ControllerModel { primitive_spawn_height: h, ..m };
            let s2 = match spec_spawn_position(m.ground_collision_rect, m.cursor_ray, h) {
                Some(p) => ControllerModel { cursor_position_world: p, ..s1 },
                None => s1,
            };
            (s2, false)
        },
        Key::A => (
            ControllerModel {
                primitive_rotation: Vec3 {
                    y: spec_normalized_angle(
                        m.primitive_rotation.y + m.primitive_rotation_delta,
                    ) as i64,
                    ..m.primitive_rotation
                },
                ..m
            },
            false,
        ),
        Key::D => (
            ControllerModel {
                primitive_rotation: Vec3 {
                    y: spec_normalized_angle(
                        m.primitive_rotation.y - m.primitive_rotation_delta,
                    ) as i64,
                    ..m.primitive_rotation
                },
                ..m
            },
            false,
        ),
        Key::S => (m, ctrl),
        Key::R => (
            ControllerModel {
                primitive_spawn_spacing: spec_spacing_grown(
                    m.primitive_spawn_spacing as int,
                ) as i64,
                ..m
            },
            false,
        ),
        Key::F => (
            ControllerModel {
                primitive_spawn_spacing: spec_spacing_shrunk(
                    m.primitive_spawn_spacing as int,
                ) as i64,
                ..m
            },
            false,
        ),
        Key::C => (
            ControllerModel { primitive_auto_rotate: !m.primitive_auto_rotate, ..m },
            false,
        ),
        Key::X => (
            ControllerModel {
                primitive_placement_mode: spec_mode_toggled(m.primitive_placement_mode),
                ..m
            },
            false,
        ),
        Key::Z => (
            ControllerModel { primitive_placement_static: !m.primitive_placement_static, ..m },
            false,
        ),
        Key::Other => (m, false),
    }
}

/// What a press of the primary mouse button does: in singular mode, one
/// placement at the candidate spawn position, if there is one.
pub open spec fn spec_on_mouse_down(
    m: ControllerModel,
    library: PrimitiveLibrary,
    button: MouseButton,
    auto_yaw: Option<i64>,
) -> (ControllerModel, Option<LevelPrimitiveModel>) {
    let s1 = if button == MouseButton::Button1 {
        ControllerModel { mouse_button1_pressed: true, ..m }
    } else {
        m
    };
    match spec_spawn_position(m.ground_collision_rect, m.cursor_ray, m.primitive_spawn_height) {
        None => (s1, None),
        Some(p) => {
            let s2 = spec_with_auto_yaw(s1, auto_yaw);
            if m.primitive_placement_mode == EditorPlacementMode::Singular
                && s1.mouse_button1_pressed {
                let s3 = ControllerModel {
                    primitive_last_spawn_pos: p,
                    mouse_button1_pressed: false,
                    ..s2
                };
                if library.contains_name(m.primitive_name) {
                    (
                        s3,
                        Some(
                            spec_record(
                                m.primitive_name,
                                p,
                                s2.primitive_rotation,
                                m.primitive_placement_static,
                            ),
                        ),
                    )
                } else {
                    (s3, None)
                }
            } else {
                (s2, None)
            }
        },
    }
}

/// Overwrites the pending yaw with a caller-computed auto-rotation angle,
/// when auto-rotation is on and an angle was supplied.
pub open spec fn spec_with_auto_yaw(m: ControllerModel, auto_yaw: Option<i64>) -> ControllerModel {
    if m.primitive_auto_rotate {
        match auto_yaw {
            Some(y) => ControllerModel {
                primitive_rotation: Vec3 {
                    y: spec_normalized_angle(y as int) as i64,
                    ..m.primitive_rotation
                },
                ..m
            },
            None => m,
        }
    } else {
        m
    }
}

/// What a cursor move does: track the ray and candidate position, apply
/// auto-rotation, and in instanced mode place a primitive once the cursor
/// has moved farther than the spawn spacing while the button is held.
pub open spec fn spec_on_mouse_move(
    m: ControllerModel,
    library: PrimitiveLibrary,
    ray: PickRay,
    auto_yaw: Option<i64>,
) -> (ControllerModel, Option<LevelPrimitiveModel>) {
    let s1 = ControllerModel { cursor_ray: Some(ray), ..m };
    match spec_spawn_position(m.ground_collision_rect, Some(ray), m.primitive_spawn_height) {
        None => (s1, None),
        Some(p) => {
            let s2 = ControllerModel { cursor_position_world: p, ..s1 };
            let s3 = spec_with_auto_yaw(s2, auto_yaw);
            if m.primitive_placement_mode == EditorPlacementMode::Instanced
                && spec_dist_exceeds(
                p,
                m.primitive_last_spawn_pos,
                m.primitive_spawn_spacing as int,
            ) {
                let s4 = ControllerModel { primitive_last_spawn_pos: p, ..s3 };
                if m.mouse_button1_pressed && library.contains_name(m.primitive_name) {
                    (
                        s4,
                        Some(
                            spec_record(
                                m.primitive_name,
                                p,
                                s3.primitive_rotation,
                                m.primitive_placement_static,
                            ),
                        ),
                    )
                } else {
                    (s4, None)
                }
            } else {
                (s3, None)
            }
        },
    }
}

/// The vector the auto-rotation yaw derives from: from the last spawn
/// position to the candidate position, in the ground plane.
pub open spec fn spec_auto_rotate_target(m: ControllerModel, ray: PickRay) -> Option<(i64, i64)> {
    if !m.primitive_auto_rotate {
        None
    } else {
        match spec_spawn_position(m.ground_collision_rect, Some(ray), m.primitive_spawn_height) {
            None => None,
            Some(p) => {
                let dx = (p.x - m.primitive_last_spawn_pos.x) as i64;
                let dz = (p.z - m.primitive_last_spawn_pos.z) as i64;
                if dx == 0 && dz == 0 {
                    None
                } else {
                    Some((dx, dz))
                }
            },
        }
    }
}

/// The editor's placement controller: the mutable editing state, advanced
/// by one method per input event.
///
/// The caller performs whatever the contracts say was decided: it
/// materialises returned placement records in the physics and render
/// engines, saves the level when a key handler requests it, and computes
/// the auto-rotation angle (the one floating-point step) from
/// [`EditorModeInteraction::auto_rotate_target`].
pub struct EditorModeInteraction {
    pub ground_collision_rect: GroundRect,
    pub primitive_name: String,
    pub cursor_ray: Option<PickRay>,
    pub cursor_position_world: Vec3,
    pub primitive_rotation: Vec3,
    pub primitive_rotation_delta: i64,
    pub primitive_spawn_height: i64,
    pub primitive_spawn_spacing: i64,
    pub primitive_last_spawn_pos: Vec3,
    pub primitive_auto_rotate: bool,
    pub primitive_placement_mode: EditorPlacementMode,
    pub primitive_placement_static: bool,
    pub mouse_button1_pressed: bool,
}

impl View for EditorModeInteraction {
    type V = ControllerModel;

    open spec fn view(&self) -> ControllerModel {
        ControllerModel {
            ground_collision_rect: self.ground_collision_rect,
            primitive_name: self.primitive_name@,
            cursor_ray: self.cursor_ray,
            cursor_position_world: self.cursor_position_world,
            primitive_rotation: self.primitive_rotation,
            primitive_rotation_delta: self.primitive_rotation_delta,
            primitive_spawn_height: self.primitive_spawn_height,
            primitive_spawn_spacing: self.primitive_spawn_spacing,
            primitive_last_spawn_pos: self.primitive_last_spawn_pos,
            primitive_auto_rotate: self.primitive_auto_rotate,
            primitive_placement_mode: self.primitive_placement_mode,
            primitive_placement_static: self.primitive_placement_static,
            mouse_button1_pressed: self.mouse_button1_pressed,
        }
    }
}

impl EditorModeInteraction {
    /// A fresh controller over the given ground, with the given primitive
    /// selected: no ray yet, no rotation, the default spawn height and
    /// spacing, singular dynamic placement, and every toggle off.
    pub fn new(ground_collision_rect: GroundRect, primitive_name: &str) -> (c:
        EditorModeInteraction)
        requires
            ground_collision_rect.wf(),
        ensures
            c@ == (ControllerModel {
                ground_collision_rect,
                primitive_name: primitive_name@,
                cursor_ray: None,
                cursor_position_world: Vec3 { x: 0, y: 0, z: 0 },
                primitive_rotation: Vec3 { x: 0, y: 0, z: 0 },
                primitive_rotation_delta: ROTATION_DELTA,
                primitive_spawn_height: SPAWN_HEIGHT_MIN,
                primitive_spawn_spacing: SPACING_DEFAULT,
                primitive_last_spawn_pos: Vec3 { x: 0, y: 0, z: 0 },
                primitive_auto_rotate: false,
                primitive_placement_mode: EditorPlacementMode::Singular,
                primitive_placement_static: false,
                mouse_button1_pressed: false,
            }),
            c@.wf(),
    {
        EditorModeInteraction {
            ground_collision_rect,
            primitive_name: String::from_str(primitive_name),
            cursor_ray: None,
            cursor_position_world: Vec3 { x: 0, y: 0, z: 0 },
            primitive_rotation: Vec3 { x: 0, y: 0, z: 0 },
            primitive_rotation_delta: ROTATION_DELTA,
            primitive_spawn_height: SPAWN_HEIGHT_MIN,
            primitive_spawn_spacing: SPACING_DEFAULT,
            primitive_last_spawn_pos: Vec3 { x: 0, y: 0, z: 0 },
            primitive_auto_rotate: false,
            primitive_placement_mode: EditorPlacementMode::Singular,
            primitive_placement_static: false,
            mouse_button1_pressed: false,
        }
    }

    /// The candidate spawn position for the stored cursor ray: the ground
    /// hit raised by the spawn-height offset, or `None` when no ray is
    /// stored or the ray misses the ground.
    pub fn get_primitive_spawn_position(&self) -> (r: Option<Vec3>)
        requires
            self@.wf(),
        ensures
            r == spec_spawn_position(
                self.ground_collision_rect,
                self.cursor_ray,
                self.primitive_spawn_height,
            ),
            match r {
                Some(p) => p.in_bounds(CURSOR_LIMIT as int + 1),
                None => true,
            },
    {
        match self.cursor_ray {
            None => None,
            Some(ray) => match ray_ground_intersection(&self.ground_collision_rect, &ray) {
                None => None,
                Some(p) => Some(
                    Vec3 { x: p.x, y: p.y + self.primitive_spawn_height, z: p.z },
                ),
            },
        }
    }

    /// Handles one key press, exactly as [`spec_on_key_down`] states, and
    /// reports whether the caller should save the level (the save key with
    /// the control modifier held); the controller state never changes on a
    /// save request.
    pub fn on_key_down(&mut self, library: &PrimitiveLibrary, k: Key, ctrl: bool) -> (save: bool)
        requires
            library.wf(),
            old(self)@.wf(),
        ensures
            (final(self)@, save) == spec_on_key_down(old(self)@, *library, k, ctrl),
            final(self)@.wf(),
            save == (k == Key::S && ctrl),
    {
        match k {
            Key::Tab => {
                let next = library.next_name_after(&self.primitive_name);
                self.primitive_name = next;
                false
            },
            Key::Q => {
                let h = self.primitive_spawn_height;
                self.primitive_spawn_height = if h - SPAWN_HEIGHT_STEP >= SPAWN_HEIGHT_MIN {
                    h - SPAWN_HEIGHT_STEP
                } else {
                    SPAWN_HEIGHT_MIN
                };
                if let Some(p) = self.get_primitive_spawn_position() {
                    self.cursor_position_world = p;
                }
                false
            },
            Key::E => {
                let h = self.primitive_spawn_height;
                self.primitive_spawn_height = if h + SPAWN_HEIGHT_STEP <= SPAWN_HEIGHT_MAX {
                    h + SPAWN_HEIGHT_STEP
                } else {
                    SPAWN_HEIGHT_MAX
                };
                if let Some(p) = self.get_primitive_spawn_position() {
                    self.cursor_position_world = p;
                }
                false
            },
            Key::A => {
                self.primitive_rotation.y = normalized_angle(
                    self.primitive_rotation.y + self.primitive_rotation_delta,
                );
                false
            },
            Key::D => {
                self.primitive_rotation.y = normalized_angle(
                    self.primitive_rotation.y - self.primitive_rotation_delta,
                );
                false
            },
            Key::S => ctrl,
            Key::R => {
                let grown = self.primitive_spawn_spacing * 11 / 10;
                self.primitive_spawn_spacing = if grown <= SPACING_MAX {
                    grown
                } else {
                    SPACING_MAX
                };
                false
            },
            Key::F => {
                self.primitive_spawn_spacing = self.primitive_spawn_spacing * 9 / 10;
                false
            },
            Key::C => {
                self.primitive_auto_rotate = !self.primitive_auto_rotate;
                false
            },
            Key::X => {
                self.primitive_placement_mode = match self.primitive_placement_mode {
                    EditorPlacementMode::Singular => EditorPlacementMode::Instanced,
                    EditorPlacementMode::Instanced => EditorPlacementMode::Singular,
                };
                false
            },
            Key::Z => {
                self.primitive_placement_static = !self.primitive_placement_static;
                false
            },
            Key::Other => false,
        }
    }

    /// Key releases do nothing.
    pub fn on_key_up(&mut self, _k: Key)
        ensures
            *final(self) == *old(self),
    {
    }

    /// Releasing the primary button ends a drag; other releases do nothing.
    pub fn on_mouse_up(&mut self, button: MouseButton)
        ensures
            final(self)@ == if button == MouseButton::Button1 {
                ControllerModel { mouse_button1_pressed: false, ..old(self)@ }
            } else {
                old(self)@
            },
            old(self)@.wf() ==> final(self)@.wf(),
    {
        if matches!(button, MouseButton::Button1) {
            self.mouse_button1_pressed = false;
        }
    }

    /// Handles one mouse-button press, exactly as [`spec_on_mouse_down`]
    /// states: the primary button starts a drag and, in singular mode,
    /// attempts one placement at the candidate spawn position.  The record
    /// of a successful placement is appended to the level and returned for
    /// the caller to materialise; an unknown primitive name places nothing.
    ///
    /// `auto_yaw` is the caller-computed auto-rotation angle for the stored
    /// ray, from [`EditorModeInteraction::auto_rotate_target`]; it is
    /// applied only while auto-rotation is on.
    pub fn on_mouse_down(
        &mut self,
        level: &mut LevelDefinition,
        library: &PrimitiveLibrary,
        button: MouseButton,
        auto_yaw: Option<i64>,
    ) -> (placed: Option<LevelPrimitiveDefinition>)
        requires
            library.wf(),
            old(self)@.wf(),
            match auto_yaw {
                Some(y) => -TWO_PI < y < 2 * TWO_PI,
                None => true,
            },
        ensures
            final(self)@ == spec_on_mouse_down(old(self)@, *library, button, auto_yaw).0,
            final(self)@.wf(),
            match placed {
                Some(rec) => spec_on_mouse_down(old(self)@, *library, button, auto_yaw).1
                    == Some(rec@),
                None => spec_on_mouse_down(old(self)@, *library, button, auto_yaw).1 is None,
            },
            match spec_on_mouse_down(old(self)@, *library, button, auto_yaw).1 {
                Some(rec) => final(level)@.primitives == old(level)@.primitives.push(rec)
                    && final(level)@.name == old(level)@.name && final(level)@.ground_dimensions
                    == old(level)@.ground_dimensions && final(level)@.ground_colour == old(
                    level,
                )@.ground_colour && final(level)@.background_colour == old(
                    level,
                )@.background_colour,
                None => *final(level) == *old(level),
            },
            level_ok(old(level)@) ==> level_ok(final(level)@),
    {
        if matches!(button, MouseButton::Button1) {
            self.mouse_button1_pressed = true;
        }
        match self.get_primitive_spawn_position() {
            None => None,
            Some(p) => {
                if self.primitive_auto_rotate {
                    if let Some(y) = auto_yaw {
                        self.primitive_rotation.y = normalized_angle(y);
                    }
                }
                if matches!(self.primitive_placement_mode, EditorPlacementMode::Singular)
                    && self.mouse_button1_pressed {
                    self.primitive_last_spawn_pos = p;
                    let did_place = level.add_primitive(
                        library,
                        self.primitive_name.as_str(),
                        p,
                        self.primitive_rotation,
                        self.primitive_placement_static,
                    );
                    self.mouse_button1_pressed = false;
                    if did_place {
                        proof {
                            self.lemma_placed_record_ok(*library);
                        }
                        Some(
                            LevelPrimitiveDefinition {
                                name: self.primitive_name.clone(),
                                position: p,
                                rotation: self.primitive_rotation,
                                is_static: self.primitive_placement_static,
                            },
                        )
                    } else {
                        None
                    }
                } else {
                    None
                }
            },
        }
    }

    /// Handles one cursor move, exactly as [`spec_on_mouse_move`] states:
    /// tracks the new pick ray and candidate position, applies the supplied
    /// auto-rotation angle while auto-rotation is on, and in instanced mode
    /// places a primitive once the candidate has moved farther from the
    /// last spawn position than the spawn spacing while the primary button
    /// is held.  The record of a placement is appended to the level and
    /// returned for the caller to materialise.
    pub fn on_mouse_move(
        &mut self,
        level: &mut LevelDefinition,
        library: &PrimitiveLibrary,
        ray: PickRay,
        auto_yaw: Option<i64>,
    ) -> (placed: Option<LevelPrimitiveDefinition>)
        requires
            library.wf(),
            old(self)@.wf(),
            ray.wf(),
            match auto_yaw {
                Some(y) => -TWO_PI < y < 2 * TWO_PI,
                None => true,
            },
        ensures
            final(self)@ == spec_on_mouse_move(old(self)@, *library, ray, auto_yaw).0,
            final(self)@.wf(),
            match placed {
                Some(rec) => spec_on_mouse_move(old(self)@, *library, ray, auto_yaw).1 == Some(
                    rec@,
                ),
                None => spec_on_mouse_move(old(self)@, *library, ray, auto_yaw).1 is None,
            },
            match spec_on_mouse_move(old(self)@, *library, ray, auto_yaw).1 {
                Some(rec) => final(level)@.primitives == old(level)@.primitives.push(rec)
                    && final(level)@.name == old(level)@.name && final(level)@.ground_dimensions
                    == old(level)@.ground_dimensions && final(level)@.ground_colour == old(
                    level,
                )@.ground_colour && final(level)@.background_colour == old(
                    level,
                )@.background_colour,
                None => *final(level) == *old(level),
            },
            level_ok(old(level)@) ==> level_ok(final(level)@),
    {
        self.cursor_ray = Some(ray);
        match self.get_primitive_spawn_position() {
            None => None,
            Some(p) => {
                self.cursor_position_world = p;
                if self.primitive_auto_rotate {
                    if let Some(y) = auto_yaw {
                        self.primitive_rotation.y = normalized_angle(y);
                    }
                }
                if matches!(self.primitive_placement_mode, EditorPlacementMode::Instanced)
                    && dist_exceeds(
                    &p,
                    &self.primitive_last_spawn_pos,
                    self.primitive_spawn_spacing,
                ) {
                    self.primitive_last_spawn_pos = p;
                    if self.mouse_button1_pressed {
                        let did_place = level.add_primitive(
                            library,
                            self.primitive_name.as_str(),
                            p,
                            self.primitive_rotation,
                            self.primitive_placement_static,
                        );
                        if did_place {
                            proof {
                                self.lemma_placed_record_ok(*library);
                            }
                            Some(
                                LevelPrimitiveDefinition {
                                    name: self.primitive_name.clone(),
                                    position: p,
                                    rotation: self.primitive_rotation,
                                    is_static: self.primitive_placement_static,
                                },
                            )
                        } else {
                            None
                        }
                    } else {
                        None
                    }
                } else {
                    None
                }
            },
        }
    }

    /// The selected primitive's name survives the file format whenever it
    /// resolves in a well-formed library, so a placement keeps the level
    /// well formed.
    proof fn lemma_placed_record_ok(self, library: PrimitiveLibrary)
        requires
            library.wf(),
            library.contains_name(self.primitive_name@),
        ensures
            name_ok(self.primitive_name@),
    {
        let i = choose|i: int|
            0 <= i < library.names().len() && library.names()[i] == self.primitive_name@;
        assert(name_ok(library.names()[i]));
    }

    /// The planar vector the caller should derive the auto-rotation yaw
    /// from, exactly as [`spec_auto_rotate_target`] states: from the last
    /// spawn position toward the candidate position of the given ray; `None`
    /// when auto-rotation is off, the ray misses, or the two coincide.
    pub fn auto_rotate_target(&self, ray: &PickRay) -> (r: Option<(i64, i64)>)
        requires
            self@.wf(),
            ray.wf(),
        ensures
            r == spec_auto_rotate_target(self@, *ray),
    {
        if !self.primitive_auto_rotate {
            return None;
        }
        match ray_ground_intersection(&self.ground_collision_rect, ray) {
            None => None,
            Some(hit) => {
                let p = Vec3 { x: hit.x, y: hit.y + self.primitive_spawn_height, z: hit.z };
                let dx: i64 = p.x - self.primitive_last_spawn_pos.x;
                let dz: i64 = p.z - self.primitive_last_spawn_pos.z;
                if dx == 0 && dz == 0 {
                    None
                } else {
                    Some((dx, dz))
                }
            },
        }
    }

    /// What the per-frame preview visual should show: the selected
    /// primitive's definition at the candidate position with the pending
    /// rotation, or nothing when the selected name is not in the library.
    ///
    /// The caller rebuilds its single preview visual from this every frame,
    /// destroying the previous one first, so at most one exists at a time.
    pub fn preview<'a>(&self, library: &'a PrimitiveLibrary) -> (r: Option<
        (&'a PrimitiveDefinition, Vec3, Vec3),
    >)
        requires
            library.wf(),
        ensures
            match r {
                Some((def, position, rotation)) => {
                    &&& library.contains_name(self.primitive_name@)
                    &&& def.name@ == self.primitive_name@
                    &&& *def == library.defs_seq()[library.index_of_name(self.primitive_name@)]
                    &&& position == self.cursor_position_world
                    &&& rotation == self.primitive_rotation
                },
                None => !library.contains_name(self.primitive_name@),
            },
    {
        match library.get(&self.primitive_name) {
            Some(def) => Some((def, self.cursor_position_world, self.primitive_rotation)),
            None => None,
        }
    }

    /// Runtime check of the state's well-formedness, for callers that
    /// cannot carry the proof.
    pub fn is_well_formed(&self) -> (b: bool)
        ensures
            b == self@.wf(),
    {
        let ground_ok = 0 <= self.ground_collision_rect.half_width
            && self.ground_collision_rect.half_width <= POS_LIMIT && 0
            <= self.ground_collision_rect.half_depth && self.ground_collision_rect.half_depth
            <= POS_LIMIT && -POS_LIMIT <= self.ground_collision_rect.top
            && self.ground_collision_rect.top <= POS_LIMIT;
        let ray_ok = match &self.cursor_ray {
            Some(r) => r.check_wf(),
            None => true,
        };
        let cursor_ok = -CURSOR_LIMIT <= self.cursor_position_world.x
            && self.cursor_position_world.x <= CURSOR_LIMIT && -CURSOR_LIMIT
            <= self.cursor_position_world.y && self.cursor_position_world.y <= CURSOR_LIMIT
            && -CURSOR_LIMIT <= self.cursor_position_world.z && self.cursor_position_world.z
            <= CURSOR_LIMIT;
        let last_ok = -CURSOR_LIMIT <= self.primitive_last_spawn_pos.x
            && self.primitive_last_spawn_pos.x <= CURSOR_LIMIT && -CURSOR_LIMIT
            <= self.primitive_last_spawn_pos.y && self.primitive_last_spawn_pos.y <= CURSOR_LIMIT
            && -CURSOR_LIMIT <= self.primitive_last_spawn_pos.z && self.primitive_last_spawn_pos.z
            <= CURSOR_LIMIT;
        let rotation_ok = 0 <= self.primitive_rotation.y && self.primitive_rotation.y < TWO_PI
            && -TWO_PI < self.primitive_rotation.x && self.primitive_rotation.x < TWO_PI
            && -TWO_PI < self.primitive_rotation.z && self.primitive_rotation.z < TWO_PI;
        let scalars_ok = self.primitive_rotation_delta == ROTATION_DELTA && SPAWN_HEIGHT_MIN
            <= self.primitive_spawn_height && self.primitive_spawn_height <= SPAWN_HEIGHT_MAX && 0
            <= self.primitive_spawn_spacing && self.primitive_spawn_spacing <= SPACING_MAX;
        ground_ok && ray_ok && cursor_ok && last_ok && rotation_ok && scalars_ok
    }
}

/// The spacing throttle of instanced placement: while the primary button is
/// held over a drag of three cursor moves, a candidate position within the
/// spawn spacing of the last spawn places nothing, and the next candidate
/// beyond the spacing places again.  So attempts closer together than the
/// spacing yield at most one record, and a later attempt farther away
/// yields the second.
pub proof fn lemma_instanced_spacing_throttle(
    m: ControllerModel,
    library: PrimitiveLibrary,
    r1: PickRay,
    r2: PickRay,
    r3: PickRay,
    p1: Vec3,
    p2: Vec3,
    p3: Vec3,
)
    requires
        m.primitive_placement_mode == EditorPlacementMode::Instanced,
        m.mouse_button1_pressed,
        library.contains_name(m.primitive_name),
        spec_spawn_position(m.ground_collision_rect, Some(r1), m.primitive_spawn_height)
            == Some(p1),
        spec_spawn_position(m.ground_collision_rect, Some(r2), m.primitive_spawn_height)
            == Some(p2),
        spec_spawn_position(m.ground_collision_rect, Some(r3), m.primitive_spawn_height)
            == Some(p3),
        spec_dist_exceeds(p1, m.primitive_last_spawn_pos, m.primitive_spawn_spacing as int),
        !spec_dist_exceeds(p2, p1, m.primitive_spawn_spacing as int),
        spec_dist_exceeds(p3, p1, m.primitive_spawn_spacing as int),
    ensures
        ({
            let (m1, placed1) = spec_on_mouse_move(m, library, r1, None);
            let (m2, placed2) = spec_on_mouse_move(m1, library, r2, None);
            let (m3, placed3) = spec_on_mouse_move(m2, library, r3, None);
            &&& placed1 is Some
            &&& placed2 is None
            &&& placed3 is Some
        }),
{
    let (m1, placed1) = spec_on_mouse_move(m, library, r1, None);
    assert(m1.primitive_last_spawn_pos == p1);
    assert(m1.mouse_button1_pressed && m1.primitive_placement_mode
        == EditorPlacementMode::Instanced);
    let (m2, placed2) = spec_on_mouse_move(m1, library, r2, None);
    assert(m2.primitive_last_spawn_pos == p1);
    let (m3, placed3) = spec_on_mouse_move(m2, library, r3, None);
    assert(placed3 is Some);
}

} // verus!
