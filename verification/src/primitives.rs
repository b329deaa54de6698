//! The primitive-definition file format: the same JSON-shaped ASCII text
//! as the level format, one primitive per file, read at startup into the
//! primitive library.
//!
//! This format is read-only here: definition files are written by hand or
//! by separate tooling, so only a parser is provided, with an exact
//! statement of what it accepts.

use vstd::prelude::*;

use crate::types::ColliderDefinition;
use crate::types::ColliderType;
use crate::types::PrimitiveDefinition;
use crate::types::PrimitiveModel;
use crate::types::Vec3;
use crate::types::name_ok;
use crate::codec::fixed_in_range;
use crate::codec::lit_bytes;
use crate::codec::spec_parse_fixed;
use crate::codec::spec_parse_lit;
use crate::codec::spec_parse_string;
use crate::codec::spec_parse_vec3;
use crate::codec::parse_fixed;
use crate::codec::parse_lit;
use crate::codec::parse_string;
use crate::codec::parse_vec3;

verus! {

/// Parsing a collider shape kind: the quoted word `Cuboid` or `Ball`.
pub open spec fn spec_parse_collider_type(s: Seq<u8>, i: int) -> Option<(ColliderType, int)> {
    match spec_parse_lit(s, i, lit_bytes("\"Cuboid\"")) {
        Some(j) => Some((ColliderType::Cuboid, j)),
        None => match spec_parse_lit(s, i, lit_bytes("\"Ball\"")) {
            Some(j) => Some((ColliderType::Ball, j)),
            None => None,
        },
    }
}

/// Parsing one collider definition.
pub open spec fn spec_parse_collider(s: Seq<u8>, i: int) -> Option<(ColliderDefinition, int)> {
    match spec_parse_lit(s, i, lit_bytes("{\"collider_type\":")) {
        None => None,
        Some(j1) => match spec_parse_collider_type(s, j1) {
            None => None,
            Some((collider_type, j2)) => match spec_parse_lit(s, j2, lit_bytes(",\"origin\":[")) {
                None => None,
                Some(j3) => match spec_parse_vec3(s, j3) {
                    None => None,
                    Some((origin, j4)) => match spec_parse_lit(
                        s,
                        j4,
                        lit_bytes("],\"dimensions\":["),
                    ) {
                        None => None,
                        Some(j5) => match spec_parse_vec3(s, j5) {
                            None => None,
                            Some((dimensions, j6)) => match spec_parse_lit(
                                s,
                                j6,
                                lit_bytes("]}"),
                            ) {
                                None => None,
                                Some(j7) => Some(
                                    (ColliderDefinition { collider_type, origin, dimensions }, j7),
                                ),
                            },
                        },
                    },
                },
            },
        },
    }
}

/// Parsing a non-empty comma-separated collider list; stops before a byte
/// that is not a comma.
pub open spec fn spec_parse_colliders(s: Seq<u8>, i: int) -> Option<(Seq<ColliderDefinition>, int)>
    decreases s.len() - i,
    when 0 <= i <= s.len()
{
    match spec_parse_collider(s, i) {
        None => None,
        Some((c, j)) => if !(i < j <= s.len()) {
            None
        } else {
            if j < s.len() && s[j] == 44 {
                match spec_parse_colliders(s, j + 1) {
                    None => None,
                    Some((rest, e)) => Some((seq![c] + rest, e)),
                }
            } else {
                Some((seq![c], j))
            }
        },
    }
}

/// Parsing a possibly empty collider list: empty exactly when the next
/// byte is the closing bracket.
pub open spec fn spec_parse_colliders_or_empty(s: Seq<u8>, i: int) -> Option<
    (Seq<ColliderDefinition>, int),
> {
    if 0 <= i && i < s.len() && s[i] == 93 {
        Some((Seq::empty(), i))
    } else {
        spec_parse_colliders(s, i)
    }
}

/// Parsing a whole primitive definition from position `i`.
pub open spec fn spec_parse_primitive(s: Seq<u8>, i: int) -> Option<(PrimitiveModel, int)> {
    match spec_parse_lit(s, i, lit_bytes("{\"name\":")) {
        None => None,
        Some(j1) => match spec_parse_string(s, j1) {
            None => None,
            Some((name, j2)) => match spec_parse_lit(s, j2, lit_bytes(",\"path_obj\":")) {
                None => None,
                Some(j3) => match spec_parse_string(s, j3) {
                    None => None,
                    Some((path_obj, j4)) => match spec_parse_lit(
                        s,
                        j4,
                        lit_bytes(",\"path_mtl\":"),
                    ) {
                        None => None,
                        Some(j5) => match spec_parse_string(s, j5) {
                            None => None,
                            Some((path_mtl, j6)) => match spec_parse_lit(
                                s,
                                j6,
                                lit_bytes(",\"scale\":["),
                            ) {
                                None => None,
                                Some(j7) => match spec_parse_vec3(s, j7) {
                                    None => None,
                                    Some((scale, j8)) => match spec_parse_lit(
                                        s,
                                        j8,
                                        lit_bytes("],\"density\":"),
                                    ) {
                                        None => None,
                                        Some(j9) => match spec_parse_fixed(s, j9) {
                                            None => None,
                                            Some((density, j10)) => spec_parse_primitive_tail(
                                                s,
                                                j10,
                                                name,
                                                path_obj,
                                                path_mtl,
                                                scale,
                                                density,
                                            ),
                                        },
                                    },
                                },
                            },
                        },
                    },
                },
            },
        },
    }
}

/// Parsing the material and collider fields that close a primitive
/// definition.
pub open spec fn spec_parse_primitive_tail(
    s: Seq<u8>,
    i: int,
    name: Seq<char>,
    path_obj: Seq<char>,
    path_mtl: Seq<char>,
    scale: Vec3,
    density: int,
) -> Option<(PrimitiveModel, int)> {
    match spec_parse_lit(s, i, lit_bytes(",\"restitution\":")) {
        None => None,
        Some(j1) => match spec_parse_fixed(s, j1) {
            None => None,
            Some((restitution, j2)) => match spec_parse_lit(
                s,
                j2,
                lit_bytes(",\"friction\":"),
            ) {
                None => None,
                Some(j3) => match spec_parse_fixed(s, j3) {
                    None => None,
                    Some((friction, j4)) => match spec_parse_lit(
                        s,
                        j4,
                        lit_bytes(",\"collider_def\":["),
                    ) {
                        None => None,
                        Some(j5) => match spec_parse_colliders_or_empty(s, j5) {
                            None => None,
                            Some((colliders, j6)) => match spec_parse_lit(
                                s,
                                j6,
                                lit_bytes("]}"),
                            ) {
                                None => None,
                                Some(j7) => if fixed_in_range(density) && fixed_in_range(
                                    restitution,
                                ) && fixed_in_range(friction) {
                                    Some(
                                        (
                                            PrimitiveModel {
                                                name,
                                                path_obj,
                                                path_mtl,
                                                scale,
                                                density: density as i64,
                                                restitution: restitution as i64,
                                                friction: friction as i64,
                                                collider_def: colliders,
                                            },
                                            j7,
                                        ),
                                    )
                                } else {
                                    None
                                },
                            },
                        },
                    },
                },
            },
        },
    }
}

/// Parsing a whole primitive-definition file: the document must cover
/// every byte.
pub open spec fn spec_parse_primitive_doc(s: Seq<u8>) -> Option<PrimitiveModel> {
    match spec_parse_primitive(s, 0) {
        None => None,
        Some((p, j)) => if j == s.len() {
            Some(p)
        } else {
            None
        },
    }
}

/// Reads a collider shape kind, exactly as [`spec_parse_collider_type`]
/// states.
fn parse_collider_type(s: &Vec<u8>, pos: usize) -> (r: Option<(ColliderType, usize)>)
    requires
        pos <= s@.len(),
    ensures
        match r {
            Some((t, p)) => {
                &&& spec_parse_collider_type(s@, pos as int) == Some((t, p as int))
                &&& pos < p <= s@.len()
            },
            None => spec_parse_collider_type(s@, pos as int) is None,
        },
{
    match parse_lit(s, pos, "\"Cuboid\"") {
        Some(p) => {
            proof {
                reveal_strlit("\"Cuboid\"");
            }
            Some((ColliderType::Cuboid, p))
        },
        None => match parse_lit(s, pos, "\"Ball\"") {
            Some(p) => {
                proof {
                    reveal_strlit("\"Ball\"");
                }
                Some((ColliderType::Ball, p))
            },
            None => None,
        },
    }
}

/// Reads one collider definition, exactly as [`spec_parse_collider`]
/// states.
#[verifier::rlimit(100)]
fn parse_collider(s: &Vec<u8>, pos: usize) -> (r: Option<(ColliderDefinition, usize)>)
    requires
        pos <= s@.len(),
    ensures
        match r {
            Some((c, p)) => {
                &&& spec_parse_collider(s@, pos as int) == Some((c, p as int))
                &&& pos < p <= s@.len()
            },
            None => spec_parse_collider(s@, pos as int) is None,
        },
{
    let j1 = match parse_lit(s, pos, "{\"collider_type\":") {
        Some(p) => p,
        None => {
            return None;
        },
    };
    let (collider_type, j2) = match parse_collider_type(s, j1) {
        Some(t) => t,
        None => {
            return None;
        },
    };
    let j3 = match parse_lit(s, j2, ",\"origin\":[") {
        Some(p) => p,
        None => {
            return None;
        },
    };
    let (origin, j4) = match parse_vec3(s, j3) {
        Some(t) => t,
        None => {
            return None;
        },
    };
    let j5 = match parse_lit(s, j4, "],\"dimensions\":[") {
        Some(p) => p,
        None => {
            return None;
        },
    };
    let (dimensions, j6) = match parse_vec3(s, j5) {
        Some(t) => t,
        None => {
            return None;
        },
    };
    let j7 = match parse_lit(s, j6, "]}") {
        Some(p) => p,
        None => {
            return None;
        },
    };
    Some((ColliderDefinition { collider_type, origin, dimensions }, j7))
}

/// Reads a non-empty comma-separated collider list, exactly as
/// [`spec_parse_colliders`] states.
#[verifier::rlimit(100)]
fn parse_colliders(s: &Vec<u8>, pos: usize) -> (r: Option<(Vec<ColliderDefinition>, usize)>)
    requires
        pos <= s@.len(),
    ensures
        match r {
            Some((v, p)) => {
                &&& spec_parse_colliders(s@, pos as int) == Some((v@, p as int))
                &&& pos < p <= s@.len()
            },
            None => spec_parse_colliders(s@, pos as int) is None,
        },
    decreases s@.len() - pos,
{
    let (c, j) = match parse_collider(s, pos) {
        Some(t) => t,
        None => {
            return None;
        },
    };
    if j < s.len() && s[j] == 44 {
        match parse_colliders(s, j + 1) {
            None => None,
            Some((mut v, e)) => {
                let ghost rest = v@;
                v.insert(0, c);
                proof {
                    assert(v@ =~= seq![c] + rest);
                }
                Some((v, e))
            },
        }
    } else {
        let mut v: Vec<ColliderDefinition> = Vec::new();
        v.push(c);
        proof {
            assert(v@ =~= seq![c]);
        }
        Some((v, j))
    }
}

/// Reads a whole primitive-definition file, exactly as
/// [`spec_parse_primitive_doc`] states: `None` on any malformed or
/// incomplete document; the names read back are always well formed.
#[verifier::rlimit(100)]
pub fn parse_primitive_definition(bytes: &Vec<u8>) -> (r: Option<PrimitiveDefinition>)
    ensures
        match r {
            Some(p) => {
                &&& spec_parse_primitive_doc(bytes@) == Some(p@)
                &&& name_ok(p@.name)
                &&& name_ok(p@.path_obj)
                &&& name_ok(p@.path_mtl)
            },
            None => spec_parse_primitive_doc(bytes@) is None,
        },
{
    let s = bytes;
    let j1 = match parse_lit(s, 0, "{\"name\":") {
        Some(p) => p,
        None => {
            return None;
        },
    };
    let (name, j2) = match parse_string(s, j1) {
        Some(t) => t,
        None => {
            return None;
        },
    };
    let j3 = match parse_lit(s, j2, ",\"path_obj\":") {
        Some(p) => p,
        None => {
            return None;
        },
    };
    let (path_obj, j4) = match parse_string(s, j3) {
        Some(t) => t,
        None => {
            return None;
        },
    };
    let j5 = match parse_lit(s, j4, ",\"path_mtl\":") {
        Some(p) => p,
        None => {
            return None;
        },
    };
    let (path_mtl, j6) = match parse_string(s, j5) {
        Some(t) => t,
        None => {
            return None;
        },
    };
    let j7 = match parse_lit(s, j6, ",\"scale\":[") {
        Some(p) => p,
        None => {
            return None;
        },
    };
    let (scale, j8) = match parse_vec3(s, j7) {
        Some(t) => t,
        None => {
            return None;
        },
    };
    let j9 = match parse_lit(s, j8, "],\"density\":") {
        Some(p) => p,
        None => {
            return None;
        },
    };
    let (density, j10) = match parse_fixed(s, j9) {
        Some(t) => t,
        None => {
            return None;
        },
    };
    let j11 = match parse_lit(s, j10, ",\"restitution\":") {
        Some(p) => p,
        None => {
            return None;
        },
    };
    let (restitution, j12) = match parse_fixed(s, j11) {
        Some(t) => t,
        None => {
            return None;
        },
    };
    let j13 = match parse_lit(s, j12, ",\"friction\":") {
        Some(p) => p,
        None => {
            return None;
        },
    };
    let (friction, j14) = match parse_fixed(s, j13) {
        Some(t) => t,
        None => {
            return None;
        },
    };
    let j15 = match parse_lit(s, j14, ",\"collider_def\":[") {
        Some(p) => p,
        None => {
            return None;
        },
    };
    let (colliders, j16) = if j15 < s.len() && s[j15] == 93 {
        (Vec::new(), j15)
    } else {
        match parse_colliders(s, j15) {
            Some(t) => t,
            None => {
                return None;
            },
        }
    };
    let j17 = match parse_lit(s, j16, "]}") {
        Some(p) => p,
        None => {
            return None;
        },
    };
    if j17 != s.len() {
        return None;
    }
    let prim = PrimitiveDefinition {
        name,
        path_obj,
        path_mtl,
        scale,
        density,
        restitution,
        friction,
        collider_def: colliders,
    };
    proof {
        if j15 < s@.len() && s@[j15 as int] == 93 {
            assert(prim@.collider_def =~= Seq::<ColliderDefinition>::empty());
        }
    }
    Some(prim)
}

} // verus!
