//! The level document: the append-only placement log and its operations.
//!
//! A level mirrors every successfully placed primitive in an ordered list of
//! records; that list is exactly what is persisted and exactly what is
//! replayed to rebuild a scene.  A record whose name does not resolve in the
//! primitive library is skipped without failing the level.

use vstd::prelude::*;

use crate::types::Colour;
use crate::types::Extent;
use crate::types::FIXED_LIMIT;
use crate::types::LevelDefinition;
use crate::types::LevelPrimitiveDefinition;
use crate::types::LevelModel;
use crate::types::LevelPrimitiveModel;
use crate::types::Vec3;
use crate::types::level_ok;
use crate::types::name_ok;
use crate::library::PrimitiveLibrary;
use vstd::string::StringExecFns;

verus! {

/// Default ground footprint: 100 by 100 units, in micro-units.
pub const DEFAULT_GROUND_EXTENT: i64 = 100_000_000;

/// Default ground colour channel: `0.9` in micro-units (light grey).
pub const DEFAULT_GROUND_CHANNEL: i64 = 900_000;

/// Default background colour channel: `0.1` in micro-units (dark grey).
pub const DEFAULT_BACKGROUND_CHANNEL: i64 = 100_000;

/// The record that placing `name` at `position` with `rotation` appends.
pub open spec fn spec_record(
    name: Seq<char>,
    position: Vec3,
    rotation: Vec3,
    is_static: bool,
) -> LevelPrimitiveModel {
    LevelPrimitiveModel { name, position, rotation, is_static }
}

impl LevelDefinition {
    /// Places a primitive: looks `name` up in the library; on a miss returns
    /// `false` and changes nothing; on a hit appends exactly one record with
    /// the given position, rotation and static flag and returns `true`.
    ///
    /// Each call appends one more independent record; nothing deduplicates.
    pub fn add_primitive(
        &mut self,
        library: &PrimitiveLibrary,
        name: &str,
        position: Vec3,
        rotation: Vec3,
        is_static: bool,
    ) -> (placed: bool)
        requires
            library.wf(),
        ensures
            placed == library.contains_name(name@),
            placed ==> final(self)@.primitives == old(self)@.primitives.push(
                spec_record(name@, position, rotation, is_static),
            ),
            placed ==> final(self)@.name == old(self)@.name
                && final(self)@.ground_dimensions == old(self)@.ground_dimensions
                && final(self)@.ground_colour == old(self)@.ground_colour
                && final(self)@.background_colour == old(self)@.background_colour,
            !placed ==> *final(self) == *old(self),
    {
        let name_string = String::from_str(name);
        match library.get(&name_string) {
            Some(_definition) => {
                let record = LevelPrimitiveDefinition {
                    name: name_string,
                    position,
                    rotation,
                    is_static,
                };
                let ghost old_primitives = self.primitives@;
                self.primitives.push(record);
                proof {
                    assert(self.primitives@.map_values(|p: LevelPrimitiveDefinition| p@)
                        =~= old_primitives.map_values(|p: LevelPrimitiveDefinition| p@).push(
                        spec_record(name@, position, rotation, is_static),
                    ));
                }
                true
            },
            None => false,
        }
    }

    /// The records of this level whose names resolve in the library: the
    /// sub-list, in order, that a scene rebuild materialises.  Records with
    /// unresolvable names are skipped without error.
    pub fn resolvable_primitives(&self, library: &PrimitiveLibrary) -> (r: Vec<
        LevelPrimitiveDefinition,
    >)
        requires
            library.wf(),
        ensures
            r@.map_values(|p: LevelPrimitiveDefinition| p@) == self@.primitives.filter(
                |p: LevelPrimitiveModel| library.contains_name(p.name),
            ),
    {
        let mut out: Vec<LevelPrimitiveDefinition> = Vec::new();
        let n = self.primitives.len();
        let mut i: usize = 0;
        proof {
            reveal(Seq::filter);
            assert(self@.primitives.take(0) =~= Seq::<LevelPrimitiveModel>::empty());
        }
        while i < n
            invariant
                library.wf(),
                n == self.primitives.len(),
                0 <= i <= n,
                self@.primitives.len() == n,
                out@.map_values(|p: LevelPrimitiveDefinition| p@) == self@.primitives.take(
                    i as int,
                ).filter(|p: LevelPrimitiveModel| library.contains_name(p.name)),
            decreases n - i,
        {
            let record = &self.primitives[i];
            let ghost prefix = self@.primitives.take(i as int);
            let ghost prefix_next = self@.primitives.take(i as int + 1);
            proof {
                reveal(Seq::filter);
                assert(prefix_next.drop_last() =~= prefix);
                assert(prefix_next.last() == self@.primitives[i as int]);
            }
            let resolves = match library.get(&record.name) {
                Some(_definition) => true,
                None => false,
            };
            if resolves {
                let copy = LevelPrimitiveDefinition {
                    name: record.name.clone(),
                    position: record.position,
                    rotation: record.rotation,
                    is_static: record.is_static,
                };
                out.push(copy);
            }
            i = i + 1;
        }
        proof {
            assert(self@.primitives.take(n as int) =~= self@.primitives);
        }
        out
    }
}

/// The default level for a name: the documented empty level with a 100 by
/// 100 ground, a light grey ground colour and a dark background.
pub open spec fn spec_default_level(name: Seq<char>) -> LevelModel {
    LevelModel {
        name,
        ground_dimensions: Extent {
            width: DEFAULT_GROUND_EXTENT,
            depth: DEFAULT_GROUND_EXTENT,
        },
        ground_colour: Colour {
            r: DEFAULT_GROUND_CHANNEL,
            g: DEFAULT_GROUND_CHANNEL,
            b: DEFAULT_GROUND_CHANNEL,
        },
        background_colour: Colour {
            r: DEFAULT_BACKGROUND_CHANNEL,
            g: DEFAULT_BACKGROUND_CHANNEL,
            b: DEFAULT_BACKGROUND_CHANNEL,
        },
        primitives: Seq::empty(),
    }
}

/// An empty level with the documented defaults: a 100 by 100 ground, a light
/// grey ground colour, a dark background, and no primitives.
pub fn load_level_empty(name: &str) -> (r: Option<LevelDefinition>)
    ensures
        match r {
            Some(l) => {
                &&& l@ == spec_default_level(name@)
                &&& (name_ok(name@) ==> level_ok(l@))
            },
            None => false,
        },
{
    let level = LevelDefinition {
        name: String::from_str(name),
        ground_dimensions: Extent {
            width: DEFAULT_GROUND_EXTENT,
            depth: DEFAULT_GROUND_EXTENT,
        },
        ground_colour: Colour {
            r: DEFAULT_GROUND_CHANNEL,
            g: DEFAULT_GROUND_CHANNEL,
            b: DEFAULT_GROUND_CHANNEL,
        },
        background_colour: Colour {
            r: DEFAULT_BACKGROUND_CHANNEL,
            g: DEFAULT_BACKGROUND_CHANNEL,
            b: DEFAULT_BACKGROUND_CHANNEL,
        },
        primitives: Vec::new(),
    };
    proof {
        assert(level@.primitives =~= Seq::<LevelPrimitiveModel>::empty());
    }
    Some(level)
}

/// Loads a level from the bytes of its file, falling back to the
/// documented empty default level of that name when no file was found or
/// its content does not parse.  Loading never fails.
pub fn load_level_or_default(name: &str, bytes: Option<&Vec<u8>>) -> (l: LevelDefinition)
    ensures
        l@ == match bytes {
            Some(b) => match crate::codec::spec_parse_level_doc(b@) {
                Some(model) => model,
                None => spec_default_level(name@),
            },
            None => spec_default_level(name@),
        },
        name_ok(name@) ==> level_ok(l@),
{
    match bytes {
        Some(b) => match crate::codec::load_level_definition(b) {
            Some(level) => level,
            None => load_level_empty(name).unwrap(),
        },
        None => load_level_empty(name).unwrap(),
    }
}

} // verus!
