//! Tests of the level document, its file format, and the save/load round
//! trip.

use goldberg::codec::load_level_definition;
use goldberg::codec::save_level_definition;
use goldberg::interactions::EditorModeInteraction;
use goldberg::interactions::GroundRect;
use goldberg::interactions::Key;
use goldberg::interactions::SPACING_MAX;
use goldberg::level::load_level_empty;
use goldberg::level::load_level_or_default;
use goldberg::level::DEFAULT_BACKGROUND_CHANNEL;
use goldberg::level::DEFAULT_GROUND_CHANNEL;
use goldberg::level::DEFAULT_GROUND_EXTENT;
use goldberg::library::PrimitiveLibrary;
use goldberg::types::Colour;
use goldberg::types::Extent;
use goldberg::types::LevelDefinition;
use goldberg::types::LevelPrimitiveDefinition;
use goldberg::types::PrimitiveDefinition;
use goldberg::types::Vec3;

fn record(name: &str, x: i64, yaw: i64, is_static: bool) -> LevelPrimitiveDefinition {
    LevelPrimitiveDefinition {
        name: String::from(name),
        position: Vec3 { x, y: 500_000, z: -1_250_000 },
        rotation: Vec3 { x: 0, y: yaw, z: 0 },
        is_static,
    }
}

fn sample_level() -> LevelDefinition {
    let mut level = load_level_empty("sample").unwrap();
    level.primitives.push(record("domino", 1_500_000, 261_799, false));
    level.primitives.push(record("cubey", -7_000_000, 0, true));
    level
}

fn primitive(name: &str) -> PrimitiveDefinition {
    PrimitiveDefinition {
        name: String::from(name),
        path_obj: String::from("models/mesh.obj"),
        path_mtl: String::from("models"),
        scale: Vec3 { x: 1_000_000, y: 1_000_000, z: 1_000_000 },
        density: 1_000_000_000,
        restitution: 0,
        friction: 200_000,
        collider_def: vec![],
    }
}

#[test]
fn empty_level_has_documented_defaults() {
    let level = load_level_empty("foo").unwrap();
    assert_eq!(level.name, "foo");
    assert_eq!(
        level.ground_dimensions,
        Extent { width: DEFAULT_GROUND_EXTENT, depth: DEFAULT_GROUND_EXTENT }
    );
    assert_eq!(level.ground_dimensions.width, 100_000_000);
    assert_eq!(
        level.ground_colour,
        Colour {
            r: DEFAULT_GROUND_CHANNEL,
            g: DEFAULT_GROUND_CHANNEL,
            b: DEFAULT_GROUND_CHANNEL,
        }
    );
    assert_eq!(
        level.background_colour,
        Colour {
            r: DEFAULT_BACKGROUND_CHANNEL,
            g: DEFAULT_BACKGROUND_CHANNEL,
            b: DEFAULT_BACKGROUND_CHANNEL,
        }
    );
    assert_eq!(level.primitives.len(), 0);
}

#[test]
fn save_writes_exact_bytes_for_empty_level() {
    let bytes = save_level_definition(&load_level_empty("foo").unwrap());
    let expected = "{\"name\":\"foo\",\"ground_dimensions\":[100.000000,100.000000],\"ground_colour\":[0.900000,0.900000,0.900000],\"background_colour\":[0.100000,0.100000,0.100000],\"primitives\":[]}";
    assert_eq!(bytes, expected.as_bytes());
}

#[test]
fn save_writes_exact_bytes_for_one_record() {
    let mut level = load_level_empty("foo").unwrap();
    level.primitives.push(record("domino", -1_500_000, 261_799, true));
    let bytes = save_level_definition(&level);
    let expected = "{\"name\":\"foo\",\"ground_dimensions\":[100.000000,100.000000],\"ground_colour\":[0.900000,0.900000,0.900000],\"background_colour\":[0.100000,0.100000,0.100000],\"primitives\":[{\"name\":\"domino\",\"position\":[-1.500000,0.500000,-1.250000],\"rotation\":[0.000000,0.261799,0.000000],\"is_static\":true}]}";
    assert_eq!(bytes, expected.as_bytes());
}

#[test]
fn round_trip_preserves_every_record() {
    let level = sample_level();
    let bytes = save_level_definition(&level);
    let reloaded = load_level_definition(&bytes).unwrap();
    assert_eq!(reloaded, level);
    assert_eq!(reloaded.primitives.len(), 2);
    assert_eq!(reloaded.primitives[0].name, "domino");
    assert_eq!(reloaded.primitives[1].name, "cubey");
    assert_eq!(reloaded.primitives[0].rotation.y, 261_799);
    assert!(reloaded.primitives[1].is_static);
}

#[test]
fn round_trip_preserves_the_empty_level() {
    let level = load_level_empty("tiny").unwrap();
    let bytes = save_level_definition(&level);
    assert_eq!(load_level_definition(&bytes).unwrap(), level);
}

#[test]
fn parse_reads_handwritten_level() {
    let text = "{\"name\":\"hand\",\"ground_dimensions\":[50.000000,25.500000],\"ground_colour\":[1.000000,0.000000,0.250000],\"background_colour\":[0.000000,0.000000,0.000000],\"primitives\":[{\"name\":\"plank\",\"position\":[0.000000,2.000000,0.000000],\"rotation\":[0.000000,0.000000,0.000000],\"is_static\":false}]}";
    let level = load_level_definition(&text.as_bytes().to_vec()).unwrap();
    assert_eq!(level.name, "hand");
    assert_eq!(level.ground_dimensions, Extent { width: 50_000_000, depth: 25_500_000 });
    assert_eq!(level.ground_colour, Colour { r: 1_000_000, g: 0, b: 250_000 });
    assert_eq!(level.primitives.len(), 1);
    assert_eq!(level.primitives[0].position, Vec3 { x: 0, y: 2_000_000, z: 0 });
    assert!(!level.primitives[0].is_static);
}

#[test]
fn parse_rejects_malformed_documents() {
    assert!(load_level_definition(&Vec::new()).is_none());
    assert!(load_level_definition(&b"{}".to_vec()).is_none());
    assert!(load_level_definition(&b"{\"name\":\"x\"".to_vec()).is_none());
    let good = save_level_definition(&load_level_empty("x").unwrap());
    let mut truncated = good.clone();
    truncated.pop();
    assert!(load_level_definition(&truncated).is_none());
    let mut trailing = good.clone();
    trailing.push(b' ');
    assert!(load_level_definition(&trailing).is_none());
}

#[test]
fn parse_rejects_numbers_without_fraction_digits() {
    let text = "{\"name\":\"x\",\"ground_dimensions\":[1,1],\"ground_colour\":[0.000000,0.000000,0.000000],\"background_colour\":[0.000000,0.000000,0.000000],\"primitives\":[]}";
    assert!(load_level_definition(&text.as_bytes().to_vec()).is_none());
}

#[test]
fn round_trip_preserves_an_empty_name() {
    let level = load_level_empty("").unwrap();
    let bytes = save_level_definition(&level);
    let reloaded = load_level_definition(&bytes).unwrap();
    assert_eq!(reloaded.name, "");
    assert_eq!(reloaded, level);
}

#[test]
fn spacing_growth_saturates_at_its_ceiling() {
    let library = PrimitiveLibrary::new();
    let ground = GroundRect { half_width: 1_000_000, half_depth: 1_000_000, top: 0 };
    let mut controller = EditorModeInteraction::new(ground, "domino");
    for _ in 0..400 {
        controller.on_key_down(&library, Key::R, false);
    }
    assert_eq!(controller.primitive_spawn_spacing, SPACING_MAX);
}

#[test]
fn parse_rejects_backslash_in_name() {
    let text = "{\"name\":\"a\\b\",\"ground_dimensions\":[1.000000,1.000000],\"ground_colour\":[0.000000,0.000000,0.000000],\"background_colour\":[0.000000,0.000000,0.000000],\"primitives\":[]}";
    assert!(load_level_definition(&text.as_bytes().to_vec()).is_none());
}

#[test]
fn load_with_missing_file_yields_named_default(
) {
    let level = load_level_or_default("foo", None);
    assert_eq!(level, load_level_empty("foo").unwrap());
    assert_eq!(level.name, "foo");
    assert_eq!(level.primitives.len(), 0);
}

#[test]
fn load_with_malformed_file_yields_named_default() {
    let junk = b"not a level".to_vec();
    let level = load_level_or_default("foo", Some(&junk));
    assert_eq!(level, load_level_empty("foo").unwrap());
}

#[test]
fn load_with_good_file_yields_saved_level() {
    let saved = sample_level();
    let bytes = save_level_definition(&saved);
    let level = load_level_or_default("ignored", Some(&bytes));
    assert_eq!(level, saved);
}

#[test]
fn add_primitive_appends_exact_record() {
    let mut library = PrimitiveLibrary::new();
    library.insert(primitive("domino"));
    let mut level = load_level_empty("test").unwrap();
    let placed = level.add_primitive(
        &library,
        "domino",
        Vec3 { x: 1, y: 2, z: 3 },
        Vec3 { x: 0, y: 261_799, z: 0 },
        true,
    );
    assert!(placed);
    assert_eq!(level.primitives.len(), 1);
    assert_eq!(
        level.primitives[0],
        LevelPrimitiveDefinition {
            name: String::from("domino"),
            position: Vec3 { x: 1, y: 2, z: 3 },
            rotation: Vec3 { x: 0, y: 261_799, z: 0 },
            is_static: true,
        }
    );
}

#[test]
fn add_primitive_with_unknown_name_changes_nothing() {
    let mut library = PrimitiveLibrary::new();
    library.insert(primitive("domino"));
    let mut level = load_level_empty("test").unwrap();
    let placed = level.add_primitive(
        &library,
        "ghost",
        Vec3 { x: 1, y: 2, z: 3 },
        Vec3 { x: 0, y: 0, z: 0 },
        false,
    );
    assert!(!placed);
    assert_eq!(level.primitives.len(), 0);
}

#[test]
fn resolvable_primitives_skips_unknown_names_in_order() {
    let mut library = PrimitiveLibrary::new();
    library.insert(primitive("domino"));
    library.insert(primitive("cubey"));
    let mut level = load_level_empty("test").unwrap();
    level.primitives.push(record("domino", 0, 0, false));
    level.primitives.push(record("ghost", 1, 0, false));
    level.primitives.push(record("cubey", 2, 0, true));
    let resolvable = level.resolvable_primitives(&library);
    assert_eq!(resolvable.len(), 2);
    assert_eq!(resolvable[0].name, "domino");
    assert_eq!(resolvable[1].name, "cubey");
}
