//! Tests of the primitive library, the placement controller and the
//! ray/ground intersection.

use goldberg::interactions::EditorModeInteraction;
use goldberg::interactions::EditorPlacementMode;
use goldberg::interactions::GroundRect;
use goldberg::interactions::Key;
use goldberg::interactions::MouseButton;
use goldberg::interactions::PickRay;
use goldberg::interactions::ray_ground_intersection;
use goldberg::interactions::ROTATION_DELTA;
use goldberg::interactions::SPACING_DEFAULT;
use goldberg::interactions::SPAWN_HEIGHT_MIN;
use goldberg::interactions::TWO_PI;
use goldberg::level::load_level_empty;
use goldberg::library::PrimitiveLibrary;
use goldberg::types::PrimitiveDefinition;
use goldberg::types::Vec3;

fn primitive(name: &str) -> PrimitiveDefinition {
    PrimitiveDefinition {
        name: String::from(name),
        path_obj: String::from("models/primitives/mesh.obj"),
        path_mtl: String::from("models/primitives"),
        scale: Vec3 { x: 1_000_000, y: 1_000_000, z: 1_000_000 },
        density: 1_000_000_000,
        restitution: 0,
        friction: 200_000,
        collider_def: vec![],
    }
}

fn ground() -> GroundRect {
    GroundRect { half_width: 100_000_000, half_depth: 100_000_000, top: 200_000 }
}

fn two_primitive_library() -> PrimitiveLibrary {
    let mut library = PrimitiveLibrary::new();
    library.insert(primitive("domino"));
    library.insert(primitive("cubey"));
    library
}

fn ray_down(x: i64, z: i64) -> PickRay {
    PickRay {
        origin: Vec3 { x, y: 10_000_000, z },
        dir: Vec3 { x: 0, y: -1_000_000, z: 0 },
    }
}

#[test]
fn cycle_two_names_wraps() {
    let library = two_primitive_library();
    let first = library.next_name_after(&String::from("domino"));
    assert_eq!(first, "cubey");
    let second = library.next_name_after(&first);
    assert_eq!(second, "domino");
}

#[test]
fn cycle_full_library_returns_to_start() {
    let mut library = PrimitiveLibrary::new();
    library.insert(primitive("domino"));
    library.insert(primitive("cubey"));
    library.insert(primitive("plank"));
    let mut selected = String::from("cubey");
    for _ in 0..3 {
        selected = library.next_name_after(&selected);
    }
    assert_eq!(selected, "cubey");
}

#[test]
fn cycle_unknown_name_is_unchanged() {
    let library = two_primitive_library();
    let same = library.next_name_after(&String::from("ghost"));
    assert_eq!(same, "ghost");
}

#[test]
fn insert_replaces_entry_of_same_name() {
    let mut library = two_primitive_library();
    let mut changed = primitive("domino");
    changed.friction = 500_000;
    library.insert(changed);
    assert_eq!(library.len(), 2);
    let looked_up = library.get(&String::from("domino")).unwrap();
    assert_eq!(looked_up.friction, 500_000);
}

#[test]
fn ray_parallel_to_ground_misses() {
    let ray = PickRay {
        origin: Vec3 { x: 0, y: 10_000_000, z: 0 },
        dir: Vec3 { x: 1_000_000, y: 0, z: 0 },
    };
    assert_eq!(ray_ground_intersection(&ground(), &ray), None);
}

#[test]
fn ray_pointing_away_from_ground_misses() {
    let ray = PickRay {
        origin: Vec3 { x: 0, y: 10_000_000, z: 0 },
        dir: Vec3 { x: 0, y: 1_000_000, z: 0 },
    };
    assert_eq!(ray_ground_intersection(&ground(), &ray), None);
}

#[test]
fn ray_squarely_down_hits_expected_point() {
    let hit = ray_ground_intersection(&ground(), &ray_down(5_000_000, 3_000_000));
    assert_eq!(hit, Some(Vec3 { x: 5_000_000, y: 200_000, z: 3_000_000 }));
}

#[test]
fn ray_outside_ground_rectangle_misses() {
    let hit = ray_ground_intersection(&ground(), &ray_down(150_000_000, 0));
    assert_eq!(hit, None);
}

#[test]
fn slanted_ray_scales_direction_exactly() {
    let ray = PickRay {
        origin: Vec3 { x: 1_000_000, y: 10_200_000, z: 0 },
        dir: Vec3 { x: 500_000, y: -1_000_000, z: -250_000 },
    };
    // Time of intersection is 10, so the hit is origin + 10 * direction.
    let hit = ray_ground_intersection(&ground(), &ray);
    assert_eq!(hit, Some(Vec3 { x: 6_000_000, y: 200_000, z: -2_500_000 }));
}

#[test]
fn new_controller_has_documented_defaults() {
    let controller = EditorModeInteraction::new(ground(), "domino");
    assert_eq!(controller.primitive_name, "domino");
    assert_eq!(controller.cursor_ray, None);
    assert_eq!(controller.primitive_rotation, Vec3 { x: 0, y: 0, z: 0 });
    assert_eq!(controller.primitive_rotation_delta, ROTATION_DELTA);
    assert_eq!(controller.primitive_spawn_height, SPAWN_HEIGHT_MIN);
    assert_eq!(controller.primitive_spawn_spacing, SPACING_DEFAULT);
    assert!(!controller.primitive_auto_rotate);
    assert!(matches!(
        controller.primitive_placement_mode,
        EditorPlacementMode::Singular
    ));
    assert!(!controller.primitive_placement_static);
    assert!(!controller.mouse_button1_pressed);
    assert!(controller.is_well_formed());
}

#[test]
fn selection_key_advances_primitive() {
    let library = two_primitive_library();
    let mut controller = EditorModeInteraction::new(ground(), "domino");
    let save = controller.on_key_down(&library, Key::Tab, false);
    assert!(!save);
    assert_eq!(controller.primitive_name, "cubey");
}

#[test]
fn height_keys_step_and_clamp() {
    let library = two_primitive_library();
    let mut controller = EditorModeInteraction::new(ground(), "domino");
    controller.on_key_down(&library, Key::Q, false);
    assert_eq!(controller.primitive_spawn_height, SPAWN_HEIGHT_MIN);
    controller.on_key_down(&library, Key::E, false);
    assert_eq!(controller.primitive_spawn_height, SPAWN_HEIGHT_MIN + 500_000);
    controller.on_key_down(&library, Key::Q, false);
    assert_eq!(controller.primitive_spawn_height, SPAWN_HEIGHT_MIN);
}

#[test]
fn rotation_keys_step_and_wrap() {
    let library = two_primitive_library();
    let mut controller = EditorModeInteraction::new(ground(), "domino");
    controller.on_key_down(&library, Key::A, false);
    assert_eq!(controller.primitive_rotation.y, ROTATION_DELTA);
    controller.on_key_down(&library, Key::D, false);
    controller.on_key_down(&library, Key::D, false);
    assert_eq!(controller.primitive_rotation.y, TWO_PI - ROTATION_DELTA);
}

#[test]
fn spacing_keys_grow_and_shrink_by_a_tenth() {
    let library = two_primitive_library();
    let mut controller = EditorModeInteraction::new(ground(), "domino");
    controller.on_key_down(&library, Key::R, false);
    assert_eq!(controller.primitive_spawn_spacing, 1_320_000);
    let mut other = EditorModeInteraction::new(ground(), "domino");
    other.on_key_down(&library, Key::F, false);
    assert_eq!(other.primitive_spawn_spacing, 1_080_000);
}

#[test]
fn toggle_keys_flip_their_flags() {
    let library = two_primitive_library();
    let mut controller = EditorModeInteraction::new(ground(), "domino");
    controller.on_key_down(&library, Key::C, false);
    assert!(controller.primitive_auto_rotate);
    controller.on_key_down(&library, Key::Z, false);
    assert!(controller.primitive_placement_static);
    controller.on_key_down(&library, Key::X, false);
    assert!(matches!(
        controller.primitive_placement_mode,
        EditorPlacementMode::Instanced
    ));
    controller.on_key_down(&library, Key::X, false);
    assert!(matches!(
        controller.primitive_placement_mode,
        EditorPlacementMode::Singular
    ));
}

#[test]
fn save_key_requests_save_only_with_control() {
    let library = two_primitive_library();
    let mut controller = EditorModeInteraction::new(ground(), "domino");
    assert!(!controller.on_key_down(&library, Key::S, false));
    let before_name = controller.primitive_name.clone();
    assert!(controller.on_key_down(&library, Key::S, true));
    assert_eq!(controller.primitive_name, before_name);
}

#[test]
fn singular_click_places_one_exact_record() {
    let library = two_primitive_library();
    let mut level = load_level_empty("test").unwrap();
    let mut controller = EditorModeInteraction::new(ground(), "domino");
    controller.on_key_down(&library, Key::Z, false);
    let moved = controller.on_mouse_move(&mut level, &library, ray_down(2_000_000, 0), None);
    assert!(moved.is_none());
    let placed = controller.on_mouse_down(&mut level, &library, MouseButton::Button1, None);
    let record = placed.unwrap();
    assert_eq!(level.primitives.len(), 1);
    assert_eq!(record.name, "domino");
    assert_eq!(record.position, Vec3 { x: 2_000_000, y: 700_000, z: 0 });
    assert_eq!(record.rotation, Vec3 { x: 0, y: 0, z: 0 });
    assert!(record.is_static);
    assert_eq!(level.primitives[0], record);
    assert!(!controller.mouse_button1_pressed);
}

#[test]
fn unknown_selection_places_nothing() {
    let library = two_primitive_library();
    let mut level = load_level_empty("test").unwrap();
    let mut controller = EditorModeInteraction::new(ground(), "ghost");
    controller.on_mouse_move(&mut level, &library, ray_down(2_000_000, 0), None);
    let placed = controller.on_mouse_down(&mut level, &library, MouseButton::Button1, None);
    assert!(placed.is_none());
    assert_eq!(level.primitives.len(), 0);
}

#[test]
fn click_without_cursor_ray_places_nothing() {
    let library = two_primitive_library();
    let mut level = load_level_empty("test").unwrap();
    let mut controller = EditorModeInteraction::new(ground(), "domino");
    let placed = controller.on_mouse_down(&mut level, &library, MouseButton::Button1, None);
    assert!(placed.is_none());
    assert_eq!(level.primitives.len(), 0);
}

#[test]
fn instanced_drag_throttles_by_spacing() {
    let library = two_primitive_library();
    let mut level = load_level_empty("test").unwrap();
    let mut controller = EditorModeInteraction::new(ground(), "domino");
    controller.on_key_down(&library, Key::X, false);
    controller.on_mouse_down(&mut level, &library, MouseButton::Button1, None);
    assert_eq!(level.primitives.len(), 0);
    // Farther than the 1.2-unit spacing from the last spawn position.
    let first = controller.on_mouse_move(&mut level, &library, ray_down(2_000_000, 0), None);
    assert!(first.is_some());
    assert_eq!(level.primitives.len(), 1);
    // Within the spacing of the last spawn position: nothing new.
    let second = controller.on_mouse_move(&mut level, &library, ray_down(2_500_000, 0), None);
    assert!(second.is_none());
    assert_eq!(level.primitives.len(), 1);
    // Beyond the spacing again: the second record.
    let third = controller.on_mouse_move(&mut level, &library, ray_down(4_000_000, 0), None);
    assert!(third.is_some());
    assert_eq!(level.primitives.len(), 2);
    assert_eq!(level.primitives[1].position, Vec3 { x: 4_000_000, y: 700_000, z: 0 });
}

#[test]
fn instanced_drag_without_button_places_nothing() {
    let library = two_primitive_library();
    let mut level = load_level_empty("test").unwrap();
    let mut controller = EditorModeInteraction::new(ground(), "domino");
    controller.on_key_down(&library, Key::X, false);
    controller.on_mouse_move(&mut level, &library, ray_down(2_000_000, 0), None);
    controller.on_mouse_move(&mut level, &library, ray_down(6_000_000, 0), None);
    assert_eq!(level.primitives.len(), 0);
}

#[test]
fn mouse_up_releases_drag() {
    let library = two_primitive_library();
    let mut level = load_level_empty("test").unwrap();
    let mut controller = EditorModeInteraction::new(ground(), "domino");
    controller.on_key_down(&library, Key::X, false);
    controller.on_mouse_down(&mut level, &library, MouseButton::Button1, None);
    assert!(controller.mouse_button1_pressed);
    controller.on_mouse_up(MouseButton::Button1);
    assert!(!controller.mouse_button1_pressed);
    controller.on_mouse_move(&mut level, &library, ray_down(2_000_000, 0), None);
    assert_eq!(level.primitives.len(), 0);
}

#[test]
fn auto_rotate_target_tracks_cursor_delta() {
    let library = two_primitive_library();
    let mut level = load_level_empty("test").unwrap();
    let mut controller = EditorModeInteraction::new(ground(), "domino");
    assert_eq!(controller.auto_rotate_target(&ray_down(2_000_000, 1_000_000)), None);
    controller.on_key_down(&library, Key::C, false);
    let target = controller.auto_rotate_target(&ray_down(2_000_000, 1_000_000));
    assert_eq!(target, Some((2_000_000, 1_000_000)));
    // A supplied yaw is applied while auto-rotation is on.
    controller.on_mouse_move(&mut level, &library, ray_down(2_000_000, 1_000_000), Some(785_398));
    assert_eq!(controller.primitive_rotation.y, 785_398);
}

#[test]
fn preview_shows_selected_primitive_at_cursor() {
    let library = two_primitive_library();
    let mut level = load_level_empty("test").unwrap();
    let mut controller = EditorModeInteraction::new(ground(), "cubey");
    controller.on_mouse_move(&mut level, &library, ray_down(3_000_000, -1_000_000), None);
    let (definition, position, rotation) = controller.preview(&library).unwrap();
    assert_eq!(definition.name, "cubey");
    assert_eq!(position, Vec3 { x: 3_000_000, y: 700_000, z: -1_000_000 });
    assert_eq!(rotation, Vec3 { x: 0, y: 0, z: 0 });
    let missing = EditorModeInteraction::new(ground(), "ghost");
    assert!(missing.preview(&library).is_none());
}
