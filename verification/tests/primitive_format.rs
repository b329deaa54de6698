//! Tests of the primitive-definition file format.

use goldberg::library::PrimitiveLibrary;
use goldberg::primitives::parse_primitive_definition;
use goldberg::types::ColliderType;
use goldberg::types::Vec3;

fn domino_text() -> String {
    String::from("{\"name\":\"domino\",\"path_obj\":\"models/primitives/domino.obj\",\"path_mtl\":\"models/primitives\",\"scale\":[1.000000,2.000000,0.500000],\"density\":1000.000000,\"restitution\":0.000000,\"friction\":0.200000,\"collider_def\":[{\"collider_type\":\"Cuboid\",\"origin\":[0.000000,1.000000,0.000000],\"dimensions\":[0.100000,0.500000,0.200000]}]}")
}

#[test]
fn parse_reads_full_definition() {
    let prim = parse_primitive_definition(&domino_text().into_bytes()).unwrap();
    assert_eq!(prim.name, "domino");
    assert_eq!(prim.path_obj, "models/primitives/domino.obj");
    assert_eq!(prim.path_mtl, "models/primitives");
    assert_eq!(prim.scale, Vec3 { x: 1_000_000, y: 2_000_000, z: 500_000 });
    assert_eq!(prim.density, 1_000_000_000);
    assert_eq!(prim.restitution, 0);
    assert_eq!(prim.friction, 200_000);
    assert_eq!(prim.collider_def.len(), 1);
    assert!(matches!(prim.collider_def[0].collider_type, ColliderType::Cuboid));
    assert_eq!(prim.collider_def[0].origin, Vec3 { x: 0, y: 1_000_000, z: 0 });
    assert_eq!(
        prim.collider_def[0].dimensions,
        Vec3 { x: 100_000, y: 500_000, z: 200_000 }
    );
}

#[test]
fn parse_reads_two_colliders_in_order() {
    let text = "{\"name\":\"bridge\",\"path_obj\":\"models/bridge.obj\",\"path_mtl\":\"models\",\"scale\":[1.000000,1.000000,1.000000],\"density\":1.000000,\"restitution\":0.100000,\"friction\":0.500000,\"collider_def\":[{\"collider_type\":\"Cuboid\",\"origin\":[-1.000000,0.000000,0.000000],\"dimensions\":[0.500000,0.500000,0.500000]},{\"collider_type\":\"Ball\",\"origin\":[1.000000,0.000000,0.000000],\"dimensions\":[0.250000,0.000000,0.000000]}]}";
    let prim = parse_primitive_definition(&text.as_bytes().to_vec()).unwrap();
    assert_eq!(prim.collider_def.len(), 2);
    assert!(matches!(prim.collider_def[0].collider_type, ColliderType::Cuboid));
    assert!(matches!(prim.collider_def[1].collider_type, ColliderType::Ball));
    assert_eq!(prim.collider_def[1].origin, Vec3 { x: 1_000_000, y: 0, z: 0 });
}

#[test]
fn parse_accepts_empty_collider_list() {
    let text = "{\"name\":\"marker\",\"path_obj\":\"models/marker.obj\",\"path_mtl\":\"models\",\"scale\":[1.000000,1.000000,1.000000],\"density\":1.000000,\"restitution\":0.000000,\"friction\":0.000000,\"collider_def\":[]}";
    let prim = parse_primitive_definition(&text.as_bytes().to_vec()).unwrap();
    assert_eq!(prim.collider_def.len(), 0);
}

#[test]
fn parse_rejects_malformed_definitions() {
    assert!(parse_primitive_definition(&Vec::new()).is_none());
    assert!(parse_primitive_definition(&b"{\"name\":\"x\"}".to_vec()).is_none());
    let mut truncated = domino_text().into_bytes();
    truncated.pop();
    assert!(parse_primitive_definition(&truncated).is_none());
    let unknown_shape = domino_text().replace("Cuboid", "Wedge");
    assert!(parse_primitive_definition(&unknown_shape.into_bytes()).is_none());
}

#[test]
fn parsed_definitions_fill_the_library() {
    let mut library = PrimitiveLibrary::new();
    let prim = parse_primitive_definition(&domino_text().into_bytes()).unwrap();
    library.insert(prim);
    assert_eq!(library.len(), 1);
    assert!(library.get(&String::from("domino")).is_some());
}
