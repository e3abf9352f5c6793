use riemap_backend::catalog::{
    GeofabrikFeature, GeofabrikIndex, GeofabrikProperties, GeofabrikUrls, NormalizedCatalog,
    StructuralWarning,
};
use riemap_backend::geometry::{Coordinate, Geometry};
use riemap_backend::models::{AdminLevel, BoundingBox};
use riemap_backend::storage::Storage;

fn storage() -> Storage {
    Storage::new("data").unwrap()
}

fn feature(id: &str, parent: Option<&str>) -> GeofabrikFeature {
    GeofabrikFeature {
        properties: GeofabrikProperties {
            id: id.to_string(),
            name: id.to_uppercase(),
            parent: parent.map(|p| p.to_string()),
            urls: None,
            iso3166_1_alpha2: None,
            iso3166_2: None,
        },
        geometry: None,
    }
}

fn normalize(features: Vec<GeofabrikFeature>) -> NormalizedCatalog {
    storage().convert_geofabrik_to_regions_at(&GeofabrikIndex { features }, 1000)
}

fn ids(out: &NormalizedCatalog) -> Vec<&str> {
    out.regions.iter().map(|r| r.id.as_str()).collect()
}

fn check_laws(out: &NormalizedCatalog) {
    for (k, r) in out.regions.iter().enumerate() {
        assert!(r.bounding_box.min_lat <= r.bounding_box.max_lat);
        assert!(r.bounding_box.min_lon <= r.bounding_box.max_lon);
        let named = out
            .regions
            .iter()
            .enumerate()
            .any(|(q, other)| q != k && other.parent_id.as_deref() == Some(r.id.as_str()));
        assert_eq!(r.has_children, named);
    }
}

#[test]
fn levels_follow_the_depth_below_a_root() {
    let out = normalize(vec![
        feature("e", Some("d")),
        feature("a", None),
        feature("c", Some("b")),
        feature("b", Some("a")),
        feature("d", Some("c")),
        feature("f", Some("e")),
    ]);
    assert_eq!(ids(&out), vec!["e", "a", "c", "b", "d", "f"]);
    let levels: Vec<AdminLevel> = out.regions.iter().map(|r| r.admin_level).collect();
    assert_eq!(
        levels,
        vec![
            AdminLevel::Subregion,
            AdminLevel::Continent,
            AdminLevel::Region,
            AdminLevel::Country,
            AdminLevel::Subregion,
            AdminLevel::Subregion,
        ]
    );
    assert_eq!(out.warnings.len(), 0);
    let flags: Vec<bool> = out.regions.iter().map(|r| r.has_children).collect();
    assert_eq!(flags, vec![true, true, true, true, true, false]);
    for r in &out.regions {
        assert_eq!(r.created_at, 1000);
        assert_eq!(r.updated_at, 1000);
        assert_eq!(r.area_km2, None);
        assert_eq!(r.population, None);
    }
    assert_eq!(out.regions[0].name, "E");
    assert_eq!(out.regions[0].parent_id, Some("d".to_string()));
    assert_eq!(out.regions[1].parent_id, None);
    check_laws(&out);
}

#[test]
fn the_levels_of_features_are_told_by_position() {
    let features = vec![
        feature("x", Some("y")),
        feature("a", None),
        feature("y", Some("x")),
        feature("b", Some("a")),
        feature("lost", Some("nowhere")),
    ];
    let levels = storage().determine_admin_levels_multi_pass(&features);
    assert_eq!(
        levels,
        vec![
            None,
            Some(AdminLevel::Continent),
            None,
            Some(AdminLevel::Country),
            Some(AdminLevel::Continent),
        ]
    );
    assert_eq!(storage().determine_admin_levels_multi_pass(&vec![]), vec![]);
}

#[test]
fn features_in_a_cycle_are_left_out() {
    let out = normalize(vec![
        feature("europe", None),
        feature("X", Some("Y")),
        feature("germany", Some("europe")),
        feature("Y", Some("X")),
        feature("bayern", Some("germany")),
    ]);
    assert_eq!(ids(&out), vec!["europe", "germany", "bayern"]);
    assert_eq!(out.warnings.len(), 2);
    match &out.warnings[0] {
        StructuralWarning::Cycle { id } => assert_eq!(id, "X"),
        _ => panic!("a cycle was expected"),
    }
    match &out.warnings[1] {
        StructuralWarning::Cycle { id } => assert_eq!(id, "Y"),
        _ => panic!("a cycle was expected"),
    }
    assert_eq!(out.regions[0].admin_level, AdminLevel::Continent);
    assert_eq!(out.regions[1].admin_level, AdminLevel::Country);
    assert_eq!(out.regions[2].admin_level, AdminLevel::Region);
    assert!(out.regions[0].has_children);
    assert!(out.regions[1].has_children);
    assert!(!out.regions[2].has_children);
    check_laws(&out);
}

#[test]
fn a_feature_that_is_its_own_parent_is_left_out() {
    let out = normalize(vec![feature("a", Some("a")), feature("b", None)]);
    assert_eq!(ids(&out), vec!["b"]);
    assert_eq!(out.warnings.len(), 1);
    assert!(matches!(&out.warnings[0], StructuralWarning::Cycle { id } if id == "a"));
    assert!(!out.regions[0].has_children);
}

#[test]
fn features_below_a_cycle_are_left_out_with_it() {
    let out = normalize(vec![
        feature("leaf", Some("x")),
        feature("x", Some("y")),
        feature("y", Some("z")),
        feature("z", Some("x")),
        feature("root", None),
    ]);
    assert_eq!(ids(&out), vec!["root"]);
    assert_eq!(out.warnings.len(), 4);
    assert!(!out.regions[0].has_children);
    check_laws(&out);
}

#[test]
fn a_long_chain_is_not_a_cycle() {
    let mut features = vec![feature("n0", None)];
    for i in 1..200 {
        let id = format!("n{}", i);
        let parent = format!("n{}", i - 1);
        features.push(feature(&id, Some(&parent)));
    }
    features.reverse();
    let out = normalize(features);
    assert_eq!(out.regions.len(), 200);
    assert_eq!(out.warnings.len(), 0);
    assert_eq!(out.regions[199].admin_level, AdminLevel::Continent);
    assert_eq!(out.regions[198].admin_level, AdminLevel::Country);
    assert_eq!(out.regions[197].admin_level, AdminLevel::Region);
    assert_eq!(out.regions[196].admin_level, AdminLevel::Subregion);
    assert_eq!(out.regions[0].admin_level, AdminLevel::Subregion);
    check_laws(&out);
}

#[test]
fn a_missing_parent_makes_a_root_and_a_warning() {
    let out = normalize(vec![
        feature("orphan", Some("atlantis")),
        feature("child", Some("orphan")),
    ]);
    assert_eq!(ids(&out), vec!["orphan", "child"]);
    assert_eq!(out.regions[0].admin_level, AdminLevel::Continent);
    assert_eq!(out.regions[0].parent_id, None);
    assert!(out.regions[0].has_children);
    assert_eq!(out.regions[1].admin_level, AdminLevel::Country);
    assert_eq!(out.regions[1].parent_id, Some("orphan".to_string()));
    assert_eq!(out.warnings.len(), 1);
    match &out.warnings[0] {
        StructuralWarning::DanglingParent { id, parent } => {
            assert_eq!(id, "orphan");
            assert_eq!(parent, "atlantis");
        }
        _ => panic!("a dangling parent was expected"),
    }
    check_laws(&out);
}

#[test]
fn warnings_keep_the_order_of_the_features() {
    let out = normalize(vec![
        feature("a", Some("a")),
        feature("b", Some("gone")),
        feature("c", Some("c")),
    ]);
    assert_eq!(ids(&out), vec!["b"]);
    assert!(matches!(&out.warnings[0], StructuralWarning::Cycle { id } if id == "a"));
    assert!(matches!(&out.warnings[1], StructuralWarning::DanglingParent { id, .. } if id == "b"));
    assert!(matches!(&out.warnings[2], StructuralWarning::Cycle { id } if id == "c"));
}

#[test]
fn an_empty_catalog_gives_nothing() {
    let out = normalize(vec![]);
    assert_eq!(out.regions.len(), 0);
    assert_eq!(out.warnings.len(), 0);
}

#[test]
fn of_two_features_with_one_identifier_the_later_is_the_parent() {
    let out = normalize(vec![
        feature("a", None),
        feature("a", Some("a")),
        feature("z", Some("a")),
    ]);
    assert_eq!(ids(&out), vec!["a"]);
    assert_eq!(out.warnings.len(), 2);
    assert!(!out.regions[0].has_children);
    check_laws(&out);
    let out = normalize(vec![
        feature("a", Some("a")),
        feature("a", None),
        feature("z", Some("a")),
    ]);
    assert_eq!(ids(&out), vec!["a", "a", "z"]);
    assert_eq!(out.regions[0].admin_level, AdminLevel::Country);
    assert_eq!(out.regions[1].admin_level, AdminLevel::Continent);
    assert_eq!(out.regions[2].admin_level, AdminLevel::Country);
    assert!(out.regions[0].has_children);
    assert!(out.regions[1].has_children);
    assert!(!out.regions[2].has_children);
    check_laws(&out);
    let out = normalize(vec![feature("a", Some("a")), feature("a", None)]);
    assert_eq!(ids(&out), vec!["a", "a"]);
    assert!(!out.regions[0].has_children);
    assert!(out.regions[1].has_children);
    check_laws(&out);
}

#[test]
fn codes_and_addresses_are_carried_over() {
    let mut f = feature("liechtenstein", None);
    f.properties.urls = Some(GeofabrikUrls { pbf: Some("https://example.org/li.pbf".to_string()) });
    f.properties.iso3166_1_alpha2 = Some(vec!["LI".to_string(), "XX".to_string()]);
    let mut g = feature("nowhere", None);
    g.properties.urls = Some(GeofabrikUrls { pbf: None });
    g.properties.iso3166_1_alpha2 = Some(vec![]);
    let out = normalize(vec![f, g, feature("plain", None)]);
    assert_eq!(out.regions[0].country_code, Some("LI".to_string()));
    assert_eq!(
        out.regions[0].geofabrik_url,
        Some("https://example.org/li.pbf".to_string())
    );
    assert_eq!(out.regions[1].country_code, None);
    assert_eq!(out.regions[1].geofabrik_url, None);
    assert_eq!(out.regions[2].country_code, None);
    assert_eq!(out.regions[2].geofabrik_url, None);
}

fn at(lat: i64, lon: i64) -> Coordinate {
    Coordinate { lat, lon }
}

#[test]
fn geometry_comes_before_the_table_and_the_table_before_the_world() {
    let mut with_polygon = feature("germany", Some("europe"));
    with_polygon.geometry = Some(Geometry::Polygon(vec![
        vec![at(10, 20), at(-5, 40), at(7, -3)],
        vec![at(1000, 1000)],
    ]));
    let mut with_nothing_to_bound = feature("france", Some("europe"));
    with_nothing_to_bound.geometry = Some(Geometry::Polygon(vec![]));
    let mut unsupported = feature("somewhere", Some("asia"));
    unsupported.geometry = Some(Geometry::Unsupported);
    let out = normalize(vec![
        feature("europe", None),
        feature("asia", None),
        with_polygon,
        with_nothing_to_bound,
        unsupported,
        feature("elsewhere", Some("somewhere")),
        feature("mars", None),
    ]);
    let boxes: Vec<BoundingBox> = out.regions.iter().map(|r| r.bounding_box).collect();
    assert_eq!(boxes[0], BoundingBox::new(350_000_000, -250_000_000, 720_000_000, 450_000_000));
    assert_eq!(boxes[1], BoundingBox::new(-110_000_000, 250_000_000, 820_000_000, 1_800_000_000));
    assert_eq!(boxes[2], BoundingBox::new(-5, -3, 10, 40));
    assert_eq!(boxes[3], BoundingBox::new(413_000_000, -51_000_000, 511_000_000, 96_000_000));
    assert_eq!(boxes[4], boxes[1]);
    assert_eq!(boxes[5], BoundingBox::world());
    assert_eq!(boxes[6], BoundingBox::world());
    check_laws(&out);
}

#[test]
fn current_time_stamps_every_region_alike() {
    let index = GeofabrikIndex { features: vec![feature("a", None), feature("b", Some("a"))] };
    let out = storage().convert_geofabrik_to_regions(index).unwrap();
    assert_eq!(out.regions.len(), 2);
    assert!(out.regions[0].created_at > 1_600_000_000_000);
    assert_eq!(out.regions[0].created_at, out.regions[1].created_at);
    assert_eq!(out.regions[0].created_at, out.regions[0].updated_at);
}
