use riemap_backend::models::{
    AdminLevel, BoundingBox, DownloadStats, FeatureDistribution, Region, MAX_LATITUDE,
    MAX_LONGITUDE, MIN_LATITUDE, MIN_LONGITUDE,
};

#[test]
fn admin_levels_are_numbered_from_world() {
    assert_eq!(AdminLevel::World.as_number(), 0);
    assert_eq!(AdminLevel::Continent.as_number(), 1);
    assert_eq!(AdminLevel::Country.as_number(), 2);
    assert_eq!(AdminLevel::Region.as_number(), 3);
    assert_eq!(AdminLevel::Subregion.as_number(), 4);
}

#[test]
fn roots_are_continents_and_deep_chains_collapse() {
    assert_eq!(AdminLevel::from_depth(0), AdminLevel::Continent);
    assert_eq!(AdminLevel::from_depth(1), AdminLevel::Country);
    assert_eq!(AdminLevel::from_depth(2), AdminLevel::Region);
    assert_eq!(AdminLevel::from_depth(3), AdminLevel::Subregion);
    assert_eq!(AdminLevel::from_depth(4), AdminLevel::Subregion);
    assert_eq!(AdminLevel::from_depth(1000), AdminLevel::Subregion);
}

#[test]
fn center_rounds_down() {
    let b = BoundingBox::new(-3, -5, 0, 10);
    assert_eq!(b.center(), (-2, 2));
}

#[test]
fn center_of_extreme_box_does_not_overflow() {
    let b = BoundingBox::new(i64::MIN, i64::MAX - 1, i64::MAX, i64::MAX);
    assert_eq!(b.center(), (-1, i64::MAX - 1));
}

#[test]
fn center_ignores_the_order_of_the_bounds() {
    let b = BoundingBox::new(10, 7, 4, 1);
    assert_eq!(b.center(), (7, 4));
}

#[test]
fn box_contains_its_border() {
    let b = BoundingBox::new(10, 20, 30, 40);
    assert!(b.contains(10, 20));
    assert!(b.contains(30, 40));
    assert!(b.contains(20, 30));
    assert!(!b.contains(9, 30));
    assert!(!b.contains(31, 30));
    assert!(!b.contains(20, 19));
    assert!(!b.contains(20, 41));
}

#[test]
fn box_validity_is_order_on_both_axes() {
    assert!(BoundingBox::new(1, 1, 1, 1).is_valid());
    assert!(BoundingBox::new(0, 0, 1, 1).is_valid());
    assert!(!BoundingBox::new(2, 0, 1, 1).is_valid());
    assert!(!BoundingBox::new(0, 2, 1, 1).is_valid());
}

#[test]
fn world_box_spans_the_globe() {
    let w = BoundingBox::world();
    assert_eq!(w.min_lat, -900_000_000);
    assert_eq!(w.min_lon, -1_800_000_000);
    assert_eq!(w.max_lat, 900_000_000);
    assert_eq!(w.max_lon, 1_800_000_000);
    assert_eq!((w.min_lat, w.max_lat), (MIN_LATITUDE, MAX_LATITUDE));
    assert_eq!((w.min_lon, w.max_lon), (MIN_LONGITUDE, MAX_LONGITUDE));
    assert!(w.is_valid());
}

#[test]
fn new_region_has_no_parent_and_no_children() {
    let r = Region::new_at(
        "liechtenstein".to_string(),
        "Liechtenstein".to_string(),
        AdminLevel::Country,
        BoundingBox::new(1, 2, 3, 4),
        1_700_000_000_000,
    );
    assert_eq!(r.id, "liechtenstein");
    assert_eq!(r.name, "Liechtenstein");
    assert_eq!(r.admin_level, AdminLevel::Country);
    assert_eq!(r.parent_id, None);
    assert_eq!(r.bounding_box, BoundingBox::new(1, 2, 3, 4));
    assert_eq!(r.area_km2, None);
    assert_eq!(r.population, None);
    assert_eq!(r.country_code, None);
    assert_eq!(r.geofabrik_url, None);
    assert!(!r.has_children);
    assert_eq!(r.created_at, 1_700_000_000_000);
    assert_eq!(r.updated_at, 1_700_000_000_000);
    assert_eq!(r.admin_level_num(), 2);
}

#[test]
fn new_region_is_stamped_once() {
    let r = Region::new(
        "x".to_string(),
        "X".to_string(),
        AdminLevel::World,
        BoundingBox::world(),
    );
    assert_eq!(r.created_at, r.updated_at);
    assert!(r.created_at > 1_600_000_000_000);
    assert_eq!(r.admin_level_num(), 0);
}

#[test]
fn cloned_region_keeps_every_field() {
    let mut r = Region::new_at(
        "a".to_string(),
        "A".to_string(),
        AdminLevel::Region,
        BoundingBox::new(1, 2, 3, 4),
        5,
    );
    r.parent_id = Some("p".to_string());
    r.country_code = Some("DE".to_string());
    r.geofabrik_url = Some("u".to_string());
    r.has_children = true;
    r.population = Some(7);
    r.area_km2 = Some(9);
    let c = r.clone();
    assert_eq!(c.id, "a");
    assert_eq!(c.name, "A");
    assert_eq!(c.admin_level, AdminLevel::Region);
    assert_eq!(c.parent_id, Some("p".to_string()));
    assert_eq!(c.country_code, Some("DE".to_string()));
    assert_eq!(c.geofabrik_url, Some("u".to_string()));
    assert!(c.has_children);
    assert_eq!(c.population, Some(7));
    assert_eq!(c.area_km2, Some(9));
    assert_eq!(c.created_at, 5);
    assert_eq!(c.updated_at, 5);
}

#[test]
fn default_distribution_is_zero() {
    let d = FeatureDistribution::default();
    assert_eq!(d.highways, 0);
    assert_eq!(d.buildings, 0);
    assert_eq!(d.natural_features, 0);
    assert_eq!(d.amenities, 0);
    assert_eq!(d.water_features, 0);
    assert_eq!(d.boundaries, 0);
}

#[test]
fn default_stats_count_nothing() {
    let d = DownloadStats::default();
    assert_eq!(d.total_downloads, 0);
    assert_eq!(d.file_count, 0);
    assert_eq!(d.total_size, 0);
    assert!(d.last_updated > 1_600_000_000_000);
}
