use riemap_backend::geometry::{Coordinate, Geometry};
use riemap_backend::models::BoundingBox;
use riemap_backend::storage::Storage;

fn storage() -> Storage {
    Storage::new("data").unwrap()
}

fn at(lat: i64, lon: i64) -> Coordinate {
    Coordinate { lat, lon }
}

#[test]
fn bounds_of_points_are_their_extremes() {
    let s = storage();
    assert_eq!(s.calculate_bbox_from_coordinates(&vec![]), None);
    assert_eq!(
        s.calculate_bbox_from_coordinates(&vec![at(5, -7)]),
        Some(BoundingBox::new(5, -7, 5, -7))
    );
    assert_eq!(
        s.calculate_bbox_from_coordinates(&vec![at(5, -7), at(-1, 9), at(3, 3), at(8, -8)]),
        Some(BoundingBox::new(-1, -8, 8, 9))
    );
    assert_eq!(
        s.calculate_bbox_from_coordinates(&vec![at(i64::MAX, i64::MIN), at(i64::MIN, i64::MAX)]),
        Some(BoundingBox::new(i64::MIN, i64::MIN, i64::MAX, i64::MAX))
    );
}

#[test]
fn a_point_is_padded_by_a_thousandth_of_a_degree() {
    let s = storage();
    let b = s
        .extract_bounding_box_from_geometry(&Geometry::Point(at(471_600_000, 95_200_000)))
        .unwrap();
    assert_eq!(b, BoundingBox::new(471_590_000, 95_190_000, 471_610_000, 95_210_000));
    let b = s
        .extract_bounding_box_from_geometry(&Geometry::Point(at(i64::MAX, i64::MIN)))
        .unwrap();
    assert_eq!(b, BoundingBox::new(i64::MAX - 10_000, i64::MIN, i64::MAX, i64::MIN + 10_000));
}

#[test]
fn a_polygon_is_bounded_by_its_outer_ring() {
    let s = storage();
    let g = Geometry::Polygon(vec![
        vec![at(0, 0), at(0, 10), at(10, 10), at(10, 0), at(0, 0)],
        vec![at(-99, -99), at(99, 99)],
    ]);
    assert_eq!(s.extract_bounding_box_from_geometry(&g), Some(BoundingBox::new(0, 0, 10, 10)));
    assert_eq!(s.extract_bounding_box_from_geometry(&Geometry::Polygon(vec![])), None);
    assert_eq!(s.extract_bounding_box_from_geometry(&Geometry::Polygon(vec![vec![]])), None);
}

#[test]
fn a_multi_polygon_is_bounded_by_all_outer_rings() {
    let s = storage();
    let g = Geometry::MultiPolygon(vec![
        vec![vec![at(0, 0), at(5, 5)], vec![at(-50, -50)]],
        vec![],
        vec![vec![at(20, -3), at(21, 1)]],
        vec![vec![]],
    ]);
    assert_eq!(s.extract_bounding_box_from_geometry(&g), Some(BoundingBox::new(0, -3, 21, 5)));
    assert_eq!(s.extract_bounding_box_from_geometry(&Geometry::MultiPolygon(vec![])), None);
    assert_eq!(
        s.extract_bounding_box_from_geometry(&Geometry::MultiPolygon(vec![vec![], vec![vec![]]])),
        None
    );
}

#[test]
fn other_geometries_give_no_box() {
    assert_eq!(storage().extract_bounding_box_from_geometry(&Geometry::Unsupported), None);
}

#[test]
fn known_regions_have_estimated_boxes() {
    let s = storage();
    let unit = 1_000_000;
    let table = [
        ("world", (-900, -1800, 900, 1800)),
        ("africa", (-350, -200, 380, 550)),
        ("antarctica", (-900, -1800, -600, 1800)),
        ("asia", (-110, 250, 820, 1800)),
        ("australia-oceania", (-550, 1100, 0, 1800)),
        ("central-america", (70, -920, 220, -770)),
        ("europe", (350, -250, 720, 450)),
        ("north-america", (150, -1800, 850, -500)),
        ("south-america", (-600, -850, 150, -300)),
        ("germany", (473, 59, 550, 150)),
        ("france", (413, -51, 511, 96)),
        ("great-britain", (499, -82, 608, 18)),
        ("united-states", (189, -1791, 714, -669)),
        ("us", (189, -1791, 714, -669)),
        ("canada", (417, -1410, 831, -526)),
    ];
    for (id, (a, b, c, d)) in table {
        let expected = BoundingBox::new(a * unit, b * unit, c * unit, d * unit);
        assert_eq!(s.estimate_bounding_box(id, &None), expected);
        assert_eq!(s.estimate_bounding_box(id, &Some("asia".to_string())), expected);
        assert_eq!(s.estimate_bounding_box("unheard-of", &Some(id.to_string())), expected);
        assert!(expected.is_valid());
    }
}

#[test]
fn unknown_regions_get_the_whole_world() {
    let s = storage();
    assert_eq!(s.estimate_bounding_box("atlantis", &None), BoundingBox::world());
    assert_eq!(
        s.estimate_bounding_box("atlantis", &Some("lemuria".to_string())),
        BoundingBox::world()
    );
    assert_eq!(s.estimate_bounding_box("Germany", &None), BoundingBox::world());
}

#[test]
fn the_box_of_a_feature_prefers_its_geometry() {
    let s = storage();
    let g = Some(Geometry::Point(at(0, 0)));
    assert_eq!(
        s.bounding_box_of("germany", &None, &g),
        BoundingBox::new(-10_000, -10_000, 10_000, 10_000)
    );
    assert_eq!(
        s.bounding_box_of("germany", &None, &Some(Geometry::Unsupported)),
        s.estimate_bounding_box("germany", &None)
    );
    assert_eq!(
        s.bounding_box_of("x", &Some("europe".to_string()), &None),
        s.estimate_bounding_box("europe", &None)
    );
}
