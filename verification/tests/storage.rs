use riemap_backend::storage::{FileEntry, Storage};

fn storage() -> Storage {
    Storage::new("data").unwrap()
}

fn entry(name: &str, size: u64, created_at: Option<i64>) -> FileEntry {
    FileEntry {
        path: format!("data/li/{}", name),
        file_name: Some(name.to_string()),
        size,
        created_at,
    }
}

#[test]
fn the_metadata_file_lies_in_the_data_directory() {
    let s = Storage::new("/var/riemap").unwrap();
    assert_eq!(s.data_dir, "/var/riemap");
    assert_eq!(s.metadata_file, "/var/riemap/metadata.json");
}

#[test]
fn a_two_part_identifier_names_nested_directories() {
    let s = storage();
    assert_eq!(s.get_region_path("germany-bayern"), "data/germany/bayern");
    assert_eq!(s.get_region_path("-x"), "data//x");
    assert_eq!(s.get_region_path("x-"), "data/x/");
    assert_eq!(s.get_region_path("-"), "data//");
}

#[test]
fn more_hyphens_name_one_directory() {
    let s = storage();
    assert_eq!(s.get_region_path("a-b-c"), "data/a-b-c");
    assert_eq!(s.get_region_path("australia-oceania-x"), "data/australia-oceania-x");
    assert_eq!(s.get_region_path("--"), "data/--");
}

#[test]
fn three_regions_are_filed_under_europe() {
    let s = storage();
    assert_eq!(s.get_region_path("liechtenstein"), "data/europe/liechtenstein");
    assert_eq!(s.get_region_path("germany"), "data/europe/germany");
    assert_eq!(s.get_region_path("france"), "data/europe/france");
    assert_eq!(s.get_region_path("italy"), "data/italy");
    assert_eq!(s.get_region_path(""), "data/");
}

#[test]
fn extracts_are_listed_newest_first() {
    let entries = vec![
        entry("2024-01-01.osm.pbf", 10, Some(100)),
        entry("notes.txt", 1, Some(900)),
        entry("2024-03-01.osm.pbf", 30, Some(300)),
        entry("latest.osm.pbf", 30, Some(999)),
        entry("2024-02-01.osm.pbf", 20, Some(200)),
        entry("undated.pbf", 5, Some(50)),
        entry(".pbf", 5, Some(950)),
        FileEntry { path: "data/li/odd".to_string(), file_name: None, size: 1, created_at: Some(960) },
    ];
    let files = storage().get_region_files_at("li", &entries, 0);
    let versions: Vec<&str> = files.iter().map(|f| f.version.as_str()).collect();
    assert_eq!(versions, vec!["2024-03-01", "2024-02-01", "2024-01-01", "unknown"]);
    let latest: Vec<bool> = files.iter().map(|f| f.is_latest).collect();
    assert_eq!(latest, vec![true, false, false, false]);
    let f = &files[0];
    assert_eq!(f.id, "li_2024-03-01");
    assert_eq!(f.region_id, "li");
    assert_eq!(f.file_path, "data/li/2024-03-01.osm.pbf");
    assert_eq!(f.file_size, 30);
    assert_eq!(f.created_at, 300);
    assert_eq!(f.quality_report_id, None);
    assert_eq!(f.download_url, "/api/download/li/2024-03-01");
    assert_eq!(f.checksum, None);
    assert_eq!(files[3].id, "li_unknown");
    assert_eq!(files[3].download_url, "/api/download/li/unknown");
}

#[test]
fn files_of_one_age_keep_the_order_of_the_listing() {
    let entries = vec![
        entry("a-2024-01-01.pbf", 1, Some(5)),
        entry("b-2024-01-02.pbf", 2, Some(5)),
        entry("c-2024-01-03.pbf", 3, Some(7)),
        entry("d-2024-01-04.pbf", 4, Some(5)),
    ];
    let files = storage().get_region_files_at("r", &entries, 0);
    let sizes: Vec<u64> = files.iter().map(|f| f.file_size).collect();
    assert_eq!(sizes, vec![3, 1, 2, 4]);
    assert!(files[0].is_latest);
}

#[test]
fn a_file_of_unknown_age_counts_as_created_now() {
    let entries = vec![
        entry("2024-01-01.osm.pbf", 1, Some(100)),
        entry("2024-01-02.osm.pbf", 2, None),
        entry("2024-01-03.osm.pbf", 3, Some(300)),
    ];
    let files = storage().get_region_files_at("r", &entries, 200);
    let sizes: Vec<u64> = files.iter().map(|f| f.file_size).collect();
    assert_eq!(sizes, vec![3, 2, 1]);
    assert_eq!(files[1].created_at, 200);
    let files = storage().get_region_files("r", &entries).unwrap();
    let sizes: Vec<u64> = files.iter().map(|f| f.file_size).collect();
    assert_eq!(sizes, vec![2, 3, 1]);
    assert!(files[0].is_latest);
}

#[test]
fn an_empty_directory_lists_nothing() {
    assert_eq!(storage().get_region_files_at("r", &vec![], 0).len(), 0);
    assert_eq!(storage().get_region_files("r", &vec![]).unwrap().len(), 0);
}

#[test]
fn the_latest_alias_is_used_where_it_exists() {
    let entries = vec![entry("2024-01-01.osm.pbf", 1, Some(1))];
    let s = storage();
    assert_eq!(
        s.get_file_path("germany-bayern", "latest", true, &entries).unwrap(),
        Some("data/germany/bayern/latest.osm.pbf".to_string())
    );
    assert_eq!(s.get_file_path("germany-bayern", "latest", false, &entries).unwrap(), None);
    let entries = vec![entry("x-latest.osm.pbf", 1, Some(1))];
    assert_eq!(
        s.get_file_path("li", "latest", false, &entries).unwrap(),
        Some("data/li/x-latest.osm.pbf".to_string())
    );
}

#[test]
fn a_version_names_the_first_extract_that_holds_it() {
    let entries = vec![
        entry("2024-01-15.txt", 1, Some(1)),
        entry("2024-01-15.pbf", 1, Some(1)),
        entry("b-2024-01-15.osm.pbf", 1, Some(1)),
        entry("a-2024-01-15.osm.pbf", 1, Some(1)),
        FileEntry { path: "p".to_string(), file_name: None, size: 1, created_at: None },
    ];
    let s = storage();
    assert_eq!(
        s.get_file_path("li", "2024-01-15", true, &entries).unwrap(),
        Some("data/li/b-2024-01-15.osm.pbf".to_string())
    );
    assert_eq!(
        s.get_file_path("li", "a-", false, &entries).unwrap(),
        Some("data/li/a-2024-01-15.osm.pbf".to_string())
    );
    assert_eq!(s.get_file_path("li", "2024-02-01", false, &entries).unwrap(), None);
    assert_eq!(s.get_file_path("li", "2024-01-15", false, &vec![]).unwrap(), None);
}

#[test]
fn a_comparison_shows_the_example_figures() {
    let c = storage().compare_versions_at("li", "2024-01-01", "2024-02-01", 77);
    assert_eq!(c.region_id, "li");
    assert_eq!(c.from_version, "2024-01-01");
    assert_eq!(c.to_version, "2024-02-01");
    assert_eq!(c.comparison_date, 77);
    assert_eq!(c.metrics_diff.nodes_diff, 42);
    assert_eq!(c.metrics_diff.ways_diff, -3);
    assert_eq!(c.metrics_diff.relations_diff, 1);
    assert_eq!(c.metrics_diff.completeness_diff, 5);
    assert_eq!(c.metrics_diff.errors_diff, -2);
    assert!(c.metrics_diff.feature_changes.is_empty());
    assert_eq!(
        c.summary,
        "Comparison between 2024-01-01 and 2024-02-01: +42 nodes, -3 ways, +1 relations"
    );
    assert_eq!(c.change_details.len(), 1);
    assert_eq!(c.change_details[0].change_type, "highway");
    assert_eq!(c.change_details[0].description, "New residential roads added");
    assert_eq!(c.change_details[0].impact, "Improved navigation coverage");
    assert_eq!(c.change_details[0].location, Some((471_600_000, 95_200_000)));
    let c = storage().compare_versions("li", "a", "b").unwrap();
    assert_eq!(c.summary, "Comparison between a and b: +42 nodes, -3 ways, +1 relations");
    assert!(c.comparison_date > 1_600_000_000_000);
}
