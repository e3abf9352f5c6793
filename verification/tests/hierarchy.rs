use riemap_backend::models::{AdminLevel, BoundingBox, DataFile, DataFormat, Region, RegionTree};
use riemap_backend::storage::Storage;

fn storage() -> Storage {
    Storage::new("data").unwrap()
}

fn region(id: &str, name: &str, level: AdminLevel, parent: Option<&str>) -> Region {
    let mut r = Region::new_at(
        id.to_string(),
        name.to_string(),
        level,
        BoundingBox::world(),
        500,
    );
    r.parent_id = parent.map(|p| p.to_string());
    r
}

fn file(region_id: &str, version: &str, size: u64) -> DataFile {
    DataFile {
        id: format!("{}_{}", region_id, version),
        region_id: region_id.to_string(),
        version: version.to_string(),
        file_path: format!("data/{}/{}.osm.pbf", region_id, version),
        file_size: size,
        format: DataFormat::OsmPbf,
        created_at: 1,
        is_latest: false,
        quality_report_id: None,
        download_url: format!("/api/download/{}/{}", region_id, version),
        checksum: None,
    }
}

fn ids(forest: &Vec<RegionTree>) -> Vec<&str> {
    forest.iter().map(|t| t.region.id.as_str()).collect()
}

fn outline(forest: &Vec<RegionTree>) -> String {
    let mut s = String::new();
    for t in forest {
        s.push_str(&t.region.id);
        if t.depth_exceeded {
            s.push('!');
        }
        if !t.children.is_empty() {
            s.push('(');
            s.push_str(&outline(&t.children));
            s.push(')');
        }
        s.push(' ');
    }
    s.trim_end().to_string()
}

fn sample() -> Vec<Region> {
    vec![
        region("de-by", "Bayern", AdminLevel::Region, Some("de")),
        region("fr", "France", AdminLevel::Country, Some("eu")),
        region("as", "Asia", AdminLevel::Continent, None),
        region("de", "Germany", AdminLevel::Country, Some("eu")),
        region("eu", "Europe", AdminLevel::Continent, None),
        region("de-be", "Berlin", AdminLevel::Region, Some("de")),
        region("alps", "Alps", AdminLevel::Region, Some("eu")),
        region("af", "Africa", AdminLevel::Continent, None),
        region("w", "World", AdminLevel::World, None),
    ]
}

#[test]
fn siblings_are_sorted_by_level_then_name() {
    let forest = storage().get_region_tree(&sample(), &vec![]).unwrap();
    assert_eq!(outline(&forest), "w af as eu(fr de(de-by de-be) alps)");
    let europe = &forest[3];
    assert_eq!(ids(&europe.children), vec!["fr", "de", "alps"]);
    assert!(europe.region.name == "Europe");
    for t in &forest {
        assert!(!t.depth_exceeded);
    }
}

#[test]
fn names_are_compared_by_code_point_and_ties_go_to_the_identifier() {
    let regions = vec![
        region("4", "b", AdminLevel::Country, None),
        region("3", "a", AdminLevel::Country, None),
        region("2", "a", AdminLevel::Country, None),
        region("1", "B", AdminLevel::Country, None),
        region("0", "ab", AdminLevel::Country, None),
        region("9", "", AdminLevel::Country, None),
        region("5", "é", AdminLevel::Country, None),
        region("8", "zz", AdminLevel::Continent, None),
    ];
    let forest = storage().build_hierarchy(&regions, &vec![], None).unwrap();
    assert_eq!(ids(&forest), vec!["8", "9", "1", "2", "3", "0", "4", "5"]);
}

#[test]
fn regions_alike_in_every_key_keep_their_order() {
    let mut first = region("same", "Same", AdminLevel::Country, None);
    first.population = Some(1);
    let mut second = region("same", "Same", AdminLevel::Country, None);
    second.population = Some(2);
    let forest = storage()
        .build_hierarchy(&vec![first.clone(), second.clone()], &vec![], None)
        .unwrap();
    assert_eq!(forest[0].region.population, Some(1));
    assert_eq!(forest[1].region.population, Some(2));
    let forest = storage().build_hierarchy(&vec![second, first], &vec![], None).unwrap();
    assert_eq!(forest[0].region.population, Some(2));
    assert_eq!(forest[1].region.population, Some(1));
}

#[test]
fn building_twice_gives_the_same_forest() {
    let files = vec![file("de", "2024-01-01", 5)];
    let a = storage().get_region_tree(&sample(), &files).unwrap();
    let b = storage().get_region_tree(&sample(), &files).unwrap();
    assert_eq!(format!("{:?}", a), format!("{:?}", b));
}

#[test]
fn the_forest_below_a_parent_holds_its_descendants() {
    let forest = storage().build_hierarchy(&sample(), &vec![], Some("eu")).unwrap();
    assert_eq!(outline(&forest), "fr de(de-by de-be) alps");
    let forest = storage().build_hierarchy(&sample(), &vec![], Some("de-by")).unwrap();
    assert_eq!(forest.len(), 0);
    let forest = storage().build_hierarchy(&sample(), &vec![], Some("unknown")).unwrap();
    assert_eq!(forest.len(), 0);
}

#[test]
fn files_are_merged_into_their_regions() {
    let files = vec![
        file("de", "2024-02-01", 100),
        file("fr", "2024-01-01", 7),
        file("de", "2024-01-01", u64::MAX),
    ];
    let forest = storage().build_hierarchy(&sample(), &files, Some("eu")).unwrap();
    let de = &forest[1];
    assert_eq!(de.data_files.len(), 2);
    assert_eq!(de.data_files[0].version, "2024-02-01");
    assert_eq!(de.data_files[1].version, "2024-01-01");
    assert_eq!(de.download_stats.file_count, 2);
    assert_eq!(de.download_stats.total_size, u64::MAX as u128 + 100);
    assert_eq!(de.download_stats.total_downloads, 0);
    assert_eq!(de.download_stats.last_updated, 500);
    let fr = &forest[0];
    assert_eq!(fr.data_files.len(), 1);
    assert_eq!(fr.download_stats.total_size, 7);
    let alps = &forest[2];
    assert_eq!(alps.data_files.len(), 0);
    assert_eq!(alps.download_stats.file_count, 0);
    assert_eq!(alps.download_stats.total_size, 0);
    assert_eq!(de.children[0].download_stats.file_count, 0);
}

#[test]
fn the_depth_bound_cuts_a_branch_and_marks_it() {
    let s = storage();
    let forest = s.build_tree_iterative(&sample(), &vec![], None, 0).unwrap();
    assert_eq!(outline(&forest), "w af as eu!");
    let forest = s.build_tree_iterative(&sample(), &vec![], None, 1).unwrap();
    assert_eq!(outline(&forest), "w af as eu(fr de! alps)");
    let forest = s.build_tree_iterative(&sample(), &vec![], None, 2).unwrap();
    assert_eq!(outline(&forest), "w af as eu(fr de(de-by de-be) alps)");
}

#[test]
fn a_cycle_ends_at_the_depth_bound() {
    let regions = vec![
        region("x", "X", AdminLevel::Country, Some("y")),
        region("y", "Y", AdminLevel::Country, Some("x")),
        region("ok", "Ok", AdminLevel::Continent, None),
        region("kid", "Kid", AdminLevel::Country, Some("ok")),
    ];
    let s = storage();
    let forest = s.get_region_tree(&regions, &vec![]).unwrap();
    assert_eq!(outline(&forest), "ok(kid)");
    let forest = s.build_tree_iterative(&regions, &vec![], Some("x"), 3).unwrap();
    assert_eq!(outline(&forest), "y(x(y(x!)))");
    let forest = s.build_hierarchy(&regions, &vec![], Some("x")).unwrap();
    let mut depth = 0;
    let mut level = &forest;
    while !level.is_empty() {
        assert_eq!(level.len(), 1);
        depth += 1;
        if level[0].children.is_empty() {
            assert!(level[0].depth_exceeded);
        }
        level = &level[0].children;
    }
    assert_eq!(depth, 65);
}

#[test]
fn one_region_comes_with_its_subtree() {
    let files = vec![file("eu", "2024-01-01", 9)];
    let tree = storage().get_region(&sample(), &files, "eu").unwrap().unwrap();
    assert_eq!(tree.region.id, "eu");
    assert_eq!(tree.region.name, "Europe");
    assert_eq!(outline(&tree.children), "fr de(de-by de-be) alps");
    assert_eq!(tree.data_files.len(), 1);
    assert_eq!(tree.download_stats.file_count, 1);
    assert_eq!(tree.download_stats.total_size, 9);
    assert_eq!(tree.download_stats.last_updated, 500);
    assert!(!tree.depth_exceeded);
}

#[test]
fn an_unknown_region_is_not_found() {
    assert!(storage().get_region(&sample(), &vec![], "atlantis").unwrap().is_none());
    assert!(storage().get_region(&vec![], &vec![], "eu").unwrap().is_none());
}

#[test]
fn the_first_of_two_regions_with_one_identifier_is_found() {
    let regions = vec![
        region("a", "First", AdminLevel::Country, None),
        region("a", "Second", AdminLevel::Country, None),
    ];
    let tree = storage().get_region(&regions, &vec![], "a").unwrap().unwrap();
    assert_eq!(tree.region.name, "First");
}

#[test]
fn the_index_finds_sorted_children_by_parent() {
    let regions = sample();
    let index = riemap_backend::hierarchy::ChildIndex::build(&regions);
    assert_eq!(index.children(None), &vec![8, 7, 2, 4]);
    assert_eq!(index.children(Some("eu")), &vec![1, 3, 6]);
    assert_eq!(index.children(Some("de")), &vec![0, 5]);
    assert_eq!(index.children(Some("fr")), &Vec::<usize>::new());
    assert_eq!(index.children(Some("unknown")), &Vec::<usize>::new());
    let empty = riemap_backend::hierarchy::ChildIndex::build(&vec![]);
    assert_eq!(empty.children(None), &Vec::<usize>::new());
}
