use riemap_backend::models::{
    FeatureDistribution, IssueSeverity, QualityIssue, QualityMetrics,
};
use riemap_backend::quality::utils::{categorize_issues, compare_metrics, generate_issue_summary};
use riemap_backend::quality::QualityAnalyzer;

fn metrics(nodes: u64, ways: u64, relations: u64, tagged: (u64, u64, u64)) -> QualityMetrics {
    QualityMetrics {
        total_nodes: nodes,
        total_ways: ways,
        total_relations: relations,
        tagged_nodes: tagged.0,
        tagged_ways: tagged.1,
        tagged_relations: tagged.2,
        completeness_score: 0,
        geometry_errors: 0,
        tag_errors: 0,
        topology_errors: 0,
        feature_distribution: FeatureDistribution::default(),
    }
}

fn issue(issue_type: &str, severity: IssueSeverity) -> QualityIssue {
    QualityIssue::unlocated(
        issue_type.to_string(),
        severity,
        "described".to_string(),
        "fixed".to_string(),
    )
}

#[test]
fn low_tagging_rate_is_a_high_issue() {
    let m = metrics(1000, 10, 0, (100, 0, 0));
    let issues = QualityAnalyzer.analyze_completeness(&m);
    assert_eq!(issues.len(), 1);
    assert_eq!(issues[0].issue_type, "low_tagging_rate");
    assert_eq!(issues[0].severity, IssueSeverity::High);
    assert_eq!(issues[0].description, "Very low tagging rate: 9.9%");
    assert_eq!(
        issues[0].fix_suggestion,
        Some("Add more descriptive tags to features to improve data usability".to_string())
    );
    assert_eq!(issues[0].location, None);
    assert_eq!(issues[0].osm_id, None);
    assert_eq!(issues[0].osm_type, None);
}

#[test]
fn a_tenth_tagged_is_not_low() {
    let m = metrics(10, 0, 0, (1, 0, 0));
    assert_eq!(QualityAnalyzer.analyze_completeness(&m).len(), 0);
    let m = metrics(1001, 0, 0, (100, 0, 0));
    let issues = QualityAnalyzer.analyze_completeness(&m);
    assert_eq!(issues.len(), 2);
    assert_eq!(issues[0].issue_type, "low_tagging_rate");
    assert_eq!(issues[0].description, "Very low tagging rate: 9.9%");
    assert_eq!(issues[1].issue_type, "low_way_density");
}

#[test]
fn an_empty_data_set_has_no_completeness_issue() {
    let m = metrics(0, 0, 0, (0, 0, 0));
    assert_eq!(QualityAnalyzer.analyze_completeness(&m).len(), 0);
}

#[test]
fn nothing_tagged_shows_a_rate_of_zero() {
    let m = metrics(0, 5, 0, (0, 0, 0));
    let issues = QualityAnalyzer.analyze_completeness(&m);
    assert_eq!(issues.len(), 1);
    assert_eq!(issues[0].description, "Very low tagging rate: 0.0%");
}

#[test]
fn few_ways_are_a_medium_issue() {
    let m = metrics(1000, 9, 0, (1000, 0, 0));
    let issues = QualityAnalyzer.analyze_completeness(&m);
    assert_eq!(issues.len(), 1);
    assert_eq!(issues[0].issue_type, "low_way_density");
    assert_eq!(issues[0].severity, IssueSeverity::Medium);
    assert_eq!(issues[0].description, "Unusually low number of ways compared to nodes");
    assert_eq!(
        issues[0].fix_suggestion,
        Some("Verify that linear features (roads, paths) are properly mapped".to_string())
    );
    let m = metrics(1099, 10, 0, (1099, 0, 0));
    assert_eq!(QualityAnalyzer.analyze_completeness(&m).len(), 0);
    let m = metrics(1100, 10, 0, (1100, 0, 0));
    assert_eq!(QualityAnalyzer.analyze_completeness(&m).len(), 1);
}

#[test]
fn huge_counts_do_not_overflow() {
    let m = metrics(u64::MAX, u64::MAX, u64::MAX, (u64::MAX, u64::MAX, u64::MAX));
    assert_eq!(QualityAnalyzer.analyze_completeness(&m).len(), 0);
    let mut m = metrics(u64::MAX, u64::MAX, u64::MAX, (0, 0, 0));
    m.geometry_errors = u64::MAX;
    m.topology_errors = u64::MAX;
    m.tag_errors = u64::MAX;
    m.completeness_score = u32::MAX;
    assert_eq!(QualityAnalyzer.calculate_quality_score(&m, &vec![]), 0);
}

#[test]
fn patterns_come_in_a_fixed_order() {
    let mut m = metrics(10, 1, 2, (0, 0, 0));
    m.geometry_errors = 3;
    m.topology_errors = 12;
    let issues = QualityAnalyzer.analyze_patterns(&m);
    assert_eq!(issues.len(), 3);
    assert_eq!(issues[0].issue_type, "high_relation_ratio");
    assert_eq!(issues[0].severity, IssueSeverity::Medium);
    assert_eq!(issues[0].description, "More relations than ways, which is unusual");
    assert_eq!(
        issues[0].fix_suggestion,
        Some("Review relation usage and ensure they are necessary".to_string())
    );
    assert_eq!(issues[1].issue_type, "geometry_errors");
    assert_eq!(issues[1].severity, IssueSeverity::High);
    assert_eq!(issues[1].description, "3 geometry errors found");
    assert_eq!(
        issues[1].fix_suggestion,
        Some("Review and fix geometry errors, particularly invalid coordinates".to_string())
    );
    assert_eq!(issues[2].issue_type, "topology_errors");
    assert_eq!(issues[2].severity, IssueSeverity::High);
    assert_eq!(issues[2].description, "12 topology errors found");
    assert_eq!(
        issues[2].fix_suggestion,
        Some("Check way topology - ensure ways have at least 2 nodes".to_string())
    );
}

#[test]
fn clean_metrics_show_no_pattern() {
    let m = metrics(10, 2, 2, (0, 0, 0));
    assert_eq!(QualityAnalyzer.analyze_patterns(&m).len(), 0);
}

#[test]
fn score_follows_the_formula() {
    let mut m = metrics(0, 0, 0, (0, 0, 0));
    m.geometry_errors = 1;
    m.topology_errors = 2;
    m.tag_errors = 3;
    m.completeness_score = 500;
    let issues = vec![
        issue("a", IssueSeverity::Critical),
        issue("b", IssueSeverity::Low),
    ];
    // 100 - 2 - 3 - 3 - 20 - 1 + 15 = 86
    assert_eq!(QualityAnalyzer.calculate_quality_score(&m, &issues), 8600);
    let issues = vec![
        issue("a", IssueSeverity::High),
        issue("b", IssueSeverity::Medium),
    ];
    // 100 - 8 - 10 - 5 + 15 = 92
    assert_eq!(QualityAnalyzer.calculate_quality_score(&m, &issues), 9200);
    m.topology_errors = 1;
    m.completeness_score = 1;
    // 100 - 2 - 1.5 - 3 + 0.03 = 93.53
    assert_eq!(QualityAnalyzer.calculate_quality_score(&m, &vec![]), 9353);
}

#[test]
fn flawless_metrics_score_exactly_one_hundred() {
    let mut m = metrics(10, 10, 10, (10, 10, 10));
    m.completeness_score = 1000;
    assert_eq!(QualityAnalyzer.calculate_quality_score(&m, &vec![]), 10_000);
    let mut m = metrics(1000, 0, 7, (0, 0, 0));
    m.completeness_score = 1000;
    let a = QualityAnalyzer.score(&m, vec![]);
    assert_eq!(a.issues.len(), 3);
    assert_eq!(a.score, 10_000);
}

#[test]
fn fifty_geometry_errors_use_up_the_base_score() {
    let mut m = metrics(100, 100, 0, (0, 0, 0));
    m.geometry_errors = 50;
    assert_eq!(QualityAnalyzer.calculate_quality_score(&m, &vec![]), 0);
    m.geometry_errors = 51;
    assert_eq!(QualityAnalyzer.calculate_quality_score(&m, &vec![]), 0);
    assert_eq!(QualityAnalyzer.score(&m, vec![]).score, 0);
    m.geometry_errors = 50;
    m.completeness_score = 1000;
    assert_eq!(QualityAnalyzer.calculate_quality_score(&m, &vec![]), 3000);
    m.tag_errors = 30;
    assert_eq!(QualityAnalyzer.calculate_quality_score(&m, &vec![]), 0);
}

#[test]
fn score_never_leaves_its_range() {
    let mut m = metrics(0, 0, 0, (0, 0, 0));
    m.completeness_score = 1000;
    let many: Vec<QualityIssue> = (0..10).map(|_| issue("x", IssueSeverity::Critical)).collect();
    assert_eq!(QualityAnalyzer.calculate_quality_score(&m, &many), 0);
    let six: Vec<QualityIssue> = (0..6).map(|_| issue("x", IssueSeverity::Critical)).collect();
    assert_eq!(QualityAnalyzer.calculate_quality_score(&m, &six), 1000);
    assert_eq!(QualityAnalyzer.calculate_quality_score(&m, &vec![]), 10_000);
}

#[test]
fn recommendations_follow_thresholds_then_issues() {
    let mut m = metrics(0, 0, 0, (0, 0, 0));
    m.completeness_score = 499;
    m.geometry_errors = 1;
    m.topology_errors = 1;
    let issues = vec![
        issue("low_way_density", IssueSeverity::Medium),
        issue("other", IssueSeverity::Critical),
        issue("low_tagging_rate", IssueSeverity::High),
    ];
    let r = QualityAnalyzer.generate_recommendations(&m, &issues);
    assert_eq!(
        r,
        vec![
            "Consider improving tagging completeness by adding more descriptive tags to features",
            "Review and fix geometry errors, particularly invalid coordinates",
            "Check way topology - ensure ways have at least 2 nodes",
            "Verify that linear features (roads, paths) are properly mapped",
            "Increase feature tagging to improve data usability",
        ]
    );
}

#[test]
fn nothing_to_recommend_gives_one_affirmation() {
    let mut m = metrics(0, 0, 0, (0, 0, 0));
    m.completeness_score = 500;
    let r = QualityAnalyzer.generate_recommendations(&m, &vec![]);
    assert_eq!(r, vec!["Data quality looks good! Continue maintaining current standards."]);
    let r = QualityAnalyzer.generate_recommendations(&m, &vec![issue("other", IssueSeverity::Low)]);
    assert_eq!(r, vec!["Data quality looks good! Continue maintaining current standards."]);
    m.completeness_score = 499;
    let r = QualityAnalyzer.generate_recommendations(&m, &vec![]);
    assert_eq!(r.len(), 1);
    assert_ne!(r[0], "Data quality looks good! Continue maintaining current standards.");
}

#[test]
fn scoring_appends_what_the_passes_find() {
    let mut m = metrics(1000, 10, 11, (100, 0, 0));
    m.completeness_score = 98;
    m.geometry_errors = 2;
    let a = QualityAnalyzer.score(&m, vec![issue("empty_file", IssueSeverity::Critical)]);
    let kinds: Vec<&str> = a.issues.iter().map(|i| i.issue_type.as_str()).collect();
    assert_eq!(
        kinds,
        vec!["empty_file", "low_tagging_rate", "high_relation_ratio", "geometry_errors"]
    );
    // 100 - 4 - 20 - 10 - 5 - 10 + 2.94 = 53.94
    assert_eq!(a.score, 5394);
    assert_eq!(
        a.recommendations,
        vec![
            "Consider improving tagging completeness by adding more descriptive tags to features",
            "Review and fix geometry errors, particularly invalid coordinates",
            "Increase feature tagging to improve data usability",
        ]
    );
}

#[test]
fn assembled_report_holds_what_it_was_given() {
    let mut m = metrics(3, 2, 1, (1, 1, 1));
    m.completeness_score = 500;
    let issues = vec![
        issue("a", IssueSeverity::Critical),
        issue("b", IssueSeverity::Critical),
        issue("low_tagging_rate", IssueSeverity::Low),
    ];
    let r = QualityAnalyzer.assemble_report("id-1".to_string(), 77, "file", "region", &m, issues);
    assert_eq!(r.id, "id-1");
    assert_eq!(r.created_at, 77);
    assert_eq!(r.data_file_id, "file");
    assert_eq!(r.region_id, "region");
    assert_eq!(r.metrics, m);
    assert_eq!(r.issues.len(), 3);
    assert_eq!(r.issues[2].issue_type, "low_tagging_rate");
    assert_eq!(
        r.summary,
        "Data contains 6 elements (3 nodes, 2 ways, 1 relations) with 50.0% completeness. 2 critical issues found."
    );
    assert_eq!(r.recommendations, vec!["Increase feature tagging to improve data usability"]);
}

#[test]
fn generated_reports_get_fresh_identifiers() {
    let m = metrics(0, 0, 0, (0, 0, 0));
    let a = QualityAnalyzer.generate_report("f", "r", &m, vec![]).unwrap();
    let b = QualityAnalyzer.generate_report("f", "r", &m, vec![]).unwrap();
    assert_eq!(a.id.len(), 36);
    assert_eq!(b.id.len(), 36);
    assert_ne!(a.id, b.id);
    assert!(a.created_at > 1_600_000_000_000);
    assert_eq!(a.data_file_id, "f");
    assert_eq!(a.region_id, "r");
    assert_eq!(
        a.summary,
        "Data contains 0 elements (0 nodes, 0 ways, 0 relations) with 0.0% completeness. 0 critical issues found."
    );
    assert_eq!(
        a.recommendations,
        vec!["Consider improving tagging completeness by adding more descriptive tags to features"]
    );
}

#[test]
fn metrics_are_compared_new_minus_old() {
    let mut old = metrics(10, 20, 30, (0, 0, 0));
    let mut new = metrics(52, 17, 31, (0, 0, 0));
    old.completeness_score = 400;
    new.completeness_score = 405;
    old.geometry_errors = 5;
    new.topology_errors = 1;
    new.tag_errors = 2;
    old.feature_distribution.highways = 7;
    new.feature_distribution.highways = 9;
    new.feature_distribution.boundaries = 4;
    old.feature_distribution.amenities = 3;
    let d = compare_metrics(&old, &new);
    assert_eq!(d.nodes_diff, 42);
    assert_eq!(d.ways_diff, -3);
    assert_eq!(d.relations_diff, 1);
    assert_eq!(d.completeness_diff, 5);
    assert_eq!(d.errors_diff, -2);
    let named: Vec<(&str, i64)> =
        d.feature_changes.iter().map(|(n, v)| (n.as_str(), *v)).collect();
    assert_eq!(
        named,
        vec![
            ("highways", 2),
            ("buildings", 0),
            ("natural_features", 0),
            ("amenities", -3),
            ("water_features", 0),
            ("boundaries", 4),
        ]
    );
}

#[test]
fn differences_are_held_to_the_range_of_the_result() {
    let old = metrics(0, u64::MAX, 1 << 63, (0, 0, 0));
    let new = metrics(u64::MAX, 0, 0, (0, 0, 0));
    let d = compare_metrics(&old, &new);
    assert_eq!(d.nodes_diff, i64::MAX);
    assert_eq!(d.ways_diff, i64::MIN);
    assert_eq!(d.relations_diff, i64::MIN);
    let old = metrics(0, 0, (1 << 63) - 1, (0, 0, 0));
    let d = compare_metrics(&old, &metrics(0, 0, 0, (0, 0, 0)));
    assert_eq!(d.relations_diff, -i64::MAX);
}

#[test]
fn issues_are_counted_by_severity() {
    let issues = vec![
        issue("a", IssueSeverity::Low),
        issue("b", IssueSeverity::Critical),
        issue("c", IssueSeverity::Low),
    ];
    let c = categorize_issues(&issues);
    assert_eq!(c.len(), 2);
    assert_eq!(c.get("critical"), Some(&1));
    assert_eq!(c.get("low"), Some(&2));
    assert_eq!(c.get("high"), None);
    assert_eq!(c.get("medium"), None);
    assert!(categorize_issues(&vec![]).is_empty());
}

#[test]
fn issue_summary_lists_severities_most_severe_first() {
    assert_eq!(generate_issue_summary(&vec![]), "No issues found");
    let issues = vec![
        issue("a", IssueSeverity::Low),
        issue("b", IssueSeverity::Critical),
        issue("c", IssueSeverity::Low),
    ];
    assert_eq!(generate_issue_summary(&issues), "3 issues found: 1 critical, 2 low");
    let issues = vec![
        issue("a", IssueSeverity::Medium),
        issue("b", IssueSeverity::High),
        issue("c", IssueSeverity::Low),
        issue("d", IssueSeverity::Critical),
        issue("e", IssueSeverity::High),
    ];
    assert_eq!(
        generate_issue_summary(&issues),
        "5 issues found: 1 critical, 2 high, 1 medium, 1 low"
    );
    assert_eq!(
        generate_issue_summary(&vec![issue("a", IssueSeverity::Medium)]),
        "1 issues found: 1 medium"
    );
}

#[test]
fn cloned_report_holds_the_same() {
    let m = metrics(3, 2, 1, (1, 1, 1));
    let issues = vec![issue("a", IssueSeverity::Critical), issue("b", IssueSeverity::Low)];
    let r = QualityAnalyzer.assemble_report("id".to_string(), 5, "f", "r", &m, issues);
    let c = r.clone();
    assert_eq!(format!("{:?}", c), format!("{:?}", r));
    assert_eq!(c.issues.len(), 2);
    assert_eq!(c.recommendations, r.recommendations);
}
