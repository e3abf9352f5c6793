//! Quality scoring: issues derived from metrics, the numeric score and the
//! recommendations, all pure functions of their arguments.

use vstd::prelude::*;
use vstd::string::*;
use crate::error::RiemapError;
use crate::clock::now_millis;
use crate::ids::fresh_id;
use crate::models::{
    IssueSeverity, QualityIssue, QualityIssueModel, QualityMetrics, QualityReport,
    QualityReportModel, Timestamp,
};
use crate::osm::utils::{generate_summary, summary_text};
use crate::text::{decimal, decimal_text, tenths, tenths_text};

pub mod utils;

verus! {

/// Scores are counted in hundredths of a point, so 10 000 is 100 points.
pub const MAX_SCORE: u32 = 10_000;

/// Score before any deduction.
pub const BASE_SCORE: u32 = 10_000;

/// Deduction per geometry error: 2 points.
pub const GEOMETRY_ERROR_WEIGHT: u32 = 200;

/// Deduction per topology error: 1.5 points.
pub const TOPOLOGY_ERROR_WEIGHT: u32 = 150;

/// Deduction per tag error: 1 point.
pub const TAG_ERROR_WEIGHT: u32 = 100;

/// Deduction per issue, by severity: 20, 10, 5 and 1 points.
pub const CRITICAL_PENALTY: u32 = 2_000;

pub const HIGH_PENALTY: u32 = 1_000;

pub const MEDIUM_PENALTY: u32 = 500;

pub const LOW_PENALTY: u32 = 100;

/// Bonus per tenth of a percent of completeness: 0.3 points per percent.
pub const COMPLETENESS_BONUS: u32 = 3;

/// A tagging rate below one in this many is reported.
pub const LOW_TAGGING_ONE_IN: u64 = 10;

/// Fewer ways than one per this many nodes is reported.
pub const NODES_PER_WAY: u64 = 100;

/// Completeness below this many tenths of a percent draws a recommendation.
pub const LOW_COMPLETENESS: u32 = 500;

pub const LOW_TAGGING_RATE: &'static str = "low_tagging_rate";

pub const LOW_WAY_DENSITY: &'static str = "low_way_density";

pub const HIGH_RELATION_RATIO: &'static str = "high_relation_ratio";

pub const GEOMETRY_ERRORS: &'static str = "geometry_errors";

pub const TOPOLOGY_ERRORS: &'static str = "topology_errors";

pub const LOW_TAGGING_PREFIX: &'static str = "Very low tagging rate: ";

pub const PERCENT: &'static str = "%";

pub const LOW_TAGGING_FIX: &'static str =
    "Add more descriptive tags to features to improve data usability";

pub const LOW_WAY_DENSITY_TEXT: &'static str = "Unusually low number of ways compared to nodes";

pub const LOW_WAY_DENSITY_FIX: &'static str =
    "Verify that linear features (roads, paths) are properly mapped";

pub const HIGH_RELATION_TEXT: &'static str = "More relations than ways, which is unusual";

pub const HIGH_RELATION_FIX: &'static str = "Review relation usage and ensure they are necessary";

pub const GEOMETRY_ERRORS_SUFFIX: &'static str = " geometry errors found";

pub const GEOMETRY_ERRORS_FIX: &'static str =
    "Review and fix geometry errors, particularly invalid coordinates";

pub const TOPOLOGY_ERRORS_SUFFIX: &'static str = " topology errors found";

pub const TOPOLOGY_ERRORS_FIX: &'static str =
    "Check way topology - ensure ways have at least 2 nodes";

pub const IMPROVE_COMPLETENESS: &'static str =
    "Consider improving tagging completeness by adding more descriptive tags to features";

pub const INCREASE_TAGGING: &'static str = "Increase feature tagging to improve data usability";

pub const LOOKS_GOOD: &'static str =
    "Data quality looks good! Continue maintaining current standards.";

/// Share of tagged elements in tenths of a percent, rounded down; 0 for an
/// empty data set.
pub open spec fn tagging_rate(m: QualityMetrics) -> nat {
    m.counted_completeness()
}

/// Fewer than one element in ten is tagged.
pub open spec fn has_low_tagging_rate(m: QualityMetrics) -> bool {
    m.total_elements() > 0 && LOW_TAGGING_ONE_IN * m.tagged_elements() < m.total_elements()
}

/// There are fewer ways than whole hundreds of nodes.
pub open spec fn has_low_way_density(m: QualityMetrics) -> bool {
    m.total_ways < m.total_nodes / NODES_PER_WAY
}

/// The issue of a low tagging rate, which states the rate.
pub open spec fn low_tagging_issue(m: QualityMetrics) -> QualityIssueModel {
    QualityIssue::general(
        LOW_TAGGING_RATE@,
        IssueSeverity::High,
        LOW_TAGGING_PREFIX@ + tenths(tagging_rate(m)) + PERCENT@,
        LOW_TAGGING_FIX@,
    )
}

/// The issue of few ways per node.
pub open spec fn low_way_density_issue() -> QualityIssueModel {
    QualityIssue::general(
        LOW_WAY_DENSITY@,
        IssueSeverity::Medium,
        LOW_WAY_DENSITY_TEXT@,
        LOW_WAY_DENSITY_FIX@,
    )
}

/// The issue of more relations than ways.
pub open spec fn high_relation_issue() -> QualityIssueModel {
    QualityIssue::general(
        HIGH_RELATION_RATIO@,
        IssueSeverity::Medium,
        HIGH_RELATION_TEXT@,
        HIGH_RELATION_FIX@,
    )
}

/// The issue of geometry errors, which states their number.
pub open spec fn geometry_errors_issue(m: QualityMetrics) -> QualityIssueModel {
    QualityIssue::general(
        GEOMETRY_ERRORS@,
        IssueSeverity::High,
        decimal(m.geometry_errors as nat) + GEOMETRY_ERRORS_SUFFIX@,
        GEOMETRY_ERRORS_FIX@,
    )
}

/// The issue of topology errors, which states their number.
pub open spec fn topology_errors_issue(m: QualityMetrics) -> QualityIssueModel {
    QualityIssue::general(
        TOPOLOGY_ERRORS@,
        IssueSeverity::High,
        decimal(m.topology_errors as nat) + TOPOLOGY_ERRORS_SUFFIX@,
        TOPOLOGY_ERRORS_FIX@,
    )
}

/// `s` followed by `x` where `present` holds, else `s`.
pub open spec fn with_if<T>(s: Seq<T>, present: bool, x: T) -> Seq<T> {
    if present {
        s.push(x)
    } else {
        s
    }
}

/// The issues of the completeness pass: the tagging rate, then the way
/// density.
pub open spec fn completeness_issues(m: QualityMetrics) -> Seq<QualityIssueModel> {
    with_if(
        with_if(Seq::empty(), has_low_tagging_rate(m), low_tagging_issue(m)),
        has_low_way_density(m),
        low_way_density_issue(),
    )
}

/// The issues of the pattern pass: the relation ratio, then the geometry
/// errors, then the topology errors.
pub open spec fn pattern_issues(m: QualityMetrics) -> Seq<QualityIssueModel> {
    with_if(
        with_if(
            with_if(Seq::empty(), m.total_relations > m.total_ways, high_relation_issue()),
            m.geometry_errors > 0,
            geometry_errors_issue(m),
        ),
        m.topology_errors > 0,
        topology_errors_issue(m),
    )
}

/// Quality analyzer for extract metrics.
#[derive(Debug, Clone, Copy)]
pub struct QualityAnalyzer;

impl QualityAnalyzer {
    /// Issues that follow from how many elements are tagged and how many
    /// ways there are per node.
    pub fn analyze_completeness(&self, metrics: &QualityMetrics) -> (issues: Vec<QualityIssue>)
        ensures
            issues.deep_view() == completeness_issues(*metrics),
    {
        let mut issues: Vec<QualityIssue> = Vec::new();
        assert(issues.deep_view() =~= Seq::empty());
        let total: u128 = metrics.total_nodes as u128 + metrics.total_ways as u128
            + metrics.total_relations as u128;
        let tagged: u128 = metrics.tagged_nodes as u128 + metrics.tagged_ways as u128
            + metrics.tagged_relations as u128;
        if total > 0 && (LOW_TAGGING_ONE_IN as u128) * tagged < total {
            let rate: u128 = 1000 * tagged / total;
            assert(rate < 100) by (nonlinear_arith)
                requires
                    rate as int == (1000 * tagged as int) / (total as int),
                    10 * tagged < total,
                    total > 0,
            ;
            let mut description = String::from_str(LOW_TAGGING_PREFIX);
            let shown = tenths_text(rate as u64);
            description.append(shown.as_str());
            description.append(PERCENT);
            let issue = QualityIssue::unlocated(
                String::from_str(LOW_TAGGING_RATE),
                IssueSeverity::High,
                description,
                String::from_str(LOW_TAGGING_FIX),
            );
            let ghost before = issues.deep_view();
            issues.push(issue);
            assert(issues.deep_view() =~= before.push(low_tagging_issue(*metrics)));
        }
        if metrics.total_ways < metrics.total_nodes / NODES_PER_WAY {
            let issue = QualityIssue::unlocated(
                String::from_str(LOW_WAY_DENSITY),
                IssueSeverity::Medium,
                String::from_str(LOW_WAY_DENSITY_TEXT),
                String::from_str(LOW_WAY_DENSITY_FIX),
            );
            let ghost before = issues.deep_view();
            issues.push(issue);
            assert(issues.deep_view() =~= before.push(low_way_density_issue()));
        }
        issues
    }

    /// Issues that follow from suspicious ratios and from the error counts.
    pub fn analyze_patterns(&self, metrics: &QualityMetrics) -> (issues: Vec<QualityIssue>)
        ensures
            issues.deep_view() == pattern_issues(*metrics),
    {
        let mut issues: Vec<QualityIssue> = Vec::new();
        assert(issues.deep_view() =~= Seq::empty());
        if metrics.total_relations > metrics.total_ways {
            let issue = QualityIssue::unlocated(
                String::from_str(HIGH_RELATION_RATIO),
                IssueSeverity::Medium,
                String::from_str(HIGH_RELATION_TEXT),
                String::from_str(HIGH_RELATION_FIX),
            );
            let ghost before = issues.deep_view();
            issues.push(issue);
            assert(issues.deep_view() =~= before.push(high_relation_issue()));
        }
        if metrics.geometry_errors > 0 {
            let mut description = decimal_text(metrics.geometry_errors);
            description.append(GEOMETRY_ERRORS_SUFFIX);
            let issue = QualityIssue::unlocated(
                String::from_str(GEOMETRY_ERRORS),
                IssueSeverity::High,
                description,
                String::from_str(GEOMETRY_ERRORS_FIX),
            );
            let ghost before = issues.deep_view();
            issues.push(issue);
            assert(issues.deep_view() =~= before.push(geometry_errors_issue(*metrics)));
        }
        if metrics.topology_errors > 0 {
            let mut description = decimal_text(metrics.topology_errors);
            description.append(TOPOLOGY_ERRORS_SUFFIX);
            let issue = QualityIssue::unlocated(
                String::from_str(TOPOLOGY_ERRORS),
                IssueSeverity::High,
                description,
                String::from_str(TOPOLOGY_ERRORS_FIX),
            );
            let ghost before = issues.deep_view();
            issues.push(issue);
            assert(issues.deep_view() =~= before.push(topology_errors_issue(*metrics)));
        }
        issues
    }
}

/// Deduction for one issue of the given severity.
pub open spec fn severity_penalty(severity: IssueSeverity) -> nat {
    match severity {
        IssueSeverity::Critical => CRITICAL_PENALTY as nat,
        IssueSeverity::High => HIGH_PENALTY as nat,
        IssueSeverity::Medium => MEDIUM_PENALTY as nat,
        IssueSeverity::Low => LOW_PENALTY as nat,
    }
}

/// Sum of the deductions for all issues of a list.
pub open spec fn total_penalty(issues: Seq<QualityIssueModel>) -> nat
    decreases issues.len(),
{
    if issues.len() == 0 {
        0
    } else {
        total_penalty(issues.drop_last()) + severity_penalty(issues.last().severity)
    }
}

/// Deduction for the error counts of the metrics.
pub open spec fn error_deduction(m: QualityMetrics) -> nat {
    (m.geometry_errors * GEOMETRY_ERROR_WEIGHT + m.topology_errors * TOPOLOGY_ERROR_WEIGHT
        + m.tag_errors * TAG_ERROR_WEIGHT) as nat
}

/// The score before it is clamped: the base, less the deductions for errors
/// and issues, plus the bonus for completeness.
pub open spec fn raw_score(m: QualityMetrics, issues: Seq<QualityIssueModel>) -> int {
    BASE_SCORE - error_deduction(m) - total_penalty(issues) + m.completeness_score
        * COMPLETENESS_BONUS
}

/// The score in hundredths of a point: the raw score clamped to 0 ..= 100
/// points.
pub open spec fn quality_score(m: QualityMetrics, issues: Seq<QualityIssueModel>) -> int {
    let raw = raw_score(m, issues);
    if raw < 0 {
        0
    } else if raw > MAX_SCORE {
        MAX_SCORE as int
    } else {
        raw
    }
}

/// Recommendations that follow from the metrics alone: completeness first,
/// then geometry errors, then topology errors.
pub open spec fn threshold_advice(m: QualityMetrics) -> Seq<Seq<char>> {
    with_if(
        with_if(
            with_if(Seq::empty(), m.completeness_score < LOW_COMPLETENESS, IMPROVE_COMPLETENESS@),
            m.geometry_errors > 0,
            GEOMETRY_ERRORS_FIX@,
        ),
        m.topology_errors > 0,
        TOPOLOGY_ERRORS_FIX@,
    )
}

/// What an issue of the given type adds to the recommendations.
pub open spec fn advice_for(issue_type: Seq<char>) -> Seq<Seq<char>> {
    if issue_type == LOW_TAGGING_RATE@ {
        seq![INCREASE_TAGGING@]
    } else if issue_type == LOW_WAY_DENSITY@ {
        seq![LOW_WAY_DENSITY_FIX@]
    } else {
        Seq::empty()
    }
}

/// Recommendations that follow from the issues, in the order of the issues.
pub open spec fn issue_advice(issues: Seq<QualityIssueModel>) -> Seq<Seq<char>>
    decreases issues.len(),
{
    if issues.len() == 0 {
        Seq::empty()
    } else {
        issue_advice(issues.drop_last()) + advice_for(issues.last().issue_type)
    }
}

/// All recommendations; where nothing is to be recommended, the one
/// sentence that says so.
pub open spec fn recommendations(m: QualityMetrics, issues: Seq<QualityIssueModel>) -> Seq<
    Seq<char>,
> {
    let found = threshold_advice(m) + issue_advice(issues);
    if found.len() == 0 {
        seq![LOOKS_GOOD@]
    } else {
        found
    }
}

fn penalty_of(severity: IssueSeverity) -> (p: u32)
    ensures
        p as nat == severity_penalty(severity),
        p <= CRITICAL_PENALTY,
{
    match severity {
        IssueSeverity::Critical => CRITICAL_PENALTY,
        IssueSeverity::High => HIGH_PENALTY,
        IssueSeverity::Medium => MEDIUM_PENALTY,
        IssueSeverity::Low => LOW_PENALTY,
    }
}

fn weighted(count: u64, weight: u32) -> (r: u128)
    ensures
        r == count * weight,
        r <= u64::MAX * u32::MAX,
{
    assert(count * weight <= u64::MAX * u32::MAX) by (nonlinear_arith)
        requires
            0 <= count <= u64::MAX,
            0 <= weight <= u32::MAX,
    ;
    count as u128 * weight as u128
}

impl QualityAnalyzer {
    /// The quality score in hundredths of a point, between 0 and
    /// `MAX_SCORE`.
    pub fn calculate_quality_score(&self, metrics: &QualityMetrics, issues: &Vec<QualityIssue>) -> (score: u32)
        ensures
            score as int == quality_score(*metrics, issues.deep_view()),
            score <= MAX_SCORE,
    {
        let ghost models = issues.deep_view();
        let mut penalty: u128 = 0;
        let mut i: usize = 0;
        assert(models.take(0) =~= Seq::empty());
        while i < issues.len()
            invariant
                i <= issues.len(),
                models == issues.deep_view(),
                penalty as nat == total_penalty(models.take(i as int)),
                penalty <= i * CRITICAL_PENALTY,
            decreases issues.len() - i,
        {
            let p = penalty_of(issues[i].severity);
            proof {
                let next = models.take(i + 1);
                assert(next.drop_last() =~= models.take(i as int));
                assert(next.last() == issues[i as int].deep_view());
            }
            penalty = penalty + p as u128;
            i += 1;
        }
        assert(models.take(i as int) =~= models);
        let deduction: u128 = weighted(metrics.geometry_errors, GEOMETRY_ERROR_WEIGHT) + weighted(
            metrics.topology_errors,
            TOPOLOGY_ERROR_WEIGHT,
        ) + weighted(metrics.tag_errors, TAG_ERROR_WEIGHT) + penalty;
        let credit: u128 = BASE_SCORE as u128 + weighted(
            metrics.completeness_score as u64,
            COMPLETENESS_BONUS,
        );
        if deduction >= credit {
            0
        } else if credit - deduction > MAX_SCORE as u128 {
            MAX_SCORE
        } else {
            (credit - deduction) as u32
        }
    }

    /// Recommendations in a fixed order: those drawn from completeness, then
    /// those drawn from the error counts, then one per issue that calls for
    /// one. Where there is none, the single sentence `LOOKS_GOOD`.
    pub fn generate_recommendations(&self, metrics: &QualityMetrics, issues: &Vec<QualityIssue>) -> (out: Vec<String>)
        ensures
            out.deep_view() == recommendations(*metrics, issues.deep_view()),
    {
        let mut out: Vec<String> = Vec::new();
        assert(out.deep_view() =~= Seq::empty());
        if metrics.completeness_score < LOW_COMPLETENESS {
            let ghost before = out.deep_view();
            out.push(String::from_str(IMPROVE_COMPLETENESS));
            assert(out.deep_view() =~= before.push(IMPROVE_COMPLETENESS@));
        }
        if metrics.geometry_errors > 0 {
            let ghost before = out.deep_view();
            out.push(String::from_str(GEOMETRY_ERRORS_FIX));
            assert(out.deep_view() =~= before.push(GEOMETRY_ERRORS_FIX@));
        }
        if metrics.topology_errors > 0 {
            let ghost before = out.deep_view();
            out.push(String::from_str(TOPOLOGY_ERRORS_FIX));
            assert(out.deep_view() =~= before.push(TOPOLOGY_ERRORS_FIX@));
        }
        let ghost models = issues.deep_view();
        let low_tagging = String::from_str(LOW_TAGGING_RATE);
        let low_density = String::from_str(LOW_WAY_DENSITY);
        let mut i: usize = 0;
        assert(models.take(0) =~= Seq::empty());
        assert(out.deep_view() =~= threshold_advice(*metrics) + issue_advice(models.take(0)));
        while i < issues.len()
            invariant
                i <= issues.len(),
                models == issues.deep_view(),
                low_tagging@ == LOW_TAGGING_RATE@,
                low_density@ == LOW_WAY_DENSITY@,
                out.deep_view() == threshold_advice(*metrics) + issue_advice(
                    models.take(i as int),
                ),
            decreases issues.len() - i,
        {
            proof {
                let next = models.take(i + 1);
                assert(next.drop_last() =~= models.take(i as int));
                assert(next.last() == issues[i as int].deep_view());
            }
            let ghost before = out.deep_view();
            if issues[i].issue_type == low_tagging {
                out.push(String::from_str(INCREASE_TAGGING));
                assert(out.deep_view() =~= before.push(INCREASE_TAGGING@));
            } else if issues[i].issue_type == low_density {
                out.push(String::from_str(LOW_WAY_DENSITY_FIX));
                assert(out.deep_view() =~= before.push(LOW_WAY_DENSITY_FIX@));
            }
            assert(out.deep_view() =~= threshold_advice(*metrics) + issue_advice(
                models.take(i + 1),
            ));
            i += 1;
        }
        assert(models.take(i as int) =~= models);
        if out.len() == 0 {
            let ghost before = out.deep_view();
            out.push(String::from_str(LOOKS_GOOD));
            assert(out.deep_view() =~= before.push(LOOKS_GOOD@));
        }
        out
    }
}

/// The issues handed in, then those of the completeness pass, then those of
/// the pattern pass.
pub open spec fn all_issues(m: QualityMetrics, reported: Seq<QualityIssueModel>) -> Seq<
    QualityIssueModel,
> {
    reported + completeness_issues(m) + pattern_issues(m)
}

/// Outcome of one scoring run.
#[derive(Debug)]
pub struct QualityAssessment {
    /// Hundredths of a point, 0 ..= `MAX_SCORE`.
    pub score: u32,
    pub issues: Vec<QualityIssue>,
    pub recommendations: Vec<String>,
}

/// The report that the given identity, instant, references, metrics and
/// issues make up.
pub open spec fn report_model(
    id: Seq<char>,
    created_at: Timestamp,
    data_file_id: Seq<char>,
    region_id: Seq<char>,
    m: QualityMetrics,
    issues: Seq<QualityIssueModel>,
) -> QualityReportModel {
    QualityReportModel {
        id,
        data_file_id,
        region_id,
        created_at,
        metrics: m,
        issues,
        summary: summary_text(m, issues),
        recommendations: recommendations(m, issues),
    }
}

impl QualityAnalyzer {
    /// Runs both passes over the metrics, appends what they find to the
    /// issues handed in, and scores the metrics against the whole list.
    pub fn score(&self, metrics: &QualityMetrics, issues: Vec<QualityIssue>) -> (a:
        QualityAssessment)
        ensures
            a.issues.deep_view() == all_issues(*metrics, issues.deep_view()),
            a.score as int == quality_score(*metrics, a.issues.deep_view()),
            a.score <= MAX_SCORE,
            a.recommendations.deep_view() == recommendations(*metrics, a.issues.deep_view()),
    {
        let ghost reported = issues.deep_view();
        let mut all = issues;
        let mut found = self.analyze_completeness(metrics);
        let ghost first = found.deep_view();
        all.append(&mut found);
        assert(all.deep_view() =~= reported + first);
        let mut found = self.analyze_patterns(metrics);
        let ghost second = found.deep_view();
        all.append(&mut found);
        assert(all.deep_view() =~= reported + first + second);
        let score = self.calculate_quality_score(metrics, &all);
        let recommendations = self.generate_recommendations(metrics, &all);
        QualityAssessment { score, issues: all, recommendations }
    }

    /// Builds the report for the given identity and instant.
    pub fn assemble_report(
        &self,
        id: String,
        created_at: Timestamp,
        data_file_id: &str,
        region_id: &str,
        metrics: &QualityMetrics,
        issues: Vec<QualityIssue>,
    ) -> (report: QualityReport)
        ensures
            report.deep_view() == report_model(
                id@,
                created_at,
                data_file_id@,
                region_id@,
                *metrics,
                issues.deep_view(),
            ),
    {
        let summary = generate_summary(metrics, &issues);
        let recommendations = self.generate_recommendations(metrics, &issues);
        QualityReport {
            id,
            data_file_id: String::from_str(data_file_id),
            region_id: String::from_str(region_id),
            created_at,
            metrics: *metrics,
            issues,
            summary,
            recommendations,
        }
    }

    /// Builds the report under a freshly drawn identity, stamped with the
    /// current time. Always succeeds.
    pub fn generate_report(
        &self,
        data_file_id: &str,
        region_id: &str,
        metrics: &QualityMetrics,
        issues: Vec<QualityIssue>,
    ) -> (r: Result<QualityReport, RiemapError>)
        ensures
            r is Ok,
            r->Ok_0.deep_view() == report_model(
                r->Ok_0.id@,
                r->Ok_0.created_at,
                data_file_id@,
                region_id@,
                *metrics,
                issues.deep_view(),
            ),
    {
        let id = fresh_id();
        let created_at = now_millis();
        Ok(self.assemble_report(id, created_at, data_file_id, region_id, metrics, issues))
    }
}

/// With no issues, no errors and full completeness the score is exactly the
/// maximum.
pub proof fn score_of_flawless_metrics(m: QualityMetrics)
    requires
        m.geometry_errors == 0,
        m.topology_errors == 0,
        m.tag_errors == 0,
        m.completeness_score == crate::models::FULL_COMPLETENESS,
    ensures
        quality_score(m, Seq::empty()) == MAX_SCORE,
        quality_score(m, all_issues(m, Seq::empty())) == MAX_SCORE,
{
    let none = Seq::<QualityIssueModel>::empty();
    let first = with_if(none, has_low_tagging_rate(m), low_tagging_issue(m));
    let second = with_if(none, m.total_relations > m.total_ways, high_relation_issue());
    penalty_of_optional(none, has_low_tagging_rate(m), low_tagging_issue(m));
    penalty_of_optional(first, has_low_way_density(m), low_way_density_issue());
    penalty_of_optional(none, m.total_relations > m.total_ways, high_relation_issue());
    penalty_of_optional(second, false, geometry_errors_issue(m));
    penalty_of_optional(second, false, topology_errors_issue(m));
    penalty_of_concat(none, completeness_issues(m));
    penalty_of_concat(none + completeness_issues(m), pattern_issues(m));
}

/// The penalty of two lists joined is the sum of their penalties.
pub proof fn penalty_of_concat(a: Seq<QualityIssueModel>, b: Seq<QualityIssueModel>)
    ensures
        total_penalty(a + b) == total_penalty(a) + total_penalty(b),
    decreases b.len(),
{
    if b.len() == 0 {
        assert(a + b =~= a);
    } else {
        penalty_of_concat(a, b.drop_last());
        assert((a + b).drop_last() =~= a + b.drop_last());
    }
}

/// An issue that may or may not be appended adds its penalty where it is.
pub proof fn penalty_of_optional(s: Seq<QualityIssueModel>, present: bool, x: QualityIssueModel)
    ensures
        total_penalty(with_if(s, present, x)) == total_penalty(s) + if present {
            severity_penalty(x.severity)
        } else {
            0
        },
{
    if present {
        assert(s.push(x).drop_last() =~= s);
    }
}

/// The score never leaves 0 ..= 100 points, and it is 0 where the
/// deductions reach the base score plus the completeness bonus. With fifty
/// geometry errors the deductions for errors alone use up the base score,
/// so the score is then 0 unless the bonus outweighs what else is deducted.
pub proof fn score_is_clamped(m: QualityMetrics, issues: Seq<QualityIssueModel>)
    ensures
        0 <= quality_score(m, issues) <= MAX_SCORE,
        error_deduction(m) + total_penalty(issues) >= BASE_SCORE + m.completeness_score
            * COMPLETENESS_BONUS ==> quality_score(m, issues) == 0,
        m.geometry_errors == 50 && m.completeness_score * COMPLETENESS_BONUS
            <= m.topology_errors * TOPOLOGY_ERROR_WEIGHT + m.tag_errors * TAG_ERROR_WEIGHT
            + total_penalty(issues) ==> quality_score(m, issues) == 0,
{
}

} // verus!
