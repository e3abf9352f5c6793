//! Helpers around quality metrics and issue lists.

use vstd::prelude::*;
use vstd::string::*;
use vstd::hash_map::StringHashMap;
use crate::models::{
    IssueSeverity, QualityIssue, QualityIssueModel, QualityMetrics, QualityMetricsDiff,
};
use crate::quality::with_if;
use crate::text::{decimal, decimal_text};

verus! {

pub const HIGHWAYS: &'static str = "highways";

pub const BUILDINGS: &'static str = "buildings";

pub const NATURAL_FEATURES: &'static str = "natural_features";

pub const AMENITIES: &'static str = "amenities";

pub const WATER_FEATURES: &'static str = "water_features";

pub const BOUNDARIES: &'static str = "boundaries";

pub const CRITICAL: &'static str = "critical";

pub const HIGH: &'static str = "high";

pub const MEDIUM: &'static str = "medium";

pub const LOW: &'static str = "low";

pub const NO_ISSUES: &'static str = "No issues found";

pub const ISSUES_FOUND: &'static str = " issues found: ";

pub const SEPARATOR: &'static str = ", ";

pub const SPACE: &'static str = " ";

/// `new - old`, held to the range of `i64`.
pub open spec fn clamped_diff(new: int, old: int) -> int {
    let d = new - old;
    if d > i64::MAX {
        i64::MAX as int
    } else if d < i64::MIN {
        i64::MIN as int
    } else {
        d
    }
}

fn diff(new: u128, old: u128) -> (d: i64)
    ensures
        d == clamped_diff(new as int, old as int),
{
    if new >= old {
        let up = new - old;
        if up > i64::MAX as u128 {
            i64::MAX
        } else {
            up as i64
        }
    } else {
        let down = old - new;
        if down > i64::MAX as u128 {
            i64::MIN
        } else {
            -(down as i64)
        }
    }
}

/// Sum of the three error counts.
pub open spec fn error_total(m: QualityMetrics) -> int {
    m.geometry_errors + m.topology_errors + m.tag_errors
}

/// The change of each feature category, new minus old, in the order of the
/// fields of the distribution.
pub open spec fn feature_changes(old: QualityMetrics, new: QualityMetrics) -> Seq<
    (Seq<char>, i64),
> {
    let o = old.feature_distribution;
    let n = new.feature_distribution;
    seq![
        (HIGHWAYS@, clamped_diff(n.highways as int, o.highways as int) as i64),
        (BUILDINGS@, clamped_diff(n.buildings as int, o.buildings as int) as i64),
        (
            NATURAL_FEATURES@,
            clamped_diff(n.natural_features as int, o.natural_features as int) as i64,
        ),
        (AMENITIES@, clamped_diff(n.amenities as int, o.amenities as int) as i64),
        (WATER_FEATURES@, clamped_diff(n.water_features as int, o.water_features as int) as i64),
        (BOUNDARIES@, clamped_diff(n.boundaries as int, o.boundaries as int) as i64),
    ]
}

/// Compares the metrics of two versions: each difference is new minus old,
/// held to the range of `i64`.
pub fn compare_metrics(old: &QualityMetrics, new: &QualityMetrics) -> (d: QualityMetricsDiff)
    ensures
        d.nodes_diff == clamped_diff(new.total_nodes as int, old.total_nodes as int),
        d.ways_diff == clamped_diff(new.total_ways as int, old.total_ways as int),
        d.relations_diff == clamped_diff(new.total_relations as int, old.total_relations as int),
        d.completeness_diff == new.completeness_score - old.completeness_score,
        d.errors_diff == clamped_diff(error_total(*new), error_total(*old)),
        d.feature_changes.deep_view() == feature_changes(*old, *new),
{
    let o = &old.feature_distribution;
    let n = &new.feature_distribution;
    let mut changes: Vec<(String, i64)> = Vec::new();
    changes.push((String::from_str(HIGHWAYS), diff(n.highways as u128, o.highways as u128)));
    changes.push((String::from_str(BUILDINGS), diff(n.buildings as u128, o.buildings as u128)));
    changes.push(
        (
            String::from_str(NATURAL_FEATURES),
            diff(n.natural_features as u128, o.natural_features as u128),
        ),
    );
    changes.push((String::from_str(AMENITIES), diff(n.amenities as u128, o.amenities as u128)));
    changes.push(
        (
            String::from_str(WATER_FEATURES),
            diff(n.water_features as u128, o.water_features as u128),
        ),
    );
    changes.push((String::from_str(BOUNDARIES), diff(n.boundaries as u128, o.boundaries as u128)));
    assert(changes.deep_view() =~= feature_changes(*old, *new));
    let new_errors: u128 = new.geometry_errors as u128 + new.topology_errors as u128
        + new.tag_errors as u128;
    let old_errors: u128 = old.geometry_errors as u128 + old.topology_errors as u128
        + old.tag_errors as u128;
    QualityMetricsDiff {
        nodes_diff: diff(new.total_nodes as u128, old.total_nodes as u128),
        ways_diff: diff(new.total_ways as u128, old.total_ways as u128),
        relations_diff: diff(new.total_relations as u128, old.total_relations as u128),
        completeness_diff: new.completeness_score as i64 - old.completeness_score as i64,
        errors_diff: diff(new_errors, old_errors),
        feature_changes: changes,
    }
}

/// Number of issues of the given severity in a list.
pub open spec fn count_of(issues: Seq<QualityIssueModel>, severity: IssueSeverity) -> nat
    decreases issues.len(),
{
    if issues.len() == 0 {
        0
    } else {
        count_of(issues.drop_last(), severity) + if issues.last().severity == severity {
            1nat
        } else {
            0nat
        }
    }
}

/// `m` with `name` bound to `n` where `n` is positive, else `m`.
pub open spec fn with_count(m: Map<Seq<char>, usize>, name: Seq<char>, n: nat) -> Map<
    Seq<char>,
    usize,
> {
    if n > 0 {
        m.insert(name, n as usize)
    } else {
        m
    }
}

/// The number of issues under the name of each severity that occurs.
pub open spec fn categories(issues: Seq<QualityIssueModel>) -> Map<Seq<char>, usize> {
    with_count(
        with_count(
            with_count(
                with_count(Map::empty(), CRITICAL@, count_of(issues, IssueSeverity::Critical)),
                HIGH@,
                count_of(issues, IssueSeverity::High),
            ),
            MEDIUM@,
            count_of(issues, IssueSeverity::Medium),
        ),
        LOW@,
        count_of(issues, IssueSeverity::Low),
    )
}

/// Counts of critical, high, medium and low issues, in that order.
fn severity_counts(issues: &Vec<QualityIssue>) -> (c: (usize, usize, usize, usize))
    ensures
        c.0 as nat == count_of(issues.deep_view(), IssueSeverity::Critical),
        c.1 as nat == count_of(issues.deep_view(), IssueSeverity::High),
        c.2 as nat == count_of(issues.deep_view(), IssueSeverity::Medium),
        c.3 as nat == count_of(issues.deep_view(), IssueSeverity::Low),
{
    let ghost models = issues.deep_view();
    let mut critical: usize = 0;
    let mut high: usize = 0;
    let mut medium: usize = 0;
    let mut low: usize = 0;
    let mut i: usize = 0;
    assert(models.take(0) =~= Seq::empty());
    while i < issues.len()
        invariant
            i <= issues.len(),
            models == issues.deep_view(),
            critical as nat == count_of(models.take(i as int), IssueSeverity::Critical),
            high as nat == count_of(models.take(i as int), IssueSeverity::High),
            medium as nat == count_of(models.take(i as int), IssueSeverity::Medium),
            low as nat == count_of(models.take(i as int), IssueSeverity::Low),
            critical + high + medium + low == i,
        decreases issues.len() - i,
    {
        proof {
            let next = models.take(i + 1);
            assert(next.drop_last() =~= models.take(i as int));
            assert(next.last() == issues[i as int].deep_view());
        }
        match issues[i].severity {
            IssueSeverity::Critical => {
                critical += 1;
            },
            IssueSeverity::High => {
                high += 1;
            },
            IssueSeverity::Medium => {
                medium += 1;
            },
            IssueSeverity::Low => {
                low += 1;
            },
        }
        i += 1;
    }
    assert(models.take(i as int) =~= models);
    (critical, high, medium, low)
}

/// Counts the issues by severity. A severity that does not occur has no
/// entry.
pub fn categorize_issues(issues: &Vec<QualityIssue>) -> (m: StringHashMap<usize>)
    ensures
        m@ == categories(issues.deep_view()),
{
    let (critical, high, medium, low) = severity_counts(issues);
    let mut m: StringHashMap<usize> = StringHashMap::new();
    if critical > 0 {
        m.insert(String::from_str(CRITICAL), critical);
    }
    if high > 0 {
        m.insert(String::from_str(HIGH), high);
    }
    if medium > 0 {
        m.insert(String::from_str(MEDIUM), medium);
    }
    if low > 0 {
        m.insert(String::from_str(LOW), low);
    }
    m
}

/// The parts of a list joined by a separator.
pub open spec fn joined(parts: Seq<Seq<char>>, separator: Seq<char>) -> Seq<char>
    decreases parts.len(),
{
    if parts.len() == 0 {
        Seq::empty()
    } else if parts.len() == 1 {
        parts[0]
    } else {
        joined(parts.drop_last(), separator) + separator + parts.last()
    }
}

/// A count followed by the name of what is counted.
pub open spec fn counted(n: nat, name: Seq<char>) -> Seq<char> {
    decimal(n) + SPACE@ + name
}

/// One part for each severity that occurs, most severe first.
pub open spec fn severity_parts(issues: Seq<QualityIssueModel>) -> Seq<Seq<char>> {
    let critical = count_of(issues, IssueSeverity::Critical);
    let high = count_of(issues, IssueSeverity::High);
    let medium = count_of(issues, IssueSeverity::Medium);
    let low = count_of(issues, IssueSeverity::Low);
    with_if(
        with_if(
            with_if(
                with_if(Seq::empty(), critical > 0, counted(critical, CRITICAL@)),
                high > 0,
                counted(high, HIGH@),
            ),
            medium > 0,
            counted(medium, MEDIUM@),
        ),
        low > 0,
        counted(low, LOW@),
    )
}

/// The sentence that sums up an issue list.
pub open spec fn issue_summary(issues: Seq<QualityIssueModel>) -> Seq<char> {
    if issues.len() == 0 {
        NO_ISSUES@
    } else {
        decimal(issues.len()) + ISSUES_FOUND@ + joined(severity_parts(issues), SEPARATOR@)
    }
}

/// Appends one part to a text that holds the parts before it, joined.
fn append_part(
    s: &mut String,
    any: bool,
    n: usize,
    name: &str,
    head: Ghost<Seq<char>>,
    parts: Ghost<Seq<Seq<char>>>,
) -> (now_any: bool)
    requires
        old(s)@ == head@ + joined(parts@, SEPARATOR@),
        any == (parts@.len() > 0),
    ensures
        final(s)@ == head@ + joined(
            with_if(parts@, n > 0, counted(n as nat, name@)),
            SEPARATOR@,
        ),
        now_any == (with_if(parts@, n > 0, counted(n as nat, name@)).len() > 0),
{
    if n > 0 {
        if any {
            s.append(SEPARATOR);
        }
        s.append(decimal_text(n as u64).as_str());
        s.append(SPACE);
        s.append(name);
        proof {
            let part = counted(n as nat, name@);
            let next = parts@.push(part);
            assert(next.drop_last() =~= parts@);
            assert(s@ =~= head@ + joined(next, SEPARATOR@));
        }
        true
    } else {
        any
    }
}

/// Sums up an issue list in one sentence: the number of issues, then the
/// number under each severity that occurs, most severe first.
pub fn generate_issue_summary(issues: &Vec<QualityIssue>) -> (s: String)
    ensures
        s@ == issue_summary(issues.deep_view()),
{
    let total = issues.len();
    if total == 0 {
        return String::from_str(NO_ISSUES);
    }
    let (critical, high, medium, low) = severity_counts(issues);
    let ghost models = issues.deep_view();
    let mut s = decimal_text(total as u64);
    s.append(ISSUES_FOUND);
    let ghost head = s@;
    let ghost none = Seq::<Seq<char>>::empty();
    assert(s@ =~= head + joined(none, SEPARATOR@));
    let any = append_part(&mut s, false, critical, CRITICAL, Ghost(head), Ghost(none));
    let ghost upto_critical = with_if(none, critical > 0, counted(critical as nat, CRITICAL@));
    let any = append_part(&mut s, any, high, HIGH, Ghost(head), Ghost(upto_critical));
    let ghost upto_high = with_if(upto_critical, high > 0, counted(high as nat, HIGH@));
    let any = append_part(&mut s, any, medium, MEDIUM, Ghost(head), Ghost(upto_high));
    let ghost upto_medium = with_if(upto_high, medium > 0, counted(medium as nat, MEDIUM@));
    let _ = append_part(&mut s, any, low, LOW, Ghost(head), Ghost(upto_medium));
    s
}

} // verus!
