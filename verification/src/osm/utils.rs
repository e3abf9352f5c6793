//! Helpers around extract files.

use vstd::prelude::*;
use vstd::string::*;
use crate::models::{IssueSeverity, QualityIssue, QualityIssueModel, QualityMetrics};
use crate::text::{decimal, decimal_text, opt_chars, tenths, tenths_text, wide_decimal_text};

verus! {

pub const SUMMARY_HEAD: &'static str = "Data contains ";

pub const SUMMARY_ELEMENTS: &'static str = " elements (";

pub const SUMMARY_NODES: &'static str = " nodes, ";

pub const SUMMARY_WAYS: &'static str = " ways, ";

pub const SUMMARY_RELATIONS: &'static str = " relations) with ";

pub const SUMMARY_COMPLETENESS: &'static str = "% completeness. ";

pub const SUMMARY_TAIL: &'static str = " critical issues found.";

/// Number of issues of critical severity in a list.
pub open spec fn critical_count(issues: Seq<QualityIssueModel>) -> nat
    decreases issues.len(),
{
    if issues.len() == 0 {
        0
    } else {
        critical_count(issues.drop_last()) + if issues.last().severity
            == IssueSeverity::Critical {
            1nat
        } else {
            0nat
        }
    }
}

/// The one-sentence summary of a report: the element counts, the
/// completeness with one decimal place, and the number of critical issues.
pub open spec fn summary_text(m: QualityMetrics, issues: Seq<QualityIssueModel>) -> Seq<char> {
    SUMMARY_HEAD@ + decimal(m.total_elements()) + SUMMARY_ELEMENTS@ + decimal(
        m.total_nodes as nat,
    ) + SUMMARY_NODES@ + decimal(m.total_ways as nat) + SUMMARY_WAYS@ + decimal(
        m.total_relations as nat,
    ) + SUMMARY_RELATIONS@ + tenths(m.completeness_score as nat) + SUMMARY_COMPLETENESS@
        + decimal(critical_count(issues)) + SUMMARY_TAIL@
}

fn count_critical(issues: &Vec<QualityIssue>) -> (n: usize)
    ensures
        n as nat == critical_count(issues.deep_view()),
{
    let ghost models = issues.deep_view();
    let mut n: usize = 0;
    let mut i: usize = 0;
    assert(models.take(0) =~= Seq::empty());
    while i < issues.len()
        invariant
            i <= issues.len(),
            models == issues.deep_view(),
            n as nat == critical_count(models.take(i as int)),
            n <= i,
        decreases issues.len() - i,
    {
        proof {
            let next = models.take(i + 1);
            assert(next.drop_last() =~= models.take(i as int));
            assert(next.last() == issues[i as int].deep_view());
        }
        match issues[i].severity {
            IssueSeverity::Critical => {
                n += 1;
            },
            _ => {},
        }
        i += 1;
    }
    assert(models.take(i as int) =~= models);
    n
}

/// Generates the summary sentence of a quality report.
pub fn generate_summary(metrics: &QualityMetrics, issues: &Vec<QualityIssue>) -> (s: String)
    ensures
        s@ == summary_text(*metrics, issues.deep_view()),
{
    let total: u128 = metrics.total_nodes as u128 + metrics.total_ways as u128
        + metrics.total_relations as u128;
    let critical = count_critical(issues);
    let mut s = String::from_str(SUMMARY_HEAD);
    s.append(wide_decimal_text(total).as_str());
    s.append(SUMMARY_ELEMENTS);
    s.append(decimal_text(metrics.total_nodes).as_str());
    s.append(SUMMARY_NODES);
    s.append(decimal_text(metrics.total_ways).as_str());
    s.append(SUMMARY_WAYS);
    s.append(decimal_text(metrics.total_relations).as_str());
    s.append(SUMMARY_RELATIONS);
    s.append(tenths_text(metrics.completeness_score as u64).as_str());
    s.append(SUMMARY_COMPLETENESS);
    s.append(decimal_text(critical as u64).as_str());
    s.append(SUMMARY_TAIL);
    s
}

/// A calendar date as it stands in file names: four digits, two digits and
/// two digits, with hyphens between them.
pub const DATE_PATTERN: &'static str = "\\d{4}-\\d{2}-\\d{2}";

/// The leftmost match of a regular expression in a text, as the `regex`
/// crate finds it; `None` where the pattern does not compile or nothing
/// matches.
pub uninterp spec fn first_match(pattern: Seq<char>, text: Seq<char>) -> Option<Seq<char>>;

/// Calls `regex::Regex::new` on the pattern and `Regex::find` on the text.
/// The result is the text of the leftmost match: it depends on the two
/// arguments alone. A pattern that does not compile gives `None`.
#[verifier::external_body]
fn find_first(pattern: &str, text: &str) -> (found: Option<String>)
    ensures
        opt_chars(found) == first_match(pattern@, text@),
{
    regex::Regex::new(pattern).ok()?.find(text).map(|m| m.as_str().to_string())
}

/// Extracts the first calendar date from a file name.
pub fn extract_timestamp_from_filename(filename: &str) -> (date: Option<String>)
    ensures
        opt_chars(date) == first_match(DATE_PATTERN@, filename@),
{
    find_first(DATE_PATTERN, filename)
}

} // verus!
