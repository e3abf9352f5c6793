//! Queries over the region list.

use vstd::prelude::*;
use vstd::string::*;
use crate::models::{Region, RegionModel};
use crate::text::{has_infix, opt_chars, opt_text_is, text_contains};

verus! {

/// Criteria of a region search. A criterion that is absent admits every
/// region.
#[derive(Debug)]
pub struct SearchQuery {
    /// Text that the region's name must hold, whatever the case.
    pub q: Option<String>,
    /// Ordinal of the administrative level.
    pub admin_level: Option<u8>,
    /// Identifier of the parent.
    pub continent: Option<String>,
    /// Not looked at by the search.
    pub has_data: Option<bool>,
}

/// What a `SearchQuery` holds, with text as character sequences.
pub struct SearchQueryModel {
    pub q: Option<Seq<char>>,
    pub admin_level: Option<u8>,
    pub continent: Option<Seq<char>>,
    pub has_data: Option<bool>,
}

impl DeepView for SearchQuery {
    type V = SearchQueryModel;

    open spec fn deep_view(&self) -> SearchQueryModel {
        SearchQueryModel {
            q: opt_chars(self.q),
            admin_level: self.admin_level,
            continent: opt_chars(self.continent),
            has_data: self.has_data,
        }
    }
}

/// The two versions of a comparison request.
#[derive(Debug)]
pub struct CompareQuery {
    pub from: String,
    pub to: String,
}

/// The lower-case form of a text, as the standard library maps it.
pub uninterp spec fn lowercase(s: Seq<char>) -> Seq<char>;

/// Calls `str::to_lowercase`. The result follows from the text alone, by
/// the case mapping of Unicode.
#[verifier::external_body]
fn to_lower(s: &str) -> (r: String)
    ensures
        r@ == lowercase(s@),
{
    s.to_lowercase()
}

/// The region meets every criterion of the query that is present.
pub open spec fn meets(region: RegionModel, query: SearchQueryModel) -> bool {
    &&& query.q matches Some(term) ==> has_infix(lowercase(region.name), lowercase(term))
    &&& query.admin_level matches Some(level) ==> region.admin_level.ordinal() == level
    &&& query.continent matches Some(parent) ==> region.parent_id == Some(parent)
}

/// The regions among the first `k` that meet the query, in the order of
/// the list.
pub open spec fn found_upto(rs: Seq<RegionModel>, query: SearchQueryModel, k: int) -> Seq<RegionModel>
    decreases k,
{
    if k <= 0 {
        Seq::empty()
    } else if meets(rs[k - 1], query) {
        found_upto(rs, query, k - 1).push(rs[k - 1])
    } else {
        found_upto(rs, query, k - 1)
    }
}

impl SearchQuery {
    /// Tells whether a region meets the query, given the lower-case forms
    /// of the region's name and of the query's text.
    pub fn admits(&self, region: &Region, lower_name: &str, lower_term: Option<&str>) -> (r: bool)
        requires
            lower_name@ == lowercase(region.name@),
            self.q matches Some(term) ==> lower_term matches Some(t) && t@ == lowercase(term@),
        ensures
            r == meets(region.deep_view(), self.deep_view()),
    {
        let named = match (&self.q, lower_term) {
            (Some(_), Some(t)) => text_contains(lower_name, t),
            _ => true,
        };
        let levelled = match self.admin_level {
            Some(level) => region.admin_level_num() == level,
            None => true,
        };
        let placed = match &self.continent {
            Some(parent) => opt_text_is(&region.parent_id, parent),
            None => true,
        };
        named && levelled && placed
    }
}

/// The regions that meet the query, in the order of the list.
pub fn search_regions(regions: &Vec<Region>, query: &SearchQuery) -> (found: Vec<Region>)
    ensures
        found.deep_view() == found_upto(
            regions.deep_view(),
            query.deep_view(),
            regions@.len() as int,
        ),
{
    let ghost rs = regions.deep_view();
    let lower_term = match &query.q {
        Some(term) => Some(to_lower(term.as_str())),
        None => None,
    };
    let mut found: Vec<Region> = Vec::new();
    let mut i: usize = 0;
    assert(found.deep_view() =~= Seq::empty());
    while i < regions.len()
        invariant
            i <= regions@.len(),
            rs == regions.deep_view(),
            query.q matches Some(term) ==> lower_term matches Some(t) && t@ == lowercase(term@),
            found.deep_view() == found_upto(rs, query.deep_view(), i as int),
        decreases regions@.len() - i,
    {
        let region = &regions[i];
        assert(rs[i as int] == region.deep_view());
        let lower_name = to_lower(region.name.as_str());
        let term: Option<&str> = match &lower_term {
            Some(t) => Some(t.as_str()),
            None => None,
        };
        if query.admits(region, lower_name.as_str(), term) {
            let ghost listed = found.deep_view();
            found.push(region.clone());
            assert(found.deep_view() =~= listed.push(rs[i as int]));
        }
        i += 1;
    }
    found
}

} // verus!
