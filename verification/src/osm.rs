//! Stream analysis of decoded extract elements, and file validation.

use vstd::prelude::*;
use vstd::string::*;
use crate::error::{RiemapError, RiemapErrorModel};
use crate::models::{
    completeness_laws, completeness_of, FULL_COMPLETENESS, FeatureDistribution, IssueSeverity, QualityIssue, QualityIssueModel,
    QualityMetrics,
};
use crate::models::Region;
use crate::quality::with_if;
use crate::geometry::EUROPE;
use crate::storage::{path_below, EXTRACT_SUFFIX, LATEST_FILE, LIECHTENSTEIN, PATH_SEPARATOR};
use crate::text::{copy_opt_text, date_string, date_text, opt_chars, text_is};

pub mod utils;

verus! {

/// Largest latitude, in nanodegrees. Element coordinates are whole
/// multiples of 10⁻⁹ degree, as the extract format stores them.
pub const MAX_NANO_LATITUDE: i64 = 90_000_000_000;

/// Largest longitude, in nanodegrees.
pub const MAX_NANO_LONGITUDE: i64 = 180_000_000_000;

/// A way with fewer node references than this is a topology error.
pub const MIN_WAY_REFS: usize = 2;

/// Validation looks at this many elements at the start of a file.
pub const VALIDATION_PREFIX: u64 = 1000;

/// What the analysis reads of one decoded element.
#[derive(Debug, Clone, Copy, PartialEq, Eq, Structural)]
pub enum Element {
    /// A node stored on its own.
    Node { tags: usize, nano_lat: i64, nano_lon: i64 },
    /// A node stored in a dense batch; it counts as any other node.
    DenseNode { tags: usize, nano_lat: i64, nano_lon: i64 },
    Way { tags: usize, refs: usize },
    Relation { tags: usize },
}

/// A position outside the globe: more than 90° from the equator or more
/// than 180° from the prime meridian.
pub open spec fn off_globe(nano_lat: int, nano_lon: int) -> bool {
    nano_lat > MAX_NANO_LATITUDE || nano_lat < -MAX_NANO_LATITUDE || nano_lon > MAX_NANO_LONGITUDE
        || nano_lon < -MAX_NANO_LONGITUDE
}

impl Element {
    /// The element is a node, stored on its own or in a dense batch.
    pub open spec fn is_node(self) -> bool {
        self is Node || self is DenseNode
    }

    /// The element carries at least one tag.
    pub open spec fn is_tagged(self) -> bool {
        match self {
            Element::Node { tags, .. } => tags > 0,
            Element::DenseNode { tags, .. } => tags > 0,
            Element::Way { tags, .. } => tags > 0,
            Element::Relation { tags } => tags > 0,
        }
    }

    /// A node that lies off the globe.
    pub open spec fn is_misplaced(self) -> bool {
        match self {
            Element::Node { nano_lat, nano_lon, .. } => off_globe(nano_lat as int, nano_lon as int),
            Element::DenseNode { nano_lat, nano_lon, .. } => off_globe(
                nano_lat as int,
                nano_lon as int,
            ),
            _ => false,
        }
    }

    /// A way that refers to fewer than two nodes.
    pub open spec fn is_degenerate(self) -> bool {
        self matches Element::Way { refs, .. } && refs < MIN_WAY_REFS
    }
}

/// The properties of elements that the analysis counts.
pub enum Counted {
    Nodes,
    TaggedNodes,
    Ways,
    TaggedWays,
    Relations,
    TaggedRelations,
    GeometryErrors,
    TopologyErrors,
}

impl Counted {
    /// The element has the property.
    pub open spec fn holds(self, e: Element) -> bool {
        match self {
            Counted::Nodes => e.is_node(),
            Counted::TaggedNodes => e.is_node() && e.is_tagged(),
            Counted::Ways => e is Way,
            Counted::TaggedWays => e is Way && e.is_tagged(),
            Counted::Relations => e is Relation,
            Counted::TaggedRelations => e is Relation && e.is_tagged(),
            Counted::GeometryErrors => e.is_misplaced(),
            Counted::TopologyErrors => e.is_degenerate(),
        }
    }
}

/// Number of elements of a stream that have the given property.
pub open spec fn tally(elements: Seq<Element>, what: Counted) -> nat
    decreases elements.len(),
{
    if elements.len() == 0 {
        0
    } else {
        tally(elements.drop_last(), what) + if what.holds(elements.last()) {
            1nat
        } else {
            0nat
        }
    }
}

/// Number of elements of a stream that carry a tag.
pub open spec fn tagged_total(elements: Seq<Element>) -> nat {
    tally(elements, Counted::TaggedNodes) + tally(elements, Counted::TaggedWays) + tally(
        elements,
        Counted::TaggedRelations,
    )
}

/// The metrics of a stream of elements: the counts of each kind, the
/// completeness they give, and the geometry and topology errors. Tag errors
/// and the feature distribution are not derived from the stream and are 0.
pub open spec fn metrics_of(elements: Seq<Element>) -> QualityMetrics {
    QualityMetrics {
        total_nodes: tally(elements, Counted::Nodes) as u64,
        total_ways: tally(elements, Counted::Ways) as u64,
        total_relations: tally(elements, Counted::Relations) as u64,
        tagged_nodes: tally(elements, Counted::TaggedNodes) as u64,
        tagged_ways: tally(elements, Counted::TaggedWays) as u64,
        tagged_relations: tally(elements, Counted::TaggedRelations) as u64,
        completeness_score: completeness_of(tagged_total(elements), elements.len()) as u32,
        geometry_errors: tally(elements, Counted::GeometryErrors) as u64,
        tag_errors: 0,
        topology_errors: tally(elements, Counted::TopologyErrors) as u64,
        feature_distribution: FeatureDistribution::zero(),
    }
}

/// Every element is a node, a way or a relation, and a tagged element of a
/// kind is an element of that kind.
pub proof fn tally_bounds(elements: Seq<Element>)
    ensures
        tally(elements, Counted::Nodes) + tally(elements, Counted::Ways) + tally(
            elements,
            Counted::Relations,
        ) == elements.len(),
        tally(elements, Counted::TaggedNodes) <= tally(elements, Counted::Nodes),
        tally(elements, Counted::TaggedWays) <= tally(elements, Counted::Ways),
        tally(elements, Counted::TaggedRelations) <= tally(elements, Counted::Relations),
        tally(elements, Counted::GeometryErrors) <= tally(elements, Counted::Nodes),
        tally(elements, Counted::TopologyErrors) <= tally(elements, Counted::Ways),
        tagged_total(elements) <= elements.len(),
    decreases elements.len(),
{
    if elements.len() > 0 {
        tally_bounds(elements.drop_last());
    }
}

/// Stream `b` has the elements of stream `a`, except that some of them
/// carry tags that they do not carry in `a`.
pub open spec fn is_tagged_further(a: Seq<Element>, b: Seq<Element>) -> bool {
    &&& a.len() == b.len()
    &&& forall|i: int|
        0 <= i < a.len() ==> {
            &&& (#[trigger] a[i]).is_node() == (#[trigger] b[i]).is_node()
            &&& a[i] is Way == b[i] is Way
            &&& a[i].is_tagged() ==> b[i].is_tagged()
        }
}

/// The tags of a further tagged stream are at least as many.
pub proof fn tagged_total_grows(a: Seq<Element>, b: Seq<Element>)
    requires
        is_tagged_further(a, b),
    ensures
        tagged_total(a) <= tagged_total(b),
    decreases a.len(),
{
    if a.len() > 0 {
        assert(is_tagged_further(a.drop_last(), b.drop_last())) by {
            assert forall|i: int| 0 <= i < a.len() - 1 implies {
                &&& (#[trigger] a.drop_last()[i]).is_node() == (#[trigger] b.drop_last()[i]).is_node()
                &&& a.drop_last()[i] is Way == b.drop_last()[i] is Way
                &&& a.drop_last()[i].is_tagged() ==> b.drop_last()[i].is_tagged()
            } by {
                assert(a[i].is_node() == b[i].is_node());
            }
        }
        tagged_total_grows(a.drop_last(), b.drop_last());
        assert(a[a.len() - 1].is_node() == b[b.len() - 1].is_node());
    }
}

/// Where every element carries a tag, as many elements are tagged as
/// there are.
pub proof fn all_tagged_counts_all(a: Seq<Element>)
    requires
        forall|i: int| 0 <= i < a.len() ==> (#[trigger] a[i]).is_tagged(),
    ensures
        tagged_total(a) == a.len(),
    decreases a.len(),
{
    if a.len() > 0 {
        assert forall|i: int| 0 <= i < a.len() - 1 implies (#[trigger] a.drop_last()[i]).is_tagged() by {
            assert(a[i].is_tagged());
        }
        all_tagged_counts_all(a.drop_last());
        assert(a[a.len() - 1].is_tagged());
    }
}

/// The completeness of a stream is 0 where the stream is empty, is full
/// where every element of a stream that is not empty carries a tag, and
/// does not fall where more elements of the stream become tagged.
pub proof fn stream_completeness(a: Seq<Element>, b: Seq<Element>)
    requires
        a.len() <= u64::MAX,
        is_tagged_further(a, b),
    ensures
        a.len() == 0 ==> metrics_of(a).completeness_score == 0,
        a.len() > 0 && (forall|i: int| 0 <= i < a.len() ==> (#[trigger] a[i]).is_tagged())
            ==> metrics_of(a).completeness_score == FULL_COMPLETENESS,
        metrics_of(a).completeness_score <= metrics_of(b).completeness_score,
        metrics_of(b).completeness_score <= FULL_COMPLETENESS,
{
    tally_bounds(a);
    tally_bounds(b);
    tagged_total_grows(a, b);
    completeness_laws(tagged_total(a), tagged_total(b), a.len());
    completeness_laws(tagged_total(a), tagged_total(a), a.len());
    if a.len() > 0 && (forall|i: int| 0 <= i < a.len() ==> (#[trigger] a[i]).is_tagged()) {
        all_tagged_counts_all(a);
    }
}

/// Running counts of a pass over a stream of elements. The analyzer keeps
/// eight counters and nothing of the elements themselves.
pub struct StreamAnalyzer {
    total_nodes: u64,
    total_ways: u64,
    total_relations: u64,
    tagged_nodes: u64,
    tagged_ways: u64,
    tagged_relations: u64,
    geometry_errors: u64,
    topology_errors: u64,
    seen: Ghost<Seq<Element>>,
}

impl StreamAnalyzer {
    /// The elements observed so far, in order.
    pub closed spec fn seen(&self) -> Seq<Element> {
        self.seen@
    }

    /// Each counter holds the tally of its property over what was observed.
    pub closed spec fn wf(&self) -> bool {
        &&& self.total_nodes == tally(self.seen@, Counted::Nodes)
        &&& self.total_ways == tally(self.seen@, Counted::Ways)
        &&& self.total_relations == tally(self.seen@, Counted::Relations)
        &&& self.tagged_nodes == tally(self.seen@, Counted::TaggedNodes)
        &&& self.tagged_ways == tally(self.seen@, Counted::TaggedWays)
        &&& self.tagged_relations == tally(self.seen@, Counted::TaggedRelations)
        &&& self.geometry_errors == tally(self.seen@, Counted::GeometryErrors)
        &&& self.topology_errors == tally(self.seen@, Counted::TopologyErrors)
    }

    /// An analyzer that has observed nothing.
    pub fn new() -> (a: Self)
        ensures
            a.wf(),
            a.seen() == Seq::<Element>::empty(),
    {
        StreamAnalyzer {
            total_nodes: 0,
            total_ways: 0,
            total_relations: 0,
            tagged_nodes: 0,
            tagged_ways: 0,
            tagged_relations: 0,
            geometry_errors: 0,
            topology_errors: 0,
            seen: Ghost(Seq::empty()),
        }
    }

    /// Number of elements observed so far.
    pub fn observed(&self) -> (n: u128)
        requires
            self.wf(),
        ensures
            n == self.seen().len(),
    {
        proof {
            tally_bounds(self.seen@);
        }
        self.total_nodes as u128 + self.total_ways as u128 + self.total_relations as u128
    }

    /// One more element can be counted.
    pub fn has_room(&self) -> (r: bool)
        requires
            self.wf(),
        ensures
            r == (self.seen().len() < u64::MAX),
    {
        self.observed() < u64::MAX as u128
    }

    /// Counts one element.
    pub fn observe(&mut self, element: &Element)
        requires
            old(self).wf(),
            old(self).seen().len() < u64::MAX,
        ensures
            final(self).wf(),
            final(self).seen() == old(self).seen().push(*element),
    {
        proof {
            tally_bounds(self.seen@);
            assert(self.seen@.push(*element).drop_last() =~= self.seen@);
        }
        match *element {
            Element::Node { tags, nano_lat, nano_lon } => {
                self.total_nodes += 1;
                if tags > 0 {
                    self.tagged_nodes += 1;
                }
                if is_off_globe(nano_lat, nano_lon) {
                    self.geometry_errors += 1;
                }
            },
            Element::DenseNode { tags, nano_lat, nano_lon } => {
                self.total_nodes += 1;
                if tags > 0 {
                    self.tagged_nodes += 1;
                }
                if is_off_globe(nano_lat, nano_lon) {
                    self.geometry_errors += 1;
                }
            },
            Element::Way { tags, refs } => {
                self.total_ways += 1;
                if tags > 0 {
                    self.tagged_ways += 1;
                }
                if refs < MIN_WAY_REFS {
                    self.topology_errors += 1;
                }
            },
            Element::Relation { tags } => {
                self.total_relations += 1;
                if tags > 0 {
                    self.tagged_relations += 1;
                }
            },
        }
        self.seen = Ghost(self.seen@.push(*element));
    }

    /// The metrics of what was observed.
    pub fn metrics(&self) -> (m: QualityMetrics)
        requires
            self.wf(),
        ensures
            m == metrics_of(self.seen()),
    {
        proof {
            tally_bounds(self.seen@);
        }
        let total: u128 = self.total_nodes as u128 + self.total_ways as u128
            + self.total_relations as u128;
        let tagged: u128 = self.tagged_nodes as u128 + self.tagged_ways as u128
            + self.tagged_relations as u128;
        let completeness: u32 = if total > 0 {
            assert((1000 * tagged as int) / (total as int) <= 1000) by (nonlinear_arith)
                requires
                    tagged <= total,
                    total > 0,
            ;
            (1000 * tagged / total) as u32
        } else {
            0
        };
        QualityMetrics {
            total_nodes: self.total_nodes,
            total_ways: self.total_ways,
            total_relations: self.total_relations,
            tagged_nodes: self.tagged_nodes,
            tagged_ways: self.tagged_ways,
            tagged_relations: self.tagged_relations,
            completeness_score: completeness,
            geometry_errors: self.geometry_errors,
            tag_errors: 0,
            topology_errors: self.topology_errors,
            feature_distribution: FeatureDistribution::default(),
        }
    }
}

fn is_off_globe(nano_lat: i64, nano_lon: i64) -> (r: bool)
    ensures
        r == off_globe(nano_lat as int, nano_lon as int),
{
    nano_lat > MAX_NANO_LATITUDE || nano_lat < -MAX_NANO_LATITUDE || nano_lon > MAX_NANO_LONGITUDE
        || nano_lon < -MAX_NANO_LONGITUDE
}

/// What a decoder delivered of one file: the elements in stream order, and
/// the decoder's words where it gave up on a malformed frame.
#[derive(Debug)]
pub struct DecodedStream {
    pub elements: Vec<Element>,
    pub failure: Option<String>,
}

/// How the attempt to decode the start of a file ended.
#[derive(Debug)]
pub enum DecodeOutcome {
    /// No defect was met.
    Clean,
    /// The file could not be opened as an extract.
    Unreadable { detail: String },
    /// Decoding failed after `decoded` elements had been delivered.
    Corrupt { decoded: u64, detail: String },
}

/// What is known of a file before it is analysed.
#[derive(Debug)]
pub enum FileProbe {
    /// There is no file at the path.
    Missing,
    /// The file exists, has `size` bytes, and decoding it ended in `decode`.
    Present { size: u64, decode: DecodeOutcome },
}

pub const FILE_MISSING: &'static str = "file_missing";

pub const FILE_MISSING_TEXT: &'static str = "OSM data file does not exist";

pub const FILE_MISSING_FIX: &'static str = "Ensure the OSM data file has been downloaded properly";

pub const EMPTY_FILE: &'static str = "empty_file";

pub const EMPTY_FILE_TEXT: &'static str = "OSM data file is empty";

pub const EMPTY_FILE_FIX: &'static str = "Re-download the OSM data file";

pub const INVALID_FORMAT: &'static str = "invalid_format";

pub const INVALID_FORMAT_PREFIX: &'static str = "Cannot read OSM PBF file: ";

pub const INVALID_FORMAT_FIX: &'static str =
    "Ensure the file is a valid OSM PBF format and re-download if corrupted";

pub const PARSING_ERROR: &'static str = "parsing_error";

pub const PARSING_ERROR_PREFIX: &'static str = "Error parsing OSM data: ";

pub const PARSING_ERROR_FIX: &'static str =
    "Check if the OSM file is corrupted and re-download if necessary";

/// The issue of a file that does not exist.
pub open spec fn file_missing_issue() -> QualityIssueModel {
    QualityIssue::general(
        FILE_MISSING@,
        IssueSeverity::Critical,
        FILE_MISSING_TEXT@,
        FILE_MISSING_FIX@,
    )
}

/// The issue of a file without content.
pub open spec fn empty_file_issue() -> QualityIssueModel {
    QualityIssue::general(EMPTY_FILE@, IssueSeverity::Critical, EMPTY_FILE_TEXT@, EMPTY_FILE_FIX@)
}

/// The issue of a file that cannot be opened as an extract.
pub open spec fn invalid_format_issue(detail: Seq<char>) -> QualityIssueModel {
    QualityIssue::general(
        INVALID_FORMAT@,
        IssueSeverity::Critical,
        INVALID_FORMAT_PREFIX@ + detail,
        INVALID_FORMAT_FIX@,
    )
}

/// The issue of a file on which decoding failed.
pub open spec fn parsing_error_issue(detail: Seq<char>) -> QualityIssueModel {
    QualityIssue::general(
        PARSING_ERROR@,
        IssueSeverity::High,
        PARSING_ERROR_PREFIX@ + detail,
        PARSING_ERROR_FIX@,
    )
}

/// The issue that the outcome of decoding calls for, if any: a file that
/// cannot be opened is a critical issue, and a failure is a high one where
/// it struck within the first `VALIDATION_PREFIX` elements.
pub open spec fn decode_issues(decode: DecodeOutcome) -> Seq<QualityIssueModel> {
    match decode {
        DecodeOutcome::Clean => Seq::empty(),
        DecodeOutcome::Unreadable { detail } => seq![invalid_format_issue(detail@)],
        DecodeOutcome::Corrupt { decoded, detail } => if decoded < VALIDATION_PREFIX {
            seq![parsing_error_issue(detail@)]
        } else {
            Seq::empty()
        },
    }
}

/// The issues of a probed file. A missing file is one critical issue and
/// nothing else; an empty file is a critical issue, followed by what
/// decoding found.
pub open spec fn validation_issues(probe: FileProbe) -> Seq<QualityIssueModel> {
    match probe {
        FileProbe::Missing => seq![file_missing_issue()],
        FileProbe::Present { size, decode } => with_if(
            Seq::empty(),
            size == 0,
            empty_file_issue(),
        ) + decode_issues(decode),
    }
}

/// What analysing a decoded stream returns: the metrics of its elements,
/// or an error with the decoder's words where decoding failed anywhere.
pub open spec fn analysis_of(elements: Seq<Element>, failure: Option<Seq<char>>) -> Result<
    QualityMetrics,
    RiemapErrorModel,
> {
    match failure {
        Some(detail) => Err(RiemapErrorModel::OsmProcessing(detail)),
        None => Ok(metrics_of(elements)),
    }
}

/// The outcome of an analysis, with the error as its model.
pub open spec fn outcome_model(r: Result<QualityMetrics, RiemapError>) -> Result<
    QualityMetrics,
    RiemapErrorModel,
> {
    match r {
        Ok(m) => Ok(m),
        Err(e) => Err(e.deep_view()),
    }
}

impl StreamAnalyzer {
    /// Ends the pass. Where the decoder failed, the counts are discarded
    /// and the failure is returned; else the metrics of what was observed.
    pub fn finish(self, failure: Option<String>) -> (r: Result<QualityMetrics, RiemapError>)
        requires
            self.wf(),
        ensures
            outcome_model(r) == analysis_of(self.seen(), opt_chars(failure)),
    {
        match failure {
            Some(detail) => Err(RiemapError::OsmProcessing(detail)),
            None => Ok(self.metrics()),
        }
    }
}

/// Processor of regional extracts.
#[derive(Debug)]
pub struct OsmProcessor {
    pub data_dir: String,
    pub temp_dir: String,
}

impl Clone for OsmProcessor {
    fn clone(&self) -> (r: Self)
        ensures
            r == *self,
    {
        OsmProcessor { data_dir: self.data_dir.clone(), temp_dir: self.temp_dir.clone() }
    }
}

impl OsmProcessor {
    /// A processor that works under the two directories.
    pub fn new(data_dir: &str, temp_dir: &str) -> (r: Result<Self, RiemapError>)
        ensures
            r is Ok,
            r->Ok_0.data_dir@ == data_dir@,
            r->Ok_0.temp_dir@ == temp_dir@,
    {
        Ok(OsmProcessor { data_dir: String::from_str(data_dir), temp_dir: String::from_str(temp_dir) })
    }

    /// Computes the metrics of a decoded file in one pass over its
    /// elements. A stream on which the decoder failed gives an error and no
    /// metrics.
    pub fn process_osm_file(&self, stream: &DecodedStream) -> (r: Result<
        QualityMetrics,
        RiemapError,
    >)
        ensures
            outcome_model(r) == analysis_of(stream.elements@, opt_chars(stream.failure)),
    {
        let mut analyzer = StreamAnalyzer::new();
        let mut i: usize = 0;
        while i < stream.elements.len()
            invariant
                i <= stream.elements.len(),
                analyzer.wf(),
                analyzer.seen() == stream.elements@.take(i as int),
            decreases stream.elements.len() - i,
        {
            analyzer.observe(&stream.elements[i]);
            assert(stream.elements@.take(i + 1) =~= stream.elements@.take(i as int).push(
                stream.elements@[i as int],
            ));
            i += 1;
        }
        assert(stream.elements@.take(i as int) =~= stream.elements@);
        analyzer.finish(copy_opt_text(&stream.failure))
    }

    /// Tells whether validation still wants elements decoded after
    /// `decoded` of them: it looks at the first `VALIDATION_PREFIX` and no
    /// further.
    pub fn validation_wants_more(decoded: u64) -> (more: bool)
        ensures
            more == (decoded < VALIDATION_PREFIX),
    {
        decoded < VALIDATION_PREFIX
    }

    /// Lists the issues of a probed file. Validation never fails: every
    /// defect becomes an issue of the list.
    pub fn validate_file(&self, probe: &FileProbe) -> (issues: Vec<QualityIssue>)
        ensures
            issues.deep_view() == validation_issues(*probe),
    {
        let mut issues: Vec<QualityIssue> = Vec::new();
        assert(issues.deep_view() =~= Seq::empty());
        match probe {
            FileProbe::Missing => {
                issues.push(
                    QualityIssue::unlocated(
                        String::from_str(FILE_MISSING),
                        IssueSeverity::Critical,
                        String::from_str(FILE_MISSING_TEXT),
                        String::from_str(FILE_MISSING_FIX),
                    ),
                );
                assert(issues.deep_view() =~= seq![file_missing_issue()]);
            },
            FileProbe::Present { size, decode } => {
                if *size == 0 {
                    issues.push(
                        QualityIssue::unlocated(
                            String::from_str(EMPTY_FILE),
                            IssueSeverity::Critical,
                            String::from_str(EMPTY_FILE_TEXT),
                            String::from_str(EMPTY_FILE_FIX),
                        ),
                    );
                }
                let ghost before = issues.deep_view();
                assert(before =~= with_if(Seq::empty(), *size == 0, empty_file_issue()));
                match decode {
                    DecodeOutcome::Clean => {},
                    DecodeOutcome::Unreadable { detail } => {
                        let description = String::from_str(INVALID_FORMAT_PREFIX).concat(
                            detail.as_str(),
                        );
                        issues.push(
                            QualityIssue::unlocated(
                                String::from_str(INVALID_FORMAT),
                                IssueSeverity::Critical,
                                description,
                                String::from_str(INVALID_FORMAT_FIX),
                            ),
                        );
                    },
                    DecodeOutcome::Corrupt { decoded, detail } => {
                        if *decoded < VALIDATION_PREFIX {
                            let description = String::from_str(PARSING_ERROR_PREFIX).concat(
                                detail.as_str(),
                            );
                            issues.push(
                                QualityIssue::unlocated(
                                    String::from_str(PARSING_ERROR),
                                    IssueSeverity::High,
                                    description,
                                    String::from_str(PARSING_ERROR_FIX),
                                ),
                            );
                        }
                    },
                }
                assert(issues.deep_view() =~= before + decode_issues(*decode));
            },
        }
        issues
    }
}

pub const LIECHTENSTEIN_URL: &'static str =
    "https://download.geofabrik.de/europe/liechtenstein-latest.osm.pbf";

pub const NO_DOWNLOAD_URL: &'static str = "No download URL configured for region: ";

/// Where the extract of a region is fetched from and where it is kept.
#[derive(Debug)]
pub struct DownloadPlan {
    /// Address of the extract.
    pub url: String,
    /// Directory of the region.
    pub directory: String,
    /// Name of the dated file.
    pub file_name: String,
    /// Path of the dated file.
    pub file_path: String,
    /// Path of the alias of the latest file.
    pub latest_path: String,
}

/// What a `DownloadPlan` holds, with text as character sequences.
pub struct DownloadPlanModel {
    pub url: Seq<char>,
    pub directory: Seq<char>,
    pub file_name: Seq<char>,
    pub file_path: Seq<char>,
    pub latest_path: Seq<char>,
}

impl DeepView for DownloadPlan {
    type V = DownloadPlanModel;

    open spec fn deep_view(&self) -> DownloadPlanModel {
        DownloadPlanModel {
            url: self.url@,
            directory: self.directory@,
            file_name: self.file_name@,
            file_path: self.file_path@,
            latest_path: self.latest_path@,
        }
    }
}

/// The plan for the download of a region on the given date. Only
/// Liechtenstein has an address; every other region is refused by name.
pub open spec fn download_plan(data_dir: Seq<char>, region_id: Seq<char>, date: Seq<char>) -> Result<
    DownloadPlanModel,
    RiemapErrorModel,
> {
    if region_id == LIECHTENSTEIN@ {
        let directory = path_below(path_below(data_dir, EUROPE@), region_id);
        let file_name = date + EXTRACT_SUFFIX@;
        Ok(
            DownloadPlanModel {
                url: LIECHTENSTEIN_URL@,
                directory,
                file_name,
                file_path: path_below(directory, file_name),
                latest_path: path_below(directory, LATEST_FILE@),
            },
        )
    } else {
        Err(RiemapErrorModel::OsmProcessing(NO_DOWNLOAD_URL@ + region_id))
    }
}

/// The outcome of planning, as its model.
pub open spec fn plan_model(r: Result<DownloadPlan, RiemapError>) -> Result<
    DownloadPlanModel,
    RiemapErrorModel,
> {
    match r {
        Ok(p) => Ok(p.deep_view()),
        Err(e) => Err(e.deep_view()),
    }
}

/// Calls `chrono::Utc::now`, `DateTime::date_naive`, and `year`, `month`
/// and `day` of `chrono::Datelike`: today's date in UTC. Of the date it is
/// claimed that the month lies in 1 ..= 12 and the day in 1 ..= 31, as
/// `Datelike` documents. `Utc::now` gives up where the system clock stands
/// before 1970.
#[verifier::external_body]
fn today() -> (date: (i32, u32, u32))
    ensures
        1 <= date.1 <= 12,
        1 <= date.2 <= 31,
{
    let date = chrono::Utc::now().date_naive();
    (chrono::Datelike::year(&date), chrono::Datelike::month(&date), chrono::Datelike::day(&date))
}

fn below(dir: &str, name: &str) -> (p: String)
    ensures
        p@ == path_below(dir@, name@),
{
    let mut p = String::from_str(dir);
    p.append(PATH_SEPARATOR);
    p.append(name);
    p
}

impl OsmProcessor {
    /// Plans the download of a region's extract for the given date.
    pub fn plan_download(&self, region: &Region, date: &str) -> (r: Result<
        DownloadPlan,
        RiemapError,
    >)
        ensures
            plan_model(r) == download_plan(self.data_dir@, region.id@, date@),
    {
        if !text_is(&region.id, LIECHTENSTEIN) {
            let mut detail = String::from_str(NO_DOWNLOAD_URL);
            detail.append(region.id.as_str());
            return Err(RiemapError::OsmProcessing(detail));
        }
        let europe = below(self.data_dir.as_str(), EUROPE);
        let directory = below(europe.as_str(), region.id.as_str());
        let mut file_name = String::from_str(date);
        file_name.append(EXTRACT_SUFFIX);
        let file_path = below(directory.as_str(), file_name.as_str());
        let latest_path = below(directory.as_str(), LATEST_FILE);
        Ok(
            DownloadPlan {
                url: String::from_str(LIECHTENSTEIN_URL),
                directory,
                file_name,
                file_path,
                latest_path,
            },
        )
    }

    /// Plans the download of a region's extract for today. Succeeds for
    /// Liechtenstein and for no other region.
    pub fn download_region(&self, region: &Region) -> (r: Result<DownloadPlan, RiemapError>)
        ensures
            r is Ok <==> region.id@ == LIECHTENSTEIN@,
            exists|year: int, month: nat, day: nat|
                1 <= month <= 12 && 1 <= day <= 31 && plan_model(r) == download_plan(
                    self.data_dir@,
                    region.id@,
                    #[trigger] date_text(year, month, day),
                ),
    {
        let (year, month, day) = today();
        let date = date_string(year, month, day);
        let r = self.plan_download(region, date.as_str());
        assert(date@ == date_text(year as int, month as nat, day as nat));
        r
    }
}

} // verus!
