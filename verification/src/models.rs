//! Data model shared by the catalog, hierarchy, analysis and scoring code.

use vstd::prelude::*;
use crate::text::{copy_opt_text, opt_chars};
use crate::clock::now_millis;

verus! {

/// Coordinates are whole multiples of 10⁻⁷ degree.
pub const UNITS_PER_DEGREE: i64 = 10_000_000;

/// Southern and northern limits of latitude, in coordinate units.
pub const MIN_LATITUDE: i64 = -900_000_000;

pub const MAX_LATITUDE: i64 = 900_000_000;

/// Western and eastern limits of longitude, in coordinate units.
pub const MIN_LONGITUDE: i64 = -1_800_000_000;

pub const MAX_LONGITUDE: i64 = 1_800_000_000;

/// Milliseconds since the Unix epoch, UTC.
pub type Timestamp = i64;

/// Administrative levels, most general first.
#[derive(Debug, Clone, Copy, PartialEq, Eq, Structural)]
pub enum AdminLevel {
    World,
    Continent,
    Country,
    Region,
    Subregion,
}

impl AdminLevel {
    /// Position of the level in the containment order, `World` being 0.
    pub open spec fn ordinal(self) -> nat {
        match self {
            AdminLevel::World => 0,
            AdminLevel::Continent => 1,
            AdminLevel::Country => 2,
            AdminLevel::Region => 3,
            AdminLevel::Subregion => 4,
        }
    }

    /// The level with the given ordinal; ordinals past the deepest level
    /// collapse to `Subregion`.
    pub open spec fn from_ordinal(n: nat) -> AdminLevel {
        if n == 0 {
            AdminLevel::World
        } else if n == 1 {
            AdminLevel::Continent
        } else if n == 2 {
            AdminLevel::Country
        } else if n == 3 {
            AdminLevel::Region
        } else {
            AdminLevel::Subregion
        }
    }

    /// The ordinal of the level.
    pub fn as_number(&self) -> (n: u8)
        ensures
            n as nat == self.ordinal(),
    {
        match self {
            AdminLevel::World => 0,
            AdminLevel::Continent => 1,
            AdminLevel::Country => 2,
            AdminLevel::Region => 3,
            AdminLevel::Subregion => 4,
        }
    }
}

impl AdminLevel {
    /// Level of a region that sits `depth` steps below a root of the
    /// catalog: roots are continents, and chains deeper than the deepest
    /// level collapse to `Subregion`.
    pub open spec fn at_depth(depth: nat) -> AdminLevel {
        AdminLevel::from_ordinal(depth + 1)
    }

    /// The level of a region `depth` steps below a root.
    pub fn from_depth(depth: usize) -> (level: AdminLevel)
        ensures
            level == AdminLevel::at_depth(depth as nat),
    {
        if depth == 0 {
            AdminLevel::Continent
        } else if depth == 1 {
            AdminLevel::Country
        } else if depth == 2 {
            AdminLevel::Region
        } else {
            AdminLevel::Subregion
        }
    }
}

/// Axis-aligned rectangle in latitude and longitude, in coordinate units.
#[derive(Debug, Clone, Copy, PartialEq, Eq, Structural)]
pub struct BoundingBox {
    pub min_lat: i64,
    pub min_lon: i64,
    pub max_lat: i64,
    pub max_lon: i64,
}

/// Floor of the mean of two integers.
pub open spec fn midpoint(a: int, b: int) -> int {
    (a + b) / 2
}

fn mean(a: i64, b: i64) -> (m: i64)
    ensures
        m == midpoint(a as int, b as int),
{
    let lo = if a <= b {
        a
    } else {
        b
    };
    let hi = if a <= b {
        b
    } else {
        a
    };
    let span: i128 = hi as i128 - lo as i128;
    let half: i128 = span / 2;
    (lo as i128 + half) as i64
}

impl BoundingBox {
    /// The lower bound does not exceed the upper bound on either axis.
    pub open spec fn is_ordered(self) -> bool {
        self.min_lat <= self.max_lat && self.min_lon <= self.max_lon
    }

    /// The point lies inside the box, borders included.
    pub open spec fn covers(self, lat: int, lon: int) -> bool {
        self.min_lat <= lat <= self.max_lat && self.min_lon <= lon <= self.max_lon
    }

    /// The box that spans the whole globe.
    pub open spec fn whole_world() -> BoundingBox {
        BoundingBox {
            min_lat: MIN_LATITUDE,
            min_lon: MIN_LONGITUDE,
            max_lat: MAX_LATITUDE,
            max_lon: MAX_LONGITUDE,
        }
    }

    /// The box with the given bounds, which are taken as they are.
    pub fn new(min_lat: i64, min_lon: i64, max_lat: i64, max_lon: i64) -> (b: Self)
        ensures
            b == (BoundingBox { min_lat, min_lon, max_lat, max_lon }),
    {
        Self { min_lat, min_lon, max_lat, max_lon }
    }

    /// The box that spans the whole globe.
    pub fn world() -> (b: Self)
        ensures
            b == BoundingBox::whole_world(),
            b.is_ordered(),
    {
        Self {
            min_lat: MIN_LATITUDE,
            min_lon: MIN_LONGITUDE,
            max_lat: MAX_LATITUDE,
            max_lon: MAX_LONGITUDE,
        }
    }

    /// Centre of the box as (latitude, longitude), each rounded down to a
    /// whole coordinate unit.
    pub fn center(&self) -> (c: (i64, i64))
        ensures
            c.0 == midpoint(self.min_lat as int, self.max_lat as int),
            c.1 == midpoint(self.min_lon as int, self.max_lon as int),
            self.is_ordered() ==> self.covers(c.0 as int, c.1 as int),
    {
        (mean(self.min_lat, self.max_lat), mean(self.min_lon, self.max_lon))
    }

    /// Tells whether the point lies inside the box, borders included.
    pub fn contains(&self, lat: i64, lon: i64) -> (r: bool)
        ensures
            r == self.covers(lat as int, lon as int),
    {
        lat >= self.min_lat && lat <= self.max_lat && lon >= self.min_lon && lon <= self.max_lon
    }

    /// Tells whether the lower bounds do not exceed the upper bounds.
    pub fn is_valid(&self) -> (r: bool)
        ensures
            r == self.is_ordered(),
    {
        self.min_lat <= self.max_lat && self.min_lon <= self.max_lon
    }
}

/// A geographic region of the catalog.
#[derive(Debug)]
pub struct Region {
    pub id: String,
    pub name: String,
    pub admin_level: AdminLevel,
    pub parent_id: Option<String>,
    pub bounding_box: BoundingBox,
    /// Whole square kilometres.
    pub area_km2: Option<u64>,
    pub population: Option<u64>,
    pub country_code: Option<String>,
    pub geofabrik_url: Option<String>,
    pub has_children: bool,
    pub created_at: Timestamp,
    pub updated_at: Timestamp,
}

/// What a `Region` holds, with text as character sequences.
pub struct RegionModel {
    pub id: Seq<char>,
    pub name: Seq<char>,
    pub admin_level: AdminLevel,
    pub parent_id: Option<Seq<char>>,
    pub bounding_box: BoundingBox,
    pub area_km2: Option<u64>,
    pub population: Option<u64>,
    pub country_code: Option<Seq<char>>,
    pub geofabrik_url: Option<Seq<char>>,
    pub has_children: bool,
    pub created_at: Timestamp,
    pub updated_at: Timestamp,
}

impl DeepView for Region {
    type V = RegionModel;

    open spec fn deep_view(&self) -> RegionModel {
        RegionModel {
            id: self.id@,
            name: self.name@,
            admin_level: self.admin_level,
            parent_id: opt_chars(self.parent_id),
            bounding_box: self.bounding_box,
            area_km2: self.area_km2,
            population: self.population,
            country_code: opt_chars(self.country_code),
            geofabrik_url: opt_chars(self.geofabrik_url),
            has_children: self.has_children,
            created_at: self.created_at,
            updated_at: self.updated_at,
        }
    }
}

impl Clone for Region {
    fn clone(&self) -> (r: Self)
        ensures
            r == *self,
    {
        Region {
            id: self.id.clone(),
            name: self.name.clone(),
            admin_level: self.admin_level,
            parent_id: copy_opt_text(&self.parent_id),
            bounding_box: self.bounding_box,
            area_km2: self.area_km2,
            population: self.population,
            country_code: copy_opt_text(&self.country_code),
            geofabrik_url: copy_opt_text(&self.geofabrik_url),
            has_children: self.has_children,
            created_at: self.created_at,
            updated_at: self.updated_at,
        }
    }
}

impl Region {
    /// A region with the given identity, level and extent, created at the
    /// instant `now`: no parent, no children, no optional attributes.
    pub open spec fn fresh(
        id: Seq<char>,
        name: Seq<char>,
        admin_level: AdminLevel,
        bounding_box: BoundingBox,
        now: Timestamp,
    ) -> RegionModel {
        RegionModel {
            id,
            name,
            admin_level,
            parent_id: None,
            bounding_box,
            area_km2: None,
            population: None,
            country_code: None,
            geofabrik_url: None,
            has_children: false,
            created_at: now,
            updated_at: now,
        }
    }

    /// Creates a region stamped with the instant `now`.
    pub fn new_at(
        id: String,
        name: String,
        admin_level: AdminLevel,
        bounding_box: BoundingBox,
        now: Timestamp,
    ) -> (r: Self)
        ensures
            r.deep_view() == Region::fresh(id@, name@, admin_level, bounding_box, now),
    {
        Region {
            id,
            name,
            admin_level,
            parent_id: None,
            bounding_box,
            area_km2: None,
            population: None,
            country_code: None,
            geofabrik_url: None,
            has_children: false,
            created_at: now,
            updated_at: now,
        }
    }

    /// Creates a region stamped with the current time.
    pub fn new(id: String, name: String, admin_level: AdminLevel, bounding_box: BoundingBox) -> (r:
        Self)
        ensures
            r.deep_view() == Region::fresh(id@, name@, admin_level, bounding_box, r.created_at),
    {
        let now = now_millis();
        Region::new_at(id, name, admin_level, bounding_box, now)
    }

    /// The ordinal of the administrative level, for ordering.
    pub fn admin_level_num(&self) -> (n: u8)
        ensures
            n as nat == self.admin_level.ordinal(),
    {
        self.admin_level.as_number()
    }
}

/// Supported data formats.
#[derive(Debug, Clone, Copy, PartialEq, Eq, Structural)]
pub enum DataFormat {
    OsmPbf,
    OsmXml,
    GeoJson,
    Shapefile,
}

/// One stored extract of a region.
#[derive(Debug)]
pub struct DataFile {
    pub id: String,
    pub region_id: String,
    pub version: String,
    pub file_path: String,
    /// Size in bytes.
    pub file_size: u64,
    pub format: DataFormat,
    pub created_at: Timestamp,
    pub is_latest: bool,
    pub quality_report_id: Option<String>,
    pub download_url: String,
    pub checksum: Option<String>,
}

/// What a `DataFile` holds, with text as character sequences.
pub struct DataFileModel {
    pub id: Seq<char>,
    pub region_id: Seq<char>,
    pub version: Seq<char>,
    pub file_path: Seq<char>,
    pub file_size: u64,
    pub format: DataFormat,
    pub created_at: Timestamp,
    pub is_latest: bool,
    pub quality_report_id: Option<Seq<char>>,
    pub download_url: Seq<char>,
    pub checksum: Option<Seq<char>>,
}

impl DeepView for DataFile {
    type V = DataFileModel;

    open spec fn deep_view(&self) -> DataFileModel {
        DataFileModel {
            id: self.id@,
            region_id: self.region_id@,
            version: self.version@,
            file_path: self.file_path@,
            file_size: self.file_size,
            format: self.format,
            created_at: self.created_at,
            is_latest: self.is_latest,
            quality_report_id: opt_chars(self.quality_report_id),
            download_url: self.download_url@,
            checksum: opt_chars(self.checksum),
        }
    }
}

impl Clone for DataFile {
    fn clone(&self) -> (r: Self)
        ensures
            r == *self,
    {
        DataFile {
            id: self.id.clone(),
            region_id: self.region_id.clone(),
            version: self.version.clone(),
            file_path: self.file_path.clone(),
            file_size: self.file_size,
            format: self.format,
            created_at: self.created_at,
            is_latest: self.is_latest,
            quality_report_id: copy_opt_text(&self.quality_report_id),
            download_url: self.download_url.clone(),
            checksum: copy_opt_text(&self.checksum),
        }
    }
}

/// Counters of feature categories.
#[derive(Debug, Clone, Copy, PartialEq, Eq, Structural)]
pub struct FeatureDistribution {
    pub highways: u64,
    pub buildings: u64,
    pub natural_features: u64,
    pub amenities: u64,
    pub water_features: u64,
    pub boundaries: u64,
}

impl FeatureDistribution {
    /// The distribution that counts nothing.
    pub open spec fn zero() -> FeatureDistribution {
        FeatureDistribution {
            highways: 0,
            buildings: 0,
            natural_features: 0,
            amenities: 0,
            water_features: 0,
            boundaries: 0,
        }
    }
}

impl Default for FeatureDistribution {
    fn default() -> (d: Self)
        ensures
            d == FeatureDistribution::zero(),
    {
        Self {
            highways: 0,
            buildings: 0,
            natural_features: 0,
            amenities: 0,
            water_features: 0,
            boundaries: 0,
        }
    }
}

/// Completeness is counted in tenths of a percent, so 1000 is 100 %.
pub const FULL_COMPLETENESS: u32 = 1000;

/// Share of `tagged` in `total` in tenths of a percent, rounded down, and 0
/// where `total` is 0.
pub open spec fn completeness_of(tagged: nat, total: nat) -> nat {
    if total == 0 {
        0
    } else {
        1000 * tagged / total
    }
}

/// Completeness is 0 for an empty data set, is full where every element is
/// tagged, never exceeds full, and does not fall when more elements of the
/// same data set are tagged.
pub proof fn completeness_laws(tagged: nat, more_tagged: nat, total: nat)
    requires
        tagged <= more_tagged <= total,
    ensures
        completeness_of(tagged, 0) == 0,
        total > 0 ==> completeness_of(total, total) == FULL_COMPLETENESS,
        completeness_of(tagged, total) <= completeness_of(more_tagged, total),
        completeness_of(more_tagged, total) <= FULL_COMPLETENESS,
{
    if total > 0 {
        assert(1000 * total / total == 1000) by (nonlinear_arith)
            requires
                total > 0,
        ;
        assert(1000 * tagged / total <= 1000 * more_tagged / total) by (nonlinear_arith)
            requires
                total > 0,
                tagged <= more_tagged,
        ;
        assert(1000 * more_tagged / total <= 1000 * total / total) by (nonlinear_arith)
            requires
                total > 0,
                more_tagged <= total,
        ;
    }
}

/// Aggregate counts of one analysis run.
#[derive(Debug, Clone, Copy, PartialEq, Eq, Structural)]
pub struct QualityMetrics {
    pub total_nodes: u64,
    pub total_ways: u64,
    pub total_relations: u64,
    pub tagged_nodes: u64,
    pub tagged_ways: u64,
    pub tagged_relations: u64,
    /// Share of tagged elements, in tenths of a percent.
    pub completeness_score: u32,
    pub geometry_errors: u64,
    pub tag_errors: u64,
    pub topology_errors: u64,
    pub feature_distribution: FeatureDistribution,
}

impl QualityMetrics {
    /// Number of elements of all three kinds.
    pub open spec fn total_elements(self) -> nat {
        (self.total_nodes + self.total_ways + self.total_relations) as nat
    }

    /// Number of elements that carry at least one tag.
    pub open spec fn tagged_elements(self) -> nat {
        (self.tagged_nodes + self.tagged_ways + self.tagged_relations) as nat
    }

    /// The completeness that the counts of these metrics give.
    pub open spec fn counted_completeness(self) -> nat {
        completeness_of(self.tagged_elements(), self.total_elements())
    }

    /// The metrics of an empty stream.
    pub open spec fn zero() -> QualityMetrics {
        QualityMetrics {
            total_nodes: 0,
            total_ways: 0,
            total_relations: 0,
            tagged_nodes: 0,
            tagged_ways: 0,
            tagged_relations: 0,
            completeness_score: 0,
            geometry_errors: 0,
            tag_errors: 0,
            topology_errors: 0,
            feature_distribution: FeatureDistribution::zero(),
        }
    }
}

/// Severity of a quality issue, least severe first.
#[derive(Debug, Clone, Copy, PartialEq, Eq, Structural)]
pub enum IssueSeverity {
    Low,
    Medium,
    High,
    Critical,
}

/// One defect found in an extract.
#[derive(Debug)]
pub struct QualityIssue {
    pub issue_type: String,
    pub severity: IssueSeverity,
    pub description: String,
    /// Latitude and longitude in coordinate units.
    pub location: Option<(i64, i64)>,
    pub osm_id: Option<i64>,
    pub osm_type: Option<String>,
    pub fix_suggestion: Option<String>,
}

/// What a `QualityIssue` holds, with text as character sequences.
pub struct QualityIssueModel {
    pub issue_type: Seq<char>,
    pub severity: IssueSeverity,
    pub description: Seq<char>,
    pub location: Option<(i64, i64)>,
    pub osm_id: Option<i64>,
    pub osm_type: Option<Seq<char>>,
    pub fix_suggestion: Option<Seq<char>>,
}

impl DeepView for QualityIssue {
    type V = QualityIssueModel;

    open spec fn deep_view(&self) -> QualityIssueModel {
        QualityIssueModel {
            issue_type: self.issue_type@,
            severity: self.severity,
            description: self.description@,
            location: self.location,
            osm_id: self.osm_id,
            osm_type: opt_chars(self.osm_type),
            fix_suggestion: opt_chars(self.fix_suggestion),
        }
    }
}

impl Clone for QualityIssue {
    fn clone(&self) -> (r: Self)
        ensures
            r == *self,
    {
        QualityIssue {
            issue_type: self.issue_type.clone(),
            severity: self.severity,
            description: self.description.clone(),
            location: self.location,
            osm_id: self.osm_id,
            osm_type: copy_opt_text(&self.osm_type),
            fix_suggestion: copy_opt_text(&self.fix_suggestion),
        }
    }
}

impl QualityIssue {
    /// An issue of the given type, severity, description and suggestion that
    /// points at no place and no element.
    pub open spec fn general(
        issue_type: Seq<char>,
        severity: IssueSeverity,
        description: Seq<char>,
        fix_suggestion: Seq<char>,
    ) -> QualityIssueModel {
        QualityIssueModel {
            issue_type,
            severity,
            description,
            location: None,
            osm_id: None,
            osm_type: None,
            fix_suggestion: Some(fix_suggestion),
        }
    }

    /// An issue that points at no place and no element.
    pub fn unlocated(
        issue_type: String,
        severity: IssueSeverity,
        description: String,
        fix_suggestion: String,
    ) -> (issue: Self)
        ensures
            issue.deep_view() == QualityIssue::general(
                issue_type@,
                severity,
                description@,
                fix_suggestion@,
            ),
    {
        QualityIssue {
            issue_type,
            severity,
            description,
            location: None,
            osm_id: None,
            osm_type: None,
            fix_suggestion: Some(fix_suggestion),
        }
    }
}

/// Quality assessment of one data file at one point in time.
#[derive(Debug)]
pub struct QualityReport {
    pub id: String,
    pub data_file_id: String,
    pub region_id: String,
    pub created_at: Timestamp,
    pub metrics: QualityMetrics,
    pub issues: Vec<QualityIssue>,
    pub summary: String,
    pub recommendations: Vec<String>,
}

/// What a `QualityReport` holds, with text as character sequences.
pub struct QualityReportModel {
    pub id: Seq<char>,
    pub data_file_id: Seq<char>,
    pub region_id: Seq<char>,
    pub created_at: Timestamp,
    pub metrics: QualityMetrics,
    pub issues: Seq<QualityIssueModel>,
    pub summary: Seq<char>,
    pub recommendations: Seq<Seq<char>>,
}

impl DeepView for QualityReport {
    type V = QualityReportModel;

    open spec fn deep_view(&self) -> QualityReportModel {
        QualityReportModel {
            id: self.id@,
            data_file_id: self.data_file_id@,
            region_id: self.region_id@,
            created_at: self.created_at,
            metrics: self.metrics,
            issues: self.issues.deep_view(),
            summary: self.summary@,
            recommendations: self.recommendations.deep_view(),
        }
    }
}

fn copy_issues(issues: &Vec<QualityIssue>) -> (copy: Vec<QualityIssue>)
    ensures
        copy.deep_view() == issues.deep_view(),
{
    let mut copy: Vec<QualityIssue> = Vec::new();
    let mut i: usize = 0;
    while i < issues.len()
        invariant
            i <= issues@.len(),
            copy@.len() == i,
            forall|k: int| 0 <= k < i ==> #[trigger] copy@[k] == issues@[k],
        decreases issues@.len() - i,
    {
        copy.push(issues[i].clone());
        i += 1;
    }
    assert(copy.deep_view() =~= issues.deep_view());
    copy
}

fn copy_texts(texts: &Vec<String>) -> (copy: Vec<String>)
    ensures
        copy.deep_view() == texts.deep_view(),
{
    let mut copy: Vec<String> = Vec::new();
    let mut i: usize = 0;
    while i < texts.len()
        invariant
            i <= texts@.len(),
            copy@.len() == i,
            forall|k: int| 0 <= k < i ==> #[trigger] copy@[k] == texts@[k],
        decreases texts@.len() - i,
    {
        copy.push(texts[i].clone());
        i += 1;
    }
    assert(copy.deep_view() =~= texts.deep_view());
    copy
}

impl Clone for QualityReport {
    fn clone(&self) -> (r: Self)
        ensures
            r.deep_view() == self.deep_view(),
    {
        QualityReport {
            id: self.id.clone(),
            data_file_id: self.data_file_id.clone(),
            region_id: self.region_id.clone(),
            created_at: self.created_at,
            metrics: self.metrics,
            issues: copy_issues(&self.issues),
            summary: self.summary.clone(),
            recommendations: copy_texts(&self.recommendations),
        }
    }
}

/// Kinds of processing jobs.
#[derive(Debug, Clone, Copy, PartialEq, Eq, Structural)]
pub enum JobType {
    Download,
    Process,
    QualityAnalysis,
    Cleanup,
    UpdateIndex,
}

/// Execution state of a job.
#[derive(Debug, Clone, Copy, PartialEq, Eq, Structural)]
pub enum JobStatus {
    Pending,
    Running,
    Completed,
    Failed,
    Cancelled,
}

/// A unit of background work on one region.
#[derive(Debug)]
pub struct ProcessingJob {
    pub id: String,
    pub region_id: String,
    pub job_type: JobType,
    pub status: JobStatus,
    /// Progress in tenths of a percent.
    pub progress: u32,
    pub message: Option<String>,
    pub created_at: Timestamp,
    pub started_at: Option<Timestamp>,
    pub completed_at: Option<Timestamp>,
    pub error_message: Option<String>,
}

impl Clone for ProcessingJob {
    fn clone(&self) -> (r: Self)
        ensures
            r == *self,
    {
        ProcessingJob {
            id: self.id.clone(),
            region_id: self.region_id.clone(),
            job_type: self.job_type,
            status: self.status,
            progress: self.progress,
            message: copy_opt_text(&self.message),
            created_at: self.created_at,
            started_at: self.started_at,
            completed_at: self.completed_at,
            error_message: copy_opt_text(&self.error_message),
        }
    }
}

/// Aggregate over the data files of one region.
#[derive(Debug, Clone, Copy, PartialEq, Eq, Structural)]
pub struct DownloadStats {
    pub total_downloads: u64,
    pub last_updated: Timestamp,
    pub file_count: usize,
    /// Sum of the file sizes in bytes.
    pub total_size: u128,
}

impl Default for DownloadStats {
    fn default() -> (d: Self)
        ensures
            d.total_downloads == 0,
            d.file_count == 0,
            d.total_size == 0,
    {
        Self { total_downloads: 0, last_updated: now_millis(), file_count: 0, total_size: 0 }
    }
}

/// A region with its files, its aggregate and its child regions.
#[derive(Debug)]
pub struct RegionTree {
    pub region: Region,
    pub children: Vec<RegionTree>,
    pub data_files: Vec<DataFile>,
    pub download_stats: DownloadStats,
    /// The region has children that were left out because the node sits at
    /// the depth bound of the build.
    pub depth_exceeded: bool,
}

/// What a `RegionTree` holds, down to its leaves.
pub struct RegionTreeModel {
    pub region: RegionModel,
    pub children: Seq<RegionTreeModel>,
    pub data_files: Seq<DataFileModel>,
    pub download_stats: DownloadStats,
    pub depth_exceeded: bool,
}

/// What a tree holds, down to its leaves.
pub open spec fn tree_model(t: RegionTree) -> RegionTreeModel
    decreases t,
{
    RegionTreeModel {
        region: t.region.deep_view(),
        children: forest_model(t.children@),
        data_files: t.data_files.deep_view(),
        download_stats: t.download_stats,
        depth_exceeded: t.depth_exceeded,
    }
}

/// What a list of trees holds, in order.
pub open spec fn forest_model(s: Seq<RegionTree>) -> Seq<RegionTreeModel>
    decreases s,
{
    if s.len() == 0 {
        Seq::empty()
    } else {
        forest_model(s.drop_last()).push(tree_model(s.last()))
    }
}

/// A forest's model has one entry per tree: the model of that tree.
pub proof fn forest_model_by_index(s: Seq<RegionTree>)
    ensures
        forest_model(s).len() == s.len(),
        forall|i: int| 0 <= i < s.len() ==> #[trigger] forest_model(s)[i] == tree_model(s[i]),
    decreases s.len(),
{
    if s.len() > 0 {
        forest_model_by_index(s.drop_last());
    }
}

impl DeepView for RegionTree {
    type V = RegionTreeModel;

    open spec fn deep_view(&self) -> RegionTreeModel {
        tree_model(*self)
    }
}

/// One change between two versions.
#[derive(Debug)]
pub struct ChangeDetail {
    pub change_type: String,
    pub description: String,
    pub impact: String,
    /// Latitude and longitude in coordinate units.
    pub location: Option<(i64, i64)>,
}

/// Difference between two sets of quality metrics, new minus old.
#[derive(Debug)]
pub struct QualityMetricsDiff {
    pub nodes_diff: i64,
    pub ways_diff: i64,
    pub relations_diff: i64,
    /// Difference of the completeness scores, in tenths of a percent.
    pub completeness_diff: i64,
    pub errors_diff: i64,
    /// One entry per feature category, each category once.
    pub feature_changes: Vec<(String, i64)>,
}

/// Comparison of two versions of one region.
#[derive(Debug)]
pub struct RegionComparison {
    pub region_id: String,
    pub from_version: String,
    pub to_version: String,
    pub comparison_date: Timestamp,
    pub metrics_diff: QualityMetricsDiff,
    pub summary: String,
    pub change_details: Vec<ChangeDetail>,
}

} // verus!
