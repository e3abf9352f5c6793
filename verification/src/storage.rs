//! The storage layer's view of regions and their files: where a region's
//! files live, which files a directory listing yields, and which file a
//! version names.

use vstd::prelude::*;
use vstd::string::*;
use crate::clock::now_millis;
use crate::error::RiemapError;
use crate::geometry::{EUROPE, FRANCE, GERMANY};
use crate::models::{
    ChangeDetail, DataFile, DataFileModel, DataFormat, QualityMetricsDiff, RegionComparison,
    Timestamp,
};
use crate::osm::utils::{extract_timestamp_from_filename, first_match, DATE_PATTERN};
use crate::sorting::{inserted_at, sorted_by};
use crate::text::{
    chars_of, has_infix, has_suffix, opt_chars, signed_decimal, signed_decimal_text, text_contains,
    text_ends_with, text_is,
};

verus! {

pub const PATH_SEPARATOR: &'static str = "/";

pub const METADATA_FILE: &'static str = "metadata.json";

pub const HYPHEN: char = '-';

pub const LIECHTENSTEIN: &'static str = "liechtenstein";

/// Storage layer for regions, files and metadata. Paths are text, with `/`
/// between their components.
#[derive(Debug)]
pub struct Storage {
    pub data_dir: String,
    pub metadata_file: String,
}

impl Clone for Storage {
    fn clone(&self) -> (r: Self)
        ensures
            r == *self,
    {
        Storage { data_dir: self.data_dir.clone(), metadata_file: self.metadata_file.clone() }
    }
}

/// The path of `name` below the directory `dir`.
pub open spec fn path_below(dir: Seq<char>, name: Seq<char>) -> Seq<char> {
    dir + PATH_SEPARATOR@ + name
}

/// Number of hyphens in a text.
pub open spec fn hyphens(s: Seq<char>) -> nat
    decreases s.len(),
{
    if s.len() == 0 {
        0
    } else {
        hyphens(s.drop_last()) + if s.last() == HYPHEN {
            1nat
        } else {
            0nat
        }
    }
}

/// Position of the first hyphen of a text that has one.
pub open spec fn first_hyphen(s: Seq<char>) -> int {
    choose|k: int| 0 <= k < s.len() && s[k] == HYPHEN && forall|j: int| 0 <= j < k ==> s[j] != HYPHEN
}

/// The regions that are filed under Europe though their identifier does not
/// say so.
pub open spec fn is_filed_under_europe(id: Seq<char>) -> bool {
    id == LIECHTENSTEIN@ || id == GERMANY@ || id == FRANCE@
}

/// The directory of a region below the data directory. An identifier of two
/// parts with one hyphen between them names a directory inside a
/// directory; three regions are filed under Europe; every other region has
/// a directory of its own name.
pub open spec fn region_path(data_dir: Seq<char>, id: Seq<char>) -> Seq<char> {
    if hyphens(id) == 1 {
        let k = first_hyphen(id);
        path_below(path_below(data_dir, id.subrange(0, k)), id.subrange(k + 1, id.len() as int))
    } else if hyphens(id) == 0 && is_filed_under_europe(id) {
        path_below(path_below(data_dir, EUROPE@), id)
    } else {
        path_below(data_dir, id)
    }
}

fn join_path(dir: &str, name: &str) -> (p: String)
    ensures
        p@ == path_below(dir@, name@),
{
    let mut p = String::from_str(dir);
    p.append(PATH_SEPARATOR);
    p.append(name);
    p
}

/// Counts the hyphens of a text and finds the first.
fn scan_hyphens(chars: &Vec<char>) -> (r: (usize, usize))
    ensures
        r.0 as nat == hyphens(chars@),
        r.0 > 0 ==> r.1 < chars@.len() && chars@[r.1 as int] == HYPHEN && forall|j: int|
            0 <= j < r.1 ==> chars@[j] != HYPHEN,
{
    let mut count: usize = 0;
    let mut first: usize = 0;
    let mut i: usize = 0;
    assert(chars@.take(0) =~= Seq::empty());
    while i < chars.len()
        invariant
            i <= chars@.len(),
            count as nat == hyphens(chars@.take(i as int)),
            count <= i,
            count == 0 ==> forall|j: int| 0 <= j < i ==> chars@[j] != HYPHEN,
            count > 0 ==> first < i && chars@[first as int] == HYPHEN && forall|j: int|
                0 <= j < first ==> chars@[j] != HYPHEN,
        decreases chars@.len() - i,
    {
        proof {
            assert(chars@.take(i + 1).drop_last() =~= chars@.take(i as int));
        }
        if chars[i] == HYPHEN {
            if count == 0 {
                first = i;
            }
            count += 1;
        }
        i += 1;
    }
    assert(chars@.take(i as int) =~= chars@);
    (count, first)
}

impl Storage {
    /// A storage layer over the given data directory, with its metadata
    /// file directly below it.
    pub fn new(data_dir: &str) -> (r: Result<Self, RiemapError>)
        ensures
            r is Ok,
            r->Ok_0.data_dir@ == data_dir@,
            r->Ok_0.metadata_file@ == path_below(data_dir@, METADATA_FILE@),
    {
        Ok(
            Storage {
                data_dir: String::from_str(data_dir),
                metadata_file: join_path(data_dir, METADATA_FILE),
            },
        )
    }

    /// The directory that holds the files of a region.
    pub fn get_region_path(&self, region_id: &str) -> (path: String)
        ensures
            path@ == region_path(self.data_dir@, region_id@),
    {
        let chars = chars_of(region_id);
        let (count, first) = scan_hyphens(&chars);
        if count == 1 {
            proof {
                let k = first_hyphen(region_id@);
                if k < first {
                    assert(chars@[k] != HYPHEN);
                } else if first < k {
                    assert(chars@[first as int] == HYPHEN);
                }
                assert(k == first);
            }
            let head = region_id.substring_char(0, first);
            let tail = region_id.substring_char(first + 1, chars.len());
            let outer = join_path(self.data_dir.as_str(), head);
            join_path(outer.as_str(), tail)
        } else if count == 0 && is_under_europe(region_id) {
            let outer = join_path(self.data_dir.as_str(), EUROPE);
            join_path(outer.as_str(), region_id)
        } else {
            join_path(self.data_dir.as_str(), region_id)
        }
    }
}

fn is_under_europe(id: &str) -> (r: bool)
    ensures
        r == is_filed_under_europe(id@),
{
    let s = String::from_str(id);
    text_is(&s, LIECHTENSTEIN) || text_is(&s, GERMANY) || text_is(&s, FRANCE)
}

/// One file that a walk through a region's directory met.
#[derive(Debug)]
pub struct FileEntry {
    /// Full path of the file.
    pub path: String,
    /// Last component of the path, where it is valid text.
    pub file_name: Option<String>,
    /// Size in bytes.
    pub size: u64,
    /// Creation time, where the file system tells it.
    pub created_at: Option<Timestamp>,
}

/// What a `FileEntry` holds, with text as character sequences.
pub struct FileEntryModel {
    pub path: Seq<char>,
    pub file_name: Option<Seq<char>>,
    pub size: u64,
    pub created_at: Option<Timestamp>,
}

impl DeepView for FileEntry {
    type V = FileEntryModel;

    open spec fn deep_view(&self) -> FileEntryModel {
        FileEntryModel {
            path: self.path@,
            file_name: opt_chars(self.file_name),
            size: self.size,
            created_at: self.created_at,
        }
    }
}

pub const PBF_SUFFIX: &'static str = ".pbf";

pub const EXTRACT_SUFFIX: &'static str = ".osm.pbf";

pub const LATEST_FILE: &'static str = "latest.osm.pbf";

pub const LATEST: &'static str = "latest";

pub const UNKNOWN_VERSION: &'static str = "unknown";

pub const ID_SEPARATOR: &'static str = "_";

pub const DOWNLOAD_PREFIX: &'static str = "/api/download/";

/// The file name has a stem and the extension `pbf`, and is not the alias
/// of the latest file.
pub open spec fn is_extract_name(name: Seq<char>) -> bool {
    has_suffix(name, PBF_SUFFIX@) && name.len() > PBF_SUFFIX@.len() && name != LATEST_FILE@
}

/// The entry is a file that the listing of a region shows.
pub open spec fn is_listed(entry: FileEntryModel) -> bool {
    entry.file_name matches Some(name) && is_extract_name(name)
}

/// The version that a date found in a file name states; a name without
/// date states no version.
pub open spec fn stated_version(date: Option<Seq<char>>) -> Seq<char> {
    match date {
        Some(d) => d,
        None => UNKNOWN_VERSION@,
    }
}

/// The data file of an entry under the given version. An entry without
/// creation time counts as created at `now`.
pub open spec fn file_with_version(
    region_id: Seq<char>,
    entry: FileEntryModel,
    version: Seq<char>,
    now: Timestamp,
) -> DataFileModel {
    DataFileModel {
        id: region_id + ID_SEPARATOR@ + version,
        region_id,
        version,
        file_path: entry.path,
        file_size: entry.size,
        format: DataFormat::OsmPbf,
        created_at: match entry.created_at {
            Some(t) => t,
            None => now,
        },
        is_latest: false,
        quality_report_id: None,
        download_url: DOWNLOAD_PREFIX@ + region_id + PATH_SEPARATOR@ + version,
        checksum: None,
    }
}

/// The data file that a listed entry stands for: its version is the first
/// date in its name.
pub open spec fn listed_file(region_id: Seq<char>, entry: FileEntryModel, now: Timestamp) -> DataFileModel {
    file_with_version(
        region_id,
        entry,
        stated_version(first_match(DATE_PATTERN@, entry.file_name->Some_0)),
        now,
    )
}

/// The data files of the listed entries among the first `k`, in the order
/// of the entries.
pub open spec fn listed_upto(
    region_id: Seq<char>,
    entries: Seq<FileEntryModel>,
    now: Timestamp,
    k: int,
) -> Seq<DataFileModel>
    decreases k,
{
    if k <= 0 {
        Seq::empty()
    } else if is_listed(entries[k - 1]) {
        listed_upto(region_id, entries, now, k - 1).push(listed_file(region_id, entries[k - 1], now))
    } else {
        listed_upto(region_id, entries, now, k - 1)
    }
}

/// File `a` was created after file `b`.
pub open spec fn is_newer(a: DataFileModel, b: DataFileModel) -> bool {
    a.created_at > b.created_at
}

/// Newest first, as a function value.
pub open spec fn newest_first() -> spec_fn(DataFileModel, DataFileModel) -> bool {
    |a: DataFileModel, b: DataFileModel| is_newer(a, b)
}

/// The list with its first file marked as the latest.
pub open spec fn with_latest_marked(files: Seq<DataFileModel>) -> Seq<DataFileModel> {
    if files.len() == 0 {
        files
    } else {
        files.update(0, DataFileModel { is_latest: true, ..files[0] })
    }
}

/// The data files of a region: one for every listed entry, newest first,
/// files of the same age in the order of the entries, and the first
/// marked as the latest.
pub open spec fn region_files(region_id: Seq<char>, entries: Seq<FileEntryModel>, now: Timestamp) -> Seq<
    DataFileModel,
> {
    with_latest_marked(
        sorted_by(listed_upto(region_id, entries, now, entries.len() as int), newest_first()),
    )
}

/// The entry is an extract whose name holds the version.
pub open spec fn names_version(entry: FileEntryModel, version: Seq<char>) -> bool {
    entry.file_name matches Some(name) && has_infix(name, version) && has_suffix(
        name,
        EXTRACT_SUFFIX@,
    )
}

/// Path of the first entry among the first `k` that names the version.
pub open spec fn first_naming(entries: Seq<FileEntryModel>, version: Seq<char>, k: int) -> Option<
    Seq<char>,
>
    decreases k,
{
    if k <= 0 {
        None
    } else {
        match first_naming(entries, version, k - 1) {
            Some(p) => Some(p),
            None => if names_version(entries[k - 1], version) {
                Some(entries[k - 1].path)
            } else {
                None
            },
        }
    }
}

/// The file that a version of a region names: the alias of the latest
/// file where that is asked for and exists, else the first entry whose
/// name holds the version.
pub open spec fn file_path_of(
    data_dir: Seq<char>,
    region_id: Seq<char>,
    version: Seq<char>,
    latest_exists: bool,
    entries: Seq<FileEntryModel>,
) -> Option<Seq<char>> {
    if version == LATEST@ && latest_exists {
        Some(path_below(region_path(data_dir, region_id), LATEST_FILE@))
    } else {
        first_naming(entries, version, entries.len() as int)
    }
}

fn is_extract(name: &String) -> (r: bool)
    ensures
        r == is_extract_name(name@),
{
    proof {
        reveal_strlit(".pbf");
    }
    let long_enough = chars_of(name.as_str()).len() > 4;
    text_ends_with(name.as_str(), PBF_SUFFIX) && long_enough && !text_is(name, LATEST_FILE)
}

/// Builds the data file of an entry from the date found in its name.
pub fn data_file_of(region_id: &str, entry: &FileEntry, date: Option<String>, now: Timestamp) -> (file:
    DataFile)
    ensures
        file.deep_view() == file_with_version(
            region_id@,
            entry.deep_view(),
            stated_version(opt_chars(date)),
            now,
        ),
{
    let version = match date {
        Some(d) => d,
        None => String::from_str(UNKNOWN_VERSION),
    };
    let mut id = String::from_str(region_id);
    id.append(ID_SEPARATOR);
    id.append(version.as_str());
    let mut download_url = String::from_str(DOWNLOAD_PREFIX);
    download_url.append(region_id);
    download_url.append(PATH_SEPARATOR);
    download_url.append(version.as_str());
    DataFile {
        id,
        region_id: String::from_str(region_id),
        version,
        file_path: entry.path.clone(),
        file_size: entry.size,
        format: DataFormat::OsmPbf,
        created_at: match entry.created_at {
            Some(t) => t,
            None => now,
        },
        is_latest: false,
        quality_report_id: None,
        download_url,
        checksum: None,
    }
}

impl Storage {
    /// Lists the data files of a region from the entries of its directory,
    /// with `now` standing in for a creation time that is not known.
    pub fn get_region_files_at(&self, region_id: &str, entries: &Vec<FileEntry>, now: Timestamp) -> (files:
        Vec<DataFile>)
        ensures
            files.deep_view() == region_files(region_id@, entries.deep_view(), now),
    {
        let ghost all = entries.deep_view();
        let ghost before = newest_first();
        let mut files: Vec<DataFile> = Vec::new();
        let mut i: usize = 0;
        assert(files.deep_view() =~= Seq::empty());
        while i < entries.len()
            invariant
                i <= entries@.len(),
                all == entries.deep_view(),
                before == newest_first(),
                files.deep_view() == sorted_by(listed_upto(region_id@, all, now, i as int), before),
            decreases entries@.len() - i,
        {
            let entry = &entries[i];
            assert(all[i as int] == entry.deep_view());
            let listed = match &entry.file_name {
                Some(name) => is_extract(name),
                None => false,
            };
            if listed {
                let date = match &entry.file_name {
                    Some(name) => extract_timestamp_from_filename(name.as_str()),
                    None => None,
                };
                let file = data_file_of(region_id, entry, date, now);
                let ghost sorted = files.deep_view();
                let ghost x = file.deep_view();
                let mut p: usize = files.len();
                let mut searching = true;
                while searching && p > 0
                    invariant
                        p <= files@.len(),
                        before == newest_first(),
                        sorted == files.deep_view(),
                        x == file.deep_view(),
                        forall|q: int| p <= q < sorted.len() ==> before(x, #[trigger] sorted[q]),
                        !searching ==> p > 0 && !before(x, sorted[p - 1]),
                    decreases p + if searching {
                        1nat
                    } else {
                        0nat
                    },
                {
                    assert(sorted[p - 1] == files@[p - 1].deep_view());
                    if file.created_at > files[p - 1].created_at {
                        p -= 1;
                    } else {
                        searching = false;
                    }
                }
                proof {
                    inserted_at(sorted, x, before, p as int);
                    let members = listed_upto(region_id@, all, now, i + 1);
                    assert(members.drop_last() =~= listed_upto(region_id@, all, now, i as int));
                }
                files.insert(p, file);
                assert(files.deep_view() =~= sorted.insert(p as int, x));
            }
            i += 1;
        }
        if files.len() > 0 {
            let ghost sorted = files.deep_view();
            let mut first = files.remove(0);
            first.is_latest = true;
            files.insert(0, first);
            assert(files.deep_view() =~= with_latest_marked(sorted));
        }
        files
    }

    /// Lists the data files of a region from the entries of its directory.
    /// An entry without creation time counts as created at the time of the
    /// call. Always succeeds.
    pub fn get_region_files(&self, region_id: &str, entries: &Vec<FileEntry>) -> (r: Result<
        Vec<DataFile>,
        RiemapError,
    >)
        ensures
            r is Ok,
            exists|now: Timestamp|
                r->Ok_0.deep_view() == #[trigger] region_files(
                    region_id@,
                    entries.deep_view(),
                    now,
                ),
    {
        let now = now_millis();
        let files = self.get_region_files_at(region_id, entries, now);
        let r: Result<Vec<DataFile>, RiemapError> = Ok(files);
        assert(r->Ok_0.deep_view() == region_files(region_id@, entries.deep_view(), now));
        r
    }

    /// Finds the file that a version of a region names. Always succeeds.
    pub fn get_file_path(
        &self,
        region_id: &str,
        version: &str,
        latest_exists: bool,
        entries: &Vec<FileEntry>,
    ) -> (r: Result<Option<String>, RiemapError>)
        ensures
            r is Ok,
            opt_chars(r->Ok_0) == file_path_of(
                self.data_dir@,
                region_id@,
                version@,
                latest_exists,
                entries.deep_view(),
            ),
    {
        let wanted = String::from_str(version);
        if latest_exists && text_is(&wanted, LATEST) {
            let dir = self.get_region_path(region_id);
            return Ok(Some(join_path(dir.as_str(), LATEST_FILE)));
        }
        let ghost all = entries.deep_view();
        let mut i: usize = 0;
        while i < entries.len()
            invariant
                i <= entries@.len(),
                all == entries.deep_view(),
                !(latest_exists && version@ == LATEST@),
                first_naming(all, version@, i as int) is None,
            decreases entries@.len() - i,
        {
            let entry = &entries[i];
            assert(all[i as int] == entry.deep_view());
            let named = match &entry.file_name {
                Some(name) => text_contains(name.as_str(), version) && text_ends_with(
                    name.as_str(),
                    EXTRACT_SUFFIX,
                ),
                None => false,
            };
            if named {
                proof {
                    first_named_stays(all, version@, i + 1);
                }
                return Ok(Some(entry.path.clone()));
            }
            i += 1;
        }
        Ok(None)
    }
}

/// What is found first among the first `k` entries is found first among
/// all.
proof fn first_named_stays(entries: Seq<FileEntryModel>, version: Seq<char>, k: int)
    requires
        0 <= k <= entries.len(),
        first_naming(entries, version, k) is Some,
    ensures
        first_naming(entries, version, entries.len() as int) == first_naming(entries, version, k),
    decreases entries.len() - k,
{
    if k < entries.len() {
        first_named_stays(entries, version, k + 1);
    }
}

pub const EXAMPLE_NODES_DIFF: i64 = 42;

pub const EXAMPLE_WAYS_DIFF: i64 = -3;

pub const EXAMPLE_RELATIONS_DIFF: i64 = 1;

/// Half a percent, in tenths of a percent.
pub const EXAMPLE_COMPLETENESS_DIFF: i64 = 5;

pub const EXAMPLE_ERRORS_DIFF: i64 = -2;

pub const EXAMPLE_CHANGE_TYPE: &'static str = "highway";

pub const EXAMPLE_CHANGE_TEXT: &'static str = "New residential roads added";

pub const EXAMPLE_CHANGE_IMPACT: &'static str = "Improved navigation coverage";

/// 47.16° north.
pub const EXAMPLE_CHANGE_LAT: i64 = 471_600_000;

/// 9.52° east.
pub const EXAMPLE_CHANGE_LON: i64 = 95_200_000;

pub const COMPARISON_HEAD: &'static str = "Comparison between ";

pub const COMPARISON_AND: &'static str = " and ";

pub const COMPARISON_NODES: &'static str = ": +";

pub const COMPARISON_WAYS: &'static str = " nodes, ";

pub const COMPARISON_RELATIONS: &'static str = " ways, +";

pub const COMPARISON_TAIL: &'static str = " relations";

/// The sentence that sums up a comparison of two versions.
pub open spec fn comparison_summary(
    from_version: Seq<char>,
    to_version: Seq<char>,
    nodes: int,
    ways: int,
    relations: int,
) -> Seq<char> {
    COMPARISON_HEAD@ + from_version + COMPARISON_AND@ + to_version + COMPARISON_NODES@
        + signed_decimal(nodes) + COMPARISON_WAYS@ + signed_decimal(ways) + COMPARISON_RELATIONS@
        + signed_decimal(relations) + COMPARISON_TAIL@
}

/// The comparison holds the two versions, the example figures and the one
/// example change.
pub open spec fn is_example_comparison(
    c: RegionComparison,
    region_id: Seq<char>,
    from_version: Seq<char>,
    to_version: Seq<char>,
) -> bool {
    &&& c.region_id@ == region_id
    &&& c.from_version@ == from_version
    &&& c.to_version@ == to_version
    &&& c.metrics_diff.nodes_diff == EXAMPLE_NODES_DIFF
    &&& c.metrics_diff.ways_diff == EXAMPLE_WAYS_DIFF
    &&& c.metrics_diff.relations_diff == EXAMPLE_RELATIONS_DIFF
    &&& c.metrics_diff.completeness_diff == EXAMPLE_COMPLETENESS_DIFF
    &&& c.metrics_diff.errors_diff == EXAMPLE_ERRORS_DIFF
    &&& c.metrics_diff.feature_changes@.len() == 0
    &&& c.summary@ == comparison_summary(
        from_version,
        to_version,
        EXAMPLE_NODES_DIFF as int,
        EXAMPLE_WAYS_DIFF as int,
        EXAMPLE_RELATIONS_DIFF as int,
    )
    &&& c.change_details@.len() == 1
    &&& c.change_details@[0].change_type@ == EXAMPLE_CHANGE_TYPE@
    &&& c.change_details@[0].description@ == EXAMPLE_CHANGE_TEXT@
    &&& c.change_details@[0].impact@ == EXAMPLE_CHANGE_IMPACT@
    &&& c.change_details@[0].location == Some((EXAMPLE_CHANGE_LAT, EXAMPLE_CHANGE_LON))
}

impl Storage {
    /// Compares two versions of a region as of the instant `now`. The
    /// metrics of stored versions are not kept, so the comparison shows
    /// fixed example figures and one example change, whatever the versions.
    pub fn compare_versions_at(&self, region_id: &str, from_version: &str, to_version: &str, now: Timestamp) -> (c:
        RegionComparison)
        ensures
            is_example_comparison(c, region_id@, from_version@, to_version@),
            c.comparison_date == now,
    {
        let metrics_diff = QualityMetricsDiff {
            nodes_diff: EXAMPLE_NODES_DIFF,
            ways_diff: EXAMPLE_WAYS_DIFF,
            relations_diff: EXAMPLE_RELATIONS_DIFF,
            completeness_diff: EXAMPLE_COMPLETENESS_DIFF,
            errors_diff: EXAMPLE_ERRORS_DIFF,
            feature_changes: Vec::new(),
        };
        let mut change_details: Vec<ChangeDetail> = Vec::new();
        change_details.push(
            ChangeDetail {
                change_type: String::from_str(EXAMPLE_CHANGE_TYPE),
                description: String::from_str(EXAMPLE_CHANGE_TEXT),
                impact: String::from_str(EXAMPLE_CHANGE_IMPACT),
                location: Some((EXAMPLE_CHANGE_LAT, EXAMPLE_CHANGE_LON)),
            },
        );
        let mut summary = String::from_str(COMPARISON_HEAD);
        summary.append(from_version);
        summary.append(COMPARISON_AND);
        summary.append(to_version);
        summary.append(COMPARISON_NODES);
        summary.append(signed_decimal_text(metrics_diff.nodes_diff).as_str());
        summary.append(COMPARISON_WAYS);
        summary.append(signed_decimal_text(metrics_diff.ways_diff).as_str());
        summary.append(COMPARISON_RELATIONS);
        summary.append(signed_decimal_text(metrics_diff.relations_diff).as_str());
        summary.append(COMPARISON_TAIL);
        RegionComparison {
            region_id: String::from_str(region_id),
            from_version: String::from_str(from_version),
            to_version: String::from_str(to_version),
            comparison_date: now,
            metrics_diff,
            summary,
            change_details,
        }
    }

    /// Compares two versions of a region as of the current time: see
    /// `compare_versions_at`. Always succeeds.
    pub fn compare_versions(&self, region_id: &str, from_version: &str, to_version: &str) -> (r:
        Result<RegionComparison, RiemapError>)
        ensures
            r is Ok,
            is_example_comparison(r->Ok_0, region_id@, from_version@, to_version@),
    {
        Ok(self.compare_versions_at(region_id, from_version, to_version, now_millis()))
    }
}

} // verus!
