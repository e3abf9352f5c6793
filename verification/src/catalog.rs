//! Normalisation of a raw feature catalog into regions: parent links are
//! resolved, administrative levels follow from the depth below a root,
//! bounding boxes from geometry or estimate, and features whose chain of
//! parents never reaches a root are left out.

use vstd::prelude::*;
use vstd::string::*;
use vstd::hash_map::StringHashMap;
use crate::clock::now_millis;
use crate::error::RiemapError;
use crate::geometry::{
    feature_box, geometry_bounds_are_ordered, known_box, Geometry, GeometryModel,
};
use crate::models::{AdminLevel, Region, RegionModel, Timestamp};
use crate::storage::Storage;
use crate::text::{copy_opt_text, opt_chars, opt_text_is};

verus! {

/// Download addresses of a feature.
#[derive(Debug)]
pub struct GeofabrikUrls {
    pub pbf: Option<String>,
}

/// Properties of one feature of the catalog.
#[derive(Debug)]
pub struct GeofabrikProperties {
    pub id: String,
    pub name: String,
    pub parent: Option<String>,
    pub urls: Option<GeofabrikUrls>,
    pub iso3166_1_alpha2: Option<Vec<String>>,
    pub iso3166_2: Option<Vec<String>>,
}

/// One feature of the catalog.
#[derive(Debug)]
pub struct GeofabrikFeature {
    pub properties: GeofabrikProperties,
    pub geometry: Option<Geometry>,
}

/// The catalog as it is published.
#[derive(Debug)]
pub struct GeofabrikIndex {
    pub features: Vec<GeofabrikFeature>,
}

/// What normalisation reads of a feature.
pub struct FeatureModel {
    pub id: Seq<char>,
    pub name: Seq<char>,
    pub parent: Option<Seq<char>>,
    pub geometry: Option<GeometryModel>,
    /// Address of the feature's extract.
    pub pbf: Option<Seq<char>>,
    /// The first of the feature's country codes.
    pub country: Option<Seq<char>>,
}

/// The address of the extract among the addresses of a feature.
pub open spec fn pbf_of(urls: Option<GeofabrikUrls>) -> Option<Seq<char>> {
    match urls {
        Some(u) => opt_chars(u.pbf),
        None => None,
    }
}

/// The first code of a list of codes.
pub open spec fn first_code(codes: Option<Vec<String>>) -> Option<Seq<char>> {
    match codes {
        Some(list) => if list@.len() > 0 {
            Some(list@[0]@)
        } else {
            None
        },
        None => None,
    }
}

impl DeepView for GeofabrikFeature {
    type V = FeatureModel;

    open spec fn deep_view(&self) -> FeatureModel {
        FeatureModel {
            id: self.properties.id@,
            name: self.properties.name@,
            parent: opt_chars(self.properties.parent),
            geometry: self.geometry.deep_view(),
            pbf: pbf_of(self.properties.urls),
            country: first_code(self.properties.iso3166_1_alpha2),
        }
    }
}

/// Position of the last feature with the given identifier.
pub open spec fn last_index(fs: Seq<FeatureModel>, id: Seq<char>) -> Option<int>
    decreases fs.len(),
{
    if fs.len() == 0 {
        None
    } else if fs.last().id == id {
        Some(fs.len() - 1)
    } else {
        last_index(fs.drop_last(), id)
    }
}

/// Position of the feature that feature `i` names as its parent; none for
/// a feature without a parent and for one whose parent is not in the
/// catalog.
pub open spec fn parent_index(fs: Seq<FeatureModel>, i: int) -> Option<int> {
    match fs[i].parent {
        Some(p) => last_index(fs, p),
        None => None,
    }
}

/// Feature `i` names a parent that is not in the catalog.
pub open spec fn is_dangling(fs: Seq<FeatureModel>, i: int) -> bool {
    fs[i].parent matches Some(p) && last_index(fs, p) is None
}

/// Number of steps from feature `i` up to a root, if a root is reached
/// within `hops` steps. A root is a feature without a parent in the
/// catalog.
pub open spec fn depth_within(fs: Seq<FeatureModel>, i: int, hops: nat) -> Option<nat>
    decreases hops,
{
    match parent_index(fs, i) {
        None => Some(0),
        Some(p) => if hops == 0 {
            None
        } else {
            match depth_within(fs, p, (hops - 1) as nat) {
                Some(d) => Some(d + 1),
                None => None,
            }
        },
    }
}

/// Depth of feature `i` below its root; none where no root is reached
/// within as many steps as the catalog has features.
pub open spec fn depth_of(fs: Seq<FeatureModel>, i: int) -> Option<nat> {
    depth_within(fs, i, fs.len())
}

/// The feature reaches a root, so it becomes a region.
pub open spec fn is_kept(fs: Seq<FeatureModel>, i: int) -> bool {
    depth_of(fs, i) is Some
}

/// Administrative level of feature `i`; none for a feature that is left
/// out.
pub open spec fn level_of(fs: Seq<FeatureModel>, i: int) -> Option<AdminLevel> {
    match depth_of(fs, i) {
        Some(d) => Some(AdminLevel::at_depth(d)),
        None => None,
    }
}

/// `last_index` finds a feature with the identifier, and finds one
/// whenever there is one.
pub proof fn last_index_finds(fs: Seq<FeatureModel>, id: Seq<char>)
    ensures
        last_index(fs, id) matches Some(j) ==> 0 <= j < fs.len() && fs[j].id == id,
        last_index(fs, id) is None ==> forall|j: int| 0 <= j < fs.len() ==> fs[j].id != id,
    decreases fs.len(),
{
    if fs.len() > 0 && fs.last().id != id {
        last_index_finds(fs.drop_last(), id);
        assert forall|j: int| 0 <= j < fs.len() && last_index(fs, id) is None implies fs[j].id
            != id by {
            if j < fs.len() - 1 {
                assert(fs.drop_last()[j] == fs[j]);
            }
        }
    }
}

/// A table from identifier to the position of the last feature that has
/// it.
fn index_by_id(features: &Vec<GeofabrikFeature>) -> (table: StringHashMap<usize>)
    ensures
        forall|id: Seq<char>|
            (#[trigger] table@.contains_key(id)) == (last_index(features.deep_view(), id) is Some),
        forall|id: Seq<char>|
            #[trigger] table@.contains_key(id) ==> last_index(features.deep_view(), id) == Some(
                table@[id] as int,
            ),
{
    let ghost fs = features.deep_view();
    let mut table: StringHashMap<usize> = StringHashMap::new();
    let mut i: usize = 0;
    assert(fs.take(0) =~= Seq::empty());
    while i < features.len()
        invariant
            i <= features@.len(),
            fs == features.deep_view(),
            forall|id: Seq<char>|
                (#[trigger] table@.contains_key(id)) == (last_index(fs.take(i as int), id) is Some),
            forall|id: Seq<char>|
                #[trigger] table@.contains_key(id) ==> last_index(fs.take(i as int), id) == Some(
                    table@[id] as int,
                ),
        decreases features@.len() - i,
    {
        proof {
            assert(fs.take(i + 1).drop_last() =~= fs.take(i as int));
            assert(fs.take(i + 1).last() == features@[i as int].deep_view());
        }
        table.insert(features[i].properties.id.clone(), i);
        i += 1;
    }
    assert(fs.take(i as int) =~= fs);
    table
}

/// The parent position of every feature.
fn resolve_parents(features: &Vec<GeofabrikFeature>) -> (links: Vec<Option<usize>>)
    ensures
        links@.len() == features@.len(),
        forall|i: int|
            0 <= i < links@.len() ==> match #[trigger] links@[i] {
                Some(p) => parent_index(features.deep_view(), i) == Some(p as int) && p
                    < features@.len(),
                None => parent_index(features.deep_view(), i) is None,
            },
{
    let ghost fs = features.deep_view();
    let table = index_by_id(features);
    let mut links: Vec<Option<usize>> = Vec::new();
    let mut i: usize = 0;
    while i < features.len()
        invariant
            i <= features@.len(),
            fs == features.deep_view(),
            links@.len() == i,
            forall|id: Seq<char>|
                (#[trigger] table@.contains_key(id)) == (last_index(fs, id) is Some),
            forall|id: Seq<char>|
                #[trigger] table@.contains_key(id) ==> last_index(fs, id) == Some(
                    table@[id] as int,
                ),
            forall|k: int|
                0 <= k < i ==> match #[trigger] links@[k] {
                    Some(p) => parent_index(fs, k) == Some(p as int) && p < features@.len(),
                    None => parent_index(fs, k) is None,
                },
        decreases features@.len() - i,
    {
        let link = match &features[i].properties.parent {
            Some(p) => {
                proof {
                    last_index_finds(fs, p@);
                }
                match table.get(p.as_str()) {
                    Some(j) => Some(*j),
                    None => None,
                }
            },
            None => None,
        };
        assert(fs[i as int] == features@[i as int].deep_view());
        links.push(link);
        i += 1;
    }
    links
}

/// Depth over resolved links: the number of steps from `i` to a position
/// without a link, if one is reached within `hops` steps.
pub open spec fn link_depth(links: Seq<Option<usize>>, i: int, hops: nat) -> Option<nat>
    decreases hops,
{
    match links[i] {
        None => Some(0),
        Some(p) => if hops == 0 {
            None
        } else {
            match link_depth(links, p as int, (hops - 1) as nat) {
                Some(d) => Some(d + 1),
                None => None,
            }
        },
    }
}

/// `depth` raised by `steps`.
pub open spec fn raised(depth: Option<nat>, steps: nat) -> Option<nat> {
    match depth {
        Some(d) => Some(d + steps),
        None => None,
    }
}

/// Walks up from `start` until a position without a link is reached or as
/// many steps were made as there are positions.
fn walk_to_root(links: &Vec<Option<usize>>, start: usize) -> (depth: Option<usize>)
    requires
        start < links@.len(),
        forall|k: int| 0 <= k < links@.len() ==> (#[trigger] links@[k] matches Some(p) ==> p < links@.len()),
    ensures
        depth matches Some(d) ==> link_depth(links@, start as int, links@.len()) == Some(d as nat),
        depth is None ==> link_depth(links@, start as int, links@.len()) is None,
{
    let n = links.len();
    let mut at = start;
    let mut steps: usize = 0;
    loop
        invariant
            n == links@.len(),
            at < n,
            steps <= n,
            forall|k: int| 0 <= k < links@.len() ==> (#[trigger] links@[k] matches Some(p) ==> p < links@.len()),
            link_depth(links@, start as int, n as nat) == raised(
                link_depth(links@, at as int, (n - steps) as nat),
                steps as nat,
            ),
        decreases n - steps,
    {
        match links[at] {
            None => {
                return Some(steps);
            },
            Some(p) => {
                if steps == n {
                    return None;
                }
                at = p;
                steps += 1;
            },
        }
    }
}

/// Resolved links give the depth that the features' parents give.
proof fn link_depth_is_depth(fs: Seq<FeatureModel>, links: Seq<Option<usize>>, i: int, hops: nat)
    requires
        links.len() == fs.len(),
        0 <= i < fs.len(),
        forall|k: int|
            0 <= k < links.len() ==> match #[trigger] links[k] {
                Some(p) => parent_index(fs, k) == Some(p as int) && p < fs.len(),
                None => parent_index(fs, k) is None,
            },
    ensures
        link_depth(links, i, hops) == depth_within(fs, i, hops),
    decreases hops,
{
    match links[i] {
        None => {},
        Some(p) => {
            if hops > 0 {
                link_depth_is_depth(fs, links, p as int, (hops - 1) as nat);
            }
        },
    }
}

impl Storage {
    /// Determines the administrative level of every feature in three
    /// passes: identifiers are indexed, parents are resolved, and each
    /// chain of parents is walked up to its root. A feature without a
    /// parent in the catalog is a continent, its children are countries,
    /// theirs are regions, and all below are subregions. A feature whose
    /// chain reaches no root has no level.
    pub fn determine_admin_levels_multi_pass(&self, features: &Vec<GeofabrikFeature>) -> (levels:
        Vec<Option<AdminLevel>>)
        ensures
            levels@.len() == features@.len(),
            forall|i: int|
                0 <= i < levels@.len() ==> #[trigger] levels@[i] == level_of(
                    features.deep_view(),
                    i,
                ),
    {
        let links = resolve_parents(features);
        levels_from_links(&links, Ghost(features.deep_view()))
    }
}

/// The level of every feature, from its resolved links.
fn levels_from_links(links: &Vec<Option<usize>>, fs: Ghost<Seq<FeatureModel>>) -> (levels: Vec<
    Option<AdminLevel>,
>)
    requires
        links@.len() == fs@.len(),
        forall|k: int|
            0 <= k < links@.len() ==> match #[trigger] links@[k] {
                Some(p) => parent_index(fs@, k) == Some(p as int) && p < fs@.len(),
                None => parent_index(fs@, k) is None,
            },
    ensures
        levels@.len() == fs@.len(),
        forall|i: int| 0 <= i < levels@.len() ==> #[trigger] levels@[i] == level_of(fs@, i),
{
    let mut levels: Vec<Option<AdminLevel>> = Vec::new();
    let mut i: usize = 0;
    while i < links.len()
        invariant
            i <= links@.len(),
            links@.len() == fs@.len(),
            levels@.len() == i,
            forall|k: int|
                0 <= k < links@.len() ==> match #[trigger] links@[k] {
                    Some(p) => parent_index(fs@, k) == Some(p as int) && p < fs@.len(),
                    None => parent_index(fs@, k) is None,
                },
            forall|k: int| 0 <= k < i ==> #[trigger] levels@[k] == level_of(fs@, k),
        decreases links@.len() - i,
    {
        proof {
            link_depth_is_depth(fs@, links@, i as int, fs@.len());
        }
        let level = match walk_to_root(links, i) {
            Some(d) => Some(AdminLevel::from_depth(d)),
            None => None,
        };
        levels.push(level);
        i += 1;
    }
    levels
}

/// A defect of the catalog's structure that normalisation met and lived
/// with.
#[derive(Debug)]
pub enum StructuralWarning {
    /// The feature names a parent that the catalog does not hold. It is
    /// kept as a root.
    DanglingParent { id: String, parent: String },
    /// The feature's chain of parents runs into a cycle. It is left out.
    Cycle { id: String },
}

/// What a `StructuralWarning` holds, with text as character sequences.
pub enum StructuralWarningModel {
    DanglingParent { id: Seq<char>, parent: Seq<char> },
    Cycle { id: Seq<char> },
}

impl DeepView for StructuralWarning {
    type V = StructuralWarningModel;

    open spec fn deep_view(&self) -> StructuralWarningModel {
        match self {
            StructuralWarning::DanglingParent { id, parent } => {
                StructuralWarningModel::DanglingParent { id: id@, parent: parent@ }
            },
            StructuralWarning::Cycle { id } => StructuralWarningModel::Cycle { id: id@ },
        }
    }
}

/// Regions and warnings that one catalog gives.
#[derive(Debug)]
pub struct NormalizedCatalog {
    pub regions: Vec<Region>,
    pub warnings: Vec<StructuralWarning>,
}

/// Feature `j` is kept, is not feature `i`, and names the identifier of
/// feature `i` as its parent.
pub open spec fn is_child_of(fs: Seq<FeatureModel>, j: int, i: int) -> bool {
    &&& 0 <= j < fs.len()
    &&& j != i
    &&& is_kept(fs, j)
    &&& fs[j].parent == Some(fs[i].id)
}

/// Some other kept feature names feature `i` as its parent.
pub open spec fn has_kept_child(fs: Seq<FeatureModel>, i: int) -> bool {
    exists|j: int| is_child_of(fs, j, i)
}

/// The region that the kept feature `i` becomes. A parent that the
/// catalog does not hold is dropped, so the region is a root.
pub open spec fn region_of(fs: Seq<FeatureModel>, i: int, now: Timestamp) -> RegionModel {
    RegionModel {
        id: fs[i].id,
        name: fs[i].name,
        admin_level: AdminLevel::at_depth(depth_of(fs, i)->Some_0),
        parent_id: if is_dangling(fs, i) {
            None
        } else {
            fs[i].parent
        },
        bounding_box: feature_box(fs[i].id, fs[i].parent, fs[i].geometry),
        area_km2: None,
        population: None,
        country_code: fs[i].country,
        geofabrik_url: fs[i].pbf,
        has_children: has_kept_child(fs, i),
        created_at: now,
        updated_at: now,
    }
}

/// The regions of the first `k` features, in the order of the features.
pub open spec fn regions_upto(fs: Seq<FeatureModel>, k: int, now: Timestamp) -> Seq<RegionModel>
    decreases k,
{
    if k <= 0 {
        Seq::empty()
    } else if is_kept(fs, k - 1) {
        regions_upto(fs, k - 1, now).push(region_of(fs, k - 1, now))
    } else {
        regions_upto(fs, k - 1, now)
    }
}

/// The warnings that feature `i` gives: one where its parent is missing,
/// one where it is left out.
pub open spec fn warnings_for(fs: Seq<FeatureModel>, i: int) -> Seq<StructuralWarningModel> {
    if is_dangling(fs, i) {
        seq![StructuralWarningModel::DanglingParent { id: fs[i].id, parent: fs[i].parent->Some_0 }]
    } else if !is_kept(fs, i) {
        seq![StructuralWarningModel::Cycle { id: fs[i].id }]
    } else {
        Seq::empty()
    }
}

/// The warnings of the first `k` features, in the order of the features.
pub open spec fn warnings_upto(fs: Seq<FeatureModel>, k: int) -> Seq<StructuralWarningModel>
    decreases k,
{
    if k <= 0 {
        Seq::empty()
    } else {
        warnings_upto(fs, k - 1) + warnings_for(fs, k - 1)
    }
}

/// The regions of a catalog, stamped with `now`.
pub open spec fn regions_of(fs: Seq<FeatureModel>, now: Timestamp) -> Seq<RegionModel> {
    regions_upto(fs, fs.len() as int, now)
}

/// The warnings of a catalog.
pub open spec fn warnings_of(fs: Seq<FeatureModel>) -> Seq<StructuralWarningModel> {
    warnings_upto(fs, fs.len() as int)
}

/// Number of kept features among the first `k` that name `id` as their
/// parent.
pub open spec fn children_upto(fs: Seq<FeatureModel>, id: Seq<char>, k: int) -> nat
    decreases k,
{
    if k <= 0 {
        0
    } else {
        children_upto(fs, id, k - 1) + if is_kept(fs, k - 1) && fs[k - 1].parent == Some(id) {
            1nat
        } else {
            0nat
        }
    }
}

/// Feature `i` is kept and names its own identifier as its parent.
pub open spec fn is_own_child(fs: Seq<FeatureModel>, i: int) -> bool {
    is_kept(fs, i) && fs[i].parent == Some(fs[i].id)
}

/// The children counted under the identifier of feature `i` are the other
/// features that are its children, and the feature itself where it names
/// its own identifier.
proof fn children_count_splits(fs: Seq<FeatureModel>, i: int, k: int)
    requires
        0 <= i < fs.len(),
        0 <= k <= fs.len(),
    ensures
        children_upto(fs, fs[i].id, k) >= if i < k && is_own_child(fs, i) {
            1nat
        } else {
            0nat
        },
        (children_upto(fs, fs[i].id, k) > if i < k && is_own_child(fs, i) {
            1nat
        } else {
            0nat
        }) <==> exists|j: int| j < k && is_child_of(fs, j, i),
    decreases k,
{
    if k > 0 {
        children_count_splits(fs, i, k - 1);
        let j = k - 1;
        if exists|j: int| j < k - 1 && is_child_of(fs, j, i) {
            let w = choose|j: int| j < k - 1 && is_child_of(fs, j, i);
            assert(w < k && is_child_of(fs, w, i));
        }
        if j != i && is_kept(fs, j) && fs[j].parent == Some(fs[i].id) {
            assert(j < k && is_child_of(fs, j, i));
        }
        if exists|j: int| j < k && is_child_of(fs, j, i) {
            let w = choose|j: int| j < k && is_child_of(fs, j, i);
            if w < k - 1 {
                assert(w < k - 1 && is_child_of(fs, w, i));
            }
        }
    }
}

/// The number of kept children under every identifier that has any.
fn count_children(features: &Vec<GeofabrikFeature>, levels: &Vec<Option<AdminLevel>>) -> (counts:
    StringHashMap<usize>)
    requires
        levels@.len() == features@.len(),
        forall|i: int|
            0 <= i < levels@.len() ==> #[trigger] levels@[i] == level_of(features.deep_view(), i),
    ensures
        forall|id: Seq<char>|
            (#[trigger] counts@.contains_key(id)) == (children_upto(
                features.deep_view(),
                id,
                features@.len() as int,
            ) > 0),
        forall|id: Seq<char>|
            #[trigger] counts@.contains_key(id) ==> counts@[id] == children_upto(
                features.deep_view(),
                id,
                features@.len() as int,
            ),
{
    let ghost fs = features.deep_view();
    let mut counts: StringHashMap<usize> = StringHashMap::new();
    let mut i: usize = 0;
    while i < features.len()
        invariant
            i <= features@.len(),
            fs == features.deep_view(),
            levels@.len() == features@.len(),
            forall|k: int| 0 <= k < levels@.len() ==> #[trigger] levels@[k] == level_of(fs, k),
            forall|id: Seq<char>|
                (#[trigger] counts@.contains_key(id)) == (children_upto(fs, id, i as int) > 0),
            forall|id: Seq<char>|
                #[trigger] counts@.contains_key(id) ==> counts@[id] == children_upto(
                    fs,
                    id,
                    i as int,
                ),
            forall|id: Seq<char>| children_upto(fs, id, i as int) <= i,
        decreases features@.len() - i,
    {
        assert(fs[i as int] == features@[i as int].deep_view());
        assert(levels@[i as int] == level_of(fs, i as int));
        if levels[i].is_some() {
            match &features[i].properties.parent {
                Some(p) => {
                    let so_far: usize = match counts.get(p.as_str()) {
                        Some(c) => *c,
                        None => 0,
                    };
                    assert(so_far == children_upto(fs, p@, i as int));
                    counts.insert(p.clone(), so_far + 1);
                },
                None => {},
            }
        }
        proof {
            let next = i + 1;
            assert forall|id: Seq<char>| #[trigger] children_upto(fs, id, next) <= next by {
                assert(children_upto(fs, id, i as int) <= i);
            }
        }
        i += 1;
    }
    counts
}

/// The positions of the kept features among the first `k`, ascending.
pub open spec fn kept_upto(fs: Seq<FeatureModel>, k: int) -> Seq<int>
    decreases k,
{
    if k <= 0 {
        Seq::empty()
    } else if is_kept(fs, k - 1) {
        kept_upto(fs, k - 1).push(k - 1)
    } else {
        kept_upto(fs, k - 1)
    }
}

/// The regions of the first `k` features are the regions of the kept
/// features among them, each kept feature once and in ascending order.
pub proof fn regions_follow_kept(fs: Seq<FeatureModel>, k: int, now: Timestamp)
    requires
        0 <= k <= fs.len(),
    ensures
        regions_upto(fs, k, now).len() == kept_upto(fs, k).len(),
        forall|q: int|
            0 <= q < kept_upto(fs, k).len() ==> {
                &&& 0 <= #[trigger] kept_upto(fs, k)[q] < k
                &&& is_kept(fs, kept_upto(fs, k)[q])
                &&& regions_upto(fs, k, now)[q] == region_of(fs, kept_upto(fs, k)[q], now)
            },
        forall|p: int, q: int|
            0 <= p < q < kept_upto(fs, k).len() ==> #[trigger] kept_upto(fs, k)[p]
                < #[trigger] kept_upto(fs, k)[q],
        forall|j: int|
            0 <= j < k && #[trigger] is_kept(fs, j) ==> exists|q: int|
                0 <= q < kept_upto(fs, k).len() && #[trigger] kept_upto(fs, k)[q] == j,
    decreases k,
{
    if k > 0 {
        regions_follow_kept(fs, k - 1, now);
        let before = kept_upto(fs, k - 1);
        let idx = kept_upto(fs, k);
        assert forall|j: int| 0 <= j < k && #[trigger] is_kept(fs, j) implies exists|q: int|
            0 <= q < idx.len() && #[trigger] idx[q] == j by {
            if j < k - 1 {
                let q = choose|q: int| 0 <= q < before.len() && #[trigger] before[q] == j;
                assert(idx[q] == j);
            } else {
                assert(idx[idx.len() - 1] == j);
            }
        }
    }
}

/// Every region of a catalog has a box whose lower bounds do not exceed
/// its upper bounds.
pub proof fn regions_have_ordered_boxes(fs: Seq<FeatureModel>, now: Timestamp)
    ensures
        forall|k: int|
            0 <= k < regions_of(fs, now).len() ==> (#[trigger] regions_of(
                fs,
                now,
            )[k]).bounding_box.is_ordered(),
{
    let rs = regions_of(fs, now);
    regions_follow_kept(fs, fs.len() as int, now);
    assert forall|k: int| 0 <= k < rs.len() implies (#[trigger] rs[k]).bounding_box.is_ordered() by {
        let i = kept_upto(fs, fs.len() as int)[k];
        feature_box_is_ordered(fs[i].id, fs[i].parent, fs[i].geometry);
    }
}

/// The box of a feature is ordered whatever its identifier, parent and
/// geometry.
pub proof fn feature_box_is_ordered(
    id: Seq<char>,
    parent: Option<Seq<char>>,
    geometry: Option<GeometryModel>,
)
    ensures
        feature_box(id, parent, geometry).is_ordered(),
{
    if let Some(g) = geometry {
        geometry_bounds_are_ordered(g);
    }
    known_boxes_are_ordered(id);
    if let Some(p) = parent {
        known_boxes_are_ordered(p);
    }
}

/// Every box of the table of known regions is ordered.
pub proof fn known_boxes_are_ordered(id: Seq<char>)
    ensures
        known_box(id) matches Some(b) ==> b.is_ordered(),
{
}

/// A region is flagged as having children exactly where another region of
/// the same catalog names it as its parent.
pub proof fn children_flags_are_exact(fs: Seq<FeatureModel>, now: Timestamp)
    ensures
        forall|k: int|
            0 <= k < regions_of(fs, now).len() ==> ((#[trigger] regions_of(
                fs,
                now,
            )[k]).has_children <==> exists|q: int|
                0 <= q < regions_of(fs, now).len() && q != k && (#[trigger] regions_of(
                    fs,
                    now,
                )[q]).parent_id == Some(regions_of(fs, now)[k].id)),
{
    let n = fs.len() as int;
    let rs = regions_of(fs, now);
    let idx = kept_upto(fs, n);
    regions_follow_kept(fs, n, now);
    assert forall|k: int| 0 <= k < rs.len() implies ((#[trigger] rs[k]).has_children <==> exists|
        q: int,
    |
        0 <= q < rs.len() && q != k && (#[trigger] rs[q]).parent_id == Some(rs[k].id)) by {
        let i = idx[k];
        assert(rs[k] == region_of(fs, i, now));
        if rs[k].has_children {
            let j = choose|j: int| is_child_of(fs, j, i);
            assert(is_kept(fs, j));
            let q = choose|q: int| 0 <= q < idx.len() && #[trigger] idx[q] == j;
            assert(rs[q] == region_of(fs, j, now));
            last_index_finds(fs, fs[i].id);
            assert(!is_dangling(fs, j));
            assert(q != k);
            assert(rs[q].parent_id == Some(rs[k].id));
        }
        if exists|q: int|
            0 <= q < rs.len() && q != k && (#[trigger] rs[q]).parent_id == Some(rs[k].id) {
            let q = choose|q: int|
                0 <= q < rs.len() && q != k && (#[trigger] rs[q]).parent_id == Some(rs[k].id);
            let j = idx[q];
            assert(rs[q] == region_of(fs, j, now));
            if q < k {
                assert(idx[q] < idx[k]);
            } else {
                assert(idx[k] < idx[q]);
            }
            assert(is_child_of(fs, j, i));
        }
    }
}

/// The list of regions holds what the catalog gives at the instant `now`.
pub open spec fn is_normal_form(out: NormalizedCatalog, fs: Seq<FeatureModel>, now: Timestamp) -> bool {
    &&& out.regions.deep_view() == regions_of(fs, now)
    &&& out.warnings.deep_view() == warnings_of(fs)
}

/// No region has a box whose lower bound exceeds its upper bound.
pub open spec fn boxes_are_ordered(regions: Seq<RegionModel>) -> bool {
    forall|k: int| 0 <= k < regions.len() ==> (#[trigger] regions[k]).bounding_box.is_ordered()
}

/// A region is flagged as having children exactly where another region of
/// the list names it as its parent.
pub open spec fn child_flags_are_exact(regions: Seq<RegionModel>) -> bool {
    forall|k: int|
        0 <= k < regions.len() ==> ((#[trigger] regions[k]).has_children <==> exists|q: int|
            0 <= q < regions.len() && q != k && (#[trigger] regions[q]).parent_id == Some(
                regions[k].id,
            ))
}

fn first_of(codes: &Option<Vec<String>>) -> (r: Option<String>)
    ensures
        opt_chars(r) == first_code(*codes),
{
    match codes {
        Some(list) => if list.len() > 0 {
            Some(list[0].clone())
        } else {
            None
        },
        None => None,
    }
}

fn pbf_address(urls: &Option<GeofabrikUrls>) -> (r: Option<String>)
    ensures
        opt_chars(r) == pbf_of(*urls),
{
    match urls {
        Some(u) => copy_opt_text(&u.pbf),
        None => None,
    }
}

impl Storage {
    /// Turns the catalog into regions stamped with `now`. Features keep
    /// their order. A feature whose parent is missing becomes a root and
    /// draws a warning; a feature whose chain of parents reaches no root
    /// within as many steps as there are features is left out and draws a
    /// warning.
    pub fn convert_geofabrik_to_regions_at(&self, index: &GeofabrikIndex, now: Timestamp) -> (out:
        NormalizedCatalog)
        ensures
            is_normal_form(out, index.features.deep_view(), now),
            boxes_are_ordered(out.regions.deep_view()),
            child_flags_are_exact(out.regions.deep_view()),
    {
        let features = &index.features;
        let ghost fs = features.deep_view();
        let links = resolve_parents(features);
        let levels = levels_from_links(&links, Ghost(fs));
        let counts = count_children(features, &levels);
        let mut regions: Vec<Region> = Vec::new();
        let mut warnings: Vec<StructuralWarning> = Vec::new();
        let mut i: usize = 0;
        assert(regions.deep_view() =~= regions_upto(fs, 0, now));
        assert(warnings.deep_view() =~= warnings_upto(fs, 0));
        while i < features.len()
            invariant
                i <= features@.len(),
                fs == features.deep_view(),
                links@.len() == features@.len(),
                levels@.len() == features@.len(),
                forall|k: int|
                    0 <= k < links@.len() ==> match #[trigger] links@[k] {
                        Some(p) => parent_index(fs, k) == Some(p as int) && p < fs.len(),
                        None => parent_index(fs, k) is None,
                    },
                forall|k: int| 0 <= k < levels@.len() ==> #[trigger] levels@[k] == level_of(fs, k),
                forall|id: Seq<char>|
                    (#[trigger] counts@.contains_key(id)) == (children_upto(
                        fs,
                        id,
                        fs.len() as int,
                    ) > 0),
                forall|id: Seq<char>|
                    #[trigger] counts@.contains_key(id) ==> counts@[id] == children_upto(
                        fs,
                        id,
                        fs.len() as int,
                    ),
                regions.deep_view() == regions_upto(fs, i as int, now),
                warnings.deep_view() == warnings_upto(fs, i as int),
            decreases features@.len() - i,
        {
            let feature = &features[i];
            let props = &feature.properties;
            proof {
                assert(fs[i as int] == feature.deep_view());
                assert(levels@[i as int] == level_of(fs, i as int));
                children_count_splits(fs, i as int, fs.len() as int);
            }
            let dangling = props.parent.is_some() && links[i].is_none();
            assert(dangling == is_dangling(fs, i as int));
            let ghost warned = warnings.deep_view();
            if dangling {
                let parent = match &props.parent {
                    Some(p) => p.clone(),
                    None => String::new(),
                };
                warnings.push(StructuralWarning::DanglingParent { id: props.id.clone(), parent });
            }
            let ghost listed = regions.deep_view();
            match levels[i] {
                Some(level) => {
                    let bounding_box = self.bounding_box_of(
                        props.id.as_str(),
                        &props.parent,
                        &feature.geometry,
                    );
                    let under_own_id: usize = match counts.get(props.id.as_str()) {
                        Some(c) => *c,
                        None => 0,
                    };
                    let own_child = opt_text_is(&props.parent, &props.id);
                    let has_children = if own_child {
                        under_own_id > 1
                    } else {
                        under_own_id > 0
                    };
                    assert(has_children == has_kept_child(fs, i as int));
                    let region = Region {
                        id: props.id.clone(),
                        name: props.name.clone(),
                        admin_level: level,
                        parent_id: if dangling {
                            None
                        } else {
                            copy_opt_text(&props.parent)
                        },
                        bounding_box,
                        area_km2: None,
                        population: None,
                        country_code: first_of(&props.iso3166_1_alpha2),
                        geofabrik_url: pbf_address(&props.urls),
                        has_children,
                        created_at: now,
                        updated_at: now,
                    };
                    assert(region.deep_view() == region_of(fs, i as int, now));
                    regions.push(region);
                    assert(regions.deep_view() =~= listed.push(region_of(fs, i as int, now)));
                },
                None => {
                    warnings.push(StructuralWarning::Cycle { id: props.id.clone() });
                },
            }
            assert(warnings.deep_view() =~= warned + warnings_for(fs, i as int));
            i += 1;
        }
        proof {
            regions_have_ordered_boxes(fs, now);
            children_flags_are_exact(fs, now);
        }
        NormalizedCatalog { regions, warnings }
    }

    /// Turns the catalog into regions stamped with the current time.
    /// Always succeeds.
    pub fn convert_geofabrik_to_regions(&self, index: GeofabrikIndex) -> (r: Result<
        NormalizedCatalog,
        RiemapError,
    >)
        ensures
            r is Ok,
            exists|now: Timestamp| #[trigger]
                is_normal_form(r->Ok_0, index.features.deep_view(), now),
            boxes_are_ordered(r->Ok_0.regions.deep_view()),
            child_flags_are_exact(r->Ok_0.regions.deep_view()),
    {
        let now = now_millis();
        let out = self.convert_geofabrik_to_regions_at(&index, now);
        let r: Result<NormalizedCatalog, RiemapError> = Ok(out);
        assert(is_normal_form(r->Ok_0, index.features.deep_view(), now));
        r
    }
}

} // verus!
