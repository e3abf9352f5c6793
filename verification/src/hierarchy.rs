//! The region forest: regions grouped under their parents, every group of
//! siblings sorted, each node with its data files and their aggregate.

use vstd::prelude::*;
use vstd::string::*;
use vstd::hash_map::StringHashMap;
use crate::error::RiemapError;
use crate::models::{
    forest_model, tree_model, DataFile, DataFileModel, DownloadStats, Region, RegionModel,
    RegionTree, RegionTreeModel,
};
use crate::sorting::{
    inserted_at, is_ranking, sorted_by, sorted_is_ascending, sorted_is_rearranged,
};
use crate::storage::Storage;
use crate::text::{
    precedes, precedes_is_asymmetric, precedes_is_total, precedes_ranks, same_text, text_precedes,
};

verus! {

/// Levels below the top of the forest that a build expands unless told
/// otherwise.
pub const DEFAULT_MAX_DEPTH: usize = 64;

/// The characters of an optional borrowed text.
pub open spec fn opt_str_chars(o: Option<&str>) -> Option<Seq<char>> {
    match o {
        Some(s) => Some(s@),
        None => None,
    }
}

/// Region `a` goes before region `b` among siblings: by administrative
/// level, most general first; then by name; then by identifier.
pub open spec fn region_precedes(a: RegionModel, b: RegionModel) -> bool {
    ||| a.admin_level.ordinal() < b.admin_level.ordinal()
    ||| a.admin_level == b.admin_level && precedes(a.name, b.name)
    ||| a.admin_level == b.admin_level && a.name == b.name && precedes(a.id, b.id)
}

/// Two regions share level, name and identifier, so neither goes before
/// the other.
pub open spec fn same_rank(a: RegionModel, b: RegionModel) -> bool {
    a.admin_level == b.admin_level && a.name == b.name && a.id == b.id
}

/// Of two regions that differ in level, name or identifier, one goes
/// before the other.
pub proof fn sibling_order_is_total(a: RegionModel, b: RegionModel)
    ensures
        same_rank(a, b) || region_precedes(a, b) || region_precedes(b, a),
{
    precedes_is_total(a.name, b.name);
    precedes_is_total(a.id, b.id);
}

/// The order of siblings as a function value.
pub open spec fn sibling_order() -> spec_fn(RegionModel, RegionModel) -> bool {
    |a: RegionModel, b: RegionModel| region_precedes(a, b)
}

/// The order of siblings ranks regions: it never holds both ways and its
/// failure carries over from one pair to the next.
pub proof fn sibling_order_is_ranking()
    ensures
        is_ranking(sibling_order()),
{
    let before = sibling_order();
    assert forall|a: RegionModel, b: RegionModel| #[trigger] before(a, b) implies !before(b, a) by {
        precedes_is_asymmetric(a.name, b.name);
        precedes_is_asymmetric(a.id, b.id);
        precedes_is_asymmetric(a.name, a.name);
    }
    assert forall|a: RegionModel, b: RegionModel, c: RegionModel|
        !#[trigger] before(a, b) && !#[trigger] before(b, c) implies !before(a, c) by {
        precedes_ranks(a.name, b.name, c.name);
        precedes_ranks(a.id, b.id, c.id);
        precedes_is_total(a.name, b.name);
        precedes_is_total(b.name, c.name);
        precedes_is_asymmetric(a.name, c.name);
        precedes_is_asymmetric(a.name, b.name);
        precedes_is_asymmetric(b.name, c.name);
    }
}

/// The regions among the first `k` whose parent is `parent`, in the order
/// of the list.
pub open spec fn members_upto(rs: Seq<RegionModel>, parent: Option<Seq<char>>, k: int) -> Seq<
    RegionModel,
>
    decreases k,
{
    if k <= 0 {
        Seq::empty()
    } else if rs[k - 1].parent_id == parent {
        members_upto(rs, parent, k - 1).push(rs[k - 1])
    } else {
        members_upto(rs, parent, k - 1)
    }
}

/// The regions whose parent is `parent`, sorted as siblings. With no
/// parent these are the roots.
pub open spec fn siblings(rs: Seq<RegionModel>, parent: Option<Seq<char>>) -> Seq<RegionModel> {
    sorted_by(members_upto(rs, parent, rs.len() as int), sibling_order())
}

/// The files among the first `k` that belong to the region `id`, in the
/// order of the list.
pub open spec fn files_upto(files: Seq<DataFileModel>, id: Seq<char>, k: int) -> Seq<DataFileModel>
    decreases k,
{
    if k <= 0 {
        Seq::empty()
    } else if files[k - 1].region_id == id {
        files_upto(files, id, k - 1).push(files[k - 1])
    } else {
        files_upto(files, id, k - 1)
    }
}

/// The files of the region `id`.
pub open spec fn files_of(files: Seq<DataFileModel>, id: Seq<char>) -> Seq<DataFileModel> {
    files_upto(files, id, files.len() as int)
}

/// Sum of the sizes of a list of files, in bytes.
pub open spec fn size_sum(files: Seq<DataFileModel>) -> nat
    decreases files.len(),
{
    if files.len() == 0 {
        0
    } else {
        size_sum(files.drop_last()) + files.last().file_size as nat
    }
}

/// The aggregate over the files of a region: their number and total size,
/// with the region's last update and no downloads counted.
pub open spec fn stats_of(region: RegionModel, files: Seq<DataFileModel>) -> DownloadStats {
    DownloadStats {
        total_downloads: 0,
        last_updated: region.updated_at,
        file_count: files.len() as usize,
        total_size: size_sum(files) as u128,
    }
}

/// The tree below a region, `below` levels deep. A region at the bound
/// has no children in the tree and is marked where it has some in the
/// list.
pub open spec fn node_of(
    rs: Seq<RegionModel>,
    files: Seq<DataFileModel>,
    region: RegionModel,
    below: nat,
) -> RegionTreeModel
    decreases below, 0nat,
{
    RegionTreeModel {
        region,
        children: if below == 0 {
            Seq::empty()
        } else {
            nodes_of(rs, files, siblings(rs, Some(region.id)), (below - 1) as nat)
        },
        data_files: files_of(files, region.id),
        download_stats: stats_of(region, files_of(files, region.id)),
        depth_exceeded: below == 0 && siblings(rs, Some(region.id)).len() > 0,
    }
}

/// The trees below each of a list of regions, in the order of the list.
pub open spec fn nodes_of(
    rs: Seq<RegionModel>,
    files: Seq<DataFileModel>,
    regions: Seq<RegionModel>,
    below: nat,
) -> Seq<RegionTreeModel>
    decreases below, regions.len() + 1,
{
    if regions.len() == 0 {
        Seq::empty()
    } else {
        nodes_of(rs, files, regions.drop_last(), below).push(
            node_of(rs, files, regions.last(), below),
        )
    }
}

/// The forest below `parent`: its children as sorted siblings, each with
/// the tree below it, `below` levels deep.
pub open spec fn forest_of(
    rs: Seq<RegionModel>,
    files: Seq<DataFileModel>,
    parent: Option<Seq<char>>,
    below: nat,
) -> Seq<RegionTreeModel> {
    nodes_of(rs, files, siblings(rs, parent), below)
}

/// A list of trees has one tree for each region, in order.
pub proof fn nodes_by_index(
    rs: Seq<RegionModel>,
    files: Seq<DataFileModel>,
    regions: Seq<RegionModel>,
    below: nat,
)
    ensures
        nodes_of(rs, files, regions, below).len() == regions.len(),
        forall|q: int|
            0 <= q < regions.len() ==> #[trigger] nodes_of(rs, files, regions, below)[q]
                == node_of(rs, files, regions[q], below),
    decreases regions.len(),
{
    if regions.len() > 0 {
        nodes_by_index(rs, files, regions.drop_last(), below);
    }
}

/// At every level of a forest the siblings stand in ascending order: of
/// two siblings the earlier goes before the later, unless they share
/// level, name and identifier, and never the later before the earlier. The
/// siblings are the regions that name the parent, each once; and the
/// children of every node are again such a forest, one level less deep.
pub proof fn forest_is_sorted(
    rs: Seq<RegionModel>,
    files: Seq<DataFileModel>,
    parent: Option<Seq<char>>,
    below: nat,
)
    ensures
        forest_of(rs, files, parent, below).len() == siblings(rs, parent).len(),
        siblings(rs, parent).to_multiset() == members_upto(
            rs,
            parent,
            rs.len() as int,
        ).to_multiset(),
        forall|q: int|
            0 <= q < siblings(rs, parent).len() ==> {
                &&& (#[trigger] forest_of(rs, files, parent, below)[q]).region == siblings(
                    rs,
                    parent,
                )[q]
                &&& below > 0 ==> forest_of(rs, files, parent, below)[q].children == forest_of(
                    rs,
                    files,
                    Some(siblings(rs, parent)[q].id),
                    (below - 1) as nat,
                )
            },
        forall|p: int, q: int|
            0 <= p < q < siblings(rs, parent).len() ==> {
                &&& !region_precedes(
                    (#[trigger] forest_of(rs, files, parent, below)[q]).region,
                    (#[trigger] forest_of(rs, files, parent, below)[p]).region,
                )
                &&& region_precedes(
                    forest_of(rs, files, parent, below)[p].region,
                    forest_of(rs, files, parent, below)[q].region,
                ) || same_rank(
                    forest_of(rs, files, parent, below)[p].region,
                    forest_of(rs, files, parent, below)[q].region,
                )
            },
{
    let kin = siblings(rs, parent);
    let forest = forest_of(rs, files, parent, below);
    nodes_by_index(rs, files, kin, below);
    sibling_order_is_ranking();
    sorted_is_ascending(members_upto(rs, parent, rs.len() as int), sibling_order());
    sorted_is_rearranged(members_upto(rs, parent, rs.len() as int), sibling_order());
    assert forall|p: int, q: int| 0 <= p < q < kin.len() implies {
        &&& !region_precedes((#[trigger] forest[q]).region, (#[trigger] forest[p]).region)
        &&& region_precedes(forest[p].region, forest[q].region) || same_rank(
            forest[p].region,
            forest[q].region,
        )
    } by {
        assert(!sibling_order()(kin[q], kin[p]));
        sibling_order_is_total(kin[p], kin[q]);
    }
}

/// Two forests built from the same regions and files, below the same
/// parent and to the same depth, hold the same.
pub proof fn build_is_deterministic(
    first: Seq<RegionTree>,
    second: Seq<RegionTree>,
    rs: Seq<RegionModel>,
    files: Seq<DataFileModel>,
    parent: Option<Seq<char>>,
    below: nat,
)
    requires
        forest_model(first) == forest_of(rs, files, parent, below),
        forest_model(second) == forest_of(rs, files, parent, below),
    ensures
        forest_model(first) == forest_model(second),
{
}

fn goes_before(a: &Region, b: &Region) -> (r: bool)
    ensures
        r == region_precedes(a.deep_view(), b.deep_view()),
{
    let la = a.admin_level_num();
    let lb = b.admin_level_num();
    if la != lb {
        la < lb
    } else if !same_text(&a.name, &b.name) {
        text_precedes(a.name.as_str(), b.name.as_str())
    } else {
        text_precedes(a.id.as_str(), b.id.as_str())
    }
}

/// The regions at the given positions, in the order of the positions.
pub open spec fn picked(rs: Seq<RegionModel>, positions: Seq<usize>) -> Seq<RegionModel> {
    Seq::new(positions.len(), |q: int| rs[positions[q] as int])
}

/// The positions among the first `k` of the regions whose parent is
/// `parent`, ascending.
pub open spec fn member_positions(rs: Seq<RegionModel>, parent: Option<Seq<char>>, k: int) -> Seq<
    usize,
>
    decreases k,
{
    if k <= 0 {
        Seq::empty()
    } else if rs[k - 1].parent_id == parent {
        member_positions(rs, parent, k - 1).push((k - 1) as usize)
    } else {
        member_positions(rs, parent, k - 1)
    }
}

/// The regions at the member positions are the members.
proof fn members_are_picked(rs: Seq<RegionModel>, parent: Option<Seq<char>>, k: int)
    requires
        0 <= k <= rs.len() <= usize::MAX,
    ensures
        picked(rs, member_positions(rs, parent, k)) == members_upto(rs, parent, k),
        forall|q: int|
            0 <= q < member_positions(rs, parent, k).len() ==> (#[trigger] member_positions(
                rs,
                parent,
                k,
            )[q]) < k,
    decreases k,
{
    if k > 0 {
        members_are_picked(rs, parent, k - 1);
        assert(picked(rs, member_positions(rs, parent, k)) =~= members_upto(rs, parent, k));
    } else {
        assert(picked(rs, member_positions(rs, parent, k)) =~= members_upto(rs, parent, k));
    }
}

/// The positions sorted by the regions that stand at them.
fn sort_positions(regions: &Vec<Region>, positions: &Vec<usize>) -> (sorted: Vec<usize>)
    requires
        forall|q: int| 0 <= q < positions@.len() ==> (#[trigger] positions@[q]) < regions@.len(),
    ensures
        picked(regions.deep_view(), sorted@) == sorted_by(
            picked(regions.deep_view(), positions@),
            sibling_order(),
        ),
        forall|q: int| 0 <= q < sorted@.len() ==> (#[trigger] sorted@[q]) < regions@.len(),
{
    let ghost rs = regions.deep_view();
    let ghost before = sibling_order();
    let ghost given = picked(rs, positions@);
    let mut sorted: Vec<usize> = Vec::new();
    let mut i: usize = 0;
    assert(picked(rs, sorted@) =~= Seq::empty());
    assert(given.take(0) =~= Seq::empty());
    while i < positions.len()
        invariant
            i <= positions@.len(),
            rs == regions.deep_view(),
            before == sibling_order(),
            given == picked(rs, positions@),
            forall|q: int| 0 <= q < positions@.len() ==> (#[trigger] positions@[q]) < regions@.len(),
            forall|q: int| 0 <= q < sorted@.len() ==> (#[trigger] sorted@[q]) < regions@.len(),
            picked(rs, sorted@) == sorted_by(given.take(i as int), before),
        decreases positions@.len() - i,
    {
        let at = positions[i];
        let ghost x = rs[at as int];
        let ghost so_far = picked(rs, sorted@);
        assert(x == regions@[at as int].deep_view());
        let mut p: usize = sorted.len();
        let mut searching = true;
        while searching && p > 0
            invariant
                p <= sorted@.len(),
                at < regions@.len(),
                rs == regions.deep_view(),
                before == sibling_order(),
                x == rs[at as int],
                so_far == picked(rs, sorted@),
                forall|q: int| 0 <= q < sorted@.len() ==> (#[trigger] sorted@[q]) < regions@.len(),
                forall|q: int| p <= q < so_far.len() ==> before(x, #[trigger] so_far[q]),
                !searching ==> p > 0 && !before(x, so_far[p - 1]),
            decreases p + if searching {
                1nat
            } else {
                0nat
            },
        {
            let other = sorted[p - 1];
            assert(so_far[p - 1] == rs[other as int]);
            assert(rs[other as int] == regions@[other as int].deep_view());
            if goes_before(&regions[at], &regions[other]) {
                p -= 1;
            } else {
                searching = false;
            }
        }
        proof {
            inserted_at(so_far, x, before, p as int);
            assert(given.take(i + 1).drop_last() =~= given.take(i as int));
            assert(given.take(i + 1).last() == x);
        }
        sorted.insert(p, at);
        assert(picked(rs, sorted@) =~= so_far.insert(p as int, x));
        i += 1;
    }
    assert(given.take(i as int) =~= given);
    sorted
}

/// The children of every parent, found by the parent's identifier: one
/// list of positions for the regions without parent and one for every
/// identifier that some region names as its parent, each sorted as
/// siblings.
pub struct ChildIndex {
    slots: StringHashMap<usize>,
    roots: Vec<usize>,
    groups: Vec<Vec<usize>>,
    none: Vec<usize>,
    indexed: Ghost<Seq<RegionModel>>,
}

impl ChildIndex {
    /// The regions that the index was built from.
    pub closed spec fn regions(&self) -> Seq<RegionModel> {
        self.indexed@
    }

    /// The index holds the siblings below every parent of its regions.
    pub closed spec fn wf(&self) -> bool {
        let rs = self.indexed@;
        &&& self.none@.len() == 0
        &&& picked(rs, self.roots@) == siblings(rs, None)
        &&& forall|q: int| 0 <= q < self.roots@.len() ==> (#[trigger] self.roots@[q]) < rs.len()
        &&& forall|id: Seq<char>| #[trigger]
            self.slots@.contains_key(id) ==> {
                &&& self.slots@[id] < self.groups@.len()
                &&& picked(rs, self.groups@[self.slots@[id] as int]@) == siblings(rs, Some(id))
            }
        &&& forall|id: Seq<char>|
            !(#[trigger] self.slots@.contains_key(id)) ==> siblings(rs, Some(id)).len() == 0
        &&& forall|s: int, q: int|
            0 <= s < self.groups@.len() && 0 <= q < self.groups@[s]@.len() ==> (
            #[trigger] self.groups@[s]@[q]) < rs.len()
    }

    /// Builds the index in one pass over the regions, then sorts every
    /// list of siblings.
    pub fn build(regions: &Vec<Region>) -> (index: Self)
        ensures
            index.wf(),
            index.regions() == regions.deep_view(),
    {
        let ghost rs = regions.deep_view();
        let ghost n = regions@.len() as int;
        let mut slots: StringHashMap<usize> = StringHashMap::new();
        let mut roots: Vec<usize> = Vec::new();
        let mut groups: Vec<Vec<usize>> = Vec::new();
        let mut i: usize = 0;
        while i < regions.len()
            invariant
                i <= regions@.len(),
                n == regions@.len(),
                rs == regions.deep_view(),
                roots@ == member_positions(rs, None, i as int),
                forall|id: Seq<char>| #[trigger]
                    slots@.contains_key(id) ==> {
                        &&& slots@[id] < groups@.len()
                        &&& groups@[slots@[id] as int]@ == member_positions(rs, Some(id), i as int)
                    },
                forall|id: Seq<char>|
                    !(#[trigger] slots@.contains_key(id)) ==> member_positions(
                        rs,
                        Some(id),
                        i as int,
                    ).len() == 0,
                forall|a: Seq<char>, b: Seq<char>|
                    #[trigger] slots@.contains_key(a) && #[trigger] slots@.contains_key(b) && a != b
                        ==> slots@[a] != slots@[b],
                forall|s: int, q: int|
                    0 <= s < groups@.len() && 0 <= q < groups@[s]@.len() ==> (
                    #[trigger] groups@[s]@[q]) < regions@.len(),
            decreases regions@.len() - i,
        {
            assert(rs[i as int] == regions@[i as int].deep_view());
            match &regions[i].parent_id {
                None => {
                    roots.push(i);
                },
                Some(p) => {
                    let slot: usize = match slots.get(p.as_str()) {
                        Some(s) => *s,
                        None => {
                            let fresh = groups.len();
                            groups.push(Vec::new());
                            slots.insert(p.clone(), fresh);
                            fresh
                        },
                    };
                    assert(slots@.contains_key(p@) && slots@[p@] == slot);
                    assert(groups@[slot as int]@ =~= member_positions(rs, Some(p@), i as int));
                    groups[slot].push(i);
                },
            }
            i += 1;
        }
        proof {
            members_are_picked(rs, None, n);
            assert forall|id: Seq<char>| #[trigger] slots@.contains_key(id) implies picked(
                rs,
                groups@[slots@[id] as int]@,
            ) == members_upto(rs, Some(id), n) by {
                members_are_picked(rs, Some(id), n);
            }
            assert forall|id: Seq<char>| !(#[trigger] slots@.contains_key(id)) implies members_upto(
                rs,
                Some(id),
                n,
            ).len() == 0 by {
                members_are_picked(rs, Some(id), n);
            }
        }
        let roots = sort_positions(regions, &roots);
        let ghost unsorted = groups@;
        let mut sorted: Vec<Vec<usize>> = Vec::new();
        let mut s: usize = 0;
        while s < groups.len()
            invariant
                s <= groups@.len(),
                rs == regions.deep_view(),
                unsorted == groups@,
                sorted@.len() == s,
                forall|t: int, q: int|
                    0 <= t < groups@.len() && 0 <= q < groups@[t]@.len() ==> (
                    #[trigger] groups@[t]@[q]) < regions@.len(),
                forall|t: int|
                    0 <= t < s ==> picked(rs, (#[trigger] sorted@[t])@) == sorted_by(
                        picked(rs, unsorted[t]@),
                        sibling_order(),
                    ),
                forall|t: int, q: int|
                    0 <= t < s && 0 <= q < sorted@[t]@.len() ==> (#[trigger] sorted@[t]@[q])
                        < regions@.len(),
            decreases groups@.len() - s,
        {
            let group = sort_positions(regions, &groups[s]);
            sorted.push(group);
            s += 1;
        }
        proof {
            sorted_is_rearranged(members_upto(rs, None, n), sibling_order());
            assert forall|id: Seq<char>| !(#[trigger] slots@.contains_key(id)) implies siblings(
                rs,
                Some(id),
            ).len() == 0 by {
                sorted_is_rearranged(members_upto(rs, Some(id), n), sibling_order());
            }
        }
        ChildIndex { slots, roots, groups: sorted, none: Vec::new(), indexed: Ghost(rs) }
    }

    /// Positions of the regions that name `parent`, sorted as siblings;
    /// with no parent, positions of the roots.
    pub fn children(&self, parent: Option<&str>) -> (positions: &Vec<usize>)
        requires
            self.wf(),
        ensures
            picked(self.regions(), positions@) == siblings(self.regions(), opt_str_chars(parent)),
            forall|q: int|
                0 <= q < positions@.len() ==> (#[trigger] positions@[q]) < self.regions().len(),
    {
        match parent {
            None => &self.roots,
            Some(p) => match self.slots.get(p) {
                Some(slot) => &self.groups[*slot],
                None => {
                    assert(picked(self.indexed@, self.none@) =~= siblings(self.indexed@, Some(p@)));
                    &self.none
                },
            },
        }
    }
}

/// The files of one region, in the order of the list.
fn files_for(files: &Vec<DataFile>, id: &String) -> (own: Vec<DataFile>)
    ensures
        own.deep_view() == files_of(files.deep_view(), id@),
{
    let ghost all = files.deep_view();
    let mut own: Vec<DataFile> = Vec::new();
    let mut i: usize = 0;
    assert(own.deep_view() =~= Seq::empty());
    while i < files.len()
        invariant
            i <= files@.len(),
            all == files.deep_view(),
            own.deep_view() == files_upto(all, id@, i as int),
        decreases files@.len() - i,
    {
        assert(all[i as int] == files@[i as int].deep_view());
        if same_text(&files[i].region_id, id) {
            let ghost listed = own.deep_view();
            own.push(files[i].clone());
            assert(own.deep_view() =~= listed.push(all[i as int]));
        }
        i += 1;
    }
    own
}

fn total_size(files: &Vec<DataFile>) -> (sum: u128)
    ensures
        sum == size_sum(files.deep_view()),
{
    let ghost all = files.deep_view();
    let mut sum: u128 = 0;
    let mut i: usize = 0;
    assert(all.take(0) =~= Seq::empty());
    while i < files.len()
        invariant
            i <= files@.len(),
            all == files.deep_view(),
            sum == size_sum(all.take(i as int)),
            sum <= i * u64::MAX,
        decreases files@.len() - i,
    {
        proof {
            assert(all.take(i + 1).drop_last() =~= all.take(i as int));
            assert(all.take(i + 1).last() == files@[i as int].deep_view());
        }
        sum = sum + files[i].file_size as u128;
        i += 1;
    }
    assert(all.take(i as int) =~= all);
    sum
}

/// The children of each of a list of regions, list after list.
pub open spec fn flat_children(rs: Seq<RegionModel>, regions: Seq<RegionModel>) -> Seq<RegionModel>
    decreases regions.len(),
{
    if regions.len() == 0 {
        Seq::empty()
    } else {
        flat_children(rs, regions.drop_last()) + siblings(rs, Some(regions.last().id))
    }
}

/// The regions that stand `depth` levels below the top of the forest
/// below `parent`, in the order in which the forest holds them.
pub open spec fn level_regions(rs: Seq<RegionModel>, parent: Option<Seq<char>>, depth: nat) -> Seq<
    RegionModel,
>
    decreases depth,
{
    if depth == 0 {
        siblings(rs, parent)
    } else {
        flat_children(rs, level_regions(rs, parent, (depth - 1) as nat))
    }
}

/// The children of a list of regions are those of the first, then those of
/// the others.
proof fn flat_children_front(rs: Seq<RegionModel>, regions: Seq<RegionModel>)
    requires
        regions.len() > 0,
    ensures
        flat_children(rs, regions) == siblings(rs, Some(regions[0].id)) + flat_children(
            rs,
            regions.drop_first(),
        ),
    decreases regions.len(),
{
    if regions.len() == 1 {
        assert(regions.drop_last() =~= Seq::empty());
        assert(regions.drop_first() =~= Seq::empty());
        assert(flat_children(rs, regions) =~= siblings(rs, Some(regions[0].id)) + flat_children(
            rs,
            regions.drop_first(),
        ));
    } else {
        flat_children_front(rs, regions.drop_last());
        assert(regions.drop_last().drop_first() =~= regions.drop_first().drop_last());
        assert(regions.drop_last()[0] == regions[0]);
        assert(regions.drop_first().last() == regions.last());
        assert(flat_children(rs, regions) =~= siblings(rs, Some(regions[0].id)) + flat_children(
            rs,
            regions.drop_first(),
        ));
    }
}

/// The trees of two lists of regions joined are the trees of the one, then
/// those of the other.
proof fn nodes_of_concat(
    rs: Seq<RegionModel>,
    files: Seq<DataFileModel>,
    a: Seq<RegionModel>,
    b: Seq<RegionModel>,
    below: nat,
)
    ensures
        nodes_of(rs, files, a + b, below) == nodes_of(rs, files, a, below) + nodes_of(
            rs,
            files,
            b,
            below,
        ),
    decreases b.len(),
{
    if b.len() == 0 {
        assert(a + b =~= a);
        assert(nodes_of(rs, files, a, below) + nodes_of(rs, files, b, below) =~= nodes_of(
            rs,
            files,
            a,
            below,
        ));
    } else {
        nodes_of_concat(rs, files, a, b.drop_last(), below);
        assert((a + b).drop_last() =~= a + b.drop_last());
        assert((a + b).last() == b.last());
        assert(nodes_of(rs, files, a + b, below) =~= nodes_of(rs, files, a, below) + nodes_of(
            rs,
            files,
            b,
            below,
        ));
    }
}

/// The model of a part of a list of trees is that part of the list's
/// model.
proof fn forest_model_split(s: Seq<RegionTree>, c: int)
    requires
        0 <= c <= s.len(),
    ensures
        forest_model(s.take(c)) == forest_model(s).take(c),
        forest_model(s.skip(c)) == forest_model(s).skip(c),
{
    crate::models::forest_model_by_index(s);
    crate::models::forest_model_by_index(s.take(c));
    crate::models::forest_model_by_index(s.skip(c));
    assert(forest_model(s.take(c)) =~= forest_model(s).take(c));
    assert(forest_model(s.skip(c)) =~= forest_model(s).skip(c));
}

/// The list in reverse.
fn reversed(mut trees: Vec<RegionTree>) -> (out: Vec<RegionTree>)
    ensures
        out@ == trees@.reverse(),
{
    let ghost all = trees@;
    let mut out: Vec<RegionTree> = Vec::new();
    while trees.len() > 0
        invariant
            trees@.len() <= all.len(),
            trees@ == all.take(trees@.len() as int),
            out@ == all.skip(trees@.len() as int).reverse(),
        decreases trees@.len(),
    {
        let ghost m = trees@.len() as int;
        let last = trees.pop();
        match last {
            Some(tree) => {
                out.push(tree);
                assert(out@ =~= all.skip(m - 1).reverse());
            },
            None => {},
        }
    }
    assert(all.skip(0) =~= all);
    out
}

fn copy_positions(positions: &Vec<usize>) -> (copy: Vec<usize>)
    ensures
        copy@ == positions@,
{
    let mut copy: Vec<usize> = Vec::new();
    let mut q: usize = 0;
    while q < positions.len()
        invariant
            q <= positions@.len(),
            copy@ == positions@.take(q as int),
        decreases positions@.len() - q,
    {
        copy.push(positions[q]);
        assert(positions@.take(q + 1) =~= positions@.take(q as int).push(positions@[q as int]));
        q += 1;
    }
    assert(positions@.take(q as int) =~= positions@);
    copy
}

/// The levels of the forest below `parent_id`, top first, each as the
/// positions of its regions, and for every region of every level the
/// number of its children. Levels past `max_depth` are not entered.
fn expand_levels(
    regions: &Vec<Region>,
    index: &ChildIndex,
    parent_id: Option<&str>,
    max_depth: usize,
) -> (r: (Vec<Vec<usize>>, Vec<Vec<usize>>))
    requires
        index.wf(),
        index.regions() == regions.deep_view(),
    ensures
        1 <= r.0@.len() <= max_depth + 1,
        r.1@.len() == r.0@.len(),
        forall|e: int|
            0 <= e < r.0@.len() ==> is_level(
                regions.deep_view(),
                opt_str_chars(parent_id),
                e,
                #[trigger] r.0@[e]@,
                r.1@[e]@,
            ),
        r.0@.len() <= max_depth ==> flat_children(
            regions.deep_view(),
            level_regions(
                regions.deep_view(),
                opt_str_chars(parent_id),
                (r.0@.len() - 1) as nat,
            ),
        ).len() == 0,
{
    let ghost rs = regions.deep_view();
    let ghost parent = opt_str_chars(parent_id);
    let mut levels: Vec<Vec<usize>> = Vec::new();
    let mut counts: Vec<Vec<usize>> = Vec::new();
    let top = copy_positions(index.children(parent_id));
    levels.push(top);
    let mut expanding = true;
    while expanding
        invariant
            rs == regions.deep_view(),
            index.wf(),
            index.regions() == rs,
            parent == opt_str_chars(parent_id),
            1 <= levels@.len() <= max_depth + 1,
            expanding ==> counts@.len() + 1 == levels@.len(),
            !expanding ==> counts@.len() == levels@.len(),
            forall|e: int|
                0 <= e < levels@.len() ==> picked(rs, (#[trigger] levels@[e])@) == level_regions(
                    rs,
                    parent,
                    e as nat,
                ),
            forall|e: int, j: int|
                0 <= e < levels@.len() && 0 <= j < levels@[e]@.len() ==> (#[trigger] levels@[e]@[j])
                    < regions@.len(),
            forall|e: int|
                0 <= e < counts@.len() ==> is_level(
                    rs,
                    parent,
                    e,
                    levels@[e]@,
                    (#[trigger] counts@[e])@,
                ),
            !expanding && levels@.len() <= max_depth ==> flat_children(
                rs,
                level_regions(rs, parent, (levels@.len() - 1) as nat),
            ).len() == 0,
        decreases max_depth + 1 - levels@.len() + if expanding {
            1nat
        } else {
            0nat
        },
    {
        let d = levels.len() - 1;
        let level = &levels[d];
        let ghost lvl = picked(rs, level@);
        let mut next: Vec<usize> = Vec::new();
        let mut level_counts: Vec<usize> = Vec::new();
        let mut j: usize = 0;
        assert(lvl.take(0) =~= Seq::empty());
        assert(picked(rs, next@) =~= Seq::empty());
        while j < level.len()
            invariant
                j <= level@.len(),
                rs == regions.deep_view(),
                index.wf(),
                index.regions() == rs,
                lvl == picked(rs, level@),
                forall|k: int| 0 <= k < level@.len() ==> (#[trigger] level@[k]) < regions@.len(),
                level_counts@.len() == j,
                forall|k: int|
                    0 <= k < j ==> (#[trigger] level_counts@[k]) == siblings(
                        rs,
                        Some(lvl[k].id),
                    ).len(),
                picked(rs, next@) == flat_children(rs, lvl.take(j as int)),
                forall|k: int| 0 <= k < next@.len() ==> (#[trigger] next@[k]) < regions@.len(),
            decreases level@.len() - j,
        {
            let region = &regions[level[j]];
            assert(lvl[j as int] == region.deep_view());
            let mut kids = copy_positions(index.children(Some(region.id.as_str())));
            level_counts.push(kids.len());
            let ghost before = next@;
            let ghost added = kids@;
            next.append(&mut kids);
            proof {
                assert(lvl.take(j + 1).drop_last() =~= lvl.take(j as int));
                assert(lvl.take(j + 1).last() == lvl[j as int]);
                assert(picked(rs, next@) =~= picked(rs, before) + picked(rs, added));
            }
            j += 1;
        }
        assert(lvl.take(j as int) =~= lvl);
        counts.push(level_counts);
        if d < max_depth && next.len() > 0 {
            levels.push(next);
        } else {
            expanding = false;
        }
    }
    (levels, counts)
}

/// `positions` and `child_counts` describe the level `depth` levels below
/// the top: the regions of the level in order, and for each the number of
/// its children.
pub open spec fn is_level(
    rs: Seq<RegionModel>,
    parent: Option<Seq<char>>,
    depth: int,
    positions: Seq<usize>,
    child_counts: Seq<usize>,
) -> bool {
    &&& picked(rs, positions) == level_regions(rs, parent, depth as nat)
    &&& forall|j: int| 0 <= j < positions.len() ==> (#[trigger] positions[j]) < rs.len()
    &&& child_counts.len() == positions.len()
    &&& forall|j: int|
        0 <= j < positions.len() ==> (#[trigger] child_counts[j]) == siblings(
            rs,
            Some(rs[positions[j] as int].id),
        ).len()
}

/// Builds the trees of one level from the trees of the level below it,
/// which it takes apart: every node receives as many of them as it has
/// children, in order.
fn assemble_level(
    regions: &Vec<Region>,
    files: &Vec<DataFile>,
    level: &Vec<usize>,
    child_counts: &Vec<usize>,
    lower: Vec<RegionTree>,
    below: usize,
) -> (nodes: Vec<RegionTree>)
    requires
        forall|j: int| 0 <= j < level@.len() ==> (#[trigger] level@[j]) < regions@.len(),
        child_counts@.len() == level@.len(),
        forall|j: int|
            0 <= j < level@.len() ==> (#[trigger] child_counts@[j]) == siblings(
                regions.deep_view(),
                Some(regions.deep_view()[level@[j] as int].id),
            ).len(),
        below > 0 ==> forest_model(lower@) == nodes_of(
            regions.deep_view(),
            files.deep_view(),
            flat_children(regions.deep_view(), picked(regions.deep_view(), level@)),
            (below - 1) as nat,
        ),
        below == 0 ==> lower@.len() == 0,
    ensures
        forest_model(nodes@) == nodes_of(
            regions.deep_view(),
            files.deep_view(),
            picked(regions.deep_view(), level@),
            below as nat,
        ),
{
    let ghost rs = regions.deep_view();
    let ghost all = files.deep_view();
    let ghost lvl = picked(rs, level@);
    let ghost mut rest = lower@;
    let mut stack = reversed(lower);
    let mut nodes: Vec<RegionTree> = Vec::new();
    let mut j: usize = 0;
    proof {
        assert(lvl.skip(0) =~= lvl);
        assert(lvl.take(0) =~= Seq::empty());
    }
    while j < level.len()
        invariant
            j <= level@.len(),
            rs == regions.deep_view(),
            all == files.deep_view(),
            lvl == picked(rs, level@),
            forall|k: int| 0 <= k < level@.len() ==> (#[trigger] level@[k]) < regions@.len(),
            child_counts@.len() == level@.len(),
            forall|k: int|
                0 <= k < level@.len() ==> (#[trigger] child_counts@[k]) == siblings(
                    rs,
                    Some(rs[level@[k] as int].id),
                ).len(),
            stack@ == rest.reverse(),
            below > 0 ==> forest_model(rest) == nodes_of(
                rs,
                all,
                flat_children(rs, lvl.skip(j as int)),
                (below - 1) as nat,
            ),
            below == 0 ==> rest.len() == 0,
            forest_model(nodes@) == nodes_of(rs, all, lvl.take(j as int), below as nat),
        decreases level@.len() - j,
    {
        let region = &regions[level[j]];
        let wanted: usize = if below > 0 {
            child_counts[j]
        } else {
            0
        };
        let ghost kin = siblings(rs, Some(region.id@));
        let ghost start = rest;
        proof {
            assert(lvl[j as int] == region.deep_view());
            assert(rs[level@[j as int] as int] == region.deep_view());
            assert(lvl.take(j + 1).drop_last() =~= lvl.take(j as int));
            assert(lvl.take(j + 1).last() == region.deep_view());
            if below > 0 {
                let ahead = lvl.skip(j as int);
                assert(ahead[0] == lvl[j as int]);
                assert(ahead.drop_first() =~= lvl.skip(j + 1));
                flat_children_front(rs, ahead);
                nodes_of_concat(
                    rs,
                    all,
                    kin,
                    flat_children(rs, lvl.skip(j + 1)),
                    (below - 1) as nat,
                );
                nodes_by_index(rs, all, kin, (below - 1) as nat);
                crate::models::forest_model_by_index(start);
                assert(start.len() >= wanted);
            }
        }
        let mut children: Vec<RegionTree> = Vec::new();
        let mut k: usize = 0;
        while k < wanted
            invariant
                k <= wanted <= start.len(),
                stack@ == rest.reverse(),
                rest == start.skip(k as int),
                children@ == start.take(k as int),
            decreases wanted - k,
        {
            match stack.pop() {
                Some(tree) => {
                    assert(tree == rest[0]);
                    children.push(tree);
                    proof {
                        rest = rest.drop_first();
                        assert(rest =~= start.skip(k + 1));
                        assert(children@ =~= start.take(k + 1));
                        assert(stack@ =~= rest.reverse());
                    }
                },
                None => {},
            }
            k += 1;
        }
        proof {
            forest_model_split(start, wanted as int);
            if below > 0 {
                let joined = nodes_of(rs, all, kin, (below - 1) as nat) + nodes_of(
                    rs,
                    all,
                    flat_children(rs, lvl.skip(j + 1)),
                    (below - 1) as nat,
                );
                assert(forest_model(start) == joined);
                assert(joined.take(wanted as int) =~= nodes_of(rs, all, kin, (below - 1) as nat));
                assert(joined.skip(wanted as int) =~= nodes_of(
                    rs,
                    all,
                    flat_children(rs, lvl.skip(j + 1)),
                    (below - 1) as nat,
                ));
            } else {
                assert(children@ =~= Seq::empty());
            }
        }
        let data_files = files_for(files, &region.id);
        let download_stats = DownloadStats {
            total_downloads: 0,
            last_updated: region.updated_at,
            file_count: data_files.len(),
            total_size: total_size(&data_files),
        };
        let node = RegionTree {
            region: region.clone(),
            children,
            data_files,
            download_stats,
            depth_exceeded: below == 0 && child_counts[j] > 0,
        };
        assert(tree_model(node) == node_of(rs, all, region.deep_view(), below as nat));
        let ghost built = nodes@;
        nodes.push(node);
        assert(nodes@.drop_last() =~= built);
        j += 1;
    }
    assert(lvl.take(j as int) =~= lvl);
    nodes
}

impl Storage {
    /// Builds the forest below `parent_id`, at most `max_depth` levels
    /// below its top, without recursion: the levels are first listed from
    /// the top down, each from the one above it, and the trees are then put
    /// together from the deepest level up. No level past the bound is ever
    /// entered, so a cycle among the regions cuts a branch short instead of
    /// running on: the node at the bound is marked, and the rest of the
    /// forest is built as always. Always succeeds.
    pub fn build_tree_iterative(
        &self,
        regions: &Vec<Region>,
        files: &Vec<DataFile>,
        parent_id: Option<&str>,
        max_depth: usize,
    ) -> (r: Result<Vec<RegionTree>, RiemapError>)
        ensures
            r is Ok,
            forest_model(r->Ok_0@) == forest_of(
                regions.deep_view(),
                files.deep_view(),
                opt_str_chars(parent_id),
                max_depth as nat,
            ),
    {
        let ghost rs = regions.deep_view();
        let ghost all = files.deep_view();
        let ghost parent = opt_str_chars(parent_id);
        let index = ChildIndex::build(regions);
        let (levels, counts) = expand_levels(regions, &index, parent_id, max_depth);
        let mut built: Vec<RegionTree> = Vec::new();
        let mut d: usize = levels.len();
        while d > 0
            invariant
                d <= levels@.len(),
                1 <= levels@.len() <= max_depth + 1,
                counts@.len() == levels@.len(),
                rs == regions.deep_view(),
                all == files.deep_view(),
                parent == opt_str_chars(parent_id),
                forall|e: int|
                    0 <= e < levels@.len() ==> is_level(
                        rs,
                        parent,
                        e,
                        #[trigger] levels@[e]@,
                        counts@[e]@,
                    ),
                levels@.len() <= max_depth ==> flat_children(
                    rs,
                    level_regions(rs, parent, (levels@.len() - 1) as nat),
                ).len() == 0,
                d == levels@.len() ==> built@.len() == 0,
                d < levels@.len() ==> forest_model(built@) == nodes_of(
                    rs,
                    all,
                    level_regions(rs, parent, d as nat),
                    (max_depth - d) as nat,
                ),
            decreases d,
        {
            let ghost above = d;
            d -= 1;
            proof {
                assert(is_level(rs, parent, d as int, levels@[d as int]@, counts@[d as int]@));
                let lvl = picked(rs, levels@[d as int]@);
                let level = levels@[d as int]@;
                assert forall|j: int| 0 <= j < level.len() implies (#[trigger] counts@[d as int]@[j])
                    == siblings(rs, Some(rs[level[j] as int].id)).len() by {}
                if max_depth - d > 0 {
                    if above == levels@.len() {
                        assert(flat_children(rs, lvl) =~= Seq::empty());
                    } else {
                        assert(is_level(
                            rs,
                            parent,
                            above as int,
                            levels@[above as int]@,
                            counts@[above as int]@,
                        ));
                    }
                }
            }
            built = assemble_level(regions, files, &levels[d], &counts[d], built, max_depth - d);
        }
        Ok(built)
    }

    /// Builds the forest below `parent_id` to the default depth; with no
    /// parent, the forest of all roots. Always succeeds.
    pub fn build_hierarchy(&self, regions: &Vec<Region>, files: &Vec<DataFile>, parent_id: Option<&str>) -> (r:
        Result<Vec<RegionTree>, RiemapError>)
        ensures
            r is Ok,
            forest_model(r->Ok_0@) == forest_of(
                regions.deep_view(),
                files.deep_view(),
                opt_str_chars(parent_id),
                DEFAULT_MAX_DEPTH as nat,
            ),
    {
        self.build_tree_iterative(regions, files, parent_id, DEFAULT_MAX_DEPTH)
    }

    /// The forest of all roots. Always succeeds.
    pub fn get_region_tree(&self, regions: &Vec<Region>, files: &Vec<DataFile>) -> (r: Result<
        Vec<RegionTree>,
        RiemapError,
    >)
        ensures
            r is Ok,
            forest_model(r->Ok_0@) == forest_of(
                regions.deep_view(),
                files.deep_view(),
                None,
                DEFAULT_MAX_DEPTH as nat,
            ),
    {
        self.build_hierarchy(regions, files, None)
    }
}

/// The first region of a list that has the given identifier.
pub open spec fn first_with_id(rs: Seq<RegionModel>, id: Seq<char>) -> Option<RegionModel>
    decreases rs.len(),
{
    if rs.len() == 0 {
        None
    } else {
        match first_with_id(rs.drop_last(), id) {
            Some(r) => Some(r),
            None => if rs.last().id == id {
                Some(rs.last())
            } else {
                None
            },
        }
    }
}

/// The tree of the region `id`: the region with its files and, below it,
/// the forest of its children to the default depth; none where the list
/// has no such region.
pub open spec fn region_tree(rs: Seq<RegionModel>, files: Seq<DataFileModel>, id: Seq<char>) -> Option<
    RegionTreeModel,
> {
    match first_with_id(rs, id) {
        Some(r) => Some(node_of(rs, files, r, (DEFAULT_MAX_DEPTH + 1) as nat)),
        None => None,
    }
}

/// The model of a tree that may be absent.
pub open spec fn opt_tree_model(t: Option<RegionTree>) -> Option<RegionTreeModel> {
    match t {
        Some(tree) => Some(tree_model(tree)),
        None => None,
    }
}

impl Storage {
    /// The tree of one region, or nothing where the region is unknown.
    /// Never fails.
    pub fn get_region(&self, regions: &Vec<Region>, files: &Vec<DataFile>, region_id: &str) -> (r:
        Result<Option<RegionTree>, RiemapError>)
        ensures
            r is Ok,
            opt_tree_model(r->Ok_0) == region_tree(
                regions.deep_view(),
                files.deep_view(),
                region_id@,
            ),
    {
        let ghost rs = regions.deep_view();
        let wanted = String::from_str(region_id);
        let mut i: usize = 0;
        assert(rs.take(0) =~= Seq::empty());
        while i < regions.len()
            invariant
                i <= regions@.len(),
                rs == regions.deep_view(),
                wanted@ == region_id@,
                first_with_id(rs.take(i as int), region_id@) is None,
            decreases regions@.len() - i,
        {
            let region = &regions[i];
            proof {
                assert(rs.take(i + 1).drop_last() =~= rs.take(i as int));
                assert(rs.take(i + 1).last() == region.deep_view());
            }
            if same_text(&region.id, &wanted) {
                proof {
                    first_found_stays(rs, region_id@, i + 1);
                }
                let data_files = files_for(files, &region.id);
                let download_stats = DownloadStats {
                    total_downloads: 0,
                    last_updated: region.updated_at,
                    file_count: data_files.len(),
                    total_size: total_size(&data_files),
                };
                let children = match self.build_hierarchy(
                    regions,
                    files,
                    Some(region.id.as_str()),
                ) {
                    Ok(built) => built,
                    Err(e) => {
                        return Err(e);
                    },
                };
                let node = RegionTree {
                    region: region.clone(),
                    children,
                    data_files,
                    download_stats,
                    depth_exceeded: false,
                };
                return Ok(Some(node));
            }
            i += 1;
        }
        assert(rs.take(i as int) =~= rs);
        Ok(None)
    }
}

/// What is found first among the first `k` regions is found first in the
/// whole list.
proof fn first_found_stays(rs: Seq<RegionModel>, id: Seq<char>, k: int)
    requires
        0 <= k <= rs.len(),
        first_with_id(rs.take(k), id) is Some,
    ensures
        first_with_id(rs, id) == first_with_id(rs.take(k), id),
    decreases rs.len() - k,
{
    if k < rs.len() {
        assert(rs.take(k + 1).drop_last() =~= rs.take(k));
        first_found_stays(rs, id, k + 1);
    } else {
        assert(rs.take(k) =~= rs);
    }
}

} // verus!
