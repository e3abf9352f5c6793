//! Bounding boxes of catalog features: from their geometry where they have
//! one, else from a table of known regions, else the whole world.

use vstd::prelude::*;
use vstd::string::*;
use crate::models::BoundingBox;
use crate::storage::Storage;
use crate::text::{opt_chars, text_is};

verus! {

/// A point on the globe, in coordinate units.
#[derive(Debug, Clone, Copy, PartialEq, Eq, Structural)]
pub struct Coordinate {
    pub lat: i64,
    pub lon: i64,
}

impl DeepView for Coordinate {
    type V = Coordinate;

    open spec fn deep_view(&self) -> Coordinate {
        *self
    }
}

/// The geometry of a catalog feature. A polygon is a list of rings, the
/// outer ring first; a multi-polygon is a list of polygons.
#[derive(Debug)]
pub enum Geometry {
    Point(Coordinate),
    Polygon(Vec<Vec<Coordinate>>),
    MultiPolygon(Vec<Vec<Vec<Coordinate>>>),
    /// A geometry of a kind that gives no bounding box.
    Unsupported,
}

/// What a `Geometry` holds, with lists as sequences.
pub enum GeometryModel {
    Point(Coordinate),
    Polygon(Seq<Seq<Coordinate>>),
    MultiPolygon(Seq<Seq<Seq<Coordinate>>>),
    Unsupported,
}

impl DeepView for Geometry {
    type V = GeometryModel;

    open spec fn deep_view(&self) -> GeometryModel {
        match self {
            Geometry::Point(c) => GeometryModel::Point(*c),
            Geometry::Polygon(rings) => GeometryModel::Polygon(rings.deep_view()),
            Geometry::MultiPolygon(polygons) => GeometryModel::MultiPolygon(polygons.deep_view()),
            Geometry::Unsupported => GeometryModel::Unsupported,
        }
    }
}

/// The box around a point reaches this far to each side: 0.001 degree.
pub const POINT_PAD: i64 = 10_000;

/// `a + b`, held to the range of `i64`.
pub open spec fn saturating_sum(a: int, b: int) -> int {
    if a + b > i64::MAX {
        i64::MAX as int
    } else if a + b < i64::MIN {
        i64::MIN as int
    } else {
        a + b
    }
}

/// The box that holds exactly one point.
pub open spec fn box_of_point(c: Coordinate) -> BoundingBox {
    BoundingBox { min_lat: c.lat, min_lon: c.lon, max_lat: c.lat, max_lon: c.lon }
}

/// The smallest box that holds `b` and the point `c`.
pub open spec fn extended(b: BoundingBox, c: Coordinate) -> BoundingBox {
    BoundingBox {
        min_lat: if c.lat < b.min_lat {
            c.lat
        } else {
            b.min_lat
        },
        min_lon: if c.lon < b.min_lon {
            c.lon
        } else {
            b.min_lon
        },
        max_lat: if c.lat > b.max_lat {
            c.lat
        } else {
            b.max_lat
        },
        max_lon: if c.lon > b.max_lon {
            c.lon
        } else {
            b.max_lon
        },
    }
}

/// The smallest box that holds all points of a list; none for an empty
/// list.
pub open spec fn bounds_of(points: Seq<Coordinate>) -> Option<BoundingBox>
    decreases points.len(),
{
    if points.len() == 0 {
        None
    } else {
        match bounds_of(points.drop_last()) {
            None => Some(box_of_point(points.last())),
            Some(b) => Some(extended(b, points.last())),
        }
    }
}

/// The box around a point, `POINT_PAD` to each side.
pub open spec fn padded(c: Coordinate) -> BoundingBox {
    BoundingBox {
        min_lat: saturating_sum(c.lat as int, -POINT_PAD) as i64,
        min_lon: saturating_sum(c.lon as int, -POINT_PAD) as i64,
        max_lat: saturating_sum(c.lat as int, POINT_PAD as int) as i64,
        max_lon: saturating_sum(c.lon as int, POINT_PAD as int) as i64,
    }
}

/// The points of the outer ring of a polygon; none where it has no ring.
pub open spec fn outer_ring(rings: Seq<Seq<Coordinate>>) -> Seq<Coordinate> {
    if rings.len() > 0 {
        rings[0]
    } else {
        Seq::empty()
    }
}

/// The points of the outer rings of all polygons of a list, in order.
pub open spec fn outer_rings(polygons: Seq<Seq<Seq<Coordinate>>>) -> Seq<Coordinate>
    decreases polygons.len(),
{
    if polygons.len() == 0 {
        Seq::empty()
    } else {
        outer_rings(polygons.drop_last()) + outer_ring(polygons.last())
    }
}

/// The bounding box that a geometry gives: the padded box of a point, the
/// bounds of a polygon's outer ring, the bounds of all outer rings of a
/// multi-polygon; none for other kinds and where there is no point to
/// bound.
pub open spec fn geometry_bounds(g: GeometryModel) -> Option<BoundingBox> {
    match g {
        GeometryModel::Point(c) => Some(padded(c)),
        GeometryModel::Polygon(rings) => bounds_of(outer_ring(rings)),
        GeometryModel::MultiPolygon(polygons) => bounds_of(outer_rings(polygons)),
        GeometryModel::Unsupported => None,
    }
}

/// The bounds of a list of points hold every point of it, each side passes
/// through one of them, and the lower bounds do not exceed the upper. An
/// empty list, and no other, has no bounds.
pub proof fn bounds_are_tight(points: Seq<Coordinate>)
    ensures
        bounds_of(points) is None <==> points.len() == 0,
        bounds_of(points) matches Some(b) ==> {
            &&& b.is_ordered()
            &&& forall|i: int|
                0 <= i < points.len() ==> b.covers(
                    (#[trigger] points[i]).lat as int,
                    points[i].lon as int,
                )
            &&& exists|i: int| 0 <= i < points.len() && (#[trigger] points[i]).lat == b.min_lat
            &&& exists|i: int| 0 <= i < points.len() && (#[trigger] points[i]).lat == b.max_lat
            &&& exists|i: int| 0 <= i < points.len() && (#[trigger] points[i]).lon == b.min_lon
            &&& exists|i: int| 0 <= i < points.len() && (#[trigger] points[i]).lon == b.max_lon
        },
    decreases points.len(),
{
    if points.len() > 0 {
        let rest = points.drop_last();
        let last = points.len() - 1;
        bounds_are_tight(rest);
        let b = bounds_of(points)->Some_0;
        assert(points[last] == points.last());
        match bounds_of(rest) {
            None => {},
            Some(r) => {
                assert forall|i: int| 0 <= i < points.len() implies b.covers(
                    (#[trigger] points[i]).lat as int,
                    points[i].lon as int,
                ) by {
                    if i < last {
                        assert(rest[i] == points[i]);
                    }
                }
                let i1 = choose|i: int| 0 <= i < rest.len() && (#[trigger] rest[i]).lat == r.min_lat;
                let i2 = choose|i: int| 0 <= i < rest.len() && (#[trigger] rest[i]).lat == r.max_lat;
                let i3 = choose|i: int| 0 <= i < rest.len() && (#[trigger] rest[i]).lon == r.min_lon;
                let i4 = choose|i: int| 0 <= i < rest.len() && (#[trigger] rest[i]).lon == r.max_lon;
                assert(points[i1] == rest[i1]);
                assert(points[i2] == rest[i2]);
                assert(points[i3] == rest[i3]);
                assert(points[i4] == rest[i4]);
            },
        }
    }
}

/// Every geometry that gives a box gives one whose lower bounds do not
/// exceed its upper bounds.
pub proof fn geometry_bounds_are_ordered(g: GeometryModel)
    ensures
        geometry_bounds(g) matches Some(b) ==> b.is_ordered(),
{
    match g {
        GeometryModel::Point(c) => {},
        GeometryModel::Polygon(rings) => {
            bounds_are_tight(outer_ring(rings));
        },
        GeometryModel::MultiPolygon(polygons) => {
            bounds_are_tight(outer_rings(polygons));
        },
        GeometryModel::Unsupported => {},
    }
}

fn saturating(a: i64, b: i64) -> (r: i64)
    ensures
        r == saturating_sum(a as int, b as int),
{
    let sum: i128 = a as i128 + b as i128;
    if sum > i64::MAX as i128 {
        i64::MAX
    } else if sum < i64::MIN as i128 {
        i64::MIN
    } else {
        sum as i64
    }
}

impl Storage {
    /// The smallest box around a list of points.
    pub fn calculate_bbox_from_coordinates(&self, coordinates: &Vec<Coordinate>) -> (r: Option<
        BoundingBox,
    >)
        ensures
            r == bounds_of(coordinates@),
    {
        if coordinates.len() == 0 {
            return None;
        }
        let first = coordinates[0];
        let mut b = BoundingBox::new(first.lat, first.lon, first.lat, first.lon);
        let mut i: usize = 1;
        proof {
            assert(coordinates@.take(1).drop_last() =~= Seq::<Coordinate>::empty());
            assert(coordinates@.take(1).last() == first);
            assert(bounds_of(Seq::<Coordinate>::empty()) is None);
        }
        while i < coordinates.len()
            invariant
                1 <= i <= coordinates@.len(),
                bounds_of(coordinates@.take(i as int)) == Some(b),
            decreases coordinates@.len() - i,
        {
            let c = coordinates[i];
            proof {
                assert(coordinates@.take(i + 1).drop_last() =~= coordinates@.take(i as int));
                assert(coordinates@.take(i + 1).last() == c);
            }
            if c.lat < b.min_lat {
                b.min_lat = c.lat;
            }
            if c.lat > b.max_lat {
                b.max_lat = c.lat;
            }
            if c.lon < b.min_lon {
                b.min_lon = c.lon;
            }
            if c.lon > b.max_lon {
                b.max_lon = c.lon;
            }
            i += 1;
        }
        assert(coordinates@.take(i as int) =~= coordinates@);
        Some(b)
    }

    /// The bounding box that a geometry gives, if it gives one.
    pub fn extract_bounding_box_from_geometry(&self, geometry: &Geometry) -> (r: Option<
        BoundingBox,
    >)
        ensures
            r == geometry_bounds(geometry.deep_view()),
            r matches Some(b) ==> b.is_ordered(),
    {
        proof {
            geometry_bounds_are_ordered(geometry.deep_view());
        }
        match geometry {
            Geometry::Point(c) => Some(
                BoundingBox::new(
                    saturating(c.lat, -POINT_PAD),
                    saturating(c.lon, -POINT_PAD),
                    saturating(c.lat, POINT_PAD),
                    saturating(c.lon, POINT_PAD),
                ),
            ),
            Geometry::Polygon(rings) => {
                if rings.len() > 0 {
                    assert(rings.deep_view()[0] =~= rings@[0]@);
                    self.calculate_bbox_from_coordinates(&rings[0])
                } else {
                    None
                }
            },
            Geometry::MultiPolygon(polygons) => {
                let ghost models = polygons.deep_view();
                let mut all: Vec<Coordinate> = Vec::new();
                let mut i: usize = 0;
                assert(models.take(0) =~= Seq::empty());
                while i < polygons.len()
                    invariant
                        i <= polygons@.len(),
                        models == polygons.deep_view(),
                        all@ == outer_rings(models.take(i as int)),
                    decreases polygons@.len() - i,
                {
                    let rings = &polygons[i];
                    proof {
                        assert(models.take(i + 1).drop_last() =~= models.take(i as int));
                        assert(models.take(i + 1).last() == rings.deep_view());
                    }
                    if rings.len() > 0 {
                        let ring = &rings[0];
                        assert(rings.deep_view()[0] =~= ring@);
                        let mut j: usize = 0;
                        let ghost before = all@;
                        while j < ring.len()
                            invariant
                                j <= ring@.len(),
                                all@ == before + ring@.take(j as int),
                            decreases ring@.len() - j,
                        {
                            all.push(ring[j]);
                            assert(ring@.take(j + 1) =~= ring@.take(j as int).push(ring@[j as int]));
                            j += 1;
                        }
                        assert(ring@.take(j as int) =~= ring@);
                    }
                    i += 1;
                }
                assert(models.take(i as int) =~= models);
                self.calculate_bbox_from_coordinates(&all)
            },
            Geometry::Unsupported => None,
        }
    }
}

/// Coordinate units in a tenth of a degree.
pub const UNITS_PER_TENTH: i64 = 1_000_000;

/// The box with the given bounds in tenths of a degree.
pub open spec fn box_in_tenths(min_lat: int, min_lon: int, max_lat: int, max_lon: int) -> BoundingBox {
    BoundingBox {
        min_lat: (min_lat * UNITS_PER_TENTH) as i64,
        min_lon: (min_lon * UNITS_PER_TENTH) as i64,
        max_lat: (max_lat * UNITS_PER_TENTH) as i64,
        max_lon: (max_lon * UNITS_PER_TENTH) as i64,
    }
}

fn tenths_box(min_lat: i16, min_lon: i16, max_lat: i16, max_lon: i16) -> (b: BoundingBox)
    ensures
        b == box_in_tenths(min_lat as int, min_lon as int, max_lat as int, max_lon as int),
        min_lat <= max_lat && min_lon <= max_lon ==> b.is_ordered(),
{
    BoundingBox::new(
        min_lat as i64 * UNITS_PER_TENTH,
        min_lon as i64 * UNITS_PER_TENTH,
        max_lat as i64 * UNITS_PER_TENTH,
        max_lon as i64 * UNITS_PER_TENTH,
    )
}

pub const WORLD: &'static str = "world";

pub const AFRICA: &'static str = "africa";

pub const ANTARCTICA: &'static str = "antarctica";

pub const ASIA: &'static str = "asia";

pub const AUSTRALIA_OCEANIA: &'static str = "australia-oceania";

pub const CENTRAL_AMERICA: &'static str = "central-america";

pub const EUROPE: &'static str = "europe";

pub const NORTH_AMERICA: &'static str = "north-america";

pub const SOUTH_AMERICA: &'static str = "south-america";

pub const GERMANY: &'static str = "germany";

pub const FRANCE: &'static str = "france";

pub const GREAT_BRITAIN: &'static str = "great-britain";

pub const UNITED_STATES: &'static str = "united-states";

pub const US: &'static str = "us";

pub const CANADA: &'static str = "canada";

/// The rough extent of the regions that the library knows by name.
pub open spec fn known_box(id: Seq<char>) -> Option<BoundingBox> {
    if id == WORLD@ {
        Some(box_in_tenths(-900, -1800, 900, 1800))
    }     else if id == AFRICA@ {
        Some(box_in_tenths(-350, -200, 380, 550))
    }     else if id == ANTARCTICA@ {
        Some(box_in_tenths(-900, -1800, -600, 1800))
    }     else if id == ASIA@ {
        Some(box_in_tenths(-110, 250, 820, 1800))
    }     else if id == AUSTRALIA_OCEANIA@ {
        Some(box_in_tenths(-550, 1100, 0, 1800))
    }     else if id == CENTRAL_AMERICA@ {
        Some(box_in_tenths(70, -920, 220, -770))
    }     else if id == EUROPE@ {
        Some(box_in_tenths(350, -250, 720, 450))
    }     else if id == NORTH_AMERICA@ {
        Some(box_in_tenths(150, -1800, 850, -500))
    }     else if id == SOUTH_AMERICA@ {
        Some(box_in_tenths(-600, -850, 150, -300))
    }     else if id == GERMANY@ {
        Some(box_in_tenths(473, 59, 550, 150))
    }     else if id == FRANCE@ {
        Some(box_in_tenths(413, -51, 511, 96))
    }     else if id == GREAT_BRITAIN@ {
        Some(box_in_tenths(499, -82, 608, 18))
    }     else if id == UNITED_STATES@ {
        Some(box_in_tenths(189, -1791, 714, -669))
    }     else if id == US@ {
        Some(box_in_tenths(189, -1791, 714, -669))
    }     else if id == CANADA@ {
        Some(box_in_tenths(417, -1410, 831, -526))
    } else {
        None
    }
}

/// The box of a feature without usable geometry: its own known box, else
/// the known box of its parent, else the whole world.
pub open spec fn estimated_box(id: Seq<char>, parent: Option<Seq<char>>) -> BoundingBox {
    match known_box(id) {
        Some(b) => b,
        None => match parent {
            Some(p) => match known_box(p) {
                Some(b) => b,
                None => BoundingBox::whole_world(),
            },
            None => BoundingBox::whole_world(),
        },
    }
}

/// The box of a feature: what its geometry gives, else the estimate.
pub open spec fn feature_box(
    id: Seq<char>,
    parent: Option<Seq<char>>,
    geometry: Option<GeometryModel>,
) -> BoundingBox {
    match geometry {
        Some(g) => match geometry_bounds(g) {
            Some(b) => b,
            None => estimated_box(id, parent),
        },
        None => estimated_box(id, parent),
    }
}

fn lookup_known(id: &String) -> (r: Option<BoundingBox>)
    ensures
        r == known_box(id@),
        r matches Some(b) ==> b.is_ordered(),
{
    if text_is(id, WORLD) {
        Some(tenths_box(-900, -1800, 900, 1800))
    }     else if text_is(id, AFRICA) {
        Some(tenths_box(-350, -200, 380, 550))
    }     else if text_is(id, ANTARCTICA) {
        Some(tenths_box(-900, -1800, -600, 1800))
    }     else if text_is(id, ASIA) {
        Some(tenths_box(-110, 250, 820, 1800))
    }     else if text_is(id, AUSTRALIA_OCEANIA) {
        Some(tenths_box(-550, 1100, 0, 1800))
    }     else if text_is(id, CENTRAL_AMERICA) {
        Some(tenths_box(70, -920, 220, -770))
    }     else if text_is(id, EUROPE) {
        Some(tenths_box(350, -250, 720, 450))
    }     else if text_is(id, NORTH_AMERICA) {
        Some(tenths_box(150, -1800, 850, -500))
    }     else if text_is(id, SOUTH_AMERICA) {
        Some(tenths_box(-600, -850, 150, -300))
    }     else if text_is(id, GERMANY) {
        Some(tenths_box(473, 59, 550, 150))
    }     else if text_is(id, FRANCE) {
        Some(tenths_box(413, -51, 511, 96))
    }     else if text_is(id, GREAT_BRITAIN) {
        Some(tenths_box(499, -82, 608, 18))
    }     else if text_is(id, UNITED_STATES) {
        Some(tenths_box(189, -1791, 714, -669))
    }     else if text_is(id, US) {
        Some(tenths_box(189, -1791, 714, -669))
    }     else if text_is(id, CANADA) {
        Some(tenths_box(417, -1410, 831, -526))
    } else {
        None
    }
}

impl Storage {
    /// Estimates the box of a feature from the table of known regions.
    pub fn estimate_bounding_box(&self, id: &str, parent: &Option<String>) -> (b: BoundingBox)
        ensures
            b == estimated_box(id@, opt_chars(*parent)),
            b.is_ordered(),
    {
        let own = String::from_str(id);
        match lookup_known(&own) {
            Some(b) => b,
            None => match parent {
                Some(p) => match lookup_known(p) {
                    Some(b) => b,
                    None => BoundingBox::world(),
                },
                None => BoundingBox::world(),
            },
        }
    }

    /// The box of a feature: from its geometry where that gives one, else
    /// estimated.
    pub fn bounding_box_of(&self, id: &str, parent: &Option<String>, geometry: &Option<Geometry>) -> (b:
        BoundingBox)
        ensures
            b == feature_box(id@, opt_chars(*parent), geometry.deep_view()),
            b.is_ordered(),
    {
        match geometry {
            Some(g) => match self.extract_bounding_box_from_geometry(g) {
                Some(b) => b,
                None => self.estimate_bounding_box(id, parent),
            },
            None => self.estimate_bounding_box(id, parent),
        }
    }
}

} // verus!
