//! Handling one click: the ray is tested against every plane and one marker
//! is produced per intersected plane, colored by the classification.

use vstd::prelude::*;

use crate::hit::{
    denom_of, hit_test, point_of, su_of, sv_of, within_of, Plane, PlaneS, PointR, PointS, Ray,
    RayS,
};
use crate::rat::hundredths_of;

verus! {

/// The color of a spawned marker cube.
#[derive(Clone, Copy, Debug, PartialEq, Eq, Structural)]
pub enum MarkerColor {
    /// The hit falls within the plane's bounds (approx. RGB 0.1/0.8/0.2).
    Green,
    /// The hit falls outside the plane's bounds (approx. RGB 0.8/0.1/0.2).
    Red,
}

/// Normalized surface coordinates of an in-bounds hit, rounded to hundredths
/// for the two-decimal hit report.
#[derive(Clone, Copy, Debug, PartialEq, Eq, Structural)]
pub struct SurfaceCoords {
    /// `round(100 * (u + 1/2))`, in `0..=100`.
    pub u_hundredths: u8,
    /// `round(100 * (v + 1/2))`, in `0..=100`.
    pub v_hundredths: u8,
}

/// Mathematical model of a marker: where it sits, how it is classified, and
/// the rounded surface coordinates reported for an in-bounds hit.
pub ghost struct MarkerS {
    pub point: PointS,
    pub within: bool,
    pub surface: Option<(int, int)>,
}

/// A marker cube to spawn at a ray–plane intersection.
#[derive(Clone, Copy, Debug, PartialEq, Eq, Structural)]
pub struct Marker {
    /// The world intersection point the marker sits at.
    pub point: PointR,
    /// Green for an in-bounds hit, red otherwise.
    pub color: MarkerColor,
    /// Rounded surface coordinates, reported only for an in-bounds hit.
    pub surface: Option<SurfaceCoords>,
}

impl View for Marker {
    type V = MarkerS;

    open spec fn view(&self) -> MarkerS {
        MarkerS {
            point: self.point@,
            within: self.color is Green,
            surface: match self.surface {
                Option::Some(c) => Option::Some(
                    (c.u_hundredths as int, c.v_hundredths as int),
                ),
                Option::None => Option::None,
            },
        }
    }
}

/// The marker produced for one intersected plane.
pub open spec fn marker_of(r: RayS, p: PlaneS) -> MarkerS {
    MarkerS {
        point: point_of(r, p),
        within: within_of(r, p),
        surface: if within_of(r, p) {
            Option::Some(
                (
                    hundredths_of(su_of(r, p).num, su_of(r, p).den),
                    hundredths_of(sv_of(r, p).num, sv_of(r, p).den),
                ),
            )
        } else {
            Option::None
        },
    }
}

/// The markers produced by one click: one per plane the ray intersects, in
/// plane order; a plane the ray is parallel to produces none.
pub open spec fn markers_of(r: RayS, ps: Seq<PlaneS>) -> Seq<MarkerS>
    decreases ps.len(),
{
    if ps.len() == 0 {
        Seq::empty()
    } else {
        let rest = markers_of(r, ps.drop_last());
        if denom_of(r, ps.last()) != 0 {
            rest.push(marker_of(r, ps.last()))
        } else {
            rest
        }
    }
}

/// The views of a sequence of markers.
pub open spec fn marker_views(ms: Seq<Marker>) -> Seq<MarkerS> {
    ms.map_values(|m: Marker| m@)
}

/// The views of a sequence of planes.
pub open spec fn plane_views(ps: Seq<Plane>) -> Seq<PlaneS> {
    ps.map_values(|p: Plane| p@)
}

/// Handles one click: casts the ray at every plane in order and returns the
/// markers to spawn, each placed at the exact intersection point, green when
/// the hit is within the plane's bounds and red otherwise, with rounded
/// surface coordinates attached to in-bounds hits for reporting.
pub fn process_click(ray: &Ray, planes: &Vec<Plane>) -> (markers: Vec<Marker>)
    requires
        ray.wf(),
        forall|i: int| 0 <= i < planes@.len() ==> planes@[i].in_range(),
    ensures
        marker_views(markers@) == markers_of(ray@, plane_views(planes@)),
{
    let mut out: Vec<Marker> = Vec::new();
    let mut i: usize = 0;
    while i < planes.len()
        invariant
            i <= planes.len(),
            ray.wf(),
            forall|j: int| 0 <= j < planes@.len() ==> planes@[j].in_range(),
            marker_views(out@) == markers_of(ray@, plane_views(planes@).take(i as int)),
        decreases planes.len() - i,
    {
        let plane = &planes[i];
        let ghost prefix = plane_views(planes@).take(i as int);
        match hit_test(ray, plane) {
            Option::Some(h) => {
                let surface = if h.within {
                    Option::Some(
                        SurfaceCoords {
                            u_hundredths: crate::rat::hundredths(&h.su),
                            v_hundredths: crate::rat::hundredths(&h.sv),
                        },
                    )
                } else {
                    Option::None
                };
                let color = if h.within {
                    MarkerColor::Green
                } else {
                    MarkerColor::Red
                };
                let marker = Marker { point: h.point, color, surface };
                assert(marker@ == marker_of(ray@, plane@));
                let ghost out0 = out@;
                out.push(marker);
                proof {
                    assert(marker_views(out@) =~= marker_views(out0).push(marker@));
                }
            },
            Option::None => {},
        }
        proof {
            let all = plane_views(planes@);
            assert(all.take(i as int + 1).drop_last() =~= prefix);
            assert(all.take(i as int + 1).last() == plane@);
        }
        i += 1;
    }
    proof {
        assert(plane_views(planes@).take(planes@.len() as int) =~= plane_views(planes@));
    }
    out
}

/// Law: a click is deterministic — the identical click scenario always
/// produces markers at identical positions with identical classification.
pub proof fn lemma_click_deterministic(
    r: RayS,
    ps: Seq<PlaneS>,
    m1: Seq<MarkerS>,
    m2: Seq<MarkerS>,
)
    requires
        m1 == markers_of(r, ps),
        m2 == markers_of(r, ps),
    ensures
        m1 == m2,
{
}

/// Law: a ray parallel to a plane produces no marker for that plane — the
/// other planes' markers are unchanged.
pub proof fn lemma_parallel_no_marker(r: RayS, ps: Seq<PlaneS>, p: PlaneS)
    requires
        denom_of(r, p) == 0,
    ensures
        markers_of(r, ps.push(p)) == markers_of(r, ps),
{
    assert(ps.push(p).drop_last() =~= ps);
}

} // verus!
