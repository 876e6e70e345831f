//! Ray–plane intersection and classification against a finite square plane.
//!
//! A finite plane is a square of side `size`, centered at `origin`, spanned
//! by the orthogonal axes `x_axis` and `z_axis` and facing along `normal`.
//! The axes carry an explicit `scale`: each has squared length
//! `scale * scale`, so a caller working in fixed-point units can describe a
//! rotated unit basis exactly. The hit test solves
//! `dot(origin + t * dir - plane_origin, normal) == 0` for the ray parameter
//! `t`, projects the intersection into the plane's local frame and compares
//! the local coordinates against the square's extent. All results are exact
//! rationals. By design, a negative `t` (an intersection behind the ray
//! origin) is accepted: the hit test reports any signed distance.

use vstd::prelude::*;

use crate::rat::{Rat, RatS, rat_norm_s, RAT_BOUND};
use crate::vec3::{
    Vec3i, Vec3s, MAX_COORD, iabs, lemma_mul_bound, lemma_mul_distrib_sub, lemma_product_nonzero,
    lemma_vdot_bound, lemma_vdot_comm, lemma_vdot_vadd, lemma_vdot_vneg, lemma_vdot_vscale,
    lemma_vdot_vsub, vadd, vdot, vneg, vscale, vsub, dot_i64,
};

verus! {

/// Mathematical model of a ray: an origin and a direction.
pub ghost struct RayS {
    pub origin: Vec3s,
    pub dir: Vec3s,
}

/// A ray cast into the scene, in fixed-point world units.
#[derive(Clone, Copy, Debug, PartialEq, Eq, Structural)]
pub struct Ray {
    pub origin: Vec3i,
    pub dir: Vec3i,
}

impl View for Ray {
    type V = RayS;

    open spec fn view(&self) -> RayS {
        RayS { origin: self.origin@, dir: self.dir@ }
    }
}

impl Ray {
    /// Both the origin and the direction are within the coordinate bound.
    pub open spec fn wf(self) -> bool {
        &&& self.origin.in_range()
        &&& self.dir.in_range()
    }

    /// Builds a ray from its origin and direction.
    pub fn new(origin: Vec3i, dir: Vec3i) -> (r: Ray)
        ensures
            r == (Ray { origin, dir }),
    {
        Ray { origin, dir }
    }
}

/// Mathematical model of a finite square plane.
pub ghost struct PlaneS {
    pub origin: Vec3s,
    pub normal: Vec3s,
    pub x_axis: Vec3s,
    pub z_axis: Vec3s,
    pub scale: int,
    pub size: int,
}

/// A finite square plane, in fixed-point world units.
#[derive(Clone, Copy, Debug, PartialEq, Eq, Structural)]
pub struct Plane {
    pub origin: Vec3i,
    pub normal: Vec3i,
    pub x_axis: Vec3i,
    pub z_axis: Vec3i,
    pub scale: i64,
    pub size: i64,
}

impl View for Plane {
    type V = PlaneS;

    open spec fn view(&self) -> PlaneS {
        PlaneS {
            origin: self.origin@,
            normal: self.normal@,
            x_axis: self.x_axis@,
            z_axis: self.z_axis@,
            scale: self.scale as int,
            size: self.size as int,
        }
    }
}

/// The geometric invariant of a plane description: a positive side length,
/// a nonzero normal, and in-plane axes that are orthogonal to each other and
/// to the normal, each of squared length `scale * scale`.
pub open spec fn plane_math_wf(p: PlaneS) -> bool {
    &&& 1 <= p.scale
    &&& 1 <= p.size
    &&& vdot(p.x_axis, p.x_axis) == p.scale * p.scale
    &&& vdot(p.z_axis, p.z_axis) == p.scale * p.scale
    &&& vdot(p.x_axis, p.z_axis) == 0
    &&& vdot(p.x_axis, p.normal) == 0
    &&& vdot(p.z_axis, p.normal) == 0
    &&& vdot(p.normal, p.normal) > 0
}

impl Plane {
    /// All fields are within the coordinate bound.
    pub open spec fn in_range(self) -> bool {
        &&& self.origin.in_range()
        &&& self.normal.in_range()
        &&& self.x_axis.in_range()
        &&& self.z_axis.in_range()
        &&& 1 <= self.scale <= MAX_COORD
        &&& 1 <= self.size <= MAX_COORD
    }

    /// A well-formed plane is in range and geometrically valid.
    pub open spec fn wf(self) -> bool {
        &&& self.in_range()
        &&& plane_math_wf(self@)
    }

    /// Builds a plane after checking the whole invariant, and rejects any
    /// description that breaks it.
    pub fn new(origin: Vec3i, normal: Vec3i, x_axis: Vec3i, z_axis: Vec3i, scale: i64, size: i64)
        -> (r: Option<Plane>)
        ensures
            r is Some <==> (Plane { origin, normal, x_axis, z_axis, scale, size }).wf(),
            r is Some ==> r->Some_0 == (Plane { origin, normal, x_axis, z_axis, scale, size }),
    {
        let p = Plane { origin, normal, x_axis, z_axis, scale, size };
        if !(coords_in_range(&origin) && coords_in_range(&normal) && coords_in_range(&x_axis)
            && coords_in_range(&z_axis) && 1 <= scale && scale <= MAX_COORD && 1 <= size
            && size <= MAX_COORD) {
            return None;
        }
        proof {
            // 268435456 == MAX_COORD; the squared scale stays under 2^56.
            lemma_mul_bound(scale as int, scale as int, 268435456, 268435456);
        }
        let sq = (scale as i128) * (scale as i128);
        if dot_i64(&x_axis, &x_axis) != sq {
            return None;
        }
        if dot_i64(&z_axis, &z_axis) != sq {
            return None;
        }
        if dot_i64(&x_axis, &z_axis) != 0 {
            return None;
        }
        if dot_i64(&x_axis, &normal) != 0 {
            return None;
        }
        if dot_i64(&z_axis, &normal) != 0 {
            return None;
        }
        if dot_i64(&normal, &normal) <= 0 {
            return None;
        }
        Some(p)
    }
}

/// Whether every component of a vector is within the coordinate bound.
fn coords_in_range(v: &Vec3i) -> (b: bool)
    ensures
        b == v.in_range(),
{
    -MAX_COORD <= v.x && v.x <= MAX_COORD && -MAX_COORD <= v.y && v.y <= MAX_COORD
        && -MAX_COORD <= v.z && v.z <= MAX_COORD
}

/// The denominator of the ray parameter: `dot(dir, normal)`. The ray is
/// parallel to the plane exactly when this is zero.
pub open spec fn denom_of(r: RayS, p: PlaneS) -> int {
    vdot(r.dir, p.normal)
}

/// The numerator of the ray parameter `t = tnum / denom` solving
/// `dot(origin + t * dir - plane_origin, normal) == 0`.
pub open spec fn tnum_of(r: RayS, p: PlaneS) -> int {
    vdot(vsub(p.origin, r.origin), p.normal)
}

/// The ray parameter of the intersection, as a sign-normalized rational.
pub open spec fn t_of(r: RayS, p: PlaneS) -> RatS {
    rat_norm_s(tnum_of(r, p), denom_of(r, p))
}

/// Numerators of the world intersection point `origin + t * dir`, over the
/// common denominator `denom_of`.
pub open spec fn point_num_of(r: RayS, p: PlaneS) -> Vec3s {
    vadd(vscale(denom_of(r, p), r.origin), vscale(tnum_of(r, p), r.dir))
}

/// Numerators of the intersection point's offset from the plane center,
/// over the common denominator `denom_of`.
pub open spec fn local_num_of(r: RayS, p: PlaneS) -> Vec3s {
    vsub(point_num_of(r, p), vscale(denom_of(r, p), p.origin))
}

/// Numerator of the local coordinate `u` along the plane's X axis.
pub open spec fn u_num_of(r: RayS, p: PlaneS) -> int {
    vdot(local_num_of(r, p), p.x_axis)
}

/// Numerator of the local coordinate `v` along the plane's Z axis.
pub open spec fn v_num_of(r: RayS, p: PlaneS) -> int {
    vdot(local_num_of(r, p), p.z_axis)
}

/// The common denominator of the local coordinates `u` and `v`: the local
/// offset is divided once by the axis scale and once by the side length, so
/// that the finite plane spans `u, v` in `[-1/2, 1/2]`.
pub open spec fn uv_den_of(r: RayS, p: PlaneS) -> int {
    denom_of(r, p) * p.scale * p.size
}

/// Whether the intersection lies within the plane's square extent:
/// `|u| <= 1/2` and `|v| <= 1/2`, boundary included.
pub open spec fn within_of(r: RayS, p: PlaneS) -> bool {
    &&& 2 * iabs(u_num_of(r, p)) <= iabs(uv_den_of(r, p))
    &&& 2 * iabs(v_num_of(r, p)) <= iabs(uv_den_of(r, p))
}

/// Mathematical model of the world intersection point: numerators over a
/// positive common denominator.
pub ghost struct PointS {
    pub num: Vec3s,
    pub den: int,
}

/// The world intersection point, with the sign moved into the numerators.
pub open spec fn point_of(r: RayS, p: PlaneS) -> PointS {
    if denom_of(r, p) >= 0 {
        PointS { num: point_num_of(r, p), den: denom_of(r, p) }
    } else {
        PointS { num: vneg(point_num_of(r, p)), den: -denom_of(r, p) }
    }
}

/// The local coordinate `u`, as a sign-normalized rational.
pub open spec fn u_of(r: RayS, p: PlaneS) -> RatS {
    rat_norm_s(u_num_of(r, p), uv_den_of(r, p))
}

/// The local coordinate `v`, as a sign-normalized rational.
pub open spec fn v_of(r: RayS, p: PlaneS) -> RatS {
    rat_norm_s(v_num_of(r, p), uv_den_of(r, p))
}

/// The normalized surface coordinate `u + 1/2`, in `[0, 1]` for in-bounds
/// hits.
pub open spec fn su_of(r: RayS, p: PlaneS) -> RatS {
    rat_norm_s(2 * u_num_of(r, p) + uv_den_of(r, p), 2 * uv_den_of(r, p))
}

/// The normalized surface coordinate `v + 1/2`, in `[0, 1]` for in-bounds
/// hits.
pub open spec fn sv_of(r: RayS, p: PlaneS) -> RatS {
    rat_norm_s(2 * v_num_of(r, p) + uv_den_of(r, p), 2 * uv_den_of(r, p))
}

/// An exact point in space: integer numerators over one positive
/// denominator.
#[derive(Clone, Copy, Debug, PartialEq, Eq, Structural)]
pub struct PointR {
    pub num_x: i128,
    pub num_y: i128,
    pub num_z: i128,
    pub den: i128,
}

impl View for PointR {
    type V = PointS;

    open spec fn view(&self) -> PointS {
        PointS {
            num: Vec3s { x: self.num_x as int, y: self.num_y as int, z: self.num_z as int },
            den: self.den as int,
        }
    }
}

/// Everything the hit test finds out about one ray–plane intersection.
#[derive(Clone, Copy, Debug, PartialEq, Eq, Structural)]
pub struct SurfaceHit {
    /// The signed ray parameter of the intersection; negative when the
    /// supporting plane lies behind the ray origin.
    pub t: Rat,
    /// The world intersection point.
    pub point: PointR,
    /// The local coordinate along the plane's X axis, in `[-1/2, 1/2]` when
    /// the hit is within bounds.
    pub u: Rat,
    /// The local coordinate along the plane's Z axis.
    pub v: Rat,
    /// Whether the hit falls within the plane's square extent (boundary
    /// included).
    pub within: bool,
    /// The normalized surface coordinate `u + 1/2`.
    pub su: Rat,
    /// The normalized surface coordinate `v + 1/2`.
    pub sv: Rat,
}

/// Intersects a ray with a finite plane and classifies the hit.
///
/// Returns `None` exactly when the ray is parallel to the plane's supporting
/// plane (`dot(dir, normal) == 0`); a zero direction counts as parallel, so
/// no intersection is attempted for it. Otherwise every field of the result
/// is the exact rational value of the corresponding step of the hit test.
pub fn hit_test(ray: &Ray, plane: &Plane) -> (r: Option<SurfaceHit>)
    requires
        ray.wf(),
        plane.in_range(),
    ensures
        r is Some <==> denom_of(ray@, plane@) != 0,
        match r {
            Option::Some(h) => {
                &&& h.t@ == t_of(ray@, plane@)
                &&& h.t.wf()
                &&& h.point@ == point_of(ray@, plane@)
                &&& h.point@.den > 0
                &&& h.u@ == u_of(ray@, plane@)
                &&& h.u.wf()
                &&& h.v@ == v_of(ray@, plane@)
                &&& h.v.wf()
                &&& h.su@ == su_of(ray@, plane@)
                &&& h.su.wf()
                &&& h.sv@ == sv_of(ray@, plane@)
                &&& h.sv.wf()
                &&& h.within == within_of(ray@, plane@)
                &&& (h.within <==> 2 * iabs(h.u@.num) <= h.u@.den && 2 * iabs(h.v@.num)
                    <= h.v@.den)
                &&& (h.within ==> 0 <= h.su@.num <= h.su@.den && 0 <= h.sv@.num <= h.sv@.den)
            },
            Option::None => true,
        },
{
    // Bounds below are written as literals, all powers of the coordinate
    // bound 2^28: 536870912 == 2^29, 216172782113783808 == 3 * 2^56,
    // 432345564227567616 == 6 * 2^56, 58028439341502200385896448 == 3 * 2^84,
    // 232113757366008801543585792 == 12 * 2^84.
    let denom = dot_i64(&ray.dir, &plane.normal);
    proof {
        lemma_vdot_bound(ray@.dir, plane@.normal, 268435456, 268435456);
    }
    if denom == 0 {
        return None;
    }
    // tnum / denom solves dot(origin + t * dir - plane_origin, normal) == 0.
    let co = plane.origin.diff(&ray.origin);
    let tnum = dot_i64(&co, &plane.normal);
    proof {
        lemma_vdot_bound(co@, plane@.normal, 536870912, 268435456);
    }
    let t = Rat::norm(tnum, denom);

    // World intersection point: (denom * origin + tnum * dir) / denom.
    proof {
        lemma_mul_bound(denom as int, ray@.origin.x, 216172782113783808, 268435456);
        lemma_mul_bound(denom as int, ray@.origin.y, 216172782113783808, 268435456);
        lemma_mul_bound(denom as int, ray@.origin.z, 216172782113783808, 268435456);
        lemma_mul_bound(tnum as int, ray@.dir.x, 432345564227567616, 268435456);
        lemma_mul_bound(tnum as int, ray@.dir.y, 432345564227567616, 268435456);
        lemma_mul_bound(tnum as int, ray@.dir.z, 432345564227567616, 268435456);
    }
    let pnx = denom * (ray.origin.x as i128) + tnum * (ray.dir.x as i128);
    let pny = denom * (ray.origin.y as i128) + tnum * (ray.dir.y as i128);
    let pnz = denom * (ray.origin.z as i128) + tnum * (ray.dir.z as i128);
    let point = if denom >= 0 {
        PointR { num_x: pnx, num_y: pny, num_z: pnz, den: denom }
    } else {
        PointR { num_x: -pnx, num_y: -pny, num_z: -pnz, den: -denom }
    };
    assert(point@ == point_of(ray@, plane@));

    // Local offset from the plane center, over the same denominator:
    // point_num - denom * plane_origin == tnum * dir - denom * (plane_origin - origin).
    proof {
        lemma_mul_bound(denom as int, co@.x, 216172782113783808, 536870912);
        lemma_mul_bound(denom as int, co@.y, 216172782113783808, 536870912);
        lemma_mul_bound(denom as int, co@.z, 216172782113783808, 536870912);
        lemma_mul_distrib_sub(denom as int, plane@.origin.x, ray@.origin.x);
        lemma_mul_distrib_sub(denom as int, plane@.origin.y, ray@.origin.y);
        lemma_mul_distrib_sub(denom as int, plane@.origin.z, ray@.origin.z);
    }
    let lnx = tnum * (ray.dir.x as i128) - denom * (co.x as i128);
    let lny = tnum * (ray.dir.y as i128) - denom * (co.y as i128);
    let lnz = tnum * (ray.dir.z as i128) - denom * (co.z as i128);
    assert(lnx as int == local_num_of(ray@, plane@).x);
    assert(lny as int == local_num_of(ray@, plane@).y);
    assert(lnz as int == local_num_of(ray@, plane@).z);

    // Project onto the plane's axes.
    proof {
        lemma_mul_bound(lnx as int, plane@.x_axis.x, 232113757366008801543585792, 268435456);
        lemma_mul_bound(lny as int, plane@.x_axis.y, 232113757366008801543585792, 268435456);
        lemma_mul_bound(lnz as int, plane@.x_axis.z, 232113757366008801543585792, 268435456);
        lemma_mul_bound(lnx as int, plane@.z_axis.x, 232113757366008801543585792, 268435456);
        lemma_mul_bound(lny as int, plane@.z_axis.y, 232113757366008801543585792, 268435456);
        lemma_mul_bound(lnz as int, plane@.z_axis.z, 232113757366008801543585792, 268435456);
    }
    let unum = lnx * (plane.x_axis.x as i128) + lny * (plane.x_axis.y as i128) + lnz
        * (plane.x_axis.z as i128);
    let vnum = lnx * (plane.z_axis.x as i128) + lny * (plane.z_axis.y as i128) + lnz
        * (plane.z_axis.z as i128);
    assert(unum as int == u_num_of(ray@, plane@));
    assert(vnum as int == v_num_of(ray@, plane@));

    // Normalize by the axis scale and the side length.
    proof {
        lemma_mul_bound(denom as int, plane@.scale, 216172782113783808, 268435456);
        lemma_mul_bound(denom as int * plane@.scale, plane@.size, 58028439341502200385896448,
            268435456);
        lemma_product_nonzero(denom as int, plane@.scale, plane@.size);
    }
    let uden = denom * (plane.scale as i128) * (plane.size as i128);
    let u = Rat::norm(unum, uden);
    let v = Rat::norm(vnum, uden);

    // Classification: within bounds iff |u| <= 1/2 and |v| <= 1/2.
    let au = if unum < 0 { -unum } else { unum };
    let av = if vnum < 0 { -vnum } else { vnum };
    let aden = if uden < 0 { -uden } else { uden };
    let within = 2 * au <= aden && 2 * av <= aden;
    assert(within == within_of(ray@, plane@));

    // Normalized surface coordinates: (u + 1/2, v + 1/2).
    let su = Rat::norm(2 * unum + uden, 2 * uden);
    let sv = Rat::norm(2 * vnum + uden, 2 * uden);

    Some(SurfaceHit { t, point, u, v, within, su, sv })
}

/// Law: the intersection point solves the plane equation
/// `dot(origin + t * dir - plane_origin, normal) == 0`: its offset from the
/// plane center is orthogonal to the normal. Stated over the common
/// denominator, so it holds for every ray and plane.
pub proof fn lemma_hit_point_on_plane(r: RayS, p: PlaneS)
    ensures
        vdot(local_num_of(r, p), p.normal) == 0,
{
    let dnm = denom_of(r, p);
    let tn = tnum_of(r, p);
    lemma_vdot_vsub(point_num_of(r, p), vscale(dnm, p.origin), p.normal);
    lemma_vdot_vadd(vscale(dnm, r.origin), vscale(tn, r.dir), p.normal);
    lemma_vdot_vscale(dnm, r.origin, p.normal);
    lemma_vdot_vscale(tn, r.dir, p.normal);
    lemma_vdot_vscale(dnm, p.origin, p.normal);
    lemma_vdot_vsub(p.origin, r.origin, p.normal);
    let on = vdot(r.origin, p.normal);
    let cn = vdot(p.origin, p.normal);
    assert(dnm * on + (cn - on) * dnm - dnm * cn == 0) by (nonlinear_arith);
}

/// Law: a hit landing exactly on the plane's edge (`|u| == 1/2`) is
/// classified within bounds — the comparison is inclusive.
pub proof fn lemma_boundary_inclusive(r: RayS, p: PlaneS)
    requires
        denom_of(r, p) != 0,
        2 * iabs(u_num_of(r, p)) == iabs(uv_den_of(r, p)),
        2 * iabs(v_num_of(r, p)) <= iabs(uv_den_of(r, p)),
    ensures
        within_of(r, p),
{
}

/// For local-coordinate numerators of the shape the round trip produces,
/// the in-bounds comparison `2 * |numerator| <= |denominator|` reduces to a
/// comparison of the offset against the side length.
proof fn lemma_scaled_bound_iff(
    nn: int,
    s: int,
    z: int,
    a: int,
    un: int,
    ud: int,
    ia: int,
    iun: int,
    iud: int,
) by (nonlinear_arith)
    requires
        nn >= 1,
        s >= 1,
        z >= 1,
        un == (-nn) * (a * (s * s)),
        ud == ((-nn) * s) * z,
        ia >= 0,
        ia == a || ia == -a,
        iun >= 0,
        iun == un || iun == -un,
        iud >= 0,
        iud == ud || iud == -ud,
    ensures
        (2 * iun <= iud) == (2 * (ia * s) <= z),
{
}

/// Law: a point that lies exactly on the plane round-trips through the hit
/// test. For any geometrically valid plane — rotated bases included, since
/// the basis is taken from the plane itself — and any integer steps `a`, `b`
/// along its axes, a ray cast at the point `origin + a*x_axis + b*z_axis`
/// from one normal-length above it, against the normal, intersects the plane
/// at exactly that point, and its local coordinates are exactly the known
/// offset from the plane center: `u == a*scale/size` and `v == b*scale/size`.
pub proof fn lemma_round_trip(p: PlaneS, a: int, b: int)
    requires
        plane_math_wf(p),
    ensures
        ({
            let q = vadd(vscale(a, p.x_axis), vscale(b, p.z_axis));
            let pt = vadd(p.origin, q);
            let r = RayS { origin: vadd(pt, p.normal), dir: vneg(p.normal) };
            &&& denom_of(r, p) != 0
            // The ray parameter t is exactly 1: the hit is the cast point.
            &&& tnum_of(r, p) == denom_of(r, p)
            &&& point_num_of(r, p) == vscale(denom_of(r, p), pt)
            &&& u_num_of(r, p) * p.size == (a * p.scale) * uv_den_of(r, p)
            &&& v_num_of(r, p) * p.size == (b * p.scale) * uv_den_of(r, p)
            // The cast point is classified within bounds exactly when its
            // offset from the center fits the square's extent.
            &&& (within_of(r, p) <==> 2 * (iabs(a) * p.scale) <= p.size && 2 * (iabs(b)
                * p.scale) <= p.size)
        }),
{
    let q = vadd(vscale(a, p.x_axis), vscale(b, p.z_axis));
    let pt = vadd(p.origin, q);
    let r = RayS { origin: vadd(pt, p.normal), dir: vneg(p.normal) };
    let nn = vdot(p.normal, p.normal);
    let dnm = -nn;

    // The ray runs against the normal: denom == -dot(normal, normal) != 0.
    lemma_vdot_vneg(p.normal, p.normal);
    assert(denom_of(r, p) == dnm);

    // The in-plane offset q is orthogonal to the normal.
    lemma_vdot_vadd(vscale(a, p.x_axis), vscale(b, p.z_axis), p.normal);
    lemma_vdot_vscale(a, p.x_axis, p.normal);
    lemma_vdot_vscale(b, p.z_axis, p.normal);
    assert(vdot(q, p.normal) == 0);

    // tnum = dot(origin - ray_origin, normal) = dot(-(q + normal), normal).
    assert(vsub(p.origin, r.origin) == vneg(vadd(q, p.normal)));
    lemma_vdot_vneg(vadd(q, p.normal), p.normal);
    lemma_vdot_vadd(q, p.normal, p.normal);
    assert(tnum_of(r, p) == dnm);

    // The intersection point numerators are denom * pt, componentwise.
    assert(dnm * (pt.x + p.normal.x) + dnm * (-p.normal.x) == dnm * pt.x) by (nonlinear_arith);
    assert(dnm * (pt.y + p.normal.y) + dnm * (-p.normal.y) == dnm * pt.y) by (nonlinear_arith);
    assert(dnm * (pt.z + p.normal.z) + dnm * (-p.normal.z) == dnm * pt.z) by (nonlinear_arith);
    assert(point_num_of(r, p) == vscale(dnm, pt));

    // The local offset numerators are denom * q, componentwise.
    assert(dnm * pt.x - dnm * p.origin.x == dnm * (pt.x - p.origin.x)) by (nonlinear_arith);
    assert(dnm * pt.y - dnm * p.origin.y == dnm * (pt.y - p.origin.y)) by (nonlinear_arith);
    assert(dnm * pt.z - dnm * p.origin.z == dnm * (pt.z - p.origin.z)) by (nonlinear_arith);
    assert(local_num_of(r, p) == vscale(dnm, q));

    // Projecting q onto each axis recovers the step times the squared scale.
    lemma_vdot_vscale(dnm, q, p.x_axis);
    lemma_vdot_vadd(vscale(a, p.x_axis), vscale(b, p.z_axis), p.x_axis);
    lemma_vdot_vscale(a, p.x_axis, p.x_axis);
    lemma_vdot_vscale(b, p.z_axis, p.x_axis);
    lemma_vdot_comm(p.z_axis, p.x_axis);
    assert(vdot(q, p.x_axis) == a * (p.scale * p.scale));
    assert(u_num_of(r, p) == dnm * (a * (p.scale * p.scale)));

    lemma_vdot_vscale(dnm, q, p.z_axis);
    lemma_vdot_vadd(vscale(a, p.x_axis), vscale(b, p.z_axis), p.z_axis);
    lemma_vdot_vscale(a, p.x_axis, p.z_axis);
    lemma_vdot_vscale(b, p.z_axis, p.z_axis);
    lemma_vdot_comm(p.x_axis, p.z_axis);
    assert(vdot(q, p.z_axis) == b * (p.scale * p.scale));
    assert(v_num_of(r, p) == dnm * (b * (p.scale * p.scale)));

    // Cross-multiplied: u == a * scale / size over the common denominator.
    assert((dnm * (a * (p.scale * p.scale))) * p.size == (a * p.scale) * ((dnm * p.scale)
        * p.size)) by (nonlinear_arith);
    assert((dnm * (b * (p.scale * p.scale))) * p.size == (b * p.scale) * ((dnm * p.scale)
        * p.size)) by (nonlinear_arith);

    // Classification: |u| <= 1/2 reduces to 2 * |a| * scale <= size.
    lemma_scaled_bound_iff(
        nn,
        p.scale,
        p.size,
        a,
        u_num_of(r, p),
        uv_den_of(r, p),
        iabs(a),
        iabs(u_num_of(r, p)),
        iabs(uv_den_of(r, p)),
    );
    lemma_scaled_bound_iff(
        nn,
        p.scale,
        p.size,
        b,
        v_num_of(r, p),
        uv_den_of(r, p),
        iabs(b),
        iabs(v_num_of(r, p)),
        iabs(uv_den_of(r, p)),
    );
}

} // verus!
