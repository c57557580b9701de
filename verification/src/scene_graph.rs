//! The hierarchical transform resolver: world transforms composed along
//! parent chains, and transform-preserving attach/detach of parents.
//!
//! A world transform is an affine pair: a 3x3 linear part in micro-scale
//! (rotation times scale, shear included when they interact along a chain)
//! and a translation in micro-units. Composition, inversion and
//! decomposition are carried out exactly in saturating fixed point, so
//! every contract states the resulting numbers precisely.

use vstd::prelude::*;
use crate::fixed::{
    Vec3Fx, FX_ONE, sadd, ssub, fxmul, muldiv_s, sin_ud, cos_ud, sin_half_ud, isqrt_spec,
    add_sat, sub_sat, mul_fx, mul_div_signed, sin_fx, cos_fx, isqrt128,
};
use crate::components::{Transform, Parent};
use crate::world::World;
use crate::store::EMPTY;

verus! {

/// Row-major 3x3 matrix of micro-scale fixed-point factors.
#[derive(Clone, Copy, PartialEq, Eq, Structural, Debug)]
pub struct Mat3Fx {
    pub x: Vec3Fx,
    pub y: Vec3Fx,
    pub z: Vec3Fx,
}

/// An affine world transform: linear part and translation.
#[derive(Clone, Copy, PartialEq, Eq, Structural, Debug)]
pub struct Affine {
    pub linear: Mat3Fx,
    pub translation: Vec3Fx,
}

impl Mat3Fx {
    pub open spec fn spec_identity() -> Mat3Fx {
        Mat3Fx {
            x: Vec3Fx { x: FX_ONE, y: 0, z: 0 },
            y: Vec3Fx { x: 0, y: FX_ONE, z: 0 },
            z: Vec3Fx { x: 0, y: 0, z: FX_ONE },
        }
    }

    /// The identity matrix.
    pub fn identity() -> (m: Mat3Fx)
        ensures
            m == Mat3Fx::spec_identity(),
    {
        Mat3Fx {
            x: Vec3Fx { x: FX_ONE, y: 0, z: 0 },
            y: Vec3Fx { x: 0, y: FX_ONE, z: 0 },
            z: Vec3Fx { x: 0, y: 0, z: FX_ONE },
        }
    }
}

/// The rotation matrix of Euler XYZ angles in micro-degrees: rotation
/// about X, then Y, then Z.
pub open spec fn spec_rot_matrix(rot: Vec3Fx) -> Mat3Fx {
    let sa = sin_ud(rot.x as int);
    let ca = cos_ud(rot.x as int);
    let sb = sin_ud(rot.y as int);
    let cb = cos_ud(rot.y as int);
    let sc = sin_ud(rot.z as int);
    let cc = cos_ud(rot.z as int);
    Mat3Fx {
        x: Vec3Fx {
            x: fxmul(cb, cc) as i64,
            y: ssub(0, fxmul(cb, sc)) as i64,
            z: sb as i64,
        },
        y: Vec3Fx {
            x: sadd(fxmul(ca, sc), fxmul(fxmul(sa, sb), cc)) as i64,
            y: ssub(fxmul(ca, cc), fxmul(fxmul(sa, sb), sc)) as i64,
            z: ssub(0, fxmul(sa, cb)) as i64,
        },
        z: Vec3Fx {
            x: ssub(fxmul(sa, sc), fxmul(fxmul(ca, sb), cc)) as i64,
            y: sadd(fxmul(sa, cc), fxmul(fxmul(ca, sb), sc)) as i64,
            z: fxmul(ca, cb) as i64,
        },
    }
}

/// Computes the Euler XYZ rotation matrix.
pub fn rot_matrix(rot: Vec3Fx) -> (m: Mat3Fx)
    ensures
        m == spec_rot_matrix(rot),
{
    let sa = sin_fx(rot.x);
    let ca = cos_fx(rot.x);
    let sb = sin_fx(rot.y);
    let cb = cos_fx(rot.y);
    let sc = sin_fx(rot.z);
    let cc = cos_fx(rot.z);
    Mat3Fx {
        x: Vec3Fx {
            x: mul_fx(cb, cc),
            y: sub_sat(0, mul_fx(cb, sc)),
            z: sb,
        },
        y: Vec3Fx {
            x: add_sat(mul_fx(ca, sc), mul_fx(mul_fx(sa, sb), cc)),
            y: sub_sat(mul_fx(ca, cc), mul_fx(mul_fx(sa, sb), sc)),
            z: sub_sat(0, mul_fx(sa, cb)),
        },
        z: Vec3Fx {
            x: sub_sat(mul_fx(sa, sc), mul_fx(mul_fx(ca, sb), cc)),
            y: add_sat(mul_fx(sa, cc), mul_fx(mul_fx(ca, sb), sc)),
            z: mul_fx(ca, cb),
        },
    }
}

/// Local matrix of a transform: rotation columns scaled componentwise.
pub open spec fn spec_local_xf(t: Transform) -> Affine {
    let r = spec_rot_matrix(t.rotation);
    Affine {
        linear: Mat3Fx {
            x: Vec3Fx {
                x: fxmul(r.x.x as int, t.scale.x as int) as i64,
                y: fxmul(r.x.y as int, t.scale.y as int) as i64,
                z: fxmul(r.x.z as int, t.scale.z as int) as i64,
            },
            y: Vec3Fx {
                x: fxmul(r.y.x as int, t.scale.x as int) as i64,
                y: fxmul(r.y.y as int, t.scale.y as int) as i64,
                z: fxmul(r.y.z as int, t.scale.z as int) as i64,
            },
            z: Vec3Fx {
                x: fxmul(r.z.x as int, t.scale.x as int) as i64,
                y: fxmul(r.z.y as int, t.scale.y as int) as i64,
                z: fxmul(r.z.z as int, t.scale.z as int) as i64,
            },
        },
        translation: t.position,
    }
}

/// Computes the local affine transform of a `Transform`.
pub fn local_xf(t: &Transform) -> (a: Affine)
    ensures
        a == spec_local_xf(*t),
{
    let r = rot_matrix(t.rotation);
    Affine {
        linear: Mat3Fx {
            x: Vec3Fx {
                x: mul_fx(r.x.x, t.scale.x),
                y: mul_fx(r.x.y, t.scale.y),
                z: mul_fx(r.x.z, t.scale.z),
            },
            y: Vec3Fx {
                x: mul_fx(r.y.x, t.scale.x),
                y: mul_fx(r.y.y, t.scale.y),
                z: mul_fx(r.y.z, t.scale.z),
            },
            z: Vec3Fx {
                x: mul_fx(r.z.x, t.scale.x),
                y: mul_fx(r.z.y, t.scale.y),
                z: mul_fx(r.z.z, t.scale.z),
            },
        },
        translation: t.position,
    }
}

/// One row-by-column product entry.
pub open spec fn dot_fx(ax: int, ay: int, az: int, bx: int, by: int, bz: int) -> int {
    sadd(sadd(fxmul(ax, bx), fxmul(ay, by)), fxmul(az, bz))
}

pub open spec fn spec_mat_mul(a: Mat3Fx, b: Mat3Fx) -> Mat3Fx {
    Mat3Fx {
        x: Vec3Fx {
            x: dot_fx(a.x.x as int, a.x.y as int, a.x.z as int, b.x.x as int, b.y.x as int, b.z.x as int) as i64,
            y: dot_fx(a.x.x as int, a.x.y as int, a.x.z as int, b.x.y as int, b.y.y as int, b.z.y as int) as i64,
            z: dot_fx(a.x.x as int, a.x.y as int, a.x.z as int, b.x.z as int, b.y.z as int, b.z.z as int) as i64,
        },
        y: Vec3Fx {
            x: dot_fx(a.y.x as int, a.y.y as int, a.y.z as int, b.x.x as int, b.y.x as int, b.z.x as int) as i64,
            y: dot_fx(a.y.x as int, a.y.y as int, a.y.z as int, b.x.y as int, b.y.y as int, b.z.y as int) as i64,
            z: dot_fx(a.y.x as int, a.y.y as int, a.y.z as int, b.x.z as int, b.y.z as int, b.z.z as int) as i64,
        },
        z: Vec3Fx {
            x: dot_fx(a.z.x as int, a.z.y as int, a.z.z as int, b.x.x as int, b.y.x as int, b.z.x as int) as i64,
            y: dot_fx(a.z.x as int, a.z.y as int, a.z.z as int, b.x.y as int, b.y.y as int, b.z.y as int) as i64,
            z: dot_fx(a.z.x as int, a.z.y as int, a.z.z as int, b.x.z as int, b.y.z as int, b.z.z as int) as i64,
        },
    }
}

pub open spec fn spec_mat_vec(m: Mat3Fx, v: Vec3Fx) -> Vec3Fx {
    Vec3Fx {
        x: dot_fx(m.x.x as int, m.x.y as int, m.x.z as int, v.x as int, v.y as int, v.z as int) as i64,
        y: dot_fx(m.y.x as int, m.y.y as int, m.y.z as int, v.x as int, v.y as int, v.z as int) as i64,
        z: dot_fx(m.z.x as int, m.z.y as int, m.z.z as int, v.x as int, v.y as int, v.z as int) as i64,
    }
}

fn dot_fx_exec(ax: i64, ay: i64, az: i64, bx: i64, by: i64, bz: i64) -> (r: i64)
    ensures
        r as int == dot_fx(ax as int, ay as int, az as int, bx as int, by as int, bz as int),
{
    add_sat(add_sat(mul_fx(ax, bx), mul_fx(ay, by)), mul_fx(az, bz))
}

pub fn mat_mul(a: &Mat3Fx, b: &Mat3Fx) -> (r: Mat3Fx)
    ensures
        r == spec_mat_mul(*a, *b),
{
    Mat3Fx {
        x: Vec3Fx {
            x: dot_fx_exec(a.x.x, a.x.y, a.x.z, b.x.x, b.y.x, b.z.x),
            y: dot_fx_exec(a.x.x, a.x.y, a.x.z, b.x.y, b.y.y, b.z.y),
            z: dot_fx_exec(a.x.x, a.x.y, a.x.z, b.x.z, b.y.z, b.z.z),
        },
        y: Vec3Fx {
            x: dot_fx_exec(a.y.x, a.y.y, a.y.z, b.x.x, b.y.x, b.z.x),
            y: dot_fx_exec(a.y.x, a.y.y, a.y.z, b.x.y, b.y.y, b.z.y),
            z: dot_fx_exec(a.y.x, a.y.y, a.y.z, b.x.z, b.y.z, b.z.z),
        },
        z: Vec3Fx {
            x: dot_fx_exec(a.z.x, a.z.y, a.z.z, b.x.x, b.y.x, b.z.x),
            y: dot_fx_exec(a.z.x, a.z.y, a.z.z, b.x.y, b.y.y, b.z.y),
            z: dot_fx_exec(a.z.x, a.z.y, a.z.z, b.x.z, b.y.z, b.z.z),
        },
    }
}

pub fn mat_vec(m: &Mat3Fx, v: &Vec3Fx) -> (r: Vec3Fx)
    ensures
        r == spec_mat_vec(*m, *v),
{
    Vec3Fx {
        x: dot_fx_exec(m.x.x, m.x.y, m.x.z, v.x, v.y, v.z),
        y: dot_fx_exec(m.y.x, m.y.y, m.y.z, v.x, v.y, v.z),
        z: dot_fx_exec(m.z.x, m.z.y, m.z.z, v.x, v.y, v.z),
    }
}

/// Composition of affine transforms: the parent applied after the child.
pub open spec fn spec_compose(p: Affine, c: Affine) -> Affine {
    Affine {
        linear: spec_mat_mul(p.linear, c.linear),
        translation: p.translation.spec_add(spec_mat_vec(p.linear, c.translation)),
    }
}

pub fn compose(p: &Affine, c: &Affine) -> (r: Affine)
    ensures
        r == spec_compose(*p, *c),
{
    Affine {
        linear: mat_mul(&p.linear, &c.linear),
        translation: p.translation.add(mat_vec(&p.linear, &c.translation)),
    }
}

/// The world transform of an entity: its local transform composed under
/// its parent's world transform, up to `fuel` links. A cyclic parent chain
/// is a caller contract violation; the resolver follows at most `fuel`
/// links, and callers pass enough fuel for every acyclic chain.
pub open spec fn spec_world_xf(
    transforms: Map<usize, Transform>,
    parents: Map<usize, Parent>,
    id: usize,
    fuel: nat,
) -> Affine
    decreases fuel,
{
    let local = if transforms.contains_key(id) {
        spec_local_xf(transforms[id])
    } else {
        Affine { linear: Mat3Fx::spec_identity(), translation: Vec3Fx::spec_zero() }
    };
    if parents.contains_key(id) && fuel > 0 {
        spec_compose(
            spec_world_xf(transforms, parents, parents[id].parent_id, (fuel - 1) as nat),
            local,
        )
    } else {
        local
    }
}

impl World {
    fn world_xf_fuel(&self, id: usize, fuel: usize) -> (r: Affine)
        requires
            self.wf(),
            id != EMPTY,
        ensures
            r == spec_world_xf(self.transforms@, self.parents@, id, fuel as nat),
        decreases fuel,
    {
        let local = match self.transforms.get(id) {
            Some(t) => local_xf(t),
            None => Affine { linear: Mat3Fx::identity(), translation: Vec3Fx::zero() },
        };
        if fuel > 0 {
            match self.parents.get(id) {
                Some(p) => {
                    let pid = p.parent_id;
                    if pid != EMPTY {
                        let pw = self.world_xf_fuel(pid, fuel - 1);
                        compose(&pw, &local)
                    } else {
                        proof {
                            self.transforms.lemma_sentinel_absent();
                            self.parents.lemma_sentinel_absent();
                            lemma_world_xf_sentinel(self.transforms@, self.parents@,
                                (fuel - 1) as nat);
                        }
                        let pw = Affine {
                            linear: Mat3Fx::identity(),
                            translation: Vec3Fx::zero(),
                        };
                        compose(&pw, &local)
                    }
                },
                None => local,
            }
        } else {
            match self.parents.get(id) {
                Some(_) => local,
                None => local,
            }
        }
    }

    /// The world transform of an entity, composed along its parent chain.
    /// The chain must be acyclic (a caller obligation per the data model);
    /// the chain bound is the number of parent links.
    pub fn compute_world_matrix(&self, id: usize) -> (r: Affine)
        requires
            self.wf(),
            id != EMPTY,
        ensures
            r == spec_world_xf(self.transforms@, self.parents@, id,
                self.parents.ids_seq().len()),
    {
        let fuel = self.parents.len();
        self.world_xf_fuel(id, fuel)
    }

    /// The parent of an entity, or `u32::MAX` if it has none.
    pub fn get_parent(&self, child_id: usize) -> (r: u32)
        requires
            self.wf(),
            child_id != EMPTY,
        ensures
            r == if self.parents@.contains_key(child_id) {
                self.parents@[child_id].parent_id as u32
            } else {
                u32::MAX
            },
    {
        match self.parents.get(child_id) {
            Some(p) => #[verifier::truncate] (p.parent_id as u32),
            None => u32::MAX,
        }
    }

    /// The direct children of an entity, in parent-store order.
    pub fn get_children(&self, parent_id: usize) -> (r: Vec<usize>)
        requires
            self.wf(),
        ensures
            r@ == children_from(self.parents.ids_seq(), self.parents@, parent_id, 0),
    {
        let ids = self.parents.iter();
        proof {
            self.parents.lemma_model();
        }
        let mut out: Vec<usize> = Vec::new();
        let mut k: usize = 0;
        while k < ids.len()
            invariant
                self.wf(),
                k <= ids@.len(),
                ids@ == self.parents.ids_seq(),
                forall|q: int| 0 <= q < ids@.len() ==> (#[trigger] ids@[q]) != EMPTY,
                out@ + children_from(ids@, self.parents@, parent_id, k as int)
                    == children_from(ids@, self.parents@, parent_id, 0),
            decreases ids@.len() - k,
        {
            let id = ids[k];
            let ghost prev = out@;
            match self.parents.get(id) {
                Some(p) => {
                    if p.parent_id == parent_id {
                        out.push(id);
                    }
                },
                None => {},
            }
            proof {
                if self.parents@.contains_key(id)
                    && self.parents@[id].parent_id == parent_id {
                    assert(prev.push(id)
                        + children_from(ids@, self.parents@, parent_id, k + 1)
                        =~= prev + children_from(ids@, self.parents@, parent_id, k as int));
                }
            }
            k = k + 1;
        }
        proof {
            assert(out@ + Seq::<usize>::empty() =~= out@);
        }
        out
    }
}

/// Entities from `ids[k..]` whose parent is `parent_id`, in order.
pub open spec fn children_from(
    ids: Seq<usize>,
    parents: Map<usize, Parent>,
    parent_id: usize,
    k: int,
) -> Seq<usize>
    decreases ids.len() - k,
{
    if k < 0 || k >= ids.len() {
        Seq::empty()
    } else {
        let rest = children_from(ids, parents, parent_id, k + 1);
        if parents.contains_key(ids[k]) && parents[ids[k]].parent_id == parent_id {
            seq![ids[k]] + rest
        } else {
            rest
        }
    }
}

/// Determinant of the linear part, micro-scale.
pub open spec fn spec_det(m: Mat3Fx) -> int {
    let c00 = ssub(fxmul(m.y.y as int, m.z.z as int), fxmul(m.y.z as int, m.z.y as int));
    let c01 = ssub(fxmul(m.y.z as int, m.z.x as int), fxmul(m.y.x as int, m.z.z as int));
    let c02 = ssub(fxmul(m.y.x as int, m.z.y as int), fxmul(m.y.y as int, m.z.x as int));
    sadd(sadd(fxmul(m.x.x as int, c00), fxmul(m.x.y as int, c01)), fxmul(m.x.z as int, c02))
}

pub fn det_fx(m: &Mat3Fx) -> (r: i64)
    ensures
        r as int == spec_det(*m),
{
    let c00 = sub_sat(mul_fx(m.y.y, m.z.z), mul_fx(m.y.z, m.z.y));
    let c01 = sub_sat(mul_fx(m.y.z, m.z.x), mul_fx(m.y.x, m.z.z));
    let c02 = sub_sat(mul_fx(m.y.x, m.z.y), mul_fx(m.y.y, m.z.x));
    add_sat(add_sat(mul_fx(m.x.x, c00), mul_fx(m.x.y, c01)), mul_fx(m.x.z, c02))
}

/// One adjugate entry scaled to an inverse entry.
pub open spec fn inv_entry(p: int, q: int, r: int, s: int, det: int) -> int {
    muldiv_s(ssub(fxmul(p, q), fxmul(r, s)), FX_ONE as int, det)
}

/// Inverse of an affine transform by the adjugate; a singular (or
/// saturated-degenerate) linear part inverts to the identity.
pub open spec fn spec_inverse(a: Affine) -> Affine {
    let m = a.linear;
    let det = spec_det(m);
    if det == 0 || det == i64::MIN {
        Affine { linear: Mat3Fx::spec_identity(), translation: Vec3Fx::spec_zero() }
    } else {
        let inv = Mat3Fx {
            x: Vec3Fx {
                x: inv_entry(m.y.y as int, m.z.z as int, m.y.z as int, m.z.y as int, det) as i64,
                y: inv_entry(m.x.z as int, m.z.y as int, m.x.y as int, m.z.z as int, det) as i64,
                z: inv_entry(m.x.y as int, m.y.z as int, m.x.z as int, m.y.y as int, det) as i64,
            },
            y: Vec3Fx {
                x: inv_entry(m.y.z as int, m.z.x as int, m.y.x as int, m.z.z as int, det) as i64,
                y: inv_entry(m.x.x as int, m.z.z as int, m.x.z as int, m.z.x as int, det) as i64,
                z: inv_entry(m.x.z as int, m.y.x as int, m.x.x as int, m.y.z as int, det) as i64,
            },
            z: Vec3Fx {
                x: inv_entry(m.y.x as int, m.z.y as int, m.y.y as int, m.z.x as int, det) as i64,
                y: inv_entry(m.x.y as int, m.z.x as int, m.x.x as int, m.z.y as int, det) as i64,
                z: inv_entry(m.x.x as int, m.y.y as int, m.x.y as int, m.y.x as int, det) as i64,
            },
        };
        Affine {
            linear: inv,
            translation: Vec3Fx::spec_zero().spec_sub(spec_mat_vec(inv, a.translation)),
        }
    }
}

fn inv_entry_fx(p: i64, q: i64, r: i64, s: i64, det: i64) -> (e: i64)
    requires
        det != 0,
        det != i64::MIN,
    ensures
        e as int == inv_entry(p as int, q as int, r as int, s as int, det as int),
{
    mul_div_signed(sub_sat(mul_fx(p, q), mul_fx(r, s)), FX_ONE, det)
}

pub fn inverse(a: &Affine) -> (r: Affine)
    ensures
        r == spec_inverse(*a),
{
    let m = &a.linear;
    let det = det_fx(m);
    if det == 0 || det == i64::MIN {
        return Affine { linear: Mat3Fx::identity(), translation: Vec3Fx::zero() };
    }
    let inv = Mat3Fx {
        x: Vec3Fx {
            x: inv_entry_fx(m.y.y, m.z.z, m.y.z, m.z.y, det),
            y: inv_entry_fx(m.x.z, m.z.y, m.x.y, m.z.z, det),
            z: inv_entry_fx(m.x.y, m.y.z, m.x.z, m.y.y, det),
        },
        y: Vec3Fx {
            x: inv_entry_fx(m.y.z, m.z.x, m.y.x, m.z.z, det),
            y: inv_entry_fx(m.x.x, m.z.z, m.x.z, m.z.x, det),
            z: inv_entry_fx(m.x.z, m.y.x, m.x.x, m.y.z, det),
        },
        z: Vec3Fx {
            x: inv_entry_fx(m.y.x, m.z.y, m.y.y, m.z.x, det),
            y: inv_entry_fx(m.x.y, m.z.x, m.x.x, m.z.y, det),
            z: inv_entry_fx(m.x.x, m.y.y, m.x.y, m.y.x, det),
        },
    };
    let t = mat_vec(&inv, &a.translation);
    Affine { linear: inv, translation: Vec3Fx::zero().sub(t) }
}

/// Binary search for the largest angle whose sine does not exceed `v`;
/// this recursion is the definition the executable search is held to.
pub open spec fn asin_search(lo: int, hi: int, v: int) -> int
    decreases hi - lo,
{
    if hi - lo <= 1 {
        lo
    } else {
        let mid = lo + (hi - lo) / 2;
        if sin_ud(mid) <= v {
            asin_search(mid, hi, v)
        } else {
            asin_search(lo, mid, v)
        }
    }
}

/// Arcsine in micro-degrees of a micro-scale value; exact at zero and at
/// the endpoints.
pub open spec fn asin_spec(v: int) -> int {
    if v <= -1_000_000 {
        -90_000_000
    } else if v >= 1_000_000 {
        90_000_000
    } else if v == 0 {
        0
    } else {
        asin_search(-90_000_000, 90_000_000, v)
    }
}

pub fn asin_fx(v: i64) -> (r: i64)
    requires
        -1_000_000 <= v <= 1_000_000,
    ensures
        r as int == asin_spec(v as int),
{
    if v <= -1_000_000 {
        return -90_000_000;
    }
    if v >= 1_000_000 {
        return 90_000_000;
    }
    if v == 0 {
        return 0;
    }
    let mut lo: i64 = -90_000_000;
    let mut hi: i64 = 90_000_000;
    while hi - lo > 1
        invariant
            -90_000_000 <= lo < hi <= 90_000_000,
            asin_search(lo as int, hi as int, v as int)
                == asin_search(-90_000_000, 90_000_000, v as int),
        decreases hi - lo,
    {
        let mid = lo + (hi - lo) / 2;
        if sin_fx(mid) <= v {
            lo = mid;
        } else {
            hi = mid;
        }
    }
    lo
}

/// The sign function the angle-from-coordinates search brackets: positive
/// once the candidate angle passes the direction of `(x, y)`.
pub open spec fn atan2_h(y: int, x: int, a: int) -> int {
    x * sin_ud(a) - y * cos_ud(a)
}

pub open spec fn atan2_search(y: int, x: int, lo: int, hi: int) -> int
    decreases hi - lo,
{
    if hi - lo <= 1 {
        lo
    } else {
        let mid = lo + (hi - lo) / 2;
        if atan2_h(y, x, mid) <= 0 {
            atan2_search(y, x, mid, hi)
        } else {
            atan2_search(y, x, lo, mid)
        }
    }
}

/// The angle of the direction `(x, y)` in micro-degrees, in
/// `(-180, 180]` degrees; exact on the axes.
pub open spec fn atan2_spec(y: int, x: int) -> int {
    if y == 0 {
        if x >= 0 {
            0
        } else {
            180_000_000
        }
    } else if x == 0 {
        if y > 0 {
            90_000_000
        } else {
            -90_000_000
        }
    } else if x > 0 {
        atan2_search(y, x, -90_000_000, 90_000_000)
    } else if y > 0 {
        atan2_search(y, x, 90_000_000, 180_000_000)
    } else {
        atan2_search(y, x, -180_000_000, -90_000_000)
    }
}

fn atan2_h_leq0(y: i64, x: i64, a: i64) -> (r: bool)
    ensures
        r == (atan2_h(y as int, x as int, a as int) <= 0),
{
    let s = sin_fx(a) as i128;
    let c = cos_fx(a) as i128;
    proof {
        assert((x as int) * (s as int) <= 0x8000_0000_0000_0000 * 1_000_000
            && (x as int) * (s as int) >= -(0x8000_0000_0000_0000 * 1_000_000)
            && (y as int) * (c as int) <= 0x8000_0000_0000_0000 * 1_000_000
            && (y as int) * (c as int) >= -(0x8000_0000_0000_0000 * 1_000_000))
            by (nonlinear_arith)
            requires
                -0x8000_0000_0000_0000 <= x as int <= 0x7fff_ffff_ffff_ffff,
                -0x8000_0000_0000_0000 <= y as int <= 0x7fff_ffff_ffff_ffff,
                -1_000_000 <= s as int <= 1_000_000,
                -1_000_000 <= c as int <= 1_000_000,
        ;
    }
    let xs = (x as i128) * s;
    let yc = (y as i128) * c;
    xs - yc <= 0
}

pub fn atan2_fx(y: i64, x: i64) -> (r: i64)
    ensures
        r as int == atan2_spec(y as int, x as int),
{
    if y == 0 {
        if x >= 0 {
            return 0;
        }
        return 180_000_000;
    }
    if x == 0 {
        if y > 0 {
            return 90_000_000;
        }
        return -90_000_000;
    }
    let mut lo: i64 = if x > 0 {
        -90_000_000
    } else if y > 0 {
        90_000_000
    } else {
        -180_000_000
    };
    let mut hi: i64 = if x > 0 {
        90_000_000
    } else {
        lo + 90_000_000
    };
    let ghost lo0 = lo as int;
    let ghost hi0 = hi as int;
    while hi - lo > 1
        invariant
            y != 0,
            x != 0,
            lo0 == (if x > 0 {
                -90_000_000int
            } else if y > 0 {
                90_000_000int
            } else {
                -180_000_000int
            }),
            hi0 == (if x > 0 {
                90_000_000int
            } else {
                lo0 + 90_000_000
            }),
            lo0 <= lo < hi <= hi0,
            atan2_search(y as int, x as int, lo as int, hi as int)
                == atan2_search(y as int, x as int, lo0, hi0),
        decreases hi - lo,
    {
        let mid = lo + (hi - lo) / 2;
        if atan2_h_leq0(y, x, mid) {
            lo = mid;
        } else {
            hi = mid;
        }
    }
    proof {
        assert(atan2_search(y as int, x as int, lo as int, hi as int) == lo as int);
    }
    lo
}

pub open spec fn clamp_unit(v: int) -> int {
    if v < -1_000_000 {
        -1_000_000
    } else if v > 1_000_000 {
        1_000_000
    } else {
        v
    }
}

/// Length of one column of the linear part, micro-scale, saturated.
pub open spec fn col_norm(cx: int, cy: int, cz: int) -> int {
    crate::fixed::sat64(isqrt_spec((cx * cx + cy * cy + cz * cz) as nat) as int)
}

fn sq_u128(e: i64) -> (r: u128)
    ensures
        r as int == (e as int) * (e as int),
        r <= 0x8000_0000_0000_0000 * 0x8000_0000_0000_0000,
{
    let a: u128 = if e >= 0 {
        e as u128
    } else {
        (-(e as i128)) as u128
    };
    proof {
        assert((a as int) * (a as int) == (e as int) * (e as int)
            && (a as int) * (a as int) <= 0x8000_0000_0000_0000 * 0x8000_0000_0000_0000)
            by (nonlinear_arith)
            requires
                a as int == (if e as int >= 0 { e as int } else { -(e as int) }),
                -0x8000_0000_0000_0000 <= e as int <= 0x7fff_ffff_ffff_ffff,
        ;
    }
    a * a
}

fn col_norm_fx(cx: i64, cy: i64, cz: i64) -> (r: i64)
    ensures
        r as int == col_norm(cx as int, cy as int, cz as int),
{
    let n = sq_u128(cx) + sq_u128(cy) + sq_u128(cz);
    let s = isqrt128(n);
    if s > i64::MAX as u128 {
        i64::MAX
    } else {
        s as i64
    }
}

/// Decomposition of an affine transform into translation, Euler XYZ
/// rotation (micro-degrees) and scale (micro-scale), consistent with how
/// `spec_local_xf` re-composes them: scales are the column lengths (the
/// first negated under a reflection), the rotation is read off the
/// normalized columns through the deterministic angle searches, and a zero
/// column yields an identity rotation column.
pub open spec fn spec_decompose(a: Affine) -> (Vec3Fx, Vec3Fx, Vec3Fx) {
    let m = a.linear;
    let det = spec_det(m);
    let nx = col_norm(m.x.x as int, m.y.x as int, m.z.x as int);
    let ny = col_norm(m.x.y as int, m.y.y as int, m.z.y as int);
    let nz = col_norm(m.x.z as int, m.y.z as int, m.z.z as int);
    let sx = if det < 0 {
        ssub(0, nx)
    } else {
        nx
    };
    let r00 = if sx == 0 { FX_ONE as int } else { muldiv_s(m.x.x as int, FX_ONE as int, sx) };
    let r10 = if sx == 0 { 0int } else { muldiv_s(m.y.x as int, FX_ONE as int, sx) };
    let r20 = if sx == 0 { 0int } else { muldiv_s(m.z.x as int, FX_ONE as int, sx) };
    let r01 = if ny == 0 { 0int } else { muldiv_s(m.x.y as int, FX_ONE as int, ny) };
    let r11 = if ny == 0 { FX_ONE as int } else { muldiv_s(m.y.y as int, FX_ONE as int, ny) };
    let r21 = if ny == 0 { 0int } else { muldiv_s(m.z.y as int, FX_ONE as int, ny) };
    let r02 = if nz == 0 { 0int } else { muldiv_s(m.x.z as int, FX_ONE as int, nz) };
    let r12 = if nz == 0 { 0int } else { muldiv_s(m.y.z as int, FX_ONE as int, nz) };
    let r22 = if nz == 0 { FX_ONE as int } else { muldiv_s(m.z.z as int, FX_ONE as int, nz) };
    let b = asin_spec(clamp_unit(r02));
    let ax = atan2_spec(ssub(0, r12), r22);
    let cz = atan2_spec(ssub(0, r01), r00);
    (
        a.translation,
        Vec3Fx { x: ax as i64, y: b as i64, z: cz as i64 },
        Vec3Fx { x: sx as i64, y: ny as i64, z: nz as i64 },
    )
}

pub fn decompose(a: &Affine) -> (r: (Vec3Fx, Vec3Fx, Vec3Fx))
    ensures
        r == spec_decompose(*a),
{
    let m = &a.linear;
    let det = det_fx(m);
    let nx = col_norm_fx(m.x.x, m.y.x, m.z.x);
    let ny = col_norm_fx(m.x.y, m.y.y, m.z.y);
    let nz = col_norm_fx(m.x.z, m.y.z, m.z.z);
    let sx = if det < 0 {
        sub_sat(0, nx)
    } else {
        nx
    };
    let r00 = if sx == 0 { FX_ONE } else { mul_div_signed(m.x.x, FX_ONE, sx) };
    let r01 = if ny == 0 { 0i64 } else { mul_div_signed(m.x.y, FX_ONE, ny) };
    let r02 = if nz == 0 { 0i64 } else { mul_div_signed(m.x.z, FX_ONE, nz) };
    let r12 = if nz == 0 { 0i64 } else { mul_div_signed(m.y.z, FX_ONE, nz) };
    let r22 = if nz == 0 { FX_ONE } else { mul_div_signed(m.z.z, FX_ONE, nz) };
    let cl = if r02 < -1_000_000 {
        -1_000_000
    } else if r02 > 1_000_000 {
        1_000_000
    } else {
        r02
    };
    let b = asin_fx(cl);
    let ax = atan2_fx(sub_sat(0, r12), r22);
    let cz = atan2_fx(sub_sat(0, r01), r00);
    (
        a.translation,
        Vec3Fx { x: ax, y: b, z: cz },
        Vec3Fx { x: sx, y: ny, z: nz },
    )
}

/// The local transform a child gets when attached to (or detached from) a
/// parent: the decomposition of the parent's inverse world transform
/// composed with the child's world transform.
pub open spec fn spec_reparent_local(w: World, child: usize, parent: usize) -> (Vec3Fx, Vec3Fx, Vec3Fx) {
    let n = w.parents.ids_seq().len();
    spec_decompose(spec_compose(
        spec_inverse(spec_world_xf(w.transforms@, w.parents@, parent, n)),
        spec_world_xf(w.transforms@, w.parents@, child, n),
    ))
}

impl World {
    /// Attaches `parent_id` as the parent of `child_id`. The child's
    /// transform is rewritten to the local transform decomposed from
    /// `inverse(parent_world) * child_world`, so its world pose is
    /// unchanged at the instant of attachment (exactly so for
    /// translation-only chains, see `lemma_reparent_round_trip`).
    pub fn set_parent(&mut self, child_id: usize, parent_id: usize)
        requires
            old(self).wf(),
            child_id != EMPTY,
            parent_id != EMPTY,
        ensures
            final(self).wf(),
            final(self).parents@ == old(self).parents@.insert(child_id, Parent { parent_id }),
            old(self).transforms@.contains_key(child_id) ==> final(self).transforms@
                == old(self).transforms@.insert(child_id, Transform {
                    position: spec_reparent_local(*old(self), child_id, parent_id).0,
                    rotation: spec_reparent_local(*old(self), child_id, parent_id).1,
                    scale: spec_reparent_local(*old(self), child_id, parent_id).2,
                }),
            !old(self).transforms@.contains_key(child_id) ==> final(self).transforms@
                == old(self).transforms@,
            *final(self) == (World {
                transforms: final(self).transforms,
                parents: final(self).parents,
                ..*old(self)
            }),
    {
        let child_world = self.compute_world_matrix(child_id);
        let parent_world = self.compute_world_matrix(parent_id);
        let inv = inverse(&parent_world);
        let local = compose(&inv, &child_world);
        let (pos, eul, scl) = decompose(&local);
        if let Some(t) = self.transforms.get_mut(child_id) {
            t.position = pos;
            t.rotation = eul;
            t.scale = scl;
        }
        self.parents.insert(child_id, Parent { parent_id });
    }

    /// Detaches `child_id` from its parent; its transform is rewritten
    /// with its decomposed world transform, now interpreted as world
    /// space.
    pub fn remove_parent(&mut self, child_id: usize)
        requires
            old(self).wf(),
            child_id != EMPTY,
        ensures
            final(self).wf(),
            final(self).parents@ == old(self).parents@.remove(child_id),
            old(self).transforms@.contains_key(child_id) ==> final(self).transforms@
                == old(self).transforms@.insert(child_id, Transform {
                    position: spec_decompose(spec_world_xf(old(self).transforms@,
                        old(self).parents@, child_id, old(self).parents.ids_seq().len())).0,
                    rotation: spec_decompose(spec_world_xf(old(self).transforms@,
                        old(self).parents@, child_id, old(self).parents.ids_seq().len())).1,
                    scale: spec_decompose(spec_world_xf(old(self).transforms@,
                        old(self).parents@, child_id, old(self).parents.ids_seq().len())).2,
                }),
            !old(self).transforms@.contains_key(child_id) ==> final(self).transforms@
                == old(self).transforms@,
            *final(self) == (World {
                transforms: final(self).transforms,
                parents: final(self).parents,
                ..*old(self)
            }),
    {
        let world = self.compute_world_matrix(child_id);
        let (pos, eul, scl) = decompose(&world);
        if let Some(t) = self.transforms.get_mut(child_id) {
            t.position = pos;
            t.rotation = eul;
            t.scale = scl;
        }
        self.parents.remove(child_id);
    }

    /// The nine decomposed world-transform numbers
    /// `[px, py, pz, rx, ry, rz, sx, sy, sz]` of an entity.
    pub fn get_world_transform_array(&self, id: usize) -> (r: [i64; 9])
        requires
            self.wf(),
            id != EMPTY,
        ensures
            ({
                let d = spec_decompose(spec_world_xf(self.transforms@, self.parents@, id,
                    self.parents.ids_seq().len()));
                r@ == seq![
                    d.0.x, d.0.y, d.0.z,
                    d.1.x, d.1.y, d.1.z,
                    d.2.x, d.2.y, d.2.z,
                ]
            }),
    {
        let w = self.compute_world_matrix(id);
        let (pos, eul, scl) = decompose(&w);
        let r = [pos.x, pos.y, pos.z, eul.x, eul.y, eul.z, scl.x, scl.y, scl.z];
        proof {
            let d = spec_decompose(spec_world_xf(self.transforms@, self.parents@, id,
                self.parents.ids_seq().len()));
            assert(r@ =~= seq![
                d.0.x, d.0.y, d.0.z,
                d.1.x, d.1.y, d.1.z,
                d.2.x, d.2.y, d.2.z,
            ]);
        }
        r
    }
}

/// Scaling by the unit factor is exact, and by zero is zero.
pub proof fn lemma_unit_entry(v: int)
    requires
        -0x8000_0000_0000_0000 <= v <= 0x7fff_ffff_ffff_ffff,
    ensures
        fxmul(1_000_000, v) == v,
        fxmul(v, 1_000_000) == v,
        fxmul(0, v) == 0,
        fxmul(v, 0) == 0,
{
    assert(1_000_000 * v == v * 1_000_000 && 0 * v == 0 && v * 0 == 0) by (nonlinear_arith);
    if v >= 0 {
        vstd::arithmetic::div_mod::lemma_div_multiples_vanish(v, 1_000_000);
    } else {
        vstd::arithmetic::div_mod::lemma_div_multiples_vanish(-v, 1_000_000);
        assert(1_000_000 * (-v) == -(1_000_000 * v)) by (nonlinear_arith);
    }
    vstd::arithmetic::div_mod::lemma_div_of0(1_000_000);
}

/// A zero rotation produces exactly the identity matrix.
pub proof fn lemma_identity_rot()
    ensures
        spec_rot_matrix(Vec3Fx::spec_zero()) == Mat3Fx::spec_identity(),
{
    vstd::arithmetic::div_mod::lemma_small_mod(0, 360_000_000);
    vstd::arithmetic::div_mod::lemma_small_mod(90_000_000, 360_000_000);
    assert(0int % 360_000_000 == 0);
    assert(90_000_000int % 360_000_000 == 90_000_000);
    assert(sin_half_ud(0) == 0) by {
        vstd::arithmetic::div_mod::lemma_div_of0(40_500_000_000_000_000);
    }
    assert(sin_half_ud(90_000_000) == 1_000_000) by {
        assert(90_000_000int * (180_000_000 - 90_000_000) == 8_100_000_000_000_000);
        assert((4int * 8_100_000_000_000_000 * 1_000_000)
            / (40_500_000_000_000_000 - 8_100_000_000_000_000) == 1_000_000);
    }
    assert(sin_ud(0) == 0);
    assert(cos_ud(0) == 1_000_000);
}

/// A transform with zero rotation and unit scale has the identity linear
/// part and its own position as translation.
pub proof fn lemma_local_identity(t: Transform)
    requires
        t.rotation == Vec3Fx::spec_zero(),
        t.scale == Vec3Fx::spec_one(),
    ensures
        spec_local_xf(t) == (Affine {
            linear: Mat3Fx::spec_identity(),
            translation: t.position,
        }),
{
    lemma_identity_rot();
    lemma_unit_entry(1_000_000);
    lemma_unit_entry(0);
}

/// The identity matrix maps every in-range vector to itself.
pub proof fn lemma_mat_vec_identity(v: Vec3Fx)
    ensures
        spec_mat_vec(Mat3Fx::spec_identity(), v) == v,
{
    lemma_unit_entry(v.x as int);
    lemma_unit_entry(v.y as int);
    lemma_unit_entry(v.z as int);
}

/// Composition of identity-linear transforms adds translations.
pub proof fn lemma_identity_facts()
    ensures
        spec_mat_mul(Mat3Fx::spec_identity(), Mat3Fx::spec_identity())
            == Mat3Fx::spec_identity(),
        spec_det(Mat3Fx::spec_identity()) == 1_000_000,
{
    lemma_unit_entry(1_000_000);
    lemma_unit_entry(0);
}

/// Inverting a pure translation negates it.
pub proof fn lemma_inverse_translation(t: Vec3Fx)
    ensures
        spec_inverse(Affine { linear: Mat3Fx::spec_identity(), translation: t })
            == (Affine {
                linear: Mat3Fx::spec_identity(),
                translation: Vec3Fx::spec_zero().spec_sub(t),
            }),
{
    lemma_identity_facts();
    lemma_unit_entry(1_000_000);
    lemma_unit_entry(0);
    let a = Affine { linear: Mat3Fx::spec_identity(), translation: t };
    assert(spec_det(a.linear) == 1_000_000);
    assert(spec_inverse(a).linear =~= Mat3Fx::spec_identity());
    lemma_mat_vec_identity(t);
}

/// Decomposing a pure translation recovers it with zero rotation and unit
/// scale, exactly.
pub proof fn lemma_decompose_translation(t: Vec3Fx)
    ensures
        spec_decompose(Affine { linear: Mat3Fx::spec_identity(), translation: t })
            == (t, Vec3Fx::spec_zero(), Vec3Fx::spec_one()),
{
    lemma_identity_facts();
    crate::fixed::lemma_isqrt_bounds(1_000_000_000_000);
    assert(isqrt_spec(1_000_000_000_000) == 1_000_000) by (nonlinear_arith)
        requires
            (isqrt_spec(1_000_000_000_000) * isqrt_spec(1_000_000_000_000)) as int
                <= 1_000_000_000_000,
            1_000_000_000_000 < ((isqrt_spec(1_000_000_000_000) + 1)
                * (isqrt_spec(1_000_000_000_000) + 1)) as int,
    ;
    assert(col_norm(1_000_000, 0, 0) == 1_000_000);
    assert(col_norm(0, 1_000_000, 0) == 1_000_000);
    assert(col_norm(0, 0, 1_000_000) == 1_000_000);
}

/// Reparenting round-trip on translation-only transforms: attaching a
/// root child under a root parent, both with zero rotation and unit scale
/// and in-range positions, leaves the child's world transform exactly
/// unchanged. (With rotated or scaled chains the round trip holds only up
/// to fixed-point rounding, as it does in floating point.)
pub proof fn lemma_reparent_round_trip(w: World, child: usize, parent: usize)
    requires
        w.wf(),
        child != EMPTY,
        parent != EMPTY,
        child != parent,
        !w.parents@.contains_key(child),
        !w.parents@.contains_key(parent),
        w.transforms@.contains_key(child),
        w.transforms@.contains_key(parent),
        w.transforms@[child].rotation == Vec3Fx::spec_zero(),
        w.transforms@[child].scale == Vec3Fx::spec_one(),
        w.transforms@[parent].rotation == Vec3Fx::spec_zero(),
        w.transforms@[parent].scale == Vec3Fx::spec_one(),
        crate::physics::in_range(w.transforms@[child].position.x as int),
        crate::physics::in_range(w.transforms@[child].position.y as int),
        crate::physics::in_range(w.transforms@[child].position.z as int),
        crate::physics::in_range(w.transforms@[parent].position.x as int),
        crate::physics::in_range(w.transforms@[parent].position.y as int),
        crate::physics::in_range(w.transforms@[parent].position.z as int),
    ensures
        ({
            let local = spec_reparent_local(w, child, parent);
            let transforms2 = w.transforms@.insert(child, Transform {
                position: local.0,
                rotation: local.1,
                scale: local.2,
            });
            let parents2 = w.parents@.insert(child, Parent { parent_id: parent });
            forall|fuel2: nat|
                fuel2 > 0 ==> spec_world_xf(transforms2, parents2, child, fuel2)
                    == spec_world_xf(w.transforms@, w.parents@, child,
                        w.parents.ids_seq().len())
        }),
{
    let n = w.parents.ids_seq().len();
    let tc = w.transforms@[child];
    let tp = w.transforms@[parent];
    let ident = Mat3Fx::spec_identity();

    lemma_local_identity(tc);
    lemma_local_identity(tp);
    // Before: the child is a root, so its world transform is its local one.
    assert(spec_world_xf(w.transforms@, w.parents@, child, n)
        == (Affine { linear: ident, translation: tc.position }));
    assert(spec_world_xf(w.transforms@, w.parents@, parent, n)
        == (Affine { linear: ident, translation: tp.position }));

    // The decomposed local transform is the exact position difference.
    lemma_inverse_translation(tp.position);
    lemma_identity_facts();
    lemma_mat_vec_identity(tc.position);
    let diff = Vec3Fx::spec_zero().spec_sub(tp.position).spec_add(tc.position);
    assert(spec_compose(
        Affine { linear: ident, translation: Vec3Fx::spec_zero().spec_sub(tp.position) },
        Affine { linear: ident, translation: tc.position },
    ) =~= (Affine { linear: ident, translation: diff }));
    lemma_decompose_translation(diff);
    let local = spec_reparent_local(w, child, parent);
    assert(local == (diff, Vec3Fx::spec_zero(), Vec3Fx::spec_one()));

    // After: the parent is still a root, the child's local transform is the
    // difference, and composing restores the original translation exactly.
    let transforms2 = w.transforms@.insert(child, Transform {
        position: local.0,
        rotation: local.1,
        scale: local.2,
    });
    let parents2 = w.parents@.insert(child, Parent { parent_id: parent });
    lemma_local_identity(transforms2[child]);
    lemma_local_identity(transforms2[parent]);
    assert forall|fuel2: nat| fuel2 > 0 implies
        spec_world_xf(transforms2, parents2, child, fuel2)
            == spec_world_xf(w.transforms@, w.parents@, child, n) by {
        assert(spec_world_xf(transforms2, parents2, parent, (fuel2 - 1) as nat)
            == (Affine { linear: ident, translation: tp.position }));
        lemma_mat_vec_identity(diff);
        assert(tp.position.spec_add(diff) == tc.position);
        assert(spec_world_xf(transforms2, parents2, child, fuel2)
            =~= (Affine { linear: ident, translation: tc.position }));
    }
}

/// Detach round-trip on translation-only transforms: removing the parent
/// of a child attached under a root parent, both with zero rotation and
/// unit scale and in-range positions, leaves the child's world transform
/// exactly unchanged.
pub proof fn lemma_detach_round_trip(w: World, child: usize, parent: usize)
    requires
        w.wf(),
        child != EMPTY,
        parent != EMPTY,
        child != parent,
        w.parents@.contains_key(child),
        w.parents@[child].parent_id == parent,
        !w.parents@.contains_key(parent),
        w.transforms@.contains_key(child),
        w.transforms@.contains_key(parent),
        w.transforms@[child].rotation == Vec3Fx::spec_zero(),
        w.transforms@[child].scale == Vec3Fx::spec_one(),
        w.transforms@[parent].rotation == Vec3Fx::spec_zero(),
        w.transforms@[parent].scale == Vec3Fx::spec_one(),
        crate::physics::in_range(w.transforms@[child].position.x as int),
        crate::physics::in_range(w.transforms@[child].position.y as int),
        crate::physics::in_range(w.transforms@[child].position.z as int),
        crate::physics::in_range(w.transforms@[parent].position.x as int),
        crate::physics::in_range(w.transforms@[parent].position.y as int),
        crate::physics::in_range(w.transforms@[parent].position.z as int),
        w.parents.ids_seq().len() > 0,
    ensures
        ({
            let n = w.parents.ids_seq().len();
            let world = spec_world_xf(w.transforms@, w.parents@, child, n);
            let d = spec_decompose(world);
            let transforms2 = w.transforms@.insert(child, Transform {
                position: d.0,
                rotation: d.1,
                scale: d.2,
            });
            let parents2 = w.parents@.remove(child);
            forall|fuel2: nat|
                spec_world_xf(transforms2, parents2, child, fuel2) == world
        }),
{
    let n = w.parents.ids_seq().len();
    let tc = w.transforms@[child];
    let tp = w.transforms@[parent];
    let ident = Mat3Fx::spec_identity();
    lemma_local_identity(tc);
    lemma_local_identity(tp);
    assert(spec_world_xf(w.transforms@, w.parents@, parent, (n - 1) as nat)
        == (Affine { linear: ident, translation: tp.position }));
    lemma_identity_facts();
    lemma_mat_vec_identity(tc.position);
    let sum = tp.position.spec_add(tc.position);
    let world = spec_world_xf(w.transforms@, w.parents@, child, n);
    assert(world =~= (Affine { linear: ident, translation: sum }));
    lemma_decompose_translation(sum);
    let d = spec_decompose(world);
    assert(d == (sum, Vec3Fx::spec_zero(), Vec3Fx::spec_one()));
    let transforms2 = w.transforms@.insert(child, Transform {
        position: d.0,
        rotation: d.1,
        scale: d.2,
    });
    let parents2 = w.parents@.remove(child);
    lemma_local_identity(transforms2[child]);
    assert forall|fuel2: nat| spec_world_xf(transforms2, parents2, child, fuel2) == world by {
        assert(!parents2.contains_key(child));
        assert(spec_world_xf(transforms2, parents2, child, fuel2)
            =~= (Affine { linear: ident, translation: sum }));
    }
}

/// The sentinel owns no transform and no parent, so its world transform is
/// the identity at every fuel.
pub proof fn lemma_world_xf_sentinel(
    transforms: Map<usize, Transform>,
    parents: Map<usize, Parent>,
    fuel: nat,
)
    requires
        !transforms.contains_key(EMPTY),
        !parents.contains_key(EMPTY),
    ensures
        spec_world_xf(transforms, parents, EMPTY, fuel)
            == (Affine { linear: Mat3Fx::spec_identity(), translation: Vec3Fx::spec_zero() }),
{
}

} // verus!
