//! Three-dimensional voxel traversal: the mirror of the two-dimensional
//! engine with one more axis.
//!
//! All coordinates are fixed-point (`fx::SCALE` steps per grid unit).  When
//! the next boundary crossing is an exact tie among two or three axes the
//! ray passes through a voxel edge or corner; every tied axis advances in
//! that single step and the highest tied axis provides the entry normal, so
//! a corner-exact diagonal ray visits only the diagonal voxels.

use vstd::prelude::*;
use crate::fx::{
    SCALE, COORD_LIMIT, DIR_LIMIT, SIZE_LIMIT, nneg, udiv, fx_floor, isqrt,
    isqrt_spec, lemma_mul_div_le,
};
use crate::axis::{
    MAXD_CAP, T_CAP, axis_ok, axis_measure, plane_distance, plane_distance_spec,
    point_along, point_along_spec,
};
use vstd::arithmetic::div_mod::{
    lemma_div_is_ordered, lemma_div_multiples_vanish, lemma_fundamental_div_mod,
};

verus! {

/// An axis-aligned grid of unit voxels spanning `[0, size)` on each axis,
/// anchored at the origin.
#[derive(Debug, Default, Clone, Copy, PartialEq, Eq)]
pub struct BoundingVolume3 {
    pub size: (i32, i32, i32),
}

impl BoundingVolume3 {
    /// A voxel is inside the volume when each coordinate lies in
    /// `[0, size)`; a non-positive extent makes containment always false.
    pub open spec fn contains_spec(self, x: int, y: int, z: int) -> bool {
        0 <= x < self.size.0 && 0 <= y < self.size.1 && 0 <= z < self.size.2
    }

    /// Machine bound: extents above `SIZE_LIMIT` are not supported, so the
    /// fixed-point stepping arithmetic cannot overflow.
    pub open spec fn wf(self) -> bool {
        self.size.0 <= SIZE_LIMIT && self.size.1 <= SIZE_LIMIT && self.size.2 <= SIZE_LIMIT
    }

    /// Whether the voxel at `point` lies inside the volume.
    pub fn contains_point(&self, point: (i32, i32, i32)) -> (r: bool)
        ensures
            r == self.contains_spec(point.0 as int, point.1 as int, point.2 as int),
    {
        point.0 >= 0 && point.1 >= 0 && point.2 >= 0
            && point.0 < self.size.0 && point.1 < self.size.1 && point.2 < self.size.2
    }

    /// Start a traversal of `ray` through this volume.
    pub fn traverse_ray(&self, ray: Ray3) -> (r: VoxelRay3Iterator)
        requires
            self.wf(),
            ray.wf(),
        ensures
            r == VoxelRay3Iterator::init_spec(*self, ray),
            r.wf(),
            r.volume_spec() == *self,
            r.norm_spec() is None,
            self.contains_spec(ray.start_voxel().0, ray.start_voxel().1, ray.start_voxel().2) ==> (
                !r.done_spec()
                && r.t_spec() == 0
                && r.t_spec() <= r.maxd_spec()
                && r.voxel_spec().0 == ray.start_voxel().0
                && r.voxel_spec().1 == ray.start_voxel().1
                && r.voxel_spec().2 == ray.start_voxel().2
            ),
            r.done_spec() ==> !self.contains_spec(
                ray.start_voxel().0,
                ray.start_voxel().1,
                ray.start_voxel().2,
            ),
    {
        VoxelRay3Iterator::new(*self, ray)
    }
}

/// An immutable ray: fixed-point origin and direction, and a maximum travel
/// length (`None` for an unbounded ray).  The direction need not be
/// normalized; the traversal normalizes it internally.
#[derive(Debug, Clone, Copy)]
pub struct Ray3 {
    pub origin: (i64, i64, i64),
    pub direction: (i64, i64, i64),
    pub length: Option<i64>,
}

impl Ray3 {
    /// Caller obligations: finite bounded coordinates, a non-zero direction
    /// and a non-negative length.
    pub open spec fn wf(self) -> bool {
        &&& -COORD_LIMIT <= self.origin.0 <= COORD_LIMIT
        &&& -COORD_LIMIT <= self.origin.1 <= COORD_LIMIT
        &&& -COORD_LIMIT <= self.origin.2 <= COORD_LIMIT
        &&& -DIR_LIMIT <= self.direction.0 <= DIR_LIMIT
        &&& -DIR_LIMIT <= self.direction.1 <= DIR_LIMIT
        &&& -DIR_LIMIT <= self.direction.2 <= DIR_LIMIT
        &&& !(self.direction.0 == 0 && self.direction.1 == 0 && self.direction.2 == 0)
        &&& match self.length {
            Some(l) => 0 <= l <= COORD_LIMIT,
            None => true,
        }
    }

    /// The voxel containing the ray's origin.
    pub open spec fn start_voxel(self) -> (int, int, int) {
        (
            self.origin.0 as int / SCALE as int,
            self.origin.1 as int / SCALE as int,
            self.origin.2 as int / SCALE as int,
        )
    }
}

/// One traversal result: distance travelled by the cursor, the voxel
/// entered, and the normal of the face through which it was entered.  The
/// normal is absent exactly when this is the first hit and the traversal
/// started inside that voxel.
#[derive(Debug, Clone, Copy, PartialEq, Eq)]
pub struct Ray3hit {
    pub distance: i64,
    pub voxel: (i32, i32, i32),
    pub normal: Option<(i32, i32, i32)>,
}

/// The traversal cursor: a forward-only, non-restartable step engine.
#[derive(Debug, Clone, Copy)]
pub struct VoxelRay3Iterator {
    volume: BoundingVolume3,
    max_d: i64,
    i: (i64, i64, i64),
    step: (i64, i64, i64),
    delta: (Option<i64>, Option<i64>, Option<i64>),
    t_max: (Option<i64>, Option<i64>, Option<i64>),
    t: i64,
    norm: Option<(i32, i32, i32)>,
    done: bool,
}

impl VoxelRay3Iterator {
    /// Internal well-formedness: established by construction, preserved by
    /// every pull.
    pub closed spec fn wf(self) -> bool {
        &&& self.volume.wf()
        &&& 0 <= self.t <= T_CAP
        &&& 0 <= self.max_d <= MAXD_CAP
        &&& (self.delta.0 is Some || self.delta.1 is Some || self.delta.2 is Some)
        &&& axis_ok(self.t as int, self.i.0 as int, self.step.0 as int, self.delta.0, self.t_max.0)
        &&& axis_ok(self.t as int, self.i.1 as int, self.step.1 as int, self.delta.1, self.t_max.1)
        &&& axis_ok(self.t as int, self.i.2 as int, self.step.2 as int, self.delta.2, self.t_max.2)
    }

    /// The volume this cursor traverses.
    pub closed spec fn volume_spec(self) -> BoundingVolume3 {
        self.volume
    }

    /// Distance travelled so far, in fixed-point steps.
    pub closed spec fn t_spec(self) -> int {
        self.t as int
    }

    /// The travel cap: the lesser of the ray's length and the distance
    /// needed to cross the whole volume from the starting point.
    pub closed spec fn maxd_spec(self) -> int {
        self.max_d as int
    }

    /// The voxel the cursor currently stands in.
    pub closed spec fn voxel_spec(self) -> (int, int, int) {
        (self.i.0 as int, self.i.1 as int, self.i.2 as int)
    }

    /// The pending entry normal; `None` only before the first step.
    pub closed spec fn norm_spec(self) -> Option<(i32, i32, i32)> {
        self.norm
    }

    /// Whether the cursor is exhausted: once set, no pull ever yields a hit.
    pub closed spec fn done_spec(self) -> bool {
        self.done
    }

    /// The hit a pull reports when the cursor stands on a contained voxel:
    /// the current distance, the current voxel, and the pending normal.
    pub closed spec fn current_hit_spec(self) -> Ray3hit {
        Ray3hit {
            distance: self.t,
            voxel: (self.i.0 as i32, self.i.1 as i32, self.i.2 as i32),
            normal: self.norm,
        }
    }

    /// Step-count measure: strictly decreases on every pull that yields a
    /// hit, so a traversal is exhausted after a bounded number of pulls.
    pub closed spec fn measure(self) -> int {
        nneg(self.max_d + 1 - self.t)
            + axis_measure(self.max_d as int, self.delta.0, self.t_max.0)
            + axis_measure(self.max_d as int, self.delta.1, self.t_max.1)
            + axis_measure(self.max_d as int, self.delta.2, self.t_max.2)
    }

    /// What a pull reports from the current position: the current voxel when
    /// it lies inside the volume, silence otherwise.
    pub closed spec fn emit_spec(self) -> Option<Ray3hit> {
        if self.volume.contains_spec(self.i.0 as int, self.i.1 as int, self.i.2 as int) {
            Some(self.current_hit_spec())
        } else {
            None
        }
    }

    /// One boundary crossing: every axis whose next boundary is nearest
    /// advances one voxel, the travelled distance becomes that boundary
    /// distance, and the normal of the crossed face (pointing against the
    /// travel, from the highest advanced axis) becomes pending.
    pub closed spec fn advance_spec(self) -> Self {
        let go_x = match (self.t_max.0, self.t_max.1, self.t_max.2) {
            (Some(a), Some(b), Some(c)) => a <= b && a <= c,
            (Some(a), Some(b), None) => a <= b,
            (Some(a), None, Some(c)) => a <= c,
            (Some(_), None, None) => true,
            (None, _, _) => false,
        };
        let go_y = match (self.t_max.0, self.t_max.1, self.t_max.2) {
            (Some(a), Some(b), Some(c)) => b <= a && b <= c,
            (Some(a), Some(b), None) => b <= a,
            (None, Some(b), Some(c)) => b <= c,
            (None, Some(_), None) => true,
            (_, None, _) => false,
        };
        let go_z = match (self.t_max.0, self.t_max.1, self.t_max.2) {
            (Some(a), Some(b), Some(c)) => c <= a && c <= b,
            (Some(a), None, Some(c)) => c <= a,
            (None, Some(b), Some(c)) => c <= b,
            (None, None, Some(_)) => true,
            (_, _, None) => false,
        };
        let t_new: i64 = if go_z {
            match self.t_max.2 {
                Some(c) => c,
                None => 0,
            }
        } else if go_y {
            match self.t_max.1 {
                Some(b) => b,
                None => 0,
            }
        } else {
            match self.t_max.0 {
                Some(a) => a,
                None => 0,
            }
        };
        Self {
            volume: self.volume,
            max_d: self.max_d,
            i: (
                if go_x { (self.i.0 + self.step.0) as i64 } else { self.i.0 },
                if go_y { (self.i.1 + self.step.1) as i64 } else { self.i.1 },
                if go_z { (self.i.2 + self.step.2) as i64 } else { self.i.2 },
            ),
            step: self.step,
            delta: self.delta,
            t_max: (
                if go_x {
                    match self.delta.0 {
                        Some(d) => Some((t_new + d) as i64),
                        None => self.t_max.0,
                    }
                } else {
                    self.t_max.0
                },
                if go_y {
                    match self.delta.1 {
                        Some(d) => Some((t_new + d) as i64),
                        None => self.t_max.1,
                    }
                } else {
                    self.t_max.1
                },
                if go_z {
                    match self.delta.2 {
                        Some(d) => Some((t_new + d) as i64),
                        None => self.t_max.2,
                    }
                } else {
                    self.t_max.2
                },
            ),
            t: t_new,
            norm: if go_z {
                Some((0i32, 0i32, if self.step.2 > 0 { -1i32 } else { 1i32 }))
            } else if go_y {
                Some((0i32, if self.step.1 > 0 { -1i32 } else { 1i32 }, 0i32))
            } else {
                Some((if self.step.0 > 0 { -1i32 } else { 1i32 }, 0i32, 0i32))
            },
            done: self.done,
        }
    }

    /// The same cursor, exhausted.
    pub closed spec fn exhausted_spec(self) -> Self {
        Self {
            volume: self.volume,
            max_d: self.max_d,
            i: self.i,
            step: self.step,
            delta: self.delta,
            t_max: self.t_max,
            t: self.t,
            norm: self.norm,
            done: true,
        }
    }

    /// The full effect of one pull as a mathematical function of the cursor
    /// state: the cursor after the pull, and the reported hit.  `next`
    /// returns exactly this pair, so equal cursors always pull equal results
    /// and whole traversals of equal cursors are identical.
    pub closed spec fn step_spec(self) -> (Self, Option<Ray3hit>)
        decreases self.measure()
            when self.wf()
            via Self::step_spec_dec
    {
        if self.done {
            (self, None)
        } else if self.max_d < self.t {
            (self.exhausted_spec(), None)
        } else if self.emit_spec() is Some {
            (self.advance_spec(), self.emit_spec())
        } else {
            self.advance_spec().step_spec()
        }
    }

    /// An advance from a live, in-range position keeps the cursor well
    /// formed and strictly shrinks the step-count measure.
    proof fn lemma_advance(self)
        requires
            self.wf(),
            !self.done,
            self.t <= self.max_d,
        ensures
            self.advance_spec().wf(),
            self.advance_spec().measure() < self.measure(),
            self.advance_spec().t >= self.t,
    {
    }

    #[via_fn]
    proof fn step_spec_dec(self) {
        if !self.done && self.t <= self.max_d && self.emit_spec() is None {
            self.lemma_advance();
        }
    }

    /// One pull keeps the cursor well formed, never moves the travelled
    /// distance backwards, and reports only a contained voxel whose distance
    /// lies between the old and new travelled distances; a reported hit
    /// strictly shrinks the step-count measure.
    pub proof fn lemma_step_props(self)
        requires
            self.wf(),
        ensures
            self.step_spec().0.wf(),
            self.step_spec().0.volume_spec() == self.volume_spec(),
            self.step_spec().0.measure() <= self.measure(),
            self.step_spec().0.t_spec() >= self.t_spec(),
            (self.step_spec().1 matches Some(h) ==> (
                self.step_spec().0.measure() < self.measure()
                && self.volume_spec().contains_spec(
                    h.voxel.0 as int,
                    h.voxel.1 as int,
                    h.voxel.2 as int,
                )
                && self.t_spec() <= h.distance as int
                && h.distance as int <= self.step_spec().0.t_spec()
            )),
        decreases self.measure(),
    {
        if !self.done && self.t <= self.max_d {
            self.lemma_advance();
            if self.emit_spec() is None {
                self.advance_spec().lemma_step_props();
            }
        }
    }

    /// The entire remaining hit sequence as a mathematical function of the
    /// cursor: what repeated pulls will report, in order.  Traversal is
    /// deterministic: equal cursors have equal hit sequences.
    pub closed spec fn hits_spec(self) -> Seq<Ray3hit>
        decreases self.measure()
            when self.wf()
            via Self::hits_spec_dec
    {
        match self.step_spec().1 {
            None => Seq::empty(),
            Some(h) => seq![h] + self.step_spec().0.hits_spec(),
        }
    }

    #[via_fn]
    proof fn hits_spec_dec(self) {
        self.lemma_step_props();
    }

    /// Construction as a mathematical function of volume and ray: `new`
    /// returns exactly this cursor.  Together with `step_spec` this makes a
    /// whole traversal a function of its inputs: equal volumes and rays give
    /// identical hit sequences.
    pub closed spec fn init_spec(volume: BoundingVolume3, ray: Ray3) -> Self {
        let dx = ray.direction.0 as int;
        let dy = ray.direction.1 as int;
        let dz = ray.direction.2 as int;
        let n = isqrt_spec(dx * dx + dy * dy + dz * dz);
        let adx = if dx < 0 { -dx } else { dx };
        let ady = if dy < 0 { -dy } else { dy };
        let adz = if dz < 0 { -dz } else { dz };
        let axn = (adx * SCALE as int) / n;
        let ayn = (ady * SCALE as int) / n;
        let azn = (adz * SCALE as int) / n;
        let step_x: i64 = if dx < 0 { -1i64 } else { 1i64 };
        let step_y: i64 = if dy < 0 { -1i64 } else { 1i64 };
        let step_z: i64 = if dz < 0 { -1i64 } else { 1i64 };
        let dnx = if dx < 0 { -axn } else { axn };
        let dny = if dy < 0 { -ayn } else { ayn };
        let dnz = if dz < 0 { -azn } else { azn };
        let delta_x: Option<i64> = if axn == 0 {
            None
        } else {
            Some(((SCALE as int * SCALE as int) / axn) as i64)
        };
        let delta_y: Option<i64> = if ayn == 0 {
            None
        } else {
            Some(((SCALE as int * SCALE as int) / ayn) as i64)
        };
        let delta_z: Option<i64> = if azn == 0 {
            None
        } else {
            Some(((SCALE as int * SCALE as int) / azn) as i64)
        };
        let inside = volume.contains_spec(
            ray.start_voxel().0,
            ray.start_voxel().1,
            ray.start_voxel().2,
        );
        let start = if inside {
            Some((ray.origin.0 as int, ray.origin.1 as int, ray.origin.2 as int, 0))
        } else {
            match clip_spec(
                volume,
                ray.origin,
                (dnx as i64, dny as i64, dnz as i64),
                ray.length,
            ) {
                None => None,
                Some(pt) => {
                    let dl = 2 * isqrt_spec(dnx * dnx + dny * dny + dnz * dnz)
                        - 2 * SCALE as int;
                    Some((
                        pt.0 as int - 2 * dnx,
                        pt.1 as int - 2 * dny,
                        pt.2 as int - 2 * dnz,
                        if dl > 0 { dl } else { 0 },
                    ))
                },
            }
        };
        match start {
            None => Self {
                volume,
                max_d: 0,
                i: (0, 0, 0),
                step: (1, 1, 1),
                delta: (Some(SCALE), Some(SCALE), Some(SCALE)),
                t_max: (Some(1), Some(1), Some(1)),
                t: 1,
                norm: None,
                done: true,
            },
            Some(s) => {
                let px = s.0;
                let py = s.1;
                let pz = s.2;
                let t = s.3;
                let sxc = if volume.size.0 > 0 { volume.size.0 as int } else { 0 };
                let syc = if volume.size.1 > 0 { volume.size.1 as int } else { 0 };
                let szc = if volume.size.2 > 0 { volume.size.2 as int } else { 0 };
                let ds = isqrt_spec(sxc * sxc + syc * syc + szc * szc);
                let cap = t + (ds + 2) * SCALE as int;
                let max_d = match ray.length {
                    Some(l) => if (l as int) < cap { l as int } else { cap },
                    None => cap,
                };
                let ix = px / (SCALE as int);
                let iy = py / (SCALE as int);
                let iz = pz / (SCALE as int);
                let dist_x = if step_x == 1 { (ix + 1) * SCALE as int - px } else { px - ix * SCALE as int };
                let dist_y = if step_y == 1 { (iy + 1) * SCALE as int - py } else { py - iy * SCALE as int };
                let dist_z = if step_z == 1 { (iz + 1) * SCALE as int - pz } else { pz - iz * SCALE as int };
                let t_max_x = match delta_x {
                    Some(d) => Some((t + (d * dist_x) / (SCALE as int)) as i64),
                    None => None,
                };
                let t_max_y = match delta_y {
                    Some(d) => Some((t + (d * dist_y) / (SCALE as int)) as i64),
                    None => None,
                };
                let t_max_z = match delta_z {
                    Some(d) => Some((t + (d * dist_z) / (SCALE as int)) as i64),
                    None => None,
                };
                Self {
                    volume,
                    max_d: max_d as i64,
                    i: (ix as i64, iy as i64, iz as i64),
                    step: (step_x, step_y, step_z),
                    delta: (delta_x, delta_y, delta_z),
                    t_max: (t_max_x, t_max_y, t_max_z),
                    t: t as i64,
                    norm: None,
                    done: false,
                }
            },
        }
    }

    /// Containment and monotone distance over the whole remaining sequence:
    /// every reported voxel lies inside the volume, every reported distance
    /// is at least the cursor's travelled distance, and distances never
    /// decrease along the sequence.
    pub proof fn lemma_hits_props(self)
        requires
            self.wf(),
        ensures
            forall|k: int| #![trigger self.hits_spec()[k]]
                0 <= k < self.hits_spec().len() ==> (
                    self.volume_spec().contains_spec(
                        self.hits_spec()[k].voxel.0 as int,
                        self.hits_spec()[k].voxel.1 as int,
                        self.hits_spec()[k].voxel.2 as int,
                    )
                    && self.t_spec() <= self.hits_spec()[k].distance as int
                ),
            forall|j: int, k: int| #![trigger self.hits_spec()[j], self.hits_spec()[k]]
                0 <= j <= k < self.hits_spec().len()
                    ==> self.hits_spec()[j].distance <= self.hits_spec()[k].distance,
        decreases self.measure(),
    {
        self.lemma_step_props();
        let sr = self.step_spec();
        match sr.1 {
            None => {},
            Some(h) => {
                sr.0.lemma_hits_props();
                assert(self.hits_spec() == seq![h] + sr.0.hits_spec());
                assert(self.hits_spec()[0] == h);
                assert forall|k: int| 1 <= k < self.hits_spec().len()
                    implies #[trigger] self.hits_spec()[k] == sr.0.hits_spec()[k - 1] by {
                }
            },
        }
    }

    /// Build a cursor for `ray` through `volume`: normalize the direction,
    /// jump ahead to the volume's bounding box when the origin voxel lies
    /// outside it, and precompute the per-axis stepping parameters.  A ray
    /// that cannot reach the box yields an immediately exhausted cursor.
    #[verifier::rlimit(100)]
    pub fn new(volume: BoundingVolume3, ray: Ray3) -> (r: Self)
        requires
            volume.wf(),
            ray.wf(),
        ensures
            r == Self::init_spec(volume, ray),
            r.wf(),
            r.volume_spec() == volume,
            r.norm_spec() is None,
            volume.contains_spec(ray.start_voxel().0, ray.start_voxel().1, ray.start_voxel().2) ==> (
                !r.done_spec()
                && r.t_spec() == 0
                && r.t_spec() <= r.maxd_spec()
                && r.voxel_spec().0 == ray.start_voxel().0
                && r.voxel_spec().1 == ray.start_voxel().1
                && r.voxel_spec().2 == ray.start_voxel().2
            ),
            r.done_spec() ==> !volume.contains_spec(
                ray.start_voxel().0,
                ray.start_voxel().1,
                ray.start_voxel().2,
            ),
    {
        let (dx, dy, dz) = ray.direction;
        proof {
            assert(dx as int * dx as int <= DIR_LIMIT as int * DIR_LIMIT as int
                && dy as int * dy as int <= DIR_LIMIT as int * DIR_LIMIT as int
                && dz as int * dz as int <= DIR_LIMIT as int * DIR_LIMIT as int
                && 0 <= dx as int * dx as int
                && 0 <= dy as int * dy as int
                && 0 <= dz as int * dz as int
                && (dx != 0 ==> 1 <= dx as int * dx as int)
                && (dy != 0 ==> 1 <= dy as int * dy as int)
                && (dz != 0 ==> 1 <= dz as int * dz as int)) by (nonlinear_arith)
                requires
                    -DIR_LIMIT <= dx <= DIR_LIMIT,
                    -DIR_LIMIT <= dy <= DIR_LIMIT,
                    -DIR_LIMIT <= dz <= DIR_LIMIT,
            ;
        }
        // magnitude of the raw direction; positive because the direction is
        // not the zero vector
        let n = isqrt(dx * dx + dy * dy + dz * dz);
        let adx = if dx < 0 { -dx } else { dx };
        let ady = if dy < 0 { -dy } else { dy };
        let adz = if dz < 0 { -dz } else { dz };
        proof {
            assert(adx as int * adx as int == dx as int * dx as int) by (nonlinear_arith)
                requires
                    adx as int == dx as int || adx as int == -(dx as int),
            ;
            assert(ady as int * ady as int == dy as int * dy as int) by (nonlinear_arith)
                requires
                    ady as int == dy as int || ady as int == -(dy as int),
            ;
            assert(adz as int * adz as int == dz as int * dz as int) by (nonlinear_arith)
                requires
                    adz as int == dz as int || adz as int == -(dz as int),
            ;
            // each component's magnitude is bounded by the whole magnitude
            assert(adx <= n && ady <= n && adz <= n && 1 <= n) by (nonlinear_arith)
                requires
                    0 <= adx,
                    0 <= ady,
                    0 <= adz,
                    0 <= n,
                    adx as int * adx as int == dx as int * dx as int,
                    ady as int * ady as int == dy as int * dy as int,
                    adz as int * adz as int == dz as int * dz as int,
                    1 <= dx as int * dx as int + dy as int * dy as int + dz as int * dz as int,
                    n as int * n as int
                        <= dx as int * dx as int + dy as int * dy as int + dz as int * dz as int,
                    (dx as int * dx as int + dy as int * dy as int + dz as int * dz as int)
                        < (n as int + 1) * (n as int + 1),
            ;
        }
        // normalized direction components, at most one unit in magnitude
        let axn = udiv(adx * SCALE, n);
        let ayn = udiv(ady * SCALE, n);
        let azn = udiv(adz * SCALE, n);
        proof {
            lemma_mul_div_le(SCALE as int, adx as int, n as int);
            lemma_mul_div_le(SCALE as int, ady as int, n as int);
            lemma_mul_div_le(SCALE as int, adz as int, n as int);
            assert(adx as int * SCALE as int == SCALE as int * adx as int);
            assert(ady as int * SCALE as int == SCALE as int * ady as int);
            assert(adz as int * SCALE as int == SCALE as int * adz as int);
            // the dominant component survives normalization: n is at most the
            // sum of the magnitudes, so one of them scaled reaches n
            assert(n <= adx + ady + adz) by (nonlinear_arith)
                requires
                    0 <= adx,
                    0 <= ady,
                    0 <= adz,
                    0 <= n,
                    n as int * n as int
                        <= adx as int * adx as int + ady as int * ady as int
                            + adz as int * adz as int,
            ;
            if axn == 0 && ayn == 0 && azn == 0 {
                lemma_fundamental_div_mod(adx as int * SCALE as int, n as int);
                lemma_fundamental_div_mod(ady as int * SCALE as int, n as int);
                lemma_fundamental_div_mod(adz as int * SCALE as int, n as int);
                assert(false);
            }
        }
        let step_x: i64 = if dx < 0 { -1 } else { 1 };
        let step_y: i64 = if dy < 0 { -1 } else { 1 };
        let step_z: i64 = if dz < 0 { -1 } else { 1 };
        let dnx: i64 = if dx < 0 { -axn } else { axn };
        let dny: i64 = if dy < 0 { -ayn } else { ayn };
        let dnz: i64 = if dz < 0 { -azn } else { azn };
        let delta_x: Option<i64> = if axn == 0 {
            None
        } else {
            let d = udiv(SCALE * SCALE, axn);
            proof {
                lemma_div_is_ordered(SCALE as int * axn as int, SCALE as int * SCALE as int, axn as int);
                lemma_div_multiples_vanish(SCALE as int, axn as int);
                assert(axn as int * SCALE as int == SCALE as int * axn as int);
            }
            Some(d)
        };
        let delta_y: Option<i64> = if ayn == 0 {
            None
        } else {
            let d = udiv(SCALE * SCALE, ayn);
            proof {
                lemma_div_is_ordered(SCALE as int * ayn as int, SCALE as int * SCALE as int, ayn as int);
                lemma_div_multiples_vanish(SCALE as int, ayn as int);
                assert(ayn as int * SCALE as int == SCALE as int * ayn as int);
            }
            Some(d)
        };
        let delta_z: Option<i64> = if azn == 0 {
            None
        } else {
            let d = udiv(SCALE * SCALE, azn);
            proof {
                lemma_div_is_ordered(SCALE as int * azn as int, SCALE as int * SCALE as int, azn as int);
                lemma_div_multiples_vanish(SCALE as int, azn as int);
                assert(azn as int * SCALE as int == SCALE as int * azn as int);
            }
            Some(d)
        };
        let mut px: i64 = ray.origin.0;
        let mut py: i64 = ray.origin.1;
        let mut pz: i64 = ray.origin.2;
        let mut t: i64 = 0;
        let ix0 = fx_floor(px);
        let iy0 = fx_floor(py);
        let iz0 = fx_floor(pz);
        let inside = ix0 >= 0 && iy0 >= 0 && iz0 >= 0
            && ix0 < volume.size.0 as i64 && iy0 < volume.size.1 as i64
            && iz0 < volume.size.2 as i64;
        if !inside {
            match clip_to_bounds(volume, (px, py, pz), (dnx, dny, dnz), ray.length) {
                None => {
                    // the ray cannot reach the volume: the explicit terminal
                    // state, never stepped
                    return (Self {
                        volume,
                        max_d: 0,
                        i: (0, 0, 0),
                        step: (1, 1, 1),
                        delta: (Some(SCALE), Some(SCALE), Some(SCALE)),
                        t_max: (Some(1), Some(1), Some(1)),
                        t: 1,
                        norm: None,
                        done: true,
                    });
                },
                Some(pt) => {
                    // back the start off two voxels from the entry point and
                    // account for the backed-off displacement minus two
                    // voxel widths (zero in exact arithmetic)
                    px = pt.0 - 2 * dnx;
                    py = pt.1 - 2 * dny;
                    pz = pt.2 - 2 * dnz;
                    proof {
                        assert(dnx as int * dnx as int <= SCALE as int * SCALE as int
                            && dny as int * dny as int <= SCALE as int * SCALE as int
                            && dnz as int * dnz as int <= SCALE as int * SCALE as int
                            && 0 <= dnx as int * dnx as int
                            && 0 <= dny as int * dny as int
                            && 0 <= dnz as int * dnz as int)
                            by (nonlinear_arith)
                            requires
                                -SCALE <= dnx <= SCALE,
                                -SCALE <= dny <= SCALE,
                                -SCALE <= dnz <= SCALE,
                        ;
                    }
                    let nn = isqrt(dnx * dnx + dny * dny + dnz * dnz);
                    proof {
                        assert(nn <= 2 * SCALE) by (nonlinear_arith)
                            requires
                                0 <= nn,
                                nn as int * nn as int <= 3 * (SCALE as int * SCALE as int),
                        ;
                    }
                    let dl = 2 * nn - 2 * SCALE;
                    t = if dl > 0 {
                        dl
                    } else {
                        0
                    };
                },
            }
        }
        // travel cap: the ray's length or the distance needed to cross the
        // whole volume corner to corner, whichever is less; this bounds the
        // work even for an unbounded ray
        let sxc: i64 = if volume.size.0 > 0 { volume.size.0 as i64 } else { 0 };
        let syc: i64 = if volume.size.1 > 0 { volume.size.1 as i64 } else { 0 };
        let szc: i64 = if volume.size.2 > 0 { volume.size.2 as i64 } else { 0 };
        proof {
            assert(sxc as int * sxc as int + syc as int * syc as int + szc as int * szc as int
                <= 3 * (SIZE_LIMIT as int * SIZE_LIMIT as int)
                && 0 <= sxc as int * sxc as int + syc as int * syc as int
                    + szc as int * szc as int)
                by (nonlinear_arith)
                requires
                    0 <= sxc <= SIZE_LIMIT,
                    0 <= syc <= SIZE_LIMIT,
                    0 <= szc <= SIZE_LIMIT,
            ;
        }
        let ds = isqrt(sxc * sxc + syc * syc + szc * szc);
        proof {
            assert(ds <= 2 * (SIZE_LIMIT as int)) by (nonlinear_arith)
                requires
                    0 <= ds,
                    ds as int * ds as int <= 3 * (SIZE_LIMIT as int * SIZE_LIMIT as int),
            ;
        }
        let cap = t + (ds + 2) * SCALE;
        let max_d = match ray.length {
            Some(l) => if l < cap {
                l
            } else {
                cap
            },
            None => cap,
        };
        let ix = fx_floor(px);
        let iy = fx_floor(py);
        let iz = fx_floor(pz);
        let dist_x: i64 = if step_x > 0 {
            (ix + 1) * SCALE - px
        } else {
            px - ix * SCALE
        };
        let dist_y: i64 = if step_y > 0 {
            (iy + 1) * SCALE - py
        } else {
            py - iy * SCALE
        };
        let dist_z: i64 = if step_z > 0 {
            (iz + 1) * SCALE - pz
        } else {
            pz - iz * SCALE
        };
        let t_max_x: Option<i64> = match delta_x {
            Some(d) => {
                proof {
                    assert(0 <= d as int * dist_x as int
                        && d as int * dist_x as int <= (SCALE as int * SCALE as int) * SCALE as int)
                        by (nonlinear_arith)
                        requires
                            0 <= d <= SCALE * SCALE,
                            0 <= dist_x <= SCALE,
                    ;
                }
                let q = udiv(d * dist_x, SCALE);
                proof {
                    lemma_mul_div_le(d as int, dist_x as int, SCALE as int);
                }
                Some(t + q)
            },
            None => None,
        };
        let t_max_y: Option<i64> = match delta_y {
            Some(d) => {
                proof {
                    assert(0 <= d as int * dist_y as int
                        && d as int * dist_y as int <= (SCALE as int * SCALE as int) * SCALE as int)
                        by (nonlinear_arith)
                        requires
                            0 <= d <= SCALE * SCALE,
                            0 <= dist_y <= SCALE,
                    ;
                }
                let q = udiv(d * dist_y, SCALE);
                proof {
                    lemma_mul_div_le(d as int, dist_y as int, SCALE as int);
                }
                Some(t + q)
            },
            None => None,
        };
        let t_max_z: Option<i64> = match delta_z {
            Some(d) => {
                proof {
                    assert(0 <= d as int * dist_z as int
                        && d as int * dist_z as int <= (SCALE as int * SCALE as int) * SCALE as int)
                        by (nonlinear_arith)
                        requires
                            0 <= d <= SCALE * SCALE,
                            0 <= dist_z <= SCALE,
                    ;
                }
                let q = udiv(d * dist_z, SCALE);
                proof {
                    lemma_mul_div_le(d as int, dist_z as int, SCALE as int);
                }
                Some(t + q)
            },
            None => None,
        };
        Self {
            volume,
            max_d,
            i: (ix, iy, iz),
            step: (step_x, step_y, step_z),
            delta: (delta_x, delta_y, delta_z),
            t_max: (t_max_x, t_max_y, t_max_z),
            t,
            norm: None,
            done: false,
        }
    }

    /// Pull the next hit, or `None` when the traversal is exhausted.
    ///
    /// The contract carries the traversal laws:
    /// - containment: every reported voxel lies inside the volume;
    /// - monotone distance: the travelled distance never decreases, and a
    ///   hit's distance lies between the distances before and after the
    ///   pull, so successive hits have non-decreasing distances;
    /// - normal placement: a hit without a normal can only be the first
    ///   pull's hit at the cursor's starting voxel, before any step; every
    ///   later hit carries one;
    /// - bounded exhaustion: a pull that yields a hit strictly decreases the
    ///   non-negative step measure, a pull that yields `None` leaves the
    ///   cursor exhausted, and an exhausted cursor never changes again;
    /// - owed success: a live cursor standing on a contained voxel within
    ///   the travel cap must report exactly that voxel at the current
    ///   distance with the pending normal.
    #[verifier::rlimit(100)]
    pub fn next(&mut self) -> (r: Option<Ray3hit>)
        requires
            old(self).wf(),
        ensures
            (*final(self), r) == old(self).step_spec(),
            final(self).wf(),
            final(self).volume_spec() == old(self).volume_spec(),
            final(self).t_spec() >= old(self).t_spec(),
            final(self).measure() <= old(self).measure(),
            0 <= final(self).measure(),
            (r matches Some(h) ==> (
                old(self).volume_spec().contains_spec(
                    h.voxel.0 as int,
                    h.voxel.1 as int,
                    h.voxel.2 as int,
                )
                && 0 <= h.distance
                && old(self).t_spec() <= h.distance as int
                && h.distance as int <= final(self).t_spec()
                && final(self).norm_spec() is Some
                && final(self).measure() < old(self).measure()
                && !final(self).done_spec()
            )),
            (r matches Some(h) ==> (h.normal is None ==> (
                old(self).norm_spec() is None
                && h == old(self).current_hit_spec()
            ))),
            (old(self).norm_spec() is Some ==> (r matches Some(h) ==> h.normal is Some)),
            (r is None ==> final(self).done_spec()),
            (old(self).done_spec() ==> (r is None && *final(self) == *old(self))),
            ((!old(self).done_spec()
                && old(self).t_spec() <= old(self).maxd_spec()
                && old(self).volume_spec().contains_spec(
                    old(self).voxel_spec().0,
                    old(self).voxel_spec().1,
                    old(self).voxel_spec().2,
                )) ==> r == Some(old(self).current_hit_spec())),
    {
        if self.done {
            return None;
        }
        let ghost mut first_iter: bool = true;
        while self.t <= self.max_d
            invariant
                old(self).step_spec() == self.step_spec(),
                self.wf(),
                !self.done,
                !old(self).done_spec(),
                self.volume == old(self).volume_spec(),
                self.t as int >= old(self).t_spec(),
                self.measure() <= old(self).measure(),
                (old(self).norm_spec() is Some ==> self.norm is Some),
                (first_iter ==> *self == *old(self)),
                (!first_iter ==> self.norm is Some),
                (!first_iter ==> !(old(self).t_spec() <= old(self).maxd_spec()
                    && old(self).volume_spec().contains_spec(
                        old(self).voxel_spec().0,
                        old(self).voxel_spec().1,
                        old(self).voxel_spec().2,
                    ))),
            decreases self.measure(),
        {
            // report the current voxel if it lies inside the volume
            let mut hit: Option<Ray3hit> = None;
            if self.i.0 >= 0 && self.i.1 >= 0 && self.i.2 >= 0
                && self.i.0 < self.volume.size.0 as i64
                && self.i.1 < self.volume.size.1 as i64
                && self.i.2 < self.volume.size.2 as i64 {
                hit = Some(Ray3hit {
                    distance: self.t,
                    voxel: (self.i.0 as i32, self.i.1 as i32, self.i.2 as i32),
                    normal: self.norm,
                });
            }
            let ghost pre = *self;
            // advance every axis whose next boundary is nearest; an exact
            // tie crosses a voxel edge or corner and advances all tied axes
            // at once, with the highest axis providing the entry normal
            let go_x = match (self.t_max.0, self.t_max.1, self.t_max.2) {
                (Some(a), Some(b), Some(c)) => a <= b && a <= c,
                (Some(a), Some(b), None) => a <= b,
                (Some(a), None, Some(c)) => a <= c,
                (Some(_), None, None) => true,
                (None, _, _) => false,
            };
            let go_y = match (self.t_max.0, self.t_max.1, self.t_max.2) {
                (Some(a), Some(b), Some(c)) => b <= a && b <= c,
                (Some(a), Some(b), None) => b <= a,
                (None, Some(b), Some(c)) => b <= c,
                (None, Some(_), None) => true,
                (_, None, _) => false,
            };
            let go_z = match (self.t_max.0, self.t_max.1, self.t_max.2) {
                (Some(a), Some(b), Some(c)) => c <= a && c <= b,
                (Some(a), None, Some(c)) => c <= a,
                (None, Some(b), Some(c)) => c <= b,
                (None, None, Some(_)) => true,
                (_, _, None) => false,
            };
            let t_new: i64 = if go_z {
                match self.t_max.2 {
                    Some(c) => c,
                    None => 0,
                }
            } else if go_y {
                match self.t_max.1 {
                    Some(b) => b,
                    None => 0,
                }
            } else {
                match self.t_max.0 {
                    Some(a) => a,
                    None => 0,
                }
            };
            let mut ix2 = self.i.0;
            let mut iy2 = self.i.1;
            let mut iz2 = self.i.2;
            let mut tmx2 = self.t_max.0;
            let mut tmy2 = self.t_max.1;
            let mut tmz2 = self.t_max.2;
            let mut norm2 = self.norm;
            if go_x {
                ix2 = self.i.0 + self.step.0;
                match self.delta.0 {
                    Some(d) => {
                        tmx2 = Some(t_new + d);
                    },
                    None => {},
                }
                norm2 = Some((if self.step.0 > 0 { -1 } else { 1 }, 0, 0));
            }
            if go_y {
                iy2 = self.i.1 + self.step.1;
                match self.delta.1 {
                    Some(d) => {
                        tmy2 = Some(t_new + d);
                    },
                    None => {},
                }
                norm2 = Some((0, if self.step.1 > 0 { -1 } else { 1 }, 0));
            }
            if go_z {
                iz2 = self.i.2 + self.step.2;
                match self.delta.2 {
                    Some(d) => {
                        tmz2 = Some(t_new + d);
                    },
                    None => {},
                }
                norm2 = Some((0, 0, if self.step.2 > 0 { -1 } else { 1 }));
            }
            self.i = (ix2, iy2, iz2);
            self.t_max = (tmx2, tmy2, tmz2);
            self.norm = norm2;
            self.t = t_new;
            proof {
                first_iter = false;
                assert(*self == pre.advance_spec());
                assert(hit == pre.emit_spec());
            }
            if let Some(h) = hit {
                return Some(h);
            }
        }
        let ghost at_exit = *self;
        self.done = true;
        proof {
            assert(*self == at_exit.exhausted_spec());
        }
        None
    }
}

/// The bounding-box pre-clip as a mathematical function of its inputs.
pub(crate) open spec fn clip_spec(
    volume: BoundingVolume3,
    from: (i64, i64, i64),
    dir: (i64, i64, i64),
    length: Option<i64>,
) -> Option<(i64, i64, i64)> {
    let sx: int = if volume.size.0 > 0 { volume.size.0 as int } else { 0 };
    let sy: int = if volume.size.1 > 0 { volume.size.1 as int } else { 0 };
    let sz: int = if volume.size.2 > 0 { volume.size.2 as int } else { 0 };
    let tx = plane_distance_spec(from.0 as int, dir.0 as int, sx * SCALE as int);
    let ty = plane_distance_spec(from.1 as int, dir.1 as int, sy * SCALE as int);
    let tz = plane_distance_spec(from.2 as int, dir.2 as int, sz * SCALE as int);
    let txy = if tx > ty { tx } else { ty };
    let tg = if txy > tz { txy } else { tz };
    if tg < 0 {
        None
    } else if (match length {
        Some(l) => tg > l as int,
        None => false,
    }) {
        None
    } else {
        let px = point_along_spec(from.0 as int, dir.0 as int, tg);
        let py = point_along_spec(from.1 as int, dir.1 as int, tg);
        let pz = point_along_spec(from.2 as int, dir.2 as int, tg);
        if px < -(SCALE as int) || px > sx * SCALE as int + SCALE as int {
            None
        } else if py < -(SCALE as int) || py > sy * SCALE as int + SCALE as int {
            None
        } else if pz < -(SCALE as int) || pz > sz * SCALE as int + SCALE as int {
            None
        } else {
            Some((px as i64, py as i64, pz as i64))
        }
    }
}

/// Bounding-box pre-clip: the first point at which the ray enters the
/// volume's box, or `None` when it cannot enter within its length.  The
/// entry distance is the largest per-axis plane-crossing candidate (the
/// plane crossed last gates entry).  The exact-arithmetic entry point lies
/// on the box; the fixed-point one may be off by a fraction of a voxel, so
/// the point is accepted within a one-voxel guard band around the box.  An
/// accepted point that is slightly outside is harmless: the traversal checks
/// containment of every voxel before reporting it.
fn clip_to_bounds(
    volume: BoundingVolume3,
    from: (i64, i64, i64),
    dir: (i64, i64, i64),
    length: Option<i64>,
) -> (r: Option<(i64, i64, i64)>)
    requires
        volume.wf(),
        -COORD_LIMIT <= from.0 <= COORD_LIMIT,
        -COORD_LIMIT <= from.1 <= COORD_LIMIT,
        -COORD_LIMIT <= from.2 <= COORD_LIMIT,
        -SCALE <= dir.0 <= SCALE,
        -SCALE <= dir.1 <= SCALE,
        -SCALE <= dir.2 <= SCALE,
    ensures
        r == clip_spec(volume, from, dir, length),
        (r matches Some(pt) ==> (
            -SCALE <= pt.0 <= (SIZE_LIMIT as i64) * SCALE + SCALE
            && -SCALE <= pt.1 <= (SIZE_LIMIT as i64) * SCALE + SCALE
            && -SCALE <= pt.2 <= (SIZE_LIMIT as i64) * SCALE + SCALE
        )),
{
    // a non-positive extent contains nothing; clamping its plane to zero
    // keeps the arithmetic in range without changing any reported hit
    let sx: i64 = if volume.size.0 > 0 { volume.size.0 as i64 } else { 0 };
    let sy: i64 = if volume.size.1 > 0 { volume.size.1 as i64 } else { 0 };
    let sz: i64 = if volume.size.2 > 0 { volume.size.2 as i64 } else { 0 };
    let tx = plane_distance(from.0, dir.0, sx * SCALE);
    let ty = plane_distance(from.1, dir.1, sy * SCALE);
    let tz = plane_distance(from.2, dir.2, sz * SCALE);
    let txy = if tx > ty { tx } else { ty };
    let tg = if txy > tz { txy } else { tz };
    if tg < 0 {
        return None;
    }
    if let Some(l) = length {
        if tg > l {
            return None;
        }
    }
    let px = point_along(from.0, dir.0, tg);
    let py = point_along(from.1, dir.1, tg);
    let pz = point_along(from.2, dir.2, tg);
    if px < -SCALE || px > sx * SCALE + SCALE {
        return None;
    }
    if py < -SCALE || py > sy * SCALE + SCALE {
        return None;
    }
    if pz < -SCALE || pz > sz * SCALE + SCALE {
        return None;
    }
    Some((px, py, pz))
}

} // verus!
