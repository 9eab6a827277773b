//! Scene resolution: the nearest intersection across an ordered list of
//! shape-material pairs, found by a linear scan that keeps narrowing the
//! probe interval to the best hit so far.

use crate::hittable::{
    hit_record_wf, shape_hit_s, shape_wf, HitRecord, Hittable, DIRB, ORIB, T_LIMIT,
};
use crate::material::material_wf;
use crate::ray::Ray;
use crate::vec3::{bounded, dot_s};
use vstd::prelude::*;

verus! {

/// Every entry's shape and material sit inside the representable bounds.
pub open spec fn world_wf(entries: Seq<Hittable>) -> bool {
    forall|i: int|
        0 <= i < entries.len() ==> shape_wf(#[trigger] entries[i].shape) && material_wf(
            entries[i].material,
        )
}

/// The value of the scan from entry `k` on: probe the entry with the
/// current interval; a hit narrows the interval's far end to its `t`, and a
/// later hit inside the narrowed interval supersedes it.
pub open spec fn world_hit_from(
    entries: Seq<Hittable>,
    k: int,
    r: Ray,
    t_min: int,
    t_max: int,
) -> Option<HitRecord>
    decreases entries.len() - k,
{
    if k < 0 || k >= entries.len() {
        Option::None
    } else {
        match shape_hit_s(entries[k].shape, r, t_min, t_max, entries[k].material) {
            Option::None => world_hit_from(entries, k + 1, r, t_min, t_max),
            Option::Some(h) => match world_hit_from(entries, k + 1, r, t_min, h.t as int) {
                Option::Some(h2) => Option::Some(h2),
                Option::None => Option::Some(h),
            },
        }
    }
}

/// The nearest hit the whole scene reports for `r` within `[t_min, t_max]`.
pub open spec fn world_hit_s(entries: Seq<Hittable>, r: Ray, t_min: int, t_max: int) -> Option<
    HitRecord,
> {
    world_hit_from(entries, 0, r, t_min, t_max)
}

/// Linear scan over all entries, tracking the closest accepted `t` and
/// narrowing every subsequent probe to it: only the nearest surface along
/// the ray is reported.
pub fn hit_world(world: &Vec<Hittable>, r: Ray, t_min: i64, t_max: i64) -> (res: Option<
    HitRecord,
>)
    requires
        world_wf(world@),
        bounded(r.orig, ORIB as int),
        bounded(r.dir, DIRB as int),
        0 <= t_min,
        t_max <= T_LIMIT,
    ensures
        res == world_hit_s(world@, r, t_min as int, t_max as int),
        res matches Some(h) ==> hit_record_wf(h) && material_wf(h.material) && dot_s(r.dir, h.normal)
            <= 0 && t_min <= h.t <= t_max,
{
    let ghost entries = world@;
    let mut best: Option<HitRecord> = None;
    let mut closest: i64 = t_max;
    let mut i: usize = 0;
    while i < world.len()
        invariant
            world_wf(entries),
            entries == world@,
            bounded(r.orig, ORIB as int),
            bounded(r.dir, DIRB as int),
            0 <= t_min,
            t_max <= T_LIMIT,
            0 <= i <= entries.len(),
            closest <= t_max,
            match best {
                Option::None => closest == t_max,
                Option::Some(b) => closest == b.t && hit_record_wf(b) && material_wf(b.material)
                    && dot_s(r.dir, b.normal) <= 0 && t_min <= b.t <= t_max,
            },
            world_hit_s(entries, r, t_min as int, t_max as int) == (match world_hit_from(
                entries,
                i as int,
                r,
                t_min as int,
                closest as int,
            ) {
                Option::Some(h2) => Option::Some(h2),
                Option::None => best,
            }),
        decreases entries.len() - i,
    {
        let entry: Hittable = world[i];
        let probe: Option<HitRecord> = entry.shape.hit(r, t_min, closest, entry.material);
        match probe {
            Some(h) => {
                best = Some(h);
                closest = h.t;
            },
            None => {},
        }
        i = i + 1;
    }
    best
}

} // verus!
