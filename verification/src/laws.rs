use vstd::prelude::*;
use crate::floors::{
    FloorLevel, PlayerOnFloor, MaterialLook, floor_solid, first_hit, hit_levels, standing_floor,
    next_floor, look_for, lemma_hit_levels_prefix,
};
use crate::logging::{underscored, spec_log_filter};
use crate::terrain::{MeshExtras, TerrainMeshPlan, spec_plan};

verus! {

/// The floor the player stands on is always drawn solid.
pub proof fn law_standing_floor_is_solid(on: int)
    ensures
        floor_solid(on, on),
{
}

/// The floor directly below the player is always drawn solid.
pub proof fn law_floor_below_is_solid(on: int)
    ensures
        floor_solid(on, on - 1),
{
}

/// Only the player's floor and its direct neighbours can be drawn solid; at
/// most three floors are solid at once.
pub proof fn law_solid_floors_are_adjacent(on: int, floor: int)
    requires
        floor_solid(on, floor),
    ensures
        on - 1 <= floor <= on + 1,
{
}

/// The floors 2k and 2k + 1 form a pair: standing on either, both are drawn solid.
pub proof fn law_floor_pair_shown_together(k: int, on: int)
    requires
        on == 2 * k || on == 2 * k + 1,
    ensures
        floor_solid(on, 2 * k),
        floor_solid(on, 2 * k + 1),
{
}

/// On an odd floor the floor above is hidden; on an even floor it is shown.
pub proof fn law_floor_above_follows_parity(on: int)
    ensures
        floor_solid(on, on + 1) <==> on % 2 == 0,
{
}

/// Meshes on the floor of the first ray that struck terrain are drawn opaque.
pub proof fn law_standing_meshes_are_opaque(on: FloorLevel)
    ensures
        look_for(Some(on), on) == MaterialLook::Opaque,
{
}

proof fn lemma_no_hits_no_levels(rays: Seq<Seq<Option<FloorLevel>>>)
    requires
        forall|i: int| 0 <= i < rays.len() ==> #[trigger] first_hit(rays[i]) is None,
    ensures
        hit_levels(rays).len() == 0,
    decreases rays.len(),
{
    if rays.len() > 0 {
        lemma_no_hits_no_levels(rays.drop_last());
        assert(first_hit(rays[rays.len() - 1]) is None);
    }
}

/// When no ray strikes terrain the player stays on the same floor and every
/// terrain mesh is drawn translucent.
pub proof fn law_no_terrain_hit_keeps_floor(
    current: PlayerOnFloor,
    rays: Seq<Seq<Option<FloorLevel>>>,
    floor: FloorLevel,
)
    requires
        forall|i: int| 0 <= i < rays.len() ==> #[trigger] first_hit(rays[i]) is None,
    ensures
        next_floor(current, rays) == current,
        look_for(standing_floor(rays), floor) == MaterialLook::Translucent,
{
    lemma_no_hits_no_levels(rays);
}

/// Reading the same rays a second time leaves the floor where the first
/// reading put it.
pub proof fn law_update_is_idempotent(current: PlayerOnFloor, rays: Seq<Seq<Option<FloorLevel>>>)
    ensures
        next_floor(next_floor(current, rays), rays) == next_floor(current, rays),
{
}

/// With a single ray that strikes terrain, the player is put on the floor it
/// struck, and the meshes of that floor are drawn opaque.
pub proof fn law_single_ray_shows_new_floor(
    current: PlayerOnFloor,
    rays: Seq<Seq<Option<FloorLevel>>>,
    level: FloorLevel,
)
    requires
        rays.len() == 1,
        first_hit(rays[0]) == Some(level),
    ensures
        next_floor(current, rays) == PlayerOnFloor(level),
        standing_floor(rays) == Some(level),
        look_for(standing_floor(rays), level) == MaterialLook::Opaque,
{
    assert(rays.drop_last().len() == 0);
    assert(hit_levels(rays.drop_last()) =~= Seq::<FloorLevel>::empty());
    assert(hit_levels(rays) =~= seq![level]);
}


proof fn lemma_trailing_misses(rays: Seq<Seq<Option<FloorLevel>>>, i: int)
    requires
        0 <= i < rays.len(),
        forall|j: int| i < j < rays.len() ==> #[trigger] first_hit(rays[j]) is None,
    ensures
        hit_levels(rays) == hit_levels(rays.take(i + 1)),
    decreases rays.len(),
{
    if i + 1 == rays.len() {
        assert(rays.take(i + 1) =~= rays);
    } else {
        assert(first_hit(rays[rays.len() - 1]) is None);
        assert(rays.drop_last().take(i + 1) =~= rays.take(i + 1));
        lemma_trailing_misses(rays.drop_last(), i);
    }
}

/// The player is put on the floor of the first terrain hit of the last ray
/// that struck terrain; the rays after it, which struck none, change nothing.
pub proof fn law_floor_from_last_terrain_ray(
    current: PlayerOnFloor,
    rays: Seq<Seq<Option<FloorLevel>>>,
    i: int,
    level: FloorLevel,
)
    requires
        0 <= i < rays.len(),
        first_hit(rays[i]) == Some(level),
        forall|j: int| i < j < rays.len() ==> #[trigger] first_hit(rays[j]) is None,
    ensures
        next_floor(current, rays) == PlayerOnFloor(level),
{
    lemma_trailing_misses(rays, i);
    assert(rays.take(i + 1).drop_last() =~= rays.take(i));
    assert(rays.take(i + 1).last() == rays[i]);
}

/// `level` moved up by `k` floors.
pub open spec fn shifted(level: FloorLevel, k: int) -> FloorLevel {
    FloorLevel((level.0 + k) as i32)
}

/// A hit moved up by `k` floors; a hit on something other than terrain stays so.
pub open spec fn shifted_hit(hit: Option<FloorLevel>, k: int) -> Option<FloorLevel> {
    match hit {
        Some(level) => Some(shifted(level, k)),
        None => None,
    }
}

/// The hits of one ray, all moved up by `k` floors.
pub open spec fn shifted_ray(hits: Seq<Option<FloorLevel>>, k: int) -> Seq<Option<FloorLevel>> {
    hits.map_values(|h: Option<FloorLevel>| shifted_hit(h, k))
}

/// The hits of every ray, all moved up by `k` floors.
pub open spec fn shifted_rays(rays: Seq<Seq<Option<FloorLevel>>>, k: int) -> Seq<Seq<Option<FloorLevel>>> {
    rays.map_values(|r: Seq<Option<FloorLevel>>| shifted_ray(r, k))
}

/// Moving `level` up by `k` floors stays within `i32`.
pub open spec fn shift_fits(level: FloorLevel, k: int) -> bool {
    i32::MIN <= level.0 + k <= i32::MAX
}

/// Every floor struck by the rays can be moved up by `k` within `i32`.
pub open spec fn rays_shift_fit(rays: Seq<Seq<Option<FloorLevel>>>, k: int) -> bool {
    forall|i: int, j: int|
        0 <= i < rays.len() && 0 <= j < rays[i].len() && #[trigger] rays[i][j] is Some
            ==> shift_fits(rays[i][j]->0, k)
}

proof fn lemma_first_hit_shifted(hits: Seq<Option<FloorLevel>>, k: int)
    ensures
        first_hit(shifted_ray(hits, k)) == shifted_hit(first_hit(hits), k),
        first_hit(hits) is Some ==> exists|j: int|
            0 <= j < hits.len() && #[trigger] hits[j] == first_hit(hits),
    decreases hits.len(),
{
    if hits.len() > 0 {
        assert(shifted_ray(hits, k).drop_last() =~= shifted_ray(hits.drop_last(), k));
        lemma_first_hit_shifted(hits.drop_last(), k);
        if first_hit(hits.drop_last()) is Some {
            let j = choose|j: int|
                0 <= j < hits.drop_last().len() && #[trigger] hits.drop_last()[j] == first_hit(
                    hits.drop_last(),
                );
            assert(hits[j] == first_hit(hits));
        } else if hits.last() is Some {
            assert(hits[hits.len() - 1] == first_hit(hits));
        }
    }
}

proof fn lemma_hit_levels_shifted(rays: Seq<Seq<Option<FloorLevel>>>, k: int)
    requires
        rays_shift_fit(rays, k),
    ensures
        hit_levels(shifted_rays(rays, k)).len() == hit_levels(rays).len(),
        forall|j: int|
            0 <= j < hit_levels(rays).len() ==> {
                &&& #[trigger] hit_levels(shifted_rays(rays, k))[j] == shifted(hit_levels(rays)[j], k)
                &&& shift_fits(hit_levels(rays)[j], k)
            },
    decreases rays.len(),
{
    if rays.len() > 0 {
        let last = rays.len() - 1;
        assert(shifted_rays(rays, k).drop_last() =~= shifted_rays(rays.drop_last(), k));
        assert(rays_shift_fit(rays.drop_last(), k)) by {
            assert forall|i: int, j: int|
                0 <= i < rays.drop_last().len() && 0 <= j < rays.drop_last()[i].len()
                    && #[trigger] rays.drop_last()[i][j] is Some implies shift_fits(
                rays.drop_last()[i][j]->0,
                k,
            ) by {
                assert(rays.drop_last()[i] == rays[i]);
            }
        }
        lemma_hit_levels_shifted(rays.drop_last(), k);
        lemma_first_hit_shifted(rays[last], k);
        assert(shifted_rays(rays, k).last() == shifted_ray(rays.last(), k));
        if first_hit(rays[last]) is Some {
            let j = choose|j: int| 0 <= j < rays[last].len() && #[trigger] rays[last][j] == first_hit(rays[last]);
            assert(rays[last][j] is Some);
            assert(shift_fits(rays[last][j]->0, k));
        }
    }
}

/// Moving every floor of the level up by an even number of floors moves the
/// player's floor by as many, and draws every terrain mesh as before.
pub proof fn law_even_shift_keeps_looks(
    current: PlayerOnFloor,
    rays: Seq<Seq<Option<FloorLevel>>>,
    floor: FloorLevel,
    k: int,
)
    requires
        k % 2 == 0,
        shift_fits(current.0, k),
        shift_fits(floor, k),
        rays_shift_fit(rays, k),
    ensures
        next_floor(PlayerOnFloor(shifted(current.0, k)), shifted_rays(rays, k)) == PlayerOnFloor(
            shifted(next_floor(current, rays).0, k),
        ),
        look_for(standing_floor(shifted_rays(rays, k)), shifted(floor, k)) == look_for(
            standing_floor(rays),
            floor,
        ),
{
    lemma_hit_levels_shifted(rays, k);
    let levels = hit_levels(rays);
    if levels.len() > 0 {
        let on = levels[0];
        assert(hit_levels(shifted_rays(rays, k))[0] == shifted(on, k));
        assert(hit_levels(shifted_rays(rays, k))[levels.len() - 1] == shifted(levels.last(), k));
        let a = on.0 as int;
        let b = floor.0 as int;
        assert((a + k) % 2 == a % 2);
        assert(floor_solid(a + k, b + k) == floor_solid(a, b));
    }
}


proof fn lemma_all_misses(hits: Seq<Option<FloorLevel>>)
    requires
        forall|j: int| 0 <= j < hits.len() ==> #[trigger] hits[j] is None,
    ensures
        first_hit(hits) is None,
    decreases hits.len(),
{
    if hits.len() > 0 {
        lemma_all_misses(hits.drop_last());
        assert(hits[hits.len() - 1] is None);
    }
}

/// A ray's first terrain hit is the hit at the least position that struck
/// terrain: every hit before it, on something other than terrain, is skipped.
pub proof fn law_first_hit_is_earliest_terrain(hits: Seq<Option<FloorLevel>>, i: int, level: FloorLevel)
    requires
        0 <= i < hits.len(),
        hits[i] == Some(level),
        forall|j: int| 0 <= j < i ==> #[trigger] hits[j] is None,
    ensures
        first_hit(hits) == Some(level),
    decreases hits.len(),
{
    if i == hits.len() - 1 {
        assert forall|j: int| 0 <= j < hits.drop_last().len() implies #[trigger] hits.drop_last()[j]
            is None by {
            assert(hits.drop_last()[j] == hits[j]);
        }
        lemma_all_misses(hits.drop_last());
    } else {
        assert forall|j: int| 0 <= j < i implies #[trigger] hits.drop_last()[j] is None by {
            assert(hits.drop_last()[j] == hits[j]);
        }
        law_first_hit_is_earliest_terrain(hits.drop_last(), i, level);
    }
}

/// A ray counts as having struck no terrain exactly when none of its hits did.
pub proof fn law_no_first_hit_means_no_terrain(hits: Seq<Option<FloorLevel>>)
    ensures
        first_hit(hits) is None <==> forall|j: int| 0 <= j < hits.len() ==> #[trigger] hits[j] is None,
    decreases hits.len(),
{
    if hits.len() > 0 {
        law_no_first_hit_means_no_terrain(hits.drop_last());
        if first_hit(hits) is None {
            assert forall|j: int| 0 <= j < hits.len() implies #[trigger] hits[j] is None by {
                if j < hits.len() - 1 {
                    assert(hits.drop_last()[j] == hits[j]);
                }
            }
        }
        if forall|j: int| 0 <= j < hits.len() ==> #[trigger] hits[j] is None {
            lemma_all_misses(hits);
        }
    }
}

/// The floor that decides the looks is the first terrain hit of the first ray
/// that struck terrain, whatever later rays struck.
pub proof fn law_standing_floor_is_first_terrain_ray(
    rays: Seq<Seq<Option<FloorLevel>>>,
    i: int,
    level: FloorLevel,
)
    requires
        0 <= i < rays.len(),
        first_hit(rays[i]) == Some(level),
        forall|j: int| 0 <= j < i ==> #[trigger] first_hit(rays[j]) is None,
    ensures
        standing_floor(rays) == Some(level),
{
    let before = rays.take(i);
    assert forall|j: int| 0 <= j < before.len() implies #[trigger] first_hit(before[j]) is None by {
        assert(before[j] == rays[j]);
    }
    lemma_no_hits_no_levels(before);
    assert(rays.take(i + 1).drop_last() =~= before);
    assert(rays.take(i + 1).last() == rays[i]);
    assert(hit_levels(rays.take(i + 1)) =~= seq![level]);
    lemma_hit_levels_prefix(rays, i + 1);
    assert(hit_levels(rays.take(i + 1))[0] == hit_levels(rays)[0]);
}

proof fn lemma_levels_grow(rays: Seq<Seq<Option<FloorLevel>>>)
    requires
        rays.len() > 0,
    ensures
        hit_levels(rays.drop_last()).len() <= hit_levels(rays).len(),
{
}

/// No floor decides the looks exactly when no ray struck terrain.
pub proof fn law_no_standing_floor_means_no_terrain(rays: Seq<Seq<Option<FloorLevel>>>)
    ensures
        standing_floor(rays) is None <==> forall|j: int| 0 <= j < rays.len() ==> #[trigger] first_hit(
            rays[j],
        ) is None,
    decreases rays.len(),
{
    if rays.len() > 0 {
        law_no_standing_floor_means_no_terrain(rays.drop_last());
        lemma_levels_grow(rays);
        if standing_floor(rays) is None {
            assert forall|j: int| 0 <= j < rays.len() implies #[trigger] first_hit(rays[j]) is None by {
                if j < rays.len() - 1 {
                    assert(rays.drop_last()[j] == rays[j]);
                }
            }
        }
        if forall|j: int| 0 <= j < rays.len() ==> #[trigger] first_hit(rays[j]) is None {
            lemma_no_hits_no_levels(rays);
        }
    }
}

/// A mesh is drawn opaque exactly when it lies on the player's floor, on the
/// floor directly below, or, when the player's floor is even, on the floor
/// directly above; with no floor to stand on every mesh is translucent.
pub proof fn law_opaque_floors(on: FloorLevel, floor: FloorLevel)
    ensures
        look_for(Some(on), floor) == MaterialLook::Opaque <==> (floor.0 == on.0 || floor.0 == on.0 - 1
            || (floor.0 == on.0 + 1 && on.0 % 2 == 0)),
        look_for(None, floor) == MaterialLook::Translucent,
{
}

/// The filter names the package as a module: it is "info," then the package
/// name with each hyphen, and nothing else, turned into an underscore, then
/// the fixed directives.
pub proof fn law_log_filter_keeps_name(name: Seq<char>)
    ensures
        spec_log_filter(name).len() == 5 + name.len() + "=trace,bevy_dioxus_hooks::query::command=error,wgpu_hal=off"@.len(),
        spec_log_filter(name).take(5) == "info,"@,
        forall|i: int| 0 <= i < name.len() && name[i] != '-' ==> #[trigger] spec_log_filter(name)[5 + i] == name[i],
        forall|i: int| 0 <= i < name.len() && name[i] == '-' ==> #[trigger] spec_log_filter(name)[5 + i] == '_',
        spec_log_filter(name).skip(5 + name.len() as int) == "=trace,bevy_dioxus_hooks::query::command=error,wgpu_hal=off"@,
{
    reveal_strlit("info,");
    let head = "info,"@;
    let tail = "=trace,bevy_dioxus_hooks::query::command=error,wgpu_hal=off"@;
    assert(spec_log_filter(name) == head + underscored(name) + tail);
    assert((head + underscored(name) + tail).take(5) =~= head);
    assert((head + underscored(name) + tail).skip(5 + name.len() as int) =~= tail);
    assert forall|i: int| 0 <= i < name.len() implies #[trigger] spec_log_filter(name)[5 + i]
        == underscored(name)[i] by {
        assert((head + underscored(name) + tail)[5 + i] == underscored(name)[i]);
    }
}

/// Metadata decides the plan: readable floor metadata always spawns a terrain
/// copy on exactly the floor it names, unreadable metadata is reported, and a
/// mesh without metadata is reported as such.
pub proof fn law_plan_follows_metadata(extras: MeshExtras)
    ensures
        spec_plan(extras) is SpawnOnFloor <==> extras is Read,
        spec_plan(extras) is ReportUnreadable <==> extras is Unreadable,
        spec_plan(extras) is ReportMissing <==> extras is Absent,
        extras is Read ==> spec_plan(extras) == TerrainMeshPlan::SpawnOnFloor(
            FloorLevel(extras->Read_0.level()),
        ),
{
}

} // verus!
