use vstd::prelude::*;

verus! {

/// The floor a terrain mesh belongs to, as written in the level's metadata.
#[derive(PartialEq, Eq, Structural, Clone, Copy, Debug, PartialOrd)]
pub struct FloorLevel(pub i32);

impl Default for FloorLevel {
    /// The ground floor.
    fn default() -> (level: Self)
        ensures
            level == FloorLevel(0),
    {
        FloorLevel(0)
    }
}

/// The floor the player was last seen standing on.
#[derive(PartialEq, Eq, Structural, Clone, Copy, Debug, PartialOrd)]
pub struct PlayerOnFloor(pub FloorLevel);

impl Default for PlayerOnFloor {
    /// Before any terrain has been hit the player counts as being on the ground floor.
    fn default() -> (on: Self)
        ensures
            on == PlayerOnFloor(FloorLevel(0)),
    {
        PlayerOnFloor(FloorLevel(0))
    }
}

/// How the material of a terrain mesh is to be drawn.
#[derive(PartialEq, Eq, Structural, Clone, Copy, Debug)]
pub enum MaterialLook {
    /// Fully opaque.
    Opaque,
    /// Blended and nearly see-through.
    Translucent,
}

/// Whether a mesh on `floor` stays solid while the player stands on `on`.
///
/// A player on an even floor sees that floor and the ones directly below and
/// above it; a player on an odd floor sees that floor and the one below it.
pub open spec fn floor_solid(on: int, floor: int) -> bool {
    if on % 2 == 0 {
        on - 1 <= floor <= on + 1
    } else {
        floor == on || floor == on - 1
    }
}

/// The comparison in `floor_is_solid` subtracts one from an even `on`; it
/// cannot do so for the least `i32` once the first comparison has held.
pub open spec fn solid_check_fits(on: int, floor: int) -> bool {
    on == i32::MIN ==> floor > i32::MIN + 1
}

/// Decides whether meshes of `floor` are drawn solid while the player stands on `on`.
pub fn floor_is_solid(on: FloorLevel, floor: FloorLevel) -> (solid: bool)
    requires
        solid_check_fits(on.0 as int, floor.0 as int),
    ensures
        solid == floor_solid(on.0 as int, floor.0 as int),
{
    if on.0 % 2 == 0 {
        (on.0 + 1 >= floor.0) && (on.0 - 1 <= floor.0)
    } else {
        (on.0 == floor.0) || (on.0 - 1 == floor.0)
    }
}

/// The first terrain floor among the hits of one ray, in the order the ray
/// reports them. A hit is `None` where the entity it struck is no terrain mesh.
pub open spec fn first_hit(hits: Seq<Option<FloorLevel>>) -> Option<FloorLevel>
    decreases hits.len(),
{
    if hits.len() == 0 {
        None
    } else {
        let before = first_hit(hits.drop_last());
        if before is Some {
            before
        } else {
            hits.last()
        }
    }
}

/// For each ray in turn that struck terrain, the floor of its first terrain hit.
pub open spec fn hit_levels(rays: Seq<Seq<Option<FloorLevel>>>) -> Seq<FloorLevel>
    decreases rays.len(),
{
    if rays.len() == 0 {
        Seq::empty()
    } else {
        let before = hit_levels(rays.drop_last());
        match first_hit(rays.last()) {
            Some(level) => before.push(level),
            None => before,
        }
    }
}

/// The hits of each ray, as sequences.
pub open spec fn ray_hits(rays: Seq<Vec<Option<FloorLevel>>>) -> Seq<Seq<Option<FloorLevel>>> {
    rays.map_values(|r: Vec<Option<FloorLevel>>| r@)
}

/// The floor whose neighbourhood is drawn solid: that of the first ray that struck terrain.
pub open spec fn standing_floor(rays: Seq<Seq<Option<FloorLevel>>>) -> Option<FloorLevel> {
    let levels = hit_levels(rays);
    if levels.len() == 0 {
        None
    } else {
        Some(levels[0])
    }
}

/// The floor the player is on after the rays are read: that of the last ray
/// that struck terrain, or the previous one when no ray did.
pub open spec fn next_floor(current: PlayerOnFloor, rays: Seq<Seq<Option<FloorLevel>>>) -> PlayerOnFloor {
    let levels = hit_levels(rays);
    if levels.len() == 0 {
        current
    } else {
        PlayerOnFloor(levels.last())
    }
}

/// How a mesh of `floor` is drawn when the player stands on `standing`.
pub open spec fn look_for(standing: Option<FloorLevel>, floor: FloorLevel) -> MaterialLook {
    match standing {
        Some(on) => if floor_solid(on.0 as int, floor.0 as int) {
            MaterialLook::Opaque
        } else {
            MaterialLook::Translucent
        },
        None => MaterialLook::Translucent,
    }
}

/// The solid test can be made for `floor` while the player stands on `standing`.
pub open spec fn look_fits(standing: Option<FloorLevel>, floor: FloorLevel) -> bool {
    match standing {
        Some(on) => solid_check_fits(on.0 as int, floor.0 as int),
        None => true,
    }
}

proof fn lemma_first_hit_prefix(hits: Seq<Option<FloorLevel>>, k: int)
    requires
        0 <= k <= hits.len(),
        first_hit(hits.take(k)) is Some,
    ensures
        first_hit(hits) == first_hit(hits.take(k)),
    decreases hits.len(),
{
    if k == hits.len() {
        assert(hits.take(k) =~= hits);
    } else {
        assert(hits.drop_last().take(k) =~= hits.take(k));
        lemma_first_hit_prefix(hits.drop_last(), k);
    }
}

/// The floor of the first terrain mesh among one ray's hits, if any.
pub fn first_terrain_hit(hits: &Vec<Option<FloorLevel>>) -> (level: Option<FloorLevel>)
    ensures
        level == first_hit(hits@),
{
    let mut i: usize = 0;
    while i < hits.len()
        invariant
            0 <= i <= hits.len(),
            first_hit(hits@.take(i as int)) is None,
        decreases hits.len() - i,
    {
        assert(hits@.take(i + 1).drop_last() =~= hits@.take(i as int));
        if let Some(level) = hits[i] {
            proof {
                lemma_first_hit_prefix(hits@, i + 1);
            }
            return Some(level);
        }
        i += 1;
    }
    assert(hits@.take(i as int) =~= hits@);
    None
}


/// How each terrain mesh is drawn, given the floor of each, in the same order.
pub fn floor_looks(standing: Option<FloorLevel>, terrain: &Vec<FloorLevel>) -> (looks: Vec<MaterialLook>)
    requires
        forall|i: int| 0 <= i < terrain@.len() ==> look_fits(standing, #[trigger] terrain@[i]),
    ensures
        looks@.len() == terrain@.len(),
        forall|i: int| 0 <= i < terrain@.len() ==> #[trigger] looks@[i] == look_for(standing, terrain@[i]),
{
    let mut looks: Vec<MaterialLook> = Vec::new();
    let mut i: usize = 0;
    while i < terrain.len()
        invariant
            0 <= i <= terrain@.len(),
            looks@.len() == i,
            forall|j: int| 0 <= j < terrain@.len() ==> look_fits(standing, #[trigger] terrain@[j]),
            forall|j: int| 0 <= j < i ==> #[trigger] looks@[j] == look_for(standing, terrain@[j]),
        decreases terrain.len() - i,
    {
        let floor = terrain[i];
        assert(look_fits(standing, terrain@[i as int]));
        let solid = match standing {
            Some(on) => floor_is_solid(on, floor),
            None => false,
        };
        if solid {
            looks.push(MaterialLook::Opaque);
        } else {
            looks.push(MaterialLook::Translucent);
        }
        i += 1;
    }
    looks
}

/// Reads the rays cast down from the player and decides the floor the player
/// stands on and how each terrain mesh is drawn.
///
/// `rays` holds, for each ray, the floor of each entity it struck in the order
/// struck, or `None` for an entity that is no terrain mesh. `terrain` holds the
/// floor of each terrain mesh. The floor moves to that of the last ray that
/// struck terrain; the meshes near the floor of the first such ray are drawn
/// opaque, all others translucent, and all are translucent when no ray struck
/// terrain.
pub fn make_higher_floors_transparent(
    rays: &Vec<Vec<Option<FloorLevel>>>,
    floor: &mut PlayerOnFloor,
    terrain: &Vec<FloorLevel>,
) -> (looks: Vec<MaterialLook>)
    requires
        forall|i: int|
            0 <= i < terrain@.len() ==> look_fits(standing_floor(ray_hits(rays@)), #[trigger] terrain@[i]),
    ensures
        *final(floor) == next_floor(*old(floor), ray_hits(rays@)),
        looks@.len() == terrain@.len(),
        forall|i: int|
            0 <= i < terrain@.len() ==> #[trigger] looks@[i] == look_for(
                standing_floor(ray_hits(rays@)),
                terrain@[i],
            ),
{
    let ghost hits = ray_hits(rays@);
    let ghost start = *floor;
    let mut mk_solid: Vec<FloorLevel> = Vec::new();
    let mut r: usize = 0;
    while r < rays.len()
        invariant
            0 <= r <= rays@.len(),
            hits == ray_hits(rays@),
            mk_solid@ == hit_levels(hits.take(r as int)),
            *floor == next_floor(start, hits.take(r as int)),
        decreases rays.len() - r,
    {
        assert(hits.take(r + 1).drop_last() =~= hits.take(r as int));
        assert(hits.take(r + 1).last() == rays@[r as int]@);
        if let Some(level) = first_terrain_hit(&rays[r]) {
            mk_solid.push(level);
            *floor = PlayerOnFloor(level);
        }
        r += 1;
    }
    assert(hits.take(r as int) =~= hits);
    let standing = if mk_solid.len() > 0 {
        Some(mk_solid[0])
    } else {
        None
    };
    floor_looks(standing, terrain)
}


pub(crate) proof fn lemma_hit_levels_prefix(rays: Seq<Seq<Option<FloorLevel>>>, k: int)
    requires
        0 <= k <= rays.len(),
    ensures
        hit_levels(rays.take(k)).len() <= hit_levels(rays).len(),
        forall|j: int|
            0 <= j < hit_levels(rays.take(k)).len() ==> #[trigger] hit_levels(rays.take(k))[j]
                == hit_levels(rays)[j],
    decreases rays.len(),
{
    if k == rays.len() {
        assert(rays.take(k) =~= rays);
    } else {
        assert(rays.drop_last().take(k) =~= rays.take(k));
        lemma_hit_levels_prefix(rays.drop_last(), k);
    }
}

/// The floor of the first ray that struck terrain, if any.
pub fn standing_floor_of(rays: &Vec<Vec<Option<FloorLevel>>>) -> (standing: Option<FloorLevel>)
    ensures
        standing == standing_floor(ray_hits(rays@)),
{
    let ghost hits = ray_hits(rays@);
    let mut r: usize = 0;
    while r < rays.len()
        invariant
            0 <= r <= rays@.len(),
            hits == ray_hits(rays@),
            hit_levels(hits.take(r as int)).len() == 0,
        decreases rays.len() - r,
    {
        assert(hits.take(r + 1).drop_last() =~= hits.take(r as int));
        assert(hits.take(r + 1).last() == rays@[r as int]@);
        if let Some(level) = first_terrain_hit(&rays[r]) {
            proof {
                lemma_hit_levels_prefix(hits, r + 1);
                assert(hit_levels(hits.take(r + 1))[0] == level);
            }
            return Some(level);
        }
        r += 1;
    }
    assert(hits.take(r as int) =~= hits);
    None
}

/// Whether the solid test can be made for every terrain floor while the player
/// stands on `standing`; where it cannot, deciding the looks would overflow.
pub fn looks_fit(standing: Option<FloorLevel>, terrain: &Vec<FloorLevel>) -> (fits: bool)
    ensures
        fits == forall|i: int| 0 <= i < terrain@.len() ==> look_fits(standing, #[trigger] terrain@[i]),
{
    let mut i: usize = 0;
    while i < terrain.len()
        invariant
            0 <= i <= terrain@.len(),
            forall|j: int| 0 <= j < i ==> look_fits(standing, #[trigger] terrain@[j]),
        decreases terrain.len() - i,
    {
        if let Some(on) = standing {
            if on.0 == i32::MIN && terrain[i].0 <= i32::MIN + 1 {
                assert(!look_fits(standing, terrain@[i as int]));
                return false;
            }
        }
        i += 1;
    }
    true
}

} // verus!
