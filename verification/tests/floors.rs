use game_floors::floors::{
    first_terrain_hit, floor_is_solid, floor_looks, looks_fit, make_higher_floors_transparent,
    standing_floor_of, FloorLevel, MaterialLook, PlayerOnFloor,
};

fn solid_set(on: i32, candidates: &[i32]) -> Vec<i32> {
    candidates
        .iter()
        .copied()
        .filter(|f| floor_is_solid(FloorLevel(on), FloorLevel(*f)))
        .collect()
}

#[test]
fn even_floor_shows_neighbours_on_both_sides() {
    assert_eq!(solid_set(2, &[-1, 0, 1, 2, 3, 4, 5]), vec![1, 2, 3]);
    assert_eq!(solid_set(0, &[-2, -1, 0, 1, 2]), vec![-1, 0, 1]);
}

#[test]
fn odd_floor_shows_itself_and_the_floor_below() {
    assert_eq!(solid_set(3, &[0, 1, 2, 3, 4, 5]), vec![2, 3]);
    assert_eq!(solid_set(1, &[-1, 0, 1, 2]), vec![0, 1]);
}

#[test]
fn negative_floors_follow_the_same_parity_rule() {
    assert_eq!(solid_set(-3, &[-5, -4, -3, -2, -1]), vec![-4, -3]);
    assert_eq!(solid_set(-2, &[-4, -3, -2, -1, 0]), vec![-3, -2, -1]);
}

#[test]
fn extreme_floors_do_not_overflow() {
    assert!(floor_is_solid(FloorLevel(i32::MAX), FloorLevel(i32::MAX)));
    assert!(floor_is_solid(FloorLevel(i32::MAX), FloorLevel(i32::MAX - 1)));
    assert!(!floor_is_solid(FloorLevel(i32::MAX), FloorLevel(i32::MIN)));
    assert!(!floor_is_solid(FloorLevel(i32::MIN), FloorLevel(i32::MIN + 2)));
    assert!(!floor_is_solid(FloorLevel(i32::MIN), FloorLevel(0)));
    assert!(floor_is_solid(FloorLevel(i32::MIN + 1), FloorLevel(i32::MIN)));
}

#[test]
fn standing_floor_and_floor_below_are_always_solid() {
    for on in [-7, -6, -1, 0, 1, 6, 7, 100, 101] {
        assert!(floor_is_solid(FloorLevel(on), FloorLevel(on)));
        assert!(floor_is_solid(FloorLevel(on), FloorLevel(on - 1)));
        assert!(!floor_is_solid(FloorLevel(on), FloorLevel(on + 2)));
        assert!(!floor_is_solid(FloorLevel(on), FloorLevel(on - 2)));
    }
}

#[test]
fn floor_pairs_are_shown_together() {
    for k in [-3, 0, 1, 4] {
        for on in [2 * k, 2 * k + 1] {
            assert!(floor_is_solid(FloorLevel(on), FloorLevel(2 * k)));
            assert!(floor_is_solid(FloorLevel(on), FloorLevel(2 * k + 1)));
        }
    }
}

#[test]
fn first_terrain_hit_skips_non_terrain() {
    assert_eq!(
        first_terrain_hit(&vec![None, Some(FloorLevel(2)), Some(FloorLevel(5))]),
        Some(FloorLevel(2))
    );
    assert_eq!(first_terrain_hit(&vec![Some(FloorLevel(-1))]), Some(FloorLevel(-1)));
    assert_eq!(first_terrain_hit(&vec![None, None]), None);
    assert_eq!(first_terrain_hit(&vec![]), None);
}

#[test]
fn looks_without_a_standing_floor_are_translucent() {
    let looks = floor_looks(None, &vec![FloorLevel(0), FloorLevel(1)]);
    assert_eq!(looks, vec![MaterialLook::Translucent, MaterialLook::Translucent]);
}

#[test]
fn update_uses_last_ray_for_floor_and_first_for_looks() {
    let rays = vec![vec![None, Some(FloorLevel(3))], vec![], vec![Some(FloorLevel(1)), Some(FloorLevel(8))]];
    let terrain = vec![FloorLevel(1), FloorLevel(2), FloorLevel(3), FloorLevel(4)];
    let mut floor = PlayerOnFloor(FloorLevel(0));
    let looks = make_higher_floors_transparent(&rays, &mut floor, &terrain);
    assert_eq!(floor, PlayerOnFloor(FloorLevel(1)));
    assert_eq!(
        looks,
        vec![
            MaterialLook::Translucent,
            MaterialLook::Opaque,
            MaterialLook::Opaque,
            MaterialLook::Translucent
        ]
    );
}

#[test]
fn update_without_terrain_hit_keeps_floor() {
    let rays = vec![vec![None], vec![]];
    let terrain = vec![FloorLevel(4), FloorLevel(5)];
    let mut floor = PlayerOnFloor(FloorLevel(4));
    let looks = make_higher_floors_transparent(&rays, &mut floor, &terrain);
    assert_eq!(floor, PlayerOnFloor(FloorLevel(4)));
    assert_eq!(looks, vec![MaterialLook::Translucent, MaterialLook::Translucent]);

    let mut floor = PlayerOnFloor(FloorLevel(9));
    let looks = make_higher_floors_transparent(&vec![], &mut floor, &terrain);
    assert_eq!(floor, PlayerOnFloor(FloorLevel(9)));
    assert_eq!(looks, vec![MaterialLook::Translucent, MaterialLook::Translucent]);
}

#[test]
fn update_twice_is_the_same_as_once() {
    let rays = vec![vec![Some(FloorLevel(6))], vec![Some(FloorLevel(2))]];
    let terrain = vec![FloorLevel(5), FloorLevel(6), FloorLevel(7), FloorLevel(8)];
    let mut floor = PlayerOnFloor::default();
    let first = make_higher_floors_transparent(&rays, &mut floor, &terrain);
    let after_first = floor;
    let second = make_higher_floors_transparent(&rays, &mut floor, &terrain);
    assert_eq!(floor, after_first);
    assert_eq!(floor, PlayerOnFloor(FloorLevel(2)));
    assert_eq!(first, second);
    assert_eq!(
        first,
        vec![
            MaterialLook::Opaque,
            MaterialLook::Opaque,
            MaterialLook::Opaque,
            MaterialLook::Translucent
        ]
    );
}

#[test]
fn single_ray_puts_player_on_a_shown_floor() {
    let rays = vec![vec![None, Some(FloorLevel(7)), Some(FloorLevel(6))]];
    let terrain = vec![FloorLevel(5), FloorLevel(6), FloorLevel(7), FloorLevel(8)];
    let mut floor = PlayerOnFloor(FloorLevel(0));
    let looks = make_higher_floors_transparent(&rays, &mut floor, &terrain);
    assert_eq!(floor, PlayerOnFloor(FloorLevel(7)));
    assert_eq!(
        looks,
        vec![
            MaterialLook::Translucent,
            MaterialLook::Opaque,
            MaterialLook::Opaque,
            MaterialLook::Translucent
        ]
    );
}

#[test]
fn defaults_are_the_ground_floor() {
    assert_eq!(FloorLevel::default(), FloorLevel(0));
    assert_eq!(PlayerOnFloor::default(), PlayerOnFloor(FloorLevel(0)));
}

#[test]
fn standing_floor_is_that_of_the_first_ray_with_terrain() {
    let rays = vec![vec![None], vec![None, Some(FloorLevel(5))], vec![Some(FloorLevel(2))]];
    assert_eq!(standing_floor_of(&rays), Some(FloorLevel(5)));
    assert_eq!(standing_floor_of(&vec![vec![None], vec![]]), None);
    assert_eq!(standing_floor_of(&vec![]), None);
}

#[test]
fn looks_fit_only_fails_at_the_lowest_floor() {
    let low = vec![FloorLevel(0), FloorLevel(i32::MIN + 1)];
    assert!(!looks_fit(Some(FloorLevel(i32::MIN)), &low));
    assert!(looks_fit(Some(FloorLevel(i32::MIN)), &vec![FloorLevel(0), FloorLevel(i32::MIN + 2)]));
    assert!(looks_fit(Some(FloorLevel(i32::MIN + 1)), &low));
    assert!(looks_fit(None, &low));
    assert!(looks_fit(Some(FloorLevel(3)), &vec![]));
}

#[test]
fn floor_comes_from_last_ray_with_terrain() {
    let rays = vec![vec![Some(FloorLevel(4))], vec![None, Some(FloorLevel(6))], vec![None], vec![]];
    let mut floor = PlayerOnFloor(FloorLevel(1));
    make_higher_floors_transparent(&rays, &mut floor, &vec![]);
    assert_eq!(floor, PlayerOnFloor(FloorLevel(6)));
}

#[test]
fn even_shift_moves_floor_and_keeps_looks() {
    let base_rays = vec![vec![None, Some(FloorLevel(3))], vec![Some(FloorLevel(2))]];
    let base_terrain = vec![FloorLevel(1), FloorLevel(2), FloorLevel(3), FloorLevel(4)];
    let mut base_floor = PlayerOnFloor(FloorLevel(0));
    let base_looks = make_higher_floors_transparent(&base_rays, &mut base_floor, &base_terrain);
    for k in [-4, 2, 10] {
        let rays: Vec<Vec<Option<FloorLevel>>> = base_rays
            .iter()
            .map(|r| r.iter().map(|h| h.map(|l| FloorLevel(l.0 + k))).collect())
            .collect();
        let terrain: Vec<FloorLevel> = base_terrain.iter().map(|l| FloorLevel(l.0 + k)).collect();
        let mut floor = PlayerOnFloor(FloorLevel(k));
        let looks = make_higher_floors_transparent(&rays, &mut floor, &terrain);
        assert_eq!(floor, PlayerOnFloor(FloorLevel(base_floor.0 .0 + k)));
        assert_eq!(looks, base_looks);
    }
}
