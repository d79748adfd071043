use dungeon::carve::create_room;
use dungeon::generator::{build_dungeon, make_map, RoomDraw};
use dungeon::geometry::{Location, Rect};
use dungeon::grid::{Game, Tile};
use dungeon::movement::try_move;
use dungeon::shade::{shade_of, Shade};
use dungeon::visibility::{compute_visibility, mark_explored};
use dungeon::{MAP_HEIGHT, MAP_WIDTH};
use rand::rngs::StdRng;
use rand::SeedableRng;

fn floor_grid(width: i32, height: i32) -> Game {
    let mut g = Game::walled(width, height);
    for x in 0..width {
        for y in 0..height {
            g.set_tile(x, y, Tile::empty());
        }
    }
    g
}

fn all_lit(width: i32, height: i32) -> Vec<Vec<bool>> {
    vec![vec![true; height as usize]; width as usize]
}

fn standard_map(seed: u64) -> (Game, Location) {
    let mut rng = StdRng::seed_from_u64(seed);
    make_map(MAP_WIDTH, MAP_HEIGHT, 30, 6, 10, &mut rng)
}

#[test]
fn rect_new_sets_corners() {
    let r = Rect::new(10, 10, 6, 6);
    assert_eq!(r, Rect { x1: 10, y1: 10, x2: 16, y2: 16 });
    assert_eq!(r.center(), (13, 13));
    assert_eq!(Rect::new(3, 4, 5, 7).center(), (5, 7));
}

#[test]
fn rect_intersection_includes_boundaries() {
    let a = Rect::new(0, 0, 5, 5);
    let touching = Rect::new(5, 5, 3, 3);
    let apart = Rect::new(6, 0, 3, 3);
    assert!(a.intersects_with(&touching));
    assert!(touching.intersects_with(&a));
    assert!(!a.intersects_with(&apart));
    assert!(!apart.intersects_with(&a));
}

#[test]
fn tile_constructors() {
    let e = Tile::empty();
    assert!(!e.blocked && !e.block_sight && !e.explored);
    let w = Tile::wall();
    assert!(w.blocked && w.block_sight && !w.explored);
}

#[test]
fn location_add_sums_components() {
    let a = Location { x: 3, y: -2 };
    assert_eq!(a.add(Location { x: -1, y: 5 }), Location { x: 2, y: 3 });
}

#[test]
fn new_grid_is_all_walls() {
    let g = Game::walled(7, 4);
    assert_eq!(g.width(), 7);
    assert_eq!(g.height(), 4);
    for x in 0..7 {
        for y in 0..4 {
            assert_eq!(g.tile(x, y), Some(Tile::wall()));
            assert!(!g.passable(x, y));
        }
    }
}

#[test]
fn off_grid_is_not_passable() {
    let g = floor_grid(5, 5);
    assert!(g.passable(0, 0));
    assert!(g.passable(4, 4));
    assert!(!g.passable(-1, 0));
    assert!(!g.passable(0, -1));
    assert!(!g.passable(5, 0));
    assert!(!g.passable(0, 5));
    assert_eq!(g.tile(5, 0), None);
}

#[test]
fn forced_single_room() {
    let plan = vec![RoomDraw { room: Rect::new(10, 10, 6, 6), horizontal_first: true }];
    let (g, start) = build_dungeon(MAP_WIDTH, MAP_HEIGHT, &plan);
    assert_eq!(start, Location { x: 13, y: 13 });
    for x in 0..MAP_WIDTH {
        for y in 0..MAP_HEIGHT {
            let inside = (11..=15).contains(&x) && (11..=15).contains(&y);
            assert_eq!(g.passable(x, y), inside, "tile ({}, {})", x, y);
            let expected = if inside { Tile::empty() } else { Tile::wall() };
            assert_eq!(g.tile(x, y), Some(expected));
        }
    }
}

#[test]
fn no_attempts_leaves_walls_and_origin() {
    let (g, start) = build_dungeon(20, 20, &vec![]);
    assert_eq!(start, Location { x: 0, y: 0 });
    assert!(!g.passable(0, 0));
    for x in 0..20 {
        for y in 0..20 {
            assert_eq!(g.tile(x, y), Some(Tile::wall()));
        }
    }
}

#[test]
fn overlapping_attempt_is_rejected() {
    let plan = vec![
        RoomDraw { room: Rect::new(2, 2, 6, 6), horizontal_first: true },
        RoomDraw { room: Rect::new(8, 8, 6, 6), horizontal_first: true },
        RoomDraw { room: Rect::new(30, 2, 6, 6), horizontal_first: false },
    ];
    let (g, start) = build_dungeon(MAP_WIDTH, MAP_HEIGHT, &plan);
    assert_eq!(start, Location { x: 5, y: 5 });
    // the second room touches the first at (8, 8) and is not carved
    assert!(!g.passable(11, 11));
    assert!(!g.passable(10, 10));
    // the third one is, and joined to the first: vertical leg first at x = 5
    // (no change of y here), then the horizontal leg along y = 5
    assert!(g.passable(33, 5));
    for x in 5..=33 {
        assert!(g.passable(x, 5));
    }
}

#[test]
fn tunnel_horizontal_then_vertical() {
    let plan = vec![
        RoomDraw { room: Rect::new(1, 1, 4, 4), horizontal_first: true },
        RoomDraw { room: Rect::new(20, 10, 4, 4), horizontal_first: true },
    ];
    let (g, start) = build_dungeon(MAP_WIDTH, MAP_HEIGHT, &plan);
    assert_eq!(start, Location { x: 3, y: 3 });
    for x in 3..=22 {
        assert!(g.passable(x, 3));
    }
    for y in 3..=12 {
        assert!(g.passable(22, y));
    }
    // the other bend stays a wall
    assert!(!g.passable(3, 8));
    assert!(!g.passable(10, 12));
}

#[test]
fn tunnel_vertical_then_horizontal() {
    let plan = vec![
        RoomDraw { room: Rect::new(1, 1, 4, 4), horizontal_first: true },
        RoomDraw { room: Rect::new(20, 10, 4, 4), horizontal_first: false },
    ];
    let (g, _) = build_dungeon(MAP_WIDTH, MAP_HEIGHT, &plan);
    for y in 3..=12 {
        assert!(g.passable(3, y));
    }
    for x in 3..=22 {
        assert!(g.passable(x, 12));
    }
    assert!(!g.passable(22, 6));
    assert!(!g.passable(10, 3));
}

#[test]
fn same_seed_same_map() {
    let (a, sa) = standard_map(7);
    let (b, sb) = standard_map(7);
    assert_eq!(sa, sb);
    for x in 0..MAP_WIDTH {
        for y in 0..MAP_HEIGHT {
            assert_eq!(a.tile(x, y), b.tile(x, y));
        }
    }
}

#[test]
fn different_seeds_differ() {
    let (a, sa) = standard_map(1);
    let (b, sb) = standard_map(2);
    let mut differ = sa != sb;
    for x in 0..MAP_WIDTH {
        for y in 0..MAP_HEIGHT {
            if a.tile(x, y) != b.tile(x, y) {
                differ = true;
            }
        }
    }
    assert!(differ);
}

#[test]
fn generated_maps_have_a_room_at_the_start() {
    for seed in 0..40u64 {
        let (g, start) = standard_map(seed);
        assert!(g.passable(start.x, start.y), "seed {}", seed);
        // the first room is at least 6 wide, so its centre has floor around it
        assert!(g.passable(start.x - 1, start.y) && g.passable(start.x + 1, start.y));
        assert!(g.passable(start.x, start.y - 1) && g.passable(start.x, start.y + 1));
    }
}

#[test]
fn generated_tiles_are_floor_or_wall_with_wall_border() {
    let (g, _) = standard_map(11);
    let mut floors = 0;
    for x in 0..MAP_WIDTH {
        for y in 0..MAP_HEIGHT {
            let t = g.tile(x, y).unwrap();
            assert!(t == Tile::empty() || t == Tile::wall());
            if t == Tile::empty() {
                floors += 1;
            }
        }
    }
    for x in 0..MAP_WIDTH {
        assert!(!g.passable(x, 0) && !g.passable(x, MAP_HEIGHT - 1));
    }
    for y in 0..MAP_HEIGHT {
        assert!(!g.passable(0, y) && !g.passable(MAP_WIDTH - 1, y));
    }
    assert!(floors >= 25);
}

#[test]
fn wall_hides_tile_behind_it() {
    let mut g = floor_grid(12, 12);
    g.set_tile(6, 5, Tile::wall());
    // rays from (5, 5) stop at the wall, so (7, 5) is not reached
    let mut lit = all_lit(12, 12);
    lit[7][5] = false;
    let vis = compute_visibility(&g, 5, 5, 3, false, &lit);
    assert!(!vis.is_visible(7, 5));
    assert!(!vis.is_visible(6, 5));
    assert!(vis.is_visible(5, 5));
    assert!(vis.is_visible(5, 8));
    assert!(vis.is_visible(7, 7));
    // outside the radius
    assert!(!vis.is_visible(5, 9));
    assert!(!vis.is_visible(8, 8));
}

#[test]
fn light_walls_shows_the_wall() {
    let mut g = floor_grid(12, 12);
    g.set_tile(6, 5, Tile::wall());
    let mut lit = all_lit(12, 12);
    lit[7][5] = false;
    let vis = compute_visibility(&g, 5, 5, 3, true, &lit);
    assert!(vis.is_visible(6, 5));
    assert!(!vis.is_visible(7, 5));
}

#[test]
fn viewer_tile_always_visible() {
    let g = Game::walled(6, 6);
    let lit = vec![vec![false; 6]; 6];
    let vis = compute_visibility(&g, 2, 3, 4, false, &lit);
    assert!(vis.is_visible(2, 3));
    assert!(!vis.is_visible(2, 2));
    let vis = compute_visibility(&g, 0, 0, 1, true, &vec![]);
    assert!(vis.is_visible(0, 0));
}

#[test]
fn radius_limits_visibility() {
    let g = floor_grid(30, 30);
    let vis = compute_visibility(&g, 0, 0, 10, false, &all_lit(30, 30));
    assert!(!vis.is_visible(29, 29));
    assert!(vis.is_visible(6, 8));
    assert!(!vis.is_visible(7, 8));
    // a zero radius shows the viewer's own tile only
    let vis = compute_visibility(&g, 0, 0, 0, false, &all_lit(30, 30));
    assert!(vis.is_visible(0, 0));
    assert!(!vis.is_visible(1, 0));
    assert!(!vis.is_visible(29, 29));
    // so does a negative one
    let vis = compute_visibility(&g, 5, 5, -3, true, &all_lit(30, 30));
    assert!(vis.is_visible(5, 5));
    assert!(!vis.is_visible(6, 5));
    assert!(!vis.is_visible(5, 7));
}

#[test]
fn room_edges_may_lie_off_grid() {
    let mut g = Game::walled(6, 5);
    create_room(Rect { x1: -1, y1: -1, x2: 6, y2: 5 }, &mut g);
    for x in 0..6 {
        for y in 0..5 {
            assert_eq!(g.tile(x, y), Some(Tile::empty()));
        }
    }
}

#[test]
fn room_with_empty_interior_changes_nothing() {
    let mut g = Game::walled(6, 6);
    create_room(Rect { x1: 2, y1: 1, x2: 3, y2: 5 }, &mut g);
    create_room(Rect { x1: 4, y1: 4, x2: 2, y2: 2 }, &mut g);
    for x in 0..6 {
        for y in 0..6 {
            assert_eq!(g.tile(x, y), Some(Tile::wall()));
        }
    }
}

#[test]
fn negative_attempt_count_places_nothing() {
    let mut rng = StdRng::seed_from_u64(5);
    let (g, start) = make_map(20, 20, -4, 3, 5, &mut rng);
    assert_eq!(start, Location { x: 0, y: 0 });
    for x in 0..20 {
        for y in 0..20 {
            assert_eq!(g.tile(x, y), Some(Tile::wall()));
        }
    }
}

#[test]
fn generated_map_has_nothing_explored() {
    let (g, _) = standard_map(9);
    for x in 0..MAP_WIDTH {
        for y in 0..MAP_HEIGHT {
            assert!(!g.tile(x, y).unwrap().explored);
        }
    }
}

#[test]
fn viewer_off_grid_sees_nothing() {
    let g = floor_grid(8, 8);
    let vis = compute_visibility(&g, 8, 2, 3, true, &all_lit(8, 8));
    for x in -1..10 {
        for y in -1..10 {
            assert!(!vis.is_visible(x, y));
        }
    }
}

#[test]
fn explored_accumulates_and_persists() {
    let mut g = floor_grid(10, 10);
    let lit = all_lit(10, 10);
    let first = compute_visibility(&g, 2, 2, 1, false, &lit);
    mark_explored(&mut g, &first);
    assert!(g.tile(2, 2).unwrap().explored);
    assert!(g.tile(3, 2).unwrap().explored);
    assert!(!g.tile(3, 3).unwrap().explored);
    assert!(!g.tile(7, 7).unwrap().explored);
    let second = compute_visibility(&g, 7, 7, 1, false, &lit);
    mark_explored(&mut g, &second);
    assert!(g.tile(2, 2).unwrap().explored);
    assert!(g.tile(3, 2).unwrap().explored);
    assert!(g.tile(7, 7).unwrap().explored);
    assert!(!g.tile(5, 5).unwrap().explored);
    // marking does not change passability
    assert!(g.passable(7, 7));
    assert!(!g.tile(7, 7).unwrap().blocked);
}

#[test]
fn diagonal_move_gated_per_axis() {
    let mut g = floor_grid(10, 10);
    g.set_tile(5, 4, Tile::wall());
    let (pos, moved) = try_move(&g, Location { x: 5, y: 5 }, Location { x: -1, y: -1 });
    assert_eq!(pos, Location { x: 4, y: 5 });
    assert!(moved);
}

#[test]
fn move_into_wall_is_refused() {
    let mut g = floor_grid(10, 10);
    g.set_tile(5, 4, Tile::wall());
    let (pos, moved) = try_move(&g, Location { x: 5, y: 5 }, Location { x: 0, y: -1 });
    assert_eq!(pos, Location { x: 5, y: 5 });
    assert!(!moved);
    let (pos, moved) = try_move(&g, Location { x: 5, y: 5 }, Location { x: 0, y: 0 });
    assert_eq!(pos, Location { x: 5, y: 5 });
    assert!(!moved);
    let (pos, moved) = try_move(&g, Location { x: 5, y: 5 }, Location { x: 1, y: 0 });
    assert_eq!(pos, Location { x: 6, y: 5 });
    assert!(moved);
}

#[test]
fn move_off_grid_is_refused() {
    let g = floor_grid(4, 4);
    let (pos, moved) = try_move(&g, Location { x: 0, y: 0 }, Location { x: -1, y: 0 });
    assert_eq!(pos, Location { x: 0, y: 0 });
    assert!(!moved);
}

#[test]
fn diagonal_destination_blocked_is_refused() {
    let mut g = floor_grid(10, 10);
    g.set_tile(4, 4, Tile::wall());
    let (pos, moved) = try_move(&g, Location { x: 5, y: 5 }, Location { x: -1, y: -1 });
    assert_eq!(pos, Location { x: 5, y: 5 });
    assert!(!moved);
}

#[test]
fn walk_on_generated_map_stays_passable() {
    let (g, start) = standard_map(3);
    let steps = [
        Location { x: 1, y: 0 },
        Location { x: 0, y: 1 },
        Location { x: -1, y: 0 },
        Location { x: 0, y: -1 },
        Location { x: 1, y: 1 },
    ];
    let mut pos = start;
    assert!(g.passable(pos.x, pos.y));
    for i in 0..500usize {
        let d = steps[(i * 7 + i / 3) % steps.len()];
        let (next, moved) = try_move(&g, pos, d);
        assert!(g.passable(next.x, next.y));
        if !moved {
            assert_eq!(next, pos);
        }
        pos = next;
    }
}

#[test]
fn shades() {
    assert_eq!(shade_of(false, true), Shade::DarkWall);
    assert_eq!(shade_of(false, false), Shade::DarkGround);
    assert_eq!(shade_of(true, true), Shade::LightWall);
    assert_eq!(shade_of(true, false), Shade::LightGround);
}
