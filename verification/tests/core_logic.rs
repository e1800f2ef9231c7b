use std::cmp::Reverse;
use std::collections::{BinaryHeap, HashMap};

use geode_td::board::{standard_checkpoints, Board};
use geode_td::cells::CellSet;
use geode_td::game::{random_offers, RoundKind, RoundPlan};
use geode_td::gem::{gem_kind_at, grade_ladder, GemEffect, GemGrade, GemKind, TowerStats};
use geode_td::grid::{finish_pos, scaled_grid_pos, start_pos, GridPos};
use geode_td::path::{heuristic, moves};
use geode_td::protocol::GameMode;
use geode_td::recipe::{recipe_piece_name, special_recipe_for_source, special_recipes};
use geode_td::rng::OfferRng;
use geode_td::route::{find_complete_path, line_of_sight, smooth_path};
use geode_td::search::find_path_between;
use geode_td::special::SpecialGem;
use geode_td::text::{digit, push_decimal, take_chars, trim};
use geode_td::tower::tower_for_grade;

fn step_ok(a: GridPos, b: GridPos) -> bool {
    let dc = (a.col - b.col).abs();
    let dr = (a.row - b.row).abs();
    dc <= 1 && dr <= 1 && (dc + dr) > 0
}

#[test]
fn offer_rng_seed_and_first_draw() {
    let mut rng = OfferRng::new(0);
    assert_eq!(rng.state, 0xa2e3_4f9b_781c_d012);
    let i = rng.next_index(1000);
    assert_eq!(i, 106);
    assert_eq!(rng.state, 14642793848074317106);
}

#[test]
fn offer_rng_offer_sequences() {
    let mut rng = OfferRng::new(0);
    let offers = random_offers(&mut rng);
    assert_eq!(
        offers,
        vec![Some(GemKind::Topaz), Some(GemKind::Ruby), Some(GemKind::Sapphire), Some(GemKind::Opal), Some(GemKind::Sapphire)]
    );
    let mut rng = OfferRng::new(42);
    let picks: Vec<usize> = (0..5).map(|_| rng.next_index(8)).collect();
    assert_eq!(picks, vec![0, 7, 3, 7, 3]);
    let mut rng = OfferRng::new(7);
    let picks: Vec<usize> = (0..5).map(|_| rng.next_index(8)).collect();
    assert_eq!(picks, vec![5, 4, 6, 4, 3]);
}

#[test]
fn offer_table_order() {
    let order = [
        GemKind::Ruby,
        GemKind::Sapphire,
        GemKind::Topaz,
        GemKind::Emerald,
        GemKind::Amethyst,
        GemKind::Diamond,
        GemKind::Aquamarine,
        GemKind::Opal,
    ];
    for (i, g) in order.iter().enumerate() {
        assert_eq!(gem_kind_at(i), *g);
    }
}

#[test]
fn grid_start_finish_and_bounds() {
    assert_eq!(start_pos(), GridPos::new(4, 32));
    assert_eq!(finish_pos(), GridPos::new(108, 32));
    assert_eq!(scaled_grid_pos(6, 3), GridPos::new(24, 12));
    assert!(GridPos::new(0, 0).in_bounds());
    assert!(GridPos::new(115, 67).in_bounds());
    assert!(!GridPos::new(116, 0).in_bounds());
    assert!(!GridPos::new(0, 68).in_bounds());
    assert!(!GridPos::new(-1, 3).in_bounds());
    assert_eq!(GridPos::new(3, 4).offset((1, -1)), GridPos::new(4, 3));
    assert_eq!(GridPos::new(2, 5).cell_index(), 2 * 68 + 5);
}

#[test]
fn cell_set_insert_remove() {
    let mut s = CellSet::new();
    let p = GridPos::new(10, 10);
    assert!(!s.contains(p));
    s.insert(p);
    assert!(s.contains(p));
    assert!(!s.contains(GridPos::new(10, 11)));
    assert!(!s.contains(GridPos::new(-5, 10)));
    let copy = s.duplicate();
    s.remove(p);
    assert!(!s.contains(p));
    assert!(copy.contains(p));
}

#[test]
fn octile_heuristic_values() {
    assert_eq!(heuristic(GridPos::new(0, 0), GridPos::new(3, 0)), 30);
    assert_eq!(heuristic(GridPos::new(0, 0), GridPos::new(3, 3)), 42);
    assert_eq!(heuristic(GridPos::new(0, 0), GridPos::new(5, 2)), 2 * 14 + 3 * 10);
}

#[test]
fn moves_respect_walls_and_diagonal_gates() {
    let empty = CellSet::new();
    assert_eq!(moves(GridPos::new(5, 5), &empty).len(), 8);
    assert_eq!(moves(GridPos::new(0, 0), &empty).len(), 3);
    let mut walls = CellSet::new();
    walls.insert(GridPos::new(6, 5));
    let m = moves(GridPos::new(5, 5), &walls);
    // the wall itself and the two diagonals it guards are gone
    assert_eq!(m.len(), 5);
    assert!(m.iter().all(|(p, _)| *p != GridPos::new(6, 5) && *p != GridPos::new(6, 6) && *p != GridPos::new(6, 4)));
    assert!(m.iter().any(|(p, c)| *p == GridPos::new(4, 4) && *c == 14));
    assert!(m.iter().any(|(p, c)| *p == GridPos::new(4, 5) && *c == 10));
}

#[test]
fn astar_finds_open_route() {
    let empty = CellSet::new();
    let a = GridPos::new(2, 2);
    let b = GridPos::new(9, 6);
    let path = find_path_between(a, b, &empty).expect("open board");
    assert_eq!(path[0], a);
    assert_eq!(*path.last().unwrap(), b);
    for w in path.windows(2) {
        assert!(step_ok(w[0], w[1]));
    }
    // optimal octile route on an empty board: 4 diagonal + 3 straight steps
    assert_eq!(path.len(), 8);
}

#[test]
fn astar_walled_off_target_is_none() {
    let mut walls = CellSet::new();
    let target = GridPos::new(20, 20);
    for dc in -1..=1 {
        for dr in -1..=1 {
            if dc != 0 || dr != 0 {
                walls.insert(GridPos::new(20 + dc, 20 + dr));
            }
        }
    }
    assert!(find_path_between(GridPos::new(2, 2), target, &walls).is_none());
    assert!(find_path_between(GridPos::new(2, 2), GridPos::new(30, 30), &walls).is_some());
}

#[test]
fn line_of_sight_and_smoothing() {
    let empty = CellSet::new();
    assert!(line_of_sight(GridPos::new(0, 0), GridPos::new(10, 0), &empty));
    let mut walls = CellSet::new();
    walls.insert(GridPos::new(5, 0));
    assert!(!line_of_sight(GridPos::new(0, 0), GridPos::new(10, 0), &walls));
    let straight: Vec<GridPos> = (0..6).map(|c| GridPos::new(c, 3)).collect();
    let smoothed = smooth_path(&straight, &empty);
    assert_eq!(smoothed, vec![GridPos::new(0, 3), GridPos::new(5, 3)]);
    let short = vec![GridPos::new(1, 1), GridPos::new(2, 2)];
    assert_eq!(smooth_path(&short, &empty), short);
}

#[test]
fn complete_route_visits_checkpoints_in_order() {
    let empty = CellSet::new();
    let checkpoints = standard_checkpoints();
    let path = find_complete_path(&empty, &checkpoints).expect("open board");
    assert_eq!(path[0], start_pos());
    assert_eq!(*path.last().unwrap(), finish_pos());
    let mut next = 0;
    for p in path.iter() {
        if next < checkpoints.len() && *p == checkpoints[next] {
            next += 1;
        }
    }
    assert_eq!(next, checkpoints.len());
}

#[test]
fn complete_route_blocked_checkpoint_is_none() {
    let mut walls = CellSet::new();
    let cp = GridPos::new(40, 40);
    for dc in -1..=1 {
        for dr in -1..=1 {
            if dc != 0 || dr != 0 {
                walls.insert(GridPos::new(40 + dc, 40 + dr));
            }
        }
    }
    assert!(find_complete_path(&walls, &vec![cp]).is_none());
    assert!(find_complete_path(&walls, &vec![GridPos::new(60, 20)]).is_some());
}

#[test]
fn standard_board_layout() {
    assert_eq!(
        standard_checkpoints(),
        vec![
            GridPos::new(24, 12),
            GridPos::new(88, 52),
            GridPos::new(24, 52),
            GridPos::new(88, 12),
        ]
    );
    let board = Board::for_mode(GameMode::Standard);
    assert_eq!(board.checkpoints.len(), 4);
    assert!(!board.path.is_empty());
    assert_eq!(board.path[0], start_pos());
    assert!(board.towers.is_empty());
    let protected = board.protected_cells();
    assert!(protected.contains(start_pos()));
    assert!(protected.contains(finish_pos()));
    assert!(protected.contains(GridPos::new(24, 12)));
    assert!(!protected.contains(GridPos::new(25, 12)));
}

#[test]
fn random_board_layout_is_seeded() {
    let a = Board::for_mode_seeded(GameMode::Random, 99);
    let b = Board::for_mode_seeded(GameMode::Random, 99);
    assert_eq!(a.checkpoints, b.checkpoints);
    assert_eq!(a.checkpoints.len(), 4);
    for (i, p) in a.checkpoints.iter().enumerate() {
        assert!(*p != start_pos() && *p != finish_pos());
        for q in a.checkpoints.iter().skip(i + 1) {
            assert!(p != q);
        }
    }
}

#[test]
fn grade_ladder_and_multipliers() {
    assert_eq!(
        grade_ladder(),
        vec![GemGrade::Chipped, GemGrade::Flawed, GemGrade::Regular, GemGrade::Cut, GemGrade::Perfect]
    );
    assert_eq!(GemGrade::Chipped.next(), Some(GemGrade::Flawed));
    assert_eq!(GemGrade::Perfect.next(), None);
    assert_eq!(GemGrade::Cut.tier(), 3);
    assert_eq!(GemGrade::Regular.name(), "Regular");
    assert_eq!(GemGrade::Chipped.damage_multiplier_milli(), 1000);
}

#[test]
fn chipped_stats_apply_range_multiplier() {
    assert_eq!(GemKind::Ruby.chipped_stats(), TowerStats { damage_milli: 24000, range_milli: 195000, cooldown_milli: 1000 });
    assert_eq!(GemKind::Aquamarine.chipped_stats().range_milli, 117000);
    assert_eq!(TowerStats::scaled_range(101), 151);
    assert_eq!(GemKind::Opal.name(), "Opal");
}

#[test]
fn gem_effects_scale_with_grade() {
    assert_eq!(GemKind::Topaz.effect(GemGrade::Cut), GemEffect::Multi { targets: 6, damage_fraction_milli: 800 });
    assert_eq!(
        GemKind::Sapphire.effect(GemGrade::Perfect),
        GemEffect::Slow { factor_milli: 680, duration_milli: 1500 }
    );
    assert_eq!(GemKind::Opal.effect(GemGrade::Flawed), GemEffect::Haste { cooldown_reduction_milli: 200 });
    assert_eq!(GemKind::Aquamarine.effect(GemGrade::Regular), GemEffect::NoEffect);
}

#[test]
fn tower_labels() {
    let t = tower_for_grade(GemKind::Ruby, GemGrade::Chipped);
    assert_eq!(t.display_name(), "Chipped Ruby");
    assert_eq!(t.action_label(), "Upgrade to Flawed");
    assert_eq!(t.damage_milli, 24000);
    let p = tower_for_grade(GemKind::Ruby, GemGrade::Perfect);
    assert_eq!(p.action_label(), "Combine Blood Stone");
    let q = tower_for_grade(GemKind::Topaz, GemGrade::Cut);
    assert_eq!(q.action_label(), "Upgrade to Perfect");
    let mut s = tower_for_grade(GemKind::Ruby, GemGrade::Perfect);
    s.become_special(SpecialGem::BloodStone);
    assert_eq!(s.display_name(), "Blood Stone");
    assert!(s.action_label().starts_with("Upgrade to Ancient Blood Stone ("));
}

#[test]
fn recipes_by_source() {
    assert_eq!(special_recipes().len(), 12);
    let r = special_recipe_for_source(GemKind::Opal, GemGrade::Chipped).expect("malachite");
    assert_eq!(r.result, SpecialGem::Malachite);
    assert_eq!(r.components, vec![(GemKind::Emerald, GemGrade::Chipped), (GemKind::Aquamarine, GemGrade::Chipped)]);
    assert!(special_recipe_for_source(GemKind::Ruby, GemGrade::Chipped).is_none());
    assert_eq!(recipe_piece_name((GemKind::Diamond, GemGrade::Cut)), "Cut Diamond");
    assert_eq!(r.ingredient_summary(), "Chipped Opal, Chipped Emerald, Chipped Aquamarine");
}

#[test]
fn special_chain() {
    assert_eq!(SpecialGem::Silver.upgrade(), Some(SpecialGem::SterlingSilver));
    assert_eq!(SpecialGem::Silver.base_gem(), GemKind::Sapphire);
    assert_eq!(SpecialGem::StarYellowSapphire.upgrade(), None);
    assert_eq!(SpecialGem::Uranium238.name(), "Uranium 238");
}

#[test]
fn round_plans() {
    let r1 = RoundPlan::for_round(1);
    assert_eq!(r1, RoundPlan { kind: RoundKind::Normal, count: 5, health_centi: 2850, speed_centi: 6900, flying: false });
    let r5 = RoundPlan::for_round(5);
    assert_eq!(r5.kind, RoundKind::Swift);
    assert_eq!(r5.count, 15);
    assert_eq!(r5.health_centi, 3500);
    assert_eq!(r5.speed_centi, 16530);
    let r7 = RoundPlan::for_round(7);
    assert!(r7.flying);
    assert_eq!(r7.kind, RoundKind::Flying);
    let r20 = RoundPlan::for_round(20);
    assert_eq!(r20.kind, RoundKind::Boss);
    assert_eq!(r20.count, 1);
    assert_eq!(r20.health_centi, 19000 * 28);
    assert_eq!(RoundKind::Boss.label(), "Boss Wave");
}

#[test]
fn text_helpers() {
    assert_eq!(trim("  hi there \t"), "hi there");
    assert_eq!(trim("   "), "");
    assert_eq!(take_chars("abcdef", 3), "abc");
    assert_eq!(take_chars("ab", 5), "ab");
    assert_eq!(digit(7), '7');
    let mut s = String::from("x=");
    push_decimal(&mut s, 1205);
    assert_eq!(s, "x=1205");
    let mut z = String::new();
    push_decimal(&mut z, 0);
    assert_eq!(z, "0");
}

fn walk_cost(path: &[GridPos]) -> i32 {
    path.windows(2)
        .map(|w| if w[0].col != w[1].col && w[0].row != w[1].row { 14 } else { 10 })
        .sum()
}

/// Plain Dijkstra over the same moves, for comparison.
fn shortest_cost(start: GridPos, finish: GridPos, blocked: &CellSet) -> Option<i32> {
    let mut dist: HashMap<(i32, i32), i32> = HashMap::new();
    let mut heap = BinaryHeap::new();
    dist.insert((start.col, start.row), 0);
    heap.push(Reverse((0, start.col, start.row)));
    while let Some(Reverse((d, c, r))) = heap.pop() {
        if (c, r) == (finish.col, finish.row) {
            return Some(d);
        }
        if d > *dist.get(&(c, r)).unwrap_or(&i32::MAX) {
            continue;
        }
        for (q, step) in moves(GridPos::new(c, r), blocked) {
            let nd = d + step;
            if nd < *dist.get(&(q.col, q.row)).unwrap_or(&i32::MAX) {
                dist.insert((q.col, q.row), nd);
                heap.push(Reverse((nd, q.col, q.row)));
            }
        }
    }
    None
}

#[test]
fn astar_matches_dijkstra_around_walls() {
    let mut walls = CellSet::new();
    for row in 0..60 {
        walls.insert(GridPos::new(30, row));
    }
    for row in 10..68 {
        walls.insert(GridPos::new(60, row));
    }
    for col in 61..90 {
        walls.insert(GridPos::new(col, 30));
    }
    let cases = [
        (GridPos::new(5, 5), GridPos::new(100, 50)),
        (GridPos::new(29, 2), GridPos::new(31, 2)),
        (GridPos::new(70, 40), GridPos::new(70, 20)),
    ];
    for (a, b) in cases {
        let path = find_path_between(a, b, &walls).expect("reachable");
        assert_eq!(path[0], a);
        assert_eq!(*path.last().unwrap(), b);
        for w in path.windows(2) {
            assert!(step_ok(w[0], w[1]));
            assert!(!walls.contains(w[1]));
        }
        assert_eq!(Some(walk_cost(&path)), shortest_cost(a, b, &walls));
    }
}

#[test]
fn planned_route_segments_are_clear() {
    let mut walls = CellSet::new();
    for row in 0..50 {
        walls.insert(GridPos::new(40, row));
    }
    for row in 20..68 {
        walls.insert(GridPos::new(75, row));
    }
    let checkpoints = standard_checkpoints();
    let route = find_complete_path(&walls, &checkpoints).expect("route");
    assert_eq!(route[0], start_pos());
    assert_eq!(*route.last().unwrap(), finish_pos());
    for w in route.windows(2) {
        assert!(line_of_sight(w[0], w[1], &walls));
    }
}

#[test]
fn stuck_generator_is_topped_up_with_spare_cells() {
    // this seed zeroes the generator, so every draw lands on the same cell
    let board = Board::for_mode_seeded(GameMode::Random, 0xa2e3_4f9b_781c_d012);
    assert_eq!(
        board.checkpoints,
        vec![GridPos::new(16, 8), GridPos::new(16, 9), GridPos::new(16, 10), GridPos::new(16, 11)]
    );
    assert_eq!(board.path[0], start_pos());
}

#[test]
fn line_of_sight_fewer_walls_never_hide_more() {
    let a = GridPos::new(3, 7);
    let b = GridPos::new(21, 15);
    let mut few = CellSet::new();
    few.insert(GridPos::new(50, 50));
    let mut many = few.duplicate();
    many.insert(GridPos::new(60, 10));
    assert!(line_of_sight(a, b, &many));
    assert!(line_of_sight(a, b, &few));
    many.insert(GridPos::new(12, 11));
    assert!(!line_of_sight(a, b, &many));
    assert!(line_of_sight(a, b, &few));
}

#[test]
fn line_of_sight_open_board_and_blocked_ends() {
    let empty = CellSet::new();
    assert!(line_of_sight(GridPos::new(0, 0), GridPos::new(111, 67), &empty));
    assert!(line_of_sight(GridPos::new(9, 9), GridPos::new(9, 9), &empty));
    let mut end = CellSet::new();
    end.insert(GridPos::new(30, 4));
    assert!(!line_of_sight(GridPos::new(2, 4), GridPos::new(30, 4), &end));
    assert!(!line_of_sight(GridPos::new(30, 4), GridPos::new(2, 4), &end));
}

#[test]
fn route_found_with_more_walls_is_found_with_fewer() {
    let checkpoints = standard_checkpoints();
    let mut more = CellSet::new();
    for row in 0..60 {
        more.insert(GridPos::new(50, row));
    }
    assert!(find_complete_path(&more, &checkpoints).is_some());
    let mut fewer = CellSet::new();
    for row in 0..30 {
        fewer.insert(GridPos::new(50, row));
    }
    assert!(find_complete_path(&fewer, &checkpoints).is_some());
    assert!(find_complete_path(&CellSet::new(), &checkpoints).is_some());
}

#[test]
fn search_breaks_ties_by_column_then_row() {
    let empty = CellSet::new();
    let p = |c: i32, r: i32| GridPos::new(c, r);
    assert_eq!(find_path_between(p(0, 0), p(2, 1), &empty).unwrap(), vec![p(0, 0), p(1, 0), p(2, 1)]);
    assert_eq!(
        find_path_between(p(0, 0), p(4, 2), &empty).unwrap(),
        vec![p(0, 0), p(1, 0), p(2, 0), p(3, 1), p(4, 2)]
    );
    let mut walls = CellSet::new();
    for c in 4..=6 {
        walls.insert(p(c, 7));
    }
    assert_eq!(
        find_path_between(p(5, 5), p(5, 9), &walls).unwrap(),
        vec![p(5, 5), p(4, 6), p(3, 6), p(3, 7), p(3, 8), p(4, 8), p(5, 9)]
    );
}

#[test]
fn route_through_a_cell_off_the_board_is_cut_off() {
    let empty = CellSet::new();
    assert!(find_complete_path(&empty, &vec![GridPos::new(30, 30), GridPos::new(200, 30)]).is_none());
    assert!(find_complete_path(&empty, &vec![GridPos::new(-3, 5)]).is_none());
    assert!(find_complete_path(&empty, &vec![GridPos::new(30, 30)]).is_some());
}
