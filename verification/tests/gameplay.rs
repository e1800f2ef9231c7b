use geode_td::board::Board;
use geode_td::field::{
    begin_upgrade_selection, cells_within_radius, combine_special, complete_upgrade, keep_starter,
    place_or_select, place_tower, special_damage_boost, upgrade_match_exists, upgrade_special,
    BoardClick, Field, FieldTower,
};
use geode_td::game::{AppScreen, Game, Phase, RoundKind, STARTING_LIVES};
use geode_td::gem::{GemEffect, GemGrade, GemKind};
use geode_td::grid::{finish_pos, start_pos, GridPos};
use geode_td::play::{
    enemy_leaked, handle_speed_click, haste_multiplier_milli, lucky_jade_gold_reward, next_poison_stacks,
    reap_enemies, roll_chance, run_wave, select_offer, update_wave_countdown,
};
use geode_td::protocol::GameMode;
use geode_td::recipe::special_recipe_for_source;
use geode_td::rng::OfferRng;
use geode_td::special::SpecialGem;
use geode_td::tower::tower_for_grade;

fn playing_game(seed: u64) -> Game {
    let mut game = Game::with_seed(seed);
    game.screen = AppScreen::Playing;
    game
}

fn standard_field() -> Field {
    Field::from_board(Board::for_mode_seeded(GameMode::Standard, 0))
}

/// Puts a kept (non-starter) tower on the field directly.
fn add_kept(field: &mut Field, pos: GridPos, gem: GemKind, grade: GemGrade) -> u64 {
    let id = field.next_id;
    field.next_id += 1;
    field.board.towers.push((pos, id));
    field.towers.push(FieldTower { id, pos, tower: tower_for_grade(gem, grade), starter: false });
    id
}

fn place_slot(game: &mut Game, field: &mut Field, slot: usize, pos: GridPos) -> Option<u64> {
    select_offer(game, slot);
    place_tower(game, field, pos)
}

#[test]
fn new_game_defaults() {
    let game = Game::with_seed(0);
    assert_eq!(game.screen, AppScreen::Home);
    assert_eq!(game.phase, Phase::Build);
    assert_eq!(game.round, 1);
    assert_eq!(game.lives, STARTING_LIVES);
    assert_eq!(game.coins, 0);
    assert_eq!(game.speed, 1);
    assert_eq!(game.message, "Place all five chipped gems, then choose one to keep.");
    assert_eq!(game.offers[0], Some(GemKind::Topaz));
}

#[test]
fn placement_needs_a_selected_gem() {
    let mut game = playing_game(0);
    let mut field = standard_field();
    assert_eq!(place_tower(&mut game, &mut field, GridPos::new(10, 10)), None);
    assert_eq!(game.message, "Select a chipped gem before placing a tower.");
    assert!(field.towers.is_empty());
}

#[test]
fn placement_refuses_protected_cells() {
    let mut game = playing_game(0);
    let mut field = standard_field();
    select_offer(&mut game, 0);
    for cell in [start_pos(), finish_pos(), GridPos::new(24, 12)] {
        assert_eq!(place_tower(&mut game, &mut field, cell), None);
        assert_eq!(game.message, "Start, checkpoints, and finish stay open; build around them to shape the path.");
    }
    assert!(field.towers.is_empty());
}

#[test]
fn placement_places_chipped_starters() {
    let mut game = playing_game(0);
    let mut field = standard_field();
    let id = place_slot(&mut game, &mut field, 0, GridPos::new(10, 10)).expect("placed");
    assert_eq!(id, 1);
    assert_eq!(game.message, "Placed starter 1 of 5. Select and place the next chipped gem.");
    assert_eq!(game.placed_starters[0], Some(1));
    assert_eq!(game.offers[0], None);
    assert_eq!(game.selected_offer, None);
    assert_eq!(game.selected_tower, Some(1));
    assert_eq!(field.towers[0].tower.gem, GemKind::Topaz);
    assert_eq!(field.towers[0].tower.grade, GemGrade::Chipped);
    assert!(field.towers[0].starter);
    assert_eq!(field.board.towers, vec![(GridPos::new(10, 10), 1)]);
    // the same slot cannot be selected again
    select_offer(&mut game, 0);
    assert_eq!(game.selected_offer, None);
}

#[test]
fn placement_that_blocks_the_only_route_is_rejected() {
    let mut game = playing_game(0);
    let mut field = standard_field();
    let s = start_pos();
    let ring: Vec<GridPos> = [(1, 0), (-1, 0), (0, 1), (0, -1), (1, 1), (1, -1), (-1, 1), (-1, -1)]
        .iter()
        .map(|(dc, dr)| GridPos::new(s.col + dc, s.row + dr))
        .collect();
    for p in ring.iter().take(7) {
        field.board.walls.insert(*p);
    }
    let before = field.board.path.clone();
    assert_eq!(place_slot(&mut game, &mut field, 0, ring[7]), None);
    assert_eq!(game.message, "That placement would block the checkpoint route.");
    assert!(field.towers.is_empty());
    assert_eq!(field.board.path, before);
}

#[test]
fn five_starters_then_keep_one() {
    let mut game = playing_game(0);
    let mut field = standard_field();
    let cells = [GridPos::new(10, 10), GridPos::new(10, 20), GridPos::new(30, 40), GridPos::new(70, 5), GridPos::new(100, 60)];
    let mut ids = Vec::new();
    for (slot, cell) in cells.iter().enumerate() {
        ids.push(place_slot(&mut game, &mut field, slot, *cell).expect("placed"));
    }
    assert_eq!(game.message, "All five placed. Click one to select, then Confirm (Ctrl+click to keep instantly).");
    assert!(game.all_starters_placed());
    // Ruby (slot 1) is kept
    keep_starter(&mut game, &mut field, ids[1]);
    assert_eq!(game.phase, Phase::Countdown);
    assert_eq!(game.message, "Kept a Chipped Ruby. Wave starts in 3 seconds.");
    assert_eq!(game.selected_tower, Some(ids[1]));
    assert_eq!(field.towers.len(), 1);
    assert_eq!(field.towers[0].id, ids[1]);
    assert!(!field.towers[0].starter);
    assert_eq!(field.board.towers, vec![(cells[1], ids[1])]);
    for (k, cell) in cells.iter().enumerate() {
        assert_eq!(field.board.walls.contains(*cell), k != 1);
    }
    assert!(game.offers.iter().all(|o| o.is_none()));
}

#[test]
fn instant_keep_by_click() {
    let mut game = playing_game(0);
    let mut field = standard_field();
    let cells = [GridPos::new(10, 10), GridPos::new(10, 20), GridPos::new(30, 40), GridPos::new(70, 5), GridPos::new(100, 60)];
    let mut ids = Vec::new();
    for (slot, cell) in cells.iter().enumerate() {
        ids.push(place_slot(&mut game, &mut field, slot, *cell).expect("placed"));
    }
    place_or_select(&mut game, &mut field, BoardClick { tower: Some(ids[3]), cell: Some(cells[3]), instant_keep: false });
    assert_eq!(game.keep_candidate, Some(ids[3]));
    assert_eq!(game.phase, Phase::Build);
    place_or_select(&mut game, &mut field, BoardClick { tower: Some(ids[3]), cell: Some(cells[3]), instant_keep: true });
    assert_eq!(game.phase, Phase::Countdown);
    assert_eq!(field.towers.len(), 1);
    assert_eq!(field.towers[0].tower.gem, GemKind::Opal);
}

#[test]
fn click_on_empty_cell_places() {
    let mut game = playing_game(0);
    let mut field = standard_field();
    select_offer(&mut game, 2);
    place_or_select(&mut game, &mut field, BoardClick { tower: None, cell: Some(GridPos::new(50, 50)), instant_keep: false });
    assert_eq!(field.towers.len(), 1);
    assert_eq!(field.towers[0].tower.gem, GemKind::Sapphire);
}

#[test]
fn duplicate_upgrade_moves_up_one_grade() {
    let mut game = playing_game(0);
    let mut field = standard_field();
    let a = add_kept(&mut field, GridPos::new(10, 10), GemKind::Ruby, GemGrade::Chipped);
    let b = add_kept(&mut field, GridPos::new(12, 10), GemKind::Ruby, GemGrade::Chipped);
    let c = add_kept(&mut field, GridPos::new(14, 10), GemKind::Topaz, GemGrade::Chipped);
    assert!(upgrade_match_exists(&field, a, GemKind::Ruby, GemGrade::Chipped));
    assert!(!upgrade_match_exists(&field, c, GemKind::Topaz, GemGrade::Chipped));
    game.selected_tower = Some(c);
    begin_upgrade_selection(&mut game, &field);
    assert_eq!(game.message, "Need another placed Chipped Topaz to upgrade.");
    assert_eq!(game.upgrade_source, None);
    game.selected_tower = Some(a);
    begin_upgrade_selection(&mut game, &field);
    assert_eq!(game.upgrade_source, Some(a));
    assert_eq!(game.message, "Click a highlighted Chipped Ruby to sacrifice.");
    complete_upgrade(&mut game, &mut field, a);
    assert_eq!(game.message, "Pick a different matching tower to sacrifice.");
    complete_upgrade(&mut game, &mut field, c);
    assert_eq!(game.message, "Upgrade needs another Chipped Ruby.");
    complete_upgrade(&mut game, &mut field, b);
    assert_eq!(game.message, "Upgraded to Flawed Ruby.");
    assert_eq!(game.upgrade_source, None);
    assert_eq!(field.towers.len(), 2);
    let ta = field.towers.iter().find(|t| t.id == a).unwrap();
    assert_eq!(ta.tower.grade, GemGrade::Flawed);
    assert!(field.towers.iter().all(|t| t.id != b));
    assert!(field.board.walls.contains(GridPos::new(12, 10)));
}

#[test]
fn combine_recipe_into_special() {
    let mut game = playing_game(0);
    let mut field = standard_field();
    let src = add_kept(&mut field, GridPos::new(10, 10), GemKind::Opal, GemGrade::Chipped);
    let recipe = special_recipe_for_source(GemKind::Opal, GemGrade::Chipped).unwrap();
    combine_special(&mut game, &mut field, src, recipe);
    assert_eq!(game.message, "Malachite needs Chipped Opal, Chipped Emerald, Chipped Aquamarine.");
    let e = add_kept(&mut field, GridPos::new(20, 10), GemKind::Emerald, GemGrade::Chipped);
    let q = add_kept(&mut field, GridPos::new(30, 10), GemKind::Aquamarine, GemGrade::Chipped);
    let recipe = special_recipe_for_source(GemKind::Opal, GemGrade::Chipped).unwrap();
    combine_special(&mut game, &mut field, src, recipe);
    assert_eq!(game.message, "Combined Chipped Opal, Chipped Emerald, Chipped Aquamarine into Malachite.");
    assert_eq!(field.towers.len(), 1);
    assert_eq!(field.towers[0].tower.special, Some(SpecialGem::Malachite));
    assert!(field.board.walls.contains(GridPos::new(20, 10)));
    assert!(field.board.walls.contains(GridPos::new(30, 10)));
    assert!(field.towers.iter().all(|t| t.id != e && t.id != q));
}

#[test]
fn special_upgrade_costs_gold_and_boosts_neighbours() {
    let mut game = playing_game(0);
    let mut field = standard_field();
    let src = add_kept(&mut field, GridPos::new(10, 10), GemKind::Opal, GemGrade::Perfect);
    field.towers[0].tower.become_special(SpecialGem::BlackOpal);
    let near = add_kept(&mut field, GridPos::new(12, 10), GemKind::Ruby, GemGrade::Chipped);
    let far = add_kept(&mut field, GridPos::new(40, 40), GemKind::Ruby, GemGrade::Chipped);
    upgrade_special(&mut game, &mut field, src, SpecialGem::BlackOpal);
    assert_eq!(game.message, "Need 250 gold to upgrade Black Opal.");
    game.coins = 300;
    upgrade_special(&mut game, &mut field, src, SpecialGem::BlackOpal);
    assert_eq!(game.coins, 50);
    assert_eq!(game.message, "Upgraded to Mystic Black Opal. Boosted 1 existing tower by 40%.");
    let t_near = field.towers.iter().find(|t| t.id == near).unwrap();
    assert_eq!(t_near.tower.damage_milli, 24000 * 14 / 10);
    assert!(t_near.tower.black_opal_boosted);
    let t_far = field.towers.iter().find(|t| t.id == far).unwrap();
    assert_eq!(t_far.tower.damage_milli, 24000);
    let t_src = field.towers.iter().find(|t| t.id == src).unwrap();
    assert_eq!(t_src.tower.special, Some(SpecialGem::MysticBlackOpal));
    upgrade_special(&mut game, &mut field, src, SpecialGem::MysticBlackOpal);
    assert_eq!(game.message, "Mystic Black Opal has no further upgrade.");
}

#[test]
fn boost_radius_in_cells() {
    assert!(cells_within_radius(GridPos::new(0, 0), GridPos::new(6, 0), 256500));
    assert!(!cells_within_radius(GridPos::new(0, 0), GridPos::new(7, 0), 256500));
    assert!(cells_within_radius(GridPos::new(3, 3), GridPos::new(3, 3), 0));
    assert_eq!(
        special_damage_boost(GemEffect::DamageBoost { damage_bonus_milli: 400, range_milli: 256500 }),
        Some((400, 256500))
    );
    assert_eq!(special_damage_boost(GemEffect::NoEffect), None);
}

#[test]
fn countdown_then_wave_then_next_round() {
    let mut game = playing_game(0);
    game.phase = Phase::Countdown;
    game.countdown_milli = 3000;
    update_wave_countdown(&mut game, 500);
    assert_eq!(game.countdown_milli, 2500);
    assert_eq!(game.message, "Wave starts in 2.5 seconds.");
    assert_eq!(game.phase, Phase::Countdown);
    game.speed = 2;
    update_wave_countdown(&mut game, 1000);
    assert_eq!(game.countdown_milli, 500);
    assert_eq!(game.message, "Wave starts in 0.5 seconds.");
    update_wave_countdown(&mut game, 499);
    assert_eq!(game.phase, Phase::Wave);
    assert_eq!(game.pending_enemies, 5);
    assert_eq!(game.message, "Wave 1 is moving through the checkpoints.");
    let mut spawned = 0;
    for _ in 0..5 {
        let s = run_wave(&mut game, true, true).expect("spawn");
        assert_eq!(s.kind, RoundKind::Normal);
        spawned += 1;
    }
    assert_eq!(spawned, 5);
    assert_eq!(game.pending_enemies, 0);
    assert_eq!(game.phase, Phase::Wave);
    assert!(run_wave(&mut game, true, true).is_none());
    assert_eq!(game.phase, Phase::Wave);
    assert!(run_wave(&mut game, false, false).is_none());
    assert_eq!(game.phase, Phase::Build);
    assert_eq!(game.round, 2);
    assert_eq!(game.message, "Round 2: place all five chipped gems, then choose one to keep.");
    assert!(game.offers.iter().all(|o| o.is_some()));
}

#[test]
fn paused_game_ignores_frames() {
    let mut game = playing_game(0);
    game.phase = Phase::Countdown;
    game.paused = true;
    update_wave_countdown(&mut game, 10_000);
    assert_eq!(game.phase, Phase::Countdown);
    assert!(!reap_enemies(&mut game, 3));
    assert_eq!(game.coins, 0);
}

#[test]
fn kills_pay_one_coin_each_and_leaks_cost_lives() {
    let mut game = playing_game(0);
    assert!(reap_enemies(&mut game, 3));
    assert_eq!(game.coins, 3);
    enemy_leaked(&mut game);
    assert_eq!(game.lives, STARTING_LIVES - 1);
}

#[test]
fn speed_cycles_one_two_three() {
    let mut game = playing_game(0);
    handle_speed_click(&mut game);
    assert_eq!(game.speed, 2);
    handle_speed_click(&mut game);
    assert_eq!(game.speed, 3);
    handle_speed_click(&mut game);
    assert_eq!(game.speed, 1);
}

#[test]
fn aura_toggle_twice_restores() {
    let mut game = playing_game(0);
    game.toggle_aura_range(9);
    assert_eq!(game.shown_aura_ranges, vec![9]);
    game.toggle_aura_range(9);
    assert!(game.shown_aura_ranges.is_empty());
}

#[test]
fn chance_rolls() {
    let mut rng = OfferRng::new(0);
    // the first draw below 1000 is 106
    let mut same = OfferRng::new(0);
    assert!(!roll_chance(&mut same, 106));
    assert!(roll_chance(&mut rng, 107));
    let mut always = OfferRng::new(5);
    assert!(roll_chance(&mut always, 5000));
    let mut never = OfferRng::new(5);
    assert!(!roll_chance(&mut never, 0));
}

#[test]
fn lucky_jade_and_poison_and_haste() {
    assert_eq!(lucky_jade_gold_reward(1), 1);
    assert_eq!(lucky_jade_gold_reward(9), 4);
    assert_eq!(next_poison_stacks(2, 5), 3);
    assert_eq!(next_poison_stacks(5, 5), 5);
    assert_eq!(haste_multiplier_milli(&vec![]), 1000);
    assert_eq!(haste_multiplier_milli(&vec![200, 350]), 1550);
    assert_eq!(haste_multiplier_milli(&vec![900, 900]), 2500);
}

#[test]
fn mode_reset_clears_the_run() {
    let mut game = playing_game(0);
    game.coins = 40;
    game.round = 6;
    game.reset_for_mode(GameMode::Random);
    assert_eq!(game.mode, GameMode::Random);
    assert_eq!(game.round, 1);
    assert_eq!(game.coins, 0);
    assert_eq!(game.phase, Phase::Build);
    assert_eq!(game.message, "Random mode: place all five chipped gems, then choose one to keep.");
}

#[test]
fn keeping_starts_a_three_second_countdown() {
    let mut game = playing_game(0);
    let mut field = standard_field();
    let cells = [GridPos::new(10, 10), GridPos::new(10, 20), GridPos::new(30, 40), GridPos::new(70, 5), GridPos::new(100, 60)];
    let mut ids = Vec::new();
    for (slot, cell) in cells.iter().enumerate() {
        ids.push(place_slot(&mut game, &mut field, slot, *cell).expect("placed"));
    }
    keep_starter(&mut game, &mut field, ids[0]);
    assert_eq!(game.phase, Phase::Countdown);
    assert_eq!(game.countdown_milli, 3000);
    update_wave_countdown(&mut game, 2999);
    assert_eq!(game.phase, Phase::Countdown);
    assert_eq!(game.message, "Wave starts in 0.0 seconds.");
    update_wave_countdown(&mut game, 1);
    assert_eq!(game.phase, Phase::Wave);
}

#[test]
fn a_second_opal_upgrade_does_not_boost_twice() {
    let mut game = playing_game(0);
    let mut field = standard_field();
    let first = add_kept(&mut field, GridPos::new(10, 10), GemKind::Opal, GemGrade::Perfect);
    field.towers[0].tower.become_special(SpecialGem::BlackOpal);
    let second = add_kept(&mut field, GridPos::new(14, 10), GemKind::Opal, GemGrade::Perfect);
    field.towers[1].tower.become_special(SpecialGem::BlackOpal);
    let near = add_kept(&mut field, GridPos::new(12, 10), GemKind::Ruby, GemGrade::Chipped);
    game.coins = 600;
    upgrade_special(&mut game, &mut field, first, SpecialGem::BlackOpal);
    let once = field.towers.iter().find(|t| t.id == near).unwrap().tower.damage_milli;
    assert_eq!(once, 24000 * 14 / 10);
    upgrade_special(&mut game, &mut field, second, SpecialGem::BlackOpal);
    assert_eq!(game.coins, 100);
    assert_eq!(field.towers.iter().find(|t| t.id == near).unwrap().tower.damage_milli, once);
}
