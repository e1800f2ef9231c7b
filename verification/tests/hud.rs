use geode_td::board::Board;
use geode_td::field::{Field, FieldTower};
use geode_td::game::{AppScreen, Game, Phase};
use geode_td::gem::{GemGrade, GemKind};
use geode_td::grid::GridPos;
use geode_td::hud::{
    upgrade_highlights, Halo, grade_ladder_text, hud_prompt, hud_text, range_button_label, special_recipe_is_available, speed_text,
    top_bar_text, upgrade_is_available,
};
use geode_td::protocol::GameMode;
use geode_td::recipe::special_recipe_for_source;
use geode_td::special::SpecialGem;
use geode_td::tower::tower_for_grade;

fn field() -> Field {
    Field::from_board(Board::for_mode_seeded(GameMode::Standard, 0))
}

fn add_tower(field: &mut Field, pos: GridPos, gem: GemKind, grade: GemGrade, starter: bool) -> u64 {
    let id = field.next_id;
    field.next_id += 1;
    field.board.towers.push((pos, id));
    field.towers.push(FieldTower { id, pos, tower: tower_for_grade(gem, grade), starter });
    id
}

#[test]
fn ladder_and_bars() {
    assert_eq!(grade_ladder_text(), "Chipped > Flawed > Regular > Cut > Perfect");
    let mut game = Game::with_seed(0);
    assert_eq!(top_bar_text(&game), "Wave 1        Lives 20        Gold 0");
    game.lives = -3;
    game.coins = 17;
    game.round = 12;
    assert_eq!(top_bar_text(&game), "Wave 12        Lives 0        Gold 17");
    assert_eq!(speed_text(2), "2x");
}

#[test]
fn range_label_follows_shown_rings() {
    let mut game = Game::with_seed(0);
    assert_eq!(range_button_label(&game), "Show Range");
    game.selected_tower = Some(5);
    assert_eq!(range_button_label(&game), "Show Range");
    game.toggle_aura_range(5);
    assert_eq!(range_button_label(&game), "Hide Range");
}

#[test]
fn hud_prompts_and_text() {
    let mut game = Game::with_seed(0);
    assert_eq!(hud_prompt(&game), "      Place all five starters");
    assert_eq!(
        hud_text(&game, 7),
        "Mode: Standard      Round: 1      Phase: Build\nLives: 20      Gold: 0      Path: 7\n\
         Place all five chipped gems, then choose one to keep.      Place all five starters\n\
         Grades: Chipped > Flawed > Regular > Cut > Perfect"
    );
    game.phase = Phase::Countdown;
    game.countdown_milli = 2460;
    assert_eq!(hud_prompt(&game), "");
    assert!(hud_text(&game, 7).starts_with("Mode: Standard      Round: 1      Phase: Countdown      Starts in: 2.5\n"));
    game.phase = Phase::Build;
    game.keep_candidate = Some(3);
    assert_eq!(hud_prompt(&game), "      Press Confirm to keep, or pick another starter");
    game.upgrade_source = Some(3);
    assert_eq!(hud_prompt(&game), "      Upgrade: click a matching duplicate to sacrifice");
}

#[test]
fn upgrade_button_availability() {
    let mut game = Game::with_seed(0);
    let mut f = field();
    assert!(!upgrade_is_available(&game, &f));
    let a = add_tower(&mut f, GridPos::new(10, 10), GemKind::Ruby, GemGrade::Chipped, false);
    game.selected_tower = Some(a);
    assert!(!upgrade_is_available(&game, &f));
    let starter = add_tower(&mut f, GridPos::new(11, 10), GemKind::Ruby, GemGrade::Chipped, true);
    assert!(!upgrade_is_available(&game, &f));
    f.towers.iter_mut().find(|t| t.id == starter).unwrap().starter = false;
    assert!(upgrade_is_available(&game, &f));

    let src = add_tower(&mut f, GridPos::new(20, 10), GemKind::Opal, GemGrade::Chipped, false);
    game.selected_tower = Some(src);
    assert!(!upgrade_is_available(&game, &f));
    add_tower(&mut f, GridPos::new(21, 10), GemKind::Emerald, GemGrade::Chipped, false);
    add_tower(&mut f, GridPos::new(22, 10), GemKind::Aquamarine, GemGrade::Chipped, false);
    assert!(upgrade_is_available(&game, &f));
    let recipe = special_recipe_for_source(GemKind::Opal, GemGrade::Chipped).unwrap();
    assert!(special_recipe_is_available(src, &recipe, &f));

    let special = add_tower(&mut f, GridPos::new(30, 10), GemKind::Opal, GemGrade::Perfect, false);
    f.towers.iter_mut().find(|t| t.id == special).unwrap().tower.become_special(SpecialGem::BlackOpal);
    game.selected_tower = Some(special);
    game.coins = 249;
    assert!(!upgrade_is_available(&game, &f));
    game.coins = 250;
    assert!(upgrade_is_available(&game, &f));
}

#[test]
fn halos_follow_the_selection() {
    let mut game = Game::with_seed(0);
    let mut f = field();
    let a = add_tower(&mut f, GridPos::new(10, 10), GemKind::Ruby, GemGrade::Chipped, false);
    let b = add_tower(&mut f, GridPos::new(11, 10), GemKind::Ruby, GemGrade::Chipped, false);
    let c = add_tower(&mut f, GridPos::new(12, 10), GemKind::Ruby, GemGrade::Chipped, true);
    let d = add_tower(&mut f, GridPos::new(13, 10), GemKind::Ruby, GemGrade::Flawed, false);
    let e = add_tower(&mut f, GridPos::new(14, 10), GemKind::Ruby, GemGrade::Chipped, false);
    game.selected_tower = Some(a);
    assert!(upgrade_highlights(&game, &f).is_empty());
    game.screen = AppScreen::Playing;
    assert_eq!(upgrade_highlights(&game, &f), vec![(a, Halo::Inspected)]);
    game.keep_candidate = Some(c);
    assert_eq!(upgrade_highlights(&game, &f), vec![(c, Halo::KeepCandidate)]);
    game.upgrade_source = Some(a);
    assert_eq!(upgrade_highlights(&game, &f), vec![(b, Halo::Sacrifice), (e, Halo::Sacrifice)]);
    let _ = d;
    game.upgrade_source = Some(999);
    assert!(upgrade_highlights(&game, &f).is_empty());
}
