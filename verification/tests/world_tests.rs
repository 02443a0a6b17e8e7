use snake_engine::Direction;
use snake_engine::FixedRandom;
use snake_engine::GameStatus;
use snake_engine::World;

// Toroidal stepping wraps at every edge of a width-5 grid: rightmost cell of
// row 0 wraps to its left end, cell 0 wraps left to 4 and up to 20, and the
// bottom-left cell wraps down to 0.
#[test]
fn wraps_at_every_edge() {
    // reward at 1, no death trial fires
    let mut rng = FixedRandom::new(vec![1, 0]);
    let mut w = World::new(5, 20, 2, &mut rng);
    assert_eq!(w.snake_head_index(), 20);
    assert_eq!(w.gen_next_snake_cell(&Direction::Down).0, 0);
    assert_eq!(w.gen_next_snake_cell(&Direction::Right).0, 21);
    assert_eq!(w.gen_next_snake_cell(&Direction::Left).0, 24);
    assert_eq!(w.gen_next_snake_cell(&Direction::Up).0, 15);

    w.start_game();
    w.change_snake_dir(Direction::Down);
    w.step(&mut rng, 0);
    assert_eq!(w.snake_head_index(), 0);
    assert_eq!(w.gen_next_snake_cell(&Direction::Left).0, 4);
    assert_eq!(w.gen_next_snake_cell(&Direction::Up).0, 20);
    assert_eq!(w.gen_next_snake_cell(&Direction::Right).0, 1);
}

#[test]
fn wraps_at_right_edge_of_first_row() {
    let mut rng = FixedRandom::new(vec![10]);
    let w = World::new(5, 4, 2, &mut rng);
    assert_eq!(w.snake_head_index(), 4);
    assert_eq!(w.gen_next_snake_cell(&Direction::Right).0, 0);
}

// An immediate reversal into the neck is silently discarded: the heading and
// the lookahead stay as they were, so the next step still moves Right.
#[test]
fn reversal_request_is_discarded() {
    let mut rng = FixedRandom::new(vec![24, 0]);
    let mut w = World::new(5, 12, 2, &mut rng);
    w.start_game();
    w.change_snake_dir(Direction::Left);
    w.step(&mut rng, 0);
    assert_eq!(w.snake_head_index(), 13);
    assert_eq!(w.snake_cells().iter().map(|c| c.0).collect::<Vec<_>>(), vec![13, 12]);
}

#[test]
fn committed_direction_change_moves_the_head() {
    let mut rng = FixedRandom::new(vec![24, 0]);
    let mut w = World::new(5, 12, 2, &mut rng);
    w.start_game();
    w.change_snake_dir(Direction::Down);
    w.step(&mut rng, 0);
    assert_eq!(w.snake_head_index(), 17);
}

// Consuming a reward grows the snake by one, scores one point, and the new
// reward is off the whole body.
#[test]
fn reward_grows_snake_and_scores() {
    // reward at 13; fresh reward at 0; death trial does not fire
    let mut rng = FixedRandom::new(vec![13, 0, 0]);
    let mut w = World::new(5, 12, 2, &mut rng);
    assert_eq!(w.reward_cell(), Some(13));
    w.start_game();
    w.step(&mut rng, 0);
    assert_eq!(w.points(), 1);
    assert_eq!(w.snake_length(), 3);
    assert_eq!(w.reward_cell(), Some(0));
    let body: Vec<usize> = w.snake_cells().iter().map(|c| c.0).collect();
    assert_eq!(body, vec![13, 12, 12]);
    assert!(!body.contains(&0));
}

// Filling the whole 2x2 board by eating rewards wins: the status becomes
// Won, the reward disappears, and every further step is a no-op.
#[test]
fn filling_the_board_wins() {
    let mut rng = FixedRandom::new(vec![3, 0, 0, 0, 1, 0]);
    let mut w = World::new(2, 1, 2, &mut rng);
    assert_eq!(w.reward_cell(), Some(3));
    w.start_game();
    w.change_snake_dir(Direction::Down);
    w.step(&mut rng, 0); // eats 3, grows to 3
    assert_eq!(w.points(), 1);
    w.change_snake_dir(Direction::Left);
    w.step(&mut rng, 0); // plain move to 2
    w.change_snake_dir(Direction::Up);
    w.step(&mut rng, 0); // eats 0, grows to 4
    assert_eq!(w.points(), 2);
    w.change_snake_dir(Direction::Right);
    w.step(&mut rng, 0); // eats 1 on the full board
    assert!(matches!(w.game_status(), Some(GameStatus::Won)));
    assert_eq!(w.reward_cell(), None);
    assert_eq!(w.points(), 2);
    assert_eq!(w.snake_length(), 4);
    assert_eq!(w.game_status_text(), "You have Won!");

    let head = w.snake_head_index();
    w.step(&mut rng, 7);
    assert!(matches!(w.game_status(), Some(GameStatus::Won)));
    assert_eq!(w.points(), 2);
    assert_eq!(w.snake_length(), 4);
    assert_eq!(w.reward_cell(), None);
    assert_eq!(w.snake_head_index(), head);
}

// Stepping onto the active death cell loses, and later steps change nothing.
#[test]
fn stepping_onto_death_cell_loses() {
    // reward 24; death trial fires (1), hazard at 14, lifetime 3 + 1
    let mut rng = FixedRandom::new(vec![24, 1, 14, 1]);
    let mut w = World::new(5, 12, 2, &mut rng);
    w.start_game();
    w.step(&mut rng, 0); // move to 13; hazard activates at 14
    assert_eq!(w.death_cell(), Some(14));
    w.step(&mut rng, 1); // move onto 14
    assert!(matches!(w.game_status(), Some(GameStatus::Lost)));
    assert_eq!(w.snake_head_index(), 14);
    assert_eq!(w.game_status_text(), "You have Lost!");

    w.step(&mut rng, 1);
    assert!(matches!(w.game_status(), Some(GameStatus::Lost)));
    assert_eq!(w.points(), 0);
    assert_eq!(w.snake_length(), 2);
    assert_eq!(w.reward_cell(), Some(24));
    assert_eq!(w.death_cell(), Some(14));
    assert_eq!(w.snake_head_index(), 14);
}

// Stepping onto a non-head body segment loses.
#[test]
fn stepping_into_own_body_loses() {
    let mut rng = FixedRandom::new(vec![13, 14, 0, 24, 0, 0, 0]);
    let mut w = World::new(5, 12, 3, &mut rng);
    w.start_game();
    w.step(&mut rng, 0); // eats 13 -> length 4
    w.step(&mut rng, 0); // eats 14 -> length 5
    assert_eq!(w.snake_length(), 5);
    w.change_snake_dir(Direction::Down);
    w.step(&mut rng, 0); // head 19
    w.change_snake_dir(Direction::Left);
    w.step(&mut rng, 0); // head 18
    let points_before = w.points();
    w.change_snake_dir(Direction::Up);
    w.step(&mut rng, 0); // head 13, into the body
    assert!(matches!(w.game_status(), Some(GameStatus::Lost)));
    assert_eq!(w.snake_head_index(), 13);
    assert_eq!(w.points(), points_before);
    assert_eq!(w.snake_length(), 5);
}

// An active hazard survives until the elapsed time accumulated across ticks
// reaches its lifetime, however the time is split.
#[test]
fn death_cell_expires_after_accumulated_lifetime() {
    // reward 24; trial fires; hazard at 0; lifetime 3 + 1 = 4
    let mut rng = FixedRandom::new(vec![24, 1, 0, 1]);
    let mut w = World::new(5, 12, 2, &mut rng);
    w.start_game();
    w.step(&mut rng, 0); // activates the hazard at cell 0
    assert_eq!(w.death_cell(), Some(0));
    w.step(&mut rng, 1); // 1 of 4 units
    assert_eq!(w.death_cell(), Some(0));
    w.step(&mut rng, 1); // 2 of 4 units
    assert_eq!(w.death_cell(), Some(0));
    w.step(&mut rng, 2); // reaches 4 units: expired
    assert_eq!(w.death_cell(), None);
    assert!(matches!(w.game_status(), Some(GameStatus::Played)));
}

#[test]
fn death_cell_expires_in_one_large_tick() {
    let mut rng = FixedRandom::new(vec![24, 1, 0, 1]);
    let mut w = World::new(5, 12, 2, &mut rng);
    w.start_game();
    w.step(&mut rng, 0); // activates the hazard, lifetime 4
    assert_eq!(w.death_cell(), Some(0));
    w.step(&mut rng, 5); // one tick larger than the whole lifetime
    assert_eq!(w.death_cell(), None);
}

#[test]
fn death_cell_survives_short_of_lifetime() {
    // extra draw 0 -> lifetime 3
    let mut rng = FixedRandom::new(vec![24, 1, 0, 0]);
    let mut w = World::new(5, 12, 2, &mut rng);
    w.start_game();
    w.step(&mut rng, 0);
    assert_eq!(w.death_cell(), Some(0));
    w.step(&mut rng, 2); // 2 of 3 units
    assert_eq!(w.death_cell(), Some(0));
    w.step(&mut rng, 1); // 3 of 3 units
    assert_eq!(w.death_cell(), None);
}

// A step before start_game changes nothing.
#[test]
fn step_before_start_is_a_no_op() {
    let mut rng = FixedRandom::new(vec![24]);
    let mut w = World::new(5, 12, 2, &mut rng);
    assert!(w.game_status().is_none());
    w.step(&mut rng, 9);
    assert!(w.game_status().is_none());
    assert_eq!(w.points(), 0);
    assert_eq!(w.snake_length(), 2);
    assert_eq!(w.reward_cell(), Some(24));
    assert_eq!(w.death_cell(), None);
    assert_eq!(w.snake_head_index(), 12);
    assert_eq!(w.game_status_text(), "No Status!");
}

// Construction lays the body out at decreasing indices and places a reward
// off the body.
#[test]
fn construction_layout() {
    // first draw 12 collides with the head, the second is taken
    let mut rng = FixedRandom::new(vec![12, 7]);
    let w = World::new(5, 12, 3, &mut rng);
    assert_eq!(w.width(), 5);
    assert_eq!(w.snake_length(), 3);
    let body: Vec<usize> = w.snake_cells().iter().map(|c| c.0).collect();
    assert_eq!(body, vec![12, 11, 10]);
    assert_eq!(w.reward_cell(), Some(7));
    assert_eq!(w.points(), 0);
    assert!(w.death_cell().is_none());
}

// The hazard placement accepts the reward cell itself: both may coexist on
// one cell, and walking onto it loses (the death check comes first).
#[test]
fn death_cell_may_overlap_the_reward() {
    let mut rng = FixedRandom::new(vec![24, 1, 24, 0]);
    let mut w = World::new(5, 12, 2, &mut rng);
    assert_eq!(w.reward_cell(), Some(24));
    w.start_game();
    w.step(&mut rng, 0); // hazard activates on the reward cell
    assert_eq!(w.death_cell(), Some(24));
    assert_eq!(w.reward_cell(), Some(24));
}

// A fresh reward is never placed on the active death cell: the first draw
// hits it and is rejected, the second is taken.
#[test]
fn fresh_reward_avoids_death_cell() {
    let mut rng = FixedRandom::new(vec![14, 1, 20, 1, 20, 22]);
    let mut w = World::new(5, 12, 2, &mut rng);
    w.start_game();
    w.step(&mut rng, 0); // plain move to 13; hazard activates at 20
    assert_eq!(w.death_cell(), Some(20));
    w.step(&mut rng, 0); // eats 14; draw 20 is rejected, 22 is taken
    assert_eq!(w.points(), 1);
    assert_eq!(w.reward_cell(), Some(22));
    assert_eq!(w.death_cell(), Some(20));
}

// Wrapping still holds on a large grid.
#[test]
fn wraps_on_a_large_grid() {
    let mut rng = FixedRandom::new(vec![5]);
    let w = World::new(1000, 999_999, 2, &mut rng);
    assert_eq!(w.gen_next_snake_cell(&Direction::Right).0, 999_000);
    assert_eq!(w.gen_next_snake_cell(&Direction::Down).0, 999);
    assert_eq!(w.gen_next_snake_cell(&Direction::Left).0, 999_998);
    assert_eq!(w.gen_next_snake_cell(&Direction::Up).0, 998_999);
}

#[test]
fn start_game_sets_playing() {
    let mut rng = FixedRandom::new(vec![24]);
    let mut w = World::new(5, 12, 2, &mut rng);
    w.start_game();
    assert!(matches!(w.game_status(), Some(GameStatus::Played)));
    assert_eq!(w.game_status_text(), "Playing");
}
