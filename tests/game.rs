use bevy_prng::WyRand;
use rand_core::SeedableRng;
use snake::cell::CellContents;
use snake::game::{save_score, Game, GameError, TickOutcome};
use snake::position::{Direction, Position};
use snake::score::Score;

fn cell(game: &Game, x: usize, y: usize) -> CellContents {
    *game.grid().get(x, y)
}

/// A round with its first segment placed.
fn round(width: usize, height: usize) -> Game {
    let mut game = Game::new(width, height).unwrap();
    game.spawn_snake();
    game
}

fn count(game: &Game, c: CellContents) -> usize {
    game.grid()
        .enumerate()
        .into_iter()
        .filter(|(_, _, v)| *v == c)
        .count()
}

#[test]
fn too_small_boards_are_rejected() {
    assert_eq!(Game::new(2, 10).err(), Some(GameError::GridTooSmall));
    assert_eq!(Game::new(10, 2).err(), Some(GameError::GridTooSmall));
    assert_eq!(Game::new(0, 0).err(), Some(GameError::GridTooSmall));
    assert!(Game::new(3, 3).is_ok());
}

#[test]
fn fresh_round_has_empty_interior_and_no_body() {
    let game = Game::new(20, 10).unwrap();
    assert!(game.snake().is_empty());
    assert_eq!(game.head(), Position(0, 0));
    assert_eq!(game.max_length(), 5);
    assert_eq!(game.current_direction(), Direction::Right);
    assert_eq!(game.next_direction(), Direction::Right);
    assert_eq!(game.food(), None);
    assert!(!game.is_over());
    assert_eq!(count(&game, CellContents::Snake), 0);
    assert_eq!(count(&game, CellContents::Empty), 18 * 8);
    assert_eq!(count(&game, CellContents::Wall), 2 * 20 + 2 * 8);
}

#[test]
fn smallest_fresh_round_leaves_centre_empty() {
    let game = Game::new(3, 3).unwrap();
    assert_eq!(cell(&game, 1, 1), CellContents::Empty);
    assert_eq!(count(&game, CellContents::Wall), 8);
    assert!(game.snake().is_empty());
}

#[test]
fn spawned_snake_is_one_segment_at_start() {
    let mut game = Game::new(20, 10).unwrap();
    assert_eq!(game.start(), Position(5, 5));
    game.spawn_snake();
    assert_eq!(game.head(), Position(5, 5));
    assert_eq!(game.snake(), vec![Position(5, 5)]);
    assert_eq!(cell(&game, 5, 5), CellContents::Snake);
    assert_eq!(cell(&game, 0, 5), CellContents::Wall);
    assert_eq!(cell(&game, 19, 9), CellContents::Wall);
    assert_eq!(count(&game, CellContents::Snake), 1);
    assert_eq!(game.food(), None);
}

#[test]
fn food_already_on_board_stays_through_a_tick() {
    let mut rng = WyRand::seed_from_u64(11);
    let mut game = round(20, 10);
    assert_eq!(game.try_place_food(10, 6), Some(Position(11, 7)));
    assert_eq!(game.tick(&mut rng), TickOutcome::Continued);
    assert_eq!(game.food(), Some(Position(11, 7)));
    assert_eq!(count(&game, CellContents::Food), 1);
}

#[test]
fn narrow_board_starts_on_last_interior_column() {
    let game = round(4, 5);
    assert_eq!(game.head(), Position(2, 2));
}

#[test]
fn body_grows_to_target_then_keeps_length() {
    let mut game = round(30, 10);
    let mut lengths = Vec::new();
    for _ in 0..10 {
        assert_eq!(game.advance(), TickOutcome::Continued);
        lengths.push(game.snake().len());
    }
    assert_eq!(lengths, vec![2, 3, 4, 5, 6, 6, 6, 6, 6, 6]);
    assert_eq!(game.head(), Position(15, 5));
    assert_eq!(count(&game, CellContents::Snake), 6);
    assert_eq!(cell(&game, 9, 5), CellContents::Empty);
    assert_eq!(cell(&game, 10, 5), CellContents::Snake);
}

#[test]
fn reversal_request_is_dropped() {
    let mut game = round(20, 10);
    game.advance();
    game.advance();
    game.request_direction(Direction::Left);
    assert_eq!(game.next_direction(), Direction::Right);
    assert_eq!(game.advance(), TickOutcome::Continued);
    assert_eq!(game.head(), Position(8, 5));
}

#[test]
fn last_request_before_tick_wins() {
    let mut game = round(20, 10);
    game.request_direction(Direction::Up);
    game.request_direction(Direction::Down);
    assert_eq!(game.next_direction(), Direction::Down);
    assert_eq!(game.current_direction(), Direction::Right);
    assert_eq!(game.advance(), TickOutcome::Continued);
    assert_eq!(game.head(), Position(5, 4));
    assert_eq!(game.current_direction(), Direction::Down);
    game.request_direction(Direction::Up);
    assert_eq!(game.next_direction(), Direction::Down);
}

#[test]
fn running_into_the_wall_ends_the_round() {
    let mut game = round(10, 10);
    for _ in 0..3 {
        assert_eq!(game.advance(), TickOutcome::Continued);
    }
    assert_eq!(game.head(), Position(8, 5));
    let body = game.snake();
    assert_eq!(game.advance(), TickOutcome::GameOver);
    assert!(game.is_over());
    assert_eq!(game.head(), Position(8, 5));
    assert_eq!(game.snake(), body);
    assert_eq!(cell(&game, 9, 5), CellContents::Wall);
    assert_eq!(game.advance(), TickOutcome::GameOver);
    assert_eq!(game.snake(), body);
}

#[test]
fn running_into_the_body_ends_the_round() {
    let mut game = round(20, 10);
    for _ in 0..5 {
        game.advance();
    }
    game.request_direction(Direction::Up);
    assert_eq!(game.advance(), TickOutcome::Continued);
    game.request_direction(Direction::Left);
    assert_eq!(game.advance(), TickOutcome::Continued);
    game.request_direction(Direction::Down);
    assert_eq!(game.advance(), TickOutcome::GameOver);
    assert!(game.is_over());
    assert_eq!(game.head(), Position(9, 6));
    assert_eq!(
        game.snake(),
        vec![Position(8, 5), Position(9, 5), Position(10, 5), Position(10, 6), Position(9, 6)]
    );
    assert_eq!(cell(&game, 7, 5), CellContents::Empty);
    assert_eq!(cell(&game, 9, 5), CellContents::Snake);
    assert_eq!(count(&game, CellContents::Snake), 5);
}

#[test]
fn head_may_enter_the_cell_the_tail_leaves() {
    let mut game = round(20, 10);
    game.advance();
    game.advance();
    game.request_direction(Direction::Up);
    game.advance();
    game.request_direction(Direction::Left);
    game.advance();
    game.advance();
    assert_eq!(
        game.snake(),
        vec![
            Position(5, 5),
            Position(6, 5),
            Position(7, 5),
            Position(7, 6),
            Position(6, 6),
            Position(5, 6)
        ]
    );
    game.request_direction(Direction::Down);
    assert_eq!(game.advance(), TickOutcome::Continued);
    assert_eq!(game.head(), Position(5, 5));
    assert_eq!(cell(&game, 5, 5), CellContents::Snake);
    game.request_direction(Direction::Right);
    assert_eq!(game.advance(), TickOutcome::Continued);
    assert_eq!(game.head(), Position(6, 5));
    assert_eq!(
        game.snake(),
        vec![
            Position(7, 5),
            Position(7, 6),
            Position(6, 6),
            Position(5, 6),
            Position(5, 5),
            Position(6, 5)
        ]
    );
    assert_eq!(count(&game, CellContents::Snake), 6);
}

#[test]
fn draws_pick_the_food_cell() {
    let mut game = round(20, 10);
    assert_eq!(game.try_place_food(5, 4), Some(Position(6, 5)));
    assert_eq!(game.food(), Some(Position(6, 5)));
    assert_eq!(cell(&game, 6, 5), CellContents::Food);
    assert_eq!(count(&game, CellContents::Food), 1);
}

#[test]
fn draws_wrap_into_the_interior() {
    let mut game = round(20, 10);
    assert_eq!(game.try_place_food(18 + 2, 8 * 3), Some(Position(3, 1)));
    let mut other = round(20, 10);
    assert_eq!(other.try_place_food(u64::MAX, u64::MAX), Some(Position(16, 8)));
}

#[test]
fn draw_on_occupied_cell_places_nothing() {
    let mut game = round(20, 10);
    assert_eq!(game.try_place_food(4, 4), None);
    assert_eq!(game.food(), None);
    assert_eq!(count(&game, CellContents::Food), 0);
    assert_eq!(cell(&game, 5, 5), CellContents::Snake);
}

#[test]
fn eating_food_raises_target_once() {
    let mut game = round(20, 10);
    game.try_place_food(6, 4);
    assert_eq!(game.food(), Some(Position(7, 5)));
    assert_eq!(game.advance(), TickOutcome::Continued);
    assert_eq!(game.max_length(), 5);
    assert_eq!(game.advance(), TickOutcome::AteFood);
    assert_eq!(game.max_length(), 10);
    assert_eq!(game.food(), None);
    assert_eq!(cell(&game, 7, 5), CellContents::Snake);
    assert_eq!(count(&game, CellContents::Food), 0);
    assert_eq!(game.advance(), TickOutcome::Continued);
    assert_eq!(game.max_length(), 10);
}

#[test]
fn tick_after_eating_places_new_food() {
    let mut rng = WyRand::seed_from_u64(7);
    let mut game = round(20, 10);
    game.try_place_food(5, 4);
    assert_eq!(game.tick(&mut rng), TickOutcome::AteFood);
    assert_eq!(game.max_length(), 10);
    let food = game.food().expect("food placed");
    assert_ne!(food, Position(6, 5));
    assert!(food.0 >= 1 && food.0 <= 18 && food.1 >= 1 && food.1 <= 8);
    assert_eq!(cell(&game, food.0, food.1), CellContents::Food);
    assert_eq!(count(&game, CellContents::Food), 1);
    assert_eq!(count(&game, CellContents::Snake), 2);
}

#[test]
fn first_tick_places_food() {
    let mut rng = WyRand::seed_from_u64(1);
    let mut game = round(20, 10);
    assert_eq!(game.food(), None);
    let outcome = game.tick(&mut rng);
    assert_ne!(outcome, TickOutcome::GameOver);
    assert!(game.food().is_some());
    assert_eq!(count(&game, CellContents::Food), 1);
}

#[test]
fn placed_food_lands_on_free_interior_cells() {
    for seed in 0..50u64 {
        let mut rng = WyRand::seed_from_u64(seed);
        let mut game = round(8, 6);
        let p = game.place_food(&mut rng).expect("board has room");
        assert!(p.0 >= 1 && p.0 <= 6 && p.1 >= 1 && p.1 <= 4);
        assert_ne!(p, Position(5, 3));
        assert_eq!(cell(&game, p.0, p.1), CellContents::Food);
        assert_eq!(game.food(), Some(p));
        assert_eq!(count(&game, CellContents::Food), 1);
    }
}

#[test]
fn food_goes_to_the_only_free_cell() {
    let mut rng = WyRand::seed_from_u64(3);
    let mut game = round(4, 3);
    assert_eq!(game.head(), Position(2, 1));
    assert_eq!(game.first_empty_interior(), Some(Position(1, 1)));
    assert_eq!(game.place_food(&mut rng), Some(Position(1, 1)));
}

#[test]
fn full_board_gets_no_food() {
    let mut rng = WyRand::seed_from_u64(3);
    let mut game = round(3, 3);
    assert_eq!(game.head(), Position(1, 1));
    assert_eq!(game.first_empty_interior(), None);
    assert_eq!(game.place_food(&mut rng), None);
    assert_eq!(game.food(), None);
    assert_eq!(game.tick(&mut rng), TickOutcome::GameOver);
}

#[test]
fn score_keeps_the_best_round() {
    let mut score = Score { current: 0, best: 10 };
    score.record_round(12);
    assert_eq!(score.current, 12);
    assert_eq!(score.best, 12);
    score.record_round(8);
    assert_eq!(score.current, 8);
    assert_eq!(score.best, 12);
}

#[test]
fn score_starts_at_zero() {
    assert_eq!(Score::new(), Score { current: 0, best: 0 });
    assert_eq!(Score::default(), Score { current: 0, best: 0 });
}

#[test]
fn saving_a_round_uses_its_target_length() {
    let mut score = Score::new();
    let mut game = round(20, 10);
    game.try_place_food(5, 4);
    game.advance();
    for _ in 0..20 {
        if game.advance() == TickOutcome::GameOver {
            break;
        }
    }
    assert!(game.is_over());
    save_score(&mut score, &game);
    assert_eq!(score.current, 10);
    assert_eq!(score.best, 10);
}
