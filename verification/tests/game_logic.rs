use snek::entities::{Food, Snake};
use snek::enums::{Direction, GameState};
use snek::game::Game;
use snek::tick::tick;

const SCREEN: (u32, u32) = (500, 550);
const BOUNDS: (i64, i64) = (500, 550);

fn head_of(snake: &Snake) -> (i64, i64) {
    snake.get_segments()[0].position
}

fn body_of(snake: &Snake) -> Vec<(i64, i64)> {
    snake.get_segments()[1..].iter().map(|b| b.position).collect()
}

#[test]
fn opposite_pairs() {
    assert!(Direction::Up.is_opposite(Direction::Down));
    assert!(Direction::Down.is_opposite(Direction::Up));
    assert!(Direction::Left.is_opposite(Direction::Right));
    assert!(Direction::Right.is_opposite(Direction::Left));
    assert!(!Direction::Up.is_opposite(Direction::Left));
    assert!(!Direction::Up.is_opposite(Direction::Up));
    assert!(!Direction::Right.is_opposite(Direction::Down));
}

#[test]
fn reversal_request_is_dropped() {
    let mut snake = Snake::default();
    assert_eq!(snake.direction, Direction::Right);
    snake.update_direction(Direction::Left);
    assert_eq!(snake.direction, Direction::Right);
    snake.update_direction(Direction::Up);
    assert_eq!(snake.direction, Direction::Up);
    snake.update_direction(Direction::Down);
    assert_eq!(snake.direction, Direction::Up);
    snake.update_direction(Direction::Left);
    assert_eq!(snake.direction, Direction::Left);
}

#[test]
fn update_moves_head_one_cell_and_shifts_body() {
    let mut snake = Snake::default();
    snake.set_start_pos((100, 100));
    snake.update();
    assert_eq!(head_of(&snake), (125, 100));
    assert_eq!(body_of(&snake)[0], (100, 100));

    let mut snake = Snake::default();
    snake.set_start_pos((100, 100));
    snake.update_direction(Direction::Down);
    snake.update();
    assert_eq!(head_of(&snake), (100, 125));

    let mut snake = Snake::default();
    snake.set_start_pos((100, 100));
    snake.update_direction(Direction::Up);
    snake.update();
    assert_eq!(head_of(&snake), (100, 75));

    let mut snake = Snake::default();
    snake.set_start_pos((100, 100));
    snake.update_direction(Direction::Up);
    snake.update_direction(Direction::Left);
    snake.update();
    assert_eq!(head_of(&snake), (75, 100));
}

#[test]
fn body_follows_with_one_tick_lag() {
    let mut snake = Snake::default();
    snake.set_start_pos((100, 100));
    snake.update();
    snake.update();
    // After two moves right: head 150, body trails one and two cells.
    assert_eq!(head_of(&snake), (150, 100));
    assert_eq!(body_of(&snake), vec![(125, 100), (100, 100)]);
}

#[test]
fn body_length_changes_only_via_grow() {
    let mut snake = Snake::default();
    snake.set_start_pos((100, 100));
    let n = body_of(&snake).len();
    snake.update();
    assert_eq!(body_of(&snake).len(), n);
    snake.update_direction(Direction::Down);
    assert_eq!(body_of(&snake).len(), n);
    snake.check_state(&BOUNDS);
    assert_eq!(body_of(&snake).len(), n);
    snake.set_start_pos((200, 200));
    assert_eq!(body_of(&snake).len(), n);
    snake.grow();
    assert_eq!(body_of(&snake).len(), n + 1);
    snake.grow();
    assert_eq!(body_of(&snake).len(), n + 2);
}

#[test]
fn grow_duplicates_the_tail() {
    let mut snake = Snake::default();
    snake.set_start_pos((100, 100));
    snake.update();
    snake.update();
    let tail = *body_of(&snake).last().unwrap();
    snake.grow();
    let body = body_of(&snake);
    assert_eq!(body[body.len() - 1], tail);
    assert_eq!(body[body.len() - 2], tail);
}

#[test]
fn set_start_pos_relocates_head_and_body() {
    let mut snake = Snake::default();
    snake.grow();
    snake.set_start_pos((250, 275));
    for segment in snake.get_segments() {
        assert_eq!(segment.position, (250, 275));
    }
}

#[test]
fn death_is_sticky() {
    let mut snake = Snake::default();
    snake.set_start_pos((0, 100));
    snake.update_direction(Direction::Down);
    snake.update();
    snake.update_direction(Direction::Left);
    snake.update();
    snake.check_state(&BOUNDS);
    assert!(snake.is_dead);
    // Re-checking from a perfectly safe position must not revive it.
    snake.set_start_pos((250, 275));
    snake.check_state(&BOUNDS);
    assert!(snake.is_dead);
}

#[test]
fn left_edge_kills() {
    let mut snake = Snake::default();
    snake.set_start_pos((0, 100));
    snake.update_direction(Direction::Down);
    snake.update();
    snake.update_direction(Direction::Left);
    snake.update();
    // One cell left of the origin.
    assert_eq!(head_of(&snake), (-25, 125));
    snake.check_state(&BOUNDS);
    assert!(snake.is_dead);
}

#[test]
fn header_band_kills() {
    let mut snake = Snake::default();
    snake.set_start_pos((100, 50));
    snake.update_direction(Direction::Up);
    snake.update();
    assert_eq!(head_of(&snake), (100, 25));
    snake.check_state(&BOUNDS);
    assert!(snake.is_dead);
}

#[test]
fn right_edge_kills() {
    let mut snake = Snake::default();
    snake.set_start_pos((475, 100));
    snake.update();
    assert_eq!(head_of(&snake), (500, 100));
    snake.check_state(&BOUNDS);
    assert!(snake.is_dead);
}

#[test]
fn bottom_edge_kills() {
    let mut snake = Snake::default();
    snake.set_start_pos((100, 525));
    snake.update_direction(Direction::Down);
    snake.update();
    assert_eq!(head_of(&snake), (100, 550));
    snake.check_state(&BOUNDS);
    assert!(snake.is_dead);
}

#[test]
fn staying_inside_survives() {
    let mut snake = Snake::default();
    snake.set_start_pos((250, 275));
    snake.update();
    snake.check_state(&BOUNDS);
    assert!(!snake.is_dead);
}

#[test]
fn self_collision_kills() {
    let mut snake = Snake::default();
    snake.set_start_pos((100, 100));
    snake.grow();
    snake.grow();
    assert_eq!(body_of(&snake).len(), 4);
    // A tight clockwise loop brings the head back onto the body.
    snake.update();
    snake.update_direction(Direction::Down);
    snake.update();
    snake.update_direction(Direction::Left);
    snake.update();
    snake.update_direction(Direction::Up);
    snake.update();
    assert_eq!(head_of(&snake), (100, 100));
    assert!(body_of(&snake).contains(&(100, 100)));
    snake.check_state(&BOUNDS);
    assert!(snake.is_dead);
}

#[test]
fn eating_sequence() {
    let mut snake = Snake::default();
    snake.set_start_pos((100, 100));
    let mut food = Food::new((100, 100), 25);
    let mut game = Game::default();

    food.is_eaten(&snake);
    assert!(food.is_eaten);

    let score_before = game.score;
    game.add_score();
    assert_eq!(game.score, score_before + 1);

    let len_before = body_of(&snake).len();
    snake.grow();
    assert_eq!(body_of(&snake).len(), len_before + 1);

    food.update(&SCREEN, Some(&snake));
    assert!(!food.is_eaten);
    let p = food.position();
    assert!(!Food::is_intersecting(&p, &snake.get_segments()));
}

#[test]
fn add_score_counts_single_steps() {
    let mut game = Game::default();
    assert_eq!(game.score, 0);
    game.add_score();
    game.add_score();
    game.add_score();
    assert_eq!(game.score, 3);
}

#[test]
fn update_state_assigns() {
    let mut game = Game::default();
    assert_eq!(game.state, GameState::InGame);
    game.update_state(GameState::GameOver);
    assert_eq!(game.state, GameState::GameOver);
    game.update_state(GameState::Standby);
    assert_eq!(game.state, GameState::Standby);
}

#[test]
fn tick_plain_move() {
    let mut snake = Snake::default();
    snake.set_start_pos((250, 275));
    let mut food = Food::new((0, 50), 25);
    let mut game = Game::default();
    let over = tick(&mut snake, &mut food, &mut game, &SCREEN);
    assert!(!over);
    assert_eq!(head_of(&snake), (275, 275));
    assert_eq!(game.score, 0);
    assert_eq!(game.state, GameState::InGame);
    assert_eq!(food.position(), (0, 50));
    assert!(!food.is_eaten);
}

#[test]
fn tick_eats_and_grows() {
    let mut snake = Snake::default();
    snake.set_start_pos((100, 100));
    let mut food = Food::new((125, 100), 25);
    let mut game = Game::default();
    let over = tick(&mut snake, &mut food, &mut game, &SCREEN);
    assert!(!over);
    assert_eq!(head_of(&snake), (125, 100));
    assert_eq!(game.score, 1);
    assert_eq!(body_of(&snake).len(), 3);
    assert!(!food.is_eaten);
    assert!(!Food::is_intersecting(&food.position(), &snake.get_segments()));
}

#[test]
fn tick_detects_death_and_ends_round() {
    let mut snake = Snake::default();
    snake.set_start_pos((475, 100));
    let mut food = Food::new((0, 50), 25);
    let mut game = Game::default();
    let over = tick(&mut snake, &mut food, &mut game, &SCREEN);
    assert!(over);
    assert!(snake.is_dead);
    assert_eq!(game.state, GameState::GameOver);
    assert_eq!(game.score, 0);
    // Death short-circuits the eat/grow/relocate sequence.
    assert_eq!(food.position(), (0, 50));
    assert_eq!(body_of(&snake).len(), 2);
}

#[test]
fn tick_sequence_round_trip() {
    let mut snake = Snake::default();
    snake.set_start_pos((250, 275));
    let mut food = Food::new((325, 275), 25);
    let mut game = Game::default();
    for _ in 0..3 {
        let over = tick(&mut snake, &mut food, &mut game, &SCREEN);
        assert!(!over);
    }
    assert_eq!(head_of(&snake), (325, 275));
    assert_eq!(game.score, 1);
    assert_eq!(body_of(&snake).len(), 3);
}
