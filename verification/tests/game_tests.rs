use snake_game::game::Game;
use snake_game::snake::{Block, Direction};

#[test]
fn new_game_preset() {
    let g = Game::new(20, 20);
    assert!(g.food_exists);
    assert_eq!((g.food_x, g.food_y), (6, 4));
    assert_eq!((g.width, g.height), (20, 20));
    assert!(!g.game_over);
    assert_eq!(g.waiting_time, 0);
    assert_eq!(g.snake.head_position(), (4, 2));
}

#[test]
fn key_pressed_opposite_ignored() {
    let mut g = Game::new(20, 20);
    // heading is Right; Left is its reverse and must be discarded
    g.key_pressed(Some(Direction::Left));
    assert_eq!(g.snake.head_position(), (4, 2));
    assert_eq!(g.snake.head_direction(), Direction::Right);
    // the snake keeps moving right on the next timer step
    g.update(101);
    assert_eq!(g.snake.head_position(), (5, 2));
}

#[test]
fn key_pressed_steps_immediately() {
    let mut g = Game::new(20, 20);
    g.key_pressed(Some(Direction::Right));
    assert_eq!(g.snake.head_position(), (5, 2));
    g.key_pressed(Some(Direction::Down));
    assert_eq!(g.snake.head_position(), (5, 3));
    assert_eq!(g.snake.body.len(), 3);
}

#[test]
fn key_pressed_none_is_ignored() {
    let mut g = Game::new(20, 20);
    g.key_pressed(None);
    assert_eq!(g.snake.head_position(), (4, 2));
    assert_eq!(g.waiting_time, 0);
}

#[test]
fn update_waits_for_moving_period() {
    let mut g = Game::new(20, 20);
    g.update(50);
    assert_eq!(g.snake.head_position(), (4, 2));
    assert_eq!(g.waiting_time, 50);
    g.update(50);
    // exactly the moving period has accumulated: still no step
    assert_eq!(g.snake.head_position(), (4, 2));
    assert_eq!(g.waiting_time, 100);
    g.update(1);
    assert_eq!(g.snake.head_position(), (5, 2));
    assert_eq!(g.waiting_time, 0);
}

#[test]
fn eating_grows_and_clears_food() {
    let mut g = Game::new(20, 20);
    assert!(g.food_exists);
    // steer the head from (4, 2) onto the food at (6, 4)
    g.key_pressed(Some(Direction::Right)); // (5, 2)
    g.key_pressed(Some(Direction::Right)); // (6, 2)
    g.key_pressed(Some(Direction::Down)); // (6, 3)
    assert_eq!(g.snake.body.len(), 3);
    g.key_pressed(Some(Direction::Down)); // (6, 4): eats
    assert_eq!(g.snake.head_position(), (6, 4));
    assert!(!g.food_exists);
    assert_eq!(g.snake.body.len(), 4);
}

#[test]
fn left_wall_collision_then_restart() {
    let mut g = Game::new(20, 20);
    g.key_pressed(Some(Direction::Up)); // (4, 1)
    g.key_pressed(Some(Direction::Left)); // (3, 1)
    g.key_pressed(Some(Direction::Left)); // (2, 1)
    g.key_pressed(Some(Direction::Left)); // (1, 1)
    assert!(!g.game_over);
    // the next step would put the head at x = 0, on the border
    g.key_pressed(Some(Direction::Left));
    assert!(g.game_over);
    assert_eq!(g.snake.head_position(), (1, 1));
    // stays over while accumulated time has not exceeded the restart delay
    g.update(1000);
    assert!(g.game_over);
    g.update(1);
    // restarted: fresh snake at (2, 1), preset food, running again
    assert!(!g.game_over);
    assert_eq!(g.snake.head_position(), (4, 1));
    assert_eq!(
        g.snake.body,
        vec![Block { x: 4, y: 1 }, Block { x: 3, y: 1 }, Block { x: 2, y: 1 }]
    );
    assert!(g.food_exists);
    assert_eq!((g.food_x, g.food_y), (6, 4));
    assert_eq!(g.waiting_time, 0);
}

#[test]
fn game_over_ignores_keys() {
    let mut g = Game::new(20, 20);
    g.key_pressed(Some(Direction::Up)); // (4, 1)
    g.key_pressed(Some(Direction::Up)); // (4, 0) would be the border: fatal
    assert!(g.game_over);
    let head = g.snake.head_position();
    g.key_pressed(Some(Direction::Down));
    assert!(g.game_over);
    assert_eq!(g.snake.head_position(), head);
}

#[test]
fn food_spawns_in_bounds_never_on_snake() {
    let mut g = Game::new(20, 20);
    let mut seen_positions: Vec<(i32, i32)> = Vec::new();
    for _ in 0..1000 {
        g.add_food();
        assert!(g.food_exists);
        assert!(1 <= g.food_x && g.food_x <= 18);
        assert!(1 <= g.food_y && g.food_y <= 18);
        for b in &g.snake.body {
            assert!(!(b.x == g.food_x && b.y == g.food_y));
        }
        if !seen_positions.contains(&(g.food_x, g.food_y)) {
            seen_positions.push((g.food_x, g.food_y));
        }
    }
    // a uniform draw over 324 cells visits more than one position in 1000 tries
    assert!(seen_positions.len() > 1);
}

#[test]
fn update_respawns_missing_food() {
    let mut g = Game::new(20, 20);
    g.key_pressed(Some(Direction::Right)); // (5, 2)
    g.key_pressed(Some(Direction::Right)); // (6, 2)
    g.key_pressed(Some(Direction::Down)); // (6, 3)
    g.key_pressed(Some(Direction::Down)); // (6, 4): eats
    assert!(!g.food_exists);
    g.update(10);
    assert!(g.food_exists);
    assert!(1 <= g.food_x && g.food_x <= 18);
    assert!(1 <= g.food_y && g.food_y <= 18);
}

#[test]
fn minimal_arena_plays() {
    let mut g = Game::new(8, 6);
    g.key_pressed(Some(Direction::Right)); // (5, 2)
    assert!(!g.game_over);
    // x = 6 equals width - 2: still inside
    g.key_pressed(Some(Direction::Right));
    assert_eq!(g.snake.head_position(), (6, 2));
    assert!(!g.game_over);
    // x = 7 would be the border
    g.key_pressed(Some(Direction::Right));
    assert!(g.game_over);
    g.add_food();
    assert!(g.food_exists);
    assert!(1 <= g.food_x && g.food_x <= 6);
    assert!(1 <= g.food_y && g.food_y <= 4);
}
