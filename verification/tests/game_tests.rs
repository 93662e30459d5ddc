use snake_game::food::Food;
use snake_game::game::Game;
use snake_game::pos::Pos;
use snake_game::snake::{Direction, Snake};

fn game_with(snake: Snake, food: Vec<Food>, score: i64) -> Game {
    Game {
        snake,
        food,
        size: 20,
        score,
        width: 400,
        height: 400,
    }
}

fn one_segment(x: i64, y: i64, direction: Direction) -> Snake {
    Snake {
        body: vec![Pos { x, y }],
        direction,
        speed: 10,
    }
}

#[test]
fn consumption_replaces_food_and_increments_score() {
    let snake = one_segment(100, 100, Direction::Right);
    let food = vec![Food { position: Pos { x: 100, y: 100 } }];
    let mut game = game_with(snake, food, 5);
    game.update();
    // Head moved to (110, 100); the food at (100, 100) is within 20 of it.
    assert_eq!(game.score, 6);
    assert_eq!(game.food.len(), 1);
    assert_eq!(game.snake.body.len(), 2);
    assert_eq!(game.snake.body[0], Pos { x: 110, y: 100 });
    // The replacement is grid-aligned and inside the visible area.
    let p = game.food[0].position;
    assert!(p.x >= 0 && p.x <= 400 - 20 && p.x % 20 == 0);
    assert!(p.y >= 0 && p.y <= 400 - 20 && p.y % 20 == 0);
}

#[test]
fn food_out_of_range_is_kept() {
    let snake = one_segment(100, 100, Direction::Right);
    // Head ends at (110, 100); this food sits exactly 20 away: not eaten.
    let food = vec![Food { position: Pos { x: 130, y: 100 } }];
    let mut game = game_with(snake, food, 3);
    game.update();
    assert_eq!(game.score, 3);
    assert_eq!(game.food.len(), 1);
    assert_eq!(game.food[0].position, Pos { x: 130, y: 100 });
    assert_eq!(game.snake.body.len(), 1);
}

#[test]
fn food_count_is_invariant_across_a_tick() {
    let snake = one_segment(100, 100, Direction::Right);
    let food = vec![
        Food { position: Pos { x: 100, y: 100 } },
        Food { position: Pos { x: 120, y: 100 } },
        Food { position: Pos { x: 300, y: 300 } },
    ];
    let mut game = game_with(snake, food, 0);
    game.update();
    // Two items were within range of (110, 100); both replaced, one kept.
    assert_eq!(game.score, 2);
    assert_eq!(game.food.len(), 3);
    assert_eq!(game.food[0].position, Pos { x: 300, y: 300 });
    assert_eq!(game.snake.body.len(), 3);
}

#[test]
fn out_of_bounds_right_resets_game() {
    let snake = one_segment(400, 100, Direction::Right);
    let mut game = game_with(snake, vec![], 7);
    game.update();
    assert_eq!(game.score, 0);
    assert_eq!(game.snake.body.len(), 1);
    assert_eq!(game.food.len(), 100);
    assert_eq!(game.width, 400);
    assert_eq!(game.height, 400);
    let head = game.snake.body[0];
    assert!(head.x >= 0 && head.x <= 400 && head.y >= 0 && head.y <= 400);
}

#[test]
fn out_of_bounds_left_resets_game() {
    let snake = one_segment(0, 100, Direction::Left);
    let mut game = game_with(snake, vec![], 7);
    game.update();
    assert_eq!(game.score, 0);
    assert_eq!(game.snake.body.len(), 1);
    assert_eq!(game.food.len(), 100);
}

#[test]
fn out_of_bounds_up_resets_game() {
    let snake = one_segment(100, 0, Direction::Up);
    let mut game = game_with(snake, vec![], 7);
    game.update();
    assert_eq!(game.score, 0);
    assert_eq!(game.snake.body.len(), 1);
    assert_eq!(game.food.len(), 100);
}

#[test]
fn out_of_bounds_down_resets_game() {
    let snake = one_segment(100, 400, Direction::Down);
    let mut game = game_with(snake, vec![], 7);
    game.update();
    assert_eq!(game.score, 0);
    assert_eq!(game.snake.body.len(), 1);
    assert_eq!(game.food.len(), 100);
}

#[test]
fn head_on_boundary_does_not_reset() {
    // Head ends exactly on the edge: still inside.
    let snake = one_segment(390, 100, Direction::Right);
    let mut game = game_with(snake, vec![], 7);
    game.update();
    assert_eq!(game.score, 7);
    assert_eq!(game.snake.body[0], Pos { x: 400, y: 100 });
}

#[test]
fn straight_run_moves_head_by_ticks_times_speed() {
    let snake = one_segment(40, 60, Direction::Right);
    let mut game = game_with(snake, vec![], 2);
    for _ in 0..20 {
        game.update();
    }
    assert_eq!(game.snake.body, vec![Pos { x: 40 + 20 * 10, y: 60 }]);
    assert_eq!(game.snake.direction, Direction::Right);
    assert_eq!(game.score, 2);
    assert_eq!(game.food.len(), 0);
}

#[test]
fn new_game_has_requested_food_count() {
    let game = Game::new(400, 300, Some(13));
    assert_eq!(game.food.len(), 13);
    assert_eq!(game.score, 0);
    assert_eq!(game.snake.body.len(), 1);
    assert_eq!(game.size, 20);
    assert_eq!(game.width, 400);
    assert_eq!(game.height, 300);
}

#[test]
fn new_game_default_food_count() {
    let game = Game::new(400, 400, None);
    assert_eq!(game.food.len(), 100);
    for f in &game.food {
        assert!(f.position.x >= 0 && f.position.x <= 400 - 20);
        assert!(f.position.y >= 0 && f.position.y <= 400 - 20);
        assert_eq!(f.position.x % 20, 0);
        assert_eq!(f.position.y % 20, 0);
    }
}

#[test]
fn input_direction_flows_through_game() {
    let snake = one_segment(100, 100, Direction::Right);
    let mut game = game_with(snake, vec![], 0);
    game.snake.change_direction(Direction::Left);
    assert_eq!(game.snake.direction, Direction::Right);
    game.snake.change_direction(Direction::Down);
    assert_eq!(game.snake.direction, Direction::Down);
    game.update();
    assert_eq!(game.snake.body[0], Pos { x: 100, y: 110 });
}
