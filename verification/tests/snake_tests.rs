use snake_game::pos::Pos;
use snake_game::snake::{direction_from_index, Direction, Snake};

fn straight_snake() -> Snake {
    Snake {
        body: vec![
            Pos { x: 40, y: 0 },
            Pos { x: 30, y: 0 },
            Pos { x: 20, y: 0 },
        ],
        direction: Direction::Right,
        speed: 10,
    }
}

#[test]
fn advance_translates_every_segment() {
    let mut s = straight_snake();
    s.advance();
    assert_eq!(s.body.len(), 3);
    assert_eq!(s.body[0], Pos { x: 50, y: 0 });
    assert_eq!(s.body[1], Pos { x: 40, y: 0 });
    assert_eq!(s.body[2], Pos { x: 30, y: 0 });
}

#[test]
fn advance_each_direction() {
    for (direction, expected) in [
        (Direction::Up, Pos { x: 100, y: 90 }),
        (Direction::Down, Pos { x: 100, y: 110 }),
        (Direction::Left, Pos { x: 90, y: 100 }),
        (Direction::Right, Pos { x: 110, y: 100 }),
    ] {
        let mut s = Snake {
            body: vec![Pos { x: 100, y: 100 }],
            direction,
            speed: 10,
        };
        s.advance();
        assert_eq!(s.body, vec![expected]);
    }
}

#[test]
fn opposite_direction_is_rejected() {
    for (current, opposite) in [
        (Direction::Up, Direction::Down),
        (Direction::Down, Direction::Up),
        (Direction::Left, Direction::Right),
        (Direction::Right, Direction::Left),
    ] {
        let mut s = Snake {
            body: vec![Pos { x: 0, y: 0 }],
            direction: current,
            speed: 10,
        };
        s.change_direction(opposite);
        assert_eq!(s.direction, current);
    }
}

#[test]
fn perpendicular_direction_is_accepted() {
    let mut s = straight_snake();
    s.change_direction(Direction::Up);
    assert_eq!(s.direction, Direction::Up);
    s.change_direction(Direction::Left);
    assert_eq!(s.direction, Direction::Left);
    s.change_direction(Direction::Left);
    assert_eq!(s.direction, Direction::Left);
}

#[test]
fn grow_then_advance_adds_one_segment() {
    let mut grown = straight_snake();
    let mut plain = straight_snake();
    grown.grow();
    grown.advance();
    plain.advance();
    assert_eq!(grown.body.len(), plain.body.len() + 1);
    assert_eq!(grown.body.len(), 4);
    assert_eq!(grown.body[3], Pos { x: 20, y: 0 });
}

#[test]
fn self_collision_detected() {
    let s = Snake {
        body: vec![
            Pos { x: 10, y: 0 },
            Pos { x: 0, y: 0 },
            Pos { x: 10, y: 0 },
        ],
        direction: Direction::Right,
        speed: 10,
    };
    assert!(s.is_colliding_with_self());
    let t = straight_snake();
    assert!(!t.is_colliding_with_self());
}

#[test]
fn self_collision_resets_snake_on_update() {
    let mut s = Snake {
        body: vec![
            Pos { x: 0, y: 0 },
            Pos { x: 10, y: 0 },
            Pos { x: 20, y: 0 },
        ],
        direction: Direction::Right,
        speed: 10,
    };
    s.update();
    assert_eq!(s.body, vec![Pos { x: 0, y: 0 }]);
    assert_eq!(s.speed, 10);
}

#[test]
fn update_without_collision_is_plain_advance() {
    let mut s = straight_snake();
    s.update();
    assert_eq!(
        s.body,
        vec![
            Pos { x: 50, y: 0 },
            Pos { x: 40, y: 0 },
            Pos { x: 30, y: 0 },
        ]
    );
    assert_eq!(s.direction, Direction::Right);
}

#[test]
fn direction_from_index_maps_all_indices() {
    assert_eq!(direction_from_index(0), Direction::Up);
    assert_eq!(direction_from_index(1), Direction::Down);
    assert_eq!(direction_from_index(2), Direction::Left);
    assert_eq!(direction_from_index(3), Direction::Right);
    assert_eq!(direction_from_index(17), Direction::Right);
}

#[test]
fn random_snake_starts_inside_grid() {
    for _ in 0..50 {
        let s = Snake::new(200, 100, 10);
        assert_eq!(s.body.len(), 1);
        assert!(s.body[0].x >= 0 && s.body[0].x < 200);
        assert!(s.body[0].y >= 0 && s.body[0].y < 100);
        assert_eq!(s.speed, 10);
    }
}
