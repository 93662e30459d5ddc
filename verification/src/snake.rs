//! The snake: an ordered body of grid positions and a heading.

use vstd::prelude::*;
use crate::pos::{Pos, PosV, within, within_spec, in_range, in_wide, DIM_LIMIT};
use crate::rng::gen_below;

verus! {

/// One of the four headings the snake can move in.
#[derive(Clone, Copy, PartialEq, Eq, Structural, Debug)]
pub enum Direction {
    Up,
    Down,
    Left,
    Right,
}

impl Direction {
    /// The heading that points the opposite way.
    pub open spec fn opposite_spec(self) -> Direction {
        match self {
            Direction::Up => Direction::Down,
            Direction::Down => Direction::Up,
            Direction::Left => Direction::Right,
            Direction::Right => Direction::Left,
        }
    }
}

/// The heading stored after a change request: the request is honoured
/// unless it is the exact opposite of the current heading.
pub open spec fn direction_after_change(cur: Direction, requested: Direction) -> Direction {
    if requested == cur.opposite_spec() {
        cur
    } else {
        requested
    }
}

/// Law: requesting the opposite of the current heading never changes the
/// stored heading, whichever of the four headings is current.
pub proof fn lemma_opposite_rejected(cur: Direction)
    ensures
        direction_after_change(cur, cur.opposite_spec()) == cur,
{
}

/// How a heading index drawn at random is read: the first four values name
/// the four headings, anything else falls back to `Right`.
pub open spec fn direction_from_index_spec(i: int) -> Direction {
    if i == 0 {
        Direction::Up
    } else if i == 1 {
        Direction::Down
    } else if i == 2 {
        Direction::Left
    } else {
        Direction::Right
    }
}

/// Maps a heading index to its `Direction`.
pub fn direction_from_index(i: i64) -> (d: Direction)
    ensures
        d == direction_from_index_spec(i as int),
{
    if i == 0 {
        Direction::Up
    } else if i == 1 {
        Direction::Down
    } else if i == 2 {
        Direction::Left
    } else {
        Direction::Right
    }
}

/// One movement step applied to a position.
pub open spec fn step_pos(p: PosV, d: Direction, speed: int) -> PosV {
    match d {
        Direction::Up => PosV { x: p.x, y: p.y - speed },
        Direction::Down => PosV { x: p.x, y: p.y + speed },
        Direction::Left => PosV { x: p.x - speed, y: p.y },
        Direction::Right => PosV { x: p.x + speed, y: p.y },
    }
}

/// The body after one movement step: the stepped head is prepended and the
/// tail cell dropped.
pub open spec fn advanced_body(body: Seq<PosV>, d: Direction, speed: int) -> Seq<PosV>
    recommends
        body.len() >= 1,
{
    seq![step_pos(body[0], d, speed)] + body.drop_last()
}

/// The body after growth: the tail segment is duplicated.
pub open spec fn grown_body(body: Seq<PosV>) -> Seq<PosV>
    recommends
        body.len() >= 1,
{
    body.push(body.last())
}

/// The head strictly overlaps some non-head segment (it has come within
/// unit distance of it).
pub open spec fn head_hits_body(body: Seq<PosV>) -> bool {
    exists|i: int| 1 <= i < body.len() && within_spec(body[0], body[i], 1)
}

/// Mathematical model of a snake.
#[verifier::ext_equal]
pub ghost struct SnakeV {
    pub body: Seq<PosV>,
    pub direction: Direction,
    pub speed: int,
}

/// The snake: its body (head first), heading, and per-step distance.
pub struct Snake {
    pub body: Vec<Pos>,
    pub direction: Direction,
    pub speed: i64,
}

impl View for Snake {
    type V = SnakeV;

    open spec fn view(&self) -> SnakeV {
        SnakeV {
            body: self.body@.map_values(|p: Pos| p@),
            direction: self.direction,
            speed: self.speed as int,
        }
    }
}

impl Snake {
    /// The body is never empty and the speed is a positive step length.
    pub open spec fn wf(self) -> bool {
        &&& self@.body.len() >= 1
        &&& 1 <= self@.speed <= DIM_LIMIT
    }

    /// Creates a single-segment snake at a random position inside the grid,
    /// with a random heading.
    pub fn new(width: i64, height: i64, speed: i64) -> (s: Snake)
        requires
            1 <= width <= DIM_LIMIT,
            1 <= height <= DIM_LIMIT,
            1 <= speed <= DIM_LIMIT,
        ensures
            s.wf(),
            s@.speed == speed as int,
            s@.body.len() == 1,
            0 <= s@.body[0].x < width as int,
            0 <= s@.body[0].y < height as int,
    {
        let x = gen_below(width);
        let y = gen_below(height);
        let direction = Self::random_direction();
        let body = vec![Pos { x, y }];
        let s = Snake { body, direction, speed };
        proof {
            assert(s@.body =~= seq![PosV { x: x as int, y: y as int }]);
        }
        s
    }

    /// Picks one of the four headings at random.
    pub fn random_direction() -> Direction {
        let i = gen_below(4);
        direction_from_index(i)
    }

    /// Moves the snake one step: the stepped head is prepended and the tail
    /// cell dropped, so the length is preserved.
    pub fn advance(&mut self)
        requires
            old(self).wf(),
            in_range(old(self)@.body[0]),
        ensures
            final(self).wf(),
            final(self)@.body == advanced_body(old(self)@.body, old(self)@.direction, old(self)@.speed),
            final(self)@.direction == old(self)@.direction,
            final(self)@.speed == old(self)@.speed,
    {
        let head = self.body[0];
        let new_head = match self.direction {
            Direction::Up => (Pos { x: head.x, y: head.y - self.speed }),
            Direction::Down => (Pos { x: head.x, y: head.y + self.speed }),
            Direction::Left => (Pos { x: head.x - self.speed, y: head.y }),
            Direction::Right => (Pos { x: head.x + self.speed, y: head.y }),
        };
        self.body.insert(0, new_head);
        self.body.pop();
        proof {
            assert(self@.body =~= advanced_body(old(self)@.body, old(self)@.direction, old(self)@.speed));
        }
    }

    /// True when the head strictly overlaps some other segment.
    pub fn is_colliding_with_self(&self) -> (r: bool)
        requires
            self@.body.len() >= 1,
            forall|i: int| 0 <= i < self@.body.len() ==> in_wide(#[trigger] self@.body[i]),
        ensures
            r == head_hits_body(self@.body),
    {
        let head = self.body[0];
        let n = self.body.len();
        for i in 1..n
            invariant
                n == self@.body.len(),
                n >= 1,
                head@ == self@.body[0],
                forall|k: int| 0 <= k < n ==> in_wide(#[trigger] self@.body[k]),
                forall|j: int| 1 <= j < i ==> !within_spec(self@.body[0], #[trigger] self@.body[j], 1),
        {
            proof {
                assert(self.body@[i as int]@ == self@.body[i as int]);
            }
            if within(head, self.body[i], 1) {
                proof {
                    assert(1 <= i < self@.body.len() && within_spec(self@.body[0], self@.body[i as int], 1));
                }
                return true;
            }
        }
        false
    }

    /// Duplicates the tail segment, so that the next advance lengthens the
    /// body by one instead of dropping a cell.
    pub fn grow(&mut self)
        requires
            old(self)@.body.len() >= 1,
        ensures
            final(self)@.body == grown_body(old(self)@.body),
            final(self)@.direction == old(self)@.direction,
            final(self)@.speed == old(self)@.speed,
    {
        let tail = self.body[self.body.len() - 1];
        self.body.push(tail);
        proof {
            assert(self@.body =~= grown_body(old(self)@.body));
        }
    }

    /// Commits `new_direction` unless it is the exact opposite of the
    /// current heading, in which case the request is silently ignored.
    pub fn change_direction(&mut self, new_direction: Direction)
        ensures
            final(self)@.body == old(self)@.body,
            final(self)@.speed == old(self)@.speed,
            final(self)@.direction == direction_after_change(old(self)@.direction, new_direction),
    {
        match (self.direction, new_direction) {
            (Direction::Up, Direction::Down)
            | (Direction::Down, Direction::Up)
            | (Direction::Left, Direction::Right)
            | (Direction::Right, Direction::Left) => {
            }
            _ => {
                self.direction = new_direction;
            }
        }
    }

    /// One tick of snake movement as the game applies it: advance, then
    /// reset the body to a single segment at the origin (with a random
    /// heading) if the head has landed on another segment.
    pub fn update(&mut self)
        requires
            old(self).wf(),
            forall|i: int| 0 <= i < old(self)@.body.len() ==> in_range(#[trigger] old(self)@.body[i]),
        ensures
            final(self).wf(),
            final(self)@.speed == old(self)@.speed,
            ({
                let adv = advanced_body(old(self)@.body, old(self)@.direction, old(self)@.speed);
                if head_hits_body(adv) {
                    final(self)@.body == seq![PosV { x: 0, y: 0 }]
                } else {
                    final(self)@.body == adv && final(self)@.direction == old(self)@.direction
                }
            }),
    {
        self.advance();
        proof {
            assert forall|i: int| 0 <= i < self@.body.len() implies in_wide(#[trigger] self@.body[i]) by {
                if i >= 1 {
                    assert(self@.body[i] == old(self)@.body[i - 1]);
                }
            }
        }
        if self.is_colliding_with_self() {
            self.body = vec![Pos { x: 0, y: 0 }];
            self.direction = Self::random_direction();
            proof {
                assert(self@.body =~= seq![PosV { x: 0, y: 0 }]);
            }
        }
    }
}

/// Law: advancing a snake whose segments each sit one step (in heading `d`)
/// ahead of their successor translates every segment by exactly one step
/// and preserves the body length.
pub proof fn lemma_advance_translates(body: Seq<PosV>, d: Direction, speed: int)
    requires
        body.len() >= 1,
        forall|i: int| 0 <= i < body.len() - 1 ==> #[trigger] body[i] == step_pos(body[i + 1], d, speed),
    ensures
        advanced_body(body, d, speed).len() == body.len(),
        forall|i: int| 0 <= i < body.len() ==>
            #[trigger] advanced_body(body, d, speed)[i] == step_pos(body[i], d, speed),
{
    let adv = advanced_body(body, d, speed);
    assert forall|i: int| 0 <= i < body.len() implies #[trigger] adv[i] == step_pos(body[i], d, speed) by {
        if i > 0 {
            assert(adv[i] == body[i - 1]);
            assert(body[i - 1] == step_pos(body[i], d, speed));
        }
    }
}

/// Law: growing and then advancing yields a body exactly one segment longer
/// than advancing without growth.
pub proof fn lemma_grow_then_advance(body: Seq<PosV>, d: Direction, speed: int)
    requires
        body.len() >= 1,
    ensures
        advanced_body(grown_body(body), d, speed).len() == advanced_body(body, d, speed).len() + 1,
{
}

} // verus!
