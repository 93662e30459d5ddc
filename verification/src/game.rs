//! The whole game state and its per-tick update rule.

use vstd::prelude::*;
use crate::pos::{Pos, PosV, within, within_spec, in_range, in_wide, DIM_LIMIT};
use crate::snake::{
    advanced_body, grown_body, head_hits_body, step_pos, Direction, Snake, SnakeV,
};
use crate::food::{food_ok, Food};

verus! {

/// Side length of one grid cell; also the eating-proximity threshold.
pub const CELL_SIZE: i64 = 20;

/// The snake's per-tick step length.
pub const SNAKE_SPEED: i64 = 10;

/// Number of food items present after a fresh start or a reset.
pub const DEFAULT_FOOD_COUNT: usize = 100;

/// Mathematical model of a game state.
#[verifier::ext_equal]
pub ghost struct GameV {
    pub snake: SnakeV,
    pub food: Seq<PosV>,
    pub size: int,
    pub score: int,
    pub width: int,
    pub height: int,
}

/// The game state: snake, food items, cell size, score, and the grid's
/// visible extent.
pub struct Game {
    pub snake: Snake,
    pub food: Vec<Food>,
    pub size: i64,
    pub score: i64,
    pub width: i64,
    pub height: i64,
}

impl View for Game {
    type V = GameV;

    open spec fn view(&self) -> GameV {
        GameV {
            snake: self.snake@,
            food: self.food@.map_values(|f: Food| f@),
            size: self.size as int,
            score: self.score as int,
            width: self.width as int,
            height: self.height as int,
        }
    }
}

/// The head has left the visible area.
pub open spec fn out_of_bounds(p: PosV, width: int, height: int) -> bool {
    p.x < 0 || p.x > width || p.y < 0 || p.y > height
}

/// The food items the head does not reach, in their original order.
pub open spec fn surviving(food: Seq<PosV>, head: PosV, size: int) -> Seq<PosV>
    decreases food.len(),
{
    if food.len() == 0 {
        Seq::empty()
    } else if within_spec(head, food[0], size) {
        surviving(food.drop_first(), head, size)
    } else {
        seq![food[0]] + surviving(food.drop_first(), head, size)
    }
}

/// Number of food items the head reaches.
pub open spec fn eaten_count(food: Seq<PosV>, head: PosV, size: int) -> int {
    food.len() - surviving(food, head, size).len()
}

/// The snake body after movement and a possible self-collision reset,
/// before any growth.
pub open spec fn tick_base(g: GameV) -> Seq<PosV> {
    let adv = advanced_body(g.snake.body, g.snake.direction, g.snake.speed);
    if head_hits_body(adv) {
        seq![PosV { x: 0, y: 0 }]
    } else {
        adv
    }
}

/// The advance on this tick ended with the head on another segment.
pub open spec fn tick_collides(g: GameV) -> bool {
    head_hits_body(advanced_body(g.snake.body, g.snake.direction, g.snake.speed))
}

/// The head position the food scan uses on this tick.
pub open spec fn tick_head(g: GameV) -> PosV {
    tick_base(g)[0]
}

/// Number of food items consumed on this tick.
pub open spec fn tick_eaten(g: GameV) -> int {
    eaten_count(g.food, tick_head(g), g.size)
}

/// The tick ends with the head outside the grid, so the whole state is
/// rebuilt from scratch.
pub open spec fn tick_resets(g: GameV) -> bool {
    out_of_bounds(tick_head(g), g.width, g.height)
}

/// The snake body at the end of a non-resetting tick: the post-movement
/// body plus one duplicated tail cell per food item consumed.
pub open spec fn tick_body(g: GameV) -> Seq<PosV> {
    tick_base(g) + Seq::new(tick_eaten(g) as nat, |j: int| tick_base(g).last())
}

/// Nothing happens on this tick beyond plain movement: no self-collision,
/// the head stays in bounds, and no food is within eating range.
pub open spec fn quiet_tick_ok(g: GameV) -> bool {
    let adv = advanced_body(g.snake.body, g.snake.direction, g.snake.speed);
    &&& g.snake.body.len() >= 1
    &&& !head_hits_body(adv)
    &&& !out_of_bounds(adv[0], g.width, g.height)
    &&& forall|j: int| 0 <= j < g.food.len() ==> !within_spec(adv[0], #[trigger] g.food[j], g.size)
}

/// What a quiet tick does: the snake advances and everything else stays.
pub open spec fn quiet_step(g: GameV) -> GameV {
    GameV {
        snake: SnakeV {
            body: advanced_body(g.snake.body, g.snake.direction, g.snake.speed),
            ..g.snake
        },
        ..g
    }
}

/// `n` quiet ticks in a row.
pub open spec fn quiet_iter(g: GameV, n: int) -> GameV
    decreases n,
{
    if n <= 0 {
        g
    } else {
        quiet_step(quiet_iter(g, n - 1))
    }
}

/// Where the head stands after `i` ticks of travelling right.
pub open spec fn straight_head(g: GameV, i: int) -> PosV {
    PosV { x: g.snake.body[0].x + i * g.snake.speed, y: g.snake.body[0].y }
}

/// Law: starting from a one-segment snake heading right, `n` ticks on which
/// the head stays inside the grid and reaches no food item move the head
/// exactly `n * speed` to the right and change nothing else: the body stays
/// a single segment and food, score, heading, speed and dimensions are
/// untouched. Each intermediate state satisfies `quiet_tick_ok`, so each of
/// those ticks of `Game::update` is exactly one application of
/// `quiet_step`.
pub proof fn lemma_straight_run(g: GameV, n: int)
    requires
        0 <= n,
        g.snake.body.len() == 1,
        g.snake.direction == Direction::Right,
        forall|i: int| 1 <= i <= n
            ==> !out_of_bounds(#[trigger] straight_head(g, i), g.width, g.height),
        forall|i: int, j: int|
            #![trigger within_spec(straight_head(g, i), g.food[j], g.size)]
            1 <= i <= n && 0 <= j < g.food.len()
                ==> !within_spec(straight_head(g, i), g.food[j], g.size),
    ensures
        quiet_iter(g, n).snake.body == seq![straight_head(g, n)],
        quiet_iter(g, n).snake.direction == g.snake.direction,
        quiet_iter(g, n).snake.speed == g.snake.speed,
        quiet_iter(g, n).food == g.food,
        quiet_iter(g, n).score == g.score,
        quiet_iter(g, n).width == g.width,
        quiet_iter(g, n).height == g.height,
        quiet_iter(g, n).size == g.size,
        forall|i: int| 0 <= i < n ==> quiet_tick_ok(#[trigger] quiet_iter(g, i)),
    decreases n,
{
    if n == 0 {
        assert(straight_head(g, 0) == g.snake.body[0]);
        assert(g.snake.body =~= seq![g.snake.body[0]]);
    } else {
        lemma_straight_run(g, n - 1);
        let prev = quiet_iter(g, n - 1);
        let adv = advanced_body(prev.snake.body, prev.snake.direction, prev.snake.speed);
        assert(step_pos(straight_head(g, n - 1), Direction::Right, g.snake.speed)
            == straight_head(g, n)) by {
            assert((n - 1) * g.snake.speed + g.snake.speed == n * g.snake.speed)
                by (nonlinear_arith);
        }
        assert(adv =~= seq![straight_head(g, n)]);
        assert(!head_hits_body(adv));
        assert(!out_of_bounds(adv[0], prev.width, prev.height));
        assert(forall|j: int| 0 <= j < prev.food.len()
            ==> !within_spec(adv[0], #[trigger] prev.food[j], prev.size));
        assert(quiet_tick_ok(prev));
        assert(quiet_iter(g, n) == quiet_step(prev));
        assert(quiet_iter(g, n).snake.body =~= seq![straight_head(g, n)]);
        assert forall|i: int| 0 <= i < n implies quiet_tick_ok(#[trigger] quiet_iter(g, i)) by {
            if i < n - 1 {
            } else {
                assert(quiet_iter(g, i) == prev);
            }
        }
    }
}

/// Appending a food item extends the survivors with it exactly when the
/// head does not reach it.
proof fn lemma_surviving_push(food: Seq<PosV>, x: PosV, head: PosV, size: int)
    ensures
        surviving(food.push(x), head, size) == (if within_spec(head, x, size) {
            surviving(food, head, size)
        } else {
            surviving(food, head, size).push(x)
        }),
    decreases food.len(),
{
    let s = food.push(x);
    if food.len() == 0 {
        assert(s[0] == x);
        assert(s.drop_first() =~= Seq::<PosV>::empty());
        assert(surviving(Seq::<PosV>::empty(), head, size) == Seq::<PosV>::empty());
        assert(surviving(food, head, size) =~= Seq::<PosV>::empty());
        if within_spec(head, x, size) {
            assert(surviving(s, head, size) =~= surviving(food, head, size));
        } else {
            assert(surviving(s, head, size) =~= surviving(food, head, size).push(x));
        }
    } else {
        assert(s[0] == food[0]);
        assert(s.drop_first() =~= food.drop_first().push(x));
        lemma_surviving_push(food.drop_first(), x, head, size);
        if within_spec(head, food[0], size) {
            assert(surviving(s, head, size) == surviving(food.drop_first().push(x), head, size));
        } else {
            if within_spec(head, x, size) {
                assert(surviving(s, head, size) =~= surviving(food, head, size));
            } else {
                assert(surviving(s, head, size) =~= surviving(food, head, size).push(x));
            }
        }
    }
}

/// When the head reaches no food item at all, every item survives.
proof fn lemma_surviving_all(food: Seq<PosV>, head: PosV, size: int)
    requires
        forall|j: int| 0 <= j < food.len() ==> !within_spec(head, #[trigger] food[j], size),
    ensures
        surviving(food, head, size) == food,
    decreases food.len(),
{
    if food.len() == 0 {
        assert(surviving(food, head, size) =~= food);
    } else {
        assert(forall|j: int| 0 <= j < food.drop_first().len()
            ==> !within_spec(head, #[trigger] food.drop_first()[j], size));
        lemma_surviving_all(food.drop_first(), head, size);
        assert(surviving(food, head, size) =~= food);
    }
}

impl Game {
    /// Well-formed game state: valid snake and dimensions, every segment
    /// and every food item inside the visible area, food grid-aligned,
    /// score non-negative.
    pub open spec fn wf(self) -> bool {
        &&& self.snake.wf()
        &&& self@.size == CELL_SIZE as int
        &&& CELL_SIZE as int <= self@.width <= DIM_LIMIT as int
        &&& CELL_SIZE as int <= self@.height <= DIM_LIMIT as int
        &&& forall|i: int| 0 <= i < self@.snake.body.len() ==> {
            let p = #[trigger] self@.snake.body[i];
            0 <= p.x <= self@.width && 0 <= p.y <= self@.height
        }
        &&& forall|i: int| 0 <= i < self@.food.len()
            ==> food_ok(#[trigger] self@.food[i], self@.size, self@.width, self@.height)
        &&& 0 <= self@.score
    }

    /// Creates a fresh game: a random one-segment snake, `count` random
    /// food items (the default count when `None`), and a zero score.
    pub fn new(width: i64, height: i64, count: Option<usize>) -> (g: Game)
        requires
            CELL_SIZE <= width <= DIM_LIMIT,
            CELL_SIZE <= height <= DIM_LIMIT,
        ensures
            g.wf(),
            g@.width == width as int,
            g@.height == height as int,
            g@.size == CELL_SIZE as int,
            g@.score == 0,
            g@.snake.body.len() == 1,
            g@.snake.speed == SNAKE_SPEED as int,
            g@.food.len() == (match count {
                Some(c) => c as int,
                None => DEFAULT_FOOD_COUNT as int,
            }),
    {
        let n = match count {
            Some(c) => c,
            None => DEFAULT_FOOD_COUNT,
        };
        let snake = Snake::new(width, height, SNAKE_SPEED);
        let mut food: Vec<Food> = Vec::new();
        for i in 0..n
            invariant
                food.len() == i,
                CELL_SIZE <= width <= DIM_LIMIT,
                CELL_SIZE <= height <= DIM_LIMIT,
                forall|j: int| 0 <= j < food.len() ==> food_ok(
                    (#[trigger] food@[j])@,
                    CELL_SIZE as int,
                    width as int,
                    height as int,
                ),
        {
            let item = Food::new(width, height, CELL_SIZE);
            food.push(item);
            proof {
                assert(food@.map_values(|f: Food| f@)[food.len() - 1] == item@);
            }
        }
        let g = Game { snake, food, size: CELL_SIZE, score: 0, width, height };
        g
    }

    /// One simulation tick: the snake moves (resetting itself on
    /// self-collision), every food item within eating range of the head is
    /// consumed — growing the snake, raising the score and scheduling a
    /// random replacement — and if the head has left the grid the whole
    /// state is rebuilt from scratch.
    pub fn update(&mut self)
        requires
            old(self).wf(),
            old(self)@.score + old(self)@.food.len() <= i64::MAX as int,
        ensures
            final(self).wf(),
            final(self)@.width == old(self)@.width,
            final(self)@.height == old(self)@.height,
            final(self)@.size == old(self)@.size,
            (!tick_resets(old(self)@) ==> {
                &&& final(self)@.snake.body == tick_body(old(self)@)
                &&& final(self)@.snake.speed == old(self)@.snake.speed
                &&& (!tick_collides(old(self)@)
                    ==> final(self)@.snake.direction == old(self)@.snake.direction)
                &&& final(self)@.score == old(self)@.score + tick_eaten(old(self)@)
                &&& final(self)@.food.len() == old(self)@.food.len()
                &&& final(self)@.food.take(
                    surviving(old(self)@.food, tick_head(old(self)@), old(self)@.size).len() as int,
                ) == surviving(old(self)@.food, tick_head(old(self)@), old(self)@.size)
                &&& forall|j: int|
                    surviving(old(self)@.food, tick_head(old(self)@), old(self)@.size).len() <= j
                        < final(self)@.food.len()
                    ==> food_ok(
                        #[trigger] final(self)@.food[j],
                        old(self)@.size,
                        old(self)@.width,
                        old(self)@.height,
                    )
            }),
            (tick_resets(old(self)@) ==> {
                &&& final(self)@.score == 0
                &&& final(self)@.snake.body.len() == 1
                &&& final(self)@.snake.speed == SNAKE_SPEED as int
                &&& final(self)@.food.len() == DEFAULT_FOOD_COUNT as int
            }),
            (quiet_tick_ok(old(self)@) ==> final(self)@ == quiet_step(old(self)@)),
    {
        let ghost g0 = old(self)@;
        let ghost adv = advanced_body(g0.snake.body, g0.snake.direction, g0.snake.speed);
        let ghost collided = head_hits_body(adv);
        let ghost base = tick_base(g0);
        let ghost h = tick_head(g0);

        proof {
            assert forall|i: int| 0 <= i < self@.snake.body.len()
                implies in_range(#[trigger] self@.snake.body[i]) by {}
        }
        self.snake.update();
        proof {
            assert(self.snake@.body == base);
            assert(base.len() >= 1);
            assert(base[0] == h);
        }

        let head = self.snake.body[0];
        proof {
            assert(head@ == self.snake@.body[0]);
            assert(in_wide(h));
        }

        let flen = self.food.len();
        let mut kept: Vec<Food> = Vec::new();
        let mut eaten: usize = 0;
        for i in 0..flen
            invariant
                flen == self.food.len(),
                self.food@ == old(self).food@,
                self.width == old(self).width,
                self.height == old(self).height,
                self.size == old(self).size,
                self@.size == g0.size,
                g0 == old(self)@,
                self.snake@.speed == g0.snake.speed,
                (!collided ==> self.snake@.direction == g0.snake.direction),
                adv == advanced_body(g0.snake.body, g0.snake.direction, g0.snake.speed),
                collided == head_hits_body(adv),
                base == tick_base(g0),
                h == tick_head(g0),
                base.len() >= 1,
                base[0] == h,
                head@ == h,
                in_wide(h),
                old(self).wf(),
                1 <= self.snake@.speed <= DIM_LIMIT,
                self.snake@.body == base + Seq::new(eaten as nat, |j: int| base.last()),
                kept@.map_values(|f: Food| f@) == surviving(g0.food.take(i as int), h, g0.size),
                kept.len() + eaten == i,
                forall|j: int| 0 <= j < kept.len() ==> food_ok(
                    (#[trigger] kept@[j])@,
                    g0.size,
                    g0.width,
                    g0.height,
                ),
                self@.score == g0.score + eaten,
                g0.score + g0.food.len() <= i64::MAX as int,
                g0.food.len() == flen,
        {
            let f = self.food[i];
            proof {
                assert(f@ == g0.food[i as int]);
                assert(food_ok(f@, g0.size, g0.width, g0.height));
                assert(in_wide(f@));
                assert(g0.food.take(i + 1) =~= g0.food.take(i as int).push(g0.food[i as int]));
                lemma_surviving_push(g0.food.take(i as int), g0.food[i as int], h, g0.size);
            }
            if within(head, f.position, self.size) {
                proof {
                    assert(within_spec(h, f@, g0.size));
                }
                self.snake.grow();
                proof {
                    let prev = base + Seq::new(eaten as nat, |j: int| base.last());
                    assert(prev.last() == base.last());
                    assert(grown_body(prev)
                        =~= base + Seq::new((eaten + 1) as nat, |j: int| base.last()));
                }
                eaten = eaten + 1;
                self.score = self.score + 1;
            } else {
                kept.push(f);
                proof {
                    assert(kept@.map_values(|ff: Food| ff@)
                        =~= surviving(g0.food.take(i as int), h, g0.size).push(f@));
                }
            }
        }

        proof {
            assert(g0.food.take(flen as int) =~= g0.food);
            assert(kept@.map_values(|f: Food| f@) == surviving(g0.food, h, g0.size));
            assert(eaten == tick_eaten(g0));
        }

        let ghost survivors = surviving(g0.food, h, g0.size);
        let ghost kept_before = kept@.map_values(|f: Food| f@);
        for j in 0..eaten
            invariant
                kept.len() == survivors.len() + j,
                self.width == old(self).width,
                self.height == old(self).height,
                self.size == old(self).size,
                g0 == old(self)@,
                old(self).wf(),
                survivors == surviving(g0.food, h, g0.size),
                kept@.map_values(|f: Food| f@).take(survivors.len() as int) == survivors,
                forall|k: int| 0 <= k < kept.len() ==> food_ok(
                    (#[trigger] kept@[k])@,
                    g0.size,
                    g0.width,
                    g0.height,
                ),
        {
            let item = Food::new(self.width, self.height, self.size);
            kept.push(item);
            proof {
                assert(kept@.map_values(|f: Food| f@).take(survivors.len() as int)
                    =~= survivors);
            }
        }
        self.food = kept;

        let head2 = self.snake.body[0];
        proof {
            assert(self.snake@.body[0] == base[0]);
            assert(head2@ == h);
        }
        if head2.x < 0 || head2.x > self.width || head2.y < 0 || head2.y > self.height {
            proof {
                assert(tick_resets(g0));
            }
            let width = self.width;
            let height = self.height;
            *self = Game::new(width, height, None);
        } else {
            proof {
                assert(!tick_resets(g0));
                assert(self@.snake.body == tick_body(g0));
                assert(self@.food.len() == g0.food.len()) by {
                    assert(kept_before.len() == survivors.len());
                    assert(self@.food.len() == survivors.len() + eaten);
                }
                assert(self@.food.take(survivors.len() as int) == survivors);
                assert forall|i: int| 0 <= i < self@.snake.body.len()
                    implies {
                        let p = #[trigger] self@.snake.body[i];
                        0 <= p.x <= self@.width && 0 <= p.y <= self@.height
                    } by {
                    let body = self@.snake.body;
                    if i < base.len() {
                        if collided {
                            assert(body[i] == PosV { x: 0, y: 0 });
                        } else if i == 0 {
                            assert(body[0] == h);
                        } else {
                            assert(body[i] == adv[i]);
                            assert(adv[i] == g0.snake.body[i - 1]);
                        }
                    } else {
                        assert(body[i] == base.last());
                        if collided {
                            assert(base.last() == PosV { x: 0, y: 0 });
                        } else if base.len() == 1 {
                            assert(base.last() == h);
                        } else {
                            assert(base.last() == adv[base.len() - 1]);
                            assert(adv[base.len() - 1] == g0.snake.body[base.len() - 2]);
                        }
                    }
                }
                if quiet_tick_ok(g0) {
                    assert(!collided);
                    assert(h == adv[0]);
                    lemma_surviving_all(g0.food, h, g0.size);
                    assert(eaten == 0);
                    assert(self@.snake.body =~= adv);
                    assert(self@.food =~= g0.food);
                    assert(self@.snake =~~= quiet_step(g0).snake);
                    assert(self@ =~~= quiet_step(g0));
                }
            }
        }
    }
}

} // verus!
