//! The game engine: a snake on a grid without walls.

use vstd::prelude::*;
use crate::block::{in_grid, Block};
use crate::canvas::{Canvas, Color, Fill};
use crate::direction::Direction;
use crate::model::{precedes, SnakeView, TickResult};
use crate::text::{decimal, from_decimal, stored_high_score, to_decimal};

verus! {

/// A game of snake. The host reads keys, draws random cells, keeps the high
/// score and calls `update` on every tick of its timer.
#[derive(Debug)]
pub struct Snake {
    head: Block,
    tail: Vec<Block>,
    food: Block,
    height: u32,
    width: u32,
    direction: Option<Direction>,
    next_direction: Option<Direction>,
    last_direction: Direction,
    score: u32,
    high_score: u32,
    over: bool,
}

impl View for Snake {
    type V = SnakeView;

    closed spec fn view(&self) -> SnakeView {
        SnakeView {
            width: self.width,
            height: self.height,
            head: self.head,
            tail: self.tail@,
            food: self.food,
            pending: self.direction,
            queued: self.next_direction,
            last: self.last_direction,
            score: self.score as nat,
            high_score: self.high_score as nat,
            over: self.over,
        }
    }
}

/// Tells whether `c` is among `cells`.
fn holds(cells: &Vec<Block>, c: Block) -> (r: bool)
    ensures
        r == cells@.contains(c),
{
    let mut i: usize = 0;
    while i < cells.len()
        invariant
            i <= cells.len(),
            forall|j: int| 0 <= j < i ==> cells@[j] != c,
        decreases cells.len() - i,
    {
        if cells[i] == c {
            return true;
        }
        i += 1;
    }
    false
}

impl Snake {
    /// Whether the game is in a state that the engine can work on.
    pub open spec fn wf(&self) -> bool {
        self@.wf()
    }

    /// Whether the snake lies on `c`.
    fn occupies(&self, c: Block) -> (r: bool)
        ensures
            r == self@.occupied(c),
    {
        c == self.head || holds(&self.tail, c)
    }

    /// Starts a game on a grid of `width` columns and `height` rows, with
    /// the snake's head on `head` and the food on a cell chosen from `draws`.
    pub fn new(width: u32, height: u32, head: Block, draws: &Vec<Block>, high_score: u32) -> (r: Snake)
        requires
            width > 0,
            height > 0,
            in_grid(head, width, height),
        ensures
            r.wf(),
            r@ == SnakeView::initial(width, height, head, draws@, high_score as nat),
    {
        let mut snake = Snake {
            head,
            tail: Vec::new(),
            food: head,
            height,
            width,
            direction: None,
            next_direction: None,
            last_direction: Direction::Right,
            score: 0,
            high_score,
            over: false,
        };
        snake.generate_food(draws);
        snake
    }

    /// Takes a request to turn towards `direction`. With no turn pending it
    /// becomes the pending one, unless it reverses the latest move; with one
    /// pending it is held back for the tick after, unless it reverses the
    /// pending one. A reversal is dropped.
    pub fn change_direction(&mut self, direction: Direction)
        ensures
            final(self)@ == old(self)@.request(direction),
            old(self).wf() ==> final(self).wf(),
            old(self)@.pending is None && direction == old(self)@.last.reversed() ==> final(self)@
                == old(self)@,
    {
        if !self.last_direction.opposite(direction) && self.direction.is_none() {
            self.direction = Some(direction);
        } else if let Some(d) = self.direction {
            if !d.opposite(direction) {
                self.next_direction = Some(direction);
            }
        }
    }

    /// Advances the game by one tick. `draws` are the cells drawn at random
    /// for the case that the snake eats and the food has to go elsewhere.
    pub fn update(&mut self, draws: &Vec<Block>) -> (r: TickResult)
        requires
            old(self).wf(),
            old(self)@.eats() ==> old(self)@.score < u32::MAX,
        ensures
            final(self).wf(),
            final(self)@ == old(self)@.tick(draws@),
            r == old(self)@.tick_result(),
            final(self)@.tail.len() == final(self)@.score,
            final(self)@.high_score >= old(self)@.high_score,
            old(self)@.eats() && final(self)@.has_free() ==> final(self)@.free(final(self)@.food),
    {
        if self.over {
            return TickResult::GameOver { score: self.score, high_score: self.high_score };
        }
        let direction = match self.direction {
            Some(d) => d,
            None => self.last_direction,
        };
        self.direction = None;
        self.last_direction = direction;
        let new_head = self.head.step(direction, self.width, self.height);
        if holds(&self.tail, new_head) {
            self.over = true;
            return TickResult::GameOver { score: self.score, high_score: self.high_score };
        }
        self.tail.insert(0, self.head);
        self.head = new_head;
        self.direction = self.next_direction;
        self.next_direction = None;
        let mut persist: Option<u32> = None;
        if new_head == self.food {
            self.score += 1;
            if self.score > self.high_score {
                self.high_score = self.score;
                persist = Some(self.score);
            }
            assert(self.tail@ =~= seq![old(self).head] + old(self).tail@);
            self.generate_food(draws);
        } else {
            self.tail.pop();
            assert(self.tail@ =~= (seq![old(self).head] + old(self).tail@).drop_last());
        }
        TickResult::Continuing { persist }
    }

    /// Puts the food on a free cell: the first free one among `draws`, else
    /// the first free one of the grid. Where the snake fills the grid the
    /// food stays.
    fn generate_food(&mut self, draws: &Vec<Block>)
        requires
            old(self).width > 0,
            old(self).height > 0,
        ensures
            *final(self) == (Snake { food: final(self).food, ..*old(self) }),
            final(self).food == old(self)@.new_food(draws@),
            in_grid(old(self).food, old(self).width, old(self).height) ==> in_grid(
                final(self).food,
                old(self).width,
                old(self).height,
            ),
            final(self)@.has_free() ==> final(self)@.free(final(self).food),
    {
        let mut i: usize = 0;
        while i < draws.len()
            invariant
                i <= draws.len(),
                *self == *old(self),
                self@.first_free_draw(draws@, 0) == self@.first_free_draw(draws@, i as int),
            decreases draws.len() - i,
        {
            let c = draws[i];
            if c.0 < self.width && c.1 < self.height && !self.occupies(c) {
                self.food = c;
                return ;
            }
            i += 1;
        }
        let mut y: u32 = 0;
        while y < self.height
            invariant
                y <= self.height,
                *self == *old(self),
                self@.first_free_draw(draws@, 0) is None,
                self@.first_free_cell(0, 0) == self@.first_free_cell(0, y as int),
                forall|c: Block| #[trigger] self@.free(c) ==> !precedes(c, 0, y as int),
            decreases self.height - y,
        {
            let mut x: u32 = 0;
            while x < self.width
                invariant
                    y < self.height,
                    x <= self.width,
                    *self == *old(self),
                    self@.first_free_draw(draws@, 0) is None,
                    self@.first_free_cell(0, 0) == self@.first_free_cell(x as int, y as int),
                    forall|c: Block| #[trigger] self@.free(c) ==> !precedes(c, x as int, y as int),
                decreases self.width - x,
            {
                let c = Block(x, y);
                if !self.occupies(c) {
                    self.food = c;
                    return ;
                }
                x += 1;
            }
            y += 1;
        }
        assert(!self@.has_free());
    }

    /// Builds a game in a given state, for a host that restores one: the
    /// snake on `head` and `tail`, the food on `food`, no turn requested,
    /// `last_direction` as the latest move, one point for each cell of the
    /// tail, and a high score of at least as much. `None` where the grid
    /// has no cell, where a cell lies off the grid, or where the tail is
    /// longer than a score can say.
    pub fn from_parts(
        width: u32,
        height: u32,
        head: Block,
        tail: Vec<Block>,
        food: Block,
        last_direction: Direction,
        high_score: u32,
    ) -> (r: Option<Snake>)
        ensures
            r is Some <==> {
                &&& width > 0
                &&& height > 0
                &&& in_grid(head, width, height)
                &&& in_grid(food, width, height)
                &&& forall|i: int| 0 <= i < tail@.len() ==> in_grid(#[trigger] tail@[i], width, height)
                &&& tail@.len() <= u32::MAX
            },
            r matches Some(snake) ==> snake.wf() && snake@ == (SnakeView {
                width,
                height,
                head,
                tail: tail@,
                food,
                pending: None,
                queued: None,
                last: last_direction,
                score: tail@.len(),
                high_score: if high_score >= tail@.len() { high_score as nat } else { tail@.len() },
                over: false,
            }),
    {
        if width == 0 || height == 0 || tail.len() > 0xffff_ffff {
            return None;
        }
        if !(head.0 < width && head.1 < height && food.0 < width && food.1 < height) {
            return None;
        }
        let mut i: usize = 0;
        while i < tail.len()
            invariant
                i <= tail.len(),
                forall|j: int| 0 <= j < i ==> in_grid(#[trigger] tail@[j], width, height),
            decreases tail.len() - i,
        {
            if !(tail[i].0 < width && tail[i].1 < height) {
                return None;
            }
            i += 1;
        }
        let score = tail.len() as u32;
        Some(
            Snake {
                head,
                tail,
                food,
                height,
                width,
                direction: None,
                next_direction: None,
                last_direction,
                score,
                high_score: if high_score >= score { high_score } else { score },
                over: false,
            },
        )
    }

    /// The cell of the snake's front.
    pub fn head(&self) -> (r: Block)
        ensures
            r == self@.head,
    {
        self.head
    }

    /// The body behind the head, nearest cell first.
    pub fn tail(&self) -> (r: &Vec<Block>)
        ensures
            r@ == self@.tail,
    {
        &self.tail
    }

    /// The cell that holds the food.
    pub fn food(&self) -> (r: Block)
        ensures
            r == self@.food,
    {
        self.food
    }

    /// Columns of the grid.
    pub fn width(&self) -> (r: u32)
        ensures
            r == self@.width,
    {
        self.width
    }

    /// Rows of the grid.
    pub fn height(&self) -> (r: u32)
        ensures
            r == self@.height,
    {
        self.height
    }

    /// The turn that the next tick will take, if one was requested.
    pub fn direction(&self) -> (r: Option<Direction>)
        ensures
            r == self@.pending,
    {
        self.direction
    }

    /// The turn held back for the tick after the next.
    pub fn next_direction(&self) -> (r: Option<Direction>)
        ensures
            r == self@.queued,
    {
        self.next_direction
    }

    /// The direction that the latest tick took.
    pub fn last_direction(&self) -> (r: Direction)
        ensures
            r == self@.last,
    {
        self.last_direction
    }

    /// Food eaten in this game.
    pub fn score(&self) -> (r: u32)
        ensures
            r == self@.score,
    {
        self.score
    }

    /// The most food ever eaten in one game.
    pub fn high_score(&self) -> (r: u32)
        ensures
            r == self@.high_score,
    {
        self.high_score
    }

    /// Whether the snake has run into itself.
    pub fn is_over(&self) -> (r: bool)
        ensures
            r == self@.over,
    {
        self.over
    }

    /// Tells whether the snake and the food lie on cells of `canvas`, so
    /// that the game can be painted on it.
    pub fn fits(&self, canvas: &Canvas) -> (r: bool)
        ensures
            r == self@.shown_on(canvas@),
    {
        let width = canvas.width();
        let height = canvas.height();
        if !(self.head.0 < width && self.head.1 < height && self.food.0 < width && self.food.1
            < height) {
            return false;
        }
        let mut i: usize = 0;
        while i < self.tail.len()
            invariant
                i <= self.tail.len(),
                width == canvas@.width,
                height == canvas@.height,
                forall|j: int| 0 <= j < i ==> canvas@.covers(#[trigger] self.tail@[j]),
            decreases self.tail.len() - i,
        {
            if !(self.tail[i].0 < width && self.tail[i].1 < height) {
                assert(!canvas@.covers(self@.tail[i as int]));
                return false;
            }
            i += 1;
        }
        true
    }

    /// The fills that paint the game on `canvas`: the empty grid in
    /// white, the head in green, the tail in light green, the food in red.
    pub fn draw(&self, canvas: &Canvas) -> (r: Vec<Fill>)
        requires
            canvas.wf(),
            self@.shown_on(canvas@),
        ensures
            r@ == self@.picture(canvas@),
    {
        let mut fills: Vec<Fill> = Vec::new();
        fills.push(canvas.clear_all());
        fills.push(canvas.draw(self.head.0, self.head.1, Color::Green));
        let mut i: usize = 0;
        while i < self.tail.len()
            invariant
                i <= self.tail.len(),
                canvas.wf(),
                self@.shown_on(canvas@),
                fills@.len() == 2 + i,
                fills@[0] == (Fill { rect: canvas@.area(), color: Color::White }),
                fills@[1] == (Fill {
                    rect: canvas@.cell(self.head.0, self.head.1),
                    color: Color::Green,
                }),
                forall|j: int|
                    0 <= j < i ==> #[trigger] fills@[2 + j] == (Fill {
                        rect: canvas@.cell(self.tail@[j].0, self.tail@[j].1),
                        color: Color::LightGreen,
                    }),
            decreases self.tail.len() - i,
        {
            let b = self.tail[i];
            assert(canvas@.covers(self@.tail[i as int]));
            fills.push(canvas.draw(b.0, b.1, Color::LightGreen));
            i += 1;
        }
        fills.push(canvas.draw(self.food.0, self.food.1, Color::Red));
        let ghost picture = self@.picture(canvas@);
        assert(fills@.len() == picture.len());
        assert forall|j: int| 0 <= j < fills@.len() implies fills@[j] == picture[j] by {
            if 2 <= j < 2 + i {
                assert(fills@[2 + (j - 2)] == picture[j]);
            }
        }
        assert(fills@ =~= picture);
        fills
    }

    /// The high score that the host's store holds, given the text found
    /// there: 0 where nothing is stored or the text spells no number.
    pub fn load_high_score(stored: Option<&str>) -> (r: u32)
        ensures
            r == stored_high_score(
                match stored {
                    Some(text) => Some(text@),
                    None => None,
                },
            ),
    {
        match stored {
            Some(text) => match from_decimal(text) {
                Some(n) => n,
                None => 0,
            },
            None => 0,
        }
    }

    /// The text under which the host is to store `high_score`.
    pub fn save_high_score(high_score: u32) -> (r: String)
        ensures
            r@ == decimal(high_score as nat),
    {
        to_decimal(high_score)
    }

    /// Starts the game anew on the same grid. The high score is the larger
    /// of the one held and the one that the host has stored.
    pub fn reset(&mut self, head: Block, draws: &Vec<Block>, stored_high_score: u32)
        requires
            old(self).wf(),
            in_grid(head, old(self)@.width, old(self)@.height),
        ensures
            final(self).wf(),
            final(self)@ == old(self)@.restart(head, draws@, stored_high_score as nat),
            final(self)@.high_score >= old(self)@.high_score,
    {
        let high_score = if stored_high_score >= self.high_score {
            stored_high_score
        } else {
            self.high_score
        };
        *self = Snake::new(self.width, self.height, head, draws, high_score);
    }
}

} // verus!
