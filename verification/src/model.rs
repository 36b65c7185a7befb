//! The game as mathematics: a state, and what a direction request and a
//! tick make of it.

use vstd::prelude::*;
use crate::block::{in_grid, moved, Block};
use crate::canvas::{CanvasView, Color, Fill};
use crate::direction::Direction;

verus! {

/// What a tick asks of the host.
#[derive(Debug, Clone, Copy, PartialEq, Eq, Structural)]
pub enum TickResult {
    /// The snake moved. Where it beat the high score, `persist` holds the
    /// new one for the host to store.
    Continuing { persist: Option<u32> },
    /// The snake ran into itself, now or on an earlier tick: the host is to
    /// announce the end of the game with these two numbers.
    GameOver { score: u32, high_score: u32 },
}

/// The state of a game.
pub struct SnakeView {
    /// Columns of the grid.
    pub width: u32,
    /// Rows of the grid.
    pub height: u32,
    /// The cell of the snake's front.
    pub head: Block,
    /// The body behind the head, nearest cell first.
    pub tail: Seq<Block>,
    /// The cell that holds the food.
    pub food: Block,
    /// The direction that the next tick will take, if one was requested.
    pub pending: Option<Direction>,
    /// The direction held back for the tick after that.
    pub queued: Option<Direction>,
    /// The direction that the latest tick took.
    pub last: Direction,
    /// Food eaten in this game.
    pub score: nat,
    /// The most food ever eaten in one game.
    pub high_score: nat,
    /// Whether the snake has run into itself.
    pub over: bool,
}

impl SnakeView {
    /// What holds of every state: the grid has a cell, everything lies on
    /// the grid, the tail has one cell for each food eaten, and the high
    /// score is no less than the score.
    pub open spec fn wf(self) -> bool {
        &&& self.width > 0
        &&& self.height > 0
        &&& in_grid(self.head, self.width, self.height)
        &&& in_grid(self.food, self.width, self.height)
        &&& forall|i: int| 0 <= i < self.tail.len() ==> in_grid(#[trigger] self.tail[i], self.width, self.height)
        &&& self.tail.len() == self.score
        &&& self.score <= self.high_score
    }

    /// The snake from front to back: the head, then the tail.
    pub open spec fn body(self) -> Seq<Block> {
        seq![self.head] + self.tail
    }

    /// Whether the snake lies on `c`.
    pub open spec fn occupied(self, c: Block) -> bool {
        c == self.head || self.tail.contains(c)
    }

    /// Whether `c` is a cell of the grid that the snake does not lie on.
    pub open spec fn free(self, c: Block) -> bool {
        in_grid(c, self.width, self.height) && !self.occupied(c)
    }

    /// Whether the snake leaves any cell of the grid free.
    pub open spec fn has_free(self) -> bool {
        exists|c: Block| self.free(c)
    }

    /// The first of `draws`, from index `from` on, that is free.
    pub open spec fn first_free_draw(self, draws: Seq<Block>, from: int) -> Option<Block>
        decreases draws.len() - from,
    {
        if from < 0 || from >= draws.len() {
            None
        } else if self.free(draws[from]) {
            Some(draws[from])
        } else {
            self.first_free_draw(draws, from + 1)
        }
    }

    /// The first free cell at or after column `x` of row `y`, reading each
    /// row from the left and the rows from the top.
    pub open spec fn first_free_cell(self, x: int, y: int) -> Option<Block>
        decreases self.height - y, self.width - x,
    {
        if x < 0 || y < 0 || y >= self.height {
            None
        } else if x >= self.width {
            self.first_free_cell(0, y + 1)
        } else if !self.occupied(Block(x as u32, y as u32)) {
            Some(Block(x as u32, y as u32))
        } else {
            self.first_free_cell(x + 1, y)
        }
    }

    /// Where new food goes: on the first free cell among `draws`; if none
    /// of them is free, on the first free cell of the grid; if the snake
    /// fills the grid, the food stays where it is.
    pub open spec fn new_food(self, draws: Seq<Block>) -> Block {
        match self.first_free_draw(draws, 0) {
            Some(c) => c,
            None => match self.first_free_cell(0, 0) {
                Some(c) => c,
                None => self.food,
            },
        }
    }

    /// The state in which a game starts.
    pub open spec fn initial(
        width: u32,
        height: u32,
        head: Block,
        draws: Seq<Block>,
        high_score: nat,
    ) -> SnakeView {
        let bare = SnakeView {
            width,
            height,
            head,
            tail: Seq::empty(),
            food: head,
            pending: None,
            queued: None,
            last: Direction::Right,
            score: 0,
            high_score,
            over: false,
        };
        SnakeView { food: bare.new_food(draws), ..bare }
    }

    /// The state after a request to turn towards `d`.
    pub open spec fn request(self, d: Direction) -> SnakeView {
        match self.pending {
            None => if self.last.is_opposite(d) {
                self
            } else {
                SnakeView { pending: Some(d), ..self }
            },
            Some(p) => if p.is_opposite(d) {
                self
            } else {
                SnakeView { queued: Some(d), ..self }
            },
        }
    }

    /// The direction that the next tick takes.
    pub open spec fn heading(self) -> Direction {
        match self.pending {
            Some(d) => d,
            None => self.last,
        }
    }

    /// The cell that the next tick moves the head to.
    pub open spec fn next_head(self) -> Block {
        moved(self.head, self.heading(), self.width, self.height)
    }

    /// Whether the next tick ends the game, or finds it ended.
    pub open spec fn stops(self) -> bool {
        self.over || self.tail.contains(self.next_head())
    }

    /// Whether the next tick moves the head onto the food.
    pub open spec fn eats(self) -> bool {
        !self.stops() && self.next_head() == self.food
    }

    /// The state after a tick, given the cells drawn for new food.
    pub open spec fn tick(self, draws: Seq<Block>) -> SnakeView {
        if self.over {
            self
        } else if self.stops() {
            SnakeView { last: self.heading(), pending: None, over: true, ..self }
        } else {
            let ahead = SnakeView {
                head: self.next_head(),
                tail: seq![self.head] + self.tail,
                last: self.heading(),
                pending: self.queued,
                queued: None,
                ..self
            };
            if self.eats() {
                let score = self.score + 1;
                let grown = SnakeView {
                    score,
                    high_score: if score > self.high_score { score } else { self.high_score },
                    ..ahead
                };
                SnakeView { food: grown.new_food(draws), ..grown }
            } else {
                SnakeView { tail: ahead.tail.drop_last(), ..ahead }
            }
        }
    }

    /// The state after the game is started anew with the head on `head`.
    /// The high score is the larger of the one held and the one `stored`.
    pub open spec fn restart(self, head: Block, draws: Seq<Block>, stored: nat) -> SnakeView {
        SnakeView::initial(
            self.width,
            self.height,
            head,
            draws,
            if stored >= self.high_score { stored } else { self.high_score },
        )
    }

    /// Whether the snake crosses itself nowhere, and the food lies off the
    /// snake wherever the snake leaves it a cell.
    pub open spec fn intact(self) -> bool {
        &&& self.body().no_duplicates()
        &&& (self.free(self.food) || !self.has_free())
    }

    /// Whether every cell of the snake, and the food, is a cell of
    /// `canvas`.
    pub open spec fn shown_on(self, canvas: CanvasView) -> bool {
        &&& canvas.covers(self.head)
        &&& canvas.covers(self.food)
        &&& forall|i: int| 0 <= i < self.tail.len() ==> canvas.covers(#[trigger] self.tail[i])
    }

    /// The game as fills on `canvas`, in the order in which they are
    /// painted: the empty grid, the head, the tail from the head on, the
    /// food.
    pub open spec fn picture(self, canvas: CanvasView) -> Seq<Fill> {
        seq![
            Fill { rect: canvas.area(), color: Color::White },
            Fill { rect: canvas.cell(self.head.0, self.head.1), color: Color::Green },
        ] + self.tail.map_values(
            |b: Block| Fill { rect: canvas.cell(b.0, b.1), color: Color::LightGreen },
        ) + seq![Fill { rect: canvas.cell(self.food.0, self.food.1), color: Color::Red }]
    }

    /// What a tick reports to the host.
    pub open spec fn tick_result(self) -> TickResult {
        if self.stops() {
            TickResult::GameOver { score: self.score as u32, high_score: self.high_score as u32 }
        } else if self.eats() && self.score + 1 > self.high_score {
            TickResult::Continuing { persist: Some((self.score + 1) as u32) }
        } else {
            TickResult::Continuing { persist: None }
        }
    }
}

/// Whether `c` comes before column `x` of row `y` when each row is read
/// from the left and the rows from the top.
pub open spec fn precedes(c: Block, x: int, y: int) -> bool {
    c.1 < y || (c.1 == y && c.0 < x)
}

/// What can happen to a game.
pub enum Event {
    /// The player asks for a turn.
    Turn(Direction),
    /// The timer ticks; the cells are those drawn for new food.
    Tick(Seq<Block>),
    /// The game is started anew: the new head, the cells drawn for the
    /// food, and the high score that the host has stored.
    Reset(Block, Seq<Block>, nat),
}

impl SnakeView {
    /// The state after `e`.
    pub open spec fn apply(self, e: Event) -> SnakeView {
        match e {
            Event::Turn(d) => self.request(d),
            Event::Tick(draws) => self.tick(draws),
            Event::Reset(head, draws, stored) => self.restart(head, draws, stored),
        }
    }

    /// The state after each of `events` in turn.
    pub open spec fn run(self, events: Seq<Event>) -> SnakeView
        decreases events.len(),
    {
        if events.len() == 0 {
            self
        } else {
            self.run(events.drop_last()).apply(events.last())
        }
    }

    /// Whether every new start among `events` puts the head on the grid.
    pub open spec fn admits(self, events: Seq<Event>) -> bool {
        forall|i: int|
            0 <= i < events.len() ==> (#[trigger] events[i] matches Event::Reset(head, _, _)
                ==> in_grid(head, self.width, self.height))
    }
}

} // verus!
