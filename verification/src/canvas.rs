//! The surface that a game is painted on: a pixel rectangle cut into the
//! cells of the grid, and the rectangles to fill on it.

use vstd::prelude::*;
use vstd::string::StringExecFns;
use crate::block::Block;
use crate::text::{high_score_line, score_line, to_decimal};

verus! {

/// The colours of a game.
#[derive(Debug, Clone, Copy, PartialEq, Eq, Structural)]
pub enum Color {
    /// The empty grid.
    White,
    /// The snake's head.
    Green,
    /// The snake's tail.
    LightGreen,
    /// The food.
    Red,
    /// The border of the surface.
    Black,
}

impl Color {
    /// The name by which a style sheet knows the colour.
    pub open spec fn css(self) -> Seq<char> {
        match self {
            Color::White => "white"@,
            Color::Green => "green"@,
            Color::LightGreen => "lightgreen"@,
            Color::Red => "red"@,
            Color::Black => "black"@,
        }
    }

    /// The name by which a style sheet knows the colour.
    pub fn name(self) -> (r: &'static str)
        ensures
            r@ == self.css(),
    {
        match self {
            Color::White => "white",
            Color::Green => "green",
            Color::LightGreen => "lightgreen",
            Color::Red => "red",
            Color::Black => "black",
        }
    }
}

/// A rectangle of pixels: its left and top edge, then its size.
#[derive(Debug, Clone, Copy, PartialEq, Eq, Structural)]
pub struct Rect {
    pub x: u32,
    pub y: u32,
    pub width: u32,
    pub height: u32,
}

/// A rectangle to fill with a colour.
#[derive(Debug, Clone, Copy, PartialEq, Eq, Structural)]
pub struct Fill {
    pub rect: Rect,
    pub color: Color,
}

/// The two lines of text that go with a game.
#[derive(Debug)]
pub struct Scores {
    /// The line for the score.
    pub score: String,
    /// The line for the high score.
    pub high_score: String,
}

/// A surface of pixels cut into the cells of a grid.
#[derive(Debug, Clone, Copy)]
pub struct Canvas {
    pixel_width: u32,
    pixel_height: u32,
    scaled_width: u32,
    scaled_height: u32,
    width: u32,
    height: u32,
}

/// What a canvas is made from.
pub struct CanvasView {
    /// Pixels across the surface.
    pub pixel_width: u32,
    /// Pixels down the surface.
    pub pixel_height: u32,
    /// Columns of the grid.
    pub width: u32,
    /// Rows of the grid.
    pub height: u32,
}

impl CanvasView {
    /// Pixels across one cell: the surface's width over the number of
    /// columns, rounded down.
    pub open spec fn cell_width(self) -> int {
        self.pixel_width as int / self.width as int
    }

    /// Pixels down one cell: the surface's height over the number of rows,
    /// rounded down.
    pub open spec fn cell_height(self) -> int {
        self.pixel_height as int / self.height as int
    }

    /// Whether `b` is a cell of the canvas's grid.
    pub open spec fn covers(self, b: Block) -> bool {
        b.0 < self.width && b.1 < self.height
    }

    /// The pixels of the cell in column `x` and row `y`.
    pub open spec fn cell(self, x: u32, y: u32) -> Rect {
        Rect {
            x: (x * self.cell_width()) as u32,
            y: (y * self.cell_height()) as u32,
            width: self.cell_width() as u32,
            height: self.cell_height() as u32,
        }
    }

    /// The pixels of all cells together.
    pub open spec fn area(self) -> Rect {
        Rect {
            x: 0,
            y: 0,
            width: (self.width * self.cell_width()) as u32,
            height: (self.height * self.cell_height()) as u32,
        }
    }

    /// The pixels of the surface.
    pub open spec fn border(self) -> Rect {
        Rect { x: 0, y: 0, width: self.pixel_width, height: self.pixel_height }
    }
}

/// `count` cells of `size / count` pixels each fit into `size` pixels.
pub proof fn lemma_cells_fit(size: u32, count: u32, i: u32)
    requires
        count > 0,
        i <= count,
    ensures
        0 <= size as int / count as int <= size,
        0 <= i * (size as int / count as int) <= size,
        i < count ==> i * (size as int / count as int) + size as int / count as int <= size,
{
    let s = size as int;
    let c = count as int;
    let q = s / c;
    vstd::arithmetic::div_mod::lemma_fundamental_div_mod(s, c);
    vstd::arithmetic::div_mod::lemma_mod_bound(s, c);
    vstd::arithmetic::div_mod::lemma_div_pos_is_pos(s, c);
    assert(0 <= i * q <= c * q) by (nonlinear_arith)
        requires
            0 <= i <= c,
            0 <= q,
    ;
    assert(i < c ==> i * q + q <= c * q) by (nonlinear_arith)
        requires
            0 <= i <= c,
            0 <= q,
    ;
}

impl View for Canvas {
    type V = CanvasView;

    closed spec fn view(&self) -> CanvasView {
        CanvasView {
            pixel_width: self.pixel_width,
            pixel_height: self.pixel_height,
            width: self.width,
            height: self.height,
        }
    }
}

impl Canvas {
    /// Whether the canvas holds the size of a cell of its grid.
    pub closed spec fn wf(&self) -> bool {
        &&& self.width > 0
        &&& self.height > 0
        &&& self.scaled_width == self@.cell_width()
        &&& self.scaled_height == self@.cell_height()
    }

    /// Cuts a surface of `pixel_width` by `pixel_height` pixels into a grid
    /// of `width` columns and `height` rows.
    pub fn new(pixel_width: u32, pixel_height: u32, width: u32, height: u32) -> (r: Canvas)
        requires
            width > 0,
            height > 0,
        ensures
            r.wf(),
            r@ == (CanvasView { pixel_width, pixel_height, width, height }),
    {
        Canvas {
            pixel_width,
            pixel_height,
            scaled_width: pixel_width / width,
            scaled_height: pixel_height / height,
            width,
            height,
        }
    }

    /// Columns of the grid.
    pub fn width(&self) -> (r: u32)
        ensures
            r == self@.width,
            self.wf() ==> r > 0,
    {
        self.width
    }

    /// Rows of the grid.
    pub fn height(&self) -> (r: u32)
        ensures
            r == self@.height,
            self.wf() ==> r > 0,
    {
        self.height
    }

    /// The fill that paints the cell in column `x` and row `y`.
    pub fn draw(&self, x: u32, y: u32, color: Color) -> (r: Fill)
        requires
            self.wf(),
            x < self@.width,
            y < self@.height,
        ensures
            r == (Fill { rect: self@.cell(x, y), color }),
            r.rect.x + r.rect.width <= self@.pixel_width,
            r.rect.y + r.rect.height <= self@.pixel_height,
    {
        proof {
            lemma_cells_fit(self.pixel_width, self.width, x);
            lemma_cells_fit(self.pixel_height, self.height, y);
        }
        Fill {
            rect: Rect {
                x: x * self.scaled_width,
                y: y * self.scaled_height,
                width: self.scaled_width,
                height: self.scaled_height,
            },
            color,
        }
    }

    /// The fill that wipes all cells.
    pub fn clear_all(&self) -> (r: Fill)
        requires
            self.wf(),
        ensures
            r == (Fill { rect: self@.area(), color: Color::White }),
            r.rect.width <= self@.pixel_width,
            r.rect.height <= self@.pixel_height,
    {
        proof {
            lemma_cells_fit(self.pixel_width, self.width, self.width);
            lemma_cells_fit(self.pixel_height, self.height, self.height);
        }
        Fill {
            rect: Rect {
                x: 0,
                y: 0,
                width: self.width * self.scaled_width,
                height: self.height * self.scaled_height,
            },
            color: Color::White,
        }
    }

    /// The lines that show the score and the high score.
    pub fn display_scores(&self, score: u32, high_score: u32) -> (r: Scores)
        ensures
            r.score@ == score_line(score),
            r.high_score@ == high_score_line(high_score),
    {
        let mut score_text = String::from_str("Score: ");
        score_text.append(to_decimal(score).as_str());
        let mut high_score_text = String::from_str("High Score: ");
        high_score_text.append(to_decimal(high_score).as_str());
        Scores { score: score_text, high_score: high_score_text }
    }

    /// The rectangle to stroke in black around the surface.
    pub fn draw_border(&self) -> (r: Rect)
        ensures
            r == self@.border(),
    {
        Rect { x: 0, y: 0, width: self.pixel_width, height: self.pixel_height }
    }
}

} // verus!
