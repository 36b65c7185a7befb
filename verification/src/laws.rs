//! What holds of the game whatever the player and the dice do.

use vstd::prelude::*;
use vstd::arithmetic::div_mod::{lemma_fundamental_div_mod, lemma_mod_bound};
use vstd::seq_lib::seq_to_set_is_finite;
use vstd::set_lib::{lemma_int_range, lemma_len_subset, set_int_range};
use crate::block::{in_grid, lemma_moved_in_grid, lemma_moved_wraps, moved, Block};
use crate::direction::Direction;
use crate::model::{precedes, Event, SnakeView};

verus! {

/// Where a search through `draws` from index `from` on ends: on a free
/// cell that no free cell comes before, or on nothing where none is free.
pub proof fn lemma_first_free_draw(s: SnakeView, draws: Seq<Block>, from: int)
    requires
        0 <= from,
    ensures
        match s.first_free_draw(draws, from) {
            Some(c) => exists|i: int|
                from <= i < draws.len() && draws[i] == c && s.free(c) && forall|j: int|
                    from <= j < i ==> !s.free(#[trigger] draws[j]),
            None => forall|j: int| from <= j < draws.len() ==> !s.free(#[trigger] draws[j]),
        },
    decreases draws.len() - from,
{
    if from < draws.len() && !s.free(draws[from]) {
        lemma_first_free_draw(s, draws, from + 1);
        match s.first_free_draw(draws, from + 1) {
            Some(c) => {
                let i = choose|i: int|
                    from + 1 <= i < draws.len() && draws[i] == c && s.free(c) && forall|j: int|
                        from + 1 <= j < i ==> !s.free(#[trigger] draws[j]);
                assert(from <= i < draws.len() && draws[i] == c && s.free(c) && forall|j: int|
                    from <= j < i ==> !s.free(#[trigger] draws[j]));
            },
            None => {},
        }
    } else if from < draws.len() {
        assert(from <= from < draws.len() && draws[from] == draws[from] && s.free(draws[from])
            && forall|j: int| from <= j < from ==> !s.free(#[trigger] draws[j]));
    }
}

/// Where a search through the grid from column `x` of row `y` on ends: on
/// the first free cell in reading order, or on nothing where none is free.
pub proof fn lemma_first_free_cell(s: SnakeView, x: int, y: int)
    requires
        0 <= x <= s.width,
        0 <= y <= s.height,
    ensures
        match s.first_free_cell(x, y) {
            Some(c) => s.free(c) && !precedes(c, x, y) && forall|d: Block|
                #[trigger] s.free(d) && !precedes(d, x, y) ==> !precedes(d, c.0 as int, c.1 as int),
            None => forall|d: Block| #[trigger] s.free(d) ==> precedes(d, x, y),
        },
    decreases s.height - y, s.width - x,
{
    if y >= s.height {
    } else if x >= s.width {
        lemma_first_free_cell(s, 0, y + 1);
    } else if s.occupied(Block(x as u32, y as u32)) {
        lemma_first_free_cell(s, x + 1, y);
    }
}

/// New food lands on a free cell wherever the snake leaves one, and stays
/// where it is only where the snake fills the grid.
pub proof fn lemma_new_food(s: SnakeView, draws: Seq<Block>)
    ensures
        s.has_free() ==> s.free(s.new_food(draws)),
        !s.has_free() ==> s.new_food(draws) == s.food,
{
    lemma_first_free_draw(s, draws, 0);
    lemma_first_free_cell(s, 0, 0);
}

/// A request to reverse the latest move, made while no turn is pending,
/// changes nothing.
pub proof fn lemma_reversal_dropped(s: SnakeView, d: Direction)
    requires
        s.pending is None,
        d == s.last.reversed(),
    ensures
        s.request(d) == s,
{
}

/// A request changes the two slots for turns and nothing else, and never
/// puts a reversal of the pending turn behind it.
pub proof fn lemma_request_buffers(s: SnakeView, d: Direction)
    ensures
        s.request(d) == (SnakeView { pending: s.request(d).pending, queued: s.request(d).queued, ..s }),
        s.pending is Some ==> s.request(d).pending == s.pending,
        s.request(d).queued != s.queued ==> s.request(d).queued == Some(d) && s.pending is Some
            && !s.pending->0.is_opposite(d),
{
}

/// A game starts in a well-formed and intact state without a point.
pub proof fn lemma_initial(width: u32, height: u32, head: Block, draws: Seq<Block>, high_score: nat)
    requires
        width > 0,
        height > 0,
        in_grid(head, width, height),
    ensures
        SnakeView::initial(width, height, head, draws, high_score).wf(),
        SnakeView::initial(width, height, head, draws, high_score).intact(),
        SnakeView::initial(width, height, head, draws, high_score).score == 0,
        SnakeView::initial(width, height, head, draws, high_score).tail.len() == 0,
        SnakeView::initial(width, height, head, draws, high_score).high_score == high_score,
{
    let t = SnakeView::initial(width, height, head, draws, high_score);
    let bare = SnakeView { food: head, ..t };
    assert(bare.tail =~= Seq::empty());
    lemma_new_food(bare, draws);
    assert(t.has_free() == bare.has_free()) by {
        assert(forall|c: Block| t.free(c) == bare.free(c));
    }
    assert(t.free(t.food) == bare.free(t.food));
}

/// A tick keeps a well-formed state well-formed: in particular the tail
/// has as many cells as the score says.
pub proof fn lemma_tick_wf(s: SnakeView, draws: Seq<Block>)
    requires
        s.wf(),
    ensures
        s.tick(draws).wf(),
        s.tick(draws).tail.len() == s.tick(draws).score,
{
    let t = s.tick(draws);
    lemma_moved_in_grid(s.head, s.heading(), s.width, s.height);
    if !s.stops() {
        let long = seq![s.head] + s.tail;
        assert forall|i: int| 0 <= i < long.len() implies in_grid(
            #[trigger] long[i],
            s.width,
            s.height,
        ) by {
            if i > 0 {
                assert(long[i] == s.tail[i - 1]);
            }
        }
        if s.eats() {
            let grown = SnakeView { food: s.food, ..t };
            lemma_new_food(grown, draws);
        } else {
            assert forall|i: int| 0 <= i < t.tail.len() implies in_grid(
                #[trigger] t.tail[i],
                s.width,
                s.height,
            ) by {
                assert(t.tail[i] == long[i]);
            }
        }
    }
}

/// After a tick on which the snake eats, the food lies on a free cell,
/// wherever the snake leaves one.
pub proof fn lemma_fresh_food_is_free(s: SnakeView, draws: Seq<Block>)
    requires
        s.eats(),
    ensures
        s.tick(draws).has_free() ==> s.tick(draws).free(s.tick(draws).food),
{
    let t = s.tick(draws);
    let grown = SnakeView { food: s.food, ..t };
    lemma_new_food(grown, draws);
    assert(forall|c: Block| t.free(c) == grown.free(c));
    if t.has_free() {
        let c = choose|c: Block| t.free(c);
        assert(grown.free(c));
    }
}

/// A tick never lowers the high score, and never changes the grid.
pub proof fn lemma_tick_high_score(s: SnakeView, draws: Seq<Block>)
    ensures
        s.tick(draws).high_score >= s.high_score,
        s.tick(draws).width == s.width,
        s.tick(draws).height == s.height,
{
}

/// Once the game is over, a tick changes nothing and reports the end again.
pub proof fn lemma_over_is_final(s: SnakeView, draws: Seq<Block>)
    requires
        s.over,
    ensures
        s.tick(draws) == s,
        s.tick_result() is GameOver,
{
}

/// A tick that ends the game leaves the snake, the food and the scores as
/// they were.
pub proof fn lemma_collision_freezes(s: SnakeView, draws: Seq<Block>)
    requires
        s.stops(),
    ensures
        s.tick(draws).over,
        s.tick(draws).head == s.head,
        s.tick(draws).tail == s.tail,
        s.tick(draws).food == s.food,
        s.tick(draws).score == s.score,
        s.tick(draws).high_score == s.high_score,
        s.tick_result() is GameOver,
{
}

/// On a grid of two or more columns and rows a step leads to another cell.
pub proof fn lemma_moved_differs(b: Block, d: Direction, width: u32, height: u32)
    requires
        width >= 2,
        height >= 2,
        in_grid(b, width, height),
    ensures
        moved(b, d, width, height) != b,
{
    lemma_moved_wraps(b, width, height);
}

/// On a grid of two or more columns and rows a tick keeps an intact state
/// intact: the snake does not come to cross itself, and the food does not
/// come to lie under it while a cell is free.
pub proof fn lemma_tick_intact(s: SnakeView, draws: Seq<Block>)
    requires
        s.wf(),
        s.intact(),
        s.width >= 2,
        s.height >= 2,
    ensures
        s.tick(draws).intact(),
{
    let t = s.tick(draws);
    if !s.stops() {
        let nh = s.next_head();
        lemma_moved_in_grid(s.head, s.heading(), s.width, s.height);
        lemma_moved_differs(s.head, s.heading(), s.width, s.height);
        let old_body = s.body();
        let long = seq![s.head] + s.tail;
        assert(old_body =~= long);
        let new_body = t.body();
        assert(new_body.len() <= long.len() + 1);
        assert(new_body[0] == nh);
        assert forall|i: int| 1 <= i < new_body.len() implies #[trigger] new_body[i] == long[i - 1] by {}
        assert forall|i: int| 0 <= i < long.len() implies #[trigger] long[i] != nh by {
            if i > 0 {
                assert(long[i] == s.tail[i - 1]);
            }
        }
        assert forall|i: int, j: int|
            0 <= i < new_body.len() && 0 <= j < new_body.len() && i != j implies new_body[i]
            != new_body[j] by {
            if i > 0 && j > 0 {
                assert(long[i - 1] != long[j - 1]);
            }
        }
        if s.eats() {
            let grown = SnakeView { food: s.food, ..t };
            lemma_new_food(grown, draws);
            assert(t.has_free() == grown.has_free()) by {
                assert(forall|c: Block| t.free(c) == grown.free(c));
            }
            assert(t.free(t.food) == grown.free(t.food));
        } else {
            if s.free(s.food) {
                if t.tail.contains(s.food) {
                    let i = choose|i: int| 0 <= i < t.tail.len() && t.tail[i] == s.food;
                    assert(t.tail[i] == long[i]);
                    if i > 0 {
                        assert(s.tail[i - 1] == s.food);
                    }
                }
                assert(t.free(t.food));
            } else {
                assert(s.free(nh));
            }
        }
    } else {
        assert(t.body() == s.body());
        assert(forall|c: Block| t.free(c) == s.free(c));
        if t.has_free() {
            let c = choose|c: Block| t.free(c);
            assert(s.free(c));
        }
    }
}

/// The place of `b` when the cells of a grid of `width` columns are
/// counted row by row.
pub open spec fn cell_index(b: Block, width: u32) -> int {
    b.1 * width + b.0
}

/// Cells of a grid are counted from 0 to the number of cells, and no two
/// of them are counted alike.
pub proof fn lemma_cell_index(a: Block, b: Block, width: u32, height: u32)
    requires
        in_grid(a, width, height),
        in_grid(b, width, height),
    ensures
        0 <= cell_index(a, width) < width * height,
        cell_index(a, width) == cell_index(b, width) ==> a == b,
{
    let w = width as int;
    let h = height as int;
    let (ax, ay) = (a.0 as int, a.1 as int);
    let (bx, by) = (b.0 as int, b.1 as int);
    assert(0 <= ay * w + ax < w * h) by (nonlinear_arith)
        requires
            0 <= ax < w,
            0 <= ay < h,
    ;
    assert(ay * w + ax == by * w + bx ==> ay == by && ax == bx) by (nonlinear_arith)
        requires
            0 <= ax < w,
            0 <= bx < w,
            0 <= ay,
            0 <= by,
    ;
}

/// A snake that crosses itself nowhere has no more cells than the grid.
pub proof fn lemma_body_fits(s: SnakeView)
    requires
        s.wf(),
        s.body().no_duplicates(),
    ensures
        s.tail.len() + 1 <= s.width * s.height,
{
    let body = s.body();
    let width = s.width;
    let places = body.map_values(|b: Block| cell_index(b, width));
    let grid = set_int_range(0, s.width * s.height);
    assert forall|i: int| 0 <= i < body.len() implies in_grid(#[trigger] body[i], s.width, s.height) by {
        if i > 0 {
            assert(body[i] == s.tail[i - 1]);
        }
    }
    assert forall|i: int, j: int| 0 <= i < places.len() && 0 <= j < places.len() && i != j implies places[i]
        != places[j] by {
        lemma_cell_index(body[i], body[j], s.width, s.height);
    }
    assert forall|p: int| places.to_set().contains(p) implies grid.contains(p) by {
        let i = choose|i: int| 0 <= i < places.len() && places[i] == p;
        lemma_cell_index(body[i], body[i], s.width, s.height);
    }
    assert(0 <= s.width * s.height) by (nonlinear_arith);
    places.unique_seq_to_set();
    lemma_int_range(0, s.width * s.height);
    lemma_len_subset(places.to_set(), grid);
}

/// A snake of fewer cells than the grid leaves a cell free.
pub proof fn lemma_free_cell_exists(s: SnakeView)
    requires
        s.wf(),
        s.tail.len() + 1 < s.width * s.height,
    ensures
        s.has_free(),
{
    if !s.has_free() {
        let body = s.body();
        let width = s.width;
        let w = s.width as int;
        let h = s.height as int;
        let places = body.map_values(|b: Block| cell_index(b, width));
        let grid = set_int_range(0, w * h);
        assert forall|p: int| grid.contains(p) implies places.to_set().contains(p) by {
            let x = p % w;
            let y = p / w;
            lemma_fundamental_div_mod(p, w);
            lemma_mod_bound(p, w);
            assert(0 <= y < h) by (nonlinear_arith)
                requires
                    p == w * y + x,
                    0 <= x < w,
                    0 <= p < w * h,
            ;
            assert(y * w + x == p) by (nonlinear_arith)
                requires
                    p == w * y + x,
            ;
            let c = Block(x as u32, y as u32);
            assert(!s.free(c));
            let i = if c == s.head {
                0
            } else {
                1 + choose|i: int| 0 <= i < s.tail.len() && s.tail[i] == c
            };
            assert(body[i] == c);
            assert(places[i] == p);
        }
        lemma_int_range(0, w * h);
        places.lemma_cardinality_of_set();
        seq_to_set_is_finite(places);
        lemma_len_subset(grid, places.to_set());
    }
}

/// On a grid of two or more columns and rows, where an intact snake is
/// about to eat, the grid has room for the cell it grows by: the score is
/// at least two short of the number of cells.
pub proof fn lemma_room_to_grow(s: SnakeView)
    requires
        s.wf(),
        s.intact(),
        s.width >= 2,
        s.height >= 2,
        s.eats(),
    ensures
        s.score + 2 <= s.width * s.height,
{
    let t = s.tick(Seq::empty());
    lemma_tick_wf(s, Seq::empty());
    lemma_tick_intact(s, Seq::empty());
    lemma_body_fits(t);
}

/// A request for a turn keeps a well-formed state well-formed and an
/// intact one intact, and leaves the scores alone.
pub proof fn lemma_request_keeps(s: SnakeView, d: Direction)
    ensures
        s.wf() ==> s.request(d).wf(),
        s.intact() ==> s.request(d).intact(),
        s.request(d).score == s.score,
        s.request(d).high_score == s.high_score,
{
    let t = s.request(d);
    assert(t.body() == s.body());
    assert(forall|c: Block| t.free(c) == s.free(c));
    if s.has_free() {
        let c = choose|c: Block| s.free(c);
        assert(t.free(c));
    }
    if t.has_free() {
        let c = choose|c: Block| t.free(c);
        assert(s.free(c));
    }
}

/// Where the grid admits a run of events, it admits the run without its
/// last event.
proof fn lemma_admits_earlier(s: SnakeView, events: Seq<Event>)
    requires
        s.admits(events),
        events.len() > 0,
    ensures
        s.admits(events.drop_last()),
{
    assert forall|i: int| 0 <= i < events.drop_last().len() implies (
    #[trigger] events.drop_last()[i] matches Event::Reset(head, _, _) ==> in_grid(
        head,
        s.width,
        s.height,
    )) by {
        assert(events.drop_last()[i] == events[i]);
    }
}

/// Whatever happens to a well-formed game, it stays well-formed: the tail
/// has one cell for each point, and the high score is no less than the
/// score. And the high score never goes down, not even when the game is
/// started anew.
pub proof fn lemma_run_wf(s: SnakeView, events: Seq<Event>)
    requires
        s.wf(),
        s.admits(events),
    ensures
        s.run(events).wf(),
        s.run(events).tail.len() == s.run(events).score,
        s.run(events).score <= s.run(events).high_score,
        s.run(events).high_score >= s.high_score,
        s.run(events).width == s.width,
        s.run(events).height == s.height,
    decreases events.len(),
{
    if events.len() > 0 {
        let before = s.run(events.drop_last());
        lemma_admits_earlier(s, events);
        lemma_run_wf(s, events.drop_last());
        match events.last() {
            Event::Turn(d) => {
                lemma_request_keeps(before, d);
            },
            Event::Tick(draws) => {
                lemma_tick_wf(before, draws);
                lemma_tick_high_score(before, draws);
            },
            Event::Reset(head, draws, stored) => {
                assert(events[events.len() - 1] == events.last());
                lemma_initial(
                    before.width,
                    before.height,
                    head,
                    draws,
                    if stored >= before.high_score { stored } else { before.high_score },
                );
            },
        }
    }
}

/// On a grid of two or more columns and rows, whatever happens to a
/// well-formed and intact game, it stays intact.
pub proof fn lemma_run_intact(s: SnakeView, events: Seq<Event>)
    requires
        s.wf(),
        s.intact(),
        s.width >= 2,
        s.height >= 2,
        s.admits(events),
    ensures
        s.run(events).intact(),
    decreases events.len(),
{
    if events.len() > 0 {
        let before = s.run(events.drop_last());
        lemma_admits_earlier(s, events);
        lemma_run_wf(s, events.drop_last());
        lemma_run_intact(s, events.drop_last());
        match events.last() {
            Event::Turn(d) => {
                lemma_request_keeps(before, d);
            },
            Event::Tick(draws) => {
                lemma_tick_intact(before, draws);
            },
            Event::Reset(head, draws, stored) => {
                assert(events[events.len() - 1] == events.last());
                lemma_initial(
                    before.width,
                    before.height,
                    head,
                    draws,
                    if stored >= before.high_score { stored } else { before.high_score },
                );
            },
        }
    }
}

/// On a grid of two or more columns and rows with no more cells than a
/// score can count, whatever happens to a well-formed and intact game, the
/// score has room for the next food.
pub proof fn lemma_score_has_room(s: SnakeView, events: Seq<Event>)
    requires
        s.wf(),
        s.intact(),
        s.width >= 2,
        s.height >= 2,
        s.width * s.height <= u32::MAX,
        s.admits(events),
    ensures
        s.run(events).eats() ==> s.run(events).score < u32::MAX,
{
    lemma_run_wf(s, events);
    lemma_run_intact(s, events);
    if s.run(events).eats() {
        lemma_room_to_grow(s.run(events));
    }
}

} // verus!
