use snake_game::block::Block;
use snake_game::canvas::{Canvas, Color, Fill, Rect};
use snake_game::direction::Direction;
use snake_game::snake::Snake;
use snake_game::text::{from_decimal, same_text, to_decimal};

#[test]
fn cells_are_the_surface_divided_by_the_grid() {
    let canvas = Canvas::new(400, 300, 20, 10);
    assert_eq!(canvas.width(), 20);
    assert_eq!(canvas.height(), 10);
    let fill = canvas.draw(3, 4, Color::Red);
    assert_eq!(fill, Fill { rect: Rect { x: 60, y: 120, width: 20, height: 30 }, color: Color::Red });
    let fill = canvas.draw(19, 9, Color::Green);
    assert_eq!(fill.rect, Rect { x: 380, y: 270, width: 20, height: 30 });
    assert_eq!(canvas.draw(0, 0, Color::Green).rect, Rect { x: 0, y: 0, width: 20, height: 30 });
}

#[test]
fn cell_size_rounds_down() {
    let canvas = Canvas::new(405, 299, 20, 10);
    assert_eq!(canvas.draw(1, 1, Color::Red).rect, Rect { x: 20, y: 29, width: 20, height: 29 });
    assert_eq!(
        canvas.clear_all(),
        Fill { rect: Rect { x: 0, y: 0, width: 400, height: 290 }, color: Color::White }
    );
    assert_eq!(canvas.draw_border(), Rect { x: 0, y: 0, width: 405, height: 299 });
}

#[test]
fn a_surface_smaller_than_the_grid_has_empty_cells() {
    let canvas = Canvas::new(5, 5, 20, 20);
    assert_eq!(canvas.draw(19, 19, Color::Red).rect, Rect { x: 0, y: 0, width: 0, height: 0 });
    assert_eq!(canvas.clear_all().rect, Rect { x: 0, y: 0, width: 0, height: 0 });
}

#[test]
fn the_largest_surface_does_not_overflow() {
    let canvas = Canvas::new(u32::MAX, u32::MAX, 3, 1);
    let third = u32::MAX / 3;
    assert_eq!(canvas.draw(2, 0, Color::Red).rect, Rect { x: 2 * third, y: 0, width: third, height: u32::MAX });
    assert_eq!(canvas.clear_all().rect, Rect { x: 0, y: 0, width: 3 * third, height: u32::MAX });
}

#[test]
fn colours_have_their_names() {
    assert_eq!(Color::White.name(), "white");
    assert_eq!(Color::Green.name(), "green");
    assert_eq!(Color::LightGreen.name(), "lightgreen");
    assert_eq!(Color::Red.name(), "red");
    assert_eq!(Color::Black.name(), "black");
}

#[test]
fn a_game_is_painted_grid_head_tail_food() {
    let tail = vec![Block(1, 2), Block(0, 2)];
    let snake = Snake::from_parts(5, 5, Block(2, 2), tail, Block(4, 4), Direction::Right, 0).unwrap();
    let canvas = Canvas::new(50, 100, 5, 5);
    let fills = snake.draw(&canvas);
    let cell = |x: u32, y: u32, color: Color| Fill {
        rect: Rect { x: x * 10, y: y * 20, width: 10, height: 20 },
        color,
    };
    assert_eq!(
        fills,
        vec![
            Fill { rect: Rect { x: 0, y: 0, width: 50, height: 100 }, color: Color::White },
            cell(2, 2, Color::Green),
            cell(1, 2, Color::LightGreen),
            cell(0, 2, Color::LightGreen),
            cell(4, 4, Color::Red),
        ]
    );
}

#[test]
fn a_new_game_is_painted_without_a_tail() {
    let snake = Snake::new(20, 20, Block(3, 4), &vec![Block(7, 8)], 0);
    let canvas = Canvas::new(400, 400, 20, 20);
    let fills = snake.draw(&canvas);
    assert_eq!(fills.len(), 3);
    assert_eq!(fills[0], canvas.clear_all());
    assert_eq!(fills[1], canvas.draw(3, 4, Color::Green));
    assert_eq!(fills[2], canvas.draw(7, 8, Color::Red));
}

#[test]
fn score_lines() {
    let canvas = Canvas::new(400, 400, 20, 20);
    let lines = canvas.display_scores(3, 12);
    assert_eq!(lines.score, "Score: 3");
    assert_eq!(lines.high_score, "High Score: 12");
    let lines = canvas.display_scores(0, u32::MAX);
    assert_eq!(lines.score, "Score: 0");
    assert_eq!(lines.high_score, "High Score: 4294967295");
}

#[test]
fn decimal_text_of_numbers() {
    for n in [0u32, 1, 9, 10, 11, 99, 100, 101, 1000, 65535, 1234567890, u32::MAX - 1, u32::MAX] {
        assert_eq!(to_decimal(n), n.to_string());
        assert_eq!(from_decimal(&to_decimal(n)), Some(n));
    }
    assert_eq!(to_decimal(407), "407");
}

#[test]
fn numbers_from_decimal_text() {
    assert_eq!(from_decimal("0"), Some(0));
    assert_eq!(from_decimal("42"), Some(42));
    assert_eq!(from_decimal("+42"), Some(42));
    assert_eq!(from_decimal("007"), Some(7));
    assert_eq!(from_decimal("0000000000000000000012"), Some(12));
    assert_eq!(from_decimal("4294967295"), Some(u32::MAX));
    assert_eq!(from_decimal("4294967296"), None);
    assert_eq!(from_decimal("99999999999999999999999999"), None);
    assert_eq!(from_decimal(""), None);
    assert_eq!(from_decimal("+"), None);
    assert_eq!(from_decimal("-"), None);
    assert_eq!(from_decimal("-1"), None);
    assert_eq!(from_decimal("-0"), None);
    assert_eq!(from_decimal("++1"), None);
    assert_eq!(from_decimal("1+"), None);
    assert_eq!(from_decimal(" 1"), None);
    assert_eq!(from_decimal("1 "), None);
    assert_eq!(from_decimal("12a"), None);
    assert_eq!(from_decimal("1.5"), None);
    assert_eq!(from_decimal("١٢"), None);
}

#[test]
fn decimal_text_reads_as_the_standard_library_reads_it() {
    let texts = [
        "0", "5", "+5", "-5", "", "+", "-", "00", "+00", "4294967295", "4294967296", "42949672950",
        "18446744073709551616", "1_000", "0x10", " 7", "7 ", "seven", "+-1", "9999999999",
    ];
    for text in texts {
        assert_eq!(from_decimal(text), text.parse::<u32>().ok(), "{:?}", text);
    }
}

#[test]
fn stored_high_scores() {
    assert_eq!(Snake::load_high_score(None), 0);
    assert_eq!(Snake::load_high_score(Some("")), 0);
    assert_eq!(Snake::load_high_score(Some("17")), 17);
    assert_eq!(Snake::load_high_score(Some("seventeen")), 0);
    assert_eq!(Snake::load_high_score(Some("-3")), 0);
    assert_eq!(Snake::load_high_score(Some("4294967296")), 0);
    assert_eq!(Snake::save_high_score(17), "17");
    assert_eq!(Snake::save_high_score(0), "0");
    for n in [0u32, 3, 250, u32::MAX] {
        assert_eq!(Snake::load_high_score(Some(&Snake::save_high_score(n))), n);
    }
}

#[test]
fn arrow_keys_give_directions() {
    assert_eq!(Direction::from_key("ArrowLeft"), Some(Direction::Left));
    assert_eq!(Direction::from_key("ArrowRight"), Some(Direction::Right));
    assert_eq!(Direction::from_key("ArrowDown"), Some(Direction::Down));
    assert_eq!(Direction::from_key("ArrowUp"), Some(Direction::Up));
}

#[test]
fn other_keys_give_none() {
    for key in ["", "a", "Enter", "arrowup", "ArrowUp ", "Arrow", "ArrowUpp", "Up", " ", "ArrowLef\u{74}\u{301}"] {
        assert_eq!(Direction::from_key(key), None, "{:?}", key);
    }
}

#[test]
fn texts_compare_by_their_characters() {
    assert!(same_text("", ""));
    assert!(same_text("snake", "snake"));
    assert!(!same_text("snake", "snakes"));
    assert!(!same_text("snake", "snaky"));
    assert!(!same_text("", "s"));
    assert!(same_text("grüße", "grüße"));
    assert!(!same_text("grüße", "gruße"));
}

#[test]
fn a_game_fits_a_canvas_that_covers_its_cells() {
    let tail = vec![Block(1, 2), Block(0, 4)];
    let snake = Snake::from_parts(5, 5, Block(2, 2), tail, Block(3, 3), Direction::Right, 0).unwrap();
    assert!(snake.fits(&Canvas::new(100, 100, 5, 5)));
    assert!(snake.fits(&Canvas::new(100, 100, 4, 5)));
    assert!(snake.fits(&Canvas::new(100, 100, 9, 9)));
    assert!(!snake.fits(&Canvas::new(100, 100, 5, 4)));
    assert!(!snake.fits(&Canvas::new(100, 100, 3, 5)));
    assert!(!snake.fits(&Canvas::new(100, 100, 2, 5)));
    assert!(!snake.fits(&Canvas::new(100, 100, 5, 3)));
}
