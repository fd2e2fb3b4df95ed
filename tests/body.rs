use snake::grid::Position;
use snake::snake::Snake;

fn p(x: i16, y: i16) -> Position {
    Position { x, y }
}

#[test]
fn start_snake_lies_in_the_middle() {
    let s = Snake::start();
    assert_eq!(s.body, vec![p(15, 15), p(14, 15), p(13, 15)]);
    assert_eq!(s.head(), p(15, 15));
    assert_eq!(s.len(), 3);
}

#[test]
fn occupies_every_segment_and_nothing_else() {
    let s = Snake::start();
    assert!(s.occupies(p(15, 15)));
    assert!(s.occupies(p(13, 15)));
    assert!(!s.occupies(p(12, 15)));
    assert!(!s.occupies(p(16, 15)));
}

#[test]
fn advance_without_food_drops_the_tail() {
    let mut s = Snake::start();
    s.advance(p(16, 15), false);
    assert_eq!(s.body, vec![p(16, 15), p(15, 15), p(14, 15)]);
}

#[test]
fn advance_with_food_grows() {
    let mut s = Snake::start();
    s.advance(p(15, 14), true);
    assert_eq!(s.body, vec![p(15, 14), p(15, 15), p(14, 15), p(13, 15)]);
}

#[test]
fn first_free_cell_scans_rows() {
    let s = Snake::start();
    assert_eq!(s.first_free_cell(), Some(p(0, 0)));
    let s = Snake { body: vec![p(0, 0), p(1, 0), p(2, 0)] };
    assert_eq!(s.first_free_cell(), Some(p(3, 0)));
}

#[test]
fn first_free_cell_of_a_full_field_is_none() {
    let mut body = Vec::new();
    for y in 0..30 {
        for x in 0..30 {
            body.push(p(x, y));
        }
    }
    let s = Snake { body };
    assert_eq!(s.first_free_cell(), None);
    let mut body = s.body;
    body.retain(|c| *c != p(17, 29));
    let s = Snake { body };
    assert_eq!(s.first_free_cell(), Some(p(17, 29)));
}
