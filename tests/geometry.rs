use snake::grid::{cell_to_pixel, in_bounds, neighbour, Direction, PixelRect, Position};

#[test]
fn in_bounds_accepts_the_field_and_rejects_its_edges() {
    assert!(in_bounds(Position { x: 0, y: 0 }));
    assert!(in_bounds(Position { x: 29, y: 29 }));
    assert!(!in_bounds(Position { x: 30, y: 0 }));
    assert!(!in_bounds(Position { x: 0, y: 30 }));
    assert!(!in_bounds(Position { x: -1, y: 5 }));
    assert!(!in_bounds(Position { x: 5, y: -1 }));
}

#[test]
fn cell_to_pixel_scales_by_cell_size() {
    assert_eq!(cell_to_pixel(Position { x: 0, y: 0 }), PixelRect { x: 0, y: 0, w: 20, h: 20 });
    assert_eq!(cell_to_pixel(Position { x: 3, y: 29 }), PixelRect { x: 60, y: 580, w: 20, h: 20 });
}

#[test]
fn neighbour_moves_one_cell() {
    let p = Position { x: 5, y: 7 };
    assert_eq!(neighbour(p, Direction::Up), Position { x: 5, y: 6 });
    assert_eq!(neighbour(p, Direction::Down), Position { x: 5, y: 8 });
    assert_eq!(neighbour(p, Direction::Left), Position { x: 4, y: 7 });
    assert_eq!(neighbour(p, Direction::Right), Position { x: 6, y: 7 });
    assert_eq!(neighbour(Position { x: 0, y: 0 }, Direction::Left), Position { x: -1, y: 0 });
    assert_eq!(neighbour(Position { x: 29, y: 29 }, Direction::Down), Position { x: 29, y: 30 });
}

#[test]
fn opposite_directions() {
    assert!(Direction::Up.is_opposite(Direction::Down));
    assert!(Direction::Left.is_opposite(Direction::Right));
    assert!(Direction::Right.is_opposite(Direction::Left));
    assert!(!Direction::Up.is_opposite(Direction::Left));
    assert!(!Direction::Right.is_opposite(Direction::Right));
}
