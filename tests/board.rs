use pixel_board::color::Color;
use pixel_board::grid::{Author, Board, GridError};

fn author(name: &str) -> Author {
    Author::new(name.to_string())
}

#[test]
fn new_board_is_fresh_everywhere() {
    for size in 1..6 {
        let b = Board::new(size).unwrap();
        assert_eq!(b.get_size(), size);
        for y in 0..size {
            for x in 0..size {
                let p = b.get_pixel(x, y).unwrap();
                assert_eq!(p.x(), x);
                assert_eq!(p.y(), y);
                assert_eq!(p.color(), Color::White);
                assert_eq!(p.author(), None);
            }
        }
    }
}

#[test]
fn new_board_rejects_non_positive_size() {
    for size in [0, -1, -7, i32::MIN] {
        assert!(matches!(Board::new(size), Err(GridError::InvalidDimension)));
    }
}

#[test]
fn out_of_bounds_coordinates_are_refused() {
    let mut b = Board::new(3).unwrap();
    for (x, y) in [(-1, 0), (0, -1), (3, 0), (0, 3), (3, 3), (i32::MAX, 1), (1, i32::MIN)] {
        assert!(matches!(b.get_pixel(x, y), Err(GridError::OutOfBounds)));
        assert_eq!(b.set_pixel_color(x, y, Color::Red), Err(GridError::OutOfBounds));
        assert_eq!(b.set_pixel_author(x, y, author("ann")), Err(GridError::OutOfBounds));
    }
    for y in 0..3 {
        for x in 0..3 {
            let p = b.get_pixel(x, y).unwrap();
            assert_eq!(p.color(), Color::White);
            assert_eq!(p.author(), None);
        }
    }
}

#[test]
fn set_color_touches_one_pixel_and_keeps_author() {
    let mut b = Board::new(4).unwrap();
    assert_eq!(b.set_pixel_author(1, 2, author("bob")), Ok(()));
    assert_eq!(b.set_pixel_color(1, 2, Color::Blue), Ok(()));
    let p = b.get_pixel(1, 2).unwrap();
    assert_eq!(p.color(), Color::Blue);
    assert_eq!(p.author(), Some("bob"));
    assert_eq!(b.get_pixel(2, 1).unwrap().color(), Color::White);
}

#[test]
fn set_author_last_writer_wins_and_keeps_color() {
    let mut b = Board::new(2).unwrap();
    assert_eq!(b.set_pixel_color(0, 1, Color::Green), Ok(()));
    assert_eq!(b.set_pixel_author(0, 1, author("ann")), Ok(()));
    assert_eq!(b.set_pixel_author(0, 1, author("cid")), Ok(()));
    let p = b.get_pixel(0, 1).unwrap();
    assert_eq!(p.author(), Some("cid"));
    assert_eq!(p.color(), Color::Green);
    assert_eq!(b.get_pixel(1, 0).unwrap().author(), None);
}

#[test]
fn grow_keeps_existing_pixels() {
    let mut b = Board::new(3).unwrap();
    assert_eq!(b.set_pixel_color(0, 0, Color::Black), Ok(()));
    assert_eq!(b.set_pixel_color(2, 1, Color::Yellow), Ok(()));
    assert_eq!(b.set_pixel_author(1, 2, author("dee")), Ok(()));
    b.increase_size();
    assert_eq!(b.get_size(), 4);
    for y in 0..3 {
        for x in 0..3 {
            let p = b.get_pixel(x, y).unwrap();
            assert_eq!((p.x(), p.y()), (x, y));
            let want = match (x, y) {
                (0, 0) => Color::Black,
                (2, 1) => Color::Yellow,
                _ => Color::White,
            };
            assert_eq!(p.color(), want);
            assert_eq!(p.author(), if (x, y) == (1, 2) { Some("dee") } else { None });
        }
    }
}

#[test]
fn grow_adds_a_fresh_border() {
    let mut b = Board::new(2).unwrap();
    for y in 0..2 {
        for x in 0..2 {
            assert_eq!(b.set_pixel_color(x, y, Color::Red), Ok(()));
            assert_eq!(b.set_pixel_author(x, y, author("eve")), Ok(()));
        }
    }
    b.increase_size();
    b.increase_size();
    assert_eq!(b.get_size(), 4);
    for y in 0..4 {
        for x in 0..4 {
            let p = b.get_pixel(x, y).unwrap();
            assert_eq!((p.x(), p.y()), (x, y));
            if x >= 2 || y >= 2 {
                assert_eq!(p.color(), Color::White);
                assert_eq!(p.author(), None);
            } else {
                assert_eq!(p.color(), Color::Red);
            }
        }
    }
    assert!(matches!(b.get_pixel(4, 0), Err(GridError::OutOfBounds)));
}

#[test]
fn paint_then_grow_scenario() {
    let mut b = Board::new(5).unwrap();
    assert_eq!(b.set_pixel_color(2, 2, Color::Red), Ok(()));
    b.increase_size();
    assert_eq!(b.get_size(), 6);
    assert_eq!(b.get_pixel(2, 2).unwrap().color(), Color::Red);
    let corner = b.get_pixel(5, 5).unwrap();
    assert_eq!(corner.color(), Color::White);
    assert_eq!(corner.author(), None);
}

#[test]
fn palette_hex_values() {
    assert_eq!(Color::Red.hex(), "#ff0000");
    assert_eq!(Color::Green.hex(), "#00ff00");
    assert_eq!(Color::Blue.hex(), "#0000ff");
    assert_eq!(Color::Yellow.hex(), "#ffff00");
    assert_eq!(Color::Black.hex(), "#000000");
    assert_eq!(Color::White.hex(), "#ffffff");
    assert_eq!(Color::default_color(), Color::White);
}
