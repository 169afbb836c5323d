use snake_game::snake::{Block, Direction, Snake};

#[test]
fn opposite_is_involution_for_all_directions() {
    let dirs = [
        Direction::Up,
        Direction::Down,
        Direction::Left,
        Direction::Right,
    ];
    for d in dirs {
        assert_eq!(d.opposite().opposite(), d);
    }
}

#[test]
fn opposite_maps_each_direction() {
    assert_eq!(Direction::Up.opposite(), Direction::Down);
    assert_eq!(Direction::Down.opposite(), Direction::Up);
    assert_eq!(Direction::Left.opposite(), Direction::Right);
    assert_eq!(Direction::Right.opposite(), Direction::Left);
}

#[test]
fn try_from_maps_codes() {
    assert_eq!(Direction::try_from(0), Ok(Direction::Up));
    assert_eq!(Direction::try_from(1), Ok(Direction::Down));
    assert_eq!(Direction::try_from(2), Ok(Direction::Left));
    assert_eq!(Direction::try_from(3), Ok(Direction::Right));
    assert_eq!(Direction::try_from(4), Err(()));
    assert_eq!(Direction::try_from(-1), Err(()));
}

#[test]
fn next_direction_steps_one_cell() {
    let b = Block { x: 7, y: 9 };
    assert_eq!(b.next_direction(Direction::Up), Block { x: 7, y: 8 });
    assert_eq!(b.next_direction(Direction::Down), Block { x: 7, y: 10 });
    assert_eq!(b.next_direction(Direction::Left), Block { x: 6, y: 9 });
    assert_eq!(b.next_direction(Direction::Right), Block { x: 8, y: 9 });
}

#[test]
fn new_snake_extends_backward_from_head() {
    let s = Snake::new(5, 5, Direction::Right);
    assert_eq!(
        s.cells(),
        vec![
            Block { x: 5, y: 5 },
            Block { x: 4, y: 5 },
            Block { x: 3, y: 5 },
        ]
    );
    assert_eq!(s.head_direction(), Direction::Right);
    assert_eq!(s.head_position(), Ok(Block { x: 5, y: 5 }));
    assert_eq!(s.tail, None);

    let up = Snake::new(5, 5, Direction::Up);
    assert_eq!(
        up.cells(),
        vec![
            Block { x: 5, y: 5 },
            Block { x: 5, y: 6 },
            Block { x: 5, y: 7 },
        ]
    );
}

#[test]
fn advance_keeps_length_and_moves_head_to_peeked_cell() {
    let mut s = Snake::new(5, 5, Direction::Right);
    let n = s.len();
    let peeked = s.next_head(None);
    let old_tail_cell = *s.cells().last().unwrap();

    s.move_forward(None);

    assert_eq!(s.len(), n);
    assert_eq!(s.head_position(), Ok(peeked));
    assert_eq!(peeked, Block { x: 6, y: 5 });
    assert_eq!(s.tail, Some(old_tail_cell));
    assert_eq!(s.tail, Some(Block { x: 3, y: 5 }));
}

#[test]
fn grow_after_advance_restores_dropped_tail() {
    let mut s = Snake::new(5, 5, Direction::Right);
    let n = s.len();
    let pre_advance_tail = *s.cells().last().unwrap();

    s.move_forward(None);
    s.restore_tail();

    assert_eq!(s.len(), n + 1);
    assert_eq!(*s.cells().last().unwrap(), pre_advance_tail);
    assert_eq!(
        s.cells(),
        vec![
            Block { x: 6, y: 5 },
            Block { x: 5, y: 5 },
            Block { x: 4, y: 5 },
            Block { x: 3, y: 5 },
        ]
    );
}

#[test]
fn advance_with_override_changes_heading() {
    let mut s = Snake::new(5, 5, Direction::Right);
    let peeked = s.next_head(Some(Direction::Up));
    assert_eq!(peeked, Block { x: 5, y: 4 });

    s.move_forward(Some(Direction::Up));

    assert_eq!(s.head_direction(), Direction::Up);
    assert_eq!(s.head_position(), Ok(Block { x: 5, y: 4 }));
}

#[test]
fn overlap_tail_excludes_current_tail_cell() {
    let s = Snake::new(5, 5, Direction::Right);
    // body: (5,5) (4,5) (3,5); the tail cell (3,5) is excluded on purpose
    assert!(!s.overlap_tail(&Block { x: 3, y: 5 }));
    assert!(s.overlap_tail(&Block { x: 5, y: 5 }));
    assert!(s.overlap_tail(&Block { x: 4, y: 5 }));
}

#[test]
fn overlap_tail_clear_for_straight_line_move() {
    let s = Snake::new(5, 5, Direction::Right);
    let ahead = s.next_head(None);
    assert!(!s.overlap_tail(&ahead));
}

#[test]
fn occupies_counts_the_whole_body() {
    let s = Snake::new(5, 5, Direction::Right);
    assert!(s.occupies(&Block { x: 3, y: 5 }));
    assert!(s.occupies(&Block { x: 5, y: 5 }));
    assert!(!s.occupies(&Block { x: 6, y: 5 }));
}
