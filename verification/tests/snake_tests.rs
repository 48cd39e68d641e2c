use snake_game::snake::{Block, Direction, Snake};

#[test]
fn opposite_involution_all_directions() {
    for d in [Direction::Up, Direction::Down, Direction::Left, Direction::Right] {
        assert_eq!(d.opposite().opposite(), d);
    }
    assert_eq!(Direction::Up.opposite(), Direction::Down);
    assert_eq!(Direction::Down.opposite(), Direction::Up);
    assert_eq!(Direction::Left.opposite(), Direction::Right);
    assert_eq!(Direction::Right.opposite(), Direction::Left);
}

#[test]
fn new_snake_shape() {
    let s = Snake::new(2, 2);
    assert_eq!(s.body, vec![Block { x: 4, y: 2 }, Block { x: 3, y: 2 }, Block { x: 2, y: 2 }]);
    assert_eq!(s.head_direction(), Direction::Right);
    assert_eq!(s.head_position(), (4, 2));
    assert!(s.tail.is_none());
}

#[test]
fn next_head_projects_without_moving() {
    let s = Snake::new(2, 2);
    assert_eq!(s.next_head(None), (5, 2));
    assert_eq!(s.next_head(Some(Direction::Up)), (4, 1));
    assert_eq!(s.next_head(Some(Direction::Down)), (4, 3));
    assert_eq!(s.next_head(Some(Direction::Left)), (3, 2));
    assert_eq!(s.head_position(), (4, 2));
}

#[test]
fn move_forward_keeps_length() {
    let mut s = Snake::new(2, 2);
    s.move_forward(None);
    assert_eq!(s.body.len(), 3);
    assert_eq!(s.body, vec![Block { x: 5, y: 2 }, Block { x: 4, y: 2 }, Block { x: 3, y: 2 }]);
    assert_eq!(s.tail, Some(Block { x: 2, y: 2 }));
}

#[test]
fn move_forward_with_direction_turns() {
    let mut s = Snake::new(2, 2);
    s.move_forward(Some(Direction::Down));
    assert_eq!(s.head_direction(), Direction::Down);
    assert_eq!(s.head_position(), (4, 3));
}

#[test]
fn move_then_restore_grows_by_one() {
    let mut s = Snake::new(2, 2);
    s.move_forward(None);
    s.restore_tail();
    assert_eq!(s.body.len(), 4);
    assert_eq!(
        s.body,
        vec![
            Block { x: 5, y: 2 },
            Block { x: 4, y: 2 },
            Block { x: 3, y: 2 },
            Block { x: 2, y: 2 },
        ]
    );
}

#[test]
fn overlap_tail_exempts_tail_reports_rest() {
    let s = Snake::new(2, 2);
    // tail cell (2, 2) is exempt
    assert!(!s.overlap_tail(2, 2));
    // every other body cell is reported
    assert!(s.overlap_tail(4, 2));
    assert!(s.overlap_tail(3, 2));
    // empty cells are not
    assert!(!s.overlap_tail(5, 2));
    assert!(!s.overlap_tail(4, 3));
}

#[test]
fn overlaps_body_includes_tail() {
    let s = Snake::new(2, 2);
    assert!(s.overlaps_body(2, 2));
    assert!(s.overlaps_body(4, 2));
    assert!(!s.overlaps_body(5, 2));
}
