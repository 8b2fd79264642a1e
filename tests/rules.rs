use tetris::board::{Board, Pos};
use tetris::piece::Piece;
use tetris::session::{Event, Input, Phase, Session, GRAVITY_TICK_MS, LOCK_DELAY_MS};
use tetris::shape::Shape;

const ALL: [Shape; 7] = [
    Shape::IBlock,
    Shape::LBlock,
    Shape::JBlock,
    Shape::SBlock,
    Shape::ZBlock,
    Shape::TBlock,
    Shape::OBlock,
];

fn idle() -> Input {
    Input { left: false, right: false, soft_drop: false, rotate: false }
}

fn cells(p: &Piece) -> Vec<(i64, i64)> {
    p.cell_list().iter().map(|c| (c.x, c.y)).collect()
}

fn occupied_count(b: &Board) -> usize {
    let mut n = 0;
    for y in 0..b.height() {
        for x in 0..b.width() {
            if b.cell(x, y).is_some() {
                n += 1;
            }
        }
    }
    n
}

#[test]
fn shape_catalog_order() {
    for (i, s) in ALL.iter().enumerate() {
        assert_eq!(Shape::from_index(i as u8), *s);
    }
}

#[test]
fn random_draw_reaches_every_shape() {
    let mut seen = [false; 7];
    for _ in 0..500 {
        let s = Shape::random();
        let i = ALL.iter().position(|t| *t == s).unwrap();
        seen[i] = true;
    }
    assert!(seen.iter().all(|b| *b));
}

#[test]
fn spawn_i_piece_is_horizontal_in_row_zero() {
    let p = Piece::spawn(Shape::IBlock, 10);
    assert_eq!(cells(&p), vec![(3, 0), (4, 0), (5, 0), (6, 0)]);
}

#[test]
fn occupancy_of_walls_floor_and_ceiling() {
    let b = Board::new(10, 20);
    assert!(b.is_occupied(-1, 5));
    assert!(b.is_occupied(10, 5));
    assert!(b.is_occupied(4, 20));
    assert!(!b.is_occupied(4, -3));
    assert!(!b.is_occupied(0, 19));
}

#[test]
fn settle_marks_cells_with_tag() {
    let mut b = Board::new(10, 20);
    b.settle(&vec![Pos { x: 2, y: 19 }, Pos { x: 3, y: 19 }], Shape::TBlock);
    assert_eq!(b.cell(2, 19), Some(Shape::TBlock));
    assert_eq!(b.cell(3, 19), Some(Shape::TBlock));
    assert_eq!(b.cell(4, 19), None);
    assert!(b.is_occupied(2, 19));
    assert!(!b.is_legal(&vec![Pos { x: 2, y: 19 }]));
}

#[test]
fn rotate_four_times_is_identity() {
    for s in ALL.iter() {
        let p = Piece::spawn(*s, 10).translate(0, 1).translate(0, 1).translate(0, 1);
        let r = p.rotate().rotate().rotate().rotate();
        assert_eq!(r, p);
        if *s != Shape::OBlock {
            assert_ne!(cells(&p.rotate()), cells(&p));
        }
    }
}

#[test]
fn o_piece_does_not_rotate() {
    let p = Piece::spawn(Shape::OBlock, 10);
    assert_eq!(p.rotate(), p);
}

#[test]
fn rotation_formula() {
    // T in rows 0 and 1 around (4, 1): x' = px + (y - py), y' = py - (x - px).
    let p = Piece::spawn(Shape::TBlock, 10);
    assert_eq!(cells(&p), vec![(3, 1), (4, 1), (5, 1), (4, 0)]);
    assert_eq!(cells(&p.rotate()), vec![(4, 2), (4, 1), (4, 0), (3, 1)]);
    // I around (4.5, 0.5).
    let i = Piece::spawn(Shape::IBlock, 10);
    assert_eq!(cells(&i.rotate()), vec![(4, 2), (4, 1), (4, 0), (4, -1)]);
}

#[test]
fn wall_blocks_only_its_own_side() {
    let b = Board::new(10, 20);
    let mut p = Piece::spawn(Shape::OBlock, 10);
    while b.is_legal(&p.translate(-1, 0).cell_list()) {
        p = p.translate(-1, 0);
    }
    assert_eq!(cells(&p)[0].0, 0);
    assert!(!b.is_legal(&p.translate(-1, 0).cell_list()));
    assert!(b.is_legal(&p.translate(1, 0).cell_list()));
}

#[test]
fn drop_i_piece_to_floor() {
    let mut s = Session::new(10, 20, Shape::IBlock, Shape::OBlock, 0);
    let mut now = 0;
    let mut lowest = 0;
    let mut event = Event::Quiet;
    while event == Event::Quiet || event == Event::StartedLocking {
        if let Some(p) = s.piece {
            lowest = cells(&p).iter().map(|c| c.1).max().unwrap();
            if s.is_resting() {
                assert_eq!(lowest, 19);
            } else {
                assert!(lowest < 19);
            }
        }
        now += GRAVITY_TICK_MS;
        event = s.update(now, idle(), Shape::TBlock);
    }
    assert_eq!(lowest, 19);
    assert_eq!(event, Event::Locked(0));
    for x in 0..10 {
        let expect = if (3..7).contains(&x) { Some(Shape::IBlock) } else { None };
        assert_eq!(s.board.cell(x, 19), expect);
    }
    assert_eq!(occupied_count(&s.board), 4);
    assert_eq!(s.piece.unwrap().shape, Shape::OBlock);
    assert_eq!(s.next, Shape::TBlock);
}

#[test]
fn clear_single_row() {
    let mut b = Board::new(10, 20);
    let mut row5 = Vec::new();
    for x in 0..10 {
        if x != 3 {
            row5.push(Pos { x, y: 5 });
        }
    }
    b.settle(&row5, Shape::LBlock);
    b.settle(&vec![Pos { x: 7, y: 4 }], Shape::SBlock);
    assert!(b.full_rows().is_empty());
    b.settle(&vec![Pos { x: 3, y: 5 }], Shape::JBlock);
    assert_eq!(b.full_rows(), vec![5]);
    b.clear_rows(&vec![5]);
    for x in 0..10 {
        let expect = if x == 7 { Some(Shape::SBlock) } else { None };
        assert_eq!(b.cell(x, 5), expect);
        assert_eq!(b.cell(x, 0), None);
        assert_eq!(b.cell(x, 4), None);
    }
    assert!(b.full_rows().is_empty());
    assert_eq!(b.height(), 20);
}

#[test]
fn clear_two_separate_rows() {
    let mut b = Board::new(4, 6);
    let mut cells = Vec::new();
    for x in 0..4 {
        cells.push(Pos { x, y: 5 });
        cells.push(Pos { x, y: 3 });
    }
    b.settle(&cells, Shape::IBlock);
    b.settle(&vec![Pos { x: 0, y: 4 }, Pos { x: 1, y: 2 }], Shape::ZBlock);
    let full = b.full_rows();
    assert_eq!(full, vec![3, 5]);
    b.clear_rows(&full);
    assert_eq!(b.cell(0, 5), Some(Shape::ZBlock));
    assert_eq!(b.cell(1, 4), Some(Shape::ZBlock));
    assert_eq!(occupied_count(&b), 2);
    assert!(b.full_rows().is_empty());
}

#[test]
fn clearing_nothing_changes_nothing() {
    let mut b = Board::new(5, 5);
    b.settle(&vec![Pos { x: 1, y: 4 }], Shape::OBlock);
    let full = b.full_rows();
    assert!(full.is_empty());
    b.clear_rows(&full);
    assert_eq!(b.cell(1, 4), Some(Shape::OBlock));
    assert_eq!(occupied_count(&b), 1);
}

#[test]
fn soft_drop_moves_once_then_gravity() {
    let mut s = Session::new(10, 20, Shape::TBlock, Shape::OBlock, 0);
    let y0 = s.piece.unwrap().a.y;
    let drop = Input { left: false, right: false, soft_drop: true, rotate: false };
    s.update(200, drop, Shape::IBlock);
    assert_eq!(s.piece.unwrap().a.y, y0 + 1);
    s.update(400, idle(), Shape::IBlock);
    assert_eq!(s.piece.unwrap().a.y, y0 + 1);
    s.update(600, idle(), Shape::IBlock);
    assert_eq!(s.piece.unwrap().a.y, y0 + 1);
    s.update(700, idle(), Shape::IBlock);
    assert_eq!(s.piece.unwrap().a.y, y0 + 2);
}

#[test]
fn left_wins_over_right_and_is_consumed() {
    let mut s = Session::new(10, 20, Shape::OBlock, Shape::OBlock, 0);
    let x0 = s.piece.unwrap().a.x;
    let both = Input { left: true, right: true, soft_drop: false, rotate: false };
    s.update(150, both, Shape::IBlock);
    assert_eq!(s.piece.unwrap().a.x, x0 - 1);
    s.update(300, idle(), Shape::IBlock);
    assert_eq!(s.piece.unwrap().a.x, x0 - 1);
    let right = Input { left: false, right: true, soft_drop: false, rotate: false };
    s.update(450, right, Shape::IBlock);
    assert_eq!(s.piece.unwrap().a.x, x0);
}

#[test]
fn lock_timer_runs_only_while_resting() {
    let mut s = Session::new(4, 2, Shape::OBlock, Shape::OBlock, 0);
    // An O piece fills both rows: it rests at once.
    assert!(s.is_resting());
    assert_eq!(s.phase, Phase::Locking);
    assert_eq!(s.lock_elapsed(100), 100);
    let e = s.update(100, idle(), Shape::OBlock);
    assert_eq!(e, Event::Quiet);
    let e = s.update(LOCK_DELAY_MS, idle(), Shape::OBlock);
    // Both rows hold the O in columns 1 and 2 only: nothing is cleared,
    // and the next O cannot enter.
    assert_eq!(e, Event::BoardFull);
    assert!(s.is_over());
    assert!(s.piece.is_none());
}

#[test]
fn falling_piece_keeps_lock_timer_at_zero() {
    let mut s = Session::new(10, 20, Shape::IBlock, Shape::OBlock, 0);
    assert!(!s.is_resting());
    s.update(10, idle(), Shape::OBlock);
    assert_eq!(s.lock_elapsed(50), 0);
    assert_eq!(s.phase, Phase::Falling);
}

#[test]
fn rotation_blocked_by_wall_is_rejected() {
    let mut s = Session::new(10, 20, Shape::IBlock, Shape::OBlock, 0);
    let before = s.piece.unwrap();
    let turn = Input { left: false, right: false, soft_drop: false, rotate: true };
    // The turned I reaches row -1, above the top, which is allowed.
    s.update(1, turn, Shape::OBlock);
    assert_eq!(s.piece.unwrap(), before.rotate());
    // Move the vertical I against the left wall, then turning would leave the board.
    let left = Input { left: true, right: false, soft_drop: false, rotate: false };
    let mut now = 1;
    for _ in 0..6 {
        now += 150;
        s.update(now, left, Shape::OBlock);
    }
    let at_wall = s.piece.unwrap();
    assert_eq!(at_wall.a.x, 0);
    s.update(now + 1, turn, Shape::OBlock);
    assert_eq!(s.piece.unwrap(), at_wall);
}

#[test]
fn reset_clears_everything() {
    let mut s = Session::new(10, 20, Shape::IBlock, Shape::OBlock, 0);
    let mut now = 0;
    while s.board.full_rows().is_empty() && occupied_count(&s.board) == 0 {
        now += GRAVITY_TICK_MS;
        s.update(now, idle(), Shape::TBlock);
    }
    s.reset(Shape::SBlock, Shape::ZBlock, now);
    assert_eq!(occupied_count(&s.board), 0);
    assert_eq!(s.piece.unwrap().shape, Shape::SBlock);
    assert_eq!(s.next, Shape::ZBlock);
    assert_eq!(s.phase, Phase::Falling);
    assert_eq!(s.board.width(), 10);
    assert_eq!(s.board.height(), 20);
}

#[test]
fn lock_waits_for_the_grace_interval() {
    let mut s = Session::new(10, 4, Shape::OBlock, Shape::IBlock, 0);
    assert_eq!(s.phase, Phase::Falling);
    let mut now = 0;
    let mut event = Event::Quiet;
    while event == Event::Quiet {
        now += GRAVITY_TICK_MS;
        event = s.update(now, idle(), Shape::TBlock);
    }
    assert_eq!(event, Event::StartedLocking);
    assert!(s.is_resting());
    let rested_at = now;
    assert_eq!(s.update(rested_at + LOCK_DELAY_MS - 1, idle(), Shape::TBlock), Event::Quiet);
    assert_eq!(s.lock_elapsed(rested_at + LOCK_DELAY_MS - 1), LOCK_DELAY_MS - 1);
    assert_eq!(s.update(rested_at + LOCK_DELAY_MS, idle(), Shape::TBlock), Event::Locked(0));
    assert_eq!(s.board.cell(4, 3), Some(Shape::OBlock));
    assert_eq!(s.board.cell(5, 2), Some(Shape::OBlock));
    assert_eq!(s.piece.unwrap().shape, Shape::IBlock);
    assert_eq!(s.phase, Phase::Falling);
}

#[test]
fn moving_off_the_stack_resets_lock_timer() {
    let mut s = Session::new(10, 20, Shape::OBlock, Shape::OBlock, 0);
    // A one-cell step under the right half of the O, at row 2.
    s.board.settle(&vec![Pos { x: 5, y: 2 }, Pos { x: 6, y: 2 }, Pos { x: 7, y: 2 }], Shape::IBlock);
    let e = s.update(1, idle(), Shape::OBlock);
    assert_eq!(e, Event::StartedLocking);
    let left = Input { left: true, right: false, soft_drop: false, rotate: false };
    // One step left takes the O off the step: it falls again.
    s.update(150, left, Shape::OBlock);
    assert_eq!(s.phase, Phase::Falling);
    assert!(!s.is_resting());
    assert_eq!(s.lock_elapsed(150), 0);
    assert_eq!(s.rest_since_ms, 150);
}

#[test]
fn full_row_cleared_on_lock() {
    let mut s = Session::new(4, 4, Shape::OBlock, Shape::OBlock, 0);
    s.board.settle(&vec![Pos { x: 0, y: 3 }, Pos { x: 3, y: 3 }, Pos { x: 0, y: 2 }], Shape::TBlock);
    let mut now = 0;
    let mut event = Event::Quiet;
    while event == Event::Quiet || event == Event::StartedLocking {
        now += GRAVITY_TICK_MS;
        event = s.update(now, idle(), Shape::OBlock);
    }
    assert_eq!(event, Event::Locked(1));
    // Row 2 moved down into row 3; the O's upper half came with it.
    assert_eq!(s.board.cell(0, 3), Some(Shape::TBlock));
    assert_eq!(s.board.cell(1, 3), Some(Shape::OBlock));
    assert_eq!(s.board.cell(2, 3), Some(Shape::OBlock));
    assert_eq!(s.board.cell(3, 3), None);
    assert!(s.board.full_rows().is_empty());
}
