use gol::Blinker;
use gol::Board;
use gol::Glider;
use gol::OutOfBounds;
use gol::RandomField;

fn live_cells(view: &Vec<Vec<bool>>) -> Vec<(usize, usize)> {
    let mut live = Vec::new();
    for (r, row) in view.iter().enumerate() {
        for (c, &cell) in row.iter().enumerate() {
            if cell {
                live.push((r, c));
            }
        }
    }
    live
}

#[test]
fn empty_board_stays_empty() {
    let mut board = Board::new((4, 6));
    for _ in 0..3 {
        board.next_generation();
    }
    let view = board.snapshot();
    assert_eq!(view.len(), 4);
    for row in &view {
        assert_eq!(row.len(), 6);
        for &cell in row {
            assert!(!cell);
        }
    }
    assert_eq!(board.generation(), 3);
}

#[test]
fn place_then_snapshot_reflects_blinker() {
    let mut board = Board::new((5, 5));
    let placed = board.place_pattern(Blinker {}, 1, 1);
    assert_eq!(placed, Ok(()));
    let view = board.snapshot();
    assert_eq!(live_cells(&view), vec![(1, 2), (2, 2), (3, 2)]);
    assert_eq!(board.generation(), 0);
}

#[test]
fn place_leaves_prior_state_outside_box() {
    let mut board = Board::new((8, 8));
    board.place_pattern(Glider {}, 0, 0).unwrap();
    board.place_pattern(Blinker {}, 4, 4).unwrap();
    let view = board.snapshot();
    // the glider's cells are untouched by the later placement
    assert!(view[0][1]);
    assert!(view[1][2]);
    assert!(view[2][0]);
    assert!(view[2][1]);
    assert!(view[2][2]);
    // the blinker's cells were added
    assert!(view[4][5]);
    assert!(view[5][5]);
    assert!(view[6][5]);
}

#[test]
fn place_out_of_bounds_is_rejected_and_atomic() {
    let mut board = Board::new((5, 5));
    // 3 + 3 - 1 >= 5: one row too far down
    assert_eq!(board.place_pattern(Blinker {}, 3, 0), Err(OutOfBounds));
    // 3 + 3 - 1 >= 5: one column too far right
    assert_eq!(board.place_pattern(Blinker {}, 0, 3), Err(OutOfBounds));
    let view = board.snapshot();
    assert!(live_cells(&view).is_empty());
    // the last anchor at which the box still fits
    assert_eq!(board.place_pattern(Blinker {}, 2, 2), Ok(()));
}

#[test]
fn blinker_oscillates_to_horizontal() {
    let mut board = Board::new((5, 5));
    board.place_pattern(Blinker {}, 0, 0).unwrap();
    let view = board.snapshot();
    assert_eq!(live_cells(&view), vec![(0, 1), (1, 1), (2, 1)]);
    board.next_generation();
    // hand-computed: the two end cells have 1 neighbor and die, the middle
    // survives with 2, and the two cells beside the middle are born with 3
    let view = board.snapshot();
    assert_eq!(live_cells(&view), vec![(1, 0), (1, 1), (1, 2)]);
    // and back again after a second generation
    board.next_generation();
    let view = board.snapshot();
    assert_eq!(live_cells(&view), vec![(0, 1), (1, 1), (2, 1)]);
}

#[test]
fn glider_advances_one_phase() {
    let mut board = Board::new((5, 5));
    board.place_pattern(Glider {}, 0, 0).unwrap();
    let view = board.snapshot();
    assert_eq!(live_cells(&view), vec![(0, 1), (1, 2), (2, 0), (2, 1), (2, 2)]);
    board.next_generation();
    let view = board.snapshot();
    assert_eq!(live_cells(&view), vec![(1, 0), (1, 2), (2, 1), (2, 2), (3, 1)]);
}

#[test]
fn far_apart_patterns_evolve_independently() {
    let generations = 4;
    let mut together = Board::new((16, 16));
    together.place_pattern(Blinker {}, 1, 1).unwrap();
    together.place_pattern(Glider {}, 8, 8).unwrap();
    let mut blinker_alone = Board::new((16, 16));
    blinker_alone.place_pattern(Blinker {}, 1, 1).unwrap();
    let mut glider_alone = Board::new((16, 16));
    glider_alone.place_pattern(Glider {}, 8, 8).unwrap();
    for _ in 0..generations {
        together.next_generation();
        blinker_alone.next_generation();
        glider_alone.next_generation();
    }
    let combined = together.snapshot();
    let first = blinker_alone.snapshot();
    let second = glider_alone.snapshot();
    for r in 0..16 {
        for c in 0..16 {
            assert_eq!(combined[r][c], first[r][c] || second[r][c]);
        }
    }
}

#[test]
fn render_matches_ascii_layout() {
    let mut board = Board::new((5, 5));
    board.place_pattern(Blinker {}, 0, 0).unwrap();
    let expected = String::from("oxooo\noxooo\noxooo\nooooo\nooooo\n");
    assert_eq!(board.render(), expected);
}

#[test]
fn random_field_stays_inside_its_box() {
    let mut board = Board::new((6, 6));
    let placed = board.place_pattern(RandomField { rows: 2, columns: 3 }, 1, 1);
    assert_eq!(placed, Ok(()));
    let view = board.snapshot();
    for r in 0..6 {
        for c in 0..6 {
            let inside = (1..3).contains(&r) && (1..4).contains(&c);
            if !inside {
                assert!(!view[r][c]);
            }
        }
    }
}

#[test]
fn random_field_too_large_is_rejected() {
    let mut board = Board::new((5, 5));
    let placed = board.place_pattern(RandomField { rows: 6, columns: 1 }, 0, 0);
    assert_eq!(placed, Err(OutOfBounds));
}
