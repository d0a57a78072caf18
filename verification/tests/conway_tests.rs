use clockmill::conway::{Conway, ConwayConfig};
use clockmill::grid::Grid;
use clockmill::simulations::surface::conway as life2d;
use clockmill::slicing::AxisSlice;

fn r(start: isize, end: isize) -> AxisSlice {
    AxisSlice { start, end: Some(end) }
}

fn from(start: isize) -> AxisSlice {
    AxisSlice { start, end: None }
}

fn board(cells: &[&[u8]]) -> Grid<bool> {
    let rows: Vec<Vec<bool>> = cells.iter().map(|row| row.iter().map(|&c| c != 0).collect()).collect();
    let width = if rows.is_empty() { 0 } else { rows[0].len() };
    Grid { rows, width }
}

#[test]
fn test_setup() {
    let config = ConwayConfig { shape: [10, 10] };
    let conway: Conway = config.init();
    assert_eq!(conway.shape(), [10, 10]);
    assert!(conway.previous.is_none());
}

#[test]
fn lib_test_logic() {
    let config = ConwayConfig { shape: [5, 5] };
    let mut conway: Conway = config.init();

    assert_eq!(
        conway.read_slice([r(1, 3), r(1, 3)]),
        vec![vec![false, false], vec![false, false]]
    );

    conway.write_slice([r(1, 3), r(1, 3)], vec![vec![true, true], vec![true, false]]);

    conway.write_slice([from(-2), from(-2)], vec![vec![false, true], vec![true, true]]);

    assert_eq!(
        conway.read_slice([r(1, 3), r(1, 3)]),
        vec![vec![true, true], vec![true, false]]
    );

    assert_eq!(
        Conway::neighbor_count(&conway.state).rows,
        vec![vec![3i64, 3, 1], vec![3, 3, 2], vec![1, 2, 3]]
    );

    assert_eq!(
        Conway::next_inner(&conway.state).rows,
        vec![
            vec![false, false, false, false, false],
            vec![false, true, true, false, false],
            vec![false, true, true, false, false],
            vec![false, false, false, true, true],
            vec![false, false, false, true, true],
        ]
    );
}

#[test]
fn mod_test_logic() {
    let config = life2d::ConwayConfig { shape: [5, 5] };
    let mut conway: life2d::Conway = config.init();

    assert_eq!(
        conway.read_slice([r(1, 3), r(1, 3)]),
        vec![vec![false, false], vec![false, false]]
    );

    conway.write_slice([r(1, 3), r(1, 3)], vec![vec![true, true], vec![true, false]]);

    conway.write_slice([from(-2), from(-2)], vec![vec![false, true], vec![true, true]]);

    assert_eq!(
        conway.read_slice([r(1, 3), r(1, 3)]),
        vec![vec![true, true], vec![true, false]]
    );

    assert_eq!(
        life2d::next_inner(&conway.state).rows,
        vec![
            vec![false, false, false, false, false],
            vec![false, true, true, false, false],
            vec![false, true, true, false, false],
            vec![false, false, false, true, true],
            vec![false, false, false, true, true],
        ]
    );
}

#[test]
fn read_back_what_was_written() {
    let mut conway = ConwayConfig { shape: [6, 7] }.init();
    let data = vec![vec![true, false, true], vec![false, true, true]];
    conway.write_slice([r(2, 4), r(-4, -1)], data.clone());
    assert_eq!(conway.read_slice([r(2, 4), r(-4, -1)]), data);
    // cells outside the block stay dead
    assert_eq!(conway.read_slice([r(0, 2), from(0)]), vec![vec![false; 7]; 2]);
    assert_eq!(conway.read_slice([r(2, 4), r(0, 3)]), vec![vec![false; 3]; 2]);
}

#[test]
fn slices_clamp_and_count_from_the_end() {
    let mut conway = ConwayConfig { shape: [4, 4] }.init();
    conway.write_slice([from(-1), from(-1)], vec![vec![true]]);
    // an end beyond the board is clamped to it
    assert_eq!(conway.read_slice([r(3, 10), r(3, 10)]), vec![vec![true]]);
    // a start before the board is clamped to 0
    assert_eq!(conway.read_slice([r(-10, 1), r(-10, 1)]), vec![vec![false]]);
    assert_eq!(conway.state.get(3, 3), true);
}

#[test]
fn step_keeps_previous_board() {
    let mut conway = life2d::ConwayConfig { shape: [5, 5] }.init();
    // a blinker
    conway.write_slice([r(2, 3), r(1, 4)], vec![vec![true, true, true]]);
    assert!(conway.read_previous_slice([from(0), from(0)]).is_none());
    let before = conway.read_slice([from(0), from(0)]);
    conway.step_no_wrap();
    assert_eq!(conway.read_previous_slice([from(0), from(0)]), Some(before));
    assert_eq!(
        conway.read_slice([r(1, 4), r(2, 3)]),
        vec![vec![true], vec![true], vec![true]]
    );
    assert_eq!(conway.read_slice([r(2, 3), r(1, 2)]), vec![vec![false]]);
    conway.step_no_wrap();
    assert_eq!(conway.read_slice([r(2, 3), r(1, 4)]), vec![vec![true, true, true]]);
}

#[test]
fn both_steps_agree() {
    let g = board(&[
        &[1, 0, 1, 1, 0, 0],
        &[0, 1, 1, 0, 1, 0],
        &[1, 1, 0, 0, 1, 1],
        &[0, 0, 1, 1, 0, 1],
        &[1, 0, 0, 1, 1, 0],
    ]);
    assert_eq!(Conway::next_inner(&g).rows, life2d::next_inner(&g).rows);
}

#[test]
fn step_keeps_border_and_applies_rule() {
    let g = board(&[
        &[1, 1, 1, 1],
        &[1, 0, 0, 1],
        &[0, 1, 0, 0],
        &[1, 1, 1, 1],
    ]);
    let next = Conway::next_inner(&g);
    // border unchanged
    assert_eq!(next.rows[0], g.rows[0]);
    assert_eq!(next.rows[3], g.rows[3]);
    assert_eq!(next.get(1, 0), g.get(1, 0));
    assert_eq!(next.get(2, 3), g.get(2, 3));
    // (1,1) dead with 3 live neighbours (0,0),(0,1),(0,2),(1,0),(2,1) = 5 -> stays dead
    assert_eq!(next.get(1, 1), false);
    // (2,2) dead with neighbours (1,3),(2,1),(3,1),(3,2),(3,3) = 5 -> stays dead
    assert_eq!(next.get(2, 2), false);
    // (2,1) live with neighbours (1,0),(3,0),(3,1),(3,2) = 4 -> dies
    assert_eq!(next.get(2, 1), false);
}

#[test]
fn neighbor_count_of_small_boards_is_empty() {
    let g = board(&[&[1, 1], &[1, 1]]);
    let counts = Conway::neighbor_count(&g);
    assert_eq!(counts.rows.len(), 0);
    assert_eq!(counts.width, 0);
}

#[test]
fn wrap_copies_opposite_edges() {
    let g = board(&[
        &[0, 0, 0, 0, 0],
        &[0, 1, 0, 0, 0],
        &[0, 0, 0, 1, 0],
        &[0, 0, 1, 0, 0],
        &[0, 0, 0, 0, 0],
    ]);
    let mut conway = ConwayConfig { shape: [5, 5] }.init();
    conway.state = g;
    conway.wrap();
    assert_eq!(
        conway.state.rows,
        vec![
            vec![false, false, true, false, false],
            vec![false, true, false, false, true],
            vec![true, false, false, true, false],
            vec![false, false, true, false, false],
            vec![false, true, false, false, true],
        ]
    );
}

#[test]
fn wrap_corners_take_opposite_inner_corners() {
    // Only the four inner corners are alive; the wrap puts each one into the
    // opposite outer corner as well as onto the neighbouring edges.
    let g = board(&[
        &[0, 0, 0, 0],
        &[0, 1, 0, 0],
        &[0, 0, 0, 0],
        &[0, 0, 0, 0],
    ]);
    for conway_wrap in [0, 1] {
        let state = if conway_wrap == 0 {
            let mut c = ConwayConfig { shape: [4, 4] }.init();
            c.state = g.duplicate();
            c.wrap();
            c.state
        } else {
            let mut c = life2d::ConwayConfig { shape: [4, 4] }.init();
            c.state = g.duplicate();
            c.wrap();
            c.state
        };
        // (1, 1) is the inner corner opposite the bottom-right corner.
        assert!(state.rows[3][3]);
        assert!(!state.rows[0][0]);
        assert!(!state.rows[0][3]);
        assert!(!state.rows[3][0]);
        assert_eq!(state.rows[1], vec![false, true, false, true]);
        assert_eq!(state.rows[3], vec![false, true, false, true]);
    }
}

#[test]
fn fuzz_with_noise_only_adds_life() {
    let mut conway = life2d::ConwayConfig { shape: [3, 3] }.init();
    conway.write_slice([r(0, 1), r(0, 1)], vec![vec![true]]);
    let noise = board(&[&[0, 1, 0], &[0, 0, 0], &[0, 0, 1]]);
    conway.fuzz_with_noise(&noise);
    assert_eq!(
        conway.state.rows,
        vec![vec![true, true, false], vec![false, false, false], vec![false, false, true]]
    );
}
