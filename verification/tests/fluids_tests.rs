use clockmill::grid::Grid;
use clockmill::simulations::surface::fluids::lattice_boltzman::{
    interior_streaming_updates, streaming_window_op, LBMConfig, LBMMeta as MetaA, Window, LBM,
};
use clockmill::simulations::surface::fluids::lattice_boltzmann::{
    interior_streaming, LBMD2Q9Config, LBMD2Q9State, LBMMeta as MetaB,
};
use clockmill::simulations::surface::fluids::lbm::d2q9::operations::{
    isotropic_spherical_reflection, stream_interior_cells,
};
use clockmill::simulations::surface::fluids::lbm::d2q9::stream_distribution_interior;
use clockmill::simulations::surface::fluids::lbm::d2q9::streaming::{
    edge_flow_stream, outflow_clipping_stream, stream_edge_crossflow, stream_interior_windows,
    stream_partial_edge_flow,
};
use clockmill::simulations::surface::fluids::lbm::d2q9::world::{
    advance_from_collision, solid_border_mask,
};

type Pop = [[f32; 3]; 3];

/// A `h x w` lattice whose entry `[i][j][a][b]` is `((i * w + j) * 3 + a) * 3 + b`.
fn counting_lattice(h: usize, w: usize) -> Grid<Pop> {
    let mut rows = Vec::new();
    for i in 0..h {
        let mut row = Vec::new();
        for j in 0..w {
            let mut c = [[0.0f32; 3]; 3];
            for a in 0..3 {
                for b in 0..3 {
                    c[a][b] = (((i * w + j) * 3 + a) * 3 + b) as f32;
                }
            }
            row.push(c);
        }
        rows.push(row);
    }
    Grid { rows, width: w }
}

fn no_solid(h: usize, w: usize) -> Grid<bool> {
    Grid { rows: vec![vec![false; w]; h], width: w }
}

#[test]
fn lattice_boltzmann_test_interior_streaming_updates() {
    let state = counting_lattice(3, 3);
    let solid_mask = no_solid(3, 3);
    let result = interior_streaming(&state, &solid_mask);
    assert_eq!(result.rows.len(), 1);
    assert_eq!(result.width, 1);
    assert_eq!(
        result.rows[0][0],
        [[8., 16., 24.], [32., 40., 48.], [56., 64., 72.]]
    );
}

#[test]
fn operations_test_interior_streaming_updates() {
    let state = counting_lattice(3, 3);
    let result = stream_interior_cells(&state);
    assert_eq!(result.rows.len(), 1);
    assert_eq!(result.width, 1);
    assert_eq!(
        result.rows[0][0],
        [[8., 16., 24.], [32., 40., 48.], [56., 64., 72.]]
    );
}

#[test]
fn distribution_interior_matches_cells() {
    let state = counting_lattice(3, 3);
    let result = stream_distribution_interior(&state, &no_solid(3, 3));
    assert_eq!(
        result.rows[0][0],
        [[8., 16., 24.], [32., 40., 48.], [56., 64., 72.]]
    );
}

#[test]
fn test_stream_interior_windows() {
    let state = counting_lattice(3, 3);
    let result = stream_interior_windows(&state);
    assert_eq!(result.rows.len(), 1);
    assert_eq!(result.width, 1);
    assert_eq!(
        result.rows[0][0],
        [[72., 64., 56.], [48., 40., 32.], [24., 16., 8.]]
    );
}

#[test]
fn test_streaming_window_op() {
    // window[p][q][r][s] = x[r][s][p][q] where x[a][b][c][d] = 27a + 9b + 3c + d
    let mut window: Window<f32> = [[[[0.0; 3]; 3]; 3]; 3];
    for p in 0..3 {
        for q in 0..3 {
            for r in 0..3 {
                for s in 0..3 {
                    window[p][q][r][s] = (27 * r + 9 * s + 3 * p + q) as f32;
                }
            }
        }
    }
    let result = streaming_window_op(&vec![window]);
    assert_eq!(result.len(), 1);
    assert_eq!(result[0], [[8., 16., 24.], [32., 40., 48.], [56., 64., 72.]]);
}

#[test]
fn windowed_interior_streaming_matches_cells() {
    let state = counting_lattice(4, 5);
    let a = interior_streaming_updates(&state);
    let b = stream_interior_cells(&state);
    assert_eq!(a.rows, b.rows);
    assert_eq!(a.rows.len(), 2);
    assert_eq!(a.width, 3);
}

#[test]
fn lattice_boltzman_test_streaming_updates() {
    let state = counting_lattice(10, 10);
    let updates = interior_streaming_updates(&state);
    assert_eq!([updates.rows.len(), updates.width], [10 - 2, 10 - 2]);
}

#[test]
fn lattice_boltzmann_test_streaming_updates() {
    let state = counting_lattice(10, 10);
    let updates = interior_streaming(&state, &no_solid(10, 10));
    assert_eq!([updates.rows.len(), updates.width], [10 - 2, 10 - 2]);
}

#[test]
fn test_stream_partial_edge_flow() {
    let source: Vec<[f32; 3]> = vec![[1., 2., 3.], [4., 5., 6.], [7., 8., 9.]];
    let result = stream_partial_edge_flow(&source, 0.0);
    assert_eq!(result, vec![[4., 2., 0.], [7., 5., 3.], [0., 8., 6.]]);
}

#[test]
fn edge_crossflow_is_zero() {
    let source: Vec<[f32; 3]> = vec![[1., 2., 3.], [4., 5., 6.]];
    assert_eq!(stream_edge_crossflow(&source, 0.0), vec![[0.0f32; 3]; 2]);
}

#[test]
fn lattice_boltzman_test_lbm_init() {
    let config = LBMConfig { shape: [10, 12] };
    assert_eq!(MetaA::shape(&config), [10, 12]);
    assert_eq!(config.height(), 10);
    assert_eq!(config.width(), 12);

    let lbm: LBM<f32> = config.init(0.0);
    assert_eq!(MetaA::shape(&lbm), [10, 12]);
    assert_eq!(lbm.step_count(), 0);
    assert_eq!([lbm.state.rows.len(), lbm.state.width], [10, 12]);
    assert_eq!(lbm.state.rows[9][11], [[0.0f32; 3]; 3]);
}

#[test]
fn lattice_boltzmann_test_lbm_init() {
    let config = LBMD2Q9Config { shape: [10, 12] };
    assert_eq!(MetaB::shape(&config), [10, 12]);

    let mut lbm: LBMD2Q9State<f32> = config.init(0.0);
    assert_eq!(MetaB::shape(&lbm), [10, 12]);
    assert_eq!(lbm.step_count(), 0);
    assert_eq!([lbm.velocity.rows.len(), lbm.velocity.width], [10, 12]);
    assert_eq!(lbm.solid_mask.rows, vec![vec![false; 12]; 10]);
    lbm.set_step_count(7);
    assert_eq!(lbm.step_count(), 7);
    lbm.reset_step_count();
    assert_eq!(lbm.step_count(), 0);
}

#[test]
fn step_count_setters() {
    let mut lbm: LBM<i32> = LBMConfig { shape: [2, 3] }.init(0);
    lbm.set_step_count(41);
    assert_eq!(lbm.step_count(), 41);
    lbm.reset_step_count();
    assert_eq!(lbm.step_count(), 0);
}

#[test]
fn outflow_clipping_stream_values() {
    let t = counting_lattice(3, 4);
    let r = outflow_clipping_stream(&t, -1.0);
    let at = |i: usize, j: usize, a: usize, b: usize| t.rows[i][j][a][b];
    // rest populations are kept everywhere
    for i in 0..3 {
        for j in 0..4 {
            assert_eq!(r.rows[i][j][1][1], at(i, j, 1, 1));
        }
    }
    // interior cell (1, 1) pulls from its neighbours
    for a in 0..3 {
        for b in 0..3 {
            assert_eq!(r.rows[1][1][a][b], at(1 + 1 - a, 1 + 1 - b, a, b));
        }
    }
    // top edge
    assert_eq!(r.rows[0][1][0][0], at(1, 2, 0, 0));
    assert_eq!(r.rows[0][1][0][1], at(1, 1, 0, 1));
    assert_eq!(r.rows[0][1][0][2], at(1, 0, 0, 2));
    // populations streaming in from beyond the edge are zero
    assert_eq!(r.rows[0][1][2][1], -1.0);
    assert_eq!(r.rows[0][0][0][2], -1.0);
    // bottom edge pulls its downward populations from the penultimate row
    assert_eq!(r.rows[2][1][2][1], at(1, 1, 2, 1));
    assert_eq!(r.rows[2][1][2][0], at(1, 2, 2, 0));
    // right edge
    assert_eq!(r.rows[1][3][1][2], at(1, 2, 1, 2));
    assert_eq!(r.rows[1][3][2][2], at(0, 2, 2, 2));
    // left edge
    assert_eq!(r.rows[1][0][1][0], at(1, 1, 1, 0));
    assert_eq!(r.rows[1][0][0][0], at(2, 1, 0, 0));
}

#[test]
fn reflection_keeps_solid_cells() {
    let pre = counting_lattice(2, 2);
    let naive = Grid { rows: vec![vec![[[0.5f32; 3]; 3]; 2]; 2], width: 2 };
    let mask = Grid { rows: vec![vec![true, false], vec![false, true]], width: 2 };
    let r = isotropic_spherical_reflection(&pre, &naive, &mask);
    assert_eq!(r.rows[0][0], pre.rows[0][0]);
    assert_eq!(r.rows[0][1], naive.rows[0][1]);
    assert_eq!(r.rows[1][0], naive.rows[1][0]);
    assert_eq!(r.rows[1][1], pre.rows[1][1]);
}

#[test]
fn border_mask_is_solid() {
    let mask = Grid { rows: vec![vec![false; 4]; 4], width: 4 };
    let mut interior = mask;
    interior.rows[1][2] = true;
    let r = solid_border_mask(&interior);
    assert_eq!(
        r.rows,
        vec![
            vec![true, true, true, true],
            vec![true, false, true, true],
            vec![true, false, false, true],
            vec![true, true, true, true],
        ]
    );
}

#[test]
fn world_step_reflects_border_and_streams() {
    let dist = counting_lattice(4, 4);
    let col = Grid { rows: vec![vec![[[1000.0f32; 3]; 3]; 4]; 4], width: 4 };
    let r = advance_from_collision(&dist, &col, &no_solid(4, 4), 0.0);
    // interior (1, 1) pulls from (2, 2) which is interior too: collided value
    assert_eq!(r.rows[1][1][0][0], 1000.0);
    // interior (1, 1) pulls [2][2] from (0, 0), a border cell: it kept its own population
    assert_eq!(r.rows[1][1][2][2], dist.rows[0][0][2][2]);
    // the bottom edge takes its downward population from the row above it
    assert_eq!(r.rows[3][1][2][1], 1000.0);
    assert_eq!(r.rows[3][0][2][1], dist.rows[2][0][2][1]);
    // the whole step is the clipped outflow streaming of the reflected collision
    let mut thermal = col.duplicate();
    for i in 0..4 {
        for j in 0..4 {
            if i == 0 || i == 3 || j == 0 || j == 3 {
                thermal.rows[i][j] = dist.rows[i][j];
            }
        }
    }
    assert_eq!(r.rows, outflow_clipping_stream(&thermal, 0.0).rows);
}

#[test]
fn world_step_streams_downward_population_into_bottom_row() {
    // An identity collision on a 4 x 3 lattice of ones, with a 2 moving down
    // from cell (2, 1): the bottom row receives it.
    let mut dist = Grid { rows: vec![vec![[[1.0f32; 3]; 3]; 3]; 4], width: 3 };
    dist.rows[2][1][2][1] = 2.0;
    let r = advance_from_collision(&dist, &dist, &no_solid(4, 3), 0.0);
    assert_eq!(r.rows[3][1][2][1], 2.0);
    assert_eq!(r.rows[3][0][2][1], 1.0);
    assert_eq!(r.rows[3][2][2][1], 1.0);
    assert_eq!(r.rows[2][1][1][1], 1.0);
}

#[test]
fn clipped_stream_moves_each_entry_once() {
    // With no edge outflow, the streamed lattice holds every entry of the input
    // once (as its multiset of values shows) and zeros elsewhere.
    let (h, w) = (4usize, 5usize);
    let mut t = counting_lattice(h, w);
    for i in 0..h {
        for j in 0..w {
            if i == 0 || i == h - 1 || j == 0 || j == w - 1 {
                for a in 0..3 {
                    for b in 0..3 {
                        if !(a == 1 && b == 1) {
                            t.rows[i][j][a][b] = 0.0;
                        }
                    }
                }
            }
        }
    }
    let r = outflow_clipping_stream(&t, 0.0);
    let mut before: Vec<f32> = t.rows.iter().flatten().flatten().flatten().copied().filter(|v| *v != 0.0).collect();
    let mut after: Vec<f32> = r.rows.iter().flatten().flatten().flatten().copied().filter(|v| *v != 0.0).collect();
    before.sort_by(|x, y| x.partial_cmp(y).unwrap());
    after.sort_by(|x, y| x.partial_cmp(y).unwrap());
    assert_eq!(before, after);
    let total_before: f32 = t.rows.iter().flatten().flatten().flatten().sum();
    let total_after: f32 = r.rows.iter().flatten().flatten().flatten().sum();
    assert_eq!(total_before, total_after);
}

/// Entry `[k][v]` of the edge flow of `source`, `zero` past the ends.
fn edge_flow_at(source: &[[f32; 3]], zero: f32, k: usize, v: usize) -> f32 {
    match v {
        0 => source.get(k + 1).map_or(zero, |s| s[0]),
        1 => source[k][1],
        _ => if k >= 1 { source[k - 1][2] } else { zero },
    }
}

#[test]
fn edge_flow_stream_values() {
    let (h, w) = (4usize, 5usize);
    let t = counting_lattice(h, w);
    let zero = -1.0f32;
    let r = edge_flow_stream(&t, zero);
    assert_eq!(r.rows.len(), h);
    assert_eq!(r.width, w);
    let row_pops = |row: usize| -> Vec<[f32; 3]> { (0..w).map(|k| t.rows[row][k][0]).collect() };
    let col_pops = |col: usize| -> Vec<[f32; 3]> {
        (0..h).map(|k| [t.rows[k][col][0][0], t.rows[k][col][1][0], t.rows[k][col][2][0]]).collect()
    };
    for i in 0..h {
        for j in 0..w {
            for a in 0..3 {
                for b in 0..3 {
                    let expected = if i == 0 {
                        match a {
                            0 => edge_flow_at(&row_pops(1), zero, j, b),
                            1 => edge_flow_at(&row_pops(0), zero, j, b),
                            _ => zero,
                        }
                    } else if i == h - 1 {
                        match a {
                            0 => zero,
                            1 => edge_flow_at(&row_pops(1), zero, j, b),
                            _ => edge_flow_at(&row_pops(h - 2), zero, j, b),
                        }
                    } else if j == 0 {
                        match b {
                            0 => edge_flow_at(&col_pops(1), zero, i, a),
                            1 => edge_flow_at(&col_pops(0), zero, i, a),
                            _ => zero,
                        }
                    } else if j == w - 1 {
                        match b {
                            0 => zero,
                            1 => edge_flow_at(&col_pops(w - 1), zero, i, a),
                            _ => edge_flow_at(&col_pops(w - 2), zero, i, a),
                        }
                    } else {
                        t.rows[i + 1 - a][j + 1 - b][a][b]
                    };
                    assert_eq!(r.rows[i][j][a][b], expected, "cell ({i}, {j}) population [{a}][{b}]");
                }
            }
        }
    }
    // A few values by hand: the top-left corner pulls [0][0] from (1, 1) and
    // [1][0] from (1, 0); the interior cell (1, 1) pulls [0][0] from (2, 2).
    assert_eq!(r.rows[0][0][0][0], t.rows[1][1][0][0]);
    assert_eq!(r.rows[1][0][1][0], t.rows[1][1][1][0]);
    assert_eq!(r.rows[1][1][0][0], t.rows[2][2][0][0]);
    assert_eq!(r.rows[0][0][0][2], zero);
}

#[test]
fn edge_policies_agree_inside() {
    let (h, w) = (5usize, 6usize);
    let t = counting_lattice(h, w);
    let edge = edge_flow_stream(&t, 0.0);
    let clipped = outflow_clipping_stream(&t, 0.0);
    for i in 1..h - 1 {
        for j in 1..w - 1 {
            assert_eq!(edge.rows[i][j], clipped.rows[i][j], "cell ({i}, {j})");
        }
    }
    // On the top edge they differ: the clipped stream keeps the rest population.
    assert_eq!(clipped.rows[0][2][1][1], t.rows[0][2][1][1]);
    assert_eq!(edge.rows[0][2][1][1], t.rows[0][2][0][1]);
}
