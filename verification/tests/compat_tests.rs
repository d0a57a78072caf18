use burn_tensor::Shape;
use clockmill::compat::data_view::TensorDataIndexView;
use clockmill::compat::shape::{checked_ravel_shape, ravel_dims, ravel_shape};
use clockmill::convolve::surface::{convolve_func_2d, Array3, Array4, Array5};
use clockmill::grid::Grid;

#[test]
fn ravel_is_row_major() {
    assert_eq!(ravel_dims(&[2, 3, 4], [0isize, 0, 0]), 0);
    assert_eq!(ravel_dims(&[2, 3, 4], [1isize, 2, 3]), 23);
    assert_eq!(ravel_dims(&[2, 3, 4], [1isize, 0, 2]), 14);
}

#[test]
fn ravel_counts_negative_coordinates_from_the_end() {
    assert_eq!(ravel_dims(&[2, 3, 4], [-1isize, -1, -1]), 23);
    assert_eq!(ravel_dims(&[2, 3, 4], [0isize, -3, -4]), 0);
    assert_eq!(ravel_dims(&[5], [-2isize]), 3);
}

#[test]
fn ravel_shape_reads_the_shape() {
    let shape = Shape::new([3, 5]);
    assert_eq!(ravel_shape(&shape, [2isize, 4]), 14);
    assert_eq!(ravel_shape(&shape, [-1isize, 0]), 10);
}

#[test]
fn checked_ravel_shape_rejects_bad_coordinates() {
    let shape = Shape::new([3, 5]);
    assert_eq!(checked_ravel_shape(&shape, [2isize, 4]), Some(14));
    assert_eq!(checked_ravel_shape(&shape, [3isize, 0]), None);
    assert_eq!(checked_ravel_shape(&shape, [0isize, -6]), None);
    assert_eq!(checked_ravel_shape(&shape, [0isize, 0, 0]), None);
    assert_eq!(checked_ravel_shape(&Shape::new([0, 5]), [0isize, 0]), None);
}

#[test]
fn data_view_indexes_row_major() {
    let data: Vec<u32> = (0..24).collect();
    let dims = [2usize, 3, 4];
    let view: TensorDataIndexView<u32, 3> = TensorDataIndexView::view(&data, &dims);
    assert_eq!(*view.index([1, 2, 3]), 23);
    assert_eq!(*view.index([0, 1, -1]), 7);
    assert_eq!(*view.index([-2, 0, 1]), 1);
}

fn plane(cells: Vec<Vec<i32>>) -> Grid<i32> {
    let width = cells[0].len();
    Grid { rows: cells, width }
}

#[test]
fn convolve_sums_windows() {
    // one batch, one channel, a 3x4 plane
    let input = Array4 {
        dims: [1, 1, 3, 4],
        data: vec![vec![plane(vec![vec![1, 2, 3, 4], vec![5, 6, 7, 8], vec![9, 10, 11, 12]])]],
    };
    let sum_windows = |x: Array5<i32>| -> Array3<i32> {
        let mut data = Vec::new();
        for b in 0..x.dims[0] {
            let mut blocks = Vec::new();
            for k in 0..x.dims[1] {
                let mut total = 0;
                for c in 0..x.dims[2] {
                    for row in x.data[b][k][c].rows.iter() {
                        total += row.iter().sum::<i32>();
                    }
                }
                blocks.push(vec![total, -total]);
            }
            data.push(blocks);
        }
        Array3 { dims: [x.dims[0], x.dims[1], 2], data }
    };
    let out = convolve_func_2d(input, [2, 2], sum_windows);
    assert_eq!(out.dims, [1, 2, 2, 3]);
    assert_eq!(out.data[0][0].rows, vec![vec![14, 18, 22], vec![30, 34, 38]]);
    assert_eq!(out.data[0][1].rows, vec![vec![-14, -18, -22], vec![-30, -34, -38]]);
}
