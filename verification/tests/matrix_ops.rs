use matmul::matrix::{assign_worker, build_tasks, worker_compute};
use matmul::{dot_product, multiply, MatmulError, Matrix, MsgInput, MsgOutput, Vector};

#[test]
fn test_matrix_multiply() {
    // 3 * 2 matrix multiply 2 * 3 matrix
    let a = Matrix::new(vec![1, 2, 3, 4, 5, 6], 3, 2).unwrap();
    let b = Matrix::new(vec![1, 2, 3, 4, 5, 6], 2, 3).unwrap();
    let c = multiply(&a, &b).unwrap();
    assert_eq!(c.row, 3);
    assert_eq!(c.col, 3);
    assert_eq!(c.data, vec![9, 12, 15, 19, 26, 33, 29, 40, 51]);
    println!("{}", c.render());
}

#[test]
#[should_panic]
fn test_matrix_multiply_with_empty_matrix() {
    let a = Matrix::new(vec![1, 2, 3, 4, 5, 6], 3, 2).unwrap();
    let b = Matrix::new(vec![], 0, 0).unwrap();
    let _ = multiply(&a, &b).unwrap();
}

#[test]
fn result_shape_follows_operands() {
    let a = Matrix::new(vec![0; 20], 4, 5).unwrap();
    let b = Matrix::new(vec![0; 15], 5, 3).unwrap();
    let c = multiply(&a, &b).unwrap();
    assert_eq!(c.row, 4);
    assert_eq!(c.col, 3);
    assert_eq!(c.data.len(), 12);
}

#[test]
fn incompatible_shapes_is_rejected() {
    let a = Matrix::new(vec![1, 2, 3, 4], 2, 2).unwrap();
    let b = Matrix::new(vec![1, 2, 3], 3, 1).unwrap();
    assert_eq!(multiply(&a, &b).unwrap_err(), MatmulError::IncompatibleShapes);
}

#[test]
fn zero_dimension_against_nonzero_is_rejected() {
    let a = Matrix::new(vec![1, 2, 3, 4, 5, 6], 3, 2).unwrap();
    let empty = Matrix::new(vec![], 0, 0).unwrap();
    assert_eq!(multiply(&a, &empty).unwrap_err(), MatmulError::IncompatibleShapes);
    assert_eq!(multiply(&empty, &a).unwrap_err(), MatmulError::IncompatibleShapes);
}

#[test]
fn matching_zero_inner_dimension_gives_zero_matrix() {
    let a = Matrix::new(vec![], 2, 0).unwrap();
    let b = Matrix::new(vec![], 0, 3).unwrap();
    let c = multiply(&a, &b).unwrap();
    assert_eq!(c.row, 2);
    assert_eq!(c.col, 3);
    assert_eq!(c.data, vec![0, 0, 0, 0, 0, 0]);
}

#[test]
fn one_by_one_multiply_is_scalar_product() {
    let a = Matrix::new(vec![7], 1, 1).unwrap();
    let b = Matrix::new(vec![6], 1, 1).unwrap();
    let c = multiply(&a, &b).unwrap();
    assert_eq!(c.row, 1);
    assert_eq!(c.col, 1);
    assert_eq!(c.data, vec![42]);
}

#[test]
fn multiply_is_deterministic_across_calls() {
    let a = Matrix::new(vec![3, -1, 4, 1, -5, 9, 2, 6, -5, 3, 5, 8], 4, 3).unwrap();
    let b = Matrix::new(vec![2, 7, 1, -8, 2, 8, 1, -8, 2], 3, 3).unwrap();
    let first = multiply(&a, &b).unwrap();
    let second = multiply(&a, &b).unwrap();
    assert_eq!(first.data, second.data);
    assert_eq!(first.row, second.row);
    assert_eq!(first.col, second.col);
}

#[test]
fn matrix_new_rejects_wrong_buffer_length() {
    assert_eq!(Matrix::new(vec![1, 2, 3], 2, 2).unwrap_err(), MatmulError::ShapeMismatch);
    assert_eq!(Matrix::new(vec![1], 0, 0).unwrap_err(), MatmulError::ShapeMismatch);
}

#[test]
fn dot_product_accumulates_left_to_right() {
    let a = Vector::new(vec![1, 2, 3]);
    let b = Vector::new(vec![4, 5, 6]);
    assert_eq!(dot_product(a, b).unwrap(), 32);
}

#[test]
fn dot_product_wraps_at_the_64_bit_bounds() {
    let a = Vector::new(vec![i64::MAX]);
    let b = Vector::new(vec![2]);
    assert_eq!(dot_product(a, b).unwrap(), -2);
}

#[test]
fn dot_product_rejects_unequal_lengths() {
    let a = Vector::new(vec![1, 2]);
    let b = Vector::new(vec![1, 2, 3]);
    assert_eq!(dot_product(a, b).unwrap_err(), MatmulError::DimensionMismatch);
}

#[test]
fn vector_iter_and_duplicate_preserve_elements() {
    let v = Vector::new(vec![9, 8, 7]);
    assert_eq!(v.iter(), vec![9, 8, 7]);
    assert_eq!(v.len(), 3);
    let w = v.duplicate();
    assert_eq!(w.data, vec![9, 8, 7]);
}

#[test]
fn tasks_cover_every_cell_exactly_once() {
    let a = Matrix::new(vec![1, 2, 3, 4, 5, 6], 3, 2).unwrap();
    let b = Matrix::new(vec![1, 2, 3, 4, 5, 6], 2, 3).unwrap();
    let tasks = build_tasks(&a, &b);
    assert_eq!(tasks.len(), 9);
    for (t, task) in tasks.iter().enumerate() {
        assert_eq!(task.idx, t);
        // task t computes cell (t / 3, t % 3): row of a, column of b
        assert_eq!(task.row.data, a.data[(t / 3) * 2..(t / 3) * 2 + 2].to_vec());
        assert_eq!(task.col.data, vec![b.data[t % 3], b.data[t % 3 + 3]]);
    }
}

#[test]
fn worker_compute_tags_the_reply_with_the_task_index() {
    let input = MsgInput::new(5, Vector::new(vec![2, 3]), Vector::new(vec![4, 5]));
    let out: MsgOutput = worker_compute(&input).unwrap();
    assert_eq!(out.idx, 5);
    assert_eq!(out.value, 23);
}

#[test]
fn worker_compute_rejects_a_malformed_task() {
    let input = MsgInput::new(0, Vector::new(vec![1]), Vector::new(vec![1, 2]));
    assert_eq!(worker_compute(&input).unwrap_err(), MatmulError::DimensionMismatch);
}

#[test]
fn partition_is_index_mod_worker_count() {
    assert_eq!(assign_worker(0, 16), 0);
    assert_eq!(assign_worker(5, 16), 5);
    assert_eq!(assign_worker(17, 16), 1);
    assert_eq!(assign_worker(31, 16), 15);
    assert_eq!(assign_worker(32, 16), 0);
    assert_eq!(assign_worker(7, 3), 1);
}
