use matmul::text::push_i64_decimal;
use matmul::Matrix;

#[test]
fn render_separates_cells_with_spaces_and_rows_with_newlines() {
    let m = Matrix::new(vec![1, 2, 3, 4], 2, 2).unwrap();
    assert_eq!(m.render(), "1 2 \n3 4 \n");
}

#[test]
fn render_of_negative_and_wide_values() {
    let m = Matrix::new(vec![-1, 10, 0, -203], 2, 2).unwrap();
    assert_eq!(m.render(), "-1 10 \n0 -203 \n");
}

#[test]
fn render_of_an_empty_matrix_is_empty() {
    let m = Matrix::new(vec![], 0, 0).unwrap();
    assert_eq!(m.render(), "");
}

#[test]
fn counter_store_renders_one_line_per_counter() {
    let m = matmul::Metrics::new();
    m.incr("calls".to_string()).unwrap();
    m.incr("errors".to_string()).unwrap();
    m.incr("calls".to_string()).unwrap();
    let text = matmul::metrics::render_store(&m.snapshot().unwrap());
    assert_eq!(text, "calls: 2\nerrors: 1\n");
}

#[test]
fn decimal_text_of_the_64_bit_bounds() {
    let mut s = String::new();
    push_i64_decimal(&mut s, i64::MIN);
    assert_eq!(s, "-9223372036854775808");
    let mut s = String::new();
    push_i64_decimal(&mut s, i64::MAX);
    assert_eq!(s, "9223372036854775807");
    let mut s = String::new();
    push_i64_decimal(&mut s, 0);
    assert_eq!(s, "0");
}
