use neural_network::activation::Activation;
use neural_network::layer::LayerShape;

#[test]
fn summary_reports_both_a_unit_count_and_a_weight_count() {
    let summary = LayerShape { rows: 3, cols: 4, activation: Activation::Sigmoid }.summary();

    assert!(summary.contains("Unit_Count: "), "got: {summary}");
    assert!(summary.contains("weight_count: "), "got: {summary}");
}

#[test]
fn summary_reports_the_real_unit_count_and_weight_count() {
    let summary = LayerShape { rows: 3, cols: 4, activation: Activation::Sigmoid }.summary();

    assert_eq!(summary, "Unit_Count: 3, weight_count: 2");
}

#[test]
fn summary_prints_multi_digit_counts() {
    let summary = LayerShape { rows: 785, cols: 129, activation: Activation::Linear }.summary();

    assert_eq!(summary, "Unit_Count: 128, weight_count: 784");
}

#[test]
fn summary_of_a_matrix_without_rows_or_columns_prints_zero_counts() {
    let summary = LayerShape { rows: 0, cols: 0, activation: Activation::Sigmoid }.summary();

    assert_eq!(summary, "Unit_Count: 0, weight_count: 0");
}

#[test]
fn summary_of_a_matrix_of_only_the_bias_row_and_column() {
    let summary = LayerShape { rows: 1, cols: 1, activation: Activation::Sigmoid }.summary();

    assert_eq!(summary, "Unit_Count: 0, weight_count: 0");
}
