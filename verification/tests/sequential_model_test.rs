use neural_network::activation::Activation;
use neural_network::layer::LayerShape;
use neural_network::layer_request_infos::LayerRequestInfo;
use neural_network::sequential_model::{
    check_batch, check_input, sequential_layer_shapes, summary, validate_layers, ShapeError,
};

fn layer_requests(unit_counts: &[usize]) -> Vec<LayerRequestInfo> {
    unit_counts
        .iter()
        .map(|&unit_count| LayerRequestInfo::new(Activation::Sigmoid, unit_count))
        .collect()
}

fn shape(rows: usize, cols: usize) -> LayerShape {
    LayerShape { rows, cols, activation: Activation::Sigmoid }
}

fn dims(layer: &LayerShape) -> (usize, usize) {
    (layer.rows, layer.cols)
}

#[test]
fn new_creates_one_layer_per_request() {
    let layers = sequential_layer_shapes(3, &layer_requests(&[4, 2, 1]));

    assert_eq!(layers.len(), 3);
}

#[test]
fn new_accepts_an_empty_layer_request_list() {
    let layers = sequential_layer_shapes(3, &layer_requests(&[]));

    assert!(layers.is_empty());
}

#[test]
fn new_shapes_the_first_layer_from_the_sample_feature_size() {
    let layers = sequential_layer_shapes(3, &layer_requests(&[4, 2, 1]));

    assert_eq!(dims(&layers[0]), (4, 5));
}

#[test]
fn new_shapes_every_other_layer_from_the_previous_unit_count() {
    let layers = sequential_layer_shapes(3, &layer_requests(&[4, 2, 1]));

    assert_eq!(dims(&layers[1]), (5, 3));
    assert_eq!(dims(&layers[2]), (3, 2));
}

#[test]
fn every_layer_matrix_can_be_multiplied_with_the_output_of_the_previous_one() {
    let layers = sequential_layer_shapes(5, &layer_requests(&[8, 4, 2, 1]));

    for layer_index in 1..layers.len() {
        assert_eq!(
            layers[layer_index].rows,
            layers[layer_index - 1].cols,
            "layer {layer_index} cannot consume the output of layer {}",
            layer_index - 1
        );
    }
}

#[test]
fn new_keeps_the_requested_activation_of_every_layer() {
    let requests = vec![
        LayerRequestInfo::new(Activation::Sigmoid, 3),
        LayerRequestInfo::new(Activation::Linear, 2),
        LayerRequestInfo::new(Activation::Sigmoid, 1),
    ];
    let layers = sequential_layer_shapes(3, &requests);

    assert_eq!(layers[0].activation, Activation::Sigmoid);
    assert_eq!(layers[1].activation, Activation::Linear);
    assert_eq!(layers[2].activation, Activation::Sigmoid);
}

#[test]
fn new_accepts_a_model_with_a_single_layer() {
    let layers = sequential_layer_shapes(2, &layer_requests(&[1]));

    assert_eq!(layers.len(), 1);
    assert_eq!(dims(&layers[0]), (3, 2));
}

#[test]
fn new_accepts_a_model_without_any_sample_feature() {
    let layers = sequential_layer_shapes(0, &layer_requests(&[1]));

    assert_eq!(dims(&layers[0]), (1, 2));
}

#[test]
fn new_accepts_a_layer_without_any_unit() {
    let layers = sequential_layer_shapes(2, &layer_requests(&[0, 1]));

    assert_eq!(dims(&layers[0]), (3, 1));
    assert_eq!(dims(&layers[1]), (1, 2));
}

#[test]
fn summary_starts_with_the_layer_count() {
    let text = summary(&sequential_layer_shapes(2, &layer_requests(&[3, 1])));

    assert!(text.starts_with("Layer_Count: 2\n"), "got: {text}");
}

#[test]
fn summary_holds_one_line_per_layer_after_the_header() {
    let text = summary(&sequential_layer_shapes(2, &layer_requests(&[3, 2, 1])));

    assert_eq!(text.lines().count(), 4);
}

#[test]
fn summary_numbers_the_layers_starting_from_one_in_request_order() {
    let text = summary(&sequential_layer_shapes(2, &layer_requests(&[3, 2, 1])));

    let layer_lines: Vec<&str> = text.lines().skip(1).collect();
    for (line_index, line) in layer_lines.iter().enumerate() {
        assert!(
            line.starts_with(&format!("Layer_{}: ", line_index + 1)),
            "got: {line}"
        );
    }
}

#[test]
fn summary_reports_the_shape_and_the_activation_of_every_layer() {
    let text = summary(&sequential_layer_shapes(2, &layer_requests(&[3, 1])));

    assert_eq!(
        text,
        "Layer_Count: 2\n\
         Layer_1: Matrix shape = 3x4, activation_func = Sigmoid\n\
         Layer_2: Matrix shape = 4x2, activation_func = Sigmoid\n"
    );
}

#[test]
fn summary_of_a_model_without_layers_only_reports_the_layer_count() {
    let text = summary(&sequential_layer_shapes(2, &layer_requests(&[])));

    assert_eq!(text, "Layer_Count: 0\n");
}

#[test]
fn summary_prints_a_linear_layer_by_its_name() {
    let layers = vec![LayerShape { rows: 11, cols: 2, activation: Activation::Linear }];

    assert_eq!(
        summary(&layers),
        "Layer_Count: 1\nLayer_1: Matrix shape = 11x2, activation_func = Linear\n"
    );
}

#[test]
fn predict_accepts_an_input_that_holds_exactly_the_sample_features() {
    let layers = sequential_layer_shapes(2, &layer_requests(&[3, 1]));

    assert_eq!(check_input(&layers, 2), Ok(()));
}

#[test]
fn predict_rejects_an_input_that_does_not_hold_the_sample_features() {
    let layers = sequential_layer_shapes(2, &layer_requests(&[3, 1]));

    let error = check_input(&layers, 7).unwrap_err();

    assert_eq!(error, ShapeError::FeatureCountMismatch);
    assert_eq!(error.message(), "Input array's feature count not correct!!");
}

#[test]
fn predict_cannot_run_on_a_model_without_layers() {
    let layers = sequential_layer_shapes(2, &layer_requests(&[]));

    let error = check_input(&layers, 2).unwrap_err();

    assert_eq!(error, ShapeError::EmptyModel);
    assert_eq!(
        error.message(),
        "index out of bounds: the len is 0 but the index is 0"
    );
}

#[test]
fn predict_runs_on_a_model_without_any_sample_feature() {
    let layers = sequential_layer_shapes(0, &layer_requests(&[1]));

    assert_eq!(check_input(&layers, 0), Ok(()));
    assert_eq!(check_input(&layers, 1), Err(ShapeError::FeatureCountMismatch));
}

#[test]
fn predict_stops_at_the_first_layer_that_cannot_consume_the_previous_one() {
    let layers = vec![shape(3, 4), shape(4, 3), shape(2, 2), shape(9, 1)];

    assert_eq!(check_input(&layers, 2), Err(ShapeError::RowColumnMismatch(3)));
}

#[test]
fn predict_stops_at_a_layer_without_any_column() {
    let layers = vec![shape(3, 0), shape(0, 2)];

    assert_eq!(check_input(&layers, 2), Err(ShapeError::NoColumn(1)));
}

#[test]
fn cost_accepts_a_batch_of_the_sample_features_with_an_output_per_row() {
    let layers = vec![shape(3, 2)];

    assert_eq!(check_batch(&layers, 2, 3, 3), Ok(()));
    assert_eq!(check_batch(&layers, 2, 1, 1), Ok(()));
}

#[test]
fn cost_rejects_a_batch_whose_columns_are_not_the_sample_features() {
    let layers = vec![shape(3, 2)];

    let error = check_batch(&layers, 4, 3, 3).unwrap_err();

    assert_eq!(error, ShapeError::FirstLayerRowMismatch);
    assert!(error.message().contains("first layer row count mismatch"));
}

#[test]
fn cost_does_not_accept_fewer_outputs_than_the_batch_holds() {
    let layers = vec![shape(3, 2)];

    assert_eq!(check_batch(&layers, 2, 3, 1), Err(ShapeError::OutputCountMismatch));
}

#[test]
fn cost_does_not_accept_more_outputs_than_the_batch_holds() {
    let layers = vec![shape(3, 2)];

    let error = check_batch(&layers, 2, 1, 4).unwrap_err();

    assert_eq!(error, ShapeError::OutputCountMismatch);
    assert_eq!(error.message(), "A batch must have exactly one output per sample!!");
}

#[test]
fn cost_of_an_empty_batch_is_refused() {
    let layers = vec![shape(3, 2)];

    let error = check_batch(&layers, 2, 0, 0).unwrap_err();

    assert_eq!(error, ShapeError::EmptyBatch);
    assert_eq!(error.message(), "A batch must hold at least one sample!!");
}

#[test]
fn a_chain_whose_layers_multiply_is_accepted() {
    assert_eq!(validate_layers(&vec![shape(3, 4), shape(4, 2)], 2), Ok(()));
}

#[test]
fn a_long_chain_is_checked_layer_by_layer() {
    assert_eq!(
        validate_layers(&vec![shape(3, 5), shape(5, 3), shape(3, 2)], 2),
        Ok(())
    );
}

#[test]
fn a_second_layer_that_cannot_consume_the_first_one_is_rejected() {
    let error = validate_layers(&vec![shape(3, 4), shape(3, 2)], 2).unwrap_err();

    assert_eq!(error, ShapeError::RowColumnMismatch(2));
    assert!(error
        .message()
        .contains("Layer_2 row size and its previous column size mismatch"));
}

#[test]
fn a_break_deep_in_the_chain_names_the_layer_at_fault() {
    let error = validate_layers(&vec![shape(3, 5), shape(5, 3), shape(7, 2)], 2).unwrap_err();

    assert!(error
        .message()
        .contains("Layer_3 row size and its previous column size mismatch"));
}

#[test]
fn a_first_layer_that_does_not_match_the_sample_features_is_rejected() {
    let error = validate_layers(&vec![shape(9, 4)], 2).unwrap_err();

    assert!(error.message().contains("first layer row count mismatch"));
}

#[test]
fn a_first_layer_without_a_bias_row_is_rejected() {
    assert_eq!(
        validate_layers(&vec![shape(2, 4)], 2),
        Err(ShapeError::FirstLayerRowMismatch)
    );
}

#[test]
fn a_single_layer_model_only_has_its_first_layer_checked() {
    assert_eq!(validate_layers(&vec![shape(3, 2)], 2), Ok(()));
}

#[test]
fn a_model_without_any_sample_feature_needs_a_single_bias_row() {
    assert_eq!(validate_layers(&vec![shape(1, 2)], 0), Ok(()));
    assert_eq!(
        validate_layers(&vec![shape(0, 2)], 0),
        Err(ShapeError::FirstLayerRowMismatch)
    );
}

#[test]
fn an_empty_layer_list_does_not_build_a_model() {
    assert_eq!(validate_layers(&vec![], 2), Err(ShapeError::NoLayer));
}

#[test]
fn an_empty_layer_list_is_refused_with_a_message_that_names_the_mistake() {
    let error = validate_layers(&vec![], 2).unwrap_err();

    assert!(error.message().contains("layer"), "got: {}", error.message());
    assert_eq!(error.message(), "A model must have at least one layer!!");
}

#[test]
fn the_shapes_that_new_produces_are_accepted_by_the_validator() {
    let built = sequential_layer_shapes(5, &layer_requests(&[8, 4, 2, 1]));

    assert_eq!(validate_layers(&built, 5), Ok(()));
}

#[test]
fn a_batch_is_accepted_exactly_when_each_row_could_be_predicted() {
    let stacks = vec![
        vec![],
        vec![shape(3, 2)],
        vec![shape(3, 0)],
        vec![shape(3, 4), shape(4, 2)],
        vec![shape(3, 4), shape(3, 2)],
        vec![shape(1, 2), shape(2, 1)],
    ];

    for layers in &stacks {
        for feature_count in 0..4 {
            for (sample_count, output_count) in [(0, 0), (2, 2), (2, 1), (1, 3), (1, 1)] {
                let batch = check_batch(layers, feature_count, sample_count, output_count);
                let rows = check_input(layers, feature_count);
                assert_eq!(
                    batch.is_ok(),
                    rows.is_ok() && sample_count > 0 && output_count == sample_count,
                    "{layers:?} with {feature_count} features, {sample_count} samples, {output_count} outputs"
                );
            }
        }
    }
}
