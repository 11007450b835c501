use neural_network::activation_function_type::ActivationFunctionType;
use neural_network::layer_request_infos::LayerRequestInfo;
use neural_network::validates::{validate, ValidateError};

fn samples() -> (Vec<Vec<f64>>, Vec<f64>) {
    let samples = vec![
        vec![1.0, 2.0, 3.0],
        vec![4.0, 5.0, 6.0],
        vec![7.0, 8.0, 9.0],
    ];
    let y = vec![0.0, 1.0, 0.0];

    (samples, y)
}

fn layer_requests(unit_counts: &[usize]) -> Vec<LayerRequestInfo> {
    unit_counts
        .iter()
        .map(|&unit_count| LayerRequestInfo::new(ActivationFunctionType::Sigmoid, unit_count))
        .collect()
}

#[test]
fn validate_returns_the_layer_count_and_the_sample_feature_size() {
    let (samples, y) = samples();

    let (layer_count, sample_feature_size) =
        validate(&samples, &y, &layer_requests(&[4, 2, 1])).unwrap();

    assert_eq!(layer_count, 3);
    assert_eq!(sample_feature_size, 3);
}

#[test]
fn validate_accepts_a_network_made_of_a_single_output_layer() {
    let samples = vec![vec![1.0]];
    let y = vec![1.0];

    assert_eq!(validate(&samples, &y, &layer_requests(&[1])), Ok((1, 1)));
}

#[test]
fn validate_accepts_a_hidden_layer_without_any_unit() {
    let (samples, y) = samples();

    assert_eq!(validate(&samples, &y, &layer_requests(&[0, 1])), Ok((2, 3)));
}

#[test]
fn validate_accepts_samples_without_any_feature() {
    let samples: Vec<Vec<f64>> = vec![vec![], vec![]];
    let y = vec![0.0, 1.0];

    assert_eq!(validate(&samples, &y, &layer_requests(&[1])), Ok((1, 0)));
}

#[test]
fn validate_refuses_a_request_list_without_any_layer() {
    let (samples, y) = samples();

    let error = validate(&samples, &y, &layer_requests(&[])).unwrap_err();

    assert_eq!(error, ValidateError::NoLayer);
    assert_eq!(error.message(), "Network must has at least one layer!!");
}

#[test]
fn validate_refuses_an_output_layer_of_more_than_one_unit() {
    let (samples, y) = samples();

    let error = validate(&samples, &y, &layer_requests(&[3, 2])).unwrap_err();

    assert_eq!(error, ValidateError::OutputLayerNotSingleUnit);
    assert_eq!(error.message(), "Output layer must have only one unit!!");
}

#[test]
fn validate_refuses_an_output_layer_without_any_unit() {
    let (samples, y) = samples();

    assert_eq!(
        validate(&samples, &y, &layer_requests(&[3, 0])),
        Err(ValidateError::OutputLayerNotSingleUnit)
    );
}

#[test]
fn validate_refuses_different_sample_and_output_counts() {
    let (samples, _) = samples();
    let y = vec![0.0, 1.0];

    let error = validate(&samples, &y, &layer_requests(&[2, 1])).unwrap_err();

    assert_eq!(error, ValidateError::SampleCountMismatch);
    assert_eq!(error.message(), "y and samples (X) must have the same sample count!!");
}

#[test]
fn validate_refuses_samples_of_different_feature_counts() {
    let samples = vec![vec![1.0, 2.0, 3.0], vec![4.0, 5.0], vec![6.0, 7.0, 8.0]];
    let y = vec![0.0, 1.0, 0.0];

    let error = validate(&samples, &y, &layer_requests(&[2, 1])).unwrap_err();

    assert_eq!(error, ValidateError::FeatureCountMismatch);
    assert_eq!(error.message(), "samples's each sample feature count should be equal!!");
}

#[test]
fn validate_looks_at_the_feature_count_of_the_last_sample_too() {
    let samples = vec![vec![1.0, 2.0], vec![3.0, 4.0], vec![5.0]];
    let y = vec![0.0, 1.0, 0.0];

    assert_eq!(
        validate(&samples, &y, &layer_requests(&[1])),
        Err(ValidateError::FeatureCountMismatch)
    );
}

#[test]
fn validate_refuses_an_empty_sample_list() {
    let samples: Vec<Vec<f64>> = vec![];
    let y: Vec<f64> = vec![];

    assert_eq!(
        validate(&samples, &y, &layer_requests(&[1])),
        Err(ValidateError::NoSample)
    );
}

#[test]
fn validate_checks_the_layers_before_the_samples() {
    let samples: Vec<Vec<f64>> = vec![];
    let y = vec![1.0];

    assert_eq!(
        validate(&samples, &y, &layer_requests(&[2])),
        Err(ValidateError::OutputLayerNotSingleUnit)
    );
}

#[test]
fn validate_checks_the_sample_count_before_the_feature_counts() {
    let samples = vec![vec![1.0], vec![1.0, 2.0]];
    let y = vec![1.0];

    assert_eq!(
        validate(&samples, &y, &layer_requests(&[1])),
        Err(ValidateError::SampleCountMismatch)
    );
}

#[test]
fn the_network_wording_of_the_errors_names_x() {
    assert_eq!(
        ValidateError::SampleCountMismatch.network_message(),
        "y and X must have the same sample count!!"
    );
    assert_eq!(
        ValidateError::FeatureCountMismatch.network_message(),
        "X's each sample feature count should be equal!!"
    );
    assert_eq!(
        ValidateError::NoLayer.network_message(),
        "Network must has at least one layer!!"
    );
}
