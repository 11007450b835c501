//! Validation of a data set against the layers requested for a network.
use vstd::prelude::*;

use crate::layer_request_infos::LayerRequestInfo;

verus! {

/// Why a data set and a list of layer requests cannot make a network.
#[derive(Debug, Clone, Copy, PartialEq, Eq, Structural)]
pub enum ValidateError {
    /// No layer was requested.
    NoLayer,
    /// The last requested layer does not hold exactly one unit.
    OutputLayerNotSingleUnit,
    /// The data set holds no sample, so no feature count can be read.
    NoSample,
    /// There are not as many outputs as samples.
    SampleCountMismatch,
    /// Some sample has another feature count than the first one.
    FeatureCountMismatch,
}

/// Every sample holds as many features as the first one.
pub open spec fn same_feature_counts<T>(samples: Seq<Vec<T>>) -> bool {
    forall|i: int| 1 <= i < samples.len() ==> #[trigger] samples[i].len() == samples[0].len()
}

/// The outcome of validating `samples` (one vector of features per sample),
/// `y_len` outputs and the layer `requests`, checked in this order: at least
/// one layer; an output layer of exactly one unit; at least one sample; as
/// many outputs as samples; the same feature count in every sample. On
/// success: the layer count and the feature count of a sample.
pub open spec fn validate_spec<T>(
    samples: Seq<Vec<T>>,
    y_len: int,
    requests: Seq<LayerRequestInfo>,
) -> Result<(usize, usize), ValidateError> {
    if requests.len() == 0 {
        Err(ValidateError::NoLayer)
    } else if requests.last().unit_count != 1 {
        Err(ValidateError::OutputLayerNotSingleUnit)
    } else if samples.len() == 0 {
        Err(ValidateError::NoSample)
    } else if samples.len() != y_len {
        Err(ValidateError::SampleCountMismatch)
    } else if !same_feature_counts(samples) {
        Err(ValidateError::FeatureCountMismatch)
    } else {
        Ok((requests.len() as usize, samples[0].len()))
    }
}

/// A data set that a network can be trained on: at least one layer, an
/// output layer of one unit, at least one sample, one output per sample, and
/// every sample of the same feature count.
pub open spec fn consistent_data<T>(
    samples: Seq<Vec<T>>,
    y_len: int,
    requests: Seq<LayerRequestInfo>,
) -> bool {
    &&& requests.len() > 0
    &&& requests[requests.len() - 1].unit_count == 1
    &&& samples.len() > 0
    &&& y_len == samples.len()
    &&& forall|i: int| 0 <= i < samples.len() ==> #[trigger] samples[i].len() == samples[0].len()
}

/// The validation accepts exactly the consistent data sets, answers with the
/// layer count and the feature count of the samples, and refuses a data set
/// whose output count differs from its sample count (once the layers and
/// the presence of samples are checked) for that very reason.
pub proof fn lemma_validate_accepts_exactly_consistent_data<T>(
    samples: Seq<Vec<T>>,
    y_len: int,
    requests: Seq<LayerRequestInfo>,
)
    ensures
        validate_spec(samples, y_len, requests) is Ok <==> consistent_data(
            samples,
            y_len,
            requests,
        ),
        validate_spec(samples, y_len, requests) is Ok ==> validate_spec(
            samples,
            y_len,
            requests,
        )->Ok_0 == (requests.len() as usize, samples[0].len()),
        validate_spec(samples, y_len, requests) is Ok ==> y_len == samples.len()
            && requests.len() > 0 && requests[requests.len() - 1].unit_count == 1 && forall|
            i: int,
        |
            0 <= i < samples.len() ==> #[trigger] samples[i].len() == samples[0].len(),
        requests.len() > 0 && requests[requests.len() - 1].unit_count == 1 && samples.len() > 0
            && y_len != samples.len() ==> validate_spec(samples, y_len, requests) == Err::<
            (usize, usize),
            ValidateError,
        >(ValidateError::SampleCountMismatch),
{
    if consistent_data(samples, y_len, requests) {
        assert(same_feature_counts(samples));
    }
    if validate_spec(samples, y_len, requests) is Ok {
        assert forall|i: int| 0 <= i < samples.len() implies #[trigger] samples[i].len()
            == samples[0].len() by {
            if i >= 1 {
                assert(samples[i].len() == samples[0].len());
            }
        }
    }
}

impl ValidateError {
    /// The message with which the data set validation reports this error.
    pub fn message(&self) -> (m: &'static str)
        ensures
            m@ == (match self {
                ValidateError::NoLayer => "Network must has at least one layer!!"@,
                ValidateError::OutputLayerNotSingleUnit => "Output layer must have only one unit!!"@,
                ValidateError::NoSample => "index out of bounds: the len is 0 but the index is 0"@,
                ValidateError::SampleCountMismatch => "y and samples (X) must have the same sample count!!"@,
                ValidateError::FeatureCountMismatch => "samples's each sample feature count should be equal!!"@,
            }),
    {
        match self {
            ValidateError::NoLayer => "Network must has at least one layer!!",
            ValidateError::OutputLayerNotSingleUnit => "Output layer must have only one unit!!",
            ValidateError::NoSample => "index out of bounds: the len is 0 but the index is 0",
            ValidateError::SampleCountMismatch => "y and samples (X) must have the same sample count!!",
            ValidateError::FeatureCountMismatch => "samples's each sample feature count should be equal!!",
        }
    }

    /// The message with which the network's own validation reports this error.
    pub fn network_message(&self) -> (m: &'static str)
        ensures
            m@ == (match self {
                ValidateError::NoLayer => "Network must has at least one layer!!"@,
                ValidateError::OutputLayerNotSingleUnit => "Output layer must have only one unit!!"@,
                ValidateError::NoSample => "index out of bounds: the len is 0 but the index is 0"@,
                ValidateError::SampleCountMismatch => "y and X must have the same sample count!!"@,
                ValidateError::FeatureCountMismatch => "X's each sample feature count should be equal!!"@,
            }),
    {
        match self {
            ValidateError::NoLayer => "Network must has at least one layer!!",
            ValidateError::OutputLayerNotSingleUnit => "Output layer must have only one unit!!",
            ValidateError::NoSample => "index out of bounds: the len is 0 but the index is 0",
            ValidateError::SampleCountMismatch => "y and X must have the same sample count!!",
            ValidateError::FeatureCountMismatch => "X's each sample feature count should be equal!!",
        }
    }
}

/// Checks that `samples` and `y` can train a network made of the requested
/// layers, and returns the layer count and the feature count of a sample.
pub fn validate<T>(
    samples: &Vec<Vec<T>>,
    y: &Vec<T>,
    layer_request_infos: &Vec<LayerRequestInfo>,
) -> (r: Result<(usize, usize), ValidateError>)
    ensures
        r == validate_spec(samples@, y@.len() as int, layer_request_infos@),
        r is Ok <==> consistent_data(samples@, y@.len() as int, layer_request_infos@),
        r is Ok ==> r->Ok_0 == (layer_request_infos@.len() as usize, samples@[0].len()),
        r is Ok ==> y@.len() == samples@.len(),
        layer_request_infos@.len() > 0 && layer_request_infos@.last().unit_count == 1
            && samples@.len() > 0 && y@.len() != samples@.len() ==> r == Err::<
            (usize, usize),
            ValidateError,
        >(ValidateError::SampleCountMismatch),
{
    proof {
        lemma_validate_accepts_exactly_consistent_data(
            samples@,
            y@.len() as int,
            layer_request_infos@,
        );
    }
    let layer_count = layer_request_infos.len();
    if layer_count == 0 {
        return Err(ValidateError::NoLayer);
    }
    if layer_request_infos[layer_count - 1].unit_count != 1 {
        return Err(ValidateError::OutputLayerNotSingleUnit);
    }
    let sample_size = samples.len();
    if sample_size == 0 {
        return Err(ValidateError::NoSample);
    }
    let sample_feature_size = samples[0].len();
    if sample_size != y.len() {
        return Err(ValidateError::SampleCountMismatch);
    }
    let mut i: usize = 1;
    while i < sample_size
        invariant
            sample_size == samples@.len(),
            sample_size == y@.len(),
            layer_count == layer_request_infos@.len(),
            layer_count > 0,
            layer_request_infos@.last().unit_count == 1,
            1 <= i <= sample_size,
            sample_feature_size == samples@[0].len(),
            forall|j: int| 1 <= j < i ==> #[trigger] samples@[j].len() == sample_feature_size,
        decreases sample_size - i,
    {
        if samples[i].len() != sample_feature_size {
            assert(samples@[i as int].len() != samples@[0].len());
            return Err(ValidateError::FeatureCountMismatch);
        }
        i = i + 1;
    }
    Ok((layer_count, sample_feature_size))
}

} // verus!
