//! The shape logic of a network of units: validation of the training data,
//! the units `new` creates, and which samples a network can predict from.
use vstd::prelude::*;
use vstd::string::*;

use crate::activation::Activation;
use crate::layer_request_infos::LayerRequestInfo;
use crate::text::{decimal, decimal_chars};
use crate::validates::{same_feature_counts, validate, validate_spec, ValidateError};

verus! {

/// One unit of a network as far as its shape goes: its activation and the
/// number of weights it multiplies its inputs with.
#[derive(Debug, Clone, Copy, PartialEq, Eq, Structural)]
pub struct UnitShape {
    pub activation: Activation,
    pub weight_count: usize,
}

/// Validates the training data of a network as the data set validation
/// does, and returns the layer count, the feature count of a sample and the
/// sample count.
pub fn validate_network<T>(
    samples: &Vec<Vec<T>>,
    y: &Vec<T>,
    layer_request_infos: &Vec<LayerRequestInfo>,
) -> (r: Result<(usize, usize, usize), ValidateError>)
    ensures
        r == (match validate_spec(samples@, y@.len() as int, layer_request_infos@) {
            Ok((layer_count, feature_size)) => Ok::<(usize, usize, usize), ValidateError>(
                (layer_count, feature_size, samples@.len() as usize),
            ),
            Err(e) => Err(e),
        }),
{
    match validate(samples, y, layer_request_infos) {
        Ok((layer_count, feature_size)) => Ok((layer_count, feature_size, samples.len())),
        Err(e) => Err(e),
    }
}

/// The number of weights every unit of layer `i` gets from `new`: one per
/// sample feature in the first layer, one per unit of the previous layer
/// otherwise.
pub open spec fn requested_weight_count(
    sample_feature_size: nat,
    requests: Seq<LayerRequestInfo>,
    i: int,
) -> usize {
    if i == 0 {
        sample_feature_size as usize
    } else {
        requests[i - 1].unit_count
    }
}

/// The units `new` creates for layer `i`: as many as requested, all with the
/// requested activation and the same weight count.
pub open spec fn requested_units(
    sample_feature_size: nat,
    requests: Seq<LayerRequestInfo>,
    i: int,
) -> Seq<UnitShape> {
    Seq::new(
        requests[i].unit_count as nat,
        |u: int|
            UnitShape {
                activation: requests[i].activation,
                weight_count: requested_weight_count(sample_feature_size, requests, i),
            },
    )
}

/// The units of every layer of a freshly created network, layer by layer.
pub open spec fn network_shapes_spec(
    sample_feature_size: nat,
    requests: Seq<LayerRequestInfo>,
) -> Seq<Seq<UnitShape>> {
    Seq::new(requests.len(), |i: int| requested_units(sample_feature_size, requests, i))
}

fn layer_units(activation: Activation, unit_count: usize, weight_count: usize) -> (r: Vec<
    UnitShape,
>)
    ensures
        r@ == Seq::new(
            unit_count as nat,
            |u: int| UnitShape { activation: activation, weight_count: weight_count },
        ),
{
    let mut units: Vec<UnitShape> = Vec::new();
    let mut u: usize = 0;
    while u < unit_count
        invariant
            u <= unit_count,
            units@ =~= Seq::new(
                u as nat,
                |j: int| UnitShape { activation: activation, weight_count: weight_count },
            ),
        decreases unit_count - u,
    {
        units.push(UnitShape { activation, weight_count });
        u = u + 1;
    }
    units
}

/// The units `new` creates, layer by layer, for samples of
/// `sample_feature_size` features and the given layer requests.
pub fn network_layer_shapes(
    sample_feature_size: usize,
    layer_request_infos: &Vec<LayerRequestInfo>,
) -> (r: Vec<Vec<UnitShape>>)
    ensures
        r@.map_values(|l: Vec<UnitShape>| l@) == network_shapes_spec(
            sample_feature_size as nat,
            layer_request_infos@,
        ),
        r@.len() == layer_request_infos@.len(),
        forall|i: int|
            0 <= i < r@.len() ==> (#[trigger] r@[i])@ == requested_units(
                sample_feature_size as nat,
                layer_request_infos@,
                i,
            ),
        forall|i: int|
            0 <= i < r@.len() ==> (#[trigger] r@[i])@.len() == layer_request_infos@[i].unit_count,
        forall|i: int, u: int|
            0 <= i < r@.len() && 0 <= u < r@[i]@.len() ==> {
                &&& (#[trigger] r@[i]@[u]).activation == layer_request_infos@[i].activation
                &&& r@[i]@[u].weight_count == if i == 0 {
                    sample_feature_size
                } else {
                    layer_request_infos@[i - 1].unit_count
                }
            },
{
    proof {
        lemma_network_units_follow_requests(sample_feature_size as nat, layer_request_infos@);
    }
    let layer_count = layer_request_infos.len();
    let mut layers: Vec<Vec<UnitShape>> = Vec::new();
    let mut i: usize = 0;
    while i < layer_count
        invariant
            layer_count == layer_request_infos@.len(),
            i <= layer_count,
            layers@.len() == i,
            forall|j: int|
                0 <= j < i ==> (#[trigger] layers@[j])@ == requested_units(
                    sample_feature_size as nat,
                    layer_request_infos@,
                    j,
                ),
        decreases layer_count - i,
    {
        let request = layer_request_infos[i];
        let weight_count = if i == 0 {
            sample_feature_size
        } else {
            layer_request_infos[i - 1].unit_count
        };
        let units = layer_units(request.activation, request.unit_count, weight_count);
        assert(units@ =~= requested_units(sample_feature_size as nat, layer_request_infos@, i as int));
        layers.push(units);
        i = i + 1;
    }
    assert(layers@.map_values(|l: Vec<UnitShape>| l@) =~= network_shapes_spec(
        sample_feature_size as nat,
        layer_request_infos@,
    ));
    layers
}

/// Why a network cannot predict from a sample.
#[derive(Debug, Clone, Copy, PartialEq, Eq, Structural)]
pub enum SampleError {
    /// The network has no layer.
    NoLayer,
    /// The first layer has no unit, so the expected feature count is unknown.
    NoUnitInFirstLayer,
    /// The first unit of the first layer expects `expected` features and the
    /// sample holds `given`.
    FeatureSizeMismatch(usize, usize),
    /// Some unit of layer number `n` (counted from one) has more weights than
    /// the `inputs` its layer receives: `TooManyWeights(n, inputs)`.
    TooManyWeights(usize, usize),
    /// The last layer has no unit, so there is no output to return.
    NoOutput,
}

/// The number of inputs layer `k` receives in a forward pass from a sample
/// of `sample_len` values: the sample for the first layer, one output per
/// unit of the previous layer otherwise.
pub open spec fn inputs_of(layers: Seq<Seq<UnitShape>>, k: int, sample_len: nat) -> nat {
    if k == 0 {
        sample_len
    } else {
        layers[k - 1].len()
    }
}

/// No unit of `layer` has more weights than `inputs`.
pub open spec fn layer_fits(layer: Seq<UnitShape>, inputs: nat) -> bool {
    forall|u: int| 0 <= u < layer.len() ==> #[trigger] layer[u].weight_count <= inputs
}

/// The index of the first layer, from `k` on, that holds a unit with more
/// weights than the layer receives inputs.
pub open spec fn overfull_layer_from(layers: Seq<Seq<UnitShape>>, k: int, sample_len: nat) -> Option<
    int,
>
    decreases layers.len() - k,
{
    if k < 0 || k >= layers.len() {
        None
    } else if !layer_fits(layers[k], inputs_of(layers, k, sample_len)) {
        Some(k)
    } else {
        overfull_layer_from(layers, k + 1, sample_len)
    }
}

/// The outcome of the checks of a prediction from a sample of `sample_len`
/// values, in the order the forward pass meets them: a first layer with a
/// first unit whose weight count is the sample length, no unit with more
/// weights than its inputs, and a last layer with a unit to answer.
pub open spec fn check_sample_spec(layers: Seq<Seq<UnitShape>>, sample_len: nat) -> Result<
    (),
    SampleError,
> {
    if layers.len() == 0 {
        Err(SampleError::NoLayer)
    } else if layers[0].len() == 0 {
        Err(SampleError::NoUnitInFirstLayer)
    } else if layers[0][0].weight_count != sample_len {
        Err(SampleError::FeatureSizeMismatch(layers[0][0].weight_count, sample_len as usize))
    } else {
        match overfull_layer_from(layers, 0, sample_len) {
            Some(k) => Err(
                SampleError::TooManyWeights((k + 1) as usize, inputs_of(layers, k, sample_len) as usize),
            ),
            None => if layers.last().len() == 0 {
                Err(SampleError::NoOutput)
            } else {
                Ok(())
            },
        }
    }
}

/// The characters of `"Input sample feature size must be <expected> count !! Yours = <given>"`.
pub open spec fn feature_size_message(expected: nat, given: nat) -> Seq<char> {
    "Input sample feature size must be "@ + decimal_chars(expected) + " count !! Yours = "@
        + decimal_chars(given)
}

/// The characters of `"index out of bounds: the len is <len> but the index is <len>"`,
/// the panic of reading one element past the end of `len` values.
pub open spec fn index_out_of_bounds_message(len: nat) -> Seq<char> {
    "index out of bounds: the len is "@ + decimal_chars(len) + " but the index is "@
        + decimal_chars(len)
}

impl SampleError {
    /// The panic message of the error.
    pub open spec fn message_chars(self) -> Seq<char> {
        match self {
            SampleError::NoLayer => "index out of bounds: the len is 0 but the index is 0"@,
            SampleError::NoUnitInFirstLayer => "index out of bounds: the len is 0 but the index is 0"@,
            SampleError::FeatureSizeMismatch(expected, given) => feature_size_message(
                expected as nat,
                given as nat,
            ),
            SampleError::TooManyWeights(_, inputs) => index_out_of_bounds_message(inputs as nat),
            SampleError::NoOutput => "index out of bounds: the len is 0 but the index is 0"@,
        }
    }

    /// The panic message of the error.
    pub fn message(&self) -> (m: String)
        ensures
            m@ == self.message_chars(),
    {
        match self {
            SampleError::FeatureSizeMismatch(expected, given) => {
                let mut m = String::from_str("Input sample feature size must be ");
                let e = decimal(*expected);
                m.append(e.as_str());
                m.append(" count !! Yours = ");
                let g = decimal(*given);
                m.append(g.as_str());
                m
            },
            SampleError::TooManyWeights(_, inputs) => {
                let mut m = String::from_str("index out of bounds: the len is ");
                let len = decimal(*inputs);
                m.append(len.as_str());
                m.append(" but the index is ");
                m.append(len.as_str());
                m
            },
            _ => String::from_str("index out of bounds: the len is 0 but the index is 0"),
        }
    }
}

fn fits(layer: &Vec<UnitShape>, inputs: usize) -> (r: bool)
    ensures
        r == layer_fits(layer@, inputs as nat),
{
    let n = layer.len();
    let mut u: usize = 0;
    while u < n
        invariant
            n == layer@.len(),
            u <= n,
            forall|j: int| 0 <= j < u ==> #[trigger] layer@[j].weight_count <= inputs,
        decreases n - u,
    {
        if layer[u].weight_count > inputs {
            assert(layer@[u as int].weight_count > inputs);
            return false;
        }
        u = u + 1;
    }
    true
}

/// Checks that a network whose layers hold these units can predict from a
/// sample of `sample_len` values.
pub fn check_sample(layers: &Vec<Vec<UnitShape>>, sample_len: usize) -> (r: Result<(), SampleError>)
    ensures
        r == check_sample_spec(layers@.map_values(|l: Vec<UnitShape>| l@), sample_len as nat),
{
    let ghost shapes = layers@.map_values(|l: Vec<UnitShape>| l@);
    let layer_count = layers.len();
    if layer_count == 0 {
        return Err(SampleError::NoLayer);
    }
    assert(shapes[0] == layers@[0]@);
    if layers[0].len() == 0 {
        return Err(SampleError::NoUnitInFirstLayer);
    }
    let expected = layers[0][0].weight_count;
    if expected != sample_len {
        return Err(SampleError::FeatureSizeMismatch(expected, sample_len));
    }
    let mut k: usize = 0;
    while k < layer_count
        invariant
            layer_count == layers@.len(),
            shapes == layers@.map_values(|l: Vec<UnitShape>| l@),
            layer_count > 0,
            shapes[0].len() > 0,
            shapes[0][0].weight_count == sample_len,
            k <= layer_count,
            overfull_layer_from(shapes, 0, sample_len as nat) == overfull_layer_from(
                shapes,
                k as int,
                sample_len as nat,
            ),
        decreases layer_count - k,
    {
        let inputs = if k == 0 {
            sample_len
        } else {
            layers[k - 1].len()
        };
        assert(inputs == inputs_of(shapes, k as int, sample_len as nat));
        assert(shapes[k as int] == layers@[k as int]@);
        if !fits(&layers[k], inputs) {
            return Err(SampleError::TooManyWeights(k + 1, inputs));
        }
        k = k + 1;
    }
    assert(shapes.last() == layers@[layer_count - 1]@);
    if layers[layer_count - 1].len() == 0 {
        return Err(SampleError::NoOutput);
    }
    Ok(())
}

proof fn lemma_requested_layers_fit(
    sample_feature_size: nat,
    requests: Seq<LayerRequestInfo>,
    k: int,
)
    requires
        sample_feature_size <= usize::MAX,
        0 <= k,
    ensures
        overfull_layer_from(
            network_shapes_spec(sample_feature_size, requests),
            k,
            sample_feature_size,
        ) is None,
    decreases requests.len() - k,
{
    let layers = network_shapes_spec(sample_feature_size, requests);
    if k < layers.len() {
        lemma_requested_layers_fit(sample_feature_size, requests, k + 1);
        assert(layer_fits(layers[k], inputs_of(layers, k, sample_feature_size)));
    }
}

/// A network created from requests whose first and last layers hold units
/// predicts from exactly the samples of `sample_feature_size` values, and
/// refuses every other sample for its size.
pub proof fn lemma_created_network_accepts_exactly_its_feature_size(
    sample_feature_size: nat,
    requests: Seq<LayerRequestInfo>,
    sample_len: nat,
)
    requires
        sample_feature_size <= usize::MAX,
        sample_len <= usize::MAX,
        requests.len() > 0,
        requests[0].unit_count > 0,
        requests.last().unit_count > 0,
    ensures
        check_sample_spec(network_shapes_spec(sample_feature_size, requests), sample_len) == (
        if sample_len == sample_feature_size {
            Ok::<(), SampleError>(())
        } else {
            Err(SampleError::FeatureSizeMismatch(sample_feature_size as usize, sample_len as usize))
        }),
{
    let layers = network_shapes_spec(sample_feature_size, requests);
    assert(layers[0][0].weight_count == sample_feature_size);
    if sample_len == sample_feature_size {
        lemma_requested_layers_fit(sample_feature_size, requests, 0);
        assert(layers.last() == layers[layers.len() - 1]);
    }
}

/// A network created from requests whose first layer is empty cannot predict
/// from any sample.
pub proof fn lemma_created_network_with_empty_first_layer_cannot_predict(
    sample_feature_size: nat,
    requests: Seq<LayerRequestInfo>,
    sample_len: nat,
)
    requires
        requests.len() > 0,
        requests[0].unit_count == 0,
    ensures
        check_sample_spec(network_shapes_spec(sample_feature_size, requests), sample_len)
            == Err::<(), SampleError>(SampleError::NoUnitInFirstLayer),
{
}

/// Once the training data is validated against the layer requests, the
/// network created from them can predict from every training sample, as long
/// as its first layer holds a unit.
pub proof fn lemma_every_training_sample_can_be_predicted<T>(
    samples: Seq<Vec<T>>,
    y_len: int,
    requests: Seq<LayerRequestInfo>,
    i: int,
)
    requires
        validate_spec(samples, y_len, requests) is Ok,
        requests[0].unit_count > 0,
        0 <= i < samples.len(),
    ensures
        check_sample_spec(
            network_shapes_spec(validate_spec(samples, y_len, requests)->Ok_0.1 as nat, requests),
            samples[i].len() as nat,
        ) == Ok::<(), SampleError>(()),
{
    let feature_size = validate_spec(samples, y_len, requests)->Ok_0.1;
    assert(same_feature_counts(samples));
    lemma_created_network_accepts_exactly_its_feature_size(
        feature_size as nat,
        requests,
        samples[i].len() as nat,
    );
}

/// The units of a new network for this training data and these layer
/// requests: the creation fails exactly when the validation of the data
/// fails, with the same error, and otherwise gives the units `new` creates
/// for samples of the validated feature count.
pub fn new_network_shapes<T>(
    samples: &Vec<Vec<T>>,
    y: &Vec<T>,
    layer_request_infos: &Vec<LayerRequestInfo>,
) -> (r: Result<Vec<Vec<UnitShape>>, ValidateError>)
    ensures
        match validate_spec(samples@, y@.len() as int, layer_request_infos@) {
            Ok((_, feature_size)) => r is Ok && r->Ok_0@.map_values(|l: Vec<UnitShape>| l@)
                == network_shapes_spec(feature_size as nat, layer_request_infos@),
            Err(e) => r == Err::<Vec<Vec<UnitShape>>, ValidateError>(e),
        },
{
    match validate_network(samples, y, layer_request_infos) {
        Ok((_, sample_feature_size, _)) => Ok(
            network_layer_shapes(sample_feature_size, layer_request_infos),
        ),
        Err(e) => Err(e),
    }
}

/// The report of a layer of units: `"Unit_Count: <units>"`.
pub fn unit_layer_summary(units: &Vec<UnitShape>) -> (s: String)
    ensures
        s@ == "Unit_Count: "@ + decimal_chars(units@.len()),
{
    let mut s = String::from_str("Unit_Count: ");
    let count = decimal(units.len());
    s.append(count.as_str());
    s
}

/// Every layer a created network holds follows its own request: as many
/// units as requested, each with the requested activation and one weight per
/// input (per sample feature in the first layer, per unit requested for the
/// layer before otherwise).
pub proof fn lemma_network_units_follow_requests(
    sample_feature_size: nat,
    requests: Seq<LayerRequestInfo>,
)
    requires
        sample_feature_size <= usize::MAX,
    ensures
        network_shapes_spec(sample_feature_size, requests).len() == requests.len(),
        forall|i: int|
            0 <= i < requests.len() ==> (#[trigger] network_shapes_spec(
                sample_feature_size,
                requests,
            )[i]).len() == requests[i].unit_count,
        forall|i: int, u: int|
            0 <= i < requests.len() && 0 <= u < requests[i].unit_count ==> {
                &&& (#[trigger] network_shapes_spec(sample_feature_size, requests)[i][u]).activation
                    == requests[i].activation
                &&& network_shapes_spec(sample_feature_size, requests)[i][u].weight_count == if i
                    == 0 {
                    sample_feature_size as int
                } else {
                    requests[i - 1].unit_count as int
                }
            },
{
}

/// The shapes of a network that can predict from a sample of `sample_len`
/// values: it has a layer, its first layer has a first unit with one weight
/// per sample value, no unit has more weights than its layer receives inputs
/// (the sample for the first layer, one output per unit of the layer before
/// otherwise), and its last layer has a unit to answer with.
pub open spec fn can_predict(layers: Seq<Seq<UnitShape>>, sample_len: nat) -> bool {
    &&& layers.len() > 0
    &&& layers[0].len() > 0
    &&& layers[0][0].weight_count == sample_len
    &&& forall|k: int, u: int|
        0 <= k < layers.len() && 0 <= u < layers[k].len() ==> #[trigger] layers[k][u].weight_count
            <= if k == 0 {
            sample_len as int
        } else {
            layers[k - 1].len() as int
        }
    &&& layers[layers.len() - 1].len() > 0
}

proof fn lemma_overfull_layer_from_finds_a_layer(layers: Seq<Seq<UnitShape>>, k: int, sample_len: nat)
    requires
        k >= 0,
    ensures
        overfull_layer_from(layers, k, sample_len) is None <==> forall|j: int|
            k <= j < layers.len() ==> #[trigger] layer_fits(layers[j], inputs_of(layers, j, sample_len)),
    decreases layers.len() - k,
{
    if k < layers.len() {
        lemma_overfull_layer_from_finds_a_layer(layers, k + 1, sample_len);
    }
}

/// A network predicts from a sample exactly when its shapes allow it; a
/// refusal for too many weights reports the input count of the layer at
/// fault.
pub proof fn lemma_check_sample_accepts_exactly_predictable_networks(
    layers: Seq<Seq<UnitShape>>,
    sample_len: nat,
)
    requires
        layers.len() <= usize::MAX,
        sample_len <= usize::MAX,
        forall|k: int| 0 <= k < layers.len() ==> #[trigger] layers[k].len() <= usize::MAX,
    ensures
        check_sample_spec(layers, sample_len) is Ok <==> can_predict(layers, sample_len),
        check_sample_spec(layers, sample_len) matches Err(SampleError::TooManyWeights(n, inputs)) ==> (
        exists|u: int|
            0 <= u < layers[n - 1].len() && #[trigger] layers[n - 1][u].weight_count > inputs
                && inputs == if n == 1 {
                sample_len as int
            } else {
                layers[n - 2].len() as int
            }),
{
    lemma_overfull_layer_from_finds_a_layer(layers, 0, sample_len);
    if check_sample_spec(layers, sample_len) is Ok {
        assert forall|k: int, u: int|
            0 <= k < layers.len() && 0 <= u < layers[k].len() implies #[trigger] layers[k][u].weight_count
            <= if k == 0 {
            sample_len as int
        } else {
            layers[k - 1].len() as int
        } by {
            assert(layer_fits(layers[k], inputs_of(layers, k, sample_len)));
        }
    }
    if can_predict(layers, sample_len) {
        assert forall|j: int| 0 <= j < layers.len() implies #[trigger] layer_fits(
            layers[j],
            inputs_of(layers, j, sample_len),
        ) by {
            assert forall|u: int| 0 <= u < layers[j].len() implies #[trigger] layers[j][u].weight_count
                <= inputs_of(layers, j, sample_len) by {
                assert(layers[j][u].weight_count <= if j == 0 {
                    sample_len as int
                } else {
                    layers[j - 1].len() as int
                });
            }
        }
    }
    match check_sample_spec(layers, sample_len) {
        Err(SampleError::TooManyWeights(n, inputs)) => {
            assert(overfull_layer_from(layers, 0, sample_len) is Some);
            let k = overfull_layer_from(layers, 0, sample_len)->0;
            lemma_overfull_layer_from_is_a_bad_layer(layers, 0, sample_len);
            assert(!layer_fits(layers[k], inputs_of(layers, k, sample_len)));
            let u = choose|u: int|
                0 <= u < layers[k].len() && !(#[trigger] layers[k][u].weight_count <= inputs_of(
                    layers,
                    k,
                    sample_len,
                ));
            if k > 0 {
                assert(layers[k - 1].len() <= usize::MAX);
            }
            assert(n as int - 1 == k);
            assert(inputs == inputs_of(layers, k, sample_len));
            assert(layers[n - 1][u].weight_count > inputs);
        },
        _ => {},
    }
}

proof fn lemma_overfull_layer_from_is_a_bad_layer(layers: Seq<Seq<UnitShape>>, k: int, sample_len: nat)
    requires
        k >= 0,
    ensures
        overfull_layer_from(layers, k, sample_len) is Some ==> {
            let b = overfull_layer_from(layers, k, sample_len)->0;
            &&& k <= b < layers.len()
            &&& !layer_fits(layers[b], inputs_of(layers, b, sample_len))
        },
    decreases layers.len() - k,
{
    if k < layers.len() {
        lemma_overfull_layer_from_is_a_bad_layer(layers, k + 1, sample_len);
    }
}

} // verus!
