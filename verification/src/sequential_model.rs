//! The shape logic of a sequential model: the matrices `new` builds, the
//! chain check of hand-built layers, which inputs and batches a model can run
//! on, and the model report.
use vstd::prelude::*;
use vstd::string::*;

use crate::layer::LayerShape;
use crate::layer_request_infos::LayerRequestInfo;
use crate::text::{decimal, decimal_chars};

verus! {

/// Why a stack of layer matrices cannot be used the way it is asked to.
#[derive(Debug, Clone, Copy, PartialEq, Eq, Structural)]
pub enum ShapeError {
    /// A stack of layers to build a model from holds no layer.
    NoLayer,
    /// A prediction is asked of a model that has no layer.
    EmptyModel,
    /// The first matrix does not have one row per sample feature plus the bias row.
    FirstLayerRowMismatch,
    /// The input does not hold one value per row of the first matrix but the bias row.
    FeatureCountMismatch,
    /// Layer number `n` (counted from one) does not have as many rows as the
    /// layer before it has columns.
    RowColumnMismatch(usize),
    /// Layer number `n` (counted from one) has no column, not even the bias one.
    NoColumn(usize),
    /// A batch holds no sample, so its mean loss is not defined.
    EmptyBatch,
    /// A batch is not given exactly one output per sample.
    OutputCountMismatch,
}

/// The characters of `n` in `"Layer_<n> row size and its previous column size mismatch"`.
pub open spec fn row_column_message(n: nat) -> Seq<char> {
    "Layer_"@ + decimal_chars(n) + " row size and its previous column size mismatch"@
}

impl ShapeError {
    /// The panic message of the error.
    pub open spec fn message_chars(self) -> Seq<char> {
        match self {
            ShapeError::NoLayer => "A model must have at least one layer!!"@,
            ShapeError::EmptyModel => "index out of bounds: the len is 0 but the index is 0"@,
            ShapeError::FirstLayerRowMismatch => "first layer row count mismatch"@,
            ShapeError::FeatureCountMismatch => "Input array's feature count not correct!!"@,
            ShapeError::RowColumnMismatch(n) => row_column_message(n as nat),
            ShapeError::NoColumn(n) => "attempt to subtract with overflow"@,
            ShapeError::EmptyBatch => "A batch must hold at least one sample!!"@,
            ShapeError::OutputCountMismatch => "A batch must have exactly one output per sample!!"@,
        }
    }

    /// The panic message of the error.
    pub fn message(&self) -> (m: String)
        ensures
            m@ == self.message_chars(),
    {
        match self {
            ShapeError::NoLayer => String::from_str("A model must have at least one layer!!"),
            ShapeError::EmptyModel => String::from_str(
                "index out of bounds: the len is 0 but the index is 0",
            ),
            ShapeError::FirstLayerRowMismatch => String::from_str("first layer row count mismatch"),
            ShapeError::FeatureCountMismatch => String::from_str(
                "Input array's feature count not correct!!",
            ),
            ShapeError::RowColumnMismatch(n) => {
                let mut m = String::from_str("Layer_");
                let number = decimal(*n);
                m.append(number.as_str());
                m.append(" row size and its previous column size mismatch");
                m
            },
            ShapeError::NoColumn(_) => String::from_str("attempt to subtract with overflow"),
            ShapeError::EmptyBatch => String::from_str("A batch must hold at least one sample!!"),
            ShapeError::OutputCountMismatch => String::from_str(
                "A batch must have exactly one output per sample!!",
            ),
        }
    }
}

/// The shape `new` gives to layer `i`: one row per input of the layer (the
/// sample features for the first layer, the units of the previous layer
/// otherwise) plus the bias row, and one column per unit plus the bias column.
pub open spec fn requested_shape(
    sample_feature_size: nat,
    requests: Seq<LayerRequestInfo>,
    i: int,
) -> LayerShape {
    LayerShape {
        rows: if i == 0 {
            (sample_feature_size + 1) as usize
        } else {
            (requests[i - 1].unit_count + 1) as usize
        },
        cols: (requests[i].unit_count + 1) as usize,
        activation: requests[i].activation,
    }
}

/// The layer shapes of a freshly built model: one per request, in order.
pub open spec fn sequential_shapes_spec(
    sample_feature_size: nat,
    requests: Seq<LayerRequestInfo>,
) -> Seq<LayerShape> {
    Seq::new(requests.len(), |i: int| requested_shape(sample_feature_size, requests, i))
}

/// Every unit count leaves room for the bias column.
pub open spec fn unit_counts_fit(requests: Seq<LayerRequestInfo>) -> bool {
    forall|i: int| 0 <= i < requests.len() ==> #[trigger] requests[i].unit_count < usize::MAX
}

/// The layer shapes of a freshly built model, one per request, in request order.
pub fn sequential_layer_shapes(
    sample_feature_size: usize,
    layer_request_infos: &Vec<LayerRequestInfo>,
) -> (r: Vec<LayerShape>)
    requires
        sample_feature_size < usize::MAX,
        unit_counts_fit(layer_request_infos@),
    ensures
        r@ == sequential_shapes_spec(sample_feature_size as nat, layer_request_infos@),
        r@.len() == layer_request_infos@.len(),
        forall|i: int|
            0 <= i < r@.len() ==> {
                &&& (#[trigger] r@[i]).activation == layer_request_infos@[i].activation
                &&& r@[i].cols == layer_request_infos@[i].unit_count + 1
                &&& r@[i].rows == if i == 0 {
                    sample_feature_size + 1int
                } else {
                    layer_request_infos@[i - 1].unit_count + 1
                }
            },
{
    proof {
        lemma_new_shapes_follow_requests(sample_feature_size as nat, layer_request_infos@);
    }
    let layer_count = layer_request_infos.len();
    let mut layers: Vec<LayerShape> = Vec::new();
    let mut column_size: usize = sample_feature_size + 1;
    let mut i: usize = 0;
    while i < layer_count
        invariant
            layer_count == layer_request_infos@.len(),
            sample_feature_size < usize::MAX,
            unit_counts_fit(layer_request_infos@),
            i <= layer_count,
            layers@.len() == i,
            column_size == (if i == 0 {
                sample_feature_size + 1
            } else {
                layer_request_infos@[i - 1].unit_count + 1
            }),
            forall|j: int|
                0 <= j < i ==> #[trigger] layers@[j] == requested_shape(
                    sample_feature_size as nat,
                    layer_request_infos@,
                    j,
                ),
        decreases layer_count - i,
    {
        let request = layer_request_infos[i];
        assert(layer_request_infos@[i as int].unit_count < usize::MAX);
        layers.push(
            LayerShape {
                rows: column_size,
                cols: request.unit_count + 1,
                activation: request.activation,
            },
        );
        column_size = request.unit_count + 1;
        i = i + 1;
    }
    assert(layers@ =~= sequential_shapes_spec(sample_feature_size as nat, layer_request_infos@));
    layers
}

/// The index of the first layer, from `k` on, that does not have as many
/// rows as the previous layer has columns.
pub open spec fn chain_break_from(layers: Seq<LayerShape>, k: int) -> Option<int>
    decreases layers.len() - k,
{
    if k < 1 || k >= layers.len() {
        None
    } else if layers[k].rows != layers[k - 1].cols {
        Some(k)
    } else {
        chain_break_from(layers, k + 1)
    }
}

/// The outcome of checking hand-built layers against the sample feature
/// count: at least one layer, a first matrix of `sample_feature_size + 1`
/// rows, and every later matrix with as many rows as the previous one has
/// columns; the first broken link is the one reported.
pub open spec fn validate_layers_spec(
    layers: Seq<LayerShape>,
    sample_feature_size: nat,
) -> Result<(), ShapeError> {
    if layers.len() == 0 {
        Err(ShapeError::NoLayer)
    } else if layers[0].rows != sample_feature_size + 1 {
        Err(ShapeError::FirstLayerRowMismatch)
    } else {
        match chain_break_from(layers, 1) {
            Some(k) => Err(ShapeError::RowColumnMismatch((k + 1) as usize)),
            None => Ok(()),
        }
    }
}

/// Checks that the matrices of hand-built layers can be multiplied one after
/// the other, starting from a sample of `sample_feature_size` features.
pub fn validate_layers(layers: &Vec<LayerShape>, sample_feature_size: usize) -> (r: Result<
    (),
    ShapeError,
>)
    ensures
        r == validate_layers_spec(layers@, sample_feature_size as nat),
        r is Ok <==> layers_chain(layers@, sample_feature_size as nat),
        r matches Err(ShapeError::RowColumnMismatch(n)) ==> first_broken_link(
            layers@,
            sample_feature_size as nat,
            n as int - 1,
        ),
{
    let layer_count = layers.len();
    proof {
        lemma_validate_layers_checks_every_link(layers@, sample_feature_size as nat);
    }
    if layer_count == 0 {
        return Err(ShapeError::NoLayer);
    }
    if layers[0].rows == 0 || layers[0].rows - 1 != sample_feature_size {
        return Err(ShapeError::FirstLayerRowMismatch);
    }
    let mut k: usize = 1;
    while k < layer_count
        invariant
            layer_count == layers@.len(),
            1 <= k <= layer_count,
            layers@[0].rows == sample_feature_size + 1,
            chain_break_from(layers@, 1) == chain_break_from(layers@, k as int),
        decreases layer_count - k,
    {
        if layers[k].rows != layers[k - 1].cols {
            proof {
                lemma_validate_layers_checks_every_link(layers@, sample_feature_size as nat);
            }
            return Err(ShapeError::RowColumnMismatch(k + 1));
        }
        k = k + 1;
    }
    Ok(())
}

/// The first reason, from layer index `k` on, why a forward pass stops: a
/// matrix that does not have as many rows as the previous one has columns,
/// or a matrix without any column (its bias column cannot be set).
pub open spec fn forward_break_from(layers: Seq<LayerShape>, k: int) -> Option<ShapeError>
    decreases layers.len() - k,
{
    if k < 0 || k >= layers.len() {
        None
    } else if k > 0 && layers[k].rows != layers[k - 1].cols {
        Some(ShapeError::RowColumnMismatch((k + 1) as usize))
    } else if layers[k].cols == 0 {
        Some(ShapeError::NoColumn((k + 1) as usize))
    } else {
        forward_break_from(layers, k + 1)
    }
}

/// The outcome of the checks `predict` makes before any arithmetic, for an
/// input of `feature_size` values: the model has a layer, the first matrix
/// has one row per feature plus the bias row, and the forward pass runs
/// through every layer.
pub open spec fn check_input_spec(layers: Seq<LayerShape>, feature_size: nat) -> Result<
    (),
    ShapeError,
> {
    if layers.len() == 0 {
        Err(ShapeError::EmptyModel)
    } else if feature_size + 1 != layers[0].rows {
        Err(ShapeError::FeatureCountMismatch)
    } else {
        match forward_break_from(layers, 0) {
            Some(e) => Err(e),
            None => Ok(()),
        }
    }
}

fn forward_check(layers: &Vec<LayerShape>) -> (r: Result<(), ShapeError>)
    ensures
        r == (match forward_break_from(layers@, 0) {
            Some(e) => Err(e),
            None => Ok::<(), ShapeError>(()),
        }),
{
    let layer_count = layers.len();
    let mut k: usize = 0;
    while k < layer_count
        invariant
            layer_count == layers@.len(),
            k <= layer_count,
            forward_break_from(layers@, 0) == forward_break_from(layers@, k as int),
        decreases layer_count - k,
    {
        if k > 0 && layers[k].rows != layers[k - 1].cols {
            return Err(ShapeError::RowColumnMismatch(k + 1));
        }
        if layers[k].cols == 0 {
            return Err(ShapeError::NoColumn(k + 1));
        }
        k = k + 1;
    }
    Ok(())
}

/// Checks that a model of these layers can predict from an input of
/// `feature_size` values.
pub fn check_input(layers: &Vec<LayerShape>, feature_size: usize) -> (r: Result<(), ShapeError>)
    ensures
        r == check_input_spec(layers@, feature_size as nat),
        r is Ok <==> {
            &&& layers_chain(layers@, feature_size as nat)
            &&& forall|k: int| 0 <= k < layers@.len() ==> #[trigger] layers@[k].cols > 0
        },
{
    proof {
        lemma_check_input_runs_every_layer(layers@, feature_size as nat);
    }
    if layers.len() == 0 {
        return Err(ShapeError::EmptyModel);
    }
    if layers[0].rows == 0 || layers[0].rows - 1 != feature_size {
        return Err(ShapeError::FeatureCountMismatch);
    }
    forward_check(layers)
}

/// The outcome of the checks `cost` makes before any arithmetic, for a batch
/// of `sample_count` samples of `feature_count` features and `output_count`
/// expected outputs: the layers chain from `feature_count` features as
/// `validate_layers` demands, every matrix has a column, the batch holds at
/// least one sample, and there is exactly one output per sample.
pub open spec fn check_batch_spec(
    layers: Seq<LayerShape>,
    feature_count: nat,
    sample_count: nat,
    output_count: nat,
) -> Result<(), ShapeError> {
    match validate_layers_spec(layers, feature_count) {
        Err(e) => Err(e),
        Ok(_) => match forward_break_from(layers, 0) {
            Some(e) => Err(e),
            None => if sample_count == 0 {
                Err(ShapeError::EmptyBatch)
            } else if output_count != sample_count {
                Err(ShapeError::OutputCountMismatch)
            } else {
                Ok(())
            },
        },
    }
}

/// Checks that a model of these layers can score a batch of `sample_count`
/// samples of `feature_count` features against `output_count` outputs.
pub fn check_batch(
    layers: &Vec<LayerShape>,
    feature_count: usize,
    sample_count: usize,
    output_count: usize,
) -> (r: Result<(), ShapeError>)
    ensures
        r == check_batch_spec(layers@, feature_count as nat, sample_count as nat, output_count as nat),
{
    match validate_layers(layers, feature_count) {
        Err(e) => Err(e),
        Ok(_) => match forward_check(layers) {
            Err(e) => Err(e),
            Ok(_) => if sample_count == 0 {
                Err(ShapeError::EmptyBatch)
            } else if output_count != sample_count {
                Err(ShapeError::OutputCountMismatch)
            } else {
                Ok(())
            },
        },
    }
}

/// The report line of layer index `i`.
pub open spec fn summary_line(layers: Seq<LayerShape>, i: int) -> Seq<char> {
    "Layer_"@ + decimal_chars((i + 1) as nat) + ": Matrix shape = "@ + decimal_chars(
        layers[i].rows as nat,
    ) + "x"@ + decimal_chars(layers[i].cols as nat) + ", activation_func = "@
        + layers[i].activation.name() + "\n"@
}

/// The report lines of the first `k` layers, in order.
pub open spec fn summary_lines(layers: Seq<LayerShape>, k: int) -> Seq<char>
    decreases k,
{
    if k <= 0 {
        Seq::empty()
    } else {
        summary_lines(layers, k - 1) + summary_line(layers, k - 1)
    }
}

/// The model report: a header with the layer count, then one line per layer
/// with its number (from one), its matrix shape and its activation.
pub open spec fn summary_chars(layers: Seq<LayerShape>) -> Seq<char> {
    "Layer_Count: "@ + decimal_chars(layers.len()) + "\n"@ + summary_lines(
        layers,
        layers.len() as int,
    )
}

fn summary_line_text(layers: &Vec<LayerShape>, i: usize) -> (s: String)
    requires
        i < layers@.len(),
    ensures
        s@ == summary_line(layers@, i as int),
{
    let layer_count = layers.len();
    proof {
        assert(i + 1 <= layer_count);
    }
    let layer = layers[i];
    let mut s = String::from_str("Layer_");
    let number = decimal(i + 1);
    s.append(number.as_str());
    s.append(": Matrix shape = ");
    let rows = decimal(layer.rows);
    s.append(rows.as_str());
    s.append("x");
    let cols = decimal(layer.cols);
    s.append(cols.as_str());
    s.append(", activation_func = ");
    let name = layer.activation.to_string();
    s.append(name.as_str());
    s.append("\n");
    s
}

/// `"Layer_Count: <n>\n"` followed by
/// `"Layer_<i>: Matrix shape = <rows>x<cols>, activation_func = <activation>\n"`
/// for every layer.
pub fn summary(layers: &Vec<LayerShape>) -> (s: String)
    ensures
        s@ == summary_chars(layers@),
{
    let layer_count = layers.len();
    let mut s = String::from_str("Layer_Count: ");
    let count = decimal(layer_count);
    s.append(count.as_str());
    s.append("\n");
    let ghost header = s@;
    let mut i: usize = 0;
    while i < layer_count
        invariant
            layer_count == layers@.len(),
            i <= layer_count,
            header == "Layer_Count: "@ + decimal_chars(layers@.len()) + "\n"@,
            s@ == header + summary_lines(layers@, i as int),
        decreases layer_count - i,
    {
        let line = summary_line_text(layers, i);
        s.append(line.as_str());
        assert(s@ =~= header + summary_lines(layers@, (i + 1) as int));
        i = i + 1;
    }
    s
}

proof fn lemma_requested_shapes_chain(
    sample_feature_size: nat,
    requests: Seq<LayerRequestInfo>,
    k: int,
)
    requires
        sample_feature_size < usize::MAX,
        unit_counts_fit(requests),
        0 <= k,
    ensures
        chain_break_from(sequential_shapes_spec(sample_feature_size, requests), k) is None,
        forward_break_from(sequential_shapes_spec(sample_feature_size, requests), k) is None,
    decreases requests.len() - k,
{
    let layers = sequential_shapes_spec(sample_feature_size, requests);
    if k < layers.len() {
        lemma_requested_shapes_chain(sample_feature_size, requests, k + 1);
        assert(requests[k].unit_count < usize::MAX);
        if k > 0 {
            assert(requests[k - 1].unit_count < usize::MAX);
        }
    }
}

/// The matrices that `new` builds always pass the chain check of hand-built
/// layers: a model made by `new` from at least one request is well formed.
pub proof fn lemma_new_shapes_are_valid(sample_feature_size: nat, requests: Seq<LayerRequestInfo>)
    requires
        sample_feature_size < usize::MAX,
        unit_counts_fit(requests),
        requests.len() > 0,
    ensures
        validate_layers_spec(sequential_shapes_spec(sample_feature_size, requests), sample_feature_size)
            == Ok::<(), ShapeError>(()),
{
    lemma_requested_shapes_chain(sample_feature_size, requests, 1);
}

/// A model made by `new` from at least one request predicts from exactly the
/// inputs that hold `sample_feature_size` values, and refuses every other
/// input for its feature count.
pub proof fn lemma_new_model_accepts_exactly_its_feature_count(
    sample_feature_size: nat,
    requests: Seq<LayerRequestInfo>,
    feature_size: nat,
)
    requires
        sample_feature_size < usize::MAX,
        unit_counts_fit(requests),
        requests.len() > 0,
    ensures
        check_input_spec(sequential_shapes_spec(sample_feature_size, requests), feature_size) == (
        if feature_size == sample_feature_size {
            Ok::<(), ShapeError>(())
        } else {
            Err(ShapeError::FeatureCountMismatch)
        }),
{
    lemma_requested_shapes_chain(sample_feature_size, requests, 0);
}

proof fn lemma_chain_break_stops_the_forward_pass(layers: Seq<LayerShape>, k: int)
    requires
        k >= 1,
    ensures
        chain_break_from(layers, k) is Some ==> forward_break_from(layers, k) is Some,
    decreases layers.len() - k,
{
    if k < layers.len() {
        lemma_chain_break_stops_the_forward_pass(layers, k + 1);
    }
}

/// A batch is accepted exactly when every one of its samples could be
/// predicted on its own, it holds at least one sample, and it has exactly one
/// expected output per sample.
pub proof fn lemma_batch_accepted_iff_rows_predictable(
    layers: Seq<LayerShape>,
    feature_count: nat,
    sample_count: nat,
    output_count: nat,
)
    ensures
        check_batch_spec(layers, feature_count, sample_count, output_count) is Ok <==> (
        check_input_spec(layers, feature_count) is Ok && sample_count > 0 && output_count
            == sample_count),
{
    lemma_chain_break_stops_the_forward_pass(layers, 1);
    if layers.len() > 0 {
        assert(forward_break_from(layers, 0) == (if layers[0].cols == 0 {
            Some(ShapeError::NoColumn(1))
        } else {
            forward_break_from(layers, 1)
        }));
    }
}

/// The number of line breaks in a text.
pub open spec fn newline_count(s: Seq<char>) -> nat
    decreases s.len(),
{
    if s.len() == 0 {
        0
    } else {
        newline_count(s.drop_last()) + if s.last() == '\n' {
            1nat
        } else {
            0nat
        }
    }
}

proof fn lemma_newline_count_add(a: Seq<char>, b: Seq<char>)
    ensures
        newline_count(a + b) == newline_count(a) + newline_count(b),
    decreases b.len(),
{
    if b.len() == 0 {
        assert(a + b =~= a);
    } else {
        assert((a + b).drop_last() =~= a + b.drop_last());
        lemma_newline_count_add(a, b.drop_last());
    }
}

proof fn lemma_newline_free(s: Seq<char>)
    requires
        forall|i: int| 0 <= i < s.len() ==> s[i] != '\n',
    ensures
        newline_count(s) == 0,
    decreases s.len(),
{
    if s.len() > 0 {
        lemma_newline_free(s.drop_last());
    }
}

proof fn lemma_decimal_newline_free(n: nat)
    ensures
        newline_count(decimal_chars(n)) == 0,
    decreases n,
{
    if n >= 10 {
        lemma_decimal_newline_free(n / 10);
        lemma_newline_count_add(decimal_chars(n / 10), seq![crate::text::digit_char(n % 10)]);
        lemma_newline_free(seq![crate::text::digit_char(n % 10)]);
    } else {
        lemma_newline_free(decimal_chars(n));
    }
}

proof fn lemma_summary_line_is_one_line(layers: Seq<LayerShape>, i: int)
    ensures
        newline_count(summary_line(layers, i)) == 1,
{
    reveal_strlit("Layer_");
    reveal_strlit(": Matrix shape = ");
    reveal_strlit("x");
    reveal_strlit(", activation_func = ");
    reveal_strlit("\n");
    let a = "Layer_"@;
    let b = decimal_chars((i + 1) as nat);
    let c = ": Matrix shape = "@;
    let d = decimal_chars(layers[i].rows as nat);
    let e = "x"@;
    let f = decimal_chars(layers[i].cols as nat);
    let g = ", activation_func = "@;
    let h = layers[i].activation.name();
    let nl = "\n"@;
    lemma_newline_free(a);
    lemma_decimal_newline_free((i + 1) as nat);
    lemma_newline_free(c);
    lemma_decimal_newline_free(layers[i].rows as nat);
    lemma_newline_free(e);
    lemma_decimal_newline_free(layers[i].cols as nat);
    lemma_newline_free(g);
    lemma_newline_free(h);
    assert(newline_count(nl) == 1) by {
        assert(nl.len() == 1 && nl[0] == '\n');
        assert(nl.drop_last() =~= Seq::<char>::empty());
        reveal_with_fuel(newline_count, 2);
    }
    lemma_newline_count_add(a, b);
    lemma_newline_count_add(a + b, c);
    lemma_newline_count_add(a + b + c, d);
    lemma_newline_count_add(a + b + c + d, e);
    lemma_newline_count_add(a + b + c + d + e, f);
    lemma_newline_count_add(a + b + c + d + e + f, g);
    lemma_newline_count_add(a + b + c + d + e + f + g, h);
    lemma_newline_count_add(a + b + c + d + e + f + g + h, nl);
}

proof fn lemma_summary_lines_count(layers: Seq<LayerShape>, k: int)
    requires
        k >= 0,
    ensures
        newline_count(summary_lines(layers, k)) == k,
    decreases k,
{
    if k > 0 {
        lemma_summary_lines_count(layers, k - 1);
        lemma_summary_line_is_one_line(layers, k - 1);
        lemma_newline_count_add(summary_lines(layers, k - 1), summary_line(layers, k - 1));
    } else {
        lemma_newline_free(summary_lines(layers, k));
    }
}

/// The model report holds one line for the header and one line per layer,
/// each ended by a line break.
pub proof fn lemma_summary_has_a_line_per_layer(layers: Seq<LayerShape>)
    ensures
        newline_count(summary_chars(layers)) == layers.len() + 1,
{
    lemma_header_is_one_line(layers.len());
    lemma_summary_lines_count(layers, layers.len() as int);
    lemma_newline_count_add(
        "Layer_Count: "@ + decimal_chars(layers.len()) + "\n"@,
        summary_lines(layers, layers.len() as int),
    );
}

proof fn lemma_header_is_one_line(n: nat)
    ensures
        newline_count("Layer_Count: "@ + decimal_chars(n) + "\n"@) == 1,
{
    reveal_strlit("Layer_Count: ");
    reveal_strlit("\n");
    let a = "Layer_Count: "@;
    let b = decimal_chars(n);
    let nl = "\n"@;
    lemma_newline_free(a);
    lemma_decimal_newline_free(n);
    assert(newline_count(nl) == 1) by {
        assert(nl.len() == 1 && nl[0] == '\n');
        assert(nl.drop_last() =~= Seq::<char>::empty());
        reveal_with_fuel(newline_count, 2);
    }
    lemma_newline_count_add(a, b);
    lemma_newline_count_add(a + b, nl);
}

/// The report lines of the layers from index `a` up to (not including) `k`.
pub open spec fn summary_lines_between(layers: Seq<LayerShape>, a: int, k: int) -> Seq<char>
    decreases k - a,
{
    if k <= a {
        Seq::empty()
    } else {
        summary_lines_between(layers, a, k - 1) + summary_line(layers, k - 1)
    }
}

proof fn lemma_summary_lines_split(layers: Seq<LayerShape>, a: int, k: int)
    requires
        0 <= a <= k,
    ensures
        summary_lines(layers, k) == summary_lines(layers, a) + summary_lines_between(layers, a, k),
    decreases k - a,
{
    if k == a {
        assert(summary_lines(layers, a) + summary_lines_between(layers, a, k) =~= summary_lines(
            layers,
            a,
        ));
    } else {
        lemma_summary_lines_split(layers, a, k - 1);
        assert(summary_lines(layers, k) =~= summary_lines(layers, a) + summary_lines_between(
            layers,
            a,
            k,
        ));
    }
}

/// The model report opens with the layer count on a line of its own, and
/// its line number `i + 2` (after the header and the lines of the layers
/// before) reports layer index `i`: its number counted from one, the rows
/// and columns of its own matrix, and its own activation.
pub proof fn lemma_summary_reports_every_layer(layers: Seq<LayerShape>, i: int)
    requires
        0 <= i < layers.len(),
    ensures
        exists|after: Seq<char>|
            #[trigger] ("Layer_Count: "@ + decimal_chars(layers.len()) + "\n"@ + after)
                == summary_chars(layers),
        exists|before: Seq<char>, after: Seq<char>|
            newline_count(before) == i + 1 && #[trigger] (before + ("Layer_"@ + decimal_chars(
                (i + 1) as nat,
            ) + ": Matrix shape = "@ + decimal_chars(layers[i].rows as nat) + "x"@
                + decimal_chars(layers[i].cols as nat) + ", activation_func = "@
                + layers[i].activation.name() + "\n"@) + after) == summary_chars(layers),
{
    let header = "Layer_Count: "@ + decimal_chars(layers.len()) + "\n"@;
    let line = "Layer_"@ + decimal_chars((i + 1) as nat) + ": Matrix shape = "@ + decimal_chars(
        layers[i].rows as nat,
    ) + "x"@ + decimal_chars(layers[i].cols as nat) + ", activation_func = "@
        + layers[i].activation.name() + "\n"@;
    let all = summary_lines(layers, layers.len() as int);
    assert(header + all == summary_chars(layers));
    lemma_summary_lines_split(layers, i + 1, layers.len() as int);
    let before = header + summary_lines(layers, i);
    let after = summary_lines_between(layers, i + 1, layers.len() as int);
    assert(line == summary_line(layers, i));
    assert(summary_lines(layers, i + 1) == summary_lines(layers, i) + line);
    assert(before + line + after =~= summary_chars(layers));
    lemma_header_is_one_line(layers.len());
    lemma_summary_lines_count(layers, i);
    lemma_newline_count_add(header, summary_lines(layers, i));
    assert(newline_count(before) == i + 1);
}

/// Every layer a model built by `new` holds follows its own request: the
/// requested activation, one column per requested unit plus the bias column,
/// and one row per input (the sample features for the first layer, the units
/// requested for the layer before otherwise) plus the bias row.
pub proof fn lemma_new_shapes_follow_requests(sample_feature_size: nat, requests: Seq<LayerRequestInfo>)
    requires
        sample_feature_size < usize::MAX,
        unit_counts_fit(requests),
    ensures
        sequential_shapes_spec(sample_feature_size, requests).len() == requests.len(),
        forall|i: int|
            0 <= i < requests.len() ==> {
                &&& (#[trigger] sequential_shapes_spec(sample_feature_size, requests)[i]).activation
                    == requests[i].activation
                &&& sequential_shapes_spec(sample_feature_size, requests)[i].cols
                    == requests[i].unit_count + 1
                &&& sequential_shapes_spec(sample_feature_size, requests)[i].rows == if i == 0 {
                    sample_feature_size + 1int
                } else {
                    requests[i - 1].unit_count + 1
                }
            },
{
    assert forall|i: int| 0 <= i < requests.len() implies {
        &&& (#[trigger] sequential_shapes_spec(sample_feature_size, requests)[i]).activation
            == requests[i].activation
        &&& sequential_shapes_spec(sample_feature_size, requests)[i].cols == requests[i].unit_count
            + 1
        &&& sequential_shapes_spec(sample_feature_size, requests)[i].rows == if i == 0 {
            sample_feature_size + 1int
        } else {
            requests[i - 1].unit_count + 1
        }
    } by {
        assert(requests[i].unit_count < usize::MAX);
        if i > 0 {
            assert(requests[i - 1].unit_count < usize::MAX);
        }
    }
}

/// The layers chain from samples of `sample_feature_size` features: there is
/// a layer, the first matrix has one row per feature plus the bias row, and
/// every later matrix has as many rows as the one before has columns.
pub open spec fn layers_chain(layers: Seq<LayerShape>, sample_feature_size: nat) -> bool {
    &&& layers.len() > 0
    &&& layers[0].rows == sample_feature_size + 1
    &&& forall|k: int| 1 <= k < layers.len() ==> #[trigger] layers[k].rows == layers[k - 1].cols
}

/// Layer index `k` holds the first broken link of a stack whose first matrix
/// fits the samples: it does not have as many rows as the layer before has
/// columns, and every link before it holds.
pub open spec fn first_broken_link(layers: Seq<LayerShape>, sample_feature_size: nat, k: int) -> bool {
    &&& 1 <= k < layers.len()
    &&& layers[0].rows == sample_feature_size + 1
    &&& layers[k].rows != layers[k - 1].cols
    &&& forall|j: int| 1 <= j < k ==> #[trigger] layers[j].rows == layers[j - 1].cols
}

proof fn lemma_chain_break_from_finds_the_first_break(layers: Seq<LayerShape>, k: int)
    requires
        k >= 1,
    ensures
        chain_break_from(layers, k) is None <==> forall|j: int|
            k <= j < layers.len() ==> #[trigger] layers[j].rows == layers[j - 1].cols,
        chain_break_from(layers, k) is Some ==> {
            let b = chain_break_from(layers, k)->0;
            &&& k <= b < layers.len()
            &&& layers[b].rows != layers[b - 1].cols
            &&& forall|j: int| k <= j < b ==> #[trigger] layers[j].rows == layers[j - 1].cols
        },
    decreases layers.len() - k,
{
    if k < layers.len() {
        lemma_chain_break_from_finds_the_first_break(layers, k + 1);
    }
}

/// The chain check of hand-built layers accepts exactly the stacks that
/// chain, and a refusal for a broken link names the first link that breaks
/// (its layer number, counted from one).
pub proof fn lemma_validate_layers_checks_every_link(
    layers: Seq<LayerShape>,
    sample_feature_size: nat,
)
    requires
        layers.len() <= usize::MAX,
    ensures
        validate_layers_spec(layers, sample_feature_size) is Ok <==> layers_chain(
            layers,
            sample_feature_size,
        ),
        validate_layers_spec(layers, sample_feature_size) matches Err(
            ShapeError::RowColumnMismatch(n),
        ) ==> first_broken_link(layers, sample_feature_size, n as int - 1),
{
    lemma_chain_break_from_finds_the_first_break(layers, 1);
    if validate_layers_spec(layers, sample_feature_size) is Err && chain_break_from(layers, 1) is Some {
        let b = chain_break_from(layers, 1)->0;
        assert((b + 1) as usize as int - 1 == b);
    }
}

/// Layer index `j` takes the output of the layer before it (if any) and
/// hands on at least its bias column.
pub open spec fn layer_runs(layers: Seq<LayerShape>, j: int) -> bool {
    &&& (j > 0 ==> layers[j].rows == layers[j - 1].cols)
    &&& layers[j].cols > 0
}

proof fn lemma_forward_break_from_finds_the_first_stop(layers: Seq<LayerShape>, k: int)
    requires
        k >= 0,
    ensures
        forward_break_from(layers, k) is None <==> forall|j: int|
            k <= j < layers.len() ==> #[trigger] layer_runs(layers, j),
    decreases layers.len() - k,
{
    if k < layers.len() {
        lemma_forward_break_from_finds_the_first_stop(layers, k + 1);
        if forall|j: int| k <= j < layers.len() ==> #[trigger] layer_runs(layers, j) {
            assert(layer_runs(layers, k));
        }
        if forward_break_from(layers, k) is None {
            assert forall|j: int| k <= j < layers.len() implies #[trigger] layer_runs(layers, j) by {
                if j > k {
                    assert(layer_runs(layers, j));
                }
            }
        }
    }
}

/// A model predicts from an input of `feature_size` values exactly when its
/// layers chain from `feature_size` features and every matrix has a column.
pub proof fn lemma_check_input_runs_every_layer(layers: Seq<LayerShape>, feature_size: nat)
    ensures
        check_input_spec(layers, feature_size) is Ok <==> {
            &&& layers_chain(layers, feature_size)
            &&& forall|k: int| 0 <= k < layers.len() ==> #[trigger] layers[k].cols > 0
        },
{
    lemma_forward_break_from_finds_the_first_stop(layers, 0);
    if check_input_spec(layers, feature_size) is Ok {
        assert forall|k: int| 1 <= k < layers.len() implies #[trigger] layers[k].rows == layers[k
            - 1].cols by {
            assert(layer_runs(layers, k));
        }
        assert forall|k: int| 0 <= k < layers.len() implies #[trigger] layers[k].cols > 0 by {
            assert(layer_runs(layers, k));
        }
    }
    if layers_chain(layers, feature_size) && forall|k: int|
        0 <= k < layers.len() ==> #[trigger] layers[k].cols > 0 {
        assert forall|j: int| 0 <= j < layers.len() implies #[trigger] layer_runs(layers, j) by {
            assert(layers[j].cols > 0);
            if j > 0 {
                assert(layers[j].rows == layers[j - 1].cols);
            }
        }
    }
}

} // verus!
