# neural_network

A small feed-forward neural network library, split in two:

- `src/` is the verified part. It holds everything about a network that is
  decided from whole numbers: the `Activation` enum and its parsing and
  printing, layer requests, the validation of a data set against the
  requested layers, the shapes of the weight matrices and units that models
  are built with, the checks every prediction and batch cost passes before
  any arithmetic, and the text reports.
- `app/` holds the `f64` side: the weight matrices (through `ndarray`), the
  units, the forward passes, the loss and the cost. The shape checks it
  makes before computing are calls into `src/`; of its own it only refuses
  sizes that would overflow a `usize`, and a loss for a `Linear` output layer.
