//! Architecture layer of a small feed-forward neural network library.
//!
//! This crate holds everything about a network that is decided from whole
//! numbers: which activation a layer uses, how a list of layer requests is
//! validated against a data set, what shape every weight matrix or unit gets,
//! which inputs a model accepts, and the text reports it prints.
pub mod text;
pub mod activation;
pub mod activation_function_type;
pub mod layer_request_infos;
pub mod validates;
pub mod layer;
pub mod sequential_model;
pub mod neural_network;
