//! Taking samples of node values and keeping them.
pub mod sample_history_saver;
pub mod sample_latcher;
pub mod sampler;
