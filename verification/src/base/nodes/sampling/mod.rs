//! Sampling of node values and the history of samples.
pub mod sample_history;
pub mod sample_latcher;
pub mod sample_node;
pub mod periodic_sampler;
pub mod sample_timer;
pub mod sample_history_saver;
