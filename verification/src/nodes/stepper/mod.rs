//! Stepper motors driven through step and direction signals.
pub mod base;
pub mod speed_controller;
