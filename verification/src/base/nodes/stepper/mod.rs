//! Stepper motors: their status, parameters and driver.
pub mod stepper;
