//! Settings files for the other services of the unit.

pub mod fluentbit_env;
