//! Decisions and data of an FMI 2.0 runner.

mod call;
pub mod error;
pub mod fmi2;
pub mod fmu;
pub mod instance;
pub mod library;
pub mod model_description;
pub mod outputs;
pub mod path;
pub mod state;
pub mod text;
pub mod values;
