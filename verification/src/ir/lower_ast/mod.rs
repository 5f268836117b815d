//! Lowering of the tree-shaped source program to control-flow-graph form.

pub mod binding;
pub mod bridge;
pub mod consteval;
pub mod error;
pub mod frontend;
pub mod laws;
pub mod limits;
pub mod model;
pub mod o0;
pub mod rules;
pub mod sound;
pub mod support;

pub use error::LowerError;
pub use frontend::SOCKET_VERSION;
pub use consteval::FloatFold;
pub use limits::{
    function_fits, program_fits, try_lower_function_o0, try_lower_o0, try_lower_o0_with,
};
pub use o0::{lower_function_o0, lower_o0, lower_o0_with};
