pub mod arkts;
pub mod codegen;
pub mod compose;
pub mod platform;
pub mod text;
