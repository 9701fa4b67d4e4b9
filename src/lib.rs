pub mod laws;
pub mod number;
pub mod stack;
pub mod text;
pub mod token;
