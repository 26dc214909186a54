pub mod ast;
pub mod laws;
pub mod text;
pub mod transform;
