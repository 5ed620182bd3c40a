pub mod json;
pub mod lifecycle;
pub mod model;
pub mod numbers;
pub mod parse;
pub mod paths;
pub mod text;
