pub mod text;
pub mod unit;
pub mod numbers;
pub mod order;
pub mod model;
pub mod attrs;
pub mod document;
pub mod convert;
