// Documentation of composed routing units and its translation into an
// OpenAPI-style description.
pub mod document;
pub mod unit;
pub mod cookie;
pub mod translate;
