pub mod errors;
pub mod input;
pub mod schema;
pub mod validators;
pub mod value;
