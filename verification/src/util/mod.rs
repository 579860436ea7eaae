pub mod convert;
pub mod errors;
pub mod table;
pub mod text;
