pub mod clock;
pub mod error;
pub mod importer;
pub mod mappers;
pub mod model;
pub mod source;
