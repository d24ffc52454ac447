pub mod admission;
pub mod catalog;
pub mod catalog_buffer;
pub mod device;
pub mod events;
pub mod lex;
pub mod records;
pub mod session;
