//! Storage-volume inventory: parsing of tabular inventory-tool output and
//! mapping of the parsed rows into typed snapshot entities.

pub mod inventory;
pub mod mapper;
pub mod numeric;
pub mod parser;
pub mod text;
