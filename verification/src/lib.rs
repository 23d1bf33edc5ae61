//! Extracts achievement identifiers from a configuration file: the file is
//! parsed according to its extension, and the names of its sections, apart
//! from the reserved container section and the unnamed default section, are
//! returned in file order.

mod ini_load;
pub mod parser;
