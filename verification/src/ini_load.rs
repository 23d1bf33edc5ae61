//! The single call into the INI parsing crate.

use ini::Ini;
use vstd::prelude::*;

verus! {

/// Relies on `Ini::load_from_file` of the INI crate: it reads the file at
/// `filename` and parses it as INI text, yielding the document's sections in
/// file order, with the unnamed default section appearing as `None`; on a
/// missing or unreadable file or malformed INI text it fails, and the error's
/// display text is returned. The outcome depends on what is on disk, so
/// nothing is assumed of it here: callers handle every outcome.
#[verifier::external_body]
pub(crate) fn load_ini_sections(filename: &str) -> Result<Vec<Option<String>>, String> {
    match Ini::load_from_file(filename) {
        Ok(doc) => Ok(doc.sections().map(|sec| sec.map(|name| name.to_string())).collect()),
        Err(e) => Err(e.to_string()),
    }
}

} // verus!
