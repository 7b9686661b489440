//! QualiRS core: bounded source evidence, finding construction, and the
//! decision logic of the code smell detectors, with their contracts.
pub mod text;
pub mod table;
pub mod domain;
pub mod stats;
pub mod lifetimes;
pub mod signature;
pub mod suggested_code;
pub mod evidence;
pub mod detectors;
pub mod manifest;
pub mod tokens;
pub mod source_notes;
pub mod safety_docs;
pub mod discard_notes;
pub mod scan;
pub mod report;
pub mod walk;
pub mod laws;
