//! Verified core of a logistics job-batch pipeline.
//!
//! Two independently exported spreadsheet extracts (a "CL View" extract and a
//! "Shipper/Consignee Site" extract) are turned into a normalized list of
//! logistics job records. The library owns the mode-dependent schema mapping,
//! the typed-cell table model, the inner join on the shared job number, the
//! per-field coercions from loosely typed cells, and the derived-date
//! arithmetic (midpoint of the delivery window and tolerance bucketing).
//!
//! Workbook decoding and the GUI surface live outside the library; callers
//! hand in a rectangular grid of typed cells and receive plain records back.

pub mod cell;
pub mod dates;
pub mod file_parsing;
pub mod job_row;
pub mod parse_error;
pub mod table;
pub mod text;
