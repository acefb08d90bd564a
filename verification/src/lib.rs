//! Very Good Document Imposer — the verified core of the imposition engine.
//!
//! The discrete parts of imposition planning live here with machine-checked contracts: signature
//! ordering for bound work, Code 128 encoding for job barcodes, the page → sheet/slot assignment of
//! the grid and booklet schemes, printer-mark bookkeeping, and the byte-level text encodings the
//! PDF writer emits, with the writer's own decisions (blend spaces, mark resources, colour operators).

pub mod barcode;
pub mod error;
pub mod imposition;
pub mod layout;
pub mod marks;
pub mod pdf;
pub mod text;
pub mod types;
