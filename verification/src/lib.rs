//! Host side of an embedded TeX engine: an in-memory file system, the host
//! functions that the engine imports, and an interpreter for the DVI stream
//! that the engine writes.

pub mod bytes;
pub mod dvi2svg;
pub mod filename;
pub mod filesystem;
pub mod filesystem_laws;
pub mod import_laws;
pub mod texjax_imports;
pub mod wasm_runner;

pub use filename::clean_filename;
pub use filesystem::{FilePointer, FileType, ReadMode, VirtualFileSystem};
pub use texjax_imports::read_memory;

pub use dvi2svg::dvi2svg;
