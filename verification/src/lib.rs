//! An ELF linker for x86-64: it merges relocatable objects, resolves their
//! symbols, builds the procedure linkage table for imports from shared
//! objects, lays the image out and serialises it.

pub mod accrete;
pub mod bytes;
pub mod dynamic;
pub mod emit;
pub mod hash;
pub mod image;
pub mod input;
pub mod laws;
pub mod layout;
pub mod link;
pub mod lookup;
pub mod model;
pub mod opt;
pub mod pipeline;
pub mod plt;
pub mod reader;
pub mod relocate;
pub mod reserve;
pub mod resolve;
pub mod symtab;
pub mod text;
pub mod totals;
pub mod writer;

pub use crate::model::{
    DynamicSymbol, LinkError, Needed, ObjectFile, OutputRelocationSection, OutputSection,
    Relocation, RelocationTarget, Symbol,
};
pub use crate::opt::{parse_opts, FileOpt, HashStyle, LibraryOpt, ObjectFileOpt, Opt};
pub use crate::pipeline::link;
pub use crate::resolve::path_resolution;
