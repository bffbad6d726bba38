//! A verified loader for classic-BPF object files.
//!
//! An ELF object produced by a BPF compiler carries reserved sections:
//! `license`, `version`, `maps` (one 20-byte definition per global
//! symbol) and `socketfilters` (one 8-byte-instruction stream per
//! global symbol, relocatable against the map symbols). This library
//! scans such an object, decodes its map definitions, patches map
//! references in the instruction streams to kernel file descriptors,
//! and assembles the resulting handles into a module — planning every
//! kernel call and interpreting every kernel answer in verified code,
//! while the caller performs the syscalls themselves.

use vstd::prelude::*;

pub mod insn;
pub mod map;
pub mod reloc;
pub mod elf;
pub mod scan;
pub mod module;

verus! {

/// The error kinds surfaced by this library.
#[derive(Debug, Clone, PartialEq, Eq, Structural)]
pub enum BpfError {
    /// The ELF object is structurally invalid: a reserved section is missing
    /// or malformed, a symbol or string reference cannot be resolved, or an
    /// instruction stream is misaligned.
    MalformedObject,
    /// A map definition is shorter than its fixed 20-byte layout.
    TruncatedInput,
    /// A relocation references a symbol index absent from the map table.
    UnresolvedMapSymbol,
    /// A typed key or value does not match a map's declared size.
    SizeMismatch,
    /// The kernel rejected a syscall; carries the reported errno.
    KernelRejected(i32),
    /// Clean end-of-sequence signal inside key iteration.
    NotFound,
}

} // verus!
