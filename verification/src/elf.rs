//! The bridge from a raw ELF object to plain data.
//!
//! goblin parses the ELF container format; everything this library reads
//! from the parsed object — section headers, symbols, relocations, string
//! table lookups — is converted here into plain records. Parsing is a
//! function of the object's bytes alone, so each thing read is given a
//! name (`spec_elf_sections` and the others below); the trusted wrappers
//! tie what they return to those names, and `read_image` is then exactly
//! the named projection of the bytes.

use vstd::prelude::*;

use crate::BpfError;

verus! {

#[verifier::external_type_specification]
#[verifier::external_body]
pub struct ExElf<'a>(goblin::elf::Elf<'a>);

/// One section header, read off the parsed object: the offset of its
/// name in the section-header string table, its file offset and size,
/// and its `sh_info` field (for a relocation section, the index of the
/// section it applies to).
#[derive(Debug)]
pub struct SectionRecord {
    pub name: Option<String>,
    pub offset: u64,
    pub size: u64,
    pub info: u32,
}

/// One symbol-table entry: its resolved name (if the string table could
/// resolve it), its `st_info` byte (binding in the high nibble), the
/// index of the section it belongs to, and its value (the byte offset of
/// its data within that section).
#[derive(Debug)]
pub struct SymRecord {
    pub name: Option<String>,
    pub info: u8,
    pub shndx: usize,
    pub value: u64,
}

/// One relocation entry, paired with the index of the section header of
/// the relocation section it came from.
#[derive(Debug, Clone, Copy, PartialEq, Eq, Structural)]
pub struct RelocRecord {
    pub shdr_index: usize,
    pub offset: u64,
    pub sym: usize,
}

/// Everything the scanner reads from one parsed ELF object, as plain
/// records in file order.
#[derive(Debug)]
pub struct ElfImage {
    pub sections: Vec<SectionRecord>,
    pub syms: Vec<SymRecord>,
    pub relocs: Vec<RelocRecord>,
}

/// The mathematical shadow of one section record.
pub struct SecModel {
    pub name: Option<Seq<char>>,
    pub offset: u64,
    pub size: u64,
    pub info: u32,
}

/// The mathematical shadow of one symbol record.
pub struct SymModel {
    pub name: Option<Seq<char>>,
    pub info: u8,
    pub shndx: usize,
    pub value: u64,
}

pub open spec fn opt_str_model(o: Option<String>) -> Option<Seq<char>> {
    match o {
        Option::None => Option::None,
        Option::Some(s) => Option::Some(s@),
    }
}

pub open spec fn sec_model(s: SectionRecord) -> SecModel {
    SecModel { name: opt_str_model(s.name), offset: s.offset, size: s.size, info: s.info }
}

pub open spec fn sym_model(s: SymRecord) -> SymModel {
    SymModel { name: opt_str_model(s.name), info: s.info, shndx: s.shndx, value: s.value }
}

/// Whether goblin's ELF parser accepts these bytes. Parsing is a
/// function of the bytes alone.
pub uninterp spec fn spec_elf_ok(code: Seq<u8>) -> bool;

/// That this parsed object is the parse of these bytes; established
/// only by the parse wrapper, and what every projection wrapper's
/// contract is conditioned on.
pub uninterp spec fn spec_is_parse_of(e: goblin::elf::Elf<'_>, code: Seq<u8>) -> bool;

/// The section headers of the parse of these bytes: each header's
/// `sh_name`, `sh_offset`, `sh_size`, `sh_info`, in file order.
pub uninterp spec fn spec_elf_sections(code: Seq<u8>) -> Seq<(usize, u64, u64, u32)>;

/// The symbol table of the parse of these bytes: each entry's
/// `st_name`, `st_info`, `st_shndx`, `st_value`, in table order.
pub uninterp spec fn spec_elf_syms(code: Seq<u8>) -> Seq<(usize, u8, usize, u64)>;

/// The section relocations of the parse of these bytes: each entry's
/// relocation-section header index, `r_offset` and `r_sym`.
pub uninterp spec fn spec_elf_relocs(code: Seq<u8>) -> Seq<(usize, u64, usize)>;

/// The section name the parse of these bytes resolves at an offset of
/// the section-header string table.
pub uninterp spec fn spec_shdr_name(code: Seq<u8>, off: usize) -> Option<Seq<char>>;

/// The symbol name the parse of these bytes resolves at an offset of
/// the symbol string table.
pub uninterp spec fn spec_sym_name(code: Seq<u8>, off: usize) -> Option<Seq<char>>;

/// The section records of the parse of these bytes, names resolved.
pub open spec fn spec_image_sections(code: Seq<u8>) -> Seq<SecModel> {
    spec_elf_sections(code).map_values(
        |t: (usize, u64, u64, u32)|
            SecModel { name: spec_shdr_name(code, t.0), offset: t.1, size: t.2, info: t.3 },
    )
}

/// The symbol records of the parse of these bytes, names resolved.
pub open spec fn spec_image_syms(code: Seq<u8>) -> Seq<SymModel> {
    spec_elf_syms(code).map_values(
        |t: (usize, u8, usize, u64)|
            SymModel { name: spec_sym_name(code, t.0), info: t.1, shndx: t.2, value: t.3 },
    )
}

/// The relocation records of the parse of these bytes.
pub open spec fn spec_image_relocs(code: Seq<u8>) -> Seq<RelocRecord> {
    spec_elf_relocs(code).map_values(
        |t: (usize, u64, usize)| RelocRecord { shdr_index: t.0, offset: t.1, sym: t.2 },
    )
}

/// Relies on goblin::elf::Elf::parse: parses the ELF container format;
/// it accepts exactly the bytes `spec_elf_ok` names, and any structural
/// failure becomes `MalformedObject`.
#[verifier::external_body]
fn elf_parse<'a>(code: &'a [u8]) -> (r: Result<goblin::elf::Elf<'a>, BpfError>)
    ensures
        r is Ok <==> spec_elf_ok(code@),
        r is Err ==> r->Err_0 == BpfError::MalformedObject,
        r matches Ok(e) ==> spec_is_parse_of(e, code@),
{
    match goblin::elf::Elf::parse(code) {
        Ok(e) => Ok(e),
        Err(_) => Err(BpfError::MalformedObject),
    }
}

/// Relies on the `section_headers` field of a parsed ELF: one tuple per
/// section header, holding `sh_name`, `sh_offset`, `sh_size`, `sh_info`.
#[verifier::external_body]
fn elf_section_headers<'a>(code: &[u8], elf: &goblin::elf::Elf<'a>) -> (r: Vec<
    (usize, u64, u64, u32),
>)
    requires
        spec_is_parse_of(*elf, code@),
    ensures
        r@ == spec_elf_sections(code@),
{
    let _ = code;
    elf.section_headers.iter().map(|s| (s.sh_name, s.sh_offset, s.sh_size, s.sh_info)).collect()
}

/// Relies on Strtab::get_at on the section-header string table: resolves
/// a section name by its `sh_name` offset.
#[verifier::external_body]
fn elf_shdr_name<'a>(code: &[u8], elf: &goblin::elf::Elf<'a>, off: usize) -> (r: Option<String>)
    requires
        spec_is_parse_of(*elf, code@),
    ensures
        opt_str_model(r) == spec_shdr_name(code@, off),
{
    let _ = code;
    elf.shdr_strtab.get_at(off).map(|s| s.to_string())
}

/// Relies on Strtab::get_at on the symbol string table: resolves a
/// symbol name by its `st_name` offset.
#[verifier::external_body]
fn elf_sym_name<'a>(code: &[u8], elf: &goblin::elf::Elf<'a>, off: usize) -> (r: Option<String>)
    requires
        spec_is_parse_of(*elf, code@),
    ensures
        opt_str_model(r) == spec_sym_name(code@, off),
{
    let _ = code;
    elf.strtab.get_at(off).map(|s| s.to_string())
}

/// Relies on Symtab::iter: one tuple per symbol-table entry, holding
/// `st_name`, `st_info`, `st_shndx`, `st_value`.
#[verifier::external_body]
fn elf_symbols<'a>(code: &[u8], elf: &goblin::elf::Elf<'a>) -> (r: Vec<(usize, u8, usize, u64)>)
    requires
        spec_is_parse_of(*elf, code@),
    ensures
        r@ == spec_elf_syms(code@),
{
    let _ = code;
    elf.syms.iter().map(|s| (s.st_name, s.st_info, s.st_shndx, s.st_value)).collect()
}

/// Relies on RelocSection::iter over the `shdr_relocs` field: every
/// relocation entry (`r_offset`, `r_sym`), each paired with the index of
/// the relocation section's own header.
#[verifier::external_body]
fn elf_relocs<'a>(code: &[u8], elf: &goblin::elf::Elf<'a>) -> (r: Vec<(usize, u64, usize)>)
    requires
        spec_is_parse_of(*elf, code@),
    ensures
        r@ == spec_elf_relocs(code@),
{
    let _ = code;
    let mut out = Vec::new();
    for (shdr, rels) in elf.shdr_relocs.iter() {
        for rel in rels.iter() {
            out.push((*shdr, rel.r_offset, rel.r_sym));
        }
    }
    out
}

/// Parses an ELF object and reads everything the scanner needs out of it
/// into plain records: exactly the named projections of the bytes —
/// section headers and symbols with their names resolved, and the
/// relocation entries.
pub fn read_image(code: &[u8]) -> (r: Result<ElfImage, BpfError>)
    ensures
        r is Ok <==> spec_elf_ok(code@),
        r is Err ==> r->Err_0 == BpfError::MalformedObject,
        r matches Ok(img) ==> {
            &&& img.sections@.map_values(|s: SectionRecord| sec_model(s)) == spec_image_sections(
                code@,
            )
            &&& img.syms@.map_values(|s: SymRecord| sym_model(s)) == spec_image_syms(code@)
            &&& img.relocs@ == spec_image_relocs(code@)
        },
{
    let elf = match elf_parse(code) {
        Ok(e) => e,
        Err(e) => {
            return Err(e);
        },
    };
    let shdrs = elf_section_headers(code, &elf);
    let mut sections: Vec<SectionRecord> = Vec::new();
    let mut i: usize = 0;
    proof {
        assert(sections@.map_values(|s: SectionRecord| sec_model(s)) =~= spec_image_sections(
            code@,
        ).take(0));
    }
    while i < shdrs.len()
        invariant
            0 <= i <= shdrs@.len(),
            shdrs@ == spec_elf_sections(code@),
            spec_is_parse_of(elf, code@),
            sections@.len() == i,
            sections@.map_values(|s: SectionRecord| sec_model(s)) == spec_image_sections(
                code@,
            ).take(i as int),
        decreases shdrs@.len() - i,
    {
        let (name_off, offset, size, info) = shdrs[i];
        let name = elf_shdr_name(code, &elf, name_off);
        let rec = SectionRecord { name, offset, size, info };
        proof {
            assert(sec_model(rec) == spec_image_sections(code@)[i as int]);
            assert(sections@.push(rec).map_values(|s: SectionRecord| sec_model(s))
                =~= spec_image_sections(code@).take(i + 1));
        }
        sections.push(rec);
        i = i + 1;
    }
    proof {
        assert(spec_image_sections(code@).take(shdrs@.len() as int) =~= spec_image_sections(
            code@,
        ));
    }
    let raw_syms = elf_symbols(code, &elf);
    let mut syms: Vec<SymRecord> = Vec::new();
    let mut j: usize = 0;
    proof {
        assert(syms@.map_values(|s: SymRecord| sym_model(s)) =~= spec_image_syms(code@).take(0));
    }
    while j < raw_syms.len()
        invariant
            0 <= j <= raw_syms@.len(),
            raw_syms@ == spec_elf_syms(code@),
            spec_is_parse_of(elf, code@),
            syms@.len() == j,
            syms@.map_values(|s: SymRecord| sym_model(s)) == spec_image_syms(code@).take(j as int),
        decreases raw_syms@.len() - j,
    {
        let (name_off, info, shndx, value) = raw_syms[j];
        let name = elf_sym_name(code, &elf, name_off);
        let rec = SymRecord { name, info, shndx, value };
        proof {
            assert(sym_model(rec) == spec_image_syms(code@)[j as int]);
            assert(syms@.push(rec).map_values(|s: SymRecord| sym_model(s)) =~= spec_image_syms(
                code@,
            ).take(j + 1));
        }
        syms.push(rec);
        j = j + 1;
    }
    proof {
        assert(spec_image_syms(code@).take(raw_syms@.len() as int) =~= spec_image_syms(code@));
    }
    let raw_relocs = elf_relocs(code, &elf);
    let mut relocs: Vec<RelocRecord> = Vec::new();
    let mut k: usize = 0;
    while k < raw_relocs.len()
        invariant
            0 <= k <= raw_relocs@.len(),
            raw_relocs@ == spec_elf_relocs(code@),
            relocs@ == spec_image_relocs(code@).take(k as int),
        decreases raw_relocs@.len() - k,
    {
        let (shdr_index, offset, sym) = raw_relocs[k];
        let rec = RelocRecord { shdr_index, offset, sym };
        proof {
            assert(rec == spec_image_relocs(code@)[k as int]);
            assert(relocs@.push(rec) =~= spec_image_relocs(code@).take(k + 1));
        }
        relocs.push(rec);
        k = k + 1;
    }
    proof {
        assert(spec_image_relocs(code@).take(raw_relocs@.len() as int) =~= spec_image_relocs(
            code@,
        ));
    }
    Ok(ElfImage { sections, syms, relocs })
}

} // verus!
