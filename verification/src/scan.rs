//! The ELF section scanner: classifies the sections of a parsed object by
//! their reserved names (`license`, `version`, `maps`, `socketfilters`),
//! decodes the license string, the version word and every global map
//! symbol's definition, and collects each program section's raw
//! instruction bytes together with the relocation entries that target it.
//! An object that declares no license or no version is malformed, as is
//! one that declares two maps or two programs under one name; `maps` and
//! `socketfilters` sections are optional (an object may define no maps
//! and no programs).

use vstd::prelude::*;
use vstd::bytes::*;
use vstd::slice::*;
use vstd::utf8::*;

use crate::BpfError;
use crate::elf::ElfImage;
use crate::elf::RelocRecord;
use crate::elf::SecModel;
use crate::elf::SectionRecord;
use crate::elf::SymModel;
use crate::elf::SymRecord;
use crate::elf::sec_model;
use crate::elf::sym_model;
use crate::map::DEF_SIZE;
use crate::map::MapDefinition;
use crate::reloc::RelocEntry;

verus! {

/// The symbol binding that marks a symbol as global; only global symbols
/// define maps or programs.
pub const STB_GLOBAL: u8 = 1;

/// The kernel program type for a socket filter; every program found in a
/// `socketfilters` section is loaded with this kind.
pub const BPF_PROG_TYPE_SOCKET_FILTER: u32 = 1;

/// One map found in the `maps` section: the index of its symbol in the
/// symbol table (the index relocations refer to) and its decoded
/// definition.
#[derive(Debug)]
pub struct MapSymbol {
    pub sym_index: usize,
    pub def: MapDefinition,
}

/// One program found in a `socketfilters` section: its symbol name, its
/// program kind, the section's raw instruction bytes, and the relocation
/// entries that target the section.
#[derive(Debug)]
pub struct ProgRecord {
    pub name: String,
    pub kind: u32,
    pub data: Vec<u8>,
    pub relocs: Vec<RelocEntry>,
}

/// Everything one scan extracts from an object: the license, the
/// version, every global map symbol in symbol-table order, and every
/// program section's record.
#[derive(Debug)]
pub struct ScannedObject {
    pub license: String,
    pub version: u32,
    pub maps: Vec<MapSymbol>,
    pub progs: Vec<ProgRecord>,
}

/// The mathematical shadow of one scanned map symbol.
pub struct MapSymModel {
    pub sym_index: usize,
    pub name: Seq<char>,
    pub map_type: u32,
    pub key_size: u32,
    pub value_size: u32,
    pub max_entries: u32,
    pub map_flags: u32,
}

/// The mathematical shadow of one scanned program record.
pub struct ProgModel {
    pub name: Seq<char>,
    pub kind: u32,
    pub data: Seq<u8>,
    pub relocs: Seq<RelocEntry>,
}

/// The mathematical shadow of a scan in progress: what has been
/// collected, and whether the two mandatory sections have been seen.
pub struct ScanModel {
    pub license: Seq<char>,
    pub version: u32,
    pub maps: Seq<MapSymModel>,
    pub progs: Seq<ProgModel>,
    pub has_license: bool,
    pub has_version: bool,
}

pub open spec fn map_sym_model(m: MapSymbol) -> MapSymModel {
    MapSymModel {
        sym_index: m.sym_index,
        name: m.def.name@,
        map_type: m.def.map_type,
        key_size: m.def.key_size,
        value_size: m.def.value_size,
        max_entries: m.def.max_entries,
        map_flags: m.def.map_flags,
    }
}

pub open spec fn prog_model(p: ProgRecord) -> ProgModel {
    ProgModel { name: p.name@, kind: p.kind, data: p.data@, relocs: p.relocs@ }
}

/// A finished scan always carries its mandatory sections.
pub open spec fn scanned_model(s: ScannedObject) -> ScanModel {
    ScanModel {
        license: s.license@,
        version: s.version,
        maps: s.maps@.map_values(|m: MapSymbol| map_sym_model(m)),
        progs: s.progs@.map_values(|p: ProgRecord| prog_model(p)),
        has_license: true,
        has_version: true,
    }
}

/// A section's bytes are the `size` bytes of the object starting at its
/// file `offset`; a section that reaches past the end of the object is
/// malformed.
pub open spec fn spec_section_data(code: Seq<u8>, s: SecModel) -> Result<Seq<u8>, BpfError> {
    if s.offset + s.size <= code.len() {
        Ok(code.subrange(s.offset as int, s.offset as int + s.size as int))
    } else {
        Err(BpfError::MalformedObject)
    }
}

/// The license section's content: a valid NUL-terminated UTF-8 string
/// (exactly one NUL, as its last byte); anything else is malformed.
pub open spec fn spec_license(data: Seq<u8>) -> Result<Seq<char>, BpfError> {
    if data.len() >= 1 && data[data.len() - 1] == 0 && (forall|i: int|
        0 <= i < data.len() - 1 ==> data[i] != 0) {
        let content = data.take(data.len() - 1);
        if valid_utf8(content) {
            Ok(decode_utf8(content))
        } else {
            Err(BpfError::MalformedObject)
        }
    } else {
        Err(BpfError::MalformedObject)
    }
}

/// The version section's content: its first 4 bytes, little-endian.
pub open spec fn spec_version(data: Seq<u8>) -> Result<u32, BpfError> {
    if data.len() >= 4 {
        Ok(spec_u32_from_le_bytes(data.subrange(0, 4)))
    } else {
        Err(BpfError::MalformedObject)
    }
}

/// Whether a symbol belongs to the given section and is globally bound.
pub open spec fn spec_sym_relevant(s: SymModel, shndx: int) -> bool {
    s.shndx == shndx && (s.info >> 4) == STB_GLOBAL
}

/// The definition a relevant map symbol decodes to: 20 bytes of the
/// `maps` section starting at the symbol's value offset.
pub open spec fn spec_map_def_model(j: int, s: SymModel, data: Seq<u8>) -> MapSymModel {
    let v = s.value as int;
    MapSymModel {
        sym_index: j as usize,
        name: s.name->0,
        map_type: spec_u32_from_le_bytes(data.subrange(v, v + 4)),
        key_size: spec_u32_from_le_bytes(data.subrange(v + 4, v + 8)),
        value_size: spec_u32_from_le_bytes(data.subrange(v + 8, v + 12)),
        max_entries: spec_u32_from_le_bytes(data.subrange(v + 12, v + 16)),
        map_flags: spec_u32_from_le_bytes(data.subrange(v + 16, v + 20)),
    }
}

/// Whether a map of this name was already collected.
pub open spec fn spec_map_name_taken(acc: Seq<MapSymModel>, name: Seq<char>) -> bool {
    exists|q: int| 0 <= q < acc.len() && #[trigger] acc[q].name == name
}

/// Whether a program of this name was already collected.
pub open spec fn spec_prog_name_taken(acc: Seq<ProgModel>, name: Seq<char>) -> bool {
    exists|q: int| 0 <= q < acc.len() && #[trigger] acc[q].name == name
}

/// The map symbols among the first `j` symbol-table entries, in order.
/// A relevant symbol whose name cannot be resolved, or whose name was
/// already taken by an earlier map, makes the object malformed; one
/// whose definition has fewer than 20 bytes available is truncated.
pub open spec fn spec_maps_upto(
    syms: Seq<SymModel>,
    shndx: int,
    data: Seq<u8>,
    acc0: Seq<MapSymModel>,
    j: int,
) -> Result<Seq<MapSymModel>, BpfError>
    decreases j,
{
    if j <= 0 {
        Ok(acc0)
    } else {
        match spec_maps_upto(syms, shndx, data, acc0, j - 1) {
            Err(e) => Err(e),
            Ok(acc) => {
                let s = syms[j - 1];
                if spec_sym_relevant(s, shndx) {
                    if s.name is None {
                        Err(BpfError::MalformedObject)
                    } else if s.value + DEF_SIZE > data.len() {
                        Err(BpfError::TruncatedInput)
                    } else if spec_map_name_taken(acc, s.name->0) {
                        Err(BpfError::MalformedObject)
                    } else {
                        Ok(acc.push(spec_map_def_model(j - 1, s, data)))
                    }
                } else {
                    Ok(acc)
                }
            },
        }
    }
}

/// The relocation entries, among the first `k`, whose relocation section
/// applies to the given section (its header's `info` names that
/// section), in order. An entry whose header index is out of range is
/// ignored.
pub open spec fn spec_relocs_for(
    relocs: Seq<RelocRecord>,
    sections: Seq<SecModel>,
    shndx: int,
    k: int,
) -> Seq<RelocEntry>
    decreases k,
{
    if k <= 0 {
        Seq::empty()
    } else {
        let prev = spec_relocs_for(relocs, sections, shndx, k - 1);
        let rr = relocs[k - 1];
        if rr.shdr_index < sections.len() && sections[rr.shdr_index as int].info == shndx as u32 {
            prev.push(RelocEntry { offset: rr.offset, sym: rr.sym })
        } else {
            prev
        }
    }
}

/// The programs among the first `j` symbol-table entries of one program
/// section: every relevant symbol names a program over the whole
/// section's bytes, with the section's relocation entries. A symbol
/// whose name cannot be resolved, or whose name was already taken by an
/// earlier program, makes the object malformed.
pub open spec fn spec_progs_upto(
    syms: Seq<SymModel>,
    shndx: int,
    data: Seq<u8>,
    rel: Seq<RelocEntry>,
    acc0: Seq<ProgModel>,
    j: int,
) -> Result<Seq<ProgModel>, BpfError>
    decreases j,
{
    if j <= 0 {
        Ok(acc0)
    } else {
        match spec_progs_upto(syms, shndx, data, rel, acc0, j - 1) {
            Err(e) => Err(e),
            Ok(acc) => {
                let s = syms[j - 1];
                if spec_sym_relevant(s, shndx) {
                    if s.name is None {
                        Err(BpfError::MalformedObject)
                    } else if spec_prog_name_taken(acc, s.name->0) {
                        Err(BpfError::MalformedObject)
                    } else {
                        Ok(
                            acc.push(
                                ProgModel {
                                    name: s.name->0,
                                    kind: BPF_PROG_TYPE_SOCKET_FILTER,
                                    data: data,
                                    relocs: rel,
                                },
                            ),
                        )
                    }
                } else {
                    Ok(acc)
                }
            },
        }
    }
}

/// What scanning one section does to the accumulated result, by the
/// section's reserved name; a section whose name cannot be resolved
/// makes the object malformed, and an unrecognized name is ignored.
pub open spec fn spec_scan_step(
    acc: ScanModel,
    sections: Seq<SecModel>,
    syms: Seq<SymModel>,
    relocs: Seq<RelocRecord>,
    code: Seq<u8>,
    i: int,
) -> Result<ScanModel, BpfError> {
    let sec = sections[i];
    if sec.name is None {
        Err(BpfError::MalformedObject)
    } else {
        let n = sec.name->0;
        if n == "license"@ {
            match spec_section_data(code, sec) {
                Err(e) => Err(e),
                Ok(data) => match spec_license(data) {
                    Err(e) => Err(e),
                    Ok(lic) => Ok(ScanModel { license: lic, has_license: true, ..acc }),
                },
            }
        } else if n == "version"@ {
            match spec_section_data(code, sec) {
                Err(e) => Err(e),
                Ok(data) => match spec_version(data) {
                    Err(e) => Err(e),
                    Ok(v) => Ok(ScanModel { version: v, has_version: true, ..acc }),
                },
            }
        } else if n == "maps"@ {
            match spec_section_data(code, sec) {
                Err(e) => Err(e),
                Ok(data) => match spec_maps_upto(syms, i, data, acc.maps, syms.len() as int) {
                    Err(e) => Err(e),
                    Ok(ms) => Ok(ScanModel { maps: ms, ..acc }),
                },
            }
        } else if n == "socketfilters"@ {
            match spec_section_data(code, sec) {
                Err(e) => Err(e),
                Ok(data) => match spec_progs_upto(
                    syms,
                    i,
                    data,
                    spec_relocs_for(relocs, sections, i, relocs.len() as int),
                    acc.progs,
                    syms.len() as int,
                ) {
                    Err(e) => Err(e),
                    Ok(ps) => Ok(ScanModel { progs: ps, ..acc }),
                },
            }
        } else {
            Ok(acc)
        }
    }
}

/// The empty result a scan starts from: nothing collected, neither
/// mandatory section seen yet.
pub open spec fn spec_scan_init() -> ScanModel {
    ScanModel {
        license: Seq::empty(),
        version: 0,
        maps: Seq::empty(),
        progs: Seq::empty(),
        has_license: false,
        has_version: false,
    }
}

/// The scan of the first `i` sections, in order; the first failing
/// section fails the whole scan.
pub open spec fn spec_scan_upto(
    sections: Seq<SecModel>,
    syms: Seq<SymModel>,
    relocs: Seq<RelocRecord>,
    code: Seq<u8>,
    i: int,
) -> Result<ScanModel, BpfError>
    decreases i,
{
    if i <= 0 {
        Ok(spec_scan_init())
    } else {
        match spec_scan_upto(sections, syms, relocs, code, i - 1) {
            Err(e) => Err(e),
            Ok(acc) => spec_scan_step(acc, sections, syms, relocs, code, i - 1),
        }
    }
}

/// The scan of a whole object: every section in order, and then the
/// object is malformed unless a license and a version were declared.
pub open spec fn spec_scan_model(
    sections: Seq<SecModel>,
    syms: Seq<SymModel>,
    relocs: Seq<RelocRecord>,
    code: Seq<u8>,
) -> Result<ScanModel, BpfError> {
    match spec_scan_upto(sections, syms, relocs, code, sections.len() as int) {
        Err(e) => Err(e),
        Ok(acc) => if acc.has_license && acc.has_version {
            Ok(acc)
        } else {
            Err(BpfError::MalformedObject)
        },
    }
}

/// The scan of one read image.
pub open spec fn spec_scan_image(img: ElfImage, code: Seq<u8>) -> Result<ScanModel, BpfError> {
    spec_scan_model(
        img.sections@.map_values(|s: SectionRecord| sec_model(s)),
        img.syms@.map_values(|s: SymRecord| sym_model(s)),
        img.relocs@,
        code,
    )
}

/// Once some prefix of the sections has failed, the whole scan fails the
/// same way.
proof fn lemma_scan_err_stable(
    sections: Seq<SecModel>,
    syms: Seq<SymModel>,
    relocs: Seq<RelocRecord>,
    code: Seq<u8>,
    i: int,
    k: int,
)
    requires
        0 <= i <= k,
        spec_scan_upto(sections, syms, relocs, code, i) is Err,
    ensures
        spec_scan_upto(sections, syms, relocs, code, k) == spec_scan_upto(
            sections,
            syms,
            relocs,
            code,
            i,
        ),
    decreases k - i,
{
    if k > i {
        lemma_scan_err_stable(sections, syms, relocs, code, i, k - 1);
    }
}

/// Once some prefix of the symbols has failed the map collection, the
/// whole collection fails the same way.
proof fn lemma_maps_err_stable(
    syms: Seq<SymModel>,
    shndx: int,
    data: Seq<u8>,
    acc0: Seq<MapSymModel>,
    i: int,
    k: int,
)
    requires
        0 <= i <= k,
        spec_maps_upto(syms, shndx, data, acc0, i) is Err,
    ensures
        spec_maps_upto(syms, shndx, data, acc0, k) == spec_maps_upto(syms, shndx, data, acc0, i),
    decreases k - i,
{
    if k > i {
        lemma_maps_err_stable(syms, shndx, data, acc0, i, k - 1);
    }
}

/// Once some prefix of the symbols has failed the program collection,
/// the whole collection fails the same way.
proof fn lemma_progs_err_stable(
    syms: Seq<SymModel>,
    shndx: int,
    data: Seq<u8>,
    rel: Seq<RelocEntry>,
    acc0: Seq<ProgModel>,
    i: int,
    k: int,
)
    requires
        0 <= i <= k,
        spec_progs_upto(syms, shndx, data, rel, acc0, i) is Err,
    ensures
        spec_progs_upto(syms, shndx, data, rel, acc0, k) == spec_progs_upto(
            syms,
            shndx,
            data,
            rel,
            acc0,
            i,
        ),
    decreases k - i,
{
    if k > i {
        lemma_progs_err_stable(syms, shndx, data, rel, acc0, i, k - 1);
    }
}

/// A successful map collection holds pairwise-distinct names: a
/// duplicate would have failed the scan.
pub proof fn lemma_map_names_unique(
    syms: Seq<SymModel>,
    shndx: int,
    data: Seq<u8>,
    acc0: Seq<MapSymModel>,
    j: int,
)
    requires
        forall|a: int, b: int| 0 <= a < b < acc0.len() ==> acc0[a].name != acc0[b].name,
    ensures
        spec_maps_upto(syms, shndx, data, acc0, j) matches Ok(ms) ==> forall|a: int, b: int|
            0 <= a < b < ms.len() ==> ms[a].name != ms[b].name,
    decreases j,
{
    if j <= 0 {
    } else {
        lemma_map_names_unique(syms, shndx, data, acc0, j - 1);
        match spec_maps_upto(syms, shndx, data, acc0, j - 1) {
            Err(_) => {},
            Ok(acc) => {
                match spec_maps_upto(syms, shndx, data, acc0, j) {
                    Err(_) => {},
                    Ok(ms) => {
                        if ms.len() == acc.len() + 1 {
                            assert forall|a: int, b: int| 0 <= a < b < ms.len() implies ms[a].name
                                != ms[b].name by {
                                if b == ms.len() - 1 {
                                    assert(!spec_map_name_taken(acc, ms[b].name));
                                    assert(!(0 <= a < acc.len() && acc[a].name == ms[b].name));
                                }
                            }
                        }
                    },
                }
            },
        }
    }
}

/// A successful program collection extends distinct names by distinct
/// names: a duplicate would have failed the scan.
pub proof fn lemma_prog_names_unique(
    syms: Seq<SymModel>,
    shndx: int,
    data: Seq<u8>,
    rel: Seq<RelocEntry>,
    acc0: Seq<ProgModel>,
    j: int,
)
    requires
        forall|a: int, b: int| 0 <= a < b < acc0.len() ==> acc0[a].name != acc0[b].name,
    ensures
        spec_progs_upto(syms, shndx, data, rel, acc0, j) matches Ok(ps) ==> forall|a: int, b: int|
            0 <= a < b < ps.len() ==> ps[a].name != ps[b].name,
    decreases j,
{
    if j <= 0 {
    } else {
        lemma_prog_names_unique(syms, shndx, data, rel, acc0, j - 1);
        match spec_progs_upto(syms, shndx, data, rel, acc0, j - 1) {
            Err(_) => {},
            Ok(acc) => {
                match spec_progs_upto(syms, shndx, data, rel, acc0, j) {
                    Err(_) => {},
                    Ok(ps) => {
                        if ps.len() == acc.len() + 1 {
                            assert forall|a: int, b: int| 0 <= a < b < ps.len() implies ps[a].name
                                != ps[b].name by {
                                if b == ps.len() - 1 {
                                    assert(!spec_prog_name_taken(acc, ps[b].name));
                                    assert(!(0 <= a < acc.len() && acc[a].name == ps[b].name));
                                }
                            }
                        }
                    },
                }
            },
        }
    }
}

/// Relies on String::from_utf8: it succeeds exactly on valid UTF-8 and
/// decodes the bytes into their characters.
#[verifier::external_body]
fn string_from_utf8(bytes: Vec<u8>) -> (r: Option<String>)
    ensures
        r is Some <==> valid_utf8(bytes@),
        r is Some ==> r->0@ == decode_utf8(bytes@),
{
    String::from_utf8(bytes).ok()
}

/// Slices one section's bytes out of the object, as `spec_section_data`
/// describes.
fn section_data(code: &[u8], sec: &SectionRecord) -> (r: Result<Vec<u8>, BpfError>)
    ensures
        r is Ok <==> spec_section_data(code@, sec_model(*sec)) is Ok,
        r is Ok ==> r->Ok_0@ == spec_section_data(code@, sec_model(*sec))->Ok_0,
        r is Err ==> r->Err_0 == BpfError::MalformedObject,
{
    let len64 = code.len() as u64;
    if sec.offset > len64 || sec.size > len64 - sec.offset {
        return Err(BpfError::MalformedObject);
    }
    let start = sec.offset as usize;
    let end = start + sec.size as usize;
    Ok(slice_to_vec(slice_subrange(code, start, end)))
}

/// Decodes the license section, as `spec_license` describes.
fn parse_license(data: &[u8]) -> (r: Result<String, BpfError>)
    ensures
        r is Ok <==> spec_license(data@) is Ok,
        r is Ok ==> r->Ok_0@ == spec_license(data@)->Ok_0,
        r is Err ==> r->Err_0 == BpfError::MalformedObject,
{
    let n = data.len();
    if n == 0 {
        return Err(BpfError::MalformedObject);
    }
    if *slice_index_get(data, n - 1) != 0 {
        return Err(BpfError::MalformedObject);
    }
    let mut i: usize = 0;
    while i < n - 1
        invariant
            0 <= i <= n - 1,
            n == data@.len(),
            forall|t: int| 0 <= t < i ==> data@[t] != 0,
        decreases n - 1 - i,
    {
        if *slice_index_get(data, i) == 0 {
            return Err(BpfError::MalformedObject);
        }
        i = i + 1;
    }
    let content = slice_to_vec(slice_subrange(data, 0, n - 1));
    proof {
        assert(content@ =~= data@.take(data@.len() - 1));
    }
    match string_from_utf8(content) {
        Some(s) => Ok(s),
        None => Err(BpfError::MalformedObject),
    }
}

/// Decodes the version section, as `spec_version` describes.
fn parse_version(data: &[u8]) -> (r: Result<u32, BpfError>)
    ensures
        r is Ok <==> spec_version(data@) is Ok,
        r is Ok ==> r->Ok_0 == spec_version(data@)->Ok_0,
        r is Err ==> r->Err_0 == BpfError::MalformedObject,
{
    if data.len() < 4 {
        return Err(BpfError::MalformedObject);
    }
    Ok(u32_from_le_bytes(slice_subrange(data, 0, 4)))
}

/// Whether a map of this name was already collected.
fn map_name_taken(out: &Vec<MapSymbol>, nm: &String) -> (r: bool)
    ensures
        r == spec_map_name_taken(out@.map_values(|m: MapSymbol| map_sym_model(m)), nm@),
{
    let n = out.len();
    let ghost models = out@.map_values(|m: MapSymbol| map_sym_model(m));
    let mut t: usize = 0;
    while t < n
        invariant
            0 <= t <= n,
            n == out@.len(),
            models == out@.map_values(|m: MapSymbol| map_sym_model(m)),
            forall|q: int| 0 <= q < t ==> (#[trigger] out@[q]).def.name@ != nm@,
        decreases n - t,
    {
        if out[t].def.name == *nm {
            proof {
                assert(models[t as int].name == nm@);
            }
            return true;
        }
        t = t + 1;
    }
    proof {
        assert forall|q: int| 0 <= q < n implies #[trigger] models[q].name != nm@ by {
            assert(models[q] == map_sym_model(out@[q]));
        }
    }
    false
}

/// Whether a program of this name was already collected.
fn prog_name_taken(out: &Vec<ProgRecord>, nm: &String) -> (r: bool)
    ensures
        r == spec_prog_name_taken(out@.map_values(|p: ProgRecord| prog_model(p)), nm@),
{
    let n = out.len();
    let ghost models = out@.map_values(|p: ProgRecord| prog_model(p));
    let mut t: usize = 0;
    while t < n
        invariant
            0 <= t <= n,
            n == out@.len(),
            models == out@.map_values(|p: ProgRecord| prog_model(p)),
            forall|q: int| 0 <= q < t ==> (#[trigger] out@[q]).name@ != nm@,
        decreases n - t,
    {
        if out[t].name == *nm {
            proof {
                assert(models[t as int].name == nm@);
            }
            return true;
        }
        t = t + 1;
    }
    proof {
        assert forall|q: int| 0 <= q < n implies #[trigger] models[q].name != nm@ by {
            assert(models[q] == prog_model(out@[q]));
        }
    }
    false
}

/// Extends the map list with the global map symbols of one `maps`
/// section, decoding each definition, as `spec_maps_upto` over the
/// whole symbol table describes.
fn collect_map_symbols(
    syms: &Vec<SymRecord>,
    shndx: usize,
    data: &[u8],
    out: &mut Vec<MapSymbol>,
) -> (r: Result<(), BpfError>)
    ensures
        ({
            let msyms = syms@.map_values(|s: SymRecord| sym_model(s));
            let acc0 = old(out)@.map_values(|m: MapSymbol| map_sym_model(m));
            let full = spec_maps_upto(msyms, shndx as int, data@, acc0, msyms.len() as int);
            &&& r is Ok <==> full is Ok
            &&& r is Ok ==> final(out)@.map_values(|m: MapSymbol| map_sym_model(m)) == full->Ok_0
            &&& r is Err ==> r->Err_0 == full->Err_0
        }),
{
    let ghost msyms = syms@.map_values(|s: SymRecord| sym_model(s));
    let ghost acc0 = old(out)@.map_values(|m: MapSymbol| map_sym_model(m));
    let n = syms.len();
    let mut j: usize = 0;
    while j < n
        invariant
            0 <= j <= n,
            n == syms@.len(),
            msyms == syms@.map_values(|s: SymRecord| sym_model(s)),
            acc0 == old(out)@.map_values(|m: MapSymbol| map_sym_model(m)),
            spec_maps_upto(msyms, shndx as int, data@, acc0, j as int) == Ok::<
                Seq<MapSymModel>,
                BpfError,
            >(out@.map_values(|m: MapSymbol| map_sym_model(m))),
        decreases n - j,
    {
        let s = &syms[j];
        proof {
            assert(msyms[j as int] == sym_model(syms@[j as int]));
        }
        let relevant = s.shndx == shndx && (s.info >> 4) == STB_GLOBAL;
        if relevant {
            match &s.name {
                None => {
                    proof {
                        assert(spec_maps_upto(msyms, shndx as int, data@, acc0, j + 1) is Err);
                        lemma_maps_err_stable(msyms, shndx as int, data@, acc0, j + 1, n as int);
                    }
                    return Err(BpfError::MalformedObject);
                },
                Some(nm) => {
                    let len64 = data.len() as u64;
                    if s.value > len64 {
                        proof {
                            assert(spec_maps_upto(msyms, shndx as int, data@, acc0, j + 1) is Err);
                            lemma_maps_err_stable(
                                msyms,
                                shndx as int,
                                data@,
                                acc0,
                                j + 1,
                                n as int,
                            );
                        }
                        return Err(BpfError::TruncatedInput);
                    }
                    let v = s.value as usize;
                    proof {
                        assert(v == s.value as int);
                    }
                    match MapDefinition::parse(nm.as_str(), slice_subrange(data, v, data.len())) {
                        Err(e) => {
                            proof {
                                assert(s.value + DEF_SIZE > data@.len());
                                assert(spec_maps_upto(
                                    msyms,
                                    shndx as int,
                                    data@,
                                    acc0,
                                    j + 1,
                                ) is Err);
                                lemma_maps_err_stable(
                                    msyms,
                                    shndx as int,
                                    data@,
                                    acc0,
                                    j + 1,
                                    n as int,
                                );
                            }
                            return Err(e);
                        },
                        Ok(def) => {
                            if map_name_taken(&out, nm) {
                                proof {
                                    assert(spec_maps_upto(
                                        msyms,
                                        shndx as int,
                                        data@,
                                        acc0,
                                        j + 1,
                                    ) is Err);
                                    lemma_maps_err_stable(
                                        msyms,
                                        shndx as int,
                                        data@,
                                        acc0,
                                        j + 1,
                                        n as int,
                                    );
                                }
                                return Err(BpfError::MalformedObject);
                            }
                            proof {
                                let sub = data@.subrange(v as int, data@.len() as int);
                                assert(sub.subrange(0, 4) =~= data@.subrange(v as int, v + 4));
                                assert(sub.subrange(4, 8) =~= data@.subrange(v + 4, v + 8));
                                assert(sub.subrange(8, 12) =~= data@.subrange(v + 8, v + 12));
                                assert(sub.subrange(12, 16) =~= data@.subrange(v + 12, v + 16));
                                assert(sub.subrange(16, 20) =~= data@.subrange(v + 16, v + 20));
                                assert(map_sym_model(MapSymbol { sym_index: j, def })
                                    == spec_map_def_model(j as int, msyms[j as int], data@));
                                assert(out@.push(MapSymbol { sym_index: j, def }).map_values(
                                    |m: MapSymbol| map_sym_model(m),
                                ) =~= out@.map_values(|m: MapSymbol| map_sym_model(m)).push(
                                    spec_map_def_model(j as int, msyms[j as int], data@),
                                ));
                            }
                            out.push(MapSymbol { sym_index: j, def });
                        },
                    }
                },
            }
        }
        j = j + 1;
    }
    Ok(())
}

/// Collects the relocation entries that apply to one section, as
/// `spec_relocs_for` describes.
fn collect_relocs(relocs: &Vec<RelocRecord>, sections: &Vec<SectionRecord>, shndx: usize) -> (r:
    Vec<RelocEntry>)
    ensures
        r@ == spec_relocs_for(
            relocs@,
            sections@.map_values(|s: SectionRecord| sec_model(s)),
            shndx as int,
            relocs@.len() as int,
        ),
{
    let ghost msec = sections@.map_values(|s: SectionRecord| sec_model(s));
    let n = relocs.len();
    let mut out: Vec<RelocEntry> = Vec::new();
    let mut k: usize = 0;
    while k < n
        invariant
            0 <= k <= n,
            n == relocs@.len(),
            msec == sections@.map_values(|s: SectionRecord| sec_model(s)),
            out@ == spec_relocs_for(relocs@, msec, shndx as int, k as int),
        decreases n - k,
    {
        let rr = relocs[k];
        if rr.shdr_index < sections.len() && sections[rr.shdr_index].info == shndx as u32 {
            proof {
                assert(msec[rr.shdr_index as int] == sec_model(sections@[rr.shdr_index as int]));
            }
            out.push(RelocEntry { offset: rr.offset, sym: rr.sym });
        } else {
            proof {
                if rr.shdr_index < sections@.len() {
                    assert(msec[rr.shdr_index as int] == sec_model(
                        sections@[rr.shdr_index as int],
                    ));
                }
            }
        }
        k = k + 1;
    }
    out
}

/// Copies a relocation list (each program record owns its own).
fn copy_relocs(v: &Vec<RelocEntry>) -> (r: Vec<RelocEntry>)
    ensures
        r@ == v@,
{
    let mut out: Vec<RelocEntry> = Vec::new();
    let mut i: usize = 0;
    while i < v.len()
        invariant
            0 <= i <= v@.len(),
            out@ == v@.take(i as int),
        decreases v@.len() - i,
    {
        out.push(v[i]);
        proof {
            assert(out@ =~= v@.take(i + 1));
        }
        i = i + 1;
    }
    proof {
        assert(v@.take(v@.len() as int) =~= v@);
    }
    out
}

/// Extends the program list with the programs of one `socketfilters`
/// section, as `spec_progs_upto` over the whole symbol table describes.
fn collect_progs(
    syms: &Vec<SymRecord>,
    shndx: usize,
    data: &[u8],
    rel: &Vec<RelocEntry>,
    out: &mut Vec<ProgRecord>,
) -> (r: Result<(), BpfError>)
    ensures
        ({
            let msyms = syms@.map_values(|s: SymRecord| sym_model(s));
            let acc0 = old(out)@.map_values(|p: ProgRecord| prog_model(p));
            let full = spec_progs_upto(msyms, shndx as int, data@, rel@, acc0, msyms.len() as int);
            &&& r is Ok <==> full is Ok
            &&& r is Ok ==> final(out)@.map_values(|p: ProgRecord| prog_model(p)) == full->Ok_0
            &&& r is Err ==> r->Err_0 == full->Err_0
        }),
{
    let ghost msyms = syms@.map_values(|s: SymRecord| sym_model(s));
    let ghost acc0 = old(out)@.map_values(|p: ProgRecord| prog_model(p));
    let n = syms.len();
    let mut j: usize = 0;
    while j < n
        invariant
            0 <= j <= n,
            n == syms@.len(),
            msyms == syms@.map_values(|s: SymRecord| sym_model(s)),
            acc0 == old(out)@.map_values(|p: ProgRecord| prog_model(p)),
            spec_progs_upto(msyms, shndx as int, data@, rel@, acc0, j as int) == Ok::<
                Seq<ProgModel>,
                BpfError,
            >(out@.map_values(|p: ProgRecord| prog_model(p))),
        decreases n - j,
    {
        let s = &syms[j];
        proof {
            assert(msyms[j as int] == sym_model(syms@[j as int]));
        }
        let relevant = s.shndx == shndx && (s.info >> 4) == STB_GLOBAL;
        if relevant {
            match &s.name {
                None => {
                    proof {
                        assert(spec_progs_upto(
                            msyms,
                            shndx as int,
                            data@,
                            rel@,
                            acc0,
                            j + 1,
                        ) is Err);
                        lemma_progs_err_stable(
                            msyms,
                            shndx as int,
                            data@,
                            rel@,
                            acc0,
                            j + 1,
                            n as int,
                        );
                    }
                    return Err(BpfError::MalformedObject);
                },
                Some(nm) => {
                    if prog_name_taken(out, nm) {
                        proof {
                            assert(spec_progs_upto(
                                msyms,
                                shndx as int,
                                data@,
                                rel@,
                                acc0,
                                j + 1,
                            ) is Err);
                            lemma_progs_err_stable(
                                msyms,
                                shndx as int,
                                data@,
                                rel@,
                                acc0,
                                j + 1,
                                n as int,
                            );
                        }
                        return Err(BpfError::MalformedObject);
                    }
                    let rec = ProgRecord {
                        name: nm.clone(),
                        kind: BPF_PROG_TYPE_SOCKET_FILTER,
                        data: slice_to_vec(data),
                        relocs: copy_relocs(rel),
                    };
                    proof {
                        assert(prog_model(rec) == ProgModel {
                            name: msyms[j as int].name->0,
                            kind: BPF_PROG_TYPE_SOCKET_FILTER,
                            data: data@,
                            relocs: rel@,
                        });
                        assert(out@.push(rec).map_values(|p: ProgRecord| prog_model(p))
                            =~= out@.map_values(|p: ProgRecord| prog_model(p)).push(
                            prog_model(rec),
                        ));
                    }
                    out.push(rec);
                },
            }
        }
        j = j + 1;
    }
    Ok(())
}

/// Scans a whole image against the object's bytes, section by section,
/// exactly as `spec_scan_image` describes: classification by reserved
/// name, with the mandatory license and version checked at the end.
pub fn scan_image(img: &ElfImage, code: &[u8]) -> (r: Result<ScannedObject, BpfError>)
    ensures
        r is Ok <==> spec_scan_image(*img, code@) is Ok,
        r is Ok ==> scanned_model(r->Ok_0) == spec_scan_image(*img, code@)->Ok_0,
        r is Err ==> r->Err_0 == spec_scan_image(*img, code@)->Err_0,
{
    let ghost sections = img.sections@.map_values(|s: SectionRecord| sec_model(s));
    let ghost gsyms = img.syms@.map_values(|s: SymRecord| sym_model(s));
    let ghost grelocs = img.relocs@;
    let nsec = img.sections.len();
    let mut license: String = String::new();
    let mut version: u32 = 0;
    let mut lic_seen: bool = false;
    let mut ver_seen: bool = false;
    let mut maps: Vec<MapSymbol> = Vec::new();
    let mut progs: Vec<ProgRecord> = Vec::new();
    let mut i: usize = 0;
    proof {
        assert(maps@.map_values(|m: MapSymbol| map_sym_model(m)) =~= Seq::<MapSymModel>::empty());
        assert(progs@.map_values(|p: ProgRecord| prog_model(p)) =~= Seq::<ProgModel>::empty());
    }
    let lic_name: String = "license".to_owned();
    let ver_name: String = "version".to_owned();
    let maps_name: String = "maps".to_owned();
    let progs_name: String = "socketfilters".to_owned();
    while i < nsec
        invariant
            0 <= i <= nsec,
            nsec == sections.len(),
            sections == img.sections@.map_values(|s: SectionRecord| sec_model(s)),
            gsyms == img.syms@.map_values(|s: SymRecord| sym_model(s)),
            grelocs == img.relocs@,
            lic_name@ == "license"@,
            ver_name@ == "version"@,
            maps_name@ == "maps"@,
            progs_name@ == "socketfilters"@,
            spec_scan_upto(sections, gsyms, grelocs, code@, i as int) == Ok::<ScanModel, BpfError>(
                ScanModel {
                    license: license@,
                    version: version,
                    maps: maps@.map_values(|m: MapSymbol| map_sym_model(m)),
                    progs: progs@.map_values(|p: ProgRecord| prog_model(p)),
                    has_license: lic_seen,
                    has_version: ver_seen,
                },
            ),
        decreases nsec - i,
    {
        let sec = &img.sections[i];
        proof {
            assert(sections[i as int] == sec_model(img.sections@[i as int]));
        }
        match &sec.name {
            None => {
                proof {
                    lemma_scan_err_stable(sections, gsyms, grelocs, code@, i + 1, nsec as int);
                }
                return Err(BpfError::MalformedObject);
            },
            Some(nm) => {
                if *nm == lic_name {
                    let data = match section_data(code, sec) {
                        Err(e) => {
                            proof {
                                lemma_scan_err_stable(
                                    sections,
                                    gsyms,
                                    grelocs,
                                    code@,
                                    i + 1,
                                    nsec as int,
                                );
                            }
                            return Err(e);
                        },
                        Ok(d) => d,
                    };
                    match parse_license(data.as_slice()) {
                        Err(e) => {
                            proof {
                                lemma_scan_err_stable(
                                    sections,
                                    gsyms,
                                    grelocs,
                                    code@,
                                    i + 1,
                                    nsec as int,
                                );
                            }
                            return Err(e);
                        },
                        Ok(s) => {
                            license = s;
                            lic_seen = true;
                        },
                    }
                } else if *nm == ver_name {
                    let data = match section_data(code, sec) {
                        Err(e) => {
                            proof {
                                lemma_scan_err_stable(
                                    sections,
                                    gsyms,
                                    grelocs,
                                    code@,
                                    i + 1,
                                    nsec as int,
                                );
                            }
                            return Err(e);
                        },
                        Ok(d) => d,
                    };
                    match parse_version(data.as_slice()) {
                        Err(e) => {
                            proof {
                                lemma_scan_err_stable(
                                    sections,
                                    gsyms,
                                    grelocs,
                                    code@,
                                    i + 1,
                                    nsec as int,
                                );
                            }
                            return Err(e);
                        },
                        Ok(v) => {
                            version = v;
                            ver_seen = true;
                        },
                    }
                } else if *nm == maps_name {
                    let data = match section_data(code, sec) {
                        Err(e) => {
                            proof {
                                lemma_scan_err_stable(
                                    sections,
                                    gsyms,
                                    grelocs,
                                    code@,
                                    i + 1,
                                    nsec as int,
                                );
                            }
                            return Err(e);
                        },
                        Ok(d) => d,
                    };
                    match collect_map_symbols(&img.syms, i, data.as_slice(), &mut maps) {
                        Err(e) => {
                            proof {
                                lemma_scan_err_stable(
                                    sections,
                                    gsyms,
                                    grelocs,
                                    code@,
                                    i + 1,
                                    nsec as int,
                                );
                            }
                            return Err(e);
                        },
                        Ok(()) => {},
                    }
                } else if *nm == progs_name {
                    let data = match section_data(code, sec) {
                        Err(e) => {
                            proof {
                                lemma_scan_err_stable(
                                    sections,
                                    gsyms,
                                    grelocs,
                                    code@,
                                    i + 1,
                                    nsec as int,
                                );
                            }
                            return Err(e);
                        },
                        Ok(d) => d,
                    };
                    let rel = collect_relocs(&img.relocs, &img.sections, i);
                    match collect_progs(&img.syms, i, data.as_slice(), &rel, &mut progs) {
                        Err(e) => {
                            proof {
                                lemma_scan_err_stable(
                                    sections,
                                    gsyms,
                                    grelocs,
                                    code@,
                                    i + 1,
                                    nsec as int,
                                );
                            }
                            return Err(e);
                        },
                        Ok(()) => {},
                    }
                }
            },
        }
        i = i + 1;
    }
    if !lic_seen || !ver_seen {
        return Err(BpfError::MalformedObject);
    }
    Ok(ScannedObject { license, version, maps, progs })
}

} // verus!
