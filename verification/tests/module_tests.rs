use std::collections::HashSet;

use bpf::elf::{ElfImage, RelocRecord, SectionRecord, SymRecord};
use bpf::map::MapDefinition;
use bpf::module::{parse_object, KernelAction, Module, ModuleBuilder};
use bpf::reloc::RelocEntry;
use bpf::scan::{scan_image, MapSymbol, ProgRecord, ScannedObject};
use bpf::BpfError;

fn named_def(name: &str) -> MapDefinition {
    MapDefinition {
        name: name.to_string(),
        map_type: 2,
        key_size: 4,
        value_size: 8,
        max_entries: 10,
        map_flags: 0,
    }
}

/// A stand-in for the kernel BPF interface: hands out descriptors,
/// remembers which are open, and can be told to reject the n-th
/// map-create or program-load.
struct FakeKernel {
    next_fd: i32,
    open: HashSet<i32>,
    creates: usize,
    fail_create_at: Option<usize>,
    loads: usize,
    fail_load_at: Option<usize>,
}

impl FakeKernel {
    fn new(first_fd: i32) -> FakeKernel {
        FakeKernel {
            next_fd: first_fd,
            open: HashSet::new(),
            creates: 0,
            fail_create_at: None,
            loads: 0,
            fail_load_at: None,
        }
    }

    fn grant(&mut self) -> i32 {
        let fd = self.next_fd;
        self.next_fd += 1;
        self.open.insert(fd);
        fd
    }

    fn create_map(&mut self) -> Result<i32, i32> {
        self.creates += 1;
        if self.fail_create_at == Some(self.creates) {
            return Err(22);
        }
        Ok(self.grant())
    }

    fn prog_load(&mut self) -> Result<i32, i32> {
        self.loads += 1;
        if self.fail_load_at == Some(self.loads) {
            return Err(13);
        }
        Ok(self.grant())
    }

    fn close(&mut self, fd: i32) {
        assert!(self.open.remove(&fd), "closing a descriptor that is not open: {}", fd);
    }
}

/// The assembly loop a real caller runs: perform each requested kernel
/// call, report the outcome back, and on any failure close every
/// descriptor the builder holds.
fn drive(scanned: ScannedObject, kernel: &mut FakeKernel) -> Result<Module, BpfError> {
    let mut builder = ModuleBuilder::new(scanned);
    loop {
        match builder.next_action() {
            Err(e) => {
                for fd in builder.open_fds() {
                    kernel.close(fd);
                }
                return Err(e);
            },
            Ok(None) => break,
            Ok(Some(KernelAction::CreateMap { def: _def })) => match kernel.create_map() {
                Ok(fd) => builder.map_created(fd),
                Err(errno) => {
                    for fd in builder.open_fds() {
                        kernel.close(fd);
                    }
                    return Err(BpfError::KernelRejected(errno));
                },
            },
            Ok(Some(KernelAction::LoadProgram { prog, .. })) => match kernel.prog_load() {
                Ok(fd) => builder.prog_loaded(prog, fd),
                Err(errno) => {
                    for fd in builder.open_fds() {
                        kernel.close(fd);
                    }
                    return Err(BpfError::KernelRejected(errno));
                },
            },
        }
    }
    Ok(builder.finish())
}

#[test]
fn unresolved_relocation_fails_and_leaks_nothing() {
    let scanned = ScannedObject {
        license: "GPL".to_string(),
        version: 1,
        maps: vec![MapSymbol { sym_index: 1, def: named_def("counters") }],
        progs: vec![ProgRecord {
            name: "filter".to_string(),
            kind: 1,
            data: vec![0u8; 16],
            relocs: vec![RelocEntry { offset: 0, sym: 9 }],
        }],
    };
    let mut kernel = FakeKernel::new(10);
    let r = drive(scanned, &mut kernel);
    assert_eq!(r.err(), Some(BpfError::UnresolvedMapSymbol));
    assert!(kernel.open.is_empty(), "descriptors left open: {:?}", kernel.open);
    assert_eq!(kernel.creates, 1);
}

#[test]
fn second_map_creation_failure_releases_the_first() {
    let scanned = ScannedObject {
        license: "GPL".to_string(),
        version: 1,
        maps: vec![
            MapSymbol { sym_index: 1, def: named_def("one") },
            MapSymbol { sym_index: 2, def: named_def("two") },
        ],
        progs: vec![],
    };
    let mut kernel = FakeKernel::new(10);
    kernel.fail_create_at = Some(2);
    let r = drive(scanned, &mut kernel);
    assert_eq!(r.err(), Some(BpfError::KernelRejected(22)));
    assert!(kernel.open.is_empty(), "descriptors left open: {:?}", kernel.open);
    assert_eq!(kernel.creates, 2);
}

#[test]
fn program_load_failure_releases_every_map() {
    let scanned = ScannedObject {
        license: "GPL".to_string(),
        version: 1,
        maps: vec![MapSymbol { sym_index: 1, def: named_def("counters") }],
        progs: vec![ProgRecord {
            name: "filter".to_string(),
            kind: 1,
            data: vec![0u8; 8],
            relocs: vec![RelocEntry { offset: 0, sym: 1 }],
        }],
    };
    let mut kernel = FakeKernel::new(10);
    kernel.fail_load_at = Some(1);
    let r = drive(scanned, &mut kernel);
    assert_eq!(r.err(), Some(BpfError::KernelRejected(13)));
    assert!(kernel.open.is_empty(), "descriptors left open: {:?}", kernel.open);
}

#[test]
fn misaligned_program_section_fails_assembly() {
    let scanned = ScannedObject {
        license: "GPL".to_string(),
        version: 1,
        maps: vec![],
        progs: vec![ProgRecord {
            name: "filter".to_string(),
            kind: 1,
            data: vec![0u8; 12],
            relocs: vec![],
        }],
    };
    let mut kernel = FakeKernel::new(10);
    let r = drive(scanned, &mut kernel);
    assert_eq!(r.err(), Some(BpfError::MalformedObject));
    assert!(kernel.open.is_empty());
}

// ---- a minimal 64-bit little-endian relocatable object, by hand ----

struct SectionSpec {
    name_off: u32,
    sh_type: u32,
    data: Vec<u8>,
    link: u32,
    info: u32,
    entsize: u64,
}

fn build_object(sections: Vec<SectionSpec>, shstrndx: u16) -> Vec<u8> {
    let shnum = sections.len();
    let ehsize = 64usize;
    let mut offsets = Vec::new();
    let mut pos = ehsize;
    for s in &sections {
        offsets.push(pos);
        pos += s.data.len();
    }
    let shoff = pos;

    let mut out = Vec::new();
    // ELF header
    out.extend_from_slice(&[0x7f, b'E', b'L', b'F', 2, 1, 1, 0, 0, 0, 0, 0, 0, 0, 0, 0]);
    out.extend_from_slice(&1u16.to_le_bytes()); // e_type: relocatable
    out.extend_from_slice(&0xf7u16.to_le_bytes()); // e_machine
    out.extend_from_slice(&1u32.to_le_bytes()); // e_version
    out.extend_from_slice(&0u64.to_le_bytes()); // e_entry
    out.extend_from_slice(&0u64.to_le_bytes()); // e_phoff
    out.extend_from_slice(&(shoff as u64).to_le_bytes()); // e_shoff
    out.extend_from_slice(&0u32.to_le_bytes()); // e_flags
    out.extend_from_slice(&64u16.to_le_bytes()); // e_ehsize
    out.extend_from_slice(&0u16.to_le_bytes()); // e_phentsize
    out.extend_from_slice(&0u16.to_le_bytes()); // e_phnum
    out.extend_from_slice(&64u16.to_le_bytes()); // e_shentsize
    out.extend_from_slice(&(shnum as u16).to_le_bytes()); // e_shnum
    out.extend_from_slice(&shstrndx.to_le_bytes()); // e_shstrndx
    assert_eq!(out.len(), ehsize);
    // section data
    for s in &sections {
        out.extend_from_slice(&s.data);
    }
    // section headers
    for (i, s) in sections.iter().enumerate() {
        out.extend_from_slice(&s.name_off.to_le_bytes()); // sh_name
        out.extend_from_slice(&s.sh_type.to_le_bytes()); // sh_type
        out.extend_from_slice(&0u64.to_le_bytes()); // sh_flags
        out.extend_from_slice(&0u64.to_le_bytes()); // sh_addr
        out.extend_from_slice(&(offsets[i] as u64).to_le_bytes()); // sh_offset
        out.extend_from_slice(&(s.data.len() as u64).to_le_bytes()); // sh_size
        out.extend_from_slice(&s.link.to_le_bytes()); // sh_link
        out.extend_from_slice(&s.info.to_le_bytes()); // sh_info
        out.extend_from_slice(&0u64.to_le_bytes()); // sh_addralign
        out.extend_from_slice(&s.entsize.to_le_bytes()); // sh_entsize
    }
    out
}

fn sym_entry(name_off: u32, info: u8, shndx: u16, value: u64) -> Vec<u8> {
    let mut e = Vec::new();
    e.extend_from_slice(&name_off.to_le_bytes());
    e.push(info);
    e.push(0); // st_other
    e.extend_from_slice(&shndx.to_le_bytes());
    e.extend_from_slice(&value.to_le_bytes());
    e.extend_from_slice(&0u64.to_le_bytes()); // st_size
    e
}

/// An object with license "GPL", version 1, one map symbol `counters`
/// and one `socketfilters` symbol `filter` whose single relocation
/// references `counters`.
fn gpl_object() -> Vec<u8> {
    gpl_object_with_reloc_sym(1)
}

/// The same object, with the relocation referencing an arbitrary
/// symbol-table index.
fn gpl_object_with_reloc_sym(reloc_sym: u64) -> Vec<u8> {
    // section name string table:
    // 0 "" | 1 "license" | 9 "version" | 17 "maps" | 22 "socketfilters"
    // | 36 ".relsocketfilters" | 54 ".symtab" | 62 ".strtab" | 70 ".shstrtab"
    let shstrtab = b"\0license\0version\0maps\0socketfilters\0.relsocketfilters\0.symtab\0.strtab\0.shstrtab\0".to_vec();
    // symbol string table: 0 "" | 1 "counters" | 10 "filter"
    let strtab = b"\0counters\0filter\0".to_vec();

    let mut maps_data = Vec::new();
    for v in [2u32, 4, 8, 10, 0] {
        maps_data.extend_from_slice(&v.to_le_bytes());
    }

    let mut symtab = Vec::new();
    symtab.extend_from_slice(&sym_entry(0, 0, 0, 0)); // null symbol
    symtab.extend_from_slice(&sym_entry(1, 0x10, 3, 0)); // counters: global, in maps
    symtab.extend_from_slice(&sym_entry(10, 0x10, 4, 0)); // filter: global, in socketfilters

    let mut rel = Vec::new();
    rel.extend_from_slice(&0u64.to_le_bytes()); // r_offset
    rel.extend_from_slice(&((reloc_sym << 32) | 1).to_le_bytes()); // r_info: sym, type 1

    build_object(
        vec![
            SectionSpec { name_off: 0, sh_type: 0, data: vec![], link: 0, info: 0, entsize: 0 },
            SectionSpec {
                name_off: 1,
                sh_type: 1,
                data: b"GPL\0".to_vec(),
                link: 0,
                info: 0,
                entsize: 0,
            },
            SectionSpec {
                name_off: 9,
                sh_type: 1,
                data: 1u32.to_le_bytes().to_vec(),
                link: 0,
                info: 0,
                entsize: 0,
            },
            SectionSpec { name_off: 17, sh_type: 1, data: maps_data, link: 0, info: 0, entsize: 0 },
            SectionSpec {
                name_off: 22,
                sh_type: 1,
                data: vec![0u8; 16],
                link: 0,
                info: 0,
                entsize: 0,
            },
            SectionSpec { name_off: 36, sh_type: 9, data: rel, link: 6, info: 4, entsize: 16 },
            SectionSpec { name_off: 54, sh_type: 2, data: symtab, link: 7, info: 1, entsize: 24 },
            SectionSpec { name_off: 62, sh_type: 3, data: strtab, link: 0, info: 0, entsize: 0 },
            SectionSpec { name_off: 70, sh_type: 3, data: shstrtab, link: 0, info: 0, entsize: 0 },
        ],
        8,
    )
}

#[test]
fn scan_extracts_license_version_maps_and_programs() {
    let code = gpl_object();
    let scanned = parse_object(&code).unwrap();
    assert_eq!(scanned.license, "GPL");
    assert_eq!(scanned.version, 1);
    assert_eq!(scanned.maps.len(), 1);
    assert_eq!(scanned.maps[0].sym_index, 1);
    assert_eq!(scanned.maps[0].def.name, "counters");
    assert_eq!(scanned.maps[0].def.map_type, 2);
    assert_eq!(scanned.maps[0].def.key_size, 4);
    assert_eq!(scanned.maps[0].def.value_size, 8);
    assert_eq!(scanned.maps[0].def.max_entries, 10);
    assert_eq!(scanned.maps[0].def.map_flags, 0);
    assert_eq!(scanned.progs.len(), 1);
    assert_eq!(scanned.progs[0].name, "filter");
    assert_eq!(scanned.progs[0].kind, 1);
    assert_eq!(scanned.progs[0].data.len(), 16);
    assert_eq!(scanned.progs[0].relocs, vec![RelocEntry { offset: 0, sym: 1 }]);
}

#[test]
fn end_to_end_assembly_relocates_and_loads() {
    let code = gpl_object();
    let scanned = parse_object(&code).unwrap();
    let mut kernel = FakeKernel::new(30);
    let module = drive(scanned, &mut kernel).unwrap();
    assert_eq!(module.license, "GPL");
    assert_eq!(module.version, 1);
    assert_eq!(module.maps.len(), 1);
    assert_eq!(module.maps[0].kind.name, "counters");
    let map_fd = module.maps[0].get_fd();
    assert_eq!(map_fd, 30);
    assert_eq!(module.programs.len(), 1);
    let program = &module.programs[0];
    assert_eq!(program.name, "filter");
    assert_eq!(program.kind, 1);
    // The relocated instruction: the pseudo-map-fd tag in the high
    // nibble of its second byte, and the created map's fd as immediate.
    let insns = program.prog.insns();
    assert_eq!(insns.len(), 2);
    assert_eq!(insns[0].code, 0x1000);
    assert_eq!(insns[0].k, map_fd as u32);
    assert_eq!(insns[1].code, 0);
    assert_eq!(insns[1].k, 0);
    // Both descriptors remain owned by the module; nothing was closed.
    assert_eq!(kernel.open.len(), 2);
}

#[test]
fn unresolved_relocation_in_a_real_object_leaks_nothing() {
    // The relocation references symbol 2 (the program symbol itself),
    // which is not in the map table.
    let code = gpl_object_with_reloc_sym(2);
    let scanned = parse_object(&code).unwrap();
    let mut kernel = FakeKernel::new(30);
    let r = drive(scanned, &mut kernel);
    assert_eq!(r.err(), Some(BpfError::UnresolvedMapSymbol));
    assert!(kernel.open.is_empty(), "descriptors left open: {:?}", kernel.open);
    assert_eq!(kernel.creates, 1);
}

#[test]
fn attach_filter_plans_the_socket_request() {
    let code = gpl_object();
    let scanned = parse_object(&code).unwrap();
    let mut kernel = FakeKernel::new(30);
    let module = drive(scanned, &mut kernel).unwrap();
    let req = module.programs[0].attach_filter(9);
    assert_eq!(req.socket_fd, 9);
    assert_eq!(req.prog_fd, module.programs[0].fd);
}

#[test]
fn parse_rejects_an_object_that_declares_no_version() {
    let mut code = gpl_object();
    // Blank out the version section's name (the third header's
    // sh_name): the section is then unrecognized and ignored, and the
    // object no longer declares a version.
    let shoff = u64::from_le_bytes(code[40..48].try_into().unwrap()) as usize;
    let pos = shoff + 2 * 64;
    code[pos..pos + 4].copy_from_slice(&0u32.to_le_bytes());
    let r = parse_object(&code);
    assert_eq!(r.err(), Some(BpfError::MalformedObject));
}

#[test]
fn garbage_bytes_are_a_malformed_object() {
    let r = parse_object(&[0u8; 10]);
    assert_eq!(r.err(), Some(BpfError::MalformedObject));
}

// ---- scanner behaviour on hand-built images ----

fn named(name: &str) -> Option<String> {
    Some(name.to_string())
}

#[test]
fn scan_rejects_license_without_nul() {
    let img = ElfImage {
        sections: vec![SectionRecord { name: named("license"), offset: 0, size: 3, info: 0 }],
        syms: vec![],
        relocs: vec![],
    };
    let r = scan_image(&img, b"GPL");
    assert_eq!(r.err(), Some(BpfError::MalformedObject));
}

#[test]
fn scan_rejects_license_with_interior_nul() {
    let img = ElfImage {
        sections: vec![SectionRecord { name: named("license"), offset: 0, size: 5, info: 0 }],
        syms: vec![],
        relocs: vec![],
    };
    let r = scan_image(&img, b"G\0PL\0");
    assert_eq!(r.err(), Some(BpfError::MalformedObject));
}

#[test]
fn scan_rejects_license_that_is_not_utf8() {
    let img = ElfImage {
        sections: vec![SectionRecord { name: named("license"), offset: 0, size: 3, info: 0 }],
        syms: vec![],
        relocs: vec![],
    };
    let r = scan_image(&img, &[0xff, 0xfe, 0]);
    assert_eq!(r.err(), Some(BpfError::MalformedObject));
}

#[test]
fn scan_keeps_the_last_of_two_version_sections() {
    let img = ElfImage {
        sections: vec![
            SectionRecord { name: named("license"), offset: 0, size: 2, info: 0 },
            SectionRecord { name: named("version"), offset: 2, size: 4, info: 0 },
            SectionRecord { name: named("version"), offset: 6, size: 4, info: 0 },
        ],
        syms: vec![],
        relocs: vec![],
    };
    let s = scan_image(&img, &[b'A', 0, 1, 0, 0, 0, 2, 0, 0, 0]).unwrap();
    assert_eq!(s.version, 2);
}

#[test]
fn scan_rejects_section_past_end_of_object() {
    let img = ElfImage {
        sections: vec![SectionRecord { name: named("version"), offset: 2, size: 4, info: 0 }],
        syms: vec![],
        relocs: vec![],
    };
    let r = scan_image(&img, &[1, 0, 0, 0, 0]);
    assert_eq!(r.err(), Some(BpfError::MalformedObject));
}

#[test]
fn scan_rejects_truncated_map_definition() {
    let img = ElfImage {
        sections: vec![SectionRecord { name: named("maps"), offset: 0, size: 12, info: 0 }],
        syms: vec![SymRecord { name: named("counters"), info: 0x10, shndx: 0, value: 0 }],
        relocs: vec![],
    };
    let r = scan_image(&img, &[0u8; 12]);
    assert_eq!(r.err(), Some(BpfError::TruncatedInput));
}

#[test]
fn scan_skips_local_symbols_and_unknown_sections() {
    let mut code = b"A\0".to_vec();
    code.extend_from_slice(&1u32.to_le_bytes());
    code.extend_from_slice(&[0u8; 20]);
    let img = ElfImage {
        sections: vec![
            SectionRecord { name: named("license"), offset: 0, size: 2, info: 0 },
            SectionRecord { name: named("version"), offset: 2, size: 4, info: 0 },
            SectionRecord { name: named("maps"), offset: 6, size: 20, info: 0 },
            SectionRecord { name: named("mystery"), offset: 0, size: 99, info: 0 },
        ],
        syms: vec![SymRecord { name: named("local"), info: 0x00, shndx: 2, value: 0 }],
        relocs: vec![],
    };
    let s = scan_image(&img, &code).unwrap();
    assert_eq!(s.maps.len(), 0);
    assert_eq!(s.progs.len(), 0);
    assert_eq!(s.license, "A");
    assert_eq!(s.version, 1);
}

#[test]
fn scan_rejects_an_object_without_a_license_section() {
    let img = ElfImage {
        sections: vec![SectionRecord { name: named("version"), offset: 0, size: 4, info: 0 }],
        syms: vec![],
        relocs: vec![],
    };
    let r = scan_image(&img, &[1, 0, 0, 0]);
    assert_eq!(r.err(), Some(BpfError::MalformedObject));
}

#[test]
fn scan_rejects_an_object_without_a_version_section() {
    let img = ElfImage {
        sections: vec![SectionRecord { name: named("license"), offset: 0, size: 2, info: 0 }],
        syms: vec![],
        relocs: vec![],
    };
    let r = scan_image(&img, b"A\0");
    assert_eq!(r.err(), Some(BpfError::MalformedObject));
}

#[test]
fn scan_rejects_two_maps_under_one_name() {
    let mut code = b"A\0".to_vec();
    code.extend_from_slice(&1u32.to_le_bytes());
    code.extend_from_slice(&[0u8; 40]);
    let img = ElfImage {
        sections: vec![
            SectionRecord { name: named("license"), offset: 0, size: 2, info: 0 },
            SectionRecord { name: named("version"), offset: 2, size: 4, info: 0 },
            SectionRecord { name: named("maps"), offset: 6, size: 40, info: 0 },
        ],
        syms: vec![
            SymRecord { name: named("counters"), info: 0x10, shndx: 2, value: 0 },
            SymRecord { name: named("counters"), info: 0x10, shndx: 2, value: 20 },
        ],
        relocs: vec![],
    };
    let r = scan_image(&img, &code);
    assert_eq!(r.err(), Some(BpfError::MalformedObject));
}

#[test]
fn scan_rejects_two_programs_under_one_name() {
    let mut code = b"A\0".to_vec();
    code.extend_from_slice(&1u32.to_le_bytes());
    code.extend_from_slice(&[0u8; 8]);
    let img = ElfImage {
        sections: vec![
            SectionRecord { name: named("license"), offset: 0, size: 2, info: 0 },
            SectionRecord { name: named("version"), offset: 2, size: 4, info: 0 },
            SectionRecord { name: named("socketfilters"), offset: 6, size: 8, info: 0 },
        ],
        syms: vec![
            SymRecord { name: named("filter"), info: 0x10, shndx: 2, value: 0 },
            SymRecord { name: named("filter"), info: 0x10, shndx: 2, value: 0 },
        ],
        relocs: vec![],
    };
    let r = scan_image(&img, &code);
    assert_eq!(r.err(), Some(BpfError::MalformedObject));
}

#[test]
fn scan_collects_only_relocations_targeting_the_program_section() {
    let mut code = b"A\0".to_vec();
    code.extend_from_slice(&1u32.to_le_bytes());
    code.extend_from_slice(&[0u8; 8]);
    let img = ElfImage {
        sections: vec![
            SectionRecord { name: named("license"), offset: 0, size: 2, info: 0 },
            SectionRecord { name: named("version"), offset: 2, size: 4, info: 0 },
            SectionRecord { name: named("socketfilters"), offset: 6, size: 8, info: 0 },
            SectionRecord { name: named("other"), offset: 0, size: 0, info: 7 },
            SectionRecord { name: named(".relsocketfilters"), offset: 0, size: 0, info: 2 },
        ],
        syms: vec![SymRecord { name: named("filter"), info: 0x10, shndx: 2, value: 0 }],
        relocs: vec![
            RelocRecord { shdr_index: 4, offset: 0, sym: 1 },
            RelocRecord { shdr_index: 3, offset: 4, sym: 2 },
            RelocRecord { shdr_index: 99, offset: 0, sym: 3 },
        ],
    };
    let s = scan_image(&img, &code).unwrap();
    assert_eq!(s.progs.len(), 1);
    // Only the entry whose relocation section applies to section 2
    // (the program section) is kept.
    assert_eq!(s.progs[0].relocs, vec![RelocEntry { offset: 0, sym: 1 }]);
}

#[test]
fn scan_fails_on_unresolved_section_name() {
    let img = ElfImage {
        sections: vec![SectionRecord { name: None, offset: 0, size: 0, info: 0 }],
        syms: vec![],
        relocs: vec![],
    };
    let r = scan_image(&img, &[]);
    assert_eq!(r.err(), Some(BpfError::MalformedObject));
}
