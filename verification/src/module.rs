//! Module assembly: the state machine that turns a scanned object into a
//! loaded module, one kernel request at a time.
//!
//! The caller owns the kernel: it asks `next_action` what to do, performs
//! the map-create or program-load it is handed, and reports the resulting
//! descriptor back. Every decision — which map to create next, how to
//! patch each program against the descriptors created so far, what to
//! load and in which order — is made here, in verified code. On any
//! failure the caller closes every descriptor in `open_fds`, so that a
//! failed parse leaves no kernel resource open.

use vstd::prelude::*;

use crate::BpfError;
use crate::elf::read_image;
use crate::elf::spec_elf_ok;
use crate::elf::spec_image_relocs;
use crate::elf::spec_image_sections;
use crate::elf::spec_image_syms;
use crate::insn::OP_SIZE;
use crate::insn::Prog;
use crate::insn::spec_ops_from_bytes;
use crate::map::MapDefinition;
use crate::map::MapHandle;
use crate::reloc::FdTable;
use crate::reloc::lemma_lookup_is_member;
use crate::reloc::relocate;
use crate::reloc::spec_lookup;
use crate::reloc::spec_relocate;
use crate::scan::ScanModel;
use crate::scan::ScannedObject;
use crate::scan::scan_image;
use crate::scan::scanned_model;
use crate::scan::spec_scan_image;
use crate::scan::spec_scan_model;

verus! {

/// The byte capacity of the diagnostic log buffer a caller hands to the
/// kernel program-load call.
pub const PROG_LOAD_LOG_CAPACITY: usize = 65536;

/// A loaded program: the kernel descriptor it owns, its program kind,
/// its ELF symbol name, and the instruction buffer it was loaded from
/// (kept for introspection, not reused).
#[derive(Debug)]
pub struct Program {
    pub name: String,
    pub fd: i32,
    pub kind: u32,
    pub prog: Prog,
}

/// The request to install a loaded program as a socket filter; the
/// caller issues the corresponding socket option call.
#[derive(Debug, Clone, Copy, PartialEq, Eq, Structural)]
pub struct AttachRequest {
    pub socket_fd: i32,
    pub prog_fd: i32,
}

impl Program {
    /// Plans attaching this program to the given socket.
    pub fn attach_filter(&self, fd: i32) -> (r: AttachRequest)
        ensures
            r.socket_fd == fd,
            r.prog_fd == self.fd,
    {
        AttachRequest { socket_fd: fd, prog_fd: self.fd }
    }
}

/// A fully assembled module: every map handle and program handle
/// produced from one object, plus its declared license and version.
#[derive(Debug)]
pub struct Module {
    pub programs: Vec<Program>,
    pub maps: Vec<MapHandle>,
    pub license: String,
    pub version: u32,
}

/// One kernel request during module assembly.
#[derive(Debug)]
pub enum KernelAction {
    /// Create the kernel map this definition describes.
    CreateMap { def: MapDefinition },
    /// Load this relocated program with the object's license and version.
    LoadProgram { name: String, kind: u32, prog: Prog, license: String, version: u32 },
}

/// Two definitions that describe the same map: equal name and equal
/// numeric fields.
pub open spec fn def_matches(a: MapDefinition, b: MapDefinition) -> bool {
    &&& a.name@ == b.name@
    &&& a.map_type == b.map_type
    &&& a.key_size == b.key_size
    &&& a.value_size == b.value_size
    &&& a.max_entries == b.max_entries
    &&& a.map_flags == b.map_flags
}

fn clone_def(d: &MapDefinition) -> (r: MapDefinition)
    ensures
        def_matches(r, *d),
{
    MapDefinition {
        name: d.name.clone(),
        map_type: d.map_type,
        key_size: d.key_size,
        value_size: d.value_size,
        max_entries: d.max_entries,
        map_flags: d.map_flags,
    }
}

/// The assembly state machine. Maps are created first, in symbol-table
/// order; once all of them exist, each program is relocated against the
/// descriptor table and loaded, in scan order. `granted` is the trace
/// of every descriptor the kernel has handed this assembly.
pub struct ModuleBuilder {
    pub scanned: ScannedObject,
    pub table: FdTable,
    pub maps: Vec<MapHandle>,
    pub programs: Vec<Program>,
    pub granted: Ghost<Seq<i32>>,
}

impl ModuleBuilder {
    /// The state invariant: one table entry per created map, recording
    /// exactly that map's symbol index and descriptor; programs only
    /// start loading once every map exists.
    pub open spec fn wf(&self) -> bool {
        &&& self.maps@.len() <= self.scanned.maps@.len()
        &&& self.table.entries@.len() == self.maps@.len()
        &&& (forall|i: int|
            0 <= i < self.maps@.len() ==> self.table.entries@[i] == (
                self.scanned.maps@[i].sym_index,
                self.maps@[i].fd,
            ))
        &&& (forall|i: int|
            0 <= i < self.maps@.len() ==> def_matches(
                self.maps@[i].kind,
                self.scanned.maps@[i].def,
            ))
        &&& self.programs@.len() <= self.scanned.progs@.len()
        &&& (forall|i: int|
            0 <= i < self.programs@.len() ==> #[trigger] self.programs@[i].name@
                == self.scanned.progs@[i].name@)
        &&& (self.programs@.len() > 0 ==> self.maps@.len() == self.scanned.maps@.len())
        &&& self.granted@ == self.maps@.map_values(|m: MapHandle| m.fd)
            + self.programs@.map_values(|p: Program| p.fd)
    }

    /// Starts assembling the given scan result: nothing created yet.
    pub fn new(scanned: ScannedObject) -> (b: ModuleBuilder)
        ensures
            b.wf(),
            b.scanned == scanned,
            b.maps@.len() == 0,
            b.programs@.len() == 0,
            b.table.entries@.len() == 0,
            b.granted@ == Seq::<i32>::empty(),
    {
        let b = ModuleBuilder {
            scanned,
            table: FdTable::new(),
            maps: Vec::new(),
            programs: Vec::new(),
            granted: Ghost(Seq::empty()),
        };
        proof {
            assert(b.granted@ =~= b.maps@.map_values(|m: MapHandle| m.fd) + b.programs@.map_values(
                |p: Program| p.fd,
            ));
        }
        b
    }

    /// The next kernel request: the next map to create while any remain;
    /// then each program in turn, relocated against the table built so
    /// far — a relocation that references an uncollected symbol fails
    /// here with `UnresolvedMapSymbol`, and one that yields a misaligned
    /// stream fails with `MalformedObject`; `None` once everything is
    /// loaded.
    pub fn next_action(&self) -> (r: Result<Option<KernelAction>, BpfError>)
        requires
            self.wf(),
        ensures
            self.maps@.len() < self.scanned.maps@.len() ==> (r matches Ok(a) && a matches Some(
                KernelAction::CreateMap { def },
            ) && def_matches(def, self.scanned.maps@[self.maps@.len() as int].def)),
            self.maps@.len() == self.scanned.maps@.len() && self.programs@.len()
                < self.scanned.progs@.len() ==> {
                let p = self.scanned.progs@[self.programs@.len() as int];
                match spec_relocate(p.data@, p.relocs@, self.table.entries@) {
                    Err(e) => r == Err::<Option<KernelAction>, BpfError>(e),
                    Ok(bytes) => if bytes.len() % (OP_SIZE as nat) == 0 {
                        r matches Ok(a) && a matches Some(
                            KernelAction::LoadProgram { name, kind, prog, license, version },
                        ) && name@ == p.name@ && kind == p.kind && prog@ == spec_ops_from_bytes(
                            bytes,
                        ) && license@ == self.scanned.license@ && version == self.scanned.version
                    } else {
                        r == Err::<Option<KernelAction>, BpfError>(BpfError::MalformedObject)
                    },
                }
            },
            self.maps@.len() == self.scanned.maps@.len() && self.programs@.len()
                >= self.scanned.progs@.len() ==> r == Ok::<Option<KernelAction>, BpfError>(None),
    {
        if self.maps.len() < self.scanned.maps.len() {
            let def = clone_def(&self.scanned.maps[self.maps.len()].def);
            return Ok(Some(KernelAction::CreateMap { def }));
        }
        if self.programs.len() < self.scanned.progs.len() {
            let p = &self.scanned.progs[self.programs.len()];
            let bytes = match relocate(p.data.as_slice(), &p.relocs, &self.table) {
                Err(e) => {
                    return Err(e);
                },
                Ok(b) => b,
            };
            let prog = match Prog::parse(bytes.as_slice()) {
                Err(e) => {
                    return Err(e);
                },
                Ok(pr) => pr,
            };
            return Ok(
                Some(
                    KernelAction::LoadProgram {
                        name: p.name.clone(),
                        kind: p.kind,
                        prog,
                        license: self.scanned.license.clone(),
                        version: self.scanned.version,
                    },
                ),
            );
        }
        Ok(None)
    }

    /// Records the descriptor the kernel returned for the map whose
    /// creation was last requested: the handle joins the module and the
    /// symbol-index table gains its entry.
    pub fn map_created(&mut self, fd: i32)
        requires
            old(self).wf(),
            old(self).maps@.len() < old(self).scanned.maps@.len(),
        ensures
            final(self).wf(),
            final(self).scanned == old(self).scanned,
            final(self).programs == old(self).programs,
            final(self).maps@.len() == old(self).maps@.len() + 1,
            final(self).maps@.subrange(0, old(self).maps@.len() as int) == old(self).maps@,
            final(self).maps@.last().fd == fd,
            def_matches(
                final(self).maps@.last().kind,
                old(self).scanned.maps@[old(self).maps@.len() as int].def,
            ),
            final(self).table.entries@ == old(self).table.entries@.push(
                (old(self).scanned.maps@[old(self).maps@.len() as int].sym_index, fd),
            ),
            final(self).granted@ == old(self).granted@.push(fd),
    {
        let idx = self.maps.len();
        let sym = self.scanned.maps[idx].sym_index;
        let def = clone_def(&self.scanned.maps[idx].def);
        self.table.insert(sym, fd);
        self.maps.push(MapHandle::new(fd, def));
        proof {
            self.granted@ = self.granted@.push(fd);
            assert(self.maps@.subrange(0, idx as int) =~= old(self).maps@);
            assert(old(self).programs@.len() == 0);
            assert(self.granted@ =~= self.maps@.map_values(|m: MapHandle| m.fd)
                + self.programs@.map_values(|p: Program| p.fd));
        }
    }

    /// Records the descriptor the kernel returned for the program whose
    /// load was last requested, together with the instruction buffer
    /// that was loaded.
    pub fn prog_loaded(&mut self, prog: Prog, fd: i32)
        requires
            old(self).wf(),
            old(self).maps@.len() == old(self).scanned.maps@.len(),
            old(self).programs@.len() < old(self).scanned.progs@.len(),
        ensures
            final(self).wf(),
            final(self).scanned == old(self).scanned,
            final(self).maps == old(self).maps,
            final(self).table == old(self).table,
            final(self).programs@.len() == old(self).programs@.len() + 1,
            final(self).programs@.subrange(0, old(self).programs@.len() as int) == old(
                self,
            ).programs@,
            final(self).programs@.last().fd == fd,
            final(self).programs@.last().prog == prog,
            final(self).programs@.last().name@ == old(self).scanned.progs@[old(
                self,
            ).programs@.len() as int].name@,
            final(self).programs@.last().kind == old(self).scanned.progs@[old(
                self,
            ).programs@.len() as int].kind,
            final(self).granted@ == old(self).granted@.push(fd),
    {
        let idx = self.programs.len();
        let name = self.scanned.progs[idx].name.clone();
        let kind = self.scanned.progs[idx].kind;
        self.programs.push(Program { name, fd, kind, prog });
        proof {
            self.granted@ = self.granted@.push(fd);
            assert(self.programs@.subrange(0, idx as int) =~= old(self).programs@);
            assert forall|i: int| 0 <= i < self.programs@.len() implies #[trigger] self.programs@[
                i
            ].name@ == self.scanned.progs@[i].name@ by {
                if i < idx {
                    assert(self.programs@[i] == old(self).programs@[i]);
                }
            }
            assert(self.granted@ =~= self.maps@.map_values(|m: MapHandle| m.fd)
                + self.programs@.map_values(|p: Program| p.fd));
        }
    }

    /// Every kernel descriptor this builder holds, maps first — which,
    /// by the state invariant, is every descriptor the kernel has ever
    /// handed this assembly. After a failure the caller closes each of
    /// these, so a failed parse leaks nothing.
    pub fn open_fds(&self) -> (r: Vec<i32>)
        ensures
            r@ == self.maps@.map_values(|m: MapHandle| m.fd) + self.programs@.map_values(
                |p: Program| p.fd,
            ),
            self.wf() ==> r@ == self.granted@,
    {
        let mut out: Vec<i32> = Vec::new();
        let mut i: usize = 0;
        proof {
            assert(out@ =~= self.maps@.take(0).map_values(|m: MapHandle| m.fd));
        }
        while i < self.maps.len()
            invariant
                0 <= i <= self.maps@.len(),
                out@ == self.maps@.take(i as int).map_values(|m: MapHandle| m.fd),
            decreases self.maps@.len() - i,
        {
            out.push(self.maps[i].fd);
            proof {
                assert(self.maps@.take(i + 1).map_values(|m: MapHandle| m.fd) =~= self.maps@.take(
                    i as int,
                ).map_values(|m: MapHandle| m.fd).push(self.maps@[i as int].fd));
            }
            i = i + 1;
        }
        proof {
            assert(self.maps@.take(self.maps@.len() as int) =~= self.maps@);
        }
        let mut j: usize = 0;
        while j < self.programs.len()
            invariant
                0 <= j <= self.programs@.len(),
                out@ == self.maps@.map_values(|m: MapHandle| m.fd) + self.programs@.take(
                    j as int,
                ).map_values(|p: Program| p.fd),
            decreases self.programs@.len() - j,
        {
            out.push(self.programs[j].fd);
            proof {
                assert(self.programs@.take(j + 1).map_values(|p: Program| p.fd)
                    =~= self.programs@.take(j as int).map_values(|p: Program| p.fd).push(
                    self.programs@[j as int].fd,
                ));
                assert(self.maps@.map_values(|m: MapHandle| m.fd) + self.programs@.take(
                    j + 1,
                ).map_values(|p: Program| p.fd) =~= (self.maps@.map_values(|m: MapHandle| m.fd)
                    + self.programs@.take(j as int).map_values(|p: Program| p.fd)).push(
                    self.programs@[j as int].fd,
                ));
            }
            j = j + 1;
        }
        proof {
            assert(self.programs@.take(self.programs@.len() as int) =~= self.programs@);
        }
        out
    }

    /// Whether every map has been created and every program loaded.
    pub fn is_done(&self) -> (r: bool)
        ensures
            r == (self.maps@.len() == self.scanned.maps@.len() && self.programs@.len()
                == self.scanned.progs@.len()),
    {
        self.maps.len() == self.scanned.maps.len() && self.programs.len()
            == self.scanned.progs.len()
    }

    /// Seals a completed assembly into the module that owns everything.
    pub fn finish(self) -> (m: Module)
        requires
            self.wf(),
            self.maps@.len() == self.scanned.maps@.len(),
            self.programs@.len() == self.scanned.progs@.len(),
        ensures
            m.programs == self.programs,
            m.maps == self.maps,
            m.license == self.scanned.license,
            m.version == self.scanned.version,
    {
        Module {
            programs: self.programs,
            maps: self.maps,
            license: self.scanned.license,
            version: self.scanned.version,
        }
    }
}

/// The outcome of parsing and scanning an object's bytes: the bytes the
/// ELF parser rejects are malformed; otherwise the result is exactly
/// the scan of the parse's named projections — its sections, symbols
/// and relocations.
pub open spec fn spec_parse_outcome(code: Seq<u8>) -> Result<ScanModel, BpfError> {
    if !spec_elf_ok(code) {
        Err(BpfError::MalformedObject)
    } else {
        spec_scan_model(
            spec_image_sections(code),
            spec_image_syms(code),
            spec_image_relocs(code),
            code,
        )
    }
}

/// Parses an ELF object and scans it: the license, version, map symbols
/// and program sections a `ModuleBuilder` assembles from, exactly as
/// `spec_parse_outcome` describes.
pub fn parse_object(code: &[u8]) -> (r: Result<ScannedObject, BpfError>)
    ensures
        r is Ok <==> spec_parse_outcome(code@) is Ok,
        r matches Ok(s) ==> scanned_model(s) == spec_parse_outcome(code@)->Ok_0,
        r is Err ==> r->Err_0 == spec_parse_outcome(code@)->Err_0,
{
    let img = match read_image(code) {
        Err(e) => {
            return Err(e);
        },
        Ok(i) => i,
    };
    proof {
        assert(spec_scan_image(img, code@) == spec_parse_outcome(code@));
    }
    let s = match scan_image(&img, code) {
        Err(e) => {
            return Err(e);
        },
        Ok(s) => s,
    };
    Ok(s)
}

/// Name uniqueness carries from the scan into a completed assembly: if
/// the scanned maps and programs bear pairwise-distinct names — as
/// every successful scan's do — then so do the assembled handles, one
/// handle per name.
pub proof fn lemma_module_names_unique(b: ModuleBuilder)
    requires
        b.wf(),
        b.maps@.len() == b.scanned.maps@.len(),
        b.programs@.len() == b.scanned.progs@.len(),
        forall|a: int, c: int|
            0 <= a < c < b.scanned.maps@.len() ==> b.scanned.maps@[a].def.name@
                != b.scanned.maps@[c].def.name@,
        forall|a: int, c: int|
            0 <= a < c < b.scanned.progs@.len() ==> b.scanned.progs@[a].name@
                != b.scanned.progs@[c].name@,
    ensures
        forall|a: int, c: int|
            0 <= a < c < b.maps@.len() ==> b.maps@[a].kind.name@ != b.maps@[c].kind.name@,
        forall|a: int, c: int|
            0 <= a < c < b.programs@.len() ==> b.programs@[a].name@ != b.programs@[c].name@,
{
    assert forall|a: int, c: int| 0 <= a < c < b.maps@.len() implies b.maps@[a].kind.name@
        != b.maps@[c].kind.name@ by {
        assert(def_matches(b.maps@[a].kind, b.scanned.maps@[a].def));
        assert(def_matches(b.maps@[c].kind, b.scanned.maps@[c].def));
    }
    assert forall|a: int, c: int| 0 <= a < c < b.programs@.len() implies b.programs@[a].name@
        != b.programs@[c].name@ by {
        assert(b.programs@[a].name@ == b.scanned.progs@[a].name@);
        assert(b.programs@[c].name@ == b.scanned.progs@[c].name@);
    }
}

/// The relationship a completed relocation rests on: any descriptor a
/// program's relocation can resolve against the builder's table is the
/// descriptor of a map that is already a member of the same assembly,
/// recorded under exactly that relocation's symbol index — maps are
/// created strictly before any program is loaded.
pub proof fn lemma_resolved_fd_is_member_map(b: ModuleBuilder, sym: usize)
    requires
        b.wf(),
    ensures
        spec_lookup(b.table.entries@, sym) matches Some(fd) ==> exists|i: int|
            0 <= i < b.maps@.len() && #[trigger] b.maps@[i].fd == fd
                && b.scanned.maps@[i].sym_index == sym,
{
    lemma_lookup_is_member(b.table.entries@, sym);
    if spec_lookup(b.table.entries@, sym) is Some {
        let fd = spec_lookup(b.table.entries@, sym)->0;
        let i = choose|i: int|
            0 <= i < b.table.entries@.len() && b.table.entries@[i] == (sym, fd);
        assert(b.table.entries@[i] == (b.scanned.maps@[i].sym_index, b.maps@[i].fd));
        assert(b.maps@[i].fd == fd && b.scanned.maps@[i].sym_index == sym);
    }
}

} // verus!
