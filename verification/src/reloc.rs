//! The relocation engine: rewrites the raw instruction bytes of a program
//! section so that every symbolic map reference becomes a kernel-valid
//! file-descriptor immediate.

use vstd::prelude::*;
use vstd::bytes::*;
use vstd::slice::*;

use crate::BpfError;

verus! {

/// The addressing-mode tag that marks an instruction's immediate as a map
/// file descriptor rather than a literal constant; it is OR'd into the
/// high nibble of the instruction's second byte.
pub const BPF_PSEUDO_MAP_FD: u8 = 1;

/// One ELF relocation entry targeting a program section: the byte offset
/// of the instruction to patch and the symbol-table index it references.
#[derive(Debug, Clone, Copy, PartialEq, Eq, Structural)]
pub struct RelocEntry {
    pub offset: u64,
    pub sym: usize,
}

/// The table from map-symbol index to the created map's file descriptor,
/// built incrementally as maps are created.
#[derive(Debug)]
pub struct FdTable {
    pub entries: Vec<(usize, i32)>,
}

/// First match wins: the descriptor recorded for a symbol index, if any.
pub open spec fn spec_lookup(entries: Seq<(usize, i32)>, sym: usize) -> Option<i32>
    decreases entries.len(),
{
    if entries.len() == 0 {
        None
    } else if entries[0].0 == sym {
        Some(entries[0].1)
    } else {
        spec_lookup(entries.drop_first(), sym)
    }
}

impl FdTable {
    pub fn new() -> (t: FdTable)
        ensures
            t.entries@ == Seq::<(usize, i32)>::empty(),
    {
        FdTable { entries: Vec::new() }
    }

    /// Records the descriptor the kernel returned for one map symbol.
    pub fn insert(&mut self, sym: usize, fd: i32)
        ensures
            final(self).entries@ == old(self).entries@.push((sym, fd)),
    {
        self.entries.push((sym, fd));
    }

    /// Looks a symbol index up, scanning in insertion order.
    pub fn lookup(&self, sym: usize) -> (r: Option<i32>)
        ensures
            r == spec_lookup(self.entries@, sym),
    {
        let n = self.entries.len();
        let mut i: usize = 0;
        proof {
            assert(self.entries@.skip(0) =~= self.entries@);
        }
        while i < n
            invariant
                0 <= i <= n,
                n == self.entries@.len(),
                spec_lookup(self.entries@, sym) == spec_lookup(self.entries@.skip(i as int), sym),
            decreases n - i,
        {
            let (s, fd) = self.entries[i];
            proof {
                let rest = self.entries@.skip(i as int);
                assert(rest[0] == self.entries@[i as int]);
                assert(rest.drop_first() =~= self.entries@.skip(i + 1));
            }
            if s == sym {
                return Some(fd);
            }
            i = i + 1;
        }
        proof {
            assert(self.entries@.skip(n as int) =~= Seq::<(usize, i32)>::empty());
        }
        None
    }
}

/// A resolved lookup names an entry of the table itself: the descriptor
/// it returns was recorded for exactly that symbol index.
pub proof fn lemma_lookup_is_member(entries: Seq<(usize, i32)>, sym: usize)
    ensures
        spec_lookup(entries, sym) matches Some(fd) ==> exists|i: int|
            0 <= i < entries.len() && #[trigger] entries[i] == (sym, fd),
    decreases entries.len(),
{
    if entries.len() == 0 {
    } else if entries[0].0 == sym {
        assert(entries[0] == (sym, entries[0].1));
    } else {
        lemma_lookup_is_member(entries.drop_first(), sym);
        if spec_lookup(entries, sym) is Some {
            let fd = spec_lookup(entries, sym)->0;
            let i = choose|i: int|
                0 <= i < entries.drop_first().len() && entries.drop_first()[i] == (sym, fd);
            assert(entries[i + 1] == (sym, fd));
        }
    }
}

/// One relocation patch: at the relocation's byte offset, the second byte
/// of the instruction gets the pseudo-map-fd tag OR'd into its high
/// nibble, and the 4-byte immediate field at offset + 4 is overwritten
/// with the descriptor, little-endian. All other bytes are unchanged.
pub open spec fn spec_apply_reloc(data: Seq<u8>, off: int, fd: i32) -> Seq<u8>
    recommends
        0 <= off,
        off + 8 <= data.len(),
{
    let fdb = spec_u32_to_le_bytes(fd as u32);
    data.update(off + 1, data[off + 1] | (BPF_PSEUDO_MAP_FD << 4)).update(off + 4, fdb[0]).update(
        off + 5,
        fdb[1],
    ).update(off + 6, fdb[2]).update(off + 7, fdb[3])
}

/// The outcome of applying a list of relocations in order: the first
/// entry whose symbol is absent from the table fails the whole patch with
/// `UnresolvedMapSymbol`; one whose instruction would reach past the end
/// of the buffer fails it with `MalformedObject`.
pub open spec fn spec_relocate(
    data: Seq<u8>,
    relocs: Seq<RelocEntry>,
    table: Seq<(usize, i32)>,
) -> Result<Seq<u8>, BpfError>
    decreases relocs.len(),
{
    if relocs.len() == 0 {
        Ok(data)
    } else {
        let r = relocs[0];
        match spec_lookup(table, r.sym) {
            None => Err(BpfError::UnresolvedMapSymbol),
            Some(fd) => if r.offset + 8 > data.len() {
                Err(BpfError::MalformedObject)
            } else {
                spec_relocate(spec_apply_reloc(data, r.offset as int, fd), relocs.drop_first(), table)
            },
        }
    }
}

/// Patching never changes the buffer's length.
pub proof fn lemma_relocate_len(data: Seq<u8>, relocs: Seq<RelocEntry>, table: Seq<(usize, i32)>)
    ensures
        spec_relocate(data, relocs, table) matches Ok(out) ==> out.len() == data.len(),
    decreases relocs.len(),
{
    if relocs.len() == 0 {
    } else {
        let r = relocs[0];
        match spec_lookup(table, r.sym) {
            None => {},
            Some(fd) => {
                if r.offset + 8 > data.len() {
                } else {
                    lemma_relocate_len(
                        spec_apply_reloc(data, r.offset as int, fd),
                        relocs.drop_first(),
                        table,
                    );
                }
            },
        }
    }
}

/// What one relocation does, byte for byte: with a single entry at offset
/// `o` resolving to descriptor `fd`, the patched buffer differs from the
/// input exactly in the tag OR'd into byte `o + 1` and the little-endian
/// descriptor in bytes `o + 4 .. o + 8`.
pub proof fn lemma_single_reloc_bytes(data: Seq<u8>, o: int, fd: i32)
    requires
        0 <= o,
        o + 8 <= data.len(),
    ensures
        spec_apply_reloc(data, o, fd).len() == data.len(),
        spec_apply_reloc(data, o, fd)[o + 1] == data[o + 1] | (BPF_PSEUDO_MAP_FD << 4),
        spec_apply_reloc(data, o, fd).subrange(o + 4, o + 8) == spec_u32_to_le_bytes(fd as u32),
        forall|i: int|
            0 <= i < data.len() && i != o + 1 && !(o + 4 <= i < o + 8)
                ==> spec_apply_reloc(data, o, fd)[i] == data[i],
{
    lemma_auto_spec_u32_to_from_le_bytes();
    assert(spec_apply_reloc(data, o, fd).subrange(o + 4, o + 8) =~= spec_u32_to_le_bytes(
        fd as u32,
    ));
}

/// Applies every relocation entry to a copy of the program bytes,
/// exactly as `spec_relocate` describes.
pub fn relocate(data: &[u8], relocs: &Vec<RelocEntry>, table: &FdTable) -> (r: Result<
    Vec<u8>,
    BpfError,
>)
    ensures
        r is Ok <==> spec_relocate(data@, relocs@, table.entries@) is Ok,
        r is Ok ==> r->Ok_0@ == spec_relocate(data@, relocs@, table.entries@)->Ok_0,
        r is Err ==> r->Err_0 == spec_relocate(data@, relocs@, table.entries@)->Err_0,
{
    let mut out: Vec<u8> = slice_to_vec(data);
    let n = relocs.len();
    let mut j: usize = 0;
    proof {
        assert(relocs@.skip(0) =~= relocs@);
    }
    while j < n
        invariant
            0 <= j <= n,
            n == relocs@.len(),
            spec_relocate(data@, relocs@, table.entries@) == spec_relocate(
                out@,
                relocs@.skip(j as int),
                table.entries@,
            ),
            out@.len() == data@.len(),
        decreases n - j,
    {
        let entry = relocs[j];
        proof {
            let rest = relocs@.skip(j as int);
            assert(rest[0] == relocs@[j as int]);
            assert(rest.drop_first() =~= relocs@.skip(j + 1));
        }
        let fd = match table.lookup(entry.sym) {
            None => {
                return Err(BpfError::UnresolvedMapSymbol);
            },
            Some(fd) => fd,
        };
        let len64 = out.len() as u64;
        if len64 < 8 || entry.offset > len64 - 8 {
            return Err(BpfError::MalformedObject);
        }
        let o = entry.offset as usize;
        let ghost before = out@;
        let tag = out[o + 1] | (BPF_PSEUDO_MAP_FD << 4);
        out[o + 1] = tag;
        let fdb = u32_to_le_bytes(fd as u32);
        out[o + 4] = fdb[0];
        out[o + 5] = fdb[1];
        out[o + 6] = fdb[2];
        out[o + 7] = fdb[3];
        proof {
            assert(out@ =~= spec_apply_reloc(before, o as int, fd));
        }
        j = j + 1;
    }
    proof {
        assert(relocs@.skip(n as int) =~= Seq::<RelocEntry>::empty());
    }
    Ok(out)
}

} // verus!
