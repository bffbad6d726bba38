//! Map definitions, map handles, and the bounded key-iteration protocol.
//!
//! A map handle owns the kernel file descriptor of one map together with
//! its decoded definition. The kernel syscalls themselves are performed by
//! the caller: the methods here validate their inputs and return the exact
//! request to issue, so that every decision is made in verified code.

use vstd::prelude::*;
use vstd::bytes::*;
use vstd::slice::*;

use crate::BpfError;

verus! {

/// The encoded size of a map definition: 5 little-endian 32-bit fields.
pub const DEF_SIZE: usize = 20;

/// The errno with which the kernel reports that a map holds no key after
/// the queried one; it ends key iteration cleanly.
pub const ENOENT: i32 = 2;

/// The fixed-layout metadata describing a kernel map to be created, plus
/// the ELF symbol name it was declared under.
#[derive(Debug, Clone)]
pub struct MapDefinition {
    pub name: String,
    pub map_type: u32,
    pub key_size: u32,
    pub value_size: u32,
    pub max_entries: u32,
    pub map_flags: u32,
}

/// The 20-byte little-endian encoding of a definition's five numeric
/// fields, in their fixed order.
pub open spec fn spec_def_fields_to_bytes(
    map_type: u32,
    key_size: u32,
    value_size: u32,
    max_entries: u32,
    map_flags: u32,
) -> Seq<u8> {
    spec_u32_to_le_bytes(map_type) + spec_u32_to_le_bytes(key_size) + spec_u32_to_le_bytes(
        value_size,
    ) + spec_u32_to_le_bytes(max_entries) + spec_u32_to_le_bytes(map_flags)
}

/// The encoding of a whole definition.
pub open spec fn spec_def_to_bytes(d: MapDefinition) -> Seq<u8> {
    spec_def_fields_to_bytes(d.map_type, d.key_size, d.value_size, d.max_entries, d.map_flags)
}

impl MapDefinition {
    /// Decodes exactly 20 bytes (5 little-endian u32 fields, in the order
    /// map type, key size, value size, max entries, map flags) plus a
    /// caller-supplied name into a definition. No range validation is
    /// performed here; that is the kernel's responsibility.
    pub fn parse(name: &str, code: &[u8]) -> (r: Result<MapDefinition, BpfError>)
        ensures
            r is Ok <==> code@.len() >= DEF_SIZE,
            r is Err ==> r->Err_0 == BpfError::TruncatedInput,
            r is Ok ==> {
                let d = r->Ok_0;
                &&& d.name@ == name@
                &&& d.map_type == spec_u32_from_le_bytes(code@.subrange(0, 4))
                &&& d.key_size == spec_u32_from_le_bytes(code@.subrange(4, 8))
                &&& d.value_size == spec_u32_from_le_bytes(code@.subrange(8, 12))
                &&& d.max_entries == spec_u32_from_le_bytes(code@.subrange(12, 16))
                &&& d.map_flags == spec_u32_from_le_bytes(code@.subrange(16, 20))
            },
    {
        if code.len() < DEF_SIZE {
            return Err(BpfError::TruncatedInput);
        }
        Ok(MapDefinition {
            name: name.to_owned(),
            map_type: u32_from_le_bytes(slice_subrange(code, 0, 4)),
            key_size: u32_from_le_bytes(slice_subrange(code, 4, 8)),
            value_size: u32_from_le_bytes(slice_subrange(code, 8, 12)),
            max_entries: u32_from_le_bytes(slice_subrange(code, 12, 16)),
            map_flags: u32_from_le_bytes(slice_subrange(code, 16, 20)),
        })
    }

    /// Re-encodes the five numeric fields into their 20-byte layout.
    pub fn encode(&self) -> (r: Vec<u8>)
        ensures
            r@ == spec_def_to_bytes(*self),
            r@.len() == DEF_SIZE,
    {
        let mut out: Vec<u8> = Vec::new();
        let mut b = u32_to_le_bytes(self.map_type);
        out.append(&mut b);
        let mut b = u32_to_le_bytes(self.key_size);
        out.append(&mut b);
        let mut b = u32_to_le_bytes(self.value_size);
        out.append(&mut b);
        let mut b = u32_to_le_bytes(self.max_entries);
        out.append(&mut b);
        let mut b = u32_to_le_bytes(self.map_flags);
        out.append(&mut b);
        proof {
            lemma_auto_spec_u32_to_from_le_bytes();
            assert(out@ =~= spec_def_to_bytes(*self));
        }
        out
    }
}

/// Decoding a 20-byte definition and re-encoding it reproduces those 20
/// bytes exactly; conversely, the encoding of any definition decodes to
/// its own fields.
pub proof fn lemma_def_round_trip(b: Seq<u8>)
    requires
        b.len() >= DEF_SIZE,
    ensures
        spec_def_fields_to_bytes(
            spec_u32_from_le_bytes(b.subrange(0, 4)),
            spec_u32_from_le_bytes(b.subrange(4, 8)),
            spec_u32_from_le_bytes(b.subrange(8, 12)),
            spec_u32_from_le_bytes(b.subrange(12, 16)),
            spec_u32_from_le_bytes(b.subrange(16, 20)),
        ) == b.subrange(0, DEF_SIZE as int),
{
    lemma_auto_spec_u32_to_from_le_bytes();
    assert(spec_def_fields_to_bytes(
        spec_u32_from_le_bytes(b.subrange(0, 4)),
        spec_u32_from_le_bytes(b.subrange(4, 8)),
        spec_u32_from_le_bytes(b.subrange(8, 12)),
        spec_u32_from_le_bytes(b.subrange(12, 16)),
        spec_u32_from_le_bytes(b.subrange(16, 20)),
    ) =~= b.subrange(0, DEF_SIZE as int));
}

/// The encoding of any definition decodes back to its own fields.
pub proof fn lemma_def_encode_decode(d: MapDefinition)
    ensures
        spec_def_to_bytes(d).len() == DEF_SIZE,
        spec_u32_from_le_bytes(spec_def_to_bytes(d).subrange(0, 4)) == d.map_type,
        spec_u32_from_le_bytes(spec_def_to_bytes(d).subrange(4, 8)) == d.key_size,
        spec_u32_from_le_bytes(spec_def_to_bytes(d).subrange(8, 12)) == d.value_size,
        spec_u32_from_le_bytes(spec_def_to_bytes(d).subrange(12, 16)) == d.max_entries,
        spec_u32_from_le_bytes(spec_def_to_bytes(d).subrange(16, 20)) == d.map_flags,
{
    lemma_auto_spec_u32_to_from_le_bytes();
    let b = spec_def_to_bytes(d);
    assert(b.subrange(0, 4) =~= spec_u32_to_le_bytes(d.map_type));
    assert(b.subrange(4, 8) =~= spec_u32_to_le_bytes(d.key_size));
    assert(b.subrange(8, 12) =~= spec_u32_to_le_bytes(d.value_size));
    assert(b.subrange(12, 16) =~= spec_u32_to_le_bytes(d.max_entries));
    assert(b.subrange(16, 20) =~= spec_u32_to_le_bytes(d.map_flags));
}

/// One element-level kernel request, fully determined by verified code;
/// the caller issues the corresponding syscall and reports the outcome.
#[derive(Debug, Clone)]
pub enum MapRequest {
    Update { fd: i32, key: Vec<u8>, value: Vec<u8>, flags: u64 },
    Lookup { fd: i32, key: Vec<u8> },
    Delete { fd: i32, key: Vec<u8> },
    NextKey { fd: i32, key: Vec<u8> },
}

/// A handle to one created kernel map: its file descriptor and its
/// definition. The descriptor is owned by exactly this handle; the
/// caller that created it closes it when the handle is discarded.
#[derive(Debug)]
pub struct MapHandle {
    pub fd: i32,
    pub kind: MapDefinition,
}

impl MapHandle {
    /// Wraps the descriptor a successful kernel map-create returned,
    /// together with the definition it was created from.
    pub fn new(fd: i32, kind: MapDefinition) -> (m: MapHandle)
        ensures
            m.fd == fd,
            m.kind == kind,
    {
        MapHandle { fd, kind }
    }

    pub fn get_fd(&self) -> (fd: i32)
        ensures
            fd == self.fd,
    {
        self.fd
    }

    /// Validates a key/value pair against the declared sizes and plans
    /// the kernel update. A size mismatch fails without any kernel
    /// request being produced.
    pub fn insert(&self, key: &[u8], value: &[u8]) -> (r: Result<MapRequest, BpfError>)
        ensures
            r is Ok <==> (key@.len() == self.kind.key_size && value@.len()
                == self.kind.value_size),
            r is Err ==> r->Err_0 == BpfError::SizeMismatch,
            r is Ok ==> (r->Ok_0 matches MapRequest::Update { fd, key: k, value: v, flags }
                && fd == self.fd && k@ == key@ && v@ == value@ && flags == 0),
    {
        if key.len() as u64 != self.kind.key_size as u64 || value.len() as u64
            != self.kind.value_size as u64 {
            return Err(BpfError::SizeMismatch);
        }
        Ok(MapRequest::Update {
            fd: self.fd,
            key: slice_to_vec(key),
            value: slice_to_vec(value),
            flags: 0,
        })
    }

    /// Validates a key against the declared key size and plans the
    /// kernel lookup; the value the kernel writes back has the declared
    /// value size by construction of the request.
    pub fn get(&self, key: &[u8]) -> (r: Result<MapRequest, BpfError>)
        ensures
            r is Ok <==> key@.len() == self.kind.key_size,
            r is Err ==> r->Err_0 == BpfError::SizeMismatch,
            r is Ok ==> (r->Ok_0 matches MapRequest::Lookup { fd, key: k } && fd == self.fd
                && k@ == key@),
    {
        if key.len() as u64 != self.kind.key_size as u64 {
            return Err(BpfError::SizeMismatch);
        }
        Ok(MapRequest::Lookup { fd: self.fd, key: slice_to_vec(key) })
    }

    /// Validates a key against the declared key size and plans the
    /// kernel delete.
    pub fn delete(&self, key: &[u8]) -> (r: Result<MapRequest, BpfError>)
        ensures
            r is Ok <==> key@.len() == self.kind.key_size,
            r is Err ==> r->Err_0 == BpfError::SizeMismatch,
            r is Ok ==> (r->Ok_0 matches MapRequest::Delete { fd, key: k } && fd == self.fd
                && k@ == key@),
    {
        if key.len() as u64 != self.kind.key_size as u64 {
            return Err(BpfError::SizeMismatch);
        }
        Ok(MapRequest::Delete { fd: self.fd, key: slice_to_vec(key) })
    }

    /// Starts a key-iteration sequence seeded with the given key and
    /// bounded by the map's declared capacity.
    pub fn keys(&self, key: Vec<u8>) -> (k: Keys)
        ensures
            k.fd == self.fd,
            k.key == key,
            k.max == self.kind.max_entries,
    {
        Keys { fd: self.fd, key, max: self.kind.max_entries as usize }
    }
}

/// The stateful key-iteration protocol: it repeatedly asks the kernel for
/// the key after the current one. The step budget `max` starts at the
/// map's declared capacity and shrinks by one per question, so the
/// sequence ends after at most `max_entries` items even if concurrent
/// eviction makes the kernel's answers cycle and exhaustion is never
/// reported; running out of budget is a silent end, not an error.
#[derive(Debug)]
pub struct Keys {
    pub fd: i32,
    pub key: Vec<u8>,
    pub max: usize,
}

impl Keys {
    /// The next kernel question, if any budget is left. Each question
    /// costs one step of budget; once it reaches zero the sequence has
    /// ended and no further request is ever produced.
    pub fn next_request(&mut self) -> (r: Option<MapRequest>)
        ensures
            old(self).max == 0 ==> r is None && *final(self) == *old(self),
            old(self).max > 0 ==> {
                &&& final(self).max == old(self).max - 1
                &&& final(self).key == old(self).key
                &&& final(self).fd == old(self).fd
                &&& r matches Some(MapRequest::NextKey { fd, key }) && fd == final(self).fd
                    && key@ == final(self).key@
            },
    {
        if self.max == 0 {
            return None;
        }
        self.max = self.max - 1;
        Some(MapRequest::NextKey { fd: self.fd, key: slice_to_vec(self.key.as_slice()) })
    }

    /// Interprets the kernel's answer to the last question. A returned
    /// key becomes the new cursor and is yielded; the no-further-key
    /// errno ends the sequence cleanly; any other kernel error is
    /// yielded as an item and then ends the sequence too. Either ending
    /// spends the whole remaining budget, so a later `next_request`
    /// returns `None` and no further kernel question is ever produced.
    pub fn advance(&mut self, reply: Result<Vec<u8>, i32>) -> (item: Option<
        Result<Vec<u8>, BpfError>,
    >)
        ensures
            final(self).fd == old(self).fd,
            reply matches Ok(next) ==> {
                &&& final(self).max == old(self).max
                &&& final(self).key == next
                &&& item matches Some(Ok(yielded)) && yielded@ == next@
            },
            reply matches Err(e) ==> {
                &&& final(self).key == old(self).key
                &&& final(self).max == 0
                &&& e == ENOENT ==> item is None
                &&& e != ENOENT ==> item == Some(
                    Err::<Vec<u8>, BpfError>(BpfError::KernelRejected(e)),
                )
            },
    {
        match reply {
            Ok(next) => {
                self.key = next;
                Some(Ok(slice_to_vec(self.key.as_slice())))
            },
            Err(e) => {
                self.max = 0;
                if e == ENOENT {
                    None
                } else {
                    Some(Err(BpfError::KernelRejected(e)))
                }
            },
        }
    }
}

/// How many items one whole key iteration yields, given the budget it
/// starts with and the kernel's successive answers. Mirroring the
/// protocol of `next_request` and `advance`: each answer consumes one
/// question, a question costs one unit of budget, a returned key is one
/// item, the no-further-key errno ends the sequence with no item, and
/// any other kernel error is one final item that ends the sequence.
pub open spec fn spec_keys_items(max: int, replies: Seq<Result<Seq<u8>, i32>>) -> int
    decreases replies.len(),
{
    if max <= 0 || replies.len() == 0 {
        0
    } else {
        match replies[0] {
            Ok(_) => 1 + spec_keys_items(max - 1, replies.drop_first()),
            Err(e) => if e == ENOENT {
                0
            } else {
                1
            },
        }
    }
}

/// However the kernel answers — even if it cycles forever and never
/// reports exhaustion — one whole key iteration yields at most as many
/// items as the budget it starts with, the map's declared capacity.
/// Exceeding the bound is not an error: the sequence simply ends.
pub proof fn lemma_keys_bounded(max: int, replies: Seq<Result<Seq<u8>, i32>>)
    requires
        0 <= max,
    ensures
        spec_keys_items(max, replies) <= max,
    decreases replies.len(),
{
    if max <= 0 || replies.len() == 0 {
    } else {
        match replies[0] {
            Ok(_) => {
                lemma_keys_bounded(max - 1, replies.drop_first());
            },
            Err(_) => {
            },
        }
    }
}

} // verus!
