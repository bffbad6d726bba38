//! Classic-BPF instructions and the fixed 8-byte little-endian codec that
//! turns raw section bytes into instruction sequences and back.

use vstd::prelude::*;
use vstd::bytes::*;
use vstd::slice::*;

use crate::BpfError;

verus! {

/// The encoded size of one instruction, in bytes.
pub const OP_SIZE: usize = 8;

/// One classic-BPF instruction, in the fixed kernel ABI layout:
/// a 16-bit opcode, two 8-bit relative jump targets, and a 32-bit
/// immediate operand.
#[derive(Debug, Clone, Copy, PartialEq, Eq, Structural)]
pub struct Op {
    pub code: u16,
    pub jt: u8,
    pub jf: u8,
    pub k: u32,
}

impl Op {
    pub fn new(code: u16, jt: u8, jf: u8, k: u32) -> (op: Op)
        ensures
            op == (Op { code, jt, jf, k }),
    {
        Op { code, jt, jf, k }
    }
}

/// The 8-byte little-endian encoding of one instruction.
pub open spec fn spec_op_to_bytes(op: Op) -> Seq<u8> {
    spec_u16_to_le_bytes(op.code) + seq![op.jt, op.jf] + spec_u32_to_le_bytes(op.k)
}

/// The encoding of a whole instruction sequence: the instructions'
/// encodings, concatenated in order.
pub open spec fn spec_ops_to_bytes(ops: Seq<Op>) -> Seq<u8>
    decreases ops.len(),
{
    if ops.len() == 0 {
        Seq::empty()
    } else {
        spec_op_to_bytes(ops[0]) + spec_ops_to_bytes(ops.drop_first())
    }
}

/// The instruction encoded by 8 bytes.
pub open spec fn spec_op_from_bytes(b: Seq<u8>) -> Op
    recommends
        b.len() == OP_SIZE,
{
    Op {
        code: spec_u16_from_le_bytes(b.subrange(0, 2)),
        jt: b[2],
        jf: b[3],
        k: spec_u32_from_le_bytes(b.subrange(4, 8)),
    }
}

/// The instruction sequence encoded by a byte buffer, 8 bytes per
/// instruction, front to back.
pub open spec fn spec_ops_from_bytes(b: Seq<u8>) -> Seq<Op>
    recommends
        b.len() % (OP_SIZE as nat) == 0,
    decreases b.len(),
{
    if b.len() < OP_SIZE {
        Seq::empty()
    } else {
        seq![spec_op_from_bytes(b.take(OP_SIZE as int))] + spec_ops_from_bytes(
            b.skip(OP_SIZE as int),
        )
    }
}

/// Encoding one instruction always yields 8 bytes.
pub proof fn lemma_op_to_bytes_len(op: Op)
    ensures
        spec_op_to_bytes(op).len() == OP_SIZE,
{
    lemma_auto_spec_u16_to_from_le_bytes();
    lemma_auto_spec_u32_to_from_le_bytes();
}

/// Decoding the encoding of one instruction gives the instruction back.
pub proof fn lemma_op_round_trip(op: Op)
    ensures
        spec_op_from_bytes(spec_op_to_bytes(op)) == op,
{
    lemma_auto_spec_u16_to_from_le_bytes();
    lemma_auto_spec_u32_to_from_le_bytes();
    let b = spec_op_to_bytes(op);
    assert(b.subrange(0, 2) =~= spec_u16_to_le_bytes(op.code));
    assert(b.subrange(4, 8) =~= spec_u32_to_le_bytes(op.k));
}

/// Encoding the decoding of 8 bytes gives the bytes back.
pub proof fn lemma_op_bytes_round_trip(b: Seq<u8>)
    requires
        b.len() == OP_SIZE,
    ensures
        spec_op_to_bytes(spec_op_from_bytes(b)) == b,
{
    lemma_auto_spec_u16_to_from_le_bytes();
    lemma_auto_spec_u32_to_from_le_bytes();
    let op = spec_op_from_bytes(b);
    assert(spec_u16_to_le_bytes(op.code) =~= b.subrange(0, 2));
    assert(spec_u32_to_le_bytes(op.k) =~= b.subrange(4, 8));
    assert(spec_op_to_bytes(op) =~= b);
}

/// Round trip for whole sequences: an encoded instruction stream is
/// 8 bytes per instruction, and decoding it yields the instructions
/// that were encoded.
pub proof fn lemma_ops_round_trip(ops: Seq<Op>)
    ensures
        spec_ops_to_bytes(ops).len() == ops.len() * (OP_SIZE as nat),
        spec_ops_from_bytes(spec_ops_to_bytes(ops)) == ops,
    decreases ops.len(),
{
    if ops.len() == 0 {
    } else {
        let head = spec_op_to_bytes(ops[0]);
        let rest = spec_ops_to_bytes(ops.drop_first());
        lemma_op_to_bytes_len(ops[0]);
        lemma_op_round_trip(ops[0]);
        lemma_ops_round_trip(ops.drop_first());
        let all = spec_ops_to_bytes(ops);
        assert(all =~= head + rest);
        assert(all.take(OP_SIZE as int) =~= head);
        assert(all.skip(OP_SIZE as int) =~= rest);
        assert(spec_ops_from_bytes(all) =~= seq![ops[0]] + ops.drop_first());
        assert(seq![ops[0]] + ops.drop_first() =~= ops);
    }
}

/// Round trip in the other direction: for a buffer whose length is a
/// multiple of 8, re-encoding the decoded instructions reproduces the
/// buffer byte for byte.
pub proof fn lemma_bytes_round_trip(b: Seq<u8>)
    requires
        b.len() % (OP_SIZE as nat) == 0,
    ensures
        spec_ops_to_bytes(spec_ops_from_bytes(b)) == b,
    decreases b.len(),
{
    if b.len() < OP_SIZE {
        assert(b.len() == 0);
        assert(spec_ops_to_bytes(spec_ops_from_bytes(b)) =~= b);
    } else {
        let head = b.take(OP_SIZE as int);
        let tail = b.skip(OP_SIZE as int);
        lemma_op_bytes_round_trip(head);
        assert(tail.len() % (OP_SIZE as nat) == 0);
        lemma_bytes_round_trip(tail);
        let ops = spec_ops_from_bytes(b);
        assert(ops.drop_first() =~= spec_ops_from_bytes(tail));
        assert(spec_ops_to_bytes(ops) =~= b);
    }
}

/// An owned, contiguous sequence of instructions: the form in which a
/// program is handed to the kernel loader.
#[derive(Debug, Clone)]
pub struct Prog {
    insns: Vec<Op>,
}

impl View for Prog {
    type V = Seq<Op>;

    closed spec fn view(&self) -> Seq<Op> {
        self.insns@
    }
}

impl Prog {
    /// Wraps an instruction vector into an owned program buffer.
    pub fn new(ops: Vec<Op>) -> (p: Prog)
        ensures
            p@ == ops@,
    {
        Prog { insns: ops }
    }

    /// Decodes a raw instruction stream. A buffer whose length is not a
    /// multiple of the 8-byte instruction size is rejected before any
    /// instruction is decoded.
    pub fn parse(code: &[u8]) -> (r: Result<Prog, BpfError>)
        ensures
            r is Ok <==> code@.len() % (OP_SIZE as nat) == 0,
            r is Ok ==> r->Ok_0@ == spec_ops_from_bytes(code@),
            r is Err ==> r->Err_0 == BpfError::MalformedObject,
    {
        let n = code.len();
        if n % OP_SIZE != 0 {
            return Err(BpfError::MalformedObject);
        }
        let mut insns: Vec<Op> = Vec::new();
        let mut i: usize = 0;
        proof {
            assert(code@.skip(0) =~= code@);
            assert(Seq::<Op>::empty() + spec_ops_from_bytes(code@) =~= spec_ops_from_bytes(
                code@,
            ));
        }
        while i < n
            invariant
                0 <= i <= n,
                i % OP_SIZE == 0,
                n % OP_SIZE == 0,
                n == code@.len(),
                OP_SIZE == 8,
                spec_ops_from_bytes(code@) == insns@ + spec_ops_from_bytes(
                    code@.skip(i as int),
                ),
            decreases n - i,
        {
            assert(n - i >= OP_SIZE) by {
                assert(i < n && i % 8 == 0 && n % 8 == 0);
            };
            let code_w = u16_from_le_bytes(slice_subrange(code, i, i + 2));
            let jt = *slice_index_get(code, i + 2);
            let jf = *slice_index_get(code, i + 3);
            let k = u32_from_le_bytes(slice_subrange(code, i + 4, i + 8));
            let op = Op { code: code_w, jt, jf, k };
            proof {
                let rest = code@.skip(i as int);
                assert(rest.take(OP_SIZE as int) =~= code@.subrange(i as int, i + 8));
                assert(rest.skip(OP_SIZE as int) =~= code@.skip(i + 8));
                assert(rest.take(OP_SIZE as int).subrange(0, 2) =~= code@.subrange(
                    i as int,
                    i + 2,
                ));
                assert(rest.take(OP_SIZE as int).subrange(4, 8) =~= code@.subrange(
                    i + 4,
                    i + 8,
                ));
                assert(op == spec_op_from_bytes(rest.take(OP_SIZE as int)));
                assert(insns@.push(op) + spec_ops_from_bytes(code@.skip(i + 8)) =~= insns@
                    + spec_ops_from_bytes(rest));
            }
            insns.push(op);
            i = i + 8;
        }
        proof {
            assert(code@.skip(n as int) =~= Seq::<u8>::empty());
            assert(spec_ops_from_bytes(code@) =~= insns@);
        }
        Ok(Prog { insns })
    }

    /// The byte length of the encoded program: 8 bytes per instruction.
    pub fn len(&self) -> (n: usize)
        requires
            self@.len() * (OP_SIZE as nat) <= usize::MAX,
        ensures
            n == self@.len() * (OP_SIZE as nat),
    {
        self.insns.len() * OP_SIZE
    }

    /// The instructions themselves, for introspection.
    pub fn insns(&self) -> (r: &Vec<Op>)
        ensures
            r@ == self@,
    {
        &self.insns
    }

    /// Encodes the program back into the raw byte stream the kernel
    /// loader consumes.
    pub fn encode(&self) -> (r: Vec<u8>)
        ensures
            r@ == spec_ops_to_bytes(self@),
    {
        let mut out: Vec<u8> = Vec::new();
        let n = self.insns.len();
        let mut i: usize = 0;
        while i < n
            invariant
                0 <= i <= n,
                n == self@.len(),
                out@ == spec_ops_to_bytes(self@.take(i as int)),
            decreases n - i,
        {
            let op = self.insns[i];
            let mut code_b = u16_to_le_bytes(op.code);
            let mut k_b = u32_to_le_bytes(op.k);
            out.append(&mut code_b);
            out.push(op.jt);
            out.push(op.jf);
            out.append(&mut k_b);
            proof {
                lemma_ops_to_bytes_snoc(self@, i as int);
            }
            i = i + 1;
        }
        proof {
            assert(self@.take(n as int) =~= self@);
        }
        out
    }
}

/// Appending one instruction to a sequence appends its 8 bytes to the
/// sequence's encoding.
proof fn lemma_ops_to_bytes_snoc(ops: Seq<Op>, i: int)
    requires
        0 <= i < ops.len(),
    ensures
        spec_ops_to_bytes(ops.take(i + 1)) == spec_ops_to_bytes(ops.take(i)) + spec_op_to_bytes(
            ops[i],
        ),
    decreases i,
{
    if i == 0 {
        assert(ops.take(1).drop_first() =~= Seq::<Op>::empty());
        assert(ops.take(1)[0] == ops[0]);
        assert(spec_ops_to_bytes(Seq::<Op>::empty()) =~= Seq::<u8>::empty());
        assert(spec_ops_to_bytes(ops.take(0)) =~= Seq::<u8>::empty());
        assert(spec_ops_to_bytes(ops.take(1)) =~= spec_op_to_bytes(ops[0]));
        assert(spec_ops_to_bytes(ops.take(0)) + spec_op_to_bytes(ops[0]) =~= spec_op_to_bytes(
            ops[0],
        ));
    } else {
        lemma_ops_to_bytes_snoc(ops.drop_first(), i - 1);
        assert(ops.take(i + 1).drop_first() =~= ops.drop_first().take(i));
        assert(ops.take(i).drop_first() =~= ops.drop_first().take(i - 1));
        assert(ops.drop_first()[i - 1] == ops[i]);
        assert(spec_ops_to_bytes(ops.take(i + 1)) =~= spec_op_to_bytes(ops[0])
            + spec_ops_to_bytes(ops.drop_first().take(i)));
        assert(spec_ops_to_bytes(ops.take(i)) =~= spec_op_to_bytes(ops[0]) + spec_ops_to_bytes(
            ops.drop_first().take(i - 1),
        ));
        assert(spec_ops_to_bytes(ops.take(i)) + spec_op_to_bytes(ops[i]) =~= spec_op_to_bytes(
            ops[0],
        ) + (spec_ops_to_bytes(ops.drop_first().take(i - 1)) + spec_op_to_bytes(
            ops.drop_first()[i - 1],
        )));
    }
}

} // verus!
