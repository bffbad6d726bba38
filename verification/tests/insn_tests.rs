use bpf::insn::{Op, Prog};
use bpf::BpfError;

#[test]
fn parse_rejects_misaligned_lengths() {
    for len in [1usize, 2, 3, 5, 7, 9, 15, 17, 23] {
        let buf = vec![0u8; len];
        let r = Prog::parse(&buf);
        assert!(matches!(r, Err(BpfError::MalformedObject)), "len {}", len);
    }
}

#[test]
fn parse_accepts_empty_stream() {
    let p = Prog::parse(&[]).unwrap();
    assert_eq!(p.insns().len(), 0);
    assert_eq!(p.len(), 0);
}

#[test]
fn parse_decodes_little_endian_fields() {
    let bytes = [0x28u8, 0x01, 0x02, 0x03, 0x44, 0x33, 0x22, 0x11];
    let p = Prog::parse(&bytes).unwrap();
    assert_eq!(p.insns().len(), 1);
    let op = p.insns()[0];
    assert_eq!(op, Op::new(0x0128, 0x02, 0x03, 0x11223344));
}

#[test]
fn encode_produces_little_endian_bytes() {
    let p = Prog::new(vec![Op::new(0x0128, 0x02, 0x03, 0x11223344)]);
    assert_eq!(p.encode(), vec![0x28u8, 0x01, 0x02, 0x03, 0x44, 0x33, 0x22, 0x11]);
}

#[test]
fn round_trip_ops_to_bytes_and_back() {
    let ops = vec![
        Op::new(0x28, 0, 0, 12),
        Op::new(0x15, 1, 0, 0x0800),
        Op::new(0x06, 0, 0, 0xffffffff),
        Op::new(0, 0, 0, 0),
    ];
    let p = Prog::new(ops.clone());
    let bytes = p.encode();
    assert_eq!(bytes.len(), 8 * ops.len());
    let q = Prog::parse(&bytes).unwrap();
    assert_eq!(q.insns(), &ops);
}

#[test]
fn round_trip_bytes_to_ops_and_back() {
    let bytes: Vec<u8> = (0u8..32).collect();
    let p = Prog::parse(&bytes).unwrap();
    assert_eq!(p.encode(), bytes);
}

#[test]
fn prog_len_counts_bytes() {
    let p = Prog::new(vec![Op::new(0, 0, 0, 0); 3]);
    assert_eq!(p.len(), 24);
}
