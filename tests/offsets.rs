use unsharing::offsets::{
    addr_to_offset, loaded_tables_signature, offset_to_addr, resolve_offset, search_offsets,
    ResolvedOffsets,
};
use unsharing::scan::Token;

const SIG: [u8; 12] = [0xf3, 0x03, 0x00, 0xaa, 0x1f, 0x01, 0x09, 0x6b, 0xe0, 0x04, 0x00, 0x54];

#[test]
fn offset_to_addr_adds_base() {
    assert_eq!(offset_to_addr(0x7100000000, 0x1234), 0x7100001234);
    assert_eq!(offset_to_addr(0, 0x10), 0x10);
    assert_eq!(offset_to_addr(0x1000, 0), 0x1000);
}

#[test]
fn offset_round_trip() {
    for base in [0usize, 0x1000, 0x7100000000] {
        for r in [0usize, 1, 0x4c_5a10] {
            assert_eq!(offset_to_addr(base, r), base + r);
            assert_eq!(addr_to_offset(offset_to_addr(base, r), base), r);
        }
    }
}

#[test]
fn signature_table_holds_loaded_tables_code() {
    let sig = loaded_tables_signature();
    assert_eq!(sig.len(), 12);
    let expected: Vec<Token> = SIG.iter().map(|b| Token::Byte(*b)).collect();
    assert_eq!(sig, expected);
}

#[test]
fn search_offsets_records_relative_offset() {
    let mut text = vec![0u8; 64];
    text[20..32].copy_from_slice(&SIG);
    let r = search_offsets(&text, 0x8000_1000, 0x8000_0000);
    assert_eq!(r.loaded_tables, Some(0x1000 + 20));
    let r = search_offsets(&text, 0x8000_0000, 0x8000_0000);
    assert_eq!(r.loaded_tables, Some(20));
}

#[test]
fn search_offsets_reports_missing_signature() {
    let text = vec![0u8; 64];
    let r = search_offsets(&text, 0x1000, 0x1000);
    assert_eq!(r.loaded_tables, None);
    assert_eq!(r, ResolvedOffsets::unresolved());
}

#[test]
fn resolve_offset_uses_first_match() {
    let text = [9u8, 1, 2, 9, 1, 2];
    let sig = [Token::Byte(1), Token::Wildcard];
    assert_eq!(resolve_offset(&text, 0x500, 0x100, &sig), Some(0x401));
    assert_eq!(resolve_offset(&text, 0x500, 0x100, &[Token::Byte(3)]), None);
}

#[test]
fn loaded_tables_addr_rebases() {
    let r = ResolvedOffsets { loaded_tables: Some(0x40) };
    assert_eq!(r.loaded_tables_addr(0x7100000000), Some(0x7100000040));
    assert_eq!(r.loaded_tables_addr(usize::MAX), None);
    assert_eq!(ResolvedOffsets::unresolved().loaded_tables_addr(0x1000), None);
}
