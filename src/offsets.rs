//! Offset resolver: finds each known signature in the host module's code and
//! records where it lies relative to the module's load address.

use vstd::prelude::*;
use crate::scan::{Token, first_match, search};

verus! {

/// The offsets found at startup, relative to the host module's base address.
/// `None` is an offset whose signature was not found.
#[derive(Clone, Copy, Debug, PartialEq, Eq, Structural)]
pub struct ResolvedOffsets {
    /// Where the code that refers to the table of loaded resources lies.
    pub loaded_tables: Option<usize>,
}

/// The code sequence that leads to the table of loaded resources.
pub open spec fn loaded_tables_signature_spec() -> Seq<Token> {
    seq![
        Token::Byte(0xf3u8), Token::Byte(0x03u8), Token::Byte(0x00u8), Token::Byte(0xaau8),
        Token::Byte(0x1fu8), Token::Byte(0x01u8), Token::Byte(0x09u8), Token::Byte(0x6bu8),
        Token::Byte(0xe0u8), Token::Byte(0x04u8), Token::Byte(0x00u8), Token::Byte(0x54u8),
    ]
}

/// An absolute address from a module base and a relative offset.
pub open spec fn absolute_addr(base: int, offset: int) -> int {
    base + offset
}

/// A relative offset from an absolute address and a module base.
pub open spec fn relative_offset(addr: int, base: int) -> int {
    addr - base
}

/// What resolving a signature yields: the first match in the code region, made
/// relative to the module base.
pub open spec fn resolved(text: Seq<u8>, text_addr: int, module_base: int, sig: Seq<Token>) -> Option<
    int,
> {
    match first_match(text, sig) {
        Some(o) => Some(relative_offset(absolute_addr(text_addr, o), module_base)),
        None => None,
    }
}

/// The signature of the table of loaded resources.
pub fn loaded_tables_signature() -> (r: Vec<Token>)
    ensures
        r@ == loaded_tables_signature_spec(),
{
    let r = vec![
        Token::Byte(0xf3), Token::Byte(0x03), Token::Byte(0x00), Token::Byte(0xaa),
        Token::Byte(0x1f), Token::Byte(0x01), Token::Byte(0x09), Token::Byte(0x6b),
        Token::Byte(0xe0), Token::Byte(0x04), Token::Byte(0x00), Token::Byte(0x54),
    ];
    assert(r@ =~= loaded_tables_signature_spec());
    r
}

/// The absolute address of a relative offset, for the module's current base.
pub fn offset_to_addr(base: usize, offset: usize) -> (r: usize)
    requires
        base + offset <= usize::MAX,
    ensures
        r == absolute_addr(base as int, offset as int),
{
    base + offset
}

/// The offset of an absolute address from the module base.
pub fn addr_to_offset(addr: usize, base: usize) -> (r: usize)
    requires
        base <= addr,
    ensures
        r == relative_offset(addr as int, base as int),
{
    addr - base
}

/// Re-basing a relative offset and taking the base off again gives the offset
/// back, and the other way round.
pub proof fn lemma_offset_round_trip(base: int, offset: int, addr: int)
    ensures
        relative_offset(absolute_addr(base, offset), base) == offset,
        absolute_addr(base, relative_offset(addr, base)) == addr,
{
}

/// Searches the code region for one signature and makes the address found
/// relative to the module base.
pub fn resolve_offset(text: &[u8], text_addr: usize, module_base: usize, sig: &[Token]) -> (r:
    Option<usize>)
    requires
        sig@.len() > 0,
        module_base <= text_addr,
        text_addr + text@.len() <= usize::MAX,
    ensures
        match r {
            Some(off) => resolved(text@, text_addr as int, module_base as int, sig@) == Some(
                off as int,
            ),
            None => resolved(text@, text_addr as int, module_base as int, sig@) is None,
        },
{
    match search(text, sig) {
        Some(o) => {
            let found = offset_to_addr(text_addr, o);
            Some(addr_to_offset(found, module_base))
        },
        None => None,
    }
}

/// Runs every signature of the table once over the host module's code region.
pub fn search_offsets(text: &[u8], text_addr: usize, module_base: usize) -> (r: ResolvedOffsets)
    requires
        module_base <= text_addr,
        text_addr + text@.len() <= usize::MAX,
    ensures
        match r.loaded_tables {
            Some(off) => resolved(
                text@,
                text_addr as int,
                module_base as int,
                loaded_tables_signature_spec(),
            ) == Some(off as int),
            None => resolved(
                text@,
                text_addr as int,
                module_base as int,
                loaded_tables_signature_spec(),
            ) is None,
        },
{
    let sig = loaded_tables_signature();
    ResolvedOffsets { loaded_tables: resolve_offset(text, text_addr, module_base, sig.as_slice()) }
}

impl ResolvedOffsets {
    /// Nothing resolved yet.
    pub fn unresolved() -> (r: Self)
        ensures
            r.loaded_tables is None,
    {
        ResolvedOffsets { loaded_tables: None }
    }

    /// The absolute address of the table of loaded resources for the module's
    /// current base; `None` where the offset is unresolved or the sum would not
    /// fit in an address.
    pub fn loaded_tables_addr(&self, module_base: usize) -> (r: Option<usize>)
        ensures
            match self.loaded_tables {
                Some(off) => if module_base + off <= usize::MAX {
                    r == Some(absolute_addr(module_base as int, off as int) as usize)
                } else {
                    r is None
                },
                None => r is None,
            },
    {
        match self.loaded_tables {
            Some(off) => {
                if off <= usize::MAX - module_base {
                    Some(offset_to_addr(module_base, off))
                } else {
                    None
                }
            },
            None => None,
        }
    }
}

} // verus!
