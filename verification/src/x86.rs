//! A partial decoder for x86 machine instructions.
//!
//! [`eat`] reconstructs one variable-length instruction from the front of a byte
//! slice; [`disassemble`] tiles a whole slice with instructions, replacing every
//! byte at which decoding fails by a one-byte placeholder.

pub mod render;

use vstd::prelude::*;
use vstd::slice::slice_subrange;
use crate::error::DecodeError;
use crate::util::endian::{
    lemma_u16_le_bytes, lemma_u32_le_bytes, spec_u16_le, spec_u32_le, u16_from_le, u32_from_le,
};

verus! {

/// Width of a displacement or an immediate operand.
#[derive(Debug, Clone, Copy, PartialEq, Eq, Structural)]
pub enum ImmediateSize {
    /// No bytes at all.
    Absent,
    Byte,
    Word,
    DWord,
}

/// A displacement or an immediate operand.
#[derive(Debug, Clone, Copy, PartialEq, Eq, Structural)]
pub enum Immediate {
    /// The field is not part of the instruction.
    Absent,
    Byte(u8),
    Word(u16),
    DWord(u32),
}

impl Immediate {
    /// The number of bytes the field takes in the instruction stream.
    pub open spec fn spec_len(&self) -> int {
        match self {
            Immediate::Absent => 0,
            Immediate::Byte(_) => 1,
            Immediate::Word(_) => 2,
            Immediate::DWord(_) => 4,
        }
    }

    /// The field as it stands in the instruction stream, low byte first.
    pub open spec fn spec_bytes(&self) -> Seq<u8> {
        match self {
            Immediate::Absent => seq![],
            Immediate::Byte(b) => seq![*b],
            Immediate::Word(w) => seq![(*w % 256) as u8, (*w / 256) as u8],
            Immediate::DWord(d) => seq![
                (*d % 256) as u8,
                (*d / 256 % 256) as u8,
                (*d / 65536 % 256) as u8,
                (*d / 16777216) as u8,
            ],
        }
    }

    /// The number of bytes the field takes in the instruction stream.
    pub fn len(&self) -> (n: usize)
        ensures
            n == self.spec_len(),
    {
        match self {
            Immediate::Absent => 0,
            Immediate::Byte(_) => 1,
            Immediate::Word(_) => 2,
            Immediate::DWord(_) => 4,
        }
    }
}

impl ImmediateSize {
    /// The number of bytes a field of this width takes.
    pub open spec fn spec_len(&self) -> int {
        match self {
            ImmediateSize::Absent => 0,
            ImmediateSize::Byte => 1,
            ImmediateSize::Word => 2,
            ImmediateSize::DWord => 4,
        }
    }
}

/// One decoded instruction.
///
/// `pos` is the offset of the instruction in the slice it was listed from.
/// `is_32c` is the default width that the decode was made with. An instruction
/// with `is_invalid` set is the one-byte placeholder for a byte that could not
/// be decoded: `opcode` holds that byte and every optional field is absent.
#[derive(Debug, Clone, Copy, PartialEq, Eq, Structural)]
pub struct Inst {
    pub pos: usize,
    pub is_invalid: bool,
    pub is_32c: bool,
    pub inst_prefix: Option<u8>,
    pub addr_prefix: Option<u8>,
    pub size_prefix: Option<u8>,
    pub segm_prefix: Option<u8>,
    pub opcode: u8,
    pub opcode2: Option<u8>,
    pub modrm: Option<u8>,
    pub sib: Option<u8>,
    pub displacement: Immediate,
    pub immediate: Immediate,
}

/// The number of bytes an optional byte takes: one if present.
pub open spec fn opt_len(o: Option<u8>) -> int {
    if o is Some {
        1
    } else {
        0
    }
}

/// An optional byte as it stands in the instruction stream.
pub open spec fn opt_bytes(o: Option<u8>) -> Seq<u8> {
    match o {
        Some(b) => seq![b],
        None => seq![],
    }
}

fn opt_size(o: &Option<u8>) -> (n: usize)
    ensures
        n == opt_len(*o),
{
    if o.is_some() {
        1
    } else {
        0
    }
}

/// The four optional prefix bytes of an instruction, in the order they are looked for.
#[derive(Debug, Clone, Copy, PartialEq, Eq, Structural)]
pub struct Prefixes {
    pub inst: Option<u8>,
    pub addr: Option<u8>,
    pub size: Option<u8>,
    pub segm: Option<u8>,
}

impl Prefixes {
    /// The number of prefix bytes present.
    pub open spec fn spec_len(&self) -> int {
        opt_len(self.inst) + opt_len(self.addr) + opt_len(self.size) + opt_len(self.segm)
    }

    /// The prefix bytes in the order they stand in the instruction.
    pub open spec fn spec_bytes(&self) -> Seq<u8> {
        opt_bytes(self.inst) + opt_bytes(self.addr) + opt_bytes(self.size) + opt_bytes(self.segm)
    }
}

impl Inst {
    /// The prefixes of the instruction.
    pub open spec fn prefixes(&self) -> Prefixes {
        Prefixes {
            inst: self.inst_prefix,
            addr: self.addr_prefix,
            size: self.size_prefix,
            segm: self.segm_prefix,
        }
    }

    /// The number of opcode bytes: one, or two after the escape byte.
    pub open spec fn opcode_len(&self) -> int {
        1 + opt_len(self.opcode2)
    }

    /// The opcode bytes.
    pub open spec fn opcode_bytes(&self) -> Seq<u8> {
        seq![self.opcode] + opt_bytes(self.opcode2)
    }

    /// The number of bytes after the opcode: ModRM, SIB, displacement, immediate.
    pub open spec fn operand_len(&self) -> int {
        opt_len(self.modrm) + opt_len(self.sib) + self.displacement.spec_len()
            + self.immediate.spec_len()
    }

    /// The bytes after the opcode: ModRM, SIB, displacement, immediate.
    pub open spec fn operand_bytes(&self) -> Seq<u8> {
        opt_bytes(self.modrm) + opt_bytes(self.sib) + self.displacement.spec_bytes()
            + self.immediate.spec_bytes()
    }

    /// The encoded length: every present field counted with its width.
    pub open spec fn spec_len(&self) -> int {
        self.prefixes().spec_len() + self.opcode_len() + self.operand_len()
    }

    /// The encoding: the present fields in the order of the instruction format.
    pub open spec fn spec_bytes(&self) -> Seq<u8> {
        self.prefixes().spec_bytes() + self.opcode_bytes() + self.operand_bytes()
    }

    /// Whether addresses are 32 bits wide: the default, flipped by an address-size prefix.
    pub open spec fn spec_is_32a(&self) -> bool {
        self.is_32c != (self.addr_prefix is Some)
    }

    /// Whether operands are 32 bits wide: the default, flipped by an operand-size prefix.
    pub open spec fn spec_is_32d(&self) -> bool {
        self.is_32c != (self.size_prefix is Some)
    }

    /// The encoded length in bytes, between 1 and 16.
    pub fn len(&self) -> (n: usize)
        ensures
            n == self.spec_len(),
            1 <= n <= 16,
    {
        opt_size(&self.inst_prefix) + opt_size(&self.addr_prefix) + opt_size(&self.size_prefix)
            + opt_size(&self.segm_prefix) + 1 + opt_size(&self.opcode2) + opt_size(&self.modrm)
            + opt_size(&self.sib) + self.displacement.len() + self.immediate.len()
    }

    /// Whether addresses are 32 bits wide for this instruction.
    pub fn is_32a(&self) -> (wide: bool)
        ensures
            wide == self.spec_is_32a(),
    {
        self.is_32c ^ self.addr_prefix.is_some()
    }

    /// Whether operands are 32 bits wide for this instruction.
    pub fn is_32d(&self) -> (wide: bool)
        ensures
            wide == self.spec_is_32d(),
    {
        self.is_32c ^ self.size_prefix.is_some()
    }
}

/// Opcodes of the one-byte map that the decoder accepts.
pub const OPCODE_VALIDITY_MAP: [u32; 8] = [
    0b11111111_11111111_11111111_11111111,
    0b10111111_10111111_10111111_10111111,
    0b11111111_11111111_11111111_11111111,
    0b11111111_11111111_11111111_00001111,
    0b11111111_11111111_11111111_11111011,
    0b11111111_11111111_11111111_11111111,
    0b11111111_10111111_11111111_11111111,
    0b11111111_11110000_11111111_11111111,
];

/// Second bytes that the decoder accepts after the two-byte escape.
pub const OPCODE2_VALIDITY_MAP: [u32; 8] = [
    0b00000000_00000000_00000000_01001111,
    0b00000000_00000000_00000000_01011111,
    0b00000000_00000000_00000000_00000000,
    0b00000000_00000000_00000000_00000000,
    0b11111111_11111111_11111111_11111111,
    0b11111100_11111100_10111011_00111011,
    0b00000000_00000000_00000000_00000000,
    0b00000000_00000000_00000000_00000000,
];

/// One-byte opcodes that are followed by a ModRM byte.
pub const HAS_MODRM: [u32; 8] = [
    0b00111111_00111111_00111111_00111111,
    0b00111111_00111111_00111111_00111111,
    0b00000000_00000000_00000000_00000000,
    0b00000000_00000000_11111010_00001100,
    0b00000000_00000000_11111111_11111011,
    0b00000000_00000000_00000000_00000000,
    0b00000000_00001111_00000000_11110011,
    0b11000000_11000000_11110000_00000000,
];

/// Two-byte opcodes (by their second byte) that are followed by a ModRM byte.
pub const HAS_MODRM2: [u32; 8] = [
    0b00000000_00000000_00000000_00001100,
    0b00000000_00000000_00000000_01011111,
    0b00000000_00000000_00000000_00000000,
    0b00000000_00000000_00000000_00000000,
    0b00000000_00000000_00000000_00000000,
    0b11111100_11111100_10111011_00111000,
    0b00000000_00000000_00000000_00000000,
    0b00000000_00000000_00000000_00000000,
];

/// Opcodes that carry an immediate operand.
pub const IMMEDIATE_MAP: [u32; 8] = [
    0b00110000_00110000_00110000_00110000,
    0b00110000_00110000_00110000_00110000,
    0b00000000_00000000_00000000_00000000,
    0b11111111_11111111_00001111_00000000,
    0b00000000_00000000_00000000_00001011,
    0b11111111_11111111_00000011_00000000,
    0b00000000_00000000_00100101_11000111,
    0b00000000_11000000_00001111_11111111,
];

/// Opcodes whose immediate operand is one byte wide.
pub const IMMEDIATE_BYTE_MAP: [u32; 8] = [
    0b00010000_00010000_00010000_00010000,
    0b00010000_00010000_00010000_00010000,
    0b00000000_00000000_00000000_00000000,
    0b11111111_11111111_00000101_00000000,
    0b00000000_00000000_00000000_00001001,
    0b00000000_11111111_00000001_00000000,
    0b00000000_00000000_00100001_01000001,
    0b00000000_00000000_00001000_11111111,
];

/// Opcodes whose immediate operand is as wide as the operand size in effect.
pub const IMMEDIATE_WIDE_MAP: [u32; 8] = [
    0b00100000_00100000_00100000_00100000,
    0b00100000_00100000_00100000_00100000,
    0b00000000_00000000_00000000_00000000,
    0b00000000_00000000_00001010_00000000,
    0b00000000_00000000_00000000_00000010,
    0b11111111_00000000_00000010_00000000,
    0b00000000_00000000_00000000_10000010,
    0b00000000_00000000_00000011_00000000,
];

/// The opcode byte that announces a two-byte opcode.
pub const TWO_BYTE_ESCAPE: u8 = 0x0F;

/// Whether bit `byte` of the 256-bit map `table` is set: word `byte / 32`, bit `byte % 32`.
pub open spec fn spec_lookup_byte(table: [u32; 8], byte: u8) -> bool {
    (table[(byte / 32) as int] >> (byte % 32)) & 1 != 0
}

/// Tests bit `byte` of a 256-bit map held as eight 32-bit words.
pub fn lookup_byte(table: &[u32; 8], byte: u8) -> (set: bool)
    ensures
        set == spec_lookup_byte(*table, byte),
{
    (table[(byte / 32) as usize] >> (byte % 32)) & 1 != 0
}

/// The three fields of a ModRM or SIB byte: two, three and three bits, high to low.
pub open spec fn spec_split233(byte: u8) -> (u8, u8, u8) {
    (byte / 64, (byte / 8) % 8, byte % 8)
}

/// Splits a ModRM or SIB byte into its two-, three- and three-bit fields.
pub fn split233(byte: u8) -> (parts: (u8, u8, u8))
    ensures
        parts == spec_split233(byte),
        parts.0 < 4,
        parts.1 < 8,
        parts.2 < 8,
{
    assert(byte >> 6 == byte / 64) by (bit_vector);
    assert((byte >> 3) & 7 == (byte / 8) % 8) by (bit_vector);
    assert(byte & 7 == byte % 8) by (bit_vector);
    (byte >> 6, (byte >> 3) & 7, byte & 7)
}

/// Repeat and lock prefixes.
pub open spec fn is_inst_prefix(b: u8) -> bool {
    b == 0xF0 || b == 0xF2 || b == 0xF3
}

/// The address-size override prefix.
pub open spec fn is_addr_prefix(b: u8) -> bool {
    b == 0x67
}

/// The operand-size override prefix.
pub open spec fn is_size_prefix(b: u8) -> bool {
    b == 0x66
}

/// The six segment-override prefixes.
pub open spec fn is_segm_prefix(b: u8) -> bool {
    b == 0x26 || b == 0x2E || b == 0x36 || b == 0x3E || b == 0x64 || b == 0x65
}

/// A forward-only reader over the bytes of one instruction.
pub struct SimpleEater<'a> {
    pub code: &'a [u8],
    pub pos: usize,
}

impl<'a> SimpleEater<'a> {
    /// Whether a byte is left to read.
    pub open spec fn has_next(&self) -> bool {
        self.pos < self.code@.len()
    }

    /// The byte at the position; meaningful where `has_next` holds.
    pub open spec fn head(&self) -> u8 {
        self.code@[self.pos as int]
    }

    /// An eater at the start of `code`.
    pub fn new(code: &'a [u8]) -> (eater: Self)
        ensures
            eater.code@ == code@,
            eater.pos == 0,
    {
        Self { code, pos: 0 }
    }

    /// Takes the next byte if there is one and `f` accepts it.
    pub fn next_if<F>(&mut self, f: F) -> (res: Option<u8>) where F: FnOnce(u8) -> bool
        requires
            old(self).has_next() ==> f.requires((old(self).head(),)),
        ensures
            final(self).code == old(self).code,
            match res {
                Some(b) => {
                    &&& old(self).has_next()
                    &&& b == old(self).head()
                    &&& f.ensures((b,), true)
                    &&& final(self).pos == old(self).pos + 1
                },
                None => {
                    &&& final(self).pos == old(self).pos
                    &&& old(self).has_next() ==> f.ensures((old(self).head(),), false)
                },
            },
    {
        if self.pos < self.code.len() && f(self.code[self.pos]) {
            let ret: u8 = self.code[self.pos];
            self.pos += 1;
            Some(ret)
        } else {
            None
        }
    }

    /// Takes the next byte; fails at the end of the code.
    pub fn next(&mut self) -> (res: Result<u8, DecodeError>)
        ensures
            final(self).code == old(self).code,
            match res {
                Ok(b) => {
                    &&& old(self).has_next()
                    &&& b == old(self).head()
                    &&& final(self).pos == old(self).pos + 1
                },
                Err(e) => {
                    &&& !old(self).has_next()
                    &&& e == DecodeError::TruncatedInput
                    &&& final(self).pos == old(self).pos
                },
            },
    {
        if self.pos < self.code.len() {
            let ret: u8 = self.code[self.pos];
            self.pos += 1;
            Ok(ret)
        } else {
            Err(DecodeError::TruncatedInput)
        }
    }

    /// The next byte, left in place.
    pub fn peek(&self) -> (res: Option<u8>)
        ensures
            res == (if self.has_next() {
                Some(self.head())
            } else {
                None
            }),
    {
        if self.pos < self.code.len() {
            Some(self.code[self.pos])
        } else {
            None
        }
    }
}

/// The byte at `pos`, taken only where there is one and it is `wanted`.
pub open spec fn byte_if(code: Seq<u8>, pos: int, wanted: bool) -> Option<u8> {
    if 0 <= pos < code.len() && wanted {
        Some(code[pos])
    } else {
        None
    }
}

/// The prefixes at the front of `code`: each of the four classes is looked for
/// once, in a fixed order, and takes one byte where it is found.
pub open spec fn spec_prefixes(code: Seq<u8>) -> Prefixes {
    let inst = byte_if(code, 0, is_inst_prefix(code[0]));
    let at_addr = opt_len(inst);
    let addr = byte_if(code, at_addr, is_addr_prefix(code[at_addr]));
    let at_size = at_addr + opt_len(addr);
    let size = byte_if(code, at_size, is_size_prefix(code[at_size]));
    let at_segm = at_size + opt_len(size);
    let segm = byte_if(code, at_segm, is_segm_prefix(code[at_segm]));
    Prefixes { inst, addr, size, segm }
}

/// Whether a ModRM byte follows the opcode.
pub open spec fn spec_has_modrm(opcode: u8, opcode2: Option<u8>) -> bool {
    match opcode2 {
        Some(second) => spec_lookup_byte(HAS_MODRM2, second),
        None => spec_lookup_byte(HAS_MODRM, opcode),
    }
}

/// Whether a SIB byte follows the ModRM byte: only with 32-bit addressing, where
/// the register/memory field is 4 and the mode is not register-direct.
pub open spec fn spec_has_sib(modrm: Option<u8>, is_32a: bool) -> bool {
    match modrm {
        Some(m) => is_32a && spec_split233(m).2 == 4 && spec_split233(m).0 != 3,
        None => false,
    }
}

/// The width of the displacement that the ModRM byte asks for.
///
/// Mode 1 takes a byte and mode 2 a full-width displacement. Mode 0 takes a
/// full-width displacement only for the absolute form, which is register/memory
/// field 6 with 16-bit addressing and 5 with 32-bit addressing.
pub open spec fn spec_disp_size(modrm: Option<u8>, is_32a: bool) -> ImmediateSize {
    match modrm {
        Some(m) => {
            let mode = spec_split233(m).0;
            let rm = spec_split233(m).2;
            let full = if is_32a {
                ImmediateSize::DWord
            } else {
                ImmediateSize::Word
            };
            let absolute: u8 = if is_32a {
                5
            } else {
                6
            };
            if mode == 1 {
                ImmediateSize::Byte
            } else if mode == 2 || (mode == 0 && rm == absolute) {
                full
            } else {
                ImmediateSize::Absent
            }
        },
        None => ImmediateSize::Absent,
    }
}

/// The width of the immediate operand of `opcode`.
pub open spec fn spec_imm_size(opcode: u8, is_32d: bool) -> ImmediateSize {
    if !spec_lookup_byte(IMMEDIATE_MAP, opcode) {
        ImmediateSize::Absent
    } else if spec_lookup_byte(IMMEDIATE_BYTE_MAP, opcode) {
        ImmediateSize::Byte
    } else if spec_lookup_byte(IMMEDIATE_WIDE_MAP, opcode) {
        if is_32d {
            ImmediateSize::DWord
        } else {
            ImmediateSize::Word
        }
    } else if opcode == 0xC2 || opcode == 0xCA {
        ImmediateSize::Word
    } else {
        ImmediateSize::Absent
    }
}

/// The little-endian field of width `size` at `pos`; fails where `code` is too short.
pub open spec fn spec_field(code: Seq<u8>, pos: int, size: ImmediateSize) -> Result<
    Immediate,
    DecodeError,
> {
    if pos + size.spec_len() > code.len() {
        Err(DecodeError::TruncatedInput)
    } else {
        Ok(
            match size {
                ImmediateSize::Absent => Immediate::Absent,
                ImmediateSize::Byte => Immediate::Byte(code[pos]),
                ImmediateSize::Word => Immediate::Word(spec_u16_le(code[pos], code[pos + 1])),
                ImmediateSize::DWord => Immediate::DWord(
                    spec_u32_le(code[pos], code[pos + 1], code[pos + 2], code[pos + 3]),
                ),
            },
        )
    }
}

/// What follows the opcode: ModRM, SIB, displacement and immediate, each present
/// and sized as the bytes before it say. `pos` is the offset just past the opcode.
#[verifier::opaque]
pub open spec fn spec_operands(
    code: Seq<u8>,
    is_32c: bool,
    pre: Prefixes,
    opcode: u8,
    opcode2: Option<u8>,
    pos: int,
) -> Result<Inst, DecodeError> {
    let has_modrm = spec_has_modrm(opcode, opcode2);
    if has_modrm && pos >= code.len() {
        Err(DecodeError::TruncatedInput)
    } else {
        let modrm = if has_modrm {
            Some(code[pos])
        } else {
            None
        };
        let is_32a = is_32c != (pre.addr is Some);
        let is_32d = is_32c != (pre.size is Some);
        let has_sib = spec_has_sib(modrm, is_32a);
        let sib_pos = pos + opt_len(modrm);
        if has_sib && sib_pos >= code.len() {
            Err(DecodeError::TruncatedInput)
        } else {
            let sib = if has_sib {
                Some(code[sib_pos])
            } else {
                None
            };
            let disp_pos = sib_pos + opt_len(sib);
            match spec_field(code, disp_pos, spec_disp_size(modrm, is_32a)) {
                Err(e) => Err(e),
                Ok(displacement) => match spec_field(
                    code,
                    disp_pos + displacement.spec_len(),
                    spec_imm_size(opcode, is_32d),
                ) {
                    Err(e) => Err(e),
                    Ok(immediate) => Ok(
                        Inst {
                            pos: 0,
                            is_invalid: false,
                            is_32c,
                            inst_prefix: pre.inst,
                            addr_prefix: pre.addr,
                            size_prefix: pre.size,
                            segm_prefix: pre.segm,
                            opcode,
                            opcode2,
                            modrm,
                            sib,
                            displacement,
                            immediate,
                        },
                    ),
                },
            }
        }
    }
}

/// The instruction at the front of `code`, decoded with default width `is_32c`.
///
/// Prefixes come first. The opcode must be in the one-byte validity map; after
/// the two-byte escape a second opcode byte is read and checked against its own
/// map. A byte that is needed and missing gives `TruncatedInput`, an opcode
/// outside the maps gives `InvalidOpcode`, whichever comes first in the stream.
pub open spec fn spec_eat(code: Seq<u8>, is_32c: bool) -> Result<Inst, DecodeError> {
    let pre = spec_prefixes(code);
    let at = pre.spec_len();
    if at >= code.len() {
        Err(DecodeError::TruncatedInput)
    } else if !spec_lookup_byte(OPCODE_VALIDITY_MAP, code[at]) {
        Err(DecodeError::InvalidOpcode)
    } else if code[at] != TWO_BYTE_ESCAPE {
        spec_operands(code, is_32c, pre, code[at], None, at + 1)
    } else if at + 1 >= code.len() {
        Err(DecodeError::TruncatedInput)
    } else if !spec_lookup_byte(OPCODE2_VALIDITY_MAP, code[at + 1]) {
        Err(DecodeError::InvalidOpcode)
    } else {
        spec_operands(code, is_32c, pre, code[at], Some(code[at + 1]), at + 2)
    }
}

/// The one-byte placeholder for a byte that could not be decoded.
pub open spec fn spec_gen_invalid(byte: u8) -> Inst {
    Inst {
        pos: 0,
        is_invalid: true,
        is_32c: false,
        inst_prefix: None,
        addr_prefix: None,
        size_prefix: None,
        segm_prefix: None,
        opcode: byte,
        opcode2: None,
        modrm: None,
        sib: None,
        displacement: Immediate::Absent,
        immediate: Immediate::Absent,
    }
}

/// Decoding an instruction fails in two ways only: for want of bytes and for
/// an opcode outside the validity maps.
pub proof fn lemma_eat_failures(code: Seq<u8>, is_32c: bool)
    ensures
        spec_eat(code, is_32c) matches Err(e) ==> e == DecodeError::TruncatedInput || e
            == DecodeError::InvalidOpcode,
        code.len() == 0 ==> spec_eat(code, is_32c) == Err::<Inst, DecodeError>(
            DecodeError::TruncatedInput,
        ),
{
    reveal(spec_operands);
}

/// The prefixes are the front of the code.
proof fn lemma_prefixes_cover(code: Seq<u8>)
    ensures
        ({
            let pre = spec_prefixes(code);
            &&& 0 <= pre.spec_len() <= 4
            &&& pre.spec_len() <= code.len()
            &&& pre.spec_bytes() == code.subrange(0, pre.spec_len())
        }),
{
    let pre = spec_prefixes(code);
    assert(pre.spec_bytes() =~= code.subrange(0, pre.spec_len()));
}

/// A field that was read is the code at the place it was read from.
proof fn lemma_field_covers(code: Seq<u8>, pos: int, size: ImmediateSize)
    requires
        0 <= pos,
        spec_field(code, pos, size) is Ok,
    ensures
        ({
            let field = spec_field(code, pos, size)->Ok_0;
            &&& field.spec_len() == size.spec_len()
            &&& pos + field.spec_len() <= code.len()
            &&& field.spec_bytes() == code.subrange(pos, pos + field.spec_len())
        }),
{
    let field = spec_field(code, pos, size)->Ok_0;
    match size {
        ImmediateSize::Absent => {},
        ImmediateSize::Byte => {},
        ImmediateSize::Word => {
            lemma_u16_le_bytes(code[pos], code[pos + 1]);
        },
        ImmediateSize::DWord => {
            lemma_u32_le_bytes(code[pos], code[pos + 1], code[pos + 2], code[pos + 3]);
        },
    }
    assert(field.spec_bytes() =~= code.subrange(pos, pos + field.spec_len()));
}

/// What follows the opcode is the code from `pos` on, and the rest of the
/// instruction is what was handed in.
proof fn lemma_operands_cover(
    code: Seq<u8>,
    is_32c: bool,
    pre: Prefixes,
    opcode: u8,
    opcode2: Option<u8>,
    pos: int,
)
    requires
        0 <= pos <= code.len(),
        spec_operands(code, is_32c, pre, opcode, opcode2, pos) is Ok,
    ensures
        ({
            let inst = spec_operands(code, is_32c, pre, opcode, opcode2, pos)->Ok_0;
            &&& inst.prefixes() == pre
            &&& inst.opcode == opcode
            &&& inst.opcode2 == opcode2
            &&& !inst.is_invalid
            &&& inst.is_32c == is_32c
            &&& inst.pos == 0
            &&& pos + inst.operand_len() <= code.len()
            &&& inst.operand_bytes() == code.subrange(pos, pos + inst.operand_len())
        }),
{
    reveal(spec_operands);
    let inst = spec_operands(code, is_32c, pre, opcode, opcode2, pos)->Ok_0;
    let is_32a = is_32c != (pre.addr is Some);
    let is_32d = is_32c != (pre.size is Some);
    let sib_pos = pos + opt_len(inst.modrm);
    let disp_pos = sib_pos + opt_len(inst.sib);
    let imm_pos = disp_pos + inst.displacement.spec_len();
    lemma_optional_byte_covers(code, pos, inst.modrm);
    lemma_optional_byte_covers(code, sib_pos, inst.sib);
    lemma_field_covers(code, disp_pos, spec_disp_size(inst.modrm, is_32a));
    lemma_field_covers(code, imm_pos, spec_imm_size(opcode, is_32d));
    lemma_four_adjacent_ranges(
        code,
        pos,
        sib_pos,
        disp_pos,
        imm_pos,
        imm_pos + inst.immediate.spec_len(),
    );
}

/// An optional byte that was read is the code at the place it was read from.
proof fn lemma_optional_byte_covers(code: Seq<u8>, pos: int, byte: Option<u8>)
    requires
        0 <= pos <= code.len(),
        byte matches Some(b) ==> pos < code.len() && b == code[pos],
    ensures
        opt_bytes(byte) == code.subrange(pos, pos + opt_len(byte)),
{
    assert(opt_bytes(byte) =~= code.subrange(pos, pos + opt_len(byte)));
}

/// Four adjacent ranges of a sequence, joined, are the range they span.
proof fn lemma_four_adjacent_ranges(s: Seq<u8>, a: int, b: int, c: int, d: int, e: int)
    requires
        0 <= a <= b <= c <= d <= e <= s.len(),
    ensures
        s.subrange(a, b) + s.subrange(b, c) + s.subrange(c, d) + s.subrange(d, e) == s.subrange(
            a,
            e,
        ),
{
    assert(s.subrange(a, b) + s.subrange(b, c) + s.subrange(c, d) + s.subrange(d, e)
        =~= s.subrange(a, e));
}

/// A decoded instruction is laid out over exactly the bytes it was decoded
/// from: it is at least one byte long, no longer than the code, and its fields,
/// written out in order, are the front of the code.
pub proof fn lemma_eat_consumes_its_encoding(code: Seq<u8>, is_32c: bool)
    requires
        spec_eat(code, is_32c) is Ok,
    ensures
        ({
            let inst = spec_eat(code, is_32c)->Ok_0;
            &&& 1 <= inst.spec_len() <= code.len()
            &&& inst.spec_bytes() == code.subrange(0, inst.spec_len())
            &&& !inst.is_invalid
            &&& inst.is_32c == is_32c
            &&& inst.pos == 0
        }),
{
    let inst = spec_eat(code, is_32c)->Ok_0;
    let pre = spec_prefixes(code);
    let at = pre.spec_len();
    lemma_prefixes_cover(code);
    let opcode2 = if code[at] != TWO_BYTE_ESCAPE {
        None
    } else {
        Some(code[at + 1])
    };
    let pos = at + 1 + opt_len(opcode2);
    assert(inst == spec_operands(code, is_32c, pre, code[at], opcode2, pos)->Ok_0);
    lemma_operands_cover(code, is_32c, pre, code[at], opcode2, pos);
    assert(inst.opcode_bytes() =~= code.subrange(at, pos));
    lemma_adjacent_ranges(code, at, pos, pos + inst.operand_len());
}

/// Decoding looks at the bytes of the instruction and at no other: code that
/// begins with the same bytes decodes to the same instruction.
pub proof fn lemma_eat_reads_only_its_encoding(code: Seq<u8>, other: Seq<u8>, is_32c: bool)
    requires
        spec_eat(code, is_32c) is Ok,
        spec_eat(code, is_32c)->Ok_0.spec_len() <= other.len(),
        forall|i: int|
            0 <= i < spec_eat(code, is_32c)->Ok_0.spec_len() ==> #[trigger] other[i] == code[i],
    ensures
        spec_eat(other, is_32c) == spec_eat(code, is_32c),
{
    let inst = spec_eat(code, is_32c)->Ok_0;
    let pre = spec_prefixes(code);
    let at = pre.spec_len();
    lemma_eat_consumes_its_encoding(code, is_32c);
    lemma_prefixes_cover(code);
    let opcode2 = if code[at] != TWO_BYTE_ESCAPE {
        None
    } else {
        Some(code[at + 1])
    };
    let pos = at + 1 + opt_len(opcode2);
    assert(inst == spec_operands(code, is_32c, pre, code[at], opcode2, pos)->Ok_0);
    lemma_operands_cover(code, is_32c, pre, code[at], opcode2, pos);
    assert(other[0] == code[0]);
    assert(other[at] == code[at]);
    assert(spec_prefixes(other) == pre);
    lemma_operands_read_only_their_bytes(code, other, is_32c, pre, code[at], opcode2, pos);
}

/// What follows the opcode is decoded from its own bytes and from no other.
proof fn lemma_operands_read_only_their_bytes(
    code: Seq<u8>,
    other: Seq<u8>,
    is_32c: bool,
    pre: Prefixes,
    opcode: u8,
    opcode2: Option<u8>,
    pos: int,
)
    requires
        0 <= pos <= code.len(),
        spec_operands(code, is_32c, pre, opcode, opcode2, pos) is Ok,
        pos + spec_operands(code, is_32c, pre, opcode, opcode2, pos)->Ok_0.operand_len()
            <= other.len(),
        forall|i: int|
            pos <= i < pos + spec_operands(
                code,
                is_32c,
                pre,
                opcode,
                opcode2,
                pos,
            )->Ok_0.operand_len() ==> #[trigger] other[i] == code[i],
    ensures
        spec_operands(other, is_32c, pre, opcode, opcode2, pos) == spec_operands(
            code,
            is_32c,
            pre,
            opcode,
            opcode2,
            pos,
        ),
{
    reveal(spec_operands);
    let inst = spec_operands(code, is_32c, pre, opcode, opcode2, pos)->Ok_0;
    let sib_pos = pos + opt_len(inst.modrm);
    let disp_pos = sib_pos + opt_len(inst.sib);
    let imm_pos = disp_pos + inst.displacement.spec_len();
    if inst.modrm is Some {
        assert(other[pos] == code[pos]);
    }
    if inst.sib is Some {
        assert(other[sib_pos] == code[sib_pos]);
    }
    lemma_field_reads_only_its_bytes(
        code,
        other,
        disp_pos,
        spec_disp_size(inst.modrm, is_32c != (pre.addr is Some)),
    );
    lemma_field_reads_only_its_bytes(
        code,
        other,
        imm_pos,
        spec_imm_size(opcode, is_32c != (pre.size is Some)),
    );
}

/// A field is read from its own bytes and from no other.
proof fn lemma_field_reads_only_its_bytes(
    code: Seq<u8>,
    other: Seq<u8>,
    pos: int,
    size: ImmediateSize,
)
    requires
        0 <= pos,
        spec_field(code, pos, size) is Ok,
        pos + size.spec_len() <= other.len(),
        forall|i: int| pos <= i < pos + size.spec_len() ==> #[trigger] other[i] == code[i],
    ensures
        spec_field(other, pos, size) == spec_field(code, pos, size),
{
    match size {
        ImmediateSize::Absent => {},
        ImmediateSize::Byte => {
            assert(other[pos] == code[pos]);
        },
        ImmediateSize::Word => {
            assert(other[pos] == code[pos]);
            assert(other[pos + 1] == code[pos + 1]);
        },
        ImmediateSize::DWord => {
            assert(other[pos] == code[pos]);
            assert(other[pos + 1] == code[pos + 1]);
            assert(other[pos + 2] == code[pos + 2]);
            assert(other[pos + 3] == code[pos + 3]);
        },
    }
}

/// Three adjacent ranges of a sequence, joined, are the range they span from its start.
proof fn lemma_adjacent_ranges(s: Seq<u8>, a: int, b: int, c: int)
    requires
        0 <= a <= b <= c <= s.len(),
    ensures
        s.subrange(0, a) + s.subrange(a, b) + s.subrange(b, c) == s.subrange(0, c),
{
    assert(s.subrange(0, a) + s.subrange(a, b) + s.subrange(b, c) =~= s.subrange(0, c));
}

fn field_width(size: ImmediateSize) -> (n: usize)
    ensures
        n == size.spec_len(),
{
    match size {
        ImmediateSize::Absent => 0,
        ImmediateSize::Byte => 1,
        ImmediateSize::Word => 2,
        ImmediateSize::DWord => 4,
    }
}

/// Reads a little-endian field of width `size`.
fn eat_field(eater: &mut SimpleEater, size: ImmediateSize) -> (res: Result<Immediate, DecodeError>)
    requires
        old(eater).pos <= old(eater).code@.len(),
    ensures
        final(eater).code == old(eater).code,
        res == spec_field(old(eater).code@, old(eater).pos as int, size),
        res matches Ok(field) ==> final(eater).pos == old(eater).pos + field.spec_len(),
        final(eater).pos <= final(eater).code@.len(),
{
    if field_width(size) > eater.code.len() - eater.pos {
        return Err(DecodeError::TruncatedInput);
    }
    Ok(
        match size {
            ImmediateSize::Absent => Immediate::Absent,
            ImmediateSize::Byte => Immediate::Byte(eater.next()?),
            ImmediateSize::Word => {
                let b0: u8 = eater.next()?;
                let b1: u8 = eater.next()?;
                Immediate::Word(u16_from_le(b0, b1))
            },
            ImmediateSize::DWord => {
                let b0: u8 = eater.next()?;
                let b1: u8 = eater.next()?;
                let b2: u8 = eater.next()?;
                let b3: u8 = eater.next()?;
                Immediate::DWord(u32_from_le(b0, b1, b2, b3))
            },
        },
    )
}

/// Tells from the ModRM byte and the address width how wide the displacement is.
fn disp_size(modrm: Option<u8>, is_32a: bool) -> (size: ImmediateSize)
    ensures
        size == spec_disp_size(modrm, is_32a),
{
    if let Some(modrm) = modrm {
        let (mod_, _, rm) = split233(modrm);
        if is_32a {
            if mod_ == 1 {
                ImmediateSize::Byte
            } else if mod_ == 2 {
                ImmediateSize::DWord
            } else if mod_ == 0 && rm == 5 {
                ImmediateSize::DWord
            } else {
                ImmediateSize::Absent
            }
        } else {
            if mod_ == 1 {
                ImmediateSize::Byte
            } else if mod_ == 2 {
                ImmediateSize::Word
            } else if mod_ == 0 && rm == 6 {
                ImmediateSize::Word
            } else {
                ImmediateSize::Absent
            }
        }
    } else {
        ImmediateSize::Absent
    }
}

/// Tells from the opcode and the operand width how wide the immediate is.
fn imm_size(opcode: u8, is_32d: bool) -> (size: ImmediateSize)
    ensures
        size == spec_imm_size(opcode, is_32d),
{
    if !lookup_byte(&IMMEDIATE_MAP, opcode) {
        ImmediateSize::Absent
    } else if lookup_byte(&IMMEDIATE_BYTE_MAP, opcode) {
        ImmediateSize::Byte
    } else if lookup_byte(&IMMEDIATE_WIDE_MAP, opcode) {
        if is_32d {
            ImmediateSize::DWord
        } else {
            ImmediateSize::Word
        }
    } else if opcode == 0xC2 || opcode == 0xCA {
        ImmediateSize::Word
    } else {
        ImmediateSize::Absent
    }
}

/// Takes the prefixes at the front of the code.
fn eat_prefixes(eater: &mut SimpleEater) -> (pre: Prefixes)
    requires
        old(eater).pos == 0,
    ensures
        final(eater).code == old(eater).code,
        pre == spec_prefixes(old(eater).code@),
        final(eater).pos == pre.spec_len(),
        final(eater).pos <= final(eater).code@.len(),
{
    let wants_inst = |b: u8| -> (r: bool)
        ensures
            r == is_inst_prefix(b),
        {
            b == 0xF0 || b == 0xF2 || b == 0xF3
        };
    let wants_addr = |b: u8| -> (r: bool)
        ensures
            r == is_addr_prefix(b),
        {
            b == 0x67
        };
    let wants_size = |b: u8| -> (r: bool)
        ensures
            r == is_size_prefix(b),
        {
            b == 0x66
        };
    let wants_segm = |b: u8| -> (r: bool)
        ensures
            r == is_segm_prefix(b),
        {
            b == 0x26 || b == 0x2E || b == 0x36 || b == 0x3E || b == 0x64 || b == 0x65
        };
    let inst = eater.next_if(wants_inst);
    let addr = eater.next_if(wants_addr);
    let size = eater.next_if(wants_size);
    let segm = eater.next_if(wants_segm);
    Prefixes { inst, addr, size, segm }
}

/// Reads what follows the opcode and puts the instruction together.
fn eat_operands(
    eater: &mut SimpleEater,
    is_32c: bool,
    pre: Prefixes,
    opcode: u8,
    opcode2: Option<u8>,
) -> (res: Result<Inst, DecodeError>)
    requires
        old(eater).pos <= old(eater).code@.len(),
    ensures
        final(eater).code == old(eater).code,
        res == spec_operands(
            old(eater).code@,
            is_32c,
            pre,
            opcode,
            opcode2,
            old(eater).pos as int,
        ),
{
    proof {
        reveal(spec_operands);
    }
    let has_modrm = if let Some(opcode2) = opcode2 {
        lookup_byte(&HAS_MODRM2, opcode2)
    } else {
        lookup_byte(&HAS_MODRM, opcode)
    };
    let modrm = if has_modrm {
        Some(eater.next()?)
    } else {
        None
    };

    let is_32a = is_32c ^ pre.addr.is_some();
    let is_32d = is_32c ^ pre.size.is_some();

    let has_sib = if let Some(modrm) = modrm {
        let (mod_, _, rm) = split233(modrm);
        is_32a && rm == 4 && mod_ != 3
    } else {
        false
    };
    let sib = if has_sib {
        Some(eater.next()?)
    } else {
        None
    };

    let displacement = eat_field(eater, disp_size(modrm, is_32a))?;
    let immediate = eat_field(eater, imm_size(opcode, is_32d))?;

    Ok(
        Inst {
            pos: 0,
            is_invalid: false,
            is_32c,
            inst_prefix: pre.inst,
            addr_prefix: pre.addr,
            size_prefix: pre.size,
            segm_prefix: pre.segm,
            opcode,
            opcode2,
            modrm,
            sib,
            displacement,
            immediate,
        },
    )
}

/// Decodes the instruction at the front of `code`.
///
/// `is_32c` says whether addresses and operands are 32 bits wide by default.
/// The result is exactly [`spec_eat`]; a decoded instruction covers at least
/// one byte and never more than `code` holds.
pub fn eat(code: &[u8], is_32c: bool) -> (res: Result<Inst, DecodeError>)
    ensures
        res == spec_eat(code@, is_32c),
        res matches Ok(inst) ==> 1 <= inst.spec_len() <= code@.len(),
{
    let mut eater = SimpleEater::new(code);
    let pre = eat_prefixes(&mut eater);

    let opcode = eater.next()?;
    if !lookup_byte(&OPCODE_VALIDITY_MAP, opcode) {
        return Err(DecodeError::InvalidOpcode);
    }
    let opcode2 = if opcode == TWO_BYTE_ESCAPE {
        Some(eater.next()?)
    } else {
        None
    };
    if let Some(opcode2) = opcode2 {
        if !lookup_byte(&OPCODE2_VALIDITY_MAP, opcode2) {
            return Err(DecodeError::InvalidOpcode);
        }
    }
    let res = eat_operands(&mut eater, is_32c, pre, opcode, opcode2);
    proof {
        if res is Ok {
            lemma_eat_consumes_its_encoding(code@, is_32c);
        }
    }
    res
}

/// Makes the one-byte placeholder for a byte that could not be decoded.
pub fn gen_invalid(byte: u8) -> (inst: Inst)
    ensures
        inst == spec_gen_invalid(byte),
        inst.spec_len() == 1,
{
    Inst {
        pos: 0,
        is_invalid: true,
        is_32c: false,
        inst_prefix: None,
        addr_prefix: None,
        size_prefix: None,
        segm_prefix: None,
        opcode: byte,
        opcode2: None,
        modrm: None,
        sib: None,
        displacement: Immediate::Absent,
        immediate: Immediate::Absent,
    }
}

impl Inst {
    /// The same instruction, listed at offset `pos`.
    pub open spec fn at_pos(self, pos: usize) -> Inst {
        Inst {
            pos,
            is_invalid: self.is_invalid,
            is_32c: self.is_32c,
            inst_prefix: self.inst_prefix,
            addr_prefix: self.addr_prefix,
            size_prefix: self.size_prefix,
            segm_prefix: self.segm_prefix,
            opcode: self.opcode,
            opcode2: self.opcode2,
            modrm: self.modrm,
            sib: self.sib,
            displacement: self.displacement,
            immediate: self.immediate,
        }
    }

    /// The offset just past the instruction.
    pub open spec fn spec_end(&self) -> int {
        self.pos + self.spec_len()
    }
}

/// The listing entry for offset `pos` of `code`: the instruction decoded from
/// there on, or the placeholder for the byte at `pos` where decoding fails.
pub open spec fn spec_inst_at(code: Seq<u8>, pos: int, is_32: bool) -> Inst {
    match spec_eat(code.subrange(pos, code.len() as int), is_32) {
        Ok(inst) => inst.at_pos(pos as usize),
        Err(_) => spec_gen_invalid(code[pos]).at_pos(pos as usize),
    }
}

/// The listing of `code` from offset `pos` on: one entry after the other, each
/// starting where the one before it ends, until the code is used up.
pub open spec fn spec_disassemble(code: Seq<u8>, pos: int, is_32: bool) -> Seq<Inst>
    decreases code.len() - pos,
{
    if 0 <= pos < code.len() {
        let inst = spec_inst_at(code, pos, is_32);
        proof {
            lemma_inst_at_fits(code, pos, is_32);
        }
        seq![inst] + spec_disassemble(code, pos + inst.spec_len(), is_32)
    } else {
        seq![]
    }
}

/// Every listing entry covers at least one byte and stays inside the code.
pub proof fn lemma_inst_at_fits(code: Seq<u8>, pos: int, is_32: bool)
    requires
        0 <= pos < code.len(),
    ensures
        1 <= spec_inst_at(code, pos, is_32).spec_len() <= code.len() - pos,
{
    let rest = code.subrange(pos, code.len() as int);
    if spec_eat(rest, is_32) is Ok {
        lemma_eat_consumes_its_encoding(rest, is_32);
    }
}

/// A listing entry that is no placeholder is laid out over the code at its offset.
pub proof fn lemma_inst_at_progress(code: Seq<u8>, pos: int, is_32: bool)
    requires
        0 <= pos < code.len(),
        code.len() <= usize::MAX,
    ensures
        ({
            let inst = spec_inst_at(code, pos, is_32);
            &&& inst.pos == pos
            &&& 1 <= inst.spec_len()
            &&& inst.spec_end() <= code.len()
            &&& !inst.is_invalid ==> inst.spec_bytes() == code.subrange(pos, inst.spec_end())
        }),
{
    let rest = code.subrange(pos, code.len() as int);
    lemma_inst_at_fits(code, pos, is_32);
    if spec_eat(rest, is_32) is Ok {
        lemma_eat_consumes_its_encoding(rest, is_32);
        let inst = spec_inst_at(code, pos, is_32);
        assert(rest.subrange(0, inst.spec_len()) =~= code.subrange(pos, inst.spec_end()));
    }
}

/// A listing tiles the code. Its entries are in the order of their offsets, the
/// first one starts at `pos`, each one starts where the one before it ends, and
/// the last one ends with the code: decoding advances by at least one byte per
/// entry, so a listing of `n` bytes has at most `n` entries.
pub proof fn lemma_listing_tiles(code: Seq<u8>, pos: int, is_32: bool)
    requires
        0 <= pos <= code.len(),
        code.len() <= usize::MAX,
    ensures
        ({
            let insts = spec_disassemble(code, pos, is_32);
            &&& insts.len() <= code.len() - pos
            &&& (insts.len() == 0 <==> pos == code.len())
            &&& insts.len() > 0 ==> insts[0].pos == pos && insts.last().spec_end() == code.len()
            &&& forall|i: int|
                0 <= i < insts.len() ==> {
                    &&& 1 <= (#[trigger] insts[i]).spec_len()
                    &&& pos <= insts[i].pos < code.len()
                    &&& insts[i] == spec_inst_at(code, insts[i].pos as int, is_32)
                }
            &&& forall|i: int, j: int|
                0 <= i && j == i + 1 && j < insts.len() ==> (#[trigger] insts[j]).pos
                    == (#[trigger] insts[i]).spec_end()
        }),
    decreases code.len() - pos,
{
    if pos < code.len() {
        let inst = spec_inst_at(code, pos, is_32);
        lemma_inst_at_progress(code, pos, is_32);
        let rest = spec_disassemble(code, inst.spec_end(), is_32);
        lemma_listing_tiles(code, inst.spec_end(), is_32);
        let insts = spec_disassemble(code, pos, is_32);
        assert(insts == seq![inst] + rest);
        assert(insts[0] == inst);
        assert forall|i: int| 0 < i < insts.len() implies insts[i] == rest[i - 1] by {}
        assert forall|i: int, j: int|
            0 <= i && j == i + 1 && j < insts.len() implies (#[trigger] insts[j]).pos
            == (#[trigger] insts[i]).spec_end() by {
            if i == 0 {
                assert(insts[j] == rest[0]);
            } else {
                assert(insts[i] == rest[i - 1]);
                assert(insts[j] == rest[j - 1]);
            }
        }
    }
}

/// Lists the instructions of `code`, decoded with default width `is_32`.
///
/// Each entry is what [`eat`] makes of the code from the entry's offset on; where
/// it fails, the entry is the one-byte placeholder of [`gen_invalid`], so that the
/// listing goes on with the next byte. The entries tile the code: see
/// [`lemma_listing_tiles`].
pub fn disassemble(code: &[u8], is_32: bool) -> (insts: Vec<Inst>)
    ensures
        insts@ == spec_disassemble(code@, 0, is_32),
        insts@.len() <= code@.len(),
        insts@.len() > 0 ==> insts@[0].pos == 0 && insts@.last().spec_end() == code@.len(),
        forall|i: int| 0 <= i < insts@.len() ==> 1 <= (#[trigger] insts@[i]).spec_len(),
{
    let mut insts: Vec<Inst> = Vec::new();
    let mut pos: usize = 0;
    while pos < code.len()
        invariant
            pos <= code@.len(),
            spec_disassemble(code@, 0, is_32) == insts@ + spec_disassemble(code@, pos as int, is_32),
        decreases code@.len() - pos,
    {
        let rest = slice_subrange(code, pos, code.len());
        let mut inst = match eat(rest, is_32) {
            Ok(inst) => inst,
            Err(_) => gen_invalid(code[pos]),
        };
        inst.pos = pos;
        proof {
            lemma_inst_at_progress(code@, pos as int, is_32);
            assert(inst == spec_inst_at(code@, pos as int, is_32));
            let after = spec_disassemble(code@, pos + inst.spec_len(), is_32);
            assert(insts@ + (seq![inst] + after) =~= insts@.push(inst) + after);
        }
        pos += inst.len();
        insts.push(inst);
    }
    proof {
        lemma_listing_tiles(code@, 0, is_32);
        assert(insts@ + spec_disassemble(code@, pos as int, is_32) =~= insts@);
    }
    insts
}

} // verus!
