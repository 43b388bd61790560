//! The textual form of decoded instructions.
//!
//! The text is a projection of the decoded fields and of nothing else. Operands
//! are written with a `%` before register names and a `$` before immediates;
//! numbers are written in hexadecimal as the bits stand in the instruction.
//! Only a few opcode groups are spelled out. Everything else, and every memory
//! operand under 32-bit addressing, is written as `...`.

use vstd::prelude::*;
use vstd::string::*;
use crate::x86::{spec_split233, split233, Immediate, Inst};

verus! {

/// The hexadecimal digit for `d`, lower case.
pub open spec fn spec_hex_digit(d: int) -> char {
    if d == 0 {
        '0'
    } else if d == 1 {
        '1'
    } else if d == 2 {
        '2'
    } else if d == 3 {
        '3'
    } else if d == 4 {
        '4'
    } else if d == 5 {
        '5'
    } else if d == 6 {
        '6'
    } else if d == 7 {
        '7'
    } else if d == 8 {
        '8'
    } else if d == 9 {
        '9'
    } else if d == 10 {
        'a'
    } else if d == 11 {
        'b'
    } else if d == 12 {
        'c'
    } else if d == 13 {
        'd'
    } else if d == 14 {
        'e'
    } else {
        'f'
    }
}

/// `v` in hexadecimal, lower case, without leading zeros; zero is one digit.
pub open spec fn spec_hex(v: nat) -> Seq<char>
    decreases v,
{
    if v < 16 {
        seq![spec_hex_digit(v as int)]
    } else {
        spec_hex(v / 16) + seq![spec_hex_digit((v % 16) as int)]
    }
}

/// A number as it is written in an operand: `0x` and its hexadecimal digits.
pub open spec fn spec_hex_literal(v: nat) -> Seq<char> {
    "0x"@ + spec_hex(v)
}

fn hex_digit(d: u32) -> (s: &'static str)
    requires
        d < 16,
    ensures
        s@ == seq![spec_hex_digit(d as int)],
{
    proof {
        reveal_strlit("0");
        reveal_strlit("1");
        reveal_strlit("2");
        reveal_strlit("3");
        reveal_strlit("4");
        reveal_strlit("5");
        reveal_strlit("6");
        reveal_strlit("7");
        reveal_strlit("8");
        reveal_strlit("9");
        reveal_strlit("a");
        reveal_strlit("b");
        reveal_strlit("c");
        reveal_strlit("d");
        reveal_strlit("e");
        reveal_strlit("f");
    }
    let s = if d == 0 {
        "0"
    } else if d == 1 {
        "1"
    } else if d == 2 {
        "2"
    } else if d == 3 {
        "3"
    } else if d == 4 {
        "4"
    } else if d == 5 {
        "5"
    } else if d == 6 {
        "6"
    } else if d == 7 {
        "7"
    } else if d == 8 {
        "8"
    } else if d == 9 {
        "9"
    } else if d == 10 {
        "a"
    } else if d == 11 {
        "b"
    } else if d == 12 {
        "c"
    } else if d == 13 {
        "d"
    } else if d == 14 {
        "e"
    } else {
        "f"
    };
    assert(s@ =~= seq![spec_hex_digit(d as int)]);
    s
}

/// Appends `v` in hexadecimal to `out`.
fn push_hex(out: &mut String, v: u32)
    ensures
        final(out)@ == old(out)@ + spec_hex(v as nat),
    decreases v,
{
    if v >= 16 {
        push_hex(out, v / 16);
    }
    out.append(hex_digit(v % 16));
    proof {
        if v >= 16 {
            assert(old(out)@ + spec_hex((v / 16) as nat) + seq![spec_hex_digit((v % 16) as int)]
                =~= old(out)@ + spec_hex(v as nat));
        }
    }
}

impl Immediate {
    /// The bits of the field as a number; zero where the field is absent.
    pub open spec fn spec_bits(&self) -> nat {
        match self {
            Immediate::Absent => 0,
            Immediate::Byte(x) => *x as nat,
            Immediate::Word(x) => *x as nat,
            Immediate::DWord(x) => *x as nat,
        }
    }

    /// The bits of the field as a number; zero where the field is absent.
    pub fn bits(&self) -> (v: u32)
        ensures
            v == self.spec_bits(),
    {
        match self {
            Immediate::Absent => 0,
            Immediate::Byte(x) => *x as u32,
            Immediate::Word(x) => *x as u32,
            Immediate::DWord(x) => *x,
        }
    }
}

/// A displacement as it is written in a memory operand.
#[derive(Debug, Clone, Copy, PartialEq, Eq)]
pub struct DispDisp(pub Immediate);

/// An immediate as it is written as an operand.
#[derive(Debug, Clone, Copy, PartialEq, Eq)]
pub struct SignedImmDisp(pub Immediate);

impl DispDisp {
    /// Nothing for an absent displacement, else its bits in hexadecimal.
    pub open spec fn spec_text(&self) -> Seq<char> {
        if self.0 is Absent {
            Seq::empty()
        } else {
            spec_hex_literal(self.0.spec_bits())
        }
    }

    /// The text of the displacement.
    pub fn to_string(&self) -> (s: String)
        ensures
            s@ == self.spec_text(),
    {
        let mut s = String::new();
        match self.0 {
            Immediate::Absent => {},
            _ => {
                s.append("0x");
                push_hex(&mut s, self.0.bits());
                assert(s@ =~= self.spec_text());
            },
        }
        s
    }
}

impl SignedImmDisp {
    /// Nothing for an absent immediate, else `$` and its bits in hexadecimal.
    pub open spec fn spec_text(&self) -> Seq<char> {
        if self.0 is Absent {
            Seq::empty()
        } else {
            "$"@ + spec_hex_literal(self.0.spec_bits())
        }
    }

    /// The text of the immediate.
    pub fn to_string(&self) -> (s: String)
        ensures
            s@ == self.spec_text(),
    {
        let mut s = String::new();
        match self.0 {
            Immediate::Absent => {},
            _ => {
                s.append("$");
                s.append("0x");
                push_hex(&mut s, self.0.bits());
                assert(s@ =~= self.spec_text());
            },
        }
        s
    }
}

/// The name of register `id`: one of the byte registers where `wide` is not
/// set, else one of the 16-bit or, with `is_32d`, of the 32-bit registers.
pub open spec fn spec_regname(id: u8, is_32d: bool, wide: bool) -> Seq<char> {
    if !wide {
        if id == 0 {
            "al"@
        } else if id == 1 {
            "cl"@
        } else if id == 2 {
            "dl"@
        } else if id == 3 {
            "bl"@
        } else if id == 4 {
            "ah"@
        } else if id == 5 {
            "ch"@
        } else if id == 6 {
            "dh"@
        } else {
            "bh"@
        }
    } else if !is_32d {
        if id == 0 {
            "ax"@
        } else if id == 1 {
            "cx"@
        } else if id == 2 {
            "dx"@
        } else if id == 3 {
            "bx"@
        } else if id == 4 {
            "sp"@
        } else if id == 5 {
            "bp"@
        } else if id == 6 {
            "si"@
        } else {
            "di"@
        }
    } else {
        if id == 0 {
            "eax"@
        } else if id == 1 {
            "ecx"@
        } else if id == 2 {
            "edx"@
        } else if id == 3 {
            "ebx"@
        } else if id == 4 {
            "esp"@
        } else if id == 5 {
            "ebp"@
        } else if id == 6 {
            "esi"@
        } else {
            "edi"@
        }
    }
}

/// Within one width no two registers share a name, and every name is two or
/// three letters long.
pub proof fn lemma_regnames_differ(a: u8, b: u8, is_32d: bool, wide: bool)
    requires
        a < 8,
        b < 8,
        a != b,
    ensures
        spec_regname(a, is_32d, wide) != spec_regname(b, is_32d, wide),
        2 <= spec_regname(a, is_32d, wide).len() <= 3,
{
    reveal_strlit("al");
    reveal_strlit("cl");
    reveal_strlit("dl");
    reveal_strlit("bl");
    reveal_strlit("ah");
    reveal_strlit("ch");
    reveal_strlit("dh");
    reveal_strlit("bh");
    reveal_strlit("ax");
    reveal_strlit("cx");
    reveal_strlit("dx");
    reveal_strlit("bx");
    reveal_strlit("sp");
    reveal_strlit("bp");
    reveal_strlit("si");
    reveal_strlit("di");
    reveal_strlit("eax");
    reveal_strlit("ecx");
    reveal_strlit("edx");
    reveal_strlit("ebx");
    reveal_strlit("esp");
    reveal_strlit("ebp");
    reveal_strlit("esi");
    reveal_strlit("edi");
    let x = spec_regname(a, is_32d, wide);
    let y = spec_regname(b, is_32d, wide);
    assert(x[0] != y[0] || x[1] != y[1] || x[x.len() - 1] != y[y.len() - 1]);
}

/// The name of register `id`, which is a three-bit field.
pub fn regname(id: u8, is_32d: bool, wide: bool) -> (name: &'static str)
    requires
        id < 8,
    ensures
        name@ == spec_regname(id, is_32d, wide),
{
    if !wide {
        if id == 0 {
            "al"
        } else if id == 1 {
            "cl"
        } else if id == 2 {
            "dl"
        } else if id == 3 {
            "bl"
        } else if id == 4 {
            "ah"
        } else if id == 5 {
            "ch"
        } else if id == 6 {
            "dh"
        } else {
            "bh"
        }
    } else if !is_32d {
        if id == 0 {
            "ax"
        } else if id == 1 {
            "cx"
        } else if id == 2 {
            "dx"
        } else if id == 3 {
            "bx"
        } else if id == 4 {
            "sp"
        } else if id == 5 {
            "bp"
        } else if id == 6 {
            "si"
        } else {
            "di"
        }
    } else {
        if id == 0 {
            "eax"
        } else if id == 1 {
            "ecx"
        } else if id == 2 {
            "edx"
        } else if id == 3 {
            "ebx"
        } else if id == 4 {
            "esp"
        } else if id == 5 {
            "ebp"
        } else if id == 6 {
            "esi"
        } else {
            "edi"
        }
    }
}

/// The 16-bit addressing form that register/memory field `rm` selects.
pub open spec fn spec_rm16(rm: u8) -> Seq<char> {
    if rm == 0 {
        "(%bx,%si)"@
    } else if rm == 1 {
        "(%bx,%di)"@
    } else if rm == 2 {
        "(%bp,%si)"@
    } else if rm == 3 {
        "(%bp,%di)"@
    } else if rm == 4 {
        "(%si)"@
    } else if rm == 5 {
        "(%di)"@
    } else if rm == 6 {
        "(%bp)"@
    } else {
        "(%bx)"@
    }
}

fn rm16(rm: u8) -> (form: &'static str)
    requires
        rm < 8,
    ensures
        form@ == spec_rm16(rm),
{
    if rm == 0 {
        "(%bx,%si)"
    } else if rm == 1 {
        "(%bx,%di)"
    } else if rm == 2 {
        "(%bp,%si)"
    } else if rm == 3 {
        "(%bp,%di)"
    } else if rm == 4 {
        "(%si)"
    } else if rm == 5 {
        "(%di)"
    } else if rm == 6 {
        "(%bp)"
    } else {
        "(%bx)"
    }
}

/// The mnemonic of the arithmetic operation with number `op`.
pub open spec fn spec_opname(op: u8) -> Seq<char> {
    if op == 0 {
        "add"@
    } else if op == 1 {
        "or"@
    } else if op == 2 {
        "adc"@
    } else if op == 3 {
        "sbb"@
    } else if op == 4 {
        "and"@
    } else if op == 5 {
        "sub"@
    } else if op == 6 {
        "xor"@
    } else {
        "cmp"@
    }
}

fn opname(op: u8) -> (name: &'static str)
    requires
        op < 8,
    ensures
        name@ == spec_opname(op),
{
    if op == 0 {
        "add"
    } else if op == 1 {
        "or"
    } else if op == 2 {
        "adc"
    } else if op == 3 {
        "sbb"
    } else if op == 4 {
        "and"
    } else if op == 5 {
        "sub"
    } else if op == 6 {
        "xor"
    } else {
        "cmp"
    }
}

/// The register-or-memory operand of an instruction, ready to be written out.
#[derive(Debug, Clone, Copy, PartialEq, Eq)]
pub struct RmDisp {
    pub is_32a: bool,
    pub is_32d: bool,
    pub wide: bool,
    pub modrm: u8,
    pub disp: Immediate,
}

impl RmDisp {
    /// The text of the operand.
    ///
    /// Mode 3 names a register. Under 32-bit addressing a memory operand is not
    /// spelled out. Under 16-bit addressing it is the displacement, where the
    /// mode has one, and the addressing form; mode 0 with register/memory field 6
    /// is the displacement alone.
    pub open spec fn spec_text(&self) -> Seq<char> {
        let mode = spec_split233(self.modrm).0;
        let rm = spec_split233(self.modrm).2;
        if mode == 3 {
            "%"@ + spec_regname(rm, self.is_32d, self.wide)
        } else if self.is_32a {
            "..."@
        } else if mode == 0 && rm == 6 {
            DispDisp(self.disp).spec_text()
        } else if mode == 0 {
            spec_rm16(rm)
        } else {
            DispDisp(self.disp).spec_text() + spec_rm16(rm)
        }
    }

    /// The text of the operand.
    pub fn to_string(&self) -> (s: String)
        ensures
            s@ == self.spec_text(),
    {
        let (mod_, _, rm) = split233(self.modrm);
        if mod_ == 3 {
            let mut s = String::from_str("%");
            s.append(regname(rm, self.is_32d, self.wide));
            s
        } else if self.is_32a {
            String::from_str("...")
        } else {
            if mod_ == 0 && rm == 6 {
                DispDisp(self.disp).to_string()
            } else if mod_ == 0 {
                String::from_str(rm16(rm))
            } else {
                let mut s = DispDisp(self.disp).to_string();
                s.append(rm16(rm));
                s
            }
        }
    }
}

impl Inst {
    /// The register-or-memory operand, as the ModRM byte and the displacement
    /// give it. An instruction without a ModRM byte is taken as if the byte were zero.
    pub open spec fn spec_rm_name(&self, wide: bool) -> RmDisp {
        RmDisp {
            wide,
            is_32a: self.spec_is_32a(),
            is_32d: self.spec_is_32d(),
            disp: self.displacement,
            modrm: match self.modrm {
                Some(m) => m,
                None => 0,
            },
        }
    }

    /// The name of the register operand, which the middle field of the ModRM byte selects.
    pub open spec fn spec_reg_name(&self, wide: bool) -> Seq<char> {
        spec_regname(
            spec_split233(
                match self.modrm {
                    Some(m) => m,
                    None => 0,
                },
            ).1,
            self.spec_is_32d(),
            wide,
        )
    }

    /// The register-or-memory operand of the instruction.
    pub fn rm_name(&self, wide: bool) -> (operand: RmDisp)
        ensures
            operand == self.spec_rm_name(wide),
    {
        RmDisp {
            wide,
            is_32a: self.is_32a(),
            is_32d: self.is_32d(),
            disp: self.displacement,
            modrm: match self.modrm {
                Some(m) => m,
                None => 0,
            },
        }
    }

    /// The name of the register operand of the instruction.
    pub fn reg_name(&self, wide: bool) -> (name: &'static str)
        ensures
            name@ == self.spec_reg_name(wide),
    {
        let (_, reg, _) = split233(
            match self.modrm {
                Some(m) => m,
                None => 0,
            },
        );
        regname(reg, self.is_32d(), wide)
    }

    /// The two operands of a register/memory instruction in the order that
    /// bit 1 of the opcode asks for: register first where the bit is clear.
    pub open spec fn spec_operand_pair(&self) -> Seq<char> {
        let wide = self.opcode % 2 == 1;
        if self.opcode / 2 % 2 == 0 {
            "%"@ + self.spec_reg_name(wide) + ", "@ + self.spec_rm_name(wide).spec_text()
        } else {
            self.spec_rm_name(wide).spec_text() + ", %"@ + self.spec_reg_name(wide)
        }
    }

    /// The text of the instruction.
    ///
    /// The placeholder is `<invalid>`. Spelled out are the eight arithmetic
    /// operations in their register/memory forms (opcodes below 0x40), the
    /// increments and decrements of a register (0x40 to 0x4F), the arithmetic
    /// operations with an immediate (0x80, 0x81, 0x83) and the moves between
    /// register and memory (0x88 to 0x8B).
    pub open spec fn spec_text(&self) -> Seq<char> {
        let opcode = self.opcode;
        if self.is_invalid {
            "<invalid>"@
        } else if opcode < 0x40 && opcode % 8 < 6 {
            if opcode / 4 % 2 == 0 {
                spec_opname(opcode / 8) + " "@ + self.spec_operand_pair()
            } else {
                spec_opname(opcode / 8) + " ..."@
            }
        } else if 0x40 <= opcode < 0x48 {
            "inc %"@ + spec_regname(opcode % 8, self.spec_is_32d(), true)
        } else if 0x48 <= opcode < 0x50 {
            "dec %"@ + spec_regname(opcode % 8, self.spec_is_32d(), true)
        } else if opcode == 0x55 {
            "nop"@
        } else if opcode == 0x80 || opcode == 0x81 || opcode == 0x83 {
            spec_opname(
                spec_split233(
                    match self.modrm {
                        Some(m) => m,
                        None => 0,
                    },
                ).1,
            ) + " "@ + SignedImmDisp(self.immediate).spec_text() + ", "@ + self.spec_rm_name(
                opcode != 0x80,
            ).spec_text()
        } else if 0x88 <= opcode < 0x8C {
            "mov "@ + self.spec_operand_pair()
        } else {
            "..."@
        }
    }

    /// Appends the two operands of a register/memory instruction.
    fn push_operand_pair(&self, out: &mut String)
        ensures
            final(out)@ == old(out)@ + self.spec_operand_pair(),
    {
        let opcode = self.opcode;
        let wide = opcode & 1 != 0;
        assert((opcode & 1 != 0) == (opcode % 2 == 1)) by (bit_vector);
        assert((opcode & 2 == 0) == (opcode / 2 % 2 == 0)) by (bit_vector);
        let reg = self.reg_name(wide);
        let rm = self.rm_name(wide).to_string();
        if opcode & 2 == 0 {
            out.append("%");
            out.append(reg);
            out.append(", ");
            out.append(rm.as_str());
            assert(out@ =~= old(out)@ + self.spec_operand_pair());
        } else {
            out.append(rm.as_str());
            out.append(", %");
            out.append(reg);
            assert(out@ =~= old(out)@ + self.spec_operand_pair());
        }
    }

    /// The text of the instruction.
    pub fn to_string(&self) -> (s: String)
        ensures
            s@ == self.spec_text(),
    {
        let opcode = self.opcode;
        if self.is_invalid {
            return String::from_str("<invalid>");
        }
        assert(opcode & 7 == opcode % 8) by (bit_vector);
        assert(opcode >> 3 == opcode / 8) by (bit_vector);
        assert((opcode & 4 == 0) == (opcode / 4 % 2 == 0)) by (bit_vector);
        if opcode < 0x40 && opcode & 7 < 6 {
            let mut s = String::from_str(opname(opcode >> 3));
            if opcode & 4 == 0 {
                s.append(" ");
                self.push_operand_pair(&mut s);
                assert(s@ =~= self.spec_text());
            } else {
                s.append(" ...");
                assert(s@ =~= self.spec_text());
            }
            s
        } else if 0x40 <= opcode && opcode < 0x48 {
            let mut s = String::from_str("inc %");
            s.append(regname(opcode & 7, self.is_32d(), true));
            assert(s@ =~= self.spec_text());
            s
        } else if 0x48 <= opcode && opcode < 0x50 {
            let mut s = String::from_str("dec %");
            s.append(regname(opcode & 7, self.is_32d(), true));
            assert(s@ =~= self.spec_text());
            s
        } else if opcode == 0x55 {
            String::from_str("nop")
        } else if opcode == 0x80 || opcode == 0x81 || opcode == 0x83 {
            let (_, subop, _) = split233(
                match self.modrm {
                    Some(m) => m,
                    None => 0,
                },
            );
            let imm = SignedImmDisp(self.immediate).to_string();
            let rm = self.rm_name(opcode != 0x80).to_string();
            let mut s = String::from_str(opname(subop));
            s.append(" ");
            s.append(imm.as_str());
            s.append(", ");
            s.append(rm.as_str());
            assert(s@ =~= self.spec_text());
            s
        } else if 0x88 <= opcode && opcode < 0x8C {
            let mut s = String::from_str("mov ");
            self.push_operand_pair(&mut s);
            assert(s@ =~= self.spec_text());
            s
        } else {
            String::from_str("...")
        }
    }
}

/// The increments and decrements of a register are told apart by their text:
/// two of them that differ in the opcode, decoded at the same operand width,
/// never read the same.
pub proof fn lemma_inc_dec_texts_differ(first: Inst, second: Inst)
    requires
        !first.is_invalid,
        !second.is_invalid,
        0x40 <= first.opcode < 0x50,
        0x40 <= second.opcode < 0x50,
        first.opcode != second.opcode,
        first.spec_is_32d() == second.spec_is_32d(),
    ensures
        first.spec_text() != second.spec_text(),
{
    reveal_strlit("inc %");
    reveal_strlit("dec %");
    let wide = first.spec_is_32d();
    let a = first.spec_text();
    let b = second.spec_text();
    let ra = spec_regname(first.opcode % 8, wide, true);
    let rb = spec_regname(second.opcode % 8, wide, true);
    if (first.opcode < 0x48) != (second.opcode < 0x48) {
        assert(a[0] != b[0]);
    } else {
        lemma_regnames_differ(first.opcode % 8, second.opcode % 8, wide, true);
        lemma_regnames_differ(second.opcode % 8, first.opcode % 8, wide, true);
        if a == b {
            assert(a.subrange(5, a.len() as int) =~= ra);
            assert(b.subrange(5, b.len() as int) =~= rb);
        }
    }
}

} // verus!
