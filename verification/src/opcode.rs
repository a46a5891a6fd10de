//! Instruction set of the register virtual machine that compiled programs
//! target.
//!
//! Every instruction is identified by an opcode tag; the tag alone encodes to
//! exactly four bytes, laid out as a big-endian unsigned 32-bit value, so the
//! wire form is the same on every host regardless of its byte order.

use vstd::prelude::*;

verus! {

/// The closed set of instruction mnemonics of the register machine.
///
/// The comment after each mnemonic gives its operand layout: `rd` is the
/// destination register, `r1`/`r2` are source registers, `imm` is a 32-bit
/// immediate.
#[derive(Debug, Clone, Copy, PartialEq, Eq, Structural)]
#[allow(non_camel_case_types)]
pub enum Opcode {
    SETI,    // rd, imm       ; set register to a 32-bit integer immediate
    SETF,    // rd, imm       ; set register to a 32-bit float immediate
    SETS,    // rd, string    ; intern a string, set register to its handle
    SETNIL,  // rd            ; set register to nil
    STORE,   // rd, r1, imm   ; append r1 to the table picked by imm, index to rd
    LOAD,    // rd, r1, imm   ; load entry r1 of the table picked by imm into rd
    // imm = 0: integer table, 1: float table, 2: string table
    ADD,     // rd, r1, r2
    SUB,     // rd, r1, r2
    MUL,     // rd, r1, r2
    DIV,     // rd, r1, r2
    CVT_I_D, // frd, r1
    CVT_D_I, // rd, fr1
    NEGATE,  // rd, r1
    HLT,
    JMP,     // imm | @label
    JMP_IF,  // r1, imm | @label
    EQ,      // rd, r1, r2
    NEQ,     // rd, r1, r2
    GT,      // rd, r1, r2
    GTE,     // rd, r1, r2
    LT,      // rd, r1, r2
    LTE,     // rd, r1, r2
    BITAND,  // rd, r1, r2
    BITOR,   // rd, r1, r2
    BITXOR,  // rd, r1, r2
    BITNOT,  // rd, r1
    BITSHL,  // rd, r1, imm
    BITSHRL, // rd, r1, imm   ; logical shift right
    BITSHRA, // rd, r1, imm   ; arithmetic (sign-extending) shift right
    VMCALL,  // r1, r2, imm
    // imm = 0: print r1 (newline when r2 holds integer 1)
    // imm = 1: read an int32 into r1
    // imm = 2: read a float32 into r1
    // imm = 3: read a string, handle into r1
    PUSH,    // r1
    POP,     // rd
    GET_LEN, // rd, r1
    SET_ARG, // r1, imm
    GET_ARG, // rd, imm
    CALL,    // rd | @label
    RETURN,  // rd
    NEW_LIST,  // rd
    SET_LIST,  // rd, r1, r2
    GET_LIST,  // rd, r1, r2
    NEW_TABLE, // rd
    SET_TABLE, // rd, r1, r2
    GET_TABLE, // rd, r1, r2
    NEW_ARRAY, // rd
    SET_ARRAY, // rd, r1, r2
    GET_ARRAY, // rd, r1, r2
    IGL,
    NOP,
}

/// The canonical tag of each opcode: its position in the densely packed
/// enumeration, starting from zero.
pub open spec fn spec_opcode_tag(op: Opcode) -> u32 {
    match op {
        Opcode::SETI => 0,
        Opcode::SETF => 1,
        Opcode::SETS => 2,
        Opcode::SETNIL => 3,
        Opcode::STORE => 4,
        Opcode::LOAD => 5,
        Opcode::ADD => 6,
        Opcode::SUB => 7,
        Opcode::MUL => 8,
        Opcode::DIV => 9,
        Opcode::CVT_I_D => 10,
        Opcode::CVT_D_I => 11,
        Opcode::NEGATE => 12,
        Opcode::HLT => 13,
        Opcode::JMP => 14,
        Opcode::JMP_IF => 15,
        Opcode::EQ => 16,
        Opcode::NEQ => 17,
        Opcode::GT => 18,
        Opcode::GTE => 19,
        Opcode::LT => 20,
        Opcode::LTE => 21,
        Opcode::BITAND => 22,
        Opcode::BITOR => 23,
        Opcode::BITXOR => 24,
        Opcode::BITNOT => 25,
        Opcode::BITSHL => 26,
        Opcode::BITSHRL => 27,
        Opcode::BITSHRA => 28,
        Opcode::VMCALL => 29,
        Opcode::PUSH => 30,
        Opcode::POP => 31,
        Opcode::GET_LEN => 32,
        Opcode::SET_ARG => 33,
        Opcode::GET_ARG => 34,
        Opcode::CALL => 35,
        Opcode::RETURN => 36,
        Opcode::NEW_LIST => 37,
        Opcode::SET_LIST => 38,
        Opcode::GET_LIST => 39,
        Opcode::NEW_TABLE => 40,
        Opcode::SET_TABLE => 41,
        Opcode::GET_TABLE => 42,
        Opcode::NEW_ARRAY => 43,
        Opcode::SET_ARRAY => 44,
        Opcode::GET_ARRAY => 45,
        Opcode::IGL => 46,
        Opcode::NOP => 47,
    }
}

/// The big-endian four-byte layout of a 32-bit word.
pub open spec fn spec_be_bytes(value: u32) -> Seq<u8> {
    seq![
        (value >> 24) as u8,
        ((value >> 16) & 0xFF) as u8,
        ((value >> 8) & 0xFF) as u8,
        (value & 0xFF) as u8,
    ]
}

/// The opcode whose tag is `value`, if any.
pub open spec fn spec_opcode_of_tag(value: u32) -> Option<Opcode> {
    if value == 0 { Some(Opcode::SETI) }
    else if value == 1 { Some(Opcode::SETF) }
    else if value == 2 { Some(Opcode::SETS) }
    else if value == 3 { Some(Opcode::SETNIL) }
    else if value == 4 { Some(Opcode::STORE) }
    else if value == 5 { Some(Opcode::LOAD) }
    else if value == 6 { Some(Opcode::ADD) }
    else if value == 7 { Some(Opcode::SUB) }
    else if value == 8 { Some(Opcode::MUL) }
    else if value == 9 { Some(Opcode::DIV) }
    else if value == 10 { Some(Opcode::CVT_I_D) }
    else if value == 11 { Some(Opcode::CVT_D_I) }
    else if value == 12 { Some(Opcode::NEGATE) }
    else if value == 13 { Some(Opcode::HLT) }
    else if value == 14 { Some(Opcode::JMP) }
    else if value == 15 { Some(Opcode::JMP_IF) }
    else if value == 16 { Some(Opcode::EQ) }
    else if value == 17 { Some(Opcode::NEQ) }
    else if value == 18 { Some(Opcode::GT) }
    else if value == 19 { Some(Opcode::GTE) }
    else if value == 20 { Some(Opcode::LT) }
    else if value == 21 { Some(Opcode::LTE) }
    else if value == 22 { Some(Opcode::BITAND) }
    else if value == 23 { Some(Opcode::BITOR) }
    else if value == 24 { Some(Opcode::BITXOR) }
    else if value == 25 { Some(Opcode::BITNOT) }
    else if value == 26 { Some(Opcode::BITSHL) }
    else if value == 27 { Some(Opcode::BITSHRL) }
    else if value == 28 { Some(Opcode::BITSHRA) }
    else if value == 29 { Some(Opcode::VMCALL) }
    else if value == 30 { Some(Opcode::PUSH) }
    else if value == 31 { Some(Opcode::POP) }
    else if value == 32 { Some(Opcode::GET_LEN) }
    else if value == 33 { Some(Opcode::SET_ARG) }
    else if value == 34 { Some(Opcode::GET_ARG) }
    else if value == 35 { Some(Opcode::CALL) }
    else if value == 36 { Some(Opcode::RETURN) }
    else if value == 37 { Some(Opcode::NEW_LIST) }
    else if value == 38 { Some(Opcode::SET_LIST) }
    else if value == 39 { Some(Opcode::GET_LIST) }
    else if value == 40 { Some(Opcode::NEW_TABLE) }
    else if value == 41 { Some(Opcode::SET_TABLE) }
    else if value == 42 { Some(Opcode::GET_TABLE) }
    else if value == 43 { Some(Opcode::NEW_ARRAY) }
    else if value == 44 { Some(Opcode::SET_ARRAY) }
    else if value == 45 { Some(Opcode::GET_ARRAY) }
    else if value == 46 { Some(Opcode::IGL) }
    else if value == 47 { Some(Opcode::NOP) }
    else { None }
}

/// The tag of `op` as an executable value.
pub fn opcode_tag(op: Opcode) -> (t: u32)
    ensures
        t == spec_opcode_tag(op),
{
    match op {
        Opcode::SETI => 0,
        Opcode::SETF => 1,
        Opcode::SETS => 2,
        Opcode::SETNIL => 3,
        Opcode::STORE => 4,
        Opcode::LOAD => 5,
        Opcode::ADD => 6,
        Opcode::SUB => 7,
        Opcode::MUL => 8,
        Opcode::DIV => 9,
        Opcode::CVT_I_D => 10,
        Opcode::CVT_D_I => 11,
        Opcode::NEGATE => 12,
        Opcode::HLT => 13,
        Opcode::JMP => 14,
        Opcode::JMP_IF => 15,
        Opcode::EQ => 16,
        Opcode::NEQ => 17,
        Opcode::GT => 18,
        Opcode::GTE => 19,
        Opcode::LT => 20,
        Opcode::LTE => 21,
        Opcode::BITAND => 22,
        Opcode::BITOR => 23,
        Opcode::BITXOR => 24,
        Opcode::BITNOT => 25,
        Opcode::BITSHL => 26,
        Opcode::BITSHRL => 27,
        Opcode::BITSHRA => 28,
        Opcode::VMCALL => 29,
        Opcode::PUSH => 30,
        Opcode::POP => 31,
        Opcode::GET_LEN => 32,
        Opcode::SET_ARG => 33,
        Opcode::GET_ARG => 34,
        Opcode::CALL => 35,
        Opcode::RETURN => 36,
        Opcode::NEW_LIST => 37,
        Opcode::SET_LIST => 38,
        Opcode::GET_LIST => 39,
        Opcode::NEW_TABLE => 40,
        Opcode::SET_TABLE => 41,
        Opcode::GET_TABLE => 42,
        Opcode::NEW_ARRAY => 43,
        Opcode::SET_ARRAY => 44,
        Opcode::GET_ARRAY => 45,
        Opcode::IGL => 46,
        Opcode::NOP => 47,
    }
}

/// Encodes the tag of `op` as four bytes, big-endian: the wire form is the
/// same on every host byte order.
pub fn opcode_to_bytes(op: Opcode) -> (bytes: [u8; 4])
    ensures
        bytes@ == spec_be_bytes(spec_opcode_tag(op)),
{
    let value = opcode_tag(op);
    [
        (value >> 24) as u8,
        ((value >> 16) & 0xFF) as u8,
        ((value >> 8) & 0xFF) as u8,
        (value & 0xFF) as u8,
    ]
}

/// Decodes a four-byte big-endian word back to the opcode whose tag it holds,
/// or `None` when the word is not the encoding of any opcode.
pub fn opcode_from_bytes(bytes: [u8; 4]) -> (op: Option<Opcode>)
    ensures
        op == spec_opcode_of_tag(
            ((bytes@[0] as u32) << 24) | ((bytes@[1] as u32) << 16) | ((bytes@[2] as u32) << 8)
                | (bytes@[3] as u32),
        ),
        forall|o: Opcode| bytes@ == spec_be_bytes(spec_opcode_tag(o)) ==> op == Some(o),
{
    let value: u32 = ((bytes[0] as u32) << 24) | ((bytes[1] as u32) << 16)
        | ((bytes[2] as u32) << 8) | (bytes[3] as u32);
    proof {
        assert forall|o: Opcode| bytes@ == spec_be_bytes(spec_opcode_tag(o)) implies
            spec_opcode_of_tag(value) == Some(o) by {
            assert(bytes@[0] == spec_be_bytes(spec_opcode_tag(o))[0]);
            assert(bytes@[1] == spec_be_bytes(spec_opcode_tag(o))[1]);
            assert(bytes@[2] == spec_be_bytes(spec_opcode_tag(o))[2]);
            assert(bytes@[3] == spec_be_bytes(spec_opcode_tag(o))[3]);
            lemma_opcode_round_trip(o);
        }
    }
    if value == 0 { Some(Opcode::SETI) }
    else if value == 1 { Some(Opcode::SETF) }
    else if value == 2 { Some(Opcode::SETS) }
    else if value == 3 { Some(Opcode::SETNIL) }
    else if value == 4 { Some(Opcode::STORE) }
    else if value == 5 { Some(Opcode::LOAD) }
    else if value == 6 { Some(Opcode::ADD) }
    else if value == 7 { Some(Opcode::SUB) }
    else if value == 8 { Some(Opcode::MUL) }
    else if value == 9 { Some(Opcode::DIV) }
    else if value == 10 { Some(Opcode::CVT_I_D) }
    else if value == 11 { Some(Opcode::CVT_D_I) }
    else if value == 12 { Some(Opcode::NEGATE) }
    else if value == 13 { Some(Opcode::HLT) }
    else if value == 14 { Some(Opcode::JMP) }
    else if value == 15 { Some(Opcode::JMP_IF) }
    else if value == 16 { Some(Opcode::EQ) }
    else if value == 17 { Some(Opcode::NEQ) }
    else if value == 18 { Some(Opcode::GT) }
    else if value == 19 { Some(Opcode::GTE) }
    else if value == 20 { Some(Opcode::LT) }
    else if value == 21 { Some(Opcode::LTE) }
    else if value == 22 { Some(Opcode::BITAND) }
    else if value == 23 { Some(Opcode::BITOR) }
    else if value == 24 { Some(Opcode::BITXOR) }
    else if value == 25 { Some(Opcode::BITNOT) }
    else if value == 26 { Some(Opcode::BITSHL) }
    else if value == 27 { Some(Opcode::BITSHRL) }
    else if value == 28 { Some(Opcode::BITSHRA) }
    else if value == 29 { Some(Opcode::VMCALL) }
    else if value == 30 { Some(Opcode::PUSH) }
    else if value == 31 { Some(Opcode::POP) }
    else if value == 32 { Some(Opcode::GET_LEN) }
    else if value == 33 { Some(Opcode::SET_ARG) }
    else if value == 34 { Some(Opcode::GET_ARG) }
    else if value == 35 { Some(Opcode::CALL) }
    else if value == 36 { Some(Opcode::RETURN) }
    else if value == 37 { Some(Opcode::NEW_LIST) }
    else if value == 38 { Some(Opcode::SET_LIST) }
    else if value == 39 { Some(Opcode::GET_LIST) }
    else if value == 40 { Some(Opcode::NEW_TABLE) }
    else if value == 41 { Some(Opcode::SET_TABLE) }
    else if value == 42 { Some(Opcode::GET_TABLE) }
    else if value == 43 { Some(Opcode::NEW_ARRAY) }
    else if value == 44 { Some(Opcode::SET_ARRAY) }
    else if value == 45 { Some(Opcode::GET_ARRAY) }
    else if value == 46 { Some(Opcode::IGL) }
    else if value == 47 { Some(Opcode::NOP) }
    else { None }
}

/// Every opcode tag fits in a single byte.
proof fn lemma_opcode_tag_small(o: Opcode)
    ensures
        spec_opcode_tag(o) < 48,
{
}

/// Round trip: encoding any opcode's tag to its four-byte wire form and
/// decoding that form yields the original opcode. Together with the fixed
/// big-endian byte layout of `spec_be_bytes`, the encoding is independent of
/// the host byte order.
pub proof fn lemma_opcode_round_trip(op: Opcode)
    ensures
        spec_opcode_of_tag(
            ((spec_be_bytes(spec_opcode_tag(op))[0] as u32) << 24)
                | ((spec_be_bytes(spec_opcode_tag(op))[1] as u32) << 16)
                | ((spec_be_bytes(spec_opcode_tag(op))[2] as u32) << 8)
                | (spec_be_bytes(spec_opcode_tag(op))[3] as u32),
        ) == Some(op),
{
    let t = spec_opcode_tag(op);
    lemma_opcode_tag_small(op);
    let v = ((spec_be_bytes(t)[0] as u32) << 24) | ((spec_be_bytes(t)[1] as u32) << 16)
        | ((spec_be_bytes(t)[2] as u32) << 8) | (spec_be_bytes(t)[3] as u32);
    assert(v == t) by (bit_vector)
        requires
            v == (((t >> 24) as u8 as u32) << 24) | ((((t >> 16) & 0xFF) as u8 as u32) << 16)
                | ((((t >> 8) & 0xFF) as u8 as u32) << 8) | ((t & 0xFF) as u8 as u32),
            t < 48,
    ;
}

} // verus!
