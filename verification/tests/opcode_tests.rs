use lisp_front::opcode::opcode_from_bytes;
use lisp_front::opcode::opcode_to_bytes;
use lisp_front::opcode::Opcode;

fn all_opcodes() -> Vec<Opcode> {
    vec![
        Opcode::SETI,
        Opcode::SETF,
        Opcode::SETS,
        Opcode::SETNIL,
        Opcode::STORE,
        Opcode::LOAD,
        Opcode::ADD,
        Opcode::SUB,
        Opcode::MUL,
        Opcode::DIV,
        Opcode::CVT_I_D,
        Opcode::CVT_D_I,
        Opcode::NEGATE,
        Opcode::HLT,
        Opcode::JMP,
        Opcode::JMP_IF,
        Opcode::EQ,
        Opcode::NEQ,
        Opcode::GT,
        Opcode::GTE,
        Opcode::LT,
        Opcode::LTE,
        Opcode::BITAND,
        Opcode::BITOR,
        Opcode::BITXOR,
        Opcode::BITNOT,
        Opcode::BITSHL,
        Opcode::BITSHRL,
        Opcode::BITSHRA,
        Opcode::VMCALL,
        Opcode::PUSH,
        Opcode::POP,
        Opcode::GET_LEN,
        Opcode::SET_ARG,
        Opcode::GET_ARG,
        Opcode::CALL,
        Opcode::RETURN,
        Opcode::NEW_LIST,
        Opcode::SET_LIST,
        Opcode::GET_LIST,
        Opcode::NEW_TABLE,
        Opcode::SET_TABLE,
        Opcode::GET_TABLE,
        Opcode::NEW_ARRAY,
        Opcode::SET_ARRAY,
        Opcode::GET_ARRAY,
        Opcode::IGL,
        Opcode::NOP,
    ]
}

#[test]
fn test_opcode_round_trip_every_variant() {
    let ops = all_opcodes();
    assert_eq!(ops.len(), 48);
    for op in ops {
        let bytes = opcode_to_bytes(op);
        assert_eq!(opcode_from_bytes(bytes), Some(op));
    }
}

#[test]
fn test_opcode_encoding_is_big_endian() {
    assert_eq!(opcode_to_bytes(Opcode::SETI), [0, 0, 0, 0]);
    assert_eq!(opcode_to_bytes(Opcode::SETS), [0, 0, 0, 2]);
    assert_eq!(opcode_to_bytes(Opcode::HLT), [0, 0, 0, 13]);
    assert_eq!(opcode_to_bytes(Opcode::IGL), [0, 0, 0, 46]);
    assert_eq!(opcode_to_bytes(Opcode::NOP), [0, 0, 0, 47]);
}

#[test]
fn test_opcode_tags_are_dense_and_distinct() {
    let ops = all_opcodes();
    for (i, op) in ops.into_iter().enumerate() {
        assert_eq!(opcode_to_bytes(op), [0, 0, 0, i as u8]);
    }
}

#[test]
fn test_decode_rejects_unknown_words() {
    assert_eq!(opcode_from_bytes([0, 0, 0, 48]), None);
    assert_eq!(opcode_from_bytes([0, 0, 0, 255]), None);
    assert_eq!(opcode_from_bytes([0, 0, 1, 0]), None);
    assert_eq!(opcode_from_bytes([1, 0, 0, 0]), None);
}
