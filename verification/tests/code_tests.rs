use monkey::code::{make_instruction, OpCode};

#[test]
fn mod_test_make() {
    let tests = vec![(
        OpCode::OpConstant,
        vec![65534],
        vec![OpCode::OpConstant as u8, 255, 254],
    )];
    for (op_code, operands, expected) in tests {
        let instruction = make_instruction(op_code, operands);
        assert_eq!(instruction, expected);
    }
}

#[test]
fn tests_test_make() {
    let tests = vec![(
        OpCode::OpConstant,
        vec![65534],
        vec![OpCode::OpConstant as u8, 255, 254],
    )];
    for (op_code, operands, expected) in tests {
        let instruction = make_instruction(op_code, operands);
        assert_eq!(instruction, expected);
    }
}

#[test]
fn make_zero_operand() {
    let instruction = make_instruction(OpCode::OpConstant, vec![0]);
    assert_eq!(instruction, vec![0, 0, 0]);
}

#[test]
fn make_wrong_arity_yields_nothing() {
    let instruction = make_instruction(OpCode::OpConstant, vec![]);
    assert!(instruction.is_empty());
}

#[test]
fn lookup_names_the_opcode() {
    let (name, widths) = OpCode::OpConstant.lookup();
    assert_eq!(name, "OpConstant");
    assert_eq!(widths, vec![2]);
}
