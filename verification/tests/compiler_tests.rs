use monkey::ast::Program;
use monkey::compiler::Compiler;
use monkey::code::{make_instruction, OpCode};
use monkey::lexer::Lexer;
use monkey::object::Object;
use monkey::parser::Parser;

struct CompilerTestCase {
    input: String,
    expected_consts: Vec<i64>,
    expected_instructions: Vec<Vec<u8>>,
}

#[test]
fn integer_arithmetric() {
    let tests = vec![CompilerTestCase {
        input: "1 + 2;".to_string(),
        expected_consts: vec![1, 2],
        expected_instructions: vec![
            make_instruction(OpCode::OpConstant, vec![0]),
            make_instruction(OpCode::OpConstant, vec![1]),
        ],
    }];
    run_compiler_tests(tests);
}

fn run_compiler_tests(tests: Vec<CompilerTestCase>) {
    for t in tests {
        let program = parse(t.input);
        let mut compiler = Compiler::new();
        match compiler.compile(&program) {
            Ok(_) => {}
            Err(e) => panic!("Compilation failed: {}", e.error_message),
        }

        test_instructions(t.expected_instructions, compiler.instructions);
        test_constants(t.expected_consts, compiler.constants);
    }
}

fn test_instructions(expected_instructions: Vec<Vec<u8>>, instructions: Vec<u8>) {
    let expected_instructions: Vec<u8> = expected_instructions.into_iter().flatten().collect();
    assert_eq!(
        expected_instructions.len(),
        instructions.len(),
        "Expected instructions and instructions have differing lengths: {} != {}",
        expected_instructions.len(),
        instructions.len()
    );
    for (i, ins) in expected_instructions.into_iter().enumerate() {
        assert_eq!(
            instructions[i], ins,
            "Wrong instruction found at position {}. Wanted {}, got {}",
            i, ins, instructions[i]
        );
    }
}

fn test_constants(expected_constants: Vec<i64>, constants: Vec<Object>) {
    assert_eq!(
        expected_constants.len(),
        constants.len(),
        "Expected constants and constants: {} != {}",
        expected_constants.len(),
        constants.len()
    );
    for (i, c) in expected_constants.into_iter().enumerate() {
        test_integer_object(c, &constants[i]);
    }
}

fn test_integer_object(expected: i64, actual: &Object) {
    match actual {
        Object::Integer(n) => assert_eq!(
            expected, n.value,
            "object has the wrong value. Wanted {}, got {}",
            expected, n.value
        ),
        _ => panic!("Expected an integer object"),
    }
}

fn parse(input: String) -> Program {
    let lexer = Lexer::new(&input);
    let mut parser = Parser::new(lexer);
    parser.parse_program()
}
