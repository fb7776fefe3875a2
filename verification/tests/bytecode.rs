use lox::bytecode::chunk::{Chunk, OpCode, ValueArray};
use lox::bytecode::compiler::{Error, Message, ParseRule, Parser, ParserError, Precedence};
use lox::bytecode::vm::{InterpretResult, Vm};
use lox::number::Number;
use lox::token::TokenType;
use lox::value::Value;

fn printed(source: &str) -> Vec<String> {
    let mut vm = Vm::new();
    assert_eq!(vm.interpret(source), InterpretResult::Done);
    vm.take_output()
}

fn number(x: f64) -> Value {
    Value::Number(Number::from_bits(x.to_bits()))
}

#[test]
fn machine_matches_the_host() {
    assert_eq!(printed("1 + 2 * 3"), vec![format!("{}", 1.0 + 2.0 * 3.0)]);
    assert_eq!(printed("(1 + 2) * 3"), vec![format!("{}", (1.0 + 2.0) * 3.0)]);
    assert_eq!(printed("1 - 2 - 3"), vec![format!("{}", 1.0 - 2.0 - 3.0)]);
    assert_eq!(printed("10 / 4 / 5"), vec![format!("{}", 10.0 / 4.0 / 5.0)]);
    assert_eq!(printed("-(1.5 + 2) * -3 / 7"), vec![format!("{}", -(1.5 + 2.0) * -3.0 / 7.0)]);
    assert_eq!(printed("0.1 + 0.2"), vec![format!("{}", 0.1 + 0.2)]);
    assert_eq!(printed("1 / 0"), vec!["inf"]);
    assert_eq!(printed("--1"), vec!["1"]);
    assert_eq!(printed("2 * -3"), vec!["-6"]);
}

#[test]
fn compile_errors() {
    let mut vm = Vm::new();
    assert_eq!(vm.interpret("1 +"), InterpretResult::CompileError);
    assert_eq!(vm.interpret(""), InterpretResult::CompileError);
    assert_eq!(vm.interpret("(1"), InterpretResult::CompileError);
    assert_eq!(vm.interpret("1 2"), InterpretResult::CompileError);
    assert_eq!(vm.interpret("1 # 2"), InterpretResult::CompileError);
    assert!(vm.take_output().is_empty());
}

#[test]
fn compile_error_kinds() {
    match Parser::compile("1 +").unwrap_err() {
        Error::Parser(ParserError::At { token, message }) => {
            assert_eq!(message, Message::ExpectExpression);
            assert_eq!(token.ty, TokenType::EoF);
        }
        other => panic!("{:?}", other),
    }
    match Parser::compile("(1 2").unwrap_err() {
        Error::Parser(ParserError::At { token, message }) => {
            assert_eq!(message, Message::ExpectParenAfterExpression);
            assert_eq!(token.lexeme, "2");
        }
        other => panic!("{:?}", other),
    }
    match Parser::compile("1 )").unwrap_err() {
        Error::Parser(ParserError::At { message, .. }) => {
            assert_eq!(message, Message::ExpectEndOfExpression)
        }
        other => panic!("{:?}", other),
    }
    assert!(matches!(Parser::compile("1 ?").unwrap_err(), Error::Scanner(_)));
}

#[test]
fn chunk_of_an_expression() {
    let chunk = Parser::compile("1 + 2\n* 3").unwrap();
    assert_eq!(chunk.code, vec![0, 0, 0, 1, 0, 2, 4, 2, 6]);
    assert_eq!(chunk.lines, vec![1, 1, 1, 1, 2, 2, 2, 2, 2]);
    assert_eq!(chunk.constants.len(), 3);
    assert!(chunk.constants[2].equals(&number(3.0)));
}

#[test]
fn pool_holds_256_constants() {
    let mut source = String::from("0");
    for _ in 0..255 {
        source.push_str(" + 1");
    }
    let chunk = Parser::compile(&source).unwrap();
    assert_eq!(chunk.constants.len(), 256);
    assert_eq!(printed(&source), vec!["255"]);
    source.push_str(" + 1");
    match Parser::compile(&source).unwrap_err() {
        Error::Parser(ParserError::At { message, .. }) => {
            assert_eq!(message, Message::TooManyConstants)
        }
        other => panic!("{:?}", other),
    }
}

#[test]
fn hand_made_chunk_runs() {
    let mut chunk = Chunk::new();
    let a = chunk.add_constant(number(1.2));
    let b = chunk.add_constant(number(3.4));
    assert_eq!((a, b), (0, 1));
    chunk.write(OpCode::Constant.to_byte(), 1);
    chunk.write(0, 1);
    chunk.write(OpCode::Constant.to_byte(), 1);
    chunk.write(1, 1);
    chunk.write(OpCode::Subtract.to_byte(), 2);
    chunk.write(OpCode::Negate.to_byte(), 2);
    chunk.write(OpCode::Return.to_byte(), 3);
    assert_eq!(chunk.read(4), 3);
    let mut vm = Vm::new();
    assert_eq!(vm.run(&chunk), InterpretResult::Done);
    assert_eq!(vm.take_output(), vec![format!("{}", -(1.2 - 3.4))]);
}

#[test]
fn broken_chunks_are_runtime_errors() {
    let mut vm = Vm::new();
    // nothing to return
    let mut chunk = Chunk::new();
    chunk.write(OpCode::Return.to_byte(), 1);
    assert_eq!(vm.run(&chunk), InterpretResult::RuntimeError);
    // no return at the end
    let chunk = Chunk::new();
    assert_eq!(vm.run(&chunk), InterpretResult::RuntimeError);
    // a byte that is no instruction
    let mut chunk = Chunk::new();
    chunk.write(200, 1);
    assert_eq!(vm.run(&chunk), InterpretResult::RuntimeError);
    // a constant that the chunk does not hold
    let mut chunk = Chunk::new();
    chunk.write(OpCode::Constant.to_byte(), 1);
    chunk.write(0, 1);
    assert_eq!(vm.run(&chunk), InterpretResult::RuntimeError);
    // an operand that is no number
    let mut chunk = Chunk::new();
    chunk.add_constant(Value::Nil);
    chunk.write(OpCode::Constant.to_byte(), 1);
    chunk.write(0, 1);
    chunk.write(OpCode::Negate.to_byte(), 1);
    chunk.write(OpCode::Return.to_byte(), 1);
    assert_eq!(vm.run(&chunk), InterpretResult::RuntimeError);
    // one operand where two are needed
    let mut chunk = Chunk::new();
    chunk.add_constant(number(1.0));
    chunk.write(OpCode::Constant.to_byte(), 1);
    chunk.write(0, 1);
    chunk.write(OpCode::Add.to_byte(), 1);
    assert_eq!(vm.run(&chunk), InterpretResult::RuntimeError);
    assert!(vm.take_output().is_empty());
}

#[test]
fn opcodes_and_bytes() {
    for op in [
        OpCode::Constant,
        OpCode::Negate,
        OpCode::Add,
        OpCode::Subtract,
        OpCode::Multiply,
        OpCode::Divide,
        OpCode::Return,
    ] {
        assert_eq!(OpCode::from_byte(op.to_byte()), Some(op));
    }
    assert_eq!(OpCode::from_byte(7), None);
    assert_eq!(OpCode::Multiply.label(), "Multiply");
}

#[test]
fn listing_of_a_chunk() {
    let chunk = Parser::compile("1.5 + 2\n* -3").unwrap();
    assert_eq!(
        chunk.disassemble_chunk("test"),
        vec![
            "== test ==",
            "0000    1 Constant            0 `1.5`",
            "0002    | Constant            1 `2`",
            "0004    2 Constant            2 `3`",
            "0006    | Negate",
            "0007    | Multiply",
            "0008    | Add",
            "0009    | Return",
        ]
    );
    assert_eq!(chunk.disassemble_instruction(4), ("0004    2 Constant            2 `3`".to_string(), 6));
}

#[test]
fn listing_of_unknown_bytes() {
    let mut chunk = Chunk::new();
    chunk.write(99, 12345);
    chunk.write(OpCode::Constant.to_byte(), 12345);
    assert_eq!(
        chunk.disassemble_chunk("odd"),
        vec!["== odd ==", "0000 12345 Unknown opcode 99", "0001    | Constant"]
    );
}

#[test]
fn precedence_ladder() {
    let ladder = [
        Precedence::Lowest,
        Precedence::Assignment,
        Precedence::Or,
        Precedence::And,
        Precedence::Equality,
        Precedence::Comparison,
        Precedence::Term,
        Precedence::Factor,
        Precedence::Unary,
        Precedence::Call,
        Precedence::Primary,
    ];
    for (i, p) in ladder.iter().enumerate() {
        assert_eq!(p.level() as usize, i);
        if i + 1 < ladder.len() {
            assert_eq!(p.next(), ladder[i + 1]);
            assert!(p.at_most(ladder[i + 1]));
            assert!(!ladder[i + 1].at_most(*p));
        }
        assert!(p.at_most(*p));
    }
    assert_eq!(Precedence::Primary.next(), Precedence::Primary);
}

#[test]
fn rules_of_the_tokens() {
    assert_eq!(ParseRule::get_rule(TokenType::Plus).precedence, Precedence::Term);
    assert_eq!(ParseRule::get_rule(TokenType::Minus).precedence, Precedence::Term);
    assert_eq!(ParseRule::get_rule(TokenType::Star).precedence, Precedence::Factor);
    assert_eq!(ParseRule::get_rule(TokenType::Slash).precedence, Precedence::Factor);
    assert!(ParseRule::get_rule(TokenType::Minus).prefix.is_some());
    assert!(ParseRule::get_rule(TokenType::Plus).prefix.is_none());
    assert!(ParseRule::get_rule(TokenType::Number).infix.is_none());
    assert_eq!(ParseRule::get_rule(TokenType::EoF).precedence, Precedence::Lowest);
}

#[test]
fn value_array_numbers_its_constants() {
    let mut values = ValueArray::new();
    assert_eq!(values.add_constant(Value::Nil), 0);
    assert_eq!(values.add_constant(number(2.0)), 1);
    assert_eq!(values.0.len(), 2);
}
