//! The compiler and the machine agree: the code of an expression, run on
//! the machine, prints the value of the expression.

use crate::bytecode::chunk::{ChunkView, OpCode};
use crate::bytecode::compiler::{
    chunk_of, expression_of, infix, precedence, prefix, Action, Arith, ParseRule, Precedence, POOL,
};
use crate::bytecode::compiler::end_line;
use crate::bytecode::vm::{computed, interpreted, run, InterpretResult, Machine};
use crate::scanner::{errors_of, lexed};
use crate::grammar::{at_end, kind_at, past, remaining};
use crate::number::{number_text, Number};
use crate::token::Token;
use crate::value::ValueView;
use vstd::prelude::*;

verus! {

impl Arith {
    /// The value of the expression.
    pub open spec fn value(self) -> Number
        decreases self,
    {
        match self {
            Arith::Number { value, line } => value,
            Arith::Group { inner, line } => inner.value(),
            Arith::Negate { operand } => operand.value().opposite(),
            Arith::Binary { operator, left, right } => computed(
                operator,
                left.value(),
                right.value(),
            ),
        }
    }

    /// Whether the operators of the expression are the four of arithmetic.
    pub open spec fn arithmetic(self) -> bool
        decreases self,
    {
        match self {
            Arith::Number { value, line } => true,
            Arith::Group { inner, line } => inner.arithmetic(),
            Arith::Negate { operand } => operand.arithmetic(),
            Arith::Binary { operator, left, right } => (operator == OpCode::Add || operator
                == OpCode::Subtract || operator == OpCode::Multiply || operator == OpCode::Divide)
                && left.arithmetic() && right.arithmetic(),
        }
    }
}

/// Whether `full` starts with the code and the constants of `part`.
pub open spec fn extends(full: ChunkView, part: ChunkView) -> bool {
    &&& part.code.len() <= full.code.len()
    &&& part.constants.len() <= full.constants.len()
    &&& forall|i: int| 0 <= i < part.code.len() ==> #[trigger] full.code[i] == part.code[i]
    &&& forall|i: int|
        0 <= i < part.constants.len() ==> #[trigger] full.constants[i] == part.constants[i]
}

/// The code of an expression is added behind what the chunk holds.
pub proof fn emit_extends(e: Arith, chunk: ChunkView)
    ensures
        extends(e.emit(chunk), chunk),
        e.emit(chunk).constants.len() == chunk.constants.len() + e.constants(),
        e.emit(chunk).code.len() > chunk.code.len(),
    decreases e,
{
    match e {
        Arith::Number { value, line } => {},
        Arith::Group { inner, line } => {
            emit_extends(*inner, chunk);
        },
        Arith::Negate { operand } => {
            emit_extends(*operand, chunk);
        },
        Arith::Binary { operator, left, right } => {
            emit_extends(*left, chunk);
            emit_extends(*right, left.emit(chunk));
        },
    }
}

/// Running the code of an expression pushes the value of the expression:
/// from the start of the code, the machine comes to its end with the value
/// on top of the stack, whatever follows in the chunk.
pub proof fn code_pushes_value(e: Arith, chunk: ChunkView, full: ChunkView, m: Machine)
    requires
        e.arithmetic(),
        extends(full, e.emit(chunk)),
        chunk.constants.len() + e.constants() <= POOL,
    ensures
        run(full, chunk.code.len() as int, m) == run(
            full,
            e.emit(chunk).code.len() as int,
            m.push(ValueView::Number(e.value())),
        ),
    decreases e,
{
    emit_extends(e, chunk);
    let ip = chunk.code.len() as int;
    match e {
        Arith::Number { value, line } => {
            let index = chunk.constants.len();
            let added = e.emit(chunk);
            assert(added.code[ip] == OpCode::Constant.byte());
            assert(added.code[ip + 1] == index as u8);
            assert(added.constants[index as int] == ValueView::Number(value));
            assert(full.code[ip] == added.code[ip]);
            assert(full.code[ip + 1] == added.code[ip + 1]);
            assert(full.constants[index as int] == added.constants[index as int]);
        },
        Arith::Group { inner, line } => {
            code_pushes_value(*inner, chunk, full, m);
        },
        Arith::Negate { operand } => {
            let inner = operand.emit(chunk);
            emit_extends(*operand, chunk);
            let added = e.emit(chunk);
            assert(extends(full, inner)) by {
                assert forall|i: int| 0 <= i < inner.code.len() implies #[trigger] full.code[i]
                    == inner.code[i] by {
                    assert(added.code[i] == inner.code[i]);
                }
            }
            code_pushes_value(*operand, chunk, full, m);
            let at = inner.code.len() as int;
            let m1 = m.push(ValueView::Number(operand.value()));
            assert(full.code[at] == added.code[at]);
            assert(added.code[at] == OpCode::Negate.byte());
            assert(m1.stack.last() == ValueView::Number(operand.value()));
            assert(m1.stack.drop_last() =~= m.stack);
        },
        Arith::Binary { operator, left, right } => {
            let first = left.emit(chunk);
            let second = right.emit(first);
            let added = e.emit(chunk);
            emit_extends(*left, chunk);
            emit_extends(*right, first);
            assert(extends(full, second)) by {
                assert forall|i: int| 0 <= i < second.code.len() implies #[trigger] full.code[i]
                    == second.code[i] by {
                    assert(added.code[i] == second.code[i]);
                }
            }
            assert(extends(full, first)) by {
                assert forall|i: int| 0 <= i < first.code.len() implies #[trigger] full.code[i]
                    == first.code[i] by {
                    assert(second.code[i] == first.code[i]);
                }
                assert forall|i: int| 0 <= i < first.constants.len() implies #[trigger] full.constants[i]
                    == first.constants[i] by {
                    assert(second.constants[i] == first.constants[i]);
                }
            }
            code_pushes_value(*left, chunk, full, m);
            let m1 = m.push(ValueView::Number(left.value()));
            code_pushes_value(*right, first, full, m1);
            let m2 = m1.push(ValueView::Number(right.value()));
            let at = second.code.len() as int;
            assert(full.code[at] == added.code[at]);
            assert(added.code[at] == operator.byte());
            assert(OpCode::of(operator.byte()) == Some(operator));
            assert(m2.stack.last() == ValueView::Number(right.value()));
            assert(m2.stack[m2.stack.len() - 2] == ValueView::Number(left.value()));
            assert(m2.stack.drop_last().drop_last() =~= m.stack);
        },
    }
}

/// The chunk of an expression, run on a machine, prints the value of the
/// expression and leaves the stack as it was.
pub proof fn chunk_prints_value(e: Arith, line: usize, m: Machine)
    requires
        e.arithmetic(),
        e.constants() <= POOL,
    ensures
        run(chunk_of(e, line), 0, m) == (
            InterpretResult::Done,
            Machine { stack: m.stack, output: m.output.push(number_text(e.value())) },
        ),
{
    let code = e.emit(ChunkView::empty());
    let full = chunk_of(e, line);
    emit_extends(e, ChunkView::empty());
    code_pushes_value(e, ChunkView::empty(), full, m);
    let m1 = m.push(ValueView::Number(e.value()));
    let at = code.code.len() as int;
    assert(full.code[at] == OpCode::Return.byte());
    assert(m1.stack.drop_last() =~= m.stack);
}

/// What the compiler reads is arithmetic, and its numbers fit into the
/// pool of constants.
pub proof fn read_is_arithmetic(ts: Seq<Token>, pos: int, level: Precedence, count: nat)
    requires
        count <= POOL,
    ensures
        match precedence(ts, pos, level, count).result {
            Ok(e) => e.arithmetic() && count + e.constants() <= POOL,
            Err(_) => true,
        },
    decreases remaining(ts, pos), 2nat,
{
    if !at_end(ts, pos) {
        prefix_is_arithmetic(ts, pos, count);
        let first = prefix(ts, pos, count);
        match first.result {
            Ok(e) => {
                infix_is_arithmetic(ts, past(pos, first.pos), level, e, count + e.constants());
            },
            Err(_) => {},
        }
    }
}

proof fn prefix_is_arithmetic(ts: Seq<Token>, pos: int, count: nat)
    requires
        count <= POOL,
    ensures
        match prefix(ts, pos, count).result {
            Ok(e) => e.arithmetic() && count + e.constants() <= POOL,
            Err(_) => true,
        },
    decreases remaining(ts, pos), 0nat,
{
    if !at_end(ts, pos) {
        match ParseRule::of(ts[pos].ty).prefix {
            Some(Action::Grouping) => {
                read_is_arithmetic(ts, pos + 1, Precedence::Assignment, count);
            },
            Some(Action::Unary) => {
                read_is_arithmetic(ts, pos + 1, Precedence::Unary, count);
            },
            _ => {},
        }
    }
}

proof fn infix_is_arithmetic(ts: Seq<Token>, pos: int, level: Precedence, left: Arith, count: nat)
    requires
        count <= POOL,
        left.arithmetic(),
        left.constants() <= count,
    ensures
        match infix(ts, pos, level, left, count).result {
            Ok(e) => e.arithmetic() && count - left.constants() + e.constants() <= POOL,
            Err(_) => true,
        },
    decreases remaining(ts, pos), 1nat,
{
    let rule = ParseRule::of(kind_at(ts, pos));
    if level.rank() <= rule.precedence.rank() {
        if !(at_end(ts, pos) || rule.infix != Some(Action::Binary)) {
            read_is_arithmetic(ts, pos + 1, rule.precedence.above(), count);
            let right = precedence(ts, pos + 1, rule.precedence.above(), count);
            match right.result {
                Ok(e) => {
                    let joined = Arith::Binary {
                        operator: crate::bytecode::compiler::instruction(ts[pos].ty),
                        left: Box::new(left),
                        right: Box::new(e),
                    };
                    infix_is_arithmetic(
                        ts,
                        past(pos, right.pos),
                        level,
                        joined,
                        count + e.constants(),
                    );
                },
                Err(_) => {},
            }
        }
    }
}

/// For every token sequence that writes an expression, the compiled
/// chunk, run on a fresh machine, prints the value of the expression.
pub proof fn compiled_expression_prints_its_value(ts: Seq<Token>, line: usize)
    requires
        expression_of(ts).is_ok(),
    ensures
        run(chunk_of(expression_of(ts).unwrap(), line), 0, Machine::fresh()) == (
            InterpretResult::Done,
            Machine {
                stack: Seq::empty(),
                output: seq![number_text(expression_of(ts).unwrap().value())],
            },
        ),
{
    read_is_arithmetic(ts, 0, Precedence::Assignment, 0);
    let e = expression_of(ts).unwrap();
    chunk_prints_value(e, line, Machine::fresh());
    assert(Seq::<Seq<char>>::empty().push(number_text(e.value())) =~= seq![
        number_text(e.value()),
    ]);
}


/// For every source text that scans and writes one expression (numbers,
/// the four operators, negation and parentheses) the machine, started
/// fresh, ends without error and prints the value of the expression.
pub proof fn source_prints_its_value(source: Seq<char>)
    requires
        errors_of(source).len() == 0,
        expression_of(lexed(source)).is_ok(),
    ensures
        interpreted(lexed(source), Machine::fresh()) == (
            InterpretResult::Done,
            Machine {
                stack: Seq::empty(),
                output: seq![number_text(expression_of(lexed(source)).unwrap().value())],
            },
        ),
{
    compiled_expression_prints_its_value(lexed(source), end_line(lexed(source)));
}

/// The chunk of an expression is well shaped: every byte has its line,
/// the last byte is `Return`, and the constants fit into the pool.
pub proof fn chunk_is_well_shaped(e: Arith, line: usize)
    requires
        e.constants() <= POOL,
    ensures
        chunk_of(e, line).code.len() == chunk_of(e, line).lines.len(),
        chunk_of(e, line).code.last() == OpCode::Return.byte(),
        chunk_of(e, line).constants.len() == e.constants(),
        chunk_of(e, line).constants.len() <= POOL,
{
    emit_keeps_lines(e, ChunkView::empty());
    emit_extends(e, ChunkView::empty());
}

/// The code of an expression comes with a line for every byte.
pub proof fn emit_keeps_lines(e: Arith, chunk: ChunkView)
    requires
        chunk.code.len() == chunk.lines.len(),
    ensures
        e.emit(chunk).code.len() == e.emit(chunk).lines.len(),
    decreases e,
{
    match e {
        Arith::Number { value, line } => {},
        Arith::Group { inner, line } => {
            emit_keeps_lines(*inner, chunk);
        },
        Arith::Negate { operand } => {
            emit_keeps_lines(*operand, chunk);
        },
        Arith::Binary { operator, left, right } => {
            emit_keeps_lines(*left, chunk);
            emit_keeps_lines(*right, left.emit(chunk));
        },
    }
}


/// Whether the code from `offset` on is instruction after instruction up
/// to the end, every byte an instruction or the operand of one, and every
/// constant that is loaded one that the chunk holds.
pub open spec fn decodable(chunk: ChunkView, offset: int) -> bool
    decreases chunk.code.len() - offset,
{
    if !(0 <= offset < chunk.code.len()) {
        offset == chunk.code.len()
    } else {
        match OpCode::of(chunk.code[offset]) {
            None => false,
            Some(OpCode::Constant) => chunk.loads_constant(offset) && decodable(chunk, offset + 2),
            Some(_) => decodable(chunk, offset + 1),
        }
    }
}

/// The code of an expression is decodable, whatever decodable code follows.
pub proof fn code_is_decodable(e: Arith, chunk: ChunkView, full: ChunkView)
    requires
        e.arithmetic(),
        extends(full, e.emit(chunk)),
        chunk.constants.len() + e.constants() <= POOL,
        decodable(full, e.emit(chunk).code.len() as int),
    ensures
        decodable(full, chunk.code.len() as int),
    decreases e,
{
    emit_extends(e, chunk);
    let ip = chunk.code.len() as int;
    match e {
        Arith::Number { value, line } => {
            let index = chunk.constants.len();
            let added = e.emit(chunk);
            assert(added.code[ip] == OpCode::Constant.byte());
            assert(added.code[ip + 1] == index as u8);
            assert(full.code[ip] == added.code[ip]);
            assert(full.code[ip + 1] == added.code[ip + 1]);
        },
        Arith::Group { inner, line } => {
            code_is_decodable(*inner, chunk, full);
        },
        Arith::Negate { operand } => {
            let inner = operand.emit(chunk);
            emit_extends(*operand, chunk);
            let added = e.emit(chunk);
            assert(extends(full, inner)) by {
                assert forall|i: int| 0 <= i < inner.code.len() implies #[trigger] full.code[i]
                    == inner.code[i] by {
                    assert(added.code[i] == inner.code[i]);
                }
            }
            let at = inner.code.len() as int;
            assert(full.code[at] == added.code[at]);
            assert(added.code[at] == OpCode::Negate.byte());
            code_is_decodable(*operand, chunk, full);
        },
        Arith::Binary { operator, left, right } => {
            let first = left.emit(chunk);
            let second = right.emit(first);
            let added = e.emit(chunk);
            emit_extends(*left, chunk);
            emit_extends(*right, first);
            assert(extends(full, second)) by {
                assert forall|i: int| 0 <= i < second.code.len() implies #[trigger] full.code[i]
                    == second.code[i] by {
                    assert(added.code[i] == second.code[i]);
                }
            }
            assert(extends(full, first)) by {
                assert forall|i: int| 0 <= i < first.code.len() implies #[trigger] full.code[i]
                    == first.code[i] by {
                    assert(second.code[i] == first.code[i]);
                }
                assert forall|i: int| 0 <= i < first.constants.len() implies #[trigger] full.constants[i]
                    == first.constants[i] by {
                    assert(second.constants[i] == first.constants[i]);
                }
            }
            let at = second.code.len() as int;
            assert(full.code[at] == added.code[at]);
            assert(added.code[at] == operator.byte());
            assert(OpCode::of(operator.byte()) == Some(operator));
            code_is_decodable(*right, first, full);
            code_is_decodable(*left, chunk, full);
        },
    }
}

/// The chunk of an expression is decodable from its first byte: every
/// operand of a `Constant` is the place of a constant of the chunk.
pub proof fn chunk_is_decodable(e: Arith, line: usize)
    requires
        e.arithmetic(),
        e.constants() <= POOL,
    ensures
        decodable(chunk_of(e, line), 0),
{
    let code = e.emit(ChunkView::empty());
    let full = chunk_of(e, line);
    emit_extends(e, ChunkView::empty());
    let at = code.code.len() as int;
    assert(full.code[at] == OpCode::Return.byte());
    assert(decodable(full, at + 1));
    assert(decodable(full, at));
    code_is_decodable(e, ChunkView::empty(), full);
}

} // verus!
