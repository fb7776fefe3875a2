//! The stack machine that runs a chunk.

use crate::bytecode::chunk::{Chunk, ChunkView, OpCode};
use crate::bytecode::compiler::{chunk_of, end_line, expression_of, Parser};
use crate::scanner::{errors_of, lexed};
use crate::token::Token;
use crate::number::{float_difference, float_product, float_quotient, float_sum, Number};
use crate::value::{Value, ValueView};
use vstd::prelude::*;

verus! {

/// How a run ended.
#[derive(Debug, Clone, Copy, PartialEq, Eq, Structural)]
pub enum InterpretResult {
    Done,
    CompileError,
    RuntimeError,
}

/// The machine: the values it works on, the last on top, and the lines
/// it has printed.
#[derive(Debug)]
pub struct Vm {
    stack: Vec<Value>,
    output: Vec<String>,
}

pub struct Machine {
    pub stack: Seq<ValueView>,
    pub output: Seq<Seq<char>>,
}

impl View for Vm {
    type V = Machine;

    closed spec fn view(&self) -> Machine {
        Machine {
            stack: self.stack@.map_values(|v: Value| v@),
            output: self.output@.map_values(|s: String| s@),
        }
    }
}

/// The result of an arithmetic instruction on two numbers.
pub open spec fn computed(op: OpCode, a: Number, b: Number) -> Number {
    match op {
        OpCode::Add => Number { bits: float_sum(a.bits, b.bits) },
        OpCode::Subtract => Number { bits: float_difference(a.bits, b.bits) },
        OpCode::Multiply => Number { bits: float_product(a.bits, b.bits) },
        _ => Number { bits: float_quotient(a.bits, b.bits) },
    }
}

impl Machine {
    pub open spec fn fresh() -> Machine {
        Machine { stack: Seq::empty(), output: Seq::empty() }
    }

    pub open spec fn push(self, value: ValueView) -> Machine {
        Machine { stack: self.stack.push(value), ..self }
    }

    /// The machine after one instruction other than `Return`, and the
    /// place of the next instruction; `None` if the instruction cannot be
    /// carried out.
    pub open spec fn step(self, chunk: ChunkView, ip: int, op: OpCode) -> Option<(Machine, int)> {
        match op {
            OpCode::Constant => if ip + 1 < chunk.code.len() && chunk.code[ip + 1]
                < chunk.constants.len() {
                Some((self.push(chunk.constants[chunk.code[ip + 1] as int]), ip + 2))
            } else {
                None
            },
            OpCode::Negate => if self.stack.len() >= 1 {
                match self.stack.last() {
                    ValueView::Number(n) => Some(
                        (
                            Machine {
                                stack: self.stack.drop_last().push(ValueView::Number(n.opposite())),
                                ..self
                            },
                            ip + 1,
                        ),
                    ),
                    _ => None,
                }
            } else {
                None
            },
            OpCode::Return => None,
            _ => if self.stack.len() >= 2 {
                match (self.stack[self.stack.len() - 2], self.stack.last()) {
                    (ValueView::Number(a), ValueView::Number(b)) => Some(
                        (
                            Machine {
                                stack: self.stack.drop_last().drop_last().push(
                                    ValueView::Number(computed(op, a, b)),
                                ),
                                ..self
                            },
                            ip + 1,
                        ),
                    ),
                    _ => None,
                }
            } else {
                None
            },
        }
    }
}

/// The run of a chunk from instruction `ip` on: instruction after
/// instruction up to a `Return`, which prints the top of the stack. What
/// cannot be carried out ends the run with an error.
pub open spec fn run(chunk: ChunkView, ip: int, m: Machine) -> (InterpretResult, Machine)
    decreases chunk.code.len() - ip,
{
    if !(0 <= ip < chunk.code.len()) {
        (InterpretResult::RuntimeError, m)
    } else {
        match OpCode::of(chunk.code[ip]) {
            None => (InterpretResult::RuntimeError, m),
            Some(OpCode::Return) => if m.stack.len() >= 1 {
                (
                    InterpretResult::Done,
                    Machine {
                        stack: m.stack.drop_last(),
                        output: m.output.push(m.stack.last().text()),
                    },
                )
            } else {
                (InterpretResult::RuntimeError, m)
            },
            Some(op) => match m.step(chunk, ip, op) {
                Some((next, at)) => if at > ip {
                    run(chunk, at, next)
                } else {
                    (InterpretResult::RuntimeError, m)
                },
                None => (InterpretResult::RuntimeError, m),
            },
        }
    }
}

/// What the machine makes of the tokens of a source text: the run of the
/// chunk of the expression that they write, or a compile error.
pub open spec fn interpreted(ts: Seq<Token>, m: Machine) -> (InterpretResult, Machine) {
    match expression_of(ts) {
        Ok(e) => run(chunk_of(e, end_line(ts)), 0, m),
        Err(_) => (InterpretResult::CompileError, m),
    }
}

impl Vm {
    /// Compiles a source text and runs the chunk. A text that does not
    /// scan or does not write one expression is a compile error, and
    /// leaves the machine as it was.
    pub fn interpret(&mut self, source: &str) -> (r: InterpretResult)
        requires
            source@.len() < usize::MAX,
        ensures
            errors_of(source@).len() > 0 ==> r == InterpretResult::CompileError && final(self)@
                == old(self)@,
            errors_of(source@).len() == 0 ==> interpreted(lexed(source@), old(self)@) == (
                r,
                final(self)@,
            ),
    {
        match Parser::compile(source) {
            Ok(chunk) => self.run(&chunk),
            Err(_) => InterpretResult::CompileError,
        }
    }

    pub fn new() -> (r: Self)
        ensures
            r@ == Machine::fresh(),
    {
        let r = Vm { stack: Vec::new(), output: Vec::new() };
        assert(r@.stack =~= Seq::empty());
        assert(r@.output =~= Seq::empty());
        r
    }

    /// Hands out the lines printed since the last call, and forgets them.
    pub fn take_output(&mut self) -> (lines: Vec<String>)
        ensures
            lines@.map_values(|s: String| s@) == old(self)@.output,
            final(self)@ == (Machine { output: Seq::empty(), ..old(self)@ }),
    {
        let mut lines: Vec<String> = Vec::new();
        std::mem::swap(&mut lines, &mut self.output);
        assert(self@.output =~= Seq::empty());
        lines
    }

    fn push_value(&mut self, value: Value)
        ensures
            final(self)@ == old(self)@.push(value@),
    {
        self.stack.push(value);
        assert(self@.stack =~= old(self)@.stack.push(value@));
    }

    fn pop_value(&mut self) -> (r: Value)
        requires
            old(self)@.stack.len() >= 1,
        ensures
            r@ == old(self)@.stack.last(),
            final(self)@ == (Machine { stack: old(self)@.stack.drop_last(), ..old(self)@ }),
    {
        let r = self.stack.pop().unwrap();
        assert(self@.stack =~= old(self)@.stack.drop_last());
        r
    }

    /// Carries out one instruction other than `Return`.
    fn step(&mut self, chunk: &Chunk, ip: usize, op: OpCode) -> (r: Option<usize>)
        requires
            ip < chunk.code.len(),
        ensures
            match old(self)@.step(chunk@, ip as int, op) {
                Some((next, at)) => r == Some(at as usize) && at == ip + 1 + (if op
                    == OpCode::Constant {
                    1int
                } else {
                    0int
                }) && at <= chunk@.code.len() && final(self)@ == next,
                None => r.is_none() && final(self)@ == old(self)@,
            },
    {
        match op {
            OpCode::Constant => {
                if ip + 1 < chunk.code.len() && (chunk.code[ip + 1] as usize)
                    < chunk.constants.len() {
                    self.push_value(chunk.constants[chunk.code[ip + 1] as usize].clone());
                    Some(ip + 2)
                } else {
                    None
                }
            },
            OpCode::Negate => {
                if self.stack.len() >= 1 {
                    match &self.stack[self.stack.len() - 1] {
                        Value::Number(n) => {
                            let negated = n.negate();
                            self.pop_value();
                            self.push_value(Value::Number(negated));
                            Some(ip + 1)
                        },
                        _ => None,
                    }
                } else {
                    None
                }
            },
            OpCode::Return => None,
            _ => {
                if self.stack.len() >= 2 {
                    match (&self.stack[self.stack.len() - 2], &self.stack[self.stack.len() - 1]) {
                        (Value::Number(a), Value::Number(b)) => {
                            let result = match op {
                                OpCode::Add => a.plus(*b),
                                OpCode::Subtract => a.minus(*b),
                                OpCode::Multiply => a.times(*b),
                                _ => a.divided_by(*b),
                            };
                            self.pop_value();
                            self.pop_value();
                            self.push_value(Value::Number(result));
                            Some(ip + 1)
                        },
                        _ => None,
                    }
                } else {
                    None
                }
            },
        }
    }

    /// Runs a chunk from its first instruction.
    pub fn run(&mut self, chunk: &Chunk) -> (r: InterpretResult)
        ensures
            (r, final(self)@) == run(chunk@, 0, old(self)@),
    {
        let mut ip: usize = 0;
        loop
            invariant
                run(chunk@, ip as int, self@) == run(chunk@, 0, old(self)@),
            decreases chunk@.code.len() - ip,
        {
            if ip >= chunk.code.len() {
                return InterpretResult::RuntimeError;
            }
            match OpCode::from_byte(chunk.read(ip)) {
                None => {
                    return InterpretResult::RuntimeError;
                },
                Some(OpCode::Return) => {
                    if self.stack.len() >= 1 {
                        let ghost before = self@;
                        let value = self.pop_value();
                        self.output.push(value.display());
                        assert(self@.output =~= before.output.push(before.stack.last().text()));
                        return InterpretResult::Done;
                    } else {
                        return InterpretResult::RuntimeError;
                    }
                },
                Some(op) => {
                    match self.step(chunk, ip, op) {
                        Some(at) => {
                            ip = at;
                        },
                        None => {
                            return InterpretResult::RuntimeError;
                        },
                    }
                },
            }
        }
    }
}

} // verus!
