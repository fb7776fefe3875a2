//! Chunks of bytecode: instructions, the line of each byte, and constants.

use crate::text::{push_decimal, push_str, string_of, decimal};
use crate::value::{Value, ValueView};
use vstd::prelude::*;

verus! {

#[derive(Debug, Clone, Copy, PartialEq, Eq, Structural)]
pub enum OpCode {
    Constant,
    Negate,
    Add,
    Subtract,
    Multiply,
    Divide,
    Return,
}

impl OpCode {
    /// The byte that stands for the instruction.
    pub open spec fn byte(self) -> u8 {
        match self {
            OpCode::Constant => 0,
            OpCode::Negate => 1,
            OpCode::Add => 2,
            OpCode::Subtract => 3,
            OpCode::Multiply => 4,
            OpCode::Divide => 5,
            OpCode::Return => 6,
        }
    }

    /// The instruction that a byte stands for.
    pub open spec fn of(byte: u8) -> Option<OpCode> {
        if byte == 0 {
            Some(OpCode::Constant)
        } else if byte == 1 {
            Some(OpCode::Negate)
        } else if byte == 2 {
            Some(OpCode::Add)
        } else if byte == 3 {
            Some(OpCode::Subtract)
        } else if byte == 4 {
            Some(OpCode::Multiply)
        } else if byte == 5 {
            Some(OpCode::Divide)
        } else if byte == 6 {
            Some(OpCode::Return)
        } else {
            None
        }
    }

    /// The name of the instruction.
    pub open spec fn name(self) -> Seq<char> {
        match self {
            OpCode::Constant => "Constant"@,
            OpCode::Negate => "Negate"@,
            OpCode::Add => "Add"@,
            OpCode::Subtract => "Subtract"@,
            OpCode::Multiply => "Multiply"@,
            OpCode::Divide => "Divide"@,
            OpCode::Return => "Return"@,
        }
    }

    pub fn to_byte(self) -> (r: u8)
        ensures
            r == self.byte(),
            OpCode::of(r) == Some(self),
    {
        match self {
            OpCode::Constant => 0,
            OpCode::Negate => 1,
            OpCode::Add => 2,
            OpCode::Subtract => 3,
            OpCode::Multiply => 4,
            OpCode::Divide => 5,
            OpCode::Return => 6,
        }
    }

    pub fn from_byte(byte: u8) -> (r: Option<OpCode>)
        ensures
            r == OpCode::of(byte),
            r.is_some() ==> r.unwrap().byte() == byte,
    {
        match byte {
            0 => Some(OpCode::Constant),
            1 => Some(OpCode::Negate),
            2 => Some(OpCode::Add),
            3 => Some(OpCode::Subtract),
            4 => Some(OpCode::Multiply),
            5 => Some(OpCode::Divide),
            6 => Some(OpCode::Return),
            _ => None,
        }
    }

    pub fn label(self) -> (r: String)
        ensures
            r@ == self.name(),
    {
        match self {
            OpCode::Constant => "Constant".to_owned(),
            OpCode::Negate => "Negate".to_owned(),
            OpCode::Add => "Add".to_owned(),
            OpCode::Subtract => "Subtract".to_owned(),
            OpCode::Multiply => "Multiply".to_owned(),
            OpCode::Divide => "Divide".to_owned(),
            OpCode::Return => "Return".to_owned(),
        }
    }
}

/// The constants of a chunk.
#[derive(Debug)]
pub struct ValueArray(pub Vec<Value>);

pub open spec fn constant_views(values: Seq<Value>) -> Seq<ValueView> {
    values.map_values(|v: Value| v@)
}

impl ValueArray {
    pub fn new() -> (r: Self)
        ensures
            r.0@.len() == 0,
    {
        ValueArray(Vec::new())
    }

    /// Adds a constant; returns its place.
    pub fn add_constant(&mut self, value: Value) -> (r: usize)
        ensures
            r == old(self).0@.len(),
            constant_views(final(self).0@) == constant_views(old(self).0@).push(value@),
    {
        self.0.push(value);
        assert(constant_views(self.0@) =~= constant_views(old(self).0@).push(value@));
        self.0.len() - 1
    }
}

/// A compiled unit: bytes of code, the source line of each byte, and the
/// constants that the code refers to by their place.
#[derive(Debug)]
pub struct Chunk {
    pub code: Vec<u8>,
    pub lines: Vec<usize>,
    pub constants: Vec<Value>,
}

pub struct ChunkView {
    pub code: Seq<u8>,
    pub lines: Seq<usize>,
    pub constants: Seq<ValueView>,
}

impl View for Chunk {
    type V = ChunkView;

    open spec fn view(&self) -> ChunkView {
        ChunkView {
            code: self.code@,
            lines: self.lines@,
            constants: constant_views(self.constants@),
        }
    }
}

impl ChunkView {
    pub open spec fn empty() -> ChunkView {
        ChunkView { code: Seq::empty(), lines: Seq::empty(), constants: Seq::empty() }
    }

    /// The chunk with one more byte, from line `line`.
    pub open spec fn write(self, byte: u8, line: usize) -> ChunkView {
        ChunkView { code: self.code.push(byte), lines: self.lines.push(line), ..self }
    }

    /// The chunk with one more constant.
    pub open spec fn add_constant(self, value: ValueView) -> ChunkView {
        ChunkView { constants: self.constants.push(value), ..self }
    }
}

impl Chunk {
    pub fn new() -> (r: Self)
        ensures
            r@ == ChunkView::empty(),
    {
        let r = Chunk { code: Vec::new(), lines: Vec::new(), constants: Vec::new() };
        assert(r@.constants =~= Seq::empty());
        r
    }

    /// Appends a byte that comes from line `line`.
    pub fn write(&mut self, byte: u8, line: usize)
        ensures
            final(self)@ == old(self)@.write(byte, line),
    {
        self.code.push(byte);
        self.lines.push(line);
    }

    /// The byte at `idx`.
    pub fn read(&self, idx: usize) -> (r: u8)
        requires
            idx < self@.code.len(),
        ensures
            r == self@.code[idx as int],
    {
        self.code[idx]
    }

    /// Adds a constant; returns its place.
    pub fn add_constant(&mut self, value: Value) -> (r: usize)
        ensures
            r == old(self)@.constants.len(),
            final(self)@ == old(self)@.add_constant(value@),
    {
        self.constants.push(value);
        assert(constant_views(self.constants@) =~= constant_views(old(self).constants@).push(
            value@,
        ));
        self.constants.len() - 1
    }
}


/// `count` copies of `fill`.
pub open spec fn filling(fill: char, count: int) -> Seq<char> {
    Seq::new(
        if count > 0 {
            count as nat
        } else {
            0
        },
        |i: int| fill,
    )
}

/// `text` with `fill` in front, up to `width` characters.
pub open spec fn right_aligned(text: Seq<char>, width: int, fill: char) -> Seq<char> {
    filling(fill, width - text.len()) + text
}

/// `text` with spaces behind, up to `width` characters.
pub open spec fn left_aligned(text: Seq<char>, width: int) -> Seq<char> {
    text + filling(' ', width - text.len())
}

fn push_filling(out: &mut Vec<char>, fill: char, count: usize)
    ensures
        final(out)@ == old(out)@ + filling(fill, count as int),
{
    let mut i: usize = 0;
    assert(out@ =~= old(out)@ + filling(fill, 0));
    while i < count
        invariant
            i <= count,
            out@ == old(out)@ + filling(fill, i as int),
        decreases count - i,
    {
        out.push(fill);
        assert(out@ =~= old(out)@ + filling(fill, i as int + 1));
        i += 1;
    }
}

fn push_right_aligned(out: &mut Vec<char>, text: &Vec<char>, width: usize, fill: char)
    ensures
        final(out)@ == old(out)@ + right_aligned(text@, width as int, fill),
{
    if text.len() < width {
        push_filling(out, fill, width - text.len());
    } else {
        assert(filling(fill, width - text.len()) =~= Seq::empty());
    }
    let ghost middle = out@;
    let mut copy = text.clone();
    out.append(&mut copy);
    assert(out@ =~= old(out)@ + right_aligned(text@, width as int, fill));
}

fn push_number(out: &mut Vec<char>, n: usize, width: usize, fill: char)
    ensures
        final(out)@ == old(out)@ + right_aligned(decimal(n as nat), width as int, fill),
{
    let mut digits: Vec<char> = Vec::new();
    push_decimal(&mut digits, n);
    assert(digits@ =~= decimal(n as nat));
    push_right_aligned(out, &digits, width, fill);
}

impl ChunkView {
    /// The line of the byte at `offset`; 0 where the chunk names none.
    pub open spec fn line_at(self, offset: int) -> usize {
        if 0 <= offset < self.lines.len() {
            self.lines[offset]
        } else {
            0
        }
    }

    /// Whether the byte at `offset` loads a constant that the chunk holds.
    pub open spec fn loads_constant(self, offset: int) -> bool {
        &&& 0 <= offset < self.code.len()
        &&& OpCode::of(self.code[offset]) == Some(OpCode::Constant)
        &&& offset + 1 < self.code.len()
        &&& self.code[offset + 1] < self.constants.len()
    }

    /// Where the instruction after the one at `offset` starts.
    pub open spec fn following(self, offset: int) -> int {
        if self.loads_constant(offset) {
            offset + 2
        } else {
            offset + 1
        }
    }

    /// The offset in four digits, then the line, or a bar if the line is
    /// that of the byte before.
    pub open spec fn margin(self, offset: int) -> Seq<char> {
        right_aligned(decimal(offset as nat), 4, '0') + " "@ + (if offset > 0 && self.line_at(
            offset,
        ) == self.line_at(offset - 1) {
            "   | "@
        } else {
            right_aligned(decimal(self.line_at(offset) as nat), 4, ' ') + " "@
        })
    }

    /// The instruction at `offset` as text: its name; for a constant also
    /// the place and the text of the constant.
    pub open spec fn instruction_text(self, offset: int) -> Seq<char> {
        match OpCode::of(self.code[offset]) {
            Some(op) => if self.loads_constant(offset) {
                left_aligned(op.name(), 16) + " "@ + right_aligned(
                    decimal(self.code[offset + 1] as nat),
                    4,
                    ' ',
                ) + " `"@ + self.constants[self.code[offset + 1] as int].text() + "`"@
            } else {
                op.name()
            },
            None => "Unknown opcode "@ + decimal(self.code[offset] as nat),
        }
    }

    /// One line of a listing: the margin and the instruction.
    pub open spec fn listed(self, offset: int) -> Seq<char> {
        self.margin(offset) + self.instruction_text(offset)
    }

    /// The lines of a listing from `offset` on.
    pub open spec fn listing(self, offset: int) -> Seq<Seq<char>>
        decreases self.code.len() - offset,
    {
        if 0 <= offset < self.code.len() {
            seq![self.listed(offset)] + self.listing(self.following(offset))
        } else {
            Seq::empty()
        }
    }
}

/// The title line of a listing.
pub open spec fn title(name: Seq<char>) -> Seq<char> {
    "== "@ + name + " =="@
}

impl Chunk {
    /// The listing of the chunk: a title, then one line for each instruction.
    pub fn disassemble_chunk(&self, name: &str) -> (lines: Vec<String>)
        ensures
            lines@.map_values(|s: String| s@) == seq![title(name@)] + self@.listing(0),
    {
        let mut lines: Vec<String> = Vec::new();
        let mut head: Vec<char> = Vec::new();
        push_str(&mut head, "== ");
        push_str(&mut head, name);
        push_str(&mut head, " ==");
        lines.push(string_of(&head));
        assert(lines@.map_values(|s: String| s@) =~= seq![title(name@)]);
        let mut offset: usize = 0;
        assert(seq![title(name@)] + self@.listing(0) =~= lines@.map_values(|s: String| s@)
            + self@.listing(0));
        while offset < self.code.len()
            invariant
                lines@.map_values(|s: String| s@) + self@.listing(offset as int) == seq![
                    title(name@),
                ] + self@.listing(0),
            decreases self.code.len() - offset,
        {
            let ghost before = lines@.map_values(|s: String| s@);
            let (line, next) = self.disassemble_instruction(offset);
            lines.push(line);
            assert(lines@.map_values(|s: String| s@) + self@.listing(next as int) =~= before
                + self@.listing(offset as int));
            offset = next;
        }
        assert(lines@.map_values(|s: String| s@) + Seq::<Seq<char>>::empty()
            =~= lines@.map_values(|s: String| s@));
        lines
    }

    fn line_of(&self, offset: usize) -> (r: usize)
        ensures
            r == self@.line_at(offset as int),
    {
        if offset < self.lines.len() {
            self.lines[offset]
        } else {
            0
        }
    }

    fn margin_of(&self, offset: usize) -> (out: Vec<char>)
        ensures
            out@ == self@.margin(offset as int),
    {
        let mut out: Vec<char> = Vec::new();
        push_number(&mut out, offset, 4, '0');
        out.push(' ');
        let ghost head = out@;
        proof {
            reveal_strlit(" ");
            assert(" "@ =~= seq![' ']);
            assert(head =~= right_aligned(decimal(offset as nat), 4, '0') + " "@);
        }
        if offset > 0 && self.line_of(offset) == self.line_of(offset - 1) {
            push_str(&mut out, "   | ");
        } else {
            push_number(&mut out, self.line_of(offset), 4, ' ');
            out.push(' ');
            assert(out@ =~= head + (right_aligned(
                decimal(self@.line_at(offset as int) as nat),
                4,
                ' ',
            ) + " "@));
        }
        out
    }

    /// One line of the listing, and where the next instruction starts.
    pub fn disassemble_instruction(&self, offset: usize) -> (r: (String, usize))
        requires
            offset < self.code.len(),
        ensures
            r.0@ == self@.listed(offset as int),
            r.1 == self@.following(offset as int),
            offset < r.1 <= self@.code.len(),
    {
        let mut out = self.margin_of(offset);
        let instruction = self.code[offset];
        match OpCode::from_byte(instruction) {
            Some(op) => {
                if op == OpCode::Constant && offset < self.code.len() - 1 && (self.code[offset
                    + 1] as usize) < self.constants.len() {
                    self.constant_instruction(op, offset, &mut out)
                } else {
                    self.simple_instruction(op, offset, &mut out)
                }
            },
            None => {
                push_str(&mut out, "Unknown opcode ");
                let ghost middle = out@;
                let mut digits: Vec<char> = Vec::new();
                push_decimal(&mut digits, instruction as usize);
                out.append(&mut digits);
                assert(out@ =~= self@.listed(offset as int));
                (string_of(&out), offset + 1)
            },
        }
    }

    /// The line of an instruction without operand.
    pub fn simple_instruction(&self, op: OpCode, offset: usize, out: &mut Vec<char>) -> (r: (
        String,
        usize,
    ))
        requires
            offset < self.code.len(),
        ensures
            r.0@ == old(out)@ + op.name(),
            r.1 == offset + 1,
    {
        let name = op.label();
        push_str(out, name.as_str());
        (string_of(out), offset + 1)
    }

    /// The line of an instruction that loads a constant.
    pub fn constant_instruction(&self, op: OpCode, offset: usize, out: &mut Vec<char>) -> (r: (
        String,
        usize,
    ))
        requires
            offset < self.code.len() - 1,
            self.code[offset + 1] < self.constants.len(),
        ensures
            r.0@ == old(out)@ + left_aligned(op.name(), 16) + " "@ + right_aligned(
                decimal(self@.code[offset + 1] as nat),
                4,
                ' ',
            ) + " `"@ + self@.constants[self@.code[offset + 1] as int].text() + "`"@,
            r.1 == offset + 2,
    {
        let constant = self.code[offset + 1];
        let name = op.label();
        let name_chars = crate::text::chars_of(name.as_str());
        push_str(out, name.as_str());
        if name_chars.len() < 16 {
            push_filling(out, ' ', 16 - name_chars.len());
        } else {
            assert(filling(' ', 16 - name_chars.len()) =~= Seq::empty());
        }
        let ghost named = out@;
        assert(named =~= old(out)@ + left_aligned(op.name(), 16));
        out.push(' ');
        push_number(out, constant as usize, 4, ' ');
        push_str(out, " `");
        let value = self.constants[constant as usize].display();
        push_str(out, value.as_str());
        push_str(out, "`");
        proof {
            reveal_strlit(" ");
            assert(out@ =~= old(out)@ + left_aligned(op.name(), 16) + " "@ + right_aligned(
                decimal(self@.code[offset + 1] as nat),
                4,
                ' ',
            ) + " `"@ + self@.constants[self@.code[offset + 1] as int].text() + "`"@);
        }
        (string_of(out), offset + 2)
    }
}

} // verus!
