//! The compiled unit ("chunk"): the bytecode buffer, the per-byte source
//! line table, and the constant pool.
//!
//! A chunk is append-only: the compiler writes bytes and constants, and the
//! machine and the disassembler only read.  The line table is indexed
//! one-to-one with the bytecode bytes, so every byte knows the source line
//! it was emitted for.

use vstd::prelude::*;

use crate::value::{Value, ValueArray, ValueModel};

verus! {

/// A one-byte instruction tag identifying a single machine operation.
#[allow(non_camel_case_types)]
#[derive(Clone, Copy, PartialEq, Eq, Structural, Debug)]
pub enum Opcode {
    OP_RETURN,
    OP_CONSTANT,
    OP_NEGATE,
    OP_ADD,
    OP_SUBTRACT,
    OP_MULTIPLY,
    OP_DIVIDE,
    OP_NIL,
    OP_TRUE,
    OP_FALSE,
    OP_NOT,
    OP_EQUAL,
    OP_GREATER,
    OP_LESS,
    OP_PRINT,
    OP_POP,
    OP_DEFINE_GLOBAL,
    OP_GET_GLOBAL,
    OP_SET_GLOBAL,
}

/// The byte that encodes an opcode in the bytecode stream.
pub open spec fn spec_opcode_byte(op: Opcode) -> u8 {
    match op {
        Opcode::OP_RETURN => 0,
        Opcode::OP_CONSTANT => 1,
        Opcode::OP_NEGATE => 2,
        Opcode::OP_ADD => 3,
        Opcode::OP_SUBTRACT => 4,
        Opcode::OP_MULTIPLY => 5,
        Opcode::OP_DIVIDE => 6,
        Opcode::OP_NIL => 7,
        Opcode::OP_TRUE => 8,
        Opcode::OP_FALSE => 9,
        Opcode::OP_NOT => 10,
        Opcode::OP_EQUAL => 11,
        Opcode::OP_GREATER => 12,
        Opcode::OP_LESS => 13,
        Opcode::OP_PRINT => 14,
        Opcode::OP_POP => 15,
        Opcode::OP_DEFINE_GLOBAL => 16,
        Opcode::OP_GET_GLOBAL => 17,
        Opcode::OP_SET_GLOBAL => 18,
    }
}

/// The opcode a byte decodes to, if any.
pub open spec fn spec_byte_opcode(b: u8) -> Option<Opcode> {
    if b == 0 {
        Some(Opcode::OP_RETURN)
    } else if b == 1 {
        Some(Opcode::OP_CONSTANT)
    } else if b == 2 {
        Some(Opcode::OP_NEGATE)
    } else if b == 3 {
        Some(Opcode::OP_ADD)
    } else if b == 4 {
        Some(Opcode::OP_SUBTRACT)
    } else if b == 5 {
        Some(Opcode::OP_MULTIPLY)
    } else if b == 6 {
        Some(Opcode::OP_DIVIDE)
    } else if b == 7 {
        Some(Opcode::OP_NIL)
    } else if b == 8 {
        Some(Opcode::OP_TRUE)
    } else if b == 9 {
        Some(Opcode::OP_FALSE)
    } else if b == 10 {
        Some(Opcode::OP_NOT)
    } else if b == 11 {
        Some(Opcode::OP_EQUAL)
    } else if b == 12 {
        Some(Opcode::OP_GREATER)
    } else if b == 13 {
        Some(Opcode::OP_LESS)
    } else if b == 14 {
        Some(Opcode::OP_PRINT)
    } else if b == 15 {
        Some(Opcode::OP_POP)
    } else if b == 16 {
        Some(Opcode::OP_DEFINE_GLOBAL)
    } else if b == 17 {
        Some(Opcode::OP_GET_GLOBAL)
    } else if b == 18 {
        Some(Opcode::OP_SET_GLOBAL)
    } else {
        None
    }
}

/// Encoding and decoding agree: every opcode decodes back from its byte.
pub proof fn lemma_opcode_roundtrip(op: Opcode)
    ensures
        spec_byte_opcode(spec_opcode_byte(op)) == Some(op),
{
}

impl Opcode {
    /// The byte that encodes this opcode.
    pub fn as_byte(self) -> (b: u8)
        ensures
            b == spec_opcode_byte(self),
    {
        match self {
            Opcode::OP_RETURN => 0,
            Opcode::OP_CONSTANT => 1,
            Opcode::OP_NEGATE => 2,
            Opcode::OP_ADD => 3,
            Opcode::OP_SUBTRACT => 4,
            Opcode::OP_MULTIPLY => 5,
            Opcode::OP_DIVIDE => 6,
            Opcode::OP_NIL => 7,
            Opcode::OP_TRUE => 8,
            Opcode::OP_FALSE => 9,
            Opcode::OP_NOT => 10,
            Opcode::OP_EQUAL => 11,
            Opcode::OP_GREATER => 12,
            Opcode::OP_LESS => 13,
            Opcode::OP_PRINT => 14,
            Opcode::OP_POP => 15,
            Opcode::OP_DEFINE_GLOBAL => 16,
            Opcode::OP_GET_GLOBAL => 17,
            Opcode::OP_SET_GLOBAL => 18,
        }
    }

    /// Decode a byte back to its opcode, if it encodes one.
    pub fn from_byte(b: u8) -> (r: Option<Opcode>)
        ensures
            r == spec_byte_opcode(b),
    {
        if b == 0 {
            Some(Opcode::OP_RETURN)
        } else if b == 1 {
            Some(Opcode::OP_CONSTANT)
        } else if b == 2 {
            Some(Opcode::OP_NEGATE)
        } else if b == 3 {
            Some(Opcode::OP_ADD)
        } else if b == 4 {
            Some(Opcode::OP_SUBTRACT)
        } else if b == 5 {
            Some(Opcode::OP_MULTIPLY)
        } else if b == 6 {
            Some(Opcode::OP_DIVIDE)
        } else if b == 7 {
            Some(Opcode::OP_NIL)
        } else if b == 8 {
            Some(Opcode::OP_TRUE)
        } else if b == 9 {
            Some(Opcode::OP_FALSE)
        } else if b == 10 {
            Some(Opcode::OP_NOT)
        } else if b == 11 {
            Some(Opcode::OP_EQUAL)
        } else if b == 12 {
            Some(Opcode::OP_GREATER)
        } else if b == 13 {
            Some(Opcode::OP_LESS)
        } else if b == 14 {
            Some(Opcode::OP_PRINT)
        } else if b == 15 {
            Some(Opcode::OP_POP)
        } else if b == 16 {
            Some(Opcode::OP_DEFINE_GLOBAL)
        } else if b == 17 {
            Some(Opcode::OP_GET_GLOBAL)
        } else if b == 18 {
            Some(Opcode::OP_SET_GLOBAL)
        } else {
            None
        }
    }
}

/// The mathematical model of a compiled unit.
pub struct ChunkModel {
    pub code: Seq<u8>,
    pub lines: Seq<int>,
    pub consts: Seq<ValueModel>,
}

impl ChunkModel {
    /// An empty unit.
    pub open spec fn empty() -> ChunkModel {
        ChunkModel { code: Seq::empty(), lines: Seq::empty(), consts: Seq::empty() }
    }
}

/// The compiled unit: bytecode, a parallel line table, and a constant pool.
pub struct Chunk {
    code: Vec<u8>,
    constants: ValueArray,
    lines: Vec<usize>,
}

impl View for Chunk {
    type V = ChunkModel;

    closed spec fn view(&self) -> ChunkModel {
        ChunkModel {
            code: self.code@,
            lines: self.lines@.map_values(|l: usize| l as int),
            consts: self.constants@,
        }
    }
}

impl Chunk {
    /// A fresh, empty unit.
    pub fn init_chunk() -> (r: Self)
        ensures
            r@ == ChunkModel::empty(),
    {
        let r = Chunk { code: Vec::new(), constants: ValueArray::init_value(), lines: Vec::new() };
        proof {
            assert(r@.code =~= Seq::<u8>::empty());
            assert(r@.lines =~= Seq::<int>::empty());
        }
        r
    }

    /// Append one bytecode byte, tagged with its source line.
    pub fn write_chunk(&mut self, byte: u8, line: usize)
        ensures
            final(self)@.code == old(self)@.code.push(byte),
            final(self)@.lines == old(self)@.lines.push(line as int),
            final(self)@.consts == old(self)@.consts,
    {
        let ghost before = self@;
        self.code.push(byte);
        self.lines.push(line);
        proof {
            assert(self@.lines =~= before.lines.push(line as int));
        }
    }

    /// Append one constant to the pool and return its index.
    pub fn add_constant(&mut self, value: Value) -> (idx: usize)
        ensures
            final(self)@.consts == old(self)@.consts.push(value@),
            final(self)@.code == old(self)@.code,
            final(self)@.lines == old(self)@.lines,
            idx == old(self)@.consts.len(),
    {
        self.constants.write_value(value);
        self.constants.get_values().len() - 1
    }

    /// The bytecode bytes.
    pub fn get_code(&self) -> (r: &Vec<u8>)
        ensures
            r@ == self@.code,
    {
        &self.code
    }

    /// The source line of each bytecode byte.
    pub fn get_line(&self) -> (r: &Vec<usize>)
        ensures
            r@.map_values(|l: usize| l as int) == self@.lines,
            r@.len() == self@.lines.len(),
    {
        &self.lines
    }

    /// The constant pool.
    pub fn get_constants(&self) -> (r: &ValueArray)
        ensures
            r@ == self@.consts,
    {
        &self.constants
    }
}

} // verus!
