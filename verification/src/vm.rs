//! The virtual machine: a fetch-decode-execute loop over one compiled unit.
//!
//! The machine keeps a bounded operand stack and a global-variable table
//! with at most one entry per name.  `print` appends the printed text to an
//! output buffer instead of writing to a stream, and a runtime error is
//! recorded as a fault instead of being printed, so the machine itself
//! performs no I/O.
//!
//! `spec_run` is the semantics of the bytecode: a total, terminating
//! function from a unit and a machine state to an outcome (no instruction
//! jumps backwards at this stage, so the instruction pointer is a
//! measure).  `run` is proved to return exactly what `spec_run` says, so
//! the whole execution, output included, is a function of the unit and the
//! starting state.

use vstd::pervasive::VecAdditionalExecFns;
use vstd::prelude::*;

use crate::chunk::{Chunk, ChunkModel, Opcode, spec_byte_opcode};
use crate::compiler::{CompilerParser, Diagnostic, DiagModel, spec_compile};
use crate::object::{Obj, ObjString};
use crate::scanner::Scanner;
use crate::value::{
    Value, ValueModel, append_bytes, bytes_equal, clone_bytes, spec_value_text, value_text,
};

verus! {

/// The operand stack never holds more than this many values; an
/// instruction that would push past it raises a runtime error.
pub const STACK_MAX: usize = 256;

/// The overall outcome of one interpretation.
#[allow(non_camel_case_types)]
#[derive(Clone, Copy, PartialEq, Eq, Structural, Debug)]
pub enum InterpretResult {
    INTERPRET_OK,
    INTERPRET_COMPILE_ERROR,
    INTERPRET_RUNTIME_ERROR,
}

/// The model of a recorded runtime fault: a message and, where one
/// applies, the name it concerns.
pub struct FaultModel {
    pub message: Seq<char>,
    pub detail: Seq<u8>,
}

/// The model of the machine state: the operand stack, the global table,
/// the output produced so far, the recorded fault, and the instruction
/// pointer.
pub struct VmModel {
    pub stack: Seq<ValueModel>,
    pub globals: Seq<(Seq<u8>, ValueModel)>,
    pub output: Seq<Seq<u8>>,
    pub fault: Option<FaultModel>,
    pub ip: int,
}

/// Truthiness: only nil and false are falsey.
pub open spec fn spec_falsey(v: ValueModel) -> bool {
    v is Nil || v == ValueModel::Bool(false)
}

/// Structural equality across all value kinds; values of different kinds
/// are never equal.
pub open spec fn spec_values_equal(a: ValueModel, b: ValueModel) -> bool {
    match (a, b) {
        (ValueModel::Nil, ValueModel::Nil) => true,
        (ValueModel::Bool(x), ValueModel::Bool(y)) => x == y,
        (ValueModel::Num(x), ValueModel::Num(y)) => x == y,
        (ValueModel::Str(x), ValueModel::Str(y)) => x == y,
        _ => false,
    }
}

/// The value bound to a name in the global table, if any.
pub open spec fn spec_lookup_global(gs: Seq<(Seq<u8>, ValueModel)>, name: Seq<u8>) -> Option<
    ValueModel,
>
    decreases gs.len(),
{
    if gs.len() == 0 {
        None
    } else if gs[0].0 == name {
        Some(gs[0].1)
    } else {
        spec_lookup_global(gs.drop_first(), name)
    }
}

/// Bind a name in the global table, replacing an existing entry so that
/// each name has at most one.
pub open spec fn spec_set_global(
    gs: Seq<(Seq<u8>, ValueModel)>,
    name: Seq<u8>,
    v: ValueModel,
) -> Seq<(Seq<u8>, ValueModel)>
    decreases gs.len(),
{
    if gs.len() == 0 {
        seq![(name, v)]
    } else if gs[0].0 == name {
        seq![(name, v)] + gs.drop_first()
    } else {
        seq![gs[0]] + spec_set_global(gs.drop_first(), name, v)
    }
}

/// The magnitude of a number.
pub open spec fn spec_abs64(a: i64) -> int {
    if a >= 0 {
        a as int
    } else {
        -(a as int)
    }
}

/// Truncated division, wrapping on the one overflowing case.
pub open spec fn spec_div_wrap(a: i64, b: i64) -> i64 {
    let q = spec_abs64(a) / spec_abs64(b);
    if q >= 0x8000000000000000 {
        i64::MIN
    } else if (a < 0) != (b < 0) {
        (-q) as i64
    } else {
        q as i64
    }
}

/// A state with a runtime fault recorded.
pub open spec fn spec_with_fault(st: VmModel, message: Seq<char>, detail: Seq<u8>) -> VmModel {
    VmModel { fault: Some(FaultModel { message, detail }), ..st }
}

/// The semantics of a compiled unit: run it from the given state to an
/// outcome and a final state.  Malformed bytecode (a truncated unit, an
/// unknown opcode, an operand out of range, an unbalanced stack) ends the
/// run as a compile error; a type fault, an undefined global, division by
/// zero or stack exhaustion ends it as a runtime error.
pub open spec fn spec_run(chunk: ChunkModel, st: VmModel) -> (InterpretResult, VmModel)
    decreases chunk.code.len() - st.ip, 1int,
{
    if st.ip < 0 || st.ip >= chunk.code.len() {
        (InterpretResult::INTERPRET_COMPILE_ERROR, st)
    } else {
        let b = chunk.code[st.ip];
        match spec_byte_opcode(b) {
            None => (InterpretResult::INTERPRET_COMPILE_ERROR, st),
            Some(op) => match op {
                Opcode::OP_RETURN => (InterpretResult::INTERPRET_OK, st),
                Opcode::OP_CONSTANT => {
                    if st.ip + 1 >= chunk.code.len() || chunk.code[st.ip + 1] as int
                        >= chunk.consts.len() {
                        (InterpretResult::INTERPRET_COMPILE_ERROR, st)
                    } else if st.stack.len() >= STACK_MAX {
                        (
                            InterpretResult::INTERPRET_RUNTIME_ERROR,
                            spec_with_fault(st, "Stack overflow"@, Seq::<u8>::empty()),
                        )
                    } else {
                        spec_run(
                            chunk,
                            VmModel {
                                stack: st.stack.push(chunk.consts[chunk.code[st.ip + 1] as int]),
                                ip: st.ip + 2,
                                ..st
                            },
                        )
                    }
                },
                Opcode::OP_NEGATE => {
                    if st.stack.len() < 1 {
                        (InterpretResult::INTERPRET_COMPILE_ERROR, st)
                    } else {
                        match st.stack.last() {
                            ValueModel::Num(n) => spec_run(
                                chunk,
                                VmModel {
                                    stack: st.stack.drop_last().push(
                                        ValueModel::Num(
                                            vstd::wrapping::i64_specs::wrapping_sub(0i64, n),
                                        ),
                                    ),
                                    ip: st.ip + 1,
                                    ..st
                                },
                            ),
                            _ => (
                                InterpretResult::INTERPRET_RUNTIME_ERROR,
                                spec_with_fault(
                                    st,
                                    "Operand must be a number"@,
                                    Seq::<u8>::empty(),
                                ),
                            ),
                        }
                    }
                },
                Opcode::OP_ADD => {
                    if st.stack.len() < 2 {
                        (InterpretResult::INTERPRET_COMPILE_ERROR, st)
                    } else {
                        let bb = st.stack.last();
                        let aa = st.stack.drop_last().last();
                        match (aa, bb) {
                            (ValueModel::Str(x), ValueModel::Str(y)) => spec_run(
                                chunk,
                                VmModel {
                                    stack: st.stack.drop_last().drop_last().push(
                                        ValueModel::Str(x + y),
                                    ),
                                    ip: st.ip + 1,
                                    ..st
                                },
                            ),
                            (ValueModel::Num(x), ValueModel::Num(y)) => spec_run(
                                chunk,
                                VmModel {
                                    stack: st.stack.drop_last().drop_last().push(
                                        ValueModel::Num(
                                            vstd::wrapping::i64_specs::wrapping_add(x, y),
                                        ),
                                    ),
                                    ip: st.ip + 1,
                                    ..st
                                },
                            ),
                            _ => (
                                InterpretResult::INTERPRET_RUNTIME_ERROR,
                                spec_with_fault(
                                    st,
                                    "Operands must be a number"@,
                                    Seq::<u8>::empty(),
                                ),
                            ),
                        }
                    }
                },
                Opcode::OP_SUBTRACT => spec_arith(chunk, st, op),
                Opcode::OP_MULTIPLY => spec_arith(chunk, st, op),
                Opcode::OP_DIVIDE => spec_arith(chunk, st, op),
                Opcode::OP_NIL => spec_push_simple(chunk, st, ValueModel::Nil),
                Opcode::OP_TRUE => spec_push_simple(chunk, st, ValueModel::Bool(true)),
                Opcode::OP_FALSE => spec_push_simple(chunk, st, ValueModel::Bool(false)),
                Opcode::OP_NOT => {
                    if st.stack.len() < 1 {
                        (InterpretResult::INTERPRET_COMPILE_ERROR, st)
                    } else {
                        spec_run(
                            chunk,
                            VmModel {
                                stack: st.stack.drop_last().push(
                                    ValueModel::Bool(spec_falsey(st.stack.last())),
                                ),
                                ip: st.ip + 1,
                                ..st
                            },
                        )
                    }
                },
                Opcode::OP_EQUAL => {
                    if st.stack.len() < 2 {
                        (InterpretResult::INTERPRET_COMPILE_ERROR, st)
                    } else {
                        spec_run(
                            chunk,
                            VmModel {
                                stack: st.stack.drop_last().drop_last().push(
                                    ValueModel::Bool(
                                        spec_values_equal(
                                            st.stack.drop_last().last(),
                                            st.stack.last(),
                                        ),
                                    ),
                                ),
                                ip: st.ip + 1,
                                ..st
                            },
                        )
                    }
                },
                Opcode::OP_GREATER => spec_compare(chunk, st, op),
                Opcode::OP_LESS => spec_compare(chunk, st, op),
                Opcode::OP_PRINT => {
                    if st.stack.len() < 1 {
                        (InterpretResult::INTERPRET_COMPILE_ERROR, st)
                    } else {
                        spec_run(
                            chunk,
                            VmModel {
                                stack: st.stack.drop_last(),
                                output: st.output.push(spec_value_text(st.stack.last())),
                                ip: st.ip + 1,
                                ..st
                            },
                        )
                    }
                },
                Opcode::OP_POP => {
                    if st.stack.len() < 1 {
                        (InterpretResult::INTERPRET_COMPILE_ERROR, st)
                    } else {
                        spec_run(
                            chunk,
                            VmModel { stack: st.stack.drop_last(), ip: st.ip + 1, ..st },
                        )
                    }
                },
                Opcode::OP_DEFINE_GLOBAL => {
                    match spec_name_operand(chunk, st.ip) {
                        None => (InterpretResult::INTERPRET_COMPILE_ERROR, st),
                        Some(name) => {
                            if st.stack.len() < 1 {
                                (InterpretResult::INTERPRET_COMPILE_ERROR, st)
                            } else {
                                spec_run(
                                    chunk,
                                    VmModel {
                                        globals: spec_set_global(
                                            st.globals,
                                            name,
                                            st.stack.last(),
                                        ),
                                        stack: st.stack.drop_last(),
                                        ip: st.ip + 2,
                                        ..st
                                    },
                                )
                            }
                        },
                    }
                },
                Opcode::OP_GET_GLOBAL => {
                    match spec_name_operand(chunk, st.ip) {
                        None => (InterpretResult::INTERPRET_COMPILE_ERROR, st),
                        Some(name) => {
                            match spec_lookup_global(st.globals, name) {
                                None => (
                                    InterpretResult::INTERPRET_RUNTIME_ERROR,
                                    spec_with_fault(st, "Undefined Variable"@, name),
                                ),
                                Some(v) => {
                                    if st.stack.len() >= STACK_MAX {
                                        (
                                            InterpretResult::INTERPRET_RUNTIME_ERROR,
                                            spec_with_fault(
                                                st,
                                                "Stack overflow"@,
                                                Seq::<u8>::empty(),
                                            ),
                                        )
                                    } else {
                                        spec_run(
                                            chunk,
                                            VmModel {
                                                stack: st.stack.push(v),
                                                ip: st.ip + 2,
                                                ..st
                                            },
                                        )
                                    }
                                },
                            }
                        },
                    }
                },
                Opcode::OP_SET_GLOBAL => {
                    match spec_name_operand(chunk, st.ip) {
                        None => (InterpretResult::INTERPRET_COMPILE_ERROR, st),
                        Some(name) => {
                            if st.stack.len() < 1 {
                                (InterpretResult::INTERPRET_COMPILE_ERROR, st)
                            } else if spec_lookup_global(st.globals, name) is None {
                                (
                                    InterpretResult::INTERPRET_RUNTIME_ERROR,
                                    spec_with_fault(st, "Undefined Variable"@, name),
                                )
                            } else {
                                spec_run(
                                    chunk,
                                    VmModel {
                                        globals: spec_set_global(
                                            st.globals,
                                            name,
                                            st.stack.last(),
                                        ),
                                        ip: st.ip + 2,
                                        ..st
                                    },
                                )
                            }
                        },
                    }
                },
            },
        }
    }
}

/// Push one literal value and continue.
pub open spec fn spec_push_simple(chunk: ChunkModel, st: VmModel, v: ValueModel) -> (
    InterpretResult,
    VmModel,
)
    decreases chunk.code.len() - st.ip, 0int,
{
    if st.ip < 0 || st.ip >= chunk.code.len() {
        (InterpretResult::INTERPRET_COMPILE_ERROR, st)
    } else if st.stack.len() >= STACK_MAX {
        (
            InterpretResult::INTERPRET_RUNTIME_ERROR,
            spec_with_fault(st, "Stack overflow"@, Seq::<u8>::empty()),
        )
    } else {
        spec_run(chunk, VmModel { stack: st.stack.push(v), ip: st.ip + 1, ..st })
    }
}

/// The string constant named by the operand byte of the instruction at
/// `ip`, if the instruction is complete and the constant is a string.
pub open spec fn spec_name_operand(chunk: ChunkModel, ip: int) -> Option<Seq<u8>> {
    if ip + 1 >= chunk.code.len() || chunk.code[ip + 1] as int >= chunk.consts.len() {
        None
    } else {
        match chunk.consts[chunk.code[ip + 1] as int] {
            ValueModel::Str(s) => Some(s),
            _ => None,
        }
    }
}

/// One numeric arithmetic instruction: both operands must be numbers.
pub open spec fn spec_arith(chunk: ChunkModel, st: VmModel, op: Opcode) -> (
    InterpretResult,
    VmModel,
)
    decreases chunk.code.len() - st.ip, 0int,
{
    if st.ip < 0 || st.ip >= chunk.code.len() {
        (InterpretResult::INTERPRET_COMPILE_ERROR, st)
    } else if st.stack.len() < 2 {
        (InterpretResult::INTERPRET_COMPILE_ERROR, st)
    } else {
        let bb = st.stack.last();
        let aa = st.stack.drop_last().last();
        match (aa, bb) {
            (ValueModel::Num(x), ValueModel::Num(y)) => {
                if op == Opcode::OP_DIVIDE && y == 0 {
                    (
                        InterpretResult::INTERPRET_RUNTIME_ERROR,
                        spec_with_fault(st, "Division by zero"@, Seq::<u8>::empty()),
                    )
                } else {
                    let r = if op == Opcode::OP_SUBTRACT {
                        vstd::wrapping::i64_specs::wrapping_sub(x, y)
                    } else if op == Opcode::OP_MULTIPLY {
                        vstd::wrapping::i64_specs::wrapping_mul(x, y)
                    } else {
                        spec_div_wrap(x, y)
                    };
                    spec_run(
                        chunk,
                        VmModel {
                            stack: st.stack.drop_last().drop_last().push(ValueModel::Num(r)),
                            ip: st.ip + 1,
                            ..st
                        },
                    )
                }
            },
            _ => (
                InterpretResult::INTERPRET_RUNTIME_ERROR,
                spec_with_fault(st, "Operands must be a number"@, Seq::<u8>::empty()),
            ),
        }
    }
}

/// One numeric comparison instruction: both operands must be numbers.
pub open spec fn spec_compare(chunk: ChunkModel, st: VmModel, op: Opcode) -> (
    InterpretResult,
    VmModel,
)
    decreases chunk.code.len() - st.ip, 0int,
{
    if st.ip < 0 || st.ip >= chunk.code.len() {
        (InterpretResult::INTERPRET_COMPILE_ERROR, st)
    } else if st.stack.len() < 2 {
        (InterpretResult::INTERPRET_COMPILE_ERROR, st)
    } else {
        let bb = st.stack.last();
        let aa = st.stack.drop_last().last();
        match (aa, bb) {
            (ValueModel::Num(x), ValueModel::Num(y)) => {
                let r = if op == Opcode::OP_GREATER {
                    x > y
                } else {
                    x < y
                };
                spec_run(
                    chunk,
                    VmModel {
                        stack: st.stack.drop_last().drop_last().push(ValueModel::Bool(r)),
                        ip: st.ip + 1,
                        ..st
                    },
                )
            },
            _ => (
                InterpretResult::INTERPRET_RUNTIME_ERROR,
                spec_with_fault(st, "Operands must be a number"@, Seq::<u8>::empty()),
            ),
        }
    }
}

/// The whole pipeline as one function: compile the source text into a
/// fresh unit and, only when compilation succeeded, run it from the given
/// machine state with the instruction pointer reset.
pub open spec fn spec_interpret(src: Seq<u8>, st: VmModel) -> (InterpretResult, VmModel) {
    let c = spec_compile(src);
    let start = VmModel { ip: 0, ..st };
    if c.had_error {
        (InterpretResult::INTERPRET_COMPILE_ERROR, start)
    } else {
        spec_run(c.chunk, start)
    }
}

/// A program that fails to compile is never executed: interpreting it
/// reports a compile error, and the machine state — stack, global table,
/// output and fault — is left exactly as it started.
pub proof fn lemma_compile_error_never_runs(src: Seq<u8>, st: VmModel)
    requires
        spec_compile(src).had_error,
    ensures
        spec_interpret(src, st).0 == InterpretResult::INTERPRET_COMPILE_ERROR,
        spec_interpret(src, st).1.stack == st.stack,
        spec_interpret(src, st).1.globals == st.globals,
        spec_interpret(src, st).1.output == st.output,
        spec_interpret(src, st).1.fault == st.fault,
{
}

/// A recorded runtime fault.
#[derive(Clone, Debug)]
pub struct RuntimeFault {
    message: &'static str,
    detail: Vec<u8>,
}

impl View for RuntimeFault {
    type V = FaultModel;

    closed spec fn view(&self) -> FaultModel {
        FaultModel { message: self.message@, detail: self.detail@ }
    }
}

impl RuntimeFault {
    /// The fault message.
    pub fn get_message(&self) -> (r: &'static str)
        ensures
            r@ == self@.message,
    {
        self.message
    }

    /// The name the fault concerns, where one applies.
    pub fn get_detail(&self) -> (r: &Vec<u8>)
        ensures
            r@ == self@.detail,
    {
        &self.detail
    }
}

/// One entry of the global table.
pub struct GlobalEntry {
    name: Vec<u8>,
    value: Value,
}

impl View for GlobalEntry {
    type V = (Seq<u8>, ValueModel);

    closed spec fn view(&self) -> (Seq<u8>, ValueModel) {
        (self.name@, self.value@)
    }
}

/// The virtual machine.
pub struct VirtualMachine {
    stack: Vec<Value>,
    globals: Vec<GlobalEntry>,
    output: Vec<Vec<u8>>,
    fault: Option<RuntimeFault>,
    diagnostics: Vec<Diagnostic>,
    ip: usize,
}

impl VirtualMachine {
    /// The model of the machine state.
    pub closed spec fn model(&self) -> VmModel {
        VmModel {
            stack: self.stack@.map_values(|v: Value| v@),
            globals: self.globals@.map_values(|g: GlobalEntry| g@),
            output: self.output@.map_values(|o: Vec<u8>| o@),
            fault: match self.fault {
                Some(f) => Some(f@),
                None => None,
            },
            ip: self.ip as int,
        }
    }

    /// The diagnostics of the last compilation.
    pub closed spec fn diags_model(&self) -> Seq<DiagModel> {
        self.diagnostics@.map_values(|d: Diagnostic| d@)
    }

    /// The stack stays inside its bound.
    pub open spec fn wf(&self) -> bool {
        self.model().stack.len() <= STACK_MAX
    }

    /// A fresh machine: empty stack, empty global table, no output, no
    /// fault.
    pub fn init_virtual_machine() -> (r: Self)
        ensures
            r.wf(),
            r.model() == (VmModel {
                stack: Seq::<ValueModel>::empty(),
                globals: Seq::<(Seq<u8>, ValueModel)>::empty(),
                output: Seq::<Seq<u8>>::empty(),
                fault: None,
                ip: 0,
            }),
            r.diags_model() == Seq::<DiagModel>::empty(),
    {
        let r = VirtualMachine {
            stack: Vec::new(),
            globals: Vec::new(),
            output: Vec::new(),
            fault: None,
            diagnostics: Vec::new(),
            ip: 0,
        };
        proof {
            assert(r.model().stack =~= Seq::<ValueModel>::empty());
            assert(r.model().globals =~= Seq::<(Seq<u8>, ValueModel)>::empty());
            assert(r.model().output =~= Seq::<Seq<u8>>::empty());
            assert(r.diags_model() =~= Seq::<DiagModel>::empty());
        }
        r
    }

    /// Push a value; the caller has checked the bound.
    pub fn push(&mut self, value: Value)
        requires
            old(self).model().stack.len() < STACK_MAX,
        ensures
            final(self).wf(),
            final(self).model() == (VmModel {
                stack: old(self).model().stack.push(value@),
                ..old(self).model()
            }),
            final(self).diags_model() == old(self).diags_model(),
    {
        self.stack.push(value);
        proof {
            assert(self.model().stack =~= old(self).model().stack.push(value@));
        }
    }

    /// Pop the top value.
    pub fn pop(&mut self) -> (r: Value)
        requires
            old(self).model().stack.len() > 0,
        ensures
            final(self).model() == (VmModel {
                stack: old(self).model().stack.drop_last(),
                ..old(self).model()
            }),
            r@ == old(self).model().stack.last(),
            final(self).diags_model() == old(self).diags_model(),
            old(self).wf() ==> final(self).wf(),
    {
        let r = self.stack.pop();
        match r {
            Some(v) => {
                proof {
                    assert(self.model().stack =~= old(self).model().stack.drop_last());
                }
                v
            },
            None => vstd::pervasive::unreached(),
        }
    }

    /// The value `dist` slots below the top of the stack.
    pub fn peek(&self, dist: usize) -> (r: &Value)
        requires
            dist < self.model().stack.len(),
        ensures
            r@ == self.model().stack[self.model().stack.len() - 1 - dist],
    {
        &self.stack[self.stack.len() - 1 - dist]
    }

    /// The output produced so far, one entry per `print`.
    pub fn get_output(&self) -> (r: &Vec<Vec<u8>>)
        ensures
            r@.map_values(|o: Vec<u8>| o@) == self.model().output,
            r@.len() == self.model().output.len(),
    {
        &self.output
    }

    /// The recorded runtime fault, if the last run raised one.
    pub fn get_fault(&self) -> (r: &Option<RuntimeFault>)
        ensures
            match r {
                Some(f) => self.model().fault == Some(f@),
                None => self.model().fault is None,
            },
    {
        &self.fault
    }

    /// The diagnostics of the last compilation, in order of discovery.
    pub fn get_diagnostics(&self) -> (r: &Vec<Diagnostic>)
        ensures
            r@.map_values(|d: Diagnostic| d@) == self.diags_model(),
            r@.len() == self.diags_model().len(),
    {
        &self.diagnostics
    }

    /// Record a runtime fault.
    fn runtime_error(&mut self, message: &'static str, detail: Vec<u8>)
        ensures
            final(self).model() == spec_with_fault(old(self).model(), message@, detail@),
            final(self).diags_model() == old(self).diags_model(),
            old(self).wf() ==> final(self).wf(),
    {
        self.fault = Some(RuntimeFault { message, detail });
    }

    /// Truthiness: only nil and false are falsey.
    pub fn is_falsey(&self, value: &Value) -> (r: bool)
        ensures
            r == spec_falsey(value@),
    {
        match value {
            Value::Nil => true,
            Value::Boolean(b) => !*b,
            _ => false,
        }
    }

    /// Structural equality across all value kinds.
    pub fn values_equal(&self, a: &Value, b: &Value) -> (r: bool)
        ensures
            r == spec_values_equal(a@, b@),
    {
        match (a, b) {
            (Value::Nil, Value::Nil) => true,
            (Value::Boolean(x), Value::Boolean(y)) => *x == *y,
            (Value::Number(x), Value::Number(y)) => *x == *y,
            (Value::Obj(x), Value::Obj(y)) => bytes_equal(
                x.as_string().get_string(),
                y.as_string().get_string(),
            ),
            _ => false,
        }
    }

    /// Concatenate the two string operands on top of the stack.
    fn concatenate(&mut self)
        requires
            old(self).wf(),
            old(self).model().stack.len() >= 2,
            old(self).model().stack.last() is Str,
            old(self).model().stack.drop_last().last() is Str,
        ensures
            old(self).wf() ==> final(self).wf(),
            final(self).diags_model() == old(self).diags_model(),
            ({
                match (old(self).model().stack.drop_last().last(), old(self).model().stack.last()) {
                    (ValueModel::Str(x), ValueModel::Str(y)) => final(self).model() == (VmModel {
                        stack: old(self).model().stack.drop_last().drop_last().push(
                            ValueModel::Str(x + y),
                        ),
                        ..old(self).model()
                    }),
                    _ => true,
                }
            }),
    {
        let b_ = self.pop();
        let a_ = self.pop();
        let mut res = clone_bytes(a_.as_obj().as_string().get_string());
        append_bytes(&mut res, b_.as_obj().as_string().get_string());
        self.push(Value::obj_val(Obj::str_obj(ObjString::from(res))));
    }

    /// The index of a name in the global table, if present.
    fn find_global(&self, name: &Vec<u8>) -> (r: Option<usize>)
        ensures
            match r {
                Some(i) => i < self.model().globals.len() && self.model().globals[i as int].0
                    == name@ && forall|j: int|
                    0 <= j < i ==> #[trigger] self.model().globals[j].0 != name@,
                None => forall|j: int|
                    0 <= j < self.model().globals.len()
                        ==> #[trigger] self.model().globals[j].0 != name@,
            },
    {
        let mut i: usize = 0;
        while i < self.globals.len()
            invariant
                i <= self.model().globals.len(),
                forall|j: int| 0 <= j < i ==> #[trigger] self.model().globals[j].0 != name@,
            decreases self.model().globals.len() - i,
        {
            if bytes_equal(&self.globals[i].name, name) {
                return Some(i);
            }
            i += 1;
        }
        None
    }

    /// Bind a name, replacing an existing entry.
    fn set_global(&mut self, name: Vec<u8>, value: Value)
        ensures
            old(self).wf() ==> final(self).wf(),
            final(self).diags_model() == old(self).diags_model(),
            final(self).model() == (VmModel {
                globals: spec_set_global(old(self).model().globals, name@, value@),
                ..old(self).model()
            }),
    {
        let found = self.find_global(&name);
        match found {
            Some(i) => {
                let ghost gs = self.model().globals;
                self.globals.set(i, GlobalEntry { name, value });
                proof {
                    lemma_set_global_update(gs, name@, value@, i as int);
                    assert(self.model().globals =~= gs.update(i as int, (name@, value@)));
                }
            },
            None => {
                let ghost gs = self.model().globals;
                self.globals.push(GlobalEntry { name, value });
                proof {
                    lemma_set_global_append(gs, name@, value@);
                    assert(self.model().globals =~= gs.push((name@, value@)));
                }
            },
        }
    }

    /// Look a name up in the global table.
    fn get_global(&self, name: &Vec<u8>) -> (r: Option<&Value>)
        ensures
            match r {
                Some(v) => spec_lookup_global(self.model().globals, name@) == Some(v@),
                None => spec_lookup_global(self.model().globals, name@) is None,
            },
    {
        let found = self.find_global(name);
        match found {
            Some(i) => {
                proof {
                    lemma_lookup_at(self.model().globals, name@, i as int);
                }
                Some(&self.globals[i].value)
            },
            None => {
                proof {
                    lemma_lookup_none(self.model().globals, name@);
                }
                None
            },
        }
    }
}

impl VirtualMachine {
    /// Execute the unit from the current machine state, as `spec_run`
    /// describes, leaving the machine at the state the model reaches.
    #[verifier::rlimit(100)]
    #[verifier::spinoff_prover]
    pub fn run(&mut self, chunk: &Chunk) -> (r: InterpretResult)
        requires
            old(self).wf(),
        ensures
            final(self).wf(),
            ({
                let (res, vm) = spec_run(chunk@, old(self).model());
                r == res && final(self).model() == vm
            }),
            final(self).diags_model() == old(self).diags_model(),
    {
        let ghost st0 = self.model();
        loop
            invariant
                self.wf(),
                st0 == old(self).model(),
                spec_run(chunk@, st0) == spec_run(chunk@, self.model()),
                self.diags_model() == old(self).diags_model(),
            decreases chunk@.code.len() - self.model().ip,
        {
            proof {
                reveal_with_fuel(spec_run, 2);
            }
            if self.ip >= chunk.get_code().len() {
                return InterpretResult::INTERPRET_COMPILE_ERROR;
            }
            let instruction = chunk.get_code()[self.ip];
            let decoded = Opcode::from_byte(instruction);
            let op = match decoded {
                None => {
                    return InterpretResult::INTERPRET_COMPILE_ERROR;
                },
                Some(op) => op,
            };
            match op {
                Opcode::OP_RETURN => {
                    return InterpretResult::INTERPRET_OK;
                },
                Opcode::OP_CONSTANT => {
                    if self.ip + 1 >= chunk.get_code().len() {
                        return InterpretResult::INTERPRET_COMPILE_ERROR;
                    }
                    let idx = chunk.get_code()[self.ip + 1] as usize;
                    if idx >= chunk.get_constants().get_values().len() {
                        return InterpretResult::INTERPRET_COMPILE_ERROR;
                    }
                    if self.stack.len() >= STACK_MAX {
                        self.runtime_error("Stack overflow", Vec::new());
                        return InterpretResult::INTERPRET_RUNTIME_ERROR;
                    }
                    let v = chunk.get_constants().get_values()[idx].duplicate();
                    self.push(v);
                    self.ip += 2;
                },
                Opcode::OP_NEGATE => {
                    if self.stack.len() < 1 {
                        return InterpretResult::INTERPRET_COMPILE_ERROR;
                    }
                    let is_num = self.peek(0).get_type_ref() == crate::value::ValueType::VAL_NUMBER;
                    if !is_num {
                        self.runtime_error("Operand must be a number", Vec::new());
                        return InterpretResult::INTERPRET_RUNTIME_ERROR;
                    }
                    let v = self.pop();
                    let n = v.as_number();
                    self.push(Value::number_val(0i64.wrapping_sub(n)));
                    self.ip += 1;
                },
                Opcode::OP_ADD => {
                    if self.stack.len() < 2 {
                        return InterpretResult::INTERPRET_COMPILE_ERROR;
                    }
                    let both_str = self.peek(0).get_type_ref() == crate::value::ValueType::VAL_OBJ
                        && self.peek(1).get_type_ref() == crate::value::ValueType::VAL_OBJ;
                    let both_num = self.peek(0).get_type_ref()
                        == crate::value::ValueType::VAL_NUMBER && self.peek(1).get_type_ref()
                        == crate::value::ValueType::VAL_NUMBER;
                    if both_str {
                        self.concatenate();
                        self.ip += 1;
                    } else if both_num {
                        let b_ = self.pop();
                        let a_ = self.pop();
                        self.push(Value::number_val(a_.as_number().wrapping_add(b_.as_number())));
                        self.ip += 1;
                    } else {
                        self.runtime_error("Operands must be a number", Vec::new());
                        return InterpretResult::INTERPRET_RUNTIME_ERROR;
                    }
                },
                Opcode::OP_SUBTRACT => {
                    if self.stack.len() < 2 {
                        return InterpretResult::INTERPRET_COMPILE_ERROR;
                    }
                    if self.binary_arith(op) {
                        return InterpretResult::INTERPRET_RUNTIME_ERROR;
                    }
                },
                Opcode::OP_MULTIPLY => {
                    if self.stack.len() < 2 {
                        return InterpretResult::INTERPRET_COMPILE_ERROR;
                    }
                    if self.binary_arith(op) {
                        return InterpretResult::INTERPRET_RUNTIME_ERROR;
                    }
                },
                Opcode::OP_DIVIDE => {
                    if self.stack.len() < 2 {
                        return InterpretResult::INTERPRET_COMPILE_ERROR;
                    }
                    if self.binary_arith(op) {
                        return InterpretResult::INTERPRET_RUNTIME_ERROR;
                    }
                },
                Opcode::OP_NIL => {
                    if self.stack.len() >= STACK_MAX {
                        self.runtime_error("Stack overflow", Vec::new());
                        return InterpretResult::INTERPRET_RUNTIME_ERROR;
                    }
                    self.push(Value::nill());
                    self.ip += 1;
                },
                Opcode::OP_TRUE => {
                    if self.stack.len() >= STACK_MAX {
                        self.runtime_error("Stack overflow", Vec::new());
                        return InterpretResult::INTERPRET_RUNTIME_ERROR;
                    }
                    self.push(Value::boolean_val(true));
                    self.ip += 1;
                },
                Opcode::OP_FALSE => {
                    if self.stack.len() >= STACK_MAX {
                        self.runtime_error("Stack overflow", Vec::new());
                        return InterpretResult::INTERPRET_RUNTIME_ERROR;
                    }
                    self.push(Value::boolean_val(false));
                    self.ip += 1;
                },
                Opcode::OP_NOT => {
                    if self.stack.len() < 1 {
                        return InterpretResult::INTERPRET_COMPILE_ERROR;
                    }
                    let v = self.pop();
                    let f = self.is_falsey(&v);
                    self.push(Value::boolean_val(f));
                    self.ip += 1;
                },
                Opcode::OP_EQUAL => {
                    if self.stack.len() < 2 {
                        return InterpretResult::INTERPRET_COMPILE_ERROR;
                    }
                    let b_ = self.pop();
                    let a_ = self.pop();
                    let eq = self.values_equal(&a_, &b_);
                    self.push(Value::boolean_val(eq));
                    self.ip += 1;
                },
                Opcode::OP_GREATER => {
                    if self.stack.len() < 2 {
                        return InterpretResult::INTERPRET_COMPILE_ERROR;
                    }
                    if self.binary_compare(op) {
                        return InterpretResult::INTERPRET_RUNTIME_ERROR;
                    }
                },
                Opcode::OP_LESS => {
                    if self.stack.len() < 2 {
                        return InterpretResult::INTERPRET_COMPILE_ERROR;
                    }
                    if self.binary_compare(op) {
                        return InterpretResult::INTERPRET_RUNTIME_ERROR;
                    }
                },
                Opcode::OP_PRINT => {
                    if self.stack.len() < 1 {
                        return InterpretResult::INTERPRET_COMPILE_ERROR;
                    }
                    let v = self.pop();
                    let text = value_text(&v);
                    let ghost before = self.model().output;
                    self.output.push(text);
                    proof {
                        assert(self.model().output =~= before.push(spec_value_text(v@)));
                    }
                    self.ip += 1;
                },
                Opcode::OP_POP => {
                    if self.stack.len() < 1 {
                        return InterpretResult::INTERPRET_COMPILE_ERROR;
                    }
                    let v = self.pop();
                    self.ip += 1;
                },
                Opcode::OP_DEFINE_GLOBAL => {
                    let name = match self.name_operand(chunk) {
                        None => {
                            return InterpretResult::INTERPRET_COMPILE_ERROR;
                        },
                        Some(name) => name,
                    };
                    if self.stack.len() < 1 {
                        return InterpretResult::INTERPRET_COMPILE_ERROR;
                    }
                    let val = self.peek(0).duplicate();
                    self.set_global(name, val);
                    let popped = self.pop();
                    self.ip += 2;
                },
                Opcode::OP_GET_GLOBAL => {
                    let name = match self.name_operand(chunk) {
                        None => {
                            return InterpretResult::INTERPRET_COMPILE_ERROR;
                        },
                        Some(name) => name,
                    };
                    let got = {
                        match self.get_global(&name) {
                            Some(v) => Some(v.duplicate()),
                            None => None,
                        }
                    };
                    match got {
                        None => {
                            self.runtime_error("Undefined Variable", name);
                            return InterpretResult::INTERPRET_RUNTIME_ERROR;
                        },
                        Some(v) => {
                            if self.stack.len() >= STACK_MAX {
                                self.runtime_error("Stack overflow", Vec::new());
                                return InterpretResult::INTERPRET_RUNTIME_ERROR;
                            }
                            self.push(v);
                            self.ip += 2;
                        },
                    }
                },
                Opcode::OP_SET_GLOBAL => {
                    let name = match self.name_operand(chunk) {
                        None => {
                            return InterpretResult::INTERPRET_COMPILE_ERROR;
                        },
                        Some(name) => name,
                    };
                    if self.stack.len() < 1 {
                        return InterpretResult::INTERPRET_COMPILE_ERROR;
                    }
                    let exists = {
                        match self.get_global(&name) {
                            Some(_) => true,
                            None => false,
                        }
                    };
                    if !exists {
                        self.runtime_error("Undefined Variable", name);
                        return InterpretResult::INTERPRET_RUNTIME_ERROR;
                    }
                    let val = self.peek(0).duplicate();
                    self.set_global(name, val);
                    self.ip += 2;
                },
            }
        }
    }

    /// Read the name operand of the instruction at the current position.
    fn name_operand(&self, chunk: &Chunk) -> (r: Option<Vec<u8>>)
        requires
            self.model().ip < usize::MAX,
        ensures
            match r {
                Some(name) => spec_name_operand(chunk@, self.model().ip) == Some(name@),
                None => spec_name_operand(chunk@, self.model().ip) is None,
            },
    {
        if self.ip + 1 >= chunk.get_code().len() {
            return None;
        }
        let idx = chunk.get_code()[self.ip + 1] as usize;
        if idx >= chunk.get_constants().get_values().len() {
            return None;
        }
        match &chunk.get_constants().get_values()[idx] {
            Value::Obj(o) => Some(clone_bytes(o.as_string().get_string())),
            _ => None,
        }
    }

    /// One numeric arithmetic instruction; returns whether the run must
    /// stop with a runtime error.
    fn binary_arith(&mut self, op: Opcode) -> (stop: bool)
        requires
            old(self).wf(),
            op == Opcode::OP_SUBTRACT || op == Opcode::OP_MULTIPLY || op == Opcode::OP_DIVIDE,
            0 <= old(self).model().ip < usize::MAX,
            old(self).model().stack.len() >= 2,
        ensures
            final(self).wf(),
            final(self).diags_model() == old(self).diags_model(),
            ({
                let st = old(self).model();
                let bb = st.stack.last();
                let aa = st.stack.drop_last().last();
                match (aa, bb) {
                    (ValueModel::Num(x), ValueModel::Num(y)) => {
                        if op == Opcode::OP_DIVIDE && y == 0 {
                            stop && final(self).model() == spec_with_fault(
                                st,
                                "Division by zero"@,
                                Seq::<u8>::empty(),
                            )
                        } else {
                            let r = if op == Opcode::OP_SUBTRACT {
                                vstd::wrapping::i64_specs::wrapping_sub(x, y)
                            } else if op == Opcode::OP_MULTIPLY {
                                vstd::wrapping::i64_specs::wrapping_mul(x, y)
                            } else {
                                spec_div_wrap(x, y)
                            };
                            !stop && final(self).model() == (VmModel {
                                stack: st.stack.drop_last().drop_last().push(ValueModel::Num(r)),
                                ip: st.ip + 1,
                                ..st
                            })
                        }
                    },
                    _ => stop && final(self).model() == spec_with_fault(
                        st,
                        "Operands must be a number"@,
                        Seq::<u8>::empty(),
                    ),
                }
            }),
    {
        let both_num = self.peek(0).get_type_ref() == crate::value::ValueType::VAL_NUMBER
            && self.peek(1).get_type_ref() == crate::value::ValueType::VAL_NUMBER;
        if !both_num {
            self.runtime_error("Operands must be a number", Vec::new());
            return true;
        }
        let b_ = self.pop();
        let a_ = self.pop();
        let x = a_.as_number();
        let y = b_.as_number();
        if op == Opcode::OP_DIVIDE && y == 0 {
            self.push(a_);
            self.push(b_);
            self.runtime_error("Division by zero", Vec::new());
            proof {
                assert(self.model().stack =~= old(self).model().stack);
            }
            return true;
        }
        let r = if op == Opcode::OP_SUBTRACT {
            x.wrapping_sub(y)
        } else if op == Opcode::OP_MULTIPLY {
            x.wrapping_mul(y)
        } else {
            div_wrap(x, y)
        };
        self.push(Value::number_val(r));
        self.ip += 1;
        false
    }

    /// One numeric comparison instruction; returns whether the run must
    /// stop with a runtime error.
    fn binary_compare(&mut self, op: Opcode) -> (stop: bool)
        requires
            old(self).wf(),
            op == Opcode::OP_GREATER || op == Opcode::OP_LESS,
            0 <= old(self).model().ip < usize::MAX,
            old(self).model().stack.len() >= 2,
        ensures
            final(self).wf(),
            final(self).diags_model() == old(self).diags_model(),
            ({
                let st = old(self).model();
                let bb = st.stack.last();
                let aa = st.stack.drop_last().last();
                match (aa, bb) {
                    (ValueModel::Num(x), ValueModel::Num(y)) => {
                        let r = if op == Opcode::OP_GREATER {
                            x > y
                        } else {
                            x < y
                        };
                        !stop && final(self).model() == (VmModel {
                            stack: st.stack.drop_last().drop_last().push(ValueModel::Bool(r)),
                            ip: st.ip + 1,
                            ..st
                        })
                    },
                    _ => stop && final(self).model() == spec_with_fault(
                        st,
                        "Operands must be a number"@,
                        Seq::<u8>::empty(),
                    ),
                }
            }),
    {
        let both_num = self.peek(0).get_type_ref() == crate::value::ValueType::VAL_NUMBER
            && self.peek(1).get_type_ref() == crate::value::ValueType::VAL_NUMBER;
        if !both_num {
            self.runtime_error("Operands must be a number", Vec::new());
            return true;
        }
        let b_ = self.pop();
        let a_ = self.pop();
        let x = a_.as_number();
        let y = b_.as_number();
        let r = if op == Opcode::OP_GREATER {
            x > y
        } else {
            x < y
        };
        self.push(Value::boolean_val(r));
        self.ip += 1;
        false
    }

    /// Compile the source text into the given unit and, on success, run
    /// it.  The unit is overwritten with the fresh compilation; the
    /// diagnostics of the compilation are kept for the caller.
    #[verifier::rlimit(100)]
    #[verifier::spinoff_prover]
    pub fn interpret(&mut self, content: &Vec<u8>, chunk: &mut Chunk) -> (r: InterpretResult)
        requires
            old(self).wf(),
            content@.len() < usize::MAX,
            content@.len() < i64::MAX,
        ensures
            final(self).wf(),
            final(chunk)@ == spec_compile(content@).chunk,
            final(self).diags_model() == spec_compile(content@).diags,
            ({
                let (res, vm) = spec_interpret(content@, old(self).model());
                r == res && final(self).model() == vm
            }),
    {
        let src = clone_bytes(content);
        let sc = Scanner::init_scanner(src);
        let mut compiler = CompilerParser::init_compiler(sc, Chunk::init_chunk());
        let ok = compiler.compile();
        let (out_chunk, diags) = compiler.into_parts();
        *chunk = out_chunk;
        self.diagnostics = diags;
        self.ip = 0;
        if !ok {
            return InterpretResult::INTERPRET_COMPILE_ERROR;
        }
        self.run(chunk)
    }
}

/// Truncated division on the magnitudes, wrapping on the one overflowing
/// case.
fn div_wrap(a: i64, b: i64) -> (r: i64)
    requires
        b != 0,
    ensures
        r == spec_div_wrap(a, b),
{
    let neg = (a < 0) != (b < 0);
    let ma: u64 = if a == i64::MIN {
        9223372036854775808u64
    } else if a < 0 {
        (-a) as u64
    } else {
        a as u64
    };
    let mb: u64 = if b == i64::MIN {
        9223372036854775808u64
    } else if b < 0 {
        (-b) as u64
    } else {
        b as u64
    };
    let q = ma / mb;
    proof {
        assert(ma as int == spec_abs64(a));
        assert(mb as int == spec_abs64(b));
    }
    if q >= 9223372036854775808u64 {
        i64::MIN
    } else if neg {
        if q == 0 {
            0
        } else {
            -(q as i64)
        }
    } else {
        q as i64
    }
}

/// Replacing a name that first occurs at index `i` updates that entry.
proof fn lemma_set_global_update(gs: Seq<(Seq<u8>, ValueModel)>, name: Seq<u8>, v: ValueModel, i: int)
    requires
        0 <= i < gs.len(),
        gs[i].0 == name,
        forall|j: int| 0 <= j < i ==> #[trigger] gs[j].0 != name,
    ensures
        spec_set_global(gs, name, v) == gs.update(i, (name, v)),
    decreases i,
{
    if i == 0 {
        assert(spec_set_global(gs, name, v) =~= gs.update(0, (name, v)));
    } else {
        lemma_set_global_update(gs.drop_first(), name, v, i - 1);
        assert(spec_set_global(gs, name, v) =~= gs.update(i, (name, v)));
    }
}

/// Binding an absent name appends it.
proof fn lemma_set_global_append(gs: Seq<(Seq<u8>, ValueModel)>, name: Seq<u8>, v: ValueModel)
    requires
        forall|j: int| 0 <= j < gs.len() ==> #[trigger] gs[j].0 != name,
    ensures
        spec_set_global(gs, name, v) == gs.push((name, v)),
    decreases gs.len(),
{
    if gs.len() == 0 {
        assert(spec_set_global(gs, name, v) =~= gs.push((name, v)));
    } else {
        lemma_set_global_append(gs.drop_first(), name, v);
        assert(spec_set_global(gs, name, v) =~= gs.push((name, v)));
    }
}

/// A name that first occurs at index `i` looks up to that entry.
proof fn lemma_lookup_at(gs: Seq<(Seq<u8>, ValueModel)>, name: Seq<u8>, i: int)
    requires
        0 <= i < gs.len(),
        gs[i].0 == name,
        forall|j: int| 0 <= j < i ==> #[trigger] gs[j].0 != name,
    ensures
        spec_lookup_global(gs, name) == Some(gs[i].1),
    decreases i,
{
    if i > 0 {
        lemma_lookup_at(gs.drop_first(), name, i - 1);
    }
}

/// A name that occurs nowhere looks up to nothing.
proof fn lemma_lookup_none(gs: Seq<(Seq<u8>, ValueModel)>, name: Seq<u8>)
    requires
        forall|j: int| 0 <= j < gs.len() ==> #[trigger] gs[j].0 != name,
    ensures
        spec_lookup_global(gs, name) is None,
    decreases gs.len(),
{
    if gs.len() > 0 {
        lemma_lookup_none(gs.drop_first(), name);
    }
}

} // verus!
