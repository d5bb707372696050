//! The machine state and the single-step interpreter.
use vstd::prelude::*;
use crate::text::{chars_of, parse_u32, u32_value};
use crate::program::{opt_view, Instruction, InstructionView, Line, LineView, PtrType, RefPtrType};

verus! {

/// Where a reported event happened.
#[derive(Debug, Clone, PartialEq)]
pub struct Diagnostics {
    pub line: u32,
    pub file: String,
}

/// Why a step failed.
#[derive(Debug, Clone, Copy, PartialEq, Eq, Structural)]
pub enum ExecutionError {
    /// The program has no line at all to report on.
    EndMarkerMissing,
    /// Reserved for opcodes without an implementation.
    NotImplemented,
    DivThroughZero,
    /// A register or address below 1 was addressed.
    AccessingReg0,
}

/// What a step reports: the line handled, a copy of memory and the
/// accumulator, and whether the program has ended.
#[derive(Debug, Clone, PartialEq)]
pub enum ExecutionResult {
    End { line: Diagnostics, register: Vec<u32>, accumulator: u32 },
    Executed { line: Diagnostics, register: Vec<u32>, accumulator: u32 },
}

pub struct SnapshotView {
    pub ended: bool,
    pub line: u32,
    pub file: Seq<char>,
    pub register: Seq<u32>,
    pub accumulator: u32,
}

impl View for ExecutionResult {
    type V = SnapshotView;

    open spec fn view(&self) -> SnapshotView {
        match self {
            ExecutionResult::End { line, register, accumulator } => SnapshotView {
                ended: true,
                line: line.line,
                file: line.file@,
                register: register@,
                accumulator: *accumulator,
            },
            ExecutionResult::Executed { line, register, accumulator } => SnapshotView {
                ended: false,
                line: line.line,
                file: line.file@,
                register: register@,
                accumulator: *accumulator,
            },
        }
    }
}

/// The machine: memory (register `i` is `memory[i - 1]`), the accumulator,
/// the program with its labels and macros, and the program counter.
#[derive(Debug, Clone, PartialEq)]
pub struct VirtualMachine {
    pub memory: Vec<u32>,
    pub accumulator: u32,
    pub lines: Vec<Line>,
    pub line_ptr: u32,
    /// Macro definitions in the order they were read; the latest one of a
    /// name is the one in force.
    pub defines: Vec<(String, String)>,
    pub labels: Vec<String>,
}

pub open spec fn lines_view(lines: Seq<Line>) -> Seq<LineView> {
    lines.map_values(|l: Line| l@)
}

/// The contents of register `i`; a register beyond memory reads as 0.
pub open spec fn cell(mem: Seq<u32>, i: int) -> u32 {
    if 1 <= i <= mem.len() {
        mem[i - 1]
    } else {
        0
    }
}

/// Memory grown with zeros to hold at least `size` registers.
pub open spec fn grown(mem: Seq<u32>, size: int) -> Seq<u32> {
    if size <= mem.len() {
        mem
    } else {
        mem + Seq::new((size - mem.len()) as nat, |k: int| 0u32)
    }
}

/// The value of a read operand and the memory after reading it.
pub open spec fn resolve(mem: Seq<u32>, op: PtrType) -> Result<(u32, Seq<u32>), ExecutionError> {
    match op {
        PtrType::Immediate(v) => Ok((v as u32, mem)),
        PtrType::Register(i) => if i < 1 {
            Err(ExecutionError::AccessingReg0)
        } else {
            Ok((cell(mem, i as int), grown(mem, i as int)))
        },
        PtrType::Pointer(i) => if i < 1 || cell(mem, i as int) == 0 {
            Err(ExecutionError::AccessingReg0)
        } else {
            let a = cell(mem, i as int) as int;
            Ok((cell(mem, a), grown(grown(mem, i as int), a)))
        },
    }
}

/// The memory after writing `v` to a store destination.
pub open spec fn stored(mem: Seq<u32>, dst: RefPtrType, v: u32) -> Result<Seq<u32>, ExecutionError> {
    match dst {
        RefPtrType::Register(i) => if i < 1 {
            Err(ExecutionError::AccessingReg0)
        } else {
            Ok(grown(mem, i as int).update(i - 1, v))
        },
        RefPtrType::Pointer(i) => if i < 1 || cell(mem, i as int) == 0 {
            Err(ExecutionError::AccessingReg0)
        } else {
            let a = cell(mem, i as int) as int;
            Ok(grown(grown(mem, i as int), a).update(a - 1, v))
        },
    }
}

/// The first line at or after `pc` that holds an instruction, or a position
/// at or past the end.
pub open spec fn skip_blank(lines: Seq<LineView>, pc: int) -> int
    decreases lines.len() - pc,
{
    if 0 <= pc < lines.len() && lines[pc].instruction is None {
        skip_blank(lines, pc + 1)
    } else {
        pc
    }
}

/// The first line at or after `i` that carries `label`, or the line count.
pub open spec fn label_from(lines: Seq<LineView>, label: Seq<char>, i: int) -> int
    decreases lines.len() - i,
{
    if i < 0 || i >= lines.len() {
        lines.len() as int
    } else if lines[i].label == Some(label) {
        i
    } else {
        label_from(lines, label, i + 1)
    }
}

pub open spec fn label_line(lines: Seq<LineView>, label: Seq<char>) -> int {
    label_from(lines, label, 0)
}

pub open spec fn wrap(x: int) -> u32 {
    (x % 0x1_0000_0000) as u32
}

/// What one step does.
pub enum StepView {
    /// The program ended; `at` is the line to report.
    Ended { at: int, pc: int },
    /// The instruction on line `at` ran.
    Executed { at: int, pc: int, acc: u32, mem: Seq<u32> },
    /// The step failed; memory and the accumulator stay as they were.
    Failed(ExecutionError),
}

pub open spec fn arith(
    mem: Seq<u32>,
    acc: u32,
    at: int,
    op: PtrType,
    f: spec_fn(u32, u32) -> u32,
) -> StepView {
    match resolve(mem, op) {
        Ok((v, m)) => StepView::Executed { at, pc: at + 1, acc: f(acc, v), mem: m },
        Err(e) => StepView::Failed(e),
    }
}

pub open spec fn step_view(mem: Seq<u32>, acc: u32, pc: int, lines: Seq<LineView>) -> StepView {
    let p = skip_blank(lines, pc);
    if p >= lines.len() {
        if lines.len() == 0 {
            StepView::Failed(ExecutionError::EndMarkerMissing)
        } else {
            StepView::Ended { at: lines.len() - 1, pc: p }
        }
    } else {
        match lines[p].instruction->Some_0 {
            InstructionView::Load(op) => arith(mem, acc, p, op, |a: u32, v: u32| v),
            InstructionView::Add(op) => arith(mem, acc, p, op, |a: u32, v: u32| wrap(a + v)),
            InstructionView::Sub(op) => arith(
                mem,
                acc,
                p,
                op,
                |a: u32, v: u32|
                    if v <= a {
                        (a - v) as u32
                    } else {
                        a
                    },
            ),
            InstructionView::Mul(op) => arith(mem, acc, p, op, |a: u32, v: u32| wrap(a * v)),
            InstructionView::Div(op) => match resolve(mem, op) {
                Ok((v, m)) => if v == 0 {
                    StepView::Failed(ExecutionError::DivThroughZero)
                } else {
                    StepView::Executed { at: p, pc: p + 1, acc: (acc / v) as u32, mem: m }
                },
                Err(e) => StepView::Failed(e),
            },
            InstructionView::Store(dst) => match stored(mem, dst, acc) {
                Ok(m) => StepView::Executed { at: p, pc: p + 1, acc, mem: m },
                Err(e) => StepView::Failed(e),
            },
            InstructionView::Goto(l) => StepView::Executed {
                at: p,
                pc: label_line(lines, l),
                acc,
                mem,
            },
            InstructionView::JumpIfZero(l) => StepView::Executed {
                at: p,
                pc: if acc == 0 {
                    label_line(lines, l)
                } else {
                    p + 1
                },
                acc,
                mem,
            },
            InstructionView::JumpIfNotZero(l) => StepView::Executed {
                at: p,
                pc: if acc != 0 {
                    label_line(lines, l)
                } else {
                    p + 1
                },
                acc,
                mem,
            },
            InstructionView::End => StepView::Ended { at: p, pc: p },
        }
    }
}

impl VirtualMachine {
    pub open spec fn program(&self) -> Seq<LineView> {
        lines_view(self.lines@)
    }

    /// The view of one step from this state.
    pub open spec fn next(&self) -> StepView {
        step_view(self.memory@, self.accumulator, self.line_ptr as int, self.program())
    }

    pub open spec fn is_reset(&self) -> bool {
        &&& self.memory@.len() == 0
        &&& self.accumulator == 0
        &&& self.lines@.len() == 0
        &&& self.line_ptr == 0
        &&& self.defines@.len() == 0
        &&& self.labels@.len() == 0
    }

    /// A machine with empty memory, program, labels and macros.
    pub fn new() -> (r: VirtualMachine)
        ensures
            r.is_reset(),
    {
        VirtualMachine {
            memory: Vec::new(),
            accumulator: 0,
            lines: Vec::new(),
            line_ptr: 0,
            defines: Vec::new(),
            labels: Vec::new(),
        }
    }

    /// Resets the machine to the state `new` gives.
    pub fn reuse(&mut self)
        ensures
            final(self).is_reset(),
    {
        self.memory = Vec::new();
        self.accumulator = 0;
        self.lines = Vec::new();
        self.line_ptr = 0;
        self.defines = Vec::new();
        self.labels = Vec::new();
    }

    /// Grows memory with zeros to hold at least `size` registers.
    fn resize_memory(&mut self, size: usize)
        ensures
            final(self).memory@ == grown(old(self).memory@, size as int),
            final(self).accumulator == old(self).accumulator,
            final(self).lines == old(self).lines,
            final(self).line_ptr == old(self).line_ptr,
            final(self).defines == old(self).defines,
            final(self).labels == old(self).labels,
    {
        let ghost m0 = self.memory@;
        while self.memory.len() < size
            invariant
                m0.len() <= self.memory@.len(),
                self.memory@.len() <= size || self.memory@.len() == m0.len(),
                self.memory@ =~= m0 + Seq::new((self.memory@.len() - m0.len()) as nat, |k: int| 0u32),
                self.accumulator == old(self).accumulator,
                self.lines == old(self).lines,
                self.line_ptr == old(self).line_ptr,
                self.defines == old(self).defines,
                self.labels == old(self).labels,
            decreases size - self.memory@.len(),
        {
            self.memory.push(0);
        }
        assert(self.memory@ =~= grown(m0, size as int));
    }

    /// The contents of register `i` without growing memory.
    fn read_cell(&self, i: usize) -> (r: u32)
        ensures
            r == cell(self.memory@, i as int),
    {
        if 1 <= i && i <= self.memory.len() {
            self.memory[i - 1]
        } else {
            0
        }
    }

    /// Reads an operand, growing memory to cover what it addresses.
    fn resolve_ptr(&mut self, ptr: PtrType) -> (r: Result<u32, ExecutionError>)
        ensures
            match resolve(old(self).memory@, ptr) {
                Ok((v, m)) => r == Ok::<u32, ExecutionError>(v) && final(self).memory@ == m,
                Err(e) => r == Err::<u32, ExecutionError>(e) && final(self).memory@ == old(
                    self,
                ).memory@,
            },
            final(self).accumulator == old(self).accumulator,
            final(self).lines == old(self).lines,
            final(self).line_ptr == old(self).line_ptr,
            final(self).defines == old(self).defines,
            final(self).labels == old(self).labels,
    {
        match ptr {
            PtrType::Immediate(v) => Ok(v as u32),
            PtrType::Register(i) => {
                if i < 1 {
                    return Err(ExecutionError::AccessingReg0);
                }
                let v = self.read_cell(i as usize);
                self.resize_memory(i as usize);
                Ok(v)
            },
            PtrType::Pointer(i) => {
                if i < 1 {
                    return Err(ExecutionError::AccessingReg0);
                }
                let a = self.read_cell(i as usize);
                if a == 0 {
                    return Err(ExecutionError::AccessingReg0);
                }
                self.resize_memory(i as usize);
                let v = self.read_cell(a as usize);
                self.resize_memory(a as usize);
                Ok(v)
            },
        }
    }

    /// Writes the accumulator to a store destination, growing memory to
    /// cover what it addresses.
    fn store_accumulator(&mut self, dst: RefPtrType) -> (r: Result<(), ExecutionError>)
        ensures
            match stored(old(self).memory@, dst, old(self).accumulator) {
                Ok(m) => r is Ok && final(self).memory@ == m,
                Err(e) => r == Err::<(), ExecutionError>(e) && final(self).memory@ == old(
                    self,
                ).memory@,
            },
            final(self).accumulator == old(self).accumulator,
            final(self).lines == old(self).lines,
            final(self).line_ptr == old(self).line_ptr,
            final(self).defines == old(self).defines,
            final(self).labels == old(self).labels,
    {
        let target: usize = match dst {
            RefPtrType::Register(i) => {
                if i < 1 {
                    return Err(ExecutionError::AccessingReg0);
                }
                i as usize
            },
            RefPtrType::Pointer(i) => {
                if i < 1 {
                    return Err(ExecutionError::AccessingReg0);
                }
                let a = self.read_cell(i as usize);
                if a == 0 {
                    return Err(ExecutionError::AccessingReg0);
                }
                self.resize_memory(i as usize);
                a as usize
            },
        };
        self.resize_memory(target);
        let v = self.accumulator;
        self.memory.set(target - 1, v);
        Ok(())
    }

    /// The first line carrying `label`, or the line count if none does.
    fn resolve_label(&self, label: &String) -> (r: u32)
        requires
            self.lines@.len() < u32::MAX,
        ensures
            r as int == label_line(self.program(), label@),
    {
        let mut i: usize = 0;
        while i < self.lines.len()
            invariant
                i <= self.lines@.len() < u32::MAX,
                label_from(self.program(), label@, 0) == label_from(self.program(), label@, i as int),
            decreases self.lines@.len() - i,
        {
            assert(self.program()[i as int].label == opt_view(self.lines@[i as int].label));
            let found = match &self.lines[i].label {
                Some(l) => l.eq(label),
                None => false,
            };
            assert(found <==> self.program()[i as int].label == Some(label@));
            if found {
                return i as u32;
            }
            i = i + 1;
        }
        i as u32
    }
    /// Copies memory and the accumulator into a result for line `line` of
    /// `file`.
    fn snapshot(&self, ended: bool, line: u32, file: String) -> (r: ExecutionResult)
        ensures
            r@ == (SnapshotView {
                ended,
                line,
                file: file@,
                register: self.memory@,
                accumulator: self.accumulator,
            }),
    {
        let register = self.memory.clone();
        assert(register@ =~= self.memory@);
        let line = Diagnostics { line, file };
        if ended {
            ExecutionResult::End { line, register, accumulator: self.accumulator }
        } else {
            ExecutionResult::Executed { line, register, accumulator: self.accumulator }
        }
    }

    /// Executes one instruction. Lines without an instruction are passed
    /// over first. At or past the end of the program, and on `end`, the
    /// result is terminal and the counter stays where it is, so further
    /// calls return the same result. A failing step keeps memory and the
    /// accumulator as they were; the counter still moves past the lines
    /// without an instruction and stays on the failing one.
    pub fn step(&mut self) -> (r: Result<ExecutionResult, ExecutionError>)
        requires
            old(self).lines@.len() < u32::MAX,
        ensures
            final(self).lines == old(self).lines,
            final(self).defines == old(self).defines,
            final(self).labels == old(self).labels,
            match old(self).next() {
                StepView::Failed(e) => {
                    &&& r == Err::<ExecutionResult, ExecutionError>(e)
                    &&& final(self).memory@ == old(self).memory@
                    &&& final(self).accumulator == old(self).accumulator
                    &&& final(self).line_ptr as int == skip_blank(
                        old(self).program(),
                        old(self).line_ptr as int,
                    )
                },
                StepView::Executed { at, pc, acc, mem } => {
                    &&& r is Ok
                    &&& r->Ok_0@ == (SnapshotView {
                        ended: false,
                        line: old(self).program()[at].line_number,
                        file: old(self).program()[at].file,
                        register: mem,
                        accumulator: acc,
                    })
                    &&& final(self).memory@ == mem
                    &&& final(self).accumulator == acc
                    &&& final(self).line_ptr as int == pc
                },
                StepView::Ended { at, pc } => {
                    &&& r is Ok
                    &&& r->Ok_0@ == (SnapshotView {
                        ended: true,
                        line: old(self).program()[at].line_number,
                        file: old(self).program()[at].file,
                        register: old(self).memory@,
                        accumulator: old(self).accumulator,
                    })
                    &&& final(self).memory@ == old(self).memory@
                    &&& final(self).accumulator == old(self).accumulator
                    &&& final(self).line_ptr as int == pc
                },
            },
    {
        let n = self.lines.len();
        let mut p: usize = self.line_ptr as usize;
        while p < n && self.lines[p].instruction.is_none()
            invariant
                n == self.lines@.len() < u32::MAX,
                self.line_ptr <= p,
                p <= n || p == self.line_ptr,
                skip_blank(self.program(), self.line_ptr as int) == skip_blank(
                    self.program(),
                    p as int,
                ),
            decreases n - p,
        {
            assert(self.program()[p as int].instruction is None);
            p = p + 1;
        }
        if p >= n {
            if n == 0 {
                return Err(ExecutionError::EndMarkerMissing);
            }
            self.line_ptr = p as u32;
            let line = self.lines[n - 1].line_number;
            let file = self.lines[n - 1].file_name.clone();
            return Ok(self.snapshot(true, line, file));
        }
        self.line_ptr = p as u32;
        assert(self.program()[p as int] == self.lines@[p as int]@);
        let line = self.lines[p].line_number;
        let file = self.lines[p].file_name.clone();
        let next = (p + 1) as u32;
        let len0 = self.memory.len();
        match &self.lines[p].instruction {
            Some(Instruction::Load(op)) => {
                let op = *op;
                match self.resolve_ptr(op) {
                    Ok(v) => self.accumulator = v,
                    Err(e) => return Err(e),
                }
                self.line_ptr = next;
            },
            Some(Instruction::Add(op)) => {
                let op = *op;
                match self.resolve_ptr(op) {
                    Ok(v) => self.accumulator = ((self.accumulator as u64 + v as u64)
                        % 0x1_0000_0000) as u32,
                    Err(e) => return Err(e),
                }
                self.line_ptr = next;
            },
            Some(Instruction::Sub(op)) => {
                let op = *op;
                match self.resolve_ptr(op) {
                    Ok(v) => if v <= self.accumulator {
                        self.accumulator = self.accumulator - v;
                    },
                    Err(e) => return Err(e),
                }
                self.line_ptr = next;
            },
            Some(Instruction::Mul(op)) => {
                let op = *op;
                match self.resolve_ptr(op) {
                    Ok(v) => {
                        let a = self.accumulator as u64;
                        let b = v as u64;
                        assert(a * b <= 0xffff_ffff * 0xffff_ffff) by (nonlinear_arith)
                            requires
                                a <= 0xffff_ffff,
                                b <= 0xffff_ffff,
                        ;
                        self.accumulator = ((a * b) % 0x1_0000_0000) as u32;
                    },
                    Err(e) => return Err(e),
                }
                self.line_ptr = next;
            },
            Some(Instruction::Div(op)) => {
                let op = *op;
                let ghost m0 = self.memory@;
                match self.resolve_ptr(op) {
                    Ok(v) => {
                        if v == 0 {
                            self.memory.truncate(len0);
                            assert(self.memory@ =~= m0);
                            return Err(ExecutionError::DivThroughZero);
                        }
                        self.accumulator = self.accumulator / v;
                    },
                    Err(e) => return Err(e),
                }
                self.line_ptr = next;
            },
            Some(Instruction::Store(dst)) => {
                let dst = *dst;
                match self.store_accumulator(dst) {
                    Ok(()) => {},
                    Err(e) => return Err(e),
                }
                self.line_ptr = next;
            },
            Some(Instruction::Goto(l)) => {
                let target = self.resolve_label(l);
                self.line_ptr = target;
            },
            Some(Instruction::JumpIfZero(l)) => {
                if self.accumulator == 0 {
                    let target = self.resolve_label(l);
                    self.line_ptr = target;
                } else {
                    self.line_ptr = next;
                }
            },
            Some(Instruction::JumpIfNotZero(l)) => {
                if self.accumulator != 0 {
                    let target = self.resolve_label(l);
                    self.line_ptr = target;
                } else {
                    self.line_ptr = next;
                }
            },
            Some(Instruction::End()) => {
                self.line_ptr = p as u32;
                return Ok(self.snapshot(true, line, file));
            },
            None => {
                return Err(ExecutionError::EndMarkerMissing);
            },
        }
        Ok(self.snapshot(false, line, file))
    }
    /// Replaces memory with the values that `numbers` write in decimal, and
    /// returns `true`; if one of them is not a decimal `u32`, changes nothing
    /// and returns `false`.
    pub fn upload(&mut self, numbers: &Vec<String>) -> (r: bool)
        ensures
            r <==> forall|i: int| 0 <= i < numbers@.len() ==> (#[trigger] u32_value(numbers@[i]@)) is Some,
            r ==> final(self).memory@.len() == numbers@.len() && forall|i: int|
                0 <= i < numbers@.len() ==> Some(#[trigger] final(self).memory@[i]) == u32_value(
                    numbers@[i]@,
                ),
            !r ==> final(self).memory == old(self).memory,
            final(self).accumulator == old(self).accumulator,
            final(self).lines == old(self).lines,
            final(self).line_ptr == old(self).line_ptr,
            final(self).defines == old(self).defines,
            final(self).labels == old(self).labels,
    {
        let mut values: Vec<u32> = Vec::new();
        let mut i: usize = 0;
        while i < numbers.len()
            invariant
                i <= numbers@.len(),
                values@.len() == i,
                forall|j: int| 0 <= j < i ==> Some(#[trigger] values@[j]) == u32_value(numbers@[j]@),
            decreases numbers@.len() - i,
        {
            let cs = chars_of(numbers[i].as_str());
            match parse_u32(cs.as_slice()) {
                Some(v) => values.push(v),
                None => {
                    assert(u32_value(numbers@[i as int]@) is None);
                    return false;
                },
            }
            i = i + 1;
        }
        assert forall|j: int| 0 <= j < numbers@.len() implies (#[trigger] u32_value(
            numbers@[j]@,
        )) is Some by {
            assert(Some(values@[j]) == u32_value(numbers@[j]@));
        }
        self.memory = values;
        true
    }
}

} // verus!
