//! The compiled program: operands, instructions, program lines and compile
//! errors, with their mathematical views, and the operand resolver.
use vstd::prelude::*;
use crate::text::{i32_value, parse_i32};
use vstd::slice::slice_subrange;

verus! {

/// An operand read by `load` and by arithmetic.
#[derive(Debug, Clone, Copy, PartialEq, Eq, Structural)]
pub enum PtrType {
    /// `#v`: the value itself.
    Immediate(i32),
    /// `i`: the contents of register `i`.
    Register(i32),
    /// `*i`: the contents of the register whose address register `i` holds.
    Pointer(i32),
}

/// The destination of `store`; there is no immediate form.
#[derive(Debug, Clone, Copy, PartialEq, Eq, Structural)]
pub enum RefPtrType {
    Register(i32),
    Pointer(i32),
}

/// One compiled instruction; jumps name their target label.
#[derive(Debug, Clone, PartialEq)]
pub enum Instruction {
    Load(PtrType),
    Store(RefPtrType),
    Add(PtrType),
    Sub(PtrType),
    Div(PtrType),
    Mul(PtrType),
    Goto(String),
    JumpIfZero(String),
    JumpIfNotZero(String),
    End(),
}

/// What an instruction is, with labels as character sequences.
pub enum InstructionView {
    Load(PtrType),
    Store(RefPtrType),
    Add(PtrType),
    Sub(PtrType),
    Div(PtrType),
    Mul(PtrType),
    Goto(Seq<char>),
    JumpIfZero(Seq<char>),
    JumpIfNotZero(Seq<char>),
    End,
}

impl View for Instruction {
    type V = InstructionView;

    open spec fn view(&self) -> InstructionView {
        match self {
            Instruction::Load(p) => InstructionView::Load(*p),
            Instruction::Store(p) => InstructionView::Store(*p),
            Instruction::Add(p) => InstructionView::Add(*p),
            Instruction::Sub(p) => InstructionView::Sub(*p),
            Instruction::Div(p) => InstructionView::Div(*p),
            Instruction::Mul(p) => InstructionView::Mul(*p),
            Instruction::Goto(l) => InstructionView::Goto(l@),
            Instruction::JumpIfZero(l) => InstructionView::JumpIfZero(l@),
            Instruction::JumpIfNotZero(l) => InstructionView::JumpIfNotZero(l@),
            Instruction::End() => InstructionView::End,
        }
    }
}

/// One line of the compiled program: a code line, or a line that carries
/// only a label.
#[derive(Debug, Clone, PartialEq)]
pub struct Line {
    pub line: String,
    pub instruction: Option<Instruction>,
    pub line_number: u32,
    pub file_name: String,
    pub label: Option<String>,
}

pub struct LineView {
    pub text: Seq<char>,
    pub instruction: Option<InstructionView>,
    pub line_number: u32,
    pub file: Seq<char>,
    pub label: Option<Seq<char>>,
}

pub open spec fn opt_view(s: Option<String>) -> Option<Seq<char>> {
    match s {
        Some(x) => Some(x@),
        None => None,
    }
}

impl View for Line {
    type V = LineView;

    open spec fn view(&self) -> LineView {
        LineView {
            text: self.line@,
            instruction: match self.instruction {
                Some(i) => Some(i@),
                None => None,
            },
            line_number: self.line_number,
            file: self.file_name@,
            label: opt_view(self.label),
        }
    }
}

/// A compile error, tagged with the file and the 0-based line where it arose.
#[derive(Debug, Clone, PartialEq)]
pub enum CompileError {
    InvalidInstruction { file: String, line: u32 },
    ParamError { file: String, line: u32 },
    LabelError { file: String, line: u32 },
}

#[derive(PartialEq, Eq, Structural)]
pub enum ErrorKind {
    InvalidInstruction,
    Param,
    Label,
}

pub struct CompileErrorView {
    pub kind: ErrorKind,
    pub file: Seq<char>,
    pub line: u32,
}

impl View for CompileError {
    type V = CompileErrorView;

    open spec fn view(&self) -> CompileErrorView {
        match self {
            CompileError::InvalidInstruction { file, line } => CompileErrorView {
                kind: ErrorKind::InvalidInstruction,
                file: file@,
                line: *line,
            },
            CompileError::ParamError { file, line } => CompileErrorView {
                kind: ErrorKind::Param,
                file: file@,
                line: *line,
            },
            CompileError::LabelError { file, line } => CompileErrorView {
                kind: ErrorKind::Label,
                file: file@,
                line: *line,
            },
        }
    }
}

/// Builds the error of the given kind at `file`, line `line`.
pub fn fault_at(kind: ErrorKind, file: &String, line: u32) -> (e: CompileError)
    ensures
        e@ == (CompileErrorView { kind, file: file@, line }),
{
    match kind {
        ErrorKind::InvalidInstruction => CompileError::InvalidInstruction { file: file.clone(), line },
        ErrorKind::Param => CompileError::ParamError { file: file.clone(), line },
        ErrorKind::Label => CompileError::LabelError { file: file.clone(), line },
    }
}

/// The read operand that the token `a` writes: `*i`, `#v` or `i`.
pub open spec fn operand_of(a: Seq<char>) -> Option<PtrType> {
    if a.len() > 0 && a[0] == '*' {
        match i32_value(a.drop_first()) {
            Some(i) => Some(PtrType::Pointer(i)),
            None => None,
        }
    } else if a.len() > 0 && a[0] == '#' {
        match i32_value(a.drop_first()) {
            Some(i) => Some(PtrType::Immediate(i)),
            None => None,
        }
    } else {
        match i32_value(a) {
            Some(i) => Some(PtrType::Register(i)),
            None => None,
        }
    }
}

/// The store destination that the token `a` writes: `*i` or `i`.
pub open spec fn store_operand_of(a: Seq<char>) -> Option<RefPtrType> {
    if a.len() > 0 && a[0] == '*' {
        match i32_value(a.drop_first()) {
            Some(i) => Some(RefPtrType::Pointer(i)),
            None => None,
        }
    } else {
        match i32_value(a) {
            Some(i) => Some(RefPtrType::Register(i)),
            None => None,
        }
    }
}

/// Reads a read operand; a malformed one is a parameter error at
/// `file_name`, line `line_nr`.
pub fn compute_ptr_type(arg: &Vec<char>, line_nr: u32, file_name: &String) -> (r: Result<
    PtrType,
    CompileError,
>)
    ensures
        match operand_of(arg@) {
            Some(p) => r == Ok::<PtrType, CompileError>(p),
            None => r is Err && r->Err_0@ == (CompileErrorView {
                kind: ErrorKind::Param,
                file: file_name@,
                line: line_nr,
            }),
        },
{
    let n = arg.len();
    if n > 0 && (arg[0] == '*' || arg[0] == '#') {
        let rest = slice_subrange(arg.as_slice(), 1, n);
        assert(rest@ =~= arg@.drop_first());
        match parse_i32(rest) {
            Some(i) => if arg[0] == '*' {
                Ok(PtrType::Pointer(i))
            } else {
                Ok(PtrType::Immediate(i))
            },
            None => Err(fault_at(ErrorKind::Param, file_name, line_nr)),
        }
    } else {
        match parse_i32(arg.as_slice()) {
            Some(i) => Ok(PtrType::Register(i)),
            None => Err(fault_at(ErrorKind::Param, file_name, line_nr)),
        }
    }
}

/// Reads a store destination; a malformed one is a parameter error.
pub fn compute_store_type(arg: &Vec<char>, line_nr: u32, file_name: &String) -> (r: Result<
    RefPtrType,
    CompileError,
>)
    ensures
        match store_operand_of(arg@) {
            Some(p) => r == Ok::<RefPtrType, CompileError>(p),
            None => r is Err && r->Err_0@ == (CompileErrorView {
                kind: ErrorKind::Param,
                file: file_name@,
                line: line_nr,
            }),
        },
{
    let n = arg.len();
    if n > 0 && arg[0] == '*' {
        let rest = slice_subrange(arg.as_slice(), 1, n);
        assert(rest@ =~= arg@.drop_first());
        match parse_i32(rest) {
            Some(i) => Ok(RefPtrType::Pointer(i)),
            None => Err(fault_at(ErrorKind::Param, file_name, line_nr)),
        }
    } else {
        match parse_i32(arg.as_slice()) {
            Some(i) => Ok(RefPtrType::Register(i)),
            None => Err(fault_at(ErrorKind::Param, file_name, line_nr)),
        }
    }
}

} // verus!
