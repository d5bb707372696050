//! Properties of the machine and the assembler, stated over the same spec
//! functions that the contracts of `step`, `open_source` and `advance` use.
use vstd::prelude::*;
use crate::assembler::{
    define_word, keyword, line_effect, line_label, opcode_of, prescan, same_letter, starts_with,
    include_word, is_word, substitute, LineEffect, Opcode,
};
use crate::machine::{
    cell, grown, label_line, resolve, skip_blank, step_view, stored, ExecutionError, StepView,
};
use crate::program::{ErrorKind, InstructionView, LineView, PtrType, RefPtrType};
use crate::text::words;

verus! {

/// Growing memory keeps every register's contents, and registers that were
/// beyond memory read as 0.
pub proof fn growth_keeps_contents(mem: Seq<u32>, size: int, j: int)
    ensures
        cell(grown(mem, size), j) == cell(mem, j),
        mem.len() < j <= size ==> grown(mem, size)[j - 1] == 0,
{
}

/// Storing `v` to register `i` (for any `i >= 1`) and then loading register
/// `i` gives `v` and grows memory no further; every other register keeps its
/// contents.
pub proof fn store_then_load_direct(mem: Seq<u32>, i: i32, v: u32, j: int)
    requires
        i >= 1,
    ensures
        stored(mem, RefPtrType::Register(i), v) is Ok,
        ({
            let m = stored(mem, RefPtrType::Register(i), v)->Ok_0;
            &&& resolve(m, PtrType::Register(i)) == Ok::<(u32, Seq<u32>), ExecutionError>((v, m))
            &&& j != i ==> cell(m, j) == cell(mem, j)
        }),
{
    let m = stored(mem, RefPtrType::Register(i), v)->Ok_0;
    assert(grown(m, i as int) =~= m);
}

/// Storing `v` through pointer register `i`, whose address `a` is neither 0
/// nor `i` itself, and then loading through `i` gives `v`; register `a` now
/// holds `v`.
pub proof fn store_then_load_indirect(mem: Seq<u32>, i: i32, v: u32)
    requires
        i >= 1,
        cell(mem, i as int) != 0,
        cell(mem, i as int) != i,
    ensures
        stored(mem, RefPtrType::Pointer(i), v) is Ok,
        ({
            let m = stored(mem, RefPtrType::Pointer(i), v)->Ok_0;
            &&& resolve(m, PtrType::Pointer(i)) == Ok::<(u32, Seq<u32>), ExecutionError>((v, m))
            &&& cell(m, cell(mem, i as int) as int) == v
        }),
{
    let a = cell(mem, i as int) as int;
    let m = stored(mem, RefPtrType::Pointer(i), v)->Ok_0;
    assert(cell(m, i as int) == cell(mem, i as int));
    assert(grown(m, i as int) =~= m);
    assert(grown(grown(m, i as int), a) =~= m);
}

/// Register 0, and address 0 reached through a pointer, can be neither
/// read nor written.
pub proof fn register_zero_is_invalid(mem: Seq<u32>, v: u32, i: i32)
    ensures
        resolve(mem, PtrType::Register(0)) == Err::<(u32, Seq<u32>), ExecutionError>(
            ExecutionError::AccessingReg0,
        ),
        resolve(mem, PtrType::Pointer(0)) == Err::<(u32, Seq<u32>), ExecutionError>(
            ExecutionError::AccessingReg0,
        ),
        stored(mem, RefPtrType::Register(0), v) == Err::<Seq<u32>, ExecutionError>(
            ExecutionError::AccessingReg0,
        ),
        stored(mem, RefPtrType::Pointer(0), v) == Err::<Seq<u32>, ExecutionError>(
            ExecutionError::AccessingReg0,
        ),
        cell(mem, i as int) == 0 ==> resolve(mem, PtrType::Pointer(i)) == Err::<
            (u32, Seq<u32>),
            ExecutionError,
        >(ExecutionError::AccessingReg0) && stored(mem, RefPtrType::Pointer(i), v) == Err::<
            Seq<u32>,
            ExecutionError,
        >(ExecutionError::AccessingReg0),
{
}

pub open spec fn zero_operand(op: PtrType) -> bool {
    op == PtrType::Register(0) || op == PtrType::Pointer(0)
}

pub open spec fn zero_destination(d: RefPtrType) -> bool {
    d == RefPtrType::Register(0) || d == RefPtrType::Pointer(0)
}

/// The line that the next step executes holds `instr`.
pub open spec fn executes(lines: Seq<LineView>, pc: int, instr: InstructionView) -> bool {
    let p = skip_blank(lines, pc);
    0 <= p < lines.len() && lines[p].instruction == Some(instr)
}

/// A step whose load, store or arithmetic operand addresses register 0
/// fails with the invalid-register error.
pub proof fn step_on_register_zero_fails(
    mem: Seq<u32>,
    acc: u32,
    pc: int,
    lines: Seq<LineView>,
    op: PtrType,
    d: RefPtrType,
)
    requires
        zero_operand(op) && (executes(lines, pc, InstructionView::Load(op)) || executes(
            lines,
            pc,
            InstructionView::Add(op),
        ) || executes(lines, pc, InstructionView::Sub(op)) || executes(
            lines,
            pc,
            InstructionView::Mul(op),
        ) || executes(lines, pc, InstructionView::Div(op))) || zero_destination(d) && executes(
            lines,
            pc,
            InstructionView::Store(d),
        ),
    ensures
        step_view(mem, acc, pc, lines) == StepView::Failed(ExecutionError::AccessingReg0),
{
}

/// A division by an operand that resolves to 0 fails (and `step` then
/// leaves the accumulator as it was).
pub proof fn divide_by_zero_fails(mem: Seq<u32>, acc: u32, pc: int, lines: Seq<LineView>, op: PtrType)
    requires
        executes(lines, pc, InstructionView::Div(op)),
        resolve(mem, op) is Ok,
        resolve(mem, op)->Ok_0.0 == 0,
    ensures
        step_view(mem, acc, pc, lines) == StepView::Failed(ExecutionError::DivThroughZero),
{
}

/// Subtracting more than the accumulator holds leaves it unchanged.
pub proof fn subtraction_never_goes_negative(
    mem: Seq<u32>,
    acc: u32,
    pc: int,
    lines: Seq<LineView>,
    op: PtrType,
)
    requires
        executes(lines, pc, InstructionView::Sub(op)),
        resolve(mem, op) is Ok,
        resolve(mem, op)->Ok_0.0 > acc,
    ensures
        step_view(mem, acc, pc, lines) matches StepView::Executed { acc: a, .. } && a == acc,
{
}

/// After a terminal step, stepping again from the resulting state gives the
/// same terminal result, and a program without lines always fails with the
/// same error.
pub proof fn ended_stays_ended(mem: Seq<u32>, acc: u32, pc: int, lines: Seq<LineView>)
    requires
        pc >= 0,
    ensures
        step_view(mem, acc, pc, lines) matches StepView::Ended { at, pc: q } ==> step_view(
            mem,
            acc,
            q,
            lines,
        ) == step_view(mem, acc, pc, lines),
        lines.len() == 0 ==> step_view(mem, acc, pc, lines) == StepView::Failed(
            ExecutionError::EndMarkerMissing,
        ),
    decreases lines.len() - pc,
{
    if 0 <= pc < lines.len() && lines[pc].instruction is None {
        ended_stays_ended(mem, acc, pc + 1, lines);
    }
}

pub open spec fn is_jump(o: Option<Opcode>) -> bool {
    o == Some(Opcode::Goto) || o == Some(Opcode::Jzero) || o == Some(Opcode::Jnzero)
}

proof fn keyword_word_is_plain(w: Seq<char>, o: Opcode)
    requires
        is_word(w, keyword(o)),
    ensures
        !starts_with(w, define_word()),
        !starts_with(w, include_word()),
        w.len() > 0,
        w[0] != '#',
        w.last() != ':',
{
    assert(same_letter(w[0], keyword(o)[0]));
    assert(same_letter(w[w.len() - 1], keyword(o)[w.len() - 1]));
    if starts_with(w, define_word()) {
        assert(w.take(7)[0] == w[0]);
    }
    if starts_with(w, include_word()) {
        assert(w.take(8)[0] == w[0]);
    }
}

/// A jump, on line `n` of `file`, to a label that is not known is a label
/// error at that file and line.
pub proof fn undefined_label_is_rejected(
    labels: Seq<Seq<char>>,
    defines: Seq<(Seq<char>, Seq<char>)>,
    file: Seq<char>,
    n: u32,
    text: Seq<char>,
)
    requires
        words(text).len() >= 2,
        is_jump(opcode_of(words(text)[0])),
        !labels.contains(substitute(defines, words(text)[1])),
    ensures
        line_effect(labels, defines, file, n, text) == LineEffect::Fail(ErrorKind::Label),
{
    let w = words(text)[0];
    let o = opcode_of(w)->Some_0;
    keyword_word_is_plain(w, o);
    assert(line_label(text) is None);
}

/// The pre-scan registers the label of every line that declares one.
pub proof fn prescan_registers(ls: Seq<Seq<char>>, j: int)
    requires
        0 <= j < ls.len(),
        line_label(ls[j]) is Some,
    ensures
        prescan(ls).contains(line_label(ls[j])->Some_0),
    decreases ls.len(),
{
    let l = line_label(ls[j])->Some_0;
    if j == ls.len() - 1 {
        assert(prescan(ls)[prescan(ls).len() - 1] == l);
    } else {
        prescan_registers(ls.drop_last(), j);
        let k = choose|k: int| 0 <= k < prescan(ls.drop_last()).len() && prescan(ls.drop_last())[k] == l;
        assert(prescan(ls)[k] == l);
    }
}

/// Once a file is opened (its labels pre-scanned), a jump on any of its
/// lines to a label declared on any line of it, earlier or later, compiles.
pub proof fn forward_reference_is_accepted(
    known: Seq<Seq<char>>,
    defines: Seq<(Seq<char>, Seq<char>)>,
    file: Seq<char>,
    ls: Seq<Seq<char>>,
    j: int,
    k: int,
)
    requires
        0 <= j < ls.len(),
        0 <= k < ls.len(),
        k <= u32::MAX,
        line_label(ls[j]) is Some,
        words(ls[k]).len() >= 2,
        is_jump(opcode_of(words(ls[k])[0])),
        substitute(defines, words(ls[k])[1]) == line_label(ls[j])->Some_0,
    ensures
        line_effect(known + prescan(ls), defines, file, k as u32, ls[k]) is Append,
{
    let w = words(ls[k])[0];
    let o = opcode_of(w)->Some_0;
    keyword_word_is_plain(w, o);
    assert(line_label(ls[k]) is None);
    prescan_registers(ls, j);
    let l = line_label(ls[j])->Some_0;
    let i = choose|i: int| 0 <= i < prescan(ls).len() && prescan(ls)[i] == l;
    assert((known + prescan(ls))[known.len() + i] == l);
}

/// `#define X V` defines `X` as `V`: from then on the operand token `X`
/// stands for `V` until `X` is defined again, and no other token changes.
pub proof fn define_substitutes(
    labels: Seq<Seq<char>>,
    defines: Seq<(Seq<char>, Seq<char>)>,
    file: Seq<char>,
    n: u32,
    text: Seq<char>,
    name: Seq<char>,
    value: Seq<char>,
    other: Seq<char>,
)
    requires
        words(text) == seq![define_word(), name, value],
    ensures
        line_effect(labels, defines, file, n, text) == LineEffect::Define(name, value),
        substitute(defines.push((name, value)), name) == value,
        other != name ==> substitute(defines.push((name, value)), other) == substitute(
            defines,
            other,
        ),
{
    assert(define_word().take(7) =~= define_word());
    assert(defines.push((name, value)).drop_last() =~= defines);
}

/// Passing over the lines without an instruction a second time moves no
/// further.
pub proof fn skip_is_idempotent(lines: Seq<LineView>, pc: int)
    ensures
        skip_blank(lines, skip_blank(lines, pc)) == skip_blank(lines, pc),
    decreases lines.len() - pc,
{
    if 0 <= pc < lines.len() && lines[pc].instruction is None {
        skip_is_idempotent(lines, pc + 1);
    }
}

/// A failed step leaves the counter on the failing instruction, so stepping
/// again fails the same way.
pub proof fn failed_stays_failed(mem: Seq<u32>, acc: u32, pc: int, lines: Seq<LineView>)
    requires
        step_view(mem, acc, pc, lines) is Failed,
    ensures
        step_view(mem, acc, skip_blank(lines, pc), lines) == step_view(mem, acc, pc, lines),
{
    skip_is_idempotent(lines, pc);
}

/// The line at `pc` holds `instr`, so a step from `pc` executes it.
pub open spec fn holds(lines: Seq<LineView>, pc: int, instr: InstructionView) -> bool {
    0 <= pc < lines.len() && lines[pc].instruction == Some(instr)
}

/// Running `store i`, `load #w`, `load i` from accumulator `acc` (for any
/// register `i >= 1`) executes all three, ends with `acc` in the
/// accumulator and in register `i`, and moves the counter by three.
pub proof fn store_then_load_direct_steps(
    mem: Seq<u32>,
    acc: u32,
    pc: int,
    lines: Seq<LineView>,
    i: i32,
    w: i32,
)
    requires
        i >= 1,
        holds(lines, pc, InstructionView::Store(RefPtrType::Register(i))),
        holds(lines, pc + 1, InstructionView::Load(PtrType::Immediate(w))),
        holds(lines, pc + 2, InstructionView::Load(PtrType::Register(i))),
    ensures
        ({
            let m = grown(mem, i as int).update(i - 1, acc);
            &&& step_view(mem, acc, pc, lines) == StepView::Executed {
                at: pc,
                pc: pc + 1,
                acc,
                mem: m,
            }
            &&& step_view(m, acc, pc + 1, lines) == StepView::Executed {
                at: pc + 1,
                pc: pc + 2,
                acc: w as u32,
                mem: m,
            }
            &&& step_view(m, w as u32, pc + 2, lines) == StepView::Executed {
                at: pc + 2,
                pc: pc + 3,
                acc,
                mem: m,
            }
            &&& cell(m, i as int) == acc
        }),
{
    let m = grown(mem, i as int).update(i - 1, acc);
    assert(grown(m, i as int) =~= m);
}

/// Running `store *p`, `load #w`, `load *p`, where register `p` holds an
/// address `a` that is neither 0 nor `p`, executes all three, ends with
/// `acc` in the accumulator and in register `a`, and keeps `a` in `p`.
pub proof fn store_then_load_indirect_steps(
    mem: Seq<u32>,
    acc: u32,
    pc: int,
    lines: Seq<LineView>,
    p: i32,
    w: i32,
)
    requires
        p >= 1,
        cell(mem, p as int) != 0,
        cell(mem, p as int) != p,
        holds(lines, pc, InstructionView::Store(RefPtrType::Pointer(p))),
        holds(lines, pc + 1, InstructionView::Load(PtrType::Immediate(w))),
        holds(lines, pc + 2, InstructionView::Load(PtrType::Pointer(p))),
    ensures
        ({
            let a = cell(mem, p as int) as int;
            let m = grown(grown(mem, p as int), a).update(a - 1, acc);
            &&& step_view(mem, acc, pc, lines) == StepView::Executed {
                at: pc,
                pc: pc + 1,
                acc,
                mem: m,
            }
            &&& step_view(m, acc, pc + 1, lines) == StepView::Executed {
                at: pc + 1,
                pc: pc + 2,
                acc: w as u32,
                mem: m,
            }
            &&& step_view(m, w as u32, pc + 2, lines) == StepView::Executed {
                at: pc + 2,
                pc: pc + 3,
                acc,
                mem: m,
            }
            &&& cell(m, a) == acc
            &&& cell(m, p as int) == a
        }),
{
    store_then_load_indirect(mem, p, acc);
}

/// A program that starts with the label-only line `l`, then `load 1`, then
/// `jzero l`, run while register 1 holds 0: two steps bring the machine
/// back to line 0 with register 1 still 0 and memory no larger, so it
/// repeats these two steps forever.
pub proof fn zero_loop_repeats(mem: Seq<u32>, acc: u32, lines: Seq<LineView>, l: Seq<char>)
    requires
        lines.len() > 2,
        lines[0].instruction is None,
        lines[0].label == Some(l),
        lines[1].instruction == Some(InstructionView::Load(PtrType::Register(1))),
        lines[2].instruction == Some(InstructionView::JumpIfZero(l)),
        cell(mem, 1) == 0,
    ensures
        ({
            let m = grown(mem, 1);
            &&& step_view(mem, acc, 0, lines) == StepView::Executed {
                at: 1,
                pc: 2,
                acc: 0,
                mem: m,
            }
            &&& step_view(m, 0, 2, lines) == StepView::Executed { at: 2, pc: 0, acc: 0, mem: m }
            &&& cell(m, 1) == 0
            &&& grown(m, 1) == m
        }),
{
    assert(skip_blank(lines, 1) == 1);
    assert(skip_blank(lines, 0) == 1);
    assert(label_line(lines, l) == 0);
}

} // verus!
