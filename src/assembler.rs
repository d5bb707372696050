//! The assembler: label pre-scan, macro definitions, file inclusion,
//! comments and instruction assembly, one source line at a time.
//!
//! Reading files is left to the caller. A [`Compilation`] holds the files
//! being read, innermost last; [`VirtualMachine::open_source`] starts a file
//! and [`VirtualMachine::advance`] handles its next line, reporting each
//! `#include` so that the caller can read that file and open it in turn.
use vstd::prelude::*;
use vstd::slice::slice_subrange;
use crate::machine::VirtualMachine;
use crate::program::{
    compute_ptr_type, compute_store_type, fault_at, operand_of, store_operand_of, CompileError,
    CompileErrorView, ErrorKind, Instruction, InstructionView, Line, LineView,
};
use crate::text::{chars_of, lines, split_lines, split_words, views, words};

verus! {

broadcast use vstd::string::group_string_axioms;

/// Relies on `String::from_iter` over `char`s: the string holds exactly the
/// given characters, in order.
#[verifier::external_body]
fn text_of(chars: &[char]) -> (r: String)
    ensures
        r@ == chars@,
{
    String::from_iter(chars.iter())
}

/// `c` is the keyword letter `k`, or its upper-case form.
pub open spec fn same_letter(c: char, k: char) -> bool {
    c == k || (0x61 <= (k as u32) <= 0x7a && (c as u32) + 0x20 == (k as u32))
}

/// `w` is the lower-case keyword `kw`, ignoring ASCII case.
pub open spec fn is_word(w: Seq<char>, kw: Seq<char>) -> bool {
    w.len() == kw.len() && forall|i: int| 0 <= i < w.len() ==> same_letter(#[trigger] w[i], kw[i])
}

fn is_word_exec(w: &Vec<char>, kw: &Vec<char>) -> (r: bool)
    ensures
        r == is_word(w@, kw@),
{
    if w.len() != kw.len() {
        return false;
    }
    let mut i: usize = 0;
    while i < w.len()
        invariant
            w@.len() == kw@.len(),
            i <= w@.len(),
            forall|j: int| 0 <= j < i ==> same_letter(#[trigger] w@[j], kw@[j]),
        decreases w@.len() - i,
    {
        let c = w[i];
        let k = kw[i];
        if !(c == k || (0x61 <= (k as u32) && (k as u32) <= 0x7a && (c as u32) == (k as u32) - 0x20)) {
            assert(!same_letter(w@[i as int], kw@[i as int]));
            return false;
        }
        i = i + 1;
    }
    true
}

#[derive(Clone, Copy, PartialEq, Eq, Structural)]
pub enum Opcode {
    Load,
    Store,
    Add,
    Sub,
    Mul,
    Div,
    Goto,
    Jzero,
    Jnzero,
    End,
}

pub open spec fn keyword(o: Opcode) -> Seq<char> {
    match o {
        Opcode::Load => seq!['l', 'o', 'a', 'd'],
        Opcode::Store => seq!['s', 't', 'o', 'r', 'e'],
        Opcode::Add => seq!['a', 'd', 'd'],
        Opcode::Sub => seq!['s', 'u', 'b'],
        Opcode::Mul => seq!['m', 'u', 'l'],
        Opcode::Div => seq!['d', 'i', 'v'],
        Opcode::Goto => seq!['g', 'o', 't', 'o'],
        Opcode::Jzero => seq!['j', 'z', 'e', 'r', 'o'],
        Opcode::Jnzero => seq!['j', 'n', 'z', 'e', 'r', 'o'],
        Opcode::End => seq!['e', 'n', 'd'],
    }
}

/// The opcode that the word `w` names, in any ASCII case.
pub open spec fn opcode_of(w: Seq<char>) -> Option<Opcode> {
    if is_word(w, keyword(Opcode::Load)) {
        Some(Opcode::Load)
    } else if is_word(w, keyword(Opcode::Store)) {
        Some(Opcode::Store)
    } else if is_word(w, keyword(Opcode::Add)) {
        Some(Opcode::Add)
    } else if is_word(w, keyword(Opcode::Sub)) {
        Some(Opcode::Sub)
    } else if is_word(w, keyword(Opcode::Mul)) {
        Some(Opcode::Mul)
    } else if is_word(w, keyword(Opcode::Div)) {
        Some(Opcode::Div)
    } else if is_word(w, keyword(Opcode::Goto)) {
        Some(Opcode::Goto)
    } else if is_word(w, keyword(Opcode::Jzero)) {
        Some(Opcode::Jzero)
    } else if is_word(w, keyword(Opcode::Jnzero)) {
        Some(Opcode::Jnzero)
    } else if is_word(w, keyword(Opcode::End)) {
        Some(Opcode::End)
    } else {
        None
    }
}

fn opcode(w: &Vec<char>) -> (r: Option<Opcode>)
    ensures
        r == opcode_of(w@),
{
    let kw = vec!['l', 'o', 'a', 'd'];
    assert(kw@ =~= keyword(Opcode::Load));
    if is_word_exec(w, &kw) {
        return Some(Opcode::Load);
    }
    let kw = vec!['s', 't', 'o', 'r', 'e'];
    assert(kw@ =~= keyword(Opcode::Store));
    if is_word_exec(w, &kw) {
        return Some(Opcode::Store);
    }
    let kw = vec!['a', 'd', 'd'];
    assert(kw@ =~= keyword(Opcode::Add));
    if is_word_exec(w, &kw) {
        return Some(Opcode::Add);
    }
    let kw = vec!['s', 'u', 'b'];
    assert(kw@ =~= keyword(Opcode::Sub));
    if is_word_exec(w, &kw) {
        return Some(Opcode::Sub);
    }
    let kw = vec!['m', 'u', 'l'];
    assert(kw@ =~= keyword(Opcode::Mul));
    if is_word_exec(w, &kw) {
        return Some(Opcode::Mul);
    }
    let kw = vec!['d', 'i', 'v'];
    assert(kw@ =~= keyword(Opcode::Div));
    if is_word_exec(w, &kw) {
        return Some(Opcode::Div);
    }
    let kw = vec!['g', 'o', 't', 'o'];
    assert(kw@ =~= keyword(Opcode::Goto));
    if is_word_exec(w, &kw) {
        return Some(Opcode::Goto);
    }
    let kw = vec!['j', 'z', 'e', 'r', 'o'];
    assert(kw@ =~= keyword(Opcode::Jzero));
    if is_word_exec(w, &kw) {
        return Some(Opcode::Jzero);
    }
    let kw = vec!['j', 'n', 'z', 'e', 'r', 'o'];
    assert(kw@ =~= keyword(Opcode::Jnzero));
    if is_word_exec(w, &kw) {
        return Some(Opcode::Jnzero);
    }
    let kw = vec!['e', 'n', 'd'];
    assert(kw@ =~= keyword(Opcode::End));
    if is_word_exec(w, &kw) {
        return Some(Opcode::End);
    }
    None
}

pub open spec fn read_op(o: Opcode, p: crate::program::PtrType) -> InstructionView {
    match o {
        Opcode::Load => InstructionView::Load(p),
        Opcode::Add => InstructionView::Add(p),
        Opcode::Sub => InstructionView::Sub(p),
        Opcode::Mul => InstructionView::Mul(p),
        _ => InstructionView::Div(p),
    }
}

pub open spec fn jump_op(o: Opcode, l: Seq<char>) -> InstructionView {
    match o {
        Opcode::Goto => InstructionView::Goto(l),
        Opcode::Jzero => InstructionView::JumpIfZero(l),
        _ => InstructionView::JumpIfNotZero(l),
    }
}

/// The instruction that opcode word `op` with operand `arg` compiles to,
/// given the known labels, or the kind of error.
pub open spec fn compile_view(labels: Seq<Seq<char>>, op: Seq<char>, arg: Option<Seq<char>>) -> Result<
    InstructionView,
    ErrorKind,
> {
    match opcode_of(op) {
        None => Err(ErrorKind::InvalidInstruction),
        Some(Opcode::End) => if arg is None {
            Ok(InstructionView::End)
        } else {
            Err(ErrorKind::Param)
        },
        Some(o) => match arg {
            None => Err(ErrorKind::Param),
            Some(a) => match o {
                Opcode::Store => match store_operand_of(a) {
                    Some(d) => Ok(InstructionView::Store(d)),
                    None => Err(ErrorKind::Param),
                },
                Opcode::Goto | Opcode::Jzero | Opcode::Jnzero => if labels.contains(a) {
                    Ok(jump_op(o, a))
                } else {
                    Err(ErrorKind::Label)
                },
                _ => match operand_of(a) {
                    Some(p) => Ok(read_op(o, p)),
                    None => Err(ErrorKind::Param),
                },
            },
        },
    }
}

pub open spec fn strings_view(v: Seq<String>) -> Seq<Seq<char>> {
    v.map_values(|s: String| s@)
}

pub open spec fn pairs_view(d: Seq<(String, String)>) -> Seq<(Seq<char>, Seq<char>)> {
    d.map_values(|p: (String, String)| (p.0@, p.1@))
}

/// The value of macro `k`: that of its latest definition.
pub open spec fn lookup(d: Seq<(Seq<char>, Seq<char>)>, k: Seq<char>) -> Option<Seq<char>>
    decreases d.len(),
{
    if d.len() == 0 {
        None
    } else if d.last().0 == k {
        Some(d.last().1)
    } else {
        lookup(d.drop_last(), k)
    }
}

/// A token after macro substitution.
pub open spec fn substitute(d: Seq<(Seq<char>, Seq<char>)>, a: Seq<char>) -> Seq<char> {
    match lookup(d, a) {
        Some(v) => v,
        None => a,
    }
}

pub open spec fn starts_with(w: Seq<char>, p: Seq<char>) -> bool {
    p.len() <= w.len() && w.take(p.len() as int) == p
}

pub open spec fn define_word() -> Seq<char> {
    seq!['#', 'd', 'e', 'f', 'i', 'n', 'e']
}

pub open spec fn include_word() -> Seq<char> {
    seq!['#', 'i', 'n', 'c', 'l', 'u', 'd', 'e']
}

/// The label that a line's first word declares (`name:`), if any.
pub open spec fn line_label(text: Seq<char>) -> Option<Seq<char>> {
    let ws = words(text);
    if ws.len() > 0 && ws[0].len() > 0 && ws[0].last() == ':' {
        Some(ws[0].drop_last())
    } else {
        None
    }
}

/// The labels that the pre-scan of a file's lines registers, in order.
pub open spec fn prescan(ls: Seq<Seq<char>>) -> Seq<Seq<char>>
    decreases ls.len(),
{
    if ls.len() == 0 {
        seq![]
    } else {
        prescan(ls.drop_last()) + match line_label(ls.last()) {
            Some(l) => seq![l],
            None => seq![],
        }
    }
}

/// What reading one source line does.
pub enum LineEffect {
    /// Nothing: a blank or comment line.
    Skip,
    /// A macro definition.
    Define(Seq<char>, Seq<char>),
    /// An inclusion of the named file.
    Include(Seq<char>),
    /// A line appended to the program.
    Append(LineView),
    /// A compile error of the given kind at this line.
    Fail(ErrorKind),
}

pub open spec fn line_effect(
    labels: Seq<Seq<char>>,
    defines: Seq<(Seq<char>, Seq<char>)>,
    file: Seq<char>,
    n: u32,
    text: Seq<char>,
) -> LineEffect {
    let ws = words(text);
    if ws.len() == 0 {
        LineEffect::Skip
    } else if starts_with(ws[0], define_word()) {
        if ws.len() >= 3 {
            LineEffect::Define(ws[1], ws[2])
        } else {
            LineEffect::Fail(ErrorKind::Param)
        }
    } else if starts_with(ws[0], include_word()) {
        if ws.len() >= 2 {
            LineEffect::Include(ws[1])
        } else {
            LineEffect::Fail(ErrorKind::Param)
        }
    } else {
        let label = line_label(text);
        let rest = if label is Some {
            ws.drop_first()
        } else {
            ws
        };
        if rest.len() > 0 && rest[0].len() > 0 && rest[0][0] == '#' {
            LineEffect::Skip
        } else if rest.len() > 0 {
            let arg = if rest.len() > 1 {
                Some(substitute(defines, rest[1]))
            } else {
                None
            };
            match compile_view(labels, rest[0], arg) {
                Ok(iv) => LineEffect::Append(
                    LineView {
                        text: match arg {
                            Some(a) => rest[0] + seq![' '] + a,
                            None => rest[0],
                        },
                        instruction: Some(iv),
                        line_number: n,
                        file,
                        label,
                    },
                ),
                Err(k) => LineEffect::Fail(k),
            }
        } else {
            match label {
                Some(l) => LineEffect::Append(
                    LineView { text: l, instruction: None, line_number: n, file, label: Some(l) },
                ),
                None => LineEffect::Skip,
            }
        }
    }
}

/// A source file being read: its lines and the index of the next one.
pub struct SourceFrame {
    pub file_name: String,
    pub lines: Vec<Vec<char>>,
    pub next: usize,
}

/// The files of one compilation that are still being read, innermost last.
pub struct Compilation {
    pub frames: Vec<SourceFrame>,
}

/// What the caller has to do after a line was handled.
pub enum LoadEvent {
    /// Every file has been read.
    Finished,
    /// Call `advance` again.
    Continue,
    /// Read the file `name`, relative to the directory of `from`, open it
    /// with `open_source`, then call `advance` again.
    Include { from: String, name: String },
}

impl Compilation {
    pub open spec fn wf(&self) -> bool {
        forall|i: int|
            0 <= i < self.frames@.len() ==> #[trigger] self.frames@[i].next <= self.frames@[i].lines@.len()
                <= u32::MAX as int + 1
    }

    pub fn new() -> (r: Compilation)
        ensures
            r.frames@.len() == 0,
            r.wf(),
    {
        Compilation { frames: Vec::new() }
    }
}

proof fn lemma_lines_count(s: Seq<char>, i: int, cur: Seq<char>)
    requires
        0 <= i <= s.len(),
    ensures
        crate::text::lines_from(s, i, cur).len() <= s.len() - i + 1,
    decreases s.len() - i,
{
    if i < s.len() {
        lemma_lines_count(s, i + 1, if s[i] == '\n' { seq![] } else { cur.push(s[i]) });
    }
}

fn has_prefix(w: &Vec<char>, p: &Vec<char>) -> (r: bool)
    ensures
        r == starts_with(w@, p@),
{
    if p.len() > w.len() {
        return false;
    }
    let mut i: usize = 0;
    while i < p.len()
        invariant
            p@.len() <= w@.len(),
            i <= p@.len(),
            forall|j: int| 0 <= j < i ==> w@[j] == p@[j],
        decreases p@.len() - i,
    {
        if w[i] != p[i] {
            assert(w@.take(p@.len() as int)[i as int] != p@[i as int]);
            return false;
        }
        i = i + 1;
    }
    assert(w@.take(p@.len() as int) =~= p@);
    true
}

impl VirtualMachine {
    pub open spec fn label_names(&self) -> Seq<Seq<char>> {
        strings_view(self.labels@)
    }

    pub open spec fn macros(&self) -> Seq<(Seq<char>, Seq<char>)> {
        pairs_view(self.defines@)
    }

    /// Checks that `arg` is a known label; otherwise a label error.
    fn compute_label(&self, arg: &String, line_nr: u32, file_name: &String) -> (r: Result<
        String,
        CompileError,
    >)
        ensures
            self.label_names().contains(arg@) ==> r is Ok && r->Ok_0@ == arg@,
            !self.label_names().contains(arg@) ==> r is Err && r->Err_0@ == (CompileErrorView {
                kind: ErrorKind::Label,
                file: file_name@,
                line: line_nr,
            }),
    {
        let mut i: usize = 0;
        while i < self.labels.len()
            invariant
                i <= self.labels@.len(),
                forall|j: int| 0 <= j < i ==> self.label_names()[j] != arg@,
            decreases self.labels@.len() - i,
        {
            if self.labels[i].eq(arg) {
                assert(self.label_names()[i as int] == arg@);
                return Ok(arg.clone());
            }
            i = i + 1;
        }
        Err(fault_at(ErrorKind::Label, file_name, line_nr))
    }

    /// Compiles opcode word `instr` with its operand, if any.
    fn compile(&self, instr: &Vec<char>, arg: &Option<String>, line_nr: u32, file_name: &String) -> (r:
        Result<Instruction, CompileError>)
        ensures
            match compile_view(
                self.label_names(),
                instr@,
                match arg {
                    Some(a) => Some(a@),
                    None => None,
                },
            ) {
                Ok(iv) => r is Ok && r->Ok_0@ == iv,
                Err(k) => r is Err && r->Err_0@ == (CompileErrorView {
                    kind: k,
                    file: file_name@,
                    line: line_nr,
                }),
            },
    {
        let o = match opcode(instr) {
            None => return Err(fault_at(ErrorKind::InvalidInstruction, file_name, line_nr)),
            Some(o) => o,
        };
        let a = match arg {
            None => {
                if o == Opcode::End {
                    return Ok(Instruction::End());
                }
                return Err(fault_at(ErrorKind::Param, file_name, line_nr));
            },
            Some(a) => a,
        };
        match o {
            Opcode::End => Err(fault_at(ErrorKind::Param, file_name, line_nr)),
            Opcode::Store => {
                let cs = chars_of(a.as_str());
                match compute_store_type(&cs, line_nr, file_name) {
                    Ok(d) => Ok(Instruction::Store(d)),
                    Err(e) => Err(e),
                }
            },
            Opcode::Goto | Opcode::Jzero | Opcode::Jnzero => {
                match self.compute_label(a, line_nr, file_name) {
                    Ok(l) => if o == Opcode::Goto {
                        Ok(Instruction::Goto(l))
                    } else if o == Opcode::Jzero {
                        Ok(Instruction::JumpIfZero(l))
                    } else {
                        Ok(Instruction::JumpIfNotZero(l))
                    },
                    Err(e) => Err(e),
                }
            },
            _ => {
                let cs = chars_of(a.as_str());
                match compute_ptr_type(&cs, line_nr, file_name) {
                    Ok(p) => if o == Opcode::Load {
                        Ok(Instruction::Load(p))
                    } else if o == Opcode::Add {
                        Ok(Instruction::Add(p))
                    } else if o == Opcode::Sub {
                        Ok(Instruction::Sub(p))
                    } else if o == Opcode::Mul {
                        Ok(Instruction::Mul(p))
                    } else {
                        Ok(Instruction::Div(p))
                    },
                    Err(e) => Err(e),
                }
            },
        }
    }
    /// `arg` after macro substitution.
    fn substituted(&self, arg: String) -> (r: String)
        ensures
            r@ == substitute(self.macros(), arg@),
    {
        let ghost d = self.macros();
        let mut i: usize = self.defines.len();
        assert(d.take(i as int) =~= d);
        while i > 0
            invariant
                i <= self.defines@.len(),
                d == self.macros(),
                lookup(d, arg@) == lookup(d.take(i as int), arg@),
            decreases i,
        {
            i = i - 1;
            assert(d.take(i + 1).drop_last() =~= d.take(i as int));
            assert(d.take(i + 1).last() == d[i as int]);
            if self.defines[i].0.eq(&arg) {
                return self.defines[i].1.clone();
            }
        }
        arg
    }

    /// Reads one source line: line `n` of `file_name`, which holds `text`.
    /// Returns the name of the file to include, if the line asks for one.
    fn process_line(&mut self, file_name: &String, n: u32, text: &Vec<char>) -> (r: Result<
        Option<String>,
        CompileError,
    >)
        ensures
            final(self).memory == old(self).memory,
            final(self).accumulator == old(self).accumulator,
            final(self).line_ptr == old(self).line_ptr,
            final(self).labels == old(self).labels,
            match line_effect(old(self).label_names(), old(self).macros(), file_name@, n, text@) {
                LineEffect::Skip => {
                    &&& r is Ok && r->Ok_0 is None
                    &&& final(self).lines == old(self).lines
                    &&& final(self).defines == old(self).defines
                },
                LineEffect::Define(k, v) => {
                    &&& r is Ok && r->Ok_0 is None
                    &&& final(self).lines == old(self).lines
                    &&& final(self).macros() == old(self).macros().push((k, v))
                },
                LineEffect::Include(name) => {
                    &&& r is Ok && r->Ok_0 is Some && r->Ok_0->Some_0@ == name
                    &&& final(self).lines == old(self).lines
                    &&& final(self).defines == old(self).defines
                },
                LineEffect::Append(lv) => {
                    &&& r is Ok && r->Ok_0 is None
                    &&& final(self).program() == old(self).program().push(lv)
                    &&& final(self).defines == old(self).defines
                },
                LineEffect::Fail(k) => {
                    &&& r is Err && r->Err_0@ == (CompileErrorView {
                        kind: k,
                        file: file_name@,
                        line: n,
                    })
                    &&& final(self).lines == old(self).lines
                    &&& final(self).defines == old(self).defines
                },
            },
    {
        let ws = split_words(text);
        let ghost w = words(text@);
        if ws.len() == 0 {
            return Ok(None);
        }
        let define_kw = vec!['#', 'd', 'e', 'f', 'i', 'n', 'e'];
        assert(define_kw@ =~= define_word());
        if has_prefix(&ws[0], &define_kw) {
            if ws.len() < 3 {
                return Err(fault_at(ErrorKind::Param, file_name, n));
            }
            let name = text_of(ws[1].as_slice());
            let value = text_of(ws[2].as_slice());
            self.defines.push((name, value));
            assert(self.macros() =~= old(self).macros().push((w[1], w[2])));
            return Ok(None);
        }
        let include_kw = vec!['#', 'i', 'n', 'c', 'l', 'u', 'd', 'e'];
        assert(include_kw@ =~= include_word());
        if has_prefix(&ws[0], &include_kw) {
            if ws.len() < 2 {
                return Err(fault_at(ErrorKind::Param, file_name, n));
            }
            return Ok(Some(text_of(ws[1].as_slice())));
        }
        let first_len = ws[0].len();
        let has_label = first_len > 0 && ws[0][first_len - 1] == ':';
        let start: usize = if has_label {
            1
        } else {
            0
        };
        let label: Option<String> = if has_label {
            let l = text_of(slice_subrange(ws[0].as_slice(), 0, first_len - 1));
            assert(l@ =~= w[0].drop_last());
            Some(l)
        } else {
            None
        };
        let ghost rest = if has_label {
            w.drop_first()
        } else {
            w
        };
        assert(forall|j: int| 0 <= j < rest.len() ==> rest[j] == #[trigger] ws@[j + start]@);
        assert(rest.len() == ws@.len() - start);
        assert(crate::program::opt_view(label) == line_label(text@));
        assert(!starts_with(w[0], define_word()));
        assert(!starts_with(w[0], include_word()));
        if ws.len() > start && ws[start].len() > 0 && ws[start][0] == '#' {
            return Ok(None);
        }
        if ws.len() > start {
            let arg: Option<String> = if ws.len() > start + 1 {
                let token = text_of(ws[start + 1].as_slice());
                Some(self.substituted(token))
            } else {
                None
            };
            let ghost sarg: Option<Seq<char>> = if rest.len() > 1 {
                Some(substitute(old(self).macros(), rest[1]))
            } else {
                None
            };
            assert(match arg {
                Some(a) => Some(a@),
                None => None,
            } == sarg);
            let instr = match self.compile(&ws[start], &arg, n, file_name) {
                Ok(i) => i,
                Err(e) => return Err(e),
            };
            let mut line = text_of(ws[start].as_slice());
            match &arg {
                Some(a) => {
                    proof {
                        reveal_strlit(" ");
                    }
                    line.append(" ");
                    line.append(a.as_str());
                },
                None => {},
            }
            let l = Line {
                line,
                instruction: Some(instr),
                line_number: n,
                file_name: file_name.clone(),
                label,
            };
            self.lines.push(l);
            assert(self.program() =~= old(self).program().push(l@));
            assert(l@.text == match sarg {
                Some(a) => rest[0] + seq![' '] + a,
                None => rest[0],
            });
            assert(line_effect(old(self).label_names(), old(self).macros(), file_name@, n, text@)
                == LineEffect::Append(l@));
            Ok(None)
        } else {
            match label {
                Some(name) => {
                    let l = Line {
                        line: name.clone(),
                        instruction: None,
                        line_number: n,
                        file_name: file_name.clone(),
                        label: Some(name),
                    };
                    self.lines.push(l);
                    assert(self.program() =~= old(self).program().push(l@));
                },
                None => {},
            }
            Ok(None)
        }
    }
    /// Starts reading file `file_name`, whose contents are `text`: registers
    /// the labels that its lines declare (the pre-scan) and makes it the
    /// innermost file of `unit`.
    pub fn open_source(&mut self, unit: &mut Compilation, file_name: String, text: &str)
        requires
            old(unit).wf(),
            text@.len() < u32::MAX,
        ensures
            final(unit).wf(),
            final(unit).frames@.len() == old(unit).frames@.len() + 1,
            forall|i: int|
                0 <= i < old(unit).frames@.len() ==> final(unit).frames@[i] == old(unit).frames@[i],
            final(unit).frames@.last().file_name@ == file_name@,
            views(final(unit).frames@.last().lines@) == lines(text@),
            final(unit).frames@.last().next == 0,
            final(self).label_names() == old(self).label_names() + prescan(lines(text@)),
            final(self).memory == old(self).memory,
            final(self).accumulator == old(self).accumulator,
            final(self).line_ptr == old(self).line_ptr,
            final(self).lines == old(self).lines,
            final(self).defines == old(self).defines,
    {
        let cs = chars_of(text);
        let ls = split_lines(&cs);
        proof {
            lemma_lines_count(text@, 0, seq![]);
        }
        let ghost all = views(ls@);
        let mut i: usize = 0;
        assert(all.take(0) =~= seq![]);
        while i < ls.len()
            invariant
                i <= ls@.len(),
                all == views(ls@),
                self.label_names() == old(self).label_names() + prescan(all.take(i as int)),
                self.memory == old(self).memory,
                self.accumulator == old(self).accumulator,
                self.line_ptr == old(self).line_ptr,
                self.lines == old(self).lines,
                self.defines == old(self).defines,
            decreases ls@.len() - i,
        {
            assert(all.take(i + 1).drop_last() =~= all.take(i as int));
            assert(all.take(i + 1).last() == ls@[i as int]@);
            let ws = split_words(&ls[i]);
            let first_len: usize = if ws.len() > 0 {
                ws[0].len()
            } else {
                0
            };
            if ws.len() > 0 && first_len > 0 && ws[0][first_len - 1] == ':' {
                let l = text_of(slice_subrange(ws[0].as_slice(), 0, first_len - 1));
                assert(l@ =~= words(ls@[i as int]@)[0].drop_last());
                let ghost before = self.label_names();
                self.labels.push(l);
                assert(self.label_names() =~= before.push(l@));
                assert(self.label_names() =~= old(self).label_names() + prescan(
                    all.take(i + 1),
                ));
            } else {
                assert(prescan(all.take(i + 1)) =~= prescan(all.take(i as int)));
            }
            i = i + 1;
        }
        assert(all.take(ls@.len() as int) =~= all);
        let ghost frames0 = unit.frames@;
        unit.frames.push(SourceFrame { file_name, lines: ls, next: 0 });
        assert forall|i: int| 0 <= i < unit.frames@.len() implies #[trigger] unit.frames@[i].next
            <= unit.frames@[i].lines@.len() <= u32::MAX as int + 1 by {
            if i < frames0.len() {
                assert(unit.frames@[i] == frames0[i]);
            }
        }
    }

    /// Handles the next line of the innermost file of `unit`; a file whose
    /// lines are all read is closed. A compile error ends the compilation:
    /// lines, labels and macros added before it stay.
    pub fn advance(&mut self, unit: &mut Compilation) -> (r: Result<LoadEvent, CompileError>)
        requires
            old(unit).wf(),
        ensures
            final(unit).wf(),
            final(self).memory == old(self).memory,
            final(self).accumulator == old(self).accumulator,
            final(self).line_ptr == old(self).line_ptr,
            final(self).labels == old(self).labels,
            ({
                let frames = old(unit).frames@;
                let f = frames.last();
                if frames.len() == 0 {
                    &&& r is Ok && r->Ok_0 is Finished
                    &&& final(unit).frames@ == frames
                    &&& final(self).lines == old(self).lines
                    &&& final(self).defines == old(self).defines
                } else if f.next >= f.lines@.len() {
                    &&& r is Ok && r->Ok_0 is Continue
                    &&& final(unit).frames@ == frames.drop_last()
                    &&& final(self).lines == old(self).lines
                    &&& final(self).defines == old(self).defines
                } else {
                    let moved = frames.drop_last().push(
                        SourceFrame { file_name: f.file_name, lines: f.lines, next: (f.next + 1) as usize },
                    );
                    match line_effect(
                        old(self).label_names(),
                        old(self).macros(),
                        f.file_name@,
                        f.next as u32,
                        f.lines@[f.next as int]@,
                    ) {
                        LineEffect::Skip => {
                            &&& r is Ok && r->Ok_0 is Continue
                            &&& final(unit).frames@ == moved
                            &&& final(self).lines == old(self).lines
                            &&& final(self).defines == old(self).defines
                        },
                        LineEffect::Define(k, v) => {
                            &&& r is Ok && r->Ok_0 is Continue
                            &&& final(unit).frames@ == moved
                            &&& final(self).lines == old(self).lines
                            &&& final(self).macros() == old(self).macros().push((k, v))
                        },
                        LineEffect::Include(name) => {
                            &&& r is Ok && r->Ok_0 is Include
                            &&& r->Ok_0->Include_from@ == f.file_name@
                            &&& r->Ok_0->Include_name@ == name
                            &&& final(unit).frames@ == moved
                            &&& final(self).lines == old(self).lines
                            &&& final(self).defines == old(self).defines
                        },
                        LineEffect::Append(lv) => {
                            &&& r is Ok && r->Ok_0 is Continue
                            &&& final(unit).frames@ == moved
                            &&& final(self).program() == old(self).program().push(lv)
                            &&& final(self).defines == old(self).defines
                        },
                        LineEffect::Fail(k) => {
                            &&& r is Err && r->Err_0@ == (CompileErrorView {
                                kind: k,
                                file: f.file_name@,
                                line: f.next as u32,
                            })
                            &&& final(self).lines == old(self).lines
                            &&& final(self).defines == old(self).defines
                        },
                    }
                }
            }),
    {
        let ghost frames = unit.frames@;
        if unit.frames.len() == 0 {
            return Ok(LoadEvent::Finished);
        }
        let mut f = unit.frames.pop().unwrap();
        assert(unit.frames@ =~= frames.drop_last());
        assert(f.next <= f.lines@.len() <= u32::MAX as int + 1) by {
            assert(frames[frames.len() - 1] == f);
        }
        if f.next >= f.lines.len() {
            return Ok(LoadEvent::Continue);
        }
        let n = f.next as u32;
        let outcome = self.process_line(&f.file_name, n, &f.lines[f.next]);
        f.next = f.next + 1;
        let from = f.file_name.clone();
        unit.frames.push(f);
        assert forall|i: int| 0 <= i < unit.frames@.len() implies #[trigger] unit.frames@[i].next
            <= unit.frames@[i].lines@.len() <= u32::MAX as int + 1 by {
            if i < frames.len() - 1 {
                assert(unit.frames@[i] == frames[i]);
            }
        }
        match outcome {
            Ok(Some(name)) => Ok(LoadEvent::Include { from, name }),
            Ok(None) => Ok(LoadEvent::Continue),
            Err(e) => Err(e),
        }
    }
}

} // verus!
