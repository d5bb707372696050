use registermaschine::assembler::{Compilation, LoadEvent};
use registermaschine::machine::{ExecutionError, ExecutionResult, VirtualMachine};
use registermaschine::program::{CompileError, Instruction, PtrType, RefPtrType};

/// Compiles `text` as file `file`, which may include the files in `others`.
fn compile_with(
    vm: &mut VirtualMachine,
    file: &str,
    text: &str,
    others: &[(&str, &str)],
) -> Result<(), CompileError> {
    let mut unit = Compilation::new();
    vm.open_source(&mut unit, file.to_string(), text);
    loop {
        match vm.advance(&mut unit)? {
            LoadEvent::Finished => return Ok(()),
            LoadEvent::Continue => {}
            LoadEvent::Include { name, .. } => {
                let (n, t) = others
                    .iter()
                    .find(|(n, _)| *n == name)
                    .expect("included file is known");
                vm.open_source(&mut unit, n.to_string(), t);
            }
        }
    }
}

fn compile(vm: &mut VirtualMachine, text: &str) -> Result<(), CompileError> {
    compile_with(vm, "main.asm", text, &[])
}

fn machine(text: &str) -> VirtualMachine {
    let mut vm = VirtualMachine::new();
    compile(&mut vm, text).expect("program compiles");
    vm
}

fn accumulator_of(r: &ExecutionResult) -> u32 {
    match r {
        ExecutionResult::End { accumulator, .. } => *accumulator,
        ExecutionResult::Executed { accumulator, .. } => *accumulator,
    }
}

fn is_end(r: &ExecutionResult) -> bool {
    matches!(r, ExecutionResult::End { .. })
}

#[test]
fn four_line_program_runs_to_end() {
    let mut vm = machine("load #10\nstore 1\nadd #5\nend\n");
    let r1 = vm.step().unwrap();
    assert!(!is_end(&r1));
    assert_eq!(accumulator_of(&r1), 10);
    let r2 = vm.step().unwrap();
    assert!(!is_end(&r2));
    let r3 = vm.step().unwrap();
    assert_eq!(accumulator_of(&r3), 15);
    let r4 = vm.step().unwrap();
    assert!(is_end(&r4));
    assert_eq!(vm.accumulator, 15);
    assert_eq!(vm.memory[0], 10);
    match r4 {
        ExecutionResult::End { line, register, accumulator } => {
            assert_eq!(line.line, 3);
            assert_eq!(line.file, "main.asm");
            assert_eq!(register, vec![10]);
            assert_eq!(accumulator, 15);
        }
        _ => panic!("expected the end"),
    }
}

const LOOP: &str = "start:\nload 1\njzero start\nadd #1\nstore 1\ngoto start\nend\n";

#[test]
fn loop_with_zero_register_spins_on_the_test() {
    let mut vm = machine(LOOP);
    vm.memory = vec![0];
    for _ in 0..100 {
        let r = vm.step().unwrap();
        assert!(!is_end(&r));
    }
    assert_eq!(vm.memory, vec![0]);
}

#[test]
fn loop_increments_register_each_cycle() {
    let mut vm = machine(LOOP);
    vm.memory = vec![1];
    for cycle in 0..20u32 {
        for _ in 0..5 {
            let r = vm.step().unwrap();
            assert!(!is_end(&r));
        }
        assert_eq!(vm.memory[0], cycle + 2);
    }
}

#[test]
fn store_then_load_direct_and_indirect() {
    let mut vm = machine("load #42\nstore 7\nload #0\nload 7\nload #3\nstore 2\nload #99\nstore *2\nload #0\nload *2\nload 5\nend");
    for _ in 0..4 {
        vm.step().unwrap();
    }
    assert_eq!(vm.accumulator, 42);
    assert_eq!(vm.memory.len(), 7);
    for _ in 0..6 {
        vm.step().unwrap();
    }
    assert_eq!(vm.accumulator, 99);
    assert_eq!(vm.memory[2], 99);
    let r = vm.step().unwrap();
    assert_eq!(accumulator_of(&r), 0);
    assert_eq!(vm.memory[4], 0);
}

#[test]
fn untouched_registers_read_zero() {
    let mut vm = machine("load 9\nend");
    let r = vm.step().unwrap();
    assert_eq!(accumulator_of(&r), 0);
    assert_eq!(vm.memory, vec![0; 9]);
}

#[test]
fn register_zero_fails_everywhere() {
    for text in ["load 0", "store 0", "add 0", "sub *0", "mul 0", "div *0", "store *0"] {
        let mut vm = machine(text);
        vm.accumulator = 4;
        assert_eq!(vm.step(), Err(ExecutionError::AccessingReg0), "{}", text);
        assert_eq!(vm.accumulator, 4);
        assert_eq!(vm.line_ptr, 0);
        assert!(vm.memory.is_empty());
    }
}

#[test]
fn pointer_to_address_zero_fails() {
    let mut vm = machine("load *1\nstore *1");
    vm.memory = vec![0, 5];
    assert_eq!(vm.step(), Err(ExecutionError::AccessingReg0));
    vm.line_ptr = 1;
    assert_eq!(vm.step(), Err(ExecutionError::AccessingReg0));
    assert_eq!(vm.memory, vec![0, 5]);
}

#[test]
fn negative_register_is_invalid() {
    let mut vm = machine("load -1");
    assert_eq!(vm.step(), Err(ExecutionError::AccessingReg0));
}

#[test]
fn divide_by_zero_keeps_accumulator() {
    let mut vm = machine("load #9\ndiv #0\ndiv 4");
    vm.step().unwrap();
    assert_eq!(vm.step(), Err(ExecutionError::DivThroughZero));
    assert_eq!(vm.accumulator, 9);
    assert_eq!(vm.line_ptr, 1);
    vm.line_ptr = 2;
    assert_eq!(vm.step(), Err(ExecutionError::DivThroughZero));
    assert_eq!(vm.accumulator, 9);
    assert!(vm.memory.is_empty());
}

#[test]
fn division_rounds_down() {
    let mut vm = machine("load #17\ndiv #5");
    vm.step().unwrap();
    let r = vm.step().unwrap();
    assert_eq!(accumulator_of(&r), 3);
}

#[test]
fn subtraction_never_goes_negative() {
    let mut vm = machine("load #3\nsub #5\nsub #2");
    vm.step().unwrap();
    let r = vm.step().unwrap();
    assert_eq!(accumulator_of(&r), 3);
    let r = vm.step().unwrap();
    assert_eq!(accumulator_of(&r), 1);
}

#[test]
fn add_and_mul_wrap_around() {
    let mut vm = machine("load #-1\nadd #2\nload #65536\nmul #65537");
    let r = vm.step().unwrap();
    assert_eq!(accumulator_of(&r), u32::MAX);
    let r = vm.step().unwrap();
    assert_eq!(accumulator_of(&r), 1);
    vm.step().unwrap();
    let r = vm.step().unwrap();
    assert_eq!(accumulator_of(&r), 65536);
}

#[test]
fn undefined_label_is_a_label_error() {
    let mut vm = VirtualMachine::new();
    let r = compile(&mut vm, "load #1\n\ngoto nowhere\nend");
    assert_eq!(r, Err(CompileError::LabelError { file: "main.asm".to_string(), line: 2 }));
    assert_eq!(vm.lines.len(), 1);
}

#[test]
fn forward_label_compiles() {
    let mut vm = machine("jnzero later\nload #1\nlater: end");
    assert_eq!(vm.lines[0].instruction, Some(Instruction::JumpIfNotZero("later".to_string())));
    assert_eq!(vm.lines[2].label, Some("later".to_string()));
    vm.step().unwrap();
    assert_eq!(vm.line_ptr, 1);
}

#[test]
fn define_substitutes_later_tokens() {
    let mut vm = machine("#define X 5\nload X\n#define X #7\nadd X\nend");
    assert_eq!(vm.lines[0].instruction, Some(Instruction::Load(PtrType::Register(5))));
    assert_eq!(vm.lines[0].line, "load 5");
    assert_eq!(vm.lines[1].instruction, Some(Instruction::Add(PtrType::Immediate(7))));
    assert_eq!(vm.lines[1].line, "add #7");
    assert_eq!(vm.lines[1].line_number, 3);
}

#[test]
fn step_after_end_repeats_the_end() {
    let mut vm = machine("load #2\nend");
    vm.step().unwrap();
    let first = vm.step().unwrap();
    assert!(is_end(&first));
    let again = vm.step().unwrap();
    assert_eq!(first, again);
    assert_eq!(vm.line_ptr, 1);
}

#[test]
fn running_past_the_last_line_ends() {
    let mut vm = machine("load #2\nlast:");
    vm.step().unwrap();
    let r = vm.step().unwrap();
    assert!(is_end(&r));
    assert_eq!(vm.step().unwrap(), r);
    match r {
        ExecutionResult::End { line, .. } => assert_eq!(line.line, 1),
        _ => panic!("expected the end"),
    }
}

#[test]
fn empty_program_reports_missing_end() {
    let mut vm = VirtualMachine::new();
    assert_eq!(vm.step(), Err(ExecutionError::EndMarkerMissing));
    assert_eq!(vm.step(), Err(ExecutionError::EndMarkerMissing));
    assert_eq!(vm.line_ptr, 0);
}

#[test]
fn unknown_opcode_is_invalid_instruction() {
    let mut vm = VirtualMachine::new();
    let r = compile(&mut vm, "jump 1");
    assert_eq!(r, Err(CompileError::InvalidInstruction { file: "main.asm".to_string(), line: 0 }));
}

#[test]
fn parameter_errors() {
    for text in ["load", "end 1", "load #x", "store #5", "add *", "goto", "load 2147483648", "#define X"] {
        let mut vm = VirtualMachine::new();
        let r = compile(&mut vm, text);
        assert_eq!(r, Err(CompileError::ParamError { file: "main.asm".to_string(), line: 0 }), "{}", text);
    }
}

#[test]
fn operand_forms() {
    let vm = machine("LOAD +12\nLoad *-3\nstore *4\nstore 6\nsub #-2147483648\nend");
    assert_eq!(vm.lines[0].instruction, Some(Instruction::Load(PtrType::Register(12))));
    assert_eq!(vm.lines[1].instruction, Some(Instruction::Load(PtrType::Pointer(-3))));
    assert_eq!(vm.lines[2].instruction, Some(Instruction::Store(RefPtrType::Pointer(4))));
    assert_eq!(vm.lines[3].instruction, Some(Instruction::Store(RefPtrType::Register(6))));
    assert_eq!(vm.lines[4].instruction, Some(Instruction::Sub(PtrType::Immediate(i32::MIN))));
    assert_eq!(vm.lines[5].instruction, Some(Instruction::End()));
}

#[test]
fn comments_and_labels() {
    let vm = machine("# a comment\n  top:   # note\nmid:\n\tloop: load #1 extra\nend");
    assert_eq!(vm.lines.len(), 3);
    assert_eq!(vm.lines[0].line, "mid");
    assert_eq!(vm.lines[0].instruction, None);
    assert_eq!(vm.lines[0].line_number, 2);
    assert_eq!(vm.lines[1].label, Some("loop".to_string()));
    assert_eq!(vm.lines[1].line, "load #1");
    assert_eq!(vm.labels, vec!["top".to_string(), "mid".to_string(), "loop".to_string()]);
}

#[test]
fn included_file_is_folded_in() {
    let mut vm = VirtualMachine::new();
    let main = "load #1\n#include lib.asm\ngoto helper\nend";
    let lib = "helper: add #2\n";
    compile_with(&mut vm, "main.asm", main, &[("lib.asm", lib)]).unwrap();
    assert_eq!(vm.lines.len(), 4);
    assert_eq!(vm.lines[1].file_name, "lib.asm");
    assert_eq!(vm.lines[1].line_number, 0);
    assert_eq!(vm.lines[2].file_name, "main.asm");
    assert_eq!(vm.lines[2].line_number, 2);
}

#[test]
fn label_of_later_include_is_not_yet_known() {
    let mut vm = VirtualMachine::new();
    let main = "goto helper\n#include lib.asm\nend";
    let lib = "helper: add #2\n";
    let r = compile_with(&mut vm, "main.asm", main, &[("lib.asm", lib)]);
    assert_eq!(r, Err(CompileError::LabelError { file: "main.asm".to_string(), line: 0 }));
}

#[test]
fn include_event_names_file_and_includer() {
    let mut vm = VirtualMachine::new();
    let mut unit = Compilation::new();
    vm.open_source(&mut unit, "dir/main.asm".to_string(), "#include sub/x.asm");
    match vm.advance(&mut unit).unwrap() {
        LoadEvent::Include { from, name } => {
            assert_eq!(from, "dir/main.asm");
            assert_eq!(name, "sub/x.asm");
        }
        _ => panic!("expected an include"),
    }
    assert!(matches!(vm.advance(&mut unit).unwrap(), LoadEvent::Continue));
    assert!(matches!(vm.advance(&mut unit).unwrap(), LoadEvent::Finished));
}

#[test]
fn reuse_clears_everything() {
    let mut vm = machine("#define A 1\nx: load #1\nend");
    vm.step().unwrap();
    vm.reuse();
    assert_eq!(vm, VirtualMachine::new());
}

#[test]
fn upload_replaces_memory() {
    let mut vm = machine("load 2\nend");
    let numbers = vec!["7".to_string(), "+4294967295".to_string(), "0".to_string()];
    assert!(vm.upload(&numbers));
    assert_eq!(vm.memory, vec![7, u32::MAX, 0]);
    let r = vm.step().unwrap();
    assert_eq!(accumulator_of(&r), u32::MAX);
}

#[test]
fn upload_rejects_non_numbers() {
    let mut vm = VirtualMachine::new();
    vm.memory = vec![1, 2];
    for bad in ["-1", "4294967296", "x", "", "+"] {
        assert!(!vm.upload(&vec!["3".to_string(), bad.to_string()]), "{}", bad);
        assert_eq!(vm.memory, vec![1, 2]);
    }
}

#[test]
fn failing_step_after_label_lines_moves_counter_to_the_failing_line() {
    let mut vm = machine("load #6\nfirst:\nsecond:\ndiv #0\nend");
    vm.step().unwrap();
    assert_eq!(vm.line_ptr, 1);
    assert_eq!(vm.step(), Err(ExecutionError::DivThroughZero));
    assert_eq!(vm.line_ptr, 3);
    assert_eq!(vm.accumulator, 6);
    assert!(vm.memory.is_empty());
    assert_eq!(vm.step(), Err(ExecutionError::DivThroughZero));
    assert_eq!(vm.line_ptr, 3);
}

#[test]
fn failing_load_after_label_line_keeps_memory() {
    let mut vm = machine("top:\nload *1\nend");
    vm.memory = vec![0];
    assert_eq!(vm.step(), Err(ExecutionError::AccessingReg0));
    assert_eq!(vm.line_ptr, 1);
    assert_eq!(vm.memory, vec![0]);
}
