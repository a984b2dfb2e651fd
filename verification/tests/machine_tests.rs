//! The emitted assembly is assembled and run on a small emulator of the target
//! machine, and the memory is looked at afterwards.

use std::collections::HashMap;

use vm_translator::compiler::{compile, create_bootstrap_code};
use vm_translator::ledger::CallLedger;
use vm_translator::parser::parse;
use vm_translator::program::{compile_files, SourceUnit};

struct Emulator {
    rom: Vec<String>,
    symbols: HashMap<String, u16>,
    ram: Vec<u16>,
    a: u16,
    d: u16,
    pc: usize,
}

fn predefined() -> HashMap<String, u16> {
    let mut symbols = HashMap::new();
    for (name, address) in [("SP", 0), ("LCL", 1), ("ARG", 2), ("THIS", 3), ("THAT", 4)] {
        symbols.insert(name.to_string(), address);
    }
    for i in 0..16u16 {
        symbols.insert(format!("R{}", i), i);
    }
    symbols.insert("SCREEN".to_string(), 16384);
    symbols.insert("KBD".to_string(), 24576);
    symbols
}

fn assemble(text: &str) -> Emulator {
    let mut rom: Vec<String> = Vec::new();
    let mut symbols = predefined();
    for line in text.lines() {
        let line = line.trim();
        if line.is_empty() {
            continue;
        }
        if line.starts_with('(') {
            let name = &line[1..line.len() - 1];
            assert!(
                symbols.insert(name.to_string(), rom.len() as u16).is_none(),
                "label {} is declared twice",
                name
            );
        } else {
            rom.push(line.to_string());
        }
    }
    let mut next_variable = 16;
    for line in rom.iter() {
        if let Some(name) = line.strip_prefix('@') {
            if name.parse::<u16>().is_err() && !symbols.contains_key(name) {
                symbols.insert(name.to_string(), next_variable);
                next_variable += 1;
            }
        }
    }
    Emulator { rom, symbols, ram: vec![0; 65536], a: 0, d: 0, pc: 0 }
}

fn compute(comp: &str, a: u16, d: u16, m: u16) -> u16 {
    match comp {
        "0" => 0,
        "1" => 1,
        "-1" => 0xFFFF,
        "D" => d,
        "A" => a,
        "M" => m,
        "!D" => !d,
        "!A" => !a,
        "!M" => !m,
        "-D" => d.wrapping_neg(),
        "-A" => a.wrapping_neg(),
        "-M" => m.wrapping_neg(),
        "D+1" => d.wrapping_add(1),
        "A+1" => a.wrapping_add(1),
        "M+1" => m.wrapping_add(1),
        "D-1" => d.wrapping_sub(1),
        "A-1" => a.wrapping_sub(1),
        "M-1" => m.wrapping_sub(1),
        "D+A" => d.wrapping_add(a),
        "D+M" => d.wrapping_add(m),
        "D-A" => d.wrapping_sub(a),
        "D-M" => d.wrapping_sub(m),
        "A-D" => a.wrapping_sub(d),
        "M-D" => m.wrapping_sub(d),
        "D&A" => d & a,
        "D&M" => d & m,
        "D|A" => d | a,
        "D|M" => d | m,
        "M<<" => m << 1,
        "M>>" => ((m as i16) >> 1) as u16,
        other => panic!("unknown computation {}", other),
    }
}

fn jumps(jump: &str, value: u16) -> bool {
    let value = value as i16;
    match jump {
        "" => false,
        "JGT" => value > 0,
        "JEQ" => value == 0,
        "JGE" => value >= 0,
        "JLT" => value < 0,
        "JNE" => value != 0,
        "JLE" => value <= 0,
        "JMP" => true,
        other => panic!("unknown jump {}", other),
    }
}

fn step(machine: &mut Emulator) {
    let line = machine.rom[machine.pc].clone();
    if let Some(operand) = line.strip_prefix('@') {
        machine.a = match operand.parse::<u16>() {
            Ok(number) => {
                assert!(number < 0x8000, "{} does not fit in 15 bits", number);
                number
            }
            Err(_) => machine.symbols[operand],
        };
        machine.pc += 1;
        return;
    }
    let (dest, rest) = match line.split_once('=') {
        Some((dest, rest)) => (dest, rest),
        None => ("", line.as_str()),
    };
    let (comp, jump) = match rest.split_once(';') {
        Some((comp, jump)) => (comp, jump),
        None => (rest, ""),
    };
    let address = machine.a as usize;
    let value = compute(comp, machine.a, machine.d, machine.ram[address]);
    if dest.contains('M') {
        machine.ram[address] = value;
    }
    if dest.contains('D') {
        machine.d = value;
    }
    if dest.contains('A') {
        machine.a = value;
    }
    machine.pc = if jumps(jump, value) { address } else { machine.pc + 1 };
}

/// Runs until the program is left at its end; gives the number of steps.
fn run(machine: &mut Emulator) -> usize {
    let mut steps = 0;
    while machine.pc < machine.rom.len() {
        step(machine);
        steps += 1;
        assert!(steps < 100_000, "the program does not end");
    }
    steps
}

/// Runs until a `return` jumps to the given symbol; gives the number of steps.
fn run_until_return_to(machine: &mut Emulator, symbol: &str) -> usize {
    let target = machine.symbols[symbol] as usize;
    let mut steps = 0;
    loop {
        let before = machine.pc;
        step(machine);
        steps += 1;
        assert!(steps < 100_000, "the program does not return to {}", symbol);
        let returned =
            before > 0 && machine.rom[before] == "0;JMP" && machine.rom[before - 1] == "A=M";
        if returned && machine.pc == target {
            return steps;
        }
    }
}

fn translate(module: &str, source: &[&str]) -> String {
    let mut ledger = CallLedger::new();
    let lines: Vec<String> = source.iter().map(|l| l.to_string()).collect();
    let instructions = parse(lines, &mut ledger).expect("the source is valid");
    compile(instructions, module).expect("every instruction has assembly").concat()
}

fn with_stack(text: &str, stack: &[u16]) -> Emulator {
    let mut machine = assemble(text);
    machine.ram[0] = 256 + stack.len() as u16;
    for (i, value) in stack.iter().enumerate() {
        machine.ram[256 + i] = *value;
    }
    machine
}

fn run_on_stack(source: &[&str], stack: &[u16]) -> Emulator {
    let mut machine = with_stack(&translate("Test", source), stack);
    run(&mut machine);
    machine
}

#[test]
fn seven_plus_eight_ends_in_local_zero() {
    let text = translate("Test", &["push constant 7", "push constant 8", "add", "pop local 0"]);
    let mut machine = with_stack(&text, &[]);
    machine.ram[1] = 300;
    run(&mut machine);
    assert_eq!(machine.ram[300], 15);
    assert_eq!(machine.ram[0], 256);
}

#[test]
fn sys_init_hands_42_to_the_bootstrap() {
    let units = vec![SourceUnit {
        file_name: "Sys.vm".to_string(),
        contents: "function Sys.init 0\npush constant 42\nreturn\n".to_string(),
    }];
    let text = compile_files(&units).expect("the program is valid").concat();
    let mut machine = assemble(&text);
    run_until_return_to(&mut machine, "Sys.init&ret.0");
    assert_eq!(machine.ram[0], 257);
    assert_eq!(machine.ram[256], 42);
}

#[test]
fn bootstrap_sets_up_the_first_frame() {
    let text = create_bootstrap_code() + "(Sys.init)\n";
    let mut machine = assemble(&text);
    machine.ram[1] = 11;
    machine.ram[2] = 22;
    machine.ram[3] = 33;
    machine.ram[4] = 44;
    let steps = run(&mut machine);
    assert_eq!(steps, 4 + 44);
    assert_eq!(machine.ram[0], 261);
    assert_eq!(machine.ram[256], machine.symbols["Sys.init&ret.0"]);
    assert_eq!(&machine.ram[257..261], &[11, 22, 33, 44]);
    assert_eq!(machine.ram[1], 261);
    assert_eq!(machine.ram[2], 256);
}

#[test]
fn push_then_pop_leaves_cell_and_depth() {
    for (segment, register) in [("local", 1), ("argument", 2), ("this", 3), ("that", 4)] {
        let push = format!("push {} 3", segment);
        let pop = format!("pop {} 3", segment);
        let text = translate("Test", &[&push, &pop]);
        let mut machine = with_stack(&text, &[5, 6]);
        machine.ram[register] = 1000;
        machine.ram[1003] = 77;
        let steps = run(&mut machine);
        assert_eq!(steps, 21);
        assert_eq!(machine.ram[0], 258);
        assert_eq!(machine.ram[1003], 77);
        assert_eq!(&machine.ram[256..258], &[5, 6]);
    }
}

#[test]
fn binary_operators_take_one_cell() {
    let cases: [(&str, u16, u16, u16); 6] = [
        ("add", 7, 8, 15),
        ("add", 0xFFFF, 2, 1),
        ("sub", 7, 8, 0xFFFF),
        ("sub", 20, 5, 15),
        ("and", 0b1100, 0b1010, 0b1000),
        ("or", 0b1100, 0b1010, 0b1110),
    ];
    for (operator, x, y, expected) in cases {
        let machine = run_on_stack(&[operator], &[99, x, y]);
        assert_eq!(machine.ram[0], 258, "{}", operator);
        assert_eq!(machine.ram[257], expected, "{} {} {}", x, operator, y);
        assert_eq!(machine.ram[256], 99);
    }
}

#[test]
fn unary_operators_and_shifts_keep_the_depth() {
    let cases: [(&str, u16, u16); 7] = [
        ("neg", 5, 0xFFFB),
        ("neg", 0, 0),
        ("not", 0, 0xFFFF),
        ("not", 0x00FF, 0xFF00),
        ("shiftleft", 0x4001, 0x8002),
        ("shiftright", 0x8002, 0xC001),
        ("shiftright", 7, 3),
    ];
    for (operator, x, expected) in cases {
        let machine = run_on_stack(&[operator], &[99, x]);
        assert_eq!(machine.ram[0], 258, "{}", operator);
        assert_eq!(machine.ram[257], expected, "{} {}", operator, x);
        assert_eq!(machine.ram[256], 99);
    }
}

#[test]
fn comparisons_give_all_ones_or_all_zeros() {
    let minus_one = 0xFFFF;
    let cases: [(&str, u16, u16, bool); 12] = [
        ("eq", 5, 5, true),
        ("eq", 5, 6, false),
        ("eq", 0, minus_one, false),
        ("gt", 6, 5, true),
        ("gt", 5, 5, false),
        ("gt", 5, 6, false),
        ("gt", 1, minus_one, true),
        ("lt", 5, 6, true),
        ("lt", 5, 5, false),
        ("lt", 6, 5, false),
        ("lt", minus_one, 1, true),
        ("lt", 0, 0x7FFF, true),
    ];
    for (operator, x, y, holds) in cases {
        let mut machine = with_stack(&translate("Test", &[operator]), &[99, x, y]);
        let steps = run(&mut machine);
        assert_eq!(steps, if holds { 10 } else { 12 });
        assert_eq!(machine.ram[0], 258, "{}", operator);
        assert_eq!(machine.ram[257], if holds { 0xFFFF } else { 0 }, "{} {} {}", x, operator, y);
        assert_eq!(machine.ram[256], 99);
    }
}

#[test]
fn comparison_decides_on_the_wrapped_difference() {
    // -32768 - 1 wraps to 32767, so the machine takes -32768 for the greater.
    let machine = run_on_stack(&["gt"], &[0x8000, 1]);
    assert_eq!(machine.ram[257 - 1], 0xFFFF);
}

#[test]
fn two_comparisons_of_a_module_assemble() {
    // The assembler of this file refuses a label that is declared twice.
    let machine = run_on_stack(&["eq", "push constant 3", "gt"], &[4, 4]);
    assert_eq!(machine.ram[0], 257);
    assert_eq!(machine.ram[256], 0);
}

#[test]
fn comparisons_of_two_modules_assemble_and_run() {
    // The assembler of this file refuses a label that is declared twice.
    let text = translate("A", &["eq"]) + &translate("B", &["push constant 3", "gt"]);
    let mut machine = with_stack(&text, &[4, 4]);
    let steps = run(&mut machine);
    assert_eq!(steps, 10 + 6 + 12);
    assert_eq!(machine.ram[0], 257);
    assert_eq!(machine.ram[256], 0);
    assert_eq!(machine.symbols["A%TRUE.1"], 12);
    assert_eq!(machine.symbols["B%TRUE.1"], 15 + 6 + 12);
}

#[test]
fn a_function_named_true_1_does_not_catch_a_comparison() {
    let source = ["eq", "call TRUE.1 0", "function TRUE.1 0", "push constant 9", "return"];
    let mut machine = with_stack(&translate("Test", &source), &[4, 4]);
    run_until_return_to(&mut machine, "TRUE.1&ret.1");
    assert_ne!(machine.symbols["TRUE.1"], machine.symbols["Test%TRUE.1"]);
    assert_eq!(machine.ram[0], 258);
    assert_eq!(&machine.ram[256..258], &[0xFFFF, 9]);
}

#[test]
fn push_reads_every_segment() {
    let text = translate(
        "Mod",
        &[
            "push constant 17",
            "push local 2",
            "push argument 1",
            "push this 0",
            "push that 4",
            "push temp 6",
            "push pointer 0",
            "push pointer 1",
            "push static 3",
        ],
    );
    let mut machine = with_stack(&text, &[]);
    machine.ram[1] = 300;
    machine.ram[2] = 400;
    machine.ram[3] = 3000;
    machine.ram[4] = 3010;
    machine.ram[302] = 1;
    machine.ram[401] = 2;
    machine.ram[3000] = 3;
    machine.ram[3014] = 4;
    machine.ram[11] = 5;
    let cell = machine.symbols["Mod.3"] as usize;
    assert!(cell >= 16);
    machine.ram[cell] = 6;
    run(&mut machine);
    assert_eq!(machine.ram[0], 265);
    assert_eq!(&machine.ram[256..265], &[17, 1, 2, 3, 4, 5, 3000, 3010, 6]);
}

#[test]
fn pop_writes_every_segment() {
    let text = translate(
        "Mod",
        &[
            "pop local 2",
            "pop argument 1",
            "pop this 0",
            "pop that 4",
            "pop temp 6",
            "pop static 3",
            "pop pointer 0",
            "pop pointer 1",
        ],
    );
    let mut machine = with_stack(&text, &[8, 7, 6, 5, 4, 3, 2, 1]);
    machine.ram[1] = 300;
    machine.ram[2] = 400;
    machine.ram[3] = 3000;
    machine.ram[4] = 3010;
    run(&mut machine);
    assert_eq!(machine.ram[0], 256);
    assert_eq!(machine.ram[302], 1);
    assert_eq!(machine.ram[401], 2);
    assert_eq!(machine.ram[3000], 3);
    assert_eq!(machine.ram[3014], 4);
    assert_eq!(machine.ram[11], 5);
    assert_eq!(machine.ram[machine.symbols["Mod.3"] as usize], 6);
    assert_eq!(machine.ram[3], 7);
    assert_eq!(machine.ram[4], 8);
}

#[test]
fn statics_of_two_modules_are_different_cells() {
    let text = translate("A", &["push constant 1", "pop static 0"])
        + &translate("B", &["push constant 2", "pop static 0", "push static 0"]);
    let mut machine = with_stack(&text, &[]);
    run(&mut machine);
    assert_ne!(machine.symbols["A.0"], machine.symbols["B.0"]);
    assert_eq!(machine.ram[machine.symbols["A.0"] as usize], 1);
    assert_eq!(machine.ram[machine.symbols["B.0"] as usize], 2);
    assert_eq!(machine.ram[256], 2);
}

#[test]
fn if_goto_jumps_on_true_and_on_any_other_non_zero() {
    let source = [
        "if-goto SKIP",
        "push constant 1",
        "goto END",
        "label SKIP",
        "push constant 2",
        "label END",
    ];
    for (condition, expected) in [(0xFFFF, 2), (5, 2), (0, 1)] {
        let machine = run_on_stack(&source, &[condition]);
        assert_eq!(machine.ram[0], 257);
        assert_eq!(machine.ram[256], expected);
    }
}

#[test]
fn function_head_pushes_a_zero_for_each_local() {
    let mut machine = with_stack(&translate("Test", &["function Test.f 3"]), &[9]);
    machine.ram[257] = 1;
    machine.ram[258] = 1;
    machine.ram[259] = 1;
    let steps = run(&mut machine);
    assert_eq!(steps, 18);
    assert_eq!(machine.ram[0], 260);
    assert_eq!(&machine.ram[256..260], &[9, 0, 0, 0]);
    assert_eq!(machine.symbols["Test.f"], 0);
}

#[test]
fn call_of_an_empty_function_restores_the_caller() {
    for (n_locals, expected_top) in [(0u16, 44u16), (2, 0)] {
        let function = format!("function Test.f {}", n_locals);
        let source = ["call Test.f 2", &function, "return"];
        let mut machine = with_stack(&translate("Test", &source), &[5, 6, 7]);
        machine.ram[1] = 11;
        machine.ram[2] = 22;
        machine.ram[3] = 33;
        machine.ram[4] = 44;
        let steps = run_until_return_to(&mut machine, "Test.f&ret.1");
        assert_eq!(steps, 44 + 6 * n_locals as usize + 48);
        assert_eq!(machine.pc, 44);
        assert_eq!(&machine.ram[1..5], &[11, 22, 33, 44]);
        assert_eq!(machine.ram[0], 258);
        assert_eq!(&machine.ram[256..258], &[5, expected_top]);
    }
}

#[test]
fn call_passes_arguments_and_takes_the_result() {
    let source = [
        "push constant 30",
        "push constant 12",
        "call Test.sum 2",
        "push constant 1",
        "add",
        "function Test.sum 1",
        "push argument 0",
        "push argument 1",
        "add",
        "pop local 0",
        "push local 0",
        "return",
    ];
    let mut machine = with_stack(&translate("Test", &source), &[5]);
    machine.ram[1] = 11;
    machine.ram[2] = 22;
    machine.ram[3] = 33;
    machine.ram[4] = 44;
    run_until_return_to(&mut machine, "Test.sum&ret.1");
    assert_eq!(&machine.ram[1..5], &[11, 22, 33, 44]);
    assert_eq!(machine.ram[0], 258);
    assert_eq!(&machine.ram[256..258], &[5, 42]);
    for _ in 0..11 {
        step(&mut machine);
    }
    assert_eq!(machine.ram[0], 258);
    assert_eq!(&machine.ram[256..258], &[5, 43]);
}

#[test]
fn call_without_arguments_keeps_its_return_address() {
    let source = [
        "call Test.nine 0",
        "call Test.nine 0",
        "add",
        "function Test.nine 0",
        "push constant 9",
        "return",
    ];
    let mut machine = with_stack(&translate("Test", &source), &[]);
    run_until_return_to(&mut machine, "Test.nine&ret.1");
    assert_eq!(machine.ram[0], 257);
    assert_eq!(machine.ram[256], 9);
    run_until_return_to(&mut machine, "Test.nine&ret.2");
    assert_eq!(machine.ram[0], 258);
    for _ in 0..5 {
        step(&mut machine);
    }
    assert_eq!(machine.ram[0], 257);
    assert_eq!(machine.ram[256], 18);
}

#[test]
fn recursion_computes_a_factorial() {
    let units = vec![
        SourceUnit {
            file_name: "Main.vm".to_string(),
            contents: "\
function Main.fact 0
push argument 0
push constant 2
lt
if-goto BASE
push argument 0
push constant 1
sub
call Main.fact 1
pop temp 0      // the result of the smaller problem
push constant 0
pop temp 1
label LOOP      // multiplies by adding
push temp 0
push constant 0
eq
if-goto DONE
push temp 1
push argument 0
add
pop temp 1
push temp 0
push constant 1
sub
pop temp 0
goto LOOP
label DONE
push temp 1
return
label BASE
push constant 1
return
"
            .to_string(),
        },
        SourceUnit {
            file_name: "Sys.vm".to_string(),
            contents: "function Sys.init 0\npush constant 5\ncall Main.fact 1\nreturn\n"
                .to_string(),
        },
    ];
    let text = compile_files(&units).expect("the program is valid").concat();
    let mut machine = assemble(&text);
    run_until_return_to(&mut machine, "Sys.init&ret.0");
    assert_eq!(machine.ram[0], 257);
    assert_eq!(machine.ram[256], 120);
}
