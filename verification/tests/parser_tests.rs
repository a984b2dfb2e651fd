use vm_translator::error::{ParseError, ParseFailure};
use vm_translator::instructions::{
    ArithmeticType, BinaryArithmeticOperator, Call, Function, Instruction, Label, Pop, Push,
    Segment, ShiftArithmeticOperator, UnaryArithmeticOperator,
};
use vm_translator::ledger::CallLedger;
use vm_translator::parser::{
    clear_whitespace, operand_function, operand_gotos, operand_memory, operator, parse,
    split_words,
};

fn lines(text: &[&str]) -> Vec<String> {
    text.iter().map(|l| l.to_string()).collect()
}

fn read(text: &[&str]) -> Result<Vec<Instruction>, ParseFailure> {
    parse(lines(text), &mut CallLedger::new())
}

fn words(text: &[&str]) -> Vec<Vec<char>> {
    text.iter().map(|w| w.chars().collect()).collect()
}

fn label(parent: &str, name: &str) -> Label {
    Label::new(&parent.to_string(), &name.to_string())
}

fn rejected(line: usize, error: ParseError) -> Result<Vec<Instruction>, ParseFailure> {
    Err(ParseFailure { line, error })
}

#[test]
fn parses_push_and_add() {
    assert_eq!(
        read(&["push constant 7", "push constant 8", "add"]),
        Ok(vec![
            Instruction::CPush(Push::new(Segment::Constant, 7)),
            Instruction::CPush(Push::new(Segment::Constant, 8)),
            Instruction::CArithmetic(ArithmeticType::Binary(BinaryArithmeticOperator::Add)),
        ])
    );
}

#[test]
fn every_operator_keyword_is_known() {
    let binary = |op| Instruction::CArithmetic(ArithmeticType::Binary(op));
    let unary = |op| Instruction::CArithmetic(ArithmeticType::Unary(op));
    let shift = |op| Instruction::CArithmetic(ArithmeticType::Shift(op));
    assert_eq!(
        read(&[
            "add", "sub", "neg", "and", "or", "not", "shiftleft", "shiftright", "eq", "gt", "lt"
        ]),
        Ok(vec![
            binary(BinaryArithmeticOperator::Add),
            binary(BinaryArithmeticOperator::Subtract),
            unary(UnaryArithmeticOperator::Negate),
            binary(BinaryArithmeticOperator::And),
            binary(BinaryArithmeticOperator::Or),
            unary(UnaryArithmeticOperator::Not),
            shift(ShiftArithmeticOperator::ShiftLeft),
            shift(ShiftArithmeticOperator::ShiftRight),
            binary(BinaryArithmeticOperator::Eq),
            binary(BinaryArithmeticOperator::Gt),
            binary(BinaryArithmeticOperator::Lt),
        ])
    );
    assert_eq!(operator(&"ADD".chars().collect()), None);
}

#[test]
fn every_segment_is_known_in_any_case() {
    assert_eq!(
        read(&[
            "push argument 0",
            "push LOCAL 1",
            "push Static 2",
            "push constant 3",
            "pop this 4",
            "pop tHaT 5",
            "pop pointer 1",
            "pop TEMP 7",
        ]),
        Ok(vec![
            Instruction::CPush(Push::new(Segment::Argument, 0)),
            Instruction::CPush(Push::new(Segment::Local, 1)),
            Instruction::CPush(Push::new(Segment::Static, 2)),
            Instruction::CPush(Push::new(Segment::Constant, 3)),
            Instruction::CPop(Pop::new(Segment::This, 4)),
            Instruction::CPop(Pop::new(Segment::That, 5)),
            Instruction::CPop(Pop::new(Segment::Pointer, 1)),
            Instruction::CPop(Pop::new(Segment::Temp, 7)),
        ])
    );
}

#[test]
fn segment_from_names() {
    assert_eq!(Segment::from("argument"), Ok(Segment::Argument));
    assert_eq!(Segment::from("Pointer"), Ok(Segment::Pointer));
    assert_eq!(Segment::from("locals"), Err(ParseError::UnknownSegment));
    assert_eq!(Segment::from(""), Err(ParseError::UnknownSegment));
    assert_eq!(Segment::from("the\u{212A}"), Err(ParseError::UnknownSegment));
}

#[test]
fn comments_blank_lines_and_whitespace_are_dropped() {
    assert_eq!(
        read(&[
            "// a module",
            "",
            "   \t  ",
            "  push   constant \t 7   // seven",
            "add// no space before the comment",
            "\tsub\r",
            "   // only a comment",
        ]),
        Ok(vec![
            Instruction::CPush(Push::new(Segment::Constant, 7)),
            Instruction::CArithmetic(ArithmeticType::Binary(BinaryArithmeticOperator::Add)),
            Instruction::CArithmetic(ArithmeticType::Binary(BinaryArithmeticOperator::Subtract)),
        ])
    );
}

#[test]
fn clear_whitespace_cuts_comment_and_trims() {
    let cleaned = |line: &str| clear_whitespace(line).into_iter().collect::<String>();
    assert_eq!(cleaned("  push local 1  // x"), "push local 1");
    assert_eq!(cleaned("push  local\t1"), "push  local\t1");
    assert_eq!(cleaned("// nothing"), "");
    assert_eq!(cleaned("a / b"), "a / b");
    assert_eq!(cleaned("a /"), "a /");
    assert_eq!(cleaned("/"), "/");
    assert_eq!(cleaned("a//b//c"), "a");
    assert_eq!(cleaned("\u{2003}add\u{a0}"), "add");
    assert_eq!(cleaned(""), "");
}

#[test]
fn split_words_at_any_whitespace() {
    let split = |line: &str| {
        split_words(&line.chars().collect())
            .into_iter()
            .map(|w| w.into_iter().collect::<String>())
            .collect::<Vec<String>>()
    };
    assert_eq!(split("push local 1"), vec!["push", "local", "1"]);
    assert_eq!(split("  a\t\tb \u{3000}c  "), vec!["a", "b", "c"]);
    assert_eq!(split(""), Vec::<String>::new());
    assert_eq!(split("   "), Vec::<String>::new());
    assert_eq!(split("x"), vec!["x"]);
}

#[test]
fn missing_index_is_rejected() {
    assert_eq!(read(&["push constant"]), rejected(0, ParseError::MissingOperand));
}

#[test]
fn missing_operands_are_rejected() {
    let incomplete =
        ["push", "pop local", "label", "goto", "if-goto", "function", "function f", "call", "call f"];
    for line in incomplete {
        assert_eq!(read(&[line]), rejected(0, ParseError::MissingOperand), "{}", line);
    }
    // That an operand is missing is seen before the segment is looked at.
    assert_eq!(read(&["push nowhere"]), rejected(0, ParseError::MissingOperand));
}

#[test]
fn unknown_segment_is_rejected() {
    assert_eq!(read(&["push heap 3"]), rejected(0, ParseError::UnknownSegment));
    assert_eq!(read(&["pop const 3"]), rejected(0, ParseError::UnknownSegment));
    // The segment is looked at before the index.
    assert_eq!(read(&["push heap x"]), rejected(0, ParseError::UnknownSegment));
}

#[test]
fn invalid_instructions_are_rejected() {
    for line in [
        "jump",
        "pushx local 1",
        "PUSH local 1",
        "push local one",
        "push local -1",
        "push local 65536",
        "push local 1.5",
        "push local +",
        "function f many",
        "call f 99999",
        "add 1",
        "returns",
        "labelx y",
    ] {
        assert_eq!(read(&[line]), rejected(0, ParseError::InvalidInstruction), "{}", line);
    }
}

#[test]
fn numbers_are_16_bit_decimals() {
    assert_eq!(
        read(&[
            "push constant 0",
            "push constant 65535",
            "push constant +12",
            "push constant 0042"
        ]),
        Ok(vec![
            Instruction::CPush(Push::new(Segment::Constant, 0)),
            Instruction::CPush(Push::new(Segment::Constant, 65535)),
            Instruction::CPush(Push::new(Segment::Constant, 12)),
            Instruction::CPush(Push::new(Segment::Constant, 42)),
        ])
    );
}

#[test]
fn words_behind_the_operands_are_ignored() {
    assert_eq!(
        read(&["push local 1 2 3", "return now", "label A B", "function f 2 x", "goto A B"]),
        Ok(vec![
            Instruction::CPush(Push::new(Segment::Local, 1)),
            Instruction::CReturn,
            Instruction::CLabel(label("", "A")),
            Instruction::CFunction(Function::new(&"f".to_string(), 2)),
            Instruction::CGoto(label("f", "A")),
        ])
    );
}

#[test]
fn the_first_rejected_line_is_reported() {
    assert_eq!(
        read(&["add", "", "// fine", "push nowhere 1", "push constant"]),
        rejected(3, ParseError::UnknownSegment)
    );
}

#[test]
fn labels_belong_to_the_function_being_read() {
    assert_eq!(
        read(&[
            "label TOP",
            "goto TOP",
            "function Main.run 2",
            "label LOOP",
            "if-goto LOOP",
            "goto LOOP",
            "function Main.stop 0",
            "label LOOP",
            "return",
        ]),
        Ok(vec![
            Instruction::CLabel(label("", "TOP")),
            Instruction::CGoto(label("", "TOP")),
            Instruction::CFunction(Function::new(&"Main.run".to_string(), 2)),
            Instruction::CLabel(label("Main.run", "LOOP")),
            Instruction::CIf(label("Main.run", "LOOP")),
            Instruction::CGoto(label("Main.run", "LOOP")),
            Instruction::CFunction(Function::new(&"Main.stop".to_string(), 0)),
            Instruction::CLabel(label("Main.stop", "LOOP")),
            Instruction::CReturn,
        ])
    );
}

#[test]
fn a_call_makes_its_callee_the_owner_of_later_labels() {
    assert_eq!(
        read(&["function Main.run 0", "label A", "call Lib.f 1", "label B"]),
        Ok(vec![
            Instruction::CFunction(Function::new(&"Main.run".to_string(), 0)),
            Instruction::CLabel(label("Main.run", "A")),
            Instruction::CCall(Call::new(&"Lib.f".to_string(), &"Lib.f&ret.1".to_string(), 1)),
            Instruction::CLabel(label("Lib.f", "B")),
        ])
    );
}

#[test]
fn qualified_label_names() {
    assert_eq!(label("Main.run", "LOOP").extract_label_name(), "Main.run$LOOP");
    assert_eq!(label("", "LOOP").extract_label_name(), "null$LOOP");
    assert_eq!(label("f", "").extract_label_name(), "f$");
}

#[test]
fn calls_get_rising_indices() {
    let mut ledger = CallLedger::new();
    let parsed = parse(
        lines(&["call Main.f 2", "call Main.g 0", "call Main.f 0", "call Main.f 7"]),
        &mut ledger,
    );
    let call = |name: &str, label: &str, n| {
        Instruction::CCall(Call::new(&name.to_string(), &label.to_string(), n))
    };
    assert_eq!(
        parsed,
        Ok(vec![
            call("Main.f", "Main.f&ret.1", 2),
            call("Main.g", "Main.g&ret.1", 0),
            call("Main.f", "Main.f&ret.2", 0),
            call("Main.f", "Main.f&ret.3", 7),
        ])
    );
    assert_eq!(ledger.next_index(&"Main.f".to_string()), "4");
    assert_eq!(ledger.next_index(&"Main.g".to_string()), "2");
    assert_eq!(ledger.next_index(&"Main.h".to_string()), "1");
}

#[test]
fn call_indices_go_on_in_the_next_module() {
    let mut ledger = CallLedger::new();
    let first = parse(lines(&["call Lib.f 0", "call Lib.f 0"]), &mut ledger).unwrap();
    let second = parse(lines(&["call Lib.f 0", "call Lib.g 0"]), &mut ledger).unwrap();
    let labels: Vec<String> = first
        .iter()
        .chain(second.iter())
        .map(|instruction| match instruction {
            Instruction::CCall(call) => call.return_address_label.clone(),
            other => panic!("not a call: {:?}", other),
        })
        .collect();
    assert_eq!(labels, vec!["Lib.f&ret.1", "Lib.f&ret.2", "Lib.f&ret.3", "Lib.g&ret.1"]);
}

#[test]
fn many_calls_get_many_different_labels() {
    let mut ledger = CallLedger::new();
    let source: Vec<String> =
        (0..300).map(|i| format!("call F{} 0", i % 7)).collect();
    let parsed = parse(source, &mut ledger).unwrap();
    let mut labels: Vec<String> = parsed
        .iter()
        .map(|instruction| match instruction {
            Instruction::CCall(call) => call.return_address_label.clone(),
            other => panic!("not a call: {:?}", other),
        })
        .collect();
    assert!(labels.contains(&"F0&ret.43".to_string()));
    assert!(labels.contains(&"F6&ret.42".to_string()));
    labels.sort();
    labels.dedup();
    assert_eq!(labels.len(), 300);
    assert_eq!(ledger.next_index(&"F0".to_string()), "44");
    assert_eq!(ledger.next_index(&"F6".to_string()), "43");
}

#[test]
fn a_rejected_line_keeps_the_calls_before_it() {
    let mut ledger = CallLedger::new();
    let parsed = parse(lines(&["call f 0", "call f", "call f 0"]), &mut ledger);
    assert_eq!(parsed, rejected(1, ParseError::MissingOperand));
    assert_eq!(ledger.next_index(&"f".to_string()), "2");
}

#[test]
fn a_fresh_ledger_starts_every_function_at_one() {
    let mut ledger = CallLedger::new();
    assert_eq!(ledger.next_index(&"f".to_string()), "1");
    assert_eq!(ledger.issue(&"f".to_string()), "1");
    assert_eq!(ledger.issue(&"f".to_string()), "2");
    assert_eq!(ledger.issue(&"g".to_string()), "1");
    assert_eq!(ledger.next_index(&"f".to_string()), "3");
    assert_eq!(ledger.next_index(&"g".to_string()), "2");
}

#[test]
fn the_ledger_counts_past_every_power_of_ten() {
    let mut ledger = CallLedger::new();
    let name = "f".to_string();
    for expected in 1..=1234u32 {
        assert_eq!(ledger.issue(&name), expected.to_string());
    }
    assert_eq!(ledger.next_index(&name), "1235");
}

#[test]
fn line_readers_pass_over_other_lines() {
    assert_eq!(operand_memory(&words(&["goto", "A"])), None);
    assert_eq!(operand_gotos(&words(&["push", "local", "1"]), &String::new()), None);
    let mut current = "Main.run".to_string();
    assert_eq!(operand_function(&words(&["call", "f", "1"]), &mut current), None);
    assert_eq!(current, "Main.run");
    assert_eq!(
        operand_function(&words(&["function", "g", "x"]), &mut current),
        Some(Err(ParseError::InvalidInstruction))
    );
    assert_eq!(current, "Main.run");
    assert_eq!(
        operand_function(&words(&["function", "g", "1"]), &mut current),
        Some(Ok(Instruction::CFunction(Function::new(&"g".to_string(), 1))))
    );
    assert_eq!(current, "g");
    assert_eq!(
        operand_gotos(&words(&["if-goto", "A"]), &current),
        Some(Ok(Instruction::CIf(label("g", "A"))))
    );
    assert_eq!(
        operand_memory(&words(&["pop", "that", "2"])),
        Some(Ok(Instruction::CPop(Pop::new(Segment::That, 2))))
    );
}
