use vm_translator::compiler::create_bootstrap_code;
use vm_translator::error::{
    CompileError, ParseError, ParseFailure, TranslationError, TranslationFailure, UnitError,
};
use vm_translator::ledger::CallLedger;
use vm_translator::program::{
    compile_file, compile_files, create_vm_file_path, is_source_unit, module_name, source_lines,
    SourceUnit,
};
use vm_translator::text::{
    chars_of, parse_number, push_decimal, spells, string_of, to_lower,
};

fn unit(file_name: &str, contents: &str) -> SourceUnit {
    SourceUnit { file_name: file_name.to_string(), contents: contents.to_string() }
}

#[test]
fn source_lines_split_at_line_feeds() {
    assert_eq!(source_lines("add\nsub"), vec!["add", "sub"]);
    assert_eq!(source_lines("add\nsub\n"), vec!["add", "sub", ""]);
    assert_eq!(source_lines("add\r\n\nsub"), vec!["add\r", "", "sub"]);
    assert_eq!(source_lines(""), vec![""]);
    assert_eq!(source_lines("\n"), vec!["", ""]);
}

#[test]
fn module_names_are_file_stems() {
    assert_eq!(module_name("Main.vm"), "Main");
    assert_eq!(module_name("Main.test.vm"), "Main.test");
    assert_eq!(module_name("Main"), "Main");
    assert_eq!(module_name(".hidden"), ".hidden");
    assert_eq!(module_name(".hidden.vm"), ".hidden");
    assert_eq!(module_name("Main."), "Main");
    assert_eq!(module_name(""), "");
}

#[test]
fn source_units_end_in_vm() {
    assert!(is_source_unit("Main.vm"));
    assert!(is_source_unit("Main.VM"));
    assert!(is_source_unit("a.b.Vm"));
    assert!(is_source_unit(".x.vm"));
    assert!(!is_source_unit("Main.asm"));
    assert!(!is_source_unit("Main.vm.bak"));
    assert!(!is_source_unit("Main.vmx"));
    assert!(!is_source_unit("vm"));
    assert!(!is_source_unit(".vm"));
    assert!(!is_source_unit("Main."));
    assert!(!is_source_unit(""));
}

#[test]
fn assembly_file_names() {
    assert_eq!(create_vm_file_path("Main.vm"), "Main.asm");
    assert_eq!(create_vm_file_path("project"), "project.asm");
    assert_eq!(create_vm_file_path("project.v1"), "project.asm");
    assert_eq!(create_vm_file_path(".hidden"), ".hidden.asm");
}

#[test]
fn a_program_starts_with_the_bootstrap() {
    assert_eq!(compile_files(&Vec::new()), Ok(vec![create_bootstrap_code()]));
    let texts = compile_files(&vec![unit("Main.vm", "push constant 1\nneg\n")]).unwrap();
    assert_eq!(texts.len(), 3);
    assert_eq!(texts[0], create_bootstrap_code());
    assert_eq!(texts[1], "@1\nD=A\n@SP\nAM=M+1\nA=A-1\nM=D\n");
    assert_eq!(texts[2], "@SP\nA=M-1\nM=-M\n");
}

#[test]
fn units_are_translated_in_the_order_given() {
    let units = vec![
        unit("B.vm", "push static 0"),
        unit("notes.txt", "this is no VM code"),
        unit("A.vm", "push static 0"),
    ];
    let texts = compile_files(&units).unwrap();
    assert_eq!(texts.len(), 3);
    assert!(texts[1].starts_with("@B.0\n"));
    assert!(texts[2].starts_with("@A.0\n"));
}

#[test]
fn units_share_the_call_ledger_but_not_the_comparison_count() {
    let units = vec![unit("A.vm", "call f 0\neq"), unit("B.vm", "call f 0\neq")];
    let texts = compile_files(&units).unwrap();
    assert_eq!(texts.len(), 5);
    assert!(texts[1].ends_with("(f&ret.1)\n"));
    assert!(texts[3].ends_with("(f&ret.2)\n"));
    assert!(texts[2].ends_with("(A%TRUE.1)\n@SP\nA=M-1\nM=-1\n(A%CONTINUE.1)\n"));
    assert!(texts[4].ends_with("(B%TRUE.1)\n@SP\nA=M-1\nM=-1\n(B%CONTINUE.1)\n"));
}

#[test]
fn every_label_of_a_program_is_declared_once() {
    let units = vec![
        unit(
            "Main.vm",
            "function Main.main 0\nlabel L\neq\ncall Lib.f 0\nlt\ncall Lib.f 0\nreturn",
        ),
        unit("Lib.vm", "function Lib.f 1\neq\ngt\nlabel L\ncall Lib.f 1\nreturn"),
        unit("Sys.vm", "function Sys.init 0\nlabel L\neq\ncall Main.main 0\ngoto L"),
    ];
    let text = compile_files(&units).unwrap().concat();
    let mut labels: Vec<&str> = text.lines().filter(|line| line.starts_with('(')).collect();
    let declared = labels.len();
    assert_eq!(declared, 1 + 3 + 4 + 3 + 2 * 5);
    labels.sort();
    labels.dedup();
    assert_eq!(labels.len(), declared);
}

#[test]
fn malformed_push_yields_no_output() {
    let units = vec![unit("Main.vm", "push constant 1\npush constant\n")];
    assert_eq!(
        compile_files(&units),
        Err(CompileError {
            unit: 0,
            error: UnitError::Parse(ParseFailure { line: 1, error: ParseError::MissingOperand }),
        })
    );
}

#[test]
fn a_rejected_unit_stops_the_program() {
    let units = vec![
        unit("A.vm", "add"),
        unit("skipped.txt", "push"),
        unit("B.vm", "add\n\npop constant 1"),
        unit("C.vm", "push"),
    ];
    assert_eq!(
        compile_files(&units),
        Err(CompileError {
            unit: 2,
            error: UnitError::Translation(TranslationFailure {
                index: 1,
                error: TranslationError::InvalidPopFromConstant,
            }),
        })
    );
}

#[test]
fn compile_file_reads_and_translates() {
    let mut ledger = CallLedger::new();
    let texts = compile_file("Main.vm", "call f 1 // first\n\ncall f 1\npop static 2", &mut ledger)
        .unwrap();
    assert_eq!(texts.len(), 3);
    assert!(texts[0].starts_with("@f&ret.1\n"));
    assert!(texts[1].starts_with("@f&ret.2\n"));
    assert!(texts[2].ends_with("@Main.2\nM=D\n"));
    assert_eq!(ledger.next_index(&"f".to_string()), "3");
    assert_eq!(
        compile_file("Main.vm", "push pointer 2", &mut ledger),
        Err(UnitError::Translation(TranslationFailure {
            index: 0,
            error: TranslationError::UnmappedInstruction,
        }))
    );
    assert_eq!(
        compile_file("Main.vm", "push pointer", &mut ledger),
        Err(UnitError::Parse(ParseFailure { line: 0, error: ParseError::MissingOperand }))
    );
}

#[test]
fn strings_are_built_character_by_character() {
    let chars = chars_of("Sys.init\u{e9}");
    assert_eq!(chars, vec!['S', 'y', 's', '.', 'i', 'n', 'i', 't', '\u{e9}']);
    assert_eq!(string_of(&chars), "Sys.init\u{e9}");
    assert_eq!(string_of(&Vec::new()), "");
    assert_eq!(to_lower(&chars_of("ThAt-\u{c9}Z")), chars_of("that-\u{c9}z"));
    assert!(spells(&chars_of("push"), "push"));
    assert!(!spells(&chars_of("push"), "pushx"));
    assert!(!spells(&chars_of("pusH"), "push"));
}

#[test]
fn decimal_numerals() {
    let numeral = |n: u64| {
        let mut text = String::from("n=");
        push_decimal(&mut text, n);
        text
    };
    assert_eq!(numeral(0), "n=0");
    assert_eq!(numeral(9), "n=9");
    assert_eq!(numeral(10), "n=10");
    assert_eq!(numeral(65540), "n=65540");
    assert_eq!(numeral(u64::MAX), "n=18446744073709551615");
    assert_eq!(parse_number(&chars_of("0")), Some(0));
    assert_eq!(parse_number(&chars_of("65535")), Some(65535));
    assert_eq!(parse_number(&chars_of("+7")), Some(7));
    assert_eq!(parse_number(&chars_of("000000000000000000000012")), Some(12));
    assert_eq!(parse_number(&chars_of("65536")), None);
    assert_eq!(parse_number(&chars_of("99999999999999999999999")), None);
    assert_eq!(parse_number(&chars_of("")), None);
    assert_eq!(parse_number(&chars_of("+")), None);
    assert_eq!(parse_number(&chars_of("++1")), None);
    assert_eq!(parse_number(&chars_of("-1")), None);
    assert_eq!(parse_number(&chars_of("1 ")), None);
    assert_eq!(parse_number(&chars_of("\u{664}")), None);
}
