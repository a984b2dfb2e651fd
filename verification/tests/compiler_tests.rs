use vm_translator::assembly::{render, Asm, Comp, Dest, Jump, Operand, Register};
use vm_translator::compiler::{
    compile, create_arithmetic_operator, create_bootstrap_code, create_call_operator,
    create_call_push, create_function_operator, create_goto_operator, create_if_operator,
    create_label_operator, create_pop_operator, create_push_operator, create_return_operator,
};
use vm_translator::error::{TranslationError, TranslationFailure};
use vm_translator::instructions::{
    ArithmeticType, BinaryArithmeticOperator, Call, Function, Instruction, Label, Pop, Push,
    Segment, ShiftArithmeticOperator, UnaryArithmeticOperator,
};

const PUSH_D: &str = "@SP\nAM=M+1\nA=A-1\nM=D\n";
const POP_D: &str = "@SP\nAM=M-1\nD=M\n";

fn push(segment: Segment, index: u16, module: &str) -> String {
    render(&create_push_operator(&Push::new(segment, index), module).unwrap())
}

fn pop(segment: Segment, index: u16, module: &str) -> String {
    render(&create_pop_operator(&Pop::new(segment, index), module).unwrap())
}

fn arithmetic(operator: ArithmeticType, count: &mut u64) -> String {
    render(&create_arithmetic_operator(operator, "Main", count))
}

fn binary(operator: BinaryArithmeticOperator) -> Instruction {
    Instruction::CArithmetic(ArithmeticType::Binary(operator))
}

#[test]
fn renders_every_form_of_instruction() {
    let code = vec![
        Asm::At(Operand::Constant(0)),
        Asm::At(Operand::Constant(32767)),
        Asm::At(Operand::Register(Register::R13)),
        Asm::At(Operand::Symbol("Main.run$LOOP".to_string())),
        Asm::Compute { dest: Dest::AMD, comp: Comp::DPlusOne, jump: Jump::JLE },
        Asm::Compute { dest: Dest::Nowhere, comp: Comp::Zero, jump: Jump::JMP },
        Asm::Compute { dest: Dest::MD, comp: Comp::NotA, jump: Jump::Never },
        Asm::Label("Main.run".to_string()),
    ];
    assert_eq!(
        render(&code),
        "@0\n@32767\n@R13\n@Main.run$LOOP\nAMD=D+1;JLE\n0;JMP\nMD=!A\n(Main.run)\n"
    );
    assert_eq!(render(&Vec::new()), "");
}

#[test]
fn renders_every_register_and_mnemonic() {
    let registers = [
        Register::SP,
        Register::LCL,
        Register::ARG,
        Register::THIS,
        Register::THAT,
        Register::R13,
        Register::R14,
        Register::R15,
    ];
    let names: Vec<&str> = registers.iter().map(|r| r.text()).collect();
    assert_eq!(names, ["SP", "LCL", "ARG", "THIS", "THAT", "R13", "R14", "R15"]);
    let comps = [
        Comp::Zero, Comp::One, Comp::MinusOne, Comp::D, Comp::A, Comp::M, Comp::NotD,
        Comp::NotA, Comp::NotM, Comp::NegD, Comp::NegA, Comp::NegM, Comp::DPlusOne,
        Comp::APlusOne, Comp::MPlusOne, Comp::DMinusOne, Comp::AMinusOne, Comp::MMinusOne,
        Comp::DPlusA, Comp::DPlusM, Comp::DMinusA, Comp::DMinusM, Comp::AMinusD,
        Comp::MMinusD, Comp::DAndA, Comp::DAndM, Comp::DOrA, Comp::DOrM, Comp::ShiftLeftM,
        Comp::ShiftRightM,
    ];
    let mnemonics: Vec<&str> = comps.iter().map(|c| c.text()).collect();
    assert_eq!(
        mnemonics,
        [
            "0", "1", "-1", "D", "A", "M", "!D", "!A", "!M", "-D", "-A", "-M", "D+1", "A+1",
            "M+1", "D-1", "A-1", "M-1", "D+A", "D+M", "D-A", "D-M", "A-D", "M-D", "D&A", "D&M",
            "D|A", "D|M", "M<<", "M>>"
        ]
    );
    let dests = [
        Dest::Nowhere, Dest::M, Dest::D, Dest::MD, Dest::A, Dest::AM, Dest::AD, Dest::AMD,
    ];
    let prefixes: Vec<&str> = dests.iter().map(|d| d.text()).collect();
    assert_eq!(prefixes, ["", "M=", "D=", "MD=", "A=", "AM=", "AD=", "AMD="]);
    let jumps = [
        Jump::Never, Jump::JGT, Jump::JEQ, Jump::JGE, Jump::JLT, Jump::JNE, Jump::JLE, Jump::JMP,
    ];
    let suffixes: Vec<&str> = jumps.iter().map(|j| j.text()).collect();
    assert_eq!(suffixes, ["", ";JGT", ";JEQ", ";JGE", ";JLT", ";JNE", ";JLE", ";JMP"]);
}

#[test]
fn push_of_each_segment() {
    assert_eq!(push(Segment::Constant, 7, "M"), format!("@7\nD=A\n{}", PUSH_D));
    assert_eq!(push(Segment::Constant, 65535, "M"), format!("@65535\nD=A\n{}", PUSH_D));
    assert_eq!(push(Segment::Local, 2, "M"), format!("@LCL\nD=M\n@2\nA=D+A\nD=M\n{}", PUSH_D));
    assert_eq!(push(Segment::Argument, 0, "M"), format!("@ARG\nD=M\n@0\nA=D+A\nD=M\n{}", PUSH_D));
    assert_eq!(push(Segment::This, 10, "M"), format!("@THIS\nD=M\n@10\nA=D+A\nD=M\n{}", PUSH_D));
    assert_eq!(push(Segment::That, 1, "M"), format!("@THAT\nD=M\n@1\nA=D+A\nD=M\n{}", PUSH_D));
    assert_eq!(push(Segment::Temp, 0, "M"), format!("@5\nD=M\n{}", PUSH_D));
    assert_eq!(push(Segment::Temp, 7, "M"), format!("@12\nD=M\n{}", PUSH_D));
    assert_eq!(push(Segment::Temp, 65535, "M"), format!("@65540\nD=M\n{}", PUSH_D));
    assert_eq!(push(Segment::Pointer, 0, "M"), format!("@THIS\nD=M\n{}", PUSH_D));
    assert_eq!(push(Segment::Pointer, 1, "M"), format!("@THAT\nD=M\n{}", PUSH_D));
    assert_eq!(push(Segment::Static, 3, "Main"), format!("@Main.3\nD=M\n{}", PUSH_D));
    assert_eq!(push(Segment::Static, 120, "a.b"), format!("@a.b.120\nD=M\n{}", PUSH_D));
}

#[test]
fn pop_of_each_segment() {
    let store = "@R13\nA=M\nM=D\n";
    assert_eq!(
        pop(Segment::Local, 2, "M"),
        format!("@LCL\nD=M\n@2\nD=D+A\n@R13\nM=D\n{}{}", POP_D, store)
    );
    assert_eq!(
        pop(Segment::Argument, 0, "M"),
        format!("@ARG\nD=M\n@0\nD=D+A\n@R13\nM=D\n{}{}", POP_D, store)
    );
    assert_eq!(
        pop(Segment::This, 9, "M"),
        format!("@THIS\nD=M\n@9\nD=D+A\n@R13\nM=D\n{}{}", POP_D, store)
    );
    assert_eq!(
        pop(Segment::That, 300, "M"),
        format!("@THAT\nD=M\n@300\nD=D+A\n@R13\nM=D\n{}{}", POP_D, store)
    );
    assert_eq!(pop(Segment::Temp, 3, "M"), format!("{}@8\nM=D\n", POP_D));
    assert_eq!(pop(Segment::Pointer, 0, "M"), format!("{}@THIS\nM=D\n", POP_D));
    assert_eq!(pop(Segment::Pointer, 1, "M"), format!("{}@THAT\nM=D\n", POP_D));
    assert_eq!(pop(Segment::Static, 0, "Main"), format!("{}@Main.0\nM=D\n", POP_D));
}

#[test]
fn pop_constant_is_invalid() {
    assert_eq!(
        create_pop_operator(&Pop::new(Segment::Constant, 0), "M"),
        Err(TranslationError::InvalidPopFromConstant)
    );
    assert_eq!(
        create_pop_operator(&Pop::new(Segment::Constant, 9), "M"),
        Err(TranslationError::InvalidPopFromConstant)
    );
}

#[test]
fn pointer_has_two_cells() {
    assert_eq!(
        create_push_operator(&Push::new(Segment::Pointer, 2), "M"),
        Err(TranslationError::UnmappedInstruction)
    );
    assert_eq!(
        create_pop_operator(&Pop::new(Segment::Pointer, 2), "M"),
        Err(TranslationError::UnmappedInstruction)
    );
    assert_eq!(
        create_pop_operator(&Pop::new(Segment::Pointer, 65535), "M"),
        Err(TranslationError::UnmappedInstruction)
    );
}

#[test]
fn operators_that_compute() {
    let mut count = 0;
    let operands = "@SP\nAM=M-1\nD=M\nA=A-1\n";
    let text = |op| arithmetic(ArithmeticType::Binary(op), &mut 0);
    assert_eq!(text(BinaryArithmeticOperator::Add), format!("{}M=D+M\n", operands));
    assert_eq!(text(BinaryArithmeticOperator::Subtract), format!("{}M=M-D\n", operands));
    assert_eq!(text(BinaryArithmeticOperator::And), format!("{}M=D&M\n", operands));
    assert_eq!(text(BinaryArithmeticOperator::Or), format!("{}M=D|M\n", operands));
    let top = "@SP\nA=M-1\n";
    assert_eq!(
        arithmetic(ArithmeticType::Unary(UnaryArithmeticOperator::Negate), &mut count),
        format!("{}M=-M\n", top)
    );
    assert_eq!(
        arithmetic(ArithmeticType::Unary(UnaryArithmeticOperator::Not), &mut count),
        format!("{}M=!M\n", top)
    );
    assert_eq!(
        arithmetic(ArithmeticType::Shift(ShiftArithmeticOperator::ShiftLeft), &mut count),
        format!("{}M=M<<\n", top)
    );
    assert_eq!(
        arithmetic(ArithmeticType::Shift(ShiftArithmeticOperator::ShiftRight), &mut count),
        format!("{}M=M>>\n", top)
    );
    assert_eq!(count, 0);
}

fn comparison_text(module: &str, jump: &str, number: u64) -> String {
    format!(
        "@SP\nAM=M-1\nD=M\nA=A-1\nD=M-D\n@{m}%TRUE.{n}\nD;{jump}\n\
         @SP\nA=M-1\nM=0\n@{m}%CONTINUE.{n}\n0;JMP\n\
         ({m}%TRUE.{n})\n@SP\nA=M-1\nM=-1\n({m}%CONTINUE.{n})\n",
        m = module,
        n = number,
        jump = jump
    )
}

#[test]
fn comparisons_count_their_labels() {
    let mut count = 0;
    assert_eq!(
        arithmetic(ArithmeticType::Binary(BinaryArithmeticOperator::Eq), &mut count),
        comparison_text("Main", "JEQ", 1)
    );
    assert_eq!(count, 1);
    assert_eq!(
        arithmetic(ArithmeticType::Binary(BinaryArithmeticOperator::Gt), &mut count),
        comparison_text("Main", "JGT", 2)
    );
    assert_eq!(
        arithmetic(ArithmeticType::Binary(BinaryArithmeticOperator::Lt), &mut count),
        comparison_text("Main", "JLT", 3)
    );
    assert_eq!(count, 3);
    let mut late = 1_000_000_000_009;
    assert_eq!(
        arithmetic(ArithmeticType::Binary(BinaryArithmeticOperator::Lt), &mut late),
        comparison_text("Main", "JLT", 1_000_000_000_010)
    );
}

#[test]
fn label_goto_and_if() {
    let inside = Label::new(&"Main.run".to_string(), &"LOOP".to_string());
    let outside = Label::new(&String::new(), &"LOOP".to_string());
    assert_eq!(render(&create_label_operator(&inside)), "(Main.run$LOOP)\n");
    assert_eq!(render(&create_label_operator(&outside)), "(null$LOOP)\n");
    assert_eq!(render(&create_goto_operator(&inside)), "@Main.run$LOOP\n0;JMP\n");
    assert_eq!(
        render(&create_if_operator(&inside)),
        format!("{}@Main.run$LOOP\nD;JNE\n", POP_D)
    );
}

fn call_text(name: &str, label: &str, n_args: u16) -> String {
    format!(
        "@{label}\nD=A\n{push}@LCL\nD=M\n{push}@ARG\nD=M\n{push}@THIS\nD=M\n{push}@THAT\nD=M\n{push}\
         @SP\nD=M\n@5\nD=D-A\n@{n_args}\nD=D-A\n@ARG\nM=D\n@SP\nD=M\n@LCL\nM=D\n\
         @{name}\n0;JMP\n({label})\n",
        label = label,
        name = name,
        n_args = n_args,
        push = PUSH_D
    )
}

#[test]
fn call_saves_the_frame_and_jumps() {
    let call = Call::new(&"Lib.f".to_string(), &"Lib.f&ret.3".to_string(), 2);
    assert_eq!(render(&create_call_operator(&call)), call_text("Lib.f", "Lib.f&ret.3", 2));
    assert_eq!(render(&create_call_push(Register::ARG)), format!("@ARG\nD=M\n{}", PUSH_D));
}

#[test]
fn function_head_has_a_push_for_each_local() {
    let zero = format!("@0\nD=A\n{}", PUSH_D);
    let text = |n| render(&create_function_operator(&Function::new(&"Main.run".to_string(), n)));
    assert_eq!(text(0), "(Main.run)\n");
    assert_eq!(text(1), format!("(Main.run)\n{}", zero));
    assert_eq!(text(3), format!("(Main.run)\n{z}{z}{z}", z = zero));
    assert_eq!(text(500).lines().count(), 1 + 6 * 500);
}

#[test]
fn return_restores_in_the_order_that_lcl_comes_last() {
    let restore = |register: &str| format!("@R14\nAM=M-1\nD=M\n@{}\nM=D\n", register);
    assert_eq!(
        render(&create_return_operator()),
        format!(
            "@LCL\nD=M\n@R14\nM=D\n@5\nA=D-A\nD=M\n@R15\nM=D\n\
             @ARG\nD=M\n@0\nD=D+A\n@R13\nM=D\n{pop}@R13\nA=M\nM=D\n\
             @ARG\nD=M+1\n@SP\nM=D\n\
             {that}{this}{arg}{lcl}\
             @R15\nA=M\n0;JMP\n",
            pop = POP_D,
            that = restore("THAT"),
            this = restore("THIS"),
            arg = restore("ARG"),
            lcl = restore("LCL")
        )
    );
}

#[test]
fn bootstrap_sets_the_stack_pointer_and_calls_sys_init() {
    assert_eq!(
        create_bootstrap_code(),
        format!("@256\nD=A\n@SP\nM=D\n{}", call_text("Sys.init", "Sys.init&ret.0", 0))
    );
}

#[test]
fn compile_gives_one_text_for_each_instruction() {
    let instructions = vec![
        Instruction::CPush(Push::new(Segment::Constant, 7)),
        binary(BinaryArithmeticOperator::Eq),
        Instruction::CReturn,
        binary(BinaryArithmeticOperator::Add),
        binary(BinaryArithmeticOperator::Lt),
        Instruction::CPop(Pop::new(Segment::Static, 1)),
    ];
    let texts = compile(instructions, "Main").unwrap();
    assert_eq!(texts.len(), 6);
    assert_eq!(texts[0], format!("@7\nD=A\n{}", PUSH_D));
    assert_eq!(texts[1], comparison_text("Main", "JEQ", 1));
    assert_eq!(texts[2], render(&create_return_operator()));
    assert_eq!(texts[3], "@SP\nAM=M-1\nD=M\nA=A-1\nM=D+M\n");
    assert_eq!(texts[4], comparison_text("Main", "JLT", 2));
    assert_eq!(texts[5], format!("{}@Main.1\nM=D\n", POP_D));
    assert_eq!(compile(Vec::new(), "Main"), Ok(Vec::new()));
}

#[test]
fn every_module_counts_its_comparisons_from_one_under_its_own_name() {
    let first = compile(vec![binary(BinaryArithmeticOperator::Gt)], "A").unwrap();
    let second = compile(vec![binary(BinaryArithmeticOperator::Gt)], "B").unwrap();
    assert_eq!(first[0], comparison_text("A", "JGT", 1));
    assert_eq!(second[0], comparison_text("B", "JGT", 1));
    assert_ne!(first, second);
}

#[test]
fn comparisons_of_two_modules_never_share_a_label() {
    let comparisons = |module: &str| {
        let instructions = vec![
            binary(BinaryArithmeticOperator::Eq),
            binary(BinaryArithmeticOperator::Lt),
            binary(BinaryArithmeticOperator::Gt),
        ];
        compile(instructions, module).unwrap().concat()
    };
    // The second name is the first with what looks like the end of a label.
    let text = comparisons("A") + &comparisons("A%TRUE") + &comparisons("B") + &comparisons("");
    let mut labels: Vec<&str> = text.lines().filter(|line| line.starts_with('(')).collect();
    assert_eq!(labels.len(), 24);
    assert!(labels.contains(&"(A%TRUE.2)"));
    assert!(labels.contains(&"(B%CONTINUE.3)"));
    assert!(labels.contains(&"(%TRUE.1)"));
    labels.sort();
    labels.dedup();
    assert_eq!(labels.len(), 24);
}

#[test]
fn a_function_named_like_a_comparison_label_is_another_symbol() {
    let instructions = vec![
        Instruction::CFunction(Function::new(&"TRUE.1".to_string(), 0)),
        Instruction::CLabel(Label::new(&"TRUE.1".to_string(), &"CONTINUE.1".to_string())),
        binary(BinaryArithmeticOperator::Eq),
        Instruction::CCall(Call::new(
            &"CONTINUE.1".to_string(),
            &"CONTINUE.1&ret.1".to_string(),
            0,
        )),
    ];
    let text = compile(instructions, "Main").unwrap().concat();
    let mut labels: Vec<&str> = text.lines().filter(|line| line.starts_with('(')).collect();
    assert_eq!(
        labels,
        [
            "(TRUE.1)",
            "(TRUE.1$CONTINUE.1)",
            "(Main%TRUE.1)",
            "(Main%CONTINUE.1)",
            "(CONTINUE.1&ret.1)"
        ]
    );
    labels.sort();
    labels.dedup();
    assert_eq!(labels.len(), 5);
    assert_eq!(text.lines().filter(|line| *line == "@CONTINUE.1").count(), 1);
    assert_eq!(text.lines().filter(|line| *line == "@Main%CONTINUE.1").count(), 1);
}

#[test]
fn comparisons_of_a_module_never_share_a_label() {
    let instructions: Vec<Instruction> = (0..120)
        .map(|i| match i % 4 {
            0 => binary(BinaryArithmeticOperator::Eq),
            1 => binary(BinaryArithmeticOperator::Add),
            2 => binary(BinaryArithmeticOperator::Gt),
            _ => binary(BinaryArithmeticOperator::Lt),
        })
        .collect();
    let text = compile(instructions, "Main").unwrap().concat();
    let mut labels: Vec<&str> = text.lines().filter(|line| line.starts_with('(')).collect();
    assert_eq!(labels.len(), 180);
    assert!(labels.contains(&"(Main%TRUE.90)"));
    assert!(labels.contains(&"(Main%CONTINUE.90)"));
    labels.sort();
    labels.dedup();
    assert_eq!(labels.len(), 180);
}

#[test]
fn compile_stops_at_the_first_instruction_without_assembly() {
    let instructions = vec![
        Instruction::CPush(Push::new(Segment::Constant, 7)),
        Instruction::CPush(Push::new(Segment::Pointer, 2)),
        Instruction::CPop(Pop::new(Segment::Constant, 0)),
    ];
    assert_eq!(
        compile(instructions, "Main"),
        Err(TranslationFailure { index: 1, error: TranslationError::UnmappedInstruction })
    );
    let instructions = vec![
        Instruction::CPush(Push::new(Segment::Constant, 7)),
        Instruction::CPop(Pop::new(Segment::Constant, 0)),
        Instruction::CPush(Push::new(Segment::Pointer, 2)),
    ];
    assert_eq!(
        compile(instructions, "Main"),
        Err(TranslationFailure { index: 1, error: TranslationError::InvalidPopFromConstant })
    );
}
