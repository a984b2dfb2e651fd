//! From VM instructions to assembly.
//!
//! Every kind of instruction has a spec function that says which assembly
//! stands for it, and an executable function that builds exactly that. The spec
//! functions are what the laws about the target machine speak of.

use crate::assembly::{
    listing, render, Asm, AsmView, Comp, Dest, Jump, Operand, OperandView, Register,
};
use crate::error::{TranslationError, TranslationFailure};
use crate::instructions::{
    ArithmeticType, BinaryArithmeticOperator, Call, CallView, Function, FunctionView, Instruction,
    InstructionView, Label, LabelView, Pop, Push, Segment, ShiftArithmeticOperator,
    UnaryArithmeticOperator,
};
use crate::parser::return_label;
use crate::text::{decimal, push_decimal};
use vstd::prelude::*;

verus! {

/// `@REGISTER`
pub open spec fn at(register: Register) -> AsmView {
    AsmView::At(OperandView::Register(register))
}

/// `@number`
pub open spec fn at_number(number: u32) -> AsmView {
    AsmView::At(OperandView::Constant(number))
}

/// `@symbol`
pub open spec fn at_symbol(symbol: Seq<char>) -> AsmView {
    AsmView::At(OperandView::Symbol(symbol))
}

/// `dest=comp`
pub open spec fn assign(dest: Dest, comp: Comp) -> AsmView {
    AsmView::Compute { dest, comp, jump: Jump::Never }
}

/// `comp;jump`
pub open spec fn branch(comp: Comp, jump: Jump) -> AsmView {
    AsmView::Compute { dest: Dest::Nowhere, comp, jump }
}

/// Puts `D` on the stack.
pub open spec fn push_d() -> Seq<AsmView> {
    seq![
        at(Register::SP),
        assign(Dest::AM, Comp::MPlusOne),
        assign(Dest::A, Comp::AMinusOne),
        assign(Dest::M, Comp::D),
    ]
}

/// Takes the top of the stack into `D`.
pub open spec fn pop_d() -> Seq<AsmView> {
    seq![at(Register::SP), assign(Dest::AM, Comp::MMinusOne), assign(Dest::D, Comp::M)]
}

/// Takes the top of the stack into `D` and points `M` at the cell below it.
pub open spec fn take_operands() -> Seq<AsmView> {
    pop_d().push(assign(Dest::A, Comp::AMinusOne))
}

/// The label that a comparison jumps to when it holds: the module's name,
/// `%TRUE.`, and the number of the comparison in its module. `%` is kept for
/// the labels of comparisons; it stands in no name of the VM language.
pub open spec fn true_label(module: Seq<char>, number: nat) -> Seq<char> {
    module + "%TRUE."@ + decimal(number)
}

/// The label at which both outcomes of a comparison meet again: the module's
/// name, `%CONTINUE.`, and the number of the comparison in its module.
pub open spec fn continue_label(module: Seq<char>, number: nat) -> Seq<char> {
    module + "%CONTINUE."@ + decimal(number)
}

/// What a computing operator stores into the cell of its first operand `M`,
/// the second being in `D`.
pub open spec fn binary_comp(operator: BinaryArithmeticOperator) -> Comp {
    match operator {
        BinaryArithmeticOperator::Add => Comp::DPlusM,
        BinaryArithmeticOperator::And => Comp::DAndM,
        BinaryArithmeticOperator::Or => Comp::DOrM,
        _ => Comp::MMinusD,
    }
}

/// The jump that is taken on the difference of the operands when a comparison
/// holds.
pub open spec fn comparison_jump(operator: BinaryArithmeticOperator) -> Jump {
    match operator {
        BinaryArithmeticOperator::Gt => Jump::JGT,
        BinaryArithmeticOperator::Lt => Jump::JLT,
        _ => Jump::JEQ,
    }
}

/// Loads a symbol and jumps to it where the condition holds of `comp`.
pub open spec fn jump_code(symbol: Seq<char>, comp: Comp, jump: Jump) -> Seq<AsmView> {
    seq![at_symbol(symbol), branch(comp, jump)]
}

/// Leaves the difference of the operands in `D` and jumps to the true label
/// where the comparison holds.
pub open spec fn compare_and_jump(
    operator: BinaryArithmeticOperator,
    module: Seq<char>,
    number: nat,
) -> Seq<AsmView> {
    take_operands().push(assign(Dest::D, Comp::MMinusD)) + jump_code(
        true_label(module, number),
        Comp::D,
        comparison_jump(operator),
    )
}

/// Overwrites the top of the stack with all zero bits and goes on to the
/// continue label.
pub open spec fn answer_false(module: Seq<char>, number: nat) -> Seq<AsmView> {
    rewrite_top(Comp::Zero) + jump_code(continue_label(module, number), Comp::Zero, Jump::JMP)
}

/// Under the true label, overwrites the top of the stack with all one bits;
/// the continue label follows.
pub open spec fn answer_true(module: Seq<char>, number: nat) -> Seq<AsmView> {
    seq![AsmView::Label(true_label(module, number))] + rewrite_top(Comp::MinusOne) + seq![
        AsmView::Label(continue_label(module, number)),
    ]
}

/// The assembly of a comparison: decide, answer false, answer true.
pub open spec fn comparison_code(
    operator: BinaryArithmeticOperator,
    module: Seq<char>,
    number: nat,
) -> Seq<AsmView> {
    compare_and_jump(operator, module, number) + answer_false(module, number) + answer_true(
        module,
        number,
    )
}

/// What a unary operator computes from the top of the stack.
pub open spec fn unary_comp(operator: UnaryArithmeticOperator) -> Comp {
    match operator {
        UnaryArithmeticOperator::Negate => Comp::NegM,
        UnaryArithmeticOperator::Not => Comp::NotM,
    }
}

/// What a shift computes from the top of the stack.
pub open spec fn shift_comp(operator: ShiftArithmeticOperator) -> Comp {
    match operator {
        ShiftArithmeticOperator::ShiftLeft => Comp::ShiftLeftM,
        ShiftArithmeticOperator::ShiftRight => Comp::ShiftRightM,
    }
}

/// Rewrites the top of the stack in place.
pub open spec fn rewrite_top(comp: Comp) -> Seq<AsmView> {
    seq![at(Register::SP), assign(Dest::A, Comp::MMinusOne), assign(Dest::M, comp)]
}

/// The assembly of an operator. The module's name and the number of the
/// comparison in its module make the two labels of a comparison; other
/// operators use neither.
pub open spec fn arithmetic_code(operator: ArithmeticType, module: Seq<char>, number: nat) -> Seq<
    AsmView,
> {
    match operator {
        ArithmeticType::Unary(op) => rewrite_top(unary_comp(op)),
        ArithmeticType::Shift(op) => rewrite_top(shift_comp(op)),
        ArithmeticType::Binary(op) => if op.is_comparison() {
            comparison_code(op, module, number)
        } else {
            take_operands().push(assign(Dest::M, binary_comp(op)))
        },
    }
}

/// The register that holds the base address of a segment, for the four
/// segments that have one.
pub open spec fn base_register(segment: Segment) -> Register {
    match segment {
        Segment::Local => Register::LCL,
        Segment::Argument => Register::ARG,
        Segment::This => Register::THIS,
        _ => Register::THAT,
    }
}

/// Whether a segment lies where a register points: `local`, `argument`,
/// `this` and `that`.
pub open spec fn is_addressable(segment: Segment) -> bool {
    segment is Local || segment is Argument || segment is This || segment is That
}

/// The register that `pointer 0` or `pointer 1` stands for.
pub open spec fn pointer_register(index: u16) -> Register {
    if index == 0 {
        Register::THIS
    } else {
        Register::THAT
    }
}

/// The variable that holds cell `index` of the static segment of a module.
pub open spec fn static_symbol(module: Seq<char>, index: u16) -> Seq<char> {
    module + "."@ + decimal(index as nat)
}

/// Why a `push` has no assembly, if it has none.
pub open spec fn push_rejection(push: Push) -> Option<TranslationError> {
    if push.segment is Pointer && push.index > 1 {
        Some(TranslationError::UnmappedInstruction)
    } else {
        None
    }
}

/// Why a `pop` has no assembly, if it has none.
pub open spec fn pop_rejection(pop: Pop) -> Option<TranslationError> {
    if pop.segment is Constant {
        Some(TranslationError::InvalidPopFromConstant)
    } else if pop.segment is Pointer && pop.index > 1 {
        Some(TranslationError::UnmappedInstruction)
    } else {
        None
    }
}

/// Brings the value that a `push` reads into `D`.
pub open spec fn load_code(push: Push, module: Seq<char>) -> Seq<AsmView> {
    match push.segment {
        Segment::Constant => seq![at_number(push.index as u32), assign(Dest::D, Comp::A)],
        Segment::Temp => seq![at_number((5 + push.index) as u32), assign(Dest::D, Comp::M)],
        Segment::Pointer => seq![at(pointer_register(push.index)), assign(Dest::D, Comp::M)],
        Segment::Static => seq![
            at_symbol(static_symbol(module, push.index)),
            assign(Dest::D, Comp::M),
        ],
        segment => seq![
            at(base_register(segment)),
            assign(Dest::D, Comp::M),
            at_number(push.index as u32),
            assign(Dest::A, Comp::DPlusA),
            assign(Dest::D, Comp::M),
        ],
    }
}

/// The assembly of a `push` that is not rejected.
pub open spec fn push_code(push: Push, module: Seq<char>) -> Seq<AsmView> {
    load_code(push, module) + push_d()
}

/// Leaves the address of cell `index` of an addressable segment in `R13`.
pub open spec fn aim_code(segment: Segment, index: u16) -> Seq<AsmView> {
    seq![
        at(base_register(segment)),
        assign(Dest::D, Comp::M),
        at_number(index as u32),
        assign(Dest::D, Comp::DPlusA),
        at(Register::R13),
        assign(Dest::M, Comp::D),
    ]
}

/// Stores `D` where `R13` points.
pub open spec fn store_aimed() -> Seq<AsmView> {
    seq![at(Register::R13), assign(Dest::A, Comp::M), assign(Dest::M, Comp::D)]
}

/// The assembly of a `pop` that is not rejected.
pub open spec fn pop_code(pop: Pop, module: Seq<char>) -> Seq<AsmView> {
    match pop.segment {
        Segment::Temp => pop_d() + seq![
            at_number((5 + pop.index) as u32),
            assign(Dest::M, Comp::D),
        ],
        Segment::Pointer => pop_d() + seq![
            at(pointer_register(pop.index)),
            assign(Dest::M, Comp::D),
        ],
        Segment::Static => pop_d() + seq![
            at_symbol(static_symbol(module, pop.index)),
            assign(Dest::M, Comp::D),
        ],
        segment => aim_code(segment, pop.index) + pop_d() + store_aimed(),
    }
}

/// A jump target at the qualified name of a label.
pub open spec fn label_code(label: LabelView) -> Seq<AsmView> {
    seq![AsmView::Label(label.qualified_name())]
}

/// A jump to a label.
pub open spec fn goto_code(label: LabelView) -> Seq<AsmView> {
    jump_code(label.qualified_name(), Comp::Zero, Jump::JMP)
}

/// Takes the top of the stack and jumps where it is not zero.
pub open spec fn if_code(label: LabelView) -> Seq<AsmView> {
    pop_d() + jump_code(label.qualified_name(), Comp::D, Jump::JNE)
}

/// Puts the content of a register on the stack.
pub open spec fn save_code(register: Register) -> Seq<AsmView> {
    seq![at(register), assign(Dest::D, Comp::M)] + push_d()
}

/// Puts the value of a symbol on the stack.
pub open spec fn save_address_code(symbol: Seq<char>) -> Seq<AsmView> {
    seq![at_symbol(symbol), assign(Dest::D, Comp::A)] + push_d()
}

/// Puts the return address and the caller's four segment registers on the stack.
pub open spec fn frame_code(return_address_label: Seq<char>) -> Seq<AsmView> {
    save_address_code(return_address_label) + save_code(Register::LCL) + save_code(Register::ARG)
        + save_code(Register::THIS) + save_code(Register::THAT)
}

/// Points `ARG` at the first argument and `LCL` at the top of the stack.
pub open spec fn reposition_code(n_args: u16) -> Seq<AsmView> {
    seq![
        at(Register::SP),
        assign(Dest::D, Comp::M),
        at_number(5),
        assign(Dest::D, Comp::DMinusA),
        at_number(n_args as u32),
        assign(Dest::D, Comp::DMinusA),
        at(Register::ARG),
        assign(Dest::M, Comp::D),
        at(Register::SP),
        assign(Dest::D, Comp::M),
        at(Register::LCL),
        assign(Dest::M, Comp::D),
    ]
}

/// Repositions `ARG` and `LCL` and jumps to the callee; the return label
/// follows.
pub open spec fn enter_code(call: CallView) -> Seq<AsmView> {
    reposition_code(call.n_args) + jump_code(call.function_name, Comp::Zero, Jump::JMP) + seq![
        AsmView::Label(call.return_address_label),
    ]
}

/// The assembly of a call: save the frame, then enter the callee.
pub open spec fn call_code(call: CallView) -> Seq<AsmView> {
    frame_code(call.return_address_label) + enter_code(call)
}

/// `push constant 0`.
pub open spec fn push_zero() -> Seq<AsmView> {
    push_code(Push { segment: Segment::Constant, index: 0 }, Seq::empty())
}

/// `n` times `push constant 0`.
pub open spec fn zero_locals(n: nat) -> Seq<AsmView>
    decreases n,
{
    if n == 0 {
        Seq::empty()
    } else {
        zero_locals((n - 1) as nat) + push_zero()
    }
}

/// The assembly of a function head: the function's name as a jump target, then
/// a zero on the stack for each local variable.
pub open spec fn function_code(function: FunctionView) -> Seq<AsmView> {
    seq![AsmView::Label(function.function_name)] + zero_locals(function.n_locals as nat)
}

/// Keeps the frame pointer in `R14` and the return address in `R15`.
pub open spec fn keep_frame() -> Seq<AsmView> {
    seq![
        at(Register::LCL),
        assign(Dest::D, Comp::M),
        at(Register::R14),
        assign(Dest::M, Comp::D),
        at_number(5),
        assign(Dest::A, Comp::DMinusA),
        assign(Dest::D, Comp::M),
        at(Register::R15),
        assign(Dest::M, Comp::D),
    ]
}

/// Moves the returned value to where the caller expects it.
pub open spec fn hand_back() -> Seq<AsmView> {
    pop_code(Pop { segment: Segment::Argument, index: 0 }, Seq::empty())
}

/// Sets the stack pointer to just above the returned value.
pub open spec fn drop_frame() -> Seq<AsmView> {
    seq![
        at(Register::ARG),
        assign(Dest::D, Comp::MPlusOne),
        at(Register::SP),
        assign(Dest::M, Comp::D),
    ]
}

/// Steps the frame pointer one cell down and loads a register from there.
pub open spec fn restore_code(register: Register) -> Seq<AsmView> {
    seq![
        at(Register::R14),
        assign(Dest::AM, Comp::MMinusOne),
        assign(Dest::D, Comp::M),
        at(register),
        assign(Dest::M, Comp::D),
    ]
}

/// Jumps to the address kept in `R15`.
pub open spec fn go_back() -> Seq<AsmView> {
    seq![at(Register::R15), assign(Dest::A, Comp::M), branch(Comp::Zero, Jump::JMP)]
}

/// The assembly of a return. `LCL` is restored last: until then the frame is
/// found through the copy of it in `R14`.
pub open spec fn return_code() -> Seq<AsmView> {
    keep_frame() + hand_back() + drop_frame() + restore_code(Register::THAT) + restore_code(
        Register::THIS,
    ) + restore_code(Register::ARG) + restore_code(Register::LCL) + go_back()
}

/// The call that starts a program: `Sys.init`, without arguments. Its return
/// label has index 0, which no call in VM code gets.
pub open spec fn entry_call() -> CallView {
    CallView {
        function_name: "Sys.init"@,
        return_address_label: return_label("Sys.init"@, 0),
        n_args: 0,
    }
}

/// Sets the stack pointer to 256 and calls `Sys.init`.
pub open spec fn bootstrap_code() -> Seq<AsmView> {
    seq![at_number(256), assign(Dest::D, Comp::A), at(Register::SP), assign(Dest::M, Comp::D)]
        + call_code(entry_call())
}

/// The assembly of an instruction, or why it has none. `number` counts the
/// comparisons of the module up to and including this instruction.
pub open spec fn translation(
    instruction: InstructionView,
    module: Seq<char>,
    number: nat,
) -> Result<Seq<AsmView>, TranslationError> {
    match instruction {
        InstructionView::CArithmetic(operator) => Ok(arithmetic_code(operator, module, number)),
        InstructionView::CPush(push) => match push_rejection(push) {
            Some(error) => Err(error),
            None => Ok(push_code(push, module)),
        },
        InstructionView::CPop(pop) => match pop_rejection(pop) {
            Some(error) => Err(error),
            None => Ok(pop_code(pop, module)),
        },
        InstructionView::CLabel(label) => Ok(label_code(label)),
        InstructionView::CGoto(label) => Ok(goto_code(label)),
        InstructionView::CIf(label) => Ok(if_code(label)),
        InstructionView::CFunction(function) => Ok(function_code(function)),
        InstructionView::CReturn => Ok(return_code()),
        InstructionView::CCall(call) => Ok(call_code(call)),
    }
}

/// Whether an instruction is one of the three comparisons.
pub open spec fn is_comparison(instruction: InstructionView) -> bool {
    instruction matches InstructionView::CArithmetic(operator) && operator.is_comparison()
}

/// How many comparisons a run of instructions holds.
pub open spec fn comparisons(instructions: Seq<InstructionView>) -> nat
    decreases instructions.len(),
{
    if instructions.len() == 0 {
        0
    } else {
        comparisons(instructions.drop_last()) + if is_comparison(instructions.last()) {
            1nat
        } else {
            0nat
        }
    }
}

/// The assembly of the instruction at position `i` of a module. A comparison
/// gets as its number its rank among the comparisons of the module, from 1.
pub open spec fn translation_at(instructions: Seq<InstructionView>, i: int, module: Seq<char>)
    -> Result<Seq<AsmView>, TranslationError> {
    translation(instructions[i], module, comparisons(instructions.take(i + 1)))
}

/// The assembly of the first `n` instructions of a module, one piece for each,
/// or the first instruction among them that has none.
pub open spec fn translate(instructions: Seq<InstructionView>, n: nat, module: Seq<char>) -> Result<
    Seq<Seq<AsmView>>,
    TranslationFailure,
>
    decreases n,
{
    if n == 0 {
        Ok(Seq::empty())
    } else {
        match translate(instructions, (n - 1) as nat, module) {
            Err(failure) => Err(failure),
            Ok(pieces) => match translation_at(instructions, n - 1, module) {
                Ok(code) => Ok(pieces.push(code)),
                Err(error) => Err(TranslationFailure { index: (n - 1) as usize, error }),
            },
        }
    }
}

/// Appends one instruction.
fn emit(code: &mut Vec<Asm>, instruction: Asm)
    ensures
        final(code).deep_view() == old(code).deep_view().push(instruction@),
{
    code.push(instruction);
}

/// Appends a piece of assembly.
fn splice(code: &mut Vec<Asm>, piece: Vec<Asm>)
    ensures
        final(code).deep_view() == old(code).deep_view() + piece.deep_view(),
{
    let mut piece = piece;
    code.append(&mut piece);
}

fn emit_at(code: &mut Vec<Asm>, register: Register)
    ensures
        final(code).deep_view() == old(code).deep_view().push(at(register)),
{
    emit(code, Asm::At(Operand::Register(register)));
}

fn emit_at_number(code: &mut Vec<Asm>, number: u32)
    ensures
        final(code).deep_view() == old(code).deep_view().push(at_number(number)),
{
    emit(code, Asm::At(Operand::Constant(number)));
}

fn emit_at_symbol(code: &mut Vec<Asm>, symbol: String)
    ensures
        final(code).deep_view() == old(code).deep_view().push(at_symbol(symbol@)),
{
    emit(code, Asm::At(Operand::Symbol(symbol)));
}

fn emit_assign(code: &mut Vec<Asm>, dest: Dest, comp: Comp)
    ensures
        final(code).deep_view() == old(code).deep_view().push(assign(dest, comp)),
{
    emit(code, Asm::Compute { dest, comp, jump: Jump::Never });
}

fn emit_branch(code: &mut Vec<Asm>, comp: Comp, jump: Jump)
    ensures
        final(code).deep_view() == old(code).deep_view().push(branch(comp, jump)),
{
    emit(code, Asm::Compute { dest: Dest::Nowhere, comp, jump });
}

fn emit_label(code: &mut Vec<Asm>, name: String)
    ensures
        final(code).deep_view() == old(code).deep_view().push(AsmView::Label(name@)),
{
    emit(code, Asm::Label(name));
}

fn emit_push_d(code: &mut Vec<Asm>)
    ensures
        final(code).deep_view() == old(code).deep_view() + push_d(),
{
    emit_at(code, Register::SP);
    emit_assign(code, Dest::AM, Comp::MPlusOne);
    emit_assign(code, Dest::A, Comp::AMinusOne);
    emit_assign(code, Dest::M, Comp::D);
}

fn emit_pop_d(code: &mut Vec<Asm>)
    ensures
        final(code).deep_view() == old(code).deep_view() + pop_d(),
{
    emit_at(code, Register::SP);
    emit_assign(code, Dest::AM, Comp::MMinusOne);
    emit_assign(code, Dest::D, Comp::M);
}

fn emit_rewrite_top(code: &mut Vec<Asm>, comp: Comp)
    ensures
        final(code).deep_view() == old(code).deep_view() + rewrite_top(comp),
{
    emit_at(code, Register::SP);
    emit_assign(code, Dest::A, Comp::MMinusOne);
    emit_assign(code, Dest::M, comp);
}

fn emit_reposition(code: &mut Vec<Asm>, n_args: u16)
    ensures
        final(code).deep_view() == old(code).deep_view() + reposition_code(n_args),
{
    emit_at(code, Register::SP);
    emit_assign(code, Dest::D, Comp::M);
    emit_at_number(code, 5);
    emit_assign(code, Dest::D, Comp::DMinusA);
    emit_at_number(code, n_args as u32);
    emit_assign(code, Dest::D, Comp::DMinusA);
    emit_at(code, Register::ARG);
    emit_assign(code, Dest::M, Comp::D);
    emit_at(code, Register::SP);
    emit_assign(code, Dest::D, Comp::M);
    emit_at(code, Register::LCL);
    emit_assign(code, Dest::M, Comp::D);
    assert(final(code).deep_view() =~= old(code).deep_view() + reposition_code(n_args));
}

fn emit_jump(code: &mut Vec<Asm>, symbol: String, comp: Comp, jump: Jump)
    ensures
        final(code).deep_view() == old(code).deep_view() + jump_code(symbol@, comp, jump),
{
    emit_at_symbol(code, symbol);
    emit_branch(code, comp, jump);
    assert(final(code).deep_view() =~= old(code).deep_view() + jump_code(symbol@, comp, jump));
}

/// Takes the top of the stack into a cell of an addressable segment.
fn emit_pop_to(code: &mut Vec<Asm>, segment: Segment, index: u16)
    ensures
        final(code).deep_view() == old(code).deep_view() + (aim_code(segment, index) + pop_d()
            + store_aimed()),
{
    emit_at(code, base_of(segment));
    emit_assign(code, Dest::D, Comp::M);
    emit_at_number(code, index as u32);
    emit_assign(code, Dest::D, Comp::DPlusA);
    emit_at(code, Register::R13);
    emit_assign(code, Dest::M, Comp::D);
    assert(code.deep_view() =~= old(code).deep_view() + aim_code(segment, index));
    emit_pop_d(code);
    emit_at(code, Register::R13);
    emit_assign(code, Dest::A, Comp::M);
    emit_assign(code, Dest::M, Comp::D);
    assert(final(code).deep_view() =~= old(code).deep_view() + (aim_code(segment, index) + pop_d()
        + store_aimed()));
}

/// The module's name, `mark`, and the numeral of `number`.
fn comparison_name(file_name: &str, mark: &str, number: u64) -> (name: String)
    ensures
        name@ == file_name@ + mark@ + decimal(number as nat),
{
    let mut name = String::from_str(file_name);
    name.append(mark);
    push_decimal(&mut name, number);
    name
}

fn static_name(file_name: &str, index: u16) -> (name: String)
    ensures
        name@ == static_symbol(file_name@, index),
{
    let mut name = String::from_str(file_name);
    name.append(".");
    push_decimal(&mut name, index as u64);
    name
}

fn base_of(segment: Segment) -> (register: Register)
    ensures
        register == base_register(segment),
{
    match segment {
        Segment::Local => Register::LCL,
        Segment::Argument => Register::ARG,
        Segment::This => Register::THIS,
        _ => Register::THAT,
    }
}

fn pointer_of(index: u16) -> (register: Register)
    ensures
        register == pointer_register(index),
{
    if index == 0 {
        Register::THIS
    } else {
        Register::THAT
    }
}

/// The assembly of an operator. A comparison first moves the count of
/// comparisons one on; its two labels hold the module's name `file_name` and
/// the new count.
pub fn create_arithmetic_operator(
    arithmetic_operator: ArithmeticType,
    file_name: &str,
    comparison_count: &mut u64,
) -> (code: Vec<Asm>)
    requires
        arithmetic_operator.is_comparison() ==> *old(comparison_count) < u64::MAX,
    ensures
        *final(comparison_count) == *old(comparison_count) + if arithmetic_operator.is_comparison(
        ) {
            1int
        } else {
            0int
        },
        code.deep_view() == arithmetic_code(
            arithmetic_operator,
            file_name@,
            *final(comparison_count) as nat,
        ),
{
    let mut code: Vec<Asm> = Vec::new();
    match arithmetic_operator {
        ArithmeticType::Unary(operator) => {
            let comp = match operator {
                UnaryArithmeticOperator::Negate => Comp::NegM,
                UnaryArithmeticOperator::Not => Comp::NotM,
            };
            emit_rewrite_top(&mut code, comp);
        },
        ArithmeticType::Shift(operator) => {
            let comp = match operator {
                ShiftArithmeticOperator::ShiftLeft => Comp::ShiftLeftM,
                ShiftArithmeticOperator::ShiftRight => Comp::ShiftRightM,
            };
            emit_rewrite_top(&mut code, comp);
        },
        ArithmeticType::Binary(operator) => {
            emit_pop_d(&mut code);
            emit_assign(&mut code, Dest::A, Comp::AMinusOne);
            let jump = match operator {
                BinaryArithmeticOperator::Add => {
                    emit_assign(&mut code, Dest::M, Comp::DPlusM);
                    return code;
                },
                BinaryArithmeticOperator::Subtract => {
                    emit_assign(&mut code, Dest::M, Comp::MMinusD);
                    return code;
                },
                BinaryArithmeticOperator::And => {
                    emit_assign(&mut code, Dest::M, Comp::DAndM);
                    return code;
                },
                BinaryArithmeticOperator::Or => {
                    emit_assign(&mut code, Dest::M, Comp::DOrM);
                    return code;
                },
                BinaryArithmeticOperator::Eq => Jump::JEQ,
                BinaryArithmeticOperator::Gt => Jump::JGT,
                BinaryArithmeticOperator::Lt => Jump::JLT,
            };
            *comparison_count = *comparison_count + 1;
            let number = *comparison_count;
            emit_assign(&mut code, Dest::D, Comp::MMinusD);
            emit_jump(&mut code, comparison_name(file_name, "%TRUE.", number), Comp::D, jump);
            let ghost decided = code.deep_view();
            assert(decided =~= compare_and_jump(operator, file_name@, number as nat));
            emit_rewrite_top(&mut code, Comp::Zero);
            let end = comparison_name(file_name, "%CONTINUE.", number);
            emit_jump(&mut code, end, Comp::Zero, Jump::JMP);
            let ghost answered = code.deep_view();
            assert(answered =~= decided + answer_false(file_name@, number as nat));
            emit_label(&mut code, comparison_name(file_name, "%TRUE.", number));
            emit_rewrite_top(&mut code, Comp::MinusOne);
            emit_label(&mut code, comparison_name(file_name, "%CONTINUE.", number));
            assert(code.deep_view() =~= answered + answer_true(file_name@, number as nat));
        },
    }
    code
}

/// The assembly of a `push`. `pointer` with an index other than 0 or 1 has
/// none.
pub fn create_push_operator(push: &Push, file_name: &str) -> (result: Result<
    Vec<Asm>,
    TranslationError,
>)
    ensures
        match push_rejection(*push) {
            Some(error) => result == Err::<Vec<Asm>, TranslationError>(error),
            None => result matches Ok(code) && code.deep_view() == push_code(*push, file_name@),
        },
{
    let mut code: Vec<Asm> = Vec::new();
    match push.segment {
        Segment::Constant => {
            emit_at_number(&mut code, push.index as u32);
            emit_assign(&mut code, Dest::D, Comp::A);
        },
        Segment::Temp => {
            emit_at_number(&mut code, 5 + push.index as u32);
            emit_assign(&mut code, Dest::D, Comp::M);
        },
        Segment::Pointer => {
            if push.index > 1 {
                return Err(TranslationError::UnmappedInstruction);
            }
            emit_at(&mut code, pointer_of(push.index));
            emit_assign(&mut code, Dest::D, Comp::M);
        },
        Segment::Static => {
            emit_at_symbol(&mut code, static_name(file_name, push.index));
            emit_assign(&mut code, Dest::D, Comp::M);
        },
        segment => {
            emit_at(&mut code, base_of(segment));
            emit_assign(&mut code, Dest::D, Comp::M);
            emit_at_number(&mut code, push.index as u32);
            emit_assign(&mut code, Dest::A, Comp::DPlusA);
            emit_assign(&mut code, Dest::D, Comp::M);
        },
    }
    emit_push_d(&mut code);
    Ok(code)
}

/// Puts the content of a register on the stack, as a call does with each of
/// the caller's segment registers.
pub fn create_call_push(register: Register) -> (code: Vec<Asm>)
    ensures
        code.deep_view() == save_code(register),
{
    let mut code: Vec<Asm> = Vec::new();
    emit_at(&mut code, register);
    emit_assign(&mut code, Dest::D, Comp::M);
    emit_push_d(&mut code);
    code
}

/// The assembly of a `pop`. `constant` cannot be stored to, and `pointer` has
/// only the indices 0 and 1.
pub fn create_pop_operator(pop: &Pop, file_name: &str) -> (result: Result<
    Vec<Asm>,
    TranslationError,
>)
    ensures
        match pop_rejection(*pop) {
            Some(error) => result == Err::<Vec<Asm>, TranslationError>(error),
            None => result matches Ok(code) && code.deep_view() == pop_code(*pop, file_name@),
        },
{
    let mut code: Vec<Asm> = Vec::new();
    match pop.segment {
        Segment::Constant => {
            return Err(TranslationError::InvalidPopFromConstant);
        },
        Segment::Temp => {
            emit_pop_d(&mut code);
            emit_at_number(&mut code, 5 + pop.index as u32);
            emit_assign(&mut code, Dest::M, Comp::D);
        },
        Segment::Pointer => {
            if pop.index > 1 {
                return Err(TranslationError::UnmappedInstruction);
            }
            emit_pop_d(&mut code);
            emit_at(&mut code, pointer_of(pop.index));
            emit_assign(&mut code, Dest::M, Comp::D);
        },
        Segment::Static => {
            emit_pop_d(&mut code);
            emit_at_symbol(&mut code, static_name(file_name, pop.index));
            emit_assign(&mut code, Dest::M, Comp::D);
        },
        segment => {
            emit_pop_to(&mut code, segment, pop.index);
        },
    }
    Ok(code)
}

/// A jump target at the qualified name of the label.
pub fn create_label_operator(label: &Label) -> (code: Vec<Asm>)
    ensures
        code.deep_view() == label_code(label@),
{
    let mut code: Vec<Asm> = Vec::new();
    emit_label(&mut code, label.extract_label_name());
    code
}

/// Takes the top of the stack and jumps to the label where it is not zero.
pub fn create_if_operator(label: &Label) -> (code: Vec<Asm>)
    ensures
        code.deep_view() == if_code(label@),
{
    let mut code: Vec<Asm> = Vec::new();
    emit_pop_d(&mut code);
    emit_jump(&mut code, label.extract_label_name(), Comp::D, Jump::JNE);
    code
}

/// A jump to the label.
pub fn create_goto_operator(label: &Label) -> (code: Vec<Asm>)
    ensures
        code.deep_view() == goto_code(label@),
{
    let mut code: Vec<Asm> = Vec::new();
    emit_jump(&mut code, label.extract_label_name(), Comp::Zero, Jump::JMP);
    code
}

/// Saves the caller's frame, repositions `ARG` and `LCL`, jumps to the callee
/// and declares the return label.
pub fn create_call_operator(call: &Call) -> (code: Vec<Asm>)
    ensures
        code.deep_view() == call_code(call@),
{
    let mut code: Vec<Asm> = Vec::new();
    emit_at_symbol(&mut code, call.return_address_label.clone());
    emit_assign(&mut code, Dest::D, Comp::A);
    emit_push_d(&mut code);
    assert(code.deep_view() =~= save_address_code(call@.return_address_label));
    splice(&mut code, create_call_push(Register::LCL));
    splice(&mut code, create_call_push(Register::ARG));
    splice(&mut code, create_call_push(Register::THIS));
    splice(&mut code, create_call_push(Register::THAT));
    let ghost frame = code.deep_view();
    assert(frame == frame_code(call@.return_address_label));
    emit_reposition(&mut code, call.n_args);
    emit_jump(&mut code, call.function_name.clone(), Comp::Zero, Jump::JMP);
    emit_label(&mut code, call.return_address_label.clone());
    assert(code.deep_view() =~= frame + enter_code(call@));
    code
}

/// The function's name as a jump target, then one `push constant 0` for each
/// local variable.
pub fn create_function_operator(function: &Function) -> (code: Vec<Asm>)
    ensures
        code.deep_view() == function_code(function@),
{
    let mut code: Vec<Asm> = Vec::new();
    emit_label(&mut code, function.function_name.clone());
    let ghost head = code.deep_view();
    let mut i: u16 = 0;
    while i < function.n_locals
        invariant
            i <= function.n_locals,
            code.deep_view() == head + zero_locals(i as nat),
        decreases function.n_locals - i,
    {
        emit_at_number(&mut code, 0);
        emit_assign(&mut code, Dest::D, Comp::A);
        emit_push_d(&mut code);
        i += 1;
        assert(code.deep_view() =~= head + zero_locals(i as nat));
    }
    code
}

/// Hands the returned value to the caller, restores the caller's frame and
/// jumps back to the call site.
pub fn create_return_operator() -> (code: Vec<Asm>)
    ensures
        code.deep_view() == return_code(),
{
    let mut code: Vec<Asm> = Vec::new();
    emit_at(&mut code, Register::LCL);
    emit_assign(&mut code, Dest::D, Comp::M);
    emit_at(&mut code, Register::R14);
    emit_assign(&mut code, Dest::M, Comp::D);
    emit_at_number(&mut code, 5);
    emit_assign(&mut code, Dest::A, Comp::DMinusA);
    emit_assign(&mut code, Dest::D, Comp::M);
    emit_at(&mut code, Register::R15);
    emit_assign(&mut code, Dest::M, Comp::D);
    assert(code.deep_view() =~= keep_frame());
    emit_pop_to(&mut code, Segment::Argument, 0);
    let ghost handed = code.deep_view();
    assert(handed =~= keep_frame() + hand_back());
    emit_at(&mut code, Register::ARG);
    emit_assign(&mut code, Dest::D, Comp::MPlusOne);
    emit_at(&mut code, Register::SP);
    emit_assign(&mut code, Dest::M, Comp::D);
    assert(code.deep_view() =~= handed + drop_frame());
    emit_restore(&mut code, Register::THAT);
    emit_restore(&mut code, Register::THIS);
    emit_restore(&mut code, Register::ARG);
    emit_restore(&mut code, Register::LCL);
    let ghost restored = code.deep_view();
    emit_at(&mut code, Register::R15);
    emit_assign(&mut code, Dest::A, Comp::M);
    emit_branch(&mut code, Comp::Zero, Jump::JMP);
    assert(code.deep_view() =~= restored + go_back());
    code
}

fn emit_restore(code: &mut Vec<Asm>, register: Register)
    ensures
        final(code).deep_view() == old(code).deep_view() + restore_code(register),
{
    emit_at(code, Register::R14);
    emit_assign(code, Dest::AM, Comp::MMinusOne);
    emit_assign(code, Dest::D, Comp::M);
    emit_at(code, register);
    emit_assign(code, Dest::M, Comp::D);
}

/// The assembly that starts a program.
pub fn create_bootstrap() -> (code: Vec<Asm>)
    ensures
        code.deep_view() == bootstrap_code(),
{
    let mut code: Vec<Asm> = Vec::new();
    emit_at_number(&mut code, 256);
    emit_assign(&mut code, Dest::D, Comp::A);
    emit_at(&mut code, Register::SP);
    emit_assign(&mut code, Dest::M, Comp::D);
    let function_name = String::from_str("Sys.init");
    let mut return_address = String::from_str("Sys.init");
    return_address.append("&ret.");
    push_decimal(&mut return_address, 0);
    let call = Call::new(&function_name, &return_address, 0);
    splice(&mut code, create_call_operator(&call));
    code
}

/// The text that starts a program: it sets the stack pointer to 256 and calls
/// `Sys.init`.
pub fn create_bootstrap_code() -> (text: String)
    ensures
        text@ == listing(bootstrap_code()),
{
    render(&create_bootstrap())
}

/// The assembly of one instruction.
pub fn create_operator(
    instruction: &Instruction,
    file_name: &str,
    comparison_count: &mut u64,
) -> (result: Result<Vec<Asm>, TranslationError>)
    requires
        is_comparison(instruction@) ==> *old(comparison_count) < u64::MAX,
    ensures
        *final(comparison_count) == *old(comparison_count) + if is_comparison(instruction@) {
            1int
        } else {
            0int
        },
        match translation(instruction@, file_name@, *final(comparison_count) as nat) {
            Ok(code) => result matches Ok(made) && made.deep_view() == code,
            Err(error) => result == Err::<Vec<Asm>, TranslationError>(error),
        },
{
    match instruction {
        Instruction::CArithmetic(operator) => Ok(
            create_arithmetic_operator(*operator, file_name, comparison_count),
        ),
        Instruction::CPush(push) => create_push_operator(push, file_name),
        Instruction::CPop(pop) => create_pop_operator(pop, file_name),
        Instruction::CLabel(label) => Ok(create_label_operator(label)),
        Instruction::CIf(label) => Ok(create_if_operator(label)),
        Instruction::CGoto(label) => Ok(create_goto_operator(label)),
        Instruction::CCall(call) => Ok(create_call_operator(call)),
        Instruction::CFunction(function) => Ok(create_function_operator(function)),
        Instruction::CReturn => Ok(create_return_operator()),
    }
}

/// The assembly text of a module, one text for each instruction and in their
/// order. `file_name` is the module's name; it qualifies the module's static
/// cells and the labels of its comparisons, so that modules of different
/// names share neither. Translation stops at the first instruction that has
/// no assembly, and then hands out no text at all.
pub fn compile(instructions: Vec<Instruction>, file_name: &str) -> (result: Result<
    Vec<String>,
    TranslationFailure,
>)
    ensures
        match translate(instructions.deep_view(), instructions.len() as nat, file_name@) {
            Ok(pieces) => result matches Ok(texts) && texts.len() == pieces.len() && forall|i: int|
                0 <= i < pieces.len() ==> (#[trigger] texts[i])@ == listing(pieces[i]),
            Err(failure) => result == Err::<Vec<String>, TranslationFailure>(failure),
        },
{
    let ghost source = instructions.deep_view();
    let mut texts: Vec<String> = Vec::new();
    let mut comparison_count: u64 = 0;
    let mut i: usize = 0;
    while i < instructions.len()
        invariant
            i <= instructions.len(),
            source == instructions.deep_view(),
            comparison_count == comparisons(source.take(i as int)),
            comparison_count <= i,
            translate(source, i as nat, file_name@) matches Ok(pieces) && texts.len()
                == pieces.len() && forall|j: int|
                0 <= j < pieces.len() ==> (#[trigger] texts[j])@ == listing(pieces[j]),
        decreases instructions.len() - i,
    {
        proof {
            let upto = source.take(i + 1);
            assert(upto.drop_last() =~= source.take(i as int));
        }
        match create_operator(&instructions[i], file_name, &mut comparison_count) {
            Ok(code) => {
                texts.push(render(&code));
            },
            Err(error) => {
                let failure = TranslationFailure { index: i, error };
                proof {
                    lemma_rejection_stays(
                        source,
                        (i + 1) as nat,
                        instructions.len() as nat,
                        file_name@,
                    );
                }
                return Err(failure);
            },
        }
        i += 1;
    }
    Ok(texts)
}

/// Once an instruction is rejected, looking at more instructions changes
/// nothing.
pub proof fn lemma_rejection_stays(
    instructions: Seq<InstructionView>,
    n: nat,
    m: nat,
    module: Seq<char>,
)
    requires
        n <= m,
        translate(instructions, n, module) is Err,
    ensures
        translate(instructions, m, module) == translate(instructions, n, module),
    decreases m - n,
{
    if n < m {
        lemma_rejection_stays(instructions, n, (m - 1) as nat, module);
    }
}

} // verus!
