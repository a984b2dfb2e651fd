//! What the emitted assembly does to the stack: the meaning of the operators,
//! of `push` and of `pop` on the target machine.

use crate::assembly::{Comp, Jump, Register};
use crate::compiler::{
    arithmetic_code, base_register, binary_comp, goto_code, if_code, is_addressable, jump_code,
    label_code, pop_code, pop_d, push_code, shift_comp, unary_comp,
};
use crate::execution::{
    lemma_binary, lemma_comparison, lemma_holds_label, lemma_jump, lemma_pop, lemma_pop_d,
    lemma_push, lemma_rewrite_top, load_steps, pop_runs, pop_steps, pop_target, push_runs,
    pushed_value,
};
use crate::instructions::{
    ArithmeticType, BinaryArithmeticOperator, LabelView, Pop, Push, Segment,
    ShiftArithmeticOperator, UnaryArithmeticOperator,
};
use crate::machine::{
    all_ones, all_zeros, is_negative, is_plain, lemma_holds_both, lemma_run_on, lemma_size_plain,
    signed, size, word, Image, Machine,
};
use vstd::prelude::*;

verus! {

/// What a unary operator makes of a word.
pub open spec fn unary_value(operator: UnaryArithmeticOperator, x: u16) -> u16 {
    match operator {
        UnaryArithmeticOperator::Negate => word(-x),
        UnaryArithmeticOperator::Not => !x,
    }
}

/// What a shift makes of a word: the left shift doubles it, the right shift
/// halves it and keeps its sign.
pub open spec fn shift_value(operator: ShiftArithmeticOperator, x: u16) -> u16 {
    match operator {
        ShiftArithmeticOperator::ShiftLeft => word(2 * x),
        ShiftArithmeticOperator::ShiftRight => if is_negative(x) {
            (0x8000 + x / 2) as u16
        } else {
            x / 2
        },
    }
}

/// Whether a comparison holds of `x` and `y`. It is decided on the
/// difference `x - y` as the machine computes it, in 16 bits.
pub open spec fn comparison_holds(operator: BinaryArithmeticOperator, x: u16, y: u16) -> bool {
    match operator {
        BinaryArithmeticOperator::Gt => signed(word(x - y)) > 0,
        BinaryArithmeticOperator::Lt => signed(word(x - y)) < 0,
        _ => word(x - y) == 0,
    }
}

/// What a binary operator makes of `x`, the first operand, and `y`, the
/// second. A comparison gives all one bits where it holds and all zero bits
/// where it does not.
pub open spec fn binary_value(operator: BinaryArithmeticOperator, x: u16, y: u16) -> u16 {
    match operator {
        BinaryArithmeticOperator::Add => word(x + y),
        BinaryArithmeticOperator::Subtract => word(x - y),
        BinaryArithmeticOperator::And => x & y,
        BinaryArithmeticOperator::Or => x | y,
        comparison => if comparison_holds(comparison, x, y) {
            all_ones()
        } else {
            all_zeros()
        },
    }
}

/// How many instructions the machine executes for an operator in state `s`.
pub open spec fn arithmetic_steps(operator: ArithmeticType, s: Machine) -> nat {
    match operator {
        ArithmeticType::Binary(op) => if !op.is_comparison() {
            5
        } else if comparison_holds(op, s.stack(1), s.stack(0)) {
            10
        } else {
            12
        },
        _ => 3,
    }
}

/// How many instructions the assembly of an operator has.
pub open spec fn arithmetic_size(operator: ArithmeticType) -> nat {
    match operator {
        ArithmeticType::Binary(op) => if op.is_comparison() {
            15
        } else {
            5
        },
        _ => 3,
    }
}

/// A unary operator or a shift rewrites the top of the stack and leaves the
/// depth of the stack as it is. No other memory cell changes.
pub proof fn law_rewriting_keeps_depth(
    image: Image,
    s: Machine,
    operator: ArithmeticType,
    module: Seq<char>,
    number: nat,
)
    requires
        !(operator is Binary),
        image.holds(s.pc, arithmetic_code(operator, module, number)),
        s.depth() >= 1,
    ensures
        ({
            let t = image.run(s, 3);
            &&& t.pc == s.pc + 3
            &&& t.depth() == s.depth()
            &&& t.stack(0) == match operator {
                ArithmeticType::Unary(op) => unary_value(op, s.stack(0)),
                ArithmeticType::Shift(op) => shift_value(op, s.stack(0)),
                _ => s.stack(0),
            }
            &&& forall|address: u16| address != s.sp() - 1 ==> t.ram[address] == s.ram[address]
        }),
{
    match operator {
        ArithmeticType::Unary(op) => lemma_rewrite_top(image, s, unary_comp(op)),
        ArithmeticType::Shift(op) => lemma_rewrite_top(image, s, shift_comp(op)),
        _ => {},
    }
}

/// A binary operator takes two cells off the stack and puts one on it: the
/// depth of the stack goes down by exactly 1. The cell holds what the operator
/// makes of the cell that was second from the top and the cell that was on
/// top, in this order. Below them the stack is unchanged, and so is every
/// other memory cell but the stack pointer.
pub proof fn law_binary_takes_one_cell(
    image: Image,
    s: Machine,
    operator: BinaryArithmeticOperator,
    module: Seq<char>,
    number: nat,
)
    requires
        image.holds(s.pc, arithmetic_code(ArithmeticType::Binary(operator), module, number)),
        s.depth() >= 2,
    ensures
        ({
            let t = image.run(s, arithmetic_steps(ArithmeticType::Binary(operator), s));
            &&& t.pc == s.pc + arithmetic_size(ArithmeticType::Binary(operator))
            &&& t.depth() == s.depth() - 1
            &&& t.stack(0) == binary_value(operator, s.stack(1), s.stack(0))
            &&& forall|address: u16|
                address != 0 && address != s.sp() - 2 ==> t.ram[address] == s.ram[address]
        }),
{
    let x = s.stack(1);
    let y = s.stack(0);
    assert(x == s.ram[(s.sp() - 2) as u16]);
    assert(y == s.ram[(s.sp() - 1) as u16]);
    if operator.is_comparison() {
        lemma_comparison(image, s, operator, module, number);
    } else {
        lemma_binary(image, s, binary_comp(operator));
        assert(x & y == y & x) by (bit_vector);
        assert(x | y == y | x) by (bit_vector);
    }
}

/// The result of a comparison is all one bits or all zero bits, and never
/// anything else: all one bits exactly where the comparison holds.
pub proof fn law_comparison_is_boolean(
    image: Image,
    s: Machine,
    operator: BinaryArithmeticOperator,
    module: Seq<char>,
    number: nat,
)
    requires
        operator.is_comparison(),
        image.holds(s.pc, arithmetic_code(ArithmeticType::Binary(operator), module, number)),
        s.depth() >= 2,
    ensures
        ({
            let t = image.run(s, arithmetic_steps(ArithmeticType::Binary(operator), s));
            &&& t.stack(0) == all_ones() || t.stack(0) == all_zeros()
            &&& t.stack(0) == all_ones() <==> comparison_holds(operator, s.stack(1), s.stack(0))
        }),
{
    law_binary_takes_one_cell(image, s, operator, module, number);
}

/// A `push` makes the stack one cell deeper. The new cell holds the value
/// that the instruction reads, and no other memory cell changes but the stack
/// pointer.
pub proof fn law_push(image: Image, s: Machine, push: Push, module: Seq<char>)
    requires
        image.holds(s.pc, push_code(push, module)),
        push_runs(image, push, module),
        0 <= s.depth(),
        s.sp() < 0x8000,
    ensures
        ({
            let t = image.run(s, load_steps(push) + 4);
            &&& t.pc == s.pc + size(push_code(push, module))
            &&& t.depth() == s.depth() + 1
            &&& t.stack(0) == pushed_value(image, s, push, module)
            &&& forall|address: u16|
                address != 0 && address != s.sp() ==> t.ram[address] == s.ram[address]
        }),
{
    lemma_push(image, s, push, module);
}

/// A `pop` takes the top of the stack and stores it in the cell that the
/// instruction addresses. Unless that cell is the stack pointer itself, the
/// stack is one cell less deep afterwards. No other memory cell changes,
/// except `R13` where the segment is addressable.
pub proof fn law_pop(image: Image, s: Machine, pop: Pop, module: Seq<char>)
    requires
        image.holds(s.pc, pop_code(pop, module)),
        pop_runs(image, pop, module),
        s.depth() >= 1,
    ensures
        ({
            let t = image.run(s, pop_steps(pop));
            let target = pop_target(image, s, pop, module);
            &&& t.pc == s.pc + size(pop_code(pop, module))
            &&& t.ram[target] == s.stack(0)
            &&& target != 0 ==> t.depth() == s.depth() - 1
            &&& forall|address: u16|
                address != 0 && address != target && address != 13 ==> t.ram[address]
                    == s.ram[address]
            &&& !is_addressable(pop.segment) && target != 13 ==> t.ram[13] == s.ram[13]
        }),
{
    lemma_pop(image, s, pop, module);
}

/// For every addressable segment, `push` of a cell followed by `pop` of the
/// same cell leaves the depth of the stack and the value of the cell as they
/// were. Only `R13` and the first free cell above the stack may change.
pub proof fn law_push_then_pop(
    image: Image,
    s: Machine,
    segment: Segment,
    index: u16,
    module: Seq<char>,
)
    requires
        is_addressable(segment),
        index < 0x8000,
        image.holds(
            s.pc,
            push_code(Push { segment, index }, module) + pop_code(Pop { segment, index }, module),
        ),
        0 <= s.depth(),
        s.sp() < 0x8000,
    ensures
        ({
            let t = image.run(s, 21);
            let cell = word(s.register(base_register(segment)) + index);
            &&& t.pc == s.pc + 21
            &&& t.depth() == s.depth()
            &&& t.ram[cell] == s.ram[cell]
            &&& forall|address: u16|
                address != 13 && address != s.sp() ==> t.ram[address] == s.ram[address]
        }),
{
    let push = Push { segment, index };
    let pop = Pop { segment, index };
    lemma_holds_both(image, s.pc, push_code(push, module), pop_code(pop, module));
    lemma_push(image, s, push, module);
    let pushed = image.run(s, 9);
    lemma_pop(image, pushed, pop, module);
    lemma_run_on(image, s, 9, 12);
}

/// A label takes no room in the program: where its declaration is loaded, its
/// qualified name has as its value the position of the instruction that
/// follows.
pub proof fn law_label(image: Image, base: nat, label: LabelView)
    requires
        image.holds(base, label_code(label)),
    ensures
        size(label_code(label)) == 0,
        image.symbols.contains_key(label.qualified_name()),
        image.symbols[label.qualified_name()] == base,
{
    lemma_holds_label(image, base, label.qualified_name());
}

/// A `goto` takes the machine to its label and changes no memory cell.
pub proof fn law_goto(image: Image, s: Machine, label: LabelView)
    requires
        image.holds(s.pc, goto_code(label)),
        image.symbols.contains_key(label.qualified_name()),
    ensures
        image.run(s, 2).pc == image.symbols[label.qualified_name()],
        image.run(s, 2).ram == s.ram,
{
    lemma_jump(image, s, label.qualified_name(), Comp::Zero, Jump::JMP);
}

/// An `if-goto` takes the top cell off the stack. Where the cell was not
/// zero, the machine goes on at the label, else behind the instruction. No
/// memory cell changes but the stack pointer.
pub proof fn law_if_goto(image: Image, s: Machine, label: LabelView)
    requires
        image.holds(s.pc, if_code(label)),
        image.symbols.contains_key(label.qualified_name()),
        s.depth() >= 1,
    ensures
        ({
            let t = image.run(s, 5);
            &&& t.pc == if s.stack(0) != 0 {
                image.symbols[label.qualified_name()] as nat
            } else {
                s.pc + 5
            }
            &&& t.depth() == s.depth() - 1
            &&& forall|address: u16| address != 0 ==> t.ram[address] == s.ram[address]
        }),
{
    let jump = jump_code(label.qualified_name(), Comp::D, Jump::JNE);
    assert(is_plain(pop_d()));
    lemma_size_plain(pop_d());
    lemma_holds_both(image, s.pc, pop_d(), jump);
    lemma_pop_d(image, s);
    let popped = image.run(s, 3);
    lemma_jump(image, popped, label.qualified_name(), Comp::D, Jump::JNE);
    lemma_run_on(image, s, 3, 2);
}

/// `push constant a`, `push constant b`, `add`, `pop local i`, one after the
/// other, leave the sum of `a` and `b` in cell `i` of the local segment and
/// the stack as deep as it was: with 7, 8 and cell 0, the cell holds 15.
pub proof fn law_sum_into_local(
    image: Image,
    s: Machine,
    a: u16,
    b: u16,
    index: u16,
    module: Seq<char>,
    number: nat,
)
    requires
        a < 0x8000,
        b < 0x8000,
        index < 0x8000,
        image.holds(
            s.pc,
            push_code(Push { segment: Segment::Constant, index: a }, module) + push_code(
                Push { segment: Segment::Constant, index: b },
                module,
            ) + arithmetic_code(
                ArithmeticType::Binary(BinaryArithmeticOperator::Add),
                module,
                number,
            ) + pop_code(Pop { segment: Segment::Local, index }, module),
        ),
        0 <= s.depth(),
        s.sp() < 0x8000,
    ensures
        ({
            let t = image.run(s, 29);
            let cell = word(s.register(Register::LCL) + index);
            &&& t.pc == s.pc + 29
            &&& t.ram[cell] == word(a + b)
            &&& cell != 0 ==> t.depth() == s.depth()
            &&& forall|address: u16|
                address != 0 && address != 13 && address != cell && address != s.sp() && address
                    != s.sp() + 1 ==> t.ram[address] == s.ram[address]
        }),
{
    let first = Push { segment: Segment::Constant, index: a };
    let second = Push { segment: Segment::Constant, index: b };
    let pop = Pop { segment: Segment::Local, index };
    let sum = arithmetic_code(
        ArithmeticType::Binary(BinaryArithmeticOperator::Add),
        module,
        number,
    );
    let pushes = push_code(first, module) + push_code(second, module);
    assert(is_plain(sum));
    lemma_size_plain(sum);
    lemma_holds_both(image, s.pc, pushes + sum, pop_code(pop, module));
    lemma_holds_both(image, s.pc, pushes, sum);
    lemma_holds_both(image, s.pc, push_code(first, module), push_code(second, module));
    lemma_push(image, s, first, module);
    let s1 = image.run(s, 6);
    lemma_push(image, s1, second, module);
    let s2 = image.run(s1, 6);
    lemma_run_on(image, s, 6, 6);
    assert(s2.sp() == s.sp() + 2);
    assert(s2.ram[s.sp()] == a && s2.ram[(s.sp() + 1) as u16] == b);
    lemma_binary(image, s2, binary_comp(BinaryArithmeticOperator::Add));
    let s3 = image.run(s2, 5);
    lemma_run_on(image, s, 12, 5);
    assert(s3.sp() == s.sp() + 1);
    assert(s3.ram[s.sp()] == word(a + b));
    assert(s3.register(Register::LCL) == s.register(Register::LCL));
    lemma_pop(image, s3, pop, module);
    lemma_run_on(image, s, 17, 12);
}

} // verus!
