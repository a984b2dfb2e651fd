//! Why the labels of comparisons never collide: not with each other, in one
//! module or across the modules of a program, and not with any symbol that
//! another instruction declares or jumps to.

use crate::assembly::{AsmView, Comp, Dest, Jump, OperandView, Register};
use crate::compiler::{
    aim_code, arithmetic_code, assign, at, at_symbol, branch, call_code, comparison_code,
    comparisons, continue_label, drop_frame, enter_code, frame_code, function_code, go_back,
    hand_back, is_comparison, jump_code, keep_frame, load_code, pop_code, pop_d, push_code,
    push_d, push_zero, reposition_code, restore_code, return_code, save_address_code, save_code,
    static_symbol, store_aimed, translation, translation_at, true_label, zero_locals,
};
use crate::instructions::{
    CallView, FunctionView, InstructionView, LabelView, Pop, Push, Segment,
};
use crate::label_laws::{lemma_numbered_injective, unit_instructions};
use crate::ledger::index_for;
use crate::parser::{
    clean_line, comment_start, line_instruction, read_lines, return_label, trim_end, trim_start,
    words, words_after,
};
use crate::text::is_space;
use crate::program::{build, file_stem, lines_after, lines_of, SourceUnitView};
use crate::text::{decimal, lemma_decimal_digits};
use vstd::prelude::*;

verus! {

/// The two labels of a comparison differ from each other, and from the labels
/// of every comparison of another module or with another number: a label
/// belongs to one module, one number and one of the two kinds.
pub proof fn law_comparison_labels_are_their_own(
    first_module: Seq<char>,
    first: nat,
    second_module: Seq<char>,
    second: nat,
)
    ensures
        true_label(first_module, first) != continue_label(second_module, second),
        first_module != second_module || first != second ==> true_label(first_module, first)
            != true_label(second_module, second),
        first_module != second_module || first != second ==> continue_label(first_module, first)
            != continue_label(second_module, second),
{
    reveal_strlit("%TRUE.");
    reveal_strlit("%CONTINUE.");
    let t = "%TRUE."@;
    let c = "%CONTINUE."@;
    assert(t.len() == 6 && t[2] == 'R' && t[5] == '.');
    assert(c.len() == 10 && c[6] == 'N' && c[9] == '.');
    let t1 = first_module + t;
    let t2 = second_module + t;
    let c1 = first_module + c;
    let c2 = second_module + c;
    assert(t1.last() == '.' && t2.last() == '.' && c1.last() == '.' && c2.last() == '.');
    if true_label(first_module, first) == continue_label(second_module, second) {
        lemma_numbered_injective(t1, first, c2, second);
        assert(t1[t1.len() - 4] == 'R');
        assert(c2[c2.len() - 4] == 'N');
    }
    if true_label(first_module, first) == true_label(second_module, second) {
        lemma_numbered_injective(t1, first, t2, second);
        assert(first_module =~= t1.take(t1.len() - 6));
        assert(second_module =~= t2.take(t2.len() - 6));
    }
    if continue_label(first_module, first) == continue_label(second_module, second) {
        lemma_numbered_injective(c1, first, c2, second);
        assert(first_module =~= c1.take(c1.len() - 10));
        assert(second_module =~= c2.take(c2.len() - 10));
    }
}

/// A longer run of instructions holds no fewer comparisons.
pub proof fn lemma_comparisons_grow(instructions: Seq<InstructionView>, i: int, j: int)
    requires
        0 <= i <= j <= instructions.len(),
    ensures
        comparisons(instructions.take(i)) <= comparisons(instructions.take(j)),
    decreases j - i,
{
    if i < j {
        lemma_comparisons_grow(instructions, i, j - 1);
        assert(instructions.take(j).drop_last() =~= instructions.take(j - 1));
    }
}

/// The number of the comparison at position `i` of a module: its rank among
/// the comparisons of the module, from 1.
pub open spec fn comparison_number(instructions: Seq<InstructionView>, i: int) -> nat {
    comparisons(instructions.take(i + 1))
}

/// The assembly of the comparison at position `i` of a module declares and
/// jumps to the two labels of its module and its number.
pub proof fn lemma_comparison_at(instructions: Seq<InstructionView>, i: int, module: Seq<char>)
    requires
        0 <= i < instructions.len(),
        is_comparison(instructions[i]),
    ensures
        comparison_number(instructions, i) >= 1,
        translation_at(instructions, i, module) matches Ok(code) && code == comparison_code(
            instructions[i]->CArithmetic_0->Binary_0,
            module,
            comparison_number(instructions, i),
        ),
{
    assert(instructions.take(i + 1).drop_last() =~= instructions.take(i));
}

/// Two comparisons of one module never use the same label pair: the later
/// one has the higher number, and none of its two labels is one of the
/// earlier one's.
pub proof fn law_comparison_labels_differ(
    instructions: Seq<InstructionView>,
    module: Seq<char>,
    i: int,
    j: int,
)
    requires
        0 <= i < j < instructions.len(),
        is_comparison(instructions[i]),
        is_comparison(instructions[j]),
    ensures
        ({
            let first = comparison_number(instructions, i);
            let second = comparison_number(instructions, j);
            &&& 1 <= first < second
            &&& true_label(module, first) != true_label(module, second)
            &&& continue_label(module, first) != continue_label(module, second)
            &&& true_label(module, first) != continue_label(module, second)
            &&& continue_label(module, first) != true_label(module, second)
        }),
{
    let first = comparison_number(instructions, i);
    let second = comparison_number(instructions, j);
    assert(instructions.take(i + 1).drop_last() =~= instructions.take(i));
    assert(instructions.take(j + 1).drop_last() =~= instructions.take(j));
    lemma_comparisons_grow(instructions, i + 1, j);
    law_comparison_labels_are_their_own(module, first, module, second);
    law_comparison_labels_are_their_own(module, second, module, first);
}

/// The name of the module that unit `k` of a program is translated as.
pub open spec fn unit_module(units: Seq<SourceUnitView>, k: int) -> Seq<char> {
    file_stem(units[k].file_name)
}

/// No two comparisons of a program share a label, as long as the units of
/// the program have different module names. Each comparison is translated
/// with the name of its module and its number in the module, and the labels
/// of two comparisons in different places of the program differ, whether of
/// the same unit or of two.
pub proof fn law_program_comparison_labels_differ(
    units: Seq<SourceUnitView>,
    a: int,
    i: int,
    b: int,
    j: int,
)
    requires
        0 <= a <= b < units.len(),
        a < b || i < j,
        a < b ==> unit_module(units, a) != unit_module(units, b),
        0 <= i < unit_instructions(units, a).len(),
        0 <= j < unit_instructions(units, b).len(),
        is_comparison(unit_instructions(units, a)[i]),
        is_comparison(unit_instructions(units, b)[j]),
    ensures
        ({
            let first_module = unit_module(units, a);
            let second_module = unit_module(units, b);
            let first = comparison_number(unit_instructions(units, a), i);
            let second = comparison_number(unit_instructions(units, b), j);
            &&& translation_at(unit_instructions(units, a), i, first_module) matches Ok(code)
                && code == comparison_code(
                unit_instructions(units, a)[i]->CArithmetic_0->Binary_0,
                first_module,
                first,
            )
            &&& translation_at(unit_instructions(units, b), j, second_module) matches Ok(code)
                && code == comparison_code(
                unit_instructions(units, b)[j]->CArithmetic_0->Binary_0,
                second_module,
                second,
            )
            &&& true_label(first_module, first) != true_label(second_module, second)
            &&& continue_label(first_module, first) != continue_label(second_module, second)
            &&& true_label(first_module, first) != continue_label(second_module, second)
            &&& continue_label(first_module, first) != true_label(second_module, second)
        }),
{
    let first_module = unit_module(units, a);
    let second_module = unit_module(units, b);
    let first = comparison_number(unit_instructions(units, a), i);
    let second = comparison_number(unit_instructions(units, b), j);
    lemma_comparison_at(unit_instructions(units, a), i, first_module);
    lemma_comparison_at(unit_instructions(units, b), j, second_module);
    if a == b {
        law_comparison_labels_differ(unit_instructions(units, a), first_module, i, j);
    }
    law_comparison_labels_are_their_own(first_module, first, second_module, second);
    law_comparison_labels_are_their_own(second_module, second, first_module, first);
}

/// Whether a text holds no `%`, the character that is kept for the labels of
/// comparisons.
pub open spec fn is_plain_name(name: Seq<char>) -> bool {
    forall|i: int| 0 <= i < name.len() ==> #[trigger] name[i] != '%'
}

/// Whether an instruction of assembly declares the symbol or loads it.
pub open spec fn names_symbol(instruction: AsmView, symbol: Seq<char>) -> bool {
    instruction == AsmView::Label(symbol) || instruction == AsmView::At(
        OperandView::Symbol(symbol),
    )
}

/// Whether a piece of assembly declares the symbol or jumps to it or reads
/// or writes the cell of that name.
pub open spec fn mentions(code: Seq<AsmView>, symbol: Seq<char>) -> bool {
    exists|i: int| 0 <= i < code.len() && names_symbol(#[trigger] code[i], symbol)
}

/// Whether a piece of assembly declares no label and loads no symbol.
pub open spec fn is_nameless(code: Seq<AsmView>) -> bool {
    forall|i: int|
        0 <= i < code.len() ==> !(#[trigger] code[i] is Label) && !(code[i] matches AsmView::At(
            OperandView::Symbol(_),
        ))
}

/// Whether the names that an instruction holds are all plain.
pub open spec fn has_plain_names(instruction: InstructionView) -> bool {
    match instruction {
        InstructionView::CLabel(label) | InstructionView::CGoto(label) | InstructionView::CIf(
            label,
        ) => is_plain_name(label.parent_function) && is_plain_name(label.label_name),
        InstructionView::CFunction(function) => is_plain_name(function.function_name),
        InstructionView::CCall(call) => is_plain_name(call.function_name) && is_plain_name(
            call.return_address_label,
        ),
        _ => true,
    }
}

/// A piece made of two mentions what either of them mentions.
pub proof fn lemma_mentions_both(first: Seq<AsmView>, second: Seq<AsmView>, symbol: Seq<char>)
    ensures
        mentions(first + second, symbol) == (mentions(first, symbol) || mentions(second, symbol)),
{
    let both = first + second;
    if mentions(both, symbol) {
        let i = choose|i: int| 0 <= i < both.len() && names_symbol(#[trigger] both[i], symbol);
        if i < first.len() {
            assert(names_symbol(first[i], symbol));
        } else {
            assert(names_symbol(second[i - first.len()], symbol));
        }
    }
    if mentions(first, symbol) {
        let i = choose|i: int| 0 <= i < first.len() && names_symbol(#[trigger] first[i], symbol);
        assert(names_symbol(both[i], symbol));
    }
    if mentions(second, symbol) {
        let i = choose|i: int| 0 <= i < second.len() && names_symbol(#[trigger] second[i], symbol);
        assert(names_symbol(both[i + first.len()], symbol));
    }
}

/// A nameless piece mentions no symbol.
pub proof fn lemma_nameless(code: Seq<AsmView>, symbol: Seq<char>)
    requires
        is_nameless(code),
    ensures
        !mentions(code, symbol),
{
}

/// The zeros of a function head mention no symbol.
pub proof fn lemma_zero_locals_nameless(n: nat, symbol: Seq<char>)
    ensures
        !mentions(zero_locals(n), symbol),
    decreases n,
{
    if n > 0 {
        lemma_zero_locals_nameless((n - 1) as nat, symbol);
        assert(is_nameless(push_zero()));
        lemma_mentions_both(zero_locals((n - 1) as nat), push_zero(), symbol);
    }
}

/// Two plain texts one after the other are a plain text.
pub proof fn lemma_plain_both(first: Seq<char>, second: Seq<char>)
    requires
        is_plain_name(first),
        is_plain_name(second),
    ensures
        is_plain_name(first + second),
{
    let both = first + second;
    assert forall|i: int| 0 <= i < both.len() implies #[trigger] both[i] != '%' by {
        if i < first.len() {
            assert(both[i] == first[i]);
        } else {
            assert(both[i] == second[i - first.len()]);
        }
    }
}

/// The symbol of a static cell of a module with a plain name is plain.
pub proof fn lemma_static_symbol_plain(module: Seq<char>, index: u16)
    requires
        is_plain_name(module),
    ensures
        is_plain_name(static_symbol(module, index)),
{
    reveal_strlit(".");
    lemma_decimal_digits(index as nat);
    lemma_plain_both(module, "."@);
    lemma_plain_both(module + "."@, decimal(index as nat));
}

/// The qualified name of a label with plain names is plain.
pub proof fn lemma_qualified_name_plain(label: LabelView)
    requires
        is_plain_name(label.parent_function),
        is_plain_name(label.label_name),
    ensures
        is_plain_name(label.qualified_name()),
{
    reveal_strlit("null");
    reveal_strlit("$");
    let owner = if label.parent_function.len() == 0 {
        "null"@
    } else {
        label.parent_function
    };
    lemma_plain_both(owner, "$"@);
    lemma_plain_both(owner + "$"@, label.label_name);
}

/// The return label of a call of a function with a plain name is plain.
pub proof fn lemma_return_label_plain(function: Seq<char>, index: nat)
    requires
        is_plain_name(function),
    ensures
        is_plain_name(return_label(function, index)),
{
    reveal_strlit("&ret.");
    lemma_decimal_digits(index);
    lemma_plain_both(function, "&ret."@);
    lemma_plain_both(function + "&ret."@, decimal(index));
}

/// The labels of comparisons are not plain.
pub proof fn lemma_comparison_labels_not_plain(module: Seq<char>, number: nat)
    ensures
        !is_plain_name(true_label(module, number)),
        !is_plain_name(continue_label(module, number)),
{
    reveal_strlit("%TRUE.");
    reveal_strlit("%CONTINUE.");
    assert("%TRUE."@[0] == '%');
    assert("%CONTINUE."@[0] == '%');
    assert(true_label(module, number)[module.len() as int] == '%');
    assert(continue_label(module, number)[module.len() as int] == '%');
}

/// Two nameless pieces one after the other are a nameless piece.
pub proof fn lemma_nameless_both(first: Seq<AsmView>, second: Seq<AsmView>)
    requires
        is_nameless(first),
        is_nameless(second),
    ensures
        is_nameless(first + second),
{
    let both = first + second;
    assert forall|i: int| 0 <= i < both.len() implies !(#[trigger] both[i] is Label) && !(
    both[i] matches AsmView::At(OperandView::Symbol(_))) by {
        if i < first.len() {
            assert(both[i] == first[i]);
        } else {
            assert(both[i] == second[i - first.len()]);
        }
    }
}

/// A piece of one instruction mentions only what the instruction names.
pub proof fn lemma_mentions_one(instruction: AsmView, symbol: Seq<char>)
    ensures
        mentions(seq![instruction], symbol) == names_symbol(instruction, symbol),
{
    let code = seq![instruction];
    if mentions(code, symbol) {
        let i = choose|i: int| 0 <= i < code.len() && names_symbol(#[trigger] code[i], symbol);
        assert(code[i] == instruction);
    }
    if names_symbol(instruction, symbol) {
        assert(names_symbol(code[0], symbol));
    }
}

/// A jump mentions the symbol it jumps to, and no other.
pub proof fn lemma_jump_mentions(
    target: Seq<char>,
    comp: Comp,
    jump: Jump,
    symbol: Seq<char>,
)
    ensures
        mentions(jump_code(target, comp, jump), symbol) == (symbol == target),
{
    let load = seq![at_symbol(target)];
    let go = seq![branch(comp, jump)];
    assert(jump_code(target, comp, jump) =~= load + go);
    lemma_mentions_both(load, go, symbol);
    lemma_mentions_one(at_symbol(target), symbol);
    lemma_mentions_one(branch(comp, jump), symbol);
}

/// A `push` mentions the symbol of its static cell, and no other symbol.
pub proof fn lemma_push_mentions(push: Push, module: Seq<char>, symbol: Seq<char>)
    requires
        mentions(push_code(push, module), symbol),
    ensures
        push.segment is Static,
        symbol == static_symbol(module, push.index),
{
    let load = load_code(push, module);
    lemma_mentions_both(load, push_d(), symbol);
    assert(is_nameless(push_d()));
    if push.segment is Static {
        let first = seq![at_symbol(static_symbol(module, push.index))];
        let second = seq![assign(Dest::D, Comp::M)];
        assert(load =~= first + second);
        lemma_mentions_both(first, second, symbol);
        lemma_mentions_one(at_symbol(static_symbol(module, push.index)), symbol);
        lemma_mentions_one(assign(Dest::D, Comp::M), symbol);
    } else {
        assert(is_nameless(load));
    }
}

/// A `pop` mentions the symbol of its static cell, and no other symbol.
pub proof fn lemma_pop_mentions(pop: Pop, module: Seq<char>, symbol: Seq<char>)
    requires
        !(pop.segment is Constant),
        mentions(pop_code(pop, module), symbol),
    ensures
        pop.segment is Static,
        symbol == static_symbol(module, pop.index),
{
    assert(is_nameless(pop_d()));
    if pop.segment is Static {
        let first = seq![at_symbol(static_symbol(module, pop.index))];
        let second = seq![assign(Dest::M, Comp::D)];
        assert(pop_code(pop, module) =~= pop_d() + (first + second));
        lemma_mentions_both(pop_d(), first + second, symbol);
        lemma_mentions_both(first, second, symbol);
        lemma_mentions_one(at_symbol(static_symbol(module, pop.index)), symbol);
        lemma_mentions_one(assign(Dest::M, Comp::D), symbol);
    } else if pop.segment is Temp || pop.segment is Pointer {
        assert(is_nameless(pop_code(pop, module)));
    } else {
        assert(is_nameless(aim_code(pop.segment, pop.index)));
        assert(is_nameless(store_aimed()));
        lemma_nameless_both(aim_code(pop.segment, pop.index), pop_d());
        lemma_nameless_both(aim_code(pop.segment, pop.index) + pop_d(), store_aimed());
    }
}

/// A function head mentions the function's name, and no other symbol.
pub proof fn lemma_function_mentions(function: FunctionView, symbol: Seq<char>)
    requires
        mentions(function_code(function), symbol),
    ensures
        symbol == function.function_name,
{
    let mark = seq![AsmView::Label(function.function_name)];
    lemma_mentions_both(mark, zero_locals(function.n_locals as nat), symbol);
    lemma_zero_locals_nameless(function.n_locals as nat, symbol);
    lemma_mentions_one(AsmView::Label(function.function_name), symbol);
}

/// Saving a register mentions no symbol.
pub proof fn lemma_save_nameless(register: Register)
    ensures
        is_nameless(save_code(register)),
{
    let head = seq![at(register), assign(Dest::D, Comp::M)];
    assert(is_nameless(head));
    assert(is_nameless(push_d()));
    lemma_nameless_both(head, push_d());
}

/// A call mentions its return label and the name of its callee, and no
/// other symbol.
pub proof fn lemma_call_mentions(call: CallView, symbol: Seq<char>)
    requires
        mentions(call_code(call), symbol),
    ensures
        symbol == call.return_address_label || symbol == call.function_name,
{
    let label = call.return_address_label;
    let load = seq![at_symbol(label)];
    let keep = seq![assign(Dest::D, Comp::A)];
    let lcl = save_code(Register::LCL);
    let arg = save_code(Register::ARG);
    let this = save_code(Register::THIS);
    let that = save_code(Register::THAT);
    let reposition = reposition_code(call.n_args);
    let jump = jump_code(call.function_name, Comp::Zero, Jump::JMP);
    let mark = seq![AsmView::Label(label)];
    let frame = frame_code(label);
    let address = save_address_code(label);
    assert(address =~= load + keep + push_d());
    lemma_mentions_both(frame, enter_code(call), symbol);
    lemma_mentions_both(address + lcl + arg + this, that, symbol);
    lemma_mentions_both(address + lcl + arg, this, symbol);
    lemma_mentions_both(address + lcl, arg, symbol);
    lemma_mentions_both(address, lcl, symbol);
    lemma_mentions_both(load + keep, push_d(), symbol);
    lemma_mentions_both(load, keep, symbol);
    lemma_mentions_one(at_symbol(label), symbol);
    lemma_mentions_one(assign(Dest::D, Comp::A), symbol);
    assert(is_nameless(push_d()));
    lemma_save_nameless(Register::LCL);
    lemma_save_nameless(Register::ARG);
    lemma_save_nameless(Register::THIS);
    lemma_save_nameless(Register::THAT);
    lemma_mentions_both(reposition + jump, mark, symbol);
    lemma_mentions_both(reposition, jump, symbol);
    assert(is_nameless(reposition));
    lemma_jump_mentions(call.function_name, Comp::Zero, Jump::JMP, symbol);
    lemma_mentions_one(AsmView::Label(label), symbol);
}

/// Restoring a register mentions no symbol.
pub proof fn lemma_restore_nameless(register: Register)
    ensures
        is_nameless(restore_code(register)),
{
}

/// A return mentions no symbol.
pub proof fn lemma_return_nameless()
    ensures
        is_nameless(return_code()),
{
    let that = restore_code(Register::THAT);
    let this = restore_code(Register::THIS);
    let arg = restore_code(Register::ARG);
    let lcl = restore_code(Register::LCL);
    lemma_restore_nameless(Register::THAT);
    lemma_restore_nameless(Register::THIS);
    lemma_restore_nameless(Register::ARG);
    lemma_restore_nameless(Register::LCL);
    assert(is_nameless(keep_frame()));
    assert(is_nameless(pop_d()));
    assert(is_nameless(aim_code(Segment::Argument, 0)));
    assert(is_nameless(store_aimed()));
    assert(is_nameless(drop_frame()));
    assert(is_nameless(go_back()));
    lemma_nameless_both(aim_code(Segment::Argument, 0), pop_d());
    lemma_nameless_both(aim_code(Segment::Argument, 0) + pop_d(), store_aimed());
    lemma_nameless_both(keep_frame(), hand_back());
    lemma_nameless_both(keep_frame() + hand_back(), drop_frame());
    let dropped = keep_frame() + hand_back() + drop_frame();
    lemma_nameless_both(dropped, that);
    lemma_nameless_both(dropped + that, this);
    lemma_nameless_both(dropped + that + this, arg);
    lemma_nameless_both(dropped + that + this + arg, lcl);
    lemma_nameless_both(dropped + that + this + arg + lcl, go_back());
}

/// Every symbol that the assembly of an instruction other than a comparison
/// mentions is plain, where the names in the instruction and the name of the
/// module are.
pub proof fn lemma_symbols_plain(
    instruction: InstructionView,
    module: Seq<char>,
    number: nat,
    symbol: Seq<char>,
)
    requires
        !is_comparison(instruction),
        has_plain_names(instruction),
        is_plain_name(module),
        translation(instruction, module, number) matches Ok(code) && mentions(code, symbol),
    ensures
        is_plain_name(symbol),
{
    match instruction {
        InstructionView::CArithmetic(operator) => {
            assert(is_nameless(arithmetic_code(operator, module, number)));
        },
        InstructionView::CPush(push) => {
            lemma_push_mentions(push, module, symbol);
            lemma_static_symbol_plain(module, push.index);
        },
        InstructionView::CPop(pop) => {
            lemma_pop_mentions(pop, module, symbol);
            lemma_static_symbol_plain(module, pop.index);
        },
        InstructionView::CLabel(label) => {
            lemma_qualified_name_plain(label);
            lemma_mentions_one(AsmView::Label(label.qualified_name()), symbol);
        },
        InstructionView::CGoto(label) => {
            lemma_qualified_name_plain(label);
            lemma_jump_mentions(label.qualified_name(), Comp::Zero, Jump::JMP, symbol);
        },
        InstructionView::CIf(label) => {
            lemma_qualified_name_plain(label);
            let jump = jump_code(label.qualified_name(), Comp::D, Jump::JNE);
            lemma_mentions_both(pop_d(), jump, symbol);
            assert(is_nameless(pop_d()));
            lemma_jump_mentions(label.qualified_name(), Comp::D, Jump::JNE, symbol);
        },
        InstructionView::CFunction(function) => {
            lemma_function_mentions(function, symbol);
        },
        InstructionView::CReturn => {
            lemma_return_nameless();
        },
        InstructionView::CCall(call) => {
            lemma_call_mentions(call, symbol);
        },
    }
}

/// A plain text without the whitespace at its start is plain.
pub proof fn lemma_trim_start_plain(s: Seq<char>)
    requires
        is_plain_name(s),
    ensures
        is_plain_name(trim_start(s)),
    decreases s.len(),
{
    if s.len() > 0 && is_space(s[0]) {
        let rest = s.drop_first();
        assert forall|i: int| 0 <= i < rest.len() implies #[trigger] rest[i] != '%' by {
            assert(rest[i] == s[i + 1]);
        }
        lemma_trim_start_plain(rest);
    }
}

/// A plain text without the whitespace at its end is plain.
pub proof fn lemma_trim_end_plain(s: Seq<char>)
    requires
        is_plain_name(s),
    ensures
        is_plain_name(trim_end(s)),
    decreases s.len(),
{
    if s.len() > 0 && is_space(s.last()) {
        let rest = s.drop_last();
        assert forall|i: int| 0 <= i < rest.len() implies #[trigger] rest[i] != '%' by {
            assert(rest[i] == s[i]);
        }
        lemma_trim_end_plain(rest);
    }
}

/// The words of a plain text are plain.
pub proof fn lemma_words_plain(s: Seq<char>, current: Seq<char>)
    requires
        is_plain_name(s),
        is_plain_name(current),
    ensures
        forall|j: int|
            0 <= j < words_after(s, current).len() ==> is_plain_name(
                #[trigger] words_after(s, current)[j],
            ),
    decreases s.len(),
{
    if s.len() > 0 {
        let rest = s.drop_first();
        assert forall|i: int| 0 <= i < rest.len() implies #[trigger] rest[i] != '%' by {
            assert(rest[i] == s[i + 1]);
        }
        if is_space(s[0]) {
            lemma_words_plain(rest, Seq::empty());
            let tail = words_after(rest, Seq::empty());
            let all = words_after(s, current);
            assert forall|j: int| 0 <= j < all.len() implies is_plain_name(#[trigger] all[j]) by {
                if current.len() > 0 {
                    assert(all == seq![current] + tail);
                    if j > 0 {
                        assert(all[j] == tail[j - 1]);
                    }
                } else {
                    assert(all == Seq::<Seq<char>>::empty() + tail);
                    assert(all[j] == tail[j]);
                }
            }
        } else {
            let longer = current.push(s[0]);
            assert forall|i: int| 0 <= i < longer.len() implies #[trigger] longer[i] != '%' by {
                if i < current.len() {
                    assert(longer[i] == current[i]);
                }
            }
            lemma_words_plain(rest, longer);
            assert(words_after(s, current) == words_after(rest, longer));
        }
    } else {
        let all = words_after(s, current);
        assert forall|j: int| 0 <= j < all.len() implies is_plain_name(#[trigger] all[j]) by {
            assert(all == seq![current]);
            assert(all[j] == current);
        }
    }
}

/// The words of a line of plain text are plain.
pub proof fn lemma_line_words_plain(line: Seq<char>)
    requires
        is_plain_name(line),
    ensures
        forall|j: int|
            0 <= j < words(clean_line(line)).len() ==> is_plain_name(
                #[trigger] words(clean_line(line))[j],
            ),
{
    let code = line.take(comment_start(line) as int);
    lemma_comment_start_inside(line);
    assert forall|i: int| 0 <= i < code.len() implies #[trigger] code[i] != '%' by {
        assert(code[i] == line[i]);
    }
    lemma_trim_start_plain(code);
    lemma_trim_end_plain(trim_start(code));
    lemma_words_plain(clean_line(line), Seq::empty());
}

/// The comment of a line starts inside the line or at its end.
pub proof fn lemma_comment_start_inside(line: Seq<char>)
    ensures
        comment_start(line) <= line.len(),
    decreases line.len(),
{
    if line.len() >= 2 && !(line[0] == '/' && line[1] == '/') {
        lemma_comment_start_inside(line.drop_first());
    }
}

/// In a module of plain text every name is plain: the names that the
/// instructions hold, and the name of the function that owns the labels.
pub proof fn lemma_plain_text_plain_names(
    lines: Seq<Seq<char>>,
    n: nat,
    table: Map<Seq<char>, nat>,
)
    requires
        n <= lines.len(),
        forall|k: int| 0 <= k < lines.len() ==> is_plain_name(#[trigger] lines[k]),
    ensures
        is_plain_name(read_lines(lines, n, table).state.scope),
        forall|i: int|
            0 <= i < read_lines(lines, n, table).state.instructions.len() ==> has_plain_names(
                #[trigger] read_lines(lines, n, table).state.instructions[i],
            ),
    decreases n,
{
    if n > 0 {
        lemma_plain_text_plain_names(lines, (n - 1) as nat, table);
        let before = read_lines(lines, (n - 1) as nat, table);
        let reading = read_lines(lines, n, table);
        let w = words(clean_line(lines[n - 1]));
        lemma_line_words_plain(lines[n - 1]);
        if before.failure is None && w.len() > 0 {
            if let Ok(instruction) = line_instruction(w, before.state.scope, before.state.table) {
                if w.len() >= 2 {
                    assert(is_plain_name(w[1]));
                    lemma_return_label_plain(w[1], index_for(before.state.table, w[1]));
                }
                assert(has_plain_names(instruction));
                let earlier = before.state.instructions;
                let later = reading.state.instructions;
                assert(later == earlier.push(instruction));
                assert forall|i: int| 0 <= i < later.len() implies has_plain_names(
                    #[trigger] later[i],
                ) by {
                    if i < earlier.len() {
                        assert(later[i] == earlier[i]);
                    }
                }
            }
        }
    }
}

/// Only a comparison declares or jumps to the label of a comparison. No
/// other instruction whose names are plain, translated for a module with a
/// plain name, mentions a label of any comparison of any module: a function
/// or a label may be called `TRUE.1`, and is still another symbol.
pub proof fn law_only_comparisons_mention_their_labels(
    instruction: InstructionView,
    module: Seq<char>,
    number: nat,
    symbol: Seq<char>,
    comparing_module: Seq<char>,
    comparison: nat,
)
    requires
        !is_comparison(instruction),
        has_plain_names(instruction),
        is_plain_name(module),
        translation(instruction, module, number) matches Ok(code) && mentions(code, symbol),
    ensures
        symbol != true_label(comparing_module, comparison),
        symbol != continue_label(comparing_module, comparison),
{
    lemma_symbols_plain(instruction, module, number, symbol);
    lemma_comparison_labels_not_plain(comparing_module, comparison);
}

/// The lines of a plain text are plain.
pub proof fn lemma_lines_plain(s: Seq<char>, current: Seq<char>)
    requires
        is_plain_name(s),
        is_plain_name(current),
    ensures
        forall|j: int|
            0 <= j < lines_after(s, current).len() ==> is_plain_name(
                #[trigger] lines_after(s, current)[j],
            ),
    decreases s.len(),
{
    let all = lines_after(s, current);
    if s.len() > 0 {
        let rest = s.drop_first();
        assert forall|i: int| 0 <= i < rest.len() implies #[trigger] rest[i] != '%' by {
            assert(rest[i] == s[i + 1]);
        }
        if s[0] == '\n' {
            lemma_lines_plain(rest, Seq::empty());
            let tail = lines_after(rest, Seq::empty());
            assert forall|j: int| 0 <= j < all.len() implies is_plain_name(#[trigger] all[j]) by {
                assert(all == seq![current] + tail);
                if j > 0 {
                    assert(all[j] == tail[j - 1]);
                }
            }
        } else {
            let longer = current.push(s[0]);
            assert forall|i: int| 0 <= i < longer.len() implies #[trigger] longer[i] != '%' by {
                if i < current.len() {
                    assert(longer[i] == current[i]);
                }
            }
            lemma_lines_plain(rest, longer);
            assert(all == lines_after(rest, longer));
        }
    } else {
        assert forall|j: int| 0 <= j < all.len() implies is_plain_name(#[trigger] all[j]) by {
            assert(all == seq![current]);
            assert(all[j] == current);
        }
    }
}

/// In a program, only a comparison declares or jumps to the label of a
/// comparison, of its own unit or of any other. This holds of every unit
/// whose text and whose module name are plain: `%` stands in no name of the
/// VM language, and the labels of comparisons all hold it.
pub proof fn law_program_only_comparisons_mention_their_labels(
    units: Seq<SourceUnitView>,
    a: int,
    i: int,
    symbol: Seq<char>,
    comparing_module: Seq<char>,
    comparison: nat,
)
    requires
        0 <= a < units.len(),
        is_plain_name(units[a].contents),
        is_plain_name(unit_module(units, a)),
        0 <= i < unit_instructions(units, a).len(),
        !is_comparison(unit_instructions(units, a)[i]),
        translation_at(unit_instructions(units, a), i, unit_module(units, a)) matches Ok(code)
            && mentions(code, symbol),
    ensures
        symbol != true_label(comparing_module, comparison),
        symbol != continue_label(comparing_module, comparison),
{
    let lines = lines_of(units[a].contents);
    let table = build(units, a as nat).table;
    let instructions = unit_instructions(units, a);
    lemma_lines_plain(units[a].contents, Seq::empty());
    lemma_plain_text_plain_names(lines, lines.len(), table);
    assert(has_plain_names(instructions[i]));
    law_only_comparisons_mention_their_labels(
        instructions[i],
        unit_module(units, a),
        comparison_number(instructions, i),
        symbol,
        comparing_module,
        comparison,
    );
}

} // verus!
