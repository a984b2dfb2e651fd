//! What the pieces of emitted assembly do to the machine, one lemma for each
//! piece. Each lemma takes the machine at the first instruction of a loaded
//! piece and gives the state at which the piece is left.

use crate::assembly::{AsmView, Comp, Dest, Jump, Register};
use crate::compiler::{
    aim_code, answer_false, answer_true, assign, at, at_number, at_symbol, base_register,
    compare_and_jump, comparison_code, comparison_jump, continue_label, drop_frame, frame_code,
    go_back, is_addressable, jump_code, keep_frame, load_code, pointer_register, pop_code, pop_d,
    push_code, push_d, push_zero, reposition_code, restore_code, rewrite_top, save_address_code,
    save_code, static_symbol, store_aimed, take_operands, true_label, zero_locals,
};
use crate::instructions::{BinaryArithmeticOperator, Pop, Push, Segment};
use crate::machine::{
    compute, is_plain, lemma_fetch, lemma_holds_both, lemma_run_on, lemma_size_both,
    lemma_size_plain, size, taken, word, Image, Machine,
};
use vstd::prelude::*;

verus! {

/// `rewrite_top` replaces the top of the stack by what is computed from it.
pub proof fn lemma_rewrite_top(image: Image, s: Machine, comp: Comp)
    requires
        image.holds(s.pc, rewrite_top(comp)),
    ensures
        image.run(s, 3) == (Machine {
            a: word(s.sp() - 1),
            d: s.d,
            pc: s.pc + 3,
            ram: s.ram.insert(
                word(s.sp() - 1),
                compute(comp, word(s.sp() - 1), s.d, s.ram[word(s.sp() - 1)]),
            ),
        }),
{
    let code = rewrite_top(comp);
    assert(is_plain(code));
    lemma_fetch(image, s.pc, code, 0);
    lemma_fetch(image, s.pc, code, 1);
    lemma_fetch(image, s.pc, code, 2);
    reveal_with_fuel(Image::run, 4);
}

/// `push_d` stores `D` in the first free stack cell and moves the stack
/// pointer one up.
pub proof fn lemma_push_d(image: Image, s: Machine)
    requires
        image.holds(s.pc, push_d()),
    ensures
        image.run(s, 4) == (Machine {
            a: s.sp(),
            d: s.d,
            pc: s.pc + 4,
            ram: s.ram.insert(0, word(s.sp() + 1)).insert(s.sp(), s.d),
        }),
{
    let code = push_d();
    assert(is_plain(code));
    lemma_fetch(image, s.pc, code, 0);
    lemma_fetch(image, s.pc, code, 1);
    lemma_fetch(image, s.pc, code, 2);
    lemma_fetch(image, s.pc, code, 3);
    reveal_with_fuel(Image::run, 5);
    assert(word(word(s.sp() + 1) - 1) == s.sp());
}

/// `pop_d` moves the stack pointer one down and brings the cell it then
/// points to into `D`.
pub proof fn lemma_pop_d(image: Image, s: Machine)
    requires
        image.holds(s.pc, pop_d()),
        s.sp() >= 2,
    ensures
        image.run(s, 3) == (Machine {
            a: (s.sp() - 1) as u16,
            d: s.ram[(s.sp() - 1) as u16],
            pc: s.pc + 3,
            ram: s.ram.insert(0, (s.sp() - 1) as u16),
        }),
{
    let code = pop_d();
    assert(is_plain(code));
    lemma_fetch(image, s.pc, code, 0);
    lemma_fetch(image, s.pc, code, 1);
    lemma_fetch(image, s.pc, code, 2);
    reveal_with_fuel(Image::run, 4);
}

/// `take_operands` brings the top of the stack into `D` and leaves `A`
/// pointing at the cell below.
pub proof fn lemma_take_operands(image: Image, s: Machine)
    requires
        image.holds(s.pc, take_operands()),
        s.sp() >= 2,
    ensures
        image.run(s, 4) == (Machine {
            a: (s.sp() - 2) as u16,
            d: s.ram[(s.sp() - 1) as u16],
            pc: s.pc + 4,
            ram: s.ram.insert(0, (s.sp() - 1) as u16),
        }),
{
    let code = take_operands();
    assert(is_plain(code));
    lemma_fetch(image, s.pc, code, 0);
    lemma_fetch(image, s.pc, code, 1);
    lemma_fetch(image, s.pc, code, 2);
    lemma_fetch(image, s.pc, code, 3);
    reveal_with_fuel(Image::run, 5);
}

/// `save_code` puts the content of a register on the stack.
pub proof fn lemma_save(image: Image, s: Machine, register: Register)
    requires
        image.holds(s.pc, save_code(register)),
    ensures
        image.run(s, 6) == (Machine {
            a: s.sp(),
            d: s.register(register),
            pc: s.pc + 6,
            ram: s.ram.insert(0, word(s.sp() + 1)).insert(s.sp(), s.register(register)),
        }),
{
    let head = seq![at(register), assign(Dest::D, Comp::M)];
    assert(is_plain(head));
    lemma_holds_both(image, s.pc, head, push_d());
    lemma_size_plain(head);
    lemma_fetch(image, s.pc, head, 0);
    lemma_fetch(image, s.pc, head, 1);
    reveal_with_fuel(Image::run, 3);
    let loaded = image.run(s, 2);
    assert(loaded == Machine { a: register.address(), d: s.register(register), pc: s.pc + 2, ..s });
    lemma_push_d(image, loaded);
    lemma_run_on(image, s, 2, 4);
}

/// `aim_code` leaves in `R13` the address of a cell of an addressable segment.
pub proof fn lemma_aim(image: Image, s: Machine, segment: Segment, index: u16)
    requires
        image.holds(s.pc, aim_code(segment, index)),
        index < 0x8000,
    ensures
        image.run(s, 6) == (Machine {
            a: 13,
            d: word(s.register(base_register(segment)) + index),
            pc: s.pc + 6,
            ram: s.ram.insert(
                13,
                word(s.register(base_register(segment)) + index),
            ),
        }),
{
    let code = aim_code(segment, index);
    assert(is_plain(code));
    lemma_fetch(image, s.pc, code, 0);
    lemma_fetch(image, s.pc, code, 1);
    lemma_fetch(image, s.pc, code, 2);
    lemma_fetch(image, s.pc, code, 3);
    lemma_fetch(image, s.pc, code, 4);
    lemma_fetch(image, s.pc, code, 5);
    reveal_with_fuel(Image::run, 7);
}

/// `store_aimed` stores `D` in the cell whose address is in `R13`.
pub proof fn lemma_store_aimed(image: Image, s: Machine)
    requires
        image.holds(s.pc, store_aimed()),
    ensures
        image.run(s, 3) == (Machine {
            a: s.ram[13],
            d: s.d,
            pc: s.pc + 3,
            ram: s.ram.insert(s.ram[13], s.d),
        }),
{
    let code = store_aimed();
    assert(is_plain(code));
    lemma_fetch(image, s.pc, code, 0);
    lemma_fetch(image, s.pc, code, 1);
    lemma_fetch(image, s.pc, code, 2);
    reveal_with_fuel(Image::run, 4);
}

/// A label declaration alone is loaded where the label has the position as
/// its value.
pub proof fn lemma_holds_label(image: Image, base: nat, name: Seq<char>)
    ensures
        image.holds(base, seq![AsmView::Label(name)]) == (image.symbols.contains_key(name)
            && image.symbols[name] == base),
        size(seq![AsmView::Label(name)]) == 0,
{
    let code = seq![AsmView::Label(name)];
    assert(code[0] == AsmView::Label(name));
    assert(code.drop_first().len() == 0);
    reveal_with_fuel(Image::holds, 2);
    reveal_with_fuel(size, 2);
}

/// `jump_code` goes to the value of the symbol where the condition holds, and
/// to the next instruction where it does not. `A` holds the value either way.
pub proof fn lemma_jump(image: Image, s: Machine, symbol: Seq<char>, comp: Comp, jump: Jump)
    requires
        image.holds(s.pc, jump_code(symbol, comp, jump)),
        image.symbols.contains_key(symbol),
    ensures
        ({
            let target = image.symbols[symbol];
            image.run(s, 2) == (Machine {
                a: target,
                d: s.d,
                pc: if taken(jump, compute(comp, target, s.d, s.ram[target])) {
                    target as nat
                } else {
                    s.pc + 2
                },
                ram: s.ram,
            })
        }),
{
    let code = jump_code(symbol, comp, jump);
    assert(is_plain(code));
    lemma_fetch(image, s.pc, code, 0);
    lemma_fetch(image, s.pc, code, 1);
    reveal_with_fuel(Image::run, 3);
}

/// A computing operator stores its result in the place of its first operand
/// and takes the second off the stack.
pub proof fn lemma_binary(image: Image, s: Machine, comp: Comp)
    requires
        image.holds(s.pc, take_operands().push(assign(Dest::M, comp))),
        s.sp() >= 3,
    ensures
        image.run(s, 5) == (Machine {
            a: (s.sp() - 2) as u16,
            d: s.ram[(s.sp() - 1) as u16],
            pc: s.pc + 5,
            ram: s.ram.insert(0, (s.sp() - 1) as u16).insert(
                (s.sp() - 2) as u16,
                compute(
                    comp,
                    (s.sp() - 2) as u16,
                    s.ram[(s.sp() - 1) as u16],
                    s.ram[(s.sp() - 2) as u16],
                ),
            ),
        }),
{
    let last = seq![assign(Dest::M, comp)];
    assert(take_operands().push(assign(Dest::M, comp)) =~= take_operands() + last);
    assert(is_plain(take_operands()));
    assert(is_plain(last));
    lemma_holds_both(image, s.pc, take_operands(), last);
    lemma_size_plain(take_operands());
    lemma_take_operands(image, s);
    let taken_off = image.run(s, 4);
    lemma_fetch(image, taken_off.pc, last, 0);
    reveal_with_fuel(Image::run, 2);
    assert(image.run(taken_off, 1) == image.step(taken_off));
    lemma_run_on(image, s, 4, 1);
}

/// Where the parts of a comparison stand, and what its two labels are worth.
pub proof fn lemma_comparison_parts(
    image: Image,
    base: nat,
    operator: BinaryArithmeticOperator,
    module: Seq<char>,
    number: nat,
)
    requires
        image.holds(base, comparison_code(operator, module, number)),
    ensures
        image.holds(base, take_operands()),
        image.holds(base + 4, seq![assign(Dest::D, Comp::MMinusD)]),
        image.holds(
            base + 5,
            jump_code(true_label(module, number), Comp::D, comparison_jump(operator)),
        ),
        image.holds(base + 7, rewrite_top(Comp::Zero)),
        image.holds(base + 10, jump_code(continue_label(module, number), Comp::Zero, Jump::JMP)),
        image.holds(base + 12, rewrite_top(Comp::MinusOne)),
        image.symbols.contains_key(true_label(module, number)),
        image.symbols[true_label(module, number)] == base + 12,
        image.symbols.contains_key(continue_label(module, number)),
        image.symbols[continue_label(module, number)] == base + 15,
{
    let jump = comparison_jump(operator);
    let subtract = seq![assign(Dest::D, Comp::MMinusD)];
    let to_true = jump_code(true_label(module, number), Comp::D, jump);
    let to_end = jump_code(continue_label(module, number), Comp::Zero, Jump::JMP);
    let true_mark = seq![AsmView::Label(true_label(module, number))];
    let end_mark = seq![AsmView::Label(continue_label(module, number))];
    let head = take_operands() + subtract;
    assert(take_operands().push(assign(Dest::D, Comp::MMinusD)) =~= head);
    assert(is_plain(take_operands()));
    assert(is_plain(subtract));
    assert(is_plain(to_true));
    assert(is_plain(to_end));
    assert(is_plain(rewrite_top(Comp::Zero)));
    assert(is_plain(rewrite_top(Comp::MinusOne)));
    lemma_size_plain(take_operands());
    lemma_size_plain(subtract);
    lemma_size_plain(to_true);
    lemma_size_plain(to_end);
    lemma_size_plain(rewrite_top(Comp::Zero));
    lemma_size_plain(rewrite_top(Comp::MinusOne));
    lemma_holds_both(
        image,
        base,
        compare_and_jump(operator, module, number) + answer_false(module, number),
        answer_true(module, number),
    );
    lemma_holds_both(
        image,
        base,
        compare_and_jump(operator, module, number),
        answer_false(module, number),
    );
    lemma_holds_both(image, base, head, to_true);
    lemma_holds_both(image, base, take_operands(), subtract);
    lemma_holds_both(image, base + 7, rewrite_top(Comp::Zero), to_end);
    lemma_holds_both(image, base + 12, true_mark + rewrite_top(Comp::MinusOne), end_mark);
    lemma_holds_both(image, base + 12, true_mark, rewrite_top(Comp::MinusOne));
    lemma_holds_label(image, base + 12, true_label(module, number));
    lemma_holds_label(image, base + 15, continue_label(module, number));
}

/// A comparison takes both operands off the stack and leaves all one bits
/// where the jump condition holds of their difference, else all zero bits. It
/// takes 10 steps where the condition holds and 12 where it does not.
pub proof fn lemma_comparison(
    image: Image,
    s: Machine,
    operator: BinaryArithmeticOperator,
    module: Seq<char>,
    number: nat,
)
    requires
        image.holds(s.pc, comparison_code(operator, module, number)),
        s.sp() >= 3,
    ensures
        ({
            let x = s.ram[(s.sp() - 2) as u16];
            let y = s.ram[(s.sp() - 1) as u16];
            let holds = taken(comparison_jump(operator), word(x - y));
            let steps: nat = if holds {
                10
            } else {
                12
            };
            let t = image.run(s, steps);
            &&& t.pc == s.pc + 15
            &&& t.ram == s.ram.insert(0, (s.sp() - 1) as u16).insert(
                (s.sp() - 2) as u16,
                if holds {
                    0xFFFFu16
                } else {
                    0u16
                },
            )
        }),
{
    let base = s.pc;
    let x = s.ram[(s.sp() - 2) as u16];
    let y = s.ram[(s.sp() - 1) as u16];
    let jump = comparison_jump(operator);
    lemma_comparison_parts(image, base, operator, module, number);
    lemma_take_operands(image, s);
    let taken_off = image.run(s, 4);
    lemma_fetch(image, taken_off.pc, seq![assign(Dest::D, Comp::MMinusD)], 0);
    reveal_with_fuel(Image::run, 2);
    let subtracted = image.run(taken_off, 1);
    assert(subtracted == image.step(taken_off));
    lemma_run_on(image, s, 4, 1);
    assert(subtracted.d == word(x - y));
    assert(subtracted.ram == taken_off.ram);
    lemma_jump(image, subtracted, true_label(module, number), Comp::D, jump);
    let decided = image.run(subtracted, 2);
    lemma_run_on(image, s, 5, 2);
    assert(decided.ram == taken_off.ram);
    if taken(jump, word(x - y)) {
        assert(decided.pc == base + 12);
        lemma_rewrite_top(image, decided, Comp::MinusOne);
        lemma_run_on(image, s, 7, 3);
    } else {
        assert(decided.pc == base + 7);
        lemma_rewrite_top(image, decided, Comp::Zero);
        let answered = image.run(decided, 3);
        lemma_run_on(image, s, 7, 3);
        lemma_jump(image, answered, continue_label(module, number), Comp::Zero, Jump::JMP);
        lemma_run_on(image, s, 10, 2);
    }
}

/// Whether the machine can execute a `push`: the instruction is not rejected,
/// the numbers in its assembly fit in 15 bits, and a static cell has an
/// address.
pub open spec fn push_runs(image: Image, push: Push, module: Seq<char>) -> bool {
    match push.segment {
        Segment::Temp => 5 + push.index < 0x8000,
        Segment::Pointer => push.index <= 1,
        Segment::Static => image.symbols.contains_key(static_symbol(module, push.index)),
        _ => push.index < 0x8000,
    }
}

/// The value that a `push` reads in state `s`.
pub open spec fn pushed_value(image: Image, s: Machine, push: Push, module: Seq<char>) -> u16 {
    match push.segment {
        Segment::Constant => push.index,
        Segment::Temp => s.ram[(5 + push.index) as u16],
        Segment::Pointer => s.register(pointer_register(push.index)),
        Segment::Static => s.ram[image.symbols[static_symbol(module, push.index)]],
        segment => s.ram[word(s.register(base_register(segment)) + push.index)],
    }
}

/// How many instructions bring the value of a `push` into `D`.
pub open spec fn load_steps(push: Push) -> nat {
    if is_addressable(push.segment) {
        5
    } else {
        2
    }
}

/// `load_code` brings the value that a `push` reads into `D` and changes no
/// memory cell.
pub proof fn lemma_load(image: Image, s: Machine, push: Push, module: Seq<char>)
    requires
        image.holds(s.pc, load_code(push, module)),
        push_runs(image, push, module),
    ensures
        load_code(push, module).len() == load_steps(push),
        is_plain(load_code(push, module)),
        image.run(s, load_steps(push)).d == pushed_value(image, s, push, module),
        image.run(s, load_steps(push)).ram == s.ram,
        image.run(s, load_steps(push)).pc == s.pc + load_steps(push),
{
    let code = load_code(push, module);
    assert(is_plain(code));
    lemma_fetch(image, s.pc, code, 0);
    lemma_fetch(image, s.pc, code, 1);
    if is_addressable(push.segment) {
        lemma_fetch(image, s.pc, code, 2);
        lemma_fetch(image, s.pc, code, 3);
        lemma_fetch(image, s.pc, code, 4);
        reveal_with_fuel(Image::run, 6);
    } else {
        reveal_with_fuel(Image::run, 3);
    }
}

/// A `push` puts the value it reads on the stack and changes nothing else.
pub proof fn lemma_push(image: Image, s: Machine, push: Push, module: Seq<char>)
    requires
        image.holds(s.pc, push_code(push, module)),
        push_runs(image, push, module),
    ensures
        size(push_code(push, module)) == load_steps(push) + 4,
        image.run(s, load_steps(push) + 4) == (Machine {
            a: s.sp(),
            d: pushed_value(image, s, push, module),
            pc: s.pc + load_steps(push) + 4,
            ram: s.ram.insert(0, word(s.sp() + 1)).insert(
                s.sp(),
                pushed_value(image, s, push, module),
            ),
        }),
{
    let load = load_code(push, module);
    lemma_holds_both(image, s.pc, load, push_d());
    lemma_load(image, s, push, module);
    lemma_size_plain(load);
    assert(is_plain(push_d()));
    lemma_size_plain(push_d());
    let loaded = image.run(s, load_steps(push));
    lemma_push_d(image, loaded);
    lemma_run_on(image, s, load_steps(push), 4);
}

/// Whether the machine can execute a `pop`: the instruction is not rejected,
/// the numbers in its assembly fit in 15 bits, and a static cell has an
/// address.
pub open spec fn pop_runs(image: Image, pop: Pop, module: Seq<char>) -> bool {
    match pop.segment {
        Segment::Constant => false,
        Segment::Temp => 5 + pop.index < 0x8000,
        Segment::Pointer => pop.index <= 1,
        Segment::Static => image.symbols.contains_key(static_symbol(module, pop.index)),
        _ => pop.index < 0x8000,
    }
}

/// The address of the cell that a `pop` stores to in state `s`.
pub open spec fn pop_target(image: Image, s: Machine, pop: Pop, module: Seq<char>) -> u16 {
    match pop.segment {
        Segment::Temp => (5 + pop.index) as u16,
        Segment::Pointer => pointer_register(pop.index).address(),
        Segment::Static => image.symbols[static_symbol(module, pop.index)],
        segment => word(s.register(base_register(segment)) + pop.index),
    }
}

/// How many instructions the machine executes for a `pop`.
pub open spec fn pop_steps(pop: Pop) -> nat {
    if is_addressable(pop.segment) {
        12
    } else {
        5
    }
}

/// The memory after a `pop`: the stack pointer is one lower and the target
/// cell holds what was on top of the stack. For an addressable segment `R13`
/// holds the target's address.
pub open spec fn memory_after_pop(image: Image, s: Machine, pop: Pop, module: Seq<char>) -> Map<
    u16,
    u16,
> {
    let target = pop_target(image, s, pop, module);
    let top = s.ram[(s.sp() - 1) as u16];
    let lowered = (s.sp() - 1) as u16;
    if is_addressable(pop.segment) {
        s.ram.insert(13, target).insert(0, lowered).insert(target, top)
    } else {
        s.ram.insert(0, lowered).insert(target, top)
    }
}

/// A `pop` takes the top of the stack and stores it in its target cell.
pub proof fn lemma_pop(image: Image, s: Machine, pop: Pop, module: Seq<char>)
    requires
        image.holds(s.pc, pop_code(pop, module)),
        pop_runs(image, pop, module),
        s.sp() >= 256,
    ensures
        size(pop_code(pop, module)) == pop_steps(pop),
        image.run(s, pop_steps(pop)) == (Machine {
            a: pop_target(image, s, pop, module),
            d: s.ram[(s.sp() - 1) as u16],
            pc: s.pc + pop_steps(pop),
            ram: memory_after_pop(image, s, pop, module),
        }),
{
    assert(is_plain(pop_d()));
    lemma_size_plain(pop_d());
    if is_addressable(pop.segment) {
        let aim = aim_code(pop.segment, pop.index);
        assert(pop_code(pop, module) == aim + pop_d() + store_aimed());
        assert(is_plain(aim));
        assert(is_plain(store_aimed()));
        lemma_size_plain(aim);
        lemma_size_plain(store_aimed());
        lemma_holds_both(image, s.pc, aim + pop_d(), store_aimed());
        lemma_holds_both(image, s.pc, aim, pop_d());
        lemma_aim(image, s, pop.segment, pop.index);
        let aimed = image.run(s, 6);
        lemma_pop_d(image, aimed);
        let popped = image.run(aimed, 3);
        lemma_run_on(image, s, 6, 3);
        lemma_store_aimed(image, popped);
        lemma_run_on(image, s, 9, 3);
    } else {
        let store = match pop.segment {
            Segment::Temp => seq![
                at_number((5 + pop.index) as u32),
                assign(Dest::M, Comp::D),
            ],
            Segment::Pointer => seq![
                at(pointer_register(pop.index)),
                assign(Dest::M, Comp::D),
            ],
            _ => seq![
                at_symbol(static_symbol(module, pop.index)),
                assign(Dest::M, Comp::D),
            ],
        };
        assert(pop_code(pop, module) == pop_d() + store);
        assert(is_plain(store));
        lemma_size_plain(store);
        lemma_holds_both(image, s.pc, pop_d(), store);
        lemma_pop_d(image, s);
        let popped = image.run(s, 3);
        lemma_fetch(image, popped.pc, store, 0);
        lemma_fetch(image, popped.pc, store, 1);
        reveal_with_fuel(Image::run, 3);
        lemma_run_on(image, s, 3, 2);
    }
}

/// `save_address_code` puts the value of a symbol on the stack.
pub proof fn lemma_save_address(image: Image, s: Machine, symbol: Seq<char>)
    requires
        image.holds(s.pc, save_address_code(symbol)),
        image.symbols.contains_key(symbol),
    ensures
        image.run(s, 6) == (Machine {
            a: s.sp(),
            d: image.symbols[symbol],
            pc: s.pc + 6,
            ram: s.ram.insert(0, word(s.sp() + 1)).insert(s.sp(), image.symbols[symbol]),
        }),
{
    let head = seq![at_symbol(symbol), assign(Dest::D, Comp::A)];
    assert(is_plain(head));
    lemma_holds_both(image, s.pc, head, push_d());
    lemma_size_plain(head);
    lemma_fetch(image, s.pc, head, 0);
    lemma_fetch(image, s.pc, head, 1);
    reveal_with_fuel(Image::run, 3);
    let loaded = image.run(s, 2);
    let value = image.symbols[symbol];
    assert(loaded == Machine { a: value, d: value, pc: s.pc + 2, ..s });
    lemma_push_d(image, loaded);
    lemma_run_on(image, s, 2, 4);
}

/// The memory after a frame is saved on a stack whose pointer is `sp`.
pub open spec fn memory_with_frame(ram: Map<u16, u16>, address: u16) -> Map<u16, u16> {
    let sp = ram[0];
    ram.insert(sp, address).insert((sp + 1) as u16, ram[1]).insert((sp + 2) as u16, ram[2]).insert(
        (sp + 3) as u16,
        ram[3],
    ).insert((sp + 4) as u16, ram[4]).insert(0, (sp + 5) as u16)
}

/// Where the five parts of `frame_code` stand.
pub proof fn lemma_frame_parts(image: Image, base: nat, return_address_label: Seq<char>)
    requires
        image.holds(base, frame_code(return_address_label)),
    ensures
        size(frame_code(return_address_label)) == 30,
        image.holds(base, save_address_code(return_address_label)),
        image.holds(base + 6, save_code(Register::LCL)),
        image.holds(base + 12, save_code(Register::ARG)),
        image.holds(base + 18, save_code(Register::THIS)),
        image.holds(base + 24, save_code(Register::THAT)),
{
    let address = save_address_code(return_address_label);
    let lcl = save_code(Register::LCL);
    let arg = save_code(Register::ARG);
    let this = save_code(Register::THIS);
    let that = save_code(Register::THAT);
    lemma_size_save(Register::LCL);
    lemma_size_save(Register::ARG);
    lemma_size_save(Register::THIS);
    lemma_size_save(Register::THAT);
    assert(size(address) == 6) by {
        let head = seq![at_symbol(return_address_label), assign(Dest::D, Comp::A)];
        assert(is_plain(head + push_d()));
        lemma_size_plain(head + push_d());
    }
    lemma_holds_both(image, base, address + lcl + arg + this, that);
    lemma_holds_both(image, base, address + lcl + arg, this);
    lemma_holds_both(image, base, address + lcl, arg);
    lemma_holds_both(image, base, address, lcl);
}

/// `frame_code` puts the return address and the four segment registers on
/// the stack, in this order.
pub proof fn lemma_frame(image: Image, s: Machine, return_address_label: Seq<char>)
    requires
        image.holds(s.pc, frame_code(return_address_label)),
        image.symbols.contains_key(return_address_label),
        256 <= s.sp(),
        s.sp() + 5 < 0x10000,
    ensures
        size(frame_code(return_address_label)) == 30,
        image.run(s, 30) == (Machine {
            a: (s.sp() + 4) as u16,
            d: s.register(Register::THAT),
            pc: s.pc + 30,
            ram: memory_with_frame(s.ram, image.symbols[return_address_label]),
        }),
{
    let sp = s.sp();
    let address = image.symbols[return_address_label];
    lemma_frame_parts(image, s.pc, return_address_label);
    lemma_save_address(image, s, return_address_label);
    let s1 = image.run(s, 6);
    let r1 = s.ram.insert(sp, address).insert(0, (sp + 1) as u16);
    assert(s1.ram =~= r1);
    lemma_save(image, s1, Register::LCL);
    let s2 = image.run(s1, 6);
    let r2 = s.ram.insert(sp, address).insert((sp + 1) as u16, s.ram[1]).insert(
        0,
        (sp + 2) as u16,
    );
    assert(s2.ram =~= r2);
    lemma_run_on(image, s, 6, 6);
    lemma_save(image, s2, Register::ARG);
    let s3 = image.run(s2, 6);
    let r3 = s.ram.insert(sp, address).insert((sp + 1) as u16, s.ram[1]).insert(
        (sp + 2) as u16,
        s.ram[2],
    ).insert(0, (sp + 3) as u16);
    assert(s3.ram =~= r3);
    lemma_run_on(image, s, 12, 6);
    lemma_save(image, s3, Register::THIS);
    let s4 = image.run(s3, 6);
    let r4 = s.ram.insert(sp, address).insert((sp + 1) as u16, s.ram[1]).insert(
        (sp + 2) as u16,
        s.ram[2],
    ).insert((sp + 3) as u16, s.ram[3]).insert(0, (sp + 4) as u16);
    assert(s4.ram =~= r4);
    lemma_run_on(image, s, 18, 6);
    lemma_save(image, s4, Register::THAT);
    let s5 = image.run(s4, 6);
    assert(s5.ram =~= memory_with_frame(s.ram, address));
    lemma_run_on(image, s, 24, 6);
}

/// Saving a register takes six instructions.
pub proof fn lemma_size_save(register: Register)
    ensures
        size(save_code(register)) == 6,
{
    let head = seq![at(register), assign(Dest::D, Comp::M)];
    assert(is_plain(head));
    assert(is_plain(push_d()));
    assert(is_plain(head + push_d()));
    lemma_size_plain(head + push_d());
}

/// `reposition_code` points `ARG` at the first of the arguments, which lie
/// below the saved frame, and `LCL` at the first free stack cell.
pub proof fn lemma_reposition(image: Image, s: Machine, n_args: u16)
    requires
        image.holds(s.pc, reposition_code(n_args)),
        n_args < 0x8000,
        s.sp() >= 5 + n_args,
    ensures
        image.run(s, 12) == (Machine {
            a: 1,
            d: s.sp(),
            pc: s.pc + 12,
            ram: s.ram.insert(2, (s.sp() - 5 - n_args) as u16).insert(1, s.sp()),
        }),
{
    let code = reposition_code(n_args);
    assert(is_plain(code));
    lemma_fetch(image, s.pc, code, 0);
    lemma_fetch(image, s.pc, code, 1);
    lemma_fetch(image, s.pc, code, 2);
    lemma_fetch(image, s.pc, code, 3);
    lemma_fetch(image, s.pc, code, 4);
    lemma_fetch(image, s.pc, code, 5);
    reveal_with_fuel(Image::run, 7);
    let half = image.run(s, 6);
    assert(half == Machine { a: n_args, d: (s.sp() - 5 - n_args) as u16, pc: s.pc + 6, ..s });
    lemma_fetch(image, s.pc, code, 6);
    lemma_fetch(image, s.pc, code, 7);
    lemma_fetch(image, s.pc, code, 8);
    lemma_fetch(image, s.pc, code, 9);
    lemma_fetch(image, s.pc, code, 10);
    lemma_fetch(image, s.pc, code, 11);
    assert(image.run(half, 6) == Machine {
        a: 1,
        d: s.sp(),
        pc: s.pc + 12,
        ram: s.ram.insert(2, (s.sp() - 5 - n_args) as u16).insert(1, s.sp()),
    });
    lemma_run_on(image, s, 6, 6);
}

/// `zero_locals` has six instructions for each zero.
pub proof fn lemma_size_zero_locals(n: nat)
    ensures
        size(zero_locals(n)) == 6 * n,
    decreases n,
{
    if n > 0 {
        let zero = Push { segment: Segment::Constant, index: 0 };
        let piece = load_code(zero, Seq::empty()) + push_d();
        assert(is_plain(piece));
        lemma_size_plain(piece);
        lemma_size_zero_locals((n - 1) as nat);
        lemma_size_both(zero_locals((n - 1) as nat), push_zero());
    }
}

/// `zero_locals` puts `n` zeros on the stack.
pub proof fn lemma_zero_locals(image: Image, s: Machine, n: nat)
    requires
        image.holds(s.pc, zero_locals(n)),
        256 <= s.sp(),
        s.sp() + n < 0x10000,
    ensures
        size(zero_locals(n)) == 6 * n,
        ({
            let t = image.run(s, 6 * n);
            &&& t.pc == s.pc + 6 * n
            &&& t.sp() == s.sp() + n
            &&& forall|address: u16|
                s.sp() <= address < s.sp() + n ==> #[trigger] t.ram[address] == 0
            &&& forall|address: u16|
                address != 0 && !(s.sp() <= address < s.sp() + n) ==> #[trigger] t.ram[address]
                    == s.ram[address]
        }),
    decreases n,
{
    let zero = Push { segment: Segment::Constant, index: 0 };
    let empty = Seq::<char>::empty();
    assert(size(push_zero()) == 6) by {
        assert(is_plain(load_code(zero, empty)));
        assert(is_plain(push_d()));
        assert(is_plain(load_code(zero, empty) + push_d()));
        lemma_size_plain(load_code(zero, empty) + push_d());
    }
    if n > 0 {
        let before = zero_locals((n - 1) as nat);
        lemma_holds_both(image, s.pc, before, push_zero());
        lemma_zero_locals(image, s, (n - 1) as nat);
        let most = image.run(s, (6 * (n - 1)) as nat);
        lemma_push(image, most, zero, empty);
        lemma_run_on(image, s, (6 * (n - 1)) as nat, 6);
    }
}

/// `keep_frame` copies `LCL` to `R14` and the return address, which lies five
/// cells below where `LCL` points, to `R15`.
pub proof fn lemma_keep_frame(image: Image, s: Machine)
    requires
        image.holds(s.pc, keep_frame()),
        s.register(Register::LCL) >= 261,
    ensures
        image.run(s, 9) == (Machine {
            a: 15,
            d: s.ram[(s.register(Register::LCL) - 5) as u16],
            pc: s.pc + 9,
            ram: s.ram.insert(14, s.register(Register::LCL)).insert(
                15,
                s.ram[(s.register(Register::LCL) - 5) as u16],
            ),
        }),
{
    let code = keep_frame();
    assert(is_plain(code));
    lemma_fetch(image, s.pc, code, 0);
    lemma_fetch(image, s.pc, code, 1);
    lemma_fetch(image, s.pc, code, 2);
    lemma_fetch(image, s.pc, code, 3);
    lemma_fetch(image, s.pc, code, 4);
    reveal_with_fuel(Image::run, 6);
    let half = image.run(s, 5);
    assert(half == Machine {
        a: 5,
        d: s.register(Register::LCL),
        pc: s.pc + 5,
        ram: s.ram.insert(14, s.register(Register::LCL)),
    });
    lemma_fetch(image, s.pc, code, 5);
    lemma_fetch(image, s.pc, code, 6);
    lemma_fetch(image, s.pc, code, 7);
    lemma_fetch(image, s.pc, code, 8);
    assert(image.run(half, 4) == Machine {
        a: 15,
        d: s.ram[(s.register(Register::LCL) - 5) as u16],
        pc: s.pc + 9,
        ram: s.ram.insert(14, s.register(Register::LCL)).insert(
            15,
            s.ram[(s.register(Register::LCL) - 5) as u16],
        ),
    });
    lemma_run_on(image, s, 5, 4);
}

/// `drop_frame` sets the stack pointer to the cell above the one `ARG` points
/// to.
pub proof fn lemma_drop_frame(image: Image, s: Machine)
    requires
        image.holds(s.pc, drop_frame()),
    ensures
        image.run(s, 4) == (Machine {
            a: 0,
            d: word(s.register(Register::ARG) + 1),
            pc: s.pc + 4,
            ram: s.ram.insert(0, word(s.register(Register::ARG) + 1)),
        }),
{
    let code = drop_frame();
    assert(is_plain(code));
    lemma_fetch(image, s.pc, code, 0);
    lemma_fetch(image, s.pc, code, 1);
    lemma_fetch(image, s.pc, code, 2);
    lemma_fetch(image, s.pc, code, 3);
    reveal_with_fuel(Image::run, 5);
}

/// `restore_code` moves the frame pointer in `R14` one cell down and copies
/// the cell it then points to into a register.
pub proof fn lemma_restore(image: Image, s: Machine, register: Register)
    requires
        image.holds(s.pc, restore_code(register)),
        s.ram[14] >= 17,
        register.address() != 14,
    ensures
        image.run(s, 5) == (Machine {
            a: register.address(),
            d: s.ram[(s.ram[14] - 1) as u16],
            pc: s.pc + 5,
            ram: s.ram.insert(14, (s.ram[14] - 1) as u16).insert(
                register.address(),
                s.ram[(s.ram[14] - 1) as u16],
            ),
        }),
{
    let code = restore_code(register);
    assert(is_plain(code));
    lemma_fetch(image, s.pc, code, 0);
    lemma_fetch(image, s.pc, code, 1);
    lemma_fetch(image, s.pc, code, 2);
    lemma_fetch(image, s.pc, code, 3);
    lemma_fetch(image, s.pc, code, 4);
    reveal_with_fuel(Image::run, 6);
}

/// `go_back` jumps to the position kept in `R15`.
pub proof fn lemma_go_back(image: Image, s: Machine)
    requires
        image.holds(s.pc, go_back()),
    ensures
        image.run(s, 3) == (Machine { a: s.ram[15], d: s.d, pc: s.ram[15] as nat, ram: s.ram }),
{
    let code = go_back();
    assert(is_plain(code));
    lemma_fetch(image, s.pc, code, 0);
    lemma_fetch(image, s.pc, code, 1);
    lemma_fetch(image, s.pc, code, 2);
    reveal_with_fuel(Image::run, 4);
}

} // verus!
