//! What the emitted assembly does at a call, at the head of a function and at
//! a return: the calling convention on the target machine.

use crate::assembly::{AsmView, Comp, Dest, Jump, Register};
use crate::compiler::{
    assign, at, at_number, bootstrap_code, call_code, drop_frame, enter_code, entry_call,
    frame_code, function_code, go_back, hand_back, jump_code, keep_frame, push_code,
    reposition_code, restore_code, return_code, zero_locals,
};
use crate::execution::{
    lemma_drop_frame, lemma_frame, lemma_go_back, lemma_holds_label, lemma_jump, lemma_keep_frame,
    lemma_pop, lemma_push, lemma_reposition, lemma_restore, lemma_size_zero_locals,
    lemma_zero_locals,
};
use crate::instructions::{CallView, FunctionView, Pop, Push, Segment};
use crate::machine::{
    is_plain, lemma_fetch, lemma_holds_both, lemma_run_on, lemma_size_both, lemma_size_plain,
    size, Image, Machine,
};
use vstd::prelude::*;

verus! {

/// A call takes 44 instructions. After them the machine is at the callee, and
/// the stack holds five cells more: the return address, which is the position
/// right behind the call, and the caller's `LCL`, `ARG`, `THIS` and `THAT`.
/// `ARG` points at the first argument and `LCL` at the first free stack cell.
/// `THIS`, `THAT` and every memory cell below the saved frame are unchanged.
pub proof fn law_call(image: Image, s: Machine, call: CallView)
    requires
        image.holds(s.pc, call_code(call)),
        image.symbols.contains_key(call.function_name),
        s.depth() >= call.n_args,
        s.sp() + 5 < 0x8000,
    ensures
        size(call_code(call)) == 44,
        image.symbols.contains_key(call.return_address_label),
        image.symbols[call.return_address_label] == s.pc + 44,
        ({
            let t = image.run(s, 44);
            let sp = s.sp();
            &&& t.pc == image.symbols[call.function_name]
            &&& t.sp() == sp + 5
            &&& t.register(Register::LCL) == sp + 5
            &&& t.register(Register::ARG) == sp - call.n_args
            &&& t.register(Register::THIS) == s.register(Register::THIS)
            &&& t.register(Register::THAT) == s.register(Register::THAT)
            &&& t.ram[sp] == s.pc + 44
            &&& t.ram[(sp + 1) as u16] == s.register(Register::LCL)
            &&& t.ram[(sp + 2) as u16] == s.register(Register::ARG)
            &&& t.ram[(sp + 3) as u16] == s.register(Register::THIS)
            &&& t.ram[(sp + 4) as u16] == s.register(Register::THAT)
            &&& forall|address: u16| 3 <= address < sp ==> t.ram[address] == s.ram[address]
        }),
{
    let frame = frame_code(call.return_address_label);
    let reposition = reposition_code(call.n_args);
    let jump = jump_code(call.function_name, Comp::Zero, Jump::JMP);
    let mark = seq![AsmView::Label(call.return_address_label)];
    assert(is_plain(reposition));
    assert(is_plain(jump));
    lemma_size_plain(reposition);
    lemma_size_plain(jump);
    lemma_size_frame(call.return_address_label);
    lemma_holds_both(image, s.pc, frame, enter_code(call));
    lemma_holds_both(image, s.pc + 30, reposition + jump, mark);
    lemma_holds_both(image, s.pc + 30, reposition, jump);
    lemma_holds_label(image, s.pc + 44, call.return_address_label);
    lemma_frame(image, s, call.return_address_label);
    let framed = image.run(s, 30);
    lemma_reposition(image, framed, call.n_args);
    let repositioned = image.run(framed, 12);
    lemma_run_on(image, s, 30, 12);
    lemma_jump(image, repositioned, call.function_name, Comp::Zero, Jump::JMP);
    lemma_run_on(image, s, 42, 2);
}

/// Saving a frame takes 30 instructions.
pub proof fn lemma_size_frame(return_address_label: Seq<char>)
    ensures
        size(frame_code(return_address_label)) == 30,
{
    let code = frame_code(return_address_label);
    assert(is_plain(code));
    lemma_size_plain(code);
}

/// The head of a function takes six instructions for each local variable.
/// After them the stack holds one cell more for each local variable, and each
/// of these cells holds 0. No other memory cell changes but the stack pointer.
pub proof fn law_function(image: Image, s: Machine, function: FunctionView)
    requires
        image.holds(s.pc, function_code(function)),
        0 <= s.depth(),
        s.sp() + function.n_locals < 0x8000,
    ensures
        size(function_code(function)) == 6 * function.n_locals,
        image.symbols.contains_key(function.function_name),
        image.symbols[function.function_name] == s.pc,
        ({
            let t = image.run(s, (6 * function.n_locals) as nat);
            &&& t.pc == s.pc + 6 * function.n_locals
            &&& t.depth() == s.depth() + function.n_locals
            &&& forall|address: u16|
                s.sp() <= address < s.sp() + function.n_locals ==> #[trigger] t.ram[address] == 0
            &&& forall|address: u16|
                address != 0 && !(s.sp() <= address < s.sp() + function.n_locals)
                    ==> #[trigger] t.ram[address] == s.ram[address]
        }),
{
    let mark = seq![AsmView::Label(function.function_name)];
    let locals = zero_locals(function.n_locals as nat);
    lemma_holds_both(image, s.pc, mark, locals);
    lemma_holds_label(image, s.pc, function.function_name);
    lemma_zero_locals(image, s, function.n_locals as nat);
}

/// Whether a frame lies on the stack as a call leaves it and a function may
/// have grown it: `ARG` points into the stack, the five saved cells lie
/// between the arguments and where `LCL` points, and the top of the stack is
/// not below them.
pub open spec fn has_frame(s: Machine) -> bool {
    &&& 256 <= s.register(Register::ARG)
    &&& s.register(Register::ARG) + 5 <= s.register(Register::LCL)
    &&& s.register(Register::LCL) <= s.sp()
}

/// The cell of the frame that lies `below` cells under where `LCL` points:
/// 1 for the saved `THAT`, then `THIS`, `ARG`, `LCL`, and 5 for the return
/// address.
pub open spec fn frame_cell(s: Machine, below: int) -> u16 {
    s.ram[(s.register(Register::LCL) - below) as u16]
}

/// Where the eight parts of `return_code` stand.
pub proof fn lemma_return_parts(image: Image, base: nat)
    requires
        image.holds(base, return_code()),
    ensures
        size(return_code()) == 48,
        image.holds(base, keep_frame()),
        image.holds(base + 9, hand_back()),
        image.holds(base + 21, drop_frame()),
        image.holds(base + 25, restore_code(Register::THAT)),
        image.holds(base + 30, restore_code(Register::THIS)),
        image.holds(base + 35, restore_code(Register::ARG)),
        image.holds(base + 40, restore_code(Register::LCL)),
        image.holds(base + 45, go_back()),
{
    let that = restore_code(Register::THAT);
    let this = restore_code(Register::THIS);
    let arg = restore_code(Register::ARG);
    let lcl = restore_code(Register::LCL);
    assert(is_plain(keep_frame()));
    assert(is_plain(hand_back()));
    assert(is_plain(drop_frame()));
    assert(is_plain(that));
    assert(is_plain(this));
    assert(is_plain(arg));
    assert(is_plain(lcl));
    assert(is_plain(go_back()));
    lemma_size_plain(keep_frame());
    lemma_size_plain(hand_back());
    lemma_size_plain(drop_frame());
    lemma_size_plain(that);
    lemma_size_plain(this);
    lemma_size_plain(arg);
    lemma_size_plain(lcl);
    lemma_size_plain(go_back());
    let handed = keep_frame() + hand_back();
    let dropped = handed + drop_frame();
    lemma_holds_both(image, base, dropped + that + this + arg + lcl, go_back());
    lemma_holds_both(image, base, dropped + that + this + arg, lcl);
    lemma_holds_both(image, base, dropped + that + this, arg);
    lemma_holds_both(image, base, dropped + that, this);
    lemma_holds_both(image, base, dropped, that);
    lemma_holds_both(image, base, handed, drop_frame());
    lemma_holds_both(image, base, keep_frame(), hand_back());
}

/// Whether the returning function's frame and the memory above the registers
/// are in `ram` as they were in `s`, but for the cell that took the returned
/// value.
pub open spec fn frame_kept(s: Machine, ram: Map<u16, u16>) -> bool {
    forall|address: u16|
        16 <= address && address != s.register(Register::ARG) ==> #[trigger] ram[address]
            == s.ram[address]
}

/// The first half of a return: the frame pointer and the return address
/// are kept in `R14` and `R15`, the returned value lies where `ARG` points,
/// and the stack pointer points just above it.
pub proof fn lemma_return_value(image: Image, s: Machine)
    requires
        image.holds(s.pc, return_code()),
        has_frame(s),
    ensures
        ({
            let t = image.run(s, 25);
            let arg = s.register(Register::ARG);
            &&& t.pc == s.pc + 25
            &&& t.ram[14] == s.register(Register::LCL)
            &&& t.ram[15] == frame_cell(s, 5)
            &&& t.sp() == arg + 1
            &&& t.ram[arg] == s.stack(0)
            &&& frame_kept(s, t.ram)
        }),
{
    let pop = Pop { segment: Segment::Argument, index: 0 };
    let arg = s.register(Register::ARG);
    lemma_return_parts(image, s.pc);
    lemma_keep_frame(image, s);
    let s1 = image.run(s, 9);
    assert(s1.sp() == s.sp());
    assert(s1.register(Register::ARG) == arg);
    lemma_pop(image, s1, pop, Seq::empty());
    let s2 = image.run(s1, 12);
    lemma_run_on(image, s, 9, 12);
    assert(s2.register(Register::ARG) == arg);
    assert(s2.ram[arg] == s.stack(0));
    assert(s2.ram[14] == s.register(Register::LCL));
    assert(s2.ram[15] == frame_cell(s, 5));
    assert(frame_kept(s, s2.ram));
    lemma_drop_frame(image, s2);
    lemma_run_on(image, s, 21, 4);
}

/// A return takes 48 instructions. After them the machine is at the return
/// address, the four segment registers hold what the frame had saved, the
/// value that was on top of the stack lies where `ARG` pointed, and the stack
/// pointer points just above it. Apart from that cell, only the registers and
/// the three scratch cells change.
pub proof fn law_return(image: Image, s: Machine)
    requires
        image.holds(s.pc, return_code()),
        has_frame(s),
    ensures
        size(return_code()) == 48,
        ({
            let t = image.run(s, 48);
            let arg = s.register(Register::ARG);
            &&& t.pc == frame_cell(s, 5)
            &&& t.register(Register::LCL) == frame_cell(s, 4)
            &&& t.register(Register::ARG) == frame_cell(s, 3)
            &&& t.register(Register::THIS) == frame_cell(s, 2)
            &&& t.register(Register::THAT) == frame_cell(s, 1)
            &&& t.sp() == arg + 1
            &&& t.ram[arg] == s.stack(0)
            &&& forall|address: u16|
                16 <= address && address != arg ==> t.ram[address] == s.ram[address]
        }),
{
    let frame = s.register(Register::LCL);
    let arg = s.register(Register::ARG);
    lemma_return_parts(image, s.pc);
    lemma_return_value(image, s);
    let s3 = image.run(s, 25);
    lemma_restore(image, s3, Register::THAT);
    let r1 = image.run(s3, 5);
    lemma_run_on(image, s, 25, 5);
    assert(r1.ram[14] == frame - 1 && r1.ram[15] == s3.ram[15] && r1.sp() == s3.sp());
    assert(r1.ram[4] == frame_cell(s, 1));
    assert(r1.ram[arg] == s3.ram[arg] && frame_kept(s, r1.ram));
    lemma_restore(image, r1, Register::THIS);
    let r2 = image.run(r1, 5);
    lemma_run_on(image, s, 30, 5);
    assert(r2.ram[14] == frame - 2 && r2.ram[15] == s3.ram[15] && r2.sp() == s3.sp());
    assert(r2.ram[4] == frame_cell(s, 1) && r2.ram[3] == frame_cell(s, 2));
    assert(r2.ram[arg] == s3.ram[arg] && frame_kept(s, r2.ram));
    lemma_restore(image, r2, Register::ARG);
    let r3 = image.run(r2, 5);
    lemma_run_on(image, s, 35, 5);
    assert(r3.ram[14] == frame - 3 && r3.ram[15] == s3.ram[15] && r3.sp() == s3.sp());
    assert(r3.ram[4] == frame_cell(s, 1) && r3.ram[3] == frame_cell(s, 2));
    assert(r3.ram[2] == frame_cell(s, 3));
    assert(r3.ram[arg] == s3.ram[arg] && frame_kept(s, r3.ram));
    lemma_restore(image, r3, Register::LCL);
    let r4 = image.run(r3, 5);
    lemma_run_on(image, s, 40, 5);
    assert(r4.ram[15] == s3.ram[15] && r4.sp() == s3.sp());
    assert(r4.ram[4] == frame_cell(s, 1) && r4.ram[3] == frame_cell(s, 2));
    assert(r4.ram[2] == frame_cell(s, 3) && r4.ram[1] == frame_cell(s, 4));
    assert(r4.ram[arg] == s3.ram[arg] && frame_kept(s, r4.ram));
    lemma_go_back(image, r4);
    lemma_run_on(image, s, 45, 3);
}

/// How many instructions the machine executes for a call of a function that
/// returns right after its head.
pub open spec fn round_trip_steps(function: FunctionView) -> nat {
    (44 + 6 * function.n_locals + 48) as nat
}

/// After a call and the head of the callee, the callee's frame lies on the
/// stack: the five saved cells hold the return address and the caller's
/// registers, the local variables above them hold 0, and the caller's stack
/// below the frame is unchanged.
pub proof fn lemma_call_into_function(
    image: Image,
    s: Machine,
    call: CallView,
    function: FunctionView,
    entry: nat,
)
    requires
        call.function_name == function.function_name,
        image.holds(s.pc, call_code(call)),
        image.holds(entry, function_code(function)),
        s.depth() >= call.n_args,
        s.sp() + 5 + function.n_locals < 0x8000,
    ensures
        ({
            let t = image.run(s, (44 + 6 * function.n_locals) as nat);
            &&& t.pc == entry + 6 * function.n_locals
            &&& has_frame(t)
            &&& t.sp() == s.sp() + 5 + function.n_locals
            &&& t.register(Register::LCL) == s.sp() + 5
            &&& t.register(Register::ARG) == s.sp() - call.n_args
            &&& frame_cell(t, 5) == s.pc + 44
            &&& frame_cell(t, 4) == s.register(Register::LCL)
            &&& frame_cell(t, 3) == s.register(Register::ARG)
            &&& frame_cell(t, 2) == s.register(Register::THIS)
            &&& frame_cell(t, 1) == s.register(Register::THAT)
            &&& t.stack(0) == if function.n_locals > 0 {
                0
            } else {
                s.register(Register::THAT)
            }
            &&& forall|address: u16| 256 <= address < s.sp() ==> t.ram[address] == s.ram[address]
        }),
{
    let locals = function.n_locals as nat;
    let sp = s.sp();
    let mark = seq![AsmView::Label(function.function_name)];
    lemma_holds_both(image, entry, mark, zero_locals(locals));
    lemma_holds_label(image, entry, function.function_name);
    law_call(image, s, call);
    let called = image.run(s, 44);
    assert(called.pc == entry);
    law_function(image, called, function);
    let entered = image.run(called, 6 * locals);
    lemma_run_on(image, s, 44, 6 * locals);
    assert(entered.sp() == sp + 5 + locals);
    assert(entered.ram[1] == called.ram[1]);
    assert(entered.ram[2] == called.ram[2]);
    assert(entered.ram[sp] == called.ram[sp]);
    assert(entered.ram[(sp + 1) as u16] == called.ram[(sp + 1) as u16]);
    assert(entered.ram[(sp + 2) as u16] == called.ram[(sp + 2) as u16]);
    assert(entered.ram[(sp + 3) as u16] == called.ram[(sp + 3) as u16]);
    assert(entered.ram[(sp + 4) as u16] == called.ram[(sp + 4) as u16]);
    if locals > 0 {
        assert(entered.ram[(sp + 5 + locals - 1) as u16] == 0);
    }
    assert forall|address: u16| 256 <= address < sp implies entered.ram[address]
        == s.ram[address] by {
        assert(entered.ram[address] == called.ram[address]);
    }
}

/// A call of a function that returns right after its head, with nothing put on
/// the stack in between, comes back to the position behind the call with the
/// caller's `LCL`, `ARG`, `THIS` and `THAT` exactly as they were before the
/// call. The stack pointer then points just above the cell that was the
/// first argument, and that cell holds the value that the function had on top
/// of its stack: its last local variable, which is 0, or, without local
/// variables, the saved `THAT`. The caller's stack below the arguments is
/// unchanged.
pub proof fn law_call_and_return(
    image: Image,
    s: Machine,
    call: CallView,
    function: FunctionView,
    entry: nat,
)
    requires
        call.function_name == function.function_name,
        image.holds(s.pc, call_code(call)),
        image.holds(entry, function_code(function) + return_code()),
        s.depth() >= call.n_args,
        s.sp() + 5 + function.n_locals < 0x8000,
    ensures
        ({
            let t = image.run(s, round_trip_steps(function));
            let arg = (s.sp() - call.n_args) as u16;
            &&& t.pc == s.pc + 44
            &&& t.register(Register::LCL) == s.register(Register::LCL)
            &&& t.register(Register::ARG) == s.register(Register::ARG)
            &&& t.register(Register::THIS) == s.register(Register::THIS)
            &&& t.register(Register::THAT) == s.register(Register::THAT)
            &&& t.sp() == arg + 1
            &&& t.stack(0) == if function.n_locals > 0 {
                0
            } else {
                s.register(Register::THAT)
            }
            &&& forall|address: u16| 256 <= address < arg ==> t.ram[address] == s.ram[address]
        }),
{
    let locals = function.n_locals as nat;
    lemma_holds_both(image, entry, function_code(function), return_code());
    lemma_size_function(function);
    lemma_call_into_function(image, s, call, function, entry);
    let entered = image.run(s, 44 + 6 * locals);
    law_return(image, entered);
    let t = image.run(entered, 48);
    lemma_run_on(image, s, 44 + 6 * locals, 48);
    let arg = (s.sp() - call.n_args) as u16;
    assert(t.sp() == arg + 1);
    assert(t.stack(0) == t.ram[arg]);
    assert forall|address: u16| 256 <= address < arg implies t.ram[address] == s.ram[address] by {
        assert(t.ram[address] == entered.ram[address]);
    }
}

/// The head of a function has six instructions for each local variable.
pub proof fn lemma_size_function(function: FunctionView)
    ensures
        size(function_code(function)) == 6 * function.n_locals,
{
    let locals = zero_locals(function.n_locals as nat);
    let mark = seq![AsmView::Label(function.function_name)];
    lemma_size_zero_locals(function.n_locals as nat);
    assert(size(mark) == 0) by {
        reveal_with_fuel(size, 2);
    }
    assert(size(mark + locals) == size(mark) + size(locals)) by {
        lemma_size_both(mark, locals);
    }
}

/// The bootstrap takes 48 instructions, whatever the memory holds before.
/// After them the machine is at `Sys.init`, the stack starts at 256 and holds
/// the first frame, `ARG` points at the bottom of the stack and `LCL` at the
/// first free cell above the frame.
pub proof fn law_bootstrap(image: Image, s: Machine)
    requires
        image.holds(s.pc, bootstrap_code()),
        image.symbols.contains_key("Sys.init"@),
    ensures
        ({
            let t = image.run(s, 48);
            &&& t.pc == image.symbols["Sys.init"@]
            &&& t.sp() == 261
            &&& t.register(Register::LCL) == 261
            &&& t.register(Register::ARG) == 256
            &&& t.ram[256] == s.pc + 48
            &&& t.ram[256] == image.symbols[entry_call().return_address_label]
        }),
{
    let head = seq![
        at_number(256),
        assign(Dest::D, Comp::A),
        at(Register::SP),
        assign(Dest::M, Comp::D),
    ];
    assert(is_plain(head));
    lemma_size_plain(head);
    lemma_holds_both(image, s.pc, head, call_code(entry_call()));
    lemma_fetch(image, s.pc, head, 0);
    lemma_fetch(image, s.pc, head, 1);
    lemma_fetch(image, s.pc, head, 2);
    lemma_fetch(image, s.pc, head, 3);
    reveal_with_fuel(Image::run, 5);
    let started = image.run(s, 4);
    assert(started == Machine { a: 0, d: 256, pc: s.pc + 4, ram: s.ram.insert(0, 256) });
    law_call(image, started, entry_call());
    lemma_run_on(image, s, 4, 44);
}

/// A program whose `Sys.init` has no local variables, puts one constant on
/// the stack and returns, comes back to the position behind the bootstrap
/// with that constant as the only cell of the stack: with 42, the bootstrap
/// is handed 42.
pub proof fn law_entry_returns_constant(image: Image, s: Machine, value: u16, entry: nat)
    requires
        value < 0x8000,
        image.holds(s.pc, bootstrap_code()),
        image.holds(
            entry,
            function_code(FunctionView { function_name: "Sys.init"@, n_locals: 0 }) + push_code(
                Push { segment: Segment::Constant, index: value },
                Seq::empty(),
            ) + return_code(),
        ),
    ensures
        ({
            let t = image.run(s, 48 + 6 + 48);
            &&& t.pc == s.pc + 48
            &&& t.pc == image.symbols[entry_call().return_address_label]
            &&& t.depth() == 1
            &&& t.stack(0) == value
        }),
{
    let function = FunctionView { function_name: "Sys.init"@, n_locals: 0 };
    let push = Push { segment: Segment::Constant, index: value };
    let empty = Seq::<char>::empty();
    lemma_size_function(function);
    let head = function_code(function) + push_code(push, empty);
    lemma_holds_both(image, entry, head, return_code());
    lemma_holds_both(image, entry, function_code(function), push_code(push, empty));
    let mark = seq![AsmView::Label(function.function_name)];
    lemma_holds_both(image, entry, mark, zero_locals(0));
    lemma_holds_label(image, entry, function.function_name);
    law_bootstrap(image, s);
    let started = image.run(s, 48);
    assert(started.pc == entry);
    lemma_push(image, started, push, empty);
    let pushed = image.run(started, 6);
    lemma_run_on(image, s, 48, 6);
    assert(pushed.sp() == 262);
    assert(pushed.register(Register::LCL) == 261);
    assert(pushed.register(Register::ARG) == 256);
    assert(pushed.ram[256] == s.pc + 48);
    assert(pushed.stack(0) == value);
    assert(has_frame(pushed));
    law_return(image, pushed);
    lemma_run_on(image, s, 54, 48);
}

} // verus!
