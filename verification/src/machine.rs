//! A model of the target machine, for stating what the emitted assembly does.
//!
//! The machine has two 16-bit registers, `A` and `D`, a memory of 16-bit
//! cells, and a program that it cannot change. `M` is the memory cell whose
//! address is in `A`. A program is loaded as an image: its instructions without
//! the label declarations, and the value of every symbol.

use crate::assembly::{AsmView, Comp, Jump, OperandView, Register};
use vstd::prelude::*;

verus! {

/// The 16-bit word that stands for an integer.
pub open spec fn word(x: int) -> u16 {
    (x % 0x10000) as u16
}

/// Whether a word is below zero when read as a signed number.
pub open spec fn is_negative(w: u16) -> bool {
    w >= 0x8000
}

/// The number that a word stands for when read as a signed number.
pub open spec fn signed(w: u16) -> int {
    if w >= 0x8000 {
        w - 0x10000
    } else {
        w as int
    }
}

/// All bits zero: the truth value false.
pub open spec fn all_zeros() -> u16 {
    0
}

/// All bits one: the truth value true.
pub open spec fn all_ones() -> u16 {
    0xFFFF
}

/// What the arithmetic unit computes. Sums and differences wrap around. The
/// shifts move by one bit; the right shift keeps the sign bit.
pub open spec fn compute(comp: Comp, a: u16, d: u16, m: u16) -> u16 {
    match comp {
        Comp::Zero => 0,
        Comp::One => 1,
        Comp::MinusOne => 0xFFFF,
        Comp::D => d,
        Comp::A => a,
        Comp::M => m,
        Comp::NotD => !d,
        Comp::NotA => !a,
        Comp::NotM => !m,
        Comp::NegD => word(-d),
        Comp::NegA => word(-a),
        Comp::NegM => word(-m),
        Comp::DPlusOne => word(d + 1),
        Comp::APlusOne => word(a + 1),
        Comp::MPlusOne => word(m + 1),
        Comp::DMinusOne => word(d - 1),
        Comp::AMinusOne => word(a - 1),
        Comp::MMinusOne => word(m - 1),
        Comp::DPlusA => word(d + a),
        Comp::DPlusM => word(d + m),
        Comp::DMinusA => word(d - a),
        Comp::DMinusM => word(d - m),
        Comp::AMinusD => word(a - d),
        Comp::MMinusD => word(m - d),
        Comp::DAndA => d & a,
        Comp::DAndM => d & m,
        Comp::DOrA => d | a,
        Comp::DOrM => d | m,
        Comp::ShiftLeftM => word(2 * m),
        Comp::ShiftRightM => if is_negative(m) {
            (0x8000 + m / 2) as u16
        } else {
            m / 2
        },
    }
}

/// Whether a jump is taken on a computed value.
pub open spec fn taken(jump: Jump, value: u16) -> bool {
    match jump {
        Jump::Never => false,
        Jump::JGT => value != 0 && !is_negative(value),
        Jump::JEQ => value == 0,
        Jump::JGE => !is_negative(value),
        Jump::JLT => is_negative(value),
        Jump::JNE => value != 0,
        Jump::JLE => value == 0 || is_negative(value),
        Jump::JMP => true,
    }
}

/// A program as the machine holds it.
pub struct Image {
    /// The instructions; none of them is a label declaration.
    pub rom: Seq<AsmView>,
    /// The value of each symbol: the position of the instruction that follows
    /// a label's declaration, or the address of a variable.
    pub symbols: Map<Seq<char>, u16>,
}

/// The state of the machine.
pub struct Machine {
    pub a: u16,
    pub d: u16,
    /// The position of the instruction that is executed next.
    pub pc: nat,
    pub ram: Map<u16, u16>,
}

impl Machine {
    /// The content of a register.
    pub open spec fn register(self, register: Register) -> u16 {
        self.ram[register.address()]
    }

    /// The address of the first free stack cell.
    pub open spec fn sp(self) -> u16 {
        self.ram[0]
    }

    /// How many cells the stack holds. The stack starts at address 256.
    pub open spec fn depth(self) -> int {
        self.sp() - 256
    }

    /// The stack cell that lies `below` cells under the top one.
    pub open spec fn stack(self, below: int) -> u16 {
        self.ram[word(self.sp() - 1 - below)]
    }
}

impl Image {
    /// What an `@` instruction loads. A number must fit in 15 bits, and a
    /// symbol must have a value.
    pub open spec fn loaded(self, operand: OperandView) -> Option<u16> {
        match operand {
            OperandView::Constant(n) => if n < 0x8000 {
                Some(n as u16)
            } else {
                None
            },
            OperandView::Register(r) => Some(r.address()),
            OperandView::Symbol(name) => if self.symbols.contains_key(name) {
                Some(self.symbols[name])
            } else {
                None
            },
        }
    }

    /// The state after `instruction` is executed in state `s`. An instruction
    /// that cannot be executed leaves the machine where it is.
    pub open spec fn execute(self, instruction: AsmView, s: Machine) -> Machine {
        match instruction {
            AsmView::At(operand) => match self.loaded(operand) {
                Some(value) => Machine { a: value, pc: s.pc + 1, ..s },
                None => s,
            },
            AsmView::Compute { dest, comp, jump } => {
                let value = compute(comp, s.a, s.d, s.ram[s.a]);
                Machine {
                    a: if dest.writes_a() {
                        value
                    } else {
                        s.a
                    },
                    d: if dest.writes_d() {
                        value
                    } else {
                        s.d
                    },
                    pc: if taken(jump, value) {
                        s.a as nat
                    } else {
                        s.pc + 1
                    },
                    ram: if dest.writes_m() {
                        s.ram.insert(s.a, value)
                    } else {
                        s.ram
                    },
                }
            },
            AsmView::Label(_) => s,
        }
    }

    /// One step of the machine. Past the end of the program it stands still.
    pub open spec fn step(self, s: Machine) -> Machine {
        if s.pc < self.rom.len() {
            self.execute(self.rom[s.pc as int], s)
        } else {
            s
        }
    }

    /// The state after the given number of steps.
    pub open spec fn run(self, s: Machine, steps: nat) -> Machine
        decreases steps,
    {
        if steps == 0 {
            s
        } else {
            self.step(self.run(s, (steps - 1) as nat))
        }
    }

    /// Whether `code` is loaded so that its first instruction is at position
    /// `base`: its instructions stand in the program one after another, and
    /// each label that it declares has as its value the position of the
    /// instruction that follows the declaration.
    pub open spec fn holds(self, base: nat, code: Seq<AsmView>) -> bool
        decreases code.len(),
    {
        if code.len() == 0 {
            true
        } else {
            match code[0] {
                AsmView::Label(name) => self.symbols.contains_key(name) && self.symbols[name]
                    == base && self.holds(base, code.drop_first()),
                instruction => base < self.rom.len() && self.rom[base as int] == instruction
                    && self.holds(base + 1, code.drop_first()),
            }
        }
    }
}

/// How many instructions a piece of assembly holds, its label declarations
/// not counted.
pub open spec fn size(code: Seq<AsmView>) -> nat
    decreases code.len(),
{
    if code.len() == 0 {
        0
    } else {
        size(code.drop_first()) + if code[0] is Label {
            0nat
        } else {
            1nat
        }
    }
}

/// Whether a piece of assembly declares no label.
pub open spec fn is_plain(code: Seq<AsmView>) -> bool {
    forall|i: int| 0 <= i < code.len() ==> !(#[trigger] code[i] is Label)
}

/// Running on from where a run stopped is one longer run.
pub proof fn lemma_run_on(image: Image, s: Machine, first: nat, then: nat)
    ensures
        image.run(image.run(s, first), then) == image.run(s, first + then),
    decreases then,
{
    if then > 0 {
        lemma_run_on(image, s, first, (then - 1) as nat);
    }
}

/// A piece made of two is loaded where both are, the second right behind the
/// first.
pub proof fn lemma_holds_both(image: Image, base: nat, first: Seq<AsmView>, second: Seq<AsmView>)
    ensures
        image.holds(base, first + second) == (image.holds(base, first) && image.holds(
            base + size(first),
            second,
        )),
        size(first + second) == size(first) + size(second),
    decreases first.len(),
{
    if first.len() == 0 {
        assert(first + second =~= second);
    } else {
        assert((first + second).drop_first() =~= first.drop_first() + second);
        assert((first + second)[0] == first[0]);
        if first[0] is Label {
            lemma_holds_both(image, base, first.drop_first(), second);
        } else {
            lemma_holds_both(image, base + 1, first.drop_first(), second);
        }
    }
}

/// A piece made of two has as many instructions as both together.
pub proof fn lemma_size_both(first: Seq<AsmView>, second: Seq<AsmView>)
    ensures
        size(first + second) == size(first) + size(second),
    decreases first.len(),
{
    if first.len() == 0 {
        assert(first + second =~= second);
    } else {
        assert((first + second).drop_first() =~= first.drop_first() + second);
        assert((first + second)[0] == first[0]);
        lemma_size_both(first.drop_first(), second);
    }
}

/// In a loaded piece without label declarations, instruction `k` stands `k`
/// positions behind the first.
pub proof fn lemma_fetch(image: Image, base: nat, code: Seq<AsmView>, k: int)
    requires
        image.holds(base, code),
        is_plain(code),
        0 <= k < code.len(),
    ensures
        base + k < image.rom.len(),
        image.rom[base + k] == code[k],
        size(code) == code.len(),
    decreases code.len(),
{
    assert(!(code[0] is Label));
    let rest = code.drop_first();
    assert(is_plain(rest)) by {
        assert forall|i: int| 0 <= i < rest.len() implies !(#[trigger] rest[i] is Label) by {
            assert(rest[i] == code[i + 1]);
        }
    }
    lemma_size_plain(code);
    if k > 0 {
        lemma_fetch(image, base + 1, rest, k - 1);
    }
}

/// A piece without label declarations has as many instructions as entries.
pub proof fn lemma_size_plain(code: Seq<AsmView>)
    requires
        is_plain(code),
    ensures
        size(code) == code.len(),
    decreases code.len(),
{
    if code.len() > 0 {
        assert(!(code[0] is Label));
        let rest = code.drop_first();
        assert(is_plain(rest)) by {
            assert forall|i: int| 0 <= i < rest.len() implies !(#[trigger] rest[i] is Label) by {
                assert(rest[i] == code[i + 1]);
            }
        }
        lemma_size_plain(rest);
    }
}

} // verus!
