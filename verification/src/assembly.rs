//! Assembly as typed records, and its text.
//!
//! The emitter builds values of `Asm`; only `render` turns them into text, one
//! instruction per line.

use crate::text::{decimal, push_decimal};
use vstd::prelude::*;

verus! {

/// The memory cells that the translator names directly.
#[derive(Debug, Clone, Copy, PartialEq, Eq, Structural)]
pub enum Register {
    /// Stack pointer: the address of the first free stack cell.
    SP,
    /// Base of the current function's local segment.
    LCL,
    /// Base of the current function's argument segment.
    ARG,
    /// Base of the `this` segment.
    THIS,
    /// Base of the `that` segment.
    THAT,
    /// Scratch cell: the address a `pop` stores to.
    R13,
    /// Scratch cell: the frame pointer of a returning function.
    R14,
    /// Scratch cell: the address a returning function goes back to.
    R15,
}

impl Register {
    /// The address of the cell.
    pub open spec fn address(self) -> u16 {
        match self {
            Register::SP => 0,
            Register::LCL => 1,
            Register::ARG => 2,
            Register::THIS => 3,
            Register::THAT => 4,
            Register::R13 => 13,
            Register::R14 => 14,
            Register::R15 => 15,
        }
    }

    /// The symbol by which the assembler knows the cell.
    pub open spec fn name(self) -> Seq<char> {
        match self {
            Register::SP => "SP"@,
            Register::LCL => "LCL"@,
            Register::ARG => "ARG"@,
            Register::THIS => "THIS"@,
            Register::THAT => "THAT"@,
            Register::R13 => "R13"@,
            Register::R14 => "R14"@,
            Register::R15 => "R15"@,
        }
    }

    pub fn text(self) -> (s: &'static str)
        ensures
            s@ == self.name(),
    {
        match self {
            Register::SP => "SP",
            Register::LCL => "LCL",
            Register::ARG => "ARG",
            Register::THIS => "THIS",
            Register::THAT => "THAT",
            Register::R13 => "R13",
            Register::R14 => "R14",
            Register::R15 => "R15",
        }
    }
}

/// What an `@` instruction loads into the address register.
#[derive(Debug, Clone, PartialEq, Eq)]
pub enum Operand {
    /// A number.
    Constant(u32),
    /// The address of a register.
    Register(Register),
    /// The value that the assembler gives to a symbol: a jump target's
    /// position in the program, or the address of a variable.
    Symbol(String),
}

/// An operand as the contracts see it.
pub enum OperandView {
    Constant(u32),
    Register(Register),
    Symbol(Seq<char>),
}

impl View for Operand {
    type V = OperandView;

    open spec fn view(&self) -> OperandView {
        match self {
            Operand::Constant(n) => OperandView::Constant(*n),
            Operand::Register(r) => OperandView::Register(*r),
            Operand::Symbol(s) => OperandView::Symbol(s@),
        }
    }
}

/// Where a computed value is stored: any of the address register `A`, the
/// data register `D` and the memory cell `M` that `A` points to.
#[derive(Debug, Clone, Copy, PartialEq, Eq, Structural)]
pub enum Dest {
    Nowhere,
    M,
    D,
    MD,
    A,
    AM,
    AD,
    AMD,
}

impl Dest {
    pub open spec fn writes_a(self) -> bool {
        self is A || self is AM || self is AD || self is AMD
    }

    pub open spec fn writes_d(self) -> bool {
        self is D || self is MD || self is AD || self is AMD
    }

    pub open spec fn writes_m(self) -> bool {
        self is M || self is MD || self is AM || self is AMD
    }

    /// The destination with `=`, or nothing where nothing is stored.
    pub open spec fn prefix(self) -> Seq<char> {
        match self {
            Dest::Nowhere => ""@,
            Dest::M => "M="@,
            Dest::D => "D="@,
            Dest::MD => "MD="@,
            Dest::A => "A="@,
            Dest::AM => "AM="@,
            Dest::AD => "AD="@,
            Dest::AMD => "AMD="@,
        }
    }

    pub fn text(self) -> (s: &'static str)
        ensures
            s@ == self.prefix(),
    {
        match self {
            Dest::Nowhere => "",
            Dest::M => "M=",
            Dest::D => "D=",
            Dest::MD => "MD=",
            Dest::A => "A=",
            Dest::AM => "AM=",
            Dest::AD => "AD=",
            Dest::AMD => "AMD=",
        }
    }
}

/// What the arithmetic unit computes from `A`, `D` and `M`.
#[derive(Debug, Clone, Copy, PartialEq, Eq, Structural)]
pub enum Comp {
    Zero,
    One,
    MinusOne,
    D,
    A,
    M,
    NotD,
    NotA,
    NotM,
    NegD,
    NegA,
    NegM,
    DPlusOne,
    APlusOne,
    MPlusOne,
    DMinusOne,
    AMinusOne,
    MMinusOne,
    DPlusA,
    DPlusM,
    DMinusA,
    DMinusM,
    AMinusD,
    MMinusD,
    DAndA,
    DAndM,
    DOrA,
    DOrM,
    /// `M` moved one bit to the left.
    ShiftLeftM,
    /// `M` moved one bit to the right.
    ShiftRightM,
}

impl Comp {
    /// How the computation is written.
    pub open spec fn mnemonic(self) -> Seq<char> {
        match self {
            Comp::Zero => "0"@,
            Comp::One => "1"@,
            Comp::MinusOne => "-1"@,
            Comp::D => "D"@,
            Comp::A => "A"@,
            Comp::M => "M"@,
            Comp::NotD => "!D"@,
            Comp::NotA => "!A"@,
            Comp::NotM => "!M"@,
            Comp::NegD => "-D"@,
            Comp::NegA => "-A"@,
            Comp::NegM => "-M"@,
            Comp::DPlusOne => "D+1"@,
            Comp::APlusOne => "A+1"@,
            Comp::MPlusOne => "M+1"@,
            Comp::DMinusOne => "D-1"@,
            Comp::AMinusOne => "A-1"@,
            Comp::MMinusOne => "M-1"@,
            Comp::DPlusA => "D+A"@,
            Comp::DPlusM => "D+M"@,
            Comp::DMinusA => "D-A"@,
            Comp::DMinusM => "D-M"@,
            Comp::AMinusD => "A-D"@,
            Comp::MMinusD => "M-D"@,
            Comp::DAndA => "D&A"@,
            Comp::DAndM => "D&M"@,
            Comp::DOrA => "D|A"@,
            Comp::DOrM => "D|M"@,
            Comp::ShiftLeftM => "M<<"@,
            Comp::ShiftRightM => "M>>"@,
        }
    }

    pub fn text(self) -> (s: &'static str)
        ensures
            s@ == self.mnemonic(),
    {
        match self {
            Comp::Zero => "0",
            Comp::One => "1",
            Comp::MinusOne => "-1",
            Comp::D => "D",
            Comp::A => "A",
            Comp::M => "M",
            Comp::NotD => "!D",
            Comp::NotA => "!A",
            Comp::NotM => "!M",
            Comp::NegD => "-D",
            Comp::NegA => "-A",
            Comp::NegM => "-M",
            Comp::DPlusOne => "D+1",
            Comp::APlusOne => "A+1",
            Comp::MPlusOne => "M+1",
            Comp::DMinusOne => "D-1",
            Comp::AMinusOne => "A-1",
            Comp::MMinusOne => "M-1",
            Comp::DPlusA => "D+A",
            Comp::DPlusM => "D+M",
            Comp::DMinusA => "D-A",
            Comp::DMinusM => "D-M",
            Comp::AMinusD => "A-D",
            Comp::MMinusD => "M-D",
            Comp::DAndA => "D&A",
            Comp::DAndM => "D&M",
            Comp::DOrA => "D|A",
            Comp::DOrM => "D|M",
            Comp::ShiftLeftM => "M<<",
            Comp::ShiftRightM => "M>>",
        }
    }
}

/// On which computed values, read as signed numbers, the machine jumps.
#[derive(Debug, Clone, Copy, PartialEq, Eq, Structural)]
pub enum Jump {
    Never,
    JGT,
    JEQ,
    JGE,
    JLT,
    JNE,
    JLE,
    JMP,
}

impl Jump {
    /// `;` and the condition, or nothing where the machine never jumps.
    pub open spec fn suffix(self) -> Seq<char> {
        match self {
            Jump::Never => ""@,
            Jump::JGT => ";JGT"@,
            Jump::JEQ => ";JEQ"@,
            Jump::JGE => ";JGE"@,
            Jump::JLT => ";JLT"@,
            Jump::JNE => ";JNE"@,
            Jump::JLE => ";JLE"@,
            Jump::JMP => ";JMP"@,
        }
    }

    pub fn text(self) -> (s: &'static str)
        ensures
            s@ == self.suffix(),
    {
        match self {
            Jump::Never => "",
            Jump::JGT => ";JGT",
            Jump::JEQ => ";JEQ",
            Jump::JGE => ";JGE",
            Jump::JLT => ";JLT",
            Jump::JNE => ";JNE",
            Jump::JLE => ";JLE",
            Jump::JMP => ";JMP",
        }
    }
}

/// One line of assembly.
#[derive(Debug, Clone, PartialEq, Eq)]
pub enum Asm {
    /// `@x`: load the address register.
    At(Operand),
    /// `dest=comp;jump`: compute, store, and perhaps jump to the instruction
    /// whose position the address register holds.
    Compute { dest: Dest, comp: Comp, jump: Jump },
    /// `(NAME)`: give the position of the next instruction a name. It takes no
    /// room in the program.
    Label(String),
}

/// A line of assembly as the contracts see it.
pub enum AsmView {
    At(OperandView),
    Compute { dest: Dest, comp: Comp, jump: Jump },
    Label(Seq<char>),
}

impl View for Asm {
    type V = AsmView;

    open spec fn view(&self) -> AsmView {
        match self {
            Asm::At(operand) => AsmView::At(operand@),
            Asm::Compute { dest, comp, jump } => AsmView::Compute {
                dest: *dest,
                comp: *comp,
                jump: *jump,
            },
            Asm::Label(name) => AsmView::Label(name@),
        }
    }
}

impl DeepView for Asm {
    type V = AsmView;

    open spec fn deep_view(&self) -> AsmView {
        self@
    }
}

impl AsmView {
    /// The text of the instruction, without a line end.
    pub open spec fn text(self) -> Seq<char> {
        match self {
            AsmView::At(OperandView::Constant(n)) => "@"@ + decimal(n as nat),
            AsmView::At(OperandView::Register(r)) => "@"@ + r.name(),
            AsmView::At(OperandView::Symbol(s)) => "@"@ + s,
            AsmView::Compute { dest, comp, jump } => dest.prefix() + comp.mnemonic()
                + jump.suffix(),
            AsmView::Label(name) => "("@ + name + ")"@,
        }
    }
}

/// The text of a piece of assembly: every instruction followed by a line feed.
pub open spec fn listing(code: Seq<AsmView>) -> Seq<char>
    decreases code.len(),
{
    if code.len() == 0 {
        Seq::empty()
    } else {
        listing(code.drop_last()) + code.last().text() + "\n"@
    }
}

/// Appends one instruction and its line feed.
pub fn render_line(out: &mut String, instruction: &Asm)
    ensures
        final(out)@ == old(out)@ + instruction@.text() + "\n"@,
{
    match instruction {
        Asm::At(Operand::Constant(n)) => {
            out.append("@");
            push_decimal(out, *n as u64);
        },
        Asm::At(Operand::Register(r)) => {
            out.append("@");
            out.append(r.text());
        },
        Asm::At(Operand::Symbol(s)) => {
            out.append("@");
            out.append(s.as_str());
        },
        Asm::Compute { dest, comp, jump } => {
            out.append(dest.text());
            out.append(comp.text());
            out.append(jump.text());
        },
        Asm::Label(name) => {
            out.append("(");
            out.append(name.as_str());
            out.append(")");
        },
    }
    out.append("\n");
}

/// The text of a piece of assembly.
pub fn render(code: &Vec<Asm>) -> (text: String)
    ensures
        text@ == listing(code.deep_view()),
{
    let mut text = String::new();
    let mut i: usize = 0;
    while i < code.len()
        invariant
            i <= code.len(),
            text@ == listing(code.deep_view().take(i as int)),
        decreases code.len() - i,
    {
        render_line(&mut text, &code[i]);
        i += 1;
        proof {
            let done = code.deep_view().take(i as int);
            assert(done.drop_last() =~= code.deep_view().take(i - 1));
        }
    }
    assert(code.deep_view().take(code.len() as int) =~= code.deep_view());
    text
}

} // verus!
