//! What can go wrong while reading VM text or while emitting assembly.

use vstd::prelude::*;

verus! {

/// Why a line of VM text is not an instruction.
#[derive(Debug, Clone, Copy, PartialEq, Eq, Structural)]
pub enum ParseError {
    /// The operand of `push` or `pop` names none of the eight segments.
    UnknownSegment,
    /// The line starts with no known keyword, an operator is followed by
    /// further text, or a numeric operand is not a 16-bit decimal number.
    InvalidInstruction,
    /// The keyword is known but the line ends before all its operands.
    MissingOperand,
}

/// A rejected line: its position among the lines handed in, and the reason.
#[derive(Debug, Clone, Copy, PartialEq, Eq, Structural)]
pub struct ParseFailure {
    pub line: usize,
    pub error: ParseError,
}

/// Why an instruction has no assembly.
#[derive(Debug, Clone, Copy, PartialEq, Eq, Structural)]
pub enum TranslationError {
    /// `pointer` was addressed with an index other than 0 or 1.
    UnmappedInstruction,
    /// `pop constant`: a literal is not a place to store to.
    InvalidPopFromConstant,
}

/// A rejected instruction: its position in the module, and the reason.
#[derive(Debug, Clone, Copy, PartialEq, Eq, Structural)]
pub struct TranslationFailure {
    pub index: usize,
    pub error: TranslationError,
}

/// Why a unit of a program was not translated.
#[derive(Debug, Clone, Copy, PartialEq, Eq, Structural)]
pub enum UnitError {
    /// A line was rejected.
    Parse(ParseFailure),
    /// An instruction was rejected.
    Translation(TranslationFailure),
}

/// A rejected unit: its position among the units handed in, and the reason.
#[derive(Debug, Clone, Copy, PartialEq, Eq, Structural)]
pub struct CompileError {
    pub unit: usize,
    pub error: UnitError,
}

} // verus!
