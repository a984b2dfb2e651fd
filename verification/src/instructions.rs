//! The VM instruction set: one value per line of VM code.

use crate::error::ParseError;
use crate::text::{chars_of, lower, spells, to_lower};
use vstd::prelude::*;

verus! {

/// The operators that rewrite the top of the stack.
#[derive(Debug, Clone, Copy, PartialEq, Eq, Structural)]
pub enum UnaryArithmeticOperator {
    Negate,
    Not,
}

/// The operators that take two cells off the stack and put one on it.
#[derive(Debug, Clone, Copy, PartialEq, Eq, Structural)]
pub enum BinaryArithmeticOperator {
    Add,
    Subtract,
    And,
    Or,
    Eq,
    Gt,
    Lt,
}

/// The shifts of the top of the stack by one bit.
#[derive(Debug, Clone, Copy, PartialEq, Eq, Structural)]
pub enum ShiftArithmeticOperator {
    ShiftLeft,
    ShiftRight,
}

/// An operator, by the number and kind of its operands.
#[derive(Debug, Clone, Copy, PartialEq, Eq, Structural)]
pub enum ArithmeticType {
    Unary(UnaryArithmeticOperator),
    Binary(BinaryArithmeticOperator),
    Shift(ShiftArithmeticOperator),
}

impl BinaryArithmeticOperator {
    /// `eq`, `gt` and `lt` compare; the other four compute.
    pub open spec fn is_comparison(self) -> bool {
        self is Eq || self is Gt || self is Lt
    }
}

impl ArithmeticType {
    /// Whether the operator is one of the three comparisons.
    pub open spec fn is_comparison(self) -> bool {
        self matches ArithmeticType::Binary(op) && op.is_comparison()
    }
}

/// The eight memory segments that `push` and `pop` address.
#[derive(Debug, Clone, Copy, PartialEq, Eq, Structural)]
pub enum Segment {
    Argument,
    Local,
    Static,
    Constant,
    This,
    That,
    Pointer,
    Temp,
}

/// The segment that a name denotes; letter case does not matter.
pub open spec fn segment_of(name: Seq<char>) -> Option<Segment> {
    let n = lower(name);
    if n == "argument"@ {
        Some(Segment::Argument)
    } else if n == "local"@ {
        Some(Segment::Local)
    } else if n == "static"@ {
        Some(Segment::Static)
    } else if n == "constant"@ {
        Some(Segment::Constant)
    } else if n == "this"@ {
        Some(Segment::This)
    } else if n == "that"@ {
        Some(Segment::That)
    } else if n == "pointer"@ {
        Some(Segment::Pointer)
    } else if n == "temp"@ {
        Some(Segment::Temp)
    } else {
        None
    }
}

impl Segment {
    /// The segment named by `segment`, or `UnknownSegment` where it names none.
    pub fn from(segment: &str) -> (result: Result<Segment, ParseError>)
        ensures
            result == match segment_of(segment@) {
                Some(s) => Ok::<Segment, ParseError>(s),
                None => Err(ParseError::UnknownSegment),
            },
    {
        let name = chars_of(segment);
        match Segment::from_chars(&name) {
            Some(s) => Ok(s),
            None => Err(ParseError::UnknownSegment),
        }
    }

    /// The segment named by the characters, if they name one.
    pub fn from_chars(name: &Vec<char>) -> (result: Option<Segment>)
        ensures
            result == segment_of(name@),
    {
        let n = to_lower(name);
        if spells(&n, "argument") {
            Some(Segment::Argument)
        } else if spells(&n, "local") {
            Some(Segment::Local)
        } else if spells(&n, "static") {
            Some(Segment::Static)
        } else if spells(&n, "constant") {
            Some(Segment::Constant)
        } else if spells(&n, "this") {
            Some(Segment::This)
        } else if spells(&n, "that") {
            Some(Segment::That)
        } else if spells(&n, "pointer") {
            Some(Segment::Pointer)
        } else if spells(&n, "temp") {
            Some(Segment::Temp)
        } else {
            None
        }
    }
}

/// `push segment index`: puts a value of the segment on the stack.
#[derive(Debug, Clone, Copy, PartialEq, Eq, Structural)]
pub struct Push {
    pub segment: Segment,
    pub index: u16,
}

impl Push {
    pub fn new(segment: Segment, index: u16) -> (push: Self)
        ensures
            push == (Push { segment, index }),
    {
        Self { segment, index }
    }
}

/// `pop segment index`: takes the top of the stack into a cell of the segment.
#[derive(Debug, Clone, Copy, PartialEq, Eq, Structural)]
pub struct Pop {
    pub segment: Segment,
    pub index: u16,
}

impl Pop {
    pub fn new(segment: Segment, index: u16) -> (pop: Self)
        ensures
            pop == (Pop { segment, index }),
    {
        Self { segment, index }
    }
}

/// A jump target inside a function: the function that was being read when the
/// label was met, and the label's own name.
#[derive(Debug, Clone, PartialEq, Eq)]
pub struct Label {
    pub parent_function: String,
    pub label_name: String,
}

/// A label as the contracts see it.
pub struct LabelView {
    pub parent_function: Seq<char>,
    pub label_name: Seq<char>,
}

impl View for Label {
    type V = LabelView;

    open spec fn view(&self) -> LabelView {
        LabelView { parent_function: self.parent_function@, label_name: self.label_name@ }
    }
}

impl DeepView for Label {
    type V = LabelView;

    open spec fn deep_view(&self) -> LabelView {
        self@
    }
}

impl LabelView {
    /// The name under which the label is known to the assembler: the owning
    /// function (`null` outside every function), `$`, and the label's name.
    pub open spec fn qualified_name(self) -> Seq<char> {
        let parent = if self.parent_function.len() == 0 {
            "null"@
        } else {
            self.parent_function
        };
        parent + "$"@ + self.label_name
    }
}

impl Label {
    /// The label `label` of the function `parent_function`; an empty
    /// name stands for the code outside every function.
    pub fn new(parent_function: &String, label: &String) -> (made: Self)
        ensures
            made@ == (LabelView { parent_function: parent_function@, label_name: label@ }),
    {
        Self { parent_function: parent_function.clone(), label_name: label.clone() }
    }

    /// The name under which the assembler knows the label.
    pub fn extract_label_name(&self) -> (name: String)
        ensures
            name@ == self@.qualified_name(),
    {
        let mut name = if self.parent_function.as_str().is_empty() {
            String::from_str("null")
        } else {
            self.parent_function.clone()
        };
        name.append("$");
        name.append(self.label_name.as_str());
        name
    }
}

/// `call function n_args`: a call site, with the label at which the caller
/// resumes.
#[derive(Debug, Clone, PartialEq, Eq)]
pub struct Call {
    pub function_name: String,
    pub return_address_label: String,
    pub n_args: u16,
}

/// A call as the contracts see it.
pub struct CallView {
    pub function_name: Seq<char>,
    pub return_address_label: Seq<char>,
    pub n_args: u16,
}

impl View for Call {
    type V = CallView;

    open spec fn view(&self) -> CallView {
        CallView {
            function_name: self.function_name@,
            return_address_label: self.return_address_label@,
            n_args: self.n_args,
        }
    }
}

impl DeepView for Call {
    type V = CallView;

    open spec fn deep_view(&self) -> CallView {
        self@
    }
}

impl Call {
    pub fn new(function_name: &String, return_address: &String, n_args: u16) -> (made: Self)
        ensures
            made@ == (CallView {
                function_name: function_name@,
                return_address_label: return_address@,
                n_args,
            }),
    {
        Self {
            function_name: function_name.clone(),
            return_address_label: return_address.clone(),
            n_args,
        }
    }
}

/// `function name n_locals`: the head of a function.
#[derive(Debug, Clone, PartialEq, Eq)]
pub struct Function {
    pub function_name: String,
    pub n_locals: u16,
}

/// A function head as the contracts see it.
pub struct FunctionView {
    pub function_name: Seq<char>,
    pub n_locals: u16,
}

impl View for Function {
    type V = FunctionView;

    open spec fn view(&self) -> FunctionView {
        FunctionView { function_name: self.function_name@, n_locals: self.n_locals }
    }
}

impl DeepView for Function {
    type V = FunctionView;

    open spec fn deep_view(&self) -> FunctionView {
        self@
    }
}

impl Function {
    pub fn new(function_name: &String, n_locals: u16) -> (made: Self)
        ensures
            made@ == (FunctionView { function_name: function_name@, n_locals }),
    {
        Self { function_name: function_name.clone(), n_locals }
    }
}

/// One VM instruction.
#[derive(Debug, Clone, PartialEq, Eq)]
pub enum Instruction {
    CArithmetic(ArithmeticType),
    CPush(Push),
    CPop(Pop),
    CLabel(Label),
    CGoto(Label),
    CIf(Label),
    CFunction(Function),
    CReturn,
    CCall(Call),
}

/// An instruction as the contracts see it.
pub enum InstructionView {
    CArithmetic(ArithmeticType),
    CPush(Push),
    CPop(Pop),
    CLabel(LabelView),
    CGoto(LabelView),
    CIf(LabelView),
    CFunction(FunctionView),
    CReturn,
    CCall(CallView),
}

impl View for Instruction {
    type V = InstructionView;

    open spec fn view(&self) -> InstructionView {
        match self {
            Instruction::CArithmetic(op) => InstructionView::CArithmetic(*op),
            Instruction::CPush(push) => InstructionView::CPush(*push),
            Instruction::CPop(pop) => InstructionView::CPop(*pop),
            Instruction::CLabel(label) => InstructionView::CLabel(label@),
            Instruction::CGoto(label) => InstructionView::CGoto(label@),
            Instruction::CIf(label) => InstructionView::CIf(label@),
            Instruction::CFunction(function) => InstructionView::CFunction(function@),
            Instruction::CReturn => InstructionView::CReturn,
            Instruction::CCall(call) => InstructionView::CCall(call@),
        }
    }
}

impl DeepView for Instruction {
    type V = InstructionView;

    open spec fn deep_view(&self) -> InstructionView {
        self@
    }
}

} // verus!
