//! From lines of VM text to instructions.
//!
//! A line is read in three steps: its comment and the whitespace around it are
//! removed, what is left is split into words, and the first word selects the
//! instruction. Two things are carried from line to line: the function whose
//! name qualifies labels, and the call ledger.

use crate::error::{ParseError, ParseFailure};
use crate::instructions::{
    segment_of, ArithmeticType, BinaryArithmeticOperator, Call, CallView, Function, FunctionView,
    Instruction, InstructionView, Label, LabelView, Pop, Push, Segment, ShiftArithmeticOperator,
    UnaryArithmeticOperator,
};
use crate::ledger::{index_for, CallLedger};
use crate::text::{
    chars_of, decimal, is_space, is_whitespace, number_of, parse_number, spells, string_of,
};
use vstd::prelude::*;

verus! {

/// Where the comment of a line starts: at its first `//`, or at its end.
pub open spec fn comment_start(line: Seq<char>) -> nat
    decreases line.len(),
{
    if line.len() < 2 {
        line.len()
    } else if line[0] == '/' && line[1] == '/' {
        0
    } else {
        1 + comment_start(line.drop_first())
    }
}

/// A text without the whitespace at its start.
pub open spec fn trim_start(s: Seq<char>) -> Seq<char>
    decreases s.len(),
{
    if s.len() > 0 && is_space(s[0]) {
        trim_start(s.drop_first())
    } else {
        s
    }
}

/// A text without the whitespace at its end.
pub open spec fn trim_end(s: Seq<char>) -> Seq<char>
    decreases s.len(),
{
    if s.len() > 0 && is_space(s.last()) {
        trim_end(s.drop_last())
    } else {
        s
    }
}

/// A line without its comment and without the whitespace around what is left.
pub open spec fn clean_line(line: Seq<char>) -> Seq<char> {
    trim_end(trim_start(line.take(comment_start(line) as int)))
}

/// The words of `s` when `current` holds the characters of the word being read.
pub open spec fn words_after(s: Seq<char>, current: Seq<char>) -> Seq<Seq<char>>
    decreases s.len(),
{
    let finished = if current.len() > 0 {
        seq![current]
    } else {
        Seq::empty()
    };
    if s.len() == 0 {
        finished
    } else if is_space(s[0]) {
        finished + words_after(s.drop_first(), Seq::empty())
    } else {
        words_after(s.drop_first(), current.push(s[0]))
    }
}

/// The maximal runs of characters other than whitespace, in order.
pub open spec fn words(s: Seq<char>) -> Seq<Seq<char>> {
    words_after(s, Seq::empty())
}

/// The operator that a keyword denotes.
pub open spec fn operator_of(word: Seq<char>) -> Option<ArithmeticType> {
    if word == "add"@ {
        Some(ArithmeticType::Binary(BinaryArithmeticOperator::Add))
    } else if word == "sub"@ {
        Some(ArithmeticType::Binary(BinaryArithmeticOperator::Subtract))
    } else if word == "neg"@ {
        Some(ArithmeticType::Unary(UnaryArithmeticOperator::Negate))
    } else if word == "and"@ {
        Some(ArithmeticType::Binary(BinaryArithmeticOperator::And))
    } else if word == "or"@ {
        Some(ArithmeticType::Binary(BinaryArithmeticOperator::Or))
    } else if word == "not"@ {
        Some(ArithmeticType::Unary(UnaryArithmeticOperator::Not))
    } else if word == "shiftleft"@ {
        Some(ArithmeticType::Shift(ShiftArithmeticOperator::ShiftLeft))
    } else if word == "shiftright"@ {
        Some(ArithmeticType::Shift(ShiftArithmeticOperator::ShiftRight))
    } else if word == "eq"@ {
        Some(ArithmeticType::Binary(BinaryArithmeticOperator::Eq))
    } else if word == "gt"@ {
        Some(ArithmeticType::Binary(BinaryArithmeticOperator::Gt))
    } else if word == "lt"@ {
        Some(ArithmeticType::Binary(BinaryArithmeticOperator::Lt))
    } else {
        None
    }
}

/// The label at which the call with the given index of `function` resumes.
pub open spec fn return_label(function: Seq<char>, index: nat) -> Seq<char> {
    function + "&ret."@ + decimal(index)
}

/// What a `push` or `pop` line holds; `None` for a line of another kind.
pub open spec fn memory_instruction(words: Seq<Seq<char>>) -> Option<
    Result<InstructionView, ParseError>,
> {
    if words.len() == 0 || (words[0] != "push"@ && words[0] != "pop"@) {
        None
    } else if words.len() < 3 {
        Some(Err(ParseError::MissingOperand))
    } else {
        match segment_of(words[1]) {
            None => Some(Err(ParseError::UnknownSegment)),
            Some(segment) => match number_of(words[2]) {
                None => Some(Err(ParseError::InvalidInstruction)),
                Some(index) => if words[0] == "push"@ {
                    Some(Ok(InstructionView::CPush(Push { segment, index })))
                } else {
                    Some(Ok(InstructionView::CPop(Pop { segment, index })))
                },
            },
        }
    }
}

/// What a `goto` or `if-goto` line holds; `None` for a line of another kind.
pub open spec fn goto_instruction(words: Seq<Seq<char>>, scope: Seq<char>) -> Option<
    Result<InstructionView, ParseError>,
> {
    if words.len() == 0 || (words[0] != "goto"@ && words[0] != "if-goto"@) {
        None
    } else if words.len() < 2 {
        Some(Err(ParseError::MissingOperand))
    } else {
        let target = LabelView { parent_function: scope, label_name: words[1] };
        if words[0] == "goto"@ {
            Some(Ok(InstructionView::CGoto(target)))
        } else {
            Some(Ok(InstructionView::CIf(target)))
        }
    }
}

/// What a `function` line holds; `None` for a line of another kind.
pub open spec fn function_instruction(words: Seq<Seq<char>>) -> Option<
    Result<InstructionView, ParseError>,
> {
    if words.len() == 0 || words[0] != "function"@ {
        None
    } else if words.len() < 3 {
        Some(Err(ParseError::MissingOperand))
    } else {
        match number_of(words[2]) {
            None => Some(Err(ParseError::InvalidInstruction)),
            Some(n_locals) => Some(
                Ok(InstructionView::CFunction(FunctionView { function_name: words[1], n_locals })),
            ),
        }
    }
}

/// What a `call` line holds; `None` for a line of another kind. The return
/// label carries the index that the table holds for the callee.
pub open spec fn call_instruction(words: Seq<Seq<char>>, table: Map<Seq<char>, nat>) -> Option<
    Result<InstructionView, ParseError>,
> {
    if words.len() == 0 || words[0] != "call"@ {
        None
    } else if words.len() < 3 {
        Some(Err(ParseError::MissingOperand))
    } else {
        match number_of(words[2]) {
            None => Some(Err(ParseError::InvalidInstruction)),
            Some(n_args) => Some(
                Ok(
                    InstructionView::CCall(
                        CallView {
                            function_name: words[1],
                            return_address_label: return_label(
                                words[1],
                                index_for(table, words[1]),
                            ),
                            n_args,
                        },
                    ),
                ),
            ),
        }
    }
}

/// The instruction that the words of a line spell, or why they spell none.
/// The first word decides. An operator stands alone on its line; after the
/// operands of any other instruction, further words are ignored.
pub open spec fn line_instruction(
    words: Seq<Seq<char>>,
    scope: Seq<char>,
    table: Map<Seq<char>, nat>,
) -> Result<InstructionView, ParseError> {
    if words.len() == 0 {
        Err(ParseError::InvalidInstruction)
    } else if let Some(operator) = operator_of(words[0]) {
        if words.len() == 1 {
            Ok(InstructionView::CArithmetic(operator))
        } else {
            Err(ParseError::InvalidInstruction)
        }
    } else if let Some(outcome) = memory_instruction(words) {
        outcome
    } else if words[0] == "label"@ {
        if words.len() < 2 {
            Err(ParseError::MissingOperand)
        } else {
            Ok(InstructionView::CLabel(LabelView { parent_function: scope, label_name: words[1] }))
        }
    } else if let Some(outcome) = goto_instruction(words, scope) {
        outcome
    } else if let Some(outcome) = call_instruction(words, table) {
        outcome
    } else if let Some(outcome) = function_instruction(words) {
        outcome
    } else if words[0] == "return"@ {
        Ok(InstructionView::CReturn)
    } else {
        Err(ParseError::InvalidInstruction)
    }
}

/// The function that qualifies the labels after an instruction: the one named
/// by a `function` header or by a `call`, else the one before.
pub open spec fn scope_after(instruction: InstructionView, scope: Seq<char>) -> Seq<char> {
    match instruction {
        InstructionView::CFunction(function) => function.function_name,
        InstructionView::CCall(call) => call.function_name,
        _ => scope,
    }
}

/// The call table after an instruction: a `call` moves its callee one index on.
pub open spec fn table_after(instruction: InstructionView, table: Map<Seq<char>, nat>) -> Map<
    Seq<char>,
    nat,
> {
    match instruction {
        InstructionView::CCall(call) => table.insert(
            call.function_name,
            index_for(table, call.function_name) + 1,
        ),
        _ => table,
    }
}

/// What the parser knows between two lines.
pub struct ParserState {
    pub scope: Seq<char>,
    pub table: Map<Seq<char>, nat>,
    pub instructions: Seq<InstructionView>,
}

/// The state after one more line. A line without words changes nothing.
pub open spec fn read_line(state: ParserState, line: Seq<char>) -> Result<ParserState, ParseError> {
    let w = words(clean_line(line));
    if w.len() == 0 {
        Ok(state)
    } else {
        match line_instruction(w, state.scope, state.table) {
            Ok(instruction) => Ok(
                ParserState {
                    scope: scope_after(instruction, state.scope),
                    table: table_after(instruction, state.table),
                    instructions: state.instructions.push(instruction),
                },
            ),
            Err(error) => Err(error),
        }
    }
}

/// How far reading got: the state before the first rejected line, or after the
/// last line where none was rejected.
pub struct Reading {
    pub state: ParserState,
    pub failure: Option<ParseFailure>,
}

/// Reading the first `n` lines of a module, starting outside every function
/// and with the given call table. Reading stops at the first rejected line.
pub open spec fn read_lines(lines: Seq<Seq<char>>, n: nat, table: Map<Seq<char>, nat>) -> Reading
    decreases n,
{
    if n == 0 {
        Reading {
            state: ParserState { scope: Seq::empty(), table, instructions: Seq::empty() },
            failure: None,
        }
    } else {
        let before = read_lines(lines, (n - 1) as nat, table);
        if before.failure is Some {
            before
        } else {
            match read_line(before.state, lines[n - 1]) {
                Ok(state) => Reading { state, failure: None },
                Err(error) => Reading {
                    state: before.state,
                    failure: Some(ParseFailure { line: (n - 1) as usize, error }),
                },
            }
        }
    }
}

/// Reading a whole module.
pub open spec fn read_module(lines: Seq<Seq<char>>, table: Map<Seq<char>, nat>) -> Reading {
    read_lines(lines, lines.len(), table)
}

/// The words of a line as the contracts see them.
pub open spec fn word_views(words: Seq<Vec<char>>) -> Seq<Seq<char>> {
    Seq::new(words.len(), |i: int| words[i]@)
}

/// Removes the comment of a line and the whitespace around what is left.
pub fn clear_whitespace(line: &str) -> (cleaned: Vec<char>)
    ensures
        cleaned@ == clean_line(line@),
{
    let chars = chars_of(line);
    let n = chars.len();
    let mut cut: usize = 0;
    assert(chars@.skip(0) =~= chars@);
    while n - cut >= 2 && !(chars[cut] == '/' && chars[cut + 1] == '/')
        invariant
            cut <= n == chars.len(),
            comment_start(chars@) == cut + comment_start(chars@.skip(cut as int)),
        decreases n - cut,
    {
        assert(chars@.skip(cut as int).drop_first() =~= chars@.skip(cut + 1));
        cut += 1;
    }
    if n - cut < 2 {
        cut = n;
    }
    let ghost code = chars@.take(cut as int);
    let mut start: usize = 0;
    while start < cut && is_whitespace(chars[start])
        invariant
            start <= cut <= n == chars.len(),
            code == chars@.take(cut as int),
            trim_start(code) == trim_start(chars@.subrange(start as int, cut as int)),
        decreases cut - start,
    {
        assert(chars@.subrange(start as int, cut as int).drop_first() =~= chars@.subrange(
            start + 1,
            cut as int,
        ));
        start += 1;
    }
    let mut end: usize = cut;
    while end > start && is_whitespace(chars[end - 1])
        invariant
            start <= end <= cut <= n == chars.len(),
            trim_end(trim_start(code)) == trim_end(chars@.subrange(start as int, end as int)),
        decreases end - start,
    {
        assert(chars@.subrange(start as int, end as int).drop_last() =~= chars@.subrange(
            start as int,
            end - 1,
        ));
        end -= 1;
    }
    let mut cleaned: Vec<char> = Vec::new();
    let mut i: usize = start;
    while i < end
        invariant
            start <= i <= end <= chars.len(),
            cleaned@ == chars@.subrange(start as int, i as int),
        decreases end - i,
    {
        cleaned.push(chars[i]);
        i += 1;
    }
    cleaned
}

/// Splits a line at whitespace.
pub fn split_words(line: &Vec<char>) -> (found: Vec<Vec<char>>)
    ensures
        word_views(found@) == words(line@),
{
    let mut found: Vec<Vec<char>> = Vec::new();
    let mut current: Vec<char> = Vec::new();
    let mut i: usize = 0;
    assert(line@.skip(0) =~= line@);
    while i < line.len()
        invariant
            i <= line.len(),
            words(line@) == word_views(found@) + words_after(line@.skip(i as int), current@),
        decreases line.len() - i,
    {
        let c = line[i];
        assert(line@.skip(i as int).drop_first() =~= line@.skip(i + 1));
        if is_whitespace(c) {
            if current.len() > 0 {
                found.push(current);
                current = Vec::new();
            } else {
                assert(current@ =~= Seq::<char>::empty());
            }
        } else {
            current.push(c);
        }
        i += 1;
    }
    if current.len() > 0 {
        found.push(current);
    }
    found
}

/// The operator that a keyword denotes, if it denotes one.
pub fn operator(word: &Vec<char>) -> (found: Option<ArithmeticType>)
    ensures
        found == operator_of(word@),
{
    if spells(word, "add") {
        Some(ArithmeticType::Binary(BinaryArithmeticOperator::Add))
    } else if spells(word, "sub") {
        Some(ArithmeticType::Binary(BinaryArithmeticOperator::Subtract))
    } else if spells(word, "neg") {
        Some(ArithmeticType::Unary(UnaryArithmeticOperator::Negate))
    } else if spells(word, "and") {
        Some(ArithmeticType::Binary(BinaryArithmeticOperator::And))
    } else if spells(word, "or") {
        Some(ArithmeticType::Binary(BinaryArithmeticOperator::Or))
    } else if spells(word, "not") {
        Some(ArithmeticType::Unary(UnaryArithmeticOperator::Not))
    } else if spells(word, "shiftleft") {
        Some(ArithmeticType::Shift(ShiftArithmeticOperator::ShiftLeft))
    } else if spells(word, "shiftright") {
        Some(ArithmeticType::Shift(ShiftArithmeticOperator::ShiftRight))
    } else if spells(word, "eq") {
        Some(ArithmeticType::Binary(BinaryArithmeticOperator::Eq))
    } else if spells(word, "gt") {
        Some(ArithmeticType::Binary(BinaryArithmeticOperator::Gt))
    } else if spells(word, "lt") {
        Some(ArithmeticType::Binary(BinaryArithmeticOperator::Lt))
    } else {
        None
    }
}

/// Reads a `push` or `pop` line; `None` where the line is of another kind.
pub fn operand_memory(words: &Vec<Vec<char>>) -> (outcome: Option<Result<Instruction, ParseError>>)
    ensures
        match memory_instruction(word_views(words@)) {
            None => outcome is None,
            Some(Err(error)) => outcome == Some(Err::<Instruction, ParseError>(error)),
            Some(Ok(instruction)) => outcome matches Some(Ok(made)) && made@ == instruction,
        },
{
    if words.len() == 0 {
        return None;
    }
    let is_push = spells(&words[0], "push");
    if !is_push && !spells(&words[0], "pop") {
        return None;
    }
    if words.len() < 3 {
        return Some(Err(ParseError::MissingOperand));
    }
    let segment = match Segment::from_chars(&words[1]) {
        Some(segment) => segment,
        None => {
            return Some(Err(ParseError::UnknownSegment));
        },
    };
    let index = match parse_number(&words[2]) {
        Some(index) => index,
        None => {
            return Some(Err(ParseError::InvalidInstruction));
        },
    };
    if is_push {
        Some(Ok(Instruction::CPush(Push::new(segment, index))))
    } else {
        Some(Ok(Instruction::CPop(Pop::new(segment, index))))
    }
}

/// Reads a `goto` or `if-goto` line; `None` where the line is of another kind.
pub fn operand_gotos(words: &Vec<Vec<char>>, current_function: &String) -> (outcome: Option<
    Result<Instruction, ParseError>,
>)
    ensures
        match goto_instruction(word_views(words@), current_function@) {
            None => outcome is None,
            Some(Err(error)) => outcome == Some(Err::<Instruction, ParseError>(error)),
            Some(Ok(instruction)) => outcome matches Some(Ok(made)) && made@ == instruction,
        },
{
    if words.len() == 0 {
        return None;
    }
    let is_goto = spells(&words[0], "goto");
    if !is_goto && !spells(&words[0], "if-goto") {
        return None;
    }
    if words.len() < 2 {
        return Some(Err(ParseError::MissingOperand));
    }
    let target = Label::new(current_function, &string_of(&words[1]));
    if is_goto {
        Some(Ok(Instruction::CGoto(target)))
    } else {
        Some(Ok(Instruction::CIf(target)))
    }
}

/// Reads a `function` line, and on success makes the function the current
/// one; `None` where the line is of another kind.
pub fn operand_function(words: &Vec<Vec<char>>, current_function: &mut String) -> (outcome: Option<
    Result<Instruction, ParseError>,
>)
    ensures
        match function_instruction(word_views(words@)) {
            None => outcome is None && final(current_function)@ == old(current_function)@,
            Some(Err(error)) => outcome == Some(Err::<Instruction, ParseError>(error))
                && final(current_function)@ == old(current_function)@,
            Some(Ok(instruction)) => outcome matches Some(Ok(made)) && made@ == instruction
                && final(current_function)@ == scope_after(instruction, old(current_function)@),
        },
{
    if words.len() == 0 || !spells(&words[0], "function") {
        return None;
    }
    if words.len() < 3 {
        return Some(Err(ParseError::MissingOperand));
    }
    let n_locals = match parse_number(&words[2]) {
        Some(n) => n,
        None => {
            return Some(Err(ParseError::InvalidInstruction));
        },
    };
    *current_function = string_of(&words[1]);
    Some(Ok(Instruction::CFunction(Function::new(current_function, n_locals))))
}

/// Reads a `call` line; `None` where the line is of another kind. On success
/// the callee becomes the current function and the ledger counts the call.
pub fn operand_call(
    words: &Vec<Vec<char>>,
    current_function: &mut String,
    function_calls: &mut CallLedger,
) -> (outcome: Option<Result<Instruction, ParseError>>)
    ensures
        match call_instruction(word_views(words@), old(function_calls)@) {
            None => outcome is None && final(current_function)@ == old(current_function)@
                && final(function_calls)@ == old(function_calls)@,
            Some(Err(error)) => outcome == Some(Err::<Instruction, ParseError>(error))
                && final(current_function)@ == old(current_function)@
                && final(function_calls)@ == old(function_calls)@,
            Some(Ok(instruction)) => outcome matches Some(Ok(made)) && made@ == instruction
                && final(current_function)@ == scope_after(instruction, old(current_function)@)
                && final(function_calls)@ == table_after(instruction, old(function_calls)@),
        },
{
    if words.len() == 0 || !spells(&words[0], "call") {
        return None;
    }
    if words.len() < 3 {
        return Some(Err(ParseError::MissingOperand));
    }
    let n_args = match parse_number(&words[2]) {
        Some(n) => n,
        None => {
            return Some(Err(ParseError::InvalidInstruction));
        },
    };
    let function_name = string_of(&words[1]);
    let index = function_calls.issue(&function_name);
    let mut return_address = function_name.clone();
    return_address.append("&ret.");
    return_address.append(index.as_str());
    let call = Call::new(&function_name, &return_address, n_args);
    *current_function = function_name;
    Some(Ok(Instruction::CCall(call)))
}

/// Reads the words of one line.
pub fn parse_words(
    words: &Vec<Vec<char>>,
    current_function: &mut String,
    function_calls: &mut CallLedger,
) -> (outcome: Result<Instruction, ParseError>)
    ensures
        match line_instruction(
            word_views(words@),
            old(current_function)@,
            old(function_calls)@,
        ) {
            Ok(instruction) => outcome matches Ok(made) && made@ == instruction
                && final(current_function)@ == scope_after(instruction, old(current_function)@)
                && final(function_calls)@ == table_after(instruction, old(function_calls)@),
            Err(error) => outcome == Err::<Instruction, ParseError>(error)
                && final(current_function)@ == old(current_function)@
                && final(function_calls)@ == old(function_calls)@,
        },
{
    if words.len() == 0 {
        return Err(ParseError::InvalidInstruction);
    }
    if let Some(found) = operator(&words[0]) {
        return if words.len() == 1 {
            Ok(Instruction::CArithmetic(found))
        } else {
            Err(ParseError::InvalidInstruction)
        };
    }
    if let Some(outcome) = operand_memory(words) {
        return outcome;
    }
    if spells(&words[0], "label") {
        return if words.len() < 2 {
            Err(ParseError::MissingOperand)
        } else {
            Ok(Instruction::CLabel(Label::new(current_function, &string_of(&words[1]))))
        };
    }
    if let Some(outcome) = operand_gotos(words, current_function) {
        return outcome;
    }
    if let Some(outcome) = operand_call(words, current_function, function_calls) {
        return outcome;
    }
    if let Some(outcome) = operand_function(words, current_function) {
        return outcome;
    }
    if spells(&words[0], "return") {
        return Ok(Instruction::CReturn);
    }
    Err(ParseError::InvalidInstruction)
}

/// Reads a module. The instructions come out in the order of their lines.
/// Reading stops at the first line that is rejected; the ledger then holds the
/// calls of the lines before it.
pub fn parse(lines: Vec<String>, function_calls: &mut CallLedger) -> (result: Result<
    Vec<Instruction>,
    ParseFailure,
>)
    ensures
        final(function_calls)@ == read_module(lines.deep_view(), old(function_calls)@).state.table,
        match read_module(lines.deep_view(), old(function_calls)@).failure {
            None => result matches Ok(instructions) && instructions.deep_view() == read_module(
                lines.deep_view(),
                old(function_calls)@,
            ).state.instructions,
            Some(failure) => result == Err::<Vec<Instruction>, ParseFailure>(failure),
        },
{
    let ghost text = lines.deep_view();
    let ghost table = function_calls@;
    let mut current_function = String::new();
    let mut parsed: Vec<Instruction> = Vec::new();
    let mut i: usize = 0;
    assert(parsed.deep_view() =~= Seq::<InstructionView>::empty());
    while i < lines.len()
        invariant
            i <= lines.len(),
            text == lines.deep_view(),
            table == old(function_calls)@,
            read_lines(text, i as nat, table) == (Reading {
                state: ParserState {
                    scope: current_function@,
                    table: function_calls@,
                    instructions: parsed.deep_view(),
                },
                failure: None,
            }),
        decreases lines.len() - i,
    {
        let cleaned = clear_whitespace(lines[i].as_str());
        let words = split_words(&cleaned);
        if words.len() > 0 {
            let ghost before = parsed.deep_view();
            match parse_words(&words, &mut current_function, function_calls) {
                Ok(instruction) => {
                    parsed.push(instruction);
                    assert(parsed.deep_view() =~= before.push(instruction@));
                },
                Err(error) => {
                    let failure = ParseFailure { line: i, error };
                    proof {
                        lemma_failure_stays(text, (i + 1) as nat, lines.len() as nat, table);
                    }
                    return Err(failure);
                },
            }
        }
        i += 1;
    }
    Ok(parsed)
}

/// Once a line is rejected, reading further lines changes nothing.
pub proof fn lemma_failure_stays(
    lines: Seq<Seq<char>>,
    n: nat,
    m: nat,
    table: Map<Seq<char>, nat>,
)
    requires
        n <= m,
        read_lines(lines, n, table).failure is Some,
    ensures
        read_lines(lines, m, table) == read_lines(lines, n, table),
    decreases m - n,
{
    if n < m {
        lemma_failure_stays(lines, n, (m - 1) as nat, table);
    }
}

} // verus!
