//! Whole programs: the units of a program are translated one after another,
//! behind one bootstrap and with one call ledger.

use crate::compiler::{bootstrap_code, compile, create_bootstrap_code, translate};
use crate::assembly::{listing, AsmView};
use crate::error::{CompileError, UnitError};
use crate::ledger::CallLedger;
use crate::parser::{parse, read_module};
use crate::text::{chars_of, lower, spells, string_of, to_lower};
use vstd::prelude::*;

verus! {

/// The position of the last `.` of a name.
pub open spec fn last_dot(name: Seq<char>) -> Option<int>
    decreases name.len(),
{
    if name.len() == 0 {
        None
    } else if name.last() == '.' {
        Some(name.len() - 1)
    } else {
        last_dot(name.drop_last())
    }
}

/// A file name without its extension: what stands before the last `.`, or the
/// whole name where it has no `.` or only a leading one.
pub open spec fn file_stem(name: Seq<char>) -> Seq<char> {
    match last_dot(name) {
        Some(k) => if k > 0 {
            name.take(k)
        } else {
            name
        },
        None => name,
    }
}

/// The extension of a file name: what follows the last `.`, unless the name has
/// no `.` or only a leading one.
pub open spec fn extension(name: Seq<char>) -> Option<Seq<char>> {
    match last_dot(name) {
        Some(k) => if k > 0 {
            Some(name.skip(k + 1))
        } else {
            None
        },
        None => None,
    }
}

/// Whether a file holds VM code, going by its name: the extension is `vm`, in
/// any letter case.
pub open spec fn is_vm_file(name: Seq<char>) -> bool {
    extension(name) matches Some(e) && lower(e) == "vm"@
}

/// The name of the assembly file that belongs to a VM file or to a directory
/// of VM files.
pub open spec fn assembly_file_name(name: Seq<char>) -> Seq<char> {
    file_stem(name) + ".asm"@
}

/// The lines of `s` when `current` holds the characters of the line being read.
pub open spec fn lines_after(s: Seq<char>, current: Seq<char>) -> Seq<Seq<char>>
    decreases s.len(),
{
    if s.len() == 0 {
        seq![current]
    } else if s[0] == '\n' {
        seq![current] + lines_after(s.drop_first(), Seq::empty())
    } else {
        lines_after(s.drop_first(), current.push(s[0]))
    }
}

/// The pieces of a text between its line feeds; one more than it has line feeds.
pub open spec fn lines_of(text: Seq<char>) -> Seq<Seq<char>> {
    lines_after(text, Seq::empty())
}

fn find_last_dot(name: &Vec<char>) -> (found: Option<usize>)
    ensures
        match last_dot(name@) {
            Some(k) => found == Some(k as usize) && 0 <= k < name.len(),
            None => found is None,
        },
{
    let mut end: usize = name.len();
    assert(name@.take(end as int) =~= name@);
    while end > 0
        invariant
            end <= name.len(),
            last_dot(name@) == last_dot(name@.take(end as int)),
        decreases end,
    {
        if name[end - 1] == '.' {
            return Some(end - 1);
        }
        assert(name@.take(end as int).drop_last() =~= name@.take(end - 1));
        end -= 1;
    }
    None
}

fn prefix_of(name: &Vec<char>, n: usize) -> (prefix: Vec<char>)
    requires
        n <= name.len(),
    ensures
        prefix@ == name@.take(n as int),
{
    let mut prefix: Vec<char> = Vec::new();
    let mut i: usize = 0;
    while i < n
        invariant
            i <= n <= name.len(),
            prefix@ == name@.take(i as int),
        decreases n - i,
    {
        prefix.push(name[i]);
        i += 1;
    }
    prefix
}

/// The name of a module: the name of its file without the extension.
pub fn module_name(file_name: &str) -> (name: String)
    ensures
        name@ == file_stem(file_name@),
{
    let chars = chars_of(file_name);
    match find_last_dot(&chars) {
        Some(k) => if k > 0 {
            string_of(&prefix_of(&chars, k))
        } else {
            string_of(&chars)
        },
        None => string_of(&chars),
    }
}

/// Whether a file is a unit of the program, going by its name.
pub fn is_source_unit(file_name: &str) -> (b: bool)
    ensures
        b == is_vm_file(file_name@),
{
    let chars = chars_of(file_name);
    match find_last_dot(&chars) {
        Some(k) => if k > 0 {
            let mut ending: Vec<char> = Vec::new();
            let mut i: usize = k + 1;
            while i < chars.len()
                invariant
                    k < i <= chars.len(),
                    ending@ == chars@.subrange(k + 1, i as int),
                decreases chars.len() - i,
            {
                ending.push(chars[i]);
                i += 1;
            }
            spells(&to_lower(&ending), "vm")
        } else {
            false
        },
        None => false,
    }
}

/// The name of the file that the assembly of `input_name` is written to.
/// `input_name` is the last component of the path that was handed to the
/// translator: the name of a VM file, or that of a directory.
pub fn create_vm_file_path(input_name: &str) -> (name: String)
    ensures
        name@ == assembly_file_name(input_name@),
{
    let mut name = module_name(input_name);
    name.append(".asm");
    name
}

/// Splits a text at its line feeds.
pub fn source_lines(contents: &str) -> (lines: Vec<String>)
    ensures
        lines.deep_view() == lines_of(contents@),
{
    let chars = chars_of(contents);
    let mut lines: Vec<String> = Vec::new();
    let mut current = String::new();
    let mut i: usize = 0;
    assert(chars@.skip(0) =~= chars@);
    while i < chars.len()
        invariant
            i <= chars.len(),
            lines_of(chars@) == lines.deep_view() + lines_after(chars@.skip(i as int), current@),
        decreases chars.len() - i,
    {
        let c = chars[i];
        assert(chars@.skip(i as int).drop_first() =~= chars@.skip(i + 1));
        if c == '\n' {
            lines.push(current);
            current = String::new();
        } else {
            current.push(c);
        }
        i += 1;
    }
    lines.push(current);
    lines
}

/// One file of a program: its name, and what it holds.
#[derive(Debug, Clone, PartialEq, Eq)]
pub struct SourceUnit {
    pub file_name: String,
    pub contents: String,
}

/// A unit as the contracts see it.
pub struct SourceUnitView {
    pub file_name: Seq<char>,
    pub contents: Seq<char>,
}

impl View for SourceUnit {
    type V = SourceUnitView;

    open spec fn view(&self) -> SourceUnitView {
        SourceUnitView { file_name: self.file_name@, contents: self.contents@ }
    }
}

impl DeepView for SourceUnit {
    type V = SourceUnitView;

    open spec fn deep_view(&self) -> SourceUnitView {
        self@
    }
}

/// The text of each piece.
pub open spec fn listings(pieces: Seq<Seq<AsmView>>) -> Seq<Seq<char>> {
    Seq::new(pieces.len(), |i: int| listing(pieces[i]))
}

/// What translating one unit gives: the assembly text of its instructions,
/// one text for each, or the reason why there is none.
pub open spec fn unit_texts(unit: SourceUnitView, table: Map<Seq<char>, nat>) -> Result<
    Seq<Seq<char>>,
    UnitError,
> {
    let reading = read_module(lines_of(unit.contents), table);
    match reading.failure {
        Some(failure) => Err(UnitError::Parse(failure)),
        None => match translate(
            reading.state.instructions,
            reading.state.instructions.len(),
            file_stem(unit.file_name),
        ) {
            Ok(pieces) => Ok(listings(pieces)),
            Err(failure) => Err(UnitError::Translation(failure)),
        },
    }
}

/// The call table after a unit was read.
pub open spec fn unit_table(unit: SourceUnitView, table: Map<Seq<char>, nat>) -> Map<
    Seq<char>,
    nat,
> {
    read_module(lines_of(unit.contents), table).state.table
}

/// Reads and translates one unit of a program.
pub fn compile_file(file_name: &str, contents: &str, function_calls: &mut CallLedger) -> (result:
    Result<Vec<String>, UnitError>)
    ensures
        final(function_calls)@ == unit_table(
            SourceUnitView { file_name: file_name@, contents: contents@ },
            old(function_calls)@,
        ),
        match unit_texts(
            SourceUnitView { file_name: file_name@, contents: contents@ },
            old(function_calls)@,
        ) {
            Ok(texts) => result matches Ok(made) && made.deep_view() == texts,
            Err(error) => result == Err::<Vec<String>, UnitError>(error),
        },
{
    let lines = source_lines(contents);
    let instructions = match parse(lines, function_calls) {
        Ok(instructions) => instructions,
        Err(failure) => {
            return Err(UnitError::Parse(failure));
        },
    };
    let module = module_name(file_name);
    match compile(instructions, module.as_str()) {
        Ok(texts) => {
            Ok(texts)
        },
        Err(failure) => Err(UnitError::Translation(failure)),
    }
}

/// How far a program got.
pub struct Build {
    /// The call table after the units translated so far.
    pub table: Map<Seq<char>, nat>,
    /// The bootstrap, then the texts of the units translated so far.
    pub texts: Seq<Seq<char>>,
    /// The first unit that was rejected, if any was.
    pub failure: Option<CompileError>,
}

/// Translating the first `n` units of a program, in their order. A unit whose
/// name does not end in `.vm` is passed over. Translation stops at the first
/// unit that is rejected. A unit is translated under its module name, the
/// name of its file without the extension; units are told apart by it.
pub open spec fn build(units: Seq<SourceUnitView>, n: nat) -> Build
    decreases n,
{
    if n == 0 {
        Build { table: Map::empty(), texts: seq![listing(bootstrap_code())], failure: None }
    } else {
        let before = build(units, (n - 1) as nat);
        let unit = units[n - 1];
        if before.failure is Some || !is_vm_file(unit.file_name) {
            before
        } else {
            match unit_texts(unit, before.table) {
                Ok(texts) => Build {
                    table: unit_table(unit, before.table),
                    texts: before.texts + texts,
                    failure: None,
                },
                Err(error) => Build {
                    table: unit_table(unit, before.table),
                    texts: before.texts,
                    failure: Some(CompileError { unit: (n - 1) as usize, error }),
                },
            }
        }
    }
}

/// Translates a program: the bootstrap first, then every unit in the order
/// given. Where a unit is rejected, no text at all is handed out.
pub fn compile_files(units: &Vec<SourceUnit>) -> (result: Result<Vec<String>, CompileError>)
    ensures
        match build(units.deep_view(), units.len() as nat).failure {
            None => result matches Ok(texts) && texts.deep_view() == build(
                units.deep_view(),
                units.len() as nat,
            ).texts,
            Some(error) => result == Err::<Vec<String>, CompileError>(error),
        },
{
    let ghost program = units.deep_view();
    let mut function_calls = CallLedger::new();
    let mut texts: Vec<String> = Vec::new();
    texts.push(create_bootstrap_code());
    assert(texts.deep_view() =~= seq![listing(bootstrap_code())]);
    let mut i: usize = 0;
    while i < units.len()
        invariant
            i <= units.len(),
            program == units.deep_view(),
            build(program, i as nat) == (Build {
                table: function_calls@,
                texts: texts.deep_view(),
                failure: None,
            }),
        decreases units.len() - i,
    {
        let unit = &units[i];
        if is_source_unit(unit.file_name.as_str()) {
            match compile_file(
                unit.file_name.as_str(),
                unit.contents.as_str(),
                &mut function_calls,
            ) {
                Ok(mut more) => {
                    let ghost before = texts.deep_view();
                    let ghost added = more.deep_view();
                    texts.append(&mut more);
                    assert(texts.deep_view() =~= before + added);
                },
                Err(error) => {
                    let failure = CompileError { unit: i, error };
                    proof {
                        lemma_build_stays(program, (i + 1) as nat, units.len() as nat);
                    }
                    return Err(failure);
                },
            }
        }
        i += 1;
    }
    Ok(texts)
}

/// Once a unit is rejected, further units change nothing.
pub proof fn lemma_build_stays(units: Seq<SourceUnitView>, n: nat, m: nat)
    requires
        n <= m,
        build(units, n).failure is Some,
    ensures
        build(units, m) == build(units, n),
    decreases m - n,
{
    if n < m {
        lemma_build_stays(units, n, (m - 1) as nat);
    }
}

} // verus!
