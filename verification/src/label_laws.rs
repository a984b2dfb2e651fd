//! Why the labels that the translator makes up never collide: the return
//! labels of call sites, the qualified names of labels, and the symbols of
//! static cells.

use crate::compiler::{entry_call, static_symbol};
use crate::instructions::{InstructionView, LabelView};
use crate::ledger::index_for;
use crate::parser::{clean_line, line_instruction, read_lines, read_module, return_label, words};
use crate::program::{build, is_vm_file, lemma_build_stays, lines_of, SourceUnitView};
use crate::text::{
    all_digits, decimal, is_digit, lemma_decimal_digits, lemma_decimal_injective,
};
use vstd::prelude::*;

verus! {

/// How many digits stand at the end of a text.
pub open spec fn trailing_digits(s: Seq<char>) -> nat
    decreases s.len(),
{
    if s.len() > 0 && is_digit(s.last()) {
        1 + trailing_digits(s.drop_last())
    } else {
        0
    }
}

/// Behind a text that does not end in a digit, a run of digits is all the
/// digits at the end.
pub proof fn lemma_trailing_digits(head: Seq<char>, digits: Seq<char>)
    requires
        head.len() == 0 || !is_digit(head.last()),
        all_digits(digits),
    ensures
        trailing_digits(head + digits) == digits.len(),
    decreases digits.len(),
{
    if digits.len() == 0 {
        assert(head + digits =~= head);
    } else {
        assert((head + digits).drop_last() =~= head + digits.drop_last());
        assert((head + digits).last() == digits.last());
        lemma_trailing_digits(head, digits.drop_last());
    }
}

/// A prefix that ends in a character other than a digit, followed by a
/// numeral, gives the same text only for the same prefix and the same number.
pub proof fn lemma_numbered_injective(a: Seq<char>, n: nat, b: Seq<char>, m: nat)
    requires
        a.len() > 0 && !is_digit(a.last()),
        b.len() > 0 && !is_digit(b.last()),
        a + decimal(n) == b + decimal(m),
    ensures
        a == b,
        n == m,
{
    lemma_decimal_digits(n);
    lemma_decimal_digits(m);
    lemma_trailing_digits(a, decimal(n));
    lemma_trailing_digits(b, decimal(m));
    let text = a + decimal(n);
    assert(decimal(n) =~= text.skip(text.len() - decimal(n).len()));
    assert(decimal(m) =~= text.skip(text.len() - decimal(m).len()));
    lemma_decimal_injective(n, m);
    assert(a =~= text.take(text.len() - decimal(n).len()));
    assert(b =~= text.take(text.len() - decimal(m).len()));
}

/// Two return labels are the same only if they belong to the same function
/// and the same call index: no two functions ever share a return label, and
/// no function uses one twice.
pub proof fn law_return_labels_differ(f: Seq<char>, n: nat, g: Seq<char>, m: nat)
    requires
        f != g || n != m,
    ensures
        return_label(f, n) != return_label(g, m),
{
    if return_label(f, n) == return_label(g, m) {
        reveal_strlit("&ret.");
        let mark = "&ret."@;
        assert(mark.len() == 5 && mark[4] == '.');
        assert((f + mark).last() == '.');
        assert((g + mark).last() == '.');
        lemma_numbered_injective(f + mark, n, g + mark, m);
        assert(f =~= (f + mark).take((f + mark).len() - 5));
        assert(g =~= (g + mark).take((g + mark).len() - 5));
    }
}

/// How many calls of `function` a run of instructions holds.
pub open spec fn calls_of(instructions: Seq<InstructionView>, function: Seq<char>) -> nat
    decreases instructions.len(),
{
    if instructions.len() == 0 {
        0
    } else {
        let last = instructions.last();
        calls_of(instructions.drop_last(), function) + if last matches InstructionView::CCall(call)
            && call.function_name == function {
            1nat
        } else {
            0nat
        }
    }
}

/// A longer run of instructions holds no fewer calls.
pub proof fn lemma_calls_grow(
    instructions: Seq<InstructionView>,
    function: Seq<char>,
    i: int,
    j: int,
)
    requires
        0 <= i <= j <= instructions.len(),
    ensures
        calls_of(instructions.take(i), function) <= calls_of(instructions.take(j), function),
    decreases j - i,
{
    if i < j {
        lemma_calls_grow(instructions, function, i, j - 1);
        assert(instructions.take(j).drop_last() =~= instructions.take(j - 1));
    }
}

/// The return label of a call that the parser reads carries the index that
/// the call table holds for the callee.
pub proof fn lemma_call_label(
    words: Seq<Seq<char>>,
    scope: Seq<char>,
    table: Map<Seq<char>, nat>,
)
    ensures
        line_instruction(words, scope, table) matches Ok(InstructionView::CCall(call))
            ==> call.return_address_label == return_label(
            call.function_name,
            index_for(table, call.function_name),
        ),
{
}

/// The call with rank `k` of a function, counted over the whole program from
/// 1, gets the return label with index `k`. Said of one module: a call's index
/// is the index that the table held for its callee when reading began, plus
/// the number of calls of the callee that stand before it in the module; and
/// when reading ends, the table holds for every function the index of its
/// next call.
pub proof fn law_call_numbering(lines: Seq<Seq<char>>, n: nat, table: Map<Seq<char>, nat>)
    ensures
        ({
            let reading = read_lines(lines, n, table);
            let instructions = reading.state.instructions;
            &&& forall|f: Seq<char>| #[trigger]
                index_for(reading.state.table, f) == index_for(table, f) + calls_of(
                    instructions,
                    f,
                )
            &&& forall|i: int|
                0 <= i < instructions.len() ==> (#[trigger] instructions[i]
                    matches InstructionView::CCall(call) ==> call.return_address_label
                    == return_label(
                    call.function_name,
                    index_for(table, call.function_name) + calls_of(
                        instructions.take(i),
                        call.function_name,
                    ),
                ))
        }),
    decreases n,
{
    if n > 0 {
        law_call_numbering(lines, (n - 1) as nat, table);
        let before = read_lines(lines, (n - 1) as nat, table);
        let reading = read_lines(lines, n, table);
        let earlier = before.state.instructions;
        let later = reading.state.instructions;
        let w = words(clean_line(lines[n - 1]));
        if before.failure is None && w.len() > 0 {
            lemma_call_label(w, before.state.scope, before.state.table);
            if let Ok(instruction) = line_instruction(w, before.state.scope, before.state.table) {
                assert(later == earlier.push(instruction));
                assert(later.drop_last() =~= earlier);
                assert(later.take(earlier.len() as int) =~= earlier);
                assert forall|f: Seq<char>| #[trigger]
                    index_for(reading.state.table, f) == index_for(table, f) + calls_of(
                        later,
                        f,
                    ) by {
                    assert(index_for(before.state.table, f) == index_for(table, f) + calls_of(
                        earlier,
                        f,
                    ));
                }
                assert forall|i: int| 0 <= i < later.len() implies (#[trigger] later[i]
                    matches InstructionView::CCall(call) ==> call.return_address_label
                    == return_label(
                    call.function_name,
                    index_for(table, call.function_name) + calls_of(
                        later.take(i),
                        call.function_name,
                    ),
                )) by {
                    if i < earlier.len() {
                        assert(later.take(i) =~= earlier.take(i));
                        assert(later[i] == earlier[i]);
                    } else if let InstructionView::CCall(call) = instruction {
                        assert(index_for(before.state.table, call.function_name) == index_for(
                            table,
                            call.function_name,
                        ) + calls_of(earlier, call.function_name));
                    }
                }
            }
        }
    }
}

/// Two call sites of one module never have the same return label.
pub proof fn law_call_sites_differ(
    lines: Seq<Seq<char>>,
    n: nat,
    table: Map<Seq<char>, nat>,
    i: int,
    j: int,
)
    requires
        0 <= i < j < read_lines(lines, n, table).state.instructions.len(),
        read_lines(lines, n, table).state.instructions[i] is CCall,
        read_lines(lines, n, table).state.instructions[j] is CCall,
    ensures
        read_lines(lines, n, table).state.instructions[i]->CCall_0.return_address_label
            != read_lines(lines, n, table).state.instructions[j]->CCall_0.return_address_label,
{
    let instructions = read_lines(lines, n, table).state.instructions;
    let first = instructions[i]->CCall_0;
    let second = instructions[j]->CCall_0;
    law_call_numbering(lines, n, table);
    let rank_first = index_for(table, first.function_name) + calls_of(
        instructions.take(i),
        first.function_name,
    );
    let rank_second = index_for(table, second.function_name) + calls_of(
        instructions.take(j),
        second.function_name,
    );
    if first.function_name == second.function_name {
        lemma_calls_grow(instructions, first.function_name, i + 1, j);
        assert(instructions.take(i + 1).drop_last() =~= instructions.take(i));
    }
    law_return_labels_differ(
        first.function_name,
        rank_first,
        second.function_name,
        rank_second,
    );
}

/// A call site of a module and a call site of a module that is read later,
/// with the table that the first one left, never have the same return label.
pub proof fn law_call_sites_differ_across_modules(
    first_lines: Seq<Seq<char>>,
    second_lines: Seq<Seq<char>>,
    table: Map<Seq<char>, nat>,
    i: int,
    j: int,
)
    requires
        ({
            let first = read_lines(first_lines, first_lines.len(), table);
            let second = read_lines(second_lines, second_lines.len(), first.state.table);
            &&& 0 <= i < first.state.instructions.len()
            &&& 0 <= j < second.state.instructions.len()
            &&& first.state.instructions[i] is CCall
            &&& second.state.instructions[j] is CCall
        }),
    ensures
        ({
            let first = read_lines(first_lines, first_lines.len(), table);
            let second = read_lines(second_lines, second_lines.len(), first.state.table);
            first.state.instructions[i]->CCall_0.return_address_label
                != second.state.instructions[j]->CCall_0.return_address_label
        }),
{
    let first = read_lines(first_lines, first_lines.len(), table);
    let second = read_lines(second_lines, second_lines.len(), first.state.table);
    let a = first.state.instructions[i]->CCall_0;
    let b = second.state.instructions[j]->CCall_0;
    law_call_numbering(first_lines, first_lines.len(), table);
    law_call_numbering(second_lines, second_lines.len(), first.state.table);
    let rank_a = index_for(table, a.function_name) + calls_of(
        first.state.instructions.take(i),
        a.function_name,
    );
    let rank_b = index_for(first.state.table, b.function_name) + calls_of(
        second.state.instructions.take(j),
        b.function_name,
    );
    if a.function_name == b.function_name {
        let all = first.state.instructions;
        lemma_calls_grow(all, a.function_name, i + 1, all.len() as int);
        assert(all.take(i + 1).drop_last() =~= all.take(i));
        assert(all.take(all.len() as int) =~= all);
        assert(index_for(first.state.table, a.function_name) == index_for(table, a.function_name)
            + calls_of(all, a.function_name));
    }
    law_return_labels_differ(a.function_name, rank_a, b.function_name, rank_b);
}

/// The return label of the call that starts a program belongs to no call
/// site, as long as the call table never hands out the index 0.
pub proof fn law_entry_label_differs(
    lines: Seq<Seq<char>>,
    n: nat,
    table: Map<Seq<char>, nat>,
    i: int,
)
    requires
        forall|f: Seq<char>| index_for(table, f) >= 1,
        0 <= i < read_lines(lines, n, table).state.instructions.len(),
        read_lines(lines, n, table).state.instructions[i] is CCall,
    ensures
        read_lines(lines, n, table).state.instructions[i]->CCall_0.return_address_label
            != entry_call().return_address_label,
{
    let instructions = read_lines(lines, n, table).state.instructions;
    let call = instructions[i]->CCall_0;
    law_call_numbering(lines, n, table);
    let rank = index_for(table, call.function_name) + calls_of(
        instructions.take(i),
        call.function_name,
    );
    law_return_labels_differ(call.function_name, rank, "Sys.init"@, 0);
}

/// The instructions of unit `k` of a program, as they are read when the
/// program is translated.
pub open spec fn unit_instructions(units: Seq<SourceUnitView>, k: int) -> Seq<InstructionView> {
    read_module(lines_of(units[k].contents), build(units, k as nat).table).state.instructions
}

/// Along a program the index of a function's next call never goes down, and
/// it is never 0.
pub proof fn lemma_indices_grow(units: Seq<SourceUnitView>, k: nat, m: nat, f: Seq<char>)
    requires
        k <= m,
    ensures
        1 <= index_for(build(units, k).table, f) <= index_for(build(units, m).table, f),
    decreases m,
{
    if m > 0 {
        let earlier = if k == m {
            (m - 1) as nat
        } else {
            k
        };
        lemma_indices_grow(units, earlier, (m - 1) as nat, f);
        let before = build(units, (m - 1) as nat);
        let lines = lines_of(units[m - 1].contents);
        law_call_numbering(lines, lines.len(), before.table);
    }
}

/// No two call sites of a program have the same return label, and none has
/// the return label of the call that starts the program. The call sites are
/// those of the units that are translated: VM files that translation reaches.
pub proof fn law_program_call_sites_differ(
    units: Seq<SourceUnitView>,
    a: int,
    i: int,
    b: int,
    j: int,
)
    requires
        0 <= a <= b < units.len(),
        a < b || i < j,
        is_vm_file(units[a].file_name),
        is_vm_file(units[b].file_name),
        build(units, b as nat).failure is None,
        0 <= i < unit_instructions(units, a).len(),
        0 <= j < unit_instructions(units, b).len(),
        unit_instructions(units, a)[i] is CCall,
        unit_instructions(units, b)[j] is CCall,
    ensures
        unit_instructions(units, a)[i]->CCall_0.return_address_label != unit_instructions(
            units,
            b,
        )[j]->CCall_0.return_address_label,
        unit_instructions(units, a)[i]->CCall_0.return_address_label
            != entry_call().return_address_label,
{
    let first = unit_instructions(units, a)[i]->CCall_0;
    let second = unit_instructions(units, b)[j]->CCall_0;
    let lines_a = lines_of(units[a].contents);
    let lines_b = lines_of(units[b].contents);
    let table_a = build(units, a as nat).table;
    let table_b = build(units, b as nat).table;
    assert forall|f: Seq<char>| index_for(table_a, f) >= 1 by {
        lemma_indices_grow(units, a as nat, a as nat, f);
    }
    law_entry_label_differs(lines_a, lines_a.len(), table_a, i);
    if a == b {
        law_call_sites_differ(lines_a, lines_a.len(), table_a, i, j);
    } else {
        law_call_numbering(lines_a, lines_a.len(), table_a);
        law_call_numbering(lines_b, lines_b.len(), table_b);
        let all = unit_instructions(units, a);
        let rank_first = index_for(table_a, first.function_name) + calls_of(
            all.take(i),
            first.function_name,
        );
        let rank_second = index_for(table_b, second.function_name) + calls_of(
            unit_instructions(units, b).take(j),
            second.function_name,
        );
        if first.function_name == second.function_name {
            let f = first.function_name;
            lemma_calls_grow(all, f, i + 1, all.len() as int);
            assert(all.take(i + 1).drop_last() =~= all.take(i));
            assert(all.take(all.len() as int) =~= all);
            if build(units, (a + 1) as nat).failure is Some {
                lemma_build_stays(units, (a + 1) as nat, b as nat);
            }
            assert(build(units, a as nat).failure is None);
            assert(build(units, (a + 1) as nat).table == read_module(lines_a, table_a).state.table);
            lemma_indices_grow(units, (a + 1) as nat, b as nat, f);
        }
        law_return_labels_differ(
            first.function_name,
            rank_first,
            second.function_name,
            rank_second,
        );
    }
}

/// The name that stands for a label's owner in its qualified name.
pub open spec fn owner_name(label: LabelView) -> Seq<char> {
    if label.parent_function.len() == 0 {
        "null"@
    } else {
        label.parent_function
    }
}

/// Labels of the same name in two functions have different qualified names.
/// Labels outside every function go under the owner `null`.
pub proof fn law_labels_of_two_functions_differ(first: LabelView, second: LabelView)
    requires
        first.label_name == second.label_name,
        owner_name(first) != owner_name(second),
    ensures
        first.qualified_name() != second.qualified_name(),
{
    if first.qualified_name() == second.qualified_name() {
        let tail = "$"@ + first.label_name;
        let a = owner_name(first);
        let b = owner_name(second);
        assert(first.qualified_name() =~= a + tail);
        assert(second.qualified_name() =~= b + tail);
        assert(a =~= (a + tail).take((a + tail).len() - tail.len()));
        assert(b =~= (b + tail).take((b + tail).len() - tail.len()));
    }
}

/// Two static cells have the same symbol only if they are the same cell of the
/// same module: modules of different names never share a static cell.
pub proof fn law_static_cells_differ(
    first_module: Seq<char>,
    first_index: u16,
    second_module: Seq<char>,
    second_index: u16,
)
    requires
        first_module != second_module || first_index != second_index,
    ensures
        static_symbol(first_module, first_index) != static_symbol(second_module, second_index),
{
    if static_symbol(first_module, first_index) == static_symbol(second_module, second_index) {
        reveal_strlit(".");
        let dot = "."@;
        assert(dot.len() == 1 && dot[0] == '.');
        let a = first_module + dot;
        let b = second_module + dot;
        assert(a.last() == '.');
        assert(b.last() == '.');
        lemma_numbered_injective(a, first_index as nat, b, second_index as nat);
        assert(first_module =~= a.take(a.len() - 1));
        assert(second_module =~= b.take(b.len() - 1));
    }
}

} // verus!
