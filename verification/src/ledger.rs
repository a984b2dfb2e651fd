//! The call ledger of a compile session: for every function, the index that
//! its next call site will get. One ledger serves all the modules of a
//! program, so that return labels stay unique program-wide.
//!
//! Indices are kept as decimal numerals, not as machine integers, so that the
//! ledger never runs out of them.

use crate::text::{decimal, lemma_decimal_digits, string_of};
use vstd::prelude::*;

verus! {

/// The index that the next call of `function` gets: 1 for a function that was
/// never called, else what the table holds.
pub open spec fn index_for(table: Map<Seq<char>, nat>, function: Seq<char>) -> nat {
    if table.contains_key(function) {
        table[function]
    } else {
        1
    }
}

/// For every function that was called, the index of its next call.
pub struct CallLedger {
    names: Vec<String>,
    numerals: Vec<Vec<char>>,
    table: Ghost<Map<Seq<char>, nat>>,
}

impl View for CallLedger {
    type V = Map<Seq<char>, nat>;

    /// Function name to the index of its next call; a function that was never
    /// called has no entry.
    closed spec fn view(&self) -> Map<Seq<char>, nat> {
        self.table@
    }
}

/// Turns the numeral of `n` into the numeral of `n + 1`.
fn increment(digits: &mut Vec<char>, Ghost(n): Ghost<nat>)
    requires
        old(digits)@ == decimal(n),
    ensures
        final(digits)@ == decimal(n + 1),
    decreases n,
{
    proof {
        lemma_decimal_digits(n);
    }
    let last = match digits.pop() {
        Some(last) => last,
        None => '0',
    };
    proof {
        if n >= 10 {
            assert(digits@ =~= decimal(n / 10));
        }
    }
    if last != '9' {
        let next: u8 = (last as u32 + 1) as u8;
        digits.push(next as char);
    } else {
        if digits.len() == 0 {
            digits.push('1');
            assert(digits@ =~= decimal(1));
        } else {
            increment(digits, Ghost(n / 10));
        }
        digits.push('0');
    }
}

fn copy_of(digits: &Vec<char>) -> (copy: Vec<char>)
    ensures
        copy@ == digits@,
{
    let mut copy: Vec<char> = Vec::new();
    let mut i: usize = 0;
    while i < digits.len()
        invariant
            i <= digits.len(),
            copy@ == digits@.take(i as int),
        decreases digits.len() - i,
    {
        copy.push(digits[i]);
        i += 1;
    }
    copy
}

impl CallLedger {
    #[verifier::type_invariant]
    spec fn coherent(self) -> bool {
        &&& self.names.len() == self.numerals.len()
        &&& forall|i: int|
            0 <= i < self.names.len() ==> {
                &&& self.table@.contains_key(#[trigger] self.names[i]@)
                &&& self.numerals[i]@ == decimal(self.table@[self.names[i]@])
            }
        &&& forall|i: int, j: int|
            0 <= i < j < self.names.len() ==> self.names[i]@ != self.names[j]@
        &&& forall|f: Seq<char>| #[trigger]
            self.table@.contains_key(f) ==> exists|i: int|
                0 <= i < self.names.len() && self.names[i]@ == f
    }

    /// A ledger in which no function has been called yet.
    pub fn new() -> (ledger: Self)
        ensures
            ledger@ == Map::<Seq<char>, nat>::empty(),
    {
        CallLedger { names: Vec::new(), numerals: Vec::new(), table: Ghost(Map::empty()) }
    }

    fn position(&self, function: &String) -> (found: Option<usize>)
        ensures
            match found {
                Some(i) => i < self.names.len() && self.names[i as int]@ == function@,
                None => !self@.contains_key(function@),
            },
    {
        proof {
            use_type_invariant(self);
        }
        let mut i: usize = 0;
        while i < self.names.len()
            invariant
                i <= self.names.len(),
                forall|j: int| 0 <= j < i ==> self.names[j]@ != function@,
            decreases self.names.len() - i,
        {
            if self.names[i] == *function {
                return Some(i);
            }
            i += 1;
        }
        None
    }

    /// The numeral of the index that the next call of `function` will get.
    pub fn next_index(&self, function: &String) -> (numeral: String)
        ensures
            numeral@ == decimal(index_for(self@, function@)),
    {
        proof {
            use_type_invariant(self);
        }
        match self.position(function) {
            Some(i) => string_of(&self.numerals[i]),
            None => {
                let mut one: Vec<char> = Vec::new();
                one.push('1');
                string_of(&one)
            },
        }
    }

    /// Hands out the index for one more call of `function`, as a numeral, and
    /// counts the call.
    pub fn issue(&mut self, function: &String) -> (numeral: String)
        ensures
            numeral@ == decimal(index_for(old(self)@, function@)),
            final(self)@ == old(self)@.insert(function@, index_for(old(self)@, function@) + 1),
    {
        let found = self.position(function);
        let mut taken = CallLedger::new();
        core::mem::swap(self, &mut taken);
        proof {
            use_type_invariant(&taken);
        }
        let ghost index = index_for(taken@, function@);
        let ghost table = taken.table@.insert(function@, index + 1);
        let CallLedger { names: mut names, numerals: mut numerals, table: _ } = taken;
        let ghost old_names = names@;
        let numeral = match found {
            Some(i) => {
                let mut digits = copy_of(&numerals[i]);
                let numeral = string_of(&digits);
                increment(&mut digits, Ghost(index));
                numerals.set(i, digits);
                numeral
            },
            None => {
                let mut digits: Vec<char> = Vec::new();
                digits.push('1');
                let numeral = string_of(&digits);
                increment(&mut digits, Ghost(1));
                names.push(function.clone());
                numerals.push(digits);
                proof {
                    let last = names.len() - 1;
                    assert forall|f: Seq<char>| #[trigger] table.contains_key(f) implies exists|
                        j: int,
                    | 0 <= j < names.len() && names[j]@ == f by {
                        if f == function@ {
                            assert(names[last]@ == f);
                        } else {
                            let j = choose|j: int| 0 <= j < old_names.len() && old_names[j]@ == f;
                            assert(names[j]@ == f);
                        }
                    }
                }
                numeral
            },
        };
        *self = CallLedger { names, numerals, table: Ghost(table) };
        numeral
    }
}

} // verus!
