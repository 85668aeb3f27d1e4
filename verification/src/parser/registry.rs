//! The registry of function definitions: one flat table for the whole
//! program, keyed by signature.

use crate::parser::errors::ParseError;
use crate::parser::ir::{FunctionDef, FunctionDefView, Line, LineView, lines_view};
use crate::parser::template::{get_function_signature, parameters, signature};
use crate::parser::text::texts;
use vstd::prelude::*;

verus! {

/// The mathematical value of a registered definition.
pub struct EntryView {
    pub signature: Seq<char>,
    pub def: FunctionDefView,
    pub params: Seq<Seq<char>>,
}

/// A registered definition: its signature, the definition and the names of
/// its parameters.
#[derive(Debug)]
pub struct RegistryEntry {
    pub signature: String,
    pub def: FunctionDef,
    pub params: Vec<String>,
}

/// The table of all definitions of a program, in the order in which their
/// signatures were first registered. It is built once, before any call is
/// expanded, and only read afterwards.
#[derive(Debug)]
pub struct Registry {
    pub entries: Vec<RegistryEntry>,
}

impl View for RegistryEntry {
    type V = EntryView;

    open spec fn view(&self) -> EntryView {
        EntryView { signature: self.signature@, def: self.def@, params: texts(self.params@) }
    }
}

impl View for Registry {
    type V = Seq<EntryView>;

    open spec fn view(&self) -> Seq<EntryView> {
        self.entries@.map_values(|entry: RegistryEntry| entry@)
    }
}

/// The entry under which a definition is registered.
pub open spec fn entry_of(def: FunctionDefView) -> EntryView {
    EntryView { signature: signature(def.name), def, params: parameters(def.name) }
}

/// The signatures of a table, in its order.
pub open spec fn signatures(table: Seq<EntryView>) -> Seq<Seq<char>> {
    table.map_values(|entry: EntryView| entry.signature)
}

/// The place of the first entry with a signature, if there is one.
pub open spec fn position(table: Seq<EntryView>, signature: Seq<char>) -> Option<int>
    decreases table.len(),
{
    if table.len() == 0 {
        None
    } else {
        match position(table.drop_last(), signature) {
            Some(i) => Some(i),
            None => if table.last().signature == signature {
                Some(table.len() - 1)
            } else {
                None
            },
        }
    }
}

/// A table after an entry is registered. Where its signature is new, the
/// entry is added at the end. Where an entry with that signature is there
/// already, the new one takes its place: the definition registered last
/// stands.
pub open spec fn registered(table: Seq<EntryView>, entry: EntryView) -> Seq<EntryView> {
    match position(table, entry.signature) {
        Some(i) => table.update(i, entry),
        None => table.push(entry),
    }
}

/// A table after a line is collected: a definition is registered, and then
/// the lines of its body are collected in order; any other line leaves the
/// table as it is.
pub open spec fn collected_line(line: LineView, table: Seq<EntryView>) -> Seq<EntryView>
    decreases line,
{
    match line {
        LineView::FunctionDef(def) => collected_lines(def.body, registered(table, entry_of(def))),
        _ => table,
    }
}

/// A table after lines are collected in order.
pub open spec fn collected_lines(lines: Seq<LineView>, table: Seq<EntryView>) -> Seq<EntryView>
    decreases lines,
{
    if lines.len() == 0 {
        table
    } else {
        collected_line(lines.last(), collected_lines(lines.drop_last(), table))
    }
}

/// What `position` finds: the first place with the signature.
pub proof fn lemma_position(table: Seq<EntryView>, signature: Seq<char>)
    ensures
        match position(table, signature) {
            Some(i) => 0 <= i < table.len() && table[i].signature == signature && forall|k: int|
                0 <= k < i ==> (#[trigger] table[k]).signature != signature,
            None => forall|k: int|
                0 <= k < table.len() ==> (#[trigger] table[k]).signature != signature,
        },
    decreases table.len(),
{
    if table.len() > 0 {
        lemma_position(table.drop_last(), signature);
        assert(forall|k: int|
            0 <= k < table.len() - 1 ==> table.drop_last()[k] == #[trigger] table[k]);
    }
}

impl Registry {
    /// The empty table.
    pub fn new() -> (table: Registry)
        ensures
            table@ == Seq::<EntryView>::empty(),
    {
        let table = Registry { entries: Vec::new() };
        table
    }

    /// The number of registered definitions.
    pub fn len(&self) -> (n: usize)
        ensures
            n == self@.len(),
    {
        self.entries.len()
    }

    /// The place of the entry with a signature, if there is one.
    pub fn find(&self, signature: &String) -> (found: Option<usize>)
        ensures
            match found {
                Some(i) => position(self@, signature@) == Some(i as int),
                None => position(self@, signature@) is None,
            },
    {
        let mut i: usize = 0;
        while i < self.entries.len()
            invariant
                i <= self.entries.len(),
                forall|k: int| 0 <= k < i ==> (#[trigger] self@[k]).signature != signature@,
            decreases self.entries.len() - i,
        {
            if self.entries[i].signature == *signature {
                proof {
                    assert(self@[i as int].signature == signature@);
                    lemma_position(self@, signature@);
                }
                return Some(i);
            }
            i += 1;
        }
        proof {
            lemma_position(self@, signature@);
        }
        None
    }

    /// Registers a definition under a signature. An entry with the same
    /// signature is replaced.
    pub fn insert(&mut self, signature: String, def: FunctionDef, params: Vec<String>)
        ensures
            final(self)@ == registered(
                old(self)@,
                EntryView { signature: signature@, def: def@, params: texts(params@) },
            ),
    {
        let found = self.find(&signature);
        let entry = RegistryEntry { signature, def, params };
        match found {
            Some(i) => {
                proof {
                    lemma_position(self@, entry.signature@);
                }
                self.entries[i] = entry;
            },
            None => {
                self.entries.push(entry);
            },
        }
    }

    /// The signatures of all registered definitions, in the table's order.
    pub fn signatures(&self) -> (names: Vec<String>)
        ensures
            texts(names@) == signatures(self@),
    {
        let mut names: Vec<String> = Vec::new();
        let mut i: usize = 0;
        while i < self.entries.len()
            invariant
                i <= self.entries.len(),
                names.len() == i,
                forall|k: int| 0 <= k < i ==> (#[trigger] names[k])@ == self@[k].signature,
            decreases self.entries.len() - i,
        {
            names.push(self.entries[i].signature.clone());
            i += 1;
        }
        names
    }
}

/// Registers the definition on a line, and every definition nested in its
/// body, at any depth. A line that is no definition adds nothing. It never
/// fails.
pub fn collect_functions(line: &Line, functions: &mut Registry) -> (result: Result<
    (),
    ParseError,
>)
    ensures
        result is Ok,
        final(functions)@ == collected_line(line@, old(functions)@),
    decreases line,
{
    match line {
        Line::FunctionDef(def) => {
            let (signature, params) = get_function_signature(&def.name);
            functions.insert(signature, def.clone(), params);
            let mut i: usize = 0;
            while i < def.body.len()
                invariant
                    i <= def.body.len(),
                    *line == Line::FunctionDef(*def),
                    functions@ == collected_lines(
                        lines_view(def.body@).take(i as int),
                        registered(old(functions)@, entry_of(def@)),
                    ),
                decreases def.body.len() - i,
            {
                proof {
                    let lines = lines_view(def.body@);
                    assert(lines.take(i + 1).drop_last() =~= lines.take(i as int));
                    assert(decreases_to!(*line => line->FunctionDef_0));
                }
                let _ = collect_functions(&def.body[i], functions);
                i += 1;
            }
            assert(lines_view(def.body@).take(def.body.len() as int) =~= lines_view(def.body@));
            Ok(())
        },
        _ => Ok(()),
    }
}

} // verus!
