//! Column schemas: which columns of a dataset are materialized.

use vstd::prelude::*;

verus! {

/// The datasets that a schema can be registered for.
#[derive(Clone, Copy, Debug, PartialEq, Eq, Hash)]
pub enum Datatype {
    CodeDiffs,
    CodeReads,
}

/// The set of columns requested for one dataset.
pub struct Table {
    columns: Vec<String>,
}

impl View for Table {
    type V = Set<Seq<char>>;

    /// The names of the requested columns.
    closed spec fn view(&self) -> Set<Seq<char>> {
        self.columns@.map_values(|c: String| c@).to_set()
    }
}

impl Table {
    /// A schema that requests exactly the given columns.
    pub fn new(columns: Vec<String>) -> (table: Table)
        ensures
            table@ == columns@.map_values(|c: String| c@).to_set(),
    {
        Table { columns }
    }

    /// Whether the column of the given name is requested.
    pub fn has_column(&self, column: &str) -> (requested: bool)
        ensures
            requested == self@.contains(column@),
    {
        let wanted: String = column.to_owned();
        let ghost names = self.columns@.map_values(|c: String| c@);
        let mut i: usize = 0;
        while i < self.columns.len()
            invariant
                i <= self.columns.len(),
                wanted@ == column@,
                names == self.columns@.map_values(|c: String| c@),
                forall|j: int| 0 <= j < i ==> names[j] != column@,
            decreases self.columns.len() - i,
        {
            if self.columns[i] == wanted {
                assert(names[i as int] == column@);
                return true;
            }
            i += 1;
        }
        false
    }
}

/// The schemas registered for a run, by dataset.
pub struct Schemas {
    code_diffs: Option<Table>,
    code_reads: Option<Table>,
}

impl View for Schemas {
    type V = Map<Datatype, Table>;

    /// The registered schema of each dataset that has one.
    closed spec fn view(&self) -> Map<Datatype, Table> {
        let diffs = match self.code_diffs {
            Some(table) => Map::<Datatype, Table>::empty().insert(Datatype::CodeDiffs, table),
            None => Map::<Datatype, Table>::empty(),
        };
        match self.code_reads {
            Some(table) => diffs.insert(Datatype::CodeReads, table),
            None => diffs,
        }
    }
}

impl Schemas {
    /// A registry without any schema.
    pub fn new() -> (schemas: Schemas)
        ensures
            schemas@ == Map::<Datatype, Table>::empty(),
    {
        Schemas { code_diffs: None, code_reads: None }
    }

    /// Registers `table` for `datatype`, in place of the schema that the
    /// dataset had so far, which is returned.
    pub fn insert(&mut self, datatype: Datatype, table: Table) -> (previous: Option<Table>)
        ensures
            final(self)@ == old(self)@.insert(datatype, table),
            previous == if old(self)@.contains_key(datatype) {
                Some(old(self)@[datatype])
            } else {
                None
            },
    {
        let mut slot = Some(table);
        match datatype {
            Datatype::CodeDiffs => {
                std::mem::swap(&mut self.code_diffs, &mut slot);
            },
            Datatype::CodeReads => {
                std::mem::swap(&mut self.code_reads, &mut slot);
            },
        }
        slot
    }

    /// The schema registered for `datatype`, if there is one.
    pub fn get(&self, datatype: Datatype) -> (schema: Option<&Table>)
        ensures
            match schema {
                Some(table) => self@.contains_key(datatype) && self@[datatype] == *table,
                None => !self@.contains_key(datatype),
            },
    {
        match datatype {
            Datatype::CodeDiffs => self.code_diffs.as_ref(),
            Datatype::CodeReads => self.code_reads.as_ref(),
        }
    }
}

} // verus!
