use vstd::prelude::*;

verus! {

/// What identifies a table: its name, number of columns, number of
/// arguments, input degree and table degree.
pub type TableView = (Seq<char>, usize, usize, usize, usize);

/// A lookup table used by one or more chips.
#[derive(Debug, Clone)]
pub struct LookupTable {
    pub name: String,
    pub nb_columns: usize,
    pub nb_arguments: usize,
    pub input_degree: usize,
    pub table_degree: usize,
}

/// The views of a list of tables.
pub open spec fn table_views(v: Seq<LookupTable>) -> Seq<TableView> {
    Seq::new(v.len(), |i: int| v[i].tview())
}

impl LookupTable {
    /// What identifies a table: its name and its numbers.
    pub open spec fn tview(self) -> TableView {
        (self.name@, self.nb_columns, self.nb_arguments, self.input_degree, self.table_degree)
    }

    /// Two tables are the same when their names read the same and their
    /// numbers agree.
    pub open spec fn same(self, o: Self) -> bool {
        self.tview() == o.tview()
    }

    /// Registers a table inside a chip description: arguments and degrees are
    /// zero, as the chip counts them through its lookup arguments.
    pub fn register(name: String, nb_columns: usize) -> (t: Self)
        ensures
            t.name@ == name@,
            t.nb_columns == nb_columns,
            t.nb_arguments == 0 && t.input_degree == 0 && t.table_degree == 0,
    {
        LookupTable { name, nb_columns, nb_arguments: 0, input_degree: 0, table_degree: 0 }
    }

    /// A standalone table for extra lookups: at least one argument, an input
    /// degree of at least 2 and a table degree of at least 1.
    pub fn new(
        name: String,
        nb_columns: usize,
        nb_arguments: usize,
        input_degree: usize,
        table_degree: usize,
    ) -> (t: Self)
        ensures
            t.name@ == name@,
            t.nb_columns == nb_columns,
            t.nb_arguments == (if nb_arguments > 1 { nb_arguments } else { 1 }),
            t.input_degree == (if input_degree > 2 { input_degree } else { 2 }),
            t.table_degree == (if table_degree > 1 { table_degree } else { 1 }),
    {
        LookupTable {
            name,
            nb_columns,
            nb_arguments: if nb_arguments > 1 { nb_arguments } else { 1 },
            input_degree: if input_degree > 2 { input_degree } else { 2 },
            table_degree: if table_degree > 1 { table_degree } else { 1 },
        }
    }

    /// A copy of the table.
    pub fn duplicate(&self) -> (t: Self)
        ensures
            t.tview() == self.tview(),
    {
        LookupTable {
            name: self.name.clone(),
            nb_columns: self.nb_columns,
            nb_arguments: self.nb_arguments,
            input_degree: self.input_degree,
            table_degree: self.table_degree,
        }
    }

    /// Compares two tables as `same` does.
    pub fn same_as(&self, o: &Self) -> (b: bool)
        ensures
            b == self.same(*o),
    {
        self.name == o.name && self.nb_columns == o.nb_columns && self.nb_arguments
            == o.nb_arguments && self.input_degree == o.input_degree && self.table_degree
            == o.table_degree
    }
}

} // verus!
