use vstd::prelude::*;

use super::rotation_set::RotationSet;

verus! {

/// Kinds of columns used in chips.
#[derive(Clone, Copy, Debug, PartialEq, Eq, Structural)]
pub enum ColumnType {
    Advice,
    Selector,
    ComplexSelector,
    SharedFixed,
    ExclusiveFixed,
    Table,
}

/// A column: its kind, whether it is copy-constrained, and the rotations it
/// is queried at.
#[derive(Clone, Copy, Debug, PartialEq, Eq, Structural)]
pub struct Column {
    pub column_type: ColumnType,
    pub copy_constrained: bool,
    pub rotations: RotationSet,
}

/// The conditions a column built by `Column::new` satisfies: selectors are
/// only queried at the current row and never copy-constrained; other columns
/// are queried somewhere; tables are not copy-constrained; a copy-constrained
/// column is queried at the current row.
pub open spec fn column_ok(column_type: ColumnType, rotations: RotationSet, copy_constrained: bool) -> bool {
    &&& match column_type {
        ColumnType::Selector | ColumnType::ComplexSelector => !copy_constrained && rotations
            == RotationSet::spec_curr(),
        ColumnType::Table => !rotations.spec_is_empty() && !copy_constrained,
        _ => !rotations.spec_is_empty(),
    }
    &&& copy_constrained ==> rotations.curr
}

impl Column {
    pub open spec fn spec_of(column_type: ColumnType, rotations: RotationSet, copy_constrained: bool) -> Self {
        Column { column_type, copy_constrained, rotations }
    }

    fn new(column_type: ColumnType, rotations: RotationSet, copy_constrained: bool) -> (c: Self)
        requires
            column_ok(column_type, rotations, copy_constrained),
        ensures
            c == Self::spec_of(column_type, rotations, copy_constrained),
    {
        Column { column_type, rotations, copy_constrained }
    }

    pub fn advice(rotations: RotationSet, copy_constrained: bool) -> (c: Self)
        requires
            column_ok(ColumnType::Advice, rotations, copy_constrained),
        ensures
            c == Self::spec_of(ColumnType::Advice, rotations, copy_constrained),
    {
        Self::new(ColumnType::Advice, rotations, copy_constrained)
    }

    /// An advice column queried nowhere yet, to merge others into.
    pub fn empty_advice() -> (c: Self)
        ensures
            c == Self::spec_of(ColumnType::Advice, RotationSet::default_spec(), false),
    {
        Column { column_type: ColumnType::Advice, copy_constrained: false, rotations: RotationSet::none() }
    }

    pub fn shared_fixed(rotations: RotationSet, copy_constrained: bool) -> (c: Self)
        requires
            column_ok(ColumnType::SharedFixed, rotations, copy_constrained),
        ensures
            c == Self::spec_of(ColumnType::SharedFixed, rotations, copy_constrained),
    {
        Self::new(ColumnType::SharedFixed, rotations, copy_constrained)
    }

    /// A shared fixed column queried nowhere yet, to merge others into.
    pub fn empty_shared() -> (c: Self)
        ensures
            c == Self::spec_of(ColumnType::SharedFixed, RotationSet::default_spec(), false),
    {
        Column { column_type: ColumnType::SharedFixed, copy_constrained: false, rotations: RotationSet::none() }
    }

    pub fn exclusive_fixed(rotations: RotationSet, copy_constrained: bool) -> (c: Self)
        requires
            column_ok(ColumnType::ExclusiveFixed, rotations, copy_constrained),
        ensures
            c == Self::spec_of(ColumnType::ExclusiveFixed, rotations, copy_constrained),
    {
        Self::new(ColumnType::ExclusiveFixed, rotations, copy_constrained)
    }

    pub fn selector() -> (c: Self)
        ensures
            c == Self::spec_of(ColumnType::Selector, RotationSet::spec_curr(), false),
    {
        Self::new(ColumnType::Selector, RotationSet::curr(), false)
    }

    pub fn complex_selector() -> (c: Self)
        ensures
            c == Self::spec_of(ColumnType::ComplexSelector, RotationSet::spec_curr(), false),
    {
        Self::new(ColumnType::ComplexSelector, RotationSet::curr(), false)
    }

    pub fn table(rotations: RotationSet) -> (c: Self)
        requires
            column_ok(ColumnType::Table, rotations, false),
        ensures
            c == Self::spec_of(ColumnType::Table, rotations, false),
    {
        Self::new(ColumnType::Table, rotations, false)
    }

    pub fn is_copy_constrained(&self) -> (b: bool)
        ensures
            b == self.copy_constrained,
    {
        self.copy_constrained
    }

    pub fn set_copy_constrained(&mut self)
        ensures
            *final(self) == (Column { copy_constrained: true, ..*old(self) }),
    {
        self.copy_constrained = true;
    }

    pub fn rotations(&self) -> (r: RotationSet)
        ensures
            r == self.rotations,
    {
        self.rotations
    }

    pub fn set_curr(&mut self)
        ensures
            *final(self) == (Column { rotations: RotationSet { curr: true, ..old(self).rotations }, ..*old(self) }),
    {
        self.rotations = RotationSet { curr: true, ..self.rotations };
    }

    pub fn set_next(&mut self)
        ensures
            *final(self) == (Column { rotations: RotationSet { next: true, ..old(self).rotations }, ..*old(self) }),
    {
        self.rotations = RotationSet { next: true, ..self.rotations };
    }

    pub fn set_prev(&mut self)
        ensures
            *final(self) == (Column { rotations: RotationSet { prev: true, ..old(self).rotations }, ..*old(self) }),
    {
        self.rotations = RotationSet { prev: true, ..self.rotations };
    }

    /// `self` merged with `col`: the union of the rotations, copy-constrained
    /// when either is.
    pub open spec fn merged(self, col: Self) -> Self {
        Column {
            column_type: self.column_type,
            copy_constrained: self.copy_constrained || col.copy_constrained,
            rotations: self.rotations.union(col.rotations),
        }
    }

    /// Merges a column of the same kind into this one.
    pub fn merge_column(&mut self, col: Column)
        requires
            old(self).column_type == col.column_type,
        ensures
            *final(self) == old(self).merged(col),
    {
        self.copy_constrained = self.copy_constrained || col.is_copy_constrained();
        self.rotations.merge(&col.rotations);
    }
}

} // verus!
