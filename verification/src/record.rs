use vstd::prelude::*;
use crate::field::Field;
use crate::field::FieldValue;

verus! {

/// Handle of one output edge of a node.
pub type PortHandle = u16;

/// The port that a node with a single output sends on.
pub const DEFAULT_PORT_HANDLE: PortHandle = 0xffff;

/// The values of a sequence of fields, position by position.
pub open spec fn values_of(fields: Seq<Field>) -> Seq<FieldValue> {
    Seq::new(fields.len(), |i: int| fields[i]@)
}

/// Copies a list of fields.
pub fn clone_fields(fields: &Vec<Field>) -> (copy: Vec<Field>)
    ensures
        values_of(copy@) == values_of(fields@),
{
    let mut copy: Vec<Field> = Vec::new();
    let mut i: usize = 0;
    while i < fields.len()
        invariant
            i <= fields.len(),
            copy.len() == i,
            forall|j: int| 0 <= j < i ==> copy[j]@ == fields[j]@,
        decreases fields.len() - i,
    {
        copy.push(fields[i].clone());
        i = i + 1;
    }
    assert(values_of(copy@) =~= values_of(fields@));
    copy
}

/// A row: field values in the order of the schema they follow.
#[derive(Debug, PartialEq, Eq)]
pub struct Record {
    pub values: Vec<Field>,
}

impl View for Record {
    type V = Seq<FieldValue>;

    open spec fn view(&self) -> Seq<FieldValue> {
        values_of(self.values@)
    }
}

impl Record {
    /// A record of the given values.
    pub fn new(values: Vec<Field>) -> (record: Record)
        ensures
            record@ == values_of(values@),
    {
        Record { values }
    }
}

impl Clone for Record {
    fn clone(&self) -> (copy: Self)
        ensures
            copy@ == self@,
    {
        Record { values: clone_fields(&self.values) }
    }
}

/// A change to one row.
#[derive(Debug, PartialEq, Eq)]
pub enum Operation {
    Insert { new: Record },
    Update { old: Record, new: Record },
    Delete { old: Record },
}

/// Mathematical value of an [`Operation`].
pub enum OperationView {
    Insert { new: Seq<FieldValue> },
    Update { old: Seq<FieldValue>, new: Seq<FieldValue> },
    Delete { old: Seq<FieldValue> },
}

impl View for Operation {
    type V = OperationView;

    open spec fn view(&self) -> OperationView {
        match self {
            Operation::Insert { new } => OperationView::Insert { new: new@ },
            Operation::Update { old, new } => OperationView::Update { old: old@, new: new@ },
            Operation::Delete { old } => OperationView::Delete { old: old@ },
        }
    }
}

impl Clone for Operation {
    fn clone(&self) -> (copy: Self)
        ensures
            copy@ == self@,
    {
        match self {
            Operation::Insert { new } => Operation::Insert { new: new.clone() },
            Operation::Update { old, new } => Operation::Update {
                old: old.clone(),
                new: new.clone(),
            },
            Operation::Delete { old } => Operation::Delete { old: old.clone() },
        }
    }
}

/// The values of a sequence of operations, position by position.
pub open spec fn operations_of(operations: Seq<Operation>) -> Seq<OperationView> {
    Seq::new(operations.len(), |i: int| operations[i]@)
}

} // verus!
