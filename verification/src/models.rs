//! The records of the to-do list and the event that reports a change to one.

use vstd::prelude::*;

verus! {

/// What happened to a record.
#[derive(Clone, Copy, Debug, PartialEq, Eq, Structural)]
pub enum MutationKind {
    Create,
    Delete,
}

/// One change to the list: what happened, and to which record.
#[derive(Clone, Copy, Debug, PartialEq, Eq, Structural)]
pub struct TodoUpdate {
    pub mutation_kind: MutationKind,
    pub id: i32,
}

/// A stored record.
#[derive(Clone, Debug, PartialEq, Eq)]
pub struct Todo {
    pub id: i32,
    pub description: String,
}

/// A record that has not been stored yet.
#[derive(Clone, Debug, PartialEq, Eq)]
pub struct TodoNew {
    pub description: String,
}

} // verus!
