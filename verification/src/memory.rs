//! A shared, mutable cell for small copyable values.

use vstd::prelude::*;
use std::cell::Cell;
use std::rc::Rc;

verus! {

/// `std::cell::Cell`; a cell is carried through and nothing is known of what
/// it holds.
#[verifier::external_type_specification]
#[verifier::external_body]
#[verifier::reject_recursive_types(T)]
pub struct ExCell<T: ?Sized>(Cell<T>);

/// `Cell::new`: a fresh cell that holds `value`. Nothing is claimed of the
/// cell: what it holds is state, which no contract here can speak of.
#[verifier::external_body]
fn cell_new<T>(value: T) -> (cell: Cell<T>) {
    Cell::new(value)
}

/// `Cell::get`: a copy of the value in the cell. It is whatever was stored
/// last through any handle, so nothing is claimed of it.
#[verifier::external_body]
fn cell_get<T: Copy>(cell: &Cell<T>) -> (value: T) {
    cell.get()
}

/// `Cell::set`: stores `value`, dropping what the cell held before.
#[verifier::external_body]
fn cell_set<T: Copy>(cell: &Cell<T>, value: T) {
    cell.set(value)
}

/// A handle to a cell shared by all handles made from one another. A value
/// stored through one handle is read through every other.
#[verifier::reject_recursive_types(T)]
#[derive(Debug)]
pub struct Rcc<T: Copy> {
    data: Rc<Cell<T>>,
}

impl<T: Copy> Rcc<T> {
    /// Whether two handles refer to one and the same cell.
    pub closed spec fn same_cell(&self, other: &Rcc<T>) -> bool {
        self.data == other.data
    }

    /// A handle to a new cell that starts out holding `data`.
    pub fn new(data: T) -> (handle: Self) {
        Rcc { data: Rc::new(cell_new(data)) }
    }

    /// Another handle to the cell of `other`.
    pub fn from_other(other: &Rcc<T>) -> (handle: Self)
        ensures
            handle.same_cell(other),
    {
        Rcc { data: other.data.clone() }
    }

    /// The value the cell holds now.
    pub fn get(&self) -> (value: T) {
        cell_get(&self.data)
    }

    /// Stores `value` in the cell, for every handle to see.
    pub fn set(&self, value: T) {
        cell_set(&self.data, value)
    }
}

impl<T: Copy> Clone for Rcc<T> {
    fn clone(&self) -> (handle: Self)
        ensures
            handle.same_cell(self),
    {
        Rcc::from_other(self)
    }
}

} // verus!
