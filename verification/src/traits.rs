//! The tabular interface: a record type exposes its column names and
//! the values of one row, keyed by column name. The display layer is
//! built on this.

use vstd::prelude::*;

verus! {

pub trait Table {
    type Key;

    type Value;

    fn get_keys() -> Vec<Self::Key>;

    fn get_values(&self) -> Vec<Self::Value>;

    fn get_entries(&self) -> Vec<(Self::Key, Self::Value)>;

    fn get_value(&self, key: &Self::Key) -> Option<Self::Value>;
}

} // verus!
