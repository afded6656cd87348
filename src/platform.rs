use vstd::prelude::*;

use crate::table::Table;

verus! {

pub trait Download {}

/// A platform.
pub trait Platform {
    /// Returns the descriptive name of the platform. Used for user display purposes.
    fn name() -> &'static str;

    /// Returns the unique id of the platform. Used for identification.
    fn id() -> &'static str;

    /// Searches for table with `id`.
    fn table(&self, id: &str) -> Option<Table>;

    /// Returns byte length of ROM.
    fn rom_length(&self) -> usize;
}

pub struct Mazdaspeed6;

impl Platform for Mazdaspeed6 {
    fn name() -> (r: &'static str)
        ensures
            r@ == "Mazdaspeed6 / Mazda 6 MPS / Mazdaspeed Atenza"@,
    {
        "Mazdaspeed6 / Mazda 6 MPS / Mazdaspeed Atenza"
    }

    fn id() -> (r: &'static str)
        ensures
            r@ == "mazdaspeed6"@,
    {
        "mazdaspeed6"
    }

    /// No table of this platform is described yet.
    fn table(&self, id: &str) -> (r: Option<Table>)
        ensures
            r is None,
    {
        None
    }

    fn rom_length(&self) -> (r: usize)
        ensures
            r == 1024 * 1024 * 1024,
    {
        1024 * 1024 * 1024
    }
}

} // verus!
