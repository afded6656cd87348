use vstd::prelude::*;

use crate::numvec::{DataType, Endianness};

verus! {

/// Interpolation used during table queries
#[derive(Clone, Copy, Debug, PartialEq, Eq, Structural)]
pub enum Interpolation {
    Linear,
}

/// Describes the format of a table.
pub struct Table {
    pub width: usize,
    pub height: usize,
    /// Offset from beginning of ROM
    pub offset: u64,
    /// Printable name of the table
    pub name: String,
    /// Long description of the table
    pub description: String,
    /// Unique identifier
    pub id: String,
    /// X-Axis identifier
    pub x_axis_id: Option<String>,
    /// Y-Axis identifier
    pub y_axis_id: Option<String>,
    pub interpolation: Interpolation,
    pub data_type: DataType,
    pub endianness: Endianness,
}

impl Table {
    /// Number of elements: width times height.
    pub open spec fn spec_size(&self) -> nat {
        self.width as nat * self.height as nat
    }

    /// Size of the table's data in bytes.
    pub open spec fn spec_byte_size(&self) -> nat {
        self.data_type.spec_byte_size() * self.spec_size()
    }

    /// Returns true if the table contains only one value.
    pub fn is_scalar(&self) -> (r: bool)
        ensures
            r == (self.width == 1 && self.height == 1),
    {
        self.width == 1 && self.height == 1
    }

    /// Returns true if the table height equals 1.
    /// Note: scalar values will return true.
    pub fn is_one_dimensional(&self) -> (r: bool)
        ensures
            r == (self.height == 1),
    {
        self.height == 1
    }

    /// Returns the size of the table in bytes.
    pub fn byte_size(&self) -> (r: usize)
        requires
            self.spec_byte_size() <= usize::MAX,
        ensures
            r == self.spec_byte_size(),
    {
        proof {
            let w = self.width as nat;
            let h = self.height as nat;
            let b = self.data_type.spec_byte_size();
            assert(w * h <= b * (w * h)) by (nonlinear_arith)
                requires
                    b >= 1,
            ;
        }
        self.data_type.byte_size() * (self.width * self.height)
    }

    /// Returns total number of elements in the table (width x height)
    pub fn size(&self) -> (r: usize)
        requires
            self.spec_size() <= usize::MAX,
        ensures
            r == self.spec_size(),
    {
        self.width * self.height
    }

    /// Returns table width
    pub fn width(&self) -> (r: usize)
        ensures
            r == self.width,
    {
        self.width
    }

    /// Returns table height
    pub fn height(&self) -> (r: usize)
        ensures
            r == self.height,
    {
        self.height
    }
}

} // verus!
