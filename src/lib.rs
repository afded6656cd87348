use vstd::prelude::*;

pub mod datalink;
pub mod numvec;
pub mod platform;
pub mod table;

pub use crate::numvec::Endianness;

use crate::table::Table;

verus! {

/// A ROM image read from an ECU.
pub struct Rom {
    data: Vec<u8>,
}

impl View for Rom {
    type V = Seq<u8>;

    closed spec fn view(&self) -> Seq<u8> {
        self.data@
    }
}

impl Rom {
    /// A ROM holding `data`.
    pub fn new(data: Vec<u8>) -> (r: Rom)
        ensures
            r@ == data@,
    {
        Rom { data }
    }

    /// Size of the image in bytes.
    pub fn len(&self) -> (r: usize)
        ensures
            r == self@.len(),
    {
        self.data.len()
    }

    /// The image's bytes.
    pub fn data(&self) -> (r: &[u8])
        ensures
            r@ == self@,
    {
        self.data.as_slice()
    }

    /// The bytes that hold `table`'s data: `table.byte_size()` bytes from
    /// `table.offset`, or `None` where they do not lie inside the image.
    pub fn table_bytes(&self, table: &Table) -> (r: Option<Vec<u8>>)
        ensures
            table.offset + table.spec_byte_size() <= self@.len() <==> r is Some,
            r matches Some(v) ==> v@ == self@.subrange(
                table.offset as int,
                table.offset + table.spec_byte_size(),
            ),
    {
        let n = self.data.len();
        if table.offset > n as u64 {
            return None;
        }
        let start = table.offset as usize;
        let room = n - start;
        if table.width == 0 || table.height == 0 {
            proof {
                assert(table.spec_size() == 0) by (nonlinear_arith)
                    requires
                        table.width == 0 || table.height == 0,
                        table.spec_size() == table.width as nat * table.height as nat,
                ;
            }
            assert(table.spec_byte_size() == 0);
            let r: Vec<u8> = Vec::new();
            assert(r@ =~= self@.subrange(start as int, start as int));
            return Some(r);
        }
        let b = table.data_type.byte_size();
        if table.width > room / b || table.height > room / b / table.width {
            proof {
                let w = table.width as nat;
                let h = table.height as nat;
                let bb = b as nat;
                assert(bb * w * h > room) by (nonlinear_arith)
                    requires
                        w >= 1,
                        h >= 1,
                        bb >= 1,
                        w > room as nat / bb || h > room as nat / bb / w,
                ;
                assert(table.spec_byte_size() == bb * (w * h));
                assert(bb * w * h == bb * (w * h)) by (nonlinear_arith);
            }
            return None;
        }
        proof {
            let w = table.width as nat;
            let h = table.height as nat;
            let bb = b as nat;
            assert(bb * w * h <= room) by (nonlinear_arith)
                requires
                    w >= 1,
                    h >= 1,
                    bb >= 1,
                    w <= room as nat / bb,
                    h <= room as nat / bb / w,
            ;
            assert(bb * w * h == bb * (w * h)) by (nonlinear_arith);
            assert(w * h <= bb * (w * h)) by (nonlinear_arith)
                requires
                    bb >= 1,
            ;
        }
        let len = b * (table.width * table.height);
        let mut r: Vec<u8> = Vec::with_capacity(len);
        assert(len <= room);
        let end = start + len;
        let mut i: usize = start;
        while i < end
            invariant
                end <= self.data@.len(),
                start <= i <= end,
                end == start + len,
                r@ == self.data@.subrange(start as int, i as int),
            decreases end - i,
        {
            r.push(self.data[i]);
            i = i + 1;
        }
        Some(r)
    }
}

} // verus!
