use vstd::prelude::*;

use crate::text::{char_from_u32, is_scalar};

verus! {

/// A named range of Unicode code points, both ends included.
#[derive(Clone, Copy, Debug)]
pub struct UnicodeBlock {
    pub name: &'static str,
    pub start: u32,
    pub end: u32,
}

impl UnicodeBlock {
    /// Well formed: the range is not empty.
    pub open spec fn wf(&self) -> bool {
        self.start <= self.end
    }

    /// The number of code points in the block.
    pub open spec fn spec_len(&self) -> nat {
        (self.end - self.start + 1) as nat
    }

    /// The number of rows of sixteen code points that the block fills.
    pub fn row_count(&self) -> (r: u32)
        requires
            self.wf(),
        ensures
            r == (self.spec_len() + 15) / 16,
    {
        let span = self.end - self.start;
        span / 16 + 1
    }

    /// The first code point of each row of sixteen.
    pub fn row_starts(&self) -> (r: Vec<u32>)
        requires
            self.wf(),
        ensures
            r@.len() == (self.spec_len() + 15) / 16,
            forall|i: int| 0 <= i < r@.len() ==> #[trigger] r@[i] == self.start + 16 * i,
    {
        let rows = self.row_count();
        let mut out: Vec<u32> = Vec::new();
        let mut i: u32 = 0;
        while i < rows
            invariant
                self.wf(),
                rows == (self.spec_len() + 15) / 16,
                i <= rows,
                out@.len() == i,
                forall|j: int| 0 <= j < i ==> #[trigger] out@[j] == self.start + 16 * j,
            decreases rows - i,
        {
            assert(self.start + 16 * i <= self.end) by (nonlinear_arith)
                requires
                    i < rows,
                    rows == (self.end - self.start + 1 + 15) / 16,
                    self.start <= self.end,
            ;
            out.push(self.start + 16 * i);
            i += 1;
        }
        out
    }

    /// The character at each code point of the block, in order; `None` for a
    /// code point that is no scalar value.
    pub fn glyph_cells(&self) -> (r: Vec<Option<char>>)
        requires
            self.wf(),
        ensures
            r@.len() == self.spec_len(),
            forall|i: int|
                0 <= i < r@.len() ==> (#[trigger] r@[i] is Some <==> is_scalar(
                    (self.start + i) as u32,
                )) && (r@[i] matches Some(c) ==> c as u32 == self.start + i),
    {
        let mut out: Vec<Option<char>> = Vec::new();
        let mut cp: u32 = self.start;
        loop
            invariant
                self.wf(),
                self.start <= cp <= self.end,
                out@.len() == cp - self.start,
                forall|i: int|
                    0 <= i < out@.len() ==> (#[trigger] out@[i] is Some <==> is_scalar(
                        (self.start + i) as u32,
                    )) && (out@[i] matches Some(c) ==> c as u32 == self.start + i),
            decreases self.end - cp,
        {
            out.push(char_from_u32(cp));
            if cp == self.end {
                return out;
            }
            cp += 1;
        }
    }
}

} // verus!
