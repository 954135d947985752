//! Keeps the bytes of a program image as they are read in.
use vstd::prelude::*;

verus! {

/// The bytes of a program image and their count.
pub struct ProgramHandler {
    pub file_len: usize,
    pub file_contents: Vec<u8>,
}

impl ProgramHandler {
    pub fn new() -> (r: ProgramHandler)
        ensures
            r.file_len == 0,
            r.file_contents@ == Seq::<u8>::empty(),
    {
        ProgramHandler { file_len: 0, file_contents: Vec::new() }
    }

    /// Appends `data`, just read from a program file, to the contents kept
    /// so far, records their length, and returns a copy of them.
    pub fn store_contents(&mut self, data: &Vec<u8>) -> (r: Vec<u8>)
        requires
            old(self).file_contents@.len() + data@.len() <= usize::MAX,
        ensures
            final(self).file_contents@ == old(self).file_contents@ + data@,
            final(self).file_len == final(self).file_contents@.len(),
            r@ == final(self).file_contents@,
    {
        let mut k: usize = 0;
        while k < data.len()
            invariant
                k <= data@.len(),
                self.file_contents@ == old(self).file_contents@ + data@.subrange(0, k as int),
            decreases data@.len() - k,
        {
            self.file_contents.push(data[k]);
            k = k + 1;
            assert(data@.subrange(0, k as int) =~= data@.subrange(0, k - 1).push(data@[k - 1]));
        }
        assert(data@.subrange(0, data@.len() as int) =~= data@);
        self.file_len = self.file_contents.len();
        let mut copy: Vec<u8> = Vec::new();
        let mut j: usize = 0;
        while j < self.file_contents.len()
            invariant
                j <= self.file_contents@.len(),
                copy@ == self.file_contents@.subrange(0, j as int),
            decreases self.file_contents@.len() - j,
        {
            copy.push(self.file_contents[j]);
            j = j + 1;
            assert(copy@ =~= self.file_contents@.subrange(0, j as int));
        }
        assert(copy@ =~= self.file_contents@);
        copy
    }
}

} // verus!
