use vstd::prelude::*;

verus! {

/// Top-level shape of `findmnt -J` output.
#[derive(Debug)]
pub struct FindmntOutput {
    pub filesystems: Vec<BtrfsFilesystem>,
}

/// A single mounted btrfs filesystem as reported by findmnt.
#[derive(Debug)]
pub struct BtrfsFilesystem {
    pub target: String,
    pub source: String,
    pub uuid: String,
}

impl Clone for BtrfsFilesystem {
    fn clone(&self) -> (r: Self)
        ensures
            r == *self,
    {
        BtrfsFilesystem {
            target: self.target.clone(),
            source: self.source.clone(),
            uuid: self.uuid.clone(),
        }
    }
}

} // verus!
