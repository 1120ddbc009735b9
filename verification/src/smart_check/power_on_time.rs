use vstd::prelude::*;

verus! {

#[derive(Debug)]
pub struct PowerOnTimeResult {
    pub hours: u32,
}

} // verus!
