//! Query parameters of the ASCII rendering request.
use vstd::prelude::*;

verus! {

/// The optional `scale` query parameter.
pub struct Params {
    pub scale: Option<u32>,
}

impl Params {
    pub fn new(scale: Option<u32>) -> (r: Params)
        ensures
            r.scale == scale,
    {
        Params { scale }
    }

    pub fn get_scale(&self) -> (r: Option<u32>)
        ensures
            r == self.scale,
    {
        self.scale
    }
}

} // verus!
