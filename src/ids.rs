use vstd::prelude::*;

verus! {

/// The input client id
#[derive(Clone, Copy, Debug, PartialEq, Eq, Structural, Hash, PartialOrd, Ord)]
pub struct ClientId(pub u16);

impl ClientId {
    pub fn id(&self) -> (r: u16)
        ensures
            r == self.0,
    {
        self.0
    }
}

/// The input transaction id
#[derive(Clone, Copy, Debug, PartialEq, Eq, Structural, Hash)]
pub struct TxId(pub u32);

impl TxId {
    pub fn id(&self) -> (r: u32)
        ensures
            r == self.0,
    {
        self.0
    }
}

} // verus!
