//! The kinds of controller state update.
use vstd::prelude::*;

verus! {

#[derive(Clone, Copy, Debug, PartialEq, Eq, Hash, PartialOrd, Ord)]
pub enum UpdateType {
    FullState,
    Delta,
}

impl UpdateType {
    /// The name of the value as the protobuf schema writes it.
    pub fn as_str_name(&self) -> (r: &'static str)
        ensures
            r@ == (match *self {
                UpdateType::FullState => "FULL_STATE"@,
                UpdateType::Delta => "DELTA"@,
            }),
    {
        match self {
            UpdateType::FullState => "FULL_STATE",
            UpdateType::Delta => "DELTA",
        }
    }
}

} // verus!
