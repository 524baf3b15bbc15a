use vstd::prelude::*;

verus! {

/// The landscape types terrain generation chooses between.
#[derive(Clone, Copy, PartialEq, Eq, Structural, Debug)]
pub enum BiomeType {
    Plains,
    Forest,
    Desert,
    Tundra,
    Mountains,
}

} // verus!
