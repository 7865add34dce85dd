use vstd::prelude::*;

pub mod octave;
pub mod wav;

verus! {

} // verus!
