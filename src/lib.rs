// Authorization state machine of a custodial vault record: the record's
// byte layout, the instruction codec and builders, and the processor.
use vstd::prelude::*;

pub mod error;
pub mod instruction;
pub mod processor;
pub mod state;

verus! {

} // verus!
