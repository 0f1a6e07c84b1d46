use vstd::prelude::*;

verus! {

/// The buffers that a reader asked for have no owner left: the writer is gone
/// and no read section keeps them.
#[derive(Debug)]
pub struct UpgradeError;

} // verus!
