pub mod memory;
pub mod stream;

use vstd::prelude::*;

verus! {

/// The name under which a data block is reported where the source does not
/// hold as many bytes as the header declares: too short a buffer, or a stream
/// that ends early.
pub const DATA_BLOCK: &'static str = "data block";

} // verus!
