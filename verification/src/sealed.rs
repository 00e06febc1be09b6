//! Keeps the set of backends closed.

use vstd::prelude::*;

verus! {

/// Implemented by the backends of this library and by nothing else, so that what is
/// proved of every backend is proved of these.
pub trait Sealed {

}

} // verus!
