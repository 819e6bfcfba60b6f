//! What a load test set runs.

use vstd::prelude::*;

verus! {

/// A server implementation under load test
pub trait Server {
    fn name(&self) -> String;
}

} // verus!
