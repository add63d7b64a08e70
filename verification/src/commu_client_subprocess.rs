//! The agent-side endpoint that runs the helper process itself.

use vstd::prelude::*;

verus! {

/// Starts the helper process and exchanges framed chunks with it over its
/// standard streams (see `codec::encode_frame` and `codec::decode_line`).
pub struct CommuClientSideSubprocess {}

impl CommuClientSideSubprocess {
    pub fn new() -> (s: Self)
        ensures
            s == (CommuClientSideSubprocess {}),
    {
        CommuClientSideSubprocess {}
    }
}

} // verus!
