//! Pieces of the TCP side of the tunnel.

use vstd::prelude::*;

verus! {

/// A writer that reports every write under a tag before passing it on to
/// the writer it wraps.
pub struct LoggingWriter<W> {
    pub tag: String,
    pub inner: W,
}

impl<W> LoggingWriter<W> {
    pub fn new(tag: String, inner: W) -> (w: Self)
        ensures
            w.tag == tag,
            w.inner == inner,
    {
        LoggingWriter { tag, inner }
    }
}

} // verus!
