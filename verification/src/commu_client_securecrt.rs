//! The agent-side endpoint that a terminal script polls over HTTP.
//!
//! Each request both uploads and downloads: a request path other than `/`
//! carries one chunk for the tunnel as base64 after the leading `/`, and the
//! response body carries the next chunk waiting for the script, if any.

use crate::codec::base64_standard_decoding;
use crate::codec::standard_decode;
use vstd::prelude::*;

verus! {

/// Serves the polling HTTP endpoint for a terminal script.
pub struct CommuClientSideSecureCrt {}

/// A request path that does not carry valid standard base64 after its
/// leading byte.
#[derive(Debug, PartialEq, Eq, Structural)]
pub enum UploadError {
    InvalidBase64,
}

/// Whether `path` is the bare root path `/`.
pub open spec fn is_root_path(path: Seq<u8>) -> bool {
    path == seq![47u8]
}

impl CommuClientSideSecureCrt {
    pub fn new() -> (s: Self)
        ensures
            s == (CommuClientSideSecureCrt {}),
    {
        CommuClientSideSecureCrt {}
    }

    /// The chunk a request uploads: none for `/`; otherwise the decoding of
    /// the path after its first byte. A path is never empty in a request.
    pub fn parse_upload(path: &[u8]) -> (r: Result<Option<Vec<u8>>, UploadError>)
        requires
            path@.len() >= 1,
        ensures
            is_root_path(path@) ==> r matches Ok(None),
            !is_root_path(path@) ==> match base64_standard_decoding(path@.drop_first()) {
                Some(chunk) => r matches Ok(Some(v)) && v@ == chunk,
                None => r == Err::<Option<Vec<u8>>, UploadError>(UploadError::InvalidBase64),
            },
    {
        let len = path.len();
        if len == 1 && path[0] == 47u8 {
            assert(path@ =~= seq![47u8]);
            return Ok(None);
        }
        let encoded = &path[1..len];
        assert(encoded@ =~= path@.drop_first());
        match standard_decode(encoded) {
            Ok(v) => Ok(Some(v)),
            Err(_) => Err(UploadError::InvalidBase64),
        }
    }

    /// The response body: the chunk that was waiting, or nothing.
    pub fn response_body(waiting: Option<Vec<u8>>) -> (body: Vec<u8>)
        ensures
            match waiting {
                Some(chunk) => body@ == chunk@,
                None => body@ == Seq::<u8>::empty(),
            },
    {
        match waiting {
            Some(chunk) => chunk,
            None => Vec::new(),
        }
    }
}

} // verus!
