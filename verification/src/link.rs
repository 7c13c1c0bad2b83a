//! What the CAN link made of a frame.

use crate::errors::IsoTpError;
use vstd::prelude::*;

verus! {

/// How an attempt to transmit a frame ended.
#[derive(Debug, Clone, Copy, PartialEq, Eq)]
pub enum LinkReply<E> {
    /// The link took the frame.
    Sent,
    /// The link's frame type cannot hold the frame.
    Unframeable,
    /// The link failed.
    Failed(E),
}

impl<E> LinkReply<E> {
    /// The attempt as a result.
    pub open spec fn result(self) -> Result<(), IsoTpError<E>> {
        match self {
            LinkReply::Sent => Ok(()),
            LinkReply::Unframeable => Err(IsoTpError::InvalidFrame),
            LinkReply::Failed(error) => Err(IsoTpError::LinkError(error)),
        }
    }

    /// The attempt as a result: a frame that cannot be built is invalid, a failure of the link is
    /// passed on.
    pub fn into_result(self) -> (r: Result<(), IsoTpError<E>>)
        ensures
            r == self.result(),
    {
        match self {
            LinkReply::Sent => Ok(()),
            LinkReply::Unframeable => Err(IsoTpError::InvalidFrame),
            LinkReply::Failed(error) => Err(IsoTpError::LinkError(error)),
        }
    }
}

} // verus!
