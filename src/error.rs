use vstd::prelude::*;

verus! {

/// Errors surfaced to callers.
#[derive(Clone, Copy, Debug, PartialEq, Eq, Structural)]
pub enum Error {
    NoNode,
    NodeExists,
    NotEmpty,
    BadVersion,
    NoAuth,
    AuthFailed,
    InvalidAcl,
    NoChildrenForEphemerals,
    SessionExpired,
    SessionMoved,
    NotReadOnly,
    ReconfigInProgress,
    Unimplemented,
    RuntimeInconsistency,
    ConnectionLoss,
    ClientInternalError,
    ProtocolError,
    BadArguments,
    SessionClosed,
    /// The server answered with an error code this client does not know.
    Unexpected { code: i32 },
}

/// The error that a non-zero server reply code stands for.
pub open spec fn code_error(code: i32) -> Error {
    if code == -2 {
        Error::RuntimeInconsistency
    } else if code == -4 {
        Error::ConnectionLoss
    } else if code == -6 {
        Error::Unimplemented
    } else if code == -8 {
        Error::BadArguments
    } else if code == -14 {
        Error::ReconfigInProgress
    } else if code == -101 {
        Error::NoNode
    } else if code == -102 {
        Error::NoAuth
    } else if code == -103 {
        Error::BadVersion
    } else if code == -108 {
        Error::NoChildrenForEphemerals
    } else if code == -110 {
        Error::NodeExists
    } else if code == -111 {
        Error::NotEmpty
    } else if code == -112 {
        Error::SessionExpired
    } else if code == -114 {
        Error::InvalidAcl
    } else if code == -115 {
        Error::AuthFailed
    } else if code == -118 {
        Error::SessionMoved
    } else if code == -119 {
        Error::NotReadOnly
    } else {
        Error::Unexpected { code }
    }
}

impl Error {
    /// Interprets a reply code: zero is success, anything else an error.
    pub fn from_code(code: i32) -> (r: Result<(), Error>)
        ensures
            code == 0 ==> r is Ok,
            code != 0 ==> r == Err::<(), Error>(code_error(code)),
    {
        if code == 0 {
            Ok(())
        } else if code == -2 {
            Err(Error::RuntimeInconsistency)
        } else if code == -4 {
            Err(Error::ConnectionLoss)
        } else if code == -6 {
            Err(Error::Unimplemented)
        } else if code == -8 {
            Err(Error::BadArguments)
        } else if code == -14 {
            Err(Error::ReconfigInProgress)
        } else if code == -101 {
            Err(Error::NoNode)
        } else if code == -102 {
            Err(Error::NoAuth)
        } else if code == -103 {
            Err(Error::BadVersion)
        } else if code == -108 {
            Err(Error::NoChildrenForEphemerals)
        } else if code == -110 {
            Err(Error::NodeExists)
        } else if code == -111 {
            Err(Error::NotEmpty)
        } else if code == -112 {
            Err(Error::SessionExpired)
        } else if code == -114 {
            Err(Error::InvalidAcl)
        } else if code == -115 {
            Err(Error::AuthFailed)
        } else if code == -118 {
            Err(Error::SessionMoved)
        } else if code == -119 {
            Err(Error::NotReadOnly)
        } else {
            Err(Error::Unexpected { code })
        }
    }
}

/// Failure of a multi-operation write transaction.
#[derive(Clone, Copy, Debug, PartialEq, Eq, Structural)]
pub enum MultiWriteError {
    /// The transaction as a whole could not be carried out.
    RequestFailed { source: Error },
    /// The sub-operation at `index` failed, and with it the transaction.
    OperationFailed { index: usize, source: Error },
}

/// Attributes the outcome of a multi-operation write to its sub-operations:
/// the transaction failed at the first sub-operation whose code is not zero.
pub fn multi_write_outcome(codes: &Vec<i32>) -> (r: Result<(), MultiWriteError>)
    ensures
        r is Ok <==> (forall|i: int| 0 <= i < codes@.len() ==> codes@[i] == 0),
        r matches Err(e) ==> (e matches MultiWriteError::OperationFailed { index, source } && {
            &&& index < codes@.len()
            &&& codes@[index as int] != 0
            &&& forall|j: int| 0 <= j < index ==> codes@[j] == 0
            &&& source == code_error(codes@[index as int])
        }),
{
    let mut i: usize = 0;
    while i < codes.len()
        invariant
            i <= codes@.len(),
            forall|j: int| 0 <= j < i ==> codes@[j] == 0,
        decreases codes@.len() - i,
    {
        let code = codes[i];
        if code != 0 {
            match Error::from_code(code) {
                Err(source) => {
                    return Err(MultiWriteError::OperationFailed { index: i, source });
                },
                Ok(()) => {},
            }
        }
        i = i + 1;
    }
    Ok(())
}

} // verus!
