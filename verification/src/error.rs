use vstd::prelude::*;

verus! {

/// The error taxonomy of the client.
///
/// A `Transport` error covers connection-level failures (no status) and
/// non-success HTTP statuses (the status is carried). A `Deserialization`
/// error means a response body did not have the expected shape. The two
/// `OnceCell` variants belong to the process-wide singleton mode: the first
/// is returned by a second initialization attempt, the second by any
/// singleton-mode call made before initialization. `InvalidApiKey` is the
/// construction error for a credential that cannot be carried in an HTTP
/// header value.
#[derive(Debug)]
pub enum Error {
    Transport { status: Option<u16>, message: String },
    Deserialization { message: String },
    OnceCellWasAlreadySet,
    OnceCellWasNotSet,
    InvalidApiKey,
}

impl Error {
    /// True exactly on the variants a caller may treat as transient.
    pub fn is_transport(&self) -> (r: bool)
        ensures
            r == (self is Transport),
    {
        match self {
            Error::Transport { .. } => true,
            _ => false,
        }
    }
}

} // verus!
