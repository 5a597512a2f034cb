//! Client library for the Xenstore protocol: the wire codec, the response
//! handling of the client operations, and the request multiplexer that lets
//! many callers and watch subscriptions share one connection.
use vstd::prelude::*;

pub mod client;
pub mod error;
pub mod multiplexer;
pub mod token;
pub mod wire;

pub use error::{XsError, XsErrorKind};
pub use token::XsWatchToken;

pub use wire::{UnknownMessageType, XsMessage, XsMessageType, XENSTORE_PAYLOAD_MAX};

verus! {

/// The operations of a Xenstore client. Every implementation offers them.
pub trait Xs {
    /// Lists the children of a node.
    fn directory(&self, path: &str) -> Result<Vec<String>, XsError>;

    /// Reads the value of a node.
    fn read(&self, path: &str) -> Result<String, XsError>;

    /// Writes the value of a node.
    fn write(&self, path: &str, data: &str) -> Result<(), XsError>;

    /// Removes a node.
    fn rm(&self, path: &str) -> Result<(), XsError>;
}

/// A client that can open transactions. The operations made through a span
/// take effect only once it is committed; a span dropped without commit is
/// aborted.
pub trait XsTransaction: Xs {
    type Span: Xs;

    /// Opens a transaction.
    fn transaction(&self) -> Result<Self::Span, XsError>;
}

/// The operations of an open transaction; see `XsTransaction`.
pub trait XsTransactionSpan: Xs {
    /// Commits the transaction.
    fn commit(self) -> Result<(), XsError> where Self: Sized;
}

} // verus!
