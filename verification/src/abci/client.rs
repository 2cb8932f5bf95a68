//! Settings of the blocking ABCI client, and its judgement of what a server
//! sends back.

use vstd::prelude::*;

verus! {

/// The size of the read buffer for the client in its receiving of responses
/// from the server.
pub const DEFAULT_CLIENT_READ_BUF_SIZE: usize = 1024;

/// Builder for a blocking ABCI client.
#[derive(Clone, Copy, Debug, PartialEq, Eq)]
pub struct ClientBuilder {
    read_buf_size: usize,
}

impl ClientBuilder {
    /// The size of the read buffer that the client will have.
    pub closed spec fn buf_size(self) -> usize {
        self.read_buf_size
    }

    /// Builder constructor.
    pub fn new(read_buf_size: usize) -> (builder: Self)
        ensures
            builder.buf_size() == read_buf_size,
    {
        Self { read_buf_size }
    }

    /// The size of the read buffer that the client will have.
    pub fn read_buf_size(&self) -> (size: usize)
        ensures
            size == self.buf_size(),
    {
        self.read_buf_size
    }
}

impl Default for ClientBuilder {
    fn default() -> (builder: Self)
        ensures
            builder.buf_size() == DEFAULT_CLIENT_READ_BUF_SIZE,
    {
        Self { read_buf_size: DEFAULT_CLIENT_READ_BUF_SIZE }
    }
}

/// The kinds of requests that a client makes, and of responses that a
/// server gives.
#[derive(Clone, Copy, Debug, PartialEq, Eq, Structural)]
pub enum Method {
    Echo,
    Info,
    InitChain,
    Query,
    CheckTx,
    BeginBlock,
    DeliverTx,
    EndBlock,
    Flush,
    Commit,
    SetOption,
    ListSnapshots,
    OfferSnapshot,
    LoadSnapshotChunk,
    ApplySnapshotChunk,
}

/// What comes back from the server after a request.
#[derive(Clone, Copy, Debug, PartialEq, Eq, Structural)]
pub enum Reply {
    /// The connection ended before a response came.
    Closed,
    /// A response came that holds no value.
    Empty,
    /// A response of the given kind came.
    Value(Method),
}

/// Why a request to the server failed.
#[derive(Clone, Copy, Debug, PartialEq, Eq, Structural)]
pub enum Error {
    /// The server ended the connection.
    ServerConnectionTerminated,
    /// The server sent a response without a value.
    MalformedServerResponse,
    /// The server answered with a response of another kind than the
    /// request.
    UnexpectedServerResponseType { expected: Method, got: Method },
}

/// A reply is accepted where it holds a value of the kind that was asked
/// for.
pub open spec fn acceptance(asked: Method, reply: Reply) -> Result<(), Error> {
    match reply {
        Reply::Closed => Err(Error::ServerConnectionTerminated),
        Reply::Empty => Err(Error::MalformedServerResponse),
        Reply::Value(got) => if got == asked {
            Ok(())
        } else {
            Err(Error::UnexpectedServerResponseType { expected: asked, got })
        },
    }
}

/// Judges what came back from the server after a request of the kind
/// `asked`.
pub fn accept(asked: Method, reply: Reply) -> (outcome: Result<(), Error>)
    ensures
        outcome == acceptance(asked, reply),
{
    match reply {
        Reply::Closed => Err(Error::ServerConnectionTerminated),
        Reply::Empty => Err(Error::MalformedServerResponse),
        Reply::Value(got) => if got == asked {
            Ok(())
        } else {
            Err(Error::UnexpectedServerResponseType { expected: asked, got })
        },
    }
}

} // verus!
