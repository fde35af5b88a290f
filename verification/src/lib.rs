//! A small line-oriented chat server library in the IRC style.
//!
//! Clients connect over a byte stream, perform a `USER`/`PING`/`PONG`
//! handshake, join named channels, and exchange text through shared,
//! append-only message boards.  This crate holds the verified core:
//! the wire framer, the message and command grammar, the shared
//! registry of channels, boards and users, and the per-connection
//! session state machine.  Transport I/O lives outside the library.

use vstd::prelude::*;

pub mod channel;
pub mod client;
pub mod command;
pub mod framer;
pub mod message;
pub mod registry;
pub mod session;
pub mod strutil;
pub mod user;

verus! {

/// Channel-administration verbs that a future dispatcher may route.
pub enum ChannelOp {
    KICK,
    MODE,
    INVITE,
    TOPIC,
}

/// Configuration for running a server: where to bind.
pub struct Args {
    /// The address and port to bind to.
    pub address: String,
}

/// Configuration for running a client: where to connect and who we are.
pub struct ClientArgs {
    /// The address and port to connect to.
    pub address: String,
    pub hostname: String,
    /// The username used to connect to the server.
    pub username: String,
    /// The real name, for example "Julian Lazaras".
    pub realname: String,
    /// Optional nickname to use when connecting.
    pub nick: Option<String>,
}

/// Why a session ended or a registry operation failed.  Transport errors
/// are reported by the caller that owns the stream; the library keeps
/// only their kind.
#[derive(Debug, Clone)]
pub enum IrcError {
    /// The server side of the stream failed or was closed.
    ServerDisconnect,
    /// The client side of the stream failed or was closed.
    ClientDisconnect,
    /// A line could not be parsed during the handshake.
    CommandParse(crate::command::CommandParseError),
    /// The first command of a connection was not USER.
    MissingUser,
    /// The client did not answer the PING challenge with PONG.
    DoSWarning,
    /// A message was posted to a channel whose board does not exist.
    UnknownChannel,
}

/// The mathematical shape of an [`IrcError`].
pub ghost enum IrcErrorModel {
    ServerDisconnect,
    ClientDisconnect,
    CommandParse(crate::command::ParseErrModel),
    MissingUser,
    DoSWarning,
    UnknownChannel,
}

impl View for IrcError {
    type V = IrcErrorModel;

    open spec fn view(&self) -> IrcErrorModel {
        match self {
            IrcError::ServerDisconnect => IrcErrorModel::ServerDisconnect,
            IrcError::ClientDisconnect => IrcErrorModel::ClientDisconnect,
            IrcError::CommandParse(e) => IrcErrorModel::CommandParse(e@),
            IrcError::MissingUser => IrcErrorModel::MissingUser,
            IrcError::DoSWarning => IrcErrorModel::DoSWarning,
            IrcError::UnknownChannel => IrcErrorModel::UnknownChannel,
        }
    }
}

} // verus!
