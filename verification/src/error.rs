//! The errors of the library.

use vstd::prelude::*;

verus! {

/// What went wrong, by the part of the system that reports it, with a text for the log.
#[derive(Clone, Debug, PartialEq, Eq)]
pub enum Error {
    /// A request that cannot be handled, or a handler that gave up.
    ABCI(String),
    /// An error of the application.
    App(String),
    /// A call that was refused.
    Call(String),
    /// A failure on the client's side.
    Client(String),
    /// An operation on balances that cannot be done.
    Coins(String),
    /// A transaction out of sequence.
    Nonce(String),
    /// A query that was refused.
    Query(String),
    /// A missing or invalid signature or public key.
    Signer(String),
    /// A failure of the backing store.
    Store(String),
    /// A failure reported by the consensus engine's RPC.
    Tendermint(String),
}

impl Error {
    /// The text that the error carries.
    pub open spec fn detail(self) -> Seq<char> {
        match self {
            Error::ABCI(m) => m@,
            Error::App(m) => m@,
            Error::Call(m) => m@,
            Error::Client(m) => m@,
            Error::Coins(m) => m@,
            Error::Nonce(m) => m@,
            Error::Query(m) => m@,
            Error::Signer(m) => m@,
            Error::Store(m) => m@,
            Error::Tendermint(m) => m@,
        }
    }

    /// The words that name the error's kind in its text.
    pub open spec fn label(self) -> Seq<char> {
        match self {
            Error::ABCI(_) => "ABCI Error: "@,
            Error::App(_) => "App Error: "@,
            Error::Call(_) => "Call Error: "@,
            Error::Client(_) => "Client Error: "@,
            Error::Coins(_) => "Coins Error: "@,
            Error::Nonce(_) => "Nonce Error: "@,
            Error::Query(_) => "Query Error: "@,
            Error::Signer(_) => "Signer Error: "@,
            Error::Store(_) => "Store Error: "@,
            Error::Tendermint(_) => "Tendermint Error: "@,
        }
    }

    /// The error as one line of text: its kind, then what it carries.
    pub open spec fn text(self) -> Seq<char> {
        self.label() + self.detail()
    }

    /// The error as one line of text.
    pub fn to_string(&self) -> (s: String)
        ensures
            s@ == self.text(),
    {
        match self {
            Error::ABCI(m) => String::from_str("ABCI Error: ").concat(m.as_str()),
            Error::App(m) => String::from_str("App Error: ").concat(m.as_str()),
            Error::Call(m) => String::from_str("Call Error: ").concat(m.as_str()),
            Error::Client(m) => String::from_str("Client Error: ").concat(m.as_str()),
            Error::Coins(m) => String::from_str("Coins Error: ").concat(m.as_str()),
            Error::Nonce(m) => String::from_str("Nonce Error: ").concat(m.as_str()),
            Error::Query(m) => String::from_str("Query Error: ").concat(m.as_str()),
            Error::Signer(m) => String::from_str("Signer Error: ").concat(m.as_str()),
            Error::Store(m) => String::from_str("Store Error: ").concat(m.as_str()),
            Error::Tendermint(m) => String::from_str("Tendermint Error: ").concat(m.as_str()),
        }
    }
}

} // verus!
