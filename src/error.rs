//! Errors of the coordinator.
use vstd::prelude::*;

verus! {

/// What a lookup failed to find.
#[derive(Clone, Copy, Debug, PartialEq, Eq, Structural)]
pub enum Missing {
    /// No bimap entry for the key.
    BimapEntry,
    /// No remote account address recorded for the token.
    IcaAddress,
    /// No channel state recorded for the token.
    ChannelState,
    /// No pending record in the token's transaction history.
    PendingTransaction,
}

/// The error returned by the coordinator's operations. An operation that
/// returns one has changed nothing.
#[derive(Debug, PartialEq, Eq)]
pub enum ContractError {
    /// A mapping or record is absent.
    NotFound(Missing),
    /// The caller or controller is not entitled to the action.
    Unauthorized,
    /// A provisioning callback arrived with no mint request waiting.
    QueueEmpty,
    /// An open callback arrived for a channel that is already open.
    ChannelAlreadyOpen,
    /// Querying the ledger for a token's owner failed; holds the ledger's error.
    Snip721QueryFailed(String),
    /// The token counter cannot be advanced further.
    CounterOverflow,
    /// A reply carried an id that no request was issued with.
    UnknownReplyId(u64),
    /// The host reported that a child-contract creation failed.
    SubMsgFailed(String),
    /// A creation receipt held no instantiation event.
    InstantiateEventNotFound,
    /// The instantiation event held no contract address attribute.
    ContractAddressNotFound,
}

} // verus!
