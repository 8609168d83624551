//! Values exchanged with the host: configuration, inbound callbacks and the
//! requests the coordinator issues.
use vstd::prelude::*;

verus! {

/// The order of a channel.
#[derive(Clone, Copy, Debug, PartialEq, Eq, Structural)]
pub enum ChannelOrder {
    /// Packets are delivered in order.
    Ordered,
    /// Packets may be delivered in any order.
    Unordered,
}

/// The options a controller opens its channel with.
#[derive(Debug, PartialEq, Eq)]
pub struct ChannelOpenInitOptions {
    /// The connection id on this chain.
    pub connection_id: String,
    /// The connection id on the counterparty chain.
    pub counterparty_connection_id: String,
    /// The counterparty port id, if not the default one.
    pub counterparty_port_id: Option<String>,
    /// The channel order, if not the default one.
    pub channel_ordering: Option<ChannelOrder>,
}

impl ChannelOpenInitOptions {
    /// A copy of the options.
    pub fn duplicate(&self) -> (r: Self)
        ensures
            r == *self,
    {
        let counterparty_port_id = match &self.counterparty_port_id {
            Some(p) => Some(p.clone()),
            None => None,
        };
        ChannelOpenInitOptions {
            connection_id: self.connection_id.clone(),
            counterparty_connection_id: self.counterparty_connection_id.clone(),
            counterparty_port_id,
            channel_ordering: self.channel_ordering,
        }
    }
}

/// A stored contract code: its id and hash.
#[derive(Debug, PartialEq, Eq)]
pub struct CodeInfo {
    /// The code id.
    pub code_id: u64,
    /// The code hash.
    pub code_hash: String,
}

/// A callback delivered by a controller contract.
#[derive(Debug, PartialEq, Eq)]
pub enum IcaCallback {
    /// The controller's channel opened; its remote account is `ica_address`.
    ChannelOpenAck {
        /// The id of the opened channel.
        channel_id: String,
        /// The address of the remote account.
        ica_address: String,
    },
    /// A command packet was acknowledged.
    Acknowledgement {
        /// The source port of the packet this callback answers.
        src_port_id: String,
        /// Whether the remote chain reported success.
        success: bool,
    },
    /// A command packet timed out.
    Timeout {
        /// The source port of the packet this callback answers.
        src_port_id: String,
    },
}

/// Which request a reply answers.
#[derive(Clone, Copy, Debug, PartialEq, Eq, Structural)]
pub enum ReplyKind {
    /// The creation of the ledger contract.
    Ledger,
    /// The creation of a controller contract.
    Controller,
}

/// A request the coordinator hands to the host.
#[derive(Debug, PartialEq, Eq)]
pub enum Outbound {
    /// Create the ledger contract; the reply carries `reply_id`.
    InstantiateLedger {
        /// The ledger's code id.
        code_id: u64,
        /// The ledger's code hash.
        code_hash: String,
        /// The id of the reply that reports the new address.
        reply_id: u64,
    },
    /// Create a controller contract; the reply carries `reply_id`.
    InstantiateController {
        /// The controller's code id.
        code_id: u64,
        /// The controller's code hash.
        code_hash: String,
        /// The options the controller opens its channel with.
        channel_open_init_options: ChannelOpenInitOptions,
        /// The id of the reply that reports the new address.
        reply_id: u64,
    },
    /// Mint `token_id` to `owner` on the ledger, noting its controller and
    /// remote account.
    MintToken {
        /// The ledger's address.
        ledger_address: String,
        /// The ledger's code hash.
        ledger_code_hash: String,
        /// The token to mint.
        token_id: String,
        /// The account that receives it.
        owner: String,
        /// The controller bound to the token.
        controller_address: String,
        /// The remote account the token controls.
        ica_address: String,
    },
    /// Forward the caller's command, unchanged, to a controller.
    ForwardCommand {
        /// The controller's address.
        controller_address: String,
        /// The controller's code hash.
        code_hash: String,
    },
}

} // verus!
