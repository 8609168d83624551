//! The records the coordinator keeps, and how a dispatched command is classified.
use vstd::prelude::*;

verus! {

/// Token ids are this prefix, a dash, and the decimal value of the counter.
pub const TOKEN_PREFIX: &'static str = "ica-token";

/// The port prefix under which wasm contracts bind their IBC ports.
pub const WASM_IBC_PORT_PREFIX: &'static str = "wasm.";

/// Reply id of the request that creates the ledger contract.
pub const CW721_INSTANTIATE_REPLY_ID: u64 = 1;

/// Reply id of a request that creates a controller contract.
pub const CW_ICA_CONTROLLER_INSTANTIATE_REPLY_ID: u64 = 2;

/// The page size used when a history query names none.
pub const DEFAULT_PAGE_SIZE: u32 = 30;

/// Key prefix under which a token's transaction history is stored.
pub const TX_HISTORY_PREFIX: &'static str = "tx_history_";

/// The storage key of the transaction history of `token_id`.
pub fn get_tx_history_prefix(token_id: &str) -> (r: String)
    ensures
        r@ == TX_HISTORY_PREFIX@ + token_id@,
{
    let mut r = String::from_str(TX_HISTORY_PREFIX);
    r.append(token_id);
    r
}

/// The decimal digit characters, indexed by value.
pub open spec fn digit_chars() -> Seq<char> {
    "0123456789"@
}

/// The decimal representation of `n`, most significant digit first.
pub open spec fn decimal(n: nat) -> Seq<char>
    decreases n,
{
    if n < 10 {
        seq![digit_chars()[n as int]]
    } else {
        decimal(n / 10).push(digit_chars()[(n % 10) as int])
    }
}

/// The token id minted for counter value `n`.
pub open spec fn token_id_for(n: nat) -> Seq<char> {
    TOKEN_PREFIX@ + "-"@ + decimal(n)
}

proof fn lemma_decimal_len(n: nat)
    ensures
        decimal(n).len() >= 1,
        n >= 10 ==> decimal(n).len() >= 2,
    decreases n,
{
    if n >= 10 {
        lemma_decimal_len(n / 10);
    }
}

proof fn lemma_decimal_injective(a: nat, b: nat)
    requires
        decimal(a) == decimal(b),
    ensures
        a == b,
    decreases a,
{
    lemma_decimal_len(a);
    lemma_decimal_len(b);
    reveal_strlit("0123456789");
    if a >= 10 && b >= 10 {
        assert(decimal(a).drop_last() =~= decimal(a / 10));
        assert(decimal(b).drop_last() =~= decimal(b / 10));
        lemma_decimal_injective(a / 10, b / 10);
        assert(decimal(a).last() == digit_chars()[(a % 10) as int]);
        assert(decimal(b).last() == digit_chars()[(b % 10) as int]);
    } else if a < 10 && b < 10 {
        assert(decimal(a)[0] == digit_chars()[a as int]);
        assert(decimal(b)[0] == digit_chars()[b as int]);
    }
}

/// Distinct counter values give distinct token ids.
pub proof fn lemma_token_id_injective(a: nat, b: nat)
    requires
        token_id_for(a) == token_id_for(b),
    ensures
        a == b,
{
    let k = (TOKEN_PREFIX@ + "-"@).len();
    assert(decimal(a) =~= token_id_for(a).subrange(k as int, token_id_for(a).len() as int));
    assert(decimal(b) =~= token_id_for(b).subrange(k as int, token_id_for(b).len() as int));
    lemma_decimal_injective(a, b);
}

/// Appends the decimal representation of `n` to `out`.
fn push_decimal(out: &mut String, n: u64)
    ensures
        final(out)@ == old(out)@ + decimal(n as nat),
    decreases n,
{
    if n >= 10 {
        push_decimal(out, n / 10);
    }
    let d = (n % 10) as usize;
    proof {
        reveal_strlit("0123456789");
    }
    let digit = "0123456789".substring_char(d, d + 1);
    out.append(digit);
    proof {
        assert(digit@ =~= seq![digit_chars()[d as int]]);
        if n >= 10 {
            assert(decimal(n as nat) == decimal((n / 10) as nat).push(
                digit_chars()[(n % 10) as int],
            ));
        }
    }
    assert(final(out)@ =~= old(out)@ + decimal(n as nat));
}

/// The token id minted for counter value `n`.
pub fn token_id(n: u64) -> (r: String)
    ensures
        r@ == token_id_for(n as nat),
{
    let mut r = String::from_str(TOKEN_PREFIX);
    r.append("-");
    push_decimal(&mut r, n);
    r
}

/// A mint request waiting for its controller to be provisioned.
#[derive(Debug, PartialEq, Eq)]
pub struct QueueItem {
    /// The token id that the request will be minted under.
    pub token_id: String,
    /// The account that asked for the token.
    pub owner: String,
}

impl QueueItem {
    /// The token id and owner as character sequences.
    pub open spec fn entry(&self) -> (Seq<char>, Seq<char>) {
        (self.token_id@, self.owner@)
    }

    /// A copy of the item.
    pub fn duplicate(&self) -> (r: Self)
        ensures
            r == *self,
    {
        QueueItem { token_id: self.token_id.clone(), owner: self.owner.clone() }
    }
}

/// The status of a token's channel to its remote account.
#[derive(Clone, Copy, Debug, PartialEq, Eq, Structural)]
pub enum ChannelStatus {
    /// The channel is open.
    Open,
    /// The channel is closed.
    Closed,
    /// The channel is being opened.
    Pending,
}

/// The channel state kept for each bound token.
#[derive(Debug, PartialEq, Eq)]
pub struct ChannelState {
    /// The channel status.
    pub status: ChannelStatus,
    /// The channel id; absent while the channel is pending.
    pub channel_id: Option<String>,
}

impl ChannelState {
    /// A copy of the state.
    pub fn duplicate(&self) -> (r: Self)
        ensures
            r == *self,
    {
        let channel_id = match &self.channel_id {
            Some(id) => Some(id.clone()),
            None => None,
        };
        ChannelState { status: self.status, channel_id }
    }
}

/// The outcome of a dispatched command.
#[derive(Clone, Copy, Debug, PartialEq, Eq, Structural)]
pub enum TransactionStatus {
    /// No acknowledgement or timeout has arrived yet.
    Pending,
    /// The remote chain executed the command.
    Completed,
    /// The remote chain rejected the command.
    Failed,
    /// The packet carrying the command timed out.
    Timeout,
}

/// The category of a dispatched command.
#[derive(Clone, Copy, Debug, PartialEq, Eq, Structural)]
pub enum TransactionMsgType {
    /// A batch with no message.
    Empty,
    /// A custom message.
    Custom,
    /// A bank transfer.
    Send,
    /// An IBC message.
    Ibc,
    /// A governance message.
    Vote,
    /// A wasm contract message.
    Wasm,
    /// A staking delegation.
    Delegate,
    /// A staking undelegation.
    Undelegate,
    /// A staking redelegation.
    Redelegate,
    /// A raw protobuf message.
    Stargate,
    /// A distribution message.
    Distribution,
    /// A batch of more than one message.
    MultiMsg,
    /// A message of no known category.
    Unknown,
    /// A request to open a new channel; it sends no packet, and the
    /// channel's open acknowledgement answers it.
    ChannelOpen,
    /// Another controller command; it sends no packet and gets no answer.
    Control,
}

/// The kind of one message in a batch sent to the remote account.
#[derive(Clone, Copy, Debug, PartialEq, Eq, Structural)]
pub enum CosmosMsgKind {
    /// A bank message.
    Bank,
    /// A chain-specific custom message.
    Custom,
    /// A staking delegation.
    Delegate,
    /// A staking undelegation.
    Undelegate,
    /// A staking redelegation.
    Redelegate,
    /// A raw protobuf message.
    Stargate,
    /// A distribution message.
    Distribution,
    /// A governance message.
    Gov,
    /// A wasm contract message.
    Wasm,
    /// An IBC message.
    Ibc,
    /// Any other message.
    Other,
}

/// The shape of a command sent to a controller, as far as the coordinator
/// reads it; the command itself is forwarded unchanged.
#[derive(Debug, PartialEq, Eq)]
pub enum IcaCommand {
    /// Asks the controller to open a new channel.
    CreateChannel,
    /// Sends a batch of messages to the remote account.
    SendCosmosMsgs {
        /// The kind of each message in the batch, in order.
        messages: Vec<CosmosMsgKind>,
    },
    /// Sends custom messages to the remote account.
    SendCustomIcaMessages,
    /// Any other controller command.
    Other,
}

/// The category of a single message.
pub open spec fn category_of(kind: CosmosMsgKind) -> TransactionMsgType {
    match kind {
        CosmosMsgKind::Custom => TransactionMsgType::Custom,
        CosmosMsgKind::Stargate => TransactionMsgType::Stargate,
        CosmosMsgKind::Bank => TransactionMsgType::Send,
        CosmosMsgKind::Delegate => TransactionMsgType::Delegate,
        CosmosMsgKind::Undelegate => TransactionMsgType::Undelegate,
        CosmosMsgKind::Redelegate => TransactionMsgType::Redelegate,
        CosmosMsgKind::Distribution => TransactionMsgType::Distribution,
        CosmosMsgKind::Gov => TransactionMsgType::Vote,
        CosmosMsgKind::Wasm => TransactionMsgType::Wasm,
        CosmosMsgKind::Ibc => TransactionMsgType::Ibc,
        CosmosMsgKind::Other => TransactionMsgType::Unknown,
    }
}

/// The category recorded for a command.
pub open spec fn command_category(cmd: IcaCommand) -> TransactionMsgType {
    match cmd {
        IcaCommand::SendCosmosMsgs { messages } => if messages@.len() == 0 {
            TransactionMsgType::Empty
        } else if messages@.len() == 1 {
            category_of(messages@[0])
        } else {
            TransactionMsgType::MultiMsg
        },
        IcaCommand::SendCustomIcaMessages => TransactionMsgType::Custom,
        IcaCommand::CreateChannel => TransactionMsgType::ChannelOpen,
        IcaCommand::Other => TransactionMsgType::Control,
    }
}

/// Commands of this category travel in a packet, which an acknowledgement or
/// a timeout answers.
pub open spec fn sends_packet(t: TransactionMsgType) -> bool {
    t != TransactionMsgType::ChannelOpen && t != TransactionMsgType::Control
}

impl TransactionMsgType {
    /// The category of a single message.
    pub fn from_cosmos_msg(msg: &CosmosMsgKind) -> (r: Self)
        ensures
            r == category_of(*msg),
    {
        match msg {
            CosmosMsgKind::Custom => TransactionMsgType::Custom,
            CosmosMsgKind::Stargate => TransactionMsgType::Stargate,
            CosmosMsgKind::Bank => TransactionMsgType::Send,
            CosmosMsgKind::Delegate => TransactionMsgType::Delegate,
            CosmosMsgKind::Undelegate => TransactionMsgType::Undelegate,
            CosmosMsgKind::Redelegate => TransactionMsgType::Redelegate,
            CosmosMsgKind::Distribution => TransactionMsgType::Distribution,
            CosmosMsgKind::Gov => TransactionMsgType::Vote,
            CosmosMsgKind::Wasm => TransactionMsgType::Wasm,
            CosmosMsgKind::Ibc => TransactionMsgType::Ibc,
            CosmosMsgKind::Other => TransactionMsgType::Unknown,
        }
    }
}

/// One dispatched command and its outcome.
#[derive(Debug, PartialEq, Eq)]
pub struct TransactionRecord {
    /// The outcome so far.
    pub status: TransactionStatus,
    /// The token the command was sent for.
    pub token_id: String,
    /// The token's owner when the command was sent.
    pub owner: String,
    /// The category of the command.
    pub msg_type: TransactionMsgType,
    /// The block height at dispatch.
    pub block_height: u64,
    /// The block time at dispatch, in nanoseconds.
    pub timestamp: u64,
}

impl TransactionRecord {
    /// The pending record of a command.
    pub fn from_ica_msg(
        msg: &IcaCommand,
        token_id: &str,
        owner: &str,
        block_height: u64,
        timestamp: u64,
    ) -> (r: Self)
        ensures
            r.status == TransactionStatus::Pending,
            r.token_id@ == token_id@,
            r.owner@ == owner@,
            r.msg_type == command_category(*msg),
            r.block_height == block_height,
            r.timestamp == timestamp,
    {
        let msg_type = match msg {
            IcaCommand::SendCosmosMsgs { messages } => {
                if messages.len() == 0 {
                    TransactionMsgType::Empty
                } else if messages.len() == 1 {
                    TransactionMsgType::from_cosmos_msg(&messages[0])
                } else {
                    TransactionMsgType::MultiMsg
                }
            },
            IcaCommand::SendCustomIcaMessages => TransactionMsgType::Custom,
            IcaCommand::CreateChannel => TransactionMsgType::ChannelOpen,
            IcaCommand::Other => TransactionMsgType::Control,
        };
        TransactionRecord {
            status: TransactionStatus::Pending,
            token_id: String::from_str(token_id),
            owner: String::from_str(owner),
            msg_type,
            block_height,
            timestamp,
        }
    }

    /// A copy of the record.
    pub fn duplicate(&self) -> (r: Self)
        ensures
            r == *self,
    {
        TransactionRecord {
            status: self.status,
            token_id: self.token_id.clone(),
            owner: self.owner.clone(),
            msg_type: self.msg_type,
            block_height: self.block_height,
            timestamp: self.timestamp,
        }
    }
}

/// A page of a token's transaction history.
#[derive(Debug, PartialEq, Eq)]
pub struct GetTransactionHistoryResponse {
    /// The records of the page, newest first.
    pub records: Vec<TransactionRecord>,
    /// The number of records in the whole history.
    pub total: u64,
}

/// A token id and the remote account address bound to it.
#[derive(Debug, PartialEq, Eq)]
pub struct NftIcaPair {
    /// The token id.
    pub nft_id: String,
    /// The remote account address.
    pub ica_address: String,
}

/// The remote account addresses of several tokens.
#[derive(Debug, PartialEq, Eq)]
pub struct GetIcaAddressesResponse {
    /// One pair per requested token, in request order.
    pub pairs: Vec<NftIcaPair>,
}

} // verus!
