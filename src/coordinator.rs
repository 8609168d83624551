//! The coordinator's state and the operations that move it.
//!
//! Every operation checks all of its conditions before it writes anything, so
//! an operation that fails leaves the state exactly as it was.
//!
//! Reads follow one policy: looking up a mapping that is absent (a bimap key,
//! a token's remote account, a token's channel) fails with `NotFound`, while
//! a token's history, being a log, is simply empty until something is logged.
use std::collections::VecDeque;

use vstd::prelude::*;

use crate::bimap::{bind, NftIcaBiMap};
use crate::error::{ContractError, Missing};
use crate::msg::{ChannelOpenInitOptions, CodeInfo, IcaCallback, Outbound, ReplyKind};
use crate::state::{
    command_category, sends_packet, token_id, token_id_for, ChannelState, ChannelStatus,
    GetIcaAddressesResponse, GetTransactionHistoryResponse, IcaCommand, NftIcaPair, QueueItem,
    TransactionMsgType, TransactionRecord, DEFAULT_PAGE_SIZE,
    TransactionStatus, CW721_INSTANTIATE_REPLY_ID, CW_ICA_CONTROLLER_INSTANTIATE_REPLY_ID,
    WASM_IBC_PORT_PREFIX,
};
use crate::text::same_text;
use crate::store::StrMap;

verus! {

/// The coordinator's configuration.
#[derive(Debug, PartialEq, Eq)]
pub struct ContractState {
    /// The options new controllers open their channels with.
    pub default_chan_init_options: ChannelOpenInitOptions,
    /// The controller contract's code.
    pub ica_controller_code: CodeInfo,
    /// The ledger's address; empty until the ledger's creation is reported.
    pub snip721_address: String,
    /// The ledger's code hash.
    pub snip721_code_hash: String,
}

impl ContractState {
    /// A copy of the configuration.
    pub fn duplicate(&self) -> (r: Self)
        ensures
            r == *self,
    {
        ContractState {
            default_chan_init_options: self.default_chan_init_options.duplicate(),
            ica_controller_code: CodeInfo {
                code_id: self.ica_controller_code.code_id,
                code_hash: self.ica_controller_code.code_hash.clone(),
            },
            snip721_address: self.snip721_address.clone(),
            snip721_code_hash: self.snip721_code_hash.clone(),
        }
    }
}

/// Everything the coordinator keeps between invocations.
pub struct Coordinator {
    /// The account allowed to change the owner.
    pub owner: String,
    /// The configuration.
    pub config: ContractState,
    /// The number of mint requests made so far.
    pub token_counter: u64,
    /// Mint requests waiting for a controller; the newest is at the front.
    pub mint_queue: VecDeque<QueueItem>,
    /// Controllers and tokens bound to each other.
    pub bimap: NftIcaBiMap,
    /// The remote account address of each bound token.
    pub ica_addresses: StrMap<String>,
    /// Controllers allowed to deliver callbacks.
    pub registered: StrMap<()>,
    /// The channel state of each token.
    pub channels: StrMap<ChannelState>,
    /// The transaction history of each token, newest first.
    pub histories: StrMap<Vec<TransactionRecord>>,
}

/// The token ids and owners of a queue, front first.
pub open spec fn queue_entries(q: Seq<QueueItem>) -> Seq<(Seq<char>, Seq<char>)> {
    q.map_values(|i: QueueItem| i.entry())
}

/// The text of an optional string.
pub open spec fn opt_text(o: Option<String>) -> Option<Seq<char>> {
    match o {
        Some(s) => Some(s@),
        None => None,
    }
}

/// `new` is `old` with `k` bound to a string whose text is `v`.
pub open spec fn text_set(
    old: Map<Seq<char>, String>,
    new: Map<Seq<char>, String>,
    k: Seq<char>,
    v: Seq<char>,
) -> bool {
    &&& new.contains_key(k)
    &&& new[k]@ == v
    &&& new.remove(k) == old.remove(k)
}

/// `new` is `old` with the channel of `token` set to `status` and `id`.
pub open spec fn channel_set(
    old: Map<Seq<char>, ChannelState>,
    new: Map<Seq<char>, ChannelState>,
    token: Seq<char>,
    status: ChannelStatus,
    id: Option<Seq<char>>,
) -> bool {
    &&& new.contains_key(token)
    &&& new[token].status == status
    &&& opt_text(new[token].channel_id) == id
    &&& new.remove(token) == old.remove(token)
}

/// `r` is the error `e`.
pub open spec fn failed<T>(r: Result<T, ContractError>, e: ContractError) -> bool {
    r == Err::<T, ContractError>(e)
}

/// The history of `token`; a token with no history has an empty one.
pub open spec fn history_of(m: Map<Seq<char>, Vec<TransactionRecord>>, token: Seq<char>) -> Seq<
    TransactionRecord,
> {
    if m.contains_key(token) {
        m[token]@
    } else {
        Seq::empty()
    }
}

/// `r` is pending and waits for a packet callback when `packet` holds, for a
/// channel open acknowledgement otherwise.
pub open spec fn awaits(r: TransactionRecord, packet: bool) -> bool {
    &&& r.status == TransactionStatus::Pending
    &&& if packet {
        sends_packet(r.msg_type)
    } else {
        r.msg_type == TransactionMsgType::ChannelOpen
    }
}

/// Some record of `h` waits for the kind of answer `packet` names.
pub open spec fn has_pending(h: Seq<TransactionRecord>, packet: bool) -> bool {
    exists|i: int| 0 <= i < h.len() && #[trigger] awaits(h[i], packet)
}

/// `h[i]` is the newest record of `h` that waits for the kind of answer
/// `packet` names.
pub open spec fn is_first_pending(h: Seq<TransactionRecord>, i: int, packet: bool) -> bool {
    &&& 0 <= i < h.len()
    &&& awaits(h[i], packet)
    &&& forall|j: int| 0 <= j < i ==> !#[trigger] awaits(h[j], packet)
}

/// `new` is `old` with the newest record of `token` that waits for the kind
/// of answer `packet` names resolved to `status`; with no such record,
/// `new` is `old`.
pub open spec fn history_resolved(
    old: Map<Seq<char>, Vec<TransactionRecord>>,
    new: Map<Seq<char>, Vec<TransactionRecord>>,
    token: Seq<char>,
    packet: bool,
    status: TransactionStatus,
) -> bool {
    let h = history_of(old, token);
    if has_pending(h, packet) {
        &&& exists|i: int|
            is_first_pending(h, i, packet) && new.contains_key(token)
                && #[trigger] new[token]@ == resolve_at(h, i, status)
        &&& new.remove(token) == old.remove(token)
    } else {
        new == old
    }
}

/// `h` after `h[i]` takes `status` and moves to the front.
pub open spec fn resolve_at(h: Seq<TransactionRecord>, i: int, status: TransactionStatus) -> Seq<
    TransactionRecord,
> {
    seq![TransactionRecord { status, ..h[i] }] + h.remove(i)
}

/// The controller address named by an IBC port, which wasm contracts bind
/// under a fixed prefix.
pub open spec fn controller_of_port(port: Seq<char>) -> Option<Seq<char>> {
    if WASM_IBC_PORT_PREFIX@.is_prefix_of(port) {
        Some(port.subrange(WASM_IBC_PORT_PREFIX@.len() as int, port.len() as int))
    } else {
        None
    }
}

/// The effect of a mint request from `sender`.
///
/// The request is queued at the front under the token id of the current
/// counter, the counter advances, and a controller is asked for. The counter
/// never wraps: at its largest value the request fails.
pub open spec fn mint_effect(
    s: Coordinator,
    t: Coordinator,
    sender: Seq<char>,
    r: Result<Outbound, ContractError>,
) -> bool {
    if s.token_counter == u64::MAX {
        failed(r, ContractError::CounterOverflow) && t == s
    } else {
        &&& r == Ok::<Outbound, ContractError>(
            Outbound::InstantiateController {
                code_id: s.config.ica_controller_code.code_id,
                code_hash: s.config.ica_controller_code.code_hash,
                channel_open_init_options: s.config.default_chan_init_options,
                reply_id: CW_ICA_CONTROLLER_INSTANTIATE_REPLY_ID,
            },
        )
        &&& t.token_counter == s.token_counter + 1
        &&& queue_entries(t.mint_queue@) == seq![(token_id_for(s.token_counter as nat), sender)]
            + queue_entries(s.mint_queue@)
        &&& t.owner == s.owner
        &&& t.config == s.config
        &&& t.bimap == s.bimap
        &&& t.ica_addresses == s.ica_addresses
        &&& t.registered == s.registered
        &&& t.channels == s.channels
        &&& t.histories == s.histories
    }
}

/// The effect of an open acknowledgement from controller `c`.
///
/// A bound controller reopens its token's channel, which completes the
/// newest channel request of the token, if any. An unbound one takes the
/// oldest mint request, is bound to its token, and the token is minted.
pub open spec fn open_ack_effect(
    s: Coordinator,
    t: Coordinator,
    c: Seq<char>,
    channel_id: Seq<char>,
    ica: Seq<char>,
    r: Result<Option<Outbound>, ContractError>,
) -> bool {
    if s.bimap@.contains_key(c) {
        let token = s.bimap@[c];
        if !s.channels@.contains_key(token) {
            failed(r, ContractError::NotFound(Missing::ChannelState)) && t == s
        } else if s.channels@[token].status == ChannelStatus::Open {
            failed(r, ContractError::ChannelAlreadyOpen) && t == s
        } else {
            &&& r == Ok::<Option<Outbound>, ContractError>(None)
            &&& channel_set(s.channels@, t.channels@, token, ChannelStatus::Open, Some(channel_id))
            &&& history_resolved(
                s.histories@,
                t.histories@,
                token,
                false,
                TransactionStatus::Completed,
            )
            &&& t == Coordinator { channels: t.channels, histories: t.histories, ..s }
        }
    } else if s.mint_queue@.len() == 0 {
        failed(r, ContractError::QueueEmpty) && t == s
    } else {
        let item = s.mint_queue@.last();
        &&& r matches Ok(Some(Outbound::MintToken {
            ledger_address,
            ledger_code_hash,
            token_id,
            owner,
            controller_address,
            ica_address,
        })) && ledger_address == s.config.snip721_address && ledger_code_hash
            == s.config.snip721_code_hash && token_id == item.token_id && owner == item.owner
            && controller_address@ == c && ica_address@ == ica
        &&& t.mint_queue@ == s.mint_queue@.drop_last()
        &&& t.bimap@ == bind(s.bimap@, c, item.token_id@)
        &&& text_set(s.ica_addresses@, t.ica_addresses@, item.token_id@, ica)
        &&& channel_set(s.channels@, t.channels@, item.token_id@, ChannelStatus::Open, Some(channel_id))
        &&& t.owner == s.owner
        &&& t.config == s.config
        &&& t.token_counter == s.token_counter
        &&& t.registered == s.registered
        &&& t.histories == s.histories
    }
}

/// The effect of an acknowledgement or timeout for a packet sent from `port`.
///
/// The newest pending record of the controller's token whose command
/// travelled in a packet takes `status` and moves to the front of the
/// history; when `closes` holds the token's channel is closed too. A port
/// outside the wasm prefix names no controller, and the callback fails.
pub open spec fn resolve_effect(
    s: Coordinator,
    t: Coordinator,
    port: Seq<char>,
    status: TransactionStatus,
    closes: bool,
    r: Result<Option<Outbound>, ContractError>,
) -> bool {
    match controller_of_port(port) {
        None => failed(r, ContractError::NotFound(Missing::BimapEntry)) && t == s,
        Some(c) => if !s.bimap@.contains_key(c) {
            failed(r, ContractError::NotFound(Missing::BimapEntry)) && t == s
        } else {
            let token = s.bimap@[c];
            let h = history_of(s.histories@, token);
            if !has_pending(h, true) {
                failed(r, ContractError::NotFound(Missing::PendingTransaction)) && t == s
            } else if closes && !s.channels@.contains_key(token) {
                failed(r, ContractError::NotFound(Missing::ChannelState)) && t == s
            } else {
                &&& r == Ok::<Option<Outbound>, ContractError>(None)
                &&& history_resolved(s.histories@, t.histories@, token, true, status)
                &&& if closes {
                    t.channels@ == s.channels@.insert(
                        token,
                        ChannelState { status: ChannelStatus::Closed, ..s.channels@[token] },
                    )
                } else {
                    t.channels == s.channels
                }
                &&& t == Coordinator { histories: t.histories, channels: t.channels, ..s }
            }
        },
    }
}

/// The effect of a callback delivered by `sender`.
pub open spec fn callback_effect(
    s: Coordinator,
    t: Coordinator,
    sender: Seq<char>,
    cb: IcaCallback,
    r: Result<Option<Outbound>, ContractError>,
) -> bool {
    if !s.registered@.contains_key(sender) {
        failed(r, ContractError::Unauthorized) && t == s
    } else {
        match cb {
            IcaCallback::ChannelOpenAck { channel_id, ica_address } => open_ack_effect(
                s,
                t,
                sender,
                channel_id@,
                ica_address@,
                r,
            ),
            IcaCallback::Acknowledgement { src_port_id, success } => resolve_effect(
                s,
                t,
                src_port_id@,
                if success {
                    TransactionStatus::Completed
                } else {
                    TransactionStatus::Failed
                },
                false,
                r,
            ),
            IcaCallback::Timeout { src_port_id } => resolve_effect(
                s,
                t,
                src_port_id@,
                TransactionStatus::Timeout,
                true,
                r,
            ),
        }
    }
}

/// The effect of `sender` sending `cmd` for `token`, given the ledger's
/// answer to the query for the token's owner: the owner, or the error the
/// query failed with.
///
/// Only the token's owner may send, and only through a registered
/// controller. A channel request on a closed channel marks it pending;
/// every command is logged as pending at the front of the history, under
/// its category; the command goes to the token's controller.
pub open spec fn command_effect(
    s: Coordinator,
    t: Coordinator,
    sender: Seq<char>,
    token: Seq<char>,
    cmd: IcaCommand,
    ledger_owner: Result<String, String>,
    block_height: u64,
    timestamp: u64,
    r: Result<Outbound, ContractError>,
) -> bool {
    match ledger_owner {
        Err(e) => failed(r, ContractError::Snip721QueryFailed(e)) && t == s,
        Ok(o) => if o@ != sender {
            failed(r, ContractError::Unauthorized) && t == s
        } else if !s.bimap@.contains_key(token) {
            failed(r, ContractError::NotFound(Missing::BimapEntry)) && t == s
        } else if !s.registered@.contains_key(s.bimap@[token]) {
            failed(r, ContractError::Unauthorized) && t == s
        } else if cmd is CreateChannel && !s.channels@.contains_key(token) {
            failed(r, ContractError::NotFound(Missing::ChannelState)) && t == s
        } else {
            let h = history_of(s.histories@, token);
            &&& r matches Ok(Outbound::ForwardCommand { controller_address, code_hash })
                && controller_address@ == s.bimap@[token] && code_hash
                == s.config.ica_controller_code.code_hash
            &&& if cmd is CreateChannel && s.channels@[token].status == ChannelStatus::Closed {
                channel_set(s.channels@, t.channels@, token, ChannelStatus::Pending, None)
            } else {
                t.channels == s.channels
            }
            &&& t.histories@.contains_key(token)
            &&& t.histories@[token]@.len() == h.len() + 1
            &&& t.histories@[token]@.drop_first() == h
            &&& t.histories@[token]@[0].status == TransactionStatus::Pending
            &&& t.histories@[token]@[0].token_id@ == token
            &&& t.histories@[token]@[0].owner@ == sender
            &&& t.histories@[token]@[0].msg_type == command_category(cmd)
            &&& t.histories@[token]@[0].block_height == block_height
            &&& t.histories@[token]@[0].timestamp == timestamp
            &&& t.histories@.remove(token) == s.histories@.remove(token)
            &&& t == Coordinator { channels: t.channels, histories: t.histories, ..s }
        },
    }
}

/// The first record and the end of a history page, clamped to the history's
/// length `len`; an absent page is the first, an absent size the default.
pub open spec fn page_bounds(len: nat, page: Option<u32>, page_size: Option<u32>) -> (int, int) {
    let p = match page {
        Some(p) => p as int,
        None => 0,
    };
    let size = match page_size {
        Some(z) => z as int,
        None => DEFAULT_PAGE_SIZE as int,
    };
    let start = if p * size < len {
        p * size
    } else {
        len as int
    };
    let end = if start + size < len {
        start + size
    } else {
        len as int
    };
    (start, end)
}

/// The controller address named by `port`, if it carries the wasm prefix.
pub fn strip_port_prefix(port: &str) -> (r: Option<String>)
    ensures
        opt_text(r) == controller_of_port(port@),
{
    let n = port.unicode_len();
    let k = WASM_IBC_PORT_PREFIX.unicode_len();
    if n < k {
        return None;
    }
    let head = String::from_str(port.substring_char(0, k));
    if !same_text(&head, WASM_IBC_PORT_PREFIX) {
        proof {
            assert(!(WASM_IBC_PORT_PREFIX@ =~= port@.subrange(0, k as int)));
        }
        return None;
    }
    Some(String::from_str(port.substring_char(k, n)))
}

/// The position of the newest record of `h` that waits for the kind of
/// answer `packet` names.
fn first_pending(h: &Vec<TransactionRecord>, packet: bool) -> (r: Option<usize>)
    ensures
        match r {
            Some(i) => is_first_pending(h@, i as int, packet),
            None => !has_pending(h@, packet),
        },
{
    let n = h.len();
    let mut i: usize = 0;
    while i < n
        invariant
            n == h.len(),
            i <= n,
            forall|j: int| 0 <= j < i ==> !#[trigger] awaits(h@[j], packet),
        decreases n - i,
    {
        let r = &h[i];
        let waits = r.status == TransactionStatus::Pending && if packet {
            r.msg_type != TransactionMsgType::ChannelOpen && r.msg_type
                != TransactionMsgType::Control
        } else {
            r.msg_type == TransactionMsgType::ChannelOpen
        };
        if waits {
            return Some(i);
        }
        i = i + 1;
    }
    None
}

/// The position of the newest record of `token` that waits for the kind of
/// answer `packet` names.
fn find_pending(histories: &StrMap<Vec<TransactionRecord>>, token: &str, packet: bool) -> (r:
    Option<usize>)
    requires
        histories.wf(),
    ensures
        match r {
            Some(i) => histories@.contains_key(token@) && is_first_pending(
                history_of(histories@, token@),
                i as int,
                packet,
            ),
            None => !has_pending(history_of(histories@, token@), packet),
        },
{
    match histories.get(token) {
        None => None,
        Some(records) => first_pending(records, packet),
    }
}

/// Gives the record of `token` at `idx` the status `status` and moves it to
/// the front of the history.
fn resolve_record(
    histories: &mut StrMap<Vec<TransactionRecord>>,
    token: String,
    idx: usize,
    status: TransactionStatus,
)
    requires
        old(histories).wf(),
        old(histories)@.contains_key(token@),
        idx < old(histories)@[token@]@.len(),
    ensures
        final(histories).wf(),
        final(histories)@.contains_key(token@),
        final(histories)@[token@]@ == resolve_at(old(histories)@[token@]@, idx as int, status),
        final(histories)@.remove(token@) == old(histories)@.remove(token@),
{
    let ghost h = old(histories)@[token@]@;
    let mut records = match histories.remove(token.as_str()) {
        Some(records) => records,
        None => {
            proof {
                assert(false);
            }
            Vec::new()
        },
    };
    let mut record = records.remove(idx);
    record.status = status;
    records.insert(0, record);
    proof {
        assert(records@ =~= resolve_at(h, idx as int, status));
    }
    histories.insert(token, records);
    proof {
        assert(final(histories)@.remove(token@) =~= old(histories)@.remove(token@));
    }
}

impl Coordinator {
    /// Every part of the state is well formed.
    pub open spec fn wf(&self) -> bool {
        &&& self.bimap.wf()
        &&& self.ica_addresses.wf()
        &&& self.registered.wf()
        &&& self.channels.wf()
        &&& self.histories.wf()
    }

    /// The owner of a new coordinator: the one requested, else the sender.
    pub fn chosen_owner(requested: Option<String>, sender: String) -> (r: String)
        ensures
            r == match requested {
                Some(o) => o,
                None => sender,
            },
    {
        match requested {
            Some(o) => o,
            None => sender,
        }
    }

    /// A new coordinator and the request that creates its ledger. The
    /// ledger's address is filled in when the creation is reported.
    pub fn instantiate(
        owner: String,
        ica_controller_code: CodeInfo,
        snip721_code: CodeInfo,
        default_chan_init_options: ChannelOpenInitOptions,
    ) -> (r: (Self, Outbound))
        ensures
            r.0.wf(),
            r.0.owner == owner,
            r.0.config.default_chan_init_options == default_chan_init_options,
            r.0.config.ica_controller_code == ica_controller_code,
            r.0.config.snip721_address@ == Seq::<char>::empty(),
            r.0.config.snip721_code_hash == snip721_code.code_hash,
            r.0.token_counter == 0,
            r.0.mint_queue@.len() == 0,
            r.0.bimap@ == Map::<Seq<char>, Seq<char>>::empty(),
            r.0.ica_addresses@ == Map::<Seq<char>, String>::empty(),
            r.0.registered@ == Map::<Seq<char>, ()>::empty(),
            r.0.channels@ == Map::<Seq<char>, ChannelState>::empty(),
            r.0.histories@ == Map::<Seq<char>, Vec<TransactionRecord>>::empty(),
            r.1 == (Outbound::InstantiateLedger {
                code_id: snip721_code.code_id,
                code_hash: snip721_code.code_hash,
                reply_id: CW721_INSTANTIATE_REPLY_ID,
            }),
    {
        let request = Outbound::InstantiateLedger {
            code_id: snip721_code.code_id,
            code_hash: snip721_code.code_hash.clone(),
            reply_id: CW721_INSTANTIATE_REPLY_ID,
        };
        let coordinator = Coordinator {
            owner,
            config: ContractState {
                default_chan_init_options,
                ica_controller_code,
                snip721_address: String::new(),
                snip721_code_hash: snip721_code.code_hash,
            },
            token_counter: 0,
            mint_queue: VecDeque::new(),
            bimap: NftIcaBiMap::new(),
            ica_addresses: StrMap::new(),
            registered: StrMap::new(),
            channels: StrMap::new(),
            histories: StrMap::new(),
        };
        (coordinator, request)
    }

    /// Succeeds only when `sender` is the owner.
    pub fn assert_owner(&self, sender: &str) -> (r: Result<(), ContractError>)
        ensures
            r is Ok <==> self.owner@ == sender@,
            r is Err ==> r == Err::<(), ContractError>(ContractError::Unauthorized),
    {
        if same_text(&self.owner, sender) {
            Ok(())
        } else {
            Err(ContractError::Unauthorized)
        }
    }

    /// Hands ownership to `new_owner`; only the current owner may.
    pub fn update_ownership(&mut self, sender: &str, new_owner: String) -> (r: Result<
        (),
        ContractError,
    >)
        ensures
            if old(self).owner@ == sender@ {
                &&& r is Ok
                &&& *final(self) == (Coordinator { owner: new_owner, ..*old(self) })
            } else {
                &&& r == Err::<(), ContractError>(ContractError::Unauthorized)
                &&& *final(self) == *old(self)
            },
    {
        match self.assert_owner(sender) {
            Ok(()) => {},
            Err(e) => {
                return Err(e);
            },
        }
        self.owner = new_owner;
        Ok(())
    }

    /// Queues a mint request for `sender` under the next token id, and asks
    /// for a controller to be created for it. The token is minted when that
    /// controller reports its channel open.
    pub fn mint_ica(&mut self, sender: String) -> (r: Result<Outbound, ContractError>)
        ensures
            mint_effect(*old(self), *final(self), sender@, r),
    {
        if self.token_counter == u64::MAX {
            return Err(ContractError::CounterOverflow);
        }
        let item = QueueItem { token_id: token_id(self.token_counter), owner: sender };
        let ghost before = self.mint_queue@;
        self.mint_queue.push_front(item);
        self.token_counter = self.token_counter + 1;
        proof {
            assert(queue_entries(self.mint_queue@) =~= seq![
                (token_id_for(old(self).token_counter as nat), sender@),
            ] + queue_entries(before));
        }
        Ok(
            Outbound::InstantiateController {
                code_id: self.config.ica_controller_code.code_id,
                code_hash: self.config.ica_controller_code.code_hash.clone(),
                channel_open_init_options: self.config.default_chan_init_options.duplicate(),
                reply_id: CW_ICA_CONTROLLER_INSTANTIATE_REPLY_ID,
            },
        )
    }

    /// Handles a callback delivered by `sender`: checks that the sender is a
    /// registered controller, then applies the callback.
    pub fn receive_ica_callback(&mut self, sender: &str, callback: IcaCallback) -> (r: Result<
        Option<Outbound>,
        ContractError,
    >)
        requires
            old(self).wf(),
        ensures
            final(self).wf(),
            callback_effect(*old(self), *final(self), sender@, callback, r),
    {
        if !self.registered.contains_key(sender) {
            return Err(ContractError::Unauthorized);
        }
        match callback {
            IcaCallback::ChannelOpenAck { channel_id, ica_address } => {
                self.on_channel_open_ack(sender, channel_id, ica_address)
            },
            IcaCallback::Acknowledgement { src_port_id, success } => {
                let status = if success {
                    TransactionStatus::Completed
                } else {
                    TransactionStatus::Failed
                };
                self.resolve_transaction(src_port_id.as_str(), status, false)
            },
            IcaCallback::Timeout { src_port_id } => {
                self.resolve_transaction(src_port_id.as_str(), TransactionStatus::Timeout, true)
            },
        }
    }

    fn on_channel_open_ack(&mut self, sender: &str, channel_id: String, ica_address: String) -> (r:
        Result<Option<Outbound>, ContractError>)
        requires
            old(self).wf(),
        ensures
            final(self).wf(),
            open_ack_effect(*old(self), *final(self), sender@, channel_id@, ica_address@, r),
    {
        match self.bimap.may_load(sender) {
            Some(token) => {
                match self.channels.get(token.as_str()) {
                    None => {
                        return Err(ContractError::NotFound(Missing::ChannelState));
                    },
                    Some(cs) => {
                        if cs.status == ChannelStatus::Open {
                            return Err(ContractError::ChannelAlreadyOpen);
                        }
                    },
                }
                self.channels.insert(
                    token.clone(),
                    ChannelState { status: ChannelStatus::Open, channel_id: Some(channel_id) },
                );
                proof {
                    assert(self.channels@.remove(token@) =~= old(self).channels@.remove(token@));
                }
                match find_pending(&self.histories, token.as_str(), false) {
                    Some(i) => {
                        let ghost h = history_of(self.histories@, token@);
                        resolve_record(&mut self.histories, token, i, TransactionStatus::Completed);
                        proof {
                            assert(is_first_pending(h, i as int, false));
                        }
                    },
                    None => {},
                }
                Ok(None)
            },
            None => {
                if self.mint_queue.len() == 0 {
                    return Err(ContractError::QueueEmpty);
                }
                match self.mint_queue.pop_back() {
                    None => Err(ContractError::QueueEmpty),
                    Some(item) => {
                        self.bimap.insert(String::from_str(sender), item.token_id.clone());
                        self.ica_addresses.insert(item.token_id.clone(), ica_address.clone());
                        self.channels.insert(
                            item.token_id.clone(),
                            ChannelState {
                                status: ChannelStatus::Open,
                                channel_id: Some(channel_id),
                            },
                        );
                        proof {
                            let tok = item.token_id@;
                            assert(self.channels@.remove(tok) =~= old(self).channels@.remove(tok));
                            assert(self.ica_addresses@.remove(tok) =~= old(
                                self,
                            ).ica_addresses@.remove(tok));
                        }
                        Ok(
                            Some(
                                Outbound::MintToken {
                                    ledger_address: self.config.snip721_address.clone(),
                                    ledger_code_hash: self.config.snip721_code_hash.clone(),
                                    token_id: item.token_id,
                                    owner: item.owner,
                                    controller_address: String::from_str(sender),
                                    ica_address,
                                },
                            ),
                        )
                    },
                }
            },
        }
    }

    fn resolve_transaction(&mut self, port: &str, status: TransactionStatus, closes: bool) -> (r:
        Result<Option<Outbound>, ContractError>)
        requires
            old(self).wf(),
        ensures
            final(self).wf(),
            resolve_effect(*old(self), *final(self), port@, status, closes, r),
    {
        let controller = match strip_port_prefix(port) {
            None => {
                return Err(ContractError::NotFound(Missing::BimapEntry));
            },
            Some(c) => c,
        };
        let token = match self.bimap.load(controller.as_str()) {
            Ok(t) => t,
            Err(e) => {
                return Err(e);
            },
        };
        let ghost h = history_of(self.histories@, token@);
        let idx = match find_pending(&self.histories, token.as_str(), true) {
            None => {
                return Err(ContractError::NotFound(Missing::PendingTransaction));
            },
            Some(i) => i,
        };
        if closes && !self.channels.contains_key(token.as_str()) {
            return Err(ContractError::NotFound(Missing::ChannelState));
        }
        resolve_record(&mut self.histories, token.clone(), idx, status);
        proof {
            assert(is_first_pending(h, idx as int, true));
        }
        if closes {
            let state = match self.channels.remove(token.as_str()) {
                Some(state) => state,
                None => {
                    proof {
                        assert(false);
                    }
                    ChannelState { status: ChannelStatus::Closed, channel_id: None }
                },
            };
            self.channels.insert(
                token,
                ChannelState { status: ChannelStatus::Closed, channel_id: state.channel_id },
            );
            proof {
                assert(self.channels@ =~= old(self).channels@.insert(
                    token@,
                    ChannelState {
                        status: ChannelStatus::Closed,
                        ..old(self).channels@[token@]
                    },
                ));
            }
        }
        Ok(None)
    }

    /// Sends `msg` for `token_id` on behalf of `sender`, given the ledger's
    /// answer to the query for the token's owner.
    pub fn ica_msg(
        &mut self,
        sender: &str,
        token_id: &str,
        msg: &IcaCommand,
        ledger_owner: Result<String, String>,
        block_height: u64,
        timestamp: u64,
    ) -> (r: Result<Outbound, ContractError>)
        requires
            old(self).wf(),
        ensures
            final(self).wf(),
            command_effect(
                *old(self),
                *final(self),
                sender@,
                token_id@,
                *msg,
                ledger_owner,
                block_height,
                timestamp,
                r,
            ),
    {
        let owner = match ledger_owner {
            Err(e) => {
                return Err(ContractError::Snip721QueryFailed(e));
            },
            Ok(o) => o,
        };
        if !same_text(&owner, sender) {
            return Err(ContractError::Unauthorized);
        }
        let controller = match self.bimap.load(token_id) {
            Ok(c) => c,
            Err(e) => {
                return Err(e);
            },
        };
        if !self.registered.contains_key(controller.as_str()) {
            return Err(ContractError::Unauthorized);
        }
        let opens = match msg {
            IcaCommand::CreateChannel => true,
            _ => false,
        };
        if opens {
            let closed = match self.channels.get(token_id) {
                None => {
                    return Err(ContractError::NotFound(Missing::ChannelState));
                },
                Some(cs) => cs.status == ChannelStatus::Closed,
            };
            if closed {
                self.channels.insert(
                    String::from_str(token_id),
                    ChannelState { status: ChannelStatus::Pending, channel_id: None },
                );
                proof {
                    assert(self.channels@.remove(token_id@) =~= old(self).channels@.remove(
                        token_id@,
                    ));
                }
            }
        }
        let record = TransactionRecord::from_ica_msg(
            msg,
            token_id,
            owner.as_str(),
            block_height,
            timestamp,
        );
        let ghost h = history_of(self.histories@, token_id@);
        let mut records = match self.histories.remove(token_id) {
            Some(records) => records,
            None => Vec::new(),
        };
        records.insert(0, record);
        self.histories.insert(String::from_str(token_id), records);
        proof {
            assert(self.histories@.remove(token_id@) =~= old(self).histories@.remove(token_id@));
            assert(self.histories@[token_id@]@.drop_first() =~= h);
        }
        Ok(
            Outbound::ForwardCommand {
                controller_address: controller,
                code_hash: self.config.ica_controller_code.code_hash.clone(),
            },
        )
    }

    /// Records the address that a creation request reported: the ledger's, or
    /// a new controller's, which may then deliver callbacks.
    pub fn apply_reply(&mut self, kind: ReplyKind, address: String)
        requires
            old(self).wf(),
        ensures
            final(self).wf(),
            match kind {
                ReplyKind::Ledger => *final(self) == (Coordinator {
                    config: ContractState { snip721_address: address, ..old(self).config },
                    ..*old(self)
                }),
                ReplyKind::Controller => final(self).registered@ == old(
                    self,
                ).registered@.insert(address@, ()) && *final(self) == (Coordinator {
                    registered: final(self).registered,
                    ..*old(self)
                }),
            },
    {
        match kind {
            ReplyKind::Ledger => {
                self.config.snip721_address = address;
            },
            ReplyKind::Controller => {
                self.registered.insert(address, ());
            },
        }
    }

    /// The key bound to `key` in the bimap, by either side.
    pub fn nft_ica_controller_bimap(&self, key: &str) -> (r: Result<String, ContractError>)
        requires
            self.wf(),
        ensures
            match r {
                Ok(v) => self.bimap@.contains_key(key@) && v@ == self.bimap@[key@],
                Err(e) => !self.bimap@.contains_key(key@) && e == ContractError::NotFound(
                    Missing::BimapEntry,
                ),
            },
    {
        self.bimap.load(key)
    }

    /// The remote account address of `token_id`.
    pub fn get_ica_address(&self, token_id: &str) -> (r: Result<String, ContractError>)
        requires
            self.wf(),
        ensures
            match r {
                Ok(a) => self.ica_addresses@.contains_key(token_id@) && a@
                    == self.ica_addresses@[token_id@]@,
                Err(e) => !self.ica_addresses@.contains_key(token_id@) && e
                    == ContractError::NotFound(Missing::IcaAddress),
            },
    {
        match self.ica_addresses.get(token_id) {
            Some(a) => Ok(a.clone()),
            None => Err(ContractError::NotFound(Missing::IcaAddress)),
        }
    }

    /// The remote account addresses of `token_ids`, in order; fails if any
    /// of them has none.
    pub fn get_ica_addresses(&self, token_ids: &Vec<String>) -> (r: Result<
        GetIcaAddressesResponse,
        ContractError,
    >)
        requires
            self.wf(),
        ensures
            match r {
                Ok(resp) => {
                    &&& resp.pairs@.len() == token_ids@.len()
                    &&& forall|i: int|
                        0 <= i < token_ids@.len() ==> self.ica_addresses@.contains_key(
                            #[trigger] token_ids@[i]@,
                        ) && resp.pairs@[i].nft_id@ == token_ids@[i]@
                            && resp.pairs@[i].ica_address@ == self.ica_addresses@[token_ids@[i]@]@
                },
                Err(e) => e == ContractError::NotFound(Missing::IcaAddress) && exists|i: int|
                    0 <= i < token_ids@.len() && !self.ica_addresses@.contains_key(
                        #[trigger] token_ids@[i]@,
                    ),
            },
    {
        let mut pairs: Vec<NftIcaPair> = Vec::new();
        let n = token_ids.len();
        let mut i: usize = 0;
        while i < n
            invariant
                self.wf(),
                n == token_ids@.len(),
                i <= n,
                pairs@.len() == i,
                forall|j: int|
                    0 <= j < i ==> self.ica_addresses@.contains_key(#[trigger] token_ids@[j]@)
                        && pairs@[j].nft_id@ == token_ids@[j]@ && pairs@[j].ica_address@
                        == self.ica_addresses@[token_ids@[j]@]@,
            decreases n - i,
        {
            let id = &token_ids[i];
            match self.ica_addresses.get(id.as_str()) {
                Some(a) => {
                    pairs.push(NftIcaPair { nft_id: id.clone(), ica_address: a.clone() });
                },
                None => {
                    return Err(ContractError::NotFound(Missing::IcaAddress));
                },
            }
            i = i + 1;
        }
        Ok(GetIcaAddressesResponse { pairs })
    }

    /// The waiting mint requests, newest first.
    pub fn get_mint_queue(&self) -> (r: Vec<QueueItem>)
        ensures
            r@ == self.mint_queue@,
    {
        let mut out: Vec<QueueItem> = Vec::new();
        let n = self.mint_queue.len();
        let mut i: usize = 0;
        while i < n
            invariant
                n == self.mint_queue@.len(),
                i <= n,
                out@ == self.mint_queue@.subrange(0, i as int),
            decreases n - i,
        {
            out.push(self.mint_queue[i].duplicate());
            i = i + 1;
            proof {
                assert(out@ =~= self.mint_queue@.subrange(0, i as int));
            }
        }
        proof {
            assert(out@ =~= self.mint_queue@);
        }
        out
    }

    /// A page of the transaction history of `token_id`, newest first, with
    /// the history's length. Page `page` of size `z` starts at record
    /// `page * z`; a page past the end is empty.
    pub fn get_transaction_history(
        &self,
        token_id: &str,
        page: Option<u32>,
        page_size: Option<u32>,
    ) -> (r: GetTransactionHistoryResponse)
        requires
            self.wf(),
        ensures
            ({
                let h = history_of(self.histories@, token_id@);
                let (start, end) = page_bounds(h.len(), page, page_size);
                r.records@ == h.subrange(start, end) && r.total == h.len()
            }),
    {
        let p: u32 = match page {
            Some(p) => p,
            None => 0,
        };
        let size: u32 = match page_size {
            Some(z) => z,
            None => DEFAULT_PAGE_SIZE,
        };
        let ghost h = history_of(self.histories@, token_id@);
        let mut records: Vec<TransactionRecord> = Vec::new();
        match self.histories.get(token_id) {
            None => {
                proof {
                    assert(h.subrange(0, 0) =~= Seq::<TransactionRecord>::empty());
                }
                GetTransactionHistoryResponse { records, total: 0 }
            },
            Some(all) => {
                let len = all.len() as u64;
                assert((p as u64) * (size as u64) <= u32::MAX as u64 * u32::MAX as u64)
                    by (nonlinear_arith)
                    requires
                        p <= u32::MAX,
                        size <= u32::MAX,
                ;
                let first: u64 = (p as u64) * (size as u64);
                let start: u64 = if first < len {
                    first
                } else {
                    len
                };
                let end: u64 = if start + (size as u64) < len {
                    start + (size as u64)
                } else {
                    len
                };
                let first_index = start as usize;
                let end_index = end as usize;
                let mut i: usize = first_index;
                while i < end_index
                    invariant
                        h == all@,
                        first_index == start,
                        end_index == end,
                        end <= all@.len(),
                        first_index <= i <= end_index,
                        records@ == all@.subrange(first_index as int, i as int),
                    decreases end_index - i,
                {
                    records.push(all[i].duplicate());
                    i = i + 1;
                    proof {
                        assert(records@ =~= all@.subrange(first_index as int, i as int));
                    }
                }
                GetTransactionHistoryResponse { records, total: len }
            },
        }
    }

    /// The channel state of `token_id`.
    pub fn get_channel_state(&self, token_id: &str) -> (r: Result<ChannelState, ContractError>)
        requires
            self.wf(),
        ensures
            match r {
                Ok(cs) => self.channels@.contains_key(token_id@) && cs == self.channels@[token_id@],
                Err(e) => !self.channels@.contains_key(token_id@) && e == ContractError::NotFound(
                    Missing::ChannelState,
                ),
            },
    {
        match self.channels.get(token_id) {
            Some(cs) => Ok(cs.duplicate()),
            None => Err(ContractError::NotFound(Missing::ChannelState)),
        }
    }

    /// The owner.
    pub fn owner(&self) -> (r: String)
        ensures
            r == self.owner,
    {
        self.owner.clone()
    }

    /// The configuration.
    pub fn state(&self) -> (r: ContractState)
        ensures
            r == self.config,
    {
        self.config.duplicate()
    }
}

/// Which request a reply with id `id` answers.
pub fn reply_kind(id: u64) -> (r: Result<ReplyKind, ContractError>)
    ensures
        r == if id == CW721_INSTANTIATE_REPLY_ID {
            Ok::<ReplyKind, ContractError>(ReplyKind::Ledger)
        } else if id == CW_ICA_CONTROLLER_INSTANTIATE_REPLY_ID {
            Ok(ReplyKind::Controller)
        } else {
            Err(ContractError::UnknownReplyId(id))
        },
{
    if id == CW721_INSTANTIATE_REPLY_ID {
        Ok(ReplyKind::Ledger)
    } else if id == CW_ICA_CONTROLLER_INSTANTIATE_REPLY_ID {
        Ok(ReplyKind::Controller)
    } else {
        Err(ContractError::UnknownReplyId(id))
    }
}

} // verus!
