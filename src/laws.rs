//! Laws that relate several operations of the coordinator, stated over the
//! relations that the operations' contracts are written in.
use vstd::prelude::*;

use crate::bimap::{bind, lemma_bind_keeps_other_pairs};
use crate::coordinator::{
    awaits, callback_effect, controller_of_port, history_of, has_pending, is_first_pending, mint_effect,
    channel_set, open_ack_effect, queue_entries, resolve_at, Coordinator,
};
use crate::error::{ContractError, Missing};
use crate::msg::{IcaCallback, Outbound};
use crate::state::{lemma_token_id_injective, token_id_for, ChannelStatus, TransactionStatus};

verus! {

/// Once a timeout has resolved the only record of its token that waits for
/// a packet callback, a second timeout for the same port finds nothing to
/// resolve: it fails with `NotFound` and changes nothing.
pub proof fn lemma_second_timeout_not_found(
    s1: Coordinator,
    s2: Coordinator,
    s3: Coordinator,
    sender: Seq<char>,
    port: String,
    r1: Result<Option<Outbound>, ContractError>,
    r2: Result<Option<Outbound>, ContractError>,
)
    requires
        ({
            let c = controller_of_port(port@).unwrap();
            let h = history_of(s1.histories@, s1.bimap@[c]);
            forall|i: int, j: int|
                0 <= i < h.len() && 0 <= j < h.len() && #[trigger] awaits(h[i], true)
                    && #[trigger] awaits(h[j], true) ==> i == j
        }),
        callback_effect(s1, s2, sender, IcaCallback::Timeout { src_port_id: port }, r1),
        r1 is Ok,
        callback_effect(s2, s3, sender, IcaCallback::Timeout { src_port_id: port }, r2),
    ensures
        r2 == Err::<Option<Outbound>, ContractError>(
            ContractError::NotFound(Missing::PendingTransaction),
        ),
        s3 == s2,
{
    let c = controller_of_port(port@).unwrap();
    let token = s1.bimap@[c];
    let h = history_of(s1.histories@, token);
    let i = choose|i: int|
        is_first_pending(h, i, true) && s2.histories@.contains_key(token)
            && #[trigger] s2.histories@[token]@ == resolve_at(h, i, TransactionStatus::Timeout);
    let n = resolve_at(h, i, TransactionStatus::Timeout);
    assert(history_of(s2.histories@, token) == n);
    assert(!has_pending(n, true)) by {
        if has_pending(n, true) {
            let k = choose|k: int| 0 <= k < n.len() && #[trigger] awaits(n[k], true);
            if k > 0 {
                let m = if k - 1 < i {
                    k - 1
                } else {
                    k
                };
                assert(n[k] == h[m]);
            }
        }
    }
}

/// The controllers `ctrls[j]` and the tokens `minted_token(c0, j)` for `j < k`.
pub open spec fn bound_keys(ctrls: Seq<Seq<char>>, c0: u64, k: int) -> Set<Seq<char>> {
    Set::new(|x: Seq<char>| exists|j: int| 0 <= j < k && (x == ctrls[j] || x == minted_token(c0, j)))
}

/// `cb` reports a channel opening.
pub open spec fn is_open_ack(cb: IcaCallback) -> bool {
    match cb {
        IcaCallback::ChannelOpenAck { .. } => true,
        _ => false,
    }
}

/// The token id of the `j`-th mint request counted from counter value `c0`.
pub open spec fn minted_token(c0: u64, j: int) -> Seq<char> {
    token_id_for((c0 + j) as nat)
}

proof fn lemma_mint_phase(
    states: Seq<Coordinator>,
    owners: Seq<Seq<char>>,
    results: Seq<Result<Outbound, ContractError>>,
    k: int,
)
    requires
        0 <= k <= owners.len(),
        states.len() > owners.len(),
        results.len() == owners.len(),
        forall|j: int|
            0 <= j < owners.len() ==> mint_effect(states[j], states[j + 1], owners[j], #[trigger] results[j])
                && results[j] is Ok,
    ensures
        states[k].token_counter == states[0].token_counter + k,
        queue_entries(states[k].mint_queue@).len() == states[0].mint_queue@.len() + k,
        forall|j: int|
            0 <= j < k ==> #[trigger] queue_entries(states[k].mint_queue@)[k - 1 - j] == (
                token_id_for((states[0].token_counter + j) as nat),
                owners[j],
            ),
        states[k].bimap == states[0].bimap,
        states[k].registered == states[0].registered,
    decreases k,
{
    if k > 0 {
        lemma_mint_phase(states, owners, results, k - 1);
        let r = results[k - 1];
        assert(mint_effect(states[k - 1], states[k], owners[k - 1], r));
        let before = queue_entries(states[k - 1].mint_queue@);
        let after = queue_entries(states[k].mint_queue@);
        assert forall|j: int| 0 <= j < k implies #[trigger] after[k - 1 - j] == (
            token_id_for((states[0].token_counter + j) as nat),
            owners[j],
        ) by {
            if j < k - 1 {
                assert(after[k - 1 - j] == before[k - 2 - j]);
                assert(before[(k - 1) - 1 - j] == (
                    token_id_for((states[0].token_counter + j) as nat),
                    owners[j],
                ));
            } else {
                assert(after[0] == (token_id_for(states[k - 1].token_counter as nat), owners[k - 1]));
            }
        }
    }
}

proof fn lemma_provision_phase(
    states: Seq<Coordinator>,
    owners: Seq<Seq<char>>,
    ctrls: Seq<Seq<char>>,
    cbs: Seq<IcaCallback>,
    results: Seq<Result<Option<Outbound>, ContractError>>,
    k: int,
)
    requires
        0 <= k <= owners.len(),
        ctrls.len() == owners.len(),
        cbs.len() == owners.len(),
        results.len() == owners.len(),
        states.len() == 2 * owners.len() + 1,
        forall|j: int| 0 <= j < states.len() ==> (#[trigger] states[j]).wf(),
        queue_entries(states[owners.len() as int].mint_queue@).len() == owners.len(),
        forall|j: int|
            0 <= j < owners.len() ==> #[trigger] queue_entries(
                states[owners.len() as int].mint_queue@,
            )[owners.len() - 1 - j] == (
                token_id_for((states[0].token_counter + j) as nat),
                owners[j],
            ),
        states[owners.len() as int].bimap == states[0].bimap,
        states[owners.len() as int].registered == states[0].registered,
        forall|j: int|
            0 <= j < owners.len() ==> is_open_ack(#[trigger] cbs[j]) && callback_effect(
                states[owners.len() + j],
                states[owners.len() + j + 1],
                ctrls[j],
                cbs[j],
                results[j],
            ),
        forall|j: int|
            0 <= j < owners.len() ==> states[0].registered@.contains_key(#[trigger] ctrls[j])
                && !states[0].bimap@.contains_key(ctrls[j]),
        forall|a: int, b: int| 0 <= a < b < ctrls.len() ==> ctrls[a] != ctrls[b],
        forall|a: int, b: int|
            0 <= a < ctrls.len() && 0 <= b < ctrls.len() ==> #[trigger] ctrls[a]
                != #[trigger] minted_token(states[0].token_counter, b),
        forall|j: int|
            0 <= j < owners.len() ==> !states[0].bimap@.contains_key(
                #[trigger] minted_token(states[0].token_counter, j),
            ),
    ensures
        states[owners.len() + k].mint_queue@ == states[owners.len() as int].mint_queue@.subrange(
            0,
            owners.len() - k,
        ),
        states[owners.len() + k].registered == states[0].registered,
        forall|j: int|
            0 <= j < k ==> {
                let t = token_id_for((states[0].token_counter + j) as nat);
                let m = states[owners.len() + k].bimap@;
                m.contains_key(#[trigger] ctrls[j]) && m[ctrls[j]] == t && m.contains_key(t)
                    && m[t] == ctrls[j]
            },
        forall|j: int|
            k <= j < owners.len() ==> !states[owners.len() + k].bimap@.contains_key(
                #[trigger] ctrls[j],
            ),
        forall|j: int| 0 <= j < k ==> (#[trigger] results[j]) is Ok,
        states[owners.len() + k].bimap@.dom() == states[0].bimap@.dom().union(
            bound_keys(ctrls, states[0].token_counter, k),
        ),
        forall|j: int|
            0 <= j < k ==> states[owners.len() + k].channels@.contains_key(
                #[trigger] minted_token(states[0].token_counter, j),
            ) && states[owners.len() + k].channels@[minted_token(
                states[0].token_counter,
                j,
            )].status == ChannelStatus::Open,
    decreases k,
{
    let n = owners.len() as int;
    let c0 = states[0].token_counter;
    if k == 0 {
        assert(states[n].mint_queue@.subrange(0, n) =~= states[n].mint_queue@);
        assert(states[0].bimap@.dom().union(bound_keys(ctrls, c0, 0)) =~= states[0].bimap@.dom());
    } else {
        lemma_provision_phase(states, owners, ctrls, cbs, results, k - 1);
        let s = states[n + k - 1];
        let t = states[n + k];
        let c = ctrls[k - 1];
        let r = results[k - 1];
        assert(s.wf());
        assert(t.wf());
        assert(callback_effect(s, t, c, cbs[k - 1], r));
        assert(s.registered@.contains_key(c));
        assert(!s.bimap@.contains_key(c));
        let q = states[n].mint_queue@;
        assert(s.mint_queue@.len() == n - k + 1);
        let item = s.mint_queue@.last();
        assert(item == q[n - k]);
        assert(queue_entries(q)[n - 1 - (k - 1)] == (
            token_id_for((c0 + (k - 1)) as nat),
            owners[k - 1],
        ));
        let tok = token_id_for((c0 + (k - 1)) as nat);
        assert(item.token_id@ == tok);
        let mut id = Seq::<char>::empty();
        match cbs[k - 1] {
            IcaCallback::ChannelOpenAck { channel_id, ica_address } => {
                assert(open_ack_effect(s, t, c, channel_id@, ica_address@, r));
                id = channel_id@;
            },
            _ => {},
        }
        assert(channel_set(s.channels@, t.channels@, tok, ChannelStatus::Open, Some(id)));
        assert(tok == minted_token(c0, k - 1));
        assert(!s.bimap@.contains_key(tok)) by {
            assert(!states[0].bimap@.contains_key(minted_token(c0, k - 1)));
            if bound_keys(ctrls, c0, k - 1).contains(tok) {
                let j = choose|j: int|
                    0 <= j < k - 1 && (tok == ctrls[j] || tok == minted_token(c0, j));
                assert(ctrls[j] != minted_token(c0, k - 1));
                if tok == minted_token(c0, j) {
                    lemma_token_id_injective((c0 + j) as nat, (c0 + (k - 1)) as nat);
                }
            }
        }
        assert(c != tok) by {
            assert(ctrls[k - 1] != minted_token(c0, k - 1));
        }
        assert(t.bimap@.dom() =~= states[0].bimap@.dom().union(bound_keys(ctrls, c0, k))) by {
            assert(bind(s.bimap@, c, tok) == s.bimap@.insert(c, tok).insert(tok, c));
            assert forall|x: Seq<char>| bound_keys(ctrls, c0, k).contains(x) implies x == c || x
                == tok || bound_keys(ctrls, c0, k - 1).contains(x) by {
                let j = choose|j: int| 0 <= j < k && (x == ctrls[j] || x == minted_token(c0, j));
                if j < k - 1 {
                    assert(bound_keys(ctrls, c0, k - 1).contains(x));
                }
            }
            assert(bound_keys(ctrls, c0, k).contains(c));
            assert(bound_keys(ctrls, c0, k).contains(tok));
            assert forall|x: Seq<char>| bound_keys(ctrls, c0, k - 1).contains(x) implies bound_keys(
                ctrls,
                c0,
                k,
            ).contains(x) by {
                let j = choose|j: int|
                    0 <= j < k - 1 && (x == ctrls[j] || x == minted_token(c0, j));
            }
        }
        assert forall|j: int| 0 <= j < k implies t.channels@.contains_key(
            #[trigger] minted_token(c0, j),
        ) && t.channels@[minted_token(c0, j)].status == ChannelStatus::Open by {
            let x = minted_token(c0, j);
            if j < k - 1 {
                if x == tok {
                    lemma_token_id_injective((c0 + j) as nat, (c0 + (k - 1)) as nat);
                }
                assert(s.channels@.contains_key(x));
                assert(s.channels@.remove(tok).contains_key(x));
                assert(t.channels@.remove(tok)[x] == s.channels@.remove(tok)[x]);
            }
        }
        assert(t.bimap@ == bind(s.bimap@, c, tok));
        assert(t.mint_queue@ =~= q.subrange(0, n - k));
        s.bimap.lemma_mirrored();
        assert forall|j: int| 0 <= j < k implies {
            let tj = token_id_for((c0 + j) as nat);
            let m = t.bimap@;
            m.contains_key(#[trigger] ctrls[j]) && m[ctrls[j]] == tj && m.contains_key(tj) && m[tj]
                == ctrls[j]
        } by {
            let tj = token_id_for((c0 + j) as nat);
            assert(ctrls[j] != minted_token(c0, k - 1));
            assert(c != minted_token(c0, j));
            if j < k - 1 {
                assert(ctrls[j] != c);
                assert(ctrls[j] != tok);
                assert(tj != c);
                if tj == tok {
                    lemma_token_id_injective((c0 + j) as nat, (c0 + (k - 1)) as nat);
                }
                lemma_bind_keeps_other_pairs(s.bimap@, c, tok, ctrls[j], tj);
            } else {
                assert(c != tok);
            }
        }
        assert forall|j: int| k <= j < n implies !t.bimap@.contains_key(#[trigger] ctrls[j]) by {
            assert(ctrls[j] != c);
            assert(ctrls[j] != minted_token(c0, k - 1));
            assert(!s.bimap@.contains_key(ctrls[j]));
        }
    }
}

/// Mint requests on an empty queue, answered in the same order by open
/// acknowledgements from as many distinct registered controllers that are
/// not bound yet, leave the queue empty and bind each controller to the
/// token of the request it answered, in both directions. The tokens are
/// distinct, so as many tokens are bound as requests were made: the bimap's
/// keys are its earlier keys and exactly the new controllers and tokens.
/// Every acknowledgement succeeds and every new token's channel is open.
///
/// The controllers must differ from the new token ids, and the new token ids
/// must not be bound beforehand: the bimap keeps both sides in one key
/// space.
///
/// `states[k]` is the state after `k` of the calls: first the mint requests
/// by `owners`, then the callbacks `cbs` from `ctrls`.
pub proof fn lemma_mints_then_provisions(
    states: Seq<Coordinator>,
    owners: Seq<Seq<char>>,
    ctrls: Seq<Seq<char>>,
    cbs: Seq<IcaCallback>,
    mint_results: Seq<Result<Outbound, ContractError>>,
    cb_results: Seq<Result<Option<Outbound>, ContractError>>,
)
    requires
        ctrls.len() == owners.len(),
        cbs.len() == owners.len(),
        mint_results.len() == owners.len(),
        cb_results.len() == owners.len(),
        states.len() == 2 * owners.len() + 1,
        forall|j: int| 0 <= j < states.len() ==> (#[trigger] states[j]).wf(),
        states[0].mint_queue@.len() == 0,
        forall|j: int|
            0 <= j < owners.len() ==> mint_effect(
                states[j],
                states[j + 1],
                owners[j],
                #[trigger] mint_results[j],
            ) && mint_results[j] is Ok,
        forall|j: int|
            0 <= j < owners.len() ==> is_open_ack(#[trigger] cbs[j]) && callback_effect(
                states[owners.len() + j],
                states[owners.len() + j + 1],
                ctrls[j],
                cbs[j],
                cb_results[j],
            ),
        forall|j: int|
            0 <= j < owners.len() ==> states[0].registered@.contains_key(#[trigger] ctrls[j])
                && !states[0].bimap@.contains_key(ctrls[j]),
        forall|a: int, b: int| 0 <= a < b < ctrls.len() ==> ctrls[a] != ctrls[b],
        forall|a: int, b: int|
            0 <= a < ctrls.len() && 0 <= b < ctrls.len() ==> #[trigger] ctrls[a]
                != #[trigger] minted_token(states[0].token_counter, b),
        forall|j: int|
            0 <= j < owners.len() ==> !states[0].bimap@.contains_key(
                #[trigger] minted_token(states[0].token_counter, j),
            ),
    ensures
        states[2 * owners.len() as int].mint_queue@.len() == 0,
        forall|j: int|
            0 <= j < owners.len() ==> {
                let t = token_id_for((states[0].token_counter + j) as nat);
                let m = states[2 * owners.len() as int].bimap@;
                m.contains_key(#[trigger] ctrls[j]) && m[ctrls[j]] == t && m.contains_key(t)
                    && m[t] == ctrls[j]
            },
        forall|a: int, b: int|
            0 <= a < b < owners.len() ==> #[trigger] minted_token(states[0].token_counter, a)
                != #[trigger] minted_token(states[0].token_counter, b),
        forall|j: int| 0 <= j < owners.len() ==> (#[trigger] cb_results[j]) is Ok,
        states[2 * owners.len() as int].bimap@.dom() == states[0].bimap@.dom().union(
            bound_keys(ctrls, states[0].token_counter, owners.len() as int),
        ),
        forall|j: int|
            0 <= j < owners.len() ==> states[2 * owners.len() as int].channels@.contains_key(
                #[trigger] minted_token(states[0].token_counter, j),
            ) && states[2 * owners.len() as int].channels@[minted_token(
                states[0].token_counter,
                j,
            )].status == ChannelStatus::Open,
{
    let n = owners.len() as int;
    lemma_mint_phase(states, owners, mint_results, n);
    lemma_provision_phase(states, owners, ctrls, cbs, cb_results, n);
    assert forall|a: int, b: int| 0 <= a < b < n implies #[trigger] minted_token(
        states[0].token_counter,
        a,
    ) != #[trigger] minted_token(states[0].token_counter, b) by {
        if token_id_for((states[0].token_counter + a) as nat) == token_id_for(
            (states[0].token_counter + b) as nat,
        ) {
            lemma_token_id_injective(
                (states[0].token_counter + a) as nat,
                (states[0].token_counter + b) as nat,
            );
        }
    }
}

} // verus!
