//! Reading a new contract's address out of the host's creation receipt.
use vstd::prelude::*;

use crate::error::ContractError;
use crate::text::same_text;

verus! {

/// A key/value attribute of a host event.
#[derive(Debug, PartialEq, Eq)]
pub struct Attribute {
    /// The attribute key.
    pub key: String,
    /// The attribute value.
    pub value: String,
}

/// A host event: its type and attributes.
#[derive(Debug, PartialEq, Eq)]
pub struct Event {
    /// The event type.
    pub ty: String,
    /// The attributes, in order.
    pub attributes: Vec<Attribute>,
}

/// The outcome of a creation request as the host reports it.
#[derive(Debug, PartialEq, Eq)]
pub enum SubMsgOutcome {
    /// The request succeeded and emitted these events.
    Succeeded(Vec<Event>),
    /// The request failed with this message.
    Failed(String),
}

/// Whether `c` is alphabetic or numeric in the Unicode sense.
pub uninterp spec fn alphanumeric(c: char) -> bool;

/// Relies on `char::is_alphanumeric`: whether the character has the
/// Alphabetic or the Numeric property, a function of the character alone.
#[verifier::external_body]
fn is_alphanumeric(c: char) -> (r: bool)
    ensures
        r == alphanumeric(c),
{
    c.is_alphanumeric()
}

/// The alphanumeric characters of `s`, in order.
pub open spec fn keep_alphanumeric(s: Seq<char>) -> Seq<char>
    decreases s.len(),
{
    if s.len() == 0 {
        Seq::empty()
    } else if alphanumeric(s.last()) {
        keep_alphanumeric(s.drop_last()).push(s.last())
    } else {
        keep_alphanumeric(s.drop_last())
    }
}

/// Drops every character that is not alphanumeric, such as the quotes some
/// hosts put around an address.
pub fn sanitize_address(raw: &str) -> (r: String)
    ensures
        r@ == keep_alphanumeric(raw@),
{
    let n = raw.unicode_len();
    let mut out = String::new();
    let mut i: usize = 0;
    while i < n
        invariant
            n == raw@.len(),
            i <= n,
            out@ == keep_alphanumeric(raw@.subrange(0, i as int)),
        decreases n - i,
    {
        let c = raw.get_char(i);
        proof {
            assert(raw@.subrange(0, i + 1).drop_last() =~= raw@.subrange(0, i as int));
        }
        if is_alphanumeric(c) {
            let one = raw.substring_char(i, i + 1);
            out.append(one);
            proof {
                assert(one@ =~= seq![c]);
            }
        }
        i = i + 1;
    }
    proof {
        assert(raw@.subrange(0, n as int) =~= raw@);
    }
    out
}

/// An event that reports a contract's instantiation.
pub open spec fn is_instantiate_event(e: Event) -> bool {
    e.ty@ == "instantiate"@ || e.ty@ == "cosmwasm.wasm.v1.EventContractInstantiated"@
}

/// An attribute that holds a new contract's address.
pub open spec fn is_address_attribute(a: Attribute) -> bool {
    a.key@ == "_contract_address"@ || a.key@ == "contract_address"@
}

/// `events[i]` is the first instantiation event.
pub open spec fn is_first_instantiate(events: Seq<Event>, i: int) -> bool {
    &&& 0 <= i < events.len()
    &&& is_instantiate_event(events[i])
    &&& forall|j: int| 0 <= j < i ==> !is_instantiate_event(#[trigger] events[j])
}

/// `attrs[i]` is the first address attribute.
pub open spec fn is_first_address(attrs: Seq<Attribute>, i: int) -> bool {
    &&& 0 <= i < attrs.len()
    &&& is_address_attribute(attrs[i])
    &&& forall|j: int| 0 <= j < i ==> !is_address_attribute(#[trigger] attrs[j])
}

fn find_instantiate_event(events: &Vec<Event>) -> (r: Option<usize>)
    ensures
        match r {
            Some(i) => is_first_instantiate(events@, i as int),
            None => forall|j: int|
                0 <= j < events@.len() ==> !is_instantiate_event(#[trigger] events@[j]),
        },
{
    let n = events.len();
    let mut i: usize = 0;
    while i < n
        invariant
            n == events@.len(),
            i <= n,
            forall|j: int| 0 <= j < i ==> !is_instantiate_event(#[trigger] events@[j]),
        decreases n - i,
    {
        let ty = &events[i].ty;
        if same_text(ty, "instantiate") || same_text(
            ty,
            "cosmwasm.wasm.v1.EventContractInstantiated",
        ) {
            return Some(i);
        }
        i = i + 1;
    }
    None
}

fn find_address_attribute(attrs: &Vec<Attribute>) -> (r: Option<usize>)
    ensures
        match r {
            Some(i) => is_first_address(attrs@, i as int),
            None => forall|j: int|
                0 <= j < attrs@.len() ==> !is_address_attribute(#[trigger] attrs@[j]),
        },
{
    let n = attrs.len();
    let mut i: usize = 0;
    while i < n
        invariant
            n == attrs@.len(),
            i <= n,
            forall|j: int| 0 <= j < i ==> !is_address_attribute(#[trigger] attrs@[j]),
        decreases n - i,
    {
        let key = &attrs[i].key;
        if same_text(key, "_contract_address") || same_text(key, "contract_address") {
            return Some(i);
        }
        i = i + 1;
    }
    None
}

/// The address reported by a creation receipt: the first address attribute
/// of the first instantiation event, with non-alphanumeric characters
/// dropped. It still has to be validated as an address.
pub fn contract_address(outcome: &SubMsgOutcome) -> (r: Result<String, ContractError>)
    ensures
        match outcome {
            SubMsgOutcome::Failed(msg) => r == Err::<String, ContractError>(
                ContractError::SubMsgFailed(*msg),
            ),
            SubMsgOutcome::Succeeded(events) => {
                &&& (forall|j: int|
                    0 <= j < events@.len() ==> !is_instantiate_event(#[trigger] events@[j]))
                    <==> r == Err::<String, ContractError>(
                    ContractError::InstantiateEventNotFound,
                )
                &&& r == Err::<String, ContractError>(ContractError::ContractAddressNotFound)
                    <==> exists|i: int|
                    is_first_instantiate(events@, i) && forall|j: int|
                        0 <= j < events@[i].attributes@.len() ==> !is_address_attribute(
                            #[trigger] events@[i].attributes@[j],
                        )
                &&& r matches Ok(a) ==> exists|i: int, k: int|
                    is_first_instantiate(events@, i) && is_first_address(
                        events@[i].attributes@,
                        k,
                    ) && a@ == keep_alphanumeric(events@[i].attributes@[k].value@)
                &&& r is Ok || r == Err::<String, ContractError>(
                    ContractError::InstantiateEventNotFound,
                ) || r == Err::<String, ContractError>(ContractError::ContractAddressNotFound)
            },
        },
{
    match outcome {
        SubMsgOutcome::Failed(msg) => Err(ContractError::SubMsgFailed(msg.clone())),
        SubMsgOutcome::Succeeded(events) => {
            let i = match find_instantiate_event(events) {
                None => {
                    return Err(ContractError::InstantiateEventNotFound);
                },
                Some(i) => i,
            };
            let attrs = &events[i].attributes;
            match find_address_attribute(attrs) {
                None => Err(ContractError::ContractAddressNotFound),
                Some(k) => Ok(sanitize_address(attrs[k].value.as_str())),
            }
        },
    }
}

} // verus!
