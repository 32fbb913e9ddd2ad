//! What the cache does on a miss: which upstream RPC call a request key
//! stands for, and the response text made from the call's outcome.
//!
//! Keys of the form `getBalance:<address>` ask for the balance of a base58
//! account address, `getEpochInfo` for the current epoch; anything else is
//! answered as unsupported without a call.

use crate::text::{
    concat_str, decimal, has_prefix, law_decimal_reads_back, push_decimal, starts_with_str, str_eq,
    writes_number,
};
use solana_sdk::pubkey::Pubkey;
use vstd::prelude::*;
use vstd::string::*;

verus! {

/// What `Pubkey::from_str` (base58 decoding into 32 bytes) gives for `text`:
/// the key's bytes, or the text of the parse error.
pub uninterp spec fn pubkey_from_str(text: Seq<char>) -> Result<Seq<u8>, Seq<char>>;

/// `<Pubkey as FromStr>::from_str`, the account's bytes taken out of the key,
/// the error turned into its display text.
#[verifier::external_body]
fn parse_pubkey(text: &str) -> (res: Result<[u8; 32], String>)
    ensures
        pubkey_from_str(text@) == match res {
            Ok(bytes) => Ok(bytes@),
            Err(message) => Err(message@),
        },
{
    match text.parse::<Pubkey>() {
        Ok(key) => Ok(key.to_bytes()),
        Err(e) => Err(e.to_string()),
    }
}

/// The key prefix of balance requests.
pub open spec fn balance_prefix() -> Seq<char> {
    "getBalance:"@
}

/// The key of epoch-info requests.
pub open spec fn epoch_info_key() -> Seq<char> {
    "getEpochInfo"@
}

/// The response to a key that names no supported call.
pub open spec fn unsupported_response() -> Seq<char> {
    "Unsupported RPC key"@
}

/// The response when the upstream call, or the key's address, failed.
pub open spec fn error_response(message: Seq<char>) -> Seq<char> {
    "Error: "@ + message
}

/// The response to a balance request.
pub open spec fn balance_text(address: Seq<char>, lamports: u64) -> Seq<char> {
    "Balance for "@ + address + ": "@ + decimal(lamports as nat) + " lamports"@
}

/// The response to an epoch-info request.
pub open spec fn epoch_info_text(epoch: u64, slot: u64, block_height: u64) -> Seq<char> {
    "Epoch: "@ + decimal(epoch as nat) + ", Slot: "@ + decimal(slot as nat) + ", Block height: "@
        + decimal(block_height as nat)
}

/// A plan as the specifications see it.
pub enum PlanView {
    /// Answer with this text.
    Respond(Seq<char>),
    /// Balance query for the address written as the text, with these key bytes.
    Balance(Seq<char>, Seq<u8>),
    /// Epoch-info query.
    EpochInfo,
}

/// The plan for a request key.
pub open spec fn plan_spec(key: Seq<char>) -> PlanView {
    if has_prefix(key, balance_prefix()) {
        let address = key.subrange(balance_prefix().len() as int, key.len() as int);
        match pubkey_from_str(address) {
            Ok(bytes) => PlanView::Balance(address, bytes),
            Err(message) => PlanView::Respond(error_response(message)),
        }
    } else if key == epoch_info_key() {
        PlanView::EpochInfo
    } else {
        PlanView::Respond(unsupported_response())
    }
}

/// What to do for a request key that missed the cache.
#[derive(Debug, PartialEq, Eq)]
pub enum UpstreamPlan {
    /// Answer with this text without calling the node.
    Respond(String),
    /// Ask the node for the balance of `pubkey`, written `address`.
    Balance { address: String, pubkey: [u8; 32] },
    /// Ask the node for its epoch information.
    EpochInfo,
}

impl UpstreamPlan {
    /// The plan as the specifications see it.
    pub open spec fn spec(&self) -> PlanView {
        match self {
            UpstreamPlan::Respond(text) => PlanView::Respond(text@),
            UpstreamPlan::Balance { address, pubkey } => PlanView::Balance(address@, pubkey@),
            UpstreamPlan::EpochInfo => PlanView::EpochInfo,
        }
    }
}

/// Decides the upstream call for `key`: a balance query when the key is
/// `getBalance:` followed by a valid base58 address (an invalid address is
/// answered with the parse error), an epoch-info query for `getEpochInfo`,
/// and the unsupported-key answer otherwise.
pub fn plan_upstream(key: &str) -> (plan: UpstreamPlan)
    ensures
        plan.spec() == plan_spec(key@),
{
    let prefix = "getBalance:";
    if starts_with_str(key, prefix) {
        let m = prefix.unicode_len();
        let n = key.unicode_len();
        let address = key.substring_char(m, n);
        match parse_pubkey(address) {
            Ok(bytes) => UpstreamPlan::Balance { address: String::from_str(address), pubkey: bytes },
            Err(message) => UpstreamPlan::Respond(concat_str("Error: ", message.as_str())),
        }
    } else if str_eq(key, "getEpochInfo") {
        UpstreamPlan::EpochInfo
    } else {
        UpstreamPlan::Respond(String::from_str("Unsupported RPC key"))
    }
}

/// The response to a balance request for `address`, from the call's outcome
/// (the balance in lamports, or the error's text).
pub fn balance_response(address: &str, outcome: Result<u64, String>) -> (text: String)
    ensures
        text@ == match outcome {
            Ok(lamports) => balance_text(address@, lamports),
            Err(message) => error_response(message@),
        },
{
    match outcome {
        Ok(lamports) => {
            let mut text = String::from_str("Balance for ");
            text.append(address);
            text.append(": ");
            push_decimal(&mut text, lamports as u128);
            text.append(" lamports");
            text
        },
        Err(message) => concat_str("Error: ", message.as_str()),
    }
}

/// The response to an epoch-info request, from the call's outcome (epoch,
/// absolute slot and block height, or the error's text).
pub fn epoch_info_response(outcome: Result<(u64, u64, u64), String>) -> (text: String)
    ensures
        text@ == match outcome {
            Ok(info) => epoch_info_text(info.0, info.1, info.2),
            Err(message) => error_response(message@),
        },
{
    match outcome {
        Ok(info) => {
            let (epoch, slot, block_height) = info;
            let mut text = String::from_str("Epoch: ");
            push_decimal(&mut text, epoch as u128);
            text.append(", Slot: ");
            push_decimal(&mut text, slot as u128);
            text.append(", Block height: ");
            push_decimal(&mut text, block_height as u128);
            text
        },
        Err(message) => concat_str("Error: ", message.as_str()),
    }
}

/// The balance text carries the whole lamport count: for every address and
/// every `u64` balance, it reads "Balance for <address>: <digits> lamports"
/// where the digits denote exactly that balance.
pub proof fn law_balance_text_carries_full_count(address: Seq<char>, lamports: u64)
    ensures
        exists|d: Seq<char>|
            balance_text(address, lamports) == "Balance for "@ + address + ": "@ + d + " lamports"@
                && #[trigger] writes_number(d, lamports as int),
{
    law_decimal_reads_back(lamports as nat);
    let d = decimal(lamports as nat);
    assert(writes_number(d, lamports as int));
}

/// The epoch-info text carries the three numbers whole: it reads
/// "Epoch: <e>, Slot: <s>, Block height: <h>" where the digit strings denote
/// exactly the epoch, the absolute slot and the block height.
pub proof fn law_epoch_info_text_carries_full_numbers(epoch: u64, slot: u64, block_height: u64)
    ensures
        exists|e: Seq<char>, s: Seq<char>, h: Seq<char>|
            epoch_info_text(epoch, slot, block_height) == "Epoch: "@ + e + ", Slot: "@ + s
                + ", Block height: "@ + h && #[trigger] writes_number(e, epoch as int)
                && #[trigger] writes_number(s, slot as int) && #[trigger] writes_number(
                h,
                block_height as int,
            ),
{
    law_decimal_reads_back(epoch as nat);
    law_decimal_reads_back(slot as nat);
    law_decimal_reads_back(block_height as nat);
    let e = decimal(epoch as nat);
    let s = decimal(slot as nat);
    let h = decimal(block_height as nat);
    assert(writes_number(e, epoch as int));
    assert(writes_number(s, slot as int));
    assert(writes_number(h, block_height as int));
}

/// Which call a key stands for: a balance query exactly for keys made of
/// `getBalance:` and an address that parses, for that address and its key
/// bytes; an epoch-info query exactly for the key `getEpochInfo`; keys of
/// neither form are answered as unsupported, and an address that does not
/// parse is answered with its parse error.
pub proof fn law_plan_by_key_form(key: Seq<char>)
    ensures
        plan_spec(key) matches PlanView::Balance(address, bytes) ==> key == balance_prefix()
            + address && pubkey_from_str(address) == Ok::<Seq<u8>, Seq<char>>(bytes),
        forall|address: Seq<char>| #[trigger] (balance_prefix() + address) == key ==> (
        pubkey_from_str(address) matches Ok(bytes) ==> plan_spec(key) == PlanView::Balance(
            address,
            bytes,
        )) && (pubkey_from_str(address) matches Err(m) ==> plan_spec(key) == PlanView::Respond(
            "Error: "@ + m,
        )),
        plan_spec(key) == PlanView::EpochInfo <==> key == epoch_info_key(),
        !has_prefix(key, balance_prefix()) && key != epoch_info_key() ==> plan_spec(key)
            == PlanView::Respond(unsupported_response()),
{
    reveal_strlit("getBalance:");
    reveal_strlit("getEpochInfo");
    assert(!has_prefix(epoch_info_key(), balance_prefix())) by {
        assert(epoch_info_key()[3] != balance_prefix()[3]);
    }
    if has_prefix(key, balance_prefix()) {
        let address = key.subrange(balance_prefix().len() as int, key.len() as int);
        assert(key =~= balance_prefix() + address);
        assert forall|a: Seq<char>| #[trigger] (balance_prefix() + a) == key implies a == address by {
            assert(a =~= key.subrange(balance_prefix().len() as int, key.len() as int));
        }
    } else {
        assert forall|a: Seq<char>| #[trigger] (balance_prefix() + a) != key by {
            if balance_prefix() + a == key {
                assert(key.subrange(0, balance_prefix().len() as int) =~= balance_prefix());
            }
        }
    }
}

} // verus!
