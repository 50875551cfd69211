//! Assembling the unfunded transaction of a mint.

use crate::error::MintError;
use crate::rune::{mint_only, ArtifactView, RuneId, Runestone};
use crate::runestone::{deciphered, enciphered, lemma_mint_round_trip, lemma_mint_script_len};
use crate::transaction::{scripts_of, CandidateTransaction, OutPoint, TxInput, TxOutput};
use crate::trusted::{address_script, dust_value, dust_value_of, script_of_address, txid_from_hex};
use crate::trusted::{txid_of_hex, Network};
use crate::utxo::{parse_utxo, parsed_utxo};
use vstd::prelude::*;

verus! {

/// The postage of a mint whose caller names none.
pub const TARGET_POSTAGE: u64 = 10_000;

/// The longest script that relay policy accepts in an output that carries
/// data.
pub const MAX_CARRIER_SCRIPT_LEN: usize = 82;

/// The sequence number of a pinned input: it signals that the transaction
/// can be replaced and sets no relative lock time.
pub const ENABLE_RBF_NO_LOCKTIME: u32 = 0xffff_fffd;

/// The version of every transaction assembled here.
pub const TRANSACTION_VERSION: i32 = 2;

/// Where the minted units go.
#[derive(Clone, Debug, PartialEq, Eq)]
pub enum Destination {
    /// To the address that the caller wrote.
    Address(String),
    /// To a fresh change address of the wallet, given by its script.
    Change(Vec<u8>),
}

/// The script that a destination pays to on `network`; the caller's address
/// is refused unless it is an address that is valid there.
pub open spec fn destination_script(destination: Destination, network: Network) -> Result<
    Seq<u8>,
    MintError,
> {
    match destination {
        Destination::Address(text) => match script_of_address(text@, network) {
            Some(script) => Ok(script),
            None => Err(MintError::AddressNetworkMismatch),
        },
        Destination::Change(script) => Ok(script@),
    }
}

/// The output that `utxo` names: the bytes of its transaction id and its
/// index.
pub open spec fn pinned_outpoint(utxo: Seq<char>) -> Result<(Seq<u8>, u32), MintError> {
    match parsed_utxo(utxo) {
        None => Err(MintError::InvalidUtxoFormat),
        Some((txid, vout)) => match txid_of_hex(txid) {
            None => Err(MintError::InvalidTxid),
            Some(bytes) => Ok((bytes, vout)),
        },
    }
}

/// Why no transaction can be assembled, if so. The checks come in this
/// order: the postage against the dust limit of the destination, the size
/// of the script that carries the message, the pinned output.
pub open spec fn assembly_error(
    id: RuneId,
    script: Seq<u8>,
    postage: u64,
    pinned: Option<Seq<char>>,
) -> Option<MintError> {
    if postage <= dust_value_of(script) {
        Some(MintError::PostageBelowDust)
    } else if enciphered(mint_only(id)).len() > MAX_CARRIER_SCRIPT_LEN {
        Some(MintError::RunestoneTooLarge)
    } else {
        match pinned {
            Some(utxo) if pinned_outpoint(utxo) is Err => Some(pinned_outpoint(utxo)->Err_0),
            _ => None,
        }
    }
}

/// Whether `input` spends the output that `utxo` names, unsigned and with
/// the sequence number of pinned inputs.
pub open spec fn is_pinned_input(input: TxInput, utxo: Seq<char>) -> bool {
    &&& pinned_outpoint(utxo) == Ok::<(Seq<u8>, u32), MintError>(
        (input.previous_output.txid.bytes@, input.previous_output.vout),
    )
    &&& input.script_sig@.len() == 0
    &&& input.sequence == ENABLE_RBF_NO_LOCKTIME
    &&& input.witness@.len() == 0
}

/// Whether `candidate` is the unfunded transaction of a mint of `id` with
/// `postage` to `script`: the output that carries the message, of value
/// zero, then the payment; no input, or the pinned one alone.
pub open spec fn is_candidate(
    candidate: CandidateTransaction,
    id: RuneId,
    script: Seq<u8>,
    postage: u64,
    pinned: Option<Seq<char>>,
) -> bool {
    &&& candidate.version == TRANSACTION_VERSION
    &&& candidate.lock_time == 0
    &&& candidate.output@.len() == 2
    &&& candidate.output@[0].value == 0
    &&& candidate.output@[0].script_pubkey@ == enciphered(mint_only(id))
    &&& candidate.output@[1].value == postage
    &&& candidate.output@[1].script_pubkey@ == script
    &&& match pinned {
        None => candidate.input@.len() == 0,
        Some(utxo) => candidate.input@.len() == 1 && is_pinned_input(candidate.input@[0], utxo),
    }
}

/// The script that `destination` pays to on `network`.
pub fn resolve_destination(destination: &Destination, network: Network) -> (r: Result<
    Vec<u8>,
    MintError,
>)
    ensures
        match r {
            Ok(script) => destination_script(*destination, network) == Ok::<Seq<u8>, MintError>(
                script@,
            ),
            Err(e) => destination_script(*destination, network) == Err::<Seq<u8>, MintError>(e),
        },
{
    match destination {
        Destination::Address(text) => match address_script(text.as_str(), network) {
            Some(script) => Ok(script),
            None => Err(MintError::AddressNetworkMismatch),
        },
        Destination::Change(script) => Ok(script.clone()),
    }
}

/// Refuses a postage that does not exceed `dust`, the dust limit of the
/// destination.
pub fn check_postage(postage: u64, dust: u64) -> (r: Result<(), MintError>)
    ensures
        r == if postage <= dust {
            Err::<(), MintError>(MintError::PostageBelowDust)
        } else {
            Ok(())
        },
{
    if dust < postage {
        Ok(())
    } else {
        Err(MintError::PostageBelowDust)
    }
}

/// Refuses a script that is longer than relay policy accepts in an output
/// that carries data.
pub fn check_script_size(script: &[u8]) -> (r: Result<(), MintError>)
    ensures
        r == if script@.len() > MAX_CARRIER_SCRIPT_LEN {
            Err::<(), MintError>(MintError::RunestoneTooLarge)
        } else {
            Ok(())
        },
{
    if script.len() <= MAX_CARRIER_SCRIPT_LEN {
        Ok(())
    } else {
        Err(MintError::RunestoneTooLarge)
    }
}

/// The input that spends the output that `utxo` names.
pub fn pinned_input(utxo: &str) -> (r: Result<TxInput, MintError>)
    ensures
        match r {
            Ok(input) => is_pinned_input(input, utxo@),
            Err(e) => pinned_outpoint(utxo@) == Err::<(Seq<u8>, u32), MintError>(e),
        },
{
    let (text, vout) = match parse_utxo(utxo) {
        Ok(parts) => parts,
        Err(e) => {
            return Err(e);
        },
    };
    let txid = match txid_from_hex(text.as_str()) {
        Some(txid) => txid,
        None => {
            return Err(MintError::InvalidTxid);
        },
    };
    Ok(
        TxInput {
            previous_output: OutPoint { txid, vout },
            script_sig: Vec::new(),
            sequence: ENABLE_RBF_NO_LOCKTIME,
            witness: Vec::new(),
        },
    )
}

/// Assembles the unfunded transaction that mints the token `id` and pays
/// `postage` to `script`. With a pinned output the transaction spends it;
/// without, it has no input and the wallet chooses all of them.
pub fn assemble(id: RuneId, script: Vec<u8>, postage: u64, pinned: Option<&str>) -> (r: Result<
    CandidateTransaction,
    MintError,
>)
    ensures
        match r {
            Ok(candidate) => assembly_error(
                id,
                script@,
                postage,
                match pinned {
                    Some(utxo) => Some(utxo@),
                    None => None,
                },
            ) is None && is_candidate(
                candidate,
                id,
                script@,
                postage,
                match pinned {
                    Some(utxo) => Some(utxo@),
                    None => None,
                },
            ),
            Err(e) => assembly_error(
                id,
                script@,
                postage,
                match pinned {
                    Some(utxo) => Some(utxo@),
                    None => None,
                },
            ) == Some(e),
        },
{
    let dust: u64 = dust_value(script.as_slice());
    if let Err(e) = check_postage(postage, dust) {
        return Err(e);
    }
    let carrier: Vec<u8> = Runestone::mint(id).encipher();
    if let Err(e) = check_script_size(carrier.as_slice()) {
        return Err(e);
    }
    let mut input: Vec<TxInput> = Vec::new();
    if let Some(utxo) = pinned {
        match pinned_input(utxo) {
            Ok(pinned) => {
                input.push(pinned);
            },
            Err(e) => {
                return Err(e);
            },
        }
    }
    let mut output: Vec<TxOutput> = Vec::new();
    output.push(TxOutput { value: 0, script_pubkey: carrier });
    output.push(TxOutput { value: postage, script_pubkey: script });
    Ok(CandidateTransaction { version: TRANSACTION_VERSION, lock_time: 0, input, output })
}

/// Assembling fails for postage below dust exactly where the postage does
/// not exceed the dust limit of the destination's script.
pub proof fn lemma_postage_below_dust(
    id: RuneId,
    script: Seq<u8>,
    postage: u64,
    pinned: Option<Seq<char>>,
)
    ensures
        assembly_error(id, script, postage, pinned) == Some(MintError::PostageBelowDust)
            <==> postage <= dust_value_of(script),
{
    if postage > dust_value_of(script) {
        if let Some(utxo) = pinned {
            assert(pinned_outpoint(utxo) is Err ==> pinned_outpoint(utxo)->Err_0
                != MintError::PostageBelowDust);
        }
    }
}

/// Assembling fails for the size of the message's script exactly where
/// that script is longer than policy accepts; and the script of a message
/// that only mints never is.
pub proof fn lemma_runestone_too_large(
    id: RuneId,
    script: Seq<u8>,
    postage: u64,
    pinned: Option<Seq<char>>,
)
    ensures
        assembly_error(id, script, postage, pinned) == Some(MintError::RunestoneTooLarge)
            <==> enciphered(mint_only(id)).len() > MAX_CARRIER_SCRIPT_LEN,
        enciphered(mint_only(id)).len() <= MAX_CARRIER_SCRIPT_LEN,
{
    lemma_mint_script_len(id);
    if let Some(utxo) = pinned {
        assert(pinned_outpoint(utxo) is Err ==> pinned_outpoint(utxo)->Err_0
            != MintError::RunestoneTooLarge);
    }
}

/// What an assembled transaction carries reads back as the message that
/// mints `id` and says nothing else.
pub proof fn lemma_candidate_round_trip(
    candidate: CandidateTransaction,
    id: RuneId,
    script: Seq<u8>,
    postage: u64,
    pinned: Option<Seq<char>>,
)
    requires
        id.well_formed(),
        is_candidate(candidate, id, script, postage, pinned),
    ensures
        deciphered(scripts_of(candidate.output@)) == Some(
            ArtifactView::Runestone(mint_only(id)),
        ),
{
    lemma_mint_round_trip(id, scripts_of(candidate.output@), 0);
}

} // verus!
