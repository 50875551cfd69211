//! One mint, from the request to the report.

use crate::assemble::{assemble, assembly_error, destination_script, is_candidate};
use crate::assemble::{resolve_destination, Destination, TARGET_POSTAGE};
use crate::error::MintError;
use crate::pipeline::SignedMint;
use crate::rune::RuneId;
use crate::schedule::{resolve, resolved, TokenEntry};
use crate::transaction::{CandidateTransaction, Txid};
use crate::trusted::Network;
use vstd::prelude::*;

verus! {

/// A token's name as a number, and a bit for each place between two of its
/// letters where a spacer is shown.
#[derive(Clone, Copy, Debug, PartialEq, Eq, Structural)]
pub struct SpacedRune {
    pub rune: u128,
    pub spacers: u32,
}

/// An amount of a token, with what is needed to show it.
#[derive(Clone, Copy, Debug, PartialEq, Eq)]
pub struct Pile {
    pub amount: u128,
    pub divisibility: u8,
    pub symbol: Option<char>,
}

/// The report of a mint.
#[derive(Clone, Debug, PartialEq, Eq)]
pub struct Output {
    pub rune: SpacedRune,
    pub pile: Pile,
    pub mint: Txid,
    pub rawtx: String,
}

/// The request for a mint.
#[derive(Clone, Debug, PartialEq, Eq)]
pub struct Mint {
    /// The token to mint.
    pub rune: SpacedRune,
    /// An unspent output that the transaction must spend, as `txid:vout`.
    pub utxo: Option<String>,
    /// The value of the output that receives the minted units.
    pub postage: Option<u64>,
    /// The address that receives the minted units; a fresh change address
    /// of the wallet where none is named.
    pub destination: Option<String>,
}

/// What the index holds under a token's name, or why the mint cannot go
/// on: the index does not track tokens, the token was never etched, or its
/// schedule refuses a mint in the block after `tip`.
pub open spec fn resolved_mint(
    has_rune_index: bool,
    tip: u64,
    found: Option<(RuneId, TokenEntry)>,
) -> Result<(RuneId, Pile), MintError> {
    if !has_rune_index {
        Err(MintError::IndexMissing)
    } else {
        match found {
            None => Err(MintError::TokenNotFound),
            Some((id, entry)) => match resolved(Some(entry), tip) {
                Ok(amount) => Ok(
                    (id, Pile { amount, divisibility: entry.divisibility, symbol: entry.symbol }),
                ),
                Err(e) => Err(e),
            },
        }
    }
}

/// The postage of a request: the one it names, else the default.
pub open spec fn postage_of(postage: Option<u64>) -> u64 {
    match postage {
        Some(value) => value,
        None => TARGET_POSTAGE,
    }
}

/// The pinned output of a request, as text.
pub open spec fn pinned_of(utxo: Option<String>) -> Option<Seq<char>> {
    match utxo {
        Some(text) => Some(text@),
        None => None,
    }
}

/// Finds the token's identifier and what a mint of it yields now.
/// `has_rune_index` says whether the index tracks tokens, `tip` is the
/// height of the chain's last block, `found` what the index holds under the
/// token's name.
pub fn resolve_mint(has_rune_index: bool, tip: u64, found: Option<(RuneId, TokenEntry)>) -> (r:
    Result<(RuneId, Pile), MintError>)
    ensures
        r == resolved_mint(has_rune_index, tip, found),
{
    if !has_rune_index {
        return Err(MintError::IndexMissing);
    }
    let (id, entry) = match found {
        None => {
            return Err(MintError::TokenNotFound);
        },
        Some(found) => found,
    };
    match resolve(Some(&entry), tip) {
        Ok(amount) => Ok((id, Pile { amount, divisibility: entry.divisibility, symbol: entry.symbol })),
        Err(e) => Err(e),
    }
}

impl Mint {
    /// The postage of this mint.
    pub fn postage(&self) -> (r: u64)
        ensures
            r == postage_of(self.postage),
    {
        match self.postage {
            Some(value) => value,
            None => TARGET_POSTAGE,
        }
    }

    /// Assembles the unfunded transaction of this mint of the token `id` on
    /// `network`, which pays to `destination`. The destination is checked
    /// first, then the postage, the size of the message's script and the
    /// pinned output.
    pub fn candidate(&self, id: RuneId, destination: &Destination, network: Network) -> (r: Result<
        CandidateTransaction,
        MintError,
    >)
        ensures
            match destination_script(*destination, network) {
                Err(e) => r == Err::<CandidateTransaction, MintError>(e),
                Ok(script) => match r {
                    Ok(candidate) => assembly_error(
                        id,
                        script,
                        postage_of(self.postage),
                        pinned_of(self.utxo),
                    ) is None && is_candidate(
                        candidate,
                        id,
                        script,
                        postage_of(self.postage),
                        pinned_of(self.utxo),
                    ),
                    Err(e) => assembly_error(
                        id,
                        script,
                        postage_of(self.postage),
                        pinned_of(self.utxo),
                    ) == Some(e),
                },
            },
    {
        let script: Vec<u8> = match resolve_destination(destination, network) {
            Ok(script) => script,
            Err(e) => {
                return Err(e);
            },
        };
        let pinned: Option<&str> = match &self.utxo {
            Some(text) => Some(text.as_str()),
            None => None,
        };
        assemble(id, script, self.postage(), pinned)
    }

    /// The report of this mint, once signed.
    pub fn outcome(&self, pile: Pile, signed: SignedMint) -> (r: Output)
        ensures
            r.rune == self.rune,
            r.pile == pile,
            r.mint == signed.txid,
            r.rawtx == signed.rawtx,
    {
        Output { rune: self.rune, pile, mint: signed.txid, rawtx: signed.rawtx }
    }
}

} // verus!
