//! Mint schedules: when a token can be minted, and how much a mint yields.

use crate::error::{ClosedReason, MintError};
use vstd::prelude::*;

verus! {

/// The terms under which a token can be minted.
#[derive(Clone, Copy, Debug, PartialEq, Eq)]
pub struct Terms {
    /// What one mint yields; nothing where absent.
    pub amount: Option<u128>,
    /// How many mints are allowed; none where absent.
    pub cap: Option<u128>,
    /// First height of the window and first height after it, as absolute
    /// heights.
    pub height: (Option<u64>, Option<u64>),
    /// The same two bounds, counted from the block of the etching.
    pub offset: (Option<u64>, Option<u64>),
}

/// What the index records of an etched token.
#[derive(Clone, Copy, Debug, PartialEq, Eq)]
pub struct TokenEntry {
    /// Height of the block that holds the etching.
    pub block: u64,
    /// Number of decimal places in which amounts are shown.
    pub divisibility: u8,
    /// Number of mints so far.
    pub mints: u128,
    /// The glyph shown beside amounts.
    pub symbol: Option<char>,
    /// The mint terms; a token without them cannot be minted.
    pub terms: Option<Terms>,
}

/// `block + offset`, held at the largest height where the sum passes it.
pub open spec fn offset_height(block: u64, offset: u64) -> u64 {
    if block + offset > u64::MAX {
        u64::MAX
    } else {
        (block + offset) as u64
    }
}

/// The first height at which the terms allow a mint: the later of the
/// absolute and the relative opening, where both are set.
pub open spec fn window_start(block: u64, terms: Terms) -> Option<u64> {
    match (terms.offset.0, terms.height.0) {
        (Some(offset), Some(absolute)) => Some(
            if offset_height(block, offset) >= absolute {
                offset_height(block, offset)
            } else {
                absolute
            },
        ),
        (Some(offset), None) => Some(offset_height(block, offset)),
        (None, Some(absolute)) => Some(absolute),
        (None, None) => None,
    }
}

/// The first height at which the terms allow no mint any more: the earlier
/// of the absolute and the relative closing, where both are set.
pub open spec fn window_end(block: u64, terms: Terms) -> Option<u64> {
    match (terms.offset.1, terms.height.1) {
        (Some(offset), Some(absolute)) => Some(
            if offset_height(block, offset) <= absolute {
                offset_height(block, offset)
            } else {
                absolute
            },
        ),
        (Some(offset), None) => Some(offset_height(block, offset)),
        (None, Some(absolute)) => Some(absolute),
        (None, None) => None,
    }
}

/// Whether `height` lies in the window of the terms.
pub open spec fn in_window(block: u64, terms: Terms, height: u64) -> bool {
    &&& window_start(block, terms) matches Some(start) ==> start <= height
    &&& window_end(block, terms) matches Some(end) ==> height < end
}

/// What a mint in a block of height `height` yields, or why the schedule
/// allows none. The reasons are tried in this order: no terms, before the
/// window, after it, cap reached.
pub open spec fn mintable_at(entry: TokenEntry, height: u64) -> Result<u128, ClosedReason> {
    match entry.terms {
        None => Err(ClosedReason::Unmintable),
        Some(terms) => {
            if window_start(entry.block, terms) matches Some(start) && height < start {
                Err(ClosedReason::NotStarted(window_start(entry.block, terms).unwrap()))
            } else if window_end(entry.block, terms) matches Some(end) && height >= end {
                Err(ClosedReason::Ended(window_end(entry.block, terms).unwrap()))
            } else if entry.mints >= terms.cap.unwrap_or(0) {
                Err(ClosedReason::CapReached(terms.cap.unwrap_or(0)))
            } else {
                Ok(terms.amount.unwrap_or(0))
            }
        },
    }
}

/// The height of the block that a transaction made now can first enter: one
/// above the tip.
pub open spec fn next_height(tip: u64) -> u64 {
    if tip == u64::MAX {
        tip
    } else {
        (tip + 1) as u64
    }
}

/// What a mint made while the chain's tip is at `tip` yields: the schedule
/// is asked for the block after the tip.
pub open spec fn resolved(entry: Option<TokenEntry>, tip: u64) -> Result<u128, MintError> {
    match entry {
        None => Err(MintError::TokenNotFound),
        Some(entry) => match mintable_at(entry, next_height(tip)) {
            Ok(amount) => Ok(amount),
            Err(reason) => Err(MintError::MintingClosed(reason)),
        },
    }
}

fn offset_from(block: u64, offset: u64) -> (r: u64)
    ensures
        r == offset_height(block, offset),
{
    if offset > u64::MAX - block {
        u64::MAX
    } else {
        block + offset
    }
}

impl TokenEntry {
    /// The first height at which a mint is allowed, where the terms set one.
    pub fn start(&self) -> (r: Option<u64>)
        ensures
            r == match self.terms {
                Some(terms) => window_start(self.block, terms),
                None => None,
            },
    {
        match self.terms {
            None => None,
            Some(terms) => match (terms.offset.0, terms.height.0) {
                (Some(offset), Some(absolute)) => {
                    let relative: u64 = offset_from(self.block, offset);
                    if relative >= absolute {
                        Some(relative)
                    } else {
                        Some(absolute)
                    }
                },
                (Some(offset), None) => Some(offset_from(self.block, offset)),
                (None, Some(absolute)) => Some(absolute),
                (None, None) => None,
            },
        }
    }

    /// The first height at which no mint is allowed any more, where the
    /// terms set one.
    pub fn end(&self) -> (r: Option<u64>)
        ensures
            r == match self.terms {
                Some(terms) => window_end(self.block, terms),
                None => None,
            },
    {
        match self.terms {
            None => None,
            Some(terms) => match (terms.offset.1, terms.height.1) {
                (Some(offset), Some(absolute)) => {
                    let relative: u64 = offset_from(self.block, offset);
                    if relative <= absolute {
                        Some(relative)
                    } else {
                        Some(absolute)
                    }
                },
                (Some(offset), None) => Some(offset_from(self.block, offset)),
                (None, Some(absolute)) => Some(absolute),
                (None, None) => None,
            },
        }
    }

    /// What a mint in a block of height `height` yields, or why none is
    /// allowed there.
    pub fn mintable(&self, height: u64) -> (r: Result<u128, ClosedReason>)
        ensures
            r == mintable_at(*self, height),
    {
        let terms: Terms = match self.terms {
            None => {
                return Err(ClosedReason::Unmintable);
            },
            Some(terms) => terms,
        };
        if let Some(start) = self.start() {
            if height < start {
                return Err(ClosedReason::NotStarted(start));
            }
        }
        if let Some(end) = self.end() {
            if height >= end {
                return Err(ClosedReason::Ended(end));
            }
        }
        let cap: u128 = match terms.cap {
            Some(cap) => cap,
            None => 0,
        };
        if self.mints >= cap {
            return Err(ClosedReason::CapReached(cap));
        }
        match terms.amount {
            Some(amount) => Ok(amount),
            None => Ok(0),
        }
    }
}

/// Computes what a mint yields now. `entry` is what the index holds under
/// the token's identifier, `tip` the height of the chain's last block.
pub fn resolve(entry: Option<&TokenEntry>, tip: u64) -> (r: Result<u128, MintError>)
    ensures
        r == resolved(
            match entry {
                Some(e) => Some(*e),
                None => None,
            },
            tip,
        ),
{
    let entry: &TokenEntry = match entry {
        None => {
            return Err(MintError::TokenNotFound);
        },
        Some(entry) => entry,
    };
    let height: u64 = if tip == u64::MAX {
        tip
    } else {
        tip + 1
    };
    match entry.mintable(height) {
        Ok(amount) => Ok(amount),
        Err(reason) => Err(MintError::MintingClosed(reason)),
    }
}

/// Inside the window and under the cap a mint yields the amount that the
/// terms name, which is positive where the terms name a positive amount.
pub proof fn lemma_mint_inside_window(entry: TokenEntry, terms: Terms, amount: u128, tip: u64)
    requires
        entry.terms == Some(terms),
        terms.amount == Some(amount),
        amount > 0,
        in_window(entry.block, terms, next_height(tip)),
        entry.mints < terms.cap.unwrap_or(0),
    ensures
        resolved(Some(entry), tip) == Ok::<u128, MintError>(amount),
        resolved(Some(entry), tip).unwrap() > 0,
{
}

/// At every height outside the window the mint is refused as closed, with
/// the bound of the window that the height misses.
pub proof fn lemma_closed_outside_window(entry: TokenEntry, terms: Terms, tip: u64)
    requires
        entry.terms == Some(terms),
        !in_window(entry.block, terms, next_height(tip)),
    ensures
        resolved(Some(entry), tip) is Err,
        resolved(Some(entry), tip).unwrap_err() is MintingClosed,
        resolved(Some(entry), tip).unwrap_err()->MintingClosed_0 is NotStarted || resolved(
            Some(entry),
            tip,
        ).unwrap_err()->MintingClosed_0 is Ended,
{
}

/// A mint is only ever allowed inside the window.
pub proof fn lemma_mint_only_inside_window(entry: TokenEntry, tip: u64)
    requires
        resolved(Some(entry), tip) is Ok,
    ensures
        entry.terms is Some,
        in_window(entry.block, entry.terms.unwrap(), next_height(tip)),
        entry.mints < entry.terms.unwrap().cap.unwrap_or(0),
        resolved(Some(entry), tip).unwrap() == entry.terms.unwrap().amount.unwrap_or(0),
{
}

} // verus!
