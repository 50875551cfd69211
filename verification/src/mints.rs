//! Several mints of one token in a row, each spending the same pinned
//! output.

use crate::assemble::TARGET_POSTAGE;
use crate::error::MintError;
use crate::mint::{postage_of, Mint, SpacedRune};
use vstd::prelude::*;

verus! {

/// The request for a batch of mints.
#[derive(Clone, Debug, PartialEq, Eq)]
pub struct Mints {
    /// The token to mint.
    pub rune: SpacedRune,
    /// The unspent output that every transaction of the batch must spend, as
    /// `txid:vout`. It is not looked up again between mints: the wallet is
    /// relied on to chain the unconfirmed transactions.
    pub utxo: String,
    /// How many mints to make; none for a number below one.
    pub n: i32,
    /// The value of the output that receives the minted units.
    pub postage: Option<u64>,
    /// The address that receives the minted units; a fresh change address
    /// of the wallet for each mint where none is named.
    pub destination: Option<String>,
}

/// The report of a batch: the token, and the report of each mint made, in
/// order.
#[derive(Clone, Debug, PartialEq, Eq)]
pub struct Output {
    pub rune: SpacedRune,
    pub mints: Vec<crate::mint::Output>,
}

/// Where a batch stands.
#[derive(Clone, Copy, Debug, PartialEq, Eq, Structural)]
pub enum Progress {
    /// The mint with this number, counted from one, is to be made next.
    Next(u32),
    /// All mints were made.
    Finished,
    /// The mint with this number failed, and none was tried after it.
    Failed(u32, MintError),
}

/// A batch under way: how many mints were asked for, the reports of those
/// made, and the failure that ended it, if one did.
#[derive(Debug, PartialEq, Eq)]
pub struct Batch {
    pub count: u32,
    pub completed: Vec<crate::mint::Output>,
    pub failure: Option<MintError>,
}

/// The number of mints that a request asks for.
pub open spec fn count_of(n: i32) -> u32 {
    if n > 0 {
        n as u32
    } else {
        0
    }
}

/// The number of the mint that follows `made` mints, counted from one.
pub open spec fn number_after(made: nat) -> u32 {
    if made >= u32::MAX {
        u32::MAX
    } else {
        (made + 1) as u32
    }
}

impl Batch {
    /// No more mints were made than asked for, and a batch that failed
    /// stopped short of the number asked for.
    pub open spec fn well_formed(&self) -> bool {
        &&& self.completed@.len() <= self.count
        &&& self.failure is Some ==> self.completed@.len() < self.count
    }

    /// Where the batch stands.
    pub open spec fn standing(&self) -> Progress {
        match self.failure {
            Some(error) => Progress::Failed(number_after(self.completed@.len()), error),
            None => if self.completed@.len() < self.count {
                Progress::Next(number_after(self.completed@.len()))
            } else {
                Progress::Finished
            },
        }
    }

    /// Where the batch stands.
    pub fn progress(&self) -> (r: Progress)
        ensures
            r == self.standing(),
    {
        let made: usize = self.completed.len();
        let number: u32 = if made >= 0xffff_ffff {
            u32::MAX
        } else {
            made as u32 + 1
        };
        match self.failure {
            Some(error) => Progress::Failed(number, error),
            None => if made < self.count as usize {
                Progress::Next(number)
            } else {
                Progress::Finished
            },
        }
    }

    /// Takes in how the pending mint ended. A report is kept; a failure
    /// ends the batch, and the reports of the mints made before it stay. A
    /// batch that is finished or has failed takes in nothing.
    pub fn record(&mut self, result: Result<crate::mint::Output, MintError>)
        ensures
            old(self).well_formed() ==> final(self).well_formed(),
            final(self).count == old(self).count,
            old(self).standing() is Next ==> match result {
                Ok(report) => final(self).completed@ == old(self).completed@.push(report)
                    && final(self).failure is None,
                Err(error) => final(self).completed@ == old(self).completed@
                    && final(self).failure == Some(error),
            },
            !(old(self).standing() is Next) ==> final(self).completed@ == old(self).completed@
                && final(self).failure == old(self).failure,
    {
        if self.failure.is_none() && self.completed.len() < self.count as usize {
            match result {
                Ok(report) => {
                    self.completed.push(report);
                },
                Err(error) => {
                    self.failure = Some(error);
                },
            }
        }
    }
}

impl Mints {
    /// The mint that every round of the batch makes: the same token, the
    /// same pinned output, the same destination, and the postage fixed.
    pub fn mint(&self) -> (r: Mint)
        ensures
            r.rune == self.rune,
            r.utxo matches Some(text) && text@ == self.utxo@,
            r.postage == Some(postage_of(self.postage)),
            match (self.destination, r.destination) {
                (Some(asked), Some(kept)) => asked@ == kept@,
                (None, None) => true,
                _ => false,
            },
    {
        let postage: u64 = match self.postage {
            Some(value) => value,
            None => TARGET_POSTAGE,
        };
        let destination: Option<String> = match &self.destination {
            Some(address) => Some(address.clone()),
            None => None,
        };
        Mint { rune: self.rune, utxo: Some(self.utxo.clone()), postage: Some(postage), destination }
    }

    /// Opens the batch, which needs an index that tracks tokens.
    pub fn begin(&self, has_rune_index: bool) -> (r: Result<Batch, MintError>)
        ensures
            match r {
                Ok(batch) => has_rune_index && batch.count == count_of(self.n)
                    && batch.completed@.len() == 0 && batch.failure is None
                    && batch.well_formed(),
                Err(e) => !has_rune_index && e == MintError::IndexMissing,
            },
    {
        if !has_rune_index {
            return Err(MintError::IndexMissing);
        }
        let count: u32 = if self.n > 0 {
            self.n as u32
        } else {
            0
        };
        Ok(Batch { count, completed: Vec::new(), failure: None })
    }

    /// The report of a batch that has come to its end.
    pub fn outcome(&self, batch: Batch) -> (r: Output)
        ensures
            r.rune == self.rune,
            r.mints == batch.completed,
    {
        Output { rune: self.rune, mints: batch.completed }
    }
}

} // verus!
