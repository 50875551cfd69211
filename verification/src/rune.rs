//! Token identifiers, transfers, and the message that a transaction carries.

use vstd::prelude::*;

verus! {

/// Identifies an etched token by the block and the position in that block of
/// the transaction that etched it.
#[derive(Clone, Copy, Debug, PartialEq, Eq, Hash, Structural)]
pub struct RuneId {
    pub block: u64,
    pub tx: u32,
}

/// The identifier of the given block and position; none for a position
/// above zero in block zero, which identifies nothing.
pub open spec fn rune_id(block: u64, tx: u32) -> Option<RuneId> {
    if block == 0 && tx > 0 {
        None
    } else {
        Some(RuneId { block, tx })
    }
}

/// Whether `a` comes before `b` or equals it: by block, then by position.
pub open spec fn id_le(a: RuneId, b: RuneId) -> bool {
    a.block < b.block || (a.block == b.block && a.tx <= b.tx)
}

/// The identifier that follows `previous` at the given distance. The
/// position is counted from that of `previous` only within the same block.
pub open spec fn next_id(previous: RuneId, block: u128, tx: u128) -> Option<RuneId> {
    if block > u64::MAX || previous.block + block > u64::MAX || tx > u32::MAX {
        None
    } else if block == 0 {
        if previous.tx + tx > u32::MAX {
            None
        } else {
            rune_id(previous.block, (previous.tx + tx) as u32)
        }
    } else {
        rune_id((previous.block + block) as u64, tx as u32)
    }
}

/// The distance from `previous` to `next`, which `next_id` undoes; none
/// where `next` comes before `previous`.
pub open spec fn id_delta(previous: RuneId, next: RuneId) -> Option<(u128, u128)> {
    if next.block < previous.block {
        None
    } else if next.block == previous.block {
        if next.tx < previous.tx {
            None
        } else {
            Some((0, (next.tx - previous.tx) as u128))
        }
    } else {
        Some(((next.block - previous.block) as u128, next.tx as u128))
    }
}

impl RuneId {
    /// Whether this identifier can name a token.
    pub open spec fn well_formed(self) -> bool {
        self.block > 0 || self.tx == 0
    }

    /// The identifier of the given block and position, where there is one.
    pub fn new(block: u64, tx: u32) -> (r: Option<RuneId>)
        ensures
            r == rune_id(block, tx),
    {
        if block == 0 && tx > 0 {
            None
        } else {
            Some(RuneId { block, tx })
        }
    }

    /// The identifier at the given distance behind this one.
    pub fn next(self, block: u128, tx: u128) -> (r: Option<RuneId>)
        ensures
            r == next_id(self, block, tx),
    {
        if block > 0xffff_ffff_ffff_ffff || tx > 0xffff_ffff {
            return None;
        }
        let block_delta: u64 = block as u64;
        let tx_delta: u32 = tx as u32;
        if block_delta > u64::MAX - self.block {
            return None;
        }
        if block_delta == 0 {
            if tx_delta > u32::MAX - self.tx {
                return None;
            }
            RuneId::new(self.block, self.tx + tx_delta)
        } else {
            RuneId::new(self.block + block_delta, tx_delta)
        }
    }

    /// The distance from this identifier to `next`.
    pub fn delta(self, next: RuneId) -> (r: Option<(u128, u128)>)
        ensures
            r == id_delta(self, next),
    {
        if next.block < self.block {
            None
        } else if next.block == self.block {
            if next.tx < self.tx {
                None
            } else {
                Some((0, (next.tx - self.tx) as u128))
            }
        } else {
            Some(((next.block - self.block) as u128, next.tx as u128))
        }
    }

    /// The distance from this identifier to `next`, which does not come
    /// before it.
    pub fn distance(self, next: RuneId) -> (r: (u128, u128))
        requires
            id_le(self, next),
        ensures
            id_delta(self, next) == Some(r),
    {
        if next.block == self.block {
            (0, (next.tx - self.tx) as u128)
        } else {
            ((next.block - self.block) as u128, next.tx as u128)
        }
    }

    /// Whether this identifier comes before `other` or equals it.
    pub fn precedes(self, other: RuneId) -> (r: bool)
        ensures
            r == id_le(self, other),
    {
        self.block < other.block || (self.block == other.block && self.tx <= other.tx)
    }
}

/// Following a distance that was measured leads back to where it was
/// measured to.
pub proof fn lemma_delta_then_next(previous: RuneId, next: RuneId)
    requires
        next.well_formed(),
        id_le(previous, next),
    ensures
        id_delta(previous, next) matches Some(d) && next_id(previous, d.0, d.1) == Some(next),
{
}

/// A transfer: `amount` units of the token `id` to the output at index
/// `output`.
#[derive(Clone, Copy, Debug, PartialEq, Eq, Structural)]
pub struct Edict {
    pub id: RuneId,
    pub amount: u128,
    pub output: u32,
}

/// The transfer that the integers of a message give, in a transaction of
/// `outputs` outputs; none where the output index does not fit 32 bits or
/// lies more than one past the last output.
pub open spec fn edict_of(outputs: nat, id: RuneId, amount: u128, output: u128) -> Option<Edict> {
    if output > u32::MAX || output > outputs {
        None
    } else {
        Some(Edict { id, amount, output: output as u32 })
    }
}

impl Edict {
    /// The transfer that the integers of a message give, in a transaction
    /// of `outputs` outputs.
    pub fn from_integers(outputs: usize, id: RuneId, amount: u128, output: u128) -> (r: Option<
        Edict,
    >)
        ensures
            r == edict_of(outputs as nat, id, amount, output),
    {
        if output > 0xffff_ffff || output > outputs as u128 {
            None
        } else {
            Some(Edict { id, amount, output: output as u32 })
        }
    }
}

/// What is wrong with a message that was found malformed.
#[derive(Clone, Copy, Debug, PartialEq, Eq, Structural)]
pub enum Flaw {
    /// A transfer names an output that the transaction does not have.
    EdictOutput,
    /// A transfer's identifier overflows or names nothing.
    EdictRuneId,
    /// A push of the script announces more bytes than the script holds.
    InvalidScript,
    /// The script holds an opcode among its pushes.
    Opcode,
    /// The integers of the last transfer are incomplete.
    TrailingIntegers,
    /// A tag stands without its value.
    TruncatedField,
    /// A field with an even tag was not understood.
    UnrecognizedEvenTag,
    /// The pushed bytes are not a sequence of well-formed integers.
    Varint,
}

/// A message: transfers, a mint, and the output that receives what no
/// transfer assigns. The empty message sets none of them.
#[derive(Clone, Debug, PartialEq, Eq)]
pub struct Runestone {
    pub edicts: Vec<Edict>,
    pub mint: Option<RuneId>,
    pub pointer: Option<u32>,
}

/// A message as a mathematical value.
pub struct RunestoneView {
    pub edicts: Seq<Edict>,
    pub mint: Option<RuneId>,
    pub pointer: Option<u32>,
}

impl View for Runestone {
    type V = RunestoneView;

    open spec fn view(&self) -> RunestoneView {
        RunestoneView { edicts: self.edicts@, mint: self.mint, pointer: self.pointer }
    }
}

/// The message that mints the token `id` and says nothing else.
pub open spec fn mint_only(id: RuneId) -> RunestoneView {
    RunestoneView { edicts: Seq::empty(), mint: Some(id), pointer: None }
}

impl Runestone {
    /// The message that mints the token `id` and says nothing else.
    pub fn mint(id: RuneId) -> (r: Runestone)
        ensures
            r@ == mint_only(id),
    {
        Runestone { edicts: Vec::new(), mint: Some(id), pointer: None }
    }

    /// Whether this is the message that mints `id` and says nothing else.
    pub fn is_mint_of(&self, id: RuneId) -> (r: bool)
        ensures
            r == (self@ == mint_only(id)),
    {
        let same: bool = match (self.mint, self.pointer) {
            (Some(minted), None) => minted == id && self.edicts.len() == 0,
            _ => false,
        };
        proof {
            if same {
                assert(self.edicts@ =~= Seq::<Edict>::empty());
            }
        }
        same
    }
}

/// A malformed message. It still says which token its sender meant to mint,
/// where that could be read.
#[derive(Clone, Copy, Debug, PartialEq, Eq, Structural)]
pub struct Cenotaph {
    pub flaw: Flaw,
    pub mint: Option<RuneId>,
}

/// What a transaction carries: a message, or the remains of a malformed one.
#[derive(Clone, Debug, PartialEq, Eq)]
pub enum Artifact {
    Runestone(Runestone),
    Cenotaph(Cenotaph),
}

/// What a transaction carries, as a mathematical value.
pub enum ArtifactView {
    Runestone(RunestoneView),
    Cenotaph(Cenotaph),
}

impl View for Artifact {
    type V = ArtifactView;

    open spec fn view(&self) -> ArtifactView {
        match self {
            Artifact::Runestone(r) => ArtifactView::Runestone(r@),
            Artifact::Cenotaph(c) => ArtifactView::Cenotaph(*c),
        }
    }
}

} // verus!
