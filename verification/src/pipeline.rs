//! From the unfunded transaction to the signed one: what the wallet is asked
//! to do, in which order, and the check that what it signed still carries
//! the mint.

use crate::error::MintError;
use crate::rune::{mint_only, Artifact, ArtifactView, RuneId};
use crate::runestone::{decipher, deciphered, enciphered, is_carrier, lemma_mint_round_trip};
use crate::transaction::{output_values, scripts_of, TxOutput, Txid};
use crate::trusted::{decoded_transaction, deserialize_transaction, encoding_of, hex_encode};
use crate::trusted::{hex_of, outputs_of, serialize_transaction, transaction_outputs};
use crate::trusted::{transaction_txid, txid_of};
use vstd::prelude::*;

verus! {

/// The steps at which a mint can fail once its transaction is assembled.
#[derive(Clone, Copy, Debug, PartialEq, Eq, Structural)]
pub enum Stage {
    Lock,
    Fund,
    Sign,
    Verify,
}

/// A signed mint: the id of its transaction, and the transaction in
/// hexadecimal.
#[derive(Clone, Debug, PartialEq, Eq)]
pub struct SignedMint {
    pub txid: Txid,
    pub rawtx: String,
}

/// How far a mint has come.
#[derive(Debug, PartialEq, Eq)]
pub enum State {
    /// Assembled; the wallet's other token-bearing outputs are not locked
    /// yet.
    Unfunded,
    /// Those outputs are locked: funding cannot spend them.
    Locked,
    /// The wallet has added inputs and change for the fee.
    Funded,
    /// The wallet has signed; what it returned has not been looked at.
    Signed(Vec<u8>),
    /// What the wallet returned is a transaction that carries the mint.
    Verified(bitcoin::Transaction),
    /// The mint is ready to be reported.
    Done(SignedMint),
    /// The mint was given up at the stage named, for the reason named.
    Failed(Stage, MintError),
}

/// What the wallet answered, or the go-ahead for a step that needs no
/// wallet.
#[derive(Clone, Debug, PartialEq, Eq)]
pub enum Event {
    /// Locking the outputs succeeded, or not.
    Locked(bool),
    /// Funding succeeded, or not.
    Funded(bool),
    /// The signed transaction, or nothing where signing failed.
    Signed(Option<Vec<u8>>),
    /// Go on with the step that is pending.
    Proceed,
}

/// What is to be done next.
#[derive(Clone, Copy, Debug, PartialEq, Eq, Structural)]
pub enum Action {
    /// Ask the wallet to lock its outputs that bear tokens or inscriptions.
    Lock,
    /// Ask the wallet to fund the transaction at the fee rate wanted.
    Fund,
    /// Ask the wallet to sign the funded transaction.
    Sign,
    /// Nothing is asked of the wallet: hand in `Event::Proceed`.
    Proceed,
    /// Report the signed mint.
    Emit,
    /// Report the failure. Nothing was handed out to broadcast.
    Abort,
}

/// The output scripts of a transaction, in order.
pub open spec fn carried_scripts(transaction: bitcoin::Transaction) -> Seq<Seq<u8>> {
    Seq::new(outputs_of(transaction).len(), |i: int| outputs_of(transaction)[i].1)
}

/// Whether a transaction carries the message that mints `id` and says
/// nothing else.
pub open spec fn carries_mint(transaction: bitcoin::Transaction, id: RuneId) -> bool {
    deciphered(carried_scripts(transaction)) == Some(ArtifactView::Runestone(mint_only(id)))
}

/// What the check of signed bytes yields: the transaction that they encode,
/// where it carries the mint of `id`.
pub open spec fn verified(bytes: Seq<u8>, id: RuneId) -> Result<bitcoin::Transaction, MintError> {
    match decoded_transaction(bytes) {
        None => Err(MintError::SigningFailed),
        Some(transaction) => if carries_mint(transaction, id) {
            Ok(transaction)
        } else {
            Err(MintError::IntegrityViolation)
        },
    }
}

/// The step that is pending in each state.
pub open spec fn pending_in(state: State) -> Action {
    match state {
        State::Unfunded => Action::Lock,
        State::Locked => Action::Fund,
        State::Funded => Action::Sign,
        State::Signed(_) => Action::Proceed,
        State::Verified(_) => Action::Proceed,
        State::Done(_) => Action::Emit,
        State::Failed(_, _) => Action::Abort,
    }
}

/// Whether `next` is a state that follows `state` on `event` in a mint of
/// `id`. An event that does not answer the pending step changes nothing,
/// and nothing leaves the two final states.
pub open spec fn follows(state: State, event: Event, id: RuneId, next: State) -> bool {
    match (state, event) {
        (State::Unfunded, Event::Locked(true)) => next == State::Locked,
        (State::Unfunded, Event::Locked(false)) => next == State::Failed(
            Stage::Lock,
            MintError::FundingFailed,
        ),
        (State::Locked, Event::Funded(true)) => next == State::Funded,
        (State::Locked, Event::Funded(false)) => next == State::Failed(
            Stage::Fund,
            MintError::FundingFailed,
        ),
        (State::Funded, Event::Signed(Some(bytes))) => next matches State::Signed(held)
            && held@ == bytes@,
        (State::Funded, Event::Signed(None)) => next == State::Failed(
            Stage::Sign,
            MintError::SigningFailed,
        ),
        (State::Signed(bytes), Event::Proceed) => match verified(bytes@, id) {
            Ok(transaction) => next == State::Verified(transaction),
            Err(MintError::SigningFailed) => next == State::Failed(
                Stage::Sign,
                MintError::SigningFailed,
            ),
            Err(e) => next == State::Failed(Stage::Verify, e),
        },
        (State::Verified(transaction), Event::Proceed) => next matches State::Done(signed)
            && signed.txid.bytes@ == txid_of(transaction) && signed.rawtx@ == hex_of(
            encoding_of(transaction),
        ),
        _ => next == state,
    }
}

/// Accepts the message that a signed transaction carries only if it is the
/// one that mints `id` and says nothing else.
pub fn check_artifact(artifact: &Option<Artifact>, id: RuneId) -> (r: Result<(), MintError>)
    ensures
        r == if artifact matches Some(a) && a@ == ArtifactView::Runestone(mint_only(id)) {
            Ok::<(), MintError>(())
        } else {
            Err(MintError::IntegrityViolation)
        },
{
    match artifact {
        Some(Artifact::Runestone(message)) => {
            if message.is_mint_of(id) {
                Ok(())
            } else {
                Err(MintError::IntegrityViolation)
            }
        },
        _ => Err(MintError::IntegrityViolation),
    }
}

/// Reads signed bytes back as a transaction and checks that it carries the
/// mint of `id`, whatever else the wallet did to it.
pub fn verify_signed(bytes: &[u8], id: RuneId) -> (r: Result<bitcoin::Transaction, MintError>)
    ensures
        r == verified(bytes@, id),
{
    let transaction = match deserialize_transaction(bytes) {
        Some(transaction) => transaction,
        None => {
            return Err(MintError::SigningFailed);
        },
    };
    let outputs: Vec<TxOutput> = transaction_outputs(&transaction);
    proof {
        assert(output_values(outputs@).len() == outputs@.len());
        assert forall|i: int| 0 <= i < outputs@.len() implies scripts_of(outputs@)[i]
            == carried_scripts(transaction)[i] by {
            assert(output_values(outputs@)[i].1 == outputs@[i].script_pubkey@);
        }
        assert(scripts_of(outputs@) =~= carried_scripts(transaction));
    }
    let artifact: Option<Artifact> = decipher(&outputs);
    match check_artifact(&artifact, id) {
        Ok(()) => Ok(transaction),
        Err(e) => Err(e),
    }
}

/// The id and the hexadecimal form of a signed transaction.
pub fn signed_mint(transaction: &bitcoin::Transaction) -> (r: SignedMint)
    ensures
        r.txid.bytes@ == txid_of(*transaction),
        r.rawtx@ == hex_of(encoding_of(*transaction)),
{
    let bytes: Vec<u8> = serialize_transaction(transaction);
    SignedMint { txid: transaction_txid(transaction), rawtx: hex_encode(bytes.as_slice()) }
}

/// Signed bytes pass the check wherever they encode a transaction whose
/// first carrying script is still the one that was written for the mint of
/// `id`, whatever inputs and outputs were added around it.
pub proof fn lemma_untouched_message_verifies(
    bytes: Seq<u8>,
    transaction: bitcoin::Transaction,
    id: RuneId,
    at: int,
)
    requires
        id.well_formed(),
        decoded_transaction(bytes) == Some(transaction),
        0 <= at < outputs_of(transaction).len(),
        outputs_of(transaction)[at].1 == enciphered(mint_only(id)),
        forall|j: int| 0 <= j < at ==> !is_carrier(#[trigger] outputs_of(transaction)[j].1),
    ensures
        verified(bytes, id) == Ok::<bitcoin::Transaction, MintError>(transaction),
{
    let scripts = carried_scripts(transaction);
    assert forall|j: int| 0 <= j < at implies !is_carrier(#[trigger] scripts[j]) by {
        assert(!is_carrier(outputs_of(transaction)[j].1));
    }
    lemma_mint_round_trip(id, scripts, at);
}

/// A mint on its way from assembled to signed.
#[derive(Debug, PartialEq, Eq)]
pub struct Pipeline {
    pub id: RuneId,
    pub state: State,
}

impl Pipeline {
    /// The pipeline of a mint of `id` whose transaction was just assembled.
    pub fn start(id: RuneId) -> (r: Pipeline)
        ensures
            r.id == id,
            r.state == State::Unfunded,
    {
        Pipeline { id, state: State::Unfunded }
    }

    /// The step that is pending.
    pub fn pending(&self) -> (r: Action)
        ensures
            r == pending_in(self.state),
    {
        match &self.state {
            State::Unfunded => Action::Lock,
            State::Locked => Action::Fund,
            State::Funded => Action::Sign,
            State::Signed(_) => Action::Proceed,
            State::Verified(_) => Action::Proceed,
            State::Done(_) => Action::Emit,
            State::Failed(_, _) => Action::Abort,
        }
    }

    /// The pipeline after `event`.
    pub fn advance(self, event: Event) -> (r: Pipeline)
        ensures
            r.id == self.id,
            follows(self.state, event, self.id, r.state),
    {
        let id: RuneId = self.id;
        let state: State = match (self.state, event) {
            (State::Unfunded, Event::Locked(true)) => State::Locked,
            (State::Unfunded, Event::Locked(false)) => State::Failed(
                Stage::Lock,
                MintError::FundingFailed,
            ),
            (State::Locked, Event::Funded(true)) => State::Funded,
            (State::Locked, Event::Funded(false)) => State::Failed(
                Stage::Fund,
                MintError::FundingFailed,
            ),
            (State::Funded, Event::Signed(Some(bytes))) => State::Signed(bytes),
            (State::Funded, Event::Signed(None)) => State::Failed(
                Stage::Sign,
                MintError::SigningFailed,
            ),
            (State::Signed(bytes), Event::Proceed) => match verify_signed(bytes.as_slice(), id) {
                Ok(transaction) => State::Verified(transaction),
                Err(MintError::SigningFailed) => State::Failed(
                    Stage::Sign,
                    MintError::SigningFailed,
                ),
                Err(e) => State::Failed(Stage::Verify, e),
            },
            (State::Verified(transaction), Event::Proceed) => State::Done(signed_mint(&transaction)),
            (state, _) => state,
        };
        Pipeline { id, state }
    }
}

} // verus!
