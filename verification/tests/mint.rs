use rune_mint::assemble::Destination;
use rune_mint::error::{ClosedReason, MintError};
use rune_mint::mint::{resolve_mint, Mint, Output, Pile, SpacedRune};
use rune_mint::mints::{Batch, Mints, Progress};
use rune_mint::pipeline::{Event, Pipeline, SignedMint, State};
use rune_mint::rune::{Artifact, RuneId, Runestone};
use rune_mint::runestone::decipher;
use rune_mint::schedule::{Terms, TokenEntry};
use rune_mint::transaction::{CandidateTransaction, TxOutput, Txid};
use rune_mint::trusted::Network;

const TXID: &str = "4a5e1e4baab89f3a32518a88c31bc87f618f76673e2cc77ab2127b7afdeda33b";
const TESTNET_P2WPKH: &str = "tb1qw508d6qejxtdg4y5r3zarvary0c5xw7kxpjzsx";

fn rune() -> SpacedRune {
    // AAAAAAAAAAAAA
    SpacedRune { rune: 99246114928149462, spacers: 0 }
}

fn id() -> RuneId {
    RuneId { block: 90, tx: 1 }
}

fn entry() -> TokenEntry {
    TokenEntry {
        block: 90,
        divisibility: 2,
        mints: 0,
        symbol: Some('\u{a4}'),
        terms: Some(Terms {
            amount: Some(1000),
            cap: Some(100),
            height: (Some(100), None),
            offset: (None, None),
        }),
    }
}

fn destination_script() -> Vec<u8> {
    let mut script = vec![0x00, 0x14];
    script.extend_from_slice(&[0x75, 0x1e, 0x76, 0xe8, 0x19, 0x91, 0x96, 0xd4, 0x54, 0x94]);
    script.extend_from_slice(&[0x1c, 0x45, 0xd1, 0xb3, 0xa3, 0x23, 0xf1, 0x43, 0x3b, 0xd6]);
    script
}

fn request() -> Mint {
    Mint {
        rune: rune(),
        utxo: None,
        postage: Some(10_000),
        destination: Some(TESTNET_P2WPKH.to_string()),
    }
}

fn address() -> Destination {
    Destination::Address(TESTNET_P2WPKH.to_string())
}

fn to_bitcoin(candidate: &CandidateTransaction) -> bitcoin::Transaction {
    let mut input = Vec::new();
    for i in &candidate.input {
        input.push(bitcoin::TxIn {
            previous_output: bitcoin::OutPoint {
                txid: bitcoin::hashes::Hash::from_byte_array(i.previous_output.txid.bytes),
                vout: i.previous_output.vout,
            },
            script_sig: bitcoin::ScriptBuf::from_bytes(i.script_sig.clone()),
            sequence: bitcoin::Sequence(i.sequence),
            witness: bitcoin::Witness::from_slice(&i.witness),
        });
    }
    let mut output = Vec::new();
    for o in &candidate.output {
        output.push(bitcoin::TxOut {
            value: o.value,
            script_pubkey: bitcoin::ScriptBuf::from_bytes(o.script_pubkey.clone()),
        });
    }
    bitcoin::Transaction {
        version: candidate.version,
        lock_time: bitcoin::absolute::LockTime::from_consensus(candidate.lock_time),
        input,
        output,
    }
}

// A wallet that funds with one input and a change output, and signs by
// filling in a witness.
fn fund_and_sign(candidate: &CandidateTransaction) -> Vec<u8> {
    let mut transaction = to_bitcoin(candidate);
    transaction.input.push(bitcoin::TxIn {
        previous_output: bitcoin::OutPoint {
            txid: bitcoin::hashes::Hash::from_byte_array([9; 32]),
            vout: 2,
        },
        script_sig: bitcoin::ScriptBuf::new(),
        sequence: bitcoin::Sequence(0xffff_fffd),
        witness: bitcoin::Witness::new(),
    });
    transaction.output.push(bitcoin::TxOut {
        value: 1_234,
        script_pubkey: bitcoin::ScriptBuf::from_bytes(destination_script()),
    });
    for input in transaction.input.iter_mut() {
        input.witness = bitcoin::Witness::from_slice(&[vec![3u8; 64]]);
    }
    bitcoin::consensus::serialize(&transaction)
}

fn mint_once(mint: &Mint, tip: u64, found: Option<(RuneId, TokenEntry)>) -> Result<Output, MintError> {
    let (id, pile) = resolve_mint(true, tip, found)?;
    let candidate = mint.candidate(id, &address(), Network::Testnet)?;
    let mut pipeline = Pipeline::start(id)
        .advance(Event::Locked(true))
        .advance(Event::Funded(true))
        .advance(Event::Signed(Some(fund_and_sign(&candidate))));
    loop {
        pipeline = match pipeline.state {
            State::Done(signed) => return Ok(mint.outcome(pile, signed)),
            State::Failed(_, error) => return Err(error),
            _ => pipeline.advance(Event::Proceed),
        };
    }
}

#[test]
fn mint_end_to_end() {
    let mint = request();
    assert_eq!(entry().mintable(100), Ok(1000));
    let (found, pile) = resolve_mint(true, 99, Some((id(), entry()))).unwrap();
    assert_eq!(found, id());
    assert_eq!(pile, Pile { amount: 1000, divisibility: 2, symbol: Some('\u{a4}') });
    let candidate = mint.candidate(found, &address(), Network::Testnet).unwrap();
    assert!(candidate.input.is_empty());
    assert_eq!(
        candidate.output,
        vec![
            TxOutput { value: 0, script_pubkey: Runestone::mint(id()).encipher() },
            TxOutput { value: 10_000, script_pubkey: destination_script() },
        ]
    );
    let signed = fund_and_sign(&candidate);
    let decoded: bitcoin::Transaction = bitcoin::consensus::deserialize(&signed).unwrap();
    let outputs: Vec<TxOutput> = decoded
        .output
        .iter()
        .map(|o| TxOutput { value: o.value, script_pubkey: o.script_pubkey.to_bytes() })
        .collect();
    assert_eq!(decipher(&outputs), Some(Artifact::Runestone(Runestone::mint(id()))));
    let report = mint_once(&mint, 99, Some((id(), entry()))).unwrap();
    assert_eq!(report.rune, rune());
    assert_eq!(report.pile, pile);
    assert_eq!(report.rawtx, hex::encode(&signed));
    assert_eq!(report.mint.bytes, bitcoin::hashes::Hash::to_byte_array(decoded.txid()));
}

#[test]
fn mint_resolve_errors_in_order() {
    assert_eq!(resolve_mint(false, 99, None), Err(MintError::IndexMissing));
    assert_eq!(resolve_mint(false, 99, Some((id(), entry()))), Err(MintError::IndexMissing));
    assert_eq!(resolve_mint(true, 99, None), Err(MintError::TokenNotFound));
    assert_eq!(
        resolve_mint(true, 98, Some((id(), entry()))),
        Err(MintError::MintingClosed(ClosedReason::NotStarted(100)))
    );
}

#[test]
fn mint_postage_defaults() {
    let mut mint = request();
    assert_eq!(mint.postage(), 10_000);
    mint.postage = None;
    assert_eq!(mint.postage(), 10_000);
    mint.postage = Some(294);
    assert_eq!(mint.postage(), 294);
    assert_eq!(mint.candidate(id(), &address(), Network::Testnet), Err(MintError::PostageBelowDust));
    mint.postage = None;
    let candidate = mint.candidate(id(), &address(), Network::Testnet).unwrap();
    assert_eq!(candidate.output[1].value, 10_000);
}

#[test]
fn mint_candidate_checks_the_destination_first() {
    let mut mint = request();
    mint.postage = Some(1);
    mint.utxo = Some("abc".to_string());
    assert_eq!(mint.candidate(id(), &address(), Network::Bitcoin), Err(MintError::AddressNetworkMismatch));
    assert_eq!(mint.candidate(id(), &address(), Network::Testnet), Err(MintError::PostageBelowDust));
    mint.postage = None;
    assert_eq!(mint.candidate(id(), &address(), Network::Testnet), Err(MintError::InvalidUtxoFormat));
    mint.utxo = Some("abc:0".to_string());
    assert_eq!(mint.candidate(id(), &address(), Network::Testnet), Err(MintError::InvalidTxid));
    mint.utxo = Some(format!("{}:0", TXID));
    assert_eq!(mint.candidate(id(), &address(), Network::Testnet).map(|c| c.input.len()), Ok(1));
    let change = Destination::Change(destination_script());
    assert_eq!(mint.candidate(id(), &change, Network::Bitcoin).map(|c| c.output.len()), Ok(2));
}

#[test]
fn mint_outcome_carries_the_signed_mint() {
    let pile = Pile { amount: 5, divisibility: 0, symbol: None };
    let signed = SignedMint { txid: Txid { bytes: [4; 32] }, rawtx: "00".to_string() };
    let report = request().outcome(pile, signed);
    assert_eq!(
        report,
        Output { rune: rune(), pile, mint: Txid { bytes: [4; 32] }, rawtx: "00".to_string() }
    );
}

fn batch_request(n: i32) -> Mints {
    Mints {
        rune: rune(),
        utxo: format!("{}:1", TXID),
        n,
        postage: None,
        destination: Some(TESTNET_P2WPKH.to_string()),
    }
}

// Runs a batch against a wallet that accepts the pinned output `accepts`
// times and then refuses it as already spent.
fn run_batch(request: &Mints, accepts: u32) -> Batch {
    let mut batch = request.begin(true).unwrap();
    let mint = request.mint();
    let mut calls = 0;
    while let Progress::Next(_) = batch.progress() {
        calls += 1;
        let result = if calls > accepts {
            Err(MintError::FundingFailed)
        } else {
            mint_once(&mint, 99, Some((id(), entry())))
        };
        batch.record(result);
    }
    batch
}

#[test]
fn batch_stops_at_the_first_failure() {
    let request = batch_request(3);
    let batch = run_batch(&request, 1);
    assert_eq!(batch.progress(), Progress::Failed(2, MintError::FundingFailed));
    assert_eq!(batch.completed.len(), 1);
    assert_eq!(batch.count, 3);
    let report = request.outcome(batch);
    assert_eq!(report.rune, rune());
    assert_eq!(report.mints.len(), 1);
    assert_eq!(report.mints[0].pile.amount, 1000);
}

#[test]
fn batch_runs_all_mints() {
    let request = batch_request(3);
    let batch = run_batch(&request, 3);
    assert_eq!(batch.progress(), Progress::Finished);
    assert_eq!(batch.completed.len(), 3);
    assert_eq!(batch.failure, None);
    assert_eq!(batch.completed[0], batch.completed[2]);
}

#[test]
fn batch_needs_the_rune_index() {
    assert_eq!(batch_request(3).begin(false), Err(MintError::IndexMissing));
}

#[test]
fn batch_of_no_mints_is_finished_at_once() {
    for n in [0, -1, i32::MIN] {
        let batch = batch_request(n).begin(true).unwrap();
        assert_eq!(batch.count, 0);
        assert_eq!(batch.progress(), Progress::Finished);
    }
    assert_eq!(batch_request(i32::MAX).begin(true).unwrap().count, i32::MAX as u32);
}

#[test]
fn batch_counts_from_one_and_ignores_late_results() {
    let mut batch = batch_request(2).begin(true).unwrap();
    assert_eq!(batch.progress(), Progress::Next(1));
    batch.record(mint_once(&request(), 99, Some((id(), entry()))));
    assert_eq!(batch.progress(), Progress::Next(2));
    batch.record(Err(MintError::IntegrityViolation));
    assert_eq!(batch.progress(), Progress::Failed(2, MintError::IntegrityViolation));
    batch.record(mint_once(&request(), 99, Some((id(), entry()))));
    batch.record(Err(MintError::SigningFailed));
    assert_eq!(batch.progress(), Progress::Failed(2, MintError::IntegrityViolation));
    assert_eq!(batch.completed.len(), 1);
}

#[test]
fn batch_mint_pins_the_same_output_every_time() {
    let request = batch_request(3);
    let mint = request.mint();
    assert_eq!(mint.utxo, Some(format!("{}:1", TXID)));
    assert_eq!(mint.postage, Some(10_000));
    assert_eq!(mint.rune, rune());
    assert_eq!(mint.destination, request.destination);
    let first = request.mint().candidate(id(), &address(), Network::Testnet).unwrap();
    let second = request.mint().candidate(id(), &address(), Network::Testnet).unwrap();
    assert_eq!(first, second);
    assert_eq!(first.input.len(), 1);
}
