use rune_mint::assemble::{
    assemble, check_postage, pinned_input, resolve_destination, Destination,
    ENABLE_RBF_NO_LOCKTIME, TARGET_POSTAGE,
};
use rune_mint::error::MintError;
use rune_mint::rune::{RuneId, Runestone};
use rune_mint::transaction::TxOutput;
use rune_mint::trusted::Network;

const TXID: &str = "4a5e1e4baab89f3a32518a88c31bc87f618f76673e2cc77ab2127b7afdeda33b";
const MAINNET_P2WPKH: &str = "bc1qw508d6qejxtdg4y5r3zarvary0c5xw7kv8f3t4";
const TESTNET_P2WPKH: &str = "tb1qw508d6qejxtdg4y5r3zarvary0c5xw7kxpjzsx";
const MAINNET_P2PKH: &str = "1BvBMSEYstWetqTFn5Au4m4GFg7xJaNVN2";

fn p2wpkh() -> Vec<u8> {
    let mut script = vec![0x00, 0x14];
    script.extend_from_slice(&[0x75, 0x1e, 0x76, 0xe8, 0x19, 0x91, 0x96, 0xd4, 0x54, 0x94]);
    script.extend_from_slice(&[0x1c, 0x45, 0xd1, 0xb3, 0xa3, 0x23, 0xf1, 0x43, 0x3b, 0xd6]);
    script
}

fn p2pkh() -> Vec<u8> {
    let mut script = vec![0x76, 0xa9, 0x14];
    script.extend_from_slice(&[0x77; 20]);
    script.extend_from_slice(&[0x88, 0xac]);
    script
}

fn p2tr() -> Vec<u8> {
    let mut script = vec![0x51, 0x20];
    script.extend_from_slice(&[0x33; 32]);
    script
}

fn id() -> RuneId {
    RuneId { block: 840000, tx: 3 }
}

#[test]
fn default_postage_is_ten_thousand() {
    assert_eq!(TARGET_POSTAGE, 10_000);
}

#[test]
fn postage_must_exceed_dust() {
    assert_eq!(check_postage(294, 294), Err(MintError::PostageBelowDust));
    assert_eq!(check_postage(0, 0), Err(MintError::PostageBelowDust));
    assert_eq!(check_postage(295, 294), Ok(()));
    assert_eq!(check_postage(1, 0), Ok(()));
}

#[test]
fn assemble_checks_postage_against_dust_of_the_script() {
    assert_eq!(assemble(id(), p2wpkh(), 294, None), Err(MintError::PostageBelowDust));
    assert!(assemble(id(), p2wpkh(), 295, None).is_ok());
    assert_eq!(assemble(id(), p2pkh(), 546, None), Err(MintError::PostageBelowDust));
    assert!(assemble(id(), p2pkh(), 547, None).is_ok());
    assert_eq!(assemble(id(), p2tr(), 330, None), Err(MintError::PostageBelowDust));
    assert!(assemble(id(), p2tr(), 331, None).is_ok());
    assert_eq!(assemble(id(), vec![0x6a, 0x01, 0x00], 0, None), Err(MintError::PostageBelowDust));
    assert!(assemble(id(), vec![0x6a, 0x01, 0x00], 1, None).is_ok());
}

#[test]
fn assemble_dust_agrees_with_bitcoin() {
    for script in [p2wpkh(), p2pkh(), p2tr(), vec![], vec![0x6a]] {
        let dust = bitcoin::Script::from_bytes(&script).dust_value().to_sat();
        assert_eq!(assemble(id(), script.clone(), dust, None), Err(MintError::PostageBelowDust));
        assert!(assemble(id(), script, dust + 1, None).is_ok());
    }
}

#[test]
fn assemble_postage_comes_before_the_pinned_output() {
    assert_eq!(assemble(id(), p2wpkh(), 294, Some("abc")), Err(MintError::PostageBelowDust));
}

#[test]
fn assemble_without_pinned_output() {
    let candidate = assemble(id(), p2wpkh(), 10_000, None).unwrap();
    assert_eq!(candidate.version, 2);
    assert_eq!(candidate.lock_time, 0);
    assert!(candidate.input.is_empty());
    assert_eq!(
        candidate.output,
        vec![
            TxOutput { value: 0, script_pubkey: Runestone::mint(id()).encipher() },
            TxOutput { value: 10_000, script_pubkey: p2wpkh() },
        ]
    );
    assert_eq!(candidate.output[0].script_pubkey, vec![0x6a, 0x5d, 6, 20, 0xc0, 0xa2, 0x33, 20, 3]);
}

#[test]
fn assemble_with_pinned_output() {
    let utxo = format!("{}:1", TXID);
    let candidate = assemble(id(), p2wpkh(), 10_000, Some(&utxo)).unwrap();
    assert_eq!(candidate.input.len(), 1);
    let input = &candidate.input[0];
    assert_eq!(input.previous_output.vout, 1);
    assert_eq!(input.previous_output.txid.bytes[0], 0x3b);
    assert_eq!(input.previous_output.txid.bytes[1], 0xa3);
    assert_eq!(input.previous_output.txid.bytes[31], 0x4a);
    assert_eq!(input.sequence, 0xffff_fffd);
    assert_eq!(input.sequence, ENABLE_RBF_NO_LOCKTIME);
    assert!(input.script_sig.is_empty());
    assert!(input.witness.is_empty());
    assert_eq!(candidate.output.len(), 2);
    assert_eq!(candidate.output[0].value, 0);
    assert_eq!(candidate.output[1].value, 10_000);
}

#[test]
fn pinned_input_txid_agrees_with_bitcoin() {
    let utxo = format!("{}:4294967295", TXID.to_uppercase());
    let input = pinned_input(&utxo).unwrap();
    let txid: bitcoin::Txid = TXID.parse().unwrap();
    assert_eq!(input.previous_output.txid.bytes, bitcoin::hashes::Hash::to_byte_array(txid));
    assert_eq!(input.previous_output.vout, u32::MAX);
}

#[test]
fn pinned_input_errors() {
    assert_eq!(pinned_input("abc"), Err(MintError::InvalidUtxoFormat));
    assert_eq!(pinned_input("txid:vout:extra"), Err(MintError::InvalidUtxoFormat));
    assert_eq!(pinned_input(&format!("{}:x", TXID)), Err(MintError::InvalidUtxoFormat));
    assert_eq!(pinned_input("abc:1"), Err(MintError::InvalidTxid));
    assert_eq!(pinned_input(":1"), Err(MintError::InvalidTxid));
    assert_eq!(pinned_input(&format!("{}:1", &TXID[1..])), Err(MintError::InvalidTxid));
    assert_eq!(pinned_input(&format!("{}0:1", TXID)), Err(MintError::InvalidTxid));
    assert_eq!(pinned_input(&format!("g{}:1", &TXID[1..])), Err(MintError::InvalidTxid));
    assert_eq!(
        assemble(id(), p2wpkh(), 10_000, Some("abc:1")),
        Err(MintError::InvalidTxid)
    );
    assert_eq!(
        assemble(id(), p2wpkh(), 10_000, Some("abc")),
        Err(MintError::InvalidUtxoFormat)
    );
}

#[test]
fn destination_address_must_fit_the_network() {
    let mainnet = Destination::Address(MAINNET_P2WPKH.to_string());
    assert_eq!(resolve_destination(&mainnet, Network::Bitcoin), Ok(p2wpkh()));
    assert_eq!(
        resolve_destination(&mainnet, Network::Testnet),
        Err(MintError::AddressNetworkMismatch)
    );
    assert_eq!(
        resolve_destination(&mainnet, Network::Regtest),
        Err(MintError::AddressNetworkMismatch)
    );
    let testnet = Destination::Address(TESTNET_P2WPKH.to_string());
    assert_eq!(resolve_destination(&testnet, Network::Testnet), Ok(p2wpkh()));
    assert_eq!(resolve_destination(&testnet, Network::Signet), Ok(p2wpkh()));
    assert_eq!(
        resolve_destination(&testnet, Network::Bitcoin),
        Err(MintError::AddressNetworkMismatch)
    );
    assert_eq!(
        resolve_destination(&testnet, Network::Regtest),
        Err(MintError::AddressNetworkMismatch)
    );
    let legacy = Destination::Address(MAINNET_P2PKH.to_string());
    assert_eq!(resolve_destination(&legacy, Network::Bitcoin).map(|s| s.len()), Ok(25));
}

#[test]
fn destination_that_is_no_address() {
    let garbage = Destination::Address("not an address".to_string());
    assert_eq!(
        resolve_destination(&garbage, Network::Bitcoin),
        Err(MintError::AddressNetworkMismatch)
    );
    assert_eq!(
        resolve_destination(&Destination::Address(String::new()), Network::Bitcoin),
        Err(MintError::AddressNetworkMismatch)
    );
}

#[test]
fn destination_change_script_is_taken_as_it_is() {
    let change = Destination::Change(p2tr());
    assert_eq!(resolve_destination(&change, Network::Bitcoin), Ok(p2tr()));
    assert_eq!(resolve_destination(&change, Network::Regtest), Ok(p2tr()));
}
