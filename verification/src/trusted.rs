//! What the library takes from the `bitcoin` and `hex` crates. The contracts
//! in this file are not proved: they say what those crates are relied on to
//! do.

use crate::transaction::{output_values, TxOutput, Txid};
use std::str::FromStr;
use vstd::prelude::*;

verus! {

/// The networks on which an address can be valid.
#[derive(Clone, Copy, Debug, PartialEq, Eq, Structural)]
pub enum Network {
    Bitcoin,
    Testnet,
    Signet,
    Regtest,
}

/// The value of a hexadecimal digit, in either case.
pub open spec fn hex_value(c: char) -> Option<nat> {
    let code = c as u32;
    if 48 <= code <= 57 {
        Some((code - 48) as nat)
    } else if 97 <= code <= 102 {
        Some((code - 87) as nat)
    } else if 65 <= code <= 70 {
        Some((code - 55) as nat)
    } else {
        None
    }
}

/// The lower-case hexadecimal digit of a value under sixteen.
pub open spec fn hex_digit(value: int) -> char {
    if value < 10 {
        ((48 + value) as u8) as char
    } else {
        ((87 + value) as u8) as char
    }
}

/// `bytes` in lower-case hexadecimal, two digits a byte, the high half
/// first.
pub open spec fn hex_of(bytes: Seq<u8>) -> Seq<char> {
    Seq::new(
        2 * bytes.len(),
        |i: int|
            hex_digit(
                if i % 2 == 0 {
                    bytes[i / 2] as int / 16
                } else {
                    bytes[i / 2] as int % 16
                },
            ),
    )
}

/// The 32 bytes of the transaction id that `text` writes: 64 hexadecimal
/// digits, whose last two give the first byte.
pub open spec fn txid_of_hex(text: Seq<char>) -> Option<Seq<u8>> {
    if text.len() == 64 && forall|i: int| 0 <= i < 64 ==> hex_value(#[trigger] text[i]) is Some {
        Some(
            Seq::new(
                32,
                |n: int|
                    (16 * hex_value(text[62 - 2 * n]).unwrap() + hex_value(
                        text[63 - 2 * n],
                    ).unwrap()) as u8,
            ),
        )
    } else {
        None
    }
}

/// The least value that relay policy lets an output with the script
/// `script` have.
pub uninterp spec fn dust_value_of(script: Seq<u8>) -> u64;

/// The script that pays to the address that `address` writes, where it
/// writes one that is valid on `network`.
pub uninterp spec fn script_of_address(address: Seq<char>, network: Network) -> Option<Seq<u8>>;

/// The transaction that `bytes` are the consensus encoding of.
pub uninterp spec fn decoded_transaction(bytes: Seq<u8>) -> Option<bitcoin::Transaction>;

/// The outputs of a transaction, in order: the value and the script of each.
pub uninterp spec fn outputs_of(transaction: bitcoin::Transaction) -> Seq<(u64, Seq<u8>)>;

/// The bytes of a transaction's id, in the order in which they are hashed.
pub uninterp spec fn txid_of(transaction: bitcoin::Transaction) -> Seq<u8>;

/// The consensus encoding of a transaction.
pub uninterp spec fn encoding_of(transaction: bitcoin::Transaction) -> Seq<u8>;

/// A transaction of the `bitcoin` crate. The library only carries it from
/// one call of that crate to the next.
#[verifier::external_type_specification]
#[verifier::external_body]
pub struct ExTransaction(bitcoin::Transaction);

/// `bitcoin::Txid::from_str`: reads 64 hexadecimal digits, in either case,
/// as the 32 bytes of a transaction id, last pair of digits first, and
/// refuses every other text.
#[verifier::external_body]
pub(crate) fn txid_from_hex(text: &str) -> (r: Option<Txid>)
    ensures
        match r {
            Some(txid) => txid_of_hex(text@) == Some(txid.bytes@),
            None => txid_of_hex(text@) is None,
        },
{
    match bitcoin::Txid::from_str(text) {
        Ok(txid) => Some(Txid { bytes: bitcoin::hashes::Hash::to_byte_array(txid) }),
        Err(_) => None,
    }
}

/// `bitcoin::Script::dust_value`: the dust threshold of a script, which
/// depends on the script alone.
#[verifier::external_body]
pub(crate) fn dust_value(script: &[u8]) -> (r: u64)
    ensures
        r == dust_value_of(script@),
{
    bitcoin::Script::from_bytes(script).dust_value().to_sat()
}

/// `bitcoin::Address::from_str`, then `require_network` and
/// `script_pubkey`: the script of an address, where the text is an address
/// and that address is valid on the network asked for.
#[verifier::external_body]
pub(crate) fn address_script(address: &str, network: Network) -> (r: Option<Vec<u8>>)
    ensures
        match r {
            Some(script) => script_of_address(address@, network) == Some(script@),
            None => script_of_address(address@, network) is None,
        },
{
    let required = match network {
        Network::Bitcoin => bitcoin::Network::Bitcoin,
        Network::Testnet => bitcoin::Network::Testnet,
        Network::Signet => bitcoin::Network::Signet,
        Network::Regtest => bitcoin::Network::Regtest,
    };
    match bitcoin::Address::from_str(address) {
        Ok(unchecked) => match unchecked.require_network(required) {
            Ok(checked) => Some(checked.script_pubkey().to_bytes()),
            Err(_) => None,
        },
        Err(_) => None,
    }
}

/// `bitcoin::consensus::encode::deserialize`: the transaction that the
/// bytes encode, where they encode one and nothing follows it.
#[verifier::external_body]
pub(crate) fn deserialize_transaction(bytes: &[u8]) -> (r: Option<bitcoin::Transaction>)
    ensures
        r == decoded_transaction(bytes@),
{
    bitcoin::consensus::encode::deserialize(bytes).ok()
}

/// The field `output` of a `bitcoin::Transaction`, each output as its
/// value and the bytes of its script.
#[verifier::external_body]
pub(crate) fn transaction_outputs(transaction: &bitcoin::Transaction) -> (r: Vec<TxOutput>)
    ensures
        output_values(r@) == outputs_of(*transaction),
{
    transaction.output.iter().map(
        |output| TxOutput { value: output.value, script_pubkey: output.script_pubkey.to_bytes() },
    ).collect()
}

/// `bitcoin::Transaction::txid`: the id of a transaction, which depends on
/// the transaction alone.
#[verifier::external_body]
pub(crate) fn transaction_txid(transaction: &bitcoin::Transaction) -> (r: Txid)
    ensures
        r.bytes@ == txid_of(*transaction),
{
    Txid { bytes: bitcoin::hashes::Hash::to_byte_array(transaction.txid()) }
}

/// `bitcoin::consensus::serialize`: the consensus encoding of a
/// transaction.
#[verifier::external_body]
pub(crate) fn serialize_transaction(transaction: &bitcoin::Transaction) -> (r: Vec<u8>)
    ensures
        r@ == encoding_of(*transaction),
{
    bitcoin::consensus::serialize(transaction)
}

/// `hex::encode`: the bytes in lower-case hexadecimal, two digits a byte.
#[verifier::external_body]
pub(crate) fn hex_encode(bytes: &[u8]) -> (r: String)
    ensures
        r@ == hex_of(bytes@),
{
    hex::encode(bytes)
}

} // verus!
