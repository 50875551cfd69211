//! Transactions as plain data.

use vstd::prelude::*;

verus! {

/// The identifier of a transaction: its 32 bytes in the order in which they
/// are hashed, the reverse of the order in which they are written.
#[derive(Clone, Copy, Debug, PartialEq, Eq, Hash)]
pub struct Txid {
    pub bytes: [u8; 32],
}

/// A reference to one output of a transaction.
#[derive(Clone, Copy, Debug, PartialEq, Eq, Hash)]
pub struct OutPoint {
    pub txid: Txid,
    pub vout: u32,
}

/// An input of a transaction.
#[derive(Clone, Debug, PartialEq, Eq)]
pub struct TxInput {
    pub previous_output: OutPoint,
    pub script_sig: Vec<u8>,
    pub sequence: u32,
    pub witness: Vec<Vec<u8>>,
}

/// An output of a transaction.
#[derive(Clone, Debug, PartialEq, Eq)]
pub struct TxOutput {
    pub value: u64,
    pub script_pubkey: Vec<u8>,
}

/// A transaction that has not been funded or signed yet.
#[derive(Clone, Debug, PartialEq, Eq)]
pub struct CandidateTransaction {
    pub version: i32,
    pub lock_time: u32,
    pub input: Vec<TxInput>,
    pub output: Vec<TxOutput>,
}

/// The scripts of `outputs`, in order.
pub open spec fn scripts_of(outputs: Seq<TxOutput>) -> Seq<Seq<u8>> {
    Seq::new(outputs.len(), |i: int| outputs[i].script_pubkey@)
}

/// `outputs` as plain values: the value and the script of each, in order.
pub open spec fn output_values(outputs: Seq<TxOutput>) -> Seq<(u64, Seq<u8>)> {
    Seq::new(outputs.len(), |i: int| (outputs[i].value, outputs[i].script_pubkey@))
}

} // verus!
