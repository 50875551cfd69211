//! Writing a message into a script, and reading the message that a
//! transaction carries.

use crate::message::{integers, integers_of, message_from, Message, MessageView};
use crate::message::{TAG_BODY, TAG_MINT, TAG_POINTER};
use crate::rune::{id_delta, id_le, mint_only, rune_id};
use crate::rune::{Artifact, ArtifactView, Cenotaph, Edict, Flaw, RuneId, Runestone, RunestoneView};
use crate::script::{gather_pushes, lemma_read_pushes, push_payload, pushed_data, pushes_of};
use crate::script::{PushError, MAGIC_NUMBER, OP_RETURN};
use crate::transaction::{scripts_of, TxOutput};
use crate::varint::{encode_to_vec, encoded, lemma_decode_encoded, lemma_encoded_len};
use crate::varint::{lemma_encoded_within, lemma_limit_zero, reach};
use crate::sorted::{lemma_sorted_is_ordered, ordered, sort_edicts, sorted_by_id};
use vstd::prelude::*;

verus! {

/// The values that `fields` hold under `tag`, in order.
pub open spec fn values_of(fields: Seq<(u128, u128)>, tag: u128) -> Seq<u128>
    decreases fields.len(),
{
    if fields.len() == 0 {
        Seq::empty()
    } else if fields.last().0 == tag {
        values_of(fields.drop_last(), tag).push(fields.last().1)
    } else {
        values_of(fields.drop_last(), tag)
    }
}

/// The token that the fields ask to mint: the first two values under the
/// mint tag, where they are a block and a position that identify a token.
pub open spec fn mint_of(fields: Seq<(u128, u128)>) -> Option<RuneId> {
    let values = values_of(fields, TAG_MINT);
    if values.len() >= 2 && values[0] <= u64::MAX && values[1] <= u32::MAX {
        rune_id(values[0] as u64, values[1] as u32)
    } else {
        None
    }
}

/// The output that the fields point at: the first value under the pointer
/// tag, where it is the index of one of the `outputs` outputs.
pub open spec fn pointer_of(fields: Seq<(u128, u128)>, outputs: nat) -> Option<u32> {
    let values = values_of(fields, TAG_POINTER);
    if values.len() >= 1 && values[0] <= u32::MAX && values[0] < outputs {
        Some(values[0] as u32)
    } else {
        None
    }
}

/// Whether a field has an even tag that is neither the mint tag nor the
/// pointer tag.
pub open spec fn has_unknown_even_tag(fields: Seq<(u128, u128)>) -> bool {
    exists|i: int|
        0 <= i < fields.len() && (#[trigger] fields[i]).0 % 2 == 0 && fields[i].0 != TAG_MINT
            && fields[i].0 != TAG_POINTER
}

/// Whether a field with an even tag is left once the mint and the pointer
/// have been read: one of a tag that is not known, or a value under a known
/// tag that was not read.
pub open spec fn has_unread_even_tag(fields: Seq<(u128, u128)>, outputs: nat) -> bool {
    ||| has_unknown_even_tag(fields)
    ||| values_of(fields, TAG_MINT).len() > (if mint_of(fields) is Some {
        2int
    } else {
        0int
    })
    ||| values_of(fields, TAG_POINTER).len() > (if pointer_of(fields, outputs) is Some {
        1int
    } else {
        0int
    })
}

/// What the parts of a message amount to in a transaction of `outputs`
/// outputs. A flaw found while reading the parts comes before that of an
/// even tag left unread.
pub open spec fn artifact_of(message: MessageView, outputs: nat) -> ArtifactView {
    let mint = mint_of(message.fields);
    if message.flaw is Some {
        ArtifactView::Cenotaph(Cenotaph { flaw: message.flaw.unwrap(), mint })
    } else if has_unread_even_tag(message.fields, outputs) {
        ArtifactView::Cenotaph(Cenotaph { flaw: Flaw::UnrecognizedEvenTag, mint })
    } else {
        ArtifactView::Runestone(
            RunestoneView {
                edicts: message.edicts,
                mint,
                pointer: pointer_of(message.fields, outputs),
            },
        )
    }
}

/// Whether a script carries a message: it starts with the two opcodes of
/// the header.
pub open spec fn is_carrier(script: Seq<u8>) -> bool {
    script.len() >= 2 && script[0] == OP_RETURN && script[1] == MAGIC_NUMBER
}

/// The index of the first script that carries a message; the number of
/// scripts where none does.
pub open spec fn first_carrier(scripts: Seq<Seq<u8>>) -> int
    decreases scripts.len(),
{
    if scripts.len() == 0 || is_carrier(scripts[0]) {
        0
    } else {
        1 + first_carrier(scripts.skip(1))
    }
}

/// What the script `script` carries in a transaction of `outputs` outputs.
pub open spec fn carried_by(script: Seq<u8>, outputs: nat) -> ArtifactView {
    match pushed_data(script.skip(2)) {
        Err(PushError::Opcode) => ArtifactView::Cenotaph(
            Cenotaph { flaw: Flaw::Opcode, mint: None },
        ),
        Err(PushError::Truncated) => ArtifactView::Cenotaph(
            Cenotaph { flaw: Flaw::InvalidScript, mint: None },
        ),
        Ok(payload) => match integers_of(payload) {
            None => ArtifactView::Cenotaph(Cenotaph { flaw: Flaw::Varint, mint: None }),
            Some(integers) => artifact_of(message_from(integers, outputs), outputs),
        },
    }
}

/// What a transaction with the output scripts `scripts` carries: what its
/// first carrying script holds, nothing where no script carries a message.
pub open spec fn deciphered(scripts: Seq<Seq<u8>>) -> Option<ArtifactView> {
    let at = first_carrier(scripts);
    if at >= scripts.len() {
        None
    } else {
        Some(carried_by(scripts[at], scripts.len()))
    }
}

/// The first carrier stands where no carrier comes before and either a
/// carrier stands or the scripts end.
pub proof fn lemma_first_carrier(scripts: Seq<Seq<u8>>, at: int)
    requires
        0 <= at <= scripts.len(),
        forall|j: int| 0 <= j < at ==> !is_carrier(#[trigger] scripts[j]),
        at < scripts.len() ==> is_carrier(scripts[at]),
    ensures
        first_carrier(scripts) == at,
    decreases scripts.len(),
{
    if at > 0 {
        assert(!is_carrier(scripts[0]));
        assert forall|j: int| 0 <= j < at - 1 implies !is_carrier(
            #[trigger] scripts.skip(1)[j],
        ) by {
            assert(scripts.skip(1)[j] == scripts[j + 1]);
        }
        lemma_first_carrier(scripts.skip(1), at - 1);
    }
}

/// The values that `fields` hold under `tag`, in order.
pub fn field_values(fields: &Vec<(u128, u128)>, tag: u128) -> (r: Vec<u128>)
    ensures
        r@ == values_of(fields@, tag),
{
    let mut out: Vec<u128> = Vec::new();
    let mut i: usize = 0;
    assert(fields@.take(0) =~= Seq::<(u128, u128)>::empty());
    while i < fields.len()
        invariant
            i <= fields@.len(),
            out@ == values_of(fields@.take(i as int), tag),
        decreases fields@.len() - i,
    {
        assert(fields@.take(i + 1).drop_last() =~= fields@.take(i as int));
        assert(fields@.take(i + 1).last() == fields@[i as int]);
        let field: (u128, u128) = fields[i];
        if field.0 == tag {
            out.push(field.1);
        }
        i = i + 1;
    }
    assert(fields@.take(fields@.len() as int) =~= fields@);
    out
}

fn unknown_even_tag(fields: &Vec<(u128, u128)>) -> (r: bool)
    ensures
        r == has_unknown_even_tag(fields@),
{
    let mut i: usize = 0;
    while i < fields.len()
        invariant
            i <= fields@.len(),
            forall|j: int|
                0 <= j < i ==> !((#[trigger] fields@[j]).0 % 2 == 0 && fields@[j].0 != TAG_MINT
                    && fields@[j].0 != TAG_POINTER),
        decreases fields@.len() - i,
    {
        let tag: u128 = fields[i].0;
        if tag % 2 == 0 && tag != TAG_MINT && tag != TAG_POINTER {
            assert(fields@[i as int].0 == tag);
            return true;
        }
        i = i + 1;
    }
    false
}

impl Message {
    /// What these parts amount to in a transaction of `outputs` outputs.
    pub fn interpret(self, outputs: usize) -> (r: Artifact)
        ensures
            r@ == artifact_of(self@, outputs as nat),
    {
        let mints: Vec<u128> = field_values(&self.fields, TAG_MINT);
        let pointers: Vec<u128> = field_values(&self.fields, TAG_POINTER);
        let mint: Option<RuneId> = if mints.len() >= 2 && mints[0] <= 0xffff_ffff_ffff_ffff
            && mints[1] <= 0xffff_ffff {
            RuneId::new(mints[0] as u64, mints[1] as u32)
        } else {
            None
        };
        let pointer: Option<u32> = if pointers.len() >= 1 && pointers[0] <= 0xffff_ffff
            && pointers[0] < outputs as u128 {
            Some(pointers[0] as u32)
        } else {
            None
        };
        let mints_read: usize = if mint.is_some() {
            2
        } else {
            0
        };
        let pointers_read: usize = if pointer.is_some() {
            1
        } else {
            0
        };
        let unread: bool = unknown_even_tag(&self.fields) || mints.len() > mints_read
            || pointers.len() > pointers_read;
        match self.flaw {
            Some(flaw) => Artifact::Cenotaph(Cenotaph { flaw, mint }),
            None => {
                if unread {
                    Artifact::Cenotaph(Cenotaph { flaw: Flaw::UnrecognizedEvenTag, mint })
                } else {
                    Artifact::Runestone(Runestone { edicts: self.edicts, mint, pointer })
                }
            },
        }
    }
}

/// Whether `script` starts with the two opcodes of a message's header.
pub fn carries_message(script: &[u8]) -> (r: bool)
    ensures
        r == is_carrier(script@),
{
    script.len() >= 2 && script[0] == OP_RETURN && script[1] == MAGIC_NUMBER
}

/// Reads what the script `script`, which carries a message, holds, in a
/// transaction of `outputs` outputs.
pub fn read_carrier(script: &[u8], outputs: usize) -> (r: Artifact)
    requires
        is_carrier(script@),
    ensures
        r@ == carried_by(script@, outputs as nat),
{
    let payload: Vec<u8> = match gather_pushes(script, 2) {
        Err(PushError::Opcode) => {
            return Artifact::Cenotaph(Cenotaph { flaw: Flaw::Opcode, mint: None });
        },
        Err(PushError::Truncated) => {
            return Artifact::Cenotaph(Cenotaph { flaw: Flaw::InvalidScript, mint: None });
        },
        Ok(payload) => payload,
    };
    let numbers: Vec<u128> = match integers(payload.as_slice()) {
        None => {
            return Artifact::Cenotaph(Cenotaph { flaw: Flaw::Varint, mint: None });
        },
        Some(numbers) => numbers,
    };
    Message::from_integers(outputs, numbers.as_slice()).interpret(outputs)
}

/// Reads what a transaction with the outputs `outputs` carries.
pub fn decipher(outputs: &Vec<TxOutput>) -> (r: Option<Artifact>)
    ensures
        match r {
            Some(artifact) => deciphered(scripts_of(outputs@)) == Some(artifact@),
            None => deciphered(scripts_of(outputs@)) is None,
        },
{
    let ghost scripts = scripts_of(outputs@);
    let mut i: usize = 0;
    while i < outputs.len()
        invariant
            i <= outputs@.len(),
            scripts == scripts_of(outputs@),
            forall|j: int| 0 <= j < i ==> !is_carrier(#[trigger] scripts[j]),
        decreases outputs@.len() - i,
    {
        let script: &[u8] = outputs[i].script_pubkey.as_slice();
        assert(script@ == scripts[i as int]);
        if carries_message(script) {
            proof {
                lemma_first_carrier(scripts, i as int);
            }
            return Some(read_carrier(script, outputs.len()));
        }
        i = i + 1;
    }
    proof {
        lemma_first_carrier(scripts, i as int);
    }
    None
}

/// The integers of `edicts`, encoded: for each transfer the distance of its
/// identifier from the one before it, the first from `previous`, then the
/// amount and the output. For transfers in the order of their identifiers.
pub open spec fn edicts_payload(edicts: Seq<Edict>, previous: RuneId) -> Seq<u8>
    decreases edicts.len(),
{
    if edicts.len() == 0 {
        Seq::empty()
    } else {
        match id_delta(previous, edicts[0].id) {
            None => Seq::empty(),
            Some(distance) => encoded(distance.0 as nat) + encoded(distance.1 as nat) + encoded(
                edicts[0].amount as nat,
            ) + encoded(edicts[0].output as nat) + edicts_payload(edicts.skip(1), edicts[0].id),
        }
    }
}

/// The field that names the token to mint: the mint tag before the block,
/// and again before the position.
pub open spec fn mint_payload(mint: Option<RuneId>) -> Seq<u8> {
    match mint {
        None => Seq::empty(),
        Some(id) => encoded(TAG_MINT as nat) + encoded(id.block as nat) + encoded(TAG_MINT as nat)
            + encoded(id.tx as nat),
    }
}

/// The field that points at an output.
pub open spec fn pointer_payload(pointer: Option<u32>) -> Seq<u8> {
    match pointer {
        None => Seq::empty(),
        Some(output) => encoded(TAG_POINTER as nat) + encoded(output as nat),
    }
}

/// The transfers, in the order of their identifiers, behind the tag that
/// opens them; nothing where there is no transfer.
pub open spec fn body_payload(edicts: Seq<Edict>) -> Seq<u8> {
    if edicts.len() == 0 {
        Seq::empty()
    } else {
        encoded(TAG_BODY as nat) + edicts_payload(sorted_by_id(edicts), RuneId { block: 0, tx: 0 })
    }
}

/// The bytes that a message pushes: the mint, the pointer, the transfers.
pub open spec fn payload_of(message: RunestoneView) -> Seq<u8> {
    mint_payload(message.mint) + pointer_payload(message.pointer) + body_payload(message.edicts)
}

/// The script that carries a message: the two opcodes of the header, then
/// the payload in pushes.
pub open spec fn enciphered(message: RunestoneView) -> Seq<u8> {
    seq![OP_RETURN, MAGIC_NUMBER] + pushes_of(payload_of(message))
}

fn encode_edicts(edicts: &Vec<Edict>, out: &mut Vec<u8>)
    requires
        ordered(edicts@),
    ensures
        final(out)@ == old(out)@ + edicts_payload(edicts@, RuneId { block: 0, tx: 0 }),
{
    let mut previous: RuneId = RuneId { block: 0, tx: 0 };
    let mut i: usize = 0;
    assert(edicts@.skip(0) =~= edicts@);
    while i < edicts.len()
        invariant
            i <= edicts@.len(),
            ordered(edicts@),
            i > 0 ==> previous == edicts@[i - 1].id,
            i == 0 ==> previous == (RuneId { block: 0, tx: 0 }),
            old(out)@ + edicts_payload(edicts@, RuneId { block: 0, tx: 0 }) == out@
                + edicts_payload(edicts@.skip(i as int), previous),
        decreases edicts@.len() - i,
    {
        let edict: Edict = edicts[i];
        let ghost tail = edicts@.skip(i as int);
        let ghost before = out@;
        assert(tail[0] == edict);
        assert(id_le(previous, edict.id));
        let (block, tx) = previous.distance(edict.id);
        encode_to_vec(block, out);
        encode_to_vec(tx, out);
        encode_to_vec(edict.amount, out);
        encode_to_vec(edict.output as u128, out);
        proof {
            assert(tail.skip(1) =~= edicts@.skip(i + 1));
            let rest = edicts_payload(tail.skip(1), edict.id);
            assert(before + (encoded(block as nat) + encoded(tx as nat) + encoded(
                edict.amount as nat,
            ) + encoded(edict.output as nat) + rest) =~= out@ + rest);
        }
        previous = edict.id;
        i = i + 1;
    }
    assert(out@ + Seq::<u8>::empty() =~= out@);
}

impl Runestone {
    /// The bytes that this message pushes.
    pub fn payload(&self) -> (r: Vec<u8>)
        ensures
            r@ == payload_of(self@),
    {
        let mut out: Vec<u8> = Vec::new();
        if let Some(id) = self.mint {
            encode_to_vec(TAG_MINT, &mut out);
            encode_to_vec(id.block as u128, &mut out);
            encode_to_vec(TAG_MINT, &mut out);
            encode_to_vec(id.tx as u128, &mut out);
        }
        assert(out@ =~= mint_payload(self.mint));
        if let Some(output) = self.pointer {
            encode_to_vec(TAG_POINTER, &mut out);
            encode_to_vec(output as u128, &mut out);
        }
        assert(out@ =~= mint_payload(self.mint) + pointer_payload(self.pointer));
        if self.edicts.len() > 0 {
            encode_to_vec(TAG_BODY, &mut out);
            let sorted: Vec<Edict> = sort_edicts(&self.edicts);
            proof {
                lemma_sorted_is_ordered(self.edicts@);
            }
            encode_edicts(&sorted, &mut out);
        }
        assert(out@ =~= payload_of(self@));
        out
    }

    /// The script that carries this message.
    pub fn encipher(&self) -> (r: Vec<u8>)
        ensures
            r@ == enciphered(self@),
    {
        let payload: Vec<u8> = self.payload();
        let mut script: Vec<u8> = Vec::new();
        script.push(OP_RETURN);
        script.push(MAGIC_NUMBER);
        push_payload(&mut script, payload.as_slice());
        assert(script@ =~= enciphered(self@));
        script
    }
}

/// An encoded integer in front of other bytes reads as that integer in
/// front of what the other bytes read as.
pub proof fn lemma_integers_of_encoded(n: u128, rest: Seq<u8>)
    ensures
        integers_of(encoded(n as nat) + rest) == match integers_of(rest) {
            Some(more) => Some(seq![n] + more),
            None => None,
        },
{
    lemma_limit_zero();
    lemma_decode_encoded(n as nat, rest, 0);
    lemma_encoded_len(n as nat, 0);
    let bytes = encoded(n as nat) + rest;
    assert(bytes.skip(encoded(n as nat).len() as int) =~= rest);
}

/// The payload of the message that only mints `id` reads as four integers:
/// the mint tag and the block, the mint tag and the position.
pub proof fn lemma_mint_integers(id: RuneId)
    ensures
        integers_of(payload_of(mint_only(id))) == Some(
            seq![TAG_MINT, id.block as u128, TAG_MINT, id.tx as u128],
        ),
        1 <= payload_of(mint_only(id)).len() <= 17,
{
    let tx = encoded(id.tx as nat);
    let tag_tx = encoded(TAG_MINT as nat) + tx;
    let block_tag_tx = encoded(id.block as nat) + tag_tx;
    let all = encoded(TAG_MINT as nat) + block_tag_tx;
    assert(payload_of(mint_only(id)) =~= all);
    assert(tx + Seq::<u8>::empty() =~= tx);
    lemma_integers_of_encoded(id.tx as u128, Seq::empty());
    lemma_integers_of_encoded(TAG_MINT, tx);
    lemma_integers_of_encoded(id.block as u128, tag_tx);
    lemma_integers_of_encoded(TAG_MINT, block_tag_tx);
    assert(integers_of(all).unwrap() =~= seq![TAG_MINT, id.block as u128, TAG_MINT, id.tx as u128]);
    assert(reach(1) == 128 && reach(5) == 0x8_0000_0000 && reach(10)
        == 0x40_0000_0000_0000_0000) by {
        reveal_with_fuel(reach, 11);
    }
    lemma_encoded_within(id.tx as nat, 5);
    lemma_encoded_within(id.block as nat, 10);
    lemma_encoded_within(TAG_MINT as nat, 1);
}

/// The script that carries the message that only mints `id` is at most 20
/// bytes long: the header, one byte for the length of the push, two tags,
/// and at most ten and five bytes for the block and the position.
pub proof fn lemma_mint_script_len(id: RuneId)
    ensures
        enciphered(mint_only(id)).len() <= 20,
        is_carrier(enciphered(mint_only(id))),
{
    lemma_mint_integers(id);
}

/// A transaction whose first carrying script is the one that was written
/// for the message that only mints `id` reads as that message.
pub proof fn lemma_mint_round_trip(id: RuneId, scripts: Seq<Seq<u8>>, at: int)
    requires
        id.well_formed(),
        0 <= at < scripts.len(),
        scripts[at] == enciphered(mint_only(id)),
        forall|j: int| 0 <= j < at ==> !is_carrier(#[trigger] scripts[j]),
    ensures
        deciphered(scripts) == Some(ArtifactView::Runestone(mint_only(id))),
{
    let message = mint_only(id);
    let script = enciphered(message);
    let payload = payload_of(message);
    let outputs = scripts.len();
    lemma_mint_script_len(id);
    lemma_first_carrier(scripts, at);
    assert(script.skip(2) =~= pushes_of(payload));
    lemma_read_pushes(payload);
    lemma_mint_integers(id);
    let numbers = seq![TAG_MINT, id.block as u128, TAG_MINT, id.tx as u128];
    let fields = seq![(TAG_MINT, id.block as u128), (TAG_MINT, id.tx as u128)];
    assert(message_from(numbers, outputs).fields =~= fields && message_from(
        numbers,
        outputs,
    ).flaw is None && message_from(numbers, outputs).edicts =~= Seq::<Edict>::empty()) by {
        reveal_with_fuel(message_from, 3);
        assert(numbers.skip(2) =~= seq![TAG_MINT, id.tx as u128]);
        assert(numbers.skip(2).skip(2) =~= Seq::<u128>::empty());
    }
    assert(values_of(fields, TAG_MINT) =~= seq![id.block as u128, id.tx as u128]
        && values_of(fields, TAG_POINTER) =~= Seq::<u128>::empty()) by {
        reveal_with_fuel(values_of, 3);
        assert(fields.drop_last() =~= seq![(TAG_MINT, id.block as u128)]);
        assert(fields.drop_last().drop_last() =~= Seq::<(u128, u128)>::empty());
    }
    assert(mint_of(fields) == Some(id));
    assert(!has_unknown_even_tag(fields));
    assert(artifact_of(message_from(numbers, outputs), outputs) == ArtifactView::Runestone(
        message,
    ));
}

} // verus!
