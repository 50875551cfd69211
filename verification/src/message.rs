//! From the bytes that a script pushes to the fields and transfers of a
//! message.

use crate::rune::{edict_of, next_id, Edict, Flaw, RuneId};
use crate::varint::{decode, decoded, lemma_decoded_bounds};
use vstd::prelude::*;
use vstd::slice::slice_subrange;

verus! {

/// The tag after which the transfers of a message follow.
pub const TAG_BODY: u128 = 0;

/// The tag of the two integers that name the token to mint.
pub const TAG_MINT: u128 = 20;

/// The tag of the output that receives what no transfer assigns.
pub const TAG_POINTER: u128 = 22;

/// The integers that `payload` holds, one encoding after the other; none
/// where an encoding is malformed.
pub open spec fn integers_of(payload: Seq<u8>) -> Option<Seq<u128>>
    decreases payload.len(),
{
    if payload.len() == 0 {
        Some(Seq::empty())
    } else {
        match decoded(payload) {
            Ok((n, used)) if 1 <= used <= payload.len() => match integers_of(
                payload.skip(used as int),
            ) {
                Some(rest) => Some(seq![n as u128] + rest),
                None => None,
            },
            _ => None,
        }
    }
}

/// Reads `payload` as integers, one encoding after the other.
pub fn integers(payload: &[u8]) -> (r: Option<Vec<u128>>)
    ensures
        match r {
            Some(v) => integers_of(payload@) == Some(v@),
            None => integers_of(payload@) is None,
        },
{
    let len: usize = payload.len();
    let mut out: Vec<u128> = Vec::new();
    let mut at: usize = 0;
    proof {
        assert(payload@.skip(0) =~= payload@);
        if integers_of(payload@) is Some {
            assert(out@ + integers_of(payload@).unwrap() =~= integers_of(payload@).unwrap());
        }
    }
    while at < len
        invariant
            at <= len,
            len == payload@.len(),
            integers_of(payload@) == match integers_of(payload@.skip(at as int)) {
                Some(rest) => Some(out@ + rest),
                None => None,
            },
        decreases len - at,
    {
        let ghost tail = payload@.skip(at as int);
        let rest: &[u8] = slice_subrange(payload, at, len);
        assert(rest@ =~= tail);
        proof {
            lemma_decoded_bounds(tail, 0);
        }
        match decode(rest) {
            Err(_) => {
                return None;
            },
            Ok((n, used)) => {
                proof {
                    assert(tail.skip(used as int) =~= payload@.skip(at + used));
                    if integers_of(tail.skip(used as int)) is Some {
                        let after = integers_of(tail.skip(used as int)).unwrap();
                        assert(out@ + (seq![n] + after) =~= out@.push(n) + after);
                    }
                }
                out.push(n);
                at = at + used;
            },
        }
    }
    proof {
        assert(out@ + Seq::<u128>::empty() =~= out@);
    }
    Some(out)
}

/// The transfers that `integers` give, four integers each, and what is
/// wrong with the first that cannot be read. Identifiers are written as
/// distances, the first from `previous`. Reading stops at the first flaw.
pub open spec fn edicts_from(integers: Seq<u128>, previous: RuneId, outputs: nat) -> (
    Seq<Edict>,
    Option<Flaw>,
)
    decreases integers.len(),
{
    if integers.len() == 0 {
        (Seq::empty(), None)
    } else if integers.len() < 4 {
        (Seq::empty(), Some(Flaw::TrailingIntegers))
    } else {
        match next_id(previous, integers[0], integers[1]) {
            None => (Seq::empty(), Some(Flaw::EdictRuneId)),
            Some(id) => match edict_of(outputs, id, integers[2], integers[3]) {
                None => (Seq::empty(), Some(Flaw::EdictOutput)),
                Some(edict) => {
                    let rest = edicts_from(integers.skip(4), id, outputs);
                    (seq![edict] + rest.0, rest.1)
                },
            },
        }
    }
}

/// The parts of a message, before any field is understood.
pub struct MessageView {
    pub flaw: Option<Flaw>,
    pub edicts: Seq<Edict>,
    pub fields: Seq<(u128, u128)>,
}

/// The parts of the message that `integers` write, in a transaction of
/// `outputs` outputs: pairs of a tag and a value, in order, up to the tag
/// that opens the transfers.
pub open spec fn message_from(integers: Seq<u128>, outputs: nat) -> MessageView
    decreases integers.len(),
{
    if integers.len() == 0 {
        MessageView { flaw: None, edicts: Seq::empty(), fields: Seq::empty() }
    } else if integers[0] == TAG_BODY {
        let read = edicts_from(integers.skip(1), RuneId { block: 0, tx: 0 }, outputs);
        MessageView { flaw: read.1, edicts: read.0, fields: Seq::empty() }
    } else if integers.len() == 1 {
        MessageView { flaw: Some(Flaw::TruncatedField), edicts: Seq::empty(), fields: Seq::empty() }
    } else {
        let rest = message_from(integers.skip(2), outputs);
        MessageView {
            flaw: rest.flaw,
            edicts: rest.edicts,
            fields: seq![(integers[0], integers[1])] + rest.fields,
        }
    }
}

/// The parts of a message, before any field is understood.
#[derive(Debug, PartialEq, Eq)]
pub struct Message {
    pub flaw: Option<Flaw>,
    pub edicts: Vec<Edict>,
    pub fields: Vec<(u128, u128)>,
}

impl View for Message {
    type V = MessageView;

    open spec fn view(&self) -> MessageView {
        MessageView { flaw: self.flaw, edicts: self.edicts@, fields: self.fields@ }
    }
}

/// Reads the transfers that `integers` hold from position `from` on.
pub fn read_edicts(integers: &[u128], from: usize, outputs: usize) -> (r: (
    Vec<Edict>,
    Option<Flaw>,
))
    requires
        from <= integers@.len(),
    ensures
        (r.0@, r.1) == edicts_from(
            integers@.skip(from as int),
            RuneId { block: 0, tx: 0 },
            outputs as nat,
        ),
{
    let len: usize = integers.len();
    let mut edicts: Vec<Edict> = Vec::new();
    let mut previous: RuneId = RuneId { block: 0, tx: 0 };
    let mut at: usize = from;
    let ghost whole = edicts_from(
        integers@.skip(from as int),
        RuneId { block: 0, tx: 0 },
        outputs as nat,
    );
    proof {
        assert(edicts@ + whole.0 =~= whole.0);
    }
    while at < len
        invariant
            from <= at <= len,
            len == integers@.len(),
            whole == edicts_from(
                integers@.skip(from as int),
                RuneId { block: 0, tx: 0 },
                outputs as nat,
            ),
            whole == (
                edicts@ + edicts_from(integers@.skip(at as int), previous, outputs as nat).0,
                edicts_from(integers@.skip(at as int), previous, outputs as nat).1,
            ),
        decreases len - at,
    {
        let ghost tail = integers@.skip(at as int);
        proof {
            assert(edicts@ + Seq::<Edict>::empty() =~= edicts@);
        }
        if len - at < 4 {
            return (edicts, Some(Flaw::TrailingIntegers));
        }
        assert(tail[0] == integers@[at + 0] && tail[1] == integers@[at + 1] && tail[2]
            == integers@[at + 2] && tail[3] == integers@[at + 3]);
        let id: RuneId = match previous.next(integers[at], integers[at + 1]) {
            None => {
                return (edicts, Some(Flaw::EdictRuneId));
            },
            Some(id) => id,
        };
        let edict: Edict = match Edict::from_integers(
            outputs,
            id,
            integers[at + 2],
            integers[at + 3],
        ) {
            None => {
                return (edicts, Some(Flaw::EdictOutput));
            },
            Some(edict) => edict,
        };
        proof {
            assert(tail.skip(4) =~= integers@.skip(at + 4));
            let rest = edicts_from(tail.skip(4), id, outputs as nat);
            assert(edicts@ + (seq![edict] + rest.0) =~= edicts@.push(edict) + rest.0);
        }
        edicts.push(edict);
        previous = id;
        at = at + 4;
    }
    proof {
        assert(edicts@ + Seq::<Edict>::empty() =~= edicts@);
    }
    (edicts, None)
}

impl Message {
    /// Reads the parts of the message that `integers` write, in a
    /// transaction of `outputs` outputs.
    pub fn from_integers(outputs: usize, integers: &[u128]) -> (r: Message)
        ensures
            r@ == message_from(integers@, outputs as nat),
    {
        let len: usize = integers.len();
        let mut fields: Vec<(u128, u128)> = Vec::new();
        let mut at: usize = 0;
        let ghost whole = message_from(integers@, outputs as nat);
        proof {
            assert(integers@.skip(0) =~= integers@);
            assert(fields@ + whole.fields =~= whole.fields);
        }
        while at < len
            invariant
                at <= len,
                len == integers@.len(),
                whole == message_from(integers@, outputs as nat),
                whole.flaw == message_from(integers@.skip(at as int), outputs as nat).flaw,
                whole.edicts == message_from(integers@.skip(at as int), outputs as nat).edicts,
                whole.fields == fields@ + message_from(
                    integers@.skip(at as int),
                    outputs as nat,
                ).fields,
            decreases len - at,
        {
            let ghost tail = integers@.skip(at as int);
            let tag: u128 = integers[at];
            assert(tail[0] == tag);
            proof {
                assert(fields@ + Seq::<(u128, u128)>::empty() =~= fields@);
            }
            if tag == TAG_BODY {
                assert(tail.skip(1) =~= integers@.skip(at + 1));
                let (edicts, flaw) = read_edicts(integers, at + 1, outputs);
                return Message { flaw, edicts, fields };
            }
            if len - at < 2 {
                return Message { flaw: Some(Flaw::TruncatedField), edicts: Vec::new(), fields };
            }
            let value: u128 = integers[at + 1];
            proof {
                assert(tail[1] == value);
                assert(tail.skip(2) =~= integers@.skip(at + 2));
                let rest = message_from(tail.skip(2), outputs as nat);
                assert(fields@ + (seq![(tag, value)] + rest.fields) =~= fields@.push((tag, value))
                    + rest.fields);
            }
            fields.push((tag, value));
            at = at + 2;
        }
        proof {
            assert(fields@ + Seq::<(u128, u128)>::empty() =~= fields@);
        }
        Message { flaw: None, edicts: Vec::new(), fields }
    }
}

} // verus!
