//! The part of the script format that a message needs: data pushes, written
//! and read back.

use vstd::prelude::*;

verus! {

/// The opcode that marks an output as carrying data.
pub const OP_RETURN: u8 = 0x6a;

/// The opcode that follows `OP_RETURN` in an output that carries a message.
pub const MAGIC_NUMBER: u8 = 0x5d;

/// The largest opcode that pushes as many bytes as its own value.
pub const MAX_DIRECT_PUSH: u8 = 75;

/// The opcode after which one byte gives the length of the push.
pub const OP_PUSHDATA1: u8 = 76;

/// The opcode after which two bytes give the length of the push.
pub const OP_PUSHDATA2: u8 = 77;

/// The opcode after which four bytes give the length of the push.
pub const OP_PUSHDATA4: u8 = 78;

/// The most bytes that one push of a message holds.
pub const MAX_SCRIPT_ELEMENT_SIZE: usize = 520;

/// Why the instructions after the header of a message are not all pushes.
#[derive(Clone, Copy, Debug, PartialEq, Eq, Structural)]
pub enum PushError {
    /// An instruction is an opcode that pushes no data.
    Opcode,
    /// A push announces more bytes than the script holds.
    Truncated,
}

/// One push, as the script holds it: the shortest form that can announce
/// the length of `data`, then `data`. For at most 65535 bytes.
pub open spec fn push_of(data: Seq<u8>) -> Seq<u8> {
    if data.len() <= 75 {
        seq![data.len() as u8] + data
    } else if data.len() <= 255 {
        seq![76u8, data.len() as u8] + data
    } else {
        seq![77u8, (data.len() % 256) as u8, (data.len() / 256) as u8] + data
    }
}

/// `payload` as pushes of at most 520 bytes each, in order; no push for
/// an empty payload.
pub open spec fn pushes_of(payload: Seq<u8>) -> Seq<u8>
    decreases payload.len(),
{
    if payload.len() == 0 {
        Seq::<u8>::empty()
    } else if payload.len() <= 520 {
        push_of(payload)
    } else {
        push_of(payload.take(520)) + pushes_of(payload.skip(520))
    }
}

/// How many bytes the instruction at the front of `s` takes to say what it
/// is: the opcode and, behind it, the bytes that give a length. Zero for an
/// opcode that pushes nothing.
pub open spec fn push_header(s: Seq<u8>) -> int {
    if s.len() == 0 {
        0
    } else if s[0] <= 75 {
        1
    } else if s[0] == 76 {
        2
    } else if s[0] == 77 {
        3
    } else if s[0] == 78 {
        5
    } else {
        0
    }
}

/// The number of bytes that the push at the front of `s` announces, read
/// least significant byte first. For `s` longer than its header is.
pub open spec fn push_len(s: Seq<u8>) -> int {
    if s[0] <= 75 {
        s[0] as int
    } else if s[0] == 76 {
        s[1] as int
    } else if s[0] == 77 {
        s[1] + 256 * s[2]
    } else {
        s[1] + 256 * s[2] + 65536 * s[3] + 16777216 * s[4]
    }
}

/// The data that the instructions of `s` push, joined in order. An error
/// where an instruction pushes nothing or announces more than `s` holds; the
/// first such instruction decides which.
pub open spec fn pushed_data(s: Seq<u8>) -> Result<Seq<u8>, PushError>
    decreases s.len(),
{
    if s.len() == 0 {
        Ok(Seq::<u8>::empty())
    } else if s[0] > 78 {
        Err(PushError::Opcode)
    } else if s.len() < push_header(s) || s.len() < push_header(s) + push_len(s) {
        Err(PushError::Truncated)
    } else {
        let end = push_header(s) + push_len(s);
        match pushed_data(s.skip(end)) {
            Ok(rest) => Ok(s.subrange(push_header(s), end) + rest),
            Err(e) => Err(e),
        }
    }
}

/// Reading a script that starts with one push gives the data of that push,
/// then what the rest of the script pushes.
pub proof fn lemma_read_push(data: Seq<u8>, rest: Seq<u8>)
    requires
        data.len() <= 65535,
    ensures
        pushed_data(push_of(data) + rest) == match pushed_data(rest) {
            Ok(more) => Ok::<Seq<u8>, PushError>(data + more),
            Err(e) => Err(e),
        },
{
    let s = push_of(data) + rest;
    let header = push_header(s);
    if data.len() > 255 {
        assert(s[0] == 77 && s[1] == (data.len() % 256) as u8 && s[2] == (data.len() / 256) as u8);
    } else if data.len() > 75 {
        assert(s[0] == 76 && s[1] == data.len() as u8);
    } else {
        assert(s[0] == data.len() as u8);
    }
    assert(push_len(s) == data.len());
    assert(s.subrange(header, header + data.len()) =~= data);
    assert(s.skip(header + data.len()) =~= rest);
}

/// Reading back the pushes of a payload gives the payload.
pub proof fn lemma_read_pushes(payload: Seq<u8>)
    ensures
        pushed_data(pushes_of(payload)) == Ok::<Seq<u8>, PushError>(payload),
    decreases payload.len(),
{
    if payload.len() == 0 {
        assert(payload =~= Seq::<u8>::empty());
    } else if payload.len() <= 520 {
        lemma_read_push(payload, Seq::<u8>::empty());
        assert(push_of(payload) + Seq::<u8>::empty() =~= push_of(payload));
        assert(payload + Seq::<u8>::empty() =~= payload);
    } else {
        lemma_read_pushes(payload.skip(520));
        lemma_read_push(payload.take(520), pushes_of(payload.skip(520)));
        assert(payload.take(520) + payload.skip(520) =~= payload);
    }
}

/// Appends the bytes of `data` from `from` up to `to` to `out`.
pub fn append_range(out: &mut Vec<u8>, data: &[u8], from: usize, to: usize)
    requires
        from <= to <= data@.len(),
    ensures
        final(out)@ == old(out)@ + data@.subrange(from as int, to as int),
{
    let mut i: usize = from;
    assert(data@.subrange(from as int, from as int) =~= Seq::<u8>::empty());
    assert(out@ + Seq::<u8>::empty() =~= out@);
    while i < to
        invariant
            from <= i <= to <= data@.len(),
            out@ == old(out)@ + data@.subrange(from as int, i as int),
        decreases to - i,
    {
        proof {
            assert(data@.subrange(from as int, i + 1) =~= data@.subrange(from as int, i as int).push(
                data@[i as int],
            ));
            assert((old(out)@ + data@.subrange(from as int, i as int)).push(data@[i as int])
                =~= old(out)@ + data@.subrange(from as int, i + 1));
        }
        out.push(data[i]);
        i = i + 1;
    }
}

/// Appends to `out` one push of the bytes of `data` from `from` up to `to`.
pub fn push_slice(out: &mut Vec<u8>, data: &[u8], from: usize, to: usize)
    requires
        from <= to <= data@.len(),
        to - from <= 65535,
    ensures
        final(out)@ == old(out)@ + push_of(data@.subrange(from as int, to as int)),
{
    let len: usize = to - from;
    let ghost chunk = data@.subrange(from as int, to as int);
    if len <= 75 {
        out.push(len as u8);
        append_range(out, data, from, to);
        assert(out@ =~= old(out)@ + (seq![chunk.len() as u8] + chunk));
    } else if len <= 255 {
        out.push(OP_PUSHDATA1);
        out.push(len as u8);
        append_range(out, data, from, to);
        assert(out@ =~= old(out)@ + (seq![76u8, chunk.len() as u8] + chunk));
    } else {
        out.push(OP_PUSHDATA2);
        out.push((len % 256) as u8);
        out.push((len / 256) as u8);
        append_range(out, data, from, to);
        assert(out@ =~= old(out)@ + (seq![
            77u8,
            (chunk.len() % 256) as u8,
            (chunk.len() / 256) as u8,
        ] + chunk));
    }
}

/// Appends `payload` to `out` as pushes of at most 520 bytes each.
pub fn push_payload(out: &mut Vec<u8>, payload: &[u8])
    ensures
        final(out)@ == old(out)@ + pushes_of(payload@),
{
    let len: usize = payload.len();
    let mut at: usize = 0;
    assert(payload@.skip(0) =~= payload@);
    while len - at > MAX_SCRIPT_ELEMENT_SIZE
        invariant
            at <= len,
            len == payload@.len(),
            old(out)@ + pushes_of(payload@) == out@ + pushes_of(payload@.skip(at as int)),
        decreases len - at,
    {
        let ghost before = out@;
        let ghost tail = payload@.skip(at as int);
        push_slice(out, payload, at, at + MAX_SCRIPT_ELEMENT_SIZE);
        proof {
            assert(payload@.subrange(at as int, at + 520) =~= tail.take(520));
            assert(tail.skip(520) =~= payload@.skip(at + 520));
            assert(before + (push_of(tail.take(520)) + pushes_of(tail.skip(520))) =~= out@
                + pushes_of(tail.skip(520)));
        }
        at = at + MAX_SCRIPT_ELEMENT_SIZE;
    }
    if at < len {
        let ghost before = out@;
        push_slice(out, payload, at, len);
        assert(payload@.subrange(at as int, len as int) =~= payload@.skip(at as int));
    } else {
        assert(out@ + Seq::<u8>::empty() =~= out@);
    }
}

/// Reads the instruction at position `at` of `script` as a push: where its
/// data starts and where it ends.
pub fn next_push(script: &[u8], at: usize) -> (r: Result<(usize, usize), PushError>)
    requires
        at < script@.len(),
    ensures
        match r {
            Ok((start, end)) => {
                &&& script@[at as int] <= 78
                &&& start == at + push_header(script@.skip(at as int))
                &&& end == start + push_len(script@.skip(at as int))
                &&& end <= script@.len()
            },
            Err(PushError::Opcode) => script@[at as int] > 78,
            Err(PushError::Truncated) => {
                &&& script@[at as int] <= 78
                &&& (script@.len() - at < push_header(script@.skip(at as int)) || script@.len()
                    - at < push_header(script@.skip(at as int)) + push_len(
                    script@.skip(at as int),
                ))
            },
        },
{
    let ghost tail = script@.skip(at as int);
    let opcode: u8 = script[at];
    assert(tail[0] == opcode);
    if opcode > OP_PUSHDATA4 {
        return Err(PushError::Opcode);
    }
    let left: usize = script.len() - at;
    let header: usize = if opcode <= MAX_DIRECT_PUSH {
        1
    } else if opcode == OP_PUSHDATA1 {
        2
    } else if opcode == OP_PUSHDATA2 {
        3
    } else {
        5
    };
    if left < header {
        return Err(PushError::Truncated);
    }
    proof {
        assert(header >= 2 ==> tail[1] == script@[at + 1]);
        assert(header >= 3 ==> tail[2] == script@[at + 2]);
        assert(header >= 5 ==> tail[3] == script@[at + 3] && tail[4] == script@[at + 4]);
    }
    let announced: u64 = if opcode <= MAX_DIRECT_PUSH {
        opcode as u64
    } else if opcode == OP_PUSHDATA1 {
        script[at + 1] as u64
    } else if opcode == OP_PUSHDATA2 {
        script[at + 1] as u64 + 256 * (script[at + 2] as u64)
    } else {
        script[at + 1] as u64 + 256 * (script[at + 2] as u64) + 65536 * (script[at
            + 3] as u64) + 16777216 * (script[at + 4] as u64)
    };
    if ((left - header) as u64) < announced {
        return Err(PushError::Truncated);
    }
    let size: usize = announced as usize;
    Ok((at + header, at + header + size))
}

/// Joins the data that the instructions of `script` from position `from` on
/// push.
pub fn gather_pushes(script: &[u8], from: usize) -> (r: Result<Vec<u8>, PushError>)
    requires
        from <= script@.len(),
    ensures
        match r {
            Ok(data) => pushed_data(script@.skip(from as int)) == Ok::<Seq<u8>, PushError>(data@),
            Err(e) => pushed_data(script@.skip(from as int)) == Err::<Seq<u8>, PushError>(e),
        },
{
    let len: usize = script.len();
    let mut data: Vec<u8> = Vec::new();
    let mut at: usize = from;
    let ghost whole = pushed_data(script@.skip(from as int));
    proof {
        if whole is Ok {
            assert(Seq::<u8>::empty() + whole.unwrap() =~= whole.unwrap());
        }
    }
    while at < len
        invariant
            from <= at <= len,
            len == script@.len(),
            whole == pushed_data(script@.skip(from as int)),
            whole == match pushed_data(script@.skip(at as int)) {
                Ok(rest) => Ok::<Seq<u8>, PushError>(data@ + rest),
                Err(e) => Err(e),
            },
        decreases len - at,
    {
        let ghost tail = script@.skip(at as int);
        assert(tail[0] == script@[at as int]);
        let (start, end) = match next_push(script, at) {
            Ok(bounds) => bounds,
            Err(e) => {
                return Err(e);
            },
        };
        let ghost before = data@;
        append_range(&mut data, script, start, end);
        proof {
            assert(script@.subrange(start as int, end as int) =~= tail.subrange(
                start - at,
                end - at,
            ));
            assert(tail.skip(end - at) =~= script@.skip(end as int));
            if pushed_data(tail.skip(end - at)) is Ok {
                let rest = pushed_data(tail.skip(end - at)).unwrap();
                assert(before + (tail.subrange(start - at, end - at) + rest) =~= data@ + rest);
            }
        }
        at = end;
    }
    proof {
        assert(data@ + Seq::<u8>::empty() =~= data@);
    }
    Ok(data)
}

} // verus!
