use rune_mint::assemble::check_script_size;
use rune_mint::error::MintError;
use rune_mint::message::{integers, Message};
use rune_mint::rune::{Artifact, Cenotaph, Edict, Flaw, RuneId, Runestone};
use rune_mint::runestone::decipher;
use rune_mint::script::{gather_pushes, push_payload, PushError};
use rune_mint::sorted::sort_edicts;
use rune_mint::transaction::TxOutput;
use rune_mint::varint::encode_to_vec;

fn output(script: Vec<u8>) -> TxOutput {
    TxOutput { value: 0, script_pubkey: script }
}

fn carrier(numbers: &[u128]) -> TxOutput {
    let mut payload = Vec::new();
    for n in numbers {
        encode_to_vec(*n, &mut payload);
    }
    let mut script = vec![0x6a, 0x5d];
    push_payload(&mut script, &payload);
    output(script)
}

fn empty() -> Runestone {
    Runestone { edicts: Vec::new(), mint: None, pointer: None }
}

fn cenotaph(flaw: Flaw, mint: Option<RuneId>) -> Option<Artifact> {
    Some(Artifact::Cenotaph(Cenotaph { flaw, mint }))
}

fn id(block: u64, tx: u32) -> RuneId {
    RuneId { block, tx }
}

#[test]
fn encipher_mint_writes_tag_before_each_integer() {
    assert_eq!(Runestone::mint(id(1, 1)).encipher(), vec![0x6a, 0x5d, 4, 20, 1, 20, 1]);
    assert_eq!(
        Runestone::mint(id(840000, 1)).encipher(),
        vec![0x6a, 0x5d, 6, 20, 0xc0, 0xa2, 0x33, 20, 1]
    );
}

#[test]
fn encipher_empty_message_is_header_alone() {
    assert_eq!(empty().encipher(), vec![0x6a, 0x5d]);
    assert_eq!(empty().payload(), Vec::<u8>::new());
}

#[test]
fn encipher_largest_mint_stays_small() {
    let script = Runestone::mint(id(u64::MAX, u32::MAX)).encipher();
    assert_eq!(script.len(), 2 + 1 + 1 + 10 + 1 + 5);
    assert_eq!(check_script_size(&script), Ok(()));
}

#[test]
fn encipher_pointer_and_edicts_in_order_of_ids() {
    let message = Runestone {
        edicts: vec![
            Edict { id: id(2, 0), amount: 1, output: 0 },
            Edict { id: id(1, 5), amount: 2, output: 1 },
            Edict { id: id(1, 7), amount: 3, output: 1 },
        ],
        mint: Some(id(3, 4)),
        pointer: Some(1),
    };
    assert_eq!(
        message.payload(),
        vec![20, 3, 20, 4, 22, 1, 0, 1, 5, 2, 1, 0, 2, 3, 1, 1, 0, 1, 0]
    );
}

#[test]
fn sort_edicts_is_stable() {
    let edicts = vec![
        Edict { id: id(2, 0), amount: 1, output: 0 },
        Edict { id: id(1, 5), amount: 2, output: 0 },
        Edict { id: id(2, 0), amount: 3, output: 0 },
        Edict { id: id(1, 5), amount: 4, output: 0 },
        Edict { id: id(1, 4), amount: 5, output: 0 },
    ];
    let amounts: Vec<u128> = sort_edicts(&edicts).iter().map(|e| e.amount).collect();
    assert_eq!(amounts, vec![5, 2, 4, 1, 3]);
    assert_eq!(sort_edicts(&Vec::new()), Vec::new());
}

#[test]
fn decipher_reads_back_a_mint() {
    let message = Runestone::mint(id(840000, 7));
    let outputs = vec![output(message.encipher()), output(vec![0x51])];
    assert_eq!(decipher(&outputs), Some(Artifact::Runestone(message)));
}

#[test]
fn decipher_reads_back_a_mint_behind_other_outputs() {
    let message = Runestone::mint(id(2, 0));
    let outputs = vec![
        output(vec![0x00, 0x14, 1, 2, 3]),
        output(vec![0x6a]),
        output(vec![0x6a, 0x04, 1, 2, 3, 4]),
        output(message.encipher()),
        output(Runestone::mint(id(9, 9)).encipher()),
    ];
    assert_eq!(decipher(&outputs), Some(Artifact::Runestone(message)));
}

#[test]
fn decipher_reads_back_pointer_and_edicts() {
    let message = Runestone {
        edicts: vec![
            Edict { id: id(2, 0), amount: 1, output: 0 },
            Edict { id: id(1, 5), amount: 2, output: 2 },
        ],
        mint: Some(id(3, 4)),
        pointer: Some(1),
    };
    let sorted = Runestone {
        edicts: vec![
            Edict { id: id(1, 5), amount: 2, output: 2 },
            Edict { id: id(2, 0), amount: 1, output: 0 },
        ],
        mint: Some(id(3, 4)),
        pointer: Some(1),
    };
    let outputs = vec![output(message.encipher()), output(vec![])];
    assert_eq!(decipher(&outputs), Some(Artifact::Runestone(sorted)));
}

#[test]
fn decipher_without_carrier_finds_nothing() {
    assert_eq!(decipher(&Vec::new()), None);
    assert_eq!(decipher(&vec![output(vec![])]), None);
    assert_eq!(decipher(&vec![output(vec![0x6a])]), None);
    assert_eq!(decipher(&vec![output(vec![0x6a, 0x5c])]), None);
    assert_eq!(decipher(&vec![output(vec![0x5d, 0x6a])]), None);
    assert_eq!(decipher(&vec![output(vec![0x6a, 0x01, 0x5d])]), None);
}

#[test]
fn decipher_header_alone_is_the_empty_message() {
    assert_eq!(decipher(&vec![output(vec![0x6a, 0x5d])]), Some(Artifact::Runestone(empty())));
    assert_eq!(decipher(&vec![output(vec![0x6a, 0x5d, 0x00])]), Some(Artifact::Runestone(empty())));
}

#[test]
fn decipher_opcode_among_pushes() {
    assert_eq!(decipher(&vec![output(vec![0x6a, 0x5d, 0x6a])]), cenotaph(Flaw::Opcode, None));
    assert_eq!(
        decipher(&vec![output(vec![0x6a, 0x5d, 2, 20, 1, 0x4f])]),
        cenotaph(Flaw::Opcode, None)
    );
}

#[test]
fn decipher_truncated_push() {
    assert_eq!(decipher(&vec![output(vec![0x6a, 0x5d, 5, 1])]), cenotaph(Flaw::InvalidScript, None));
    assert_eq!(decipher(&vec![output(vec![0x6a, 0x5d, 0x4c])]), cenotaph(Flaw::InvalidScript, None));
    assert_eq!(
        decipher(&vec![output(vec![0x6a, 0x5d, 0x4d, 1])]),
        cenotaph(Flaw::InvalidScript, None)
    );
    assert_eq!(
        decipher(&vec![output(vec![0x6a, 0x5d, 0x4e, 1, 0, 0, 0])]),
        cenotaph(Flaw::InvalidScript, None)
    );
}

#[test]
fn decipher_the_first_carrier_decides() {
    let outputs =
        vec![output(vec![0x6a, 0x5d, 0x6a]), output(Runestone::mint(id(1, 1)).encipher())];
    assert_eq!(decipher(&outputs), cenotaph(Flaw::Opcode, None));
}

#[test]
fn decipher_malformed_integer() {
    assert_eq!(decipher(&vec![output(vec![0x6a, 0x5d, 1, 0x80])]), cenotaph(Flaw::Varint, None));
    assert_eq!(
        decipher(&vec![output(vec![0x6a, 0x5d, 3, 20, 1, 0x80])]),
        cenotaph(Flaw::Varint, None)
    );
}

#[test]
fn decipher_tag_without_value() {
    assert_eq!(decipher(&vec![carrier(&[20])]), cenotaph(Flaw::TruncatedField, None));
    assert_eq!(
        decipher(&vec![carrier(&[20, 1, 20, 1, 22])]),
        cenotaph(Flaw::TruncatedField, Some(id(1, 1)))
    );
}

#[test]
fn decipher_unknown_tags() {
    assert_eq!(decipher(&vec![carrier(&[21, 5])]), Some(Artifact::Runestone(empty())));
    assert_eq!(decipher(&vec![carrier(&[2, 0])]), cenotaph(Flaw::UnrecognizedEvenTag, None));
    assert_eq!(
        decipher(&vec![carrier(&[20, 1, 20, 1, 24, 0])]),
        cenotaph(Flaw::UnrecognizedEvenTag, Some(id(1, 1)))
    );
}

#[test]
fn decipher_mint_values_left_over() {
    assert_eq!(decipher(&vec![carrier(&[20, 1])]), cenotaph(Flaw::UnrecognizedEvenTag, None));
    assert_eq!(
        decipher(&vec![carrier(&[20, 1, 20, 1, 20, 5])]),
        cenotaph(Flaw::UnrecognizedEvenTag, Some(id(1, 1)))
    );
    assert_eq!(
        decipher(&vec![carrier(&[20, 0, 20, 1])]),
        cenotaph(Flaw::UnrecognizedEvenTag, None)
    );
    assert_eq!(
        decipher(&vec![carrier(&[20, 1 << 64, 20, 1])]),
        cenotaph(Flaw::UnrecognizedEvenTag, None)
    );
    assert_eq!(
        decipher(&vec![carrier(&[20, 1, 20, 1 << 32])]),
        cenotaph(Flaw::UnrecognizedEvenTag, None)
    );
    assert_eq!(
        decipher(&vec![carrier(&[20, 0, 20, 0])]),
        Some(Artifact::Runestone(Runestone::mint(id(0, 0))))
    );
}

#[test]
fn decipher_pointer_must_name_an_output() {
    let with_pointer = Runestone { edicts: Vec::new(), mint: None, pointer: Some(1) };
    assert_eq!(
        decipher(&vec![carrier(&[22, 1]), output(vec![])]),
        Some(Artifact::Runestone(with_pointer))
    );
    assert_eq!(decipher(&vec![carrier(&[22, 1])]), cenotaph(Flaw::UnrecognizedEvenTag, None));
    assert_eq!(
        decipher(&vec![carrier(&[22, 1 << 32])]),
        cenotaph(Flaw::UnrecognizedEvenTag, None)
    );
    assert_eq!(
        decipher(&vec![carrier(&[22, 0, 22, 0])]),
        cenotaph(Flaw::UnrecognizedEvenTag, None)
    );
}

#[test]
fn decipher_edicts() {
    let one = Runestone {
        edicts: vec![Edict { id: id(1, 1), amount: 5, output: 1 }],
        mint: None,
        pointer: None,
    };
    assert_eq!(decipher(&vec![carrier(&[0, 1, 1, 5, 1])]), Some(Artifact::Runestone(one)));
    assert_eq!(decipher(&vec![carrier(&[0])]), Some(Artifact::Runestone(empty())));
    assert_eq!(decipher(&vec![carrier(&[0, 1, 1, 5])]), cenotaph(Flaw::TrailingIntegers, None));
    assert_eq!(decipher(&vec![carrier(&[0, 1, 1, 5, 2])]), cenotaph(Flaw::EdictOutput, None));
    assert_eq!(decipher(&vec![carrier(&[0, 0, 1, 5, 0])]), cenotaph(Flaw::EdictRuneId, None));
    assert_eq!(
        decipher(&vec![carrier(&[0, 1 << 64, 1, 5, 0])]),
        cenotaph(Flaw::EdictRuneId, None)
    );
    assert_eq!(
        decipher(&vec![carrier(&[20, 1, 20, 1, 0, 1, 1, 5, 0, 0, 1])]),
        cenotaph(Flaw::TrailingIntegers, Some(id(1, 1)))
    );
}

#[test]
fn edict_ids_are_distances() {
    let message = Message::from_integers(3, &[0, 5, 3, 1, 0, 0, 4, 2, 1, 2, 9, 3, 3]);
    assert_eq!(message.flaw, None);
    assert_eq!(
        message.edicts,
        vec![
            Edict { id: id(5, 3), amount: 1, output: 0 },
            Edict { id: id(5, 7), amount: 2, output: 1 },
            Edict { id: id(7, 9), amount: 3, output: 3 },
        ]
    );
    let message = Message::from_integers(3, &[0, 5, 3, 1, 0, 0, u128::from(u32::MAX), 2, 1]);
    assert_eq!(message.flaw, Some(Flaw::EdictRuneId));
    assert_eq!(message.edicts.len(), 1);
}

#[test]
fn message_fields_stop_at_the_body() {
    let message = Message::from_integers(1, &[20, 1, 21, 2, 0, 1, 1, 5, 0]);
    assert_eq!(message.fields, vec![(20, 1), (21, 2)]);
    assert_eq!(message.edicts.len(), 1);
    assert_eq!(message.flaw, None);
}

#[test]
fn integers_reads_all_or_nothing() {
    assert_eq!(integers(&[]), Some(vec![]));
    assert_eq!(integers(&[1, 0x80, 0x01, 3]), Some(vec![1, 128, 3]));
    assert_eq!(integers(&[1, 0x80]), None);
}

#[test]
fn rune_id_next_and_delta() {
    assert_eq!(RuneId::new(0, 1), None);
    assert_eq!(RuneId::new(0, 0), Some(id(0, 0)));
    assert_eq!(id(5, 3).next(0, 4), Some(id(5, 7)));
    assert_eq!(id(5, 3).next(2, 4), Some(id(7, 4)));
    assert_eq!(id(5, 3).next(0, u128::from(u32::MAX)), None);
    assert_eq!(id(1, 0).next(u128::from(u64::MAX), 0), None);
    assert_eq!(id(0, 0).next(0, 1), None);
    assert_eq!(id(5, 3).delta(id(5, 7)), Some((0, 4)));
    assert_eq!(id(5, 3).delta(id(7, 4)), Some((2, 4)));
    assert_eq!(id(5, 3).delta(id(5, 2)), None);
    assert_eq!(id(5, 3).delta(id(4, 9)), None);
    assert_eq!(id(5, 3).distance(id(7, 4)), (2, 4));
    assert!(id(5, 3).precedes(id(5, 3)));
    assert!(!id(5, 3).precedes(id(5, 2)));
}

#[test]
fn long_messages_use_longer_pushes() {
    let mut edicts = Vec::new();
    for i in 0..20u32 {
        edicts.push(Edict { id: id(1, i), amount: 1, output: 0 });
    }
    let message = Runestone { edicts, mint: None, pointer: None };
    let script = message.encipher();
    assert_eq!(script.len(), 2 + 2 + 81);
    assert_eq!(&script[..4], &[0x6a, 0x5d, 0x4c, 81]);
    assert_eq!(check_script_size(&script), Err(MintError::RunestoneTooLarge));
    assert_eq!(
        decipher(&vec![output(script)]),
        Some(Artifact::Runestone(message))
    );
}

#[test]
fn very_long_messages_are_split_into_pushes() {
    let mut edicts = Vec::new();
    for i in 0..131u32 {
        edicts.push(Edict { id: id(1, i), amount: 1, output: 0 });
    }
    let message = Runestone { edicts, mint: None, pointer: None };
    let script = message.encipher();
    assert_eq!(script.len(), 2 + 3 + 520 + 1 + 5);
    assert_eq!(&script[..5], &[0x6a, 0x5d, 0x4d, 0x08, 0x02]);
    assert_eq!(script[525], 5);
    assert_eq!(gather_pushes(&script, 2), Ok(message.payload()));
    assert_eq!(decipher(&vec![output(script)]), Some(Artifact::Runestone(message)));
}

#[test]
fn gather_pushes_reads_every_length_form() {
    assert_eq!(gather_pushes(&[2, 7, 8, 0x4c, 1, 9, 0x4d, 1, 0, 10, 0x4e, 1, 0, 0, 0, 11], 0),
        Ok(vec![7, 8, 9, 10, 11]));
    assert_eq!(gather_pushes(&[0x4f], 0), Err(PushError::Opcode));
    assert_eq!(gather_pushes(&[0x4e, 0, 0, 0], 0), Err(PushError::Truncated));
    assert_eq!(gather_pushes(&[1], 1), Ok(vec![]));
}

#[test]
fn script_size_limit_is_82() {
    assert_eq!(check_script_size(&[0u8; 82]), Ok(()));
    assert_eq!(check_script_size(&[0u8; 83]), Err(MintError::RunestoneTooLarge));
}
