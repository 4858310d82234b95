//! Decoding of transactions.

use anoma_shell::error::Error;
use anoma_shell::protocol::MempoolTxType;
use anoma_shell::shell::Shell;
use anoma_shell::tx::Tx;

fn encode(code: &[u8], data: Option<&[u8]>) -> Vec<u8> {
    let mut bytes = Vec::new();
    prost::encoding::bytes::encode(1, &code.to_vec(), &mut bytes);
    if let Some(data) = data {
        prost::encoding::bytes::encode(2, &data.to_vec(), &mut bytes);
    }
    bytes
}

fn tx(code: &[u8], data: Option<&[u8]>) -> Tx {
    Tx { code: code.to_vec(), data: data.map(|d| d.to_vec()) }
}

#[test]
fn empty_bytes_are_a_blank_transaction() {
    assert_eq!(Tx::decode(&[]), Ok(tx(&[], None)));
}

#[test]
fn exact_bytes_decode() {
    assert_eq!(Tx::decode(&[0x0a, 2, 7, 8, 0x12, 1, 9]), Ok(tx(&[7, 8], Some(&[9]))));
}

#[test]
fn encoded_transactions_round_trip() {
    let long = vec![0xabu8; 70_000];
    let cases: Vec<(&[u8], Option<&[u8]>)> = vec![
        (&[], None),
        (&[], Some(&[])),
        (&[1, 2, 3], None),
        (&[1, 2, 3], Some(&[4])),
        (&long, Some(&long)),
    ];
    for (code, data) in cases {
        assert_eq!(Tx::decode(&encode(code, data)), Ok(tx(code, data)));
    }
}

#[test]
fn data_may_come_before_code() {
    assert_eq!(Tx::decode(&[0x12, 1, 9, 0x0a, 1, 7]), Ok(tx(&[7], Some(&[9]))));
}

#[test]
fn the_last_of_repeated_fields_counts() {
    assert_eq!(Tx::decode(&[0x0a, 1, 7, 0x0a, 2, 8, 9]), Ok(tx(&[8, 9], None)));
}

#[test]
fn unknown_fields_are_passed_over() {
    // A varint, a 64 bit, a length delimited and a 32 bit field, and a group.
    let unknown: Vec<Vec<u8>> = vec![
        vec![0x18, 0x96, 0x01],
        vec![0x19, 1, 2, 3, 4, 5, 6, 7, 8],
        vec![0x1a, 2, 1, 2],
        vec![0x1d, 1, 2, 3, 4],
        vec![0x1b, 0x08, 0x05, 0x1c],
    ];
    for field in unknown {
        let mut bytes = field.clone();
        bytes.extend_from_slice(&[0x0a, 1, 7]);
        bytes.extend_from_slice(&field);
        assert_eq!(Tx::decode(&bytes), Ok(tx(&[7], None)));
    }
}

/// Groups of tag 3 nested `n` deep, with `inner` in the innermost.
fn nested(n: usize, inner: &[u8]) -> Vec<u8> {
    let mut bytes = vec![0x1b; n];
    bytes.extend_from_slice(inner);
    bytes.extend(vec![0x1c; n]);
    bytes
}

#[test]
fn groups_are_passed_over_with_all_their_fields() {
    let groups: Vec<Vec<u8>> = vec![
        // an empty group
        vec![0x1b, 0x1c],
        // a group of another tag in a group
        vec![0x1b, 0x23, 0x24, 0x1c],
        // two groups in a group, with fields before, between and after them
        vec![
            0x1b, 0x08, 1, 0x1b, 0x0a, 2, 5, 6, 0x1c, 0x1d, 1, 2, 3, 4, 0x23, 0x24, 0x11, 1, 2, 3,
            4, 5, 6, 7, 8, 0x1c,
        ],
        // an end of a group among the bytes of a field is no end
        vec![0x1b, 0x0a, 2, 0x1c, 0x1c, 0x1c],
        nested(7, &[0x0a, 1, 7]),
    ];
    for group in groups {
        let mut bytes = group.clone();
        bytes.extend_from_slice(&[0x0a, 1, 8]);
        bytes.extend_from_slice(&group);
        assert_eq!(Tx::decode(&bytes), Ok(tx(&[8], None)));
    }
}

#[test]
fn a_group_needs_its_own_end() {
    let wrong: Vec<Vec<u8>> = vec![
        vec![0x1b, 0x24],
        vec![0x1b, 0x23, 0x1c, 0x24],
        vec![0x1b, 0x1c, 0x1c],
    ];
    for bytes in wrong {
        assert_eq!(
            Tx::decode(&bytes),
            Err("failed to decode Protobuf message: unexpected end group tag".to_string())
        );
    }
    let missing: Vec<Vec<u8>> = vec![vec![0x1b], vec![0x1b, 0x08, 5], vec![0x1b, 0x23, 0x24]];
    for bytes in missing {
        assert_eq!(
            Tx::decode(&bytes),
            Err("failed to decode Protobuf message: invalid varint".to_string())
        );
    }
    // what is wrong with a field in a group is wrong with the group
    assert_eq!(
        Tx::decode(&[0x1b, 0x0a, 2, 0x1c]),
        Err("failed to decode Protobuf message: buffer underflow".to_string())
    );
    assert_eq!(
        Tx::decode(&[0x1b, 0x0e, 0x1c]),
        Err("failed to decode Protobuf message: invalid wire type value: 6".to_string())
    );
}

#[test]
fn groups_nest_up_to_a_limit() {
    let too_deep = Err("failed to decode Protobuf message: recursion limit reached".to_string());
    let mut bytes = nested(100, &[]);
    bytes.extend_from_slice(&[0x0a, 1, 7]);
    assert_eq!(Tx::decode(&bytes), Ok(tx(&[7], None)));
    assert_eq!(Tx::decode(&nested(99, &[0x08, 1])), Ok(tx(&[], None)));
    assert_eq!(Tx::decode(&nested(101, &[])), too_deep);
    assert_eq!(Tx::decode(&nested(250, &[])), too_deep);
    // a value in the innermost group counts as one level
    assert_eq!(Tx::decode(&nested(100, &[0x08, 1])), too_deep);
}

#[test]
fn a_length_is_cut_to_64_bits() {
    // 2 to the power of 64, and 1
    let bytes = [0x0a, 0x81, 0x80, 0x80, 0x80, 0x80, 0x80, 0x80, 0x80, 0x80, 0x02, 7];
    assert_eq!(Tx::decode(&bytes), Ok(tx(&[7], None)));
    // 2 to the power of 63
    let bytes = [0x0a, 0x80, 0x80, 0x80, 0x80, 0x80, 0x80, 0x80, 0x80, 0x80, 0x01, 7];
    assert_eq!(
        Tx::decode(&bytes),
        Err("failed to decode Protobuf message: Tx.code: buffer underflow".to_string())
    );
    // the same ten bytes as the length of a field that is passed over
    let bytes = [0x1a, 0x81, 0x80, 0x80, 0x80, 0x80, 0x80, 0x80, 0x80, 0x80, 0x02, 7, 0x0a, 0];
    assert_eq!(Tx::decode(&bytes), Ok(tx(&[], None)));
    // a length whose ten bytes all have their top bit set
    let mut bytes = vec![0x0a];
    bytes.extend([0xff; 10]);
    bytes.push(7);
    assert_eq!(
        Tx::decode(&bytes),
        Err("failed to decode Protobuf message: Tx.code: invalid varint".to_string())
    );
}

#[test]
fn a_key_of_several_bytes_is_read() {
    // Tag 16 of wire type 0.
    assert_eq!(Tx::decode(&[0x80, 0x01, 0x05, 0x0a, 1, 7]), Ok(tx(&[7], None)));
    // An overlong key of tag 1.
    assert_eq!(Tx::decode(&[0x8a, 0x00, 1, 7]), Ok(tx(&[7], None)));
}

#[test]
fn decoding_errors_say_what_is_wrong() {
    let cases: Vec<(Vec<u8>, &str)> = vec![
        (vec![0x0a], "failed to decode Protobuf message: Tx.code: invalid varint"),
        (vec![0x0a, 2, 7], "failed to decode Protobuf message: Tx.code: buffer underflow"),
        (vec![0x12, 2, 7], "failed to decode Protobuf message: Tx.data: buffer underflow"),
        (
            vec![0x08, 1],
            "failed to decode Protobuf message: Tx.code: invalid wire type: Varint (expected LengthDelimited)",
        ),
        (vec![0x0e], "failed to decode Protobuf message: invalid wire type value: 6"),
        (vec![0x02], "failed to decode Protobuf message: invalid tag value: 0"),
        (vec![0xff], "failed to decode Protobuf message: invalid varint"),
        (
            vec![0xff, 0xff, 0xff, 0xff, 0xff, 0xff, 0xff, 0xff, 0xff, 0xff, 0x01],
            "failed to decode Protobuf message: invalid varint",
        ),
        (
            vec![0x80, 0x80, 0x80, 0x80, 0x10],
            "failed to decode Protobuf message: invalid key value: 4294967296",
        ),
        (
            vec![0x15, 1],
            "failed to decode Protobuf message: Tx.data: invalid wire type: ThirtyTwoBit (expected LengthDelimited)",
        ),
        (
            vec![0x09],
            "failed to decode Protobuf message: Tx.code: invalid wire type: SixtyFourBit (expected LengthDelimited)",
        ),
        (
            vec![0x0b],
            "failed to decode Protobuf message: Tx.code: invalid wire type: StartGroup (expected LengthDelimited)",
        ),
        (
            vec![0x14],
            "failed to decode Protobuf message: Tx.data: invalid wire type: EndGroup (expected LengthDelimited)",
        ),
        (vec![0x0f], "failed to decode Protobuf message: invalid wire type value: 7"),
        (vec![0x18], "failed to decode Protobuf message: invalid varint"),
        (vec![0x19, 1, 2, 3], "failed to decode Protobuf message: buffer underflow"),
        (vec![0x1a, 2, 1], "failed to decode Protobuf message: buffer underflow"),
        (vec![0x1d, 1], "failed to decode Protobuf message: buffer underflow"),
        (vec![0x1c], "failed to decode Protobuf message: unexpected end group tag"),
    ];
    for (bytes, text) in cases {
        assert_eq!(Tx::decode(&bytes), Err(text.to_string()));
    }
}

#[test]
fn a_transaction_splits_into_code_and_input() {
    assert_eq!(tx(&[1], None).split(), (vec![1], vec![]));
    assert_eq!(tx(&[1], Some(&[2])).split(), (vec![1], vec![2]));
}

#[test]
fn the_mempool_takes_what_decodes() {
    let (shell, _) = Shell::new("db".to_string());
    for tx_type in [MempoolTxType::NewTransaction, MempoolTxType::RecheckTransaction] {
        assert_eq!(shell.mempool_validate(&[0x0a, 1, 7], tx_type.clone()), Ok(()));
        assert_eq!(
            shell.mempool_validate(&[0x0a, 2, 7], tx_type),
            Err(Error::TxDecodingError(
                "failed to decode Protobuf message: Tx.code: buffer underflow".to_string()
            ))
        );
    }
}
