//! Laws on the wire format of transactions.

use vstd::arithmetic::power::{lemma_pow1, pow};
use vstd::prelude::*;

use crate::tx::{TxView, CODE_TAG, DATA_TAG};
use crate::wire::{
    chunk, error_text, field_key, group_limit, past, past_group, varint, varint_len, varint_value,
    END_GROUP, LENGTH_DELIMITED, START_GROUP,
};

verus! {

/// A number as a variable length integer: seven bits a byte, the lowest first,
/// with the top bit set in all bytes but the last.
pub open spec fn varint_bytes(n: nat) -> Seq<u8>
    decreases n,
{
    if n < 0x80 {
        seq![n as u8]
    } else {
        seq![(n % 0x80 + 0x80) as u8] + varint_bytes(n / 0x80)
    }
}

/// A field of bytes: its key, its length, and the bytes.
pub open spec fn field_bytes(tag: u32, value: Seq<u8>) -> Seq<u8> {
    varint_bytes((tag * 8 + LENGTH_DELIMITED) as nat) + varint_bytes(value.len()) + value
}

/// A transaction on the wire.
pub open spec fn tx_bytes(tx: TxView) -> Seq<u8> {
    field_bytes(CODE_TAG, tx.code) + match tx.data {
        Some(data) => field_bytes(DATA_TAG, data),
        None => Seq::empty(),
    }
}

/// A number is read back from its bytes, whatever follows them.
proof fn lemma_varint_read(n: nat, rest: Seq<u8>)
    ensures
        varint_len(varint_bytes(n) + rest) == Some(varint_bytes(n).len()),
        varint_value(varint_bytes(n) + rest) == n,
    decreases n,
{
    let bytes = varint_bytes(n) + rest;
    if n >= 0x80 {
        lemma_varint_read(n / 0x80, rest);
        assert(bytes.skip(1) =~= varint_bytes(n / 0x80) + rest);
    }
}

/// A number below 128 to the power of `k` takes at most `k` bytes.
proof fn lemma_varint_size(n: nat, k: nat)
    requires
        k >= 1,
        n < pow(0x80, k),
    ensures
        varint_bytes(n).len() <= k,
    decreases k,
{
    if n >= 0x80 {
        if k == 1 {
            lemma_pow1(0x80);
        } else {
            reveal_with_fuel(pow, 2);
            assert(pow(0x80, k) == 0x80 * pow(0x80, (k - 1) as nat));
            lemma_varint_size(n / 0x80, (k - 1) as nat);
        }
    }
}

/// A number of 64 bits is read back from its bytes, and the bytes that follow
/// are left.
pub proof fn law_varint(n: nat, rest: Seq<u8>)
    requires
        n <= u64::MAX,
    ensures
        varint(varint_bytes(n) + rest) == Some((n, rest)),
{
    lemma_varint_read(n, rest);
    assert(n < pow(0x80, 10)) by {
        reveal_with_fuel(pow, 11);
        assert(pow(0x80, 10) == 0x80 * 0x80 * 0x80 * 0x80 * 0x80 * 0x80 * 0x80 * 0x80 * 0x80
            * 0x80);
    }
    lemma_varint_size(n, 10);
    assert((varint_bytes(n) + rest).skip(varint_bytes(n).len() as int) =~= rest);
}

/// A field of bytes is read back, and the bytes that follow are left.
proof fn lemma_field_read(tag: u32, value: Seq<u8>, rest: Seq<u8>)
    requires
        1 <= tag < 0x2000_0000,
        value.len() <= u64::MAX,
    ensures
        ({
            let bytes = field_bytes(tag, value) + rest;
            let body = varint_bytes(value.len()) + value + rest;
            &&& bytes.len() > 0
            &&& field_key(bytes) == Some((tag, LENGTH_DELIMITED, body))
            &&& chunk(LENGTH_DELIMITED, body) == Some((value, rest))
        }),
{
    let key = (tag * 8 + LENGTH_DELIMITED) as nat;
    let bytes = field_bytes(tag, value) + rest;
    let body = varint_bytes(value.len()) + value + rest;
    assert(bytes =~= varint_bytes(key) + body);
    law_varint(key, body);
    assert(body =~= varint_bytes(value.len()) + (value + rest));
    law_varint(value.len(), value + rest);
    assert((value + rest).take(value.len() as int) =~= value);
    assert((value + rest).skip(value.len() as int) =~= rest);
}

/// A field of code sets the code of the transaction, and the rest is read on.
pub proof fn law_code_field(tx: TxView, code: Seq<u8>, rest: Seq<u8>)
    requires
        code.len() <= u64::MAX,
    ensures
        tx.merge(field_bytes(CODE_TAG, code) + rest) == (TxView { code, ..tx }).merge(rest),
{
    lemma_field_read(CODE_TAG, code, rest);
}

/// A field of data sets the data of the transaction, and the rest is read on.
pub proof fn law_data_field(tx: TxView, data: Seq<u8>, rest: Seq<u8>)
    requires
        data.len() <= u64::MAX,
    ensures
        tx.merge(field_bytes(DATA_TAG, data) + rest) == (TxView { data: Some(data), ..tx }).merge(
            rest,
        ),
{
    lemma_field_read(DATA_TAG, data, rest);
}

/// A field of bytes under any other tag changes nothing, and the rest is read
/// on.
pub proof fn law_unknown_field(tx: TxView, tag: u32, value: Seq<u8>, rest: Seq<u8>)
    requires
        1 <= tag < 0x2000_0000,
        tag != CODE_TAG,
        tag != DATA_TAG,
        value.len() <= u64::MAX,
    ensures
        tx.merge(field_bytes(tag, value) + rest) == tx.merge(rest),
{
    lemma_field_read(tag, value, rest);
}

/// A field key on the wire.
pub open spec fn key_bytes(tag: u32, wire: u8) -> Seq<u8> {
    varint_bytes((tag * 8 + wire) as nat)
}

/// The same field key, `n` times.
pub open spec fn keys_bytes(tag: u32, wire: u8, n: nat) -> Seq<u8>
    decreases n,
{
    if n == 0 {
        Seq::empty()
    } else {
        key_bytes(tag, wire) + keys_bytes(tag, wire, (n - 1) as nat)
    }
}

/// Groups nested `n` deep, and nothing else in them.
pub open spec fn nested_groups(tag: u32, n: nat) -> Seq<u8> {
    keys_bytes(tag, START_GROUP, n) + keys_bytes(tag, END_GROUP, n)
}

/// A field key is read back, and the bytes that follow are left.
proof fn lemma_key_read(tag: u32, wire: u8, rest: Seq<u8>)
    requires
        1 <= tag < 0x2000_0000,
        wire <= 5,
    ensures
        field_key(key_bytes(tag, wire) + rest) == Some((tag, wire, rest)),
{
    law_varint((tag * 8 + wire) as nat, rest);
}

/// The first of a number of field keys may as well come last.
proof fn lemma_keys_turned(tag: u32, wire: u8, n: nat)
    ensures
        keys_bytes(tag, wire, n + 1) == keys_bytes(tag, wire, n) + key_bytes(tag, wire),
    decreases n,
{
    let key = key_bytes(tag, wire);
    if n == 0 {
        reveal_with_fuel(keys_bytes, 2);
        assert(keys_bytes(tag, wire, 1) =~= keys_bytes(tag, wire, 0) + key);
    } else {
        lemma_keys_turned(tag, wire, (n - 1) as nat);
        assert(keys_bytes(tag, wire, n + 1) == key + keys_bytes(tag, wire, n));
        assert(key + (keys_bytes(tag, wire, (n - 1) as nat) + key) =~= (key + keys_bytes(
            tag,
            wire,
            (n - 1) as nat,
        )) + key);
    }
}

/// A group that holds groups nested `n` deep is passed over if `n` is not more
/// than the depth that is left.
proof fn lemma_group_depth(tag: u32, n: nat, depth: nat, rest: Seq<u8>)
    requires
        1 <= tag < 0x2000_0000,
    ensures
        past_group(
            tag,
            nested_groups(tag, n) + (key_bytes(tag, END_GROUP) + rest),
            depth,
        ) == if n <= depth {
            Ok(rest)
        } else {
            Err("recursion limit reached"@)
        },
    decreases n,
{
    let end = key_bytes(tag, END_GROUP) + rest;
    let bytes = nested_groups(tag, n) + end;
    lemma_key_read(tag, END_GROUP, rest);
    if n == 0 {
        assert(bytes =~= end);
    } else {
        let less = (n - 1) as nat;
        let inner = nested_groups(tag, less) + (key_bytes(tag, END_GROUP) + end);
        lemma_keys_turned(tag, END_GROUP, less);
        assert(bytes =~= key_bytes(tag, START_GROUP) + inner);
        lemma_key_read(tag, START_GROUP, inner);
        if depth > 0 {
            lemma_group_depth(tag, less, (depth - 1) as nat, end);
            assert(past(START_GROUP, tag, inner, depth) == past_group(
                tag,
                inner,
                (depth - 1) as nat,
            ));
            if n <= depth {
                assert(end.len() < bytes.len());
                assert(past_group(tag, end, depth) == Ok::<_, Seq<char>>(rest));
            }
        }
    }
}

/// Nested groups under an unknown tag change nothing, and the rest is read on,
/// as long as they nest no deeper than the limit. Beyond it, the bytes do not
/// decode.
pub proof fn law_unknown_groups(tx: TxView, tag: u32, n: nat, rest: Seq<u8>)
    requires
        1 <= tag < 0x2000_0000,
        tag != CODE_TAG,
        tag != DATA_TAG,
        n >= 1,
    ensures
        tx.merge(nested_groups(tag, n) + rest) == if n <= group_limit() {
            tx.merge(rest)
        } else {
            Err(error_text("recursion limit reached"@))
        },
{
    let less = (n - 1) as nat;
    let inner = nested_groups(tag, less) + (key_bytes(tag, END_GROUP) + rest);
    lemma_keys_turned(tag, END_GROUP, less);
    assert(nested_groups(tag, n) + rest =~= key_bytes(tag, START_GROUP) + inner);
    lemma_key_read(tag, START_GROUP, inner);
    lemma_group_depth(tag, less, (group_limit() - 1) as nat, rest);
    assert((key_bytes(tag, START_GROUP) + inner).len() > 0);
}

/// A transaction is decoded from its bytes on the wire.
pub proof fn law_tx_round_trip(tx: TxView)
    requires
        tx.code.len() <= u64::MAX,
        tx.data matches Some(data) ==> data.len() <= u64::MAX,
    ensures
        TxView::decode(tx_bytes(tx)) == Ok::<TxView, Seq<char>>(tx),
{
    let coded = TxView { code: tx.code, data: None };
    match tx.data {
        Some(data) => {
            law_code_field(TxView::blank(), tx.code, field_bytes(DATA_TAG, data));
            law_data_field(coded, data, Seq::empty());
            assert(field_bytes(DATA_TAG, data) + Seq::<u8>::empty() =~= field_bytes(
                DATA_TAG,
                data,
            ));
        },
        None => {
            law_code_field(TxView::blank(), tx.code, Seq::empty());
        },
    }
}

} // verus!
