//! Laws on the decoding of transactions: what decodes, what does not, and what
//! is read.

use vstd::arithmetic::div_mod::lemma_mod_multiples_vanish;
use vstd::prelude::*;

use crate::error::ErrorView;
use crate::laws::wire::{
    field_bytes, law_code_field, law_data_field, law_varint, tx_bytes, varint_bytes,
};
use crate::machine::mempool_result;
use crate::text::decimal_text;
use crate::tx::{TxView, CODE_TAG, DATA_TAG};
use crate::wire::{
    chunk, field_key, group_limit, lemma_chunk_shorter, lemma_field_key_shorter,
    lemma_past_shorter, lemma_varint_len, past, past_fixed, past_group, skipped, varint,
    varint_len, varint_value, LENGTH_DELIMITED, START_GROUP,
};

verus! {

/// The data of a transaction is what it is run on, all of it. One that has none
/// is run on no bytes.
pub proof fn law_input(code: Seq<u8>, data: Seq<u8>)
    ensures
        (TxView { code, data: Some(data) }).input() == data,
        (TxView { code, data: None }).input() == Seq::<u8>::empty(),
{
}

/// No bytes are a transaction without code and data, and add nothing to one.
pub proof fn law_nothing_to_read(tx: TxView)
    ensures
        tx.merge(Seq::empty()) == Ok::<_, Seq<char>>(tx),
        TxView::decode(Seq::empty()) == Ok::<_, Seq<char>>(
            TxView { code: Seq::empty(), data: None },
        ),
{
}

/// Bytes that do not start with a field never decode, whatever was read before
/// them, and the error says what is wrong with them.
pub proof fn law_no_field(tx: TxView, bytes: Seq<u8>)
    requires
        bytes.len() > 0,
        field_key(bytes) is None,
    ensures
        tx.merge(bytes) == Err::<TxView, Seq<char>>(
            "failed to decode Protobuf message: "@ + match varint(bytes) {
                None => "invalid varint"@,
                Some((key, _)) => if key > u32::MAX {
                    "invalid key value: "@ + decimal_text(key)
                } else if key % 8 > 5 {
                    "invalid wire type value: "@ + decimal_text(key % 8)
                } else {
                    "invalid tag value: 0"@
                },
            },
        ),
{
}

/// The code of a transaction, or its data, that is not in order never decodes,
/// whatever was read before it. The error names the field, and says what is
/// wrong with it.
pub proof fn law_malformed_field(tx: TxView, tag: u32, wire: u8, bytes: Seq<u8>, value: Seq<u8>)
    requires
        field_key(bytes) == Some((tag, wire, value)),
        tag == 1 || tag == 2,
        chunk(wire, value) is None,
    ensures
        tx.merge(bytes) == Err::<TxView, Seq<char>>(
            "failed to decode Protobuf message: "@ + (if tag == 1 {
                "Tx.code: "@
            } else {
                "Tx.data: "@
            } + (if wire != 2 {
                "invalid wire type: "@ + match wire {
                    0 => "Varint"@,
                    1 => "SixtyFourBit"@,
                    3 => "StartGroup"@,
                    4 => "EndGroup"@,
                    _ => "ThirtyTwoBit"@,
                } + " (expected LengthDelimited)"@
            } else if varint(value) is None {
                "invalid varint"@
            } else {
                "buffer underflow"@
            })),
        ),
        mempool_result(bytes) is Err,
{
    lemma_field_key_shorter(bytes);
    reveal_strlit("Tx");
    reveal_strlit(".");
    reveal_strlit("code");
    reveal_strlit("data");
    reveal_strlit(": ");
    reveal_strlit("Tx.code: ");
    reveal_strlit("Tx.data: ");
    assert("Tx"@ + "."@ + "code"@ + ": "@ =~= "Tx.code: "@);
    assert("Tx"@ + "."@ + "data"@ + ": "@ =~= "Tx.data: "@);
}

/// A field of code in order gives the transaction this code, and one of data
/// this data, whatever was read before. The other is left as it is, and the
/// rest is read on.
pub proof fn law_field_is_read(
    tx: TxView,
    tag: u32,
    wire: u8,
    bytes: Seq<u8>,
    value: Seq<u8>,
    held: Seq<u8>,
    rest: Seq<u8>,
)
    requires
        field_key(bytes) == Some((tag, wire, value)),
        chunk(wire, value) == Some((held, rest)),
    ensures
        tag == 1 ==> tx.merge(bytes) == (TxView { code: held, data: tx.data }).merge(rest),
        tag == 2 ==> tx.merge(bytes) == (TxView { code: tx.code, data: Some(held) }).merge(rest),
{
    lemma_field_key_shorter(bytes);
    lemma_chunk_shorter(wire, value);
}

/// A field of any other tag changes nothing if it can be passed over, and the
/// rest is read on. If it cannot, the bytes do not decode, and the error says
/// why.
pub proof fn law_field_is_passed_over(
    tx: TxView,
    tag: u32,
    wire: u8,
    bytes: Seq<u8>,
    value: Seq<u8>,
)
    requires
        field_key(bytes) == Some((tag, wire, value)),
        tag != 1 && tag != 2,
    ensures
        match past(wire, tag, value, 100) {
            Ok(rest) => tx.merge(bytes) == tx.merge(rest),
            Err(fault) => tx.merge(bytes) == Err::<TxView, Seq<char>>(
                "failed to decode Protobuf message: "@ + fault,
            ),
        },
{
    lemma_field_key_shorter(bytes);
    lemma_past_shorter(wire, tag, value, group_limit());
}

/// Whether bytes can be read does not depend on what was read before them, nor
/// does what is wrong with them, nor what they hold: the code that is read from
/// them is the same whatever came before, or there is none in them, and so with
/// the data.
pub proof fn law_reading_has_no_memory(first: TxView, second: TxView, bytes: Seq<u8>)
    ensures
        match (first.merge(bytes), second.merge(bytes)) {
            (Ok(a), Ok(b)) => {
                &&& a.code == b.code || (a.code == first.code && b.code == second.code)
                &&& a.data == b.data || (a.data == first.data && b.data == second.data)
            },
            (Err(a), Err(b)) => a == b,
            _ => false,
        },
    decreases bytes.len(),
{
    if bytes.len() > 0 {
        lemma_field_key_shorter(bytes);
        if let Some((tag, wire, value)) = field_key(bytes) {
            lemma_chunk_shorter(wire, value);
            lemma_past_shorter(wire, tag, value, group_limit());
            if tag == CODE_TAG {
                if let Some((code, rest)) = chunk(wire, value) {
                    law_reading_has_no_memory(
                        TxView { code, ..first },
                        TxView { code, ..second },
                        rest,
                    );
                }
            } else if tag == DATA_TAG {
                if let Some((data, rest)) = chunk(wire, value) {
                    law_reading_has_no_memory(
                        TxView { data: Some(data), ..first },
                        TxView { data: Some(data), ..second },
                        rest,
                    );
                }
            } else if let Ok(rest) = skipped(wire, tag, value) {
                law_reading_has_no_memory(first, second, rest);
            }
        }
    }
}

proof fn lemma_varint_on(bytes: Seq<u8>, more: Seq<u8>)
    ensures
        varint_len(bytes) is Some ==> varint_len(bytes + more) == varint_len(bytes) && varint_value(
            bytes + more,
        ) == varint_value(bytes),
    decreases bytes.len(),
{
    if bytes.len() > 0 && bytes[0] >= 0x80 {
        lemma_varint_on(bytes.skip(1), more);
        assert((bytes + more).skip(1) =~= bytes.skip(1) + more);
    }
}

/// A number, a key or a chunk at the start of bytes is there with more bytes
/// after them too.
proof fn lemma_start_on(wire: u8, bytes: Seq<u8>, more: Seq<u8>)
    ensures
        varint(bytes) matches Some((n, rest)) ==> varint(bytes + more) == Some((n, rest + more)),
        field_key(bytes) matches Some((tag, kind, rest)) ==> field_key(bytes + more) == Some(
            (tag, kind, rest + more),
        ),
        chunk(wire, bytes) matches Some((held, rest)) ==> chunk(wire, bytes + more) == Some(
            (held, rest + more),
        ),
{
    lemma_varint_on(bytes, more);
    lemma_varint_len(bytes);
    if let Some((n, rest)) = varint(bytes) {
        let len = varint_len(bytes)->Some_0;
        assert((bytes + more).skip(len as int) =~= rest + more);
        if n <= rest.len() {
            assert((rest + more).take(n as int) =~= rest.take(n as int));
            assert((rest + more).skip(n as int) =~= rest.skip(n as int) + more);
        }
    }
}

proof fn lemma_past_on(wire: u8, tag: u32, bytes: Seq<u8>, depth: nat, more: Seq<u8>)
    ensures
        past(wire, tag, bytes, depth) matches Ok(rest) ==> past(wire, tag, bytes + more, depth)
            == Ok::<_, Seq<char>>(rest + more),
    decreases depth, bytes.len(),
{
    lemma_start_on(wire, bytes, more);
    if let Ok(rest) = past(wire, tag, bytes, depth) {
        if wire == START_GROUP {
            lemma_past_group_on(tag, bytes, (depth - 1) as nat, more);
        } else if past_fixed(bytes, 8) is Ok {
            assert((bytes + more).skip(8) =~= bytes.skip(8) + more);
        }
        if past_fixed(bytes, 4) is Ok {
            assert((bytes + more).skip(4) =~= bytes.skip(4) + more);
        }
    }
}

proof fn lemma_past_group_on(tag: u32, bytes: Seq<u8>, depth: nat, more: Seq<u8>)
    ensures
        past_group(tag, bytes, depth) matches Ok(rest) ==> past_group(tag, bytes + more, depth)
            == Ok::<_, Seq<char>>(rest + more),
    decreases depth, bytes.len(),
{
    lemma_field_key_shorter(bytes);
    lemma_start_on(0, bytes, more);
    if let Some((inner, wire, value)) = field_key(bytes) {
        lemma_past_on(wire, inner, value, depth, more);
        lemma_past_shorter(wire, inner, value, depth);
        if let Ok(rest) = past(wire, inner, value, depth) {
            lemma_past_group_on(tag, rest, depth, more);
        }
    }
}

/// Bytes that decode may be followed by others: these are read on from what has
/// been read by then.
pub proof fn law_read_on(tx: TxView, bytes: Seq<u8>, more: Seq<u8>)
    ensures
        tx.merge(bytes) matches Ok(so_far) ==> tx.merge(bytes + more) == so_far.merge(more),
    decreases bytes.len(),
{
    if bytes.len() == 0 {
        assert(bytes + more =~= more);
    } else {
        lemma_field_key_shorter(bytes);
        lemma_start_on(0, bytes, more);
        if let Some((tag, wire, value)) = field_key(bytes) {
            lemma_start_on(wire, value, more);
            lemma_chunk_shorter(wire, value);
            lemma_past_on(wire, tag, value, group_limit(), more);
            lemma_past_shorter(wire, tag, value, group_limit());
            if tag == CODE_TAG {
                if let Some((code, rest)) = chunk(wire, value) {
                    law_read_on(TxView { code, ..tx }, rest, more);
                }
            } else if tag == DATA_TAG {
                if let Some((data, rest)) = chunk(wire, value) {
                    law_read_on(TxView { data: Some(data), ..tx }, rest, more);
                }
            } else if let Ok(rest) = skipped(wire, tag, value) {
                law_read_on(tx, rest, more);
            }
        }
    }
}

/// The last code and the last data count: where more fields follow a
/// transaction, they replace what it has.
pub proof fn law_last_field_counts(bytes: Seq<u8>, tx: TxView, code: Seq<u8>, data: Seq<u8>)
    requires
        TxView::decode(bytes) == Ok::<_, Seq<char>>(tx),
        code.len() <= u64::MAX,
        data.len() <= u64::MAX,
    ensures
        TxView::decode(bytes + field_bytes(1, code)) == Ok::<_, Seq<char>>(
            TxView { code, data: tx.data },
        ),
        TxView::decode(bytes + field_bytes(2, data)) == Ok::<_, Seq<char>>(
            TxView { code: tx.code, data: Some(data) },
        ),
{
    let none = Seq::<u8>::empty();
    law_read_on(TxView::blank(), bytes, field_bytes(CODE_TAG, code));
    law_read_on(TxView::blank(), bytes, field_bytes(DATA_TAG, data));
    law_code_field(tx, code, none);
    law_data_field(tx, data, none);
    assert(field_bytes(CODE_TAG, code) + none =~= field_bytes(CODE_TAG, code));
    assert(field_bytes(DATA_TAG, data) + none =~= field_bytes(DATA_TAG, data));
}

proof fn lemma_cut_varint(n: nat, k: int)
    requires
        0 <= k < varint_bytes(n).len(),
    ensures
        varint_len(varint_bytes(n).take(k)) is None,
    decreases n,
{
    let bytes = varint_bytes(n);
    if n < 0x80 {
        assert(bytes.take(k) =~= Seq::empty());
    } else if k > 0 {
        lemma_cut_varint(n / 0x80, k - 1);
        assert(bytes.take(k).skip(1) =~= varint_bytes(n / 0x80).take(k - 1));
        assert(bytes.take(k)[0] >= 0x80);
    }
}

/// A field of code or data that is cut short does not decode.
proof fn lemma_cut_field(tx: TxView, tag: u32, value: Seq<u8>, n: int)
    requires
        tag == CODE_TAG || tag == DATA_TAG,
        value.len() <= u64::MAX,
        0 < n < field_bytes(tag, value).len(),
    ensures
        tx.merge(field_bytes(tag, value).take(n)) is Err,
{
    let key = (tag * 8 + LENGTH_DELIMITED) as nat;
    let size = varint_bytes(value.len());
    let body = size + value;
    let cut = field_bytes(tag, value).take(n);
    let left = body.take(n - 1);
    assert(varint_bytes(key) =~= seq![key as u8]);
    assert(field_bytes(tag, value) =~= varint_bytes(key) + body);
    assert(cut =~= varint_bytes(key) + left);
    law_varint(key, left);
    assert(field_key(cut) == Some((tag, LENGTH_DELIMITED, left)));
    if n - 1 < size.len() {
        lemma_cut_varint(value.len(), n - 1);
        assert(left =~= size.take(n - 1));
    } else {
        let held = value.take(n - 1 - size.len());
        law_varint(value.len(), held);
        assert(left =~= size + held);
    }
    assert(chunk(LENGTH_DELIMITED, left) is None);
    law_malformed_field(tx, tag, LENGTH_DELIMITED, cut, left);
}

/// A transaction that is cut short inside one of its fields does not decode, and
/// may not enter the mempool.
pub proof fn law_cut_transaction(tx: TxView, n: int)
    requires
        tx.code.len() <= u64::MAX,
        tx.data matches Some(data) ==> data.len() <= u64::MAX,
        0 < n < tx_bytes(tx).len(),
        n != field_bytes(1, tx.code).len(),
    ensures
        TxView::decode(tx_bytes(tx).take(n)) is Err,
        mempool_result(tx_bytes(tx).take(n)) matches Err(ErrorView::TxDecodingError(text))
            && TxView::decode(tx_bytes(tx).take(n)) == Err::<TxView, _>(text),
{
    let first = field_bytes(CODE_TAG, tx.code);
    let cut = tx_bytes(tx).take(n);
    if n < first.len() {
        lemma_cut_field(TxView::blank(), CODE_TAG, tx.code, n);
        assert(cut =~= first.take(n));
    } else {
        let data = tx.data->Some_0;
        let second = field_bytes(DATA_TAG, data).take(n - first.len());
        assert(cut =~= first + second);
        law_code_field(TxView::blank(), tx.code, second);
        lemma_cut_field(
            TxView { code: tx.code, ..TxView::blank() },
            DATA_TAG,
            data,
            n - first.len(),
        );
    }
}

/// Bytes start with a number if and only if one of the first ten is below 0x80.
/// That byte alone is the number if it is the first. A byte before it adds its
/// lower seven bits below those that follow, of which 64 count.
pub proof fn law_number(byte: u8, more: Seq<u8>)
    ensures
        varint(Seq::empty()) is None,
        byte < 0x80 ==> varint(seq![byte] + more) == Some((byte as nat, more)),
        byte >= 0x80 ==> match varint(more) {
            Some((n, rest)) => varint(seq![byte] + more) == if more.len() - rest.len() < 10 {
                Some((((byte - 0x80 + 0x80 * n) % 0x1_0000_0000_0000_0000) as nat, rest))
            } else {
                None
            },
            None => varint(seq![byte] + more) is None,
        },
        varint(more) is Some <==> exists|i: int|
            0 <= i < 10 && i < more.len() && #[trigger] more[i] < 0x80,
{
    let bytes = seq![byte] + more;
    assert(bytes.skip(1) =~= more);
    lemma_varint_len(more);
    lemma_ended(more);
    if varint(more) is Some {
        let len = varint_len(more)->Some_0;
        let value = varint_value(more);
        let n = value % 0x1_0000_0000_0000_0000;
        assert(bytes.skip((len + 1) as int) =~= more.skip(len as int));
        assert((byte - 0x80 + 0x80 * n) % 0x1_0000_0000_0000_0000 == (byte - 0x80 + 0x80 * value)
            % 0x1_0000_0000_0000_0000) by {
            let m = 0x1_0000_0000_0000_0000int;
            let q = value as int / m;
            assert(value == q * m + n);
            assert(byte - 0x80 + 0x80 * value == (byte - 0x80 + 0x80 * n) + (0x80 * q) * m)
                by (nonlinear_arith)
                requires
                    value == q * m + n,
            ;
            lemma_mod_multiples_vanish(0x80 * q, byte - 0x80 + 0x80 * n, m);
            assert(m * (0x80 * q) == (0x80 * q) * m) by (nonlinear_arith);
        }
    }
}

/// The length of a number is the place after the first byte below 0x80.
proof fn lemma_ended(bytes: Seq<u8>)
    ensures
        varint_len(bytes) matches Some(n) ==> 1 <= n <= bytes.len() && bytes[n - 1] < 0x80
            && forall|i: int| 0 <= i < n - 1 ==> bytes[i] >= 0x80,
        varint_len(bytes) is None ==> forall|i: int| 0 <= i < bytes.len() ==> bytes[i] >= 0x80,
    decreases bytes.len(),
{
    if bytes.len() > 0 && bytes[0] >= 0x80 {
        let rest = bytes.skip(1);
        lemma_ended(rest);
        assert forall|i: int|
            0 < i < bytes.len() && (varint_len(rest) matches Some(n) ==> i < n) implies bytes[i]
            >= 0x80 by {
            assert(bytes[i] == rest[i - 1]);
        }
        if varint_len(rest) is Some {
            assert(bytes[varint_len(rest)->Some_0 as int] == rest[varint_len(rest)->Some_0 - 1]);
        }
    }
}

/// A field key is the number made of its tag and its wire type, and every such
/// number of 32 bits is one, where the tag is not 0 and the wire type is one of
/// six.
pub proof fn law_key(bytes: Seq<u8>, tag: u32, wire: u8, rest: Seq<u8>)
    ensures
        field_key(bytes) == Some((tag, wire, rest)) <==> {
            &&& varint(bytes) == Some(((tag * 8 + wire) as nat, rest))
            &&& tag * 8 + wire <= u32::MAX
            &&& tag >= 1
            &&& wire <= 5
        },
{
}

/// Bytes start with a chunk if and only if its wire type says so and they start
/// with a number of bytes that follow. The chunk is as many bytes as that number
/// says, and nothing is left out between it and the rest.
pub proof fn law_chunk(wire: u8, bytes: Seq<u8>, held: Seq<u8>, rest: Seq<u8>)
    ensures
        chunk(wire, bytes) == Some((held, rest)) <==> wire == 2 && varint(bytes) == Some(
            (held.len(), held + rest),
        ),
        chunk(wire, bytes) is Some <==> {
            &&& wire == 2
            &&& varint(bytes) matches Some((n, left))
            &&& n <= left.len()
        },
{
    assert((held + rest).take(held.len() as int) =~= held);
    assert((held + rest).skip(held.len() as int) =~= rest);
    if let Some((n, left)) = varint(bytes) {
        if n <= left.len() {
            assert(left.take(n as int) + left.skip(n as int) =~= left);
        }
    }
}

/// A value that is not of interest is passed over by its wire type: a number, a
/// chunk, eight bytes or four. The end of a group is no value, and no value is
/// passed over at a depth of none.
pub proof fn law_value_is_passed_over(wire: u8, tag: u32, bytes: Seq<u8>, depth: nat)
    ensures
        depth == 0 ==> past(wire, tag, bytes, depth) == Err::<Seq<u8>, _>(
            "recursion limit reached"@,
        ),
        depth > 0 && wire == 0 ==> past(wire, tag, bytes, depth) == match varint(bytes) {
            Some((_, rest)) => Ok(rest),
            None => Err("invalid varint"@),
        },
        depth > 0 && wire == 1 ==> past(wire, tag, bytes, depth) == if bytes.len() >= 8 {
            Ok(bytes.skip(8))
        } else {
            Err("buffer underflow"@)
        },
        depth > 0 && wire == 2 ==> past(wire, tag, bytes, depth) == match varint(bytes) {
            Some((n, rest)) => if n <= rest.len() {
                Ok(rest.skip(n as int))
            } else {
                Err("buffer underflow"@)
            },
            None => Err("invalid varint"@),
        },
        depth > 0 && wire == 3 ==> past(wire, tag, bytes, depth) == past_group(
            tag,
            bytes,
            (depth - 1) as nat,
        ),
        depth > 0 && wire == 4 ==> past(wire, tag, bytes, depth) == Err::<Seq<u8>, _>(
            "unexpected end group tag"@,
        ),
        depth > 0 && wire == 5 ==> past(wire, tag, bytes, depth) == if bytes.len() >= 4 {
            Ok(bytes.skip(4))
        } else {
            Err("buffer underflow"@)
        },
{
}

/// A group is passed over field by field, up to its end, which has its tag. One
/// field that cannot be passed over is enough for the group not to be.
pub proof fn law_group_is_passed_over(
    tag: u32,
    bytes: Seq<u8>,
    depth: nat,
    inner: u32,
    wire: u8,
    value: Seq<u8>,
)
    requires
        field_key(bytes) == Some((inner, wire, value)),
    ensures
        wire == 4 ==> past_group(tag, bytes, depth) == if inner == tag {
            Ok(value)
        } else {
            Err("unexpected end group tag"@)
        },
        wire != 4 ==> past_group(tag, bytes, depth) == match past(wire, inner, value, depth) {
            Ok(rest) => past_group(tag, rest, depth),
            Err(fault) => Err(fault),
        },
{
    lemma_field_key_shorter(bytes);
    lemma_past_shorter(wire, inner, value, depth);
}

/// A group without a field or an end at its start cannot be passed over, for
/// the reason that bytes without a field do not decode.
pub proof fn law_group_needs_an_end(tx: TxView, tag: u32, bytes: Seq<u8>, depth: nat)
    requires
        field_key(bytes) is None,
    ensures
        past_group(tag, bytes, depth) matches Err(fault) && (bytes.len() > 0 ==> tx.merge(bytes)
            == Err::<TxView, Seq<char>>("failed to decode Protobuf message: "@ + fault)),
        bytes.len() == 0 ==> past_group(tag, bytes, depth) == Err::<Seq<u8>, _>(
            "invalid varint"@,
        ),
{
}

} // verus!
