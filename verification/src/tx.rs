//! Transactions.

use vstd::prelude::*;

use crate::wire::{decode_key, merge_bytes, skip_field};
use crate::wire::{
    chunk, chunk_fault, error_text, field_error_text, field_key, group_limit, key_fault,
    lemma_chunk_shorter, lemma_field_key_shorter, lemma_past_shorter, skipped,
};

verus! {

/// A transaction: the code to run and the data to run it on, if any.
#[derive(Debug, PartialEq, Eq)]
pub struct Tx {
    pub code: Vec<u8>,
    pub data: Option<Vec<u8>>,
}

/// The model of a [`Tx`].
#[verifier::ext_equal]
pub struct TxView {
    pub code: Seq<u8>,
    pub data: Option<Seq<u8>>,
}

impl View for Tx {
    type V = TxView;

    open spec fn view(&self) -> TxView {
        TxView {
            code: self.code@,
            data: match self.data {
                Some(data) => Some(data@),
                None => None,
            },
        }
    }
}

/// The tag of the field `code`.
pub const CODE_TAG: u32 = 1;

/// The tag of the field `data`.
pub const DATA_TAG: u32 = 2;

impl TxView {
    /// The transaction that no field has been read of.
    pub open spec fn blank() -> TxView {
        TxView { code: Seq::empty(), data: None }
    }

    /// The transaction after the fields in `bytes` have been read into it, one
    /// after the other. A later field replaces an earlier one of the same tag,
    /// and a field of an unknown tag is passed over.
    pub open spec fn merge(self, bytes: Seq<u8>) -> Result<TxView, Seq<char>>
        decreases bytes.len(),
    {
        if bytes.len() == 0 {
            Ok(self)
        } else {
            proof {
                lemma_field_key_shorter(bytes);
            }
            match field_key(bytes) {
                None => Err(error_text(key_fault(bytes))),
                Some((tag, wire, value)) => {
                    proof {
                        lemma_chunk_shorter(wire, value);
                        lemma_past_shorter(wire, tag, value, group_limit());
                    }
                    if tag == CODE_TAG {
                        match chunk(wire, value) {
                            None => Err(
                                field_error_text("Tx"@, "code"@, chunk_fault(wire, value)),
                            ),
                            Some((code, rest)) => (TxView { code, ..self }).merge(rest),
                        }
                    } else if tag == DATA_TAG {
                        match chunk(wire, value) {
                            None => Err(
                                field_error_text("Tx"@, "data"@, chunk_fault(wire, value)),
                            ),
                            Some((data, rest)) => (TxView { data: Some(data), ..self }).merge(rest),
                        }
                    } else {
                        match skipped(wire, tag, value) {
                            Err(fault) => Err(error_text(fault)),
                            Ok(rest) => self.merge(rest),
                        }
                    }
                },
            }
        }
    }

    /// The transaction that `bytes` encode.
    pub open spec fn decode(bytes: Seq<u8>) -> Result<TxView, Seq<char>> {
        TxView::blank().merge(bytes)
    }

    /// The data to run the transaction on: empty where there is none.
    pub open spec fn input(self) -> Seq<u8> {
        match self.data {
            Some(data) => data,
            None => Seq::empty(),
        }
    }
}

/// A decoding result, taken by its model.
pub open spec fn decoded_view(result: Result<Tx, String>) -> Result<TxView, Seq<char>> {
    match result {
        Ok(tx) => Ok(tx@),
        Err(error) => Err(error@),
    }
}

impl Tx {
    /// Decodes a transaction from its wire format. All of `bytes` is read.
    pub fn decode(bytes: &[u8]) -> (result: Result<Tx, String>)
        ensures
            decoded_view(result) == TxView::decode(bytes@),
            match result {
                Ok(tx) => TxView::decode(bytes@) == Ok::<_, Seq<char>>(tx@),
                Err(error) => TxView::decode(bytes@) == Err::<TxView, _>(error@),
            },
    {
        let mut tx = Tx { code: Vec::new(), data: None };
        let mut rest: &[u8] = bytes;
        assert(tx@ =~= TxView::blank());
        while rest.len() > 0
            invariant
                tx@.merge(rest@) == TxView::decode(bytes@),
            decreases rest@.len(),
        {
            proof {
                lemma_field_key_shorter(rest@);
            }
            let (tag, wire, value) = match decode_key(rest) {
                Ok(key) => key,
                Err(error) => {
                    return Err(error);
                },
            };
            proof {
                lemma_chunk_shorter(wire, value@);
                lemma_past_shorter(wire, tag, value@, group_limit());
            }
            if tag == CODE_TAG {
                match merge_bytes(wire, "Tx", "code", value) {
                    Ok((code, next)) => {
                        let ghost before = tx@;
                        tx.code = code;
                        rest = next;
                        assert(tx@ =~= (TxView { code: code@, ..before }));
                    },
                    Err(error) => {
                        return Err(error);
                    },
                }
            } else if tag == DATA_TAG {
                match merge_bytes(wire, "Tx", "data", value) {
                    Ok((data, next)) => {
                        let ghost before = tx@;
                        tx.data = Some(data);
                        rest = next;
                        assert(tx@ =~= (TxView { data: Some(data@), ..before }));
                    },
                    Err(error) => {
                        return Err(error);
                    },
                }
            } else {
                match skip_field(wire, tag, value) {
                    Ok(next) => {
                        rest = next;
                    },
                    Err(error) => {
                        return Err(error);
                    },
                }
            }
        }
        Ok(tx)
    }

    /// The code of the transaction, and the data to run it on.
    pub fn split(self) -> (parts: (Vec<u8>, Vec<u8>))
        ensures
            parts.0@ == self@.code,
            parts.1@ == self@.input(),
            parts.0@ == self.code@,
            parts.1@ == (match self.data {
                Some(data) => data@,
                None => Seq::empty(),
            }),
    {
        let data = match self.data {
            Some(data) => data,
            None => Vec::new(),
        };
        (self.code, data)
    }
}

} // verus!
