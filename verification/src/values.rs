//! The value codec: the symmetric binary serialization of user data.
//!
//! Method arguments and data-returning results are trees of primitive
//! values: 32-bit signed integers and records, a record being the ordered
//! sequence of its field values (fields are identified by position, in
//! declaration order; an argument tuple is encoded as a record of the
//! positional arguments). The encoding is self-describing:
//!
//! - `I32(x)`: tag `0`, then 4 bytes of `x`, little-endian two's
//!   complement;
//! - `Record(fields)`: tag `1`, 8 bytes with the field count,
//!   little-endian, then the encodings of the fields in order.
//!
//! The `spec` functions fix the format, the executable pair is proved
//! equal to them, and the round-trip lemma shows decoding inverts encoding
//! for every well-formed value. Decoding anything else fails with
//! [`RpcError::Malformed`]; a frame that is not consumed exactly is
//! malformed too, so there are no partial results.

use crate::errors::RpcError;
use vstd::bytes::{
    lemma_auto_spec_u32_to_from_le_bytes, lemma_auto_spec_u64_to_from_le_bytes,
    spec_u32_from_le_bytes, spec_u32_to_le_bytes, spec_u64_from_le_bytes, spec_u64_to_le_bytes,
    u32_from_le_bytes, u32_to_le_bytes, u64_from_le_bytes, u64_to_le_bytes,
};
use vstd::prelude::*;

verus! {

broadcast use vstd::std_specs::vec::axiom_vec_index_decreases;

/// A tree of primitive values, as method arguments and return payloads
/// are shaped.
#[derive(Debug, PartialEq, Eq)]
pub enum Value {
    /// A 32-bit signed integer.
    I32(i32),
    /// A record: its field values in declaration order.
    Record(Vec<Value>),
}

/// Ghost model of [`Value`].
pub enum SpecValue {
    I32(i32),
    Record(Seq<SpecValue>),
}

/// The model of an executable value.
pub open spec fn spec_value_of(v: Value) -> SpecValue
    decreases v,
{
    match v {
        Value::I32(x) => SpecValue::I32(x),
        Value::Record(fields) => SpecValue::Record(spec_values_of(fields, 0)),
    }
}

/// The models of the fields of a record, from index `i` on.
pub open spec fn spec_values_of(fields: Vec<Value>, i: int) -> Seq<SpecValue>
    decreases fields, fields@.len() - i,
{
    if i < 0 || i >= fields@.len() {
        Seq::empty()
    } else {
        seq![spec_value_of(fields@[i])] + spec_values_of(fields, i + 1)
    }
}

impl View for Value {
    type V = SpecValue;

    open spec fn view(&self) -> SpecValue {
        spec_value_of(*self)
    }
}

/// Whether a ghost value is the model of some machine value: every record
/// is small enough for its field count to fit the 8 count bytes.
pub open spec fn spec_value_wf(v: SpecValue) -> bool
    decreases v,
{
    match v {
        SpecValue::I32(_) => true,
        SpecValue::Record(elems) => elems.len() < 0x1_0000_0000_0000_0000 && spec_values_wf(
            elems,
            0,
        ),
    }
}

/// Well-formedness of a sequence of ghost values, from index `i` on.
pub open spec fn spec_values_wf(elems: Seq<SpecValue>, i: int) -> bool
    decreases elems, elems.len() - i,
{
    if i < 0 || i >= elems.len() {
        true
    } else {
        spec_value_wf(elems[i]) && spec_values_wf(elems, i + 1)
    }
}

/// The byte string that encodes a value.
pub open spec fn spec_encode_value(v: SpecValue) -> Seq<u8>
    decreases v,
{
    match v {
        SpecValue::I32(x) => seq![0u8] + spec_u32_to_le_bytes(x as u32),
        SpecValue::Record(elems) => seq![1u8] + spec_u64_to_le_bytes(elems.len() as u64)
            + spec_encode_values(elems, 0),
    }
}

/// The concatenated encodings of a sequence of values, from index `i` on.
pub open spec fn spec_encode_values(elems: Seq<SpecValue>, i: int) -> Seq<u8>
    decreases elems, elems.len() - i,
{
    if i < 0 || i >= elems.len() {
        Seq::empty()
    } else {
        spec_encode_value(elems[i]) + spec_encode_values(elems, i + 1)
    }
}

/// The value a byte string starts with, if any, together with the number
/// of bytes its encoding occupies.
pub open spec fn spec_decode_value(s: Seq<u8>) -> Option<(SpecValue, int)>
    decreases s.len(), 0int,
{
    if s.len() >= 5 && s[0] == 0u8 {
        Some((SpecValue::I32(spec_u32_from_le_bytes(s.subrange(1, 5)) as i32), 5))
    } else if s.len() >= 9 && s[0] == 1u8 {
        let n = spec_u64_from_le_bytes(s.subrange(1, 9));
        match spec_decode_values(s.skip(9), n) {
            Some((elems, k)) => Some((SpecValue::Record(elems), 9 + k)),
            None => None,
        }
    } else {
        None
    }
}

/// `n` consecutive values at the head of a byte string, if present, with
/// the number of bytes they occupy.
pub open spec fn spec_decode_values(s: Seq<u8>, n: u64) -> Option<(Seq<SpecValue>, int)>
    decreases s.len(), n + 1int,
{
    if n == 0 {
        Some((Seq::empty(), 0))
    } else {
        match spec_decode_value(s) {
            Some((v, k)) => if 1 <= k <= s.len() {
                match spec_decode_values(s.skip(k), (n - 1) as u64) {
                    Some((elems, k2)) => Some((seq![v] + elems, k + k2)),
                    None => None,
                }
            } else {
                None
            },
            None => None,
        }
    }
}

/// A decoded value occupies at least 5 and at most all of the bytes.
pub proof fn lemma_decode_value_bounds(s: Seq<u8>)
    ensures
        spec_decode_value(s) matches Some((_, k)) ==> 5 <= k <= s.len(),
    decreases s.len(), 0int,
{
    if s.len() >= 9 && s[0] == 1u8 {
        let n = spec_u64_from_le_bytes(s.subrange(1, 9));
        lemma_decode_values_bounds(s.skip(9), n);
    }
}

/// A decoded value sequence occupies at most all of the bytes, and one
/// decoded element per requested count.
pub proof fn lemma_decode_values_bounds(s: Seq<u8>, n: u64)
    ensures
        spec_decode_values(s, n) matches Some((elems, k))
            ==> 0 <= k <= s.len() && elems.len() == n,
    decreases s.len(), n + 1int,
{
    if n != 0 {
        lemma_decode_value_bounds(s);
        match spec_decode_value(s) {
            Some((v, k)) => {
                if 1 <= k <= s.len() {
                    lemma_decode_values_bounds(s.skip(k), (n - 1) as u64);
                }
            },
            None => {},
        }
    }
}

/// The field models of the tail of a sequence, element by element.
pub proof fn lemma_values_of_props(fields: Vec<Value>, i: int)
    requires
        0 <= i <= fields@.len(),
    ensures
        spec_values_of(fields, i).len() == fields@.len() - i,
        forall|j: int|
            i <= j < fields@.len() ==> spec_values_of(fields, i)[j - i] == spec_value_of(
                #[trigger] fields@[j],
            ),
    decreases fields@.len() - i,
{
    if i < fields@.len() {
        lemma_values_of_props(fields, i + 1);
    }
}

/// Pushing one more field appends its model to the field models.
pub proof fn lemma_values_of_push(fields1: Vec<Value>, fields2: Vec<Value>, v: Value, i: int)
    requires
        0 <= i <= fields1@.len(),
        fields2@ == fields1@.push(v),
    ensures
        spec_values_of(fields2, i) == spec_values_of(fields1, i) + seq![spec_value_of(v)],
    decreases fields1@.len() - i,
{
    if i == fields1@.len() {
        assert(fields2@[i] == v);
        assert(spec_values_of(fields2, i + 1) =~= Seq::<SpecValue>::empty());
        assert(spec_values_of(fields2, i) =~= seq![spec_value_of(v)]);
        assert(spec_values_of(fields1, i) =~= Seq::<SpecValue>::empty());
        assert(spec_values_of(fields1, i) + seq![spec_value_of(v)] =~= seq![spec_value_of(v)]);
    } else {
        lemma_values_of_push(fields1, fields2, v, i + 1);
        assert(fields2@[i] == fields1@[i]);
        assert(spec_values_of(fields2, i) =~= spec_values_of(fields1, i) + seq![
            spec_value_of(v),
        ]);
    }
}

/// Encode a value as its byte string.
pub fn encode_value(v: &Value) -> (r: Vec<u8>)
    ensures
        r@ == spec_encode_value(v@),
    decreases v,
{
    proof {
        lemma_auto_spec_u32_to_from_le_bytes();
        lemma_auto_spec_u64_to_from_le_bytes();
    }
    match v {
        Value::I32(x) => {
            let mut out: Vec<u8> = Vec::new();
            out.push(0u8);
            let mut payload = u32_to_le_bytes(*x as u32);
            out.append(&mut payload);
            proof {
                assert(out@ =~= spec_encode_value(v@));
            }
            out
        },
        Value::Record(fields) => {
            let mut out: Vec<u8> = Vec::new();
            out.push(1u8);
            let n = fields.len();
            let mut count_bytes = u64_to_le_bytes(n as u64);
            out.append(&mut count_bytes);
            let mut body = encode_values_from(fields, 0);
            out.append(&mut body);
            proof {
                lemma_values_of_props(*fields, 0);
                assert(out@ =~= spec_encode_value(v@));
            }
            out
        },
    }
}

/// Encode the fields of a record from index `i` on, concatenated.
fn encode_values_from(fields: &Vec<Value>, i: usize) -> (r: Vec<u8>)
    requires
        i <= fields@.len(),
    ensures
        r@ == spec_encode_values(spec_values_of(*fields, 0), i as int),
    decreases fields, fields@.len() - i,
{
    proof {
        lemma_values_of_props(*fields, 0);
    }
    if i == fields.len() {
        let out: Vec<u8> = Vec::new();
        proof {
            assert(out@ =~= spec_encode_values(spec_values_of(*fields, 0), i as int));
        }
        out
    } else {
        proof {
            vstd::std_specs::vec::axiom_vec_index_decreases(*fields, i as int);
        }
        let mut out = encode_value(&fields[i]);
        let mut rest = encode_values_from(fields, i + 1);
        out.append(&mut rest);
        proof {
            let elems = spec_values_of(*fields, 0);
            assert(out@ =~= spec_encode_value(elems[i as int]) + spec_encode_values(
                elems,
                i + 1int,
            ));
        }
        out
    }
}

/// Decode the value that starts at `pos`, returning it with the position
/// just past its encoding. Fails with `Malformed` when no value starts
/// there.
pub fn decode_value_at(bytes: &[u8], pos: usize) -> (r: Result<(Value, usize), RpcError>)
    requires
        pos <= bytes@.len(),
    ensures
        match spec_decode_value(bytes@.skip(pos as int)) {
            Some((sv, k)) => r matches Ok((v, newpos)) && v@ == sv && newpos == pos + k,
            None => r == Err::<(Value, usize), RpcError>(RpcError::Malformed),
        },
    decreases bytes@.len() - pos,
{
    proof {
        lemma_auto_spec_u32_to_from_le_bytes();
        lemma_auto_spec_u64_to_from_le_bytes();
    }
    let n = bytes.len();
    let ghost suffix = bytes@.skip(pos as int);
    if n - pos >= 5 && bytes[pos] == 0u8 {
        proof {
            assert(bytes@.subrange(pos + 1, pos + 5) =~= suffix.subrange(1, 5));
        }
        let x = u32_from_le_bytes(&bytes[pos + 1..pos + 5]);
        Ok((Value::I32(x as i32), pos + 5))
    } else if n - pos >= 9 && bytes[pos] == 1u8 {
        proof {
            assert(bytes@.subrange(pos + 1, pos + 9) =~= suffix.subrange(1, 9));
        }
        let count = u64_from_le_bytes(&bytes[pos + 1..pos + 9]);
        let ghost fields_area = suffix.skip(9);
        proof {
            assert(fields_area =~= bytes@.skip(pos + 9));
        }
        let mut fields: Vec<Value> = Vec::new();
        let mut cur: usize = pos + 9;
        let mut j: u64 = 0;
        proof {
            assert(spec_values_of(fields, 0) =~= Seq::<SpecValue>::empty());
            assert(match spec_decode_values(bytes@.skip(cur as int), (count - j) as u64) {
                Some((elems2, k2)) => Some((spec_values_of(fields, 0) + elems2, k2)) == Some::<
                    (Seq<SpecValue>, int),
                >((elems2, k2)),
                None => true,
            }) by {
                match spec_decode_values(bytes@.skip(cur as int), (count - j) as u64) {
                    Some((elems2, k2)) => {
                        assert(spec_values_of(fields, 0) + elems2 =~= elems2);
                    },
                    None => {},
                }
            }
        }
        while j < count
            invariant
                pos + 9 <= cur <= n,
                n == bytes@.len(),
                j <= count,
                suffix == bytes@.skip(pos as int),
                suffix.len() >= 9,
                suffix[0] == 1u8,
                count == spec_u64_from_le_bytes(suffix.subrange(1, 9)),
                fields_area == suffix.skip(9),
                fields_area == bytes@.skip(pos + 9 as int),
                spec_decode_values(fields_area, count) == (match spec_decode_values(
                    bytes@.skip(cur as int),
                    (count - j) as u64,
                ) {
                    Some((elems2, k2)) => Some::<(Seq<SpecValue>, int)>(
                        (spec_values_of(fields, 0) + elems2, (cur - (pos + 9)) + k2),
                    ),
                    None => None::<(Seq<SpecValue>, int)>,
                }),
            decreases count - j,
        {
            let ghost rem = bytes@.skip(cur as int);
            match decode_value_at(bytes, cur) {
                Err(_) => {
                    proof {
                        assert(spec_decode_values(rem, (count - j) as u64) is None);
                        assert(spec_decode_value(suffix) is None);
                    }
                    return Err(RpcError::Malformed);
                },
                Ok((v, newpos)) => {
                    proof {
                        lemma_decode_value_bounds(rem);
                        assert(rem.skip((newpos - cur) as int) =~= bytes@.skip(newpos as int));
                    }
                    let ghost prev_fields = fields;
                    fields.push(v);
                    proof {
                        lemma_values_of_push(prev_fields, fields, v, 0);
                        match spec_decode_values(bytes@.skip(newpos as int), (count - j
                            - 1) as u64) {
                            Some((elems2, k2)) => {
                                assert(spec_values_of(prev_fields, 0) + (seq![v@] + elems2)
                                    =~= spec_values_of(fields, 0) + elems2);
                            },
                            None => {},
                        }
                    }
                    cur = newpos;
                    j = j + 1;
                },
            }
        }
        proof {
            assert(spec_decode_values(bytes@.skip(cur as int), 0) == Some::<(Seq<SpecValue>, int)>(
                (Seq::empty(), 0),
            ));
            assert(spec_values_of(fields, 0) + Seq::<SpecValue>::empty() =~= spec_values_of(
                fields,
                0,
            ));
            assert(spec_decode_values(fields_area, count) == Some::<(Seq<SpecValue>, int)>(
                (spec_values_of(fields, 0), (cur - (pos + 9)) as int),
            ));
        }
        Ok((Value::Record(fields), cur))
    } else {
        Err(RpcError::Malformed)
    }
}

/// Decode one whole frame as a value: the bytes must hold exactly one
/// encoded value, with nothing before or after it.
pub fn decode_value(bytes: &[u8]) -> (r: Result<Value, RpcError>)
    ensures
        match spec_decode_value(bytes@) {
            Some((sv, k)) => if k == bytes@.len() {
                r matches Ok(v) && v@ == sv
            } else {
                r == Err::<Value, RpcError>(RpcError::Malformed)
            },
            None => r == Err::<Value, RpcError>(RpcError::Malformed),
        },
{
    proof {
        assert(bytes@.skip(0) =~= bytes@);
    }
    match decode_value_at(bytes, 0) {
        Ok((v, newpos)) => {
            if newpos == bytes.len() {
                Ok(v)
            } else {
                Err(RpcError::Malformed)
            }
        },
        Err(e) => Err(e),
    }
}

/// Round trip for values: decoding an encoded well-formed value yields
/// the value back and consumes exactly its encoding, whatever bytes
/// follow it.
pub proof fn lemma_value_round_trip(v: SpecValue, rest: Seq<u8>)
    requires
        spec_value_wf(v),
    ensures
        spec_decode_value(spec_encode_value(v) + rest) == Some(
            (v, spec_encode_value(v).len() as int),
        ),
    decreases v, 0int,
{
    lemma_auto_spec_u32_to_from_le_bytes();
    lemma_auto_spec_u64_to_from_le_bytes();
    let e = spec_encode_value(v) + rest;
    match v {
        SpecValue::I32(x) => {
            assert(e.subrange(1, 5) =~= spec_u32_to_le_bytes(x as u32));
            assert(((x as u32) as i32) == x) by (bit_vector);
            assert(e[0] == 0u8);
            assert(e.len() >= 5);
        },
        SpecValue::Record(elems) => {
            let count_bytes = spec_u64_to_le_bytes(elems.len() as u64);
            assert(e[0] == 1u8);
            assert(e.len() >= 9);
            assert(e.subrange(1, 9) =~= count_bytes);
            assert(e.skip(9) =~= spec_encode_values(elems, 0) + rest);
            lemma_values_round_trip(elems, 0, rest);
            assert(elems.skip(0) =~= elems);
            assert((elems.len() as u64) as int == elems.len());
        },
    }
}

/// Round trip for the tail of a value sequence, from index `i` on.
pub proof fn lemma_values_round_trip(elems: Seq<SpecValue>, i: int, rest: Seq<u8>)
    requires
        0 <= i <= elems.len(),
        elems.len() < 0x1_0000_0000_0000_0000,
        spec_values_wf(elems, i),
    ensures
        spec_decode_values(spec_encode_values(elems, i) + rest, (elems.len() - i) as u64) == Some(
            (elems.skip(i), spec_encode_values(elems, i).len() as int),
        ),
    decreases elems, elems.len() - i,
{
    if i == elems.len() {
        assert(spec_encode_values(elems, i) =~= Seq::<u8>::empty());
        assert(spec_encode_values(elems, i) + rest =~= rest);
        assert(elems.skip(i) =~= Seq::<SpecValue>::empty());
    } else {
        let head = spec_encode_value(elems[i]);
        let tail = spec_encode_values(elems, i + 1);
        let e = spec_encode_values(elems, i) + rest;
        assert(e =~= head + (tail + rest));
        lemma_value_round_trip(elems[i], tail + rest);
        assert(e.skip(head.len() as int) =~= tail + rest);
        lemma_values_round_trip(elems, i + 1, rest);
        assert(seq![elems[i]] + elems.skip(i + 1) =~= elems.skip(i));
    }
}

} // verus!
